use app_launcher::catalog::{Application, CatalogEntry, LaunchSpec};
use app_launcher::macos::{
    bundle_name, dates_are_in_range, home_request, icon_path, is_bundle, macos_application,
    macos_pass, macos_scan_dirs, manifest_path, manifest_paths, read_manifest, select_bundles,
    BundleManifest, DirChild,
};
use app_launcher::registry::{on_select, LaunchRegistry};

fn owned(items: &[&str]) -> Vec<String> {
    items.iter().map(|s| s.to_string()).collect()
}

fn child(dir: &str, name: &str, is_dir: bool) -> DirChild {
    DirChild { path: format!("{}/{}", dir, name), name: name.to_string(), is_dir }
}

fn manifest(name: Option<&str>, description: Option<&str>, icon_file: Option<&str>) -> BundleManifest {
    BundleManifest {
        name: name.map(|s| s.to_string()),
        description: description.map(|s| s.to_string()),
        icon_file: icon_file.map(|s| s.to_string()),
    }
}

fn document(body: &str) -> String {
    format!(
        "<?xml version=\"1.0\" encoding=\"UTF-8\"?>\n<!DOCTYPE plist PUBLIC \"-//Apple//DTD PLIST 1.0//EN\" \"http://www.apple.com/DTDs/PropertyList-1.0.dtd\">\n<plist version=\"1.0\">\n{}\n</plist>\n",
        body
    )
}

#[test]
fn home_lookup_asks_for_the_home_variable() {
    let request = home_request();
    assert_eq!(request.command, "printenv");
    assert_eq!(request.args, owned(&["HOME"]));
}

#[test]
fn scan_dirs_with_a_home_directory() {
    let dirs = macos_scan_dirs(&Some("/Users/me\n".to_string()), &owned(&["/opt/apps", "rel/dir/"]));
    assert_eq!(
        dirs,
        owned(&[
            "/Applications",
            "/System/Applications",
            "/System/Applications/Utilities",
            "/Users/me/Applications",
            "/opt/apps",
            "rel/dir/",
        ])
    );
}

#[test]
fn scan_dirs_without_a_home_directory() {
    let dirs = macos_scan_dirs(&None, &Vec::new());
    assert_eq!(
        dirs,
        owned(&["/Applications", "/System/Applications", "/System/Applications/Utilities"])
    );
}

#[test]
fn a_bundle_is_a_directory_named_dot_app() {
    assert!(is_bundle(&child("/Applications", "Safari.app", true)));
    assert!(!is_bundle(&child("/Applications", "Safari.app", false)));
    assert!(!is_bundle(&child("/Applications", "Utilities", true)));
    assert!(!is_bundle(&child("/Applications", "Safari.app.bak", true)));
    assert!(!is_bundle(&child("/Applications", "Safari.APP", true)));
    assert!(is_bundle(&child("/Applications", ".app", true)));
}

#[test]
fn bundles_are_selected_in_order() {
    let children = vec![
        child("/Applications", "B.app", true),
        child("/Applications", "notes.txt", false),
        child("/Applications", "A.app", true),
        child("/Applications", "Folder", true),
    ];
    let bundles = select_bundles(&children);
    assert_eq!(bundles, vec![child("/Applications", "B.app", true), child("/Applications", "A.app", true)]);
    assert_eq!(
        manifest_paths(&bundles),
        owned(&["/Applications/B.app/Contents/Info.plist", "/Applications/A.app/Contents/Info.plist"])
    );
    assert_eq!(select_bundles(&Vec::new()), Vec::new());
}

#[test]
fn manifest_path_is_inside_the_bundle() {
    assert_eq!(manifest_path("/Applications/Safari.app"), "/Applications/Safari.app/Contents/Info.plist");
}

#[test]
fn icon_file_without_suffix_gets_one() {
    let path = icon_path("/Applications/Foo.app", &manifest(None, None, Some("Foo")));
    assert_eq!(path, "/Applications/Foo.app/Contents/Resources/Foo.icns");
    assert!(path.ends_with("Foo.icns"));
}

#[test]
fn icon_file_with_suffix_is_kept() {
    let with = icon_path("/Applications/Foo.app", &manifest(None, None, Some("Foo.icns")));
    let without = icon_path("/Applications/Foo.app", &manifest(None, None, Some("Foo")));
    assert_eq!(with, "/Applications/Foo.app/Contents/Resources/Foo.icns");
    assert_eq!(with, without);
}

#[test]
fn icon_file_absent_is_app_icon() {
    let path = icon_path("/Applications/Foo.app", &manifest(None, None, None));
    assert_eq!(path, "/Applications/Foo.app/Contents/Resources/AppIcon.icns");
}

#[test]
fn icon_file_is_appended_as_it_is() {
    let path = icon_path("/A/Foo.app", &manifest(None, None, Some("sub/Icon.ICNS")));
    assert_eq!(path, "/A/Foo.app/Contents/Resources/sub/Icon.ICNS.icns");
    let empty = icon_path("/A/Foo.app", &manifest(None, None, Some("")));
    assert_eq!(empty, "/A/Foo.app/Contents/Resources/.icns");
}

#[test]
fn bundle_name_prefers_the_manifest() {
    assert_eq!(bundle_name(&manifest(Some("Safari"), None, None), "Safari Browser.app"), "Safari");
    assert_eq!(bundle_name(&manifest(None, None, None), "Safari Browser.app"), "Safari Browser");
    assert_eq!(bundle_name(&manifest(Some(""), None, None), "Mail.app"), "Mail");
    assert_eq!(bundle_name(&manifest(None, None, None), "Twice.app.app"), "Twice");
    assert_eq!(bundle_name(&manifest(None, None, None), ".app"), "");
}

#[test]
fn a_manifest_is_read_from_a_property_list() {
    let text = document(
        "<dict>\n<key>CFBundleName</key><string>Safari</string>\n<key>NSHumanReadableDescription</key><string>A browser</string>\n<key>CFBundleIconFile</key><string>compass</string>\n<key>CFBundleVersion</key><string>17</string>\n</dict>",
    );
    assert_eq!(
        read_manifest(&text),
        Some(manifest(Some("Safari"), Some("A browser"), Some("compass")))
    );
}

#[test]
fn a_manifest_may_lack_fields() {
    let text = document("<dict>\n<key>CFBundleIdentifier</key><string>com.example</string>\n</dict>");
    assert_eq!(read_manifest(&text), Some(manifest(None, None, None)));
    let empty = document("<dict/>");
    assert_eq!(read_manifest(&empty), Some(manifest(None, None, None)));
}

#[test]
fn a_field_that_is_no_string_counts_as_absent() {
    let text = document(
        "<dict>\n<key>CFBundleName</key><integer>7</integer>\n<key>CFBundleIconFile</key><array><string>x</string></array>\n<key>NSHumanReadableDescription</key><string>d</string>\n</dict>",
    );
    assert_eq!(read_manifest(&text), Some(manifest(None, Some("d"), None)));
}

#[test]
fn what_is_no_dictionary_is_no_manifest() {
    assert_eq!(read_manifest(&document("<array><string>a</string></array>")), None);
    assert_eq!(read_manifest(&document("<string>a</string>")), None);
    assert_eq!(read_manifest("not a property list"), None);
    assert_eq!(read_manifest(""), None);
    assert_eq!(read_manifest("<plist><dict><key>CFBundleName</key>"), None);
}

#[test]
fn a_bundle_becomes_an_entry_opened_by_its_path() {
    let bundle = child("/Applications", "Safari Browser.app", true);
    let kept = macos_application(&bundle, &manifest(Some("Safari"), Some("A browser"), Some("compass.icns")), &Vec::new());
    assert_eq!(
        kept,
        Some(Application {
            entry: CatalogEntry {
                name: "Safari".to_string(),
                description: "A browser".to_string(),
                icon: "/Applications/Safari Browser.app/Contents/Resources/compass.icns".to_string(),
            },
            launch: LaunchSpec {
                command: "open".to_string(),
                args: owned(&["/Applications/Safari Browser.app"]),
            },
        })
    );
}

#[test]
fn a_bundle_without_fields_takes_the_defaults() {
    let bundle = child("/Applications", "Plain.app", true);
    let kept = macos_application(&bundle, &manifest(None, None, None), &Vec::new()).unwrap();
    assert_eq!(kept.entry.name, "Plain");
    assert_eq!(kept.entry.description, "");
    assert_eq!(kept.entry.icon, "/Applications/Plain.app/Contents/Resources/AppIcon.icns");
}

#[test]
fn the_filter_looks_at_the_resolved_name() {
    let bundle = child("/Applications", "Folder.app", true);
    let filter = owned(&["safari"]);
    assert!(macos_application(&bundle, &manifest(Some("Safari"), None, None), &filter).is_some());
    assert_eq!(macos_application(&bundle, &manifest(Some("Mail"), None, None), &filter), None);
    let by_folder = owned(&["FOLDER"]);
    assert!(macos_application(&bundle, &manifest(None, None, None), &by_folder).is_some());
    assert_eq!(macos_application(&bundle, &manifest(Some("Safari"), None, None), &by_folder), None);
}

#[test]
fn a_directory_pass_skips_what_it_cannot_read() {
    let bundles = vec![
        child("/Applications", "A.app", true),
        child("/Applications", "B.app", true),
        child("/Applications", "C.app", true),
        child("/Applications", "D.app", true),
    ];
    let documents = vec![
        Some(document("<dict><key>CFBundleName</key><string>Alpha</string></dict>")),
        None,
        Some("garbage".to_string()),
    ];
    let mut catalog = Vec::new();
    let mut registry = LaunchRegistry::new();
    macos_pass(&bundles, &documents, &Vec::new(), &mut catalog, &mut registry);
    assert_eq!(catalog.len(), 1);
    assert_eq!(catalog[0].name, "Alpha");
    assert_eq!(on_select(&registry, "Alpha").unwrap().args, owned(&["/Applications/A.app"]));
    assert_eq!(on_select(&registry, "B"), None);
    assert_eq!(on_select(&registry, "D"), None);
}

fn dated(date_element: &str) -> String {
    document(&format!(
        "<dict>\n<key>CFBundleName</key><string>Dated</string>\n<key>Built</key>{}\n</dict>",
        date_element
    ))
}

#[test]
fn a_document_without_dates_is_in_range() {
    assert!(dates_are_in_range(""));
    assert!(dates_are_in_range("date"));
    assert!(dates_are_in_range("<dict><key>Last update</key><string>up to date</string></dict>"));
    assert!(dates_are_in_range("<key>CFBundleName</key><string>Candidate</string>"));
    assert!(dates_are_in_range("<dat"));
}

#[test]
fn a_date_is_in_range_by_its_year() {
    assert!(dates_are_in_range("<date>1971-01-01T00:00:00Z</date>"));
    assert!(dates_are_in_range("<date>2024-02-29T12:00:00+05:30</date>"));
    assert!(dates_are_in_range("<date>9998-12-31T23:59:59-23:59</date>"));
    assert!(dates_are_in_range("<x:date>2001-01-01T00:00:00Z</date>"));
    assert!(!dates_are_in_range("<x:date>2001-01-01T00:00:00Z</x:date>"));
    assert!(!dates_are_in_range("<date>1970-12-31T23:59:59Z</date>"));
    assert!(!dates_are_in_range("<date>9999-01-01T00:00:00Z</date>"));
    assert!(!dates_are_in_range("<date>0000-01-01T00:00:00+01:00</date>"));
    assert!(!dates_are_in_range("<x:date>9999-12-31T23:59:59-01:00</x:date>"));
    assert!(!dates_are_in_range(
        "<date>2001-01-01T00:00:00Z</date><date>1969-07-20T20:17:00Z</date>"
    ));
}

#[test]
fn a_date_must_follow_its_tag_at_once() {
    assert!(!dates_are_in_range("<date"));
    assert!(!dates_are_in_range("<date>"));
    assert!(!dates_are_in_range("<date>200"));
    assert!(!dates_are_in_range("<date/>"));
    assert!(!dates_are_in_range("<date >2001-01-01T00:00:00Z</date>"));
    assert!(!dates_are_in_range("<date> 2001-01-01T00:00:00Z</date>"));
    assert!(!dates_are_in_range("<date>&#50;001-01-01T00:00:00Z</date>"));
    assert!(!dates_are_in_range("<date><!-- c -->2001-01-01T00:00:00Z</date>"));
    assert!(!dates_are_in_range("<date>20O1-01-01T00:00:00Z</date>"));
    assert!(!dates_are_in_range("<date>\u{0662}\u{0660}\u{0660}\u{0661}-01-01T00:00:00Z</date>"));
    assert!(!dates_are_in_range("<string>release:date</string>"));
}

#[test]
fn a_manifest_with_a_date_in_range_is_read() {
    let text = dated("<date>2023-06-05T10:20:30Z</date>");
    assert_eq!(read_manifest(&text), Some(manifest(Some("Dated"), None, None)));
    let early = dated("<date>1971-01-01T00:00:00+23:59</date>");
    assert_eq!(read_manifest(&early), Some(manifest(Some("Dated"), None, None)));
    let late = dated("<date>9998-12-31T23:59:59-23:59</date>");
    assert_eq!(read_manifest(&late), Some(manifest(Some("Dated"), None, None)));
}

#[test]
fn a_manifest_with_a_date_out_of_range_is_no_manifest() {
    assert_eq!(
        read_manifest("<plist><dict><key>k</key><date>9999-12-31T23:59:59-01:00</date></dict></plist>"),
        None
    );
    assert_eq!(read_manifest(&dated("<date>9999-12-31T23:59:59-01:00</date>")), None);
    assert_eq!(read_manifest(&dated("<date>0000-01-01T00:00:00+01:00</date>")), None);
    assert_eq!(read_manifest(&dated("<date>1969-12-31T23:59:59Z</date>")), None);
    assert_eq!(read_manifest(&dated("<date>1970-01-01T00:00:00Z</date>")), None);
    assert_eq!(read_manifest(&dated("<date>99<!-- -->99-12-31T23:59:59-01:00</date>")), None);
    assert_eq!(read_manifest(&dated("<date>&#57;999-12-31T23:59:59-01:00</date>")), None);
    assert_eq!(read_manifest(&dated("<a:date>9999-12-31T23:59:59-01:00</a:date>")), None);
}

#[test]
fn a_bundle_with_a_date_out_of_range_is_skipped_alone() {
    let bundles = vec![child("/Applications", "A.app", true), child("/Applications", "B.app", true)];
    let documents = vec![
        Some(dated("<date>9999-12-31T23:59:59-01:00</date>")),
        Some(dated("<date>2020-01-01T00:00:00Z</date>")),
    ];
    let mut catalog = Vec::new();
    let mut registry = LaunchRegistry::new();
    macos_pass(&bundles, &documents, &Vec::new(), &mut catalog, &mut registry);
    assert_eq!(catalog.len(), 1);
    assert_eq!(catalog[0].name, "Dated");
    assert_eq!(on_select(&registry, "Dated").unwrap().args, owned(&["/Applications/B.app"]));
}
