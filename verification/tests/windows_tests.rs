use app_launcher::catalog::{Application, CatalogEntry, LaunchSpec};
use app_launcher::registry::{on_select, LaunchRegistry};
use app_launcher::windows::{
    additional_request, appdata_request, cache_request, cached_icon_path,
    enumerate_request, holds_name, icon_name, icon_request, icons_dir, quote, start_menu_paths,
    start_menu_request, windows_application, windows_launch, windows_pass, WindowsAppInfo,
};

fn owned(items: &[&str]) -> Vec<String> {
    items.iter().map(|s| s.to_string()).collect()
}

fn shortcut(base: &str) -> WindowsAppInfo {
    WindowsAppInfo {
        full_name: format!("C:\\Menu\\{}.lnk", base),
        extension: ".lnk".to_string(),
        base_name: base.to_string(),
    }
}

fn executable(base: &str) -> WindowsAppInfo {
    WindowsAppInfo {
        full_name: format!("D:\\Tools\\{}.exe", base),
        extension: ".exe".to_string(),
        base_name: base.to_string(),
    }
}

#[test]
fn quote_wraps_in_double_quotes() {
    assert_eq!(quote("a b"), "\"a b\"");
    assert_eq!(quote(""), "\"\"");
}

#[test]
fn icon_cache_is_under_the_data_directory() {
    assert_eq!(icons_dir("data"), "data/windowsIcons");
    assert_eq!(icon_name("Paint"), "Paint.png");
    assert_eq!(cached_icon_path("data", "Paint"), "data/windowsIcons/Paint.png");
}

#[test]
fn cache_request_creates_and_lists() {
    let request = cache_request("data");
    assert_eq!(request.command, "powershell");
    assert_eq!(
        request.args,
        owned(&[
            "-Command",
            "New-Item -ItemType Directory -Path 'data/windowsIcons' -Force; Get-ChildItem -Path 'data/windowsIcons' -Filter *.png | Select-Object -ExpandProperty Name",
        ])
    );
}

#[test]
fn appdata_request_expands_the_variable() {
    let request = appdata_request();
    assert_eq!(request.command, "powershell");
    assert_eq!(request.args, owned(&["$Env:APPDATA"]));
}

#[test]
fn start_menu_paths_are_quoted() {
    assert_eq!(
        start_menu_paths("C:\\Users\\me\\AppData\\Roaming\r\n"),
        owned(&[
            "\"C:\\ProgramData\\Microsoft\\Windows\\Start Menu\"",
            "\"C:\\Users\\me\\AppData\\Roaming\\Microsoft\\Windows\\Start Menu\"",
        ])
    );
}

#[test]
fn start_menu_request_asks_for_shortcuts() {
    let request = start_menu_request("data", " C:\\R ");
    assert_eq!(request.command, "powershell");
    assert_eq!(
        request.args,
        owned(&[
            "data/getWindowsApps.ps1",
            "-FolderPaths",
            "\"C:\\ProgramData\\Microsoft\\Windows\\Start Menu\",\"C:\\R\\Microsoft\\Windows\\Start Menu\"",
            "-FileExtensions",
            "*.lnk",
        ])
    );
}

#[test]
fn enumerate_request_joins_the_paths_with_commas() {
    let request = enumerate_request("d", &owned(&["a", "b", "c"]), "*.x");
    assert_eq!(request.args, owned(&["d/getWindowsApps.ps1", "-FolderPaths", "a,b,c", "-FileExtensions", "*.x"]));
    let none = enumerate_request("d", &Vec::new(), "*.x");
    assert_eq!(none.args[2], "");
}

#[test]
fn additional_request_only_with_additional_paths() {
    assert_eq!(additional_request("data", ""), None);
    assert_eq!(additional_request("data", " , "), None);
    let request = additional_request("data", " D:\\Tools , E:\\Games,").unwrap();
    assert_eq!(request.command, "powershell");
    assert_eq!(
        request.args,
        owned(&[
            "data/getWindowsApps.ps1",
            "-FolderPaths",
            "\"D:\\Tools\",\"E:\\Games\"",
            "-FileExtensions",
            "\"*.exe\", \"*.lnk\"",
        ])
    );
}

#[test]
fn icon_request_names_source_and_target() {
    let request = icon_request("data", &shortcut("Paint"));
    assert_eq!(request.command, "powershell");
    assert_eq!(
        request.args,
        owned(&[
            "data/getIcon.ps1",
            "-InFilePath",
            "\"C:\\Menu\\Paint.lnk\"",
            "-OutFilePath",
            "\"data/windowsIcons/Paint.png\"",
        ])
    );
}

#[test]
fn a_shortcut_is_started_by_the_command_interpreter() {
    let launch = windows_launch(&shortcut("Paint"));
    assert_eq!(launch.command, "cmd");
    assert_eq!(launch.args, owned(&["/c", "start", "", "C:\\Menu\\Paint.lnk"]));
}

#[test]
fn anything_else_is_started_by_the_shell() {
    let launch = windows_launch(&executable("Tool"));
    assert_eq!(launch.command, "powershell");
    assert_eq!(launch.args, owned(&["start", "\"D:\\Tools\\Tool.exe\""]));
    let mut upper = shortcut("Paint");
    upper.extension = ".LNK".to_string();
    assert_eq!(windows_launch(&upper).command, "powershell");
}

#[test]
fn holds_name_is_exact() {
    let names = owned(&["Paint.png", "Notepad.png"]);
    assert!(holds_name(&names, "Paint.png"));
    assert!(!holds_name(&names, "paint.png"));
    assert!(!holds_name(&names, "Paint"));
    assert!(!holds_name(&Vec::new(), "Paint.png"));
}

#[test]
fn a_windows_record_becomes_an_entry_without_description() {
    let kept = windows_application(&shortcut("Paint"), &Vec::new(), "data");
    assert_eq!(
        kept,
        Some(Application {
            entry: CatalogEntry {
                name: "Paint".to_string(),
                description: String::new(),
                icon: "data/windowsIcons/Paint.png".to_string(),
            },
            launch: LaunchSpec {
                command: "cmd".to_string(),
                args: owned(&["/c", "start", "", "C:\\Menu\\Paint.lnk"]),
            },
        })
    );
    assert_eq!(windows_application(&shortcut("Paint"), &owned(&["notepad"]), "data"), None);
    assert!(windows_application(&shortcut("Paint"), &owned(&["PAINT"]), "data").is_some());
}

#[test]
fn a_windows_pass_extracts_only_missing_icons_of_kept_records() {
    let apps = vec![shortcut("Paint"), executable("Tool"), shortcut("Hidden"), shortcut("Notepad")];
    let filter = owned(&["paint", "tool", "notepad"]);
    let cached = owned(&["Paint.png", "Hidden.png"]);
    let mut catalog = Vec::new();
    let mut registry = LaunchRegistry::new();
    let requests = windows_pass(&apps, &filter, &cached, "data", &mut catalog, &mut registry);
    let names: Vec<&str> = catalog.iter().map(|e| e.name.as_str()).collect();
    assert_eq!(names, vec!["Paint", "Tool", "Notepad"]);
    assert_eq!(requests, vec![icon_request("data", &executable("Tool")), icon_request("data", &shortcut("Notepad"))]);
    assert_eq!(on_select(&registry, "Tool").unwrap().command, "powershell");
    assert_eq!(on_select(&registry, "Hidden"), None);
}

#[test]
fn a_windows_pass_extracts_again_for_a_repeated_name() {
    let apps = vec![shortcut("Tool"), executable("Tool")];
    let mut catalog = Vec::new();
    let mut registry = LaunchRegistry::new();
    let requests = windows_pass(&apps, &Vec::new(), &Vec::new(), "data", &mut catalog, &mut registry);
    assert_eq!(requests.len(), 2);
    assert_eq!(catalog.len(), 2);
    assert_eq!(on_select(&registry, "Tool").unwrap().command, "powershell");
}
