//! The Windows adapter: Start-Menu shortcuts and executables, as a helper
//! script lists them, become catalog entries and launch specifications; icons
//! are extracted into a cache directory by a second helper script.

use crate::catalog::{
    catalog_after, catalog_view, lemma_outcomes_append, optional_launch, outcome_view, record,
    registry_after, Application, CatalogEntry, EntryView, Found, LaunchSpec, LaunchView,
};
use crate::config::{list_items, name_allowed, parse_list, passes_filter};
use crate::registry::LaunchRegistry;
use crate::text::{
    concat2, concat3, join, joined, same_text, texts, trim, trimmed, Text,
};
use vstd::prelude::*;
use vstd::string::*;

verus! {

/// One record of the enumeration helper's output.
#[derive(Clone, Debug, PartialEq, Eq)]
pub struct WindowsAppInfo {
    /// The file's full path.
    pub full_name: String,
    /// The file's extension, with its dot.
    pub extension: String,
    /// The file's name without the extension.
    pub base_name: String,
}

/// What a record holds.
pub struct WindowsAppView {
    pub full_name: Text,
    pub extension: Text,
    pub base_name: Text,
}

impl View for WindowsAppInfo {
    type V = WindowsAppView;

    open spec fn view(&self) -> WindowsAppView {
        WindowsAppView {
            full_name: self.full_name@,
            extension: self.extension@,
            base_name: self.base_name@,
        }
    }
}

/// The views of a list of records, in order.
pub open spec fn windows_apps(apps: Seq<WindowsAppInfo>) -> Seq<WindowsAppView> {
    Seq::new(apps.len(), |i: int| apps[i]@)
}

/// The views of a list of launch specifications, in order.
pub open spec fn launches(specs: Seq<LaunchSpec>) -> Seq<LaunchView> {
    Seq::new(specs.len(), |i: int| specs[i]@)
}

/// `s` between double quotes.
pub open spec fn quoted(s: Text) -> Text {
    "\""@ + s + "\""@
}

/// Each text between double quotes.
pub open spec fn all_quoted(items: Seq<Text>) -> Seq<Text> {
    Seq::new(items.len(), |i: int| quoted(items[i]))
}

/// The directory of the icon cache.
pub open spec fn icons_dir_of(data_dir: Text) -> Text {
    data_dir + "/windowsIcons"@
}

/// The script that creates the icon cache if need be and lists the names of
/// the images in it.
pub open spec fn cache_script(icons_dir: Text) -> Text {
    "New-Item -ItemType Directory -Path '"@ + icons_dir + "' -Force; Get-ChildItem -Path '"@
        + icons_dir + "' -Filter *.png | Select-Object -ExpandProperty Name"@
}

/// The invocation that prepares and lists the icon cache.
pub open spec fn cache_request_of(data_dir: Text) -> LaunchView {
    LaunchView {
        command: "powershell"@,
        args: seq!["-Command"@, cache_script(icons_dir_of(data_dir))],
    }
}

/// The invocation that resolves the roaming application-data directory.
pub open spec fn appdata_request_of() -> LaunchView {
    LaunchView { command: "powershell"@, args: seq!["$Env:APPDATA"@] }
}

/// The Start-Menu locations that are always searched: the machine-wide one
/// and the user's, under the application-data directory that was resolved.
pub open spec fn start_menu_paths_of(appdata: Text) -> Seq<Text> {
    seq![
        "\"C:\\ProgramData\\Microsoft\\Windows\\Start Menu\""@,
        "\""@ + trimmed(appdata) + "\\Microsoft\\Windows\\Start Menu\""@,
    ]
}

/// The invocation of the enumeration helper over `paths` for the files that
/// match `extensions`.
pub open spec fn enumerate_request_of(data_dir: Text, paths: Seq<Text>, extensions: Text)
    -> LaunchView {
    LaunchView {
        command: "powershell"@,
        args: seq![
            data_dir + "/getWindowsApps.ps1"@,
            "-FolderPaths"@,
            joined(paths, ","@),
            "-FileExtensions"@,
            extensions,
        ],
    }
}

/// The enumeration of shortcuts in the Start-Menu locations.
pub open spec fn start_menu_request_of(data_dir: Text, appdata: Text) -> LaunchView {
    enumerate_request_of(data_dir, start_menu_paths_of(appdata), "*.lnk"@)
}

/// The enumeration of executables and shortcuts in the additional paths, or
/// `None` where no additional path is configured.
pub open spec fn additional_request_of(data_dir: Text, additional_paths: Text) -> Option<
    LaunchView,
> {
    let paths = list_items(additional_paths);
    if paths.len() == 0 {
        None
    } else {
        Some(enumerate_request_of(data_dir, all_quoted(paths), "\"*.exe\", \"*.lnk\""@))
    }
}

/// The file name of an application's icon in the cache.
pub open spec fn icon_name_of(base_name: Text) -> Text {
    base_name + ".png"@
}

/// The path of an application's icon in the cache.
pub open spec fn cached_icon_path_of(data_dir: Text, base_name: Text) -> Text {
    icons_dir_of(data_dir) + "/"@ + icon_name_of(base_name)
}

/// The invocation of the helper that extracts the icon of a file into the
/// cache.
pub open spec fn icon_request_of(data_dir: Text, app: WindowsAppView) -> LaunchView {
    LaunchView {
        command: "powershell"@,
        args: seq![
            data_dir + "/getIcon.ps1"@,
            "-InFilePath"@,
            quoted(app.full_name),
            "-OutFilePath"@,
            quoted(cached_icon_path_of(data_dir, app.base_name)),
        ],
    }
}

/// How a file is launched: a shortcut through the command interpreter's
/// start verb, anything else through the shell's.
pub open spec fn windows_launch_of(app: WindowsAppView) -> LaunchView {
    if app.extension == ".lnk"@ {
        LaunchView {
            command: "cmd"@,
            args: seq!["/c"@, "start"@, Seq::<char>::empty(), app.full_name],
        }
    } else {
        LaunchView { command: "powershell"@, args: seq!["start"@, quoted(app.full_name)] }
    }
}

/// What becomes of one record under a name filter: skipped where its base
/// name does not pass, else kept under that name, without a description.
pub open spec fn windows_outcome(app: WindowsAppView, filter: Seq<Text>, data_dir: Text) -> Option<
    Found,
> {
    if passes_filter(filter, app.base_name) {
        Some(
            Found {
                entry: EntryView {
                    name: app.base_name,
                    description: Seq::<char>::empty(),
                    icon: cached_icon_path_of(data_dir, app.base_name),
                },
                launch: windows_launch_of(app),
            },
        )
    } else {
        None
    }
}

/// The outcomes of the records, one for one.
pub open spec fn windows_outcomes(apps: Seq<WindowsAppView>, filter: Seq<Text>, data_dir: Text)
    -> Seq<Option<Found>> {
    Seq::new(apps.len(), |i: int| windows_outcome(apps[i], filter, data_dir))
}

/// Whether the icon of a record has to be extracted: the record is kept and
/// the cache listing does not hold the icon's file name.
pub open spec fn needs_icon(app: WindowsAppView, filter: Seq<Text>, cached: Seq<Text>) -> bool {
    passes_filter(filter, app.base_name) && !cached.contains(icon_name_of(app.base_name))
}

/// The icon extractions of a pass, in the order of the records.
pub open spec fn icon_requests_of(
    apps: Seq<WindowsAppView>,
    filter: Seq<Text>,
    cached: Seq<Text>,
    data_dir: Text,
) -> Seq<LaunchView>
    decreases apps.len(),
{
    if apps.len() == 0 {
        Seq::<LaunchView>::empty()
    } else {
        let before = icon_requests_of(apps.drop_last(), filter, cached, data_dir);
        if needs_icon(apps.last(), filter, cached) {
            before.push(icon_request_of(data_dir, apps.last()))
        } else {
            before
        }
    }
}

fn powershell(args: Vec<String>) -> (r: LaunchSpec)
    ensures
        r@ == (LaunchView { command: "powershell"@, args: texts(args@) }),
{
    LaunchSpec { command: String::from_str("powershell"), args }
}

/// `s` between double quotes.
pub fn quote(s: &str) -> (r: String)
    ensures
        r@ == quoted(s@),
{
    concat3("\"", s, "\"")
}

/// The directory of the icon cache.
pub fn icons_dir(data_dir: &str) -> (r: String)
    ensures
        r@ == icons_dir_of(data_dir@),
{
    concat2(data_dir, "/windowsIcons")
}

/// The invocation that prepares and lists the icon cache.
pub fn cache_request(data_dir: &str) -> (r: LaunchSpec)
    ensures
        r@ == cache_request_of(data_dir@),
{
    let dir = icons_dir(data_dir);
    let mut script = String::from_str("New-Item -ItemType Directory -Path '");
    script.append(dir.as_str());
    script.append("' -Force; Get-ChildItem -Path '");
    script.append(dir.as_str());
    script.append("' -Filter *.png | Select-Object -ExpandProperty Name");
    let mut args: Vec<String> = Vec::new();
    args.push(String::from_str("-Command"));
    args.push(script);
    proof {
        assert(texts(args@) =~= seq!["-Command"@, cache_script(icons_dir_of(data_dir@))]);
    }
    powershell(args)
}

/// The invocation that resolves the roaming application-data directory.
pub fn appdata_request() -> (r: LaunchSpec)
    ensures
        r@ == appdata_request_of(),
{
    let mut args: Vec<String> = Vec::new();
    args.push(String::from_str("$Env:APPDATA"));
    proof {
        assert(texts(args@) =~= seq!["$Env:APPDATA"@]);
    }
    powershell(args)
}

/// The Start-Menu locations that are always searched.
pub fn start_menu_paths(appdata: &str) -> (r: Vec<String>)
    ensures
        texts(r@) == start_menu_paths_of(appdata@),
{
    let root = trim(appdata);
    let mut r: Vec<String> = Vec::new();
    r.push(String::from_str("\"C:\\ProgramData\\Microsoft\\Windows\\Start Menu\""));
    r.push(concat3("\"", root.as_str(), "\\Microsoft\\Windows\\Start Menu\""));
    proof {
        assert(texts(r@) =~= start_menu_paths_of(appdata@));
    }
    r
}

/// The invocation of the enumeration helper.
pub fn enumerate_request(data_dir: &str, paths: &Vec<String>, extensions: &str) -> (r: LaunchSpec)
    ensures
        r@ == enumerate_request_of(data_dir@, texts(paths@), extensions@),
{
    let mut args: Vec<String> = Vec::new();
    args.push(concat2(data_dir, "/getWindowsApps.ps1"));
    args.push(String::from_str("-FolderPaths"));
    args.push(join(paths, ","));
    args.push(String::from_str("-FileExtensions"));
    args.push(String::from_str(extensions));
    proof {
        assert(texts(args@) =~= enumerate_request_of(
            data_dir@,
            texts(paths@),
            extensions@,
        ).args);
    }
    powershell(args)
}

/// The enumeration of shortcuts in the Start-Menu locations.
pub fn start_menu_request(data_dir: &str, appdata: &str) -> (r: LaunchSpec)
    ensures
        r@ == start_menu_request_of(data_dir@, appdata@),
{
    let paths = start_menu_paths(appdata);
    enumerate_request(data_dir, &paths, "*.lnk")
}

/// The enumeration of executables and shortcuts in the additional paths, if
/// any is configured.
pub fn additional_request(data_dir: &str, additional_paths: &str) -> (r: Option<LaunchSpec>)
    ensures
        optional_launch(r) == additional_request_of(data_dir@, additional_paths@),
{
    let items = parse_list(additional_paths);
    let n: usize = items.len();
    if n == 0 {
        return None;
    }
    let mut paths: Vec<String> = Vec::new();
    let mut i: usize = 0;
    while i < n
        invariant
            n == items.len(),
            i <= n,
            paths@.len() == i,
            forall|j: int| 0 <= j < i ==> (#[trigger] paths@[j])@ == quoted(items@[j]@),
        decreases n - i,
    {
        paths.push(quote(items[i].as_str()));
        i += 1;
    }
    proof {
        assert(texts(paths@) =~= all_quoted(texts(items@)));
    }
    Some(enumerate_request(data_dir, &paths, "\"*.exe\", \"*.lnk\""))
}

/// The file name of an application's icon in the cache.
pub fn icon_name(base_name: &str) -> (r: String)
    ensures
        r@ == icon_name_of(base_name@),
{
    concat2(base_name, ".png")
}

/// The path of an application's icon in the cache.
pub fn cached_icon_path(data_dir: &str, base_name: &str) -> (r: String)
    ensures
        r@ == cached_icon_path_of(data_dir@, base_name@),
{
    let mut r = icons_dir(data_dir);
    r.append("/");
    r.append(base_name);
    r.append(".png");
    proof {
        assert(r@ =~= cached_icon_path_of(data_dir@, base_name@));
    }
    r
}

/// The invocation of the helper that extracts the icon of a file.
pub fn icon_request(data_dir: &str, app: &WindowsAppInfo) -> (r: LaunchSpec)
    ensures
        r@ == icon_request_of(data_dir@, app@),
{
    let target = cached_icon_path(data_dir, app.base_name.as_str());
    let mut args: Vec<String> = Vec::new();
    args.push(concat2(data_dir, "/getIcon.ps1"));
    args.push(String::from_str("-InFilePath"));
    args.push(quote(app.full_name.as_str()));
    args.push(String::from_str("-OutFilePath"));
    args.push(quote(target.as_str()));
    proof {
        assert(texts(args@) =~= icon_request_of(data_dir@, app@).args);
    }
    powershell(args)
}

/// How a file is launched.
pub fn windows_launch(app: &WindowsAppInfo) -> (r: LaunchSpec)
    ensures
        r@ == windows_launch_of(app@),
{
    let mut args: Vec<String> = Vec::new();
    if same_text(app.extension.as_str(), ".lnk") {
        args.push(String::from_str("/c"));
        args.push(String::from_str("start"));
        args.push(String::new());
        args.push(app.full_name.clone());
        proof {
            assert(texts(args@) =~= seq!["/c"@, "start"@, Seq::<char>::empty(), app.full_name@]);
        }
        LaunchSpec { command: String::from_str("cmd"), args }
    } else {
        args.push(String::from_str("start"));
        args.push(quote(app.full_name.as_str()));
        proof {
            assert(texts(args@) =~= seq!["start"@, quoted(app.full_name@)]);
        }
        powershell(args)
    }
}

/// Whether `names` holds `name`.
pub fn holds_name(names: &Vec<String>, name: &str) -> (r: bool)
    ensures
        r == texts(names@).contains(name@),
{
    let n: usize = names.len();
    let mut i: usize = 0;
    while i < n
        invariant
            n == names.len(),
            i <= n,
            forall|j: int| 0 <= j < i ==> texts(names@)[j] != name@,
        decreases n - i,
    {
        if same_text(names[i].as_str(), name) {
            assert(texts(names@)[i as int] == name@);
            return true;
        }
        i += 1;
    }
    false
}

/// What becomes of one record under a name filter.
pub fn windows_application(app: &WindowsAppInfo, filter: &Vec<String>, data_dir: &str) -> (r:
    Option<Application>)
    ensures
        outcome_view(r) == windows_outcome(app@, texts(filter@), data_dir@),
{
    if !name_allowed(filter, app.base_name.as_str()) {
        return None;
    }
    Some(
        Application {
            entry: CatalogEntry {
                name: app.base_name.clone(),
                description: String::new(),
                icon: cached_icon_path(data_dir, app.base_name.as_str()),
            },
            launch: windows_launch(app),
        },
    )
}

/// Processes the records in order: every kept application is registered and
/// appended to the catalog. Returns the icon extractions to attempt, one for
/// each kept application whose icon the cache listing does not hold.
pub fn windows_pass(
    apps: &Vec<WindowsAppInfo>,
    filter: &Vec<String>,
    cached: &Vec<String>,
    data_dir: &str,
    catalog: &mut Vec<CatalogEntry>,
    registry: &mut LaunchRegistry,
) -> (requests: Vec<LaunchSpec>)
    ensures
        catalog_view(final(catalog)@) == catalog_after(
            catalog_view(old(catalog)@),
            windows_outcomes(windows_apps(apps@), texts(filter@), data_dir@),
        ),
        final(registry)@ == registry_after(
            old(registry)@,
            windows_outcomes(windows_apps(apps@), texts(filter@), data_dir@),
        ),
        launches(requests@) == icon_requests_of(
            windows_apps(apps@),
            texts(filter@),
            texts(cached@),
            data_dir@,
        ),
{
    let ghost outcomes = windows_outcomes(windows_apps(apps@), texts(filter@), data_dir@);
    let ghost catalog0 = catalog_view(catalog@);
    let ghost registry0 = registry@;
    let mut requests: Vec<LaunchSpec> = Vec::new();
    let n: usize = apps.len();
    let mut i: usize = 0;
    proof {
        assert(outcomes.take(0) =~= Seq::<Option<Found>>::empty());
        assert(windows_apps(apps@).take(0) =~= Seq::<WindowsAppView>::empty());
        assert(launches(requests@) =~= Seq::<LaunchView>::empty());
    }
    while i < n
        invariant
            n == apps.len(),
            i <= n,
            outcomes == windows_outcomes(windows_apps(apps@), texts(filter@), data_dir@),
            catalog_view(catalog@) == catalog_after(catalog0, outcomes.take(i as int)),
            registry@ == registry_after(registry0, outcomes.take(i as int)),
            launches(requests@) == icon_requests_of(
                windows_apps(apps@).take(i as int),
                texts(filter@),
                texts(cached@),
                data_dir@,
            ),
        decreases n - i,
    {
        let app = &apps[i];
        let outcome = windows_application(app, filter, data_dir);
        proof {
            let upto = windows_apps(apps@).take(i + 1);
            assert(upto.drop_last() =~= windows_apps(apps@).take(i as int));
            assert(upto.last() == app@);
        }
        if outcome.is_some() {
            let wanted = icon_name(app.base_name.as_str());
            if !holds_name(cached, wanted.as_str()) {
                let request = icon_request(data_dir, app);
                proof {
                    assert(launches(requests@.push(request)) =~= launches(requests@).push(
                        request@,
                    ));
                }
                requests.push(request);
            }
        }
        proof {
            lemma_outcomes_append(
                catalog0,
                registry0,
                outcomes.take(i as int),
                seq![outcome_view(outcome)],
            );
            assert(outcomes.take(i as int) + seq![outcome_view(outcome)] =~= outcomes.take(i + 1));
        }
        record(outcome, catalog, registry);
        i += 1;
    }
    proof {
        assert(outcomes.take(n as int) =~= outcomes);
        assert(windows_apps(apps@).take(n as int) =~= windows_apps(apps@));
    }
    requests
}

} // verus!
