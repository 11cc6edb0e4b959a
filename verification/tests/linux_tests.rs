use app_launcher::catalog::{Application, CatalogEntry, LaunchSpec};
use app_launcher::linux::{
    launch_from_tokens, linux_application, linux_pass, linux_request, starts_with_percent,
    tokenize, AppInfo,
};
use app_launcher::registry::{on_select, LaunchRegistry};

fn owned(items: &[&str]) -> Vec<String> {
    items.iter().map(|s| s.to_string()).collect()
}

fn record(name: &str, exec_line: &str) -> AppInfo {
    AppInfo {
        name: name.to_string(),
        exec_line: exec_line.to_string(),
        description: format!("{} description", name),
        icon_path: format!("/usr/share/icons/{}.png", name),
    }
}

fn launch_of(exec_line: &str) -> Option<LaunchSpec> {
    launch_from_tokens(&tokenize(exec_line))
}

#[test]
fn helper_request_passes_the_paths_unsplit() {
    let request = linux_request(" /a , /b ");
    assert_eq!(request.command, "/data/linux_list_apps");
    assert_eq!(request.args, owned(&[" /a , /b "]));
    let none = linux_request("");
    assert_eq!(none.args, owned(&[""]));
}

#[test]
fn exec_with_placeholder_drops_it() {
    let launch = launch_of("app --flag %f").unwrap();
    assert_eq!(launch.command, "app");
    assert_eq!(launch.args, owned(&["--flag"]));
}

#[test]
fn exec_with_one_token_has_no_arguments() {
    let launch = launch_of("onlytoken").unwrap();
    assert_eq!(launch.command, "onlytoken");
    assert_eq!(launch.args, Vec::<String>::new());
}

#[test]
fn exec_respects_quotes_and_escapes() {
    assert_eq!(tokenize("sh -c \"echo hi\" 'a b' c\\ d"), owned(&["sh", "-c", "echo hi", "a b", "c d"]));
    let launch = launch_of("\"/opt/My App/run\" --url %U").unwrap();
    assert_eq!(launch.command, "/opt/My App/run");
    assert_eq!(launch.args, owned(&["--url"]));
}

#[test]
fn exec_that_cannot_be_split_is_one_token() {
    assert_eq!(tokenize("foo \"bar"), owned(&["foo \"bar"]));
    let launch = launch_of("foo \"bar").unwrap();
    assert_eq!(launch.command, "foo \"bar");
    assert_eq!(launch.args, Vec::<String>::new());
    assert_eq!(tokenize("%u 'x"), owned(&["%u 'x"]));
    assert_eq!(launch_of("%u 'x"), None);
}

#[test]
fn exec_without_tokens_gives_no_launch() {
    assert_eq!(launch_of(""), None);
    assert_eq!(launch_of("   "), None);
    assert_eq!(launch_of("%U"), None);
    assert_eq!(launch_of("%f %u"), None);
}

#[test]
fn a_leading_placeholder_makes_the_next_token_the_command() {
    let launch = launch_of("%i app %f arg").unwrap();
    assert_eq!(launch.command, "app");
    assert_eq!(launch.args, owned(&["arg"]));
}

#[test]
fn field_codes_start_with_a_percent_sign() {
    assert!(starts_with_percent("%f"));
    assert!(starts_with_percent("%"));
    assert!(starts_with_percent("%%"));
    assert!(!starts_with_percent(""));
    assert!(!starts_with_percent("a%f"));
}

#[test]
fn tokens_are_taken_as_given() {
    let launch = launch_from_tokens(&owned(&["%f", "a b", "", "%U", "c"])).unwrap();
    assert_eq!(launch.command, "a b");
    assert_eq!(launch.args, owned(&["", "c"]));
    assert_eq!(launch_from_tokens(&Vec::new()), None);
}

#[test]
fn a_record_becomes_an_entry_and_a_launch() {
    let kept = linux_application(&record("Firefox", "firefox %u"), &Vec::new());
    assert_eq!(
        kept,
        Some(Application {
            entry: CatalogEntry {
                name: "Firefox".to_string(),
                description: "Firefox description".to_string(),
                icon: "/usr/share/icons/Firefox.png".to_string(),
            },
            launch: LaunchSpec { command: "firefox".to_string(), args: Vec::new() },
        })
    );
}

#[test]
fn a_record_is_skipped_by_the_filter_or_for_want_of_tokens() {
    let filter = owned(&["gimp"]);
    assert_eq!(linux_application(&record("Firefox", "firefox"), &filter), None);
    assert!(linux_application(&record("GIMP", "gimp-2.10 %U"), &filter).is_some());
    assert_eq!(linux_application(&record("Broken", "%f"), &Vec::new()), None);
}

#[test]
fn a_pass_registers_what_it_lists() {
    let apps = vec![record("A", "a --x"), record("NoExec", ""), record("B", "b")];
    let mut catalog = Vec::new();
    let mut registry = LaunchRegistry::new();
    linux_pass(&apps, &Vec::new(), &mut catalog, &mut registry);
    let names: Vec<&str> = catalog.iter().map(|e| e.name.as_str()).collect();
    assert_eq!(names, vec!["A", "B"]);
    assert_eq!(on_select(&registry, "A").unwrap().args, owned(&["--x"]));
    assert_eq!(on_select(&registry, "B").unwrap().command, "b");
    assert_eq!(on_select(&registry, "NoExec"), None);
}
