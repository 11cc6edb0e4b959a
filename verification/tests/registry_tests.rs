use app_launcher::catalog::LaunchSpec;
use app_launcher::registry::{on_select, LaunchRegistry};

fn spec(command: &str, args: &[&str]) -> LaunchSpec {
    LaunchSpec {
        command: command.to_string(),
        args: args.iter().map(|s| s.to_string()).collect(),
    }
}

#[test]
fn an_unknown_name_selects_nothing() {
    let mut registry = LaunchRegistry::new();
    assert_eq!(on_select(&registry, "does-not-exist"), None);
    registry.register("Safari".to_string(), spec("open", &["/Applications/Safari.app"]));
    assert_eq!(on_select(&registry, "does-not-exist"), None);
    assert_eq!(on_select(&registry, "safari"), None);
    assert_eq!(on_select(&registry, ""), None);
}

#[test]
fn a_registered_name_selects_its_launch() {
    let mut registry = LaunchRegistry::new();
    registry.register("Safari".to_string(), spec("open", &["/Applications/Safari.app"]));
    registry.register("Mail".to_string(), spec("open", &["/Applications/Mail.app"]));
    assert_eq!(
        on_select(&registry, "Safari"),
        Some(&spec("open", &["/Applications/Safari.app"]))
    );
    assert_eq!(on_select(&registry, "Mail"), Some(&spec("open", &["/Applications/Mail.app"])));
}

#[test]
fn selecting_twice_selects_the_same() {
    let mut registry = LaunchRegistry::new();
    registry.register("Tool".to_string(), spec("tool", &["-a", "-b"]));
    let first = on_select(&registry, "Tool").cloned();
    let second = on_select(&registry, "Tool").cloned();
    assert_eq!(first, second);
    assert_eq!(first, Some(spec("tool", &["-a", "-b"])));
}

#[test]
fn registering_again_replaces() {
    let mut registry = LaunchRegistry::new();
    registry.register("Tool".to_string(), spec("old", &["1"]));
    registry.register("Other".to_string(), spec("other", &[]));
    registry.register("Tool".to_string(), spec("new", &["2", "3"]));
    assert_eq!(on_select(&registry, "Tool"), Some(&spec("new", &["2", "3"])));
    assert_eq!(on_select(&registry, "Other"), Some(&spec("other", &[])));
}
