use app_launcher::config::{
    additional_paths_key, application_filter_key, data_dir_key, name_allowed, parse_list,
    platform_key, platform_of, Config, Platform,
};

fn owned(items: &[&str]) -> Vec<String> {
    items.iter().map(|s| s.to_string()).collect()
}

#[test]
fn keys_are_the_recognised_ones() {
    assert_eq!(platform_key(), "platform");
    assert_eq!(additional_paths_key(), "additional paths");
    assert_eq!(application_filter_key(), "application filter");
    assert_eq!(data_dir_key(), "data_dir_path");
}

#[test]
fn absent_options_take_their_defaults() {
    let config = Config::resolve(None, None, None, None);
    assert_eq!(config.platform, "");
    assert_eq!(config.additional_paths, "");
    assert_eq!(config.application_filter, "");
    assert_eq!(config.data_dir, "data");
    assert_eq!(config.platform(), Platform::Unknown);
    assert_eq!(config.additional_path_list(), Vec::<String>::new());
    assert_eq!(config.filter_terms(), Vec::<String>::new());
}

#[test]
fn given_options_are_kept() {
    let config = Config::resolve(
        Some("linux".to_string()),
        Some("/opt/apps, /srv/apps".to_string()),
        Some("Firefox,  gimp ,".to_string()),
        Some("/var/plugin".to_string()),
    );
    assert_eq!(config.platform, "linux");
    assert_eq!(config.platform(), Platform::Linux);
    assert_eq!(config.additional_paths, "/opt/apps, /srv/apps");
    assert_eq!(config.additional_path_list(), owned(&["/opt/apps", "/srv/apps"]));
    assert_eq!(config.filter_terms(), owned(&["Firefox", "gimp"]));
    assert_eq!(config.data_dir, "/var/plugin");
}

#[test]
fn an_empty_data_dir_is_not_replaced() {
    let config = Config::resolve(None, None, None, Some(String::new()));
    assert_eq!(config.data_dir, "");
}

#[test]
fn list_items_are_trimmed_and_empty_ones_dropped() {
    assert_eq!(parse_list(" a , b ,, c "), owned(&["a", "b", "c"]));
    assert_eq!(parse_list(""), Vec::<String>::new());
    assert_eq!(parse_list(" , ,"), Vec::<String>::new());
    assert_eq!(parse_list("one"), owned(&["one"]));
    assert_eq!(parse_list("a b,c"), owned(&["a b", "c"]));
}

#[test]
fn platform_names_are_exact() {
    assert_eq!(platform_of("macos"), Platform::MacOs);
    assert_eq!(platform_of("linux"), Platform::Linux);
    assert_eq!(platform_of("windows"), Platform::Windows);
    assert_eq!(platform_of("bsd"), Platform::Unknown);
    assert_eq!(platform_of(""), Platform::Unknown);
    assert_eq!(platform_of("MacOS"), Platform::Unknown);
    assert_eq!(platform_of(" linux"), Platform::Unknown);
}

#[test]
fn an_empty_filter_lets_every_name_pass() {
    let none: Vec<String> = Vec::new();
    assert!(name_allowed(&none, "Safari"));
    assert!(name_allowed(&none, ""));
}

#[test]
fn a_filter_matches_whole_names_without_case() {
    let filter = owned(&["Safari", "MAIL"]);
    assert!(name_allowed(&filter, "safari"));
    assert!(name_allowed(&filter, "SAFARI"));
    assert!(name_allowed(&filter, "Mail"));
    assert!(!name_allowed(&filter, "Safari Technology Preview"));
    assert!(!name_allowed(&filter, "Chrome"));
    assert!(!name_allowed(&filter, ""));
}
