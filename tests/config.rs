use jellrust::config::{default_exclude, Config};

#[test]
fn config_test_default_config() {
    let config = Config::default();
    assert_eq!(config.title, "My Site");
    assert_eq!(config.paginate, 10);
}

#[test]
fn lib_test_default_config() {
    let config = Config::default();
    assert_eq!(config.title, "My Site");
    assert_eq!(config.paginate, 10);
}

#[test]
fn test_exclusion() {
    let config = Config::default();
    assert!(config.is_excluded("node_modules/test.js"));
    assert!(config.is_excluded("_site/index.html"));
    assert!(!config.is_excluded("_posts/hello.md"));
}

#[test]
fn default_exclusions_match_the_documented_examples() {
    let config = Config::default();
    assert!(config.is_excluded("node_modules/x.js"));
    assert!(config.is_excluded("_site/index.html"));
    assert!(!config.is_excluded("_posts/hello.md"));
    assert_eq!(default_exclude().len(), 7);
}

#[test]
fn exempt_pattern_wins_over_exclude() {
    let mut config = Config::default();
    config.exempt.push("vendor/keep".to_string());
    assert!(config.is_excluded("vendor/other.js"));
    assert!(!config.is_excluded("vendor/keep/lib.js"));
}

#[test]
fn empty_exclude_list_excludes_nothing() {
    let mut config = Config::default();
    config.exclude.clear();
    assert!(!config.is_excluded("node_modules/x.js"));
}
