use jellrust::config::Config;
use jellrust::error::Error;
use jellrust::front_matter::FrontMatter;
use jellrust::layout::{layout_file, layout_name, LayoutChain};
use jellrust::number::{parse_i32, parse_u32};
use jellrust::scan::{is_markdown_file, is_page_candidate, is_special_directory};

#[test]
fn layout_defaults_to_default() {
    let mut fm = FrontMatter::new();
    assert_eq!(layout_name(&fm), "default");
    fm.layout = Some("post".to_string());
    assert_eq!(layout_name(&fm), "post");
    assert_eq!(layout_file("site", "post"), "site/_layouts/post.html");
}

#[test]
fn layout_cycle_is_an_error() {
    let mut chain = LayoutChain::new();
    assert_eq!(chain.enter("a"), Ok(()));
    assert_eq!(chain.enter("b"), Ok(()));
    assert_eq!(chain.enter("a"), Err(Error::LayoutCycle("a".to_string())));
    assert!(chain.has_entered("b"));
    assert!(!chain.has_entered("c"));
}

#[test]
fn error_messages_name_their_kind() {
    assert_eq!(Error::LayoutCycle("a".to_string()).message(), "Layout cycle: a");
    assert_eq!(Error::Io("denied".to_string()).message(), "IO error: denied");
    assert_eq!(Error::Other("plain".to_string()).message(), "plain");
}

#[test]
fn reserved_directories() {
    assert!(is_special_directory("_site"));
    assert!(is_special_directory("node_modules"));
    assert!(!is_special_directory("_posts"));
    assert!(!is_special_directory("assets"));
}

#[test]
fn pages_exclude_posts_and_drafts() {
    let config = Config::default();
    assert!(is_page_candidate(&config, "src", "src/about.md"));
    assert!(is_page_candidate(&config, "src", "src/index.html"));
    assert!(!is_page_candidate(&config, "src", "src/_posts/2024-01-01-a.md"));
    assert!(!is_page_candidate(&config, "src", "src/_drafts/a.md"));
    assert!(!is_page_candidate(&config, "src", "src/style.css"));
    assert!(!is_page_candidate(&config, "src", "src/vendor/readme.md"));
    assert!(is_markdown_file("a/b.markdown"));
    assert!(!is_markdown_file(".md"));
}

#[test]
fn integers_parse_as_std_parses_them() {
    assert_eq!(parse_i32("2024"), Some(2024));
    assert_eq!(parse_i32("-12"), Some(-12));
    assert_eq!(parse_i32("+7"), Some(7));
    assert_eq!(parse_i32("2147483648"), None);
    assert_eq!(parse_i32("-2147483648"), Some(i32::MIN));
    assert_eq!(parse_u32("01"), Some(1));
    assert_eq!(parse_u32("4294967296"), None);
    assert_eq!(parse_u32(""), None);
    assert_eq!(parse_u32("1a"), None);
}
