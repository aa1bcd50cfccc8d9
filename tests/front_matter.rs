use jellrust::front_matter::{extract_front_matter, FrontMatter};

#[test]
fn test_no_front_matter() {
    let content = "# Just content\n\nNo front matter here.";
    let (block, body) = extract_front_matter(content);
    let front_matter = match block {
        None => FrontMatter::default(),
        Some(_) => panic!("no block expected"),
    };
    assert_eq!(front_matter.title, None);
    assert_eq!(body, content);
}

#[test]
fn front_matter_block_and_body_are_split() {
    let content = "---\ntitle: Test Post\ndate: 2024-01-01\n---\n\n# Hello World\n\nThis is content.";
    let (block, body) = extract_front_matter(content);
    assert_eq!(block, Some("\ntitle: Test Post\ndate: 2024-01-01"));
    assert!(body.contains("# Hello World"));
    assert_eq!(body, "# Hello World\n\nThis is content.");
}

#[test]
fn unclosed_block_is_all_body() {
    let content = "---\ntitle: Open\n\nbody text";
    let (block, body) = extract_front_matter(content);
    assert_eq!(block, None);
    assert_eq!(body, content);
}

#[test]
fn default_metadata_is_published() {
    let fm = FrontMatter::default();
    assert!(fm.published);
    assert_eq!(fm.layout, None);
    assert!(jellrust::default_true());
}

#[test]
fn test_parse_front_matter() {
    let content = "---\ntitle: Test Post\ndate: 2024-01-01\n---\n\n# Hello World\n\nThis is content.";
    let (block, body) = extract_front_matter(content);
    let data: serde_yaml::Value = serde_yaml::from_str(block.unwrap()).unwrap();
    assert_eq!(data.get("title").and_then(|t| t.as_str()), Some("Test Post"));
    assert!(body.contains("# Hello World"));
}

#[test]
fn leading_white_space_before_the_block_is_ignored() {
    let content = "\n  ---\nlayout: post\n---\n\n\n  Body";
    let (block, body) = extract_front_matter(content);
    assert_eq!(block, Some("\nlayout: post"));
    assert_eq!(body, "Body");
}
