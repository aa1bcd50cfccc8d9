use jellrust::config::Config;
use jellrust::content::{
    assemble_posts, date_from_name, extract_excerpt, find_url_collision, format_year, generate_page_url,
    generate_post_url, Page, Post, PostDate,
};
use jellrust::front_matter::FrontMatter;
use jellrust::number::padded_decimal;

fn ymd_text(d: &PostDate) -> String {
    format!(
        "{}-{}-{}",
        format_year(d.year),
        padded_decimal(d.month as u64, 2),
        padded_decimal(d.day as u64, 2)
    )
}

fn midnight(year: i32, month: u32, day: u32) -> PostDate {
    PostDate { year, month, day, hour: 0, minute: 0, second: 0 }
}

fn post_named(name: &str, published: bool) -> Post {
    let mut fm = FrontMatter::new();
    fm.published = published;
    Post::from_parts(
        &Config::default(),
        format!("_posts/{}", name),
        fm,
        String::new(),
        String::new(),
        midnight(2000, 1, 1),
    )
}

#[test]
fn content_test_parse_post_date() {
    let post = Post::new("_posts/2024-01-15-test-post.md".to_string());
    let date = post.parse_date_from_filename().unwrap();
    assert_eq!(ymd_text(&date), "2024-01-15");
}

#[test]
fn lib_test_parse_post_date() {
    let post = Post::new("_posts/2024-01-15-test-post.md".to_string());
    let date = post.parse_date_from_filename().unwrap();
    assert_eq!(ymd_text(&date), "2024-01-15");
}

#[test]
fn date_needs_four_segments() {
    assert_eq!(date_from_name("2024-01-15.md"), None);
    assert_eq!(date_from_name("hello.md"), None);
    assert_eq!(date_from_name("2024-01-15-a.md"), Some((2024, 1, 15)));
}

#[test]
fn date_must_exist_on_the_calendar() {
    assert_eq!(date_from_name("2023-02-29-x.md"), None);
    assert_eq!(date_from_name("2024-02-29-x.md"), Some((2024, 2, 29)));
    assert_eq!(date_from_name("2024-13-01-x.md"), None);
    assert_eq!(date_from_name("abcd-01-01-x.md"), None);
}

#[test]
fn post_without_date_keeps_the_given_time() {
    let now = PostDate { year: 2030, month: 6, day: 7, hour: 8, minute: 9, second: 10 };
    let post = Post::from_parts(
        &Config::default(),
        "_posts/about.md".to_string(),
        FrontMatter::new(),
        String::new(),
        String::new(),
        now,
    );
    assert_eq!(post.date, now);
}

#[test]
fn post_url_follows_the_pattern() {
    let post = post_named("2024-01-15-test-post.md", true);
    assert_eq!(post.url, "/2024/01/15/test-post/");
}

#[test]
fn post_url_uses_the_permalink_verbatim() {
    let url = generate_post_url(
        "/:year/:title/",
        &Some("/custom/:year/".to_string()),
        &midnight(2024, 1, 15),
        "2024-01-15-x",
    );
    assert_eq!(url, "/custom/:year/");
}

#[test]
fn post_url_with_few_segments_has_an_empty_title() {
    let url = generate_post_url("/:year/:month/:day/:title/", &None, &midnight(5, 3, 9), "notes");
    assert_eq!(url, "/0005/03/09//");
}

#[test]
fn page_url_is_the_relative_html_path() {
    assert_eq!(generate_page_url("site", &None, "site/about/team.md"), "about/team.html");
    assert_eq!(generate_page_url("site", &None, "site/index.html"), "index.html");
    assert_eq!(generate_page_url("site", &None, "other/x.md"), "other/x.html");
    assert_eq!(generate_page_url("site", &Some("/p/".to_string()), "site/x.md"), "/p/");
}

#[test]
fn page_from_parts_resolves_its_url() {
    let page = Page::from_parts(
        "src",
        "src/docs/guide.markdown".to_string(),
        FrontMatter::new(),
        "body".to_string(),
        "<p>body</p>".to_string(),
    );
    assert_eq!(page.url, "docs/guide.html");
    assert_eq!(page.html, "<p>body</p>");
}

#[test]
fn excerpt_takes_the_first_paragraph() {
    assert_eq!(extract_excerpt("<h1>T</h1><p>First</p><p>Second</p>"), "First");
}

#[test]
fn excerpt_without_paragraph_is_truncated() {
    assert_eq!(extract_excerpt("short"), "short...");
    let long = "x".repeat(250);
    let e = extract_excerpt(&long);
    assert_eq!(e.chars().count(), 203);
    assert!(e.ends_with("..."));
}

#[test]
fn unpublished_posts_are_dropped() {
    let posts = vec![
        post_named("2024-01-01-a.md", true),
        post_named("2024-03-01-b.md", false),
    ];
    let drafts = vec![post_named("2024-05-01-c.md", false), post_named("2024-02-01-d.md", true)];
    let list = assemble_posts(posts, drafts);
    let paths: Vec<&str> = list.iter().map(|p| p.path.as_str()).collect();
    assert_eq!(paths, vec!["_posts/2024-02-01-d.md", "_posts/2024-01-01-a.md"]);
}

#[test]
fn posts_are_ordered_newest_first() {
    let posts = vec![
        post_named("2024-01-01-a.md", true),
        post_named("2024-03-01-b.md", true),
        post_named("2024-02-01-c.md", true),
    ];
    let list = assemble_posts(posts, Vec::new());
    let dates: Vec<String> = list.iter().map(|p| ymd_text(&p.date)).collect();
    assert_eq!(dates, vec!["2024-03-01", "2024-02-01", "2024-01-01"]);
}

#[test]
fn years_are_written_as_chrono_writes_them() {
    assert_eq!(format_year(2024), "2024");
    assert_eq!(format_year(7), "0007");
    assert_eq!(format_year(12345), "+12345");
    assert_eq!(format_year(-3), "-0003");
}

#[test]
fn dated_names_give_back_their_date() {
    assert_eq!(date_from_name("1999-12-31-party.md"), Some((1999, 12, 31)));
    assert_eq!(date_from_name("0001-01-01-x-y-z.md"), Some((1, 1, 1)));
    let post = Post::new("_drafts/2020-02-29-leap.md".to_string());
    let d = post.parse_date_from_filename().unwrap();
    assert_eq!((d.year, d.month, d.day, d.hour), (2020, 2, 29, 0));
}

#[test]
fn url_collisions_are_found() {
    let urls = vec!["a/".to_string(), "b/".to_string(), "a/".to_string()];
    assert_eq!(find_url_collision(&urls), Some((0, 2)));
    let distinct = vec!["a/".to_string(), "b/".to_string()];
    assert_eq!(find_url_collision(&distinct), None);
    assert_eq!(find_url_collision(&Vec::new()), None);
}
