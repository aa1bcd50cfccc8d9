use jellrust::server::{
    create_reload_script, inject_reload_script, is_html_file, next_watch_step,
    resolve_file_path, should_trigger_rebuild, status_message, FsEventKind, ReloadFlag,
    ReloadStatus, WatchAction, WatchEvent, WatchState,
};

#[test]
fn test_inject_reload_script_with_body_tag() {
    let html = "<html><body><h1>Test</h1></body></html>";
    let result = inject_reload_script(html);

    assert!(result.contains("<script>"));
    assert!(result.contains("checkReload"));
    assert!(result.contains("</body>"));

    let script_pos = result.find("<script>").unwrap();
    let body_end_pos = result.find("</body>").unwrap();
    assert!(script_pos < body_end_pos);
}

#[test]
fn test_inject_reload_script_without_body_tag() {
    let html = "<html><h1>Test</h1></html>";
    let result = inject_reload_script(html);

    assert!(result.contains("<script>"));
    assert!(result.contains("checkReload"));
}

#[test]
fn script_goes_just_before_the_body_end_or_at_the_end() {
    let script = create_reload_script();
    let with_body = inject_reload_script("<html><body>X</body></html>");
    assert_eq!(with_body, format!("<html><body>X{}</body></html>", script));
    let without_body = inject_reload_script("<html>X</html>");
    assert_eq!(without_body, format!("<html>X</html>{}", script));
}

#[test]
fn script_polls_the_reload_endpoint() {
    let script = create_reload_script();
    assert!(script.contains("/__reload__"));
    assert!(script.contains("1000"));
}

#[test]
fn test_is_html_file() {
    assert!(is_html_file("index.html"));
    assert!(is_html_file("path/to/page.html"));
    assert!(!is_html_file("style.css"));
    assert!(!is_html_file("script.js"));
    assert!(!is_html_file("image.png"));
}

#[test]
fn test_resolve_file_path() {
    let dest = "/site";
    assert_eq!(resolve_file_path(dest, "/"), "/site/index.html");
    assert_eq!(resolve_file_path(dest, ""), "/site/index.html");
    assert_eq!(resolve_file_path(dest, "/about/"), "/site/about/index.html");
    assert_eq!(resolve_file_path(dest, "/page.html"), "/site/page.html");
}

#[test]
fn reload_is_delivered_to_one_poll() {
    let mut flag = ReloadFlag::new();
    assert_eq!(flag.poll(), ReloadStatus::Unchanged);
    flag.trigger();
    assert_eq!(flag.poll(), ReloadStatus::Reload);
    assert_eq!(flag.poll(), ReloadStatus::Unchanged);
    assert_eq!(ReloadStatus::Reload.body(), "reload");
    assert_eq!(ReloadStatus::Unchanged.body(), "ok");
}

#[test]
fn burst_of_changes_rebuilds_once() {
    let mut state = WatchState::Idle;
    let mut rebuilds = 0;
    let mut events = vec![WatchEvent::Change; 5];
    events.push(WatchEvent::QuietElapsed);
    for e in events {
        let (next, action) = next_watch_step(state, e);
        if action == WatchAction::Rebuild {
            rebuilds += 1;
        }
        state = next;
    }
    assert_eq!(rebuilds, 1);
    assert_eq!(state, WatchState::Idle);
}

#[test]
fn closed_channel_stops_the_loop() {
    assert_eq!(
        next_watch_step(WatchState::Idle, WatchEvent::Closed),
        (WatchState::Stopped, WatchAction::Stop)
    );
    assert_eq!(
        next_watch_step(WatchState::Debouncing, WatchEvent::Closed),
        (WatchState::Idle, WatchAction::Rebuild)
    );
}

#[test]
fn destination_events_are_ignored() {
    let inside = vec!["/src/_site/index.html".to_string()];
    let outside = vec!["/src/_posts/a.md".to_string()];
    assert!(!should_trigger_rebuild(FsEventKind::Modify, &inside, "/src/_site"));
    assert!(should_trigger_rebuild(FsEventKind::Modify, &outside, "/src/_site"));
    assert!(should_trigger_rebuild(FsEventKind::Create, &outside, "/src/_site"));
    assert!(should_trigger_rebuild(FsEventKind::Remove, &outside, "/src/_site"));
    assert!(!should_trigger_rebuild(FsEventKind::Other, &outside, "/src/_site"));
    let sibling = vec!["/src/_site2/a.html".to_string()];
    assert!(should_trigger_rebuild(FsEventKind::Modify, &sibling, "/src/_site"));
}

#[test]
fn status_messages() {
    assert_eq!(status_message(404), "404 Not Found");
    assert_eq!(status_message(500), "500 Internal Server Error");
    assert_eq!(status_message(418), "Error");
}
