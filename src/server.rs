//! The development server's decisions: which file events count, when to rebuild, when a
//! page should reload, and what a request path serves.
use vstd::prelude::*;
use crate::path::{below, join, joined, path_extension, extension_of, same_text, strip_leading_slashes, without_leading_slashes};
use crate::text::{finishes_with, last_occurrence, occurs_in, rfind, ends_with};

verus! {

/// How long the source tree must stay quiet before a rebuild, in milliseconds.
pub const DEBOUNCE_DURATION_MS: u64 = 300;

/// How often a served page asks whether to reload, in milliseconds.
pub const RELOAD_CHECK_INTERVAL_MS: u64 = 1000;

/// The path that a served page polls.
pub const RELOAD_ENDPOINT: &'static str = "/__reload__";

/// The script placed in every served HTML page: it polls the reload endpoint every second
/// and reloads the page when told to.
pub const RELOAD_SCRIPT: &'static str = "
<script>
(function() {
    'use strict';

    function checkReload() {
        fetch('/__reload__')
            .then(res => res.text())
            .then(data => {
                if (data === 'reload') {
                    console.log('Reloading page...');
                    location.reload();
                }
            })
            .catch(err => console.error('Reload check failed:', err));
    }

    setInterval(checkReload, 1000);
    console.log('Live reload enabled');
})();
</script>
";

/// What a poll of the reload endpoint answers.
#[derive(Debug, Clone, Copy, PartialEq, Eq)]
pub enum ReloadStatus {
    /// The site was rebuilt since the last poll: reload.
    Reload,
    /// Nothing new.
    Unchanged,
}

impl ReloadStatus {
    /// The body of the answer: `reload` or `ok`.
    pub fn body(&self) -> (r: &'static str)
        ensures
            r@ == (if *self == ReloadStatus::Reload {
                "reload"@
            } else {
                "ok"@
            }),
    {
        match self {
            ReloadStatus::Reload => "reload",
            ReloadStatus::Unchanged => "ok",
        }
    }
}

/// Whether a rebuild happened that no poll has reported yet.
#[derive(Debug, Clone, Copy, PartialEq, Eq)]
pub struct ReloadFlag {
    pub pending: bool,
}

/// What a poll answers for a flag.
pub open spec fn poll_status(f: ReloadFlag) -> ReloadStatus {
    if f.pending {
        ReloadStatus::Reload
    } else {
        ReloadStatus::Unchanged
    }
}

/// The flag once a rebuild is recorded.
pub open spec fn triggered(f: ReloadFlag) -> ReloadFlag {
    ReloadFlag { pending: true }
}

/// The flag once a poll has read it.
pub open spec fn polled(f: ReloadFlag) -> ReloadFlag {
    ReloadFlag { pending: false }
}

impl ReloadFlag {
    /// A flag with nothing to report.
    pub fn new() -> (r: Self)
        ensures
            !r.pending,
    {
        ReloadFlag { pending: false }
    }

    /// Records a rebuild.
    pub fn trigger(&mut self)
        ensures
            *final(self) == triggered(*old(self)),
    {
        self.pending = true;
    }

    /// Reads and clears the flag in one step.
    pub fn poll(&mut self) -> (r: ReloadStatus)
        ensures
            r == poll_status(*old(self)),
            *final(self) == polled(*old(self)),
    {
        let r = if self.pending {
            ReloadStatus::Reload
        } else {
            ReloadStatus::Unchanged
        };
        self.pending = false;
        r
    }
}

/// After a rebuild is recorded, the next poll answers `reload` and the one after it `ok`,
/// whatever the flag held before.
pub proof fn lemma_reload_delivered_once(f: ReloadFlag)
    ensures
        poll_status(triggered(f)) == ReloadStatus::Reload,
        poll_status(polled(triggered(f))) == ReloadStatus::Unchanged,
{
}

/// The kinds of file-system event a watcher reports.
#[derive(Debug, Clone, Copy, PartialEq, Eq)]
pub enum FsEventKind {
    Create,
    Modify,
    Remove,
    Other,
}

/// Some path of `paths` lies under `destination`.
pub open spec fn touches_destination(paths: Seq<String>, destination: Seq<char>) -> bool {
    exists|i: int| 0 <= i < paths.len() && below(destination, #[trigger] paths[i]@) is Some
}

/// An event counts toward a rebuild: it creates, modifies or removes a file, and none of its
/// (canonical) paths lies under the destination directory.
pub open spec fn triggers_rebuild(
    kind: FsEventKind,
    paths: Seq<String>,
    destination: Seq<char>,
) -> bool {
    !touches_destination(paths, destination) && (kind == FsEventKind::Create || kind
        == FsEventKind::Modify || kind == FsEventKind::Remove)
}

/// Whether an event with these canonical paths counts toward a rebuild.
pub fn should_trigger_rebuild(kind: FsEventKind, paths: &Vec<String>, destination: &str) -> (r:
    bool)
    ensures
        r == triggers_rebuild(kind, paths@, destination@),
{
    let mut i: usize = 0;
    while i < paths.len()
        invariant
            i <= paths@.len(),
            forall|j: int| 0 <= j < i ==> below(destination@, #[trigger] paths@[j]@) is None,
        decreases paths@.len() - i,
    {
        if crate::path::relative_to(destination, paths[i].as_str()).is_some() {
            return false;
        }
        i = i + 1;
    }
    match kind {
        FsEventKind::Create | FsEventKind::Modify | FsEventKind::Remove => true,
        FsEventKind::Other => false,
    }
}

/// Where the rebuild loop stands.
#[derive(Debug, Clone, Copy, PartialEq, Eq)]
pub enum WatchState {
    /// Waiting for a change.
    Idle,
    /// A change came; waiting for the tree to stay quiet.
    Debouncing,
    /// The event channel closed; nothing more happens.
    Stopped,
}

/// What the rebuild loop hears.
#[derive(Debug, Clone, Copy, PartialEq, Eq)]
pub enum WatchEvent {
    /// A change that counts toward a rebuild.
    Change,
    /// The quiet window passed with no change.
    QuietElapsed,
    /// The event channel closed.
    Closed,
}

/// What the rebuild loop does next.
#[derive(Debug, Clone, Copy, PartialEq, Eq)]
pub enum WatchAction {
    /// Wait for the next event, with no deadline.
    Wait,
    /// Wait for the next event for at most the quiet window, starting it afresh.
    WaitQuiet,
    /// Set the reload flag, rebuild the site, then wait.
    Rebuild,
    /// Stop the loop.
    Stop,
}

/// One step of the rebuild loop.
pub open spec fn watch_step(s: WatchState, e: WatchEvent) -> (WatchState, WatchAction) {
    match (s, e) {
        (WatchState::Stopped, _) => (WatchState::Stopped, WatchAction::Stop),
        (WatchState::Idle, WatchEvent::Change) => (WatchState::Debouncing, WatchAction::WaitQuiet),
        (WatchState::Idle, WatchEvent::QuietElapsed) => (WatchState::Idle, WatchAction::Wait),
        (WatchState::Idle, WatchEvent::Closed) => (WatchState::Stopped, WatchAction::Stop),
        (WatchState::Debouncing, WatchEvent::Change) => (
            WatchState::Debouncing,
            WatchAction::WaitQuiet,
        ),
        (WatchState::Debouncing, WatchEvent::QuietElapsed) => (WatchState::Idle, WatchAction::Rebuild),
        (WatchState::Debouncing, WatchEvent::Closed) => (WatchState::Idle, WatchAction::Rebuild),
    }
}

/// The next state and action of the rebuild loop: a change starts or restarts the quiet
/// window, a quiet window that passes brings one rebuild, and a closed channel stops the
/// loop once any pending rebuild is done.
pub fn next_watch_step(s: WatchState, e: WatchEvent) -> (r: (WatchState, WatchAction))
    ensures
        r == watch_step(s, e),
{
    match (s, e) {
        (WatchState::Stopped, _) => (WatchState::Stopped, WatchAction::Stop),
        (WatchState::Idle, WatchEvent::Change) => (WatchState::Debouncing, WatchAction::WaitQuiet),
        (WatchState::Idle, WatchEvent::QuietElapsed) => (WatchState::Idle, WatchAction::Wait),
        (WatchState::Idle, WatchEvent::Closed) => (WatchState::Stopped, WatchAction::Stop),
        (WatchState::Debouncing, WatchEvent::Change) => (
            WatchState::Debouncing,
            WatchAction::WaitQuiet,
        ),
        (WatchState::Debouncing, WatchEvent::QuietElapsed) => (WatchState::Idle, WatchAction::Rebuild),
        (WatchState::Debouncing, WatchEvent::Closed) => (WatchState::Idle, WatchAction::Rebuild),
    }
}

/// How many rebuilds a run of events brings, from state `s`.
pub open spec fn rebuilds(s: WatchState, events: Seq<WatchEvent>) -> nat
    decreases events.len(),
{
    if events.len() == 0 {
        0
    } else {
        let (next, action) = watch_step(s, events[0]);
        (if action == WatchAction::Rebuild {
            1nat
        } else {
            0nat
        }) + rebuilds(next, events.drop_first())
    }
}

/// The state a run of events leaves the loop in, from state `s`.
pub open spec fn state_after(s: WatchState, events: Seq<WatchEvent>) -> WatchState
    decreases events.len(),
{
    if events.len() == 0 {
        s
    } else {
        state_after(watch_step(s, events[0]).0, events.drop_first())
    }
}

/// `n` changes in a row.
pub open spec fn burst(n: nat) -> Seq<WatchEvent> {
    Seq::new(n, |i: int| WatchEvent::Change)
}

proof fn lemma_debouncing_burst(k: nat)
    ensures
        rebuilds(WatchState::Debouncing, burst(k).push(WatchEvent::QuietElapsed)) == 1,
        state_after(WatchState::Debouncing, burst(k).push(WatchEvent::QuietElapsed))
            == WatchState::Idle,
    decreases k,
{
    let ev = burst(k).push(WatchEvent::QuietElapsed);
    if k == 0 {
        assert(ev[0] == WatchEvent::QuietElapsed);
        assert(ev.drop_first() =~= Seq::<WatchEvent>::empty());
        assert(rebuilds(WatchState::Idle, ev.drop_first()) == 0);
        assert(state_after(WatchState::Idle, ev.drop_first()) == WatchState::Idle);
    } else {
        assert(ev[0] == WatchEvent::Change);
        lemma_debouncing_burst((k - 1) as nat);
        assert(ev.drop_first() =~= burst((k - 1) as nat).push(WatchEvent::QuietElapsed));
        assert(rebuilds(WatchState::Debouncing, ev) == rebuilds(
            WatchState::Debouncing,
            ev.drop_first(),
        ));
    }
}

/// A burst of one or more changes, each inside the quiet window of the one before, followed
/// by a quiet window that passes, brings exactly one rebuild and leaves the loop idle.
pub proof fn lemma_burst_rebuilds_once(n: nat)
    requires
        n >= 1,
    ensures
        rebuilds(WatchState::Idle, burst(n).push(WatchEvent::QuietElapsed)) == 1,
        state_after(WatchState::Idle, burst(n).push(WatchEvent::QuietElapsed)) == WatchState::Idle,
{
    let ev = burst(n).push(WatchEvent::QuietElapsed);
    assert(ev[0] == WatchEvent::Change);
    lemma_debouncing_burst((n - 1) as nat);
    assert(ev.drop_first() =~= burst((n - 1) as nat).push(WatchEvent::QuietElapsed));
}

/// The file that a request path names under `destination`: the path without its leading
/// slashes, and `index.html` within it when it is empty or ends with a slash.
pub open spec fn served_file(destination: Seq<char>, uri_path: Seq<char>) -> Seq<char> {
    let p = without_leading_slashes(uri_path);
    if p.len() == 0 || finishes_with(p, "/"@) {
        joined(joined(destination, p), "index.html"@)
    } else {
        joined(destination, p)
    }
}

/// The file that a request path names under `destination`.
pub fn resolve_file_path(destination: &str, uri_path: &str) -> (r: String)
    ensures
        r@ == served_file(destination@, uri_path@),
{
    let p = strip_leading_slashes(uri_path);
    if p.unicode_len() == 0 || ends_with(p, "/") {
        let dir = join(destination, p);
        join(dir.as_str(), "index.html")
    } else {
        join(destination, p)
    }
}

/// Whether `path` names an HTML file, by its extension.
pub fn is_html_file(path: &str) -> (r: bool)
    ensures
        r == (path_extension(path@) == Some("html"@)),
{
    match extension_of(path) {
        Some(e) => same_text(e, "html"),
        None => false,
    }
}

/// The text of the reload script.
pub open spec fn reload_script() -> Seq<char> {
    RELOAD_SCRIPT@
}

/// The reload script.
pub fn create_reload_script() -> (r: String)
    ensures
        r@ == reload_script(),
{
    RELOAD_SCRIPT.to_owned()
}

/// `html` with the reload script placed just before its last `</body>`, or at its end when
/// it has none.
pub open spec fn with_reload_script(html: Seq<char>) -> Seq<char> {
    if occurs_in(html, "</body>"@) {
        let k = last_occurrence(html, "</body>"@);
        html.subrange(0, k) + reload_script() + html.subrange(k, html.len() as int)
    } else {
        html + reload_script()
    }
}

/// Places the reload script in a page.
pub fn inject_reload_script(html: &str) -> (r: String)
    ensures
        r@ == with_reload_script(html@),
{
    let script = create_reload_script();
    match rfind(html, "</body>") {
        Some(k) => {
            let n = html.unicode_len();
            let mut out = html.substring_char(0, k).to_owned();
            out.append(script.as_str());
            out.append(html.substring_char(k, n));
            out
        },
        None => {
            let mut out = html.to_owned();
            out.append(script.as_str());
            out
        },
    }
}

/// The body of an error answer for an HTTP status.
pub fn status_message(status: u16) -> (r: &'static str)
    ensures
        r@ == (if status == 404 {
            "404 Not Found"@
        } else if status == 500 {
            "500 Internal Server Error"@
        } else {
            "Error"@
        }),
{
    if status == 404 {
        "404 Not Found"
    } else if status == 500 {
        "500 Internal Server Error"
    } else {
        "Error"
    }
}

} // verus!
