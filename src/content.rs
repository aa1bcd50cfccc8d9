//! Posts and pages: their dates, their URLs, their excerpts, and the order of a site's posts.
use vstd::prelude::*;
use chrono::{Datelike, TimeZone, Timelike};
use crate::config::Config;
use crate::front_matter::FrontMatter;
use crate::number::{decimal, i32_of, padded_decimal, parse_i32, parse_u32, u32_of, zero_padded};
use crate::path::{dir_part, file_name, file_name_of, relative_to, below, stem, stem_of, strip_leading_slashes, without_leading_slashes};
use crate::text::{find, first_occurrence, occurs_at, occurs_in, replace_all, replaced};

verus! {

broadcast use vstd::seq_lib::group_to_multiset_ensures;

/// The earliest and latest years of the calendar this library works in.
pub const MIN_YEAR: i32 = -262143;
pub const MAX_YEAR: i32 = 262142;

/// A moment in UTC, to the second.
#[derive(Debug, Clone, Copy, PartialEq, Eq)]
pub struct PostDate {
    pub year: i32,
    pub month: u32,
    pub day: u32,
    pub hour: u32,
    pub minute: u32,
    pub second: u32,
}

pub open spec fn is_leap_year(y: int) -> bool {
    (y % 4 == 0 && y % 100 != 0) || y % 400 == 0
}

pub open spec fn days_in_month(y: int, m: int) -> int {
    if m == 2 {
        if is_leap_year(y) {
            29
        } else {
            28
        }
    } else if m == 4 || m == 6 || m == 9 || m == 11 {
        30
    } else {
        31
    }
}

/// A day of the proleptic Gregorian calendar within the supported years.
pub open spec fn valid_ymd(y: int, m: int, d: int) -> bool {
    MIN_YEAR <= y <= MAX_YEAR && 1 <= m <= 12 && 1 <= d <= days_in_month(y, m)
}

impl PostDate {
    pub open spec fn wf(&self) -> bool {
        valid_ymd(self.year as int, self.month as int, self.day as int) && self.hour < 24
            && self.minute < 60 && self.second < 60
    }

    /// Midnight at the start of a day.
    pub open spec fn at_midnight(&self, y: i32, m: u32, d: u32) -> bool {
        self.year == y && self.month == m && self.day == d && self.hour == 0 && self.minute == 0
            && self.second == 0
    }
}

/// `a` comes strictly after `b`.
pub open spec fn later(a: PostDate, b: PostDate) -> bool {
    if a.year != b.year {
        a.year > b.year
    } else if a.month != b.month {
        a.month > b.month
    } else if a.day != b.day {
        a.day > b.day
    } else if a.hour != b.hour {
        a.hour > b.hour
    } else if a.minute != b.minute {
        a.minute > b.minute
    } else {
        a.second > b.second
    }
}

/// Whether `a` comes strictly after `b`.
pub fn is_later(a: &PostDate, b: &PostDate) -> (r: bool)
    ensures
        r == later(*a, *b),
{
    if a.year != b.year {
        a.year > b.year
    } else if a.month != b.month {
        a.month > b.month
    } else if a.day != b.day {
        a.day > b.day
    } else if a.hour != b.hour {
        a.hour > b.hour
    } else if a.minute != b.minute {
        a.minute > b.minute
    } else {
        a.second > b.second
    }
}

/// Relies on chrono's `Utc.with_ymd_and_hms`: midnight of a year, month and day exists, as a
/// single instant, exactly when they name a day of the proleptic Gregorian calendar within
/// chrono's years.
#[verifier::external_body]
fn calendar_day_exists(year: i32, month: u32, day: u32) -> (r: bool)
    ensures
        r == valid_ymd(year as int, month as int, day as int),
{
    chrono::Utc.with_ymd_and_hms(year, month, day, 0, 0, 0).single().is_some()
}

/// Relies on chrono's `Utc::now`: the current time, read as calendar fields, is a valid
/// moment.
#[verifier::external_body]
fn now_utc() -> (r: PostDate)
    ensures
        r.wf(),
{
    let t = chrono::Utc::now();
    PostDate {
        year: t.year(),
        month: t.month(),
        day: t.day(),
        hour: t.hour(),
        minute: t.minute(),
        second: t.second(),
    }
}

/// The position of the first `-` in `s`, or -1.
#[verifier::opaque]
pub open spec fn first_dash(s: Seq<char>) -> int {
    if occurs_in(s, seq!['-']) {
        first_occurrence(s, seq!['-'])
    } else {
        -1
    }
}

/// What precedes the first `-` of `s`; all of `s` when it has none.
pub open spec fn before_dash(s: Seq<char>) -> Seq<char> {
    if first_dash(s) >= 0 {
        s.subrange(0, first_dash(s))
    } else {
        s
    }
}

/// What follows the first `-` of `s`; nothing when it has none.
pub open spec fn after_dash(s: Seq<char>) -> Seq<char> {
    if first_dash(s) >= 0 {
        s.subrange(first_dash(s) + 1, s.len() as int)
    } else {
        Seq::empty()
    }
}

/// `s` without its first `n` dash-separated segments, the rest joined by `-` as before.
pub open spec fn skip_segments(s: Seq<char>, n: nat) -> Seq<char>
    decreases n,
{
    if n == 0 {
        s
    } else {
        skip_segments(after_dash(s), (n - 1) as nat)
    }
}

/// The dash-separated segment of `s` at index `n`.
pub open spec fn segment(s: Seq<char>, n: nat) -> Seq<char> {
    before_dash(skip_segments(s, n))
}

/// `s` has more than `n` dash-separated segments.
pub open spec fn has_more_segments(s: Seq<char>, n: nat) -> bool
    decreases n,
{
    if n == 0 {
        true
    } else {
        first_dash(s) >= 0 && has_more_segments(after_dash(s), (n - 1) as nat)
    }
}

/// The day that a file name such as `2024-01-15-title.md` starts with: it has at least four
/// dash-separated segments, the first three spell a year, a month and a day, and that day
/// exists.
pub open spec fn date_in_name(f: Seq<char>) -> Option<(i32, u32, u32)> {
    if !has_more_segments(f, 3) {
        None
    } else {
        match (i32_of(segment(f, 0)), u32_of(segment(f, 1)), u32_of(segment(f, 2))) {
            (Some(y), Some(m), Some(d)) => if valid_ymd(y as int, m as int, d as int) {
                Some((y, m, d))
            } else {
                None
            },
            _ => None,
        }
    }
}

/// The first `-` of `s`.
fn first_dash_exec(s: &str) -> (r: Option<usize>)
    ensures
        match r {
            Some(i) => i == first_dash(s@) && 0 <= i < s@.len(),
            None => first_dash(s@) == -1,
        },
{
    proof {
        reveal_strlit("-");
        assert("-"@ =~= seq!['-']);
        reveal(first_dash);
    }
    let r = find(s, "-");
    r
}

/// What precedes the first `-` of `s`.
fn before_dash_exec(s: &str) -> (r: &str)
    ensures
        r@ == before_dash(s@),
{
    match first_dash_exec(s) {
        Some(i) => s.substring_char(0, i),
        None => s,
    }
}

/// What follows the first `-` of `s`.
fn after_dash_exec(s: &str) -> (r: &str)
    ensures
        r@ == after_dash(s@),
{
    let n = s.unicode_len();
    match first_dash_exec(s) {
        Some(i) => s.substring_char(i + 1, n),
        None => {
            proof {
                reveal_strlit("");
            }
            ""
        },
    }
}

/// `s` without its first three dash-separated segments.
pub fn skip_three_segments(s: &str) -> (r: &str)
    ensures
        r@ == skip_segments(s@, 3),
{
    let a = after_dash_exec(s);
    let b = after_dash_exec(a);
    let c = after_dash_exec(b);
    assert(skip_segments(s@, 3) == skip_segments(a@, 2));
    assert(skip_segments(a@, 2) == skip_segments(b@, 1));
    assert(skip_segments(b@, 1) == skip_segments(c@, 0));
    c
}

/// The first three dash-separated segments of a name that has at least four.
fn leading_segments(f: &str) -> (r: Option<(&str, &str, &str)>)
    ensures
        match r {
            Some((a, b, c)) => has_more_segments(f@, 3) && a@ == segment(f@, 0) && b@ == segment(
                f@,
                1,
            ) && c@ == segment(f@, 2),
            None => !has_more_segments(f@, 3),
        },
{
    let a = after_dash_exec(f);
    let b = after_dash_exec(a);
    let c = after_dash_exec(b);
    proof {
        assert(skip_segments(f@, 1) == skip_segments(a@, 0));
        assert(skip_segments(f@, 2) == skip_segments(a@, 1));
        assert(skip_segments(a@, 1) == skip_segments(b@, 0));
        assert(has_more_segments(f@, 3) == (first_dash(f@) >= 0 && has_more_segments(a@, 2)));
        assert(has_more_segments(a@, 2) == (first_dash(a@) >= 0 && has_more_segments(b@, 1)));
        assert(has_more_segments(b@, 1) == (first_dash(b@) >= 0 && has_more_segments(c@, 0)));
    }
    if first_dash_exec(f).is_none() || first_dash_exec(a).is_none() || first_dash_exec(
        b,
    ).is_none() {
        return None;
    }
    Some((before_dash_exec(f), before_dash_exec(a), before_dash_exec(b)))
}

/// The year, month and day that a file name starts with, when it starts with an existing
/// day.
pub fn date_from_name(f: &str) -> (r: Option<(i32, u32, u32)>)
    ensures
        r == date_in_name(f@),
{
    match leading_segments(f) {
        None => None,
        Some((ys, ms, ds)) => {
            match (parse_i32(ys), parse_u32(ms), parse_u32(ds)) {
                (Some(y), Some(m), Some(d)) => {
                    if calendar_day_exists(y, m, d) {
                        Some((y, m, d))
                    } else {
                        None
                    }
                },
                _ => None,
            }
        },
    }
}

/// The text that `%Y` gives for a year: four digits, zero-padded, for years 0 to 9999;
/// otherwise a sign and at least four digits.
pub open spec fn year_text(y: int) -> Seq<char> {
    if 0 <= y <= 9999 {
        zero_padded(decimal(y as nat), 4)
    } else if y > 9999 {
        seq!['+'] + zero_padded(decimal(y as nat), 4)
    } else {
        seq!['-'] + zero_padded(decimal((-y) as nat), 4)
    }
}

/// The text of a year, as in `%Y`.
pub fn format_year(y: i32) -> (r: String)
    ensures
        r@ == year_text(y as int),
{
    if 0 <= y && y <= 9999 {
        padded_decimal(y as u64, 4)
    } else {
        let (mut out, v) = if y > 9999 {
            ("+".to_owned(), y as u64)
        } else {
            ("-".to_owned(), (-(y as i64)) as u64)
        };
        proof {
            reveal_strlit("+");
            reveal_strlit("-");
        }
        let digits = padded_decimal(v, 4);
        out.append(digits.as_str());
        out
    }
}

/// The URL of a post: its own permalink where it sets one; else the pattern with `:year`,
/// `:month` and `:day` replaced by the date (four, two and two digits) and `:title` by the
/// file stem without its first three dash-separated segments, in that order.
pub open spec fn post_url(
    pattern: Seq<char>,
    permalink: Option<Seq<char>>,
    date: PostDate,
    file_stem: Seq<char>,
) -> Seq<char> {
    match permalink {
        Some(p) => p,
        None => replaced(
            replaced(
                replaced(
                    replaced(pattern, ":year"@, year_text(date.year as int)),
                    ":month"@,
                    zero_padded(decimal(date.month as nat), 2),
                ),
                ":day"@,
                zero_padded(decimal(date.day as nat), 2),
            ),
            ":title"@,
            skip_segments(file_stem, 3),
        ),
    }
}

/// A path's final component with its extension replaced by `html`.
pub open spec fn with_html_extension(p: Seq<char>) -> Seq<char> {
    dir_part(p) + stem(file_name(p)) + ".html"@
}

/// The URL of a page: its own permalink where it sets one; else its path below the source
/// directory (or its whole path, when it is not below it), with the extension `html`,
/// backslashes turned to slashes and the leading slashes removed.
pub open spec fn page_url(
    source: Seq<char>,
    permalink: Option<Seq<char>>,
    path: Seq<char>,
) -> Seq<char> {
    match permalink {
        Some(p) => p,
        None => {
            let rel = match below(source, path) {
                Some(r) => r,
                None => path,
            };
            without_leading_slashes(replaced(with_html_extension(rel), "\\"@, "/"@))
        },
    }
}

/// How many characters an excerpt without a paragraph keeps.
pub const EXCERPT_CHARS: usize = 200;

/// The excerpt of rendered HTML: the content of its first paragraph, when a `</p>` follows
/// its first `<p>`; else its first 200 characters and `...`.
pub open spec fn excerpt_of(h: Seq<char>) -> Seq<char> {
    let fallback = h.subrange(0, if h.len() < 200 { h.len() as int } else { 200 }) + "..."@;
    if occurs_in(h, "<p>"@) {
        let s = first_occurrence(h, "<p>"@);
        let tail = h.subrange(s, h.len() as int);
        if occurs_in(tail, "</p>"@) {
            h.subrange(s + 3, s + first_occurrence(tail, "</p>"@))
        } else {
            fallback
        }
    } else {
        fallback
    }
}

/// The excerpt of rendered HTML.
pub fn extract_excerpt(html: &str) -> (r: String)
    ensures
        r@ == excerpt_of(html@),
{
    let n = html.unicode_len();
    proof {
        reveal_strlit("<p>");
        reveal_strlit("</p>");
        reveal_strlit("...");
    }
    if let Some(s) = find(html, "<p>") {
        let tail = html.substring_char(s, n);
        if let Some(e) = find(tail, "</p>") {
            proof {
                assert(html@.subrange(s as int, s + 3) == "<p>"@);
                assert(html@.subrange(s as int, s + 3)[1] == 'p');
                assert(html@.subrange(s as int, s + 3)[2] == '>');
                assert(tail@[1] == 'p' && tail@[2] == '>');
                assert(tail@.subrange(e as int, e + 4) == "</p>"@);
                assert(tail@.subrange(e as int, e + 4)[0] == '<');
                assert(tail@.subrange(e as int, e + 4)[1] == '/');
                assert(tail@[e as int] == '<' && tail@[e + 1] == '/');
                assert(e >= 3);
            }
            return html.substring_char(s + 3, s + e).to_owned();
        }
    }
    let k = if n < EXCERPT_CHARS {
        n
    } else {
        EXCERPT_CHARS
    };
    let mut out = html.substring_char(0, k).to_owned();
    out.append("...");
    out
}

/// A post: a dated content file.
#[derive(Debug, Clone)]
pub struct Post {
    pub path: String,
    pub url: String,
    pub date: PostDate,
    pub front_matter: FrontMatter,
    pub content: String,
    pub html: String,
    pub excerpt: String,
}

/// A page: a content file that is not a post.
#[derive(Debug, Clone)]
pub struct Page {
    pub path: String,
    pub url: String,
    pub front_matter: FrontMatter,
    pub content: String,
    pub html: String,
}

/// The pages, posts and static files of one build.
#[derive(Debug)]
pub struct Site {
    pub pages: Vec<Page>,
    pub posts: Vec<Post>,
    pub static_files: Vec<String>,
}

impl Site {
    /// A site with nothing in it yet.
    pub fn new() -> (r: Self)
        ensures
            r.pages@.len() == 0,
            r.posts@.len() == 0,
            r.static_files@.len() == 0,
    {
        Site { pages: Vec::new(), posts: Vec::new(), static_files: Vec::new() }
    }
}

impl Default for Site {
    fn default() -> (r: Self)
        ensures
            r.pages@.len() == 0,
            r.posts@.len() == 0,
            r.static_files@.len() == 0,
    {
        Site::new()
    }
}

/// The view of an optional string.
pub open spec fn opt_text(o: Option<String>) -> Option<Seq<char>> {
    match o {
        Some(s) => Some(s@),
        None => None,
    }
}

impl Page {
    /// A page at `path` with nothing read yet.
    pub fn new(path: String) -> (r: Self)
        ensures
            r.path@ == path@,
            r.url@.len() == 0,
            r.front_matter.is_default(),
            r.content@.len() == 0,
            r.html@.len() == 0,
    {
        Page {
            path,
            url: String::new(),
            front_matter: FrontMatter::new(),
            content: String::new(),
            html: String::new(),
        }
    }

    /// A page read from `path` under the source directory `source`, its URL resolved.
    pub fn from_parts(
        source: &str,
        path: String,
        front_matter: FrontMatter,
        content: String,
        html: String,
    ) -> (r: Self)
        ensures
            r.path@ == path@,
            r.url@ == page_url(source@, opt_text(front_matter.permalink), path@),
            r.front_matter == front_matter,
            r.content@ == content@,
            r.html@ == html@,
    {
        let url = generate_page_url(source, &front_matter.permalink, path.as_str());
        Page { path, url, front_matter, content, html }
    }
}

/// The URL of a page at `path` under `source`.
pub fn generate_page_url(source: &str, permalink: &Option<String>, path: &str) -> (r: String)
    ensures
        r@ == page_url(source@, opt_text(*permalink), path@),
{
    if let Some(p) = permalink {
        return p.as_str().to_owned();
    }
    let rel = match relative_to(source, path) {
        Some(r) => r,
        None => path,
    };
    let mut with_ext = String::new();
    let name = file_name_of(rel);
    proof {
        crate::path::lemma_last_index_of(rel@, '/');
    }
    let dir = rel.substring_char(0, rel.unicode_len() - name.unicode_len());
    proof {
        assert(dir@ =~= dir_part(rel@));
        reveal_strlit(".html");
        reveal_strlit("\\");
        reveal_strlit("/");
    }
    with_ext.append(dir);
    with_ext.append(stem_of(rel));
    with_ext.append(".html");
    assert(with_ext@ =~= with_html_extension(rel@));
    let slashed = replace_all(with_ext.as_str(), "\\", "/");
    strip_leading_slashes(slashed.as_str()).to_owned()
}

impl Post {
    /// A post at `path` with nothing read yet, dated now.
    pub fn new(path: String) -> (r: Self)
        ensures
            r.path@ == path@,
            r.url@.len() == 0,
            r.date.wf(),
            r.front_matter.is_default(),
            r.content@.len() == 0,
            r.html@.len() == 0,
            r.excerpt@.len() == 0,
    {
        Post {
            path,
            url: String::new(),
            date: now_utc(),
            front_matter: FrontMatter::new(),
            content: String::new(),
            html: String::new(),
            excerpt: String::new(),
        }
    }

    /// The day that the post's file name starts with, at midnight.
    pub fn parse_date_from_filename(&self) -> (r: Option<PostDate>)
        ensures
            match r {
                Some(d) => date_in_name(file_name(self.path@)) == Some((d.year, d.month, d.day))
                    && d.at_midnight(d.year, d.month, d.day) && d.wf(),
                None => date_in_name(file_name(self.path@)) is None,
            },
    {
        match date_from_name(file_name_of(self.path.as_str())) {
            Some((y, m, d)) => Some(
                PostDate { year: y, month: m, day: d, hour: 0, minute: 0, second: 0 },
            ),
            None => None,
        }
    }

    /// A post read from `path`, dated by its file name or else `now`, its URL and excerpt
    /// resolved under `config`.
    pub fn from_parts(
        config: &Config,
        path: String,
        front_matter: FrontMatter,
        content: String,
        html: String,
        now: PostDate,
    ) -> (r: Self)
        ensures
            r.path@ == path@,
            match date_in_name(file_name(path@)) {
                Some((y, m, d)) => r.date.at_midnight(y, m, d),
                None => r.date == now,
            },
            r.url@ == post_url(
                config.permalink@,
                opt_text(front_matter.permalink),
                r.date,
                stem(file_name(path@)),
            ),
            r.front_matter == front_matter,
            r.content@ == content@,
            r.excerpt@ == excerpt_of(html@),
            r.html@ == html@,
    {
        let date = match date_from_name(file_name_of(path.as_str())) {
            Some((y, m, d)) => PostDate { year: y, month: m, day: d, hour: 0, minute: 0, second: 0 },
            None => now,
        };
        let url = generate_post_url(
            config.permalink.as_str(),
            &front_matter.permalink,
            &date,
            stem_of(path.as_str()),
        );
        let excerpt = extract_excerpt(html.as_str());
        Post { path, url, date, front_matter, content, html, excerpt }
    }
}

/// The URL of a post.
pub fn generate_post_url(
    pattern: &str,
    permalink: &Option<String>,
    date: &PostDate,
    file_stem: &str,
) -> (r: String)
    ensures
        r@ == post_url(pattern@, opt_text(*permalink), *date, file_stem@),
{
    if let Some(p) = permalink {
        return p.as_str().to_owned();
    }
    proof {
        reveal_strlit(":year");
        reveal_strlit(":month");
        reveal_strlit(":day");
        reveal_strlit(":title");
    }
    let year = format_year(date.year);
    let month = padded_decimal(date.month as u64, 2);
    let day = padded_decimal(date.day as u64, 2);
    let u1 = replace_all(pattern, ":year", year.as_str());
    let u2 = replace_all(u1.as_str(), ":month", month.as_str());
    let u3 = replace_all(u2.as_str(), ":day", day.as_str());
    replace_all(u3.as_str(), ":title", skip_three_segments(file_stem))
}

/// Two of the URLs are the same.
pub open spec fn has_collision(urls: Seq<Seq<char>>) -> bool {
    exists|i: int, j: int| 0 <= i < j < urls.len() && urls[i] == urls[j]
}

/// The first two positions, in order of the later one, that hold the same URL.
pub fn find_url_collision(urls: &Vec<String>) -> (r: Option<(usize, usize)>)
    ensures
        match r {
            Some((i, j)) => i < j < urls@.len() && urls@[i as int]@ == urls@[j as int]@,
            None => !has_collision(crate::config::texts(urls@)),
        },
{
    let mut j: usize = 0;
    while j < urls.len()
        invariant
            j <= urls@.len(),
            forall|a: int, b: int| 0 <= a < b < j ==> urls@[a]@ != urls@[b]@,
        decreases urls@.len() - j,
    {
        let mut i: usize = 0;
        while i < j
            invariant
                i <= j < urls@.len(),
                forall|a: int| 0 <= a < i ==> urls@[a]@ != urls@[j as int]@,
            decreases j - i,
        {
            if crate::path::same_text(urls[i].as_str(), urls[j].as_str()) {
                return Some((i, j));
            }
            i = i + 1;
        }
        j = j + 1;
    }
    proof {
        let t = crate::config::texts(urls@);
        assert forall|a: int, b: int| 0 <= a < b < t.len() implies t[a] != t[b] by {
            assert(t[a] == urls@[a]@ && t[b] == urls@[b]@);
        }
    }
    None
}

/// No post of `s` comes after a post before it: newest first.
pub open spec fn newest_first(s: Seq<Post>) -> bool {
    forall|i: int, j: int| 0 <= i < j < s.len() ==> !later(s[j].date, s[i].date)
}

pub open spec fn is_published(p: Post) -> bool {
    p.front_matter.published
}

/// `r` holds exactly the published posts of `input`, newest first.
pub open spec fn assembled(input: Seq<Post>, r: Seq<Post>) -> bool {
    &&& r.to_multiset() == input.filter(|p: Post| is_published(p)).to_multiset()
    &&& newest_first(r)
    &&& forall|i: int| 0 <= i < r.len() ==> is_published(#[trigger] r[i])
}

/// The post list of a site: the published posts among `posts` and then `drafts`, newest
/// first.
pub fn assemble_posts(posts: Vec<Post>, drafts: Vec<Post>) -> (r: Vec<Post>)
    ensures
        assembled(posts@ + drafts@, r@),
{
    let mut input = posts;
    let mut more = drafts;
    input.append(&mut more);
    let all = Ghost(input@);
    let n = input.len();
    let mut out: Vec<Post> = Vec::new();
    let mut k: usize = 0;
    while input.len() > 0
        invariant
            k + input@.len() == n,
            n == all@.len(),
            input@ == all@.subrange(k as int, n as int),
            out@.to_multiset() == all@.subrange(0, k as int).filter(
                |p: Post| is_published(p),
            ).to_multiset(),
            newest_first(out@),
            forall|i: int| 0 <= i < out@.len() ==> is_published(#[trigger] out@[i]),
        decreases input@.len(),
    {
        let post = input.remove(0);
        proof {
            assert(all@.subrange(0, k + 1) =~= all@.subrange(0, k as int).push(post));
            all@.subrange(0, k as int).lemma_filter_push(post, |p: Post| is_published(p));
            assert(input@ =~= all@.subrange(k + 1, n as int));
        }
        if post.front_matter.published {
            let mut pos: usize = 0;
            while pos < out.len() && !is_later(&post.date, &out[pos].date)
                invariant
                    pos <= out@.len(),
                    forall|j: int| 0 <= j < pos ==> !later(post.date, #[trigger] out@[j].date),
                decreases out@.len() - pos,
            {
                pos = pos + 1;
            }
            let ghost before = out@;
            out.insert(pos, post);
            proof {
                assert(out@ == before.insert(pos as int, post));
                assert forall|i: int, j: int| 0 <= i < j < out@.len() implies !later(
                    out@[j].date,
                    out@[i].date,
                ) by {
                    if j < pos {
                    } else if j == pos {
                        assert(out@[i] == before[i]);
                    } else if i < pos {
                        assert(out@[j] == before[j - 1]);
                        assert(!later(post.date, before[i].date));
                        assert(!later(before[j - 1].date, before[i].date));
                    } else if i == pos {
                        assert(later(post.date, before[pos as int].date));
                        if j - 1 > pos {
                            assert(!later(before[j - 1].date, before[pos as int].date));
                        }
                    } else {
                        assert(out@[j] == before[j - 1]);
                        assert(out@[i] == before[i - 1]);
                    }
                }
            }
        }
        k = k + 1;
    }
    assert(all@.subrange(0, n as int) =~= all@);
    out
}

/// An unpublished post is never in an assembled post list, whatever its date and whether it
/// came from the posts or the drafts.
pub proof fn lemma_unpublished_never_listed(input: Seq<Post>, r: Seq<Post>, p: Post)
    requires
        assembled(input, r),
        !is_published(p),
    ensures
        !r.contains(p),
{
    if r.contains(p) {
        let i = choose|i: int| 0 <= i < r.len() && r[i] == p;
        assert(is_published(r[i]));
    }
}

/// A run of digits followed by a dash: the dash is the first one, the digits come before
/// it and the rest after it.
proof fn lemma_digits_then_dash(a: Seq<char>, b: Seq<char>)
    requires
        crate::number::all_digits(a),
    ensures
        first_dash(a + seq!['-'] + b) == a.len(),
        before_dash(a + seq!['-'] + b) == a,
        after_dash(a + seq!['-'] + b) == b,
{
    let f = a + seq!['-'] + b;
    reveal(first_dash);
    assert(f.subrange(a.len() as int, a.len() as int + 1) =~= seq!['-']);
    assert(occurs_at(f, seq!['-'], a.len() as int));
    assert forall|j: int| 0 <= j < a.len() implies !occurs_at(f, seq!['-'], j) by {
        assert(f[j] == a[j]);
        assert(crate::number::is_digit(a[j]));
        if occurs_at(f, seq!['-'], j) {
            assert(f.subrange(j, j + 1)[0] == f[j]);
        }
    }
    crate::text::lemma_first_occurrence(f, seq!['-'], a.len() as int);
    assert(f.subrange(0, a.len() as int) =~= a);
    assert(f.subrange(a.len() as int + 1, f.len() as int) =~= b);
}

/// Digits with no sign spell the same number as `i32` and as `u32`, when it fits.
proof fn lemma_plain_digits(a: Seq<char>)
    requires
        a.len() > 0,
        crate::number::all_digits(a),
    ensures
        crate::number::unsigned_of(a) == Some(crate::number::digits_value(a)),
        crate::number::signed_of(a) == Some(crate::number::digits_value(a) as int),
{
    assert(crate::number::is_digit(a[0]));
}

/// The first three dash-separated segments of a name that opens with three runs of digits,
/// each followed by a dash.
proof fn lemma_leading_digit_segments(ys: Seq<char>, ms: Seq<char>, ds: Seq<char>, rest: Seq<char>)
    requires
        crate::number::all_digits(ys),
        crate::number::all_digits(ms),
        crate::number::all_digits(ds),
    ensures
        ({
            let f = ys + seq!['-'] + (ms + seq!['-'] + (ds + seq!['-'] + rest));
            has_more_segments(f, 3) && segment(f, 0) == ys && segment(f, 1) == ms && segment(f, 2)
                == ds
        }),
{
    let c = ds + seq!['-'] + rest;
    let b = ms + seq!['-'] + c;
    let f = ys + seq!['-'] + b;
    lemma_digits_then_dash(ys, b);
    lemma_digits_then_dash(ms, c);
    lemma_digits_then_dash(ds, rest);
    assert(has_more_segments(rest, 0));
    assert(after_dash(c) == rest);
    assert(has_more_segments(c, 1));
    assert(after_dash(b) == c);
    assert(has_more_segments(b, 2));
    assert(has_more_segments(f, 3));
    assert(skip_segments(f, 1) == skip_segments(b, 0));
    assert(skip_segments(f, 2) == skip_segments(b, 1));
    assert(skip_segments(b, 1) == skip_segments(c, 0));
}

/// A file name made of four digits, a dash, two digits, a dash, two digits, a dash and any
/// rest gives back exactly the year, month and day those digits spell, when that day exists.
pub proof fn lemma_date_name_round_trip(ys: Seq<char>, ms: Seq<char>, ds: Seq<char>, rest: Seq<char>)
    requires
        ys.len() == 4,
        ms.len() == 2,
        ds.len() == 2,
        crate::number::all_digits(ys),
        crate::number::all_digits(ms),
        crate::number::all_digits(ds),
        valid_ymd(
            crate::number::digits_value(ys) as int,
            crate::number::digits_value(ms) as int,
            crate::number::digits_value(ds) as int,
        ),
    ensures
        date_in_name(ys + seq!['-'] + ms + seq!['-'] + ds + seq!['-'] + rest) == Some(
            (
                crate::number::digits_value(ys) as i32,
                crate::number::digits_value(ms) as u32,
                crate::number::digits_value(ds) as u32,
            ),
        ),
{
    let f = ys + seq!['-'] + (ms + seq!['-'] + (ds + seq!['-'] + rest));
    assert(f =~= ys + seq!['-'] + ms + seq!['-'] + ds + seq!['-'] + rest);
    lemma_leading_digit_segments(ys, ms, ds, rest);
    lemma_plain_digits(ys);
    lemma_plain_digits(ms);
    lemma_plain_digits(ds);
}

/// A file name with fewer than four dash-separated segments yields no date.
pub proof fn lemma_few_segments_no_date(f: Seq<char>)
    requires
        !has_more_segments(f, 3),
    ensures
        date_in_name(f) is None,
{
}

} // verus!
