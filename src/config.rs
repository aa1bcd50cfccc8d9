//! Site-wide settings and the exclusion rule for source paths.
use vstd::prelude::*;
use crate::text::{contains, occurs_in};

verus! {

/// Site-wide settings, fixed for the length of one build.
#[derive(Debug, Clone)]
pub struct Config {
    pub title: String,
    pub description: String,
    pub url: String,
    pub baseurl: String,
    pub markdown: String,
    pub permalink: String,
    pub paginate: usize,
    pub paginate_path: String,
    pub exclude: Vec<String>,
    pub exempt: Vec<String>,
    pub plugins: Vec<String>,
    /// Settings this library does not know, as key and YAML text of the value.
    pub custom: Vec<(String, String)>,
}

/// The characters of each string of a list.
pub open spec fn texts(v: Seq<String>) -> Seq<Seq<char>> {
    v.map_values(|s: String| s@)
}

/// Some pattern of `patterns` occurs in `path`.
pub open spec fn matches_any(patterns: Seq<Seq<char>>, path: Seq<char>) -> bool {
    exists|i: int| 0 <= i < patterns.len() && occurs_in(path, #[trigger] patterns[i])
}

/// A path is left out when an exclude pattern occurs in it and no exempt pattern does.
pub open spec fn excluded_by(exempt: Seq<Seq<char>>, exclude: Seq<Seq<char>>, path: Seq<char>) -> bool {
    !matches_any(exempt, path) && matches_any(exclude, path)
}

/// The paths left out of a site by default.
pub open spec fn default_exclude_list() -> Seq<Seq<char>> {
    seq![
        "Gemfile"@,
        "Gemfile.lock"@,
        "node_modules"@,
        "vendor"@,
        ".git"@,
        ".gitignore"@,
        "_site"@,
    ]
}

/// The default site title.
pub fn default_title() -> (r: String)
    ensures
        r@ == "My Site"@,
{
    "My Site".to_owned()
}

/// The default Markdown engine's name.
pub fn default_markdown() -> (r: String)
    ensures
        r@ == "pulldown-cmark"@,
{
    "pulldown-cmark".to_owned()
}

/// The default permalink pattern for posts.
pub fn default_permalink() -> (r: String)
    ensures
        r@ == "/:year/:month/:day/:title/"@,
{
    "/:year/:month/:day/:title/".to_owned()
}

/// The default number of posts per page.
pub fn default_paginate() -> (r: usize)
    ensures
        r == 10,
{
    10
}

/// The default pattern for the paths of later pages.
pub fn default_paginate_path() -> (r: String)
    ensures
        r@ == "/page:num/"@,
{
    "/page:num/".to_owned()
}

/// The paths left out of a site by default.
pub fn default_exclude() -> (r: Vec<String>)
    ensures
        texts(r@) == default_exclude_list(),
{
    let r = vec![
        "Gemfile".to_owned(),
        "Gemfile.lock".to_owned(),
        "node_modules".to_owned(),
        "vendor".to_owned(),
        ".git".to_owned(),
        ".gitignore".to_owned(),
        "_site".to_owned(),
    ];
    assert(texts(r@) =~= default_exclude_list());
    r
}

/// Whether some pattern of `patterns` occurs in `path`.
fn any_occurs(patterns: &Vec<String>, path: &str) -> (r: bool)
    ensures
        r == matches_any(texts(patterns@), path@),
{
    let mut i: usize = 0;
    while i < patterns.len()
        invariant
            i <= patterns@.len(),
            forall|j: int| 0 <= j < i ==> !occurs_in(path@, #[trigger] texts(patterns@)[j]),
        decreases patterns@.len() - i,
    {
        if contains(path, patterns[i].as_str()) {
            assert(occurs_in(path@, texts(patterns@)[i as int]));
            return true;
        }
        i = i + 1;
    }
    false
}

impl Config {
    /// The settings have their default values.
    pub open spec fn is_default(&self) -> bool {
        &&& self.title@ == "My Site"@
        &&& self.description@.len() == 0
        &&& self.url@.len() == 0
        &&& self.baseurl@.len() == 0
        &&& self.markdown@ == "pulldown-cmark"@
        &&& self.permalink@ == "/:year/:month/:day/:title/"@
        &&& self.paginate == 10
        &&& self.paginate_path@ == "/page:num/"@
        &&& texts(self.exclude@) == default_exclude_list()
        &&& self.exempt@.len() == 0
        &&& self.plugins@.len() == 0
        &&& self.custom@.len() == 0
    }

    /// Whether `path` is left out of the site under these settings.
    pub open spec fn excludes(&self, path: Seq<char>) -> bool {
        excluded_by(texts(self.exempt@), texts(self.exclude@), path)
    }

    /// The default settings.
    pub fn new() -> (r: Self)
        ensures
            r.is_default(),
    {
        Config {
            title: default_title(),
            description: String::new(),
            url: String::new(),
            baseurl: String::new(),
            markdown: default_markdown(),
            permalink: default_permalink(),
            paginate: default_paginate(),
            paginate_path: default_paginate_path(),
            exclude: default_exclude(),
            exempt: Vec::new(),
            plugins: Vec::new(),
            custom: Vec::new(),
        }
    }

    /// Whether `path` is excluded: an exclude pattern occurs in it and no exempt pattern
    /// does.
    pub fn is_excluded(&self, path: &str) -> (r: bool)
        ensures
            r == self.excludes(path@),
    {
        if any_occurs(&self.exempt, path) {
            return false;
        }
        any_occurs(&self.exclude, path)
    }
}

impl Default for Config {
    fn default() -> (r: Self)
        ensures
            r.is_default(),
    {
        Config::new()
    }
}

/// A path in which an exempt pattern occurs is never excluded, whatever the exclude
/// patterns say of it.
pub proof fn lemma_exempt_wins(config: Config, path: Seq<char>, i: int)
    requires
        0 <= i < config.exempt@.len(),
        occurs_in(path, config.exempt@[i]@),
    ensures
        !config.excludes(path),
{
    assert(occurs_in(path, texts(config.exempt@)[i]));
}

} // verus!
