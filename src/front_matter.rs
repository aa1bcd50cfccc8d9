//! The metadata block at the top of a content file, and how it is told apart from the body.
use vstd::prelude::*;
use crate::text::{begins_with, find, occurs_at, occurs_in, starts_with, trim, trim_start, trimmed, trimmed_start};

verus! {

/// Per-file metadata.
#[derive(Debug, Clone, PartialEq)]
pub struct FrontMatter {
    pub title: Option<String>,
    pub layout: Option<String>,
    pub date: Option<String>,
    pub author: Option<String>,
    pub categories: Vec<String>,
    pub tags: Vec<String>,
    pub permalink: Option<String>,
    pub published: bool,
    /// Fields this library does not know, as key and YAML text of the value.
    pub custom: Vec<(String, String)>,
}

impl FrontMatter {
    /// The metadata of a file that has none.
    pub open spec fn is_default(&self) -> bool {
        &&& self.title is None
        &&& self.layout is None
        &&& self.date is None
        &&& self.author is None
        &&& self.categories@.len() == 0
        &&& self.tags@.len() == 0
        &&& self.permalink is None
        &&& self.published
        &&& self.custom@.len() == 0
    }

    /// The metadata of a file that has none.
    pub fn new() -> (r: Self)
        ensures
            r.is_default(),
    {
        FrontMatter {
            title: None,
            layout: None,
            date: None,
            author: None,
            categories: Vec::new(),
            tags: Vec::new(),
            permalink: None,
            published: crate::default_true(),
            custom: Vec::new(),
        }
    }
}

impl Default for FrontMatter {
    fn default() -> (r: Self)
        ensures
            r.is_default(),
    {
        FrontMatter::new()
    }
}

/// The line that opens and closes a metadata block.
pub open spec fn delimiter() -> Seq<char> {
    "---"@
}

/// A closing delimiter: a line break and the delimiter.
pub open spec fn closing() -> Seq<char> {
    "\n---"@
}

/// What follows the opening delimiter of the trimmed text.
pub open spec fn after_opening(s: Seq<char>) -> Seq<char> {
    trimmed(s).subrange(3, trimmed(s).len() as int)
}

/// The text opens a metadata block and a closing delimiter follows.
pub open spec fn has_block(s: Seq<char>) -> bool {
    begins_with(trimmed(s), delimiter()) && occurs_in(after_opening(s), closing())
}

/// The position, in `after_opening(s)`, of the first closing delimiter.
pub open spec fn closing_at(s: Seq<char>) -> int {
    choose|e: int|
        occurs_at(after_opening(s), closing(), e) && forall|j: int|
            0 <= j < e ==> !occurs_at(after_opening(s), closing(), j)
}

/// The text of the metadata block, when there is a complete one.
pub open spec fn block_of(s: Seq<char>) -> Option<Seq<char>> {
    if has_block(s) {
        Some(after_opening(s).subrange(0, closing_at(s)))
    } else {
        None
    }
}

/// The body: after a complete block, what follows it without leading white space; else
/// the whole text.
pub open spec fn body_of(s: Seq<char>) -> Seq<char> {
    if has_block(s) {
        trimmed_start(after_opening(s).subrange(closing_at(s) + 4, after_opening(s).len() as int))
    } else {
        s
    }
}

/// Splits `content` into its metadata block, if it has a complete one, and its body.
/// The block is the text between the opening delimiter of the trimmed content and the first
/// line break followed by the delimiter; a text with no opening delimiter, or with no
/// closing one, has no block and is all body.
pub fn extract_front_matter<'a>(content: &'a str) -> (r: (Option<&'a str>, &'a str))
    ensures
        match r.0 {
            Some(b) => block_of(content@) == Some(b@),
            None => block_of(content@) is None,
        },
        r.1@ == body_of(content@),
{
    let t = trim(content);
    proof {
        reveal_strlit("---");
        reveal_strlit("\n---");
    }
    if !starts_with(t, "---") {
        return (None, content);
    }
    let n = t.unicode_len();
    let rest = t.substring_char(3, n);
    assert(rest@ == after_opening(content@));
    match find(rest, "\n---") {
        Some(e) => {
            let m = rest.unicode_len();
            proof {
                let c = closing_at(content@);
                assert(occurs_at(after_opening(content@), closing(), e as int));
                assert(c == e) by {
                    if c < e {
                        assert(!occurs_at(rest@, closing(), c));
                    } else if e < c {
                        assert(!occurs_at(after_opening(content@), closing(), e as int));
                    }
                }
            }
            let block = rest.substring_char(0, e);
            let body = trim_start(rest.substring_char(e + 4, m));
            (Some(block), body)
        },
        None => (None, content),
    }
}

/// A text that does not open with the delimiter has no block and is all body.
pub proof fn lemma_no_opening_delimiter(s: Seq<char>)
    requires
        !begins_with(trimmed(s), delimiter()),
    ensures
        block_of(s) is None,
        body_of(s) == s,
{
}

/// A text that opens with the delimiter but never closes it has no block and is all body.
pub proof fn lemma_unclosed_block(s: Seq<char>)
    requires
        begins_with(trimmed(s), delimiter()),
        !occurs_in(after_opening(s), closing()),
    ensures
        block_of(s) is None,
        body_of(s) == s,
{
}

} // verus!
