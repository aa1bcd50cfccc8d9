//! How the files of a source tree are told apart: reserved directories, posts, pages.
use vstd::prelude::*;
use crate::config::Config;
use crate::path::{below, extension_of, join, joined, path_extension, relative_to, same_text};

verus! {

/// The directories that a walk of the source tree never enters.
pub open spec fn reserved_directory(name: Seq<char>) -> bool {
    name == "_site"@ || name == "_layouts"@ || name == "_includes"@ || name == "_data"@ || name
        == "node_modules"@ || name == ".git"@
}

/// Whether a directory of this name is left out of the walk of the source tree.
pub fn is_special_directory(name: &str) -> (r: bool)
    ensures
        r == reserved_directory(name@),
{
    same_text(name, "_site") || same_text(name, "_layouts") || same_text(name, "_includes")
        || same_text(name, "_data") || same_text(name, "node_modules") || same_text(name, ".git")
}

/// A Markdown file, by its extension.
pub open spec fn markdown_path(p: Seq<char>) -> bool {
    path_extension(p) == Some("md"@) || path_extension(p) == Some("markdown"@)
}

/// A file that may be a page, by its extension: Markdown or HTML.
pub open spec fn page_source_path(p: Seq<char>) -> bool {
    markdown_path(p) || path_extension(p) == Some("html"@)
}

/// Whether `path` names a Markdown file.
pub fn is_markdown_file(path: &str) -> (r: bool)
    ensures
        r == markdown_path(path@),
{
    match extension_of(path) {
        Some(e) => same_text(e, "md") || same_text(e, "markdown"),
        None => false,
    }
}

/// Whether `path` names a Markdown or HTML file.
pub fn is_page_source(path: &str) -> (r: bool)
    ensures
        r == page_source_path(path@),
{
    match extension_of(path) {
        Some(e) => same_text(e, "md") || same_text(e, "markdown") || same_text(e, "html"),
        None => false,
    }
}

/// A file of the walk is a page: it is not excluded, it is Markdown or HTML, and it lies
/// under neither the posts nor the drafts directory.
pub open spec fn page_candidate(config: Config, source: Seq<char>, path: Seq<char>) -> bool {
    &&& !config.excludes(path)
    &&& page_source_path(path)
    &&& below(joined(source, "_posts"@), path) is None
    &&& below(joined(source, "_drafts"@), path) is None
}

/// Whether the file `path`, found under `source`, is a page.
pub fn is_page_candidate(config: &Config, source: &str, path: &str) -> (r: bool)
    ensures
        r == page_candidate(*config, source@, path@),
{
    if config.is_excluded(path) || !is_page_source(path) {
        return false;
    }
    let posts = join(source, "_posts");
    let drafts = join(source, "_drafts");
    relative_to(posts.as_str(), path).is_none() && relative_to(drafts.as_str(), path).is_none()
}

} // verus!
