//! A static site generator's core: content classification, front-matter framing,
//! permalinks, post ordering, layout chains and the dev-server reload loop.
use vstd::prelude::*;

pub mod config;
pub mod content;
pub mod error;
pub mod front_matter;
pub mod layout;
pub mod number;
pub mod path;
pub mod scan;
pub mod server;
pub mod text;

verus! {

/// Whether a post is published when its metadata says nothing.
pub fn default_true() -> (r: bool)
    ensures
        r,
{
    true
}

} // verus!
