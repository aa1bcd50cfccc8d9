//! Which layouts wrap a content item, and the guard against layouts that wrap themselves.
use vstd::prelude::*;
use crate::error::Error;
use crate::front_matter::FrontMatter;
use crate::path::{join, joined};

verus! {

/// The layout used when a content item names none.
pub open spec fn default_layout() -> Seq<char> {
    "default"@
}

/// The layout that a content item asks for.
pub open spec fn layout_wanted(fm: FrontMatter) -> Seq<char> {
    match fm.layout {
        Some(l) => l@,
        None => default_layout(),
    }
}

/// The layout that a content item asks for: its own, or `default`.
pub fn layout_name(fm: &FrontMatter) -> (r: String)
    ensures
        r@ == layout_wanted(*fm),
{
    match &fm.layout {
        Some(l) => l.as_str().to_owned(),
        None => "default".to_owned(),
    }
}

/// Where the layout `name` lives: `<source>/_layouts/<name>.html`.
pub open spec fn layout_path(source: Seq<char>, name: Seq<char>) -> Seq<char> {
    joined(joined(source, "_layouts"@), name + ".html"@)
}

/// Where the layout `name` lives under `source`.
pub fn layout_file(source: &str, name: &str) -> (r: String)
    ensures
        r@ == layout_path(source@, name@),
{
    let dir = join(source, "_layouts");
    let mut file = name.to_owned();
    file.append(".html");
    join(dir.as_str(), file.as_str())
}

/// The layouts entered so far while wrapping one content item, in order.
pub struct LayoutChain {
    visited: Vec<String>,
}

impl LayoutChain {
    /// The names of the layouts entered so far.
    pub closed spec fn names(&self) -> Seq<Seq<char>> {
        self.visited@.map_values(|s: String| s@)
    }

    /// No layout was entered twice.
    #[verifier::type_invariant]
    spec fn entered_once(&self) -> bool {
        self.visited@.map_values(|s: String| s@).no_duplicates()
    }

    /// A chain that has entered no layout.
    pub fn new() -> (r: Self)
        ensures
            r.names() == Seq::<Seq<char>>::empty(),
    {
        let r = LayoutChain { visited: Vec::new() };
        assert(r.names() =~= Seq::<Seq<char>>::empty());
        r
    }

    /// Whether the layout `name` was entered already.
    pub fn has_entered(&self, name: &str) -> (r: bool)
        ensures
            r == self.names().contains(name@),
    {
        let mut i: usize = 0;
        while i < self.visited.len()
            invariant
                i <= self.visited@.len(),
                forall|j: int| 0 <= j < i ==> self.names()[j] != name@,
            decreases self.visited@.len() - i,
        {
            if crate::path::same_text(self.visited[i].as_str(), name) {
                assert(self.names()[i as int] == name@);
                return true;
            }
            i = i + 1;
        }
        false
    }

    /// Enters the layout `name`; a layout entered a second time is a cycle, reported as an
    /// error that names it, and leaves the chain as it was.
    pub fn enter(&mut self, name: &str) -> (r: Result<(), Error>)
        ensures
            old(self).names().contains(name@) ==> (r matches Err(Error::LayoutCycle(n)) && n@
                == name@ && final(self).names() == old(self).names()),
            !old(self).names().contains(name@) ==> (r is Ok && final(self).names() == old(
                self,
            ).names().push(name@)),
    {
        proof {
            use_type_invariant(&*self);
        }
        if self.has_entered(name) {
            return Err(Error::LayoutCycle(name.to_owned()));
        }
        let ghost before = self.names();
        let mut v: Vec<String> = Vec::new();
        let mut i: usize = 0;
        while i < self.visited.len()
            invariant
                i <= self.visited@.len(),
                before == self.names(),
                v@.len() == i,
                v@.map_values(|s: String| s@) == before.subrange(0, i as int),
            decreases self.visited@.len() - i,
        {
            let item = self.visited[i].as_str().to_owned();
            let ghost prev = v@;
            assert(before[i as int] == self.visited@[i as int]@);
            v.push(item);
            assert(v@ == prev.push(item));
            let ghost mv = v@.map_values(|s: String| s@);
            assert(mv =~= before.subrange(0, i + 1)) by {
                assert forall|j: int| 0 <= j < i + 1 implies #[trigger] mv[j]
                    == before.subrange(0, i + 1)[j] by {
                    if j < i {
                        assert(v@[j] == prev[j]);
                        assert(prev.map_values(|s: String| s@)[j] == before.subrange(0, i as int)[j]);
                    }
                }
            }
            i = i + 1;
        }
        let last = name.to_owned();
        let ghost prev = v@;
        v.push(last);
        let ghost mv = v@.map_values(|s: String| s@);
        assert(mv =~= before.push(name@)) by {
            assert(before.subrange(0, before.len() as int) =~= before);
            assert forall|j: int| 0 <= j < before.len() + 1 implies #[trigger] mv[j]
                == before.push(name@)[j] by {
                if j < before.len() {
                    assert(v@[j] == prev[j]);
                    assert(prev.map_values(|s: String| s@)[j] == before[j]);
                }
            }
        }
        *self = LayoutChain { visited: v };
        Ok(())
    }
}

} // verus!
