//! The stat registry: the frozen name→producer and name→metadata mappings a
//! running server serves from. Lookup hands out the per-name producer handle;
//! the handle's own locking, like every other concurrency concern, belongs to
//! the embedding program.

use vstd::prelude::*;
use crate::json::object_text;
use crate::parse::str_view_map;
use crate::smap::SortedStrMap;

verus! {

/// The two co-located mappings, both keyed by stat name. Metadata
/// descriptors are held as JSON text; producers as opaque handles of the
/// embedder's choosing.
pub struct Registry<P> {
    pub stats_meta: SortedStrMap<String>,
    pub stats: SortedStrMap<P>,
}

impl<P> Registry<P> {
    pub open spec fn wf(self) -> bool {
        self.stats_meta.wf() && self.stats.wf()
    }

    /// The metadata mapping, by character content.
    pub open spec fn meta_map(self) -> Map<Seq<char>, Seq<char>> {
        str_view_map(self.stats_meta.map())
    }

    /// The producer mapping.
    pub open spec fn prod_map(self) -> Map<Seq<char>, P> {
        self.stats.map()
    }

    /// A registry over the given mappings.
    pub fn new(stats_meta: SortedStrMap<String>, stats: SortedStrMap<P>) -> (r: Self)
        requires
            stats_meta.wf(),
            stats.wf(),
        ensures
            r.wf(),
            r.stats_meta == stats_meta,
            r.stats == stats,
    {
        Registry { stats_meta, stats }
    }

    /// The handle registered under `name`, if any: the same name always
    /// resolves to the same handle, so concurrent requests for one stat
    /// contend on one producer while distinct stats stay independent.
    pub fn lookup_producer(&self, name: &str) -> (r: Option<&P>)
        requires
            self.wf(),
        ensures
            self.prod_map().dom().contains(name@) ==> (r matches Some(p) && *p
                == self.prod_map()[name@]),
            !self.prod_map().dom().contains(name@) ==> r is None,
    {
        self.stats.get(name)
    }

    /// The full metadata snapshot as one JSON object document.
    pub fn meta_payload(&self) -> (r: String)
        requires
            self.wf(),
        ensures
            r@ == object_text(self.stats_meta.entries@),
    {
        let mut out = String::new();
        crate::json::push_object(&mut out, &self.stats_meta.entries);
        out
    }
}

} // verus!
