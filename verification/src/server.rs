//! The server builder: chainable configuration of the socket path and of the
//! producer and metadata registrations, and the launch-time step that
//! resolves the path once and moves the accumulated mappings into the
//! registry, leaving the builder's own copies empty. Creating the socket
//! directory, binding, and spawning the accept loop are the embedder's part.

use vstd::prelude::*;
use crate::parse::str_view_map;
use crate::registry::Registry;
use crate::smap::SortedStrMap;

verus! {

/// One path segment joined below a base, as a filesystem path join reads it:
/// an absolute segment replaces the base, otherwise the two are separated by
/// exactly one slash.
pub open spec fn path_join(a: Seq<char>, b: Seq<char>) -> Seq<char> {
    if b.len() > 0 && b[0] == '/' {
        b
    } else if a.len() == 0 {
        b
    } else if a[a.len() - 1] == '/' {
        a + b
    } else {
        a + "/"@ + b
    }
}

fn join_exec(a: &str, b: &str) -> (r: String)
    ensures
        r@ == path_join(a@, b@),
{
    let na = a.unicode_len();
    let nb = b.unicode_len();
    if nb > 0 && b.get_char(0) == '/' {
        b.to_owned()
    } else if na == 0 {
        b.to_owned()
    } else if a.get_char(na - 1) == '/' {
        let mut s = a.to_owned();
        s.append(b);
        s
    } else {
        let mut s = a.to_owned();
        s.append("/");
        s.append(b);
        proof {
            assert(s@ =~= a@ + "/"@ + b@);
        }
        s
    }
}

/// The builder: path configuration and the two registration holders. `P` is
/// the embedder's producer handle type.
pub struct ScxStatsServer<P> {
    pub base_path: String,
    pub sched_path: String,
    pub stats_path: String,
    pub path: Option<String>,
    pub stats_meta_holder: SortedStrMap<String>,
    pub stats_holder: SortedStrMap<P>,
}

impl<P> ScxStatsServer<P> {
    pub open spec fn wf(self) -> bool {
        self.stats_meta_holder.wf() && self.stats_holder.wf()
    }

    /// The metadata registered so far, by character content.
    pub open spec fn meta_map(self) -> Map<Seq<char>, Seq<char>> {
        str_view_map(self.stats_meta_holder.map())
    }

    /// The producers registered so far.
    pub open spec fn prod_map(self) -> Map<Seq<char>, P> {
        self.stats_holder.map()
    }

    /// The socket path launch will use: the explicit path when one was set,
    /// else the three configured segments joined.
    pub open spec fn resolved_path(self) -> Seq<char> {
        match self.path {
            Some(p) => p@,
            None => path_join(path_join(self.base_path@, self.sched_path@), self.stats_path@),
        }
    }

    /// Everything except the two holders, unchanged.
    pub open spec fn same_config(self, other: Self) -> bool {
        self.base_path == other.base_path && self.sched_path == other.sched_path
            && self.stats_path == other.stats_path && self.path == other.path
    }

    /// A builder with the default path segments and no registrations.
    pub fn new() -> (r: Self)
        ensures
            r.wf(),
            r.base_path@ == "/var/run/scx"@,
            r.sched_path@ == "root"@,
            r.stats_path@ == "stats"@,
            r.path is None,
            r.meta_map() == Map::<Seq<char>, Seq<char>>::empty(),
            r.prod_map() == Map::<Seq<char>, P>::empty(),
            r.stats_meta_holder.entries@.len() == 0,
    {
        let r = ScxStatsServer {
            base_path: "/var/run/scx".to_owned(),
            sched_path: "root".to_owned(),
            stats_path: "stats".to_owned(),
            path: None,
            stats_meta_holder: SortedStrMap::new(),
            stats_holder: SortedStrMap::new(),
        };
        proof {
            assert(r.meta_map() =~= Map::<Seq<char>, Seq<char>>::empty());
        }
        r
    }

    /// Registers a metadata descriptor, itself JSON text, under `name`; a
    /// later registration for the same name replaces the earlier one.
    pub fn add_stats_meta(self, name: &str, meta: String) -> (r: Self)
        requires
            self.wf(),
        ensures
            r.wf(),
            r.meta_map() == self.meta_map().insert(name@, meta@),
            r.prod_map() == self.prod_map(),
            r.same_config(self),
    {
        let ghost m0 = self.stats_meta_holder.map();
        let ghost mv = meta@;
        let mut s = self;
        s.stats_meta_holder.insert(name.to_owned(), meta);
        proof {
            assert(str_view_map(m0.insert(name@, s.stats_meta_holder.map()[name@])) =~= str_view_map(
                m0,
            ).insert(name@, mv));
        }
        s
    }

    /// Registers a producer handle under `name`; a later registration for
    /// the same name replaces the earlier one.
    pub fn add_stats(self, name: &str, fetch: P) -> (r: Self)
        requires
            self.wf(),
        ensures
            r.wf(),
            r.prod_map() == self.prod_map().insert(name@, fetch),
            r.meta_map() == self.meta_map(),
            r.same_config(self),
    {
        let mut s = self;
        s.stats_holder.insert(name.to_owned(), fetch);
        s
    }

    /// Sets the base path segment.
    pub fn set_base_path(self, path: &str) -> (r: Self)
        ensures
            r == (ScxStatsServer { base_path: r.base_path, ..self }),
            r.base_path@ == path@,
    {
        let mut s = self;
        s.base_path = path.to_owned();
        s
    }

    /// Sets the scheduler path segment.
    pub fn set_sched_path(self, path: &str) -> (r: Self)
        ensures
            r == (ScxStatsServer { sched_path: r.sched_path, ..self }),
            r.sched_path@ == path@,
    {
        let mut s = self;
        s.sched_path = path.to_owned();
        s
    }

    /// Sets the stats path segment.
    pub fn set_stats_path(self, path: &str) -> (r: Self)
        ensures
            r == (ScxStatsServer { stats_path: r.stats_path, ..self }),
            r.stats_path@ == path@,
    {
        let mut s = self;
        s.stats_path = path.to_owned();
        s
    }

    /// Sets the full socket path, overriding the three segments.
    pub fn set_path(self, path: &str) -> (r: Self)
        ensures
            r == (ScxStatsServer { path: r.path, ..self }),
            r.path matches Some(p) && p@ == path@,
    {
        let mut s = self;
        s.path = Some(path.to_owned());
        s
    }

    /// The launch-time configuration step: resolves the socket path, at most
    /// once, and moves the registrations into a registry, leaving the
    /// builder's holders empty. The embedder then prepares the filesystem,
    /// binds a listening socket at the returned path, and serves with the
    /// returned registry.
    pub fn prepare_launch(self) -> (r: (Self, String, Registry<P>))
        requires
            self.wf(),
        ensures
            r.1@ == self.resolved_path(),
            r.0.path matches Some(p) && p@ == self.resolved_path(),
            r.0.base_path == self.base_path && r.0.sched_path == self.sched_path
                && r.0.stats_path == self.stats_path,
            r.0.wf(),
            r.0.meta_map() == Map::<Seq<char>, Seq<char>>::empty(),
            r.0.prod_map() == Map::<Seq<char>, P>::empty(),
            r.2.wf(),
            r.2.stats_meta == self.stats_meta_holder,
            r.2.stats == self.stats_holder,
    {
        let path: String = match self.path {
            Some(p) => p,
            None => {
                let base = join_exec(self.base_path.as_str(), self.sched_path.as_str());
                join_exec(base.as_str(), self.stats_path.as_str())
            },
        };
        let reg = Registry::new(self.stats_meta_holder, self.stats_holder);
        let drained = ScxStatsServer {
            base_path: self.base_path,
            sched_path: self.sched_path,
            stats_path: self.stats_path,
            path: Some(path.clone()),
            stats_meta_holder: SortedStrMap::new(),
            stats_holder: SortedStrMap::new(),
        };
        proof {
            assert(drained.meta_map() =~= Map::<Seq<char>, Seq<char>>::empty());
        }
        (drained, path, reg)
    }
}

} // verus!
