//! The dependency grapher: one node per manifest, one directed edge per
//! declared dependency that names another manifest in the set. A cycle
//! is detected and reported as a configuration error; an order is never
//! guessed in its presence.
use vstd::prelude::*;

use crate::ext::{digraph_cyclic, edges_cyclic};
use crate::manifest::Manifest;
use crate::structs::Dependency;
use crate::strutil::strs_view;

verus! {

/// The names of a manifest list, in order.
pub open spec fn names_of(ms: Seq<Manifest>) -> Seq<Seq<char>> {
    ms.map_values(|m: Manifest| m.name@)
}

/// The position of the first occurrence of a name, or -1 when absent.
pub open spec fn index_of_name(names: Seq<Seq<char>>, n: Seq<char>) -> int
    decreases names.len(),
{
    if names.len() == 0 {
        -1
    } else if names[0] == n {
        0
    } else {
        let r = index_of_name(names.drop_first(), n);
        if r < 0 {
            -1
        } else {
            r + 1
        }
    }
}

/// If a name first occurs at position `i`, that is its index.
pub proof fn lemma_index_of_name_at(names: Seq<Seq<char>>, n: Seq<char>, i: int)
    requires
        0 <= i < names.len(),
        names[i] == n,
        forall|j: int| 0 <= j < i ==> names[j] != n,
    ensures
        index_of_name(names, n) == i,
    decreases i,
{
    if i == 0 {
    } else {
        assert(names[0] != n);
        assert(names.drop_first()[i - 1] == names[i]);
        assert forall|j: int| 0 <= j < i - 1 implies names.drop_first()[j] != n by {
            assert(names.drop_first()[j] == names[j + 1]);
        }
        lemma_index_of_name_at(names.drop_first(), n, i - 1);
    }
}

/// A name that occurs nowhere has no index.
pub proof fn lemma_index_of_name_none(names: Seq<Seq<char>>, n: Seq<char>)
    requires
        forall|j: int| 0 <= j < names.len() ==> names[j] != n,
    ensures
        index_of_name(names, n) == -1,
    decreases names.len(),
{
    if names.len() > 0 {
        assert forall|j: int| 0 <= j < names.len() - 1 implies names.drop_first()[j] != n by {
            assert(names.drop_first()[j] == names[j + 1]);
        }
        lemma_index_of_name_none(names.drop_first(), n);
    }
}

/// The edges one manifest's dependency list contributes: an edge to the
/// first manifest of each resolvable name, unresolvable names skipped.
pub open spec fn edges_for(names: Seq<Seq<char>>, i: int, deps: Seq<Dependency>) -> Seq<
    (u32, u32),
>
    decreases deps.len(),
{
    if deps.len() == 0 {
        Seq::empty()
    } else {
        let rest = edges_for(names, i, deps.drop_last());
        let j = index_of_name(names, deps.last().name@);
        if j >= 0 {
            rest.push((i as u32, j as u32))
        } else {
            rest
        }
    }
}

/// All edges of the first `k` manifests.
pub open spec fn dep_edges(ms: Seq<Manifest>, names: Seq<Seq<char>>, k: int) -> Seq<(u32, u32)>
    decreases k,
{
    if k <= 0 {
        Seq::empty()
    } else {
        dep_edges(ms, names, k - 1) + edges_for(names, k - 1, ms[k - 1].dependencies@)
    }
}

/// A name's index, when found, is a position in the list.
pub proof fn lemma_index_of_name_range(names: Seq<Seq<char>>, n: Seq<char>)
    ensures
        -1 <= index_of_name(names, n) < names.len(),
    decreases names.len(),
{
    if names.len() > 0 && names[0] != n {
        lemma_index_of_name_range(names.drop_first(), n);
    }
}

/// Every edge a dependency list contributes points from its own
/// manifest's index into the name list.
pub proof fn lemma_edges_for_bounded(names: Seq<Seq<char>>, i: int, deps: Seq<Dependency>)
    requires
        0 <= i < 0xFFFF_FFFF,
        names.len() <= 0xFFFF_FFFF,
    ensures
        forall|t: int|
            0 <= t < edges_for(names, i, deps).len() ==> (#[trigger] edges_for(
                names,
                i,
                deps,
            )[t]).0 == i as u32 && (edges_for(names, i, deps)[t].1 as int) < names.len(),
    decreases deps.len(),
{
    if deps.len() > 0 {
        lemma_edges_for_bounded(names, i, deps.drop_last());
        lemma_index_of_name_range(names, deps.last().name@);
        let e = edges_for(names, i, deps);
        let rest = edges_for(names, i, deps.drop_last());
        let j = index_of_name(names, deps.last().name@);
        assert forall|t: int| 0 <= t < e.len() implies (#[trigger] e[t]).0 == i as u32 && (
        e[t].1 as int) < names.len() by {
            if j >= 0 {
                assert(e == rest.push((i as u32, j as u32)));
                if t < rest.len() {
                    assert(e[t] == rest[t]);
                } else {
                    assert(e[t] == (i as u32, j as u32));
                }
            } else {
                assert(e == rest);
            }
        }
    }
}

/// Every edge of a manifest set stays below the node-index limit.
pub proof fn lemma_dep_edges_bounded(ms: Seq<Manifest>, names: Seq<Seq<char>>, k: int)
    requires
        0 <= k <= ms.len(),
        ms.len() <= 0xFFFF_FFFF,
        names.len() == ms.len(),
    ensures
        forall|t: int|
            0 <= t < dep_edges(ms, names, k).len() ==> (#[trigger] dep_edges(ms, names, k)[t]).0
                < 0xFFFF_FFFFu32 && dep_edges(ms, names, k)[t].1 < 0xFFFF_FFFFu32,
    decreases k,
{
    if k > 0 {
        lemma_dep_edges_bounded(ms, names, k - 1);
        lemma_edges_for_bounded(names, k - 1, ms[k - 1].dependencies@);
        let e = dep_edges(ms, names, k);
        let prefix = dep_edges(ms, names, k - 1);
        let tail = edges_for(names, k - 1, ms[k - 1].dependencies@);
        assert forall|t: int| 0 <= t < e.len() implies (#[trigger] e[t]).0 < 0xFFFF_FFFFu32
            && e[t].1 < 0xFFFF_FFFFu32 by {
            assert(e == prefix + tail);
            if t < prefix.len() {
                assert(e[t] == prefix[t]);
            } else {
                assert(e[t] == tail[t - prefix.len()]);
                assert(tail[t - prefix.len()].0 == (k - 1) as u32);
                assert((tail[t - prefix.len()].1 as int) < names.len());
            }
        }
    }
}

/// The total number of declared dependencies among the first `k`
/// manifests.
pub open spec fn total_deps(ms: Seq<Manifest>, k: int) -> int
    decreases k,
{
    if k <= 0 {
        0
    } else {
        total_deps(ms, k - 1) + ms[k - 1].dependencies@.len()
    }
}

/// One dependency list contributes at most one edge per entry.
pub proof fn lemma_edges_for_len(names: Seq<Seq<char>>, i: int, deps: Seq<Dependency>)
    ensures
        edges_for(names, i, deps).len() <= deps.len(),
    decreases deps.len(),
{
    if deps.len() > 0 {
        lemma_edges_for_len(names, i, deps.drop_last());
    }
}

/// A manifest set contributes at most one edge per declared dependency.
pub proof fn lemma_dep_edges_len(ms: Seq<Manifest>, names: Seq<Seq<char>>, k: int)
    requires
        0 <= k <= ms.len(),
    ensures
        dep_edges(ms, names, k).len() <= total_deps(ms, k),
    decreases k,
{
    if k > 0 {
        lemma_dep_edges_len(ms, names, k - 1);
        lemma_edges_for_len(names, k - 1, ms[k - 1].dependencies@);
    }
}

/// Two services that depend on each other form a directed cycle: the
/// system never orders such a pair, it reports them.
pub proof fn lemma_mutual_dependency_cycles(edges: Seq<(u32, u32)>, a: u32, b: u32)
    requires
        crate::ext::has_edge(edges, a, b),
        crate::ext::has_edge(edges, b, a),
    ensures
        digraph_cyclic(edges),
{
    assert(crate::ext::reaches_in(edges, a, a, 0));
    assert(crate::ext::reaches_in(edges, b, a, 1));
    assert(crate::ext::reaches_in(edges, a, a, 2));
}

/// Finds the first position of a name in a list.
pub fn find_index(names: &Vec<String>, n: &String) -> (r: Option<usize>)
    ensures
        match r {
            Some(ix) => ix < names@.len() && index_of_name(strs_view(names@), n@) == ix,
            None => index_of_name(strs_view(names@), n@) == -1,
        },
{
    let mut i: usize = 0;
    while i < names.len()
        invariant
            i <= names.len(),
            forall|j: int| 0 <= j < i ==> strs_view(names@)[j] != n@,
        decreases names.len() - i,
    {
        assert(strs_view(names@)[i as int] == names@[i as int]@);
        if names[i] == *n {
            proof {
                lemma_index_of_name_at(strs_view(names@), n@, i as int);
            }
            return Some(i);
        }
        i += 1;
    }
    proof {
        lemma_index_of_name_none(strs_view(names@), n@);
    }
    None
}

/// What stops a rollout ordering from existing.
#[derive(Clone, Copy, Debug, PartialEq, Eq, Structural)]
pub enum GraphError {
    /// The dependency graph holds a directed cycle, so no safe order
    /// exists; the configuration must be fixed.
    CycleDetected,
}

/// A directed graph of inter-service dependencies, as an edge list over
/// manifest indices.
#[derive(Clone, Debug)]
pub struct DependencyGraph {
    /// The service names, one node each, in manifest order.
    pub names: Vec<String>,
    /// One edge per resolvable declared dependency.
    pub edges: Vec<(u32, u32)>,
}

impl DependencyGraph {
    /// Every edge endpoint and the edge count stay below the node- and
    /// edge-index limit, as the cycle detector demands.
    pub open spec fn wf(self) -> bool {
        &&& self.edges@.len() <= 0xFFFF_FFFF
        &&& forall|t: int|
            0 <= t < self.edges@.len() ==> (#[trigger] self.edges@[t]).0 < 0xFFFF_FFFFu32
                && self.edges@[t].1 < 0xFFFF_FFFFu32
    }

    /// Builds the graph of a manifest set: one node per manifest, one
    /// edge per dependency that names another manifest of the set. The
    /// counts are bounded by the detector's index limit, a machine
    /// limit.
    pub fn build(manifests: &Vec<Manifest>) -> (g: DependencyGraph)
        requires
            manifests@.len() <= 0xFFFF_FFFF,
            total_deps(manifests@, manifests@.len() as int) <= 0xFFFF_FFFF,
        ensures
            g.wf(),
            strs_view(g.names@) == names_of(manifests@),
            g.edges@ == dep_edges(
                manifests@,
                names_of(manifests@),
                manifests@.len() as int,
            ),
    {
        proof {
            lemma_dep_edges_bounded(
                manifests@,
                names_of(manifests@),
                manifests@.len() as int,
            );
            lemma_dep_edges_len(
                manifests@,
                names_of(manifests@),
                manifests@.len() as int,
            );
        }
        let ghost nv = names_of(manifests@);
        let mut names: Vec<String> = Vec::new();
        let mut i: usize = 0;
        while i < manifests.len()
            invariant
                i <= manifests.len(),
                nv == names_of(manifests@),
                strs_view(names@) =~= nv.take(i as int),
            decreases manifests.len() - i,
        {
            let ghost prev = names@;
            names.push(manifests[i].name.clone());
            proof {
                crate::strutil::lemma_strs_view_push(prev, manifests@[i as int].name);
                crate::strutil::lemma_take_one_more(nv, i as int);
                assert(nv[i as int] == manifests@[i as int].name@);
            }
            i += 1;
        }
        assert(nv.take(manifests.len() as int) =~= nv);
        let mut edges: Vec<(u32, u32)> = Vec::new();
        let mut i: usize = 0;
        while i < manifests.len()
            invariant
                i <= manifests.len(),
                manifests@.len() <= 0xFFFF_FFFF,
                nv == names_of(manifests@),
                strs_view(names@) == nv,
                names@.len() == manifests@.len(),
                edges@ =~= dep_edges(manifests@, nv, i as int),
            decreases manifests.len() - i,
        {
            let deps = &manifests[i].dependencies;
            let mut d: usize = 0;
            while d < deps.len()
                invariant
                    i < manifests.len(),
                    d <= deps.len(),
                    manifests@.len() <= 0xFFFF_FFFF,
                    nv == names_of(manifests@),
                    strs_view(names@) == nv,
                    names@.len() == manifests@.len(),
                    deps@ == manifests@[i as int].dependencies@,
                    edges@ =~= dep_edges(manifests@, nv, i as int) + edges_for(
                        nv,
                        i as int,
                        deps@.take(d as int),
                    ),
                decreases deps.len() - d,
            {
                proof {
                    assert(deps@.take(d + 1).drop_last() =~= deps@.take(d as int));
                    assert(deps@.take(d + 1).last() == deps@[d as int]);
                }
                match find_index(&names, &deps[d].name) {
                    Some(ix) => {
                        edges.push((i as u32, ix as u32));
                        proof {
                            assert(edges@ =~= dep_edges(manifests@, nv, i as int) + edges_for(
                                nv,
                                i as int,
                                deps@.take(d + 1),
                            ));
                        }
                    },
                    None => {
                        proof {
                            assert(edges@ =~= dep_edges(manifests@, nv, i as int) + edges_for(
                                nv,
                                i as int,
                                deps@.take(d + 1),
                            ));
                        }
                    },
                }
                d += 1;
            }
            proof {
                assert(deps@.take(deps@.len() as int) =~= deps@);
                assert(edges@ =~= dep_edges(manifests@, nv, i + 1));
            }
            i += 1;
        }
        DependencyGraph { names, edges }
    }

    /// Whether the graph holds a directed cycle.
    pub fn has_cycle(&self) -> (r: bool)
        requires
            self.wf(),
        ensures
            r == digraph_cyclic(self.edges@),
    {
        edges_cyclic(&self.edges)
    }

    /// A rollout order exists exactly when the graph is acyclic: a cycle
    /// is reported as a configuration error, never silently broken by an
    /// arbitrary order.
    pub fn verify_acyclic(&self) -> (r: Result<(), GraphError>)
        requires
            self.wf(),
        ensures
            r is Ok <==> !digraph_cyclic(self.edges@),
            r matches Err(e) ==> e == GraphError::CycleDetected,
    {
        if self.has_cycle() {
            Err(GraphError::CycleDetected)
        } else {
            Ok(())
        }
    }
}

} // verus!
