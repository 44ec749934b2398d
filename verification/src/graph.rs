//! The traversal law, proved over an explicit declaration graph.
//!
//! `ModuleGraph` records, for each source path, the child paths its
//! declarations resolve to — exactly what the resolver reports file by
//! file. `expand_graph` runs in full, over such a graph, the same
//! breadth-first expansion that `Traversal` performs step by step over
//! the real filesystem, and carries the orchestrator's guarantee:
//! the visited list holds every file reachable from the entries, holds
//! each exactly once no matter how many declaring files reference it, and
//! holds nothing unreachable. The function terminates on every graph,
//! cyclic ones included: a file re-discovered through a back-reference is
//! dropped, never re-queued.

use vstd::prelude::*;
use vstd::set_lib::lemma_len_subset;

use crate::resolve::names_view;

verus! {

/// An explicit declaration graph: each node a source path with its
/// resolved children, in declaration order. A path without a node has no
/// children.
pub struct ModuleGraph {
    pub nodes: Vec<(String, Vec<String>)>,
}

impl View for ModuleGraph {
    type V = Seq<(Seq<char>, Seq<Seq<char>>)>;

    open spec fn view(&self) -> Seq<(Seq<char>, Seq<Seq<char>>)> {
        self.nodes@.map_values(|n: (String, Vec<String>)| (n.0@, names_view(n.1@)))
    }
}

/// The children of `p`: those of its first node, or none.
pub open spec fn spec_children(gv: Seq<(Seq<char>, Seq<Seq<char>>)>, p: Seq<char>) -> Seq<
    Seq<char>,
>
    decreases gv.len(),
{
    if gv.len() == 0 {
        Seq::empty()
    } else if gv[0].0 == p {
        gv[0].1
    } else {
        spec_children(gv.drop_first(), p)
    }
}

/// Every child path occurring anywhere in the graph.
pub open spec fn all_children(gv: Seq<(Seq<char>, Seq<Seq<char>>)>) -> Seq<Seq<char>>
    decreases gv.len(),
{
    if gv.len() == 0 {
        Seq::empty()
    } else {
        gv[0].1 + all_children(gv.drop_first())
    }
}

/// Every path of `ps` is in `s`.
pub open spec fn holds_all(ps: Seq<Seq<char>>, s: Set<Seq<char>>) -> bool {
    forall|i: int| 0 <= i < ps.len() ==> s.contains(ps[i])
}

/// `s` is closed under the graph's children.
pub open spec fn graph_closed(gv: Seq<(Seq<char>, Seq<Seq<char>>)>, s: Set<Seq<char>>) -> bool {
    forall|p: Seq<char>, c: Seq<char>|
        s.contains(p) && #[trigger] spec_children(gv, p).contains(c) ==> s.contains(c)
}

proof fn lemma_children_in_all(gv: Seq<(Seq<char>, Seq<Seq<char>>)>, p: Seq<char>)
    ensures
        forall|c: Seq<char>| #[trigger]
            spec_children(gv, p).contains(c) ==> all_children(gv).contains(c),
    decreases gv.len(),
{
    if gv.len() == 0 {
    } else if gv[0].0 == p {
        assert forall|c: Seq<char>| #[trigger]
            spec_children(gv, p).contains(c) implies all_children(gv).contains(c) by {
            let i = choose|i: int| 0 <= i < gv[0].1.len() && gv[0].1[i] == c;
            assert(all_children(gv)[i] == c);
        }
    } else {
        lemma_children_in_all(gv.drop_first(), p);
        assert forall|c: Seq<char>| #[trigger]
            spec_children(gv, p).contains(c) implies all_children(gv).contains(c) by {
            assert(spec_children(gv.drop_first(), p).contains(c));
            let j = choose|j: int|
                0 <= j < all_children(gv.drop_first()).len() && all_children(gv.drop_first())[j]
                    == c;
            assert(all_children(gv)[gv[0].1.len() + j] == c);
        }
    }
}

fn contains_string(v: &Vec<String>, x: &String) -> (r: bool)
    ensures
        r == names_view(v@).contains(x@),
{
    let n = v.len();
    let mut i: usize = 0;
    while i < n
        invariant
            i <= n,
            n == v@.len(),
            forall|j: int| 0 <= j < i ==> names_view(v@)[j] != x@,
        decreases n - i,
    {
        if v[i] == *x {
            proof {
                assert(names_view(v@)[i as int] == x@);
            }
            return true;
        }
        i = i + 1;
    }
    false
}

fn append_all(dst: &mut Vec<String>, src: &Vec<String>)
    ensures
        names_view(final(dst)@) == names_view(old(dst)@) + names_view(src@),
{
    let ghost sv = names_view(src@);
    let mut j: usize = 0;
    proof {
        assert(names_view(dst@) + sv.take(0) =~= names_view(dst@));
    }
    while j < src.len()
        invariant
            j <= src.len(),
            sv == names_view(src@),
            names_view(dst@) == names_view(old(dst)@) + sv.take(j as int),
        decreases src.len() - j,
    {
        let ghost d0 = dst@;
        dst.push(src[j].clone());
        proof {
            assert(names_view(dst@) =~= names_view(d0).push(sv[j as int]));
            assert(sv.take(j + 1) =~= sv.take(j as int).push(sv[j as int]));
            assert(names_view(old(dst)@) + sv.take(j + 1) =~= (names_view(old(dst)@) + sv.take(
                j as int,
            )).push(sv[j as int]));
        }
        j = j + 1;
    }
    proof {
        assert(sv.take(src@.len() as int) =~= sv);
        assert(names_view(old(dst)@) + sv =~= names_view(dst@));
    }
}

impl ModuleGraph {
    /// The resolved children of `p`, in declaration order.
    pub fn children_of(&self, p: &String) -> (r: Vec<String>)
        ensures
            names_view(r@) == spec_children(self@, p@),
    {
        let n = self.nodes.len();
        let mut i: usize = 0;
        proof {
            assert(self@.skip(0) =~= self@);
        }
        while i < n
            invariant
                i <= n,
                n == self.nodes@.len(),
                spec_children(self@, p@) == spec_children(self@.skip(i as int), p@),
            decreases n - i,
        {
            proof {
                assert(self@.skip(i as int)[0] == self@[i as int]);
                assert(self@.skip(i as int).drop_first() =~= self@.skip(i + 1));
            }
            if self.nodes[i].0 == *p {
                let mut out: Vec<String> = Vec::new();
                append_all(&mut out, &self.nodes[i].1);
                proof {
                    assert(names_view(out@) =~= Seq::<Seq<char>>::empty() + names_view(
                        self.nodes@[i as int].1@,
                    ));
                    assert(names_view(out@) =~= names_view(self.nodes@[i as int].1@));
                }
                return out;
            }
            i = i + 1;
        }
        proof {
            assert(self@.skip(n as int) =~= Seq::<(Seq<char>, Seq<Seq<char>>)>::empty());
        }
        Vec::new()
    }
}

/// Breadth-first expansion of the entry files over an explicit graph.
///
/// The result is the reachable set in discovery order: it has no
/// duplicate, holds every entry, is closed under the graph's children,
/// and is contained in every children-closed set holding the entries —
/// so a file is listed exactly once however many declaring files
/// reference it, and an unreachable file is not listed. Termination on
/// every graph, cyclic ones included, is part of the proof.
pub fn expand_graph(entries: &Vec<String>, g: &ModuleGraph) -> (r: Vec<String>)
    ensures
        names_view(r@).no_duplicates(),
        forall|i: int| 0 <= i < entries@.len() ==> names_view(r@).contains(
            #[trigger] names_view(entries@)[i],
        ),
        forall|a: int, c: Seq<char>|
            0 <= a < names_view(r@).len() && #[trigger] spec_children(
                g@,
                names_view(r@)[a],
            ).contains(c) ==> names_view(r@).contains(c),
        forall|s: Set<Seq<char>>| #[trigger]
            holds_all(names_view(entries@), s) && graph_closed(g@, s) ==> holds_all(
                names_view(r@),
                s,
            ),
{
    let ghost gv = g@;
    let ghost ev = names_view(entries@);
    let ghost uset = (ev + all_children(gv)).to_set();
    proof {
        broadcast use vstd::seq_lib::seq_to_set_is_finite;

    }
    let mut vis: Vec<String> = Vec::new();
    let mut queue: Vec<String> = Vec::new();
    append_all(&mut queue, entries);
    let mut h: usize = 0;
    proof {
        assert(names_view(queue@) =~= ev);
        assert(names_view(queue@).take(ev.len() as int) =~= ev);
        assert forall|k: int| 0 <= k < names_view(queue@).len() implies uset.contains(
            names_view(queue@)[k],
        ) by {
            assert((ev + all_children(gv))[k] == ev[k]);
            assert((ev + all_children(gv)).to_set().contains(ev[k]));
        }
    }
    while h < queue.len()
        invariant
            h <= queue@.len(),
            gv == g@,
            ev == names_view(entries@),
            uset == (ev + all_children(gv)).to_set(),
            uset.finite(),
            ev.len() <= queue@.len(),
            names_view(queue@).take(ev.len() as int) == ev,
            names_view(vis@).no_duplicates(),
            forall|k: int| 0 <= k < h ==> names_view(vis@).contains(
                #[trigger] names_view(queue@)[k],
            ),
            forall|a: int, c: Seq<char>|
                0 <= a < names_view(vis@).len() && #[trigger] spec_children(
                    gv,
                    names_view(vis@)[a],
                ).contains(c) ==> names_view(vis@).contains(c) || names_view(queue@).contains(c),
            forall|k: int| 0 <= k < names_view(queue@).len() ==> uset.contains(
                #[trigger] names_view(queue@)[k],
            ),
            forall|a: int| 0 <= a < names_view(vis@).len() ==> uset.contains(
                #[trigger] names_view(vis@)[a],
            ),
            names_view(vis@).len() <= uset.len(),
            forall|s: Set<Seq<char>>| #[trigger]
                holds_all(ev, s) && graph_closed(gv, s) ==> holds_all(names_view(vis@), s)
                    && holds_all(names_view(queue@), s),
        decreases uset.len() - names_view(vis@).len(), queue@.len() - h,
    {
        let p = queue[h].clone();
        proof {
            assert(names_view(queue@)[h as int] == p@);
        }
        h = h + 1;
        if !contains_string(&vis, &p) {
            let ghost vis0 = names_view(vis@);
            vis.push(p.clone());
            proof {
                assert(names_view(vis@) =~= vis0.push(p@));
                assert forall|i: int, j: int|
                    0 <= i < names_view(vis@).len() && 0 <= j < names_view(vis@).len() && i
                        != j implies names_view(vis@)[i] != names_view(vis@)[j] by {
                    if i == vis0.len() {
                        assert(vis0[j] != p@);
                    } else if j == vis0.len() {
                        assert(vis0[i] != p@);
                    }
                }
                names_view(vis@).unique_seq_to_set();
                assert(names_view(vis@).to_set().subset_of(uset)) by {
                    assert forall|x: Seq<char>|
                        names_view(vis@).to_set().contains(x) implies uset.contains(x) by {
                        let a = choose|a: int|
                            0 <= a < names_view(vis@).len() && names_view(vis@)[a] == x;
                    }
                }
                lemma_len_subset(names_view(vis@).to_set(), uset);
            }
            let kids = g.children_of(&p);
            let ghost q0 = names_view(queue@);
            append_all(&mut queue, &kids);
            proof {
                let qv = names_view(queue@);
                let kv = names_view(kids@);
                assert(qv == q0 + kv);
                assert(qv.take(ev.len() as int) =~= ev) by {
                    assert forall|i: int| 0 <= i < ev.len() implies qv.take(ev.len() as int)[i]
                        == ev[i] by {
                        assert(qv[i] == q0[i]);
                        assert(q0.take(ev.len() as int)[i] == ev[i]);
                    }
                }
                lemma_children_in_all(gv, p@);
                assert forall|k: int| 0 <= k < qv.len() implies uset.contains(
                    #[trigger] qv[k],
                ) by {
                    if k < q0.len() {
                        assert(qv[k] == q0[k]);
                    } else {
                        assert(qv[k] == kv[k - q0.len()]);
                        assert(spec_children(gv, p@).contains(kv[k - q0.len()]));
                        assert(all_children(gv).contains(kv[k - q0.len()]));
                        let j = choose|j: int|
                            0 <= j < all_children(gv).len() && all_children(gv)[j] == kv[k
                                - q0.len()];
                        assert((ev + all_children(gv))[ev.len() + j] == kv[k - q0.len()]);
                    }
                }
                assert forall|k: int| 0 <= k < h implies names_view(vis@).contains(
                    #[trigger] qv[k],
                ) by {
                    assert(qv[k] == q0[k]);
                    if k < h - 1 {
                        let a = choose|a: int| 0 <= a < vis0.len() && vis0[a] == q0[k];
                        assert(names_view(vis@)[a] == q0[k]);
                    } else {
                        assert(names_view(vis@)[vis0.len() as int] == p@);
                    }
                }
                assert forall|a: int, c: Seq<char>|
                    0 <= a < names_view(vis@).len() && #[trigger] spec_children(
                        gv,
                        names_view(vis@)[a],
                    ).contains(c) implies names_view(vis@).contains(c) || qv.contains(c) by {
                    if a < vis0.len() {
                        if vis0.contains(c) {
                            let b = choose|b: int| 0 <= b < vis0.len() && vis0[b] == c;
                            assert(names_view(vis@)[b] == c);
                        } else if q0.contains(c) {
                            let k = choose|k: int| 0 <= k < q0.len() && q0[k] == c;
                            assert(qv[k] == c);
                        }
                    } else {
                        assert(names_view(vis@)[a] == p@);
                        let j = choose|j: int| 0 <= j < kv.len() && kv[j] == c;
                        assert(qv[q0.len() + j] == c);
                    }
                }
                assert forall|s: Set<Seq<char>>| #[trigger]
                    holds_all(ev, s) && graph_closed(gv, s) implies holds_all(
                    names_view(vis@),
                    s,
                ) && holds_all(qv, s) by {
                    assert(holds_all(vis0, s) && holds_all(q0, s));
                    assert(s.contains(p@)) by {
                        assert(q0[h - 1] == p@);
                    }
                    assert forall|a: int| 0 <= a < names_view(vis@).len() implies s.contains(
                        names_view(vis@)[a],
                    ) by {
                        if a < vis0.len() {
                            assert(s.contains(vis0[a]));
                        }
                    }
                    assert forall|k: int| 0 <= k < qv.len() implies s.contains(qv[k]) by {
                        if k < q0.len() {
                            assert(s.contains(q0[k]));
                        } else {
                            assert(qv[k] == kv[k - q0.len()]);
                            assert(spec_children(gv, p@).contains(kv[k - q0.len()]));
                        }
                    }
                }
            }
        } else {
            proof {
                assert(names_view(queue@)[h - 1] == p@);
            }
        }
    }
    proof {
        let rv = names_view(vis@);
        let qv = names_view(queue@);
        assert forall|i: int| 0 <= i < entries@.len() implies rv.contains(
            #[trigger] names_view(entries@)[i],
        ) by {
            assert(qv.take(ev.len() as int)[i] == ev[i]);
            assert(qv[i] == ev[i]);
            assert(rv.contains(qv[i]));
        }
        assert forall|a: int, c: Seq<char>|
            0 <= a < rv.len() && #[trigger] spec_children(gv, rv[a]).contains(c) implies
            rv.contains(c) by {
            if qv.contains(c) {
                let k = choose|k: int| 0 <= k < qv.len() && qv[k] == c;
                assert(rv.contains(qv[k]));
            }
        }
    }
    vis
}

} // verus!
