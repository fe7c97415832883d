use vstd::prelude::*;
use vstd::string::*;

use crate::ir::{CallGraph, Callees};
use crate::text::{distinct, holds, str_eq};
use crate::utils::builtin::{is_builtin, is_builtin_name};

verus! {

/// The position of the entry that counts for `caller`, looking from
/// position `from` on.
pub open spec fn find_node(nodes: Seq<Callees>, caller: Seq<char>, from: int) -> Option<int>
    decreases nodes.len() - from,
{
    if from < 0 || from >= nodes.len() {
        None
    } else if nodes[from].caller@ == caller {
        Some(from)
    } else {
        find_node(nodes, caller, from + 1)
    }
}

impl CallGraph {
    /// The direct callees of `f`.
    pub open spec fn callees_of(&self, f: Seq<char>) -> Seq<String> {
        match find_node(self.nodes@, f, 0) {
            Some(i) => self.nodes@[i].callees@,
            None => Seq::empty(),
        }
    }

    /// Whether `a` calls `b` directly.
    pub open spec fn calls(&self, a: Seq<char>, b: Seq<char>) -> bool {
        holds(self.callees_of(a), b)
    }

    /// The direct callees of `f`, or `None` where the graph has no entry for `f`.
    pub fn callees(&self, f: &str) -> (r: Option<&Vec<String>>)
        ensures
            match r {
                Some(v) => v@ == self.callees_of(f@),
                None => self.callees_of(f@) == Seq::<String>::empty(),
            },
    {
        let n = self.nodes.len();
        let mut i: usize = 0;
        while i < n
            invariant
                i <= n,
                n == self.nodes.len(),
                find_node(self.nodes@, f@, 0) == find_node(self.nodes@, f@, i as int),
            decreases n - i,
        {
            if str_eq(self.nodes[i].caller.as_str(), f) {
                return Some(&self.nodes[i].callees);
            }
            i += 1;
        }
        None
    }
}

/// Whether `p` is a chain of calls that starts at a callee of `entry` and
/// goes on only from functions that are no built-ins.
pub open spec fn is_walk(g: &CallGraph, entry: Seq<char>, p: Seq<Seq<char>>) -> bool {
    &&& p.len() >= 1
    &&& g.calls(entry, p[0])
    &&& forall|i: int|
        0 <= i < p.len() - 1 ==> !is_builtin_name(#[trigger] p[i]) && g.calls(p[i], p[i + 1])
}

/// Whether `n` is reached from `entry` by one call or more, without going
/// on from a built-in.
pub open spec fn reachable(g: &CallGraph, entry: Seq<char>, n: Seq<char>) -> bool {
    exists|p: Seq<Seq<char>>| is_walk(g, entry, p) && #[trigger] p.last() == n
}

/// Built-ins are leaves: a function that only built-ins call, and that
/// `entry` does not call itself, is not reached from `entry`.
pub proof fn lemma_builtin_is_leaf(g: &CallGraph, entry: Seq<char>, n: Seq<char>)
    requires
        !g.calls(entry, n),
        forall|a: Seq<char>| g.calls(a, n) ==> is_builtin_name(a),
    ensures
        !reachable(g, entry, n),
{
    if reachable(g, entry, n) {
        let p = choose|p: Seq<Seq<char>>| is_walk(g, entry, p) && #[trigger] p.last() == n;
        if p.len() == 1 {
            assert(p[0] == n);
        } else {
            let i = p.len() - 2;
            assert(!is_builtin_name(p[i]) && g.calls(p[i], p[i + 1]));
        }
    }
}

/// What `entry` calls directly is reached from it.
pub proof fn lemma_reach_first(g: &CallGraph, entry: Seq<char>, c: Seq<char>)
    requires
        g.calls(entry, c),
    ensures
        reachable(g, entry, c),
{
    let p = seq![c];
    assert(is_walk(g, entry, p));
    assert(p.last() == c);
}

/// What a reached function that is no built-in calls is reached too.
pub proof fn lemma_reach_next(g: &CallGraph, entry: Seq<char>, a: Seq<char>, c: Seq<char>)
    requires
        reachable(g, entry, a),
        !is_builtin_name(a),
        g.calls(a, c),
    ensures
        reachable(g, entry, c),
{
    let p = choose|p: Seq<Seq<char>>| is_walk(g, entry, p) && #[trigger] p.last() == a;
    let q = p.push(c);
    assert forall|i: int| 0 <= i < q.len() - 1 implies !is_builtin_name(#[trigger] q[i])
        && g.calls(q[i], q[i + 1]) by {
        if i < p.len() - 1 {
            assert(!is_builtin_name(p[i]) && g.calls(p[i], p[i + 1]));
        }
    }
    assert(is_walk(g, entry, q));
    assert(q.last() == c);
}

/// How many entries of `s` are `false`.
pub open spec fn count_unmarked(s: Seq<bool>) -> nat
    decreases s.len(),
{
    if s.len() == 0 {
        0
    } else {
        count_unmarked(s.drop_last()) + (if s.last() {
            0nat
        } else {
            1nat
        })
    }
}

proof fn lemma_mark_one(s: Seq<bool>, k: int)
    requires
        0 <= k < s.len(),
        !s[k],
    ensures
        count_unmarked(s.update(k, true)) + 1 == count_unmarked(s),
    decreases s.len(),
{
    let t = s.update(k, true);
    if k == s.len() - 1 {
        assert(t.drop_last() =~= s.drop_last());
    } else {
        lemma_mark_one(s.drop_last(), k);
        assert(t.drop_last() =~= s.drop_last().update(k, true));
    }
}

/// Whether position `k` is the first at which its name stands in `all`.
pub open spec fn is_first(all: Seq<String>, k: int) -> bool {
    0 <= k < all.len() && forall|j: int| 0 <= j < k ==> #[trigger] all[j]@ != all[k]@
}

/// Whether `n` is among the names marked in `all`.
pub open spec fn found(all: Seq<String>, mark: Seq<bool>, n: Seq<char>) -> bool {
    exists|k: int| 0 <= k < all.len() && mark[k] && #[trigger] all[k]@ == n
}

/// What holds of the marks and the work list while the graph is walked:
/// each marked name is marked at its first position and is reached from
/// `entry`; the work list holds marked names that are no built-ins; and
/// what a marked name calls is marked too, unless the name is a built-in,
/// still on the work list, or the one at `skip`, which is being expanded.
pub open spec fn walk_inv(
    g: &CallGraph,
    entry: Seq<char>,
    all: Seq<String>,
    mark: Seq<bool>,
    work: Seq<usize>,
    skip: int,
) -> bool {
    &&& mark.len() == all.len()
    &&& forall|a: Seq<char>, c: Seq<char>| #[trigger] g.calls(a, c) ==> holds(all, c)
    &&& forall|k: int|
        0 <= k < all.len() && #[trigger] mark[k] ==> is_first(all, k) && reachable(
            g,
            entry,
            all[k]@,
        )
    &&& forall|w: int|
        0 <= w < work.len() ==> (#[trigger] work[w]) < all.len() && mark[work[w] as int]
            && !is_builtin_name(all[work[w] as int]@)
    &&& forall|k: int, c: Seq<char>|
        0 <= k < all.len() && #[trigger] mark[k] && !is_builtin_name(all[k]@) && !work.contains(
            k as usize,
        ) && k != skip && #[trigger] g.calls(all[k]@, c) ==> found(all, mark, c)
}

/// Every name that some function of the graph calls.
fn all_callee_names(g: &CallGraph) -> (r: Vec<String>)
    ensures
        forall|a: Seq<char>, c: Seq<char>| #[trigger] g.calls(a, c) ==> holds(r@, c),
{
    let mut out: Vec<String> = Vec::new();
    let n = g.nodes.len();
    let mut i: usize = 0;
    while i < n
        invariant
            i <= n,
            n == g.nodes.len(),
            forall|x: int, y: int|
                0 <= x < i && 0 <= y < g.nodes@[x].callees@.len() ==> holds(
                    out@,
                    #[trigger] g.nodes@[x].callees@[y]@,
                ),
        decreases n - i,
    {
        let cs = &g.nodes[i].callees;
        let m = cs.len();
        let mut j: usize = 0;
        while j < m
            invariant
                j <= m,
                m == cs.len(),
                i < n,
                n == g.nodes.len(),
                cs == &g.nodes@[i as int].callees,
                forall|x: int, y: int|
                    0 <= x < i && 0 <= y < g.nodes@[x].callees@.len() ==> holds(
                        out@,
                        #[trigger] g.nodes@[x].callees@[y]@,
                    ),
                forall|y: int| 0 <= y < j ==> holds(out@, #[trigger] cs@[y]@),
            decreases m - j,
        {
            let ghost before = out@;
            out.push(cs[j].clone());
            proof {
                let after = out@;
                assert(after[before.len() as int]@ == cs@[j as int]@);
                assert forall|name: Seq<char>| holds(before, name) implies holds(after, name) by {
                    let k = choose|k: int| 0 <= k < before.len() && #[trigger] before[k]@ == name;
                    assert(after[k]@ == name);
                }
            }
            j += 1;
        }
        i += 1;
    }
    proof {
        assert forall|a: Seq<char>, c: Seq<char>| #[trigger] g.calls(a, c) implies holds(
            out@,
            c,
        ) by {
            let x = find_node(g.nodes@, a, 0);
            lemma_find_node_range(g.nodes@, a, 0);
            let cs = g.callees_of(a);
            let y = choose|y: int| 0 <= y < cs.len() && #[trigger] cs[y]@ == c;
            assert(holds(out@, g.nodes@[x->0].callees@[y]@));
        }
    }
    out
}

proof fn lemma_find_node_range(nodes: Seq<Callees>, caller: Seq<char>, from: int)
    requires
        0 <= from,
    ensures
        find_node(nodes, caller, from) matches Some(i) ==> from <= i < nodes.len(),
    decreases nodes.len() - from,
{
    if from < nodes.len() && nodes[from].caller@ != caller {
        lemma_find_node_range(nodes, caller, from + 1);
    }
}

/// The first position of `name` in `all`, if it has one.
fn first_pos(all: &Vec<String>, name: &str) -> (r: Option<usize>)
    ensures
        match r {
            Some(k) => is_first(all@, k as int) && all@[k as int]@ == name@,
            None => !holds(all@, name@),
        },
{
    let n = all.len();
    let mut i: usize = 0;
    while i < n
        invariant
            i <= n,
            n == all.len(),
            forall|j: int| 0 <= j < i ==> #[trigger] all@[j]@ != name@,
        decreases n - i,
    {
        if str_eq(all[i].as_str(), name) {
            return Some(i);
        }
        i += 1;
    }
    None
}

/// Marks what `name` calls, and puts on the work list what was not marked
/// before and is no built-in.
fn expand(
    g: &CallGraph,
    all: &Vec<String>,
    name: &str,
    mark: &mut Vec<bool>,
    work: &mut Vec<usize>,
    Ghost(entry): Ghost<Seq<char>>,
    Ghost(skip): Ghost<int>,
)
    requires
        walk_inv(g, entry, all@, old(mark)@, old(work)@, skip),
        name@ == entry || (reachable(g, entry, name@) && !is_builtin_name(name@)),
    ensures
        walk_inv(g, entry, all@, final(mark)@, final(work)@, skip),
        forall|c: Seq<char>| #[trigger] g.calls(name@, c) ==> found(all@, final(mark)@, c),
        forall|k: int| 0 <= k < all@.len() && old(mark)@[k] ==> #[trigger] final(mark)@[k],
        final(work)@.len() >= old(work)@.len(),
        count_unmarked(final(mark)@) + (final(work)@.len() - old(work)@.len()) <= count_unmarked(
            old(mark)@,
        ),
{
    let cs = match g.callees(name) {
        Some(cs) => cs,
        None => {
            assert forall|c: Seq<char>| #[trigger] g.calls(name@, c) implies found(
                all@,
                mark@,
                c,
            ) by {
                assert(g.callees_of(name@).len() == 0);
            }
            return ;
        },
    };
    let m = cs.len();
    let mut j: usize = 0;
    while j < m
        invariant
            j <= m,
            m == cs.len(),
            cs@ == g.callees_of(name@),
            name@ == entry || (reachable(g, entry, name@) && !is_builtin_name(name@)),
            walk_inv(g, entry, all@, mark@, work@, skip),
            forall|y: int| 0 <= y < j ==> found(all@, mark@, #[trigger] cs@[y]@),
            forall|k: int| 0 <= k < all@.len() && old(mark)@[k] ==> #[trigger] mark@[k],
            work@.len() >= old(work)@.len(),
            count_unmarked(mark@) + (work@.len() - old(work)@.len()) <= count_unmarked(
                old(mark)@,
            ),
        decreases m - j,
    {
        let c = cs[j].as_str();
        proof {
            assert(cs@[j as int]@ == c@);
            assert(g.calls(name@, c@));
            if name@ == entry {
                lemma_reach_first(g, entry, c@);
            } else {
                lemma_reach_next(g, entry, name@, c@);
            }
        }
        match first_pos(all, c) {
            None => {
                assert(false);
            },
            Some(k) => {
                if !mark[k] {
                    let ghost m0 = mark@;
                    let ghost w0 = work@;
                    mark.set(k, true);
                    let fresh = !is_builtin(c);
                    if fresh {
                        work.push(k);
                    }
                    proof {
                        lemma_mark_one(m0, k as int);
                        let m1 = mark@;
                        let w1 = work@;
                        assert forall|n: Seq<char>| found(all@, m0, n) implies found(
                            all@,
                            m1,
                            n,
                        ) by {
                            let x = choose|x: int|
                                0 <= x < all@.len() && m0[x] && #[trigger] all@[x]@ == n;
                            assert(m1[x] && all@[x]@ == n);
                        }
                        assert forall|w: int| 0 <= w < w1.len() implies (#[trigger] w1[w])
                            < all@.len() && m1[w1[w] as int] && !is_builtin_name(
                            all@[w1[w] as int]@,
                        ) by {
                            if w < w0.len() {
                                assert(w1[w] == w0[w]);
                            }
                        }
                        assert forall|x: int, d: Seq<char>|
                            0 <= x < all@.len() && #[trigger] m1[x] && !is_builtin_name(all@[x]@)
                                && !w1.contains(x as usize) && x != skip && #[trigger] g.calls(
                                all@[x]@,
                                d,
                            ) implies found(all@, m1, d) by {
                            if x == k {
                                assert(fresh);
                                assert(w1[w0.len() as int] == k);
                                assert(w1.contains(k));
                            } else {
                                assert(m0[x]);
                                if w0.contains(x as usize) {
                                    let i = choose|i: int| 0 <= i < w0.len() && w0[i] == x as usize;
                                    assert(w1[i] == x as usize);
                                }
                                assert(found(all@, m0, d));
                            }
                        }
                        assert forall|y: int| 0 <= y < j implies found(
                            all@,
                            m1,
                            #[trigger] cs@[y]@,
                        ) by {
                            assert(found(all@, m0, cs@[y]@));
                        }
                    }
                }
                assert(mark@[k as int] && all@[k as int]@ == c@);
                assert(found(all@, mark@, cs@[j as int]@));
            },
        }
        j += 1;
    }
    proof {
        assert forall|c: Seq<char>| #[trigger] g.calls(name@, c) implies found(all@, mark@, c) by {
            let y = choose|y: int| 0 <= y < cs@.len() && #[trigger] cs@[y]@ == c;
            assert(found(all@, mark@, cs@[y]@));
        }
    }
}

proof fn lemma_walk_found(
    g: &CallGraph,
    entry: Seq<char>,
    all: Seq<String>,
    mark: Seq<bool>,
    p: Seq<Seq<char>>,
    i: int,
)
    requires
        walk_inv(g, entry, all, mark, Seq::empty(), -1),
        forall|c: Seq<char>| #[trigger] g.calls(entry, c) ==> found(all, mark, c),
        is_walk(g, entry, p),
        0 <= i < p.len(),
    ensures
        found(all, mark, p[i]),
    decreases i,
{
    if i > 0 {
        lemma_walk_found(g, entry, all, mark, p, i - 1);
        let k = choose|k: int| 0 <= k < all.len() && mark[k] && #[trigger] all[k]@ == p[i - 1];
        assert(!is_builtin_name(p[i - 1]) && g.calls(p[i - 1], p[i - 1 + 1]));
        assert(!Seq::<usize>::empty().contains(k as usize));
        assert(mark[k] && g.calls(all[k]@, p[i]));
    }
}

/// The functions that are reached from `entry` by one call or more, where
/// no call goes on from a built-in: each once, in no particular order.
#[verifier::rlimit(40)]
pub fn get_all_callees(call_graph: &CallGraph, entry: &str) -> (r: Vec<String>)
    ensures
        distinct(r@),
        forall|n: Seq<char>| holds(r@, n) <==> reachable(call_graph, entry@, n),
{
    let all = all_callee_names(call_graph);
    let mut mark: Vec<bool> = Vec::new();
    let mut i: usize = 0;
    while i < all.len()
        invariant
            i <= all.len(),
            mark.len() == i,
            forall|k: int| 0 <= k < i ==> !mark@[k],
        decreases all.len() - i,
    {
        mark.push(false);
        i += 1;
    }
    let mut work: Vec<usize> = Vec::new();
    assert(walk_inv(call_graph, entry@, all@, mark@, work@, -1));
    expand(call_graph, &all, entry, &mut mark, &mut work, Ghost(entry@), Ghost(-1));
    while work.len() > 0
        invariant
            walk_inv(call_graph, entry@, all@, mark@, work@, -1),
            forall|c: Seq<char>| #[trigger]
                call_graph.calls(entry@, c) ==> found(all@, mark@, c),
        decreases count_unmarked(mark@), work.len(),
    {
        let ghost m0 = mark@;
        let ghost w0 = work@;
        let k = work.pop().unwrap();
        proof {
            let w1 = work@;
            assert(w0[w0.len() - 1] == k);
            assert forall|x: int, d: Seq<char>|
                0 <= x < all@.len() && #[trigger] m0[x] && !is_builtin_name(all@[x]@)
                    && !w1.contains(x as usize) && x != k as int && #[trigger] call_graph.calls(
                    all@[x]@,
                    d,
                ) implies found(all@, m0, d) by {
                if w0.contains(x as usize) {
                    let i = choose|i: int| 0 <= i < w0.len() && w0[i] == x as usize;
                    assert(w1[i] == x as usize);
                }
            }
            assert forall|w: int| 0 <= w < w1.len() implies (#[trigger] w1[w]) < all@.len()
                && m0[w1[w] as int] && !is_builtin_name(all@[w1[w] as int]@) by {
                assert(w1[w] == w0[w]);
            }
            assert(walk_inv(call_graph, entry@, all@, mark@, work@, k as int));
        }
        expand(
            call_graph,
            &all,
            all[k].as_str(),
            &mut mark,
            &mut work,
            Ghost(entry@),
            Ghost(k as int),
        );
        proof {
            let m2 = mark@;
            let w2 = work@;
            assert forall|c: Seq<char>| #[trigger] call_graph.calls(entry@, c) implies found(
                all@,
                m2,
                c,
            ) by {
                let x = choose|x: int| 0 <= x < all@.len() && m0[x] && #[trigger] all@[x]@ == c;
                assert(m2[x] && all@[x]@ == c);
            }
            assert(walk_inv(call_graph, entry@, all@, m2, w2, -1));
        }
    }
    let mut out: Vec<String> = Vec::new();
    let ghost src: Seq<int> = Seq::empty();
    let mut k: usize = 0;
    while k < all.len()
        invariant
            k <= all.len(),
            mark.len() == all.len(),
            src.len() == out.len(),
            forall|x: int| 0 <= x < k && mark@[x] ==> holds(out@, #[trigger] all@[x]@),
            forall|y: int|
                0 <= y < out.len() ==> 0 <= (#[trigger] src[y]) < k && mark@[src[y]] && all@[src[y]]@
                    == out@[y]@,
            forall|y: int, z: int| 0 <= y < z < out.len() ==> #[trigger] src[y] < #[trigger] src[z],
        decreases all.len() - k,
    {
        if mark[k] {
            let ghost before = out@;
            out.push(all[k].clone());
            proof {
                src = src.push(k as int);
                let after = out@;
                assert(after[before.len() as int]@ == all@[k as int]@);
                assert forall|x: int| 0 <= x < k + 1 && mark@[x] implies holds(
                    after,
                    #[trigger] all@[x]@,
                ) by {
                    if x < k {
                        let y = choose|y: int|
                            0 <= y < before.len() && #[trigger] before[y]@ == all@[x]@;
                        assert(after[y]@ == all@[x]@);
                    }
                }
            }
        }
        k += 1;
    }
    proof {
        assert(walk_inv(call_graph, entry@, all@, mark@, Seq::empty(), -1)) by {
            assert(work@ =~= Seq::empty());
        }
        assert forall|y: int, z: int| 0 <= y < z < out@.len() implies #[trigger] out@[y]@
            != #[trigger] out@[z]@ by {
            assert(src[y] < src[z]);
            assert(is_first(all@, src[z]));
        }
        assert forall|n: Seq<char>| holds(out@, n) <==> reachable(call_graph, entry@, n) by {
            if holds(out@, n) {
                let y = choose|y: int| 0 <= y < out@.len() && #[trigger] out@[y]@ == n;
                assert(mark@[src[y]]);
            }
            if reachable(call_graph, entry@, n) {
                let p = choose|p: Seq<Seq<char>>|
                    is_walk(call_graph, entry@, p) && #[trigger] p.last() == n;
                lemma_walk_found(call_graph, entry@, all@, mark@, p, p.len() - 1);
                let x = choose|x: int| 0 <= x < all@.len() && mark@[x] && #[trigger] all@[x]@ == n;
                assert(holds(out@, all@[x]@));
            }
        }
    }
    out
}

} // verus!
