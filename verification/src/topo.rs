//! Dependency graphs over stage indices: topological orders, acyclicity, and
//! Kahn's first-in-first-out ordering algorithm.
//!
//! A graph is a sequence of prerequisite lists: entry `i` lists the indices of
//! the nodes that node `i` depends on (an index may be listed more than once).

use vstd::prelude::*;

verus! {

/// The plain graph held by a vector of prerequisite vectors.
pub open spec fn graph_of(p: Seq<Vec<usize>>) -> Seq<Seq<usize>> {
    Seq::new(p.len(), |i: int| p[i]@)
}

/// Every prerequisite index names a node of the graph.
pub open spec fn well_indexed(g: Seq<Seq<usize>>) -> bool {
    forall|i: int, k: int| 0 <= i < g.len() && 0 <= k < g[i].len() ==> #[trigger] g[i][k] < g.len()
}

/// Every element of `s` is below `n`.
pub open spec fn all_below(s: Seq<usize>, n: int) -> bool {
    forall|i: int| 0 <= i < s.len() ==> #[trigger] s[i] < n
}

/// Every prerequisite of the node at position `j` of `order` occurs at an earlier position.
pub open spec fn prereqs_before(g: Seq<Seq<usize>>, order: Seq<usize>, j: int) -> bool {
    forall|k: int|
        0 <= k < g[order[j] as int].len() ==> order.subrange(0, j).contains(#[trigger] g[order[j] as int][k])
}

/// Every node of `order` comes after all of its prerequisites.
pub open spec fn respects_prereqs(g: Seq<Seq<usize>>, order: Seq<usize>) -> bool {
    forall|j: int| 0 <= j < order.len() ==> #[trigger] prereqs_before(g, order, j)
}

/// `order` lists each node `0..n` exactly once.
pub open spec fn is_permutation(order: Seq<usize>, n: int) -> bool {
    order.len() == n && order.no_duplicates() && all_below(order, n)
}

/// `order` is a topological order of `g`: a permutation of its nodes in which every
/// node comes after its prerequisites.
pub open spec fn is_topological_order(g: Seq<Seq<usize>>, order: Seq<usize>) -> bool {
    is_permutation(order, g.len() as int) && respects_prereqs(g, order)
}

/// The graph has no dependency cycle: some topological order exists.
pub open spec fn acyclic(g: Seq<Seq<usize>>) -> bool {
    exists|order: Seq<usize>| is_topological_order(g, order)
}

/// Number of entries of `pv` that are not listed in `done`.
pub open spec fn unmet(pv: Seq<usize>, done: Seq<usize>) -> nat
    decreases pv.len(),
{
    if pv.len() == 0 {
        0
    } else {
        unmet(pv.drop_last(), done) + if done.contains(pv.last()) {
            0nat
        } else {
            1nat
        }
    }
}

/// Number of entries of `pv` equal to `u`.
pub open spec fn occurrences(pv: Seq<usize>, u: usize) -> nat
    decreases pv.len(),
{
    if pv.len() == 0 {
        0
    } else {
        occurrences(pv.drop_last(), u) + if pv.last() == u {
            1nat
        } else {
            0nat
        }
    }
}

proof fn lemma_unmet_bounded(pv: Seq<usize>, done: Seq<usize>)
    ensures
        unmet(pv, done) <= pv.len(),
    decreases pv.len(),
{
    if pv.len() > 0 {
        lemma_unmet_bounded(pv.drop_last(), done);
    }
}

proof fn lemma_unmet_empty(pv: Seq<usize>)
    ensures
        unmet(pv, Seq::empty()) == pv.len(),
    decreases pv.len(),
{
    if pv.len() > 0 {
        lemma_unmet_empty(pv.drop_last());
    }
}

/// No unmet entry means every entry is done.
proof fn lemma_unmet_zero(pv: Seq<usize>, done: Seq<usize>)
    ensures
        (unmet(pv, done) == 0) == (forall|k: int| 0 <= k < pv.len() ==> done.contains(#[trigger] pv[k])),
    decreases pv.len(),
{
    if pv.len() > 0 {
        lemma_unmet_zero(pv.drop_last(), done);
        if unmet(pv, done) == 0 {
            assert forall|k: int| 0 <= k < pv.len() implies done.contains(#[trigger] pv[k]) by {
                if k < pv.len() - 1 {
                    assert(pv.drop_last()[k] == pv[k]);
                }
            }
        } else {
            if unmet(pv.drop_last(), done) != 0 {
                let k = choose|k: int|
                    0 <= k < pv.drop_last().len() && !done.contains(#[trigger] pv.drop_last()[k]);
                assert(pv[k] == pv.drop_last()[k]);
            } else {
                assert(!done.contains(pv[pv.len() - 1]));
            }
        }
    } else {
    }
}

/// Marking `u` as done removes exactly its occurrences from the unmet count.
proof fn lemma_unmet_push(pv: Seq<usize>, done: Seq<usize>, u: usize)
    requires
        !done.contains(u),
    ensures
        unmet(pv, done.push(u)) + occurrences(pv, u) == unmet(pv, done),
    decreases pv.len(),
{
    if pv.len() > 0 {
        lemma_unmet_push(pv.drop_last(), done, u);
        let x = pv.last();
        if x == u {
            assert(done.push(u)[done.len() as int] == u);
        } else {
            assert(done.push(u).contains(x) == done.contains(x)) by {
                if done.push(u).contains(x) {
                    let i = choose|i: int| 0 <= i < done.push(u).len() && done.push(u)[i] == x;
                    assert(done[i] == x);
                }
                if done.contains(x) {
                    let i = choose|i: int| 0 <= i < done.len() && done[i] == x;
                    assert(done.push(u)[i] == x);
                }
            }
        }
    }
}

/// A sequence of distinct values below `n` has at most `n` elements, and has exactly `n`
/// elements when, and only when, it lists every value below `n`.
pub proof fn lemma_distinct_bounded(s: Seq<usize>, n: nat)
    requires
        s.no_duplicates(),
        all_below(s, n as int),
        n <= usize::MAX + 1,
    ensures
        s.len() <= n,
        (s.len() == n) == (forall|v: usize| (v as int) < n ==> s.contains(v)),
    decreases n,
{
    if n == 0 {
        if s.len() > 0 {
            assert(s[0] < 0);
        }
    } else {
        let m: usize = (n - 1) as usize;
        if s.contains(m) {
            let k = choose|k: int| 0 <= k < s.len() && s[k] == m;
            let t = s.remove(k);
            s.remove_ensures(k);
            assert(t.no_duplicates()) by {
                assert forall|i: int, j: int| 0 <= i < t.len() && 0 <= j < t.len() && i != j implies t[i] != t[j] by {
                    let si = if i < k { i } else { i + 1 };
                    let sj = if j < k { j } else { j + 1 };
                    assert(t[i] == s[si]);
                    assert(t[j] == s[sj]);
                }
            }
            assert(all_below(t, n - 1)) by {
                assert forall|i: int| 0 <= i < t.len() implies #[trigger] t[i] < n - 1 by {
                    let si = if i < k { i } else { i + 1 };
                    assert(t[i] == s[si]);
                    assert(si != k);
                }
            }
            lemma_distinct_bounded(t, (n - 1) as nat);
            if forall|v: usize| (v as int) < n ==> s.contains(v) {
                assert forall|v: usize| (v as int) < n - 1 implies t.contains(v) by {
                    assert(s.contains(v));
                    let i = choose|i: int| 0 <= i < s.len() && s[i] == v;
                    assert(i != k);
                    if i < k {
                        assert(t[i] == v);
                    } else {
                        assert(t[i - 1] == v);
                    }
                }
            }
            if s.len() == n {
                assert forall|v: usize| (v as int) < n implies s.contains(v) by {
                    if v != m {
                        assert(t.contains(v));
                        let i = choose|i: int| 0 <= i < t.len() && t[i] == v;
                        if i < k {
                            assert(s[i] == v);
                        } else {
                            assert(s[i + 1] == v);
                        }
                    }
                }
            }
        } else {
            assert(all_below(s, n - 1)) by {
                assert forall|i: int| 0 <= i < s.len() implies #[trigger] s[i] < n - 1 by {
                    if s[i] == m {
                        assert(s.contains(m));
                    }
                }
            }
            lemma_distinct_bounded(s, (n - 1) as nat);
        }
    }
}

/// Every topological order lists every node.
proof fn lemma_topo_order_covers(g: Seq<Seq<usize>>, order: Seq<usize>)
    requires
        is_topological_order(g, order),
        g.len() <= usize::MAX,
    ensures
        forall|v: usize| (v as int) < g.len() ==> order.contains(v),
{
    lemma_distinct_bounded(order, g.len());
}

proof fn lemma_prereqs_before_push(g: Seq<Seq<usize>>, q: Seq<usize>, x: usize, j: int)
    requires
        0 <= j < q.len(),
        prereqs_before(g, q, j),
    ensures
        prereqs_before(g, q.push(x), j),
{
    let q2 = q.push(x);
    assert(q2[j] == q[j]);
    assert(q2.subrange(0, j) == q.subrange(0, j));
}

proof fn lemma_prereqs_before_last(g: Seq<Seq<usize>>, q: Seq<usize>, x: usize)
    requires
        0 <= x < g.len(),
        forall|k: int| 0 <= k < g[x as int].len() ==> q.contains(#[trigger] g[x as int][k]),
    ensures
        prereqs_before(g, q.push(x), q.len() as int),
{
    let q2 = q.push(x);
    assert(q2[q.len() as int] == x);
    assert(q2.subrange(0, q.len() as int) == q);
}

proof fn lemma_respects_push(g: Seq<Seq<usize>>, q: Seq<usize>, x: usize)
    requires
        0 <= x < g.len(),
        respects_prereqs(g, q),
        forall|k: int| 0 <= k < g[x as int].len() ==> q.contains(#[trigger] g[x as int][k]),
    ensures
        respects_prereqs(g, q.push(x)),
{
    assert forall|j: int| 0 <= j < q.push(x).len() implies #[trigger] prereqs_before(g, q.push(x), j) by {
        if j < q.len() {
            assert(prereqs_before(g, q, j));
            lemma_prereqs_before_push(g, q, x, j);
        } else {
            lemma_prereqs_before_last(g, q, x);
        }
    }
}

/// Counts the entries of `pv` equal to `u`.
fn count_occurrences(pv: &Vec<usize>, u: usize) -> (c: usize)
    ensures
        c == occurrences(pv@, u),
        c <= pv.len(),
{
    let mut c: usize = 0;
    let mut i: usize = 0;
    while i < pv.len()
        invariant
            i <= pv.len(),
            c == occurrences(pv@.subrange(0, i as int), u),
            c <= i,
        decreases pv.len() - i,
    {
        proof {
            assert(pv@.subrange(0, i + 1).drop_last() == pv@.subrange(0, i as int));
        }
        if pv[i] == u {
            c += 1;
        }
        i += 1;
    }
    proof {
        assert(pv@.subrange(0, pv.len() as int) == pv@);
    }
    c
}

/// Kahn's algorithm with a first-in-first-out queue. Nodes whose prerequisites are all
/// satisfied enter the queue in index order at the start; when a node leaves the queue,
/// the nodes it completes enter the queue in index order.
///
/// The result lists distinct nodes, each after its prerequisites; it lists every node
/// exactly when the graph is acyclic.
pub fn kahn_order(p: &Vec<Vec<usize>>) -> (res: Vec<usize>)
    requires
        well_indexed(graph_of(p@)),
    ensures
        res@.no_duplicates(),
        all_below(res@, p.len() as int),
        respects_prereqs(graph_of(p@), res@),
        (res.len() == p.len()) == acyclic(graph_of(p@)),
        res.len() == p.len() ==> is_topological_order(graph_of(p@), res@),
{
    let ghost g = graph_of(p@);
    let n = p.len();
    let mut indeg: Vec<usize> = Vec::new();
    let mut queue: Vec<usize> = Vec::new();
    let mut v: usize = 0;
    while v < n
        invariant
            n == p.len(),
            g == graph_of(p@),
            v <= n,
            indeg.len() == v,
            forall|w: int| 0 <= w < v ==> indeg@[w] == unmet(g[w], Seq::empty()),
            queue@.no_duplicates(),
            all_below(queue@, v as int),
            forall|w: usize| (w as int) < v ==> (queue@.contains(w) == (indeg@[w as int] == 0)),
            respects_prereqs(g, queue@),
        decreases n - v,
    {
        proof {
            lemma_unmet_empty(g[v as int]);
        }
        let d = p[v].len();
        indeg.push(d);
        if d == 0 {
            proof {
                assert(!queue@.contains(v));
                assert forall|w: usize| (w as int) < v + 1 implies (queue@.push(v).contains(w) == (indeg@[w as int] == 0)) by {
                    if w != v {
                        if queue@.push(v).contains(w) {
                            let i = choose|i: int| 0 <= i < queue@.push(v).len() && queue@.push(v)[i] == w;
                            assert(queue@[i] == w);
                        }
                        if queue@.contains(w) {
                            let i = choose|i: int| 0 <= i < queue@.len() && queue@[i] == w;
                            assert(queue@.push(v)[i] == w);
                        }
                    } else {
                        assert(queue@.push(v)[queue@.len() as int] == v);
                    }
                }
                lemma_respects_push(g, queue@, v);
            }
            queue.push(v);
        } else {
            proof {
                assert forall|w: usize| (w as int) < v + 1 implies (queue@.contains(w) == (indeg@[w as int] == 0)) by {
                    if w == v {
                        if queue@.contains(w) {
                            let i = choose|i: int| 0 <= i < queue@.len() && queue@[i] == w;
                            assert(queue@[i] < v);
                        }
                    }
                }
            }
        }
        v += 1;
    }
    let mut head: usize = 0;
    proof {
        assert(queue@.subrange(0, 0) =~= Seq::<usize>::empty());
    }
    while head < queue.len()
        invariant
            n == p.len(),
            g == graph_of(p@),
            well_indexed(g),
            indeg.len() == n,
            head <= queue.len(),
            queue@.no_duplicates(),
            all_below(queue@, n as int),
            forall|w: int| 0 <= w < n ==> indeg@[w] == unmet(g[w], queue@.subrange(0, head as int)),
            forall|w: usize| (w as int) < n ==> (queue@.contains(w) == (indeg@[w as int] == 0)),
            respects_prereqs(g, queue@),
        decreases n - head,
    {
        proof {
            lemma_distinct_bounded(queue@, n as nat);
        }
        let u = queue[head];
        let ghost done_old = queue@.subrange(0, head as int);
        head += 1;
        let ghost done_new = queue@.subrange(0, head as int);
        proof {
            assert(done_new == done_old.push(u));
            assert(!done_old.contains(u)) by {
                if done_old.contains(u) {
                    let i = choose|i: int| 0 <= i < done_old.len() && done_old[i] == u;
                    assert(queue@[i] == queue@[head - 1]);
                }
            }
        }
        let ghost queue_before = queue@;
        let mut w: usize = 0;
        while w < n
            invariant
                n == p.len(),
                g == graph_of(p@),
                well_indexed(g),
                indeg.len() == n,
                1 <= head <= queue_before.len(),
                queue_before.len() <= queue.len(),
                queue@.subrange(0, queue_before.len() as int) == queue_before,
                done_old == queue_before.subrange(0, head - 1),
                done_new == done_old.push(u),
                done_new == queue@.subrange(0, head as int),
                !done_old.contains(u),
                w <= n,
                queue@.no_duplicates(),
                all_below(queue@, n as int),
                forall|x: int| 0 <= x < w ==> indeg@[x] == unmet(g[x], done_new),
                forall|x: int| w <= x < n ==> indeg@[x] == unmet(g[x], done_old),
                forall|x: usize| (x as int) < n ==> (queue@.contains(x) == (indeg@[x as int] == 0)),
                forall|j: int| queue_before.len() <= j < queue.len() ==> queue@[j] < w,
                respects_prereqs(g, queue@),
            decreases n - w,
        {
            let c = count_occurrences(&p[w], u);
            proof {
                lemma_unmet_push(g[w as int], done_old, u);
            }
            if c > 0 {
                proof {
                    assert(indeg@[w as int] == unmet(g[w as int], done_old));
                }
                let nd = indeg[w] - c;
                indeg.set(w, nd);
                if nd == 0 {
                    proof {
                        lemma_unmet_zero(g[w as int], done_new);
                        assert(!queue@.contains(w)) by {
                            if queue@.contains(w) {
                                let i = choose|i: int| 0 <= i < queue@.len() && queue@[i] == w;
                                if i >= queue_before.len() {
                                    assert(queue@[i] < w);
                                }
                            }
                        }
                        let q = queue@;
                        let q2 = q.push(w);
                        assert(q2.subrange(0, head as int) == done_new);
                        assert forall|k: int| 0 <= k < g[w as int].len() implies q.contains(#[trigger] g[w as int][k]) by {
                            assert(done_new.contains(g[w as int][k]));
                            let j2 = choose|j2: int| 0 <= j2 < done_new.len() && done_new[j2] == g[w as int][k];
                            assert(q[j2] == done_new[j2]);
                        }
                        lemma_respects_push(g, q, w);
                        assert forall|x: usize| (x as int) < n implies (q2.contains(x) == (indeg@[x as int] == 0)) by {
                            if x != w {
                                if q2.contains(x) {
                                    let i = choose|i: int| 0 <= i < q2.len() && q2[i] == x;
                                    assert(q[i] == x);
                                }
                                if q.contains(x) {
                                    let i = choose|i: int| 0 <= i < q.len() && q[i] == x;
                                    assert(q2[i] == x);
                                }
                            } else {
                                assert(q2[q.len() as int] == w);
                            }
                        }
                        assert(q2.no_duplicates());
                        assert(q2.subrange(0, queue_before.len() as int) == queue_before);
                    }
                    queue.push(w);
                } else {
                    proof {
                        assert(!queue@.contains(w) == !(indeg@[w as int] == 0)) by {
                            if queue@.contains(w) {
                                let i = choose|i: int| 0 <= i < queue@.len() && queue@[i] == w;
                                if i >= queue_before.len() {
                                    assert(queue@[i] < w);
                                }
                            }
                        }
                    }
                }
            } else {
                proof {
                    assert(unmet(g[w as int], done_new) == unmet(g[w as int], done_old));
                }
            }
            w += 1;
        }
        proof {
            assert forall|x: int| 0 <= x < n implies indeg@[x] == unmet(g[x], queue@.subrange(0, head as int)) by {}
        }
    }
    proof {
        assert(queue@.subrange(0, head as int) == queue@);
        lemma_distinct_bounded(queue@, n as nat);
        if queue.len() == n {
            assert(is_topological_order(g, queue@));
        } else {
            if acyclic(g) {
                let order = choose|order: Seq<usize>| is_topological_order(g, order);
                lemma_topo_order_covers(g, order);
                lemma_kahn_complete(g, order, queue@, order.len() as int);
                assert forall|v: usize| (v as int) < n implies queue@.contains(v) by {
                    assert(order.contains(v));
                    let j = choose|j: int| 0 <= j < order.len() && order[j] == v;
                }
            }
        }
    }
    queue
}

/// When every node whose prerequisites are all listed is itself listed, a topological
/// order's first `j` nodes are all listed.
proof fn lemma_kahn_complete(g: Seq<Seq<usize>>, order: Seq<usize>, done: Seq<usize>, j: int)
    requires
        is_topological_order(g, order),
        0 <= j <= order.len(),
        forall|w: usize| (w as int) < g.len() ==> (done.contains(w) == (unmet(g[w as int], done) == 0)),
    ensures
        forall|i: int| 0 <= i < j ==> done.contains(#[trigger] order[i]),
    decreases j,
{
    if j > 0 {
        lemma_kahn_complete(g, order, done, j - 1);
        let x = order[j - 1];
        assert(prereqs_before(g, order, j - 1));
        assert forall|k: int| 0 <= k < g[x as int].len() implies done.contains(#[trigger] g[x as int][k]) by {
            let y = g[x as int][k];
            assert(order.subrange(0, j - 1).contains(y));
            let pre = order.subrange(0, j - 1);
            let j2 = choose|j2: int| 0 <= j2 < pre.len() && pre[j2] == y;
            assert(order[j2] == y);
        }
        lemma_unmet_zero(g[x as int], done);
    }
}

} // verus!
