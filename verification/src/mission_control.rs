//! The mission-control header: the verification ledger totals of every agent and
//! subagent, the status chips and the title line.
//!
//! Drawing the header is the caller's part; this module decides its content.

use vstd::prelude::*;
use crate::text::{concat2, concat3, decimal, join_sep, join_with, owned, u64_to_decimal, views};
use crate::tvl::{agreement_name, run_status_name, TvlPublicSnapshot};

verus! {

// ---------------------------------------------------------------------------
// Ledger totals.
// ---------------------------------------------------------------------------

/// Verification ledger totals: tool calls, their outcomes, and a count per tool
/// kind (each kind listed once, by its number).
#[derive(Debug, Clone, PartialEq, Eq)]
pub struct LedgerSnapshot {
    pub tool_calls: u64,
    pub verified: u64,
    pub failed: u64,
    pub pending: u64,
    pub kind_counts: Vec<(u64, u64)>,
}

/// The count recorded for `kind`: the sum over the entries of that kind.
pub open spec fn count_of(v: Seq<(u64, u64)>, kind: u64) -> int
    decreases v.len(),
{
    if v.len() == 0 {
        0
    } else {
        count_of(v.drop_last(), kind) + if v.last().0 == kind {
            v.last().1 as int
        } else {
            0
        }
    }
}

/// Each kind is listed at most once.
pub open spec fn kinds_distinct(v: Seq<(u64, u64)>) -> bool {
    forall|i: int, j: int| 0 <= i < j < v.len() ==> v[i].0 != v[j].0
}

pub open spec fn has_kind(v: Seq<(u64, u64)>, kind: u64) -> bool {
    exists|i: int| 0 <= i < v.len() && v[i].0 == kind
}

impl LedgerSnapshot {
    pub open spec fn wf(self) -> bool {
        kinds_distinct(self.kind_counts@)
    }

    /// Empty totals.
    pub fn new() -> (s: LedgerSnapshot)
        ensures
            s.tool_calls == 0 && s.verified == 0 && s.failed == 0 && s.pending == 0,
            s.kind_counts@.len() == 0,
            s.wf(),
    {
        LedgerSnapshot { tool_calls: 0, verified: 0, failed: 0, pending: 0, kind_counts: Vec::new() }
    }
}

/// Adding `addition` to `total` keeps every total within `u64`.
pub open spec fn sum_fits(total: LedgerSnapshot, addition: LedgerSnapshot) -> bool {
    &&& total.tool_calls + addition.tool_calls <= u64::MAX
    &&& total.verified + addition.verified <= u64::MAX
    &&& total.failed + addition.failed <= u64::MAX
    &&& total.pending + addition.pending <= u64::MAX
    &&& forall|k: u64| count_of(total.kind_counts@, k) + count_of(addition.kind_counts@, k) <= u64::MAX
}

proof fn lemma_count_absent(v: Seq<(u64, u64)>, kind: u64)
    requires
        !has_kind(v, kind),
    ensures
        count_of(v, kind) == 0,
    decreases v.len(),
{
    if v.len() > 0 {
        assert(!has_kind(v.drop_last(), kind)) by {
            if has_kind(v.drop_last(), kind) {
                let i = choose|i: int| 0 <= i < v.drop_last().len() && v.drop_last()[i].0 == kind;
                assert(v[i].0 == kind);
            }
        }
        lemma_count_absent(v.drop_last(), kind);
        assert(v[v.len() - 1].0 != kind);
    }
}

proof fn lemma_count_at(v: Seq<(u64, u64)>, i: int)
    requires
        kinds_distinct(v),
        0 <= i < v.len(),
    ensures
        count_of(v, v[i].0) == v[i].1,
    decreases v.len(),
{
    if i == v.len() - 1 {
        assert(!has_kind(v.drop_last(), v[i].0)) by {
            if has_kind(v.drop_last(), v[i].0) {
                let j = choose|j: int| 0 <= j < v.drop_last().len() && v.drop_last()[j].0 == v[i].0;
                assert(v[j].0 == v[i].0);
            }
        }
        lemma_count_absent(v.drop_last(), v[i].0);
    } else {
        lemma_count_at(v.drop_last(), i);
        assert(v.last().0 != v[i].0);
    }
}

proof fn lemma_count_update(v: Seq<(u64, u64)>, i: int, c: u64, kind: u64)
    requires
        0 <= i < v.len(),
    ensures
        count_of(v.update(i, (v[i].0, c)), kind) == count_of(v, kind) + if v[i].0 == kind {
            c - v[i].1
        } else {
            0
        },
    decreases v.len(),
{
    let w = v.update(i, (v[i].0, c));
    if i == v.len() - 1 {
        assert(w.drop_last() =~= v.drop_last());
    } else {
        assert(w.drop_last() =~= v.drop_last().update(i, (v[i].0, c)));
        lemma_count_update(v.drop_last(), i, c, kind);
    }
}

/// Adds `addition` into `total`: every scalar total and every per-kind count is
/// the sum of the two, and each kind stays listed once.
pub fn add_snapshot(total: &mut LedgerSnapshot, addition: &LedgerSnapshot)
    requires
        old(total).wf(),
        addition.wf(),
        sum_fits(*old(total), *addition),
    ensures
        final(total).wf(),
        final(total).tool_calls == old(total).tool_calls + addition.tool_calls,
        final(total).verified == old(total).verified + addition.verified,
        final(total).failed == old(total).failed + addition.failed,
        final(total).pending == old(total).pending + addition.pending,
        forall|k: u64| #[trigger] count_of(final(total).kind_counts@, k) == count_of(old(total).kind_counts@, k)
            + count_of(addition.kind_counts@, k),
        forall|k: u64| has_kind(final(total).kind_counts@, k) <==> (has_kind(old(total).kind_counts@, k)
            || has_kind(addition.kind_counts@, k)),
{
    total.tool_calls = total.tool_calls + addition.tool_calls;
    total.verified = total.verified + addition.verified;
    total.failed = total.failed + addition.failed;
    total.pending = total.pending + addition.pending;
    let ghost start = total.kind_counts@;
    let ghost add = addition.kind_counts@;
    let ghost scalars = (total.tool_calls, total.verified, total.failed, total.pending);
    let mut j: usize = 0;
    while j < addition.kind_counts.len()
        invariant
            add == addition.kind_counts@,
            scalars == (total.tool_calls, total.verified, total.failed, total.pending),
            kinds_distinct(add),
            kinds_distinct(start),
            kinds_distinct(total.kind_counts@),
            j <= add.len(),
            forall|k: u64| count_of(start, k) + count_of(add, k) <= u64::MAX,
            forall|k: u64| #[trigger] count_of(total.kind_counts@, k) == count_of(start, k) + count_of(
                add.subrange(0, j as int),
                k,
            ),
            forall|k: u64| has_kind(total.kind_counts@, k) <==> (has_kind(start, k) || has_kind(
                add.subrange(0, j as int),
                k,
            )),
        decreases add.len() - j,
    {
        let (kind, count) = addition.kind_counts[j];
        let ghost cur = total.kind_counts@;
        let ghost pre1 = add.subrange(0, j + 1);
        let ghost pre0 = add.subrange(0, j as int);
        proof {
            assert(add.subrange(0, j + 1).drop_last() =~= add.subrange(0, j as int));
            assert(!has_kind(add.subrange(0, j as int), kind)) by {
                if has_kind(add.subrange(0, j as int), kind) {
                    let i = choose|i: int| 0 <= i < j && add.subrange(0, j as int)[i].0 == kind;
                    assert(add[i].0 == add[j as int].0);
                }
            }
            lemma_count_absent(add.subrange(0, j as int), kind);
            lemma_count_at(add, j as int);
            assert(pre1.drop_last() =~= pre0);
            assert(pre1.last() == (kind, count));
            assert forall|k: u64| #[trigger] count_of(pre1, k) == count_of(pre0, k) + if k == kind {
                count as int
            } else {
                0
            } by {}
            assert forall|k: u64| has_kind(pre1, k) <==> (has_kind(pre0, k) || k == kind) by {
                if has_kind(pre1, k) && k != kind {
                    let i = choose|i: int| 0 <= i < pre1.len() && pre1[i].0 == k;
                    assert(pre0[i].0 == k);
                }
                if k == kind {
                    assert(pre1[j as int].0 == k);
                }
                if has_kind(pre0, k) {
                    let i = choose|i: int| 0 <= i < pre0.len() && pre0[i].0 == k;
                    assert(pre1[i].0 == k);
                }
            }
        }
        let mut p: usize = 0;
        while p < total.kind_counts.len() && total.kind_counts[p].0 != kind
            invariant
                total.kind_counts@ == cur,
                p <= cur.len(),
                forall|q: int| 0 <= q < p ==> cur[q].0 != kind,
            decreases cur.len() - p,
        {
            p += 1;
        }
        if p < total.kind_counts.len() {
            proof {
                lemma_count_at(cur, p as int);
                lemma_count_absent(add.subrange(0, j as int), kind);
                assert(count_of(cur, kind) == count_of(start, kind));
                lemma_count_at(add, j as int);
            }
            let old_count = total.kind_counts[p].1;
            let updated = old_count + count;
            total.kind_counts.set(p, (kind, updated));
            proof {
                assert(cur[p as int].0 == kind);
                assert forall|k: u64| #[trigger] count_of(total.kind_counts@, k) == count_of(start, k)
                    + count_of(add.subrange(0, j + 1), k) by {
                    lemma_count_update(cur, p as int, updated, k);
                }
                assert forall|k: u64| has_kind(total.kind_counts@, k) <==> has_kind(cur, k) by {
                    if has_kind(cur, k) {
                        let i = choose|i: int| 0 <= i < cur.len() && cur[i].0 == k;
                        assert(total.kind_counts@[i].0 == k);
                    }
                    if has_kind(total.kind_counts@, k) {
                        let i = choose|i: int| 0 <= i < total.kind_counts@.len() && total.kind_counts@[i].0 == k;
                        assert(cur[i].0 == k);
                    }
                }
                assert(has_kind(cur, kind));
            }
        } else {
            proof {
                assert(!has_kind(cur, kind));
                lemma_count_absent(cur, kind);
            }
            total.kind_counts.push((kind, count));
            proof {
                assert(total.kind_counts@.drop_last() =~= cur);
                assert(total.kind_counts@.last() == (kind, count));
                assert forall|k: u64| #[trigger] count_of(total.kind_counts@, k) == count_of(start, k)
                    + count_of(pre1, k) by {
                    assert(count_of(total.kind_counts@, k) == count_of(cur, k) + if k == kind {
                        count as int
                    } else {
                        0
                    });
                }
                assert forall|k: u64| has_kind(total.kind_counts@, k) <==> (has_kind(cur, k) || k == kind) by {
                    if has_kind(total.kind_counts@, k) && k != kind {
                        let i = choose|i: int| 0 <= i < total.kind_counts@.len() && total.kind_counts@[i].0 == k;
                        assert(cur[i].0 == k);
                    }
                    if has_kind(cur, k) {
                        let i = choose|i: int| 0 <= i < cur.len() && cur[i].0 == k;
                        assert(total.kind_counts@[i].0 == k);
                    }
                    if k == kind {
                        assert(total.kind_counts@[cur.len() as int].0 == k);
                    }
                }
            }
        }
        proof {
            assert forall|k: u64| has_kind(total.kind_counts@, k) <==> (has_kind(start, k) || has_kind(pre1, k)) by {
                assert(has_kind(cur, k) <==> (has_kind(start, k) || has_kind(pre0, k)));
                assert(has_kind(pre1, k) <==> (has_kind(pre0, k) || k == kind));
            }
        }
        j += 1;
    }
    proof {
        assert(add.subrange(0, add.len() as int) =~= add);
    }
}

// ---------------------------------------------------------------------------
// Totals over agents and their subagents.
// ---------------------------------------------------------------------------

/// One agent's ledger with the ledgers of its subagents.
pub struct AgentLedger {
    pub snapshot: LedgerSnapshot,
    pub subagents: Vec<AgentLedger>,
}

/// The sum of `f` over an agent's ledger and those of all its subagents.
pub open spec fn tree_sum(a: AgentLedger, f: spec_fn(LedgerSnapshot) -> int) -> int
    decreases a, 1int,
{
    f(a.snapshot) + forest_sum(a.subagents@, f)
}

/// The sum of `f` over several agents and all their subagents.
pub open spec fn forest_sum(s: Seq<AgentLedger>, f: spec_fn(LedgerSnapshot) -> int) -> int
    decreases s, 0int,
{
    if s.len() == 0 {
        0
    } else {
        forest_sum(s.subrange(0, s.len() - 1), f) + tree_sum(s[s.len() - 1], f)
    }
}

/// Every ledger of the agent and its subagents lists each kind once.
pub open spec fn tree_wf(a: AgentLedger) -> bool
    decreases a, 1int,
{
    a.snapshot.wf() && forest_wf(a.subagents@)
}

pub open spec fn forest_wf(s: Seq<AgentLedger>) -> bool
    decreases s, 0int,
{
    if s.len() == 0 {
        true
    } else {
        forest_wf(s.subrange(0, s.len() - 1)) && tree_wf(s[s.len() - 1])
    }
}

pub open spec fn calls_of() -> spec_fn(LedgerSnapshot) -> int {
    |s: LedgerSnapshot| s.tool_calls as int
}

pub open spec fn verified_of() -> spec_fn(LedgerSnapshot) -> int {
    |s: LedgerSnapshot| s.verified as int
}

pub open spec fn failed_of() -> spec_fn(LedgerSnapshot) -> int {
    |s: LedgerSnapshot| s.failed as int
}

pub open spec fn pending_of() -> spec_fn(LedgerSnapshot) -> int {
    |s: LedgerSnapshot| s.pending as int
}

pub open spec fn kind_of(k: u64) -> spec_fn(LedgerSnapshot) -> int {
    |s: LedgerSnapshot| count_of(s.kind_counts@, k)
}

/// `total` plus `extra` of each measure stays within `u64`.
pub open spec fn totals_fit(
    total: LedgerSnapshot,
    extra: spec_fn(spec_fn(LedgerSnapshot) -> int) -> int,
) -> bool {
    &&& total.tool_calls + extra(calls_of()) <= u64::MAX
    &&& total.verified + extra(verified_of()) <= u64::MAX
    &&& total.failed + extra(failed_of()) <= u64::MAX
    &&& total.pending + extra(pending_of()) <= u64::MAX
    &&& forall|k: u64| count_of(total.kind_counts@, k) + #[trigger] extra(kind_of(k)) <= u64::MAX
}

/// `after` is `before` plus `extra` of each measure.
pub open spec fn totals_added(
    before: LedgerSnapshot,
    after: LedgerSnapshot,
    extra: spec_fn(spec_fn(LedgerSnapshot) -> int) -> int,
) -> bool {
    &&& after.wf()
    &&& after.tool_calls == before.tool_calls + extra(calls_of())
    &&& after.verified == before.verified + extra(verified_of())
    &&& after.failed == before.failed + extra(failed_of())
    &&& after.pending == before.pending + extra(pending_of())
    &&& forall|k: u64| #[trigger] count_of(after.kind_counts@, k) == count_of(before.kind_counts@, k)
        + extra(kind_of(k))
}

proof fn lemma_count_nonneg(v: Seq<(u64, u64)>, k: u64)
    ensures
        count_of(v, k) >= 0,
    decreases v.len(),
{
    if v.len() > 0 {
        lemma_count_nonneg(v.drop_last(), k);
    }
}

proof fn lemma_tree_nonneg(a: AgentLedger, f: spec_fn(LedgerSnapshot) -> int)
    requires
        forall|x: LedgerSnapshot| #[trigger] f(x) >= 0,
    ensures
        tree_sum(a, f) >= 0,
    decreases a, 1int,
{
    lemma_forest_nonneg(a.subagents@, f);
}

proof fn lemma_forest_nonneg(s: Seq<AgentLedger>, f: spec_fn(LedgerSnapshot) -> int)
    requires
        forall|x: LedgerSnapshot| #[trigger] f(x) >= 0,
    ensures
        forest_sum(s, f) >= 0,
    decreases s, 0int,
{
    if s.len() > 0 {
        lemma_forest_nonneg(s.subrange(0, s.len() - 1), f);
        lemma_tree_nonneg(s[s.len() - 1], f);
    }
}

proof fn lemma_measures_nonneg()
    ensures
        forall|x: LedgerSnapshot| #[trigger] calls_of()(x) >= 0,
        forall|x: LedgerSnapshot| #[trigger] verified_of()(x) >= 0,
        forall|x: LedgerSnapshot| #[trigger] failed_of()(x) >= 0,
        forall|x: LedgerSnapshot| #[trigger] pending_of()(x) >= 0,
        forall|x: LedgerSnapshot, k: u64| #[trigger] kind_of(k)(x) >= 0,
{
    assert forall|x: LedgerSnapshot, k: u64| #[trigger] kind_of(k)(x) >= 0 by {
        lemma_count_nonneg(x.kind_counts@, k);
    }
}

/// Adds an agent's ledger and those of all its subagents into `snapshot`.
pub fn add_agent_snapshot(agent: &AgentLedger, snapshot: &mut LedgerSnapshot)
    requires
        old(snapshot).wf(),
        tree_wf(*agent),
        totals_fit(*old(snapshot), |f: spec_fn(LedgerSnapshot) -> int| tree_sum(*agent, f)),
    ensures
        totals_added(*old(snapshot), *final(snapshot), |f: spec_fn(LedgerSnapshot) -> int| tree_sum(*agent, f)),
    decreases *agent, 1int,
{
    proof {
        lemma_measures_nonneg();
        let s0 = *snapshot;
        lemma_forest_nonneg(agent.subagents@, calls_of());
        lemma_forest_nonneg(agent.subagents@, verified_of());
        lemma_forest_nonneg(agent.subagents@, failed_of());
        lemma_forest_nonneg(agent.subagents@, pending_of());
        assert forall|k: u64| count_of(s0.kind_counts@, k) + count_of(agent.snapshot.kind_counts@, k) <= u64::MAX by {
            lemma_forest_nonneg(agent.subagents@, kind_of(k));
            assert(tree_sum(*agent, kind_of(k)) == kind_of(k)(agent.snapshot) + forest_sum(agent.subagents@, kind_of(k)));
            let e = |f: spec_fn(LedgerSnapshot) -> int| tree_sum(*agent, f);
            assert(count_of(s0.kind_counts@, k) + e(kind_of(k)) <= u64::MAX);
        }
    }
    let ghost before = *snapshot;
    add_snapshot(snapshot, &agent.snapshot);
    let ghost mid = *snapshot;
    proof {
        assert forall|k: u64| count_of(mid.kind_counts@, k) + #[trigger] forest_sum(agent.subagents@, kind_of(k)) <= u64::MAX by {
            assert(tree_sum(*agent, kind_of(k)) == kind_of(k)(agent.snapshot) + forest_sum(agent.subagents@, kind_of(k)));
            let e = |f: spec_fn(LedgerSnapshot) -> int| tree_sum(*agent, f);
            assert(count_of(before.kind_counts@, k) + e(kind_of(k)) <= u64::MAX);
        }
    }
    add_forest_snapshot(&agent.subagents, snapshot);
    proof {
        let e = |f: spec_fn(LedgerSnapshot) -> int| tree_sum(*agent, f);
        assert forall|k: u64| #[trigger] count_of(snapshot.kind_counts@, k) == count_of(before.kind_counts@, k)
            + e(kind_of(k)) by {
            assert(tree_sum(*agent, kind_of(k)) == kind_of(k)(agent.snapshot) + forest_sum(agent.subagents@, kind_of(k)));
        }
    }
}

/// Adds several agents' ledgers, with those of all their subagents, into `snapshot`.
pub fn add_forest_snapshot(agents: &Vec<AgentLedger>, snapshot: &mut LedgerSnapshot)
    requires
        old(snapshot).wf(),
        forest_wf(agents@),
        totals_fit(*old(snapshot), |f: spec_fn(LedgerSnapshot) -> int| forest_sum(agents@, f)),
    ensures
        totals_added(*old(snapshot), *final(snapshot), |f: spec_fn(LedgerSnapshot) -> int| forest_sum(agents@, f)),
    decreases agents@, 0int,
{
    let ghost start = *snapshot;
    let ghost all = agents@;
    let mut i: usize = 0;
    proof {
        lemma_measures_nonneg();
    }
    while i < agents.len()
        invariant
            all == agents@,
            i <= all.len(),
            forest_wf(all),
            snapshot.wf(),
            totals_fit(start, |f: spec_fn(LedgerSnapshot) -> int| forest_sum(all, f)),
            totals_added(start, *snapshot, |f: spec_fn(LedgerSnapshot) -> int| forest_sum(all.subrange(0, i as int), f)),
        decreases all.len() - i,
    {
        let ghost cur = *snapshot;
        proof {
            lemma_forest_wf_at(all, i as int);
            lemma_step_fits(start, cur, all, i as int);
        }
        add_agent_snapshot(&agents[i], snapshot);
        proof {
            lemma_step_added(start, cur, *snapshot, all, i as int);
        }
        i += 1;
    }
    proof {
        assert(all.subrange(0, all.len() as int) =~= all);
    }
}

proof fn lemma_forest_wf_at(s: Seq<AgentLedger>, i: int)
    requires
        forest_wf(s),
        0 <= i < s.len(),
    ensures
        tree_wf(s[i]),
    decreases s.len(),
{
    if i < s.len() - 1 {
        lemma_forest_wf_at(s.subrange(0, s.len() - 1), i);
    }
}

proof fn lemma_forest_step(s: Seq<AgentLedger>, i: int, f: spec_fn(LedgerSnapshot) -> int)
    requires
        0 <= i < s.len(),
    ensures
        forest_sum(s.subrange(0, i + 1), f) == forest_sum(s.subrange(0, i), f) + tree_sum(s[i], f),
{
    assert(s.subrange(0, i + 1).subrange(0, i) =~= s.subrange(0, i));
}

proof fn lemma_forest_prefix(s: Seq<AgentLedger>, j: int, f: spec_fn(LedgerSnapshot) -> int)
    requires
        forall|x: LedgerSnapshot| #[trigger] f(x) >= 0,
        0 <= j <= s.len(),
    ensures
        forest_sum(s.subrange(0, j), f) <= forest_sum(s, f),
    decreases s.len(),
{
    if j < s.len() {
        let t = s.subrange(0, s.len() - 1);
        lemma_forest_prefix(t, j, f);
        assert(t.subrange(0, j) =~= s.subrange(0, j));
        lemma_tree_nonneg(s[s.len() - 1], f);
    } else {
        assert(s.subrange(0, j) =~= s);
    }
}

proof fn lemma_step_fits(start: LedgerSnapshot, cur: LedgerSnapshot, all: Seq<AgentLedger>, i: int)
    requires
        0 <= i < all.len(),
        totals_fit(start, |f: spec_fn(LedgerSnapshot) -> int| forest_sum(all, f)),
        totals_added(start, cur, |f: spec_fn(LedgerSnapshot) -> int| forest_sum(all.subrange(0, i), f)),
    ensures
        totals_fit(cur, |f: spec_fn(LedgerSnapshot) -> int| tree_sum(all[i], f)),
{
    lemma_measures_nonneg();
    let whole = |f: spec_fn(LedgerSnapshot) -> int| forest_sum(all, f);
    let pre = |f: spec_fn(LedgerSnapshot) -> int| forest_sum(all.subrange(0, i), f);
    let one = |f: spec_fn(LedgerSnapshot) -> int| tree_sum(all[i], f);
    lemma_forest_step(all, i, calls_of());
    lemma_forest_prefix(all, i + 1, calls_of());
    lemma_forest_step(all, i, verified_of());
    lemma_forest_prefix(all, i + 1, verified_of());
    lemma_forest_step(all, i, failed_of());
    lemma_forest_prefix(all, i + 1, failed_of());
    lemma_forest_step(all, i, pending_of());
    lemma_forest_prefix(all, i + 1, pending_of());
    assert forall|k: u64| count_of(cur.kind_counts@, k) + #[trigger] one(kind_of(k)) <= u64::MAX by {
        lemma_forest_step(all, i, kind_of(k));
        lemma_forest_prefix(all, i + 1, kind_of(k));
        assert(count_of(cur.kind_counts@, k) == count_of(start.kind_counts@, k) + pre(kind_of(k)));
        assert(count_of(start.kind_counts@, k) + whole(kind_of(k)) <= u64::MAX);
    }
}

proof fn lemma_step_added(
    start: LedgerSnapshot,
    cur: LedgerSnapshot,
    next: LedgerSnapshot,
    all: Seq<AgentLedger>,
    i: int,
)
    requires
        0 <= i < all.len(),
        totals_added(start, cur, |f: spec_fn(LedgerSnapshot) -> int| forest_sum(all.subrange(0, i), f)),
        totals_added(cur, next, |f: spec_fn(LedgerSnapshot) -> int| tree_sum(all[i], f)),
    ensures
        totals_added(start, next, |f: spec_fn(LedgerSnapshot) -> int| forest_sum(all.subrange(0, i + 1), f)),
{
    let pre = |f: spec_fn(LedgerSnapshot) -> int| forest_sum(all.subrange(0, i), f);
    let one = |f: spec_fn(LedgerSnapshot) -> int| tree_sum(all[i], f);
    let post = |f: spec_fn(LedgerSnapshot) -> int| forest_sum(all.subrange(0, i + 1), f);
    lemma_forest_step(all, i, calls_of());
    lemma_forest_step(all, i, verified_of());
    lemma_forest_step(all, i, failed_of());
    lemma_forest_step(all, i, pending_of());
    assert forall|k: u64| #[trigger] count_of(next.kind_counts@, k) == count_of(start.kind_counts@, k)
        + post(kind_of(k)) by {
        lemma_forest_step(all, i, kind_of(k));
        assert(count_of(next.kind_counts@, k) == count_of(cur.kind_counts@, k) + one(kind_of(k)));
        assert(count_of(cur.kind_counts@, k) == count_of(start.kind_counts@, k) + pre(kind_of(k)));
    }
}

/// Each measure of `extra` fits in `u64`.
pub open spec fn measures_fit(extra: spec_fn(spec_fn(LedgerSnapshot) -> int) -> int) -> bool {
    &&& extra(calls_of()) <= u64::MAX
    &&& extra(verified_of()) <= u64::MAX
    &&& extra(failed_of()) <= u64::MAX
    &&& extra(pending_of()) <= u64::MAX
    &&& forall|k: u64| #[trigger] extra(kind_of(k)) <= u64::MAX
}

/// `s` holds exactly the measures of `extra`.
pub open spec fn totals_are(s: LedgerSnapshot, extra: spec_fn(spec_fn(LedgerSnapshot) -> int) -> int) -> bool {
    &&& s.wf()
    &&& s.tool_calls == extra(calls_of())
    &&& s.verified == extra(verified_of())
    &&& s.failed == extra(failed_of())
    &&& s.pending == extra(pending_of())
    &&& forall|k: u64| #[trigger] count_of(s.kind_counts@, k) == extra(kind_of(k))
}

/// The totals of several agents and all their subagents.
pub fn collect_mission_control_snapshot(agents: &Vec<AgentLedger>) -> (s: LedgerSnapshot)
    requires
        forest_wf(agents@),
        measures_fit(|f: spec_fn(LedgerSnapshot) -> int| forest_sum(agents@, f)),
    ensures
        totals_are(s, |f: spec_fn(LedgerSnapshot) -> int| forest_sum(agents@, f)),
{
    let mut s = LedgerSnapshot::new();
    let ghost s0 = s;
    proof {
        let e = |f: spec_fn(LedgerSnapshot) -> int| forest_sum(agents@, f);
        assert forall|k: u64| count_of(s0.kind_counts@, k) + #[trigger] e(kind_of(k)) <= u64::MAX by {
            assert(count_of(s0.kind_counts@, k) == 0);
        }
    }
    add_forest_snapshot(agents, &mut s);
    proof {
        let e = |f: spec_fn(LedgerSnapshot) -> int| forest_sum(agents@, f);
        assert forall|k: u64| #[trigger] count_of(s.kind_counts@, k) == e(kind_of(k)) by {
            assert(count_of(s0.kind_counts@, k) == 0);
        }
    }
    s
}

// ---------------------------------------------------------------------------
// Header content.
// ---------------------------------------------------------------------------

pub open spec fn ledger_part(s: LedgerSnapshot) -> Seq<char> {
    if s.tool_calls == 0 {
        "verification ledger idle"@
    } else {
        decimal(s.tool_calls as nat) + " tool calls · "@ + decimal(s.verified as nat) + " verified · "@
            + decimal(s.pending as nat) + " pending · "@ + decimal(s.failed as nat) + " failed"@
    }
}

pub open spec fn tvl_part(t: TvlPublicSnapshot) -> Seq<char> {
    "TVL "@ + run_status_name(t.status) + " · agreement "@ + agreement_name(t.agreement_state)
        + " · unresolved "@ + decimal(t.unresolved_disagreements as nat)
}

pub open spec fn opt_snapshot(t: Option<&TvlPublicSnapshot>) -> Option<TvlPublicSnapshot> {
    match t {
        Some(x) => Some(*x),
        None => None,
    }
}

/// The parts of the title line: the panel's name, the ledger totals (or that the
/// ledger is idle), and the verification loop's status when there is one.
pub open spec fn title_parts_of(s: LedgerSnapshot, tvl: Option<TvlPublicSnapshot>) -> Seq<Seq<char>> {
    seq!["Mission Control"@, ledger_part(s)] + match tvl {
        Some(t) => seq![tvl_part(t)],
        None => Seq::empty(),
    }
}

fn ledger_text(s: &LedgerSnapshot) -> (r: String)
    ensures
        r@ == ledger_part(*s),
{
    if s.tool_calls == 0 {
        return owned("verification ledger idle");
    }
    let calls = u64_to_decimal(s.tool_calls);
    let verified = u64_to_decimal(s.verified);
    let pending = u64_to_decimal(s.pending);
    let failed = u64_to_decimal(s.failed);
    let a = concat3(calls.as_str(), " tool calls · ", verified.as_str());
    let b = concat3(a.as_str(), " verified · ", pending.as_str());
    let c = concat3(b.as_str(), " pending · ", failed.as_str());
    concat2(c.as_str(), " failed")
}

fn tvl_text(t: &TvlPublicSnapshot) -> (r: String)
    ensures
        r@ == tvl_part(*t),
{
    let unresolved = u64_to_decimal(t.unresolved_disagreements as u64);
    let a = concat3("TVL ", t.status.name(), " · agreement ");
    let b = concat3(a.as_str(), t.agreement_state.name(), " · unresolved ");
    concat2(b.as_str(), unresolved.as_str())
}

/// The title line, its parts joined by ` · `.
pub fn mission_control_title(snapshot: &LedgerSnapshot, tvl: Option<&TvlPublicSnapshot>) -> (r: String)
    ensures
        r@ == join_sep(title_parts_of(*snapshot, opt_snapshot(tvl)), " · "@),
{
    let mut parts: Vec<String> = Vec::new();
    parts.push(owned("Mission Control"));
    parts.push(ledger_text(snapshot));
    match tvl {
        Some(t) => {
            parts.push(tvl_text(t));
        },
        None => {},
    }
    proof {
        assert(views(parts@) =~= title_parts_of(*snapshot, opt_snapshot(tvl)));
    }
    join_with(&parts, " · ")
}

/// A status chip: its slot key and its label.
pub open spec fn chip_views(v: Seq<(String, String)>) -> Seq<(Seq<char>, Seq<char>)> {
    Seq::new(v.len(), |i: int| (v[i].0@, v[i].1@))
}

pub open spec fn chip_if(cond: bool, key: Seq<char>, label: Seq<char>) -> Seq<(Seq<char>, Seq<char>)> {
    if cond {
        seq![(key, label)]
    } else {
        Seq::empty()
    }
}

/// The chips of the most frequent tool kinds: at most three, keyed `top_1` to
/// `top_3`, each the kind's verb and its count.
pub open spec fn top_chips(top: Seq<(Seq<char>, u64)>) -> Seq<(Seq<char>, Seq<char>)> {
    let n = if top.len() < 3 {
        top.len() as int
    } else {
        3
    };
    Seq::new(n as nat, |i: int| ("top_"@ + decimal((i + 1) as nat), top[i].0 + " "@ + decimal(top[i].1 as nat)))
}

/// The status chips: `ledger idle` when no tool was called; otherwise the verified,
/// pending and failed counts that are not zero and the top tool kinds; then the
/// verification loop's status and round when there is one.
pub open spec fn chips_of(
    s: LedgerSnapshot,
    top: Seq<(Seq<char>, u64)>,
    tvl: Option<TvlPublicSnapshot>,
) -> Seq<(Seq<char>, Seq<char>)> {
    (if s.tool_calls == 0 {
        seq![("ledger"@, "ledger idle"@)]
    } else {
        chip_if(s.verified > 0, "verified"@, "ok "@ + decimal(s.verified as nat) + " verified"@)
            + chip_if(s.pending > 0, "pending"@, "pending "@ + decimal(s.pending as nat))
            + chip_if(s.failed > 0, "failed"@, "fail "@ + decimal(s.failed as nat))
            + top_chips(top)
    }) + match tvl {
        Some(t) => seq![("tvl"@, "TVL "@ + run_status_name(t.status) + " r"@ + decimal(t.round_count as nat)
            + "/"@ + decimal(t.max_rounds as nat))],
        None => Seq::empty(),
    }
}

pub open spec fn top_views(v: Seq<(String, u64)>) -> Seq<(Seq<char>, u64)> {
    Seq::new(v.len(), |i: int| (v[i].0@, v[i].1))
}

fn push_chip(chips: &mut Vec<(String, String)>, key: String, label: String)
    ensures
        chip_views(final(chips)@) == chip_views(old(chips)@).push((key@, label@)),
{
    chips.push((key, label));
    proof {
        assert(chip_views(chips@) =~= chip_views(old(chips)@).push((key@, label@)));
    }
}

/// The status chips of the header. `top_kinds` lists the most frequent tool kinds,
/// most frequent first, each by its verb and count.
pub fn status_chips(
    snapshot: &LedgerSnapshot,
    top_kinds: &Vec<(String, u64)>,
    tvl: Option<&TvlPublicSnapshot>,
) -> (r: Vec<(String, String)>)
    ensures
        chip_views(r@) == chips_of(*snapshot, top_views(top_kinds@), opt_snapshot(tvl)),
{
    let mut chips: Vec<(String, String)> = Vec::new();
    let ghost top = top_views(top_kinds@);
    if snapshot.tool_calls == 0 {
        push_chip(&mut chips, owned("ledger"), owned("ledger idle"));
    } else {
        if snapshot.verified > 0 {
            let n = u64_to_decimal(snapshot.verified);
            push_chip(&mut chips, owned("verified"), concat3("ok ", n.as_str(), " verified"));
        }
        if snapshot.pending > 0 {
            let n = u64_to_decimal(snapshot.pending);
            push_chip(&mut chips, owned("pending"), concat2("pending ", n.as_str()));
        }
        if snapshot.failed > 0 {
            let n = u64_to_decimal(snapshot.failed);
            push_chip(&mut chips, owned("failed"), concat2("fail ", n.as_str()));
        }
        let ghost head = chip_views(chips@);
        proof {
            assert(head =~= chip_if(snapshot.verified > 0, "verified"@, "ok "@ + decimal(snapshot.verified as nat) + " verified"@)
                + chip_if(snapshot.pending > 0, "pending"@, "pending "@ + decimal(snapshot.pending as nat))
                + chip_if(snapshot.failed > 0, "failed"@, "fail "@ + decimal(snapshot.failed as nat)));
        }
        let n: usize = if top_kinds.len() < 3 {
            top_kinds.len()
        } else {
            3
        };
        let mut i: usize = 0;
        while i < n
            invariant
                n <= top_kinds.len(),
                n == (if top_kinds.len() < 3 { top_kinds.len() } else { 3 }),
                i <= n,
                top == top_views(top_kinds@),
                chip_views(chips@) == head + top_chips(top).subrange(0, i as int),
            decreases n - i,
        {
            let index = u64_to_decimal((i + 1) as u64);
            let count = u64_to_decimal(top_kinds[i].1);
            let key = concat2("top_", index.as_str());
            let label = concat3(top_kinds[i].0.as_str(), " ", count.as_str());
            push_chip(&mut chips, key, label);
            i += 1;
            proof {
                assert(chip_views(chips@) =~= head + top_chips(top).subrange(0, i as int));
            }
        }
        proof {
            assert(top_chips(top).subrange(0, n as int) =~= top_chips(top));
        }
    }
    let ghost body = chip_views(chips@);
    match tvl {
        Some(t) => {
            let round = u64_to_decimal(t.round_count as u64);
            let max = u64_to_decimal(t.max_rounds as u64);
            let a = concat3("TVL ", t.status.name(), " r");
            let b = concat3(a.as_str(), round.as_str(), "/");
            push_chip(&mut chips, owned("tvl"), concat2(b.as_str(), max.as_str()));
        },
        None => {},
    }
    proof {
        assert(chip_views(chips@) =~= chips_of(*snapshot, top, opt_snapshot(tvl)));
    }
    chips
}

pub open spec fn min_of(xs: Seq<u16>) -> int
    decreases xs.len(),
{
    if xs.len() == 0 {
        0
    } else if xs.len() == 1 {
        xs[0] as int
    } else {
        let m = min_of(xs.drop_last());
        if xs.last() < m {
            xs.last() as int
        } else {
            m
        }
    }
}

pub open spec fn saturating_sub(a: int, b: int) -> int {
    if a >= b {
        a - b
    } else {
        0
    }
}

/// The width left for the title: up to three columns before the leftmost chip,
/// measured from the area's left edge; the whole width when there is no chip.
pub open spec fn title_budget_of(chip_xs: Seq<u16>, area_x: u16, area_width: u16) -> int {
    if chip_xs.len() == 0 {
        area_width as int
    } else {
        saturating_sub(saturating_sub(min_of(chip_xs), 3), area_x as int)
    }
}

/// The width left for the title line, given the left edges of the drawn chips.
pub fn title_budget(chip_xs: &Vec<u16>, area_x: u16, area_width: u16) -> (r: usize)
    ensures
        r == title_budget_of(chip_xs@, area_x, area_width),
{
    if chip_xs.len() == 0 {
        return area_width as usize;
    }
    let mut m: u16 = chip_xs[0];
    let mut i: usize = 1;
    proof {
        assert(chip_xs@.subrange(0, 1) =~= seq![chip_xs@[0]]);
    }
    while i < chip_xs.len()
        invariant
            1 <= i <= chip_xs.len(),
            m == min_of(chip_xs@.subrange(0, i as int)),
        decreases chip_xs.len() - i,
    {
        proof {
            assert(chip_xs@.subrange(0, i + 1).drop_last() =~= chip_xs@.subrange(0, i as int));
        }
        if chip_xs[i] < m {
            m = chip_xs[i];
        }
        i += 1;
    }
    proof {
        assert(chip_xs@.subrange(0, chip_xs@.len() as int) =~= chip_xs@);
    }
    let a: u16 = if m >= 3 {
        m - 3
    } else {
        0
    };
    let b: u16 = if a >= area_x {
        a - area_x
    } else {
        0
    };
    b as usize
}

} // verus!
