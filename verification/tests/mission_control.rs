use grok_core::mission_control::{
    add_agent_snapshot, add_snapshot, collect_mission_control_snapshot, mission_control_title,
    status_chips, title_budget, AgentLedger, LedgerSnapshot,
};
use grok_core::tvl::TvlEngine;

fn snap(tool_calls: u64, verified: u64, failed: u64, pending: u64, kinds: Vec<(u64, u64)>) -> LedgerSnapshot {
    LedgerSnapshot {
        tool_calls,
        verified,
        failed,
        pending,
        kind_counts: kinds,
    }
}

fn count(s: &LedgerSnapshot, kind: u64) -> u64 {
    s.kind_counts
        .iter()
        .filter(|(k, _)| *k == kind)
        .map(|(_, c)| *c)
        .sum()
}

#[test]
fn add_snapshot_sums_totals_and_kinds() {
    let mut total = snap(3, 1, 1, 1, vec![(1, 2), (2, 1)]);
    let addition = snap(4, 2, 0, 2, vec![(2, 3), (5, 1)]);
    add_snapshot(&mut total, &addition);
    assert_eq!(total.tool_calls, 7);
    assert_eq!(total.verified, 3);
    assert_eq!(total.failed, 1);
    assert_eq!(total.pending, 3);
    assert_eq!(count(&total, 1), 2);
    assert_eq!(count(&total, 2), 4);
    assert_eq!(count(&total, 5), 1);
    assert_eq!(total.kind_counts.len(), 3);
}

#[test]
fn agent_tree_totals_include_subagents() {
    let grandchild = AgentLedger {
        snapshot: snap(1, 1, 0, 0, vec![(7, 1)]),
        subagents: vec![],
    };
    let child = AgentLedger {
        snapshot: snap(2, 0, 1, 1, vec![(7, 2), (8, 1)]),
        subagents: vec![grandchild],
    };
    let root = AgentLedger {
        snapshot: snap(5, 3, 1, 1, vec![(8, 4)]),
        subagents: vec![child],
    };
    let mut total = LedgerSnapshot::new();
    add_agent_snapshot(&root, &mut total);
    assert_eq!(total.tool_calls, 8);
    assert_eq!(total.verified, 4);
    assert_eq!(total.failed, 2);
    assert_eq!(total.pending, 2);
    assert_eq!(count(&total, 7), 3);
    assert_eq!(count(&total, 8), 5);

    let other = AgentLedger {
        snapshot: snap(1, 0, 0, 1, vec![]),
        subagents: vec![],
    };
    let collected = collect_mission_control_snapshot(&vec![root, other]);
    assert_eq!(collected.tool_calls, 9);
    assert_eq!(collected.pending, 3);
}

#[test]
fn idle_title_and_chips() {
    let s = LedgerSnapshot::new();
    assert_eq!(
        mission_control_title(&s, None),
        "Mission Control · verification ledger idle"
    );
    assert_eq!(
        status_chips(&s, &vec![], None),
        vec![("ledger".to_string(), "ledger idle".to_string())]
    );
}

#[test]
fn busy_title_and_chips() {
    let s = snap(12, 9, 1, 2, vec![]);
    assert_eq!(
        mission_control_title(&s, None),
        "Mission Control · 12 tool calls · 9 verified · 2 pending · 1 failed"
    );
    let top = vec![
        ("read".to_string(), 5),
        ("edit".to_string(), 4),
        ("run".to_string(), 2),
        ("search".to_string(), 1),
    ];
    let chips = status_chips(&s, &top, None);
    let expected: Vec<(String, String)> = vec![
        ("verified", "ok 9 verified"),
        ("pending", "pending 2"),
        ("failed", "fail 1"),
        ("top_1", "read 5"),
        ("top_2", "edit 4"),
        ("top_3", "run 2"),
    ]
    .into_iter()
    .map(|(a, b)| (a.to_string(), b.to_string()))
    .collect();
    assert_eq!(chips, expected);
}

#[test]
fn zero_counts_have_no_chip() {
    let s = snap(3, 0, 0, 3, vec![]);
    let chips = status_chips(&s, &vec![], None);
    assert_eq!(chips, vec![("pending".to_string(), "pending 3".to_string())]);
}

#[test]
fn tvl_status_in_title_and_chips() {
    let engine = TvlEngine::new("run-1", 3, 16);
    let tvl = engine.public_snapshot();
    let s = LedgerSnapshot::new();
    assert_eq!(
        mission_control_title(&s, Some(&tvl)),
        "Mission Control · verification ledger idle · TVL Idle · agreement Unknown · unresolved 0"
    );
    let chips = status_chips(&s, &vec![], Some(&tvl));
    assert_eq!(chips[1], ("tvl".to_string(), "TVL Idle r0/3".to_string()));
}

#[test]
fn title_budget_values() {
    assert_eq!(title_budget(&vec![], 2, 80), 80);
    assert_eq!(title_budget(&vec![60, 50, 70], 2, 80), 45);
    assert_eq!(title_budget(&vec![4], 2, 80), 0);
    assert_eq!(title_budget(&vec![1], 0, 80), 0);
}
