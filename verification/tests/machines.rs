//! The interactive machines: the allocator driven by explicit events, and
//! the discovery traversal.

use rand::rngs::StdRng;
use rand::SeedableRng;
use random_fill::allocator::Allocator;
use random_fill::discovery::{discover_tree, Discovery, FsNode, NodeKind};
use random_fill::outcome::{CopyResult, DrawDecision, Outcome, RunState, StatInfo};

#[test]
fn allocator_copy_then_halt() {
    let mut a = Allocator::new(vec!["p".to_string(), "q".to_string()], 100);
    assert_eq!(a.state(), RunState::Running);
    assert_eq!(a.pool_len(), 2);

    let p = a.draw_at(0);
    assert_eq!(p, "p");
    assert_eq!(a.pool_len(), 1);
    assert_eq!(a.decide(StatInfo::Regular { size: 30 }), DrawDecision::TryCopy);
    assert_eq!(a.record_copy(CopyResult::Done { written: 30 }), Outcome::Copied { written: 30 });
    assert_eq!(a.remaining(), 70);
    assert_eq!(a.copied_bytes(), 30);

    let q = a.draw_at(0);
    assert_eq!(q, "q");
    assert_eq!(a.decide(StatInfo::Regular { size: 80 }), DrawDecision::HaltFull);
    assert_eq!(a.state(), RunState::Full);
    assert_eq!(a.remaining(), 70);
}

#[test]
fn allocator_skips_charge_nothing() {
    let mut a = Allocator::new(vec!["x".to_string()], 50);
    let _ = a.draw_at(0);
    assert_eq!(a.decide(StatInfo::NotRegular), DrawDecision::SkipNotRegular);
    assert_eq!(a.state(), RunState::Running);
    assert_eq!(a.remaining(), 50);

    assert_eq!(a.decide(StatInfo::Regular { size: 10 }), DrawDecision::TryCopy);
    assert_eq!(
        a.record_copy(CopyResult::DestExists),
        Outcome::SkippedAlreadyExistsAtDestination
    );
    assert_eq!(a.remaining(), 50);

    assert_eq!(a.record_copy(CopyResult::Failed), Outcome::SkippedCopyFailed);
    assert_eq!(a.remaining(), 50);
    assert_eq!(a.copied_bytes(), 0);
}

#[test]
fn allocator_never_charges_past_the_limit() {
    // The copy wrote more than the stated size left: only the remainder is
    // charged and the accounting stays whole.
    let mut a = Allocator::new(vec!["x".to_string()], 10);
    let _ = a.draw_at(0);
    assert_eq!(a.decide(StatInfo::Regular { size: 5 }), DrawDecision::TryCopy);
    assert_eq!(a.record_copy(CopyResult::Done { written: 50 }), Outcome::Copied { written: 10 });
    assert_eq!(a.remaining(), 0);
    assert_eq!(a.copied_bytes(), 10);
}

#[test]
fn allocator_exact_fit_is_accepted() {
    let mut a = Allocator::new(vec!["x".to_string()], 40);
    let _ = a.draw_at(0);
    assert_eq!(a.decide(StatInfo::Regular { size: 40 }), DrawDecision::TryCopy);
    assert_eq!(a.record_copy(CopyResult::Done { written: 40 }), Outcome::Copied { written: 40 });
    assert_eq!(a.remaining(), 0);
    assert_eq!(a.state(), RunState::Running);
}

#[test]
fn allocator_empty_pool_is_exhausted() {
    let mut a = Allocator::new(Vec::new(), 9);
    let mut rng = StdRng::seed_from_u64(1);
    assert_eq!(a.draw(&mut rng), None);
    assert_eq!(a.state(), RunState::Exhausted);
    assert_eq!(a.remaining(), 9);
}

#[test]
fn random_draws_cover_the_pool_without_repeats() {
    let pool: Vec<String> = (0..20).map(|i| format!("f{}", i)).collect();
    let mut a = Allocator::new(pool.clone(), 1000);
    let mut rng = StdRng::seed_from_u64(7);
    let mut drawn: Vec<String> = Vec::new();
    while let Some(p) = a.draw(&mut rng) {
        assert!(pool.contains(&p));
        assert!(!drawn.contains(&p), "candidate drawn twice: {}", p);
        drawn.push(p);
    }
    assert_eq!(a.state(), RunState::Exhausted);
    let mut sorted = drawn.clone();
    sorted.sort();
    let mut expected = pool.clone();
    expected.sort();
    assert_eq!(sorted, expected);
}

#[test]
fn same_seed_same_draw_sequence() {
    let pool: Vec<String> = (0..12).map(|i| format!("f{}", i)).collect();
    let mut first: Vec<String> = Vec::new();
    let mut second: Vec<String> = Vec::new();
    for out in [&mut first, &mut second] {
        let mut a = Allocator::new(pool.clone(), 1000);
        let mut rng = StdRng::seed_from_u64(99);
        while let Some(p) = a.draw(&mut rng) {
            out.push(p);
        }
    }
    assert_eq!(first, second);
}

#[test]
fn root_that_is_a_file_is_the_sole_candidate() {
    let mut d = Discovery::new(vec!["lone".to_string()]);
    assert_eq!(d.next_path(), Some("lone".to_string()));
    d.record("lone".to_string(), NodeKind::File);
    assert_eq!(d.next_path(), None);
    assert_eq!(d.into_candidates(), vec!["lone".to_string()]);
}

#[test]
fn directories_recurse_and_other_entries_drop_out() {
    let mut d = Discovery::new(vec!["root".to_string()]);
    assert_eq!(d.next_path(), Some("root".to_string()));
    d.record(
        "root".to_string(),
        NodeKind::Dir { entries: vec!["root/a".to_string(), "root/sub".to_string()] },
    );
    assert_eq!(d.next_path(), Some("root/sub".to_string()));
    d.record(
        "root/sub".to_string(),
        NodeKind::Dir { entries: vec!["root/sub/b".to_string()] },
    );
    assert_eq!(d.next_path(), Some("root/sub/b".to_string()));
    d.record("root/sub/b".to_string(), NodeKind::File);
    assert_eq!(d.candidate_count(), 1);
    assert_eq!(d.next_path(), Some("root/a".to_string()));
    d.record("root/a".to_string(), NodeKind::Other);
    assert_eq!(d.next_path(), None);
    assert_eq!(d.into_candidates(), vec!["root/sub/b".to_string()]);
}

#[test]
fn tree_traversal_collects_exactly_the_files() {
    let tree = FsNode::Dir {
        entries: vec![
            FsNode::File { path: "root/a".to_string() },
            FsNode::Dir {
                entries: vec![FsNode::File { path: "root/sub/b".to_string() }, FsNode::Other],
            },
            FsNode::File { path: "root/c".to_string() },
        ],
    };
    let found = discover_tree(&vec![tree]);
    assert_eq!(
        found,
        vec!["root/a".to_string(), "root/sub/b".to_string(), "root/c".to_string()]
    );
}

#[test]
fn tree_root_that_is_a_file_is_sole_candidate() {
    let found = discover_tree(&vec![FsNode::File { path: "lone".to_string() }]);
    assert_eq!(found, vec!["lone".to_string()]);
}

#[test]
fn duplicate_paths_from_two_roots_both_kept() {
    let mut d = Discovery::new(vec!["same".to_string(), "same".to_string()]);
    assert_eq!(d.next_path(), Some("same".to_string()));
    d.record("same".to_string(), NodeKind::File);
    assert_eq!(d.next_path(), Some("same".to_string()));
    d.record("same".to_string(), NodeKind::File);
    assert_eq!(d.next_path(), None);
    assert_eq!(d.into_candidates(), vec!["same".to_string(), "same".to_string()]);
}
