//! Whole modelled runs: the budget policy over in-memory candidates.

use random_fill::model::{run_model, ModelFile, RunReport};
use random_fill::outcome::RunState;

fn file(name: &str, size: u64) -> ModelFile {
    ModelFile { name: name.to_string(), size }
}

fn names(r: &RunReport) -> Vec<String> {
    r.copied.iter().map(|f| f.name.clone()).collect()
}

#[test]
fn budget_not_reached_pool_exhausts() {
    let files = vec![file("a", 30), file("b", 40), file("c", 20)];
    let picks = vec![0, 0, 0];
    let r = run_model(files, 100, &picks);
    assert_eq!(r.state, RunState::Exhausted);
    assert_eq!(r.copied.len(), 3);
    assert_eq!(r.copied_bytes, 90);
    assert_eq!(r.remaining, 10);
}

#[test]
fn first_draw_overflows_run_goes_full() {
    let files = vec![file("big", 60)];
    let picks = vec![0];
    let r = run_model(files, 50, &picks);
    assert_eq!(r.state, RunState::Full);
    assert_eq!(r.copied.len(), 0);
    assert_eq!(r.copied_bytes, 0);
    assert_eq!(r.remaining, 50);
}

#[test]
fn same_name_copied_once_then_skipped() {
    // Two roots each offered a file named a.txt: the first drawn is copied,
    // the second is skipped silently and charges nothing.
    let files = vec![file("a.txt", 10), file("a.txt", 12)];
    let picks = vec![0, 0];
    let r = run_model(files, 100, &picks);
    assert_eq!(r.state, RunState::Exhausted);
    assert_eq!(r.copied.len(), 1);
    assert_eq!(r.copied[0].size, 10);
    assert_eq!(r.copied_bytes, 10);
    assert_eq!(r.remaining, 90);
}

#[test]
fn no_search_for_a_better_fit() {
    // The first draw overflows; the run halts even though the other
    // candidate would still fit.
    let files = vec![file("big", 60), file("small", 10)];
    let picks = vec![0, 0];
    let r = run_model(files, 50, &picks);
    assert_eq!(r.state, RunState::Full);
    assert_eq!(r.copied.len(), 0);
    assert_eq!(r.remaining, 50);
}

#[test]
fn same_inputs_same_run() {
    let files = vec![file("a", 5), file("b", 7), file("c", 11)];
    let picks = vec![2, 0, 0];
    let r1 = run_model(files.clone(), 20, &picks);
    let r2 = run_model(files, 20, &picks);
    assert_eq!(r1, r2);
}

#[test]
fn draw_positions_fix_the_copy_order() {
    let files = vec![file("x", 1), file("y", 2), file("z", 3)];
    let picks = vec![1, 0, 0];
    let r = run_model(files, 100, &picks);
    assert_eq!(names(&r), vec!["y".to_string(), "x".to_string(), "z".to_string()]);
    assert_eq!(r.copied_bytes, 6);
}

#[test]
fn copies_stop_only_at_the_oversized_draw() {
    // Everything fits until the last candidate, which does not.
    let files = vec![file("a", 40), file("b", 40), file("c", 40)];
    let picks = vec![0, 0, 0];
    let r = run_model(files, 100, &picks);
    assert_eq!(r.state, RunState::Full);
    assert_eq!(r.copied.len(), 2);
    assert_eq!(r.copied_bytes, 80);
    assert_eq!(r.remaining, 20);
}

#[test]
fn exact_fit_is_copied_not_full() {
    // Only a size strictly beyond the remaining budget halts the run.
    let files = vec![file("fits", 50)];
    let picks = vec![0];
    let r = run_model(files, 50, &picks);
    assert_eq!(r.state, RunState::Exhausted);
    assert_eq!(r.copied.len(), 1);
    assert_eq!(r.copied_bytes, 50);
    assert_eq!(r.remaining, 0);
}

#[test]
fn empty_pool_exhausts_at_once() {
    let r = run_model(Vec::new(), 7, &Vec::new());
    assert_eq!(r.state, RunState::Exhausted);
    assert_eq!(r.copied.len(), 0);
    assert_eq!(r.remaining, 7);
}

#[test]
fn zero_budget_fits_only_empty_files() {
    let files = vec![file("empty", 0), file("one", 1)];
    let picks = vec![0, 0];
    let r = run_model(files, 0, &picks);
    assert_eq!(r.state, RunState::Full);
    assert_eq!(r.copied.len(), 1);
    assert_eq!(r.copied[0].name, "empty");
    assert_eq!(r.copied_bytes, 0);
}
