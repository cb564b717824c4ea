//! A pure model of a whole selection run, and the laws proved of it.
//!
//! The interactive machine in [`crate::allocator`] is driven by filesystem
//! events. This module closes the loop over an in-memory image of those
//! events: every candidate is a name with a fixed size, the destination
//! starts empty, and every attempted copy succeeds and writes exactly the
//! candidate's size. A run is then a mathematical function ([`mrun`]) of the
//! candidates, the budget and the drawn positions alone; [`run_model`]
//! computes it and is proved to return exactly that function's value, so two
//! runs over the same inputs and the same draws agree in every detail.

use vstd::multiset::Multiset;
use vstd::prelude::*;

use crate::outcome::RunState;

verus! {

/// A modelled candidate: a destination base name and a size in bytes.
#[verifier::ext_equal]
pub ghost struct MFile {
    pub name: Seq<char>,
    pub size: u64,
}

/// The state of a modelled run.
#[verifier::ext_equal]
pub ghost struct MState {
    /// Candidates not yet drawn.
    pub pool: Seq<MFile>,
    /// Candidates copied so far, in copy order.
    pub copied: Seq<MFile>,
    /// Bytes still available at the destination.
    pub remaining: int,
    /// Whether a drawn candidate has overflowed the budget.
    pub full: bool,
}

/// The sum of the candidates' sizes.
pub open spec fn sum_sizes(files: Seq<MFile>) -> int
    decreases files.len(),
{
    if files.len() == 0 {
        0
    } else {
        files[0].size + sum_sizes(files.drop_first())
    }
}

/// Whether a file of this name has already been copied: the model of the
/// "a same-named file already exists at the destination" check.
pub open spec fn name_taken(copied: Seq<MFile>, name: Seq<char>) -> bool {
    exists|j: int| 0 <= j < copied.len() && copied[j].name == name
}

/// The run's starting state: the whole pool, an empty destination, the full
/// budget.
pub open spec fn init_state(pool: Seq<MFile>, limit: u64) -> MState {
    MState { pool, copied: Seq::empty(), remaining: limit as int, full: false }
}

/// One draw: the candidate at position `i` leaves the pool for good; a
/// candidate beyond the remaining budget halts the run; a name collision at
/// the destination is silently skipped; otherwise the candidate is copied
/// and charged.
pub open spec fn mstep(st: MState, i: int) -> MState {
    let f = st.pool[i];
    let rest = st.pool.remove(i);
    if f.size > st.remaining {
        MState { pool: rest, copied: st.copied, remaining: st.remaining, full: true }
    } else if name_taken(st.copied, f.name) {
        MState { pool: rest, copied: st.copied, remaining: st.remaining, full: st.full }
    } else {
        MState {
            pool: rest,
            copied: st.copied.push(f),
            remaining: st.remaining - f.size,
            full: st.full,
        }
    }
}

/// A whole run: draw at the given positions, one after the other, until the
/// run is full, the pool is empty, or the positions run out. A position out
/// of range stops the run where it stands (a run whose positions are valid
/// never reaches that case).
pub open spec fn mrun(st: MState, picks: Seq<int>) -> MState
    decreases picks.len(),
{
    if st.full || st.pool.len() == 0 || picks.len() == 0 {
        st
    } else if 0 <= picks[0] < st.pool.len() {
        mrun(mstep(st, picks[0]), picks.drop_first())
    } else {
        st
    }
}

/// Sizes are unsigned, so a sum of them is never negative.
pub proof fn lemma_sum_nonneg(files: Seq<MFile>)
    ensures
        sum_sizes(files) >= 0,
    decreases files.len(),
{
    if files.len() > 0 {
        lemma_sum_nonneg(files.drop_first());
    }
}

/// Appending a candidate adds its size to the sum.
pub proof fn lemma_sum_push(files: Seq<MFile>, f: MFile)
    ensures
        sum_sizes(files.push(f)) == sum_sizes(files) + f.size,
    decreases files.len(),
{
    if files.len() == 0 {
        assert(files.push(f).drop_first() =~= Seq::<MFile>::empty());
        assert(sum_sizes(files.push(f)) == f.size + sum_sizes(Seq::<MFile>::empty()));
    } else {
        assert(files.push(f).drop_first() =~= files.drop_first().push(f));
        lemma_sum_push(files.drop_first(), f);
        assert(sum_sizes(files.push(f)) == files[0].size + sum_sizes(files.drop_first().push(f)));
    }
}

/// Removing a candidate takes its size out of the sum.
pub proof fn lemma_sum_remove(files: Seq<MFile>, i: int)
    requires
        0 <= i < files.len(),
    ensures
        sum_sizes(files.remove(i)) == sum_sizes(files) - files[i].size,
    decreases i,
{
    if i == 0 {
        assert(files.remove(0) =~= files.drop_first());
    } else {
        assert(files.remove(i).drop_first() =~= files.drop_first().remove(i - 1));
        lemma_sum_remove(files.drop_first(), i - 1);
    }
}

/// Law: a run charges exactly what it copies. The sizes copied and the
/// budget left always make up what they made up before the run, the budget
/// never grows, and it never goes below zero.
pub proof fn lemma_run_conservation(st: MState, picks: Seq<int>)
    requires
        st.remaining >= 0,
    ensures
        mrun(st, picks).remaining >= 0,
        mrun(st, picks).remaining <= st.remaining,
        sum_sizes(mrun(st, picks).copied) + mrun(st, picks).remaining == sum_sizes(st.copied)
            + st.remaining,
    decreases picks.len(),
{
    if st.full || st.pool.len() == 0 || picks.len() == 0 {
    } else if 0 <= picks[0] < st.pool.len() {
        let f = st.pool[picks[0]];
        if f.size <= st.remaining && !name_taken(st.copied, f.name) {
            lemma_sum_push(st.copied, f);
        }
        lemma_run_conservation(mstep(st, picks[0]), picks.drop_first());
    }
}

/// Law: the sum of the sizes of all files copied in a run is at most the
/// initial size limit, and is exactly what the run took out of the budget.
pub proof fn lemma_copied_within_limit(pool: Seq<MFile>, limit: u64, picks: Seq<int>)
    ensures
        sum_sizes(mrun(init_state(pool, limit), picks).copied) <= limit,
        sum_sizes(mrun(init_state(pool, limit), picks).copied) == limit - mrun(
            init_state(pool, limit),
            picks,
        ).remaining,
{
    assert(sum_sizes(Seq::<MFile>::empty()) == 0);
    lemma_run_conservation(init_state(pool, limit), picks);
}

/// Pairwise-distinct destination names.
pub open spec fn distinct_names(files: Seq<MFile>) -> bool {
    forall|i: int, j: int| 0 <= i < j < files.len() ==> files[i].name != files[j].name
}

/// Law: no destination name is written more than once. Once the copied
/// names are pairwise distinct they stay so for the rest of the run: a
/// candidate whose name was copied before is skipped, never copied again.
pub proof fn lemma_no_name_copied_twice(st: MState, picks: Seq<int>)
    requires
        distinct_names(st.copied),
    ensures
        distinct_names(mrun(st, picks).copied),
    decreases picks.len(),
{
    if st.full || st.pool.len() == 0 || picks.len() == 0 {
    } else if 0 <= picks[0] < st.pool.len() {
        let f = st.pool[picks[0]];
        if f.size <= st.remaining && !name_taken(st.copied, f.name) {
            let pushed = st.copied.push(f);
            assert forall|i: int, j: int| 0 <= i < j < pushed.len() implies pushed[i].name
                != pushed[j].name by {
                if j == st.copied.len() {
                    assert(pushed[i] == st.copied[i]);
                    assert(pushed[j] == f);
                } else {
                    assert(pushed[i] == st.copied[i]);
                    assert(pushed[j] == st.copied[j]);
                }
            };
        }
        lemma_no_name_copied_twice(mstep(st, picks[0]), picks.drop_first());
    }
}

/// Removing a candidate keeps the remaining names pairwise distinct.
proof fn lemma_distinct_remove(s: Seq<MFile>, i: int)
    requires
        0 <= i < s.len(),
        distinct_names(s),
    ensures
        distinct_names(s.remove(i)),
{
    let r = s.remove(i);
    assert forall|a: int, b: int| 0 <= a < b < r.len() implies r[a].name != r[b].name by {
        let oa = if a < i {
            a
        } else {
            a + 1
        };
        let ob = if b < i {
            b
        } else {
            b + 1
        };
        assert(r[a] == s[oa]);
        assert(r[b] == s[ob]);
    };
}

/// Law: when everything fits, everything is copied. If the drawn positions
/// cover the pool, the candidates' names are pairwise distinct and none of
/// them is already at the destination, and their total size fits the
/// remaining budget, then the run copies every candidate and ends with the
/// pool exhausted, never full. (A pool with two same-named candidates is
/// outside this law: the later draw of the pair is skipped at the
/// destination — the run still exhausts the pool, by
/// [`lemma_fitting_pool_exhausts`].)
pub proof fn lemma_everything_fits_all_copied(st: MState, picks: Seq<int>)
    requires
        !st.full,
        st.remaining >= 0,
        sum_sizes(st.pool) <= st.remaining,
        picks.len() >= st.pool.len(),
        forall|k: int| 0 <= k < st.pool.len() ==> 0 <= #[trigger] picks[k] < st.pool.len() - k,
        distinct_names(st.pool),
        forall|i: int| 0 <= i < st.pool.len() ==> !name_taken(st.copied, st.pool[i].name),
    ensures
        !mrun(st, picks).full,
        mrun(st, picks).pool.len() == 0,
        mrun(st, picks).copied.to_multiset() == st.copied.to_multiset().add(
            st.pool.to_multiset(),
        ),
    decreases picks.len(),
{
    broadcast use vstd::seq_lib::group_to_multiset_ensures;

    if st.pool.len() == 0 {
        assert(mrun(st, picks) == st);
        assert(st.pool.to_multiset() =~= Multiset::<MFile>::empty());
        assert(st.copied.to_multiset().add(st.pool.to_multiset()) =~= st.copied.to_multiset());
    } else {
        let i = picks[0];
        let f = st.pool[i];
        lemma_sum_remove(st.pool, i);
        lemma_sum_nonneg(st.pool.remove(i));
        assert(f.size <= st.remaining);
        assert(!name_taken(st.copied, f.name));
        let st2 = mstep(st, i);
        assert(st2.pool == st.pool.remove(i));
        assert(st2.copied == st.copied.push(f));
        lemma_distinct_remove(st.pool, i);
        assert forall|t: int| 0 <= t < st2.pool.len() implies !name_taken(
            st2.copied,
            st2.pool[t].name,
        ) by {
            let ot = if t < i {
                t
            } else {
                t + 1
            };
            assert(st2.pool[t] == st.pool[ot]);
            assert(st.pool[ot].name != f.name);
            assert(!name_taken(st.copied, st.pool[ot].name));
            assert forall|j: int| 0 <= j < st2.copied.len() implies st2.copied[j].name
                != st2.pool[t].name by {
                if j < st.copied.len() {
                    assert(st2.copied[j] == st.copied[j]);
                } else {
                    assert(st2.copied[j] == f);
                }
            };
        };
        assert forall|k: int| 0 <= k < st2.pool.len() implies 0 <= #[trigger] picks.drop_first()[k]
            < st2.pool.len() - k by {
            assert(picks.drop_first()[k] == picks[k + 1]);
        };
        lemma_everything_fits_all_copied(st2, picks.drop_first());
        assert(st2.pool.to_multiset() =~= st.pool.to_multiset().remove(f));
        assert(st2.copied.to_multiset() =~= st.copied.to_multiset().insert(f));
        assert(st.pool.to_multiset().contains(f));
        assert(st2.copied.to_multiset().add(st2.pool.to_multiset()) =~= st.copied.to_multiset().add(
            st.pool.to_multiset(),
        ));
    }
}

/// Law: a run whose pool fits the remaining budget never goes full — the
/// pool is drained to the end, whatever the draw order and whatever names
/// collide at the destination.
pub proof fn lemma_fitting_pool_exhausts(st: MState, picks: Seq<int>)
    requires
        !st.full,
        st.remaining >= 0,
        sum_sizes(st.pool) <= st.remaining,
        picks.len() >= st.pool.len(),
        forall|k: int| 0 <= k < st.pool.len() ==> 0 <= #[trigger] picks[k] < st.pool.len() - k,
    ensures
        !mrun(st, picks).full,
        mrun(st, picks).pool.len() == 0,
    decreases picks.len(),
{
    if st.pool.len() == 0 {
    } else {
        let i = picks[0];
        let f = st.pool[i];
        lemma_sum_remove(st.pool, i);
        lemma_sum_nonneg(st.pool.remove(i));
        assert(f.size <= st.remaining);
        let st2 = mstep(st, i);
        assert forall|k: int| 0 <= k < st2.pool.len() implies 0 <= #[trigger] picks.drop_first()[k]
            < st2.pool.len() - k by {
            assert(picks.drop_first()[k] == picks[k + 1]);
        };
        lemma_fitting_pool_exhausts(st2, picks.drop_first());
    }
}

/// Law: a run is a function of its candidates, its budget and its drawn
/// positions alone, so two runs over the same inputs come to the same state
/// in every detail — the same copies in the same order, the same budget
/// left, the same terminal state. [`run_model`]'s contract pins its result
/// to [`mrun`], which makes the law carry over to the executable runs.
pub proof fn lemma_run_deterministic(
    pool: Seq<MFile>,
    limit: u64,
    picks: Seq<int>,
    r1: MState,
    r2: MState,
)
    requires
        r1 == mrun(init_state(pool, limit), picks),
        r2 == mrun(init_state(pool, limit), picks),
    ensures
        r1 == r2,
{
}

/// Law: a run that has gone full stays where it is: no further draw is
/// attempted and nothing more is copied.
pub proof fn lemma_full_is_final(st: MState, picks: Seq<int>)
    requires
        st.full,
    ensures
        mrun(st, picks) == st,
{
}

/// Law: a drawn candidate larger than the remaining budget halts the run at
/// that very draw — nothing more is copied and the budget is left as it
/// was, however many smaller candidates are still in the pool. The run
/// never searches for a better fit.
pub proof fn lemma_oversized_draw_halts(st: MState, i: int, picks: Seq<int>)
    requires
        !st.full,
        0 <= i < st.pool.len(),
        st.pool[i].size > st.remaining,
    ensures
        mstep(st, i).full,
        mstep(st, i).copied == st.copied,
        mstep(st, i).remaining == st.remaining,
        mrun(mstep(st, i), picks) == mstep(st, i),
{
    lemma_full_is_final(mstep(st, i), picks);
}

/// An in-memory candidate of a modelled run: its destination base name and
/// its size in bytes.
#[derive(Clone, PartialEq, Eq, Debug)]
pub struct ModelFile {
    pub name: String,
    pub size: u64,
}

/// The modelled candidate a [`ModelFile`] stands for.
pub open spec fn mfile_of(f: ModelFile) -> MFile {
    MFile { name: f.name@, size: f.size }
}

/// The modelled candidates a sequence of [`ModelFile`]s stands for.
pub open spec fn mfiles_of(s: Seq<ModelFile>) -> Seq<MFile> {
    s.map_values(|f: ModelFile| mfile_of(f))
}

/// Drawn positions, as the mathematical sequence [`mrun`] takes.
pub open spec fn picks_of(s: Seq<usize>) -> Seq<int> {
    s.map_values(|k: usize| k as int)
}

/// The model state a step of [`run_model`] stands at.
pub open spec fn loop_state(
    pool: Seq<ModelFile>,
    copied: Seq<ModelFile>,
    remaining: u64,
    full: bool,
) -> MState {
    MState { pool: mfiles_of(pool), copied: mfiles_of(copied), remaining: remaining as int, full }
}

proof fn lemma_mfiles_remove(s: Seq<ModelFile>, i: int)
    requires
        0 <= i < s.len(),
    ensures
        mfiles_of(s.remove(i)) =~= mfiles_of(s).remove(i),
{
}

proof fn lemma_mfiles_push(s: Seq<ModelFile>, f: ModelFile)
    ensures
        mfiles_of(s.push(f)) =~= mfiles_of(s).push(mfile_of(f)),
{
}

/// Whether a file of this name was already copied: the executable twin of
/// [`name_taken`].
fn name_already_copied(copied: &Vec<ModelFile>, name: &String) -> (b: bool)
    ensures
        b == name_taken(mfiles_of(copied@), name@),
{
    let mut j: usize = 0;
    while j < copied.len()
        invariant
            j <= copied@.len(),
            forall|t: int| 0 <= t < j ==> mfiles_of(copied@)[t].name != name@,
        decreases copied@.len() - j,
    {
        if copied[j].name.eq(name) {
            assert(mfiles_of(copied@)[j as int].name == name@);
            return true;
        }
        j += 1;
    }
    false
}

/// What a modelled run came to.
#[derive(Clone, PartialEq, Eq, Debug)]
pub struct RunReport {
    /// The candidates copied, in copy order.
    pub copied: Vec<ModelFile>,
    /// The bytes charged for them.
    pub copied_bytes: u64,
    /// The budget left over.
    pub remaining: u64,
    /// `Full` or `Exhausted`.
    pub state: RunState,
}

/// Runs the whole selection loop over in-memory candidates: draw at the
/// given positions, halt in `Full` on the first draw that overflows the
/// budget, skip a draw whose name was copied before, copy and charge every
/// other draw. The result is exactly [`mrun`] of the inputs: two runs over
/// the same candidates, budget and positions agree in every detail — the
/// injected draw positions are the run's only source of randomness.
pub fn run_model(files: Vec<ModelFile>, limit: u64, picks: &Vec<usize>) -> (r: RunReport)
    requires
        picks@.len() >= files@.len(),
        forall|k: int| 0 <= k < files@.len() ==> (#[trigger] picks@[k]) < files@.len() - k,
    ensures
        ({
            let fin = mrun(init_state(mfiles_of(files@), limit), picks_of(picks@));
            &&& mfiles_of(r.copied@) == fin.copied
            &&& r.remaining == fin.remaining
            &&& (r.state is Full) == fin.full
            &&& (r.state is Exhausted) == !fin.full
            &&& r.copied_bytes == limit - fin.remaining
            &&& sum_sizes(fin.copied) == r.copied_bytes
            &&& r.copied_bytes <= limit
        }),
{
    let ghost init: MState = init_state(mfiles_of(files@), limit);
    let ghost pi: Seq<int> = picks_of(picks@);
    let ghost n: int = files@.len() as int;

    let mut pool: Vec<ModelFile> = files;
    let mut copied: Vec<ModelFile> = Vec::new();
    let mut remaining: u64 = limit;
    let mut full: bool = false;
    let mut k: usize = 0;

    proof {
        assert(loop_state(pool@, copied@, remaining, full) =~= init);
        assert(pi.skip(0) =~= pi);
    }

    while !full && pool.len() > 0
        invariant
            k + pool@.len() == n,
            k <= pi.len(),
            pi == picks_of(picks@),
            n == init.pool.len(),
            picks@.len() >= n,
            forall|t: int| 0 <= t < n ==> (#[trigger] picks@[t]) < n - t,
            remaining <= limit,
            mrun(init, pi) == mrun(loop_state(pool@, copied@, remaining, full), pi.skip(k as int)),
        decreases pool@.len(),
    {
        let ghost c: MState = loop_state(pool@, copied@, remaining, full);
        let ghost pick: int = pi[k as int];
        let lp: usize = picks.len();
        let i: usize = picks[k];
        proof {
            assert(pi.skip(k as int)[0] == pi[k as int]);
            assert(pi.skip(k as int).drop_first() =~= pi.skip(k as int + 1));
            assert((i as int) < n - (k as int));
            assert((k as int) < lp as int);
        }
        k = k + 1;
        let ghost pool0: Seq<ModelFile> = pool@;
        let ghost copied0: Seq<ModelFile> = copied@;
        let f: ModelFile = pool.remove(i);
        proof {
            lemma_mfiles_remove(pool0, i as int);
            assert(c.pool[pick] == mfile_of(f));
        }
        if f.size > remaining {
            full = true;
        } else {
            let dup = name_already_copied(&copied, &f.name);
            if !dup {
                remaining = remaining - f.size;
                copied.push(f);
                proof {
                    lemma_mfiles_push(copied0, f);
                }
            }
        }
        proof {
            assert(loop_state(pool@, copied@, remaining, full) =~= mstep(c, pick));
            assert(mrun(c, pi.skip(k as int - 1)) == mrun(mstep(c, pick), pi.skip(k as int)));
        }
    }
    let state = if full {
        RunState::Full
    } else {
        RunState::Exhausted
    };
    proof {
        assert(mrun(loop_state(pool@, copied@, remaining, full), pi.skip(k as int))
            == loop_state(pool@, copied@, remaining, full));
        lemma_run_conservation(init, pi);
        assert(sum_sizes(init.copied) == 0);
    }
    RunReport { copied, copied_bytes: limit - remaining, remaining, state }
}

} // verus!
