//! Bookkeeping of a batch of downloads: which jobs run, and what came of them.
use vstd::prelude::*;

use crate::config::symbol_name::SymbolName;

verus! {

/// Result of executing a batch of download tasks.
pub struct ExecutionResult<E> {
    pub downloaded: u32,
    pub skipped: u32,
    pub errors: Vec<(SymbolName, E)>,
}

/// What came of one download job that was started.
pub enum TaskOutcome<E> {
    /// The file was downloaded and written.
    Downloaded,
    /// The job failed with an error.
    Failed(SymbolName, E),
    /// The job did not finish (its worker stopped abnormally).
    Panicked,
}

/// A job is run unless its output already exists and re-downloading was not
/// forced.
pub fn needs_download(force: bool, output_exists: bool) -> (b: bool)
    ensures
        b == (force || !output_exists),
{
    force || !output_exists
}

/// Number of jobs that are skipped: their output exists and re-downloading
/// was not forced.
pub open spec fn skipped_count(force: bool, outputs_exist: Seq<bool>) -> nat
    decreases outputs_exist.len(),
{
    if outputs_exist.len() == 0 {
        0
    } else {
        skipped_count(force, outputs_exist.drop_last()) + if !force && outputs_exist.last() {
            1nat
        } else {
            0nat
        }
    }
}

/// Number of jobs that download their file.
pub open spec fn downloaded_count<E>(os: Seq<TaskOutcome<E>>) -> nat
    decreases os.len(),
{
    if os.len() == 0 {
        0
    } else {
        downloaded_count(os.drop_last()) + if os.last() is Downloaded {
            1nat
        } else {
            0nat
        }
    }
}

/// Number of jobs that did not finish.
pub open spec fn panicked_count<E>(os: Seq<TaskOutcome<E>>) -> nat
    decreases os.len(),
{
    if os.len() == 0 {
        0
    } else {
        panicked_count(os.drop_last()) + if os.last() is Panicked {
            1nat
        } else {
            0nat
        }
    }
}

/// The failures, in order, with the name of each failed icon.
pub open spec fn failures<E>(os: Seq<TaskOutcome<E>>) -> Seq<(Seq<char>, E)>
    decreases os.len(),
{
    if os.len() == 0 {
        seq![]
    } else {
        let rest = failures(os.drop_last());
        match os.last() {
            TaskOutcome::Failed(name, e) => rest.push((name@, e)),
            _ => rest,
        }
    }
}

/// The recorded errors with each icon name by its view.
pub open spec fn error_views<E>(errors: Seq<(SymbolName, E)>) -> Seq<(Seq<char>, E)> {
    errors.map_values(|p: (SymbolName, E)| (p.0@, p.1))
}

/// Tallies a batch: the jobs skipped (by whether each job's output already
/// exists, and whether re-downloading is forced), and the outcomes of the jobs
/// that were started, in order.
pub fn summarize<E>(force: bool, outputs_exist: &[bool], outcomes: Vec<TaskOutcome<E>>) -> (r:
    ExecutionResult<E>)
    requires
        outputs_exist@.len() <= u32::MAX,
        outcomes@.len() <= u32::MAX,
    ensures
        r.skipped == skipped_count(force, outputs_exist@),
        r.downloaded == downloaded_count(outcomes@),
        error_views(r.errors@) == failures(outcomes@),
{
    let mut skipped: u32 = 0;
    let mut i: usize = 0;
    while i < outputs_exist.len()
        invariant
            i <= outputs_exist@.len(),
            outputs_exist@.len() <= u32::MAX,
            skipped == skipped_count(force, outputs_exist@.take(i as int)),
            skipped <= i,
        decreases outputs_exist.len() - i,
    {
        let ghost next = outputs_exist@.take(i + 1);
        assert(next.drop_last() == outputs_exist@.take(i as int));
        assert(next.last() == outputs_exist@[i as int]);
        if !needs_download(force, outputs_exist[i]) {
            skipped = skipped + 1;
        }
        i = i + 1;
    }
    assert(outputs_exist@.take(outputs_exist@.len() as int) == outputs_exist@);
    let ghost all = outcomes@;
    let mut downloaded: u32 = 0;
    let mut errors: Vec<(SymbolName, E)> = Vec::new();
    let mut n: usize = 0;
    for o in it: outcomes
        invariant
            it.seq() == all,
            all.len() <= u32::MAX,
            n == it.index(),
            downloaded == downloaded_count(all.take(n as int)),
            downloaded <= n,
            error_views(errors@) == failures(all.take(n as int)),
    {
        let ghost prefix = all.take(n + 1);
        assert(prefix.drop_last() == all.take(n as int));
        assert(prefix.last() == o);
        let ghost before = errors@;
        match o {
            TaskOutcome::Downloaded => {
                downloaded = downloaded + 1;
            },
            TaskOutcome::Failed(name, e) => {
                errors.push((name, e));
                assert(error_views(errors@) =~= error_views(before).push((name@, e)));
            },
            TaskOutcome::Panicked => {},
        }
        n = n + 1;
    }
    assert(all.take(all.len() as int) == all);
    ExecutionResult { downloaded, skipped, errors }
}

proof fn lemma_outcome_counts<E>(os: Seq<TaskOutcome<E>>)
    ensures
        downloaded_count(os) + failures(os).len() + panicked_count(os) == os.len(),
    decreases os.len(),
{
    if os.len() > 0 {
        lemma_outcome_counts(os.drop_last());
    }
}

/// When one job was started for each job not skipped, every job is counted
/// exactly once: as skipped, as downloaded, as an error, or as not finished.
pub proof fn lemma_summary_accounts_for_every_job<E>(
    force: bool,
    outputs_exist: Seq<bool>,
    outcomes: Seq<TaskOutcome<E>>,
    result: ExecutionResult<E>,
)
    requires
        outcomes.len() + skipped_count(force, outputs_exist) == outputs_exist.len(),
        result.skipped == skipped_count(force, outputs_exist),
        result.downloaded == downloaded_count(outcomes),
        error_views(result.errors@) == failures(outcomes),
    ensures
        result.skipped + result.downloaded + result.errors@.len() + panicked_count(outcomes)
            == outputs_exist.len(),
{
    lemma_outcome_counts(outcomes);
    assert(error_views(result.errors@).len() == result.errors@.len());
}

/// Whether a job with the given output state is skipped.
pub open spec fn is_skipped(force: bool) -> spec_fn(bool) -> bool {
    |b: bool| !force && b
}

/// Whether a job with the given output state is started.
pub open spec fn is_started(force: bool) -> spec_fn(bool) -> bool {
    |b: bool| force || !b
}

/// The skipped jobs are exactly those whose output exists when re-downloading
/// is not forced: their number is the number of such entries, and together
/// with the jobs that need a download they make up every job.
pub proof fn lemma_skipped_count_counts_existing(force: bool, outputs_exist: Seq<bool>)
    ensures
        skipped_count(force, outputs_exist) == outputs_exist.filter(is_skipped(force)).len(),
        skipped_count(force, outputs_exist) + outputs_exist.filter(is_started(force)).len()
            == outputs_exist.len(),
        force ==> skipped_count(force, outputs_exist) == 0,
    decreases outputs_exist.len(),
{
    if outputs_exist.len() == 0 {
        reveal_with_fuel(Seq::<_>::filter, 1);
    } else {
        lemma_skipped_count_counts_existing(force, outputs_exist.drop_last());
        let d = outputs_exist.drop_last();
        let l = outputs_exist.last();
        reveal_with_fuel(Seq::<_>::filter, 1);
        assert(outputs_exist.filter(is_skipped(force)) == if is_skipped(force)(l) {
            d.filter(is_skipped(force)).push(l)
        } else {
            d.filter(is_skipped(force))
        });
        assert(outputs_exist.filter(is_started(force)) == if is_started(force)(l) {
            d.filter(is_started(force)).push(l)
        } else {
            d.filter(is_started(force))
        });
    }
}

} // verus!
