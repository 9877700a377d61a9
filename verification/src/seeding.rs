//! The plan of a seeding run: checking the target, cutting the items into
//! batches, the delays between write attempts, and the tally of the outcome.

use tokio_retry::strategy::ExponentialBackoff;
use vstd::prelude::*;
use vstd::arithmetic::power::pow;

use crate::error::SeedError;

verus! {

/// Refuses an empty collection name, then an empty project id.
pub fn validate_target(collection: &str, project: &str) -> (r: Result<(), SeedError>)
    ensures
        collection@.len() == 0 ==> (r matches Err(SeedError::ValidationError(m)) && m@
            == "Collection name cannot be empty"@),
        collection@.len() != 0 && project@.len() == 0 ==> (r matches Err(
            SeedError::ValidationError(m),
        ) && m@ == "Project ID cannot be empty"@),
        collection@.len() != 0 && project@.len() != 0 ==> r is Ok,
{
    if collection.is_empty() {
        return Err(SeedError::ValidationError(String::from_str("Collection name cannot be empty")));
    }
    if project.is_empty() {
        return Err(SeedError::ValidationError(String::from_str("Project ID cannot be empty")));
    }
    Ok(())
}

/// How many batches of at most `size` items hold `len` items.
pub open spec fn batch_count(len: int, size: int) -> int {
    (len + size - 1) / size
}

/// The item range `[start, end)` of batch `k`.
pub open spec fn batch_range(len: int, size: int, k: int) -> (int, int) {
    (k * size, if (k + 1) * size <= len {
        (k + 1) * size
    } else {
        len
    })
}

/// `batch_count` is the least number of batches whose capacity covers the items.
pub proof fn lemma_batch_count(len: int, size: int, k: int)
    requires
        len >= 0,
        size > 0,
        k >= 0,
    ensures
        batch_count(len, size) >= 0,
        batch_count(len, size) * size >= len,
        len > 0 ==> (batch_count(len, size) - 1) * size < len,
        len == 0 ==> batch_count(len, size) == 0,
        (k * size >= len && (k == 0 || (k - 1) * size < len)) ==> k == batch_count(len, size),
{
    let c = batch_count(len, size);
    vstd::arithmetic::div_mod::lemma_fundamental_div_mod(len + size - 1, size);
    let r = (len + size - 1) % size;
    assert(0 <= r < size);
    assert(len + size - 1 == size * c + r);
    assert(c >= 0) by (nonlinear_arith)
        requires
            len + size - 1 == size * c + r,
            0 <= r < size,
            len >= 0,
            size > 0,
    ;
    assert(c * size >= len) by (nonlinear_arith)
        requires
            len + size - 1 == size * c + r,
            r < size,
    ;
    assert(len > 0 ==> (c - 1) * size < len) by (nonlinear_arith)
        requires
            len + size - 1 == size * c + r,
            r >= 0,
    ;
    assert(len == 0 ==> c == 0) by (nonlinear_arith)
        requires
            len + size - 1 == size * c + r,
            0 <= r < size,
            size > 0,
    ;
    if k * size >= len && (k == 0 || (k - 1) * size < len) {
        if len == 0 {
            assert(k == 0) by (nonlinear_arith)
                requires
                    k >= 0,
                    size > 0,
                    k == 0 || (k - 1) * size < 0,
            ;
        } else {
            assert(k > 0) by (nonlinear_arith)
                requires
                    k >= 0,
                    k * size >= len,
                    len > 0,
            ;
            assert(k == c) by (nonlinear_arith)
                requires
                    k * size >= len,
                    (k - 1) * size < len,
                    c * size >= len,
                    (c - 1) * size < len,
                    size > 0,
            ;
        }
    }
}

/// The batches partition the items: item `j` lies in batch `j / size` and in
/// no other.
pub proof fn lemma_each_item_in_one_batch(len: int, size: int, j: int, k: int)
    requires
        len >= 0,
        size > 0,
        0 <= j < len,
        0 <= k < batch_count(len, size),
    ensures
        0 <= j / size < batch_count(len, size),
        batch_range(len, size, k).0 <= j < batch_range(len, size, k).1 <==> k == j / size,
{
    lemma_batch_count(len, size, 0);
    let c = batch_count(len, size);
    vstd::arithmetic::div_mod::lemma_fundamental_div_mod(j, size);
    let q = j / size;
    let r = j % size;
    assert(0 <= r < size);
    assert(j == size * q + r);
    assert(0 <= q < c) by (nonlinear_arith)
        requires
            j == size * q + r,
            0 <= r < size,
            0 <= j < len,
            c * size >= len,
            size > 0,
    ;
    assert((k * size <= j && j < (k + 1) * size) <==> k == q) by (nonlinear_arith)
        requires
            j == size * q + r,
            0 <= r < size,
            size > 0,
    ;
}

/// Cuts `len` items into consecutive batches of `batch_size` items, the last
/// one holding what is left, as `slice::chunks` does.
pub fn plan_batches(len: usize, batch_size: usize) -> (batches: Vec<(usize, usize)>)
    requires
        batch_size > 0,
    ensures
        batches@.len() == batch_count(len as int, batch_size as int),
        forall|k: int|
            0 <= k < batches@.len() ==> #[trigger] batches@[k].0 == batch_range(
                len as int,
                batch_size as int,
                k,
            ).0 && batches@[k].1 == batch_range(len as int, batch_size as int, k).1,
{
    let mut batches: Vec<(usize, usize)> = Vec::new();
    let mut start: usize = 0;
    assert(batches@.len() * batch_size == 0) by (nonlinear_arith)
        requires
            batches@.len() == 0,
    ;
    while start < len
        invariant
            batch_size > 0,
            start <= len,
            start == len || start == batches@.len() * batch_size,
            batches@.len() * batch_size >= start,
            batches@.len() == 0 || (batches@.len() - 1) * batch_size < len,
            forall|k: int|
                0 <= k < batches@.len() ==> #[trigger] batches@[k].0 == batch_range(
                    len as int,
                    batch_size as int,
                    k,
                ).0 && batches@[k].1 == batch_range(len as int, batch_size as int, k).1,
        decreases len - start,
    {
        let ghost k = batches@.len() as int;
        assert((k + 1) * batch_size == k * batch_size + batch_size) by (nonlinear_arith);
        let end: usize = if len - start > batch_size {
            start + batch_size
        } else {
            len
        };
        batches.push((start, end));
        start = end;
    }
    proof {
        lemma_batch_count(len as int, batch_size as int, batches@.len() as int);
    }
    batches
}

/// The items written by the batches that succeeded.
pub open spec fn succeeded_items(outcomes: Seq<Result<usize, SeedError>>) -> int
    decreases outcomes.len(),
{
    if outcomes.len() == 0 {
        0
    } else {
        succeeded_items(outcomes.drop_last()) + match outcomes.last() {
            Ok(n) => n as int,
            Err(_) => 0,
        }
    }
}

/// The number of batches that failed.
pub open spec fn failed_batches(outcomes: Seq<Result<usize, SeedError>>) -> int
    decreases outcomes.len(),
{
    if outcomes.len() == 0 {
        0
    } else {
        failed_batches(outcomes.drop_last()) + if outcomes.last() is Err {
            1int
        } else {
            0
        }
    }
}

/// The position of the last failed batch.
pub open spec fn last_failure(outcomes: Seq<Result<usize, SeedError>>) -> Option<int>
    decreases outcomes.len(),
{
    if outcomes.len() == 0 {
        None
    } else if outcomes.last() is Err {
        Some(outcomes.len() - 1)
    } else {
        last_failure(outcomes.drop_last())
    }
}

proof fn lemma_tally_bounds(outcomes: Seq<Result<usize, SeedError>>)
    ensures
        succeeded_items(outcomes) >= 0,
        0 <= failed_batches(outcomes) <= outcomes.len(),
        last_failure(outcomes) matches Some(k) ==> 0 <= k < outcomes.len() && outcomes[k] is Err,
    decreases outcomes.len(),
{
    if outcomes.len() > 0 {
        lemma_tally_bounds(outcomes.drop_last());
    }
}

/// The tally of a run: the items written, the failures counted a whole batch
/// each, and the error of the last failed batch.
#[derive(Debug)]
pub struct RunSummary {
    pub success_count: usize,
    pub failure_count: usize,
    pub last_error: Option<SeedError>,
}

/// Tallies the outcomes of the batches: each success adds the items it wrote,
/// each failure adds `batch_size` to the failures, and the error of the last
/// failed batch is kept.
pub fn summarize(outcomes: Vec<Result<usize, SeedError>>, batch_size: usize) -> (summary: RunSummary)
    requires
        succeeded_items(outcomes@) <= usize::MAX,
        failed_batches(outcomes@) * batch_size <= usize::MAX,
    ensures
        summary.success_count == succeeded_items(outcomes@),
        summary.failure_count == failed_batches(outcomes@) * batch_size,
        summary.failure_count == batch_size * outcomes@.filter(
            |o: Result<usize, SeedError>| o is Err,
        ).len(),
        match last_failure(outcomes@) {
            Some(k) => summary.last_error matches Some(e) && outcomes@[k] == Err::<usize, SeedError>(
                e,
            ),
            None => summary.last_error is None,
        },
{
    let ghost all = outcomes@;
    let count: usize = outcomes.len();
    assert(all.len() == count);
    let mut rest = outcomes;
    let mut success_count: usize = 0;
    let mut failures: usize = 0;
    let mut failure_count: usize = 0;
    let mut last_error: Option<SeedError> = None;
    proof {
        lemma_tally_bounds(all);
    }
    while rest.len() > 0
        invariant
            rest@ == all.take(rest@.len() as int),
            rest@.len() <= all.len(),
            all.len() <= usize::MAX,
            failed_batches(all) <= all.len(),
            success_count + succeeded_items(rest@) == succeeded_items(all),
            failures + failed_batches(rest@) == failed_batches(all),
            failure_count == failures * batch_size,
            succeeded_items(all) <= usize::MAX,
            failed_batches(all) * batch_size <= usize::MAX,
            match last_error {
                None => last_failure(all) == last_failure(rest@),
                Some(e) => last_failure(all) matches Some(k) && all[k] == Err::<usize, SeedError>(e),
            },
        decreases rest.len(),
    {
        let ghost before = rest@;
        proof {
            lemma_tally_bounds(before.drop_last());
            lemma_tally_bounds(before);
        }
        let outcome = rest.pop().unwrap();
        assert(rest@ =~= all.take(rest@.len() as int));
        match outcome {
            Ok(n) => {
                success_count = success_count + n;
            },
            Err(e) => {
                assert((failures + 1) * batch_size <= failed_batches(all) * batch_size) by (nonlinear_arith)
                    requires
                        failures + 1 <= failed_batches(all),
                ;
                assert((failures + 1) * batch_size == failures * batch_size + batch_size) by (nonlinear_arith);
                failures = failures + 1;
                failure_count = failure_count + batch_size;
                if last_error.is_none() {
                    assert(all[before.len() - 1] == before.last());
                    last_error = Some(e);
                }
            },
        }
    }
    proof {
        lemma_failed_batches_counts_errors(all);
        assert(failure_count == batch_size * failed_batches(all)) by (nonlinear_arith)
            requires
                failure_count == failed_batches(all) * batch_size,
        ;
    }
    RunSummary { success_count, failure_count, last_error }
}

impl RunSummary {
    /// The result of the run: the last batch error, if any batch failed.
    pub fn into_result(self) -> (r: Result<(), SeedError>)
        ensures
            match self.last_error {
                Some(e) => r == Err::<(), SeedError>(e),
                None => r is Ok,
            },
    {
        match self.last_error {
            Some(e) => Err(e),
            None => Ok(()),
        }
    }
}

/// The outcomes of a run in which batch `k` of the plan wrote its whole range.
pub open spec fn all_batches_written(len: int, size: int, outcomes: Seq<Result<usize, SeedError>>) -> bool {
    &&& outcomes.len() == batch_count(len, size)
    &&& forall|k: int|
        0 <= k < outcomes.len() ==> (#[trigger] outcomes[k] matches Ok(n) && n == batch_range(len, size, k).1
            - batch_range(len, size, k).0)
}

proof fn lemma_written_prefix(len: int, size: int, outcomes: Seq<Result<usize, SeedError>>, n: int)
    requires
        len >= 0,
        size > 0,
        all_batches_written(len, size, outcomes),
        0 <= n <= outcomes.len(),
    ensures
        succeeded_items(outcomes.take(n)) == (if n * size <= len {
            n * size
        } else {
            len
        }),
        failed_batches(outcomes.take(n)) == 0,
        last_failure(outcomes.take(n)) is None,
    decreases n,
{
    lemma_batch_count(len, size, 0);
    if n == 0 {
        assert(outcomes.take(0) =~= Seq::<Result<usize, SeedError>>::empty());
    } else {
        lemma_written_prefix(len, size, outcomes, n - 1);
        assert(outcomes.take(n).drop_last() =~= outcomes.take(n - 1));
        assert(outcomes.take(n).last() == outcomes[n - 1]);
        let c = batch_count(len, size);
        assert((n - 1) * size < len) by (nonlinear_arith)
            requires
                n <= c,
                (c - 1) * size < len,
                size > 0,
                c * size >= len,
                len > 0 || c == 0,
        ;
        assert(n * size == (n - 1) * size + size) by (nonlinear_arith);
    }
}

/// When every batch of the plan writes its whole range, the run counts every
/// item as written and reports no failure.
pub proof fn lemma_full_run_counts_every_item(
    len: int,
    size: int,
    outcomes: Seq<Result<usize, SeedError>>,
)
    requires
        len >= 0,
        size > 0,
        all_batches_written(len, size, outcomes),
    ensures
        succeeded_items(outcomes) == len,
        failed_batches(outcomes) == 0,
        last_failure(outcomes) is None,
{
    let c = outcomes.len() as int;
    lemma_batch_count(len, size, 0);
    lemma_written_prefix(len, size, outcomes, c);
    assert(outcomes.take(c) =~= outcomes);
}

/// The delay before retry `k` of an exponential back-off from `base`
/// milliseconds: `base` to the power `k + 1`, held at `u64::MAX` once it
/// would exceed it.
pub open spec fn backoff_millis(base: nat, k: nat) -> nat
    decreases k,
{
    if k == 0 {
        base
    } else {
        let product = backoff_millis(base, (k - 1) as nat) * base;
        if product <= u64::MAX {
            product
        } else {
            u64::MAX as nat
        }
    }
}

/// Calls `tokio_retry::strategy::ExponentialBackoff::from_millis(base)` and
/// takes its first `count` delays, in milliseconds. tokio-retry's source
/// starts at `base` and multiplies by `base` after each delay with
/// `saturating_mul`, the factor being 1; the contract states exactly that.
#[verifier::external_body]
fn exponential_backoff_millis(base: u64, count: usize) -> (delays: Vec<u64>)
    ensures
        delays@.len() == count,
        forall|k: int| 0 <= k < count ==> #[trigger] delays@[k] == backoff_millis(base as nat, k as nat),
{
    ExponentialBackoff::from_millis(base).take(count).map(|d| d.as_millis() as u64).collect()
}

/// The delays, in milliseconds and before jitter, between the attempts to
/// write a batch: one per retry, growing from 100 ms by a factor of 100.
pub fn retry_delays(retries: usize) -> (delays: Vec<u64>)
    ensures
        delays@.len() == retries,
        forall|k: int| 0 <= k < retries ==> #[trigger] delays@[k] == backoff_millis(100, k as nat),
{
    exponential_backoff_millis(100, retries)
}

/// Each back-off delay is at least the one before it.
pub proof fn lemma_backoff_never_shrinks(base: nat, i: nat, j: nat)
    requires
        1 <= base <= u64::MAX,
        i <= j,
    ensures
        backoff_millis(base, i) <= backoff_millis(base, j),
        backoff_millis(base, j) <= u64::MAX,
    decreases j,
{
    if j > 0 {
        let prev = backoff_millis(base, (j - 1) as nat);
        lemma_backoff_never_shrinks(base, (j - 1) as nat, (j - 1) as nat);
        assert(prev * base >= prev) by (nonlinear_arith)
            requires
                base >= 1,
        ;
        if i < j {
            lemma_backoff_never_shrinks(base, i, (j - 1) as nat);
        }
    }
}


/// Every failed outcome counts as one failed batch: the failed batches are
/// the outcomes that are errors.
pub proof fn lemma_failed_batches_counts_errors(outcomes: Seq<Result<usize, SeedError>>)
    ensures
        failed_batches(outcomes) == outcomes.filter(|o: Result<usize, SeedError>| o is Err).len(),
    decreases outcomes.len(),
{
    if outcomes.len() > 0 {
        let rest = outcomes.drop_last();
        lemma_failed_batches_counts_errors(rest);
        assert(rest.push(outcomes.last()) =~= outcomes);
        rest.lemma_filter_len_push(|o: Result<usize, SeedError>| o is Err, outcomes.last());
    }
}

/// One more outcome at the end of a run: a failure adds one failed batch and
/// becomes the last failure; a success adds the items it wrote and leaves the
/// failures as they were.
pub proof fn lemma_tally_of_one_more_outcome(
    outcomes: Seq<Result<usize, SeedError>>,
    outcome: Result<usize, SeedError>,
)
    ensures
        outcome is Err ==> failed_batches(outcomes.push(outcome)) == failed_batches(outcomes) + 1,
        outcome is Err ==> succeeded_items(outcomes.push(outcome)) == succeeded_items(outcomes),
        outcome is Err ==> last_failure(outcomes.push(outcome)) == Some(outcomes.len() as int),
        outcome matches Ok(n) ==> failed_batches(outcomes.push(outcome)) == failed_batches(outcomes),
        outcome matches Ok(n) ==> succeeded_items(outcomes.push(outcome)) == succeeded_items(outcomes)
            + n,
        outcome is Ok ==> last_failure(outcomes.push(outcome)) == last_failure(outcomes),
{
    assert(outcomes.push(outcome).drop_last() =~= outcomes);
}


/// The batches tile the items in order: the first starts at item 0, each one
/// ends where the next starts and holds `size` items, and the last ends at
/// `len` and holds between 1 and `size` items.
pub proof fn lemma_batches_tile_the_items(len: int, size: int, k: int)
    requires
        len >= 0,
        size > 0,
        0 <= k < batch_count(len, size),
    ensures
        k == 0 ==> batch_range(len, size, k).0 == 0,
        k + 1 < batch_count(len, size) ==> batch_range(len, size, k).1 == batch_range(len, size, k + 1).0
            && batch_range(len, size, k).1 - batch_range(len, size, k).0 == size,
        k + 1 == batch_count(len, size) ==> batch_range(len, size, k).1 == len && 0 < len - batch_range(
            len,
            size,
            k,
        ).0 <= size,
{
    lemma_batch_count(len, size, 0);
    let c = batch_count(len, size);
    assert((k + 1) * size - k * size == size) by (nonlinear_arith);
    if k + 1 < c {
        assert((k + 1) * size <= (c - 1) * size) by (nonlinear_arith)
            requires
                k + 1 <= c - 1,
                size > 0,
        ;
    } else {
        assert(k == c - 1);
        assert(c * size - (c - 1) * size == size) by (nonlinear_arith);
    }
    if k == 0 {
        assert(k * size == 0);
    }
}

/// The back-off delays in closed form: retry `k` waits `base` to the power
/// `k + 1` milliseconds, or `u64::MAX` where that power exceeds it.
pub proof fn lemma_backoff_is_capped_power(base: nat, k: nat)
    requires
        base <= u64::MAX,
    ensures
        backoff_millis(base, k) == if pow(base as int, k + 1) <= u64::MAX {
            pow(base as int, k + 1)
        } else {
            u64::MAX as int
        },
    decreases k,
{
    reveal(pow);
    let b = base as int;
    let m = u64::MAX as int;
    assert(pow(b, 0) == 1);
    assert(pow(b, k + 1) == b * pow(b, k));
    if k == 0 {
        assert(pow(b, 1) == b);
    } else {
        lemma_backoff_is_capped_power(base, (k - 1) as nat);
        let p = pow(b, k);
        assert(p == b * pow(b, (k - 1) as nat));
        if p > m {
            assert(b >= 1) by (nonlinear_arith)
                requires
                    p == b * pow(b, (k - 1) as nat),
                    p > m,
                    m > 0,
                    b >= 0,
            ;
            assert(b * p >= p) by (nonlinear_arith)
                requires
                    b >= 1,
                    p > m,
                    m > 0,
            ;
            assert(m * b >= m) by (nonlinear_arith)
                requires
                    b >= 1,
                    m >= 0,
            ;
        } else {
            assert(backoff_millis(base, (k - 1) as nat) == p);
            assert(p * b == b * p) by (nonlinear_arith);
        }
    }
}

} // verus!
