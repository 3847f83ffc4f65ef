//! The decisions of a publish run: which package is attempted next, whether
//! a failed attempt is retried and after what delay, and what is recorded.
//!
//! The run itself makes no attempt. Its caller attempts the package that
//! `current` names, hands the outcome to `record`, and waits when told to.

use vstd::prelude::*;
use vstd::arithmetic::power2::{
    lemma2_to64,
    lemma2_to64_rest,
    lemma_pow2_pos,
    lemma_pow2_strictly_increases,
    lemma_pow2_unfold,
    pow2,
};
use crate::publish::package::{Package, PackageView, PublishResult, PublishResultView, package_views};

verus! {

/// Seconds to wait after the `attempt`-th failed attempt of a package,
/// counted from 1: two to the power of `attempt`, or the largest delay that
/// can be told where that power is beyond it.
pub open spec fn backoff_delay(attempt: u32) -> u64 {
    if attempt < 64 {
        pow2(attempt as nat) as u64
    } else {
        u64::MAX
    }
}

/// Powers of two below the 64th fit the delay.
pub proof fn lemma_delay_fits(attempt: u32)
    requires
        attempt < 64,
    ensures
        pow2(attempt as nat) <= 0x8000_0000_0000_0000,
        backoff_delay(attempt) == pow2(attempt as nat),
{
    lemma2_to64_rest();
    if attempt < 63 {
        lemma_pow2_strictly_increases(attempt as nat, 63);
    }
}

/// Each delay of a package is twice the one before, and so larger, as long
/// as the power fits; the first delay that does not fit is still larger.
pub proof fn lemma_backoff_grows(attempt: u32)
    requires
        1 <= attempt < 64,
    ensures
        backoff_delay(attempt) < backoff_delay((attempt + 1) as u32),
        attempt < 63 ==> backoff_delay((attempt + 1) as u32) == 2 * backoff_delay(attempt),
{
    lemma_delay_fits(attempt);
    lemma_pow2_pos(attempt as nat);
    if attempt < 63 {
        lemma_delay_fits((attempt + 1) as u32);
        lemma_pow2_unfold((attempt + 1) as nat);
    }
}

/// The delay after the `attempt`-th failed attempt.
pub fn backoff_seconds(attempt: u32) -> (delay: u64)
    ensures
        delay == backoff_delay(attempt),
{
    if attempt >= 64 {
        return u64::MAX;
    }
    let mut delay: u64 = 1;
    let mut done: u32 = 0;
    proof {
        lemma2_to64();
    }
    while done < attempt
        invariant
            done <= attempt < 64,
            delay == pow2(done as nat),
        decreases attempt - done,
    {
        proof {
            lemma_delay_fits((done + 1) as u32);
            lemma_pow2_unfold((done + 1) as nat);
        }
        delay = delay * 2;
        done += 1;
    }
    proof {
        lemma_delay_fits(attempt);
    }
    delay
}

/// How one attempt ended: `Ok`, or the diagnostic text of the failure.
pub open spec fn outcome_view(outcome: Result<(), String>) -> Result<(), Seq<char>> {
    match outcome {
        Ok(_) => Ok(()),
        Err(text) => Err(text@),
    }
}

/// The views of a list of results, in order.
pub open spec fn result_views(v: Seq<PublishResult>) -> Seq<PublishResultView> {
    Seq::new(v.len(), |i: int| v[i]@)
}

/// A publish run as mathematical values.
pub struct RunView {
    /// The packages, in the order in which they are published.
    pub packages: Seq<PackageView>,
    /// How many times a failed package is attempted again.
    pub max_retries: u32,
    /// One result for each package that is done.
    pub results: Seq<PublishResultView>,
    /// Failed attempts of the current package so far.
    pub attempt: u32,
}

/// The run before its first attempt.
pub open spec fn start(packages: Seq<PackageView>, max_retries: u32) -> RunView {
    RunView { packages, max_retries, results: Seq::empty(), attempt: 0 }
}

/// The results are those of the first packages, in package order, and the
/// failed attempts are within the limit.
pub open spec fn run_wf(run: RunView) -> bool {
    &&& run.results.len() <= run.packages.len()
    &&& run.attempt <= run.max_retries
    &&& forall|i: int|
        0 <= i < run.results.len() ==> (#[trigger] run.results[i]).package_name
            == run.packages[i].name
}

/// Every package has its result.
pub open spec fn is_finished(run: RunView) -> bool {
    run.results.len() >= run.packages.len()
}

/// The result that ends the current package on `outcome`, if it ends it.
pub open spec fn settled(run: RunView, outcome: Result<(), Seq<char>>) -> Option<PublishResultView> {
    if is_finished(run) {
        None
    } else {
        let package_name = run.packages[run.results.len() as int].name;
        match outcome {
            Ok(_) => Some(
                PublishResultView { package_name, success: true, error: None, retries: run.attempt },
            ),
            Err(text) => if run.attempt < run.max_retries {
                None
            } else {
                Some(
                    PublishResultView {
                        package_name,
                        success: false,
                        error: Some(text),
                        retries: run.attempt,
                    },
                )
            },
        }
    }
}

/// The delay before the next attempt of the current package, if `outcome`
/// leads to one.
pub open spec fn wait_after(run: RunView, outcome: Result<(), Seq<char>>) -> Option<u64> {
    if !is_finished(run) && outcome is Err && run.attempt < run.max_retries {
        Some(backoff_delay((run.attempt + 1) as u32))
    } else {
        None
    }
}

/// The run after `outcome` of an attempt of the current package. A finished
/// run stays as it is.
pub open spec fn step(run: RunView, outcome: Result<(), Seq<char>>) -> RunView {
    if is_finished(run) {
        run
    } else {
        match settled(run, outcome) {
            Some(result) => RunView { results: run.results.push(result), attempt: 0, ..run },
            None => RunView { attempt: (run.attempt + 1) as u32, ..run },
        }
    }
}

/// The run after the attempts `outcomes`, in turn.
pub open spec fn step_all(run: RunView, outcomes: Seq<Result<(), Seq<char>>>) -> RunView
    decreases outcomes.len(),
{
    if outcomes.len() == 0 {
        run
    } else {
        step(step_all(run, outcomes.drop_last()), outcomes.last())
    }
}

/// Attempts that all failed, with the diagnostic texts `errors`.
pub open spec fn failures(errors: Seq<Seq<char>>) -> Seq<Result<(), Seq<char>>> {
    Seq::new(errors.len(), |i: int| Err(errors[i]))
}

/// A step keeps a run well formed.
pub proof fn lemma_step_keeps_wf(run: RunView, outcome: Result<(), Seq<char>>)
    requires
        run_wf(run),
    ensures
        run_wf(step(run, outcome)),
        step(run, outcome).packages == run.packages,
        step(run, outcome).max_retries == run.max_retries,
{
}

/// Whatever the attempts bring, the results stand in the order of the
/// packages: the `i`-th result is that of the `i`-th package.
pub proof fn lemma_results_follow_packages(
    packages: Seq<PackageView>,
    max_retries: u32,
    outcomes: Seq<Result<(), Seq<char>>>,
)
    ensures
        run_wf(step_all(start(packages, max_retries), outcomes)),
        step_all(start(packages, max_retries), outcomes).packages == packages,
        step_all(start(packages, max_retries), outcomes).max_retries == max_retries,
    decreases outcomes.len(),
{
    if outcomes.len() > 0 {
        lemma_results_follow_packages(packages, max_retries, outcomes.drop_last());
        lemma_step_keeps_wf(
            step_all(start(packages, max_retries), outcomes.drop_last()),
            outcomes.last(),
        );
    }
}

/// While a fresh package keeps failing and retries are left, nothing is
/// recorded: after `errors.len()` failures, that many attempts are counted.
pub proof fn lemma_failures_are_retried(run: RunView, errors: Seq<Seq<char>>)
    requires
        run_wf(run),
        !is_finished(run),
        run.attempt == 0,
        errors.len() <= run.max_retries,
    ensures
        step_all(run, failures(errors)) == (RunView { attempt: errors.len() as u32, ..run }),
    decreases errors.len(),
{
    if errors.len() > 0 {
        let earlier = errors.drop_last();
        lemma_failures_are_retried(run, earlier);
        assert(failures(errors).drop_last() =~= failures(earlier));
        assert(failures(errors).last() == Err::<(), Seq<char>>(errors.last()));
    }
}

/// A package whose attempts all fail is attempted once and then retried
/// `max_retries` times, no more and no fewer: the result is recorded by the
/// failure that follows the last retry, counts `max_retries` retries and
/// carries the text of that last failure.
pub proof fn lemma_gives_up_after_max_retries(run: RunView, errors: Seq<Seq<char>>)
    requires
        run_wf(run),
        !is_finished(run),
        run.attempt == 0,
        errors.len() == run.max_retries + 1,
    ensures
        forall|k: int|
            0 <= k <= run.max_retries ==> (#[trigger] step_all(
                run,
                failures(errors.take(k)),
            )).results == run.results,
        step_all(run, failures(errors)).results == run.results.push(
            PublishResultView {
                package_name: run.packages[run.results.len() as int].name,
                success: false,
                error: Some(errors.last()),
                retries: run.max_retries,
            },
        ),
        step_all(run, failures(errors)).attempt == 0,
{
    assert forall|k: int| 0 <= k <= run.max_retries implies (#[trigger] step_all(
        run,
        failures(errors.take(k)),
    )).results == run.results by {
        lemma_failures_are_retried(run, errors.take(k));
    }
    let earlier = errors.drop_last();
    lemma_failures_are_retried(run, earlier);
    assert(failures(errors).drop_last() =~= failures(earlier));
    assert(failures(errors).last() == Err::<(), Seq<char>>(errors.last()));
}

/// The delays that the failures of one package call for are the backoff
/// delays of the attempts 1, 2, 3 and so on.
pub proof fn lemma_delays_of_a_failing_package(run: RunView, errors: Seq<Seq<char>>, next: Seq<char>)
    requires
        run_wf(run),
        !is_finished(run),
        run.attempt == 0,
        errors.len() < run.max_retries,
    ensures
        wait_after(step_all(run, failures(errors)), Err(next)) == Some(
            backoff_delay((errors.len() + 1) as u32),
        ),
{
    lemma_failures_are_retried(run, errors);
}

/// A result for the next package, put after the results of a well-formed
/// run, keeps the results in package order.
proof fn lemma_names_match(before: RunView, packages: Seq<Package>, results: Seq<PublishResult>)
    requires
        run_wf(before),
        before.packages == package_views(packages),
        results.len() == before.results.len() + 1,
        results.len() <= packages.len(),
        result_views(results.drop_last()) == before.results,
        results.last()@.package_name == packages[results.len() - 1]@.name,
    ensures
        forall|i: int|
            0 <= i < results.len() ==> (#[trigger] result_views(results)[i]).package_name
                == package_views(packages)[i].name,
{
    assert forall|i: int| 0 <= i < results.len() implies (#[trigger] result_views(
        results,
    )[i]).package_name == package_views(packages)[i].name by {
        if i < results.len() - 1 {
            assert(result_views(results.drop_last())[i] == results[i]@);
            assert(before.results[i].package_name == before.packages[i].name);
        }
    }
}

/// A publish run: the packages in publish order, the results so far, and
/// the failed attempts of the package that is being published.
pub struct PublishRun {
    packages: Vec<Package>,
    max_retries: u32,
    results: Vec<PublishResult>,
    attempt: u32,
}

impl View for PublishRun {
    type V = RunView;

    closed spec fn view(&self) -> RunView {
        RunView {
            packages: package_views(self.packages@),
            max_retries: self.max_retries,
            results: result_views(self.results@),
            attempt: self.attempt,
        }
    }
}

impl PublishRun {
    #[verifier::type_invariant]
    spec fn well_formed(self) -> bool {
        run_wf(self@)
    }

    /// A run over `packages`, which are published in the order given.
    pub fn new(packages: Vec<Package>, max_retries: u32) -> (run: PublishRun)
        ensures
            run@ == start(package_views(packages@), max_retries),
    {
        let run = PublishRun { packages, max_retries, results: Vec::new(), attempt: 0 };
        assert(run@.results =~= Seq::empty());
        run
    }

    /// Whether every package has its result.
    pub fn finished(&self) -> (done: bool)
        ensures
            run_wf(self@),
            done == is_finished(self@),
    {
        proof {
            use_type_invariant(self);
        }
        self.results.len() >= self.packages.len()
    }

    /// The package to attempt now, or `None` when the run is finished.
    pub fn current(&self) -> (package: Option<&Package>)
        ensures
            run_wf(self@),
            match package {
                Some(p) => !is_finished(self@) && p@ == self@.packages[self@.results.len() as int],
                None => is_finished(self@),
            },
    {
        proof {
            use_type_invariant(self);
        }
        if self.results.len() < self.packages.len() {
            Some(&self.packages[self.results.len()])
        } else {
            None
        }
    }

    /// Failed attempts of the current package so far.
    pub fn attempt(&self) -> (attempt: u32)
        ensures
            attempt == self@.attempt,
    {
        self.attempt
    }

    /// The results so far, one for each package that is done, in the order
    /// of the packages.
    pub fn results(&self) -> (results: &Vec<PublishResult>)
        ensures
            run_wf(self@),
            result_views(results@) == self@.results,
    {
        proof {
            use_type_invariant(self);
        }
        &self.results
    }

    /// Takes in the outcome of an attempt of the current package and gives
    /// the run as it then stands, with the delay to wait if the package is
    /// to be attempted again.
    ///
    /// A success ends the package with the retries made so far. A failure
    /// is retried while fewer than `max_retries` retries were made.
    /// Otherwise the failure ends the package, with `max_retries` retries
    /// and the failure's text. The run then goes on with the next package
    /// whatever the result was.
    pub fn record(self, outcome: Result<(), String>) -> (next: (PublishRun, Option<u64>))
        ensures
            run_wf(self@),
            next.0@ == step(self@, outcome_view(outcome)),
            next.1 == wait_after(self@, outcome_view(outcome)),
    {
        proof {
            use_type_invariant(&self);
        }
        let ghost before = self@;
        let PublishRun { packages, max_retries, mut results, attempt } = self;
        let ghost earlier = results@;
        let done = results.len();
        if done >= packages.len() {
            return (PublishRun { packages, max_retries, results, attempt }, None);
        }
        match outcome {
            Ok(_) => {
                let result = PublishResult {
                    package_name: packages[done].name.clone(),
                    success: true,
                    error: None,
                    retries: attempt,
                };
                results.push(result);
                proof {
                    assert(results@.drop_last() =~= earlier);
                    lemma_names_match(before, packages@, results@);
                }
                let run = PublishRun { packages, max_retries, results, attempt: 0 };
                assert(run@.results =~= before.results.push(result@));
                (run, None)
            },
            Err(text) => {
                if attempt < max_retries {
                    let run = PublishRun { packages, max_retries, results, attempt: attempt + 1 };
                    (run, Some(backoff_seconds(attempt + 1)))
                } else {
                    let result = PublishResult {
                        package_name: packages[done].name.clone(),
                        success: false,
                        error: Some(text),
                        retries: attempt,
                    };
                    results.push(result);
                    proof {
                        assert(results@.drop_last() =~= earlier);
                        lemma_names_match(before, packages@, results@);
                    }
                    let run = PublishRun { packages, max_retries, results, attempt: 0 };
                    assert(run@.results =~= before.results.push(result@));
                    (run, None)
                }
            },
        }
    }

    /// Ends the run and hands out its results: one for each package that
    /// is done, in the order of the packages.
    pub fn into_results(self) -> (results: Vec<PublishResult>)
        ensures
            run_wf(self@),
            result_views(results@) == self@.results,
    {
        proof {
            use_type_invariant(&self);
        }
        self.results
    }
}

/// Whether every result is a success.
pub fn all_succeeded(results: &Vec<PublishResult>) -> (ok: bool)
    ensures
        ok == forall|i: int| 0 <= i < results.len() ==> results[i].success,
{
    let mut i: usize = 0;
    while i < results.len()
        invariant
            i <= results.len(),
            forall|k: int| 0 <= k < i ==> results[k].success,
        decreases results.len() - i,
    {
        if !results[i].success {
            return false;
        }
        i += 1;
    }
    true
}

/// The number of failures among the first `n` results.
pub open spec fn failures_among(results: Seq<PublishResult>, n: int) -> nat
    decreases n,
{
    if n <= 0 {
        0
    } else {
        failures_among(results, n - 1) + if results[n - 1].success {
            0nat
        } else {
            1nat
        }
    }
}

/// The number of results that are failures.
pub fn count_failures(results: &Vec<PublishResult>) -> (count: usize)
    ensures
        count == failures_among(results@, results.len() as int),
{
    let mut count: usize = 0;
    let mut i: usize = 0;
    while i < results.len()
        invariant
            i <= results.len(),
            count == failures_among(results@, i as int),
            count <= i,
        decreases results.len() - i,
    {
        if !results[i].success {
            count += 1;
        }
        i += 1;
    }
    count
}

} // verus!
