//! Per-repository pipeline results and the run-wide aggregation policy:
//! the run succeeds exactly when no pipeline hit a fatal error, and the
//! first fatal error observed is the one the run reports. A per-file parse
//! failure marks its pipeline as not clean but is never fatal on its own.

use vstd::prelude::*;

use crate::errors::FatalError;
use crate::parse::ParseOutcome;

verus! {

/// What one repository's pipeline came to: a fatal error somewhere in
/// acquire or walk, or a completed scan with the parse failures it saw.
#[derive(Debug)]
pub enum PipelineResult {
    Fatal { error: FatalError },
    Scanned { failures: Vec<ParseOutcome> },
}

/// The membership test of a pipeline's failure list, as a predicate value.
pub open spec fn failure_pred() -> spec_fn(ParseOutcome) -> bool {
    |o: ParseOutcome| !(o is Success)
}

/// The run succeeds exactly when no pipeline ended fatally; parse failures
/// alone do not count.
pub open spec fn spec_run_ok(results: Seq<PipelineResult>) -> bool {
    forall|i: int| 0 <= i < results.len() ==> !(#[trigger] results[i] is Fatal)
}

/// `e` is the error of the first pipeline that ended fatally.
pub open spec fn is_first_fatal(results: Seq<PipelineResult>, e: FatalError) -> bool {
    exists|i: int|
        0 <= i < results.len() && results[i] == (PipelineResult::Fatal { error: e }) && (forall|
            j: int,
        |
            0 <= j < i ==> !(results[j] is Fatal))
}

/// Folds one repository's per-file outcomes into its pipeline result:
/// a completed scan keeping exactly the failures, in the order the
/// outcomes came in.
pub fn scan_result(outcomes: Vec<ParseOutcome>) -> (r: PipelineResult)
    ensures
        r matches PipelineResult::Scanned { failures } && failures@ == outcomes@.filter(
            failure_pred(),
        ),
{
    let mut failures: Vec<ParseOutcome> = Vec::new();
    let mut i: usize = 0;
    proof {
        reveal_with_fuel(Seq::<_>::filter, 2);
        assert(outcomes@.subrange(0, 0) =~= Seq::<ParseOutcome>::empty());
        assert(failures@ =~= outcomes@.subrange(0, 0).filter(failure_pred()));
    }
    while i < outcomes.len()
        invariant
            i <= outcomes.len(),
            failures@ == outcomes@.subrange(0, i as int).filter(failure_pred()),
        decreases outcomes.len() - i,
    {
        let ghost pre = outcomes@.subrange(0, i as int);
        match &outcomes[i] {
            ParseOutcome::Success => {},
            ParseOutcome::Failure { .. } => {
                failures.push(outcomes[i].clone());
            },
        }
        proof {
            reveal_with_fuel(Seq::<_>::filter, 2);
            assert(outcomes@.subrange(0, i as int + 1) =~= pre + seq![outcomes@[i as int]]);
            Seq::<ParseOutcome>::filter_distributes_over_add(
                pre,
                seq![outcomes@[i as int]],
                failure_pred(),
            );
            assert(seq![outcomes@[i as int]].drop_last() =~= Seq::<ParseOutcome>::empty());
            assert(failures@ =~= outcomes@.subrange(0, i as int + 1).filter(failure_pred()));
        }
        i = i + 1;
    }
    proof {
        assert(outcomes@.subrange(0, outcomes@.len() as int) =~= outcomes@);
    }
    PipelineResult::Scanned { failures }
}

/// Joins every pipeline's result into the run's outcome: success exactly
/// when no pipeline ended fatally, otherwise the first fatal error in the
/// order the results stand in.
pub fn run_outcome(results: Vec<PipelineResult>) -> (r: Result<(), FatalError>)
    ensures
        r is Ok <==> spec_run_ok(results@),
        r matches Err(e) ==> is_first_fatal(results@, e),
{
    let mut rest = results;
    let mut i: usize = 0;
    loop
        invariant
            i <= rest.len(),
            rest@ == results@,
            forall|j: int| 0 <= j < i ==> !(#[trigger] rest@[j] is Fatal),
        decreases rest.len() - i,
    {
        if i >= rest.len() {
            return Ok(());
        }
        let is_fatal = match &rest[i] {
            PipelineResult::Fatal { .. } => true,
            PipelineResult::Scanned { .. } => false,
        };
        if is_fatal {
            let taken = rest.remove(i);
            match taken {
                PipelineResult::Fatal { error } => {
                    proof {
                        assert(results@[i as int] == (PipelineResult::Fatal { error }));
                        assert(is_first_fatal(results@, error));
                    }
                    return Err(error);
                },
                PipelineResult::Scanned { .. } => {
                    proof {
                        assert(false);
                    }
                },
            }
        }
        i = i + 1;
    }
}

/// The process exit code the run ends with: zero exactly on success.
pub fn exit_code(run: &Result<(), FatalError>) -> (c: i32)
    ensures
        c == 0 <==> run is Ok,
{
    match run {
        Ok(()) => 0,
        Err(_) => 1,
    }
}

/// Aggregate-semantics law. A pipeline that completed its scan never fails
/// the run, however many per-file parse failures it reported; one that
/// ended in a fatal error — an acquisition failure among them — fails the
/// run whatever the other pipeline came to.
pub proof fn lemma_aggregate_semantics(a: PipelineResult, b: PipelineResult)
    ensures
        a is Scanned && b is Scanned ==> spec_run_ok(seq![a, b]),
        a is Fatal ==> !spec_run_ok(seq![a, b]),
{
    let s = seq![a, b];
    if a is Scanned && b is Scanned {
        assert forall|i: int| 0 <= i < s.len() implies !(#[trigger] s[i] is Fatal) by {
            if i == 0 {
                assert(s[0] == a);
            } else {
                assert(s[1] == b);
            }
        }
    }
    if a is Fatal {
        assert(s[0] is Fatal);
    }
}

} // verus!
