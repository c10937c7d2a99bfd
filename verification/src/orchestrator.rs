//! The run's phase machine: resolve the work set, launch one pipeline per
//! repository, await them all, and conclude. The machine holds the run's
//! decisions; launching tasks and awaiting them happens outside the
//! library, which is handed each pipeline's result as it is observed.
//!
//! Whichever fatal error is observed first becomes the run's reported
//! error; under concurrent failures that choice is timing-dependent, which
//! is accepted. Every launched pipeline is still awaited: completion of
//! the run never precedes completion of its pipelines.

use vstd::prelude::*;

use crate::errors::DiscoveryError;
use crate::errors::FatalError;
use crate::pipeline::PipelineResult;
use crate::repo::Repo;

verus! {

/// Where a run stands.
#[derive(Debug)]
pub enum RunPhase {
    /// Discovery is still resolving the work set.
    ResolvingWorkSet,
    /// Every pipeline is launched; `pending` of them have not completed,
    /// and `first_fatal` holds the first fatal error observed so far.
    Awaiting { pending: usize, first_fatal: Option<FatalError> },
    /// Terminal: the run's fatal error, if any pipeline raised one.
    Done { fatal: Option<FatalError> },
}

impl RunPhase {
    /// A finished run succeeded when no fatal error was ever observed.
    pub open spec fn is_success(self) -> bool {
        self == (RunPhase::Done { fatal: None })
    }

    /// A run begins by resolving its work set.
    pub fn start() -> (p: RunPhase)
        ensures
            p is ResolvingWorkSet,
    {
        RunPhase::ResolvingWorkSet
    }

    /// The work set is resolved: a discovery failure ends the run at once;
    /// an empty work set ends it cleanly; otherwise one pipeline per
    /// repository is to be launched, and all of them awaited.
    pub fn work_set_resolved(self, resolution: Result<Vec<Repo>, DiscoveryError>) -> (r: (
        RunPhase,
        Vec<Repo>,
    ))
        requires
            self is ResolvingWorkSet,
        ensures
            resolution matches Err(e) ==> r.0 == (RunPhase::Done {
                fatal: Some(FatalError::Discovery(e)),
            }) && r.1@.len() == 0,
            resolution matches Ok(repos) ==> r.1 == repos && (if repos@.len() == 0 {
                r.0 == (RunPhase::Done { fatal: None })
            } else {
                r.0 == (RunPhase::Awaiting { pending: repos.len(), first_fatal: None })
            }),
    {
        match resolution {
            Err(e) => (RunPhase::Done { fatal: Some(FatalError::Discovery(e)) }, Vec::new()),
            Ok(repos) => {
                if repos.len() == 0 {
                    (RunPhase::Done { fatal: None }, repos)
                } else {
                    (RunPhase::Awaiting { pending: repos.len(), first_fatal: None }, repos)
                }
            },
        }
    }

    /// One pipeline completed. A fatal error is kept only if it is the
    /// first one observed; a completed scan changes nothing but the count,
    /// however many parse failures it reported. The run concludes when the
    /// last pipeline completes, and not before.
    pub fn pipeline_completed(self, result: PipelineResult) -> (r: RunPhase)
        requires
            self matches RunPhase::Awaiting { pending, .. } && pending > 0,
        ensures
            ({
                let observed = if self->Awaiting_first_fatal is Some {
                    self->Awaiting_first_fatal
                } else if result is Fatal {
                    Some(result->Fatal_error)
                } else {
                    None
                };
                if self->Awaiting_pending == 1 {
                    r == (RunPhase::Done { fatal: observed })
                } else {
                    r == (RunPhase::Awaiting {
                        pending: (self->Awaiting_pending - 1) as usize,
                        first_fatal: observed,
                    })
                }
            }),
    {
        match self {
            RunPhase::Awaiting { pending, first_fatal } => {
                let observed = match first_fatal {
                    Some(e) => Some(e),
                    None => match result {
                        PipelineResult::Fatal { error } => Some(error),
                        PipelineResult::Scanned { .. } => None,
                    },
                };
                if pending == 1 {
                    RunPhase::Done { fatal: observed }
                } else {
                    RunPhase::Awaiting { pending: pending - 1, first_fatal: observed }
                }
            },
            _ => self,
        }
    }
}

} // verus!
