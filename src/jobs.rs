//! Jobs: one URL text each, cleaned by a shared set of rules; and the round-robin plan that
//! hands jobs to workers and reads their results back in input order.
use vstd::prelude::*;
use crate::better_url::{BetterUrl, UrlView, parsed_url, serialization};
use crate::job_state::{Commons, Ctx, JobScratchpad, JobState, Params};
use crate::rules::{RuleError, Rules, spec_apply_rules};

verus! {

/// The error of a job whose input could not be made into a job.
#[derive(Debug, Clone, PartialEq, Eq, Structural)]
pub enum MakeJobError {
    /// The input is not a URL.
    InvalidUrl,
}

/// What a job gives: the cleaned URL, the error of the rules, or the error of making it.
pub type JobOutcome = Result<Result<String, RuleError>, MakeJobError>;

/// The view of a job outcome.
pub open spec fn outcome_view(o: JobOutcome) -> Result<Result<Seq<char>, RuleError>, MakeJobError> {
    match o {
        Ok(Ok(s)) => Ok(Ok(s@)),
        Ok(Err(e)) => Ok(Err(e)),
        Err(e) => Err(e),
    }
}

/// Everything the jobs of one run share.
#[derive(Debug)]
pub struct Jobs {
    /// The rules every job applies.
    pub rules: Rules,
    /// The flags and variables of the run.
    pub params: Params,
    /// The named sub-trees.
    pub commons: Commons,
    /// The scratchpad every job starts from.
    pub scratchpad: JobScratchpad,
    /// How deeply common calls may nest in one job.
    pub call_budget: usize,
}

impl Jobs {
    /// The context a job on `url` starts in.
    pub open spec fn start_ctx(&self, url: UrlView) -> Ctx {
        Ctx {
            url: url,
            scratchpad: self.scratchpad,
            common_args: None,
            params: self.params,
            commons: self.commons,
            budget: self.call_budget as nat,
        }
    }

    /// What [`Self::do_job`] gives for the input `input`.
    pub open spec fn spec_do_job(&self, input: Seq<char>) -> Result<Result<Seq<char>, RuleError>, MakeJobError> {
        match parsed_url(input) {
            None => Err(MakeJobError::InvalidUrl),
            Some(u) => match spec_apply_rules(self.rules.0@, self.start_ctx(u)) {
                Ok(cleaned) => Ok(Ok(serialization(cleaned))),
                Err(e) => Ok(Err(e)),
            },
        }
    }

    /// Parses `input` as a URL, applies the rules to it, and gives the cleaned URL's text.
    pub fn do_job(&self, input: &str) -> (r: JobOutcome)
        ensures
            outcome_view(r) == self.spec_do_job(input@),
    {
        let url = match BetterUrl::parse(input) {
            Ok(u) => u,
            Err(_) => {
                return Err(MakeJobError::InvalidUrl);
            },
        };
        let mut job_state = JobState {
            url: url,
            scratchpad: &self.scratchpad,
            common_args: None,
            params: &self.params,
            commons: &self.commons,
            call_budget: self.call_budget,
        };
        assert(job_state.ctx() == self.start_ctx(job_state.url@));
        match self.rules.apply(&mut job_state) {
            Ok(()) => Ok(Ok(job_state.url.to_text())),
            Err(e) => Ok(Err(e)),
        }
    }

    /// Runs the jobs one after the other; the outcomes come in input order.
    pub fn run(&self, inputs: &Vec<String>) -> (r: Vec<JobOutcome>)
        ensures
            r@.len() == inputs@.len(),
            forall|j: int| 0 <= j < inputs@.len() ==> outcome_view(#[trigger] r@[j]) == self.spec_do_job(inputs@[j]@),
    {
        let mut out: Vec<JobOutcome> = Vec::new();
        let mut i: usize = 0;
        while i < inputs.len()
            invariant
                i <= inputs@.len(),
                out@.len() == i,
                forall|j: int| 0 <= j < i ==> outcome_view(#[trigger] out@[j]) == self.spec_do_job(inputs@[j]@),
            decreases inputs@.len() - i,
        {
            let o = self.do_job(inputs[i].as_str());
            out.push(o);
            i = i + 1;
        }
        out
    }
}

/// The worker that input `index` goes to, among `workers`.
pub open spec fn spec_worker_for(index: int, workers: int) -> int {
    index % workers
}

/// The place of input `index` in its worker's queue: how many inputs went to that worker
/// before it.
pub open spec fn spec_queue_position(index: int, workers: int) -> int {
    index / workers
}

/// The worker that input `index` goes to: inputs are dealt out in turn.
pub fn worker_for(index: usize, workers: usize) -> (r: usize)
    requires
        workers > 0,
    ensures
        r == spec_worker_for(index as int, workers as int),
        r < workers,
{
    index % workers
}

/// The place of input `index` in the queue of its worker.
pub fn queue_position(index: usize, workers: usize) -> (r: usize)
    requires
        workers > 0,
    ensures
        r == spec_queue_position(index as int, workers as int),
{
    index / workers
}

/// The worker whose output the collector reads at step `step`, and which of that worker's
/// outputs it is: the collector visits the workers in turn.
pub fn collect_source(step: usize, workers: usize) -> (r: (usize, usize))
    requires
        workers > 0,
    ensures
        r.0 == spec_worker_for(step as int, workers as int),
        r.1 == spec_queue_position(step as int, workers as int),
        r.0 < workers,
{
    (step % workers, step / workers)
}

/// Dealing inputs out in turn and reading outputs back in turn meet exactly: at step `j`
/// the collector reads the output of input `j` and of no other input.
pub proof fn round_robin_keeps_order(i: int, j: int, workers: int)
    requires
        workers > 0,
        i >= 0,
        j >= 0,
    ensures
        (spec_worker_for(j, workers) == spec_worker_for(i, workers) && spec_queue_position(j, workers)
            == spec_queue_position(i, workers)) <==> i == j,
{
    vstd::arithmetic::div_mod::lemma_fundamental_div_mod(i, workers);
    vstd::arithmetic::div_mod::lemma_fundamental_div_mod(j, workers);
}

} // verus!
