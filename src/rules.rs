//! Rules: a condition with a mapper, or a mapper chosen by the URL's host; and ordered
//! lists of them, applied to a URL all or nothing.
use vstd::prelude::*;
use crate::better_url::UrlView;
use crate::conditions::{Condition, ConditionError};
use crate::job_state::{Ctx, JobState};
use crate::mappers::{Mapper, MapperError, same_frame, with_url};
use crate::text::{find_key, key_index};

verus! {

/// When and how a URL is changed.
#[derive(Debug)]
pub enum Rule {
    /// Applies the mapper stored under the URL's host.
    HostMap(Vec<(String, Mapper)>),
    /// Applies `mapper` where `condition` passes.
    Normal { condition: Condition, mapper: Mapper },
}

/// The errors that [`Rule::apply`] can return.
#[derive(Debug)]
pub enum RuleError {
    /// The URL does not satisfy the rule's condition.
    FailedCondition,
    /// The condition failed.
    ConditionError(ConditionError),
    /// The mapper failed.
    MapperError(MapperError),
    /// The URL has no host to look up in a [`Rule::HostMap`].
    UrlHasNoHost,
    /// The URL's host is not in the [`Rule::HostMap`].
    HostNotInMap,
}

impl RuleError {
    /// Whether [`Rules::apply`] passes over this error.
    pub open spec fn spec_is_ignored(&self) -> bool {
        ||| *self is FailedCondition
        ||| *self is UrlHasNoHost
        ||| *self is HostNotInMap
    }

    /// Whether [`Rules::apply`] passes over this error.
    pub fn is_ignored(&self) -> (r: bool)
        ensures
            r == self.spec_is_ignored(),
    {
        match self {
            RuleError::FailedCondition | RuleError::UrlHasNoHost | RuleError::HostNotInMap => true,
            _ => false,
        }
    }
}

/// A mapper's result, with its error as a rule error.
pub open spec fn spec_map_result(r: Result<UrlView, MapperError>) -> Result<UrlView, RuleError> {
    match r {
        Ok(u) => Ok(u),
        Err(e) => Err(RuleError::MapperError(e)),
    }
}

impl Rule {
    /// The URL that [`Self::apply`] makes in the context `c`, or its error.
    #[verifier::opaque]
    pub open spec fn spec_apply(self, c: Ctx) -> Result<UrlView, RuleError> {
        match self {
            Rule::Normal { condition, mapper } => match condition.spec_satisfied_by(c) {
                Err(e) => Err(RuleError::ConditionError(e)),
                Ok(false) => Err(RuleError::FailedCondition),
                Ok(true) => spec_map_result(mapper.spec_apply(c)),
            },
            Rule::HostMap(map) => match c.url.host {
                None => Err(RuleError::UrlHasNoHost),
                Some(h) => match key_index(map@, h) {
                    Some(i) => if 0 <= i < map@.len() {
                        spec_map_result(map@[i].1.spec_apply(c))
                    } else {
                        Err(RuleError::HostNotInMap)
                    },
                    None => Err(RuleError::HostNotInMap),
                },
            },
        }
    }

    /// Applies the rule to the job's URL; where it fails, the URL is left as it was.
    pub fn apply(&self, job_state: &mut JobState) -> (r: Result<(), RuleError>)
        ensures
            same_frame(*final(job_state), *old(job_state)),
            match r {
                Ok(()) => self.spec_apply(old(job_state).ctx()) == Ok::<UrlView, RuleError>(final(job_state).url@),
                Err(e) => self.spec_apply(old(job_state).ctx()) == Err::<UrlView, RuleError>(e)
                    && final(job_state).url@ == old(job_state).url@,
            },
    {
        reveal(Rule::spec_apply);
        match self {
            Rule::Normal { condition, mapper } => {
                let passed = condition.satisfied_by(&job_state.to_view());
                match passed {
                    Err(e) => Err(RuleError::ConditionError(e)),
                    Ok(false) => Err(RuleError::FailedCondition),
                    Ok(true) => match mapper.apply(job_state) {
                        Ok(()) => Ok(()),
                        Err(e) => Err(RuleError::MapperError(e)),
                    },
                }
            },
            Rule::HostMap(map) => {
                let found = match &job_state.url.host {
                    None => None,
                    Some(h) => Some(find_key(map, h.as_str())),
                };
                match found {
                    None => Err(RuleError::UrlHasNoHost),
                    Some(None) => Err(RuleError::HostNotInMap),
                    Some(Some(i)) => match map[i].1.apply(job_state) {
                        Ok(()) => Ok(()),
                        Err(e) => Err(RuleError::MapperError(e)),
                    },
                }
            },
        }
    }
}

/// The result of applying `rules` in order in the context `c`: an ignored error leaves the
/// URL as it is and goes on; any other error ends the list.
pub open spec fn spec_apply_rules(rules: Seq<Rule>, c: Ctx) -> Result<UrlView, RuleError>
    decreases rules.len(),
{
    if rules.len() == 0 {
        Ok(c.url)
    } else {
        let rest = rules.subrange(1, rules.len() as int);
        match rules[0].spec_apply(c) {
            Ok(u) => spec_apply_rules(rest, with_url(c, u)),
            Err(e) => if e.spec_is_ignored() {
                spec_apply_rules(rest, c)
            } else {
                Err(e)
            },
        }
    }
}

/// An ordered list of rules.
#[derive(Debug)]
pub struct Rules(pub Vec<Rule>);

impl From<Vec<Rule>> for Rules {
    fn from(value: Vec<Rule>) -> (r: Rules) {
        Rules(value)
    }
}

impl vstd::std_specs::convert::FromSpecImpl<Vec<Rule>> for Rules {
    open spec fn obeys_from_spec() -> bool {
        true
    }

    open spec fn from_spec(v: Vec<Rule>) -> Rules {
        Rules(v)
    }
}

impl From<Rules> for Vec<Rule> {
    fn from(value: Rules) -> (r: Vec<Rule>) {
        value.0
    }
}

impl vstd::std_specs::convert::FromSpecImpl<Rules> for Vec<Rule> {
    open spec fn obeys_from_spec() -> bool {
        true
    }

    open spec fn from_spec(v: Rules) -> Vec<Rule> {
        v.0
    }
}

impl Rules {
    /// The rules as a slice.
    pub fn as_slice(&self) -> (r: &[Rule])
        ensures
            r@ == self.0@,
    {
        self.0.as_slice()
    }

    /// The rules as a mutable slice.
    pub fn as_mut_slice(&mut self) -> (r: &mut [Rule])
        ensures
            r@ == old(self).0@,
            final(self).0@ == final(r)@,
    {
        self.0.as_mut_slice()
    }

    /// Applies each rule in order to a scratch copy of the job's URL, passing over the
    /// errors [`RuleError::FailedCondition`], [`RuleError::UrlHasNoHost`] and
    /// [`RuleError::HostNotInMap`]. The job's URL takes the copy only when the whole list
    /// went through; on any other error it is left exactly as it was.
    pub fn apply(&self, job_state: &mut JobState) -> (r: Result<(), RuleError>)
        ensures
            same_frame(*final(job_state), *old(job_state)),
            match r {
                Ok(()) => spec_apply_rules(self.0@, old(job_state).ctx()) == Ok::<UrlView, RuleError>(
                    final(job_state).url@,
                ),
                Err(e) => spec_apply_rules(self.0@, old(job_state).ctx()) == Err::<UrlView, RuleError>(e),
            },
            r is Err ==> final(job_state).url@ == old(job_state).url@,
    {
        let mut scratch = JobState {
            url: job_state.url.duplicate(),
            scratchpad: job_state.scratchpad,
            common_args: job_state.common_args,
            params: job_state.params,
            commons: job_state.commons,
            call_budget: job_state.call_budget,
        };
        let ghost c0 = job_state.ctx();
        let rules = &self.0;
        let mut i: usize = 0;
        assert(rules@.subrange(0, rules@.len() as int) =~= rules@);
        while i < rules.len()
            invariant
                i <= rules@.len(),
                rules@ == self.0@,
                same_frame(scratch, *job_state),
                c0 == job_state.ctx(),
                *job_state == *old(job_state),
                scratch.ctx() == with_url(c0, scratch.url@),
                spec_apply_rules(rules@, c0) == spec_apply_rules(
                    rules@.subrange(i as int, rules@.len() as int),
                    scratch.ctx(),
                ),
            decreases rules@.len() - i,
        {
            let ghost rest = rules@.subrange(i as int, rules@.len() as int);
            assert(rest[0] == rules@[i as int]);
            assert(rest.subrange(1, rest.len() as int) =~= rules@.subrange(i + 1, rules@.len() as int));
            let ghost sc = scratch.ctx();
            match rules[i].apply(&mut scratch) {
                Ok(()) => {},
                Err(e) => {
                    if !e.is_ignored() {
                        assert(spec_apply_rules(rest, sc) == Err::<UrlView, RuleError>(e));
                        return Err(e);
                    }
                },
            }
            i = i + 1;
        }
        job_state.url = scratch.url;
        Ok(())
    }
}

} // verus!
