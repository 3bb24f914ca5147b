//! Mappers: how a rule changes a URL.
use vstd::prelude::*;
use crate::better_url::{UrlView, opt_view, filtered_query};
use crate::conditions::{Condition, ConditionError};
use crate::job_state::{Ctx, JobState, CommonCall};
use crate::string_source::{StringSource, StringSourceError};
use crate::text::{find_key, key_index};

verus! {

/// A change to a URL.
///
/// Every mapper is all-or-nothing: where it fails, the URL is left as it was.
#[derive(Debug)]
pub enum Mapper {
    /// Leaves the URL as it is.
    DoNothing,
    /// Always fails with [`MapperError::ExplicitError`].
    Error,
    /// Applies the contained mapper and returns its result unchanged.
    Debug(Box<Mapper>),
    /// Applies `then` where `condition` passes, else `otherwise`.
    If { condition: Condition, then: Box<Mapper>, otherwise: Box<Mapper> },
    /// Applies each mapper in order; stops at the first error.
    All(Vec<Mapper>),
    /// Applies the contained mapper and ignores its error.
    IgnoreError(Box<Mapper>),
    /// Applies `otherwise` where `attempt` fails.
    TryElse { attempt: Box<Mapper>, otherwise: Box<Mapper> },
    /// Applies the first mapper that does not fail; fails with the last error where all do.
    FirstNotError(Vec<Mapper>),
    /// Removes the query.
    RemoveQuery,
    /// Removes the query pairs with these names; a query left empty is removed.
    RemoveQueryParams(Vec<String>),
    /// Keeps only the query pairs with these names; a query left empty is removed.
    AllowQueryParams(Vec<String>),
    /// Removes the fragment.
    RemoveFragment,
    /// Sets the fragment to the value of the source, or removes it where there is none.
    SetFragment(StringSource),
    /// The named mapper of the commons, applied with the call's arguments.
    Common(CommonCall),
}

/// The errors that [`Mapper::apply`] can return.
#[derive(Debug)]
pub enum MapperError {
    /// [`Mapper::Error`] was applied.
    ExplicitError,
    /// A condition failed.
    ConditionError(ConditionError),
    /// A string source failed.
    StringSourceError(StringSourceError),
    /// Both sides of a [`Mapper::TryElse`] failed.
    TryElseError { try_error: Box<MapperError>, else_error: Box<MapperError> },
    /// No mapper of the commons has the called name.
    CommonMapperNotFound,
    /// Common calls were nested deeper than the job allows.
    CallDepthExceeded,
}

/// `c` with the URL `url`.
pub open spec fn with_url(c: Ctx, url: UrlView) -> Ctx {
    Ctx { url: url, ..c }
}

/// The result of `All` over `ms`.
pub open spec fn spec_mapper_all(ms: Seq<Mapper>, c: Ctx) -> Result<UrlView, MapperError>
    decreases c.budget, ms, 0nat,
{
    if ms.len() == 0 {
        Ok(c.url)
    } else {
        match ms[0].spec_apply(c) {
            Err(e) => Err(e),
            Ok(u) => spec_mapper_all(ms.subrange(1, ms.len() as int), with_url(c, u)),
        }
    }
}

/// The result of `FirstNotError` over `ms`.
pub open spec fn spec_mapper_first(ms: Seq<Mapper>, c: Ctx) -> Result<UrlView, MapperError>
    decreases c.budget, ms, 0nat,
{
    if ms.len() == 0 {
        Ok(c.url)
    } else if ms.len() == 1 {
        ms[0].spec_apply(c)
    } else {
        match ms[0].spec_apply(c) {
            Ok(u) => Ok(u),
            Err(_) => spec_mapper_first(ms.subrange(1, ms.len() as int), c),
        }
    }
}

/// Everything but the URL is the same in both states.
pub open spec fn same_frame(a: JobState, b: JobState) -> bool {
    &&& a.scratchpad == b.scratchpad
    &&& a.common_args == b.common_args
    &&& a.params == b.params
    &&& a.commons == b.commons
    &&& a.call_budget == b.call_budget
}

impl Mapper {
    /// The URL that [`Self::apply`] makes in the context `c`, or its error.
    pub open spec fn spec_apply(self, c: Ctx) -> Result<UrlView, MapperError>
        decreases c.budget, self, 1nat,
    {
        match self {
            Mapper::DoNothing => Ok(c.url),
            Mapper::Error => Err(MapperError::ExplicitError),
            Mapper::Debug(m) => m.spec_apply(c),
            Mapper::If { condition, then, otherwise } => match condition.spec_satisfied_by(c) {
                Err(e) => Err(MapperError::ConditionError(e)),
                Ok(true) => then.spec_apply(c),
                Ok(false) => otherwise.spec_apply(c),
            },
            Mapper::All(ms) => spec_mapper_all(ms@, c),
            Mapper::IgnoreError(m) => match m.spec_apply(c) {
                Ok(u) => Ok(u),
                Err(_) => Ok(c.url),
            },
            Mapper::TryElse { attempt, otherwise } => match attempt.spec_apply(c) {
                Ok(u) => Ok(u),
                Err(te) => match otherwise.spec_apply(c) {
                    Ok(u) => Ok(u),
                    Err(ee) => Err(
                        MapperError::TryElseError { try_error: Box::new(te), else_error: Box::new(ee) },
                    ),
                },
            },
            Mapper::FirstNotError(ms) => spec_mapper_first(ms@, c),
            Mapper::RemoveQuery => Ok(UrlView { query: None, ..c.url }),
            Mapper::RemoveQueryParams(names) => Ok(
                UrlView { query: filtered_query(c.url.query, names.deep_view(), false), ..c.url },
            ),
            Mapper::AllowQueryParams(names) => Ok(
                UrlView { query: filtered_query(c.url.query, names.deep_view(), true), ..c.url },
            ),
            Mapper::RemoveFragment => Ok(UrlView { fragment: None, ..c.url }),
            Mapper::SetFragment(source) => match source.spec_get(c) {
                Err(e) => Err(MapperError::StringSourceError(e)),
                Ok(f) => Ok(UrlView { fragment: f, ..c.url }),
            },
            Mapper::Common(call) => if c.budget == 0 {
                Err(MapperError::CallDepthExceeded)
            } else {
                match key_index(c.commons.mappers@, call.name@) {
                    Some(i) => if 0 <= i < c.commons.mappers@.len() {
                        c.commons.mappers@[i].1.spec_apply(
                            Ctx { common_args: Some(call.args), budget: (c.budget - 1) as nat, ..c },
                        )
                    } else {
                        Err(MapperError::CommonMapperNotFound)
                    },
                    None => Err(MapperError::CommonMapperNotFound),
                }
            },
        }
    }

    /// Applies this mapper to the job's URL; where it fails, the URL is left as it was.
    #[verifier::rlimit(100)]
    #[verifier::spinoff_prover]
    pub fn apply(&self, job_state: &mut JobState) -> (r: Result<(), MapperError>)
        ensures
            same_frame(*final(job_state), *old(job_state)),
            match r {
                Ok(()) => self.spec_apply(old(job_state).ctx()) == Ok::<UrlView, MapperError>(final(job_state).url@),
                Err(e) => self.spec_apply(old(job_state).ctx()) == Err::<UrlView, MapperError>(e)
                    && final(job_state).url@ == old(job_state).url@,
            },
        decreases old(job_state).call_budget, self, 1nat,
    {
        match self {
            Mapper::DoNothing => Ok(()),
            Mapper::Error => Err(MapperError::ExplicitError),
            Mapper::Debug(m) => m.apply(job_state),
            Mapper::If { condition, then, otherwise } => {
                let passed = condition.satisfied_by(&job_state.to_view());
                match passed {
                    Err(e) => Err(MapperError::ConditionError(e)),
                    Ok(true) => then.apply(job_state),
                    Ok(false) => otherwise.apply(job_state),
                }
            },
            Mapper::All(ms) => {
                let backup = job_state.url.duplicate();
                let ghost c0 = job_state.ctx();
                let mut i: usize = 0;
                assert(ms@.subrange(0, ms@.len() as int) =~= ms@);
                while i < ms.len()
                    invariant
                        *self == Mapper::All(*ms),
                        i <= ms@.len(),
                        same_frame(*job_state, *old(job_state)),
                        c0 == old(job_state).ctx(),
                        backup@ == old(job_state).url@,
                        spec_mapper_all(ms@, c0) == spec_mapper_all(
                            ms@.subrange(i as int, ms@.len() as int),
                            job_state.ctx(),
                        ),
                        job_state.ctx() == with_url(c0, job_state.url@),
                    decreases ms@.len() - i,
                {
                    let ghost rest = ms@.subrange(i as int, ms@.len() as int);
                    assert(rest[0] == ms@[i as int]);
                    assert(rest.subrange(1, rest.len() as int) =~= ms@.subrange(i + 1, ms@.len() as int));
                    proof {
                        vstd::std_specs::vec::axiom_vec_index_decreases(*ms, i as int);
                    }
                    match ms[i].apply(job_state) {
                        Ok(()) => {},
                        Err(e) => {
                            job_state.url = backup;
                            return Err(e);
                        },
                    }
                    i = i + 1;
                }
                Ok(())
            },
            Mapper::IgnoreError(m) => {
                match m.apply(job_state) {
                    Ok(()) => {},
                    Err(_) => {},
                }
                Ok(())
            },
            Mapper::TryElse { attempt, otherwise } => match attempt.apply(job_state) {
                Ok(()) => Ok(()),
                Err(te) => match otherwise.apply(job_state) {
                    Ok(()) => Ok(()),
                    Err(ee) => Err(
                        MapperError::TryElseError { try_error: Box::new(te), else_error: Box::new(ee) },
                    ),
                },
            },
            Mapper::FirstNotError(ms) => {
                if ms.len() == 0 {
                    return Ok(());
                }
                let last = ms.len() - 1;
                let mut i: usize = 0;
                assert(ms@.subrange(0, ms@.len() as int) =~= ms@);
                while i < last
                    invariant
                        *self == Mapper::FirstNotError(*ms),
                        last + 1 == ms@.len(),
                        i <= last,
                        same_frame(*job_state, *old(job_state)),
                        job_state.ctx() == old(job_state).ctx(),
                        job_state.url@ == old(job_state).url@,
                        spec_mapper_first(ms@, old(job_state).ctx()) == spec_mapper_first(
                            ms@.subrange(i as int, ms@.len() as int),
                            old(job_state).ctx(),
                        ),
                    decreases last - i,
                {
                    let ghost rest = ms@.subrange(i as int, ms@.len() as int);
                    assert(rest[0] == ms@[i as int]);
                    assert(rest.subrange(1, rest.len() as int) =~= ms@.subrange(i + 1, ms@.len() as int));
                    proof {
                        vstd::std_specs::vec::axiom_vec_index_decreases(*ms, i as int);
                    }
                    match ms[i].apply(job_state) {
                        Ok(()) => {
                            return Ok(());
                        },
                        Err(_) => {},
                    }
                    i = i + 1;
                }
                proof {
                    vstd::std_specs::vec::axiom_vec_index_decreases(*ms, last as int);
                }
                assert(ms@.subrange(last as int, ms@.len() as int)[0] == ms@[last as int]);
                ms[last].apply(job_state)
            },
            Mapper::RemoveQuery => {
                job_state.url.remove_query();
                Ok(())
            },
            Mapper::RemoveQueryParams(names) => {
                job_state.url.filter_query(names, false);
                Ok(())
            },
            Mapper::AllowQueryParams(names) => {
                job_state.url.filter_query(names, true);
                Ok(())
            },
            Mapper::RemoveFragment => {
                job_state.url.set_fragment(None);
                Ok(())
            },
            Mapper::SetFragment(source) => {
                let value = source.get(&job_state.to_view());
                match value {
                    Err(e) => Err(MapperError::StringSourceError(e)),
                    Ok(f) => {
                        job_state.url.set_fragment(f);
                        Ok(())
                    },
                }
            },
            Mapper::Common(call) => {
                if job_state.call_budget == 0 {
                    return Err(MapperError::CallDepthExceeded);
                }
                let commons = job_state.commons;
                match find_key(&commons.mappers, call.name.as_str()) {
                    Some(k) => {
                        let mut inner = JobState {
                            url: job_state.url.duplicate(),
                            scratchpad: job_state.scratchpad,
                            common_args: Some(&call.args),
                            params: job_state.params,
                            commons: commons,
                            call_budget: job_state.call_budget - 1,
                        };
                        match commons.mappers[k].1.apply(&mut inner) {
                            Ok(()) => {
                                job_state.url = inner.url;
                                Ok(())
                            },
                            Err(e) => Err(e),
                        }
                    },
                    None => Err(MapperError::CommonMapperNotFound),
                }
            },
        }
    }
}

} // verus!
