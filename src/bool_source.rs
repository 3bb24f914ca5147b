//! Boolean values computed from string sources, locations and matchers.
use vstd::prelude::*;
use vstd::utf8::encode_utf8;
use crate::job_state::{Ctx, JobStateView, has_flag};
use crate::string_location::{StringLocation, StringLocationError};
use crate::string_matcher::{StringMatcher, StringMatcherError};
use crate::string_source::{StringSource, StringSourceError};

verus! {

/// A way to get a boolean.
#[derive(Debug)]
pub enum BoolSource {
    /// Always `true`.
    Always,
    /// Always `false`.
    Never,
    /// Always fails with [`BoolSourceError::ExplicitError`].
    Error,
    /// Evaluates the contained source and returns its result unchanged.
    Debug(Box<BoolSource>),
    /// `then` where `condition` is `true`, else `otherwise`.
    If { condition: Box<BoolSource>, then: Box<BoolSource>, otherwise: Box<BoolSource> },
    /// The negation of the contained source.
    Not(Box<BoolSource>),
    /// `true` if all are; stops at the first `false` or error.
    All(Vec<BoolSource>),
    /// `true` if any is; stops at the first `true` or error.
    Any(Vec<BoolSource>),
    /// An error of the contained source counts as `true`.
    TreatErrorAsPass(Box<BoolSource>),
    /// An error of the contained source counts as `false`.
    TreatErrorAsFail(Box<BoolSource>),
    /// `otherwise` decides where `attempt` fails with an error.
    TryElse { attempt: Box<BoolSource>, otherwise: Box<BoolSource> },
    /// Whether `needle` stands in `haystack` at `location`; an absent value counts as the
    /// empty string where its flag says so.
    StringLocation {
        haystack: StringSource,
        needle: StringSource,
        haystack_none_to_empty_string: bool,
        needle_none_to_empty_string: bool,
        location: StringLocation,
    },
    /// Whether `string` satisfies `matcher`; an absent value counts as the empty string
    /// where `none_to_empty_string` says so.
    StringMatcher { string: StringSource, none_to_empty_string: bool, matcher: StringMatcher },
    /// Whether the params set the flag named by the source.
    FlagIsSet(StringSource),
}

/// The errors that [`BoolSource::get`] can return.
#[derive(Debug)]
pub enum BoolSourceError {
    /// [`BoolSource::Error`] was evaluated.
    ExplicitError,
    /// A string source failed.
    StringSourceError(StringSourceError),
    /// A string location could not be checked.
    StringLocationError(StringLocationError),
    /// A string matcher failed.
    StringMatcherError(StringMatcherError),
    /// A string source that had to give a value gave none.
    StringSourceIsNone,
    /// Both sides of a [`BoolSource::TryElse`] failed.
    TryElseError { try_error: Box<BoolSourceError>, else_error: Box<BoolSourceError> },
}

/// The value of `source`, the empty string for an absent one where `none_to_empty` holds.
pub open spec fn spec_needed_str(source: StringSource, none_to_empty: bool, c: Ctx) -> Result<
    Seq<char>,
    BoolSourceError,
> {
    match source.spec_get(c) {
        Err(e) => Err(BoolSourceError::StringSourceError(e)),
        Ok(Some(s)) => Ok(s),
        Ok(None) => if none_to_empty {
            Ok(Seq::<char>::empty())
        } else {
            Err(BoolSourceError::StringSourceIsNone)
        },
    }
}

fn needed_str(source: &StringSource, none_to_empty: bool, job_state: &JobStateView) -> (r: Result<
    String,
    BoolSourceError,
>)
    ensures
        match r {
            Ok(s) => spec_needed_str(*source, none_to_empty, job_state.ctx()) == Ok::<Seq<char>, BoolSourceError>(s@),
            Err(e) => spec_needed_str(*source, none_to_empty, job_state.ctx()) == Err::<Seq<char>, BoolSourceError>(e),
        },
{
    match source.get(job_state) {
        Err(e) => Err(BoolSourceError::StringSourceError(e)),
        Ok(Some(s)) => Ok(s),
        Ok(None) => if none_to_empty {
            Ok(String::new())
        } else {
            Err(BoolSourceError::StringSourceIsNone)
        },
    }
}

/// The result of `All` over `bs`.
pub open spec fn spec_bool_all(bs: Seq<BoolSource>, c: Ctx) -> Result<bool, BoolSourceError>
    decreases bs, 0nat,
{
    if bs.len() == 0 {
        Ok(true)
    } else {
        match bs[0].spec_get(c) {
            Ok(true) => spec_bool_all(bs.subrange(1, bs.len() as int), c),
            other => other,
        }
    }
}

/// The result of `Any` over `bs`.
pub open spec fn spec_bool_any(bs: Seq<BoolSource>, c: Ctx) -> Result<bool, BoolSourceError>
    decreases bs, 0nat,
{
    if bs.len() == 0 {
        Ok(false)
    } else {
        match bs[0].spec_get(c) {
            Ok(false) => spec_bool_any(bs.subrange(1, bs.len() as int), c),
            other => other,
        }
    }
}

impl BoolSource {
    /// What [`Self::get`] returns in the context `c`.
    pub open spec fn spec_get(self, c: Ctx) -> Result<bool, BoolSourceError>
        decreases self, 1nat,
    {
        match self {
            BoolSource::Always => Ok(true),
            BoolSource::Never => Ok(false),
            BoolSource::Error => Err(BoolSourceError::ExplicitError),
            BoolSource::Debug(b) => b.spec_get(c),
            BoolSource::If { condition, then, otherwise } => match condition.spec_get(c) {
                Ok(true) => then.spec_get(c),
                Ok(false) => otherwise.spec_get(c),
                Err(e) => Err(e),
            },
            BoolSource::Not(b) => match b.spec_get(c) {
                Ok(v) => Ok(!v),
                Err(e) => Err(e),
            },
            BoolSource::All(bs) => spec_bool_all(bs@, c),
            BoolSource::Any(bs) => spec_bool_any(bs@, c),
            BoolSource::TreatErrorAsPass(b) => match b.spec_get(c) {
                Ok(v) => Ok(v),
                Err(_) => Ok(true),
            },
            BoolSource::TreatErrorAsFail(b) => match b.spec_get(c) {
                Ok(v) => Ok(v),
                Err(_) => Ok(false),
            },
            BoolSource::TryElse { attempt, otherwise } => match attempt.spec_get(c) {
                Ok(v) => Ok(v),
                Err(te) => match otherwise.spec_get(c) {
                    Ok(v) => Ok(v),
                    Err(ee) => Err(
                        BoolSourceError::TryElseError { try_error: Box::new(te), else_error: Box::new(ee) },
                    ),
                },
            },
            BoolSource::StringLocation {
                haystack,
                needle,
                haystack_none_to_empty_string,
                needle_none_to_empty_string,
                location,
            } => match spec_needed_str(haystack, haystack_none_to_empty_string, c) {
                Err(e) => Err(e),
                Ok(h) => match spec_needed_str(needle, needle_none_to_empty_string, c) {
                    Err(e) => Err(e),
                    Ok(n) => match location.spec_satisfied_by(encode_utf8(h), encode_utf8(n)) {
                        Ok(v) => Ok(v),
                        Err(e) => Err(BoolSourceError::StringLocationError(e)),
                    },
                },
            },
            BoolSource::StringMatcher { string, none_to_empty_string, matcher } => match spec_needed_str(
                string,
                none_to_empty_string,
                c,
            ) {
                Err(e) => Err(e),
                Ok(s) => match matcher.spec_satisfied_by(s) {
                    Ok(v) => Ok(v),
                    Err(e) => Err(BoolSourceError::StringMatcherError(e)),
                },
            },
            BoolSource::FlagIsSet(name) => match spec_needed_str(name, false, c) {
                Err(e) => Err(e),
                Ok(n) => Ok(c.params.flags.deep_view().contains(n)),
            },
        }
    }

    /// Computes the boolean.
    pub fn get(&self, job_state: &JobStateView) -> (r: Result<bool, BoolSourceError>)
        ensures
            r == self.spec_get(job_state.ctx()),
        decreases self, 1nat,
    {
        match self {
            BoolSource::Always => Ok(true),
            BoolSource::Never => Ok(false),
            BoolSource::Error => Err(BoolSourceError::ExplicitError),
            BoolSource::Debug(b) => b.get(job_state),
            BoolSource::If { condition, then, otherwise } => match condition.get(job_state) {
                Ok(true) => then.get(job_state),
                Ok(false) => otherwise.get(job_state),
                Err(e) => Err(e),
            },
            BoolSource::Not(b) => match b.get(job_state) {
                Ok(v) => Ok(!v),
                Err(e) => Err(e),
            },
            BoolSource::All(bs) => {
                let mut i: usize = 0;
                assert(bs@.subrange(0, bs@.len() as int) =~= bs@);
                while i < bs.len()
                    invariant
                        *self == BoolSource::All(*bs),
                        i <= bs@.len(),
                        spec_bool_all(bs@, job_state.ctx()) == spec_bool_all(
                            bs@.subrange(i as int, bs@.len() as int),
                            job_state.ctx(),
                        ),
                    decreases bs@.len() - i,
                {
                    let ghost rest = bs@.subrange(i as int, bs@.len() as int);
                    assert(rest[0] == bs@[i as int]);
                    assert(rest.subrange(1, rest.len() as int) =~= bs@.subrange(i + 1, bs@.len() as int));
                    proof {
                        vstd::std_specs::vec::axiom_vec_index_decreases(*bs, i as int);
                    }
                    match bs[i].get(job_state) {
                        Ok(true) => {},
                        other => {
                            return other;
                        },
                    }
                    i = i + 1;
                }
                Ok(true)
            },
            BoolSource::Any(bs) => {
                let mut i: usize = 0;
                assert(bs@.subrange(0, bs@.len() as int) =~= bs@);
                while i < bs.len()
                    invariant
                        *self == BoolSource::Any(*bs),
                        i <= bs@.len(),
                        spec_bool_any(bs@, job_state.ctx()) == spec_bool_any(
                            bs@.subrange(i as int, bs@.len() as int),
                            job_state.ctx(),
                        ),
                    decreases bs@.len() - i,
                {
                    let ghost rest = bs@.subrange(i as int, bs@.len() as int);
                    assert(rest[0] == bs@[i as int]);
                    assert(rest.subrange(1, rest.len() as int) =~= bs@.subrange(i + 1, bs@.len() as int));
                    proof {
                        vstd::std_specs::vec::axiom_vec_index_decreases(*bs, i as int);
                    }
                    match bs[i].get(job_state) {
                        Ok(false) => {},
                        other => {
                            return other;
                        },
                    }
                    i = i + 1;
                }
                Ok(false)
            },
            BoolSource::TreatErrorAsPass(b) => match b.get(job_state) {
                Ok(v) => Ok(v),
                Err(_) => Ok(true),
            },
            BoolSource::TreatErrorAsFail(b) => match b.get(job_state) {
                Ok(v) => Ok(v),
                Err(_) => Ok(false),
            },
            BoolSource::TryElse { attempt, otherwise } => match attempt.get(job_state) {
                Ok(v) => Ok(v),
                Err(te) => match otherwise.get(job_state) {
                    Ok(v) => Ok(v),
                    Err(ee) => Err(
                        BoolSourceError::TryElseError { try_error: Box::new(te), else_error: Box::new(ee) },
                    ),
                },
            },
            BoolSource::StringLocation {
                haystack,
                needle,
                haystack_none_to_empty_string,
                needle_none_to_empty_string,
                location,
            } => match needed_str(haystack, *haystack_none_to_empty_string, job_state) {
                Err(e) => Err(e),
                Ok(h) => match needed_str(needle, *needle_none_to_empty_string, job_state) {
                    Err(e) => Err(e),
                    Ok(n) => match location.satisfied_by(h.as_str(), n.as_str()) {
                        Ok(v) => Ok(v),
                        Err(e) => Err(BoolSourceError::StringLocationError(e)),
                    },
                },
            },
            BoolSource::StringMatcher { string, none_to_empty_string, matcher } => match needed_str(
                string,
                *none_to_empty_string,
                job_state,
            ) {
                Err(e) => Err(e),
                Ok(s) => match matcher.satisfied_by(s.as_str()) {
                    Ok(v) => Ok(v),
                    Err(e) => Err(BoolSourceError::StringMatcherError(e)),
                },
            },
            BoolSource::FlagIsSet(name) => match needed_str(name, false, job_state) {
                Err(e) => Err(e),
                Ok(n) => Ok(has_flag(&job_state.params.flags, n.as_str())),
            },
        }
    }
}

} // verus!
