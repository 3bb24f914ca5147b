//! Boolean tests on one string.
use vstd::prelude::*;
use vstd::string::*;
use vstd::utf8::encode_utf8;
use crate::glob::{GlobWrapper, glob_match, glob_valid};
use crate::string_location::{StringLocation, StringLocationError};
use crate::text::contains_text;

verus! {

/// A test on a string.
#[derive(Debug)]
pub enum StringMatcher {
    /// Always passes.
    Always,
    /// Never passes.
    Never,
    /// Always fails with [`StringMatcherError::ExplicitError`].
    Error,
    /// Evaluates the contained matcher and returns its result unchanged.
    Debug(Box<StringMatcher>),
    /// An error of the contained matcher counts as a pass.
    TreatErrorAsPass(Box<StringMatcher>),
    /// An error of the contained matcher counts as a fail.
    TreatErrorAsFail(Box<StringMatcher>),
    /// `otherwise` decides where `attempt` fails with an error.
    TryElse { attempt: Box<StringMatcher>, otherwise: Box<StringMatcher> },
    /// Passes if all pass; stops at the first fail or error.
    All(Vec<StringMatcher>),
    /// Passes if any passes; stops at the first pass or error.
    Any(Vec<StringMatcher>),
    /// Passes if the contained matcher fails.
    Not(Box<StringMatcher>),
    /// The result of the first matcher that does not fail with an error; the last error
    /// where all do.
    FirstNotError(Vec<StringMatcher>),
    /// Passes if the string is one of these.
    InSet(Vec<String>),
    /// Passes if `value` stands in the string at `location`.
    StringLocation { location: StringLocation, value: String },
    /// Passes if the string matches the glob.
    Glob(GlobWrapper),
}

/// The errors that [`StringMatcher::satisfied_by`] can return.
#[derive(Debug)]
pub enum StringMatcherError {
    /// [`StringMatcher::Error`] was evaluated.
    ExplicitError,
    /// A string location could not be checked.
    StringLocationError(StringLocationError),
    /// Both sides of a [`StringMatcher::TryElse`] failed.
    TryElseError { try_error: Box<StringMatcherError>, else_error: Box<StringMatcherError> },
}

/// The result of `All` over `ms`.
pub open spec fn spec_matcher_all(ms: Seq<StringMatcher>, h: Seq<char>) -> Result<bool, StringMatcherError>
    decreases ms, 0nat,
{
    if ms.len() == 0 {
        Ok(true)
    } else {
        match ms[0].spec_satisfied_by(h) {
            Ok(true) => spec_matcher_all(ms.subrange(1, ms.len() as int), h),
            other => other,
        }
    }
}

/// The result of `Any` over `ms`.
pub open spec fn spec_matcher_any(ms: Seq<StringMatcher>, h: Seq<char>) -> Result<bool, StringMatcherError>
    decreases ms, 0nat,
{
    if ms.len() == 0 {
        Ok(false)
    } else {
        match ms[0].spec_satisfied_by(h) {
            Ok(false) => spec_matcher_any(ms.subrange(1, ms.len() as int), h),
            other => other,
        }
    }
}

/// The result of `FirstNotError` over `ms`.
pub open spec fn spec_matcher_first(ms: Seq<StringMatcher>, h: Seq<char>) -> Result<bool, StringMatcherError>
    decreases ms, 0nat,
{
    if ms.len() == 0 {
        Ok(false)
    } else if ms.len() == 1 {
        ms[0].spec_satisfied_by(h)
    } else {
        match ms[0].spec_satisfied_by(h) {
            Ok(b) => Ok(b),
            Err(_) => spec_matcher_first(ms.subrange(1, ms.len() as int), h),
        }
    }
}

impl StringMatcher {
    /// What [`Self::satisfied_by`] returns for `haystack`.
    pub open spec fn spec_satisfied_by(self, haystack: Seq<char>) -> Result<bool, StringMatcherError>
        decreases self, 1nat,
    {
        match self {
            StringMatcher::Always => Ok(true),
            StringMatcher::Never => Ok(false),
            StringMatcher::Error => Err(StringMatcherError::ExplicitError),
            StringMatcher::Debug(m) => m.spec_satisfied_by(haystack),
            StringMatcher::TreatErrorAsPass(m) => match m.spec_satisfied_by(haystack) {
                Ok(b) => Ok(b),
                Err(_) => Ok(true),
            },
            StringMatcher::TreatErrorAsFail(m) => match m.spec_satisfied_by(haystack) {
                Ok(b) => Ok(b),
                Err(_) => Ok(false),
            },
            StringMatcher::TryElse { attempt, otherwise } => match attempt.spec_satisfied_by(haystack) {
                Ok(b) => Ok(b),
                Err(te) => match otherwise.spec_satisfied_by(haystack) {
                    Ok(b) => Ok(b),
                    Err(ee) => Err(
                        StringMatcherError::TryElseError { try_error: Box::new(te), else_error: Box::new(ee) },
                    ),
                },
            },
            StringMatcher::All(ms) => spec_matcher_all(ms@, haystack),
            StringMatcher::Any(ms) => spec_matcher_any(ms@, haystack),
            StringMatcher::Not(m) => match m.spec_satisfied_by(haystack) {
                Ok(b) => Ok(!b),
                Err(e) => Err(e),
            },
            StringMatcher::FirstNotError(ms) => spec_matcher_first(ms@, haystack),
            StringMatcher::InSet(set) => Ok(set.deep_view().contains(haystack)),
            StringMatcher::StringLocation { location, value } => match location.spec_satisfied_by(
                encode_utf8(haystack),
                encode_utf8(value@),
            ) {
                Ok(b) => Ok(b),
                Err(e) => Err(StringMatcherError::StringLocationError(e)),
            },
            StringMatcher::Glob(g) => Ok(
                glob_valid(g.pattern@) && glob_match(g.pattern@, haystack, g.options.spec_tuple()),
            ),
        }
    }

    /// Tests `haystack`.
    pub fn satisfied_by(&self, haystack: &str) -> (r: Result<bool, StringMatcherError>)
        ensures
            r == self.spec_satisfied_by(haystack@),
        decreases self, 1nat,
    {
        match self {
            StringMatcher::Always => Ok(true),
            StringMatcher::Never => Ok(false),
            StringMatcher::Error => Err(StringMatcherError::ExplicitError),
            StringMatcher::Debug(m) => m.satisfied_by(haystack),
            StringMatcher::TreatErrorAsPass(m) => match m.satisfied_by(haystack) {
                Ok(b) => Ok(b),
                Err(_) => Ok(true),
            },
            StringMatcher::TreatErrorAsFail(m) => match m.satisfied_by(haystack) {
                Ok(b) => Ok(b),
                Err(_) => Ok(false),
            },
            StringMatcher::TryElse { attempt, otherwise } => match attempt.satisfied_by(haystack) {
                Ok(b) => Ok(b),
                Err(te) => match otherwise.satisfied_by(haystack) {
                    Ok(b) => Ok(b),
                    Err(ee) => Err(
                        StringMatcherError::TryElseError { try_error: Box::new(te), else_error: Box::new(ee) },
                    ),
                },
            },
            StringMatcher::All(ms) => {
                let mut i: usize = 0;
                assert(ms@.subrange(0, ms@.len() as int) =~= ms@);
                while i < ms.len()
                    invariant
                        *self == StringMatcher::All(*ms),
                        i <= ms@.len(),
                        spec_matcher_all(ms@, haystack@) == spec_matcher_all(
                            ms@.subrange(i as int, ms@.len() as int),
                            haystack@,
                        ),
                    decreases ms@.len() - i,
                {
                    let ghost rest = ms@.subrange(i as int, ms@.len() as int);
                    assert(rest[0] == ms@[i as int]);
                    assert(rest.subrange(1, rest.len() as int) =~= ms@.subrange(i + 1, ms@.len() as int));
                    proof {
                        vstd::std_specs::vec::axiom_vec_index_decreases(*ms, i as int);
                    }
                    match ms[i].satisfied_by(haystack) {
                        Ok(true) => {},
                        other => {
                            return other;
                        },
                    }
                    i = i + 1;
                }
                Ok(true)
            },
            StringMatcher::Any(ms) => {
                let mut i: usize = 0;
                assert(ms@.subrange(0, ms@.len() as int) =~= ms@);
                while i < ms.len()
                    invariant
                        *self == StringMatcher::Any(*ms),
                        i <= ms@.len(),
                        spec_matcher_any(ms@, haystack@) == spec_matcher_any(
                            ms@.subrange(i as int, ms@.len() as int),
                            haystack@,
                        ),
                    decreases ms@.len() - i,
                {
                    let ghost rest = ms@.subrange(i as int, ms@.len() as int);
                    assert(rest[0] == ms@[i as int]);
                    assert(rest.subrange(1, rest.len() as int) =~= ms@.subrange(i + 1, ms@.len() as int));
                    proof {
                        vstd::std_specs::vec::axiom_vec_index_decreases(*ms, i as int);
                    }
                    match ms[i].satisfied_by(haystack) {
                        Ok(false) => {},
                        other => {
                            return other;
                        },
                    }
                    i = i + 1;
                }
                Ok(false)
            },
            StringMatcher::Not(m) => match m.satisfied_by(haystack) {
                Ok(b) => Ok(!b),
                Err(e) => Err(e),
            },
            StringMatcher::FirstNotError(ms) => {
                if ms.len() == 0 {
                    return Ok(false);
                }
                let last = ms.len() - 1;
                let mut i: usize = 0;
                assert(ms@.subrange(0, ms@.len() as int) =~= ms@);
                while i < last
                    invariant
                        *self == StringMatcher::FirstNotError(*ms),
                        last + 1 == ms@.len(),
                        i <= last,
                        spec_matcher_first(ms@, haystack@) == spec_matcher_first(
                            ms@.subrange(i as int, ms@.len() as int),
                            haystack@,
                        ),
                    decreases last - i,
                {
                    let ghost rest = ms@.subrange(i as int, ms@.len() as int);
                    assert(rest[0] == ms@[i as int]);
                    assert(rest.subrange(1, rest.len() as int) =~= ms@.subrange(i + 1, ms@.len() as int));
                    proof {
                        vstd::std_specs::vec::axiom_vec_index_decreases(*ms, i as int);
                    }
                    match ms[i].satisfied_by(haystack) {
                        Ok(b) => {
                            return Ok(b);
                        },
                        Err(_) => {},
                    }
                    i = i + 1;
                }
                proof {
                    vstd::std_specs::vec::axiom_vec_index_decreases(*ms, last as int);
                }
                assert(ms@.subrange(last as int, ms@.len() as int)[0] == ms@[last as int]);
                ms[last].satisfied_by(haystack)
            },
            StringMatcher::InSet(set) => Ok(contains_text(set, haystack)),
            StringMatcher::StringLocation { location, value } => match location.satisfied_by(
                haystack,
                value.as_str(),
            ) {
                Ok(b) => Ok(b),
                Err(e) => Err(StringMatcherError::StringLocationError(e)),
            },
            StringMatcher::Glob(g) => Ok(g.matches(haystack)),
        }
    }
}

} // verus!
