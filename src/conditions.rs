//! Conditions: when a rule applies to a URL.
use vstd::prelude::*;
use vstd::utf8::encode_utf8;
use crate::better_url::{UrlPart, opt_view, path_segments, neg_index, resolve_index, UrlView};
use crate::job_state::{Ctx, JobStateView, CommonCall, has_flag, get_var, var_value};
use crate::string_location::{StringLocation, StringLocationError};
use crate::string_matcher::{StringMatcher, StringMatcherError};
use crate::string_source::{StringSource, StringSourceError};
use crate::text::{contains_text, find_key, key_index, same_text};

verus! {

/// What to do where a value that a condition needs is absent.
#[derive(Debug, Clone, Copy, PartialEq, Eq, Structural)]
pub enum IfError {
    /// Fail with the error.
    Error,
    /// Count as not satisfied.
    Fail,
    /// Count as satisfied.
    Pass,
}

impl IfError {
    /// What [`Self::apply`] returns for the error `e`.
    pub open spec fn spec_apply(self, e: ConditionError) -> Result<bool, ConditionError> {
        match self {
            IfError::Error => Err(e),
            IfError::Fail => Ok(false),
            IfError::Pass => Ok(true),
        }
    }

    /// Applies this policy to the error `e`.
    pub fn apply(&self, e: ConditionError) -> (r: Result<bool, ConditionError>)
        ensures
            r == self.spec_apply(e),
    {
        match self {
            IfError::Error => Err(e),
            IfError::Fail => Ok(false),
            IfError::Pass => Ok(true),
        }
    }
}

impl Default for IfError {
    fn default() -> (r: Self)
        ensures
            r == IfError::Error,
    {
        IfError::Error
    }
}

/// When a rule's mapper is applied.
#[derive(Debug)]
pub enum Condition {
    /// Always passes.
    Always,
    /// Never passes.
    Never,
    /// Always fails with [`ConditionError::ExplicitError`].
    Error,
    /// Evaluates the contained condition and returns its result unchanged.
    Debug(Box<Condition>),
    /// `then` where `condition` passes, else `otherwise`.
    If { condition: Box<Condition>, then: Box<Condition>, otherwise: Box<Condition> },
    /// Passes if the contained condition fails.
    Not(Box<Condition>),
    /// Passes if all pass; stops at the first fail or error.
    All(Vec<Condition>),
    /// Passes if any passes; stops at the first pass or error.
    Any(Vec<Condition>),
    /// The condition stored under the value of `part`; fails where there is none.
    PartMap { part: UrlPart, map: Vec<(String, Condition)> },
    /// The condition stored under the value of `value`; fails where there is none.
    StringMap { value: StringSource, map: Vec<(String, Condition)> },
    /// An error of the contained condition counts as a pass.
    TreatErrorAsPass(Box<Condition>),
    /// An error of the contained condition counts as a fail.
    TreatErrorAsFail(Box<Condition>),
    /// `otherwise` decides where `attempt` fails with an error.
    TryElse { attempt: Box<Condition>, otherwise: Box<Condition> },
    /// The result of the first condition that does not fail with an error; the last error
    /// where all do.
    FirstNotError(Vec<Condition>),
    /// Passes if the host is this one (`None`: if the URL has no host).
    HostIs(Option<String>),
    /// Passes if the URL has a host and it is one of these.
    HostIsOneOf(Vec<String>),
    /// Passes if the URL has a host.
    UrlHasHost,
    /// Passes if the query has a pair with this name.
    QueryHasParam(String),
    /// Passes if the path is this one (`None`: if the URL has no `/` path).
    PathIs(Option<String>),
    /// Passes if the path segments from `start` on (counted from the end when negative) match
    /// `matchers` one by one; with `strict`, having fewer segments than matchers fails.
    PathSegmentsMatch { start: isize, matchers: Vec<StringMatcher>, strict: bool },
    /// Passes if `part` equals the value of `value`, absence included.
    PartIs { part: UrlPart, value: StringSource },
    /// Passes if the value of `value` stands in `part` at `location`.
    PartContains {
        part: UrlPart,
        value: StringSource,
        location: StringLocation,
        if_part_null: IfError,
        if_value_null: IfError,
    },
    /// Passes if `part` satisfies `matcher`.
    PartMatches { part: UrlPart, matcher: StringMatcher, if_null: IfError },
    /// Passes if `part` is one of `values`; `if_null` where the URL has no such part.
    PartIsOneOf { part: UrlPart, values: Vec<String>, if_null: bool },
    /// Passes if the variable named by `name` has the value of `value`, absence included.
    VarIs { name: StringSource, value: StringSource },
    /// Passes if the current common call sets the flag.
    CommonFlagIsSet(StringSource),
    /// Passes if the job's scratchpad sets the flag.
    ScratchpadFlagIsSet(StringSource),
    /// Passes if the params set the flag.
    FlagIsSet(StringSource),
    /// Passes if the params set any flag.
    AnyFlagIsSet,
    /// Passes if both sources give the same value, absence included.
    StringIs { left: StringSource, right: StringSource },
    /// Passes if the value of `substring` stands in the value of `value` at `location`.
    StringContains { value: StringSource, substring: StringSource, location: StringLocation },
    /// Passes if the value of `value` satisfies `matcher`.
    StringMatches { value: StringSource, matcher: StringMatcher },
    /// The named condition of the commons, evaluated with the call's arguments.
    Common(CommonCall),
}

/// The errors that [`Condition::satisfied_by`] can return.
#[derive(Debug)]
pub enum ConditionError {
    /// [`Condition::Error`] was evaluated.
    ExplicitError,
    /// The URL does not have the requested part.
    PartIsNone,
    /// A string source that had to give a value gave none.
    StringSourceIsNone,
    /// The URL has no path segments.
    UrlDoesNotHaveAPath,
    /// The start of a segment range lies before the first segment.
    SegmentRangeNotFound,
    /// A string matcher failed.
    StringMatcherError(StringMatcherError),
    /// A string location could not be checked.
    StringLocationError(StringLocationError),
    /// A string source failed.
    StringSourceError(StringSourceError),
    /// Both sides of a [`Condition::TryElse`] failed.
    TryElseError { try_error: Box<ConditionError>, else_error: Box<ConditionError> },
    /// A common-call flag was read outside of a common call.
    NotInACommonContext,
    /// No condition of the commons has the called name.
    CommonConditionNotFound,
    /// Common calls were nested deeper than the job allows.
    CallDepthExceeded,
}

/// The value of `source`, which has to be present.
pub open spec fn spec_req_str(source: StringSource, c: Ctx) -> Result<Seq<char>, ConditionError> {
    match source.spec_get(c) {
        Err(e) => Err(ConditionError::StringSourceError(e)),
        Ok(None) => Err(ConditionError::StringSourceIsNone),
        Ok(Some(s)) => Ok(s),
    }
}

/// The value of `source`, where it is present.
pub fn req_str(source: &StringSource, job_state: &JobStateView) -> (r: Result<String, ConditionError>)
    ensures
        match r {
            Ok(s) => spec_req_str(*source, job_state.ctx()) == Ok::<Seq<char>, ConditionError>(s@),
            Err(e) => spec_req_str(*source, job_state.ctx()) == Err::<Seq<char>, ConditionError>(e),
        },
{
    match source.get(job_state) {
        Err(e) => Err(ConditionError::StringSourceError(e)),
        Ok(None) => Err(ConditionError::StringSourceIsNone),
        Ok(Some(s)) => Ok(s),
    }
}

/// The value of `source`, or its error as a condition error.
pub open spec fn spec_opt_str(source: StringSource, c: Ctx) -> Result<Option<Seq<char>>, ConditionError> {
    match source.spec_get(c) {
        Err(e) => Err(ConditionError::StringSourceError(e)),
        Ok(o) => Ok(o),
    }
}

/// The value of `source`, or its error as a condition error.
pub fn opt_str(source: &StringSource, job_state: &JobStateView) -> (r: Result<Option<String>, ConditionError>)
    ensures
        match r {
            Ok(o) => spec_opt_str(*source, job_state.ctx()) == Ok::<Option<Seq<char>>, ConditionError>(opt_view(o)),
            Err(e) => spec_opt_str(*source, job_state.ctx()) == Err::<Option<Seq<char>>, ConditionError>(e),
        },
{
    match source.get(job_state) {
        Err(e) => Err(ConditionError::StringSourceError(e)),
        Ok(o) => Ok(o),
    }
}

/// A matcher's result, with its error as a condition error.
pub open spec fn spec_match(m: StringMatcher, s: Seq<char>) -> Result<bool, ConditionError> {
    match m.spec_satisfied_by(s) {
        Ok(b) => Ok(b),
        Err(e) => Err(ConditionError::StringMatcherError(e)),
    }
}

/// A location check's result, with its error as a condition error.
pub open spec fn spec_locate(l: StringLocation, hay: Seq<char>, needle: Seq<char>) -> Result<
    bool,
    ConditionError,
> {
    match l.spec_satisfied_by(encode_utf8(hay), encode_utf8(needle)) {
        Ok(b) => Ok(b),
        Err(e) => Err(ConditionError::StringLocationError(e)),
    }
}

fn locate(l: &StringLocation, hay: &str, needle: &str) -> (r: Result<bool, ConditionError>)
    ensures
        r == spec_locate(*l, hay@, needle@),
{
    match l.satisfied_by(hay, needle) {
        Ok(b) => Ok(b),
        Err(e) => Err(ConditionError::StringLocationError(e)),
    }
}

fn match_str(m: &StringMatcher, s: &str) -> (r: Result<bool, ConditionError>)
    ensures
        r == spec_match(*m, s@),
{
    match m.satisfied_by(s) {
        Ok(b) => Ok(b),
        Err(e) => Err(ConditionError::StringMatcherError(e)),
    }
}

/// Whether the URL's path does not start with `/`.
pub open spec fn cannot_be_a_base(url: UrlView) -> bool {
    path_segments(url.path) is None
}

/// The result of `All` over `cs`.
pub open spec fn spec_cond_all(cs: Seq<Condition>, c: Ctx) -> Result<bool, ConditionError>
    decreases c.budget, cs, 0nat,
{
    if cs.len() == 0 {
        Ok(true)
    } else {
        match cs[0].spec_satisfied_by(c) {
            Ok(true) => spec_cond_all(cs.subrange(1, cs.len() as int), c),
            other => other,
        }
    }
}

/// The result of `Any` over `cs`.
pub open spec fn spec_cond_any(cs: Seq<Condition>, c: Ctx) -> Result<bool, ConditionError>
    decreases c.budget, cs, 0nat,
{
    if cs.len() == 0 {
        Ok(false)
    } else {
        match cs[0].spec_satisfied_by(c) {
            Ok(false) => spec_cond_any(cs.subrange(1, cs.len() as int), c),
            other => other,
        }
    }
}

/// The result of `FirstNotError` over `cs`.
pub open spec fn spec_cond_first(cs: Seq<Condition>, c: Ctx) -> Result<bool, ConditionError>
    decreases c.budget, cs, 0nat,
{
    if cs.len() == 0 {
        Ok(false)
    } else if cs.len() == 1 {
        cs[0].spec_satisfied_by(c)
    } else {
        match cs[0].spec_satisfied_by(c) {
            Ok(b) => Ok(b),
            Err(_) => spec_cond_first(cs.subrange(1, cs.len() as int), c),
        }
    }
}

/// The condition stored under `key` in `map`, evaluated; not satisfied where there is none.
pub open spec fn spec_map_lookup(map: Seq<(String, Condition)>, key: Option<Seq<char>>, c: Ctx) -> Result<
    bool,
    ConditionError,
>
    decreases c.budget, map, 0nat,
{
    match key {
        None => Ok(false),
        Some(k) => match key_index(map, k) {
            Some(i) => if 0 <= i < map.len() {
                map[i].1.spec_satisfied_by(c)
            } else {
                Ok(false)
            },
            None => Ok(false),
        },
    }
}

/// Whether the segments match the matchers one by one, as far as both go.
pub open spec fn spec_segments_match(segs: Seq<Seq<char>>, ms: Seq<StringMatcher>) -> Result<
    bool,
    ConditionError,
>
    decreases ms.len(),
{
    if ms.len() == 0 || segs.len() == 0 {
        Ok(true)
    } else {
        match spec_match(ms[0], segs[0]) {
            Ok(true) => spec_segments_match(segs.drop_first(), ms.drop_first()),
            other => other,
        }
    }
}

/// What `PathSegmentsMatch` gives on the path `path`.
pub open spec fn spec_path_segments_match(
    path: Seq<char>,
    start: int,
    ms: Seq<StringMatcher>,
    strict: bool,
) -> Result<bool, ConditionError> {
    match path_segments(path) {
        None => Err(ConditionError::UrlDoesNotHaveAPath),
        Some(segs) => match neg_index(start, segs.len() as int) {
            None => Err(ConditionError::SegmentRangeNotFound),
            Some(skip) => if strict && (skip > segs.len() || segs.len() - skip < ms.len()) {
                Ok(false)
            } else if skip >= segs.len() {
                Ok(true)
            } else {
                spec_segments_match(segs.subrange(skip, segs.len() as int), ms)
            },
        },
    }
}

impl Condition {
    /// What [`Self::satisfied_by`] returns in the context `c`.
    pub open spec fn spec_satisfied_by(self, c: Ctx) -> Result<bool, ConditionError>
        decreases c.budget, self, 1nat,
    {
        match self {
            Condition::Always => Ok(true),
            Condition::Never => Ok(false),
            Condition::Error => Err(ConditionError::ExplicitError),
            Condition::Debug(inner) => inner.spec_satisfied_by(c),
            Condition::If { condition, then, otherwise } => match condition.spec_satisfied_by(c) {
                Ok(true) => then.spec_satisfied_by(c),
                Ok(false) => otherwise.spec_satisfied_by(c),
                Err(e) => Err(e),
            },
            Condition::Not(inner) => match inner.spec_satisfied_by(c) {
                Ok(b) => Ok(!b),
                Err(e) => Err(e),
            },
            Condition::All(cs) => spec_cond_all(cs@, c),
            Condition::Any(cs) => spec_cond_any(cs@, c),
            Condition::PartMap { part, map } => spec_map_lookup(map@, part.spec_get(c.url), c),
            Condition::StringMap { value, map } => match spec_opt_str(value, c) {
                Err(e) => Err(e),
                Ok(k) => spec_map_lookup(map@, k, c),
            },
            Condition::TreatErrorAsPass(inner) => match inner.spec_satisfied_by(c) {
                Ok(b) => Ok(b),
                Err(_) => Ok(true),
            },
            Condition::TreatErrorAsFail(inner) => match inner.spec_satisfied_by(c) {
                Ok(b) => Ok(b),
                Err(_) => Ok(false),
            },
            Condition::TryElse { attempt, otherwise } => match attempt.spec_satisfied_by(c) {
                Ok(b) => Ok(b),
                Err(te) => match otherwise.spec_satisfied_by(c) {
                    Ok(b) => Ok(b),
                    Err(ee) => Err(
                        ConditionError::TryElseError { try_error: Box::new(te), else_error: Box::new(ee) },
                    ),
                },
            },
            Condition::FirstNotError(cs) => spec_cond_first(cs@, c),
            Condition::HostIs(h) => Ok(c.url.host == opt_view(h)),
            Condition::HostIsOneOf(hosts) => Ok(
                match c.url.host {
                    Some(h) => hosts.deep_view().contains(h),
                    None => false,
                },
            ),
            Condition::UrlHasHost => Ok(c.url.host is Some),
            Condition::QueryHasParam(name) => Ok(UrlPart::QueryParam(name).spec_get(c.url) is Some),
            Condition::PathIs(p) => Ok(
                match p {
                    None => cannot_be_a_base(c.url),
                    Some(x) => !cannot_be_a_base(c.url) && c.url.path == x@,
                },
            ),
            Condition::PathSegmentsMatch { start, matchers, strict } => spec_path_segments_match(
                c.url.path,
                start as int,
                matchers@,
                strict,
            ),
            Condition::PartIs { part, value } => match spec_opt_str(value, c) {
                Err(e) => Err(e),
                Ok(v) => Ok(part.spec_get(c.url) == v),
            },
            Condition::PartContains { part, value, location, if_part_null, if_value_null } => match part.spec_get(
                c.url,
            ) {
                None => if_part_null.spec_apply(ConditionError::PartIsNone),
                Some(p) => match spec_opt_str(value, c) {
                    Err(e) => Err(e),
                    Ok(None) => if_value_null.spec_apply(ConditionError::StringSourceIsNone),
                    Ok(Some(v)) => spec_locate(location, p, v),
                },
            },
            Condition::PartMatches { part, matcher, if_null } => match part.spec_get(c.url) {
                None => if_null.spec_apply(ConditionError::PartIsNone),
                Some(p) => spec_match(matcher, p),
            },
            Condition::PartIsOneOf { part, values, if_null } => Ok(
                match part.spec_get(c.url) {
                    None => if_null,
                    Some(p) => values.deep_view().contains(p),
                },
            ),
            Condition::VarIs { name, value } => match spec_req_str(name, c) {
                Err(e) => Err(e),
                Ok(n) => match spec_opt_str(value, c) {
                    Err(e) => Err(e),
                    Ok(v) => Ok(var_value(c.params.vars@, n) == v),
                },
            },
            Condition::CommonFlagIsSet(name) => match c.common_args {
                None => Err(ConditionError::NotInACommonContext),
                Some(args) => match spec_req_str(name, c) {
                    Err(e) => Err(e),
                    Ok(n) => Ok(args.flags.deep_view().contains(n)),
                },
            },
            Condition::ScratchpadFlagIsSet(name) => match spec_req_str(name, c) {
                Err(e) => Err(e),
                Ok(n) => Ok(c.scratchpad.flags.deep_view().contains(n)),
            },
            Condition::FlagIsSet(name) => match spec_req_str(name, c) {
                Err(e) => Err(e),
                Ok(n) => Ok(c.params.flags.deep_view().contains(n)),
            },
            Condition::AnyFlagIsSet => Ok(c.params.flags@.len() > 0),
            Condition::StringIs { left, right } => match spec_opt_str(left, c) {
                Err(e) => Err(e),
                Ok(l) => match spec_opt_str(right, c) {
                    Err(e) => Err(e),
                    Ok(r) => Ok(l == r),
                },
            },
            Condition::StringContains { value, substring, location } => match spec_req_str(value, c) {
                Err(e) => Err(e),
                Ok(v) => match spec_req_str(substring, c) {
                    Err(e) => Err(e),
                    Ok(s) => spec_locate(location, v, s),
                },
            },
            Condition::StringMatches { value, matcher } => match spec_req_str(value, c) {
                Err(e) => Err(e),
                Ok(v) => spec_match(matcher, v),
            },
            Condition::Common(call) => if c.budget == 0 {
                Err(ConditionError::CallDepthExceeded)
            } else {
                match key_index(c.commons.conditions@, call.name@) {
                    Some(i) => if 0 <= i < c.commons.conditions@.len() {
                        c.commons.conditions@[i].1.spec_satisfied_by(
                            Ctx { common_args: Some(call.args), budget: (c.budget - 1) as nat, ..c },
                        )
                    } else {
                        Err(ConditionError::CommonConditionNotFound)
                    },
                    None => Err(ConditionError::CommonConditionNotFound),
                }
            },
        }
    }

    /// Whether the job's URL satisfies this condition.
    #[verifier::rlimit(100)]
    #[verifier::spinoff_prover]
    pub fn satisfied_by(&self, job_state: &JobStateView) -> (r: Result<bool, ConditionError>)
        ensures
            r == self.spec_satisfied_by(job_state.ctx()),
        decreases job_state.call_budget, self, 1nat,
    {
        match self {
            Condition::Always => Ok(true),
            Condition::Never => Ok(false),
            Condition::Error => Err(ConditionError::ExplicitError),
            Condition::Debug(inner) => inner.satisfied_by(job_state),
            Condition::If { condition, then, otherwise } => match condition.satisfied_by(job_state) {
                Ok(true) => then.satisfied_by(job_state),
                Ok(false) => otherwise.satisfied_by(job_state),
                Err(e) => Err(e),
            },
            Condition::Not(inner) => match inner.satisfied_by(job_state) {
                Ok(b) => Ok(!b),
                Err(e) => Err(e),
            },
            Condition::All(cs) => {
                let mut i: usize = 0;
                assert(cs@.subrange(0, cs@.len() as int) =~= cs@);
                while i < cs.len()
                    invariant
                        *self == Condition::All(*cs),
                        i <= cs@.len(),
                        spec_cond_all(cs@, job_state.ctx()) == spec_cond_all(
                            cs@.subrange(i as int, cs@.len() as int),
                            job_state.ctx(),
                        ),
                    decreases cs@.len() - i,
                {
                    let ghost rest = cs@.subrange(i as int, cs@.len() as int);
                    assert(rest[0] == cs@[i as int]);
                    assert(rest.subrange(1, rest.len() as int) =~= cs@.subrange(i + 1, cs@.len() as int));
                    proof {
                        vstd::std_specs::vec::axiom_vec_index_decreases(*cs, i as int);
                    }
                    match cs[i].satisfied_by(job_state) {
                        Ok(true) => {},
                        other => {
                            return other;
                        },
                    }
                    i = i + 1;
                }
                Ok(true)
            },
            Condition::Any(cs) => {
                let mut i: usize = 0;
                assert(cs@.subrange(0, cs@.len() as int) =~= cs@);
                while i < cs.len()
                    invariant
                        *self == Condition::Any(*cs),
                        i <= cs@.len(),
                        spec_cond_any(cs@, job_state.ctx()) == spec_cond_any(
                            cs@.subrange(i as int, cs@.len() as int),
                            job_state.ctx(),
                        ),
                    decreases cs@.len() - i,
                {
                    let ghost rest = cs@.subrange(i as int, cs@.len() as int);
                    assert(rest[0] == cs@[i as int]);
                    assert(rest.subrange(1, rest.len() as int) =~= cs@.subrange(i + 1, cs@.len() as int));
                    proof {
                        vstd::std_specs::vec::axiom_vec_index_decreases(*cs, i as int);
                    }
                    match cs[i].satisfied_by(job_state) {
                        Ok(false) => {},
                        other => {
                            return other;
                        },
                    }
                    i = i + 1;
                }
                Ok(false)
            },
            Condition::PartMap { part, map } => map_lookup(map, part.get(job_state.url), job_state),
            Condition::StringMap { value, map } => match opt_str(value, job_state) {
                Err(e) => Err(e),
                Ok(k) => map_lookup(map, k, job_state),
            },
            Condition::TreatErrorAsPass(inner) => match inner.satisfied_by(job_state) {
                Ok(b) => Ok(b),
                Err(_) => Ok(true),
            },
            Condition::TreatErrorAsFail(inner) => match inner.satisfied_by(job_state) {
                Ok(b) => Ok(b),
                Err(_) => Ok(false),
            },
            Condition::TryElse { attempt, otherwise } => match attempt.satisfied_by(job_state) {
                Ok(b) => Ok(b),
                Err(te) => match otherwise.satisfied_by(job_state) {
                    Ok(b) => Ok(b),
                    Err(ee) => Err(
                        ConditionError::TryElseError { try_error: Box::new(te), else_error: Box::new(ee) },
                    ),
                },
            },
            Condition::FirstNotError(cs) => {
                if cs.len() == 0 {
                    return Ok(false);
                }
                let last = cs.len() - 1;
                let mut i: usize = 0;
                assert(cs@.subrange(0, cs@.len() as int) =~= cs@);
                while i < last
                    invariant
                        *self == Condition::FirstNotError(*cs),
                        last + 1 == cs@.len(),
                        i <= last,
                        spec_cond_first(cs@, job_state.ctx()) == spec_cond_first(
                            cs@.subrange(i as int, cs@.len() as int),
                            job_state.ctx(),
                        ),
                    decreases last - i,
                {
                    let ghost rest = cs@.subrange(i as int, cs@.len() as int);
                    assert(rest[0] == cs@[i as int]);
                    assert(rest.subrange(1, rest.len() as int) =~= cs@.subrange(i + 1, cs@.len() as int));
                    proof {
                        vstd::std_specs::vec::axiom_vec_index_decreases(*cs, i as int);
                    }
                    match cs[i].satisfied_by(job_state) {
                        Ok(b) => {
                            return Ok(b);
                        },
                        Err(_) => {},
                    }
                    i = i + 1;
                }
                proof {
                    vstd::std_specs::vec::axiom_vec_index_decreases(*cs, last as int);
                }
                assert(cs@.subrange(last as int, cs@.len() as int)[0] == cs@[last as int]);
                cs[last].satisfied_by(job_state)
            },
            Condition::HostIs(h) => Ok(same_opt(&job_state.url.host, h)),
            Condition::HostIsOneOf(hosts) => Ok(
                match &job_state.url.host {
                    Some(h) => contains_text(hosts, h.as_str()),
                    None => false,
                },
            ),
            Condition::UrlHasHost => Ok(job_state.url.host.is_some()),
            Condition::QueryHasParam(name) => Ok(job_state.url.has_query_param(name)),
            Condition::PathIs(p) => {
                let cbab = job_state.url.path_segments().is_none();
                Ok(
                    match p {
                        None => cbab,
                        Some(x) => !cbab && same_text(job_state.url.path.as_str(), x.as_str()),
                    },
                )
            },
            Condition::PathSegmentsMatch { start, matchers, strict } => {
                match job_state.url.path_segments() {
                    None => Err(ConditionError::UrlDoesNotHaveAPath),
                    Some(segs) => match resolve_index(*start, segs.len()) {
                        None => Err(ConditionError::SegmentRangeNotFound),
                        Some(skip) => {
                            if *strict && (skip > segs.len() || segs.len() - skip < matchers.len()) {
                                Ok(false)
                            } else if skip >= segs.len() {
                                Ok(true)
                            } else {
                                segments_match(&segs, skip, matchers)
                            }
                        },
                    },
                }
            },
            Condition::PartIs { part, value } => match opt_str(value, job_state) {
                Err(e) => Err(e),
                Ok(v) => Ok(same_opt(&part.get(job_state.url), &v)),
            },
            Condition::PartContains { part, value, location, if_part_null, if_value_null } => {
                match part.get(job_state.url) {
                    None => if_part_null.apply(ConditionError::PartIsNone),
                    Some(p) => match opt_str(value, job_state) {
                        Err(e) => Err(e),
                        Ok(None) => if_value_null.apply(ConditionError::StringSourceIsNone),
                        Ok(Some(v)) => locate(location, p.as_str(), v.as_str()),
                    },
                }
            },
            Condition::PartMatches { part, matcher, if_null } => match part.get(job_state.url) {
                None => if_null.apply(ConditionError::PartIsNone),
                Some(p) => match_str(matcher, p.as_str()),
            },
            Condition::PartIsOneOf { part, values, if_null } => Ok(
                match part.get(job_state.url) {
                    None => *if_null,
                    Some(p) => contains_text(values, p.as_str()),
                },
            ),
            Condition::VarIs { name, value } => match req_str(name, job_state) {
                Err(e) => Err(e),
                Ok(n) => match opt_str(value, job_state) {
                    Err(e) => Err(e),
                    Ok(v) => Ok(same_opt(&get_var(&job_state.params.vars, n.as_str()), &v)),
                },
            },
            Condition::CommonFlagIsSet(name) => match job_state.common_args {
                None => Err(ConditionError::NotInACommonContext),
                Some(args) => match req_str(name, job_state) {
                    Err(e) => Err(e),
                    Ok(n) => Ok(has_flag(&args.flags, n.as_str())),
                },
            },
            Condition::ScratchpadFlagIsSet(name) => match req_str(name, job_state) {
                Err(e) => Err(e),
                Ok(n) => Ok(has_flag(&job_state.scratchpad.flags, n.as_str())),
            },
            Condition::FlagIsSet(name) => match req_str(name, job_state) {
                Err(e) => Err(e),
                Ok(n) => Ok(has_flag(&job_state.params.flags, n.as_str())),
            },
            Condition::AnyFlagIsSet => Ok(job_state.params.flags.len() > 0),
            Condition::StringIs { left, right } => match opt_str(left, job_state) {
                Err(e) => Err(e),
                Ok(l) => match opt_str(right, job_state) {
                    Err(e) => Err(e),
                    Ok(r) => Ok(same_opt(&l, &r)),
                },
            },
            Condition::StringContains { value, substring, location } => match req_str(value, job_state) {
                Err(e) => Err(e),
                Ok(v) => match req_str(substring, job_state) {
                    Err(e) => Err(e),
                    Ok(s) => locate(location, v.as_str(), s.as_str()),
                },
            },
            Condition::StringMatches { value, matcher } => match req_str(value, job_state) {
                Err(e) => Err(e),
                Ok(v) => match_str(matcher, v.as_str()),
            },
            Condition::Common(call) => {
                if job_state.call_budget == 0 {
                    return Err(ConditionError::CallDepthExceeded);
                }
                match find_key(&job_state.commons.conditions, call.name.as_str()) {
                    Some(k) => {
                        let inner = job_state.in_call(&call.args);
                        job_state.commons.conditions[k].1.satisfied_by(&inner)
                    },
                    None => Err(ConditionError::CommonConditionNotFound),
                }
            },
        }
    }
}

/// Evaluates the condition stored under `key` in `map`; not satisfied where there is none.
fn map_lookup(map: &Vec<(String, Condition)>, key: Option<String>, job_state: &JobStateView) -> (r: Result<
    bool,
    ConditionError,
>)
    ensures
        r == spec_map_lookup(map@, opt_view(key), job_state.ctx()),
    decreases job_state.call_budget, map, 0nat,
{
    match key {
        None => Ok(false),
        Some(k) => match find_key(map, k.as_str()) {
            Some(i) => {
                proof {
                    vstd::std_specs::vec::axiom_vec_index_decreases(*map, i as int);
                }
                map[i].1.satisfied_by(job_state)
            },
            None => Ok(false),
        },
    }
}

/// Matches the segments from `skip` on against the matchers one by one.
fn segments_match(segs: &Vec<String>, skip: usize, ms: &Vec<StringMatcher>) -> (r: Result<bool, ConditionError>)
    requires
        skip < segs@.len(),
    ensures
        r == spec_segments_match(segs.deep_view().subrange(skip as int, segs@.len() as int), ms@),
{
    let ghost all = segs.deep_view().subrange(skip as int, segs@.len() as int);
    let mut k: usize = 0;
    assert(all.skip(0) =~= all);
    assert(ms@.skip(0) =~= ms@);
    while k < ms.len() && k < segs.len() - skip
        invariant
            skip < segs@.len(),
            all == segs.deep_view().subrange(skip as int, segs@.len() as int),
            k <= ms@.len(),
            skip + k <= segs@.len(),
            spec_segments_match(all, ms@) == spec_segments_match(all.skip(k as int), ms@.skip(k as int)),
        decreases ms@.len() - k,
    {
        assert(all.skip(k as int)[0] == segs.deep_view()[skip + k]);
        assert(ms@.skip(k as int)[0] == ms@[k as int]);
        assert(all.skip(k as int).drop_first() =~= all.skip(k + 1));
        assert(ms@.skip(k as int).drop_first() =~= ms@.skip(k + 1));
        match match_str(&ms[k], segs[skip + k].as_str()) {
            Ok(true) => {},
            other => {
                return other;
            },
        }
        k = k + 1;
    }
    Ok(true)
}

/// Whether two optional strings are equal, absence included.
fn same_opt(a: &Option<String>, b: &Option<String>) -> (r: bool)
    ensures
        r == (opt_view(*a) == opt_view(*b)),
{
    match (a, b) {
        (Some(x), Some(y)) => same_text(x.as_str(), y.as_str()),
        (None, None) => true,
        _ => false,
    }
}

} // verus!
