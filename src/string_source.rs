//! Expressions that produce an optional string.
use vstd::prelude::*;
use crate::better_url::{BetterUrl, UrlPart, opt_view, parsed_url};
use crate::job_state::{Ctx, JobStateView, CommonCall, get_var, has_flag, var_value};
use crate::text::{find_key, join_strings, join_with, lookup};

verus! {

/// A way to get a string, or no string.
#[derive(Debug)]
pub enum StringSource {
    /// Always fails with [`StringSourceError::ExplicitError`].
    Error,
    /// Evaluates the contained source and returns its result unchanged.
    Debug(Box<StringSource>),
    /// This string.
    String(String),
    /// This part of the URL.
    Part(UrlPart),
    /// The value of this variable of the run's params.
    Var(String),
    /// The value of this variable of the job's scratchpad.
    ScratchpadVar(String),
    /// The value of this variable of the current common call.
    CommonVar(String),
    /// `then` when the flag is set in the params, else `otherwise`.
    IfFlag { flag: String, then: Box<StringSource>, otherwise: Box<StringSource> },
    /// The values of `sources` joined with `join`; nothing as soon as one gives nothing.
    Join { sources: Vec<StringSource>, join: String },
    /// Parses the value of `source` as a URL and takes `part` of it.
    ExtractPart { source: Box<StringSource>, part: UrlPart },
    /// The empty string where the contained source gives nothing.
    NoneToEmptyString(Box<StringSource>),
    /// The named string source of the commons, evaluated with the call's arguments.
    Common(CommonCall),
}

/// The errors that [`StringSource::get`] can return.
#[derive(Debug, Clone, PartialEq, Eq, Structural)]
pub enum StringSourceError {
    /// [`StringSource::Error`] was evaluated.
    ExplicitError,
    /// A common-call variable was read outside of a common call.
    NotInACommonContext,
    /// No string source of the commons has the called name.
    CommonStringSourceNotFound,
    /// Common calls were nested deeper than the job allows.
    CallDepthExceeded,
    /// A string that had to be a URL is none.
    UrlParseError,
}

/// The values of `sources`, in order, or the first error or absent value.
pub open spec fn spec_values(sources: Seq<StringSource>, c: Ctx) -> Result<
    Option<Seq<Seq<char>>>,
    StringSourceError,
>
    decreases c.budget, sources, 0nat,
{
    if sources.len() == 0 {
        Ok(Some(Seq::<Seq<char>>::empty()))
    } else {
        match sources[0].spec_get(c) {
            Err(e) => Err(e),
            Ok(None) => Ok(None),
            Ok(Some(v)) => match spec_values(sources.subrange(1, sources.len() as int), c) {
                Ok(Some(vs)) => Ok(Some(seq![v] + vs)),
                other => other,
            },
        }
    }
}

/// `done` put before the values of a result of [`spec_values`].
pub open spec fn prepend_values(
    done: Seq<Seq<char>>,
    rest: Result<Option<Seq<Seq<char>>>, StringSourceError>,
) -> Result<Option<Seq<Seq<char>>>, StringSourceError> {
    match rest {
        Ok(Some(vs)) => Ok(Some(done + vs)),
        other => other,
    }
}

impl StringSource {
    /// What [`Self::get`] returns in the context `c`.
    pub open spec fn spec_get(self, c: Ctx) -> Result<Option<Seq<char>>, StringSourceError>
        decreases c.budget, self, 1nat,
    {
        match self {
            StringSource::Error => Err(StringSourceError::ExplicitError),
            StringSource::Debug(inner) => inner.spec_get(c),
            StringSource::String(s) => Ok(Some(s@)),
            StringSource::Part(part) => Ok(part.spec_get(c.url)),
            StringSource::Var(name) => Ok(var_value(c.params.vars@, name@)),
            StringSource::ScratchpadVar(name) => Ok(var_value(c.scratchpad.vars@, name@)),
            StringSource::CommonVar(name) => match c.common_args {
                Some(args) => Ok(var_value(args.vars@, name@)),
                None => Err(StringSourceError::NotInACommonContext),
            },
            StringSource::IfFlag { flag, then, otherwise } => if c.params.flags.deep_view().contains(
                flag@,
            ) {
                then.spec_get(c)
            } else {
                otherwise.spec_get(c)
            },
            StringSource::Join { sources, join } => match spec_values(sources@, c) {
                Ok(Some(vs)) => Ok(Some(join_with(vs, join@))),
                Ok(None) => Ok(None),
                Err(e) => Err(e),
            },
            StringSource::ExtractPart { source, part } => match source.spec_get(c) {
                Err(e) => Err(e),
                Ok(None) => Ok(None),
                Ok(Some(s)) => match parsed_url(s) {
                    Some(u) => Ok(part.spec_get(u)),
                    None => Err(StringSourceError::UrlParseError),
                },
            },
            StringSource::NoneToEmptyString(inner) => match inner.spec_get(c) {
                Ok(None) => Ok(Some(Seq::<char>::empty())),
                other => other,
            },
            StringSource::Common(call) => if c.budget == 0 {
                Err(StringSourceError::CallDepthExceeded)
            } else {
                match lookup(c.commons.string_sources@, call.name@) {
                    Some(source) => source.spec_get(
                        Ctx { common_args: Some(call.args), budget: (c.budget - 1) as nat, ..c },
                    ),
                    None => Err(StringSourceError::CommonStringSourceNotFound),
                }
            },
        }
    }

    /// Gets the string.
    pub fn get(&self, job_state: &JobStateView) -> (r: Result<Option<String>, StringSourceError>)
        ensures
            match r {
                Ok(o) => self.spec_get(job_state.ctx()) == Ok::<Option<Seq<char>>, StringSourceError>(opt_view(o)),
                Err(e) => self.spec_get(job_state.ctx()) == Err::<Option<Seq<char>>, StringSourceError>(e),
            },
        decreases job_state.call_budget, self, 1nat,
    {
        match self {
            StringSource::Error => Err(StringSourceError::ExplicitError),
            StringSource::Debug(inner) => inner.get(job_state),
            StringSource::String(s) => Ok(Some(s.clone())),
            StringSource::Part(part) => Ok(part.get(job_state.url)),
            StringSource::Var(name) => Ok(get_var(&job_state.params.vars, name.as_str())),
            StringSource::ScratchpadVar(name) => Ok(get_var(&job_state.scratchpad.vars, name.as_str())),
            StringSource::CommonVar(name) => match job_state.common_args {
                Some(args) => Ok(get_var(&args.vars, name.as_str())),
                None => Err(StringSourceError::NotInACommonContext),
            },
            StringSource::IfFlag { flag, then, otherwise } => {
                if has_flag(&job_state.params.flags, flag.as_str()) {
                    then.get(job_state)
                } else {
                    otherwise.get(job_state)
                }
            },
            StringSource::Join { sources, join } => {
                let mut values: Vec<String> = Vec::new();
                let mut i: usize = 0;
                assert(sources@.subrange(0, sources@.len() as int) =~= sources@);
                while i < sources.len()
                    invariant
                        *self == (StringSource::Join { sources: *sources, join: *join }),
                        i <= sources@.len(),
                        spec_values(sources@, job_state.ctx()) == prepend_values(
                            values.deep_view(),
                            spec_values(sources@.subrange(i as int, sources@.len() as int), job_state.ctx()),
                        ),
                    decreases sources@.len() - i,
                {
                    let ghost rest = sources@.subrange(i as int, sources@.len() as int);
                    assert(rest[0] == sources@[i as int]);
                    assert(rest.subrange(1, rest.len() as int) =~= sources@.subrange(i + 1, sources@.len() as int));
                    proof {
                        vstd::std_specs::vec::axiom_vec_index_decreases(*sources, i as int);
                    }
                    assert(decreases_to!(*self => sources[i as int]));
                    match sources[i].get(job_state) {
                        Err(e) => {
                            assert(spec_values(rest, job_state.ctx()) == Err::<Option<Seq<Seq<char>>>, StringSourceError>(e));
                            return Err(e);
                        },
                        Ok(None) => {
                            assert(spec_values(rest, job_state.ctx()) == Ok::<Option<Seq<Seq<char>>>, StringSourceError>(None));
                            return Ok(None);
                        },
                        Ok(Some(v)) => {
                            let ghost before = values.deep_view();
                            values.push(v);
                            assert(values.deep_view() =~= before + seq![v@]);
                            assert forall|vs: Seq<Seq<char>>| #![auto] before + (seq![v@] + vs) == values.deep_view() + vs by {
                                assert(before + (seq![v@] + vs) =~= values.deep_view() + vs);
                            }
                        },
                    }
                    i = i + 1;
                }
                assert(sources@.subrange(i as int, sources@.len() as int) =~= Seq::<StringSource>::empty());
                assert(values.deep_view() + Seq::<Seq<char>>::empty() =~= values.deep_view());
                Ok(Some(join_strings(&values, join.as_str())))
            },
            StringSource::ExtractPart { source, part } => match source.get(job_state) {
                Err(e) => Err(e),
                Ok(None) => Ok(None),
                Ok(Some(s)) => match BetterUrl::parse(s.as_str()) {
                    Ok(u) => Ok(part.get(&u)),
                    Err(_) => Err(StringSourceError::UrlParseError),
                },
            },
            StringSource::NoneToEmptyString(inner) => match inner.get(job_state) {
                Ok(None) => Ok(Some(String::new())),
                other => other,
            },
            StringSource::Common(call) => {
                if job_state.call_budget == 0 {
                    return Err(StringSourceError::CallDepthExceeded);
                }
                match find_key(&job_state.commons.string_sources, call.name.as_str()) {
                    Some(k) => {
                        let inner = job_state.in_call(&call.args);
                        job_state.commons.string_sources[k].1.get(&inner)
                    },
                    None => Err(StringSourceError::CommonStringSourceNotFound),
                }
            },
        }
    }
}

} // verus!
