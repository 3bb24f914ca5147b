//! What an evaluation runs against: the URL, the job's flags and variables, the active
//! common-call arguments and the registry of common sub-trees.
use vstd::prelude::*;
use crate::better_url::{BetterUrl, UrlView, opt_view};
use crate::conditions::Condition;
use crate::mappers::Mapper;
use crate::string_source::StringSource;
use crate::text::{contains_text, find_key, lookup};

verus! {

/// Flags and variables set by whoever starts the jobs.
#[derive(Debug)]
pub struct Params {
    /// The set flags.
    pub flags: Vec<String>,
    /// Variables by name; the first entry of a name counts.
    pub vars: Vec<(String, String)>,
}

/// Flags and variables that belong to one job.
#[derive(Debug)]
pub struct JobScratchpad {
    /// The set flags.
    pub flags: Vec<String>,
    /// Variables by name; the first entry of a name counts.
    pub vars: Vec<(String, String)>,
}

/// The arguments of one call into [`Commons`], visible only inside that call.
#[derive(Debug)]
pub struct CommonCallArgs {
    /// The set flags.
    pub flags: Vec<String>,
    /// Variables by name; the first entry of a name counts.
    pub vars: Vec<(String, String)>,
}

/// A call of a named entry of [`Commons`].
#[derive(Debug)]
pub struct CommonCall {
    /// The name of the entry.
    pub name: String,
    /// The arguments the entry sees.
    pub args: CommonCallArgs,
}

/// Named sub-trees that rules can call.
#[derive(Debug)]
pub struct Commons {
    /// Conditions by name.
    pub conditions: Vec<(String, Condition)>,
    /// Mappers by name.
    pub mappers: Vec<(String, Mapper)>,
    /// String sources by name.
    pub string_sources: Vec<(String, StringSource)>,
}

/// Everything an evaluation depends on, as one value.
pub ghost struct Ctx {
    pub url: UrlView,
    pub scratchpad: JobScratchpad,
    pub common_args: Option<CommonCallArgs>,
    pub params: Params,
    pub commons: Commons,
    /// How many more nested common calls may start.
    pub budget: nat,
}

/// The value stored under `name` in a variable list.
pub open spec fn var_value(vars: Seq<(String, String)>, name: Seq<char>) -> Option<Seq<char>> {
    opt_view(lookup(vars, name))
}

/// The value of variable `name` in `vars`.
pub fn get_var(vars: &Vec<(String, String)>, name: &str) -> (r: Option<String>)
    ensures
        opt_view(r) == var_value(vars@, name@),
{
    match find_key(vars, name) {
        Some(i) => Some(vars[i].1.clone()),
        None => None,
    }
}

/// Whether `flag` is among `flags`.
pub fn has_flag(flags: &Vec<String>, flag: &str) -> (r: bool)
    ensures
        r == flags.deep_view().contains(flag@),
{
    contains_text(flags, flag)
}

/// A read-only view of a job, against which conditions and string sources are evaluated.
#[derive(Debug, Clone, Copy)]
pub struct JobStateView<'a> {
    /// The URL.
    pub url: &'a BetterUrl,
    /// The job's own flags and variables.
    pub scratchpad: &'a JobScratchpad,
    /// The arguments of the common call being evaluated, if any.
    pub common_args: Option<&'a CommonCallArgs>,
    /// The flags and variables of the whole run.
    pub params: &'a Params,
    /// The named sub-trees.
    pub commons: &'a Commons,
    /// How many more nested common calls may start.
    pub call_budget: usize,
}

impl<'a> JobStateView<'a> {
    /// This view as one value.
    pub open spec fn ctx(self) -> Ctx {
        Ctx {
            url: self.url@,
            scratchpad: *self.scratchpad,
            common_args: match self.common_args {
                Some(a) => Some(*a),
                None => None,
            },
            params: *self.params,
            commons: *self.commons,
            budget: self.call_budget as nat,
        }
    }

    /// The same view, inside a common call with the arguments `args`.
    pub fn in_call<'b>(&self, args: &'b CommonCallArgs) -> (r: JobStateView<'b>)
        where 'a: 'b
        requires
            self.call_budget > 0,
        ensures
            r.ctx() == (Ctx { common_args: Some(*args), budget: (self.call_budget - 1) as nat, ..self.ctx() }),
    {
        JobStateView {
            url: self.url,
            scratchpad: self.scratchpad,
            common_args: Some(args),
            params: self.params,
            commons: self.commons,
            call_budget: self.call_budget - 1,
        }
    }
}

/// The state of a job while its URL is being changed.
#[derive(Debug)]
pub struct JobState<'a> {
    /// The URL being changed.
    pub url: BetterUrl,
    /// The job's own flags and variables.
    pub scratchpad: &'a JobScratchpad,
    /// The arguments of the common call being evaluated, if any.
    pub common_args: Option<&'a CommonCallArgs>,
    /// The flags and variables of the whole run.
    pub params: &'a Params,
    /// The named sub-trees.
    pub commons: &'a Commons,
    /// How many more nested common calls may start.
    pub call_budget: usize,
}

impl<'a> JobState<'a> {
    /// This state as one value.
    pub open spec fn ctx(self) -> Ctx {
        Ctx {
            url: self.url@,
            scratchpad: *self.scratchpad,
            common_args: match self.common_args {
                Some(a) => Some(*a),
                None => None,
            },
            params: *self.params,
            commons: *self.commons,
            budget: self.call_budget as nat,
        }
    }

    /// A read-only view of this state.
    pub fn to_view(&self) -> (r: JobStateView<'_>)
        ensures
            r.ctx() == self.ctx(),
    {
        JobStateView {
            url: &self.url,
            scratchpad: self.scratchpad,
            common_args: self.common_args,
            params: self.params,
            commons: self.commons,
            call_budget: self.call_budget,
        }
    }
}

} // verus!
