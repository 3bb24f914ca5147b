//! Properties of the rule language that hold for every input.
use vstd::prelude::*;
use crate::better_url::path_segments;
use crate::cache::spec_read;
use crate::conditions::{Condition, ConditionError};
use crate::job_state::Ctx;
use crate::mappers::Mapper;
use crate::rules::{Rule, spec_apply_rules};
use crate::string_location::{StringLocation, StringLocationError};
use crate::string_matcher::{StringMatcher, StringMatcherError};
use vstd::string::*;
use vstd::utf8::is_char_boundary;

verus! {

/// An empty `All` condition is satisfied and an empty `Any` condition is not, in every
/// context.
pub proof fn empty_all_and_any_conditions(all: Vec<Condition>, any: Vec<Condition>, c: Ctx)
    requires
        all@.len() == 0,
        any@.len() == 0,
    ensures
        Condition::All(all).spec_satisfied_by(c) == Ok::<bool, ConditionError>(true),
        Condition::Any(any).spec_satisfied_by(c) == Ok::<bool, ConditionError>(false),
{
    reveal_with_fuel(Condition::spec_satisfied_by, 2);
    reveal_with_fuel(crate::conditions::spec_cond_all, 2);
    reveal_with_fuel(crate::conditions::spec_cond_any, 2);
}

/// An empty `All` matcher passes and an empty `Any` matcher fails, on every string.
pub proof fn empty_all_and_any_matchers(all: Vec<StringMatcher>, any: Vec<StringMatcher>, s: Seq<char>)
    requires
        all@.len() == 0,
        any@.len() == 0,
    ensures
        StringMatcher::All(all).spec_satisfied_by(s) == Ok::<bool, StringMatcherError>(true),
        StringMatcher::Any(any).spec_satisfied_by(s) == Ok::<bool, StringMatcherError>(false),
{
    reveal_with_fuel(StringMatcher::spec_satisfied_by, 2);
    reveal_with_fuel(crate::string_matcher::spec_matcher_all, 2);
    reveal_with_fuel(crate::string_matcher::spec_matcher_any, 2);
}

/// Negating a condition twice gives the condition back, wherever it does not fail.
pub proof fn double_negation(inner: Condition, c: Ctx)
    requires
        inner.spec_satisfied_by(c) is Ok,
    ensures
        Condition::Not(Box::new(Condition::Not(Box::new(inner)))).spec_satisfied_by(c)
            == inner.spec_satisfied_by(c),
{
    reveal_with_fuel(Condition::spec_satisfied_by, 3);
}

/// `TryElse` whose first branch is `Always` is satisfied whatever the second branch is,
/// even one that always fails.
pub proof fn try_always_else_anything(otherwise: Condition, c: Ctx)
    ensures
        (Condition::TryElse { attempt: Box::new(Condition::Always), otherwise: Box::new(otherwise) }).spec_satisfied_by(c)
            == Ok::<bool, ConditionError>(true),
{
    reveal_with_fuel(Condition::spec_satisfied_by, 2);
}

/// A strict `PathSegmentsMatch` from the first segment with more matchers than the path
/// has segments is not satisfied, whatever the matchers would say of the segments.
pub proof fn strict_segments_need_enough_segments(matchers: Vec<StringMatcher>, c: Ctx)
    requires
        path_segments(c.url.path) matches Some(segs) && segs.len() < matchers@.len(),
    ensures
        (Condition::PathSegmentsMatch { start: 0, matchers: matchers, strict: true }).spec_satisfied_by(c)
            == Ok::<bool, ConditionError>(false),
{
}

/// In a list of rules, a host-map rule meets a URL without a host by passing it on
/// unchanged to the rules after it.
pub proof fn host_map_without_host_passes(map: Vec<(String, Mapper)>, rest: Seq<Rule>, c: Ctx)
    requires
        c.url.host is None,
    ensures
        spec_apply_rules(seq![Rule::HostMap(map)] + rest, c) == spec_apply_rules(rest, c),
{
    reveal(Rule::spec_apply);
    let all = seq![Rule::HostMap(map)] + rest;
    assert(all[0] == Rule::HostMap(map));
    assert(all.subrange(1, all.len() as int) =~= rest);
}

/// `RangeIs` fails with [`StringLocationError::InvalidSlice`] when its end lies past the
/// haystack or either bound falls inside a character.
pub proof fn range_is_rejects_bad_slices(haystack: &str, needle: Seq<u8>, start: usize, end: usize)
    requires
        end > haystack.spec_bytes().len() || !is_char_boundary(haystack.spec_bytes(), start as int)
            || !is_char_boundary(haystack.spec_bytes(), end as int),
    ensures
        (StringLocation::RangeIs { start, end }).spec_satisfied_by(haystack.spec_bytes(), needle)
            == Err::<bool, StringLocationError>(StringLocationError::InvalidSlice),
{
    vstd::utf8::encode_utf8_valid_utf8(haystack@);
    reveal_with_fuel(is_char_boundary, 1);
}

/// A store with no entries finds nothing; after a write of `Some(v)` a read finds the entry
/// with `v`, and after a write of `None` it finds the entry without a value, which differs
/// from finding nothing.
pub proof fn cache_read_after_write(
    m: Map<(Seq<char>, Seq<char>), Option<Seq<char>>>,
    category: Seq<char>,
    key: Seq<char>,
    v: Seq<char>,
)
    ensures
        spec_read(Map::empty(), category, key) == None::<Option<Seq<char>>>,
        spec_read(m.insert((category, key), Some(v)), category, key) == Some(Some(v)),
        spec_read(m.insert((category, key), None), category, key) == Some(None::<Seq<char>>),
{
}

} // verus!
