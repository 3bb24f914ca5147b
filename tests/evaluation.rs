use url_cleaner::better_url::{BetterUrl, UrlPart};
use url_cleaner::bool_source::BoolSource;
use url_cleaner::cache::{CachePath, InnerCache};
use url_cleaner::conditions::{Condition, ConditionError, IfError};
use url_cleaner::glob::GlobWrapper;
use url_cleaner::job_state::{CommonCall, CommonCallArgs, Commons, JobScratchpad, JobState, JobStateView, Params};
use url_cleaner::jobs::{collect_source, queue_position, worker_for, Jobs, MakeJobError};
use url_cleaner::mappers::{Mapper, MapperError};
use url_cleaner::rules::{Rule, RuleError, Rules};
use url_cleaner::string_location::{StringLocation, StringLocationError};
use url_cleaner::string_matcher::{StringMatcher, StringMatcherError};
use url_cleaner::string_source::{StringSource, StringSourceError};

fn params() -> Params {
    Params {
        flags: vec!["abc".to_string()],
        vars: vec![("v".to_string(), "xyz".to_string())],
    }
}

fn empty_scratchpad() -> JobScratchpad {
    JobScratchpad { flags: vec![], vars: vec![] }
}

fn no_commons() -> Commons {
    Commons { conditions: vec![], mappers: vec![], string_sources: vec![] }
}

fn url(s: &str) -> BetterUrl {
    BetterUrl::parse(s).unwrap()
}

fn check(c: &Condition, u: &str) -> Result<bool, ConditionError> {
    let u = url(u);
    let sp = empty_scratchpad();
    let p = params();
    let cm = no_commons();
    let view = JobStateView { url: &u, scratchpad: &sp, common_args: None, params: &p, commons: &cm, call_budget: 8 };
    c.satisfied_by(&view)
}

fn source(s: &StringSource, u: &str) -> Result<Option<String>, StringSourceError> {
    let u = url(u);
    let sp = empty_scratchpad();
    let p = params();
    let cm = no_commons();
    let view = JobStateView { url: &u, scratchpad: &sp, common_args: None, params: &p, commons: &cm, call_budget: 8 };
    s.get(&view)
}

fn jobs(rules: Vec<Rule>) -> Jobs {
    Jobs { rules: Rules(rules), params: params(), commons: no_commons(), scratchpad: empty_scratchpad(), call_budget: 8 }
}

#[test]
fn location_anywhere_start_end() {
    assert_eq!(StringLocation::Anywhere.satisfied_by("abcdef", "cde").unwrap(), true);
    assert_eq!(StringLocation::Anywhere.satisfied_by("abcdef", "efg").unwrap(), false);
    assert_eq!(StringLocation::Start.satisfied_by("abcdef", "abc").unwrap(), true);
    assert_eq!(StringLocation::Start.satisfied_by("abcdef", "bcd").unwrap(), false);
    assert_eq!(StringLocation::End.satisfied_by("abcdef", "def").unwrap(), true);
    assert_eq!(StringLocation::End.satisfied_by("abcdef", "cde").unwrap(), false);
}

#[test]
fn location_ranges() {
    assert_eq!(StringLocation::RangeIs { start: 0, end: 3 }.satisfied_by("abcdef", "abc").unwrap(), true);
    assert_eq!(StringLocation::RangeIs { start: 1, end: 4 }.satisfied_by("abcdef", "bcd").unwrap(), true);
    assert_eq!(StringLocation::RangeIs { start: 0, end: 6 }.satisfied_by("abcdef", "abcdef").unwrap(), true);
    assert_eq!(StringLocation::RangeIs { start: 5, end: 6 }.satisfied_by("abcdef", "f").unwrap(), true);
    assert!(StringLocation::RangeIs { start: 6, end: 7 }.satisfied_by("abcdef", "f").is_err());
    assert!(StringLocation::RangeIs { start: 7, end: 8 }.satisfied_by("abcdef", "f").is_err());
    assert_eq!(StringLocation::RangeHas { start: 0, end: 1 }.satisfied_by("abcdef", "a").unwrap(), true);
    assert_eq!(StringLocation::RangeHas { start: 0, end: 2 }.satisfied_by("abcdef", "a").unwrap(), true);
    assert_eq!(StringLocation::RangeHas { start: 0, end: 6 }.satisfied_by("abcdef", "bcde").unwrap(), true);
    assert_eq!(StringLocation::RangeHas { start: 1, end: 6 }.satisfied_by("abcdef", "a").unwrap(), false);
    assert!(StringLocation::RangeHas { start: 0, end: 7 }.satisfied_by("abcdef", "").is_err());
}

#[test]
fn location_points() {
    assert_eq!(StringLocation::StartsAt(0).satisfied_by("abcdef", "abc").unwrap(), true);
    assert_eq!(StringLocation::StartsAt(1).satisfied_by("abcdef", "bcd").unwrap(), true);
    assert_eq!(StringLocation::StartsAt(5).satisfied_by("abcdef", "f").unwrap(), true);
    assert_eq!(StringLocation::StartsAt(0).satisfied_by("abcdef", "bcd").unwrap(), false);
    assert_eq!(StringLocation::StartsAt(5).satisfied_by("abcdef", "def").unwrap(), false);
    assert_eq!(StringLocation::EndsAt(3).satisfied_by("abcdef", "abc").unwrap(), true);
    assert_eq!(StringLocation::EndsAt(6).satisfied_by("abcdef", "def").unwrap(), true);
    assert_eq!(StringLocation::EndsAt(3).satisfied_by("abcdef", "bcd").unwrap(), false);
    assert_eq!(StringLocation::After(0).satisfied_by("abcdef", "abcdef").unwrap(), true);
    assert_eq!(StringLocation::After(1).satisfied_by("abcdef", "bcdef").unwrap(), true);
    assert_eq!(StringLocation::After(1).satisfied_by("abcdef", "1").unwrap(), false);
    assert_eq!(StringLocation::After(6).satisfied_by("abcdef", "f").unwrap(), false);
    assert!(StringLocation::After(7).satisfied_by("abcdef", "").is_err());
    assert_eq!(StringLocation::Before(0).satisfied_by("abcdef", "").unwrap(), true);
    assert_eq!(StringLocation::Before(6).satisfied_by("abcdef", "a").unwrap(), true);
    assert_eq!(StringLocation::Before(4).satisfied_by("abcdef", "def").unwrap(), false);
    assert!(StringLocation::Before(7).satisfied_by("abcdef", "a").is_err());
}

#[test]
fn range_is_rejects_split_characters() {
    // "é" takes two bytes.
    let r = StringLocation::RangeIs { start: 1, end: 3 }.satisfied_by("aéb", "é");
    assert_eq!(r.unwrap(), true);
    let r = StringLocation::RangeIs { start: 2, end: 3 }.satisfied_by("aéb", "b");
    assert_eq!(r, Err(StringLocationError::InvalidSlice));
    let r = StringLocation::RangeIs { start: 0, end: 9 }.satisfied_by("aéb", "a");
    assert_eq!(r, Err(StringLocationError::InvalidSlice));
}

#[test]
fn empty_all_and_any() {
    assert_eq!(check(&Condition::All(vec![]), "https://example.com").unwrap(), true);
    assert_eq!(check(&Condition::Any(vec![]), "https://example.com").unwrap(), false);
    assert_eq!(StringMatcher::All(vec![]).satisfied_by("x").unwrap(), true);
    assert_eq!(StringMatcher::Any(vec![]).satisfied_by("x").unwrap(), false);
}

#[test]
fn double_negation_keeps_result() {
    let inner = Condition::HostIs(Some("example.com".to_string()));
    let twice = Condition::Not(Box::new(Condition::Not(Box::new(Condition::HostIs(Some("example.com".to_string()))))));
    assert_eq!(check(&twice, "https://example.com/x").unwrap(), check(&inner, "https://example.com/x").unwrap());
    assert_eq!(check(&twice, "https://other.com/x").unwrap(), false);
}

#[test]
fn try_always_else_error_passes() {
    let c = Condition::TryElse { attempt: Box::new(Condition::Always), otherwise: Box::new(Condition::Error) };
    assert_eq!(check(&c, "https://example.com").unwrap(), true);
    let both = Condition::TryElse { attempt: Box::new(Condition::Error), otherwise: Box::new(Condition::Error) };
    assert!(matches!(check(&both, "https://example.com"), Err(ConditionError::TryElseError { .. })));
}

#[test]
fn error_handling_combinators() {
    assert_eq!(check(&Condition::TreatErrorAsPass(Box::new(Condition::Error)), "https://a.com").unwrap(), true);
    assert_eq!(check(&Condition::TreatErrorAsFail(Box::new(Condition::Error)), "https://a.com").unwrap(), false);
    assert!(matches!(check(&Condition::Error, "https://a.com"), Err(ConditionError::ExplicitError)));
    let first = Condition::FirstNotError(vec![Condition::Error, Condition::Never, Condition::Always]);
    assert_eq!(check(&first, "https://a.com").unwrap(), false);
    let all_fail = Condition::FirstNotError(vec![Condition::Error, Condition::PartContains {
        part: UrlPart::Fragment,
        value: StringSource::String("x".to_string()),
        location: StringLocation::Anywhere,
        if_part_null: IfError::Error,
        if_value_null: IfError::Error,
    }]);
    assert!(matches!(check(&all_fail, "https://a.com"), Err(ConditionError::PartIsNone)));
    let all = Condition::All(vec![Condition::Always, Condition::Error]);
    assert!(matches!(check(&all, "https://a.com"), Err(ConditionError::ExplicitError)));
    let short = Condition::Any(vec![Condition::Always, Condition::Error]);
    assert_eq!(check(&short, "https://a.com").unwrap(), true);
}

#[test]
fn path_segments_strict() {
    let four = || vec![StringMatcher::Always, StringMatcher::Always, StringMatcher::Always, StringMatcher::Always];
    let strict = Condition::PathSegmentsMatch { start: 0, matchers: four(), strict: true };
    assert_eq!(check(&strict, "https://example.com/a/b/c").unwrap(), false);
    let loose = Condition::PathSegmentsMatch { start: 0, matchers: four(), strict: false };
    assert_eq!(check(&loose, "https://example.com/a/b/c").unwrap(), true);
    let last = Condition::PathSegmentsMatch {
        start: -1,
        matchers: vec![StringMatcher::InSet(vec!["c".to_string()])],
        strict: true,
    };
    assert_eq!(check(&last, "https://example.com/a/b/c").unwrap(), true);
    assert!(matches!(
        check(&Condition::PathSegmentsMatch { start: -9, matchers: vec![], strict: true }, "https://example.com/a"),
        Err(ConditionError::SegmentRangeNotFound)
    ));
}

#[test]
fn url_part_conditions() {
    assert_eq!(check(&Condition::QueryHasParam("a".to_string()), "https://e.com/?a=1&b=2").unwrap(), true);
    assert_eq!(check(&Condition::QueryHasParam("c".to_string()), "https://e.com/?a=1&b=2").unwrap(), false);
    assert_eq!(check(&Condition::PathIs(Some("/x/y".to_string())), "https://e.com/x/y").unwrap(), true);
    assert_eq!(check(&Condition::PathIs(None), "mailto:someone@e.com").unwrap(), true);
    assert_eq!(check(&Condition::UrlHasHost, "mailto:someone@e.com").unwrap(), false);
    assert_eq!(check(&Condition::HostIsOneOf(vec!["e.com".to_string()]), "https://e.com/").unwrap(), true);
    let is = Condition::PartIs { part: UrlPart::QueryParam("b".to_string()), value: StringSource::String("2".to_string()) };
    assert_eq!(check(&is, "https://e.com/?a=1&b=2").unwrap(), true);
    let one_of = Condition::PartIsOneOf { part: UrlPart::Fragment, values: vec![], if_null: true };
    assert_eq!(check(&one_of, "https://e.com/").unwrap(), true);
    let null_pass = Condition::PartMatches { part: UrlPart::Fragment, matcher: StringMatcher::Never, if_null: IfError::Pass };
    assert_eq!(check(&null_pass, "https://e.com/").unwrap(), true);
}

#[test]
fn part_map_missing_key_is_false() {
    let map = Condition::PartMap {
        part: UrlPart::Host,
        map: vec![("e.com".to_string(), Condition::Always), ("f.com".to_string(), Condition::Error)],
    };
    assert_eq!(check(&map, "https://e.com/").unwrap(), true);
    assert_eq!(check(&map, "https://g.com/").unwrap(), false);
    assert!(check(&map, "https://f.com/").is_err());
}

#[test]
fn flags_and_vars() {
    assert_eq!(check(&Condition::FlagIsSet(StringSource::String("abc".to_string())), "https://e.com").unwrap(), true);
    assert_eq!(check(&Condition::FlagIsSet(StringSource::String("nope".to_string())), "https://e.com").unwrap(), false);
    assert_eq!(check(&Condition::AnyFlagIsSet, "https://e.com").unwrap(), true);
    let var = Condition::VarIs { name: StringSource::String("v".to_string()), value: StringSource::String("xyz".to_string()) };
    assert_eq!(check(&var, "https://e.com").unwrap(), true);
    assert!(matches!(
        check(&Condition::CommonFlagIsSet(StringSource::String("abc".to_string())), "https://e.com"),
        Err(ConditionError::NotInACommonContext)
    ));
}

#[test]
fn string_sources() {
    let join = StringSource::Join {
        sources: vec![StringSource::String("a".to_string()), StringSource::Part(UrlPart::Host), StringSource::Var("v".to_string())],
        join: "-".to_string(),
    };
    assert_eq!(source(&join, "https://e.com/p").unwrap(), Some("a-e.com-xyz".to_string()));
    let with_none = StringSource::Join { sources: vec![StringSource::String("a".to_string()), StringSource::Part(UrlPart::Fragment)], join: String::new() };
    assert_eq!(source(&with_none, "https://e.com/p").unwrap(), None);
    let empty = StringSource::NoneToEmptyString(Box::new(StringSource::Part(UrlPart::Fragment)));
    assert_eq!(source(&empty, "https://e.com/p").unwrap(), Some(String::new()));
    let flag = StringSource::IfFlag {
        flag: "abc".to_string(),
        then: Box::new(StringSource::String("yes".to_string())),
        otherwise: Box::new(StringSource::Part(UrlPart::Host)),
    };
    assert_eq!(source(&flag, "https://e.com/p").unwrap(), Some("yes".to_string()));
    let extract = StringSource::ExtractPart {
        source: Box::new(StringSource::Part(UrlPart::QueryParam("u".to_string()))),
        part: UrlPart::Host,
    };
    assert_eq!(source(&extract, "https://e.com/?u=https://inner.org/x").unwrap(), Some("inner.org".to_string()));
    let bad = StringSource::ExtractPart { source: Box::new(StringSource::String("not a url".to_string())), part: UrlPart::Host };
    assert_eq!(source(&bad, "https://e.com/").unwrap_err(), StringSourceError::UrlParseError);
    assert_eq!(source(&StringSource::Error, "https://e.com/").unwrap_err(), StringSourceError::ExplicitError);
    assert_eq!(source(&StringSource::CommonVar("x".to_string()), "https://e.com/").unwrap_err(), StringSourceError::NotInACommonContext);
}

#[test]
fn url_parts_from_parser() {
    let u = url("https://user@Example.com:8080/a/b?x=1#frag");
    assert_eq!(u.scheme, "https");
    assert_eq!(u.host, Some("example.com".to_string()));
    assert_eq!(u.path, "/a/b");
    assert_eq!(u.query, Some("x=1".to_string()));
    assert_eq!(u.fragment, Some("frag".to_string()));
    assert_eq!(u.to_text(), "https://user@example.com:8080/a/b?x=1#frag");
    assert_eq!(UrlPart::PathSegment(-1).get(&u), Some("b".to_string()));
    assert_eq!(UrlPart::PathSegment(2).get(&u), None);
    assert!(BetterUrl::parse("no scheme here").is_err());
}

#[test]
fn matchers() {
    let glob = GlobWrapper::new("a*c").unwrap();
    assert_eq!(StringMatcher::Glob(glob.clone()).satisfied_by("aabcc").unwrap(), true);
    assert_eq!(StringMatcher::Glob(glob).satisfied_by("aabcd").unwrap(), false);
    assert!(GlobWrapper::new("a[").is_err());
    let loc = StringMatcher::StringLocation { location: StringLocation::Start, value: "utm_".to_string() };
    assert_eq!(loc.satisfied_by("utm_abc").unwrap(), true);
    let bad = StringMatcher::StringLocation { location: StringLocation::StartsAt(9), value: "x".to_string() };
    assert!(matches!(bad.satisfied_by("abc"), Err(StringMatcherError::StringLocationError(StringLocationError::InvalidSlice))));
    let t = StringMatcher::TryElse { attempt: Box::new(StringMatcher::Error), otherwise: Box::new(StringMatcher::Error) };
    assert!(matches!(t.satisfied_by("x"), Err(StringMatcherError::TryElseError { .. })));
    assert_eq!(StringMatcher::Not(Box::new(StringMatcher::InSet(vec!["x".to_string()]))).satisfied_by("x").unwrap(), false);
}

#[test]
fn bool_sources() {
    let u = url("https://e.com/path");
    let sp = empty_scratchpad();
    let p = params();
    let cm = no_commons();
    let view = JobStateView { url: &u, scratchpad: &sp, common_args: None, params: &p, commons: &cm, call_budget: 8 };
    assert_eq!(BoolSource::All(vec![]).get(&view).unwrap(), true);
    assert_eq!(BoolSource::Any(vec![]).get(&view).unwrap(), false);
    let loc = BoolSource::StringLocation {
        haystack: StringSource::Part(UrlPart::Path),
        needle: StringSource::String("pa".to_string()),
        haystack_none_to_empty_string: true,
        needle_none_to_empty_string: true,
        location: StringLocation::StartsAt(1),
    };
    assert_eq!(loc.get(&view).unwrap(), true);
    let m = BoolSource::StringMatcher { string: StringSource::Part(UrlPart::Fragment), none_to_empty_string: false, matcher: StringMatcher::Always };
    assert!(m.get(&view).is_err());
    assert_eq!(BoolSource::FlagIsSet(StringSource::String("abc".to_string())).get(&view).unwrap(), true);
}

#[test]
fn commons_calls() {
    let u = url("https://e.com/?a=1");
    let sp = empty_scratchpad();
    let p = params();
    let cm = Commons {
        conditions: vec![("has_flag".to_string(), Condition::CommonFlagIsSet(StringSource::String("f".to_string())))],
        mappers: vec![("strip".to_string(), Mapper::RemoveQuery)],
        string_sources: vec![("loop".to_string(), StringSource::Common(CommonCall { name: "loop".to_string(), args: CommonCallArgs { flags: vec![], vars: vec![] } }))],
    };
    let view = JobStateView { url: &u, scratchpad: &sp, common_args: None, params: &p, commons: &cm, call_budget: 8 };
    let call = Condition::Common(CommonCall { name: "has_flag".to_string(), args: CommonCallArgs { flags: vec!["f".to_string()], vars: vec![] } });
    assert_eq!(call.satisfied_by(&view).unwrap(), true);
    let missing = Condition::Common(CommonCall { name: "nope".to_string(), args: CommonCallArgs { flags: vec![], vars: vec![] } });
    assert!(matches!(missing.satisfied_by(&view), Err(ConditionError::CommonConditionNotFound)));
    let looping = StringSource::Common(CommonCall { name: "loop".to_string(), args: CommonCallArgs { flags: vec![], vars: vec![] } });
    assert_eq!(looping.get(&view).unwrap_err(), StringSourceError::CallDepthExceeded);
    let mut state = JobState { url: url("https://e.com/?a=1"), scratchpad: &sp, common_args: None, params: &p, commons: &cm, call_budget: 8 };
    Mapper::Common(CommonCall { name: "strip".to_string(), args: CommonCallArgs { flags: vec![], vars: vec![] } }).apply(&mut state).unwrap();
    assert_eq!(state.url.to_text(), "https://e.com/");
}

#[test]
fn mappers_change_query_and_fragment() {
    let sp = empty_scratchpad();
    let p = params();
    let cm = no_commons();
    let mut state = JobState { url: url("https://e.com/?a=1&b=2&c=3#f"), scratchpad: &sp, common_args: None, params: &p, commons: &cm, call_budget: 8 };
    Mapper::RemoveQueryParams(vec!["b".to_string()]).apply(&mut state).unwrap();
    assert_eq!(state.url.to_text(), "https://e.com/?a=1&c=3#f");
    Mapper::AllowQueryParams(vec!["c".to_string()]).apply(&mut state).unwrap();
    assert_eq!(state.url.to_text(), "https://e.com/?c=3#f");
    Mapper::RemoveFragment.apply(&mut state).unwrap();
    assert_eq!(state.url.to_text(), "https://e.com/?c=3");
    Mapper::SetFragment(StringSource::String("top".to_string())).apply(&mut state).unwrap();
    assert_eq!(state.url.to_text(), "https://e.com/?c=3#top");
    let failing = Mapper::All(vec![Mapper::RemoveQuery, Mapper::Error]);
    assert!(matches!(failing.apply(&mut state), Err(MapperError::ExplicitError)));
    assert_eq!(state.url.to_text(), "https://e.com/?c=3#top");
    Mapper::IgnoreError(Box::new(Mapper::Error)).apply(&mut state).unwrap();
    assert_eq!(state.url.to_text(), "https://e.com/?c=3#top");
}

#[test]
fn rules_are_all_or_nothing() {
    let sp = empty_scratchpad();
    let p = params();
    let cm = no_commons();
    let rules = Rules(vec![
        Rule::Normal { condition: Condition::Always, mapper: Mapper::RemoveQuery },
        Rule::Normal { condition: Condition::Never, mapper: Mapper::Error },
        Rule::Normal { condition: Condition::Always, mapper: Mapper::Error },
    ]);
    let mut state = JobState { url: url("https://e.com/?a=1"), scratchpad: &sp, common_args: None, params: &p, commons: &cm, call_budget: 8 };
    let r = rules.apply(&mut state);
    assert!(matches!(r, Err(RuleError::MapperError(MapperError::ExplicitError))));
    assert_eq!(state.url.to_text(), "https://e.com/?a=1");
    let failed = Rule::Normal { condition: Condition::Never, mapper: Mapper::DoNothing }.apply(&mut state);
    assert!(matches!(failed, Err(RuleError::FailedCondition)));
}

#[test]
fn host_map_without_host_is_ignored() {
    let sp = empty_scratchpad();
    let p = params();
    let cm = no_commons();
    let rules = Rules(vec![
        Rule::HostMap(vec![("e.com".to_string(), Mapper::Error)]),
        Rule::Normal { condition: Condition::Always, mapper: Mapper::RemoveFragment },
    ]);
    let mut state = JobState { url: url("mailto:someone@e.com#x"), scratchpad: &sp, common_args: None, params: &p, commons: &cm, call_budget: 8 };
    assert!(matches!(Rule::HostMap(vec![]).apply(&mut state), Err(RuleError::UrlHasNoHost)));
    rules.apply(&mut state).unwrap();
    assert_eq!(state.url.to_text(), "mailto:someone@e.com");
    let mut hosted = JobState { url: url("https://other.com/#x"), scratchpad: &sp, common_args: None, params: &p, commons: &cm, call_budget: 8 };
    assert!(matches!(Rule::HostMap(vec![]).apply(&mut hosted), Err(RuleError::HostNotInMap)));
}

#[test]
fn pipeline_keeps_input_order() {
    let j = jobs(vec![Rule::Normal { condition: Condition::Always, mapper: Mapper::RemoveQueryParams(vec!["a".to_string()]) }]);
    let inputs = vec!["https://example.com?a=1".to_string(), "https://example.com?b=2".to_string()];
    let out = j.run(&inputs);
    assert_eq!(out.len(), 2);
    assert_eq!(out[0].as_ref().unwrap().as_ref().unwrap(), "https://example.com/");
    assert_eq!(out[1].as_ref().unwrap().as_ref().unwrap(), "https://example.com/?b=2");
    assert_eq!(j.do_job("not a url").unwrap_err(), MakeJobError::InvalidUrl);
}

#[test]
fn round_robin_plan() {
    assert_eq!(worker_for(7, 3), 1);
    assert_eq!(queue_position(7, 3), 2);
    assert_eq!(collect_source(7, 3), (1, 2));
    assert_eq!(collect_source(0, 1), (0, 0));
}

#[test]
fn cache_entries() {
    let mut c = InnerCache::new(CachePath::Memory);
    assert!(!c.connection());
    assert_eq!(c.read("cat", "key"), None);
    c.write("cat", "key", Some("v"));
    assert_eq!(c.read("cat", "key"), Some(Some("v".to_string())));
    c.write("cat", "key", None);
    assert_eq!(c.read("cat", "key"), Some(None));
    assert_eq!(c.read("cat", "other"), None);
    assert_eq!(c.read("other", "key"), None);
    c.disconnect();
    assert_eq!(c.read("cat", "key"), None);
}

#[test]
fn cache_paths() {
    assert_eq!(CachePath::from_text(":memory:"), CachePath::Memory);
    assert_eq!(CachePath::Memory.as_str(), ":memory:");
    let p = CachePath::from_text("file:///tmp/c.sqlite");
    assert_eq!(p.as_path(), Some("/tmp/c.sqlite".to_string()));
    assert_eq!(CachePath::Path("x.db".to_string()).as_path(), Some("x.db".to_string()));
    assert_eq!(CachePath::Memory.as_path(), None);
}

#[test]
fn condition_error_variants() {
    let none = Condition::FlagIsSet(StringSource::Part(UrlPart::Fragment));
    assert!(matches!(check(&none, "https://e.com/"), Err(ConditionError::StringSourceIsNone)));
    let no_path = Condition::PathSegmentsMatch { start: 0, matchers: vec![], strict: false };
    assert!(matches!(check(&no_path, "mailto:someone@e.com"), Err(ConditionError::UrlDoesNotHaveAPath)));
    let matcher = Condition::StringMatches { value: StringSource::String("x".to_string()), matcher: StringMatcher::Error };
    assert!(matches!(check(&matcher, "https://e.com/"), Err(ConditionError::StringMatcherError(StringMatcherError::ExplicitError))));
    let location = Condition::StringContains {
        value: StringSource::String("abc".to_string()),
        substring: StringSource::String("a".to_string()),
        location: StringLocation::StartsAt(7),
    };
    assert!(matches!(check(&location, "https://e.com/"), Err(ConditionError::StringLocationError(StringLocationError::InvalidSlice))));
    let src = Condition::StringIs { left: StringSource::Error, right: StringSource::String("a".to_string()) };
    assert!(matches!(check(&src, "https://e.com/"), Err(ConditionError::StringSourceError(StringSourceError::ExplicitError))));
    let same = Condition::StringIs { left: StringSource::Part(UrlPart::Fragment), right: StringSource::Part(UrlPart::Query) };
    assert_eq!(check(&same, "https://e.com/").unwrap(), true);
}

#[test]
fn mapper_error_variants() {
    let sp = empty_scratchpad();
    let p = params();
    let cm = no_commons();
    let mut state = JobState { url: url("https://e.com/?a=1"), scratchpad: &sp, common_args: None, params: &p, commons: &cm, call_budget: 8 };
    let missing = Mapper::Common(CommonCall { name: "nope".to_string(), args: CommonCallArgs { flags: vec![], vars: vec![] } });
    assert!(matches!(missing.apply(&mut state), Err(MapperError::CommonMapperNotFound)));
    assert!(matches!(Mapper::SetFragment(StringSource::Error).apply(&mut state), Err(MapperError::StringSourceError(StringSourceError::ExplicitError))));
    let cond = Mapper::If { condition: Condition::Error, then: Box::new(Mapper::RemoveQuery), otherwise: Box::new(Mapper::DoNothing) };
    assert!(matches!(cond.apply(&mut state), Err(MapperError::ConditionError(ConditionError::ExplicitError))));
    let both = Mapper::TryElse { attempt: Box::new(Mapper::Error), otherwise: Box::new(Mapper::Error) };
    assert!(matches!(both.apply(&mut state), Err(MapperError::TryElseError { .. })));
    let first = Mapper::FirstNotError(vec![Mapper::Error, Mapper::RemoveQuery]);
    first.apply(&mut state).unwrap();
    assert_eq!(state.url.to_text(), "https://e.com/");
    let rule = Rule::Normal { condition: Condition::Error, mapper: Mapper::DoNothing };
    assert!(matches!(rule.apply(&mut state), Err(RuleError::ConditionError(ConditionError::ExplicitError))));
}
