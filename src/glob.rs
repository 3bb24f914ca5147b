//! Glob patterns, matched through the `glob` crate.
use vstd::prelude::*;

verus! {

/// Whether `glob::Pattern::new` accepts the pattern.
pub uninterp spec fn glob_valid(pattern: Seq<char>) -> bool;

/// Whether a valid pattern matches `s` under the options case sensitivity, literal
/// separator and literal leading dot, as `glob::Pattern::matches_with` decides.
pub uninterp spec fn glob_match(pattern: Seq<char>, s: Seq<char>, options: (bool, bool, bool)) -> bool;

/// Relies on `glob::Pattern::new`: whether it compiles the pattern.
#[verifier::external_body]
fn glob_compiles(pattern: &str) -> (r: bool)
    ensures
        r == glob_valid(pattern@),
{
    ::glob::Pattern::new(pattern).is_ok()
}

/// Relies on `glob::Pattern::new` and `glob::Pattern::matches_with`: compiles the pattern and
/// matches `s` with the given options; an invalid pattern matches nothing.
#[verifier::external_body]
fn glob_matches_with(pattern: &str, s: &str, options: &GlobOptions) -> (r: bool)
    ensures
        r == (glob_valid(pattern@) && glob_match(pattern@, s@, options.spec_tuple())),
{
    let options = ::glob::MatchOptions {
        case_sensitive: options.case_sensitive,
        require_literal_separator: options.require_literal_separator,
        require_literal_leading_dot: options.require_literal_leading_dot,
    };
    match ::glob::Pattern::new(pattern) {
        Ok(p) => p.matches_with(s, options),
        Err(_) => false,
    }
}

/// How a glob pattern matches.
#[derive(Debug, Clone, Copy, PartialEq, Eq, Structural)]
pub struct GlobOptions {
    /// Letters must match in case.
    pub case_sensitive: bool,
    /// `/` must be matched by a literal `/`.
    pub require_literal_separator: bool,
    /// A leading `.` must be matched by a literal `.`.
    pub require_literal_leading_dot: bool,
}

impl GlobOptions {
    /// The three options as a tuple.
    pub open spec fn spec_tuple(self) -> (bool, bool, bool) {
        (self.case_sensitive, self.require_literal_separator, self.require_literal_leading_dot)
    }
}

impl Default for GlobOptions {
    /// Case sensitive, separators free, leading dots literal.
    fn default() -> (r: Self)
        ensures
            r == (GlobOptions {
                case_sensitive: true,
                require_literal_separator: false,
                require_literal_leading_dot: true,
            }),
    {
        GlobOptions {
            case_sensitive: true,
            require_literal_separator: false,
            require_literal_leading_dot: true,
        }
    }
}

/// The error of [`GlobWrapper::new`].
#[derive(Debug, Clone, PartialEq, Eq, Structural)]
pub enum GlobError {
    /// The pattern is not a valid glob.
    InvalidPattern,
}

/// A glob pattern with its matching options.
#[derive(Debug, Clone, PartialEq, Eq)]
pub struct GlobWrapper {
    /// The pattern text.
    pub pattern: String,
    /// The options used to match it.
    pub options: GlobOptions,
}

impl GlobWrapper {
    /// A pattern with the default options, if `pattern` is a valid glob.
    pub fn new(pattern: &str) -> (r: Result<GlobWrapper, GlobError>)
        ensures
            match r {
                Ok(g) => glob_valid(pattern@) && g.pattern@ == pattern@ && g.options
                    == GlobOptions::default_spec(),
                Err(e) => !glob_valid(pattern@) && e == GlobError::InvalidPattern,
            },
    {
        if glob_compiles(pattern) {
            Ok(GlobWrapper { pattern: pattern.to_owned(), options: GlobOptions::default() })
        } else {
            Err(GlobError::InvalidPattern)
        }
    }

    /// Whether `s` matches the pattern; an invalid pattern matches nothing.
    pub fn matches(&self, s: &str) -> (r: bool)
        ensures
            r == (glob_valid(self.pattern@) && glob_match(self.pattern@, s@, self.options.spec_tuple())),
    {
        glob_matches_with(self.pattern.as_str(), s, &self.options)
    }
}

impl GlobOptions {
    /// The value that [`GlobOptions::default`] returns.
    pub open spec fn default_spec() -> GlobOptions {
        GlobOptions {
            case_sensitive: true,
            require_literal_separator: false,
            require_literal_leading_dot: true,
        }
    }
}

} // verus!
