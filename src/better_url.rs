//! The URL being cleaned, held as its textual components, and the parts that rules read.
use vstd::prelude::*;
use vstd::string::*;
use crate::text::{
    after_first, before_first, chars_of, contains_text, join_strings, join_with, same_text,
    split_chars, split_on, string_of,
};

verus! {

/// The components of a URL, as character sequences.
pub ghost struct UrlView {
    pub scheme: Seq<char>,
    pub authority: Option<Seq<char>>,
    pub host: Option<Seq<char>>,
    pub path: Seq<char>,
    pub query: Option<Seq<char>>,
    pub fragment: Option<Seq<char>>,
}

/// The view of an optional string.
pub open spec fn opt_view(o: Option<String>) -> Option<Seq<char>> {
    match o {
        Some(s) => Some(s@),
        None => None,
    }
}

/// A parsed URL.
///
/// Its text is `scheme ":" ["//" authority] path ["?" query] ["#" fragment]`; `host` is the
/// host inside the authority, if the URL has one.
#[derive(Debug)]
pub struct BetterUrl {
    pub scheme: String,
    pub authority: Option<String>,
    pub host: Option<String>,
    pub path: String,
    pub query: Option<String>,
    pub fragment: Option<String>,
}

impl View for BetterUrl {
    type V = UrlView;

    open spec fn view(&self) -> UrlView {
        UrlView {
            scheme: self.scheme@,
            authority: opt_view(self.authority),
            host: opt_view(self.host),
            path: self.path@,
            query: opt_view(self.query),
            fragment: opt_view(self.fragment),
        }
    }
}

/// `prefix` followed by the text, or nothing.
pub open spec fn prefixed(prefix: Seq<char>, o: Option<Seq<char>>) -> Seq<char> {
    match o {
        Some(s) => prefix + s,
        None => Seq::<char>::empty(),
    }
}

/// The full text of a URL.
pub open spec fn serialization(u: UrlView) -> Seq<char> {
    u.scheme + seq![':'] + prefixed(seq!['/', '/'], u.authority) + u.path + prefixed(
        seq!['?'],
        u.query,
    ) + prefixed(seq!['#'], u.fragment)
}

/// The path segments: `None` for a URL whose path does not start with `/`.
pub open spec fn path_segments(path: Seq<char>) -> Option<Seq<Seq<char>>> {
    if path.len() > 0 && path[0] == '/' {
        Some(split_on(path.drop_first(), '/'))
    } else {
        None
    }
}

/// Resolves an index that counts from the end when negative; `None` when it lies before
/// the start.
pub open spec fn neg_index(index: int, len: int) -> Option<int> {
    if index < 0 {
        if len + index >= 0 {
            Some(len + index)
        } else {
            None
        }
    } else {
        Some(index)
    }
}

/// The name of a query pair: what stands before its first `=`.
pub open spec fn pair_name(pair: Seq<char>) -> Seq<char> {
    before_first(pair, '=')
}

/// The value of a query pair: what stands after its first `=`, empty when there is none.
pub open spec fn pair_value(pair: Seq<char>) -> Seq<char> {
    match after_first(pair, '=') {
        Some(v) => v,
        None => Seq::<char>::empty(),
    }
}

/// The value of the first pair named `name`.
pub open spec fn first_param(pairs: Seq<Seq<char>>, name: Seq<char>) -> Option<Seq<char>>
    decreases pairs.len(),
{
    if pairs.len() == 0 {
        None
    } else if pair_name(pairs[0]) == name {
        Some(pair_value(pairs[0]))
    } else {
        first_param(pairs.drop_first(), name)
    }
}

/// The pairs that stay when keeping (`keep_listed`) or dropping (`!keep_listed`) the names
/// in `names`.
pub open spec fn filter_pairs(pairs: Seq<Seq<char>>, names: Seq<Seq<char>>, keep_listed: bool) -> Seq<
    Seq<char>,
>
    decreases pairs.len(),
{
    if pairs.len() == 0 {
        pairs
    } else {
        let rest = filter_pairs(pairs.drop_last(), names, keep_listed);
        if names.contains(pair_name(pairs.last())) == keep_listed {
            rest.push(pairs.last())
        } else {
            rest
        }
    }
}

/// The query after filtering its pairs; a query left with no pair is removed.
pub open spec fn filtered_query(query: Option<Seq<char>>, names: Seq<Seq<char>>, keep_listed: bool) -> Option<
    Seq<char>,
> {
    match query {
        None => None,
        Some(q) => {
            let kept = filter_pairs(split_on(q, '&'), names, keep_listed);
            if kept.len() == 0 {
                None
            } else {
                Some(join_with(kept, seq!['&']))
            }
        },
    }
}

/// The parts of a URL that rules can read.
#[derive(Debug, Clone, PartialEq, Eq)]
pub enum UrlPart {
    /// The whole URL.
    Whole,
    /// The scheme, such as `https`.
    Scheme,
    /// The host, if any.
    Host,
    /// The path.
    Path,
    /// The query, without its `?`.
    Query,
    /// The fragment, without its `#`.
    Fragment,
    /// One path segment; a negative index counts from the end.
    PathSegment(isize),
    /// The value of the first query pair with this name.
    QueryParam(String),
}

impl UrlPart {
    /// What [`Self::get`] returns for `url`.
    pub open spec fn spec_get(self, url: UrlView) -> Option<Seq<char>> {
        match self {
            UrlPart::Whole => Some(serialization(url)),
            UrlPart::Scheme => Some(url.scheme),
            UrlPart::Host => url.host,
            UrlPart::Path => Some(url.path),
            UrlPart::Query => url.query,
            UrlPart::Fragment => url.fragment,
            UrlPart::PathSegment(i) => match path_segments(url.path) {
                None => None,
                Some(segs) => match neg_index(i as int, segs.len() as int) {
                    Some(k) => if k < segs.len() {
                        Some(segs[k])
                    } else {
                        None
                    },
                    None => None,
                },
            },
            UrlPart::QueryParam(name) => match url.query {
                None => None,
                Some(q) => first_param(split_on(q, '&'), name@),
            },
        }
    }

    /// Gets this part of `url`, or `None` where the URL has no such part.
    pub fn get(&self, url: &BetterUrl) -> (r: Option<String>)
        ensures
            opt_view(r) == self.spec_get(url@),
    {
        match self {
            UrlPart::Whole => Some(url.to_text()),
            UrlPart::Scheme => Some(url.scheme.clone()),
            UrlPart::Host => clone_opt(&url.host),
            UrlPart::Path => Some(url.path.clone()),
            UrlPart::Query => clone_opt(&url.query),
            UrlPart::Fragment => clone_opt(&url.fragment),
            UrlPart::PathSegment(i) => match url.path_segments() {
                None => None,
                Some(segs) => match resolve_index(*i, segs.len()) {
                    Some(k) => if k < segs.len() {
                        Some(segs[k].clone())
                    } else {
                        None
                    },
                    None => None,
                },
            },
            UrlPart::QueryParam(name) => match &url.query {
                None => None,
                Some(q) => query_param(q, name),
            },
        }
    }
}

/// A copy of an optional string.
pub fn clone_opt(o: &Option<String>) -> (r: Option<String>)
    ensures
        opt_view(r) == opt_view(*o),
{
    match o {
        Some(s) => Some(s.clone()),
        None => None,
    }
}

/// Resolves `index` against a list of `len` items, counting from the end when negative.
pub fn resolve_index(index: isize, len: usize) -> (r: Option<usize>)
    ensures
        r matches Some(k) ==> neg_index(index as int, len as int) == Some(k as int),
        r is None ==> neg_index(index as int, len as int) is None,
{
    if index < 0 {
        let back: i128 = -(index as i128);
        if back <= len as i128 {
            Some((len as i128 - back) as usize)
        } else {
            None
        }
    } else {
        Some(index as usize)
    }
}

/// The value of the first pair named `name` in the query `q`.
fn query_param(q: &String, name: &String) -> (r: Option<String>)
    ensures
        opt_view(r) == first_param(split_on(q@, '&'), name@),
{
    let cs = chars_of(q.as_str());
    let pairs = split_chars(&cs, '&');
    let ghost all = pairs.deep_view();
    let mut i: usize = 0;
    assert(all.skip(0) =~= all);
    while i < pairs.len()
        invariant
            all == pairs.deep_view(),
            all == split_on(q@, '&'),
            i <= all.len(),
            first_param(all, name@) == first_param(all.skip(i as int), name@),
        decreases all.len() - i,
    {
        assert(all.skip(i as int)[0] == all[i as int]);
        assert(all.skip(i as int).drop_first() =~= all.skip(i + 1));
        let pcs = chars_of(pairs[i].as_str());
        let (pname, pvalue) = split_pair(&pcs);
        if same_text(pname.as_str(), name.as_str()) {
            return Some(pvalue);
        }
        i = i + 1;
    }
    None
}

/// The name and value of one query pair.
fn split_pair(cs: &Vec<char>) -> (r: (String, String))
    ensures
        r.0@ == pair_name(cs@),
        r.1@ == pair_value(cs@),
{
    let mut i: usize = 0;
    while i < cs.len()
        invariant
            i <= cs@.len(),
            forall|k: int| 0 <= k < i ==> cs@[k] != '=',
        decreases cs@.len() - i,
    {
        if cs[i] == '=' {
            proof {
                lemma_first_sep(cs@, '=', i as int);
            }
            return (string_of(cs, 0, i), string_of(cs, i + 1, cs.len()));
        }
        i = i + 1;
    }
    proof {
        lemma_no_sep(cs@, '=');
    }
    (string_of(cs, 0, cs.len()), String::new())
}

/// With the first `sep` at `i`, the pieces around it are those of `before_first` and
/// `after_first`.
proof fn lemma_first_sep(s: Seq<char>, sep: char, i: int)
    requires
        0 <= i < s.len(),
        s[i] == sep,
        forall|k: int| 0 <= k < i ==> s[k] != sep,
    ensures
        before_first(s, sep) == s.subrange(0, i),
        after_first(s, sep) == Some(s.subrange(i + 1, s.len() as int)),
    decreases s.len(),
{
    lemma_split_prefix_first(s, sep, i);
    lemma_after_first_at(s, sep, i);
}

/// Without `sep`, `before_first` is everything and `after_first` is nothing.
proof fn lemma_no_sep(s: Seq<char>, sep: char)
    requires
        forall|k: int| 0 <= k < s.len() ==> s[k] != sep,
    ensures
        before_first(s, sep) == s,
        after_first(s, sep) is None,
    decreases s.len(),
{
    lemma_split_no_sep(s, sep);
    if s.len() > 0 {
        lemma_no_sep(s.drop_first(), sep);
    }
}

proof fn lemma_split_no_sep(s: Seq<char>, sep: char)
    requires
        forall|k: int| 0 <= k < s.len() ==> s[k] != sep,
    ensures
        split_on(s, sep) == seq![s],
    decreases s.len(),
{
    if s.len() > 0 {
        lemma_split_no_sep(s.drop_last(), sep);
        assert(s.drop_last().push(s.last()) =~= s);
    } else {
        assert(s =~= Seq::<char>::empty());
    }
}

/// The first piece of a split is the text before the first separator, however long the
/// rest is.
proof fn lemma_split_prefix_first(s: Seq<char>, sep: char, i: int)
    requires
        0 <= i < s.len(),
        s[i] == sep,
        forall|k: int| 0 <= k < i ==> s[k] != sep,
    ensures
        split_on(s, sep)[0] == s.subrange(0, i),
    decreases s.len(),
{
    if s.len() == i + 1 {
        lemma_split_no_sep(s.drop_last(), sep);
        assert(s.drop_last() =~= s.subrange(0, i));
    } else {
        lemma_split_prefix_first(s.drop_last(), sep, i);
        lemma_split_two(s.drop_last(), sep, i);
        assert(s.drop_last().subrange(0, i) =~= s.subrange(0, i));
    }
}

proof fn lemma_split_len(s: Seq<char>, sep: char)
    ensures
        split_on(s, sep).len() >= 1,
    decreases s.len(),
{
    if s.len() > 0 {
        lemma_split_len(s.drop_last(), sep);
    }
}

/// A separator in the text makes at least two pieces.
proof fn lemma_split_two(s: Seq<char>, sep: char, i: int)
    requires
        0 <= i < s.len(),
        s[i] == sep,
    ensures
        split_on(s, sep).len() >= 2,
    decreases s.len(),
{
    lemma_split_len(s.drop_last(), sep);
    if i < s.len() - 1 {
        lemma_split_two(s.drop_last(), sep, i);
    }
}

proof fn lemma_after_first_at(s: Seq<char>, sep: char, i: int)
    requires
        0 <= i < s.len(),
        s[i] == sep,
        forall|k: int| 0 <= k < i ==> s[k] != sep,
    ensures
        after_first(s, sep) == Some(s.subrange(i + 1, s.len() as int)),
    decreases i,
{
    if i == 0 {
        assert(s.drop_first() =~= s.subrange(1, s.len() as int));
    } else {
        lemma_after_first_at(s.drop_first(), sep, i - 1);
        assert(s.drop_first().subrange(i, s.len() - 1) =~= s.subrange(i + 1, s.len() as int));
    }
}

/// The components that `url::Url::parse` finds in a text, or `None` where it refuses the text.
pub uninterp spec fn parsed_url(s: Seq<char>) -> Option<UrlView>;

/// The components of a parsed URL: scheme, whether it has an authority, the authority text,
/// host, path, query and fragment.
pub type UrlComponents = (String, bool, String, Option<String>, String, Option<String>, Option<String>);

/// The URL that a tuple of components describes.
pub open spec fn components_view(t: UrlComponents) -> UrlView {
    UrlView {
        scheme: t.0@,
        authority: if t.1 {
            Some(t.2@)
        } else {
            None
        },
        host: opt_view(t.3),
        path: t.4@,
        query: opt_view(t.5),
        fragment: opt_view(t.6),
    }
}

/// Relies on `url::Url::parse`, and on the accessors of the parsed URL for its components.
#[verifier::external_body]
fn parse_with_url_crate(s: &str) -> (r: Option<UrlComponents>)
    ensures
        match r {
            Some(t) => parsed_url(s@) == Some(components_view(t)),
            None => parsed_url(s@) is None,
        },
{
    match ::url::Url::parse(s) {
        Ok(u) => Some((
            u.scheme().to_string(),
            u.has_authority(),
            u[::url::Position::BeforeUsername..::url::Position::AfterPort].to_string(),
            u.host_str().map(String::from),
            u.path().to_string(),
            u.query().map(String::from),
            u.fragment().map(String::from),
        )),
        Err(_) => None,
    }
}

/// The error of [`BetterUrl::parse`].
#[derive(Debug, Clone, PartialEq, Eq, Structural)]
pub enum UrlParseError {
    /// The text is not a URL.
    NotAUrl,
}

impl BetterUrl {
    /// Parses a URL.
    pub fn parse(s: &str) -> (r: Result<BetterUrl, UrlParseError>)
        ensures
            match r {
                Ok(u) => parsed_url(s@) == Some(u@),
                Err(e) => parsed_url(s@) is None && e == UrlParseError::NotAUrl,
            },
    {
        match parse_with_url_crate(s) {
            Some((scheme, has_authority, authority, host, path, query, fragment)) => Ok(BetterUrl {
                scheme,
                authority: if has_authority {
                    Some(authority)
                } else {
                    None
                },
                host,
                path,
                query,
                fragment,
            }),
            None => Err(UrlParseError::NotAUrl),
        }
    }

    /// A copy of this URL.
    pub fn duplicate(&self) -> (r: BetterUrl)
        ensures
            r@ == self@,
    {
        BetterUrl {
            scheme: self.scheme.clone(),
            authority: clone_opt(&self.authority),
            host: clone_opt(&self.host),
            path: self.path.clone(),
            query: clone_opt(&self.query),
            fragment: clone_opt(&self.fragment),
        }
    }

    /// The full text of the URL.
    pub fn to_text(&self) -> (r: String)
        ensures
            r@ == serialization(self@),
    {
        proof {
            reveal_strlit(":");
            reveal_strlit("//");
            reveal_strlit("?");
            reveal_strlit("#");
        }
        let mut out = self.scheme.clone();
        out.append(":");
        if let Some(a) = &self.authority {
            out.append("//");
            out.append(a.as_str());
        }
        out.append(self.path.as_str());
        if let Some(q) = &self.query {
            out.append("?");
            out.append(q.as_str());
        }
        if let Some(f) = &self.fragment {
            out.append("#");
            out.append(f.as_str());
        }
        assert(out@ =~= serialization(self@));
        out
    }

    /// The path segments, or `None` when the path does not start with `/`.
    pub fn path_segments(&self) -> (r: Option<Vec<String>>)
        ensures
            match r {
                Some(v) => path_segments(self.path@) == Some(v.deep_view()),
                None => path_segments(self.path@) is None,
            },
    {
        let cs = chars_of(self.path.as_str());
        if cs.len() > 0 && cs[0] == '/' {
            let rest = string_of(&cs, 1, cs.len());
            let rcs = chars_of(rest.as_str());
            assert(rcs@ =~= self.path@.drop_first());
            Some(split_chars(&rcs, '/'))
        } else {
            None
        }
    }

    /// Whether the query has a pair named `name`.
    pub fn has_query_param(&self, name: &String) -> (r: bool)
        ensures
            r == (UrlPart::QueryParam(*name).spec_get(self@) is Some),
    {
        match &self.query {
            None => false,
            Some(q) => query_param(q, name).is_some(),
        }
    }

    /// Keeps (`keep_listed`) or removes (`!keep_listed`) the query pairs whose names are in
    /// `names`; a query left empty is removed with its `?`.
    pub fn filter_query(&mut self, names: &Vec<String>, keep_listed: bool)
        ensures
            final(self)@ == (UrlView {
                query: filtered_query(old(self)@.query, names.deep_view(), keep_listed),
                ..old(self)@
            }),
    {
        let new_query = match &self.query {
            None => None,
            Some(q) => {
                let cs = chars_of(q.as_str());
                let pairs = split_chars(&cs, '&');
                let ghost all = pairs.deep_view();
                let mut kept: Vec<String> = Vec::new();
                let mut i: usize = 0;
                assert(all.take(0) =~= Seq::<Seq<char>>::empty());
                assert(kept.deep_view() =~= Seq::<Seq<char>>::empty());
                while i < pairs.len()
                    invariant
                        all == pairs.deep_view(),
                        all == split_on(q@, '&'),
                        i <= all.len(),
                        kept.deep_view() == filter_pairs(all.take(i as int), names.deep_view(), keep_listed),
                    decreases all.len() - i,
                {
                    assert(all.take(i + 1).drop_last() =~= all.take(i as int));
                    let pcs = chars_of(pairs[i].as_str());
                    let (pname, _pvalue) = split_pair(&pcs);
                    if contains_text(names, pname.as_str()) == keep_listed {
                        let ghost before = kept.deep_view();
                        kept.push(pairs[i].clone());
                        assert(kept.deep_view() =~= before.push(all[i as int]));
                    }
                    i = i + 1;
                }
                assert(all.take(i as int) =~= all);
                if kept.len() == 0 {
                    None
                } else {
                    proof {
                        reveal_strlit("&");
                        assert("&"@ =~= seq!['&']);
                    }
                    Some(join_strings(&kept, "&"))
                }
            },
        };
        self.query = new_query;
    }

    /// Removes the query.
    pub fn remove_query(&mut self)
        ensures
            final(self)@ == (UrlView { query: None, ..old(self)@ }),
    {
        self.query = None;
    }

    /// Sets or removes the fragment.
    pub fn set_fragment(&mut self, fragment: Option<String>)
        ensures
            final(self)@ == (UrlView { fragment: opt_view(fragment), ..old(self)@ }),
    {
        self.fragment = fragment;
    }
}

} // verus!
