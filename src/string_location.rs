//! Where a needle has to occur inside a haystack.
//!
//! All offsets are byte offsets into the UTF-8 encoding of the haystack.
use vstd::prelude::*;
use vstd::string::*;
use vstd::utf8::is_char_boundary;

verus! {

/// `true` when `needle` occurs in `hay` starting at byte `i`.
pub open spec fn occurs_at(hay: Seq<u8>, needle: Seq<u8>, i: int) -> bool {
    &&& 0 <= i
    &&& i + needle.len() <= hay.len()
    &&& hay.subrange(i, i + needle.len()) == needle
}

/// `true` when `needle` occurs somewhere inside the byte range `lo..hi` of `hay`.
pub open spec fn occurs_within(hay: Seq<u8>, needle: Seq<u8>, lo: int, hi: int) -> bool {
    exists|i: int| lo <= i && i + needle.len() <= hi && #[trigger] occurs_at(hay, needle, i)
}

/// `true` when `hay[start..end]` is a slice that `str::get` would hand out.
pub open spec fn slice_ok(hay: Seq<u8>, start: int, end: int) -> bool {
    &&& start <= end
    &&& is_char_boundary(hay, start)
    &&& is_char_boundary(hay, end)
}

/// The location of a string inside another string.
#[derive(Debug, Clone, PartialEq, Eq, Structural)]
pub enum StringLocation {
    /// The needle occurs anywhere in the haystack.
    Anywhere,
    /// The haystack starts with the needle.
    Start,
    /// The haystack ends with the needle.
    End,
    /// The bytes `start..end` of the haystack are exactly the needle.
    RangeIs { start: usize, end: usize },
    /// The needle starts at byte `start`.
    StartsAt(usize),
    /// The needle ends at byte `end`.
    EndsAt(usize),
    /// The needle occurs inside the bytes `start..end`.
    RangeHas { start: usize, end: usize },
    /// The needle occurs inside the bytes from `start` on.
    After(usize),
    /// The needle occurs inside the bytes before `end`.
    Before(usize),
}

/// The errors that [`StringLocation::satisfied_by`] can return.
#[derive(Debug, Clone, PartialEq, Eq, Structural)]
pub enum StringLocationError {
    /// The requested part of the haystack is out of bounds or splits a character.
    InvalidSlice,
}

impl Default for StringLocation {
    fn default() -> (r: Self)
        ensures
            r == StringLocation::Anywhere,
    {
        StringLocation::Anywhere
    }
}

impl StringLocation {
    /// What [`Self::satisfied_by`] returns for the UTF-8 bytes `hay` and `needle`.
    pub open spec fn spec_satisfied_by(self, hay: Seq<u8>, needle: Seq<u8>) -> Result<
        bool,
        StringLocationError,
    > {
        let len = hay.len() as int;
        let n = needle.len() as int;
        match self {
            StringLocation::Anywhere => Ok(occurs_within(hay, needle, 0, len)),
            StringLocation::Start => Ok(occurs_at(hay, needle, 0)),
            StringLocation::End => Ok(occurs_at(hay, needle, len - n)),
            StringLocation::RangeIs { start, end } => if slice_ok(hay, start as int, end as int) {
                Ok(hay.subrange(start as int, end as int) == needle)
            } else {
                Err(StringLocationError::InvalidSlice)
            },
            StringLocation::StartsAt(start) => if slice_ok(hay, start as int, len) {
                Ok(occurs_at(hay, needle, start as int))
            } else {
                Err(StringLocationError::InvalidSlice)
            },
            StringLocation::EndsAt(end) => if slice_ok(hay, 0, end as int) {
                Ok(n <= end && occurs_at(hay, needle, end - n))
            } else {
                Err(StringLocationError::InvalidSlice)
            },
            StringLocation::RangeHas { start, end } => if slice_ok(hay, start as int, end as int) {
                Ok(occurs_within(hay, needle, start as int, end as int))
            } else {
                Err(StringLocationError::InvalidSlice)
            },
            StringLocation::After(start) => if slice_ok(hay, start as int, len) {
                Ok(occurs_within(hay, needle, start as int, len))
            } else {
                Err(StringLocationError::InvalidSlice)
            },
            StringLocation::Before(end) => if slice_ok(hay, 0, end as int) {
                Ok(occurs_within(hay, needle, 0, end as int))
            } else {
                Err(StringLocationError::InvalidSlice)
            },
        }
    }

    /// Checks if `needle` exists in `haystack` according to `self`.
    ///
    /// Fails with [`StringLocationError::InvalidSlice`] when only part of the haystack is
    /// searched and that part is out of bounds or splits a character.
    pub fn satisfied_by(&self, haystack: &str, needle: &str) -> (r: Result<bool, StringLocationError>)
        ensures
            r == self.spec_satisfied_by(haystack.spec_bytes(), needle.spec_bytes()),
    {
        let hay = haystack.as_bytes();
        let nd = needle.as_bytes();
        let len = hay.len();
        proof {
            vstd::utf8::encode_utf8_valid_utf8(haystack@);
            vstd::utf8::is_char_boundary_start_end_of_seq(haystack.spec_bytes());
            match self {
                StringLocation::RangeHas { start, end } => {
                    if is_char_boundary(hay@, *end as int) {
                        lemma_boundary_in_bounds(haystack, *end as int);
                    }
                },
                StringLocation::Before(end) => {
                    if is_char_boundary(hay@, *end as int) {
                        lemma_boundary_in_bounds(haystack, *end as int);
                    }
                },
                _ => {},
            }
        }
        match self {
            StringLocation::Anywhere => Ok(contains_in(hay, 0, len, nd)),
            StringLocation::Start => Ok(len >= nd.len() && matches_at(hay, 0, nd)),
            StringLocation::End => Ok(len >= nd.len() && matches_at(hay, len - nd.len(), nd)),
            StringLocation::RangeIs { start, end } => {
                if *start <= *end && haystack.is_char_boundary(*start)
                    && haystack.is_char_boundary(*end) {
                    Ok(*end - *start == nd.len() && matches_at(hay, *start, nd))
                } else {
                    Err(StringLocationError::InvalidSlice)
                }
            },
            StringLocation::StartsAt(start) => {
                if *start <= len && haystack.is_char_boundary(*start) && haystack.is_char_boundary(
                    len,
                ) {
                    Ok(len - *start >= nd.len() && matches_at(hay, *start, nd))
                } else {
                    Err(StringLocationError::InvalidSlice)
                }
            },
            StringLocation::EndsAt(end) => {
                if haystack.is_char_boundary(0) && haystack.is_char_boundary(*end) {
                    Ok(nd.len() <= *end && matches_at(hay, *end - nd.len(), nd))
                } else {
                    Err(StringLocationError::InvalidSlice)
                }
            },
            StringLocation::RangeHas { start, end } => {
                if *start <= *end && haystack.is_char_boundary(*start)
                    && haystack.is_char_boundary(*end) {
                    Ok(contains_in(hay, *start, *end, nd))
                } else {
                    Err(StringLocationError::InvalidSlice)
                }
            },
            StringLocation::After(start) => {
                if *start <= len && haystack.is_char_boundary(*start) && haystack.is_char_boundary(
                    len,
                ) {
                    Ok(contains_in(hay, *start, len, nd))
                } else {
                    Err(StringLocationError::InvalidSlice)
                }
            },
            StringLocation::Before(end) => {
                if haystack.is_char_boundary(0) && haystack.is_char_boundary(*end) {
                    Ok(contains_in(hay, 0, *end, nd))
                } else {
                    Err(StringLocationError::InvalidSlice)
                }
            },
        }
    }
}

/// Whether the bytes of `needle` stand in `hay` from byte `i` on.
fn matches_at(hay: &[u8], i: usize, needle: &[u8]) -> (r: bool)
    ensures
        r == occurs_at(hay@, needle@, i as int),
{
    if i > hay.len() || needle.len() > hay.len() - i {
        return false;
    }
    let hl = hay.len();
    let mut j: usize = 0;
    while j < needle.len()
        invariant
            hl == hay@.len(),
            i + needle@.len() <= hl,
            j <= needle@.len(),
            forall|k: int| 0 <= k < j ==> hay@[i + k] == needle@[k],
        decreases needle@.len() - j,
    {
        if hay[i + j] != needle[j] {
            assert(hay@.subrange(i as int, i + needle@.len())[j as int] != needle@[j as int]);
            return false;
        }
        j = j + 1;
    }
    assert(hay@.subrange(i as int, i + needle@.len()) =~= needle@);
    true
}

/// Whether `needle` occurs inside the bytes `lo..hi` of `hay`.
fn contains_in(hay: &[u8], lo: usize, hi: usize, needle: &[u8]) -> (r: bool)
    requires
        hi <= hay@.len(),
    ensures
        r == occurs_within(hay@, needle@, lo as int, hi as int),
{
    if lo > hi || needle.len() > hi - lo {
        return false;
    }
    let last = hi - needle.len();
    let mut i: usize = lo;
    while i <= last
        invariant
            lo <= i,
            last + needle@.len() == hi,
            hi <= hay@.len(),
            forall|k: int| lo <= k < i ==> !occurs_at(hay@, needle@, k),
        decreases last + 1 - i,
    {
        if matches_at(hay, i, needle) {
            return true;
        }
        if i == last {
            return false;
        }
        i = i + 1;
    }
    false
}

/// A character boundary of a string lies inside its bytes.
proof fn lemma_boundary_in_bounds(s: &str, i: int)
    requires
        is_char_boundary(s.spec_bytes(), i),
    ensures
        0 <= i <= s.spec_bytes().len(),
{
    vstd::utf8::encode_utf8_valid_utf8(s@);
}

} // verus!
