//! A keyed store of optional strings, connected on first use.
use vstd::prelude::*;
use crate::better_url::opt_view;
use crate::text::same_text;

verus! {

/// Where the store lives.
#[derive(Debug, Clone, PartialEq, Eq)]
pub enum CachePath {
    /// In memory, for the life of the process.
    Memory,
    /// At this location.
    Path(String),
}

impl CachePath {
    /// The text this path is written as: `:memory:` for [`CachePath::Memory`].
    pub fn as_str(&self) -> (r: &str)
        ensures
            match self {
                CachePath::Memory => r@ == ":memory:"@,
                CachePath::Path(p) => r@ == p@,
            },
    {
        match self {
            CachePath::Memory => ":memory:",
            CachePath::Path(p) => p.as_str(),
        }
    }

    /// The location of a [`CachePath::Path`], without a leading `file://`.
    pub fn as_path(&self) -> (r: Option<String>)
        ensures
            match self {
                CachePath::Memory => r is None,
                CachePath::Path(p) => (r matches Some(s) && if p@.len() >= 7 && p@.subrange(0, 7)
                    == "file://"@ {
                    s@ == p@.subrange(7, p@.len() as int)
                } else {
                    s@ == p@
                }),
            },
    {
        match self {
            CachePath::Memory => None,
            CachePath::Path(p) => {
                let cs = crate::text::chars_of(p.as_str());
                proof {
                    reveal_strlit("file://");
                }
                if cs.len() >= 7 && cs[0] == 'f' && cs[1] == 'i' && cs[2] == 'l' && cs[3] == 'e'
                    && cs[4] == ':' && cs[5] == '/' && cs[6] == '/' {
                    assert(p@.subrange(0, 7) =~= "file://"@);
                    Some(crate::text::string_of(&cs, 7, cs.len()))
                } else {
                    assert(p@.len() >= 7 ==> p@.subrange(0, 7) != "file://"@ || (cs@[0] == 'f'
                        && cs@[1] == 'i' && cs@[2] == 'l' && cs@[3] == 'e' && cs@[4] == ':'
                        && cs@[5] == '/' && cs@[6] == '/')) by {
                        if p@.len() >= 7 && p@.subrange(0, 7) == "file://"@ {
                            assert(p@.subrange(0, 7)[0] == 'f');
                            assert(p@.subrange(0, 7)[1] == 'i');
                            assert(p@.subrange(0, 7)[2] == 'l');
                            assert(p@.subrange(0, 7)[3] == 'e');
                            assert(p@.subrange(0, 7)[4] == ':');
                            assert(p@.subrange(0, 7)[5] == '/');
                            assert(p@.subrange(0, 7)[6] == '/');
                        }
                    }
                    Some(crate::text::string_of(&cs, 0, cs.len()))
                }
            },
        }
    }

    /// The path written as `s`: `:memory:` is [`CachePath::Memory`].
    pub fn from_text(s: &str) -> (r: CachePath)
        ensures
            s@ == ":memory:"@ ==> r == CachePath::Memory,
            s@ != ":memory:"@ ==> (r matches CachePath::Path(p) && p@ == s@),
    {
        if same_text(s, ":memory:") {
            CachePath::Memory
        } else {
            CachePath::Path(s.to_owned())
        }
    }
}

/// One stored entry.
#[derive(Debug)]
pub struct CacheEntry {
    /// The category of the entry.
    pub category: String,
    /// The key of the entry.
    pub key: String,
    /// The stored value; `None` is a stored answer of its own.
    pub value: Option<String>,
}

/// The key of an entry.
pub open spec fn entry_key(e: CacheEntry) -> (Seq<char>, Seq<char>) {
    (e.category@, e.key@)
}

/// What a list of entries stores: a later entry of a key stands over an earlier one.
pub open spec fn entries_model(es: Seq<CacheEntry>) -> Map<(Seq<char>, Seq<char>), Option<Seq<char>>>
    decreases es.len(),
{
    if es.len() == 0 {
        Map::empty()
    } else {
        entries_model(es.drop_last()).insert(entry_key(es.last()), opt_view(es.last().value))
    }
}

/// What a read of `(category, key)` finds in the stored map: whether there is an entry,
/// and its value.
pub open spec fn spec_read(
    m: Map<(Seq<char>, Seq<char>), Option<Seq<char>>>,
    category: Seq<char>,
    key: Seq<char>,
) -> Option<Option<Seq<char>>> {
    if m.contains_key((category, key)) {
        Some(m[(category, key)])
    } else {
        None
    }
}

/// The view of a read result.
pub open spec fn read_view(r: Option<Option<String>>) -> Option<Option<Seq<char>>> {
    match r {
        Some(v) => Some(opt_view(v)),
        None => None,
    }
}

/// The store behind a cache, lazily connected.
#[derive(Debug)]
pub struct InnerCache {
    /// Where the store lives.
    path: CachePath,
    /// The entries, once connected.
    connection: Option<Vec<CacheEntry>>,
}

impl InnerCache {
    /// What the store holds; nothing before it is connected.
    pub closed spec fn model(&self) -> Map<(Seq<char>, Seq<char>), Option<Seq<char>>> {
        match self.connection {
            Some(es) => entries_model(es@),
            None => Map::empty(),
        }
    }

    /// Whether the store is connected.
    pub closed spec fn is_connected(&self) -> bool {
        self.connection is Some
    }

    /// The location of the store.
    pub closed spec fn spec_path(&self) -> CachePath {
        self.path
    }

    /// An unconnected store at `path`; it holds nothing yet.
    pub fn new(path: CachePath) -> (r: InnerCache)
        ensures
            r.model() == Map::<(Seq<char>, Seq<char>), Option<Seq<char>>>::empty(),
            !r.is_connected(),
            r.spec_path() == path,
    {
        InnerCache { path, connection: None }
    }

    /// The location of the store.
    pub fn path(&self) -> (r: &CachePath)
        ensures
            *r == self.spec_path(),
    {
        &self.path
    }

    /// Whether the store is connected.
    pub fn connection(&self) -> (r: bool)
        ensures
            r == self.is_connected(),
    {
        self.connection.is_some()
    }

    /// Connects, where not connected yet: a new store starts empty. A connected store is
    /// left as it is.
    pub fn connect(&mut self)
        ensures
            final(self).is_connected(),
            final(self).model() == old(self).model(),
            final(self).spec_path() == old(self).spec_path(),
    {
        if self.connection.is_none() {
            self.connection = Some(Vec::new());
            assert(entries_model(Seq::<CacheEntry>::empty()) =~= Map::empty());
        }
    }

    /// Drops the connection and, with it, what an in-memory store held.
    pub fn disconnect(&mut self)
        ensures
            !final(self).is_connected(),
            final(self).model() == Map::<(Seq<char>, Seq<char>), Option<Seq<char>>>::empty(),
            final(self).spec_path() == old(self).spec_path(),
    {
        self.connection = None;
    }

    /// Reads an entry: `None` where there is none, else its stored value.
    pub fn read(&mut self, category: &str, key: &str) -> (r: Option<Option<String>>)
        ensures
            read_view(r) == spec_read(old(self).model(), category@, key@),
            final(self).model() == old(self).model(),
            final(self).is_connected(),
            final(self).spec_path() == old(self).spec_path(),
    {
        self.connect();
        let es = match &self.connection {
            Some(es) => es,
            None => {
                return None;
            },
        };
        match last_index(es, category, key) {
            Some(i) => {
                proof {
                    lemma_model_at_last(es@, category@, key@, i as int);
                }
                Some(crate::better_url::clone_opt(&es[i].value))
            },
            None => {
                proof {
                    lemma_model_absent(es@, category@, key@);
                }
                None
            },
        }
    }

    /// Writes an entry: replaces the entry of `(category, key)` where there is one, adds one
    /// where there is none.
    pub fn write(&mut self, category: &str, key: &str, value: Option<&str>)
        ensures
            final(self).model() == old(self).model().insert((category@, key@), match value {
                Some(v) => Some(v@),
                None => None::<Seq<char>>,
            }),
            final(self).is_connected(),
            final(self).spec_path() == old(self).spec_path(),
    {
        self.connect();
        let new_value = match value {
            Some(v) => Some(v.to_owned()),
            None => None,
        };
        let entry = CacheEntry { category: category.to_owned(), key: key.to_owned(), value: new_value };
        let mut es = match self.connection.take() {
            Some(es) => es,
            None => Vec::new(),
        };
        let ghost before = es@;
        match last_index(&es, category, key) {
            Some(i) => {
                es.set(i, entry);
                proof {
                    lemma_model_update_last(before, category@, key@, i as int, es@[i as int]);
                    assert(before.update(i as int, es@[i as int]) =~= es@);
                }
            },
            None => {
                es.push(entry);
                assert(es@.drop_last() =~= before);
            },
        }
        self.connection = Some(es);
    }
}

/// The last index of an entry with key `(category, key)`.
fn last_index(es: &Vec<CacheEntry>, category: &str, key: &str) -> (r: Option<usize>)
    ensures
        r matches Some(i) ==> i < es@.len() && entry_key(es@[i as int]) == (category@, key@)
            && forall|j: int| i < j < es@.len() ==> entry_key(#[trigger] es@[j]) != (category@, key@),
        r is None ==> forall|j: int| 0 <= j < es@.len() ==> entry_key(#[trigger] es@[j]) != (category@, key@),
{
    let mut i: usize = es.len();
    while i > 0
        invariant
            i <= es@.len(),
            forall|j: int| i <= j < es@.len() ==> entry_key(#[trigger] es@[j]) != (category@, key@),
        decreases i,
    {
        i = i - 1;
        if same_text(es[i].category.as_str(), category) && same_text(es[i].key.as_str(), key) {
            return Some(i);
        }
    }
    None
}

proof fn lemma_model_absent(es: Seq<CacheEntry>, category: Seq<char>, key: Seq<char>)
    requires
        forall|j: int| 0 <= j < es.len() ==> entry_key(#[trigger] es[j]) != (category, key),
    ensures
        !entries_model(es).contains_key((category, key)),
    decreases es.len(),
{
    if es.len() > 0 {
        assert(entry_key(es[es.len() - 1]) != (category, key));
        lemma_model_absent(es.drop_last(), category, key);
    }
}

proof fn lemma_model_at_last(es: Seq<CacheEntry>, category: Seq<char>, key: Seq<char>, i: int)
    requires
        0 <= i < es.len(),
        entry_key(es[i]) == (category, key),
        forall|j: int| i < j < es.len() ==> entry_key(#[trigger] es[j]) != (category, key),
    ensures
        entries_model(es).contains_key((category, key)),
        entries_model(es)[(category, key)] == opt_view(es[i].value),
    decreases es.len(),
{
    if i < es.len() - 1 {
        assert(entry_key(es[es.len() - 1]) != (category, key));
        lemma_model_at_last(es.drop_last(), category, key, i);
    }
}

proof fn lemma_model_update_last(
    es: Seq<CacheEntry>,
    category: Seq<char>,
    key: Seq<char>,
    i: int,
    e: CacheEntry,
)
    requires
        0 <= i < es.len(),
        entry_key(es[i]) == (category, key),
        entry_key(e) == (category, key),
        forall|j: int| i < j < es.len() ==> entry_key(#[trigger] es[j]) != (category, key),
    ensures
        entries_model(es.update(i, e)) == entries_model(es).insert((category, key), opt_view(e.value)),
    decreases es.len(),
{
    let up = es.update(i, e);
    if i == es.len() - 1 {
        assert(up.drop_last() =~= es.drop_last());
        assert(entries_model(up) =~= entries_model(es).insert((category, key), opt_view(e.value)));
    } else {
        assert(entry_key(es[es.len() - 1]) != (category, key));
        assert(up.drop_last() =~= es.drop_last().update(i, e));
        lemma_model_update_last(es.drop_last(), category, key, i, e);
        assert(entries_model(up) =~= entries_model(es).insert((category, key), opt_view(e.value)));
    }
}

} // verus!
