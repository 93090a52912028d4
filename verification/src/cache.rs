//! The thumbnail cache: recently used thumbnails in memory, all of them in a database.

use vstd::prelude::*;
use lru::LruCache;
use crate::path::{FilePath, PathView};

verus! {

/// How many thumbnails are kept in memory at most.
pub const MEMORY_ENTRIES: usize = 500;

/// How many thumbnails are dropped from the database beyond its limit, so that not
/// every one that is added drops another.
pub const EVICTION_SLACK: i64 = 100;

/// The hasher of [`LruCache`].
#[verifier::external_type_specification]
#[verifier::external_body]
pub struct ExDefaultHasher(lru::DefaultHasher);

/// The cache of the `lru` crate.
#[verifier::external_type_specification]
#[verifier::external_body]
#[verifier::reject_recursive_types(K)]
#[verifier::reject_recursive_types(V)]
#[verifier::reject_recursive_types(S)]
pub struct ExLruCache<K, V, S>(LruCache<K, V, S>);

/// What an [`LruCache`] holds, most recently used first: the key, and the two parts
/// of the value.
pub uninterp spec fn lru_entries(c: LruCache<String, (u64, Vec<u8>)>) -> Seq<(Seq<char>, u64, Seq<u8>)>;

/// How many entries an [`LruCache`] was made for.
pub uninterp spec fn lru_capacity(c: LruCache<String, (u64, Vec<u8>)>) -> nat;

/// An entry has a key.
pub open spec fn keyed(key: Seq<char>) -> spec_fn((Seq<char>, u64, Seq<u8>)) -> bool {
    |e: (Seq<char>, u64, Seq<u8>)| e.0 == key
}

/// The position of a key's entry; the length where the key has none.
pub open spec fn key_position(s: Seq<(Seq<char>, u64, Seq<u8>)>, key: Seq<char>) -> int {
    crate::seqs::first_where(s, keyed(key))
}

/// The entries after one was put in: it stands in front, in place of an older entry
/// with its key; where there was none and the cache was full, the last one is gone.
pub open spec fn after_put(
    s: Seq<(Seq<char>, u64, Seq<u8>)>,
    cap: nat,
    e: (Seq<char>, u64, Seq<u8>),
) -> Seq<(Seq<char>, u64, Seq<u8>)> {
    let i = key_position(s, e.0);
    if i < s.len() {
        s.remove(i).insert(0, e)
    } else if s.len() == cap {
        s.drop_last().insert(0, e)
    } else {
        s.insert(0, e)
    }
}

/// Calls `LruCache::new`: the new cache is empty and has the given capacity.
#[verifier::external_body]
fn lru_new(cap: usize) -> (r: LruCache<String, (u64, Vec<u8>)>)
    requires
        0 < cap <= MEMORY_ENTRIES,
    ensures
        lru_entries(r) == Seq::<(Seq<char>, u64, Seq<u8>)>::empty(),
        lru_capacity(r) == cap,
{
    LruCache::new(std::num::NonZeroUsize::new(cap).unwrap())
}

/// Calls `LruCache::peek`: gives the value of a key, and nothing where the key has
/// no entry. The order of the entries stays.
#[verifier::external_body]
fn lru_peek<'a>(c: &'a LruCache<String, (u64, Vec<u8>)>, key: &str) -> (r: Option<&'a (u64, Vec<u8>)>)
    ensures
        r.is_some() == (key_position(lru_entries(*c), key@) < lru_entries(*c).len()),
        r.is_some() ==> lru_entries(*c)[key_position(lru_entries(*c), key@)] == (
            key@,
            r.unwrap().0,
            r.unwrap().1@,
        ),
{
    c.peek(key)
}

/// Calls `LruCache::put`: the entry goes to the front, in place of an older one with
/// its key; where there was none and the cache was full, the least recently used
/// entry is dropped. The capacity stays.
#[verifier::external_body]
fn lru_put(c: &mut LruCache<String, (u64, Vec<u8>)>, key: String, value: (u64, Vec<u8>))
    requires
        lru_capacity(*old(c)) > 0,
        lru_entries(*old(c)).len() <= lru_capacity(*old(c)),
    ensures
        lru_entries(*final(c)) == after_put(
            lru_entries(*old(c)),
            lru_capacity(*old(c)),
            (key@, value.0, value.1@),
        ),
        lru_capacity(*final(c)) == lru_capacity(*old(c)),
{
    c.put(key, value);
}

/// What a thumbnail cache is made with.
#[derive(Debug)]
pub struct ThumbCacheConfig {
    /// How many thumbnails the database keeps.
    pub max_entries: usize,
    /// The file of the database.
    pub db_path: FilePath,
    /// Width and height of a thumbnail.
    pub thumb_size: (u32, u32),
    /// The quality that thumbnails are compressed with.
    pub jpeg_quality: u8,
}

/// The file of the database under a folder for application data.
pub open spec fn database_file(base: PathView) -> PathView {
    base.joined("ApertureNeoTurbo"@).joined("thumbs"@).joined("cache.db"@)
}

impl ThumbCacheConfig {
    /// The usual configuration, given the user's folder for application data. Without
    /// one, the current folder takes its place.
    pub fn in_data_dir(base: Option<FilePath>) -> (r: Self)
        ensures
            r.max_entries == 2000,
            r.db_path@ == database_file(
                match base {
                    Some(b) => b@,
                    None => PathView::current_dir(),
                },
            ),
            r.thumb_size == (200u32, 200u32),
            r.jpeg_quality == 85,
    {
        let folder = match base {
            Some(b) => b,
            None => FilePath::current_dir(),
        };
        ThumbCacheConfig {
            max_entries: 2000,
            db_path: folder.join("ApertureNeoTurbo").join("thumbs").join("cache.db"),
            thumb_size: (200, 200),
            jpeg_quality: 85,
        }
    }
}

/// The thumbnails in memory, and the limits of the cache.
pub struct ThumbCache {
    mem: LruCache<String, (u64, Vec<u8>)>,
    config: ThumbCacheConfig,
}

impl View for ThumbCache {
    type V = Seq<(Seq<char>, u64, Seq<u8>)>;

    closed spec fn view(&self) -> Seq<(Seq<char>, u64, Seq<u8>)> {
        lru_entries(self.mem)
    }
}

/// Optional bytes.
pub open spec fn bytes_view(b: Option<Vec<u8>>) -> Option<Seq<u8>> {
    match b {
        Some(v) => Some(v@),
        None => None,
    }
}

/// No two entries have the same key.
pub open spec fn keys_distinct(s: Seq<(Seq<char>, u64, Seq<u8>)>) -> bool {
    forall|i: int, j: int| 0 <= i < j < s.len() ==> (#[trigger] s[i]).0 != (#[trigger] s[j]).0
}

/// The thumbnail of a file in a given state, where memory has it.
pub open spec fn remembered_thumb(
    s: Seq<(Seq<char>, u64, Seq<u8>)>,
    path: PathView,
    mtime: u64,
) -> Option<Seq<u8>> {
    let i = key_position(s, path.text());
    if i < s.len() && s[i].1 == mtime {
        Some(s[i].2)
    } else {
        None
    }
}

/// Putting an entry in keeps the keys distinct and the entries within the capacity.
pub proof fn put_keeps_order(
    s: Seq<(Seq<char>, u64, Seq<u8>)>,
    cap: nat,
    e: (Seq<char>, u64, Seq<u8>),
)
    requires
        keys_distinct(s),
        s.len() <= cap,
        cap > 0,
    ensures
        keys_distinct(after_put(s, cap, e)),
        after_put(s, cap, e).len() <= cap,
        after_put(s, cap, e).len() > 0,
        after_put(s, cap, e)[0] == e,
        key_position(after_put(s, cap, e), e.0) == 0,
{
    let i = key_position(s, e.0);
    let r = after_put(s, cap, e);
    crate::seqs::first_where_is(s, keyed(e.0));
    assert forall|a: int, b: int| 0 <= a < b < r.len() implies (#[trigger] r[a]).0 != (
    #[trigger] r[b]).0 by {
        let from = |k: int|
            if i < s.len() && k - 1 >= i {
                k
            } else {
                k - 1
            };
        assert(r[b] == s[from(b)]);
        if a > 0 {
            assert(r[a] == s[from(a)]);
        } else if from(b) < i {
            assert(!keyed(e.0)(s[from(b)]));
        } else {
            assert(s[i].0 != s[from(b)].0);
        }
    }
    crate::seqs::first_where_unique(r, keyed(e.0), 0);
}

/// What was put in for a file's state comes out for that state, and for no other
/// state of the file. Other files' entries stay as they were, but for the least
/// recently used one where the cache was full.
pub proof fn put_then_get(
    s: Seq<(Seq<char>, u64, Seq<u8>)>,
    cap: nat,
    path: PathView,
    mtime: u64,
    data: Seq<u8>,
    other: u64,
)
    requires
        keys_distinct(s),
        s.len() <= cap,
        cap > 0,
    ensures
        ({
            let r = after_put(s, cap, (path.text(), mtime, data));
            &&& remembered_thumb(r, path, mtime) == Some(data)
            &&& other != mtime ==> remembered_thumb(r, path, other) is None
            &&& forall|i: int|
                0 <= i < s.len() && (i + 1 < cap || s.len() < cap) && (#[trigger] s[i]).0
                    != path.text() ==> r.contains(s[i])
        }),
{
    let e = (path.text(), mtime, data);
    let r = after_put(s, cap, e);
    put_keeps_order(s, cap, e);
    let p = key_position(s, e.0);
    crate::seqs::first_where_is(s, keyed(e.0));
    assert forall|i: int|
        0 <= i < s.len() && (i + 1 < cap || s.len() < cap) && (#[trigger] s[i]).0
            != path.text() implies r.contains(s[i]) by {
        if p < s.len() && i > p {
            assert(r[i] == s[i]);
        } else {
            assert(r[i + 1] == s[i]);
        }
    }
}

/// The thumbnail of a file in a given state: the one in memory, or else what the database
/// has.
pub open spec fn found_thumb(
    s: Seq<(Seq<char>, u64, Seq<u8>)>,
    path: PathView,
    mtime: u64,
    stored: Option<Seq<u8>>,
) -> Option<Seq<u8>> {
    match remembered_thumb(s, path, mtime) {
        Some(bytes) => Some(bytes),
        None => stored,
    }
}

/// The entries after a thumbnail was looked up: what came from the database is remembered.
pub open spec fn after_look(
    s: Seq<(Seq<char>, u64, Seq<u8>)>,
    cap: nat,
    path: PathView,
    mtime: u64,
    stored: Option<Seq<u8>>,
) -> Seq<(Seq<char>, u64, Seq<u8>)> {
    match (remembered_thumb(s, path, mtime), stored) {
        (None, Some(bytes)) => after_put(s, cap, (path.text(), mtime, bytes)),
        _ => s,
    }
}

/// Memory comes before the database; a thumbnail from the database is remembered, so that
/// the next look finds it in memory whatever the database has by then. A look that finds
/// nothing, or finds it in memory, changes nothing.
pub proof fn looked_up_thumbs_are_remembered(
    s: Seq<(Seq<char>, u64, Seq<u8>)>,
    cap: nat,
    path: PathView,
    mtime: u64,
    stored: Option<Seq<u8>>,
    later: Option<Seq<u8>>,
)
    requires
        keys_distinct(s),
        s.len() <= cap,
        cap > 0,
    ensures
        ({
            let r = after_look(s, cap, path, mtime, stored);
            let found = found_thumb(s, path, mtime, stored);
            let known = remembered_thumb(s, path, mtime);
            &&& known is Some ==> found == known && r == s
            &&& known is None ==> found == stored
            &&& found is None <==> known is None && stored is None
            &&& found is None ==> r == s
            &&& found is Some ==> remembered_thumb(r, path, mtime) == found && found_thumb(
                r,
                path,
                mtime,
                later,
            ) == found
        }),
{
    if let Some(bytes) = stored {
        put_then_get(s, cap, path, mtime, bytes, mtime);
    }
}

/// How many thumbnails memory holds at most, by how many the database keeps.
pub open spec fn memory_for(max_entries: usize) -> usize {
    if max_entries < MEMORY_ENTRIES {
        max_entries
    } else {
        MEMORY_ENTRIES
    }
}

/// Memory holds as many thumbnails as the database, but at most five hundred.
pub proof fn memory_is_bounded(max_entries: usize)
    ensures
        memory_for(max_entries) <= 500,
        memory_for(max_entries) <= max_entries,
        memory_for(max_entries) == 500 || memory_for(max_entries) == max_entries,
{
}

/// A full cache drops its last entry, the least recently used one, for a new file; the
/// others move back by one. A file that is there already drops none.
pub proof fn full_cache_drops_the_last(
    s: Seq<(Seq<char>, u64, Seq<u8>)>,
    cap: nat,
    e: (Seq<char>, u64, Seq<u8>),
)
    requires
        keys_distinct(s),
        s.len() <= cap,
        cap > 0,
    ensures
        ({
            let r = after_put(s, cap, e);
            let known = exists|i: int| 0 <= i < s.len() && (#[trigger] s[i]).0 == e.0;
            &&& known ==> r.len() == s.len()
            &&& !known && s.len() < cap ==> r == seq![e] + s
            &&& !known && s.len() == cap ==> r == seq![e] + s.drop_last()
        }),
{
    let r = after_put(s, cap, e);
    let f = keyed(e.0);
    crate::seqs::first_where_is(s, f);
    if exists|i: int| 0 <= i < s.len() && (#[trigger] s[i]).0 == e.0 {
        let i = choose|i: int| 0 <= i < s.len() && (#[trigger] s[i]).0 == e.0;
        assert(f(s[i]));
    } else {
        let i = key_position(s, e.0);
        if i < s.len() {
            assert(s[i].0 == e.0);
        }
        if s.len() == cap {
            assert(r =~= seq![e] + s.drop_last());
        } else {
            assert(r =~= seq![e] + s);
        }
    }
}

/// How many thumbnails to drop from a database that holds so many.
pub open spec fn to_drop(count: i64, limit: usize) -> Option<i64> {
    if count > limit {
        Some((count - limit + EVICTION_SLACK) as i64)
    } else {
        None
    }
}

/// A database within its limit drops nothing; one beyond it drops so many that a hundred
/// fewer than the limit are left.
pub proof fn full_database_makes_room(count: i64, limit: usize)
    requires
        count <= i64::MAX - 100,
    ensures
        count <= limit ==> to_drop(count, limit) is None,
        count > limit ==> to_drop(count, limit) is Some && count - to_drop(count, limit)->0 == limit
            - 100,
{
}

/// The database lies in a folder for thumbnails, in the program's folder for its data.
pub proof fn database_has_its_place(base: PathView)
    ensures
        ({
            let f = database_file(base);
            &&& crate::path::name_of(f.parts()) == Some("cache.db"@)
            &&& f.parts() == base.parts() + seq![
                crate::path::PartView::Normal("ApertureNeoTurbo"@),
                crate::path::PartView::Normal("thumbs"@),
                crate::path::PartView::Normal("cache.db"@),
            ]
        }),
{
    let a = base.joined("ApertureNeoTurbo"@);
    let b = a.joined("thumbs"@);
    crate::path::joined_law(base, "ApertureNeoTurbo"@);
    crate::path::joined_law(a, "thumbs"@);
    crate::path::joined_law(b, "cache.db"@);
    crate::path::joined_names(b, "cache.db"@);
    assert(database_file(base).parts() =~= base.parts() + seq![
        crate::path::PartView::Normal("ApertureNeoTurbo"@),
        crate::path::PartView::Normal("thumbs"@),
        crate::path::PartView::Normal("cache.db"@),
    ]);
}

impl ThumbCache {
    /// How many thumbnails memory holds at most.
    pub closed spec fn memory_capacity(&self) -> nat {
        lru_capacity(self.mem)
    }

    /// How many thumbnails the database keeps.
    pub closed spec fn database_limit(&self) -> usize {
        self.config.max_entries
    }

    /// The entries in memory are within the capacity, one for each file.
    pub open spec fn wf(&self) -> bool {
        &&& self.memory_capacity() > 0
        &&& self@.len() <= self.memory_capacity()
        &&& keys_distinct(self@)
    }

    /// An empty cache.
    pub fn new(config: ThumbCacheConfig) -> (r: Self)
        requires
            config.max_entries > 0,
        ensures
            r.wf(),
            r@ == Seq::<(Seq<char>, u64, Seq<u8>)>::empty(),
            r.memory_capacity() == memory_for(config.max_entries),
            r.database_limit() == config.max_entries,
    {
        let cap: usize = if config.max_entries < MEMORY_ENTRIES {
            config.max_entries
        } else {
            MEMORY_ENTRIES
        };
        ThumbCache { mem: lru_new(cap), config }
    }

    /// The thumbnail of a file in a given state, where memory has it.
    pub fn get_cached(&self, path: &FilePath, mtime: u64) -> (r: Option<Vec<u8>>)
        requires
            self.wf(),
        ensures
            r.is_some() == remembered_thumb(self@, path@, mtime).is_some(),
            r matches Some(v) ==> remembered_thumb(self@, path@, mtime) == Some(v@),
    {
        let key = path.display();
        match lru_peek(&self.mem, key.as_str()) {
            Some(v) => {
                if v.0 == mtime {
                    let copy = v.1.clone();
                    assert(copy@ =~= v.1@);
                    Some(copy)
                } else {
                    None
                }
            },
            None => None,
        }
    }

    /// The thumbnail of a file in a given state: from memory, or else what the
    /// database has for it, which then goes to memory too.
    pub fn get(&mut self, path: &FilePath, mtime: u64, stored: Option<Vec<u8>>) -> (r: Option<Vec<u8>>)
        requires
            old(self).wf(),
        ensures
            final(self).wf(),
            final(self).memory_capacity() == old(self).memory_capacity(),
            final(self).database_limit() == old(self).database_limit(),
            bytes_view(r) == found_thumb(old(self)@, path@, mtime, bytes_view(stored)),
            final(self)@ == after_look(
                old(self)@,
                old(self).memory_capacity(),
                path@,
                mtime,
                bytes_view(stored),
            ),
    {
        match self.get_cached(path, mtime) {
            Some(data) => Some(data),
            None => match stored {
                Some(data) => {
                    let copy = data.clone();
                    assert(copy@ =~= data@);
                    self.put(path, mtime, copy);
                    Some(data)
                },
                None => None,
            },
        }
    }

    /// Puts a thumbnail for a file's state in memory.
    pub fn put(&mut self, path: &FilePath, mtime: u64, data: Vec<u8>)
        requires
            old(self).wf(),
        ensures
            final(self).wf(),
            final(self)@ == after_put(
                old(self)@,
                old(self).memory_capacity(),
                (path@.text(), mtime, data@),
            ),
            final(self).memory_capacity() == old(self).memory_capacity(),
            final(self).database_limit() == old(self).database_limit(),
    {
        let key = path.display();
        proof {
            put_keeps_order(self@, self.memory_capacity(), (key@, mtime, data@));
        }
        lru_put(&mut self.mem, key, (mtime, data));
    }

    /// How many of the oldest thumbnails to drop from a database that holds `count`:
    /// none within the limit, otherwise those beyond it and some more.
    pub fn maybe_evict(&self, count: i64) -> (r: Option<i64>)
        requires
            count <= i64::MAX - EVICTION_SLACK,
            self.database_limit() <= i64::MAX,
        ensures
            r == to_drop(count, self.database_limit()),
    {
        let limit: i64 = self.config.max_entries as i64;
        if count > limit {
            Some(count - limit + EVICTION_SLACK)
        } else {
            None
        }
    }
}

} // verus!
