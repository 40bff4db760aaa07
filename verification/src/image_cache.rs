//! The cache of fetched images: a bounded map from the address of an image
//! to its media type and base64 payload, which drops the entry that was
//! used least recently when it is full.

use vstd::prelude::*;

verus! {

/// The cache of the `lru` crate, opaque to the verifier.
#[verifier::external_type_specification]
#[verifier::external_body]
#[verifier::reject_recursive_types(K)]
#[verifier::reject_recursive_types(V)]
#[verifier::reject_recursive_types(S)]
pub struct ExLruCache<K, V, S>(lru::LruCache<K, V, S>);

/// The hasher that the cache uses where none is named, opaque too.
#[verifier::external_type_specification]
#[verifier::external_body]
pub struct ExDefaultHasher(lru::DefaultHasher);

/// What one entry holds.
pub struct CachedImage {
    pub url: Seq<char>,
    pub mime_type: Seq<char>,
    pub data: Seq<char>,
}

/// The entries of a cache, from the one used most recently to the one used
/// least recently.
pub uninterp spec fn cache_entries(cache: lru::LruCache<String, (String, String)>) -> Seq<
    CachedImage,
>;

/// The number of entries that a cache was made to hold.
pub uninterp spec fn cache_limit(cache: lru::LruCache<String, (String, String)>) -> nat;

/// Position of the entry for `url`, or the number of entries if there is
/// none.
pub open spec fn position(entries: Seq<CachedImage>, url: Seq<char>) -> int
    decreases entries.len(),
{
    if entries.len() == 0 {
        0
    } else if entries[0].url == url {
        0
    } else {
        1 + position(entries.drop_first(), url)
    }
}

/// The entry for `url`, if there is one.
pub open spec fn found(entries: Seq<CachedImage>, url: Seq<char>) -> Option<CachedImage> {
    if position(entries, url) < entries.len() {
        Some(entries[position(entries, url)])
    } else {
        None
    }
}

/// The entries after a look at `url`: its entry, if there is one, becomes
/// the one used most recently.
pub open spec fn touched(entries: Seq<CachedImage>, url: Seq<char>) -> Seq<CachedImage> {
    let i = position(entries, url);
    if i < entries.len() {
        seq![entries[i]] + entries.remove(i)
    } else {
        entries
    }
}

/// The entries after `entry` was stored in a cache for `limit` entries. It
/// becomes the one used most recently. It replaces the entry of the same
/// address; without one, and with the cache full, the entry used least
/// recently leaves.
pub open spec fn stored(entries: Seq<CachedImage>, limit: nat, entry: CachedImage) -> Seq<
    CachedImage,
> {
    let i = position(entries, entry.url);
    if i < entries.len() {
        seq![entry] + entries.remove(i)
    } else if entries.len() >= limit && entries.len() > 0 {
        seq![entry] + entries.drop_last()
    } else {
        seq![entry] + entries
    }
}

/// Most entries that a cache can be made for.
pub const MAX_CACHE_LIMIT: usize = 65536;

/// `LruCache::new`: an empty cache for `limit` entries. The limit is not
/// zero, as `NonZeroUsize` asks, and small enough for the table that the
/// call allocates at once.
#[verifier::external_body]
fn lru_new(limit: usize) -> (cache: lru::LruCache<String, (String, String)>)
    requires
        0 < limit <= MAX_CACHE_LIMIT,
    ensures
        cache_entries(cache) == Seq::<CachedImage>::empty(),
        cache_limit(cache) == limit,
{
    lru::LruCache::new(std::num::NonZeroUsize::new(limit).unwrap())
}

/// `LruCache::get`: the value stored for the key, which becomes the entry
/// used most recently; nothing changes where the key is absent.
#[verifier::external_body]
fn lru_get(cache: &mut lru::LruCache<String, (String, String)>, url: &str) -> (r: Option<
    (String, String),
>)
    ensures
        cache_entries(*final(cache)) == touched(cache_entries(*old(cache)), url@),
        cache_limit(*final(cache)) == cache_limit(*old(cache)),
        match found(cache_entries(*old(cache)), url@) {
            Some(entry) => r.is_some() && r.unwrap().0@ == entry.mime_type && r.unwrap().1@
                == entry.data,
            None => r.is_none(),
        },
{
    cache.get(url).cloned()
}

/// `LruCache::put`: the pair becomes the entry used most recently. It
/// replaces the value of a key that is present; for a new key in a full
/// cache the entry used least recently is dropped.
#[verifier::external_body]
fn lru_put(
    cache: &mut lru::LruCache<String, (String, String)>,
    url: String,
    mime_type: String,
    data: String,
)
    ensures
        cache_entries(*final(cache)) == stored(
            cache_entries(*old(cache)),
            cache_limit(*old(cache)),
            CachedImage { url: url@, mime_type: mime_type@, data: data@ },
        ),
        cache_limit(*final(cache)) == cache_limit(*old(cache)),
{
    cache.put(url, (mime_type, data));
}

/// Whether no two entries have the same address.
pub open spec fn distinct_urls(entries: Seq<CachedImage>) -> bool {
    forall|i: int, j: int|
        0 <= i < j < entries.len() ==> (#[trigger] entries[i]).url != (#[trigger] entries[j]).url
}

/// `position` is the least position whose entry has the address.
pub proof fn lemma_position(entries: Seq<CachedImage>, url: Seq<char>)
    ensures
        0 <= position(entries, url) <= entries.len(),
        position(entries, url) < entries.len() ==> entries[position(entries, url)].url == url,
        forall|j: int| 0 <= j < position(entries, url) ==> (#[trigger] entries[j]).url != url,
    decreases entries.len(),
{
    if entries.len() > 0 && entries[0].url != url {
        let rest = entries.drop_first();
        lemma_position(rest, url);
        assert forall|j: int| 0 <= j < position(entries, url) implies (#[trigger] entries[j]).url
            != url by {
            if j > 0 {
                assert(entries[j] == rest[j - 1]);
            }
        }
    }
}

/// A bounded cache of fetched images.
pub struct ImageCache {
    inner: lru::LruCache<String, (String, String)>,
}

impl View for ImageCache {
    type V = Seq<CachedImage>;

    closed spec fn view(&self) -> Seq<CachedImage> {
        cache_entries(self.inner)
    }
}

impl ImageCache {
    /// The number of entries that the cache holds at most.
    pub closed spec fn limit(&self) -> nat {
        cache_limit(self.inner)
    }

    /// Whether the cache is well formed: it holds no more entries than its
    /// limit, which is not zero, and no address twice.
    pub open spec fn wf(&self) -> bool {
        &&& self.limit() > 0
        &&& self@.len() <= self.limit()
        &&& distinct_urls(self@)
    }

    /// An empty cache for `limit` entries.
    pub fn new(limit: usize) -> (r: Self)
        requires
            0 < limit <= MAX_CACHE_LIMIT,
        ensures
            r.wf(),
            r@ == Seq::<CachedImage>::empty(),
            r.limit() == limit,
    {
        ImageCache { inner: lru_new(limit) }
    }

    /// Looks an address up. A hit hands back the media type and the payload
    /// and makes the entry the one used most recently.
    pub fn lookup(&mut self, url: &str) -> (r: Option<(String, String)>)
        requires
            old(self).wf(),
        ensures
            final(self).wf(),
            final(self).limit() == old(self).limit(),
            final(self)@ == touched(old(self)@, url@),
            match found(old(self)@, url@) {
                Some(entry) => r.is_some() && r.unwrap().0@ == entry.mime_type && r.unwrap().1@
                    == entry.data,
                None => r.is_none(),
            },
    {
        proof {
            lemma_touched_well_formed(self@, url@);
        }
        lru_get(&mut self.inner, url)
    }

    /// Stores the media type and the payload of an address.
    pub fn store(&mut self, url: &str, mime_type: &str, data: &str)
        requires
            old(self).wf(),
        ensures
            final(self).wf(),
            final(self).limit() == old(self).limit(),
            final(self)@ == stored(
                old(self)@,
                old(self).limit(),
                CachedImage { url: url@, mime_type: mime_type@, data: data@ },
            ),
    {
        proof {
            lemma_stored_well_formed(
                self@,
                self.limit(),
                CachedImage { url: url@, mime_type: mime_type@, data: data@ },
            );
        }
        lru_put(&mut self.inner, url.to_owned(), mime_type.to_owned(), data.to_owned());
    }
}

/// An entry that moves to the front in place of the one with its address
/// leaves the addresses distinct.
proof fn lemma_moved_to_front_distinct(entries: Seq<CachedImage>, i: int, front: CachedImage)
    requires
        distinct_urls(entries),
        0 <= i < entries.len(),
        front.url == entries[i].url,
    ensures
        distinct_urls(seq![front] + entries.remove(i)),
{
    let rest = entries.remove(i);
    let after = seq![front] + rest;
    assert forall|a: int, b: int| 0 <= a < b < after.len() implies (#[trigger] after[a]).url != (
    #[trigger] after[b]).url by {
        let source_b = if b - 1 < i {
            b - 1
        } else {
            b
        };
        assert(after[b] == rest[b - 1]);
        assert(rest[b - 1] == entries[source_b]);
        if a == 0 {
            if source_b < i {
                assert(entries[source_b].url != entries[i].url);
            } else {
                assert(entries[i].url != entries[source_b].url);
            }
        } else {
            let source_a = if a - 1 < i {
                a - 1
            } else {
                a
            };
            assert(after[a] == rest[a - 1]);
            assert(rest[a - 1] == entries[source_a]);
            assert(entries[source_a].url != entries[source_b].url);
        }
    }
}

/// A look at an address keeps the number of entries and their addresses
/// distinct.
pub proof fn lemma_touched_well_formed(entries: Seq<CachedImage>, url: Seq<char>)
    requires
        distinct_urls(entries),
    ensures
        distinct_urls(touched(entries, url)),
        touched(entries, url).len() == entries.len(),
{
    lemma_position(entries, url);
    let i = position(entries, url);
    if i < entries.len() {
        lemma_moved_to_front_distinct(entries, i, entries[i]);
    }
}

/// Storing an entry keeps the cache within its limit and the addresses
/// distinct.
pub proof fn lemma_stored_well_formed(entries: Seq<CachedImage>, limit: nat, entry: CachedImage)
    requires
        distinct_urls(entries),
        entries.len() <= limit,
        limit > 0,
    ensures
        distinct_urls(stored(entries, limit, entry)),
        stored(entries, limit, entry).len() <= limit,
{
    lemma_position(entries, entry.url);
    let i = position(entries, entry.url);
    if i < entries.len() {
        lemma_moved_to_front_distinct(entries, i, entry);
    } else {
        // A new address: it differs from all that stay behind it.
        let after = stored(entries, limit, entry);
        assert forall|a: int, b: int| 0 <= a < b < after.len() implies (#[trigger] after[a]).url
            != (#[trigger] after[b]).url by {
            assert(after[b] == entries[b - 1]);
            if a == 0 {
                assert(entries[b - 1].url != entry.url);
            } else {
                assert(after[a] == entries[a - 1]);
                assert(entries[a - 1].url != entries[b - 1].url);
            }
        }
    }
}

/// What was stored for an address is found under it, whatever the cache
/// held before: a second request for the same image is answered from the
/// cache with the same media type and payload.
pub proof fn lemma_found_after_stored(entries: Seq<CachedImage>, limit: nat, entry: CachedImage)
    ensures
        found(stored(entries, limit, entry), entry.url) == Some(entry),
{
}

/// A hit leaves the entry where the next look finds it again, unchanged.
pub proof fn lemma_found_after_touched(entries: Seq<CachedImage>, url: Seq<char>)
    ensures
        found(touched(entries, url), url) == found(entries, url),
{
    lemma_position(entries, url);
}

/// Looking at or storing one address leaves what is found under another
/// one, as long as the cache is not full.
pub proof fn lemma_other_entries_stay(
    entries: Seq<CachedImage>,
    limit: nat,
    entry: CachedImage,
    other: Seq<char>,
)
    requires
        other != entry.url,
        entries.len() < limit || found(entries, entry.url).is_some(),
    ensures
        found(stored(entries, limit, entry), other) == found(entries, other),
{
    lemma_position(entries, entry.url);
    lemma_position(entries, other);
    let i = position(entries, entry.url);
    let k = position(entries, other);
    let after = stored(entries, limit, entry);
    let rest = if i < entries.len() {
        entries.remove(i)
    } else {
        entries
    };
    assert(after.drop_first() =~= rest);
    // The position of `other` among the entries that stayed.
    let k_rest = if i < k {
        k - 1
    } else {
        k
    };
    assert(rest.len() == (if i < entries.len() {
        entries.len() - 1
    } else {
        entries.len() as int
    }));
    assert forall|j: int| 0 <= j < k_rest && j < rest.len() implies (#[trigger] rest[j]).url
        != other by {
        if i < entries.len() && j >= i {
            assert(rest[j] == entries[j + 1]);
        } else {
            assert(rest[j] == entries[j]);
        }
    }
    if k < entries.len() {
        assert(k != i);
        assert(rest[k_rest] == entries[k]);
        lemma_position_unique(rest, other, k_rest);
    } else {
        lemma_position_unique(rest, other, rest.len() as int);
    }
}

/// A position before which no entry has the address, and which holds it or
/// is the end, is `position`.
pub proof fn lemma_position_unique(entries: Seq<CachedImage>, url: Seq<char>, i: int)
    requires
        0 <= i <= entries.len(),
        i < entries.len() ==> entries[i].url == url,
        forall|j: int| 0 <= j < i ==> (#[trigger] entries[j]).url != url,
    ensures
        position(entries, url) == i,
{
    lemma_position(entries, url);
}

} // verus!
