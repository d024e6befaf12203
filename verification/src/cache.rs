//! The strip cache: a bounded table with a fixed time to live, kept by the
//! `moka` crate.
//!
//! The cache drops entries on its own, when they grow old or when room is
//! needed, so no contract can say that a stored strip is still there. What
//! the contracts do say: a lookup never returns anything but the strip that
//! was stored last under the key.

use crate::models::{ComicStrip, StripView};
use crate::text::join3;
use vstd::prelude::*;

verus! {

/// `moka::sync::Cache`, taken as it is: nothing of its inside is seen, and
/// all that is said of it is said by the three functions below that call it.
#[verifier::external_type_specification]
#[verifier::external_body]
#[verifier::reject_recursive_types(K)]
#[verifier::reject_recursive_types(V)]
#[verifier::reject_recursive_types(S)]
pub struct ExCache<K, V, S>(moka::sync::Cache<K, V, S>);

/// The table that holds the strips, by key.
pub type StripTable = moka::sync::Cache<String, ComicStrip>;

/// The longest time to live that the cache accepts, in seconds: a thousand
/// years of 365 days.
pub const MAX_TTL_SECS: u64 = 31_536_000_000;

/// For each key, the strip that was stored last under it. The cache may have
/// dropped any of them since.
pub uninterp spec fn stored(table: StripTable) -> Map<Seq<char>, StripView>;

/// The table in which nothing was stored.
pub open spec fn empty_table() -> Map<Seq<char>, StripView> {
    Map::empty()
}

/// The key under which the strip `identifier` of `endpoint` is cached.
pub open spec fn cache_key(endpoint: Seq<char>, identifier: Seq<char>) -> Seq<char> {
    endpoint + seq![':'] + identifier
}

/// The key under which the strip `identifier` of `endpoint` is cached.
pub fn strip_key(endpoint: &str, identifier: &str) -> (r: String)
    ensures
        r@ == cache_key(endpoint@, identifier@),
{
    proof {
        reveal_strlit(":");
        assert(":"@ =~= seq![':']);
    }
    join3(endpoint, ":", identifier)
}

/// Builds the table with `Cache::builder`, `max_capacity`, `time_to_live`
/// and `build`. Nothing has been stored in a new table. `build` panics on a
/// time to live of more than a thousand years, which is left out.
#[verifier::external_body]
fn build_table(capacity: u64, ttl_secs: u64) -> (r: StripTable)
    requires
        ttl_secs <= MAX_TTL_SECS,
    ensures
        stored(r) == empty_table(),
{
    moka::sync::Cache::builder().max_capacity(capacity).time_to_live(
        std::time::Duration::from_secs(ttl_secs),
    ).build()
}

/// `Cache::get`: a clone of the value that the table holds under `key`, if
/// it still holds one. The table replaces a value only by `insert`, so what
/// comes back is what was stored last under `key`.
#[verifier::external_body]
fn table_get(table: &StripTable, key: &str) -> (r: Option<ComicStrip>)
    ensures
        r matches Some(strip) ==> stored(*table).contains_key(key@) && stored(*table)[key@]
            == strip@,
{
    table.get(key)
}

/// `Cache::insert`: stores `strip` under `key`, in place of what was stored
/// there before. The table is taken by `&mut`, though `insert` asks for less,
/// so that it has one writer.
#[verifier::external_body]
fn table_insert(table: &mut StripTable, key: String, strip: ComicStrip)
    ensures
        stored(*final(table)) == stored(*old(table)).insert(key@, strip@),
{
    table.insert(key, strip)
}

/// The caches of the service. There is one handle to it, handed to whichever
/// source is at work.
pub struct Caches {
    strips: StripTable,
}

impl Caches {
    /// For each key, the strip that was stored last under it.
    pub closed spec fn written(&self) -> Map<Seq<char>, StripView> {
        stored(self.strips)
    }

    /// A cache of at most `strip_max` strips, each kept for `strip_ttl_secs`
    /// seconds from the moment it is stored.
    pub fn new(strip_max: u64, strip_ttl_secs: u64) -> (r: Self)
        requires
            strip_ttl_secs <= MAX_TTL_SECS,
        ensures
            r.written() == empty_table(),
    {
        Caches { strips: build_table(strip_max, strip_ttl_secs) }
    }

    /// The strip cached under `key`, if the cache still holds it.
    pub fn get(&self, key: &str) -> (r: Option<ComicStrip>)
        ensures
            r matches Some(strip) ==> self.written().contains_key(key@) && self.written()[key@]
                == strip@,
    {
        table_get(&self.strips, key)
    }

    /// Stores `strip` under `key`, in place of what was stored there before.
    pub fn put(&mut self, key: String, strip: ComicStrip)
        ensures
            final(self).written() == old(self).written().insert(key@, strip@),
    {
        table_insert(&mut self.strips, key, strip)
    }
}

/// A lookup that follows a store under the same key returns the strip just
/// stored or nothing: never a strip stored earlier, and never one stored under
/// another key.
pub proof fn lemma_get_after_put(
    before: Caches,
    after: Caches,
    key: Seq<char>,
    strip: StripView,
    found: Option<StripView>,
)
    requires
        after.written() == before.written().insert(key, strip),
        found matches Some(s) ==> after.written().contains_key(key) && after.written()[key] == s,
    ensures
        found matches Some(s) ==> s == strip,
{
}

/// Keys are namespaced by endpoint: two endpoints that hold no colon and
/// differ never share a key, whatever the identifiers.
pub proof fn lemma_keys_do_not_collide(
    endpoint: Seq<char>,
    identifier: Seq<char>,
    other_endpoint: Seq<char>,
    other_identifier: Seq<char>,
)
    requires
        !endpoint.contains(':'),
        !other_endpoint.contains(':'),
        endpoint != other_endpoint,
    ensures
        cache_key(endpoint, identifier) != cache_key(other_endpoint, other_identifier),
{
    let key = cache_key(endpoint, identifier);
    let other = cache_key(other_endpoint, other_identifier);
    if key == other {
        assert(key[endpoint.len() as int] == ':');
        assert(other[other_endpoint.len() as int] == ':');
        if endpoint.len() < other_endpoint.len() {
            assert(other[endpoint.len() as int] == other_endpoint[endpoint.len() as int]);
            assert(other_endpoint.contains(':'));
        } else if other_endpoint.len() < endpoint.len() {
            assert(key[other_endpoint.len() as int] == endpoint[other_endpoint.len() as int]);
            assert(endpoint.contains(':'));
        } else {
            assert forall|i: int| 0 <= i < endpoint.len() implies endpoint[i]
                == other_endpoint[i] by {
                assert(key[i] == endpoint[i]);
                assert(other[i] == other_endpoint[i]);
            }
            assert(endpoint =~= other_endpoint);
        }
    }
}

} // verus!
