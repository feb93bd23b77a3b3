//! Translation cache model: a content-addressed store keyed by a fast
//! 64-bit hash of the exact source text. Writes are upserts (last writer
//! wins, collisions treated as equality) and blank translations are never
//! persisted. The file-backed persistence lives outside the library; this
//! module carries the store's semantics, the key derivation, and the
//! write/read rules.

use vstd::prelude::*;

verus! {

use crate::text::is_blank;
use vstd::string::StringSliceAdditionalSpecFns;
use vstd::utf8::encode_utf8;

/// The 64-bit content hash of a byte string, as computed by the xxh3
/// algorithm. It is a function of the bytes alone.
pub uninterp spec fn xxh3_of(bytes: Seq<u8>) -> u64;

/// Relies on `xxhash_rust::xxh3::xxh3_64`: the 64-bit xxh3 digest of the
/// input bytes, a function of those bytes alone.
#[verifier::external_body]
fn xxh3_hash(text: &str) -> (r: u64)
    ensures
        r == xxh3_of(text.spec_bytes()),
{
    xxhash_rust::xxh3::xxh3_64(text.as_bytes())
}

/// The lower-case hexadecimal digit for a value below sixteen.
pub open spec fn hex_digit(v: u64) -> char {
    if v < 10 {
        ('0' as u32 + v as u32) as char
    } else {
        ('a' as u32 + (v - 10) as u32) as char
    }
}

/// The sixteen-digit, zero-padded, lower-case hexadecimal rendering of a
/// 64-bit value, most significant digit first.
pub open spec fn hex16(v: u64) -> Seq<char> {
    Seq::new(16, |i: int| hex_digit((v >> (((15 - i) * 4) as u64)) & 0xF))
}

/// The cache key of a source text: the hexadecimal rendering of its
/// content hash.
pub open spec fn cache_key_spec(text: Seq<char>) -> Seq<char> {
    hex16(xxh3_of(encode_utf8(text)))
}

/// Derives the fixed-width lookup key for a source text.
pub fn cache_key(text: &str) -> (r: String)
    ensures
        r@ == cache_key_spec(text@),
{
    let h = xxh3_hash(text);
    let mut out = String::new();
    let mut i: usize = 0;
    while i < 16
        invariant
            i <= 16,
            out@ =~= hex16(h).subrange(0, i as int),
        decreases 16 - i,
    {
        let shift: u64 = ((15 - i) * 4) as u64;
        let nibble: u64 = (h >> shift) & 0xF;
        proof {
            assert((h >> shift) & 0xF < 16) by (bit_vector);
        }
        let digit: u32 = if nibble < 10 {
            '0' as u32 + nibble as u32
        } else {
            'a' as u32 + (nibble as u32 - 10)
        };
        let c = match crate::text::char_from_u32(digit) {
            Some(c) => c,
            None => ' ',
        };
        proof {
            vstd::utf8::char_u32_cast(c, digit);
            assert(c == hex_digit(nibble));
            assert(hex16(h)[i as int] == hex_digit(nibble));
        }
        crate::text::string_push_char(&mut out, c);
        proof {
            assert(out@ =~= hex16(h).subrange(0, i + 1));
        }
        i += 1;
    }
    proof {
        assert(hex16(h).subrange(0, 16) =~= hex16(h));
    }
    out
}

/// The stored value for one cached source text.
pub struct TranslationRecord {
    pub original: Seq<char>,
    pub translation: Seq<char>,
    pub created_at: u64,
}

/// One row of the cache: the content hash, the exact source text, its
/// translation, and the creation time.
pub struct CacheEntry {
    pub key: u64,
    pub original: String,
    pub translation: String,
    pub created_at: u64,
}

impl CacheEntry {
    /// The entry's stored value.
    pub open spec fn record(&self) -> TranslationRecord {
        TranslationRecord {
            original: self.original@,
            translation: self.translation@,
            created_at: self.created_at,
        }
    }
}

/// The map from keys to stored values denoted by a list of entries; a later
/// entry with the same key wins.
pub open spec fn entries_map(s: Seq<CacheEntry>) -> Map<u64, TranslationRecord>
    decreases s.len(),
{
    if s.len() == 0 {
        Map::empty()
    } else {
        entries_map(s.drop_last()).insert(s.last().key, s.last().record())
    }
}

/// No two entries share a key.
pub open spec fn unique_keys(s: Seq<CacheEntry>) -> bool {
    forall|i: int, j: int|
        #![trigger s[i].key, s[j].key]
        0 <= i < j < s.len() ==> s[i].key != s[j].key
}

proof fn lemma_entries_map_absent(s: Seq<CacheEntry>, k: u64)
    requires
        forall|i: int| 0 <= i < s.len() ==> (#[trigger] s[i].key) != k,
    ensures
        !entries_map(s).dom().contains(k),
    decreases s.len(),
{
    if s.len() > 0 {
        lemma_entries_map_absent(s.drop_last(), k);
    }
}

proof fn lemma_entries_map_found(s: Seq<CacheEntry>, i: int)
    requires
        unique_keys(s),
        0 <= i < s.len(),
    ensures
        entries_map(s).dom().contains(s[i].key),
        entries_map(s)[s[i].key] == s[i].record(),
    decreases s.len(),
{
    if i == s.len() - 1 {
    } else {
        lemma_entries_map_found(s.drop_last(), i);
        assert(s.last().key != s[i].key);
    }
}

proof fn lemma_entries_map_update(s: Seq<CacheEntry>, i: int, e: CacheEntry)
    requires
        unique_keys(s),
        0 <= i < s.len(),
        e.key == s[i].key,
    ensures
        entries_map(s.update(i, e)) =~= entries_map(s).insert(e.key, e.record()),
    decreases s.len(),
{
    let t = s.update(i, e);
    if i == s.len() - 1 {
        assert(t.drop_last() =~= s.drop_last());
        assert(t.last() == e);
    } else {
        assert(t.drop_last() =~= s.drop_last().update(i, e));
        assert(t.last() == s.last());
        lemma_entries_map_update(s.drop_last(), i, e);
        assert(s.last().key != e.key);
    }
}

/// The cache contents after storing `translation` for `text` at `created_at`:
/// unchanged when the translation is blank, otherwise the record is upserted
/// under the text's content hash.
pub open spec fn cache_put_spec(
    m: Map<u64, TranslationRecord>,
    text: Seq<char>,
    translation: Seq<char>,
    created_at: u64,
) -> Map<u64, TranslationRecord> {
    if is_blank(translation) {
        m
    } else {
        m.insert(
            xxh3_of(encode_utf8(text)),
            TranslationRecord { original: text, translation, created_at },
        )
    }
}

/// The translation the cache yields for `text`: the stored one under the
/// text's content hash, or nothing when that key is unseen.
pub open spec fn cache_get_spec(m: Map<u64, TranslationRecord>, text: Seq<char>) -> Option<
    Seq<char>,
> {
    let k = xxh3_of(encode_utf8(text));
    if m.dom().contains(k) {
        Some(m[k].translation)
    } else {
        None
    }
}

/// A non-blank translation just stored for a text is what a lookup of the
/// same text returns.
pub proof fn lemma_cache_get_after_put(
    m: Map<u64, TranslationRecord>,
    text: Seq<char>,
    translation: Seq<char>,
    created_at: u64,
)
    requires
        !is_blank(translation),
    ensures
        cache_get_spec(cache_put_spec(m, text, translation, created_at), text) == Some(
            translation,
        ),
{
}

/// Storing a blank translation leaves the cache, and so any previously
/// cached value for the same text, unchanged.
pub proof fn lemma_cache_put_blank_noop(
    m: Map<u64, TranslationRecord>,
    text: Seq<char>,
    translation: Seq<char>,
    created_at: u64,
)
    requires
        is_blank(translation),
    ensures
        cache_put_spec(m, text, translation, created_at) == m,
{
}

/// Looking up a text whose content hash was never stored yields nothing
/// rather than an error.
pub proof fn lemma_cache_get_unseen(m: Map<u64, TranslationRecord>, text: Seq<char>)
    requires
        !m.dom().contains(xxh3_of(encode_utf8(text))),
    ensures
        cache_get_spec(m, text) is None,
{
}

/// The translation store's semantics: an in-memory table of hash-keyed
/// records with upsert writes. The durable, file-backed table the
/// application keeps follows the same contract.
pub struct TranslationCache {
    entries: Vec<CacheEntry>,
}

impl TranslationCache {
    /// The store as a map from content hash to stored record.
    pub closed spec fn model(&self) -> Map<u64, TranslationRecord> {
        entries_map(self.entries@)
    }

    /// Every key appears at most once.
    pub closed spec fn wf(&self) -> bool {
        unique_keys(self.entries@)
    }

    /// An empty store.
    pub fn new() -> (r: TranslationCache)
        ensures
            r.wf(),
            r.model() == Map::<u64, TranslationRecord>::empty(),
    {
        TranslationCache { entries: Vec::new() }
    }

    /// Stores `translation` for `text` at time `created_at`. A blank
    /// translation is a no-op (trivially successful); otherwise the write is
    /// an upsert keyed by the text's content hash, replacing any previous
    /// record and its timestamp.
    pub fn store_translation(&mut self, text: String, translation: String, created_at: u64)
        requires
            old(self).wf(),
        ensures
            final(self).wf(),
            final(self).model() == cache_put_spec(
                old(self).model(),
                text@,
                translation@,
                created_at,
            ),
    {
        if crate::text::str_is_blank(translation.as_str()) {
            return ;
        }
        let key = xxh3_hash(text.as_str());
        let n = self.entries.len();
        let mut i: usize = 0;
        while i < n
            invariant
                self == old(self),
                old(self).wf(),
                key == xxh3_of(encode_utf8(text@)),
                !is_blank(translation@),
                n == self.entries@.len(),
                i <= n,
                forall|j: int| 0 <= j < i ==> (#[trigger] self.entries@[j].key) != key,
            decreases n - i,
        {
            if self.entries[i].key == key {
                let entry = CacheEntry { key, original: text, translation, created_at };
                let ghost prev = self.entries@;
                let ghost idx = i as int;
                self.entries.set(i, entry);
                proof {
                    assert(self.entries@ =~= prev.update(idx, entry));
                    lemma_entries_map_update(prev, idx, entry);
                    assert(unique_keys(self.entries@));
                }
                return ;
            }
            i += 1;
        }
        let entry = CacheEntry { key, original: text, translation, created_at };
        let ghost prev = self.entries@;
        self.entries.push(entry);
        proof {
            assert(self.entries@.drop_last() =~= prev);
            assert(self.entries@.last() == entry);
            assert(entries_map(self.entries@) == entries_map(prev).insert(key, entry.record()));
            assert(unique_keys(self.entries@)) by {
                assert(forall|j: int|
                    0 <= j < prev.len() ==> (#[trigger] self.entries@[j]) == prev[j]);
            }
        }
    }

    /// Looks the text's translation up by content hash: the stored value, or
    /// nothing when the text was never stored.
    pub fn get_cached_translation(&self, text: &str) -> (r: Option<String>)
        requires
            self.wf(),
        ensures
            r.deep_view() == cache_get_spec(self.model(), text@),
    {
        let key = xxh3_hash(text);
        let n = self.entries.len();
        let mut i: usize = 0;
        while i < n
            invariant
                n == self.entries@.len(),
                i <= n,
                self.wf(),
                key == xxh3_of(encode_utf8(text@)),
                forall|j: int| 0 <= j < i ==> (#[trigger] self.entries@[j].key) != key,
            decreases n - i,
        {
            if self.entries[i].key == key {
                proof {
                    lemma_entries_map_found(self.entries@, i as int);
                }
                let r = Some(self.entries[i].translation.clone());
                proof {
                    assert(r.deep_view() == Some(self.entries@[i as int].translation@));
                    assert(self.model().dom().contains(xxh3_of(encode_utf8(text@))));
                    assert(cache_get_spec(self.model(), text@) == Some(
                        self.entries@[i as int].translation@,
                    ));
                }
                return r;
            }
            i += 1;
        }
        proof {
            lemma_entries_map_absent(self.entries@, key);
        }
        None
    }
}

} // verus!
