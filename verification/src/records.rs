use vstd::bytes::lemma_auto_spec_u32_to_from_le_bytes;
use vstd::bytes::lemma_auto_spec_u64_to_from_le_bytes;
use vstd::bytes::spec_u32_from_le_bytes;
use vstd::bytes::spec_u32_to_le_bytes;
use vstd::bytes::spec_u64_from_le_bytes;
use vstd::bytes::spec_u64_to_le_bytes;
use vstd::bytes::u32_from_le_bytes;
use vstd::bytes::u32_to_le_bytes;
use vstd::bytes::u64_from_le_bytes;
use vstd::bytes::u64_to_le_bytes;
use vstd::prelude::*;
use vstd::slice::slice_subrange;
use vstd::slice::slice_to_vec;

use crate::codec::Cache;
use crate::error::CacheError;

verus! {

/// The byte stream for one table entry: the key's length as four
/// little-endian bytes, the key itself, then the counter as eight
/// little-endian bytes of its two's-complement image.
pub open spec fn enc_entry(e: (Seq<u8>, i64)) -> Seq<u8> {
    spec_u32_to_le_bytes(e.0.len() as u32) + e.0 + spec_u64_to_le_bytes(e.1 as u64)
}

/// The byte stream for a run of entries, one after the other.
pub open spec fn enc_entries(s: Seq<(Seq<u8>, i64)>) -> Seq<u8>
    decreases s.len(),
{
    if s.len() == 0 {
        Seq::empty()
    } else {
        enc_entry(s[0]) + enc_entries(s.drop_first())
    }
}

/// The byte stream for a whole table: the entry count as four
/// little-endian bytes, then the entries.
pub open spec fn records_encode(s: Seq<(Seq<u8>, i64)>) -> Seq<u8> {
    spec_u32_to_le_bytes(s.len() as u32) + enc_entries(s)
}

/// Parse exactly `n` entries out of `data`, rejecting truncated input and
/// trailing bytes alike.
pub open spec fn dec_entries(data: Seq<u8>, n: nat) -> Option<Seq<(Seq<u8>, i64)>>
    decreases n,
{
    if n == 0 {
        if data.len() == 0 {
            Some(Seq::empty())
        } else {
            None
        }
    } else if data.len() < 4 {
        None
    } else {
        let k = spec_u32_from_le_bytes(data.take(4)) as int;
        if data.len() < 4 + k + 8 {
            None
        } else {
            let key = data.subrange(4, 4 + k);
            let value = spec_u64_from_le_bytes(data.subrange(4 + k, 4 + k + 8)) as i64;
            match dec_entries(data.skip(4 + k + 8), (n - 1) as nat) {
                Some(rest) => Some(seq![(key, value)] + rest),
                None => None,
            }
        }
    }
}

/// Parse a whole table, or nothing if the bytes are not an encoding.
pub open spec fn records_decode(data: Seq<u8>) -> Option<Seq<(Seq<u8>, i64)>> {
    if data.len() < 4 {
        None
    } else {
        dec_entries(data.skip(4), spec_u32_from_le_bytes(data.take(4)) as nat)
    }
}

/// A small table of byte-string keys and signed counters, stored as a
/// sequence of entries in insertion order.  It implements the [`Cache`]
/// codec with a proven encode/decode round trip, so it can back a cache
/// handle out of the box.
#[derive(Debug)]
pub struct Records {
    entries: Vec<(Vec<u8>, i64)>,
}

impl View for Records {
    type V = Seq<(Seq<u8>, i64)>;

    closed spec fn view(&self) -> Seq<(Seq<u8>, i64)> {
        self.entries@.map_values(|e: (Vec<u8>, i64)| (e.0@, e.1))
    }
}

impl Records {
    /// The entry count and every key length fit the four-byte fields of
    /// the encoding.
    pub open spec fn wf(&self) -> bool {
        &&& self@.len() <= u32::MAX
        &&& forall|i: int| 0 <= i < self@.len() ==> #[trigger] self@[i].0.len() <= u32::MAX
    }

    /// The number of entries in the table.
    pub fn len(&self) -> (n: usize)
        ensures
            n == self@.len(),
    {
        self.entries.len()
    }

    /// The counter stored under `key`, if any.
    pub fn lookup(&self, key: &[u8]) -> (r: Option<i64>)
        ensures
            r == lookup_in(self@, key@),
    {
        let n = self.entries.len();
        let mut i: usize = 0;
        proof {
            assert(self@.skip(0) =~= self@);
        }
        while i < n
            invariant
                n == self.entries.len(),
                i <= n,
                lookup_in(self@, key@) == lookup_in(self@.skip(i as int), key@),
            decreases n - i,
        {
            assert(self@[i as int] == (self.entries@[i as int].0@, self.entries@[i as int].1));
            proof {
                let rest = self@.skip(i as int);
                assert(rest[0] == self@[i as int]);
                assert(rest.drop_first() =~= self@.skip(i + 1));
            }
            if bytes_eq(self.entries[i].0.as_slice(), key) {
                return Some(self.entries[i].1);
            }
            i = i + 1;
        }
        proof {
            assert(self@.skip(n as int).len() == 0);
        }
        None
    }

    /// Store `value` under `key`: replace the counter of the entry already
    /// carrying the key, or append a new entry at the end.
    pub fn insert(&mut self, key: Vec<u8>, value: i64)
        ensures
            final(self)@ == insert_in(old(self)@, key@, value),
    {
        let n = self.entries.len();
        let mut i: usize = 0;
        while i < n
            invariant
                n == self.entries.len(),
                i <= n,
                self.entries@ == old(self).entries@,
                forall|j: int| 0 <= j < i ==> #[trigger] self@[j].0 != key@,
            decreases n - i,
        {
            assert(self@[i as int] == (self.entries@[i as int].0@, self.entries@[i as int].1));
            if bytes_eq(self.entries[i].0.as_slice(), key.as_slice()) {
                let ghost before = self@;
                self.entries.set(i, (key, value));
                proof {
                    assert(self@ =~= before.update(i as int, (key@, value)));
                    lemma_insert_found(before, key@, value, i as int);
                }
                return;
            }
            i = i + 1;
        }
        let ghost before = self@;
        self.entries.push((key, value));
        proof {
            assert(self@ =~= before.push((key@, value)));
            lemma_insert_absent(before, key@, value);
        }
    }
}

/// The counter a run of entries gives a key: the first entry carrying the
/// key decides.
pub open spec fn lookup_in(s: Seq<(Seq<u8>, i64)>, key: Seq<u8>) -> Option<i64>
    decreases s.len(),
{
    if s.len() == 0 {
        None
    } else if s[0].0 == key {
        Some(s[0].1)
    } else {
        lookup_in(s.drop_first(), key)
    }
}

/// A run of entries with `value` stored under `key`: the first entry
/// carrying the key is replaced, or a new entry is appended at the end.
pub open spec fn insert_in(s: Seq<(Seq<u8>, i64)>, key: Seq<u8>, value: i64) -> Seq<
    (Seq<u8>, i64),
>
    decreases s.len(),
{
    if s.len() == 0 {
        seq![(key, value)]
    } else if s[0].0 == key {
        seq![(key, value)] + s.drop_first()
    } else {
        seq![s[0]] + insert_in(s.drop_first(), key, value)
    }
}

/// Replacing the first entry that carries the key is an update in place.
proof fn lemma_insert_found(s: Seq<(Seq<u8>, i64)>, key: Seq<u8>, value: i64, i: int)
    requires
        0 <= i < s.len(),
        s[i].0 == key,
        forall|j: int| 0 <= j < i ==> #[trigger] s[j].0 != key,
    ensures
        insert_in(s, key, value) == s.update(i, (key, value)),
    decreases i,
{
    if i == 0 {
        assert(seq![(key, value)] + s.drop_first() =~= s.update(0, (key, value)));
    } else {
        assert(s.drop_first()[i - 1] == s[i]);
        assert(forall|j: int| 0 <= j < i - 1 ==> #[trigger] s.drop_first()[j].0 == s[j + 1].0);
        lemma_insert_found(s.drop_first(), key, value, i - 1);
        assert(seq![s[0]] + s.drop_first().update(i - 1, (key, value)) =~= s.update(
            i,
            (key, value),
        ));
    }
}

/// Storing under a key that no entry carries appends at the end.
proof fn lemma_insert_absent(s: Seq<(Seq<u8>, i64)>, key: Seq<u8>, value: i64)
    requires
        forall|j: int| 0 <= j < s.len() ==> #[trigger] s[j].0 != key,
    ensures
        insert_in(s, key, value) == s.push((key, value)),
    decreases s.len(),
{
    if s.len() == 0 {
        assert(seq![(key, value)] =~= s.push((key, value)));
    } else {
        assert(forall|j: int|
            0 <= j < s.drop_first().len() ==> #[trigger] s.drop_first()[j].0 == s[j + 1].0);
        lemma_insert_absent(s.drop_first(), key, value);
        assert(seq![s[0]] + s.drop_first().push((key, value)) =~= s.push((key, value)));
    }
}

/// Whether two byte strings hold the same bytes.
fn bytes_eq(a: &[u8], b: &[u8]) -> (r: bool)
    ensures
        r <==> a@ == b@,
{
    if a.len() != b.len() {
        return false;
    }
    let n = a.len();
    let mut i: usize = 0;
    while i < n
        invariant
            n == a@.len(),
            a@.len() == b@.len(),
            i <= n,
            forall|j: int| 0 <= j < i ==> a@[j] == b@[j],
        decreases n - i,
    {
        if a[i] != b[i] {
            return false;
        }
        i = i + 1;
    }
    proof {
        assert(a@ =~= b@);
    }
    true
}

impl Default for Records {
    /// The empty table.
    fn default() -> (r: Records)
        ensures
            r@ == Seq::<(Seq<u8>, i64)>::empty(),
            r.wf(),
    {
        let r = Records { entries: Vec::new() };
        proof {
            assert(r@ =~= Seq::<(Seq<u8>, i64)>::empty());
        }
        r
    }
}

/// Splitting a run of entries splits its byte stream.
proof fn lemma_enc_entries_concat(a: Seq<(Seq<u8>, i64)>, b: Seq<(Seq<u8>, i64)>)
    ensures
        enc_entries(a + b) == enc_entries(a) + enc_entries(b),
    decreases a.len(),
{
    if a.len() == 0 {
        assert(a + b =~= b);
        assert(enc_entries(a) + enc_entries(b) =~= enc_entries(b));
    } else {
        assert((a + b)[0] == a[0]);
        assert((a + b).drop_first() =~= a.drop_first() + b);
        lemma_enc_entries_concat(a.drop_first(), b);
        assert(enc_entries(a + b) =~= enc_entries(a) + enc_entries(b));
    }
}

/// The byte stream of a single entry, as a run.
proof fn lemma_enc_entries_single(e: (Seq<u8>, i64))
    ensures
        enc_entries(seq![e]) == enc_entry(e),
{
    let s = seq![e];
    assert(s.len() == 1 && s[0] == e);
    assert(enc_entries(s) == enc_entry(e) + enc_entries(s.drop_first()));
    assert(enc_entries(s.drop_first()) == Seq::<u8>::empty());
    assert(enc_entry(e) + Seq::<u8>::empty() =~= enc_entry(e));
}

impl Cache for Records {
    open spec fn encode_spec(&self) -> Seq<u8> {
        records_encode(self@)
    }

    open spec fn decodes_to(data: Seq<u8>, v: Records) -> bool {
        records_decode(data) == Some(v@)
    }

    fn save(&self) -> (out: Vec<u8>) {
        let mut out: Vec<u8> = u32_to_le_bytes(
            #[verifier::truncate] (self.entries.len() as u32),
        );
        let n = self.entries.len();
        let mut i: usize = 0;
        while i < n
            invariant
                n == self.entries.len(),
                i <= n,
                out@ == spec_u32_to_le_bytes(self@.len() as u32) + enc_entries(
                    self@.take(i as int),
                ),
            decreases n - i,
        {
            assert(self@[i as int] == (self.entries@[i as int].0@, self.entries@[i as int].1));
            let mut kl = u32_to_le_bytes(#[verifier::truncate] (self.entries[i].0.len() as u32));
            out.append(&mut kl);
            let mut kb = slice_to_vec(self.entries[i].0.as_slice());
            out.append(&mut kb);
            let mut vb = u64_to_le_bytes(#[verifier::truncate] (self.entries[i].1 as u64));
            out.append(&mut vb);
            proof {
                let s = self@;
                assert(s.take(i + 1) =~= s.take(i as int) + seq![s[i as int]]);
                lemma_enc_entries_concat(s.take(i as int), seq![s[i as int]]);
                lemma_enc_entries_single(s[i as int]);
                assert(out@ =~= spec_u32_to_le_bytes(s.len() as u32) + enc_entries(
                    s.take(i + 1),
                ));
            }
            i = i + 1;
        }
        proof {
            assert(self@.take(self@.len() as int) =~= self@);
        }
        out
    }

    fn load(data: &[u8]) -> (r: Result<Records, CacheError>) {
        if data.len() < 4 {
            return Err(CacheError::Decode);
        }
        let n: u32 = u32_from_le_bytes(slice_subrange(data, 0, 4));
        proof {
            assert(data@.skip(4) =~= data@.subrange(4, data@.len() as int));
        }
        let mut entries: Vec<(Vec<u8>, i64)> = Vec::new();
        let mut pos: usize = 4;
        let mut i: u32 = 0;
        while i < n
            invariant
                4 <= pos <= data@.len(),
                i <= n,
                entries@.len() == i,
                forall|j: int|
                    0 <= j < entries@.len() ==> #[trigger] entries@[j].0@.len() <= u32::MAX,
                records_decode(data@) == match dec_entries(
                    data@.skip(pos as int),
                    (n - i) as nat,
                ) {
                    Some(rest) => Some(
                        entries@.map_values(|e: (Vec<u8>, i64)| (e.0@, e.1)) + rest,
                    ),
                    None => None::<Seq<(Seq<u8>, i64)>>,
                },
            decreases n - i,
        {
            let ghost cur = data@.skip(pos as int);
            if data.len() - pos < 4 {
                return Err(CacheError::Decode);
            }
            let klen: u32 = u32_from_le_bytes(slice_subrange(data, pos, pos + 4));
            proof {
                assert(cur.take(4) =~= data@.subrange(pos as int, pos + 4));
            }
            let klen_us: usize = klen as usize;
            if data.len() - pos - 4 < klen_us {
                return Err(CacheError::Decode);
            }
            if data.len() - pos - 4 - klen_us < 8 {
                return Err(CacheError::Decode);
            }
            let key: Vec<u8> = slice_to_vec(slice_subrange(data, pos + 4, pos + 4 + klen_us));
            let vu: u64 = u64_from_le_bytes(
                slice_subrange(data, pos + 4 + klen_us, pos + 4 + klen_us + 8),
            );
            let value: i64 = #[verifier::truncate] (vu as i64);
            proof {
                assert(cur.subrange(4, 4 + klen_us as int) =~= data@.subrange(
                    pos + 4,
                    pos + 4 + klen_us,
                ));
                assert(cur.subrange(4 + klen_us as int, 4 + klen_us + 8) =~= data@.subrange(
                    pos + 4 + klen_us,
                    pos + 4 + klen_us + 8,
                ));
                assert(cur.skip(4 + klen_us + 8) =~= data@.skip(pos + 4 + klen_us + 8));
            }
            let ghost old_entries = entries@;
            entries.push((key, value));
            proof {
                assert(entries@.map_values(|e: (Vec<u8>, i64)| (e.0@, e.1)) =~= old_entries
                    .map_values(|e: (Vec<u8>, i64)| (e.0@, e.1)) + seq![(key@, value)]);
                assert(dec_entries(cur, (n - i) as nat) == match dec_entries(
                    data@.skip(pos + 4 + klen_us + 8),
                    (n - i - 1) as nat,
                ) {
                    Some(rest) => Some(seq![(key@, value)] + rest),
                    None => None::<Seq<(Seq<u8>, i64)>>,
                });
                if dec_entries(data@.skip(pos + 4 + klen_us + 8), (n - i - 1) as nat) is Some {
                    let rest = dec_entries(
                        data@.skip(pos + 4 + klen_us + 8),
                        (n - i - 1) as nat,
                    )->Some_0;
                    assert(old_entries.map_values(|e: (Vec<u8>, i64)| (e.0@, e.1)) + (seq![
                        (key@, value),
                    ] + rest) =~= (old_entries.map_values(|e: (Vec<u8>, i64)| (e.0@, e.1))
                        + seq![(key@, value)]) + rest);
                }
            }
            pos = pos + 4 + klen_us + 8;
            i = i + 1;
        }
        if pos != data.len() {
            proof {
                assert(data@.skip(pos as int).len() > 0);
            }
            return Err(CacheError::Decode);
        }
        proof {
            assert(data@.skip(pos as int).len() == 0);
        }
        let r = Records { entries };
        proof {
            assert(records_decode(data@) == Some(r@));
        }
        Ok(r)
    }
}

/// Parsing gives back exactly the run of entries that was encoded.
proof fn lemma_dec_enc_entries(s: Seq<(Seq<u8>, i64)>)
    requires
        forall|i: int| 0 <= i < s.len() ==> #[trigger] s[i].0.len() <= u32::MAX,
    ensures
        dec_entries(enc_entries(s), s.len() as nat) == Some(s),
    decreases s.len(),
{
    lemma_auto_spec_u32_to_from_le_bytes();
    lemma_auto_spec_u64_to_from_le_bytes();
    if s.len() == 0 {
        assert(s =~= Seq::<(Seq<u8>, i64)>::empty());
    } else {
        let e = s[0];
        let data = enc_entries(s);
        let k = e.0.len() as int;
        assert(data == enc_entry(e) + enc_entries(s.drop_first()));
        assert(enc_entry(e).len() == 4 + k + 8);
        assert(data.take(4) =~= spec_u32_to_le_bytes(e.0.len() as u32));
        assert(spec_u32_from_le_bytes(data.take(4)) == e.0.len() as u32);
        assert(data.subrange(4, 4 + k) =~= e.0);
        assert(data.subrange(4 + k, 4 + k + 8) =~= spec_u64_to_le_bytes(e.1 as u64));
        let v1 = e.1;
        assert(((v1 as u64) as i64) == v1) by (bit_vector);
        assert(data.skip(4 + k + 8) =~= enc_entries(s.drop_first()));
        lemma_dec_enc_entries(s.drop_first());
        assert(seq![(e.0, e.1)] + s.drop_first() =~= s);
    }
}

/// The codec on tables is lawful: decoding an encoding gives back exactly
/// the entries that were encoded, so a value that went through the file
/// comes back with the same content.
pub proof fn lemma_records_decode_encode(s: Seq<(Seq<u8>, i64)>)
    requires
        s.len() <= u32::MAX,
        forall|i: int| 0 <= i < s.len() ==> #[trigger] s[i].0.len() <= u32::MAX,
    ensures
        records_decode(records_encode(s)) == Some(s),
{
    lemma_auto_spec_u32_to_from_le_bytes();
    let data = records_encode(s);
    assert(data.take(4) =~= spec_u32_to_le_bytes(s.len() as u32));
    assert(data.skip(4) =~= enc_entries(s));
    lemma_dec_enc_entries(s);
}

/// The provided codec reconstructs every well-formed table it wrote, and
/// reconstructs nothing else from that encoding.
pub proof fn lemma_records_round_trip(r: Records)
    requires
        r.wf(),
    ensures
        Records::decodes_to(r.encode_spec(), r),
        forall|w: Records| #[trigger] Records::decodes_to(r.encode_spec(), w) ==> w@ == r@,
{
    lemma_records_decode_encode(r@);
}

} // verus!
