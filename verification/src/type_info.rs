//! The type-information record of a source file: what it holds, how it is
//! laid out in bytes, and when a stored record may stand in for a fresh
//! inference.

use crate::ast::expr::Program;
use crate::error::CompileError;
use crate::export_type::ExportType;
use crate::inference::spec_infer_exports;
use crate::string_map::{entries_map, StringMap};
use crate::typecheck::Exports;
use crate::visitor::infer_exports;
use vstd::bytes::{
    spec_u16_from_le_bytes, spec_u16_to_le_bytes, spec_u32_from_le_bytes, spec_u32_to_le_bytes,
    spec_u64_from_le_bytes, spec_u64_to_le_bytes, u16_from_le_bytes, u16_to_le_bytes,
    u32_from_le_bytes, u32_to_le_bytes, u64_from_le_bytes, u64_to_le_bytes,
};
use vstd::prelude::*;
use vstd::slice::slice_subrange;
use vstd::utf8::{decode_utf8, encode_utf8, valid_utf8};

verus! {

/// The version of the record layout that this library writes and accepts.
pub const TYPE_INFO_VERSION: u16 = 1;

/// A SHA-256 digest.
pub type HashSHA256 = [u8; 32];

/// The type-information record of one source file.
#[derive(Debug)]
pub struct TypeInfo {
    pub version: u16,
    pub hash: HashSHA256,
    pub exports: Exports,
}

/// What a record holds: the version of its layout, the digest of the source
/// it was inferred from, and the exports in the order of the record.
pub struct TypeInfoView {
    pub version: u16,
    pub hash: Seq<u8>,
    pub entries: Seq<(Seq<char>, ExportType)>,
}

/// The SHA-256 digest of `data`.
pub uninterp spec fn sha256(data: Seq<u8>) -> Seq<u8>;

/// The longest input, in bytes, that SHA-256 is defined for: its length in
/// bits must fit in 64 bits.
pub open spec fn sha256_max_len() -> nat {
    0x1fff_ffff_ffff_ffff
}

/// The SHA-256 digest of `data`. This is `ring::digest::digest` with the
/// algorithm `SHA256`; the contract names its result, which is 32 bytes
/// long and depends on `data` alone. `ring` panics on an input of 2^61
/// bytes or more, so such input is excluded.
#[verifier::external_body]
fn sha256_of(data: &[u8]) -> (r: HashSHA256)
    requires
        data@.len() <= sha256_max_len(),
    ensures
        r@ == sha256(data@),
{
    let digest = ring::digest::digest(&ring::digest::SHA256, data);
    let mut hash: HashSHA256 = [0; 32];
    hash.copy_from_slice(digest.as_ref());
    hash
}

/// The SHA-256 digest of a source text, or nothing if the text is too long
/// to be hashed.
pub fn sha256_digest(data: &[u8]) -> (r: Option<HashSHA256>)
    ensures
        match r {
            Some(hash) => data@.len() <= sha256_max_len() && hash@ == sha256(data@),
            None => data@.len() > sha256_max_len(),
        },
{
    if data.len() as u64 <= 0x1fff_ffff_ffff_ffffu64 {
        Some(sha256_of(data))
    } else {
        None
    }
}

/// The number that stands for a type in a record.
pub open spec fn export_type_tag(t: ExportType) -> u32 {
    match t {
        ExportType::JSX => 0,
        ExportType::AsyncJSX => 1,
        ExportType::Other => 2,
        ExportType::AsyncOther => 3,
    }
}

/// The type that a number stands for in a record, if it stands for one.
pub open spec fn export_type_of_tag(tag: u32) -> Option<ExportType> {
    if tag == 0 {
        Some(ExportType::JSX)
    } else if tag == 1 {
        Some(ExportType::AsyncJSX)
    } else if tag == 2 {
        Some(ExportType::Other)
    } else if tag == 3 {
        Some(ExportType::AsyncOther)
    } else {
        None
    }
}

/// One entry of a record: the length of the key in bytes as 64 bits, the
/// key in UTF-8, and the type as 32 bits, integers little-endian.
pub open spec fn encode_entry(entry: (Seq<char>, ExportType)) -> Seq<u8> {
    spec_u64_to_le_bytes(encode_utf8(entry.0).len() as u64) + encode_utf8(entry.0)
        + spec_u32_to_le_bytes(export_type_tag(entry.1))
}

/// The entries of a record one after the other.
pub open spec fn encode_entries(entries: Seq<(Seq<char>, ExportType)>) -> Seq<u8>
    decreases entries.len(),
{
    if entries.len() == 0 {
        Seq::empty()
    } else {
        encode_entry(entries.first()) + encode_entries(entries.drop_first())
    }
}

/// The bytes of a record: the version as 16 bits, the 32 bytes of the
/// digest, the number of entries as 64 bits, and the entries.
pub open spec fn spec_encode(info: TypeInfoView) -> Seq<u8> {
    spec_u16_to_le_bytes(info.version) + info.hash + spec_u64_to_le_bytes(info.entries.len() as u64)
        + encode_entries(info.entries)
}

/// The entry at the start of `bytes` and the number of bytes it takes, if
/// `bytes` starts with an entry: the key must be valid UTF-8 and the type
/// one of the four.
pub open spec fn decode_entry(bytes: Seq<u8>) -> Option<((Seq<char>, ExportType), int)> {
    if bytes.len() < 8 {
        None
    } else {
        let n = spec_u64_from_le_bytes(bytes.subrange(0, 8)) as int;
        if bytes.len() - 8 < n + 4 {
            None
        } else {
            let key = bytes.subrange(8, 8 + n);
            let tag = spec_u32_from_le_bytes(bytes.subrange(8 + n, 8 + n + 4));
            if !valid_utf8(key) {
                None
            } else {
                match export_type_of_tag(tag) {
                    None => None,
                    Some(t) => Some(((decode_utf8(key), t), 8 + n + 4)),
                }
            }
        }
    }
}

/// The first `count` entries at the start of `bytes`, if there are as many.
pub open spec fn decode_entries(bytes: Seq<u8>, count: nat) -> Option<Seq<(Seq<char>, ExportType)>>
    decreases count,
{
    if count == 0 {
        Some(Seq::empty())
    } else {
        match decode_entry(bytes) {
            None => None,
            Some((entry, used)) => match decode_entries(bytes.skip(used), (count - 1) as nat) {
                None => None,
                Some(rest) => Some(seq![entry] + rest),
            },
        }
    }
}

/// The record that `bytes` starts with, if it starts with one. Bytes after
/// the record are not looked at.
pub open spec fn spec_decode(bytes: Seq<u8>) -> Option<TypeInfoView> {
    if bytes.len() < 42 {
        None
    } else {
        let version = spec_u16_from_le_bytes(bytes.subrange(0, 2));
        let hash = bytes.subrange(2, 34);
        let count = spec_u64_from_le_bytes(bytes.subrange(34, 42));
        match decode_entries(bytes.skip(42), count as nat) {
            None => None,
            Some(entries) => Some(TypeInfoView { version, hash, entries }),
        }
    }
}

/// Whether a record can be written: the digest has 32 bytes, and the
/// number of entries and the length of every key fit in 64 bits.
pub open spec fn encodable(info: TypeInfoView) -> bool {
    &&& info.hash.len() == 32
    &&& info.entries.len() <= u64::MAX
    &&& forall|i: int|
        0 <= i < info.entries.len() ==> encode_utf8(#[trigger] info.entries[i].0).len() <= u64::MAX
}

/// An entry that was written is read back, and exactly its bytes are used.
pub proof fn lemma_entry_round_trip(entry: (Seq<char>, ExportType), rest: Seq<u8>)
    requires
        encode_utf8(entry.0).len() <= u64::MAX,
    ensures
        decode_entry(encode_entry(entry) + rest) == Some((entry, encode_entry(entry).len() as int)),
{
    vstd::bytes::lemma_auto_spec_u64_to_from_le_bytes();
    vstd::bytes::lemma_auto_spec_u32_to_from_le_bytes();
    vstd::utf8::encode_utf8_valid_utf8(entry.0);
    vstd::utf8::encode_utf8_decode_utf8(entry.0);
    let key = encode_utf8(entry.0);
    let n = key.len() as int;
    let len = spec_u64_to_le_bytes(n as u64);
    let tag = spec_u32_to_le_bytes(export_type_tag(entry.1));
    let bytes = encode_entry(entry) + rest;
    assert(len.len() == 8);
    assert(tag.len() == 4);
    assert(bytes.subrange(0, 8) =~= len);
    assert(bytes.subrange(8, 8 + n) =~= key);
    assert(bytes.subrange(8 + n, 8 + n + 4) =~= tag);
    assert(export_type_of_tag(export_type_tag(entry.1)) == Some(entry.1));
}

/// Entries that were written are read back, whatever follows them.
pub proof fn lemma_entries_round_trip(entries: Seq<(Seq<char>, ExportType)>, rest: Seq<u8>)
    requires
        forall|i: int|
            0 <= i < entries.len() ==> encode_utf8(#[trigger] entries[i].0).len() <= u64::MAX,
    ensures
        decode_entries(encode_entries(entries) + rest, entries.len()) == Some(entries),
    decreases entries.len(),
{
    if entries.len() > 0 {
        let first = entries.first();
        let tail = entries.drop_first();
        assert(encode_utf8(entries[0].0).len() <= u64::MAX);
        assert forall|i: int|
            0 <= i < tail.len() implies encode_utf8(#[trigger] tail[i].0).len() <= u64::MAX by {
            assert(tail[i] == entries[i + 1]);
        }
        let after = encode_entries(tail) + rest;
        lemma_entry_round_trip(first, after);
        lemma_entries_round_trip(tail, rest);
        let bytes = encode_entries(entries) + rest;
        assert(bytes =~= encode_entry(first) + after);
        assert(bytes.skip(encode_entry(first).len() as int) =~= after);
        assert(seq![first] + tail =~= entries);
    }
}

/// A record that was written is read back as it was, whatever follows it.
pub proof fn lemma_round_trip(info: TypeInfoView, rest: Seq<u8>)
    requires
        encodable(info),
    ensures
        spec_decode(spec_encode(info) + rest) == Some(info),
{
    vstd::bytes::lemma_auto_spec_u64_to_from_le_bytes();
    vstd::bytes::lemma_auto_spec_u16_to_from_le_bytes();
    let version = spec_u16_to_le_bytes(info.version);
    let count = spec_u64_to_le_bytes(info.entries.len() as u64);
    let bytes = spec_encode(info) + rest;
    assert(version.len() == 2);
    assert(count.len() == 8);
    assert(bytes.subrange(0, 2) =~= version);
    assert(bytes.subrange(2, 34) =~= info.hash);
    assert(bytes.subrange(34, 42) =~= count);
    assert(bytes.skip(42) =~= encode_entries(info.entries) + rest);
    lemma_entries_round_trip(info.entries, rest);
}

/// The map that the entries of a record stand for: later entries win.
pub open spec fn entries_to_map(entries: Seq<(Seq<char>, ExportType)>) -> Map<Seq<char>, ExportType>
    decreases entries.len(),
{
    if entries.len() == 0 {
        Map::empty()
    } else {
        entries_to_map(entries.drop_last()).insert(entries.last().0, entries.last().1)
    }
}

/// The entries of an export map as a record holds them.
pub open spec fn entries_view(entries: Seq<(String, ExportType)>) -> Seq<(Seq<char>, ExportType)> {
    Seq::new(entries.len(), |i: int| (entries[i].0@, entries[i].1))
}

/// The map of the entries of an export map is the map itself.
pub proof fn lemma_entries_view_map(entries: Seq<(String, ExportType)>)
    ensures
        entries_to_map(entries_view(entries)) == entries_map(entries),
    decreases entries.len(),
{
    if entries.len() > 0 {
        lemma_entries_view_map(entries.drop_last());
        assert(entries_view(entries).drop_last() =~= entries_view(entries.drop_last()));
    }
}

/// Writing one more entry appends its bytes.
pub proof fn lemma_encode_entries_push(
    entries: Seq<(Seq<char>, ExportType)>,
    entry: (Seq<char>, ExportType),
)
    ensures
        encode_entries(entries.push(entry)) == encode_entries(entries) + encode_entry(entry),
    decreases entries.len(),
{
    if entries.len() == 0 {
        let one = entries.push(entry);
        assert(one.drop_first() =~= Seq::<(Seq<char>, ExportType)>::empty());
        assert(one.first() == entry);
        assert(encode_entries(one.drop_first()) =~= Seq::<u8>::empty());
        assert(encode_entries(one) =~= encode_entry(entry));
        assert(encode_entries(entries) + encode_entry(entry) =~= encode_entry(entry));
    } else {
        lemma_encode_entries_push(entries.drop_first(), entry);
        assert(entries.push(entry).drop_first() =~= entries.drop_first().push(entry));
        assert(encode_entries(entries.push(entry)) =~= encode_entries(entries) + encode_entry(
            entry,
        ));
    }
}

/// What a lookup in the cache yields: the stored record, if there is one
/// that can be read, has the current version and was inferred from a source
/// with the digest `hash`.
pub open spec fn spec_lookup(hash: Seq<u8>, record: Option<Seq<u8>>) -> Option<TypeInfoView> {
    match record {
        None => None,
        Some(bytes) => match spec_decode(bytes) {
            None => None,
            Some(info) => if info.version == TYPE_INFO_VERSION && info.hash == hash {
                Some(info)
            } else {
                None
            },
        },
    }
}

/// Whether a record read from bytes is the record `info`.
pub open spec fn holds(r: Option<TypeInfo>, info: Option<TypeInfoView>) -> bool {
    match info {
        Some(v) => r matches Some(got) && got.version == v.version && got.hash@ == v.hash
            && got.exports@ == entries_to_map(v.entries),
        None => r is None,
    }
}

fn append_bytes(out: &mut Vec<u8>, bytes: &[u8])
    ensures
        final(out)@ == old(out)@ + bytes@,
{
    let mut i: usize = 0;
    while i < bytes.len()
        invariant
            i <= bytes.len(),
            out@ == old(out)@ + bytes@.take(i as int),
        decreases bytes.len() - i,
    {
        out.push(bytes[i]);
        assert(out@ =~= old(out)@ + bytes@.take(i + 1));
        i += 1;
    }
    assert(bytes@.take(bytes.len() as int) =~= bytes@);
}

/// The number that stands for a type in a record.
pub fn tag_of(t: ExportType) -> (r: u32)
    ensures
        r == export_type_tag(t),
{
    match t {
        ExportType::JSX => 0,
        ExportType::AsyncJSX => 1,
        ExportType::Other => 2,
        ExportType::AsyncOther => 3,
    }
}

/// The type that a number stands for in a record, if it stands for one.
pub fn type_of_tag(tag: u32) -> (r: Option<ExportType>)
    ensures
        r == export_type_of_tag(tag),
{
    if tag == 0 {
        Some(ExportType::JSX)
    } else if tag == 1 {
        Some(ExportType::AsyncJSX)
    } else if tag == 2 {
        Some(ExportType::Other)
    } else if tag == 3 {
        Some(ExportType::AsyncOther)
    } else {
        None
    }
}

impl TypeInfo {
    /// What the record holds.
    pub open spec fn view(&self) -> TypeInfoView {
        TypeInfoView {
            version: self.version,
            hash: self.hash@,
            entries: entries_view(self.exports.entries()),
        }
    }

    /// A record of the current version.
    pub fn new(hash: HashSHA256, exports: Exports) -> (r: TypeInfo)
        ensures
            r.version == TYPE_INFO_VERSION,
            r.hash == hash,
            r.exports == exports,
    {
        TypeInfo { version: TYPE_INFO_VERSION, hash, exports }
    }

    /// Infers the exports of a parsed module.
    pub fn get_exports(program: &Program) -> (r: Result<Exports, CompileError>)
        ensures
            match spec_infer_exports(program@.body, Seq::empty()) {
                Ok(exports) => r matches Ok(got) && got@ == exports,
                Err(e) => r matches Err(got) && got == e,
            },
    {
        infer_exports(program)
    }

    /// The record for a parsed module whose source has the digest `hash`.
    /// A module that cannot be inferred yields no record.
    pub fn of_program(hash: HashSHA256, program: &Program) -> (r: Result<TypeInfo, CompileError>)
        ensures
            match spec_infer_exports(program@.body, Seq::empty()) {
                Ok(exports) => r matches Ok(got)
                    && got.version == TYPE_INFO_VERSION
                    && got.hash == hash
                    && got.exports@ == exports,
                Err(e) => r matches Err(got) && got == e,
            },
    {
        match infer_exports(program) {
            Ok(exports) => Ok(TypeInfo::new(hash, exports)),
            Err(e) => Err(e),
        }
    }

    /// Whether the record may stand in for a fresh inference of a source
    /// with the digest `hash`: it has the current version and the same
    /// digest.
    pub fn is_valid_for(&self, hash: &HashSHA256) -> (r: bool)
        ensures
            r == (self.version == TYPE_INFO_VERSION && self.hash@ == hash@),
    {
        if self.version != TYPE_INFO_VERSION {
            return false;
        }
        let mut i: usize = 0;
        while i < 32
            invariant
                i <= 32,
                forall|j: int| 0 <= j < i ==> self.hash@[j] == hash@[j],
            decreases 32 - i,
        {
            if self.hash[i] != hash[i] {
                assert(self.hash@[i as int] != hash@[i as int]);
                return false;
            }
            i += 1;
        }
        assert(self.hash@ =~= hash@);
        true
    }

    /// The bytes of the record.
    pub fn encode(&self) -> (r: Vec<u8>)
        ensures
            r@ == spec_encode(self@),
    {
        let mut out = u16_to_le_bytes(self.version);
        append_bytes(&mut out, self.hash.as_slice());
        let n = self.exports.len();
        let count = u64_to_le_bytes(n as u64);
        append_bytes(&mut out, count.as_slice());
        let ghost head = out@;
        let ghost entries = entries_view(self.exports.entries());
        let mut i: usize = 0;
        assert(entries.take(0) =~= Seq::<(Seq<char>, ExportType)>::empty());
        while i < n
            invariant
                i <= n,
                n == self.exports.entries().len(),
                entries == entries_view(self.exports.entries()),
                out@ == head + encode_entries(entries.take(i as int)),
            decreases n - i,
        {
            let (key, value) = self.exports.entry(i);
            let key_bytes = key.as_str().as_bytes();
            let key_len = u64_to_le_bytes(key_bytes.len() as u64);
            let tag = u32_to_le_bytes(tag_of(*value));
            proof {
                lemma_encode_entries_push(entries.take(i as int), entries[i as int]);
                assert(entries.take(i + 1) =~= entries.take(i as int).push(entries[i as int]));
            }
            append_bytes(&mut out, key_len.as_slice());
            append_bytes(&mut out, key_bytes);
            append_bytes(&mut out, tag.as_slice());
            assert(out@ =~= head + (encode_entries(entries.take(i as int)) + encode_entry(
                entries[i as int],
            )));
            i += 1;
        }
        assert(entries.take(n as int) =~= entries);
        assert(out@ =~= spec_encode(self@));
        out
    }

    /// Reads the record that `bytes` starts with. Bytes that do not start
    /// with a record yield nothing.
    pub fn decode(bytes: &[u8]) -> (r: Option<TypeInfo>)
        ensures
            holds(r, spec_decode(bytes@)),
    {
        if bytes.len() < 42 {
            return None;
        }
        let version = u16_from_le_bytes(slice_subrange(bytes, 0, 2));
        let mut hash: HashSHA256 = [0; 32];
        let mut k: usize = 0;
        while k < 32
            invariant
                k <= 32,
                bytes@.len() >= 42,
                forall|j: int| 0 <= j < k ==> hash@[j] == bytes@[2 + j],
            decreases 32 - k,
        {
            hash[k] = bytes[2 + k];
            k += 1;
        }
        assert(hash@ =~= bytes@.subrange(2, 34));
        let count = u64_from_le_bytes(slice_subrange(bytes, 34, 42));
        let mut exports: Exports = StringMap::new();
        let ghost done = Seq::<(Seq<char>, ExportType)>::empty();
        let ghost goal = decode_entries(bytes@.skip(42), count as nat);
        let mut pos: usize = 42;
        let mut i: u64 = 0;
        while i < count
            invariant
                i <= count,
                42 <= pos <= bytes@.len(),
                exports@ == entries_to_map(done),
                goal == decode_entries(bytes@.skip(42), count as nat),
                goal is None ==> spec_decode(bytes@) is None,
                goal matches Some(entries) ==> spec_decode(bytes@) == Some(
                    TypeInfoView { version, hash: hash@, entries },
                ),
                goal == match decode_entries(bytes@.skip(pos as int), (count - i) as nat) {
                    None => None,
                    Some(rest) => Some(done + rest),
                },
            decreases count - i,
        {
            let ghost tail = bytes@.skip(pos as int);
            let left = bytes.len() - pos;
            assert(tail.len() == left);
            if left < 8 {
                assert(decode_entry(tail) is None);
                return None;
            }
            let n = u64_from_le_bytes(slice_subrange(bytes, pos, pos + 8));
            assert(tail.subrange(0, 8) =~= bytes@.subrange(pos as int, pos + 8));
            if ((left - 8) as u64) < n || (left - 8) as u64 - n < 4 {
                assert(decode_entry(tail) is None);
                return None;
            }
            let n = n as usize;
            let key_bytes = vstd::slice::slice_to_vec(slice_subrange(bytes, pos + 8, pos + 8 + n));
            assert(tail.subrange(8, 8 + n) =~= bytes@.subrange(pos + 8, pos + 8 + n));
            let tag = u32_from_le_bytes(slice_subrange(bytes, pos + 8 + n, pos + 8 + n + 4));
            assert(tail.subrange(8 + n, 8 + n + 4) =~= bytes@.subrange(
                pos + 8 + n,
                pos + 8 + n + 4,
            ));
            let key = match crate::text::string_from_utf8(key_bytes) {
                Some(key) => key,
                None => {
                    assert(decode_entry(tail) is None);
                    return None;
                },
            };
            let value = match type_of_tag(tag) {
                Some(value) => value,
                None => {
                    assert(decode_entry(tail) is None);
                    return None;
                },
            };
            proof {
                let entry = (key@, value);
                assert(decode_entry(tail) == Some((entry, 8 + n + 4)));
                assert(tail.skip(8 + n + 4) =~= bytes@.skip(pos + 8 + n + 4));
                assert(done.push(entry).drop_last() =~= done);
                match decode_entries(bytes@.skip(pos + 8 + n + 4), (count - i - 1) as nat) {
                    None => {},
                    Some(rest) => {
                        assert(done + (seq![entry] + rest) =~= done.push(entry) + rest);
                    },
                }
                done = done.push(entry);
            }
            exports.insert(key, value);
            pos = pos + 8 + n + 4;
            i += 1;
        }
        assert(done + Seq::<(Seq<char>, ExportType)>::empty() =~= done);
        Some(TypeInfo { version, hash, exports })
    }

    /// Looks a source with the digest `hash` up in the cache: yields the
    /// stored record if it can be read, has the current version and the
    /// same digest, and nothing otherwise.
    pub fn lookup(hash: &HashSHA256, record: Option<&[u8]>) -> (r: Option<TypeInfo>)
        ensures
            holds(
                r,
                spec_lookup(
                    hash@,
                    match record {
                        Some(bytes) => Some(bytes@),
                        None => None,
                    },
                ),
            ),
    {
        match record {
            None => None,
            Some(bytes) => match TypeInfo::decode(bytes) {
                None => None,
                Some(info) => if info.is_valid_for(hash) {
                    Some(info)
                } else {
                    None
                },
            },
        }
    }
}

/// Cache hit: the record written for a source is found again under the
/// digest of that source, with its exports unchanged.
pub proof fn lemma_cache_hit(info: TypeInfoView, rest: Seq<u8>)
    requires
        encodable(info),
        info.version == TYPE_INFO_VERSION,
    ensures
        spec_lookup(info.hash, Some(spec_encode(info) + rest)) == Some(info),
{
    lemma_round_trip(info, rest);
}

/// What a record holds is what gets written and found again: the exports
/// of a record of the current version that is looked up under its own
/// digest are the exports it was made with.
pub proof fn lemma_cache_keeps_exports(info: TypeInfo, rest: Seq<u8>)
    requires
        encodable(info@),
        info.version == TYPE_INFO_VERSION,
    ensures
        spec_lookup(info.hash@, Some(spec_encode(info@) + rest)) == Some(info@),
        entries_to_map(info@.entries) == info.exports@,
{
    lemma_round_trip(info@, rest);
    lemma_entries_view_map(info.exports.entries());
}

/// Cache miss: a record is not found under any other digest than its own,
/// nor if its version is not the current one.
pub proof fn lemma_cache_miss(info: TypeInfoView, hash: Seq<u8>, rest: Seq<u8>)
    requires
        encodable(info),
        info.hash != hash || info.version != TYPE_INFO_VERSION,
    ensures
        spec_lookup(hash, Some(spec_encode(info) + rest)) is None,
{
    lemma_round_trip(info, rest);
}

} // verus!
