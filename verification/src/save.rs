//! The save buffer: owns the raw file bytes and composes the key encoder,
//! the pattern locator, the little-endian field accessors and the checksum
//! finalizer into the load → edit → save cycle.

use vstd::prelude::*;

use crate::checksum::{crc32, crc32_of};
use crate::encode::{encode, encoded_key};
use crate::le::{
    i32_le_bytes, le_u32_at, lemma_le_u32_at_of_bytes, lemma_splice4_read_back,
    read_i32_le, read_u32_le, splice4, u32_le_bytes, write_i32_le, write_u32_le,
};
use crate::search::{
    find_pattern, first_match_from, lemma_find_pattern_leftmost, located_offset, matches_at,
    search_bytes,
};

verus! {

/// Which file-layout convention the buffer follows: the legacy layout
/// keeps the buffer free of its checksum while editing and appends it on
/// save; the current layout carries a live trailing 4-byte checksum slot
/// that is rewritten in place on save.
#[derive(Clone, Copy, PartialEq, Eq, Structural, Debug)]
pub enum Variant {
    Legacy,
    Current,
}

/// Why a field access or a finalization was refused. Every error is
/// terminal for the operation that raised it and leaves the buffer
/// unchanged.
#[derive(Clone, Copy, PartialEq, Eq, Structural, Debug)]
pub enum SaveError {
    /// The key's encoded pattern occurs nowhere in the buffer.
    KeyNotFound,
    /// The derived offset and the 4-byte field width do not fit inside
    /// the buffer.
    LayoutViolation,
}

/// The byte offset of the 4-byte value of a simple keyed field: one byte
/// past the leftmost occurrence of the encoded key.
pub open spec fn key_offset(data: Seq<u8>, key: Seq<char>) -> Option<int> {
    located_offset(data, encoded_key(key))
}

/// The start of the small fixed-size header that precedes the anchor key
/// bytes: the match position of the encoded anchor key itself.
pub open spec fn anchor_header_start(data: Seq<u8>, anchor: Seq<char>) -> Option<int> {
    find_pattern(data, encoded_key(anchor))
}

/// The offset of the bond-fragment counter: 12 bytes before the anchor
/// header start.
pub open spec fn bond_fragment_offset(data: Seq<u8>, anchor: Seq<char>) -> Option<int> {
    match anchor_header_start(data, anchor) {
        Some(h) => Some(h - 12),
        None => None,
    }
}

/// The offset of the currency counter: 32 bytes before the bond-fragment
/// counter.
pub open spec fn money_offset(data: Seq<u8>, anchor: Seq<char>) -> Option<int> {
    match anchor_header_start(data, anchor) {
        Some(h) => Some(h - 12 - 32),
        None => None,
    }
}

/// Outcome of a 4-byte read at a derived offset.
pub open spec fn spec_read_field(data: Seq<u8>, off: Option<int>) -> Result<u32, SaveError> {
    match off {
        None => Err(SaveError::KeyNotFound),
        Some(o) => if 0 <= o && o + 4 <= data.len() {
            Ok(le_u32_at(data, o))
        } else {
            Err(SaveError::LayoutViolation)
        },
    }
}

/// Outcome of a 4-byte write at a derived offset: the new buffer contents,
/// or the untouched buffer's error.
pub open spec fn spec_write_field(data: Seq<u8>, off: Option<int>, w: Seq<u8>) -> Result<
    Seq<u8>,
    SaveError,
> {
    match off {
        None => Err(SaveError::KeyNotFound),
        Some(o) => if 0 <= o && o + 4 <= data.len() {
            Ok(splice4(data, o, w))
        } else {
            Err(SaveError::LayoutViolation)
        },
    }
}

/// What reading the unsigned field stored under `key` returns.
pub open spec fn spec_get_u32(data: Seq<u8>, key: Seq<char>) -> Result<u32, SaveError> {
    spec_read_field(data, key_offset(data, key))
}

/// What reading the signed field stored under `key` returns.
pub open spec fn spec_get_i32(data: Seq<u8>, key: Seq<char>) -> Result<i32, SaveError> {
    match spec_get_u32(data, key) {
        Ok(v) => Ok(v as i32),
        Err(e) => Err(e),
    }
}

/// The buffer after writing `v` to the unsigned field stored under `key`.
pub open spec fn spec_set_u32(data: Seq<u8>, key: Seq<char>, v: u32) -> Result<Seq<u8>, SaveError> {
    spec_write_field(data, key_offset(data, key), u32_le_bytes(v))
}

/// The buffer after writing `v` to the signed field stored under `key`.
pub open spec fn spec_set_i32(data: Seq<u8>, key: Seq<char>, v: i32) -> Result<Seq<u8>, SaveError> {
    spec_write_field(data, key_offset(data, key), i32_le_bytes(v))
}

/// The buffer with its trailing 4-byte slot rewritten to the checksum of
/// everything before it.
pub open spec fn with_refreshed_checksum(data: Seq<u8>) -> Seq<u8>
    recommends
        data.len() >= 4,
{
    data.take(data.len() - 4) + u32_le_bytes(crc32_of(data.take(data.len() - 4)))
}

/// The byte image persisted for a buffer: the legacy layout appends the
/// checksum of the whole buffer; the current layout rewrites the trailing
/// slot in place.
pub open spec fn spec_finalized_bytes(data: Seq<u8>, variant: Variant) -> Result<
    Seq<u8>,
    SaveError,
> {
    match variant {
        Variant::Legacy => Ok(data + u32_le_bytes(crc32_of(data))),
        Variant::Current => if data.len() >= 4 {
            Ok(with_refreshed_checksum(data))
        } else {
            Err(SaveError::LayoutViolation)
        },
    }
}

/// An in-memory save file: the raw bytes, the name they were loaded under,
/// the anchor key string, and the layout variant chosen at construction.
pub struct SaveFile {
    name: String,
    data: Vec<u8>,
    sommie_name: String,
    variant: Variant,
}

impl SaveFile {
    /// The raw buffer contents.
    pub closed spec fn data_spec(self) -> Seq<u8> {
        self.data@
    }

    /// The logical name (the originating path).
    pub closed spec fn name_spec(self) -> Seq<char> {
        self.name@
    }

    /// The configured anchor key string.
    pub closed spec fn sommie_spec(self) -> Seq<char> {
        self.sommie_name@
    }

    /// The layout variant chosen at construction.
    pub closed spec fn variant_spec(self) -> Variant {
        self.variant
    }

    /// The buffer leaves room for offset arithmetic at the machine width.
    pub open spec fn wf(self) -> bool {
        self.data_spec().len() + 4 <= usize::MAX
    }

    /// Build a save file around an in-memory byte image, under the current
    /// layout variant.
    pub fn from_array(name: &str, data: &[u8], sommie_name: &str) -> (r: SaveFile)
        requires
            data@.len() + 4 <= usize::MAX,
        ensures
            r.name_spec() == name@,
            r.data_spec() == data@,
            r.sommie_spec() == sommie_name@,
            r.variant_spec() == Variant::Current,
            r.wf(),
    {
        SaveFile::from_array_with_variant(name, data, sommie_name, Variant::Current)
    }

    /// Build a save file around an in-memory byte image under a chosen
    /// layout variant. Under the legacy variant the image must already
    /// have its trailing checksum bytes trimmed.
    pub fn from_array_with_variant(
        name: &str,
        data: &[u8],
        sommie_name: &str,
        variant: Variant,
    ) -> (r: SaveFile)
        requires
            data@.len() + 4 <= usize::MAX,
        ensures
            r.name_spec() == name@,
            r.data_spec() == data@,
            r.sommie_spec() == sommie_name@,
            r.variant_spec() == variant,
            r.wf(),
    {
        SaveFile {
            name: name.to_owned(),
            data: vstd::slice::slice_to_vec(data),
            sommie_name: sommie_name.to_owned(),
            variant,
        }
    }

    /// A copy of the raw buffer.
    pub fn get_data(&self) -> (r: Vec<u8>)
        ensures
            r@ == self.data_spec(),
    {
        vstd::slice::slice_to_vec(self.data.as_slice())
    }

    /// The logical name.
    pub fn get_name(&self) -> (r: String)
        ensures
            r@ == self.name_spec(),
    {
        self.name.clone()
    }

    /// The configured anchor key string.
    pub fn get_stored_sommie_name(&self) -> (r: String)
        ensures
            r@ == self.sommie_spec(),
    {
        self.sommie_name.clone()
    }

    /// The layout variant this save file was constructed under.
    pub fn get_variant(&self) -> (r: Variant)
        ensures
            r == self.variant_spec(),
    {
        self.variant
    }

    /// An independent copy of the whole save file.
    pub fn clone(&self) -> (r: Self)
        ensures
            r.name_spec() == self.name_spec(),
            r.data_spec() == self.data_spec(),
            r.sommie_spec() == self.sommie_spec(),
            r.variant_spec() == self.variant_spec(),
    {
        Self {
            name: self.name.clone(),
            data: vstd::slice::slice_to_vec(self.data.as_slice()),
            sommie_name: self.sommie_name.clone(),
            variant: self.variant,
        }
    }

    /// Locate a raw byte pattern in the buffer: the offset one byte past
    /// its leftmost occurrence, or nothing when it is absent.
    pub fn search_data(&self, pattern: &[u8]) -> (r: Option<usize>)
        requires
            self.wf(),
        ensures
            r == match located_offset(self.data_spec(), pattern@) {
                Some(off) => Some(off as usize),
                None => None::<usize>,
            },
    {
        search_bytes(self.data.as_slice(), pattern)
    }

    /// Read the unsigned 32-bit field stored under `name`.
    pub fn get_simple_u32(&self, name: &str) -> (r: Result<u32, SaveError>)
        requires
            self.wf(),
        ensures
            r == spec_get_u32(self.data_spec(), name@),
    {
        let b = encode(name);
        match self.search_data(b.as_slice()) {
            None => Err(SaveError::KeyNotFound),
            Some(idx) => {
                proof {
                    lemma_find_pattern_leftmost(self.data_spec(), b@);
                }
                let n = self.data.len();
                if n >= 4 && idx <= n - 4 {
                    Ok(read_u32_le(self.data.as_slice(), idx))
                } else {
                    Err(SaveError::LayoutViolation)
                }
            },
        }
    }

    /// Read the signed 32-bit field stored under `name`.
    pub fn get_simple_i32(&self, name: &str) -> (r: Result<i32, SaveError>)
        requires
            self.wf(),
        ensures
            r == spec_get_i32(self.data_spec(), name@),
    {
        match self.get_simple_u32(name) {
            Ok(v) => Ok(v as i32),
            Err(e) => Err(e),
        }
    }

    /// Write the unsigned 32-bit field stored under `name`. On an error
    /// the buffer is unchanged.
    pub fn set_simple_u32(&mut self, name: &str, value: u32) -> (r: Result<(), SaveError>)
        requires
            old(self).wf(),
        ensures
            final(self).name_spec() == old(self).name_spec(),
            final(self).sommie_spec() == old(self).sommie_spec(),
            final(self).variant_spec() == old(self).variant_spec(),
            final(self).wf(),
            match spec_set_u32(old(self).data_spec(), name@, value) {
                Ok(d) => r == Ok::<(), SaveError>(()) && final(self).data_spec() == d,
                Err(e) => r == Err::<(), SaveError>(e) && final(self).data_spec() == old(
                    self,
                ).data_spec(),
            },
    {
        let b = encode(name);
        match search_bytes(self.data.as_slice(), b.as_slice()) {
            None => Err(SaveError::KeyNotFound),
            Some(idx) => {
                proof {
                    lemma_find_pattern_leftmost(old(self).data_spec(), b@);
                }
                let n = self.data.len();
                if n >= 4 && idx <= n - 4 {
                    write_u32_le(&mut self.data, idx, value);
                    Ok(())
                } else {
                    Err(SaveError::LayoutViolation)
                }
            },
        }
    }

    /// Write the signed 32-bit field stored under `name`. On an error the
    /// buffer is unchanged.
    pub fn set_simple_i32(&mut self, name: &str, value: i32) -> (r: Result<(), SaveError>)
        requires
            old(self).wf(),
        ensures
            final(self).name_spec() == old(self).name_spec(),
            final(self).sommie_spec() == old(self).sommie_spec(),
            final(self).variant_spec() == old(self).variant_spec(),
            final(self).wf(),
            match spec_set_i32(old(self).data_spec(), name@, value) {
                Ok(d) => r == Ok::<(), SaveError>(()) && final(self).data_spec() == d,
                Err(e) => r == Err::<(), SaveError>(e) && final(self).data_spec() == old(
                    self,
                ).data_spec(),
            },
    {
        self.set_simple_u32(name, value as u32)
    }

    /// The offset of the anchor-relative field `delta` bytes before the
    /// anchor header start, when the anchor key occurs in the buffer and
    /// the field fits inside it.
    fn anchor_field_offset(&self, delta: usize) -> (r: Result<usize, SaveError>)
        requires
            self.wf(),
        ensures
            r == match anchor_header_start(self.data_spec(), self.sommie_spec()) {
                None => Err::<usize, SaveError>(SaveError::KeyNotFound),
                Some(h) => if h - delta >= 0 && h - delta + 4 <= self.data_spec().len() {
                    Ok((h - delta) as usize)
                } else {
                    Err(SaveError::LayoutViolation)
                },
            },
    {
        let b = encode(self.sommie_name.as_str());
        match search_bytes(self.data.as_slice(), b.as_slice()) {
            None => Err(SaveError::KeyNotFound),
            Some(idx) => {
                proof {
                    lemma_find_pattern_leftmost(self.data_spec(), b@);
                }
                let h = idx - b.len() - 1;
                let n = self.data.len();
                if h >= delta && n >= 4 && h - delta <= n - 4 {
                    Ok(h - delta)
                } else {
                    Err(SaveError::LayoutViolation)
                }
            },
        }
    }

    /// Read the bond-fragment counter: the 4-byte unsigned value 12 bytes
    /// before the anchor header start.
    pub fn get_bond_fragments(&self) -> (r: Result<u32, SaveError>)
        requires
            self.wf(),
        ensures
            r == spec_read_field(
                self.data_spec(),
                bond_fragment_offset(self.data_spec(), self.sommie_spec()),
            ),
    {
        match self.anchor_field_offset(12) {
            Err(e) => Err(e),
            Ok(o) => Ok(read_u32_le(self.data.as_slice(), o)),
        }
    }

    /// Write the bond-fragment counter, 12 bytes before the anchor header
    /// start. On an error the buffer is unchanged.
    pub fn set_bond_fragments(&mut self, value: i32) -> (r: Result<(), SaveError>)
        requires
            old(self).wf(),
        ensures
            final(self).name_spec() == old(self).name_spec(),
            final(self).sommie_spec() == old(self).sommie_spec(),
            final(self).variant_spec() == old(self).variant_spec(),
            final(self).wf(),
            match spec_write_field(
                old(self).data_spec(),
                bond_fragment_offset(old(self).data_spec(), old(self).sommie_spec()),
                i32_le_bytes(value),
            ) {
                Ok(d) => r == Ok::<(), SaveError>(()) && final(self).data_spec() == d,
                Err(e) => r == Err::<(), SaveError>(e) && final(self).data_spec() == old(
                    self,
                ).data_spec(),
            },
    {
        match self.anchor_field_offset(12) {
            Err(e) => Err(e),
            Ok(o) => {
                write_i32_le(&mut self.data, o, value);
                Ok(())
            },
        }
    }

    /// Read the currency counter: the 4-byte signed value 32 bytes before
    /// the bond-fragment counter.
    pub fn get_money(&self) -> (r: Result<i32, SaveError>)
        requires
            self.wf(),
        ensures
            r == match spec_read_field(
                self.data_spec(),
                money_offset(self.data_spec(), self.sommie_spec()),
            ) {
                Ok(v) => Ok(v as i32),
                Err(e) => Err::<i32, SaveError>(e),
            },
    {
        match self.anchor_field_offset(12 + 0x20) {
            Err(e) => Err(e),
            Ok(o) => Ok(read_i32_le(self.data.as_slice(), o)),
        }
    }

    /// Write the currency counter, 32 bytes before the bond-fragment
    /// counter. On an error the buffer is unchanged.
    pub fn set_money(&mut self, value: i32) -> (r: Result<(), SaveError>)
        requires
            old(self).wf(),
        ensures
            final(self).name_spec() == old(self).name_spec(),
            final(self).sommie_spec() == old(self).sommie_spec(),
            final(self).variant_spec() == old(self).variant_spec(),
            final(self).wf(),
            match spec_write_field(
                old(self).data_spec(),
                money_offset(old(self).data_spec(), old(self).sommie_spec()),
                i32_le_bytes(value),
            ) {
                Ok(d) => r == Ok::<(), SaveError>(()) && final(self).data_spec() == d,
                Err(e) => r == Err::<(), SaveError>(e) && final(self).data_spec() == old(
                    self,
                ).data_spec(),
            },
    {
        match self.anchor_field_offset(12 + 0x20) {
            Err(e) => Err(e),
            Ok(o) => {
                write_i32_le(&mut self.data, o, value);
                Ok(())
            },
        }
    }

    /// Rewrite the trailing 4-byte checksum slot in place with the
    /// checksum of every byte before it.
    pub fn update_crc32(&mut self) -> (r: Result<(), SaveError>)
        requires
            old(self).wf(),
        ensures
            final(self).name_spec() == old(self).name_spec(),
            final(self).sommie_spec() == old(self).sommie_spec(),
            final(self).variant_spec() == old(self).variant_spec(),
            final(self).wf(),
            if old(self).data_spec().len() >= 4 {
                r == Ok::<(), SaveError>(()) && final(self).data_spec() == with_refreshed_checksum(
                    old(self).data_spec(),
                )
            } else {
                r == Err::<(), SaveError>(SaveError::LayoutViolation) && final(self).data_spec()
                    == old(self).data_spec()
            },
    {
        let n = self.data.len();
        if n < 4 {
            return Err(SaveError::LayoutViolation);
        }
        let c = crc32(&self.data.as_slice()[0..n - 4]);
        write_u32_le(&mut self.data, n - 4, c);
        proof {
            assert(self.data@ =~= with_refreshed_checksum(old(self).data_spec()));
        }
        Ok(())
    }

    /// The exact byte image that persisting this save file writes: the
    /// buffer finalized under its variant's checksum convention. The
    /// buffer itself is unchanged.
    pub fn finalized_bytes(&self) -> (r: Result<Vec<u8>, SaveError>)
        requires
            self.wf(),
        ensures
            match spec_finalized_bytes(self.data_spec(), self.variant_spec()) {
                Ok(out) => r matches Ok(v) && v@ == out,
                Err(e) => r == Err::<Vec<u8>, SaveError>(e),
            },
    {
        match self.variant {
            Variant::Legacy => {
                let c = crc32(self.data.as_slice());
                let mut out = vstd::slice::slice_to_vec(self.data.as_slice());
                out.push((c % 0x100) as u8);
                out.push(((c / 0x100) % 0x100) as u8);
                out.push(((c / 0x10000) % 0x100) as u8);
                out.push(((c / 0x1000000) % 0x100) as u8);
                proof {
                    assert(out@ =~= self.data_spec() + u32_le_bytes(crc32_of(self.data_spec())));
                }
                Ok(out)
            },
            Variant::Current => {
                let n = self.data.len();
                if n < 4 {
                    return Err(SaveError::LayoutViolation);
                }
                let c = crc32(&self.data.as_slice()[0..n - 4]);
                let mut out = vstd::slice::slice_to_vec(self.data.as_slice());
                write_u32_le(&mut out, n - 4, c);
                proof {
                    assert(out@ =~= with_refreshed_checksum(self.data_spec()));
                }
                Ok(out)
            },
        }
    }
}

/// Anchor-relative offsets are internally consistent: the currency counter
/// sits exactly 32 bytes below the bond-fragment counter, and both sit
/// strictly below the anchor key's located offset.
pub proof fn lemma_anchor_offsets_consistent(data: Seq<u8>, anchor: Seq<char>)
    requires
        anchor_header_start(data, anchor) is Some,
    ensures
        match (
            bond_fragment_offset(data, anchor),
            money_offset(data, anchor),
            key_offset(data, anchor),
        ) {
            (Some(b), Some(m), Some(l)) => m == b - 32 && b < l && m < l,
            _ => false,
        },
{
    lemma_find_pattern_leftmost(data, encoded_key(anchor));
}

proof fn lemma_first_match_preserved(d1: Seq<u8>, d2: Seq<u8>, p: Seq<u8>, i: int, t: int)
    requires
        0 <= t <= i,
        d1.len() == d2.len(),
        matches_at(d1, p, i),
        forall|j: int| 0 <= j < i ==> !matches_at(d1, p, j),
        forall|k: int| 0 <= k < i + p.len() ==> d1[k] == d2[k],
    ensures
        first_match_from(d2, p, t) == Some(i),
    decreases i - t,
{
    if t == i {
        assert(matches_at(d2, p, i)) by {
            assert(forall|j: int| 0 <= j < p.len() ==> d2[i + j] == #[trigger] p[j]) by {
                assert(forall|j: int| 0 <= j < p.len() ==> d1[i + j] == #[trigger] p[j]);
            }
        }
    } else {
        assert(!matches_at(d2, p, t)) by {
            if matches_at(d2, p, t) {
                assert(forall|j: int| 0 <= j < p.len() ==> d1[t + j] == #[trigger] p[j]) by {
                    assert(forall|j: int| 0 <= j < p.len() ==> d2[t + j] == #[trigger] p[j]);
                }
                assert(matches_at(d1, p, t));
            }
        }
        lemma_first_match_preserved(d1, d2, p, i, t + 1);
    }
}

/// Writing a simple field and reading it back under the same key yields
/// the written value: the written bytes lie past the leftmost match, so
/// the key is located at the same offset afterwards.
pub proof fn lemma_set_then_get_u32(data: Seq<u8>, key: Seq<char>, v: u32)
    requires
        spec_set_u32(data, key, v) is Ok,
    ensures
        match spec_set_u32(data, key, v) {
            Ok(d) => spec_get_u32(d, key) == Ok::<u32, SaveError>(v),
            Err(_) => false,
        },
{
    let p = encoded_key(key);
    lemma_find_pattern_leftmost(data, p);
    match find_pattern(data, p) {
        Some(i) => {
            let off = i + p.len() + 1;
            let d = splice4(data, off, u32_le_bytes(v));
            assert(d.len() == data.len());
            assert(forall|k: int| 0 <= k < i + p.len() ==> data[k] == d[k]);
            lemma_first_match_preserved(data, d, p, i, 0);
            lemma_splice4_read_back(data, off, v);
        },
        None => {},
    }
}

/// The signed counterpart: writing a signed field and reading it back
/// under the same key yields the written value.
pub proof fn lemma_set_then_get_i32(data: Seq<u8>, key: Seq<char>, v: i32)
    requires
        spec_set_i32(data, key, v) is Ok,
    ensures
        match spec_set_i32(data, key, v) {
            Ok(d) => spec_get_i32(d, key) == Ok::<i32, SaveError>(v),
            Err(_) => false,
        },
{
    lemma_set_then_get_u32(data, key, v as u32);
    assert((v as u32) as i32 == v) by (bit_vector);
}

/// Checksum round trip: in a finalized image the trailing 4 bytes read
/// back, little-endian, as the checksum of every byte before them, under
/// either layout variant.
pub proof fn lemma_finalized_checksum(data: Seq<u8>, variant: Variant)
    ensures
        match spec_finalized_bytes(data, variant) {
            Ok(out) => {
                &&& out.len() >= 4
                &&& out.subrange(out.len() - 4, out.len() as int) == u32_le_bytes(
                    crc32_of(out.take(out.len() - 4)),
                )
                &&& le_u32_at(out, out.len() - 4) == crc32_of(out.take(out.len() - 4))
            },
            Err(e) => {
                &&& variant == Variant::Current
                &&& data.len() < 4
                &&& e == SaveError::LayoutViolation
            },
        },
{
    match variant {
        Variant::Legacy => {
            let c = crc32_of(data);
            let out = data + u32_le_bytes(c);
            assert(out.take(out.len() - 4) =~= data);
            assert(out.subrange(out.len() - 4, out.len() as int) =~= u32_le_bytes(c));
            lemma_le_u32_at_of_bytes(out, out.len() - 4, c);
        },
        Variant::Current => {
            if data.len() >= 4 {
                let head = data.take(data.len() - 4);
                let c = crc32_of(head);
                let out = with_refreshed_checksum(data);
                assert(out.len() == data.len());
                assert(out.take(out.len() - 4) =~= head);
                assert(out.subrange(out.len() - 4, out.len() as int) =~= u32_le_bytes(c));
                lemma_le_u32_at_of_bytes(out, out.len() - 4, c);
            }
        },
    }
}

} // verus!
