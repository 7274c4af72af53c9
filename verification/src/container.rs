//! Locating the character record inside a raw container, decrypting its
//! body where the profile asks for it, and extracting the occupied
//! character slots.

use vstd::prelude::*;
use vstd::string::StringExecFns;
use vstd::slice::slice_to_vec;
use vstd::arithmetic::mul::lemma_mul_inequality;
use crate::SaveError;
use crate::bytes::{read_u32_le, spec_u32_le};
use crate::codec::{read_null_terminated_utf16le_string, spec_utf16_units, utf16_lossy_of};
use crate::decryptor::{aes128_cbc_decrypt_of, decrypt_file, spec_key};
use crate::profile::{ProfileData, ProfileRegistry};
use crate::time::{format_time, spec_format_time};

verus! {

/// One extracted character slot: its 1-based slot number, the decoded name,
/// the level, the elapsed playtime in seconds and its `HH:MM:SS` rendering.
#[derive(Debug)]
pub struct Character {
    pub character_slot: u32,
    pub character_name: String,
    pub character_level: u32,
    pub character_time: u32,
    pub character_time_format: String,
}

/// The mathematical content of one `Character`: the same fields with the
/// strings as character sequences.
pub struct CharView {
    pub slot: u32,
    pub name: Seq<char>,
    pub level: u32,
    pub time: u32,
    pub time_format: Seq<char>,
}

impl View for Character {
    type V = CharView;

    open spec fn view(&self) -> CharView {
        CharView {
            slot: self.character_slot,
            name: self.character_name@,
            level: self.character_level,
            time: self.character_time,
            time_format: self.character_time_format@,
        }
    }
}

impl DeepView for Character {
    type V = CharView;

    open spec fn deep_view(&self) -> CharView {
        self.view()
    }
}

/// Byte offset of the record's 32-byte entry header inside the container:
/// the entry table starts at 64.
pub open spec fn spec_entry_offset(p: ProfileData) -> int {
    64 + 32 * p.file_index
}

/// The three header fields read at the entry header lie inside the
/// container.
pub open spec fn header_in_bounds(p: ProfileData, n: int) -> bool {
    spec_entry_offset(p) + 24 <= n
}

/// The record's size field: a 32-bit little-endian value 8 bytes into the
/// entry header.
pub open spec fn spec_record_size(raw: Seq<u8>, p: ProfileData) -> int {
    spec_u32_le(raw, spec_entry_offset(p) + 8) as int
}

/// The record's data offset field, 16 bytes into the entry header.
pub open spec fn spec_data_offset(raw: Seq<u8>, p: ProfileData) -> int {
    spec_u32_le(raw, spec_entry_offset(p) + 16) as int
}

/// The record's name offset field, 20 bytes into the entry header.
pub open spec fn spec_name_offset(raw: Seq<u8>, p: ProfileData) -> int {
    spec_u32_le(raw, spec_entry_offset(p) + 20) as int
}

/// The header is readable and the record's data region, initialization
/// vector included, lies inside the container.
pub open spec fn record_in_bounds(raw: Seq<u8>, p: ProfileData) -> bool {
    &&& header_in_bounds(p, raw.len() as int)
    &&& spec_record_size(raw, p) >= 16
    &&& spec_data_offset(raw, p) + spec_record_size(raw, p) <= raw.len()
}

/// The record's initialization vector: the first 16 bytes of its data
/// region.
pub open spec fn spec_iv(raw: Seq<u8>, p: ProfileData) -> Seq<u8> {
    raw.subrange(spec_data_offset(raw, p), spec_data_offset(raw, p) + 16)
}

/// The record's body: the data region past the initialization vector.
pub open spec fn spec_entry_data(raw: Seq<u8>, p: ProfileData) -> Seq<u8> {
    raw.subrange(
        spec_data_offset(raw, p) + 16,
        spec_data_offset(raw, p) + spec_record_size(raw, p),
    )
}

/// Parsing succeeds: the key is registered, the record lies inside the
/// container, and an encrypted body is one the cipher accepts.
pub open spec fn parse_ok(reg: ProfileRegistry, raw: Seq<u8>, key: Seq<char>) -> bool {
    &&& reg.spec_contains(key)
    &&& record_in_bounds(raw, reg.spec_get(key))
    &&& (reg.spec_get(key).is_encrypted ==> aes128_cbc_decrypt_of(
        spec_key(),
        spec_iv(raw, reg.spec_get(key)),
        spec_entry_data(raw, reg.spec_get(key)),
    ) is Some)
}

/// The error a failing parse reports: an unregistered key first, then an
/// out-of-bounds record, then a refused ciphertext.
pub open spec fn spec_parse_err(reg: ProfileRegistry, raw: Seq<u8>, key: Seq<char>) -> SaveError {
    if !reg.spec_contains(key) {
        SaveError::UnknownProfile
    } else if !record_in_bounds(raw, reg.spec_get(key)) {
        SaveError::OutOfBounds
    } else {
        SaveError::Decrypt
    }
}

/// The single record of interest located inside one container, with its
/// header fields, its initialization vector, its raw body and, for an
/// encrypted profile, its decrypted body.
pub struct BND4Entry {
    pub profile: String,
    pub profile_data: ProfileData,
    pub raw: Vec<u8>,
    pub size: usize,
    pub char_entry_offset: usize,
    pub char_entry_size: usize,
    pub name: String,
    pub iv: Vec<u8>,
    pub entry_data: Vec<u8>,
    pub decrypted_data: Vec<u8>,
    pub checksum: Vec<u8>,
    pub char_entry_data_offset: usize,
    pub char_entry_name_offset: usize,
}

/// Every field of a freshly parsed entry, stated against the container
/// bytes, the registry and the key.
pub open spec fn entry_matches(
    e: BND4Entry,
    reg: ProfileRegistry,
    raw: Seq<u8>,
    key: Seq<char>,
) -> bool {
    let p = reg.spec_get(key);
    &&& e.profile@ == key
    &&& e.profile_data == p
    &&& e.raw@ == raw
    &&& e.size == raw.len()
    &&& e.char_entry_offset == spec_entry_offset(p)
    &&& e.char_entry_size == spec_record_size(raw, p)
    &&& e.char_entry_data_offset == spec_data_offset(raw, p)
    &&& e.char_entry_name_offset == spec_name_offset(raw, p)
    &&& e.name@ == utf16_lossy_of(spec_utf16_units(raw, spec_name_offset(raw, p)))
    &&& e.iv@ == spec_iv(raw, p)
    &&& e.entry_data@ == spec_entry_data(raw, p)
    &&& e.checksum@ == raw.subrange(spec_entry_offset(p), spec_entry_offset(p) + 16)
    &&& e.decrypted_data@ == (if p.is_encrypted {
        aes128_cbc_decrypt_of(spec_key(), spec_iv(raw, p), spec_entry_data(raw, p))->0
    } else {
        Seq::<u8>::empty()
    })
}

impl BND4Entry {
    /// Locates the record that `profile_key`'s layout names inside `raw`,
    /// reads its header fields, display name, initialization vector and
    /// body, and decrypts the body when the profile is encrypted. Fails
    /// with the configuration error on an unregistered key, the bounds
    /// error when a computed offset or length leaves the buffer, and the
    /// decryption error when the cipher refuses the body.
    pub fn new(registry: &ProfileRegistry, raw: Vec<u8>, profile_key: &str) -> (r: Result<
        BND4Entry,
        SaveError,
    >)
        requires
            registry.wf(),
        ensures
            r is Ok <==> parse_ok(*registry, raw@, profile_key@),
            r is Ok ==> entry_matches(r->Ok_0, *registry, raw@, profile_key@),
            r is Err ==> r->Err_0 == spec_parse_err(*registry, raw@, profile_key@),
    {
        let profile_data = match registry.lookup(profile_key) {
            Some(p) => p,
            None => {
                return Err(SaveError::UnknownProfile);
            },
        };
        let n = raw.len();
        let char_entry_offset = match 32usize.checked_mul(profile_data.file_index) {
            Some(m) => match m.checked_add(64) {
                Some(o) => o,
                None => {
                    return Err(SaveError::OutOfBounds);
                },
            },
            None => {
                return Err(SaveError::OutOfBounds);
            },
        };
        if char_entry_offset > n || n - char_entry_offset < 24 {
            return Err(SaveError::OutOfBounds);
        }
        let char_entry_size = read_u32_le(raw.as_slice(), char_entry_offset + 8) as usize;
        let char_entry_data_offset = read_u32_le(raw.as_slice(), char_entry_offset + 16) as usize;
        let char_entry_name_offset = read_u32_le(raw.as_slice(), char_entry_offset + 20) as usize;
        if char_entry_size < 16 || char_entry_data_offset > n || n - char_entry_data_offset
            < char_entry_size {
            return Err(SaveError::OutOfBounds);
        }
        let name = read_null_terminated_utf16le_string(raw.as_slice(), char_entry_name_offset);
        let iv = slice_to_vec(
            vstd::slice::slice_subrange(
                raw.as_slice(),
                char_entry_data_offset,
                char_entry_data_offset + 16,
            ),
        );
        let entry_data = slice_to_vec(
            vstd::slice::slice_subrange(
                raw.as_slice(),
                char_entry_data_offset + 16,
                char_entry_data_offset + char_entry_size,
            ),
        );
        let checksum = slice_to_vec(
            vstd::slice::slice_subrange(
                raw.as_slice(),
                char_entry_offset,
                char_entry_offset + 16,
            ),
        );
        let decrypted_data = if profile_data.is_encrypted {
            match decrypt_file(entry_data.as_slice(), iv.as_slice()) {
                Ok(d) => d,
                Err(e) => {
                    return Err(e);
                },
            }
        } else {
            Vec::new()
        };
        Ok(
            BND4Entry {
                profile: String::from_str(profile_key),
                profile_data,
                raw,
                size: n,
                char_entry_offset,
                char_entry_size,
                name,
                iv,
                entry_data,
                decrypted_data,
                checksum,
                char_entry_data_offset,
                char_entry_name_offset,
            },
        )
    }
}

/// The fixed prefix before the occupancy and slot tables: a 16-byte
/// checksum with 4 bytes of padding for the encrypted layout, nothing for
/// the plaintext one.
pub open spec fn spec_prefix(p: ProfileData) -> int {
    if p.is_encrypted {
        20
    } else {
        0
    }
}

/// The buffer the slot tables are read from: the decrypted body for an
/// encrypted profile, the raw body otherwise.
pub open spec fn spec_body(e: BND4Entry) -> Seq<u8> {
    if e.profile_data.is_encrypted {
        e.decrypted_data@
    } else {
        e.entry_data@
    }
}

/// Position of slot `i`'s occupancy byte within the body.
pub open spec fn spec_occ_index(p: ProfileData, i: int) -> int {
    p.slots_occupancy_offset + spec_prefix(p) + i
}

/// Slot `i` holds a saved character: its occupancy byte is non-zero.
pub open spec fn spec_slot_occupied(body: Seq<u8>, p: ProfileData, i: int) -> bool {
    body[spec_occ_index(p, i)] != 0
}

/// Position of slot `i`'s name field within the body.
pub open spec fn spec_slot_base(p: ProfileData, i: int) -> int {
    p.slot_data_offset + spec_prefix(p) + i * p.slot_length
}

/// Width of the name field: two bytes per code unit plus the two-byte
/// terminator.
pub open spec fn spec_name_section(p: ProfileData) -> int {
    2 * p.character_name_max_length + 2
}

/// The record read from slot `i`: the 1-based slot number, the decoded
/// name, then the level and the elapsed seconds as 32-bit little-endian
/// fields behind the name section.
pub open spec fn spec_slot_record(body: Seq<u8>, p: ProfileData, i: int) -> CharView {
    let base = spec_slot_base(p, i);
    let level_off = base + spec_name_section(p);
    CharView {
        slot: (i + 1) as u32,
        name: utf16_lossy_of(spec_utf16_units(body, base)),
        level: spec_u32_le(body, level_off),
        time: spec_u32_le(body, level_off + 4),
        time_format: spec_format_time(spec_u32_le(body, level_off + 4)),
    }
}

/// The records of the occupied slots among the first `n`, in ascending
/// slot order.
pub open spec fn spec_records_upto(body: Seq<u8>, p: ProfileData, n: int) -> Seq<CharView>
    decreases n,
{
    if n <= 0 {
        Seq::empty()
    } else if spec_slot_occupied(body, p, n - 1) {
        spec_records_upto(body, p, n - 1).push(spec_slot_record(body, p, n - 1))
    } else {
        spec_records_upto(body, p, n - 1)
    }
}

/// The records of all occupied slots of the profile.
pub open spec fn spec_records(body: Seq<u8>, p: ProfileData) -> Seq<CharView> {
    spec_records_upto(body, p, p.character_slots_count as int)
}

/// Every byte the slot walk reads lies inside the body: the occupancy
/// table, and the name, level and time fields of the last slot.
pub open spec fn extract_in_bounds(p: ProfileData, blen: int) -> bool {
    &&& p.slots_occupancy_offset + spec_prefix(p) + p.character_slots_count <= blen
    &&& (p.character_slots_count > 0 ==> spec_slot_base(p, p.character_slots_count - 1)
        + spec_name_section(p) + 8 <= blen)
}

/// Slot numbers in the extracted records are the 1-based indices of
/// occupied slots: each is at least 1 and at most `n`, and they ascend
/// strictly, so the records keep slot order.
pub proof fn lemma_records_slots_ascending(body: Seq<u8>, p: ProfileData, n: int)
    requires
        0 <= n <= 0xFFFF_FFFF,
    ensures
        forall|j: int|
            0 <= j < spec_records_upto(body, p, n).len() ==> 1 <= (
            #[trigger] spec_records_upto(body, p, n)[j]).slot as int <= n,
        forall|j: int, k: int|
            0 <= j < k < spec_records_upto(body, p, n).len() ==> (spec_records_upto(
                body,
                p,
                n,
            )[j].slot as int) < (spec_records_upto(body, p, n)[k].slot as int),
    decreases n,
{
    if n > 0 {
        lemma_records_slots_ascending(body, p, n - 1);
        let prev = spec_records_upto(body, p, n - 1);
        let cur = spec_records_upto(body, p, n);
        if spec_slot_occupied(body, p, n - 1) {
            assert(cur == prev.push(spec_slot_record(body, p, n - 1)));
            assert(spec_slot_record(body, p, n - 1).slot as int == n);
            assert forall|j: int| 0 <= j < cur.len() implies 1 <= (#[trigger] cur[j]).slot as int
                <= n by {
                if j < prev.len() {
                    assert(cur[j] == prev[j]);
                }
            }
            assert forall|j: int, k: int| 0 <= j < k < cur.len() implies (cur[j].slot as int)
                < (cur[k].slot as int) by {
                if k < prev.len() {
                    assert(cur[j] == prev[j] && cur[k] == prev[k]);
                } else {
                    assert(cur[j] == prev[j]);
                    assert(cur[k].slot as int == n);
                }
            }
        }
    }
}

/// A slot's occupancy byte alone decides its presence in the output: a
/// zero byte omits the slot, any of the 255 non-zero values makes exactly
/// its record, carrying slot number `i + 1`, appear.
pub proof fn lemma_occupancy_governs_output(body: Seq<u8>, p: ProfileData, i: int)
    requires
        0 <= i < p.character_slots_count,
        p.character_slots_count <= 0xFFFF_FFFF,
    ensures
        spec_slot_occupied(body, p, i) <==> exists|j: int|
            0 <= j < spec_records(body, p).len() && (#[trigger] spec_records(
                body,
                p,
            )[j]).slot as int == i + 1,
{
    let n = p.character_slots_count as int;
    lemma_occupancy_upto(body, p, n, i);
    let rs = spec_records_upto(body, p, n);
    assert(spec_records(body, p) == rs);
    if spec_slot_occupied(body, p, i) {
        let j = choose|j: int| 0 <= j < rs.len() && (#[trigger] rs[j]).slot as int == i + 1;
        assert(0 <= j < spec_records(body, p).len() && spec_records(body, p)[j].slot as int == i
            + 1);
    } else {
        if exists|j: int|
            0 <= j < spec_records(body, p).len() && (#[trigger] spec_records(
                body,
                p,
            )[j]).slot as int == i + 1 {
            let j = choose|j: int|
                0 <= j < spec_records(body, p).len() && (#[trigger] spec_records(
                    body,
                    p,
                )[j]).slot as int == i + 1;
            assert(0 <= j < rs.len() && rs[j].slot as int == i + 1);
            assert(false);
        }
    }
}

/// Presence of slot `i + 1` among the records of the first `n` slots is
/// exactly its occupancy byte being non-zero.
proof fn lemma_occupancy_upto(body: Seq<u8>, p: ProfileData, n: int, i: int)
    requires
        0 <= i,
        0 <= n <= 0xFFFF_FFFF,
    ensures
        i < n ==> (spec_slot_occupied(body, p, i) <==> exists|j: int|
            0 <= j < spec_records_upto(body, p, n).len() && (#[trigger] spec_records_upto(
                body,
                p,
                n,
            )[j]).slot as int == i + 1),
        i >= n ==> !(exists|j: int|
            0 <= j < spec_records_upto(body, p, n).len() && (#[trigger] spec_records_upto(
                body,
                p,
                n,
            )[j]).slot as int == i + 1),
    decreases n,
{
    if n > 0 {
        lemma_occupancy_upto(body, p, n - 1, i);
        let prev = spec_records_upto(body, p, n - 1);
        let cur = spec_records_upto(body, p, n);
        if spec_slot_occupied(body, p, n - 1) {
            assert(cur == prev.push(spec_slot_record(body, p, n - 1)));
            assert(cur[cur.len() - 1].slot as int == n);
            assert(forall|j: int| 0 <= j < prev.len() ==> cur[j] == prev[j]);
            if i < n && spec_slot_occupied(body, p, i) {
                if i == n - 1 {
                    assert(cur[cur.len() - 1].slot as int == i + 1);
                } else {
                    let j = choose|j: int|
                        0 <= j < prev.len() && (#[trigger] prev[j]).slot as int == i + 1;
                    assert(cur[j].slot as int == i + 1);
                }
            }
            if i < n && !spec_slot_occupied(body, p, i) {
                if exists|j: int|
                    0 <= j < cur.len() && (#[trigger] cur[j]).slot as int == i + 1 {
                    let j = choose|j: int|
                        0 <= j < cur.len() && (#[trigger] cur[j]).slot as int == i + 1;
                    assert(j < prev.len());
                    assert(prev[j].slot as int == i + 1);
                    assert(false);
                }
            }
            if i >= n {
                if exists|j: int|
                    0 <= j < cur.len() && (#[trigger] cur[j]).slot as int == i + 1 {
                    let j = choose|j: int|
                        0 <= j < cur.len() && (#[trigger] cur[j]).slot as int == i + 1;
                    assert(j < prev.len());
                    assert(prev[j].slot as int == i + 1);
                    assert(false);
                }
            }
        } else {
            assert(cur == prev);
            if i < n && spec_slot_occupied(body, p, i) {
                assert(i != n - 1);
                let j = choose|j: int|
                    0 <= j < prev.len() && (#[trigger] prev[j]).slot as int == i + 1;
                assert(cur[j].slot as int == i + 1);
            }
        }
    }
}

impl BND4Entry {
    /// Walks the profile's fixed number of slots over the decoded body and
    /// returns one record per occupied slot, in ascending slot order.
    /// Fails with the bounds error when the profile's slot layout does not
    /// fit inside the body.
    pub fn get_characters(&self) -> (r: Result<Vec<Character>, SaveError>)
        ensures
            r is Ok <==> extract_in_bounds(self.profile_data, spec_body(*self).len() as int),
            r is Ok ==> r->Ok_0.deep_view() == spec_records(spec_body(*self), self.profile_data),
            r is Err ==> r->Err_0 == SaveError::OutOfBounds,
    {
        let p = self.profile_data;
        let body: &Vec<u8> = if p.is_encrypted {
            &self.decrypted_data
        } else {
            &self.entry_data
        };
        let prefix: usize = if p.is_encrypted {
            20
        } else {
            0
        };
        let blen = body.len();
        let occ_ok = match p.slots_occupancy_offset.checked_add(prefix) {
            Some(a) => match a.checked_add(p.character_slots_count) {
                Some(b) => b <= blen,
                None => false,
            },
            None => false,
        };
        if !occ_ok {
            return Err(SaveError::OutOfBounds);
        }
        if p.character_slots_count > 0 {
            let last = p.character_slots_count - 1;
            let slots_ok = match last.checked_mul(p.slot_length) {
                Some(m) => match p.slot_data_offset.checked_add(prefix) {
                    Some(a) => match a.checked_add(m) {
                        Some(base) => match p.character_name_max_length.checked_mul(2) {
                            Some(ns) => match base.checked_add(ns) {
                                Some(c) => match c.checked_add(10) {
                                    Some(d) => d <= blen,
                                    None => false,
                                },
                                None => false,
                            },
                            None => false,
                        },
                        None => false,
                    },
                    None => false,
                },
                None => false,
            };
            if !slots_ok {
                return Err(SaveError::OutOfBounds);
            }
        }
        assert(extract_in_bounds(p, blen as int));
        let mut out: Vec<Character> = Vec::new();
        let mut i: usize = 0;
        while i < p.character_slots_count
            invariant
                p == self.profile_data,
                body@ == spec_body(*self),
                prefix as int == spec_prefix(p),
                extract_in_bounds(p, blen as int),
                blen == body@.len(),
                i <= p.character_slots_count,
                out.deep_view() =~= spec_records_upto(body@, p, i as int),
            decreases p.character_slots_count - i,
        {
            proof {
                lemma_mul_inequality(
                    i as int,
                    p.character_slots_count - 1,
                    p.slot_length as int,
                );
            }
            let occ = body[p.slots_occupancy_offset + prefix + i];
            if occ != 0 {
                let base = p.slot_data_offset + prefix + i * p.slot_length;
                let character_name = read_null_terminated_utf16le_string(body.as_slice(), base);
                let name_section = 2 * p.character_name_max_length + 2;
                let character_level = read_u32_le(body.as_slice(), base + name_section);
                let character_time = read_u32_le(body.as_slice(), base + name_section + 4);
                let character_time_format = format_time(character_time);
                let c = Character {
                    character_slot: #[verifier::truncate] ((i + 1) as u32),
                    character_name,
                    character_level,
                    character_time,
                    character_time_format,
                };
                proof {
                    assert(c.deep_view() == spec_slot_record(body@, p, i as int));
                }
                out.push(c);
            }
            i += 1;
            proof {
                assert(out.deep_view() =~= spec_records_upto(body@, p, i as int));
            }
        }
        proof {
            assert(out.deep_view() =~= spec_records(body@, p));
        }
        Ok(out)
    }
}

} // verus!
