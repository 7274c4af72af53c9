use aes::Aes128;
use cipher::block_padding::Pkcs7;
use cipher::{BlockEncryptMut, KeyIvInit};
use savereader::container::BND4Entry;
use savereader::decryptor::embedded_key;
use savereader::profile::{default_registry, ProfileData, ProfileRegistry};
use savereader::SaveError;

fn put_u32(buf: &mut [u8], off: usize, v: u32) {
    buf[off..off + 4].copy_from_slice(&v.to_le_bytes());
}

fn encode_utf16le_terminated(s: &str) -> Vec<u8> {
    let mut out = Vec::new();
    for u in s.encode_utf16() {
        out.extend_from_slice(&u.to_le_bytes());
    }
    out.extend_from_slice(&[0, 0]);
    out
}

// Writes one slot record: the name field, then the level and the elapsed
// seconds behind the 34-byte name section (16 code units + terminator).
fn write_slot(body: &mut [u8], base: usize, name: &str, level: u32, time: u32) {
    let nm = encode_utf16le_terminated(name);
    body[base..base + nm.len()].copy_from_slice(&nm);
    put_u32(body, base + 34, level);
    put_u32(body, base + 38, time);
}

// A container for the "er" layout (file_index 10, entry header at 384):
// plaintext body with slots 1 and 2 occupied.
fn build_er_container() -> Vec<u8> {
    let body_len = 12000usize;
    let data_off = 1024usize;
    let record_size = 16 + body_len;
    let mut raw = vec![0u8; data_off + record_size];
    put_u32(&mut raw, 384 + 8, record_size as u32);
    put_u32(&mut raw, 384 + 16, data_off as u32);
    put_u32(&mut raw, 384 + 20, 600);
    let display = encode_utf16le_terminated("USER_DATA");
    raw[600..600 + display.len()].copy_from_slice(&display);
    raw[data_off..data_off + 16].copy_from_slice(&[0x11u8; 16]);
    let body = &mut raw[data_off + 16..];
    body[6484] = 1;
    body[6485] = 0xff;
    write_slot(body, 6494, "Alice", 5, 3661);
    write_slot(body, 6494 + 588, "Bob", 42, 7325);
    raw
}

// A container for the "ds3" layout: the same two characters in a body that
// is encrypted with the embedded key, behind the 20-byte checksum prefix.
fn build_ds3_container(iv: &[u8; 16]) -> Vec<u8> {
    let mut body = vec![0u8; 9312];
    body[4244 + 20] = 1;
    body[4244 + 20 + 1] = 0xff;
    write_slot(&mut body, 4254 + 20, "Alice", 5, 3661);
    write_slot(&mut body, 4254 + 20 + 554, "Bob", 42, 7325);
    let key = embedded_key();
    let ct = cbc::Encryptor::<Aes128>::new_from_slices(&key, iv)
        .expect("key and iv are 16 bytes")
        .encrypt_padded_vec_mut::<Pkcs7>(&body);
    let data_off = 1024usize;
    let record_size = 16 + ct.len();
    let mut raw = vec![0u8; data_off + record_size];
    put_u32(&mut raw, 384 + 8, record_size as u32);
    put_u32(&mut raw, 384 + 16, data_off as u32);
    put_u32(&mut raw, 384 + 20, 600);
    raw[data_off..data_off + 16].copy_from_slice(iv);
    raw[data_off + 16..].copy_from_slice(&ct);
    raw
}

#[test]
fn er_container_two_occupied_slots() {
    let reg = default_registry();
    let entry = BND4Entry::new(&reg, build_er_container(), "er").expect("well-formed container");
    assert_eq!(entry.name, "USER_DATA");
    let chars = entry.get_characters().expect("slot layout fits the body");
    assert_eq!(chars.len(), 2);
    assert_eq!(chars[0].character_slot, 1);
    assert_eq!(chars[0].character_name, "Alice");
    assert_eq!(chars[0].character_level, 5);
    assert_eq!(chars[0].character_time, 3661);
    assert_eq!(chars[0].character_time_format, "01:01:01");
    assert_eq!(chars[1].character_slot, 2);
    assert_eq!(chars[1].character_name, "Bob");
    assert_eq!(chars[1].character_level, 42);
    assert_eq!(chars[1].character_time, 7325);
    assert_eq!(chars[1].character_time_format, "02:02:05");
}

#[test]
fn ds3_container_matches_er_scenario() {
    let reg = default_registry();
    let iv = [0x5au8; 16];
    let entry =
        BND4Entry::new(&reg, build_ds3_container(&iv), "ds3").expect("well-formed container");
    let ds3 = entry.get_characters().expect("slot layout fits the body");

    let er_entry =
        BND4Entry::new(&reg, build_er_container(), "er").expect("well-formed container");
    let er = er_entry.get_characters().expect("slot layout fits the body");

    assert_eq!(ds3.len(), er.len());
    for (a, b) in ds3.iter().zip(er.iter()) {
        assert_eq!(a.character_slot, b.character_slot);
        assert_eq!(a.character_name, b.character_name);
        assert_eq!(a.character_level, b.character_level);
        assert_eq!(a.character_time, b.character_time);
        assert_eq!(a.character_time_format, b.character_time_format);
    }
}

#[test]
fn every_nonzero_occupancy_byte_yields_a_record() {
    let reg = default_registry();
    for b in [1u8, 2, 7, 0x80, 0xff] {
        let mut raw = build_er_container();
        // Occupy slot 5 with this byte; its record must appear in order.
        raw[1024 + 16 + 6484 + 4] = b;
        let entry = BND4Entry::new(&reg, raw, "er").expect("well-formed container");
        let chars = entry.get_characters().expect("slot layout fits the body");
        assert_eq!(chars.len(), 3);
        assert_eq!(chars[0].character_slot, 1);
        assert_eq!(chars[1].character_slot, 2);
        assert_eq!(chars[2].character_slot, 5);
    }
}

#[test]
fn zero_occupancy_byte_omits_the_slot() {
    let reg = default_registry();
    let mut raw = build_er_container();
    // Clear slot 2's occupancy byte: only slot 1 remains.
    raw[1024 + 16 + 6485] = 0;
    let entry = BND4Entry::new(&reg, raw, "er").expect("well-formed container");
    let chars = entry.get_characters().expect("slot layout fits the body");
    assert_eq!(chars.len(), 1);
    assert_eq!(chars[0].character_slot, 1);
    assert_eq!(chars[0].character_name, "Alice");
}

#[test]
fn unknown_profile_key_is_a_configuration_error() {
    let reg = default_registry();
    let r = BND4Entry::new(&reg, build_er_container(), "sekiro");
    assert!(matches!(r, Err(SaveError::UnknownProfile)));
}

#[test]
fn oversized_record_is_a_bounds_error() {
    let reg = default_registry();
    let mut raw = build_er_container();
    // A record size that runs past the buffer end must be refused.
    let n = raw.len();
    put_u32(&mut raw, 384 + 8, (n - 1024 + 1) as u32);
    let r = BND4Entry::new(&reg, raw, "er");
    assert!(matches!(r, Err(SaveError::OutOfBounds)));
}

#[test]
fn short_container_is_a_bounds_error() {
    let reg = default_registry();
    // Too short to hold the entry header at 384.
    let raw = vec![0u8; 100];
    let r = BND4Entry::new(&reg, raw, "er");
    assert!(matches!(r, Err(SaveError::OutOfBounds)));
}

#[test]
fn record_size_below_iv_is_a_bounds_error() {
    let reg = default_registry();
    let mut raw = build_er_container();
    put_u32(&mut raw, 384 + 8, 8);
    let r = BND4Entry::new(&reg, raw, "er");
    assert!(matches!(r, Err(SaveError::OutOfBounds)));
}

#[test]
fn ragged_ciphertext_is_a_decryption_error() {
    let reg = default_registry();
    let data_off = 1024usize;
    // Body of 24 bytes: not a multiple of the 16-byte block size.
    let record_size = 16 + 24;
    let mut raw = vec![0u8; data_off + record_size];
    put_u32(&mut raw, 384 + 8, record_size as u32);
    put_u32(&mut raw, 384 + 16, data_off as u32);
    put_u32(&mut raw, 384 + 20, 0);
    let r = BND4Entry::new(&reg, raw, "ds3");
    assert!(matches!(r, Err(SaveError::Decrypt)));
}

#[test]
fn body_too_short_for_slots_is_a_bounds_error() {
    let reg = default_registry();
    let data_off = 1024usize;
    // The record parses, but the body cannot hold the slot tables.
    let record_size = 16 + 100;
    let mut raw = vec![0u8; data_off + record_size];
    put_u32(&mut raw, 384 + 8, record_size as u32);
    put_u32(&mut raw, 384 + 16, data_off as u32);
    put_u32(&mut raw, 384 + 20, 0);
    let entry = BND4Entry::new(&reg, raw, "er").expect("record itself is in bounds");
    assert!(matches!(entry.get_characters(), Err(SaveError::OutOfBounds)));
}

#[test]
fn synthetic_profile_extracts() {
    let mut reg = ProfileRegistry::new();
    let p = ProfileData {
        is_encrypted: false,
        character_name_max_length: 4,
        character_slots_count: 2,
        file_index: 0,
        slot_data_offset: 40,
        slot_length: 20,
        slots_occupancy_offset: 38,
    };
    reg.register(String::from("tiny"), p);
    let data_off = 96usize;
    let body_len = 100usize;
    let record_size = 16 + body_len;
    let mut raw = vec![0u8; data_off + record_size];
    put_u32(&mut raw, 64 + 8, record_size as u32);
    put_u32(&mut raw, 64 + 16, data_off as u32);
    put_u32(&mut raw, 64 + 20, 0);
    let body = &mut raw[data_off + 16..];
    body[39] = 3;
    // Slot 2 only: 4-unit name section is 10 bytes.
    let nm = encode_utf16le_terminated("Zoe");
    body[60..60 + nm.len()].copy_from_slice(&nm);
    put_u32(body, 70, 9);
    put_u32(body, 74, 59);
    let entry = BND4Entry::new(&reg, raw, "tiny").expect("well-formed container");
    let chars = entry.get_characters().expect("slot layout fits the body");
    assert_eq!(chars.len(), 1);
    assert_eq!(chars[0].character_slot, 2);
    assert_eq!(chars[0].character_name, "Zoe");
    assert_eq!(chars[0].character_level, 9);
    assert_eq!(chars[0].character_time, 59);
    assert_eq!(chars[0].character_time_format, "00:00:59");
}
