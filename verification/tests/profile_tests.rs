use savereader::profile::{default_registry, ProfileData, ProfileRegistry};

#[test]
fn default_registry_has_er() {
    let reg = default_registry();
    let p = reg.lookup("er").expect("er is registered");
    assert_eq!(p.is_encrypted, false);
    assert_eq!(p.character_name_max_length, 16);
    assert_eq!(p.character_slots_count, 10);
    assert_eq!(p.file_index, 10);
    assert_eq!(p.slot_data_offset, 6494);
    assert_eq!(p.slot_length, 588);
    assert_eq!(p.slots_occupancy_offset, 6484);
}

#[test]
fn default_registry_has_ds3() {
    let reg = default_registry();
    let p = reg.lookup("ds3").expect("ds3 is registered");
    assert_eq!(p.is_encrypted, true);
    assert_eq!(p.character_name_max_length, 16);
    assert_eq!(p.character_slots_count, 10);
    assert_eq!(p.file_index, 10);
    assert_eq!(p.slot_data_offset, 4254);
    assert_eq!(p.slot_length, 554);
    assert_eq!(p.slots_occupancy_offset, 4244);
}

#[test]
fn unknown_key_is_absent() {
    let reg = default_registry();
    assert!(reg.lookup("sekiro").is_none());
    assert!(reg.lookup("").is_none());
}

#[test]
fn synthetic_profile_can_be_registered() {
    let mut reg = ProfileRegistry::new();
    assert!(reg.lookup("tiny").is_none());
    let p = ProfileData {
        is_encrypted: false,
        character_name_max_length: 4,
        character_slots_count: 2,
        file_index: 0,
        slot_data_offset: 40,
        slot_length: 20,
        slots_occupancy_offset: 38,
    };
    reg.register(String::from("tiny"), p);
    let got = reg.lookup("tiny").expect("tiny is registered");
    assert_eq!(got, p);
    assert!(reg.lookup("er").is_none());
}
