//! Per-title layout constants and the registry that maps a profile key to
//! them.

use vstd::prelude::*;
use vstd::string::StringExecFns;

verus! {

/// The layout constants of one title: whether the record body is encrypted,
/// the name field's width in UTF-16 code units (terminator excluded), the
/// fixed slot count, the index of the record's entry in the container's
/// entry table, and the byte offsets of the slot table and the occupancy
/// table within the record body.
#[derive(Clone, Copy, Debug, PartialEq, Eq, Structural)]
pub struct ProfileData {
    pub is_encrypted: bool,
    pub character_name_max_length: usize,
    pub character_slots_count: usize,
    pub file_index: usize,
    pub slot_data_offset: usize,
    pub slot_length: usize,
    pub slots_occupancy_offset: usize,
}

/// The layout constants of the "er" profile.
pub open spec fn spec_er_profile() -> ProfileData {
    ProfileData {
        is_encrypted: false,
        character_name_max_length: 16,
        character_slots_count: 10,
        file_index: 10,
        slot_data_offset: 6494,
        slot_length: 588,
        slots_occupancy_offset: 6484,
    }
}

/// The layout constants of the "ds3" profile.
pub open spec fn spec_ds3_profile() -> ProfileData {
    ProfileData {
        is_encrypted: true,
        character_name_max_length: 16,
        character_slots_count: 10,
        file_index: 10,
        slot_data_offset: 4254,
        slot_length: 554,
        slots_occupancy_offset: 4244,
    }
}

/// An immutable mapping from a profile key to its layout constants, built
/// once and handed to the parser.
pub struct ProfileRegistry {
    keys: Vec<String>,
    vals: Vec<ProfileData>,
}

impl ProfileRegistry {
    /// One value per key, and no key twice.
    pub closed spec fn wf(self) -> bool {
        &&& self.keys@.len() == self.vals@.len()
        &&& forall|i: int, j: int|
            0 <= i < j < self.keys@.len() ==> self.keys@[i]@ != self.keys@[j]@
    }

    /// The registry holds an entry under this key.
    pub closed spec fn spec_contains(self, key: Seq<char>) -> bool {
        exists|i: int| 0 <= i < self.keys@.len() && self.keys@[i]@ == key
    }

    /// The layout constants registered under this key.
    pub closed spec fn spec_get(self, key: Seq<char>) -> ProfileData {
        self.vals@[choose|i: int| 0 <= i < self.keys@.len() && self.keys@[i]@ == key]
    }

    /// An empty registry.
    pub fn new() -> (r: ProfileRegistry)
        ensures
            r.wf(),
            forall|k: Seq<char>| !r.spec_contains(k),
    {
        ProfileRegistry { keys: Vec::new(), vals: Vec::new() }
    }

    /// Adds an entry under a key not yet present.
    pub fn register(&mut self, key: String, profile: ProfileData)
        requires
            old(self).wf(),
            !old(self).spec_contains(key@),
        ensures
            final(self).wf(),
            final(self).spec_contains(key@),
            final(self).spec_get(key@) == profile,
            forall|k: Seq<char>|
                k != key@ ==> final(self).spec_contains(k) == old(self).spec_contains(k),
            forall|k: Seq<char>|
                k != key@ && old(self).spec_contains(k) ==> final(self).spec_get(k) == old(
                    self,
                ).spec_get(k),
    {
        let ghost gkey = key@;
        self.keys.push(key);
        self.vals.push(profile);
        proof {
            let n = self.keys@.len() - 1;
            assert(self.keys@[n]@ == gkey);
            assert forall|k: Seq<char>|
                k != gkey implies final(self).spec_contains(k) == old(self).spec_contains(k) by {
                if old(self).spec_contains(k) {
                    let i = choose|i: int|
                        0 <= i < old(self).keys@.len() && old(self).keys@[i]@ == k;
                    assert(self.keys@[i]@ == k);
                }
                if final(self).spec_contains(k) {
                    let i = choose|i: int| 0 <= i < self.keys@.len() && self.keys@[i]@ == k;
                    assert(i < n);
                    assert(old(self).keys@[i]@ == k);
                }
            }
            assert forall|k: Seq<char>|
                k != gkey && old(self).spec_contains(k) implies final(self).spec_get(k) == old(
                self,
            ).spec_get(k) by {
                let i = choose|i: int| 0 <= i < old(self).keys@.len() && old(self).keys@[i]@ == k;
                assert(self.keys@[i]@ == k);
            }
        }
    }

    /// Looks the key up: the registered constants, or nothing when the key
    /// is absent.
    pub fn lookup(&self, key: &str) -> (r: Option<ProfileData>)
        requires
            self.wf(),
        ensures
            r is Some <==> self.spec_contains(key@),
            r is Some ==> r->0 == self.spec_get(key@),
    {
        let needle = String::from_str(key);
        let n = self.keys.len();
        let mut i: usize = 0;
        while i < n
            invariant
                self.wf(),
                needle@ == key@,
                n == self.keys@.len(),
                i <= n,
                forall|j: int| 0 <= j < i ==> self.keys@[j]@ != key@,
            decreases n - i,
        {
            if self.keys[i] == needle {
                return Some(self.vals[i]);
            }
            i += 1;
        }
        None
    }
}

/// The registry holding the two built-in profiles under the keys "er" and
/// "ds3".
pub fn default_registry() -> (r: ProfileRegistry)
    ensures
        r.wf(),
        r.spec_contains("er"@),
        r.spec_get("er"@) == spec_er_profile(),
        r.spec_contains("ds3"@),
        r.spec_get("ds3"@) == spec_ds3_profile(),
        forall|k: Seq<char>| r.spec_contains(k) ==> k == "er"@ || k == "ds3"@,
{
    proof {
        reveal_strlit("er");
        reveal_strlit("ds3");
        assert("er"@.len() == 2);
        assert("ds3"@.len() == 3);
    }
    let mut r = ProfileRegistry::new();
    let er = ProfileData {
        is_encrypted: false,
        character_name_max_length: 16,
        character_slots_count: 10,
        file_index: 10,
        slot_data_offset: 6494,
        slot_length: 588,
        slots_occupancy_offset: 6484,
    };
    let ds3 = ProfileData {
        is_encrypted: true,
        character_name_max_length: 16,
        character_slots_count: 10,
        file_index: 10,
        slot_data_offset: 4254,
        slot_length: 554,
        slots_occupancy_offset: 4244,
    };
    r.register(String::from_str("er"), er);
    r.register(String::from_str("ds3"), ds3);
    r
}

} // verus!
