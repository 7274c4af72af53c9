use vstd::prelude::*;

pub mod bytes;
pub mod codec;
pub mod container;
pub mod decryptor;
pub mod profile;
pub mod time;

verus! {

/// The three unrecoverable fault kinds a parse of one container can hit:
/// an unregistered profile key, a computed offset or length outside the
/// buffer, and a ciphertext that the block cipher refuses.
#[derive(Clone, Copy, Debug, PartialEq, Eq, Structural)]
pub enum SaveError {
    UnknownProfile,
    OutOfBounds,
    Decrypt,
}

} // verus!
