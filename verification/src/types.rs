//! Plain value types shared by every table.

use vstd::prelude::*;

verus! {

/// An opaque 256-bit principal, already authenticated by the host.
///
/// `hi` and `lo` are the upper and lower 128 bits of the number.
#[derive(Clone, Copy, Debug, PartialEq, Eq, Structural, Hash)]
pub struct Identity {
    pub hi: u128,
    pub lo: u128,
}

/// A pose with six degrees of freedom.
///
/// Each component is carried as the IEEE 754 binary32 encoding of the
/// coordinate. The server never computes on poses, it only stores and copies
/// them, so the encoding is all it needs; no normalisation is enforced.
#[derive(Clone, Copy, Debug, PartialEq, Eq, Structural)]
pub struct Transform {
    pub x: u32,
    pub y: u32,
    pub z: u32,
    pub yaw: u32,
    pub pitch: u32,
    pub roll: u32,
}

/// The binary32 encoding of `0.0`.
pub const ZERO_BITS: u32 = 0;

/// The binary32 encoding of `100.0`.
pub const HUNDRED_BITS: u32 = 0x42C8_0000;

impl Transform {
    /// The pose at which every initial character is spawned: the origin
    /// raised by one hundred units, with zero orientation.
    pub open spec fn default_spawn() -> Transform {
        Transform {
            x: ZERO_BITS,
            y: ZERO_BITS,
            z: HUNDRED_BITS,
            yaw: ZERO_BITS,
            pitch: ZERO_BITS,
            roll: ZERO_BITS,
        }
    }
}

/// Descriptive statistics of a character. No operation reads them.
///
/// The four fractional attributes are carried as binary32 encodings, like the
/// components of a [`Transform`].
#[derive(Clone, Copy, Debug, PartialEq, Eq, Structural)]
pub struct CharacterStats {
    pub strength: u32,
    pub intelligence: u64,
    pub dexterity: u32,
    pub health: u32,
    pub stamina: u32,
    pub mana: u32,
}

} // verus!
