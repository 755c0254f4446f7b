//! The bit flags that announce the optional fields of a command.

use vstd::prelude::*;

verus! {

/// The flags byte of a sound command: one bit for each optional field.
#[derive(Clone, Copy, Debug, PartialEq, Eq, Structural)]
pub struct SoundFlags {
    bits: u8,
}

/// The bit of the volume field.
pub const SOUND_VOLUME: u8 = 1;

/// The bit of the attenuation field.
pub const SOUND_ATTENUATION: u8 = 2;

/// The bit that marks a looping sound; no field comes with it.
pub const SOUND_LOOPING: u8 = 4;

/// Every bit that a flags byte of a sound command may hold.
pub const SOUND_ALL: u8 = 7;

impl SoundFlags {
    /// The flags as a byte.
    pub closed spec fn spec_bits(self) -> u8 {
        self.bits
    }

    /// True when every bit of `other` is set in `self`.
    pub open spec fn spec_contains(self, other: SoundFlags) -> bool {
        self.spec_bits() & other.spec_bits() == other.spec_bits()
    }

    /// The volume field is present.
    pub fn volume() -> (r: SoundFlags)
        ensures
            r.spec_bits() == SOUND_VOLUME,
    {
        SoundFlags { bits: SOUND_VOLUME }
    }

    /// The attenuation field is present.
    pub fn attenuation() -> (r: SoundFlags)
        ensures
            r.spec_bits() == SOUND_ATTENUATION,
    {
        SoundFlags { bits: SOUND_ATTENUATION }
    }

    /// The sound loops.
    pub fn looping() -> (r: SoundFlags)
        ensures
            r.spec_bits() == SOUND_LOOPING,
    {
        SoundFlags { bits: SOUND_LOOPING }
    }

    /// No flag at all.
    pub fn empty() -> (r: SoundFlags)
        ensures
            r.spec_bits() == 0,
    {
        SoundFlags { bits: 0 }
    }

    /// The flags that a byte holds; none when it holds a bit that is no flag.
    pub fn from_bits(bits: u8) -> (r: Option<SoundFlags>)
        ensures
            bits <= SOUND_ALL ==> (r matches Some(f) && f.spec_bits() == bits),
            bits > SOUND_ALL ==> r is None,
    {
        if bits <= SOUND_ALL {
            Some(SoundFlags { bits })
        } else {
            None
        }
    }

    /// The flags as a byte.
    #[verifier::when_used_as_spec(spec_bits)]
    pub fn bits(self) -> (r: u8)
        ensures
            r == self.spec_bits(),
    {
        self.bits
    }

    /// True when every bit of `other` is set in `self`.
    #[verifier::when_used_as_spec(spec_contains)]
    pub fn contains(self, other: SoundFlags) -> (r: bool)
        ensures
            r == self.spec_contains(other),
    {
        self.bits & other.bits == other.bits
    }

    /// Sets every bit of `other`.
    pub fn insert(&mut self, other: SoundFlags)
        ensures
            final(self).spec_bits() == old(self).spec_bits() | other.spec_bits(),
    {
        self.bits = self.bits | other.bits;
    }
}

/// The flags byte that announces exactly the given fields.
pub open spec fn sound_flags_byte(volume: bool, attenuation: bool) -> u8 {
    if volume && attenuation {
        3
    } else if attenuation {
        2
    } else if volume {
        1
    } else {
        0
    }
}

/// True when a flags byte announces the volume field.
pub open spec fn announces_volume(bits: u8) -> bool {
    bits & SOUND_VOLUME == SOUND_VOLUME
}

/// True when a flags byte announces the attenuation field.
pub open spec fn announces_attenuation(bits: u8) -> bool {
    bits & SOUND_ATTENUATION == SOUND_ATTENUATION
}

/// A flags byte announces exactly the fields it was made for.
pub proof fn lemma_sound_flags(volume: bool, attenuation: bool)
    ensures
        sound_flags_byte(volume, attenuation) <= SOUND_ALL,
        announces_volume(sound_flags_byte(volume, attenuation)) == volume,
        announces_attenuation(sound_flags_byte(volume, attenuation)) == attenuation,
        sound_flags_byte(false, false) | SOUND_VOLUME == sound_flags_byte(true, false),
        sound_flags_byte(false, false) | SOUND_ATTENUATION == sound_flags_byte(false, true),
        sound_flags_byte(true, false) | SOUND_ATTENUATION == sound_flags_byte(true, true),
{
    assert(0u8 & 1u8 == 0u8 && 1u8 & 1u8 == 1u8 && 2u8 & 1u8 == 0u8 && 3u8 & 1u8 == 1u8)
        by (bit_vector);
    assert(0u8 & 2u8 == 0u8 && 1u8 & 2u8 == 0u8 && 2u8 & 2u8 == 2u8 && 3u8 & 2u8 == 2u8)
        by (bit_vector);
    assert(0u8 | 1u8 == 1u8 && 0u8 | 2u8 == 2u8 && 1u8 | 2u8 == 3u8) by (bit_vector);
}

/// More flag bits follow in a second byte.
pub const UPDATE_MORE_BITS: u16 = 0x0001;

/// The first coordinate of the origin is there.
pub const UPDATE_ORIGIN_X: u16 = 0x0002;

/// The second coordinate of the origin is there.
pub const UPDATE_ORIGIN_Y: u16 = 0x0004;

/// The third coordinate of the origin is there.
pub const UPDATE_ORIGIN_Z: u16 = 0x0008;

/// The yaw is there.
pub const UPDATE_YAW: u16 = 0x0010;

/// The entity is not to be moved smoothly.
pub const UPDATE_NO_LERP: u16 = 0x0020;

/// The frame is there.
pub const UPDATE_FRAME: u16 = 0x0040;

/// The mark of an entity update.
pub const UPDATE_SIGNAL: u16 = 0x0080;

/// The pitch is there.
pub const UPDATE_PITCH: u16 = 0x0100;

/// The roll is there.
pub const UPDATE_ROLL: u16 = 0x0200;

/// The model is there.
pub const UPDATE_MODEL: u16 = 0x0400;

/// The color map is there.
pub const UPDATE_COLORMAP: u16 = 0x0800;

/// The skin is there.
pub const UPDATE_SKIN: u16 = 0x1000;

/// The effects are there.
pub const UPDATE_EFFECTS: u16 = 0x2000;

/// The number of the entity takes two bytes.
pub const UPDATE_LONG_ENTITY: u16 = 0x4000;

/// Every bit that the flags of an entity update may hold.
pub const UPDATE_ALL: u16 = 0x7FFF;

/// The height of the view is there.
pub const EXTENDED_VIEW_HEIGHT: u16 = 0x0001;

/// The ideal pitch is there.
pub const EXTENDED_IDEAL_PITCH: u16 = 0x0002;

/// The pitch of the punch is there.
pub const EXTENDED_PUNCH_PITCH: u16 = 0x0004;

/// The yaw of the punch is there.
pub const EXTENDED_PUNCH_YAW: u16 = 0x0008;

/// The roll of the punch is there.
pub const EXTENDED_PUNCH_ROLL: u16 = 0x0010;

/// The first coordinate of the velocity is there.
pub const EXTENDED_VELOCITY_X: u16 = 0x0020;

/// The second coordinate of the velocity is there.
pub const EXTENDED_VELOCITY_Y: u16 = 0x0040;

/// The third coordinate of the velocity is there.
pub const EXTENDED_VELOCITY_Z: u16 = 0x0080;

/// The items are there.
pub const EXTENDED_ITEMS: u16 = 0x0200;

/// The player stands on the ground.
pub const EXTENDED_ON_GROUND: u16 = 0x0400;

/// The player is in water.
pub const EXTENDED_IN_WATER: u16 = 0x0800;

/// The frame of the weapon is there.
pub const EXTENDED_WEAPON_FRAME: u16 = 0x1000;

/// The armor is there.
pub const EXTENDED_ARMOR: u16 = 0x2000;

/// The weapon is there.
pub const EXTENDED_WEAPON: u16 = 0x4000;

/// Every bit that the flags of the client's own state may hold; the bit
/// 0x0100 is not among them.
pub const EXTENDED_ALL: u16 = 0x7EFF;

/// The flags of an entity update: one bit for each optional field.
#[derive(Clone, Copy, Debug, PartialEq, Eq, Structural)]
pub struct UpdateFlags {
    bits: u16,
}

impl UpdateFlags {
    /// The flags as a number.
    pub closed spec fn spec_bits(self) -> u16 {
        self.bits
    }

    /// True when every bit of `other` is set in `self`.
    pub open spec fn spec_contains(self, other: UpdateFlags) -> bool {
        self.spec_bits() & other.spec_bits() == other.spec_bits()
    }

    /// No flag at all.
    pub fn empty() -> (r: UpdateFlags)
        ensures
            r.spec_bits() == 0,
    {
        UpdateFlags { bits: 0 }
    }

    /// The flags that a number holds; none when it holds a bit that is no
    /// flag.
    pub fn from_bits(bits: u16) -> (r: Option<UpdateFlags>)
        ensures
            bits & !UPDATE_ALL == 0 ==> (r matches Some(f) && f.spec_bits() == bits),
            bits & !UPDATE_ALL != 0 ==> r is None,
    {
        if bits & !UPDATE_ALL == 0 {
            Some(UpdateFlags { bits })
        } else {
            None
        }
    }

    /// The flags as a number.
    #[verifier::when_used_as_spec(spec_bits)]
    pub fn bits(self) -> (r: u16)
        ensures
            r == self.spec_bits(),
    {
        self.bits
    }

    /// True when every bit of `other` is set in `self`.
    #[verifier::when_used_as_spec(spec_contains)]
    pub fn contains(self, other: UpdateFlags) -> (r: bool)
        ensures
            r == self.spec_contains(other),
    {
        self.bits & other.bits == other.bits
    }

    /// Sets every bit of `other`.
    pub fn insert(&mut self, other: UpdateFlags)
        ensures
            final(self).spec_bits() == old(self).spec_bits() | other.spec_bits(),
    {
        self.bits = self.bits | other.bits;
    }
}

/// The flags of the client's own state: one bit for each optional field.
#[derive(Clone, Copy, Debug, PartialEq, Eq, Structural)]
pub struct ExtendedUpdateFlags {
    bits: u16,
}

impl ExtendedUpdateFlags {
    /// The flags as a number.
    pub closed spec fn spec_bits(self) -> u16 {
        self.bits
    }

    /// True when every bit of `other` is set in `self`.
    pub open spec fn spec_contains(self, other: ExtendedUpdateFlags) -> bool {
        self.spec_bits() & other.spec_bits() == other.spec_bits()
    }

    /// No flag at all.
    pub fn empty() -> (r: ExtendedUpdateFlags)
        ensures
            r.spec_bits() == 0,
    {
        ExtendedUpdateFlags { bits: 0 }
    }

    /// The flags that a number holds; none when it holds a bit that is no
    /// flag.
    pub fn from_bits(bits: u16) -> (r: Option<ExtendedUpdateFlags>)
        ensures
            bits & !EXTENDED_ALL == 0 ==> (r matches Some(f) && f.spec_bits() == bits),
            bits & !EXTENDED_ALL != 0 ==> r is None,
    {
        if bits & !EXTENDED_ALL == 0 {
            Some(ExtendedUpdateFlags { bits })
        } else {
            None
        }
    }

    /// The flags as a number.
    #[verifier::when_used_as_spec(spec_bits)]
    pub fn bits(self) -> (r: u16)
        ensures
            r == self.spec_bits(),
    {
        self.bits
    }

    /// True when every bit of `other` is set in `self`.
    #[verifier::when_used_as_spec(spec_contains)]
    pub fn contains(self, other: ExtendedUpdateFlags) -> (r: bool)
        ensures
            r == self.spec_contains(other),
    {
        self.bits & other.bits == other.bits
    }

    /// Sets every bit of `other`.
    pub fn insert(&mut self, other: ExtendedUpdateFlags)
        ensures
            final(self).spec_bits() == old(self).spec_bits() | other.spec_bits(),
    {
        self.bits = self.bits | other.bits;
    }
}

/// The bits that the flags may hold are the bits of their fields, each a
/// bit of its own.
pub proof fn lemma_update_flag_bits()
    ensures
        UPDATE_ALL == UPDATE_MORE_BITS | UPDATE_ORIGIN_X | UPDATE_ORIGIN_Y | UPDATE_ORIGIN_Z
            | UPDATE_YAW | UPDATE_NO_LERP | UPDATE_FRAME | UPDATE_SIGNAL | UPDATE_PITCH
            | UPDATE_ROLL | UPDATE_MODEL | UPDATE_COLORMAP | UPDATE_SKIN | UPDATE_EFFECTS
            | UPDATE_LONG_ENTITY,
        EXTENDED_ALL == EXTENDED_VIEW_HEIGHT | EXTENDED_IDEAL_PITCH | EXTENDED_PUNCH_PITCH
            | EXTENDED_PUNCH_YAW | EXTENDED_PUNCH_ROLL | EXTENDED_VELOCITY_X | EXTENDED_VELOCITY_Y
            | EXTENDED_VELOCITY_Z | EXTENDED_ITEMS | EXTENDED_ON_GROUND | EXTENDED_IN_WATER
            | EXTENDED_WEAPON_FRAME | EXTENDED_ARMOR | EXTENDED_WEAPON,
{
    assert(0x7FFFu16 == 0x0001u16 | 0x0002u16 | 0x0004u16 | 0x0008u16 | 0x0010u16 | 0x0020u16
        | 0x0040u16 | 0x0080u16 | 0x0100u16 | 0x0200u16 | 0x0400u16 | 0x0800u16 | 0x1000u16
        | 0x2000u16 | 0x4000u16) by (bit_vector);
    assert(0x7EFFu16 == 0x0001u16 | 0x0002u16 | 0x0004u16 | 0x0008u16 | 0x0010u16 | 0x0020u16
        | 0x0040u16 | 0x0080u16 | 0x0200u16 | 0x0400u16 | 0x0800u16 | 0x1000u16 | 0x2000u16
        | 0x4000u16) by (bit_vector);
}

} // verus!
