//! Classification of a rigid body: what kind it is and which optional
//! behaviours its flag word switches on.

use vstd::prelude::*;

verus! {

/// The one body type that moves under forces. Every other value is static.
pub const BODY_TYPE_DYNAMIC: u32 = 1;

/// Flag bit 0: the body takes part in continuous collision detection.
pub const BODY_FLAG_ENABLE_CCD: u32 = 1;

/// Flag bit 1: the body may be put to sleep when it rests.
pub const BODY_FLAG_ENABLE_SLEEP: u32 = 2;

/// The discrete part of a body record.
///
/// `has_mass` records whether the body's inverse mass is strictly positive;
/// the scalar itself never enters a decision in any other way.
#[derive(Clone, Copy, Debug, PartialEq, Eq, Structural)]
pub struct BodyTag {
    pub id: u64,
    pub body_type: u32,
    pub flags: u32,
    pub has_mass: bool,
}

impl BodyTag {
    /// A body is dynamic when its type says so and it has a positive inverse
    /// mass. A body of dynamic type without mass behaves as a static one.
    pub open spec fn dynamic(&self) -> bool {
        self.body_type == BODY_TYPE_DYNAMIC && self.has_mass
    }

    /// Bit 0 of the flag word.
    pub open spec fn ccd_flag(&self) -> bool {
        self.flags & BODY_FLAG_ENABLE_CCD != 0
    }

    /// Bit 1 of the flag word.
    pub open spec fn sleep_flag(&self) -> bool {
        self.flags & BODY_FLAG_ENABLE_SLEEP != 0
    }

    /// A body is swept (rolled back to its time of impact) when its type is
    /// dynamic and its CCD flag is set. Mass plays no part in this test.
    pub open spec fn swept(&self) -> bool {
        self.body_type == BODY_TYPE_DYNAMIC && self.ccd_flag()
    }

    /// Whether the body moves under forces and impulses.
    pub fn is_dynamic(&self) -> (r: bool)
        ensures
            r == self.dynamic(),
    {
        self.body_type == BODY_TYPE_DYNAMIC && self.has_mass
    }

    /// Whether the CCD flag is set.
    pub fn enable_ccd(&self) -> (r: bool)
        ensures
            r == self.ccd_flag(),
    {
        (self.flags & BODY_FLAG_ENABLE_CCD) != 0
    }

    /// Whether the sleep flag is set.
    pub fn enable_sleep(&self) -> (r: bool)
        ensures
            r == self.sleep_flag(),
    {
        (self.flags & BODY_FLAG_ENABLE_SLEEP) != 0
    }

    /// Whether the time-of-impact pass may roll the body back.
    pub fn is_swept(&self) -> (r: bool)
        ensures
            r == self.swept(),
    {
        self.body_type == BODY_TYPE_DYNAMIC && self.enable_ccd()
    }
}

/// Which endpoints of a candidate pair are rolled back when the pair is found
/// to collide within the substep. `None` when neither is swept: the pair is
/// then skipped by the time-of-impact pass.
pub fn swept_endpoints(a: &BodyTag, b: &BodyTag) -> (r: Option<(bool, bool)>)
    ensures
        r == if a.swept() || b.swept() {
            Some((a.swept(), b.swept()))
        } else {
            None::<(bool, bool)>
        },
{
    let sweep_a: bool = a.is_swept();
    let sweep_b: bool = b.is_swept();
    if !sweep_a && !sweep_b {
        None
    } else {
        Some((sweep_a, sweep_b))
    }
}

/// The two flag bits are independent: each is read off the flag word without
/// regard to the other or to the reserved bits above them.
pub proof fn lemma_flag_bits(flags: u32)
    ensures
        (flags & BODY_FLAG_ENABLE_CCD != 0) == (flags % 2 == 1),
        (flags & BODY_FLAG_ENABLE_SLEEP != 0) == ((flags / 2) % 2 == 1),
{
    assert((flags & 1 != 0) == (flags % 2 == 1)) by (bit_vector);
    assert((flags & 2 != 0) == ((flags / 2) % 2 == 1)) by (bit_vector);
}

} // verus!
