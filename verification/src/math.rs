use vstd::prelude::*;

verus! {

/// Bit pattern of the 32-bit IEEE scalar `0.0`.
pub const SCALAR_ZERO: u32 = 0x0000_0000;

/// Bit pattern of the 32-bit IEEE scalar `1.0`.
pub const SCALAR_ONE: u32 = 0x3F80_0000;

/// Bit pattern of the 32-bit IEEE scalar `-1.0`.
pub const SCALAR_NEG_ONE: u32 = 0xBF80_0000;

/// A point or direction in 3-space.
///
/// Each coordinate holds the bit pattern of a 32-bit IEEE scalar. The kernel
/// treats coordinates as opaque words: it lays them out, stores them and moves
/// them, while all numeric evaluation happens in the host that feeds the
/// kernel its scalar tables.
#[derive(Clone, Copy, Debug, PartialEq, Eq, Structural)]
pub struct Vector3 {
    pub x: u32,
    pub y: u32,
    pub z: u32,
}

impl Vector3 {
    /// The origin: all three coordinates are the scalar zero.
    pub fn zero() -> (r: Vector3)
        ensures
            r == (Vector3 { x: SCALAR_ZERO, y: SCALAR_ZERO, z: SCALAR_ZERO }),
    {
        Vector3 { x: SCALAR_ZERO, y: SCALAR_ZERO, z: SCALAR_ZERO }
    }
}

/// A rotation, stored as the four components of a quaternion, each the bit
/// pattern of a 32-bit IEEE scalar. Construction paths are expected to hand
/// in unit quaternions; the kernel itself never renormalizes.
#[derive(Clone, Copy, Debug, PartialEq, Eq, Structural)]
pub struct Quaternion {
    pub x: u32,
    pub y: u32,
    pub z: u32,
    pub w: u32,
}

impl Quaternion {
    /// The identity rotation `(0, 0, 0, 1)`.
    pub fn identity() -> (r: Quaternion)
        ensures
            r == (Quaternion { x: SCALAR_ZERO, y: SCALAR_ZERO, z: SCALAR_ZERO, w: SCALAR_ONE }),
    {
        Quaternion { x: SCALAR_ZERO, y: SCALAR_ZERO, z: SCALAR_ZERO, w: SCALAR_ONE }
    }
}

/// The identity placement: zero translation and the identity rotation.
pub open spec fn identity_placement() -> Placement {
    Placement {
        position: Vector3 { x: SCALAR_ZERO, y: SCALAR_ZERO, z: SCALAR_ZERO },
        rotation: Quaternion { x: SCALAR_ZERO, y: SCALAR_ZERO, z: SCALAR_ZERO, w: SCALAR_ONE },
    }
}

/// A rigid transform: a translation and a rotation.
///
/// Applying a placement to geometry (rotating points and directions, adding
/// the translation) is numeric work and belongs to the host; the kernel
/// stores the placement and decides when it is to be applied.
#[derive(Clone, Copy, Debug, PartialEq, Eq, Structural)]
pub struct Placement {
    pub position: Vector3,
    pub rotation: Quaternion,
}

impl Placement {
    /// A placement at the origin with no rotation.
    pub fn new() -> (r: Placement)
        ensures
            r == identity_placement(),
    {
        Placement { position: Vector3::zero(), rotation: Quaternion::identity() }
    }

    /// A placement with the given position and rotation.
    pub fn from_position_rotation(position: Vector3, rotation: Quaternion) -> (r: Placement)
        ensures
            r == (Placement { position, rotation }),
    {
        Placement { position, rotation }
    }

    /// Whether this is the identity placement: a host may skip the transform
    /// step entirely for such a placement, since rotating by the identity and
    /// translating by zero leave every finite point where it was.
    pub fn is_identity(&self) -> (r: bool)
        ensures
            r == (*self == identity_placement()),
    {
        self.position.x == SCALAR_ZERO && self.position.y == SCALAR_ZERO
            && self.position.z == SCALAR_ZERO && self.rotation.x == SCALAR_ZERO
            && self.rotation.y == SCALAR_ZERO && self.rotation.z == SCALAR_ZERO
            && self.rotation.w == SCALAR_ONE
    }
}

impl Default for Placement {
    /// The identity placement.
    fn default() -> (r: Placement)
        ensures
            r == identity_placement(),
    {
        Placement::new()
    }
}

} // verus!
