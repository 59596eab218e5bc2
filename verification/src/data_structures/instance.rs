//! Per-instance transformation data.
//!
//! An [`Instance`] places one copy of a mesh: a position, a rotation and a
//! non-uniform scale. Every component is a single-precision number kept by its
//! bit pattern, so that values can be stored, copied and compared exactly.

use vstd::prelude::*;
use vstd::std_specs::convert::FromSpecImpl;

verus! {

/// Bit pattern of the single-precision number `0.0`.
pub const ZERO_BITS: u32 = 0;

/// Bit pattern of the single-precision number `1.0`.
pub const ONE_BITS: u32 = 0x3f80_0000;

/// A single-precision number, kept by its IEEE-754 bit pattern.
#[derive(Clone, Copy, Debug, PartialEq, Eq, Hash, Structural)]
pub struct Scalar {
    pub bits: u32,
}

impl Scalar {
    /// The value whose bit pattern is `bits`.
    pub fn from_bits(bits: u32) -> (s: Scalar)
        ensures
            s.bits == bits,
    {
        Scalar { bits }
    }

    /// The bit pattern of this value.
    pub fn to_bits(self) -> (bits: u32)
        ensures
            bits == self.bits,
    {
        self.bits
    }

    /// The number `0.0`.
    pub open spec fn spec_zero() -> Scalar {
        Scalar { bits: ZERO_BITS }
    }

    /// The number `1.0`.
    pub open spec fn spec_one() -> Scalar {
        Scalar { bits: ONE_BITS }
    }

    /// The number `0.0`.
    #[verifier::when_used_as_spec(spec_zero)]
    pub fn zero() -> (s: Scalar)
        ensures
            s == Scalar::spec_zero(),
    {
        Scalar { bits: ZERO_BITS }
    }

    /// The number `1.0`.
    #[verifier::when_used_as_spec(spec_one)]
    pub fn one() -> (s: Scalar)
        ensures
            s == Scalar::spec_one(),
    {
        Scalar { bits: ONE_BITS }
    }
}

/// A vector of three scalars.
#[derive(Clone, Copy, Debug, PartialEq, Eq, Hash, Structural)]
pub struct Vector3 {
    pub x: Scalar,
    pub y: Scalar,
    pub z: Scalar,
}

impl Vector3 {
    /// The vector with the components `x`, `y` and `z`.
    pub fn new(x: Scalar, y: Scalar, z: Scalar) -> (v: Vector3)
        ensures
            v == (Vector3 { x, y, z }),
    {
        Vector3 { x, y, z }
    }
}

/// A quaternion: scalar part `s` and vector part `v`.
#[derive(Clone, Copy, Debug, PartialEq, Eq, Hash, Structural)]
pub struct Quaternion {
    pub s: Scalar,
    pub v: Vector3,
}

impl Quaternion {
    /// The quaternion with the scalar part `w` and the vector part `xi`, `yj`, `zk`.
    pub fn new(w: Scalar, xi: Scalar, yj: Scalar, zk: Scalar) -> (q: Quaternion)
        ensures
            q == (Quaternion { s: w, v: Vector3 { x: xi, y: yj, z: zk } }),
    {
        Quaternion { s: w, v: Vector3 { x: xi, y: yj, z: zk } }
    }
}

/// Per-instance transformation: position, rotation (as quaternion), and scale.
///
/// The rotation is meant to be of unit length. The type does not enforce it.
#[derive(Clone, Copy, Debug, PartialEq, Eq, Hash, Structural)]
pub struct Instance {
    pub position: Vector3,
    pub rotation: Quaternion,
    pub scale: Vector3,
}

impl Instance {
    /// The identity transformation: no move, no rotation, scale one.
    pub open spec fn identity() -> Instance {
        Instance {
            position: Vector3 { x: Scalar::zero(), y: Scalar::zero(), z: Scalar::zero() },
            rotation: Quaternion {
                s: Scalar::one(),
                v: Vector3 { x: Scalar::zero(), y: Scalar::zero(), z: Scalar::zero() },
            },
            scale: Vector3 { x: Scalar::one(), y: Scalar::one(), z: Scalar::one() },
        }
    }

    /// The identity transformation placed at `position`.
    pub open spec fn at(position: Vector3) -> Instance {
        Instance { position, ..Instance::identity() }
    }

    /// Create a new instance with identity transformation (no move, rotate, or scale).
    pub fn new() -> (instance: Instance)
        ensures
            instance == Instance::identity(),
    {
        Instance {
            position: Vector3::new(Scalar::zero(), Scalar::zero(), Scalar::zero()),
            rotation: Quaternion::new(Scalar::one(), Scalar::zero(), Scalar::zero(), Scalar::zero()),
            scale: Vector3::new(Scalar::one(), Scalar::one(), Scalar::one()),
        }
    }
}

impl Default for Instance {
    fn default() -> (instance: Instance)
        ensures
            instance == Instance::identity(),
    {
        Instance::new()
    }
}

impl From<Vector3> for Instance {
    fn from(position: Vector3) -> (instance: Instance) {
        let base = Instance::new();
        Instance { position, rotation: base.rotation, scale: base.scale }
    }
}

impl FromSpecImpl<Vector3> for Instance {
    open spec fn obeys_from_spec() -> bool {
        true
    }

    open spec fn from_spec(position: Vector3) -> Instance {
        Instance::at(position)
    }
}

} // verus!
