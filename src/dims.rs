use vstd::prelude::*;
use vstd::std_specs::convert::{FromSpecImpl, IntoSpec};

verus! {

/// glam's signed vector: three public `i32` fields.
#[verifier::external_type_specification]
pub struct ExIVec3(glam::IVec3);

/// glam's unsigned vector: three public `u32` fields.
#[verifier::external_type_specification]
pub struct ExUVec3(glam::UVec3);

/// Relies on glam's `IVec3::to_array`: the components in the order x, y, z.
pub assume_specification[ glam::IVec3::to_array ](v: &glam::IVec3) -> (r: [i32; 3])
    ensures
        r[0] == v.x,
        r[1] == v.y,
        r[2] == v.z,
;

/// Relies on glam's `UVec3::to_array`: the components in the order x, y, z.
pub assume_specification[ glam::UVec3::to_array ](v: &glam::UVec3) -> (r: [u32; 3])
    ensures
        r[0] == v.x,
        r[1] == v.y,
        r[2] == v.z,
;

/// A signed grid coordinate `(x, y, z)`; any value is a valid position.
#[derive(Clone, Copy, Debug)]
pub struct I3 {
    inner: [i32; 3],
}

impl View for I3 {
    type V = (i32, i32, i32);

    closed spec fn view(&self) -> (i32, i32, i32) {
        (self.inner[0], self.inner[1], self.inner[2])
    }
}

/// The coordinate whose components are `a[0]`, `a[1]`, `a[2]`.
pub open spec fn i3_of(a: [i32; 3]) -> I3 {
    choose|r: I3| r@ == (a[0], a[1], a[2])
}

/// `i3_of` picks the coordinate with the given components.
pub broadcast proof fn lemma_i3_of(a: [i32; 3])
    ensures
        (#[trigger] i3_of(a))@ == (a[0], a[1], a[2]),
{
    let w = I3 { inner: a };
    assert(w@ == (a[0], a[1], a[2]));
}

impl I3 {
    /// The components as an array.
    pub fn as_array(&self) -> (r: &[i32; 3])
        ensures
            (r[0], r[1], r[2]) == self@,
    {
        &self.inner
    }
}

impl core::ops::Deref for I3 {
    type Target = [i32; 3];

    fn deref(&self) -> &[i32; 3] {
        &self.inner
    }
}

proof fn lemma_i3_unique(a: [i32; 3])
    ensures
        i3_of(a) == (I3 { inner: a }),
{
    let w = I3 { inner: a };
    assert(w@ == (a[0], a[1], a[2]));
    let c = i3_of(a);
    assert(c.inner =~= a);
}

impl From<[i32; 3]> for I3 {
    fn from(dim: [i32; 3]) -> Self {
        proof {
            lemma_i3_unique(dim);
        }
        Self { inner: dim }
    }
}

impl FromSpecImpl<[i32; 3]> for I3 {
    open spec fn obeys_from_spec() -> bool {
        true
    }

    open spec fn from_spec(v: [i32; 3]) -> I3 {
        i3_of(v)
    }
}

impl From<(isize, isize, isize)> for I3 {
    fn from(dim: (isize, isize, isize)) -> Self {
        let inner: [i32; 3] = [dim.0 as i32, dim.1 as i32, dim.2 as i32];
        proof {
            lemma_i3_unique(inner);
        }
        Self { inner }
    }
}

impl FromSpecImpl<(isize, isize, isize)> for I3 {
    open spec fn obeys_from_spec() -> bool {
        true
    }

    open spec fn from_spec(v: (isize, isize, isize)) -> I3 {
        i3_of([v.0 as i32, v.1 as i32, v.2 as i32])
    }
}

impl From<glam::IVec3> for I3 {
    fn from(v: glam::IVec3) -> Self {
        let inner = v.to_array();
        proof {
            lemma_i3_unique(inner);
            assert(inner =~= [v.x, v.y, v.z]);
        }
        Self { inner }
    }
}

impl FromSpecImpl<glam::IVec3> for I3 {
    open spec fn obeys_from_spec() -> bool {
        true
    }

    open spec fn from_spec(v: glam::IVec3) -> I3 {
        i3_of([v.x, v.y, v.z])
    }
}

/// The components of the coordinate that `p` converts into.
pub open spec fn coord_of<P: Into<I3>>(p: P) -> (i32, i32, i32) {
    p.into_spec()@
}

/// The components of the extents that `d` converts into.
pub open spec fn extents_of<D: Into<U3>>(d: D) -> (u32, u32, u32) {
    d.into_spec()@
}

/// Per-axis extents of a grid `(x, y, z)`.
#[derive(Clone, Copy, Debug)]
pub struct U3 {
    inner: [u32; 3],
}

impl View for U3 {
    type V = (u32, u32, u32);

    closed spec fn view(&self) -> (u32, u32, u32) {
        (self.inner[0], self.inner[1], self.inner[2])
    }
}

/// The extents `a[0]`, `a[1]`, `a[2]`.
pub open spec fn u3_of(a: [u32; 3]) -> U3 {
    choose|r: U3| r@ == (a[0], a[1], a[2])
}

/// `u3_of` picks the extents with the given components.
pub broadcast proof fn lemma_u3_of(a: [u32; 3])
    ensures
        (#[trigger] u3_of(a))@ == (a[0], a[1], a[2]),
{
    let w = U3 { inner: a };
    assert(w@ == (a[0], a[1], a[2]));
}

proof fn lemma_u3_unique(a: [u32; 3])
    ensures
        u3_of(a) == (U3 { inner: a }),
{
    let w = U3 { inner: a };
    assert(w@ == (a[0], a[1], a[2]));
    let c = u3_of(a);
    assert(c.inner =~= a);
}

impl U3 {
    /// The extents as an array.
    pub fn as_array(&self) -> (r: &[u32; 3])
        ensures
            (r[0], r[1], r[2]) == self@,
    {
        &self.inner
    }
}

impl core::ops::Deref for U3 {
    type Target = [u32; 3];

    fn deref(&self) -> &[u32; 3] {
        &self.inner
    }
}

impl From<[u32; 3]> for U3 {
    fn from(dim: [u32; 3]) -> Self {
        proof {
            lemma_u3_unique(dim);
        }
        Self { inner: dim }
    }
}

impl FromSpecImpl<[u32; 3]> for U3 {
    open spec fn obeys_from_spec() -> bool {
        true
    }

    open spec fn from_spec(v: [u32; 3]) -> U3 {
        u3_of(v)
    }
}

impl From<glam::UVec3> for U3 {
    fn from(v: glam::UVec3) -> Self {
        let inner = v.to_array();
        proof {
            lemma_u3_unique(inner);
            assert(inner =~= [v.x, v.y, v.z]);
        }
        Self { inner }
    }
}

impl FromSpecImpl<glam::UVec3> for U3 {
    open spec fn obeys_from_spec() -> bool {
        true
    }

    open spec fn from_spec(v: glam::UVec3) -> U3 {
        u3_of([v.x, v.y, v.z])
    }
}

} // verus!
