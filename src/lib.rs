use vstd::prelude::*;
use vstd::arithmetic::div_mod::lemma_mod_multiples_vanish;
use vstd::arithmetic::power2::{
    lemma2_to64, lemma_pow2_adds, lemma_pow2_strictly_increases, lemma_pow2_unfold, pow2,
};
use vstd::bits::{low_bits_mask, lemma_u32_low_bits_mask_is_mod};
use vstd::std_specs::convert::IntoSpec;

mod cell;
mod dims;

pub use cell::SpatialCell;
pub use dims::{coord_of, extents_of, i3_of, lemma_i3_of, lemma_u3_of, u3_of, I3, U3};

verus! {

/// Euclidean remainder: `n` reduced into `[0, p)`, negative `n` included.
pub fn rem_e(n: i32, p: i32) -> (r: i32)
    requires
        p > 0,
    ensures
        r == n as int % p as int,
        0 <= r < p,
{
    match n.checked_rem_euclid(p) {
        Some(r) => r,
        None => 0,
    }
}

/// A positive `q` with a single bit set is `2` raised to some exponent below 32.
proof fn lemma_power_of_two_exponent(q: u32) -> (k: nat)
    requires
        q > 0,
        q & ((q - 1) as u32) == 0,
    ensures
        k < 32,
        pow2(k) == q,
    decreases q,
{
    if q == 1 {
        lemma2_to64();
        0
    } else {
        let h = q / 2;
        assert(q % 2 == 0 && h > 0 && h & ((h - 1) as u32) == 0) by (bit_vector)
            requires
                q > 1,
                q & ((q - 1) as u32) == 0,
                h == q / 2,
        ;
        let k = lemma_power_of_two_exponent(h);
        lemma_pow2_unfold(k + 1);
        if k + 1 >= 32 {
            if k + 1 > 32 {
                lemma_pow2_strictly_increases(32, k + 1);
            }
            lemma2_to64();
        }
        k + 1
    }
}

/// Euclidean remainder by a power of two, taken as the low bits of `n`.
pub fn rem_e_p2(n: i32, p: i32) -> (r: i32)
    requires
        p > 0,
        p & ((p - 1) as i32) == 0,
    ensures
        r == n as int % p as int,
        0 <= r < p,
{
    let r = n & (p - 1);
    proof {
        let u = n as u32;
        let q = p as u32;
        assert(q & ((q - 1) as u32) == 0 && r >= 0 && r as u32 == u & ((q - 1) as u32) && (n < 0
            ==> u as int == n as int + 4294967296)) by (bit_vector)
            requires
                p > 0,
                p & ((p - 1) as i32) == 0,
                r == n & ((p - 1) as i32),
                u == n as u32,
                q == p as u32,
        ;
        let k = lemma_power_of_two_exponent(q);
        lemma_u32_low_bits_mask_is_mod(u, k);
        assert(low_bits_mask(k) == q - 1);
        assert(r == u as int % q as int);
        if n < 0 {
            lemma_pow2_adds(k, (32 - k) as nat);
            lemma2_to64();
            lemma_mod_multiples_vanish(pow2((32 - k) as nat) as int, n as int, p as int);
        }
    }
    r
}

/// The slot of coordinate `c` in a grid of extents `d`: each component is
/// reduced into its axis by Euclidean remainder, and the slots are laid out
/// with `z` varying fastest.
pub open spec fn slot_of(c: (i32, i32, i32), d: (int, int, int)) -> int {
    ((c.0 as int % d.0) * d.1 + (c.1 as int % d.1)) * d.2 + (c.2 as int % d.2)
}

/// Extents that a grid can have: all positive.
pub open spec fn valid_extents(d: (int, int, int)) -> bool {
    d.0 > 0 && d.1 > 0 && d.2 > 0
}

/// The number of slots in a grid of extents `d`.
pub open spec fn volume(d: (int, int, int)) -> int {
    d.0 * d.1 * d.2
}

/// What resides in the slot that `c` maps to, whatever its position.
pub open spec fn entry_at<T>(
    s: Seq<Option<((i32, i32, i32), T)>>,
    d: (int, int, int),
    c: (i32, i32, i32),
) -> Option<((i32, i32, i32), T)> {
    s[slot_of(c, d)]
}

/// What resides in the slot that `c` maps to, if it was stored under `c` itself.
pub open spec fn exact_entry<T>(
    s: Seq<Option<((i32, i32, i32), T)>>,
    d: (int, int, int),
    c: (i32, i32, i32),
) -> Option<((i32, i32, i32), T)> {
    match s[slot_of(c, d)] {
        Some(e) => if e.0 == c {
            Some(e)
        } else {
            None
        },
        None => None,
    }
}

/// The slots after `(c, v)` is stored in the slot that `c` maps to.
pub open spec fn placed<T>(
    s: Seq<Option<((i32, i32, i32), T)>>,
    d: (int, int, int),
    c: (i32, i32, i32),
    v: T,
) -> Seq<Option<((i32, i32, i32), T)>> {
    s.update(slot_of(c, d), Some((c, v)))
}

/// The slots after the slot that `c` maps to is emptied.
pub open spec fn cleared<T>(
    s: Seq<Option<((i32, i32, i32), T)>>,
    d: (int, int, int),
    c: (i32, i32, i32),
) -> Seq<Option<((i32, i32, i32), T)>> {
    s.update(slot_of(c, d), None)
}

/// The entry that a borrowed cell holds, `None` for no cell.
pub open spec fn ref_entry<T: Clone>(r: Option<&SpatialCell<T>>) -> Option<((i32, i32, i32), T)> {
    match r {
        Some(c) => c@,
        None => None,
    }
}

/// The entry that an owned cell holds, `None` for no cell.
pub open spec fn owned_entry<T: Clone>(r: Option<SpatialCell<T>>) -> Option<((i32, i32, i32), T)> {
    match r {
        Some(c) => c@,
        None => None,
    }
}

/// Every coordinate maps to a slot inside the grid.
pub proof fn lemma_slot_in_range(c: (i32, i32, i32), d: (int, int, int))
    requires
        valid_extents(d),
    ensures
        0 <= slot_of(c, d) < volume(d),
{
    let x = c.0 as int % d.0;
    let y = c.1 as int % d.1;
    let z = c.2 as int % d.2;
    assert(0 <= x * d.1 + y < d.0 * d.1) by (nonlinear_arith)
        requires
            0 <= x < d.0,
            0 <= y < d.1,
    ;
    let xy = x * d.1 + y;
    assert(0 <= xy * d.2 + z < d.0 * d.1 * d.2) by (nonlinear_arith)
        requires
            0 <= xy < d.0 * d.1,
            0 <= z < d.2,
    ;
}

/// Shifting a coordinate by whole multiples of the extents, per axis, keeps its slot.
pub proof fn lemma_slot_periodic(c: (i32, i32, i32), k: (int, int, int), d: (int, int, int))
    requires
        valid_extents(d),
        i32::MIN <= c.0 + k.0 * d.0 <= i32::MAX,
        i32::MIN <= c.1 + k.1 * d.1 <= i32::MAX,
        i32::MIN <= c.2 + k.2 * d.2 <= i32::MAX,
    ensures
        slot_of(
            ((c.0 + k.0 * d.0) as i32, (c.1 + k.1 * d.1) as i32, (c.2 + k.2 * d.2) as i32),
            d,
        ) == slot_of(c, d),
{
    lemma_mod_multiples_vanish(k.0, c.0 as int, d.0);
    lemma_mod_multiples_vanish(k.1, c.1 as int, d.1);
    lemma_mod_multiples_vanish(k.2, c.2 as int, d.2);
    assert(d.0 * k.0 == k.0 * d.0) by (nonlinear_arith);
    assert(d.1 * k.1 == k.1 * d.1) by (nonlinear_arith);
    assert(d.2 * k.2 == k.2 * d.2) by (nonlinear_arith);
}

/// Storing `(c, v)` in an empty slot hands nothing back (the slot held no
/// entry), and an exact lookup of `c` afterwards finds `(c, v)`.
pub proof fn lemma_insert_then_get_exact<T>(
    s: Seq<Option<((i32, i32, i32), T)>>,
    d: (int, int, int),
    c: (i32, i32, i32),
    v: T,
)
    requires
        valid_extents(d),
        s.len() == volume(d),
        entry_at(s, d, c) is None,
    ensures
        exact_entry(placed(s, d, c, v), d, c) == Some((c, v)),
{
    lemma_slot_in_range(c, d);
}

/// Of two different positions that share a slot, storing the second evicts
/// the first and hands it back; afterwards an exact lookup finds the second
/// and not the first.
pub proof fn lemma_collision_evicts<T>(
    s: Seq<Option<((i32, i32, i32), T)>>,
    d: (int, int, int),
    a: (i32, i32, i32),
    va: T,
    b: (i32, i32, i32),
    vb: T,
)
    requires
        valid_extents(d),
        s.len() == volume(d),
        slot_of(a, d) == slot_of(b, d),
        a != b,
    ensures
        entry_at(placed(s, d, a, va), d, b) == Some((a, va)),
        exact_entry(placed(placed(s, d, a, va), d, b, vb), d, a) is None,
        exact_entry(placed(placed(s, d, a, va), d, b, vb), d, b) == Some((b, vb)),
{
    lemma_slot_in_range(a, d);
}

/// Once the slot of `c` is emptied, neither lookup of `c` finds anything,
/// and a store under any position `c2` that maps to the same slot hands
/// nothing back.
pub proof fn lemma_remove_clears<T>(
    s: Seq<Option<((i32, i32, i32), T)>>,
    d: (int, int, int),
    c: (i32, i32, i32),
    c2: (i32, i32, i32),
)
    requires
        valid_extents(d),
        s.len() == volume(d),
        slot_of(c2, d) == slot_of(c, d),
    ensures
        entry_at(cleared(s, d, c), d, c) is None,
        exact_entry(cleared(s, d, c), d, c) is None,
        entry_at(cleared(s, d, c), d, c2) is None,
{
    lemma_slot_in_range(c, d);
}

/// Whether two coordinate arrays are equal, component by component.
pub fn arr_cmp(a: [i32; 3], b: [i32; 3]) -> (r: bool)
    ensures
        r == (a@ == b@),
{
    let r = a[0] == b[0] && a[1] == b[1] && a[2] == b[2];
    proof {
        if r {
            assert(a@ =~= b@);
        } else if a@ == b@ {
            assert(a@[0] == b@[0] && a@[1] == b@[1] && a@[2] == b@[2]);
        }
    }
    r
}

/// A fixed-size grid of slots addressed by wrapped integer coordinates; each
/// slot holds at most one entry, and a later entry for the same slot evicts
/// the earlier one.
pub struct SpatialMap<T: Default + Clone> {
    data: Vec<SpatialCell<T>>,
    dim: [i32; 3],
    /// Every extent is a power of two, so reducing a component is a bit mask.
    pow2: bool,
}

impl<T: Default + Clone> View for SpatialMap<T> {
    type V = Seq<Option<((i32, i32, i32), T)>>;

    /// The entry of each slot, in slot order.
    closed spec fn view(&self) -> Seq<Option<((i32, i32, i32), T)>> {
        self.data@.map_values(|c: SpatialCell<T>| c@)
    }
}

impl<T: Default + Clone> SpatialMap<T> {
    /// The extents of the grid `(x, y, z)`.
    pub closed spec fn dims(&self) -> (int, int, int) {
        (self.dim[0] as int, self.dim[1] as int, self.dim[2] as int)
    }

    /// The extents are positive, their product fits in `i32`, there is one
    /// cell per slot, and the bit-mask path is taken only for powers of two.
    pub closed spec fn wf(&self) -> bool {
        &&& valid_extents(self.dims())
        &&& volume(self.dims()) <= i32::MAX
        &&& self.data@.len() == volume(self.dims())
        &&& self.pow2 ==> {
            &&& self.dim[0] & ((self.dim[0] - 1) as i32) == 0
            &&& self.dim[1] & ((self.dim[1] - 1) as i32) == 0
            &&& self.dim[2] & ((self.dim[2] - 1) as i32) == 0
        }
    }

    /// One entry per slot.
    proof fn lemma_view_len(&self)
        requires
            self.wf(),
        ensures
            self@.len() == volume(self.dims()),
    {
    }

    /// Creates a grid of the given extents with every slot empty.
    pub fn with_capacity<D: Into<U3>>(dim: D) -> (r: Self)
        requires
            D::obeys_into_spec(),
            valid_extents(
                (extents_of(dim).0 as int, extents_of(dim).1 as int, extents_of(dim).2 as int),
            ),
            volume(
                (extents_of(dim).0 as int, extents_of(dim).1 as int, extents_of(dim).2 as int),
            ) <= i32::MAX,
        ensures
            r.wf(),
            r.dims() == (extents_of(dim).0 as int, extents_of(dim).1 as int, extents_of(dim).2 as int),
            r@.len() == volume(r.dims()),
            forall|i: int| 0 <= i < r@.len() ==> #[trigger] r@[i] is None,
    {
        let dim: U3 = dim.into();
        let a = dim.as_array();
        let (dx, dy, dz) = (a[0], a[1], a[2]);
        assert(dx * dy <= dx * dy * dz) by (nonlinear_arith)
            requires
                dz > 0,
                dx * dy >= 0,
        ;
        assert(dx <= dx * dy) by (nonlinear_arith)
            requires
                dy > 0,
                dx >= 0,
        ;
        assert(dy <= dx * dy) by (nonlinear_arith)
            requires
                dx > 0,
                dy >= 0,
        ;
        assert(dz <= dx * dy * dz) by (nonlinear_arith)
            requires
                dx * dy > 0,
                dz >= 0,
        ;
        assert(dx * dy > 0) by (nonlinear_arith)
            requires
                dx > 0,
                dy > 0,
        ;
        let len: usize = (dx as usize) * (dy as usize) * (dz as usize);
        let mut data: Vec<SpatialCell<T>> = Vec::new();
        while data.len() < len
            invariant
                data@.len() <= len,
                forall|i: int| 0 <= i < data@.len() ==> #[trigger] data@[i]@ is None,
            decreases len - data@.len(),
        {
            data.push(SpatialCell::new_empty());
        }
        let dim: [i32; 3] = [dx as i32, dy as i32, dz as i32];
        let pow2 = dim[0] & (dim[0] - 1) == 0 && dim[1] & (dim[1] - 1) == 0 && dim[2] & (dim[2] - 1)
            == 0;
        let r = Self { data, dim, pow2 };
        assert(r@.len() == r.data@.len());
        assert forall|i: int| 0 <= i < r@.len() implies #[trigger] r@[i] is None by {
            assert(r@[i] == r.data@[i]@);
        }
        r
    }

    /// The slot that `position` maps to.
    pub fn index<P: Into<I3>>(&self, position: P) -> (r: usize)
        requires
            self.wf(),
            P::obeys_into_spec(),
        ensures
            r == slot_of(coord_of(position), self.dims()),
            r < self@.len(),
    {
        let position: I3 = position.into();
        self.slot(&position)
    }

    /// The slot of an already converted coordinate.
    fn slot(&self, position: &I3) -> (r: usize)
        requires
            self.wf(),
        ensures
            r == slot_of(position@, self.dims()),
            r < self@.len(),
    {
        let p = position.as_array();
        let (dim_x, dim_y, dim_z) = (self.dim[0], self.dim[1], self.dim[2]);
        let (x, y, z) = if self.pow2 {
            (rem_e_p2(p[0], dim_x), rem_e_p2(p[1], dim_y), rem_e_p2(p[2], dim_z))
        } else {
            (rem_e(p[0], dim_x), rem_e(p[1], dim_y), rem_e(p[2], dim_z))
        };
        proof {
            lemma_slot_in_range(position@, self.dims());
            assert(0 <= x * dim_y + y <= (x * dim_y + y) * dim_z) by (nonlinear_arith)
                requires
                    0 <= x,
                    0 <= y,
                    dim_y > 0,
                    dim_z > 0,
            ;
            assert(0 <= x * dim_y <= x * dim_y + y);
            self.lemma_view_len();
        }
        ((x as usize * dim_y as usize + y as usize) * dim_z as usize + z as usize)
    }

    /// Stores `(position, value)` in slot `index`, whatever slot `position`
    /// maps to, and hands back the former occupant of that slot, if any.
    pub fn insert_index<P: Into<I3>>(&mut self, index: usize, position: P, value: T) -> (r: Option<
        SpatialCell<T>,
    >)
        requires
            old(self).wf(),
            index < old(self)@.len(),
            P::obeys_into_spec(),
        ensures
            final(self).wf(),
            final(self).dims() == old(self).dims(),
            final(self)@ == old(self)@.update(index as int, Some((coord_of(position), value))),
            r is Some <==> old(self)@[index as int] is Some,
            owned_entry(r) == old(self)@[index as int],
    {
        self.place(index, position.into(), value)
    }

    /// Swaps a new occupied cell into slot `index`.
    fn place(&mut self, index: usize, position: I3, value: T) -> (r: Option<SpatialCell<T>>)
        requires
            old(self).wf(),
            index < old(self)@.len(),
        ensures
            final(self).wf(),
            final(self).dims() == old(self).dims(),
            final(self)@ == old(self)@.update(index as int, Some((position@, value))),
            r is Some <==> old(self)@[index as int] is Some,
            owned_entry(r) == old(self)@[index as int],
    {
        let mut swap_cell = SpatialCell::new(position, value);
        core::mem::swap(&mut swap_cell, &mut self.data[index]);
        proof {
            assert(self@ =~= old(self)@.update(index as int, Some((position@, value))));
        }
        if swap_cell.is_some() {
            Some(swap_cell)
        } else {
            None
        }
    }

    /// Stores `(position, value)` in the slot that `position` maps to, and
    /// hands back the former occupant of that slot, whatever its position.
    pub fn insert<P: Into<I3>>(&mut self, position: P, value: T) -> (r: Option<SpatialCell<T>>)
        requires
            old(self).wf(),
            P::obeys_into_spec(),
        ensures
            final(self).wf(),
            final(self).dims() == old(self).dims(),
            final(self)@ == placed(old(self)@, old(self).dims(), coord_of(position), value),
            r is Some <==> entry_at(old(self)@, old(self).dims(), coord_of(position)) is Some,
            owned_entry(r) == entry_at(old(self)@, old(self).dims(), coord_of(position)),
    {
        let position: I3 = position.into();
        let index = self.slot(&position);
        self.place(index, position, value)
    }

    /// The occupant of slot `index`, if any.
    pub fn get_index(&self, index: usize) -> (r: Option<&SpatialCell<T>>)
        requires
            self.wf(),
            index < self@.len(),
        ensures
            r is Some <==> self@[index as int] is Some,
            ref_entry(r) == self@[index as int],
    {
        let cell = &self.data[index];
        if cell.is_some() {
            Some(cell)
        } else {
            None
        }
    }

    /// The occupant of the slot that `position` maps to, whatever position it
    /// was stored under.
    pub fn get<P: Into<I3>>(&self, position: P) -> (r: Option<&SpatialCell<T>>)
        requires
            self.wf(),
            P::obeys_into_spec(),
        ensures
            r is Some <==> entry_at(self@, self.dims(), coord_of(position)) is Some,
            ref_entry(r) == entry_at(self@, self.dims(), coord_of(position)),
    {
        let index = self.index(position);
        self.get_index(index)
    }

    /// The occupant of the slot that `position` maps to, only if it was stored
    /// under `position` itself.
    pub fn get_exact<P: Into<I3>>(&self, position: P) -> (r: Option<&SpatialCell<T>>)
        requires
            self.wf(),
            P::obeys_into_spec(),
        ensures
            r is Some <==> exact_entry(self@, self.dims(), coord_of(position)) is Some,
            ref_entry(r) == exact_entry(self@, self.dims(), coord_of(position)),
    {
        let position: I3 = position.into();
        let index = self.slot(&position);
        proof {
            assert(self@[index as int] == self.data@[index as int]@);
        }
        let cell = &self.data[index];
        if cell.is_some() && cell.position_is(&position) {
            Some(cell)
        } else {
            None
        }
    }

    /// Empties slot `index` and hands back its occupant, if any.
    pub fn remove_index(&mut self, index: usize) -> (r: Option<SpatialCell<T>>)
        requires
            old(self).wf(),
            index < old(self)@.len(),
        ensures
            final(self).wf(),
            final(self).dims() == old(self).dims(),
            final(self)@ == old(self)@.update(index as int, None),
            r is Some <==> old(self)@[index as int] is Some,
            owned_entry(r) == old(self)@[index as int],
    {
        let r = self.data[index].take_checked();
        proof {
            assert(self@ =~= old(self)@.update(index as int, None));
        }
        r
    }

    /// Empties the slot that `position` maps to and hands back its occupant,
    /// whatever position it was stored under.
    pub fn remove<P: Into<I3>>(&mut self, position: P) -> (r: Option<SpatialCell<T>>)
        requires
            old(self).wf(),
            P::obeys_into_spec(),
        ensures
            final(self).wf(),
            final(self).dims() == old(self).dims(),
            final(self)@ == cleared(old(self)@, old(self).dims(), coord_of(position)),
            r is Some <==> entry_at(old(self)@, old(self).dims(), coord_of(position)) is Some,
            owned_entry(r) == entry_at(old(self)@, old(self).dims(), coord_of(position)),
    {
        let index = self.index(position);
        self.remove_index(index)
    }

    /// Empties the slot that `position` maps to only if its occupant was stored
    /// under `position` itself, and hands that occupant back; otherwise
    /// nothing changes.
    pub fn remove_exact<P: Into<I3>>(&mut self, position: P) -> (r: Option<SpatialCell<T>>)
        requires
            old(self).wf(),
            P::obeys_into_spec(),
        ensures
            final(self).wf(),
            final(self).dims() == old(self).dims(),
            r is Some <==> exact_entry(old(self)@, old(self).dims(), coord_of(position)) is Some,
            owned_entry(r) == exact_entry(old(self)@, old(self).dims(), coord_of(position)),
            final(self)@ == if r is Some {
                cleared(old(self)@, old(self).dims(), coord_of(position))
            } else {
                old(self)@
            },
    {
        let position: I3 = position.into();
        let index = self.slot(&position);
        proof {
            assert(self@[index as int] == self.data@[index as int]@);
        }
        if self.data[index].is_some() && self.data[index].position_is(&position) {
            self.remove_index(index)
        } else {
            None
        }
    }
    /// The occupant of slot `index`, if any, for changing in place; the
    /// slot then holds whatever the borrowed cell holds when the borrow ends.
    pub fn get_index_mut(&mut self, index: usize) -> (r: Option<&mut SpatialCell<T>>)
        requires
            old(self).wf(),
            index < old(self)@.len(),
        ensures
            r is Some <==> old(self)@[index as int] is Some,
            match r {
                Some(c) => {
                    &&& c@ == old(self)@[index as int]
                    &&& final(self)@ == old(self)@.update(index as int, final(c)@)
                    &&& final(self).dims() == old(self).dims()
                    &&& final(self).wf()
                },
                None => *final(self) == *old(self),
            },
    {
        if self.data[index].is_some() {
            Some(&mut self.data[index])
        } else {
            None
        }
    }
    /// The cell of slot `index`, occupied or not, for changing in place; the
    /// slot then holds whatever the borrowed cell holds when the borrow ends.
    pub fn get_index_mut_unchecked(&mut self, index: usize) -> (r: &mut SpatialCell<T>)
        requires
            old(self).wf(),
            index < old(self)@.len(),
        ensures
            r@ == old(self)@[index as int],
            final(self)@ == old(self)@.update(index as int, final(r)@),
            final(self).dims() == old(self).dims(),
            final(self).wf(),
    {
        &mut self.data[index]
    }

    /// The occupant of the slot that `position` maps to, whatever position it
    /// was stored under, for changing in place.
    pub fn get_mut<P: Into<I3>>(&mut self, position: P) -> (r: Option<&mut SpatialCell<T>>)
        requires
            old(self).wf(),
            P::obeys_into_spec(),
        ensures
            r is Some <==> entry_at(old(self)@, old(self).dims(), coord_of(position)) is Some,
            match r {
                Some(c) => {
                    &&& c@ == entry_at(old(self)@, old(self).dims(), coord_of(position))
                    &&& final(self)@ == old(self)@.update(
                        slot_of(coord_of(position), old(self).dims()),
                        final(c)@,
                    )
                    &&& final(self).dims() == old(self).dims()
                    &&& final(self).wf()
                },
                None => *final(self) == *old(self),
            },
    {
        let index = self.index(position);
        self.get_index_mut(index)
    }

    /// The occupant of the slot that `position` maps to, only if it was stored
    /// under `position` itself, for changing in place.
    pub fn get_exact_mut<P: Into<I3>>(&mut self, position: P) -> (r: Option<&mut SpatialCell<T>>)
        requires
            old(self).wf(),
            P::obeys_into_spec(),
        ensures
            r is Some <==> exact_entry(old(self)@, old(self).dims(), coord_of(position)) is Some,
            match r {
                Some(c) => {
                    &&& c@ == exact_entry(old(self)@, old(self).dims(), coord_of(position))
                    &&& final(self)@ == old(self)@.update(
                        slot_of(coord_of(position), old(self).dims()),
                        final(c)@,
                    )
                    &&& final(self).dims() == old(self).dims()
                    &&& final(self).wf()
                },
                None => *final(self) == *old(self),
            },
    {
        let position: I3 = position.into();
        let index = self.slot(&position);
        proof {
            assert(self@[index as int] == self.data@[index as int]@);
        }
        if self.data[index].is_some() && self.data[index].position_is(&position) {
            self.get_index_mut(index)
        } else {
            None
        }
    }
}

} // verus!
