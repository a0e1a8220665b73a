use crate::dims::{coord_of, I3};
use vstd::prelude::*;
use vstd::std_specs::convert::IntoSpec;

verus! {

/// One storage slot: empty, or occupied by a position and a value.
#[derive(Clone, Debug)]
pub struct SpatialCell<T: Clone> {
    position: I3,
    pub value: T,
    occupied: bool,
}

impl<T: Clone> View for SpatialCell<T> {
    type V = Option<((i32, i32, i32), T)>;

    /// The resident position and value, or `None` for an empty slot.
    open spec fn view(&self) -> Option<((i32, i32, i32), T)> {
        if self.is_occupied() {
            Some((self.stored_position(), self.stored_value()))
        } else {
            None
        }
    }
}

impl<T: Clone> SpatialCell<T> {
    /// Whether the slot holds an entry.
    pub closed spec fn is_occupied(&self) -> bool {
        self.occupied
    }

    /// The stored coordinate; it means something only while the slot is occupied.
    pub closed spec fn stored_position(&self) -> (i32, i32, i32) {
        self.position@
    }

    /// The stored value; it means something only while the slot is occupied.
    pub closed spec fn stored_value(&self) -> T {
        self.value
    }

    /// An occupied slot holding `(position, value)`.
    pub(crate) fn new(position: I3, value: T) -> (r: Self)
        ensures
            r@ == Some((position@, value)),
    {
        Self { position, value, occupied: true }
    }

    /// Whether the slot is occupied.
    pub(crate) fn is_some(&self) -> (r: bool)
        ensures
            r == self@ is Some,
    {
        self.occupied
    }

    /// Whether the stored coordinate equals `pos`, component by component.
    pub fn position_eq<P: Into<I3>>(&self, pos: P) -> (r: bool)
        requires
            P::obeys_into_spec(),
        ensures
            r == (self.stored_position() == coord_of(pos)),
    {
        let pos: I3 = pos.into();
        self.position_is(&pos)
    }

    /// Whether the stored coordinate equals `pos`.
    pub(crate) fn position_is(&self, pos: &I3) -> (r: bool)
        ensures
            r == (self.stored_position() == pos@),
    {
        let a = self.position.as_array();
        let b = pos.as_array();
        a[0] == b[0] && a[1] == b[1] && a[2] == b[2]
    }

    /// The stored coordinate as an array.
    pub fn position(&self) -> (r: &[i32; 3])
        ensures
            (r[0], r[1], r[2]) == self.stored_position(),
    {
        self.position.as_array()
    }
}

impl<T: Clone + Default> SpatialCell<T> {
    /// An empty slot.
    pub(crate) fn new_empty() -> (r: Self)
        ensures
            r@ is None,
    {
        let position: I3 = I3::from([i32::MIN, i32::MIN, i32::MIN]);
        Self { position, value: T::default(), occupied: false }
    }

    /// Hands back the current contents and leaves the slot empty.
    pub fn take(&mut self) -> (r: SpatialCell<T>)
        ensures
            r == *old(self),
            final(self)@ is None,
    {
        let mut cell = Self::new_empty();
        core::mem::swap(self, &mut cell);
        cell
    }

    /// As `take`, but only from an occupied slot; an empty one stays as it is.
    pub(crate) fn take_checked(&mut self) -> (r: Option<Self>)
        ensures
            final(self)@ is None,
            r is None <==> old(self)@ is None,
            r matches Some(c) ==> c@ == old(self)@,
            r is None ==> *final(self) == *old(self),
    {
        if self.is_some() {
            Some(self.take())
        } else {
            None
        }
    }
}

} // verus!
