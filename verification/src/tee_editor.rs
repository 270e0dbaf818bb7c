//! State of the tee editor: named images of the body parts and the editor's
//! resettable values.
use vstd::prelude::*;

verus! {

/// An image of a body part: its name and its file bytes.
pub struct TeeImage {
    pub name: String,
    pub data: Vec<u8>,
}

impl Default for TeeImage {
    fn default() -> (r: TeeImage)
        ensures
            r.name@ == Seq::<char>::empty(),
            r.data@ == Seq::<u8>::empty(),
    {
        TeeImage { name: String::new(), data: Vec::new() }
    }
}

/// The images of all body parts of a tee.
pub struct TeeImages {
    pub body: TeeImage,
    pub left_eye: TeeImage,
    pub right_eye: TeeImage,
    pub left_foot: TeeImage,
    pub right_foot: TeeImage,
    pub left_hand: TeeImage,
    pub right_hand: TeeImage,
    pub marking: TeeImage,
    pub decoration: TeeImage,
}

pub open spec fn image_empty(i: TeeImage) -> bool {
    i.name@ == Seq::<char>::empty() && i.data@ == Seq::<u8>::empty()
}

impl Default for TeeImages {
    fn default() -> (r: TeeImages)
        ensures
            image_empty(r.body),
            image_empty(r.left_eye),
            image_empty(r.right_eye),
            image_empty(r.left_foot),
            image_empty(r.right_foot),
            image_empty(r.left_hand),
            image_empty(r.right_hand),
            image_empty(r.marking),
            image_empty(r.decoration),
    {
        TeeImages {
            body: TeeImage::default(),
            left_eye: TeeImage::default(),
            right_eye: TeeImage::default(),
            left_foot: TeeImage::default(),
            right_foot: TeeImage::default(),
            left_hand: TeeImage::default(),
            right_hand: TeeImage::default(),
            marking: TeeImage::default(),
            decoration: TeeImage::default(),
        }
    }
}

/// A value the editor shows and changes, which can be reset to the type's
/// default.
pub struct EditorAtom<V> {
    value: V,
}

impl<V: Default + Clone> EditorAtom<V> {
    pub closed spec fn value(&self) -> V {
        self.value
    }

    /// A copy of the value.
    pub fn get(&self) -> (r: V)
        ensures
            cloned(self.value(), r),
    {
        self.value.clone()
    }

    pub fn set(&mut self, new_val: V)
        ensures
            final(self).value() == new_val,
    {
        self.value = new_val;
    }

    /// Sets the value to the type's default.
    pub fn reset(&mut self)
        ensures
            call_ensures(V::default, (), final(self).value()),
    {
        self.value = V::default();
    }
}

impl<V: Default + Clone> Default for EditorAtom<V> {
    fn default() -> (r: EditorAtom<V>)
        ensures
            call_ensures(V::default, (), r.value()),
    {
        EditorAtom { value: V::default() }
    }
}

/// Cloning gives back the value itself, as for strings and integers.
pub open spec fn clone_is_exact<V: Clone>() -> bool {
    forall|x: V, y: V| #[trigger] cloned(x, y) ==> x == y
}

/// The type's default is always the same value.
pub open spec fn default_is_fixed<V: Default>() -> bool {
    forall|x: V, y: V| call_ensures(V::default, (), x) && call_ensures(V::default, (), y) ==> x == y
}

/// What was set is what `get` gives back, whatever the atom held before
/// (for a value type whose clone is exact).
pub proof fn law_get_returns_what_was_set<V: Default + Clone>(
    after: EditorAtom<V>,
    new_val: V,
    got: V,
)
    requires
        clone_is_exact::<V>(),
        after.value() == new_val,
        cloned(after.value(), got),
    ensures
        got == new_val,
{
}

/// After `reset` the atom gives the same value as a new atom, and a
/// second `reset` leaves it so (for a value type whose default is fixed and
/// whose clone is exact).
pub proof fn law_reset_gives_the_default<V: Default + Clone>(
    reset: EditorAtom<V>,
    reset_again: EditorAtom<V>,
    fresh: EditorAtom<V>,
    got_reset: V,
    got_fresh: V,
)
    requires
        clone_is_exact::<V>(),
        default_is_fixed::<V>(),
        call_ensures(V::default, (), reset.value()),
        call_ensures(V::default, (), reset_again.value()),
        call_ensures(V::default, (), fresh.value()),
        cloned(reset.value(), got_reset),
        cloned(fresh.value(), got_fresh),
    ensures
        got_reset == got_fresh,
        reset_again.value() == reset.value(),
{
}

} // verus!
