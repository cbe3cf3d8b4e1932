//! The type-erased element record.

use crate::value::{copy_slot, lemma_deep_view_push, Value, ValueView};
use vstd::prelude::*;

verus! {

/// The identity of an element kind. Two tables describe the same kind exactly
/// when they carry the same identity.
#[derive(Clone, Copy, Debug, PartialEq, Eq, Structural, Hash)]
pub struct Element(pub u32);

/// One element instance, with its kind erased: the identity of the kind it was
/// made for and one slot per field of that kind, empty while the field is
/// unset.
///
/// A record owns its payload. Duplicating it copies the payload, so the copy
/// lives on when the record it was made from is destroyed.
#[derive(Debug)]
pub struct RawContent {
    elem: Element,
    live: bool,
    slots: Vec<Option<Value>>,
}

/// What a [`RawContent`] holds, as mathematics.
pub struct RawView {
    /// The identity of the record's kind.
    pub elem: Element,
    /// Whether the record has not been destroyed yet.
    pub live: bool,
    /// The field slots, by field id.
    pub slots: Seq<Option<ValueView>>,
}

impl View for RawContent {
    type V = RawView;

    closed spec fn view(&self) -> RawView {
        RawView { elem: self.elem, live: self.live, slots: self.slots.deep_view() }
    }
}

impl RawContent {
    /// Creates a live record of the kind `elem` from its field slots.
    pub fn new(elem: Element, slots: Vec<Option<Value>>) -> (r: RawContent)
        ensures
            r@ == (RawView { elem, live: true, slots: slots.deep_view() }),
    {
        RawContent { elem, live: true, slots }
    }

    /// The identity of the record's kind.
    pub fn elem(&self) -> (r: Element)
        ensures
            r == self@.elem,
    {
        self.elem
    }

    /// Whether the record is of the kind `elem`. Identities are compared, and
    /// nothing else.
    pub fn is(&self, elem: Element) -> (r: bool)
        ensures
            r == (self@.elem == elem),
    {
        self.elem == elem
    }

    /// Whether the record has not been destroyed yet.
    pub fn is_live(&self) -> (r: bool)
        ensures
            r == self@.live,
    {
        self.live
    }

    /// The number of field slots.
    pub fn len(&self) -> (r: usize)
        ensures
            r == self@.slots.len(),
    {
        self.slots.len()
    }

    /// The slot of the field with the given index.
    pub fn slot(&self, index: usize) -> (r: &Option<Value>)
        requires
            index < self@.slots.len(),
        ensures
            r.deep_view() == self@.slots[index as int],
    {
        &self.slots[index]
    }

    /// Fills the slot with the given index.
    pub(crate) fn put(&mut self, index: usize, slot: Option<Value>)
        requires
            index < old(self)@.slots.len(),
        ensures
            final(self)@ == (RawView {
                slots: old(self)@.slots.update(index as int, slot.deep_view()),
                ..old(self)@
            }),
    {
        self.slots.set(index, slot);
        assert(self.slots.deep_view() =~= old(self).slots.deep_view().update(
            index as int,
            slot.deep_view(),
        ));
    }

    /// Gives up the payload and marks the record as destroyed.
    pub(crate) fn release(&mut self)
        ensures
            final(self)@ == (RawView {
                elem: old(self)@.elem,
                live: false,
                slots: Seq::empty(),
            }),
    {
        self.slots = Vec::new();
        self.live = false;
        assert(self.slots.deep_view() =~= Seq::empty());
    }
}

impl Clone for RawContent {
    fn clone(&self) -> (r: RawContent)
        ensures
            r@ == self@,
    {
        let mut slots: Vec<Option<Value>> = Vec::new();
        let mut i: usize = 0;
        while i < self.slots.len()
            invariant
                i <= self.slots.len(),
                slots.deep_view() == self.slots.deep_view().take(i as int),
            decreases self.slots.len() - i,
        {
            let ghost before = slots;
            let copy = copy_slot(&self.slots[i]);
            slots.push(copy);
            proof {
                let all = self.slots.deep_view();
                lemma_deep_view_push(before, slots, copy);
                assert(all.take(i + 1) =~= all.take(i as int).push(all[i as int]));
            }
            i += 1;
        }
        assert(slots.deep_view() =~= self.slots.deep_view());
        RawContent { elem: self.elem, live: self.live, slots }
    }
}

} // verus!
