//! Handles: a record, or a pair of records, together with the table of their
//! own kind. Making a handle is the one place where record and table are
//! matched; every operation on a handle can then rely on it.

use crate::raw::{RawContent, RawView};
use crate::styles::{
    innermost, lemma_chain_value_plain, lemma_two_layers_fold, StyleChain, StyleView,
};
use crate::text::{eco_chars, eco_from_str, hash128_of, siphash128};
use crate::value::{copy_slot, fold_values, same_slot, value_code, value_text, Value, ValueView};
use crate::vtable::{
    field_matches, lemma_fields_match, styled, table_matches, ContentVtable, FieldView,
    FieldVtable, ReprPart, ReprPartView, TableView,
};
use ecow::EcoString;
use vstd::prelude::*;
use vstd::string::StringExecFns;

verus! {

/// What can stand in a handle beside a table of type `V`: a record, a
/// mutable record or a pair of records.
pub trait Matching<V> {
    /// Whether the table is one of the content's own kind.
    spec fn matches(&self, vtable: &V) -> bool;

    /// Tests [`Matching::matches`].
    fn check(&self, vtable: &V) -> (r: bool)
        ensures
            r == self.matches(vtable),
    ;
}

impl<'a> Matching<ContentVtable> for &'a RawContent {
    open spec fn matches(&self, vtable: &ContentVtable) -> bool {
        table_matches(vtable@, self@)
    }

    fn check(&self, vtable: &ContentVtable) -> (r: bool) {
        vtable.matches(*self)
    }
}

impl<'a> Matching<ContentVtable> for &'a mut RawContent {
    open spec fn matches(&self, vtable: &ContentVtable) -> bool {
        table_matches(vtable@, self@)
    }

    fn check(&self, vtable: &ContentVtable) -> (r: bool) {
        vtable.matches(&**self)
    }
}

impl<'a> Matching<ContentVtable> for (&'a RawContent, &'a RawContent) {
    open spec fn matches(&self, vtable: &ContentVtable) -> bool {
        table_matches(vtable@, self.0@) && table_matches(vtable@, self.1@)
    }

    fn check(&self, vtable: &ContentVtable) -> (r: bool) {
        vtable.matches(self.0) && vtable.matches(self.1)
    }
}

impl<'a> Matching<FieldVtable> for &'a RawContent {
    open spec fn matches(&self, vtable: &FieldVtable) -> bool {
        field_matches(vtable@, self@)
    }

    fn check(&self, vtable: &FieldVtable) -> (r: bool) {
        vtable.matches(*self)
    }
}

impl<'a> Matching<FieldVtable> for &'a mut RawContent {
    open spec fn matches(&self, vtable: &FieldVtable) -> bool {
        field_matches(vtable@, self@)
    }

    fn check(&self, vtable: &FieldVtable) -> (r: bool) {
        vtable.matches(&**self)
    }
}

impl<'a> Matching<FieldVtable> for (&'a RawContent, &'a RawContent) {
    open spec fn matches(&self, vtable: &FieldVtable) -> bool {
        field_matches(vtable@, self.0@) && field_matches(vtable@, self.1@)
    }

    fn check(&self, vtable: &FieldVtable) -> (r: bool) {
        vtable.matches(self.0) && vtable.matches(self.1)
    }
}

/// Content together with the table of its own kind. Every handle that exists
/// holds matching content and table, so its operations ask for nothing more.
pub struct Handle<'a, T: Matching<V>, V>(T, &'a V);

/// A handle on an element table.
pub type ContentHandle<'a, T> = Handle<'a, T, ContentVtable>;

/// A handle on a field table.
pub type FieldHandle<'a, T> = Handle<'a, T, FieldVtable>;

impl<'a, T: Matching<V>, V> Handle<'a, T, V> {
    #[verifier::type_invariant]
    spec fn inv(self) -> bool {
        self.0.matches(self.1)
    }

    /// The content the handle holds.
    pub closed spec fn content(self) -> T {
        self.0
    }

    /// The table the handle holds.
    pub closed spec fn vtable(self) -> &'a V {
        self.1
    }

    /// Produces a handle from content and the table of its kind.
    pub fn new(content: T, vtable: &'a V) -> (h: Self)
        requires
            content.matches(vtable),
        ensures
            h.content() == content,
            h.vtable() == vtable,
    {
        Handle(content, vtable)
    }

    /// Produces a handle from content and a table if the two match, and
    /// hands the content back if they do not.
    pub fn checked(content: T, vtable: &'a V) -> (r: Result<Self, T>)
        ensures
            match r {
                Ok(h) => content.matches(vtable) && h.content() == content && h.vtable()
                    == vtable,
                Err(c) => !content.matches(vtable) && c == content,
            },
    {
        if content.check(vtable) {
            Ok(Handle(content, vtable))
        } else {
            Err(content)
        }
    }

    /// The table the handle holds.
    pub fn table(&self) -> (r: &'a V)
        ensures
            r == self.vtable(),
            self.content().matches(r),
    {
        proof {
            use_type_invariant(self);
        }
        self.1
    }
}

impl<'a, T: Matching<V>, V> core::ops::Deref for Handle<'a, T, V> {
    type Target = V;

    fn deref(&self) -> (r: &V)
        ensures
            r == self.vtable(),
    {
        self.1
    }
}


/// The user-facing text of a slot; an unset slot reads `none`.
pub open spec fn slot_text(slot: Option<ValueView>) -> Seq<char> {
    match slot {
        Some(v) => value_text(v),
        None => "none"@,
    }
}

/// The canonical form of a slot; an unset slot is the letter `n`.
pub open spec fn slot_code(slot: Option<ValueView>) -> Seq<char> {
    match slot {
        Some(v) => value_code(v),
        None => "n"@,
    }
}

/// The canonical form of a payload: the canonical forms of its slots, in
/// order. This is the text whose digest is the content hash.
pub open spec fn payload_code(slots: Seq<Option<ValueView>>) -> Seq<char>
    decreases slots.len(),
{
    if slots.len() == 0 {
        Seq::empty()
    } else {
        payload_code(slots.drop_last()) + slot_code(slots.last())
    }
}

/// The first `n` fields in debug form: `name: value`, separated by `", "`.
pub open spec fn debug_fields(
    fields: Seq<FieldView>,
    slots: Seq<Option<ValueView>>,
    n: nat,
) -> Seq<char>
    decreases n,
{
    if n == 0 {
        Seq::empty()
    } else {
        let i = (n - 1) as int;
        let separator = if i > 0 {
            ", "@
        } else {
            Seq::empty()
        };
        debug_fields(fields, slots, i as nat) + separator + fields[i].name + ": "@ + slot_text(
            slots[i],
        )
    }
}

/// The debug form of a record: the kind's name and every field in braces.
pub open spec fn debug_text(t: TableView, c: RawView) -> Seq<char> {
    t.name + " { "@ + debug_fields(t.fields, c.slots, t.fields.len()) + " }"@
}

/// Whether one of the first `n` slots is set.
pub open spec fn any_set(slots: Seq<Option<ValueView>>, n: nat) -> bool
    decreases n,
{
    n > 0 && (slots[n - 1] is Some || any_set(slots, (n - 1) as nat))
}

/// Those of the first `n` fields that are set, as `name: value`, separated
/// by `", "`.
pub open spec fn listed_fields(
    fields: Seq<FieldView>,
    slots: Seq<Option<ValueView>>,
    n: nat,
) -> Seq<char>
    decreases n,
{
    if n == 0 {
        Seq::empty()
    } else {
        let i = (n - 1) as int;
        let before = listed_fields(fields, slots, i as nat);
        match slots[i] {
            Some(v) => {
                let separator = if any_set(slots, i as nat) {
                    ", "@
                } else {
                    Seq::empty()
                };
                before + separator + fields[i].name + ": "@ + value_text(v)
            },
            None => before,
        }
    }
}

/// The plain textual representation of a record: the kind's name and the
/// fields that are set, in parentheses.
pub open spec fn plain_repr_text(t: TableView, c: RawView) -> Seq<char> {
    t.name + "("@ + listed_fields(t.fields, c.slots, t.fields.len()) + ")"@
}

/// The text of one piece of a kind's own representation.
pub open spec fn part_text(part: ReprPartView, slots: Seq<Option<ValueView>>) -> Seq<char> {
    match part {
        ReprPartView::Text(t) => t,
        ReprPartView::Field(id) => if id < slots.len() {
            match slots[id as int] {
                Some(v) => value_text(v),
                None => Seq::empty(),
            }
        } else {
            Seq::empty()
        },
    }
}

/// The text of a kind's own representation: its pieces, in order.
pub open spec fn parts_text(parts: Seq<ReprPartView>, slots: Seq<Option<ValueView>>) -> Seq<char>
    decreases parts.len(),
{
    if parts.len() == 0 {
        Seq::empty()
    } else {
        parts_text(parts.drop_last(), slots) + part_text(parts.last(), slots)
    }
}

/// The kind's own textual representation of a record, if the kind has one.
pub open spec fn repr_text(t: TableView, c: RawView) -> Option<Seq<char>> {
    match t.repr {
        Some(parts) => Some(parts_text(parts, c.slots)),
        None => None,
    }
}

/// The kind's own equality of two records, if the kind has one: the
/// payloads are equal.
pub open spec fn eq_value(t: TableView, a: RawView, b: RawView) -> Option<bool> {
    if t.partial_eq {
        Some(a.slots == b.slots)
    } else {
        None
    }
}

/// Whether two records agree on a field.
pub open spec fn field_eq(f: FieldView, a: RawView, b: RawView) -> bool {
    a.slots[f.id as int] == b.slots[f.id as int]
}

/// Whether two records agree on every field of the kind.
pub open spec fn fields_eq(t: TableView, a: RawView, b: RawView) -> bool {
    forall|i: int| 0 <= i < t.fields.len() ==> field_eq(#[trigger] t.fields[i], a, b)
}

/// The value of a field on a record, given styles: the record's value if
/// the field is set (folded with what the styles yield, for a settable field
/// that folds), else what the styles yield.
pub open spec fn field_value_with_styles(
    f: FieldView,
    c: RawView,
    chain: Seq<StyleView>,
) -> Option<ValueView> {
    match c.slots[f.id as int] {
        Some(v) => if f.roles.settable && f.fold {
            match styled(f, chain) {
                Some(outer) => Some(fold_values(v, outer)),
                None => Some(v),
            }
        } else {
            Some(v)
        },
        None => styled(f, chain),
    }
}

/// The record after the field was materialized: an unset field takes what
/// the styles yield, a set field stays as it is.
pub open spec fn materialized(f: FieldView, c: RawView, chain: Seq<StyleView>) -> RawView {
    if c.slots[f.id as int] is None {
        RawView { slots: c.slots.update(f.id as int, styled(f, chain)), ..c }
    } else {
        c
    }
}

impl<'a> ContentHandle<'a, &'a RawContent> {
    /// Provides access to the operations of the field with the given id.
    pub fn field(self, id: u8) -> (r: Option<FieldHandle<'a, &'a RawContent>>)
        ensures
            match r {
                Some(h) => id < self.vtable()@.fields.len() && h.content() == self.content()
                    && h.vtable()@ == self.vtable()@.fields[id as int],
                None => id >= self.vtable()@.fields.len(),
            },
    {
        proof {
            use_type_invariant(&self);
        }
        match self.1.field(id) {
            Some(vtable) => {
                proof {
                    lemma_fields_match(self.1@, self.0@, id as int);
                }
                Some(Handle(self.0, vtable))
            },
            None => None,
        }
    }

    /// Provides access to the operations of all fields, by field id.
    pub fn fields(self) -> (r: Vec<FieldHandle<'a, &'a RawContent>>)
        ensures
            r@.len() == self.vtable()@.fields.len(),
            forall|i: int|
                0 <= i < r@.len() ==> (#[trigger] r@[i]).content() == self.content()
                    && r@[i].vtable()@ == self.vtable()@.fields[i],
    {
        proof {
            use_type_invariant(&self);
        }
        let content = self.0;
        let tables = self.1.fields();
        let mut handles: Vec<FieldHandle<'a, &'a RawContent>> = Vec::new();
        let mut i: usize = 0;
        while i < tables.len()
            invariant
                i <= tables.len(),
                tables.deep_view() == self.1@.fields,
                self.1@.wf(),
                table_matches(self.1@, content@),
                handles@.len() == i,
                forall|k: int|
                    0 <= k < i ==> (#[trigger] handles@[k]).content() == content
                        && handles@[k].vtable()@ == self.1@.fields[k],
            decreases tables.len() - i,
        {
            proof {
                lemma_fields_match(self.1@, content@, i as int);
                assert(tables.deep_view()[i as int] == tables@[i as int]@);
            }
            handles.push(Handle(content, &tables[i]));
            i += 1;
        }
        handles
    }

    /// Writes the debug form of the record.
    pub fn debug(&self) -> (r: String)
        ensures
            r@ == debug_text(self.vtable()@, self.content()@),
    {
        proof {
            use_type_invariant(self);
        }
        let content = self.0;
        let tables = self.1.fields();
        let mut out = String::new();
        out.append(self.1.name());
        out.append(" { ");
        let ghost start = out@;
        let ghost fields = self.1@.fields;
        let ghost slots = content@.slots;
        let mut i: usize = 0;
        while i < tables.len()
            invariant
                i <= tables.len(),
                tables.deep_view() == fields,
                slots == content@.slots,
                slots.len() == fields.len(),
                out@ == start + debug_fields(fields, slots, i as nat),
            decreases tables.len() - i,
        {
            let ghost before = out@;
            if i > 0 {
                out.append(", ");
            }
            out.append(tables[i].name());
            out.append(": ");
            match content.slot(i) {
                Some(v) => {
                    v.push_text(&mut out);
                },
                None => {
                    out.append("none");
                },
            }
            proof {
                assert(tables.deep_view()[i as int] == tables@[i as int]@);
                assert(out@ =~= start + debug_fields(fields, slots, (i + 1) as nat));
            }
            i += 1;
        }
        out.append(" }");
        assert(out@ =~= debug_text(self.1@, content@));
        out
    }

    /// The kind's own textual representation of the record, if the kind has
    /// one.
    pub fn repr(&self) -> (r: Option<EcoString>)
        ensures
            match r {
                Some(text) => Some(eco_chars(text)) == repr_text(
                    self.vtable()@,
                    self.content()@,
                ),
                None => repr_text(self.vtable()@, self.content()@) is None,
            },
    {
        let content = self.0;
        match self.1.repr_parts() {
            None => None,
            Some(parts) => {
                let ghost all = parts.deep_view();
                let ghost slots = content@.slots;
                let mut out = String::new();
                let mut i: usize = 0;
                assert(all.take(0) =~= Seq::<ReprPartView>::empty());
                while i < parts.len()
                    invariant
                        i <= parts.len(),
                        all == parts.deep_view(),
                        slots == content@.slots,
                        out@ == parts_text(all.take(i as int), slots),
                    decreases parts.len() - i,
                {
                    match parts[i] {
                        ReprPart::Text(text) => {
                            out.append(text);
                        },
                        ReprPart::Field(id) => {
                            let index = id as usize;
                            if index < content.len() {
                                match content.slot(index) {
                                    Some(v) => {
                                        v.push_text(&mut out);
                                    },
                                    None => {},
                                }
                            }
                        },
                    }
                    proof {
                        let next = all.take(i + 1);
                        assert(next.drop_last() =~= all.take(i as int));
                        assert(next.last() == parts@[i as int].deep_view());
                        assert(out@ =~= parts_text(next, slots));
                    }
                    i += 1;
                }
                assert(all.take(i as int) =~= all);
                Some(eco_from_str(out.as_str()))
            },
        }
    }

    /// The plain textual representation of the record, which stands in where
    /// the kind has none of its own.
    pub fn plain_repr(&self) -> (r: EcoString)
        ensures
            eco_chars(r) == plain_repr_text(self.vtable()@, self.content()@),
    {
        proof {
            use_type_invariant(self);
        }
        let content = self.0;
        let tables = self.1.fields();
        let mut out = String::new();
        out.append(self.1.name());
        out.append("(");
        let ghost start = out@;
        let ghost fields = self.1@.fields;
        let ghost slots = content@.slots;
        let mut listed = false;
        let mut i: usize = 0;
        while i < tables.len()
            invariant
                i <= tables.len(),
                tables.deep_view() == fields,
                slots == content@.slots,
                slots.len() == fields.len(),
                listed == any_set(slots, i as nat),
                out@ == start + listed_fields(fields, slots, i as nat),
            decreases tables.len() - i,
        {
            match content.slot(i) {
                Some(v) => {
                    if listed {
                        out.append(", ");
                    }
                    out.append(tables[i].name());
                    out.append(": ");
                    v.push_text(&mut out);
                    listed = true;
                },
                None => {},
            }
            proof {
                assert(tables.deep_view()[i as int] == tables@[i as int]@);
                assert(out@ =~= start + listed_fields(fields, slots, (i + 1) as nat));
            }
            i += 1;
        }
        out.append(")");
        assert(out@ =~= plain_repr_text(self.1@, content@));
        eco_from_str(out.as_str())
    }

    /// Duplicates the record: a record of its own with an equal payload. The
    /// copy is one of the same kind, and equal to the record it was made from
    /// by the kind's own equality and field by field.
    pub fn clone(&self) -> (r: RawContent)
        ensures
            r@ == self.content()@,
            table_matches(self.vtable()@, r@),
            eq_value(self.vtable()@, self.content()@, r@) != Some(false),
            fields_eq(self.vtable()@, self.content()@, r@),
    {
        proof {
            use_type_invariant(self);
        }
        self.0.clone()
    }

    /// The 128-bit hash of the record's payload: the digest of its canonical
    /// form. It does not depend on the record's identity or on where the
    /// record lives.
    pub fn hash(&self) -> (r: u128)
        ensures
            r == siphash128(payload_code(self.content()@.slots)),
    {
        let content = self.0;
        let ghost slots = content@.slots;
        let mut out = String::new();
        let mut i: usize = 0;
        assert(slots.take(0) =~= Seq::<Option<ValueView>>::empty());
        let n = content.len();
        while i < n
            invariant
                i <= n,
                n == slots.len(),
                slots == content@.slots,
                out@ == payload_code(slots.take(i as int)),
            decreases n - i,
        {
            match content.slot(i) {
                Some(v) => {
                    v.push_code(&mut out);
                },
                None => {
                    out.append("n");
                },
            }
            proof {
                let next = slots.take(i + 1);
                assert(next.drop_last() =~= slots.take(i as int));
                assert(next.last() == slots[i as int]);
            }
            i += 1;
        }
        assert(slots.take(i as int) =~= slots);
        hash128_of(out.as_str())
    }
}


impl<'a> ContentHandle<'a, &'a mut RawContent> {
    /// Provides access to the operations of the field with the given id.
    pub fn field(self, id: u8) -> (r: Option<FieldHandle<'a, &'a mut RawContent>>)
        ensures
            r is Some <==> id < self.vtable()@.fields.len(),
            r matches Some(h) ==> *h.content() == *self.content() && *final(h.content())
                == *final(self.content()) && h.vtable()@ == self.vtable()@.fields[id as int],
            r is None ==> *final(self.content()) == *self.content(),
    {
        proof {
            use_type_invariant(&self);
        }
        let Handle(content, table) = self;
        match table.field(id) {
            Some(vtable) => {
                proof {
                    lemma_fields_match(table@, content@, id as int);
                }
                Some(Handle(content, vtable))
            },
            None => None,
        }
    }

    /// Destroys the record: its payload is given up, and the record matches
    /// no table from then on.
    pub fn drop(self)
        ensures
            final(self.content())@ == (RawView {
                elem: self.content()@.elem,
                live: false,
                slots: Seq::empty(),
            }),
    {
        let Handle(content, _) = self;
        content.release();
    }
}

fn same_payload(a: &RawContent, b: &RawContent) -> (r: bool)
    ensures
        r == (a@.slots == b@.slots),
{
    let n = a.len();
    if n != b.len() {
        return false;
    }
    let mut i: usize = 0;
    while i < n
        invariant
            i <= n,
            n == a@.slots.len(),
            n == b@.slots.len(),
            forall|k: int| 0 <= k < i ==> a@.slots[k] == b@.slots[k],
        decreases n - i,
    {
        if !same_slot(a.slot(i), b.slot(i)) {
            return false;
        }
        i += 1;
    }
    assert(a@.slots =~= b@.slots);
    true
}

impl<'a> ContentHandle<'a, (&'a RawContent, &'a RawContent)> {
    /// Provides access to the operations of the field with the given id.
    pub fn field(self, id: u8) -> (r: Option<FieldHandle<'a, (&'a RawContent, &'a RawContent)>>)
        ensures
            match r {
                Some(h) => id < self.vtable()@.fields.len() && h.content() == self.content()
                    && h.vtable()@ == self.vtable()@.fields[id as int],
                None => id >= self.vtable()@.fields.len(),
            },
    {
        proof {
            use_type_invariant(&self);
        }
        match self.1.field(id) {
            Some(vtable) => {
                proof {
                    lemma_fields_match(self.1@, self.0.0@, id as int);
                    lemma_fields_match(self.1@, self.0.1@, id as int);
                }
                Some(Handle(self.0, vtable))
            },
            None => None,
        }
    }

    /// Provides access to the operations of all fields, by field id.
    pub fn fields(self) -> (r: Vec<FieldHandle<'a, (&'a RawContent, &'a RawContent)>>)
        ensures
            r@.len() == self.vtable()@.fields.len(),
            forall|i: int|
                0 <= i < r@.len() ==> (#[trigger] r@[i]).content() == self.content()
                    && r@[i].vtable()@ == self.vtable()@.fields[i],
    {
        proof {
            use_type_invariant(&self);
        }
        let content = self.0;
        let tables = self.1.fields();
        let mut handles: Vec<FieldHandle<'a, (&'a RawContent, &'a RawContent)>> = Vec::new();
        let mut i: usize = 0;
        while i < tables.len()
            invariant
                i <= tables.len(),
                tables.deep_view() == self.1@.fields,
                self.1@.wf(),
                table_matches(self.1@, content.0@),
                table_matches(self.1@, content.1@),
                handles@.len() == i,
                forall|k: int|
                    0 <= k < i ==> (#[trigger] handles@[k]).content() == content
                        && handles@[k].vtable()@ == self.1@.fields[k],
            decreases tables.len() - i,
        {
            proof {
                lemma_fields_match(self.1@, content.0@, i as int);
                lemma_fields_match(self.1@, content.1@, i as int);
                assert(tables.deep_view()[i as int] == tables@[i as int]@);
            }
            handles.push(Handle(content, &tables[i]));
            i += 1;
        }
        handles
    }

    /// Compares the two records by the kind's own equality, if the kind has
    /// one. Where it has none, the records are to be compared field by
    /// field: see [`Self::eq_fields`].
    pub fn eq(&self) -> (r: Option<bool>)
        ensures
            r == eq_value(self.vtable()@, self.content().0@, self.content().1@),
    {
        if self.1.has_partial_eq() {
            Some(same_payload(self.0.0, self.0.1))
        } else {
            None
        }
    }

    /// Compares the two records field by field, with the equality of each
    /// field table.
    pub fn eq_fields(&self) -> (r: bool)
        ensures
            r == fields_eq(self.vtable()@, self.content().0@, self.content().1@),
    {
        proof {
            use_type_invariant(self);
        }
        let content = self.0;
        let tables = self.1.fields();
        let ghost t = self.1@;
        let mut i: usize = 0;
        while i < tables.len()
            invariant
                i <= tables.len(),
                tables.deep_view() == t.fields,
                t.wf(),
                t == self.1@,
                content == self.0,
                table_matches(t, content.0@),
                table_matches(t, content.1@),
                forall|k: int|
                    0 <= k < i ==> field_eq(#[trigger] t.fields[k], content.0@, content.1@),
            decreases tables.len() - i,
        {
            proof {
                lemma_fields_match(t, content.0@, i as int);
                lemma_fields_match(t, content.1@, i as int);
                assert(tables.deep_view()[i as int] == tables@[i as int]@);
            }
            let field: FieldHandle<'_, (&RawContent, &RawContent)> = Handle(content, &tables[i]);
            if !field.eq() {
                return false;
            }
            i += 1;
        }
        true
    }
}

impl<'a> FieldHandle<'a, &'a RawContent> {
    /// Whether the field is set on the record. A required field always is.
    pub fn has(&self) -> (r: bool)
        ensures
            r == self.content()@.slots[self.vtable()@.id as int] is Some,
            self.vtable()@.roles.required ==> r,
    {
        proof {
            use_type_invariant(self);
        }
        self.0.slot(self.1.id() as usize).is_some()
    }

    /// Retrieves the field's value from the record.
    pub fn get(&self) -> (r: Option<Value>)
        ensures
            r.deep_view() == self.content()@.slots[self.vtable()@.id as int],
    {
        proof {
            use_type_invariant(self);
        }
        copy_slot(self.0.slot(self.1.id() as usize))
    }

    /// Retrieves the field's value given styles. The value may come from the
    /// record, from the styles, or from both for a field that folds.
    pub fn get_with_styles(&self, styles: &StyleChain) -> (r: Option<Value>)
        ensures
            r.deep_view() == field_value_with_styles(
                self.vtable()@,
                self.content()@,
                styles@,
            ),
    {
        proof {
            use_type_invariant(self);
        }
        let field = self.1;
        match self.0.slot(field.id() as usize) {
            Some(v) => {
                let own = v.clone();
                if field.roles().settable && field.folds() {
                    match field.get_from_styles(styles) {
                        Some(outer) => Some(own.fold(outer)),
                        None => Some(own),
                    }
                } else {
                    Some(own)
                }
            },
            None => field.get_from_styles(styles),
        }
    }
}

impl<'a> FieldHandle<'a, &'a mut RawContent> {
    /// Sets the field from the styles if it is unset; leaves the record as it
    /// is otherwise.
    pub fn materialize(self, styles: &StyleChain)
        ensures
            final(self.content())@ == materialized(self.vtable()@, self.content()@, styles@),
            field_matches(self.vtable()@, final(self.content())@),
    {
        proof {
            use_type_invariant(&self);
        }
        let Handle(content, field) = self;
        let index = field.id() as usize;
        if content.slot(index).is_none() {
            let value = field.get_from_styles(styles);
            content.put(index, value);
        }
    }
}

impl<'a> FieldHandle<'a, (&'a RawContent, &'a RawContent)> {
    /// Compares the field of the two records for equality.
    pub fn eq(&self) -> (r: bool)
        ensures
            r == field_eq(self.vtable()@, self.content().0@, self.content().1@),
    {
        proof {
            use_type_invariant(self);
        }
        let index = self.1.id() as usize;
        same_slot(self.0.0.slot(index), self.0.1.slot(index))
    }
}


/// Two records with equal payloads are equal, by the kind's own equality
/// where it has one and field by field in any case, and have the same hash.
pub proof fn lemma_equal_records(t: TableView, a: RawView, b: RawView)
    requires
        a.slots == b.slots,
    ensures
        eq_value(t, a, b) != Some(false),
        fields_eq(t, a, b),
        siphash128(payload_code(a.slots)) == siphash128(payload_code(b.slots)),
{
}

/// Where the kind has an equality of its own, comparing field by field
/// gives the same answer for records of the kind.
pub proof fn lemma_eq_agrees(t: TableView, a: RawView, b: RawView)
    requires
        t.wf(),
        table_matches(t, a),
        table_matches(t, b),
    ensures
        eq_value(t, a, b) matches Some(equal) ==> equal == fields_eq(t, a, b),
{
    if fields_eq(t, a, b) {
        assert forall|i: int| 0 <= i < a.slots.len() implies a.slots[i] == b.slots[i] by {
            assert(field_eq(t.fields[i], a, b));
        }
        assert(a.slots =~= b.slots);
    }
}

/// A settable field with a default that does not fold is unset until it is
/// materialized (or set outright) and set from then on. Its value is then
/// the record's own if the record had one, else that of the innermost style
/// for the field, else the default.
pub proof fn lemma_materialize_get(f: FieldView, c: RawView, chain: Seq<StyleView>)
    requires
        field_matches(f, c),
        f.roles.settable,
        !f.fold,
        f.default is Some,
    ensures
        materialized(f, c, chain).slots[f.id as int] == Some(
            match c.slots[f.id as int] {
                Some(own) => own,
                None => match innermost(chain, f.elem, f.id) {
                    Some(style) => style,
                    None => f.default->Some_0,
                },
            },
        ),
        field_value_with_styles(f, c, chain) == materialized(f, c, chain).slots[f.id as int],
        field_matches(f, materialized(f, c, chain)),
{
    lemma_chain_value_plain(chain, f.elem, f.id, f.default);
}

/// Materializing a field keeps a record one of its kind, and touches no
/// other field.
pub proof fn lemma_materialize_keeps_kind(t: TableView, c: RawView, i: int, chain: Seq<StyleView>)
    requires
        t.wf(),
        table_matches(t, c),
        0 <= i < t.fields.len(),
    ensures
        table_matches(t, materialized(t.fields[i], c, chain)),
        forall|j: int|
            0 <= j < c.slots.len() && j != i ==> materialized(t.fields[i], c, chain).slots[j]
                == c.slots[j],
{
}

/// A settable field that folds and has no default, read with styles on a
/// record that leaves it unset, under two nested layers that each contribute
/// a list: the result is both lists, the outer layer's items first.
pub proof fn lemma_fold_reads_both_layers(
    f: FieldView,
    c: RawView,
    outer: StyleView,
    inner: StyleView,
)
    requires
        field_matches(f, c),
        f.roles.settable,
        f.fold,
        f.default is None,
        c.slots[f.id as int] is None,
        outer.elem == f.elem && outer.id == f.id,
        inner.elem == f.elem && inner.id == f.id,
        outer.value is Array,
        inner.value is Array,
    ensures
        field_value_with_styles(f, c, seq![outer, inner]) == Some(
            ValueView::Array(outer.value->Array_0 + inner.value->Array_0),
        ),
{
    lemma_two_layers_fold(outer, inner, f.elem, f.id);
}

} // verus!
