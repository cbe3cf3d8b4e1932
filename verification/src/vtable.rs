//! Descriptor tables: one per element kind and one per field.

use crate::hooks::{Args, Diagnostic, NativeElement, Packed};
use crate::raw::{Element, RawContent, RawView};
use crate::styles::{chain_value, Style, StyleChain, StyleView};
use crate::text::str_eq;
use crate::value::{copy_slot, lemma_deep_view_push, Value, ValueView};
use std::marker::PhantomData;
use vstd::prelude::*;

verus! {

/// The roles of a field's parameter. They are metadata for argument binding
/// and documentation; only `required` and `settable` bear on the field
/// operations.
#[derive(Clone, Copy, Debug, PartialEq, Eq, Structural)]
pub struct Roles {
    /// Whether the parameter is positional.
    pub positional: bool,
    /// Whether the parameter is variadic.
    pub variadic: bool,
    /// Whether the parameter is required. A required field is set on every
    /// record of its kind.
    pub required: bool,
    /// Whether the field can be set by a set rule, and so be resolved against
    /// a style chain.
    pub settable: bool,
    /// Whether the field is synthesized, that is, unset at first.
    pub synthesized: bool,
}

/// What a [`FieldVtable`] holds, as mathematics.
pub struct FieldView {
    pub name: Seq<char>,
    pub docs: Seq<char>,
    pub roles: Roles,
    /// Whether values of the field fold with those of enclosing layers.
    pub fold: bool,
    /// A description of the types the field accepts.
    pub input: Seq<char>,
    /// The field's default value, if it has one.
    pub default: Option<ValueView>,
    /// The element kind the field belongs to.
    pub elem: Element,
    /// The field's index among the fields of its kind.
    pub id: u8,
}

/// The table of one field of one element kind: its metadata and the data that
/// drives the field operations.
#[derive(Debug)]
pub struct FieldVtable<T = RawContent> {
    name: &'static str,
    docs: &'static str,
    roles: Roles,
    fold: bool,
    input: &'static str,
    default: Option<Value>,
    elem: Element,
    id: u8,
    marker: PhantomData<T>,
}

impl<T> View for FieldVtable<T> {
    type V = FieldView;

    closed spec fn view(&self) -> FieldView {
        FieldView {
            name: self.name@,
            docs: self.docs@,
            roles: self.roles,
            fold: self.fold,
            input: self.input@,
            default: self.default.deep_view(),
            elem: self.elem,
            id: self.id,
        }
    }
}

impl<T> DeepView for FieldVtable<T> {
    type V = FieldView;

    open spec fn deep_view(&self) -> FieldView {
        self@
    }
}

/// The value that a style chain alone yields for a field: nothing unless the
/// field is settable, else the chain's value on top of the field's default.
pub open spec fn styled(f: FieldView, chain: Seq<StyleView>) -> Option<ValueView> {
    if f.roles.settable {
        chain_value(chain, f.elem, f.id, f.fold, f.default)
    } else {
        None
    }
}

impl<T> FieldVtable<T> {
    /// Describes a field. The field is bound to its element kind and given
    /// its index when the kind's table is built.
    pub fn new(
        name: &'static str,
        docs: &'static str,
        roles: Roles,
        fold: bool,
        input: &'static str,
        default: Option<Value>,
    ) -> (r: FieldVtable<T>)
        ensures
            r@ == (FieldView {
                name: name@,
                docs: docs@,
                roles,
                fold,
                input: input@,
                default: default.deep_view(),
                elem: Element(0),
                id: 0,
            }),
    {
        FieldVtable {
            name,
            docs,
            roles,
            fold,
            input,
            default,
            elem: Element(0),
            id: 0,
            marker: PhantomData,
        }
    }

    /// The same description for another record type, bound to `elem` at the
    /// index `id`.
    pub(crate) fn rebound<U>(&self, elem: Element, id: u8) -> (r: FieldVtable<U>)
        ensures
            r@ == (FieldView { elem, id, ..self@ }),
    {
        FieldVtable {
            name: self.name,
            docs: self.docs,
            roles: self.roles,
            fold: self.fold,
            input: self.input,
            default: copy_slot(&self.default),
            elem,
            id,
            marker: PhantomData,
        }
    }

    /// The field's name, as in code.
    pub fn name(&self) -> (r: &'static str)
        ensures
            r@ == self@.name,
    {
        self.name
    }

    /// The field's documentation.
    pub fn docs(&self) -> (r: &'static str)
        ensures
            r@ == self@.docs,
    {
        self.docs
    }

    /// The roles of the field's parameter.
    pub fn roles(&self) -> (r: Roles)
        ensures
            r == self@.roles,
    {
        self.roles
    }

    /// Whether values of the field fold.
    pub fn folds(&self) -> (r: bool)
        ensures
            r == self@.fold,
    {
        self.fold
    }

    /// A description of the types the field accepts.
    pub fn input(&self) -> (r: &'static str)
        ensures
            r@ == self@.input,
    {
        self.input
    }

    /// The field's default value, if it has one.
    pub fn default(&self) -> (r: Option<Value>)
        ensures
            r.deep_view() == self@.default,
    {
        copy_slot(&self.default)
    }

    /// The element kind the field belongs to.
    pub fn elem(&self) -> (r: Element)
        ensures
            r == self@.elem,
    {
        self.elem
    }

    /// The field's index among the fields of its kind.
    pub fn id(&self) -> (r: u8)
        ensures
            r == self@.id,
    {
        self.id
    }
}

impl FieldVtable {
    /// Retrieves the field from the styles alone.
    pub fn get_from_styles(&self, styles: &StyleChain) -> (r: Option<Value>)
        ensures
            r.deep_view() == styled(self@, styles@),
    {
        if self.roles.settable {
            styles.resolve(self.elem, self.id, self.fold, &self.default)
        } else {
            None
        }
    }
}


/// One capability of an element kind: the identifier of an optional
/// interface and the place of the kind's implementation of it.
#[derive(Clone, Copy, Debug, PartialEq, Eq, Structural)]
pub struct Capability {
    /// The identifier of the interface.
    pub id: u64,
    /// Where the implementation is found, as an index into the table of
    /// implementations that the caller keeps.
    pub target: usize,
}

impl DeepView for Capability {
    type V = Capability;

    open spec fn deep_view(&self) -> Capability {
        *self
    }
}

/// One piece of a kind's own textual representation.
#[derive(Clone, Copy, Debug)]
pub enum ReprPart {
    /// Literal text.
    Text(&'static str),
    /// The text of the field with this index, or nothing if it is unset.
    Field(u8),
}

/// What a [`ReprPart`] holds, as mathematics.
pub enum ReprPartView {
    Text(Seq<char>),
    Field(u8),
}

impl DeepView for ReprPart {
    type V = ReprPartView;

    open spec fn deep_view(&self) -> ReprPartView {
        match self {
            ReprPart::Text(t) => ReprPartView::Text(t@),
            ReprPart::Field(id) => ReprPartView::Field(*id),
        }
    }
}

/// The name of an element kind in one language, or one language and region.
#[derive(Clone, Copy, Debug)]
pub struct LocalName {
    /// The language code.
    pub lang: &'static str,
    /// The region code, if the name is particular to a region.
    pub region: Option<&'static str>,
    /// The name.
    pub name: &'static str,
}

/// What a [`LocalName`] holds, as mathematics.
pub struct LocalNameView {
    pub lang: Seq<char>,
    pub region: Option<Seq<char>>,
    pub name: Seq<char>,
}

impl DeepView for LocalName {
    type V = LocalNameView;

    open spec fn deep_view(&self) -> LocalNameView {
        LocalNameView {
            lang: self.lang@,
            region: match self.region {
                Some(r) => Some(r@),
                None => None,
            },
            name: self.name@,
        }
    }
}

/// One named value of an element kind's scope.
#[derive(Debug)]
pub struct Binding {
    /// The name.
    pub name: &'static str,
    /// The value bound to it.
    pub value: Value,
}

/// What a [`Binding`] holds, as mathematics.
pub struct BindingView {
    pub name: Seq<char>,
    pub value: ValueView,
}

impl DeepView for Binding {
    type V = BindingView;

    open spec fn deep_view(&self) -> BindingView {
        BindingView { name: self.name@, value: self.value@ }
    }
}

/// What a [`ContentVtable`] holds, as mathematics. The hooks of the kind are
/// code and have no part in it.
pub struct TableView {
    /// The identity of the element kind.
    pub elem: Element,
    pub name: Seq<char>,
    pub title: Seq<char>,
    pub docs: Seq<char>,
    pub keywords: Seq<Seq<char>>,
    /// The field tables, by field id.
    pub fields: Seq<FieldView>,
    pub capabilities: Seq<Capability>,
    /// Whether the kind has an equality of its own.
    pub partial_eq: bool,
    /// The kind's own textual representation, if it has one.
    pub repr: Option<Seq<ReprPartView>>,
    /// The kind's localized names, if it has any.
    pub local_names: Option<Seq<LocalNameView>>,
    pub scope: Seq<BindingView>,
}

impl TableView {
    /// Every field table is bound to the table's element kind and sits at
    /// its own index, which fits a field id.
    pub open spec fn wf(self) -> bool {
        &&& self.fields.len() <= 256
        &&& forall|i: int|
            0 <= i < self.fields.len() ==> (#[trigger] self.fields[i]).id == i
                && self.fields[i].elem == self.elem
    }
}

/// The given field descriptions, bound to `elem` and numbered in order.
pub open spec fn bound_fields(fields: Seq<FieldView>, elem: Element) -> Seq<FieldView> {
    Seq::new(fields.len(), |i: int| FieldView { elem, id: i as u8, ..fields[i] })
}

/// The table of one element kind: its identity and metadata, the tables of
/// its fields, and the data that drives the operations on its records.
///
/// A table over `Packed<E>` is typed; the table over [`RawContent`] is the
/// erased form that records are operated on with.
pub struct ContentVtable<T = RawContent> {
    elem: Element,
    name: &'static str,
    title: &'static str,
    docs: &'static str,
    keywords: Vec<&'static str>,
    fields: Vec<FieldVtable<T>>,
    capabilities: Vec<Capability>,
    partial_eq: bool,
    repr: Option<Vec<ReprPart>>,
    local_names: Option<Vec<LocalName>>,
    scope: Vec<Binding>,
    hooks: Box<dyn NativeElement>,
}

impl<T> View for ContentVtable<T> {
    type V = TableView;

    closed spec fn view(&self) -> TableView {
        TableView {
            elem: self.elem,
            name: self.name@,
            title: self.title@,
            docs: self.docs@,
            keywords: self.keywords.deep_view(),
            fields: self.fields.deep_view(),
            capabilities: self.capabilities.deep_view(),
            partial_eq: self.partial_eq,
            repr: self.repr.deep_view(),
            local_names: self.local_names.deep_view(),
            scope: self.scope.deep_view(),
        }
    }
}

impl<T> DeepView for ContentVtable<T> {
    type V = TableView;

    open spec fn deep_view(&self) -> TableView {
        self@
    }
}

impl<T> ContentVtable<T> {
    #[verifier::type_invariant]
    spec fn inv(self) -> bool {
        self@.wf()
    }

    /// The identity of the element kind.
    pub fn elem(&self) -> (r: Element)
        ensures
            r == self@.elem,
    {
        self.elem
    }

    /// The kind's name, as in code.
    pub fn name(&self) -> (r: &'static str)
        ensures
            r@ == self@.name,
    {
        self.name
    }

    /// The kind's title-cased name.
    pub fn title(&self) -> (r: &'static str)
        ensures
            r@ == self@.title,
    {
        self.title
    }

    /// The kind's documentation.
    pub fn docs(&self) -> (r: &'static str)
        ensures
            r@ == self@.docs,
    {
        self.docs
    }

    /// Search keywords for the documentation.
    pub fn keywords(&self) -> (r: &Vec<&'static str>)
        ensures
            r.deep_view() == self@.keywords,
    {
        &self.keywords
    }

    /// The tables of all fields, by field id.
    pub fn fields(&self) -> (r: &Vec<FieldVtable<T>>)
        ensures
            r.deep_view() == self@.fields,
            self@.wf(),
    {
        proof {
            use_type_invariant(self);
        }
        &self.fields
    }

    /// The named values of the kind's scope.
    pub fn scope(&self) -> (r: &Vec<Binding>)
        ensures
            r.deep_view() == self@.scope,
    {
        &self.scope
    }

    /// Whether the kind has an equality of its own.
    pub fn has_partial_eq(&self) -> (r: bool)
        ensures
            r == self@.partial_eq,
    {
        self.partial_eq
    }

    /// The pieces of the kind's own textual representation, if it has one.
    pub fn repr_parts(&self) -> (r: &Option<Vec<ReprPart>>)
        ensures
            r.deep_view() == self@.repr,
    {
        &self.repr
    }

    /// Retrieves the table of the field with the given id.
    pub fn field(&self, id: u8) -> (r: Option<&FieldVtable<T>>)
        ensures
            self@.wf(),
            match r {
                Some(f) => id < self@.fields.len() && f@ == self@.fields[id as int],
                None => id >= self@.fields.len(),
            },
    {
        proof {
            use_type_invariant(self);
        }
        let index = id as usize;
        if index < self.fields.len() {
            Some(&self.fields[index])
        } else {
            None
        }
    }
}

impl ContentVtable {
    /// Creates the typed table of an element kind. The field descriptions are
    /// bound to the kind and numbered in order. The kind starts out without
    /// keywords, without an equality, a textual representation or localized
    /// names of its own, and with an empty scope.
    pub fn new<E: NativeElement + 'static>(
        hooks: E,
        elem: Element,
        name: &'static str,
        title: &'static str,
        docs: &'static str,
        fields: Vec<FieldVtable<Packed<E>>>,
        capabilities: Vec<Capability>,
    ) -> (r: ContentVtable<Packed<E>>)
        requires
            fields@.len() <= 256,
        ensures
            r@ == (TableView {
                elem,
                name: name@,
                title: title@,
                docs: docs@,
                keywords: Seq::empty(),
                fields: bound_fields(fields.deep_view(), elem),
                capabilities: capabilities.deep_view(),
                partial_eq: false,
                repr: None,
                local_names: None,
                scope: Seq::empty(),
            }),
            r@.wf(),
    {
        let ghost wanted = bound_fields(fields.deep_view(), elem);
        let mut bound: Vec<FieldVtable<Packed<E>>> = Vec::new();
        let mut i: usize = 0;
        assert(bound.deep_view() =~= wanted.take(0));
        while i < fields.len()
            invariant
                i <= fields.len() <= 256,
                wanted == bound_fields(fields.deep_view(), elem),
                bound.deep_view() == wanted.take(i as int),
            decreases fields.len() - i,
        {
            let ghost before = bound;
            let field = fields[i].rebound::<Packed<E>>(elem, i as u8);
            bound.push(field);
            proof {
                lemma_deep_view_push(before, bound, field);
                assert(wanted.take(i + 1) =~= wanted.take(i as int).push(wanted[i as int]));
            }
            i += 1;
        }
        assert(wanted.take(i as int) =~= wanted);
        let keywords: Vec<&'static str> = Vec::new();
        let scope: Vec<Binding> = Vec::new();
        assert(keywords.deep_view() =~= Seq::empty());
        assert(scope.deep_view() =~= Seq::empty());
        ContentVtable {
            elem,
            name,
            title,
            docs,
            keywords,
            fields: bound,
            capabilities,
            partial_eq: false,
            repr: None,
            local_names: None,
            scope,
            hooks: Box::new(hooks),
        }
    }
}

impl<E: NativeElement> ContentVtable<Packed<E>> {
    /// Attaches search keywords for the documentation.
    pub fn with_keywords(self, keywords: Vec<&'static str>) -> (r: Self)
        ensures
            r@ == (TableView { keywords: keywords.deep_view(), ..self@ }),
    {
        proof {
            use_type_invariant(&self);
        }
        let mut table = self;
        table.keywords = keywords;
        table
    }

    /// Gives the kind a textual representation of its own, made of `parts`.
    pub fn with_repr(self, parts: Vec<ReprPart>) -> (r: Self)
        ensures
            r@ == (TableView { repr: Some(parts.deep_view()), ..self@ }),
    {
        proof {
            use_type_invariant(&self);
        }
        let mut table = self;
        table.repr = Some(parts);
        table
    }

    /// Gives the kind an equality of its own: two records are equal when
    /// their payloads are.
    pub fn with_partial_eq(self) -> (r: Self)
        ensures
            r@ == (TableView { partial_eq: true, ..self@ }),
    {
        proof {
            use_type_invariant(&self);
        }
        let mut table = self;
        table.partial_eq = true;
        table
    }

    /// Gives the kind localized names.
    pub fn with_local_name(self, names: Vec<LocalName>) -> (r: Self)
        ensures
            r@ == (TableView { local_names: Some(names.deep_view()), ..self@ }),
    {
        proof {
            use_type_invariant(&self);
        }
        let mut table = self;
        table.local_names = Some(names);
        table
    }

    /// Gives the kind a scope of named values.
    pub fn with_scope(self, scope: Vec<Binding>) -> (r: Self)
        ensures
            r@ == (TableView { scope: scope.deep_view(), ..self@ }),
    {
        proof {
            use_type_invariant(&self);
        }
        let mut table = self;
        table.scope = scope;
        table
    }

    /// Type-erases the table. Nothing but the record type changes: the
    /// erased table holds what the typed one held, and the same hooks.
    pub fn erase(self) -> (r: ContentVtable)
        ensures
            r@ == self@,
            r@.wf(),
    {
        proof {
            use_type_invariant(&self);
        }
        let ghost wanted = self.fields.deep_view();
        let mut erased: Vec<FieldVtable> = Vec::new();
        let mut i: usize = 0;
        assert(erased.deep_view() =~= wanted.take(0));
        while i < self.fields.len()
            invariant
                i <= self.fields.len(),
                wanted == self.fields.deep_view(),
                erased.deep_view() == wanted.take(i as int),
            decreases self.fields.len() - i,
        {
            let ghost before = erased;
            let source = &self.fields[i];
            let field = source.rebound::<RawContent>(source.elem, source.id);
            erased.push(field);
            proof {
                lemma_deep_view_push(before, erased, field);
                assert(wanted.take(i + 1) =~= wanted.take(i as int).push(wanted[i as int]));
            }
            i += 1;
        }
        assert(wanted.take(i as int) =~= wanted);
        ContentVtable {
            elem: self.elem,
            name: self.name,
            title: self.title,
            docs: self.docs,
            keywords: self.keywords,
            fields: erased,
            capabilities: self.capabilities,
            partial_eq: self.partial_eq,
            repr: self.repr,
            local_names: self.local_names,
            scope: self.scope,
            hooks: self.hooks,
        }
    }
}


/// Whether `i` is the index of the first field called `name`.
pub open spec fn is_first_field(fields: Seq<FieldView>, name: Seq<char>, i: int) -> bool {
    &&& 0 <= i < fields.len()
    &&& fields[i].name == name
    &&& forall|j: int| 0 <= j < i ==> (#[trigger] fields[j]).name != name
}

/// Where the kind's implementation of the capability `id` is found: the
/// target of the first entry for `id`, if there is one.
pub open spec fn capability_of(capabilities: Seq<Capability>, id: u64) -> Option<usize>
    decreases capabilities.len(),
{
    if capabilities.len() == 0 {
        None
    } else if capabilities[0].id == id {
        Some(capabilities[0].target)
    } else {
        capability_of(capabilities.drop_first(), id)
    }
}

/// The name of the first entry for exactly this language and region.
pub open spec fn first_local_name(
    names: Seq<LocalNameView>,
    lang: Seq<char>,
    region: Option<Seq<char>>,
) -> Option<Seq<char>>
    decreases names.len(),
{
    if names.len() == 0 {
        None
    } else if names[0].lang == lang && names[0].region == region {
        Some(names[0].name)
    } else {
        first_local_name(names.drop_first(), lang, region)
    }
}

/// The kind's name in a language and region: nothing if the kind has no
/// localized names; else the name for the language and region, else the name
/// for the language alone, else the kind's title.
pub open spec fn local_name_of(t: TableView, lang: Seq<char>, region: Option<Seq<char>>) -> Option<
    Seq<char>,
> {
    match t.local_names {
        None => None,
        Some(names) => match first_local_name(names, lang, region) {
            Some(name) => Some(name),
            None => match first_local_name(names, lang, None) {
                Some(name) => Some(name),
                None => Some(t.title),
            },
        },
    }
}

/// Whether a record is one of the table's kind: it is live, carries the
/// kind's identity, has one slot per field, and has every required field set.
pub open spec fn table_matches(t: TableView, c: RawView) -> bool {
    &&& c.live
    &&& c.elem == t.elem
    &&& c.slots.len() == t.fields.len()
    &&& forall|i: int|
        0 <= i < t.fields.len() && (#[trigger] t.fields[i]).roles.required ==> c.slots[i] is Some
}

/// Whether a record can carry the field: it is live, carries the identity of
/// the field's kind, has a slot for the field, and has it set if the field is
/// required.
pub open spec fn field_matches(f: FieldView, c: RawView) -> bool {
    &&& c.live
    &&& c.elem == f.elem
    &&& f.id < c.slots.len()
    &&& f.roles.required ==> c.slots[f.id as int] is Some
}

/// Whether styles are all for settable fields of the table's kind.
pub open spec fn styles_match(t: TableView, styles: Seq<StyleView>) -> bool {
    forall|k: int|
        0 <= k < styles.len() ==> (#[trigger] styles[k]).elem == t.elem && styles[k].id
            < t.fields.len() && t.fields[styles[k].id as int].roles.settable
}

/// A record of a kind can carry every field of that kind.
pub proof fn lemma_fields_match(t: TableView, c: RawView, i: int)
    requires
        t.wf(),
        table_matches(t, c),
        0 <= i < t.fields.len(),
    ensures
        field_matches(t.fields[i], c),
{
}

/// A capability that no entry implements is absent, and only such a one.
pub proof fn lemma_capability_absent(capabilities: Seq<Capability>, id: u64)
    ensures
        capability_of(capabilities, id) is None <==> forall|k: int|
            0 <= k < capabilities.len() ==> (#[trigger] capabilities[k]).id != id,
    decreases capabilities.len(),
{
    if capabilities.len() > 0 {
        let rest = capabilities.drop_first();
        lemma_capability_absent(rest, id);
        if capabilities[0].id != id {
            if capability_of(capabilities, id) is None {
                assert forall|k: int| 0 <= k < capabilities.len() implies (
                #[trigger] capabilities[k]).id != id by {
                    if k > 0 {
                        assert(rest[k - 1] == capabilities[k]);
                    }
                }
            } else {
                let k = choose|k: int| 0 <= k < rest.len() && (#[trigger] rest[k]).id == id;
                assert(capabilities[k + 1] == rest[k]);
            }
        }
    }
}

fn same_region(a: Option<&'static str>, b: Option<&str>) -> (r: bool)
    ensures
        r == (a.deep_view() == b.deep_view()),
{
    match (a, b) {
        (Some(x), Some(y)) => str_eq(x, y),
        (None, None) => true,
        _ => false,
    }
}

fn find_local_name(names: &Vec<LocalName>, lang: &str, region: Option<&str>) -> (r: Option<
    &'static str,
>)
    ensures
        r.deep_view() == first_local_name(names.deep_view(), lang@, region.deep_view()),
{
    let ghost all = names.deep_view();
    let mut i: usize = 0;
    assert(all.skip(0) =~= all);
    while i < names.len()
        invariant
            i <= names.len(),
            all == names.deep_view(),
            first_local_name(all, lang@, region.deep_view()) == first_local_name(
                all.skip(i as int),
                lang@,
                region.deep_view(),
            ),
        decreases names.len() - i,
    {
        let entry = &names[i];
        proof {
            assert(all.skip(i as int)[0] == entry.deep_view());
            assert(all.skip(i as int).drop_first() =~= all.skip(i + 1));
        }
        if str_eq(entry.lang, lang) && same_region(entry.region, region) {
            return Some(entry.name);
        }
        i += 1;
    }
    None
}

impl<T> FieldVtable<T> {
    /// Whether the record can carry this field.
    pub fn matches(&self, content: &RawContent) -> (r: bool)
        ensures
            r == field_matches(self@, content@),
    {
        if !content.is_live() || !content.is(self.elem) {
            return false;
        }
        let index = self.id as usize;
        if index >= content.len() {
            return false;
        }
        !self.roles.required || content.slot(index).is_some()
    }
}

impl<T> ContentVtable<T> {
    /// Determines the id of the field called `name`: the first such field.
    pub fn field_id(&self, name: &str) -> (r: Option<u8>)
        ensures
            match r {
                Some(id) => is_first_field(self@.fields, name@, id as int),
                None => forall|j: int|
                    0 <= j < self@.fields.len() ==> (#[trigger] self@.fields[j]).name != name@,
            },
    {
        proof {
            use_type_invariant(self);
        }
        let mut i: usize = 0;
        while i < self.fields.len()
            invariant
                i <= self.fields.len() <= 256,
                forall|j: int| 0 <= j < i ==> (#[trigger] self@.fields[j]).name != name@,
            decreases self.fields.len() - i,
        {
            if str_eq(self.fields[i].name, name) {
                assert(self@.fields[i as int] == self.fields@[i as int]@);
                return Some(i as u8);
            }
            assert(self@.fields[i as int] == self.fields@[i as int]@);
            i += 1;
        }
        None
    }

    /// Looks up the kind's implementation of the capability `id`.
    pub fn capability(&self, id: u64) -> (r: Option<usize>)
        ensures
            r == capability_of(self@.capabilities, id),
    {
        let ghost all = self@.capabilities;
        let mut i: usize = 0;
        assert(all.skip(0) =~= all);
        while i < self.capabilities.len()
            invariant
                i <= self.capabilities.len(),
                all == self.capabilities.deep_view(),
                capability_of(all, id) == capability_of(all.skip(i as int), id),
            decreases self.capabilities.len() - i,
        {
            let entry = self.capabilities[i];
            proof {
                assert(all.skip(i as int)[0] == entry);
                assert(all.skip(i as int).drop_first() =~= all.skip(i + 1));
            }
            if entry.id == id {
                return Some(entry.target);
            }
            i += 1;
        }
        None
    }

    /// The kind's name in the given language and region.
    pub fn local_name(&self, lang: &str, region: Option<&str>) -> (r: Option<&'static str>)
        ensures
            r.deep_view() == local_name_of(self@, lang@, region.deep_view()),
    {
        match &self.local_names {
            None => None,
            Some(names) => {
                match find_local_name(names, lang, region) {
                    Some(name) => Some(name),
                    None => match find_local_name(names, lang, None) {
                        Some(name) => Some(name),
                        None => Some(self.title),
                    },
                }
            },
        }
    }

    /// Whether the record is one of this kind.
    pub fn matches(&self, content: &RawContent) -> (r: bool)
        ensures
            r == table_matches(self@, content@),
    {
        if !content.is_live() || !content.is(self.elem) || content.len() != self.fields.len() {
            return false;
        }
        let mut i: usize = 0;
        while i < self.fields.len()
            invariant
                i <= self.fields.len(),
                content@.slots.len() == self.fields.len(),
                forall|j: int|
                    0 <= j < i && (#[trigger] self@.fields[j]).roles.required
                        ==> content@.slots[j] is Some,
            decreases self.fields.len() - i,
        {
            assert(self@.fields[i as int] == self.fields@[i as int]@);
            if self.fields[i].roles.required && content.slot(i).is_none() {
                return false;
            }
            i += 1;
        }
        true
    }

    /// Whether the styles are all for settable fields of this kind.
    pub fn matches_styles(&self, styles: &Vec<Style>) -> (r: bool)
        ensures
            r == styles_match(self@, styles.deep_view()),
    {
        let mut k: usize = 0;
        while k < styles.len()
            invariant
                k <= styles.len(),
                forall|j: int|
                    0 <= j < k ==> (#[trigger] styles.deep_view()[j]).elem == self@.elem
                        && styles.deep_view()[j].id < self@.fields.len()
                        && self@.fields[styles.deep_view()[j].id as int].roles.settable,
            decreases styles.len() - k,
        {
            let style = &styles[k];
            assert(styles.deep_view()[k as int] == style@);
            let index = style.id as usize;
            if style.elem != self.elem || index >= self.fields.len() {
                return false;
            }
            assert(self@.fields[index as int] == self.fields@[index as int]@);
            if !self.fields[index].roles.settable {
                return false;
            }
            k += 1;
        }
        true
    }

    /// Passes on what the constructor hook handed back: a record of this
    /// kind as it is, any other record as [`Diagnostic::Foreign`], a failure
    /// as it is.
    pub fn accept(&self, outcome: Result<RawContent, Diagnostic>) -> (r: Result<
        RawContent,
        Diagnostic,
    >)
        ensures
            match outcome {
                Ok(c) => if table_matches(self@, c@) {
                    r == Ok::<RawContent, Diagnostic>(c)
                } else {
                    r == Err::<RawContent, Diagnostic>(Diagnostic::Foreign)
                },
                Err(d) => r == Err::<RawContent, Diagnostic>(d),
            },
    {
        match outcome {
            Ok(content) => if self.matches(&content) {
                Ok(content)
            } else {
                Err(Diagnostic::Foreign)
            },
            Err(diagnostic) => Err(diagnostic),
        }
    }

    /// Passes on what the set-rule hook handed back: styles for settable
    /// fields of this kind as they are, any other styles as
    /// [`Diagnostic::Foreign`], a failure as it is.
    pub fn accept_styles(&self, outcome: Result<Vec<Style>, Diagnostic>) -> (r: Result<
        Vec<Style>,
        Diagnostic,
    >)
        ensures
            match outcome {
                Ok(s) => if styles_match(self@, s.deep_view()) {
                    r == Ok::<Vec<Style>, Diagnostic>(s)
                } else {
                    r == Err::<Vec<Style>, Diagnostic>(Diagnostic::Foreign)
                },
                Err(d) => r == Err::<Vec<Style>, Diagnostic>(d),
            },
    {
        match outcome {
            Ok(styles) => if self.matches_styles(&styles) {
                Ok(styles)
            } else {
                Err(Diagnostic::Foreign)
            },
            Err(diagnostic) => Err(diagnostic),
        }
    }

    /// Constructs a record of this kind from arguments, through the kind's
    /// constructor hook. Whether the hook succeeds is its own affair; a
    /// record that comes back is one of this kind.
    pub fn construct(&self, args: &mut Args) -> (r: Result<RawContent, Diagnostic>)
        ensures
            r matches Ok(c) ==> table_matches(self@, c@),
    {
        let outcome = self.hooks.construct(args);
        self.accept(outcome)
    }

    /// Produces the styles of a set rule for this kind from arguments,
    /// through the kind's set-rule hook. Whether the hook succeeds is its own
    /// affair; styles that come back are for settable fields of this kind.
    pub fn set(&self, args: &mut Args) -> (r: Result<Vec<Style>, Diagnostic>)
        ensures
            r matches Ok(s) ==> styles_match(self@, s.deep_view()),
    {
        let outcome = self.hooks.set(args);
        self.accept_styles(outcome)
    }
}

} // verus!
