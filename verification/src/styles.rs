//! Style chains: the layered configuration that is consulted for the fields
//! a record leaves unset.

use crate::raw::Element;
use crate::value::{fold_values, Value, ValueView};
use vstd::prelude::*;

verus! {

/// One style: a value for one field of one element kind.
#[derive(Debug)]
pub struct Style {
    /// The element kind the style applies to.
    pub elem: Element,
    /// The field it sets.
    pub id: u8,
    /// The value it contributes.
    pub value: Value,
}

/// What a [`Style`] holds, as mathematics.
pub struct StyleView {
    pub elem: Element,
    pub id: u8,
    pub value: ValueView,
}

impl View for Style {
    type V = StyleView;

    open spec fn view(&self) -> StyleView {
        StyleView { elem: self.elem, id: self.id, value: self.value@ }
    }
}

impl DeepView for Style {
    type V = StyleView;

    open spec fn deep_view(&self) -> StyleView {
        self@
    }
}

impl Clone for Style {
    fn clone(&self) -> (r: Style)
        ensures
            r@ == self@,
    {
        Style { elem: self.elem, id: self.id, value: self.value.clone() }
    }
}

/// A chain of styles, from the outermost layer to the innermost.
#[derive(Debug)]
pub struct StyleChain {
    links: Vec<Style>,
}

impl View for StyleChain {
    type V = Seq<StyleView>;

    closed spec fn view(&self) -> Seq<StyleView> {
        self.links.deep_view()
    }
}

/// The value that a chain yields for the field `id` of the kind `elem`, on
/// top of the value `base` that holds outside the chain.
///
/// Each link for that field, from the outermost inwards, either replaces what
/// the layers around it yielded or, for a folding field, is folded into it.
pub open spec fn chain_value(
    links: Seq<StyleView>,
    elem: Element,
    id: u8,
    fold: bool,
    base: Option<ValueView>,
) -> Option<ValueView>
    decreases links.len(),
{
    if links.len() == 0 {
        base
    } else {
        let outer = chain_value(links.drop_last(), elem, id, fold, base);
        let link = links.last();
        if link.elem == elem && link.id == id {
            match outer {
                Some(o) => if fold {
                    Some(fold_values(link.value, o))
                } else {
                    Some(link.value)
                },
                None => Some(link.value),
            }
        } else {
            outer
        }
    }
}

impl StyleChain {
    /// The empty chain.
    pub fn new() -> (r: StyleChain)
        ensures
            r@ == Seq::<StyleView>::empty(),
    {
        let r = StyleChain { links: Vec::new() };
        assert(r.links.deep_view() =~= Seq::<StyleView>::empty());
        r
    }

    /// The chain with `style` as a new innermost layer.
    pub fn chain(self, style: Style) -> (r: StyleChain)
        ensures
            r@ == self@.push(style@),
    {
        let mut links = self.links;
        links.push(style);
        assert(links.deep_view() =~= self.links.deep_view().push(style@));
        StyleChain { links }
    }

    /// The number of links.
    pub fn len(&self) -> (r: usize)
        ensures
            r == self@.len(),
    {
        self.links.len()
    }

    /// Resolves the field `id` of the kind `elem` against the chain, on top of
    /// the value `base`.
    pub fn resolve(&self, elem: Element, id: u8, fold: bool, base: &Option<Value>) -> (r: Option<
        Value,
    >)
        ensures
            r.deep_view() == chain_value(self@, elem, id, fold, base.deep_view()),
    {
        let mut found: Option<Value> = match base {
            Some(v) => Some(v.clone()),
            None => None,
        };
        let mut i: usize = 0;
        assert(self@.take(0) =~= Seq::<StyleView>::empty());
        while i < self.links.len()
            invariant
                i <= self.links.len(),
                found.deep_view() == chain_value(
                    self@.take(i as int),
                    elem,
                    id,
                    fold,
                    base.deep_view(),
                ),
            decreases self.links.len() - i,
        {
            let link = &self.links[i];
            proof {
                let next = self@.take(i + 1);
                assert(next.drop_last() =~= self@.take(i as int));
                assert(next.last() == link@);
            }
            if link.elem == elem && link.id == id {
                let value = link.value.clone();
                found = match found {
                    Some(outer) => if fold {
                        Some(value.fold(outer))
                    } else {
                        Some(value)
                    },
                    None => Some(value),
                };
            }
            i += 1;
        }
        assert(self@.take(i as int) =~= self@);
        found
    }
}


/// The value of the innermost link for the field `id` of the kind `elem`.
pub open spec fn innermost(links: Seq<StyleView>, elem: Element, id: u8) -> Option<ValueView>
    decreases links.len(),
{
    if links.len() == 0 {
        None
    } else if links.last().elem == elem && links.last().id == id {
        Some(links.last().value)
    } else {
        innermost(links.drop_last(), elem, id)
    }
}

/// Whether every link for the field `id` of the kind `elem` holds a list.
pub open spec fn all_lists(links: Seq<StyleView>, elem: Element, id: u8) -> bool {
    forall|k: int|
        0 <= k < links.len() && (#[trigger] links[k]).elem == elem && links[k].id == id
            ==> links[k].value is Array
}

/// The items that the links for the field `id` of the kind `elem` hold, from
/// the outermost link to the innermost.
pub open spec fn joined(links: Seq<StyleView>, elem: Element, id: u8) -> Seq<i64>
    decreases links.len(),
{
    if links.len() == 0 {
        Seq::empty()
    } else {
        let outer = joined(links.drop_last(), elem, id);
        let link = links.last();
        if link.elem == elem && link.id == id {
            match link.value {
                ValueView::Array(items) => outer + items,
                _ => outer,
            }
        } else {
            outer
        }
    }
}

/// For a field that does not fold, a chain yields the value of its innermost
/// link for the field, and the base value where it has no such link.
pub proof fn lemma_chain_value_plain(
    links: Seq<StyleView>,
    elem: Element,
    id: u8,
    base: Option<ValueView>,
)
    ensures
        chain_value(links, elem, id, false, base) == match innermost(links, elem, id) {
            Some(v) => Some(v),
            None => base,
        },
    decreases links.len(),
{
    if links.len() > 0 {
        lemma_chain_value_plain(links.drop_last(), elem, id, base);
    }
}

/// For a field that folds, a chain whose links for the field all hold lists
/// yields, on top of a list, that list followed by the items of every such
/// link, outermost first: no layer's contribution is lost.
pub proof fn lemma_chain_value_folded(
    links: Seq<StyleView>,
    elem: Element,
    id: u8,
    base: Seq<i64>,
)
    requires
        all_lists(links, elem, id),
    ensures
        chain_value(links, elem, id, true, Some(ValueView::Array(base))) == Some(
            ValueView::Array(base + joined(links, elem, id)),
        ),
    decreases links.len(),
{
    if links.len() == 0 {
        assert(base + joined(links, elem, id) =~= base);
    } else {
        let rest = links.drop_last();
        assert forall|k: int|
            0 <= k < rest.len() && (#[trigger] rest[k]).elem == elem && rest[k].id
                == id implies rest[k].value is Array by {
            assert(rest[k] == links[k]);
        }
        lemma_chain_value_folded(rest, elem, id, base);
        let link = links.last();
        assert(link == links[links.len() - 1]);
        if link.elem == elem && link.id == id {
            match link.value {
                ValueView::Array(items) => {
                    assert((base + joined(rest, elem, id)) + items =~= base + (joined(
                        rest,
                        elem,
                        id,
                    ) + items));
                },
                _ => {},
            }
        }
    }
}

/// For a field that folds and has no default, two nested layers that each
/// contribute a list yield both lists, the outer layer's items first.
pub proof fn lemma_two_layers_fold(outer: StyleView, inner: StyleView, elem: Element, id: u8)
    requires
        outer.elem == elem && outer.id == id,
        inner.elem == elem && inner.id == id,
        outer.value is Array,
        inner.value is Array,
    ensures
        chain_value(seq![outer, inner], elem, id, true, None) == Some(
            ValueView::Array(outer.value->Array_0 + inner.value->Array_0),
        ),
{
    let links = seq![outer, inner];
    let first = links.drop_last();
    assert(first =~= seq![outer]);
    assert(first.drop_last() =~= Seq::<StyleView>::empty());
    assert(first.last() == outer);
    assert(links.last() == inner);
    assert(chain_value(first.drop_last(), elem, id, true, None) == None::<ValueView>);
    assert(chain_value(first, elem, id, true, None) == Some(outer.value));
}

} // verus!
