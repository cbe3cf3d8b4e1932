//! The dynamic values that element fields hold.

use crate::text::{decimal, push_decimal, push_signed, signed_decimal};
use vstd::prelude::*;
use vstd::std_specs::cmp::PartialEqSpecImpl;
use vstd::string::{StrSliceExecFns, StringExecFns};

verus! {

/// A dynamically typed field value.
#[derive(Debug)]
pub enum Value {
    /// A boolean.
    Bool(bool),
    /// An integer.
    Int(i64),
    /// A string.
    Str(String),
    /// A list of integers. Lists are the values that fold: see [`Value::fold`].
    Array(Vec<i64>),
}

/// What a [`Value`] holds, as mathematics.
pub enum ValueView {
    Bool(bool),
    Int(i64),
    Str(Seq<char>),
    Array(Seq<i64>),
}

impl View for Value {
    type V = ValueView;

    open spec fn view(&self) -> ValueView {
        match self {
            Value::Bool(b) => ValueView::Bool(*b),
            Value::Int(n) => ValueView::Int(*n),
            Value::Str(s) => ValueView::Str(s@),
            Value::Array(items) => ValueView::Array(items@),
        }
    }
}

impl DeepView for Value {
    type V = ValueView;

    open spec fn deep_view(&self) -> ValueView {
        self@
    }
}

/// The value that results when `inner` meets the value `outer` that an
/// enclosing layer contributed: two lists are joined, outer items first; of
/// any other pair the inner value stands.
pub open spec fn fold_values(inner: ValueView, outer: ValueView) -> ValueView {
    match (inner, outer) {
        (ValueView::Array(i), ValueView::Array(o)) => ValueView::Array(o + i),
        _ => inner,
    }
}

/// The items of a list as user-facing text, separated by `", "`.
pub open spec fn items_text(items: Seq<i64>) -> Seq<char>
    decreases items.len(),
{
    if items.len() == 0 {
        Seq::empty()
    } else if items.len() == 1 {
        signed_decimal(items[0] as int)
    } else {
        items_text(items.drop_last()) + ", "@ + signed_decimal(items.last() as int)
    }
}

/// A value as user-facing text: `true`, `-3`, `"abc"`, `(1, 2)`.
pub open spec fn value_text(v: ValueView) -> Seq<char> {
    match v {
        ValueView::Bool(b) => if b {
            "true"@
        } else {
            "false"@
        },
        ValueView::Int(n) => signed_decimal(n as int),
        ValueView::Str(s) => "\""@ + s + "\""@,
        ValueView::Array(items) => "("@ + items_text(items) + ")"@,
    }
}

/// The items of a list in canonical form, each closed by `;`.
pub open spec fn items_code(items: Seq<i64>) -> Seq<char>
    decreases items.len(),
{
    if items.len() == 0 {
        Seq::empty()
    } else {
        items_code(items.drop_last()) + signed_decimal(items.last() as int) + ";"@
    }
}

/// A value in canonical form, the text that is hashed: a one-letter tag, then
/// the content, with every variable-length part preceded by its length.
pub open spec fn value_code(v: ValueView) -> Seq<char> {
    match v {
        ValueView::Bool(b) => if b {
            "t"@
        } else {
            "f"@
        },
        ValueView::Int(n) => "i"@ + signed_decimal(n as int) + ";"@,
        ValueView::Str(s) => "s"@ + decimal(s.len()) + ":"@ + s,
        ValueView::Array(items) => "a"@ + decimal(items.len()) + ":"@ + items_code(items),
    }
}

fn same_items(a: &Vec<i64>, b: &Vec<i64>) -> (r: bool)
    ensures
        r == (a@ == b@),
{
    if a.len() != b.len() {
        return false;
    }
    let mut i: usize = 0;
    while i < a.len()
        invariant
            a.len() == b.len(),
            i <= a.len(),
            forall|k: int| 0 <= k < i ==> a@[k] == b@[k],
        decreases a.len() - i,
    {
        if a[i] != b[i] {
            return false;
        }
        i += 1;
    }
    assert(a@ =~= b@);
    true
}

fn copy_items(items: &Vec<i64>) -> (r: Vec<i64>)
    ensures
        r@ == items@,
{
    let mut out: Vec<i64> = Vec::new();
    let mut i: usize = 0;
    while i < items.len()
        invariant
            i <= items.len(),
            out@ == items@.take(i as int),
        decreases items.len() - i,
    {
        out.push(items[i]);
        assert(out@ =~= items@.take(i + 1));
        i += 1;
    }
    assert(out@ =~= items@);
    out
}

impl Value {
    /// Whether two values hold the same thing.
    pub fn same(&self, other: &Value) -> (r: bool)
        ensures
            r == (self@ == other@),
    {
        match (self, other) {
            (Value::Bool(a), Value::Bool(b)) => *a == *b,
            (Value::Int(a), Value::Int(b)) => *a == *b,
            (Value::Str(a), Value::Str(b)) => *a == *b,
            (Value::Array(a), Value::Array(b)) => same_items(a, b),
            _ => false,
        }
    }

    /// Combines this value with the value `outer` of an enclosing layer.
    pub fn fold(self, outer: Value) -> (r: Value)
        ensures
            r@ == fold_values(self@, outer@),
    {
        match (self, outer) {
            (Value::Array(mut inner), Value::Array(mut joined)) => {
                joined.append(&mut inner);
                Value::Array(joined)
            },
            (inner, _) => inner,
        }
    }

    /// Appends the user-facing text of this value to `out`.
    pub fn push_text(&self, out: &mut String)
        ensures
            final(out)@ == old(out)@ + value_text(self@),
    {
        match self {
            Value::Bool(b) => {
                if *b {
                    out.append("true");
                } else {
                    out.append("false");
                }
            },
            Value::Int(n) => {
                push_signed(out, *n);
            },
            Value::Str(s) => {
                out.append("\"");
                out.append(s.as_str());
                out.append("\"");
                assert(out@ =~= old(out)@ + value_text(self@));
            },
            Value::Array(items) => {
                out.append("(");
                let ghost start = out@;
                let mut i: usize = 0;
                while i < items.len()
                    invariant
                        i <= items.len(),
                        out@ == start + items_text(items@.take(i as int)),
                    decreases items.len() - i,
                {
                    if i > 0 {
                        out.append(", ");
                    }
                    push_signed(out, items[i]);
                    proof {
                        let next = items@.take(i + 1);
                        assert(next.drop_last() =~= items@.take(i as int));
                        assert(next.last() == items@[i as int]);
                        assert(out@ =~= start + items_text(next));
                    }
                    i += 1;
                }
                assert(items@.take(i as int) =~= items@);
                out.append(")");
                assert(out@ =~= old(out)@ + value_text(self@));
            },
        }
    }

    /// Appends the canonical form of this value to `out`.
    pub fn push_code(&self, out: &mut String)
        ensures
            final(out)@ == old(out)@ + value_code(self@),
    {
        match self {
            Value::Bool(b) => {
                if *b {
                    out.append("t");
                } else {
                    out.append("f");
                }
            },
            Value::Int(n) => {
                out.append("i");
                push_signed(out, *n);
                out.append(";");
                assert(out@ =~= old(out)@ + value_code(self@));
            },
            Value::Str(s) => {
                out.append("s");
                push_decimal(out, s.as_str().unicode_len() as u64);
                out.append(":");
                out.append(s.as_str());
                assert(out@ =~= old(out)@ + value_code(self@));
            },
            Value::Array(items) => {
                out.append("a");
                push_decimal(out, items.len() as u64);
                out.append(":");
                let ghost start = out@;
                let mut i: usize = 0;
                while i < items.len()
                    invariant
                        i <= items.len(),
                        out@ == start + items_code(items@.take(i as int)),
                    decreases items.len() - i,
                {
                    push_signed(out, items[i]);
                    out.append(";");
                    proof {
                        let next = items@.take(i + 1);
                        assert(next.drop_last() =~= items@.take(i as int));
                        assert(next.last() == items@[i as int]);
                        assert(out@ =~= start + items_code(next));
                    }
                    i += 1;
                }
                assert(items@.take(i as int) =~= items@);
                assert(out@ =~= old(out)@ + value_code(self@));
            },
        }
    }
}

impl Clone for Value {
    fn clone(&self) -> (r: Value)
        ensures
            r@ == self@,
    {
        match self {
            Value::Bool(b) => Value::Bool(*b),
            Value::Int(n) => Value::Int(*n),
            Value::Str(s) => Value::Str(s.clone()),
            Value::Array(items) => Value::Array(copy_items(items)),
        }
    }
}

impl PartialEq for Value {
    fn eq(&self, other: &Value) -> (r: bool) {
        self.same(other)
    }
}

impl PartialEqSpecImpl for Value {
    open spec fn obeys_eq_spec() -> bool {
        true
    }

    open spec fn eq_spec(&self, other: &Value) -> bool {
        self@ == other@
    }
}

/// Copies an optional value.
pub fn copy_slot(slot: &Option<Value>) -> (r: Option<Value>)
    ensures
        r.deep_view() == slot.deep_view(),
{
    match slot {
        Some(v) => Some(v.clone()),
        None => None,
    }
}

/// Whether two optional values hold the same thing.
pub fn same_slot(a: &Option<Value>, b: &Option<Value>) -> (r: bool)
    ensures
        r == (a.deep_view() == b.deep_view()),
{
    match (a, b) {
        (Some(x), Some(y)) => x.same(y),
        (None, None) => true,
        _ => false,
    }
}

/// The deep view of a vector that grew by one item.
pub(crate) proof fn lemma_deep_view_push<A: DeepView>(before: Vec<A>, after: Vec<A>, item: A)
    requires
        after@ == before@.push(item),
    ensures
        after.deep_view() == before.deep_view().push(item.deep_view()),
{
    assert(after.deep_view() =~= before.deep_view().push(item.deep_view()));
}

} // verus!
