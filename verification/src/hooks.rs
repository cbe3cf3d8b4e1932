//! What an element kind brings of its own: the hooks that turn arguments
//! into a record or into styles, and the types that pass through them.

use crate::raw::RawContent;
use crate::styles::Style;
use crate::value::Value;
use std::marker::PhantomData;
use vstd::prelude::*;

verus! {

/// One argument of a constructor or set-rule call.
#[derive(Debug)]
pub struct Arg {
    /// The argument's name, if it was passed by name.
    pub name: Option<String>,
    /// The argument's value.
    pub value: Value,
}

/// The arguments of a constructor or set-rule call. A hook takes out the
/// arguments it binds.
#[derive(Debug)]
pub struct Args {
    /// The arguments that are still unbound, in call order.
    pub items: Vec<Arg>,
}

/// Why a construction or a set rule failed.
#[derive(Debug)]
pub enum Diagnostic {
    /// The hook rejected the arguments; the message says why.
    Rejected(String),
    /// The hook handed back something that is not of its own element kind.
    Foreign,
}

/// An element kind: the hooks that only the kind itself can provide.
///
/// Nothing is assumed of an implementation. What a hook hands back is checked
/// against the kind's table before it is passed on.
pub trait NativeElement {
    /// Builds a record of this kind from the arguments.
    fn construct(&self, args: &mut Args) -> Result<RawContent, Diagnostic>;

    /// Builds the styles of a set rule for this kind from the arguments.
    fn set(&self, args: &mut Args) -> Result<Vec<Style>, Diagnostic>;
}

/// The statically typed form of a record of the kind `E`. A table over
/// `Packed<E>` is the typed table of `E`, from which the erased one is made.
pub struct Packed<E> {
    marker: PhantomData<E>,
}

} // verus!
