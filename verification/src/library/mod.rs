//! The standard library of callable functions.

use vstd::prelude::*;
use crate::func::{Function, Scope};

pub mod prelude;

verus! {

/// The scope that holds every standard function under its name.
pub fn standard() -> (scope: Scope)
    ensures
        scope@ == Map::<Seq<char>, Function>::empty().insert("bold"@, Function::Bold).insert(
            "italic"@,
            Function::Italic,
        ).insert("mono"@, Function::Monospace).insert("align"@, Function::Align),
{
    let mut scope = Scope::new();
    scope.add("bold", Function::Bold);
    scope.add("italic", Function::Italic);
    scope.add("mono", Function::Monospace);
    scope.add("align", Function::Align);
    scope
}

} // verus!
