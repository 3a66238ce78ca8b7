//! Functions that source text can call, and the scope that names them.

use vstd::prelude::*;
use vstd::string::*;

verus! {

/// A function that source text can call.
#[derive(Debug, Clone, Copy, PartialEq, Eq, Structural)]
pub enum Function {
    /// Sets its body in bold face.
    Bold,
    /// Sets its body in italics.
    Italic,
    /// Sets its body in a monospaced font.
    Monospace,
    /// Aligns its body.
    Align,
}

/// The functions that are callable, by name.
#[derive(Debug, Clone)]
pub struct Scope {
    entries: Vec<(String, Function)>,
}

/// The mapping that a list of entries stands for: a later entry replaces an
/// earlier one of the same name.
pub open spec fn bindings(entries: Seq<(String, Function)>) -> Map<Seq<char>, Function>
    decreases entries.len(),
{
    if entries.len() == 0 {
        Map::empty()
    } else {
        bindings(entries.drop_last()).insert(entries.last().0@, entries.last().1)
    }
}

impl View for Scope {
    type V = Map<Seq<char>, Function>;

    closed spec fn view(&self) -> Map<Seq<char>, Function> {
        bindings(self.entries@)
    }
}

impl Scope {
    /// A scope without functions.
    pub fn new() -> (scope: Scope)
        ensures
            scope@ == Map::<Seq<char>, Function>::empty(),
    {
        Scope { entries: Vec::new() }
    }

    /// Binds a name to a function. The name's earlier binding, if any, is replaced.
    pub fn add(&mut self, name: &str, function: Function)
        ensures
            final(self)@ == old(self)@.insert(name@, function),
    {
        let ghost before = self.entries@;
        self.entries.push((name.to_owned(), function));
        assert(self.entries@.drop_last() =~= before);
    }

    /// The function that a name is bound to.
    pub fn get(&self, name: &str) -> (function: Option<Function>)
        ensures
            function == if self@.contains_key(name@) {
                Some(self@[name@])
            } else {
                None
            },
    {
        let key = name.to_owned();
        let mut i: usize = self.entries.len();
        assert(self.entries@.take(i as int) =~= self.entries@);
        while i > 0
            invariant
                i <= self.entries@.len(),
                key@ == name@,
                bindings(self.entries@).contains_key(name@) == bindings(
                    self.entries@.take(i as int),
                ).contains_key(name@),
                bindings(self.entries@).contains_key(name@) ==> bindings(self.entries@)[name@]
                    == bindings(self.entries@.take(i as int))[name@],
            decreases i,
        {
            i -= 1;
            assert(self.entries@.take(i + 1).drop_last() =~= self.entries@.take(i as int));
            if self.entries[i].0 == key {
                return Some(self.entries[i].1);
            }
        }
        assert(self.entries@.take(0) =~= Seq::<(String, Function)>::empty());
        None
    }
}

} // verus!
