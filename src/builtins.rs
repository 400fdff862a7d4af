//! The builtin table: the names under which host functions can be called.

use vstd::prelude::*;
use crate::assoc::{assoc_view, bind, bind_entry, find_last_index, lookup};

verus! {

/// A builtin numeric function. Each takes exactly one number; what it
/// computes is the numeric host's business.
#[derive(Clone, Copy, PartialEq, Eq, Structural, Debug)]
pub enum MathFn {
    Sin,
    Cos,
    Tan,
}

/// The functions callable by name. Each name is bound at most once: a later
/// registration under a name replaces the earlier one.
pub struct BuiltinTable {
    pub functions: Vec<(String, MathFn)>,
}

impl BuiltinTable {
    pub open spec fn view(&self) -> Seq<(Seq<char>, MathFn)> {
        assoc_view(self.functions@)
    }

    /// The table with nothing registered.
    pub fn empty() -> (r: BuiltinTable)
        ensures
            r.view() == Seq::<(Seq<char>, MathFn)>::empty(),
    {
        let r = BuiltinTable { functions: Vec::new() };
        assert(r.view() =~= Seq::<(Seq<char>, MathFn)>::empty());
        r
    }

    /// The table holding the standard functions.
    pub fn new() -> (r: BuiltinTable)
        ensures
            r.view() == standard_table(),
    {
        let mut tbl = BuiltinTable::empty();
        register(&mut tbl);
        tbl
    }

    /// Registers `f` under `name`, replacing what was registered under it.
    pub fn insert(&mut self, name: &str, f: MathFn)
        ensures
            final(self).view() == bind(old(self).view(), name@, f),
    {
        bind_entry(&mut self.functions, name.to_owned(), f);
    }

    /// The function registered under `name`.
    pub fn get(&self, name: &String) -> (r: Option<MathFn>)
        ensures
            r == lookup(self.view(), name@),
    {
        match find_last_index(&self.functions, name) {
            Some(i) => Some(self.functions[i].1),
            None => None,
        }
    }
}

/// The standard functions: `sin`, `cos` and `tan`, registered in that order.
pub open spec fn standard_table() -> Seq<(Seq<char>, MathFn)> {
    bind(
        bind(bind(Seq::<(Seq<char>, MathFn)>::empty(), "sin"@, MathFn::Sin), "cos"@, MathFn::Cos),
        "tan"@,
        MathFn::Tan,
    )
}

/// Registers the standard functions in `tbl`, each replacing what was
/// registered under its name.
pub fn register(tbl: &mut BuiltinTable)
    ensures
        final(tbl).view() == bind(
            bind(bind(old(tbl).view(), "sin"@, MathFn::Sin), "cos"@, MathFn::Cos),
            "tan"@,
            MathFn::Tan,
        ),
{
    tbl.insert("sin", MathFn::Sin);
    tbl.insert("cos", MathFn::Cos);
    tbl.insert("tan", MathFn::Tan);
}

} // verus!
