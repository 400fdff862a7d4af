//! The scoped environment.
//!
//! Frames are kept as one stack of bindings: a block's frame is the run of
//! bindings added after the block was entered, and leaving the block cuts
//! the stack back to where it was. Assigning to a name that some frame binds
//! updates that binding in place, so a name is bound at most once and writes
//! to enclosing frames survive the block.

use vstd::prelude::*;
use crate::assoc::{assoc_view, bind, bind_entry, find_last_index, lookup};
use crate::builtins::BuiltinTable;
use crate::value::InternValue;

verus! {

/// The bindings of all frames, outermost first.
pub type Bindings = Seq<(Seq<char>, InternValue)>;

/// `s` cut back to its first `n` elements (unchanged where it is shorter).
pub open spec fn truncate<T>(s: Seq<T>, n: int) -> Seq<T> {
    if n <= s.len() {
        s.subrange(0, n)
    } else {
        s
    }
}

pub struct EvalContext {
    pub bindings: Vec<(String, InternValue)>,
    /// For each open block frame, the number of bindings when it opened.
    pub frames: Vec<usize>,
    pub builtins: BuiltinTable,
}

impl EvalContext {
    pub open spec fn env(&self) -> Bindings {
        assoc_view(self.bindings@)
    }

    /// A root environment: no bindings, the standard builtin table.
    pub fn new() -> (r: EvalContext)
        ensures
            r.env() == Seq::<(Seq<char>, InternValue)>::empty(),
            r.frames@ == Seq::<usize>::empty(),
            r.builtins.view() == crate::builtins::standard_table(),
    {
        EvalContext::with_builtins(BuiltinTable::new())
    }

    /// A root environment with no bindings and the given builtin table.
    pub fn with_builtins(builtins: BuiltinTable) -> (r: EvalContext)
        ensures
            r.env() == Seq::<(Seq<char>, InternValue)>::empty(),
            r.frames@ == Seq::<usize>::empty(),
            r.builtins == builtins,
    {
        let r = EvalContext { bindings: Vec::new(), frames: Vec::new(), builtins };
        assert(r.env() =~= Seq::<(Seq<char>, InternValue)>::empty());
        r
    }

    /// Binds `name` to `value`: in the frame that binds it already, or in
    /// the current frame where none does.
    pub fn assign(&mut self, name: &str, value: InternValue)
        ensures
            final(self).env() == bind(old(self).env(), name@, value),
            final(self).frames@ == old(self).frames@,
            final(self).builtins == old(self).builtins,
    {
        bind_entry(&mut self.bindings, name.to_owned(), value);
    }

    /// The value bound to `name`, searching the frames from the innermost
    /// outward; a copy, not a reference into the environment.
    pub fn lookup(&self, name: &String) -> (r: Option<InternValue>)
        ensures
            r == lookup(self.env(), name@),
    {
        match find_last_index(&self.bindings, name) {
            Some(i) => Some(self.bindings[i].1.duplicate()),
            None => None,
        }
    }

    /// A context whose innermost frame is a new, empty one inside the
    /// frames of `inner`.
    pub fn new_with_inner(inner: EvalContext) -> (r: EvalContext)
        ensures
            r.env() == inner.env(),
            r.frames@ == inner.frames@.push(inner.env().len() as usize),
            r.builtins == inner.builtins,
    {
        let mut r = inner;
        r.enter_scope();
        r
    }

    /// Opens a new, empty innermost frame.
    pub fn enter_scope(&mut self)
        ensures
            final(self).env() == old(self).env(),
            final(self).frames@ == old(self).frames@.push(old(self).env().len() as usize),
            final(self).builtins == old(self).builtins,
    {
        let mark = self.bindings.len();
        self.frames.push(mark);
    }

    /// Closes the innermost frame, dropping the bindings made in it.
    pub fn exit_scope(&mut self)
        requires
            old(self).frames@.len() > 0,
        ensures
            final(self).env() == truncate(old(self).env(), old(self).frames@.last() as int),
            final(self).frames@ == old(self).frames@.drop_last(),
            final(self).builtins == old(self).builtins,
    {
        let mark = self.frames.pop().unwrap();
        self.bindings.truncate(mark);
        assert(final(self).env() =~= truncate(old(self).env(), mark as int));
    }
}

} // verus!
