//! What the engine session owns besides the engine itself: the operations that script can
//! invoke by name, and the shape of engine errors.
use vstd::prelude::*;
use vstd::string::StringExecFns;
use crate::name_map::NameMap;

verus! {

/// An evaluation or compilation failure as the engine reports it.
pub struct EsErrorInfo {
    pub message: String,
    pub filename: String,
    pub lineno: i32,
    pub column: i32,
}

/// The error text for invoking an operation that was never registered.
pub open spec fn unknown_operation_message(name: Seq<char>) -> Seq<char> {
    "unknown operation: "@ + name
}

/// The host operations that script reaches through the session's invoke entry point.
pub struct OpTable<O> {
    ops: NameMap<O>,
}

impl<O> View for OpTable<O> {
    type V = Map<Seq<char>, O>;

    closed spec fn view(&self) -> Map<Seq<char>, O> {
        self.ops@
    }
}

impl<O> OpTable<O> {
    pub closed spec fn wf(&self) -> bool {
        self.ops.wf()
    }

    /// A table with no operations.
    pub fn new() -> (r: Self)
        ensures
            r.wf(),
            r@ == Map::<Seq<char>, O>::empty(),
    {
        OpTable { ops: NameMap::new() }
    }

    /// Registers `op` under `name`, replacing an operation registered there before.
    pub fn register_op(&mut self, name: &str, op: O)
        requires
            old(self).wf(),
        ensures
            final(self).wf(),
            final(self)@ == old(self)@.insert(name@, op),
    {
        self.ops.insert(name.to_owned(), op);
    }

    /// The operation registered under `name`, or the unknown-operation error.
    pub fn find_op(&self, name: &str) -> (r: Result<&O, String>)
        requires
            self.wf(),
        ensures
            match r {
                Ok(op) => self@.contains_key(name@) && *op == self@[name@],
                Err(m) => !self@.contains_key(name@) && m@ == unknown_operation_message(name@),
            },
    {
        match self.ops.get(&name.to_owned()) {
            Some(op) => Ok(op),
            None => {
                let mut m = "unknown operation: ".to_owned();
                m.append(name);
                Err(m)
            },
        }
    }
}

} // verus!
