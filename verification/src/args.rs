//! The argument store: the named arguments of one invocation.

use crate::assoc::{bound, lemma_position_is, lookup};
use crate::codec::str_equal;
use crate::value::{TypedValue, ValueView};
use vstd::prelude::*;

verus! {

/// An argument: a name and the typed value bound to it.
pub struct NamedArg {
    name: String,
    value: TypedValue,
}

/// The arguments that a caller hands to a contract, in the order in which
/// they were given. Where a name was given twice, the first value answers.
pub struct RuntimeArgs {
    args: Vec<NamedArg>,
}

impl View for RuntimeArgs {
    type V = Seq<(Seq<char>, ValueView)>;

    closed spec fn view(&self) -> Seq<(Seq<char>, ValueView)> {
        Seq::new(self.args@.len(), |i: int| (self.args@[i].name@, self.args@[i].value@))
    }
}

impl RuntimeArgs {
    /// No arguments.
    pub fn new() -> (args: RuntimeArgs)
        ensures
            args@ == Seq::<(Seq<char>, ValueView)>::empty(),
    {
        let args = RuntimeArgs { args: Vec::new() };
        args
    }

    /// The number of arguments.
    pub fn len(&self) -> (len: usize)
        ensures
            len == self@.len(),
    {
        self.args.len()
    }

    /// Whether there are no arguments.
    pub fn is_empty(&self) -> (empty: bool)
        ensures
            empty == (self@.len() == 0),
    {
        self.args.len() == 0
    }

    /// Adds an argument after those that are there.
    pub fn insert(&mut self, name: String, value: TypedValue)
        ensures
            final(self)@ == old(self)@.push((name@, value@)),
    {
        self.args.push(NamedArg { name, value });
    }

    /// The value of the first argument called `name`, if there is one.
    pub fn get(&self, name: &str) -> (value: Option<&TypedValue>)
        ensures
            value.is_some() == bound(self@, name@),
            value.is_some() ==> Some(value.unwrap()@) == lookup(self@, name@),
    {
        let mut i: usize = 0;
        while i < self.args.len()
            invariant
                i <= self.args@.len(),
                self@.len() == self.args@.len(),
                forall|j: int| 0 <= j < i ==> self@[j].0 != name@,
            decreases self.args@.len() - i,
        {
            if str_equal(self.args[i].name.as_str(), name) {
                proof {
                    lemma_position_is(self@, name@, i as int);
                }
                return Some(&self.args[i].value);
            }
            i += 1;
        }
        proof {
            lemma_position_is(self@, name@, self@.len() as int);
        }
        None
    }
}

} // verus!
