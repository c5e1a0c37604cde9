//! Interning of labels: the table that gives every name its canonical token.
//!
//! Two equal names get the same token, two different names get different
//! tokens, and a token, once given, stays with its name: labels never
//! expire. One table serves one kind of label; the three kinds of
//! [`crate::label`] have a table each.

use vstd::prelude::*;
use crate::label::{InternedActionLabel, InternedFlowLabel, InternedScoreLabel};

verus! {

/// The names that were interned, each at the place that is its token.
pub struct LabelInterner {
    names: Vec<String>,
}

impl LabelInterner {
    /// The invariant of the table: no name stands in it twice.
    pub open spec fn wf(self) -> bool {
        self.names().no_duplicates()
    }

    /// The interned names; the token of a name is its index.
    pub closed spec fn names(self) -> Seq<Seq<char>> {
        Seq::new(self.names.len() as nat, |i: int| self.names[i]@)
    }

    /// Creates a table without names.
    pub fn new() -> (interner: LabelInterner)
        ensures
            interner.wf(),
            interner.names() == Seq::<Seq<char>>::empty(),
    {
        let interner = LabelInterner { names: Vec::new() };
        proof {
            assert(interner.names() =~= Seq::<Seq<char>>::empty());
        }
        interner
    }

    /// The number of names that were interned.
    pub fn len(&self) -> (len: usize)
        ensures
            len == self.names().len(),
    {
        self.names.len()
    }

    /// Returns the token of a name, if the name was interned.
    pub fn lookup(&self, name: &String) -> (token: Option<usize>)
        ensures
            match token {
                Some(token) => token < self.names().len() && self.names()[token as int] == name@,
                None => !self.names().contains(name@),
            },
    {
        let mut i: usize = 0;
        while i < self.names.len()
            invariant
                i <= self.names.len(),
                forall|k: int| 0 <= k < i ==> self.names()[k] != name@,
            decreases self.names.len() - i,
        {
            if self.names[i].eq(name) {
                return Some(i);
            }
            i += 1;
        }
        None
    }

    /// Returns the token of a name. A name that was not interned before is
    /// added behind the others; every other name keeps its token.
    pub fn intern(&mut self, name: String) -> (token: usize)
        requires
            old(self).wf(),
        ensures
            final(self).wf(),
            token < final(self).names().len(),
            final(self).names()[token as int] == name@,
            final(self).names() == (if old(self).names().contains(name@) {
                old(self).names()
            } else {
                old(self).names().push(name@)
            }),
    {
        match self.lookup(&name) {
            Some(token) => token,
            None => {
                let token = self.names.len();
                let ghost before = self.names();
                self.names.push(name);
                proof {
                    assert(self.names() =~= before.push(name@));
                    assert forall|i: int, j: int|
                        0 <= i < self.names().len() && 0 <= j < self.names().len() && i
                            != j implies self.names()[i] != self.names()[j] by {
                        if i < before.len() {
                            assert(before.contains(before[i]));
                        }
                        if j < before.len() {
                            assert(before.contains(before[j]));
                        }
                    }
                }
                token
            },
        }
    }
}

impl LabelInterner {
    /// Whether interning `name` in the table `before` gives the table
    /// `self` and the token `token`.
    pub open spec fn interned(self, before: LabelInterner, name: Seq<char>, token: u64) -> bool {
        &&& self.wf()
        &&& token < self.names().len()
        &&& self.names()[token as int] == name
        &&& self.names() == (if before.names().contains(name) {
            before.names()
        } else {
            before.names().push(name)
        })
    }

    /// Returns the label of a named output score.
    pub fn score_label(&mut self, name: String) -> (label: InternedScoreLabel)
        requires
            old(self).wf(),
        ensures
            final(self).interned(*old(self), name@, label.0),
    {
        InternedScoreLabel(self.intern(name) as u64)
    }

    /// Returns the label of a named flow.
    pub fn flow_label(&mut self, name: String) -> (label: InternedFlowLabel)
        requires
            old(self).wf(),
        ensures
            final(self).interned(*old(self), name@, label.0),
    {
        InternedFlowLabel(self.intern(name) as u64)
    }

    /// Returns the label of a named action.
    pub fn action_label(&mut self, name: String) -> (label: InternedActionLabel)
        requires
            old(self).wf(),
        ensures
            final(self).interned(*old(self), name@, label.0),
    {
        InternedActionLabel(self.intern(name) as u64)
    }
}

/// Tokens are canonical: among interned names, two are equal exactly if
/// their tokens are equal.
pub proof fn tokens_are_canonical(names: Seq<Seq<char>>, one: int, other: int)
    requires
        names.no_duplicates(),
        0 <= one < names.len(),
        0 <= other < names.len(),
    ensures
        names[one] == names[other] <==> one == other,
{
}

} // verus!
