//! Fresh identifiers for one turn: tags, branches, call ids and first sequence
//! numbers, told apart by a seed of the caller's and a counter.
use vstd::prelude::*;

use crate::text::{decimal, decimal_injective, decimal_text};

verus! {

/// A source of identifiers. No two identifiers it gives are the same until its
/// counter comes round.
#[derive(Debug, PartialEq)]
pub struct IdGen {
    /// What makes this source's identifiers unlike every other's.
    pub seed: String,
    pub next: u64,
}

/// The mathematical value of an [`IdGen`].
pub struct IdGenView {
    pub seed: Seq<char>,
    pub next: u64,
}

impl View for IdGen {
    type V = IdGenView;

    open spec fn view(&self) -> IdGenView {
        IdGenView { seed: self.seed@, next: self.next }
    }
}

impl Clone for IdGen {
    fn clone(&self) -> (r: Self)
        ensures
            r@ == self@,
    {
        IdGen { seed: self.seed.clone(), next: self.next }
    }
}

impl IdGenView {
    /// The source after one identifier was taken.
    pub open spec fn after(self) -> IdGenView {
        IdGenView {
            next: if self.next == u64::MAX {
                0
            } else {
                (self.next + 1) as u64
            },
            ..self
        }
    }

    pub open spec fn tag(self) -> Seq<char> {
        self.seed + "-"@ + decimal_text(self.next as nat)
    }

    /// The mark of a branch this generation of SIP made.
    pub open spec fn branch(self) -> Seq<char> {
        "z9hG4bK"@ + self.tag()
    }

    /// A first sequence number, from one to the largest a sequence may reach.
    pub open spec fn sequence(self) -> i64 {
        ((self.next % 0x7fff_ffff) + 1) as i64
    }
}

impl IdGen {
    fn step(&mut self)
        ensures
            final(self)@ == old(self)@.after(),
    {
        if self.next == u64::MAX {
            self.next = 0;
        } else {
            self.next = self.next + 1;
        }
    }

    /// A fresh tag.
    pub fn new_tag(&mut self) -> (r: String)
        ensures
            r@ == old(self)@.tag(),
            final(self)@ == old(self)@.after(),
    {
        let mut s = self.seed.clone();
        s.append("-");
        let n = decimal(self.next);
        s.append(n.as_str());
        self.step();
        s
    }

    /// A fresh branch.
    pub fn new_branch(&mut self) -> (r: String)
        ensures
            r@ == old(self)@.branch(),
            final(self)@ == old(self)@.after(),
    {
        let t = self.new_tag();
        let mut s = "z9hG4bK".to_string();
        s.append(t.as_str());
        s
    }

    /// A fresh first sequence number.
    pub fn new_sequence_number(&mut self) -> (r: i64)
        ensures
            r == old(self)@.sequence(),
            final(self)@ == old(self)@.after(),
    {
        let n: i64 = (self.next % 0x7fff_ffff) as i64 + 1;
        self.step();
        n
    }
}

/// Two tags taken at different counts differ.
pub proof fn tags_differ(g: IdGenView, h: IdGenView)
    requires
        g.seed == h.seed,
        g.next != h.next,
    ensures
        g.tag() != h.tag(),
{
    if g.tag() == h.tag() {
        let k = (g.seed + "-"@).len() as int;
        assert(g.tag().skip(k) =~= decimal_text(g.next as nat));
        assert(h.tag().skip(k) =~= decimal_text(h.next as nat));
        decimal_injective(g.next as nat, h.next as nat);
    }
}

/// A sequence number stays within what a sequence may state.
pub proof fn sequence_in_range(g: IdGenView)
    ensures
        1 <= g.sequence() <= 0x7fff_ffff,
{
}

} // verus!
