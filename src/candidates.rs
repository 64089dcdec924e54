use vstd::prelude::*;
use rand::Rng;

verus! {

/// Relies on `rand::thread_rng` and `Rng::gen`: one byte from the thread's
/// random generator. Nothing is known of its value.
#[verifier::external_body]
fn random_byte() -> (r: u8) {
    rand::thread_rng().gen::<u8>()
}

/// A finite supply of random candidate sequences: `mx` of them, each of `ln`
/// independently drawn bytes.
pub struct SeqIterator {
    ln: usize,
    mx: usize,
    n: usize,
}

impl SeqIterator {
    /// The length of each candidate.
    pub closed spec fn length(&self) -> nat {
        self.ln as nat
    }

    /// How many candidates are still to come.
    pub closed spec fn remaining(&self) -> nat {
        if self.n <= self.mx {
            (self.mx - self.n) as nat
        } else {
            0
        }
    }

    /// A supply of `mx` candidates of `ln` bytes each.
    pub fn new(ln: usize, mx: usize) -> (r: SeqIterator)
        ensures
            r.length() == ln,
            r.remaining() == mx,
    {
        SeqIterator { ln, mx, n: 0 }
    }

    /// The next candidate, while any remain; `None` ever after.
    pub fn next(&mut self) -> (r: Option<Vec<u8>>)
        ensures
            final(self).length() == old(self).length(),
            old(self).remaining() > 0 ==> r is Some && r->0@.len() == old(self).length()
                && final(self).remaining() == old(self).remaining() - 1,
            old(self).remaining() == 0 ==> r is None && final(self).remaining() == 0,
    {
        if self.n >= self.mx {
            return None;
        }
        self.n = self.n + 1;
        let mut vals: Vec<u8> = Vec::with_capacity(self.ln);
        let mut i: usize = 0;
        while i < self.ln
            invariant
                i <= self.ln,
                vals@.len() == i,
            decreases self.ln - i,
        {
            vals.push(random_byte());
            i = i + 1;
        }
        Some(vals)
    }
}

} // verus!
