use vstd::prelude::*;
use vstd::arithmetic::div_mod::lemma_fundamental_div_mod_converse;

verus! {

/// A byte shifted by `off`, wrapping modulo 256.
pub open spec fn shifted(b: u8, off: int) -> u8 {
    ((b as int + off) % 256) as u8
}

/// All values probed around the elements of `v` with a window of `window`:
/// for each element in order, the element shifted by `0..=window`.
pub open spec fn probe_seq(v: Seq<u8>, window: nat) -> Seq<u8> {
    Seq::new(
        v.len() * (window + 1),
        |i: int| shifted(v[i / (window + 1) as int], i % (window + 1) as int),
    )
}

/// Walks the neighbourhood of each element of a byte sequence: for every
/// element, `window + 1` values (the element plus `0..=window`, wrapping),
/// then the next element.
pub struct ValIterator<'a> {
    v: &'a Vec<u8>,
    n: usize,
    mx: usize,
    pos: usize,
    l: usize,
}

impl<'a> ValIterator<'a> {
    /// The sequence whose neighbourhoods are walked.
    pub closed spec fn source(&self) -> Seq<u8> {
        self.v@
    }

    /// The window size.
    pub closed spec fn window(&self) -> nat {
        self.mx as nat
    }

    /// How many values have been produced so far.
    pub closed spec fn produced(&self) -> nat {
        if self.pos >= self.l {
            (self.l * (self.mx + 1)) as nat
        } else {
            (self.pos * (self.mx + 1) + self.n) as nat
        }
    }

    /// Every value that the walk produces, in order.
    pub open spec fn probes(&self) -> Seq<u8> {
        probe_seq(self.source(), self.window())
    }

    /// The internal state is consistent.
    pub closed spec fn wf(&self) -> bool {
        &&& self.l == self.v@.len()
        &&& self.pos <= self.l
        &&& self.n <= self.mx + 1
        &&& self.mx < usize::MAX
    }

    /// A walk over `v` with `mx + 1` values per element.
    pub fn new(v: &'a Vec<u8>, mx: usize) -> (r: ValIterator<'a>)
        requires
            mx < usize::MAX,
        ensures
            r.wf(),
            r.source() == v@,
            r.window() == mx,
            r.produced() == 0,
    {
        ValIterator { v, mx, n: 0, pos: 0, l: v.len() }
    }

    /// The next probed value, or `None` once all `len * (window + 1)` values
    /// have been produced; it stays `None` after that.
    pub fn next(&mut self) -> (r: Option<u8>)
        requires
            old(self).wf(),
        ensures
            final(self).wf(),
            final(self).source() == old(self).source(),
            final(self).window() == old(self).window(),
            old(self).produced() <= old(self).probes().len(),
            old(self).produced() < old(self).probes().len() ==> r == Some(
                old(self).probes()[old(self).produced() as int],
            ) && final(self).produced() == old(self).produced() + 1,
            old(self).produced() >= old(self).probes().len() ==> r is None
                && final(self).produced() == old(self).produced(),
    {
        let ghost w = self.mx as int + 1;
        let ghost p = self.produced() as int;
        proof {
            assert(self.probes().len() == self.l * w);
            if self.pos < self.l {
                assert(self.pos * w + self.n <= self.pos * w + w) by (nonlinear_arith)
                    requires self.n <= w;
                assert(self.pos * w + w <= self.l * w) by (nonlinear_arith)
                    requires self.pos < self.l, w > 0;
            }
        }
        if self.pos >= self.l {
            return None;
        }
        if self.n > self.mx {
            self.n = 0;
            self.pos = self.pos + 1;
            proof {
                assert((self.pos - 1) * w + w == self.pos * w) by (nonlinear_arith);
            }
            if self.pos == self.l {
                return None;
            }
        }
        let cur: u8 = self.v[self.pos];
        let off: u8 = (self.n % 256) as u8;
        proof {
            assert(p == self.pos * w + self.n);
            assert(self.pos * w + self.n < self.l * w) by (nonlinear_arith)
                requires self.pos < self.l, self.n < w;
            lemma_fundamental_div_mod_converse(p, w, self.pos as int, self.n as int);
            assert(self.probes()[p] == shifted(cur, self.n as int));
            assert(shifted(cur, self.n as int) == cur.wrapping_add(off)) by {
                assert((cur as int + self.n as int) % 256 == (cur as int + off as int) % 256)
                    by (nonlinear_arith)
                    requires off as int == self.n as int % 256;
            }
        }
        self.n = self.n + 1;
        Some(cur.wrapping_add(off))
    }
}

/// Every value probed around the elements of `v` with the given window, in
/// order.
pub fn collect_probes(v: &Vec<u8>, window: usize) -> (r: Vec<u8>)
    requires
        window < usize::MAX,
    ensures
        r@ == probe_seq(v@, window as nat),
{
    let mut it = ValIterator::new(v, window);
    let mut out: Vec<u8> = Vec::new();
    loop
        invariant
            it.wf(),
            it.source() == v@,
            it.window() == window,
            out@ == it.probes().take(it.produced() as int),
            it.produced() <= it.probes().len(),
        decreases it.probes().len() - it.produced(),
    {
        match it.next() {
            Some(b) => {
                out.push(b);
                proof {
                    assert(out@ =~= it.probes().take(it.produced() as int));
                }
            },
            None => {
                proof {
                    assert(out@ =~= it.probes());
                }
                return out;
            },
        }
    }
}

} // verus!
