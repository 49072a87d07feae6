//! A fixed-size set of bits, one per physical frame.
use vstd::prelude::*;

verus! {

/// Number of set bits in `s`.
pub open spec fn count_set(s: Seq<bool>) -> nat
    decreases s.len(),
{
    if s.len() == 0 {
        0
    } else {
        count_set(s.drop_last()) + (if s.last() { 1nat } else { 0nat })
    }
}

/// Setting one bit changes the count by the difference at that bit.
pub proof fn lemma_count_update(s: Seq<bool>, i: int, b: bool)
    requires
        0 <= i < s.len(),
    ensures
        count_set(s.update(i, b)) + (if s[i] { 1nat } else { 0nat }) == count_set(s) + (if b {
            1nat
        } else {
            0nat
        }),
    decreases s.len(),
{
    let u = s.update(i, b);
    if i == s.len() - 1 {
        assert(u.drop_last() =~= s.drop_last());
    } else {
        lemma_count_update(s.drop_last(), i, b);
        assert(u.drop_last() =~= s.drop_last().update(i, b));
    }
}

/// The count never exceeds the length.
pub proof fn lemma_count_bound(s: Seq<bool>)
    ensures
        count_set(s) <= s.len(),
    decreases s.len(),
{
    if s.len() > 0 {
        lemma_count_bound(s.drop_last());
    }
}

/// A sequence of clear bits counts zero.
pub proof fn lemma_count_clear(n: nat)
    ensures
        count_set(Seq::new(n, |i: int| false)) == 0,
    decreases n,
{
    if n > 0 {
        lemma_count_clear((n - 1) as nat);
        assert(Seq::new(n, |i: int| false).drop_last() =~= Seq::new((n - 1) as nat, |i: int| false));
    }
}

/// Bit `i` is set when frame `i` is in use.
pub struct BitSet {
    /// One flag per frame.
    pub bits: Vec<bool>,
    /// Number of set bits.
    pub bits_used: usize,
    /// Number of bits.
    pub size: usize,
}

impl BitSet {
    /// The bits, lowest index first.
    pub open spec fn view(&self) -> Seq<bool> {
        self.bits@
    }

    pub open spec fn wf(&self) -> bool {
        &&& self.bits@.len() == self.size
        &&& self.bits_used == count_set(self.bits@)
    }

    /// The index of the lowest clear bit, if any.
    pub open spec fn spec_first_unset(s: Seq<bool>) -> Option<nat> {
        if exists|i: int| 0 <= i < s.len() && !s[i] {
            let i = choose|i: int| 0 <= i < s.len() && !s[i] && forall|j: int| 0 <= j < i ==> s[j];
            Some(i as nat)
        } else {
            None
        }
    }

    /// A set of `size` clear bits.
    pub fn new(size: usize) -> (r: BitSet)
        ensures
            r.wf(),
            r@ == Seq::new(size as nat, |i: int| false),
            r.size == size,
            r.bits_used == 0,
    {
        let mut bits: Vec<bool> = Vec::new();
        let mut i: usize = 0;
        while i < size
            invariant
                i <= size,
                bits@ == Seq::new(i as nat, |k: int| false),
            decreases size - i,
        {
            bits.push(false);
            i = i + 1;
        }
        proof {
            lemma_count_clear(size as nat);
        }
        BitSet { bits, bits_used: 0, size }
    }

    /// Whether bit `idx` is set.
    pub fn test(&self, idx: usize) -> (r: bool)
        requires
            self.wf(),
            idx < self.size,
        ensures
            r == self@[idx as int],
    {
        self.bits[idx]
    }

    /// Sets bit `idx`.
    pub fn set(&mut self, idx: usize)
        requires
            old(self).wf(),
            idx < old(self).size,
        ensures
            final(self).wf(),
            final(self).size == old(self).size,
            final(self)@ == old(self)@.update(idx as int, true),
    {
        proof {
            lemma_count_update(self.bits@, idx as int, true);
            lemma_count_bound(self.bits@.update(idx as int, true));
        }
        if !self.bits[idx] {
            self.bits_used = self.bits_used + 1;
        }
        self.bits.set(idx, true);
    }

    /// Clears bit `idx`.
    pub fn clear(&mut self, idx: usize)
        requires
            old(self).wf(),
            idx < old(self).size,
        ensures
            final(self).wf(),
            final(self).size == old(self).size,
            final(self)@ == old(self)@.update(idx as int, false),
    {
        proof {
            lemma_count_update(self.bits@, idx as int, false);
        }
        if self.bits[idx] {
            self.bits_used = self.bits_used - 1;
        }
        self.bits.set(idx, false);
    }

    /// The lowest clear bit, if any.
    pub fn first_unset(&self) -> (r: Option<usize>)
        requires
            self.wf(),
        ensures
            match r {
                Some(i) => i < self.size && !self@[i as int] && forall|j: int| 0 <= j < i ==> self@[j],
                None => forall|j: int| 0 <= j < self.size ==> self@[j],
            },
            r matches Some(i) ==> Self::spec_first_unset(self@) == Some(i as nat),
            r is None ==> Self::spec_first_unset(self@) is None,
    {
        let mut i: usize = 0;
        while i < self.size
            invariant
                self.wf(),
                i <= self.size,
                forall|j: int| 0 <= j < i ==> self@[j],
            decreases self.size - i,
        {
            if !self.bits[i] {
                proof {
                    let s = self@;
                    let k = choose|k: int| 0 <= k < s.len() && !s[k] && forall|j: int| 0 <= j < k ==> s[j];
                    assert(0 <= i && (i as int) < s.len() && !s[i as int] && forall|j: int| 0 <= j < i ==> s[j]);
                    if k < i {
                        assert(s[k]);
                    } else if k > i {
                        assert(s[i as int]);
                    }
                }
                return Some(i);
            }
            i = i + 1;
        }
        None
    }
}

} // verus!
