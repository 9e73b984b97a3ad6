use vstd::prelude::*;

verus! {

/// Whether entry `i` (0 is the most recent) is set in the raw register `r`.
pub open spec fn bit(r: u128, i: int) -> bool {
    (r >> (i as u128)) & 1u128 == 1u128
}

/// The entries of a register after `value` is pushed onto the one holding `s`:
/// the new value becomes the most recent entry and the oldest entry falls off.
pub open spec fn pushed(s: Seq<bool>, value: bool) -> Seq<bool> {
    seq![value] + s.take(127)
}

/// The entries of a register after its most recent entry is popped off the one
/// holding `s`: every entry moves one step towards the front and a `false`
/// enters at the oldest end.
pub open spec fn popped(s: Seq<bool>) -> Seq<bool> {
    s.drop_first().push(false)
}

/// The `n` most recent entries of `s` are all `true`.
pub open spec fn all_recent(s: Seq<bool>, n: int) -> bool {
    forall|i: int| 0 <= i < n ==> #[trigger] s[i]
}

/// How many entries of `s` are `true`.
pub open spec fn trues(s: Seq<bool>) -> nat
    decreases s.len(),
{
    if s.len() == 0 {
        0
    } else {
        trues(s.drop_last()) + if s.last() {
            1nat
        } else {
            0nat
        }
    }
}

/// The mask of the `n` lowest bits.
pub open spec fn low_mask(n: u128) -> u128 {
    ((1u128 << n) - 1u128) as u128
}

/// 128 bit register that stores true or false values
pub struct ShiftRegister {
    register: u128,
}

impl View for ShiftRegister {
    type V = Seq<bool>;

    /// The 128 entries, most recent first.
    closed spec fn view(&self) -> Seq<bool> {
        Seq::new(128, |i: int| bit(self.register, i))
    }
}

proof fn lemma_low_mask(r: u128, n: u128)
    requires
        n < 128,
    ensures
        ((r & low_mask(n)) == low_mask(n)) == (forall|i: int| 0 <= i < n ==> #[trigger] bit(r, i)),
    decreases n,
{
    if n == 0 {
        assert(low_mask(0) == 0) by (bit_vector);
        assert(r & 0 == 0) by (bit_vector);
    } else {
        let m = (n - 1) as u128;
        lemma_low_mask(r, m);
        let m0 = low_mask(m);
        let m1 = low_mask(n);
        assert(((r & m1) == m1) == ((r & m0) == m0 && (r >> m) & 1u128 == 1u128)) by (bit_vector)
            requires
                m < 127,
                n == m + 1,
                m0 == ((1u128 << m) - 1u128) as u128,
                m1 == ((1u128 << n) - 1u128) as u128,
        ;
        if (r & m1) == m1 {
            assert forall|i: int| 0 <= i < n implies #[trigger] bit(r, i) by {
                if i < m {
                    assert(bit(r, i));
                } else {
                    assert(i == m);
                }
            }
        }
        if forall|i: int| 0 <= i < n ==> #[trigger] bit(r, i) {
            assert(bit(r, m as int));
            assert(forall|i: int| 0 <= i < m ==> #[trigger] bit(r, i) == bit(r, i));
        }
    }
}

impl ShiftRegister {
    pub fn new() -> (result: Self)
        ensures
            result@.len() == 128,
            result@ == Seq::new(128, |i: int| false),
    {
        let result = ShiftRegister { register: 0 };
        proof {
            assert forall|i: int| 0 <= i < 128 implies !bit(0u128, i) by {
                let iu = i as u128;
                assert((0u128 >> iu) & 1u128 == 0u128) by (bit_vector);
            }
        }
        assert(result@ =~= Seq::new(128, |i: int| false));
        result
    }

    pub fn push(&mut self, value: bool)
        ensures
            final(self)@.len() == 128,
            final(self)@ == pushed(old(self)@, value),
    {
        let ghost r = self.register;
        let b: u128 = if value { 1 } else { 0 };
        self.register = (self.register << 1u128) | b;
        proof {
            let r2 = self.register;
            assert(r2 == (r << 1u128) | b);
            assert forall|i: int| 0 <= i < 128 implies #[trigger] bit(r2, i) == pushed(
                old(self)@,
                value,
            )[i] by {
                let iu = i as u128;
                if i == 0 {
                    assert((((r << 1u128) | b) >> 0u128) & 1u128 == b) by (bit_vector)
                        requires
                            b <= 1,
                    ;
                } else {
                    assert((((r << 1u128) | b) >> iu) & 1u128 == (r >> ((iu - 1) as u128))
                        & 1u128) by (bit_vector)
                        requires
                            1 <= iu < 128,
                            b <= 1,
                    ;
                    assert(pushed(old(self)@, value)[i] == old(self)@[i - 1]);
                }
            }
            assert(self@ =~= pushed(old(self)@, value));
        }
    }

    pub fn pop(&mut self) -> (result: bool)
        ensures
            final(self)@.len() == 128,
            result == old(self)@[0],
            final(self)@ == popped(old(self)@),
    {
        let ghost r = self.register;
        let result = self.register & 1 == 1;
        self.register = self.register >> 1u128;
        proof {
            assert((r >> 0u128) & 1u128 == r & 1u128) by (bit_vector);
            let r2 = self.register;
            assert forall|i: int| 0 <= i < 128 implies #[trigger] bit(r2, i) == popped(
                old(self)@,
            )[i] by {
                let iu = i as u128;
                if i < 127 {
                    assert(((r >> 1u128) >> iu) & 1u128 == (r >> ((iu + 1) as u128)) & 1u128)
                        by (bit_vector)
                        requires
                            iu < 127,
                    ;
                } else {
                    assert(((r >> 1u128) >> 127u128) & 1u128 == 0u128) by (bit_vector);
                }
            }
            assert(self@ =~= popped(old(self)@));
        }
        result
    }

    /// Returns true if the previous n entries have all been true
    pub fn full_recent(&self, n: u32) -> (result: bool)
        requires
            n <= 128,
        ensures
            result == all_recent(self@, n as int),
    {
        if n == 128 {
            let result = self.register == u128::MAX;
            proof {
                let r = self.register;
                let m = low_mask(127);
                lemma_low_mask(r, 127);
                assert((r == u128::MAX) == ((r & m) == m && (r >> 127u128) & 1u128 == 1u128))
                    by (bit_vector)
                    requires
                        m == ((1u128 << 127u128) - 1u128) as u128,
                ;
                if result {
                    assert forall|i: int| 0 <= i < 128 implies #[trigger] self@[i] by {
                        if i < 127 {
                            assert(bit(r, i));
                        } else {
                            assert(bit(r, 127));
                        }
                    }
                }
                if all_recent(self@, 128) {
                    assert forall|i: int| 0 <= i < 127 implies #[trigger] bit(r, i) by {
                        assert(self@[i]);
                    }
                    assert(self@[127]);
                    assert(bit(r, 127));
                }
            }
            return result;
        }
        let nu = n as u128;
        assert((1u128 << nu) >= 1u128) by (bit_vector)
            requires
                nu < 128,
        ;
        let mask: u128 = (1u128 << nu) - 1;
        let result = self.register & mask == mask;
        proof {
            lemma_low_mask(self.register, nu);
            assert(mask == low_mask(nu));
            if result {
                assert forall|i: int| 0 <= i < n implies #[trigger] self@[i] by {
                    assert(bit(self.register, i));
                }
            }
            if all_recent(self@, n as int) {
                assert forall|i: int| 0 <= i < nu implies #[trigger] bit(self.register, i) by {
                    assert(self@[i]);
                }
            }
        }
        result
    }

    /// How many of the entries are true: the count behind the register's fullness
    pub fn count_true(&self) -> (result: u32)
        ensures
            result == trues(self@),
    {
        let mut count: u32 = 0;
        let mut i: u32 = 0;
        while i < 128
            invariant
                i <= 128,
                count <= i,
                count == trues(self@.take(i as int)),
            decreases 128 - i,
        {
            let b = (self.register >> i) & 1;
            proof {
                assert(self@.take(i + 1).drop_last() =~= self@.take(i as int));
                assert(self@[i as int] == bit(self.register, i as int));
            }
            if b == 1 {
                count = count + 1;
            }
            i = i + 1;
        }
        assert(self@.take(128) =~= self@);
        count
    }

    /// The raw register, most recent entry in the lowest bit.
    pub fn bits(&self) -> (result: u128)
        ensures
            forall|i: int| 0 <= i < 128 ==> #[trigger] bit(result, i) == self@[i],
    {
        self.register
    }
}

/// Every register holds exactly 128 entries.
pub proof fn lemma_register_len(register: &ShiftRegister)
    ensures
        register@.len() == 128,
{
}

/// Popping a register right after pushing `value` gives back `value`, and the
/// register then holds what it held before, except for its oldest entry.
pub proof fn lemma_pop_after_push(s: Seq<bool>, value: bool)
    requires
        s.len() == 128,
    ensures
        pushed(s, value)[0] == value,
        popped(pushed(s, value)) == s.take(127).push(false),
{
    assert(popped(pushed(s, value)) =~= s.take(127).push(false));
}

/// Pushing back the entry that was just popped restores the register exactly.
pub proof fn lemma_push_after_pop(s: Seq<bool>)
    requires
        s.len() == 128,
    ensures
        pushed(popped(s), s[0]) == s,
{
    assert(pushed(popped(s), s[0]) =~= s);
}

/// After pushing `true`, the last `n + 1` entries are all true exactly when the
/// last `n` entries were; after pushing `false`, no run of recent entries is.
pub proof fn lemma_full_recent_after_push(s: Seq<bool>, n: int)
    requires
        s.len() == 128,
        0 <= n < 127,
    ensures
        all_recent(pushed(s, true), n + 1) == all_recent(s, n),
        !all_recent(pushed(s, false), n + 1),
        all_recent(s, 0),
{
    let t = pushed(s, true);
    if all_recent(s, n) {
        assert forall|i: int| 0 <= i < n + 1 implies #[trigger] t[i] by {
            if i > 0 {
                assert(t[i] == s[i - 1]);
            }
        }
    }
    if all_recent(t, n + 1) {
        assert forall|i: int| 0 <= i < n implies #[trigger] s[i] by {
            assert(t[i + 1] == s[i]);
        }
    }
    assert(!pushed(s, false)[0]);
}

} // verus!
