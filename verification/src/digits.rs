use vstd::prelude::*;

verus! {

/// `10` raised to the power `k`.
pub open spec fn pow10(k: nat) -> nat
    decreases k,
{
    if k == 0 {
        1
    } else {
        10 * pow10((k - 1) as nat)
    }
}

/// The ASCII byte of the decimal digit `d` (for `d < 10`).
pub open spec fn digit_byte(d: nat) -> u8 {
    (48 + d) as u8
}

/// The base-10 representation of `v` in ASCII digits, most significant first,
/// with no leading zeros (`0` is written as a single `'0'`).
pub open spec fn decimal(v: nat) -> Seq<u8>
    decreases v,
{
    if v < 10 {
        seq![digit_byte(v)]
    } else {
        decimal(v / 10).push(digit_byte(v % 10))
    }
}

/// The value of a sequence of ASCII decimal digits, most significant first.
pub open spec fn decimal_value(s: Seq<u8>) -> int
    decreases s.len(),
{
    if s.len() == 0 {
        0
    } else {
        10 * decimal_value(s.drop_last()) + (s.last() - 48)
    }
}

/// The digits of `v` that remain to be written once its low digits are taken
/// off: nothing when `v` is zero, its representation otherwise.
pub open spec fn remaining_digits(v: nat) -> Seq<u8> {
    if v == 0 {
        Seq::empty()
    } else {
        decimal(v)
    }
}

/// Every byte of a representation is an ASCII digit, and the representation
/// has at least one byte.
pub proof fn lemma_decimal_digits(v: nat)
    ensures
        decimal(v).len() >= 1,
        forall|i: int| 0 <= i < decimal(v).len() ==> 48 <= #[trigger] decimal(v)[i] <= 57,
    decreases v,
{
    if v >= 10 {
        lemma_decimal_digits(v / 10);
    }
}

/// Reading back the representation of `v` gives `v`.
pub proof fn lemma_decimal_round_trip(v: nat)
    ensures
        decimal_value(decimal(v)) == v,
    decreases v,
{
    if v >= 10 {
        lemma_decimal_round_trip(v / 10);
        assert(decimal(v).drop_last() =~= decimal(v / 10));
        assert(decimal(v).last() == 48 + v % 10);
        assert(decimal_value(decimal(v)) == 10 * decimal_value(decimal(v / 10)) + v % 10);
    } else {
        assert(decimal(v).drop_last() =~= Seq::<u8>::empty());
        assert(decimal(v).last() == 48 + v);
        assert(decimal_value(decimal(v).drop_last()) == 0);
    }
}

/// A number below `10^k` has at most `k` digits, and one of at least `10^(k-1)`
/// has at least `k`.
pub proof fn lemma_decimal_len(v: nat, k: nat)
    requires
        k >= 1,
    ensures
        v < pow10(k) ==> decimal(v).len() <= k,
        pow10((k - 1) as nat) <= v ==> decimal(v).len() >= k,
    decreases k,
{
    if k == 1 {
        reveal_with_fuel(pow10, 2);
    } else {
        lemma_decimal_len(v / 10, (k - 1) as nat);
        assert(pow10(k) == 10 * pow10((k - 1) as nat));
        assert(pow10((k - 1) as nat) == 10 * pow10((k - 2) as nat));
        if v >= 10 {
            assert(v < pow10(k) ==> v / 10 < pow10((k - 1) as nat));
            assert(pow10((k - 1) as nat) <= v ==> pow10((k - 2) as nat) <= v / 10);
        } else {
            lemma_pow10_positive((k - 2) as nat);
        }
    }
}

/// Powers of ten are positive.
pub proof fn lemma_pow10_positive(k: nat)
    ensures
        pow10(k) >= 1,
    decreases k,
{
    if k > 0 {
        lemma_pow10_positive((k - 1) as nat);
    }
}

/// A representation has no more digits than the number has units (for a
/// positive number).
pub proof fn lemma_decimal_len_le_value(v: nat)
    requires
        v >= 1,
    ensures
        decimal(v).len() <= v,
    decreases v,
{
    if v >= 10 {
        lemma_decimal_len_le_value(v / 10);
    }
}

/// A `usize` has at most twenty base-10 digits.
pub proof fn lemma_usize_digits(v: usize)
    ensures
        decimal(v as nat).len() <= 20,
{
    reveal_with_fuel(pow10, 21);
    assert(pow10(20) == 100_000_000_000_000_000_000nat);
    lemma_decimal_len(v as nat, 20);
}

/// The number of base-10 digits of `num`.
pub fn num_str_len(num: usize) -> (len: usize)
    ensures
        len == decimal(num as nat).len(),
{
    let mut rest = num;
    let mut len: usize = 1;
    proof {
        lemma_usize_digits(num);
        lemma_decimal_digits(rest as nat);
    }
    while rest >= 10
        invariant
            decimal(num as nat).len() == decimal(rest as nat).len() + len - 1,
            decimal(num as nat).len() <= 20,
            1 <= len,
        decreases rest,
    {
        proof {
            lemma_decimal_digits((rest / 10) as nat);
        }
        rest = rest / 10;
        len = len + 1;
    }
    len
}

/// Appends the base-10 digits of `v` to `out` and returns how many were
/// appended. At most eight digits fit the scratch buffer, so `v` stays below
/// `10^8`.
pub fn write_usize_decimal(out: &mut Vec<u8>, v: usize) -> (len: usize)
    requires
        v < 100_000_000,
    ensures
        final(out)@ == old(out)@ + decimal(v as nat),
        len == decimal(v as nat).len(),
{
    if v == 0 {
        out.push(48);
        assert(decimal(0) =~= seq![48u8]);
        return 1;
    }
    let mut tmp: [u8; 8] = [0u8; 8];
    let mut len: usize = 0;
    let mut rest = v;
    let ghost mut low: Seq<u8> = Seq::empty();
    proof {
        reveal_with_fuel(pow10, 9);
        lemma_decimal_len(v as nat, 8);
        lemma_decimal_digits(v as nat);
    }
    while rest > 0
        invariant
            decimal(v as nat) =~= remaining_digits(rest as nat) + low,
            decimal(v as nat).len() <= 8,
            low.len() == len,
            len <= 8,
            forall|i: int| 0 <= i < len ==> #[trigger] low[i] == tmp[len - 1 - i],
        decreases rest,
    {
        proof {
            lemma_decimal_digits(rest as nat);
        }
        let d = (rest % 10) as u8;
        tmp[len] = 48 + d;
        proof {
            if rest >= 10 {
                assert(decimal(rest as nat) =~= decimal((rest / 10) as nat).push(digit_byte((rest % 10) as nat)));
            }
            low = seq![(48 + d) as u8].add(low);
        }
        len = len + 1;
        rest = rest / 10;
    }
    let ghost start = out@;
    let mut k: usize = len;
    while k > 0
        invariant
            k <= len,
            len <= 8,
            low.len() == len,
            forall|i: int| 0 <= i < len ==> #[trigger] low[i] == tmp[len - 1 - i],
            out@ =~= start + low.take(len - k),
        decreases k,
    {
        k = k - 1;
        out.push(tmp[k]);
        proof {
            assert(low.take(len - k) =~= low.take(len - k - 1).push(low[len - k - 1]));
        }
    }
    proof {
        assert(low.take(len as int) =~= low);
    }
    len
}

/// The ASCII digits of a byte value, as the lookup table of the renderer holds
/// them: three digits from 100 on, two from 10 on, one below.
pub fn write_u8_decimal(out: &mut Vec<u8>, v: u8) -> (len: usize)
    ensures
        final(out)@ == old(out)@ + decimal(v as nat),
        len == decimal(v as nat).len(),
        1 <= len <= 3,
{
    proof {
        reveal_with_fuel(decimal, 3);
    }
    if v >= 100 {
        out.push(48 + v / 100);
        out.push(48 + (v / 10) % 10);
        out.push(48 + v % 10);
        assert(decimal(v as nat) =~= seq![(48 + v / 100) as u8, (48 + (v / 10) % 10) as u8, (48 + v % 10) as u8]);
        3
    } else if v >= 10 {
        out.push(48 + v / 10);
        out.push(48 + v % 10);
        assert(decimal(v as nat) =~= seq![(48 + v / 10) as u8, (48 + v % 10) as u8]);
        2
    } else {
        out.push(48 + v);
        assert(decimal(v as nat) =~= seq![(48 + v) as u8]);
        1
    }
}

} // verus!
