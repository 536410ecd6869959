use vstd::prelude::*;
use crate::digits::{decimal, remaining_digits};

verus! {

/// Appends `c` to `s` (`String::push`).
#[verifier::external_body]
pub fn push_char(s: &mut String, c: char)
    ensures
        final(s)@ == old(s)@.push(c),
{
    s.push(c);
}

/// The ASCII digits of a decimal representation, as characters.
pub open spec fn decimal_text(v: nat) -> Seq<char> {
    decimal(v).map_values(|b: u8| b as char)
}

/// A copy of an optional text.
pub fn copy_opt_string(s: &Option<String>) -> (r: Option<String>)
    ensures
        opt_text(r) == opt_text(*s),
{
    match s {
        Some(t) => Some(t.clone()),
        None => None,
    }
}

/// The characters of an optional text.
pub open spec fn opt_text(s: Option<String>) -> Option<Seq<char>> {
    match s {
        Some(t) => Some(t@),
        None => None,
    }
}

/// A copy of a list of texts.
pub fn copy_strings(v: &Vec<String>) -> (r: Vec<String>)
    ensures
        texts(r@) == texts(v@),
{
    let mut r: Vec<String> = Vec::new();
    let mut k: usize = 0;
    while k < v.len()
        invariant
            k <= v@.len(),
            texts(r@) == texts(v@.take(k as int)),
        decreases v@.len() - k,
    {
        let ghost before = r@;
        r.push(v[k].clone());
        proof {
            assert(v@.take(k + 1) =~= v@.take(k as int).push(v@[k as int]));
            lemma_map_push(before, v@[k as int], |s: String| s@);
            lemma_map_push(v@.take(k as int), v@[k as int], |s: String| s@);
        }
        k = k + 1;
    }
    proof {
        assert(v@.take(v@.len() as int) =~= v@);
    }
    r
}

/// The characters of each text of a list.
pub open spec fn texts(v: Seq<String>) -> Seq<Seq<char>> {
    v.map_values(|s: String| s@)
}

/// Mapping a sequence with an element pushed maps the element at the end.
pub proof fn lemma_map_push<A, B>(s: Seq<A>, a: A, f: spec_fn(A) -> B)
    ensures
        s.push(a).map_values(f) =~= s.map_values(f).push(f(a)),
{
    assert forall|i: int| 0 <= i < s.push(a).len() implies #[trigger] s.push(a).map_values(f)[i] == s.map_values(f).push(f(a))[i] by {
        if i < s.len() {
        } else {
        }
    }
}

/// The decimal representation of `v` as text.
pub fn usize_text(v: usize) -> (s: String)
    ensures
        s@ == decimal_text(v as nat),
{
    if v == 0 {
        let mut s = String::new();
        push_char(&mut s, '0');
        assert(decimal(0) =~= seq![48u8]);
        assert(s@ =~= decimal_text(0));
        return s;
    }
    let mut low: Vec<u8> = Vec::new();
    let mut rest = v;
    let ghost mut acc: Seq<u8> = Seq::empty();
    while rest > 0
        invariant
            decimal(v as nat) =~= remaining_digits(rest as nat) + acc,
            low@.len() == acc.len(),
            forall|i: int| 0 <= i < low@.len() ==> #[trigger] acc[i] == low@[low@.len() - 1 - i],
        decreases rest,
    {
        let d = (rest % 10) as u8;
        low.push(48 + d);
        proof {
            if rest >= 10 {
                assert(decimal(rest as nat) =~= decimal((rest / 10) as nat).push((48 + rest % 10) as u8));
            }
            acc = seq![(48 + d) as u8].add(acc);
        }
        rest = rest / 10;
    }
    let mut s = String::new();
    let mut k: usize = low.len();
    while k > 0
        invariant
            k <= low@.len(),
            low@.len() == acc.len(),
            forall|i: int| 0 <= i < low@.len() ==> #[trigger] acc[i] == low@[low@.len() - 1 - i],
            s@ =~= acc.take(low@.len() - k).map_values(|b: u8| b as char),
        decreases k,
    {
        k = k - 1;
        push_char(&mut s, low[k] as char);
        proof {
            assert(acc.take(low@.len() - k) =~= acc.take(low@.len() - k - 1).push(acc[low@.len() - k - 1]));
            lemma_map_push(acc.take(low@.len() - k - 1), acc[low@.len() - k - 1], |b: u8| b as char);
        }
    }
    proof {
        assert(acc.take(low@.len() as int) =~= acc);
    }
    s
}

/// The number of bytes of `c` in UTF-8.
pub open spec fn utf8_len(c: char) -> nat {
    let v = c as u32;
    if v < 0x80 {
        1
    } else if v < 0x800 {
        2
    } else if v < 0x10000 {
        3
    } else {
        4
    }
}

/// The number of bytes of a text in UTF-8.
pub open spec fn byte_len(s: Seq<char>) -> nat
    decreases s.len(),
{
    if s.len() == 0 {
        0
    } else {
        byte_len(s.drop_last()) + utf8_len(s.last())
    }
}

/// The first `k` at or after `from` such that the first `k` characters take
/// `b` bytes.
pub open spec fn boundary_from(s: Seq<char>, b: int, from: int) -> Option<int>
    decreases s.len() + 1 - from,
{
    if from < 0 || from > s.len() {
        None
    } else if byte_len(s.take(from)) == b {
        Some(from)
    } else {
        boundary_from(s, b, from + 1)
    }
}

/// The character index at which byte offset `b` of a text starts a
/// character (or ends the text); none when `b` is not on a character boundary.
pub open spec fn char_at_byte(s: Seq<char>, b: int) -> Option<int> {
    boundary_from(s, b, 0)
}

/// One more character adds its bytes.
pub proof fn lemma_byte_len_take_step(s: Seq<char>, k: int)
    requires
        0 <= k < s.len(),
    ensures
        byte_len(s.take(k + 1)) == byte_len(s.take(k)) + utf8_len(s[k]),
{
    assert(s.take(k + 1).drop_last() =~= s.take(k));
}

/// The bytes of two texts joined are the bytes of each.
pub proof fn lemma_byte_len_concat(a: Seq<char>, b: Seq<char>)
    ensures
        byte_len(a + b) == byte_len(a) + byte_len(b),
    decreases b.len(),
{
    if b.len() == 0 {
        assert(a + b =~= a);
    } else {
        lemma_byte_len_concat(a, b.drop_last());
        assert((a + b).drop_last() =~= a + b.drop_last());
    }
}

/// A longer prefix takes more bytes: every character takes at least one.
pub proof fn lemma_byte_len_prefix_grows(s: Seq<char>, j: int, k: int)
    requires
        0 <= j <= k <= s.len(),
    ensures
        byte_len(s.take(j)) + (k - j) <= byte_len(s.take(k)),
    decreases k - j,
{
    if j < k {
        lemma_byte_len_prefix_grows(s, j, k - 1);
        lemma_byte_len_take_step(s, k - 1);
    }
}

/// The whole text is its longest prefix.
pub proof fn lemma_take_all(s: Seq<char>)
    ensures
        s.take(s.len() as int) == s,
{
    assert(s.take(s.len() as int) =~= s);
}

/// A prefix of `k` characters whose bytes are `b` is the boundary at `b`.
pub proof fn lemma_boundary_found(s: Seq<char>, b: int, k: int, from: int)
    requires
        0 <= from <= k <= s.len(),
        byte_len(s.take(k)) == b,
    ensures
        boundary_from(s, b, from) == Some(k),
    decreases k - from,
{
    if from < k {
        lemma_byte_len_prefix_grows(s, from, k);
        lemma_boundary_found(s, b, k, from + 1);
    }
}

/// A found boundary lies within the text, and its prefix has those bytes.
pub proof fn lemma_boundary_valid(s: Seq<char>, b: int, from: int)
    requires
        boundary_from(s, b, from) is Some,
    ensures
        0 <= boundary_from(s, b, from)->0 <= s.len(),
        byte_len(s.take(boundary_from(s, b, from)->0)) == b,
    decreases s.len() + 1 - from,
{
    if from >= 0 && from <= s.len() && byte_len(s.take(from)) != b {
        lemma_boundary_valid(s, b, from + 1);
    }
}

/// The number of bytes of `c` in UTF-8 (`char::len_utf8`).
pub fn char_utf8_len(c: char) -> (n: usize)
    ensures
        n == utf8_len(c),
{
    let v = c as u32;
    if v < 0x80 {
        1
    } else if v < 0x800 {
        2
    } else if v < 0x10000 {
        3
    } else {
        4
    }
}

/// The number of bytes of a text in UTF-8.
pub fn text_byte_len(s: &Vec<char>) -> (n: u128)
    ensures
        n == byte_len(s@),
{
    let mut acc: u128 = 0;
    let mut k: usize = 0;
    while k < s.len()
        invariant
            k <= s@.len(),
            acc == byte_len(s@.take(k as int)),
            acc <= 4 * k,
        decreases s@.len() - k,
    {
        proof {
            lemma_byte_len_take_step(s@, k as int);
        }
        acc = acc + char_utf8_len(s[k]) as u128;
        k = k + 1;
    }
    proof {
        lemma_take_all(s@);
    }
    acc
}

/// The character index at which byte offset `b` of a text starts a
/// character (or ends the text), if it is on a character boundary.
pub fn char_index_at(s: &Vec<char>, b: usize) -> (r: Option<usize>)
    ensures
        match r {
            Some(k) => char_at_byte(s@, b as int) == Some(k as int),
            None => char_at_byte(s@, b as int) is None,
        },
{
    let mut acc: u128 = 0;
    let mut k: usize = 0;
    loop
        invariant
            k <= s@.len(),
            acc == byte_len(s@.take(k as int)),
            acc <= 4 * k,
            char_at_byte(s@, b as int) == boundary_from(s@, b as int, k as int),
        decreases s@.len() - k,
    {
        if acc == b as u128 {
            return Some(k);
        }
        if k == s.len() {
            proof {
                assert(boundary_from(s@, b as int, (k + 1) as int) is None);
            }
            return None;
        }
        proof {
            lemma_byte_len_take_step(s@, k as int);
        }
        acc = acc + char_utf8_len(s[k]) as u128;
        k = k + 1;
    }
}

} // verus!
