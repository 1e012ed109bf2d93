//! Fixed-width digit strings: rendering a number as exactly `n` digits
//! in base ten or sixteen, and reading such a string back.
use vstd::prelude::*;
use vstd::string::*;

verus! {

/// The character for digit `d` (below sixteen).
pub open spec fn digit_char(d: nat) -> char {
    if d < 10 {
        (('0' as nat) + d) as char
    } else {
        (('a' as nat) + (d - 10)) as char
    }
}

/// Value of a digit character in the given base, if it is one.
pub open spec fn digit_value(c: char, base: nat) -> Option<nat> {
    if '0' <= c && c <= '9' && (c as nat - '0' as nat) < base {
        Some((c as nat - '0' as nat) as nat)
    } else if 'a' <= c && c <= 'f' && (c as nat - 'a' as nat) + 10 < base {
        Some((c as nat - 'a' as nat + 10) as nat)
    } else {
        None
    }
}

/// Every character of `s` is a digit of `base`.
pub open spec fn all_digits(s: Seq<char>, base: nat) -> bool {
    forall|i: int| 0 <= i < s.len() ==> (#[trigger] digit_value(s[i], base)) is Some
}

/// The number that the digit string `s` spells in `base`, most significant first.
pub open spec fn value_of(s: Seq<char>, base: nat) -> nat
    decreases s.len(),
{
    if s.len() == 0 {
        0
    } else {
        value_of(s.drop_last(), base) * base + digit_value(s.last(), base).unwrap_or(0)
    }
}

/// `v` written with exactly `n` digits of `base` (higher digits dropped, zeros in front).
pub open spec fn digits_of(v: nat, n: nat, base: nat) -> Seq<char>
    decreases n,
{
    if n == 0 || base == 0 {
        Seq::empty()
    } else {
        digits_of(v / base, (n - 1) as nat, base).push(digit_char(v % base))
    }
}

/// `base` to the power `n`: the numbers below it have `n` digits.
pub open spec fn place(n: nat, base: nat) -> nat
    decreases n,
{
    if n == 0 {
        1
    } else {
        base * place((n - 1) as nat, base)
    }
}

pub open spec fn is_base(base: nat) -> bool {
    base == 10 || base == 16
}

proof fn lemma_digit_round_trip(d: nat, base: nat)
    requires
        is_base(base),
        d < base,
    ensures
        digit_value(digit_char(d), base) == Some(d),
{
}

proof fn lemma_value_round_trip(c: char, base: nat)
    requires
        is_base(base),
        digit_value(c, base) is Some,
    ensures
        digit_char(digit_value(c, base).unwrap()) == c,
{
}

/// Rendering a number below `place(n, base)` and reading it back gives the number.
pub proof fn lemma_read_rendered(v: nat, n: nat, base: nat)
    requires
        is_base(base),
        v < place(n, base),
    ensures
        digits_of(v, n, base).len() == n,
        all_digits(digits_of(v, n, base), base),
        value_of(digits_of(v, n, base), base) == v,
    decreases n,
{
    if n > 0 {
        let q = v / base;
        let r = v % base;
        let p = place((n - 1) as nat, base);
        assert(q < p) by (nonlinear_arith)
            requires
                v < base * p,
                q == v / base,
                base > 0,
        ;
        lemma_read_rendered(q, (n - 1) as nat, base);
        lemma_digit_round_trip(r, base);
        let s = digits_of(v, n, base);
        assert(s.drop_last() =~= digits_of(q, (n - 1) as nat, base));
        assert(v == q * base + r) by (nonlinear_arith)
            requires
                q == v / base,
                r == v % base,
                base > 0,
        ;
        assert forall|i: int| 0 <= i < s.len() implies (#[trigger] digit_value(s[i], base)) is Some by {
            if i < n - 1 {
                assert(s[i] == s.drop_last()[i]);
            }
        }
    }
}

/// A string of digits is the rendering of its own value, at its own length.
pub proof fn lemma_render_read(s: Seq<char>, base: nat)
    requires
        is_base(base),
        all_digits(s, base),
    ensures
        digits_of(value_of(s, base), s.len(), base) == s,
        value_of(s, base) < place(s.len(), base),
    decreases s.len(),
{
    if s.len() > 0 {
        let p = s.drop_last();
        assert forall|i: int| 0 <= i < p.len() implies (#[trigger] digit_value(p[i], base)) is Some by {
            assert(p[i] == s[i]);
        }
        lemma_render_read(p, base);
        assert(digit_value(s[s.len() - 1], base) is Some);
        let d = digit_value(s.last(), base).unwrap();
        let a = value_of(p, base);
        let v = value_of(s, base);
        assert(v == a * base + d);
        lemma_value_round_trip(s.last(), base);
        assert(v / base == a && v % base == d) by (nonlinear_arith)
            requires
                v == a * base + d,
                d < base,
                base > 0,
        ;
        let pp = place((s.len() - 1) as nat, base);
        assert(v < base * pp) by (nonlinear_arith)
            requires
                v == a * base + d,
                d < base,
                a < pp,
                base > 0,
        ;
        assert(digits_of(v, s.len(), base) =~= s);
    }
}

/// Appends the `n` lowest digits of `v` in `base` to `out`.
pub fn push_digits(out: &mut String, v: u64, n: usize, base: u64)
    requires
        is_base(base as nat),
    ensures
        final(out)@ == old(out)@ + digits_of(v as nat, n as nat, base as nat),
    decreases n,
{
    if n == 0 {
        assert(digits_of(v as nat, 0, base as nat) =~= Seq::<char>::empty());
        assert(old(out)@ + Seq::<char>::empty() =~= old(out)@);
        return;
    }
    push_digits(out, v / base, n - 1, base);
    let d: usize = (v % base) as usize;
    proof {
        reveal_strlit("0123456789abcdef");
    }
    let chars = "0123456789abcdef";
    let c = chars.substring_char(d, d + 1);
    assert(c@ =~= seq![digit_char(d as nat)]);
    out.append(c);
    assert(final(out)@ =~= old(out)@ + digits_of(v as nat, n as nat, base as nat));
}

/// Reads `s` as a string of exactly `n` digits of `base`; `None` where it is
/// of another length or holds another character.
pub fn read_digits(s: &str, n: usize, base: u64) -> (r: Option<u64>)
    requires
        is_base(base as nat),
        place(n as nat, base as nat) <= u64::MAX + 1,
    ensures
        r is Some <==> (s@.len() == n && all_digits(s@, base as nat)),
        r matches Some(v) ==> v == value_of(s@, base as nat),
{
    let len = s.unicode_len();
    if len != n {
        return None;
    }
    let mut acc: u64 = 0;
    let mut i: usize = 0;
    while i < len
        invariant
            len == s@.len(),
            len == n,
            i <= len,
            is_base(base as nat),
            place(n as nat, base as nat) <= u64::MAX + 1,
            all_digits(s@.subrange(0, i as int), base as nat),
            acc == value_of(s@.subrange(0, i as int), base as nat),
        decreases len - i,
    {
        let c = s.get_char(i);
        let d: u64;
        if '0' <= c && c <= '9' && (c as u64 - '0' as u64) < base {
            d = c as u64 - '0' as u64;
        } else if 'a' <= c && c <= 'f' && (c as u64 - 'a' as u64) + 10 < base {
            d = c as u64 - 'a' as u64 + 10;
        } else {
            proof {
                assert(digit_value(s@[i as int], base as nat) is None);
            }
            return None;
        }
        let ghost pre = s@.subrange(0, i as int);
        let ghost next = s@.subrange(0, i + 1);
        proof {
            assert(next.drop_last() =~= pre);
            assert forall|j: int| 0 <= j < next.len() implies (#[trigger] digit_value(next[j], base as nat)) is Some by {
                if j < i {
                    assert(next[j] == pre[j]);
                }
            }
            lemma_render_read(next, base as nat);
            lemma_place_mono((i + 1) as nat, n as nat, base as nat);
            assert(value_of(next, base as nat) == acc * base + d);
        }
        acc = acc * base + d;
        i = i + 1;
    }
    assert(s@.subrange(0, len as int) =~= s@);
    Some(acc)
}

proof fn lemma_place_mono(a: nat, b: nat, base: nat)
    requires
        a <= b,
        base >= 1,
    ensures
        place(a, base) <= place(b, base),
    decreases b,
{
    if a < b {
        lemma_place_mono(a, (b - 1) as nat, base);
        let p = place((b - 1) as nat, base);
        assert(p <= base * p) by (nonlinear_arith)
            requires
                base >= 1,
        ;
    }
}

} // verus!
