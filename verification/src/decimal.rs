use vstd::prelude::*;

verus! {

/// Bound on every parsed numeric field, scaled by 1e9: the parser only
/// accepts decimals whose integer part is at most one million, so all
/// later angle and distance arithmetic stays far from overflow.
pub const MAX_FIELD_E9: i64 = 1_000_001_000_000_000;

/// Whether a character is a decimal digit.
pub open spec fn is_digit(c: char) -> bool {
    48 <= c as u32 && c as u32 <= 57
}

/// Executable twin of `is_digit`.
pub fn digit_char(c: char) -> (r: bool)
    ensures
        r == is_digit(c),
{
    let u = c as u32;
    48 <= u && u <= 57
}

/// The numeric value of a digit character.
pub open spec fn digit_val(c: char) -> int {
    c as u32 - 48
}

/// Whether every character of `s` is a decimal digit.
pub open spec fn all_digits(s: Seq<char>) -> bool {
    forall|i: int| 0 <= i < s.len() ==> is_digit(s[i])
}

/// The integer a digit string denotes, most significant digit first.
pub open spec fn digits_val(s: Seq<char>) -> int
    decreases s.len(),
{
    if s.len() == 0 {
        0
    } else {
        digits_val(s.drop_last()) * 10 + digit_val(s.last())
    }
}

/// Ten to the `n`-th power.
pub open spec fn pow10(n: nat) -> int
    decreases n,
{
    if n == 0 {
        1
    } else {
        10 * pow10((n - 1) as nat)
    }
}

/// A digit string's value is non-negative and below ten to its length.
pub proof fn lemma_digits_val_bounds(s: Seq<char>)
    requires
        all_digits(s),
    ensures
        0 <= digits_val(s) < pow10(s.len()),
    decreases s.len(),
{
    if s.len() > 0 {
        let p = s.drop_last();
        assert forall|i: int| 0 <= i < p.len() implies is_digit(p[i]) by {
            assert(p[i] == s[i]);
        };
        lemma_digits_val_bounds(p);
        assert(is_digit(s.last()));
        assert(pow10(s.len()) == 10 * pow10(p.len()));
    }
}

/// Extending a digit string never shrinks its value.
pub proof fn lemma_digits_val_prefix_le(s: Seq<char>, m: int)
    requires
        all_digits(s),
        0 <= m <= s.len(),
    ensures
        digits_val(s.subrange(0, m)) <= digits_val(s),
    decreases s.len() - m,
{
    if m == s.len() {
        assert(s.subrange(0, m) =~= s);
    } else {
        let p = s.subrange(0, m);
        let q = s.subrange(0, m + 1);
        assert(q.drop_last() =~= p);
        assert(q.last() == s[m]);
        assert forall|i: int| 0 <= i < p.len() implies is_digit(p[i]) by {
            assert(p[i] == s[i]);
        };
        lemma_digits_val_bounds(p);
        lemma_digits_val_prefix_le(s, m + 1);
    }
}

/// Index of the first dot in `s`, or its length when there is none.
pub open spec fn dot_pos(s: Seq<char>) -> nat
    decreases s.len(),
{
    if s.len() == 0 {
        0
    } else if s[0] == '.' {
        0
    } else {
        (1 + dot_pos(s.subrange(1, s.len() as int))) as nat
    }
}

/// The first dot sits no further than the end of the sequence.
pub proof fn lemma_dot_pos_le(s: Seq<char>)
    ensures
        dot_pos(s) <= s.len(),
    decreases s.len(),
{
    if s.len() > 0 && s[0] != '.' {
        lemma_dot_pos_le(s.subrange(1, s.len() as int));
    }
}

/// The first dot sits past every dot-free prefix.
pub proof fn lemma_dot_pos_ge(s: Seq<char>, k: int)
    requires
        0 <= k <= s.len(),
        forall|j: int| 0 <= j < k ==> s[j] != '.',
    ensures
        dot_pos(s) >= k,
    decreases s.len(),
{
    if k > 0 {
        let t = s.subrange(1, s.len() as int);
        assert forall|j: int| 0 <= j < k - 1 implies t[j] != '.' by {
            assert(t[j] == s[j + 1]);
        };
        lemma_dot_pos_ge(t, k - 1);
    }
}

/// The position of the first dot is pinned down by its boundary facts.
pub proof fn lemma_dot_pos_is(s: Seq<char>, k: int)
    requires
        0 <= k <= s.len(),
        forall|j: int| 0 <= j < k ==> s[j] != '.',
        k < s.len() ==> s[k] == '.',
    ensures
        dot_pos(s) == k,
    decreases s.len(),
{
    if k == 0 {
    } else {
        let t = s.subrange(1, s.len() as int);
        assert forall|j: int| 0 <= j < k - 1 implies t[j] != '.' by {
            assert(t[j] == s[j + 1]);
        };
        if k - 1 < t.len() {
            assert(t[k - 1] == s[k]);
        }
        lemma_dot_pos_is(t, k - 1);
    }
}

/// How many leading characters of a numeric token are its sign: one for
/// a `+` or `-`, otherwise none.
pub open spec fn sign_len(t: Seq<char>) -> int {
    if t.len() > 0 && (t[0] == '+' || t[0] == '-') {
        1
    } else {
        0
    }
}

/// The token without its sign.
pub open spec fn body_of(t: Seq<char>) -> Seq<char> {
    t.subrange(sign_len(t), t.len() as int)
}

/// The digits before the first dot of the token's body.
pub open spec fn int_part(t: Seq<char>) -> Seq<char> {
    let b = body_of(t);
    b.subrange(0, dot_pos(b) as int)
}

/// The characters after the first dot of the token's body, empty when
/// there is no dot.
pub open spec fn frac_part(t: Seq<char>) -> Seq<char> {
    let b = body_of(t);
    if dot_pos(b) < b.len() {
        b.subrange(dot_pos(b) as int + 1, b.len() as int)
    } else {
        Seq::empty()
    }
}

/// Whether a token is a well-formed bounded decimal: an optional sign,
/// then digits with at most one dot among them, at least one digit in
/// all, at most nine fraction digits, and an integer part of at most one
/// million.
pub open spec fn dec_wf(t: Seq<char>) -> bool {
    &&& all_digits(int_part(t))
    &&& all_digits(frac_part(t))
    &&& int_part(t).len() + frac_part(t).len() >= 1
    &&& frac_part(t).len() <= 9
    &&& digits_val(int_part(t)) <= 1_000_000
}

/// The value a well-formed token denotes, scaled by 1e9 and signed.
pub open spec fn dec_val_e9(t: Seq<char>) -> int {
    let sign: int = if t.len() > 0 && t[0] == '-' {
        -1
    } else {
        1
    };
    sign * (digits_val(int_part(t)) * 1_000_000_000 + digits_val(frac_part(t)) * pow10(
        (9 - frac_part(t).len()) as nat,
    ))
}

/// Parses a token as a bounded decimal, scaled by 1e9.  Exactly the
/// well-formed tokens of `dec_wf` are accepted and yield `dec_val_e9`;
/// exponent notation, infinities and wider values are rejected.
pub fn parse_decimal_e9(t: &str) -> (r: Option<i64>)
    ensures
        r is Some <==> dec_wf(t@),
        r matches Some(v) ==> v == dec_val_e9(t@) && -MAX_FIELD_E9 < v < MAX_FIELD_E9,
{
    let n = t.unicode_len();
    let mut i: usize = 0;
    let mut neg = false;
    if n > 0 {
        let c0 = t.get_char(0);
        if c0 == '+' || c0 == '-' {
            i = 1;
            neg = c0 == '-';
        }
    }
    let sgn: usize = i;
    let ghost b = body_of(t@);
    let ghost s0 = i as int;
    proof {
        assert(sign_len(t@) == s0);
        assert(b =~= t@.subrange(s0, t@.len() as int));
    }
    let mut ival: i64 = 0;
    while i < n && digit_char(t.get_char(i))
        invariant
            n == t@.len(),
            b == body_of(t@),
            s0 == sign_len(t@),
            s0 == sgn as int,
            s0 <= i as int <= n,
            forall|j: int| 0 <= j < i - s0 ==> is_digit(b[j]) && b[j] != '.',
            0 <= ival <= 1_000_000,
            ival == digits_val(b.subrange(0, i - s0)),
        decreases n - i,
    {
        let d = (t.get_char(i) as u32) - 48;
        let newval = ival * 10 + (d as i64);
        proof {
            let m = i as int - s0;
            let p = b.subrange(0, m);
            let q = b.subrange(0, m + 1);
            assert(q.drop_last() =~= p);
            assert(q.last() == b[m]);
            assert(b[m] == t@[i as int]);
        }
        if newval > 1_000_000 {
            proof {
                if dec_wf(t@) {
                    let m = i as int - s0;
                    lemma_dot_pos_ge(b, m + 1);
                    lemma_dot_pos_le(b);
                    let q = b.subrange(0, m + 1);
                    assert(q =~= int_part(t@).subrange(0, m + 1));
                    lemma_digits_val_prefix_le(int_part(t@), m + 1);
                    assert(false);
                }
            }
            return None;
        }
        ival = newval;
        i = i + 1;
    }
    if i == n {
        // no dot: the whole body is the integer part
        proof {
            lemma_dot_pos_is(b, n - s0);
            assert(int_part(t@) =~= b.subrange(0, n - s0));
            assert(frac_part(t@) =~= Seq::<char>::empty());
        }
        // at least one integer digit is required when there is no dot
        if i == sgn {
            return None;
        }
        let mag = ival * 1_000_000_000;
        proof {
            assert(digits_val(frac_part(t@)) == 0);
            assert(digits_val(frac_part(t@)) * pow10((9 - frac_part(t@).len()) as nat) == 0);
            assert(ival == digits_val(int_part(t@)));
            assert(dec_wf(t@));
        }
        if neg {
            proof {
                assert(t@.len() > 0 && t@[0] == '-');
                assert(dec_val_e9(t@) == -1 * (digits_val(int_part(t@)) * 1_000_000_000
                    + digits_val(frac_part(t@)) * pow10((9 - frac_part(t@).len()) as nat)));
                assert(dec_val_e9(t@) == -(mag as int));
            }
            return Some(-mag);
        } else {
            return Some(mag);
        }
    }
    // the integer scan stopped early: either at the dot or at a bad character
    let c = t.get_char(i);
    proof {
        assert(b[i as int - s0] == t@[i as int]);
    }
    if c != '.' {
        proof {
            if dec_wf(t@) {
                lemma_dot_pos_ge(b, i as int - s0 + 1);
                lemma_dot_pos_le(b);
                assert(int_part(t@)[i as int - s0] == b[i as int - s0]);
                assert(false);
            }
        }
        return None;
    }
    proof {
        lemma_dot_pos_is(b, i as int - s0);
        assert(int_part(t@) =~= b.subrange(0, i as int - s0));
    }
    let int_digits: usize = i - sgn;
    let fstart = i + 1;
    let frac_len = n - fstart;
    proof {
        assert(frac_part(t@) =~= b.subrange(i as int - s0 + 1, b.len() as int));
        assert(frac_part(t@).len() == frac_len);
    }
    if frac_len > 9 {
        return None;
    }
    if int_digits == 0 && frac_len == 0 {
        return None;
    }
    let mut fval: i64 = 0;
    let mut i2 = fstart;
    while i2 < n && digit_char(t.get_char(i2))
        invariant
            n == t@.len(),
            b == body_of(t@),
            s0 == sign_len(t@),
            fstart == dot_pos(b) + s0 + 1,
            frac_part(t@) == b.subrange(fstart - s0, b.len() as int),
            fstart <= i2 as int <= n,
            n - fstart <= 9,
            forall|j: int| fstart - s0 <= j < i2 - s0 ==> is_digit(b[j]),
            0 <= fval < pow10((i2 - fstart) as nat),
            fval == digits_val(b.subrange(fstart - s0, i2 - s0)),
        decreases n - i2,
    {
        let d = (t.get_char(i2) as u32) - 48;
        proof {
            let lo = fstart - s0;
            let m = i2 as int - s0;
            let p = b.subrange(lo, m);
            let q = b.subrange(lo, m + 1);
            assert(q.drop_last() =~= p);
            assert(q.last() == b[m]);
            assert(b[m] == t@[i2 as int]);
            assert(pow10((i2 + 1 - fstart) as nat) == 10 * pow10((i2 - fstart) as nat));
            reveal_with_fuel(pow10, 11);
            lemma_pow10_le((i2 - fstart) as nat, 8nat);
            assert(pow10(8nat) == 100_000_000);
        }
        fval = fval * 10 + (d as i64);
        i2 = i2 + 1;
    }
    if i2 < n {
        // a non-digit inside the fraction
        proof {
            if dec_wf(t@) {
                assert(frac_part(t@)[i2 as int - fstart] == b[i2 as int - s0]);
                assert(false);
            }
        }
        return None;
    }
    proof {
        assert(b.subrange(fstart - s0, i2 as int - s0) =~= frac_part(t@));
        assert(pow10(0nat) == 1);
        assert(digits_val(frac_part(t@)) * 1 == digits_val(frac_part(t@)));
        assert(fval == digits_val(frac_part(t@)));
    }
    // pad the fraction out to nine digits
    let mut k = frac_len;
    while k < 9
        invariant
            frac_len <= k <= 9,
            frac_part(t@).len() == frac_len,
            fval == digits_val(frac_part(t@)) * pow10((k - frac_len) as nat),
            0 <= fval < pow10(k as nat),
        decreases 9 - k,
    {
        proof {
            reveal_with_fuel(pow10, 11);
            assert(pow10((k + 1 - frac_len) as nat) == 10 * pow10((k - frac_len) as nat));
            assert(pow10((k + 1) as nat) == 10 * pow10(k as nat));
            assert(pow10(k as nat) <= pow10(8nat)) by {
                lemma_pow10_le(k as nat, 8nat);
            }
            assert(digits_val(frac_part(t@)) * (10 * pow10((k - frac_len) as nat)) == (digits_val(
                frac_part(t@),
            ) * pow10((k - frac_len) as nat)) * 10) by (nonlinear_arith);
        }
        fval = fval * 10;
        k = k + 1;
    }
    proof {
        reveal_with_fuel(pow10, 11);
        assert(pow10(9nat) == 1_000_000_000);
        assert(ival == digits_val(int_part(t@)));
        assert(fval == digits_val(frac_part(t@)) * pow10((9 - frac_part(t@).len()) as nat));
        assert(dec_wf(t@));
    }
    let mag = ival * 1_000_000_000 + fval;
    if neg {
        Some(-mag)
    } else {
        Some(mag)
    }
}

/// `pow10` grows with its exponent.
pub proof fn lemma_pow10_le(a: nat, b: nat)
    requires
        a <= b,
    ensures
        pow10(a) <= pow10(b),
        pow10(a) >= 1,
    decreases b,
{
    if a == b {
        if a > 0 {
            lemma_pow10_le((a - 1) as nat, (a - 1) as nat);
        }
    } else {
        lemma_pow10_le(a, (b - 1) as nat);
    }
}

} // verus!
