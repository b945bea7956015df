//! Confidence values as exact fixed-point numbers.
//!
//! The detector reports its confidence as a decimal numeral in the unit
//! interval. The library carries a confidence as an integer number of parts
//! per million, so that every contract can speak of it exactly. This module
//! gives the decimal grammar as spec functions, a verified parser from the
//! decimal text to parts per million, and a verified renderer back.

use vstd::prelude::*;

verus! {

/// One whole unit of confidence, in parts per million.
pub const PPM_SCALE: u32 = 1_000_000;

pub open spec fn is_digit(c: char) -> bool {
    '0' <= c <= '9'
}

pub open spec fn digit_val(c: char) -> int {
    c as int - '0' as int
}

pub open spec fn all_digits(s: Seq<char>) -> bool {
    forall|i: int| 0 <= i < s.len() ==> is_digit(#[trigger] s[i])
}

/// Numeric value of a digit string, most significant digit first.
pub open spec fn digits_val(s: Seq<char>) -> int
    decreases s.len(),
{
    if s.len() == 0 {
        0
    } else {
        digits_val(s.drop_last()) * 10 + digit_val(s.last())
    }
}

pub open spec fn pow10(k: nat) -> int
    decreases k,
{
    if k == 0 {
        1
    } else {
        10 * pow10((k - 1) as nat)
    }
}

/// The integer and fractional parts around the first '.', if there is one.
pub open spec fn split_dot(s: Seq<char>) -> Option<(Seq<char>, Seq<char>)>
    decreases s.len(),
{
    if s.len() == 0 {
        None
    } else if s[0] == '.' {
        Some((Seq::empty(), s.subrange(1, s.len() as int)))
    } else {
        match split_dot(s.subrange(1, s.len() as int)) {
            None => None,
            Some(p) => Some((seq![s[0]] + p.0, p.1)),
        }
    }
}

/// Value of a fractional digit string in parts per million; digits beyond the
/// sixth are cut off, shorter strings are padded with zeros.
pub open spec fn frac_ppm(s: Seq<char>) -> int {
    if s.len() >= 6 {
        digits_val(s.take(6))
    } else {
        digits_val(s) * pow10((6 - s.len()) as nat)
    }
}

/// The parts-per-million value of a decimal numeral `digits [ '.' digits ]`,
/// kept to a millionth; `None` on anything else.
pub open spec fn ppm_of_decimal(s: Seq<char>) -> Option<int> {
    match split_dot(s) {
        None => if s.len() > 0 && all_digits(s) {
            Some(digits_val(s) * PPM_SCALE)
        } else {
            None
        },
        Some(p) => if p.0.len() > 0 && p.1.len() > 0 && all_digits(p.0) && all_digits(p.1) {
            Some(digits_val(p.0) * PPM_SCALE + frac_ppm(p.1))
        } else {
            None
        },
    }
}

pub proof fn lemma_digits_val_nonneg(s: Seq<char>)
    requires
        all_digits(s),
    ensures
        digits_val(s) >= 0,
    decreases s.len(),
{
    if s.len() > 0 {
        assert(all_digits(s.drop_last()));
        lemma_digits_val_nonneg(s.drop_last());
    }
}

pub proof fn lemma_digits_val_upper(s: Seq<char>)
    requires
        all_digits(s),
    ensures
        digits_val(s) < pow10(s.len()),
    decreases s.len(),
{
    if s.len() > 0 {
        assert(all_digits(s.drop_last()));
        lemma_digits_val_upper(s.drop_last());
    }
}

pub proof fn lemma_pow10_small()
    ensures
        pow10(0) == 1,
        pow10(1) == 10,
        pow10(2) == 100,
        pow10(3) == 1000,
        pow10(4) == 10000,
        pow10(5) == 100000,
        pow10(6) == 1000000,
{
    assert(pow10(0) == 1);
    assert(pow10(1) == 10);
    assert(pow10(2) == 100);
    assert(pow10(3) == 1000);
    assert(pow10(4) == 10000);
    assert(pow10(5) == 100000);
    assert(pow10(6) == 1000000);
}

/// Where the first '.' stands at `i`, `split_dot` cuts exactly there.
pub proof fn lemma_split_dot_at(s: Seq<char>, i: int)
    requires
        0 <= i < s.len(),
        s[i] == '.',
        forall|j: int| 0 <= j < i ==> s[j] != '.',
    ensures
        split_dot(s) == Some((s.take(i), s.skip(i + 1))),
    decreases i,
{
    if i == 0 {
        assert(s.take(0) =~= Seq::<char>::empty());
        assert(s.skip(1) =~= s.subrange(1, s.len() as int));
    } else {
        let t = s.subrange(1, s.len() as int);
        lemma_split_dot_at(t, i - 1);
        assert(s.take(i) =~= seq![s[0]] + t.take(i - 1));
        assert(s.skip(i + 1) =~= t.skip(i));
    }
}

pub proof fn lemma_split_dot_none(s: Seq<char>)
    requires
        forall|j: int| 0 <= j < s.len() ==> s[j] != '.',
    ensures
        split_dot(s) is None,
    decreases s.len(),
{
    if s.len() > 0 {
        lemma_split_dot_none(s.subrange(1, s.len() as int));
    }
}

pub open spec fn spec_digit_char(d: int) -> char {
    if d == 0 {
        '0'
    } else if d == 1 {
        '1'
    } else if d == 2 {
        '2'
    } else if d == 3 {
        '3'
    } else if d == 4 {
        '4'
    } else if d == 5 {
        '5'
    } else if d == 6 {
        '6'
    } else if d == 7 {
        '7'
    } else if d == 8 {
        '8'
    } else {
        '9'
    }
}

/// The six millionth digits of `p`, most significant first.
pub open spec fn dec6(p: int) -> Seq<char> {
    seq![
        spec_digit_char(p / 100000 % 10),
        spec_digit_char(p / 10000 % 10),
        spec_digit_char(p / 1000 % 10),
        spec_digit_char(p / 100 % 10),
        spec_digit_char(p / 10 % 10),
        spec_digit_char(p % 10),
    ]
}

pub open spec fn trim_zeros(s: Seq<char>) -> Seq<char>
    decreases s.len(),
{
    if s.len() > 0 && s.last() == '0' {
        trim_zeros(s.drop_last())
    } else {
        s
    }
}

/// The canonical decimal rendering of a confidence given in parts per million:
/// plain "0" and "1" at the two ends of the unit interval, otherwise "0."
/// followed by the six millionth digits with trailing zeros cut off.
pub open spec fn decimal_of_ppm(p: int) -> Seq<char> {
    if p == PPM_SCALE {
        seq!['1']
    } else if p == 0 {
        seq!['0']
    } else {
        seq!['0', '.'] + trim_zeros(dec6(p))
    }
}

/// Cutting trailing zeros keeps exactly the digits up to the last nonzero one.
proof fn lemma_trim_take(s: Seq<char>, k: int)
    requires
        0 <= k <= s.len(),
        forall|j: int| k <= j < s.len() ==> s[j] == '0',
        k > 0 ==> s[k - 1] != '0',
    ensures
        trim_zeros(s) == s.take(k),
    decreases s.len(),
{
    if k < s.len() {
        assert(s.last() == '0');
        lemma_trim_take(s.drop_last(), k);
        assert(s.drop_last().take(k) =~= s.take(k));
    } else {
        assert(s.take(k) =~= s);
    }
}

/// The six millionth digits carry the whole value back.
proof fn lemma_dec6_val(p: int)
    requires
        0 <= p < 1000000,
    ensures
        all_digits(dec6(p)),
        digits_val(dec6(p)) == p,
{
    let s = dec6(p);
    let d0 = p / 100000 % 10;
    let d1 = p / 10000 % 10;
    let d2 = p / 1000 % 10;
    let d3 = p / 100 % 10;
    let d4 = p / 10 % 10;
    let d5 = p % 10;
    assert forall|j: int| 0 <= j < s.len() implies is_digit(#[trigger] s[j]) by {
        if j == 0 {
            assert(s[0] == spec_digit_char(d0));
        }
    }
    vstd::arithmetic::div_mod::lemma_div_denominator(p, 10, 10);
    vstd::arithmetic::div_mod::lemma_div_denominator(p, 100, 10);
    vstd::arithmetic::div_mod::lemma_div_denominator(p, 1000, 10);
    vstd::arithmetic::div_mod::lemma_div_denominator(p, 10000, 10);
    assert(p / 100000 % 10 == p / 100000);
    assert(d0 * 10 + d1 == p / 10000);
    assert((p / 10000) * 10 + d2 == p / 1000);
    assert((p / 1000) * 10 + d3 == p / 100);
    assert((p / 100) * 10 + d4 == p / 10);
    assert((p / 10) * 10 + d5 == p);
    let c0 = spec_digit_char(d0);
    let c1 = spec_digit_char(d1);
    let c2 = spec_digit_char(d2);
    let c3 = spec_digit_char(d3);
    let c4 = spec_digit_char(d4);
    lemma_digits_val_singleton(c0);
    assert(digit_val(c0) == d0);
    assert(seq![c0, c1].drop_last() =~= seq![c0]);
    assert(digits_val(seq![c0, c1]) == d0 * 10 + d1);
    assert(seq![c0, c1, c2].drop_last() =~= seq![c0, c1]);
    assert(digits_val(seq![c0, c1, c2]) == (d0 * 10 + d1) * 10 + d2);
    assert(seq![c0, c1, c2, c3].drop_last() =~= seq![c0, c1, c2]);
    assert(digits_val(seq![c0, c1, c2, c3]) == ((d0 * 10 + d1) * 10 + d2) * 10 + d3);
    assert(seq![c0, c1, c2, c3, c4].drop_last() =~= seq![c0, c1, c2, c3]);
    assert(digits_val(seq![c0, c1, c2, c3, c4]) == (((d0 * 10 + d1) * 10 + d2) * 10 + d3) * 10
        + d4);
    assert(s.drop_last() =~= seq![c0, c1, c2, c3, c4]);
    assert(digits_val(s) == ((((d0 * 10 + d1) * 10 + d2) * 10 + d3) * 10 + d4) * 10 + d5);
}

proof fn lemma_digits_val_singleton(c: char)
    ensures
        digits_val(seq![c]) == digit_val(c),
{
    assert(seq![c].drop_last() =~= Seq::<char>::empty());
    assert(digits_val(Seq::<char>::empty()) == 0);
}

/// What cutting the trailing zeros keeps of a digit string: a prefix that
/// still carries the whole value, up to the matching power of ten.
proof fn lemma_trim_zeros_facts(s: Seq<char>)
    requires
        all_digits(s),
    ensures
        all_digits(trim_zeros(s)),
        trim_zeros(s).len() <= s.len(),
        trim_zeros(s) == s.take(trim_zeros(s).len() as int),
        digits_val(s) == digits_val(trim_zeros(s)) * pow10((s.len() - trim_zeros(s).len()) as nat),
    decreases s.len(),
{
    let t = trim_zeros(s);
    if s.len() > 0 && s.last() == '0' {
        let u = s.drop_last();
        assert(all_digits(u));
        lemma_trim_zeros_facts(u);
        assert(u.take(t.len() as int) =~= s.take(t.len() as int));
        assert(digits_val(s) == digits_val(u) * 10);
        assert(pow10((s.len() - t.len()) as nat) == 10 * pow10((u.len() - t.len()) as nat));
        assert(digits_val(t) * pow10((u.len() - t.len()) as nat) * 10 == digits_val(t) * pow10(
            (s.len() - t.len()) as nat,
        )) by (nonlinear_arith)
            requires
                pow10((s.len() - t.len()) as nat) == 10 * pow10((u.len() - t.len()) as nat),
        ;
    } else {
        assert(t == s);
        assert(s.take(s.len() as int) =~= s);
        assert(pow10(0) == 1);
    }
}

/// Rendering a confidence and parsing it back is the identity on parts per
/// million: the canonical decimal numeral means exactly its value.
pub proof fn lemma_decimal_round_trip(p: int)
    requires
        0 <= p <= PPM_SCALE,
    ensures
        ppm_of_decimal(decimal_of_ppm(p)) == Some(p),
{
    if p == PPM_SCALE {
        let s = seq!['1'];
        lemma_split_dot_none(s);
        lemma_digits_val_singleton('1');
        assert(digits_val(s) == 1);
        assert(all_digits(s));
    } else if p == 0 {
        let s = seq!['0'];
        lemma_split_dot_none(s);
        lemma_digits_val_singleton('0');
        assert(digits_val(s) == 0);
        assert(all_digits(s));
    } else {
        let d6 = dec6(p);
        lemma_dec6_val(p);
        lemma_trim_zeros_facts(d6);
        let t = trim_zeros(d6);
        lemma_pow10_small();
        if t.len() == 0 {
            assert(digits_val(d6) == 0);
            assert(false);
        }
        let s = seq!['0', '.'] + t;
        lemma_split_dot_at(s, 1);
        assert(s.take(1) =~= seq!['0']);
        assert(s.skip(2) =~= t);
        lemma_digits_val_singleton('0');
        assert(digits_val(seq!['0']) == 0);
        assert(all_digits(seq!['0']));
        if t.len() == 6 {
            assert(t =~= d6);
            assert(t.take(6) =~= t);
            assert(frac_ppm(t) == digits_val(d6));
        } else {
            assert(frac_ppm(t) == digits_val(t) * pow10((6 - t.len()) as nat));
            assert(digits_val(d6) == digits_val(t) * pow10((6 - t.len()) as nat));
        }
        assert(ppm_of_decimal(s) == Some(0 * PPM_SCALE + frac_ppm(t)));
    }
}

fn digit_char(d: u32) -> (c: char)
    requires
        d < 10,
    ensures
        c == spec_digit_char(d as int),
{
    match d {
        0 => '0',
        1 => '1',
        2 => '2',
        3 => '3',
        4 => '4',
        5 => '5',
        6 => '6',
        7 => '7',
        8 => '8',
        _ => '9',
    }
}

/// Renders a confidence in parts per million as its canonical decimal numeral.
pub fn ppm_to_decimal(ppm: u32) -> (r: String)
    requires
        ppm <= PPM_SCALE,
    ensures
        r@ == decimal_of_ppm(ppm as int),
{
    let mut out = String::new();
    if ppm == PPM_SCALE {
        crate::text::push_char(&mut out, '1');
        proof {
            assert(out@ =~= seq!['1']);
        }
        return out;
    }
    if ppm == 0 {
        crate::text::push_char(&mut out, '0');
        proof {
            assert(out@ =~= seq!['0']);
        }
        return out;
    }
    let ds: [u32; 6] = [
        ppm / 100000 % 10,
        ppm / 10000 % 10,
        ppm / 1000 % 10,
        ppm / 100 % 10,
        ppm / 10 % 10,
        ppm % 10,
    ];
    proof {
        assert(forall|j: int| 0 <= j < 6 ==> dec6(ppm as int)[j] == spec_digit_char(
            #[trigger] ds@[j] as int,
        ));
    }
    let mut k: usize = 6;
    while k > 0 && ds[k - 1] == 0
        invariant
            k <= 6,
            forall|j: int| k <= j < 6 ==> dec6(ppm as int)[j] == '0',
            forall|j: int| 0 <= j < 6 ==> dec6(ppm as int)[j] == spec_digit_char(
                #[trigger] ds@[j] as int,
            ),
        decreases k,
    {
        k = k - 1;
    }
    proof {
        lemma_trim_take(dec6(ppm as int), k as int);
    }
    crate::text::push_char(&mut out, '0');
    crate::text::push_char(&mut out, '.');
    proof {
        assert(out@ =~= seq!['0', '.'] + dec6(ppm as int).take(0));
    }
    let mut j: usize = 0;
    while j < k
        invariant
            j <= k <= 6,
            out@ == seq!['0', '.'] + dec6(ppm as int).take(j as int),
            forall|i: int| 0 <= i < 6 ==> dec6(ppm as int)[i] == spec_digit_char(
                #[trigger] ds@[i] as int,
            ),
            forall|i: int| 0 <= i < 6 ==> ds@[i] < 10,
        decreases k - j,
    {
        crate::text::push_char(&mut out, digit_char(ds[j]));
        proof {
            assert(dec6(ppm as int).take(j + 1 as int) =~= dec6(ppm as int).take(j as int).push(
                dec6(ppm as int)[j as int],
            ));
            assert(out@ =~= seq!['0', '.'] + dec6(ppm as int).take(j + 1 as int));
        }
        j = j + 1;
    }
    out
}

/// True exactly when the characters of `s` between `from` and `to` are digits.
fn all_digits_in(s: &str, from: usize, to: usize) -> (r: bool)
    requires
        from <= to <= s@.len(),
    ensures
        r == all_digits(s@.subrange(from as int, to as int)),
{
    let ghost whole = s@.subrange(from as int, to as int);
    let mut j = from;
    while j < to
        invariant
            from <= j <= to <= s@.len(),
            whole == s@.subrange(from as int, to as int),
            forall|k: int| from <= k < j ==> is_digit(#[trigger] s@[k]),
        decreases to - j,
    {
        let c = s.get_char(j);
        if c < '0' || c > '9' {
            proof {
                assert(whole[j - from] == s@[j as int]);
            }
            return false;
        }
        j = j + 1;
    }
    proof {
        assert(forall|k: int| 0 <= k < whole.len() ==> is_digit(#[trigger] whole[k])) by {
            assert(forall|k: int| 0 <= k < whole.len() ==> whole[k] == s@[from + k]);
        }
    }
    true
}

/// Reads the digit string between `from` and `to`, keeping the exact value as
/// long as it stays within one unit of confidence and only the fact that it is
/// too large once it grows beyond that.
fn scan_digits_capped(s: &str, from: usize, to: usize) -> (r: Option<u64>)
    requires
        from <= to <= s@.len(),
    ensures
        r is None ==> !all_digits(s@.subrange(from as int, to as int)),
        r matches Some(v) ==> {
            let d = digits_val(s@.subrange(from as int, to as int));
            all_digits(s@.subrange(from as int, to as int))
                && (d <= PPM_SCALE <==> v <= PPM_SCALE)
                && (v <= PPM_SCALE ==> v == d)
        },
{
    let mut acc: u64 = 0;
    let mut j = from;
    while j < to
        invariant
            from <= j <= to <= s@.len(),
            all_digits(s@.subrange(from as int, j as int)),
            acc <= 10 * PPM_SCALE as u64 + 9,
            digits_val(s@.subrange(from as int, j as int)) <= PPM_SCALE <==> acc <= PPM_SCALE,
            acc <= PPM_SCALE ==> acc == digits_val(s@.subrange(from as int, j as int)),
        decreases to - j,
    {
        let c = s.get_char(j);
        if c < '0' || c > '9' {
            proof {
                let whole = s@.subrange(from as int, to as int);
                assert(whole[j - from] == s@[j as int]);
            }
            return None;
        }
        let d: u64 = (c as u32 - 48) as u64;
        proof {
            let pre = s@.subrange(from as int, j as int);
            let post = s@.subrange(from as int, j + 1 as int);
            assert(post.drop_last() =~= pre);
            assert(post.last() == s@[j as int]);
            lemma_digits_val_nonneg(pre);
            assert(d == digit_val(s@[j as int]));
        }
        if acc <= PPM_SCALE as u64 {
            acc = acc * 10 + d;
        }
        j = j + 1;
    }
    Some(acc)
}

/// Parses a decimal numeral into a confidence in parts per million.
///
/// Succeeds exactly on the well-formed numerals whose value, kept to a
/// millionth, is at most one; returns `None` on malformed text and on values
/// above one.
pub fn parse_confidence_ppm(s: &str) -> (r: Option<u32>)
    ensures
        r matches Some(p) ==> ppm_of_decimal(s@) == Some(p as int) && p <= PPM_SCALE,
        r is None ==> (ppm_of_decimal(s@) is None
            || (ppm_of_decimal(s@) matches Some(v) && v > PPM_SCALE)),
{
    let n = s.unicode_len();
    let mut dot: usize = n;
    let mut i: usize = 0;
    while i < n
        invariant
            i <= n,
            n == s@.len(),
            dot == n || (dot < i && s@[dot as int] == '.'),
            dot == n ==> forall|j: int| 0 <= j < i ==> s@[j] != '.',
            dot < n ==> forall|j: int| 0 <= j < dot ==> s@[j] != '.',
        decreases n - i,
    {
        if dot == n && s.get_char(i) == '.' {
            dot = i;
        }
        i = i + 1;
    }
    if dot == n {
        proof {
            lemma_split_dot_none(s@);
        }
        if n == 0 {
            return None;
        }
        proof {
            assert(s@.subrange(0, n as int) =~= s@);
        }
        match scan_digits_capped(s, 0, n) {
            None => None,
            Some(v) => {
                proof {
                    lemma_digits_val_nonneg(s@);
                }
                if v == 0 {
                    Some(0)
                } else if v == 1 {
                    Some(PPM_SCALE)
                } else {
                    None
                }
            },
        }
    } else {
        proof {
            lemma_split_dot_at(s@, dot as int);
            assert(s@.take(dot as int) =~= s@.subrange(0, dot as int));
            assert(s@.skip(dot as int + 1) =~= s@.subrange(dot as int + 1, n as int));
        }
        if dot == 0 || dot + 1 == n {
            return None;
        }
        let ghost ip = s@.subrange(0, dot as int);
        let ghost fp = s@.subrange(dot as int + 1, n as int);
        let ipv = match scan_digits_capped(s, 0, dot) {
            None => {
                return None;
            },
            Some(v) => v,
        };
        let flen = n - dot - 1;
        let fv: u64;
        if flen >= 6 {
            proof {
                assert(fp.take(6) =~= s@.subrange(dot as int + 1, dot as int + 7));
            }
            let v6 = match scan_digits_capped(s, dot + 1, dot + 7) {
                None => {
                    proof {
                        let part = s@.subrange(dot as int + 1, dot as int + 7);
                        assert(!all_digits(part));
                        assert(!all_digits(fp)) by {
                            assert(forall|k: int| 0 <= k < 6 ==> part[k] == fp[k]);
                        }
                    }
                    return None;
                },
                Some(v) => v,
            };
            if !all_digits_in(s, dot + 7, n) {
                proof {
                    let rest = s@.subrange(dot as int + 7, n as int);
                    assert(!all_digits(fp)) by {
                        assert(forall|k: int| 0 <= k < rest.len() ==> rest[k] == fp[k + 6]);
                        assert(exists|k: int| 0 <= k < rest.len() && !is_digit(#[trigger] rest[k]));
                    }
                }
                return None;
            }
            proof {
                let part = s@.subrange(dot as int + 1, dot as int + 7);
                let rest = s@.subrange(dot as int + 7, n as int);
                assert forall|k: int| 0 <= k < fp.len() implies is_digit(#[trigger] fp[k]) by {
                    if k < 6 {
                        assert(fp[k] == s@[dot + 1 + k]);
                        assert(part[k] == s@[dot + 1 + k]);
                        assert(is_digit(part[k]));
                    } else {
                        assert(fp[k] == s@[dot + 1 + k]);
                        assert(rest[k - 6] == s@[dot + 1 + k]);
                        assert(is_digit(rest[k - 6]));
                    }
                }
                lemma_digits_val_upper(fp.take(6));
                lemma_digits_val_nonneg(fp.take(6));
                lemma_pow10_small();
                assert(digits_val(fp.take(6)) < 1000000);
            }
            fv = v6;
            proof {
                assert(fv == frac_ppm(fp));
                assert(0 <= fv < 1000000);
            }
        } else {
            let vf = match scan_digits_capped(s, dot + 1, n) {
                None => {
                    return None;
                },
                Some(v) => v,
            };
            proof {
                lemma_digits_val_upper(fp);
                lemma_digits_val_nonneg(fp);
                lemma_pow10_small();
            }
            let pad: u64 = if flen == 1 {
                100000
            } else if flen == 2 {
                10000
            } else if flen == 3 {
                1000
            } else if flen == 4 {
                100
            } else {
                10
            };
            proof {
                assert(fp.len() == flen);
                if flen == 1 {
                    assert(digits_val(fp) < 10);
                } else if flen == 2 {
                    assert(digits_val(fp) < 100);
                } else if flen == 3 {
                    assert(digits_val(fp) < 1000);
                } else if flen == 4 {
                    assert(digits_val(fp) < 10000);
                } else {
                    assert(flen == 5);
                    assert(digits_val(fp) < 100000);
                }
                assert(vf == digits_val(fp));
                assert(pad == pow10((6 - fp.len()) as nat));
            }
            fv = vf * pad;
            proof {
                assert(fv == frac_ppm(fp));
                assert(0 <= fv < 1000000);
            }
        }
        proof {
            lemma_digits_val_nonneg(ip);
            assert(ppm_of_decimal(s@) == Some(digits_val(ip) * PPM_SCALE + frac_ppm(fp)));
        }
        if ipv == 0 {
            proof {
                assert(digits_val(ip) == 0);
            }
            Some(fv as u32)
        } else if ipv == 1 && fv == 0 {
            proof {
                assert(digits_val(ip) == 1);
            }
            Some(PPM_SCALE)
        } else {
            proof {
                assert(digits_val(ip) >= 2 || (digits_val(ip) == 1 && frac_ppm(fp) > 0));
                assert(digits_val(ip) * PPM_SCALE + frac_ppm(fp) > PPM_SCALE);
            }
            None
        }
    }
}

} // verus!
