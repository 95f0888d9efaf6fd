use vstd::prelude::*;
use crate::util::chars_of;

verus! {

/// An ASCII decimal digit.
pub open spec fn is_digit(c: char) -> bool {
    '0' <= c && c <= '9'
}

/// Every character is an ASCII decimal digit.
pub open spec fn all_digits(s: Seq<char>) -> bool {
    forall|i: int| 0 <= i < s.len() ==> is_digit(#[trigger] s[i])
}

/// The value of a string of decimal digits.
pub open spec fn digits_value(s: Seq<char>) -> int
    decreases s.len(),
{
    if s.len() == 0 {
        0
    } else {
        digits_value(s.drop_last()) * 10 + (s.last() as int - '0' as int)
    }
}

/// The text without a leading sign.
pub open spec fn unsigned_part(s: Seq<char>) -> Seq<char> {
    if s.len() > 0 && (s[0] == '+' || s[0] == '-') {
        s.drop_first()
    } else {
        s
    }
}

/// What `str::parse::<i64>` returns for a text: an optional sign, then at
/// least one ASCII digit, and a value within the range of `i64`.
pub open spec fn spec_parse_i64(s: Seq<char>) -> Option<i64> {
    let body = unsigned_part(s);
    let v = if s.len() > 0 && s[0] == '-' {
        -digits_value(body)
    } else {
        digits_value(body)
    };
    if body.len() == 0 || !all_digits(body) || v < i64::MIN || v > i64::MAX {
        None
    } else {
        Some(v as i64)
    }
}

/// The text contains a decimal point.
pub open spec fn has_dot(s: Seq<char>) -> bool {
    exists|i: int| 0 <= i < s.len() && s[i] == '.'
}

/// The position of the first occurrence of `c` in `s`, or `s.len()`.
pub open spec fn find_char(s: Seq<char>, c: char) -> int
    decreases s.len(),
{
    if s.len() == 0 {
        0
    } else if s[0] == c {
        0
    } else {
        1 + find_char(s.drop_first(), c)
    }
}

/// The first two pieces of a text split at each decimal point.
pub open spec fn split_dot(s: Seq<char>) -> (Seq<char>, Seq<char>) {
    let d = find_char(s, '.');
    let rest = if d < s.len() { s.skip(d + 1) } else { Seq::empty() };
    (s.take(d), rest.take(find_char(rest, '.')))
}

/// A letter that starts an exponent.
pub open spec fn is_exp_char(c: char) -> bool {
    c == 'e' || c == 'E'
}

/// The position of the first exponent letter in `s`, or `s.len()`.
pub open spec fn find_exp(s: Seq<char>) -> int
    decreases s.len(),
{
    if s.len() == 0 {
        0
    } else if is_exp_char(s[0]) {
        0
    } else {
        1 + find_exp(s.drop_first())
    }
}

/// The mantissa of a decimal number: digits with at most one decimal point,
/// and at least one digit.
pub open spec fn mantissa_ok(m: Seq<char>) -> bool {
    &&& forall|i: int| 0 <= i < m.len() ==> is_digit(#[trigger] m[i]) || m[i] == '.'
    &&& forall|i: int, j: int| 0 <= i < j < m.len() && m[i] == '.' ==> m[j] != '.'
    &&& exists|i: int| 0 <= i < m.len() && is_digit(#[trigger] m[i])
}

/// An exponent: empty, or `e`/`E`, an optional sign and at least one digit.
pub open spec fn exponent_ok(x: Seq<char>) -> bool {
    x.len() == 0 || (is_exp_char(x[0]) && unsigned_part(x.drop_first()).len() > 0 && all_digits(
        unsigned_part(x.drop_first()),
    ))
}

/// Whether `str::parse::<f64>` accepts a text that holds a decimal point: an
/// optional sign, a mantissa with the point, and an optional exponent. (The
/// words `inf` and `nan`, which it also accepts, hold no point.)
pub open spec fn float_text_ok(s: Seq<char>) -> bool {
    let b = unsigned_part(s);
    let e = find_exp(b);
    mantissa_ok(b.take(e)) && exponent_ok(b.skip(e))
}

proof fn lemma_find_exp(s: Seq<char>)
    ensures
        0 <= find_exp(s) <= s.len(),
        find_exp(s) < s.len() ==> is_exp_char(s[find_exp(s)]),
        forall|i: int| 0 <= i < find_exp(s) ==> !is_exp_char(s[i]),
    decreases s.len(),
{
    if s.len() > 0 && !is_exp_char(s[0]) {
        lemma_find_exp(s.drop_first());
        assert forall|i: int| 0 <= i < find_exp(s) implies !is_exp_char(s[i]) by {
            if i > 0 {
                assert(s[i] == s.drop_first()[i - 1]);
            }
        }
    }
}

fn find_exp_exec(s: &Vec<char>, start: usize) -> (r: usize)
    requires
        start <= s.len(),
    ensures
        r as int == start + find_exp(s@.skip(start as int)),
        start <= r <= s.len(),
{
    proof {
        lemma_find_exp(s@.skip(start as int));
    }
    let mut i = start;
    while i < s.len() && s[i] != 'e' && s[i] != 'E'
        invariant
            start <= i <= s.len(),
            forall|k: int| start <= k < i ==> !is_exp_char(s@[k]),
        decreases s.len() - i,
    {
        i = i + 1;
    }
    proof {
        let t = s@.skip(start as int);
        let f = find_exp(t);
        if f < i - start {
            assert(t[f] == s@[start + f]);
        } else if f > i - start {
            assert(t[i - start] == s@[i as int]);
        }
    }
    i
}

fn mantissa_ok_exec(s: &Vec<char>, lo: usize, hi: usize) -> (r: bool)
    requires
        lo <= hi <= s.len(),
    ensures
        r == mantissa_ok(s@.subrange(lo as int, hi as int)),
{
    let ghost m = s@.subrange(lo as int, hi as int);
    let mut dot: Option<usize> = None;
    let mut digit = false;
    let mut i = lo;
    while i < hi
        invariant
            lo <= i <= hi <= s.len(),
            m == s@.subrange(lo as int, hi as int),
            forall|k: int| lo <= k < i ==> is_digit(s@[k]) || s@[k] == '.',
            match dot {
                None => forall|k: int| lo <= k < i ==> s@[k] != '.',
                Some(d) => lo <= d < i && s@[d as int] == '.' && forall|k: int| lo <= k < i && k != d ==> s@[k] != '.',
            },
            digit == exists|k: int| lo <= k < i && is_digit(s@[k]),
        decreases hi - i,
    {
        let c = s[i];
        if c == '.' {
            if let Some(d) = dot {
                proof {
                    assert(m[d - lo] == '.' && m[i - lo] == '.');
                }
                return false;
            }
            dot = Some(i);
        } else if '0' <= c && c <= '9' {
            digit = true;
        } else {
            assert(!(is_digit(m[i - lo]) || m[i - lo] == '.'));
            return false;
        }
        i = i + 1;
    }
    proof {
        assert forall|k: int| 0 <= k < m.len() implies is_digit(#[trigger] m[k]) || m[k] == '.' by {
            assert(m[k] == s@[lo + k]);
        }
        assert forall|a: int, b: int| 0 <= a < b < m.len() && m[a] == '.' implies m[b] != '.' by {
            assert(m[a] == s@[lo + a]);
            assert(m[b] == s@[lo + b]);
        }
        if digit {
            let k = choose|k: int| lo <= k < hi && is_digit(s@[k]);
            assert(m[k - lo] == s@[k]);
        } else {
            assert forall|k: int| 0 <= k < m.len() implies !is_digit(#[trigger] m[k]) by {
                assert(m[k] == s@[lo + k]);
            }
        }
    }
    digit
}

/// Whether `str::parse::<f64>` accepts a text that holds a decimal point,
/// written out over the grammar that std documents.
pub fn float_text_ok_exec(text: &String) -> (r: bool)
    ensures
        r == float_text_ok(text@),
{
    let s = chars_of(text.as_str());
    let start: usize = if s.len() > 0 && (s[0] == '+' || s[0] == '-') { 1 } else { 0 };
    let ghost b = unsigned_part(s@);
    assert(b =~= s@.skip(start as int));
    let e = find_exp_exec(&s, start);
    proof {
        lemma_find_exp(b);
    }
    assert(b.take(e - start) =~= s@.subrange(start as int, e as int));
    if !mantissa_ok_exec(&s, start, e) {
        return false;
    }
    let ghost x = b.skip(e - start);
    assert(x =~= s@.skip(e as int));
    if e == s.len() {
        return true;
    }
    let mut k = e + 1;
    if k < s.len() && (s[k] == '+' || s[k] == '-') {
        k = k + 1;
    }
    assert(unsigned_part(x.drop_first()) =~= s@.subrange(k as int, s.len() as int));
    if k == s.len() {
        return false;
    }
    all_digits_exec(&s, k, s.len())
}

proof fn lemma_find_char(s: Seq<char>, c: char)
    ensures
        0 <= find_char(s, c) <= s.len(),
        find_char(s, c) < s.len() ==> s[find_char(s, c)] == c,
        forall|i: int| 0 <= i < find_char(s, c) ==> s[i] != c,
    decreases s.len(),
{
    if s.len() > 0 && s[0] != c {
        lemma_find_char(s.drop_first(), c);
        assert forall|i: int| 0 <= i < find_char(s, c) implies s[i] != c by {
            if i > 0 {
                assert(s[i] == s.drop_first()[i - 1]);
            }
        }
    }
}

/// A text of two runs without a point, joined by one, holds a point and
/// splits back into the two runs.
pub proof fn lemma_split_dot_join(a: Seq<char>, b: Seq<char>)
    requires
        forall|i: int| 0 <= i < a.len() ==> a[i] != '.',
        forall|i: int| 0 <= i < b.len() ==> b[i] != '.',
    ensures
        has_dot(a + seq!['.'] + b),
        split_dot(a + seq!['.'] + b) == (a, b),
{
    let s = a + seq!['.'] + b;
    assert(s[a.len() as int] == '.');
    lemma_find_char(s, '.');
    let d = find_char(s, '.');
    if d < a.len() {
        assert(s[d] == a[d]);
    }
    assert(d == a.len());
    let rest = s.skip(d + 1);
    assert(rest =~= b);
    lemma_find_char(b, '.');
    assert(find_char(b, '.') == b.len());
    assert(s.take(d) =~= a);
    assert(b.take(b.len() as int) =~= b);
}

/// The position of the first `c` in `s`, or `s.len()`.
pub fn find_char_exec(s: &Vec<char>, start: usize, c: char) -> (r: usize)
    requires
        start <= s.len(),
    ensures
        r as int == start + find_char(s@.skip(start as int), c),
        start <= r <= s.len(),
{
    proof {
        lemma_find_char(s@.skip(start as int), c);
    }
    let mut i = start;
    while i < s.len() && s[i] != c
        invariant
            start <= i <= s.len(),
            forall|k: int| start <= k < i ==> s@[k] != c,
        decreases s.len() - i,
    {
        i = i + 1;
    }
    proof {
        let t = s@.skip(start as int);
        let f = find_char(t, c);
        if f < i - start {
            assert(t[f] == s@[start + f]);
        } else if f > i - start {
            assert(t[i - start] == s@[i as int]);
        }
    }
    i
}

fn all_digits_exec(s: &Vec<char>, lo: usize, hi: usize) -> (r: bool)
    requires
        lo <= hi <= s.len(),
    ensures
        r == all_digits(s@.subrange(lo as int, hi as int)),
{
    let mut i = lo;
    while i < hi
        invariant
            lo <= i <= hi <= s.len(),
            forall|k: int| lo <= k < i ==> is_digit(s@[k]),
        decreases hi - i,
    {
        if !('0' <= s[i] && s[i] <= '9') {
            assert(!is_digit(s@.subrange(lo as int, hi as int)[i - lo]));
            return false;
        }
        i = i + 1;
    }
    assert forall|k: int| 0 <= k < hi - lo implies is_digit(#[trigger] s@.subrange(lo as int, hi as int)[k]) by {
        assert(s@.subrange(lo as int, hi as int)[k] == s@[lo + k]);
    }
    true
}

proof fn lemma_digits_value_take(s: Seq<char>, k: int)
    requires
        0 <= k < s.len(),
    ensures
        digits_value(s.take(k + 1)) == digits_value(s.take(k)) * 10 + (s[k] as int - '0' as int),
{
    assert(s.take(k + 1).drop_last() =~= s.take(k));
}

proof fn lemma_digits_value_mono(s: Seq<char>, k: int)
    requires
        all_digits(s),
        0 <= k <= s.len(),
    ensures
        0 <= digits_value(s.take(k)) <= digits_value(s),
    decreases s.len() - k,
{
    if k < s.len() {
        lemma_digits_value_take(s, k);
        lemma_digits_value_nonneg(s.take(k));
        assert(is_digit(s[k]));
        lemma_digits_value_mono(s, k + 1);
    } else {
        assert(s.take(k) =~= s);
        lemma_digits_value_nonneg(s);
    }
}

proof fn lemma_digits_value_nonneg(s: Seq<char>)
    requires
        all_digits(s),
    ensures
        0 <= digits_value(s),
    decreases s.len(),
{
    if s.len() > 0 {
        assert(all_digits(s.drop_last())) by {
            assert forall|i: int| 0 <= i < s.drop_last().len() implies is_digit(#[trigger] s.drop_last()[i]) by {
                assert(s.drop_last()[i] == s[i]);
            }
        }
        lemma_digits_value_nonneg(s.drop_last());
        assert(is_digit(s.last()));
    }
}

/// `str::parse::<i64>` on a text, written out: an optional sign, then
/// decimal digits, within the range of `i64`.
pub fn parse_i64(text: &String) -> (r: Option<i64>)
    ensures
        r == spec_parse_i64(text@),
{
    let s = chars_of(text.as_str());
    let ghost t = text@;
    let neg = s.len() > 0 && s[0] == '-';
    let start: usize = if s.len() > 0 && (s[0] == '+' || s[0] == '-') { 1 } else { 0 };
    let ghost body = unsigned_part(t);
    assert(body =~= s@.subrange(start as int, s.len() as int));
    if start == s.len() {
        return None;
    }
    if !all_digits_exec(&s, start, s.len()) {
        return None;
    }
    // The magnitude, up to 2^63, which is the magnitude of i64::MIN.
    let limit: u64 = 0x8000_0000_0000_0000;
    let mut mag: u64 = 0;
    let mut i = start;
    while i < s.len()
        invariant
            start <= i <= s.len(),
            body =~= s@.subrange(start as int, s.len() as int),
            all_digits(body),
            mag as int == digits_value(body.take(i - start)),
            mag <= limit,
            limit == 0x8000_0000_0000_0000u64,
            t == text@,
            t == s@,
            body == unsigned_part(t),
        decreases s.len() - i,
    {
        proof {
            assert(body[i - start] == s@[i as int]);
            assert(is_digit(body[i - start]));
            lemma_digits_value_take(body, i - start);
        }
        let d = (s[i] as u32 - '0' as u32) as u64;
        if mag > (limit - d) / 10 {
            proof {
                assert(mag * 10 + d > limit) by (nonlinear_arith)
                    requires
                        mag > (limit - d) / 10,
                        d <= 9,
                        limit == 0x8000_0000_0000_0000u64,
                ;
                lemma_digits_value_mono(body, i - start + 1);
                assert(digits_value(body.take(i - start + 1)) == mag * 10 + d);
                assert(digits_value(body) > 0x8000_0000_0000_0000);
                assert(spec_parse_i64(t) is None);
            }
            return None;
        }
        proof {
            assert(mag * 10 + d <= limit) by (nonlinear_arith)
                requires
                    mag <= (limit - d) / 10,
                    d <= 9,
                    limit == 0x8000_0000_0000_0000u64,
            ;
        }
        mag = mag * 10 + d;
        i = i + 1;
    }
    assert(body.take(body.len() as int) =~= body);
    if neg {
        if mag == limit {
            Some(i64::MIN)
        } else {
            Some(-(mag as i64))
        }
    } else {
        if mag == limit {
            None
        } else {
            Some(mag as i64)
        }
    }
}

/// The first two pieces of a text split at each decimal point.
pub fn split_dot_exec(text: &String) -> (r: (String, String))
    ensures
        (r.0@, r.1@) == split_dot(text@),
{
    let s = chars_of(text.as_str());
    let d = find_char_exec(&s, 0, '.');
    assert(s@.skip(0) =~= s@);
    let mut a = String::new();
    let mut i: usize = 0;
    while i < d
        invariant
            i <= d <= s.len(),
            a@ == s@.take(i as int),
        decreases d - i,
    {
        crate::util::string_push(&mut a, s[i]);
        i = i + 1;
        assert(a@ =~= s@.take(i as int));
    }
    let mut b = String::new();
    if d < s.len() {
        let e = find_char_exec(&s, d + 1, '.');
        let mut j: usize = d + 1;
        while j < e
            invariant
                d + 1 <= j <= e <= s.len(),
                b@ == s@.subrange(d + 1, j as int),
            decreases e - j,
        {
            crate::util::string_push(&mut b, s[j]);
            j = j + 1;
            assert(b@ =~= s@.subrange(d + 1, j as int));
        }
        assert(s@.skip(d + 1).take(find_char(s@.skip(d + 1), '.')) =~= s@.subrange(d + 1, e as int));
    } else {
        assert(Seq::<char>::empty().take(find_char(Seq::<char>::empty(), '.')) =~= Seq::<char>::empty());
        assert(b@ =~= Seq::<char>::empty());
    }
    (a, b)
}

/// Whether the text holds a decimal point.
pub fn has_dot_exec(text: &String) -> (r: bool)
    ensures
        r == has_dot(text@),
{
    let s = chars_of(text.as_str());
    let d = find_char_exec(&s, 0, '.');
    proof {
        assert(s@.skip(0) =~= s@);
        lemma_find_char(s@, '.');
    }
    d < s.len()
}

} // verus!
