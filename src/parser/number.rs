//! Grammars of the numeric tokens of a telegram.
use vstd::prelude::*;

verus! {

pub open spec fn is_digit(c: char) -> bool {
    '0' as u32 <= c as u32 <= '9' as u32
}

pub open spec fn digit_value(c: char) -> nat {
    (c as u32 - '0' as u32) as nat
}

pub open spec fn all_digits(s: Seq<char>) -> bool {
    forall|i: int| 0 <= i < s.len() ==> is_digit(#[trigger] s[i])
}

/// Value of a string of decimal digits.
pub open spec fn digits_value(s: Seq<char>) -> nat
    decreases s.len(),
{
    if s.len() == 0 {
        0
    } else {
        digits_value(s.drop_last()) * 10 + digit_value(s.last())
    }
}

/// The digits of an unsigned number: a leading `+` is allowed.
pub open spec fn unsigned_digits(s: Seq<char>) -> Seq<char> {
    if s.len() > 0 && s[0] == '+' {
        s.drop_first()
    } else {
        s
    }
}

/// The value of an unsigned integer token no larger than `max`, as
/// `u8::from_str` and `u16::from_str` read it.
pub open spec fn unsigned_value(s: Seq<char>, max: nat) -> Option<nat> {
    let d = unsigned_digits(s);
    if d.len() > 0 && all_digits(d) && digits_value(d) <= max {
        Some(digits_value(d))
    } else {
        None
    }
}

/// A longer string of digits has no smaller value.
proof fn lemma_digits_prefix(s: Seq<char>, k: int)
    requires
        0 <= k <= s.len(),
        all_digits(s),
    ensures
        digits_value(s.take(k)) <= digits_value(s),
    decreases s.len(),
{
    if k < s.len() {
        assert(s.drop_last().take(k) =~= s.take(k));
        lemma_digits_prefix(s.drop_last(), k);
    } else {
        assert(s.take(k) =~= s);
    }
}

/// Reads an unsigned integer token of value at most `max`.
fn parse_unsigned(s: &str, max: u32) -> (r: Option<u32>)
    requires
        max <= 65535,
    ensures
        r matches Some(v) ==> unsigned_value(s@, max as nat) == Some(v as nat),
        r is None ==> unsigned_value(s@, max as nat) is None,
{
    let len = s.unicode_len();
    let mut start: usize = 0;
    if len > 0 && s.get_char(0) == '+' {
        start = 1;
    }
    let ghost d = unsigned_digits(s@);
    assert(d =~= s@.skip(start as int));
    if start == len {
        return None;
    }
    let mut acc: u32 = 0;
    let mut i = start;
    while i < len
        invariant
            len == s@.len(),
            d == s@.skip(start as int),
            d == unsigned_digits(s@),
            start <= i <= len,
            all_digits(d.take(i - start)),
            acc == digits_value(d.take(i - start)),
            acc <= max,
            max <= 65535,
        decreases len - i,
    {
        let v = s.get_char(i) as u32;
        if !(48 <= v && v <= 57) {
            assert(!is_digit(d[i - start]));
            return None;
        }
        proof {
            assert(d.take(i + 1 - start).drop_last() =~= d.take(i - start));
            assert(d.take(i + 1 - start).last() == d[i - start]);
            assert(all_digits(d.take(i + 1 - start)));
        }
        acc = acc * 10 + (v - 48);
        i = i + 1;
        if acc > max {
            proof {
                if all_digits(d) {
                    lemma_digits_prefix(d, i - start);
                }
            }
            return None;
        }
    }
    assert(d.take(len - start) =~= d);
    Some(acc)
}

/// Reads a `u8` token.
pub fn parse_u8(s: &str) -> (r: Option<u8>)
    ensures
        r matches Some(v) ==> unsigned_value(s@, 255) == Some(v as nat),
        r is None ==> unsigned_value(s@, 255) is None,
{
    match parse_unsigned(s, 255) {
        Some(v) => Some(v as u8),
        None => None,
    }
}

/// Reads a `u16` token.
pub fn parse_u16(s: &str) -> (r: Option<u16>)
    ensures
        r matches Some(v) ==> unsigned_value(s@, 65535) == Some(v as nat),
        r is None ==> unsigned_value(s@, 65535) is None,
{
    match parse_unsigned(s, 65535) {
        Some(v) => Some(v as u16),
        None => None,
    }
}

/// Code of `c` with ASCII upper case letters turned to lower case.
pub open spec fn lower_code(c: char) -> u32 {
    let v = c as u32;
    if 65 <= v <= 90 {
        (v + 32) as u32
    } else {
        v
    }
}

/// `s` spells the lower case word with the character codes `w`, in any case.
pub open spec fn spells(s: Seq<char>, w: Seq<u32>) -> bool {
    s.len() == w.len() && forall|i: int| 0 <= i < s.len() ==> lower_code(#[trigger] s[i]) == w[i]
}

pub open spec fn inf_word() -> Seq<u32> {
    seq![105u32, 110, 102]
}

pub open spec fn infinity_word() -> Seq<u32> {
    seq![105u32, 110, 102, 105, 110, 105, 116, 121]
}

pub open spec fn nan_word() -> Seq<u32> {
    seq![110u32, 97, 110]
}

/// `s` without one leading sign.
pub open spec fn signed_body(s: Seq<char>) -> Seq<char> {
    if s.len() > 0 && (s[0] == '+' || s[0] == '-') {
        s.drop_first()
    } else {
        s
    }
}

/// Digits with at most one decimal point, and at least one digit.
pub open spec fn is_mantissa(m: Seq<char>) -> bool {
    &&& forall|i: int| 0 <= i < m.len() ==> is_digit(#[trigger] m[i]) || m[i] == '.'
    &&& forall|i: int, j: int|
        0 <= i < m.len() && 0 <= j < m.len() && #[trigger] m[i] == '.' && #[trigger] m[j] == '.'
            ==> i == j
    &&& exists|i: int| 0 <= i < m.len() && is_digit(#[trigger] m[i])
}

/// An exponent after the `e`: a sign and at least one digit.
pub open spec fn is_exponent(e: Seq<char>) -> bool {
    let d = signed_body(e);
    d.len() > 0 && all_digits(d)
}

pub open spec fn is_exp_mark(c: char) -> bool {
    c == 'e' || c == 'E'
}

/// A decimal number with an optional exponent.
pub open spec fn is_decimal(t: Seq<char>) -> bool {
    ||| (forall|i: int| 0 <= i < t.len() ==> !is_exp_mark(#[trigger] t[i])) && is_mantissa(t)
    ||| exists|k: int|
        0 <= k < t.len() && is_exp_mark(#[trigger] t[k]) && is_mantissa(t.take(k)) && is_exponent(
            t.skip(k + 1),
        )
}

/// The tokens that `f32::from_str` accepts: a sign, then `inf`, `infinity`
/// or `nan` in any case, or a decimal number with optional exponent.
pub open spec fn is_float_literal(s: Seq<char>) -> bool {
    let t = signed_body(s);
    spells(t, inf_word()) || spells(t, infinity_word()) || spells(t, nan_word()) || is_decimal(t)
}

/// The characters of `s`.
fn chars_of(s: &str) -> (r: Vec<char>)
    ensures
        r@ == s@,
{
    let n = s.unicode_len();
    let mut v: Vec<char> = Vec::new();
    let mut i: usize = 0;
    while i < n
        invariant
            n == s@.len(),
            i <= n,
            v@ == s@.take(i as int),
        decreases n - i,
    {
        v.push(s.get_char(i));
        i = i + 1;
    }
    assert(s@.take(n as int) =~= s@);
    v
}

/// Whether `v[a..b]` spells the word `w`.
fn spells_at(v: &Vec<char>, a: usize, b: usize, w: &[u32]) -> (r: bool)
    requires
        a <= b <= v@.len(),
    ensures
        r == spells(v@.subrange(a as int, b as int), w@),
{
    if b - a != w.len() {
        return false;
    }
    let mut i: usize = 0;
    while i < w.len()
        invariant
            a <= b <= v@.len(),
            b - a == w@.len(),
            i <= w@.len(),
            forall|k: int| 0 <= k < i ==> lower_code(#[trigger] v@[a + k]) == w@[k],
        decreases w@.len() - i,
    {
        let c = v[a + i] as u32;
        let l = if 65 <= c && c <= 90 {
            c + 32
        } else {
            c
        };
        if l != w[i] {
            assert(v@.subrange(a as int, b as int)[i as int] == v@[a + i]);
            return false;
        }
        i = i + 1;
    }
    assert forall|k: int| 0 <= k < b - a implies lower_code(
        #[trigger] v@.subrange(a as int, b as int)[k],
    ) == w@[k] by {
        assert(v@.subrange(a as int, b as int)[k] == v@[a + k]);
    }
    true
}

/// Whether `v[a..b]` is a mantissa.
fn mantissa_at(v: &Vec<char>, a: usize, b: usize) -> (r: bool)
    requires
        a <= b <= v@.len(),
    ensures
        r == is_mantissa(v@.subrange(a as int, b as int)),
{
    let ghost m = v@.subrange(a as int, b as int);
    let mut dot: Option<usize> = None;
    let mut digit = false;
    let mut i = a;
    while i < b
        invariant
            a <= i <= b <= v@.len(),
            m == v@.subrange(a as int, b as int),
            forall|k: int| a <= k < i ==> is_digit(#[trigger] v@[k]) || v@[k] == '.',
            dot is None ==> forall|k: int| a <= k < i ==> #[trigger] v@[k] != '.',
            dot matches Some(p) ==> a <= p < i && v@[p as int] == '.' && forall|k: int|
                a <= k < i && #[trigger] v@[k] == '.' ==> k == p,
            digit <==> exists|k: int| a <= k < i && is_digit(#[trigger] v@[k]),
        decreases b - i,
    {
        let c = v[i];
        let code = c as u32;
        if 48 <= code && code <= 57 {
            digit = true;
        } else if c == '.' {
            if let Some(p) = dot {
                assert(m[p - a] == '.' && m[i - a] == '.');
                return false;
            }
            dot = Some(i);
        } else {
            assert(!(is_digit(m[i - a]) || m[i - a] == '.'));
            return false;
        }
        i = i + 1;
    }
    proof {
        assert forall|k: int| 0 <= k < m.len() implies is_digit(#[trigger] m[k]) || m[k] == '.' by {
            assert(m[k] == v@[a + k]);
        }
        assert forall|x: int, y: int|
            0 <= x < m.len() && 0 <= y < m.len() && #[trigger] m[x] == '.' && #[trigger] m[y]
                == '.' implies x == y by {
            assert(m[x] == v@[a + x] && m[y] == v@[a + y]);
        }
        if digit {
            let k = choose|k: int| a <= k < i && is_digit(#[trigger] v@[k]);
            assert(m[k - a] == v@[k]);
        } else {
            assert forall|k: int| 0 <= k < m.len() implies !is_digit(#[trigger] m[k]) by {
                assert(m[k] == v@[a + k]);
            }
        }
    }
    digit
}

/// Whether `v[a..b]` is an exponent.
fn exponent_at(v: &Vec<char>, a: usize, b: usize) -> (r: bool)
    requires
        a <= b <= v@.len(),
    ensures
        r == is_exponent(v@.subrange(a as int, b as int)),
{
    let ghost e = v@.subrange(a as int, b as int);
    let mut start = a;
    if a < b && (v[a] == '+' || v[a] == '-') {
        start = a + 1;
    }
    let ghost d = signed_body(e);
    assert(d =~= v@.subrange(start as int, b as int));
    if start == b {
        return false;
    }
    let mut i = start;
    while i < b
        invariant
            a <= start <= i <= b <= v@.len(),
            d == v@.subrange(start as int, b as int),
            d == signed_body(v@.subrange(a as int, b as int)),
            forall|k: int| start <= k < i ==> is_digit(#[trigger] v@[k]),
        decreases b - i,
    {
        let code = v[i] as u32;
        if !(48 <= code && code <= 57) {
            assert(!is_digit(d[i - start]));
            return false;
        }
        i = i + 1;
    }
    assert forall|k: int| 0 <= k < d.len() implies is_digit(#[trigger] d[k]) by {
        assert(d[k] == v@[start + k]);
    }
    true
}

/// Whether the token is a literal that `f32::from_str` accepts.
pub fn is_float(s: &str) -> (r: bool)
    ensures
        r == is_float_literal(s@),
{
    let v = chars_of(s);
    let n = v.len();
    let mut a: usize = 0;
    if n > 0 && (v[0] == '+' || v[0] == '-') {
        a = 1;
    }
    let ghost t = signed_body(s@);
    assert(t =~= v@.subrange(a as int, n as int));
    let inf: [u32; 3] = [105, 110, 102];
    let infinity: [u32; 8] = [105, 110, 102, 105, 110, 105, 116, 121];
    let nan: [u32; 3] = [110, 97, 110];
    assert(inf@ == inf_word() && infinity@ == infinity_word() && nan@ == nan_word());
    if spells_at(&v, a, n, &inf) || spells_at(&v, a, n, &infinity) || spells_at(&v, a, n, &nan) {
        return true;
    }
    let mut k = a;
    while k < n && !(v[k] == 'e' || v[k] == 'E')
        invariant
            a <= k <= n == v@.len(),
            forall|j: int| a <= j < k ==> !is_exp_mark(#[trigger] v@[j]),
        decreases n - k,
    {
        k = k + 1;
    }
    if k == n {
        let r = mantissa_at(&v, a, n);
        proof {
            assert forall|j: int| 0 <= j < t.len() implies !is_exp_mark(#[trigger] t[j]) by {
                assert(t[j] == v@[a + j]);
            }
        }
        r
    } else {
        let r = mantissa_at(&v, a, k) && exponent_at(&v, k + 1, n);
        proof {
            let kk = k - a;
            assert(t[kk] == v@[k as int]);
            assert(t.take(kk) =~= v@.subrange(a as int, k as int));
            assert(t.skip(kk + 1) =~= v@.subrange(k + 1, n as int));
            if !r {
                assert forall|j: int|
                    0 <= j < t.len() && is_exp_mark(#[trigger] t[j]) && is_mantissa(
                        t.take(j),
                    ) implies !is_exponent(t.skip(j + 1)) by {
                    if j < kk {
                        assert(t[j] == v@[a + j]);
                    } else if j > kk {
                        assert(t.take(j)[kk] == t[kk]);
                    }
                }
            }
        }
        r
    }
}

pub open spec fn pow10(n: nat) -> nat
    decreases n,
{
    if n == 0 {
        1
    } else {
        10 * pow10((n - 1) as nat)
    }
}

proof fn lemma_digits_bound(s: Seq<char>)
    requires
        all_digits(s),
    ensures
        digits_value(s) < pow10(s.len()),
    decreases s.len(),
{
    if s.len() > 0 {
        lemma_digits_bound(s.drop_last());
        assert(digit_value(s.last()) <= 9);
    }
}

/// The digits `v[a..b]`, of which there are at most four, as a number.
fn digits_in(v: &Vec<char>, a: usize, b: usize) -> (r: Option<u32>)
    requires
        a <= b <= v@.len(),
        b - a <= 4,
    ensures
        match r {
            Some(x) => all_digits(v@.subrange(a as int, b as int)) && x == digits_value(
                v@.subrange(a as int, b as int),
            ),
            None => !all_digits(v@.subrange(a as int, b as int)),
        },
{
    let mut acc: u32 = 0;
    let mut i = a;
    while i < b
        invariant
            a <= i <= b <= v@.len(),
            b - a <= 4,
            all_digits(v@.subrange(a as int, i as int)),
            acc == digits_value(v@.subrange(a as int, i as int)),
        decreases b - i,
    {
        let code = v[i] as u32;
        if !(48 <= code && code <= 57) {
            assert(v@.subrange(a as int, b as int)[i - a] == v@[i as int]);
            return None;
        }
        proof {
            lemma_digits_bound(v@.subrange(a as int, i as int));
            assert(pow10(0) == 1 && pow10(1) == 10 && pow10(2) == 100 && pow10(3) == 1000) by {
                reveal_with_fuel(pow10, 4);
            }
            assert(v@.subrange(a as int, i + 1).drop_last() =~= v@.subrange(a as int, i as int));
            assert(all_digits(v@.subrange(a as int, i + 1)));
        }
        acc = acc * 10 + (code - 48);
        i = i + 1;
    }
    Some(acc)
}

/// The year, month and day of a `YYYY-MM-DD` token, the year with an
/// optional sign.
pub open spec fn date_fields(s: Seq<char>) -> Option<(int, int, int)> {
    let b = signed_body(s);
    if b.len() == 10 && all_digits(b.take(4)) && b[4] == '-' && all_digits(b.subrange(5, 7))
        && b[7] == '-' && all_digits(b.subrange(8, 10)) {
        let y = digits_value(b.take(4)) as int;
        Some(
            (
                if s[0] == '-' {
                    -y
                } else {
                    y
                },
                digits_value(b.subrange(5, 7)) as int,
                digits_value(b.subrange(8, 10)) as int,
            ),
        )
    } else {
        None
    }
}

/// The hour and minute of an `HH:MM` token of a time of day.
pub open spec fn time_fields(s: Seq<char>) -> Option<(int, int)> {
    if s.len() == 5 && all_digits(s.take(2)) && s[2] == ':' && all_digits(s.subrange(3, 5))
        && digits_value(s.take(2)) <= 23 && digits_value(s.subrange(3, 5)) <= 59 {
        Some((digits_value(s.take(2)) as int, digits_value(s.subrange(3, 5)) as int))
    } else {
        None
    }
}

/// Reads a `YYYY-MM-DD` token; the calendar is not consulted.
pub fn parse_date_fields(s: &str) -> (r: Option<(i32, u8, u8)>)
    ensures
        match r {
            Some((y, m, d)) => date_fields(s@) == Some((y as int, m as int, d as int)),
            None => date_fields(s@) is None,
        },
{
    let v = chars_of(s);
    let n = v.len();
    let mut a: usize = 0;
    if n > 0 && (v[0] == '+' || v[0] == '-') {
        a = 1;
    }
    let ghost b = signed_body(s@);
    assert(b =~= v@.subrange(a as int, n as int));
    if n - a != 10 || v[a + 4] != '-' || v[a + 7] != '-' {
        return None;
    }
    assert(b.take(4) =~= v@.subrange(a as int, a + 4));
    assert(b.subrange(5, 7) =~= v@.subrange(a + 5, a + 7));
    assert(b.subrange(8, 10) =~= v@.subrange(a + 8, a + 10));
    let year = match digits_in(&v, a, a + 4) {
        Some(x) => x,
        None => {
            return None;
        },
    };
    let month = match digits_in(&v, a + 5, a + 7) {
        Some(x) => x,
        None => {
            return None;
        },
    };
    let day = match digits_in(&v, a + 5 + 3, a + 10) {
        Some(x) => x,
        None => {
            return None;
        },
    };
    proof {
        lemma_digits_bound(v@.subrange(a as int, a + 4));
        lemma_digits_bound(v@.subrange(a + 5, a + 7));
        lemma_digits_bound(v@.subrange(a + 8, a + 10));
        reveal_with_fuel(pow10, 5);
    }
    let y = if v[0] == '-' {
        -(year as i32)
    } else {
        year as i32
    };
    Some((y, month as u8, day as u8))
}

/// Reads an `HH:MM` token of a time of day.
pub fn parse_time_fields(s: &str) -> (r: Option<(u8, u8)>)
    ensures
        match r {
            Some((h, m)) => time_fields(s@) == Some((h as int, m as int)),
            None => time_fields(s@) is None,
        },
{
    let v = chars_of(s);
    if v.len() != 5 || v[2] != ':' {
        return None;
    }
    assert(s@.take(2) =~= v@.subrange(0, 2));
    assert(s@.subrange(3, 5) =~= v@.subrange(3, 5));
    let hour = match digits_in(&v, 0, 2) {
        Some(x) => x,
        None => {
            return None;
        },
    };
    let minute = match digits_in(&v, 3, 5) {
        Some(x) => x,
        None => {
            return None;
        },
    };
    if hour > 23 || minute > 59 {
        return None;
    }
    Some((hour as u8, minute as u8))
}

} // verus!
