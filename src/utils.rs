//! Page names as they appear in URLs, turned into document names.
use vstd::prelude::*;

verus! {

/// What `char::is_alphanumeric` says of `c` (Unicode's Alphabetic or Numeric).
pub uninterp spec fn is_alnum(c: char) -> bool;

/// What `str::to_lowercase` makes of `s` (Unicode's lower-case mapping).
pub uninterp spec fn lower_of(s: Seq<char>) -> Seq<char>;

/// An ASCII letter or digit (`a`..`z`, `A`..`Z`, `0`..`9`).
pub open spec fn is_ascii_alnum(c: char) -> bool {
    (97 <= c as u32 <= 122) || (65 <= c as u32 <= 90) || (48 <= c as u32 <= 57)
}

/// An ASCII upper-case letter (`A`..`Z`).
pub open spec fn is_ascii_upper(c: char) -> bool {
    65 <= c as u32 <= 90
}

/// Relies on `char::is_alphanumeric` (Alphabetic or Numeric): among ASCII
/// characters exactly the letters and digits.
#[verifier::external_body]
fn char_is_alphanumeric(c: char) -> (r: bool)
    ensures
        r == is_alnum(c),
        (c as u32) < 128 ==> (r <==> is_ascii_alnum(c)),
{
    c.is_alphanumeric()
}

/// Relies on `str::to_lowercase`, whose result depends on the characters
/// alone; on ASCII text it maps `A`..`Z` to `a`..`z` and keeps the rest.
#[verifier::external_body]
fn lowercase(s: &str) -> (r: String)
    ensures
        r@ == lower_of(s@),
        (forall|i: int| 0 <= i < s@.len() ==> (#[trigger] s@[i] as u32) < 128) ==> {
            &&& r@.len() == s@.len()
            &&& forall|i: int|
                0 <= i < s@.len() ==> if is_ascii_upper(#[trigger] s@[i]) {
                    r@[i] as u32 == s@[i] as u32 + 32
                } else {
                    r@[i] == s@[i]
                }
        },
{
    s.to_lowercase()
}

/// Relies on `String::push`: appends one character.
#[verifier::external_body]
pub(crate) fn push_char(s: &mut String, c: char)
    ensures
        final(s)@ == old(s)@.push(c),
{
    s.push(c)
}

/// Text made of ASCII characters only.
pub open spec fn is_ascii_text(s: Seq<char>) -> bool {
    forall|i: int| 0 <= i < s.len() ==> (#[trigger] s[i] as u32) < 128
}

/// A character that a page name keeps, among ASCII ones: a letter, a
/// digit, `_`, `-` or `/`.
pub open spec fn is_name_char(c: char) -> bool {
    is_ascii_alnum(c) || c == '_' || c == '-' || c == '/'
}

/// An ASCII page name that sanitizing leaves as it is: only kept
/// characters, and no capitals unless `retain_case`.
pub open spec fn is_settled_name(s: Seq<char>, retain_case: bool) -> bool {
    forall|i: int|
        0 <= i < s.len() ==> is_name_char(#[trigger] s[i]) && (!retain_case ==> !is_ascii_upper(
            s[i],
        ))
}

/// A space becomes an underscore; every other character stays.
pub open spec fn spaced(c: char) -> char {
    if c == ' ' {
        '_'
    } else {
        c
    }
}

/// The characters a page name keeps: letters, digits, `_`, `-` and `/`.
pub open spec fn kept(c: char) -> bool {
    is_alnum(c) || c == '_' || c == '-' || c == '/'
}

/// `s` with spaces made underscores and every other character that is not
/// kept dropped.
pub open spec fn cleaned(s: Seq<char>) -> Seq<char>
    decreases s.len(),
{
    if s.len() == 0 {
        Seq::empty()
    } else {
        let rest = cleaned(s.drop_last());
        if kept(spaced(s.last())) {
            rest.push(spaced(s.last()))
        } else {
            rest
        }
    }
}

/// The document name of the page `name`: cleaned, and lower-cased unless
/// `retain_case`.
pub open spec fn sanitized(name: Seq<char>, retain_case: bool) -> Seq<char> {
    if retain_case {
        cleaned(name)
    } else {
        lower_of(cleaned(name))
    }
}

/// Turns a page name into the name of its document: spaces become
/// underscores, characters other than letters, digits, `_`, `-` and `/` are
/// dropped, and the result is lower-cased unless `retain_case`.
pub fn sanitize_pagename(name: &str, retain_case: bool) -> (r: String)
    ensures
        r@ == sanitized(name@, retain_case),
        is_ascii_text(name@) ==> forall|i: int|
            0 <= i < r@.len() ==> is_name_char(#[trigger] r@[i]) && (!retain_case
                ==> !is_ascii_upper(r@[i])),
        is_settled_name(name@, retain_case) ==> r@ == name@,
{
    let n = name.unicode_len();
    let mut result = String::new();
    let mut i: usize = 0;
    while i < n
        invariant
            n == name@.len(),
            i <= n,
            result@ == cleaned(name@.subrange(0, i as int)),
            is_ascii_text(name@) ==> forall|k: int|
                0 <= k < result@.len() ==> is_name_char(#[trigger] result@[k]),
            is_settled_name(name@, retain_case) ==> result@ == name@.subrange(0, i as int),
        decreases n - i,
    {
        let c = name.get_char(i);
        let d = if c == ' ' {
            '_'
        } else {
            c
        };
        let ghost before = result@;
        proof {
            if is_settled_name(name@, retain_case) {
                assert(is_name_char(name@[i as int]));
                assert((name@[i as int] as u32) < 128);
            }
        }
        if char_is_alphanumeric(d) || d == '_' || d == '-' || d == '/' {
            push_char(&mut result, d);
            assert(is_ascii_text(name@) ==> is_name_char(d)) by {
                if is_ascii_text(name@) {
                    assert((name@[i as int] as u32) < 128);
                }
            }
            assert forall|k: int| 0 <= k < result@.len() && is_ascii_text(name@) implies is_name_char(
                #[trigger] result@[k],
            ) by {
                if k < before.len() {
                    assert(result@[k] == before[k]);
                }
            }
            assert(is_settled_name(name@, retain_case) ==> result@ =~= name@.subrange(0, i + 1));
        }
        assert(name@.subrange(0, i + 1).drop_last() =~= name@.subrange(0, i as int));
        i = i + 1;
    }
    assert(name@.subrange(0, n as int) =~= name@);
    if retain_case {
        result
    } else {
        let r = lowercase(result.as_str());
        proof {
            if is_ascii_text(name@) {
                assert forall|k: int| 0 <= k < result@.len() implies (#[trigger] result@[k] as u32)
                    < 128 by {
                    assert(is_name_char(result@[k]));
                }
                assert forall|k: int| 0 <= k < r@.len() implies is_name_char(#[trigger] r@[k])
                    && !is_ascii_upper(r@[k]) by {
                    assert(is_name_char(result@[k]));
                    if is_ascii_upper(result@[k]) {
                        assert(r@[k] as u32 == result@[k] as u32 + 32);
                    } else {
                        assert(r@[k] == result@[k]);
                    }
                }
                if is_settled_name(name@, retain_case) {
                    assert forall|k: int| 0 <= k < r@.len() implies r@[k] == result@[k] by {
                        assert(!is_ascii_upper(name@[k]));
                    }
                    assert(r@ =~= result@);
                }
            }
        }
        r
    }
}

} // verus!

verus! {

/// `1024` to the power `k`.
pub open spec fn pow1024(k: nat) -> nat
    decreases k,
{
    if k == 0 {
        1
    } else {
        1024 * pow1024((k - 1) as nat)
    }
}

/// The unit, from `k` up, that a size of `num` bytes is shown in: the first
/// under which it is less than 1024, or the largest unit (EiB, `k == 6`).
pub open spec fn unit_from(num: nat, k: nat) -> nat
    decreases 6 - k,
{
    if k >= 6 || num < pow1024(k + 1) {
        k
    } else {
        unit_from(num, k + 1)
    }
}

/// `num / 1024^k` in tenths, rounded to the nearest, ties to even.
pub open spec fn rounded_tenths(num: nat, k: nat) -> nat {
    let d = pow1024(k);
    let q = (num * 10) / d;
    let r = (num * 10) % d;
    if 2 * r > d || (2 * r == d && q % 2 == 1) {
        q + 1
    } else {
        q
    }
}

/// The character of a decimal digit.
pub open spec fn digit_char(d: nat) -> char {
    if d == 0 {
        '0'
    } else if d == 1 {
        '1'
    } else if d == 2 {
        '2'
    } else if d == 3 {
        '3'
    } else if d == 4 {
        '4'
    } else if d == 5 {
        '5'
    } else if d == 6 {
        '6'
    } else if d == 7 {
        '7'
    } else if d == 8 {
        '8'
    } else {
        '9'
    }
}

/// `n` in decimal, without leading zeros.
pub open spec fn decimal(n: nat) -> Seq<char>
    decreases n,
{
    if n < 10 {
        seq![digit_char(n)]
    } else {
        decimal(n / 10).push(digit_char(n % 10))
    }
}

/// The name of binary unit `k` (`1024^k` bytes), from KiB up.
pub open spec fn unit_name(k: nat) -> Seq<char> {
    if k == 1 {
        seq!['K', 'i', 'B']
    } else if k == 2 {
        seq!['M', 'i', 'B']
    } else if k == 3 {
        seq!['G', 'i', 'B']
    } else if k == 4 {
        seq!['T', 'i', 'B']
    } else if k == 5 {
        seq!['P', 'i', 'B']
    } else {
        seq!['E', 'i', 'B']
    }
}

/// `2` to the power `k`.
pub open spec fn pow2(k: nat) -> nat
    decreases k,
{
    if k == 0 {
        1
    } else {
        2 * pow2((k - 1) as nat)
    }
}

/// The first shift from `s` up (at most 11) that brings `n` under `2^53`.
pub open spec fn shift_from(n: nat, s: nat) -> nat
    decreases 11 - s,
{
    if s >= 11 || n / pow2(s) < pow2(53) {
        s
    } else {
        shift_from(n, s + 1)
    }
}

/// `n` rounded to 53 significant bits, ties to even: the value that a
/// double-precision number holds for `n`.
pub open spec fn nearest_double(n: nat) -> nat {
    let d = pow2(shift_from(n, 0));
    let q = n / d;
    let r = n % d;
    if 2 * r > d || (2 * r == d && q % 2 == 1) {
        (q + 1) * d
    } else {
        q * d
    }
}

/// A byte count for people: under 1024 as `"<n> B"`, otherwise, taken to
/// double precision, in the largest binary unit that keeps the number under
/// 1024 (up to EiB), with one decimal.
pub open spec fn size_text(num: nat) -> Seq<char> {
    if num < 1024 {
        decimal(num) + seq![' ', 'B']
    } else {
        let v = nearest_double(num);
        let k = unit_from(v, 1);
        let t = rounded_tenths(v, k);
        decimal(t / 10) + seq!['.', digit_char(t % 10), ' '] + unit_name(k)
    }
}

fn digit(d: u128) -> (c: char)
    requires
        d < 10,
    ensures
        c == digit_char(d as nat),
{
    if d == 0 {
        '0'
    } else if d == 1 {
        '1'
    } else if d == 2 {
        '2'
    } else if d == 3 {
        '3'
    } else if d == 4 {
        '4'
    } else if d == 5 {
        '5'
    } else if d == 6 {
        '6'
    } else if d == 7 {
        '7'
    } else if d == 8 {
        '8'
    } else {
        '9'
    }
}

/// Appends `n` in decimal.
fn push_decimal(s: &mut String, n: u128)
    ensures
        final(s)@ == old(s)@ + decimal(n as nat),
    decreases n,
{
    if n >= 10 {
        push_decimal(s, n / 10);
    }
    push_char(s, digit(n % 10));
    assert(final(s)@ =~= old(s)@ + decimal(n as nat));
}

fn unit_text(k: u32) -> (r: &'static str)
    requires
        1 <= k <= 6,
    ensures
        r@ == unit_name(k as nat),
{
    proof {
        reveal_strlit("KiB");
        reveal_strlit("MiB");
        reveal_strlit("GiB");
        reveal_strlit("TiB");
        reveal_strlit("PiB");
        reveal_strlit("EiB");
    }
    let r = if k == 1 {
        "KiB"
    } else if k == 2 {
        "MiB"
    } else if k == 3 {
        "GiB"
    } else if k == 4 {
        "TiB"
    } else if k == 5 {
        "PiB"
    } else {
        "EiB"
    };
    assert(r@ =~= unit_name(k as nat));
    r
}

/// `n` rounded to 53 significant bits, ties to even.
fn to_double(n: u64) -> (v: u128)
    ensures
        v as nat == nearest_double(n as nat),
        v <= 18446744073709553664,
{
    let m = n as u128;
    let mut s: u32 = 0;
    let mut d: u128 = 1;
    proof {
        reveal_with_fuel(pow2, 12);
        reveal_with_fuel(pow2, 54);
    }
    while s < 11 && m / d >= 9007199254740992
        invariant
            s <= 11,
            d as nat == pow2(s as nat),
            1 <= d <= 2048,
            m == n as u128,
            pow2(53) == 9007199254740992,
            shift_from(m as nat, 0) == shift_from(m as nat, s as nat),
        decreases 11 - s,
    {
        proof {
            reveal_with_fuel(pow2, 12);
        }
        assert(pow2((s + 1) as nat) == 2 * pow2(s as nat));
        d = d * 2;
        s = s + 1;
    }
    proof {
        reveal_with_fuel(pow2, 12);
        if s == 11 {
            assert(d == 2048);
            assert(m / 2048 < 9007199254740992);
        }
        assert(shift_from(m as nat, s as nat) == s);
    }
    let q = m / d;
    let r = m % d;
    let up = 2 * r > d || (2 * r == d && q % 2 == 1);
    let q2 = if up { q + 1 } else { q };
    assert(q * d <= m) by (nonlinear_arith)
        requires
            q == m / d,
            d >= 1,
    ;
    assert(q2 * d <= m + d) by (nonlinear_arith)
        requires
            q2 <= q + 1,
            q * d <= m,
            d >= 1,
    ;
    q2 * d
}

/// A byte count for people: `"512 B"`, `"1.5 KiB"`, `"3.0 GiB"`; one decimal,
/// rounded to the nearest with ties to even, in binary units up to EiB.
pub fn sizeof_fmt(num: u64) -> (r: String)
    ensures
        r@ == size_text(num as nat),
{
    let mut r = String::new();
    if num < 1024 {
        push_decimal(&mut r, num as u128);
        let unit = " B";
        proof {
            reveal_strlit(" B");
        }
        r.append(unit);
        assert(r@ =~= size_text(num as nat));
        return r;
    }
    let n = to_double(num);
    let mut k: u32 = 1;
    let mut d: u128 = 1024;
    proof {
        reveal_with_fuel(pow1024, 8);
    }
    while k < 6 && n >= d * 1024
        invariant
            1 <= k <= 6,
            d as nat == pow1024(k as nat),
            d <= 1152921504606846976,
            n <= 18446744073709553664,
            n as nat == nearest_double(num as nat),
            unit_from(n as nat, 1) == unit_from(n as nat, k as nat),
        decreases 6 - k,
    {
        proof {
            reveal_with_fuel(pow1024, 8);
            assert(k <= 5);
        }
        assert(pow1024((k + 1) as nat) == 1024 * pow1024(k as nat));
        d = d * 1024;
        k = k + 1;
    }
    assert(pow1024((k + 1) as nat) == 1024 * pow1024(k as nat));
    assert(unit_from(n as nat, k as nat) == k);
    let scaled = n * 10;
    let q = scaled / d;
    let rem = scaled % d;
    let t = if 2 * rem > d || (2 * rem == d && q % 2 == 1) {
        q + 1
    } else {
        q
    };
    assert(t as nat == rounded_tenths(n as nat, k as nat));
    push_decimal(&mut r, t / 10);
    let mid = t % 10;
    push_char(&mut r, '.');
    push_char(&mut r, digit(mid));
    push_char(&mut r, ' ');
    r.append(unit_text(k));
    assert(r@ =~= size_text(num as nat));
    r
}

} // verus!
