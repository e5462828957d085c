//! Verified text utilities shared by the pipelines: character-level string
//! equality, trimming, decimal parsing, and joining.

use vstd::prelude::*;

verus! {

/// The views of a sequence of owned strings.
pub open spec fn views_of(v: Seq<String>) -> Seq<Seq<char>> {
    v.map_values(|s: String| s@)
}

/// Compares two string slices character by character.
pub fn chars_eq(a: &str, b: &str) -> (r: bool)
    ensures
        r <==> a@ == b@,
{
    let n = a.unicode_len();
    if n != b.unicode_len() {
        return false;
    }
    let mut i: usize = 0;
    while i < n
        invariant
            n == a@.len(),
            n == b@.len(),
            i <= n,
            forall|j: int| 0 <= j < i ==> a@[j] == b@[j],
        decreases n - i,
    {
        if a.get_char(i) != b.get_char(i) {
            return false;
        }
        i += 1;
    }
    proof {
        assert(a@ =~= b@);
    }
    true
}

/// Unicode whitespace, the set `str::trim` removes: the ASCII whitespace
/// characters, next line, no-break space, ogham space mark, the en-quad
/// through hair-space block, the two line and paragraph separators,
/// narrow no-break space, medium mathematical space, and ideographic
/// space.
pub open spec fn spec_is_space(c: char) -> bool {
    let u = c as int;
    u == 0x20 || u == 0x09 || u == 0x0a || u == 0x0b || u == 0x0c || u == 0x0d || u == 0x85 || u
        == 0xa0 || u == 0x1680 || (0x2000 <= u <= 0x200a) || u == 0x2028 || u == 0x2029 || u
        == 0x202f || u == 0x205f || u == 0x3000
}

fn is_space(c: char) -> (r: bool)
    ensures
        r == spec_is_space(c),
{
    let u = c as u32;
    u == 0x20 || u == 0x09 || u == 0x0a || u == 0x0b || u == 0x0c || u == 0x0d || u == 0x85 || u
        == 0xa0 || u == 0x1680 || (0x2000 <= u && u <= 0x200a) || u == 0x2028 || u == 0x2029 || u
        == 0x202f || u == 0x205f || u == 0x3000
}

/// A string with its leading whitespace removed.
pub open spec fn spec_trim_front(s: Seq<char>) -> Seq<char>
    decreases s.len(),
{
    if s.len() > 0 && spec_is_space(s[0]) {
        spec_trim_front(s.skip(1))
    } else {
        s
    }
}

/// A string with its trailing whitespace removed.
pub open spec fn spec_trim_back(s: Seq<char>) -> Seq<char>
    decreases s.len(),
{
    if s.len() > 0 && spec_is_space(s[s.len() - 1]) {
        spec_trim_back(s.take(s.len() - 1))
    } else {
        s
    }
}

/// A string with whitespace removed from both ends.
pub open spec fn spec_trim(s: Seq<char>) -> Seq<char> {
    spec_trim_back(spec_trim_front(s))
}

proof fn lemma_trim_front_skip(s: Seq<char>, lo: int)
    requires
        0 <= lo <= s.len(),
        forall|j: int| 0 <= j < lo ==> spec_is_space(s[j]),
        lo == s.len() || !spec_is_space(s[lo]),
    ensures
        spec_trim_front(s) == s.skip(lo),
    decreases lo,
{
    if lo == 0 {
        assert(s.skip(0) =~= s);
    } else {
        lemma_trim_front_skip(s.skip(1), lo - 1);
        assert(s.skip(1).skip(lo - 1) =~= s.skip(lo));
    }
}

proof fn lemma_trim_back_take(s: Seq<char>, hi: int)
    requires
        0 <= hi <= s.len(),
        forall|j: int| hi <= j < s.len() ==> spec_is_space(s[j]),
        hi == 0 || !spec_is_space(s[hi - 1]),
    ensures
        spec_trim_back(s) == s.take(hi),
    decreases s.len() - hi,
{
    if hi == s.len() {
        assert(s.take(hi) =~= s);
        if s.len() > 0 {
            assert(!spec_is_space(s[s.len() - 1]));
        }
    } else {
        assert(spec_is_space(s[s.len() - 1]));
        lemma_trim_back_take(s.take(s.len() - 1), hi);
        assert(s.take(s.len() - 1).take(hi) =~= s.take(hi));
    }
}

/// Removes leading and trailing whitespace.
pub fn trim(s: &str) -> (r: String)
    ensures
        r@ == spec_trim(s@),
{
    let n = s.unicode_len();
    let mut lo: usize = 0;
    while lo < n && is_space(s.get_char(lo))
        invariant
            n == s@.len(),
            lo <= n,
            forall|j: int| 0 <= j < lo ==> spec_is_space(s@[j]),
        decreases n - lo,
    {
        lo += 1;
    }
    let mut hi: usize = n;
    while hi > lo && is_space(s.get_char(hi - 1))
        invariant
            n == s@.len(),
            lo <= hi <= n,
            forall|j: int| hi <= j < n ==> spec_is_space(s@[j]),
        decreases hi,
    {
        hi -= 1;
    }
    proof {
        lemma_trim_front_skip(s@, lo as int);
        let t = s@.skip(lo as int);
        lemma_trim_back_take(t, hi - lo);
        assert(t.take(hi - lo) =~= s@.subrange(lo as int, hi as int));
    }
    s.substring_char(lo, hi).to_owned()
}

/// Whether a character is a decimal digit.
pub open spec fn spec_is_digit(c: char) -> bool {
    48 <= c as int <= 57
}

/// The numeric value of a decimal digit.
pub open spec fn spec_digit_val(c: char) -> int {
    c as int - 48
}

/// Whether every character of a string is a decimal digit.
pub open spec fn spec_all_digits(s: Seq<char>) -> bool {
    forall|i: int| 0 <= i < s.len() ==> spec_is_digit(s[i])
}

/// The value of a string of decimal digits, most significant first.
pub open spec fn spec_digits_value(s: Seq<char>) -> int
    decreases s.len(),
{
    if s.len() == 0 {
        0
    } else {
        spec_digits_value(s.take(s.len() - 1)) * 10 + spec_digit_val(s[s.len() - 1])
    }
}

proof fn lemma_digits_value_nonneg(s: Seq<char>)
    requires
        spec_all_digits(s),
    ensures
        spec_digits_value(s) >= 0,
    decreases s.len(),
{
    if s.len() > 0 {
        lemma_digits_value_nonneg(s.take(s.len() - 1));
    }
}

proof fn lemma_digits_value_prefix_le(s: Seq<char>, k: int)
    requires
        spec_all_digits(s),
        0 <= k <= s.len(),
    ensures
        spec_digits_value(s.take(k)) <= spec_digits_value(s),
    decreases s.len() - k,
{
    if k == s.len() {
        assert(s.take(k) =~= s);
    } else {
        lemma_digits_value_prefix_le(s, k + 1);
        let t = s.take(k + 1);
        assert(t.take(t.len() - 1) =~= s.take(k));
        assert(t[t.len() - 1] == s[k]);
        lemma_digits_value_nonneg(s.take(k));
    }
}

/// The decimal value of a string: an optional leading `+`, then at least
/// one digit, all digits, and a value that fits in a `u64`; anything else
/// does not parse.
pub open spec fn spec_parse_u64(s: Seq<char>) -> Option<u64> {
    let digits = if s.len() >= 1 && s[0] == '+' {
        s.skip(1)
    } else {
        s
    };
    if digits.len() > 0 && spec_all_digits(digits) && spec_digits_value(digits) <= u64::MAX {
        Some(spec_digits_value(digits) as u64)
    } else {
        None
    }
}

fn parse_digits(s: &str, start: usize) -> (r: Option<u64>)
    requires
        start <= s@.len(),
    ensures
        ({
            let digits = s@.skip(start as int);
            match r {
                Some(v) => digits.len() > 0 && spec_all_digits(digits)
                    && spec_digits_value(digits) == v as int,
                None => !(digits.len() > 0 && spec_all_digits(digits)
                    && spec_digits_value(digits) <= u64::MAX),
            }
        }),
{
    let ghost digits = s@.skip(start as int);
    let n = s.unicode_len();
    if start == n {
        return None;
    }
    let mut v: u64 = 0;
    let mut i: usize = start;
    while i < n
        invariant
            n == s@.len(),
            start <= i <= n,
            digits == s@.skip(start as int),
            forall|j: int| start <= j < i ==> spec_is_digit(s@[j]),
            spec_all_digits(digits.take(i - start)),
            v as int == spec_digits_value(digits.take(i - start)),
        decreases n - i,
    {
        let c = s.get_char(i);
        let u = c as u32;
        if u < 48 || u > 57 {
            assert(!spec_is_digit(digits[i - start]));
            return None;
        }
        let d = (u - 48) as u64;
        proof {
            assert(digits.take(i - start + 1).take(i - start) =~= digits.take(i - start));
            assert(digits.take(i - start + 1)[i - start] == s@[i as int]);
        }
        if v > (u64::MAX - d) / 10 {
            proof {
                assert(v as int * 10 + d as int > u64::MAX) by {
                    assert(v as int >= (u64::MAX - d as int) / 10 + 1);
                };
                assert(spec_digits_value(digits.take(i - start + 1)) > u64::MAX);
                if spec_all_digits(digits) {
                    lemma_digits_value_prefix_le(digits, i - start + 1);
                    assert(spec_digits_value(digits) > u64::MAX);
                }
            }
            return None;
        }
        proof {
            assert(v as int * 10 + d as int <= u64::MAX) by {
                assert(v as int <= (u64::MAX - d as int) / 10);
            };
        }
        v = v * 10 + d;
        i += 1;
    }
    proof {
        assert(digits.take(n - start) =~= digits);
    }
    Some(v)
}

/// Parses a string as a decimal `u64`: an optional leading `+`, then at
/// least one digit; fails on any other character or on overflow.
pub fn parse_u64(s: &str) -> (r: Option<u64>)
    ensures
        r == spec_parse_u64(s@),
{
    let n = s.unicode_len();
    if n >= 1 && s.get_char(0) == '+' {
        parse_digits(s, 1)
    } else {
        proof {
            assert(s@.skip(0) =~= s@);
        }
        parse_digits(s, 0)
    }
}

/// Whether a string contains any of the given characters. The prompt
/// validators use this with the platform's forbidden path characters.
pub fn contains_any_char(s: &str, forbidden: &Vec<char>) -> (r: bool)
    ensures
        r <==> exists|i: int| 0 <= i < forbidden@.len() && s@.contains(#[trigger] forbidden@[i]),
{
    let n = s.unicode_len();
    let mut i: usize = 0;
    while i < n
        invariant
            n == s@.len(),
            i <= n,
            forall|j: int, k: int|
                #![trigger s@[j], forbidden@[k]]
                0 <= j < i && 0 <= k < forbidden@.len() ==> s@[j] != forbidden@[k],
        decreases n - i,
    {
        let c = s.get_char(i);
        let mut k: usize = 0;
        while k < forbidden.len()
            invariant
                n == s@.len(),
                i < n,
                c == s@[i as int],
                k <= forbidden@.len(),
                forall|m: int| 0 <= m < k ==> c != #[trigger] forbidden@[m],
            decreases forbidden@.len() - k,
        {
            if c == forbidden[k] {
                assert(s@.contains(forbidden@[k as int]));
                return true;
            }
            k += 1;
        }
        i += 1;
    }
    proof {
        assert forall|i2: int| 0 <= i2 < forbidden@.len() implies !s@.contains(
            #[trigger] forbidden@[i2],
        ) by {
            if s@.contains(forbidden@[i2]) {
                let w = choose|w: int| 0 <= w < s@.len() && s@[w] == forbidden@[i2];
                assert(s@[w] != forbidden@[i2]);
            }
        }
    }
    false
}

/// An ASCII uppercase letter lowered; any other character unchanged.
pub open spec fn spec_lower_char(c: char) -> char {
    if 65 <= c as int <= 90 {
        (((c as int) + 32) as u8) as char
    } else {
        c
    }
}

/// A string with its ASCII uppercase letters lowered.
pub open spec fn spec_ascii_lower(s: Seq<char>) -> Seq<char> {
    s.map_values(|c: char| spec_lower_char(c))
}

/// Whether two strings are equal up to ASCII case.
pub open spec fn spec_eq_ascii_ci(a: Seq<char>, b: Seq<char>) -> bool {
    spec_ascii_lower(a) == spec_ascii_lower(b)
}

fn lower_char(c: char) -> (r: char)
    ensures
        r == spec_lower_char(c),
{
    let u = c as u32;
    if 65 <= u && u <= 90 {
        ((u + 32) as u8) as char
    } else {
        c
    }
}

/// Compares two string slices up to ASCII case.
pub fn eq_ignore_ascii_case(a: &str, b: &str) -> (r: bool)
    ensures
        r <==> spec_eq_ascii_ci(a@, b@),
{
    let n = a.unicode_len();
    if n != b.unicode_len() {
        assert(spec_ascii_lower(a@).len() != spec_ascii_lower(b@).len());
        return false;
    }
    let mut i: usize = 0;
    while i < n
        invariant
            n == a@.len(),
            n == b@.len(),
            i <= n,
            forall|j: int|
                0 <= j < i ==> spec_lower_char(#[trigger] a@[j]) == spec_lower_char(b@[j]),
        decreases n - i,
    {
        if lower_char(a.get_char(i)) != lower_char(b.get_char(i)) {
            assert(spec_ascii_lower(a@)[i as int] != spec_ascii_lower(b@)[i as int]);
            return false;
        }
        i += 1;
    }
    proof {
        assert(spec_ascii_lower(a@) =~= spec_ascii_lower(b@));
    }
    true
}

/// The strings of `parts` joined by `sep`.
pub open spec fn spec_join(parts: Seq<Seq<char>>, sep: Seq<char>) -> Seq<char>
    decreases parts.len(),
{
    if parts.len() == 0 {
        Seq::empty()
    } else if parts.len() == 1 {
        parts[0]
    } else {
        parts[0] + sep + spec_join(parts.skip(1), sep)
    }
}

proof fn lemma_join_push(parts: Seq<Seq<char>>, sep: Seq<char>, x: Seq<char>)
    requires
        parts.len() >= 1,
    ensures
        spec_join(parts.push(x), sep) == spec_join(parts, sep) + sep + x,
    decreases parts.len(),
{
    if parts.len() == 1 {
        let p = parts.push(x);
        assert(p.skip(1) =~= seq![x]);
        assert(spec_join(p.skip(1), sep) == x);
        assert(spec_join(p, sep) == parts[0] + sep + x);
    } else {
        lemma_join_push(parts.skip(1), sep, x);
        assert(parts.push(x).skip(1) =~= parts.skip(1).push(x));
        assert(spec_join(parts, sep) + sep + x =~= parts[0] + sep + (spec_join(
            parts.skip(1),
            sep,
        ) + sep + x));
    }
}

/// Joins the strings of `parts` with the separator `sep`.
pub fn join(parts: &Vec<String>, sep: &str) -> (r: String)
    ensures
        r@ == spec_join(views_of(parts@), sep@),
{
    let mut acc = String::new();
    let mut i: usize = 0;
    while i < parts.len()
        invariant
            i <= parts@.len(),
            acc@ == spec_join(views_of(parts@).take(i as int), sep@),
        decreases parts@.len() - i,
    {
        if i > 0 {
            acc.append(sep);
        }
        acc.append(parts[i].as_str());
        proof {
            let vs = views_of(parts@);
            assert(vs.take(i as int).push(vs[i as int]) =~= vs.take(i + 1));
            if i > 0 {
                lemma_join_push(vs.take(i as int), sep@, vs[i as int]);
            } else {
                assert(spec_join(vs.take(1), sep@) == vs.take(1)[0]);
            }
        }
        i += 1;
    }
    proof {
        assert(views_of(parts@).take(parts@.len() as int) =~= views_of(parts@));
    }
    acc
}

} // verus!
