//! Character-level helpers shared by the parsing and rendering modules.
//!
//! All logic here works on `Vec<char>` / `Seq<char>` so that every step is
//! visible to the verifier; conversion to and from `String` happens at the
//! edges.

use vstd::prelude::*;

verus! {

/// Relies on std's `String::push`: appends exactly one character.
#[verifier::external_body]
pub fn push_char(s: &mut String, c: char)
    ensures
        final(s)@ == old(s)@.push(c),
{
    s.push(c)
}

/// Copies the characters of a string slice into a vector.
pub fn str_to_chars(s: &str) -> (r: Vec<char>)
    ensures
        r@ == s@,
{
    let n = s.unicode_len();
    let mut r: Vec<char> = Vec::new();
    let mut i: usize = 0;
    while i < n
        invariant
            n == s@.len(),
            i <= n,
            r@ == s@.subrange(0, i as int),
        decreases n - i,
    {
        r.push(s.get_char(i));
        proof {
            assert(r@ =~= s@.subrange(0, i + 1));
        }
        i = i + 1;
    }
    proof {
        assert(r@ =~= s@);
    }
    r
}

/// Builds a `String` out of a character vector.
pub fn chars_to_string(v: &Vec<char>) -> (r: String)
    ensures
        r@ == v@,
{
    let mut r = String::new();
    let mut i: usize = 0;
    while i < v.len()
        invariant
            i <= v@.len(),
            r@ == v@.subrange(0, i as int),
        decreases v@.len() - i,
    {
        push_char(&mut r, v[i]);
        proof {
            assert(r@ =~= v@.subrange(0, i + 1));
        }
        i = i + 1;
    }
    proof {
        assert(r@ =~= v@);
    }
    r
}

/// The position of the first occurrence of `c` in `s` at or after `from`,
/// or `s.len()` when there is none.
pub open spec fn spec_find(s: Seq<char>, from: int, c: char) -> int
    decreases s.len() - from,
{
    if from < 0 || from >= s.len() {
        s.len() as int
    } else if s[from] == c {
        from
    } else {
        spec_find(s, from + 1, c)
    }
}

pub proof fn lemma_spec_find_bounds(s: Seq<char>, from: int, c: char)
    requires
        0 <= from <= s.len(),
    ensures
        from <= spec_find(s, from, c) <= s.len(),
        spec_find(s, from, c) < s.len() ==> s[spec_find(s, from, c)] == c,
        forall|k: int| from <= k < spec_find(s, from, c) ==> s[k] != c,
    decreases s.len() - from,
{
    if from < s.len() && s[from] != c {
        lemma_spec_find_bounds(s, from + 1, c);
    }
}

/// Finds the first occurrence of `c` at or after `from`, or the length.
pub fn find_from(v: &Vec<char>, from: usize, c: char) -> (r: usize)
    requires
        from <= v@.len(),
    ensures
        r == spec_find(v@, from as int, c),
        from <= r <= v@.len(),
        r < v@.len() ==> v@[r as int] == c,
        forall|k: int| from <= k < r ==> v@[k] != c,
{
    let mut i = from;
    while i < v.len()
        invariant
            from <= i <= v@.len(),
            spec_find(v@, from as int, c) == spec_find(v@, i as int, c),
            forall|k: int| from <= k < i ==> v@[k] != c,
        decreases v@.len() - i,
    {
        if v[i] == c {
            proof {
                lemma_spec_find_bounds(v@, i as int, c);
            }
            return i;
        }
        i = i + 1;
    }
    proof {
        lemma_spec_find_bounds(v@, from as int, c);
    }
    i
}

/// The characters the header parser treats as blank space: the Unicode
/// `White_Space` set, matching what std's `char::is_whitespace` accepts.
pub open spec fn spec_is_ws(c: char) -> bool {
    c == ' ' || c == '\t' || c == '\n' || c == '\u{b}' || c == '\u{c}' || c == '\r'
        || c == '\u{85}' || c == '\u{a0}' || c == '\u{1680}'
        || ('\u{2000}' <= c && c <= '\u{200a}')
        || c == '\u{2028}' || c == '\u{2029}' || c == '\u{202f}' || c == '\u{205f}'
        || c == '\u{3000}'
}

/// Whether `c` is in the Unicode `White_Space` set.
pub fn is_ws(c: char) -> (r: bool)
    ensures
        r == spec_is_ws(c),
{
    c == ' ' || c == '\t' || c == '\n' || c == '\u{b}' || c == '\u{c}' || c == '\r'
        || c == '\u{85}' || c == '\u{a0}' || c == '\u{1680}'
        || ('\u{2000}' <= c && c <= '\u{200a}')
        || c == '\u{2028}' || c == '\u{2029}' || c == '\u{202f}' || c == '\u{205f}'
        || c == '\u{3000}'
}

/// `s` trimmed of leading and trailing white space.
pub open spec fn spec_trim(s: Seq<char>) -> Seq<char> {
    spec_trim_end(spec_trim_start(s))
}

pub open spec fn spec_trim_start(s: Seq<char>) -> Seq<char>
    decreases s.len(),
{
    if s.len() > 0 && spec_is_ws(s[0]) {
        spec_trim_start(s.skip(1))
    } else {
        s
    }
}

pub open spec fn spec_trim_end(s: Seq<char>) -> Seq<char>
    decreases s.len(),
{
    if s.len() > 0 && spec_is_ws(s[s.len() - 1]) {
        spec_trim_end(s.take(s.len() - 1))
    } else {
        s
    }
}

proof fn lemma_trim_start_skip(s: Seq<char>, i: int)
    requires
        0 <= i <= s.len(),
        forall|k: int| 0 <= k < i ==> spec_is_ws(s[k]),
    ensures
        spec_trim_start(s) == spec_trim_start(s.skip(i)),
    decreases i,
{
    if i > 0 {
        assert(spec_is_ws(s[0]));
        assert(s.len() > 0);
        assert(spec_trim_start(s) == spec_trim_start(s.skip(1)));
        assert(s.skip(1).skip(i - 1) =~= s.skip(i));
        lemma_trim_start_skip(s.skip(1), i - 1);
    } else {
        assert(s.skip(0) =~= s);
    }
}

proof fn lemma_trim_end_take(s: Seq<char>, j: int)
    requires
        0 <= j <= s.len(),
        forall|k: int| j <= k < s.len() ==> spec_is_ws(s[k]),
    ensures
        spec_trim_end(s) == spec_trim_end(s.take(j)),
    decreases s.len() - j,
{
    if j < s.len() {
        assert(spec_is_ws(s[s.len() - 1]));
        assert(spec_trim_end(s) == spec_trim_end(s.take(s.len() - 1)));
        assert(s.take(s.len() - 1).take(j) =~= s.take(j));
        lemma_trim_end_take(s.take(s.len() - 1), j);
    } else {
        assert(s.take(s.len() as int) =~= s);
    }
}

/// Trims white space from both ends, as std's `str::trim` does.
pub fn trim_chars(v: &Vec<char>, start: usize, end: usize) -> (r: Vec<char>)
    requires
        start <= end <= v@.len(),
    ensures
        r@ == spec_trim(v@.subrange(start as int, end as int)),
{
    let ghost s = v@.subrange(start as int, end as int);
    let mut lo = start;
    while lo < end && is_ws(v[lo])
        invariant
            start <= lo <= end <= v@.len(),
            forall|k: int| start <= k < lo ==> spec_is_ws(v@[k]),
        decreases end - lo,
    {
        lo = lo + 1;
    }
    let mut hi = end;
    while hi > lo && is_ws(v[hi - 1])
        invariant
            start <= lo <= hi <= end <= v@.len(),
            forall|k: int| start <= k < lo ==> spec_is_ws(v@[k]),
            forall|k: int| hi <= k < end ==> spec_is_ws(v@[k]),
        decreases hi - lo,
    {
        hi = hi - 1;
    }
    let mut r: Vec<char> = Vec::new();
    let mut i = lo;
    while i < hi
        invariant
            lo <= i <= hi <= v@.len(),
            r@ == v@.subrange(lo as int, i as int),
        decreases hi - i,
    {
        r.push(v[i]);
        proof {
            assert(r@ =~= v@.subrange(lo as int, i + 1));
        }
        i = i + 1;
    }
    proof {
        lemma_trim_start_skip(s, lo - start);
        assert(s.skip(lo - start) =~= v@.subrange(lo as int, end as int));
        let t = v@.subrange(lo as int, end as int);
        if hi == lo {
            // everything from lo to end is white space
            lemma_trim_end_take(t, 0);
            assert(t.take(0) =~= Seq::<char>::empty());
            assert(spec_trim_end(Seq::<char>::empty()) =~= Seq::<char>::empty());
            assert(r@ =~= Seq::<char>::empty());
        } else {
            // v[hi - 1] is not white space, so trimming from the end stops at hi
            lemma_trim_end_take(t, hi - lo);
            assert(t.take(hi - lo) =~= v@.subrange(lo as int, hi as int));
            assert(spec_trim_end(v@.subrange(lo as int, hi as int))
                =~= v@.subrange(lo as int, hi as int));
            assert(r@ =~= v@.subrange(lo as int, hi as int));
        }
    }
    r
}

/// `s` trimmed of all leading and trailing `q` characters, as std's
/// `str::trim_matches` does for a single-character pattern.
pub open spec fn spec_trim_matches(s: Seq<char>, q: char) -> Seq<char>
    decreases s.len(),
{
    if s.len() > 0 && s[0] == q {
        spec_trim_matches(s.skip(1), q)
    } else if s.len() > 0 && s[s.len() - 1] == q {
        spec_trim_matches(s.take(s.len() - 1), q)
    } else {
        s
    }
}

proof fn lemma_trim_matches_inner(s: Seq<char>, q: char, lo: int, hi: int)
    requires
        0 <= lo <= hi <= s.len(),
        forall|k: int| 0 <= k < lo ==> s[k] == q,
        forall|k: int| hi <= k < s.len() ==> s[k] == q,
        lo < hi ==> s[lo] != q,
        lo < hi ==> s[hi - 1] != q,
    ensures
        spec_trim_matches(s, q) == s.subrange(lo, hi),
    decreases s.len(),
{
    if s.len() > 0 && s[0] == q {
        assert(lo > 0 || lo == hi);
        if lo == hi {
            // the whole string is quotes
            assert(spec_trim_matches(s, q) == spec_trim_matches(s.skip(1), q));
            lemma_trim_matches_inner(s.skip(1), q, 0, 0);
            assert(s.skip(1).subrange(0, 0) =~= s.subrange(lo, hi));
        } else {
            lemma_trim_matches_inner(s.skip(1), q, lo - 1, hi - 1);
            assert(s.skip(1).subrange(lo - 1, hi - 1) =~= s.subrange(lo, hi));
        }
    } else if s.len() > 0 && s[s.len() - 1] == q {
        assert(hi < s.len());
        lemma_trim_matches_inner(s.take(s.len() - 1), q, lo, hi);
        assert(s.take(s.len() - 1).subrange(lo, hi) =~= s.subrange(lo, hi));
    } else {
        assert(lo == 0 && hi == s.len());
        assert(s.subrange(0, s.len() as int) =~= s);
    }
}

/// Strips every leading and trailing occurrence of `q`.
pub fn trim_matches_char(v: &Vec<char>, q: char) -> (r: Vec<char>)
    ensures
        r@ == spec_trim_matches(v@, q),
{
    let mut lo: usize = 0;
    while lo < v.len() && v[lo] == q
        invariant
            lo <= v@.len(),
            forall|k: int| 0 <= k < lo ==> v@[k] == q,
        decreases v@.len() - lo,
    {
        lo = lo + 1;
    }
    let mut hi: usize = v.len();
    while hi > lo && v[hi - 1] == q
        invariant
            lo <= hi <= v@.len(),
            forall|k: int| 0 <= k < lo ==> v@[k] == q,
            forall|k: int| hi <= k < v@.len() ==> v@[k] == q,
        decreases hi - lo,
    {
        hi = hi - 1;
    }
    let mut r: Vec<char> = Vec::new();
    let mut i = lo;
    while i < hi
        invariant
            lo <= i <= hi <= v@.len(),
            r@ == v@.subrange(lo as int, i as int),
        decreases hi - i,
    {
        r.push(v[i]);
        proof {
            assert(r@ =~= v@.subrange(lo as int, i + 1));
        }
        i = i + 1;
    }
    proof {
        lemma_trim_matches_inner(v@, q, lo as int, hi as int);
    }
    r
}

/// Whether `c` is an ASCII decimal digit.
pub open spec fn spec_is_digit(c: char) -> bool {
    '0' <= c && c <= '9'
}

/// The numeric value of an ASCII digit.
pub open spec fn spec_digit_val(c: char) -> int {
    c as int - '0' as int
}

/// Whether every character of `s` is an ASCII digit.
pub open spec fn spec_all_digits(s: Seq<char>) -> bool {
    forall|i: int| 0 <= i < s.len() ==> spec_is_digit(s[i])
}

/// The value of a digit string read most-significant first.
pub open spec fn spec_digits_value(s: Seq<char>) -> int
    decreases s.len(),
{
    if s.len() == 0 {
        0
    } else {
        spec_digits_value(s.take(s.len() - 1)) * 10 + spec_digit_val(s[s.len() - 1])
    }
}

proof fn lemma_digits_value_nonneg(s: Seq<char>)
    requires
        spec_all_digits(s),
    ensures
        spec_digits_value(s) >= 0,
    decreases s.len(),
{
    if s.len() > 0 {
        assert(spec_all_digits(s.take(s.len() - 1)));
        lemma_digits_value_nonneg(s.take(s.len() - 1));
    }
}

/// What std's integer `FromStr` accepts: an optional sign followed by one
/// or more ASCII digits; the value is unbounded here, the range check is
/// the caller's.
pub open spec fn spec_parse_int(s: Seq<char>) -> Option<int> {
    if s.len() > 0 && (s[0] == '+' || s[0] == '-') {
        let body = s.skip(1);
        if body.len() > 0 && spec_all_digits(body) {
            if s[0] == '-' {
                Some(-spec_digits_value(body))
            } else {
                Some(spec_digits_value(body))
            }
        } else {
            None
        }
    } else {
        if s.len() > 0 && spec_all_digits(s) {
            Some(spec_digits_value(s))
        } else {
            None
        }
    }
}

/// Parses the digit run `v[start..end]`, reporting values above 65535 as
/// out of range.
fn parse_digits_capped(v: &Vec<char>, start: usize, end: usize) -> (r: Option<u32>)
    requires
        start <= end <= v@.len(),
    ensures
        ({
            let s = v@.subrange(start as int, end as int);
            match r {
                Some(x) => s.len() > 0 && spec_all_digits(s) && x == spec_digits_value(s)
                    && x <= 65535,
                None => s.len() == 0 || !spec_all_digits(s) || spec_digits_value(s) > 65535,
            }
        }),
{
    let ghost s = v@.subrange(start as int, end as int);
    if start == end {
        return None;
    }
    let mut acc: u32 = 0;
    let mut i = start;
    while i < end
        invariant
            start <= i <= end <= v@.len(),
            s == v@.subrange(start as int, end as int),
            spec_all_digits(s.take(i - start)),
            acc <= 65535 ==> acc == spec_digits_value(s.take(i - start)),
            acc > 65535 ==> acc == 65536 && spec_digits_value(s.take(i - start)) > 65535,
        decreases end - i,
    {
        let c = v[i];
        if !(c >= '0' && c <= '9') {
            proof {
                assert(s[i - start] == v@[i as int]);
                assert(!spec_is_digit(s[i - start]));
            }
            return None;
        }
        let d: u32 = (c as u32) - ('0' as u32);
        proof {
            assert(s.take(i + 1 - start).take(i - start) =~= s.take(i - start));
            assert(s.take(i + 1 - start)[i - start] == v@[i as int]);
            assert(spec_digits_value(s.take(i + 1 - start)) == spec_digits_value(s.take(i
                - start)) * 10 + spec_digit_val(v@[i as int]));
            if acc > 65535 {
                lemma_digits_value_nonneg(s.take(i - start));
            }
        }
        if acc > 65535 || acc * 10 + d > 65535 {
            acc = 65536;
        } else {
            acc = acc * 10 + d;
        }
        i = i + 1;
    }
    proof {
        assert(s.take(end - start) =~= s);
    }
    if acc > 65535 {
        None
    } else {
        Some(acc)
    }
}

/// Parses `v[start..end]` as a signed integer confined to `[lo, hi]`,
/// following std's `FromStr` grammar for integers; `None` covers both a
/// malformed string and an out-of-range value.
pub fn parse_int_in_range(v: &Vec<char>, start: usize, end: usize, lo: i32, hi: i32) -> (r: Option<
    i32,
>)
    requires
        start <= end <= v@.len(),
        -65535 <= lo <= 0 <= hi <= 65535,
    ensures
        ({
            let s = v@.subrange(start as int, end as int);
            match r {
                Some(x) => spec_parse_int(s) == Some(x as int) && lo <= x <= hi,
                None => spec_parse_int(s) is None || !(lo <= spec_parse_int(s)->Some_0 <= hi),
            }
        }),
{
    let ghost s = v@.subrange(start as int, end as int);
    if start == end {
        return None;
    }
    let first = v[start];
    if first == '+' || first == '-' {
        proof {
            assert(s[0] == v@[start as int]);
            assert(s.skip(1) =~= v@.subrange(start + 1, end as int));
        }
        match parse_digits_capped(v, start + 1, end) {
            Some(x) => {
                if first == '-' {
                    if 0 - (x as i32) >= lo {
                        Some(0 - (x as i32))
                    } else {
                        None
                    }
                } else {
                    if (x as i32) <= hi {
                        Some(x as i32)
                    } else {
                        None
                    }
                }
            },
            None => {
                proof {
                    if !(s.skip(1).len() == 0 || !spec_all_digits(s.skip(1))) {
                        lemma_digits_value_nonneg(s.skip(1));
                    }
                }
                None
            },
        }
    } else {
        proof {
            assert(s[0] == v@[start as int]);
        }
        match parse_digits_capped(v, start, end) {
            Some(x) => {
                if (x as i32) <= hi {
                    Some(x as i32)
                } else {
                    None
                }
            },
            None => None,
        }
    }
}

/// Copies `v[from..to]` into a fresh vector.
pub fn sub_chars(v: &Vec<char>, from: usize, to: usize) -> (r: Vec<char>)
    requires
        from <= to <= v@.len(),
    ensures
        r@ == v@.subrange(from as int, to as int),
{
    let mut r: Vec<char> = Vec::new();
    let mut i = from;
    while i < to
        invariant
            from <= i <= to <= v@.len(),
            r@ == v@.subrange(from as int, i as int),
        decreases to - i,
    {
        r.push(v[i]);
        proof {
            assert(r@ =~= v@.subrange(from as int, i + 1));
        }
        i = i + 1;
    }
    r
}

/// The ASCII character for the decimal digit `d`.
pub open spec fn spec_dec_char(d: int) -> char {
    if d == 0 {
        '0'
    } else if d == 1 {
        '1'
    } else if d == 2 {
        '2'
    } else if d == 3 {
        '3'
    } else if d == 4 {
        '4'
    } else if d == 5 {
        '5'
    } else if d == 6 {
        '6'
    } else if d == 7 {
        '7'
    } else if d == 8 {
        '8'
    } else {
        '9'
    }
}

fn dec_char(d: u32) -> (c: char)
    requires
        d < 10,
    ensures
        c == spec_dec_char(d as int),
{
    if d == 0 {
        '0'
    } else if d == 1 {
        '1'
    } else if d == 2 {
        '2'
    } else if d == 3 {
        '3'
    } else if d == 4 {
        '4'
    } else if d == 5 {
        '5'
    } else if d == 6 {
        '6'
    } else if d == 7 {
        '7'
    } else if d == 8 {
        '8'
    } else {
        '9'
    }
}

/// `n` written as exactly two decimal digits, zero padded.
pub open spec fn spec_pad2(n: int) -> Seq<char> {
    seq![spec_dec_char(n / 10 % 10), spec_dec_char(n % 10)]
}

/// `n` written as exactly four decimal digits, zero padded.
pub open spec fn spec_pad4(n: int) -> Seq<char> {
    seq![
        spec_dec_char(n / 1000 % 10),
        spec_dec_char(n / 100 % 10),
        spec_dec_char(n / 10 % 10),
        spec_dec_char(n % 10),
    ]
}

/// Appends `n` as two zero-padded decimal digits.
pub fn push_pad2(s: &mut String, n: u32)
    requires
        n < 100,
    ensures
        final(s)@ == old(s)@ + spec_pad2(n as int),
{
    push_char(s, dec_char(n / 10 % 10));
    push_char(s, dec_char(n % 10));
    proof {
        assert(final(s)@ =~= old(s)@ + spec_pad2(n as int));
    }
}

/// Appends `n` as four zero-padded decimal digits.
pub fn push_pad4(s: &mut String, n: u32)
    requires
        n < 10000,
    ensures
        final(s)@ == old(s)@ + spec_pad4(n as int),
{
    push_char(s, dec_char(n / 1000 % 10));
    push_char(s, dec_char(n / 100 % 10));
    push_char(s, dec_char(n / 10 % 10));
    push_char(s, dec_char(n % 10));
    proof {
        assert(final(s)@ =~= old(s)@ + spec_pad4(n as int));
    }
}

/// The ASCII character for the hexadecimal digit `d`, lower case.
pub open spec fn spec_hex_char(d: int) -> char {
    if d < 10 {
        spec_dec_char(d)
    } else if d == 10 {
        'a'
    } else if d == 11 {
        'b'
    } else if d == 12 {
        'c'
    } else if d == 13 {
        'd'
    } else if d == 14 {
        'e'
    } else {
        'f'
    }
}

fn hex_char(d: u128) -> (c: char)
    requires
        d < 16,
    ensures
        c == spec_hex_char(d as int),
{
    if d < 10 {
        dec_char(d as u32)
    } else if d == 10 {
        'a'
    } else if d == 11 {
        'b'
    } else if d == 12 {
        'c'
    } else if d == 13 {
        'd'
    } else if d == 14 {
        'e'
    } else {
        'f'
    }
}

/// The last `count` hexadecimal digits of `u`, most significant first.
pub open spec fn spec_hex_digits(u: u128, count: nat) -> Seq<char>
    decreases count,
{
    if count == 0 {
        Seq::empty()
    } else {
        spec_hex_digits(u / 16, (count - 1) as nat).push(spec_hex_char((u % 16) as int))
    }
}

/// All 32 hexadecimal digits of `u`, most significant first.
pub fn hex_digits32(u: u128) -> (r: Vec<char>)
    ensures
        r@ == spec_hex_digits(u, 32),
        r@.len() == 32,
{
    let mut digits: Vec<char> = Vec::new();
    let mut tmp = u;
    let mut i: usize = 0;
    while i < 32
        invariant
            i <= 32,
            digits@.len() == i,
            spec_hex_digits(u, 32) == spec_hex_digits(tmp, (32 - i) as nat) + digits@,
        decreases 32 - i,
    {
        let ghost prev = digits@;
        let d = tmp % 16;
        digits.insert(0, hex_char(d));
        proof {
            let k = (32 - i) as nat;
            assert(spec_hex_digits(tmp, k) == spec_hex_digits(tmp / 16, (k - 1) as nat).push(
                spec_hex_char((tmp % 16) as int)));
            assert(spec_hex_digits(tmp / 16, (k - 1) as nat).push(spec_hex_char((tmp % 16) as int))
                + prev =~= spec_hex_digits(tmp / 16, (k - 1) as nat) + (seq![
                spec_hex_char((tmp % 16) as int)] + prev));
        }
        tmp = tmp / 16;
        i = i + 1;
    }
    proof {
        assert(spec_hex_digits(tmp, 0) + digits@ =~= digits@);
    }
    digits
}

/// `u` in the standard hyphenated form: five groups of 8, 4, 4, 4 and 12
/// lower-case hexadecimal digits.
pub open spec fn spec_uuid_hyphenated(u: u128) -> Seq<char> {
    let h = spec_hex_digits(u, 32);
    h.subrange(0, 8) + seq!['-'] + h.subrange(8, 12) + seq!['-'] + h.subrange(12, 16) + seq!['-']
        + h.subrange(16, 20) + seq!['-'] + h.subrange(20, 32)
}

fn push_chars_range(s: &mut String, v: &Vec<char>, from: usize, to: usize)
    requires
        from <= to <= v@.len(),
    ensures
        final(s)@ == old(s)@ + v@.subrange(from as int, to as int),
{
    let mut i = from;
    while i < to
        invariant
            from <= i <= to <= v@.len(),
            s@ == old(s)@ + v@.subrange(from as int, i as int),
        decreases to - i,
    {
        push_char(s, v[i]);
        proof {
            assert(old(s)@ + v@.subrange(from as int, i as int) + seq![v@[i as int]] =~= old(s)@
                + v@.subrange(from as int, i + 1));
        }
        i = i + 1;
    }
}

/// Formats `u` in the hyphenated form used for textual identifiers.
pub fn uuid_hyphenated(u: u128) -> (r: String)
    ensures
        r@ == spec_uuid_hyphenated(u),
{
    let digits = hex_digits32(u);
    let mut s = String::new();
    push_chars_range(&mut s, &digits, 0, 8);
    push_char(&mut s, '-');
    push_chars_range(&mut s, &digits, 8, 12);
    push_char(&mut s, '-');
    push_chars_range(&mut s, &digits, 12, 16);
    push_char(&mut s, '-');
    push_chars_range(&mut s, &digits, 16, 20);
    push_char(&mut s, '-');
    push_chars_range(&mut s, &digits, 20, 32);
    proof {
        assert(s@ =~= spec_uuid_hyphenated(u));
    }
    s
}

/// Lexicographic order on character sequences by code point, matching how
/// paths sort byte-wise when encoded in UTF-8.
pub open spec fn spec_str_le(a: Seq<char>, b: Seq<char>) -> bool
    decreases a.len(),
{
    if a.len() == 0 {
        true
    } else if b.len() == 0 {
        false
    } else if (a[0] as u32) < (b[0] as u32) {
        true
    } else if (a[0] as u32) > (b[0] as u32) {
        false
    } else {
        spec_str_le(a.skip(1), b.skip(1))
    }
}

/// Decides `spec_str_le` on two character vectors.
pub fn chars_le(a: &Vec<char>, b: &Vec<char>) -> (r: bool)
    ensures
        r == spec_str_le(a@, b@),
{
    let mut i: usize = 0;
    proof {
        assert(a@.skip(0) =~= a@);
        assert(b@.skip(0) =~= b@);
    }
    loop
        invariant
            i <= a@.len(),
            i <= b@.len(),
            spec_str_le(a@, b@) == spec_str_le(a@.skip(i as int), b@.skip(i as int)),
        decreases a@.len() - i,
    {
        proof {
            if i < a@.len() && i < b@.len() {
                assert(a@.skip(i as int).skip(1) =~= a@.skip(i + 1));
                assert(b@.skip(i as int).skip(1) =~= b@.skip(i + 1));
            }
        }
        if i >= a.len() {
            return true;
        }
        if i >= b.len() {
            return false;
        }
        let ca = a[i] as u32;
        let cb = b[i] as u32;
        if ca < cb {
            return true;
        }
        if ca > cb {
            return false;
        }
        i = i + 1;
    }
}

/// True when `s` ends with the character `c`.
pub open spec fn spec_ends_with_char(s: Seq<char>, c: char) -> bool {
    s.len() > 0 && s[s.len() - 1] == c
}

/// Whether the string ends with the given character.
pub fn ends_with_char(s: &str, c: char) -> (r: bool)
    ensures
        r == spec_ends_with_char(s@, c),
{
    let n = s.unicode_len();
    if n == 0 {
        false
    } else {
        s.get_char(n - 1) == c
    }
}

/// Whether two character vectors hold the same text.
pub fn chars_eq(a: &Vec<char>, b: &Vec<char>) -> (r: bool)
    ensures
        r == (a@ == b@),
{
    if a.len() != b.len() {
        return false;
    }
    let mut i: usize = 0;
    while i < a.len()
        invariant
            i <= a@.len(),
            a@.len() == b@.len(),
            forall|k: int| 0 <= k < i ==> a@[k] == b@[k],
        decreases a@.len() - i,
    {
        if a[i] != b[i] {
            return false;
        }
        i = i + 1;
    }
    proof {
        assert(a@ =~= b@);
    }
    true
}

/// The position of the last occurrence of `c` in `s`, or `-1`.
pub open spec fn spec_rfind(s: Seq<char>, c: char) -> int
    decreases s.len(),
{
    if s.len() == 0 {
        -1
    } else if s[s.len() - 1] == c {
        s.len() - 1
    } else {
        spec_rfind(s.take(s.len() - 1), c)
    }
}

/// Finds the last occurrence of `c`, if any.
pub fn rfind_char(v: &Vec<char>, c: char) -> (r: Option<usize>)
    ensures
        match r {
            Some(d) => spec_rfind(v@, c) == d as int && d < v@.len(),
            None => spec_rfind(v@, c) == -1,
        },
{
    let mut d: usize = v.len();
    proof {
        assert(v@.take(v@.len() as int) =~= v@);
    }
    while d > 0
        invariant
            d <= v@.len(),
            spec_rfind(v@, c) == spec_rfind(v@.take(d as int), c),
        decreases d,
    {
        proof {
            assert(v@.take(d as int).take(d - 1) =~= v@.take(d - 1));
        }
        if v[d - 1] == c {
            proof {
                assert(v@.take(d as int)[d - 1] == c);
            }
            return Some(d - 1);
        }
        d = d - 1;
    }
    proof {
        assert(v@.take(0) =~= Seq::<char>::empty());
    }
    None
}

/// A line with one trailing carriage return removed, as std's
/// `str::lines` does per line.
pub open spec fn spec_strip_cr(l: Seq<char>) -> Seq<char> {
    if l.len() > 0 && l[l.len() - 1] == '\r' {
        l.take(l.len() - 1)
    } else {
        l
    }
}

/// What std's `str::lines` yields: segments split on `'\n'`, each with one
/// trailing `'\r'` removed, and no final empty segment.
pub open spec fn spec_lines(s: Seq<char>) -> Seq<Seq<char>>
    decreases s.len(),
    via spec_lines_dec
{
    if s.len() == 0 {
        Seq::empty()
    } else {
        let i = spec_find(s, 0, '\n');
        if i == s.len() {
            seq![spec_strip_cr(s)]
        } else {
            seq![spec_strip_cr(s.take(i))] + spec_lines(s.skip(i + 1))
        }
    }
}

#[via_fn]
proof fn spec_lines_dec(s: Seq<char>) {
    lemma_spec_find_bounds(s, 0, '\n');
}

/// Splits `v` into lines as std's `str::lines` does.
pub fn split_lines(v: &Vec<char>) -> (r: Vec<Vec<char>>)
    ensures
        r@.len() == spec_lines(v@).len(),
        forall|i: int| 0 <= i < r@.len() ==> r@[i]@ == spec_lines(v@)[i],
{
    let mut r: Vec<Vec<char>> = Vec::new();
    let mut pos: usize = 0;
    proof {
        assert(v@.skip(0) =~= v@);
        assert(r@.map_values(|x: Vec<char>| x@) + spec_lines(v@) =~= spec_lines(v@));
    }
    while pos < v.len()
        invariant
            pos <= v@.len(),
            spec_lines(v@) == r@.map_values(|x: Vec<char>| x@) + spec_lines(v@.skip(pos as int)),
        decreases v@.len() - pos,
    {
        let ghost rest = v@.skip(pos as int);
        let nl = find_from(v, pos, '\n');
        proof {
            lemma_find_shift(v@, pos as int, '\n');
        }
        // the line runs from pos to nl; strip one trailing '\r'
        let line_end = if nl > pos && v[nl - 1] == '\r' {
            nl - 1
        } else {
            nl
        };
        let mut line: Vec<char> = Vec::new();
        let mut i = pos;
        while i < line_end
            invariant
                pos <= i <= line_end <= v@.len(),
                line@ == v@.subrange(pos as int, i as int),
            decreases line_end - i,
        {
            line.push(v[i]);
            proof {
                assert(line@ =~= v@.subrange(pos as int, i + 1));
            }
            i = i + 1;
        }
        proof {
            let fi = spec_find(rest, 0, '\n');
            assert(fi == nl - pos);
            if nl == v@.len() {
                assert(rest.len() > 0);
                assert(spec_lines(rest) =~= seq![spec_strip_cr(rest)]);
                assert(rest =~= v@.subrange(pos as int, v@.len() as int));
                assert(spec_strip_cr(rest) =~= v@.subrange(pos as int, line_end as int));
            } else {
                assert(spec_lines(rest) =~= seq![spec_strip_cr(rest.take(fi))] + spec_lines(
                    rest.skip(fi + 1)));
                assert(rest.take(fi) =~= v@.subrange(pos as int, nl as int));
                assert(spec_strip_cr(rest.take(fi)) =~= v@.subrange(pos as int, line_end as int));
                assert(rest.skip(fi + 1) =~= v@.skip(nl + 1));
            }
            assert(line@ == v@.subrange(pos as int, line_end as int));
        }
        let ghost prev = r@.map_values(|x: Vec<char>| x@);
        r.push(line);
        proof {
            assert(r@.map_values(|x: Vec<char>| x@) =~= prev + seq![line@]);
            if nl == v@.len() {
                assert(spec_lines(v@.skip(v@.len() as int)) =~= Seq::<Seq<char>>::empty());
                assert(r@.map_values(|x: Vec<char>| x@) + spec_lines(v@.skip(v@.len() as int))
                    =~= prev + spec_lines(rest));
            } else {
                assert(r@.map_values(|x: Vec<char>| x@) + spec_lines(v@.skip(nl + 1)) =~= prev
                    + spec_lines(rest));
            }
        }
        if nl == v.len() {
            pos = nl;
        } else {
            pos = nl + 1;
        }
    }
    proof {
        assert(spec_lines(v@.skip(pos as int)) =~= Seq::<Seq<char>>::empty());
        assert(spec_lines(v@) =~= r@.map_values(|x: Vec<char>| x@));
        assert(forall|i: int|
            0 <= i < r@.len() ==> r@[i]@ == r@.map_values(|x: Vec<char>| x@)[i]);
    }
    r
}

proof fn lemma_find_offset(s: Seq<char>, base: int, from: int, c: char)
    requires
        0 <= base <= from <= s.len(),
    ensures
        spec_find(s, from, c) == base + spec_find(s.skip(base), from - base, c),
    decreases s.len() - from,
{
    if from >= s.len() {
        assert(s.skip(base).len() == s.len() - base);
    } else if s[from] == c {
        assert(s.skip(base)[from - base] == c);
    } else {
        assert(s.skip(base)[from - base] != c);
        lemma_find_offset(s, base, from + 1, c);
    }
}

/// Finding a character in a suffix mirrors finding it in the whole.
pub proof fn lemma_find_shift(s: Seq<char>, pos: int, c: char)
    requires
        0 <= pos <= s.len(),
    ensures
        spec_find(s.skip(pos), 0, c) == spec_find(s, pos, c) - pos,
{
    lemma_find_offset(s, pos, pos, c);
}

} // verus!
