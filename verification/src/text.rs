use vstd::prelude::*;
use vstd::string::StrSliceExecFns;
use vstd::string::StringExecFns;

verus! {

// ---------------------------------------------------------------------------
// Character classes
// ---------------------------------------------------------------------------

/// The characters stripped from both ends of an initial-state text: the
/// Unicode white-space set, written out by code point.
pub open spec fn is_whitespace_char(c: char) -> bool {
    c == '\u{9}' || c == '\u{a}' || c == '\u{b}' || c == '\u{c}' || c == '\u{d}' || c == ' '
        || c == '\u{85}' || c == '\u{a0}' || c == '\u{1680}'
        || ('\u{2000}' <= c && c <= '\u{200a}')
        || c == '\u{2028}' || c == '\u{2029}' || c == '\u{202f}' || c == '\u{205f}'
        || c == '\u{3000}'
}

/// Decides `is_whitespace_char`.
pub fn is_whitespace(c: char) -> (b: bool)
    ensures
        b == is_whitespace_char(c),
{
    c == '\u{9}' || c == '\u{a}' || c == '\u{b}' || c == '\u{c}' || c == '\u{d}' || c == ' '
        || c == '\u{85}' || c == '\u{a0}' || c == '\u{1680}'
        || ('\u{2000}' <= c && c <= '\u{200a}')
        || c == '\u{2028}' || c == '\u{2029}' || c == '\u{202f}' || c == '\u{205f}'
        || c == '\u{3000}'
}

/// A decimal digit.
pub open spec fn is_ascii_digit_char(c: char) -> bool {
    '0' <= c && c <= '9'
}

/// The numeric value of a decimal digit character.
pub open spec fn digit_val(c: char) -> int {
    c as int - 48
}

/// Reads the numeric value of a decimal digit character.
pub fn digit_value(c: char) -> (d: u8)
    requires
        is_ascii_digit_char(c),
    ensures
        d as int == digit_val(c),
        d < 10,
{
    if c == '0' {
        0
    } else if c == '1' {
        1
    } else if c == '2' {
        2
    } else if c == '3' {
        3
    } else if c == '4' {
        4
    } else if c == '5' {
        5
    } else if c == '6' {
        6
    } else if c == '7' {
        7
    } else if c == '8' {
        8
    } else {
        9
    }
}

// ---------------------------------------------------------------------------
// Trimming
// ---------------------------------------------------------------------------

/// The index of the first non-white-space character at or after `i`, or the
/// length of `s` when only white space remains.
pub open spec fn first_non_ws(s: Seq<char>, i: int) -> int
    decreases s.len() - i,
{
    if i < 0 || i >= s.len() {
        s.len() as int
    } else if is_whitespace_char(s[i]) {
        first_non_ws(s, i + 1)
    } else {
        i
    }
}

/// One past the index of the last non-white-space character of `s`, or 0 when
/// `s` is all white space.
pub open spec fn trim_end(s: Seq<char>) -> int
    decreases s.len(),
{
    if s.len() == 0 {
        0
    } else if is_whitespace_char(s.last()) {
        trim_end(s.drop_last())
    } else {
        s.len() as int
    }
}

/// `s` with leading and trailing white space removed.
pub open spec fn spec_trim(s: Seq<char>) -> Seq<char> {
    let a = first_non_ws(s, 0);
    let b = trim_end(s);
    if a < s.len() {
        s.subrange(a, b)
    } else {
        Seq::empty()
    }
}

/// `first_non_ws(s, i)` is the unique `j` with white space everywhere in
/// `[i, j)` and either `j` at the end or a non-white-space character at `j`.
pub proof fn lemma_first_non_ws_is(s: Seq<char>, i: int, j: int)
    requires
        0 <= i <= j <= s.len(),
        forall|k: int| i <= k < j ==> is_whitespace_char(s[k]),
        j < s.len() ==> !is_whitespace_char(s[j]),
    ensures
        first_non_ws(s, i) == j,
    decreases j - i,
{
    if i < j {
        lemma_first_non_ws_is(s, i + 1, j);
    }
}

/// `trim_end(s)` is the unique `j` with white space everywhere in
/// `[j, s.len())` and either `j == 0` or a non-white-space character at `j-1`.
pub proof fn lemma_trim_end_is(s: Seq<char>, j: int)
    requires
        0 <= j <= s.len(),
        forall|k: int| j <= k < s.len() ==> is_whitespace_char(s[k]),
        j > 0 ==> !is_whitespace_char(s[j - 1]),
    ensures
        trim_end(s) == j,
    decreases s.len(),
{
    if s.len() > 0 && is_whitespace_char(s.last()) {
        assert(j < s.len());
        lemma_trim_end_is(s.drop_last(), j);
    }
}

/// The two trim bounds never cross: where some non-white-space character
/// exists, it lies in `[first_non_ws(s, 0), trim_end(s))`.
pub proof fn lemma_trim_bounds(s: Seq<char>)
    ensures
        0 <= trim_end(s) <= s.len(),
        0 <= first_non_ws(s, 0) <= s.len(),
        first_non_ws(s, 0) < s.len() ==> first_non_ws(s, 0) < trim_end(s),
        first_non_ws(s, 0) < s.len() ==> !is_whitespace_char(s[first_non_ws(s, 0)]),
        forall|k: int| 0 <= k < first_non_ws(s, 0) ==> is_whitespace_char(s[k]),
        forall|k: int| trim_end(s) <= k < s.len() ==> is_whitespace_char(s[k]),
    decreases s.len(),
{
    lemma_first_non_ws_bounds(s, 0);
    lemma_trim_end_bounds(s);
    let a = first_non_ws(s, 0);
    let b = trim_end(s);
    if a < s.len() && b <= a {
        assert(is_whitespace_char(s[a]));
        assert(false);
    }
}

/// Bounds and coverage facts about `first_non_ws`.
pub proof fn lemma_first_non_ws_bounds(s: Seq<char>, i: int)
    requires
        0 <= i <= s.len(),
    ensures
        i <= first_non_ws(s, i) <= s.len(),
        first_non_ws(s, i) < s.len() ==> !is_whitespace_char(s[first_non_ws(s, i)]),
        forall|k: int| i <= k < first_non_ws(s, i) ==> is_whitespace_char(s[k]),
    decreases s.len() - i,
{
    if i < s.len() && is_whitespace_char(s[i]) {
        lemma_first_non_ws_bounds(s, i + 1);
    }
}

/// Bounds and coverage facts about `trim_end`.
pub proof fn lemma_trim_end_bounds(s: Seq<char>)
    ensures
        0 <= trim_end(s) <= s.len(),
        trim_end(s) > 0 ==> !is_whitespace_char(s[trim_end(s) - 1]),
        forall|k: int| trim_end(s) <= k < s.len() ==> is_whitespace_char(s[k]),
    decreases s.len(),
{
    if s.len() > 0 && is_whitespace_char(s.last()) {
        lemma_trim_end_bounds(s.drop_last());
        assert forall|k: int| trim_end(s) <= k < s.len() implies is_whitespace_char(s[k]) by {
            if k < s.len() - 1 {
                assert(s.drop_last()[k] == s[k]);
            }
        }
        if trim_end(s) > 0 {
            assert(s.drop_last()[trim_end(s) - 1] == s[trim_end(s) - 1]);
        }
    }
}

/// A text without white space at either end trims to itself.
pub proof fn lemma_trim_identity(s: Seq<char>)
    requires
        s.len() > 0,
        !is_whitespace_char(s[0]),
        !is_whitespace_char(s.last()),
    ensures
        spec_trim(s) == s,
{
    lemma_first_non_ws_is(s, 0, 0);
    lemma_trim_end_is(s, s.len() as int);
    assert(s.subrange(0, s.len() as int) =~= s);
}

// ---------------------------------------------------------------------------
// Locating the field separators
// ---------------------------------------------------------------------------

/// The index of the first `:` at or after `i`, or the length of `s` when no
/// colon remains.
pub open spec fn find_colon(s: Seq<char>, i: int) -> int
    decreases s.len() - i,
{
    if i < 0 || i >= s.len() {
        s.len() as int
    } else if s[i] == ':' {
        i
    } else {
        find_colon(s, i + 1)
    }
}

/// `find_colon(s, i)` is the unique `j` with no colon in `[i, j)` and either
/// `j` at the end or a colon at `j`.
pub proof fn lemma_find_colon_is(s: Seq<char>, i: int, j: int)
    requires
        0 <= i <= j <= s.len(),
        forall|k: int| i <= k < j ==> s[k] != ':',
        j < s.len() ==> s[j] == ':',
    ensures
        find_colon(s, i) == j,
    decreases j - i,
{
    if i < j {
        lemma_find_colon_is(s, i + 1, j);
    }
}

// ---------------------------------------------------------------------------
// Executable scanning over a character vector
// ---------------------------------------------------------------------------

/// Copies the characters of `s` into a vector, so that parsing can index them.
pub fn char_vec(s: &str) -> (v: Vec<char>)
    ensures
        v@ == s@,
{
    let n: usize = s.unicode_len();
    let mut v: Vec<char> = Vec::new();
    let mut i: usize = 0;
    while i < n
        invariant
            i <= n,
            n == s@.len(),
            v@ == s@.subrange(0, i as int),
        decreases n - i,
    {
        let c = s.get_char(i);
        v.push(c);
        proof {
            assert(v@ =~= s@.subrange(0, i + 1));
        }
        i += 1;
    }
    proof {
        assert(v@ =~= s@);
    }
    v
}

/// Returns the index of the first non-white-space character of `v`, or
/// `v.len()` when `v` is all white space.
pub fn scan_first_non_ws(v: &Vec<char>) -> (r: usize)
    ensures
        r as int == first_non_ws(v@, 0),
        r <= v.len(),
{
    let mut i: usize = 0;
    while i < v.len()
        invariant
            i <= v.len(),
            forall|k: int| 0 <= k < i ==> is_whitespace_char(v@[k]),
        decreases v.len() - i,
    {
        if !is_whitespace(v[i]) {
            proof {
                lemma_first_non_ws_is(v@, 0, i as int);
            }
            return i;
        }
        i += 1;
    }
    proof {
        lemma_first_non_ws_is(v@, 0, v@.len() as int);
    }
    i
}

/// Returns one past the index of the last non-white-space character of `v`,
/// or 0 when `v` is all white space.
pub fn scan_trim_end(v: &Vec<char>) -> (r: usize)
    ensures
        r as int == trim_end(v@),
        r <= v.len(),
{
    let mut b: usize = v.len();
    while b > 0
        invariant
            b <= v.len(),
            forall|k: int| b <= k < v@.len() ==> is_whitespace_char(v@[k]),
        decreases b,
    {
        if !is_whitespace(v[b - 1]) {
            proof {
                lemma_trim_end_is(v@, b as int);
            }
            return b;
        }
        b -= 1;
    }
    proof {
        lemma_trim_end_is(v@, 0);
    }
    0
}

/// Returns the index of the first `:` in `v[from..to]`, or `to` when that
/// window holds none.
pub fn scan_colon(v: &Vec<char>, from: usize, to: usize) -> (r: usize)
    requires
        from <= to <= v.len(),
    ensures
        from <= r <= to,
        forall|k: int| from <= k < r ==> v@[k] != ':',
        r < to ==> v@[r as int] == ':',
{
    let mut i: usize = from;
    while i < to
        invariant
            from <= i <= to <= v.len(),
            forall|k: int| from <= k < i ==> v@[k] != ':',
        decreases to - i,
    {
        if v[i] == ':' {
            return i;
        }
        i += 1;
    }
    i
}

// ---------------------------------------------------------------------------
// Signed decimal integers: reading
// ---------------------------------------------------------------------------

/// Every character of `s` is a decimal digit.
pub open spec fn all_digits(s: Seq<char>) -> bool {
    forall|i: int| 0 <= i < s.len() ==> is_ascii_digit_char(s[i])
}

/// The value of a pure digit string, most significant digit first.
pub open spec fn digits_val(s: Seq<char>) -> int
    decreases s.len(),
{
    if s.len() == 0 {
        0
    } else {
        digits_val(s.drop_last()) * 10 + digit_val(s.last())
    }
}

/// `s` without its optional leading sign.
pub open spec fn int_body(s: Seq<char>) -> Seq<char> {
    if s.len() > 0 && (s[0] == '+' || s[0] == '-') {
        s.skip(1)
    } else {
        s
    }
}

/// `s` is a well-formed signed decimal integer: an optional sign followed by
/// at least one digit and nothing else.
pub open spec fn is_int_text(s: Seq<char>) -> bool {
    int_body(s).len() > 0 && all_digits(int_body(s))
}

/// The value denoted by a well-formed signed decimal integer text.
pub open spec fn int_text_val(s: Seq<char>) -> int {
    if s.len() > 0 && s[0] == '-' {
        -digits_val(int_body(s))
    } else {
        digits_val(int_body(s))
    }
}

/// `v` is representable as an `i32`.
pub open spec fn fits_i32(v: int) -> bool {
    i32::MIN <= v <= i32::MAX
}

/// `s` is accepted as an x or y coordinate: well-formed and in range.
pub open spec fn parses_as_i32(s: Seq<char>) -> bool {
    is_int_text(s) && fits_i32(int_text_val(s))
}

/// A pure digit string has a non-negative value.
pub proof fn lemma_digits_val_nonneg(s: Seq<char>)
    requires
        all_digits(s),
    ensures
        digits_val(s) >= 0,
    decreases s.len(),
{
    if s.len() > 0 {
        assert(all_digits(s.drop_last()));
        lemma_digits_val_nonneg(s.drop_last());
    }
}

/// Reading more digits never decreases the value: the value of a prefix of a
/// pure digit string is at most the value of the whole.
pub proof fn lemma_digits_val_prefix_le(s: Seq<char>, k: int)
    requires
        all_digits(s),
        0 <= k <= s.len(),
    ensures
        digits_val(s.take(k)) <= digits_val(s),
    decreases s.len() - k,
{
    if k < s.len() {
        assert(s.take(k + 1).drop_last() =~= s.take(k));
        assert(s.take(k + 1).last() == s[k]);
        assert(all_digits(s.take(k)));
        lemma_digits_val_nonneg(s.take(k));
        lemma_digits_val_prefix_le(s, k + 1);
    } else {
        assert(s.take(k) =~= s);
    }
}

/// Reads `v[lo..hi]` as a signed decimal `i32`. Returns the value exactly
/// when the window is a well-formed signed integer in `i32` range, and
/// nothing otherwise.
pub fn parse_i32(v: &Vec<char>, lo: usize, hi: usize) -> (r: Option<i32>)
    requires
        lo <= hi <= v.len(),
    ensures
        ({
            let f = v@.subrange(lo as int, hi as int);
            match r {
                Some(x) => parses_as_i32(f) && x as int == int_text_val(f),
                None => !parses_as_i32(f),
            }
        }),
{
    let ghost f = v@.subrange(lo as int, hi as int);
    if lo == hi {
        return None;
    }
    let first = v[lo];
    let neg = first == '-';
    let has_sign = neg || first == '+';
    let blo: usize = if has_sign {
        lo + 1
    } else {
        lo
    };
    let ghost body = v@.subrange(blo as int, hi as int);
    proof {
        assert(f[0] == v@[lo as int]);
        if has_sign {
            assert(f.skip(1) =~= v@.subrange(blo as int, hi as int));
        }
        assert(body =~= int_body(f));
    }
    if blo == hi {
        return None;
    }
    let mut i: usize = blo;
    let mut acc: u64 = 0;
    while i < hi
        invariant
            blo <= i <= hi <= v.len(),
            body == v@.subrange(blo as int, hi as int),
            body == int_body(f),
            f == v@.subrange(lo as int, hi as int),
            neg == (f.len() > 0 && f[0] == '-'),
            all_digits(v@.subrange(blo as int, i as int)),
            acc as int == digits_val(v@.subrange(blo as int, i as int)),
            acc <= 42949672959,
        decreases hi - i,
    {
        let c = v[i];
        if c < '0' || c > '9' {
            proof {
                assert(body[i - blo] == v@[i as int]);
                assert(!is_ascii_digit_char(body[i - blo]));
            }
            return None;
        }
        if acc > 0xffff_ffff {
            proof {
                let p = v@.subrange(blo as int, i as int);
                if is_int_text(f) {
                    assert(p =~= body.take(i - blo));
                    lemma_digits_val_prefix_le(body, i - blo);
                    assert(digits_val(body) > 0xffff_ffff);
                }
            }
            return None;
        }
        let d: u64 = digit_value(c) as u64;
        acc = acc * 10 + d;
        proof {
            assert(is_ascii_digit_char(v@[i as int]));
            let p = v@.subrange(blo as int, i as int);
            let p2 = v@.subrange(blo as int, i + 1);
            assert(p2.drop_last() =~= p);
            assert(p2.last() == v@[i as int]);
            assert forall|k: int| 0 <= k < p2.len() implies is_ascii_digit_char(p2[k]) by {
                if k < p.len() {
                    assert(p2[k] == p[k]);
                }
            }
            assert(digit_val(p2.last()) == d as int);
            assert(digits_val(p2) == digits_val(p) * 10 + digit_val(p2.last()));
        }
        i += 1;
    }
    proof {
        assert(v@.subrange(blo as int, i as int) =~= body);
        assert(is_int_text(f));
        assert(acc as int == digits_val(body));
    }
    if neg {
        if acc > 2147483648 {
            return None;
        }
        if acc == 2147483648 {
            return Some(i32::MIN);
        }
        Some(-(acc as i32))
    } else {
        if acc > 2147483647 {
            return None;
        }
        Some(acc as i32)
    }
}

// ---------------------------------------------------------------------------
// Signed decimal integers: writing
// ---------------------------------------------------------------------------

/// The decimal digit character for a value in 0..=9.
pub open spec fn digit_char(d: int) -> char {
    if d == 0 {
        '0'
    } else if d == 1 {
        '1'
    } else if d == 2 {
        '2'
    } else if d == 3 {
        '3'
    } else if d == 4 {
        '4'
    } else if d == 5 {
        '5'
    } else if d == 6 {
        '6'
    } else if d == 7 {
        '7'
    } else if d == 8 {
        '8'
    } else {
        '9'
    }
}

/// The decimal rendering of a non-negative integer, most significant digit
/// first, with no leading zeros (a bare `0` for zero).
pub open spec fn dec_digits(n: nat) -> Seq<char>
    decreases n,
{
    if n < 10 {
        seq![digit_char(n as int)]
    } else {
        dec_digits(n / 10).push(digit_char((n % 10) as int))
    }
}

/// The decimal rendering of a signed integer: a leading `-` for negative
/// values, none otherwise.
pub open spec fn int_text(v: int) -> Seq<char> {
    if v < 0 {
        seq!['-'] + dec_digits((0 - v) as nat)
    } else {
        dec_digits(v as nat)
    }
}

/// A character that can occur in the decimal rendering of a signed integer.
pub open spec fn is_int_char(c: char) -> bool {
    is_ascii_digit_char(c) || c == '-'
}

/// `dec_digits` produces at least one character, all of them digits.
pub proof fn lemma_dec_digits_chars(n: nat)
    ensures
        dec_digits(n).len() >= 1,
        all_digits(dec_digits(n)),
    decreases n,
{
    if n >= 10 {
        lemma_dec_digits_chars(n / 10);
        assert forall|i: int| 0 <= i < dec_digits(n).len() implies is_ascii_digit_char(
            dec_digits(n)[i],
        ) by {
            if i < dec_digits(n / 10).len() {
                assert(dec_digits(n)[i] == dec_digits(n / 10)[i]);
            }
        }
    }
}

/// `int_text` produces at least one character, each a digit or the sign.
pub proof fn lemma_int_text_chars(v: int)
    ensures
        int_text(v).len() >= 1,
        forall|i: int| 0 <= i < int_text(v).len() ==> is_int_char(#[trigger] int_text(v)[i]),
        !is_whitespace_char(int_text(v)[0]),
        !is_whitespace_char(int_text(v).last()),
        forall|i: int| 0 <= i < int_text(v).len() ==> #[trigger] int_text(v)[i] != ':',
{
    if v < 0 {
        lemma_dec_digits_chars((0 - v) as nat);
        assert forall|i: int| 0 <= i < int_text(v).len() implies is_int_char(
            #[trigger] int_text(v)[i],
        ) by {
            if i >= 1 {
                assert(int_text(v)[i] == dec_digits((0 - v) as nat)[i - 1]);
            }
        }
    } else {
        lemma_dec_digits_chars(v as nat);
    }
}

/// The digit character of a value in 0..=9 reads back as that value.
pub proof fn lemma_digit_char_val(d: int)
    requires
        0 <= d < 10,
    ensures
        digit_val(digit_char(d)) == d,
        is_ascii_digit_char(digit_char(d)),
{
    assert('0' as int == 48);
    assert('1' as int == 49);
    assert('2' as int == 50);
    assert('3' as int == 51);
    assert('4' as int == 52);
    assert('5' as int == 53);
    assert('6' as int == 54);
    assert('7' as int == 55);
    assert('8' as int == 56);
    assert('9' as int == 57);
}

/// Reading back the decimal rendering of a non-negative integer recovers it.
pub proof fn lemma_digits_val_of_dec(n: nat)
    ensures
        digits_val(dec_digits(n)) == n,
    decreases n,
{
    if n < 10 {
        lemma_digit_char_val(n as int);
        let s = dec_digits(n);
        assert(s == seq![digit_char(n as int)]);
        assert(s.len() == 1);
        assert(s.last() == digit_char(n as int));
        assert(s.drop_last() =~= Seq::<char>::empty());
        assert(digits_val(s.drop_last()) == 0);
        assert(digits_val(s) == digits_val(s.drop_last()) * 10 + digit_val(s.last()));
    } else {
        lemma_digits_val_of_dec(n / 10);
        lemma_digit_char_val((n % 10) as int);
        assert(dec_digits(n).drop_last() =~= dec_digits(n / 10));
        assert(dec_digits(n).last() == digit_char((n % 10) as int));
        vstd::arithmetic::div_mod::lemma_fundamental_div_mod(n as int, 10);
    }
}

/// Reading back the decimal rendering of a signed integer recovers it: the
/// rendering is a well-formed signed integer text denoting the same value.
pub proof fn lemma_int_text_val(v: int)
    ensures
        is_int_text(int_text(v)),
        int_text_val(int_text(v)) == v,
{
    if v >= 0 {
        lemma_dec_digits_chars(v as nat);
        lemma_digits_val_of_dec(v as nat);
        assert(is_ascii_digit_char(int_text(v)[0]));
    } else {
        let m = (0 - v) as nat;
        lemma_dec_digits_chars(m);
        lemma_digits_val_of_dec(m);
        let s = int_text(v);
        assert(s[0] == '-');
        assert(s.skip(1) =~= dec_digits(m));
        assert(int_body(s) == dec_digits(m));
    }
}

/// Returns the one-character text of a decimal digit value.
fn digit_str(d: u32) -> (s: &'static str)
    requires
        d < 10,
    ensures
        s@ =~= seq![digit_char(d as int)],
{
    proof {
        reveal_strlit("0");
        reveal_strlit("1");
        reveal_strlit("2");
        reveal_strlit("3");
        reveal_strlit("4");
        reveal_strlit("5");
        reveal_strlit("6");
        reveal_strlit("7");
        reveal_strlit("8");
        reveal_strlit("9");
    }
    if d == 0 {
        "0"
    } else if d == 1 {
        "1"
    } else if d == 2 {
        "2"
    } else if d == 3 {
        "3"
    } else if d == 4 {
        "4"
    } else if d == 5 {
        "5"
    } else if d == 6 {
        "6"
    } else if d == 7 {
        "7"
    } else if d == 8 {
        "8"
    } else {
        "9"
    }
}

/// Writes a non-negative integer in decimal.
fn u32_text(n: u32) -> (s: String)
    ensures
        s@ == dec_digits(n as nat),
    decreases n,
{
    if n < 10 {
        let s = String::from_str(digit_str(n));
        proof {
            assert(s@ =~= dec_digits(n as nat));
        }
        s
    } else {
        assert(n / 10 < n) by (nonlinear_arith)
            requires
                n >= 10,
        ;
        let q: u32 = n / 10;
        let r: u32 = n % 10;
        let mut s = u32_text(q);
        s.append(digit_str(r));
        proof {
            assert(s@ =~= dec_digits(n as nat));
        }
        s
    }
}

/// Writes a signed integer in decimal, with a leading `-` for negative
/// values.
pub fn i32_text(v: i32) -> (s: String)
    ensures
        s@ == int_text(v as int),
{
    if v >= 0 {
        let s = u32_text(v as u32);
        s
    } else {
        let m64: i64 = -(v as i64);
        let m: u32 = m64 as u32;
        let mut s = String::from_str("-");
        let t = u32_text(m);
        s.append(t.as_str());
        proof {
            reveal_strlit("-");
            assert(s@ =~= int_text(v as int));
        }
        s
    }
}

} // verus!
