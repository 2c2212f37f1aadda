//! Character and string utilities shared by the whole library: conversion
//! between `String` and `Vec<char>`, Unicode text cleansing (NFC, BOM strip,
//! CRLF to LF, trim), decimal formatting and parsing, truncation, and a
//! lexicographic order on strings.

use vstd::prelude::*;

verus! {

use vstd::string::StrSliceExecFns;

/// What `unicode_normalization`'s NFC transform returns for a given
/// character sequence (Unicode Standard Annex 15, form C).
pub uninterp spec fn nfc_of(s: Seq<char>) -> Seq<char>;

/// Whether a character has the Unicode `White_Space` property, as decided
/// by `char::is_whitespace`.
pub uninterp spec fn is_unicode_ws(c: char) -> bool;

/// Relies on `unicode_normalization::UnicodeNormalization::nfc` on
/// `str::chars`: the result is the NFC normalization of the input, which
/// depends on the characters alone. Normalization forms are idempotent
/// (UAX 15), and an empty string stays empty.
#[verifier::external_body]
pub fn nfc(s: &str) -> (r: String)
    ensures
        r@ == nfc_of(s@),
        nfc_of(r@) == r@,
        s@.len() == 0 ==> r@.len() == 0,
{
    unicode_normalization::UnicodeNormalization::nfc(s.chars()).collect()
}

/// Relies on `char::is_whitespace`: true exactly for characters with the
/// Unicode `White_Space` property; the ASCII space, tab, line feed and
/// carriage return have it, and the ASCII printable characters do not.
#[verifier::external_body]
pub fn char_is_ws(c: char) -> (r: bool)
    ensures
        r == is_unicode_ws(c),
        (c == ' ' || c == '\t' || c == '\n' || c == '\r') ==> r,
        ('!' <= c && c <= '~') ==> !r,
{
    c.is_whitespace()
}

/// Relies on `String::push`: appends the one character to the end.
#[verifier::external_body]
pub fn push_char(s: &mut String, c: char)
    ensures
        final(s)@ == old(s)@.push(c),
{
    s.push(c);
}

/// The characters of a string slice, in order.
pub fn str_to_chars(s: &str) -> (v: Vec<char>)
    ensures
        v@ == s@,
{
    let n: usize = s.unicode_len();
    let mut v: Vec<char> = Vec::new();
    let mut i: usize = 0;
    while i < n
        invariant
            n == s@.len(),
            i <= n,
            v@ == s@.take(i as int),
        decreases n - i,
    {
        v.push(s.get_char(i));
        i = i + 1;
        assert(s@.take(i as int) =~= s@.take(i - 1).push(s@[i - 1]));
    }
    assert(s@.take(n as int) =~= s@);
    v
}

/// A string holding exactly the given characters, in order.
pub fn chars_to_string(v: &Vec<char>) -> (s: String)
    ensures
        s@ == v@,
{
    let mut s: String = String::new();
    let mut i: usize = 0;
    while i < v.len()
        invariant
            i <= v@.len(),
            s@ == v@.take(i as int),
        decreases v@.len() - i,
    {
        push_char(&mut s, v[i]);
        i = i + 1;
        assert(v@.take(i as int) =~= v@.take(i - 1).push(v@[i - 1]));
    }
    assert(v@.take(v@.len() as int) =~= v@);
    s
}

/// The sequence without a leading byte-order mark, if one is present.
pub open spec fn strip_bom(s: Seq<char>) -> Seq<char> {
    if s.len() > 0 && s[0] == '\u{FEFF}' {
        s.skip(1)
    } else {
        s
    }
}

/// The sequence with every CR LF pair replaced by a single LF.
pub open spec fn crlf_to_lf(s: Seq<char>) -> Seq<char>
    decreases s.len(),
{
    if s.len() == 0 {
        s
    } else if s.len() >= 2 && s[0] == '\r' && s[1] == '\n' {
        seq!['\n'] + crlf_to_lf(s.skip(2))
    } else {
        seq![s[0]] + crlf_to_lf(s.skip(1))
    }
}

/// The sequence without its leading whitespace.
pub open spec fn trim_start(s: Seq<char>) -> Seq<char>
    decreases s.len(),
{
    if s.len() > 0 && is_unicode_ws(s[0]) {
        trim_start(s.skip(1))
    } else {
        s
    }
}

/// The sequence without its trailing whitespace.
pub open spec fn trim_end(s: Seq<char>) -> Seq<char>
    decreases s.len(),
{
    if s.len() > 0 && is_unicode_ws(s[s.len() - 1]) {
        trim_end(s.take(s.len() - 1))
    } else {
        s
    }
}

/// The sequence without leading and trailing whitespace.
pub open spec fn trim_ws(s: Seq<char>) -> Seq<char> {
    trim_end(trim_start(s))
}

/// Replaces every CR LF pair in `v` by a single LF.
pub fn crlf_to_lf_exec(v: &Vec<char>) -> (r: Vec<char>)
    ensures
        r@ == crlf_to_lf(v@),
{
    let mut out: Vec<char> = Vec::new();
    let mut i: usize = 0;
    proof {
        assert(v@.skip(0) =~= v@);
        assert(Seq::<char>::empty() + crlf_to_lf(v@) =~= crlf_to_lf(v@));
    }
    while i < v.len()
        invariant
            i <= v@.len(),
            crlf_to_lf(v@) == out@ + crlf_to_lf(v@.skip(i as int)),
        decreases v@.len() - i,
    {
        let ghost rest = v@.skip(i as int);
        if v[i] == '\r' && i + 1 < v.len() && v[i + 1] == '\n' {
            proof {
                assert(rest.len() >= 2);
                assert(rest[0] == '\r' && rest[1] == '\n');
                assert(rest.skip(2) =~= v@.skip(i + 2));
                assert(crlf_to_lf(rest) == seq!['\n'] + crlf_to_lf(v@.skip(i + 2)));
                assert(out@ + crlf_to_lf(rest) =~= out@.push('\n') + crlf_to_lf(v@.skip(i + 2)));
            }
            out.push('\n');
            i = i + 2;
        } else {
            proof {
                assert(rest[0] == v@[i as int]);
                if rest.len() >= 2 && rest[0] == '\r' && rest[1] == '\n' {
                    assert(rest[1] == v@[i + 1]);
                    assert(false);
                }
                assert(rest.skip(1) =~= v@.skip(i + 1));
                assert(crlf_to_lf(rest) == seq![rest[0]] + crlf_to_lf(v@.skip(i + 1)));
                assert(out@ + crlf_to_lf(rest) =~= out@.push(v@[i as int]) + crlf_to_lf(v@.skip(i + 1)));
            }
            out.push(v[i]);
            i = i + 1;
        }
    }
    proof {
        assert(v@.skip(v@.len() as int) =~= Seq::<char>::empty());
        assert(crlf_to_lf(v@.skip(v@.len() as int)) =~= Seq::<char>::empty());
        assert(out@ + Seq::<char>::empty() =~= out@);
    }
    out
}

/// Removes leading and trailing Unicode whitespace from `v`.
pub fn trim_exec(v: &Vec<char>) -> (r: Vec<char>)
    ensures
        r@ == trim_ws(v@),
{
    let mut start: usize = 0;
    proof {
        assert(v@.skip(0) =~= v@);
    }
    while start < v.len() && char_is_ws(v[start])
        invariant
            start <= v@.len(),
            trim_start(v@) == trim_start(v@.skip(start as int)),
            start < v@.len() || trim_start(v@) =~= Seq::<char>::empty(),
        decreases v@.len() - start,
    {
        proof {
            let rest = v@.skip(start as int);
            assert(rest[0] == v@[start as int]);
            assert(rest.skip(1) =~= v@.skip(start + 1));
            if start + 1 == v@.len() {
                assert(v@.skip(start + 1) =~= Seq::<char>::empty());
            }
        }
        start = start + 1;
    }
    proof {
        if start < v@.len() {
            let rest = v@.skip(start as int);
            assert(rest[0] == v@[start as int]);
            assert(!is_unicode_ws(rest[0]));
            assert(trim_start(rest) == rest);
        }
    }
    // trim_start(v@) == v@.skip(start as int) holds now (both branches)
    let ghost mid = v@.skip(start as int);
    proof {
        if start == v@.len() {
            assert(v@.skip(start as int) =~= Seq::<char>::empty());
            assert(trim_start(v@) =~= v@.skip(start as int));
        }
    }
    let mut end: usize = v.len();
    proof {
        assert(mid.take(v@.len() - start) =~= mid);
    }
    while end > start && char_is_ws(v[end - 1])
        invariant
            start <= end <= v@.len(),
            mid == v@.skip(start as int),
            trim_start(v@) == mid,
            trim_end(mid) == trim_end(mid.take(end - start)),
            end > start || trim_end(mid) =~= Seq::<char>::empty(),
        decreases end,
    {
        proof {
            let cur = mid.take(end - start);
            assert(cur[cur.len() - 1] == v@[end - 1]);
            assert(is_unicode_ws(cur[cur.len() - 1]));
            assert(trim_end(cur) == trim_end(cur.take(cur.len() - 1)));
            assert(cur.take(cur.len() - 1) =~= mid.take(end - 1 - start));
            if end - 1 == start {
                assert(mid.take(end - 1 - start) =~= Seq::<char>::empty());
                assert(trim_end(Seq::<char>::empty()) =~= Seq::<char>::empty());
                assert(trim_end(mid) =~= Seq::<char>::empty());
            }
        }
        end = end - 1;
    }
    proof {
        if end > start {
            let cur = mid.take(end - start);
            assert(cur[cur.len() - 1] == v@[end - 1]);
            assert(!is_unicode_ws(cur[cur.len() - 1]));
            assert(trim_end(cur) == cur);
        } else {
            assert(mid.take(end - start) =~= Seq::<char>::empty());
        }
    }
    let mut out: Vec<char> = Vec::new();
    let mut i: usize = start;
    while i < end
        invariant
            start <= i <= end <= v@.len(),
            out@ == v@.subrange(start as int, i as int),
        decreases end - i,
    {
        out.push(v[i]);
        i = i + 1;
        assert(v@.subrange(start as int, i as int) =~= v@.subrange(start as int, i - 1).push(v@[i - 1]));
    }
    proof {
        assert(mid.take(end - start) =~= v@.subrange(start as int, end as int));
    }
    out
}

/// Removes leading Unicode whitespace from `v`.
pub fn trim_start_exec(v: &Vec<char>) -> (r: Vec<char>)
    ensures
        r@ == trim_start(v@),
{
    let mut start: usize = 0;
    proof {
        assert(v@.skip(0) =~= v@);
    }
    while start < v.len() && char_is_ws(v[start])
        invariant
            start <= v@.len(),
            trim_start(v@) == trim_start(v@.skip(start as int)),
            start < v@.len() || trim_start(v@) =~= Seq::<char>::empty(),
        decreases v@.len() - start,
    {
        proof {
            let rest = v@.skip(start as int);
            assert(rest[0] == v@[start as int]);
            assert(rest.skip(1) =~= v@.skip(start + 1));
            if start + 1 == v@.len() {
                assert(v@.skip(start + 1) =~= Seq::<char>::empty());
            }
        }
        start = start + 1;
    }
    proof {
        if start < v@.len() {
            let rest = v@.skip(start as int);
            assert(rest[0] == v@[start as int]);
            assert(!is_unicode_ws(rest[0]));
            assert(trim_start(rest) == rest);
        } else {
            assert(v@.skip(start as int) =~= Seq::<char>::empty());
            assert(trim_start(v@) =~= v@.skip(start as int));
        }
    }
    let mut out: Vec<char> = Vec::new();
    let mut i: usize = start;
    while i < v.len()
        invariant
            start <= i <= v@.len(),
            out@ == v@.subrange(start as int, i as int),
        decreases v@.len() - i,
    {
        out.push(v[i]);
        i = i + 1;
        assert(v@.subrange(start as int, i as int) =~= v@.subrange(start as int, i - 1).push(
            v@[i - 1],
        ));
    }
    proof {
        assert(v@.subrange(start as int, v@.len() as int) =~= v@.skip(start as int));
    }
    out
}

/// Text cleansing applied to message contents and embedding inputs:
/// NFC normalization, then BOM strip, CR LF to LF, and trim.
pub open spec fn clean_spec(s: Seq<char>) -> Seq<char> {
    trim_ws(crlf_to_lf(strip_bom(nfc_of(s))))
}

/// Cleanses one text: Unicode NFC normalization, strip of a leading
/// byte-order mark, CR LF replaced by LF, and outer whitespace trimmed.
pub fn clean_text(s: &str) -> (r: String)
    ensures
        r@ == clean_spec(s@),
{
    let normalized = nfc(s);
    let chars = str_to_chars(normalized.as_str());
    let debommed: Vec<char> = if chars.len() > 0 && chars[0] == '\u{FEFF}' {
        let mut rest: Vec<char> = Vec::new();
        let mut i: usize = 1;
        while i < chars.len()
            invariant
                1 <= i <= chars@.len(),
                rest@ == chars@.subrange(1, i as int),
            decreases chars@.len() - i,
        {
            rest.push(chars[i]);
            i = i + 1;
            assert(chars@.subrange(1, i as int) =~= chars@.subrange(1, i - 1).push(chars@[i - 1]));
        }
        proof {
            assert(chars@.subrange(1, chars@.len() as int) =~= chars@.skip(1));
        }
        rest
    } else {
        chars
    };
    let unixed = crlf_to_lf_exec(&debommed);
    let trimmed = trim_exec(&unixed);
    chars_to_string(&trimmed)
}

/// The decimal digit character for a value below ten.
pub open spec fn digit_char(d: int) -> char {
    if d == 0 {
        '0'
    } else if d == 1 {
        '1'
    } else if d == 2 {
        '2'
    } else if d == 3 {
        '3'
    } else if d == 4 {
        '4'
    } else if d == 5 {
        '5'
    } else if d == 6 {
        '6'
    } else if d == 7 {
        '7'
    } else if d == 8 {
        '8'
    } else {
        '9'
    }
}

pub fn digit_to_char(d: u16) -> (c: char)
    requires
        d <= 9,
    ensures
        c == digit_char(d as int),
{
    if d == 0 {
        '0'
    } else if d == 1 {
        '1'
    } else if d == 2 {
        '2'
    } else if d == 3 {
        '3'
    } else if d == 4 {
        '4'
    } else if d == 5 {
        '5'
    } else if d == 6 {
        '6'
    } else if d == 7 {
        '7'
    } else if d == 8 {
        '8'
    } else {
        '9'
    }
}

/// The three decimal digits of an HTTP status code.
pub open spec fn status_digits(status: int) -> Seq<char> {
    seq![
        digit_char(status / 100),
        digit_char((status / 10) % 10),
        digit_char(status % 10),
    ]
}

/// Formats a three-digit HTTP status code.
pub fn status_code_str(status: u16) -> (r: String)
    requires
        100 <= status <= 999,
    ensures
        r@ == status_digits(status as int),
{
    let mut s: String = String::new();
    push_char(&mut s, digit_to_char(status / 100));
    push_char(&mut s, digit_to_char((status / 10) % 10));
    push_char(&mut s, digit_to_char(status % 10));
    proof {
        assert(s@ =~= status_digits(status as int));
    }
    s
}

/// The numeric value of a decimal digit character.
pub open spec fn digit_val(c: char) -> int {
    c as int - '0' as int
}

/// Whether every character of the sequence is a decimal digit.
pub open spec fn all_digits(s: Seq<char>) -> bool {
    forall|i: int| 0 <= i < s.len() ==> '0' <= #[trigger] s[i] && s[i] <= '9'
}

/// The value of a sequence of decimal digit characters.
pub open spec fn digits_val(s: Seq<char>) -> int
    decreases s.len(),
{
    if s.len() == 0 {
        0
    } else {
        digits_val(s.take(s.len() - 1)) * 10 + digit_val(s[s.len() - 1])
    }
}

/// The sequence without an optional leading plus sign.
pub open spec fn sans_plus(s: Seq<char>) -> Seq<char> {
    if s.len() > 0 && s[0] == '+' {
        s.skip(1)
    } else {
        s
    }
}

/// What `u64::from_str` accepts: an optional plus sign, then one or more
/// decimal digits whose value fits in the type.
pub open spec fn parse_u64_spec(s: Seq<char>) -> Option<u64> {
    let b = sans_plus(s);
    if b.len() > 0 && all_digits(b) && digits_val(b) <= u64::MAX {
        Some(digits_val(b) as u64)
    } else {
        None
    }
}

proof fn lemma_digits_val_nonneg(s: Seq<char>)
    requires
        all_digits(s),
    ensures
        digits_val(s) >= 0,
    decreases s.len(),
{
    if s.len() > 0 {
        assert(all_digits(s.take(s.len() - 1))) by {
            assert(forall|i: int|
                0 <= i < s.len() - 1 ==> s.take(s.len() - 1)[i] == #[trigger] s[i]);
        }
        lemma_digits_val_nonneg(s.take(s.len() - 1));
    }
}

proof fn lemma_digits_val_prefix_le(s: Seq<char>, i: int)
    requires
        all_digits(s),
        0 <= i <= s.len(),
    ensures
        digits_val(s.take(i)) <= digits_val(s),
    decreases s.len() - i,
{
    lemma_digits_val_nonneg(s);
    if i < s.len() {
        lemma_digits_val_prefix_le(s, i + 1);
        let p = s.take(i + 1);
        assert(p.take(p.len() - 1) =~= s.take(i));
        assert(all_digits(s.take(i))) by {
            assert(forall|j: int| 0 <= j < i ==> s.take(i)[j] == #[trigger] s[j]);
        }
        lemma_digits_val_nonneg(s.take(i));
        assert(digits_val(p) == digits_val(s.take(i)) * 10 + digit_val(p[i]));
        assert(digit_val(p[i]) >= 0);
    } else {
        assert(s.take(i) =~= s);
    }
}

/// Parses a base-ten `u64` from characters, as `u64::from_str` would:
/// an optional plus sign, then decimal digits; anything else, an empty
/// digit run, or a value above `u64::MAX` gives `None`.
pub fn parse_u64_chars(v: &Vec<char>) -> (r: Option<u64>)
    ensures
        r == parse_u64_spec(v@),
{
    let ghost b = sans_plus(v@);
    let start: usize = if v.len() > 0 && v[0] == '+' {
        1
    } else {
        0
    };
    proof {
        assert(b =~= v@.skip(start as int));
    }
    if v.len() == start {
        return None;
    }
    let mut acc: u64 = 0;
    let mut i: usize = start;
    proof {
        assert(b.take(0) =~= Seq::<char>::empty());
    }
    while i < v.len()
        invariant
            start <= i <= v@.len(),
            start <= 1,
            b == v@.skip(start as int),
            b == sans_plus(v@),
            all_digits(b.take(i - start)),
            acc == digits_val(b.take(i - start)),
        decreases v@.len() - i,
    {
        let c = v[i];
        if !('0' <= c && c <= '9') {
            proof {
                assert(b[i - start] == v@[i as int]);
                assert(!('0' <= b[i - start] && b[i - start] <= '9'));
                assert(!all_digits(b));
            }
            return None;
        }
        let d: u64 = (c as u32 as u64) - 48;
        proof {
            assert(d == digit_val(v@[i as int]));
        }
        if acc > (u64::MAX - d) / 10 {
            // The digits read so far already exceed the range.
            proof {
                let p = b.take(i + 1 - start);
                assert(p[p.len() - 1] == b[i - start] == v@[i as int]);
                assert(p.take(p.len() - 1) =~= b.take(i - start));
                assert(digits_val(p) == acc * 10 + d);
                assert(acc * 10 + d > u64::MAX) by (nonlinear_arith)
                    requires
                        acc > (u64::MAX - d) / 10,
                        d <= 9,
                ;
                if all_digits(b) {
                    lemma_digits_val_prefix_le(b, i + 1 - start);
                    assert(digits_val(b) >= digits_val(p));
                    assert(digits_val(b) > u64::MAX);
                    assert(!(digits_val(sans_plus(v@)) <= u64::MAX));
                } else {
                    assert(!all_digits(sans_plus(v@)));
                }
                assert(parse_u64_spec(v@) is None);
            }
            return None;
        }
        proof {
            assert(acc * 10 + d <= u64::MAX) by (nonlinear_arith)
                requires
                    acc <= (u64::MAX - d) / 10,
                    d <= 9,
            ;
        }
        let next: u64 = acc * 10 + d;
        proof {
            let p = b.take(i + 1 - start);
            assert(p[p.len() - 1] == b[i - start] == v@[i as int]);
            assert(p.take(p.len() - 1) =~= b.take(i - start));
            assert(all_digits(p)) by {
                assert(forall|j: int| 0 <= j < p.len() - 1 ==> p[j] == #[trigger] b.take(i - start)[j]);
            }
        }
        acc = next;
        i = i + 1;
    }
    proof {
        assert(b.take(v@.len() - start) =~= b);
    }
    Some(acc)
}

/// Truncation of a long message: at most `max` characters, with a
/// three-dot ellipsis appended when anything was cut.
pub open spec fn truncate_spec(s: Seq<char>, max: int) -> Seq<char> {
    if s.len() > max {
        s.take(max) + seq!['.', '.', '.']
    } else {
        s
    }
}

/// Truncates to `max` characters, appending `...` when anything was cut.
pub fn truncate(s: &str, max: usize) -> (r: String)
    ensures
        r@ == truncate_spec(s@, max as int),
{
    let n: usize = s.unicode_len();
    if n > max {
        let head = s.substring_char(0, max);
        let mut r = head.to_owned();
        r.append("...");
        proof {
            reveal_strlit("...");
            assert("..."@ =~= seq!['.', '.', '.']);
        }
        r
    } else {
        s.to_owned()
    }
}

/// Strict lexicographic order on character sequences, by code point; it
/// agrees with the byte order of the UTF-8 encodings, which is how `Ord`
/// on `String` compares.
pub open spec fn lex_lt(a: Seq<char>, b: Seq<char>) -> bool
    decreases a.len(),
{
    if b.len() == 0 {
        false
    } else if a.len() == 0 {
        true
    } else if a[0] != b[0] {
        a[0] < b[0]
    } else {
        lex_lt(a.skip(1), b.skip(1))
    }
}

/// The order is total: two sequences are ordered or equal.
pub proof fn lemma_lex_total(a: Seq<char>, b: Seq<char>)
    ensures
        lex_lt(a, b) || lex_lt(b, a) || a == b,
    decreases a.len(),
{
    if a.len() == 0 && b.len() == 0 {
        assert(a =~= b);
    } else if a.len() > 0 && b.len() > 0 {
        if a[0] == b[0] {
            lemma_lex_total(a.skip(1), b.skip(1));
            if !lex_lt(a, b) && !lex_lt(b, a) {
                assert(a.skip(1) == b.skip(1));
                assert(a.len() == b.len());
                assert forall|i: int| 0 <= i < a.len() implies a[i] == b[i] by {
                    if i > 0 {
                        assert(a[i] == a.skip(1)[i - 1]);
                        assert(b[i] == b.skip(1)[i - 1]);
                    }
                }
                assert(a =~= b);
            }
        }
    }
}

/// The order is asymmetric.
pub proof fn lemma_lex_asymmetric(a: Seq<char>, b: Seq<char>)
    requires
        lex_lt(a, b),
    ensures
        !lex_lt(b, a),
    decreases a.len(),
{
    if a.len() > 0 && b.len() > 0 && a[0] == b[0] {
        lemma_lex_asymmetric(a.skip(1), b.skip(1));
    }
}

/// The order is transitive.
pub proof fn lemma_lex_trans(a: Seq<char>, b: Seq<char>, c: Seq<char>)
    requires
        lex_lt(a, b),
        lex_lt(b, c),
    ensures
        lex_lt(a, c),
    decreases a.len(),
{
    if b.len() == 0 || c.len() == 0 {
        // lex_lt(b, c) forces c nonempty; lex_lt(a, b) forces b nonempty.
    } else if a.len() == 0 {
    } else {
        if a[0] == b[0] {
            if b[0] == c[0] {
                lemma_lex_trans(a.skip(1), b.skip(1), c.skip(1));
            }
        }
    }
}

/// Strict-order comparison of two strings, by character code point.
pub fn string_lt(a: &String, b: &String) -> (r: bool)
    ensures
        r == lex_lt(a@, b@),
{
    let av = str_to_chars(a.as_str());
    let bv = str_to_chars(b.as_str());
    let mut i: usize = 0;
    proof {
        assert(av@.skip(0) =~= av@);
        assert(bv@.skip(0) =~= bv@);
    }
    while i < av.len() && i < bv.len()
        invariant
            av@ == a@,
            bv@ == b@,
            i <= av@.len(),
            i <= bv@.len(),
            lex_lt(a@, b@) == lex_lt(av@.skip(i as int), bv@.skip(i as int)),
        decreases av@.len() - i,
    {
        let ghost ra = av@.skip(i as int);
        let ghost rb = bv@.skip(i as int);
        proof {
            assert(ra[0] == av@[i as int]);
            assert(rb[0] == bv@[i as int]);
        }
        if av[i] != bv[i] {
            return av[i] < bv[i];
        }
        proof {
            assert(ra.skip(1) =~= av@.skip(i + 1));
            assert(rb.skip(1) =~= bv@.skip(i + 1));
        }
        i = i + 1;
    }
    proof {
        if i >= bv@.len() {
            assert(bv@.skip(i as int) =~= Seq::<char>::empty());
        } else {
            assert(av@.skip(i as int) =~= Seq::<char>::empty());
            assert(bv@.skip(i as int).len() > 0);
        }
    }
    i < bv.len()
}

/// Whether the string sequence holds the given character sequence.
pub open spec fn contains_str(v: Seq<Seq<char>>, s: Seq<char>) -> bool {
    exists|i: int| 0 <= i < v.len() && v[i] == s
}

/// Membership test for a string in a vector of strings.
pub fn vec_contains_string(v: &Vec<String>, s: &String) -> (r: bool)
    ensures
        r == contains_str(v.deep_view(), s@),
{
    let mut i: usize = 0;
    while i < v.len()
        invariant
            i <= v@.len(),
            forall|j: int| 0 <= j < i ==> v.deep_view()[j] != s@,
        decreases v@.len() - i,
    {
        proof {
            assert(v.deep_view()[i as int] == v@[i as int]@);
        }
        if v[i].eq(s) {
            return true;
        }
        i = i + 1;
    }
    false
}

/// A copy of the strings, element for element.
pub fn clone_string_vec(v: &Vec<String>) -> (r: Vec<String>)
    ensures
        r@ == v@,
{
    let mut r: Vec<String> = Vec::new();
    let mut i: usize = 0;
    while i < v.len()
        invariant
            i <= v@.len(),
            r@ == v@.take(i as int),
        decreases v@.len() - i,
    {
        r.push(v[i].clone());
        i = i + 1;
        assert(v@.take(i as int) =~= v@.take(i - 1).push(v@[i - 1]));
    }
    proof {
        assert(v@.take(v@.len() as int) =~= v@);
    }
    r
}

/// A copy of an optional string.
pub fn clone_opt_string(v: &Option<String>) -> (r: Option<String>)
    ensures
        r == *v,
{
    match v {
        Some(s) => Some(s.clone()),
        None => None,
    }
}

/// Concatenation of two string slices.
pub fn concat2(a: &str, b: &str) -> (r: String)
    ensures
        r@ == a@ + b@,
{
    let mut r = a.to_owned();
    r.append(b);
    r
}

/// Concatenation of three string slices.
pub fn concat3(a: &str, b: &str, c: &str) -> (r: String)
    ensures
        r@ == a@ + b@ + c@,
{
    let mut r = a.to_owned();
    r.append(b);
    r.append(c);
    r
}

} // verus!
