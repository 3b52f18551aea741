//! Character classes, verified number rendering and parsing, and small
//! string helpers shared by the lexer, the code generator and the simulator.

use vstd::prelude::*;

verus! {

// ---------------------------------------------------------------------------
// Character classes (ASCII).
// ---------------------------------------------------------------------------

/// A word character: letter, digit or underscore.
pub open spec fn is_word_char(c: char) -> bool {
    is_alpha_char(c) || is_digit_char(c) || c == '_'
}

/// An ASCII letter.
pub open spec fn is_alpha_char(c: char) -> bool {
    ('a' <= c && c <= 'z') || ('A' <= c && c <= 'Z')
}

/// An ASCII decimal digit.
pub open spec fn is_digit_char(c: char) -> bool {
    '0' <= c && c <= '9'
}

/// A character of an operator run.
pub open spec fn is_op_char(c: char) -> bool {
    c == '+' || c == '-' || c == '*' || c == '/' || c == '=' || c == '<' || c == '>' || c == '!'
        || c == '&' || c == '|' || c == '%'
}

/// A single-character delimiter.
pub open spec fn is_delim_char(c: char) -> bool {
    c == ';' || c == ',' || c == '(' || c == ')' || c == '{' || c == '}' || c == '[' || c == ']'
}

/// An ASCII whitespace character.
pub open spec fn is_space_char(c: char) -> bool {
    c == ' ' || c == '\t' || c == '\n' || c == '\r' || c == '\u{b}' || c == '\u{c}'
}

pub fn word_char(c: char) -> (r: bool)
    ensures
        r == is_word_char(c),
{
    alpha_char(c) || digit_char(c) || c == '_'
}

pub fn alpha_char(c: char) -> (r: bool)
    ensures
        r == is_alpha_char(c),
{
    ('a' <= c && c <= 'z') || ('A' <= c && c <= 'Z')
}

pub fn digit_char(c: char) -> (r: bool)
    ensures
        r == is_digit_char(c),
{
    '0' <= c && c <= '9'
}

pub fn op_char(c: char) -> (r: bool)
    ensures
        r == is_op_char(c),
{
    c == '+' || c == '-' || c == '*' || c == '/' || c == '=' || c == '<' || c == '>' || c == '!'
        || c == '&' || c == '|' || c == '%'
}

pub fn delim_char(c: char) -> (r: bool)
    ensures
        r == is_delim_char(c),
{
    c == ';' || c == ',' || c == '(' || c == ')' || c == '{' || c == '}' || c == '[' || c == ']'
}

pub fn space_char(c: char) -> (r: bool)
    ensures
        r == is_space_char(c),
{
    c == ' ' || c == '\t' || c == '\n' || c == '\r' || c == '\u{b}' || c == '\u{c}'
}

// ---------------------------------------------------------------------------
// String comparison and literal matching.
// ---------------------------------------------------------------------------

/// Equality of two string slices, decided by their character sequences.
pub fn str_eq(a: &str, b: &str) -> (r: bool)
    ensures
        r == (a@ == b@),
{
    let sa = a.to_owned();
    let sb = b.to_owned();
    sa == sb
}

/// Whether `pat` occurs in `s` starting exactly at character offset `pos`.
pub open spec fn matches_at(s: Seq<char>, pos: int, pat: Seq<char>) -> bool {
    pos + pat.len() <= s.len() && s.subrange(pos, pos + pat.len()) == pat
}

pub fn match_lit(s: &str, pos: usize, pat: &str) -> (r: bool)
    requires
        pos <= s@.len(),
    ensures
        r == matches_at(s@, pos as int, pat@),
{
    let n = s.unicode_len();
    let m = pat.unicode_len();
    if m > n - pos {
        return false;
    }
    for j in 0..m
        invariant
            pos + m <= n,
            n == s@.len(),
            m == pat@.len(),
            forall|i: int| 0 <= i < j ==> s@[pos + i] == pat@[i],
    {
        if s.get_char(pos + j) != pat.get_char(j) {
            return false;
        }
    }
    proof {
        assert(s@.subrange(pos as int, pos + pat@.len()) =~= pat@);
    }
    true
}

// ---------------------------------------------------------------------------
// Decimal and hexadecimal rendering.
// ---------------------------------------------------------------------------

/// The decimal digit character for `d`.
pub open spec fn dec_digit(d: int) -> char {
    if d == 0 { '0' }
    else if d == 1 { '1' }
    else if d == 2 { '2' }
    else if d == 3 { '3' }
    else if d == 4 { '4' }
    else if d == 5 { '5' }
    else if d == 6 { '6' }
    else if d == 7 { '7' }
    else if d == 8 { '8' }
    else { '9' }
}

/// The decimal rendering of a non-negative integer, most significant digit
/// first, with no leading zeros (except for 0 itself).
pub open spec fn dec_of(n: int) -> Seq<char>
    decreases n,
{
    if n < 10 {
        seq![dec_digit(n)]
    } else {
        dec_of(n / 10).push(dec_digit(n % 10))
    }
}

/// The decimal rendering of a possibly negative integer, as `to_string`
/// would print it.
pub open spec fn dec_of_int(v: int) -> Seq<char> {
    if v < 0 {
        seq!['-'] + dec_of(-v)
    } else {
        dec_of(v)
    }
}

/// The uppercase hexadecimal digit character for `d`.
pub open spec fn hex_digit(d: int) -> char {
    if d < 10 { dec_digit(d) }
    else if d == 10 { 'A' }
    else if d == 11 { 'B' }
    else if d == 12 { 'C' }
    else if d == 13 { 'D' }
    else if d == 14 { 'E' }
    else { 'F' }
}

/// The uppercase hexadecimal rendering of a non-negative integer, with no
/// leading zeros (except for 0 itself).
pub open spec fn hex_of(n: int) -> Seq<char>
    decreases n,
{
    if n < 16 {
        seq![hex_digit(n)]
    } else {
        hex_of(n / 16).push(hex_digit(n % 16))
    }
}

/// A run of `k` zero characters.
pub open spec fn zero_pad(k: int) -> Seq<char>
    decreases k,
{
    if k <= 0 {
        Seq::empty()
    } else {
        seq!['0'] + zero_pad(k - 1)
    }
}

/// `hex_of(n)`, left-padded with zeros to at least `w` digits, as the
/// formatter's `{:0w$X}` would print it.
pub open spec fn hex_of_min(n: int, w: int) -> Seq<char> {
    zero_pad(w - hex_of(n).len()) + hex_of(n)
}

fn dec_digit_str(d: u64) -> (r: &'static str)
    requires
        d < 10,
    ensures
        r@ == seq![dec_digit(d as int)],
{
    let r = if d == 0 { "0" }
    else if d == 1 { "1" }
    else if d == 2 { "2" }
    else if d == 3 { "3" }
    else if d == 4 { "4" }
    else if d == 5 { "5" }
    else if d == 6 { "6" }
    else if d == 7 { "7" }
    else if d == 8 { "8" }
    else { "9" };
    proof {
        reveal_strlit("0");
        reveal_strlit("1");
        reveal_strlit("2");
        reveal_strlit("3");
        reveal_strlit("4");
        reveal_strlit("5");
        reveal_strlit("6");
        reveal_strlit("7");
        reveal_strlit("8");
        reveal_strlit("9");
        assert(r@ =~= seq![dec_digit(d as int)]);
    }
    r
}

fn hex_digit_str(d: u64) -> (r: &'static str)
    requires
        d < 16,
    ensures
        r@ == seq![hex_digit(d as int)],
{
    if d < 10 {
        dec_digit_str(d)
    } else {
        let r = if d == 10 { "A" }
        else if d == 11 { "B" }
        else if d == 12 { "C" }
        else if d == 13 { "D" }
        else if d == 14 { "E" }
        else { "F" };
        proof {
            reveal_strlit("A");
            reveal_strlit("B");
            reveal_strlit("C");
            reveal_strlit("D");
            reveal_strlit("E");
            reveal_strlit("F");
            assert(r@ =~= seq![hex_digit(d as int)]);
        }
        r
    }
}

/// Renders `n` in decimal.
pub fn u64_to_dec(n: u64) -> (r: String)
    ensures
        r@ == dec_of(n as int),
    decreases n,
{
    if n < 10 {
        dec_digit_str(n).to_owned()
    } else {
        let mut s = u64_to_dec(n / 10);
        s.append(dec_digit_str(n % 10));
        proof {
            assert(dec_of((n / 10) as int).push(dec_digit((n % 10) as int)) =~= dec_of(
                (n / 10) as int,
            ) + seq![dec_digit((n % 10) as int)]);
        }
        s
    }
}

/// Renders `v` in decimal, with a leading minus sign when negative, as
/// `to_string` would print it.
pub fn i64_to_dec(v: i64) -> (r: String)
    ensures
        r@ == dec_of_int(v as int),
{
    if v >= 0 {
        u64_to_dec(v as u64)
    } else {
        let m: u64 = if v == -9223372036854775808i64 {
            9223372036854775808u64
        } else {
            (-v) as u64
        };
        let mut s = "-".to_owned();
        s.append(u64_to_dec(m).as_str());
        proof {
            reveal_strlit("-");
            assert(s@ =~= seq!['-'] + dec_of(m as int));
        }
        s
    }
}

/// Renders `n` in uppercase hexadecimal.
pub fn u64_to_hex(n: u64) -> (r: String)
    ensures
        r@ == hex_of(n as int),
    decreases n,
{
    if n < 16 {
        hex_digit_str(n).to_owned()
    } else {
        let mut s = u64_to_hex(n / 16);
        s.append(hex_digit_str(n % 16));
        proof {
            assert(hex_of((n / 16) as int).push(hex_digit((n % 16) as int)) =~= hex_of(
                (n / 16) as int,
            ) + seq![hex_digit((n % 16) as int)]);
        }
        s
    }
}

/// Renders `n` in uppercase hexadecimal, left-padded with zeros to at
/// least `w` digits.
pub fn u64_to_hex_min(n: u64, w: usize) -> (r: String)
    ensures
        r@ == hex_of_min(n as int, w as int),
{
    let h = u64_to_hex(n);
    let hl = h.as_str().unicode_len();
    let mut s = String::new();
    if hl < w {
        let pad = w - hl;
        let mut k: usize = 0;
        while k < pad
            invariant
                k <= pad,
                s@ == zero_pad(k as int),
            decreases pad - k,
        {
            s.append("0");
            proof {
                reveal_strlit("0");
                lemma_zero_pad_snoc(k as int + 1);
                assert(s@ =~= zero_pad(k as int + 1));
            }
            k += 1;
        }
    }
    s.append(h.as_str());
    proof {
        assert(s@ =~= hex_of_min(n as int, w as int));
    }
    s
}

/// Appending one zero to a zero run is the same as prepending one.
proof fn lemma_zero_pad_snoc(k: int)
    requires
        k > 0,
    ensures
        zero_pad(k) == zero_pad(k - 1) + seq!['0'],
    decreases k,
{
    if k > 1 {
        lemma_zero_pad_snoc(k - 1);
    }
    assert(zero_pad(k) =~= zero_pad(k - 1) + seq!['0']);
}

// ---------------------------------------------------------------------------
// Decimal parsing, with the exact acceptance of `str::parse`.
// ---------------------------------------------------------------------------

/// Numeric value of a digit character.
pub open spec fn digit_val(c: char) -> int {
    c as int - '0' as int
}

/// Whether every character of `ds` is a decimal digit.
pub open spec fn all_digits(ds: Seq<char>) -> bool {
    forall|i: int| 0 <= i < ds.len() ==> is_digit_char(#[trigger] ds[i])
}

/// The value of a digit string, most significant digit first.
pub open spec fn digits_val(ds: Seq<char>) -> int
    decreases ds.len(),
{
    if ds.len() == 0 {
        0
    } else {
        digits_val(ds.drop_last()) * 10 + digit_val(ds.last())
    }
}

/// The signed integer denoted by `s`: an optional `+` or `-` sign followed
/// by one or more decimal digits, with no other characters. `None` where
/// `s` has any other shape.
pub open spec fn spec_parse_signed(s: Seq<char>) -> Option<int> {
    let neg = s.len() > 0 && s[0] == '-';
    let ds = if s.len() > 0 && (s[0] == '+' || s[0] == '-') {
        s.drop_first()
    } else {
        s
    };
    if ds.len() > 0 && all_digits(ds) {
        if neg {
            Some(-digits_val(ds))
        } else {
            Some(digits_val(ds))
        }
    } else {
        None
    }
}

/// What `str::parse::<i64>` accepts and returns: a signed decimal literal
/// whose value fits in 64 signed bits.
pub open spec fn spec_parse_i64(s: Seq<char>) -> Option<int> {
    match spec_parse_signed(s) {
        Some(v) => if -0x8000_0000_0000_0000 <= v && v <= 0x7fff_ffff_ffff_ffff {
            Some(v)
        } else {
            None
        },
        None => None,
    }
}

/// What `str::parse::<u32>` accepts and returns: an unsigned decimal
/// literal (an optional `+` sign allowed) whose value fits in 32 bits.
pub open spec fn spec_parse_u32(s: Seq<char>) -> Option<int> {
    let ds = if s.len() > 0 && s[0] == '+' {
        s.drop_first()
    } else {
        s
    };
    if ds.len() > 0 && all_digits(ds) {
        if digits_val(ds) <= 0xffff_ffff {
            Some(digits_val(ds))
        } else {
            None
        }
    } else {
        None
    }
}

/// A digit string's value is non-negative.
pub proof fn lemma_digits_val_nonneg(ds: Seq<char>)
    requires
        all_digits(ds),
    ensures
        digits_val(ds) >= 0,
    decreases ds.len(),
{
    if ds.len() > 0 {
        assert(all_digits(ds.drop_last())) by {
            assert(forall|i: int|
                0 <= i < ds.len() - 1 ==> #[trigger] ds.drop_last()[i] == ds[i]);
        }
        lemma_digits_val_nonneg(ds.drop_last());
    }
}

/// Extending a digit string never shrinks its value.
pub proof fn lemma_digits_val_prefix(ds: Seq<char>, k: int)
    requires
        all_digits(ds),
        0 <= k <= ds.len(),
    ensures
        digits_val(ds) >= digits_val(ds.take(k)),
    decreases ds.len() - k,
{
    if k < ds.len() {
        lemma_digits_val_prefix(ds, k + 1);
        assert(ds.take(k + 1).drop_last() =~= ds.take(k));
        assert(all_digits(ds.take(k))) by {
            assert(forall|i: int| 0 <= i < k ==> #[trigger] ds.take(k)[i] == ds[i]);
        }
        lemma_digits_val_nonneg(ds.take(k));
        assert(digits_val(ds.take(k + 1)) == digits_val(ds.take(k)) * 10 + digit_val(
            ds.take(k + 1).last(),
        ));
        assert(digits_val(ds.take(k)) * 10 >= digits_val(ds.take(k))) by (nonlinear_arith)
            requires digits_val(ds.take(k)) >= 0;
    } else {
        assert(ds.take(k) =~= ds);
    }
}

/// Parses a signed 64-bit decimal literal, accepting exactly what
/// `str::parse::<i64>` accepts.
pub fn parse_i64(s: &str) -> (r: Option<i64>)
    ensures
        r is Some <==> spec_parse_i64(s@) is Some,
        r matches Some(v) ==> spec_parse_i64(s@) == Some(v as int),
{
    let n = s.unicode_len();
    if n == 0 {
        return None;
    }
    let first = s.get_char(0);
    let neg = first == '-';
    let start: usize = if first == '-' || first == '+' {
        1
    } else {
        0
    };
    let ghost ds = if start == 1 { s@.drop_first() } else { s@ };
    if start >= n {
        return None;
    }
    let limit: u64 = if neg {
        9223372036854775808u64
    } else {
        9223372036854775807u64
    };
    let mut acc: u64 = 0;
    let mut i: usize = start;
    proof {
        assert(ds.take(0) =~= Seq::<char>::empty());
    }
    while i < n
        invariant
            start <= i <= n,
            n == s@.len(),
            n > 0,
            first == s@[0],
            neg == (first == '-'),
            (start == 1) == (first == '+' || first == '-'),
            start == 0 || start == 1,
            start == 1 ==> ds == s@.drop_first(),
            start == 0 ==> ds == s@,
            ds.len() == n - start,
            forall|j: int| 0 <= j < ds.len() ==> ds[j] == s@[j + start],
            all_digits(ds.take(i - start)),
            acc == digits_val(ds.take(i - start)),
            acc <= limit,
            limit >= 9223372036854775807,
            neg ==> limit == 9223372036854775808,
            !neg ==> limit == 9223372036854775807,
        decreases n - i,
    {
        let c = s.get_char(i);
        if !digit_char(c) {
            proof {
                assert(ds[i - start] == c);
                assert(!all_digits(ds));
            }
            return None;
        }
        let d: u64 = (c as u32 - 48) as u64;
        proof {
            assert(d == digit_val(c));
            assert(ds.take(i - start + 1).drop_last() =~= ds.take(i - start));
            assert(ds.take(i - start + 1).last() == c);
            assert(all_digits(ds.take(i - start + 1)));
        }
        if acc > (limit - d) / 10 {
            proof {
                assert(acc * 10 + d > limit) by (nonlinear_arith)
                    requires
                        acc > (limit - d) / 10,
                        d <= limit,
                        acc >= 0,
                        d >= 0,
                        limit >= 0,
                ;
                if all_digits(ds) {
                    lemma_digits_val_prefix(ds, i - start + 1);
                    assert(digits_val(ds) > limit);
                }
            }
            return None;
        }
        proof {
            assert(acc * 10 + d <= limit) by (nonlinear_arith)
                requires
                    acc <= (limit - d) / 10,
                    d <= limit,
                    acc >= 0,
                    d >= 0,
                    limit >= 0,
            ;
        }
        acc = acc * 10 + d;
        i += 1;
    }
    proof {
        assert(ds.take(i - start) =~= ds);
    }
    if neg {
        if acc == 9223372036854775808u64 {
            Some(i64::MIN)
        } else {
            Some(-(acc as i64))
        }
    } else {
        Some(acc as i64)
    }
}

/// Parses an unsigned 32-bit decimal literal, accepting exactly what
/// `str::parse::<u32>` accepts.
pub fn parse_u32(s: &str) -> (r: Option<u32>)
    ensures
        r is Some <==> spec_parse_u32(s@) is Some,
        r matches Some(v) ==> spec_parse_u32(s@) == Some(v as int),
{
    let n = s.unicode_len();
    if n == 0 {
        return None;
    }
    let first = s.get_char(0);
    if first == '-' {
        proof {
            assert(!is_digit_char('-'));
        }
        return None;
    }
    let start: usize = if first == '+' {
        1
    } else {
        0
    };
    let ghost ds = if start == 1 { s@.drop_first() } else { s@ };
    if start >= n {
        return None;
    }
    let limit: u64 = 4294967295u64;
    let mut acc: u64 = 0;
    let mut i: usize = start;
    proof {
        assert(ds.take(0) =~= Seq::<char>::empty());
    }
    while i < n
        invariant
            start <= i <= n,
            n == s@.len(),
            n > 0,
            first == s@[0],
            first != '-',
            (start == 1) == (first == '+'),
            start == 0 || start == 1,
            start == 1 ==> ds == s@.drop_first(),
            start == 0 ==> ds == s@,
            ds.len() == n - start,
            forall|j: int| 0 <= j < ds.len() ==> ds[j] == s@[j + start],
            all_digits(ds.take(i - start)),
            acc == digits_val(ds.take(i - start)),
            acc <= limit,
            limit == 4294967295,
        decreases n - i,
    {
        let c = s.get_char(i);
        if !digit_char(c) {
            proof {
                assert(ds[i - start] == c);
                assert(!all_digits(ds));
            }
            return None;
        }
        let d: u64 = (c as u32 - 48) as u64;
        proof {
            assert(d == digit_val(c));
            assert(ds.take(i - start + 1).drop_last() =~= ds.take(i - start));
            assert(ds.take(i - start + 1).last() == c);
            assert(all_digits(ds.take(i - start + 1)));
        }
        if acc > (limit - d) / 10 {
            proof {
                assert(acc * 10 + d > limit) by (nonlinear_arith)
                    requires
                        acc > (limit - d) / 10,
                        d <= limit,
                        acc >= 0,
                        d >= 0,
                        limit >= 0,
                ;
                if all_digits(ds) {
                    lemma_digits_val_prefix(ds, i - start + 1);
                    assert(digits_val(ds) > limit);
                }
            }
            return None;
        }
        proof {
            assert(acc * 10 + d <= limit) by (nonlinear_arith)
                requires
                    acc <= (limit - d) / 10,
                    d <= limit,
                    acc >= 0,
                    d >= 0,
                    limit >= 0,
            ;
        }
        acc = acc * 10 + d;
        i += 1;
    }
    proof {
        assert(ds.take(i - start) =~= ds);
    }
    Some(acc as u32)
}

// ---------------------------------------------------------------------------
// Joining operand lists for display.
// ---------------------------------------------------------------------------

/// The elements of `ss` joined with a comma and a space between each pair.
pub open spec fn join_comma(ss: Seq<Seq<char>>) -> Seq<char>
    decreases ss.len(),
{
    if ss.len() == 0 {
        Seq::empty()
    } else if ss.len() == 1 {
        ss[0]
    } else {
        join_comma(ss.drop_last()) + seq![',', ' '] + ss.last()
    }
}

/// Joins the strings of `v` with `", "`, as `join` would.
pub fn join_comma_exec(v: &Vec<String>) -> (r: String)
    ensures
        r@ == join_comma(v.deep_view()),
{
    let mut s = String::new();
    let ghost target = v.deep_view();
    for k in 0..v.len()
        invariant
            target == v.deep_view(),
            target.len() == v@.len(),
            s@ == join_comma(target.take(k as int)),
    {
        if k > 0 {
            s.append(", ");
        }
        s.append(v[k].as_str());
        proof {
            reveal_strlit(", ");
            assert(target.take(k + 1).drop_last() =~= target.take(k as int));
            if k == 0 {
                assert(s@ =~= join_comma(target.take(1)));
            } else {
                assert(s@ =~= join_comma(target.take(k as int)) + seq![',', ' ']
                    + target[k as int]);
            }
        }
    }
    proof {
        assert(target.take(v@.len() as int) =~= target);
    }
    s
}

// ---------------------------------------------------------------------------
// Two's-complement views and wrapping arithmetic.
// ---------------------------------------------------------------------------

/// The unsigned 64-bit pattern of a signed value, as the hex formatter
/// renders it.
pub open spec fn i64_bits(v: int) -> int {
    if v >= 0 {
        v
    } else {
        v + 0x10000000000000000
    }
}

/// The 64-bit pattern of `v`, as an unsigned value.
pub fn i64_bits_exec(v: i64) -> (r: u64)
    ensures
        r as int == i64_bits(v as int),
{
    if v >= 0 {
        v as u64
    } else if v == -9223372036854775808i64 {
        9223372036854775808u64
    } else {
        (18446744073709551615u64 - ((-v) as u64)) + 1
    }
}

/// `x` wrapped into the signed 64-bit range.
pub open spec fn wrap_i64(x: int) -> int {
    if x > i64::MAX {
        x - 0x10000000000000000
    } else if x < i64::MIN {
        x + 0x10000000000000000
    } else {
        x
    }
}

/// The wrapping 64-bit sum of `a` and `b`.
pub fn wrap_add(a: i64, b: i64) -> (r: i64)
    ensures
        r as int == wrap_i64(a as int + b as int),
{
    let s: i128 = a as i128 + b as i128;
    if s > 9223372036854775807i128 {
        (s - 18446744073709551616i128) as i64
    } else if s < -9223372036854775808i128 {
        (s + 18446744073709551616i128) as i64
    } else {
        s as i64
    }
}

/// The wrapping 64-bit difference of `a` and `b`.
pub fn wrap_sub(a: i64, b: i64) -> (r: i64)
    ensures
        r as int == wrap_i64(a as int - b as int),
{
    let s: i128 = a as i128 - b as i128;
    if s > 9223372036854775807i128 {
        (s - 18446744073709551616i128) as i64
    } else if s < -9223372036854775808i128 {
        (s + 18446744073709551616i128) as i64
    } else {
        s as i64
    }
}

} // verus!
