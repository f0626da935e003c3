//! The three numeric-literal grammars — integer, float, imaginary — stated
//! as predicates over character sequences, together with executable matchers
//! proved equivalent to them.
//!
//! Every grammar is a whole-string match: the entire text must fit the shape,
//! never just a prefix. Digit runs throughout obey one grouping rule: single
//! underscores may separate digits, but a run never ends on an underscore and
//! never holds two underscores in a row.

use vstd::prelude::*;

verus! {

/// The classes of digit that may fill a grouped digit run.
#[derive(Clone, Copy, Debug)]
pub enum DigitClass {
    /// `0`..`9`
    Decimal,
    /// `0`..`9`, `a`..`f`, `A`..`F`
    Hexadecimal,
    /// `0` or `1`
    Binary,
    /// `0`..`7`
    Octal,
    /// exactly `0` (the all-zero decimal form)
    Zero,
}

/// A decimal digit `0`..`9`.
pub open spec fn is_dec_digit(c: char) -> bool {
    '0' <= c && c <= '9'
}

/// A nonzero decimal digit `1`..`9`.
pub open spec fn is_nonzero_dec_digit(c: char) -> bool {
    '1' <= c && c <= '9'
}

/// A hexadecimal digit, either case.
pub open spec fn is_hex_digit(c: char) -> bool {
    is_dec_digit(c) || ('a' <= c && c <= 'f') || ('A' <= c && c <= 'F')
}

/// A binary digit.
pub open spec fn is_bin_digit(c: char) -> bool {
    c == '0' || c == '1'
}

/// An octal digit `0`..`7`.
pub open spec fn is_oct_digit(c: char) -> bool {
    '0' <= c && c <= '7'
}

/// Whether `c` belongs to the digit class `dc`.
pub open spec fn class_allows(dc: DigitClass, c: char) -> bool {
    match dc {
        DigitClass::Decimal => is_dec_digit(c),
        DigitClass::Hexadecimal => is_hex_digit(c),
        DigitClass::Binary => is_bin_digit(c),
        DigitClass::Octal => is_oct_digit(c),
        DigitClass::Zero => c == '0',
    }
}

/// `s[from..to]` is one or more digits of class `dc`, each optionally
/// preceded by a single underscore. A leading underscore is allowed (such a
/// run always follows a radix tag like `0x`); a trailing or doubled
/// underscore is not, and the run is never empty.
pub open spec fn grouped_tail_range(s: Seq<char>, from: int, to: int, dc: DigitClass) -> bool {
    &&& 0 <= from < to <= s.len()
    &&& class_allows(dc, s[to - 1])
    &&& forall|i: int| #![trigger s[i]] from <= i < to ==> class_allows(dc, s[i]) || s[i] == '_'
    &&& forall|i: int| #![trigger s[i]] from <= i < to - 1 ==> !(s[i] == '_' && s[i + 1] == '_')
}

/// `s[from..to]` is a digit run: it starts and ends on a digit of class
/// `dc`, with single underscores allowed only between digits.
pub open spec fn digit_run_range(s: Seq<char>, from: int, to: int, dc: DigitClass) -> bool {
    grouped_tail_range(s, from, to, dc) && class_allows(dc, s[from])
}

/// A radix-tagged integer: `0`, the tag letter in either case, then a
/// grouped run of digits drawn from `dc`.
pub open spec fn is_radix_integer(s: Seq<char>, lower: char, upper: char, dc: DigitClass) -> bool {
    &&& s.len() >= 2
    &&& s[0] == '0'
    &&& (s[1] == lower || s[1] == upper)
    &&& grouped_tail_range(s, 2, s.len() as int, dc)
}

/// A hexadecimal integer literal such as `0xFF` or `0x_1F`.
pub open spec fn is_hex_integer(s: Seq<char>) -> bool {
    is_radix_integer(s, 'x', 'X', DigitClass::Hexadecimal)
}

/// A binary integer literal such as `0b101`.
pub open spec fn is_binary_integer(s: Seq<char>) -> bool {
    is_radix_integer(s, 'b', 'B', DigitClass::Binary)
}

/// An octal integer literal such as `0o17`.
pub open spec fn is_octal_integer(s: Seq<char>) -> bool {
    is_radix_integer(s, 'o', 'O', DigitClass::Octal)
}

/// A decimal integer literal: either a grouped run of zeros (`0`, `00`,
/// `0_0`), or a nonzero leading digit followed by a grouped run of digits.
pub open spec fn is_decimal_integer(s: Seq<char>) -> bool {
    ||| digit_run_range(s, 0, s.len() as int, DigitClass::Zero)
    ||| (s.len() >= 1 && is_nonzero_dec_digit(s[0]) && grouped_tail_range(
        s,
        0,
        s.len() as int,
        DigitClass::Decimal,
    ))
}

/// The whole integer grammar: hexadecimal, binary, octal or decimal.
pub open spec fn is_integer_text(s: Seq<char>) -> bool {
    is_hex_integer(s) || is_binary_integer(s) || is_octal_integer(s) || is_decimal_integer(s)
}

/// `s[from..to]` is an exponent suffix: `e` or `E`, an optional sign, then a
/// decimal digit run.
pub open spec fn is_exponent_range(s: Seq<char>, from: int, to: int) -> bool {
    &&& 0 <= from && from + 2 <= to <= s.len()
    &&& (s[from] == 'e' || s[from] == 'E')
    &&& if s[from + 1] == '+' || s[from + 1] == '-' {
        digit_run_range(s, from + 2, to, DigitClass::Decimal)
    } else {
        digit_run_range(s, from + 1, to, DigitClass::Decimal)
    }
}

/// `s[from..to]` is a point-float whose decimal point sits at `p`: an
/// optional digit run before the point, an optional digit run after it, and
/// at least one digit overall (`3.14`, `5.`, `.25` — but never a bare `.`).
pub open spec fn point_float_split(s: Seq<char>, from: int, to: int, p: int) -> bool {
    &&& 0 <= from <= p < to <= s.len()
    &&& s[p] == '.'
    &&& (p == from || digit_run_range(s, from, p, DigitClass::Decimal))
    &&& (p + 1 == to || digit_run_range(s, p + 1, to, DigitClass::Decimal))
    &&& !(p == from && p + 1 == to)
}

/// `s[from..to]` is a point-float (no exponent).
pub open spec fn is_point_float_range(s: Seq<char>, from: int, to: int) -> bool {
    exists|p: int| point_float_split(s, from, to, p)
}

/// `s[from..to]` splits at `q` into a mantissa — a point-float or a plain
/// digit run — followed by an exponent suffix.
pub open spec fn mantissa_exponent_split(s: Seq<char>, from: int, to: int, q: int) -> bool {
    &&& from < q < to
    &&& (is_point_float_range(s, from, q) || digit_run_range(s, from, q, DigitClass::Decimal))
    &&& is_exponent_range(s, q, to)
}

/// The whole float grammar over `s[from..to]`: a point-float, optionally
/// with an exponent, or a plain digit run with a mandatory exponent.
pub open spec fn is_float_range(s: Seq<char>, from: int, to: int) -> bool {
    ||| is_point_float_range(s, from, to)
    ||| exists|q: int| mantissa_exponent_split(s, from, to, q)
}

/// The whole float grammar over all of `s`.
pub open spec fn is_float_text(s: Seq<char>) -> bool {
    is_float_range(s, 0, s.len() as int)
}

/// The imaginary grammar: a decimal digit run or any float form, directly
/// followed by `j` or `J`.
pub open spec fn is_imaginary_text(s: Seq<char>) -> bool {
    &&& s.len() >= 1
    &&& (s[s.len() - 1] == 'j' || s[s.len() - 1] == 'J')
    &&& (digit_run_range(s, 0, s.len() - 1, DigitClass::Decimal) || is_float_range(
        s,
        0,
        s.len() - 1,
    ))
}

/// Every character of a point-float is a decimal digit, an underscore or the
/// decimal point.
proof fn lemma_point_float_chars(s: Seq<char>, from: int, to: int, k: int)
    requires
        is_point_float_range(s, from, to),
        from <= k < to,
    ensures
        is_dec_digit(s[k]) || s[k] == '_' || s[k] == '.',
{
    let p = choose|p: int| point_float_split(s, from, to, p);
    if k < p {
        assert(digit_run_range(s, from, p, DigitClass::Decimal));
        assert(class_allows(DigitClass::Decimal, s[k]) || s[k] == '_');
    } else if k > p {
        assert(digit_run_range(s, p + 1, to, DigitClass::Decimal));
        assert(class_allows(DigitClass::Decimal, s[k]) || s[k] == '_');
    }
}

/// Whether `c` belongs to the digit class `dc`.
fn char_in_class(dc: DigitClass, c: char) -> (r: bool)
    ensures
        r == class_allows(dc, c),
{
    match dc {
        DigitClass::Decimal => '0' <= c && c <= '9',
        DigitClass::Hexadecimal => ('0' <= c && c <= '9') || ('a' <= c && c <= 'f') || ('A' <= c
            && c <= 'F'),
        DigitClass::Binary => c == '0' || c == '1',
        DigitClass::Octal => '0' <= c && c <= '7',
        DigitClass::Zero => c == '0',
    }
}

/// Decides `grouped_tail_range` over `s[from..to]` by a single scan.
fn check_grouped_tail(s: &str, from: usize, to: usize, dc: DigitClass) -> (r: bool)
    requires
        from <= to <= s@.len(),
    ensures
        r == grouped_tail_range(s@, from as int, to as int, dc),
{
    if from >= to {
        return false;
    }
    if !char_in_class(dc, s.get_char(to - 1)) {
        return false;
    }
    let mut i: usize = from;
    let mut prev_underscore: bool = false;
    while i < to
        invariant
            from <= i <= to <= s@.len(),
            class_allows(dc, s@[to - 1]),
            forall|j: int| #![trigger s@[j]] from <= j < i ==> class_allows(dc, s@[j]) || s@[j] == '_',
            forall|j: int| #![trigger s@[j]] from <= j < i - 1 ==> !(s@[j] == '_' && s@[j + 1] == '_'),
            prev_underscore == (i > from && s@[i - 1] == '_'),
        decreases to - i,
    {
        let c = s.get_char(i);
        if !char_in_class(dc, c) && c != '_' {
            return false;
        }
        if c == '_' && prev_underscore {
            return false;
        }
        prev_underscore = c == '_';
        i += 1;
    }
    true
}

/// Decides `digit_run_range` over `s[from..to]`.
fn check_digit_run(s: &str, from: usize, to: usize, dc: DigitClass) -> (r: bool)
    requires
        from <= to <= s@.len(),
    ensures
        r == digit_run_range(s@, from as int, to as int, dc),
{
    if from >= to {
        return false;
    }
    char_in_class(dc, s.get_char(from)) && check_grouped_tail(s, from, to, dc)
}

/// Index of the first occurrence of `a` or `b` in `s[from..to]`, if any.
fn find_first(s: &str, from: usize, to: usize, a: char, b: char) -> (r: Option<usize>)
    requires
        from <= to <= s@.len(),
    ensures
        match r {
            Some(p) => {
                &&& from <= p < to
                &&& (s@[p as int] == a || s@[p as int] == b)
                &&& forall|j: int| #![trigger s@[j]] from <= j < p ==> s@[j] != a && s@[j] != b
            },
            None => forall|j: int| #![trigger s@[j]] from <= j < to ==> s@[j] != a && s@[j] != b,
        },
{
    let mut i: usize = from;
    while i < to
        invariant
            from <= i <= to <= s@.len(),
            forall|j: int| #![trigger s@[j]] from <= j < i ==> s@[j] != a && s@[j] != b,
        decreases to - i,
    {
        let c = s.get_char(i);
        if c == a || c == b {
            return Some(i);
        }
        i += 1;
    }
    None
}

/// Decides `is_exponent_range` over `s[from..to]`.
fn check_exponent(s: &str, from: usize, to: usize) -> (r: bool)
    requires
        from <= to <= s@.len(),
    ensures
        r == is_exponent_range(s@, from as int, to as int),
{
    if to - from < 2 {
        return false;
    }
    let c0 = s.get_char(from);
    if !(c0 == 'e' || c0 == 'E') {
        return false;
    }
    let c1 = s.get_char(from + 1);
    if c1 == '+' || c1 == '-' {
        check_digit_run(s, from + 2, to, DigitClass::Decimal)
    } else {
        check_digit_run(s, from + 1, to, DigitClass::Decimal)
    }
}

/// Decides `is_point_float_range` over `s[from..to]`. The decimal point of
/// a point-float can only sit at the first `.` of the range, so one split is
/// enough to try.
fn check_point_float(s: &str, from: usize, to: usize) -> (r: bool)
    requires
        from <= to <= s@.len(),
    ensures
        r == is_point_float_range(s@, from as int, to as int),
{
    match find_first(s, from, to, '.', '.') {
        None => {
            assert(forall|p: int| !point_float_split(s@, from as int, to as int, p));
            false
        },
        Some(p) => {
            let pre_ok = p == from || check_digit_run(s, from, p, DigitClass::Decimal);
            let post_ok = p + 1 == to || check_digit_run(s, p + 1, to, DigitClass::Decimal);
            let r = pre_ok && post_ok && !(p == from && p + 1 == to);
            proof {
                if r {
                    assert(point_float_split(s@, from as int, to as int, p as int));
                } else {
                    assert forall|pp: int| !point_float_split(
                        s@,
                        from as int,
                        to as int,
                        pp,
                    ) by {
                        if point_float_split(s@, from as int, to as int, pp) {
                            // any working split is a dot, and the digit runs
                            // around it hold no dot, so it is the first dot
                            if pp > p {
                                assert(digit_run_range(s@, from as int, pp, DigitClass::Decimal));
                                assert(class_allows(DigitClass::Decimal, s@[p as int]) || s@[p as int]
                                    == '_');
                            }
                            assert(pp == p);
                        }
                    }
                }
            }
            r
        },
    }
}

/// Decides `is_float_range` over `s[from..to]`. An exponent can only start
/// at the first `e`/`E` of the range, and the mantissa's shape is forced by
/// whether a `.` precedes it, so one split is enough to try.
fn check_float(s: &str, from: usize, to: usize) -> (r: bool)
    requires
        from <= to <= s@.len(),
    ensures
        r == is_float_range(s@, from as int, to as int),
{
    match find_first(s, from, to, 'e', 'E') {
        None => {
            let r = check_point_float(s, from, to);
            proof {
                assert forall|q: int| !mantissa_exponent_split(s@, from as int, to as int, q) by {
                    if mantissa_exponent_split(s@, from as int, to as int, q) {
                        assert(s@[q] == 'e' || s@[q] == 'E');
                    }
                }
            }
            r
        },
        Some(ep) => {
            let mantissa_ok = match find_first(s, from, ep, '.', '.') {
                Some(_) => check_point_float(s, from, ep),
                None => check_digit_run(s, from, ep, DigitClass::Decimal),
            };
            let r = mantissa_ok && check_exponent(s, ep, to);
            proof {
                lemma_float_split_at_first_exponent(s@, from as int, to as int, ep as int);
                if r {
                    assert(mantissa_exponent_split(s@, from as int, to as int, ep as int));
                }
            }
            r
        },
    }
}

/// With an `e`/`E` at `ep` and none before it, the float grammar can only be
/// met by a mantissa–exponent split at `ep` exactly; in particular the
/// whole range is not a bare point-float, and any working split sits at
/// `ep`.
proof fn lemma_float_split_at_first_exponent(s: Seq<char>, from: int, to: int, ep: int)
    requires
        from <= ep < to <= s.len(),
        s[ep] == 'e' || s[ep] == 'E',
        forall|j: int| #![trigger s[j]] from <= j < ep ==> s[j] != 'e' && s[j] != 'E',
    ensures
        !is_point_float_range(s, from, to),
        forall|q: int| mantissa_exponent_split(s, from, to, q) ==> q == ep,
{
    if is_point_float_range(s, from, to) {
        lemma_point_float_chars(s, from, to, ep);
        assert(false);
    }
    assert forall|q: int| mantissa_exponent_split(s, from, to, q) implies q == ep by {
        assert(s[q] == 'e' || s[q] == 'E');
        if q > ep {
            if is_point_float_range(s, from, q) {
                lemma_point_float_chars(s, from, q, ep);
            } else {
                assert(digit_run_range(s, from, q, DigitClass::Decimal));
                assert(class_allows(DigitClass::Decimal, s[ep]) || s[ep] == '_');
            }
            assert(false);
        }
    }
}

/// Decides whether the whole of `s` matches the float grammar.
pub fn matches_float(s: &str) -> (r: bool)
    ensures
        r == is_float_text(s@),
{
    let n = s.unicode_len();
    check_float(s, 0, n)
}

/// Decides whether the whole of `s` matches the imaginary grammar.
pub fn matches_imaginary(s: &str) -> (r: bool)
    ensures
        r == is_imaginary_text(s@),
{
    let n = s.unicode_len();
    if n == 0 {
        return false;
    }
    let last = s.get_char(n - 1);
    if !(last == 'j' || last == 'J') {
        return false;
    }
    if check_digit_run(s, 0, n - 1, DigitClass::Decimal) {
        return true;
    }
    check_float(s, 0, n - 1)
}

/// Decides whether the whole of `s` matches the integer grammar.
pub fn matches_integer(s: &str) -> (r: bool)
    ensures
        r == is_integer_text(s@),
{
    let n = s.unicode_len();
    if n >= 2 && s.get_char(0) == '0' {
        let tag = s.get_char(1);
        if tag == 'x' || tag == 'X' {
            return check_grouped_tail(s, 2, n, DigitClass::Hexadecimal);
        }
        if tag == 'b' || tag == 'B' {
            return check_grouped_tail(s, 2, n, DigitClass::Binary);
        }
        if tag == 'o' || tag == 'O' {
            return check_grouped_tail(s, 2, n, DigitClass::Octal);
        }
    }
    if n == 0 {
        return false;
    }
    let first = s.get_char(0);
    if first == '0' {
        check_digit_run(s, 0, n, DigitClass::Zero)
    } else if '1' <= first && first <= '9' {
        check_grouped_tail(s, 0, n, DigitClass::Decimal)
    } else {
        false
    }
}

/// The three literal categories a token can classify into.
#[derive(Clone, Copy, Debug, PartialEq, Eq, Structural)]
pub enum Kind {
    Integer,
    Float,
    Imaginary,
}

/// The category of a token text: the first grammar it matches, in the fixed
/// priority order integer, float, imaginary — and Integer as the fallback
/// when none matches.
pub open spec fn classification(s: Seq<char>) -> Kind {
    if is_integer_text(s) {
        Kind::Integer
    } else if is_float_text(s) {
        Kind::Float
    } else if is_imaginary_text(s) {
        Kind::Imaginary
    } else {
        Kind::Integer
    }
}

/// Decides the category of a token text.
pub fn classify(s: &str) -> (k: Kind)
    ensures
        k == classification(s@),
{
    if matches_integer(s) {
        Kind::Integer
    } else if matches_float(s) {
        Kind::Float
    } else if matches_imaginary(s) {
        Kind::Imaginary
    } else {
        Kind::Integer
    }
}

/// Every character of an integer literal: never a `.` or a `j`/`J`, and in
/// the decimal forms only digits and underscores.
proof fn integer_char_facts(s: Seq<char>, k: int)
    requires
        is_integer_text(s),
        0 <= k < s.len(),
    ensures
        s[k] != '.',
        s[k] != 'j' && s[k] != 'J',
        is_decimal_integer(s) ==> (is_dec_digit(s[k]) || s[k] == '_'),
{
    if is_hex_integer(s) {
        if k >= 2 {
            assert(is_hex_digit(s[k]) || s[k] == '_');
        }
    } else if is_binary_integer(s) {
        if k >= 2 {
            assert(is_bin_digit(s[k]) || s[k] == '_');
        }
    } else if is_octal_integer(s) {
        if k >= 2 {
            assert(is_oct_digit(s[k]) || s[k] == '_');
        }
    } else {
        assert(s[k] == '0' || s[k] == '_' || is_dec_digit(s[k]));
    }
}

/// A float never ends in `j` or `J`: it ends on a digit or on the decimal
/// point.
proof fn float_last_char_facts(s: Seq<char>, from: int, to: int)
    requires
        is_float_range(s, from, to),
        0 <= from < to <= s.len(),
    ensures
        s[to - 1] != 'j' && s[to - 1] != 'J',
{
    if is_point_float_range(s, from, to) {
        lemma_point_float_chars(s, from, to, to - 1);
    } else {
        let q = choose|q: int| mantissa_exponent_split(s, from, to, q);
        assert(is_exponent_range(s, q, to));
        assert(class_allows(DigitClass::Decimal, s[to - 1]));
    }
}

/// No text matches both the integer and the float grammar: a float always
/// holds a decimal point or an exponent, and no integer form has room for
/// either.
proof fn lemma_integer_float_exclusive(s: Seq<char>)
    ensures
        !(is_integer_text(s) && is_float_text(s)),
{
    if is_integer_text(s) && is_float_text(s) {
        let n = s.len() as int;
        if is_point_float_range(s, 0, n) {
            let p = choose|p: int| point_float_split(s, 0, n, p);
            integer_char_facts(s, p);
            assert(false);
        } else {
            let q = choose|q: int| mantissa_exponent_split(s, 0, n, q);
            assert(s[q] == 'e' || s[q] == 'E');
            if is_decimal_integer(s) {
                integer_char_facts(s, q);
            } else {
                // radix-tagged: the tag letter at index 1 is neither a
                // valid exponent start nor a valid mantissa character
                if q > 1 {
                    if is_point_float_range(s, 0, q) {
                        lemma_point_float_chars(s, 0, q, 1);
                    } else {
                        assert(digit_run_range(s, 0, q, DigitClass::Decimal));
                        assert(is_dec_digit(s[1]) || s[1] == '_');
                    }
                }
            }
            assert(false);
        }
    }
}

/// No text matches both the integer and the imaginary grammar: an integer
/// ends on a digit, an imaginary on `j`/`J`.
proof fn lemma_integer_imaginary_exclusive(s: Seq<char>)
    ensures
        !(is_integer_text(s) && is_imaginary_text(s)),
{
    if is_integer_text(s) && is_imaginary_text(s) {
        integer_char_facts(s, s.len() - 1);
    }
}

/// No text matches both the float and the imaginary grammar: a float ends
/// on a digit or the decimal point, an imaginary on `j`/`J`.
proof fn lemma_float_imaginary_exclusive(s: Seq<char>)
    ensures
        !(is_float_text(s) && is_imaginary_text(s)),
{
    if is_float_text(s) && is_imaginary_text(s) {
        float_last_char_facts(s, 0, s.len() as int);
    }
}

/// The three grammars are mutually exclusive: no text matches more than one
/// of them, so the priority order of `classification` never actually has to
/// break a tie on well-formed input.
pub proof fn lemma_grammars_mutually_exclusive(s: Seq<char>)
    ensures
        !(is_integer_text(s) && is_float_text(s)),
        !(is_integer_text(s) && is_imaginary_text(s)),
        !(is_float_text(s) && is_imaginary_text(s)),
{
    lemma_integer_float_exclusive(s);
    lemma_integer_imaginary_exclusive(s);
    lemma_float_imaginary_exclusive(s);
}

/// Classification takes the first matching grammar in the priority order
/// integer, float, imaginary.
pub proof fn lemma_priority_order(s: Seq<char>)
    ensures
        is_integer_text(s) ==> classification(s) == Kind::Integer,
        !is_integer_text(s) && is_float_text(s) ==> classification(s) == Kind::Float,
        (!is_integer_text(s) && !is_float_text(s) && is_imaginary_text(s)) ==> classification(s)
            == Kind::Imaginary,
{
}

/// Every valid decimal integer, grouped or not, classifies as Integer.
pub proof fn lemma_decimal_classifies_integer(s: Seq<char>)
    requires
        is_decimal_integer(s),
    ensures
        classification(s) == Kind::Integer,
{
}

/// Every hexadecimal, binary or octal form classifies as Integer.
pub proof fn lemma_radix_classifies_integer(s: Seq<char>)
    requires
        is_hex_integer(s) || is_binary_integer(s) || is_octal_integer(s),
    ensures
        classification(s) == Kind::Integer,
{
}

/// A point-float — `3.14`, `.5`, `5.` — with or without an exponent suffix.
pub open spec fn is_point_float_form(s: Seq<char>) -> bool {
    ||| is_point_float_range(s, 0, s.len() as int)
    ||| exists|q: int|
        #[trigger] mantissa_exponent_split(s, 0, s.len() as int, q) && is_point_float_range(
            s,
            0,
            q,
        )
}

/// An exponent-float — a digit run with no decimal point and a mandatory
/// exponent suffix, such as `5e10` or `5E+3`.
pub open spec fn is_exponent_float_form(s: Seq<char>) -> bool {
    exists|q: int|
        #[trigger] mantissa_exponent_split(s, 0, s.len() as int, q) && digit_run_range(
            s,
            0,
            q,
            DigitClass::Decimal,
        )
}

/// Every point-float form, with or without exponent, classifies as Float.
pub proof fn lemma_point_float_classifies_float(s: Seq<char>)
    requires
        is_point_float_form(s),
    ensures
        classification(s) == Kind::Float,
{
    lemma_integer_float_exclusive(s);
}

/// Every exponent-only float form, with no decimal point, classifies as
/// Float.
pub proof fn lemma_exponent_float_classifies_float(s: Seq<char>)
    requires
        is_exponent_float_form(s),
    ensures
        classification(s) == Kind::Float,
{
    lemma_integer_float_exclusive(s);
}

/// Every text whose prefix before a final `j`/`J` is a digit run or a float
/// form classifies as Imaginary.
pub proof fn lemma_imaginary_classifies_imaginary(s: Seq<char>)
    requires
        is_imaginary_text(s),
    ensures
        classification(s) == Kind::Imaginary,
{
    lemma_integer_imaginary_exclusive(s);
    lemma_float_imaginary_exclusive(s);
}

/// Text matching none of the three grammars still classifies — as Integer,
/// the silent fallback.
pub proof fn lemma_fallback_classifies_integer(s: Seq<char>)
    requires
        !is_integer_text(s),
        !is_float_text(s),
        !is_imaginary_text(s),
    ensures
        classification(s) == Kind::Integer,
{
}

} // verus!
