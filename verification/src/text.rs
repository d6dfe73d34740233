//! Character-level helpers shared by the decoders and the page scanner.
//!
//! Every text is modelled as its sequence of characters, `Seq<char>`. The
//! functions here search such sequences and read numbers and flags out of
//! them.

use vstd::prelude::*;

verus! {

/// `needle` stands in `hay` at index `i`.
pub open spec fn occurs_at(hay: Seq<char>, needle: Seq<char>, i: int) -> bool {
    &&& 0 <= i
    &&& i + needle.len() <= hay.len()
    &&& hay.subrange(i, i + needle.len()) == needle
}

/// `needle` stands somewhere in `hay`.
pub open spec fn occurs(hay: Seq<char>, needle: Seq<char>) -> bool {
    exists|i: int| occurs_at(hay, needle, i)
}

/// `i` is the leftmost index at which `needle` stands in `hay`.
pub open spec fn is_first_occurrence(hay: Seq<char>, needle: Seq<char>, i: int) -> bool {
    &&& occurs_at(hay, needle, i)
    &&& forall|j: int| 0 <= j < i ==> !occurs_at(hay, needle, j)
}

/// The leftmost index at which `needle` stands in `hay`, if it stands there at all.
pub open spec fn first_occurrence(hay: Seq<char>, needle: Seq<char>) -> Option<int> {
    if occurs(hay, needle) {
        Some(choose|i: int| is_first_occurrence(hay, needle, i))
    } else {
        None
    }
}

/// A leftmost occurrence is the one that `first_occurrence` names.
pub proof fn lemma_first_occurrence(hay: Seq<char>, needle: Seq<char>, i: int)
    requires
        is_first_occurrence(hay, needle, i),
    ensures
        first_occurrence(hay, needle) == Some(i),
{
    assert(occurs_at(hay, needle, i));
    let k = choose|k: int| is_first_occurrence(hay, needle, k);
    assert(is_first_occurrence(hay, needle, k));
    if k < i {
        assert(!occurs_at(hay, needle, k));
    }
    if i < k {
        assert(!occurs_at(hay, needle, i));
    }
}

/// Where nothing occurs, `first_occurrence` names nothing.
pub proof fn lemma_no_occurrence(hay: Seq<char>, needle: Seq<char>)
    requires
        forall|j: int| 0 <= j ==> !occurs_at(hay, needle, j),
    ensures
        first_occurrence(hay, needle) is None,
{
}

/// An occurrence in the part of `hay` that starts at `from` is an occurrence in `hay`.
pub proof fn lemma_occurs_at_skip(hay: Seq<char>, needle: Seq<char>, from: int, k: int)
    requires
        0 <= from <= hay.len(),
        0 <= k,
    ensures
        occurs_at(hay.skip(from), needle, k) == occurs_at(hay, needle, from + k),
{
    if k + needle.len() <= hay.len() - from {
        assert(hay.skip(from).subrange(k, k + needle.len()) =~= hay.subrange(
            from + k,
            from + k + needle.len(),
        ));
    }
}

/// The characters of `s`, in order.
pub fn chars_of(s: &str) -> (out: Vec<char>)
    ensures
        out@ == s@,
{
    let mut out: Vec<char> = Vec::new();
    for c in it: s.chars()
        invariant
            out@ == it.seq().take(it.index()),
            it.seq() == s@,
    {
        out.push(c);
    }
    out
}

/// Whether two texts hold the same characters.
pub fn same_text(a: &str, b: &str) -> (r: bool)
    ensures
        r == (a@ == b@),
{
    let x = chars_of(a);
    let y = chars_of(b);
    if x.len() != y.len() {
        return false;
    }
    let mut i: usize = 0;
    while i < x.len()
        invariant
            x@ == a@,
            y@ == b@,
            x.len() == y.len(),
            i <= x.len(),
            x@.take(i as int) == y@.take(i as int),
        decreases x.len() - i,
    {
        if x[i] != y[i] {
            return false;
        }
        assert(x@.take(i + 1) =~= x@.take(i as int).push(x@[i as int]));
        assert(y@.take(i + 1) =~= y@.take(i as int).push(y@[i as int]));
        i += 1;
    }
    assert(x@ =~= x@.take(x.len() as int));
    assert(y@ =~= y@.take(y.len() as int));
    true
}

/// Whether `needle` stands in `hay` at index `i`.
pub fn stands_at(hay: &Vec<char>, needle: &Vec<char>, i: usize) -> (r: bool)
    ensures
        r == occurs_at(hay@, needle@, i as int),
{
    if needle.len() > hay.len() || i > hay.len() - needle.len() {
        return false;
    }
    let mut k: usize = 0;
    while k < needle.len()
        invariant
            i + needle.len() <= hay.len(),
            k <= needle.len(),
            hay@.subrange(i as int, i + k) == needle@.take(k as int),
        decreases needle.len() - k,
    {
        if hay[i + k] != needle[k] {
            assert(hay@.subrange(i as int, i + needle.len())[k as int] != needle@[k as int]);
            return false;
        }
        assert(hay@.subrange(i as int, i + k + 1) =~= hay@.subrange(i as int, i + k).push(
            hay@[i + k],
        ));
        assert(needle@.take(k + 1) =~= needle@.take(k as int).push(needle@[k as int]));
        k += 1;
    }
    assert(needle@ =~= needle@.take(needle.len() as int));
    true
}

/// The leftmost index at or after `from` at which `needle` stands in `hay`.
///
/// The result counts from the start of `hay`; the search sees only the part of
/// `hay` that starts at `from`.
pub fn find_text(hay: &Vec<char>, needle: &Vec<char>, from: usize) -> (r: Option<usize>)
    requires
        from <= hay.len(),
    ensures
        match r {
            Some(i) => from <= i && i + needle.len() <= hay.len() && first_occurrence(
                hay@.skip(from as int),
                needle@,
            ) == Some(i - from),
            None => first_occurrence(hay@.skip(from as int), needle@) is None,
        },
{
    let ghost rest = hay@.skip(from as int);
    let mut i: usize = from;
    while i < hay.len()
        invariant
            from <= i <= hay.len(),
            rest == hay@.skip(from as int),
            forall|j: int| 0 <= j < i - from ==> !occurs_at(rest, needle@, j),
        decreases hay.len() - i,
    {
        proof {
            lemma_occurs_at_skip(hay@, needle@, from as int, i - from);
        }
        if stands_at(hay, needle, i) {
            proof {
                lemma_first_occurrence(rest, needle@, i - from);
            }
            return Some(i);
        }
        i += 1;
    }
    proof {
        lemma_occurs_at_skip(hay@, needle@, from as int, i - from);
    }
    if stands_at(hay, needle, i) {
        proof {
            lemma_first_occurrence(rest, needle@, i - from);
        }
        return Some(i);
    }
    proof {
        lemma_no_occurrence(rest, needle@);
    }
    None
}

/// Whether `needle` stands somewhere in `hay`.
pub fn contains_text(hay: &Vec<char>, needle: &Vec<char>) -> (r: bool)
    ensures
        r == occurs(hay@, needle@),
{
    let found = find_text(hay, needle, 0);
    assert(hay@.skip(0) =~= hay@);
    found.is_some()
}

/// A decimal digit.
pub open spec fn is_digit(c: char) -> bool {
    '0' <= c <= '9'
}

/// The number that a decimal digit stands for.
pub open spec fn digit_of(c: char) -> nat {
    (c as int - '0' as int) as nat
}

/// Every character of `s` is a decimal digit.
pub open spec fn all_digits(s: Seq<char>) -> bool {
    forall|i: int| 0 <= i < s.len() ==> is_digit(#[trigger] s[i])
}

/// The number that a run of decimal digits stands for.
pub open spec fn digits_value(s: Seq<char>) -> nat
    decreases s.len(),
{
    if s.len() == 0 {
        0
    } else {
        digits_value(s.drop_last()) * 10 + digit_of(s.last())
    }
}

/// The digits of an unsigned number: what follows an optional `+`.
pub open spec fn unsigned_digits(s: Seq<char>) -> Seq<char> {
    if s.len() > 0 && s[0] == '+' {
        s.skip(1)
    } else {
        s
    }
}

/// The unsigned number that `s` spells, if it spells one and that is at most `max`.
///
/// The spelling is an optional `+` and one or more decimal digits, with
/// nothing before, between or after them.
pub open spec fn parse_unsigned(s: Seq<char>, max: nat) -> Option<nat> {
    let digits = unsigned_digits(s);
    if digits.len() > 0 && all_digits(digits) && digits_value(digits) <= max {
        Some(digits_value(digits))
    } else {
        None
    }
}

/// A run of digits is worth at least as much as each of its beginnings.
pub proof fn lemma_digits_value_grows(s: Seq<char>, n: int)
    requires
        0 <= n <= s.len(),
    ensures
        digits_value(s.take(n)) <= digits_value(s),
    decreases s.len() - n,
{
    if n == s.len() {
        assert(s.take(n) =~= s);
    } else {
        lemma_digits_value_grows(s, n + 1);
        assert(s.take(n + 1).drop_last() =~= s.take(n));
        assert(digits_value(s.take(n + 1)) >= digits_value(s.take(n)) * 10) by (nonlinear_arith)
            requires
                digits_value(s.take(n + 1)) == digits_value(s.take(n)) * 10 + digit_of(
                    s.take(n + 1).last(),
                ),
        ;
    }
}

/// Reads an unsigned number of at most `max` out of `chars`.
fn read_unsigned(chars: &Vec<char>, max: u64) -> (r: Option<u64>)
    requires
        max <= u32::MAX,
    ensures
        match parse_unsigned(chars@, max as nat) {
            Some(n) => r == Some(n as u64),
            None => r is None,
        },
{
    let start: usize = if chars.len() > 0 && chars[0] == '+' {
        1
    } else {
        0
    };
    let ghost digits = unsigned_digits(chars@);
    assert(digits =~= chars@.skip(start as int));
    if start == chars.len() {
        return None;
    }
    let mut value: u64 = 0;
    let mut i: usize = start;
    assert(digits.take(0) =~= Seq::empty());
    while i < chars.len()
        invariant
            start <= i <= chars.len(),
            digits == chars@.skip(start as int),
            digits == unsigned_digits(chars@),
            digits.len() > 0,
            max <= u32::MAX,
            all_digits(digits.take(i - start)),
            value == digits_value(digits.take(i - start)),
            value <= max,
        decreases chars.len() - i,
    {
        let c = chars[i];
        assert(digits[i - start] == c);
        if !('0' <= c && c <= '9') {
            assert(!is_digit(digits[i - start]));
            return None;
        }
        let d: u64 = (c as u32 - '0' as u32) as u64;
        let next: u64 = value * 10 + d;
        proof {
            let longer = digits.take(i - start + 1);
            assert(longer.drop_last() =~= digits.take(i - start));
            assert(longer.last() == c);
            assert(digits_value(longer) == next);
            assert forall|j: int| 0 <= j < longer.len() implies is_digit(#[trigger] longer[j]) by {
                if j < longer.len() - 1 {
                    assert(longer[j] == digits.take(i - start)[j]);
                }
            }
        }
        if next > max {
            proof {
                lemma_digits_value_grows(digits, i - start + 1);
            }
            return None;
        }
        value = next;
        i += 1;
    }
    assert(digits.take(digits.len() as int) =~= digits);
    Some(value)
}

/// Reads a `u32` out of `s`: an optional `+` and decimal digits.
pub fn parse_u32(s: &str) -> (r: Option<u32>)
    ensures
        match parse_unsigned(s@, u32::MAX as nat) {
            Some(n) => r == Some(n as u32),
            None => r is None,
        },
{
    let chars = chars_of(s);
    match read_unsigned(&chars, u32::MAX as u64) {
        Some(n) => Some(n as u32),
        None => None,
    }
}

/// Reads a `u8` out of `s`: an optional `+` and decimal digits.
pub fn parse_u8(s: &str) -> (r: Option<u8>)
    ensures
        match parse_unsigned(s@, u8::MAX as nat) {
            Some(n) => r == Some(n as u8),
            None => r is None,
        },
{
    let chars = chars_of(s);
    match read_unsigned(&chars, u8::MAX as u64) {
        Some(n) => Some(n as u8),
        None => None,
    }
}

/// The flag that `s` spells, if it spells one.
///
/// `true`, `1`, `True`, `TRUE`, `t`, `Yes`, `YES`, `yes` and `y` spell a set
/// flag; `false`, `0`, `False`, `FALSE`, `f`, `No`, `NO`, `no` and `n` spell
/// a cleared one.
pub open spec fn parse_flag(s: Seq<char>) -> Option<bool> {
    if s == "true"@ || s == "1"@ || s == "True"@ || s == "TRUE"@ || s == "t"@ || s == "Yes"@ || s
        == "YES"@ || s == "yes"@ || s == "y"@ {
        Some(true)
    } else if s == "false"@ || s == "0"@ || s == "False"@ || s == "FALSE"@ || s == "f"@ || s
        == "No"@ || s == "NO"@ || s == "no"@ || s == "n"@ {
        Some(false)
    } else {
        None
    }
}

/// Reads a flag out of `s`.
pub fn parse_bool(s: &str) -> (r: Option<bool>)
    ensures
        r == parse_flag(s@),
{
    if same_text(s, "true") || same_text(s, "1") || same_text(s, "True") || same_text(s, "TRUE")
        || same_text(s, "t") || same_text(s, "Yes") || same_text(s, "YES") || same_text(s, "yes")
        || same_text(s, "y") {
        Some(true)
    } else if same_text(s, "false") || same_text(s, "0") || same_text(s, "False") || same_text(
        s,
        "FALSE",
    ) || same_text(s, "f") || same_text(s, "No") || same_text(s, "NO") || same_text(s, "no")
        || same_text(s, "n") {
        Some(false)
    } else {
        None
    }
}

/// `s` spells a word, each letter in either case: `lower` holds the word in
/// small letters and `upper` in capitals.
pub open spec fn spells(s: Seq<char>, lower: Seq<char>, upper: Seq<char>) -> bool {
    &&& s.len() == lower.len()
    &&& s.len() == upper.len()
    &&& forall|i: int| 0 <= i < s.len() ==> s[i] == lower[i] || s[i] == upper[i]
}

/// The index at which the run of digits that starts at `from` ends.
pub open spec fn digit_run_end(s: Seq<char>, from: int) -> int
    decreases s.len() - from,
{
    if 0 <= from < s.len() && is_digit(s[from]) {
        digit_run_end(s, from + 1)
    } else {
        from
    }
}

/// An exponent: `e` or `E`, an optional sign, and one or more digits.
pub open spec fn is_exponent(s: Seq<char>) -> bool {
    &&& s.len() >= 2
    &&& (s[0] == 'e' || s[0] == 'E')
    &&& {
        let digits = if s[1] == '+' || s[1] == '-' {
            s.skip(2)
        } else {
            s.skip(1)
        };
        digits.len() > 0 && all_digits(digits)
    }
}

/// A decimal number: digits with at most one point among them, at least one
/// digit in all, and an optional exponent behind them.
pub open spec fn is_decimal_number(s: Seq<char>) -> bool {
    let whole_end = digit_run_end(s, 0);
    let fraction_start = if whole_end < s.len() && s[whole_end] == '.' {
        whole_end + 1
    } else {
        whole_end
    };
    let fraction_end = digit_run_end(s, fraction_start);
    &&& whole_end + (fraction_end - fraction_start) >= 1
    &&& (fraction_end == s.len() || is_exponent(s.skip(fraction_end)))
}

/// What follows an optional sign.
pub open spec fn unsigned_part(s: Seq<char>) -> Seq<char> {
    if s.len() > 0 && (s[0] == '+' || s[0] == '-') {
        s.skip(1)
    } else {
        s
    }
}

/// The spelling of a floating-point number: an optional sign before `inf`,
/// `infinity` or `nan` in either case, or before a decimal number. No blank
/// may stand anywhere in it.
pub open spec fn is_float_literal(s: Seq<char>) -> bool {
    let body = unsigned_part(s);
    ||| spells(body, "inf"@, "INF"@)
    ||| spells(body, "infinity"@, "INFINITY"@)
    ||| spells(body, "nan"@, "NAN"@)
    ||| is_decimal_number(body)
}

/// Whether `chars[from..]` spells a word in either case.
fn spells_word(chars: &Vec<char>, from: usize, lower: &str, upper: &str) -> (r: bool)
    requires
        from <= chars.len(),
    ensures
        r == spells(chars@.skip(from as int), lower@, upper@),
{
    let lo = chars_of(lower);
    let up = chars_of(upper);
    let n = chars.len() - from;
    if n != lo.len() || n != up.len() {
        return false;
    }
    let ghost s = chars@.skip(from as int);
    let mut i: usize = 0;
    while i < n
        invariant
            i <= n,
            from + n == chars.len(),
            n == lo.len(),
            n == up.len(),
            s == chars@.skip(from as int),
            lo@ == lower@,
            up@ == upper@,
            forall|j: int| 0 <= j < i ==> s[j] == lo@[j] || s[j] == up@[j],
        decreases n - i,
    {
        let c = chars[from + i];
        assert(s[i as int] == c);
        if c != lo[i] && c != up[i] {
            return false;
        }
        i += 1;
    }
    true
}

/// The index at which the run of digits that starts at `from` ends.
fn skip_digits(chars: &Vec<char>, from: usize) -> (end: usize)
    requires
        from <= chars.len(),
    ensures
        from <= end <= chars.len(),
        end == digit_run_end(chars@, from as int),
        forall|j: int| from <= j < end ==> is_digit(#[trigger] chars@[j]),
        end < chars.len() ==> !is_digit(chars@[end as int]),
{
    let mut i: usize = from;
    while i < chars.len() && '0' <= chars[i] && chars[i] <= '9'
        invariant
            from <= i <= chars.len(),
            digit_run_end(chars@, from as int) == digit_run_end(chars@, i as int),
            forall|j: int| from <= j < i ==> is_digit(#[trigger] chars@[j]),
        decreases chars.len() - i,
    {
        i += 1;
    }
    i
}

/// Moving the start of a text does not move where a run of digits ends.
pub proof fn lemma_digit_run_skip(s: Seq<char>, start: int, from: int)
    requires
        0 <= start <= s.len(),
        0 <= from,
    ensures
        digit_run_end(s.skip(start), from) + start == digit_run_end(s, start + from),
    decreases s.len() - start - from,
{
    if from < s.len() - start && is_digit(s[start + from]) {
        assert(s.skip(start)[from] == s[start + from]);
        lemma_digit_run_skip(s, start, from + 1);
    }
}

/// Whether `chars[from..]` is an exponent.
fn exponent_at(chars: &Vec<char>, from: usize) -> (r: bool)
    requires
        from <= chars.len(),
    ensures
        r == is_exponent(chars@.skip(from as int)),
{
    let ghost tail = chars@.skip(from as int);
    if chars.len() - from < 2 {
        return false;
    }
    let mark = chars[from];
    let sign = chars[from + 1];
    assert(tail[0] == mark && tail[1] == sign);
    if mark != 'e' && mark != 'E' {
        return false;
    }
    let digits_start: usize = if sign == '+' || sign == '-' {
        from + 2
    } else {
        from + 1
    };
    let ghost digits = if sign == '+' || sign == '-' {
        tail.skip(2)
    } else {
        tail.skip(1)
    };
    assert(digits =~= chars@.skip(digits_start as int));
    let digits_end = skip_digits(chars, digits_start);
    if digits_start == chars.len() {
        return false;
    }
    if digits_end == chars.len() {
        assert forall|j: int| 0 <= j < digits.len() implies is_digit(#[trigger] digits[j]) by {
            assert(digits[j] == chars@[digits_start + j]);
        }
        true
    } else {
        assert(digits[digits_end - digits_start] == chars@[digits_end as int]);
        false
    }
}

/// Whether `chars[start..]` is a decimal number.
fn decimal_number_at(chars: &Vec<char>, start: usize) -> (r: bool)
    requires
        start <= chars.len(),
    ensures
        r == is_decimal_number(chars@.skip(start as int)),
{
    let ghost body = chars@.skip(start as int);
    let whole_end = skip_digits(chars, start);
    let fraction_start: usize = if whole_end < chars.len() && chars[whole_end] == '.' {
        whole_end + 1
    } else {
        whole_end
    };
    let fraction_end = skip_digits(chars, fraction_start);
    proof {
        lemma_digit_run_skip(chars@, start as int, 0);
        lemma_digit_run_skip(chars@, start as int, fraction_start - start);
        if whole_end < chars.len() {
            assert(body[whole_end - start] == chars@[whole_end as int]);
        }
        assert(body.skip(fraction_end - start) =~= chars@.skip(fraction_end as int));
    }
    if (whole_end - start) + (fraction_end - fraction_start) < 1 {
        return false;
    }
    if fraction_end == chars.len() {
        return true;
    }
    exponent_at(chars, fraction_end)
}

/// Whether `s` spells a floating-point number.
pub fn float_literal(s: &str) -> (r: bool)
    ensures
        r == is_float_literal(s@),
{
    let chars = chars_of(s);
    let start: usize = if chars.len() > 0 && (chars[0] == '+' || chars[0] == '-') {
        1
    } else {
        0
    };
    assert(unsigned_part(chars@) =~= chars@.skip(start as int));
    spells_word(&chars, start, "inf", "INF") || spells_word(&chars, start, "infinity", "INFINITY")
        || spells_word(&chars, start, "nan", "NAN") || decimal_number_at(&chars, start)
}

} // verus!
