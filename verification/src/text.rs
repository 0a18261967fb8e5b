//! Character-level helpers over `&str` used by the name and path checks.

use vstd::prelude::*;
use vstd::std_specs::iter::IteratorSpec;

verus! {

broadcast use vstd::string::group_string_axioms;

/// The characters of `s`, in order.
pub fn str_chars(s: &str) -> (v: Vec<char>)
    ensures
        v@ == s@,
{
    let mut out: Vec<char> = Vec::new();
    let mut it = s.chars();
    loop
        invariant_except_break
            out@ + it.remaining() == s@,
            it.decrease() is Some,
        ensures
            out@ == s@,
        decreases it.decrease()->0,
    {
        match it.next() {
            Some(c) => {
                out.push(c);
            },
            None => {
                assert(out@ =~= s@);
                break ;
            },
        }
    }
    out
}

/// `s` begins with `p`.
pub open spec fn starts_with(s: Seq<char>, p: Seq<char>) -> bool {
    p.len() <= s.len() && s.take(p.len() as int) == p
}

/// `s` ends with `p`.
pub open spec fn ends_with(s: Seq<char>, p: Seq<char>) -> bool {
    p.len() <= s.len() && s.skip(s.len() - p.len()) == p
}

/// Whether `v[at..]` begins with `p`.
pub fn chars_match_at(v: &Vec<char>, at: usize, p: &[char]) -> (r: bool)
    requires
        at <= v@.len(),
    ensures
        r == (at + p@.len() <= v@.len() && v@.subrange(at as int, at + p@.len()) == p@),
{
    if p.len() > v.len() - at {
        return false;
    }
    let mut i: usize = 0;
    while i < p.len()
        invariant
            i <= p@.len(),
            at + p@.len() <= v@.len(),
            v@.len() <= usize::MAX,
            forall|j: int| 0 <= j < i ==> v@[at + j] == p@[j],
        decreases p@.len() - i,
    {
        if v[at + i] != p[i] {
            assert(v@.subrange(at as int, at + p@.len())[i as int] != p@[i as int]);
            return false;
        }
        i = i + 1;
    }
    assert(v@.subrange(at as int, at + p@.len()) =~= p@);
    true
}

/// Whether `v` begins with `p`.
pub fn chars_start_with(v: &Vec<char>, p: &[char]) -> (r: bool)
    ensures
        r == starts_with(v@, p@),
{
    chars_match_at(v, 0, p)
}

/// Whether `v` ends with `p`.
pub fn chars_end_with(v: &Vec<char>, p: &[char]) -> (r: bool)
    ensures
        r == ends_with(v@, p@),
{
    if p.len() > v.len() {
        return false;
    }
    let r = chars_match_at(v, v.len() - p.len(), p);
    assert(v@.skip(v@.len() - p@.len()) =~= v@.subrange(v@.len() - p@.len(), v@.len() as int));
    r
}

/// Whether `c` occurs in `v`.
pub fn chars_contain(v: &Vec<char>, c: char) -> (r: bool)
    ensures
        r == v@.contains(c),
{
    let mut i: usize = 0;
    while i < v.len()
        invariant
            i <= v@.len(),
            forall|j: int| 0 <= j < i ==> v@[j] != c,
        decreases v@.len() - i,
    {
        if v[i] == c {
            return true;
        }
        i = i + 1;
    }
    false
}

/// `String::push` appends one character.
pub assume_specification[ String::push ](s: &mut String, ch: char)
    ensures
        final(s)@ == old(s)@.push(ch),
;

/// A `String` holding exactly the characters of `v`.
pub fn string_from_chars(v: &Vec<char>) -> (s: String)
    ensures
        s@ == v@,
{
    let mut s = String::new();
    let mut i: usize = 0;
    while i < v.len()
        invariant
            i <= v@.len(),
            s@ == v@.take(i as int),
        decreases v@.len() - i,
    {
        s.push(v[i]);
        assert(v@.take(i + 1) =~= v@.take(i as int).push(v@[i as int]));
        i = i + 1;
    }
    assert(v@.take(v@.len() as int) =~= v@);
    s
}

/// The characters `v[from..to]` as a new vector.
pub fn chars_slice(v: &Vec<char>, from: usize, to: usize) -> (r: Vec<char>)
    requires
        from <= to <= v@.len(),
    ensures
        r@ == v@.subrange(from as int, to as int),
{
    let mut r: Vec<char> = Vec::new();
    let mut i = from;
    while i < to
        invariant
            from <= i <= to,
            to <= v@.len(),
            r@ == v@.subrange(from as int, i as int),
        decreases to - i,
    {
        r.push(v[i]);
        assert(v@.subrange(from as int, i + 1) =~= v@.subrange(from as int, i as int).push(v@[i as int]));
        i = i + 1;
    }
    r
}

/// Whether two character sequences are equal.
pub fn chars_equal(a: &Vec<char>, b: &[char]) -> (r: bool)
    ensures
        r == (a@ == b@),
{
    if a.len() != b.len() {
        return false;
    }
    let r = chars_match_at(a, 0, b);
    assert(a@.subrange(0, b@.len() as int) =~= a@);
    r
}

/// The `sep`-separated fields of `s`, in order (an empty input has one empty field).
pub open spec fn split_on(s: Seq<char>, sep: char) -> Seq<Seq<char>>
    decreases s.len(),
{
    if s.len() == 0 {
        seq![Seq::<char>::empty()]
    } else {
        let rest = split_on(s.drop_last(), sep);
        if s.last() == sep {
            rest.push(Seq::<char>::empty())
        } else {
            rest.update(rest.len() - 1, rest.last().push(s.last()))
        }
    }
}

/// Splitting always yields at least one field.
pub proof fn lemma_split_nonempty(s: Seq<char>, sep: char)
    ensures
        split_on(s, sep).len() >= 1,
    decreases s.len(),
{
    if s.len() > 0 {
        lemma_split_nonempty(s.drop_last(), sep);
    }
}

/// Append every character of `p` to `v`.
pub fn push_all(v: &mut Vec<char>, p: &[char])
    ensures
        final(v)@ == old(v)@ + p@,
{
    let mut i: usize = 0;
    while i < p.len()
        invariant
            i <= p@.len(),
            v@ == old(v)@ + p@.take(i as int),
        decreases p@.len() - i,
    {
        v.push(p[i]);
        assert(p@.take(i + 1) =~= p@.take(i as int).push(p@[i as int]));
        i = i + 1;
    }
    assert(p@.take(p@.len() as int) =~= p@);
}

/// The characters of an optional string.
pub open spec fn opt_view(o: Option<&str>) -> Option<Seq<char>> {
    match o {
        Some(s) => Some(s@),
        None => None,
    }
}

/// Characters with the Unicode `White_Space` property (what `char::is_whitespace` accepts).
pub open spec fn is_whitespace(c: char) -> bool {
    c == '\t' || c == '\n' || c == '\u{0B}' || c == '\u{0C}' || c == '\r' || c == ' ' || c
        == '\u{85}' || c == '\u{A0}' || c == '\u{1680}' || ('\u{2000}' <= c <= '\u{200A}') || c
        == '\u{2028}' || c == '\u{2029}' || c == '\u{202F}' || c == '\u{205F}' || c == '\u{3000}'
}

pub fn char_is_whitespace(c: char) -> (r: bool)
    ensures
        r == is_whitespace(c),
{
    c == '\t' || c == '\n' || c == '\u{0B}' || c == '\u{0C}' || c == '\r' || c == ' ' || c
        == '\u{85}' || c == '\u{A0}' || c == '\u{1680}' || ('\u{2000}' <= c && c <= '\u{200A}')
        || c == '\u{2028}' || c == '\u{2029}' || c == '\u{202F}' || c == '\u{205F}' || c
        == '\u{3000}'
}

/// `s` without leading whitespace.
pub open spec fn trim_start(s: Seq<char>) -> Seq<char>
    decreases s.len(),
{
    if s.len() > 0 && is_whitespace(s[0]) {
        trim_start(s.drop_first())
    } else {
        s
    }
}

/// `s` without trailing whitespace.
pub open spec fn trim_end(s: Seq<char>) -> Seq<char>
    decreases s.len(),
{
    if s.len() > 0 && is_whitespace(s.last()) {
        trim_end(s.drop_last())
    } else {
        s
    }
}

/// `s` without leading and trailing whitespace (as `str::trim`).
pub open spec fn trimmed(s: Seq<char>) -> Seq<char> {
    trim_end(trim_start(s))
}

/// The characters of `v` without leading and trailing whitespace.
pub fn trim_chars(v: &Vec<char>) -> (r: Vec<char>)
    ensures
        r@ == trimmed(v@),
{
    let mut start: usize = 0;
    assert(v@.skip(0) =~= v@);
    while start < v.len() && char_is_whitespace(v[start])
        invariant
            start <= v@.len(),
            trim_start(v@) == trim_start(v@.skip(start as int)),
        decreases v@.len() - start,
    {
        assert(v@.skip(start as int).drop_first() =~= v@.skip(start + 1));
        start = start + 1;
    }
    let ghost head = v@.skip(start as int);
    assert(trim_start(head) == head);
    let mut end = v.len();
    assert(head.take(end - start) =~= head);
    while end > start && char_is_whitespace(v[end - 1])
        invariant
            start <= end <= v@.len(),
            head == v@.skip(start as int),
            trim_end(head) == trim_end(v@.subrange(start as int, end as int)),
        decreases end,
    {
        assert(v@.subrange(start as int, end as int).drop_last() =~= v@.subrange(start as int, end - 1));
        end = end - 1;
    }
    assert(v@.skip(start as int) =~= v@.subrange(start as int, v@.len() as int));
    chars_slice(v, start, end)
}

/// An ASCII decimal digit.
pub open spec fn is_digit(c: char) -> bool {
    '0' <= c <= '9'
}

/// The value of a string of decimal digits.
pub open spec fn digits_value(s: Seq<char>) -> nat
    decreases s.len(),
{
    if s.len() == 0 {
        0
    } else {
        digits_value(s.drop_last()) * 10 + ((s.last() as u32) - ('0' as u32)) as nat
    }
}

/// The digits of an unsigned number: the text without one leading `+`.
pub open spec fn unsigned_digits(s: Seq<char>) -> Seq<char> {
    if s.len() > 0 && s[0] == '+' {
        s.drop_first()
    } else {
        s
    }
}

/// Parse an unsigned decimal number as `str::parse` does for an unsigned type
/// whose largest value is `max`: an optional `+`, then one or more digits, with
/// no overflow.
pub open spec fn parse_unsigned(s: Seq<char>, max: nat) -> Option<nat> {
    let body = unsigned_digits(s);
    if body.len() > 0 && (forall|i: int| 0 <= i < body.len() ==> is_digit(#[trigger] body[i]))
        && digits_value(body) <= max {
        Some(digits_value(body))
    } else {
        None
    }
}

/// Longer digit strings are worth at least as much as their prefixes.
pub proof fn lemma_digits_prefix(s: Seq<char>, i: int)
    requires
        0 <= i <= s.len(),
        forall|j: int| 0 <= j < s.len() ==> is_digit(#[trigger] s[j]),
    ensures
        digits_value(s.take(i)) <= digits_value(s),
    decreases s.len() - i,
{
    if i < s.len() {
        lemma_digits_prefix(s, i + 1);
        assert(s.take(i + 1).drop_last() =~= s.take(i));
    } else {
        assert(s.take(i) =~= s);
    }
}

/// Parse a `usize` as `str::parse::<usize>` does.
pub fn parse_usize(s: &str) -> (r: Option<usize>)
    ensures
        match r {
            Some(v) => parse_unsigned(s@, usize::MAX as nat) == Some(v as nat),
            None => parse_unsigned(s@, usize::MAX as nat) is None,
        },
{
    let chars = str_chars(s);
    let start: usize = if chars.len() > 0 && chars[0] == '+' {
        1
    } else {
        0
    };
    let ghost body = unsigned_digits(s@);
    assert(body =~= chars@.skip(start as int));
    if chars.len() == start {
        return None;
    }
    let mut acc: usize = 0;
    let mut i = start;
    while i < chars.len()
        invariant
            start <= i <= chars@.len(),
            chars@ == s@,
            body == chars@.skip(start as int),
            body == unsigned_digits(s@),
            body.len() > 0,
            forall|j: int| 0 <= j < i - start ==> is_digit(#[trigger] body[j]),
            acc == digits_value(body.take(i - start)),
        decreases chars@.len() - i,
    {
        let c = chars[i];
        if !('0' <= c && c <= '9') {
            assert(!is_digit(body[i - start]));
            return None;
        }
        let d = (c as u32 - '0' as u32) as usize;
        assert(body.take(i + 1 - start).drop_last() =~= body.take(i - start));
        assert(body.take(i + 1 - start).last() == c);
        match acc.checked_mul(10) {
            Some(m) => match m.checked_add(d) {
                Some(v) => {
                    acc = v;
                },
                None => {
                    proof {
                        overflow_means_none(body, i + 1 - start);
                    }
                    return None;
                },
            },
            None => {
                proof {
                    overflow_means_none(body, i + 1 - start);
                }
                return None;
            },
        }
        i = i + 1;
    }
    assert(body.take(body.len() as int) =~= body);
    Some(acc)
}

/// If a digit prefix of the body already exceeds `usize::MAX`, parsing fails.
proof fn overflow_means_none(body: Seq<char>, n: int)
    requires
        0 < n <= body.len(),
        forall|j: int| 0 <= j < n ==> is_digit(#[trigger] body[j]),
        digits_value(body.take(n)) > usize::MAX,
    ensures
        !((forall|i: int| 0 <= i < body.len() ==> is_digit(#[trigger] body[i])) && digits_value(body)
            <= usize::MAX),
{
    if forall|i: int| 0 <= i < body.len() ==> is_digit(#[trigger] body[i]) {
        lemma_digits_prefix(body, n);
    }
}

/// Decimal digits of `n`, most significant first.
pub open spec fn decimal(n: nat) -> Seq<char>
    decreases n,
{
    if n < 10 {
        seq![digit_char(n)]
    } else {
        decimal(n / 10).push(digit_char(n % 10))
    }
}

/// The ASCII digit for `d` (below 10).
pub open spec fn digit_char(d: nat) -> char {
    (48 + d) as char
}

/// Decimal digits are ASCII digits, and there is at least one.
pub proof fn lemma_decimal_digits(n: nat)
    ensures
        decimal(n).len() >= 1,
        forall|i: int| 0 <= i < decimal(n).len() ==> '0' <= #[trigger] decimal(n)[i] <= '9',
    decreases n,
{
    if n >= 10 {
        lemma_decimal_digits(n / 10);
    }
}

/// `10^k`.
pub open spec fn pow10(k: nat) -> nat
    decreases k,
{
    if k == 0 {
        1
    } else {
        10 * pow10((k - 1) as nat)
    }
}

/// A number below `10^k` has at most `k` digits.
pub proof fn lemma_decimal_len(n: nat, k: nat)
    requires
        n < pow10(k),
        k >= 1,
    ensures
        decimal(n).len() <= k,
    decreases k,
{
    if n >= 10 {
        assert(k > 1) by {
            if k == 1 {
                assert(pow10(1) == 10) by {
                    reveal_with_fuel(pow10, 2);
                }
            }
        }
        assert(n / 10 < pow10((k - 1) as nat)) by (nonlinear_arith)
            requires
                n < pow10(k),
                pow10(k) == 10 * pow10((k - 1) as nat),
        ;
        lemma_decimal_len(n / 10, (k - 1) as nat);
    }
}

/// `n` in decimal.
pub fn decimal_chars(n: u64) -> (v: Vec<char>)
    ensures
        v@ == decimal(n as nat),
    decreases n,
{
    if n < 10 {
        let mut v = Vec::new();
        v.push(digit(n));
        v
    } else {
        let mut v = decimal_chars(n / 10);
        v.push(digit(n % 10));
        v
    }
}

/// The ASCII digit for `d`.
fn digit(d: u64) -> (c: char)
    requires
        d < 10,
    ensures
        c == digit_char(d as nat),
{
    let b = (48 + d) as u8;
    b as char
}

/// Lower-case hexadecimal digits of `n`, most significant first (as `{:x}` writes them).
pub open spec fn hex(n: nat) -> Seq<char>
    decreases n,
{
    if n < 16 {
        seq![hex_digit_char(n)]
    } else {
        hex(n / 16).push(hex_digit_char(n % 16))
    }
}

/// The lower-case hexadecimal digit for `d` (below 16).
pub open spec fn hex_digit_char(d: nat) -> char {
    if d < 10 {
        (48 + d) as char
    } else {
        (87 + d) as char
    }
}

/// `n` in lower-case hexadecimal.
pub fn hex_chars(n: u64) -> (v: Vec<char>)
    ensures
        v@ == hex(n as nat),
    decreases n,
{
    if n < 16 {
        let mut v = Vec::new();
        v.push(hex_digit(n));
        v
    } else {
        let mut v = hex_chars(n / 16);
        v.push(hex_digit(n % 16));
        v
    }
}

/// The lower-case hexadecimal digit for `d`.
fn hex_digit(d: u64) -> (c: char)
    requires
        d < 16,
    ensures
        c == hex_digit_char(d as nat),
{
    if d < 10 {
        let b = (48 + d) as u8;
        b as char
    } else {
        let b = (87 + d) as u8;
        b as char
    }
}

} // verus!
