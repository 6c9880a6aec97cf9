//! Strings as sequences of characters: searching, trimming, joining, ordering
//! and the decimal notation of integers.

use vstd::prelude::*;
use vstd::string::*;

verus! {

// ---------------------------------------------------------------------------
// Characters
// ---------------------------------------------------------------------------

/// Whether `c` has the Unicode property White_Space.
pub open spec fn whitespace(c: char) -> bool {
    let n = c as u32;
    ||| 0x09 <= n <= 0x0d
    ||| n == 0x20
    ||| n == 0x85
    ||| n == 0xa0
    ||| n == 0x1680
    ||| 0x2000 <= n <= 0x200a
    ||| n == 0x2028
    ||| n == 0x2029
    ||| n == 0x202f
    ||| n == 0x205f
    ||| n == 0x3000
}

pub fn is_whitespace(c: char) -> (r: bool)
    ensures
        r == whitespace(c),
{
    let n: u32 = c as u32;
    (0x09 <= n && n <= 0x0d) || n == 0x20 || n == 0x85 || n == 0xa0 || n == 0x1680 || (0x2000 <= n
        && n <= 0x200a) || n == 0x2028 || n == 0x2029 || n == 0x202f || n == 0x205f || n == 0x3000
}

fn code(c: char) -> (r: u32)
    ensures
        r as int == c as int,
{
    c as u32
}

/// `c` with the letters A to Z in lower case; every other character as it is.
pub open spec fn ascii_lower(c: char) -> char {
    if 'A' <= c <= 'Z' {
        ((c as u32 + 32) as u32) as char
    } else {
        c
    }
}

/// Every character of `s` in ASCII lower case.
pub open spec fn lowered(s: Seq<char>) -> Seq<char> {
    s.map_values(|c: char| ascii_lower(c))
}

/// The characters of a string.
pub fn chars_of(s: &str) -> (r: Vec<char>)
    ensures
        r@ == s@,
{
    let mut out: Vec<char> = Vec::new();
    for c in it: s.chars()
        invariant
            out@ == s@.take(it.index()),
            it.seq() == s@,
    {
        out.push(c);
        assert(s@.take(it.index() + 1) =~= s@.take(it.index()).push(s@[it.index()]));
    }
    assert(s@.take(s@.len() as int) =~= s@);
    out
}

// ---------------------------------------------------------------------------
// Comparing
// ---------------------------------------------------------------------------

/// Whether two strings hold the same characters.
pub fn same(a: &str, b: &str) -> (r: bool)
    ensures
        r == (a@ == b@),
{
    a.to_owned() == b.to_owned()
}

/// Whether `needle` stands in `s` at position `at`.
pub open spec fn occurs_at(s: Seq<char>, needle: Seq<char>, at: int) -> bool {
    &&& 0 <= at
    &&& at + needle.len() <= s.len()
    &&& s.subrange(at, at + needle.len()) == needle
}

/// Whether `needle` stands somewhere in `s`.
pub open spec fn occurs(s: Seq<char>, needle: Seq<char>) -> bool {
    exists|at: int| occurs_at(s, needle, at)
}

fn code_lower(c: char) -> (r: u32)
    ensures
        r == ascii_lower(c) as u32,
{
    let n: u32 = c as u32;
    if 0x41 <= n && n <= 0x5a {
        n + 32
    } else {
        n
    }
}

/// `s` as it is, or in ASCII lower case.
spec fn folded(s: Seq<char>, lower: bool) -> Seq<char> {
    if lower {
        lowered(s)
    } else {
        s
    }
}

fn matches_folded(c: char, expected: char, lower: bool) -> (r: bool)
    ensures
        r == ((if lower { ascii_lower(c) } else { c }) == expected),
{
    if lower {
        code_lower(c) == expected as u32
    } else {
        c == expected
    }
}

fn search(hay: &Vec<char>, pat: &Vec<char>, lower: bool) -> (r: bool)
    ensures
        r == occurs(folded(hay@, lower), pat@),
{
    let ghost low = folded(hay@, lower);
    if pat.len() > hay.len() {
        return false;
    }
    let last: usize = hay.len() - pat.len();
    let mut at: usize = 0;
    loop
        invariant
            low == folded(hay@, lower),
            last == hay@.len() - pat@.len(),
            at <= last,
            hay@.len() <= usize::MAX,
            forall|k: int| 0 <= k < at ==> !occurs_at(low, pat@, k),
        decreases last - at,
    {
        let mut j: usize = 0;
        while j < pat.len() && matches_folded(hay[at + j], pat[j], lower)
            invariant
                low == folded(hay@, lower),
                last == hay@.len() - pat@.len(),
                at <= last,
                hay@.len() <= usize::MAX,
                j <= pat@.len(),
                forall|k: int| 0 <= k < j ==> low[at + k] == #[trigger] pat@[k],
            decreases pat@.len() - j,
        {
            j += 1;
        }
        if j == pat.len() {
            proof {
                assert(low.subrange(at as int, at + pat@.len()) =~= pat@);
                assert(occurs_at(low, pat@, at as int));
            }
            return true;
        }
        assert(low.subrange(at as int, at + pat@.len())[j as int] == low[at + j]);
        if at == last {
            return false;
        }
        at += 1;
    }
}

/// Whether `needle` stands in `s`.
pub fn contains(s: &str, needle: &str) -> (r: bool)
    ensures
        r == occurs(s@, needle@),
{
    search(&chars_of(s), &chars_of(needle), false)
}

/// Whether `needle` stands in `s` once the ASCII letters of `s` are in lower case.
pub fn contains_lowered(s: &str, needle: &str) -> (r: bool)
    ensures
        r == occurs(lowered(s@), needle@),
{
    search(&chars_of(s), &chars_of(needle), true)
}

// ---------------------------------------------------------------------------
// Trimming and cutting
// ---------------------------------------------------------------------------

/// `s` without the whitespace in front.
pub open spec fn trimmed_start(s: Seq<char>) -> Seq<char>
    decreases s.len(),
{
    if s.len() > 0 && whitespace(s[0]) {
        trimmed_start(s.drop_first())
    } else {
        s
    }
}

/// `s` without the whitespace at the end.
pub open spec fn trimmed_end(s: Seq<char>) -> Seq<char>
    decreases s.len(),
{
    if s.len() > 0 && whitespace(s.last()) {
        trimmed_end(s.drop_last())
    } else {
        s
    }
}

/// `s` without the whitespace on either side.
pub open spec fn trimmed(s: Seq<char>) -> Seq<char> {
    trimmed_end(trimmed_start(s))
}

/// `s` without the whitespace on either side.
pub fn trim(s: &str) -> (r: &str)
    ensures
        r@ == trimmed(s@),
{
    let chars: Vec<char> = chars_of(s);
    let mut from: usize = 0;
    assert(s@.skip(0) =~= s@);
    while from < chars.len() && is_whitespace(chars[from])
        invariant
            chars@ == s@,
            from <= chars@.len(),
            trimmed_start(s@) == trimmed_start(s@.skip(from as int)),
        decreases chars@.len() - from,
    {
        assert(s@.skip(from as int).drop_first() =~= s@.skip(from + 1));
        from += 1;
    }
    let mut to: usize = chars.len();
    assert(s@.subrange(from as int, to as int) =~= s@.skip(from as int));
    while from < to && is_whitespace(chars[to - 1])
        invariant
            chars@ == s@,
            from <= to <= chars@.len(),
            trimmed(s@) == trimmed_end(s@.subrange(from as int, to as int)),
        decreases to - from,
    {
        assert(s@.subrange(from as int, to as int).drop_last() =~= s@.subrange(
            from as int,
            to - 1,
        ));
        to -= 1;
    }
    s.substring_char(from, to)
}

/// Trimming leaves nothing to trim: it ends at a string that neither starts nor
/// ends with whitespace, and a second pass changes nothing.
pub proof fn trim_is_settled(s: Seq<char>)
    ensures
        trimmed(s).len() <= s.len(),
        trimmed(s).len() > 0 ==> !whitespace(trimmed(s)[0]) && !whitespace(trimmed(s).last()),
        trimmed(trimmed(s)) == trimmed(s),
{
    lemma_trimmed_start(s);
    lemma_trimmed_end(trimmed_start(s));
}

proof fn lemma_trimmed_start(s: Seq<char>)
    ensures
        trimmed_start(s).len() <= s.len(),
        trimmed_start(s).len() > 0 ==> !whitespace(trimmed_start(s)[0]),
    decreases s.len(),
{
    if s.len() > 0 && whitespace(s[0]) {
        lemma_trimmed_start(s.drop_first());
    }
}

proof fn lemma_trimmed_end(s: Seq<char>)
    ensures
        trimmed_end(s).len() <= s.len(),
        trimmed_end(s).len() > 0 ==> trimmed_end(s)[0] == s[0] && !whitespace(
            trimmed_end(s).last(),
        ),
    decreases s.len(),
{
    if s.len() > 0 && whitespace(s.last()) {
        lemma_trimmed_end(s.drop_last());
    }
}

/// At most the first `n` characters of `s`.
pub open spec fn prefix(s: Seq<char>, n: nat) -> Seq<char> {
    if s.len() <= n {
        s
    } else {
        s.take(n as int)
    }
}

/// At most the first `n` characters of `s`.
pub fn take_chars(s: &str, n: usize) -> (r: &str)
    ensures
        r@ == prefix(s@, n as nat),
{
    let len: usize = s.unicode_len();
    if len <= n {
        s
    } else {
        assert(s@.subrange(0, n as int) =~= s@.take(n as int));
        s.substring_char(0, n)
    }
}

/// `s` up to its first line break.
pub open spec fn first_line(s: Seq<char>) -> Seq<char>
    decreases s.len(),
{
    if s.len() == 0 || s[0] == '\n' {
        Seq::empty()
    } else {
        seq![s[0]] + first_line(s.drop_first())
    }
}

/// `s` up to its first line break.
pub fn take_line(s: &str) -> (r: &str)
    ensures
        r@ == first_line(s@),
{
    let chars: Vec<char> = chars_of(s);
    let mut to: usize = 0;
    assert(s@.take(0) + first_line(s@.skip(0)) =~= first_line(s@)) by {
        assert(s@.skip(0) =~= s@);
    }
    while to < chars.len() && chars[to] != '\n'
        invariant
            chars@ == s@,
            to <= chars@.len(),
            s@.take(to as int) + first_line(s@.skip(to as int)) =~= first_line(s@),
        decreases chars@.len() - to,
    {
        assert(s@.skip(to as int).drop_first() =~= s@.skip(to + 1));
        assert(s@.take(to + 1) =~= s@.take(to as int) + seq![s@[to as int]]);
        to += 1;
    }
    assert(s@.subrange(0, to as int) =~= s@.take(to as int));
    s.substring_char(0, to)
}

// ---------------------------------------------------------------------------
// Joining
// ---------------------------------------------------------------------------

/// The parts one after the other, with `sep` between each two.
pub open spec fn joined(parts: Seq<Seq<char>>, sep: Seq<char>) -> Seq<char>
    decreases parts.len(),
{
    if parts.len() == 0 {
        Seq::empty()
    } else if parts.len() == 1 {
        parts[0]
    } else {
        joined(parts.drop_last(), sep) + sep + parts.last()
    }
}

/// What each string of a list holds.
pub open spec fn views(parts: Seq<String>) -> Seq<Seq<char>> {
    parts.map_values(|s: String| s@)
}

/// A copy of a list of strings.
pub fn clone_strings(parts: &Vec<String>) -> (r: Vec<String>)
    ensures
        views(r@) == views(parts@),
{
    let mut out: Vec<String> = Vec::new();
    let mut i: usize = 0;
    while i < parts.len()
        invariant
            i <= parts@.len(),
            out@.len() == i,
            forall|j: int| 0 <= j < i ==> (#[trigger] out@[j])@ == parts@[j]@,
        decreases parts@.len() - i,
    {
        out.push(parts[i].clone());
        i += 1;
    }
    assert(views(out@) =~= views(parts@));
    out
}

/// The parts one after the other, with `sep` between each two.
pub fn join(parts: &Vec<String>, sep: &str) -> (r: String)
    ensures
        r@ == joined(views(parts@), sep@),
{
    let mut out: String = String::new();
    let mut i: usize = 0;
    while i < parts.len()
        invariant
            i <= parts@.len(),
            out@ == joined(views(parts@).take(i as int), sep@),
        decreases parts@.len() - i,
    {
        let ghost all = views(parts@);
        assert(all.take(i + 1).drop_last() =~= all.take(i as int));
        assert(all.take(i + 1).last() == parts@[i as int]@);
        if i > 0 {
            out.append(sep);
        } else {
            assert(all.take(1) =~= seq![parts@[0]@]);
            assert(out@ + parts@[0]@ =~= parts@[0]@);
        }
        out.append(parts[i].as_str());
        i += 1;
    }
    assert(views(parts@).take(parts@.len() as int) =~= views(parts@));
    out
}

// ---------------------------------------------------------------------------
// Integers in decimal notation
// ---------------------------------------------------------------------------

/// The digit for `n`, which is less than ten.
pub open spec fn digit(n: int) -> char {
    seq!['0', '1', '2', '3', '4', '5', '6', '7', '8', '9'][n]
}

/// `n` in decimal notation, without leading zeros.
pub open spec fn decimal(n: nat) -> Seq<char>
    decreases n,
{
    if n < 10 {
        seq![digit(n as int)]
    } else {
        decimal(n / 10).push(digit((n % 10) as int))
    }
}

/// `n` in decimal notation, with a minus sign in front where it is negative.
pub open spec fn signed_decimal(n: int) -> Seq<char> {
    if n < 0 {
        "-"@ + decimal((-n) as nat)
    } else {
        decimal(n as nat)
    }
}

fn digit_str(n: u64) -> (r: &'static str)
    requires
        n < 10,
    ensures
        r@ == seq![digit(n as int)],
{
    proof {
        reveal_strlit("0");
        reveal_strlit("1");
        reveal_strlit("2");
        reveal_strlit("3");
        reveal_strlit("4");
        reveal_strlit("5");
        reveal_strlit("6");
        reveal_strlit("7");
        reveal_strlit("8");
        reveal_strlit("9");
    }
    let r: &'static str = match n {
        0 => "0",
        1 => "1",
        2 => "2",
        3 => "3",
        4 => "4",
        5 => "5",
        6 => "6",
        7 => "7",
        8 => "8",
        _ => "9",
    };
    assert(r@ =~= seq![digit(n as int)]);
    r
}

/// Appends `n` in decimal notation.
pub fn push_decimal(out: &mut String, n: u64)
    ensures
        final(out)@ == old(out)@ + decimal(n as nat),
    decreases n,
{
    if n < 10 {
        out.append(digit_str(n));
    } else {
        push_decimal(out, n / 10);
        let ghost so_far = out@;
        out.append(digit_str(n % 10));
        assert(out@ =~= old(out)@ + decimal(n as nat)) by {
            assert(decimal(n as nat) == decimal((n / 10) as nat).push(digit((n % 10) as int)));
            assert(so_far == old(out)@ + decimal((n / 10) as nat));
        }
    }
}

/// Appends `n` in decimal notation, with a minus sign in front where it is
/// negative.
pub fn push_signed(out: &mut String, n: i64)
    ensures
        final(out)@ == old(out)@ + signed_decimal(n as int),
{
    if n < 0 {
        out.append("-");
        let magnitude: u64 = (-(n as i128)) as u64;
        push_decimal(out, magnitude);
        assert(out@ =~= old(out)@ + signed_decimal(n as int));
    } else {
        push_decimal(out, n as u64);
    }
}

/// The number that a run of digits stands for.
pub open spec fn digits_value(s: Seq<char>) -> nat
    decreases s.len(),
{
    if s.len() == 0 {
        0
    } else {
        digits_value(s.drop_last()) * 10 + (s.last() as nat - '0' as nat) as nat
    }
}

/// Whether `s` is one or more digits and nothing else.
pub open spec fn is_digits(s: Seq<char>) -> bool {
    s.len() > 0 && forall|i: int| 0 <= i < s.len() ==> '0' <= #[trigger] s[i] <= '9'
}

/// The decimal notation of a number is digits alone, and stands for that number.
pub proof fn decimal_stands_for_its_number(n: nat)
    ensures
        is_digits(decimal(n)),
        digits_value(decimal(n)) == n,
    decreases n,
{
    let s = decimal(n);
    if n < 10 {
        assert(s.drop_last() =~= Seq::empty());
        assert(digits_value(s.drop_last()) == 0);
    } else {
        decimal_stands_for_its_number(n / 10);
        let rest = decimal(n / 10);
        assert(s.drop_last() =~= rest);
        assert forall|i: int| 0 <= i < s.len() implies '0' <= #[trigger] s[i] <= '9' by {
            if i < rest.len() {
                assert(s[i] == rest[i]);
            }
        }
    }
}

/// No two numbers have the same decimal notation.
pub proof fn decimals_differ(a: nat, b: nat)
    ensures
        decimal(a) == decimal(b) ==> a == b,
{
    decimal_stands_for_its_number(a);
    decimal_stands_for_its_number(b);
}

/// `s` without a plus sign in front.
pub open spec fn without_plus(s: Seq<char>) -> Seq<char> {
    if s.len() > 0 && s[0] == '+' {
        s.drop_first()
    } else {
        s
    }
}

/// The number that `s` writes down: digits, with or without a plus sign in
/// front, for a number that fits in 64 bits.
pub open spec fn parsed_u64(s: Seq<char>) -> Option<u64> {
    let body = without_plus(s);
    if is_digits(body) && digits_value(body) <= u64::MAX {
        Some(digits_value(body) as u64)
    } else {
        None
    }
}

proof fn lemma_digits_value_grows(s: Seq<char>, i: int)
    requires
        is_digits(s),
        0 <= i <= s.len(),
    ensures
        digits_value(s.take(i)) <= digits_value(s),
    decreases s.len() - i,
{
    if i < s.len() {
        lemma_digits_value_grows(s, i + 1);
        assert(s.take(i + 1).drop_last() =~= s.take(i));
    } else {
        assert(s.take(i) =~= s);
    }
}

/// The number that `s` writes down, if it writes down one.
pub fn parse_u64(s: &str) -> (r: Option<u64>)
    ensures
        r == parsed_u64(s@),
{
    let chars: Vec<char> = chars_of(s);
    let start: usize = if chars.len() > 0 && chars[0] == '+' {
        1
    } else {
        0
    };
    let ghost body = without_plus(s@);
    assert(body =~= s@.skip(start as int));
    if start == chars.len() {
        return None;
    }
    let mut value: u64 = 0;
    let mut i: usize = start;
    assert(body.take(0) =~= Seq::<char>::empty());
    while i < chars.len()
        invariant
            chars@ == s@,
            start <= i <= chars@.len(),
            body == without_plus(s@),
            body == s@.skip(start as int),
            value == digits_value(body.take(i - start)),
            forall|k: int| 0 <= k < i - start ==> '0' <= #[trigger] body[k] <= '9',
        decreases chars@.len() - i,
    {
        let c: char = chars[i];
        let k: u32 = code(c);
        assert(body[i - start] == c);
        if k < 0x30 || k > 0x39 {
            return None;
        }
        let d: u64 = (k - 0x30) as u64;
        let wide: u128 = value as u128 * 10 + d as u128;
        proof {
            assert(body.take(i - start + 1).drop_last() =~= body.take(i - start));
            assert(digits_value(body.take(i - start + 1)) == wide);
        }
        if wide > u64::MAX as u128 {
            proof {
                if is_digits(body) {
                    lemma_digits_value_grows(body, i - start + 1);
                }
            }
            return None;
        }
        value = wide as u64;
        i += 1;
    }
    assert(body.take(body.len() as int) =~= body);
    Some(value)
}

// ---------------------------------------------------------------------------
// Order
// ---------------------------------------------------------------------------

/// Whether `a` stands before `b` in a dictionary: by the first character in
/// which they differ, a string before every longer one that it starts.
pub open spec fn before(a: Seq<char>, b: Seq<char>) -> bool
    decreases a.len(),
{
    if b.len() == 0 {
        false
    } else if a.len() == 0 {
        true
    } else if a[0] != b[0] {
        a[0] < b[0]
    } else {
        before(a.drop_first(), b.drop_first())
    }
}

/// Whether `a` stands before `b` in a dictionary.
pub fn is_before(a: &str, b: &str) -> (r: bool)
    ensures
        r == before(a@, b@),
{
    let x: Vec<char> = chars_of(a);
    let y: Vec<char> = chars_of(b);
    let mut i: usize = 0;
    assert(a@.skip(0) =~= a@);
    assert(b@.skip(0) =~= b@);
    while i < x.len() && i < y.len() && x[i] == y[i]
        invariant
            x@ == a@,
            y@ == b@,
            i <= x@.len(),
            i <= y@.len(),
            before(a@, b@) == before(a@.skip(i as int), b@.skip(i as int)),
        decreases x@.len() - i,
    {
        assert(a@.skip(i as int).drop_first() =~= a@.skip(i + 1));
        assert(b@.skip(i as int).drop_first() =~= b@.skip(i + 1));
        i += 1;
    }
    if i >= y.len() {
        false
    } else if i >= x.len() {
        true
    } else {
        code(x[i]) < code(y[i])
    }
}

pub proof fn lemma_before_is_total(a: Seq<char>, b: Seq<char>)
    ensures
        !(before(a, b) && before(b, a)),
        before(a, b) || before(b, a) || a == b,
        !before(a, a),
    decreases a.len(),
{
    if a.len() > 0 && b.len() > 0 && a[0] == b[0] {
        lemma_before_is_total(a.drop_first(), b.drop_first());
        if a.drop_first() == b.drop_first() {
            assert(a =~= seq![a[0]] + a.drop_first());
            assert(b =~= seq![b[0]] + b.drop_first());
        }
    }
    if a.len() > 0 {
        lemma_before_is_total(a.drop_first(), a.drop_first());
    }
    if a.len() == 0 && b.len() == 0 {
        assert(a =~= b);
    }
}

pub proof fn lemma_before_is_transitive(a: Seq<char>, b: Seq<char>, c: Seq<char>)
    requires
        before(a, b),
        before(b, c),
    ensures
        before(a, c),
    decreases a.len(),
{
    if a.len() > 0 && b.len() > 0 && c.len() > 0 && a[0] == b[0] && b[0] == c[0] {
        lemma_before_is_transitive(a.drop_first(), b.drop_first(), c.drop_first());
    }
}

// ---------------------------------------------------------------------------
// Laws
// ---------------------------------------------------------------------------

/// A string occurs in another exactly if that is something, the string, and
/// something more.
pub proof fn what_occurs_stands_between_two_parts(s: Seq<char>, needle: Seq<char>)
    ensures
        occurs(s, needle) == exists|a: Seq<char>, b: Seq<char>| s == #[trigger] (a + needle + b),
{
    if occurs(s, needle) {
        let at = choose|at: int| occurs_at(s, needle, at);
        let a = s.take(at);
        let b = s.skip(at + needle.len());
        assert(s =~= a + needle + b) by {
            assert forall|i: int| 0 <= i < s.len() implies s[i] == (a + needle + b)[i] by {
                if at <= i < at + needle.len() {
                    assert(s.subrange(at, at + needle.len())[i - at] == s[i]);
                }
            }
        }
    }
    if exists|a: Seq<char>, b: Seq<char>| s == #[trigger] (a + needle + b) {
        let (a, b) = choose|a: Seq<char>, b: Seq<char>| s == #[trigger] (a + needle + b);
        occurs_between(a, needle, b);
    }
}

/// What stands between two parts occurs in the whole.
pub proof fn occurs_between(a: Seq<char>, needle: Seq<char>, b: Seq<char>)
    ensures
        occurs(a + needle + b, needle),
{
    let s = a + needle + b;
    assert(s.subrange(a.len() as int, (a.len() + needle.len()) as int) =~= needle);
    assert(occurs_at(s, needle, a.len() as int));
}

/// What occurs in a part occurs in the whole.
pub proof fn occurs_in_a_part(a: Seq<char>, part: Seq<char>, b: Seq<char>, needle: Seq<char>)
    requires
        occurs(part, needle),
    ensures
        occurs(a + part + b, needle),
{
    let at = choose|at: int| occurs_at(part, needle, at);
    let s = a + part + b;
    assert(s.subrange(a.len() + at, a.len() + at + needle.len()) =~= part.subrange(
        at,
        at + needle.len(),
    ));
    assert(occurs_at(s, needle, a.len() + at));
}

/// Lower case changes the letters A to Z alone, each to the small letter.
pub proof fn lower_case_changes_capitals_alone(s: Seq<char>, i: int)
    requires
        0 <= i < s.len(),
    ensures
        lowered(s).len() == s.len(),
        lowered(s)[i] as int == s[i] as int + if 65 <= s[i] as int <= 90 {
            32int
        } else {
            0
        },
{
}

/// Trimming keeps a stretch of the string whole: what goes is white space on
/// either side, and what stays neither starts nor ends with any.
pub proof fn trimming_takes_white_space_from_the_ends(s: Seq<char>) -> (ends: (int, int))
    ensures
        0 <= ends.0 <= ends.1 <= s.len(),
        trimmed(s) == s.subrange(ends.0, ends.1),
        forall|i: int| 0 <= i < ends.0 || ends.1 <= i < s.len() ==> whitespace(#[trigger] s[i]),
        ends.0 < ends.1 ==> !whitespace(s[ends.0]) && !whitespace(s[ends.1 - 1]),
{
    let from = lemma_start_of(s);
    let rest = trimmed_start(s);
    let kept = lemma_end_of(rest);
    let to = from + kept;
    assert(trimmed(s) =~= s.subrange(from, to));
    assert forall|i: int| 0 <= i < from || to <= i < s.len() implies whitespace(
        #[trigger] s[i],
    ) by {
        if to <= i {
            assert(rest[i - from] == s[i]);
        }
    }
    if from < to {
        assert(rest[0] == s[from]);
        assert(rest[kept - 1] == s[to - 1]);
    }
    (from, to)
}

proof fn lemma_start_of(s: Seq<char>) -> (from: int)
    ensures
        0 <= from <= s.len(),
        trimmed_start(s) == s.skip(from),
        forall|i: int| 0 <= i < from ==> whitespace(#[trigger] s[i]),
        from < s.len() ==> !whitespace(s[from]),
    decreases s.len(),
{
    if s.len() > 0 && whitespace(s[0]) {
        let rest = s.drop_first();
        let k = lemma_start_of(rest);
        assert(rest.skip(k) =~= s.skip(k + 1));
        assert forall|i: int| 0 <= i < k + 1 implies whitespace(#[trigger] s[i]) by {
            if i > 0 {
                assert(rest[i - 1] == s[i]);
            }
        }
        k + 1
    } else {
        assert(s.skip(0) =~= s);
        0
    }
}

proof fn lemma_end_of(s: Seq<char>) -> (to: int)
    ensures
        0 <= to <= s.len(),
        trimmed_end(s) == s.take(to),
        forall|i: int| to <= i < s.len() ==> whitespace(#[trigger] s[i]),
        to > 0 ==> !whitespace(s[to - 1]),
    decreases s.len(),
{
    if s.len() > 0 && whitespace(s.last()) {
        let rest = s.drop_last();
        let k = lemma_end_of(rest);
        assert(rest.take(k) =~= s.take(k));
        assert forall|i: int| k <= i < s.len() implies whitespace(#[trigger] s[i]) by {
            if i < rest.len() {
                assert(rest[i] == s[i]);
            }
        }
        k
    } else {
        assert(s.take(s.len() as int) =~= s);
        s.len() as int
    }
}

/// Nothing is left of a string exactly if it is white space throughout.
pub proof fn only_white_space_trims_to_nothing(s: Seq<char>)
    ensures
        (trimmed(s).len() == 0) == (forall|i: int|
            0 <= i < s.len() ==> whitespace(#[trigger] s[i])),
{
    let (from, to) = trimming_takes_white_space_from_the_ends(s);
    if from < to {
        assert(!whitespace(s[from]));
    }
}

/// What is cut after so many characters is the front of the string, that long
/// or the whole of it.
pub proof fn a_cut_keeps_the_front(s: Seq<char>, n: nat)
    ensures
        prefix(s, n).len() == if s.len() < n {
            s.len()
        } else {
            n
        },
        forall|i: int| 0 <= i < prefix(s, n).len() ==> #[trigger] prefix(s, n)[i] == s[i],
{
}

/// The first line is the front of the string, holds no line break, and ends where
/// the string does or at a line break.
pub proof fn the_first_line_ends_at_a_break(s: Seq<char>)
    ensures
        first_line(s).len() <= s.len(),
        forall|i: int|
            0 <= i < first_line(s).len() ==> #[trigger] first_line(s)[i] == s[i] && s[i] != '\n',
        first_line(s).len() < s.len() ==> s[first_line(s).len() as int] == '\n',
    decreases s.len(),
{
    if s.len() > 0 && s[0] != '\n' {
        let rest = s.drop_first();
        the_first_line_ends_at_a_break(rest);
        assert forall|i: int| 0 <= i < first_line(s).len() implies #[trigger] first_line(s)[i]
            == s[i] && s[i] != '\n' by {
            if i > 0 {
                assert(first_line(rest)[i - 1] == rest[i - 1]);
            }
        }
    }
}

/// To join no parts gives nothing, to join one gives that part, and to join two
/// lists after one another gives what each gives with the separator between.
pub proof fn joins_are_put_together(
    a: Seq<Seq<char>>,
    b: Seq<Seq<char>>,
    part: Seq<char>,
    sep: Seq<char>,
)
    ensures
        joined(Seq::empty(), sep) == Seq::<char>::empty(),
        joined(seq![part], sep) == part,
        a.len() > 0 && b.len() > 0 ==> joined(a + b, sep) == joined(a, sep) + sep + joined(b, sep),
    decreases b.len(),
{
    if a.len() > 0 && b.len() > 0 {
        let whole = a + b;
        assert(whole.last() == b.last());
        assert(whole.drop_last() =~= a + b.drop_last());
        if b.len() == 1 {
            assert(whole.drop_last() =~= a);
        } else {
            joins_are_put_together(a, b.drop_last(), part, sep);
            assert(joined(a, sep) + sep + joined(b.drop_last(), sep) + sep + b.last() =~= joined(
                a,
                sep,
            ) + sep + (joined(b.drop_last(), sep) + sep + b.last()));
        }
    }
}

/// Every part occurs in what they are joined to.
pub proof fn a_join_holds_every_part(parts: Seq<Seq<char>>, sep: Seq<char>, i: int)
    requires
        0 <= i < parts.len(),
    ensures
        occurs(joined(parts, sep), parts[i]),
    decreases parts.len(),
{
    let nothing = Seq::<char>::empty();
    if parts.len() == 1 {
        occurs_between(nothing, parts[0], nothing);
        assert(nothing + parts[0] + nothing =~= parts[0]);
    } else {
        let front = joined(parts.drop_last(), sep);
        if i == parts.len() - 1 {
            occurs_between(front + sep, parts[i], nothing);
            assert(front + sep + parts[i] + nothing =~= joined(parts, sep));
        } else {
            a_join_holds_every_part(parts.drop_last(), sep, i);
            assert(parts.drop_last()[i] == parts[i]);
            occurs_in_a_part(nothing, front, sep + parts.last(), parts[i]);
            assert(nothing + front + (sep + parts.last()) =~= joined(parts, sep));
        }
    }
}

/// Only zero starts with a zero.
pub proof fn no_number_starts_with_a_zero(n: nat)
    ensures
        decimal(n).len() > 0,
        decimal(n)[0] == '0' ==> n == 0,
        n < 10 ==> decimal(n).len() == 1,
    decreases n,
{
    if n >= 10 {
        no_number_starts_with_a_zero(n / 10);
        assert(decimal(n)[0] == decimal(n / 10)[0]);
    }
}

/// A negative number is written as a minus sign and the number without it, and
/// no two numbers are written alike.
pub proof fn signed_decimals_differ(a: int, b: int)
    ensures
        a < 0 ==> signed_decimal(a) == seq!['-'] + decimal((-a) as nat),
        a >= 0 ==> signed_decimal(a) == decimal(a as nat),
        signed_decimal(a) == signed_decimal(b) ==> a == b,
{
    reveal_strlit("-");
    assert("-"@ =~= seq!['-']);
    let (x, y) = (signed_decimal(a), signed_decimal(b));
    if a >= 0 {
        decimal_stands_for_its_number(a as nat);
    }
    if b >= 0 {
        decimal_stands_for_its_number(b as nat);
    }
    if x == y {
        if a < 0 && b < 0 {
            assert(x.skip(1) =~= decimal((-a) as nat));
            assert(y.skip(1) =~= decimal((-b) as nat));
            decimals_differ((-a) as nat, (-b) as nat);
        } else if a >= 0 && b >= 0 {
            decimals_differ(a as nat, b as nat);
        } else {
            assert(x[0] == y[0]);
        }
    }
}

/// A number that fits is read back from its decimal notation, with or without a
/// plus sign, and one that does not fit is not read.
pub proof fn a_number_is_read_back(n: nat)
    ensures
        parsed_u64(decimal(n)) == if n <= u64::MAX {
            Some(n as u64)
        } else {
            None::<u64>
        },
        parsed_u64(seq!['+'] + decimal(n)) == parsed_u64(decimal(n)),
{
    decimal_stands_for_its_number(n);
    let s = decimal(n);
    assert(s[0] != '+');
    assert((seq!['+'] + s).drop_first() =~= s);
}

/// What is read is digits, with at most one plus sign in front.
pub proof fn only_digits_are_read(s: Seq<char>, i: int)
    requires
        parsed_u64(s) is Some,
        0 <= i < s.len(),
    ensures
        '0' <= s[i] <= '9' || (i == 0 && s[0] == '+' && s.len() > 1),
{
    let body = without_plus(s);
    if s[0] == '+' {
        if i > 0 {
            assert(body[i - 1] == s[i]);
        }
    } else {
        assert(body[i] == s[i]);
    }
}

/// One more digit makes ten times the number and the digit.
pub proof fn a_digit_more_counts_tenfold(s: Seq<char>, d: char)
    requires
        '0' <= d <= '9',
    ensures
        digits_value(s.push(d)) == digits_value(s) * 10 + (d as int - 48),
        digits_value(Seq::empty()) == 0,
{
    assert(s.push(d).drop_last() =~= s);
}

/// One string stands before another exactly if it is a proper front of it, or is
/// the smaller at the first place where they differ.
pub proof fn the_first_difference_decides(a: Seq<char>, b: Seq<char>, k: int)
    requires
        0 <= k <= a.len(),
        k <= b.len(),
        forall|i: int| 0 <= i < k ==> #[trigger] a[i] == b[i],
        k < a.len() && k < b.len() ==> a[k] != b[k],
    ensures
        k == a.len() ==> before(a, b) == (k < b.len()),
        k == b.len() ==> !before(a, b),
        k < a.len() && k < b.len() ==> before(a, b) == (a[k] < b[k]),
    decreases k,
{
    if k > 0 {
        assert(a[0] == b[0]);
        let (x, y) = (a.drop_first(), b.drop_first());
        assert forall|i: int| 0 <= i < k - 1 implies #[trigger] x[i] == y[i] by {
            assert(a[i + 1] == b[i + 1]);
        }
        if k < a.len() && k < b.len() {
            assert(x[k - 1] == a[k] && y[k - 1] == b[k]);
        }
        the_first_difference_decides(x, y, k - 1);
    }
}

/// What is put at the end stands there.
pub proof fn what_comes_last_occurs(front: Seq<char>, needle: Seq<char>)
    ensures
        occurs(front + needle, needle),
{
    let nothing = Seq::<char>::empty();
    occurs_between(front, needle, nothing);
    assert(front + needle =~= front + needle + nothing);
}

/// What stands in a text still stands there when the text goes on.
pub proof fn what_occurs_stays(s: Seq<char>, more: Seq<char>, needle: Seq<char>)
    requires
        occurs(s, needle),
    ensures
        occurs(s + more, needle),
{
    let nothing = Seq::<char>::empty();
    occurs_in_a_part(nothing, s, more, needle);
    assert(s + more =~= nothing + s + more);
}

/// Four parts put behind a text one by one are what they are put together first.
pub proof fn four_parts_are_one(
    front: Seq<char>,
    a: Seq<char>,
    b: Seq<char>,
    c: Seq<char>,
    d: Seq<char>,
)
    ensures
        front + a + b + c + d == front + (a + b + c + d),
{
    assert(front + a + b + c + d =~= front + (a + b + c + d));
}

/// Three parts put behind a text one by one are what they are put together first.
pub proof fn three_parts_are_one(front: Seq<char>, a: Seq<char>, b: Seq<char>, c: Seq<char>)
    ensures
        front + a + b + c == front + (a + b + c),
{
    assert(front + a + b + c =~= front + (a + b + c));
}

/// Two parts put behind a text one by one are what they are put together first.
pub proof fn two_parts_are_one(front: Seq<char>, a: Seq<char>, b: Seq<char>)
    ensures
        front + a + b == front + (a + b),
{
    assert(front + a + b =~= front + (a + b));
}

/// Between the same two texts, different parts make different texts.
pub proof fn what_stands_between_is_told_apart(
    head: Seq<char>,
    a: Seq<char>,
    b: Seq<char>,
    tail: Seq<char>,
)
    requires
        head + a + tail == head + b + tail,
    ensures
        a == b,
{
    let (one, other) = (head + a + tail, head + b + tail);
    assert(one.len() == other.len());
    let n = head.len() as int;
    assert(one.subrange(n, n + a.len()) =~= a);
    assert(other.subrange(n, n + b.len()) =~= b);
}

/// What stands in a part of a text stands in the text.
pub proof fn occurs_is_transitive(s: Seq<char>, part: Seq<char>, needle: Seq<char>)
    requires
        occurs(s, part),
        occurs(part, needle),
    ensures
        occurs(s, needle),
{
    let at = choose|at: int| occurs_at(s, part, at);
    let (a, b) = (s.take(at), s.skip(at + part.len()));
    assert(s =~= a + part + b);
    occurs_in_a_part(a, part, b, needle);
}

/// There are twenty-five characters of white space: tab to carriage return, the
/// space, and the blanks and separators beyond ASCII. No other is any.
pub proof fn which_characters_are_white_space(c: char)
    ensures
        whitespace(c) == seq![
            0x09u32,
            0x0a,
            0x0b,
            0x0c,
            0x0d,
            0x20,
            0x85,
            0xa0,
            0x1680,
            0x2000,
            0x2001,
            0x2002,
            0x2003,
            0x2004,
            0x2005,
            0x2006,
            0x2007,
            0x2008,
            0x2009,
            0x200a,
            0x2028,
            0x2029,
            0x202f,
            0x205f,
            0x3000,
        ].contains(c as u32),
{
    let all = seq![
        0x09u32,
        0x0a,
        0x0b,
        0x0c,
        0x0d,
        0x20,
        0x85,
        0xa0,
        0x1680,
        0x2000,
        0x2001,
        0x2002,
        0x2003,
        0x2004,
        0x2005,
        0x2006,
        0x2007,
        0x2008,
        0x2009,
        0x200a,
        0x2028,
        0x2029,
        0x202f,
        0x205f,
        0x3000,
    ];
    let n = c as u32;
    assert(all[0] == 0x09 && all[5] == 0x20 && all[6] == 0x85 && all[7] == 0xa0 && all[8] == 0x1680);
    assert(all[20] == 0x2028 && all[21] == 0x2029 && all[22] == 0x202f && all[23] == 0x205f
        && all[24] == 0x3000);
    if 0x09 <= n <= 0x0d {
        assert(all[n as int - 0x09] == n);
    }
    if 0x2000 <= n <= 0x200a {
        assert(all[n as int - 0x2000 + 9] == n);
    }
}

} // verus!
