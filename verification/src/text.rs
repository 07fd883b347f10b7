//! Text primitives: building, comparing, trimming and parsing strings.
//!
//! A string is modelled by the sequence of its characters. The functions here are the ones the
//! rest of the crate needs to render reports and to read the text files of sysfs and procfs.

use vstd::prelude::*;
use vstd::string::*;
use vstd::utf8::*;

verus! {

// ---------------------------------------------------------------------------------------------
// Building and comparing
// ---------------------------------------------------------------------------------------------

/// `String::push` of std appends one character to the end of the string.
pub assume_specification[ std::string::String::push ](s: &mut std::string::String, c: char)
    ensures
        final(s)@ == old(s)@.push(c),
;

/// The view of an optional string.
pub open spec fn opt_view(o: Option<String>) -> Option<Seq<char>> {
    match o {
        Some(s) => Some(s@),
        None => None,
    }
}

/// The views of a list of strings, in order.
pub open spec fn views(s: Seq<String>) -> Seq<Seq<char>> {
    s.map_values(|t: String| t@)
}

/// The views of a list grow with the list.
pub broadcast proof fn lemma_views_push(s: Seq<String>, x: String)
    ensures
        #[trigger] views(s.push(x)) == views(s).push(x@),
{
    assert(views(s.push(x)) =~= views(s).push(x@));
}

/// The characters of a string, in order.
pub fn chars_of(s: &str) -> (r: Vec<char>)
    ensures
        r@ == s@,
{
    let mut out: Vec<char> = Vec::new();
    for c in it: s.chars()
        invariant
            out@ == s@.take(it.index() as int),
            it.seq() == s@,
    {
        out.push(c);
    }
    out
}

/// The string that holds the characters `chars[from..to]`.
pub fn string_of(chars: &Vec<char>, from: usize, to: usize) -> (r: String)
    requires
        from <= to <= chars@.len(),
    ensures
        r@ == chars@.subrange(from as int, to as int),
{
    let mut out = String::new();
    for i in from..to
        invariant
            from <= to <= chars@.len(),
            out@ == chars@.subrange(from as int, i as int),
    {
        out.push(chars[i]);
        proof {
            assert(chars@.subrange(from as int, i + 1) == chars@.subrange(from as int, i as int).push(
                chars@[i as int],
            ));
        }
    }
    out
}

/// Whether two strings hold the same characters.
pub fn text_eq(a: &str, b: &str) -> (r: bool)
    ensures
        r == (a@ == b@),
{
    a.to_owned() == b.to_owned()
}

/// A copy of an optional string.
pub fn clone_opt(o: &Option<String>) -> (r: Option<String>)
    ensures
        r == *o,
{
    match o {
        Some(s) => Some(s.clone()),
        None => None,
    }
}

/// Whether `text` begins with `prefix`.
pub open spec fn has_prefix(text: Seq<char>, prefix: Seq<char>) -> bool {
    text.len() >= prefix.len() && text.take(prefix.len() as int) == prefix
}

/// Whether `pattern` stands in `chars` at position `at`.
fn stands_at(chars: &Vec<char>, at: usize, pattern: &Vec<char>) -> (r: bool)
    requires
        at <= chars@.len(),
    ensures
        r == has_prefix(chars@.skip(at as int), pattern@),
{
    if chars.len() - at < pattern.len() {
        return false;
    }
    for i in 0..pattern.len()
        invariant
            at + pattern.len() <= chars.len(),
            forall|j: int| 0 <= j < i ==> chars@[at + j] == pattern@[j],
    {
        if chars[at + i] != pattern[i] {
            proof {
                assert(chars@.skip(at as int).take(pattern@.len() as int)[i as int] == chars@[at
                    + i]);
            }
            return false;
        }
    }
    proof {
        assert(chars@.skip(at as int).take(pattern@.len() as int) =~= pattern@);
    }
    true
}

/// Whether `text` begins with `prefix`.
pub fn starts_with(text: &str, prefix: &str) -> (r: bool)
    ensures
        r == has_prefix(text@, prefix@),
{
    let t = chars_of(text);
    let p = chars_of(prefix);
    proof {
        assert(t@.skip(0) =~= t@);
    }
    stands_at(&t, 0, &p)
}

/// Whether `pattern` occurs in `text`.
pub open spec fn occurs_in(text: Seq<char>, pattern: Seq<char>) -> bool {
    exists|i: int| 0 <= i <= text.len() && has_prefix(#[trigger] text.skip(i), pattern)
}

/// Whether `pattern` occurs in `text`.
pub fn contains(text: &str, pattern: &str) -> (r: bool)
    ensures
        r == occurs_in(text@, pattern@),
{
    let t = chars_of(text);
    let p = chars_of(pattern);
    let mut i: usize = 0;
    while i < t.len()
        invariant
            i <= t@.len(),
            t@ == text@,
            p@ == pattern@,
            forall|j: int| 0 <= j < i ==> !has_prefix(#[trigger] t@.skip(j), p@),
        decreases t@.len() - i,
    {
        if stands_at(&t, i, &p) {
            return true;
        }
        i += 1;
    }
    stands_at(&t, i, &p)
}

// ---------------------------------------------------------------------------------------------
// Numbers
// ---------------------------------------------------------------------------------------------

/// The character of one decimal digit.
pub open spec fn digit(d: nat) -> char {
    ('0' as nat + d) as char
}

/// The decimal notation of a natural number.
pub open spec fn decimal(n: nat) -> Seq<char>
    decreases n,
{
    if n < 10 {
        seq![digit(n)]
    } else {
        decimal(n / 10).push(digit(n % 10))
    }
}

/// The decimal notation of an integer, with a leading minus sign where it is negative.
pub open spec fn signed_decimal(i: int) -> Seq<char> {
    if i < 0 {
        seq!['-'] + decimal((-i) as nat)
    } else {
        decimal(i as nat)
    }
}

/// The character of one lower-case hexadecimal digit.
pub open spec fn hex_digit(d: nat) -> char {
    if d < 10 {
        ('0' as nat + d) as char
    } else {
        ('a' as nat + (d - 10)) as char
    }
}

/// The lower-case hexadecimal notation of `n`, cut to its last `width` digits and filled up with
/// zeros on the left.
pub open spec fn hex_padded(n: nat, width: nat) -> Seq<char>
    decreases width,
{
    if width == 0 {
        Seq::empty()
    } else {
        hex_padded(n / 16, (width - 1) as nat).push(hex_digit(n % 16))
    }
}

/// `n` copies of one character.
pub open spec fn fill(c: char, n: nat) -> Seq<char> {
    Seq::new(n, |i: int| c)
}

/// `text` filled up on the left with `c` to at least `width` characters.
pub open spec fn padded_left(text: Seq<char>, width: nat, c: char) -> Seq<char> {
    if text.len() >= width {
        text
    } else {
        fill(c, (width - text.len()) as nat) + text
    }
}

/// `text` filled up on the right with blanks to at least `width` characters.
pub open spec fn padded_right(text: Seq<char>, width: nat) -> Seq<char> {
    if text.len() >= width {
        text
    } else {
        text + fill(' ', (width - text.len()) as nat)
    }
}

/// Appends `n` in decimal notation.
pub fn push_decimal(out: &mut String, n: u64)
    ensures
        final(out)@ == old(out)@ + decimal(n as nat),
    decreases n,
{
    if n >= 10 {
        push_decimal(out, n / 10);
    }
    let d: u8 = 48u8 + (n % 10) as u8;
    out.push(d as char);
    proof {
        assert(d as char == digit((n % 10) as nat));
        if n >= 10 {
            assert(decimal(n as nat) == decimal((n / 10) as nat).push(digit((n % 10) as nat)));
        }
        assert(out@ =~= old(out)@ + decimal(n as nat));
    }
}

/// Appends `n` in decimal notation, where it may need more than 64 bits.
pub fn push_wide(out: &mut String, n: u128)
    ensures
        final(out)@ == old(out)@ + decimal(n as nat),
    decreases n,
{
    if n <= u64::MAX as u128 {
        push_decimal(out, n as u64);
    } else {
        push_wide(out, n / 10);
        let d: u8 = 48u8 + (n % 10) as u8;
        out.push(d as char);
        proof {
            assert(d as char == digit((n % 10) as nat));
            assert(decimal(n as nat) == decimal((n / 10) as nat).push(digit((n % 10) as nat)));
            assert(out@ =~= old(out)@ + decimal(n as nat));
        }
    }
}

/// Appends `i` in decimal notation.
pub fn push_signed(out: &mut String, i: i64)
    ensures
        final(out)@ == old(out)@ + signed_decimal(i as int),
{
    if i < 0 {
        out.push('-');
        let magnitude: u64 = (-(i as i128)) as u64;
        push_decimal(out, magnitude);
        proof {
            assert(out@ =~= old(out)@ + signed_decimal(i as int));
        }
    } else {
        push_decimal(out, i as u64);
    }
}

/// Appends `n` as a hexadecimal number of `width` digits.
pub fn push_hex(out: &mut String, n: u32, width: u8)
    ensures
        final(out)@ == old(out)@ + hex_padded(n as nat, width as nat),
    decreases width,
{
    if width > 0 {
        push_hex(out, n / 16, width - 1);
        let d: u8 = (n % 16) as u8;
        let c: u8 = if d < 10 {
            48u8 + d
        } else {
            97u8 + (d - 10)
        };
        out.push(c as char);
        proof {
            assert(c as char == hex_digit((n % 16) as nat));
        }
    }
    proof {
        assert(out@ =~= old(out)@ + hex_padded(n as nat, width as nat));
    }
}

/// The decimal notation of `n`.
pub fn decimal_text(n: u64) -> (r: String)
    ensures
        r@ == decimal(n as nat),
{
    let mut out = String::new();
    push_decimal(&mut out, n);
    proof {
        assert(out@ =~= decimal(n as nat));
    }
    out
}

/// The decimal notation of `i`.
pub fn signed_text(i: i64) -> (r: String)
    ensures
        r@ == signed_decimal(i as int),
{
    let mut out = String::new();
    push_signed(&mut out, i);
    proof {
        assert(out@ =~= signed_decimal(i as int));
    }
    out
}

/// Appends `n` copies of `c`.
fn push_fill(out: &mut String, c: char, n: usize)
    ensures
        final(out)@ == old(out)@ + fill(c, n as nat),
{
    let ghost before = out@;
    for i in 0..n
        invariant
            out@ == before + fill(c, i as nat),
    {
        out.push(c);
        proof {
            assert(out@ =~= before + fill(c, (i + 1) as nat));
        }
    }
    proof {
        assert(before + fill(c, 0) =~= before);
    }
}

/// Appends `text`, filled up on the left with `c` to at least `width` characters.
pub fn push_padded_left(out: &mut String, text: &str, width: usize, c: char)
    ensures
        final(out)@ == old(out)@ + padded_left(text@, width as nat, c),
{
    let len: usize = text.unicode_len();
    if len < width {
        push_fill(out, c, width - len);
        out.append(text);
        proof {
            assert(out@ =~= old(out)@ + padded_left(text@, width as nat, c));
        }
    } else {
        out.append(text);
    }
}

/// Appends `text`, filled up on the right with blanks to at least `width` characters.
pub fn push_padded_right(out: &mut String, text: &str, width: usize)
    ensures
        final(out)@ == old(out)@ + padded_right(text@, width as nat),
{
    let len: usize = text.unicode_len();
    out.append(text);
    if len < width {
        push_fill(out, ' ', width - len);
        proof {
            assert(out@ =~= old(out)@ + padded_right(text@, width as nat));
        }
    }
}

// ---------------------------------------------------------------------------------------------
// Trimming
// ---------------------------------------------------------------------------------------------

/// The characters with the Unicode property White_Space.
pub open spec fn is_space(c: char) -> bool {
    let u = c as u32;
    ||| 0x09 <= u <= 0x0d
    ||| u == 0x20
    ||| u == 0x85
    ||| u == 0xa0
    ||| u == 0x1680
    ||| 0x2000 <= u <= 0x200a
    ||| u == 0x2028
    ||| u == 0x2029
    ||| u == 0x202f
    ||| u == 0x205f
    ||| u == 0x3000
}

fn space(c: char) -> (r: bool)
    ensures
        r == is_space(c),
{
    let u: u32 = c as u32;
    (0x09 <= u && u <= 0x0d) || u == 0x20 || u == 0x85 || u == 0xa0 || u == 0x1680 || (0x2000 <= u
        && u <= 0x200a) || u == 0x2028 || u == 0x2029 || u == 0x202f || u == 0x205f || u == 0x3000
}

/// `s` without its leading white space.
pub open spec fn trimmed_start(s: Seq<char>) -> Seq<char>
    decreases s.len(),
{
    if s.len() > 0 && is_space(s[0]) {
        trimmed_start(s.drop_first())
    } else {
        s
    }
}

/// `s` without its trailing white space.
pub open spec fn trimmed_end(s: Seq<char>) -> Seq<char>
    decreases s.len(),
{
    if s.len() > 0 && is_space(s.last()) {
        trimmed_end(s.drop_last())
    } else {
        s
    }
}

/// `s` without white space at either end.
pub open spec fn trimmed(s: Seq<char>) -> Seq<char> {
    trimmed_end(trimmed_start(s))
}

/// `text` without white space at either end.
pub fn trim(text: &str) -> (r: String)
    ensures
        r@ == trimmed(text@),
{
    let chars = chars_of(text);
    let mut from: usize = 0;
    proof {
        assert(chars@.skip(0) =~= text@);
    }
    while from < chars.len() && space(chars[from])
        invariant
            from <= chars@.len(),
            chars@ == text@,
            trimmed_start(chars@.skip(from as int)) == trimmed_start(text@),
        decreases chars@.len() - from,
    {
        proof {
            assert(chars@.skip(from as int).drop_first() =~= chars@.skip(from + 1));
        }
        from += 1;
    }
    let ghost rest = chars@.skip(from as int);
    let mut to: usize = chars.len();
    proof {
        assert(chars@.subrange(from as int, to as int) =~= rest);
    }
    while to > from && space(chars[to - 1])
        invariant
            from <= to <= chars@.len(),
            trimmed_end(chars@.subrange(from as int, to as int)) == trimmed_end(rest),
        decreases to,
    {
        proof {
            assert(chars@.subrange(from as int, to as int).drop_last() =~= chars@.subrange(
                from as int,
                to - 1,
            ));
        }
        to -= 1;
    }
    string_of(&chars, from, to)
}

/// `s` without the leading copies of `c`.
pub open spec fn stripped_start(s: Seq<char>, c: char) -> Seq<char>
    decreases s.len(),
{
    if s.len() > 0 && s[0] == c {
        stripped_start(s.drop_first(), c)
    } else {
        s
    }
}

/// `s` without the trailing copies of `c`.
pub open spec fn stripped_end(s: Seq<char>, c: char) -> Seq<char>
    decreases s.len(),
{
    if s.len() > 0 && s.last() == c {
        stripped_end(s.drop_last(), c)
    } else {
        s
    }
}

/// `s` without the copies of `c` at either end.
pub open spec fn stripped(s: Seq<char>, c: char) -> Seq<char> {
    stripped_end(stripped_start(s, c), c)
}

/// `text` without the copies of `c` at either end.
pub fn strip(text: &str, c: char) -> (r: String)
    ensures
        r@ == stripped(text@, c),
{
    let chars = chars_of(text);
    let mut from: usize = 0;
    proof {
        assert(chars@.skip(0) =~= text@);
    }
    while from < chars.len() && chars[from] == c
        invariant
            from <= chars@.len(),
            chars@ == text@,
            stripped_start(chars@.skip(from as int), c) == stripped_start(text@, c),
        decreases chars@.len() - from,
    {
        proof {
            assert(chars@.skip(from as int).drop_first() =~= chars@.skip(from + 1));
        }
        from += 1;
    }
    let ghost rest = chars@.skip(from as int);
    let mut to: usize = chars.len();
    proof {
        assert(chars@.subrange(from as int, to as int) =~= rest);
    }
    while to > from && chars[to - 1] == c
        invariant
            from <= to <= chars@.len(),
            stripped_end(chars@.subrange(from as int, to as int), c) == stripped_end(rest, c),
        decreases to,
    {
        proof {
            assert(chars@.subrange(from as int, to as int).drop_last() =~= chars@.subrange(
                from as int,
                to - 1,
            ));
        }
        to -= 1;
    }
    string_of(&chars, from, to)
}

/// `s` without the leading copies of a non-empty `prefix`.
pub open spec fn without_prefixes(s: Seq<char>, prefix: Seq<char>) -> Seq<char>
    decreases s.len(),
{
    if prefix.len() > 0 && has_prefix(s, prefix) {
        without_prefixes(s.skip(prefix.len() as int), prefix)
    } else {
        s
    }
}

/// `text` without the leading copies of a non-empty `prefix`.
pub fn strip_prefixes(text: &str, prefix: &str) -> (r: String)
    ensures
        r@ == without_prefixes(text@, prefix@),
{
    let chars = chars_of(text);
    let p = chars_of(prefix);
    let mut from: usize = 0;
    proof {
        assert(chars@.skip(0) =~= text@);
    }
    while p.len() > 0 && stands_at(&chars, from, &p)
        invariant
            from <= chars.len(),
            p@ == prefix@,
            without_prefixes(chars@.skip(from as int), prefix@) == without_prefixes(text@, prefix@),
        decreases chars@.len() - from,
    {
        proof {
            assert(chars@.skip(from as int).skip(p@.len() as int) =~= chars@.skip(
                from + p@.len(),
            ));
        }
        from = from + p.len();
    }
    proof {
        assert(chars@.subrange(from as int, chars@.len() as int) =~= chars@.skip(from as int));
    }
    string_of(&chars, from, chars.len())
}

// ---------------------------------------------------------------------------------------------
// Lines
// ---------------------------------------------------------------------------------------------

/// A line without the carriage return that stood before its line feed.
pub open spec fn without_cr(line: Seq<char>) -> Seq<char> {
    if line.len() > 0 && line.last() == '\r' {
        line.drop_last()
    } else {
        line
    }
}

/// The lines of a text from position `from` on, the current line having begun at `start`. A line
/// ends at a line feed or at the end of the text; a carriage return before the line feed is not
/// part of the line; nothing follows a final line feed.
pub open spec fn lines_from(text: Seq<char>, start: int, from: int) -> Seq<Seq<char>>
    decreases text.len() - from,
{
    if !(0 <= start <= from) || from >= text.len() {
        if 0 <= start < text.len() {
            seq![text.skip(start)]
        } else {
            Seq::empty()
        }
    } else if text[from] == '\n' {
        seq![without_cr(text.subrange(start, from))] + lines_from(text, from + 1, from + 1)
    } else {
        lines_from(text, start, from + 1)
    }
}

/// The lines of a text.
pub open spec fn lines(text: Seq<char>) -> Seq<Seq<char>> {
    lines_from(text, 0, 0)
}

/// The lines of a text.
pub fn lines_of(text: &str) -> (r: Vec<String>)
    ensures
        views(r@) == lines(text@),
{
    let chars = chars_of(text);
    let mut out: Vec<String> = Vec::new();
    let mut start: usize = 0;
    proof {
        assert(views(out@) + lines_from(text@, 0, 0) =~= lines(text@));
    }
    for i in 0..chars.len()
        invariant
            start <= i <= chars@.len(),
            chars@ == text@,
            views(out@) + lines_from(text@, start as int, i as int) == lines(text@),
    {
        if chars[i] == '\n' {
            let end: usize = if i > start && chars[i - 1] == '\r' {
                i - 1
            } else {
                i
            };
            let line = string_of(&chars, start, end);
            proof {
                assert(line@ =~= without_cr(text@.subrange(start as int, i as int)));
                assert(views(out@.push(line)) =~= views(out@).push(line@));
                assert(views(out@).push(line@) + lines_from(text@, i + 1, i + 1) =~= views(out@)
                    + lines_from(text@, start as int, i as int));
            }
            out.push(line);
            start = i + 1;
        }
    }
    if start < chars.len() {
        let line = string_of(&chars, start, chars.len());
        proof {
            assert(line@ =~= text@.skip(start as int));
            assert(views(out@.push(line)) =~= views(out@).push(line@));
            assert(views(out@).push(line@) =~= views(out@) + lines_from(
                text@,
                start as int,
                chars@.len() as int,
            ));
        }
        out.push(line);
    } else {
        proof {
            assert(views(out@) =~= views(out@) + lines_from(
                text@,
                start as int,
                chars@.len() as int,
            ));
        }
    }
    out
}

/// The position of the first of `all` that begins with `prefix`, or the length of `all`.
pub open spec fn first_with_prefix(all: Seq<Seq<char>>, prefix: Seq<char>) -> int
    decreases all.len(),
{
    if all.len() == 0 || has_prefix(all[0], prefix) {
        0
    } else {
        1 + first_with_prefix(all.drop_first(), prefix)
    }
}

/// The position of the first string that begins with `prefix`, or the length of the list.
pub fn find_prefixed(all: &Vec<String>, prefix: &str) -> (r: usize)
    ensures
        r == first_with_prefix(views(all@), prefix@),
        r <= all@.len(),
        r < all@.len() ==> has_prefix(all@[r as int]@, prefix@),
        forall|j: int| 0 <= j < r ==> !has_prefix(#[trigger] all@[j]@, prefix@),
{
    let ghost seq = views(all@);
    proof {
        assert(seq.skip(0) =~= seq);
    }
    for i in 0..all.len()
        invariant
            seq == views(all@),
            i + first_with_prefix(seq.skip(i as int), prefix@) == first_with_prefix(seq, prefix@),
            forall|j: int| 0 <= j < i ==> !has_prefix(#[trigger] all@[j]@, prefix@),
    {
        proof {
            assert(seq.skip(i as int)[0] == all@[i as int]@);
            assert(seq.skip(i as int).drop_first() =~= seq.skip(i + 1));
        }
        if starts_with(all[i].as_str(), prefix) {
            return i;
        }
    }
    all.len()
}

// ---------------------------------------------------------------------------------------------
// Parsing numbers
// ---------------------------------------------------------------------------------------------

/// Whether `c` is a decimal digit.
pub open spec fn is_digit(c: char) -> bool {
    '0' <= c <= '9'
}

/// The number that a row of decimal digits denotes.
pub open spec fn digits_value(s: Seq<char>) -> nat
    decreases s.len(),
{
    if s.len() == 0 {
        0
    } else {
        (digits_value(s.drop_last()) * 10 + (s.last() as nat - '0' as nat)) as nat
    }
}

/// Whether a text is a row of at least one decimal digit.
pub open spec fn all_digits(s: Seq<char>) -> bool {
    s.len() > 0 && (forall|i: int| 0 <= i < s.len() ==> is_digit(#[trigger] s[i]))
}

/// A text without a leading plus sign.
pub open spec fn without_plus(s: Seq<char>) -> Seq<char> {
    if s.len() > 0 && s[0] == '+' {
        s.drop_first()
    } else {
        s
    }
}

/// The natural number that a text denotes: decimal digits, at least one, after at most one plus
/// sign.
pub open spec fn natural(s: Seq<char>) -> Option<nat> {
    if all_digits(without_plus(s)) {
        Some(digits_value(without_plus(s)))
    } else {
        None
    }
}

/// The natural number that a text denotes, if it is at most `max`.
pub open spec fn natural_up_to(s: Seq<char>, max: nat) -> Option<nat> {
    match natural(s) {
        Some(n) => if n <= max {
            Some(n)
        } else {
            None
        },
        None => None,
    }
}

/// The natural number that `text` denotes, if it is at most `max`.
pub fn parse_natural(text: &str, max: u32) -> (r: Option<u32>)
    ensures
        match r {
            Some(n) => natural_up_to(text@, max as nat) == Some(n as nat),
            None => natural_up_to(text@, max as nat) is None,
        },
{
    let chars = chars_of(text);
    let start: usize = if chars.len() > 0 && chars[0] == '+' {
        1
    } else {
        0
    };
    let ghost digits = chars@.skip(start as int);
    proof {
        assert(digits =~= without_plus(text@));
    }
    if start == chars.len() {
        return None;
    }
    let mut value: u64 = 0;
    let mut too_large = false;
    for i in start..chars.len()
        invariant
            start <= i <= chars@.len(),
            start < chars@.len(),
            digits == chars@.skip(start as int),
            digits == without_plus(text@),
            forall|j: int| 0 <= j < i - start ==> is_digit(#[trigger] digits[j]),
            !too_large ==> value <= max && value == digits_value(digits.take(i - start)),
            too_large ==> digits_value(digits.take(i - start)) > max,
    {
        let c = chars[i];
        proof {
            assert(digits[i - start] == c);
            assert(digits.take(i + 1 - start).drop_last() =~= digits.take(i - start));
        }
        if c < '0' || c > '9' {
            proof {
                assert(!is_digit(digits[i - start]));
            }
            return None;
        }
        if !too_large {
            let d: u64 = c as u64 - '0' as u64;
            value = value * 10 + d;
            if value > max as u64 {
                too_large = true;
            }
        }
    }
    proof {
        assert(digits.take(digits.len() as int) =~= digits);
    }
    if too_large {
        None
    } else {
        Some(value as u32)
    }
}

// ---------------------------------------------------------------------------------------------
// Sorting and joining
// ---------------------------------------------------------------------------------------------

/// The lexicographic order on character sequences.
pub open spec fn lex_le(a: Seq<char>, b: Seq<char>) -> bool
    decreases a.len(),
{
    if a.len() == 0 {
        true
    } else if b.len() == 0 {
        false
    } else if a[0] == b[0] {
        lex_le(a.drop_first(), b.drop_first())
    } else {
        a[0] < b[0]
    }
}

/// The lexicographic order is total.
pub proof fn lemma_lex_total(a: Seq<char>, b: Seq<char>)
    ensures
        lex_le(a, b) || lex_le(b, a),
    decreases a.len(),
{
    if a.len() > 0 && b.len() > 0 && a[0] == b[0] {
        lemma_lex_total(a.drop_first(), b.drop_first());
    }
}

/// The lexicographic order is transitive.
pub proof fn lemma_lex_transitive(a: Seq<char>, b: Seq<char>, c: Seq<char>)
    requires
        lex_le(a, b),
        lex_le(b, c),
    ensures
        lex_le(a, c),
    decreases a.len(),
{
    if a.len() > 0 && b.len() > 0 && c.len() > 0 && a[0] == b[0] && b[0] == c[0] {
        lemma_lex_transitive(a.drop_first(), b.drop_first(), c.drop_first());
    }
}

/// Two sequences that precede each other are the same.
pub proof fn lemma_lex_antisymmetric(a: Seq<char>, b: Seq<char>)
    requires
        lex_le(a, b),
        lex_le(b, a),
    ensures
        a == b,
    decreases a.len(),
{
    if a.len() > 0 && b.len() > 0 {
        lemma_lex_antisymmetric(a.drop_first(), b.drop_first());
        assert(a =~= seq![a[0]] + a.drop_first());
        assert(b =~= seq![b[0]] + b.drop_first());
    } else {
        assert(a =~= b);
    }
}

/// Whether the strings stand in ascending lexicographic order.
pub open spec fn is_sorted(s: Seq<Seq<char>>) -> bool {
    forall|i: int, j: int| 0 <= i < j < s.len() ==> lex_le(#[trigger] s[i], #[trigger] s[j])
}

fn precedes(a: &str, b: &str) -> (r: bool)
    ensures
        r == lex_le(a@, b@),
{
    let x = chars_of(a);
    let y = chars_of(b);
    let mut i: usize = 0;
    proof {
        assert(x@.skip(0) =~= a@);
        assert(y@.skip(0) =~= b@);
    }
    while i < x.len() && i < y.len() && x[i] == y[i]
        invariant
            i <= x@.len(),
            i <= y@.len(),
            lex_le(x@.skip(i as int), y@.skip(i as int)) == lex_le(a@, b@),
        decreases x@.len() - i,
    {
        proof {
            assert(x@.skip(i as int).drop_first() =~= x@.skip(i + 1));
            assert(y@.skip(i as int).drop_first() =~= y@.skip(i + 1));
        }
        i += 1;
    }
    if i == x.len() {
        true
    } else if i == y.len() {
        false
    } else {
        x[i] < y[i]
    }
}

/// Whether a list holds the texts of another one, in ascending lexicographic order.
pub open spec fn is_sorting_of(sorted: Seq<Seq<char>>, items: Seq<Seq<char>>) -> bool {
    is_sorted(sorted) && sorted.to_multiset() == items.to_multiset()
}

/// The same texts in ascending lexicographic order.
pub open spec fn in_order(items: Seq<Seq<char>>) -> Seq<Seq<char>> {
    choose|sorted: Seq<Seq<char>>| is_sorting_of(sorted, items)
}

proof fn lemma_lex_is_total_ordering()
    ensures
        vstd::relations::total_ordering(|a: Seq<char>, b: Seq<char>| lex_le(a, b)),
{
    let leq = |a: Seq<char>, b: Seq<char>| lex_le(a, b);
    assert forall|a: Seq<char>| #[trigger] leq(a, a) by {
        lemma_lex_total(a, a);
    }
    assert forall|a: Seq<char>, b: Seq<char>| #[trigger] leq(a, b) && #[trigger] leq(b, a) implies a
        == b by {
        lemma_lex_antisymmetric(a, b);
    }
    assert forall|a: Seq<char>, b: Seq<char>, c: Seq<char>| #[trigger]
        leq(a, b) && #[trigger] leq(b, c) implies leq(a, c) by {
        lemma_lex_transitive(a, b, c);
    }
    assert forall|a: Seq<char>, b: Seq<char>| #[trigger] leq(a, b) || #[trigger] leq(b, a) by {
        lemma_lex_total(a, b);
    }
    assert(vstd::relations::total_ordering(leq));
}

/// Any texts can be put in ascending order, and [`in_order`] does so.
pub proof fn texts_can_be_put_in_order(items: Seq<Seq<char>>)
    ensures
        is_sorting_of(in_order(items), items),
{
    let leq = |a: Seq<char>, b: Seq<char>| lex_le(a, b);
    lemma_lex_is_total_ordering();
    items.lemma_sort_by_ensures(leq);
    let sorted = items.sort_by(leq);
    assert forall|i: int, j: int| 0 <= i < j < sorted.len() implies lex_le(
        #[trigger] sorted[i],
        #[trigger] sorted[j],
    ) by {
        assert(leq(sorted[i], sorted[j]));
    }
    assert(is_sorting_of(sorted, items));
}

/// There is only one way to put texts in ascending order: a list that does is the one that
/// [`in_order`] speaks of.
pub proof fn sorted_lists_are_unique(sorted: Seq<Seq<char>>, items: Seq<Seq<char>>)
    requires
        is_sorting_of(sorted, items),
    ensures
        in_order(items) == sorted,
{
    let other = in_order(items);
    assert(is_sorting_of(other, items));
    let leq = |a: Seq<char>, b: Seq<char>| lex_le(a, b);
    lemma_lex_is_total_ordering();
    assert(vstd::relations::sorted_by(sorted, leq));
    assert(vstd::relations::sorted_by(other, leq));
    vstd::seq_lib::lemma_sorted_unique(sorted, other, leq);
}

/// The same strings in ascending lexicographic order.
pub fn sorted(items: Vec<String>) -> (r: Vec<String>)
    ensures
        views(r@) == in_order(views(items@)),
{
    let mut out: Vec<String> = Vec::new();
    proof {
        assert(views(out@) =~= views(items@).take(0));
    }
    for k in 0..items.len()
        invariant
            is_sorted(views(out@)),
            views(out@).to_multiset() == views(items@).take(k as int).to_multiset(),
            out@.len() == k,
    {
        let item = items[k].clone();
        let ghost before = views(out@);
        let mut at: usize = out.len();
        while at > 0 && !precedes(out[at - 1].as_str(), item.as_str())
            invariant
                at <= out@.len(),
                before == views(out@),
                is_sorted(before),
                forall|j: int| at <= j < out@.len() ==> !lex_le(#[trigger] before[j], item@),
            decreases at,
        {
            at -= 1;
        }
        out.insert(at, item);
        proof {
            assert(views(out@) =~= before.insert(at as int, item@));
            lemma_insert_sorted(before, at as int, item@);
            lemma_insert_multiset(before, at as int, item@);
            views(items@).take(k as int).to_multiset_ensures();
            assert(views(items@).take(k + 1) =~= views(items@).take(k as int).push(item@));
        }
    }
    proof {
        assert(views(items@).take(items@.len() as int) =~= views(items@));
        sorted_lists_are_unique(views(out@), views(items@));
    }
    out
}

proof fn lemma_insert_multiset(s: Seq<Seq<char>>, at: int, x: Seq<char>)
    requires
        0 <= at <= s.len(),
    ensures
        s.insert(at, x).to_multiset() == s.to_multiset().insert(x),
{
    broadcast use vstd::seq_lib::group_to_multiset_ensures;
    s.to_multiset_ensures();
    let l = s.take(at);
    let r = s.skip(at);
    assert(s =~= l + r);
    assert(s.insert(at, x) =~= l.push(x) + r);
    vstd::seq_lib::lemma_multiset_commutative(l, r);
    vstd::seq_lib::lemma_multiset_commutative(l.push(x), r);
    assert(l.push(x).to_multiset() =~= l.to_multiset().insert(x));
    assert(s.insert(at, x).to_multiset() =~= s.to_multiset().insert(x));
}

proof fn lemma_insert_sorted(s: Seq<Seq<char>>, at: int, x: Seq<char>)
    requires
        is_sorted(s),
        0 <= at <= s.len(),
        at > 0 ==> lex_le(s[at - 1], x),
        forall|j: int| at <= j < s.len() ==> !lex_le(#[trigger] s[j], x),
    ensures
        is_sorted(s.insert(at, x)),
{
    let t = s.insert(at, x);
    assert forall|i: int, j: int| 0 <= i < j < t.len() implies lex_le(
        #[trigger] t[i],
        #[trigger] t[j],
    ) by {
        if j == at {
            assert(t[i] == s[i]);
            if i < at - 1 {
                lemma_lex_transitive(s[i], s[at - 1], x);
            }
        } else if i == at {
            assert(t[j] == s[j - 1]);
            lemma_lex_total(s[j - 1], x);
        } else {
            let a = if i < at {
                i
            } else {
                i - 1
            };
            let b = if j < at {
                j
            } else {
                j - 1
            };
            assert(t[i] == s[a] && t[j] == s[b]);
        }
    }
}

/// A list of strings written one after the other with `sep` between them.
pub open spec fn joined(parts: Seq<Seq<char>>, sep: Seq<char>) -> Seq<char>
    decreases parts.len(),
{
    if parts.len() == 0 {
        Seq::empty()
    } else if parts.len() == 1 {
        parts[0]
    } else {
        joined(parts.drop_last(), sep) + sep + parts.last()
    }
}

/// The strings written one after the other with `sep` between them.
pub fn join(parts: &Vec<String>, sep: &str) -> (r: String)
    ensures
        r@ == joined(views(parts@), sep@),
{
    let mut out = String::new();
    for i in 0..parts.len()
        invariant
            out@ == joined(views(parts@).take(i as int), sep@),
    {
        proof {
            assert(views(parts@).take(i + 1).drop_last() =~= views(parts@).take(i as int));
        }
        if i > 0 {
            out.append(sep);
        }
        out.append(parts[i].as_str());
        proof {
            assert(out@ =~= joined(views(parts@).take(i + 1), sep@));
        }
    }
    proof {
        assert(views(parts@).take(parts@.len() as int) =~= views(parts@));
    }
    out
}

// ---------------------------------------------------------------------------------------------
// Paths
// ---------------------------------------------------------------------------------------------

/// A relative name below a directory.
pub open spec fn below(dir: Seq<char>, name: Seq<char>) -> Seq<char> {
    if dir.len() == 0 || dir.last() == '/' {
        dir + name
    } else {
        dir + "/"@ + name
    }
}

/// The path of a relative name below a directory: a slash stands between them, unless the
/// directory ends in one or is empty.
pub fn path_below(dir: &str, name: &str) -> (r: String)
    ensures
        r@ == below(dir@, name@),
{
    let chars = chars_of(dir);
    let mut out = dir.to_owned();
    if chars.len() > 0 && chars[chars.len() - 1] != '/' {
        out.append("/");
    }
    out.append(name);
    out
}

// ---------------------------------------------------------------------------------------------
// Truth values in reports
// ---------------------------------------------------------------------------------------------

/// A truth value as it appears in reports.
pub open spec fn truth(b: bool) -> Seq<char> {
    if b {
        "true"@
    } else {
        "false"@
    }
}

/// A truth value as it appears in reports.
pub fn truth_text(b: bool) -> (r: &'static str)
    ensures
        r@ == truth(b),
{
    if b {
        "true"
    } else {
        "false"
    }
}

// ---------------------------------------------------------------------------------------------
// Optional values in reports
// ---------------------------------------------------------------------------------------------

/// An optional text as it appears in reports: `Some("text")` or `None`.
pub open spec fn opt_text_form(o: Option<String>) -> Seq<char> {
    match o {
        Some(s) => "Some("@ + quoted_text(s@) + ")"@,
        None => "None"@,
    }
}

/// An optional byte as it appears in reports: `Some(1)` or `None`.
pub open spec fn opt_byte_form(o: Option<u8>) -> Seq<char> {
    match o {
        Some(b) => "Some("@ + decimal(b as nat) + ")"@,
        None => "None"@,
    }
}

/// Appends an optional text as it appears in reports.
pub fn push_opt_text(out: &mut String, o: &Option<String>)
    ensures
        final(out)@ == old(out)@ + opt_text_form(*o),
{
    let ghost before = out@;
    match o {
        Some(s) => {
            out.append("Some(");
            out.append(quoted(s.as_str()).as_str());
            out.append(")");
        },
        None => {
            out.append("None");
        },
    }
    proof {
        assert(out@ =~= before + opt_text_form(*o));
    }
}

/// Appends an optional byte as it appears in reports.
pub fn push_opt_byte(out: &mut String, o: Option<u8>)
    ensures
        final(out)@ == old(out)@ + opt_byte_form(o),
{
    let ghost before = out@;
    match o {
        Some(b) => {
            out.append("Some(");
            push_decimal(out, b as u64);
            out.append(")");
        },
        None => {
            out.append("None");
        },
    }
    proof {
        assert(out@ =~= before + opt_byte_form(o));
    }
}

// ---------------------------------------------------------------------------------------------
// Calls into std
// ---------------------------------------------------------------------------------------------

/// What `str::to_lowercase` of std returns: the text with every character replaced by its
/// lower-case mapping in the Unicode tables.
pub uninterp spec fn lowercase(s: Seq<char>) -> Seq<char>;

/// The lower-case form of an ASCII character.
pub open spec fn ascii_lower(c: char) -> char {
    if 'A' <= c <= 'Z' {
        (c as u32 + 32) as char
    } else {
        c
    }
}

/// `str::to_lowercase` of std. Its result is a function of the text alone, named [`lowercase`];
/// on a text of ASCII characters it maps `A` to `Z` to `a` to `z` and keeps the others.
#[verifier::external_body]
pub(crate) fn to_lower(s: &str) -> (r: String)
    ensures
        r@ == lowercase(s@),
        is_ascii_chars(s@) ==> r@ == s@.map_values(|c: char| ascii_lower(c)),
{
    s.to_lowercase()
}

/// What the `{:?}` form of a string in a `format!` of std is: the string in double quotes, with
/// quotes, backslashes and characters that do not print escaped.
pub uninterp spec fn debug_form(s: Seq<char>) -> Seq<char>;

/// Whether a text holds only printable ASCII characters, and neither quotes nor backslashes.
pub open spec fn is_plain(s: Seq<char>) -> bool {
    forall|i: int|
        0 <= i < s.len() ==> ' ' <= #[trigger] s[i] <= '~' && s[i] != '"' && s[i] != '\\' && s[i]
            != '\''
}

/// A text between double quotes, with what needs it escaped.
pub open spec fn quoted_text(s: Seq<char>) -> Seq<char> {
    if is_plain(s) {
        seq!['"'] + s + seq!['"']
    } else {
        debug_form(s)
    }
}

/// The `{:?}` form of a string, by `format!` of std. Its result is a function of the text alone,
/// named [`debug_form`]; a text of printable ASCII characters without quotes and backslashes
/// stands in it as it is, between double quotes.
#[verifier::external_body]
pub(crate) fn quoted(s: &str) -> (r: String)
    ensures
        r@ == debug_form(s@),
        is_plain(s@) ==> r@ == seq!['"'] + s@ + seq!['"'],
{
    format!("{:?}", s)
}

/// What `String::from_utf8_lossy` of std makes of a byte sequence: the text that it encodes, with
/// the replacement character U+FFFD in place of what is not valid UTF-8.
pub uninterp spec fn utf8_lossy(bytes: Seq<u8>) -> Seq<char>;

/// The text that bytes encode in UTF-8, as far as they are valid.
pub open spec fn lossy_text(bytes: Seq<u8>) -> Seq<char> {
    if valid_utf8(bytes) {
        decode_utf8(bytes)
    } else {
        utf8_lossy(bytes)
    }
}

/// `String::from_utf8_lossy` of std. Its result is a function of the bytes alone, named
/// [`utf8_lossy`]; bytes that are valid UTF-8 give the text that they encode.
#[verifier::external_body]
pub(crate) fn from_utf8_lossy(bytes: &[u8]) -> (r: String)
    ensures
        r@ == utf8_lossy(bytes@),
        valid_utf8(bytes@) ==> r@ == decode_utf8(bytes@),
{
    String::from_utf8_lossy(bytes).to_string()
}

// ---------------------------------------------------------------------------------------------
// Laws
// ---------------------------------------------------------------------------------------------

/// A number that is written in decimal reads back as the same number. It has no sign and no leading
/// zero, and one digit for each power of ten that it reaches.
pub proof fn numbers_read_back(n: nat)
    ensures
        natural(decimal(n)) == Some(n),
        decimal(n).len() >= 1,
        decimal(n)[0] == '0' <==> n == 0,
        decimal(n).len() == 1 <==> n < 10,
        decimal(n).len() == 2 <==> 10 <= n < 100,
        decimal(10 * n + 7).len() == decimal(n).len() + 1 || n == 0,
        decimal(n).last() as int == '0' as int + n % 10,
    decreases n,
{
    assert(without_plus(decimal(n)) == decimal(n)) by {
        lemma_decimal_digits(n);
    }
    lemma_decimal_digits(n);
    assert((10 * n + 7) / 10 == n);
    if n >= 10 {
        numbers_read_back(n / 10);
        lemma_decimal_digits(n / 10);
        assert(decimal(n).drop_last() =~= decimal(n / 10));
    } else {
        assert(decimal(n).drop_last() =~= Seq::empty());
        assert(digits_value(decimal(n).drop_last()) == 0);
    }
}

proof fn lemma_decimal_digits(n: nat)
    ensures
        all_digits(decimal(n)),
    decreases n,
{
    if n >= 10 {
        lemma_decimal_digits(n / 10);
    }
}

/// One more digit makes a number ten times as large and adds the digit; a plus sign in front does not
/// count, and anything but digits makes no number.
pub proof fn digits_count_tenfold(s: Seq<char>, n: nat, c: char)
    requires
        natural(s) == Some(n),
    ensures
        '0' <= c <= '9' ==> natural(s.push(c)) == Some((10 * n + (c as int - '0' as int)) as nat),
        !('0' <= c <= '9') ==> natural(s.push(c)) is None,
        s[0] != '+' ==> natural(seq!['+'] + s) == Some(n),
        natural(Seq::empty()) is None,
{
    let t = without_plus(s);
    assert(without_plus(s.push(c)) =~= t.push(c));
    assert(t.push(c).drop_last() =~= t);
    assert forall|i: int| 0 <= i < t.len() implies t.push(c)[i] == t[i] by {}
    assert(t.push(c)[t.len() as int] == c);
    if '0' <= c <= '9' {
        assert(all_digits(t.push(c)));
    }
    assert((seq!['+'] + s).drop_first() =~= s);
}

/// A negative number is written as its amount behind a minus sign.
pub proof fn signs_come_first(i: int)
    ensures
        i < 0 ==> signed_decimal(i)[0] == '-' && natural(signed_decimal(i).drop_first()) == Some(
            (-i) as nat,
        ),
        i >= 0 ==> natural(signed_decimal(i)) == Some(i as nat),
{
    if i < 0 {
        numbers_read_back((-i) as nat);
        assert(signed_decimal(i).drop_first() =~= decimal((-i) as nat));
    } else {
        numbers_read_back(i as nat);
    }
}

/// Hexadecimal digits go from 0 to 9 and on from a to f, the lowest one last, and as many are written
/// as were asked for.
pub proof fn hex_digits_have_their_weight(high: nat, low: nat, width: nat)
    requires
        low < 16,
    ensures
        hex_padded(16 * high + low, width).len() == width,
        hex_padded(16 * high + low, width + 1).drop_last() == hex_padded(high, width),
        low < 10 ==> hex_padded(16 * high + low, width + 1).last() as int == '0' as int + low,
        low >= 10 ==> hex_padded(16 * high + low, width + 1).last() as int == 'a' as int + low - 10,
    decreases width,
{
    assert((16 * high + low) / 16 == high);
    assert((16 * high + low) % 16 == low);
    if width > 0 {
        hex_digits_have_their_weight(high / 16, high % 16, (width - 1) as nat);
        assert(16 * (high / 16) + high % 16 == high);
    }
    assert(hex_padded(16 * high + low, width + 1).drop_last() =~= hex_padded(high, width));
}

/// A padded text is as long as was asked for, unless it was longer before. It keeps the text at its
/// end, or at its beginning, and the rest is filled.
pub proof fn padding_fills_up(text: Seq<char>, width: nat, c: char)
    ensures
        text.len() >= width ==> padded_left(text, width, c) == text && padded_right(text, width)
            == text,
        text.len() < width ==> padded_left(text, width, c).len() == width && padded_right(
            text,
            width,
        ).len() == width,
        padded_left(text, width, c).skip(padded_left(text, width, c).len() - text.len()) == text,
        padded_right(text, width).take(text.len() as int) == text,
        forall|i: int|
            0 <= i < width - text.len() ==> #[trigger] padded_left(text, width, c)[i] == c,
        forall|i: int|
            text.len() <= i < width ==> #[trigger] padded_right(text, width)[i] == ' ',
{
    let left = padded_left(text, width, c);
    assert(left.skip(left.len() - text.len()) =~= text);
    assert(padded_right(text, width).take(text.len() as int) =~= text);
}

/// A trimmed text is the part of the text from the first to the last character that is no space.
pub proof fn trimming_takes_the_outer_spaces(s: Seq<char>) -> (r: (int, int))
    ensures
        0 <= r.0 <= r.1 <= s.len(),
        trimmed(s) == s.subrange(r.0, r.1),
        forall|i: int| 0 <= i < r.0 ==> is_space(#[trigger] s[i]),
        forall|i: int| r.1 <= i < s.len() ==> is_space(#[trigger] s[i]),
        r.0 < r.1 ==> !is_space(s[r.0]) && !is_space(s[r.1 - 1]),
{
    let a = lemma_trimmed_start(s);
    let t = s.skip(a);
    let b = lemma_trimmed_end(t);
    assert(t.take(b) =~= s.subrange(a, a + b));
    assert forall|i: int| a + b <= i < s.len() implies is_space(#[trigger] s[i]) by {
        assert(t[i - a] == s[i]);
    }
    if b > 0 {
        assert(t[0] == s[a]);
        assert(t[b - 1] == s[a + b - 1]);
    }
    (a, a + b)
}

proof fn lemma_trimmed_start(s: Seq<char>) -> (a: int)
    ensures
        0 <= a <= s.len(),
        trimmed_start(s) == s.skip(a),
        forall|i: int| 0 <= i < a ==> is_space(#[trigger] s[i]),
        a < s.len() ==> !is_space(s[a]),
    decreases s.len(),
{
    if s.len() > 0 && is_space(s[0]) {
        let b = lemma_trimmed_start(s.drop_first());
        assert(s.drop_first().skip(b) =~= s.skip(b + 1));
        assert forall|i: int| 0 <= i < b + 1 implies is_space(#[trigger] s[i]) by {
            if i > 0 {
                assert(s.drop_first()[i - 1] == s[i]);
            }
        }
        b + 1
    } else {
        assert(s.skip(0) =~= s);
        0
    }
}

proof fn lemma_trimmed_end(s: Seq<char>) -> (b: int)
    ensures
        0 <= b <= s.len(),
        trimmed_end(s) == s.take(b),
        forall|i: int| b <= i < s.len() ==> is_space(#[trigger] s[i]),
        b > 0 ==> !is_space(s[b - 1]),
    decreases s.len(),
{
    if s.len() > 0 && is_space(s.last()) {
        let b = lemma_trimmed_end(s.drop_last());
        assert(s.drop_last().take(b) =~= s.take(b));
        assert forall|i: int| b <= i < s.len() implies is_space(#[trigger] s[i]) by {
            if i < s.len() - 1 {
                assert(s.drop_last()[i] == s[i]);
            }
        }
        b
    } else {
        assert(s.take(s.len() as int) =~= s);
        s.len() as int
    }
}

/// Blanks, tabs and the ends of lines are spaces; the characters that can be seen are none.
pub proof fn visible_characters_are_no_spaces(c: char)
    requires
        (c as u32) < 0x80,
    ensures
        is_space(c) <==> c == ' ' || '\t' <= c <= '\r',
{
}

/// A stripped text is the part of the text from the first to the last character that is another one.
pub proof fn stripping_takes_the_outer_characters(s: Seq<char>, c: char) -> (r: (int, int))
    ensures
        0 <= r.0 <= r.1 <= s.len(),
        stripped(s, c) == s.subrange(r.0, r.1),
        forall|i: int| 0 <= i < r.0 ==> #[trigger] s[i] == c,
        forall|i: int| r.1 <= i < s.len() ==> #[trigger] s[i] == c,
        r.0 < r.1 ==> s[r.0] != c && s[r.1 - 1] != c,
{
    let a = lemma_stripped_start(s, c);
    let t = s.skip(a);
    let b = lemma_stripped_end(t, c);
    assert(t.take(b) =~= s.subrange(a, a + b));
    assert forall|i: int| a + b <= i < s.len() implies #[trigger] s[i] == c by {
        assert(t[i - a] == s[i]);
    }
    if b > 0 {
        assert(t[0] == s[a]);
        assert(t[b - 1] == s[a + b - 1]);
    }
    (a, a + b)
}

proof fn lemma_stripped_start(s: Seq<char>, c: char) -> (a: int)
    ensures
        0 <= a <= s.len(),
        stripped_start(s, c) == s.skip(a),
        forall|i: int| 0 <= i < a ==> #[trigger] s[i] == c,
        a < s.len() ==> s[a] != c,
    decreases s.len(),
{
    if s.len() > 0 && s[0] == c {
        let b = lemma_stripped_start(s.drop_first(), c);
        assert(s.drop_first().skip(b) =~= s.skip(b + 1));
        assert forall|i: int| 0 <= i < b + 1 implies #[trigger] s[i] == c by {
            if i > 0 {
                assert(s.drop_first()[i - 1] == s[i]);
            }
        }
        b + 1
    } else {
        assert(s.skip(0) =~= s);
        0
    }
}

proof fn lemma_stripped_end(s: Seq<char>, c: char) -> (b: int)
    ensures
        0 <= b <= s.len(),
        stripped_end(s, c) == s.take(b),
        forall|i: int| b <= i < s.len() ==> #[trigger] s[i] == c,
        b > 0 ==> s[b - 1] != c,
    decreases s.len(),
{
    if s.len() > 0 && s.last() == c {
        let b = lemma_stripped_end(s.drop_last(), c);
        assert(s.drop_last().take(b) =~= s.take(b));
        assert forall|i: int| b <= i < s.len() implies #[trigger] s[i] == c by {
            if i < s.len() - 1 {
                assert(s.drop_last()[i] == s[i]);
            }
        }
        b
    } else {
        assert(s.take(s.len() as int) =~= s);
        s.len() as int
    }
}

/// A prefix is taken off as often as it stands there, and nothing else is: putting it in front again
/// changes nothing, and what is left does not begin with it.
pub proof fn prefixes_are_taken_off(s: Seq<char>, prefix: Seq<char>)
    requires
        prefix.len() > 0,
    ensures
        without_prefixes(prefix + s, prefix) == without_prefixes(s, prefix),
        !has_prefix(without_prefixes(s, prefix), prefix),
        !has_prefix(s, prefix) ==> without_prefixes(s, prefix) == s,
    decreases s.len(),
{
    assert((prefix + s).take(prefix.len() as int) =~= prefix);
    assert((prefix + s).skip(prefix.len() as int) =~= s);
    if has_prefix(s, prefix) {
        prefixes_are_taken_off(s.skip(prefix.len() as int), prefix);
    }
}

/// A line goes up to the next line feed, without a carriage return before it; what follows the line
/// feed is divided by itself. A last line need not end, and is then taken as it is.
pub proof fn lines_end_at_line_feeds(line: Seq<char>, rest: Seq<char>)
    requires
        forall|i: int| 0 <= i < line.len() ==> #[trigger] line[i] != '\n',
    ensures
        lines(line + seq!['\n'] + rest) == seq![
            if line.len() > 0 && line.last() == '\r' {
                line.drop_last()
            } else {
                line
            },
        ] + lines(rest),
        line.len() > 0 ==> lines(line) == seq![line],
        lines(Seq::empty()).len() == 0,
{
    let whole = line + seq!['\n'] + rest;
    lemma_line(whole, 0, line.len() as int);
    assert(whole.subrange(0, line.len() as int) =~= line);
    let next = line.len() as int + 1;
    lemma_lines_of_rest(whole, next, next);
    assert(lines_from(whole.skip(next), next - next, next - next) == lines_from(whole, next, next));
    assert(whole.skip(next) =~= rest);
    if line.len() > 0 {
        lemma_last_line(line, 0);
        assert(line.skip(0) =~= line);
    }
}

proof fn lemma_line(text: Seq<char>, from: int, end: int)
    requires
        0 <= from <= end < text.len(),
        text[end] == '\n',
        forall|i: int| from <= i < end ==> #[trigger] text[i] != '\n',
    ensures
        lines_from(text, 0, from) == seq![without_cr(text.subrange(0, end))] + lines_from(
            text,
            end + 1,
            end + 1,
        ),
    decreases end - from,
{
    if from < end {
        lemma_line(text, from + 1, end);
    }
}

proof fn lemma_last_line(text: Seq<char>, from: int)
    requires
        0 <= from <= text.len(),
        text.len() > 0,
        forall|i: int| from <= i < text.len() ==> #[trigger] text[i] != '\n',
    ensures
        lines_from(text, 0, from) == seq![text.skip(0)],
    decreases text.len() - from,
{
    if from < text.len() {
        lemma_last_line(text, from + 1);
    }
}

proof fn lemma_lines_of_rest(text: Seq<char>, start: int, from: int)
    requires
        0 <= start <= from <= text.len(),
    ensures
        forall|k: int|
            0 <= k <= start ==> #[trigger] lines_from(text.skip(k), start - k, from - k)
                == lines_from(text, start, from),
    decreases text.len() - from,
{
    assert forall|k: int| 0 <= k <= start implies #[trigger] lines_from(
        text.skip(k),
        start - k,
        from - k,
    ) == lines_from(text, start, from) by {
        let t = text.skip(k);
        if from >= text.len() {
            if start < text.len() {
                assert(t.skip(start - k) =~= text.skip(start));
            }
        } else if text[from] == '\n' {
            assert(t[from - k] == text[from]);
            assert(t.subrange(start - k, from - k) =~= text.subrange(start, from));
            lemma_lines_of_rest(text, from + 1, from + 1);
            assert(lines_from(text.skip(k), from + 1 - k, from + 1 - k) == lines_from(
                text,
                from + 1,
                from + 1,
            ));
        } else {
            assert(t[from - k] == text[from]);
            lemma_lines_of_rest(text, start, from + 1);
            assert(lines_from(text.skip(k), start - k, from + 1 - k) == lines_from(
                text,
                start,
                from + 1,
            ));
        }
    }
}

/// The first text with a prefix has it, and none before it does; where none has it, its place is
/// behind the last one.
pub proof fn first_prefix_is_first(all: Seq<Seq<char>>, prefix: Seq<char>)
    ensures
        0 <= first_with_prefix(all, prefix) <= all.len(),
        first_with_prefix(all, prefix) < all.len() ==> has_prefix(
            all[first_with_prefix(all, prefix)],
            prefix,
        ),
        forall|i: int|
            0 <= i < first_with_prefix(all, prefix) ==> !has_prefix(#[trigger] all[i], prefix),
    decreases all.len(),
{
    if all.len() > 0 && !has_prefix(all[0], prefix) {
        first_prefix_is_first(all.drop_first(), prefix);
        assert forall|i: int| 0 <= i < first_with_prefix(all, prefix) implies !has_prefix(
            #[trigger] all[i],
            prefix,
        ) by {
            if i > 0 {
                assert(all.drop_first()[i - 1] == all[i]);
            }
        }
    }
}

/// A joined text begins with the first part and the separator, and goes on with the other parts.
pub proof fn parts_are_joined_in_order(first: Seq<char>, rest: Seq<Seq<char>>, sep: Seq<char>)
    requires
        rest.len() > 0,
    ensures
        joined(seq![first] + rest, sep) == first + sep + joined(rest, sep),
        joined(seq![first], sep) == first,
        joined(Seq::empty(), sep).len() == 0,
    decreases rest.len(),
{
    let all = seq![first] + rest;
    if rest.len() == 1 {
        assert(all.drop_last() =~= seq![first]);
        assert(all.last() == rest[0]);
        assert(joined(seq![first], sep) == first);
        assert(joined(all, sep) == joined(all.drop_last(), sep) + sep + all.last());
    } else {
        parts_are_joined_in_order(first, rest.drop_last(), sep);
        assert(all.drop_last() =~= seq![first] + rest.drop_last());
        assert(all.last() == rest.last());
        assert(joined(all, sep) == joined(all.drop_last(), sep) + sep + all.last());
        assert(first + sep + joined(rest.drop_last(), sep) + sep + rest.last() =~= first + sep + (
        joined(rest.drop_last(), sep) + sep + rest.last()));
    }
}

/// A name below a directory is the directory, one slash and the name; a slash that the directory ends
/// in is not doubled.
pub proof fn names_stand_behind_one_slash(dir: Seq<char>, name: Seq<char>)
    requires
        dir.len() > 0,
        dir.last() != '/',
    ensures
        below(dir, name) == dir + seq!['/'] + name,
        below(dir.push('/'), name) == dir + seq!['/'] + name,
        below(Seq::empty(), name) == name,
{
    reveal_strlit("/");
    assert("/"@ =~= seq!['/']);
    assert(dir.push('/') =~= dir + seq!['/']);
    assert(Seq::<char>::empty() + name =~= name);
}

/// The first place at which two texts differ decides which one comes first; a text comes before its
/// continuations.
pub proof fn first_difference_decides(common: Seq<char>, a: Seq<char>, b: Seq<char>)
    ensures
        a.len() > 0 && b.len() > 0 && a[0] < b[0] ==> lex_le(common + a, common + b) && !lex_le(
            common + b,
            common + a,
        ),
        lex_le(common, common + a),
        a.len() > 0 ==> !lex_le(common + a, common),
    decreases common.len(),
{
    if common.len() > 0 {
        first_difference_decides(common.drop_first(), a, b);
        assert((common + a).drop_first() =~= common.drop_first() + a);
        assert((common + b).drop_first() =~= common.drop_first() + b);
    } else {
        assert(common + a =~= a);
        assert(common + b =~= b);
    }
}

/// A text occurs in another where something stands before it and something behind it.
pub proof fn occurrences_have_surroundings(before: Seq<char>, pattern: Seq<char>, behind: Seq<char>)
    ensures
        occurs_in(before + pattern + behind, pattern),
        has_prefix(pattern + behind, pattern),
{
    let text = before + pattern + behind;
    assert(text.skip(before.len() as int) =~= pattern + behind);
    assert((pattern + behind).take(pattern.len() as int) =~= pattern);
}

/// A plain text is quoted as it is; only what is not plain needs more.
pub proof fn plain_texts_are_quoted(s: Seq<char>)
    requires
        forall|i: int| 0 <= i < s.len() ==> 'a' <= #[trigger] s[i] <= 'z' || s[i] == ' ',
    ensures
        quoted_text(s) == seq!['"'] + s + seq!['"'],
{
}

/// A text that holds quotes, backslashes or line feeds is not plain.
pub proof fn marked_texts_are_not_plain(s: Seq<char>, i: int)
    requires
        0 <= i < s.len(),
        s[i] == '"' || s[i] == '\\' || s[i] == '\'' || (s[i] as u32) < 32 || (s[i] as u32) > 126,
    ensures
        !is_plain(s),
{
}

/// A value is shown in brackets behind the word for it, and a missing one by its own word.
pub proof fn values_are_shown_in_brackets(s: String, b: u8)
    ensures
        opt_text_form(Some(s)) == "Some("@ + quoted_text(s@) + ")"@,
        opt_text_form(None) == "None"@,
        opt_byte_form(Some(b)) == "Some("@ + decimal(b as nat) + ")"@,
        opt_byte_form(None) == "None"@,
        truth(true) == "true"@ && truth(false) == "false"@,
{
}

/// A number is read up to its bound, and not beyond it.
pub proof fn numbers_are_read_up_to_their_bound(n: nat, max: nat)
    ensures
        n <= max ==> natural_up_to(decimal(n), max) == Some(n),
        n > max ==> natural_up_to(decimal(n), max) is None,
{
    numbers_read_back(n);
}

/// Bytes that are valid UTF-8 are read as the text that they encode.
pub proof fn encoded_texts_are_read_back(s: Seq<char>)
    ensures
        lossy_text(encode_utf8(s)) == s,
{
    encode_utf8_valid_utf8(s);
    encode_utf8_decode_utf8(s);
}

} // verus!
