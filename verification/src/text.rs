//! Strings as sequences of characters: trimming, splitting, joining and
//! number formatting, each with its meaning over `Seq<char>`.

use vstd::prelude::*;
use vstd::string::*;
use vstd::utf8::*;

verus! {

/// `String::push` appends the character to the string.
pub assume_specification[ String::push ](s: &mut String, c: char)
    ensures
        final(s)@ == old(s)@.push(c),
;

/// The characters at the ends of a text that a trim takes off.
#[derive(Clone, Copy, PartialEq, Eq, Structural, Debug)]
pub enum Edge {
    Whitespace,
    Slash,
}

/// The characters with the Unicode property White_Space.
pub open spec fn is_space(c: char) -> bool {
    ||| 0x9 <= c as u32 <= 0xd
    ||| c as u32 == 0x20
    ||| c as u32 == 0x85
    ||| c as u32 == 0xa0
    ||| c as u32 == 0x1680
    ||| 0x2000 <= c as u32 <= 0x200a
    ||| c as u32 == 0x2028
    ||| c as u32 == 0x2029
    ||| c as u32 == 0x202f
    ||| c as u32 == 0x205f
    ||| c as u32 == 0x3000
}

pub open spec fn on_edge(c: char, edge: Edge) -> bool {
    match edge {
        Edge::Whitespace => is_space(c),
        Edge::Slash => c == '/',
    }
}

/// `s` without the edge characters it starts with.
pub open spec fn trim_front(s: Seq<char>, edge: Edge) -> Seq<char>
    decreases s.len(),
{
    if s.len() > 0 && on_edge(s[0], edge) {
        trim_front(s.drop_first(), edge)
    } else {
        s
    }
}

/// `s` without the edge characters it ends with.
pub open spec fn trim_back(s: Seq<char>, edge: Edge) -> Seq<char>
    decreases s.len(),
{
    if s.len() > 0 && on_edge(s.last(), edge) {
        trim_back(s.drop_last(), edge)
    } else {
        s
    }
}

/// `s` without the edge characters at either end.
pub open spec fn trim_both(s: Seq<char>, edge: Edge) -> Seq<char> {
    trim_back(trim_front(s, edge), edge)
}

/// `s` without the whitespace at either end.
pub open spec fn trimmed(s: Seq<char>) -> Seq<char> {
    trim_both(s, Edge::Whitespace)
}

/// The pieces of `s` between occurrences of `sep`: a separator opens a new,
/// empty piece, and any other character extends the last one.
pub open spec fn split(s: Seq<char>, sep: char) -> Seq<Seq<char>>
    decreases s.len(),
{
    if s.len() == 0 {
        seq![Seq::<char>::empty()]
    } else {
        let pieces = split(s.drop_last(), sep);
        if s.last() == sep {
            pieces.push(Seq::<char>::empty())
        } else {
            pieces.drop_last().push(pieces.last().push(s.last()))
        }
    }
}

/// The pieces one after the other, with `sep` between neighbours.
pub open spec fn join(pieces: Seq<Seq<char>>, sep: char) -> Seq<char>
    decreases pieces.len(),
{
    if pieces.len() == 0 {
        Seq::<char>::empty()
    } else if pieces.len() == 1 {
        pieces[0]
    } else {
        join(pieces.drop_last(), sep).push(sep) + pieces.last()
    }
}

/// The pieces that hold at least one character, in order.
pub open spec fn nonempty(pieces: Seq<Seq<char>>) -> Seq<Seq<char>>
    decreases pieces.len(),
{
    if pieces.len() == 0 {
        pieces
    } else if pieces.last().len() == 0 {
        nonempty(pieces.drop_last())
    } else {
        nonempty(pieces.drop_last()).push(pieces.last())
    }
}

/// What the strings hold, one sequence of characters each.
pub open spec fn views(strings: Seq<String>) -> Seq<Seq<char>> {
    Seq::new(strings.len(), |i: int| strings[i]@)
}

/// What an optional string holds.
pub open spec fn opt(s: Option<String>) -> Option<Seq<char>> {
    match s {
        Some(t) => Some(t@),
        None => None,
    }
}

/// What an optional string slice holds.
pub open spec fn opt_str(s: Option<&str>) -> Option<Seq<char>> {
    match s {
        Some(t) => Some(t@),
        None => None,
    }
}

/// The text that bytes stand for, if they are text.
pub open spec fn utf8(bytes: Seq<u8>) -> Option<Seq<char>> {
    if vstd::utf8::valid_utf8(bytes) {
        Some(vstd::utf8::decode_utf8(bytes))
    } else {
        None
    }
}

pub open spec fn begins(s: Seq<char>, prefix: Seq<char>) -> bool {
    prefix.len() <= s.len() && s.take(prefix.len() as int) == prefix
}

pub open spec fn finishes(s: Seq<char>, suffix: Seq<char>) -> bool {
    suffix.len() <= s.len() && s.skip(s.len() - suffix.len()) == suffix
}

/// `s` up to the first line feed.
pub open spec fn first_line(s: Seq<char>) -> Seq<char>
    decreases s.len(),
{
    if s.len() == 0 || s[0] == '\n' {
        Seq::<char>::empty()
    } else {
        seq![s[0]] + first_line(s.drop_first())
    }
}

/// The number of bytes of the UTF-8 encoding of `s`.
pub open spec fn utf8_len(s: Seq<char>) -> nat {
    encode_utf8(s).len()
}

/// The number of bytes of the UTF-8 encoding of one character.
pub open spec fn char_width(c: char) -> nat {
    if c as u32 <= 0x7f {
        1
    } else if c as u32 <= 0x7ff {
        2
    } else if c as u32 <= 0xffff {
        3
    } else {
        4
    }
}

pub open spec fn digit(d: int) -> char {
    (('0' as u32) + d) as char
}

/// `n` in decimal, without leading zeros.
pub open spec fn decimal(n: nat) -> Seq<char>
    decreases n,
{
    if n < 10 {
        seq![digit(n as int)]
    } else {
        decimal(n / 10).push(digit((n % 10) as int))
    }
}

/// `n` in decimal, with a minus sign when it is negative.
pub open spec fn signed_decimal(n: int) -> Seq<char> {
    if n < 0 {
        seq!['-'] + decimal((-n) as nat)
    } else {
        decimal(n as nat)
    }
}

pub open spec fn is_digit(c: char) -> bool {
    '0' <= c <= '9'
}

/// The number that a run of decimal digits denotes.
pub open spec fn digits_value(s: Seq<char>) -> nat
    decreases s.len(),
{
    if s.len() == 0 {
        0
    } else {
        digits_value(s.drop_last()) * 10 + ((s.last() as u32 - '0' as u32) as nat)
    }
}

pub open spec fn all_digits(s: Seq<char>) -> bool {
    forall|i: int| 0 <= i < s.len() ==> is_digit(s[i])
}

/// `s` without a plus sign at its front.
pub open spec fn after_plus(s: Seq<char>) -> Seq<char> {
    if s.len() > 0 && s[0] == '+' {
        s.drop_first()
    } else {
        s
    }
}

/// The unsigned 64-bit number that `s` denotes: decimal digits, at least one,
/// after an optional plus sign, with a value that fits.
pub open spec fn parsed_u64(s: Seq<char>) -> Option<nat> {
    let digits = after_plus(s);
    if digits.len() > 0 && all_digits(digits) && digits_value(digits) <= u64::MAX {
        Some(digits_value(digits))
    } else {
        None
    }
}

pub open spec fn hex_digit(d: u64) -> char {
    if d < 10 {
        (('0' as u32) + d) as char
    } else {
        (('a' as u32) + (d - 10)) as char
    }
}

/// `n` in hexadecimal, padded with zeros to sixteen lowercase digits.
pub open spec fn hex16(n: u64) -> Seq<char> {
    Seq::new(16, |i: int| hex_digit((n >> ((60 - 4 * i) as u64)) & 15))
}

pub open spec fn ascii_upper(c: char) -> char {
    if 'a' <= c <= 'z' {
        ((c as u32) - 32) as char
    } else {
        c
    }
}

pub open spec fn is_ascii_alnum(c: char) -> bool {
    ||| 'a' <= c <= 'z'
    ||| 'A' <= c <= 'Z'
    ||| '0' <= c <= '9'
}

/// Whether `c` has the property White_Space.
pub fn is_whitespace(c: char) -> (r: bool)
    ensures
        r == is_space(c),
{
    let u: u32 = c as u32;
    (0x9 <= u && u <= 0xd) || u == 0x20 || u == 0x85 || u == 0xa0 || u == 0x1680 || (0x2000 <= u
        && u <= 0x200a) || u == 0x2028 || u == 0x2029 || u == 0x202f || u == 0x205f || u == 0x3000
}

/// Whether a trim of `edge` takes `c` off.
pub fn is_edge(c: char, edge: Edge) -> (r: bool)
    ensures
        r == on_edge(c, edge),
{
    match edge {
        Edge::Whitespace => is_whitespace(c),
        Edge::Slash => c == '/',
    }
}

/// The characters of `s`.
pub fn chars_of(s: &str) -> (r: Vec<char>)
    ensures
        r@ == s@,
{
    let mut out: Vec<char> = Vec::new();
    for c in it: s.chars()
        invariant
            out@ == s@.take(it.index() as int),
            it.seq() == s@,
    {
        out.push(c);
        assert(s@.take(it.index() as int).push(c) =~= s@.take(it.index() + 1));
    }
    assert(s@.take(s@.len() as int) =~= s@);
    out
}

/// The string that holds `chars` from `from` up to `to`.
pub fn string_of(chars: &Vec<char>, from: usize, to: usize) -> (r: String)
    requires
        from <= to <= chars@.len(),
    ensures
        r@ == chars@.subrange(from as int, to as int),
{
    let mut out = String::new();
    let mut i: usize = from;
    while i < to
        invariant
            from <= i <= to <= chars@.len(),
            out@ == chars@.subrange(from as int, i as int),
        decreases to - i,
    {
        out.push(chars[i]);
        i = i + 1;
        assert(chars@.subrange(from as int, i as int) =~= chars@.subrange(
            from as int,
            i - 1,
        ).push(chars@[i - 1]));
    }
    out
}

/// `std::str::from_utf8`: the text that bytes stand for in UTF-8, or none where
/// they are not valid.
#[verifier::external_body]
pub(crate) fn utf8_text(bytes: &[u8]) -> (r: Option<String>)
    ensures
        opt(r) == utf8(bytes@),
{
    std::str::from_utf8(bytes).ok().map(|s| s.to_owned())
}

/// Whether the two texts are equal.
pub fn same(a: &str, b: &str) -> (r: bool)
    ensures
        r == (a@ == b@),
{
    a.to_owned() == b.to_owned()
}

/// `a` followed by `b`.
pub fn concat(a: &str, b: &str) -> (r: String)
    ensures
        r@ == a@ + b@,
{
    let mut out = a.to_owned();
    out.append(b);
    out
}

/// `a`, `b` and `c` one after the other.
pub fn concat3(a: &str, b: &str, c: &str) -> (r: String)
    ensures
        r@ == a@ + b@ + c@,
{
    let mut out = a.to_owned();
    out.append(b);
    out.append(c);
    out
}

/// A copy of an optional string.
pub fn copy_opt(s: &Option<String>) -> (r: Option<String>)
    ensures
        opt(r) == opt(*s),
{
    match s {
        Some(t) => Some(t.clone()),
        None => None,
    }
}

/// Takes the edge characters off both ends of `s`.
pub fn trim_edges(s: &str, edge: Edge) -> (r: String)
    ensures
        r@ == trim_both(s@, edge),
{
    let chars = chars_of(s);
    let mut lo: usize = 0;
    assert(chars@.skip(0) =~= chars@);
    while lo < chars.len() && is_edge(chars[lo], edge)
        invariant
            lo <= chars@.len(),
            trim_front(chars@, edge) == trim_front(chars@.skip(lo as int), edge),
        decreases chars@.len() - lo,
    {
        assert(chars@.skip(lo as int).drop_first() =~= chars@.skip(lo + 1));
        lo = lo + 1;
    }
    let ghost front = chars@.skip(lo as int);
    assert(trim_front(chars@, edge) == front);
    let mut hi: usize = chars.len();
    assert(front.take(front.len() as int) =~= front);
    while hi > lo && is_edge(chars[hi - 1], edge)
        invariant
            lo <= hi <= chars@.len(),
            front == chars@.skip(lo as int),
            trim_back(front, edge) == trim_back(front.take(hi - lo), edge),
        decreases hi - lo,
    {
        assert(front.take(hi - lo).last() == chars@[hi - 1]);
        assert(front.take(hi - lo).drop_last() =~= front.take(hi - lo - 1));
        hi = hi - 1;
    }
    assert(front.take(hi - lo) =~= chars@.subrange(lo as int, hi as int));
    if hi > lo {
        assert(front.take(hi - lo).last() == chars@[hi - 1]);
    }
    string_of(&chars, lo, hi)
}

/// Takes the edge characters off the front of `s`.
pub fn trim_start(s: &str, edge: Edge) -> (r: String)
    ensures
        r@ == trim_front(s@, edge),
{
    let chars = chars_of(s);
    let mut lo: usize = 0;
    assert(chars@.skip(0) =~= chars@);
    while lo < chars.len() && is_edge(chars[lo], edge)
        invariant
            lo <= chars@.len(),
            trim_front(chars@, edge) == trim_front(chars@.skip(lo as int), edge),
        decreases chars@.len() - lo,
    {
        assert(chars@.skip(lo as int).drop_first() =~= chars@.skip(lo + 1));
        lo = lo + 1;
    }
    let n: usize = chars.len();
    assert(chars@.subrange(lo as int, n as int) =~= chars@.skip(lo as int));
    string_of(&chars, lo, n)
}

/// Takes the edge characters off the end of `s`.
pub fn trim_end(s: &str, edge: Edge) -> (r: String)
    ensures
        r@ == trim_back(s@, edge),
{
    let chars = chars_of(s);
    let mut hi: usize = chars.len();
    assert(chars@.take(hi as int) =~= chars@);
    while hi > 0 && is_edge(chars[hi - 1], edge)
        invariant
            hi <= chars@.len(),
            trim_back(chars@, edge) == trim_back(chars@.take(hi as int), edge),
        decreases hi,
    {
        assert(chars@.take(hi as int).drop_last() =~= chars@.take(hi - 1));
        hi = hi - 1;
    }
    assert(chars@.take(hi as int) =~= chars@.subrange(0, hi as int));
    string_of(&chars, 0, hi)
}

/// Takes the whitespace off both ends of `s`.
pub fn trim(s: &str) -> (r: String)
    ensures
        r@ == trimmed(s@),
{
    trim_edges(s, Edge::Whitespace)
}

/// The pieces of `s` between occurrences of `sep`.
pub fn split_on(s: &str, sep: char) -> (r: Vec<String>)
    ensures
        views(r@) == split(s@, sep),
{
    let chars = chars_of(s);
    let mut pieces: Vec<String> = Vec::new();
    let mut current = String::new();
    let mut i: usize = 0;
    assert(views(pieces@).push(current@) =~= split(s@.take(0), sep));
    while i < chars.len()
        invariant
            i <= chars@.len(),
            chars@ == s@,
            split(s@.take(i as int), sep) == views(pieces@).push(current@),
        decreases chars@.len() - i,
    {
        let c = chars[i];
        let ghost before = views(pieces@).push(current@);
        assert(s@.take(i + 1).drop_last() =~= s@.take(i as int));
        assert(s@.take(i + 1).last() == c);
        if c == sep {
            let ghost old_pieces = pieces@;
            pieces.push(current);
            assert(views(pieces@) =~= before);
            current = String::new();
        } else {
            assert(before.drop_last() =~= views(pieces@));
            current.push(c);
        }
        i = i + 1;
    }
    assert(s@.take(i as int) =~= s@);
    let ghost done = views(pieces@).push(current@);
    pieces.push(current);
    assert(views(pieces@) =~= done);
    pieces
}

/// The pieces of `pieces` that hold at least one character.
pub fn keep_nonempty(pieces: Vec<String>) -> (r: Vec<String>)
    ensures
        views(r@) == nonempty(views(pieces@)),
{
    let mut out: Vec<String> = Vec::new();
    let mut i: usize = 0;
    assert(views(out@) =~= nonempty(views(pieces@).take(0)));
    while i < pieces.len()
        invariant
            i <= pieces@.len(),
            views(out@) == nonempty(views(pieces@).take(i as int)),
        decreases pieces@.len() - i,
    {
        let ghost upto = views(pieces@).take(i + 1);
        assert(upto.drop_last() =~= views(pieces@).take(i as int));
        assert(upto.last() == pieces@[i as int]@);
        if !pieces[i].as_str().is_empty() {
            let ghost before = views(out@);
            out.push(pieces[i].clone());
            assert(views(out@) =~= before.push(pieces@[i as int]@));
        }
        i = i + 1;
    }
    assert(views(pieces@).take(i as int) =~= views(pieces@));
    out
}

/// The first `n` pieces joined with `sep` between neighbours.
pub fn join_first(pieces: &Vec<String>, n: usize, sep: char) -> (r: String)
    requires
        n <= pieces@.len(),
    ensures
        r@ == join(views(pieces@).take(n as int), sep),
{
    let mut out = String::new();
    let mut i: usize = 0;
    while i < n
        invariant
            i <= n <= pieces@.len(),
            out@ == join(views(pieces@).take(i as int), sep),
        decreases n - i,
    {
        let ghost upto = views(pieces@).take(i + 1);
        assert(upto.drop_last() =~= views(pieces@).take(i as int));
        assert(upto.last() == pieces@[i as int]@);
        if i > 0 {
            out.push(sep);
        } else {
            assert(upto[0] == pieces@[0]@);
            assert(out@ + pieces@[i as int]@ =~= pieces@[0]@);
        }
        out.append(pieces[i].as_str());
        i = i + 1;
    }
    out
}

/// Whether `s` begins with `prefix`.
pub fn starts_with(s: &str, prefix: &str) -> (r: bool)
    ensures
        r == begins(s@, prefix@),
{
    let a = chars_of(s);
    let b = chars_of(prefix);
    if b.len() > a.len() {
        return false;
    }
    let n: usize = b.len();
    let head = string_of(&a, 0, n);
    assert(a@.subrange(0, n as int) =~= s@.take(prefix@.len() as int));
    same(head.as_str(), prefix)
}

/// Whether `s` ends with `suffix`.
pub fn ends_with(s: &str, suffix: &str) -> (r: bool)
    ensures
        r == finishes(s@, suffix@),
{
    let a = chars_of(s);
    let b = chars_of(suffix);
    if b.len() > a.len() {
        return false;
    }
    let n: usize = a.len();
    let from: usize = n - b.len();
    let tail = string_of(&a, from, n);
    assert(a@.subrange(from as int, n as int) =~= s@.skip(s@.len() - suffix@.len()));
    same(tail.as_str(), suffix)
}

/// `s` without `prefix`, where it begins with it.
pub fn strip_prefix(s: &str, prefix: &str) -> (r: Option<String>)
    ensures
        match r {
            Some(rest) => begins(s@, prefix@) && rest@ == s@.skip(prefix@.len() as int),
            None => !begins(s@, prefix@),
        },
{
    if !starts_with(s, prefix) {
        return None;
    }
    let a = chars_of(s);
    let b = chars_of(prefix);
    let from: usize = b.len();
    let n: usize = a.len();
    assert(a@.subrange(from as int, n as int) =~= s@.skip(prefix@.len() as int));
    Some(string_of(&a, from, n))
}

/// `s` up to the first line feed.
pub fn take_first_line(s: &str) -> (r: String)
    ensures
        r@ == first_line(s@),
{
    let chars = chars_of(s);
    let mut i: usize = 0;
    assert(chars@.take(0) + chars@.skip(0) =~= chars@);
    assert(chars@.skip(0) =~= chars@);
    assert(chars@.take(0) + first_line(chars@) =~= first_line(chars@));
    while i < chars.len() && chars[i] != '\n'
        invariant
            i <= chars@.len(),
            first_line(chars@) == chars@.take(i as int) + first_line(chars@.skip(i as int)),
        decreases chars@.len() - i,
    {
        let ghost rest = chars@.skip(i as int);
        assert(rest.drop_first() =~= chars@.skip(i + 1));
        assert(chars@.take(i as int) + (seq![rest[0]] + first_line(rest.drop_first()))
            =~= chars@.take(i + 1) + first_line(chars@.skip(i + 1)));
        i = i + 1;
    }
    assert(first_line(chars@.skip(i as int)) =~= Seq::<char>::empty());
    assert(chars@.subrange(0, i as int) =~= first_line(chars@));
    string_of(&chars, 0, i)
}

/// The number of bytes of `s` in UTF-8.
pub fn byte_len(s: &str) -> (r: usize)
    ensures
        r == utf8_len(s@),
{
    s.as_bytes().len()
}

/// The number of bytes of `c` in UTF-8.
pub fn width_of(c: char) -> (r: usize)
    ensures
        r == char_width(c),
{
    let u: u32 = c as u32;
    if u <= 0x7f {
        1
    } else if u <= 0x7ff {
        2
    } else if u <= 0xffff {
        3
    } else {
        4
    }
}

/// `n` in decimal.
pub fn decimal_u64(n: u64) -> (r: String)
    ensures
        r@ == decimal(n as nat),
    decreases n,
{
    let mut out = if n < 10 {
        String::new()
    } else {
        decimal_u64(n / 10)
    };
    let d: u8 = (n % 10) as u8;
    out.push((48u8 + d) as char);
    assert(out@ =~= decimal(n as nat));
    out
}

/// `n` in decimal, with a minus sign when it is negative.
pub fn decimal_i64(n: i64) -> (r: String)
    ensures
        r@ == signed_decimal(n as int),
{
    if n < 0 {
        let magnitude: u64 = (-(n as i128)) as u64;
        let digits = decimal_u64(magnitude);
        let mut out = String::new();
        out.push('-');
        out.append(digits.as_str());
        assert(out@ =~= seq!['-'] + decimal((-n) as nat));
        out
    } else {
        decimal_u64(n as u64)
    }
}

/// `n` in sixteen lowercase hexadecimal digits.
pub fn hex_u64(n: u64) -> (r: String)
    ensures
        r@ == hex16(n),
{
    let mut out = String::new();
    let mut i: u64 = 0;
    while i < 16
        invariant
            i <= 16,
            out@ == hex16(n).take(i as int),
        decreases 16 - i,
    {
        let shift: u64 = 60 - 4 * i;
        let d: u64 = (n >> shift) & 15;
        assert(d < 16) by (bit_vector)
            requires
                d == (n >> shift) & 15,
        ;
        let c: u8 = if d < 10 {
            48u8 + d as u8
        } else {
            97u8 + (d - 10) as u8
        };
        out.push(c as char);
        i = i + 1;
        assert(hex16(n).take(i as int) =~= hex16(n).take(i - 1).push(hex16(n)[i - 1]));
    }
    assert(hex16(n).take(16) =~= hex16(n));
    out
}

/// Digits to the left can only raise the number that a run of digits denotes.
pub proof fn lemma_digits_monotone(s: Seq<char>, n: int)
    requires
        0 <= n <= s.len(),
        all_digits(s),
    ensures
        digits_value(s.take(n)) <= digits_value(s),
    decreases s.len() - n,
{
    if n < s.len() {
        lemma_digits_monotone(s, n + 1);
        assert(s.take(n + 1).drop_last() =~= s.take(n));
    } else {
        assert(s.take(n) =~= s);
    }
}

/// The unsigned 64-bit number that `s` denotes.
pub fn parse_u64(s: &str) -> (r: Option<u64>)
    ensures
        match r {
            Some(n) => parsed_u64(s@) == Some(n as nat),
            None => parsed_u64(s@) is None,
        },
{
    let chars = chars_of(s);
    let n: usize = chars.len();
    let start: usize = if n > 0 && chars[0] == '+' {
        1
    } else {
        0
    };
    let ghost digits = chars@.skip(start as int);
    assert(digits =~= after_plus(s@));
    if start == n {
        return None;
    }
    let mut j: usize = start;
    while j < n
        invariant
            start <= j <= n == chars@.len(),
            digits == chars@.skip(start as int),
            forall|i: int| 0 <= i < j - start ==> is_digit(digits[i]),
        ensures
            j == n || !is_digit(digits[j - start]),
            forall|i: int| 0 <= i < j - start ==> is_digit(digits[i]),
            start <= j <= n == chars@.len(),
        decreases n - j,
    {
        let c = chars[j];
        if !('0' <= c && c <= '9') {
            break;
        }
        j = j + 1;
    }
    if j < n {
        assert(!is_digit(digits[j - start]));
        return None;
    }
    let mut value: u64 = 0;
    let mut i: usize = start;
    while i < n
        invariant
            start <= i <= n == chars@.len(),
            digits == chars@.skip(start as int),
            all_digits(digits),
            value == digits_value(digits.take(i - start)),
            digits.len() > 0,
            parsed_u64(s@) == (if digits_value(digits) <= u64::MAX {
                Some(digits_value(digits))
            } else {
                None
            }),
        decreases n - i,
    {
        let c = chars[i];
        assert(digits[i - start] == c);
        let d: u64 = (c as u32 - '0' as u32) as u64;
        proof {
            assert(digits.take(i - start + 1).drop_last() =~= digits.take(i - start));
            lemma_digits_monotone(digits, i - start + 1);
        }
        if value > (u64::MAX - d) / 10 {
            return None;
        }
        value = value * 10 + d;
        i = i + 1;
    }
    assert(digits.take(n - start) =~= digits);
    Some(value)
}

/// The encoding of one character takes `char_width` bytes.
pub proof fn lemma_char_width(c: char)
    ensures
        encode_utf8(seq![c]).len() == char_width(c),
{
    assert(seq![c].drop_first() =~= Seq::<char>::empty());
    assert(encode_utf8(Seq::<char>::empty()).len() == 0);
    char_is_scalar(c);
}

/// The encoding of a concatenation is the concatenation of the encodings.
pub proof fn lemma_utf8_concat(a: Seq<char>, b: Seq<char>)
    ensures
        encode_utf8(a + b) == encode_utf8(a) + encode_utf8(b),
    decreases a.len(),
{
    if a.len() == 0 {
        assert(a + b =~= b);
        assert(encode_utf8(a) =~= Seq::<u8>::empty());
    } else {
        assert((a + b).drop_first() =~= a.drop_first() + b);
        lemma_utf8_concat(a.drop_first(), b);
    }
}

/// A split always yields at least one piece.
pub proof fn lemma_split_nonempty(s: Seq<char>, sep: char)
    ensures
        split(s, sep).len() >= 1,
    decreases s.len(),
{
    if s.len() > 0 {
        lemma_split_nonempty(s.drop_last(), sep);
    }
}

/// No piece of a split holds the separator, and joining the pieces gives the
/// text back.
pub proof fn law_split_join(s: Seq<char>, sep: char)
    ensures
        join(split(s, sep), sep) == s,
        forall|i: int| 0 <= i < split(s, sep).len() ==> !(#[trigger] split(s, sep)[i]).contains(sep),
    decreases s.len(),
{
    if s.len() == 0 {
        assert(join(split(s, sep), sep) =~= s);
    } else {
        let before = s.drop_last();
        let pieces = split(before, sep);
        law_split_join(before, sep);
        lemma_split_nonempty(before, sep);
        let last = pieces.last();
        if s.last() == sep {
            let after = pieces.push(Seq::<char>::empty());
            assert(after.drop_last() =~= pieces);
            assert(join(after, sep) =~= s);
        } else {
            let after = pieces.drop_last().push(last.push(s.last()));
            assert(after.drop_last() =~= pieces.drop_last());
            assert(!last.contains(sep)) by {
                assert(pieces[pieces.len() - 1] == last);
            }
            assert(!last.push(s.last()).contains(sep)) by {
                if last.push(s.last()).contains(sep) {
                    let j = choose|j: int|
                        0 <= j < last.push(s.last()).len() && last.push(s.last())[j] == sep;
                    assert(j < last.len());
                    assert(last.contains(last[j]));
                }
            }
            assert forall|i: int| 0 <= i < after.len() implies !(#[trigger] after[i]).contains(
                sep,
            ) by {
                if i < pieces.len() - 1 {
                    assert(after[i] == pieces[i]);
                }
            }
            assert(before.push(s.last()) =~= s);
            if pieces.len() == 1 {
                assert(after =~= seq![last.push(s.last())]);
                assert(join(pieces, sep) == last);
                assert(join(after, sep) =~= s);
            } else {
                assert(join(pieces, sep) == join(pieces.drop_last(), sep).push(sep) + last);
                assert(join(after, sep) =~= join(pieces.drop_last(), sep).push(sep) + last.push(
                    s.last(),
                ));
                assert(join(after, sep) =~= s);
            }
        }
    }
}

/// Whether `a` comes before `b`, character by character.
pub open spec fn less(a: Seq<char>, b: Seq<char>) -> bool
    decreases a.len(),
{
    if b.len() == 0 {
        false
    } else if a.len() == 0 {
        true
    } else if a[0] != b[0] {
        a[0] < b[0]
    } else {
        less(a.drop_first(), b.drop_first())
    }
}

/// A list in which every text comes before the next.
pub open spec fn increasing(s: Seq<Seq<char>>) -> bool {
    forall|i: int, j: int| 0 <= i < j < s.len() ==> #[trigger] less(s[i], s[j])
}

/// `s`, an increasing list, with `x` at its place; a text that is there already
/// is not added again.
pub open spec fn with_text(s: Seq<Seq<char>>, x: Seq<char>) -> Seq<Seq<char>>
    decreases s.len(),
{
    if s.len() == 0 {
        seq![x]
    } else if x == s[0] {
        s
    } else if less(x, s[0]) {
        seq![x] + s
    } else {
        seq![s[0]] + with_text(s.drop_first(), x)
    }
}

/// The texts of a list in increasing order, each once.
pub open spec fn sorted_set(s: Seq<Seq<char>>) -> Seq<Seq<char>>
    decreases s.len(),
{
    if s.len() == 0 {
        s
    } else {
        with_text(sorted_set(s.drop_last()), s.last())
    }
}

/// Whether `a` comes before `b`.
pub fn is_less(a: &str, b: &str) -> (r: bool)
    ensures
        r == less(a@, b@),
{
    let x = chars_of(a);
    let y = chars_of(b);
    let mut i: usize = 0;
    assert(x@.skip(0) =~= x@);
    assert(y@.skip(0) =~= y@);
    while i < x.len() && i < y.len()
        invariant
            i <= x@.len(),
            i <= y@.len(),
            x@ == a@,
            y@ == b@,
            less(x@, y@) == less(x@.skip(i as int), y@.skip(i as int)),
        decreases x@.len() - i,
    {
        if x[i] != y[i] {
            return x[i] < y[i];
        }
        assert(x@.skip(i as int).drop_first() =~= x@.skip(i + 1));
        assert(y@.skip(i as int).drop_first() =~= y@.skip(i + 1));
        i = i + 1;
    }
    i < y.len()
}

/// Puts `x` at its place in an increasing list, unless it is there.
pub fn insert_text(list: &mut Vec<String>, x: &str)
    ensures
        views(final(list)@) == with_text(views(old(list)@), x@),
{
    let ghost all = views(list@);
    let mut i: usize = 0;
    assert(all.take(0) + with_text(all.skip(0), x@) =~= with_text(all, x@)) by {
        assert(all.skip(0) =~= all);
    }
    while i < list.len()
        invariant
            i <= list@.len(),
            all == views(list@),
            with_text(all, x@) == all.take(i as int) + with_text(all.skip(i as int), x@),
        ensures
            i <= list@.len(),
            all == views(list@),
            with_text(all, x@) == all.take(i as int) + with_text(all.skip(i as int), x@),
            i == list@.len() || less(x@, all[i as int]),
            i < list@.len() ==> x@ != all[i as int],
        decreases list@.len() - i,
    {
        let ghost rest = all.skip(i as int);
        assert(rest[0] == all[i as int]);
        if same(x, list[i].as_str()) {
            assert(all.take(i as int) + rest =~= all);
            return;
        }
        if is_less(x, list[i].as_str()) {
            break;
        }
        assert(rest.drop_first() =~= all.skip(i + 1));
        assert(all.take(i as int) + (seq![rest[0]] + with_text(all.skip(i + 1), x@)) =~= all.take(
            i + 1,
        ) + with_text(all.skip(i + 1), x@));
        i = i + 1;
    }
    proof {
        let rest = all.skip(i as int);
        if i < list@.len() {
            assert(rest[0] == all[i as int]);
        }
    }
    list.insert(i, x.to_owned());
    assert(views(list@) =~= with_text(all, x@));
}

/// Each text of `list` in increasing order, once.
pub fn sort_texts(list: &Vec<String>) -> (r: Vec<String>)
    ensures
        views(r@) == sorted_set(views(list@)),
{
    let ghost all = views(list@);
    let mut out: Vec<String> = Vec::new();
    let mut i: usize = 0;
    assert(views(out@) =~= sorted_set(all.take(0)));
    while i < list.len()
        invariant
            i <= list@.len(),
            all == views(list@),
            views(out@) == sorted_set(all.take(i as int)),
        decreases list@.len() - i,
    {
        assert(all.take(i + 1).drop_last() =~= all.take(i as int));
        assert(all.take(i + 1).last() == list@[i as int]@);
        insert_text(&mut out, list[i].as_str());
        i = i + 1;
    }
    assert(all.take(i as int) =~= all);
    out
}

/// Of two different texts one is less than the other.
pub proof fn lemma_less_total(a: Seq<char>, b: Seq<char>)
    ensures
        less(a, b) || less(b, a) || a == b,
        !(less(a, b) && less(b, a)),
        !less(a, a),
    decreases a.len(),
{
    if a.len() > 0 && b.len() > 0 && a[0] == b[0] {
        lemma_less_total(a.drop_first(), b.drop_first());
        if a.drop_first() == b.drop_first() {
            assert(a =~= seq![a[0]] + a.drop_first());
            assert(b =~= seq![b[0]] + b.drop_first());
        }
    }
    if a.len() == 0 && b.len() == 0 {
        assert(a =~= b);
    }
    if a.len() > 0 {
        lemma_less_irreflexive(a);
    }
}

/// No text is less than itself.
pub proof fn lemma_less_irreflexive(a: Seq<char>)
    ensures
        !less(a, a),
    decreases a.len(),
{
    if a.len() > 0 {
        lemma_less_irreflexive(a.drop_first());
    }
}

/// What is less than a lesser text is less.
pub proof fn lemma_less_transitive(a: Seq<char>, b: Seq<char>, c: Seq<char>)
    requires
        less(a, b),
        less(b, c),
    ensures
        less(a, c),
    decreases a.len(),
{
    if a.len() > 0 && a[0] == b[0] && b[0] == c[0] {
        lemma_less_transitive(a.drop_first(), b.drop_first(), c.drop_first());
    }
}

/// Putting a text into an increasing list keeps it increasing, and adds that
/// text and nothing else.
pub proof fn lemma_with_text(s: Seq<Seq<char>>, x: Seq<char>)
    requires
        increasing(s),
    ensures
        increasing(with_text(s, x)),
        forall|y: Seq<char>| #[trigger] with_text(s, x).contains(y) <==> (s.contains(y) || y == x),
    decreases s.len(),
{
    let out = with_text(s, x);
    if s.len() == 0 {
        assert(out =~= seq![x]);
        assert(out[0] == x);
    } else if x == s[0] {
        assert(s.contains(s[0]));
    } else if less(x, s[0]) {
        assert forall|i: int, j: int| 0 <= i < j < out.len() implies #[trigger] less(
            out[i],
            out[j],
        ) by {
            if i == 0 {
                if j > 1 {
                    assert(less(s[0], s[j - 1]));
                    lemma_less_transitive(x, s[0], s[j - 1]);
                }
            } else {
                assert(less(s[i - 1], s[j - 1]));
            }
        }
        assert forall|y: Seq<char>| #[trigger] out.contains(y) <==> (s.contains(y) || y == x) by {
            if s.contains(y) {
                let k = choose|k: int| 0 <= k < s.len() && s[k] == y;
                assert(out[k + 1] == y);
            }
            assert(out[0] == x);
            if out.contains(y) && y != x {
                let k = choose|k: int| 0 <= k < out.len() && out[k] == y;
                assert(s[k - 1] == y);
            }
        }
    } else {
        let rest = s.drop_first();
        assert(increasing(rest)) by {
            assert forall|i: int, j: int| 0 <= i < j < rest.len() implies #[trigger] less(
                rest[i],
                rest[j],
            ) by {
                assert(less(s[i + 1], s[j + 1]));
            }
        }
        lemma_with_text(rest, x);
        let tail = with_text(rest, x);
        lemma_less_total(x, s[0]);
        assert forall|y: Seq<char>| tail.contains(y) implies less(s[0], y) by {
            if y != x {
                let k = choose|k: int| 0 <= k < rest.len() && rest[k] == y;
                assert(less(s[0], s[k + 1]));
            }
        }
        assert forall|i: int, j: int| 0 <= i < j < out.len() implies #[trigger] less(
            out[i],
            out[j],
        ) by {
            if i == 0 {
                assert(tail.contains(tail[j - 1]));
            } else {
                assert(less(tail[i - 1], tail[j - 1]));
            }
        }
        assert forall|y: Seq<char>| #[trigger] out.contains(y) <==> (s.contains(y) || y == x) by {
            if out.contains(y) {
                let k = choose|k: int| 0 <= k < out.len() && out[k] == y;
                if k > 0 {
                    assert(tail[k - 1] == y);
                    assert(tail.contains(y));
                    if rest.contains(y) {
                        let m = choose|m: int| 0 <= m < rest.len() && rest[m] == y;
                        assert(s[m + 1] == y);
                    }
                } else {
                    assert(s[0] == y);
                }
            }
            if s.contains(y) || y == x {
                if s.contains(y) {
                    let m = choose|m: int| 0 <= m < s.len() && s[m] == y;
                    if m == 0 {
                        assert(out[0] == y);
                    } else {
                        assert(rest[m - 1] == y);
                        assert(rest.contains(y));
                    }
                }
                if tail.contains(y) {
                    let k = choose|k: int| 0 <= k < tail.len() && tail[k] == y;
                    assert(out[k + 1] == y);
                }
            }
        }
    }
}

/// Sorting a list keeps its texts, each once, in increasing order.
pub proof fn law_sorting_keeps_the_texts(s: Seq<Seq<char>>)
    ensures
        increasing(sorted_set(s)),
        forall|y: Seq<char>| #[trigger] sorted_set(s).contains(y) <==> s.contains(y),
    decreases s.len(),
{
    if s.len() > 0 {
        let before = s.drop_last();
        law_sorting_keeps_the_texts(before);
        lemma_with_text(sorted_set(before), s.last());
        assert forall|y: Seq<char>| #[trigger] sorted_set(s).contains(y) <==> s.contains(y) by {
            if s.contains(y) {
                let k = choose|k: int| 0 <= k < s.len() && s[k] == y;
                if k < before.len() {
                    assert(before[k] == y);
                }
            }
            if before.contains(y) {
                let k = choose|k: int| 0 <= k < before.len() && before[k] == y;
                assert(s[k] == y);
            }
            assert(s[s.len() - 1] == s.last());
        }
    }
}

/// `path` with every backslash turned into a slash.
pub open spec fn slashed(path: Seq<char>) -> Seq<char> {
    Seq::new(
        path.len(),
        |i: int|
            if path[i] == '\\' {
                '/'
            } else {
                path[i]
            },
    )
}

/// Turns every backslash of `path` into a slash.
pub fn forward_slashes(path: &str) -> (r: String)
    ensures
        r@ == slashed(path@),
{
    let chars = chars_of(path);
    let mut out = String::new();
    let mut i: usize = 0;
    while i < chars.len()
        invariant
            i <= chars@.len(),
            chars@ == path@,
            out@ == slashed(path@.take(i as int)),
        decreases chars@.len() - i,
    {
        let c = chars[i];
        out.push(
            if c == '\\' {
                '/'
            } else {
                c
            },
        );
        i = i + 1;
        assert(out@ =~= slashed(path@.take(i as int)));
    }
    assert(path@.take(i as int) =~= path@);
    out
}

proof fn lemma_decimal_parts(n: nat)
    ensures
        decimal(n).len() > 0,
        forall|i: int| 0 <= i < decimal(n).len() ==> '0' <= #[trigger] decimal(n)[i] <= '9',
    decreases n,
{
    if n >= 10 {
        lemma_decimal_parts(n / 10);
        let front = decimal(n / 10);
        assert forall|i: int| 0 <= i < decimal(n).len() implies '0' <= #[trigger] decimal(n)[i]
            <= '9' by {
            if i < front.len() {
                assert(decimal(n)[i] == front[i]);
            }
        }
    }
}

/// Different numbers are written differently.
pub proof fn lemma_decimal_injective(a: nat, b: nat)
    requires
        decimal(a) == decimal(b),
    ensures
        a == b,
    decreases a + b,
{
    lemma_decimal_parts(a / 10);
    lemma_decimal_parts(b / 10);
    if a >= 10 && b >= 10 {
        assert(decimal(a).drop_last() =~= decimal(a / 10));
        assert(decimal(b).drop_last() =~= decimal(b / 10));
        lemma_decimal_injective(a / 10, b / 10);
        assert(decimal(a).last() == digit((a % 10) as int));
        assert(decimal(b).last() == digit((b % 10) as int));
    } else if a < 10 && b < 10 {
        assert(decimal(a)[0] == digit(a as int));
        assert(decimal(b)[0] == digit(b as int));
    } else if a < 10 {
        assert(decimal(a).len() == 1);
        assert(decimal(b).len() == decimal(b / 10).len() + 1);
    } else {
        assert(decimal(b).len() == 1);
        assert(decimal(a).len() == decimal(a / 10).len() + 1);
    }
}

/// Different numbers are written differently, with their signs.
pub proof fn lemma_signed_decimal_injective(a: int, b: int)
    requires
        signed_decimal(a) == signed_decimal(b),
    ensures
        a == b,
{
    let x = signed_decimal(a);
    let y = signed_decimal(b);
    if a < 0 {
        lemma_decimal_parts((-a) as nat);
    } else {
        lemma_decimal_parts(a as nat);
    }
    if b < 0 {
        lemma_decimal_parts((-b) as nat);
    } else {
        lemma_decimal_parts(b as nat);
    }
    assert(a < 0 <==> x[0] == '-');
    assert(b < 0 <==> y[0] == '-');
    if a < 0 {
        assert(x.skip(1) =~= decimal((-a) as nat));
        assert(y.skip(1) =~= decimal((-b) as nat));
        lemma_decimal_injective((-a) as nat, (-b) as nat);
    } else {
        lemma_decimal_injective(a as nat, b as nat);
    }
}

} // verus!
