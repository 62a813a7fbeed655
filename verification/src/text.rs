//! Text operations over the characters of a string.
//!
//! Every function here states its result over `Seq<char>`, the view that Verus
//! gives a string, so that the modules built on top never speak of bytes.

use vstd::prelude::*;
use vstd::string::*;
use vstd::utf8::*;

verus! {

/// `String::push`: appends the character at the end of the string.
pub assume_specification[ String::push ](s: &mut String, c: char)
    ensures
        final(s)@ == old(s)@.push(c),
;

/// `String::pop`: removes the last character and returns it; an empty string
/// gives `None` and stays empty.
pub assume_specification[ String::pop ](s: &mut String) -> (r: Option<char>)
    ensures
        old(s)@.len() == 0 ==> r is None && final(s)@ == old(s)@,
        old(s)@.len() > 0 ==> r == Some(old(s)@.last()) && final(s)@ == old(s)@.drop_last(),
;

/// A text without its last character, where it has one.
pub open spec fn without_last(s: Seq<char>) -> Seq<char> {
    if s.len() == 0 {
        s
    } else {
        s.drop_last()
    }
}

/// The lower-case form of a text, as the Unicode tables of `str::to_lowercase` give it.
pub uninterp spec fn lowercase(s: Seq<char>) -> Seq<char>;

/// `str::to_lowercase`: the result depends on the text alone and is called
/// [`lowercase`]; nothing is said here of the Unicode tables behind it.
#[verifier::external_body]
pub(crate) fn to_lowercase(s: &str) -> (r: String)
    ensures
        r@ == lowercase(s@),
{
    s.to_lowercase()
}

/// Whether Unicode counts a character as a letter or a number.
pub uninterp spec fn alphanumeric(c: char) -> bool;

/// An ASCII letter or digit.
pub open spec fn ascii_alphanumeric(c: char) -> bool {
    ('0' <= c && c <= '9') || ('A' <= c && c <= 'Z') || ('a' <= c && c <= 'z')
}

/// `char::is_alphanumeric`: the result is called [`alphanumeric`]; on ASCII
/// characters it is true of the letters and the digits and of nothing else.
#[verifier::external_body]
pub(crate) fn is_alphanumeric(c: char) -> (r: bool)
    ensures
        r == alphanumeric(c),
        (c as u32) < 128 ==> r == ascii_alphanumeric(c),
{
    c.is_alphanumeric()
}

/// The characters of a string, in order.
pub fn chars_of(s: &str) -> (r: Vec<char>)
    ensures
        r@ == s@,
{
    let mut out: Vec<char> = Vec::new();
    for c in it: s.chars()
        invariant
            out@ == it.seq().take(it.index() as int),
            it.seq() == s@,
    {
        out.push(c);
    }
    out
}

/// The string made of the characters `from..to` of `v`.
pub fn from_chars(v: &Vec<char>, from: usize, to: usize) -> (r: String)
    requires
        from <= to <= v@.len(),
    ensures
        r@ == v@.subrange(from as int, to as int),
{
    let mut out = String::new();
    let mut i: usize = from;
    while i < to
        invariant
            from <= i <= to <= v@.len(),
            out@ == v@.subrange(from as int, i as int),
        decreases to - i,
    {
        out.push(v[i]);
        i = i + 1;
        assert(v@.subrange(from as int, i as int) =~= v@.subrange(from as int, i - 1).push(
            v@[i - 1],
        ));
    }
    out
}

/// Whether two texts hold the same characters.
pub fn same_text(a: &str, b: &str) -> (r: bool)
    ensures
        r == (a@ == b@),
{
    let x: String = a.to_owned();
    let y: String = b.to_owned();
    x == y
}

/// The number of characters in a text.
pub fn char_count(s: &str) -> (r: usize)
    ensures
        r == s@.len(),
{
    let v = chars_of(s);
    v.len()
}

/// The views of a list of strings.
pub open spec fn views(v: Seq<String>) -> Seq<Seq<char>> {
    v.map_values(|s: String| s@)
}

/// The view of an optional string.
pub open spec fn opt_view(s: Option<String>) -> Option<Seq<char>> {
    match s {
        Some(t) => Some(t@),
        None => None,
    }
}

/// A copy of a list of strings.
pub fn clone_strings(v: &Vec<String>) -> (r: Vec<String>)
    ensures
        r@ == v@,
{
    let mut out: Vec<String> = Vec::new();
    let mut i: usize = 0;
    while i < v.len()
        invariant
            i <= v@.len(),
            out@ == v@.take(i as int),
        decreases v@.len() - i,
    {
        out.push(v[i].clone());
        i = i + 1;
        assert(v@.take(i as int) =~= v@.take(i - 1).push(v@[i - 1]));
    }
    assert(v@.take(v@.len() as int) =~= v@);
    out
}

/// A copy of an optional string.
pub fn clone_opt(s: &Option<String>) -> (r: Option<String>)
    ensures
        r == *s,
{
    match s {
        Some(t) => Some(t.clone()),
        None => None,
    }
}

// ---------------------------------------------------------------------------
// Decimal numbers
// ---------------------------------------------------------------------------

/// The character that stands for a decimal digit.
pub open spec fn digit(d: nat) -> char {
    (('0' as int) + d) as char
}

/// The decimal notation of a number, without leading zeros.
pub open spec fn decimal(n: nat) -> Seq<char>
    decreases n,
{
    if n < 10 {
        seq![digit(n)]
    } else {
        decimal(n / 10).push(digit(n % 10))
    }
}

/// Whether a character is an ASCII digit.
pub open spec fn is_digit(c: char) -> bool {
    '0' <= c && c <= '9'
}

/// The value of a digit character.
pub open spec fn digit_value(c: char) -> nat {
    ((c as int) - ('0' as int)) as nat
}

/// The number that a run of digits writes.
pub open spec fn digits_value(s: Seq<char>) -> nat
    decreases s.len(),
{
    if s.len() == 0 {
        0
    } else {
        digits_value(s.drop_last()) * 10 + digit_value(s.last())
    }
}

/// What an unsigned integer is written as: an optional `+`, then one or more digits.
pub open spec fn number_digits(s: Seq<char>) -> Seq<char> {
    if s.len() > 0 && s[0] == '+' {
        s.drop_first()
    } else {
        s
    }
}

/// The number that a text writes, where it writes one that is at most `max`.
pub open spec fn parsed_number(s: Seq<char>, max: nat) -> Option<nat> {
    let d = number_digits(s);
    if d.len() > 0 && (forall|i: int| 0 <= i < d.len() ==> is_digit(#[trigger] d[i])) && digits_value(d)
        <= max {
        Some(digits_value(d))
    } else {
        None
    }
}

fn digit_char(d: u64) -> (r: char)
    requires
        d < 10,
    ensures
        r == digit(d as nat),
{
    match d {
        0 => '0',
        1 => '1',
        2 => '2',
        3 => '3',
        4 => '4',
        5 => '5',
        6 => '6',
        7 => '7',
        8 => '8',
        _ => '9',
    }
}

/// The decimal notation of `n`.
pub fn number_text(n: u64) -> (r: String)
    ensures
        r@ == decimal(n as nat),
    decreases n,
{
    if n < 10 {
        let mut s = String::new();
        s.push(digit_char(n));
        assert(s@ =~= seq![digit(n as nat)]);
        s
    } else {
        let mut s = number_text(n / 10);
        s.push(digit_char(n % 10));
        s
    }
}

/// The decimal notation of a signed number: a `-` before that of its magnitude
/// where it is negative.
pub open spec fn signed_decimal(n: int) -> Seq<char> {
    if n < 0 {
        seq!['-'] + decimal((-n) as nat)
    } else {
        decimal(n as nat)
    }
}

/// The decimal notation of a signed number.
pub fn signed_number_text(n: i32) -> (r: String)
    ensures
        r@ == signed_decimal(n as int),
{
    if n < 0 {
        let m: i64 = -(n as i64);
        let mut s = String::new();
        s.push('-');
        s.append(number_text(m as u64).as_str());
        assert(s@ =~= seq!['-'] + decimal((-n) as nat));
        s
    } else {
        number_text(n as u64)
    }
}

proof fn lemma_digits_value_grows(s: Seq<char>, k: int)
    requires
        0 <= k <= s.len(),
    ensures
        digits_value(s.take(k)) <= digits_value(s),
    decreases s.len(),
{
    if k == s.len() {
        assert(s.take(k) =~= s);
    } else {
        lemma_digits_value_grows(s.drop_last(), k);
        assert(s.drop_last().take(k) =~= s.take(k));
    }
}

/// Reads an unsigned integer as the standard library does: an optional `+`,
/// then digits alone, and a value of at most `max`.
pub fn parse_number(s: &str, max: u64) -> (r: Option<u64>)
    ensures
        match r {
            Some(n) => parsed_number(s@, max as nat) == Some(n as nat),
            None => parsed_number(s@, max as nat) is None,
        },
{
    let v = chars_of(s);
    let start: usize = if v.len() > 0 && v[0] == '+' { 1 } else { 0 };
    let ghost d = number_digits(s@);
    assert(d =~= v@.skip(start as int));
    if v.len() == start {
        return None;
    }
    let mut acc: u64 = 0;
    let mut i: usize = start;
    while i < v.len()
        invariant
            start <= i <= v@.len(),
            start <= 1,
            v@ == s@,
            d == number_digits(s@),
            d == v@.skip(start as int),
            forall|k: int| 0 <= k < i - start ==> is_digit(#[trigger] d[k]),
            acc == digits_value(d.take(i - start)),
            acc <= max,
        decreases v@.len() - i,
    {
        let c = v[i];
        assert(d[i - start] == c);
        if !('0' <= c && c <= '9') {
            return None;
        }
        let dv: u64 = c as u64 - '0' as u64;
        assert(d.take(i - start + 1).drop_last() =~= d.take(i - start));
        assert(digits_value(d.take(i - start + 1)) == acc * 10 + dv);
        proof {
            lemma_digits_value_grows(d, i - start + 1);
        }
        let next: u128 = acc as u128 * 10 + dv as u128;
        if next > max as u128 {
            return None;
        }
        acc = next as u64;
        i = i + 1;
    }
    assert(d.take(d.len() as int) =~= d);
    Some(acc)
}

/// A number's decimal notation is made of digits, at least one of them, and
/// writes that number.
pub proof fn lemma_decimal(n: nat)
    ensures
        decimal(n).len() > 0,
        forall|i: int| 0 <= i < decimal(n).len() ==> is_digit(#[trigger] decimal(n)[i]),
        digits_value(decimal(n)) == n,
    decreases n,
{
    if n < 10 {
        assert(decimal(n).drop_last() =~= Seq::<char>::empty());
        assert(digits_value(decimal(n).drop_last()) == 0);
    } else {
        lemma_decimal(n / 10);
        assert(decimal(n).drop_last() =~= decimal(n / 10));
    }
}

/// Reading back the decimal notation of a number gives the number.
pub proof fn law_number_round_trip(n: nat, max: nat)
    requires
        n <= max,
    ensures
        parsed_number(decimal(n), max) == Some(n),
{
    lemma_decimal(n);
    assert(is_digit(decimal(n)[0]));
    assert(number_digits(decimal(n)) == decimal(n));
}

// ---------------------------------------------------------------------------
// Trimming
// ---------------------------------------------------------------------------

/// Whether Unicode counts a character as white space.
pub open spec fn white_space(c: char) -> bool {
    ||| 0x09 <= c as u32 <= 0x0d
    ||| c as u32 == 0x20
    ||| c as u32 == 0x85
    ||| c as u32 == 0xa0
    ||| c as u32 == 0x1680
    ||| 0x2000 <= c as u32 <= 0x200a
    ||| c as u32 == 0x2028
    ||| c as u32 == 0x2029
    ||| c as u32 == 0x202f
    ||| c as u32 == 0x205f
    ||| c as u32 == 0x3000
}

/// Whether `c` is white space.
pub fn is_white_space(c: char) -> (r: bool)
    ensures
        r == white_space(c),
{
    let u: u32 = c as u32;
    (0x09 <= u && u <= 0x0d) || u == 0x20 || u == 0x85 || u == 0xa0 || u == 0x1680 || (0x2000 <= u
        && u <= 0x200a) || u == 0x2028 || u == 0x2029 || u == 0x202f || u == 0x205f || u == 0x3000
}

/// A text without the white space at its start.
pub open spec fn trim_start(s: Seq<char>) -> Seq<char>
    decreases s.len(),
{
    if s.len() > 0 && white_space(s[0]) {
        trim_start(s.drop_first())
    } else {
        s
    }
}

/// A text without the white space at its end.
pub open spec fn trim_end(s: Seq<char>) -> Seq<char>
    decreases s.len(),
{
    if s.len() > 0 && white_space(s.last()) {
        trim_end(s.drop_last())
    } else {
        s
    }
}

/// A text without the white space at its start and its end.
pub open spec fn trimmed(s: Seq<char>) -> Seq<char> {
    trim_end(trim_start(s))
}

/// The text without the white space around it.
pub fn trim(s: &str) -> (r: String)
    ensures
        r@ == trimmed(s@),
{
    let v = chars_of(s);
    let mut from: usize = 0;
    assert(v@.skip(0) =~= v@);
    while from < v.len() && is_white_space(v[from])
        invariant
            from <= v@.len(),
            trim_start(v@) == trim_start(v@.skip(from as int)),
        decreases v@.len() - from,
    {
        from = from + 1;
        assert(v@.skip(from - 1).drop_first() =~= v@.skip(from as int));
    }
    assert(trim_start(v@) == v@.skip(from as int));
    let mut to: usize = v.len();
    while to > from && is_white_space(v[to - 1])
        invariant
            from <= to <= v@.len(),
            trimmed(v@) == trim_end(v@.subrange(from as int, to as int)),
        decreases to,
    {
        to = to - 1;
        assert(v@.subrange(from as int, to + 1).drop_last() =~= v@.subrange(
            from as int,
            to as int,
        ));
    }
    from_chars(&v, from, to)
}

/// A text that does not start or end with white space.
pub open spec fn is_trimmed(s: Seq<char>) -> bool {
    s.len() > 0 ==> !white_space(s[0]) && !white_space(s.last())
}

/// Trimming changes nothing on a text that is trimmed.
pub proof fn lemma_trimmed_fixed(s: Seq<char>)
    requires
        is_trimmed(s),
    ensures
        trimmed(s) == s,
{
}

proof fn lemma_trim_start_props(s: Seq<char>)
    ensures
        trim_start(s).len() > 0 ==> !white_space(trim_start(s)[0]),
        trim_start(s).len() <= s.len(),
        trim_start(s) == s.skip(s.len() - trim_start(s).len()),
    decreases s.len(),
{
    if s.len() > 0 && white_space(s[0]) {
        lemma_trim_start_props(s.drop_first());
        let t = trim_start(s.drop_first());
        assert(s.drop_first().skip(s.len() - 1 - t.len()) =~= s.skip(s.len() - t.len()));
    } else {
        assert(s.skip(0) =~= s);
    }
}

proof fn lemma_trim_end_props(s: Seq<char>)
    ensures
        trim_end(s).len() > 0 ==> !white_space(trim_end(s).last()),
        trim_end(s).len() <= s.len(),
        trim_end(s) == s.take(trim_end(s).len() as int),
    decreases s.len(),
{
    if s.len() > 0 && white_space(s.last()) {
        lemma_trim_end_props(s.drop_last());
        let t = trim_end(s.drop_last());
        assert(s.drop_last().take(t.len() as int) =~= s.take(t.len() as int));
    } else {
        assert(s.take(s.len() as int) =~= s);
    }
}

/// A trimmed text is trimmed, and every character of it is one of the text's.
pub proof fn lemma_trimmed_is_trimmed(s: Seq<char>)
    ensures
        is_trimmed(trimmed(s)),
        forall|c: char| #[trigger] trimmed(s).contains(c) ==> s.contains(c),
{
    let a = trim_start(s);
    lemma_trim_start_props(s);
    lemma_trim_end_props(a);
    let b = trimmed(s);
    assert forall|c: char| #[trigger] b.contains(c) implies s.contains(c) by {
        let i = choose|i: int| 0 <= i < b.len() && b[i] == c;
        assert(a[i] == c);
        assert(s[i + s.len() - a.len()] == c);
    }
}

// ---------------------------------------------------------------------------
// Splitting and joining
// ---------------------------------------------------------------------------

/// The pieces of a text between the separators; always at least one piece.
pub open spec fn split(s: Seq<char>, sep: char) -> Seq<Seq<char>>
    decreases s.len(),
{
    if s.len() == 0 {
        seq![Seq::<char>::empty()]
    } else {
        let head = split(s.drop_last(), sep);
        if s.last() == sep {
            head.push(Seq::<char>::empty())
        } else {
            head.drop_last().push(head.last().push(s.last()))
        }
    }
}

/// The pieces of `s` between the separators.
pub fn split_text(s: &str, sep: char) -> (r: Vec<String>)
    ensures
        views(r@) == split(s@, sep),
{
    let v = chars_of(s);
    let mut out: Vec<String> = Vec::new();
    let mut cur = String::new();
    let mut i: usize = 0;
    assert(views(out@).push(cur@) =~= split(v@.take(0), sep));
    while i < v.len()
        invariant
            i <= v@.len(),
            views(out@).push(cur@) == split(v@.take(i as int), sep),
        decreases v@.len() - i,
    {
        let ghost before = split(v@.take(i as int), sep);
        assert(before.drop_last() =~= views(out@));
        let ghost pieces = views(out@);
        assert(v@.take(i + 1).drop_last() =~= v@.take(i as int));
        if v[i] == sep {
            out.push(cur);
            cur = String::new();
            assert(views(out@) =~= before);
            assert(views(out@).push(cur@) =~= split(v@.take(i + 1), sep));
        } else {
            cur.push(v[i]);
            assert(views(out@).push(cur@) =~= split(v@.take(i + 1), sep));
        }
        i = i + 1;
    }
    assert(v@.take(v@.len() as int) =~= v@);
    let ghost pieces = views(out@).push(cur@);
    out.push(cur);
    assert(views(out@) =~= pieces);
    out
}

/// The entries of a comma-separated list: the pieces, trimmed, without the empty ones.
pub open spec fn list_entries(s: Seq<char>) -> Seq<Seq<char>> {
    split(s, ',').map_values(|p: Seq<char>| trimmed(p)).filter(|p: Seq<char>| p.len() > 0)
}

/// The entries of a comma-separated list.
pub fn list_of(s: &str) -> (r: Vec<String>)
    ensures
        views(r@) == list_entries(s@),
{
    let pieces = split_text(s, ',');
    let ghost trim_all = |p: Seq<char>| trimmed(p);
    let ghost nonempty = |p: Seq<char>| p.len() > 0;
    let ghost all = views(pieces@).map_values(trim_all);
    let mut out: Vec<String> = Vec::new();
    let mut i: usize = 0;
    proof {
        reveal(Seq::filter);
        assert(all.take(0) =~= Seq::<Seq<char>>::empty());
        assert(views(out@) =~= all.take(0).filter(nonempty));
    }
    while i < pieces.len()
        invariant
            i <= pieces@.len(),
            all == views(pieces@).map_values(trim_all),
            trim_all == (|p: Seq<char>| trimmed(p)),
            nonempty == (|p: Seq<char>| p.len() > 0),
            views(out@) == all.take(i as int).filter(nonempty),
        decreases pieces@.len() - i,
    {
        let t = trim(pieces[i].as_str());
        let ghost tv = t@;
        assert(all[i as int] == tv);
        proof {
            reveal(Seq::filter);
            assert(all.take(i + 1).drop_last() =~= all.take(i as int));
            assert(all.take(i + 1).last() == tv);
        }
        let ghost was = views(out@);
        if !t.as_str().is_empty() {
            out.push(t);
            assert(views(out@) =~= was.push(tv));
        }
        i = i + 1;
    }
    assert(all.take(all.len() as int) =~= all);
    out
}

/// The texts in order, with a separator between each two.
pub open spec fn joined(parts: Seq<Seq<char>>, sep: Seq<char>) -> Seq<char>
    decreases parts.len(),
{
    if parts.len() == 0 {
        Seq::empty()
    } else if parts.len() == 1 {
        parts[0]
    } else {
        joined(parts.drop_last(), sep) + sep + parts.last()
    }
}

/// Joins the texts, with the separator between each two.
pub fn join(parts: &Vec<String>, sep: &str) -> (r: String)
    ensures
        r@ == joined(views(parts@), sep@),
{
    let mut out = String::new();
    let mut i: usize = 0;
    let ghost all = views(parts@);
    assert(out@ =~= joined(all.take(0), sep@));
    while i < parts.len()
        invariant
            i <= parts@.len(),
            all == views(parts@),
            out@ == joined(all.take(i as int), sep@),
        decreases parts@.len() - i,
    {
        assert(all.take(i + 1).drop_last() =~= all.take(i as int));
        assert(all.take(i + 1).last() == parts@[i as int]@);
        if i > 0 {
            out.append(sep);
        }
        out.append(parts[i].as_str());
        assert(out@ =~= joined(all.take(i + 1), sep@));
        i = i + 1;
    }
    assert(all.take(all.len() as int) =~= all);
    out
}

/// The position of the first `c` in a text, or the text's length.
pub open spec fn first_index(s: Seq<char>, c: char) -> int
    decreases s.len(),
{
    if s.len() == 0 || s[0] == c {
        0
    } else {
        1 + first_index(s.drop_first(), c)
    }
}

/// The first position lies within the text exactly if the character occurs;
/// then it stands there and nowhere before.
pub proof fn lemma_first_index(s: Seq<char>, c: char)
    ensures
        0 <= first_index(s, c) <= s.len(),
        first_index(s, c) < s.len() <==> s.contains(c),
        first_index(s, c) < s.len() ==> s[first_index(s, c)] == c,
        forall|i: int| 0 <= i < first_index(s, c) ==> s[i] != c,
    decreases s.len(),
{
    if s.len() > 0 {
        if s[0] == c {
            assert(s.contains(s[0]));
        } else {
            let t = s.drop_first();
            lemma_first_index(t, c);
            assert forall|i: int| 0 <= i < first_index(s, c) implies s[i] != c by {
                if i > 0 {
                    assert(t[i - 1] == s[i]);
                }
            }
            if s.contains(c) {
                let k = choose|k: int| 0 <= k < s.len() && s[k] == c;
                assert(t[k - 1] == c);
            }
        }
    }
}

/// The two sides of the first `sep` in a text.
pub open spec fn cut(s: Seq<char>, sep: char) -> Option<(Seq<char>, Seq<char>)> {
    let i = first_index(s, sep);
    if i < s.len() {
        Some((s.take(i), s.skip(i + 1)))
    } else {
        None
    }
}

/// The two sides of the first `sep` in `s`.
pub fn cut_text(s: &str, sep: char) -> (r: Option<(String, String)>)
    ensures
        match r {
            Some(p) => cut(s@, sep) == Some((p.0@, p.1@)),
            None => cut(s@, sep) is None,
        },
{
    let v = chars_of(s);
    proof {
        lemma_first_index(v@, sep);
    }
    let mut i: usize = 0;
    while i < v.len() && v[i] != sep
        invariant
            i <= v@.len(),
            i <= first_index(v@, sep) <= v@.len(),
            forall|k: int| 0 <= k < first_index(v@, sep) ==> v@[k] != sep,
            first_index(v@, sep) < v@.len() ==> v@[first_index(v@, sep)] == sep,
        decreases v@.len() - i,
    {
        i = i + 1;
    }
    if i < v.len() {
        let a = from_chars(&v, 0, i);
        let b = from_chars(&v, i + 1, v.len());
        assert(a@ =~= s@.take(i as int));
        assert(b@ =~= s@.skip(i + 1));
        Some((a, b))
    } else {
        None
    }
}

/// Whether `c` occurs in `s`.
pub fn contains_char(s: &str, c: char) -> (r: bool)
    ensures
        r == s@.contains(c),
{
    proof {
        lemma_first_index(s@, c);
    }
    cut_text(s, c).is_some()
}

// ---------------------------------------------------------------------------
// Lines, prefixes and occurrences
// ---------------------------------------------------------------------------

/// A line without the carriage return at its end.
pub open spec fn without_cr(s: Seq<char>) -> Seq<char> {
    if s.len() > 0 && s.last() == '\r' {
        s.drop_last()
    } else {
        s
    }
}

/// The lines of a text. A line ends with `\n` or `\r\n`; the last line may
/// lack its ending, and then keeps a `\r`.
pub open spec fn lines(s: Seq<char>) -> Seq<Seq<char>> {
    let pieces = split(s, '\n');
    let ended = pieces.drop_last().map_values(|p: Seq<char>| without_cr(p));
    if pieces.last().len() == 0 {
        ended
    } else {
        ended.push(pieces.last())
    }
}

pub proof fn lemma_split_nonempty(s: Seq<char>, sep: char)
    ensures
        split(s, sep).len() > 0,
    decreases s.len(),
{
    if s.len() > 0 {
        lemma_split_nonempty(s.drop_last(), sep);
    }
}

/// The lines of `s`.
pub fn lines_of(s: &str) -> (r: Vec<String>)
    ensures
        views(r@) == lines(s@),
{
    let pieces = split_text(s, '\n');
    proof {
        lemma_split_nonempty(s@, '\n');
    }
    let ghost cut_cr = |p: Seq<char>| without_cr(p);
    let ghost all = views(pieces@);
    let mut out: Vec<String> = Vec::new();
    let last: usize = pieces.len() - 1;
    let mut i: usize = 0;
    assert(views(out@) =~= all.take(0).map_values(cut_cr));
    while i < last
        invariant
            i <= last,
            last == pieces@.len() - 1,
            all == views(pieces@),
            cut_cr == (|p: Seq<char>| without_cr(p)),
            views(out@) == all.take(i as int).map_values(cut_cr),
        decreases last - i,
    {
        let v = chars_of(pieces[i].as_str());
        let ghost was = views(out@);
        let n: usize = v.len();
        let line = if n > 0 && v[n - 1] == '\r' {
            from_chars(&v, 0, n - 1)
        } else {
            from_chars(&v, 0, n)
        };
        assert(line@ =~= without_cr(all[i as int]));
        out.push(line);
        assert(views(out@) =~= was.push(without_cr(all[i as int])));
        assert(all.take(i + 1).map_values(cut_cr) =~= was.push(without_cr(all[i as int])));
        i = i + 1;
    }
    assert(all.take(last as int) =~= all.drop_last());
    if !pieces[last].as_str().is_empty() {
        let ghost was = views(out@);
        out.push(pieces[last].clone());
        assert(views(out@) =~= was.push(all.last()));
    }
    out
}

/// Whether `part` stands at position `at` of a text.
pub open spec fn occurs_at(s: Seq<char>, part: Seq<char>, at: int) -> bool {
    0 <= at && at + part.len() <= s.len() && s.subrange(at, at + part.len()) == part
}

/// Whether `part` stands anywhere in a text.
pub open spec fn occurs(s: Seq<char>, part: Seq<char>) -> bool {
    exists|at: int| #[trigger] occurs_at(s, part, at)
}

fn matches_at(s: &Vec<char>, part: &Vec<char>, at: usize) -> (r: bool)
    requires
        at <= s@.len(),
    ensures
        r == occurs_at(s@, part@, at as int),
{
    if part.len() > s.len() - at {
        return false;
    }
    let n: usize = s.len();
    let mut i: usize = 0;
    while i < part.len()
        invariant
            i <= part@.len(),
            n == s@.len(),
            at + part@.len() <= n,
            forall|k: int| 0 <= k < i ==> s@[at + k] == part@[k],
        decreases part@.len() - i,
    {
        if s[at + i] != part[i] {
            assert(s@.subrange(at as int, at + part@.len())[i as int] != part@[i as int]);
            return false;
        }
        i = i + 1;
    }
    assert(s@.subrange(at as int, at + part@.len()) =~= part@);
    true
}

/// Whether `part` stands anywhere in `s`.
pub fn contains_text(s: &str, part: &str) -> (r: bool)
    ensures
        r == occurs(s@, part@),
{
    let v = chars_of(s);
    let p = chars_of(part);
    let mut i: usize = 0;
    loop
        invariant
            i <= v@.len(),
            v@ == s@,
            p@ == part@,
            forall|k: int| 0 <= k < i ==> !occurs_at(v@, p@, k),
        decreases v@.len() - i,
    {
        if matches_at(&v, &p, i) {
            assert(occurs_at(s@, part@, i as int));
            return true;
        }
        if i == v.len() {
            assert forall|at: int| !occurs_at(s@, part@, at) by {}
            return false;
        }
        i = i + 1;
    }
}

/// Whether a text starts with `part`.
pub open spec fn has_prefix(s: Seq<char>, part: Seq<char>) -> bool {
    part.len() <= s.len() && s.take(part.len() as int) == part
}

/// Whether `s` starts with `part`.
pub fn starts_with(s: &str, part: &str) -> (r: bool)
    ensures
        r == has_prefix(s@, part@),
{
    let v = chars_of(s);
    let p = chars_of(part);
    assert(part@.len() <= s@.len() ==> s@.take(part@.len() as int) =~= s@.subrange(
        0,
        part@.len() as int,
    ));
    matches_at(&v, &p, 0)
}

/// A text without the occurrences of `part`, found from the left, none
/// overlapping another.
pub open spec fn without(s: Seq<char>, part: Seq<char>) -> Seq<char>
    decreases s.len(),
{
    if s.len() == 0 || part.len() == 0 {
        s
    } else if has_prefix(s, part) {
        without(s.skip(part.len() as int), part)
    } else {
        seq![s[0]] + without(s.drop_first(), part)
    }
}

/// Takes every occurrence of `part` out of `s`.
pub fn remove_text(s: &str, part: &str) -> (r: String)
    requires
        part@.len() > 0,
    ensures
        r@ == without(s@, part@),
{
    let v = chars_of(s);
    let p = chars_of(part);
    let mut out = String::new();
    let mut i: usize = 0;
    assert(s@.skip(0) =~= s@);
    assert(out@ + without(s@.skip(0), part@) =~= without(s@, part@));
    while i < v.len()
        invariant
            i <= v@.len(),
            v@ == s@,
            p@ == part@,
            part@.len() > 0,
            out@ + without(s@.skip(i as int), part@) == without(s@, part@),
        decreases v@.len() - i,
    {
        let ghost rest = s@.skip(i as int);
        assert(part@.len() <= rest.len() ==> rest.take(part@.len() as int) =~= s@.subrange(
            i as int,
            i + part@.len(),
        ));
        if matches_at(&v, &p, i) {
            assert(rest.skip(part@.len() as int) =~= s@.skip(i + part@.len()));
            i = i + p.len();
        } else {
            let ghost was = out@;
            out.push(v[i]);
            assert(rest.drop_first() =~= s@.skip(i + 1));
            assert(out@ + without(s@.skip(i + 1), part@) =~= was + (seq![rest[0]] + without(
                rest.drop_first(),
                part@,
            )));
            i = i + 1;
        }
    }
    assert(out@ + without(s@.skip(i as int), part@) =~= out@);
    out
}

// ---------------------------------------------------------------------------
// Order
// ---------------------------------------------------------------------------

/// Whether one text comes before another: by the first character in which they
/// differ, and a text after any text that it extends.
pub open spec fn text_before(a: Seq<char>, b: Seq<char>) -> bool
    decreases a.len(),
{
    if b.len() == 0 {
        false
    } else if a.len() == 0 {
        true
    } else if a[0] != b[0] {
        a[0] < b[0]
    } else {
        text_before(a.drop_first(), b.drop_first())
    }
}

/// No text comes before itself, and of two texts one comes first unless they are equal.
pub proof fn lemma_text_before_total(a: Seq<char>, b: Seq<char>)
    ensures
        !text_before(a, a),
        !(text_before(a, b) && text_before(b, a)),
        text_before(a, b) || text_before(b, a) || a == b,
    decreases a.len(),
{
    if a.len() > 0 {
        lemma_text_before_total(a.drop_first(), a.drop_first());
        if b.len() > 0 {
            lemma_text_before_total(a.drop_first(), b.drop_first());
            if a[0] == b[0] && a.drop_first() == b.drop_first() {
                assert(a =~= seq![a[0]] + a.drop_first());
                assert(b =~= seq![b[0]] + b.drop_first());
            }
        }
    } else if b.len() == 0 {
        assert(a =~= b);
    }
}

/// The order of texts is transitive.
pub proof fn lemma_text_before_transitive(a: Seq<char>, b: Seq<char>, c: Seq<char>)
    requires
        text_before(a, b),
        text_before(b, c),
    ensures
        text_before(a, c),
    decreases a.len(),
{
    if a.len() > 0 && b.len() > 0 && c.len() > 0 && a[0] == b[0] && b[0] == c[0] {
        lemma_text_before_transitive(a.drop_first(), b.drop_first(), c.drop_first());
    }
}

/// Whether `a` comes before `b`.
pub fn comes_before(a: &Vec<char>, b: &Vec<char>) -> (r: bool)
    ensures
        r == text_before(a@, b@),
{
    let mut i: usize = 0;
    assert(a@.skip(0) =~= a@);
    assert(b@.skip(0) =~= b@);
    while i < a.len() && i < b.len() && a[i] == b[i]
        invariant
            i <= a@.len(),
            i <= b@.len(),
            text_before(a@, b@) == text_before(a@.skip(i as int), b@.skip(i as int)),
        decreases a@.len() - i,
    {
        assert(a@.skip(i as int).drop_first() =~= a@.skip(i + 1));
        assert(b@.skip(i as int).drop_first() =~= b@.skip(i + 1));
        i = i + 1;
    }
    if i >= b.len() {
        false
    } else if i >= a.len() {
        true
    } else {
        a[i] < b[i]
    }
}

// ---------------------------------------------------------------------------
// Positions in the UTF-8 form
// ---------------------------------------------------------------------------

/// The first `n` characters of a text, or all of it where it is shorter.
pub open spec fn first_chars(s: Seq<char>, n: int) -> Seq<char> {
    if n <= s.len() {
        s.take(n)
    } else {
        s
    }
}

/// How many bytes the UTF-8 form of a character takes.
fn utf8_width(c: char) -> (r: usize)
    ensures
        r == encode_scalar(c as u32).len(),
        1 <= r <= 4,
{
    let u: u32 = c as u32;
    if u <= 0x7f {
        1
    } else if u <= 0x7ff {
        2
    } else if u <= 0xffff {
        3
    } else {
        4
    }
}

proof fn lemma_encode_concat(a: Seq<char>, b: Seq<char>)
    ensures
        encode_utf8(a + b) == encode_utf8(a) + encode_utf8(b),
    decreases a.len(),
{
    if a.len() == 0 {
        assert(a + b =~= b);
        assert(encode_utf8(a) + encode_utf8(b) =~= encode_utf8(b));
    } else {
        lemma_encode_concat(a.drop_first(), b);
        assert((a + b).drop_first() =~= a.drop_first() + b);
        assert((a + b)[0] == a[0]);
        assert(encode_utf8(a + b) =~= encode_scalar(a[0] as u32) + encode_utf8(a.drop_first())
            + encode_utf8(b));
    }
}

proof fn lemma_encode_one(c: char)
    ensures
        encode_utf8(seq![c]) == encode_scalar(c as u32),
{
    assert(seq![c].drop_first() =~= Seq::<char>::empty());
    assert(encode_utf8(seq![c].drop_first()) =~= Seq::<u8>::empty());
    assert(encode_utf8(seq![c]) =~= encode_scalar(c as u32));
}

proof fn lemma_boundary(s: Seq<char>, k: int)
    requires
        0 <= k <= s.len(),
    ensures
        is_char_boundary(encode_utf8(s), encode_utf8(s.take(k)).len() as int),
        encode_utf8(s.take(k)).len() <= encode_utf8(s).len(),
    decreases k,
{
    broadcast use encode_utf8_valid_utf8;

    assert(s =~= s.take(k) + s.skip(k));
    lemma_encode_concat(s.take(k), s.skip(k));
    if k > 0 {
        let t = s.drop_first();
        lemma_boundary(t, k - 1);
        encode_utf8_first_scalar(s);
        let bytes = encode_utf8(s);
        assert(pop_first_scalar(bytes) =~= encode_utf8(t));
        assert(s.take(k).drop_first() =~= t.take(k - 1));
        assert(s.take(k)[0] == s[0]);
    }
}

/// The byte index at which the character with index `char_idx` starts in the
/// UTF-8 form of `s`; the length of that form where there is no such character.
pub fn char_to_byte_index(s: &str, char_idx: usize) -> (r: usize)
    ensures
        r == encode_utf8(first_chars(s@, char_idx as int)).len(),
{
    let v = chars_of(s);
    let bytes = s.as_bytes();
    let total: usize = bytes.len();
    let mut at: usize = 0;
    let mut i: usize = 0;
    assert(encode_utf8(v@.take(0)) =~= Seq::<u8>::empty());
    while i < v.len() && i < char_idx
        invariant
            i <= v@.len(),
            i <= char_idx,
            v@ == s@,
            total == encode_utf8(s@).len(),
            at == encode_utf8(v@.take(i as int)).len(),
        decreases v@.len() - i,
    {
        proof {
            assert(v@.take(i + 1) =~= v@.take(i as int) + seq![v@[i as int]]);
            lemma_encode_concat(v@.take(i as int), seq![v@[i as int]]);
            lemma_encode_one(v@[i as int]);
            lemma_boundary(s@, i + 1);
        }
        at = at + utf8_width(v[i]);
        i = i + 1;
    }
    assert(v@.take(v@.len() as int) =~= v@);
    at
}

/// Splits a text before the character with index `char_idx`, or at its end.
fn split_before(s: &str, char_idx: usize) -> (r: (&str, &str))
    ensures
        r.0@ == first_chars(s@, char_idx as int),
        r.1@ == s@.skip(first_chars(s@, char_idx as int).len() as int),
{
    let at = char_to_byte_index(s, char_idx);
    let ghost k = first_chars(s@, char_idx as int).len() as int;
    let ghost head = s@.take(k);
    let ghost tail = s@.skip(k);
    proof {
        assert(head =~= first_chars(s@, char_idx as int));
        lemma_boundary(s@, k);
        lemma_encode_concat(head, tail);
        assert(s@ =~= head + tail);
    }
    let r = s.split_at(at);
    proof {
        assert(r.0.spec_bytes() =~= encode_utf8(head));
        assert(r.1.spec_bytes() =~= encode_utf8(tail));
        encode_utf8_decode_utf8(head);
        encode_utf8_decode_utf8(tail);
        encode_utf8_decode_utf8(r.0@);
        encode_utf8_decode_utf8(r.1@);
    }
    r
}

/// The text with `c` put before the character with index `char_idx`, or at its end.
pub fn insert_char(s: &str, char_idx: usize, c: char) -> (r: String)
    ensures
        r@ == s@.insert(first_chars(s@, char_idx as int).len() as int, c),
{
    let (head, tail) = split_before(s, char_idx);
    let mut out: String = head.to_owned();
    out.push(c);
    out.append(tail);
    assert(out@ =~= s@.insert(first_chars(s@, char_idx as int).len() as int, c));
    out
}

/// The text without the character with index `char_idx`.
pub fn remove_char(s: &str, char_idx: usize) -> (r: String)
    requires
        char_idx < s@.len(),
    ensures
        r@ == s@.remove(char_idx as int),
{
    let (head, tail) = split_before(s, char_idx);
    let (_first, rest) = split_before(tail, 1);
    let mut out: String = head.to_owned();
    out.append(rest);
    assert(out@ =~= s@.remove(char_idx as int));
    out
}

// ---------------------------------------------------------------------------
// Lists survive being written and read
// ---------------------------------------------------------------------------

proof fn lemma_split_append(s: Seq<char>, t: Seq<char>, sep: char)
    requires
        !t.contains(sep),
    ensures
        split(s + t, sep) == split(s, sep).drop_last().push(split(s, sep).last() + t),
    decreases t.len(),
{
    lemma_split_nonempty(s, sep);
    if t.len() == 0 {
        assert(s + t =~= s);
        assert(split(s, sep).last() + t =~= split(s, sep).last());
        assert(split(s, sep) =~= split(s, sep).drop_last().push(split(s, sep).last()));
    } else {
        let u = t.drop_last();
        assert(t[t.len() - 1] == t.last());
        assert(!u.contains(sep)) by {
            if u.contains(sep) {
                let i = choose|i: int| 0 <= i < u.len() && u[i] == sep;
                assert(t[i] == sep);
            }
        }
        lemma_split_append(s, u, sep);
        assert((s + t).drop_last() =~= s + u);
        assert((s + t).last() == t.last());
        let before = split(s + u, sep);
        assert(before.drop_last() =~= split(s, sep).drop_last());
        assert((split(s, sep).last() + u).push(t.last()) =~= split(s, sep).last() + t);
    }
}

proof fn lemma_filter_keeps_all(s: Seq<Seq<char>>)
    requires
        forall|i: int| 0 <= i < s.len() ==> (#[trigger] s[i]).len() > 0,
    ensures
        s.filter(|p: Seq<char>| p.len() > 0) == s,
    decreases s.len(),
{
    reveal(Seq::filter);
    if s.len() > 0 {
        lemma_filter_keeps_all(s.drop_last());
        assert(s[s.len() - 1].len() > 0);
        assert(s =~= s.drop_last().push(s.last()));
    }
}

/// An entry that a comma-separated list can hold: not empty, without white
/// space around it and without a comma in it.
pub open spec fn list_entry(s: Seq<char>) -> bool {
    s.len() > 0 && is_trimmed(s) && !s.contains(',')
}

proof fn lemma_split_joined(v: Seq<Seq<char>>)
    requires
        v.len() > 0,
        forall|i: int| 0 <= i < v.len() ==> list_entry(#[trigger] v[i]),
    ensures
        split(joined(v, ", "@), ',').map_values(|p: Seq<char>| trimmed(p)) == v,
    decreases v.len(),
{
    reveal_strlit(", ");
    let trim_all = |p: Seq<char>| trimmed(p);
    if v.len() == 1 {
        let e = Seq::<char>::empty();
        lemma_split_append(e, v[0], ',');
        assert(e + v[0] =~= v[0]);
        assert(split(e, ',').last() + v[0] =~= v[0]);
        assert(split(v[0], ',') =~= seq![v[0]]);
        assert(split(v[0], ',').map_values(trim_all) =~= v);
    } else {
        let u = v.drop_last();
        let x = v.last();
        assert(list_entry(v[v.len() - 1]));
        assert forall|i: int| 0 <= i < u.len() implies list_entry(#[trigger] u[i]) by {
            assert(u[i] == v[i]);
        }
        lemma_split_joined(u);
        let head = joined(u, ", "@);
        let tail = seq![' '] + x;
        assert(joined(v, ", "@) =~= head.push(',') + tail);
        assert(!tail.contains(',')) by {
            if tail.contains(',') {
                let i = choose|i: int| 0 <= i < tail.len() && tail[i] == ',';
                assert(x[i - 1] == ',');
            }
        }
        assert(head.push(',').drop_last() =~= head);
        lemma_split_append(head.push(','), tail, ',');
        let e = Seq::<char>::empty();
        assert(split(head.push(','), ',') == split(head, ',').push(e));
        assert(split(head, ',').push(e).drop_last() =~= split(head, ','));
        assert(e + tail =~= tail);
        assert(split(joined(v, ", "@), ',') == split(head, ',').push(tail));
        assert(trimmed(tail) == x) by {
            assert(tail.drop_first() =~= x);
            assert(trim_start(x) == x);
        }
        assert(split(head, ',').push(tail).map_values(trim_all) =~= u.push(x));
        assert(u.push(x) =~= v);
    }
}

/// Reading a comma-separated list that was written from entries gives back the entries.
pub proof fn law_list_round_trip(v: Seq<Seq<char>>)
    requires
        forall|i: int| 0 <= i < v.len() ==> list_entry(#[trigger] v[i]),
    ensures
        list_entries(joined(v, ", "@)) == v,
{
    let trim_all = |p: Seq<char>| trimmed(p);
    if v.len() == 0 {
        reveal(Seq::filter);
        let e = Seq::<char>::empty();
        let nonempty = |p: Seq<char>| p.len() > 0;
        let pieces = split(e, ',').map_values(trim_all);
        assert(joined(v, ", "@) == e);
        assert(pieces.last() == e);
        assert(pieces.drop_last().filter(nonempty) =~= v);
        assert(pieces.filter(nonempty) == v);
    } else {
        lemma_split_joined(v);
        lemma_filter_keeps_all(v);
    }
}

/// What a comma-separated list reads as is made of entries that such a list can hold.
pub proof fn law_list_entries_are_entries(s: Seq<char>)
    ensures
        forall|i: int|
            0 <= i < list_entries(s).len() ==> list_entry(#[trigger] list_entries(s)[i]),
{
    let trim_all = |p: Seq<char>| trimmed(p);
    let nonempty = |p: Seq<char>| p.len() > 0;
    let pieces = split(s, ',');
    let all = pieces.map_values(trim_all);
    lemma_pieces_have_no_separator(s, ',');
    broadcast use {Seq::lemma_filter_len, Seq::lemma_filter_pred, Seq::lemma_filter_contains};

    assert forall|i: int| 0 <= i < list_entries(s).len() implies list_entry(
        #[trigger] list_entries(s)[i],
    ) by {
        let e = list_entries(s)[i];
        assert(all.filter(nonempty).contains(e));
        all.lemma_filter_contains_rev(nonempty, e);
        assert(nonempty(e));
        let k = choose|k: int| 0 <= k < all.len() && all[k] == e;
        assert(e == trimmed(pieces[k]));
        lemma_trimmed_is_trimmed(pieces[k]);
        if e.contains(',') {
            assert(pieces[k].contains(','));
        }
    }
}

proof fn lemma_pieces_have_no_separator(s: Seq<char>, sep: char)
    ensures
        forall|i: int| 0 <= i < split(s, sep).len() ==> !(#[trigger] split(s, sep)[i]).contains(sep),
    decreases s.len(),
{
    if s.len() > 0 {
        lemma_pieces_have_no_separator(s.drop_last(), sep);
        lemma_split_nonempty(s.drop_last(), sep);
        let head = split(s.drop_last(), sep);
        assert forall|i: int| 0 <= i < split(s, sep).len() implies !(#[trigger] split(
            s,
            sep,
        )[i]).contains(sep) by {
            let p = split(s, sep)[i];
            if p.contains(sep) {
                let k = choose|k: int| 0 <= k < p.len() && p[k] == sep;
                if i < head.len() {
                    assert(!head[i].contains(sep));
                    assert(k < head[i].len() ==> head[i].contains(head[i][k]));
                }
            }
        }
    }
}

// ---------------------------------------------------------------------------
// Laws
// ---------------------------------------------------------------------------

/// A number is written digit by digit, the most significant one first: one more
/// digit at the end makes ten times the number and the digit.
pub proof fn law_numbers_are_written_in_tens(n: nat, d: nat)
    requires
        d < 10,
    ensures
        decimal(d).len() == 1,
        decimal(d)[0] as int == '0' as int + d,
        n > 0 ==> decimal(10 * n + d).len() == decimal(n).len() + 1,
        n > 0 ==> decimal(10 * n + d).drop_last() == decimal(n),
        n > 0 ==> decimal(10 * n + d).last() as int == '0' as int + d,
        n > 0 ==> signed_decimal(-(n as int)) == seq!['-'] + decimal(n),
        signed_decimal(n as int) == decimal(n),
{
    if n > 0 {
        let m = 10 * n + d;
        assert(m / 10 == n && m % 10 == d) by (nonlinear_arith)
            requires
                m == 10 * n + d,
                d < 10,
        ;
        assert(decimal(m).drop_last() =~= decimal(n));
    }
}

/// Whether a character is one of the ten digits.
pub proof fn law_digits(c: char)
    ensures
        is_digit(c) <==> 48 <= c as int <= 57,
        is_digit(c) ==> digit_value(c) == c as int - 48,
{
}

/// Reading a number goes digit by digit: one more digit at the end makes ten
/// times the number and the digit, as long as that is not too large. Nothing
/// else than digits is read, but for one plus sign before them.
pub proof fn law_numbers_are_read_in_tens(s: Seq<char>, c: char, max: nat)
    ensures
        parsed_number(Seq::empty(), max) is None,
        parsed_number(seq!['+'], max) is None,
        s.len() > 0 && s[0] != '+' ==> parsed_number(seq!['+'] + s, max) == parsed_number(s, max),
        !(48 <= c as int <= 57) && (s.len() > 0 || c != '+') ==> parsed_number(s.push(c), max)
            is None,
        s.len() == 0 && 48 <= c as int <= 57 ==> parsed_number(s.push(c), max) == (if c as int - 48
            <= max {
            Some((c as int - 48) as nat)
        } else {
            None
        }),
        s.len() > 0 && s[0] != '+' && 48 <= c as int <= 57 ==> parsed_number(s.push(c), max) == (
        match parsed_number(s, max) {
            Some(n) => if 10 * n + (c as int - 48) <= max {
                Some((10 * n + (c as int - 48)) as nat)
            } else {
                None
            },
            None => None,
        }),
{
    let t = s.push(c);
    let none = Seq::<char>::empty();
    assert(number_digits(seq!['+']) =~= none);
    if s.len() > 0 && s[0] != '+' {
        assert((seq!['+'] + s).drop_first() =~= s);
        assert(number_digits(seq!['+'] + s) == s);
    }
    if !(48 <= c as int <= 57) && (s.len() > 0 || c != '+') {
        let d = number_digits(t);
        assert(d.len() > 0 && d[d.len() - 1] == c);
        assert(!is_digit(d[d.len() - 1]));
    }
    if 48 <= c as int <= 57 && (s.len() == 0 || s[0] != '+') {
        assert(t[0] != '+');
        assert(number_digits(t) == t);
        assert(t.drop_last() =~= s);
        assert(t.last() == c);
        assert(digits_value(t) == digits_value(s) * 10 + (c as int - 48));
        if s.len() == 0 {
            assert(digits_value(s) == 0);
            assert forall|i: int| 0 <= i < t.len() implies is_digit(#[trigger] t[i]) by {}
        } else {
            assert(number_digits(s) == s);
            if forall|i: int| 0 <= i < s.len() ==> is_digit(#[trigger] s[i]) {
                assert forall|i: int| 0 <= i < t.len() implies is_digit(#[trigger] t[i]) by {
                    if i < s.len() {
                        assert(is_digit(s[i]));
                    }
                }
            } else {
                let i = choose|i: int| 0 <= i < s.len() && !is_digit(#[trigger] s[i]);
                assert(!is_digit(t[i]));
            }
        }
    }
}

/// Whether a part of a text is what is left without the white space around it.
pub open spec fn trims_to(s: Seq<char>, i: int, j: int) -> bool {
    &&& 0 <= i <= j <= s.len()
    &&& forall|k: int| 0 <= k < i ==> white_space(#[trigger] s[k])
    &&& forall|k: int| j <= k < s.len() ==> white_space(#[trigger] s[k])
    &&& i < j ==> !white_space(s[i]) && !white_space(s[j - 1])
}

/// Trimming takes away white space, from both ends, all of it, and nothing else.
pub proof fn law_trimming_takes_white_space(s: Seq<char>)
    ensures
        exists|i: int, j: int| #[trigger] trims_to(s, i, j) && trimmed(s) == s.subrange(i, j),
        trimmed(trimmed(s)) == trimmed(s),
{
    let a = trim_start(s);
    let b = trimmed(s);
    lemma_trim_start_props(s);
    lemma_trim_end_props(a);
    lemma_trim_start_drops(s);
    lemma_trim_end_drops(a);
    lemma_trimmed_is_trimmed(s);
    lemma_trimmed_fixed(b);
    let i = s.len() - a.len();
    let j = i + b.len();
    assert(b =~= s.subrange(i, j));
    assert forall|k: int| j <= k < s.len() implies white_space(#[trigger] s[k]) by {
        assert(a[k - i] == s[k]);
    }
    if i < j {
        assert(b[0] == s[i]);
        assert(b[b.len() - 1] == s[j - 1]);
    }
    assert(trims_to(s, i, j));
}

proof fn lemma_trim_start_drops(s: Seq<char>)
    ensures
        forall|k: int| 0 <= k < s.len() - trim_start(s).len() ==> white_space(#[trigger] s[k]),
    decreases s.len(),
{
    if s.len() > 0 && white_space(s[0]) {
        let t = s.drop_first();
        lemma_trim_start_drops(t);
        lemma_trim_start_props(t);
        assert forall|k: int| 0 <= k < s.len() - trim_start(s).len() implies white_space(
            #[trigger] s[k],
        ) by {
            if k > 0 {
                assert(t[k - 1] == s[k]);
            }
        }
    }
}

proof fn lemma_trim_end_drops(s: Seq<char>)
    ensures
        forall|k: int| trim_end(s).len() <= k < s.len() ==> white_space(#[trigger] s[k]),
    decreases s.len(),
{
    if s.len() > 0 && white_space(s.last()) {
        let t = s.drop_last();
        lemma_trim_end_drops(t);
        assert forall|k: int| trim_end(s).len() <= k < s.len() implies white_space(
            #[trigger] s[k],
        ) by {
            if k < t.len() {
                assert(t[k] == s[k]);
            }
        }
    }
}

/// Of the ASCII characters the blank and the five that move the print position
/// are white space, and nothing else.
pub proof fn law_ascii_white_space(c: char)
    requires
        (c as int) < 128,
    ensures
        white_space(c) <==> c as int == 32 || 9 <= c as int <= 13,
{
}

/// The pieces of a text hold no separator, and joined by it they are the text.
pub proof fn law_pieces_join_to_the_text(s: Seq<char>, sep: char)
    ensures
        split(s, sep).len() > 0,
        forall|i: int|
            0 <= i < split(s, sep).len() ==> !(#[trigger] split(s, sep)[i]).contains(sep),
        joined(split(s, sep), seq![sep]) == s,
    decreases s.len(),
{
    lemma_split_nonempty(s, sep);
    lemma_pieces_have_no_separator(s, sep);
    let pieces = split(s, sep);
    if s.len() == 0 {
        assert(joined(pieces, seq![sep]) =~= s);
    } else {
        let t = s.drop_last();
        law_pieces_join_to_the_text(t, sep);
        let head = split(t, sep);
        if s.last() == sep {
            assert(pieces.drop_last() =~= head);
            assert(joined(pieces, seq![sep]) =~= s);
        } else if head.len() == 1 {
            assert(pieces[0] == head[0].push(s.last()));
            assert(s =~= t.push(s.last()));
        } else {
            assert(pieces.drop_last() =~= head.drop_last());
            assert(pieces.last() == head.last().push(s.last()));
            assert(t == joined(head.drop_last(), seq![sep]) + seq![sep] + head.last());
            assert(s =~= t.push(s.last()));
            assert(joined(pieces, seq![sep]) =~= s);
        }
    }
}

/// Joining is one list after the other, with the separator between them and
/// nothing at the ends.
pub proof fn law_joining_goes_part_by_part(
    a: Seq<Seq<char>>,
    b: Seq<Seq<char>>,
    x: Seq<char>,
    sep: Seq<char>,
)
    ensures
        joined(Seq::empty(), sep).len() == 0,
        joined(seq![x], sep) == x,
        a.len() > 0 && b.len() > 0 ==> joined(a + b, sep) == joined(a, sep) + sep + joined(b, sep),
    decreases b.len(),
{
    if a.len() > 0 && b.len() > 0 {
        let c = b.drop_last();
        assert((a + b).drop_last() =~= a + c);
        assert((a + b).last() == b.last());
        if c.len() == 0 {
            assert(a + c =~= a);
            assert(b[0] == b.last());
        } else {
            law_joining_goes_part_by_part(a, c, x, sep);
            assert(joined(a + b, sep) =~= joined(a, sep) + sep + joined(b, sep));
        }
    }
}

pub proof fn lemma_split_at_separator(a: Seq<char>, b: Seq<char>, sep: char)
    ensures
        split(a.push(sep) + b, sep) == split(a, sep) + split(b, sep),
    decreases b.len(),
{
    let s = a.push(sep) + b;
    if b.len() == 0 {
        assert(s =~= a.push(sep));
        assert(s.drop_last() =~= a);
        assert(split(s, sep) =~= split(a, sep) + split(b, sep));
    } else {
        let c = b.drop_last();
        lemma_split_at_separator(a, c, sep);
        lemma_split_nonempty(c, sep);
        assert(s.drop_last() =~= a.push(sep) + c);
        assert(s.last() == b.last());
        let head = split(a.push(sep) + c, sep);
        assert(head.last() == split(c, sep).last());
        assert(split(s, sep) =~= split(a, sep) + split(b, sep));
    }
}

pub proof fn lemma_split_whole(s: Seq<char>, sep: char)
    requires
        !s.contains(sep),
    ensures
        split(s, sep) == seq![s],
{
    let e = Seq::<char>::empty();
    lemma_split_append(e, s, sep);
    assert(e + s =~= s);
    assert(split(e, sep).last() + s =~= s);
    assert(split(s, sep) =~= seq![s]);
}

/// The entries of a list: those before a comma, then those behind it. A text
/// without commas is one entry, without the white space around it, or none
/// where it holds nothing else.
pub proof fn law_commas_part_the_entries(a: Seq<char>, b: Seq<char>)
    ensures
        list_entries(a.push(',') + b) == list_entries(a) + list_entries(b),
        !a.contains(',') && trimmed(a).len() > 0 ==> list_entries(a) == seq![trimmed(a)],
        !a.contains(',') && trimmed(a).len() == 0 ==> list_entries(a).len() == 0,
{
    let trim_all = |p: Seq<char>| trimmed(p);
    let nonempty = |p: Seq<char>| p.len() > 0;
    lemma_split_at_separator(a, b, ',');
    let x = split(a, ',').map_values(trim_all);
    let y = split(b, ',').map_values(trim_all);
    assert((split(a, ',') + split(b, ',')).map_values(trim_all) =~= x + y);
    Seq::filter_distributes_over_add(x, y, nonempty);
    if !a.contains(',') {
        reveal(Seq::filter);
        lemma_split_whole(a, ',');
        assert(x =~= seq![trimmed(a)]);
        assert(x.drop_last() =~= Seq::<Seq<char>>::empty());
        assert(x.drop_last().filter(nonempty) =~= Seq::<Seq<char>>::empty());
        assert(x.last() == trimmed(a));
        assert(x.filter(nonempty) =~= if nonempty(trimmed(a)) {
            seq![trimmed(a)]
        } else {
            Seq::empty()
        });
    }
}

/// A text is cut at its first separator, which goes; a text without one is not
/// cut.
pub proof fn law_texts_are_cut_once(s: Seq<char>, sep: char)
    ensures
        cut(s, sep) is Some <==> s.contains(sep),
        cut(s, sep) matches Some((a, b)) ==> s == a.push(sep) + b && !a.contains(sep),
{
    lemma_first_index(s, sep);
    if let Some((a, b)) = cut(s, sep) {
        assert(s =~= a.push(sep) + b);
        if a.contains(sep) {
            let k = choose|k: int| 0 <= k < a.len() && a[k] == sep;
            assert(s[k] == sep);
        }
    }
}

/// The lines of a text: the one up to the first line end, then those of the
/// rest. A carriage return before a line end goes; a text without line ends is
/// one line, or none where it is empty.
pub proof fn law_line_ends_part_the_lines(a: Seq<char>, b: Seq<char>)
    requires
        !a.contains('\n'),
    ensures
        a.len() == 0 ==> lines(a).len() == 0,
        a.len() > 0 ==> lines(a) == seq![a],
        a.len() > 0 && a.last() == '\r' ==> lines(a.push('\n') + b) == seq![a.drop_last()] + lines(
            b,
        ),
        a.len() == 0 || a.last() != '\r' ==> lines(a.push('\n') + b) == seq![a] + lines(b),
{
    let cut_cr = |p: Seq<char>| without_cr(p);
    lemma_split_whole(a, '\n');
    lemma_split_at_separator(a, b, '\n');
    lemma_split_nonempty(b, '\n');
    assert(split(a, '\n').drop_last().map_values(cut_cr) =~= Seq::empty());
    assert(lines(a) =~= if a.len() == 0 {
        Seq::empty()
    } else {
        seq![a]
    });
    let rest = split(b, '\n');
    let all = seq![a] + rest;
    assert(all.drop_last() =~= seq![a] + rest.drop_last());
    assert(all.last() == rest.last());
    assert((seq![a] + rest.drop_last()).map_values(cut_cr) =~= seq![without_cr(a)]
        + rest.drop_last().map_values(cut_cr));
    assert(lines(a.push('\n') + b) =~= seq![without_cr(a)] + lines(b));
}

/// A part occurs in a text exactly if the text is the part with something, or
/// nothing, before it and behind it.
pub proof fn law_occurring_is_standing_between(s: Seq<char>, part: Seq<char>)
    ensures
        occurs(s, part) <==> exists|a: Seq<char>, b: Seq<char>| s == #[trigger] (a + part + b),
        has_prefix(s, part) <==> exists|b: Seq<char>| s == #[trigger] (part + b),
{
    if occurs(s, part) {
        let at = choose|at: int| #[trigger] occurs_at(s, part, at);
        let a = s.take(at);
        let b = s.skip(at + part.len());
        assert(s =~= a + s.subrange(at, at + part.len()) + b);
        assert(s == a + part + b);
    }
    if exists|a: Seq<char>, b: Seq<char>| s == #[trigger] (a + part + b) {
        let (a, b) = choose|a: Seq<char>, b: Seq<char>| s == #[trigger] (a + part + b);
        let at = a.len() as int;
        assert(s.subrange(at, at + part.len()) =~= part);
        assert(occurs_at(s, part, at));
    }
    if has_prefix(s, part) {
        let b = s.skip(part.len() as int);
        assert(s =~= s.take(part.len() as int) + b);
        assert(s == part + b);
    }
    if exists|b: Seq<char>| s == #[trigger] (part + b) {
        let b = choose|b: Seq<char>| s == #[trigger] (part + b);
        assert(s.take(part.len() as int) =~= part);
    }
}

/// A part is taken out wherever it stands, from the left on, and all else stays
/// as it is.
pub proof fn law_a_part_is_taken_out(s: Seq<char>, part: Seq<char>)
    requires
        part.len() > 0,
    ensures
        without(part + s, part) == without(s, part),
        !occurs(s, part) ==> without(s, part) == s,
        s.len() > 0 && !has_prefix(s, part) ==> without(s, part) == seq![s[0]] + without(
            s.skip(1),
            part,
        ),
    decreases s.len(),
{
    assert((part + s).take(part.len() as int) =~= part);
    assert((part + s).skip(part.len() as int) =~= s);
    if s.len() > 0 {
        assert(s.drop_first() =~= s.skip(1));
        if !occurs(s, part) {
            let t = s.drop_first();
            if occurs(t, part) {
                let at = choose|at: int| #[trigger] occurs_at(t, part, at);
                assert(t.subrange(at, at + part.len()) =~= s.subrange(at + 1, at + 1 + part.len()));
                assert(occurs_at(s, part, at + 1));
            }
            if has_prefix(s, part) {
                assert(s.take(part.len() as int) =~= s.subrange(0, part.len() as int));
                assert(occurs_at(s, part, 0));
            }
            law_a_part_is_taken_out(t, part);
            assert(s =~= seq![s[0]] + t);
        }
    }
}

/// Of two texts the one comes before the other that has the smaller character
/// where they first differ, or that ends there.
pub proof fn law_texts_are_ordered_by_the_first_difference(a: Seq<char>, b: Seq<char>, i: int)
    requires
        0 <= i <= a.len(),
        i <= b.len(),
        a.take(i) == b.take(i),
        i < a.len() && i < b.len() ==> a[i] != b[i],
    ensures
        i < a.len() && i < b.len() ==> (text_before(a, b) <==> a[i] < b[i]),
        i == a.len() ==> (text_before(a, b) <==> a.len() < b.len()),
        i == b.len() ==> !text_before(a, b),
    decreases i,
{
    if i > 0 {
        assert(a[0] == a.take(i)[0] && b[0] == b.take(i)[0]);
        let x = a.drop_first();
        let y = b.drop_first();
        assert(x.take(i - 1) =~= a.take(i).drop_first());
        assert(y.take(i - 1) =~= b.take(i).drop_first());
        law_texts_are_ordered_by_the_first_difference(x, y, i - 1);
    }
}

/// The first characters of a text: as many as asked for, or all there are.
pub proof fn law_first_characters(s: Seq<char>, n: int)
    requires
        0 <= n,
    ensures
        first_chars(s, n).len() == (if n < s.len() {
            n
        } else {
            s.len() as int
        }),
        forall|i: int| 0 <= i < first_chars(s, n).len() ==> first_chars(s, n)[i] == s[i],
{
}

/// What lists of strings and optional strings stand for, text by text.
pub proof fn law_strings_are_seen_as_texts(v: Seq<String>, s: Option<String>, i: int)
    ensures
        views(v).len() == v.len(),
        0 <= i < v.len() ==> views(v)[i] == v[i]@,
        s is Some <==> opt_view(s) is Some,
        s is Some ==> opt_view(s)->0 == s->0@,
{
}

/// Of the ASCII characters the letters and the digits count as such.
pub proof fn law_ascii_letters_and_digits(c: char)
    ensures
        ascii_alphanumeric(c) <==> 48 <= c as int <= 57 || 65 <= c as int <= 90 || 97 <= c as int
            <= 122,
{
}

} // verus!
