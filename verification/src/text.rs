//! Text on Unicode characters: the string operations that the rest of the
//! crate decides by, each stated over `Seq<char>`.
use vstd::arithmetic::power::*;
use vstd::prelude::*;
use vstd::string::*;
use vstd::utf8::*;

verus! {

// --- What std computes -------------------------------------------------------

/// `String::push` appends one character at the end of the string.
pub assume_specification[ String::push ](s: &mut String, c: char)
    ensures
        final(s)@ == old(s)@.push(c),
;

/// The lowercase form of a text that holds a character outside ASCII, by the
/// Unicode tables that `str::to_lowercase` uses.
pub uninterp spec fn unicode_lowercase(s: Seq<char>) -> Seq<char>;

/// `str::to_lowercase`. A text of ASCII characters alone has its letters `A`
/// to `Z` replaced by `a` to `z` and nothing else changed; what any other text
/// becomes is given a name, because it follows from the Unicode tables. Nothing
/// more is said of such a text: not that lowering it again leaves it as it is,
/// nor that texts that differ in case alone are lowered alike.
pub assume_specification[ str::to_lowercase ](s: &str) -> (r: String)
    ensures
        r@ == (if is_ascii_chars(s@) {
            s@.map_values(|c: char| ascii_lower(c))
        } else {
            unicode_lowercase(s@)
        }),
;

/// Why a byte sequence is not UTF-8. Nothing here looks inside it.
#[verifier::external_type_specification]
#[verifier::external_body]
pub struct ExUtf8Error(std::str::Utf8Error);

/// `std::str::from_utf8` accepts exactly the valid UTF-8 sequences, and then
/// gives the characters that they encode.
pub assume_specification[ std::str::from_utf8 ](v: &[u8]) -> (r: Result<
    &str,
    std::str::Utf8Error,
>)
    ensures
        r is Ok <==> valid_utf8(v@),
        r matches Ok(s) ==> s@ == decode_utf8(v@),
;

/// The text that `String::from_utf8_lossy` makes of bytes that are not valid
/// UTF-8, with replacement characters in place of what cannot be decoded.
pub uninterp spec fn repaired_utf8(bytes: Seq<u8>) -> Seq<char>;

/// `String::from_utf8_lossy`, as an owned string. Valid UTF-8 is decoded as it
/// stands; how anything else is repaired is given a name.
#[verifier::external_body]
pub(crate) fn decode_lossy(bytes: &[u8]) -> (r: String)
    ensures
        r@ == (if valid_utf8(bytes@) {
            decode_utf8(bytes@)
        } else {
            repaired_utf8(bytes@)
        }),
{
    String::from_utf8_lossy(bytes).into_owned()
}

/// How the `Debug` format shows a text: between double quotes, with escapes.
pub uninterp spec fn quoted_text(s: Seq<char>) -> Seq<char>;

/// The `Debug` format of a `str`, that is `format!("{:?}", s)`. Which
/// characters it escapes follows from std's tables of printable characters, so
/// the result is given a name.
#[verifier::external_body]
pub(crate) fn quote_text(s: &str) -> (r: String)
    ensures
        r@ == quoted_text(s@),
{
    format!("{:?}", s)
}

/// How the `Debug` format shows a character: between single quotes, with
/// escapes.
pub uninterp spec fn quoted_char(c: char) -> Seq<char>;

/// The `Debug` format of a `char`, that is `format!("{:?}", c)`, given a name
/// for the same reason as [`quote_text`].
#[verifier::external_body]
pub(crate) fn quote_char(c: char) -> (r: String)
    ensures
        r@ == quoted_char(c),
{
    format!("{:?}", c)
}

// --- Characters --------------------------------------------------------------

/// The characters with the Unicode property `White_Space`.
pub open spec fn white_space(c: char) -> bool {
    ||| '\u{9}' <= c <= '\u{d}'
    ||| c == '\u{20}'
    ||| c == '\u{85}'
    ||| c == '\u{a0}'
    ||| c == '\u{1680}'
    ||| '\u{2000}' <= c <= '\u{200a}'
    ||| '\u{2028}' <= c <= '\u{2029}'
    ||| c == '\u{202f}'
    ||| c == '\u{205f}'
    ||| c == '\u{3000}'
}

/// `A` to `Z` become `a` to `z`; every other character stays.
pub open spec fn ascii_lower(c: char) -> char {
    if 'A' <= c <= 'Z' {
        (c as u32 + 32) as char
    } else {
        c
    }
}

/// `a` to `z` become `A` to `Z`; every other character stays.
pub open spec fn ascii_upper(c: char) -> char {
    if 'a' <= c <= 'z' {
        (c as u32 - 32) as char
    } else {
        c
    }
}

pub open spec fn ascii_letter(c: char) -> bool {
    'a' <= c <= 'z' || 'A' <= c <= 'Z'
}

pub open spec fn ascii_digit(c: char) -> bool {
    '0' <= c <= '9'
}

/// Whether `c` is white space.
pub fn is_white_space(c: char) -> (r: bool)
    ensures
        r == white_space(c),
{
    ('\u{9}' <= c && c <= '\u{d}') || c == '\u{20}' || c == '\u{85}' || c == '\u{a0}' || c
        == '\u{1680}' || ('\u{2000}' <= c && c <= '\u{200a}') || ('\u{2028}' <= c && c
        <= '\u{2029}') || c == '\u{202f}' || c == '\u{205f}' || c == '\u{3000}'
}

/// The ASCII lowercase form of `c`.
pub fn to_ascii_lower(c: char) -> (r: char)
    ensures
        r == ascii_lower(c),
{
    if 'A' <= c && c <= 'Z' {
        (c as u8 + 32) as char
    } else {
        c
    }
}

/// Whether `c` is an ASCII letter.
pub fn is_ascii_letter(c: char) -> (r: bool)
    ensures
        r == ascii_letter(c),
{
    ('a' <= c && c <= 'z') || ('A' <= c && c <= 'Z')
}

/// The characters of `s`, one by one.
pub fn chars_of(s: &str) -> (r: Vec<char>)
    ensures
        r@ == s@,
{
    let mut out: Vec<char> = Vec::new();
    for c in it: s.chars()
        invariant
            out@ == it.seq().take(it.index()),
            it.seq() == s@,
    {
        out.push(c);
    }
    out
}

// --- Comparison --------------------------------------------------------------

/// Whether two texts are the same, character for character.
pub fn same_text(a: &str, b: &str) -> (r: bool)
    ensures
        r == (a@ == b@),
{
    broadcast use encode_utf8_decode_utf8;

    let x = a.as_bytes();
    let y = b.as_bytes();
    assert(x@ == y@ <==> a@ == b@) by {
        assert(decode_utf8(encode_utf8(a@)) == a@);
        assert(decode_utf8(encode_utf8(b@)) == b@);
    }
    if x.len() != y.len() {
        return false;
    }
    let mut i: usize = 0;
    while i < x.len()
        invariant
            i <= x.len(),
            x.len() == y.len(),
            x@ == y@ <==> a@ == b@,
            forall|k: int| 0 <= k < i ==> x@[k] == y@[k],
        decreases x.len() - i,
    {
        if x[i] != y[i] {
            return false;
        }
        i += 1;
    }
    assert(x@ =~= y@);
    true
}

/// Equality up to the case of ASCII letters.
pub open spec fn same_ignoring_ascii_case(a: Seq<char>, b: Seq<char>) -> bool {
    &&& a.len() == b.len()
    &&& forall|i: int| 0 <= i < a.len() ==> ascii_lower(#[trigger] a[i]) == ascii_lower(b[i])
}

/// Whether two texts are the same but for the case of ASCII letters.
pub fn eq_ignore_ascii_case(a: &str, b: &str) -> (r: bool)
    ensures
        r == same_ignoring_ascii_case(a@, b@),
{
    let x = chars_of(a);
    let y = chars_of(b);
    if x.len() != y.len() {
        return false;
    }
    let mut i: usize = 0;
    while i < x.len()
        invariant
            i <= x.len(),
            x@ == a@,
            y@ == b@,
            x.len() == y.len(),
            forall|k: int| 0 <= k < i ==> ascii_lower(#[trigger] a@[k]) == ascii_lower(b@[k]),
        decreases x.len() - i,
    {
        if to_ascii_lower(x[i]) != to_ascii_lower(y[i]) {
            assert(ascii_lower(a@[i as int]) != ascii_lower(b@[i as int]));
            return false;
        }
        i += 1;
    }
    true
}

/// Whether `text` begins with `prefix`.
pub fn starts_with(text: &str, prefix: &str) -> (r: bool)
    ensures
        r == prefix@.is_prefix_of(text@),
{
    let x = chars_of(text);
    let p = chars_of(prefix);
    if p.len() > x.len() {
        return false;
    }
    let mut i: usize = 0;
    while i < p.len()
        invariant
            i <= p.len() <= x.len(),
            x@ == text@,
            p@ == prefix@,
            forall|k: int| 0 <= k < i ==> p@[k] == x@[k],
        decreases p.len() - i,
    {
        if p[i] != x[i] {
            assert(text@.subrange(0, prefix@.len() as int)[i as int] == x@[i as int]);
            return false;
        }
        i += 1;
    }
    assert(prefix@ =~= text@.subrange(0, prefix@.len() as int));
    true
}

/// `text` behind its beginning `prefix`.
pub fn without_prefix(text: &str, prefix: &str) -> (r: String)
    requires
        prefix@.is_prefix_of(text@),
    ensures
        r@ == text@.skip(prefix@.len() as int),
{
    let n: usize = chars_of(prefix).len();
    let len: usize = chars_of(text).len();
    assert(text@.subrange(n as int, len as int) =~= text@.skip(n as int));
    text.substring_char(n, len).to_owned()
}

// --- Trimming ----------------------------------------------------------------

/// `s` without its leading white space.
pub open spec fn trimmed_start(s: Seq<char>) -> Seq<char>
    decreases s.len(),
{
    if s.len() > 0 && white_space(s.first()) {
        trimmed_start(s.drop_first())
    } else {
        s
    }
}

/// `s` without its trailing white space.
pub open spec fn trimmed_end(s: Seq<char>) -> Seq<char>
    decreases s.len(),
{
    if s.len() > 0 && white_space(s.last()) {
        trimmed_end(s.drop_last())
    } else {
        s
    }
}

/// `s` without its leading and trailing white space.
pub open spec fn trimmed(s: Seq<char>) -> Seq<char> {
    trimmed_end(trimmed_start(s))
}

/// The part of `s` between its leading and its trailing white space.
pub fn trim(s: &str) -> (r: &str)
    ensures
        r@ == trimmed(s@),
{
    let v = chars_of(s);
    let mut i: usize = 0;
    assert(s@.skip(0) =~= s@);
    while i < v.len() && is_white_space(v[i])
        invariant
            i <= v.len(),
            v@ == s@,
            trimmed_start(s@) == trimmed_start(s@.skip(i as int)),
        decreases v.len() - i,
    {
        assert(s@.skip(i as int).drop_first() =~= s@.skip(i + 1));
        i += 1;
    }
    assert(trimmed_start(s@) == s@.skip(i as int));
    let mut j: usize = v.len();
    assert(s@.skip(i as int) =~= s@.subrange(i as int, j as int));
    while i < j && is_white_space(v[j - 1])
        invariant
            i <= j <= v.len(),
            v@ == s@,
            trimmed(s@) == trimmed_end(s@.subrange(i as int, j as int)),
        decreases j,
    {
        assert(s@.subrange(i as int, j as int).drop_last() =~= s@.subrange(i as int, j - 1));
        j -= 1;
    }
    assert(trimmed(s@) == s@.subrange(i as int, j as int));
    s.substring_char(i, j)
}

/// Whether a text consists of white space alone.
pub open spec fn blank(s: Seq<char>) -> bool {
    forall|i: int| 0 <= i < s.len() ==> white_space(#[trigger] s[i])
}

/// Nothing is left of a text of white space, and only of that.
pub proof fn lemma_trimmed_of_blank(s: Seq<char>)
    ensures
        trimmed(s).len() == 0 <==> blank(s),
{
    lemma_trimmed_start_of_blank(s);
    let t = trimmed_start(s);
    if t.len() > 0 {
        lemma_trimmed_end_keeps_front(t);
    }
}

/// A text with something other than white space keeps its first such character
/// in front.
proof fn lemma_trimmed_start_of_blank(s: Seq<char>)
    ensures
        trimmed_start(s).len() == 0 <==> blank(s),
        trimmed_start(s).len() > 0 ==> !white_space(trimmed_start(s)[0]),
    decreases s.len(),
{
    if s.len() > 0 && white_space(s.first()) {
        let rest = s.drop_first();
        lemma_trimmed_start_of_blank(rest);
        if blank(rest) {
            assert forall|i: int| 0 <= i < s.len() implies white_space(#[trigger] s[i]) by {
                if i > 0 {
                    assert(rest[i - 1] == s[i]);
                }
            }
        } else {
            let i = choose|i: int| 0 <= i < rest.len() && !white_space(#[trigger] rest[i]);
            assert(!white_space(s[i + 1]));
        }
    }
}

/// White space is trimmed from the end only back to something else.
proof fn lemma_trimmed_end_keeps_front(s: Seq<char>)
    requires
        s.len() > 0,
        !white_space(s[0]),
    ensures
        trimmed_end(s).len() > 0,
        trimmed_end(s)[0] == s[0],
    decreases s.len(),
{
    if white_space(s.last()) {
        lemma_trimmed_end_keeps_front(s.drop_last());
    }
}

/// A trimmed text neither begins nor ends with white space.
pub proof fn lemma_trimmed_edges(s: Seq<char>)
    ensures
        trimmed(s).len() > 0 ==> !white_space(trimmed(s).first()) && !white_space(
            trimmed(s).last(),
        ),
{
    lemma_trimmed_start_of_blank(s);
    let t = trimmed_start(s);
    if t.len() > 0 {
        lemma_trimmed_end_keeps_front(t);
    }
    lemma_trimmed_end_edge(t);
}

proof fn lemma_trimmed_end_edge(s: Seq<char>)
    ensures
        trimmed_end(s).len() > 0 ==> !white_space(trimmed_end(s).last()),
    decreases s.len(),
{
    if s.len() > 0 && white_space(s.last()) {
        lemma_trimmed_end_edge(s.drop_last());
    }
}

/// White space around a text makes no difference once it is trimmed.
pub proof fn lemma_trimmed_ignores_padding(before: Seq<char>, s: Seq<char>, after: Seq<char>)
    requires
        blank(before),
        blank(after),
    ensures
        trimmed(before + s + after) == trimmed(s),
{
    assert(before + s + after =~= before + (s + after));
    lemma_trimmed_start_ignores_front(before, s + after);
    lemma_trimmed_start_keeps_end(s, after);
    if blank(s) {
        lemma_trimmed_start_of_blank(s);
        assert(blank(s + after)) by {
            assert forall|i: int| 0 <= i < (s + after).len() implies white_space(
                #[trigger] (s + after)[i],
            ) by {
                if i >= s.len() {
                    assert((s + after)[i] == after[i - s.len()]);
                }
            }
        }
        lemma_trimmed_start_of_blank(s + after);
        assert(trimmed_start(s) =~= trimmed_start(s + after));
    } else {
        lemma_trimmed_end_ignores_back(trimmed_start(s), after);
    }
}

/// White space in front is trimmed.
proof fn lemma_trimmed_start_ignores_front(before: Seq<char>, s: Seq<char>)
    requires
        blank(before),
    ensures
        trimmed_start(before + s) == trimmed_start(s),
    decreases before.len(),
{
    if before.len() > 0 {
        let rest = before.drop_first();
        assert forall|i: int| 0 <= i < rest.len() implies white_space(#[trigger] rest[i]) by {
            assert(rest[i] == before[i + 1]);
        }
        assert(white_space(before[0]));
        assert((before + s).drop_first() =~= rest + s);
        lemma_trimmed_start_ignores_front(rest, s);
    } else {
        assert(before + s =~= s);
    }
}

/// What follows something other than white space is not trimmed from the front.
proof fn lemma_trimmed_start_keeps_end(s: Seq<char>, after: Seq<char>)
    ensures
        !blank(s) ==> trimmed_start(s + after) == trimmed_start(s) + after,
    decreases s.len(),
{
    if s.len() > 0 && white_space(s.first()) {
        let rest = s.drop_first();
        lemma_trimmed_start_keeps_end(rest, after);
        assert((s + after).drop_first() =~= rest + after);
        if !blank(s) {
            let i = choose|i: int| 0 <= i < s.len() && !white_space(#[trigger] s[i]);
            assert(rest[i - 1] == s[i]);
        }
    }
}

/// White space at the end is trimmed.
proof fn lemma_trimmed_end_ignores_back(s: Seq<char>, after: Seq<char>)
    requires
        blank(after),
    ensures
        trimmed_end(s + after) == trimmed_end(s),
    decreases after.len(),
{
    if after.len() > 0 {
        assert(white_space(after[after.len() - 1]));
        assert((s + after).drop_last() =~= s + after.drop_last());
        lemma_trimmed_end_ignores_back(s, after.drop_last());
    } else {
        assert(s + after =~= s);
    }
}

/// `s` without the characters `c` at its end.
pub open spec fn trimmed_end_of(s: Seq<char>, c: char) -> Seq<char>
    decreases s.len(),
{
    if s.len() > 0 && s.last() == c {
        trimmed_end_of(s.drop_last(), c)
    } else {
        s
    }
}

/// `s` up to the characters `c` that end it.
pub fn trim_end_matches(s: &str, c: char) -> (r: &str)
    ensures
        r@ == trimmed_end_of(s@, c),
{
    let v = chars_of(s);
    let mut j: usize = v.len();
    assert(s@.subrange(0, j as int) =~= s@);
    while 0 < j && v[j - 1] == c
        invariant
            j <= v.len(),
            v@ == s@,
            trimmed_end_of(s@, c) == trimmed_end_of(s@.subrange(0, j as int), c),
        decreases j,
    {
        assert(s@.subrange(0, j as int).drop_last() =~= s@.subrange(0, j - 1));
        j -= 1;
    }
    s.substring_char(0, j)
}

// --- Replacing and joining ---------------------------------------------------

/// `s` with each `from` replaced by `to`.
pub open spec fn replaced(s: Seq<char>, from: char, to: char) -> Seq<char> {
    s.map_values(
        |c: char|
            if c == from {
                to
            } else {
                c
            },
    )
}

/// `s` with each `from` replaced by `to`.
pub fn replace_char(s: &str, from: char, to: char) -> (r: String)
    ensures
        r@ == replaced(s@, from, to),
{
    let v = chars_of(s);
    let mut out = String::new();
    let mut i: usize = 0;
    while i < v.len()
        invariant
            i <= v.len(),
            v@ == s@,
            out@ == replaced(s@, from, to).take(i as int),
        decreases v.len() - i,
    {
        if v[i] == from {
            out.push(to);
        } else {
            out.push(v[i]);
        }
        i += 1;
    }
    out
}

/// The views of the strings in `v`.
pub open spec fn texts(v: Seq<String>) -> Seq<Seq<char>> {
    v.map_values(|s: String| s@)
}

/// A list of lines, or a line for the error stream.
pub open spec fn lines_or_error(r: Result<Vec<String>, String>) -> Result<
    Seq<Seq<char>>,
    Seq<char>,
> {
    match r {
        Ok(lines) => Ok(texts(lines@)),
        Err(e) => Err(e@),
    }
}

/// `parts` one after another, with `separator` between neighbours.
pub open spec fn joined(parts: Seq<Seq<char>>, separator: Seq<char>) -> Seq<char>
    decreases parts.len(),
{
    if parts.len() == 0 {
        Seq::empty()
    } else if parts.len() == 1 {
        parts[0]
    } else {
        joined(parts.drop_last(), separator) + separator + parts.last()
    }
}

/// The strings of `parts` one after another, with `separator` between
/// neighbours.
pub fn join(parts: &Vec<String>, separator: &str) -> (r: String)
    ensures
        r@ == joined(texts(parts@), separator@),
{
    let ghost all = texts(parts@);
    let mut out = String::new();
    let mut i: usize = 0;
    while i < parts.len()
        invariant
            i <= parts.len(),
            all == texts(parts@),
            out@ == joined(all.take(i as int), separator@),
        decreases parts.len() - i,
    {
        if i > 0 {
            out.append(separator);
        }
        out.append(parts[i].as_str());
        proof {
            assert(all.take(i + 1).drop_last() =~= all.take(i as int));
            assert(all.take(i + 1).last() == parts@[i as int]@);
            if i == 0 {
                assert(out@ =~= parts@[0]@);
            }
        }
        i += 1;
    }
    assert(all.take(i as int) =~= all);
    out
}

// --- Decimal numbers ---------------------------------------------------------

/// The character of a decimal digit.
pub open spec fn digit_char(d: nat) -> char {
    (48 + d) as char
}

/// `n` in decimal, without leading zeros.
pub open spec fn decimal(n: nat) -> Seq<char>
    decreases n,
{
    if n < 10 {
        seq![digit_char(n)]
    } else {
        decimal(n / 10).push(digit_char(n % 10))
    }
}

/// `n` in decimal.
pub fn decimal_text(n: u64) -> (r: String)
    ensures
        r@ == decimal(n as nat),
    decreases n,
{
    if n < 10 {
        let mut s = String::new();
        s.push((48 + n as u8) as char);
        assert(s@ =~= seq![digit_char(n as nat)]);
        s
    } else {
        let mut s = decimal_text(n / 10);
        s.push((48 + (n % 10) as u8) as char);
        s
    }
}

/// The number that the digits of `s` spell.
pub open spec fn digits_value(s: Seq<char>) -> nat
    decreases s.len(),
{
    if s.len() == 0 {
        0
    } else {
        (digits_value(s.drop_last()) * 10 + (s.last() as u32 - 48)) as nat
    }
}

/// `s` without the one `+` that it may begin with.
pub open spec fn without_plus(s: Seq<char>) -> Seq<char> {
    if s.len() > 0 && s.first() == '+' {
        s.drop_first()
    } else {
        s
    }
}

/// The number that `s` spells: an optional `+`, then one or more ASCII digits
/// and nothing else, with a value that fits in 32 bits.
pub open spec fn parsed_u32(s: Seq<char>) -> Option<u32> {
    let digits = without_plus(s);
    if digits.len() > 0 && digits.all(|c: char| ascii_digit(c)) && digits_value(digits)
        <= u32::MAX {
        Some(digits_value(digits) as u32)
    } else {
        None
    }
}

/// The digits in front contribute at least their own value.
proof fn lemma_digits_value_grows(s: Seq<char>, k: int)
    requires
        0 <= k <= s.len(),
        s.all(|c: char| ascii_digit(c)),
    ensures
        digits_value(s.take(k)) <= digits_value(s),
    decreases s.len(),
{
    if k < s.len() {
        assert(s.drop_last().all(|c: char| ascii_digit(c)));
        assert(s.drop_last().take(k) =~= s.take(k));
        assert((|c: char| ascii_digit(c))(s.last()));
        lemma_digits_value_grows(s.drop_last(), k);
    } else {
        assert(s.take(k) =~= s);
    }
}

/// Reads `s` as an unsigned 32-bit decimal number.
pub fn parse_u32(s: &str) -> (r: Option<u32>)
    ensures
        r == parsed_u32(s@),
{
    let v = chars_of(s);
    let start: usize = if v.len() > 0 && v[0] == '+' {
        1
    } else {
        0
    };
    let ghost digits = without_plus(s@);
    assert(digits =~= s@.skip(start as int));
    if start == v.len() {
        return None;
    }
    let mut value: u32 = 0;
    let mut i: usize = start;
    assert(digits.take(0) =~= Seq::<char>::empty());
    while i < v.len()
        invariant
            start <= i <= v.len(),
            v@ == s@,
            digits == without_plus(s@),
            digits == s@.skip(start as int),
            digits.len() > 0,
            forall|k: int| 0 <= k < i - start ==> ascii_digit(#[trigger] digits[k]),
            value == digits_value(digits.take(i - start)),
        decreases v.len() - i,
    {
        let c = v[i];
        assert(c == digits[i - start]);
        if !('0' <= c && c <= '9') {
            assert(!(|c: char| ascii_digit(c))(digits[i - start]));
            return None;
        }
        assert(digits.take(i + 1 - start).drop_last() =~= digits.take(i - start));
        assert(digits.take(i + 1 - start).last() == c);
        let next: u64 = value as u64 * 10 + (c as u32 - 48) as u64;
        assert(next == digits_value(digits.take(i + 1 - start)));
        if next > u32::MAX as u64 {
            proof {
                if digits.all(|c: char| ascii_digit(c)) {
                    lemma_digits_value_grows(digits, i + 1 - start);
                }
            }
            return None;
        }
        value = next as u32;
        i += 1;
    }
    assert(digits.take(i - start) =~= digits);
    assert(digits.all(|c: char| ascii_digit(c)));
    Some(value)
}

/// The decimal form of a number consists of digits that spell it.
proof fn lemma_decimal(n: nat)
    ensures
        decimal(n).len() > 0,
        decimal(n).all(|c: char| ascii_digit(c)),
        digits_value(decimal(n)) == n,
    decreases n,
{
    if n < 10 {
        let s = decimal(n);
        assert(s.drop_last() =~= Seq::<char>::empty());
        assert(digits_value(s.drop_last()) == 0);
    } else {
        lemma_decimal(n / 10);
        let front = decimal(n / 10);
        let s = decimal(n);
        assert(s.drop_last() =~= front);
        assert forall|i: int| 0 <= i < s.len() implies (|c: char| ascii_digit(c))(
            #[trigger] s[i],
        ) by {
            if i < front.len() {
                assert((|c: char| ascii_digit(c))(front[i]));
            }
        }
    }
}

/// A number written in decimal is read back.
pub proof fn law_decimal_is_read_back(n: u32)
    ensures
        parsed_u32(decimal(n as nat)) == Some(n),
{
    lemma_decimal(n as nat);
    let s = decimal(n as nat);
    assert((|c: char| ascii_digit(c))(s[0]));
}

/// The character of a hexadecimal digit.
pub open spec fn hex_char(d: nat) -> char {
    if d < 10 {
        (48 + d) as char
    } else {
        (87 + d) as char
    }
}

/// A byte in hexadecimal: two digits behind `0x`.
pub open spec fn hex_byte(b: u8) -> Seq<char> {
    seq!['0', 'x', hex_char(b as nat / 16), hex_char(b as nat % 16)]
}

/// The character of a hexadecimal digit.
fn hex_digit(d: u8) -> (r: char)
    requires
        d < 16,
    ensures
        r == hex_char(d as nat),
{
    if d < 10 {
        (48 + d) as char
    } else {
        (87 + d) as char
    }
}

/// A byte in hexadecimal: two digits behind `0x`.
pub fn hex_byte_text(b: u8) -> (r: String)
    ensures
        r@ == hex_byte(b),
{
    let mut s = String::new();
    s.push('0');
    s.push('x');
    s.push(hex_digit(b / 16));
    s.push(hex_digit(b % 16));
    assert(s@ =~= hex_byte(b));
    s
}

// --- Columns -----------------------------------------------------------------

/// `s`, followed by as many spaces as it needs to be `width` characters long.
pub open spec fn padded(s: Seq<char>, width: nat) -> Seq<char> {
    if s.len() >= width {
        s
    } else {
        s + Seq::new((width - s.len()) as nat, |i: int| ' ')
    }
}

/// `s`, followed by as many spaces as it needs to be `width` characters long.
pub fn pad(s: &str, width: usize) -> (r: String)
    ensures
        r@ == padded(s@, width as nat),
{
    let mut n: usize = chars_of(s).len();
    let mut out = s.to_owned();
    while n < width
        invariant
            out@.len() == n,
            s@.len() <= n,
            n <= width || n == s@.len(),
            out@ == s@ + Seq::new((n - s@.len()) as nat, |i: int| ' '),
        decreases width - n,
    {
        out.push(' ');
        n += 1;
    }
    out
}

// --- Messages ----------------------------------------------------------------

/// `before`, then `n` in decimal, then `after`.
pub fn with_number(before: &str, n: u64, after: &str) -> (r: String)
    ensures
        r@ == before@ + decimal(n as nat) + after@,
{
    let mut out = before.to_owned();
    out.append(decimal_text(n).as_str());
    out.append(after);
    out
}

/// `before`, then `s`.
pub fn prefixed(before: &str, s: &str) -> (r: String)
    ensures
        r@ == before@ + s@,
{
    let mut out = before.to_owned();
    out.append(s);
    out
}

/// `s` between `before` and `after`.
pub fn enclosed(before: &str, s: &str, after: &str) -> (r: String)
    ensures
        r@ == before@ + s@ + after@,
{
    let mut out = before.to_owned();
    out.append(s);
    out.append(after);
    out
}

// --- Laws --------------------------------------------------------------------

/// White space is the 25 characters that Unicode lists under `White_Space`, by
/// their code points.
pub proof fn law_white_space_by_code_point(c: char)
    ensures
        white_space(c) <==> {
            let u = c as u32;
            ||| u == 9 || u == 10 || u == 11 || u == 12 || u == 13 || u == 32
            ||| u == 133 || u == 160 || u == 5760
            ||| 8192 <= u <= 8202
            ||| u == 8232 || u == 8233 || u == 8239 || u == 8287 || u == 12288
        },
{
}

/// Texts are the same but for case exactly when they are equally long and each
/// pair of characters is the same, or a capital and a small letter of ASCII that
/// stand 32 apart.
pub proof fn law_same_but_for_case(a: Seq<char>, b: Seq<char>)
    ensures
        same_ignoring_ascii_case(a, b) <==> a.len() == b.len() && forall|i: int|
            0 <= i < a.len() ==> {
                ||| #[trigger] a[i] == b[i]
                ||| 65 <= a[i] as u32 <= 90 && b[i] as u32 == a[i] as u32 + 32
                ||| 65 <= b[i] as u32 <= 90 && a[i] as u32 == b[i] as u32 + 32
            },
{
    if a.len() == b.len() && forall|i: int|
        0 <= i < a.len() ==> {
            ||| #[trigger] a[i] == b[i]
            ||| 65 <= a[i] as u32 <= 90 && b[i] as u32 == a[i] as u32 + 32
            ||| 65 <= b[i] as u32 <= 90 && a[i] as u32 == b[i] as u32 + 32
        } {
        assert forall|i: int| 0 <= i < a.len() implies ascii_lower(#[trigger] a[i]) == ascii_lower(
            b[i],
        ) by {}
    }
    if same_ignoring_ascii_case(a, b) {
        assert forall|i: int| 0 <= i < a.len() implies {
            ||| #[trigger] a[i] == b[i]
            ||| 65 <= a[i] as u32 <= 90 && b[i] as u32 == a[i] as u32 + 32
            ||| 65 <= b[i] as u32 <= 90 && a[i] as u32 == b[i] as u32 + 32
        } by {
            assert(ascii_lower(a[i]) == ascii_lower(b[i]));
        }
    }
}

/// A text is white space, then its trimmed form, then white space; and the
/// trimmed form neither begins nor ends with white space. The result is what was
/// trimmed in front and behind.
pub proof fn law_only_white_space_is_trimmed(s: Seq<char>) -> (r: (Seq<char>, Seq<char>))
    ensures
        s == r.0 + trimmed(s) + r.1,
        forall|i: int| 0 <= i < r.0.len() ==> white_space(#[trigger] r.0[i]),
        forall|i: int| 0 <= i < r.1.len() ==> white_space(#[trigger] r.1[i]),
        trimmed(s).len() > 0 ==> !white_space(trimmed(s)[0]) && !white_space(
            trimmed(s)[trimmed(s).len() - 1],
        ),
{
    let a = lemma_start_is_white_space(s);
    let b = lemma_end_is_white_space(trimmed_start(s));
    lemma_trimmed_edges(s);
    assert(s =~= a + trimmed(s) + b);
    (a, b)
}

proof fn lemma_start_is_white_space(s: Seq<char>) -> (a: Seq<char>)
    ensures
        s == a + trimmed_start(s),
        forall|i: int| 0 <= i < a.len() ==> white_space(#[trigger] a[i]),
    decreases s.len(),
{
    if s.len() > 0 && white_space(s.first()) {
        let rest = lemma_start_is_white_space(s.drop_first());
        let a = seq![s.first()] + rest;
        assert(s =~= a + trimmed_start(s)) by {
            assert(s =~= seq![s.first()] + s.drop_first());
        }
        assert forall|i: int| 0 <= i < a.len() implies white_space(#[trigger] a[i]) by {
            if i > 0 {
                assert(a[i] == rest[i - 1]);
            }
        }
        a
    } else {
        assert(s =~= Seq::<char>::empty() + s);
        Seq::empty()
    }
}

proof fn lemma_end_is_white_space(s: Seq<char>) -> (b: Seq<char>)
    ensures
        s == trimmed_end(s) + b,
        forall|i: int| 0 <= i < b.len() ==> white_space(#[trigger] b[i]),
    decreases s.len(),
{
    if s.len() > 0 && white_space(s.last()) {
        let rest = lemma_end_is_white_space(s.drop_last());
        let b = rest.push(s.last());
        assert(s =~= trimmed_end(s) + b) by {
            assert(s =~= s.drop_last().push(s.last()));
        }
        b
    } else {
        assert(s =~= s + Seq::<char>::empty());
        Seq::empty()
    }
}

/// A text is its form trimmed of `c`, then characters `c`; and that form does
/// not end in `c`. The result is how many were trimmed.
pub proof fn law_only_the_character_is_trimmed(s: Seq<char>, c: char) -> (n: nat)
    ensures
        s == trimmed_end_of(s, c) + Seq::new(n, |i: int| c),
        trimmed_end_of(s, c).len() > 0 ==> trimmed_end_of(s, c)[trimmed_end_of(s, c).len() - 1]
            != c,
    decreases s.len(),
{
    if s.len() > 0 && s.last() == c {
        let m = law_only_the_character_is_trimmed(s.drop_last(), c);
        assert(s =~= s.drop_last().push(c));
        assert(s =~= trimmed_end_of(s, c) + Seq::new(m + 1, |i: int| c));
        m + 1
    } else {
        assert(s =~= s + Seq::new(0, |i: int| c));
        0
    }
}

/// Replacing a character leaves the length and every other character.
pub proof fn law_only_the_character_is_replaced(s: Seq<char>, from: char, to: char, i: int)
    requires
        0 <= i < s.len(),
    ensures
        replaced(s, from, to).len() == s.len(),
        s[i] == from ==> replaced(s, from, to)[i] == to,
        s[i] != from ==> replaced(s, from, to)[i] == s[i],
{
}

/// Joining can be split anywhere: the parts before, a separator, and the parts
/// behind; one part is joined to itself, and none to nothing.
pub proof fn law_joining_splits_anywhere(parts: Seq<Seq<char>>, separator: Seq<char>, k: int)
    ensures
        parts.len() == 0 ==> joined(parts, separator) == Seq::<char>::empty(),
        parts.len() == 1 ==> joined(parts, separator) == parts[0],
        0 < k < parts.len() ==> joined(parts, separator) == joined(parts.take(k), separator)
            + separator + joined(parts.skip(k), separator),
    decreases parts.len(),
{
    if 0 < k < parts.len() {
        let front = parts.drop_last();
        if k == parts.len() - 1 {
            assert(parts.take(k) =~= front);
            assert(parts.skip(k) =~= seq![parts.last()]);
        } else {
            law_joining_splits_anywhere(front, separator, k);
            assert(front.take(k) =~= parts.take(k));
            assert(parts.skip(k).drop_last() =~= front.skip(k));
            assert(parts.skip(k).last() == parts.last());
            assert(joined(parts, separator) =~= joined(parts.take(k), separator) + separator
                + joined(parts.skip(k), separator));
        }
    }
}

/// Every part stands in the joined text: the first at its beginning, the last at
/// its end, and each other behind a separator. The result is where part `k`
/// begins.
pub proof fn law_every_part_is_joined(
    parts: Seq<Seq<char>>,
    separator: Seq<char>,
    k: int,
) -> (at: int)
    requires
        0 <= k < parts.len(),
    ensures
        0 <= at,
        at + parts[k].len() <= joined(parts, separator).len(),
        joined(parts, separator).subrange(at, at + parts[k].len()) == parts[k],
        k == 0 ==> at == 0,
        k > 0 ==> at >= separator.len() && joined(parts, separator).subrange(
            at - separator.len(),
            at,
        ) == separator,
        k == parts.len() - 1 ==> at + parts[k].len() == joined(parts, separator).len(),
    decreases parts.len(),
{
    let whole = joined(parts, separator);
    if parts.len() == 1 {
        assert(whole.subrange(0, parts[0].len() as int) =~= parts[0]);
        0
    } else {
        let front = parts.drop_last();
        let text = joined(front, separator);
        assert(whole == text + separator + parts.last());
        if k == parts.len() - 1 {
            let at: int = (text.len() + separator.len()) as int;
            assert(whole.subrange(at, at + parts[k].len()) =~= parts[k]);
            assert(whole.subrange(at - separator.len(), at) =~= separator);
            at
        } else {
            let at = law_every_part_is_joined(front, separator, k);
            assert(whole.subrange(at, at + parts[k].len()) =~= text.subrange(
                at,
                at + parts[k].len(),
            ));
            if k > 0 {
                assert(whole.subrange(at - separator.len(), at) =~= text.subrange(
                    at - separator.len(),
                    at,
                ));
            }
            at
        }
    }
}

/// The decimal form of a number, digit by digit: the digit that has `k` digits
/// behind it is that of 10 to the power of `k`, and there are no more digits
/// than the number needs.
pub proof fn law_decimal_digits(n: nat, k: nat)
    ensures
        k < decimal(n).len() ==> decimal(n)[decimal(n).len() - 1 - k] as int == 48 + (n as int
            / pow(10, k)) % 10,
        k > 0 && k < decimal(n).len() ==> pow(10, k) <= n,
        k >= decimal(n).len() ==> n < pow(10, k),
    decreases n,
{
    lemma_pow_positive(10, k);
    if k == 0 {
        lemma_pow0(10);
        lemma_decimal(n);
        if n >= 10 {
            assert(decimal(n).last() == digit_char(n % 10));
        }
    } else {
        let j = (k - 1) as nat;
        assert(pow(10, k) == 10 * pow(10, j)) by {
            reveal(pow);
        }
        lemma_pow_positive(10, j);
        if n < 10 {
            assert(n < pow(10, k));
        } else {
            law_decimal_digits(n / 10, j);
            let front = decimal(n / 10);
            assert(decimal(n).len() == front.len() + 1);
            vstd::arithmetic::div_mod::lemma_div_denominator(n as int, 10, pow(10, j));
            assert((n as int / 10) / pow(10, j) == n as int / pow(10, k));
            if k < decimal(n).len() {
                assert(decimal(n)[decimal(n).len() - 1 - k] == front[front.len() - 1 - j]);
                if j == 0 {
                    lemma_pow0(10);
                    assert(pow(10, k) == 10);
                } else {
                    assert(pow(10, j) <= n / 10);
                }
                assert(pow(10, k) <= n);
            } else {
                assert(n / 10 < pow(10, j));
            }
        }
    }
}

/// The value of digits is that of the digits in front, moved up by as many
/// places as digits follow, and that of those; and a digit by itself stands for
/// its distance from `0`.
pub proof fn law_value_of_digits(front: Seq<char>, back: Seq<char>, c: char)
    requires
        '0' <= c <= '9',
        forall|i: int| 0 <= i < front.len() ==> '0' <= #[trigger] front[i] <= '9',
        forall|i: int| 0 <= i < back.len() ==> '0' <= #[trigger] back[i] <= '9',
    ensures
        digits_value(front + back) == digits_value(front) * pow(10, back.len()) + digits_value(
            back,
        ),
        digits_value(seq![c]) == c as int - '0' as int,
    decreases back.len(),
{
    assert(seq![c].drop_last() =~= Seq::<char>::empty());
    assert(seq![c].last() == c);
    reveal_with_fuel(digits_value, 2);
    let v = digits_value(front) as int;
    if back.len() == 0 {
        assert(front + back =~= front);
        lemma_pow0(10);
        assert(v * 1 == v);
    } else {
        let rest = back.drop_last();
        assert((front + back).drop_last() =~= front + rest);
        assert((front + back).last() == back.last());
        assert('0' <= back[back.len() - 1] <= '9');
        law_value_of_digits(front, rest, c);
        assert(pow(10, back.len()) == 10 * pow(10, rest.len())) by {
            reveal(pow);
        }
        let p = pow(10, rest.len());
        let w = digits_value(rest) as int;
        assert((v * p + w) * 10 == v * (10 * p) + w * 10) by (nonlinear_arith);
    }
}

/// What is read as a number: digits alone, or behind one `+`, whose value fits.
/// Anything else is refused: no digits, a value that does not fit, and any other
/// character anywhere.
pub proof fn law_what_is_read_as_a_number(digits: Seq<char>, s: Seq<char>, i: int)
    requires
        forall|k: int| 0 <= k < digits.len() ==> '0' <= #[trigger] digits[k] <= '9',
    ensures
        parsed_u32(digits) == parsed_u32(seq!['+'] + digits),
        digits.len() > 0 && digits_value(digits) <= 0xffff_ffff ==> parsed_u32(digits) == Some(
            digits_value(digits) as u32,
        ),
        digits.len() == 0 || digits_value(digits) > 0xffff_ffff ==> parsed_u32(digits) is None,
        0 <= i < s.len() && !('0' <= s[i] <= '9') && !(i == 0 && s[i] == '+') ==> parsed_u32(
            s,
        ) is None,
{
    assert((seq!['+'] + digits).drop_first() =~= digits);
    if digits.len() > 0 {
        assert('0' <= digits[0] <= '9');
    }
    assert(without_plus(digits) == digits);
    assert(digits.all(|c: char| ascii_digit(c)));
    if 0 <= i < s.len() && !('0' <= s[i] <= '9') && !(i == 0 && s[i] == '+') {
        let d = without_plus(s);
        let k = if s.first() == '+' {
            i - 1
        } else {
            i
        };
        assert(d[k] == s[i]);
        assert(!(|c: char| ascii_digit(c))(d[k]));
    }
}

/// The value of a hexadecimal digit.
pub open spec fn hex_value(c: char) -> int {
    if '0' <= c <= '9' {
        c as int - '0' as int
    } else {
        c as int - 'a' as int + 10
    }
}

/// A byte in hexadecimal is `0x` and two digits, in small letters, that spell
/// the byte.
pub proof fn law_hexadecimal_spells_the_byte(b: u8)
    ensures
        hex_byte(b).len() == 4,
        hex_byte(b)[0] == '0',
        hex_byte(b)[1] == 'x',
        forall|i: int|
            2 <= i < 4 ==> ('0' <= #[trigger] hex_byte(b)[i] <= '9' || 'a' <= hex_byte(b)[i]
                <= 'f'),
        hex_value(hex_byte(b)[2]) * 16 + hex_value(hex_byte(b)[3]) == b,
{
}

/// A padded text is the text, then spaces alone, and as long as the column or
/// the text, whichever is longer.
pub proof fn law_padding_is_spaces(s: Seq<char>, width: nat, i: int)
    ensures
        padded(s, width).len() == if s.len() < width {
            width
        } else {
            s.len()
        },
        0 <= i < s.len() ==> padded(s, width)[i] == s[i],
        s.len() <= i < padded(s, width).len() ==> padded(s, width)[i] == ' ',
{
}

/// A text is the same as a word but for case exactly when, in small letters, it
/// is the word in small letters.
pub proof fn lemma_same_as_small(t: Seq<char>, word: Seq<char>, small: Seq<char>)
    requires
        small.len() == word.len(),
        forall|i: int| 0 <= i < word.len() ==> small[i] == ascii_lower(#[trigger] word[i]),
    ensures
        same_ignoring_ascii_case(t, word) <==> t.map_values(|c: char| ascii_lower(c)) == small,
{
    let low = t.map_values(|c: char| ascii_lower(c));
    if same_ignoring_ascii_case(t, word) {
        assert forall|i: int| 0 <= i < low.len() implies low[i] == small[i] by {
            assert(ascii_lower(t[i]) == ascii_lower(word[i]));
        }
        assert(low =~= small);
    }
    if low == small {
        assert forall|i: int| 0 <= i < t.len() implies ascii_lower(#[trigger] t[i]) == ascii_lower(
            word[i],
        ) by {
            assert(low[i] == small[i]);
        }
    }
}

} // verus!
