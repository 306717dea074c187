//! Text as sequences of characters: the small vocabulary every storefront
//! module builds its URLs, cookies and parsers from.
//!
//! Each operation is stated over `Seq<char>` in a spec function and carried
//! out on `Vec<char>` or `&str` by an executable one proved against it.

use vstd::prelude::*;
use vstd::utf8::encode_utf8;

verus! {

// ---------------------------------------------------------------- specs

/// An ASCII letter or digit.
pub open spec fn is_ascii_alnum(c: char) -> bool {
    ('a' <= c && c <= 'z') || ('A' <= c && c <= 'Z') || ('0' <= c && c <= '9')
}

/// An ASCII digit.
pub open spec fn is_ascii_digit(c: char) -> bool {
    '0' <= c && c <= '9'
}

/// The ASCII lower-case form of a character; anything else is unchanged.
pub open spec fn lower_char(c: char) -> char {
    if 'A' <= c && c <= 'Z' {
        ((c as u32) + 32) as char
    } else {
        c
    }
}

/// The ASCII upper-case form of a character; anything else is unchanged.
pub open spec fn upper_char(c: char) -> char {
    if 'a' <= c && c <= 'z' {
        ((c as u32) - 32) as char
    } else {
        c
    }
}

/// ASCII lower-casing of a whole sequence.
pub open spec fn lower(s: Seq<char>) -> Seq<char> {
    s.map_values(|c: char| lower_char(c))
}

/// Whether two sequences are equal ignoring ASCII case.
pub open spec fn eq_ignore_case(a: Seq<char>, b: Seq<char>) -> bool {
    lower(a) == lower(b)
}

/// The characters Unicode gives the `White_Space` property, which is what
/// `str::trim` strips.
pub open spec fn is_whitespace(c: char) -> bool {
    ||| c == ' '
    ||| ('\t' <= c && c <= '\r')
    ||| c == '\u{85}'
    ||| c == '\u{a0}'
    ||| c == '\u{1680}'
    ||| ('\u{2000}' <= c && c <= '\u{200a}')
    ||| c == '\u{2028}'
    ||| c == '\u{2029}'
    ||| c == '\u{202f}'
    ||| c == '\u{205f}'
    ||| c == '\u{3000}'
}

/// `s` with leading characters satisfying `p` removed.
pub open spec fn strip_start(s: Seq<char>, p: spec_fn(char) -> bool) -> Seq<char>
    decreases s.len(),
{
    if s.len() > 0 && p(s[0]) {
        strip_start(s.drop_first(), p)
    } else {
        s
    }
}

/// `s` with trailing characters satisfying `p` removed.
pub open spec fn strip_end(s: Seq<char>, p: spec_fn(char) -> bool) -> Seq<char>
    decreases s.len(),
{
    if s.len() > 0 && p(s.last()) {
        strip_end(s.drop_last(), p)
    } else {
        s
    }
}

/// Whitespace, as a predicate.
pub open spec fn ws_pred() -> spec_fn(char) -> bool {
    |c: char| is_whitespace(c)
}

/// One character, as a predicate.
pub open spec fn char_pred(c: char) -> spec_fn(char) -> bool {
    |d: char| d == c
}

/// What `str::trim` leaves.
pub open spec fn trim(s: Seq<char>) -> Seq<char> {
    strip_end(strip_start(s, ws_pred()), ws_pred())
}

/// What `trim_end_matches(c)` leaves.
pub open spec fn trim_end_char(s: Seq<char>, c: char) -> Seq<char> {
    strip_end(s, char_pred(c))
}

/// What `trim_start_matches(c)` leaves.
pub open spec fn trim_start_char(s: Seq<char>, c: char) -> Seq<char> {
    strip_start(s, char_pred(c))
}

/// Whether `s` begins with `p`.
pub open spec fn starts_with(s: Seq<char>, p: Seq<char>) -> bool {
    p.len() <= s.len() && s.subrange(0, p.len() as int) == p
}

/// Whether `s` ends with `p`.
pub open spec fn ends_with(s: Seq<char>, p: Seq<char>) -> bool {
    p.len() <= s.len() && s.subrange(s.len() - p.len(), s.len() as int) == p
}

/// Whether `p` occurs in `s` starting at index `i`.
pub open spec fn occurs_at<T>(s: Seq<T>, p: Seq<T>, i: int) -> bool {
    0 <= i && i + p.len() <= s.len() && s.subrange(i, i + p.len()) == p
}

/// Whether `p` occurs anywhere in `s`.
pub open spec fn contains<T>(s: Seq<T>, p: Seq<T>) -> bool {
    exists|i: int| occurs_at(s, p, i)
}

/// Whether `p` occurs in `s` at or after `from`.
pub open spec fn occurs_from<T>(s: Seq<T>, p: Seq<T>, from: int) -> bool {
    exists|i: int| from <= i && occurs_at(s, p, i)
}

/// The index of the first occurrence of `p` in `s` at or after `from`.
pub open spec fn first_from<T>(s: Seq<T>, p: Seq<T>, from: int, i: int) -> bool {
    &&& from <= i
    &&& occurs_at(s, p, i)
    &&& forall|j: int| from <= j < i ==> !occurs_at(s, p, j)
}

/// Whether character `c` occurs in `s`.
pub open spec fn has_char(s: Seq<char>, c: char) -> bool {
    exists|i: int| 0 <= i < s.len() && s[i] == c
}

/// The index of the first `c` in `s`, if any.
pub open spec fn index_of(s: Seq<char>, c: char) -> Option<int>
    decreases s.len(),
{
    if s.len() == 0 {
        None
    } else if s[0] == c {
        Some(0)
    } else {
        match index_of(s.drop_first(), c) {
            Some(i) => Some(i + 1),
            None => None,
        }
    }
}

/// `s` split on every `sep`, as `str::split` does: `n` separators give
/// `n + 1` pieces, empty ones included.
pub open spec fn split(s: Seq<char>, sep: char) -> Seq<Seq<char>>
    decreases s.len(),
{
    match index_of(s, sep) {
        Some(i) => {
            proof {
                lemma_index_of_some(s, sep);
            }
            seq![s.take(i)] + split(s.skip(i + 1), sep)
        },
        None => seq![s],
    }
}

/// The pieces joined with `sep` between each pair.
pub open spec fn join(parts: Seq<Seq<char>>, sep: Seq<char>) -> Seq<char>
    decreases parts.len(),
{
    if parts.len() == 0 {
        Seq::empty()
    } else if parts.len() == 1 {
        parts[0]
    } else {
        join(parts.drop_last(), sep) + sep + parts.last()
    }
}

/// The decimal digits of a natural number, most significant first.
pub open spec fn decimal(n: nat) -> Seq<char>
    decreases n,
{
    if n < 10 {
        seq![digit_char(n)]
    } else {
        decimal(n / 10) + seq![digit_char(n % 10)]
    }
}

/// The character for a decimal digit.
pub open spec fn digit_char(d: nat) -> char {
    (('0' as u32) + d) as char
}

/// The upper-case hexadecimal character for a value below sixteen.
pub open spec fn hex_char(d: int) -> char {
    if d < 10 {
        (('0' as u32) + d) as char
    } else {
        (('A' as u32) + d - 10) as char
    }
}

/// A byte as `%XX`.
pub open spec fn percent_byte(b: u8) -> Seq<char> {
    seq!['%', hex_char((b / 16) as int), hex_char((b % 16) as int)]
}

/// The bytes left as they are by percent-encoding: RFC 3986's unreserved set,
/// plus `,` where `comma` is set.
pub open spec fn unreserved(b: u8, comma: bool) -> bool {
    ||| (65 <= b && b <= 90)
    ||| (97 <= b && b <= 122)
    ||| (48 <= b && b <= 57)
    ||| b == 45 || b == 95 || b == 46 || b == 126
    ||| (comma && b == 44)
}

/// One byte, percent-encoded.
pub open spec fn encode_byte(b: u8, comma: bool) -> Seq<char> {
    if unreserved(b, comma) {
        seq![b as char]
    } else {
        percent_byte(b)
    }
}

/// A byte string, percent-encoded byte by byte.
pub open spec fn percent_encode(bytes: Seq<u8>, comma: bool) -> Seq<char>
    decreases bytes.len(),
{
    if bytes.len() == 0 {
        Seq::empty()
    } else {
        percent_encode(bytes.drop_last(), comma) + encode_byte(bytes.last(), comma)
    }
}

/// The value of a hexadecimal digit, either case; -1 for anything else.
pub open spec fn hex_value(c: char) -> int {
    if '0' <= c && c <= '9' {
        c as int - '0' as int
    } else if 'A' <= c && c <= 'F' {
        c as int - 'A' as int + 10
    } else if 'a' <= c && c <= 'f' {
        c as int - 'a' as int + 10
    } else {
        -1
    }
}

/// Percent-decoding: `%XX` with two hexadecimal digits is the byte they
/// spell, and any other character stands for itself.
pub open spec fn percent_decode(s: Seq<char>) -> Seq<u8>
    decreases s.len(),
{
    if s.len() == 0 {
        Seq::empty()
    } else if s[0] == '%' && s.len() >= 3 && hex_value(s[1]) >= 0 && hex_value(s[2]) >= 0 {
        seq![(16 * hex_value(s[1]) + hex_value(s[2])) as u8] + percent_decode(s.skip(3))
    } else {
        seq![s[0] as u8] + percent_decode(s.skip(1))
    }
}

/// Decoding one encoded byte ahead of more text gives the byte back ahead of
/// the rest's decoding.
proof fn lemma_decode_encoded_byte(b: u8, comma: bool, t: Seq<char>)
    ensures
        percent_decode(encode_byte(b, comma) + t) == seq![b] + percent_decode(t),
{
    let s = encode_byte(b, comma) + t;
    if unreserved(b, comma) {
        assert(s[0] == b as char);
        assert(s.skip(1) =~= t);
    } else {
        let hi = (b / 16) as int;
        let lo = (b % 16) as int;
        assert(s[0] == '%');
        assert(s[1] == hex_char(hi));
        assert(s[2] == hex_char(lo));
        assert(hex_value(hex_char(hi)) == hi);
        assert(hex_value(hex_char(lo)) == lo);
        assert(16 * hi + lo == b);
        assert(s.skip(3) =~= t);
    }
}

/// Decoding what was encoded, ahead of more text, gives the bytes back ahead
/// of the rest's decoding.
proof fn lemma_decode_encoded(bytes: Seq<u8>, comma: bool, t: Seq<char>)
    ensures
        percent_decode(percent_encode(bytes, comma) + t) == bytes + percent_decode(t),
    decreases bytes.len(),
{
    if bytes.len() == 0 {
        assert(percent_encode(bytes, comma) + t =~= t);
        assert(bytes + percent_decode(t) =~= percent_decode(t));
    } else {
        let init = bytes.drop_last();
        let last = bytes.last();
        assert(percent_encode(bytes, comma) + t =~= percent_encode(init, comma) + (encode_byte(last, comma) + t));
        lemma_decode_encoded(init, comma, encode_byte(last, comma) + t);
        lemma_decode_encoded_byte(last, comma, t);
        assert(init + (seq![last] + percent_decode(t)) =~= bytes + percent_decode(t));
    }
}

/// Percent-decoding undoes percent-encoding: the bytes come back.
pub proof fn lemma_percent_decoding_undoes_encoding(bytes: Seq<u8>, comma: bool)
    ensures
        percent_decode(percent_encode(bytes, comma)) == bytes,
{
    lemma_decode_encoded(bytes, comma, Seq::empty());
    assert(percent_encode(bytes, comma) + Seq::<char>::empty() =~= percent_encode(bytes, comma));
    assert(bytes + Seq::<u8>::empty() =~= bytes);
}

/// Lower-casing a lower-cased text changes nothing.
pub proof fn lemma_lower_idempotent(s: Seq<char>)
    ensures
        lower(lower(s)) == lower(s),
{
    assert forall|i: int| 0 <= i < s.len() implies lower_char(lower_char(s[i])) == lower_char(s[i]) by {
        let c = s[i];
        if 'A' <= c && c <= 'Z' {
            assert(((c as u32) + 32) as char >= 'a');
        }
    }
    assert(lower(lower(s)) =~= lower(s));
}

/// Lower-casing neither makes nor unmakes whitespace, so it commutes with
/// stripping it from the start.
proof fn lemma_strip_start_lower(s: Seq<char>)
    ensures
        strip_start(lower(s), ws_pred()) == lower(strip_start(s, ws_pred())),
    decreases s.len(),
{
    if s.len() > 0 {
        assert(lower(s)[0] == lower_char(s[0]));
        assert(is_whitespace(lower_char(s[0])) == is_whitespace(s[0]));
        assert(lower(s).drop_first() =~= lower(s.drop_first()));
        lemma_strip_start_lower(s.drop_first());
    }
}

/// Lower-casing commutes with stripping whitespace from the end.
proof fn lemma_strip_end_lower(s: Seq<char>)
    ensures
        strip_end(lower(s), ws_pred()) == lower(strip_end(s, ws_pred())),
    decreases s.len(),
{
    if s.len() > 0 {
        assert(lower(s).last() == lower_char(s.last()));
        assert(is_whitespace(lower_char(s.last())) == is_whitespace(s.last()));
        assert(lower(s).drop_last() =~= lower(s.drop_last()));
        lemma_strip_end_lower(s.drop_last());
    }
}

/// Trimming and lower-casing may be done in either order.
pub proof fn lemma_trim_lower(s: Seq<char>)
    ensures
        trim(lower(s)) == lower(trim(s)),
{
    lemma_strip_start_lower(s);
    lemma_strip_end_lower(strip_start(s, ws_pred()));
}

// ------------------------------------------------------------ lemmas

/// Stripping from the start of a suffix that begins with a stripped
/// character is stripping from one character further on.
pub proof fn lemma_strip_start_step(s: Seq<char>, p: spec_fn(char) -> bool, i: int)
    requires
        0 <= i < s.len(),
        p(s[i]),
    ensures
        strip_start(s.subrange(i, s.len() as int), p) == strip_start(
            s.subrange(i + 1, s.len() as int),
            p,
        ),
{
    assert(s.subrange(i, s.len() as int).drop_first() =~= s.subrange(i + 1, s.len() as int));
}

/// The same, from the end.
pub proof fn lemma_strip_end_step(s: Seq<char>, p: spec_fn(char) -> bool, j: int)
    requires
        0 < j <= s.len(),
        p(s[j - 1]),
    ensures
        strip_end(s.subrange(0, j), p) == strip_end(s.subrange(0, j - 1), p),
{
    assert(s.subrange(0, j).drop_last() =~= s.subrange(0, j - 1));
}

/// The decimal form of a number is never empty and holds digits only.
pub proof fn lemma_decimal_digits(n: nat)
    ensures
        decimal(n).len() >= 1,
        forall|i: int| 0 <= i < decimal(n).len() ==> is_ascii_digit(#[trigger] decimal(n)[i]),
    decreases n,
{
    if n >= 10 {
        lemma_decimal_digits(n / 10);
    }
}

/// An optional string by its characters.
pub open spec fn opt_str(o: Option<String>) -> Option<Seq<char>> {
    match o {
        Some(s) => Some(s@),
        None => None,
    }
}

/// Whether every character is an ASCII digit.
pub open spec fn all_digits(s: Seq<char>) -> bool {
    forall|i: int| 0 <= i < s.len() ==> is_ascii_digit(#[trigger] s[i])
}

/// The number a run of decimal digits spells.
pub open spec fn digits_value(s: Seq<char>) -> int
    decreases s.len(),
{
    if s.len() == 0 {
        0
    } else {
        digits_value(s.drop_last()) * 10 + (s.last() as int - '0' as int)
    }
}

/// What `str::parse::<i32>` gives: an optional sign, then at least one
/// digit, and a value that fits.
pub open spec fn parse_i32(s: Seq<char>) -> Option<i32> {
    let signed = s.len() > 0 && (s[0] == '-' || s[0] == '+');
    let ds = if signed {
        s.drop_first()
    } else {
        s
    };
    if ds.len() == 0 || !all_digits(ds) {
        None
    } else if s[0] == '-' {
        if digits_value(ds) <= 2147483648 {
            Some((-digits_value(ds)) as i32)
        } else {
            None
        }
    } else if digits_value(ds) <= 2147483647 {
        Some(digits_value(ds) as i32)
    } else {
        None
    }
}

/// What `str::parse::<i64>` gives: an optional sign, then at least one
/// digit, and a value that fits.
pub open spec fn parse_i64(s: Seq<char>) -> Option<i64> {
    let signed = s.len() > 0 && (s[0] == '-' || s[0] == '+');
    let ds = if signed {
        s.drop_first()
    } else {
        s
    };
    if ds.len() == 0 || !all_digits(ds) {
        None
    } else if s[0] == '-' {
        if digits_value(ds) <= 9223372036854775808 {
            Some((-digits_value(ds)) as i64)
        } else {
            None
        }
    } else if digits_value(ds) <= 9223372036854775807 {
        Some(digits_value(ds) as i64)
    } else {
        None
    }
}

/// Digits spell a number no less than zero.
pub proof fn lemma_digits_value_nonneg(s: Seq<char>)
    requires
        all_digits(s),
    ensures
        digits_value(s) >= 0,
    decreases s.len(),
{
    if s.len() > 0 {
        assert(is_ascii_digit(s[s.len() - 1]));
        lemma_digits_value_nonneg(s.drop_last());
    }
}

/// Character vectors by their characters.
pub open spec fn views(v: Seq<Vec<char>>) -> Seq<Seq<char>> {
    v.map_values(|c: Vec<char>| c@)
}

/// Strings by their characters.
pub open spec fn strs(v: Seq<String>) -> Seq<Seq<char>> {
    v.map_values(|s: String| s@)
}

/// ASCII letters and digits only, lower-cased.
pub open spec fn alnum_lower(s: Seq<char>) -> Seq<char>
    decreases s.len(),
{
    if s.len() == 0 {
        Seq::empty()
    } else {
        alnum_lower(s.drop_last()) + if is_ascii_alnum(s.last()) {
            seq![lower_char(s.last())]
        } else {
            Seq::empty()
        }
    }
}

/// The first of `names` from `i` on that reads as `wanted` once punctuation
/// and case are dropped.
pub open spec fn first_named(names: Seq<Seq<char>>, wanted: Seq<char>, i: int) -> Option<int>
    decreases names.len() - i,
{
    if i >= names.len() || i < 0 {
        None
    } else if alnum_lower(names[i]) == wanted {
        Some(i)
    } else {
        first_named(names, wanted, i + 1)
    }
}

/// String slices by their characters.
pub open spec fn str_views(v: Seq<&str>) -> Seq<Seq<char>> {
    v.map_values(|s: &str| s@)
}

/// The lower-case hexadecimal digit for a value below sixteen.
pub open spec fn lower_hex_char(d: int) -> char {
    if d < 10 {
        (('0' as int) + d) as char
    } else {
        (('a' as int) + d - 10) as char
    }
}

/// The last `width` hexadecimal digits of `n`, lower-case, most significant
/// first: `n` zero-padded to that width, where it fits.
pub open spec fn hex_digits(n: nat, width: nat) -> Seq<char>
    decreases width,
{
    if width == 0 {
        Seq::empty()
    } else {
        hex_digits(n / 16, (width - 1) as nat).push(lower_hex_char((n % 16) as int))
    }
}

/// Whether a character is a hexadecimal digit.
pub open spec fn is_hex_digit(c: char) -> bool {
    ('0' <= c && c <= '9') || ('a' <= c && c <= 'f') || ('A' <= c && c <= 'F')
}

/// Hexadecimal digits are exactly as many as asked for, and each is one.
pub proof fn lemma_hex_digits(n: nat, width: nat)
    ensures
        hex_digits(n, width).len() == width,
        forall|i: int| 0 <= i < width ==> is_hex_digit(#[trigger] hex_digits(n, width)[i]),
    decreases width,
{
    if width > 0 {
        lemma_hex_digits(n / 16, (width - 1) as nat);
    }
}

/// What `str::to_lowercase` makes of a string: Unicode lower-casing, one
/// character sometimes becoming several.
pub uninterp spec fn lowercase(s: Seq<char>) -> Seq<char>;

/// What `str::parse::<u64>` gives: an optional `+`, then at least one
/// digit, and a value that fits.
pub open spec fn parse_u64(s: Seq<char>) -> Option<u64> {
    let ds = if s.len() > 0 && s[0] == '+' {
        s.drop_first()
    } else {
        s
    };
    if ds.len() == 0 || !all_digits(ds) || digits_value(ds) > u64::MAX {
        None
    } else {
        Some(digits_value(ds) as u64)
    }
}

/// Splitting always gives at least one piece.
pub proof fn lemma_split_nonempty(s: Seq<char>, sep: char)
    ensures
        split(s, sep).len() >= 1,
{
}

/// What a strip leaves does not start with what it strips.
pub proof fn lemma_strip_start_done(s: Seq<char>, p: spec_fn(char) -> bool)
    ensures
        strip_start(s, p).len() == 0 || !p(strip_start(s, p)[0]),
        strip_start(strip_start(s, p), p) == strip_start(s, p),
    decreases s.len(),
{
    if s.len() > 0 && p(s[0]) {
        lemma_strip_start_done(s.drop_first(), p);
    }
}

/// Trimming leading copies of a character twice is trimming once.
pub proof fn lemma_trim_start_char_idempotent(s: Seq<char>, c: char)
    ensures
        trim_start_char(trim_start_char(s, c), c) == trim_start_char(s, c),
        trim_start_char(s, c).len() == 0 || trim_start_char(s, c)[0] != c,
{
    lemma_strip_start_done(s, char_pred(c));
}

/// Leading copies of a character in front of a text that does not start
/// with it are all that trimming takes away.
pub proof fn lemma_trim_start_char_zeros(z: Seq<char>, t: Seq<char>, c: char)
    requires
        forall|i: int| 0 <= i < z.len() ==> z[i] == c,
        t.len() == 0 || t[0] != c,
    ensures
        trim_start_char(z + t, c) == t,
    decreases z.len(),
{
    if z.len() == 0 {
        assert(z + t =~= t);
    } else {
        assert((z + t).drop_first() =~= z.drop_first() + t);
        lemma_trim_start_char_zeros(z.drop_first(), t, c);
    }
}

// ------------------------------------------------------------ exec

/// Appends one character to a string.
///
/// Calls `String::push`, which the standard library documents as appending
/// the character to the end of the string; the contract says exactly that.
#[verifier::external_body]
pub fn push_char(s: &mut String, c: char)
    ensures
        final(s)@ == old(s)@.push(c),
{
    s.push(c);
}

/// The characters of a string slice, in order.
pub fn chars_of(s: &str) -> (v: Vec<char>)
    ensures
        v@ == s@,
{
    let mut v: Vec<char> = Vec::new();
    for c in it: s.chars()
        invariant
            v@ == it.seq().take(it.index() as int),
            it.seq() == s@,
    {
        v.push(c);
    }
    v
}

/// A string holding exactly the given characters.
pub fn string_of(v: &[char]) -> (s: String)
    ensures
        s@ == v@,
{
    let mut s = String::new();
    let mut i: usize = 0;
    while i < v.len()
        invariant
            i <= v.len(),
            s@ == v@.take(i as int),
        decreases v.len() - i,
    {
        push_char(&mut s, v[i]);
        assert(v@.take(i as int).push(v@[i as int]) =~= v@.take(i + 1));
        i += 1;
    }
    assert(v@.take(v.len() as int) =~= v@);
    s
}

/// A string holding the characters of a string slice.
pub fn owned(s: &str) -> (r: String)
    ensures
        r@ == s@,
{
    let v = chars_of(s);
    string_of(&v)
}

/// Appends every character of `t` to `v`.
pub fn extend(v: &mut Vec<char>, t: &[char])
    ensures
        final(v)@ == old(v)@ + t@,
{
    let mut i: usize = 0;
    while i < t.len()
        invariant
            i <= t.len(),
            v@ == old(v)@ + t@.take(i as int),
        decreases t.len() - i,
    {
        v.push(t[i]);
        assert(old(v)@ + t@.take(i + 1) =~= (old(v)@ + t@.take(i as int)).push(t@[i as int]));
        i += 1;
    }
    assert(t@.take(t.len() as int) =~= t@);
}

/// Appends every character of a string slice to `v`.
pub fn extend_str(v: &mut Vec<char>, t: &str)
    ensures
        final(v)@ == old(v)@ + t@,
{
    let cs = chars_of(t);
    extend(v, &cs);
}

/// The ASCII lower-case form of a character.
pub fn lower_char_exec(c: char) -> (r: char)
    ensures
        r == lower_char(c),
{
    if 'A' <= c && c <= 'Z' {
        let u = (c as u32) + 32;
        assert(u < 0x80);
        (u as u8) as char
    } else {
        c
    }
}

/// The ASCII upper-case form of a character.
pub fn upper_char_exec(c: char) -> (r: char)
    ensures
        r == upper_char(c),
{
    if 'a' <= c && c <= 'z' {
        let u = (c as u32) - 32;
        assert(u < 0x80);
        (u as u8) as char
    } else {
        c
    }
}

/// ASCII lower-casing.
pub fn to_lower(s: &[char]) -> (r: Vec<char>)
    ensures
        r@ == lower(s@),
{
    let mut r: Vec<char> = Vec::new();
    let mut i: usize = 0;
    while i < s.len()
        invariant
            i <= s.len(),
            r@ == lower(s@.take(i as int)),
        decreases s.len() - i,
    {
        let c = lower_char_exec(s[i]);
        r.push(c);
        assert(lower(s@.take(i + 1)) =~= lower(s@.take(i as int)).push(lower_char(s@[i as int])));
        i += 1;
    }
    assert(s@.take(s.len() as int) =~= s@);
    r
}

/// Whether two character sequences are equal.
pub fn same(a: &[char], b: &[char]) -> (r: bool)
    ensures
        r == (a@ == b@),
{
    if a.len() != b.len() {
        return false;
    }
    let mut i: usize = 0;
    while i < a.len()
        invariant
            i <= a.len(),
            a.len() == b.len(),
            forall|j: int| 0 <= j < i ==> a@[j] == b@[j],
        decreases a.len() - i,
    {
        if a[i] != b[i] {
            return false;
        }
        i += 1;
    }
    assert(a@ =~= b@);
    true
}

/// Whether two character sequences are equal ignoring ASCII case.
pub fn same_ignore_case(a: &[char], b: &[char]) -> (r: bool)
    ensures
        r == eq_ignore_case(a@, b@),
{
    let la = to_lower(a);
    let lb = to_lower(b);
    same(&la, &lb)
}

/// Whether a string slice equals a character sequence.
pub fn str_is(s: &str, t: &[char]) -> (r: bool)
    ensures
        r == (s@ == t@),
{
    let cs = chars_of(s);
    same(&cs, t)
}

/// Whether `s` begins with `p`.
pub fn starts_with_exec(s: &[char], p: &[char]) -> (r: bool)
    ensures
        r == starts_with(s@, p@),
{
    if p.len() > s.len() {
        return false;
    }
    let mut i: usize = 0;
    while i < p.len()
        invariant
            i <= p.len() <= s.len(),
            forall|j: int| 0 <= j < i ==> s@[j] == p@[j],
        decreases p.len() - i,
    {
        if s[i] != p[i] {
            assert(s@.subrange(0, p.len() as int)[i as int] != p@[i as int]);
            return false;
        }
        i += 1;
    }
    assert(s@.subrange(0, p.len() as int) =~= p@);
    true
}

/// Whether `p` occurs in `s` at index `i`.
pub fn occurs_at_exec(s: &[char], p: &[char], i: usize) -> (r: bool)
    ensures
        r == occurs_at(s@, p@, i as int),
{
    if i > s.len() || p.len() > s.len() - i {
        return false;
    }
    let mut k: usize = 0;
    while k < p.len()
        invariant
            k <= p.len(),
            i + p.len() <= s.len(),
            forall|j: int| 0 <= j < k ==> s@[i + j] == p@[j],
        decreases p.len() - k,
    {
        if s[i + k] != p[k] {
            assert(s@.subrange(i as int, i + p.len())[k as int] != p@[k as int]);
            return false;
        }
        k += 1;
    }
    assert(s@.subrange(i as int, i + p.len()) =~= p@);
    true
}

/// The first occurrence of `p` in `s` at or after `from`.
pub fn find_from(s: &[char], p: &[char], from: usize) -> (r: Option<usize>)
    ensures
        r matches Some(i) ==> first_from(s@, p@, from as int, i as int),
        r is None ==> !occurs_from(s@, p@, from as int),
{
    if from > s.len() {
        assert forall|j: int| from <= j implies !occurs_at(s@, p@, j) by {}
        return None;
    }
    let mut i = from;
    while i < s.len()
        invariant
            from <= i <= s.len(),
            forall|j: int| from <= j < i ==> !occurs_at(s@, p@, j),
        decreases s.len() - i,
    {
        if occurs_at_exec(s, p, i) {
            return Some(i);
        }
        i += 1;
    }
    if occurs_at_exec(s, p, i) {
        return Some(i);
    }
    assert forall|j: int| from <= j implies !occurs_at(s@, p@, j) by {}
    None
}

/// Whether `p` occurs anywhere in `s`.
pub fn contains_exec(s: &[char], p: &[char]) -> (r: bool)
    ensures
        r == contains(s@, p@),
{
    match find_from(s, p, 0) {
        Some(i) => true,
        None => {
            assert forall|i: int| !occurs_at(s@, p@, i) by {
                if occurs_at(s@, p@, i) {
                    assert(0 <= i);
                }
            }
            false
        },
    }
}

/// Whether a character occurs in `s`.
pub fn has_char_exec(s: &[char], c: char) -> (r: bool)
    ensures
        r == has_char(s@, c),
{
    let mut i: usize = 0;
    while i < s.len()
        invariant
            i <= s.len(),
            forall|j: int| 0 <= j < i ==> s@[j] != c,
        decreases s.len() - i,
    {
        if s[i] == c {
            return true;
        }
        i += 1;
    }
    false
}

/// The sub-sequence `s[from..to]`.
pub fn slice(s: &[char], from: usize, to: usize) -> (r: Vec<char>)
    requires
        from <= to <= s.len(),
    ensures
        r@ == s@.subrange(from as int, to as int),
{
    let mut r: Vec<char> = Vec::new();
    let mut i = from;
    while i < to
        invariant
            from <= i <= to <= s.len(),
            r@ == s@.subrange(from as int, i as int),
        decreases to - i,
    {
        r.push(s[i]);
        assert(s@.subrange(from as int, i + 1) =~= s@.subrange(from as int, i as int).push(
            s@[i as int],
        ));
        i += 1;
    }
    r
}

/// Whether a character is Unicode whitespace.
pub fn is_whitespace_exec(c: char) -> (r: bool)
    ensures
        r == is_whitespace(c),
{
    c == ' ' || ('\t' <= c && c <= '\r') || c == '\u{85}' || c == '\u{a0}' || c == '\u{1680}'
        || ('\u{2000}' <= c && c <= '\u{200a}') || c == '\u{2028}' || c == '\u{2029}' || c
        == '\u{202f}' || c == '\u{205f}' || c == '\u{3000}'
}

/// What `str::trim` leaves.
pub fn trim_exec(s: &[char]) -> (r: Vec<char>)
    ensures
        r@ == trim(s@),
{
    let ghost ws = ws_pred();
    assert(s@.subrange(0, s.len() as int) =~= s@);
    let mut i: usize = 0;
    while i < s.len() && is_whitespace_exec(s[i])
        invariant
            i <= s.len(),
            ws == ws_pred(),
            strip_start(s@, ws) == strip_start(s@.subrange(i as int, s.len() as int), ws),
        decreases s.len() - i,
    {
        proof {
            assert(ws(s@[i as int]));
            lemma_strip_start_step(s@, ws, i as int);
        }
        i += 1;
    }
    let ghost rest = s@.subrange(i as int, s.len() as int);
    assert(strip_start(rest, ws) == rest);
    assert(rest.subrange(0, rest.len() as int) =~= rest);
    let mut j: usize = s.len();
    while j > i && is_whitespace_exec(s[j - 1])
        invariant
            i <= j <= s.len(),
            rest == s@.subrange(i as int, s.len() as int),
            ws == ws_pred(),
            strip_end(rest, ws) == strip_end(rest.subrange(0, j - i), ws),
        decreases j,
    {
        proof {
            assert(rest[j - i - 1] == s@[j - 1]);
            assert(ws(rest[j - i - 1]));
            lemma_strip_end_step(rest, ws, j - i);
        }
        j -= 1;
    }
    assert(rest.subrange(0, j - i) =~= s@.subrange(i as int, j as int));
    slice(s, i, j)
}

/// What `trim_end_matches(c)` leaves.
pub fn trim_end_char_exec(s: &[char], c: char) -> (r: Vec<char>)
    ensures
        r@ == trim_end_char(s@, c),
{
    let ghost p = char_pred(c);
    assert(s@.subrange(0, s.len() as int) =~= s@);
    let mut j: usize = s.len();
    while j > 0 && s[j - 1] == c
        invariant
            j <= s.len(),
            p == char_pred(c),
            strip_end(s@, p) == strip_end(s@.subrange(0, j as int), p),
        decreases j,
    {
        proof {
            assert(p(s@[j - 1]));
            lemma_strip_end_step(s@, p, j as int);
        }
        j -= 1;
    }
    slice(s, 0, j)
}

/// What `trim_start_matches(c)` leaves.
pub fn trim_start_char_exec(s: &[char], c: char) -> (r: Vec<char>)
    ensures
        r@ == trim_start_char(s@, c),
{
    let ghost p = char_pred(c);
    assert(s@.subrange(0, s.len() as int) =~= s@);
    let mut i: usize = 0;
    while i < s.len() && s[i] == c
        invariant
            i <= s.len(),
            p == char_pred(c),
            strip_start(s@, p) == strip_start(s@.subrange(i as int, s.len() as int), p),
        decreases s.len() - i,
    {
        proof {
            assert(p(s@[i as int]));
            lemma_strip_start_step(s@, p, i as int);
        }
        i += 1;
    }
    slice(s, i, s.len())
}

/// The index of the first `c` in `s`.
pub fn index_of_exec(s: &[char], c: char) -> (r: Option<usize>)
    ensures
        r matches Some(i) ==> index_of(s@, c) == Some(i as int),
        r is None ==> index_of(s@, c) is None,
{
    let mut i: usize = 0;
    while i < s.len()
        invariant
            i <= s.len(),
            forall|j: int| 0 <= j < i ==> s@[j] != c,
        decreases s.len() - i,
    {
        if s[i] == c {
            proof {
                lemma_index_of_first(s@, c, i as int);
            }
            return Some(i);
        }
        i += 1;
    }
    proof {
        lemma_index_of_none(s@, c);
    }
    None
}

/// `index_of` finds the first occurrence.
pub proof fn lemma_index_of_first(s: Seq<char>, c: char, i: int)
    requires
        0 <= i < s.len(),
        s[i] == c,
        forall|j: int| 0 <= j < i ==> s[j] != c,
    ensures
        index_of(s, c) == Some(i),
    decreases i,
{
    if i > 0 {
        lemma_index_of_first(s.drop_first(), c, i - 1);
    }
}

/// `index_of` finds nothing where there is nothing.
pub proof fn lemma_index_of_none(s: Seq<char>, c: char)
    requires
        forall|j: int| 0 <= j < s.len() ==> s[j] != c,
    ensures
        index_of(s, c) is None,
    decreases s.len(),
{
    if s.len() > 0 {
        lemma_index_of_none(s.drop_first(), c);
    }
}

/// `index_of` points at an occurrence, with none before it.
pub proof fn lemma_index_of_some(s: Seq<char>, c: char)
    ensures
        index_of(s, c) matches Some(i) ==> 0 <= i < s.len() && s[i] == c && forall|j: int|
            0 <= j < i ==> s[j] != c,
        index_of(s, c) is None ==> forall|j: int| 0 <= j < s.len() ==> s[j] != c,
    decreases s.len(),
{
    if s.len() > 0 {
        lemma_index_of_some(s.drop_first(), c);
        if s[0] != c {
            assert forall|j: int| 1 <= j < s.len() implies s[j] == s.drop_first()[j - 1] by {}
        }
    }
}

/// `s` split on every `sep`.
pub fn split_exec(s: &[char], sep: char) -> (r: Vec<Vec<char>>)
    ensures
        views(r@) == split(s@, sep),
{
    let mut r: Vec<Vec<char>> = Vec::new();
    let mut start: usize = 0;
    let mut i: usize = 0;
    assert(s@.subrange(0, s.len() as int) =~= s@);
    assert(views(r@) + split(s@, sep) =~= split(s@, sep));
    while i < s.len()
        invariant
            start <= i <= s.len(),
            forall|j: int| start <= j < i ==> s@[j] != sep,
            split(s@, sep) == views(r@) + split(
                s@.subrange(start as int, s.len() as int),
                sep,
            ),
        decreases s.len() - i,
    {
        if s[i] == sep {
            let piece = slice(s, start, i);
            proof {
                let rest = s@.subrange(start as int, s.len() as int);
                lemma_index_of_first(rest, sep, i - start);
                assert(rest.take(i - start) =~= piece@);
                assert(rest.skip(i - start + 1) =~= s@.subrange(i + 1, s.len() as int));
            }
            r.push(piece);
            proof {
                assert(views(r@) =~= old_map_push(r@));
            }
            start = i + 1;
        }
        i += 1;
    }
    let piece = slice(s, start, s.len());
    proof {
        let rest = s@.subrange(start as int, s.len() as int);
        lemma_index_of_none(rest, sep);
    }
    r.push(piece);
    proof {
        assert(views(r@) =~= old_map_push(r@));
    }
    r
}

/// Mapping views over a pushed sequence is mapping the prefix and pushing.
pub open spec fn old_map_push(r: Seq<Vec<char>>) -> Seq<Seq<char>> {
    views(r.drop_last()).push(r.last()@)
}

/// The pieces joined with `sep` between each pair.
pub fn join_exec(parts: &[Vec<char>], sep: &[char]) -> (r: Vec<char>)
    ensures
        r@ == join(views(parts@), sep@),
{
    let ghost vs = views(parts@);
    let mut r: Vec<char> = Vec::new();
    let mut i: usize = 0;
    while i < parts.len()
        invariant
            i <= parts.len(),
            vs == views(parts@),
            r@ == join(vs.take(i as int), sep@),
        decreases parts.len() - i,
    {
        proof {
            assert(vs.take(i + 1).drop_last() =~= vs.take(i as int));
        }
        if i > 0 {
            extend(&mut r, sep);
        }
        extend(&mut r, &parts[i]);
        i += 1;
    }
    assert(vs.take(parts.len() as int) =~= vs);
    r
}

/// The decimal digits of a number.
pub fn decimal_exec(n: u64) -> (r: Vec<char>)
    ensures
        r@ == decimal(n as nat),
    decreases n,
{
    if n < 10 {
        let c = ((n as u8) + 48) as char;
        let mut r: Vec<char> = Vec::new();
        r.push(c);
        assert(r@ =~= seq![digit_char(n as nat)]);
        r
    } else {
        let mut r = decimal_exec(n / 10);
        let d = ((n % 10) as u8 + 48) as char;
        r.push(d);
        r
    }
}

/// The upper-case hexadecimal digit for a value below sixteen.
pub fn hex_char_exec(d: u8) -> (r: char)
    requires
        d < 16,
    ensures
        r == hex_char(d as int),
{
    if d < 10 {
        (d + 48) as char
    } else {
        (d + 55) as char
    }
}

/// A byte string, percent-encoded.
pub fn percent_encode_exec(bytes: &[u8], comma: bool) -> (r: Vec<char>)
    ensures
        r@ == percent_encode(bytes@, comma),
{
    let mut r: Vec<char> = Vec::new();
    let mut i: usize = 0;
    while i < bytes.len()
        invariant
            i <= bytes.len(),
            r@ == percent_encode(bytes@.take(i as int), comma),
        decreases bytes.len() - i,
    {
        let b = bytes[i];
        proof {
            assert(bytes@.take(i + 1).drop_last() =~= bytes@.take(i as int));
        }
        if (65 <= b && b <= 90) || (97 <= b && b <= 122) || (48 <= b && b <= 57) || b == 45 || b
            == 95 || b == 46 || b == 126 || (comma && b == 44) {
            r.push(b as char);
        } else {
            r.push('%');
            let hi = hex_char_exec(b / 16);
            r.push(hi);
            let lo = hex_char_exec(b % 16);
            r.push(lo);
        }
        i += 1;
    }
    assert(bytes@.take(bytes.len() as int) =~= bytes@);
    r
}

/// A string slice, percent-encoded over its UTF-8 bytes.
pub fn percent_encode_str(value: &str, comma: bool) -> (r: Vec<char>)
    ensures
        r@ == percent_encode(encode_utf8(value@), comma),
{
    let bytes = value.as_bytes();
    percent_encode_exec(bytes, comma)
}

/// Whether two string slices hold the same characters.
pub fn eq_str(a: &str, b: &str) -> (r: bool)
    ensures
        r == (a@ == b@),
{
    let ac = chars_of(a);
    let bc = chars_of(b);
    same(&ac, &bc)
}

/// `str::parse::<i32>` on a character sequence.
pub fn parse_i32_exec(s: &[char]) -> (r: Option<i32>)
    ensures
        r == parse_i32(s@),
{
    let n = s.len();
    if n == 0 {
        return None;
    }
    let neg = s[0] == '-';
    let start: usize = if s[0] == '-' || s[0] == '+' {
        1
    } else {
        0
    };
    let ghost ds = if start == 1 {
        s@.drop_first()
    } else {
        s@
    };
    assert(ds =~= s@.subrange(start as int, n as int));
    if start == n {
        return None;
    }
    // The value so far, held at a cap one past what any `i32` needs.
    let cap: u64 = 2147483649;
    let mut acc: u64 = 0;
    let mut i = start;
    assert(s@.subrange(start as int, start as int) =~= Seq::<char>::empty());
    while i < n
        invariant
            start <= i <= n,
            n == s.len(),
            cap == 2147483649,
            ds == s@.subrange(start as int, n as int),
            start == 1 <==> (s@[0] == '-' || s@[0] == '+'),
            start <= 1,
            ds == (if start == 1 {
                s@.drop_first()
            } else {
                s@
            }),
            all_digits(s@.subrange(start as int, i as int)),
            acc <= cap,
            acc < cap ==> acc == digits_value(s@.subrange(start as int, i as int)),
            acc == cap ==> digits_value(s@.subrange(start as int, i as int)) >= cap,
        decreases n - i,
    {
        let c = s[i];
        if !('0' <= c && c <= '9') {
            assert(ds[i - start] == c);
            assert(!is_ascii_digit(ds[i - start]));
            assert(!all_digits(ds));
            return None;
        }
        let ghost pre = s@.subrange(start as int, i as int);
        let ghost post = s@.subrange(start as int, i + 1);
        assert(post.drop_last() =~= pre);
        assert(post.last() == c);
        assert(all_digits(post)) by {
            assert forall|j: int| 0 <= j < post.len() implies is_ascii_digit(#[trigger] post[j]) by {
                if j < pre.len() {
                    assert(post[j] == pre[j]);
                }
            }
        }
        let d = ((c as u32) - 48) as u64;
        if acc < cap {
            acc = acc * 10 + d;
            if acc > cap {
                acc = cap;
            }
        }
        i += 1;
    }
    assert(s@.subrange(start as int, n as int) =~= ds);
    proof {
        lemma_digits_value_nonneg(ds);
    }
    if neg {
        if acc <= 2147483648 {
            let v: i64 = -(acc as i64);
            Some(v as i32)
        } else {
            None
        }
    } else if acc <= 2147483647 {
        Some(acc as i32)
    } else {
        None
    }
}

/// `str::parse::<i64>` on a character sequence.
pub fn parse_i64_exec(s: &[char]) -> (r: Option<i64>)
    ensures
        r == parse_i64(s@),
{
    let n = s.len();
    if n == 0 {
        return None;
    }
    let neg = s[0] == '-';
    let start: usize = if s[0] == '-' || s[0] == '+' {
        1
    } else {
        0
    };
    let ghost ds = if start == 1 {
        s@.drop_first()
    } else {
        s@
    };
    assert(ds =~= s@.subrange(start as int, n as int));
    if start == n {
        return None;
    }
    // The value so far, held at a cap one past what any `i64` needs.
    let cap: u128 = 9223372036854775809;
    let mut acc: u128 = 0;
    let mut i = start;
    assert(s@.subrange(start as int, start as int) =~= Seq::<char>::empty());
    while i < n
        invariant
            start <= i <= n,
            n == s.len(),
            cap == 9223372036854775809,
            ds == s@.subrange(start as int, n as int),
            start == 1 <==> (s@[0] == '-' || s@[0] == '+'),
            start <= 1,
            ds == (if start == 1 {
                s@.drop_first()
            } else {
                s@
            }),
            all_digits(s@.subrange(start as int, i as int)),
            acc <= cap,
            acc < cap ==> acc == digits_value(s@.subrange(start as int, i as int)),
            acc == cap ==> digits_value(s@.subrange(start as int, i as int)) >= cap,
        decreases n - i,
    {
        let c = s[i];
        if !('0' <= c && c <= '9') {
            assert(ds[i - start] == c);
            assert(!is_ascii_digit(ds[i - start]));
            assert(!all_digits(ds));
            return None;
        }
        let ghost pre = s@.subrange(start as int, i as int);
        let ghost post = s@.subrange(start as int, i + 1);
        assert(post.drop_last() =~= pre);
        assert(post.last() == c);
        assert(all_digits(post)) by {
            assert forall|j: int| 0 <= j < post.len() implies is_ascii_digit(#[trigger] post[j]) by {
                if j < pre.len() {
                    assert(post[j] == pre[j]);
                }
            }
        }
        let d = ((c as u32) - 48) as u128;
        if acc < cap {
            acc = acc * 10 + d;
            if acc > cap {
                acc = cap;
            }
        }
        i += 1;
    }
    assert(s@.subrange(start as int, n as int) =~= ds);
    proof {
        lemma_digits_value_nonneg(ds);
    }
    if neg {
        if acc <= 9223372036854775808 {
            let v: i128 = -(acc as i128);
            Some(v as i64)
        } else {
            None
        }
    } else if acc <= 9223372036854775807 {
        Some(acc as i64)
    } else {
        None
    }
}

/// Whether byte string `p` occurs in the first `n` bytes of `s`.
pub fn contains_bytes(s: &[u8], n: usize, p: &[u8]) -> (r: bool)
    requires
        n <= s.len(),
    ensures
        r == contains(s@.take(n as int), p@),
{
    let ghost t = s@.take(n as int);
    if p.len() > n {
        assert forall|i: int| !occurs_at(t, p@, i) by {}
        return false;
    }
    if p.len() == 0 {
        assert(t.subrange(0, 0) =~= p@);
        assert(occurs_at(t, p@, 0));
        return true;
    }
    let mut i: usize = 0;
    while i <= n - p.len()
        invariant
            1 <= p.len() <= n <= s.len(),
            t == s@.take(n as int),
            forall|j: int| 0 <= j < i ==> !occurs_at(t, p@, j),
        decreases n - i,
    {
        let mut k: usize = 0;
        let mut hit = true;
        while k < p.len()
            invariant
                k <= p.len(),
                1 <= p.len(),
                i + p.len() <= n <= s.len(),
                i <= n - p.len(),
                forall|j: int| 0 <= j < i ==> !occurs_at(t, p@, j),
                t == s@.take(n as int),
                hit ==> forall|j: int| 0 <= j < k ==> t[i + j] == p@[j],
                !hit ==> !occurs_at(t, p@, i as int),
            decreases p.len() - k,
        {
            if s[i + k] != p[k] {
                assert(t.subrange(i as int, i + p.len())[k as int] != p@[k as int]);
                hit = false;
            }
            k += 1;
        }
        if hit {
            assert(t.subrange(i as int, i + p.len()) =~= p@);
            assert(occurs_at(t, p@, i as int));
            return true;
        }
        i += 1;
    }
    assert forall|j: int| !occurs_at(t, p@, j) by {}
    false
}

/// ASCII letters and digits only, lower-cased.
pub fn alnum_lower_exec(s: &str) -> (r: Vec<char>)
    ensures
        r@ == alnum_lower(s@),
{
    let cs = chars_of(s);
    let mut r: Vec<char> = Vec::new();
    let mut i: usize = 0;
    while i < cs.len()
        invariant
            i <= cs.len(),
            cs@ == s@,
            r@ == alnum_lower(cs@.take(i as int)),
        decreases cs.len() - i,
    {
        proof {
            assert(cs@.take(i + 1).drop_last() =~= cs@.take(i as int));
            assert(cs@.take(i + 1).last() == cs@[i as int]);
        }
        let c = cs[i];
        if ('a' <= c && c <= 'z') || ('A' <= c && c <= 'Z') || ('0' <= c && c <= '9') {
            let l = lower_char_exec(c);
            r.push(l);
        }
        assert(r@ =~= alnum_lower(cs@.take(i + 1)));
        i += 1;
    }
    assert(cs@.take(cs.len() as int) =~= cs@);
    r
}

/// The first of `names` that reads as `name` once punctuation and case are
/// dropped from both.
pub fn find_named(name: &str, names: &[&'static str]) -> (r: Option<&'static str>)
    ensures
        r matches Some(n) ==> first_named(str_views(names@), alnum_lower(name@), 0) matches Some(
            i,
        ) && n@ == names@[i]@,
        r is None ==> first_named(str_views(names@), alnum_lower(name@), 0) is None,
{
    let wanted = alnum_lower_exec(name);
    let mut i: usize = 0;
    while i < names.len()
        invariant
            i <= names.len(),
            wanted@ == alnum_lower(name@),
            first_named(str_views(names@), wanted@, 0) == first_named(
                str_views(names@),
                wanted@,
                i as int,
            ),
        decreases names.len() - i,
    {
        let candidate = alnum_lower_exec(names[i]);
        proof {
            assert(str_views(names@)[i as int] == names@[i as int]@);
        }
        if same(&candidate, &wanted) {
            return Some(names[i]);
        }
        i += 1;
    }
    None
}

/// The last `width` hexadecimal digits of `n`, lower-case.
pub fn hex_digits_exec(n: u64, width: u8) -> (r: Vec<char>)
    ensures
        r@ == hex_digits(n as nat, width as nat),
    decreases width,
{
    if width == 0 {
        return Vec::new();
    }
    let mut r = hex_digits_exec(n / 16, width - 1);
    let d = (n % 16) as u8;
    let c = if d < 10 {
        (d + 48) as char
    } else {
        (d + 87) as char
    };
    r.push(c);
    r
}

/// Whether every character is ASCII.
pub open spec fn all_ascii(s: Seq<char>) -> bool {
    forall|i: int| 0 <= i < s.len() ==> (s[i] as u32) < 128
}

/// Lower-casing as `str::to_lowercase` does it, with its ASCII case spelled
/// out: on ASCII text only `A`-`Z` change.
pub open spec fn lowered(s: Seq<char>) -> Seq<char> {
    if all_ascii(s) {
        lower(s)
    } else {
        lowercase(s)
    }
}

/// Unicode lower-casing.
///
/// Calls `str::to_lowercase`, which the standard library defines by the
/// Unicode lowercase mapping of each character. The result is named
/// [`lowercase`] of the text; on ASCII text the mapping is the ASCII one,
/// `A`-`Z` to `a`-`z` and everything else unchanged, so there it is stated.
#[verifier::external_body]
pub(crate) fn to_lowercase_str(s: &str) -> (r: String)
    ensures
        r@ == lowercase(s@),
        r@ == lowered(s@),
{
    s.to_lowercase()
}

/// `str::parse::<u64>` on a string slice.
pub fn parse_u64_exec(text: &str) -> (r: Option<u64>)
    ensures
        r == parse_u64(text@),
{
    let s = chars_of(text);
    let n = s.len();
    let start: usize = if n > 0 && s[0] == '+' {
        1
    } else {
        0
    };
    let ghost ds = if n > 0 && s@[0] == '+' {
        s@.drop_first()
    } else {
        s@
    };
    assert(ds =~= s@.subrange(start as int, n as int));
    if start == n {
        return None;
    }
    let mut acc: u64 = 0;
    let mut over = false;
    let mut i = start;
    assert(s@.subrange(start as int, start as int) =~= Seq::<char>::empty());
    while i < n
        invariant
            start <= i <= n,
            n == s.len(),
            s@ == text@,
            ds == s@.subrange(start as int, n as int),
            ds == (if n > 0 && s@[0] == '+' {
                s@.drop_first()
            } else {
                s@
            }),
            all_digits(s@.subrange(start as int, i as int)),
            !over ==> acc == digits_value(s@.subrange(start as int, i as int)),
            over ==> digits_value(s@.subrange(start as int, i as int)) > u64::MAX,
        decreases n - i,
    {
        let c = s[i];
        if !('0' <= c && c <= '9') {
            assert(ds[i - start] == c);
            assert(!all_digits(ds));
            return None;
        }
        let ghost pre = s@.subrange(start as int, i as int);
        let ghost post = s@.subrange(start as int, i + 1);
        assert(post.drop_last() =~= pre);
        assert(post.last() == c);
        assert(all_digits(post)) by {
            assert forall|j: int| 0 <= j < post.len() implies is_ascii_digit(#[trigger] post[j]) by {
                if j < pre.len() {
                    assert(post[j] == pre[j]);
                }
            }
        }
        proof {
            lemma_digits_value_nonneg(pre);
        }
        let d = ((c as u32) - 48) as u64;
        if !over {
            if acc > (u64::MAX - d) / 10 {
                over = true;
            } else {
                acc = acc * 10 + d;
            }
        }
        i += 1;
    }
    assert(s@.subrange(start as int, n as int) =~= ds);
    if over {
        None
    } else {
        Some(acc)
    }
}

} // verus!
