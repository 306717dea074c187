//! The storefront's records, and the text rules they are read with.

use vstd::prelude::*;
use crate::json::{field, first_text_at, text_at, truth_at, Json};
use crate::mitre10::domain::{Address, Category, Customer, Promotion, Stock, StockLevel, stock_level_of};
use crate::mitre10::endpoints::{Algolia, ALGOLIA_CONFIG_KEY};
use crate::mitre10::error::Error;
use crate::text::{
    all_digits, chars_of, digits_value, eq_str, has_char, has_char_exec, is_ascii_alnum,
    is_ascii_digit, opt_str, owned, split, split_exec, str_views, string_of, strs, to_lower, trim,
    trim_exec, views,
};

verus! {

/// The last `/`-separated piece of a URL, trimmed, when it is all digits:
/// `/shop/wattyl-fence-finish-paint-10l/p/174969` gives `174969`.
pub open spec fn url_code(url: Seq<char>) -> Option<Seq<char>> {
    let parts = split(url, '/');
    let tail = trim(parts.last());
    if tail.len() > 0 && all_digits(tail) {
        Some(tail)
    } else {
        None
    }
}

/// A product code out of a product page URL.
pub fn code_from_url(url: &str) -> (r: Option<String>)
    ensures
        opt_str(r) == url_code(url@),
{
    let cs = chars_of(url);
    let parts = split_exec(&cs, '/');
    proof {
        assert(views(parts@).len() == parts@.len());
        crate::text::lemma_split_nonempty(url@, '/');
    }
    let last = &parts[parts.len() - 1];
    proof {
        assert(views(parts@).last() == last@);
    }
    let tail = trim_exec(last);
    if tail.len() == 0 {
        return None;
    }
    let mut i: usize = 0;
    while i < tail.len()
        invariant
            i <= tail.len(),
            tail@ == trim(split(url@, '/').last()),
            tail@.len() > 0,
            forall|j: int| 0 <= j < i ==> is_ascii_digit(#[trigger] tail@[j]),
        decreases tail.len() - i,
    {
        if !('0' <= tail[i] && tail[i] <= '9') {
            assert(!is_ascii_digit(tail@[i as int]));
            assert(!all_digits(tail@));
            return None;
        }
        i += 1;
    }
    Some(string_of(&tail))
}

/// The value of a digit in a radix of ten or sixteen, if it is one.
pub open spec fn digit_value(c: char, radix: nat) -> Option<nat> {
    if '0' <= c && c <= '9' {
        Some((c as nat - '0' as nat) as nat)
    } else if radix == 16 && 'a' <= c && c <= 'f' {
        Some((c as nat - 'a' as nat + 10) as nat)
    } else if radix == 16 && 'A' <= c && c <= 'F' {
        Some((c as nat - 'A' as nat + 10) as nat)
    } else {
        None
    }
}

/// The number a run of digits spells in a radix, if every one is a digit.
pub open spec fn radix_value(s: Seq<char>, radix: nat) -> Option<nat>
    decreases s.len(),
{
    if s.len() == 0 {
        Some(0)
    } else {
        match (radix_value(s.drop_last(), radix), digit_value(s.last(), radix)) {
            (Some(v), Some(d)) => Some(v * radix + d),
            _ => None,
        }
    }
}

/// What `u32::from_str_radix` gives for digits with no sign: at least one
/// digit, all valid, and a value that fits.
pub open spec fn parse_radix_u32(s: Seq<char>, radix: nat) -> Option<u32> {
    if s.len() == 0 {
        None
    } else {
        match radix_value(s, radix) {
            Some(v) => if v <= u32::MAX {
                Some(v as u32)
            } else {
                None
            },
            None => None,
        }
    }
}

/// Whether a number is a Unicode scalar value: what `char::from_u32` takes.
pub open spec fn scalar(code: u32) -> bool {
    code <= 0x10FFFF && !(0xD800 <= code <= 0xDFFF)
}

/// A character from its scalar value.
///
/// Calls `char::from_u32`, which the standard library documents as `Some`
/// exactly for Unicode scalar values -- at most `0x10FFFF` and outside the
/// surrogates `0xD800..=0xDFFF` -- with the character whose value it is.
#[verifier::external_body]
fn char_from(code: u32) -> (r: Option<char>)
    ensures
        r is Some <==> scalar(code),
        r matches Some(c) ==> c as u32 == code && c == code as char,
{
    char::from_u32(code)
}

/// The character an entity's name stands for: a handful of named ones, and
/// numeric ones in decimal or in hex after an `x`.
pub open spec fn entity_char(name: Seq<char>) -> Option<char> {
    if name == "amp"@ {
        Some('&')
    } else if name == "lt"@ {
        Some('<')
    } else if name == "gt"@ {
        Some('>')
    } else if name == "quot"@ {
        Some('"')
    } else if name == "apos"@ || name == "#39"@ {
        Some('\'')
    } else if name == "nbsp"@ {
        Some(' ')
    } else if name.len() > 0 && name[0] == '#' {
        let digits = name.drop_first();
        let code = if digits.len() > 0 && (digits[0] == 'x' || digits[0] == 'X') {
            parse_radix_u32(digits.drop_first(), 16)
        } else {
            parse_radix_u32(digits, 10)
        };
        match code {
            Some(c) => if scalar(c) {
                Some(c as char)
            } else {
                None
            },
            None => None,
        }
    } else {
        None
    }
}

/// Where an entity's name ends: at the first character that is neither an
/// ASCII letter or digit nor `#`.
pub open spec fn name_end(tail: Seq<char>) -> int
    decreases tail.len(),
{
    if tail.len() == 0 || !(is_ascii_alnum(tail[0]) || tail[0] == '#') {
        0
    } else {
        1 + name_end(tail.drop_first())
    }
}

/// Text with its entities decoded. A numeric entity's `;` is optional,
/// because the storefront's own data is missing it; an `&` that starts no
/// entity is left as it came.
pub open spec fn entities_of(s: Seq<char>) -> Seq<char>
    decreases s.len(),
{
    match crate::text::index_of(s, '&') {
        None => s,
        Some(at) => {
            proof {
                crate::text::lemma_index_of_some(s, '&');
                lemma_name_end_bounds(s.skip(at + 1));
            }
            let tail = s.skip(at + 1);
            let end = name_end(tail);
            let name = tail.take(end);
            let rest = tail.skip(end);
            let after = if rest.len() > 0 && rest[0] == ';' {
                rest.drop_first()
            } else {
                rest
            };
            match entity_char(name) {
                Some(c) => s.take(at) + seq![c] + entities_of(after),
                None => s.take(at) + seq!['&'] + entities_of(tail),
            }
        },
    }
}

/// An entity's name ends within what follows the `&`.
pub proof fn lemma_name_end_bounds(tail: Seq<char>)
    ensures
        0 <= name_end(tail) <= tail.len(),
        forall|i: int| 0 <= i < name_end(tail) ==> is_ascii_alnum(#[trigger] tail[i]) || tail[i] == '#',
        name_end(tail) < tail.len() ==> !(is_ascii_alnum(tail[name_end(tail)]) || tail[name_end(tail)] == '#'),
    decreases tail.len(),
{
    if tail.len() > 0 && (is_ascii_alnum(tail[0]) || tail[0] == '#') {
        lemma_name_end_bounds(tail.drop_first());
        assert forall|i: int| 0 <= i < name_end(tail) implies is_ascii_alnum(#[trigger] tail[i]) || tail[i] == '#' by {
            if i > 0 {
                assert(tail[i] == tail.drop_first()[i - 1]);
            }
        }
    }
}

/// Once a prefix holds a non-digit, so does the whole.
pub proof fn lemma_radix_prefix(s: Seq<char>, k: int, radix: nat)
    requires
        0 <= k <= s.len(),
        radix_value(s.take(k), radix) is None,
    ensures
        radix_value(s, radix) is None,
    decreases s.len() - k,
{
    if k == s.len() {
        assert(s.take(k) =~= s);
    } else {
        assert(s.take(k + 1).drop_last() =~= s.take(k));
        lemma_radix_prefix(s, k + 1, radix);
    }
}

/// Digits in a radix, as a `u32`.
fn parse_radix_exec(s: &[char], radix: u32) -> (r: Option<u32>)
    requires
        radix == 10 || radix == 16,
    ensures
        r == parse_radix_u32(s@, radix as nat),
{
    if s.len() == 0 {
        return None;
    }
    let mut acc: u64 = 0;
    let mut over = false;
    let mut i: usize = 0;
    while i < s.len()
        invariant
            i <= s.len(),
            radix == 10 || radix == 16,
            radix_value(s@.take(i as int), radix as nat) is Some,
            !over ==> radix_value(s@.take(i as int), radix as nat) == Some(acc as nat),
            !over ==> acc <= u32::MAX,
            over ==> radix_value(s@.take(i as int), radix as nat)->0 > u32::MAX,
        decreases s.len() - i,
    {
        let c = s[i];
        proof {
            assert(s@.take(i + 1).drop_last() =~= s@.take(i as int));
            assert(s@.take(i + 1).last() == c);
        }
        let d: u64 = if '0' <= c && c <= '9' {
            (c as u64) - 48
        } else if radix == 16 && 'a' <= c && c <= 'f' {
            (c as u64) - 87
        } else if radix == 16 && 'A' <= c && c <= 'F' {
            (c as u64) - 55
        } else {
            proof {
                assert(radix_value(s@.take(i + 1), radix as nat) is None);
                lemma_radix_prefix(s@, i + 1, radix as nat);
            }
            return None;
        };
        if !over {
            acc = acc * (radix as u64) + d;
            if acc > 0xFFFF_FFFF {
                over = true;
            }
        } else {
            proof {
                let v = radix_value(s@.take(i as int), radix as nat)->0;
                assert(v * (radix as nat) + d >= v) by (nonlinear_arith)
                    requires
                        radix >= 10,
                ;
            }
        }
        i += 1;
    }
    assert(s@.take(s.len() as int) =~= s@);
    if over {
        None
    } else {
        Some(acc as u32)
    }
}

/// The character an entity's name stands for.
fn entity_char_exec(name: &[char]) -> (r: Option<char>)
    ensures
        r == entity_char(name@),
{
    if crate::text::str_is("amp", name) {
        return Some('&');
    }
    if crate::text::str_is("lt", name) {
        return Some('<');
    }
    if crate::text::str_is("gt", name) {
        return Some('>');
    }
    if crate::text::str_is("quot", name) {
        return Some('"');
    }
    if crate::text::str_is("apos", name) || crate::text::str_is("#39", name) {
        return Some('\'');
    }
    if crate::text::str_is("nbsp", name) {
        return Some(' ');
    }
    if name.len() == 0 || name[0] != '#' {
        return None;
    }
    let digits = crate::text::slice(name, 1, name.len());
    assert(digits@ =~= name@.drop_first());
    let code = if digits.len() > 0 && (digits[0] == 'x' || digits[0] == 'X') {
        let hex = crate::text::slice(&digits, 1, digits.len());
        assert(hex@ =~= digits@.drop_first());
        parse_radix_exec(&hex, 16)
    } else {
        parse_radix_exec(&digits, 10)
    };
    match code {
        Some(c) => char_from(c),
        None => None,
    }
}

/// Decode the HTML entities the storefront leaves in display names:
/// `Click &#38 Collect` is `Click & Collect`, and `R&D` stays as it is.
pub fn entities(text: &str) -> (r: String)
    ensures
        r@ == entities_of(text@),
{
    let s = chars_of(text);
    let mut out: Vec<char> = Vec::new();
    let mut pos: usize = 0;
    assert(s@.skip(0) =~= s@);
    while pos < s.len()
        invariant
            pos <= s.len(),
            s@ == text@,
            out@ + entities_of(s@.skip(pos as int)) == entities_of(text@),
        decreases s.len() - pos,
    {
        let ghost cur = s@.skip(pos as int);
        let rest = crate::text::slice(&s, pos, s.len());
        assert(rest@ =~= cur);
        match crate::text::index_of_exec(&rest, '&') {
            None => {
                crate::text::extend(&mut out, &rest);
                assert(entities_of(cur) == cur);
                assert(s@.skip(s.len() as int) =~= Seq::<char>::empty());
                assert(entities_of(Seq::<char>::empty()) =~= Seq::<char>::empty());
                pos = s.len();
            },
            Some(at) => {
                proof {
                    crate::text::lemma_index_of_some(cur, '&');
                    lemma_name_end_bounds(cur.skip(at + 1));
                }
                let before = crate::text::slice(&rest, 0, at);
                assert(before@ =~= cur.take(at as int));
                let tail_start = pos + at + 1;
                let ghost tail = cur.skip(at + 1);
                assert(s@.skip(tail_start as int) =~= tail);
                let mut end = tail_start;
                while end < s.len() && (('a' <= s[end] && s[end] <= 'z') || ('A' <= s[end] && s[end]
                    <= 'Z') || ('0' <= s[end] && s[end] <= '9') || s[end] == '#')
                    invariant
                        tail_start <= end <= s.len(),
                        tail == s@.skip(tail_start as int),
                        end - tail_start <= name_end(tail),
                        0 <= name_end(tail) <= tail.len(),
                        forall|i: int| 0 <= i < name_end(tail) ==> is_ascii_alnum(#[trigger] tail[i]) || tail[i] == '#',
                        name_end(tail) < tail.len() ==> !(is_ascii_alnum(tail[name_end(tail)]) || tail[name_end(tail)] == '#'),
                    decreases s.len() - end,
                {
                    assert(tail[end - tail_start] == s@[end as int]);
                    end += 1;
                }
                proof {
                    if end < s.len() {
                        assert(tail[end - tail_start] == s@[end as int]);
                    }
                    assert(end - tail_start == name_end(tail));
                }
                let name = crate::text::slice(&s, tail_start, end);
                assert(name@ =~= tail.take(name_end(tail)));
                crate::text::extend(&mut out, &before);
                match entity_char_exec(&name) {
                    Some(c) => {
                        out.push(c);
                        let mut after = end;
                        if end < s.len() && s[end] == ';' {
                            after = end + 1;
                        }
                        proof {
                            let rest2 = tail.skip(name_end(tail));
                            assert(rest2 =~= s@.skip(end as int));
                            if end < s.len() && s@[end as int] == ';' {
                                assert(rest2.drop_first() =~= s@.skip(after as int));
                            }
                        }
                        pos = after;
                    },
                    None => {
                        out.push('&');
                        pos = tail_start;
                    },
                }
            },
        }
    }
    assert(s@.skip(s.len() as int) =~= Seq::<char>::empty());
    assert(out@ + entities_of(Seq::<char>::empty()) =~= out@);
    string_of(&out)
}

/// The storefront's business failures: an `errors` array with a non-2xx
/// status.
#[derive(Debug)]
pub struct OccErrors {
    pub errors: Vec<OccError>,
}

#[derive(Clone, Debug)]
pub struct OccError {
    pub message: Option<String>,
    /// `type` on the wire.
    pub kind: Option<String>,
}

/// What the first business failure says: its message, else its type, else
/// that no reason was given.
pub open spec fn occ_reason(e: OccError) -> Seq<char> {
    match e.message {
        Some(m) => m@,
        None => match e.kind {
            Some(k) => k@,
            None => "no reason given"@,
        },
    }
}

/// The refusal an OCC body carries, if it decoded and names one.
pub fn occ_error(operation: &'static str, parsed: Option<OccErrors>) -> (r: Option<Error>)
    ensures
        match parsed {
            Some(p) => if p.errors@.len() > 0 {
                r matches Some(Error::Occ { operation: o, message: m }) && o == operation && m@
                    == occ_reason(p.errors@[0])
            } else {
                r is None
            },
            None => r is None,
        },
{
    let p = match parsed {
        Some(p) => p,
        None => return None,
    };
    if p.errors.len() == 0 {
        return None;
    }
    let first = &p.errors[0];
    let message = match &first.message {
        Some(m) => m.clone(),
        None => match &first.kind {
            Some(k) => k.clone(),
            None => owned("no reason given"),
        },
    };
    Some(Error::Occ { operation, message })
}

/// A member as text, however it was typed; the empty string is absent.
pub fn str_of(v: &Json, key: &str) -> (r: Option<String>)
    ensures
        opt_str(r) == text_at(*v, key@),
{
    let x = match v.get(key) {
        Some(x) => x,
        None => return None,
    };
    let raw: Vec<char> = match x {
        Json::Str(s) => chars_of(s.as_str()),
        Json::Number { text, .. } => chars_of(text.as_str()),
        Json::Bool(b) => {
            proof {
                reveal_strlit("true");
                reveal_strlit("false");
            }
            if *b {
                chars_of("true")
            } else {
                chars_of("false")
            }
        },
        _ => return None,
    };
    let t = trim_exec(&raw);
    if t.len() > 0 {
        Some(string_of(&t))
    } else {
        None
    }
}

/// The first of several names that reads as text.
pub fn any_str(v: &Json, keys: &[&str]) -> (r: Option<String>)
    ensures
        opt_str(r) == first_text_at(*v, str_views(keys@)),
{
    let ghost ks = str_views(keys@);
    assert(ks.skip(0) =~= ks);
    let mut i: usize = 0;
    while i < keys.len()
        invariant
            i <= keys.len(),
            ks == str_views(keys@),
            first_text_at(*v, ks) == first_text_at(*v, ks.skip(i as int)),
        decreases keys.len() - i,
    {
        let t = str_of(v, keys[i]);
        proof {
            assert(ks.skip(i as int)[0] == keys@[i as int]@);
            assert(ks.skip(i as int).drop_first() =~= ks.skip(i + 1));
        }
        if t.is_some() {
            return t;
        }
        i += 1;
    }
    None
}

/// A member as a truth value, where it reads as one.
pub fn bool_of(v: &Json, key: &str) -> (r: Option<bool>)
    ensures
        r == truth_at(*v, key@),
{
    match v.get(key) {
        Some(Json::Bool(b)) => Some(*b),
        Some(Json::Number { zero, .. }) => Some(!*zero),
        Some(Json::Str(s)) => {
            let cs = chars_of(s.as_str());
            let t = trim_exec(&cs);
            let k = to_lower(&t);
            proof {
                reveal_strlit("true");
                reveal_strlit("yes");
                reveal_strlit("1");
                reveal_strlit("false");
                reveal_strlit("no");
                reveal_strlit("0");
            }
            let kt = string_of(&k);
            if eq_str(kt.as_str(), "true") || eq_str(kt.as_str(), "yes") || eq_str(kt.as_str(), "1") {
                Some(true)
            } else if eq_str(kt.as_str(), "false") || eq_str(kt.as_str(), "no") || eq_str(
                kt.as_str(),
                "0",
            ) {
                Some(false)
            } else {
                None
            }
        },
        _ => None,
    }
}


/// The phrases the query-suggestions index answered, from its first result's
/// hits: each hit's `query`, else its `objectID`.
pub open spec fn suggestion_list(hits: Seq<Json>) -> Seq<Seq<char>>
    decreases hits.len(),
{
    if hits.len() == 0 {
        Seq::empty()
    } else {
        let rest = suggestion_list(hits.drop_last());
        match first_text_at(hits.last(), seq!["query"@, "objectID"@]) {
            Some(t) => rest.push(t),
            None => rest,
        }
    }
}

/// The first result's hits of a multi-query answer.
pub open spec fn first_hits(body: Json) -> Seq<Json> {
    match field(body, "results"@) {
        Some(Json::Array(rs)) => if rs@.len() > 0 {
            match field(rs@[0], "hits"@) {
                Some(Json::Array(hits)) => hits@,
                _ => Seq::empty(),
            }
        } else {
            Seq::empty()
        },
        _ => Seq::empty(),
    }
}

/// The first result's hits of a multi-query answer.
fn hits_of(body: &Json) -> (r: Option<&Vec<Json>>)
    ensures
        match r {
            Some(h) => first_hits(*body) == h@,
            None => first_hits(*body) == Seq::<Json>::empty(),
        },
{
    let results = match body.get("results") {
        Some(Json::Array(rs)) => rs,
        _ => return None,
    };
    if results.len() == 0 {
        return None;
    }
    match results[0].get("hits") {
        Some(Json::Array(hits)) => Some(hits),
        _ => None,
    }
}

/// The query-suggestions index, which keys its documents by the phrase.
pub fn suggestions(body: &Json) -> (r: Vec<String>)
    ensures
        strs(r@) == suggestion_list(first_hits(*body)),
{
    let mut out: Vec<String> = Vec::new();
    let hits = match hits_of(body) {
        Some(h) => h,
        None => {
            assert(strs(out@) =~= Seq::<Seq<char>>::empty());
            return out;
        },
    };
    let keys: [&str; 2] = ["query", "objectID"];
    proof {
        reveal_strlit("query");
        reveal_strlit("objectID");
        assert(str_views(keys@) =~= seq!["query"@, "objectID"@]);
    }
    let mut i: usize = 0;
    assert(strs(out@) =~= suggestion_list(hits@.take(0)));
    while i < hits.len()
        invariant
            i <= hits.len(),
            str_views(keys@) == seq!["query"@, "objectID"@],
            strs(out@) == suggestion_list(hits@.take(i as int)),
        decreases hits.len() - i,
    {
        assert(hits@.take(i + 1).drop_last() =~= hits@.take(i as int));
        assert(hits@.take(i + 1).last() == hits@[i as int]);
        match any_str(&hits[i], &keys) {
            Some(t) => {
                let ghost before = out@;
                out.push(t);
                assert(strs(out@) =~= strs(before).push(t@));
            },
            None => {},
        }
        i += 1;
    }
    assert(hits@.take(hits.len() as int) =~= hits@);
    out
}

/// One stock row: a store code, its display name (blank where missing) and
/// the level its word reads as ([`StockLevel::Unknown`] where missing). A row
/// with no store code is not a row.
pub open spec fn stock_row(e: Json) -> Option<(Seq<char>, Seq<char>, StockLevel)> {
    match text_at(e, "storeCode"@) {
        Some(store) => Some(
            (
                store,
                match text_at(e, "storeDisplayName"@) {
                    Some(n) => n,
                    None => Seq::empty(),
                },
                match text_at(e, "stockIndicator"@) {
                    Some(s) => stock_level_of(s),
                    None => StockLevel::Unknown,
                },
            ),
        ),
        None => None,
    }
}

/// The stock rows of a list of entries, in order.
pub open spec fn stock_rows(es: Seq<Json>) -> Seq<(Seq<char>, Seq<char>, StockLevel)>
    decreases es.len(),
{
    if es.len() == 0 {
        Seq::empty()
    } else {
        let rest = stock_rows(es.drop_last());
        match stock_row(es.last()) {
            Some(row) => rest.push(row),
            None => rest,
        }
    }
}

/// The stock rows a stock answer carries.
pub open spec fn stock_of(v: Json) -> Seq<(Seq<char>, Seq<char>, StockLevel)> {
    match field(v, "stockIndicator"@) {
        Some(Json::Array(es)) => stock_rows(es@),
        _ => Seq::empty(),
    }
}

/// Stock rows by their characters.
pub open spec fn stock_view(s: Seq<Stock>) -> Seq<(Seq<char>, Seq<char>, StockLevel)> {
    s.map_values(|x: Stock| (x.store@, x.store_name@, x.level))
}

/// Stock for one product at every store, in one call.
pub fn stock(v: &Json) -> (r: Vec<Stock>)
    ensures
        stock_view(r@) == stock_of(*v),
{
    let mut out: Vec<Stock> = Vec::new();
    let es = match v.get("stockIndicator") {
        Some(Json::Array(es)) => es,
        _ => {
            assert(stock_view(out@) =~= Seq::<(Seq<char>, Seq<char>, StockLevel)>::empty());
            return out;
        },
    };
    let mut i: usize = 0;
    assert(stock_view(out@) =~= stock_rows(es@.take(0)));
    while i < es.len()
        invariant
            i <= es.len(),
            stock_view(out@) == stock_rows(es@.take(i as int)),
        decreases es.len() - i,
    {
        assert(es@.take(i + 1).drop_last() =~= es@.take(i as int));
        assert(es@.take(i + 1).last() == es@[i as int]);
        let e = &es[i];
        match str_of(e, "storeCode") {
            Some(store) => {
                let store_name = match str_of(e, "storeDisplayName") {
                    Some(n) => n,
                    None => String::new(),
                };
                let level = match str_of(e, "stockIndicator") {
                    Some(s) => StockLevel::parse(s.as_str()),
                    None => StockLevel::Unknown,
                };
                let row = Stock { store, store_name, level };
                let ghost before = out@;
                out.push(row);
                assert(stock_view(out@) =~= stock_view(before).push(
                    (row.store@, row.store_name@, row.level),
                ));
            },
            None => {},
        }
        i += 1;
    }
    assert(es@.take(es.len() as int) =~= es@);
    out
}

/// An address by its characters: two lines, suburb, town, postcode and the
/// formatted form.
pub open spec fn address_view(a: Address) -> (
    Option<Seq<char>>,
    Option<Seq<char>>,
    Option<Seq<char>>,
    Option<Seq<char>>,
    Option<Seq<char>>,
    Option<Seq<char>>,
) {
    (
        opt_str(a.line1),
        opt_str(a.line2),
        opt_str(a.suburb),
        opt_str(a.town),
        opt_str(a.postcode),
        opt_str(a.formatted),
    )
}

/// The first of two that is present.
pub open spec fn either(a: Option<Seq<char>>, b: Option<Seq<char>>) -> Option<Seq<char>> {
    match a {
        Some(x) => Some(x),
        None => b,
    }
}

/// What an address record reads as. The suburb is `town` where there is one
/// (else `district`), and the town is `city` (else `town`): the storefront's
/// names are a level off.
pub open spec fn address_of(v: Json) -> (
    Option<Seq<char>>,
    Option<Seq<char>>,
    Option<Seq<char>>,
    Option<Seq<char>>,
    Option<Seq<char>>,
    Option<Seq<char>>,
) {
    (
        text_at(v, "line1"@),
        text_at(v, "line2"@),
        either(text_at(v, "town"@), text_at(v, "district"@)),
        either(text_at(v, "city"@), text_at(v, "town"@)),
        text_at(v, "postalCode"@),
        first_text_at(v, seq!["formattedAddress"@, "nzPostalAddress"@]),
    )
}

/// The first of two optional strings that is present.
fn or_else(a: Option<String>, b: Option<String>) -> (r: Option<String>)
    ensures
        opt_str(r) == either(opt_str(a), opt_str(b)),
{
    match a {
        Some(x) => Some(x),
        None => b,
    }
}

/// An address record.
pub fn address(v: &Json) -> (r: Address)
    ensures
        address_view(r) == address_of(*v),
{
    let keys: [&str; 2] = ["formattedAddress", "nzPostalAddress"];
    proof {
        reveal_strlit("formattedAddress");
        reveal_strlit("nzPostalAddress");
        assert(str_views(keys@) =~= seq!["formattedAddress"@, "nzPostalAddress"@]);
    }
    Address {
        line1: str_of(v, "line1"),
        line2: str_of(v, "line2"),
        suburb: or_else(str_of(v, "town"), str_of(v, "district")),
        town: or_else(str_of(v, "city"), str_of(v, "town")),
        postcode: str_of(v, "postalCode"),
        formatted: any_str(v, &keys),
    }
}

/// The records of an array member, each read as an address.
fn addresses(v: &Json, key: &str) -> (r: Vec<Address>)
    ensures
        match field(*v, key@) {
            Some(Json::Array(items)) => r@.len() == items@.len() && forall|i: int|
                0 <= i < items@.len() ==> #[trigger] address_view(r@[i]) == address_of(items@[i]),
            _ => r@.len() == 0,
        },
{
    let mut out: Vec<Address> = Vec::new();
    let items = match v.get(key) {
        Some(Json::Array(items)) => items,
        _ => return out,
    };
    let mut i: usize = 0;
    while i < items.len()
        invariant
            i <= items.len(),
            out@.len() == i,
            forall|j: int| 0 <= j < i ==> #[trigger] address_view(out@[j]) == address_of(items@[j]),
        decreases items.len() - i,
    {
        let a = address(&items[i]);
        out.push(a);
        i += 1;
    }
    out
}

/// The email a customer record carries: the first of `uid`, `displayUid`
/// and `email` that is present, kept only when it looks like an address.
pub open spec fn email_of(v: Json) -> Option<Seq<char>> {
    match first_text_at(v, seq!["uid"@, "displayUid"@, "email"@]) {
        Some(e) => if has_char(e, '@') {
            Some(e)
        } else {
            None
        },
        None => None,
    }
}

/// The signed-in customer.
pub fn customer(v: &Json) -> (r: Customer)
    ensures
        opt_str(r.uid) == text_at(*v, "uid"@),
        opt_str(r.name) == text_at(*v, "name"@),
        opt_str(r.first_name) == text_at(*v, "firstName"@),
        opt_str(r.last_name) == text_at(*v, "lastName"@),
        opt_str(r.email) == email_of(*v),
        match field(*v, "addresses"@) {
            Some(Json::Array(items)) => r.addresses@.len() == items@.len() && forall|i: int|
                0 <= i < items@.len() ==> #[trigger] address_view(r.addresses@[i]) == address_of(
                    items@[i],
                ),
            _ => r.addresses@.len() == 0,
        },
{
    let keys: [&str; 3] = ["uid", "displayUid", "email"];
    proof {
        reveal_strlit("uid");
        reveal_strlit("displayUid");
        reveal_strlit("email");
        assert(str_views(keys@) =~= seq!["uid"@, "displayUid"@, "email"@]);
    }
    let email = match any_str(v, &keys) {
        Some(e) => {
            let cs = chars_of(e.as_str());
            if has_char_exec(&cs, '@') {
                Some(e)
            } else {
                None
            }
        },
        None => None,
    };
    Customer {
        uid: str_of(v, "uid"),
        name: str_of(v, "name"),
        first_name: str_of(v, "firstName"),
        last_name: str_of(v, "lastName"),
        email,
        addresses: addresses(v, "addresses"),
    }
}

/// The names of the records in an array member that have one, in order.
pub open spec fn names_in(items: Seq<Json>) -> Seq<Seq<char>>
    decreases items.len(),
{
    if items.len() == 0 {
        Seq::empty()
    } else {
        let rest = names_in(items.drop_last());
        match text_at(items.last(), "name"@) {
            Some(n) => rest.push(n),
            None => rest,
        }
    }
}

/// The breadcrumb names of a category record.
pub open spec fn breadcrumbs_of(v: Json) -> Seq<Seq<char>> {
    match field(v, "breadcrumbs"@) {
        Some(Json::Array(items)) => names_in(items@),
        _ => Seq::empty(),
    }
}

/// The refusal for a category answer with no code.
pub open spec fn no_code_message() -> Seq<char> {
    "the category answer carried no code"@
}

/// One category, as `/categories/{code}` returns it; a record with no code
/// is a shape error.
pub fn category(v: &Json) -> (r: Result<Category, Error>)
    ensures
        text_at(*v, "code"@) is None ==> (r matches Err(Error::Shape(m)) && m@ == no_code_message()),
        text_at(*v, "code"@) matches Some(code) ==> (r matches Ok(c) && c.code@ == code && c.name@
            == match text_at(*v, "name"@) {
            Some(n) => n,
            None => Seq::empty(),
        } && opt_str(c.url) == text_at(*v, "url"@) && opt_str(c.meta_title) == text_at(
            *v,
            "metaTitle"@,
        ) && opt_str(c.meta_description) == text_at(*v, "metaDescription"@) && strs(
            c.breadcrumbs@,
        ) == breadcrumbs_of(*v)),
{
    let code = match str_of(v, "code") {
        Some(c) => c,
        None => return Err(Error::Shape(owned("the category answer carried no code"))),
    };
    let mut breadcrumbs: Vec<String> = Vec::new();
    match v.get("breadcrumbs") {
        Some(Json::Array(items)) => {
            let mut i: usize = 0;
            assert(strs(breadcrumbs@) =~= names_in(items@.take(0)));
            while i < items.len()
                invariant
                    i <= items.len(),
                    strs(breadcrumbs@) == names_in(items@.take(i as int)),
                decreases items.len() - i,
            {
                assert(items@.take(i + 1).drop_last() =~= items@.take(i as int));
                assert(items@.take(i + 1).last() == items@[i as int]);
                match str_of(&items[i], "name") {
                    Some(n) => {
                        let ghost before = breadcrumbs@;
                        breadcrumbs.push(n);
                        assert(strs(breadcrumbs@) =~= strs(before).push(n@));
                    },
                    None => {},
                }
                i += 1;
            }
            assert(items@.take(items.len() as int) =~= items@);
        },
        _ => {
            assert(strs(breadcrumbs@) =~= Seq::<Seq<char>>::empty());
        },
    }
    let name = match str_of(v, "name") {
        Some(n) => n,
        None => String::new(),
    };
    Ok(
        Category {
            code,
            name,
            url: str_of(v, "url"),
            meta_title: str_of(v, "metaTitle"),
            meta_description: str_of(v, "metaDescription"),
            breadcrumbs,
        },
    )
}

/// What a cart change says when the storefront did not do it in full: its
/// `errorMessage`, trimmed and with entities decoded, where it carries one
/// that is not blank.
pub fn cart_notice(v: &Json) -> (r: Option<String>)
    ensures
        match text_at(*v, "errorMessage"@) {
            Some(m) => r matches Some(s) && s@ == entities_of(m),
            None => r is None,
        },
{
    let message = match str_of(v, "errorMessage") {
        Some(m) => m,
        None => return None,
    };
    Some(entities(message.as_str()))
}


/// A code as an array item carries it: a number as it prints, or a string.
pub open spec fn code_item(i: Json) -> Option<Seq<char>> {
    match i {
        Json::Number { text, .. } => Some(text@),
        Json::Str(s) => Some(s@),
        _ => None,
    }
}

/// The codes among a list of items, in order.
pub open spec fn code_items(items: Seq<Json>) -> Seq<Seq<char>>
    decreases items.len(),
{
    if items.len() == 0 {
        Seq::empty()
    } else {
        let rest = code_items(items.drop_last());
        match code_item(items.last()) {
            Some(c) => rest.push(c),
            None => rest,
        }
    }
}

/// The codes an array member carries.
pub open spec fn codes_at(v: Json, key: Seq<char>) -> Seq<Seq<char>> {
    match field(v, key) {
        Some(Json::Array(items)) => code_items(items@),
        _ => Seq::empty(),
    }
}

/// An array of codes, which the index sends as numbers.
pub fn codes(v: &Json, key: &str) -> (r: Vec<String>)
    ensures
        strs(r@) == codes_at(*v, key@),
{
    let mut out: Vec<String> = Vec::new();
    let items = match v.get(key) {
        Some(Json::Array(items)) => items,
        _ => {
            assert(strs(out@) =~= Seq::<Seq<char>>::empty());
            return out;
        },
    };
    let mut i: usize = 0;
    assert(strs(out@) =~= code_items(items@.take(0)));
    while i < items.len()
        invariant
            i <= items.len(),
            strs(out@) == code_items(items@.take(i as int)),
        decreases items.len() - i,
    {
        assert(items@.take(i + 1).drop_last() =~= items@.take(i as int));
        assert(items@.take(i + 1).last() == items@[i as int]);
        let c = match &items[i] {
            Json::Number { text, .. } => Some(text.clone()),
            Json::Str(s) => Some(s.clone()),
            _ => None,
        };
        match c {
            Some(c) => {
                let ghost before = out@;
                out.push(c);
                assert(strs(out@) =~= strs(before).push(c@));
            },
            None => {},
        }
        i += 1;
    }
    assert(items@.take(items.len() as int) =~= items@);
    out
}

/// A promotion label by its characters: badge, offer, start, end and text.
pub open spec fn promotion_view(p: Promotion) -> (
    Option<Seq<char>>,
    Option<Seq<char>>,
    Option<Seq<char>>,
    Option<Seq<char>>,
    Option<Seq<char>>,
) {
    (opt_str(p.badge), opt_str(p.offer_id), opt_str(p.starts), opt_str(p.ends), opt_str(p.text))
}

/// What one price label reads as.
pub open spec fn promotion_of(l: Json) -> (
    Option<Seq<char>>,
    Option<Seq<char>>,
    Option<Seq<char>>,
    Option<Seq<char>>,
    Option<Seq<char>>,
) {
    (
        text_at(l, "priceBadge"@),
        text_at(l, "offerId"@),
        text_at(l, "startDate"@),
        text_at(l, "endDate"@),
        text_at(l, "tickerTapeText"@),
    )
}

/// The promotions a hit's prices carry, one per label, in order.
pub fn promotions(prices: &Json) -> (r: Vec<Promotion>)
    ensures
        match field(*prices, "labels"@) {
            Some(Json::Array(labels)) => r@.len() == labels@.len() && forall|i: int|
                0 <= i < labels@.len() ==> #[trigger] promotion_view(r@[i]) == promotion_of(
                    labels@[i],
                ),
            _ => r@.len() == 0,
        },
{
    let mut out: Vec<Promotion> = Vec::new();
    let labels = match prices.get("labels") {
        Some(Json::Array(labels)) => labels,
        _ => return out,
    };
    let mut i: usize = 0;
    while i < labels.len()
        invariant
            i <= labels.len(),
            out@.len() == i,
            forall|j: int| 0 <= j < i ==> #[trigger] promotion_view(out@[j]) == promotion_of(labels@[j]),
        decreases labels.len() - i,
    {
        let l = &labels[i];
        let p = Promotion {
            badge: str_of(l, "priceBadge"),
            offer_id: str_of(l, "offerId"),
            starts: str_of(l, "startDate"),
            ends: str_of(l, "endDate"),
            text: str_of(l, "tickerTapeText"),
        };
        out.push(p);
        i += 1;
    }
    out
}

/// The first of two names that reads as text.
pub(crate) fn first_of2(v: &Json, a: &str, b: &str) -> (r: Option<String>)
    ensures
        opt_str(r) == first_text_at(*v, seq![a@, b@]),
{
    let keys: [&str; 2] = [a, b];
    assert(str_views(keys@) =~= seq![a@, b@]);
    any_str(v, &keys)
}

/// The first of three names that reads as text.
pub(crate) fn first_of3(v: &Json, a: &str, b: &str, c: &str) -> (r: Option<String>)
    ensures
        opt_str(r) == first_text_at(*v, seq![a@, b@, c@]),
{
    let keys: [&str; 3] = [a, b, c];
    assert(str_views(keys@) =~= seq![a@, b@, c@]);
    any_str(v, &keys)
}

/// The items of an array member; none where it is not an array.
pub open spec fn items_at(v: Json, key: Seq<char>) -> Seq<Json> {
    match field(v, key) {
        Some(Json::Array(items)) => items@,
        _ => Seq::empty(),
    }
}

/// The items of an array member.
pub(crate) fn items_of<'a>(v: &'a Json, key: &str) -> (r: Option<&'a Vec<Json>>)
    ensures
        match r {
            Some(items) => items@ == items_at(*v, key@),
            None => items_at(*v, key@) == Seq::<Json>::empty(),
        },
{
    match v.get(key) {
        Some(Json::Array(items)) => Some(items),
        _ => None,
    }
}

/// The refusal for a configuration answer with no value.
pub open spec fn no_config_value() -> Seq<char> {
    ALGOLIA_CONFIG_KEY@ + " carried no value"@
}

/// The refusal for a configuration that names no Algolia application.
pub open spec fn no_algolia() -> Seq<char> {
    ALGOLIA_CONFIG_KEY@ + " named no Algolia application"@
}

/// The configuration text `/config/key` answers with: its `value`, which is
/// itself JSON to be decoded again. An answer without one is a shape error.
pub fn config_value(v: &Json) -> (r: Result<String, Error>)
    ensures
        match text_at(*v, "value"@) {
            Some(t) => r matches Ok(s) && s@ == t,
            None => r matches Err(Error::Shape(m)) && m@ == no_config_value(),
        },
{
    match str_of(v, "value") {
        Some(t) => Ok(t),
        None => {
            let mut m = chars_of(ALGOLIA_CONFIG_KEY);
            crate::text::extend_str(&mut m, " carried no value");
            Err(Error::Shape(string_of(&m)))
        },
    }
}

/// The Algolia application a decoded configuration names: its `appId` and
/// `searchApiKey`. The same configuration carries index names and page sizes
/// that are not read, so one changing costs nothing; a configuration missing
/// either of the two is a shape error.
pub fn algolia_from(config: &Json) -> (r: Result<Algolia, Error>)
    ensures
        match (text_at(*config, "appId"@), text_at(*config, "searchApiKey"@)) {
            (Some(a), Some(k)) => r matches Ok(x) && x.app_id@ == a && x.search_key@ == k,
            _ => r matches Err(Error::Shape(m)) && m@ == no_algolia(),
        },
{
    match (str_of(config, "appId"), str_of(config, "searchApiKey")) {
        (Some(app_id), Some(search_key)) => Ok(Algolia::new(app_id.as_str(), search_key.as_str())),
        _ => {
            let mut m = chars_of(ALGOLIA_CONFIG_KEY);
            crate::text::extend_str(&mut m, " named no Algolia application");
            Err(Error::Shape(string_of(&m)))
        },
    }
}

} // verus!
