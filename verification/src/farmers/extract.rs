//! Reading who is signed in out of the account header fragment.
//!
//! The header is a fragment of markup with the sign-in state in a class name
//! and the shopper in an inline tracking script:
//! `DDTrackingEvents.identityUserEvent('shopper@example.invalid','Ada','Lovelace')`.
//! The script's arguments are read by hand: three quoted arguments on one call.

use vstd::prelude::*;
use crate::farmers::auth::{document_texts, first_nonblank, texts, tidied, tidy};
use crate::farmers::domain::{
    Account, Cart, CartLine, Order, Store, StoreStock, VariationValue, Wishlist, WishlistItem,
    option_views,
};
use crate::text::{
    all_digits, chars_of, contains, contains_exec, eq_ignore_case, find_from, first_from, index_of,
    index_of_exec, is_ascii_alnum, is_ascii_digit, is_whitespace, is_whitespace_exec, lowered,
    occurs_at, occurs_from, opt_str, owned, parse_i64, parse_i64_exec, same_ignore_case, slice,
    split, split_exec, str_views, string_of, strs, to_lowercase_str, trim, trim_end_char,
    trim_end_char_exec, trim_exec, trim_start_char, trim_start_char_exec, views,
};
use vstd::utf8::encode_utf8;

verus! {

/// The class the header's user icon carries when someone is signed in.
pub const SIGNED_IN: &'static str = "my-account-logged-in";

/// The call whose arguments name the shopper.
pub const IDENTITY_CALL: &'static str = "identityUserEvent(";

/// Where `p` first occurs in `s`, if it does.
pub open spec fn first_index(s: Seq<char>, p: Seq<char>) -> Option<int> {
    if occurs_from(s, p, 0) {
        Some(choose|i: int| first_from(s, p, 0, i))
    } else {
        None
    }
}

/// A first occurrence is unique.
pub proof fn lemma_first_unique(s: Seq<char>, p: Seq<char>, i: int, j: int)
    requires
        first_from(s, p, 0, i),
        first_from(s, p, 0, j),
    ensures
        i == j,
{
    if i < j {
        assert(!occurs_at(s, p, i));
    } else if j < i {
        assert(!occurs_at(s, p, j));
    }
}

/// One argument as written: whitespace, then quotes of either kind, then
/// whitespace again, taken off both ends.
pub open spec fn unquoted(arg: Seq<char>) -> Seq<char> {
    let a = trim(arg);
    let b = trim_end_char(trim_start_char(a, '\''), '\'');
    let c = trim_end_char(trim_start_char(b, '"'), '"');
    trim(c)
}

/// An argument, or nothing when it is empty.
pub open spec fn present(arg: Seq<char>) -> Option<Seq<char>> {
    let a = unquoted(arg);
    if a.len() > 0 {
        Some(a)
    } else {
        None
    }
}

/// The `n`th argument, when there is one and it is not empty.
pub open spec fn argument(args: Seq<Seq<char>>, n: int) -> Option<Seq<char>> {
    if n < args.len() {
        present(args[n])
    } else {
        None
    }
}

/// The email, first name and last name the identity call carries.
pub open spec fn identity_of(h: Seq<char>) -> Option<
    (Option<Seq<char>>, Option<Seq<char>>, Option<Seq<char>>),
> {
    match first_index(h, IDENTITY_CALL@) {
        None => None,
        Some(s) => {
            let rest = h.skip(s + IDENTITY_CALL@.len());
            match index_of(rest, ')') {
                None => None,
                Some(end) => {
                    let args = split(rest.take(end), ',');
                    Some((argument(args, 0), argument(args, 1), argument(args, 2)))
                },
            }
        },
    }
}

/// One argument, cleaned.
fn clean(arg: &Vec<char>) -> (r: Option<String>)
    ensures
        match r {
            Some(s) => present(arg@) == Some(s@),
            None => present(arg@) is None,
        },
{
    let a = trim_exec(arg);
    let b1 = trim_start_char_exec(&a, '\'');
    let b = trim_end_char_exec(&b1, '\'');
    let c1 = trim_start_char_exec(&b, '"');
    let c = trim_end_char_exec(&c1, '"');
    let d = trim_exec(&c);
    if d.len() > 0 {
        Some(string_of(&d))
    } else {
        None
    }
}

/// The `n`th argument, cleaned.
fn nth_argument(args: &Vec<Vec<char>>, n: usize) -> (r: Option<String>)
    ensures
        match r {
            Some(s) => argument(views(args@), n as int) == Some(s@),
            None => argument(views(args@), n as int) is None,
        },
{
    if n < args.len() {
        proof {
            assert(views(args@)[n as int] == args@[n as int]@);
        }
        clean(&args[n])
    } else {
        None
    }
}

/// Who the identity call in a header names.
fn identity(html: &[char]) -> (r: Option<(Option<String>, Option<String>, Option<String>)>)
    ensures
        match r {
            Some(t) => identity_of(html@) == Some((opt_view(t.0), opt_view(t.1), opt_view(t.2))),
            None => identity_of(html@) is None,
        },
{
    let marker = chars_of(IDENTITY_CALL);
    let s = match find_from(html, &marker, 0) {
        Some(s) => s,
        None => return None,
    };
    proof {
        let c = choose|i: int| first_from(html@, marker@, 0, i);
        lemma_first_unique(html@, marker@, s as int, c);
    }
    assert(occurs_at(html@, marker@, s as int));
    assert(s + marker@.len() <= html@.len());
    assert(marker.len() == marker@.len());
    assert(html@.len() == html.len());
    let start = s + marker.len();
    let rest = slice(html, start, html.len());
    assert(rest@ =~= html@.skip(start as int));
    let end = match index_of_exec(&rest, ')') {
        Some(e) => e,
        None => return None,
    };
    proof {
        crate::text::lemma_index_of_some(rest@, ')');
    }
    let inside = slice(&rest, 0, end);
    assert(inside@ =~= rest@.take(end as int));
    let args = split_exec(&inside, ',');
    let email = nth_argument(&args, 0);
    let first = nth_argument(&args, 1);
    let last = nth_argument(&args, 2);
    Some((email, first, last))
}

/// An optional string's characters.
pub open spec fn opt_view(o: Option<String>) -> Option<Seq<char>> {
    match o {
        Some(s) => Some(s@),
        None => None,
    }
}

/// Who the account header says is signed in.
///
/// The name and email are taken only when the header agrees someone is
/// signed in: a cached fragment can carry the previous shopper's script, and
/// a name beside "signed out" reads as a bug.
pub fn account(html: &str) -> (a: Account)
    ensures
        a.signed_in == contains(html@, SIGNED_IN@),
        a.signed_in ==> (identity_of(html@) matches Some(t) ==> opt_view(a.email) == t.0
            && opt_view(a.first_name) == t.1 && opt_view(a.last_name) == t.2),
        !(a.signed_in && identity_of(html@) is Some) ==> a.email is None && a.first_name is None
            && a.last_name is None,
{
    let h = chars_of(html);
    let marker = chars_of(SIGNED_IN);
    let signed_in = contains_exec(&h, &marker);
    if !signed_in {
        return Account { signed_in, email: None, first_name: None, last_name: None };
    }
    match identity(&h) {
        Some((email, first_name, last_name)) => Account { signed_in, email, first_name, last_name },
        None => Account { signed_in, email: None, first_name: None, last_name: None },
    }
}


/// For each element an outer selector matches in an HTML fragment, and for
/// each of a list of inner selectors, the text of every element within it
/// that the inner one matches.
pub uninterp spec fn fragment_texts_of(html: Seq<char>, outer: Seq<char>, inner: Seq<Seq<char>>) -> Seq<
    Seq<Seq<Seq<char>>>,
>;

/// For each element an outer selector matches in an HTML fragment, for each
/// element within it a middle selector matches, and for each of a list of
/// inner selectors, the text of every element within that the inner one
/// matches.
pub uninterp spec fn fragment_rows_of(
    html: Seq<char>,
    outer: Seq<char>,
    middle: Seq<char>,
    inner: Seq<Seq<char>>,
) -> Seq<Seq<Seq<Seq<Seq<char>>>>>;

/// Texts by their characters, two levels down.
pub open spec fn texts2(v: Seq<Vec<String>>) -> Seq<Seq<Seq<char>>> {
    v.map_values(|x: Vec<String>| strs(x@))
}

/// Texts by their characters, three levels down.
pub open spec fn texts3(v: Seq<Vec<Vec<String>>>) -> Seq<Seq<Seq<Seq<char>>>> {
    v.map_values(|x: Vec<Vec<String>>| texts2(x@))
}

/// Texts by their characters, four levels down.
pub open spec fn texts4(v: Seq<Vec<Vec<Vec<String>>>>) -> Seq<Seq<Seq<Seq<Seq<char>>>>> {
    v.map_values(|x: Vec<Vec<Vec<String>>>| texts3(x@))
}

/// Reads texts out of an HTML fragment, element by element.
///
/// Parses the text with `scraper::Html::parse_fragment`, compiles each
/// selector with `scraper::Selector::parse` (an invalid one matches
/// nothing), and for each match of the outer selector and each inner
/// selector concatenates `ElementRef::text` of each match within it. The
/// result is named [`fragment_texts_of`] of the three arguments.
#[verifier::external_body]
fn fragment_texts(html: &str, outer: &str, inner: &[&str]) -> (r: Vec<Vec<Vec<String>>>)
    ensures
        texts3(r@) == fragment_texts_of(html@, outer@, str_views(inner@)),
{
    let doc = scraper::Html::parse_fragment(html);
    let Ok(o) = scraper::Selector::parse(outer) else { return Vec::new() };
    let sels: Vec<Option<scraper::Selector>> = inner.iter().map(|s| scraper::Selector::parse(s).ok()).collect();
    doc.select(&o).map(|e| sels.iter().map(|s| match s {
        Some(s) => e.select(s).map(|x| x.text().collect::<String>()).collect(),
        None => Vec::new(),
    }).collect()).collect()
}

/// Reads texts out of an HTML fragment, row by row within each element.
///
/// As [`fragment_texts`], with a middle selector between the outer and the
/// inner ones. The result is named [`fragment_rows_of`] of the four
/// arguments.
#[verifier::external_body]
fn fragment_rows(html: &str, outer: &str, middle: &str, inner: &[&str]) -> (r: Vec<Vec<Vec<Vec<String>>>>)
    ensures
        texts4(r@) == fragment_rows_of(html@, outer@, middle@, str_views(inner@)),
{
    let doc = scraper::Html::parse_fragment(html);
    let (Ok(o), Ok(m)) = (scraper::Selector::parse(outer), scraper::Selector::parse(middle)) else { return Vec::new() };
    let sels: Vec<Option<scraper::Selector>> = inner.iter().map(|s| scraper::Selector::parse(s).ok()).collect();
    doc.select(&o).map(|e| e.select(&m).map(|row| sels.iter().map(|s| match s {
        Some(s) => row.select(s).map(|x| x.text().collect::<String>()).collect(),
        None => Vec::new(),
    }).collect()).collect()).collect()
}

/// The selectors a store heading is read with: its name and its verdict.
pub const HEADING: &'static str = "div.panel-heading";

/// The selectors a store's detail panel is read with.
pub const PANEL: &'static str = "div.panel-collapse";

/// One row of opening times.
pub const HOUR_ROW: &'static str = ".store-hour-row";

/// The `k`th list of an element's texts, or nothing where there is none.
pub open spec fn texts_at(e: Seq<Seq<Seq<char>>>, k: int) -> Seq<Seq<char>> {
    if 0 <= k < e.len() {
        e[k]
    } else {
        Seq::empty()
    }
}

/// The opening times of a panel's rows: each row's first day and first
/// time, trimmed, where both have any text.
pub open spec fn hours_of(rows: Seq<Seq<Seq<Seq<char>>>>) -> Seq<(Seq<char>, Seq<char>)>
    decreases rows.len(),
{
    if rows.len() == 0 {
        Seq::empty()
    } else {
        let rest = hours_of(rows.drop_last());
        let days = texts_at(rows.last(), 0);
        let times = texts_at(rows.last(), 1);
        if days.len() > 0 && times.len() > 0 && trim(days[0]).len() > 0 && trim(times[0]).len() > 0 {
            rest.push((trim(days[0]), trim(times[0])))
        } else {
            rest
        }
    }
}

/// A store's stock by its characters: name, address, phone, hours and
/// verdict.
pub type StockView = (Seq<char>, Option<Seq<char>>, Option<Seq<char>>, Seq<(Seq<char>, Seq<char>)>, Seq<char>);

/// A store's stock by its characters.
pub open spec fn stock_view(s: StoreStock) -> StockView {
    (
        s.store.name@,
        opt_str(s.store.address),
        opt_str(s.store.phone),
        s.store.hours@.map_values(|h: (String, String)| (h.0@, h.1@)),
        s.status@,
    )
}

/// The stores of the first `n` headings, each paired with the detail panel
/// in the same position: a heading with no name is not a store, a missing
/// verdict is blank, and a missing panel leaves no address, phone or hours.
pub open spec fn stocks_of(
    headings: Seq<Seq<Seq<Seq<char>>>>,
    panels: Seq<Seq<Seq<Seq<char>>>>,
    rows: Seq<Seq<Seq<Seq<Seq<char>>>>>,
    n: int,
) -> Seq<StockView>
    decreases n,
{
    if n <= 0 {
        Seq::empty()
    } else {
        let rest = stocks_of(headings, panels, rows, n - 1);
        let i = n - 1;
        match first_nonblank(texts_at(headings[i], 0)) {
            Some(name) => rest.push(
                (
                    name,
                    if i < panels.len() {
                        match first_nonblank(texts_at(panels[i], 0)) {
                            Some(a) => Some(tidied(a)),
                            None => None,
                        }
                    } else {
                        None
                    },
                    if i < panels.len() {
                        first_nonblank(texts_at(panels[i], 1))
                    } else {
                        None
                    },
                    if i < rows.len() {
                        hours_of(rows[i])
                    } else {
                        Seq::empty()
                    },
                    match first_nonblank(texts_at(headings[i], 1)) {
                        Some(v) => v,
                        None => Seq::empty(),
                    },
                ),
            ),
            None => rest,
        }
    }
}

/// What the stock fragment says of each store.
pub open spec fn store_stock_of(html: Seq<char>) -> Seq<StockView> {
    let headings = fragment_texts_of(html, HEADING@, seq![".store__name span"@, ".store-stock"@]);
    stocks_of(
        headings,
        fragment_texts_of(html, PANEL@, seq![".store-details"@, ".store-phone a"@]),
        fragment_rows_of(html, PANEL@, HOUR_ROW@, seq![".sday"@, ".stime"@]),
        headings.len() as int,
    )
}

/// The first text that is not blank once trimmed, trimmed.
fn first_filled(v: &Vec<String>) -> (r: Option<String>)
    ensures
        opt_str(r) == first_nonblank(strs(v@)),
{
    let ghost ts = strs(v@);
    let mut i: usize = 0;
    assert(ts.skip(0) =~= ts);
    while i < v.len()
        invariant
            i <= v.len(),
            ts == strs(v@),
            first_nonblank(ts) == first_nonblank(ts.skip(i as int)),
        decreases v.len() - i,
    {
        assert(ts.skip(i as int).drop_first() =~= ts.skip(i + 1));
        assert(ts.skip(i as int)[0] == v@[i as int]@);
        let cs = chars_of(v[i].as_str());
        let t = trim_exec(&cs);
        if t.len() > 0 {
            return Some(string_of(&t));
        }
        i += 1;
    }
    None
}

/// The `k`th list of an element's texts, or an empty one.
fn texts_in(e: &Vec<Vec<String>>, k: usize) -> (r: Vec<String>)
    ensures
        strs(r@) == texts_at(texts2(e@), k as int),
{
    if k < e.len() {
        e[k].clone()
    } else {
        let r: Vec<String> = Vec::new();
        assert(strs(r@) =~= Seq::<Seq<char>>::empty());
        r
    }
}

/// Opening times, as day and time pairs in the order the page lists them.
fn hours(rows: &Vec<Vec<Vec<String>>>) -> (r: Vec<(String, String)>)
    ensures
        r@.map_values(|h: (String, String)| (h.0@, h.1@)) == hours_of(texts3(rows@)),
{
    let ghost rs = texts3(rows@);
    let mut out: Vec<(String, String)> = Vec::new();
    let mut i: usize = 0;
    assert(rs.take(0) =~= Seq::<Seq<Seq<Seq<char>>>>::empty());
    assert(out@.map_values(|h: (String, String)| (h.0@, h.1@)) =~= hours_of(rs.take(0)));
    while i < rows.len()
        invariant
            i <= rows.len(),
            rs == texts3(rows@),
            out@.map_values(|h: (String, String)| (h.0@, h.1@)) == hours_of(rs.take(i as int)),
        decreases rows.len() - i,
    {
        assert(rs.take(i + 1).drop_last() =~= rs.take(i as int));
        assert(rs.take(i + 1).last() == texts2(rows@[i as int]@));
        let days = texts_in(&rows[i], 0);
        let times = texts_in(&rows[i], 1);
        if days.len() > 0 && times.len() > 0 {
            let dc = chars_of(days[0].as_str());
            let d = trim_exec(&dc);
            let tc = chars_of(times[0].as_str());
            let t = trim_exec(&tc);
            if d.len() > 0 && t.len() > 0 {
                let h = (string_of(&d), string_of(&t));
                let ghost before = out@;
                out.push(h);
                assert(out@.map_values(|h: (String, String)| (h.0@, h.1@)) =~= before.map_values(
                    |h: (String, String)| (h.0@, h.1@),
                ).push((h.0@, h.1@)));
            }
        }
        i += 1;
    }
    assert(rs.take(rows.len() as int) =~= rs);
    out
}

/// Per-store availability, from the available-stores fragment.
///
/// The fragment is an accordion: a heading carrying the name and the
/// verdict, then a sibling panel carrying the address and the hours. The two
/// are not nested, so they are read separately and paired by position, which
/// holds because the template emits one of each per store, in order.
pub fn store_stock(html: &str) -> (r: Vec<StoreStock>)
    ensures
        r@.map_values(|s: StoreStock| stock_view(s)) == store_stock_of(html@),
{
    let heading_sel: [&str; 2] = [".store__name span", ".store-stock"];
    let panel_sel: [&str; 2] = [".store-details", ".store-phone a"];
    let hour_sel: [&str; 2] = [".sday", ".stime"];
    proof {
        reveal_strlit(".store__name span");
        reveal_strlit(".store-stock");
        reveal_strlit(".store-details");
        reveal_strlit(".store-phone a");
        reveal_strlit(".sday");
        reveal_strlit(".stime");
        assert(str_views(heading_sel@) =~= seq![".store__name span"@, ".store-stock"@]);
        assert(str_views(panel_sel@) =~= seq![".store-details"@, ".store-phone a"@]);
        assert(str_views(hour_sel@) =~= seq![".sday"@, ".stime"@]);
    }
    let headings = fragment_texts(html, HEADING, &heading_sel);
    let panels = fragment_texts(html, PANEL, &panel_sel);
    let rows = fragment_rows(html, PANEL, HOUR_ROW, &hour_sel);
    let ghost hs = texts3(headings@);
    let ghost ps = texts3(panels@);
    let ghost rws = texts4(rows@);
    let mut out: Vec<StoreStock> = Vec::new();
    let mut i: usize = 0;
    assert(out@.map_values(|s: StoreStock| stock_view(s)) =~= stocks_of(hs, ps, rws, 0));
    while i < headings.len()
        invariant
            i <= headings.len(),
            hs == texts3(headings@),
            ps == texts3(panels@),
            rws == texts4(rows@),
            hs.len() == headings@.len(),
            ps.len() == panels@.len(),
            rws.len() == rows@.len(),
            out@.map_values(|s: StoreStock| stock_view(s)) == stocks_of(hs, ps, rws, i as int),
        decreases headings.len() - i,
    {
        assert(hs[i as int] == texts2(headings@[i as int]@));
        let names = texts_in(&headings[i], 0);
        match first_filled(&names) {
            Some(name) => {
                let verdicts = texts_in(&headings[i], 1);
                let status = match first_filled(&verdicts) {
                    Some(v) => v,
                    None => String::new(),
                };
                let (address, phone) = if i < panels.len() {
                    assert(ps[i as int] == texts2(panels@[i as int]@));
                    let lines = texts_in(&panels[i], 0);
                    let address = match first_filled(&lines) {
                        Some(a) => Some(tidy(a.as_str())),
                        None => None,
                    };
                    let phones = texts_in(&panels[i], 1);
                    (address, first_filled(&phones))
                } else {
                    (None, None)
                };
                let times = if i < rows.len() {
                    assert(rws[i as int] == texts3(rows@[i as int]@));
                    hours(&rows[i])
                } else {
                    let h: Vec<(String, String)> = Vec::new();
                    assert(h@.map_values(|h: (String, String)| (h.0@, h.1@)) =~= Seq::<
                        (Seq<char>, Seq<char>),
                    >::empty());
                    h
                };
                let row = StoreStock { store: Store { name, address, phone, hours: times }, status };
                let ghost before = out@;
                out.push(row);
                assert(out@.map_values(|s: StoreStock| stock_view(s)) =~= before.map_values(
                    |s: StoreStock| stock_view(s),
                ).push(stock_view(row)));
            },
            None => {},
        }
        i += 1;
    }
    out
}

/// The elements whose text can say a list is empty.
pub const EMPTY_NOTE: &'static str = "p, div.section";

/// Whether one text says there are none of something: it says "have any"
/// and names the thing, and is short enough to be a sentence rather than a
/// page.
pub open spec fn says_none(text: Seq<char>, noun: Seq<char>) -> bool {
    let t = lowered(tidied(trim(text)));
    &&& (contains(t, "do not have any"@) || contains(t, "have any"@))
    &&& contains(t, lowered(noun))
    &&& encode_utf8(t).len() < 200
}

/// Whether a page says there are none of something.
pub open spec fn says_empty_of(html: Seq<char>, noun: Seq<char>) -> bool {
    exists|i: int|
        0 <= i < document_texts(html, EMPTY_NOTE@).len() && says_none(
            #[trigger] document_texts(html, EMPTY_NOTE@)[i],
            noun,
        )
}

/// Whether a page is the "you have none of these" state rather than a list
/// this code failed to read: an empty list could mean either, and telling
/// someone their history is empty when the markup simply moved is the wrong
/// answer to give confidently.
pub fn says_empty(html: &str, noun: &str) -> (r: bool)
    ensures
        r == says_empty_of(html@, noun@),
{
    let ts = texts(html, EMPTY_NOTE);
    let lnoun = to_lowercase_str(noun);
    let nc = chars_of(lnoun.as_str());
    let a = chars_of("do not have any");
    let b = chars_of("have any");
    let mut i: usize = 0;
    while i < ts.len()
        invariant
            i <= ts.len(),
            strs(ts@) == document_texts(html@, EMPTY_NOTE@),
            nc@ == lowered(noun@),
            a@ == "do not have any"@,
            b@ == "have any"@,
            forall|j: int| 0 <= j < i ==> !says_none(#[trigger] strs(ts@)[j], noun@),
        decreases ts.len() - i,
    {
        let cs = chars_of(ts[i].as_str());
        let trimmed = trim_exec(&cs);
        let ts_i = string_of(&trimmed);
        let tidy_i = tidy(ts_i.as_str());
        let low = to_lowercase_str(tidy_i.as_str());
        let lc = chars_of(low.as_str());
        let bytes = low.as_str().as_bytes();
        let hit = (contains_exec(&lc, &a) || contains_exec(&lc, &b)) && contains_exec(&lc, &nc)
            && bytes.len() < 200;
        assert(strs(ts@)[i as int] == ts@[i as int]@);
        if hit {
            assert(says_none(strs(ts@)[i as int], noun@));
            return true;
        }
        i += 1;
    }
    false
}


// ---------------------------------------------------------------- the basket

/// For each element a selector matches in an HTML fragment, each of a list
/// of attributes, where the element has it.
pub uninterp spec fn fragment_select_attrs_of(html: Seq<char>, selector: Seq<char>, attrs: Seq<Seq<char>>) -> Seq<
    Seq<Option<Seq<char>>>,
>;

/// The text of each element a selector matches in an HTML fragment.
pub uninterp spec fn fragment_select_texts_of(html: Seq<char>, selector: Seq<char>) -> Seq<Seq<char>>;

/// For each element an outer selector matches in an HTML fragment, for each
/// element within it an inner one matches, each of a list of attributes,
/// where that element has it.
pub uninterp spec fn fragment_attrs_of(
    html: Seq<char>,
    outer: Seq<char>,
    inner: Seq<Seq<char>>,
    attrs: Seq<Seq<char>>,
) -> Seq<Seq<Seq<Option<Seq<char>>>>>;

/// Optional texts by their characters.
pub open spec fn opts(v: Seq<Option<String>>) -> Seq<Option<Seq<char>>> {
    v.map_values(|o: Option<String>| opt_str(o))
}

/// Optional texts by their characters, two levels down.
pub open spec fn opts2(v: Seq<Vec<Option<String>>>) -> Seq<Seq<Option<Seq<char>>>> {
    v.map_values(|x: Vec<Option<String>>| opts(x@))
}

/// Optional texts by their characters, three levels down.
pub open spec fn opts3(v: Seq<Vec<Vec<Option<String>>>>) -> Seq<Seq<Seq<Option<Seq<char>>>>> {
    v.map_values(|x: Vec<Vec<Option<String>>>| opts2(x@))
}

/// Reads attributes off the elements a selector matches in an HTML
/// fragment.
///
/// Parses the text with `scraper::Html::parse_fragment`, compiles the
/// selector with `scraper::Selector::parse` (an invalid one matches
/// nothing), and takes `ElementRef::attr` of each name for each match. The
/// result is named [`fragment_select_attrs_of`] of the three arguments.
#[verifier::external_body]
fn fragment_select_attrs(html: &str, selector: &str, attrs: &[&str]) -> (r: Vec<Vec<Option<String>>>)
    ensures
        opts2(r@) == fragment_select_attrs_of(html@, selector@, str_views(attrs@)),
{
    let doc = scraper::Html::parse_fragment(html);
    let Ok(s) = scraper::Selector::parse(selector) else { return Vec::new() };
    doc.select(&s).map(|e| attrs.iter().map(|a| e.attr(a).map(|v| v.to_string())).collect()).collect()
}

/// Reads the text of the elements a selector matches in an HTML fragment.
///
/// Parses the text with `scraper::Html::parse_fragment`, compiles the
/// selector with `scraper::Selector::parse` (an invalid one matches
/// nothing), and concatenates `ElementRef::text` of each match. The result
/// is named [`fragment_select_texts_of`] of the two arguments.
#[verifier::external_body]
fn fragment_select_texts(html: &str, selector: &str) -> (r: Vec<String>)
    ensures
        strs(r@) == fragment_select_texts_of(html@, selector@),
{
    let doc = scraper::Html::parse_fragment(html);
    let Ok(s) = scraper::Selector::parse(selector) else { return Vec::new() };
    doc.select(&s).map(|e| e.text().collect::<String>()).collect()
}

/// Reads attributes off elements within elements of an HTML fragment.
///
/// Parses the text with `scraper::Html::parse_fragment`, compiles each
/// selector with `scraper::Selector::parse` (an invalid one matches
/// nothing), and for each match of the outer selector, each inner selector
/// and each match of it within, takes `ElementRef::attr` of each name. The
/// result is named [`fragment_attrs_of`] of the four arguments.
#[verifier::external_body]
fn fragment_attrs(html: &str, outer: &str, inner: &[&str], attrs: &[&str]) -> (r: Vec<Vec<Vec<Option<String>>>>)
    ensures
        opts3(r@) == fragment_attrs_of(html@, outer@, str_views(inner@), str_views(attrs@)),
{
    let doc = scraper::Html::parse_fragment(html);
    let Ok(o) = scraper::Selector::parse(outer) else { return Vec::new() };
    let sels: Vec<Option<scraper::Selector>> = inner.iter().map(|s| scraper::Selector::parse(s).ok()).collect();
    doc.select(&o).map(|e| sels.iter().flat_map(|s| s.iter().flat_map(|s| e.select(s).collect::<Vec<_>>()))
        .map(|x| attrs.iter().map(|a| x.attr(a).map(|v| v.to_string())).collect()).collect()).collect()
}

/// The `k`th attribute of a match, where it has it.
pub open spec fn attr_in(m: Seq<Option<Seq<char>>>, k: int) -> Option<Seq<char>> {
    if 0 <= k < m.len() {
        m[k]
    } else {
        None
    }
}

/// The `k`th attribute of the first match that has it.
pub open spec fn first_attr(ms: Seq<Seq<Option<Seq<char>>>>, k: int) -> Option<Seq<char>>
    decreases ms.len(),
{
    if ms.len() == 0 {
        None
    } else {
        match attr_in(ms[0], k) {
            Some(v) => Some(v),
            None => first_attr(ms.drop_first(), k),
        }
    }
}

/// The first match that has its `k`th attribute.
pub open spec fn first_having(ms: Seq<Seq<Option<Seq<char>>>>, k: int) -> Option<Seq<Option<Seq<char>>>>
    decreases ms.len(),
{
    if ms.len() == 0 {
        None
    } else if attr_in(ms[0], k) is Some {
        Some(ms[0])
    } else {
        first_having(ms.drop_first(), k)
    }
}

/// The matches within the `i`th element, or none where there is none.
pub open spec fn matches_at(rows: Seq<Seq<Seq<Option<Seq<char>>>>>, i: int) -> Seq<Seq<Option<Seq<char>>>> {
    if 0 <= i < rows.len() {
        rows[i]
    } else {
        Seq::empty()
    }
}

/// A character a line item id is made of.
pub open spec fn id_char(c: char) -> bool {
    is_ascii_alnum(c) || c == '_' || c == '-'
}

/// How many characters an id runs for at the start of a text.
pub open spec fn id_run(s: Seq<char>) -> nat
    decreases s.len(),
{
    if s.len() == 0 || !id_char(s[0]) {
        0
    } else {
        1 + id_run(s.drop_first())
    }
}

/// The marker the line item id follows in the remove link.
pub const REMOVE_PLI: &'static str = "RemovePLI=";

/// The line item id out of a remove link's `onclick`: the id characters at
/// the start of what follows the first `RemovePLI=`, up to any next one.
pub open spec fn pli_of(onclick: Seq<char>) -> Option<Seq<char>> {
    match first_index(onclick, REMOVE_PLI@) {
        Some(i) => {
            let after = onclick.skip(i + REMOVE_PLI@.len());
            let piece = match first_index(after, REMOVE_PLI@) {
                Some(j) => after.take(j),
                None => after,
            };
            let id = piece.take(id_run(piece) as int);
            if id.len() > 0 {
                Some(id)
            } else {
                None
            }
        },
        None => None,
    }
}

/// The code a product URL ends in: the last hyphen-separated piece of its
/// last path segment, where that is all digits.
pub open spec fn sku_from_url_of(url: Seq<char>) -> Option<Seq<char>> {
    let last = split(trim_end_char(url, '/'), '/').last();
    let code = split(last, '-').last();
    if code.len() > 0 && all_digits(code) {
        Some(code)
    } else {
        None
    }
}

/// One option block: `Colour: Grey` as an axis and a value. A block with
/// no colon or no value, or the quantity, is not an option.
pub open spec fn option_of(text: Seq<char>) -> Option<(Seq<char>, Seq<char>)> {
    let t = tidied(trim(text));
    match index_of(t, ':') {
        Some(k) => {
            let axis = trim(t.take(k));
            let value = trim(t.skip(k + 1));
            if value.len() == 0 || eq_ignore_case(axis, "quantity"@) {
                None
            } else {
                Some((axis, value))
            }
        },
        None => None,
    }
}

/// The options of a line's blocks, in order.
pub open spec fn options_of(texts: Seq<Seq<char>>) -> Seq<(Seq<char>, Seq<char>)>
    decreases texts.len(),
{
    if texts.len() == 0 {
        Seq::empty()
    } else {
        let rest = options_of(texts.drop_last());
        match option_of(texts.last()) {
            Some(o) => rest.push(o),
            None => rest,
        }
    }
}

/// A line by its characters: id, SKU, name, URL, quantity, unit price, list
/// price, total and options.
pub type LineView = (
    Seq<char>,
    Option<Seq<char>>,
    Option<Seq<char>>,
    Option<Seq<char>>,
    Option<i64>,
    Option<Seq<char>>,
    Option<Seq<char>>,
    Option<Seq<char>>,
    Seq<(Seq<char>, Seq<char>)>,
);

/// A line by its characters.
pub open spec fn line_view(l: CartLine) -> LineView {
    (
        l.id@,
        opt_str(l.sku),
        opt_str(l.name),
        opt_str(l.url),
        l.quantity,
        opt_str(l.unit_price),
        opt_str(l.list_price),
        opt_str(l.total),
        option_views(l.options@),
    )
}

/// What one product row of the mini cart reads as. Without a line item id
/// it is not a line: nothing could change it.
pub open spec fn line_of(
    texts: Seq<Seq<Seq<char>>>,
    removes: Seq<Seq<Option<Seq<char>>>>,
    links: Seq<Seq<Option<Seq<char>>>>,
    skus: Seq<Seq<Option<Seq<char>>>>,
    prices: Seq<Seq<Option<Seq<char>>>>,
) -> Option<LineView> {
    match first_attr(removes, 0) {
        Some(onclick) => match pli_of(onclick) {
            Some(id) => {
                let link = first_having(links, 0);
                let url = match link {
                    Some(l) => attr_in(l, 0),
                    None => None,
                };
                let sku = match first_attr(skus, 0) {
                    Some(v) if v.len() > 0 => Some(v),
                    _ => match url {
                        Some(u) => sku_from_url_of(u),
                        None => None,
                    },
                };
                let name = match first_nonblank(texts_at(texts, 0)) {
                    Some(n) => Some(n),
                    None => match link {
                        Some(l) => attr_in(l, 1),
                        None => None,
                    },
                };
                let quantity = match first_nonblank(texts_at(texts, 1)) {
                    Some(q) => parse_i64(q),
                    None => None,
                };
                Some(
                    (
                        id,
                        sku,
                        name,
                        url,
                        quantity,
                        first_attr(prices, 0),
                        first_attr(prices, 1),
                        first_nonblank(texts_at(texts, 2)),
                        options_of(texts_at(texts, 3)),
                    ),
                )
            },
            None => None,
        },
        None => None,
    }
}

/// The selector of a mini cart row.
pub const CART_ROW: &'static str = "div.product-row";

/// The lines of the first `n` rows, in order.
pub open spec fn lines_of(
    texts: Seq<Seq<Seq<Seq<char>>>>,
    removes: Seq<Seq<Seq<Option<Seq<char>>>>>,
    links: Seq<Seq<Seq<Option<Seq<char>>>>>,
    skus: Seq<Seq<Seq<Option<Seq<char>>>>>,
    prices: Seq<Seq<Seq<Option<Seq<char>>>>>,
    n: int,
) -> Seq<LineView>
    decreases n,
{
    if n <= 0 {
        Seq::empty()
    } else {
        let rest = lines_of(texts, removes, links, skus, prices, n - 1);
        let i = n - 1;
        let t = if i < texts.len() {
            texts[i]
        } else {
            Seq::empty()
        };
        match line_of(t, matches_at(removes, i), matches_at(links, i), matches_at(skus, i), matches_at(prices, i)) {
            Some(l) => rest.push(l),
            None => rest,
        }
    }
}

/// The lines a mini cart fragment carries.
pub open spec fn cart_lines_of(html: Seq<char>) -> Seq<LineView> {
    let texts = fragment_texts_of(
        html,
        CART_ROW@,
        seq![".mini-product-title a"@, ".product-quantity"@, ".total-price"@, "div.cart-pli-data"@],
    );
    lines_of(
        texts,
        fragment_attrs_of(html, CART_ROW@, seq!["a.ico-remove-item"@], seq!["onclick"@]),
        fragment_attrs_of(
            html,
            CART_ROW@,
            seq!["a.product-image, .mini-product-title a"@],
            seq!["href"@, "title"@],
        ),
        fragment_attrs_of(
            html,
            CART_ROW@,
            seq!["[data-remove-pli-minicart]"@],
            seq!["data-remove-pli-minicart"@],
        ),
        fragment_attrs_of(
            html,
            CART_ROW@,
            seq!["div.product-price"@],
            seq!["data-sales-price"@, "data-list-price"@],
        ),
        texts.len() as int,
    )
}

/// How many characters the first word of a text runs for.
pub open spec fn word_run(s: Seq<char>) -> nat
    decreases s.len(),
{
    if s.len() == 0 || is_whitespace(s[0]) {
        0
    } else {
        1 + word_run(s.drop_first())
    }
}

/// The attributes read off the cart's container.
pub const CART_ATTRS: [&'static str; 5] = [
    "data-cart-id",
    "data-currency",
    "data-cart-subtotal",
    "cart-total",
    "data-cart-grand-total",
];

/// What the basket's header says, and the lines its rows carry.
pub type CartView = (
    Option<Seq<char>>,
    Option<Seq<char>>,
    Option<i64>,
    Option<Seq<char>>,
    Option<Seq<char>>,
    Option<Seq<char>>,
    Seq<LineView>,
);

/// A basket by its characters.
pub open spec fn cart_view(c: Cart) -> CartView {
    (
        opt_str(c.id),
        opt_str(c.currency),
        c.count,
        opt_str(c.subtotal),
        opt_str(c.total),
        opt_str(c.grand_total),
        c.lines@.map_values(|l: CartLine| line_view(l)),
    )
}

/// A text, where it is not empty.
pub open spec fn filled(v: Option<Seq<char>>) -> Option<Seq<char>> {
    match v {
        Some(x) => if x.len() > 0 {
            Some(x)
        } else {
            None
        },
        None => None,
    }
}

/// What the mini cart fragment says: the totals off its container, in the
/// page's own words, the unit count off the header, and the lines.
pub open spec fn cart_of(html: Seq<char>) -> CartView {
    let container = fragment_select_attrs_of(html, "#miniCart"@, str_views(CART_ATTRS@));
    let first: Seq<Option<Seq<char>>> = if container.len() > 0 {
        container[0]
    } else {
        Seq::empty()
    };
    let count = match first_nonblank(fragment_select_texts_of(html, "#mini-cart-count"@)) {
        Some(t) => parse_i64(t.take(word_run(t) as int)),
        None => None,
    };
    (
        filled(attr_in(first, 0)),
        filled(attr_in(first, 1)),
        count,
        attr_in(first, 2),
        attr_in(first, 3),
        attr_in(first, 4),
        cart_lines_of(html),
    )
}

/// The `k`th attribute of a match, where it has it.
fn attr_of(m: &Vec<Option<String>>, k: usize) -> (r: Option<String>)
    ensures
        opt_str(r) == attr_in(opts(m@), k as int),
{
    if k < m.len() {
        match &m[k] {
            Some(v) => Some(v.clone()),
            None => None,
        }
    } else {
        None
    }
}

/// The `k`th attribute of the first match that has it.
fn first_attr_of(ms: &Vec<Vec<Option<String>>>, k: usize) -> (r: Option<String>)
    ensures
        opt_str(r) == first_attr(opts2(ms@), k as int),
{
    let ghost all = opts2(ms@);
    let mut i: usize = 0;
    assert(all.skip(0) =~= all);
    while i < ms.len()
        invariant
            i <= ms.len(),
            all == opts2(ms@),
            first_attr(all, k as int) == first_attr(all.skip(i as int), k as int),
        decreases ms.len() - i,
    {
        assert(all.skip(i as int)[0] == opts(ms@[i as int]@));
        assert(all.skip(i as int).drop_first() =~= all.skip(i + 1));
        let a = attr_of(&ms[i], k);
        if a.is_some() {
            return a;
        }
        i += 1;
    }
    None
}

/// The first match that has its `k`th attribute.
fn first_having_of(ms: &Vec<Vec<Option<String>>>, k: usize) -> (r: Option<&Vec<Option<String>>>)
    ensures
        match r {
            Some(m) => first_having(opts2(ms@), k as int) == Some(opts(m@)),
            None => first_having(opts2(ms@), k as int) is None,
        },
{
    let ghost all = opts2(ms@);
    let mut i: usize = 0;
    assert(all.skip(0) =~= all);
    while i < ms.len()
        invariant
            i <= ms.len(),
            all == opts2(ms@),
            first_having(all, k as int) == first_having(all.skip(i as int), k as int),
        decreases ms.len() - i,
    {
        assert(all.skip(i as int)[0] == opts(ms@[i as int]@));
        assert(all.skip(i as int).drop_first() =~= all.skip(i + 1));
        let a = attr_of(&ms[i], k);
        if a.is_some() {
            return Some(&ms[i]);
        }
        i += 1;
    }
    None
}

/// The matches within the `i`th element, or none.
fn matches_in(rows: &Vec<Vec<Vec<Option<String>>>>, i: usize) -> (r: Vec<Vec<Option<String>>>)
    ensures
        opts2(r@) == matches_at(opts3(rows@), i as int),
{
    if i < rows.len() {
        rows[i].clone()
    } else {
        let r: Vec<Vec<Option<String>>> = Vec::new();
        assert(opts2(r@) =~= Seq::<Seq<Option<Seq<char>>>>::empty());
        r
    }
}

/// The line item id out of a remove link's `onclick`.
fn pli(onclick: &str) -> (r: Option<String>)
    ensures
        opt_str(r) == pli_of(onclick@),
{
    let s = chars_of(onclick);
    let marker = chars_of(REMOVE_PLI);
    let i = match find_from(&s, &marker, 0) {
        Some(i) => i,
        None => return None,
    };
    proof {
        let c = choose|x: int| first_from(s@, marker@, 0, x);
        lemma_first_unique(s@, marker@, i as int, c);
    }
    assert(occurs_at(s@, marker@, i as int));
    let start = i + marker.len();
    let after = slice(&s, start, s.len());
    assert(after@ =~= s@.skip(start as int));
    let piece = match find_from(&after, &marker, 0) {
        Some(j) => {
            proof {
                let c = choose|x: int| first_from(after@, marker@, 0, x);
                lemma_first_unique(after@, marker@, j as int, c);
            }
            assert(occurs_at(after@, marker@, j as int));
            let p = slice(&after, 0, j);
            assert(p@ =~= after@.take(j as int));
            p
        },
        None => after,
    };
    let mut n: usize = 0;
    assert(piece@.skip(0) =~= piece@);
    while n < piece.len() && (('a' <= piece[n] && piece[n] <= 'z') || ('A' <= piece[n] && piece[n]
        <= 'Z') || ('0' <= piece[n] && piece[n] <= '9') || piece[n] == '_' || piece[n] == '-')
        invariant
            n <= piece.len(),
            id_run(piece@) == n + id_run(piece@.skip(n as int)),
        decreases piece.len() - n,
    {
        assert(piece@.skip(n as int).drop_first() =~= piece@.skip(n + 1));
        n += 1;
    }
    assert(id_run(piece@.skip(n as int)) == 0) by {
        if n < piece.len() {
            assert(piece@.skip(n as int)[0] == piece@[n as int]);
        }
    }
    if n == 0 {
        return None;
    }
    let id = slice(&piece, 0, n);
    assert(id@ =~= piece@.take(n as int));
    Some(string_of(&id))
}

/// A product URL's code: the last hyphen-separated piece of its last
/// segment, where that is all digits.
fn sku_from_url(url: &str) -> (r: Option<String>)
    ensures
        opt_str(r) == sku_from_url_of(url@),
{
    let cs = chars_of(url);
    let t = trim_end_char_exec(&cs, '/');
    let segs = split_exec(&t, '/');
    proof {
        crate::text::lemma_split_nonempty(t@, '/');
    }
    let last = &segs[segs.len() - 1];
    assert(views(segs@).last() == last@);
    let pieces = split_exec(last, '-');
    proof {
        crate::text::lemma_split_nonempty(last@, '-');
    }
    let code = &pieces[pieces.len() - 1];
    assert(views(pieces@).last() == code@);
    if code.len() == 0 || !digits_only(code) {
        return None;
    }
    Some(string_of(code))
}

/// Whether every character is an ASCII digit.
fn digits_only(s: &[char]) -> (r: bool)
    ensures
        r == all_digits(s@),
{
    let mut i: usize = 0;
    while i < s.len()
        invariant
            i <= s.len(),
            forall|j: int| 0 <= j < i ==> is_ascii_digit(s@[j]),
        decreases s.len() - i,
    {
        if !('0' <= s[i] && s[i] <= '9') {
            assert(!is_ascii_digit(s@[i as int]));
            return false;
        }
        i += 1;
    }
    true
}

/// One option block's axis and value.
fn option(text: &str) -> (r: Option<VariationValue>)
    ensures
        match r {
            Some(o) => option_of(text@) == Some((o.axis@, o.value@)),
            None => option_of(text@) is None,
        },
{
    let cs = chars_of(text);
    let tr = trim_exec(&cs);
    let ts = string_of(&tr);
    let tt = tidy(ts.as_str());
    let t = chars_of(tt.as_str());
    let k = match index_of_exec(&t, ':') {
        Some(k) => k,
        None => return None,
    };
    proof {
        crate::text::lemma_index_of_some(t@, ':');
    }
    let head = slice(&t, 0, k);
    assert(head@ =~= t@.take(k as int));
    let tail = slice(&t, k + 1, t.len());
    assert(tail@ =~= t@.skip(k + 1));
    let axis = trim_exec(&head);
    let value = trim_exec(&tail);
    let q = chars_of("quantity");
    if value.len() == 0 || same_ignore_case(&axis, &q) {
        return None;
    }
    Some(VariationValue { axis: string_of(&axis), value: string_of(&value) })
}

/// The options of a line's blocks, in order.
fn options(texts: &Vec<String>) -> (r: Vec<VariationValue>)
    ensures
        option_views(r@) == options_of(strs(texts@)),
{
    let ghost ts = strs(texts@);
    let mut out: Vec<VariationValue> = Vec::new();
    let mut i: usize = 0;
    assert(option_views(out@) =~= options_of(ts.take(0)));
    while i < texts.len()
        invariant
            i <= texts.len(),
            ts == strs(texts@),
            option_views(out@) == options_of(ts.take(i as int)),
        decreases texts.len() - i,
    {
        assert(ts.take(i + 1).drop_last() =~= ts.take(i as int));
        assert(ts.take(i + 1).last() == texts@[i as int]@);
        match option(texts[i].as_str()) {
            Some(o) => {
                let ghost before = out@;
                out.push(o);
                assert(option_views(out@) =~= option_views(before).push((o.axis@, o.value@)));
            },
            None => {},
        }
        i += 1;
    }
    assert(ts.take(texts.len() as int) =~= ts);
    out
}

/// One product row, read as a line.
fn line(
    texts: &Vec<Vec<String>>,
    removes: &Vec<Vec<Option<String>>>,
    links: &Vec<Vec<Option<String>>>,
    skus: &Vec<Vec<Option<String>>>,
    prices: &Vec<Vec<Option<String>>>,
) -> (r: Option<CartLine>)
    ensures
        match r {
            Some(l) => line_of(texts2(texts@), opts2(removes@), opts2(links@), opts2(skus@), opts2(prices@))
                == Some(line_view(l)),
            None => line_of(texts2(texts@), opts2(removes@), opts2(links@), opts2(skus@), opts2(prices@)) is None,
        },
{
    let onclick = match first_attr_of(removes, 0) {
        Some(o) => o,
        None => return None,
    };
    let id = match pli(onclick.as_str()) {
        Some(id) => id,
        None => return None,
    };
    let link = first_having_of(links, 0);
    let url = match link {
        Some(l) => attr_of(l, 0),
        None => None,
    };
    let sku = match first_attr_of(skus, 0) {
        Some(v) if chars_of(v.as_str()).len() > 0 => Some(v),
        _ => match &url {
            Some(u) => sku_from_url(u.as_str()),
            None => None,
        },
    };
    let names = texts_in(texts, 0);
    let name = match first_filled(&names) {
        Some(n) => Some(n),
        None => match link {
            Some(l) => attr_of(l, 1),
            None => None,
        },
    };
    let quantities = texts_in(texts, 1);
    let quantity = match first_filled(&quantities) {
        Some(q) => {
            let qc = chars_of(q.as_str());
            parse_i64_exec(&qc)
        },
        None => None,
    };
    let totals = texts_in(texts, 2);
    let total = first_filled(&totals);
    let blocks = texts_in(texts, 3);
    let opts = options(&blocks);
    let l = CartLine {
        id,
        sku,
        name,
        url,
        quantity,
        unit_price: first_attr_of(prices, 0),
        list_price: first_attr_of(prices, 1),
        total,
        options: opts,
    };
    Some(l)
}

/// The lines of the mini cart, in order. A row with no line item id is not
/// a line: nothing could change it.
fn cart_lines(html: &str) -> (r: Vec<CartLine>)
    ensures
        r@.map_values(|l: CartLine| line_view(l)) == cart_lines_of(html@),
{
    let text_sel: [&str; 4] = [".mini-product-title a", ".product-quantity", ".total-price", "div.cart-pli-data"];
    let remove_sel: [&str; 1] = ["a.ico-remove-item"];
    let remove_attr: [&str; 1] = ["onclick"];
    let link_sel: [&str; 1] = ["a.product-image, .mini-product-title a"];
    let link_attr: [&str; 2] = ["href", "title"];
    let sku_sel: [&str; 1] = ["[data-remove-pli-minicart]"];
    let sku_attr: [&str; 1] = ["data-remove-pli-minicart"];
    let price_sel: [&str; 1] = ["div.product-price"];
    let price_attr: [&str; 2] = ["data-sales-price", "data-list-price"];
    proof {
        reveal_strlit(".mini-product-title a");
        reveal_strlit(".product-quantity");
        reveal_strlit(".total-price");
        reveal_strlit("div.cart-pli-data");
        reveal_strlit("a.ico-remove-item");
        reveal_strlit("onclick");
        reveal_strlit("a.product-image, .mini-product-title a");
        reveal_strlit("href");
        reveal_strlit("title");
        reveal_strlit("[data-remove-pli-minicart]");
        reveal_strlit("data-remove-pli-minicart");
        reveal_strlit("div.product-price");
        reveal_strlit("data-sales-price");
        reveal_strlit("data-list-price");
        assert(str_views(text_sel@) =~= seq![
            ".mini-product-title a"@,
            ".product-quantity"@,
            ".total-price"@,
            "div.cart-pli-data"@,
        ]);
        assert(str_views(remove_sel@) =~= seq!["a.ico-remove-item"@]);
        assert(str_views(remove_attr@) =~= seq!["onclick"@]);
        assert(str_views(link_sel@) =~= seq!["a.product-image, .mini-product-title a"@]);
        assert(str_views(link_attr@) =~= seq!["href"@, "title"@]);
        assert(str_views(sku_sel@) =~= seq!["[data-remove-pli-minicart]"@]);
        assert(str_views(sku_attr@) =~= seq!["data-remove-pli-minicart"@]);
        assert(str_views(price_sel@) =~= seq!["div.product-price"@]);
        assert(str_views(price_attr@) =~= seq!["data-sales-price"@, "data-list-price"@]);
    }
    let texts = fragment_texts(html, CART_ROW, &text_sel);
    let removes = fragment_attrs(html, CART_ROW, &remove_sel, &remove_attr);
    let links = fragment_attrs(html, CART_ROW, &link_sel, &link_attr);
    let skus = fragment_attrs(html, CART_ROW, &sku_sel, &sku_attr);
    let prices = fragment_attrs(html, CART_ROW, &price_sel, &price_attr);
    let ghost ts = texts3(texts@);
    let ghost rs = opts3(removes@);
    let ghost ls = opts3(links@);
    let ghost ss = opts3(skus@);
    let ghost ps = opts3(prices@);
    let mut out: Vec<CartLine> = Vec::new();
    let mut i: usize = 0;
    assert(out@.map_values(|l: CartLine| line_view(l)) =~= lines_of(ts, rs, ls, ss, ps, 0));
    while i < texts.len()
        invariant
            i <= texts.len(),
            ts == texts3(texts@),
            rs == opts3(removes@),
            ls == opts3(links@),
            ss == opts3(skus@),
            ps == opts3(prices@),
            ts.len() == texts@.len(),
            out@.map_values(|l: CartLine| line_view(l)) == lines_of(ts, rs, ls, ss, ps, i as int),
        decreases texts.len() - i,
    {
        assert(ts[i as int] == texts2(texts@[i as int]@));
        let r = matches_in(&removes, i);
        let l = matches_in(&links, i);
        let s = matches_in(&skus, i);
        let p = matches_in(&prices, i);
        match line(&texts[i], &r, &l, &s, &p) {
            Some(cl) => {
                let ghost before = out@;
                out.push(cl);
                assert(out@.map_values(|l: CartLine| line_view(l)) =~= before.map_values(
                    |l: CartLine| line_view(l),
                ).push(line_view(cl)));
            },
            None => {},
        }
        i += 1;
    }
    out
}

/// The number a text starts with: its first word, parsed.
fn leading_number(t: &str) -> (r: Option<i64>)
    ensures
        r == parse_i64(t@.take(word_run(t@) as int)),
{
    let cs = chars_of(t);
    let mut n: usize = 0;
    assert(cs@.skip(0) =~= cs@);
    while n < cs.len() && !is_whitespace_exec(cs[n])
        invariant
            n <= cs.len(),
            cs@ == t@,
            word_run(cs@) == n + word_run(cs@.skip(n as int)),
        decreases cs.len() - n,
    {
        assert(cs@.skip(n as int).drop_first() =~= cs@.skip(n + 1));
        n += 1;
    }
    assert(word_run(cs@.skip(n as int)) == 0) by {
        if n < cs.len() {
            assert(cs@.skip(n as int)[0] == cs@[n as int]);
        }
    }
    let w = slice(&cs, 0, n);
    assert(w@ =~= cs@.take(n as int));
    parse_i64_exec(&w)
}

/// A text, where it is not empty.
fn filled_text(v: Option<String>) -> (r: Option<String>)
    ensures
        opt_str(r) == filled(opt_str(v)),
{
    match v {
        Some(x) => if chars_of(x.as_str()).len() > 0 {
            Some(x)
        } else {
            None
        },
        None => None,
    }
}

/// The basket, from the mini cart fragment: a few kilobytes against the cart
/// page's hundreds, needing no form token, and carrying the line item ids
/// that every change is addressed by. The totals are the container's
/// attributes, in the page's own words; the count is the header's, which
/// counts units.
pub fn cart(html: &str) -> (r: Cart)
    ensures
        cart_view(r) == cart_of(html@),
{
    proof {
        reveal_strlit("#miniCart");
        reveal_strlit("#mini-cart-count");
    }
    let container = fragment_select_attrs(html, "#miniCart", &CART_ATTRS);
    let first: Vec<Option<String>> = if container.len() > 0 {
        container[0].clone()
    } else {
        Vec::new()
    };
    let ghost fv = if opts2(container@).len() > 0 {
        opts2(container@)[0]
    } else {
        Seq::<Option<Seq<char>>>::empty()
    };
    assert(opts(first@) =~= fv);
    let counts = fragment_select_texts(html, "#mini-cart-count");
    let count = match first_filled(&counts) {
        Some(t) => leading_number(t.as_str()),
        None => None,
    };
    let lines = cart_lines(html);
    Cart {
        id: filled_text(attr_of(&first, 0)),
        currency: filled_text(attr_of(&first, 1)),
        count,
        subtotal: attr_of(&first, 2),
        total: attr_of(&first, 3),
        grand_total: attr_of(&first, 4),
        lines,
    }
}


// ------------------------------------------------------- orders and lists

/// For each element an outer selector matches in an HTML document, and for
/// each of a list of inner selectors, the text of every element within it
/// that the inner one matches.
pub uninterp spec fn document_texts_in_of(html: Seq<char>, outer: Seq<char>, inner: Seq<Seq<char>>) -> Seq<
    Seq<Seq<Seq<char>>>,
>;

/// For each element an outer selector matches in an HTML document, for each
/// element within it an inner one matches, each of a list of attributes.
pub uninterp spec fn document_attrs_in_of(
    html: Seq<char>,
    outer: Seq<char>,
    inner: Seq<Seq<char>>,
    attrs: Seq<Seq<char>>,
) -> Seq<Seq<Seq<Option<Seq<char>>>>>;

/// For each element a selector matches in an HTML document, each of a list
/// of its own attributes, and its markup.
pub uninterp spec fn document_elements_of(html: Seq<char>, selector: Seq<char>, attrs: Seq<Seq<char>>) -> Seq<
    (Seq<Option<Seq<char>>>, Seq<char>),
>;

/// For each element an outer selector matches in an HTML document, for each
/// element within it a middle selector matches, and for each inner selector,
/// the text of every element within that the inner one matches.
pub uninterp spec fn document_rows_of(
    html: Seq<char>,
    outer: Seq<char>,
    middle: Seq<char>,
    inner: Seq<Seq<char>>,
) -> Seq<Seq<Seq<Seq<Seq<char>>>>>;

/// For each element an outer selector matches in an HTML document, for each
/// element within it a middle selector matches, for each element within
/// that an inner one matches, each of a list of attributes.
pub uninterp spec fn document_row_attrs_of(
    html: Seq<char>,
    outer: Seq<char>,
    middle: Seq<char>,
    inner: Seq<char>,
    attrs: Seq<Seq<char>>,
) -> Seq<Seq<Seq<Seq<Option<Seq<char>>>>>>;

/// Reads texts out of an HTML document, element by element.
///
/// As [`fragment_texts`], with `scraper::Html::parse_document`. The result
/// is named [`document_texts_in_of`] of the three arguments.
#[verifier::external_body]
fn document_texts_in(html: &str, outer: &str, inner: &[&str]) -> (r: Vec<Vec<Vec<String>>>)
    ensures
        texts3(r@) == document_texts_in_of(html@, outer@, str_views(inner@)),
{
    let doc = scraper::Html::parse_document(html);
    let Ok(o) = scraper::Selector::parse(outer) else { return Vec::new() };
    let sels: Vec<Option<scraper::Selector>> = inner.iter().map(|s| scraper::Selector::parse(s).ok()).collect();
    doc.select(&o).map(|e| sels.iter().map(|s| match s {
        Some(s) => e.select(s).map(|x| x.text().collect::<String>()).collect(),
        None => Vec::new(),
    }).collect()).collect()
}

/// Reads attributes off elements within elements of an HTML document.
///
/// As [`fragment_attrs`], with `scraper::Html::parse_document`. The result
/// is named [`document_attrs_in_of`] of the four arguments.
#[verifier::external_body]
fn document_attrs_in(html: &str, outer: &str, inner: &[&str], attrs: &[&str]) -> (r: Vec<Vec<Vec<Option<String>>>>)
    ensures
        opts3(r@) == document_attrs_in_of(html@, outer@, str_views(inner@), str_views(attrs@)),
{
    let doc = scraper::Html::parse_document(html);
    let Ok(o) = scraper::Selector::parse(outer) else { return Vec::new() };
    let sels: Vec<Option<scraper::Selector>> = inner.iter().map(|s| scraper::Selector::parse(s).ok()).collect();
    doc.select(&o).map(|e| sels.iter().flat_map(|s| s.iter().flat_map(|s| e.select(s).collect::<Vec<_>>()))
        .map(|x| attrs.iter().map(|a| x.attr(a).map(|v| v.to_string())).collect()).collect()).collect()
}

/// Element markup and own attributes by their characters.
pub open spec fn elements_view(v: Seq<(Vec<Option<String>>, String)>) -> Seq<(Seq<Option<Seq<char>>>, Seq<char>)> {
    v.map_values(|e: (Vec<Option<String>>, String)| (opts(e.0@), e.1@))
}

/// Reads the elements a selector matches in an HTML document: their own
/// attributes and their markup.
///
/// Parses the text with `scraper::Html::parse_document`, compiles the
/// selector with `scraper::Selector::parse` (an invalid one matches
/// nothing), and for each match takes `ElementRef::attr` of each name and
/// `ElementRef::html`. The result is named [`document_elements_of`] of the
/// three arguments.
#[verifier::external_body]
fn document_elements(html: &str, selector: &str, attrs: &[&str]) -> (r: Vec<(Vec<Option<String>>, String)>)
    ensures
        elements_view(r@) == document_elements_of(html@, selector@, str_views(attrs@)),
{
    let doc = scraper::Html::parse_document(html);
    let Ok(s) = scraper::Selector::parse(selector) else { return Vec::new() };
    doc.select(&s).map(|e| (attrs.iter().map(|a| e.attr(a).map(|v| v.to_string())).collect(), e.html())).collect()
}

/// Reads texts out of an HTML document, row by row within each element.
///
/// As [`fragment_rows`], with `scraper::Html::parse_document`. The result is
/// named [`document_rows_of`] of the four arguments.
#[verifier::external_body]
fn document_rows(html: &str, outer: &str, middle: &str, inner: &[&str]) -> (r: Vec<Vec<Vec<Vec<String>>>>)
    ensures
        texts4(r@) == document_rows_of(html@, outer@, middle@, str_views(inner@)),
{
    let doc = scraper::Html::parse_document(html);
    let (Ok(o), Ok(m)) = (scraper::Selector::parse(outer), scraper::Selector::parse(middle)) else { return Vec::new() };
    let sels: Vec<Option<scraper::Selector>> = inner.iter().map(|s| scraper::Selector::parse(s).ok()).collect();
    doc.select(&o).map(|e| e.select(&m).map(|row| sels.iter().map(|s| match s {
        Some(s) => row.select(s).map(|x| x.text().collect::<String>()).collect(),
        None => Vec::new(),
    }).collect()).collect()).collect()
}

/// Optional texts by their characters, four levels down.
pub open spec fn opts4(v: Seq<Vec<Vec<Vec<Option<String>>>>>) -> Seq<Seq<Seq<Seq<Option<Seq<char>>>>>> {
    v.map_values(|x: Vec<Vec<Vec<Option<String>>>>| opts3(x@))
}

/// Reads attributes off elements within rows within elements of an HTML
/// document.
///
/// Parses the text with `scraper::Html::parse_document`, compiles each
/// selector with `scraper::Selector::parse` (an invalid one matches
/// nothing), and for each match of the outer selector, each match of the
/// middle one within it and each match of the inner one within that, takes
/// `ElementRef::attr` of each name. The result is named
/// [`document_row_attrs_of`] of the five arguments.
#[verifier::external_body]
fn document_row_attrs(html: &str, outer: &str, middle: &str, inner: &str, attrs: &[&str]) -> (r: Vec<Vec<Vec<Vec<Option<String>>>>>)
    ensures
        opts4(r@) == document_row_attrs_of(html@, outer@, middle@, inner@, str_views(attrs@)),
{
    let doc = scraper::Html::parse_document(html);
    let (Ok(o), Ok(m), Ok(i)) = (scraper::Selector::parse(outer), scraper::Selector::parse(middle), scraper::Selector::parse(inner)) else { return Vec::new() };
    doc.select(&o).map(|e| e.select(&m).map(|row| row.select(&i)
        .map(|x| attrs.iter().map(|a| x.attr(a).map(|v| v.to_string())).collect()).collect()).collect()).collect()
}

/// The rows an order history may list orders in.
pub const ORDER_ROWS: &'static str = "tr.order, .order-history-item, .order-row, table.order-history tbody tr";

/// An order number as the history prints it: any leading `#` and the space
/// around it taken off.
pub open spec fn order_number(t: Seq<char>) -> Option<Seq<char>> {
    let n = trim(trim_start_char(t, '#'));
    if n.len() > 0 {
        Some(n)
    } else {
        None
    }
}

/// An order by its characters: number, date, status, total and link.
pub type OrderView = (Seq<char>, Option<Seq<char>>, Option<Seq<char>>, Option<Seq<char>>, Option<Seq<char>>);

/// An order by its characters.
pub open spec fn order_view(o: Order) -> OrderView {
    (o.number@, opt_str(o.placed), opt_str(o.status), opt_str(o.total), opt_str(o.url))
}

/// What one history row reads as; a row with no number is not an order.
pub open spec fn order_of(texts: Seq<Seq<Seq<char>>>, links: Seq<Seq<Option<Seq<char>>>>) -> Option<OrderView> {
    match first_nonblank(texts_at(texts, 0)) {
        Some(t) => match order_number(t) {
            Some(number) => Some(
                (
                    number,
                    first_nonblank(texts_at(texts, 1)),
                    first_nonblank(texts_at(texts, 2)),
                    first_nonblank(texts_at(texts, 3)),
                    first_attr(links, 0),
                ),
            ),
            None => None,
        },
        None => None,
    }
}

/// The orders of the first `n` rows, in order.
pub open spec fn orders_in(texts: Seq<Seq<Seq<Seq<char>>>>, links: Seq<Seq<Seq<Option<Seq<char>>>>>, n: int) -> Seq<
    OrderView,
>
    decreases n,
{
    if n <= 0 {
        Seq::empty()
    } else {
        let rest = orders_in(texts, links, n - 1);
        let i = n - 1;
        let t = if i < texts.len() {
            texts[i]
        } else {
            Seq::empty()
        };
        match order_of(t, matches_at(links, i)) {
            Some(o) => rest.push(o),
            None => rest,
        }
    }
}

/// The orders an order history page lists.
pub open spec fn orders_of(html: Seq<char>) -> Seq<OrderView> {
    let texts = document_texts_in_of(
        html,
        ORDER_ROWS@,
        seq![
            ".order-number, .order-id, td:first-child"@,
            ".order-date, .date"@,
            ".order-status, .status"@,
            ".order-total, .total"@,
        ],
    );
    orders_in(texts, document_attrs_in_of(html, ORDER_ROWS@, seq!["a"@], seq!["href"@]), texts.len() as int)
}

/// One history row, read as an order.
fn order(texts: &Vec<Vec<String>>, links: &Vec<Vec<Option<String>>>) -> (r: Option<Order>)
    ensures
        match r {
            Some(o) => order_of(texts2(texts@), opts2(links@)) == Some(order_view(o)),
            None => order_of(texts2(texts@), opts2(links@)) is None,
        },
{
    let numbers = texts_in(texts, 0);
    let t = match first_filled(&numbers) {
        Some(t) => t,
        None => return None,
    };
    let cs = chars_of(t.as_str());
    let stripped = trim_start_char_exec(&cs, '#');
    let n = trim_exec(&stripped);
    if n.len() == 0 {
        return None;
    }
    let dates = texts_in(texts, 1);
    let statuses = texts_in(texts, 2);
    let totals = texts_in(texts, 3);
    Some(
        Order {
            number: string_of(&n),
            placed: first_filled(&dates),
            status: first_filled(&statuses),
            total: first_filled(&totals),
            url: first_attr_of(links, 0),
        },
    )
}

/// Past orders, from the order history. The empty state is the one that was
/// seen; the row selectors are read off the template's class names.
pub fn orders(html: &str) -> (r: Vec<Order>)
    ensures
        r@.map_values(|o: Order| order_view(o)) == orders_of(html@),
{
    let text_sel: [&str; 4] = [
        ".order-number, .order-id, td:first-child",
        ".order-date, .date",
        ".order-status, .status",
        ".order-total, .total",
    ];
    let link_sel: [&str; 1] = ["a"];
    let link_attr: [&str; 1] = ["href"];
    proof {
        reveal_strlit(".order-number, .order-id, td:first-child");
        reveal_strlit(".order-date, .date");
        reveal_strlit(".order-status, .status");
        reveal_strlit(".order-total, .total");
        reveal_strlit("a");
        reveal_strlit("href");
        assert(str_views(text_sel@) =~= seq![
            ".order-number, .order-id, td:first-child"@,
            ".order-date, .date"@,
            ".order-status, .status"@,
            ".order-total, .total"@,
        ]);
        assert(str_views(link_sel@) =~= seq!["a"@]);
        assert(str_views(link_attr@) =~= seq!["href"@]);
    }
    let texts = document_texts_in(html, ORDER_ROWS, &text_sel);
    let links = document_attrs_in(html, ORDER_ROWS, &link_sel, &link_attr);
    let ghost ts = texts3(texts@);
    let ghost ls = opts3(links@);
    let mut out: Vec<Order> = Vec::new();
    let mut i: usize = 0;
    assert(out@.map_values(|o: Order| order_view(o)) =~= orders_in(ts, ls, 0));
    while i < texts.len()
        invariant
            i <= texts.len(),
            ts == texts3(texts@),
            ls == opts3(links@),
            ts.len() == texts@.len(),
            out@.map_values(|o: Order| order_view(o)) == orders_in(ts, ls, i as int),
        decreases texts.len() - i,
    {
        assert(ts[i as int] == texts2(texts@[i as int]@));
        let l = matches_in(&links, i);
        match order(&texts[i], &l) {
            Some(o) => {
                let ghost before = out@;
                out.push(o);
                assert(out@.map_values(|o: Order| order_view(o)) =~= before.map_values(
                    |o: Order| order_view(o),
                ).push(order_view(o)));
            },
            None => {},
        }
        i += 1;
    }
    out
}

/// The elements a saved list may be.
pub const LIST_ROWS: &'static str = ".wishlist, .wishlist-item, li.wishlist-entry";

/// The rows a saved list may hold its products in.
pub const ITEM_ROWS: &'static str = ".product-row, .wishlist-product, .product-tile";

/// A saved product by its characters: SKU, name, link and price.
pub type ItemView = (Option<Seq<char>>, Option<Seq<char>>, Option<Seq<char>>, Option<Seq<char>>);

/// A saved product by its characters.
pub open spec fn item_view(i: WishlistItem) -> ItemView {
    (opt_str(i.sku), opt_str(i.name), opt_str(i.url), opt_str(i.price))
}

/// What one product row of a list reads as: its first link, the code that
/// link ends in, and its first name and price.
pub open spec fn item_of(texts: Seq<Seq<Seq<char>>>, links: Seq<Seq<Option<Seq<char>>>>) -> ItemView {
    let url = first_attr(links, 0);
    (
        match url {
            Some(u) => sku_from_url_of(u),
            None => None,
        },
        first_nonblank(texts_at(texts, 0)),
        url,
        first_nonblank(texts_at(texts, 1)),
    )
}

/// The products of the first `n` rows of a list.
pub open spec fn items_in(rows: Seq<Seq<Seq<Seq<char>>>>, links: Seq<Seq<Seq<Option<Seq<char>>>>>, n: int) -> Seq<
    ItemView,
>
    decreases n,
{
    if n <= 0 {
        Seq::empty()
    } else {
        items_in(rows, links, n - 1).push(
            item_of(
                if n - 1 < rows.len() {
                    rows[n - 1]
                } else {
                    Seq::empty()
                },
                matches_at(links, n - 1),
            ),
        )
    }
}

/// A list by its characters: id, name, preferred, public and products.
pub type ListView = (Option<Seq<char>>, Seq<char>, bool, bool, Seq<ItemView>);

/// A list by its characters.
pub open spec fn list_view(w: Wishlist) -> ListView {
    (opt_str(w.id), w.name@, w.preferred, w.public, w.items@.map_values(|i: WishlistItem| item_view(i)))
}

/// What one saved list reads as: named by its first title, identified by
/// its `data-wishlist-id` or else its `id`, preferred or public where its
/// markup says so anywhere. A list with no name is not read.
pub open spec fn list_of(
    element: (Seq<Option<Seq<char>>>, Seq<char>),
    names: Seq<Seq<Seq<char>>>,
    rows: Seq<Seq<Seq<Seq<char>>>>,
    links: Seq<Seq<Seq<Option<Seq<char>>>>>,
) -> Option<ListView> {
    match first_nonblank(texts_at(names, 0)) {
        Some(name) => Some(
            (
                match attr_in(element.0, 0) {
                    Some(id) => Some(id),
                    None => attr_in(element.0, 1),
                },
                name,
                contains(element.1, "preferred"@),
                contains(element.1, "public"@),
                items_in(rows, links, rows.len() as int),
            ),
        ),
        None => None,
    }
}

/// The lists of the first `n` list elements, in order.
pub open spec fn lists_in(
    elements: Seq<(Seq<Option<Seq<char>>>, Seq<char>)>,
    names: Seq<Seq<Seq<Seq<char>>>>,
    rows: Seq<Seq<Seq<Seq<Seq<char>>>>>,
    links: Seq<Seq<Seq<Seq<Option<Seq<char>>>>>>,
    n: int,
) -> Seq<ListView>
    decreases n,
{
    if n <= 0 {
        Seq::empty()
    } else {
        let rest = lists_in(elements, names, rows, links, n - 1);
        let i = n - 1;
        let nm = if i < names.len() {
            names[i]
        } else {
            Seq::empty()
        };
        let rw = if i < rows.len() {
            rows[i]
        } else {
            Seq::empty()
        };
        let lk = if i < links.len() {
            links[i]
        } else {
            Seq::empty()
        };
        match list_of(elements[i], nm, rw, lk) {
            Some(l) => rest.push(l),
            None => rest,
        }
    }
}

/// The saved lists a page shows.
pub open spec fn wishlists_of(html: Seq<char>) -> Seq<ListView> {
    let elements = document_elements_of(html, LIST_ROWS@, seq!["data-wishlist-id"@, "id"@]);
    lists_in(
        elements,
        document_texts_in_of(html, LIST_ROWS@, seq![".wishlist-title, .wishlist-name, h2, h3"@]),
        document_rows_of(html, LIST_ROWS@, ITEM_ROWS@, seq![".product-title, .product-name, a"@, ".product-price, .price"@]),
        document_row_attrs_of(html, LIST_ROWS@, ITEM_ROWS@, "a"@, seq!["href"@]),
        elements.len() as int,
    )
}

/// The products of one list.
fn items(rows: &Vec<Vec<Vec<String>>>, links: &Vec<Vec<Vec<Option<String>>>>) -> (r: Vec<WishlistItem>)
    ensures
        r@.map_values(|i: WishlistItem| item_view(i)) == items_in(texts3(rows@), opts3(links@), rows@.len() as int),
{
    let ghost rs = texts3(rows@);
    let ghost ls = opts3(links@);
    let mut out: Vec<WishlistItem> = Vec::new();
    let mut i: usize = 0;
    assert(out@.map_values(|i: WishlistItem| item_view(i)) =~= items_in(rs, ls, 0));
    while i < rows.len()
        invariant
            i <= rows.len(),
            rs == texts3(rows@),
            ls == opts3(links@),
            rs.len() == rows@.len(),
            out@.map_values(|i: WishlistItem| item_view(i)) == items_in(rs, ls, i as int),
        decreases rows.len() - i,
    {
        assert(rs[i as int] == texts2(rows@[i as int]@));
        let l = matches_in(links, i);
        let url = first_attr_of(&l, 0);
        let sku = match &url {
            Some(u) => sku_from_url(u.as_str()),
            None => None,
        };
        let names = texts_in(&rows[i], 0);
        let prices = texts_in(&rows[i], 1);
        let item = WishlistItem { sku, name: first_filled(&names), url, price: first_filled(&prices) };
        let ghost before = out@;
        out.push(item);
        assert(out@.map_values(|i: WishlistItem| item_view(i)) =~= before.map_values(
            |i: WishlistItem| item_view(i),
        ).push(item_view(item)));
        i += 1;
    }
    out
}

/// The saved lists, from the lists page. The empty state is the one that
/// was seen; the populated selectors are read off the template's class
/// names.
pub fn wishlists(html: &str) -> (r: Vec<Wishlist>)
    ensures
        r@.map_values(|w: Wishlist| list_view(w)) == wishlists_of(html@),
{
    let own: [&str; 2] = ["data-wishlist-id", "id"];
    let name_sel: [&str; 1] = [".wishlist-title, .wishlist-name, h2, h3"];
    let item_sel: [&str; 2] = [".product-title, .product-name, a", ".product-price, .price"];
    let link_attr: [&str; 1] = ["href"];
    proof {
        reveal_strlit("data-wishlist-id");
        reveal_strlit("id");
        reveal_strlit(".wishlist-title, .wishlist-name, h2, h3");
        reveal_strlit(".product-title, .product-name, a");
        reveal_strlit(".product-price, .price");
        reveal_strlit("href");
        reveal_strlit("a");
        reveal_strlit("preferred");
        reveal_strlit("public");
        assert(str_views(own@) =~= seq!["data-wishlist-id"@, "id"@]);
        assert(str_views(name_sel@) =~= seq![".wishlist-title, .wishlist-name, h2, h3"@]);
        assert(str_views(item_sel@) =~= seq![".product-title, .product-name, a"@, ".product-price, .price"@]);
        assert(str_views(link_attr@) =~= seq!["href"@]);
    }
    let elements = document_elements(html, LIST_ROWS, &own);
    let names = document_texts_in(html, LIST_ROWS, &name_sel);
    let rows = document_rows(html, LIST_ROWS, ITEM_ROWS, &item_sel);
    let links = document_row_attrs(html, LIST_ROWS, ITEM_ROWS, "a", &link_attr);
    let ghost es = elements_view(elements@);
    let ghost ns = texts3(names@);
    let ghost rs = texts4(rows@);
    let ghost ls = opts4(links@);
    let preferred = chars_of("preferred");
    let public = chars_of("public");
    let mut out: Vec<Wishlist> = Vec::new();
    let mut i: usize = 0;
    assert(out@.map_values(|w: Wishlist| list_view(w)) =~= lists_in(es, ns, rs, ls, 0));
    while i < elements.len()
        invariant
            i <= elements.len(),
            es == elements_view(elements@),
            ns == texts3(names@),
            rs == texts4(rows@),
            ls == opts4(links@),
            es.len() == elements@.len(),
            ns.len() == names@.len(),
            rs.len() == rows@.len(),
            ls.len() == links@.len(),
            preferred@ == "preferred"@,
            public@ == "public"@,
            out@.map_values(|w: Wishlist| list_view(w)) == lists_in(es, ns, rs, ls, i as int),
        decreases elements.len() - i,
    {
        assert(es[i as int] == (opts(elements@[i as int].0@), elements@[i as int].1@));
        let nm: Vec<Vec<String>> = if i < names.len() {
            assert(ns[i as int] == texts2(names@[i as int]@));
            names[i].clone()
        } else {
            let v: Vec<Vec<String>> = Vec::new();
            assert(texts2(v@) =~= Seq::<Seq<Seq<char>>>::empty());
            v
        };
        let titles = texts_in(&nm, 0);
        match first_filled(&titles) {
            Some(name) => {
                let own_attrs = &elements[i].0;
                let id = match attr_of(own_attrs, 0) {
                    Some(x) => Some(x),
                    None => attr_of(own_attrs, 1),
                };
                let markup = chars_of(elements[i].1.as_str());
                let no_rows: Vec<Vec<Vec<String>>> = Vec::new();
                let no_links: Vec<Vec<Vec<Option<String>>>> = Vec::new();
                let rw: &Vec<Vec<Vec<String>>> = if i < rows.len() {
                    &rows[i]
                } else {
                    &no_rows
                };
                let lk: &Vec<Vec<Vec<Option<String>>>> = if i < links.len() {
                    &links[i]
                } else {
                    &no_links
                };
                proof {
                    if (i as int) < rows@.len() {
                        assert(rs[i as int] == texts3(rows@[i as int]@));
                    } else {
                        assert(texts3(rw@) =~= Seq::<Seq<Seq<Seq<char>>>>::empty());
                    }
                    if (i as int) < links@.len() {
                        assert(ls[i as int] == opts3(links@[i as int]@));
                    } else {
                        assert(opts3(lk@) =~= Seq::<Seq<Seq<Option<Seq<char>>>>>::empty());
                    }
                }
                let its = items(rw, lk);
                let w = Wishlist {
                    id,
                    name,
                    preferred: contains_exec(&markup, &preferred),
                    public: contains_exec(&markup, &public),
                    items: its,
                };
                let ghost before = out@;
                out.push(w);
                assert(out@.map_values(|w: Wishlist| list_view(w)) =~= before.map_values(
                    |w: Wishlist| list_view(w),
                ).push(list_view(w)));
            },
            None => {},
        }
        i += 1;
    }
    out
}

} // verus!
