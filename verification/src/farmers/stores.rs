//! Where a store can be.
//!
//! Per-store stock is asked for one region at a time: the endpoint takes a
//! `State` code and answers only that region's stores. The list is fixed --
//! it is New Zealand's regions -- so it is written here rather than
//! discovered.

use vstd::prelude::*;
use crate::text::{
    chars_of, eq_ignore_case, is_ascii_alnum, lower, lower_char, lower_char_exec, same,
    same_ignore_case, strip_end, strip_start, trim, trim_exec, ws_pred,
};

verus! {

/// The region codes the storefront's store finder accepts, with the names it
/// shows for them, north to south as the site's own dropdown is. There are
/// thirteen: `Tasman`, `Marlborough` and `West Coast` have no Farmers stores
/// and the storefront does not offer them.
pub const REGIONS: [(&'static str, &'static str); 13] = [
    ("NTL", "Northland"),
    ("AUK", "Auckland"),
    ("WKO", "Waikato"),
    ("BOP", "Bay of Plenty"),
    ("GIS", "Gisborne"),
    ("TKI", "Taranaki"),
    ("MWT", "Manawatū-Whanganui"),
    ("HKB", "Hawke's Bay"),
    ("WGN", "Wellington"),
    ("NSN", "Nelson"),
    ("CAN", "Canterbury"),
    ("OTA", "Otago"),
    ("STL", "Southland"),
];

/// The regions as characters.
pub open spec fn regions() -> Seq<(Seq<char>, Seq<char>)> {
    REGIONS@.map_values(|r: (&'static str, &'static str)| (r.0@, r.1@))
}

/// A macron folded to its base letter; any other character as it is.
pub open spec fn fold_char(c: char) -> char {
    if c == 'ū' || c == 'Ū' {
        'u'
    } else if c == 'ā' || c == 'Ā' {
        'a'
    } else if c == 'ī' || c == 'Ī' {
        'i'
    } else if c == 'ō' || c == 'Ō' {
        'o'
    } else if c == 'ē' || c == 'Ē' {
        'e'
    } else {
        c
    }
}

/// Letters and digits only, lowercased, with macrons folded to their base
/// letter: `Hawke's Bay`, `hawkes bay` and `HAWKESBAY` reduce to one string,
/// and so do `Manawatū` and `Manawatu`.
pub open spec fn squash(s: Seq<char>) -> Seq<char>
    decreases s.len(),
{
    if s.len() == 0 {
        Seq::empty()
    } else {
        let c = fold_char(s.last());
        squash(s.drop_last()) + if is_ascii_alnum(c) {
            seq![lower_char(c)]
        } else {
            Seq::empty()
        }
    }
}

/// Whether region `i` answers to a squashed input, by code or by name.
pub open spec fn answers(i: int, wanted: Seq<char>) -> bool {
    squash(regions()[i].0) == wanted || squash(regions()[i].1) == wanted
}

/// The first region from `i` on answering to `wanted`.
pub open spec fn first_answering(wanted: Seq<char>, i: int) -> Option<int>
    decreases 13 - i,
{
    if i >= 13 || i < 0 {
        None
    } else if answers(i, wanted) {
        Some(i)
    } else {
        first_answering(wanted, i + 1)
    }
}

/// Which region an input names, if any: none for an input with no letters
/// or digits.
pub open spec fn region_index(input: Seq<char>) -> Option<int> {
    if squash(input).len() == 0 {
        None
    } else {
        first_answering(squash(input), 0)
    }
}

/// The first region from `i` on whose code is `code`, ignoring ASCII case.
pub open spec fn first_coded(code: Seq<char>, i: int) -> Option<int>
    decreases 13 - i,
{
    if i >= 13 || i < 0 {
        None
    } else if eq_ignore_case(regions()[i].0, code) {
        Some(i)
    } else {
        first_coded(code, i + 1)
    }
}

/// The macron-folding of one character.
fn fold_char_exec(c: char) -> (r: char)
    ensures
        r == fold_char(c),
{
    if c == 'ū' || c == 'Ū' {
        'u'
    } else if c == 'ā' || c == 'Ā' {
        'a'
    } else if c == 'ī' || c == 'Ī' {
        'i'
    } else if c == 'ō' || c == 'Ō' {
        'o'
    } else if c == 'ē' || c == 'Ē' {
        'e'
    } else {
        c
    }
}

/// What [`squash`] makes of a string.
fn squash_exec(text: &str) -> (r: Vec<char>)
    ensures
        r@ == squash(text@),
{
    let cs = chars_of(text);
    let mut r: Vec<char> = Vec::new();
    let mut i: usize = 0;
    while i < cs.len()
        invariant
            i <= cs.len(),
            cs@ == text@,
            r@ == squash(cs@.take(i as int)),
        decreases cs.len() - i,
    {
        proof {
            assert(cs@.take(i + 1).drop_last() =~= cs@.take(i as int));
            assert(cs@.take(i + 1).last() == cs@[i as int]);
        }
        let c = fold_char_exec(cs[i]);
        if ('a' <= c && c <= 'z') || ('A' <= c && c <= 'Z') || ('0' <= c && c <= '9') {
            let l = lower_char_exec(c);
            r.push(l);
            assert(r@ =~= squash(cs@.take(i + 1)));
        } else {
            assert(r@ =~= squash(cs@.take(i + 1)));
        }
        i += 1;
    }
    assert(cs@.take(cs.len() as int) =~= cs@);
    r
}

/// Where a region's code is, by position, ignoring ASCII case and the
/// whitespace around the code asked for.
fn find_code(code: &str) -> (r: Option<usize>)
    ensures
        r matches Some(i) ==> i < 13 && first_coded(trim(code@), 0) == Some(i as int),
        r is None ==> first_coded(trim(code@), 0) is None,
{
    let cs = chars_of(code);
    let wanted = trim_exec(&cs);
    let mut i: usize = 0;
    while i < 13
        invariant
            i <= 13,
            wanted@ == trim(code@),
            first_coded(wanted@, 0) == first_coded(wanted@, i as int),
        decreases 13 - i,
    {
        let c = chars_of(REGIONS[i].0);
        proof {
            assert(regions()[i as int].0 == REGIONS@[i as int].0@);
        }
        if same_ignore_case(&c, &wanted) {
            return Some(i);
        }
        i += 1;
    }
    None
}

/// Whether a code is one the store finder knows.
pub fn is_region(code: &str) -> (r: bool)
    ensures
        r == (first_coded(trim(code@), 0) is Some),
{
    find_code(code).is_some()
}

/// A region by code or by name, however it was typed: loose on case and on
/// the punctuation in `Hawke's Bay` and `Manawatū-Whanganui`.
pub fn region(input: &str) -> (r: Option<&'static str>)
    ensures
        r matches Some(c) ==> region_index(input@) matches Some(i) && c@ == regions()[i].0,
        r is None ==> region_index(input@) is None,
{
    let wanted = squash_exec(input);
    if wanted.len() == 0 {
        return None;
    }
    let mut i: usize = 0;
    while i < 13
        invariant
            i <= 13,
            wanted@ == squash(input@),
            wanted@.len() > 0,
            first_answering(wanted@, 0) == first_answering(wanted@, i as int),
        decreases 13 - i,
    {
        let code = squash_exec(REGIONS[i].0);
        let name = squash_exec(REGIONS[i].1);
        proof {
            assert(regions()[i as int] == (REGIONS@[i as int].0@, REGIONS@[i as int].1@));
        }
        if same(&code, &wanted) || same(&name, &wanted) {
            return Some(REGIONS[i].0);
        }
        i += 1;
    }
    None
}

/// The name shown for a code.
pub fn region_name(code: &str) -> (r: Option<&'static str>)
    ensures
        r matches Some(n) ==> first_coded(trim(code@), 0) matches Some(i) && n@ == regions()[i].1,
        r is None ==> first_coded(trim(code@), 0) is None,
{
    match find_code(code) {
        Some(i) => {
            proof {
                assert(regions()[i as int].1 == REGIONS@[i as int].1@);
            }
            Some(REGIONS[i].1)
        },
        None => None,
    }
}

/// A region is found from anything that squashes the same way: case,
/// spacing, punctuation and macrons never decide.
pub proof fn lemma_region_reads_only_letters_and_digits(a: Seq<char>, b: Seq<char>)
    requires
        squash(a) == squash(b),
    ensures
        region_index(a) == region_index(b),
{
}

/// What each region's code and name squash to.
proof fn lemma_region_squashes()
    ensures
        squash("NTL"@) == "ntl"@,
        squash("Northland"@) == "northland"@,
        squash("AUK"@) == "auk"@,
        squash("Auckland"@) == "auckland"@,
        squash("WKO"@) == "wko"@,
        squash("Waikato"@) == "waikato"@,
        squash("BOP"@) == "bop"@,
        squash("Bay of Plenty"@) == "bayofplenty"@,
        squash("GIS"@) == "gis"@,
        squash("Gisborne"@) == "gisborne"@,
        squash("TKI"@) == "tki"@,
        squash("Taranaki"@) == "taranaki"@,
        squash("MWT"@) == "mwt"@,
        squash("Manawatū-Whanganui"@) == "manawatuwhanganui"@,
        squash("HKB"@) == "hkb"@,
        squash("Hawke's Bay"@) == "hawkesbay"@,
        squash("WGN"@) == "wgn"@,
        squash("Wellington"@) == "wellington"@,
        squash("NSN"@) == "nsn"@,
        squash("Nelson"@) == "nelson"@,
        squash("CAN"@) == "can"@,
        squash("Canterbury"@) == "canterbury"@,
        squash("OTA"@) == "ota"@,
        squash("Otago"@) == "otago"@,
        squash("STL"@) == "stl"@,
        squash("Southland"@) == "southland"@,
{
    reveal_strlit("AUK");
    reveal_strlit("Auckland");
    reveal_strlit("BOP");
    reveal_strlit("Bay of Plenty");
    reveal_strlit("CAN");
    reveal_strlit("Canterbury");
    reveal_strlit("GIS");
    reveal_strlit("Gisborne");
    reveal_strlit("HKB");
    reveal_strlit("Hawke's Bay");
    reveal_strlit("MWT");
    reveal_strlit("Manawatū-Whanganui");
    reveal_strlit("NSN");
    reveal_strlit("NTL");
    reveal_strlit("Nelson");
    reveal_strlit("Northland");
    reveal_strlit("OTA");
    reveal_strlit("Otago");
    reveal_strlit("STL");
    reveal_strlit("Southland");
    reveal_strlit("TKI");
    reveal_strlit("Taranaki");
    reveal_strlit("WGN");
    reveal_strlit("WKO");
    reveal_strlit("Waikato");
    reveal_strlit("Wellington");
    reveal_strlit("auckland");
    reveal_strlit("auk");
    reveal_strlit("bayofplenty");
    reveal_strlit("bop");
    reveal_strlit("can");
    reveal_strlit("canterbury");
    reveal_strlit("gis");
    reveal_strlit("gisborne");
    reveal_strlit("hawkesbay");
    reveal_strlit("hkb");
    reveal_strlit("manawatuwhanganui");
    reveal_strlit("mwt");
    reveal_strlit("nelson");
    reveal_strlit("northland");
    reveal_strlit("nsn");
    reveal_strlit("ntl");
    reveal_strlit("ota");
    reveal_strlit("otago");
    reveal_strlit("southland");
    reveal_strlit("stl");
    reveal_strlit("taranaki");
    reveal_strlit("tki");
    reveal_strlit("waikato");
    reveal_strlit("wellington");
    reveal_strlit("wgn");
    reveal_strlit("wko");
    assert(squash("NTL"@) =~= "ntl"@) by {
        reveal_with_fuel(squash, 4);
    }
    assert(squash("Northland"@) =~= "northland"@) by {
        reveal_with_fuel(squash, 10);
    }
    assert(squash("AUK"@) =~= "auk"@) by {
        reveal_with_fuel(squash, 4);
    }
    assert(squash("Auckland"@) =~= "auckland"@) by {
        reveal_with_fuel(squash, 9);
    }
    assert(squash("WKO"@) =~= "wko"@) by {
        reveal_with_fuel(squash, 4);
    }
    assert(squash("Waikato"@) =~= "waikato"@) by {
        reveal_with_fuel(squash, 8);
    }
    assert(squash("BOP"@) =~= "bop"@) by {
        reveal_with_fuel(squash, 4);
    }
    assert(squash("Bay of Plenty"@) =~= "bayofplenty"@) by {
        reveal_with_fuel(squash, 14);
    }
    assert(squash("GIS"@) =~= "gis"@) by {
        reveal_with_fuel(squash, 4);
    }
    assert(squash("Gisborne"@) =~= "gisborne"@) by {
        reveal_with_fuel(squash, 9);
    }
    assert(squash("TKI"@) =~= "tki"@) by {
        reveal_with_fuel(squash, 4);
    }
    assert(squash("Taranaki"@) =~= "taranaki"@) by {
        reveal_with_fuel(squash, 9);
    }
    assert(squash("MWT"@) =~= "mwt"@) by {
        reveal_with_fuel(squash, 4);
    }
    assert(squash("Manawatū-Whanganui"@) =~= "manawatuwhanganui"@) by {
        reveal_with_fuel(squash, 19);
    }
    assert(squash("HKB"@) =~= "hkb"@) by {
        reveal_with_fuel(squash, 4);
    }
    assert(squash("Hawke's Bay"@) =~= "hawkesbay"@) by {
        reveal_with_fuel(squash, 12);
    }
    assert(squash("WGN"@) =~= "wgn"@) by {
        reveal_with_fuel(squash, 4);
    }
    assert(squash("Wellington"@) =~= "wellington"@) by {
        reveal_with_fuel(squash, 11);
    }
    assert(squash("NSN"@) =~= "nsn"@) by {
        reveal_with_fuel(squash, 4);
    }
    assert(squash("Nelson"@) =~= "nelson"@) by {
        reveal_with_fuel(squash, 7);
    }
    assert(squash("CAN"@) =~= "can"@) by {
        reveal_with_fuel(squash, 4);
    }
    assert(squash("Canterbury"@) =~= "canterbury"@) by {
        reveal_with_fuel(squash, 11);
    }
    assert(squash("OTA"@) =~= "ota"@) by {
        reveal_with_fuel(squash, 4);
    }
    assert(squash("Otago"@) =~= "otago"@) by {
        reveal_with_fuel(squash, 6);
    }
    assert(squash("STL"@) =~= "stl"@) by {
        reveal_with_fuel(squash, 4);
    }
    assert(squash("Southland"@) =~= "southland"@) by {
        reveal_with_fuel(squash, 10);
    }
}

/// The first region answering is the one before which none does.
proof fn lemma_first_answering_is(wanted: Seq<char>, k: int, i: int)
    requires
        0 <= i <= k < 13,
        answers(k, wanted),
        forall|j: int| i <= j < k ==> !#[trigger] answers(j, wanted),
    ensures
        first_answering(wanted, i) == Some(k),
    decreases k - i,
{
    if i < k {
        lemma_first_answering_is(wanted, k, i + 1);
    }
}

/// What each region's code and name squash to, by position.
proof fn lemma_regions_squash()
    ensures
        squash(regions()[0].0) == "ntl"@,
        squash(regions()[0].1) == "northland"@,
        squash(regions()[1].0) == "auk"@,
        squash(regions()[1].1) == "auckland"@,
        squash(regions()[2].0) == "wko"@,
        squash(regions()[2].1) == "waikato"@,
        squash(regions()[3].0) == "bop"@,
        squash(regions()[3].1) == "bayofplenty"@,
        squash(regions()[4].0) == "gis"@,
        squash(regions()[4].1) == "gisborne"@,
        squash(regions()[5].0) == "tki"@,
        squash(regions()[5].1) == "taranaki"@,
        squash(regions()[6].0) == "mwt"@,
        squash(regions()[6].1) == "manawatuwhanganui"@,
        squash(regions()[7].0) == "hkb"@,
        squash(regions()[7].1) == "hawkesbay"@,
        squash(regions()[8].0) == "wgn"@,
        squash(regions()[8].1) == "wellington"@,
        squash(regions()[9].0) == "nsn"@,
        squash(regions()[9].1) == "nelson"@,
        squash(regions()[10].0) == "can"@,
        squash(regions()[10].1) == "canterbury"@,
        squash(regions()[11].0) == "ota"@,
        squash(regions()[11].1) == "otago"@,
        squash(regions()[12].0) == "stl"@,
        squash(regions()[12].1) == "southland"@,
{
    lemma_region_squashes();
    assert(regions()[0] == ("NTL"@, "Northland"@));
    assert(regions()[1] == ("AUK"@, "Auckland"@));
    assert(regions()[2] == ("WKO"@, "Waikato"@));
    assert(regions()[3] == ("BOP"@, "Bay of Plenty"@));
    assert(regions()[4] == ("GIS"@, "Gisborne"@));
    assert(regions()[5] == ("TKI"@, "Taranaki"@));
    assert(regions()[6] == ("MWT"@, "Manawatū-Whanganui"@));
    assert(regions()[7] == ("HKB"@, "Hawke's Bay"@));
    assert(regions()[8] == ("WGN"@, "Wellington"@));
    assert(regions()[9] == ("NSN"@, "Nelson"@));
    assert(regions()[10] == ("CAN"@, "Canterbury"@));
    assert(regions()[11] == ("OTA"@, "Otago"@));
    assert(regions()[12] == ("STL"@, "Southland"@));
}

/// Each region is found again by its own code and by its own name.
proof fn lemma_region_found_by_either(i: int)
    requires
        0 <= i < 13,
    ensures
        region_index(regions()[i].0) == Some(i),
        region_index(regions()[i].1) == Some(i),
{
    lemma_regions_squash();
    reveal_strlit("AUK");
    reveal_strlit("Auckland");
    reveal_strlit("BOP");
    reveal_strlit("Bay of Plenty");
    reveal_strlit("CAN");
    reveal_strlit("Canterbury");
    reveal_strlit("GIS");
    reveal_strlit("Gisborne");
    reveal_strlit("HKB");
    reveal_strlit("Hawke's Bay");
    reveal_strlit("MWT");
    reveal_strlit("Manawatū-Whanganui");
    reveal_strlit("NSN");
    reveal_strlit("NTL");
    reveal_strlit("Nelson");
    reveal_strlit("Northland");
    reveal_strlit("OTA");
    reveal_strlit("Otago");
    reveal_strlit("STL");
    reveal_strlit("Southland");
    reveal_strlit("TKI");
    reveal_strlit("Taranaki");
    reveal_strlit("WGN");
    reveal_strlit("WKO");
    reveal_strlit("Waikato");
    reveal_strlit("Wellington");
    reveal_strlit("auckland");
    reveal_strlit("auk");
    reveal_strlit("bayofplenty");
    reveal_strlit("bop");
    reveal_strlit("can");
    reveal_strlit("canterbury");
    reveal_strlit("gis");
    reveal_strlit("gisborne");
    reveal_strlit("hawkesbay");
    reveal_strlit("hkb");
    reveal_strlit("manawatuwhanganui");
    reveal_strlit("mwt");
    reveal_strlit("nelson");
    reveal_strlit("northland");
    reveal_strlit("nsn");
    reveal_strlit("ntl");
    reveal_strlit("ota");
    reveal_strlit("otago");
    reveal_strlit("southland");
    reveal_strlit("stl");
    reveal_strlit("taranaki");
    reveal_strlit("tki");
    reveal_strlit("waikato");
    reveal_strlit("wellington");
    reveal_strlit("wgn");
    reveal_strlit("wko");
    if i == 0 {
        lemma_first_answering_is("ntl"@, 0, 0);
        lemma_first_answering_is("northland"@, 0, 0);
    } else if i == 1 {
        assert("ntl"@[0] != "auk"@[0]);
        assert(!answers(0, "auk"@));
        lemma_first_answering_is("auk"@, 1, 0);
        assert(!answers(0, "auckland"@));
        lemma_first_answering_is("auckland"@, 1, 0);
    } else if i == 2 {
        assert("ntl"@[0] != "wko"@[0]);
        assert(!answers(0, "wko"@));
        assert("auk"@[0] != "wko"@[0]);
        assert(!answers(1, "wko"@));
        lemma_first_answering_is("wko"@, 2, 0);
        assert(!answers(0, "waikato"@));
        assert(!answers(1, "waikato"@));
        lemma_first_answering_is("waikato"@, 2, 0);
    } else if i == 3 {
        assert("ntl"@[0] != "bop"@[0]);
        assert(!answers(0, "bop"@));
        assert("auk"@[0] != "bop"@[0]);
        assert(!answers(1, "bop"@));
        assert("wko"@[0] != "bop"@[0]);
        assert(!answers(2, "bop"@));
        lemma_first_answering_is("bop"@, 3, 0);
        assert(!answers(0, "bayofplenty"@));
        assert(!answers(1, "bayofplenty"@));
        assert(!answers(2, "bayofplenty"@));
        lemma_first_answering_is("bayofplenty"@, 3, 0);
    } else if i == 4 {
        assert("ntl"@[0] != "gis"@[0]);
        assert(!answers(0, "gis"@));
        assert("auk"@[0] != "gis"@[0]);
        assert(!answers(1, "gis"@));
        assert("wko"@[0] != "gis"@[0]);
        assert(!answers(2, "gis"@));
        assert("bop"@[0] != "gis"@[0]);
        assert(!answers(3, "gis"@));
        lemma_first_answering_is("gis"@, 4, 0);
        assert(!answers(0, "gisborne"@));
        assert("auckland"@[0] != "gisborne"@[0]);
        assert(!answers(1, "gisborne"@));
        assert(!answers(2, "gisborne"@));
        assert(!answers(3, "gisborne"@));
        lemma_first_answering_is("gisborne"@, 4, 0);
    } else if i == 5 {
        assert("ntl"@[0] != "tki"@[0]);
        assert(!answers(0, "tki"@));
        assert("auk"@[0] != "tki"@[0]);
        assert(!answers(1, "tki"@));
        assert("wko"@[0] != "tki"@[0]);
        assert(!answers(2, "tki"@));
        assert("bop"@[0] != "tki"@[0]);
        assert(!answers(3, "tki"@));
        assert("gis"@[0] != "tki"@[0]);
        assert(!answers(4, "tki"@));
        lemma_first_answering_is("tki"@, 5, 0);
        assert(!answers(0, "taranaki"@));
        assert("auckland"@[0] != "taranaki"@[0]);
        assert(!answers(1, "taranaki"@));
        assert(!answers(2, "taranaki"@));
        assert(!answers(3, "taranaki"@));
        assert("gisborne"@[0] != "taranaki"@[0]);
        assert(!answers(4, "taranaki"@));
        lemma_first_answering_is("taranaki"@, 5, 0);
    } else if i == 6 {
        assert("ntl"@[0] != "mwt"@[0]);
        assert(!answers(0, "mwt"@));
        assert("auk"@[0] != "mwt"@[0]);
        assert(!answers(1, "mwt"@));
        assert("wko"@[0] != "mwt"@[0]);
        assert(!answers(2, "mwt"@));
        assert("bop"@[0] != "mwt"@[0]);
        assert(!answers(3, "mwt"@));
        assert("gis"@[0] != "mwt"@[0]);
        assert(!answers(4, "mwt"@));
        assert("tki"@[0] != "mwt"@[0]);
        assert(!answers(5, "mwt"@));
        lemma_first_answering_is("mwt"@, 6, 0);
        assert(!answers(0, "manawatuwhanganui"@));
        assert(!answers(1, "manawatuwhanganui"@));
        assert(!answers(2, "manawatuwhanganui"@));
        assert(!answers(3, "manawatuwhanganui"@));
        assert(!answers(4, "manawatuwhanganui"@));
        assert(!answers(5, "manawatuwhanganui"@));
        lemma_first_answering_is("manawatuwhanganui"@, 6, 0);
    } else if i == 7 {
        assert("ntl"@[0] != "hkb"@[0]);
        assert(!answers(0, "hkb"@));
        assert("auk"@[0] != "hkb"@[0]);
        assert(!answers(1, "hkb"@));
        assert("wko"@[0] != "hkb"@[0]);
        assert(!answers(2, "hkb"@));
        assert("bop"@[0] != "hkb"@[0]);
        assert(!answers(3, "hkb"@));
        assert("gis"@[0] != "hkb"@[0]);
        assert(!answers(4, "hkb"@));
        assert("tki"@[0] != "hkb"@[0]);
        assert(!answers(5, "hkb"@));
        assert("mwt"@[0] != "hkb"@[0]);
        assert(!answers(6, "hkb"@));
        lemma_first_answering_is("hkb"@, 7, 0);
        assert("northland"@[0] != "hawkesbay"@[0]);
        assert(!answers(0, "hawkesbay"@));
        assert(!answers(1, "hawkesbay"@));
        assert(!answers(2, "hawkesbay"@));
        assert(!answers(3, "hawkesbay"@));
        assert(!answers(4, "hawkesbay"@));
        assert(!answers(5, "hawkesbay"@));
        assert(!answers(6, "hawkesbay"@));
        lemma_first_answering_is("hawkesbay"@, 7, 0);
    } else if i == 8 {
        assert("ntl"@[0] != "wgn"@[0]);
        assert(!answers(0, "wgn"@));
        assert("auk"@[0] != "wgn"@[0]);
        assert(!answers(1, "wgn"@));
        assert("wko"@[1] != "wgn"@[1]);
        assert(!answers(2, "wgn"@));
        assert("bop"@[0] != "wgn"@[0]);
        assert(!answers(3, "wgn"@));
        assert("gis"@[0] != "wgn"@[0]);
        assert(!answers(4, "wgn"@));
        assert("tki"@[0] != "wgn"@[0]);
        assert(!answers(5, "wgn"@));
        assert("mwt"@[0] != "wgn"@[0]);
        assert(!answers(6, "wgn"@));
        assert("hkb"@[0] != "wgn"@[0]);
        assert(!answers(7, "wgn"@));
        lemma_first_answering_is("wgn"@, 8, 0);
        assert(!answers(0, "wellington"@));
        assert(!answers(1, "wellington"@));
        assert(!answers(2, "wellington"@));
        assert(!answers(3, "wellington"@));
        assert(!answers(4, "wellington"@));
        assert(!answers(5, "wellington"@));
        assert(!answers(6, "wellington"@));
        assert(!answers(7, "wellington"@));
        lemma_first_answering_is("wellington"@, 8, 0);
    } else if i == 9 {
        assert("ntl"@[1] != "nsn"@[1]);
        assert(!answers(0, "nsn"@));
        assert("auk"@[0] != "nsn"@[0]);
        assert(!answers(1, "nsn"@));
        assert("wko"@[0] != "nsn"@[0]);
        assert(!answers(2, "nsn"@));
        assert("bop"@[0] != "nsn"@[0]);
        assert(!answers(3, "nsn"@));
        assert("gis"@[0] != "nsn"@[0]);
        assert(!answers(4, "nsn"@));
        assert("tki"@[0] != "nsn"@[0]);
        assert(!answers(5, "nsn"@));
        assert("mwt"@[0] != "nsn"@[0]);
        assert(!answers(6, "nsn"@));
        assert("hkb"@[0] != "nsn"@[0]);
        assert(!answers(7, "nsn"@));
        assert("wgn"@[0] != "nsn"@[0]);
        assert(!answers(8, "nsn"@));
        lemma_first_answering_is("nsn"@, 9, 0);
        assert(!answers(0, "nelson"@));
        assert(!answers(1, "nelson"@));
        assert(!answers(2, "nelson"@));
        assert(!answers(3, "nelson"@));
        assert(!answers(4, "nelson"@));
        assert(!answers(5, "nelson"@));
        assert(!answers(6, "nelson"@));
        assert(!answers(7, "nelson"@));
        assert(!answers(8, "nelson"@));
        lemma_first_answering_is("nelson"@, 9, 0);
    } else if i == 10 {
        assert("ntl"@[0] != "can"@[0]);
        assert(!answers(0, "can"@));
        assert("auk"@[0] != "can"@[0]);
        assert(!answers(1, "can"@));
        assert("wko"@[0] != "can"@[0]);
        assert(!answers(2, "can"@));
        assert("bop"@[0] != "can"@[0]);
        assert(!answers(3, "can"@));
        assert("gis"@[0] != "can"@[0]);
        assert(!answers(4, "can"@));
        assert("tki"@[0] != "can"@[0]);
        assert(!answers(5, "can"@));
        assert("mwt"@[0] != "can"@[0]);
        assert(!answers(6, "can"@));
        assert("hkb"@[0] != "can"@[0]);
        assert(!answers(7, "can"@));
        assert("wgn"@[0] != "can"@[0]);
        assert(!answers(8, "can"@));
        assert("nsn"@[0] != "can"@[0]);
        assert(!answers(9, "can"@));
        lemma_first_answering_is("can"@, 10, 0);
        assert(!answers(0, "canterbury"@));
        assert(!answers(1, "canterbury"@));
        assert(!answers(2, "canterbury"@));
        assert(!answers(3, "canterbury"@));
        assert(!answers(4, "canterbury"@));
        assert(!answers(5, "canterbury"@));
        assert(!answers(6, "canterbury"@));
        assert(!answers(7, "canterbury"@));
        assert("wellington"@[0] != "canterbury"@[0]);
        assert(!answers(8, "canterbury"@));
        assert(!answers(9, "canterbury"@));
        lemma_first_answering_is("canterbury"@, 10, 0);
    } else if i == 11 {
        assert("ntl"@[0] != "ota"@[0]);
        assert(!answers(0, "ota"@));
        assert("auk"@[0] != "ota"@[0]);
        assert(!answers(1, "ota"@));
        assert("wko"@[0] != "ota"@[0]);
        assert(!answers(2, "ota"@));
        assert("bop"@[0] != "ota"@[0]);
        assert(!answers(3, "ota"@));
        assert("gis"@[0] != "ota"@[0]);
        assert(!answers(4, "ota"@));
        assert("tki"@[0] != "ota"@[0]);
        assert(!answers(5, "ota"@));
        assert("mwt"@[0] != "ota"@[0]);
        assert(!answers(6, "ota"@));
        assert("hkb"@[0] != "ota"@[0]);
        assert(!answers(7, "ota"@));
        assert("wgn"@[0] != "ota"@[0]);
        assert(!answers(8, "ota"@));
        assert("nsn"@[0] != "ota"@[0]);
        assert(!answers(9, "ota"@));
        assert("can"@[0] != "ota"@[0]);
        assert(!answers(10, "ota"@));
        lemma_first_answering_is("ota"@, 11, 0);
        assert(!answers(0, "otago"@));
        assert(!answers(1, "otago"@));
        assert(!answers(2, "otago"@));
        assert(!answers(3, "otago"@));
        assert(!answers(4, "otago"@));
        assert(!answers(5, "otago"@));
        assert(!answers(6, "otago"@));
        assert(!answers(7, "otago"@));
        assert(!answers(8, "otago"@));
        assert(!answers(9, "otago"@));
        assert(!answers(10, "otago"@));
        lemma_first_answering_is("otago"@, 11, 0);
    } else if i == 12 {
        assert("ntl"@[0] != "stl"@[0]);
        assert(!answers(0, "stl"@));
        assert("auk"@[0] != "stl"@[0]);
        assert(!answers(1, "stl"@));
        assert("wko"@[0] != "stl"@[0]);
        assert(!answers(2, "stl"@));
        assert("bop"@[0] != "stl"@[0]);
        assert(!answers(3, "stl"@));
        assert("gis"@[0] != "stl"@[0]);
        assert(!answers(4, "stl"@));
        assert("tki"@[0] != "stl"@[0]);
        assert(!answers(5, "stl"@));
        assert("mwt"@[0] != "stl"@[0]);
        assert(!answers(6, "stl"@));
        assert("hkb"@[0] != "stl"@[0]);
        assert(!answers(7, "stl"@));
        assert("wgn"@[0] != "stl"@[0]);
        assert(!answers(8, "stl"@));
        assert("nsn"@[0] != "stl"@[0]);
        assert(!answers(9, "stl"@));
        assert("can"@[0] != "stl"@[0]);
        assert(!answers(10, "stl"@));
        assert("ota"@[0] != "stl"@[0]);
        assert(!answers(11, "stl"@));
        lemma_first_answering_is("stl"@, 12, 0);
        assert("northland"@[0] != "southland"@[0]);
        assert(!answers(0, "southland"@));
        assert(!answers(1, "southland"@));
        assert(!answers(2, "southland"@));
        assert(!answers(3, "southland"@));
        assert(!answers(4, "southland"@));
        assert(!answers(5, "southland"@));
        assert(!answers(6, "southland"@));
        assert("hawkesbay"@[0] != "southland"@[0]);
        assert(!answers(7, "southland"@));
        assert(!answers(8, "southland"@));
        assert(!answers(9, "southland"@));
        assert(!answers(10, "southland"@));
        assert(!answers(11, "southland"@));
        lemma_first_answering_is("southland"@, 12, 0);
    }
}

/// The first region coded as asked is the one before which none is.
proof fn lemma_first_coded_is(code: Seq<char>, k: int, i: int)
    requires
        0 <= i <= k < 13,
        eq_ignore_case(regions()[k].0, code),
        forall|j: int| i <= j < k ==> !#[trigger] eq_ignore_case(regions()[j].0, code),
    ensures
        first_coded(code, i) == Some(k),
    decreases k - i,
{
    if i < k {
        lemma_first_coded_is(code, k, i + 1);
    }
}

/// Each region's code is found again by itself.
proof fn lemma_region_code_found(i: int)
    requires
        0 <= i < 13,
    ensures
        first_coded(trim(regions()[i].0), 0) == Some(i),
{
    reveal_strlit("AUK");
    reveal_strlit("BOP");
    reveal_strlit("CAN");
    reveal_strlit("GIS");
    reveal_strlit("HKB");
    reveal_strlit("MWT");
    reveal_strlit("NSN");
    reveal_strlit("NTL");
    reveal_strlit("OTA");
    reveal_strlit("STL");
    reveal_strlit("TKI");
    reveal_strlit("WGN");
    reveal_strlit("WKO");
    reveal_strlit("auk");
    reveal_strlit("bop");
    reveal_strlit("can");
    reveal_strlit("gis");
    reveal_strlit("hkb");
    reveal_strlit("mwt");
    reveal_strlit("nsn");
    reveal_strlit("ntl");
    reveal_strlit("ota");
    reveal_strlit("stl");
    reveal_strlit("tki");
    reveal_strlit("wgn");
    reveal_strlit("wko");
    assert(regions()[0].0 == "NTL"@);
    assert(lower("NTL"@) =~= "ntl"@);
    assert(regions()[1].0 == "AUK"@);
    assert(lower("AUK"@) =~= "auk"@);
    assert(regions()[2].0 == "WKO"@);
    assert(lower("WKO"@) =~= "wko"@);
    assert(regions()[3].0 == "BOP"@);
    assert(lower("BOP"@) =~= "bop"@);
    assert(regions()[4].0 == "GIS"@);
    assert(lower("GIS"@) =~= "gis"@);
    assert(regions()[5].0 == "TKI"@);
    assert(lower("TKI"@) =~= "tki"@);
    assert(regions()[6].0 == "MWT"@);
    assert(lower("MWT"@) =~= "mwt"@);
    assert(regions()[7].0 == "HKB"@);
    assert(lower("HKB"@) =~= "hkb"@);
    assert(regions()[8].0 == "WGN"@);
    assert(lower("WGN"@) =~= "wgn"@);
    assert(regions()[9].0 == "NSN"@);
    assert(lower("NSN"@) =~= "nsn"@);
    assert(regions()[10].0 == "CAN"@);
    assert(lower("CAN"@) =~= "can"@);
    assert(regions()[11].0 == "OTA"@);
    assert(lower("OTA"@) =~= "ota"@);
    assert(regions()[12].0 == "STL"@);
    assert(lower("STL"@) =~= "stl"@);
    if i == 0 {
        assert(strip_start("NTL"@, ws_pred()) == "NTL"@);
        assert(strip_end("NTL"@, ws_pred()) == "NTL"@);
        lemma_first_coded_is("NTL"@, 0, 0);
    } else if i == 1 {
        assert(strip_start("AUK"@, ws_pred()) == "AUK"@);
        assert(strip_end("AUK"@, ws_pred()) == "AUK"@);
        assert("ntl"@[0] != "auk"@[0]);
        assert(!eq_ignore_case(regions()[0].0, "AUK"@));
        lemma_first_coded_is("AUK"@, 1, 0);
    } else if i == 2 {
        assert(strip_start("WKO"@, ws_pred()) == "WKO"@);
        assert(strip_end("WKO"@, ws_pred()) == "WKO"@);
        assert("ntl"@[0] != "wko"@[0]);
        assert(!eq_ignore_case(regions()[0].0, "WKO"@));
        assert("auk"@[0] != "wko"@[0]);
        assert(!eq_ignore_case(regions()[1].0, "WKO"@));
        lemma_first_coded_is("WKO"@, 2, 0);
    } else if i == 3 {
        assert(strip_start("BOP"@, ws_pred()) == "BOP"@);
        assert(strip_end("BOP"@, ws_pred()) == "BOP"@);
        assert("ntl"@[0] != "bop"@[0]);
        assert(!eq_ignore_case(regions()[0].0, "BOP"@));
        assert("auk"@[0] != "bop"@[0]);
        assert(!eq_ignore_case(regions()[1].0, "BOP"@));
        assert("wko"@[0] != "bop"@[0]);
        assert(!eq_ignore_case(regions()[2].0, "BOP"@));
        lemma_first_coded_is("BOP"@, 3, 0);
    } else if i == 4 {
        assert(strip_start("GIS"@, ws_pred()) == "GIS"@);
        assert(strip_end("GIS"@, ws_pred()) == "GIS"@);
        assert("ntl"@[0] != "gis"@[0]);
        assert(!eq_ignore_case(regions()[0].0, "GIS"@));
        assert("auk"@[0] != "gis"@[0]);
        assert(!eq_ignore_case(regions()[1].0, "GIS"@));
        assert("wko"@[0] != "gis"@[0]);
        assert(!eq_ignore_case(regions()[2].0, "GIS"@));
        assert("bop"@[0] != "gis"@[0]);
        assert(!eq_ignore_case(regions()[3].0, "GIS"@));
        lemma_first_coded_is("GIS"@, 4, 0);
    } else if i == 5 {
        assert(strip_start("TKI"@, ws_pred()) == "TKI"@);
        assert(strip_end("TKI"@, ws_pred()) == "TKI"@);
        assert("ntl"@[0] != "tki"@[0]);
        assert(!eq_ignore_case(regions()[0].0, "TKI"@));
        assert("auk"@[0] != "tki"@[0]);
        assert(!eq_ignore_case(regions()[1].0, "TKI"@));
        assert("wko"@[0] != "tki"@[0]);
        assert(!eq_ignore_case(regions()[2].0, "TKI"@));
        assert("bop"@[0] != "tki"@[0]);
        assert(!eq_ignore_case(regions()[3].0, "TKI"@));
        assert("gis"@[0] != "tki"@[0]);
        assert(!eq_ignore_case(regions()[4].0, "TKI"@));
        lemma_first_coded_is("TKI"@, 5, 0);
    } else if i == 6 {
        assert(strip_start("MWT"@, ws_pred()) == "MWT"@);
        assert(strip_end("MWT"@, ws_pred()) == "MWT"@);
        assert("ntl"@[0] != "mwt"@[0]);
        assert(!eq_ignore_case(regions()[0].0, "MWT"@));
        assert("auk"@[0] != "mwt"@[0]);
        assert(!eq_ignore_case(regions()[1].0, "MWT"@));
        assert("wko"@[0] != "mwt"@[0]);
        assert(!eq_ignore_case(regions()[2].0, "MWT"@));
        assert("bop"@[0] != "mwt"@[0]);
        assert(!eq_ignore_case(regions()[3].0, "MWT"@));
        assert("gis"@[0] != "mwt"@[0]);
        assert(!eq_ignore_case(regions()[4].0, "MWT"@));
        assert("tki"@[0] != "mwt"@[0]);
        assert(!eq_ignore_case(regions()[5].0, "MWT"@));
        lemma_first_coded_is("MWT"@, 6, 0);
    } else if i == 7 {
        assert(strip_start("HKB"@, ws_pred()) == "HKB"@);
        assert(strip_end("HKB"@, ws_pred()) == "HKB"@);
        assert("ntl"@[0] != "hkb"@[0]);
        assert(!eq_ignore_case(regions()[0].0, "HKB"@));
        assert("auk"@[0] != "hkb"@[0]);
        assert(!eq_ignore_case(regions()[1].0, "HKB"@));
        assert("wko"@[0] != "hkb"@[0]);
        assert(!eq_ignore_case(regions()[2].0, "HKB"@));
        assert("bop"@[0] != "hkb"@[0]);
        assert(!eq_ignore_case(regions()[3].0, "HKB"@));
        assert("gis"@[0] != "hkb"@[0]);
        assert(!eq_ignore_case(regions()[4].0, "HKB"@));
        assert("tki"@[0] != "hkb"@[0]);
        assert(!eq_ignore_case(regions()[5].0, "HKB"@));
        assert("mwt"@[0] != "hkb"@[0]);
        assert(!eq_ignore_case(regions()[6].0, "HKB"@));
        lemma_first_coded_is("HKB"@, 7, 0);
    } else if i == 8 {
        assert(strip_start("WGN"@, ws_pred()) == "WGN"@);
        assert(strip_end("WGN"@, ws_pred()) == "WGN"@);
        assert("ntl"@[0] != "wgn"@[0]);
        assert(!eq_ignore_case(regions()[0].0, "WGN"@));
        assert("auk"@[0] != "wgn"@[0]);
        assert(!eq_ignore_case(regions()[1].0, "WGN"@));
        assert("wko"@[1] != "wgn"@[1]);
        assert(!eq_ignore_case(regions()[2].0, "WGN"@));
        assert("bop"@[0] != "wgn"@[0]);
        assert(!eq_ignore_case(regions()[3].0, "WGN"@));
        assert("gis"@[0] != "wgn"@[0]);
        assert(!eq_ignore_case(regions()[4].0, "WGN"@));
        assert("tki"@[0] != "wgn"@[0]);
        assert(!eq_ignore_case(regions()[5].0, "WGN"@));
        assert("mwt"@[0] != "wgn"@[0]);
        assert(!eq_ignore_case(regions()[6].0, "WGN"@));
        assert("hkb"@[0] != "wgn"@[0]);
        assert(!eq_ignore_case(regions()[7].0, "WGN"@));
        lemma_first_coded_is("WGN"@, 8, 0);
    } else if i == 9 {
        assert(strip_start("NSN"@, ws_pred()) == "NSN"@);
        assert(strip_end("NSN"@, ws_pred()) == "NSN"@);
        assert("ntl"@[1] != "nsn"@[1]);
        assert(!eq_ignore_case(regions()[0].0, "NSN"@));
        assert("auk"@[0] != "nsn"@[0]);
        assert(!eq_ignore_case(regions()[1].0, "NSN"@));
        assert("wko"@[0] != "nsn"@[0]);
        assert(!eq_ignore_case(regions()[2].0, "NSN"@));
        assert("bop"@[0] != "nsn"@[0]);
        assert(!eq_ignore_case(regions()[3].0, "NSN"@));
        assert("gis"@[0] != "nsn"@[0]);
        assert(!eq_ignore_case(regions()[4].0, "NSN"@));
        assert("tki"@[0] != "nsn"@[0]);
        assert(!eq_ignore_case(regions()[5].0, "NSN"@));
        assert("mwt"@[0] != "nsn"@[0]);
        assert(!eq_ignore_case(regions()[6].0, "NSN"@));
        assert("hkb"@[0] != "nsn"@[0]);
        assert(!eq_ignore_case(regions()[7].0, "NSN"@));
        assert("wgn"@[0] != "nsn"@[0]);
        assert(!eq_ignore_case(regions()[8].0, "NSN"@));
        lemma_first_coded_is("NSN"@, 9, 0);
    } else if i == 10 {
        assert(strip_start("CAN"@, ws_pred()) == "CAN"@);
        assert(strip_end("CAN"@, ws_pred()) == "CAN"@);
        assert("ntl"@[0] != "can"@[0]);
        assert(!eq_ignore_case(regions()[0].0, "CAN"@));
        assert("auk"@[0] != "can"@[0]);
        assert(!eq_ignore_case(regions()[1].0, "CAN"@));
        assert("wko"@[0] != "can"@[0]);
        assert(!eq_ignore_case(regions()[2].0, "CAN"@));
        assert("bop"@[0] != "can"@[0]);
        assert(!eq_ignore_case(regions()[3].0, "CAN"@));
        assert("gis"@[0] != "can"@[0]);
        assert(!eq_ignore_case(regions()[4].0, "CAN"@));
        assert("tki"@[0] != "can"@[0]);
        assert(!eq_ignore_case(regions()[5].0, "CAN"@));
        assert("mwt"@[0] != "can"@[0]);
        assert(!eq_ignore_case(regions()[6].0, "CAN"@));
        assert("hkb"@[0] != "can"@[0]);
        assert(!eq_ignore_case(regions()[7].0, "CAN"@));
        assert("wgn"@[0] != "can"@[0]);
        assert(!eq_ignore_case(regions()[8].0, "CAN"@));
        assert("nsn"@[0] != "can"@[0]);
        assert(!eq_ignore_case(regions()[9].0, "CAN"@));
        lemma_first_coded_is("CAN"@, 10, 0);
    } else if i == 11 {
        assert(strip_start("OTA"@, ws_pred()) == "OTA"@);
        assert(strip_end("OTA"@, ws_pred()) == "OTA"@);
        assert("ntl"@[0] != "ota"@[0]);
        assert(!eq_ignore_case(regions()[0].0, "OTA"@));
        assert("auk"@[0] != "ota"@[0]);
        assert(!eq_ignore_case(regions()[1].0, "OTA"@));
        assert("wko"@[0] != "ota"@[0]);
        assert(!eq_ignore_case(regions()[2].0, "OTA"@));
        assert("bop"@[0] != "ota"@[0]);
        assert(!eq_ignore_case(regions()[3].0, "OTA"@));
        assert("gis"@[0] != "ota"@[0]);
        assert(!eq_ignore_case(regions()[4].0, "OTA"@));
        assert("tki"@[0] != "ota"@[0]);
        assert(!eq_ignore_case(regions()[5].0, "OTA"@));
        assert("mwt"@[0] != "ota"@[0]);
        assert(!eq_ignore_case(regions()[6].0, "OTA"@));
        assert("hkb"@[0] != "ota"@[0]);
        assert(!eq_ignore_case(regions()[7].0, "OTA"@));
        assert("wgn"@[0] != "ota"@[0]);
        assert(!eq_ignore_case(regions()[8].0, "OTA"@));
        assert("nsn"@[0] != "ota"@[0]);
        assert(!eq_ignore_case(regions()[9].0, "OTA"@));
        assert("can"@[0] != "ota"@[0]);
        assert(!eq_ignore_case(regions()[10].0, "OTA"@));
        lemma_first_coded_is("OTA"@, 11, 0);
    } else if i == 12 {
        assert(strip_start("STL"@, ws_pred()) == "STL"@);
        assert(strip_end("STL"@, ws_pred()) == "STL"@);
        assert("ntl"@[0] != "stl"@[0]);
        assert(!eq_ignore_case(regions()[0].0, "STL"@));
        assert("auk"@[0] != "stl"@[0]);
        assert(!eq_ignore_case(regions()[1].0, "STL"@));
        assert("wko"@[0] != "stl"@[0]);
        assert(!eq_ignore_case(regions()[2].0, "STL"@));
        assert("bop"@[0] != "stl"@[0]);
        assert(!eq_ignore_case(regions()[3].0, "STL"@));
        assert("gis"@[0] != "stl"@[0]);
        assert(!eq_ignore_case(regions()[4].0, "STL"@));
        assert("tki"@[0] != "stl"@[0]);
        assert(!eq_ignore_case(regions()[5].0, "STL"@));
        assert("mwt"@[0] != "stl"@[0]);
        assert(!eq_ignore_case(regions()[6].0, "STL"@));
        assert("hkb"@[0] != "stl"@[0]);
        assert(!eq_ignore_case(regions()[7].0, "STL"@));
        assert("wgn"@[0] != "stl"@[0]);
        assert(!eq_ignore_case(regions()[8].0, "STL"@));
        assert("nsn"@[0] != "stl"@[0]);
        assert(!eq_ignore_case(regions()[9].0, "STL"@));
        assert("can"@[0] != "stl"@[0]);
        assert(!eq_ignore_case(regions()[10].0, "STL"@));
        assert("ota"@[0] != "stl"@[0]);
        assert(!eq_ignore_case(regions()[11].0, "STL"@));
        lemma_first_coded_is("STL"@, 12, 0);
    }
}

/// Every region round-trips: its code and its name both find it, and its
/// code finds it among the codes, so the lookups give back its code and its
/// name.
pub proof fn lemma_regions_round_trip(i: int)
    requires
        0 <= i < 13,
    ensures
        region_index(regions()[i].0) == Some(i),
        region_index(regions()[i].1) == Some(i),
        first_coded(trim(regions()[i].0), 0) == Some(i),
{
    lemma_region_found_by_either(i);
    lemma_region_code_found(i);
}

/// No region from `i` on answers where none does.
proof fn lemma_no_region_answers(wanted: Seq<char>, i: int)
    requires
        0 <= i <= 13,
        forall|j: int| i <= j < 13 ==> !#[trigger] answers(j, wanted),
    ensures
        first_answering(wanted, i) is None,
    decreases 13 - i,
{
    if i < 13 {
        lemma_no_region_answers(wanted, i + 1);
    }
}

/// What the loosely typed names squash to.
proof fn lemma_loose_squashes()
    ensures
        squash("hawkes bay"@) == "hawkesbay"@,
        squash("manawatu whanganui"@) == "manawatuwhanganui"@,
        squash("Tasman"@) == "tasman"@,
{
    reveal_strlit("hawkes bay");
    reveal_strlit("hawkesbay");
    reveal_strlit("manawatu whanganui");
    reveal_strlit("manawatuwhanganui");
    reveal_strlit("Tasman");
    reveal_strlit("tasman");
    assert(squash("hawkes bay"@) =~= "hawkesbay"@) by {
        reveal_with_fuel(squash, 11);
    }
    assert(squash("manawatu whanganui"@) =~= "manawatuwhanganui"@) by {
        reveal_with_fuel(squash, 19);
    }
    assert(squash("Tasman"@) =~= "tasman"@) by {
        reveal_with_fuel(squash, 7);
    }
}

/// How `hawkes bay` is read.
proof fn lemma_region_hawkes_bay()
    ensures
        region_index("hawkes bay"@) == Some(7int),
{
    lemma_regions_squash();
    lemma_loose_squashes();
    reveal_strlit("auckland");
    reveal_strlit("auk");
    reveal_strlit("bayofplenty");
    reveal_strlit("bop");
    reveal_strlit("gis");
    reveal_strlit("gisborne");
    reveal_strlit("hawkes bay");
    reveal_strlit("hawkesbay");
    reveal_strlit("hkb");
    reveal_strlit("manawatuwhanganui");
    reveal_strlit("mwt");
    reveal_strlit("northland");
    reveal_strlit("ntl");
    reveal_strlit("taranaki");
    reveal_strlit("tki");
    reveal_strlit("waikato");
    reveal_strlit("wko");
    assert("northland"@[0] != "hawkesbay"@[0]);
    assert(!answers(0, "hawkesbay"@));
    assert(!answers(1, "hawkesbay"@));
    assert(!answers(2, "hawkesbay"@));
    assert(!answers(3, "hawkesbay"@));
    assert(!answers(4, "hawkesbay"@));
    assert(!answers(5, "hawkesbay"@));
    assert(!answers(6, "hawkesbay"@));
    lemma_first_answering_is("hawkesbay"@, 7, 0);
}

/// How `manawatu whanganui` is read.
proof fn lemma_region_manawatu()
    ensures
        region_index("manawatu whanganui"@) == Some(6int),
{
    lemma_regions_squash();
    lemma_loose_squashes();
    reveal_strlit("auckland");
    reveal_strlit("auk");
    reveal_strlit("bayofplenty");
    reveal_strlit("bop");
    reveal_strlit("gis");
    reveal_strlit("gisborne");
    reveal_strlit("manawatu whanganui");
    reveal_strlit("manawatuwhanganui");
    reveal_strlit("mwt");
    reveal_strlit("northland");
    reveal_strlit("ntl");
    reveal_strlit("taranaki");
    reveal_strlit("tki");
    reveal_strlit("waikato");
    reveal_strlit("wko");
    assert(!answers(0, "manawatuwhanganui"@));
    assert(!answers(1, "manawatuwhanganui"@));
    assert(!answers(2, "manawatuwhanganui"@));
    assert(!answers(3, "manawatuwhanganui"@));
    assert(!answers(4, "manawatuwhanganui"@));
    assert(!answers(5, "manawatuwhanganui"@));
    lemma_first_answering_is("manawatuwhanganui"@, 6, 0);
}

/// How `Tasman` is read.
proof fn lemma_region_tasman()
    ensures
        region_index("Tasman"@) is None,
{
    lemma_regions_squash();
    lemma_loose_squashes();
    reveal_strlit("Tasman");
    reveal_strlit("auckland");
    reveal_strlit("auk");
    reveal_strlit("bayofplenty");
    reveal_strlit("bop");
    reveal_strlit("can");
    reveal_strlit("canterbury");
    reveal_strlit("gis");
    reveal_strlit("gisborne");
    reveal_strlit("hawkesbay");
    reveal_strlit("hkb");
    reveal_strlit("manawatuwhanganui");
    reveal_strlit("mwt");
    reveal_strlit("nelson");
    reveal_strlit("northland");
    reveal_strlit("nsn");
    reveal_strlit("ntl");
    reveal_strlit("ota");
    reveal_strlit("otago");
    reveal_strlit("southland");
    reveal_strlit("stl");
    reveal_strlit("taranaki");
    reveal_strlit("tasman");
    reveal_strlit("tki");
    reveal_strlit("waikato");
    reveal_strlit("wellington");
    reveal_strlit("wgn");
    reveal_strlit("wko");
    assert(!answers(0, "tasman"@));
    assert(!answers(1, "tasman"@));
    assert(!answers(2, "tasman"@));
    assert(!answers(3, "tasman"@));
    assert(!answers(4, "tasman"@));
    assert(!answers(5, "tasman"@));
    assert(!answers(6, "tasman"@));
    assert(!answers(7, "tasman"@));
    assert(!answers(8, "tasman"@));
    assert("nelson"@[0] != "tasman"@[0]);
    assert(!answers(9, "tasman"@));
    assert(!answers(10, "tasman"@));
    assert(!answers(11, "tasman"@));
    assert(!answers(12, "tasman"@));
    lemma_no_region_answers("tasman"@, 0);
}

/// A region typed loosely is found, one with no Farmers store is not, and
/// blank input names none.
pub proof fn lemma_loose_region_names()
    ensures
        region_index("hawkes bay"@) == Some(7int),
        region_index("manawatu whanganui"@) == Some(6int),
        region_index("Tasman"@) is None,
        region_index("  "@) is None,
{
    lemma_region_hawkes_bay();
    lemma_region_manawatu();
    lemma_region_tasman();
    reveal_strlit("  ");
    assert(squash("  "@) =~= Seq::<char>::empty()) by {
        reveal_with_fuel(squash, 3);
    }
}

} // verus!
