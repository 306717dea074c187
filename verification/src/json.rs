//! A JSON document as the library reads it.
//!
//! Decoding text into a [`Json`] is the caller's business; what is read out of
//! one -- a member by name, a string however it was typed -- is stated here.

use vstd::prelude::*;
use crate::text::{eq_str, lower, trim};

verus! {

/// A JSON value. An object keeps its members in the order they were read,
/// and a name occurs in it at most once.
#[derive(Debug)]
pub enum Json {
    Null,
    Bool(bool),
    /// A number, as the text it prints as, and whether it is zero.
    Number { text: String, zero: bool },
    Str(String),
    Array(Vec<Json>),
    Object(Vec<(String, Json)>),
}

/// The position of the first member named `key`, or -1.
pub open spec fn member_index(es: Seq<(String, Json)>, key: Seq<char>) -> int
    decreases es.len(),
{
    if es.len() == 0 {
        -1
    } else {
        let k = member_index(es.drop_last(), key);
        if k >= 0 {
            k
        } else if es.last().0@ == key {
            es.len() - 1
        } else {
            -1
        }
    }
}

/// The member of an object named `key`.
pub open spec fn field(v: Json, key: Seq<char>) -> Option<Json> {
    match v {
        Json::Object(es) => {
            let k = member_index(es@, key);
            if 0 <= k < es@.len() {
                Some(es@[k].1)
            } else {
                None
            }
        },
        _ => None,
    }
}

/// A string value's characters.
pub open spec fn str_value(v: Option<Json>) -> Option<Seq<char>> {
    match v {
        Some(Json::Str(s)) => Some(s@),
        _ => None,
    }
}

/// The member index is -1 or the first position carrying the name.
pub proof fn lemma_member_index(es: Seq<(String, Json)>, key: Seq<char>)
    ensures
        -1 <= member_index(es, key) < es.len(),
        member_index(es, key) >= 0 ==> es[member_index(es, key)].0@ == key,
        forall|j: int|
            0 <= j < es.len() && (member_index(es, key) < 0 || j < member_index(es, key)) ==> es[j].0@
                != key,
    decreases es.len(),
{
    if es.len() > 0 {
        let init = es.drop_last();
        lemma_member_index(init, key);
        assert forall|j: int|
            0 <= j < es.len() && (member_index(es, key) < 0 || j < member_index(es, key)) implies es[j].0@
            != key by {
            if j < es.len() - 1 {
                assert(init[j] == es[j]);
            }
        }
    }
}

/// Where the first member named `key` stands.
pub fn member_pos(es: &Vec<(String, Json)>, key: &str) -> (r: Option<usize>)
    ensures
        match r {
            Some(k) => k == member_index(es@, key@),
            None => member_index(es@, key@) < 0,
        },
{
    let mut i: usize = 0;
    while i < es.len()
        invariant
            i <= es.len(),
            forall|j: int| 0 <= j < i ==> es@[j].0@ != key@,
        decreases es.len() - i,
    {
        if eq_str(es[i].0.as_str(), key) {
            proof {
                lemma_member_index(es@, key@);
                let k = member_index(es@, key@);
                if k < 0 || k > i {
                    assert(es@[i as int].0@ != key@);
                }
                if k < i {
                    assert(es@[k].0@ != key@);
                }
            }
            return Some(i);
        }
        i += 1;
    }
    proof {
        lemma_member_index(es@, key@);
    }
    None
}

impl Json {
    /// The member named `key`, where this is an object that has one.
    pub fn get(&self, key: &str) -> (r: Option<&Json>)
        ensures
            match r {
                Some(x) => field(*self, key@) == Some(*x),
                None => field(*self, key@) is None,
            },
    {
        match self {
            Json::Object(es) => {
                proof {
                    lemma_member_index(es@, key@);
                }
                match member_pos(es, key) {
                    Some(k) => Some(&es[k].1),
                    None => None,
                }
            },
            _ => None,
        }
    }

    /// The text of a string value.
    pub fn as_str(&self) -> (r: Option<&str>)
        ensures
            match r {
                Some(s) => *self matches Json::Str(t) && s@ == t@,
                None => !(*self is Str),
            },
    {
        match self {
            Json::Str(s) => Some(s.as_str()),
            _ => None,
        }
    }
}

/// The text a scalar reads as: a string as it is, a number as it prints, a
/// boolean as `true` or `false`.
pub open spec fn scalar_text(v: Json) -> Option<Seq<char>> {
    match v {
        Json::Str(s) => Some(s@),
        Json::Number { text, .. } => Some(text@),
        Json::Bool(b) => Some(
            if b {
                "true"@
            } else {
                "false"@
            },
        ),
        _ => None,
    }
}

/// A member read as text, however it was typed, trimmed; blank text is
/// absent.
pub open spec fn text_at(v: Json, key: Seq<char>) -> Option<Seq<char>> {
    match field(v, key) {
        Some(x) => match scalar_text(x) {
            Some(t) => if trim(t).len() > 0 {
                Some(trim(t))
            } else {
                None
            },
            None => None,
        },
        None => None,
    }
}

/// The first of several names that reads as text.
pub open spec fn first_text_at(v: Json, keys: Seq<Seq<char>>) -> Option<Seq<char>>
    decreases keys.len(),
{
    if keys.len() == 0 {
        None
    } else {
        match text_at(v, keys[0]) {
            Some(t) => Some(t),
            None => first_text_at(v, keys.drop_first()),
        }
    }
}

/// A member read as a truth value: a boolean as it is, a number by whether
/// it is zero, and a string by the words that mean yes or no.
pub open spec fn truth_at(v: Json, key: Seq<char>) -> Option<bool> {
    match field(v, key) {
        Some(Json::Bool(b)) => Some(b),
        Some(Json::Number { zero, .. }) => Some(!zero),
        Some(Json::Str(s)) => {
            let k = lower(trim(s@));
            if k == "true"@ || k == "yes"@ || k == "1"@ {
                Some(true)
            } else if k == "false"@ || k == "no"@ || k == "0"@ {
                Some(false)
            } else {
                None
            }
        },
        _ => None,
    }
}

/// A string member reads as true for the words that mean yes and as false
/// for those that mean no, however cased or spaced; anything else reads as
/// neither.
pub proof fn lemma_truth_words(v: Json, key: Seq<char>, s: String)
    requires
        field(v, key) == Some(Json::Str(s)),
    ensures
        lower(trim(s@)) == "true"@ || lower(trim(s@)) == "yes"@ || lower(trim(s@)) == "1"@
            ==> truth_at(v, key) == Some(true),
        lower(trim(s@)) == "false"@ || lower(trim(s@)) == "no"@ || lower(trim(s@)) == "0"@
            ==> truth_at(v, key) == Some(false),
        truth_at(v, key) is Some ==> lower(trim(s@)) == "true"@ || lower(trim(s@)) == "yes"@
            || lower(trim(s@)) == "1"@ || lower(trim(s@)) == "false"@ || lower(trim(s@)) == "no"@
            || lower(trim(s@)) == "0"@,
{
    reveal_strlit("true");
    reveal_strlit("yes");
    reveal_strlit("1");
    reveal_strlit("false");
    reveal_strlit("no");
    reveal_strlit("0");
    assert("true"@ != "yes"@) by {
        assert("true"@.len() == 4);
        assert("yes"@.len() == 3);
    }
    assert("true"@ != "1"@) by {
        assert("true"@.len() == 4);
        assert("1"@.len() == 1);
    }
    assert("true"@ != "false"@) by {
        assert("true"@.len() == 4);
        assert("false"@.len() == 5);
    }
    assert("true"@ != "no"@) by {
        assert("true"@.len() == 4);
        assert("no"@.len() == 2);
    }
    assert("true"@ != "0"@) by {
        assert("true"@.len() == 4);
        assert("0"@.len() == 1);
    }
    assert("yes"@ != "1"@) by {
        assert("yes"@.len() == 3);
        assert("1"@.len() == 1);
    }
    assert("yes"@ != "false"@) by {
        assert("yes"@.len() == 3);
        assert("false"@.len() == 5);
    }
    assert("yes"@ != "no"@) by {
        assert("yes"@.len() == 3);
        assert("no"@.len() == 2);
    }
    assert("yes"@ != "0"@) by {
        assert("yes"@.len() == 3);
        assert("0"@.len() == 1);
    }
    assert("1"@ != "false"@) by {
        assert("1"@.len() == 1);
        assert("false"@.len() == 5);
    }
    assert("1"@ != "no"@) by {
        assert("1"@.len() == 1);
        assert("no"@.len() == 2);
    }
    assert("1"@ != "0"@) by {
        assert("1"@[0] != "0"@[0]);
    }
    assert("false"@ != "no"@) by {
        assert("false"@.len() == 5);
        assert("no"@.len() == 2);
    }
    assert("false"@ != "0"@) by {
        assert("false"@.len() == 5);
        assert("0"@.len() == 1);
    }
    assert("no"@ != "0"@) by {
        assert("no"@.len() == 2);
        assert("0"@.len() == 1);
    }
}

} // verus!
