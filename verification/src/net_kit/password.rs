//! A password kept beside a session, so a login that has lapsed can be
//! renewed with nobody at the keyboard.
//!
//! A password is only written when there is nothing better: a configured
//! command wins where one is set, leaving a password manager as the single
//! copy.

use vstd::prelude::*;
use crate::net_kit::secrets::Secrets;
use crate::text::{chars_of, opt_str, string_of, trim, trim_exec};

verus! {

/// Filed apart from the session on purpose: renewing a session rewrites the
/// session blob, and a password inside it would be dropped.
pub const ACCOUNT: &'static str = "password";

/// A string as a JSON string literal, as `serde_json` writes one.
pub uninterp spec fn json_string(s: Seq<char>) -> Seq<char>;

/// Writes a string as a JSON string literal.
///
/// Calls `serde_json::to_string` on a `&str`, which cannot fail; the result
/// is named [`json_string`] of the text, and reading it back with
/// `serde_json::from_str::<String>` gives the text again (see
/// [`from_json_string`]).
#[verifier::external_body]
fn to_json_string(s: &str) -> (r: String)
    ensures
        r@ == json_string(s@),
{
    serde_json::to_string(s).unwrap_or_default()
}

/// The string a JSON string literal holds, where the text is one.
pub uninterp spec fn json_string_value(raw: Seq<char>) -> Option<Seq<char>>;

/// Reads a JSON string literal back.
///
/// Calls `serde_json::from_str::<String>` and keeps the string where the
/// text is one. The result is named [`json_string_value`] of the text; of
/// text that `serde_json::to_string` wrote for a string, it is that string.
#[verifier::external_body]
fn from_json_string(raw: &str) -> (r: Option<String>)
    ensures
        opt_str(r) == json_string_value(raw@),
        forall|p: Seq<char>| raw@ == json_string(p) ==> opt_str(r) == Some(p),
{
    serde_json::from_str::<String>(raw).ok()
}

/// How a password is filed: as a JSON string rather than raw, because the
/// file backend trims what it reads back, which would corrupt a password
/// with leading or trailing space.
pub fn encode(password: &str) -> (raw: String)
    ensures
        raw@ == json_string(password@),
{
    to_json_string(password)
}

/// The password a filed text holds: the JSON string it decodes to, where
/// that is not empty.
pub open spec fn filed_password(raw: Seq<char>) -> Option<Seq<char>> {
    match json_string_value(raw) {
        Some(p) => if p.len() > 0 {
            Some(p)
        } else {
            None
        },
        None => None,
    }
}

/// A filed password read back; an empty one, or one that does not decode,
/// is none.
pub fn decode(raw: &str) -> (r: Option<String>)
    ensures
        opt_str(r) == filed_password(raw@),
        forall|p: Seq<char>|
            raw@ == json_string(p) ==> opt_str(r) == if p.len() > 0 {
                Some(p)
            } else {
                None
            },
        r matches Some(p) ==> p@.len() > 0,
{
    match from_json_string(raw) {
        Some(p) => {
            let cs = chars_of(p.as_str());
            if cs.len() > 0 {
                Some(p)
            } else {
                None
            }
        },
        None => None,
    }
}

/// A password filed and read back is the same password, surrounding space
/// and all.
pub proof fn lemma_a_filed_password_reads_back(p: Seq<char>, raw: Seq<char>, back: Option<Seq<char>>)
    requires
        p.len() > 0,
        raw == json_string(p),
        forall|q: Seq<char>|
            raw == json_string(q) ==> back == if q.len() > 0 {
                Some(q)
            } else {
                None
            },
    ensures
        back == Some(p),
{
}

/// Where an unattended login gets its password. Nothing is fetched until it
/// is asked for.
#[derive(Clone, Debug)]
pub enum Source {
    /// A configured command that prints it on stdout.
    Command(String),
    /// The copy in the credential store.
    Stored(Secrets),
}

/// How a source is described to a person.
pub open spec fn source_text(s: Source) -> Seq<char> {
    match s {
        Source::Command(_) => "the configured password_command"@,
        Source::Stored(_) => "the stored password"@,
    }
}

impl Source {
    /// Where the password would come from. The command first: where one is
    /// configured it is the account's real source of truth. A blank command
    /// is not a configured one.
    pub fn named(command: Option<&str>, secrets: &Secrets) -> (s: Source)
        ensures
            command matches Some(c) && trim(c@).len() > 0 ==> (s matches Source::Command(cmd)
                && cmd@ == trim(command.unwrap()@)),
            !(command matches Some(c) && trim(c@).len() > 0) ==> (s matches Source::Stored(st)
                && st == *secrets),
    {
        match command {
            Some(c) => {
                let cs = chars_of(c);
                let t = trim_exec(&cs);
                if t.len() > 0 {
                    return Source::Command(string_of(&t));
                }
                Source::Stored(secrets.duplicate())
            },
            None => Source::Stored(secrets.duplicate()),
        }
    }

    /// Whether there is really a password here, given what the credential
    /// store files under [`ACCOUNT`]: a configured command is taken at its
    /// word rather than run, and a stored copy counts when it reads back as a
    /// password.
    pub fn has_password(&self, filed: Option<&str>) -> (r: bool)
        ensures
            self is Command ==> r,
            self is Stored ==> r == (filed matches Some(raw) && filed_password(raw@) is Some),
    {
        match self {
            Source::Command(_) => true,
            Source::Stored(_) => match filed {
                Some(raw) => decode(raw).is_some(),
                None => false,
            },
        }
    }

    /// The source [`Source::named`] gives, where there is a password behind
    /// it; `filed` is what the credential store files under [`ACCOUNT`].
    pub fn resolve(command: Option<&str>, secrets: &Secrets, filed: Option<&str>) -> (r: Option<Source>)
        ensures
            command matches Some(c) && trim(c@).len() > 0 ==> (r matches Some(Source::Command(cmd))
                && cmd@ == trim(command.unwrap()@)),
            !(command matches Some(c) && trim(c@).len() > 0) ==> (if filed matches Some(raw)
                && filed_password(raw@) is Some {
                r matches Some(Source::Stored(st)) && st == *secrets
            } else {
                r is None
            }),
    {
        let source = Source::named(command, secrets);
        if source.has_password(filed) {
            Some(source)
        } else {
            None
        }
    }

    /// Where the password comes from, said plainly.
    pub fn describe(&self) -> (r: &'static str)
        ensures
            r@ == source_text(*self),
    {
        match self {
            Source::Command(_) => "the configured password_command",
            Source::Stored(_) => "the stored password",
        }
    }
}

} // verus!
