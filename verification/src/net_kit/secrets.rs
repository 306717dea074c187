//! Where a login is kept: the operating system's credential store, or where
//! none is reachable, a 0600 file under the state directory.
//!
//! Reading and writing the store is the caller's I/O; this holds what a store
//! is called, where its files go, and what a stored value reads back as.

use vstd::prelude::*;
use crate::text::{chars_of, extend, extend_str, is_ascii_alnum, opt_str, owned, string_of, trim, trim_exec};

verus! {

/// A character kept in a file name, or `_` in its place.
pub open spec fn safe_char(c: char) -> char {
    if is_ascii_alnum(c) {
        c
    } else {
        '_'
    }
}

/// A name reduced to one path segment that cannot escape its directory:
/// every character that is not an ASCII letter or digit becomes `_`.
pub open spec fn safe_name(s: Seq<char>) -> Seq<char> {
    s.map_values(|c: char| safe_char(c))
}

/// Reduce a name to something that is one path segment and cannot escape it.
pub fn safe(name: &str) -> (r: String)
    ensures
        r@ == safe_name(name@),
{
    let cs = chars_of(name);
    let mut out: Vec<char> = Vec::new();
    let mut i: usize = 0;
    while i < cs.len()
        invariant
            i <= cs.len(),
            cs@ == name@,
            out@ == safe_name(cs@.take(i as int)),
        decreases cs.len() - i,
    {
        let c = cs[i];
        if ('a' <= c && c <= 'z') || ('A' <= c && c <= 'Z') || ('0' <= c && c <= '9') {
            out.push(c);
        } else {
            out.push('_');
        }
        assert(out@ =~= safe_name(cs@.take(i + 1)));
        i += 1;
    }
    assert(cs@.take(cs.len() as int) =~= cs@);
    string_of(&out)
}

/// A safe name is one path segment: it holds no separator and no dot, so
/// neither `..` nor `a/b` can lead out of the directory it is joined to.
pub proof fn lemma_safe_names_stay_put(s: Seq<char>)
    ensures
        forall|i: int| 0 <= i < safe_name(s).len() ==> #[trigger] safe_name(s)[i] != '/',
        forall|i: int| 0 <= i < safe_name(s).len() ==> safe_name(s)[i] != '.',
        safe_name(s).len() == s.len(),
{
}

/// Where secrets are kept.
#[derive(Clone, Copy, PartialEq, Eq, Hash, Debug, Structural)]
pub enum Backend {
    /// Keychain, Credential Manager or Secret Service.
    Keyring,
    /// A 0600 file under the state directory.
    File,
}

/// How a backend is described to a person.
pub open spec fn backend_text(b: Backend) -> Seq<char> {
    match b {
        Backend::Keyring => "the system credential store"@,
        Backend::File => "a 0600 file in the state directory (no system credential store)"@,
    }
}

impl Backend {
    /// Where secrets are going, said plainly: the fallback is named as one.
    pub fn describe(self) -> (r: &'static str)
        ensures
            r@ == backend_text(self),
    {
        match self {
            Backend::Keyring => "the system credential store",
            Backend::File => "a 0600 file in the state directory (no system credential store)",
        }
    }
}

/// What a secret written to a backend reads back as: the credential store
/// keeps it as it is and the file is trimmed, and either way a blank one
/// reads as absent.
pub open spec fn read_back(backend: Backend, secret: Seq<char>) -> Option<Seq<char>> {
    match backend {
        Backend::Keyring => if trim(secret).len() == 0 {
            None
        } else {
            Some(secret)
        },
        Backend::File => if trim(secret).len() == 0 {
            None
        } else {
            Some(trim(secret))
        },
    }
}

/// What a secret written to a backend reads back as.
pub fn as_read(backend: Backend, secret: &str) -> (r: Option<String>)
    ensures
        match r {
            Some(s) => read_back(backend, secret@) == Some(s@),
            None => read_back(backend, secret@) is None,
        },
{
    let cs = chars_of(secret);
    let t = trim_exec(&cs);
    if t.len() == 0 {
        return None;
    }
    match backend {
        Backend::Keyring => Some(owned(secret)),
        Backend::File => Some(string_of(&t)),
    }
}

/// A named store of secrets in one backend.
#[derive(Clone, Debug)]
pub struct Secrets {
    service: String,
    backend: Backend,
    dir: String,
}

impl Secrets {
    /// The service the store is filed under.
    pub closed spec fn service_name(&self) -> Seq<char> {
        self.service@
    }

    /// The backend it uses.
    pub closed spec fn backend_of(&self) -> Backend {
        self.backend
    }

    /// The directory its files go under.
    pub closed spec fn dir_name(&self) -> Seq<char> {
        self.dir@
    }

    /// A store for one tool, in one backend, under a state directory; its
    /// files go in the directory's `secrets`.
    pub fn new(service: &str, backend: Backend, state_dir: &str) -> (s: Secrets)
        ensures
            s.service_name() == service@,
            s.backend_of() == backend,
            s.dir_name() == state_dir@ + "/secrets"@,
    {
        let mut d = chars_of(state_dir);
        extend_str(&mut d, "/secrets");
        Secrets { service: owned(service), backend, dir: string_of(&d) }
    }

    /// A copy of this store: the same service, backend and directory.
    pub fn duplicate(&self) -> (r: Secrets)
        ensures
            r == *self,
    {
        Secrets { service: self.service.clone(), backend: self.backend, dir: self.dir.clone() }
    }

    pub fn backend(&self) -> (b: Backend)
        ensures
            b == self.backend_of(),
    {
        self.backend
    }

    pub fn service(&self) -> (s: &str)
        ensures
            s@ == self.service_name(),
    {
        self.service.as_str()
    }

    /// The directory its files go under.
    pub fn dir(&self) -> (s: &str)
        ensures
            s@ == self.dir_name(),
    {
        self.dir.as_str()
    }

    /// The file an account's secret is kept in: one directory per service
    /// and one file per account, both names made safe.
    pub fn path(&self, account: &str) -> (p: String)
        ensures
            p@ == self.dir_name() + "/"@ + safe_name(self.service_name()) + "/"@ + safe_name(
                account@,
            ),
    {
        let mut v = chars_of(self.dir.as_str());
        extend_str(&mut v, "/");
        let s = safe(self.service.as_str());
        extend_str(&mut v, s.as_str());
        extend_str(&mut v, "/");
        let a = safe(account);
        extend_str(&mut v, a.as_str());
        string_of(&v)
    }
}

/// What the entries of a memo say of each account: the latest entry for an
/// account is what is known of it.
pub open spec fn memo_of(es: Seq<(String, Option<String>)>) -> Map<Seq<char>, Option<Seq<char>>>
    decreases es.len(),
{
    if es.len() == 0 {
        Map::empty()
    } else {
        memo_of(es.drop_last()).insert(es.last().0@, opt_str(es.last().1))
    }
}

/// Entries for other accounts do not change what is known of one.
proof fn lemma_memo_without(es: Seq<(String, Option<String>)>, i: int, k: Seq<char>)
    requires
        0 <= i <= es.len(),
        forall|j: int| i <= j < es.len() ==> (#[trigger] es[j]).0@ != k,
    ensures
        memo_of(es).contains_key(k) == memo_of(es.take(i)).contains_key(k),
        memo_of(es).contains_key(k) ==> memo_of(es)[k] == memo_of(es.take(i))[k],
    decreases es.len() - i,
{
    if i < es.len() {
        let init = es.drop_last();
        assert forall|j: int| i <= j < init.len() implies (#[trigger] init[j]).0@ != k by {
            assert(init[j] == es[j]);
        }
        lemma_memo_without(init, i, k);
        assert(init.take(i) =~= es.take(i));
    } else {
        assert(es.take(i) =~= es);
    }
}

/// What this process has learned of one store: for each account it has
/// looked at, what it found there. Every access to a credential store can be
/// a prompt, so a value is fetched once and a write or a removal that would
/// change nothing is not made.
pub struct Memo {
    entries: Vec<(String, Option<String>)>,
}

impl View for Memo {
    type V = Map<Seq<char>, Option<Seq<char>>>;

    closed spec fn view(&self) -> Map<Seq<char>, Option<Seq<char>>> {
        memo_of(self.entries@)
    }
}

/// Whether writing `secret` to an account would change what a read gives
/// back, as far as the memo knows.
pub open spec fn changes(m: Map<Seq<char>, Option<Seq<char>>>, backend: Backend, account: Seq<char>, secret: Seq<char>) -> bool {
    !(m.contains_key(account) && m[account] == read_back(backend, secret))
}

/// Whether removing an account could find anything, as far as the memo
/// knows.
pub open spec fn may_hold(m: Map<Seq<char>, Option<Seq<char>>>, account: Seq<char>) -> bool {
    !(m.contains_key(account) && m[account] is None)
}

impl Memo {
    /// A memo that knows nothing yet.
    pub fn new() -> (m: Memo)
        ensures
            m@ == Map::<Seq<char>, Option<Seq<char>>>::empty(),
    {
        Memo { entries: Vec::new() }
    }

    /// What is known of an account: outer `None` where this process has not
    /// looked, inner `None` where it looked and found nothing.
    pub fn remembered(&self, account: &str) -> (r: Option<Option<String>>)
        ensures
            match r {
                Some(found) => self@.contains_key(account@) && self@[account@] == opt_str(found),
                None => !self@.contains_key(account@),
            },
    {
        let mut i = self.entries.len();
        while i > 0
            invariant
                i <= self.entries.len(),
                forall|j: int| i <= j < self.entries@.len() ==> (#[trigger] self.entries@[j]).0@ != account@,
            decreases i,
        {
            if crate::text::eq_str(self.entries[i - 1].0.as_str(), account) {
                proof {
                    let es = self.entries@;
                    lemma_memo_without(es, i as int, account@);
                    assert(es.take(i as int).drop_last() =~= es.take(i - 1));
                    assert(es.take(i as int).last() == es[i - 1]);
                }
                let found = match &self.entries[i - 1].1 {
                    Some(v) => Some(v.clone()),
                    None => None,
                };
                return Some(found);
            }
            i -= 1;
        }
        proof {
            lemma_memo_without(self.entries@, 0, account@);
            assert(self.entries@.take(0) =~= Seq::<(String, Option<String>)>::empty());
        }
        None
    }

    /// Learn what an account holds: what a read found, what a write will
    /// read back as, or nothing after a removal.
    pub fn remember(&mut self, account: &str, found: Option<String>)
        ensures
            final(self)@ == old(self)@.insert(account@, opt_str(found)),
    {
        let ghost before = self.entries@;
        self.entries.push((owned(account), found));
        proof {
            assert(self.entries@.drop_last() =~= before);
        }
    }

    /// Whether writing `secret` would change what a read gives back: a write
    /// of what is already there is not made.
    pub fn needs_write(&self, backend: Backend, account: &str, secret: &str) -> (r: bool)
        ensures
            r == changes(self@, backend, account@, secret@),
    {
        let readable = as_read(backend, secret);
        match self.remembered(account) {
            Some(Some(known)) => match readable {
                Some(x) => !crate::text::eq_str(known.as_str(), x.as_str()),
                None => true,
            },
            Some(None) => readable.is_some(),
            None => true,
        }
    }

    /// Whether a removal has anything to remove: an account known to hold
    /// nothing is not asked about again.
    pub fn needs_delete(&self, account: &str) -> (r: bool)
        ensures
            r == may_hold(self@, account@),
    {
        match self.remembered(account) {
            Some(None) => false,
            _ => true,
        }
    }
}

/// A written secret is remembered as what a read gives back, so the next
/// read is answered from memory with the stored form, and writing the same
/// secret again is not a write.
pub proof fn lemma_a_write_is_remembered_as_it_reads_back(
    m: Map<Seq<char>, Option<Seq<char>>>,
    backend: Backend,
    account: Seq<char>,
    secret: Seq<char>,
)
    ensures
        m.insert(account, read_back(backend, secret))[account] == read_back(backend, secret),
        !changes(m.insert(account, read_back(backend, secret)), backend, account, secret),
{
}

/// A removed secret is remembered as absent: the next read is answered with
/// nothing, and removing it again does not reach the store.
pub proof fn lemma_a_removal_is_remembered(m: Map<Seq<char>, Option<Seq<char>>>, account: Seq<char>)
    ensures
        m.insert(account, None)[account] is None,
        !may_hold(m.insert(account, None), account),
{
}

/// What is learned of one account says nothing of another.
pub proof fn lemma_accounts_are_apart(
    m: Map<Seq<char>, Option<Seq<char>>>,
    account: Seq<char>,
    other: Seq<char>,
    found: Option<Seq<char>>,
)
    requires
        account != other,
    ensures
        m.insert(account, found).contains_key(other) == m.contains_key(other),
        m.contains_key(other) ==> m.insert(account, found)[other] == m[other],
{
}

} // verus!
