//! Text in the order `String`'s `Ord` puts it, and a map from names to
//! values kept in that order.
//!
//! A cookie jar is such a map: it is sent as one header with the names
//! sorted, and two values under one name cannot both be kept.

use vstd::prelude::*;
use crate::text::{chars_of, same};

verus! {

/// Lexicographic order on characters by code point, which is the order
/// `String`'s `Ord` gives (UTF-8 preserves code point order bytewise).
pub open spec fn less(a: Seq<char>, b: Seq<char>) -> bool
    decreases a.len(),
{
    if a.len() == 0 {
        b.len() > 0
    } else if b.len() == 0 {
        false
    } else if a[0] < b[0] {
        true
    } else if a[0] == b[0] {
        less(a.drop_first(), b.drop_first())
    } else {
        false
    }
}

/// Nothing is less than itself.
pub proof fn lemma_less_irreflexive(a: Seq<char>)
    ensures
        !less(a, a),
    decreases a.len(),
{
    if a.len() > 0 {
        lemma_less_irreflexive(a.drop_first());
    }
}

/// Of two different sequences, exactly one is the lesser.
pub proof fn lemma_less_total(a: Seq<char>, b: Seq<char>)
    ensures
        a != b ==> (less(a, b) || less(b, a)),
        !(less(a, b) && less(b, a)),
    decreases a.len(),
{
    if a.len() > 0 && b.len() > 0 && a[0] == b[0] {
        lemma_less_total(a.drop_first(), b.drop_first());
        if a != b {
            assert(a.drop_first() != b.drop_first()) by {
                if a.drop_first() == b.drop_first() {
                    assert(a =~= seq![a[0]] + a.drop_first());
                    assert(b =~= seq![b[0]] + b.drop_first());
                }
            }
        }
    } else if a.len() == 0 && b.len() == 0 {
        assert(a =~= b);
    }
}

/// The order is transitive.
pub proof fn lemma_less_transitive(a: Seq<char>, b: Seq<char>, c: Seq<char>)
    requires
        less(a, b),
        less(b, c),
    ensures
        less(a, c),
    decreases a.len(),
{
    if a.len() > 0 && b.len() > 0 && c.len() > 0 && a[0] == b[0] && b[0] == c[0] {
        lemma_less_transitive(a.drop_first(), b.drop_first(), c.drop_first());
    }
}

/// Whether a sequence of names is strictly ascending.
pub open spec fn ascending(ks: Seq<Seq<char>>) -> bool {
    forall|i: int, j: int| 0 <= i < j < ks.len() ==> less(#[trigger] ks[i], #[trigger] ks[j])
}

/// Whether `a` comes before `b`.
pub fn less_exec(a: &[char], b: &[char]) -> (r: bool)
    ensures
        r == less(a@, b@),
{
    let mut i: usize = 0;
    proof {
        assert(a@.skip(0) =~= a@);
        assert(b@.skip(0) =~= b@);
    }
    while i < a.len() && i < b.len() && a[i] == b[i]
        invariant
            i <= a.len(),
            i <= b.len(),
            less(a@, b@) == less(a@.skip(i as int), b@.skip(i as int)),
        decreases a.len() - i,
    {
        proof {
            assert(a@.skip(i as int).drop_first() =~= a@.skip(i + 1));
            assert(b@.skip(i as int).drop_first() =~= b@.skip(i + 1));
        }
        i += 1;
    }
    if i == a.len() {
        i < b.len()
    } else if i == b.len() {
        false
    } else {
        a[i] < b[i]
    }
}

/// A sequence of name/value pairs as a map, later pairs winning.
pub open spec fn to_map(ps: Seq<(Seq<char>, Seq<char>)>) -> Map<Seq<char>, Seq<char>>
    decreases ps.len(),
{
    if ps.len() == 0 {
        Map::empty()
    } else {
        to_map(ps.drop_last()).insert(ps.last().0, ps.last().1)
    }
}

/// A name is in the map exactly when some pair carries it.
pub proof fn lemma_to_map_dom(ps: Seq<(Seq<char>, Seq<char>)>, k: Seq<char>)
    ensures
        to_map(ps).contains_key(k) <==> exists|i: int| 0 <= i < ps.len() && (#[trigger] ps[i]).0 == k,
    decreases ps.len(),
{
    if ps.len() > 0 {
        lemma_to_map_dom(ps.drop_last(), k);
        if to_map(ps.drop_last()).contains_key(k) {
            let i = choose|i: int| 0 <= i < ps.drop_last().len() && (#[trigger] ps.drop_last()[i]).0 == k;
            assert(ps[i].0 == k);
        }
        if exists|i: int| 0 <= i < ps.len() && (#[trigger] ps[i]).0 == k {
            let i = choose|i: int| 0 <= i < ps.len() && (#[trigger] ps[i]).0 == k;
            if i < ps.len() - 1 {
                assert(ps.drop_last()[i].0 == k);
            }
        }
    }
}

/// Where names are distinct, a name maps to the value paired with it.
pub proof fn lemma_to_map_value(ps: Seq<(Seq<char>, Seq<char>)>, i: int)
    requires
        0 <= i < ps.len(),
        forall|a: int, b: int| 0 <= a < b < ps.len() ==> (#[trigger] ps[a]).0 != (#[trigger] ps[b]).0,
    ensures
        to_map(ps).contains_key(ps[i].0),
        to_map(ps)[ps[i].0] == ps[i].1,
    decreases ps.len(),
{
    if i < ps.len() - 1 {
        lemma_to_map_value(ps.drop_last(), i);
        assert(ps[i].0 != ps.last().0);
    }
}

/// An ascending sequence holds each name once.
pub proof fn lemma_ascending_distinct(ks: Seq<Seq<char>>)
    requires
        ascending(ks),
    ensures
        forall|a: int, b: int| 0 <= a < b < ks.len() ==> ks[a] != ks[b],
{
    assert forall|a: int, b: int| 0 <= a < b < ks.len() implies ks[a] != ks[b] by {
        assert(less(ks[a], ks[b]));
        lemma_less_irreflexive(ks[a]);
    }
}

/// Name/value pairs of strings by their characters.
pub open spec fn view_pairs(v: Seq<(String, String)>) -> Seq<(Seq<char>, Seq<char>)> {
    v.map_values(|e: (String, String)| (e.0@, e.1@))
}

/// The names of name/value pairs.
pub open spec fn names_of(ps: Seq<(Seq<char>, Seq<char>)>) -> Seq<Seq<char>> {
    ps.map_values(|p: (Seq<char>, Seq<char>)| p.0)
}

/// The part of a map whose keys satisfy `keep`.
pub open spec fn restrict(
    m: Map<Seq<char>, Seq<char>>,
    keep: spec_fn(Seq<char>) -> bool,
) -> Map<Seq<char>, Seq<char>> {
    Map::new(|k: Seq<char>| m.contains_key(k) && keep(k), |k: Seq<char>| m[k])
}

/// A map from names to values, its entries kept sorted by name.
#[derive(Debug)]
pub struct Jar {
    entries: Vec<(String, String)>,
}

impl Jar {
    /// The entries, as characters.
    pub closed spec fn pairs(&self) -> Seq<(Seq<char>, Seq<char>)> {
        view_pairs(self.entries@)
    }

    /// The names, in the order they are kept.
    pub open spec fn names(&self) -> Seq<Seq<char>> {
        names_of(self.pairs())
    }

    /// Well formed: the names ascend, so none is held twice.
    pub open spec fn wf(&self) -> bool {
        ascending(self.names())
    }

    /// What the jar holds, as a map.
    pub open spec fn map(&self) -> Map<Seq<char>, Seq<char>> {
        to_map(self.pairs())
    }

    /// The names are the map's domain, in ascending order.
    pub proof fn lemma_names(&self)
        requires
            self.wf(),
        ensures
            ascending(self.names()),
            forall|k: Seq<char>| #[trigger]
                self.map().contains_key(k) <==> self.names().contains(k),
            self.names().len() == self.pairs().len(),
            forall|a: int, b: int|
                0 <= a < b < self.pairs().len() ==> (#[trigger] self.pairs()[a]).0 != (
                #[trigger] self.pairs()[b]).0,
            forall|i: int|
                0 <= i < self.pairs().len() ==> self.map()[#[trigger] self.names()[i]]
                    == self.pairs()[i].1,
    {
        let ps = self.pairs();
        let ks = self.names();
        lemma_ascending_distinct(ks);
        assert forall|a: int, b: int| 0 <= a < b < ps.len() implies (#[trigger] ps[a]).0 != (
        #[trigger] ps[b]).0 by {
            assert(ks[a] == ps[a].0);
            assert(ks[b] == ps[b].0);
        }
        assert forall|k: Seq<char>| #[trigger] self.map().contains_key(k) <==> ks.contains(k) by {
            lemma_to_map_dom(ps, k);
            if ks.contains(k) {
                let i = choose|i: int| 0 <= i < ks.len() && ks[i] == k;
                assert(ps[i].0 == k);
            }
            if self.map().contains_key(k) {
                let i = choose|i: int| 0 <= i < ps.len() && (#[trigger] ps[i]).0 == k;
                assert(ks[i] == k);
            }
        }
        assert forall|i: int| 0 <= i < ps.len() implies self.map()[#[trigger] ks[i]] == ps[i].1 by {
            lemma_to_map_value(ps, i);
        }
    }

    /// An empty jar.
    pub fn new() -> (j: Jar)
        ensures
            j.wf(),
            j.map() == Map::<Seq<char>, Seq<char>>::empty(),
            j.names().len() == 0,
    {
        let j = Jar { entries: Vec::new() };
        assert(j.pairs() =~= Seq::empty());
        j
    }

    /// How many names are held.
    pub fn len(&self) -> (n: usize)
        ensures
            n == self.names().len(),
    {
        self.entries.len()
    }

    /// The name at a position.
    pub fn name_at(&self, i: usize) -> (k: &str)
        requires
            i < self.names().len(),
        ensures
            k@ == self.names()[i as int],
    {
        self.entries[i].0.as_str()
    }

    /// The value at a position.
    pub fn value_at(&self, i: usize) -> (v: &str)
        requires
            i < self.names().len(),
        ensures
            v@ == self.pairs()[i as int].1,
    {
        self.entries[i].1.as_str()
    }

    /// Where a name is held, if it is.
    pub fn position(&self, k: &[char]) -> (r: Option<usize>)
        requires
            self.wf(),
        ensures
            r matches Some(i) ==> i < self.names().len() && self.names()[i as int] == k@,
            r is None ==> !self.map().contains_key(k@),
    {
        proof {
            self.lemma_names();
        }
        let mut i: usize = 0;
        while i < self.entries.len()
            invariant
                i <= self.entries.len(),
                self.entries.len() == self.names().len(),
                forall|j: int| 0 <= j < i ==> self.names()[j] != k@,
            decreases self.entries.len() - i,
        {
            let name = chars_of(self.entries[i].0.as_str());
            if same(&name, k) {
                return Some(i);
            }
            i += 1;
        }
        None
    }

    /// The value held under a name.
    pub fn get(&self, k: &str) -> (r: Option<&str>)
        requires
            self.wf(),
        ensures
            r matches Some(v) ==> self.map().contains_key(k@) && v@ == self.map()[k@],
            r is None ==> !self.map().contains_key(k@),
    {
        proof {
            self.lemma_names();
        }
        let kc = chars_of(k);
        match self.position(&kc) {
            Some(i) => Some(self.entries[i].1.as_str()),
            None => None,
        }
    }

    /// Put a value under a name, replacing any there.
    pub fn insert(&mut self, k: String, v: String)
        requires
            old(self).wf(),
        ensures
            final(self).wf(),
            final(self).map() == old(self).map().insert(k@, v@),
    {
        proof {
            self.lemma_names();
        }
        let kc = chars_of(k.as_str());
        let ghost ks = self.names();
        let ghost ps = self.pairs();
        let mut i: usize = 0;
        while i < self.entries.len()
            invariant
                i <= self.entries.len(),
                ks == self.names(),
                ps == self.pairs(),
                self.entries.len() == ks.len(),
                kc@ == k@,
                forall|j: int| 0 <= j < i ==> less(ks[j], k@),
            ensures
                i <= self.entries.len(),
                forall|j: int| 0 <= j < i ==> less(ks[j], k@),
                i < self.entries.len() ==> !less(ks[i as int], k@),
            decreases self.entries.len() - i,
        {
            let name = chars_of(self.entries[i].0.as_str());
            if !less_exec(&name, &kc) {
                break;
            }
            i += 1;
        }
        // Every name before `i` is less than `k`; the one at `i`, if any, is not.
        let at_end = i == self.entries.len();
        let mut replace = false;
        if !at_end {
            let name = chars_of(self.entries[i].0.as_str());
            replace = same(&name, &kc);
        }
        assert(replace ==> ks[i as int] == k@);
        assert(!at_end && !replace ==> ks[i as int] != k@);
        proof {
            assert(ks.len() == ps.len());
        }
        if replace {
            let ghost old_self = *self;
            self.entries.set(i, (k, v));
            proof {
                let nps = self.pairs();
                assert(nps =~= ps.update(i as int, (k@, v@)));
                assert(self.names() =~= ks);
                lemma_ascending_distinct(ks);
                let m = old_self.map().insert(k@, v@);
                assert forall|a: int, b: int| 0 <= a < b < nps.len() implies (#[trigger] nps[a]).0
                    != (#[trigger] nps[b]).0 by {
                    assert(nps[a].0 == ks[a] && nps[b].0 == ks[b]);
                }
                assert forall|q: Seq<char>| #[trigger] self.map().contains_key(q) <==> m.contains_key(q) by {
                    lemma_to_map_dom(nps, q);
                    lemma_to_map_dom(ps, q);
                    if m.contains_key(q) && q != k@ {
                        let j = choose|j: int| 0 <= j < ps.len() && (#[trigger] ps[j]).0 == q;
                        assert(nps[j].0 == q);
                    }
                    if q == k@ {
                        assert(nps[i as int].0 == q);
                    }
                }
                assert forall|q: Seq<char>| #[trigger] self.map().contains_key(q) implies self.map()[q] == m[q] by {
                    lemma_to_map_dom(nps, q);
                    let j = choose|j: int| 0 <= j < nps.len() && (#[trigger] nps[j]).0 == q;
                    lemma_to_map_value(nps, j);
                    old_self.lemma_names();
                    if j != i {
                        assert(ks[j] == q);
                        assert(ks[j] != ks[i as int]);
                        lemma_to_map_value(ps, j);
                    } else {
                        assert(q == k@);
                    }
                }
                assert(self.map() =~= m);
            }
        } else {
            let ghost old_self = *self;
            self.entries.insert(i, (k, v));
            proof {
                let nps = self.pairs();
                assert(nps =~= ps.insert(i as int, (k@, v@)));
                let nks = self.names();
                assert(nks =~= ks.insert(i as int, k@));
                // `k` sits between the names below `i` and those from `i` on.
                assert forall|j: int| i <= j < ks.len() implies less(k@, #[trigger] ks[j]) by {
                    lemma_less_total(ks[i as int], k@);
                    assert(less(k@, ks[i as int]));
                    if j > i {
                        assert(less(ks[i as int], ks[j]));
                        lemma_less_transitive(k@, ks[i as int], ks[j]);
                    }
                }
                assert forall|a: int, b: int| 0 <= a < b < nks.len() implies less(
                    #[trigger] nks[a],
                    #[trigger] nks[b],
                ) by {
                    if b < i {
                        assert(nks[a] == ks[a] && nks[b] == ks[b]);
                    } else if b == i {
                        assert(nks[a] == ks[a]);
                    } else if a == i {
                        assert(nks[b] == ks[b - 1]);
                    } else if a < i {
                        assert(nks[a] == ks[a] && nks[b] == ks[b - 1]);
                        lemma_less_transitive(ks[a], k@, ks[b - 1]);
                    } else {
                        assert(nks[a] == ks[a - 1] && nks[b] == ks[b - 1]);
                    }
                }
                lemma_ascending_distinct(nks);
                assert forall|a: int, b: int| 0 <= a < b < nps.len() implies (#[trigger] nps[a]).0
                    != (#[trigger] nps[b]).0 by {
                    assert(nps[a].0 == nks[a] && nps[b].0 == nks[b]);
                }
                let m = old_self.map().insert(k@, v@);
                assert forall|q: Seq<char>| #[trigger] self.map().contains_key(q) <==> m.contains_key(q) by {
                    lemma_to_map_dom(nps, q);
                    lemma_to_map_dom(ps, q);
                    if m.contains_key(q) && q != k@ {
                        let j = choose|j: int| 0 <= j < ps.len() && (#[trigger] ps[j]).0 == q;
                        if j < i {
                            assert(nps[j].0 == q);
                        } else {
                            assert(nps[j + 1].0 == q);
                        }
                    }
                    if q == k@ {
                        assert(nps[i as int].0 == q);
                    }
                }
                assert forall|q: Seq<char>| #[trigger] self.map().contains_key(q) implies self.map()[q] == m[q] by {
                    lemma_to_map_dom(nps, q);
                    let j = choose|j: int| 0 <= j < nps.len() && (#[trigger] nps[j]).0 == q;
                    lemma_to_map_value(nps, j);
                    old_self.lemma_names();
                    lemma_less_irreflexive(k@);
                    if j < i {
                        assert(ks[j] == q);
                        assert(less(ks[j], k@));
                        lemma_to_map_value(ps, j);
                    } else if j > i {
                        assert(ks[j - 1] == q);
                        assert(less(k@, ks[j - 1]));
                        lemma_to_map_value(ps, j - 1);
                    } else {
                        assert(q == k@);
                    }
                }
                assert(self.map() =~= m);
            }
        }
    }

    /// Take a name out, if it is held.
    pub fn remove(&mut self, k: &str)
        requires
            old(self).wf(),
        ensures
            final(self).wf(),
            final(self).map() == old(self).map().remove(k@),
    {
        proof {
            self.lemma_names();
        }
        let kc = chars_of(k);
        match self.position(&kc) {
            None => {
                assert(self.map() =~= self.map().remove(k@));
            },
            Some(i) => {
                let ghost old_self = *self;
                let ghost ks = self.names();
                let ghost ps = self.pairs();
                self.entries.remove(i);
                proof {
                    let nps = self.pairs();
                    let nks = self.names();
                    assert(nps =~= ps.remove(i as int));
                    assert(nks =~= ks.remove(i as int));
                    assert forall|a: int, b: int| 0 <= a < b < nks.len() implies less(
                        #[trigger] nks[a],
                        #[trigger] nks[b],
                    ) by {
                        if b < i {
                            assert(nks[a] == ks[a] && nks[b] == ks[b]);
                        } else if a < i {
                            assert(nks[a] == ks[a] && nks[b] == ks[b + 1]);
                        } else {
                            assert(nks[a] == ks[a + 1] && nks[b] == ks[b + 1]);
                        }
                    }
                    lemma_ascending_distinct(nks);
                    lemma_ascending_distinct(ks);
                    assert forall|a: int, b: int| 0 <= a < b < nps.len() implies (
                    #[trigger] nps[a]).0 != (#[trigger] nps[b]).0 by {
                        assert(nps[a].0 == nks[a] && nps[b].0 == nks[b]);
                    }
                    let m = old_self.map().remove(k@);
                    assert forall|q: Seq<char>| #[trigger] self.map().contains_key(q) <==> m.contains_key(q) by {
                        lemma_to_map_dom(nps, q);
                        lemma_to_map_dom(ps, q);
                        if self.map().contains_key(q) {
                            let j = choose|j: int| 0 <= j < nps.len() && (#[trigger] nps[j]).0 == q;
                            if j < i {
                                assert(ps[j].0 == q);
                                assert(ks[j] != ks[i as int]);
                            } else {
                                assert(ps[j + 1].0 == q);
                                assert(ks[j + 1] != ks[i as int]);
                            }
                        }
                        if m.contains_key(q) {
                            let j = choose|j: int| 0 <= j < ps.len() && (#[trigger] ps[j]).0 == q;
                            assert(j != i);
                            if j < i {
                                assert(nps[j].0 == q);
                            } else {
                                assert(nps[j - 1].0 == q);
                            }
                        }
                    }
                    assert forall|q: Seq<char>| #[trigger] self.map().contains_key(q) implies self.map()[q] == m[q] by {
                        lemma_to_map_dom(nps, q);
                        let j = choose|j: int| 0 <= j < nps.len() && (#[trigger] nps[j]).0 == q;
                        lemma_to_map_value(nps, j);
                        old_self.lemma_names();
                        if j < i {
                            assert(ks[j] == q);
                            lemma_to_map_value(ps, j);
                        } else {
                            assert(ks[j + 1] == q);
                            lemma_to_map_value(ps, j + 1);
                        }
                    }
                    assert(self.map() =~= m);
                }
            },
        }
    }

    /// The entries whose positions are marked in `keep`, in order.
    pub fn filtered(&self, keep: &Vec<bool>) -> (r: Jar)
        requires
            self.wf(),
            keep.len() == self.names().len(),
        ensures
            r.wf(),
            forall|q: Seq<char>| #[trigger]
                r.map().contains_key(q) <==> (self.map().contains_key(q) && exists|i: int|
                    0 <= i < keep.len() && self.names()[i] == q && keep[i]),
            forall|q: Seq<char>| #[trigger]
                r.map().contains_key(q) ==> r.map()[q] == self.map()[q],
    {
        proof {
            self.lemma_names();
        }
        let ghost ks = self.names();
        let ghost ps = self.pairs();
        let mut out: Vec<(String, String)> = Vec::new();
        let mut i: usize = 0;
        // Each kept entry is recorded with where it came from.
        let ghost mut from: Seq<int> = Seq::empty();
        while i < self.entries.len()
            invariant
                i <= self.entries.len(),
                self.entries.len() == ks.len(),
                keep.len() == ks.len(),
                ks == self.names(),
                ps == self.pairs(),
                ascending(ks),
                from.len() == out@.len(),
                forall|m: int| 0 <= m < from.len() ==> 0 <= #[trigger] from[m] < i && keep[from[m]]
                    && out@[m].0@ == ps[from[m]].0 && out@[m].1@ == ps[from[m]].1,
                forall|a: int, b: int| 0 <= a < b < from.len() ==> #[trigger] from[a] < #[trigger] from[b],
                forall|j: int| 0 <= j < i && keep[j] ==> exists|m: int| 0 <= m < from.len() && #[trigger] from[m] == j,
            decreases self.entries.len() - i,
        {
            if keep[i] {
                let k = self.entries[i].0.clone();
                let v = self.entries[i].1.clone();
                out.push((k, v));
                proof {
                    let old_from = from;
                    from = from.push(i as int);
                    assert forall|j: int| 0 <= j < i + 1 && keep[j] implies exists|m: int|
                        0 <= m < from.len() && #[trigger] from[m] == j by {
                        if j == i {
                            assert(from[from.len() - 1] == j);
                        } else {
                            let m = choose|m: int| 0 <= m < old_from.len() && #[trigger] old_from[m] == j;
                            assert(from[m] == j);
                        }
                    }
                }
            }
            i += 1;
        }
        let r = Jar { entries: out };
        proof {
            let rps = r.pairs();
            let rks = r.names();
            assert forall|m: int| 0 <= m < rks.len() implies #[trigger] rks[m] == ks[from[m]] by {}
            assert forall|a: int, b: int| 0 <= a < b < rks.len() implies less(
                #[trigger] rks[a],
                #[trigger] rks[b],
            ) by {
                assert(rks[a] == ks[from[a]]);
                assert(rks[b] == ks[from[b]]);
            }
            lemma_ascending_distinct(rks);
            lemma_ascending_distinct(ks);
            assert forall|a: int, b: int| 0 <= a < b < rps.len() implies (#[trigger] rps[a]).0 != (
            #[trigger] rps[b]).0 by {
                assert(rps[a].0 == rks[a] && rps[b].0 == rks[b]);
            }
            assert forall|a: int, b: int| 0 <= a < b < ps.len() implies (#[trigger] ps[a]).0 != (
            #[trigger] ps[b]).0 by {
                assert(ps[a].0 == ks[a] && ps[b].0 == ks[b]);
            }
            assert forall|q: Seq<char>| #[trigger] r.map().contains_key(q) <==> (self.map().contains_key(q)
                && exists|i: int| 0 <= i < keep.len() && ks[i] == q && keep[i]) by {
                lemma_to_map_dom(rps, q);
                lemma_to_map_dom(ps, q);
                if r.map().contains_key(q) {
                    let m = choose|m: int| 0 <= m < rps.len() && (#[trigger] rps[m]).0 == q;
                    assert(ps[from[m]].0 == q);
                    assert(ks[from[m]] == q);
                }
                if exists|i: int| 0 <= i < keep.len() && ks[i] == q && keep[i] {
                    let j = choose|i: int| 0 <= i < keep.len() && ks[i] == q && keep[i];
                    let m = choose|m: int| 0 <= m < from.len() && #[trigger] from[m] == j;
                    assert(rps[m].0 == q);
                }
            }
            assert forall|q: Seq<char>| #[trigger] r.map().contains_key(q) implies r.map()[q] == self.map()[q] by {
                lemma_to_map_dom(rps, q);
                let m = choose|m: int| 0 <= m < rps.len() && (#[trigger] rps[m]).0 == q;
                lemma_to_map_value(rps, m);
                lemma_to_map_value(ps, from[m]);
            }
        }
        r
    }

    /// A jar holding the given pairs, a later pair winning over an earlier
    /// one with the same name.
    pub fn from_pairs(v: &Vec<(String, String)>) -> (j: Jar)
        ensures
            j.wf(),
            j.map() == to_map(view_pairs(v@)),
    {
        let ghost ps = view_pairs(v@);
        let mut j = Jar::new();
        let mut i: usize = 0;
        assert(ps.take(0) =~= Seq::<(Seq<char>, Seq<char>)>::empty());
        while i < v.len()
            invariant
                i <= v.len(),
                ps == view_pairs(v@),
                j.wf(),
                j.map() == to_map(ps.take(i as int)),
            decreases v.len() - i,
        {
            let k = v[i].0.clone();
            let x = v[i].1.clone();
            proof {
                assert(ps.take(i + 1).drop_last() =~= ps.take(i as int));
                assert(ps.take(i + 1).last() == ps[i as int]);
            }
            j.insert(k, x);
            i += 1;
        }
        assert(ps.take(v.len() as int) =~= ps);
        j
    }

    /// The entries, copied out in order.
    pub fn to_vec(&self) -> (r: Vec<(String, String)>)
        ensures
            view_pairs(r@) == self.pairs(),
    {
        let mut r: Vec<(String, String)> = Vec::new();
        let mut i: usize = 0;
        while i < self.entries.len()
            invariant
                i <= self.entries.len(),
                view_pairs(r@) == self.pairs().take(i as int),
            decreases self.entries.len() - i,
        {
            let k = self.entries[i].0.clone();
            let x = self.entries[i].1.clone();
            let ghost before = r@;
            r.push((k, x));
            proof {
                assert(view_pairs(r@) =~= view_pairs(before).push((k@, x@)));
                assert(self.pairs()[i as int] == (k@, x@));
                assert(self.pairs().take(i + 1) =~= self.pairs().take(i as int).push(
                    self.pairs()[i as int],
                ));
            }
            i += 1;
        }
        assert(self.pairs().take(self.entries.len() as int) =~= self.pairs());
        r
    }

    /// Whether nothing is held.
    pub fn is_empty(&self) -> (b: bool)
        ensures
            b == (self.pairs().len() == 0),
    {
        self.entries.len() == 0
    }

    /// The entries whose names satisfy `keep`, where `marks` says for each
    /// position whether its name does.
    pub fn keep_if(&self, marks: &Vec<bool>, Ghost(keep): Ghost<spec_fn(Seq<char>) -> bool>) -> (r: Jar)
        requires
            self.wf(),
            marks.len() == self.names().len(),
            forall|i: int| 0 <= i < marks.len() ==> marks[i] == keep(#[trigger] self.names()[i]),
        ensures
            r.wf(),
            r.map() == restrict(self.map(), keep),
    {
        proof {
            self.lemma_names();
        }
        let r = self.filtered(marks);
        proof {
            let m = restrict(self.map(), keep);
            assert forall|q: Seq<char>| #[trigger] r.map().contains_key(q) <==> m.contains_key(q) by {
                if self.map().contains_key(q) {
                    assert(self.names().contains(q));
                    let i = choose|i: int| 0 <= i < self.names().len() && self.names()[i] == q;
                    assert(marks[i] == keep(q));
                }
            }
            assert(r.map() =~= m);
        }
        r
    }

    /// A copy holding the same entries.
    pub fn duplicate(&self) -> (r: Jar)
        ensures
            r.pairs() == self.pairs(),
    {
        Jar { entries: self.to_vec() }
    }
}

} // verus!
