//! The category tree, which lives in the CMS rather than in `/categories`.
//!
//! The site's menu is a nested `navigationNode` whose nodes each point at a
//! link component named `LN_<code>_<Name>`, so a category's code and a
//! serviceable name are recoverable from the ids alone.

use vstd::prelude::*;
use crate::json::{field, member_index, member_pos, str_value, text_at, Json, lemma_member_index};
use crate::mitre10::wire::str_of;
use crate::mitre10::domain::{
    CategoryNode, NodeView, level_of_code, lemma_node_views, lemma_node_views_append, node_view,
    node_views, walk_view, walked,
};
use crate::text::{
    chars_of, eq_str, extend, extend_str, index_of, index_of_exec, is_ascii_digit, opt_str, owned,
    slice, starts_with, starts_with_exec, string_of, strs,
};

verus! {

/// An id with its component-kind prefix, `LN_` or `NN_`, taken off.
pub open spec fn unprefixed(uid: Seq<char>) -> Seq<char> {
    if starts_with(uid, "LN_"@) || starts_with(uid, "NN_"@) {
        uid.skip(3)
    } else {
        uid
    }
}

/// Whether a sequence holds an ASCII digit.
pub open spec fn has_digit(s: Seq<char>) -> bool {
    exists|i: int| 0 <= i < s.len() && is_ascii_digit(s[i])
}

/// Underscores as spaces.
pub open spec fn spaced(s: Seq<char>) -> Seq<char> {
    s.map_values(|c: char| if c == '_' { ' ' } else { c })
}

/// Spaces as underscores.
pub open spec fn underscored(s: Seq<char>) -> Seq<char> {
    s.map_values(|c: char| if c == ' ' { '_' } else { c })
}

/// `LN_RD2002_Garden_Equipment` as `("RD2002", "Garden Equipment")`: the
/// token after the prefix is the code, which must carry a digit, and the rest
/// is the name with underscores for spaces.
pub open spec fn split_uid(uid: Seq<char>) -> Option<(Seq<char>, Seq<char>)> {
    let rest = unprefixed(uid);
    match index_of(rest, '_') {
        Some(k) => if has_digit(rest.take(k)) {
            Some((rest.take(k), spaced(rest.skip(k + 1))))
        } else {
            None
        },
        None => None,
    }
}

/// Characters with one replaced by another.
fn replaced(s: &[char], from: char, to: char) -> (r: Vec<char>)
    ensures
        r@ == s@.map_values(|c: char| if c == from { to } else { c }),
{
    let mut r: Vec<char> = Vec::new();
    let mut i: usize = 0;
    while i < s.len()
        invariant
            i <= s.len(),
            r@ == s@.take(i as int).map_values(|c: char| if c == from { to } else { c }),
        decreases s.len() - i,
    {
        if s[i] == from {
            r.push(to);
        } else {
            r.push(s[i]);
        }
        assert(r@ =~= s@.take(i + 1).map_values(|c: char| if c == from { to } else { c }));
        i += 1;
    }
    assert(s@.take(s.len() as int) =~= s@);
    r
}

/// Split a link or node id into its category code and a name; `None` for an
/// id with no code to take.
pub fn split(uid: &str) -> (r: Option<(String, String)>)
    ensures
        match r {
            Some(p) => split_uid(uid@) == Some((p.0@, p.1@)),
            None => split_uid(uid@) is None,
        },
{
    let cs = chars_of(uid);
    let ln = chars_of("LN_");
    let nn = chars_of("NN_");
    let rest = if starts_with_exec(&cs, &ln) || starts_with_exec(&cs, &nn) {
        proof {
            reveal_strlit("LN_");
            reveal_strlit("NN_");
        }
        slice(&cs, 3, cs.len())
    } else {
        slice(&cs, 0, cs.len())
    };
    assert(rest@ =~= unprefixed(uid@));
    let k = match index_of_exec(&rest, '_') {
        Some(k) => k,
        None => return None,
    };
    proof {
        crate::text::lemma_index_of_some(rest@, '_');
    }
    let code = slice(&rest, 0, k);
    let name = slice(&rest, k + 1, rest.len());
    assert(code@ =~= rest@.take(k as int));
    assert(name@ =~= rest@.skip(k + 1));
    let mut digit = false;
    let mut i: usize = 0;
    while i < code.len()
        invariant
            i <= code.len(),
            digit <==> exists|j: int| 0 <= j < i && is_ascii_digit(code@[j]),
        decreases code.len() - i,
    {
        if '0' <= code[i] && code[i] <= '9' {
            digit = true;
        }
        i += 1;
    }
    if !digit {
        return None;
    }
    let spaced_name = replaced(&name, '_', ' ');
    Some((string_of(&code), string_of(&spaced_name)))
}

/// The link component id of a node.
pub open spec fn link_id(n: CategoryNode) -> Seq<char> {
    "LN_"@ + n.code@ + "_"@ + underscored(n.name@)
}

/// The link ids of the nodes with a code, from a walk.
pub open spec fn coded_ids(ws: Seq<(CategoryNode, Seq<Seq<char>>)>) -> Seq<Seq<char>>
    decreases ws.len(),
{
    if ws.len() == 0 {
        Seq::empty()
    } else if ws.last().0.code@.len() > 0 {
        coded_ids(ws.drop_last()).push(link_id(ws.last().0))
    } else {
        coded_ids(ws.drop_last())
    }
}

/// The link component ids a tree needs resolving, depth first: one for each
/// node with a code.
pub fn link_ids(tree: &CategoryNode) -> (r: Vec<String>)
    ensures
        strs(r@) == coded_ids(walked(*tree, Seq::empty())),
{
    let nodes = tree.walk();
    let ghost ws = walk_view(nodes@);
    let mut ids: Vec<String> = Vec::new();
    let mut i: usize = 0;
    while i < nodes.len()
        invariant
            i <= nodes.len(),
            ws == walk_view(nodes@),
            ws == walked(*tree, Seq::empty()),
            strs(ids@) == coded_ids(ws.take(i as int)),
        decreases nodes.len() - i,
    {
        proof {
            assert(ws.take(i + 1).drop_last() =~= ws.take(i as int));
            assert(ws.take(i + 1).last() == ws[i as int]);
            assert(ws[i as int].0 == *nodes@[i as int].0);
        }
        let node = nodes[i].0;
        let code = chars_of(node.code.as_str());
        if code.len() > 0 {
            let mut id = chars_of("LN_");
            extend(&mut id, &code);
            extend_str(&mut id, "_");
            let name = chars_of(node.name.as_str());
            let u = replaced(&name, ' ', '_');
            extend(&mut id, &u);
            let s = string_of(&id);
            let ghost before = ids@;
            ids.push(s);
            assert(strs(ids@) =~= strs(before).push(s@));
        }
        i += 1;
    }
    assert(ws.take(nodes.len() as int) =~= ws);
    ids
}

/// A node whose id can be read back: a code with a digit in it and no
/// underscore, and a name with no underscore.
pub open spec fn splittable(n: CategoryNode) -> bool {
    has_digit(n.code@) && !n.code@.contains('_') && !n.name@.contains('_')
}

/// Splitting a node's link id gives back its code and its name.
pub proof fn lemma_a_link_id_splits_back(n: CategoryNode)
    requires
        splittable(n),
    ensures
        split_uid(link_id(n)) == Some((n.code@, n.name@)),
{
    reveal_strlit("LN_");
    reveal_strlit("NN_");
    reveal_strlit("_");
    let c = n.code@;
    let m = n.name@;
    let id = link_id(n);
    assert(id.subrange(0, 3) =~= "LN_"@);
    let rest = unprefixed(id);
    assert(rest =~= c + "_"@ + underscored(m));
    crate::text::lemma_index_of_some(rest, '_');
    assert(rest[c.len() as int] == '_');
    match index_of(rest, '_') {
        Some(k) => {
            if k < c.len() {
                assert(rest[k] == c[k]);
                assert(c.contains('_'));
            }
            assert(k == c.len());
        },
        None => {
            assert(false);
        },
    }
    assert(rest.take(c.len() as int) =~= c);
    assert(rest.skip(c.len() as int + 1) =~= underscored(m));
    assert forall|i: int| 0 <= i < m.len() implies spaced(underscored(m))[i] == m[i] by {
        if m[i] == '_' {
            assert(m.contains('_'));
        }
    }
    assert(spaced(underscored(m)) =~= m);
}

/// The nodes of a walk that have a code, in order.
pub open spec fn coded_nodes(ws: Seq<(CategoryNode, Seq<Seq<char>>)>) -> Seq<CategoryNode>
    decreases ws.len(),
{
    if ws.len() == 0 {
        Seq::empty()
    } else if ws.last().0.code@.len() > 0 {
        coded_nodes(ws.drop_last()).push(ws.last().0)
    } else {
        coded_nodes(ws.drop_last())
    }
}

/// The link ids of a walk are, position by position, the ids of its coded
/// nodes; and where every coded node can be read back, splitting each id
/// gives back that node's code and name.
pub proof fn lemma_link_ids_split_back(ws: Seq<(CategoryNode, Seq<Seq<char>>)>)
    ensures
        coded_ids(ws).len() == coded_nodes(ws).len(),
        forall|i: int| 0 <= i < coded_ids(ws).len() ==> #[trigger] coded_ids(ws)[i] == link_id(coded_nodes(ws)[i]),
        forall|i: int| 0 <= i < coded_nodes(ws).len() ==> (#[trigger] coded_nodes(ws)[i]).code@.len() > 0,
        (forall|j: int| 0 <= j < ws.len() && (#[trigger] ws[j]).0.code@.len() > 0 ==> splittable(ws[j].0))
            ==> forall|i: int|
            0 <= i < coded_ids(ws).len() ==> split_uid(#[trigger] coded_ids(ws)[i]) == Some(
                (coded_nodes(ws)[i].code@, coded_nodes(ws)[i].name@),
            ),
    decreases ws.len(),
{
    if ws.len() > 0 {
        let init = ws.drop_last();
        lemma_link_ids_split_back(init);
        if forall|j: int| 0 <= j < ws.len() && (#[trigger] ws[j]).0.code@.len() > 0 ==> splittable(ws[j].0) {
            assert forall|j: int| 0 <= j < init.len() && (#[trigger] init[j]).0.code@.len() > 0 implies splittable(init[j].0) by {
                assert(init[j] == ws[j]);
            }
            assert forall|i: int| 0 <= i < coded_ids(ws).len() implies split_uid(#[trigger] coded_ids(ws)[i]) == Some(
                (coded_nodes(ws)[i].code@, coded_nodes(ws)[i].name@),
            ) by {
                if i < coded_ids(init).len() {
                    assert(coded_ids(ws)[i] == coded_ids(init)[i]);
                    assert(coded_nodes(ws)[i] == coded_nodes(init)[i]);
                } else {
                    assert(ws[ws.len() - 1].0.code@.len() > 0);
                    lemma_a_link_id_splits_back(ws.last().0);
                }
            }
        }
    }
}

/// The browsable nodes of a walk -- those whose code names a catalogue
/// level -- as code, name and the names above.
pub open spec fn browsable_of(ws: Seq<(CategoryNode, Seq<Seq<char>>)>) -> Seq<
    (Seq<char>, Seq<char>, Seq<Seq<char>>),
>
    decreases ws.len(),
{
    if ws.len() == 0 {
        Seq::empty()
    } else if level_of_code(ws.last().0.code@) is Some {
        browsable_of(ws.drop_last()).push((ws.last().0.code@, ws.last().0.name@, ws.last().1))
    } else {
        browsable_of(ws.drop_last())
    }
}

/// Browsable entries by their characters.
pub open spec fn browse_view(v: Seq<(String, String, Vec<String>)>) -> Seq<
    (Seq<char>, Seq<char>, Seq<Seq<char>>),
> {
    v.map_values(|e: (String, String, Vec<String>)| (e.0@, e.1@, strs(e.2@)))
}

/// A copy of a list of strings.
fn copy_strings(v: &Vec<String>) -> (r: Vec<String>)
    ensures
        strs(r@) == strs(v@),
{
    let mut r: Vec<String> = Vec::new();
    let mut i: usize = 0;
    while i < v.len()
        invariant
            i <= v.len(),
            strs(r@) == strs(v@).take(i as int),
        decreases v.len() - i,
    {
        let s = v[i].clone();
        let ghost before = r@;
        r.push(s);
        proof {
            assert(strs(r@) =~= strs(before).push(s@));
            assert(strs(v@).take(i + 1) =~= strs(v@).take(i as int).push(v@[i as int]@));
        }
        i += 1;
    }
    assert(strs(v@).take(v.len() as int) =~= strs(v@));
    r
}

/// Every node that can actually be browsed, with the names above it. The
/// top menu entries are landing pages, and browsing one matches nothing.
pub fn browsable(tree: &CategoryNode) -> (r: Vec<(String, String, Vec<String>)>)
    ensures
        browse_view(r@) == browsable_of(walked(*tree, Seq::empty())),
{
    let nodes = tree.walk();
    let ghost ws = walk_view(nodes@);
    let mut out: Vec<(String, String, Vec<String>)> = Vec::new();
    let mut i: usize = 0;
    while i < nodes.len()
        invariant
            i <= nodes.len(),
            ws == walk_view(nodes@),
            ws == walked(*tree, Seq::empty()),
            browse_view(out@) == browsable_of(ws.take(i as int)),
        decreases nodes.len() - i,
    {
        proof {
            assert(ws.take(i + 1).drop_last() =~= ws.take(i as int));
            assert(ws.take(i + 1).last() == ws[i as int]);
            assert(ws[i as int] == (*nodes@[i as int].0, strs(nodes@[i as int].1@)));
        }
        let node = nodes[i].0;
        if node.level().is_some() {
            let e = (node.code.clone(), node.name.clone(), copy_strings(&nodes[i].1));
            let ghost before = out@;
            out.push(e);
            assert(browse_view(out@) =~= browse_view(before).push((e.0@, e.1@, strs(e.2@))));
        }
        i += 1;
    }
    assert(ws.take(nodes.len() as int) =~= ws);
    out
}


/// The first component of a type at or below a value: the value itself
/// where it is an object of that `typeCode`, else the first found in its
/// members or items, in order.
pub open spec fn component_in(v: Json, type_code: Seq<char>) -> Option<Json>
    decreases v, 1nat,
{
    match v {
        Json::Object(es) => if str_value(field(v, "typeCode"@)) == Some(type_code) {
            Some(v)
        } else {
            component_in_members(es@, type_code)
        },
        Json::Array(items) => component_in_items(items@, type_code),
        _ => None,
    }
}

/// The first component found among an object's members, in order.
pub open spec fn component_in_members(es: Seq<(String, Json)>, type_code: Seq<char>) -> Option<Json>
    decreases es, 0nat,
{
    if es.len() == 0 {
        None
    } else {
        match component_in_members(es.subrange(0, es.len() - 1), type_code) {
            Some(c) => Some(c),
            None => component_in(es[es.len() - 1].1, type_code),
        }
    }
}

/// The first component found among an array's items, in order.
pub open spec fn component_in_items(items: Seq<Json>, type_code: Seq<char>) -> Option<Json>
    decreases items, 0nat,
{
    if items.len() == 0 {
        None
    } else {
        match component_in_items(items.subrange(0, items.len() - 1), type_code) {
            Some(c) => Some(c),
            None => component_in(items[items.len() - 1], type_code),
        }
    }
}

/// A component found in a prefix of the members is the one found in all.
proof fn lemma_members_prefix(es: Seq<(String, Json)>, k: int, type_code: Seq<char>)
    requires
        0 <= k <= es.len(),
        component_in_members(es.take(k), type_code) is Some,
    ensures
        component_in_members(es, type_code) == component_in_members(es.take(k), type_code),
    decreases es.len() - k,
{
    if k < es.len() {
        assert(es.take(k + 1).subrange(0, k) =~= es.take(k));
        lemma_members_prefix(es, k + 1, type_code);
    } else {
        assert(es.take(k) =~= es);
    }
}

/// A component found in a prefix of the items is the one found in all.
proof fn lemma_items_prefix(items: Seq<Json>, k: int, type_code: Seq<char>)
    requires
        0 <= k <= items.len(),
        component_in_items(items.take(k), type_code) is Some,
    ensures
        component_in_items(items, type_code) == component_in_items(items.take(k), type_code),
    decreases items.len() - k,
{
    if k < items.len() {
        assert(items.take(k + 1).subrange(0, k) =~= items.take(k));
        lemma_items_prefix(items, k + 1, type_code);
    } else {
        assert(items.take(k) =~= items);
    }
}

/// The first component of a type, anywhere in a page response. The CMS nests
/// components in slots in content slots, and the depth is not stable.
fn find_component<'a>(v: &'a Json, type_code: &str) -> (r: Option<&'a Json>)
    ensures
        match r {
            Some(x) => component_in(*v, type_code@) == Some(*x),
            None => component_in(*v, type_code@) is None,
        },
    decreases v,
{
    match v {
        Json::Object(es) => {
            let is_it = match v.get("typeCode") {
                Some(Json::Str(t)) => eq_str(t.as_str(), type_code),
                _ => false,
            };
            if is_it {
                return Some(v);
            }
            let mut i: usize = 0;
            assert(es@.take(0) =~= Seq::<(String, Json)>::empty());
            while i < es.len()
                invariant
                    i <= es.len(),
                    *v == Json::Object(*es),
                    str_value(field(*v, "typeCode"@)) != Some(type_code@),
                    component_in_members(es@.take(i as int), type_code@) is None,
                decreases es.len() - i,
            {
                assert(es@.take(i + 1).subrange(0, i as int) =~= es@.take(i as int));
                assert(es@.take(i + 1)[i as int] == es@[i as int]);
                assert(decreases_to!(*v => *es));
                assert(decreases_to!(*es => es@));
                assert(decreases_to!(es@ => es@[i as int]));
                let r = find_component(&es[i].1, type_code);
                if r.is_some() {
                    proof {
                        lemma_members_prefix(es@, i + 1, type_code@);
                    }
                    return r;
                }
                i += 1;
            }
            assert(es@.take(es.len() as int) =~= es@);
            None
        },
        Json::Array(items) => {
            let mut i: usize = 0;
            assert(items@.take(0) =~= Seq::<Json>::empty());
            while i < items.len()
                invariant
                    i <= items.len(),
                    *v == Json::Array(*items),
                    component_in_items(items@.take(i as int), type_code@) is None,
                decreases items.len() - i,
            {
                assert(items@.take(i + 1).subrange(0, i as int) =~= items@.take(i as int));
                assert(items@.take(i + 1)[i as int] == items@[i as int]);
                assert(decreases_to!(*v => *items));
                assert(decreases_to!(*items => items@));
                let r = find_component(&items[i], type_code);
                if r.is_some() {
                    proof {
                        lemma_items_prefix(items@, i + 1, type_code@);
                    }
                    return r;
                }
                i += 1;
            }
            assert(items@.take(items.len() as int) =~= items@);
            None
        },
        _ => None,
    }
}

/// The link a navigation node points at: its first entry's `itemId`.
pub open spec fn link_of(v: Json) -> Option<Seq<char>> {
    match field(v, "entries"@) {
        Some(Json::Array(entries)) => if entries@.len() > 0 {
            str_value(field(entries@[0], "itemId"@))
        } else {
            None
        },
        _ => None,
    }
}

/// What one navigation node reads as: one category, coded by its link (or,
/// where it has none, its own uid) and named by its title or else by what
/// the id spells; or, where the id carries no code -- a structural wrapper
/// -- its children in its place.
pub open spec fn nav_node(v: Json) -> Seq<NodeView>
    decreases v, 1nat,
{
    let children: Seq<NodeView> = match v {
        Json::Object(es) => {
            let k = member_index(es@, "children"@);
            if 0 <= k < es@.len() {
                match es@[k].1 {
                    Json::Array(cs) => nav_nodes(cs@),
                    _ => Seq::empty(),
                }
            } else {
                Seq::empty()
            }
        },
        _ => Seq::empty(),
    };
    let id = match link_of(v) {
        Some(l) => Some(l),
        None => str_value(field(v, "uid"@)),
    };
    match id {
        Some(i) => match split_uid(i) {
            Some((code, derived)) => seq![
                NodeView {
                    code,
                    name: match str_value(field(v, "title"@)) {
                        Some(t) => t,
                        None => derived,
                    },
                    url: None,
                    children,
                },
            ],
            None => children,
        },
        None => children,
    }
}

/// A list of navigation nodes, each read in turn.
pub open spec fn nav_nodes(items: Seq<Json>) -> Seq<NodeView>
    decreases items, 0nat,
{
    if items.len() == 0 {
        Seq::empty()
    } else {
        nav_nodes(items.subrange(0, items.len() - 1)) + nav_node(items[items.len() - 1])
    }
}

/// The link a navigation node points at.
fn link(v: &Json) -> (r: Option<&str>)
    ensures
        match r {
            Some(s) => link_of(*v) == Some(s@),
            None => link_of(*v) is None,
        },
{
    let entries = match v.get("entries") {
        Some(Json::Array(entries)) => entries,
        _ => return None,
    };
    if entries.len() == 0 {
        return None;
    }
    match entries[0].get("itemId") {
        Some(Json::Str(s)) => Some(s.as_str()),
        _ => None,
    }
}

/// One navigation node, as zero or more categories.
fn node(v: &Json) -> (r: Vec<CategoryNode>)
    ensures
        node_views(r@) == nav_node(*v),
    decreases v, 1nat,
{
    let children: Vec<CategoryNode> = match v {
        Json::Object(es) => {
            proof {
                lemma_member_index(es@, "children"@);
            }
            match member_pos(es, "children") {
                Some(k) => match &es[k].1 {
                    Json::Array(cs) => {
                        assert(decreases_to!(*v => *es));
                        assert(decreases_to!(*es => es@));
                        assert(decreases_to!(es@ => es@[k as int]));
                        nodes(cs)
                    },
                    _ => {
                        assert(node_views(Seq::<CategoryNode>::empty()) =~= Seq::<NodeView>::empty());
                        Vec::new()
                    },
                },
                None => Vec::new(),
            }
        },
        _ => Vec::new(),
    };
    let id = match link(v) {
        Some(l) => Some(l),
        None => match v.get("uid") {
            Some(Json::Str(u)) => Some(u.as_str()),
            _ => None,
        },
    };
    let parts = match id {
        Some(i) => split(i),
        None => None,
    };
    match parts {
        Some((code, derived)) => {
            let name = match v.get("title") {
                Some(Json::Str(t)) => t.clone(),
                _ => derived,
            };
            let n = CategoryNode { code, name, url: None, children };
            let mut out: Vec<CategoryNode> = Vec::new();
            out.push(n);
            proof {
                lemma_node_views(out@);
                assert(node_views(out@) =~= nav_node(*v));
            }
            out
        },
        None => children,
    }
}

/// A list of navigation nodes, each read in turn.
fn nodes(items: &Vec<Json>) -> (r: Vec<CategoryNode>)
    ensures
        node_views(r@) == nav_nodes(items@),
    decreases items, 0nat,
{
    let mut out: Vec<CategoryNode> = Vec::new();
    let mut i: usize = 0;
    assert(items@.take(0) =~= Seq::<Json>::empty());
    while i < items.len()
        invariant
            i <= items.len(),
            node_views(out@) == nav_nodes(items@.take(i as int)),
        decreases items.len() - i,
    {
        assert(items@.take(i + 1).subrange(0, i as int) =~= items@.take(i as int));
        assert(items@.take(i + 1)[i as int] == items@[i as int]);
        assert(decreases_to!(*items => items@));
        let mut sub = node(&items[i]);
        proof {
            lemma_node_views_append(out@, sub@);
        }
        out.append(&mut sub);
        i += 1;
    }
    assert(items@.take(items.len() as int) =~= items@);
    out
}

/// The tree a page response carries: a `Shop` root over the top nodes of
/// its navigation component.
pub open spec fn tree_of(page: Json) -> Option<NodeView> {
    match component_in(page, "CategoryNavigationComponent"@) {
        Some(c) => match field(c, "navigationNode"@) {
            Some(root) => match field(root, "children"@) {
                Some(Json::Array(cs)) => Some(
                    NodeView {
                        code: Seq::empty(),
                        name: "Shop"@,
                        url: Some("/shop"@),
                        children: nav_nodes(cs@),
                    },
                ),
                _ => None,
            },
            None => None,
        },
        None => None,
    }
}

/// Build the tree from any page response carrying the navigation component;
/// `None` where the page has no such component.
pub fn tree(page: &Json) -> (r: Option<CategoryNode>)
    ensures
        match r {
            Some(n) => tree_of(*page) == Some(node_view(n)),
            None => tree_of(*page) is None,
        },
{
    let component = match find_component(page, "CategoryNavigationComponent") {
        Some(c) => c,
        None => return None,
    };
    let root = match component.get("navigationNode") {
        Some(r) => r,
        None => return None,
    };
    let cs = match root.get("children") {
        Some(Json::Array(cs)) => cs,
        _ => return None,
    };
    let children = nodes(cs);
    proof {
        reveal_strlit("Shop");
        reveal_strlit("/shop");
    }
    Some(CategoryNode { code: String::new(), name: owned("Shop"), url: Some(owned("/shop")), children })
}


/// What one resolved link component gives its code: its name and its URL.
pub type Resolution = (Seq<char>, Option<Seq<char>>, Option<Seq<char>>);

/// The codes a list of link components resolves, in order: each component
/// whose uid carries a code, with its `linkName` and `url`.
pub open spec fn resolved_of(items: Seq<Json>) -> Seq<(Seq<char>, Option<Seq<char>>, Option<Seq<char>>)>
    decreases items.len(),
{
    if items.len() == 0 {
        Seq::empty()
    } else {
        let rest = resolved_of(items.drop_last());
        let item = items.last();
        match str_value(field(item, "uid"@)) {
            Some(uid) => match split_uid(uid) {
                Some((code, _)) => rest.push((code, text_at(item, "linkName"@), text_at(item, "url"@))),
                None => rest,
            },
            None => rest,
        }
    }
}

/// What a `cms/components` answer resolves.
pub open spec fn resolved(components: Json) -> Seq<(Seq<char>, Option<Seq<char>>, Option<Seq<char>>)> {
    match field(components, "component"@) {
        Some(Json::Array(items)) => resolved_of(items@),
        _ => Seq::empty(),
    }
}

/// What a code resolves to: the last resolution given for it.
pub open spec fn resolution(
    res: Seq<(Seq<char>, Option<Seq<char>>, Option<Seq<char>>)>,
    code: Seq<char>,
) -> Option<(Option<Seq<char>>, Option<Seq<char>>)>
    decreases res.len(),
{
    if res.len() == 0 {
        None
    } else if res.last().0 == code {
        Some((res.last().1, res.last().2))
    } else {
        resolution(res.drop_last(), code)
    }
}

/// A node with the site's own names and URLs filled in: a resolved name
/// replaces the derived one, and a resolved URL fills one that is missing.
pub open spec fn filled(n: NodeView, res: Seq<(Seq<char>, Option<Seq<char>>, Option<Seq<char>>)>) -> NodeView
    decreases n, 1nat,
{
    let (name, url) = match resolution(res, n.code) {
        Some((nm, u)) => (
            match nm {
                Some(x) => x,
                None => n.name,
            },
            match n.url {
                Some(x) => Some(x),
                None => u,
            },
        ),
        None => (n.name, n.url),
    };
    NodeView { code: n.code, name, url, children: filled_list(n.children, res) }
}

/// Each of a list of nodes filled in.
pub open spec fn filled_list(
    ns: Seq<NodeView>,
    res: Seq<(Seq<char>, Option<Seq<char>>, Option<Seq<char>>)>,
) -> Seq<NodeView>
    decreases ns, 0nat,
{
    if ns.len() == 0 {
        Seq::empty()
    } else {
        filled_list(ns.subrange(0, ns.len() - 1), res).push(filled(ns[ns.len() - 1], res))
    }
}

/// Filling in a list keeps its length, and fills each node in its place.
pub proof fn lemma_filled_list(ns: Seq<NodeView>, res: Seq<(Seq<char>, Option<Seq<char>>, Option<Seq<char>>)>)
    ensures
        filled_list(ns, res).len() == ns.len(),
        forall|i: int| 0 <= i < ns.len() ==> #[trigger] filled_list(ns, res)[i] == filled(ns[i], res),
    decreases ns.len(),
{
    if ns.len() > 0 {
        let init = ns.subrange(0, ns.len() - 1);
        lemma_filled_list(init, res);
        assert forall|i: int| 0 <= i < ns.len() implies #[trigger] filled_list(ns, res)[i] == filled(
            ns[i],
            res,
        ) by {
            if i < ns.len() - 1 {
                assert(init[i] == ns[i]);
            }
        }
    }
}

/// Resolving link components changes names and URLs only: every node keeps
/// its code and its place, and a URL already known is kept.
pub proof fn lemma_resolving_keeps_the_tree(
    n: NodeView,
    res: Seq<(Seq<char>, Option<Seq<char>>, Option<Seq<char>>)>,
)
    ensures
        filled(n, res).code == n.code,
        filled(n, res).children.len() == n.children.len(),
        forall|i: int|
            0 <= i < n.children.len() ==> #[trigger] filled(n, res).children[i] == filled(
                n.children[i],
                res,
            ),
        n.url is Some ==> filled(n, res).url == n.url,
        resolution(res, n.code) is None ==> filled(n, res).name == n.name,
{
    lemma_filled_list(n.children, res);
}

/// Resolutions by their characters.
pub open spec fn res_view(r: Seq<(String, Option<String>, Option<String>)>) -> Seq<
    (Seq<char>, Option<Seq<char>>, Option<Seq<char>>),
> {
    r.map_values(|e: (String, Option<String>, Option<String>)| (e.0@, opt_str(e.1), opt_str(e.2)))
}

/// A copy of an optional string.
fn copy_opt(o: &Option<String>) -> (r: Option<String>)
    ensures
        opt_str(r) == opt_str(*o),
{
    match o {
        Some(s) => Some(s.clone()),
        None => None,
    }
}

/// The resolutions a `cms/components` answer carries, in order.
fn index(components: &Json) -> (r: Vec<(String, Option<String>, Option<String>)>)
    ensures
        res_view(r@) == resolved(*components),
{
    let mut out: Vec<(String, Option<String>, Option<String>)> = Vec::new();
    let items = match components.get("component") {
        Some(Json::Array(items)) => items,
        _ => {
            assert(res_view(out@) =~= Seq::<Resolution>::empty());
            return out;
        },
    };
    let mut i: usize = 0;
    assert(res_view(out@) =~= resolved_of(items@.take(0)));
    while i < items.len()
        invariant
            i <= items.len(),
            res_view(out@) == resolved_of(items@.take(i as int)),
        decreases items.len() - i,
    {
        assert(items@.take(i + 1).drop_last() =~= items@.take(i as int));
        assert(items@.take(i + 1).last() == items@[i as int]);
        let item = &items[i];
        let uid = match item.get("uid") {
            Some(Json::Str(u)) => Some(u.as_str()),
            _ => None,
        };
        match uid {
            Some(u) => match split(u) {
                Some((code, _)) => {
                    let e = (code, str_of(item, "linkName"), str_of(item, "url"));
                    let ghost before = out@;
                    out.push(e);
                    assert(res_view(out@) =~= res_view(before).push((e.0@, opt_str(e.1), opt_str(e.2))));
                },
                None => {},
            },
            None => {},
        }
        i += 1;
    }
    assert(items@.take(items.len() as int) =~= items@);
    out
}

/// What a code resolves to, the last resolution for it winning.
fn lookup(res: &Vec<(String, Option<String>, Option<String>)>, code: &str) -> (r: Option<
    (Option<String>, Option<String>),
>)
    ensures
        match r {
            Some(p) => resolution(res_view(res@), code@) == Some((opt_str(p.0), opt_str(p.1))),
            None => resolution(res_view(res@), code@) is None,
        },
{
    let ghost rv = res_view(res@);
    let mut i: usize = res.len();
    assert(rv.take(res.len() as int) =~= rv);
    while i > 0
        invariant
            i <= res.len(),
            rv == res_view(res@),
            resolution(rv, code@) == resolution(rv.take(i as int), code@),
        decreases i,
    {
        let k = i - 1;
        assert(rv.take(i as int).last() == rv[k as int]);
        assert(rv.take(i as int).drop_last() =~= rv.take(k as int));
        if eq_str(res[k].0.as_str(), code) {
            return Some((copy_opt(&res[k].1), copy_opt(&res[k].2)));
        }
        i = k;
    }
    None
}

/// A node with the resolutions filled in.
fn fill(n: &CategoryNode, res: &Vec<(String, Option<String>, Option<String>)>) -> (r: CategoryNode)
    ensures
        node_view(r) == filled(node_view(*n), res_view(res@)),
    decreases n,
{
    let (name, url) = match lookup(res, n.code.as_str()) {
        Some((nm, u)) => (
            match nm {
                Some(x) => x,
                None => n.name.clone(),
            },
            match &n.url {
                Some(x) => Some(x.clone()),
                None => u,
            },
        ),
        None => (n.name.clone(), copy_opt(&n.url)),
    };
    let ghost kids = node_views(n.children@);
    proof {
        lemma_node_views(n.children@);
    }
    let mut children: Vec<CategoryNode> = Vec::new();
    let mut i: usize = 0;
    assert(node_views(children@) =~= filled_list(kids.take(0), res_view(res@)));
    while i < n.children.len()
        invariant
            i <= n.children.len(),
            kids == node_views(n.children@),
            kids.len() == n.children@.len(),
            children@.len() == i,
            forall|j: int| 0 <= j < n.children@.len() ==> #[trigger] kids[j] == node_view(n.children@[j]),
            node_views(children@) == filled_list(kids.take(i as int), res_view(res@)),
        decreases n.children.len() - i,
    {
        assert(decreases_to!(*n => n.children));
        assert(decreases_to!(n.children => n.children@));
        let c = fill(&n.children[i], res);
        proof {
            assert(kids.take(i + 1).subrange(0, i as int) =~= kids.take(i as int));
            assert(kids.take(i + 1)[i as int] == kids[i as int]);
        }
        let ghost before = children@;
        children.push(c);
        proof {
            assert(children@.subrange(0, i as int) =~= before);
            assert(children@[i as int] == c);
        }
        i += 1;
    }
    assert(kids.take(n.children.len() as int) =~= kids);
    CategoryNode { code: n.code.clone(), name, url, children }
}

/// Replace derived names with the site's own and fill in each category's
/// URL, matching on the code: the name half of a uid does not always survive
/// a rename, but the code does.
pub fn apply(tree: &mut CategoryNode, components: &Json)
    ensures
        node_view(*final(tree)) == filled(node_view(*old(tree)), resolved(*components)),
{
    let res = index(components);
    let new_tree = fill(tree, &res);
    *tree = new_tree;
}

} // verus!
