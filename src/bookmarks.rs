//! Browser bookmarks: the walk over a Chromium-style bookmarks tree.
//! Finding the browsers' files and reading JSON or SQLite is up to the caller.
use vstd::prelude::*;
use crate::text::str_eq;

verus! {

/// A bookmark: its title and its address.
#[derive(Debug, Clone)]
pub struct Bookmark {
    pub title: String,
    pub url: String,
}

/// A JSON value, as far as the bookmarks tree needs it.
pub enum JsonNode {
    /// An object, as its members in document order.
    Object(Vec<(String, JsonNode)>),
    /// An array.
    Array(Vec<JsonNode>),
    /// A string.
    Str(String),
    /// A number, boolean or null.
    Other,
}

/// The position of the first member named `key`.
pub open spec fn member_index(ms: Seq<(String, JsonNode)>, key: Seq<char>) -> Option<int>
    decreases ms.len(),
{
    if ms.len() == 0 {
        None
    } else if ms[0].0@ == key {
        Some(0)
    } else {
        match member_index(ms.subrange(1, ms.len() as int), key) {
            Some(k) => Some(k + 1),
            None => None,
        }
    }
}

/// The member `key` of an object (the first so named); `None` for other values.
pub open spec fn member(n: JsonNode, key: Seq<char>) -> Option<JsonNode> {
    match n {
        JsonNode::Object(ms) => match member_index(ms@, key) {
            Some(k) => if 0 <= k < ms@.len() { Some(ms@[k].1) } else { None },
            None => None,
        },
        _ => None,
    }
}

/// The bookmark that a node which is not a folder describes: string `url`
/// and `name` members.
pub open spec fn leaf_of(n: JsonNode) -> Seq<(Seq<char>, Seq<char>)> {
    match (member(n, "url"@), member(n, "name"@)) {
        (Some(JsonNode::Str(u)), Some(JsonNode::Str(t))) => seq![(t@, u@)],
        _ => Seq::empty(),
    }
}

/// The bookmarks under a node, as (title, url) pairs in document order: a
/// node with a `children` array is a folder; otherwise a node with string
/// `url` and `name` is a bookmark.
pub open spec fn bookmarks_of(n: JsonNode) -> Seq<(Seq<char>, Seq<char>)>
    decreases n,
{
    match n {
        JsonNode::Object(ms) => match member_index(ms@, "children"@) {
            Some(k) => if 0 <= k < ms@.len() {
                match ms@[k].1 {
                    JsonNode::Array(children) => bookmarks_in(children@),
                    _ => leaf_of(n),
                }
            } else {
                leaf_of(n)
            },
            None => leaf_of(n),
        },
        _ => Seq::empty(),
    }
}

pub open spec fn bookmarks_in(ns: Seq<JsonNode>) -> Seq<(Seq<char>, Seq<char>)>
    decreases ns,
{
    if ns.len() == 0 {
        Seq::empty()
    } else {
        bookmarks_of(ns[0]) + bookmarks_in(ns.subrange(1, ns.len() as int))
    }
}

proof fn lemma_member_index(ms: Seq<(String, JsonNode)>, i: int, key: Seq<char>)
    requires
        0 <= i <= ms.len(),
        forall|j: int| 0 <= j < i ==> #[trigger] ms[j].0@ != key,
    ensures
        i < ms.len() && ms[i].0@ == key ==> member_index(ms, key) == Some(i),
        i == ms.len() ==> member_index(ms, key) is None,
    decreases i,
{
    if i > 0 {
        let t = ms.subrange(1, ms.len() as int);
        assert forall|j: int| 0 <= j < i - 1 implies #[trigger] t[j].0@ != key by {
            assert(t[j] == ms[j + 1]);
        }
        lemma_member_index(t, i - 1, key);
        if i < ms.len() {
            assert(t[i - 1] == ms[i]);
        }
    }
}

/// The position of the member `key` of an object's members.
fn find_member(ms: &Vec<(String, JsonNode)>, key: &str) -> (r: Option<usize>)
    ensures
        match member_index(ms@, key@) {
            Some(k) => r is Some && r->0 as int == k,
            None => r is None,
        },
        r is Some ==> r->0 < ms@.len(),
{
    let mut i: usize = 0;
    while i < ms.len()
        invariant
            i <= ms.len(),
            forall|j: int| 0 <= j < i ==> #[trigger] ms@[j].0@ != key@,
        decreases ms.len() - i,
    {
        if str_eq(ms[i].0.as_str(), key) {
            proof { lemma_member_index(ms@, i as int, key@); }
            return Some(i);
        }
        i = i + 1;
    }
    proof { lemma_member_index(ms@, i as int, key@); }
    None
}

/// The member `key` of an object node.
fn get_member<'a>(n: &'a JsonNode, key: &str) -> (r: Option<&'a JsonNode>)
    ensures
        match member(*n, key@) {
            Some(v) => r is Some && *r->0 == v,
            None => r is None,
        },
{
    match n {
        JsonNode::Object(ms) => match find_member(ms, key) {
            Some(k) => {
                assert(member_index(ms@, key@) == Some(k as int));
                assert(member(*n, key@) == Some(ms@[k as int].1));
                Some(&ms[k].1)
            },
            None => None,
        },
        _ => None,
    }
}

/// The (title, url) pairs of a list of bookmarks.
pub open spec fn pairs_of(bs: Seq<Bookmark>) -> Seq<(Seq<char>, Seq<char>)> {
    bs.map_values(|b: Bookmark| (b.title@, b.url@))
}

/// Appends the bookmark that a non-folder node describes, if any.
fn push_leaf(node: &JsonNode, out: &mut Vec<Bookmark>)
    ensures
        pairs_of(final(out)@) == pairs_of(old(out)@) + leaf_of(*node),
{
    let url = get_member(node, "url");
    let name = get_member(node, "name");
    if let (Some(JsonNode::Str(u)), Some(JsonNode::Str(t))) = (url, name) {
        let b = Bookmark { title: t.clone(), url: u.clone() };
        let ghost before = out@;
        out.push(b);
        assert(pairs_of(out@) =~= pairs_of(before) + seq![(t@, u@)]);
    } else {
        assert(pairs_of(out@) =~= pairs_of(out@) + Seq::<(Seq<char>, Seq<char>)>::empty());
    }
}

/// Appends the bookmarks under `node` to `out`, in document order.
pub fn extract_bookmarks_from_node(node: &JsonNode, out: &mut Vec<Bookmark>)
    ensures
        pairs_of(final(out)@) == pairs_of(old(out)@) + bookmarks_of(*node),
    decreases node,
{
    let ms = match node {
        JsonNode::Object(ms) => ms,
        _ => {
            assert(pairs_of(out@) =~= pairs_of(out@) + Seq::<(Seq<char>, Seq<char>)>::empty());
            return;
        },
    };
    let k = match find_member(ms, "children") {
        Some(k) => k,
        None => {
            push_leaf(node, out);
            return;
        },
    };
    let items = match &ms[k].1 {
        JsonNode::Array(items) => items,
        _ => {
            push_leaf(node, out);
            return;
        },
    };
    let mut i: usize = 0;
    let ghost start = out@;
    assert(items@.subrange(0, 0) =~= Seq::<JsonNode>::empty());
    assert(pairs_of(start) + Seq::<(Seq<char>, Seq<char>)>::empty() =~= pairs_of(start));
    while i < items.len()
        invariant
            i <= items.len(),
            *node is Object,
            (*node)->Object_0 == *ms,
            0 <= k < ms@.len(),
            ms@[k as int].1 is Array,
            ms@[k as int].1->Array_0 == *items,
            pairs_of(out@) == pairs_of(start) + bookmarks_in(items@.subrange(0, i as int)),
        decreases items.len() - i,
    {
        proof {
            assert(decreases_to!(*node => (*node)->Object_0));
            assert(decreases_to!(ms => ms[k as int]));
            assert(decreases_to!(ms[k as int] => ms[k as int].1));
            assert(decreases_to!(ms[k as int].1 => ms[k as int].1->Array_0));
            assert(decreases_to!(items => items[i as int]));
        }
        let ghost before = out@;
        extract_bookmarks_from_node(&items[i], out);
        proof {
            lemma_bookmarks_in_push(items@.subrange(0, i as int), items@[i as int]);
            assert(items@.subrange(0, i + 1) =~= items@.subrange(0, i as int).push(items@[i as int]));
            assert(pairs_of(out@) =~= pairs_of(start) + bookmarks_in(items@.subrange(0, i + 1)));
        }
        i = i + 1;
    }
    assert(items@.subrange(0, items@.len() as int) =~= items@);
}

proof fn lemma_bookmarks_in_push(ns: Seq<JsonNode>, n: JsonNode)
    ensures
        bookmarks_in(ns.push(n)) == bookmarks_in(ns) + bookmarks_of(n),
    decreases ns.len(),
{
    let p = ns.push(n);
    assert(p[0] == if ns.len() == 0 { n } else { ns[0] });
    if ns.len() == 0 {
        assert(p.subrange(1, p.len() as int) =~= Seq::<JsonNode>::empty());
        assert(bookmarks_in(Seq::<JsonNode>::empty()) == Seq::<(Seq<char>, Seq<char>)>::empty());
        assert(bookmarks_in(ns) == Seq::<(Seq<char>, Seq<char>)>::empty());
        assert(bookmarks_of(n) + Seq::<(Seq<char>, Seq<char>)>::empty() =~= bookmarks_of(n));
        assert(Seq::<(Seq<char>, Seq<char>)>::empty() + bookmarks_of(n) =~= bookmarks_of(n));
    } else {
        let rest = ns.subrange(1, ns.len() as int);
        assert(p.subrange(1, p.len() as int) =~= rest.push(n));
        lemma_bookmarks_in_push(rest, n);
        assert(bookmarks_of(ns[0]) + (bookmarks_in(rest) + bookmarks_of(n)) =~= (bookmarks_of(ns[0]) + bookmarks_in(rest)) + bookmarks_of(n));
    }
}

/// The bookmarks of a Chromium bookmarks document: those under every root
/// of its `roots` object, root after root; `None` when `roots` is not an
/// object.
pub fn parse_chrome_bookmarks(doc: &JsonNode) -> (r: Option<Vec<Bookmark>>)
    ensures
        match member(*doc, "roots"@) {
            Some(JsonNode::Object(roots)) => r is Some && pairs_of(r->0@) == bookmarks_in(roots@.map_values(|m: (String, JsonNode)| m.1)),
            _ => r is None,
        },
{
    match get_member(doc, "roots") {
        Some(JsonNode::Object(roots)) => {
            let mut out: Vec<Bookmark> = Vec::new();
            let ghost vals = roots@.map_values(|m: (String, JsonNode)| m.1);
            let mut i: usize = 0;
            assert(vals.subrange(0, 0) =~= Seq::<JsonNode>::empty());
            assert(pairs_of(out@) =~= Seq::<(Seq<char>, Seq<char>)>::empty());
            while i < roots.len()
                invariant
                    i <= roots.len(),
                    vals == roots@.map_values(|m: (String, JsonNode)| m.1),
                    pairs_of(out@) == bookmarks_in(vals.subrange(0, i as int)),
                decreases roots.len() - i,
            {
                extract_bookmarks_from_node(&roots[i].1, &mut out);
                proof { lemma_bookmarks_in_push(vals.subrange(0, i as int), vals[i as int]); }
                assert(vals.subrange(0, i + 1) =~= vals.subrange(0, i as int).push(vals[i as int]));
                i = i + 1;
            }
            assert(vals.subrange(0, vals.len() as int) =~= vals);
            Some(out)
        },
        _ => None,
    }
}

} // verus!
