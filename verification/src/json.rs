//! The JSON payloads that decisions arrive in. A [`serde_json::Value`] is read
//! as the collection of nodes it holds, each under the path that leads to it
//! from the root.
use vstd::prelude::*;

use crate::seqs::{opt_view, views};
use crate::text::{text_less, text_less_irreflexive, text_less_transitive};

verus! {

/// `serde_json::Value`: any JSON value.
#[verifier::external_type_specification]
#[verifier::external_body]
pub struct ExValue(serde_json::Value);

/// One step of a path into a JSON value.
pub enum Step {
    /// Into the member of that name.
    Key(Seq<char>),
    /// Into the array item of that index.
    Index(int),
}

/// What stands at one place of a JSON value.
pub enum Node {
    Null,
    Bool(bool),
    /// A number written as an integer in the range of `i64` or `u64`.
    Integer(int),
    /// Any other number.
    Float,
    Text(Seq<char>),
    /// An array, with its length.
    List(nat),
    Object,
}

/// What a JSON value holds: every node under its path, the value itself under
/// the empty path.
pub uninterp spec fn json_nodes(v: serde_json::Value) -> Map<Seq<Step>, Node>;

/// The node at the root.
pub open spec fn root(m: Map<Seq<Step>, Node>) -> Node {
    m[Seq::<Step>::empty()]
}

/// Whether the value has something one step below.
pub open spec fn has_step(m: Map<Seq<Step>, Node>, step: Step) -> bool {
    m.dom().contains(seq![step])
}

/// The value one step below.
pub open spec fn below(m: Map<Seq<Step>, Node>, step: Step) -> Map<Seq<Step>, Node> {
    Map::new(|p: Seq<Step>| m.dom().contains(seq![step] + p), |p: Seq<Step>| m[seq![step] + p])
}

/// The member `key`, where there is one.
pub open spec fn member(m: Map<Seq<Step>, Node>, key: Seq<char>) -> Option<Map<Seq<Step>, Node>> {
    if has_step(m, Step::Key(key)) {
        Some(below(m, Step::Key(key)))
    } else {
        None
    }
}

/// The text a value is, where it is one.
pub open spec fn node_text(m: Map<Seq<Step>, Node>) -> Option<Seq<char>> {
    match root(m) {
        Node::Text(s) => Some(s),
        _ => None,
    }
}

/// The integer a value is, where it is one within `lo..=hi`.
pub open spec fn node_integer(m: Map<Seq<Step>, Node>, lo: int, hi: int) -> Option<int> {
    match root(m) {
        Node::Integer(n) => if lo <= n <= hi {
            Some(n)
        } else {
            None
        },
        _ => None,
    }
}

/// The text of the member `key`.
pub open spec fn member_text(m: Map<Seq<Step>, Node>, key: Seq<char>) -> Option<Seq<char>> {
    match member(m, key) {
        Some(c) => node_text(c),
        None => None,
    }
}

/// The `i64` of the member `key`.
pub open spec fn member_i64(m: Map<Seq<Step>, Node>, key: Seq<char>) -> Option<int> {
    match member(m, key) {
        Some(c) => node_integer(c, i64::MIN as int, i64::MAX as int),
        None => None,
    }
}

/// The `u64` of the member `key`.
pub open spec fn member_u64(m: Map<Seq<Step>, Node>, key: Seq<char>) -> Option<int> {
    match member(m, key) {
        Some(c) => node_integer(c, 0, u64::MAX as int),
        None => None,
    }
}

/// `serde_json::Value::get` with a string index: the member of that name when
/// the value is an object that has one, nothing otherwise.
#[verifier::external_body]
pub(crate) fn json_get<'a>(
    v: &'a serde_json::Value,
    key: &str,
) -> (r: Option<&'a serde_json::Value>)
    ensures
        match r {
            Some(c) => member(json_nodes(*v), key@) == Some(json_nodes(*c)),
            None => member(json_nodes(*v), key@) is None,
        },
{
    v.get(key)
}

/// `serde_json::Value::as_str`: the text of a JSON string.
#[verifier::external_body]
pub(crate) fn json_str<'a>(v: &'a serde_json::Value) -> (r: Option<&'a str>)
    ensures
        match r {
            Some(s) => node_text(json_nodes(*v)) == Some(s@),
            None => node_text(json_nodes(*v)) is None,
        },
{
    v.as_str()
}

/// `serde_json::Value::as_u64`: the number when it is an integer of that range.
#[verifier::external_body]
pub(crate) fn json_u64(v: &serde_json::Value) -> (r: Option<u64>)
    ensures
        match r {
            Some(n) => node_integer(json_nodes(*v), 0, u64::MAX as int) == Some(n as int),
            None => node_integer(json_nodes(*v), 0, u64::MAX as int) is None,
        },
{
    v.as_u64()
}

/// `serde_json::Value::as_i64`: the number when it is an integer of that range.
#[verifier::external_body]
pub(crate) fn json_i64(v: &serde_json::Value) -> (r: Option<i64>)
    ensures
        match r {
            Some(n) => node_integer(json_nodes(*v), i64::MIN as int, i64::MAX as int) == Some(
                n as int,
            ),
            None => node_integer(json_nodes(*v), i64::MIN as int, i64::MAX as int) is None,
        },
{
    v.as_i64()
}

/// `serde_json::Value::is_null`: whether the value is JSON null.
#[verifier::external_body]
pub(crate) fn json_is_null(v: &serde_json::Value) -> (r: bool)
    ensures
        r == (root(json_nodes(*v)) == Node::Null),
{
    v.is_null()
}

/// `serde_json::Value::is_number`: whether the value is a JSON number.
#[verifier::external_body]
pub(crate) fn json_is_number(v: &serde_json::Value) -> (r: bool)
    ensures
        r == (root(json_nodes(*v)) is Integer || root(json_nodes(*v)) is Float),
{
    v.is_number()
}

/// `serde_json::Value::as_array`: the items of a JSON array, in order.
#[verifier::external_body]
pub(crate) fn json_list<'a>(v: &'a serde_json::Value) -> (r: Option<&'a Vec<serde_json::Value>>)
    ensures
        match r {
            Some(items) => {
                &&& root(json_nodes(*v)) == Node::List(items@.len())
                &&& forall|i: int|
                    0 <= i < items@.len() ==> json_nodes(#[trigger] items@[i]) == below(
                        json_nodes(*v),
                        Step::Index(i),
                    )
            },
            None => !(root(json_nodes(*v)) is List),
        },
{
    v.as_array()
}

/// `Clone` of a `serde_json::Value`: a value that holds the same.
#[verifier::external_body]
pub(crate) fn json_clone(v: &serde_json::Value) -> (r: serde_json::Value)
    ensures
        json_nodes(r) == json_nodes(*v),
{
    v.clone()
}

/// What an optional value holds.
pub open spec fn opt_json(v: Option<serde_json::Value>) -> Option<Map<Seq<Step>, Node>> {
    match v {
        Some(v) => Some(json_nodes(v)),
        None => None,
    }
}

/// A copy of an optional value.
pub fn clone_opt_json(v: &Option<serde_json::Value>) -> (r: Option<serde_json::Value>)
    ensures
        opt_json(r) == opt_json(*v),
{
    match v {
        Some(v) => Some(json_clone(v)),
        None => None,
    }
}

/// One member of a JSON object.
#[derive(Debug, PartialEq)]
pub struct Member {
    pub name: String,
    pub value: serde_json::Value,
}

impl View for Member {
    type V = (Seq<char>, Map<Seq<Step>, Node>);

    open spec fn view(&self) -> (Seq<char>, Map<Seq<Step>, Node>) {
        (self.name@, json_nodes(self.value))
    }
}

/// `ms` lists the members of the object `m`: each once, under its name, in the
/// order of the names.
pub open spec fn lists_members(
    ms: Seq<(Seq<char>, Map<Seq<Step>, Node>)>,
    m: Map<Seq<Step>, Node>,
) -> bool {
    &&& forall|i: int|
        0 <= i < ms.len() ==> member(m, (#[trigger] ms[i]).0) == Some(ms[i].1)
    &&& forall|i: int, j: int|
        0 <= i < j < ms.len() ==> text_less((#[trigger] ms[i]).0, (#[trigger] ms[j]).0)
    &&& forall|k: Seq<char>| #[trigger]
        has_step(m, Step::Key(k)) ==> exists|i: int|
            0 <= i < ms.len() && (#[trigger] ms[i]).0 == k
}

/// The members of an object, in the order of their names.
pub open spec fn object_members(m: Map<Seq<Step>, Node>) -> Seq<
    (Seq<char>, Map<Seq<Step>, Node>),
> {
    choose|ms: Seq<(Seq<char>, Map<Seq<Step>, Node>)>| lists_members(ms, m)
}

/// Two listings of one object start alike.
proof fn listings_start_alike(
    s: Seq<(Seq<char>, Map<Seq<Step>, Node>)>,
    t: Seq<(Seq<char>, Map<Seq<Step>, Node>)>,
    m: Map<Seq<Step>, Node>,
    i: int,
)
    requires
        lists_members(s, m),
        lists_members(t, m),
        0 <= i < s.len(),
    ensures
        i < t.len(),
        s[i] == t[i],
    decreases i,
{
    if i > 0 {
        listings_start_alike(s, t, m, i - 1);
    }
    assert forall|k: int| 0 <= k < i implies k < t.len() && s[k] == t[k] by {
        listings_start_alike(s, t, m, k);
    }
    assert(has_step(m, Step::Key(s[i].0))) by {
        assert(member(m, s[i].0) is Some);
    }
    let j = choose|j: int| 0 <= j < t.len() && (#[trigger] t[j]).0 == s[i].0;
    text_less_irreflexive(s[i].0);
    if j < i {
        assert(s[j] == t[j]);
        assert(text_less(s[j].0, s[i].0));
    }
    assert(i <= j);
    assert(has_step(m, Step::Key(t[i].0))) by {
        assert(member(m, t[i].0) is Some);
    }
    let k = choose|k: int| 0 <= k < s.len() && (#[trigger] s[k]).0 == t[i].0;
    text_less_irreflexive(t[i].0);
    if k < i {
        assert(s[k] == t[k]);
        assert(text_less(t[k].0, t[i].0));
    }
    assert(i <= k);
    if i < j && i < k {
        assert(text_less(t[i].0, t[j].0));
        assert(text_less(s[i].0, s[k].0));
        text_less_transitive(t[i].0, s[i].0, t[i].0);
    }
}

/// An object has one listing of its members.
pub proof fn members_are_listed_one_way(
    s: Seq<(Seq<char>, Map<Seq<Step>, Node>)>,
    m: Map<Seq<Step>, Node>,
)
    requires
        lists_members(s, m),
    ensures
        object_members(m) == s,
{
    let t = object_members(m);
    assert(lists_members(t, m));
    assert forall|i: int| 0 <= i < s.len() implies i < t.len() && s[i] == t[i] by {
        listings_start_alike(s, t, m, i);
    }
    if t.len() > s.len() {
        listings_start_alike(t, s, m, s.len() as int);
    }
    if s.len() > t.len() {
        listings_start_alike(s, t, m, t.len() as int);
    }
    assert(s =~= t);
}

/// `serde_json::Value::as_object`, with the members that `serde_json::Map::iter`
/// yields: without the crate's `preserve_order` feature the map is a `BTreeMap`,
/// so they come in the order of their names.
#[verifier::external_body]
pub(crate) fn json_members(v: &serde_json::Value) -> (r: Option<Vec<Member>>)
    ensures
        match r {
            Some(members) => root(json_nodes(*v)) == Node::Object && lists_members(
                views(members@),
                json_nodes(*v),
            ),
            None => root(json_nodes(*v)) != Node::Object,
        },
{
    let object = v.as_object()?;
    Some(object.iter().map(|(k, v)| Member { name: k.clone(), value: v.clone() }).collect())
}

/// Read the text of the member `key`.
pub fn read_text(v: &serde_json::Value, key: &str) -> (r: Option<String>)
    ensures
        opt_view(r) == member_text(json_nodes(*v), key@),
{
    match json_get(v, key) {
        Some(c) => match json_str(c) {
            Some(s) => Some(s.to_string()),
            None => None,
        },
        None => None,
    }
}

/// Read the member `key` as a signed number.
pub fn read_i64(v: &serde_json::Value, key: &str) -> (r: Option<i64>)
    ensures
        match r {
            Some(n) => member_i64(json_nodes(*v), key@) == Some(n as int),
            None => member_i64(json_nodes(*v), key@) is None,
        },
{
    match json_get(v, key) {
        Some(c) => json_i64(c),
        None => None,
    }
}

/// Read the member `key` as an unsigned number.
pub fn read_u64(v: &serde_json::Value, key: &str) -> (r: Option<u64>)
    ensures
        match r {
            Some(n) => member_u64(json_nodes(*v), key@) == Some(n as int),
            None => member_u64(json_nodes(*v), key@) is None,
        },
{
    match json_get(v, key) {
        Some(c) => json_u64(c),
        None => None,
    }
}

} // verus!
