//! JSON documents: what a `serde_json::Value` holds, and its bytes.

use vstd::prelude::*;

use crate::order::held;
use crate::order::keys;
use crate::order::put;
use crate::text::decimal_text;

verus! {

broadcast use crate::model::group_model;

/// The tree that a JSON value holds. A number is modelled by its text, an object by its members
/// in the order in which they are written.
pub enum JsonView {
    Null,
    Bool(bool),
    Number(Seq<char>),
    Text(Seq<char>),
    Array(Seq<JsonView>),
    Object(Seq<(Seq<char>, JsonView)>),
}

/// `serde_json::Value`, with insertion-ordered objects.
#[verifier::external_type_specification]
#[verifier::external_body]
pub struct ExValue(serde_json::Value);

/// The tree that the value holds.
pub uninterp spec fn json_of(value: serde_json::Value) -> JsonView;

/// The trees that the values hold.
pub open spec fn json_all(values: Seq<serde_json::Value>) -> Seq<JsonView> {
    Seq::new(values.len(), |i: int| json_of(values[i]))
}

/// The trees that the members hold.
pub open spec fn json_members(members: Seq<(String, serde_json::Value)>) -> Seq<
    (Seq<char>, JsonView),
> {
    Seq::new(members.len(), |i: int| (members[i].0@, json_of(members[i].1)))
}

/// A copy of a `serde_json::Value` holds the same tree.
pub assume_specification[ <serde_json::Value as Clone>::clone ](
    value: &serde_json::Value,
) -> (r: serde_json::Value)
    ensures
        json_of(r) == json_of(*value),
;

/// `serde_json::Value::Null`.
#[verifier::external_body]
pub(crate) fn null() -> (r: serde_json::Value)
    ensures
        json_of(r) == JsonView::Null,
{
    serde_json::Value::Null
}

/// `serde_json::Value::Bool`.
#[verifier::external_body]
pub(crate) fn boolean(value: bool) -> (r: serde_json::Value)
    ensures
        json_of(r) == JsonView::Bool(value),
{
    serde_json::Value::Bool(value)
}

/// `serde_json::Value::from` on an unsigned number, which is written in decimal.
#[verifier::external_body]
pub(crate) fn number(value: u64) -> (r: serde_json::Value)
    ensures
        json_of(r) == JsonView::Number(decimal_text(value as nat)),
{
    serde_json::Value::from(value)
}

/// `serde_json::Value::String`.
#[verifier::external_body]
pub(crate) fn text(value: &str) -> (r: serde_json::Value)
    ensures
        json_of(r) == JsonView::Text(value@),
{
    serde_json::Value::String(value.to_owned())
}

/// `serde_json::Value::Array`.
#[verifier::external_body]
pub(crate) fn array(items: Vec<serde_json::Value>) -> (r: serde_json::Value)
    ensures
        json_of(r) == JsonView::Array(json_all(items@)),
{
    serde_json::Value::Array(items)
}

/// The members with one more. A name that is there already keeps its place and takes the new
/// value.
pub open spec fn joined_by(members: Seq<(Seq<char>, JsonView)>, added: (Seq<char>, JsonView)) -> Seq<
    (Seq<char>, JsonView),
> {
    if keys(members).contains(added.0) {
        members.update(keys(members).index_of(added.0), added)
    } else {
        members.push(added)
    }
}

/// The members that an object holds when they are added one after the other.
pub open spec fn assembled(members: Seq<(Seq<char>, JsonView)>) -> Seq<(Seq<char>, JsonView)>
    decreases members.len(),
{
    if members.len() == 0 {
        members
    } else {
        joined_by(assembled(members.drop_last()), members.last())
    }
}

/// The object that holds the members, in the order in which they are added.
pub open spec fn object_of(members: Seq<(Seq<char>, JsonView)>) -> JsonView {
    JsonView::Object(assembled(members))
}

/// Members with different names are all there, in the order in which they were added.
pub proof fn distinct_members_stay(members: Seq<(Seq<char>, JsonView)>)
    requires
        keys(members).no_duplicates(),
    ensures
        assembled(members) == members,
    decreases members.len(),
{
    if members.len() > 0 {
        let before = members.drop_last();
        assert(keys(before) =~= keys(members).drop_last());
        distinct_members_stay(before);
        let name = members.last().0;
        if keys(before).contains(name) {
            let k = keys(before).index_of(name);
            assert(keys(members)[k] == keys(members)[members.len() - 1]);
        }
        assert(members =~= before.push(members.last()));
    }
}

/// Objects whose members have different names are equal only if their members are.
pub proof fn objects_tell_members_apart(
    a: Seq<(Seq<char>, JsonView)>,
    b: Seq<(Seq<char>, JsonView)>,
)
    requires
        keys(a).no_duplicates(),
        keys(b).no_duplicates(),
        object_of(a) == object_of(b),
    ensures
        a == b,
{
    distinct_members_stay(a);
    distinct_members_stay(b);
}

/// `serde_json::Value::Object` on a `serde_json::Map` collected from the members. The map keeps
/// the order in which names first came, and the last value of each name.
#[verifier::external_body]
pub(crate) fn object(members: Vec<(String, serde_json::Value)>) -> (r: serde_json::Value)
    ensures
        json_of(r) == object_of(json_members(members@)),
{
    serde_json::Value::Object(members.into_iter().collect())
}

/// The compact text of a tree, in UTF-8.
pub uninterp spec fn json_bytes(tree: JsonView) -> Seq<u8>;

/// `serde_json::to_vec` on a `Value`, whose bytes depend on the tree alone and are UTF-8. It cannot
/// fail there: member names are texts, numbers are finite and the bytes go to memory.
#[verifier::external_body]
pub(crate) fn to_bytes(value: &serde_json::Value) -> (r: Vec<u8>)
    ensures
        r@ == json_bytes(json_of(*value)),
        vstd::utf8::valid_utf8(r@),
{
    serde_json::to_vec(value).expect("a JSON value has a text")
}

/// The indented text of a tree.
pub uninterp spec fn json_pretty(tree: JsonView) -> Seq<char>;

/// `serde_json::to_string_pretty` on a `Value`, whose text depends on the tree alone. It cannot
/// fail there, for the reasons that hold of the compact text.
#[verifier::external_body]
pub(crate) fn to_pretty(value: &serde_json::Value) -> (r: String)
    ensures
        r@ == json_pretty(json_of(*value)),
{
    serde_json::to_string_pretty(value).expect("a JSON value has a text")
}

/// What parsing a text as one JSON value gives: its tree, or the text of the error.
pub uninterp spec fn json_parsed(text: Seq<char>) -> Result<JsonView, Seq<char>>;

/// `serde_json::from_str` into a `Value`. The outcome depends on the text alone.
#[verifier::external_body]
pub(crate) fn parse(text: &str) -> (r: Result<serde_json::Value, String>)
    ensures
        match r {
            Ok(value) => json_parsed(text@) == Ok::<JsonView, Seq<char>>(json_of(value)),
            Err(message) => json_parsed(text@) == Err::<JsonView, Seq<char>>(message@),
        },
{
    serde_json::from_str::<serde_json::Value>(text).map_err(|error| error.to_string())
}

/// The members one after the other, each in the place of its name.
pub open spec fn in_name_order(members: Seq<(Seq<char>, JsonView)>) -> Seq<(Seq<char>, JsonView)>
    decreases members.len(),
{
    if members.len() == 0 {
        members
    } else {
        put(in_name_order(members.drop_last()), members.last().0, members.last().1)
    }
}

/// The tree with the members of every object in ascending order of their names.
pub open spec fn canonical(tree: JsonView) -> JsonView
    decreases tree,
{
    match tree {
        JsonView::Array(items) => JsonView::Array(
            Seq::new(
                items.len(),
                |i: int|
                    if 0 <= i < items.len() {
                        canonical(items[i])
                    } else {
                        JsonView::Null
                    },
            ),
        ),
        JsonView::Object(members) => JsonView::Object(
            in_name_order(
                Seq::new(
                    members.len(),
                    |i: int|
                        if 0 <= i < members.len() {
                            (members[i].0, canonical(members[i].1))
                        } else {
                            (Seq::empty(), JsonView::Null)
                        },
                ),
            ),
        ),
        _ => tree,
    }
}

/// `serde_json::Value::sort_all_objects` sorts the members of every object, at any depth, by their
/// names.
#[verifier::external_body]
pub(crate) fn sort_members(value: &mut serde_json::Value)
    ensures
        json_of(*final(value)) == canonical(json_of(*old(value))),
{
    value.sort_all_objects()
}

// ---------------------------------------------------------------------------
// Contents
// ---------------------------------------------------------------------------

/// The member of an object under a name. Other trees have none.
pub open spec fn property_of(tree: JsonView, name: Seq<char>) -> Option<JsonView> {
    match tree {
        JsonView::Object(members) => held(members, name),
        _ => None,
    }
}

/// `serde_json::Value::get` on a name: the member of an object under that name, if it has one, and
/// nothing of a value that is no object.
#[verifier::external_body]
pub(crate) fn property<'a>(value: &'a serde_json::Value, name: &str) -> (r: Option<
    &'a serde_json::Value,
>)
    ensures
        match r {
            Some(member) => property_of(json_of(*value), name@) == Some(json_of(*member)),
            None => property_of(json_of(*value), name@) is None,
        },
{
    value.get(name)
}

/// `serde_json::Value::as_str`: the text that a value is, if it is one.
#[verifier::external_body]
pub(crate) fn plain_text(value: &serde_json::Value) -> (r: Option<&str>)
    ensures
        match r {
            Some(text) => json_of(*value) == JsonView::Text(text@),
            None => !(json_of(*value) is Text),
        },
{
    value.as_str()
}

// ---------------------------------------------------------------------------
// Documents
// ---------------------------------------------------------------------------

/// An object under construction: its members in the order in which they are added.
pub(crate) struct Members {
    entries: Vec<(String, serde_json::Value)>,
}

impl View for Members {
    type V = Seq<(Seq<char>, JsonView)>;

    closed spec fn view(&self) -> Seq<(Seq<char>, JsonView)> {
        json_members(self.entries@)
    }
}

impl Members {
    /// No members yet.
    pub(crate) fn new() -> (r: Self)
        ensures
            r@ == Seq::<(Seq<char>, JsonView)>::empty(),
    {
        let r = Members { entries: Vec::new() };
        assert(r@ =~= Seq::<(Seq<char>, JsonView)>::empty());
        r
    }

    /// Adds a member.
    pub(crate) fn with(self, name: &str, value: serde_json::Value) -> (r: Self)
        ensures
            r@ == self@.push((name@, json_of(value))),
    {
        let mut entries = self.entries;
        entries.push((name.to_owned(), value));
        let r = Members { entries };
        assert(r@ =~= self@.push((name@, json_of(value))));
        r
    }

    /// Adds a member that is a text.
    pub(crate) fn with_text(self, name: &str, value: &str) -> (r: Self)
        ensures
            r@ == self@.push((name@, JsonView::Text(value@))),
    {
        self.with(name, text(value))
    }

    /// The object of these members.
    pub(crate) fn finish(self) -> (r: serde_json::Value)
        ensures
            json_of(r) == object_of(self@),
    {
        object(self.entries)
    }
}

/// An array of texts.
pub open spec fn text_array(texts: Seq<Seq<char>>) -> JsonView {
    JsonView::Array(Seq::new(texts.len(), |i: int| JsonView::Text(texts[i])))
}

/// An array of bytes, each written as a number.
pub open spec fn byte_array(bytes: Seq<u8>) -> JsonView {
    JsonView::Array(
        Seq::new(bytes.len(), |i: int| JsonView::Number(decimal_text(bytes[i] as nat))),
    )
}

/// Writes an array of texts.
pub(crate) fn texts(items: &Vec<String>) -> (r: serde_json::Value)
    ensures
        json_of(r) == text_array(items.deep_view()),
{
    let mut values: Vec<serde_json::Value> = Vec::new();
    let mut i: usize = 0;
    while i < items.len()
        invariant
            i <= items.len(),
            values.len() == i,
            forall|j: int|
                0 <= j < i ==> json_of(#[trigger] values@[j]) == JsonView::Text(items@[j]@),
        decreases items.len() - i,
    {
        values.push(text(items[i].as_str()));
        i += 1;
    }
    let ghost all = items.deep_view();
    assert(json_all(values@) =~= Seq::new(all.len(), |i: int| JsonView::Text(all[i])));
    array(values)
}

/// Writes an array of bytes.
pub(crate) fn bytes(items: &[u8]) -> (r: serde_json::Value)
    ensures
        json_of(r) == byte_array(items@),
{
    let mut values: Vec<serde_json::Value> = Vec::new();
    let mut i: usize = 0;
    while i < items.len()
        invariant
            i <= items.len(),
            values.len() == i,
            forall|j: int|
                0 <= j < i ==> json_of(#[trigger] values@[j]) == JsonView::Number(
                    decimal_text(items@[j] as nat),
                ),
        decreases items.len() - i,
    {
        values.push(number(items[i] as u64));
        i += 1;
    }
    assert(json_all(values@) =~= Seq::new(
        items@.len(),
        |i: int| JsonView::Number(decimal_text(items@[i] as nat)),
    ));
    array(values)
}

}
