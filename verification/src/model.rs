//! Views of nested collections.

use vstd::prelude::*;

verus! {

/// The contents of each item.
pub open spec fn contents<T: DeepView>(items: Seq<T>) -> Seq<T::V> {
    Seq::new(items.len(), |i: int| items[i].deep_view())
}

/// One item if the condition holds, and none otherwise.
pub open spec fn optional<T>(condition: bool, item: T) -> Seq<T> {
    if condition {
        seq![item]
    } else {
        seq![]
    }
}

/// What an outcome holds.
pub open spec fn outcome<T: DeepView, E: DeepView>(r: Result<T, E>) -> Result<T::V, E::V> {
    match r {
        Ok(value) => Ok(value.deep_view()),
        Err(error) => Err(error.deep_view()),
    }
}

/// A vector of characters holds its characters, at any depth of view.
pub broadcast proof fn chars_are_plain(chars: Vec<char>)
    ensures
        #[trigger] chars.deep_view() == chars@,
{
    assert(chars.deep_view() =~= chars@);
}

/// A vector of bytes holds its bytes, at any depth of view.
pub broadcast proof fn bytes_are_plain(bytes: Vec<u8>)
    ensures
        #[trigger] bytes.deep_view() == bytes@,
{
    assert(bytes.deep_view() =~= bytes@);
}

/// Appending an item to a vector appends its contents.
pub broadcast proof fn contents_after_push<T: DeepView>(items: Seq<T>, item: T)
    ensures
        #[trigger] contents(items.push(item)) == contents(items).push(item.deep_view()),
{
    assert(contents(items.push(item)) =~= contents(items).push(item.deep_view()));
}

/// A vector's contents are those of its items.
pub broadcast proof fn contents_of_vec<T: DeepView>(items: Vec<T>)
    ensures
        #[trigger] items.deep_view() == contents(items@),
{
    assert(items.deep_view() =~= contents(items@));
}

/// A copy of some bytes.
pub(crate) fn copy_bytes(bytes: &Vec<u8>) -> (r: Vec<u8>)
    ensures
        r@ == bytes@,
{
    let r = bytes.clone();
    assert(r@ =~= bytes@);
    r
}

/// A copy of some texts.
pub(crate) fn copy_texts(texts: &Vec<String>) -> (r: Vec<String>)
    ensures
        r.deep_view() == texts.deep_view(),
{
    let r = texts.clone();
    assert(r.deep_view() =~= texts.deep_view());
    r
}

pub broadcast group group_model {
    chars_are_plain,
    bytes_are_plain,
    contents_after_push,
    contents_of_vec,
}

}
