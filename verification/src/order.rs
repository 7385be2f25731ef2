//! Lexicographic order, and the sets and maps that it sorts.

use vstd::prelude::*;

verus! {

broadcast use crate::model::group_model;

/// An item with a place in a total order.
pub trait Ranked: Sized + Copy {
    /// The place of the item.
    spec fn rank(self) -> int;

    /// Two items in the same place are one item.
    proof fn rank_is_unique(a: Self, b: Self)
        requires
            a.rank() == b.rank(),
        ensures
            a == b,
    ;

    /// The place of the item.
    fn place(self) -> (r: u32)
        ensures
            r == self.rank(),
    ;
}

impl Ranked for char {
    open spec fn rank(self) -> int {
        self as int
    }

    proof fn rank_is_unique(a: Self, b: Self) {
    }

    fn place(self) -> (r: u32) {
        code_point(self)
    }
}

fn code_point(c: char) -> (r: u32)
    ensures
        r == c as int,
{
    c as u32
}

impl Ranked for u8 {
    open spec fn rank(self) -> int {
        self as int
    }

    proof fn rank_is_unique(a: Self, b: Self) {
    }

    fn place(self) -> (r: u32) {
        self as u32
    }
}

/// `a` stands before `b` in lexicographic order.
pub open spec fn precedes<T: Ranked>(a: Seq<T>, b: Seq<T>) -> bool
    decreases b.len(),
{
    b.len() > 0 && (a.len() == 0 || a[0].rank() < b[0].rank() || (a[0].rank() == b[0].rank()
        && precedes(a.drop_first(), b.drop_first())))
}

/// Nothing stands before itself.
pub proof fn precedes_irreflexive<T: Ranked>(a: Seq<T>)
    ensures
        !precedes(a, a),
    decreases a.len(),
{
    if a.len() > 0 {
        precedes_irreflexive(a.drop_first());
    }
}

/// The order is transitive.
pub proof fn precedes_transitive<T: Ranked>(a: Seq<T>, b: Seq<T>, c: Seq<T>)
    requires
        precedes(a, b),
        precedes(b, c),
    ensures
        precedes(a, c),
    decreases c.len(),
{
    if a.len() > 0 && a[0].rank() == b[0].rank() && b[0].rank() == c[0].rank() {
        precedes_transitive(a.drop_first(), b.drop_first(), c.drop_first());
    }
}

/// Of two different sequences one stands before the other.
pub proof fn precedes_total<T: Ranked>(a: Seq<T>, b: Seq<T>)
    ensures
        a == b || precedes(a, b) || precedes(b, a),
    decreases a.len(),
{
    if a.len() == 0 || b.len() == 0 {
        if a.len() == 0 && b.len() == 0 {
            assert(a =~= b);
        }
    } else if a[0].rank() == b[0].rank() {
        T::rank_is_unique(a[0], b[0]);
        precedes_total(a.drop_first(), b.drop_first());
        if a.drop_first() == b.drop_first() {
            assert(a =~= seq![a[0]] + a.drop_first());
            assert(b =~= seq![b[0]] + b.drop_first());
        }
    }
}

/// Two sequences do not stand before each other.
pub proof fn precedes_asymmetric<T: Ranked>(a: Seq<T>, b: Seq<T>)
    requires
        precedes(a, b),
    ensures
        !precedes(b, a),
        a != b,
{
    precedes_irreflexive(a);
    if precedes(b, a) {
        precedes_transitive(a, b, a);
    }
}

/// Whether `a` stands before `b` in lexicographic order.
pub(crate) fn is_before<T: Ranked>(a: &Vec<T>, b: &Vec<T>) -> (r: bool)
    ensures
        r == precedes(a@, b@),
{
    let mut i: usize = 0;
    assert(a@.skip(0) == a@);
    assert(b@.skip(0) == b@);
    while i < a.len() && i < b.len()
        invariant
            i <= a@.len(),
            i <= b@.len(),
            precedes(a@, b@) == precedes(a@.skip(i as int), b@.skip(i as int)),
        decreases a.len() - i,
    {
        assert(a@.skip(i as int)[0] == a@[i as int]);
        assert(b@.skip(i as int)[0] == b@[i as int]);
        let p: u32 = a[i].place();
        let q: u32 = b[i].place();
        if p != q {
            return p < q;
        }
        assert(a@.skip(i as int).drop_first() == a@.skip(i + 1));
        assert(b@.skip(i as int).drop_first() == b@.skip(i + 1));
        i += 1;
    }
    i < b.len()
}

// ---------------------------------------------------------------------------
// Ascending sequences
// ---------------------------------------------------------------------------

/// Every item stands before all that follow it.
pub open spec fn ascending<T: Ranked>(items: Seq<Seq<T>>) -> bool {
    forall|i: int, j: int|
        0 <= i < j < items.len() ==> precedes(#[trigger] items[i], #[trigger] items[j])
}

/// The items with one more in its place, unless it is there already.
pub open spec fn placed<T: Ranked>(items: Seq<Seq<T>>, item: Seq<T>) -> Seq<Seq<T>>
    decreases items.len(),
{
    if items.len() == 0 {
        seq![item]
    } else if items[0] == item {
        items
    } else if precedes(item, items[0]) {
        seq![item] + items
    } else {
        seq![items[0]] + placed(items.drop_first(), item)
    }
}

/// The position at which `placed` puts an item.
proof fn placed_at<T: Ranked>(items: Seq<Seq<T>>, item: Seq<T>, at: int)
    requires
        0 <= at <= items.len(),
        forall|i: int| 0 <= i < at ==> precedes(#[trigger] items[i], item),
        at == items.len() || items[at] == item || precedes(item, items[at]),
    ensures
        placed(items, item) == if at < items.len() && items[at] == item {
            items
        } else {
            items.insert(at, item)
        },
    decreases items.len(),
{
    if items.len() > 0 && at > 0 {
        precedes_asymmetric(items[0], item);
        let rest = items.drop_first();
        assert forall|i: int| 0 <= i < at - 1 implies precedes(#[trigger] rest[i], item) by {
            assert(rest[i] == items[i + 1]);
        }
        placed_at(rest, item, at - 1);
        if at < items.len() && items[at] == item {
            assert(seq![items[0]] + rest =~= items);
        } else {
            assert(seq![items[0]] + rest.insert(at - 1, item) =~= items.insert(at, item));
        }
    } else if at < items.len() && items[at] != item {
        precedes_irreflexive(item);
        assert(seq![item] + items =~= items.insert(0, item));
    } else if items.len() == 0 {
        assert(seq![item] =~= items.insert(0, item));
    }
}

/// Putting an item in its place keeps the items ascending and adds that item alone.
pub proof fn placed_keeps_order<T: Ranked>(items: Seq<Seq<T>>, item: Seq<T>)
    requires
        ascending(items),
    ensures
        ascending(placed(items, item)),
        forall|other: Seq<T>|
            #[trigger] placed(items, item).contains(other) <==> other == item || items.contains(
                other,
            ),
    decreases items.len(),
{
    if items.len() == 0 {
        let only = seq![item];
        assert(only[0] == item);
    } else if items[0] == item {
    } else if precedes(item, items[0]) {
        let all = seq![item] + items;
        assert forall|i: int, j: int| 0 <= i < j < all.len() implies precedes(
            #[trigger] all[i],
            #[trigger] all[j],
        ) by {
            if i == 0 {
                if j > 1 {
                    assert(precedes(items[0], items[j - 1]));
                    precedes_transitive(item, items[0], items[j - 1]);
                }
            } else {
                assert(precedes(items[i - 1], items[j - 1]));
            }
        }
        assert(all[0] == item);
        assert forall|other: Seq<T>| items.contains(other) implies all.contains(other) by {
            let k = items.index_of(other);
            assert(all[k + 1] == other);
        }
        assert forall|other: Seq<T>| all.contains(other) implies other == item || items.contains(
            other,
        ) by {
            let k = all.index_of(other);
            if k > 0 {
                assert(items[k - 1] == other);
            }
        }
    } else {
        precedes_total(items[0], item);
        let rest = items.drop_first();
        assert(ascending(rest)) by {
            assert forall|i: int, j: int| 0 <= i < j < rest.len() implies precedes(
                #[trigger] rest[i],
                #[trigger] rest[j],
            ) by {
                assert(precedes(items[i + 1], items[j + 1]));
            }
        }
        placed_keeps_order(rest, item);
        let tail = placed(rest, item);
        let all = seq![items[0]] + tail;
        assert forall|i: int, j: int| 0 <= i < j < all.len() implies precedes(
            #[trigger] all[i],
            #[trigger] all[j],
        ) by {
            if i == 0 {
                assert(tail.contains(tail[j - 1]));
                assert(all[j] == tail[j - 1]);
                if tail[j - 1] != item {
                    let k = rest.index_of(tail[j - 1]);
                    assert(precedes(items[0], items[k + 1]));
                }
            } else {
                assert(precedes(tail[i - 1], tail[j - 1]));
            }
        }
        assert forall|other: Seq<T>| #[trigger]
            all.contains(other) <==> other == item || items.contains(other) by {
            if all.contains(other) {
                let k = all.index_of(other);
                if k == 0 {
                    assert(items[0] == other);
                } else {
                    assert(tail[k - 1] == other);
                    assert(tail.contains(other));
                    if other != item {
                        let m = rest.index_of(other);
                        assert(items[m + 1] == other);
                    }
                }
            }
            if other == item || items.contains(other) {
                if other == item || rest.contains(other) {
                    assert(tail.contains(other));
                    let k = tail.index_of(other);
                    assert(all[k + 1] == other);
                } else {
                    let m = items.index_of(other);
                    if m > 0 {
                        assert(rest[m - 1] == other);
                    }
                    assert(all[0] == other);
                }
            }
        }
    }
}

/// Ascending items are determined by which items they are.
pub proof fn ascending_is_canonical<T: Ranked>(a: Seq<Seq<T>>, b: Seq<Seq<T>>)
    requires
        ascending(a),
        ascending(b),
        forall|item: Seq<T>| #[trigger] a.contains(item) <==> b.contains(item),
    ensures
        a == b,
    decreases a.len(),
{
    if a.len() == 0 {
        if b.len() > 0 {
            assert(b.contains(b[0]));
            assert(!a.contains(b[0]));
        }
        assert(a =~= b);
    } else {
        assert(a.contains(a[0]));
        let k = b.index_of(a[0]);
        assert(a.contains(b[0])) by {
            assert(b.contains(b[0]));
        }
        let m = a.index_of(b[0]);
        if a[0] != b[0] {
            assert(precedes(b[0], b[k]));
            assert(precedes(a[0], a[m]));
            precedes_asymmetric(a[0], b[0]);
        }
        let ra = a.drop_first();
        let rb = b.drop_first();
        assert forall|i: int, j: int| 0 <= i < j < ra.len() implies precedes(
            #[trigger] ra[i],
            #[trigger] ra[j],
        ) by {
            assert(precedes(a[i + 1], a[j + 1]));
        }
        assert forall|i: int, j: int| 0 <= i < j < rb.len() implies precedes(
            #[trigger] rb[i],
            #[trigger] rb[j],
        ) by {
            assert(precedes(b[i + 1], b[j + 1]));
        }
        assert forall|item: Seq<T>| #[trigger] ra.contains(item) <==> rb.contains(item) by {
            if ra.contains(item) {
                let i = ra.index_of(item);
                assert(a[i + 1] == item);
                assert(precedes(a[0], a[i + 1]));
                precedes_asymmetric(a[0], item);
                assert(a.contains(item));
                let j = b.index_of(item);
                assert(rb[j - 1] == item);
            }
            if rb.contains(item) {
                let i = rb.index_of(item);
                assert(b[i + 1] == item);
                assert(precedes(b[0], b[i + 1]));
                precedes_asymmetric(b[0], item);
                assert(b.contains(item));
                assert(a.contains(item));
                let j = a.index_of(item);
                assert(ra[j - 1] == item);
            }
        }
        ascending_is_canonical(ra, rb);
        assert(a =~= seq![a[0]] + ra);
        assert(b =~= seq![b[0]] + rb);
    }
}

/// Puts some bytes in their place, unless they are there already.
pub(crate) fn place_bytes(items: &mut Vec<Vec<u8>>, item: Vec<u8>)
    requires
        ascending(old(items).deep_view()),
    ensures
        final(items).deep_view() == placed(old(items).deep_view(), item@),
        ascending(final(items).deep_view()),
{
    let ghost before = items.deep_view();
    proof {
        placed_keeps_order(before, item@);
    }
    let mut at: usize = 0;
    while at < items.len() && is_before(&items[at], &item)
        invariant
            at <= items@.len(),
            before == items.deep_view(),
            forall|j: int| 0 <= j < at ==> precedes(#[trigger] before[j], item@),
        decreases items.len() - at,
    {
        assert(before[at as int] == items@[at as int]@);
        at += 1;
    }
    proof {
        if at < items.len() {
            assert(before[at as int] == items@[at as int]@);
            precedes_total(before[at as int], item@);
        }
        placed_at(before, item@, at as int);
    }
    if at < items.len() && !is_before(&item, &items[at]) {
        assert(before[at as int] == item@);
    } else {
        proof {
            if at < items.len() {
                precedes_asymmetric(item@, before[at as int]);
            }
        }
        items.insert(at, item);
        assert(items.deep_view() =~= before.insert(at as int, item@));
    }
}

/// The items with one more, behind all that do not stand after it.
pub open spec fn filed<T: Ranked>(items: Seq<Seq<T>>, item: Seq<T>) -> Seq<Seq<T>>
    decreases items.len(),
{
    if items.len() == 0 || precedes(item, items[0]) {
        seq![item] + items
    } else {
        seq![items[0]] + filed(items.drop_first(), item)
    }
}

/// The items in ascending order.
pub open spec fn sorted_items<T: Ranked>(items: Seq<Seq<T>>) -> Seq<Seq<T>>
    decreases items.len(),
{
    if items.len() == 0 {
        items
    } else {
        filed(sorted_items(items.drop_last()), items.last())
    }
}

/// No item stands before one that precedes it.
pub open spec fn in_order<T: Ranked>(items: Seq<Seq<T>>) -> bool {
    forall|i: int, j: int|
        0 <= i < j < items.len() ==> !precedes(#[trigger] items[j], #[trigger] items[i])
}

proof fn filed_at<T: Ranked>(items: Seq<Seq<T>>, item: Seq<T>, at: int)
    requires
        0 <= at <= items.len(),
        forall|i: int| 0 <= i < at ==> !precedes(item, #[trigger] items[i]),
        at == items.len() || precedes(item, items[at]),
    ensures
        filed(items, item) == items.insert(at, item),
    decreases items.len(),
{
    if at > 0 {
        let rest = items.drop_first();
        assert(!precedes(item, items[0]));
        assert forall|i: int| 0 <= i < at - 1 implies !precedes(item, #[trigger] rest[i]) by {
            assert(rest[i] == items[i + 1]);
        }
        filed_at(rest, item, at - 1);
        assert(seq![items[0]] + rest.insert(at - 1, item) =~= items.insert(at, item));
    } else {
        assert(seq![item] + items =~= items.insert(0, item));
    }
}

/// Filing an item keeps the items in order and adds that item alone.
pub proof fn filed_keeps_order<T: Ranked>(items: Seq<Seq<T>>, item: Seq<T>)
    requires
        in_order(items),
    ensures
        in_order(filed(items, item)),
        filed(items, item).to_multiset() == items.to_multiset().insert(item),
    decreases items.len(),
{
    broadcast use vstd::seq_lib::group_to_multiset_ensures;

    let all = filed(items, item);
    if items.len() == 0 || precedes(item, items[0]) {
        assert forall|i: int, j: int| 0 <= i < j < all.len() implies !precedes(
            #[trigger] all[j],
            #[trigger] all[i],
        ) by {
            if i == 0 {
                if precedes(items[j - 1], item) {
                    precedes_transitive(items[j - 1], item, items[0]);
                    if j == 1 {
                        precedes_irreflexive(items[0]);
                    } else {
                        assert(!precedes(items[j - 1], items[0]));
                    }
                }
            } else {
                assert(!precedes(items[j - 1], items[i - 1]));
            }
        }
        assert(all =~= items.insert(0, item));
    } else {
        let rest = items.drop_first();
        assert forall|i: int, j: int| 0 <= i < j < rest.len() implies !precedes(
            #[trigger] rest[j],
            #[trigger] rest[i],
        ) by {
            assert(!precedes(items[j + 1], items[i + 1]));
        }
        filed_keeps_order(rest, item);
        let tail = filed(rest, item);
        assert forall|i: int, j: int| 0 <= i < j < all.len() implies !precedes(
            #[trigger] all[j],
            #[trigger] all[i],
        ) by {
            if i == 0 {
                let other = tail[j - 1];
                assert(tail.to_multiset().contains(other));
                if other != item {
                    assert(rest.to_multiset().contains(other));
                    let k = rest.index_of(other);
                    assert(!precedes(items[k + 1], items[0]));
                }
            } else {
                assert(!precedes(tail[j - 1], tail[i - 1]));
            }
        }
        assert(all =~= tail.insert(0, items[0]));
        assert(items =~= rest.insert(0, items[0]));
        assert(all.to_multiset() =~= items.to_multiset().insert(item));
    }
}

/// Sorting rearranges the items so that none stands before one that precedes it.
pub proof fn sorting_rearranges<T: Ranked>(items: Seq<Seq<T>>)
    ensures
        in_order(sorted_items(items)),
        sorted_items(items).to_multiset() == items.to_multiset(),
    decreases items.len(),
{
    broadcast use vstd::seq_lib::group_to_multiset_ensures;

    if items.len() > 0 {
        let before = items.drop_last();
        sorting_rearranges(before);
        filed_keeps_order(sorted_items(before), items.last());
        assert(items =~= before.push(items.last()));
    }
}

/// Sorts runs of bytes.
pub(crate) fn sort_bytes(items: &Vec<Vec<u8>>) -> (r: Vec<Vec<u8>>)
    ensures
        r.deep_view() == sorted_items(items.deep_view()),
{
    let ghost all = items.deep_view();
    let mut sorted: Vec<Vec<u8>> = Vec::new();
    let mut i: usize = 0;
    assert(sorted.deep_view() =~= sorted_items(all.take(0)));
    while i < items.len()
        invariant
            i <= items@.len(),
            all == items.deep_view(),
            sorted.deep_view() == sorted_items(all.take(i as int)),
        decreases items.len() - i,
    {
        let item = crate::model::copy_bytes(&items[i]);
        assert(all[i as int] == item@);
        assert(all.take(i + 1).drop_last() == all.take(i as int));
        let ghost before = sorted.deep_view();
        let mut at: usize = 0;
        while at < sorted.len() && !is_before(&item, &sorted[at])
            invariant
                at <= sorted@.len(),
                before == sorted.deep_view(),
                forall|j: int| 0 <= j < at ==> !precedes(item@, #[trigger] before[j]),
            decreases sorted.len() - at,
        {
            assert(before[at as int] == sorted@[at as int]@);
            at += 1;
        }
        proof {
            if at < sorted.len() {
                assert(before[at as int] == sorted@[at as int]@);
            }
            filed_at(before, item@, at as int);
        }
        sorted.insert(at, item);
        assert(sorted.deep_view() =~= before.insert(at as int, item@));
        i += 1;
    }
    assert(all.take(all.len() as int) == all);
    sorted
}

// ---------------------------------------------------------------------------
// Sets of texts
// ---------------------------------------------------------------------------

/// A set of texts, held in ascending order.
#[derive(Debug, PartialEq, Eq)]
pub struct TextSet {
    items: Vec<String>,
}

impl View for TextSet {
    type V = Seq<Seq<char>>;

    /// The members in ascending order.
    closed spec fn view(&self) -> Seq<Seq<char>> {
        self.items.deep_view()
    }
}

impl DeepView for TextSet {
    type V = Seq<Seq<char>>;

    open spec fn deep_view(&self) -> Seq<Seq<char>> {
        self@
    }
}

impl TextSet {
    #[verifier::type_invariant]
    spec fn sorted(self) -> bool {
        ascending(self@)
    }

    /// The empty set.
    pub fn new() -> (r: Self)
        ensures
            r@ == Seq::<Seq<char>>::empty(),
    {
        let items: Vec<String> = Vec::new();
        assert(items.deep_view() =~= Seq::<Seq<char>>::empty());
        TextSet { items }
    }

    /// Whether the text is a member.
    pub fn contains(&self, text: &str) -> (r: bool)
        ensures
            r == self@.contains(text@),
    {
        let mut i: usize = 0;
        while i < self.items.len()
            invariant
                i <= self.items.len(),
                forall|j: int| 0 <= j < i ==> #[trigger] self@[j] != text@,
            decreases self.items.len() - i,
        {
            if crate::text::same_text(self.items[i].as_str(), text) {
                assert(self@[i as int] == text@);
                return true;
            }
            i += 1;
        }
        false
    }

    /// Adds a member. The answer is whether it was missing.
    pub fn insert(&mut self, text: String) -> (r: bool)
        ensures
            final(self)@ == placed(old(self)@, text@),
            r == !old(self)@.contains(text@),
            ascending(final(self)@),
    {
        proof {
            use_type_invariant(&*self);
            placed_keeps_order(self@, text@);
        }
        let key = crate::text::chars(text.as_str());
        let mut items: Vec<String> = Vec::new();
        std::mem::swap(&mut items, &mut self.items);
        let ghost before = items.deep_view();
        let mut at: usize = 0;
        while at < items.len() && is_before(&crate::text::chars(items[at].as_str()), &key)
            invariant
                at <= items@.len(),
                before == items.deep_view(),
                key@ == text@,
                forall|j: int| 0 <= j < at ==> precedes(#[trigger] before[j], text@),
            decreases items.len() - at,
        {
            at += 1;
        }
        if at < items.len() && crate::text::same_text(items[at].as_str(), text.as_str()) {
            proof {
                assert(before[at as int] == text@);
                placed_at(before, text@, at as int);
            }
            self.items = items;
            false
        } else {
            proof {
                if at < items.len() {
                    precedes_total(before[at as int], text@);
                    assert forall|j: int| at < j < before.len() implies before[j] != text@ by {
                        assert(precedes(before[at as int], before[j]));
                        precedes_transitive(text@, before[at as int], before[j]);
                        precedes_asymmetric(text@, before[j]);
                    }
                }
                assert forall|j: int| 0 <= j < at implies before[j] != text@ by {
                    precedes_asymmetric(before[j], text@);
                }
                placed_at(before, text@, at as int);
            }
            items.insert(at, text);
            assert(items.deep_view() =~= before.insert(at as int, text@));
            self.items = items;
            true
        }
    }

    /// The members in ascending order.
    pub fn items(&self) -> (r: &Vec<String>)
        ensures
            r.deep_view() == self@,
            ascending(self@),
    {
        proof {
            use_type_invariant(self);
        }
        &self.items
    }

    /// Whether two sets have the same members.
    pub fn same(&self, other: &TextSet) -> (r: bool)
        ensures
            r == (self@ == other@),
    {
        if self.items.len() != other.items.len() {
            assert(self@.len() != other@.len());
            return false;
        }
        let mut i: usize = 0;
        while i < self.items.len()
            invariant
                i <= self.items.len(),
                self.items.len() == other.items.len(),
                forall|j: int| 0 <= j < i ==> #[trigger] self@[j] == other@[j],
            decreases self.items.len() - i,
        {
            if !(self.items[i] == other.items[i]) {
                assert(self@[i as int] != other@[i as int]);
                return false;
            }
            i += 1;
        }
        assert(self@ =~= other@);
        true
    }
}

impl Clone for TextSet {
    fn clone(&self) -> (r: Self)
        ensures
            r@ == self@,
    {
        proof {
            use_type_invariant(self);
        }
        let items = self.items.clone();
        assert(items.deep_view() =~= self.items.deep_view());
        TextSet { items }
    }
}

// ---------------------------------------------------------------------------
// Maps keyed by text
// ---------------------------------------------------------------------------

/// The keys of a run of entries.
pub open spec fn keys<W>(entries: Seq<(Seq<char>, W)>) -> Seq<Seq<char>> {
    Seq::new(entries.len(), |i: int| entries[i].0)
}

/// The value under the key.
pub open spec fn held<W>(entries: Seq<(Seq<char>, W)>, key: Seq<char>) -> Option<W>
    decreases entries.len(),
{
    if entries.len() == 0 {
        None
    } else if entries[0].0 == key {
        Some(entries[0].1)
    } else {
        held(entries.drop_first(), key)
    }
}

/// The entries with the value under the key, in the key's place.
pub open spec fn put<W>(entries: Seq<(Seq<char>, W)>, key: Seq<char>, value: W) -> Seq<
    (Seq<char>, W),
>
    decreases entries.len(),
{
    if entries.len() == 0 {
        seq![(key, value)]
    } else if entries[0].0 == key {
        seq![(key, value)] + entries.drop_first()
    } else if precedes(key, entries[0].0) {
        seq![(key, value)] + entries
    } else {
        seq![entries[0]] + put(entries.drop_first(), key, value)
    }
}

/// A key holds nothing exactly if it is no entry's key.
pub proof fn held_iff_key<W>(entries: Seq<(Seq<char>, W)>, key: Seq<char>)
    ensures
        held(entries, key) is Some <==> keys(entries).contains(key),
    decreases entries.len(),
{
    if entries.len() > 0 {
        held_iff_key(entries.drop_first(), key);
        let rest = entries.drop_first();
        if keys(rest).contains(key) {
            let k = keys(rest).index_of(key);
            assert(keys(entries)[k + 1] == key);
        }
        if keys(entries).contains(key) && entries[0].0 != key {
            let k = keys(entries).index_of(key);
            assert(keys(rest)[k - 1] == key);
        }
        if entries[0].0 == key {
            assert(keys(entries)[0] == key);
        }
    }
}

/// The first entry with the key holds its value.
proof fn held_at<W>(entries: Seq<(Seq<char>, W)>, key: Seq<char>, at: int)
    requires
        0 <= at <= entries.len(),
        forall|i: int| 0 <= i < at ==> (#[trigger] entries[i]).0 != key,
        at == entries.len() || entries[at].0 == key,
    ensures
        held(entries, key) == if at < entries.len() {
            Some(entries[at].1)
        } else {
            None
        },
    decreases entries.len(),
{
    if entries.len() > 0 && at > 0 {
        assert(entries[0].0 != key);
        let rest = entries.drop_first();
        assert forall|i: int| 0 <= i < at - 1 implies (#[trigger] rest[i]).0 != key by {
            assert(rest[i] == entries[i + 1]);
        }
        held_at(rest, key, at - 1);
    }
}

/// The position at which `put` puts a value.
proof fn put_at<W>(entries: Seq<(Seq<char>, W)>, key: Seq<char>, value: W, at: int)
    requires
        0 <= at <= entries.len(),
        forall|i: int| 0 <= i < at ==> precedes((#[trigger] entries[i]).0, key),
        at == entries.len() || entries[at].0 == key || precedes(key, entries[at].0),
    ensures
        put(entries, key, value) == if at < entries.len() && entries[at].0 == key {
            entries.update(at, (key, value))
        } else {
            entries.insert(at, (key, value))
        },
    decreases entries.len(),
{
    if entries.len() > 0 && at > 0 {
        assert(precedes(entries[0].0, key));
        precedes_asymmetric(entries[0].0, key);
        let rest = entries.drop_first();
        assert forall|i: int| 0 <= i < at - 1 implies precedes((#[trigger] rest[i]).0, key) by {
            assert(rest[i] == entries[i + 1]);
        }
        put_at(rest, key, value, at - 1);
        if at < entries.len() && entries[at].0 == key {
            assert(seq![entries[0]] + rest.update(at - 1, (key, value)) =~= entries.update(
                at,
                (key, value),
            ));
        } else {
            assert(seq![entries[0]] + rest.insert(at - 1, (key, value)) =~= entries.insert(
                at,
                (key, value),
            ));
        }
    } else if entries.len() == 0 {
        assert(seq![(key, value)] =~= entries.insert(0, (key, value)));
    } else if entries[0].0 == key {
        assert(seq![(key, value)] + entries.drop_first() =~= entries.update(0, (key, value)));
    } else {
        assert(seq![(key, value)] + entries =~= entries.insert(0, (key, value)));
    }
}

/// Putting a value under a key keeps the keys ascending; the key then holds the value, and every
/// other key holds what it held.
pub proof fn put_holds<W>(entries: Seq<(Seq<char>, W)>, key: Seq<char>, value: W)
    requires
        ascending(keys(entries)),
    ensures
        ascending(keys(put(entries, key, value))),
        keys(put(entries, key, value)) == placed(keys(entries), key),
        held(put(entries, key, value), key) == Some(value),
        forall|other: Seq<char>|
            other != key ==> #[trigger] held(put(entries, key, value), other) == held(
                entries,
                other,
            ),
{
    put_keys(entries, key, value);
    placed_keeps_order(keys(entries), key);
    put_held(entries, key, value, key);
    assert forall|other: Seq<char>| other != key implies #[trigger] held(
        put(entries, key, value),
        other,
    ) == held(entries, other) by {
        put_held(entries, key, value, other);
    }
}

proof fn put_keys<W>(entries: Seq<(Seq<char>, W)>, key: Seq<char>, value: W)
    ensures
        keys(put(entries, key, value)) == placed(keys(entries), key),
    decreases entries.len(),
{
    if entries.len() == 0 {
        assert(keys(put(entries, key, value)) =~= placed(keys(entries), key));
    } else {
        let rest = entries.drop_first();
        put_keys(rest, key, value);
        assert(keys(rest) =~= keys(entries).drop_first());
        assert(keys(put(entries, key, value)) =~= placed(keys(entries), key));
    }
}

proof fn put_held<W>(entries: Seq<(Seq<char>, W)>, key: Seq<char>, value: W, other: Seq<char>)
    ensures
        held(put(entries, key, value), other) == if other == key {
            Some(value)
        } else {
            held(entries, other)
        },
    decreases entries.len(),
{
    let all = put(entries, key, value);
    if entries.len() == 0 {
        assert(all.drop_first() =~= Seq::<(Seq<char>, W)>::empty());
        reveal_with_fuel(held, 2);
    } else if entries[0].0 == key {
        assert(all.drop_first() =~= entries.drop_first());
    } else if precedes(key, entries[0].0) {
        assert(all.drop_first() =~= entries);
    } else {
        let rest = entries.drop_first();
        put_held(rest, key, value, other);
        assert(all.drop_first() =~= put(rest, key, value));
    }
}

/// The entries whose values pass the test.
pub open spec fn kept<W>(entries: Seq<(Seq<char>, W)>, test: spec_fn(W) -> bool) -> Seq<
    (Seq<char>, W),
>
    decreases entries.len(),
{
    if entries.len() == 0 {
        entries
    } else if test(entries.last().1) {
        kept(entries.drop_last(), test).push(entries.last())
    } else {
        kept(entries.drop_last(), test)
    }
}

/// Entries that are kept are entries that were there.
proof fn kept_were_there<W>(entries: Seq<(Seq<char>, W)>, test: spec_fn(W) -> bool)
    ensures
        forall|i: int|
            0 <= i < kept(entries, test).len() ==> entries.contains(
                #[trigger] kept(entries, test)[i],
            ),
    decreases entries.len(),
{
    if entries.len() > 0 {
        let before = entries.drop_last();
        kept_were_there(before, test);
        let all = kept(entries, test);
        assert forall|i: int| 0 <= i < all.len() implies entries.contains(#[trigger] all[i]) by {
            if i < kept(before, test).len() {
                assert(before.contains(kept(before, test)[i]));
                let k = before.index_of(all[i]);
                assert(entries[k] == all[i]);
            } else {
                assert(entries[entries.len() - 1] == all[i]);
            }
        }
    }
}

/// Dropping entries keeps the keys ascending, and every key holds what it held if that passes the
/// test, and nothing otherwise.
pub proof fn kept_holds<W>(entries: Seq<(Seq<char>, W)>, test: spec_fn(W) -> bool)
    requires
        ascending(keys(entries)),
    ensures
        ascending(keys(kept(entries, test))),
        forall|key: Seq<char>| #[trigger]
            held(kept(entries, test), key) == match held(entries, key) {
                Some(value) => if test(value) {
                    Some(value)
                } else {
                    None
                },
                None => None,
            },
    decreases entries.len(),
{
    if entries.len() > 0 {
        let before = entries.drop_last();
        let last = entries.last();
        assert(ascending(keys(before))) by {
            assert forall|i: int, j: int| 0 <= i < j < keys(before).len() implies precedes(
                #[trigger] keys(before)[i],
                #[trigger] keys(before)[j],
            ) by {
                assert(precedes(keys(entries)[i], keys(entries)[j]));
            }
        }
        kept_holds(before, test);
        kept_were_there(before, test);
        let rest = kept(before, test);
        let all = kept(entries, test);
        assert forall|i: int, j: int| 0 <= i < j < keys(all).len() implies precedes(
            #[trigger] keys(all)[i],
            #[trigger] keys(all)[j],
        ) by {
            if j < rest.len() {
                assert(precedes(keys(rest)[i], keys(rest)[j]));
            } else {
                assert(before.contains(rest[i]));
                let k = before.index_of(rest[i]);
                assert(precedes(keys(entries)[k], keys(entries)[entries.len() - 1]));
            }
        }
        assert forall|key: Seq<char>| #[trigger] held(all, key) == match held(entries, key) {
            Some(value) => if test(value) {
                Some(value)
            } else {
                None
            },
            None => None,
        } by {
            held_after_push(before, last, key);
            assert(entries =~= before.push(last));
            held_after_push(rest, last, key);
            assert(held(rest, key) == match held(before, key) {
                Some(value) => if test(value) {
                    Some(value)
                } else {
                    None
                },
                None => None,
            });
            if key == last.0 {
                held_iff_key(before, key);
                if keys(before).contains(key) {
                    let k = keys(before).index_of(key);
                    assert(precedes(keys(entries)[k], keys(entries)[entries.len() - 1]));
                    precedes_asymmetric(
                        keys(entries)[k],
                        keys(entries)[entries.len() - 1],
                    );
                }
            }
        }
    }
}

/// An entry at the end decides only if nothing before it has its key.
proof fn held_after_push<W>(entries: Seq<(Seq<char>, W)>, added: (Seq<char>, W), key: Seq<char>)
    ensures
        held(entries.push(added), key) == match held(entries, key) {
            Some(value) => Some(value),
            None => if added.0 == key {
                Some(added.1)
            } else {
                None
            },
        },
    decreases entries.len(),
{
    let all = entries.push(added);
    if entries.len() == 0 {
        assert(all.drop_first() =~= Seq::<(Seq<char>, W)>::empty());
        reveal_with_fuel(held, 2);
    } else {
        held_after_push(entries.drop_first(), added, key);
        assert(all.drop_first() =~= entries.drop_first().push(added));
    }
}

/// Entries in ascending order are determined by what each key holds.
pub proof fn entries_are_canonical<W>(a: Seq<(Seq<char>, W)>, b: Seq<(Seq<char>, W)>)
    requires
        ascending(keys(a)),
        ascending(keys(b)),
        forall|key: Seq<char>| #[trigger] held(a, key) == held(b, key),
    ensures
        a == b,
{
    assert forall|key: Seq<char>| #[trigger] keys(a).contains(key) <==> keys(b).contains(key) by {
        held_iff_key(a, key);
        held_iff_key(b, key);
        assert(held(a, key) == held(b, key));
    }
    ascending_is_canonical(keys(a), keys(b));
    assert(a.len() == keys(a).len() && b.len() == keys(b).len());
    assert forall|i: int| 0 <= i < a.len() implies a[i] == b[i] by {
        let key = a[i].0;
        assert(keys(a)[i] == key && keys(b)[i] == key);
        assert forall|j: int| 0 <= j < i implies (#[trigger] a[j]).0 != key by {
            assert(precedes(keys(a)[j], keys(a)[i]));
            precedes_asymmetric(keys(a)[j], keys(a)[i]);
        }
        assert forall|j: int| 0 <= j < i implies (#[trigger] b[j]).0 != key by {
            assert(precedes(keys(b)[j], keys(b)[i]));
            precedes_asymmetric(keys(b)[j], keys(b)[i]);
        }
        held_at(a, key, i);
        held_at(b, key, i);
        assert(held(a, key) == held(b, key));
    }
    assert(a =~= b);
}

/// What an entry holds is found under its key.
pub proof fn entries_are_found<W>(entries: Seq<(Seq<char>, W)>, at: int)
    requires
        ascending(keys(entries)),
        0 <= at < entries.len(),
    ensures
        held(entries, entries[at].0) == Some(entries[at].1),
{
    assert forall|i: int| 0 <= i < at implies (#[trigger] entries[i]).0 != entries[at].0 by {
        assert(precedes(keys(entries)[i], keys(entries)[at]));
        precedes_irreflexive(entries[at].0);
    }
    held_at(entries, entries[at].0, at);
}

/// A map from texts, held in ascending order of its keys.
#[derive(Debug, PartialEq, Eq)]
pub struct TextMap<V: DeepView> {
    entries: Vec<(String, V)>,
}

impl<V: DeepView> View for TextMap<V> {
    type V = Seq<(Seq<char>, V::V)>;

    /// The entries in ascending order of their keys.
    closed spec fn view(&self) -> Seq<(Seq<char>, V::V)> {
        self.entries.deep_view()
    }
}

impl<V: DeepView> DeepView for TextMap<V> {
    type V = Seq<(Seq<char>, V::V)>;

    open spec fn deep_view(&self) -> Seq<(Seq<char>, V::V)> {
        self@
    }
}

impl<V: DeepView> TextMap<V> {
    #[verifier::type_invariant]
    spec fn sorted(self) -> bool {
        ascending(keys(self@))
    }

    /// The empty map.
    pub fn new() -> (r: Self)
        ensures
            r@ == Seq::<(Seq<char>, V::V)>::empty(),
    {
        let entries: Vec<(String, V)> = Vec::new();
        assert(entries.deep_view() =~= Seq::<(Seq<char>, V::V)>::empty());
        TextMap { entries }
    }

    /// The value under the key.
    pub fn get(&self, key: &str) -> (r: Option<&V>)
        ensures
            match r {
                Some(value) => held(self@, key@) == Some(value.deep_view()),
                None => held(self@, key@) is None,
            },
    {
        let mut i: usize = 0;
        while i < self.entries.len() && !crate::text::same_text(self.entries[i].0.as_str(), key)
            invariant
                i <= self.entries.len(),
                forall|j: int| 0 <= j < i ==> (#[trigger] self@[j]).0 != key@,
            decreases self.entries.len() - i,
        {
            i += 1;
        }
        if i < self.entries.len() {
            proof {
                assert(self@[i as int].0 == key@);
                held_at(self@, key@, i as int);
            }
            Some(&self.entries[i].1)
        } else {
            proof {
                held_at(self@, key@, i as int);
            }
            None
        }
    }

    /// Puts a value under a key, in place of the value that was there.
    pub fn insert(&mut self, key: String, value: V)
        ensures
            final(self)@ == put(old(self)@, key@, value.deep_view()),
            ascending(keys(final(self)@)),
    {
        let ghost added = value.deep_view();
        proof {
            use_type_invariant(&*self);
            put_holds(self@, key@, added);
        }
        let name = crate::text::chars(key.as_str());
        let mut entries: Vec<(String, V)> = Vec::new();
        std::mem::swap(&mut entries, &mut self.entries);
        let ghost before = entries.deep_view();
        let mut at: usize = 0;
        while at < entries.len() && is_before(&crate::text::chars(entries[at].0.as_str()), &name)
            invariant
                at <= entries@.len(),
                before == entries.deep_view(),
                name@ == key@,
                forall|j: int| 0 <= j < at ==> precedes((#[trigger] before[j]).0, key@),
            decreases entries.len() - at,
        {
            at += 1;
        }
        proof {
            if at < entries.len() {
                precedes_total(before[at as int].0, key@);
            }
            put_at(before, key@, added, at as int);
        }
        if at < entries.len() && crate::text::same_text(entries[at].0.as_str(), key.as_str()) {
            entries[at] = (key, value);
            assert(entries.deep_view() =~= before.update(at as int, (key@, added)));
        } else {
            entries.insert(at, (key, value));
            assert(entries.deep_view() =~= before.insert(at as int, (key@, added)));
        }
        self.entries = entries;
    }

    /// The map of entries whose keys ascend.
    pub(crate) fn from_entries(entries: Vec<(String, V)>) -> (r: Self)
        requires
            ascending(keys(entries.deep_view())),
        ensures
            r@ == entries.deep_view(),
    {
        TextMap { entries }
    }

    /// Whether there are no entries.
    pub fn is_empty(&self) -> (r: bool)
        ensures
            r == (self@.len() == 0),
    {
        assert(self@.len() == self.entries@.len());
        self.entries.len() == 0
    }

    /// The entries in ascending order of their keys.
    pub fn entries(&self) -> (r: &Vec<(String, V)>)
        ensures
            r.deep_view() == self@,
            ascending(keys(self@)),
    {
        proof {
            use_type_invariant(self);
        }
        &self.entries
    }
}

/// Whether clones of values hold the same as the values.
pub open spec fn faithful<V: DeepView + Clone>() -> bool {
    forall|value: V, copy: V| #[trigger]
        call_ensures(V::clone, (&value,), copy) ==> copy.deep_view() == value.deep_view()
}

impl<V: DeepView + Clone> Clone for TextMap<V> {
    fn clone(&self) -> (r: Self)
        ensures
            keys(r@) == keys(self@),
            faithful::<V>() ==> r@ == self@,
    {
        proof {
            use_type_invariant(self);
        }
        let mut entries: Vec<(String, V)> = Vec::new();
        let mut i: usize = 0;
        while i < self.entries.len()
            invariant
                i <= self.entries@.len(),
                entries@.len() == i,
                forall|j: int| 0 <= j < i ==> (#[trigger] entries@[j]).0@ == self.entries@[j].0@,
                faithful::<V>() ==> forall|j: int|
                    0 <= j < i ==> (#[trigger] entries@[j]).1.deep_view()
                        == self.entries@[j].1.deep_view(),
            decreases self.entries.len() - i,
        {
            let value = self.entries[i].1.clone();
            entries.push((self.entries[i].0.clone(), value));
            i += 1;
        }
        assert(keys(entries.deep_view()) =~= keys(self@));
        proof {
            if faithful::<V>() {
                assert(entries.deep_view() =~= self@);
            }
        }
        TextMap { entries }
    }
}

}
