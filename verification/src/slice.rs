//! Target-specific decoding of one complete graph slice.

use vstd::prelude::*;
use vstd::utf8::encode_utf8;

use crate::context::ComponentContext;
use crate::context::ComponentContextView;
use crate::context::ContextErrorView;
use crate::hashing::blake3_of;
use crate::model::outcome;
use crate::order::ascending;
use crate::order::precedes;
use crate::text::debug;
use crate::text::debug_text;
use crate::text::Plus as _;

verus! {

broadcast use crate::model::group_model;

/// The largest number of items that an ordered map of pins or outputs holds.
pub const MOST_ITEMS: usize = 0xffff_ffff;

/// Connector-owned desired target model.
#[derive(Debug, PartialEq, Eq)]
pub struct DesiredSlice {
    /// Raw graph UUID bytes.
    pub graph_id: [u8; 16],
    /// Desired-intent provenance.
    pub generation: u64,
    /// Exact complete materialization identity.
    pub sequence: u64,
    /// Registered specs sorted by content hash.
    pub components: iddqd::IdOrdMap<ComponentPin>,
    /// Current-generation upstream output levels.
    pub upstream_outputs: iddqd::IdOrdMap<UpstreamOutput>,
}

/// What a [`DesiredSlice`] holds.
#[verifier::ext_equal]
pub struct DesiredSliceView {
    pub graph_id: Seq<u8>,
    pub generation: u64,
    pub sequence: u64,
    pub components: Seq<ComponentPinView>,
    pub upstream_outputs: Seq<UpstreamOutputView>,
}

impl DeepView for DesiredSlice {
    type V = DesiredSliceView;

    open spec fn deep_view(&self) -> DesiredSliceView {
        DesiredSliceView {
            graph_id: self.graph_id@,
            generation: self.generation,
            sequence: self.sequence,
            components: held_pins(self.components),
            upstream_outputs: held_outputs(self.upstream_outputs),
        }
    }
}

impl View for DesiredSlice {
    type V = DesiredSliceView;

    open spec fn view(&self) -> DesiredSliceView {
        self.deep_view()
    }
}

/// One validated component contribution.
#[derive(Debug, PartialEq, Eq)]
pub struct ComponentPin {
    /// Registered component-spec content hash.
    pub spec_hash: [u8; 32],
    /// Human-facing component name.
    pub name: String,
    /// Strict connector-owned context.
    pub context: ComponentContext,
}

/// What a [`ComponentPin`] holds.
#[verifier::ext_equal]
pub struct ComponentPinView {
    pub spec_hash: Seq<u8>,
    pub name: Seq<char>,
    pub context: ComponentContextView,
}

impl DeepView for ComponentPin {
    type V = ComponentPinView;

    open spec fn deep_view(&self) -> ComponentPinView {
        ComponentPinView {
            spec_hash: self.spec_hash@,
            name: self.name@,
            context: self.context@,
        }
    }
}

impl View for ComponentPin {
    type V = ComponentPinView;

    open spec fn view(&self) -> ComponentPinView {
        self.deep_view()
    }
}

impl Clone for ComponentPin {
    fn clone(&self) -> (r: Self)
        ensures
            r@ == self@,
    {
        ComponentPin {
            spec_hash: self.spec_hash,
            name: self.name.clone(),
            context: self.context.clone(),
        }
    }
}

/// One canonical upstream publication.
#[derive(Debug, PartialEq, Eq)]
pub struct UpstreamOutput {
    /// Producer spec hash.
    pub component_spec_hash: [u8; 32],
    /// Canonical JSON object bytes.
    pub values_json: Vec<u8>,
}

/// What a [`UpstreamOutput`] holds.
#[verifier::ext_equal]
pub struct UpstreamOutputView {
    pub component_spec_hash: Seq<u8>,
    pub values_json: Seq<u8>,
}

impl DeepView for UpstreamOutput {
    type V = UpstreamOutputView;

    open spec fn deep_view(&self) -> UpstreamOutputView {
        UpstreamOutputView {
            component_spec_hash: self.component_spec_hash@,
            values_json: self.values_json@,
        }
    }
}

impl View for UpstreamOutput {
    type V = UpstreamOutputView;

    open spec fn view(&self) -> UpstreamOutputView {
        self.deep_view()
    }
}

impl Clone for UpstreamOutput {
    fn clone(&self) -> (r: Self)
        ensures
            r@ == self@,
    {
        UpstreamOutput {
            component_spec_hash: self.component_spec_hash,
            values_json: crate::model::copy_bytes(&self.values_json),
        }
    }
}

impl iddqd::IdOrdItem for ComponentPin {
    type Key<'a> = [u8; 32];

    fn key(&self) -> (r: [u8; 32])
        ensures
            r@ == self@.hash(),
    {
        self.spec_hash
    }

    fn upcast_key<'short, 'long: 'short>(long: [u8; 32]) -> (r: [u8; 32])
        ensures
            r == long,
    {
        long
    }
}

impl iddqd::IdOrdItem for UpstreamOutput {
    type Key<'a> = [u8; 32];

    fn key(&self) -> (r: [u8; 32])
        ensures
            r@ == self@.hash(),
    {
        self.component_spec_hash
    }

    fn upcast_key<'short, 'long: 'short>(long: [u8; 32]) -> (r: [u8; 32])
        ensures
            r == long,
    {
        long
    }
}

// ---------------------------------------------------------------------------
// Ordered maps
// ---------------------------------------------------------------------------

/// `iddqd::IdOrdMap`, a map ordered by the keys that its items hold.
#[verifier::external_type_specification]
#[verifier::external_body]
#[verifier::reject_recursive_types(T)]
pub struct ExIdOrdMap<T>(iddqd::IdOrdMap<T>);

/// An item known by its content hash.
pub trait Hashed {
    /// The content hash.
    spec fn hash(self) -> Seq<u8>;
}

impl Hashed for ComponentPinView {
    open spec fn hash(self) -> Seq<u8> {
        self.spec_hash
    }
}

impl Hashed for UpstreamOutputView {
    open spec fn hash(self) -> Seq<u8> {
        self.component_spec_hash
    }
}

/// The hashes of the items.
pub open spec fn hashes<T: Hashed>(items: Seq<T>) -> Seq<Seq<u8>> {
    Seq::new(items.len(), |i: int| items[i].hash())
}

/// The items with one more, before the first item whose hash stands after its own.
pub open spec fn inserted<T: Hashed>(items: Seq<T>, item: T) -> Seq<T>
    decreases items.len(),
{
    if items.len() == 0 || precedes(item.hash(), items[0].hash()) {
        seq![item] + items
    } else {
        seq![items[0]] + inserted(items.drop_first(), item)
    }
}

/// The pins that the map holds, in ascending order of their hashes.
pub uninterp spec fn held_pins(map: iddqd::IdOrdMap<ComponentPin>) -> Seq<ComponentPinView>;

/// The outputs that the map holds, in ascending order of their hashes.
pub uninterp spec fn held_outputs(map: iddqd::IdOrdMap<UpstreamOutput>) -> Seq<UpstreamOutputView>;

/// `iddqd::IdOrdMap::new` makes a map that holds nothing.
#[verifier::external_body]
fn no_pins() -> (r: iddqd::IdOrdMap<ComponentPin>)
    ensures
        held_pins(r) == Seq::<ComponentPinView>::empty(),
{
    iddqd::IdOrdMap::new()
}

/// `iddqd::IdOrdMap::insert_unique` puts an item in the place of its key, the pin's hash, unless
/// an item with that key is there already, which leaves the map as it was. A map holds no more
/// than 2^32 - 1 items.
#[verifier::external_body]
fn insert_pin(map: &mut iddqd::IdOrdMap<ComponentPin>, pin: ComponentPin) -> (r: bool)
    requires
        held_pins(*old(map)).len() < MOST_ITEMS,
    ensures
        r == !hashes(held_pins(*old(map))).contains(pin@.spec_hash),
        held_pins(*final(map)) == if r {
            inserted(held_pins(*old(map)), pin@)
        } else {
            held_pins(*old(map))
        },
{
    map.insert_unique(pin).is_ok()
}

/// `iddqd::IdOrdMap::iter` hands the items out in ascending order of their keys, which are the
/// pins' hashes.
#[verifier::external_body]
pub(crate) fn pins(map: &iddqd::IdOrdMap<ComponentPin>) -> (r: Vec<&ComponentPin>)
    ensures
        r.deep_view() == held_pins(*map),
        ascending(hashes(r.deep_view())),
{
    map.iter().collect()
}

/// `iddqd::IdOrdMap::clone` copies every item, by the item's own `clone`, into the same place.
#[verifier::external_body]
fn copy_pins(map: &iddqd::IdOrdMap<ComponentPin>) -> (r: iddqd::IdOrdMap<ComponentPin>)
    ensures
        held_pins(r) == held_pins(*map),
{
    map.clone()
}

/// `iddqd::IdOrdMap::new` makes a map that holds nothing.
#[verifier::external_body]
fn no_outputs() -> (r: iddqd::IdOrdMap<UpstreamOutput>)
    ensures
        held_outputs(r) == Seq::<UpstreamOutputView>::empty(),
{
    iddqd::IdOrdMap::new()
}

/// `iddqd::IdOrdMap::insert_unique` puts an item in the place of its key, the producer's hash,
/// unless an item with that key is there already, which leaves the map as it was. A map holds no
/// more than 2^32 - 1 items.
#[verifier::external_body]
fn insert_output(map: &mut iddqd::IdOrdMap<UpstreamOutput>, output: UpstreamOutput) -> (r: bool)
    requires
        held_outputs(*old(map)).len() < MOST_ITEMS,
    ensures
        r == !hashes(held_outputs(*old(map))).contains(output@.component_spec_hash),
        held_outputs(*final(map)) == if r {
            inserted(held_outputs(*old(map)), output@)
        } else {
            held_outputs(*old(map))
        },
{
    map.insert_unique(output).is_ok()
}

/// `iddqd::IdOrdMap::iter` hands the items out in ascending order of their keys, which are the
/// producers' hashes.
#[verifier::external_body]
pub(crate) fn outputs(map: &iddqd::IdOrdMap<UpstreamOutput>) -> (r: Vec<&UpstreamOutput>)
    ensures
        r.deep_view() == held_outputs(*map),
        ascending(hashes(r.deep_view())),
{
    map.iter().collect()
}

/// `iddqd::IdOrdMap::clone` copies every item, by the item's own `clone`, into the same place.
#[verifier::external_body]
fn copy_outputs(map: &iddqd::IdOrdMap<UpstreamOutput>) -> (r: iddqd::IdOrdMap<UpstreamOutput>)
    ensures
        held_outputs(r) == held_outputs(*map),
{
    map.clone()
}

impl Clone for DesiredSlice {
    fn clone(&self) -> (r: Self)
        ensures
            r@ == self@,
    {
        DesiredSlice {
            graph_id: self.graph_id,
            generation: self.generation,
            sequence: self.sequence,
            components: copy_pins(&self.components),
            upstream_outputs: copy_outputs(&self.upstream_outputs),
        }
    }
}

/// Inserting adds the item and keeps the others.
pub proof fn inserted_adds<T: Hashed>(items: Seq<T>, item: T)
    ensures
        inserted(items, item).len() == items.len() + 1,
        forall|other: T| #[trigger]
            inserted(items, item).contains(other) <==> other == item || items.contains(other),
        forall|hash: Seq<u8>| #[trigger]
            hashes(inserted(items, item)).contains(hash) <==> hash == item.hash() || hashes(
                items,
            ).contains(hash),
    decreases items.len(),
{
    let all = inserted(items, item);
    if items.len() == 0 || precedes(item.hash(), items[0].hash()) {
        assert forall|other: T| #[trigger] all.contains(other) <==> other == item
            || items.contains(other) by {
            assert(all[0] == item);
            if items.contains(other) {
                let k = items.index_of(other);
                assert(all[k + 1] == other);
            }
            if all.contains(other) {
                let k = all.index_of(other);
                if k > 0 {
                    assert(items[k - 1] == other);
                }
            }
        }
    } else {
        let rest = items.drop_first();
        inserted_adds(rest, item);
        let tail = inserted(rest, item);
        assert forall|other: T| #[trigger] all.contains(other) <==> other == item
            || items.contains(other) by {
            if all.contains(other) {
                let k = all.index_of(other);
                if k == 0 {
                    assert(items[0] == other);
                } else {
                    assert(tail[k - 1] == other);
                    assert(tail.contains(other));
                    if other != item {
                        let m = rest.index_of(other);
                        assert(items[m + 1] == other);
                    }
                }
            }
            if other == item || items.contains(other) {
                if other == item || rest.contains(other) {
                    assert(tail.contains(other));
                    let k = tail.index_of(other);
                    assert(all[k + 1] == other);
                } else {
                    let m = items.index_of(other);
                    if m > 0 {
                        assert(rest[m - 1] == other);
                    }
                    assert(all[0] == other);
                }
            }
        }
    }
    assert forall|hash: Seq<u8>| #[trigger] hashes(all).contains(hash) <==> hash == item.hash()
        || hashes(items).contains(hash) by {
        if hashes(all).contains(hash) {
            let k = hashes(all).index_of(hash);
            assert(all.contains(all[k]));
            if all[k] != item {
                let m = items.index_of(all[k]);
                assert(hashes(items)[m] == hash);
            }
        }
        if hash == item.hash() {
            assert(all.contains(item));
            let k = all.index_of(item);
            assert(hashes(all)[k] == hash);
        }
        if hashes(items).contains(hash) {
            let m = hashes(items).index_of(hash);
            assert(items.contains(items[m]));
            assert(all.contains(items[m]));
            let k = all.index_of(items[m]);
            assert(hashes(all)[k] == hash);
        }
    }
}

/// Inserting an item with a new hash keeps the hashes ascending.
pub proof fn inserted_keeps_order<T: Hashed>(items: Seq<T>, item: T)
    requires
        ascending(hashes(items)),
        !hashes(items).contains(item.hash()),
    ensures
        ascending(hashes(inserted(items, item))),
    decreases items.len(),
{
    let all = inserted(items, item);
    if items.len() == 0 || precedes(item.hash(), items[0].hash()) {
        assert forall|i: int, j: int| 0 <= i < j < hashes(all).len() implies precedes(
            #[trigger] hashes(all)[i],
            #[trigger] hashes(all)[j],
        ) by {
            assert(hashes(all)[j] == hashes(items)[j - 1]);
            if i == 0 {
                if j > 1 {
                    assert(precedes(hashes(items)[0], hashes(items)[j - 1]));
                    crate::order::precedes_transitive(
                        item.hash(),
                        items[0].hash(),
                        items[j - 1].hash(),
                    );
                }
            } else {
                assert(precedes(hashes(items)[i - 1], hashes(items)[j - 1]));
            }
        }
    } else {
        let rest = items.drop_first();
        assert(hashes(items)[0] == items[0].hash());
        crate::order::precedes_total(item.hash(), items[0].hash());
        assert(hashes(items).contains(items[0].hash()));
        assert forall|i: int, j: int| 0 <= i < j < hashes(rest).len() implies precedes(
            #[trigger] hashes(rest)[i],
            #[trigger] hashes(rest)[j],
        ) by {
            assert(precedes(hashes(items)[i + 1], hashes(items)[j + 1]));
        }
        if hashes(rest).contains(item.hash()) {
            let k = hashes(rest).index_of(item.hash());
            assert(hashes(items)[k + 1] == item.hash());
        }
        inserted_keeps_order(rest, item);
        inserted_adds(rest, item);
        let tail = inserted(rest, item);
        assert forall|i: int, j: int| 0 <= i < j < hashes(all).len() implies precedes(
            #[trigger] hashes(all)[i],
            #[trigger] hashes(all)[j],
        ) by {
            assert(hashes(all)[j] == hashes(tail)[j - 1]);
            if i == 0 {
                let hash = hashes(tail)[j - 1];
                assert(hashes(tail).contains(hash));
                if hash != item.hash() {
                    let k = hashes(rest).index_of(hash);
                    assert(precedes(hashes(items)[0], hashes(items)[k + 1]));
                }
            } else {
                assert(precedes(hashes(tail)[i - 1], hashes(tail)[j - 1]));
            }
        }
    }
}

// ---------------------------------------------------------------------------
// Decoding
// ---------------------------------------------------------------------------

/// A complete graph slice whose hashes, ownership, dependencies and upstream JSON are validated.
#[derive(Debug, PartialEq, Eq)]
pub struct TargetSlice {
    /// Raw graph UUID bytes.
    pub graph_id: [u8; 16],
    /// Desired-intent provenance.
    pub generation: u64,
    /// Exact complete materialization identity.
    pub sequence: u64,
    /// The components assigned to this connector.
    pub components: Vec<SliceComponent>,
    /// Current-generation upstream output levels.
    pub upstream_outputs: Vec<UpstreamOutput>,
}

/// What a [`TargetSlice`] holds.
#[verifier::ext_equal]
pub struct TargetSliceView {
    pub graph_id: Seq<u8>,
    pub generation: u64,
    pub sequence: u64,
    pub components: Seq<SliceComponentView>,
    pub upstream_outputs: Seq<UpstreamOutputView>,
}

impl DeepView for TargetSlice {
    type V = TargetSliceView;

    open spec fn deep_view(&self) -> TargetSliceView {
        TargetSliceView {
            graph_id: self.graph_id@,
            generation: self.generation,
            sequence: self.sequence,
            components: self.components.deep_view(),
            upstream_outputs: self.upstream_outputs.deep_view(),
        }
    }
}

impl View for TargetSlice {
    type V = TargetSliceView;

    open spec fn view(&self) -> TargetSliceView {
        self.deep_view()
    }
}

/// One component of a slice, its context bytes decoded as strict JSON.
#[derive(Debug, PartialEq, Eq)]
pub struct SliceComponent {
    /// Registered component-spec content hash.
    pub spec_hash: [u8; 32],
    /// Human-facing component name.
    pub name: String,
    /// The decoded context, or why the bytes are no context.
    pub context: Result<ComponentContext, String>,
}

/// What a [`SliceComponent`] holds.
#[verifier::ext_equal]
pub struct SliceComponentView {
    pub spec_hash: Seq<u8>,
    pub name: Seq<char>,
    pub context: Result<ComponentContextView, Seq<char>>,
}

impl DeepView for SliceComponent {
    type V = SliceComponentView;

    open spec fn deep_view(&self) -> SliceComponentView {
        SliceComponentView {
            spec_hash: self.spec_hash@,
            name: self.name@,
            context: match self.context {
                Ok(value) => Ok(value@),
                Err(error) => Err(error@),
            },
        }
    }
}

impl View for SliceComponent {
    type V = SliceComponentView;

    open spec fn view(&self) -> SliceComponentView {
        self.deep_view()
    }
}

/// A slice outside the target's contract.
#[derive(Debug, PartialEq, Eq)]
pub struct SliceError {
    /// Actionable detail.
    pub message: String,
}

/// What a [`SliceError`] holds.
#[verifier::ext_equal]
pub struct SliceErrorView {
    pub message: Seq<char>,
}

impl DeepView for SliceError {
    type V = SliceErrorView;

    open spec fn deep_view(&self) -> SliceErrorView {
        SliceErrorView {
            message: self.message@,
        }
    }
}

impl View for SliceError {
    type V = SliceErrorView;

    open spec fn view(&self) -> SliceErrorView {
        self.deep_view()
    }
}

impl Clone for SliceError {
    fn clone(&self) -> (r: Self)
        ensures
            r@ == self@,
    {
        SliceError {
            message: self.message.clone(),
        }
    }
}

impl SliceComponentView {
    /// Why the context is refused, if it is.
    pub open spec fn context_error(self) -> Option<ContextErrorView> {
        match self.context {
            Err(detail) => Some(ContextErrorView::Json(detail)),
            Ok(context) => match context.boundary_complaint() {
                Some(complaint) => Some(ContextErrorView::Invalid(complaint)),
                None => None,
            },
        }
    }

    /// The component as a pin.
    pub open spec fn pin(self) -> ComponentPinView {
        ComponentPinView {
            spec_hash: self.spec_hash,
            name: self.name,
            context: self.context->Ok_0,
        }
    }

    /// The stack, project and database that the component selects.
    pub open spec fn coordinates(self) -> (Seq<char>, Seq<char>, Seq<char>) {
        let target = self.pin().context.target;
        (target.stack, target.project, target.database)
    }
}

impl TargetSliceView {
    /// Some earlier component has the same name.
    pub open spec fn name_taken(self, index: int) -> bool {
        exists|earlier: int|
            0 <= earlier < index && (#[trigger] self.components[earlier]).name
                == self.components[index].name
    }

    /// Some earlier component has the same resource identity.
    pub open spec fn resource_taken(self, index: int) -> bool {
        exists|earlier: int|
            0 <= earlier < index && (#[trigger] self.components[earlier]).pin().context.resource_id
                == self.components[index].pin().context.resource_id
    }

    /// Some earlier component owns the same schema.
    pub open spec fn schema_taken(self, index: int) -> bool {
        exists|earlier: int|
            0 <= earlier < index && (#[trigger] self.components[earlier]).pin().context.target.schema
                == self.components[index].pin().context.target.schema
    }

    /// Some earlier component has the same hash.
    pub open spec fn hash_taken(self, index: int) -> bool {
        exists|earlier: int|
            0 <= earlier < index && (#[trigger] self.components[earlier]).spec_hash
                == self.components[index].spec_hash
    }

    /// What is wrong with one component, given that nothing is wrong with those before it.
    pub open spec fn component_complaint(self, index: int) -> Option<Seq<char>> {
        let component = self.components[index];
        if component.context_error() is Some {
            Some(
                "component "@ + debug_text(component.name) + ": "@
                    + component.context_error()->0.message(),
            )
        } else if self.name_taken(index) {
            Some("component name "@ + debug_text(component.name) + " is duplicated"@)
        } else if self.resource_taken(index) {
            Some(
                "resourceId "@ + debug_text(component.pin().context.resource_id)
                    + " is duplicated"@,
            )
        } else if self.schema_taken(index) {
            Some(
                "target schema "@ + debug_text(component.pin().context.target.schema)
                    + " is duplicated"@,
            )
        } else if index > 0 && self.components[index - 1].coordinates()
            != component.coordinates() {
            Some(
                "every component in a Supabase slice must select the same stack/project/database"@,
            )
        } else if self.hash_taken(index) {
            Some("component hash is duplicated"@)
        } else {
            None
        }
    }

    /// What is wrong with the first components: the first complaint.
    pub open spec fn complaint_up_to(self, count: int) -> Option<Seq<char>>
        decreases count,
    {
        if count <= 0 {
            None
        } else {
            match self.complaint_up_to(count - 1) {
                Some(complaint) => Some(complaint),
                None => self.component_complaint(count - 1),
            }
        }
    }

    /// Two upstream outputs come from one producer.
    pub open spec fn output_repeated(self) -> bool {
        !hashes(self.upstream_outputs).no_duplicates()
    }

    /// The pins of the first components, sorted by hash.
    pub open spec fn pins_up_to(self, count: int) -> Seq<ComponentPinView>
        decreases count,
    {
        if count <= 0 {
            seq![]
        } else {
            inserted(self.pins_up_to(count - 1), self.components[count - 1].pin())
        }
    }

    /// The first upstream outputs, sorted by hash.
    pub open spec fn outputs_up_to(self, count: int) -> Seq<UpstreamOutputView>
        decreases count,
    {
        if count <= 0 {
            seq![]
        } else {
            inserted(self.outputs_up_to(count - 1), self.upstream_outputs[count - 1])
        }
    }

    /// The desired level that the slice stands for, or what is wrong with the slice.
    pub open spec fn decoded(self) -> Result<DesiredSliceView, SliceErrorView> {
        match self.complaint_up_to(self.components.len() as int) {
            Some(message) => Err(SliceErrorView { message }),
            None => if self.output_repeated() {
                Err(SliceErrorView { message: "upstream output hash is duplicated"@ })
            } else {
                Ok(
                    DesiredSliceView {
                        graph_id: self.graph_id,
                        generation: self.generation,
                        sequence: self.sequence,
                        components: self.pins_up_to(self.components.len() as int),
                        upstream_outputs: self.outputs_up_to(self.upstream_outputs.len() as int),
                    },
                )
            },
        }
    }
}

/// The first complaint stands, whatever follows.
proof fn complaint_stands(slice: TargetSliceView, count: int, total: int)
    requires
        0 <= count <= total,
        slice.complaint_up_to(count) is Some,
    ensures
        slice.complaint_up_to(total) == slice.complaint_up_to(count),
    decreases total,
{
    if count < total {
        complaint_stands(slice, count, total - 1);
    }
}

/// The pins of the first components have exactly their hashes.
pub(crate) proof fn pins_have_hashes(slice: TargetSliceView, count: int)
    requires
        0 <= count <= slice.components.len(),
    ensures
        slice.pins_up_to(count).len() == count,
        forall|hash: Seq<u8>| #[trigger]
            hashes(slice.pins_up_to(count)).contains(hash) <==> exists|i: int|
                0 <= i < count && (#[trigger] slice.components[i]).spec_hash == hash,
        forall|pin: ComponentPinView| #[trigger]
            slice.pins_up_to(count).contains(pin) <==> exists|i: int|
                0 <= i < count && (#[trigger] slice.components[i]).pin() == pin,
    decreases count,
{
    if count > 0 {
        pins_have_hashes(slice, count - 1);
        let before = slice.pins_up_to(count - 1);
        let added = slice.components[count - 1].pin();
        inserted_adds(before, added);
        let all = slice.pins_up_to(count);
        assert forall|hash: Seq<u8>| #[trigger]
            hashes(all).contains(hash) <==> exists|i: int|
                0 <= i < count && (#[trigger] slice.components[i]).spec_hash == hash by {
            if hashes(all).contains(hash) {
                if hash == added.hash() {
                    assert(slice.components[count - 1].spec_hash == hash);
                } else {
                    assert(hashes(before).contains(hash));
                }
            }
            if exists|i: int| 0 <= i < count && (#[trigger] slice.components[i]).spec_hash == hash {
                let i = choose|i: int|
                    0 <= i < count && (#[trigger] slice.components[i]).spec_hash == hash;
                if i < count - 1 {
                    assert(hashes(before).contains(hash));
                }
            }
        }
        assert forall|pin: ComponentPinView| #[trigger]
            all.contains(pin) <==> exists|i: int|
                0 <= i < count && (#[trigger] slice.components[i]).pin() == pin by {
            if all.contains(pin) {
                if pin == added {
                    assert(slice.components[count - 1].pin() == pin);
                } else {
                    assert(before.contains(pin));
                }
            }
            if exists|i: int| 0 <= i < count && (#[trigger] slice.components[i]).pin() == pin {
                let i = choose|i: int|
                    0 <= i < count && (#[trigger] slice.components[i]).pin() == pin;
                if i < count - 1 {
                    assert(before.contains(pin));
                }
            }
        }
    }
}

/// The first outputs have exactly their hashes.
pub(crate) proof fn outputs_have_hashes(slice: TargetSliceView, count: int)
    requires
        0 <= count <= slice.upstream_outputs.len(),
    ensures
        slice.outputs_up_to(count).len() == count,
        forall|hash: Seq<u8>| #[trigger]
            hashes(slice.outputs_up_to(count)).contains(hash) <==> exists|i: int|
                0 <= i < count && (#[trigger] slice.upstream_outputs[i]).component_spec_hash
                    == hash,
    decreases count,
{
    if count > 0 {
        outputs_have_hashes(slice, count - 1);
        let before = slice.outputs_up_to(count - 1);
        let added = slice.upstream_outputs[count - 1];
        inserted_adds(before, added);
        let all = slice.outputs_up_to(count);
        assert forall|hash: Seq<u8>| #[trigger]
            hashes(all).contains(hash) <==> exists|i: int|
                0 <= i < count && (#[trigger] slice.upstream_outputs[i]).component_spec_hash
                    == hash by {
            if hashes(all).contains(hash) {
                if hash == added.hash() {
                    assert(slice.upstream_outputs[count - 1].component_spec_hash == hash);
                } else {
                    assert(hashes(before).contains(hash));
                }
            }
            if exists|i: int|
                0 <= i < count && (#[trigger] slice.upstream_outputs[i]).component_spec_hash
                    == hash {
                let i = choose|i: int|
                    0 <= i < count && (#[trigger] slice.upstream_outputs[i]).component_spec_hash
                        == hash;
                if i < count - 1 {
                    assert(hashes(before).contains(hash));
                }
            }
        }
    }
}

fn refuse(message: String) -> (r: SliceError)
    ensures
        r@ == (SliceErrorView { message: message@ }),
{
    SliceError { message }
}

/// What is wrong with the component among those before it, apart from its hash.
fn component_problem(slice: &TargetSlice, index: usize, context: &ComponentContext) -> (r: Option<
    String,
>)
    requires
        index < slice.components@.len(),
        slice@.complaint_up_to(index as int) is None,
        slice@.components[index as int].context_error() is None,
        slice@.components[index as int].pin().context == context@,
    ensures
        match r {
            Some(problem) => slice@.component_complaint(index as int) == Some(problem@),
            None => slice@.component_complaint(index as int) == if slice@.hash_taken(index as int) {
                Some("component hash is duplicated"@)
            } else {
                None
            },
        },
{
    let ghost view = slice@;
    let component = &slice.components[index];
    assert(view.components[index as int] == component@);
    let mut name_taken = false;
    let mut resource_taken = false;
    let mut schema_taken = false;
    let mut i: usize = 0;
    while i < index
        invariant
            i <= index < slice.components@.len(),
            view == slice@,
            view.components[index as int].pin().context == context@,
            component@ == view.components[index as int],
            view.complaint_up_to(index as int) is None,
            name_taken == exists|j: int|
                0 <= j < i && (#[trigger] view.components[j]).name
                    == view.components[index as int].name,
            resource_taken == exists|j: int|
                0 <= j < i && (#[trigger] view.components[j]).pin().context.resource_id
                    == view.components[index as int].pin().context.resource_id,
            schema_taken == exists|j: int|
                0 <= j < i && (#[trigger] view.components[j]).pin().context.target.schema
                    == view.components[index as int].pin().context.target.schema,
        decreases index - i,
    {
        let earlier = &slice.components[i];
        assert(view.components[i as int] == earlier@);
        if earlier.name == component.name {
            name_taken = true;
        }
        proof {
            sound_so_far(view, index as int, i as int);
        }
        match &earlier.context {
            Ok(other) => {
                assert(earlier@.pin().context == other@);
                if other.resource_id == context.resource_id {
                    resource_taken = true;
                }
                if other.target.schema == context.target.schema {
                    schema_taken = true;
                }
            },
            Err(_) => {},
        }
        i += 1;
    }
    if name_taken {
        return Some(
            "component name ".to_owned().plus(debug(component.name.as_str()).as_str()).plus(
                " is duplicated",
            ),
        );
    }
    if resource_taken {
        return Some(
            "resourceId ".to_owned().plus(debug(context.resource_id.as_str()).as_str()).plus(
                " is duplicated",
            ),
        );
    }
    if schema_taken {
        return Some(
            "target schema ".to_owned().plus(debug(context.target.schema.as_str()).as_str()).plus(
                " is duplicated",
            ),
        );
    }
    if index > 0 {
        let previous = &slice.components[index - 1];
        assert(view.components[index - 1] == previous@);
        proof {
            sound_so_far(view, index as int, index - 1);
        }
        match &previous.context {
            Ok(other) => {
                assert(previous@.pin().context == other@);
                if other.target.stack != context.target.stack || other.target.project
                    != context.target.project || other.target.database != context.target.database {
                    return Some(
                        "every component in a Supabase slice must select the same stack/project/database".to_owned(),
                    );
                }
            },
            Err(_) => {},
        }
    }
    None
}

/// Where no complaint has come yet, every component passed its checks.
pub(crate) proof fn sound_so_far(slice: TargetSliceView, count: int, index: int)
    requires
        0 <= index < count,
        slice.complaint_up_to(count) is None,
    ensures
        slice.component_complaint(index) is None,
        slice.complaint_up_to(index) is None,
        slice.components[index].context is Ok,
    decreases count,
{
    if index < count - 1 {
        sound_so_far(slice, count - 1, index);
    }
}

impl DesiredSlice {
    /// Decodes only the target's semantics. Hashes, ownership, dependencies and upstream JSON are
    /// validated already.
    pub fn decode(slice: &TargetSlice) -> (r: Result<Self, SliceError>)
        requires
            slice.components@.len() <= MOST_ITEMS,
            slice.upstream_outputs@.len() <= MOST_ITEMS,
        ensures
            outcome(r) == slice@.decoded(),
    {
        let ghost view = slice@;
        let ghost total = view.components.len() as int;
        let mut components = no_pins();
        let mut i: usize = 0;
        while i < slice.components.len()
            invariant
                i <= slice.components@.len() <= MOST_ITEMS,
                view == slice@,
                total == view.components.len(),
                view.complaint_up_to(i as int) is None,
                held_pins(components) == view.pins_up_to(i as int),
            decreases slice.components.len() - i,
        {
            let component = &slice.components[i];
            assert(view.components[i as int] == component@);
            let decoded = match &component.context {
                Ok(context) => Ok(context.clone()),
                Err(detail) => Err(detail.clone()),
            };
            let context = match ComponentContext::from_bytes(decoded) {
                Ok(context) => context,
                Err(error) => {
                    assert(component@.context_error() == Some(error@));
                    assert(view.complaint_up_to(i + 1) is Some);
                    proof {
                        complaint_stands(view, i + 1, total);
                    }
                    return Err(
                        refuse(
                            "component ".to_owned().plus(
                                debug(component.name.as_str()).as_str(),
                            ).plus(": ").plus(error.message().as_str()),
                        ),
                    );
                },
            };
            assert(component@.context_error() is None);
            match component_problem(slice, i, &context) {
                Some(problem) => {
                    assert(view.complaint_up_to(i + 1) is Some);
                    proof {
                        complaint_stands(view, i + 1, total);
                    }
                    return Err(refuse(problem));
                },
                None => {},
            }
            proof {
                pins_have_hashes(view, i as int);
            }
            let pin = ComponentPin {
                spec_hash: component.spec_hash,
                name: component.name.clone(),
                context,
            };
            assert(pin@ == component@.pin());
            if !insert_pin(&mut components, pin) {
                assert(view.hash_taken(i as int));
                assert(view.complaint_up_to(i + 1) is Some);
                proof {
                    complaint_stands(view, i + 1, total);
                }
                return Err(refuse("component hash is duplicated".to_owned()));
            }
            assert(!view.hash_taken(i as int));
            assert(view.complaint_up_to(i + 1) is None);
            i += 1;
        }
        let mut upstream_outputs = no_outputs();
        let mut k: usize = 0;
        while k < slice.upstream_outputs.len()
            invariant
                k <= slice.upstream_outputs@.len() <= MOST_ITEMS,
                view == slice@,
                view.complaint_up_to(view.components.len() as int) is None,
                held_outputs(upstream_outputs) == view.outputs_up_to(k as int),
                forall|i: int, j: int|
                    0 <= i < j < k ==> (#[trigger] view.upstream_outputs[i]).component_spec_hash
                        != (#[trigger] view.upstream_outputs[j]).component_spec_hash,
            decreases slice.upstream_outputs.len() - k,
        {
            let output = slice.upstream_outputs[k].clone();
            assert(view.upstream_outputs[k as int] == output@);
            proof {
                outputs_have_hashes(view, k as int);
            }
            if !insert_output(&mut upstream_outputs, output) {
                proof {
                    let earlier = choose|i: int|
                        0 <= i < k && (#[trigger] view.upstream_outputs[i]).component_spec_hash
                            == output@.component_spec_hash;
                    let all = hashes(view.upstream_outputs);
                    assert(all[earlier] == all[k as int]);
                    assert(view.output_repeated());
                }
                return Err(refuse("upstream output hash is duplicated".to_owned()));
            }
            assert forall|i: int, j: int| 0 <= i < j < k + 1 implies (
            #[trigger] view.upstream_outputs[i]).component_spec_hash != (
            #[trigger] view.upstream_outputs[j]).component_spec_hash by {
                if j == k && view.upstream_outputs[i].component_spec_hash
                    == view.upstream_outputs[j].component_spec_hash {
                    assert(hashes(view.outputs_up_to(k as int)).contains(
                        output@.component_spec_hash,
                    ));
                }
            }
            k += 1;
        }
        proof {
            let all = hashes(view.upstream_outputs);
            assert forall|i: int, j: int|
                0 <= i < all.len() && 0 <= j < all.len() && i != j implies all[i] != all[j] by {
                if i < j {
                    assert(view.upstream_outputs[i].component_spec_hash
                        != view.upstream_outputs[j].component_spec_hash);
                } else {
                    assert(view.upstream_outputs[j].component_spec_hash
                        != view.upstream_outputs[i].component_spec_hash);
                }
            }
            assert(!view.output_repeated());
        }
        Ok(
            DesiredSlice {
                graph_id: slice.graph_id,
                generation: slice.generation,
                sequence: slice.sequence,
                components,
                upstream_outputs,
            },
        )
    }
}

/// A decoded slice holds exactly the slice's components, in ascending order of their hashes. Every
/// context is inside the boundary; names, resource identities and schemas are unique; and all
/// components select one target.
pub proof fn decoded_slices_are_sound(slice: TargetSliceView)
    requires
        slice.decoded() is Ok,
    ensures
        ({
            let pins = slice.decoded()->Ok_0.components;
            &&& pins.len() == slice.components.len()
            &&& ascending(hashes(pins))
            &&& forall|pin: ComponentPinView| #[trigger]
                pins.contains(pin) <==> exists|i: int|
                    0 <= i < slice.components.len() && (#[trigger] slice.components[i]).pin()
                        == pin
        }),
        forall|i: int|
            0 <= i < slice.components.len() ==> (
            #[trigger] slice.components[i]).pin().context.boundary_complaint() is None,
        forall|i: int, j: int|
            0 <= i < j < slice.components.len() ==> {
                let a = #[trigger] slice.components[i];
                let b = #[trigger] slice.components[j];
                &&& a.name != b.name
                &&& a.spec_hash != b.spec_hash
                &&& a.pin().context.resource_id != b.pin().context.resource_id
                &&& a.pin().context.target.schema != b.pin().context.target.schema
                &&& a.coordinates() == b.coordinates()
            },
{
    let total = slice.components.len() as int;
    pins_have_hashes(slice, total);
    pins_ascend(slice, total);
    assert forall|i: int| 0 <= i < total implies (
    #[trigger] slice.components[i]).pin().context.boundary_complaint() is None by {
        sound_so_far(slice, total, i);
    }
    assert forall|i: int, j: int| 0 <= i < j < total implies ({
        let a = #[trigger] slice.components[i];
        let b = #[trigger] slice.components[j];
        &&& a.name != b.name
        &&& a.spec_hash != b.spec_hash
        &&& a.pin().context.resource_id != b.pin().context.resource_id
        &&& a.pin().context.target.schema != b.pin().context.target.schema
        &&& a.coordinates() == b.coordinates()
    }) by {
        sound_so_far(slice, total, j);
        one_target(slice, total, i, j);
    }
}

pub(crate) proof fn pins_ascend(slice: TargetSliceView, count: int)
    requires
        0 <= count <= slice.components.len(),
        slice.complaint_up_to(count) is None,
    ensures
        ascending(hashes(slice.pins_up_to(count))),
    decreases count,
{
    if count > 0 {
        pins_ascend(slice, count - 1);
        pins_have_hashes(slice, count - 1);
        sound_so_far(slice, count, count - 1);
        inserted_keeps_order(slice.pins_up_to(count - 1), slice.components[count - 1].pin());
    }
}

pub(crate) proof fn one_target(slice: TargetSliceView, total: int, i: int, j: int)
    requires
        0 <= i <= j < total <= slice.components.len(),
        slice.complaint_up_to(total) is None,
    ensures
        slice.components[i].coordinates() == slice.components[j].coordinates(),
    decreases j - i,
{
    if i < j {
        sound_so_far(slice, total, j);
        one_target(slice, total, i, j - 1);
    }
}

// ---------------------------------------------------------------------------
// Digest
// ---------------------------------------------------------------------------

/// The lowest bytes of a number, the highest of them first.
pub open spec fn big_endian(n: nat, width: nat) -> Seq<u8>
    decreases width,
{
    if width == 0 {
        seq![]
    } else {
        big_endian(n / 256, (width - 1) as nat).push((n % 256) as u8)
    }
}

fn big_endian_bytes(n: u64, width: u8) -> (r: Vec<u8>)
    ensures
        r@ == big_endian(n as nat, width as nat),
    decreases width,
{
    if width == 0 {
        Vec::new()
    } else {
        let mut bytes = big_endian_bytes(n / 256, width - 1);
        bytes.push((n % 256) as u8);
        bytes
    }
}

/// The hashes of the first pins, one after the other.
pub open spec fn pin_bytes(pins: Seq<ComponentPinView>) -> Seq<u8>
    decreases pins.len(),
{
    if pins.len() == 0 {
        seq![]
    } else {
        pin_bytes(pins.drop_last()) + pins.last().spec_hash
    }
}

/// The first outputs one after the other: the producer's hash, the size of the values in eight
/// bytes, and the values.
pub open spec fn output_bytes(outputs: Seq<UpstreamOutputView>) -> Seq<u8>
    decreases outputs.len(),
{
    if outputs.len() == 0 {
        seq![]
    } else {
        output_bytes(outputs.drop_last()) + outputs.last().component_spec_hash + big_endian(
            outputs.last().values_json.len(),
            8,
        ) + outputs.last().values_json
    }
}

impl DesiredSliceView {
    /// The bytes that the digest covers.
    pub open spec fn preimage(self) -> Seq<u8> {
        encode_utf8("henosis.dev/supabase-desired/v1\0"@) + self.graph_id + big_endian(
            self.generation as nat,
            8,
        ) + pin_bytes(self.components) + output_bytes(self.upstream_outputs)
    }

    /// The digest of every desired input that may affect the target.
    pub open spec fn digest(self) -> Seq<u8> {
        blake3_of(self.preimage())
    }
}

fn add_bytes(bytes: &mut Vec<u8>, more: &[u8])
    ensures
        final(bytes)@ == old(bytes)@ + more@,
{
    let ghost before = bytes@;
    let mut i: usize = 0;
    while i < more.len()
        invariant
            i <= more@.len(),
            bytes@ == before + more@.take(i as int),
        decreases more.len() - i,
    {
        bytes.push(more[i]);
        assert(more@.take(i + 1) == more@.take(i as int).push(more@[i as int]));
        assert(bytes@ =~= before + more@.take(i + 1));
        i += 1;
    }
    assert(more@.take(more@.len() as int) == more@);
}

impl DesiredSlice {
    /// Stable digest of every desired input that may affect the target.
    pub fn desired_digest(&self) -> (r: [u8; 32])
        ensures
            r@ == self@.digest(),
    {
        let mut bytes: Vec<u8> = Vec::new();
        add_bytes(&mut bytes, "henosis.dev/supabase-desired/v1\0".as_bytes());
        assert(bytes@ =~= encode_utf8("henosis.dev/supabase-desired/v1\0"@));
        add_bytes(&mut bytes, &self.graph_id);
        add_bytes(&mut bytes, &big_endian_bytes(self.generation, 8));
        let ghost start = bytes@;
        let ghost all = self@.components;
        let components = pins(&self.components);
        let mut i: usize = 0;
        assert(bytes@ =~= start + pin_bytes(all.take(0)));
        while i < components.len()
            invariant
                i <= components@.len(),
                all == components.deep_view(),
                bytes@ == start + pin_bytes(all.take(i as int)),
            decreases components.len() - i,
        {
            assert(all.take(i + 1).drop_last() == all.take(i as int));
            assert(all[i as int] == components@[i as int]@);
            add_bytes(&mut bytes, &components[i].spec_hash);
            assert(bytes@ =~= start + pin_bytes(all.take(i + 1)));
            i += 1;
        }
        assert(all.take(all.len() as int) == all);
        let ghost middle = bytes@;
        let ghost published = self@.upstream_outputs;
        let upstream = outputs(&self.upstream_outputs);
        let mut k: usize = 0;
        assert(bytes@ =~= middle + output_bytes(published.take(0)));
        while k < upstream.len()
            invariant
                k <= upstream@.len(),
                published == upstream.deep_view(),
                bytes@ == middle + output_bytes(published.take(k as int)),
            decreases upstream.len() - k,
        {
            assert(published.take(k + 1).drop_last() == published.take(k as int));
            assert(published[k as int] == upstream@[k as int]@);
            let size: u64 = upstream[k].values_json.len() as u64;
            add_bytes(&mut bytes, &upstream[k].component_spec_hash);
            add_bytes(&mut bytes, &big_endian_bytes(size, 8));
            add_bytes(&mut bytes, &upstream[k].values_json);
            assert(bytes@ =~= middle + output_bytes(published.take(k + 1)));
            k += 1;
        }
        assert(published.take(published.len() as int) == published);
        assert(bytes@ =~= self@.preimage());
        crate::hashing::blake3(&bytes)
    }
}

/// The digest leaves the sequence aside: levels with the same graph, generation, component hashes
/// and upstream outputs have one digest.
pub proof fn digest_ignores_sequence(a: DesiredSliceView, b: DesiredSliceView)
    requires
        a.graph_id == b.graph_id,
        a.generation == b.generation,
        hashes(a.components) == hashes(b.components),
        a.upstream_outputs == b.upstream_outputs,
    ensures
        a.digest() == b.digest(),
{
    same_hashes_same_bytes(a.components, b.components);
}

proof fn same_hashes_same_bytes(a: Seq<ComponentPinView>, b: Seq<ComponentPinView>)
    requires
        hashes(a) == hashes(b),
    ensures
        pin_bytes(a) == pin_bytes(b),
    decreases a.len(),
{
    assert(a.len() == hashes(a).len() && b.len() == hashes(b).len());
    if a.len() > 0 {
        assert(hashes(a)[a.len() - 1] == hashes(b)[b.len() - 1]);
        assert(hashes(a.drop_last()) =~= hashes(a).drop_last());
        assert(hashes(b.drop_last()) =~= hashes(b).drop_last());
        same_hashes_same_bytes(a.drop_last(), b.drop_last());
    }
}

/// The level's identities have their widths, and its sizes fit into eight bytes.
pub open spec fn sized(level: DesiredSliceView) -> bool {
    &&& level.graph_id.len() == 16
    &&& forall|i: int|
        0 <= i < level.components.len() ==> (#[trigger] level.components[i]).spec_hash.len() == 32
    &&& forall|i: int|
        0 <= i < level.upstream_outputs.len() ==> sized_output(#[trigger] level.upstream_outputs[i])
}

/// The producer's hash has its width, and the size of the values fits into eight bytes.
pub open spec fn sized_output(output: UpstreamOutputView) -> bool {
    output.component_spec_hash.len() == 32 && output.values_json.len() < 0x1_0000_0000_0000_0000
}

/// The digest tells levels apart that differ in their graph, in their generation or, with equally
/// many components, in a component's hash or in any upstream output, unless BLAKE3 does not tell
/// what it covers of them apart.
pub proof fn digest_tells_levels_apart(a: DesiredSliceView, b: DesiredSliceView)
    requires
        sized(a),
        sized(b),
        blake3_of(a.preimage()) == blake3_of(b.preimage()) ==> a.preimage() == b.preimage(),
    ensures
        a.graph_id != b.graph_id || a.generation != b.generation ==> a.digest() != b.digest(),
        a.components.len() == b.components.len() && (hashes(a.components) != hashes(b.components)
            || a.upstream_outputs != b.upstream_outputs) ==> a.digest() != b.digest(),
{
    if a.digest() == b.digest() {
        let label = encode_utf8("henosis.dev/supabase-desired/v1\0"@);
        let generation = big_endian(a.generation as nat, 8);
        let other_generation = big_endian(b.generation as nat, 8);
        let pins = pin_bytes(a.components);
        let other_pins = pin_bytes(b.components);
        let rest = output_bytes(a.upstream_outputs);
        let other_rest = output_bytes(b.upstream_outputs);
        big_endian_width(a.generation as nat, 8);
        big_endian_width(b.generation as nat, 8);
        assert(a.preimage() =~= label + (a.graph_id + (generation + (pins + rest))));
        assert(b.preimage() =~= label + (b.graph_id + (other_generation + (other_pins
            + other_rest))));
        parts_tell_apart(
            label,
            a.graph_id + (generation + (pins + rest)),
            label,
            b.graph_id + (other_generation + (other_pins + other_rest)),
        );
        parts_tell_apart(
            a.graph_id,
            generation + (pins + rest),
            b.graph_id,
            other_generation + (other_pins + other_rest),
        );
        parts_tell_apart(generation, pins + rest, other_generation, other_pins + other_rest);
        span_of_eight();
        big_endian_tells_apart(a.generation as nat, b.generation as nat, 8);
        if a.components.len() == b.components.len() {
            pins_width(a.components);
            pins_width(b.components);
            parts_tell_apart(pins, rest, other_pins, other_rest);
            pins_tell_apart(a.components, b.components);
            outputs_tell_apart(a.upstream_outputs, b.upstream_outputs);
        }
    }
}

proof fn parts_tell_apart(first: Seq<u8>, rest: Seq<u8>, other: Seq<u8>, other_rest: Seq<u8>)
    requires
        first + rest == other + other_rest,
        first.len() == other.len(),
    ensures
        first == other,
        rest == other_rest,
{
    let size = first.len() as int;
    assert(first =~= (first + rest).take(size));
    assert(other =~= (other + other_rest).take(size));
    assert(rest =~= (first + rest).skip(size));
    assert(other_rest =~= (other + other_rest).skip(size));
}

proof fn big_endian_width(n: nat, width: nat)
    ensures
        big_endian(n, width).len() == width,
    decreases width,
{
    if width > 0 {
        big_endian_width(n / 256, (width - 1) as nat);
    }
}

/// How many numbers fit into so many bytes.
spec fn span(width: nat) -> nat
    decreases width,
{
    if width == 0 {
        1
    } else {
        256 * span((width - 1) as nat)
    }
}

proof fn span_of_eight()
    ensures
        span(8) == 0x1_0000_0000_0000_0000,
{
    reveal_with_fuel(span, 9);
}

proof fn big_endian_tells_apart(a: nat, b: nat, width: nat)
    requires
        a < span(width),
        b < span(width),
        big_endian(a, width) == big_endian(b, width),
    ensures
        a == b,
    decreases width,
{
    if width > 0 {
        let short = (width - 1) as nat;
        assert(big_endian(a, width).last() == (a % 256) as u8);
        assert(big_endian(b, width).last() == (b % 256) as u8);
        assert(big_endian(a, width).drop_last() =~= big_endian(a / 256, short));
        assert(big_endian(b, width).drop_last() =~= big_endian(b / 256, short));
        big_endian_tells_apart(a / 256, b / 256, short);
    }
}

proof fn pins_width(pins: Seq<ComponentPinView>)
    requires
        forall|i: int| 0 <= i < pins.len() ==> (#[trigger] pins[i]).spec_hash.len() == 32,
    ensures
        pin_bytes(pins).len() == 32 * pins.len(),
    decreases pins.len(),
{
    if pins.len() > 0 {
        pins_width(pins.drop_last());
    }
}

proof fn pins_tell_apart(a: Seq<ComponentPinView>, b: Seq<ComponentPinView>)
    requires
        a.len() == b.len(),
        forall|i: int| 0 <= i < a.len() ==> (#[trigger] a[i]).spec_hash.len() == 32,
        forall|i: int| 0 <= i < b.len() ==> (#[trigger] b[i]).spec_hash.len() == 32,
        pin_bytes(a) == pin_bytes(b),
    ensures
        hashes(a) == hashes(b),
    decreases a.len(),
{
    if a.len() > 0 {
        pins_width(a.drop_last());
        pins_width(b.drop_last());
        parts_tell_apart(
            pin_bytes(a.drop_last()),
            a.last().spec_hash,
            pin_bytes(b.drop_last()),
            b.last().spec_hash,
        );
        pins_tell_apart(a.drop_last(), b.drop_last());
        assert(hashes(a) =~= hashes(a.drop_last()).push(a.last().spec_hash));
        assert(hashes(b) =~= hashes(b.drop_last()).push(b.last().spec_hash));
    } else {
        assert(hashes(a) =~= hashes(b));
    }
}

proof fn first_output_leads(outputs: Seq<UpstreamOutputView>)
    requires
        outputs.len() > 0,
    ensures
        output_bytes(outputs) == outputs[0].component_spec_hash + (big_endian(
            outputs[0].values_json.len(),
            8,
        ) + (outputs[0].values_json + output_bytes(outputs.drop_first()))),
    decreases outputs.len(),
{
    let last = outputs.last();
    let tail = last.component_spec_hash + big_endian(last.values_json.len(), 8) + last.values_json;
    assert(output_bytes(outputs) =~= output_bytes(outputs.drop_last()) + tail);
    if outputs.len() == 1 {
        assert(outputs.drop_last() =~= Seq::<UpstreamOutputView>::empty());
        assert(outputs.drop_first() =~= Seq::<UpstreamOutputView>::empty());
    } else {
        let middle = outputs.drop_first().drop_last();
        first_output_leads(outputs.drop_last());
        assert(outputs.drop_last().drop_first() =~= middle);
        assert(output_bytes(outputs.drop_first()) =~= output_bytes(middle) + tail);
    }
}

proof fn outputs_tell_apart(a: Seq<UpstreamOutputView>, b: Seq<UpstreamOutputView>)
    requires
        forall|i: int| 0 <= i < a.len() ==> sized_output(#[trigger] a[i]),
        forall|i: int| 0 <= i < b.len() ==> sized_output(#[trigger] b[i]),
        output_bytes(a) == output_bytes(b),
    ensures
        a == b,
    decreases a.len(),
{
    if a.len() > 0 {
        first_output_leads(a);
        assert(sized_output(a[0]) && output_bytes(a).len() >= 32);
    }
    if b.len() > 0 {
        first_output_leads(b);
        assert(sized_output(b[0]) && output_bytes(b).len() >= 32);
    }
    if a.len() > 0 && b.len() > 0 {
        let size = big_endian(a[0].values_json.len(), 8);
        let other_size = big_endian(b[0].values_json.len(), 8);
        let rest = output_bytes(a.drop_first());
        let other_rest = output_bytes(b.drop_first());
        big_endian_width(a[0].values_json.len(), 8);
        big_endian_width(b[0].values_json.len(), 8);
        parts_tell_apart(
            a[0].component_spec_hash,
            size + (a[0].values_json + rest),
            b[0].component_spec_hash,
            other_size + (b[0].values_json + other_rest),
        );
        parts_tell_apart(size, a[0].values_json + rest, other_size, b[0].values_json + other_rest);
        span_of_eight();
        big_endian_tells_apart(a[0].values_json.len(), b[0].values_json.len(), 8);
        parts_tell_apart(a[0].values_json, rest, b[0].values_json, other_rest);
        outputs_tell_apart(a.drop_first(), b.drop_first());
        assert(a =~= seq![a[0]] + a.drop_first());
        assert(b =~= seq![b[0]] + b.drop_first());
    } else {
        assert(a =~= b);
    }
}

}
