//! Mutation-free complete-slice planning and immutable executable plans.

use vstd::prelude::*;
use vstd::utf8::encode_utf8;

use crate::context::migration_pointer;
use crate::context::AnonAccess;
use crate::context::Migration;
use crate::context::MigrationView;
use crate::context::PlanIssueView;
use crate::hashing::blake3_text;
use crate::hashing::hex_bytes;
use crate::hashing::hex_text;
use crate::hashing::is_hex;
use crate::hashing::label_blake3;
use crate::hashing::label_digest;
use crate::hashing::label_sha256;
use crate::hashing::sha256;
use crate::hashing::sha256_label;
use crate::hashing::sha256_text;
use crate::journal::Binding;
use crate::journal::BindingView;
use crate::journal::JournalSnapshot;
use crate::journal::JournalSnapshotView;
use crate::json::json_bytes;
use crate::json::json_of;
use crate::json::object_of;
use crate::json::text_array;
use crate::json::JsonView;
use crate::json::Members;
use crate::model::optional;
use crate::model::outcome;
use crate::order::held;
use crate::order::placed;
use crate::order::put;
use crate::order::TextMap;
use crate::order::TextSet;
use crate::report::ComponentOutputs;
use crate::report::ComponentOutputsView;
use crate::slice::ComponentPin;
use crate::slice::ComponentPinView;
use crate::slice::DesiredSlice;
use crate::slice::DesiredSliceView;
use crate::target::flags_document;
use crate::target::schemas_of;
use crate::target::set_of;
use crate::target::ObservedTarget;
use crate::target::ObservedTargetView;
use crate::text::debug;
use crate::text::debug_text;
use crate::text::decimal;
use crate::text::decimal_text;
use crate::text::trim_end_mark;
use crate::text::Plus as _;

verus! {

broadcast use crate::model::group_model;

/// Plan/review format discriminator.
pub const API_VERSION: &'static str = "henosis.dev/supabase-review-plan/v1";

/// Policy identity bound into every plan.
pub const POLICY_VERSION: &'static str = "supabase-local-v1";

/// The one target that v1 plans are for.
pub const TARGET: &'static str = "local/henosis-local/postgres";

/// Exact private executable payload.
#[derive(Debug, PartialEq, Eq)]
pub struct ExecutablePlan {
    /// Content digest of the payload with this field omitted.
    pub plan_id: String,
    /// Format discriminator.
    pub api_version: String,
    /// Connector registry key.
    pub connector: String,
    /// Connector build identity.
    pub connector_build: String,
    /// Planning/apply policy identity.
    pub policy_version: String,
    /// Graph UUID as lowercase hexadecimal.
    pub graph_id: String,
    /// Desired generation as a string ID.
    pub generation: String,
    /// Exact slice sequence as a string ID.
    pub slice_sequence: String,
    /// Configured target identity.
    pub target: String,
    /// Complete desired BLAKE3 digest.
    pub desired_digest: String,
    /// Exact observed-target BLAKE3 digest.
    pub observed_digest: String,
    /// Required journal tail after `PlanCreated`.
    pub journal_tail: String,
    /// Complete ordered native operation proposal.
    pub operations: Vec<PlannedOperation>,
    /// Fully known outputs, with secrets represented only by references.
    pub planned_outputs: Vec<PlannedOutput>,
}

/// What an [`ExecutablePlan`] holds.
#[verifier::ext_equal]
pub struct ExecutablePlanView {
    pub plan_id: Seq<char>,
    pub api_version: Seq<char>,
    pub connector: Seq<char>,
    pub connector_build: Seq<char>,
    pub policy_version: Seq<char>,
    pub graph_id: Seq<char>,
    pub generation: Seq<char>,
    pub slice_sequence: Seq<char>,
    pub target: Seq<char>,
    pub desired_digest: Seq<char>,
    pub observed_digest: Seq<char>,
    pub journal_tail: Seq<char>,
    pub operations: Seq<PlannedOperationView>,
    pub planned_outputs: Seq<PlannedOutputView>,
}

impl DeepView for ExecutablePlan {
    type V = ExecutablePlanView;

    open spec fn deep_view(&self) -> ExecutablePlanView {
        ExecutablePlanView {
            plan_id: self.plan_id@,
            api_version: self.api_version@,
            connector: self.connector@,
            connector_build: self.connector_build@,
            policy_version: self.policy_version@,
            graph_id: self.graph_id@,
            generation: self.generation@,
            slice_sequence: self.slice_sequence@,
            target: self.target@,
            desired_digest: self.desired_digest@,
            observed_digest: self.observed_digest@,
            journal_tail: self.journal_tail@,
            operations: self.operations.deep_view(),
            planned_outputs: self.planned_outputs.deep_view(),
        }
    }
}

impl View for ExecutablePlan {
    type V = ExecutablePlanView;

    open spec fn view(&self) -> ExecutablePlanView {
        self.deep_view()
    }
}

impl Clone for ExecutablePlan {
    fn clone(&self) -> (r: Self)
        ensures
            r@ == self@,
    {
        let r = ExecutablePlan {
            plan_id: self.plan_id.clone(),
            api_version: self.api_version.clone(),
            connector: self.connector.clone(),
            connector_build: self.connector_build.clone(),
            policy_version: self.policy_version.clone(),
            graph_id: self.graph_id.clone(),
            generation: self.generation.clone(),
            slice_sequence: self.slice_sequence.clone(),
            target: self.target.clone(),
            desired_digest: self.desired_digest.clone(),
            observed_digest: self.observed_digest.clone(),
            journal_tail: self.journal_tail.clone(),
            operations: self.operations.clone(),
            planned_outputs: self.planned_outputs.clone(),
        };
        assert(r.operations.deep_view() =~= self.operations.deep_view());
        assert(r.planned_outputs.deep_view() =~= self.planned_outputs.deep_view());
        r
    }
}

/// One operation in the complete proposal.
#[derive(Debug, PartialEq, Eq)]
pub struct PlannedOperation {
    /// Stable semantic operation identity.
    pub id: String,
    /// Stable logical/native address.
    pub address: String,
    /// Component spec hashes affected by the operation.
    pub component_scopes: Vec<String>,
    /// Reconciled object or ordered transition.
    pub execution_class: ExecutionClass,
    /// Review action.
    pub action: Action,
    /// Canonical redacted prior value.
    pub before: serde_json::Value,
    /// Canonical redacted proposed value.
    pub after: serde_json::Value,
    /// Safety classification.
    pub destructive_level: DestructiveLevel,
    /// Stable predecessor operation IDs.
    pub dependencies: Vec<String>,
    /// Exact operation-specific target preconditions.
    pub preconditions: Vec<String>,
    /// Private executable operation.
    pub operation: Operation,
}

/// What a [`PlannedOperation`] holds.
#[verifier::ext_equal]
pub struct PlannedOperationView {
    pub id: Seq<char>,
    pub address: Seq<char>,
    pub component_scopes: Seq<Seq<char>>,
    pub execution_class: ExecutionClass,
    pub action: Action,
    pub before: JsonView,
    pub after: JsonView,
    pub destructive_level: DestructiveLevel,
    pub dependencies: Seq<Seq<char>>,
    pub preconditions: Seq<Seq<char>>,
    pub operation: OperationView,
}

impl DeepView for PlannedOperation {
    type V = PlannedOperationView;

    open spec fn deep_view(&self) -> PlannedOperationView {
        PlannedOperationView {
            id: self.id@,
            address: self.address@,
            component_scopes: self.component_scopes.deep_view(),
            execution_class: self.execution_class,
            action: self.action,
            before: json_of(self.before),
            after: json_of(self.after),
            destructive_level: self.destructive_level,
            dependencies: self.dependencies.deep_view(),
            preconditions: self.preconditions.deep_view(),
            operation: self.operation@,
        }
    }
}

impl View for PlannedOperation {
    type V = PlannedOperationView;

    open spec fn view(&self) -> PlannedOperationView {
        self.deep_view()
    }
}

impl Clone for PlannedOperation {
    fn clone(&self) -> (r: Self)
        ensures
            r@ == self@,
    {
        PlannedOperation {
            id: self.id.clone(),
            address: self.address.clone(),
            component_scopes: crate::model::copy_texts(&self.component_scopes),
            execution_class: self.execution_class,
            action: self.action,
            before: self.before.clone(),
            after: self.after.clone(),
            destructive_level: self.destructive_level,
            dependencies: crate::model::copy_texts(&self.dependencies),
            preconditions: crate::model::copy_texts(&self.preconditions),
            operation: self.operation.clone(),
        }
    }
}

/// Native execution class.
#[derive(Clone, Copy, Debug, PartialEq, Eq, Structural)]
pub enum ExecutionClass {
    /// Repeated observation and idempotent convergence.
    ReconciledObject,
    /// Immutable ordered SQL transition.
    OrderedTransition,
}

/// Semantic review action.
#[derive(Clone, Copy, Debug, PartialEq, Eq, Structural)]
pub enum Action {
    /// Create a missing object/receipt.
    Create,
    /// Change reversible configuration.
    Update,
    /// Claim a stable existing remote identity.
    Bind,
    /// Apply one immutable ordered transition.
    Transition,
}

/// Review safety classification.
#[derive(Clone, Copy, Debug, PartialEq, Eq, Structural)]
pub enum DestructiveLevel {
    /// No deletion or replacement is proposed.
    NonDestructive,
}

/// Private executable operation variants.
#[derive(Debug, PartialEq, Eq)]
pub enum Operation {
    /// Persist one stable identity binding in the journal.
    EstablishBinding {
        /// Binding to append.
        binding: Binding,
    },
    /// Create the connector's target-side migration receipt ledger.
    EnsureMetadata,
    /// Create one owned `PostgreSQL` schema.
    EnsureSchema {
        /// Stable resource identity.
        resource_id: String,
        /// Schema native identity.
        schema: String,
    },
    /// Apply one exact immutable SQL transition.
    ApplyMigration {
        /// Stable resource identity.
        resource_id: String,
        /// Schema search-path identity.
        schema: String,
        /// Exact migration payload.
        migration: Migration,
    },
    /// Converge `PostgREST` exposed schemas and anonymous grants.
    ConfigureApi {
        /// Complete exposed schema set, including unmanaged preserved values.
        exposed_schemas: Vec<String>,
        /// Desired policy for every connector-owned schema in this slice.
        policies: Vec<ApiPolicy>,
    },
}

/// What an [`Operation`] holds.
#[verifier::ext_equal]
pub enum OperationView {
    EstablishBinding { binding: BindingView },
    EnsureMetadata,
    EnsureSchema { resource_id: Seq<char>, schema: Seq<char> },
    ApplyMigration { resource_id: Seq<char>, schema: Seq<char>, migration: MigrationView },
    ConfigureApi { exposed_schemas: Seq<Seq<char>>, policies: Seq<ApiPolicyView> },
}

impl DeepView for Operation {
    type V = OperationView;

    open spec fn deep_view(&self) -> OperationView {
        match self {
            Operation::EstablishBinding { binding } => OperationView::EstablishBinding {
                binding: binding@,
            },
            Operation::EnsureMetadata => OperationView::EnsureMetadata,
            Operation::EnsureSchema { resource_id, schema } => OperationView::EnsureSchema {
                resource_id: resource_id@,
                schema: schema@,
            },
            Operation::ApplyMigration { resource_id, schema, migration } => OperationView::ApplyMigration {
                resource_id: resource_id@,
                schema: schema@,
                migration: migration@,
            },
            Operation::ConfigureApi { exposed_schemas, policies } => OperationView::ConfigureApi {
                exposed_schemas: exposed_schemas.deep_view(),
                policies: policies.deep_view(),
            },
        }
    }
}

impl View for Operation {
    type V = OperationView;

    open spec fn view(&self) -> OperationView {
        self.deep_view()
    }
}

impl Clone for Operation {
    fn clone(&self) -> (r: Self)
        ensures
            r@ == self@,
    {
        match self {
            Operation::EstablishBinding { binding } => {
                Operation::EstablishBinding {
                    binding: binding.clone(),
                }
            },
            Operation::EnsureMetadata => Operation::EnsureMetadata,
            Operation::EnsureSchema { resource_id, schema } => {
                Operation::EnsureSchema {
                    resource_id: resource_id.clone(),
                    schema: schema.clone(),
                }
            },
            Operation::ApplyMigration { resource_id, schema, migration } => {
                Operation::ApplyMigration {
                    resource_id: resource_id.clone(),
                    schema: schema.clone(),
                    migration: migration.clone(),
                }
            },
            Operation::ConfigureApi { exposed_schemas, policies } => {
                let policies_copy = policies.clone();
                assert(policies_copy.deep_view() =~= policies.deep_view());
                Operation::ConfigureApi {
                    exposed_schemas: crate::model::copy_texts(exposed_schemas),
                    policies: policies_copy,
                }
            },
        }
    }
}

/// One owned schema's API policy.
#[derive(Debug, PartialEq, Eq)]
pub struct ApiPolicy {
    /// Schema native identity.
    pub schema: String,
    /// Whether `PostgREST` exposes the schema.
    pub expose: bool,
    /// Anonymous grant policy.
    pub anon_access: AnonAccess,
}

/// What an [`ApiPolicy`] holds.
#[verifier::ext_equal]
pub struct ApiPolicyView {
    pub schema: Seq<char>,
    pub expose: bool,
    pub anon_access: AnonAccess,
}

impl DeepView for ApiPolicy {
    type V = ApiPolicyView;

    open spec fn deep_view(&self) -> ApiPolicyView {
        ApiPolicyView {
            schema: self.schema@,
            expose: self.expose,
            anon_access: self.anon_access,
        }
    }
}

impl View for ApiPolicy {
    type V = ApiPolicyView;

    open spec fn view(&self) -> ApiPolicyView {
        self.deep_view()
    }
}

impl Clone for ApiPolicy {
    fn clone(&self) -> (r: Self)
        ensures
            r@ == self@,
    {
        ApiPolicy {
            schema: self.schema.clone(),
            expose: self.expose,
            anon_access: self.anon_access,
        }
    }
}

/// Redacted fully known output proposal.
#[derive(Debug, PartialEq, Eq)]
pub struct PlannedOutput {
    /// Producer spec hash.
    pub component_spec_hash: String,
    /// Canonical output JSON.
    pub values: serde_json::Value,
}

/// What a [`PlannedOutput`] holds.
#[verifier::ext_equal]
pub struct PlannedOutputView {
    pub component_spec_hash: Seq<char>,
    pub values: JsonView,
}

impl DeepView for PlannedOutput {
    type V = PlannedOutputView;

    open spec fn deep_view(&self) -> PlannedOutputView {
        PlannedOutputView {
            component_spec_hash: self.component_spec_hash@,
            values: json_of(self.values),
        }
    }
}

impl View for PlannedOutput {
    type V = PlannedOutputView;

    open spec fn view(&self) -> PlannedOutputView {
        self.deep_view()
    }
}

impl Clone for PlannedOutput {
    fn clone(&self) -> (r: Self)
        ensures
            r@ == self@,
    {
        PlannedOutput {
            component_spec_hash: self.component_spec_hash.clone(),
            values: self.values.clone(),
        }
    }
}

/// One plan-phase failure attached to its component.
#[derive(Debug, PartialEq, Eq)]
pub struct PlanDiagnostic {
    /// Producer spec hash.
    pub component_spec_hash: [u8; 32],
    /// Stable code.
    pub code: String,
    /// Canonical safe detail.
    pub message: String,
    /// RFC 6901 connector-context pointer.
    pub pointer: String,
    /// Actionable guidance.
    pub help: String,
}

/// What a [`PlanDiagnostic`] holds.
#[verifier::ext_equal]
pub struct PlanDiagnosticView {
    pub component_spec_hash: Seq<u8>,
    pub code: Seq<char>,
    pub message: Seq<char>,
    pub pointer: Seq<char>,
    pub help: Seq<char>,
}

impl DeepView for PlanDiagnostic {
    type V = PlanDiagnosticView;

    open spec fn deep_view(&self) -> PlanDiagnosticView {
        PlanDiagnosticView {
            component_spec_hash: self.component_spec_hash@,
            code: self.code@,
            message: self.message@,
            pointer: self.pointer@,
            help: self.help@,
        }
    }
}

impl View for PlanDiagnostic {
    type V = PlanDiagnosticView;

    open spec fn view(&self) -> PlanDiagnosticView {
        self.deep_view()
    }
}

impl Clone for PlanDiagnostic {
    fn clone(&self) -> (r: Self)
        ensures
            r@ == self@,
    {
        PlanDiagnostic {
            component_spec_hash: self.component_spec_hash,
            code: self.code.clone(),
            message: self.message.clone(),
            pointer: self.pointer.clone(),
            help: self.help.clone(),
        }
    }
}

/// Connector/runtime facts bound into a plan but not desired by authoring.
#[derive(Clone, Copy, Debug)]
pub struct PlanContext<'a> {
    /// Tail required immediately after appending `PlanCreated`.
    pub journal_tail_after_plan: u64,
    /// Connector build identity.
    pub connector_build: &'a str,
    /// Credential-free public API origin.
    pub api_url: &'a str,
    /// Database URL secret reference.
    pub database_url_ref: &'a str,
    /// Anonymous key secret reference.
    pub anon_key_ref: &'a str,
}

/// What a [`PlanContext`] holds.
#[verifier::ext_equal]
pub struct PlanContextView {
    pub journal_tail_after_plan: u64,
    pub connector_build: Seq<char>,
    pub api_url: Seq<char>,
    pub database_url_ref: Seq<char>,
    pub anon_key_ref: Seq<char>,
}

impl<'a> View for PlanContext<'a> {
    type V = PlanContextView;

    open spec fn view(&self) -> PlanContextView {
        PlanContextView {
            journal_tail_after_plan: self.journal_tail_after_plan,
            connector_build: self.connector_build@,
            api_url: self.api_url@,
            database_url_ref: self.database_url_ref@,
            anon_key_ref: self.anon_key_ref@,
        }
    }
}

// ---------------------------------------------------------------------------
// Names
// ---------------------------------------------------------------------------

impl ExecutionClass {
    /// The class's name in documents.
    pub open spec fn name(self) -> Seq<char> {
        match self {
            ExecutionClass::ReconciledObject => "reconciled-object"@,
            ExecutionClass::OrderedTransition => "ordered-transition"@,
        }
    }

    /// The class's title in human views.
    pub open spec fn title(self) -> Seq<char> {
        match self {
            ExecutionClass::ReconciledObject => "ReconciledObject"@,
            ExecutionClass::OrderedTransition => "OrderedTransition"@,
        }
    }

    /// The class's name in documents.
    pub fn text(self) -> (r: &'static str)
        ensures
            r@ == self.name(),
    {
        match self {
            ExecutionClass::ReconciledObject => "reconciled-object",
            ExecutionClass::OrderedTransition => "ordered-transition",
        }
    }

    /// The class's title in human views.
    pub fn heading(self) -> (r: &'static str)
        ensures
            r@ == self.title(),
    {
        match self {
            ExecutionClass::ReconciledObject => "ReconciledObject",
            ExecutionClass::OrderedTransition => "OrderedTransition",
        }
    }
}

impl Action {
    /// The action's name in documents.
    pub open spec fn name(self) -> Seq<char> {
        match self {
            Action::Create => "create"@,
            Action::Update => "update"@,
            Action::Bind => "bind"@,
            Action::Transition => "transition"@,
        }
    }

    /// The action's title in human views.
    pub open spec fn title(self) -> Seq<char> {
        match self {
            Action::Create => "Create"@,
            Action::Update => "Update"@,
            Action::Bind => "Bind"@,
            Action::Transition => "Transition"@,
        }
    }

    /// The action's name in documents.
    pub fn text(self) -> (r: &'static str)
        ensures
            r@ == self.name(),
    {
        match self {
            Action::Create => "create",
            Action::Update => "update",
            Action::Bind => "bind",
            Action::Transition => "transition",
        }
    }

    /// The action's title in human views.
    pub fn heading(self) -> (r: &'static str)
        ensures
            r@ == self.title(),
    {
        match self {
            Action::Create => "Create",
            Action::Update => "Update",
            Action::Bind => "Bind",
            Action::Transition => "Transition",
        }
    }
}

impl DestructiveLevel {
    /// The level's name in documents.
    pub open spec fn name(self) -> Seq<char> {
        "non-destructive"@
    }

    /// The level's title in human views.
    pub open spec fn title(self) -> Seq<char> {
        "NonDestructive"@
    }

    /// The level's name in documents.
    pub fn text(self) -> (r: &'static str)
        ensures
            r@ == self.name(),
    {
        "non-destructive"
    }

    /// The level's title in human views.
    pub fn heading(self) -> (r: &'static str)
        ensures
            r@ == self.title(),
    {
        "NonDestructive"
    }
}

// ---------------------------------------------------------------------------
// Documents
// ---------------------------------------------------------------------------

impl ApiPolicyView {
    /// The members of the document.
    pub open spec fn members(self) -> Seq<(Seq<char>, JsonView)> {
        seq![
            ("schema"@, JsonView::Text(self.schema)),
            ("expose"@, JsonView::Bool(self.expose)),
            ("anonAccess"@, JsonView::Text(self.anon_access.name())),
        ]
    }

    /// The policy as a document.
    pub open spec fn document(self) -> JsonView {
        object_of(self.members())
    }
}

impl ApiPolicy {
    fn document(&self) -> (r: serde_json::Value)
        ensures
            json_of(r) == self@.document(),
    {
        let members = Members::new().with_text("schema", self.schema.as_str()).with(
            "expose",
            crate::json::boolean(self.expose),
        ).with_text("anonAccess", self.anon_access.text());
        assert(members@ =~= self@.members());
        members.finish()
    }
}

impl OperationView {
    /// The members of the document.
    pub open spec fn members(self) -> Seq<(Seq<char>, JsonView)> {
        match self {
            OperationView::EstablishBinding { binding } => seq![
                ("kind"@, JsonView::Text("establishBinding"@)),
                ("binding"@, binding.document()),
            ],
            OperationView::EnsureMetadata => seq![("kind"@, JsonView::Text("ensureMetadata"@))],
            OperationView::EnsureSchema { resource_id, schema } => seq![
                ("kind"@, JsonView::Text("ensureSchema"@)),
                ("resource_id"@, JsonView::Text(resource_id)),
                ("schema"@, JsonView::Text(schema)),
            ],
            OperationView::ApplyMigration { resource_id, schema, migration } => seq![
                ("kind"@, JsonView::Text("applyMigration"@)),
                ("resource_id"@, JsonView::Text(resource_id)),
                ("schema"@, JsonView::Text(schema)),
                ("migration"@, migration.document()),
            ],
            OperationView::ConfigureApi { exposed_schemas, policies } => seq![
                ("kind"@, JsonView::Text("configureApi"@)),
                ("exposed_schemas"@, text_array(exposed_schemas)),
                (
                    "policies"@,
                    JsonView::Array(Seq::new(policies.len(), |i: int| policies[i].document())),
                ),
            ],
        }
    }

    /// The operation as a document.
    pub open spec fn document(self) -> JsonView {
        object_of(self.members())
    }
}

fn policy_documents(policies: &Vec<ApiPolicy>) -> (r: serde_json::Value)
    ensures
        json_of(r) == JsonView::Array(
            Seq::new(policies@.len(), |i: int| policies.deep_view()[i].document()),
        ),
{
    let mut values: Vec<serde_json::Value> = Vec::new();
    let mut i: usize = 0;
    while i < policies.len()
        invariant
            i <= policies@.len(),
            values@.len() == i,
            forall|j: int|
                0 <= j < i ==> json_of(#[trigger] values@[j]) == policies.deep_view()[j].document(),
        decreases policies.len() - i,
    {
        values.push(policies[i].document());
        i += 1;
    }
    assert(crate::json::json_all(values@) =~= Seq::new(
        policies@.len(),
        |i: int| policies.deep_view()[i].document(),
    ));
    crate::json::array(values)
}

impl Operation {
    /// The operation as a document.
    pub fn document(&self) -> (r: serde_json::Value)
        ensures
            json_of(r) == self@.document(),
    {
        let members = match self {
            Operation::EstablishBinding { binding } => Members::new().with_text(
                "kind",
                "establishBinding",
            ).with("binding", binding.document()),
            Operation::EnsureMetadata => Members::new().with_text("kind", "ensureMetadata"),
            Operation::EnsureSchema { resource_id, schema } => Members::new().with_text(
                "kind",
                "ensureSchema",
            ).with_text("resource_id", resource_id.as_str()).with_text("schema", schema.as_str()),
            Operation::ApplyMigration { resource_id, schema, migration } =>
                Members::new().with_text("kind", "applyMigration").with_text(
                "resource_id",
                resource_id.as_str(),
            ).with_text("schema", schema.as_str()).with("migration", migration.document()),
            Operation::ConfigureApi { exposed_schemas, policies } => Members::new().with_text(
                "kind",
                "configureApi",
            ).with("exposed_schemas", crate::json::texts(exposed_schemas)).with(
                "policies",
                policy_documents(policies),
            ),
        };
        proof {
            match self {
                Operation::ConfigureApi { exposed_schemas, policies } => {
                    assert(Seq::new(policies@.len(), |i: int| policies.deep_view()[i].document())
                        =~= Seq::new(
                        policies.deep_view().len(),
                        |i: int| policies.deep_view()[i].document(),
                    ));
                },
                _ => {},
            }
        }
        assert(members@ =~= self@.members());
        members.finish()
    }
}

impl PlannedOperationView {
    /// The members of the document.
    pub open spec fn members(self) -> Seq<(Seq<char>, JsonView)> {
        seq![
            ("id"@, JsonView::Text(self.id)),
            ("address"@, JsonView::Text(self.address)),
            ("componentScopes"@, text_array(self.component_scopes)),
            ("executionClass"@, JsonView::Text(self.execution_class.name())),
            ("action"@, JsonView::Text(self.action.name())),
            ("before"@, self.before),
            ("after"@, self.after),
            ("destructiveLevel"@, JsonView::Text(self.destructive_level.name())),
            ("dependencies"@, text_array(self.dependencies)),
            ("preconditions"@, text_array(self.preconditions)),
            ("operation"@, self.operation.document()),
        ]
    }

    /// The planned operation as a document.
    pub open spec fn document(self) -> JsonView {
        object_of(self.members())
    }
}

impl PlannedOperation {
    fn document(&self) -> (r: serde_json::Value)
        ensures
            json_of(r) == self@.document(),
    {
        let members = Members::new().with_text("id", self.id.as_str()).with_text(
            "address",
            self.address.as_str(),
        ).with("componentScopes", crate::json::texts(&self.component_scopes)).with_text(
            "executionClass",
            self.execution_class.text(),
        ).with_text("action", self.action.text()).with("before", self.before.clone()).with(
            "after",
            self.after.clone(),
        ).with_text("destructiveLevel", self.destructive_level.text()).with(
            "dependencies",
            crate::json::texts(&self.dependencies),
        ).with("preconditions", crate::json::texts(&self.preconditions)).with(
            "operation",
            self.operation.document(),
        );
        assert(members@ =~= self@.members());
        members.finish()
    }
}

impl PlannedOutputView {
    /// The members of the document.
    pub open spec fn members(self) -> Seq<(Seq<char>, JsonView)> {
        seq![
            ("componentSpecHash"@, JsonView::Text(self.component_spec_hash)),
            ("values"@, self.values),
        ]
    }

    /// The output as a document.
    pub open spec fn document(self) -> JsonView {
        object_of(self.members())
    }
}

impl PlannedOutput {
    fn document(&self) -> (r: serde_json::Value)
        ensures
            json_of(r) == self@.document(),
    {
        let members = Members::new().with_text(
            "componentSpecHash",
            self.component_spec_hash.as_str(),
        ).with("values", self.values.clone());
        assert(members@ =~= self@.members());
        members.finish()
    }
}

/// The planned operations as a document.
pub open spec fn operation_list(operations: Seq<PlannedOperationView>) -> JsonView {
    JsonView::Array(Seq::new(operations.len(), |i: int| operations[i].document()))
}

/// The planned outputs as a document.
pub open spec fn output_list(outputs: Seq<PlannedOutputView>) -> JsonView {
    JsonView::Array(Seq::new(outputs.len(), |i: int| outputs[i].document()))
}

fn operation_documents(operations: &Vec<PlannedOperation>) -> (r: serde_json::Value)
    ensures
        json_of(r) == operation_list(operations.deep_view()),
{
    let mut values: Vec<serde_json::Value> = Vec::new();
    let mut i: usize = 0;
    while i < operations.len()
        invariant
            i <= operations@.len(),
            values@.len() == i,
            forall|j: int|
                0 <= j < i ==> json_of(#[trigger] values@[j])
                    == operations.deep_view()[j].document(),
        decreases operations.len() - i,
    {
        values.push(operations[i].document());
        i += 1;
    }
    let ghost all = operations.deep_view();
    assert(crate::json::json_all(values@) =~= Seq::new(all.len(), |i: int| all[i].document()));
    crate::json::array(values)
}

/// Writes the planned outputs as a document.
pub(crate) fn output_documents(outputs: &Vec<PlannedOutput>) -> (r: serde_json::Value)
    ensures
        json_of(r) == output_list(outputs.deep_view()),
{
    let mut values: Vec<serde_json::Value> = Vec::new();
    let mut i: usize = 0;
    while i < outputs.len()
        invariant
            i <= outputs@.len(),
            values@.len() == i,
            forall|j: int|
                0 <= j < i ==> json_of(#[trigger] values@[j]) == outputs.deep_view()[j].document(),
        decreases outputs.len() - i,
    {
        values.push(outputs[i].document());
        i += 1;
    }
    let ghost all = outputs.deep_view();
    assert(crate::json::json_all(values@) =~= Seq::new(all.len(), |i: int| all[i].document()));
    crate::json::array(values)
}

impl ExecutablePlanView {
    /// The members of the payload: every field but the plan's own identity.
    pub open spec fn payload_members(self) -> Seq<(Seq<char>, JsonView)> {
        seq![
            ("apiVersion"@, JsonView::Text(self.api_version)),
            ("connector"@, JsonView::Text(self.connector)),
            ("connectorBuild"@, JsonView::Text(self.connector_build)),
            ("policyVersion"@, JsonView::Text(self.policy_version)),
            ("graphId"@, JsonView::Text(self.graph_id)),
            ("generation"@, JsonView::Text(self.generation)),
            ("sliceSequence"@, JsonView::Text(self.slice_sequence)),
            ("target"@, JsonView::Text(self.target)),
            ("desiredDigest"@, JsonView::Text(self.desired_digest)),
            ("observedDigest"@, JsonView::Text(self.observed_digest)),
            ("journalTail"@, JsonView::Text(self.journal_tail)),
            ("operations"@, operation_list(self.operations)),
            ("plannedOutputs"@, output_list(self.planned_outputs)),
        ]
    }

    /// The payload that the plan's identity covers.
    pub open spec fn payload(self) -> JsonView {
        object_of(self.payload_members())
    }

    /// The plan as a document: its identity, then its payload.
    pub open spec fn document(self) -> JsonView {
        object_of(seq![("planId"@, JsonView::Text(self.plan_id))] + self.payload_members())
    }

    /// The identity of the payload.
    pub open spec fn payload_id(self) -> Seq<char> {
        sha256_text(json_bytes(self.payload()))
    }

    /// The plan under its payload's identity.
    pub open spec fn identified(self) -> Self {
        ExecutablePlanView { plan_id: self.payload_id(), ..self }
    }
}

impl ExecutablePlan {
    fn add_payload(&self, members: Members) -> (r: Members)
        ensures
            r@ == members@ + self@.payload_members(),
    {
        let r = members.with_text("apiVersion", self.api_version.as_str()).with_text(
            "connector",
            self.connector.as_str(),
        ).with_text("connectorBuild", self.connector_build.as_str()).with_text(
            "policyVersion",
            self.policy_version.as_str(),
        ).with_text("graphId", self.graph_id.as_str()).with_text(
            "generation",
            self.generation.as_str(),
        ).with_text("sliceSequence", self.slice_sequence.as_str()).with_text(
            "target",
            self.target.as_str(),
        ).with_text("desiredDigest", self.desired_digest.as_str()).with_text(
            "observedDigest",
            self.observed_digest.as_str(),
        ).with_text("journalTail", self.journal_tail.as_str()).with(
            "operations",
            operation_documents(&self.operations),
        ).with("plannedOutputs", output_documents(&self.planned_outputs));
        assert(r@ =~= members@ + self@.payload_members());
        r
    }

    /// The payload that the plan's identity covers.
    pub fn payload(&self) -> (r: serde_json::Value)
        ensures
            json_of(r) == self@.payload(),
    {
        let members = self.add_payload(Members::new());
        assert(members@ =~= self@.payload_members());
        members.finish()
    }

    /// The plan as a document: its identity, then its payload.
    pub fn document(&self) -> (r: serde_json::Value)
        ensures
            json_of(r) == self@.document(),
    {
        let identity = Members::new().with_text("planId", self.plan_id.as_str());
        assert(identity@ =~= seq![("planId"@, JsonView::Text(self@.plan_id))]);
        self.add_payload(identity).finish()
    }

    /// Whether the plan stands under the identity of a payload with the digest.
    pub fn is_identified_by(&self, digest: &[u8; 32]) -> (r: bool)
        ensures
            r == (self@.plan_id == sha256_label(digest@)),
    {
        self.plan_id == label_digest(digest)
    }

    /// Puts the plan under the identity of a payload with the digest.
    pub fn identify(&mut self, digest: &[u8; 32])
        ensures
            final(self)@ == (ExecutablePlanView { plan_id: sha256_label(digest@), ..old(self)@ }),
    {
        self.plan_id = label_digest(digest);
    }

    /// Recomputes and verifies the payload digest before apply.
    pub fn verify_digest(&self) -> (r: bool)
        ensures
            r == (self@.plan_id == self@.payload_id()),
    {
        let bytes = crate::json::to_bytes(&self.payload());
        self.is_identified_by(&sha256(&bytes))
    }

    /// Puts the plan under its payload's identity.
    pub fn refresh_id(&mut self)
        ensures
            final(self)@ == old(self)@.identified(),
    {
        let bytes = crate::json::to_bytes(&self.payload());
        self.identify(&sha256(&bytes));
    }
}

/// The identity of an operation for a desired level.
pub open spec fn operation_identity(
    desired_digest: Seq<char>,
    operation: OperationView,
) -> Seq<char> {
    sha256_text(
        encode_utf8("henosis.dev/supabase-operation/v1\0"@) + encode_utf8(desired_digest)
            + json_bytes(operation.document()),
    )
}

/// The identity of an operation for a desired level.
pub fn operation_id(desired_digest: &str, operation: &Operation) -> (r: String)
    ensures
        r@ == operation_identity(desired_digest@, operation@),
{
    let mut bytes = vstd::slice::slice_to_vec("henosis.dev/supabase-operation/v1\0".as_bytes());
    let mut level = vstd::slice::slice_to_vec(desired_digest.as_bytes());
    let mut document = crate::json::to_bytes(&operation.document());
    let ghost all = bytes@ + level@ + document@;
    bytes.append(&mut level);
    bytes.append(&mut document);
    assert(bytes@ =~= all);
    label_sha256(&bytes)
}

/// A plan that was put under its payload's identity verifies, and a plan that verifies was.
pub proof fn identified_plans_verify(plan: ExecutablePlanView)
    ensures
        plan.identified().plan_id == plan.identified().payload_id(),
        plan.plan_id == plan.payload_id() <==> plan == plan.identified(),
        plan.identified().identified() == plan.identified(),
{
}

// ---------------------------------------------------------------------------
// Validation
// ---------------------------------------------------------------------------

/// The first binding of another graph, in the order of the resources.
pub open spec fn foreign_binding(
    bindings: Seq<(Seq<char>, BindingView)>,
    graph: Seq<char>,
) -> Option<BindingView>
    decreases bindings.len(),
{
    if bindings.len() == 0 {
        None
    } else if bindings[0].1.graph_id != graph {
        Some(bindings[0].1)
    } else {
        foreign_binding(bindings.drop_first(), graph)
    }
}

/// The target belongs to another graph.
pub open spec fn owned_diagnostic(
    desired: DesiredSliceView,
    binding: BindingView,
) -> PlanDiagnosticView {
    PlanDiagnosticView {
        component_spec_hash: if desired.components.len() > 0 {
            desired.components[0].spec_hash
        } else {
            no_hash()
        },
        code: "supabase.plan.target-owned"@,
        message: "local Supabase target is already owned by graph "@ + binding.graph_id
            + " through resource "@ + debug_text(binding.resource_id),
        pointer: "/target"@,
        help:
            "Retire/release the owning graph before assigning the exclusive v1 local target to another graph."@,
    }
}

/// Thirty-two zero bytes.
pub open spec fn no_hash() -> Seq<u8> {
    Seq::new(32, |i: int| 0u8)
}

/// An issue of a component's context.
pub open spec fn issue_diagnostic(hash: Seq<u8>, issue: PlanIssueView) -> PlanDiagnosticView {
    PlanDiagnosticView {
        component_spec_hash: hash,
        code: issue.code,
        message: issue.message,
        pointer: issue.pointer,
        help: issue.help,
    }
}

/// The binding is not the one that the component wants.
pub open spec fn conflicts(binding: BindingView, pin: ComponentPinView, graph: Seq<char>) -> bool {
    ||| binding.graph_id != graph
    ||| binding.project != pin.context.target.project
    ||| binding.database != pin.context.target.database
    ||| binding.schema != pin.context.target.schema
}

/// The component's resource is bound to something else.
pub open spec fn conflict_diagnostic(
    hash: Seq<u8>,
    binding: BindingView,
) -> PlanDiagnosticView {
    PlanDiagnosticView {
        component_spec_hash: hash,
        code: "supabase.plan.binding-conflict"@,
        message: "resourceId "@ + debug_text(binding.resource_id) + " is already bound to "@
            + binding.project + "/"@ + binding.database + "/"@ + binding.schema + " for graph "@
            + binding.graph_id,
        pointer: "/resourceId"@,
        help:
            "Keep resourceId and target schema stable across revisions; ownership moves require an explicit future handover operation."@,
    }
}

/// What is wrong with one component.
pub open spec fn pin_diagnostics(
    pin: ComponentPinView,
    journal: JournalSnapshotView,
    graph: Seq<char>,
) -> Seq<PlanDiagnosticView> {
    let issues = pin.context.issues();
    Seq::new(issues.len(), |i: int| issue_diagnostic(pin.spec_hash, issues[i])) + match held(
        journal.bindings,
        pin.context.resource_id,
    ) {
        Some(binding) => optional(
            conflicts(binding, pin, graph),
            conflict_diagnostic(pin.spec_hash, binding),
        ),
        None => seq![],
    }
}

/// What is wrong with the first components.
pub open spec fn pins_diagnostics(
    pins: Seq<ComponentPinView>,
    journal: JournalSnapshotView,
    graph: Seq<char>,
    count: int,
) -> Seq<PlanDiagnosticView>
    decreases count,
{
    if count <= 0 {
        seq![]
    } else {
        pins_diagnostics(pins, journal, graph, count - 1) + pin_diagnostics(
            pins[count - 1],
            journal,
            graph,
        )
    }
}

/// What is wrong with the desired level before the target is looked at.
pub open spec fn desired_diagnostics(
    desired: DesiredSliceView,
    journal: JournalSnapshotView,
) -> Seq<PlanDiagnosticView> {
    let graph = hex_text(desired.graph_id);
    let owned = match foreign_binding(journal.bindings, graph) {
        Some(binding) => seq![owned_diagnostic(desired, binding)],
        None => seq![],
    };
    owned + pins_diagnostics(desired.components, journal, graph, desired.components.len() as int)
}

fn find_foreign<'a>(journal: &'a JournalSnapshot, graph: &str) -> (r: Option<&'a Binding>)
    ensures
        r.deep_view() == foreign_binding(journal@.bindings, graph@),
{
    let entries = journal.bindings.entries();
    let ghost all = journal@.bindings;
    let mut i: usize = 0;
    assert(all.skip(0) == all);
    while i < entries.len()
        invariant
            i <= entries@.len(),
            all == entries.deep_view(),
            all == journal@.bindings,
            foreign_binding(all, graph@) == foreign_binding(all.skip(i as int), graph@),
        decreases entries.len() - i,
    {
        assert(all.skip(i as int)[0] == (entries@[i as int].0@, entries@[i as int].1@));
        if !crate::text::same_text(entries[i].1.graph_id.as_str(), graph) {
            return Some(&entries[i].1);
        }
        assert(all.skip(i as int).drop_first() == all.skip(i + 1));
        i += 1;
    }
    None
}

fn check_pin(pin: &ComponentPin, journal: &JournalSnapshot, graph: &str) -> (r: Vec<
    PlanDiagnostic,
>)
    ensures
        r.deep_view() == pin_diagnostics(pin@, journal@, graph@),
{
    let issues = pin.context.plan_issues();
    let ghost found = pin@.context.issues();
    let ghost mapped = Seq::new(
        found.len(),
        |i: int| issue_diagnostic(pin@.spec_hash, found[i]),
    );
    let mut diagnostics: Vec<PlanDiagnostic> = Vec::new();
    let mut i: usize = 0;
    assert(diagnostics.deep_view() =~= mapped.take(0));
    while i < issues.len()
        invariant
            i <= issues@.len(),
            found == issues.deep_view(),
            mapped == Seq::new(found.len(), |i: int| issue_diagnostic(pin@.spec_hash, found[i])),
            diagnostics.deep_view() == mapped.take(i as int),
        decreases issues.len() - i,
    {
        let issue = &issues[i];
        assert(found[i as int] == issue@);
        diagnostics.push(
            PlanDiagnostic {
                component_spec_hash: pin.spec_hash,
                code: issue.code.to_owned(),
                message: issue.message.clone(),
                pointer: issue.pointer.clone(),
                help: issue.help.clone(),
            },
        );
        assert(mapped.take(i + 1) =~= mapped.take(i as int).push(mapped[i as int]));
        i += 1;
    }
    assert(mapped.take(mapped.len() as int) =~= mapped);
    match journal.bindings.get(pin.context.resource_id.as_str()) {
        Some(binding) => {
            if !crate::text::same_text(binding.graph_id.as_str(), graph) || binding.project
                != pin.context.target.project || binding.database != pin.context.target.database
                || binding.schema != pin.context.target.schema {
                diagnostics.push(
                    PlanDiagnostic {
                        component_spec_hash: pin.spec_hash,
                        code: "supabase.plan.binding-conflict".to_owned(),
                        message: "resourceId ".to_owned().plus(
                            debug(binding.resource_id.as_str()).as_str(),
                        ).plus(" is already bound to ").plus(binding.project.as_str()).plus(
                            "/",
                        ).plus(binding.database.as_str()).plus("/").plus(
                            binding.schema.as_str(),
                        ).plus(" for graph ").plus(binding.graph_id.as_str()),
                        pointer: "/resourceId".to_owned(),
                        help:
                            "Keep resourceId and target schema stable across revisions; ownership moves require an explicit future handover operation.".to_owned(),
                    },
                );
            }
        },
        None => {},
    }
    assert(diagnostics.deep_view() =~= pin_diagnostics(pin@, journal@, graph@));
    diagnostics
}

fn zeros() -> (r: [u8; 32])
    ensures
        r@ == no_hash(),
{
    let r = [0u8; 32];
    assert(r@ =~= no_hash());
    r
}

/// Validates desired content before any target observation or journal append.
pub fn validate_desired(desired: &DesiredSlice, journal: &JournalSnapshot) -> (r: Vec<
    PlanDiagnostic,
>)
    ensures
        r.deep_view() == desired_diagnostics(desired@, journal@),
{
    let graph = crate::hashing::encode(&desired.graph_id);
    let pins = crate::slice::pins(&desired.components);
    let ghost all = desired@.components;
    let mut diagnostics: Vec<PlanDiagnostic> = Vec::new();
    match find_foreign(journal, graph.as_str()) {
        Some(binding) => {
            let component_spec_hash = if pins.len() > 0 {
                assert(all[0] == pins@[0]@);
                pins[0].spec_hash
            } else {
                zeros()
            };
            diagnostics.push(
                PlanDiagnostic {
                    component_spec_hash,
                    code: "supabase.plan.target-owned".to_owned(),
                    message: "local Supabase target is already owned by graph ".to_owned().plus(
                        binding.graph_id.as_str(),
                    ).plus(" through resource ").plus(
                        debug(binding.resource_id.as_str()).as_str(),
                    ),
                    pointer: "/target".to_owned(),
                    help:
                        "Retire/release the owning graph before assigning the exclusive v1 local target to another graph.".to_owned(),
                },
            );
        },
        None => {},
    }
    let ghost first = diagnostics.deep_view();
    assert(first =~= match foreign_binding(journal@.bindings, graph@) {
        Some(binding) => seq![owned_diagnostic(desired@, binding)],
        None => seq![],
    });
    let mut i: usize = 0;
    assert(first =~= first + pins_diagnostics(all, journal@, graph@, 0));
    while i < pins.len()
        invariant
            i <= pins@.len(),
            all == pins.deep_view(),
            diagnostics.deep_view() == first + pins_diagnostics(all, journal@, graph@, i as int),
        decreases pins.len() - i,
    {
        let ghost before = diagnostics.deep_view();
        assert(all[i as int] == pins@[i as int]@);
        let mut found = check_pin(pins[i], journal, graph.as_str());
        let ghost added = found.deep_view();
        diagnostics.append(&mut found);
        assert(diagnostics.deep_view() =~= before + added);
        assert(diagnostics.deep_view() =~= first + pins_diagnostics(all, journal@, graph@, i + 1));
        i += 1;
    }
    diagnostics
}

// ---------------------------------------------------------------------------
// Steps
// ---------------------------------------------------------------------------

/// A plan under construction.
#[derive(Debug, PartialEq, Eq)]
pub struct Draft {
    /// The operations so far.
    pub operations: Vec<PlannedOperation>,
    /// The last operation of each resource.
    pub last_by_resource: TextMap<String>,
    /// What stands in the way of a plan.
    pub diagnostics: Vec<PlanDiagnostic>,
}

/// What a [`Draft`] holds.
#[verifier::ext_equal]
pub struct DraftView {
    pub operations: Seq<PlannedOperationView>,
    pub last_by_resource: Seq<(Seq<char>, Seq<char>)>,
    pub diagnostics: Seq<PlanDiagnosticView>,
}

impl DeepView for Draft {
    type V = DraftView;

    open spec fn deep_view(&self) -> DraftView {
        DraftView {
            operations: self.operations.deep_view(),
            last_by_resource: self.last_by_resource@,
            diagnostics: self.diagnostics.deep_view(),
        }
    }
}

impl View for Draft {
    type V = DraftView;

    open spec fn view(&self) -> DraftView {
        self.deep_view()
    }
}

impl DraftView {
    /// Nothing planned yet.
    pub open spec fn blank() -> Self {
        DraftView { operations: seq![], last_by_resource: seq![], diagnostics: seq![] }
    }

    /// The operation that the resource's next one follows.
    pub open spec fn predecessor(self, resource_id: Seq<char>) -> Seq<Seq<char>> {
        match held(self.last_by_resource, resource_id) {
            Some(id) => seq![id],
            None => seq![],
        }
    }

    /// The draft with one more operation of the resource.
    pub open spec fn with_step(self, resource_id: Seq<char>, step: PlannedOperationView) -> Self {
        DraftView {
            operations: self.operations.push(step),
            last_by_resource: put(self.last_by_resource, resource_id, step.id),
            ..self
        }
    }
}

/// Everything that a plan is made from.
#[verifier::ext_equal]
pub struct Planning {
    /// The desired level.
    pub desired: DesiredSliceView,
    /// The journal's facts.
    pub journal: JournalSnapshotView,
    /// The target's facts.
    pub observed: ObservedTargetView,
    /// Connector and runtime facts.
    pub context: PlanContextView,
}

/// The identities of the operations that establish bindings.
pub open spec fn binding_ids(operations: Seq<PlannedOperationView>) -> Seq<Seq<char>>
    decreases operations.len(),
{
    if operations.len() == 0 {
        seq![]
    } else if operations.last().operation is EstablishBinding {
        binding_ids(operations.drop_last()).push(operations.last().id)
    } else {
        binding_ids(operations.drop_last())
    }
}

/// The position of the first migration with the identity.
pub open spec fn position_of(migrations: Seq<MigrationView>, id: Seq<char>) -> int
    decreases migrations.len(),
{
    if migrations.len() == 0 || migrations[0].id == id {
        0
    } else {
        1 + position_of(migrations.drop_first(), id)
    }
}

/// Some binding of the journal claims the schema.
pub open spec fn claimed(journal: JournalSnapshotView, schema: Seq<char>) -> bool {
    exists|i: int|
        0 <= i < journal.bindings.len() && (#[trigger] journal.bindings[i]).1.schema == schema
}

/// Those of the first schemas that no binding of the journal claims.
pub open spec fn unclaimed(
    journal: JournalSnapshotView,
    schemas: Seq<Seq<char>>,
    count: int,
) -> Seq<Seq<char>>
    decreases count,
{
    if count <= 0 {
        seq![]
    } else if claimed(journal, schemas[count - 1]) {
        unclaimed(journal, schemas, count - 1)
    } else {
        placed(unclaimed(journal, schemas, count - 1), schemas[count - 1])
    }
}

/// The schemas with those of the first components that ask for exposure.
pub open spec fn with_exposed(
    schemas: Seq<Seq<char>>,
    pins: Seq<ComponentPinView>,
    count: int,
) -> Seq<Seq<char>>
    decreases count,
{
    if count <= 0 {
        schemas
    } else if pins[count - 1].context.api.expose {
        placed(with_exposed(schemas, pins, count - 1), pins[count - 1].context.target.schema)
    } else {
        with_exposed(schemas, pins, count - 1)
    }
}

/// Every resource of the first components follows the operation.
pub open spec fn followed_by(
    last_by_resource: Seq<(Seq<char>, Seq<char>)>,
    pins: Seq<ComponentPinView>,
    id: Seq<char>,
    count: int,
) -> Seq<(Seq<char>, Seq<char>)>
    decreases count,
{
    if count <= 0 {
        last_by_resource
    } else {
        put(
            followed_by(last_by_resource, pins, id, count - 1),
            pins[count - 1].context.resource_id,
            id,
        )
    }
}

/// The values of a map, in the order of its keys.
pub open spec fn values_of(entries: Seq<(Seq<char>, Seq<char>)>) -> Seq<Seq<char>> {
    Seq::new(entries.len(), |i: int| entries[i].1)
}

/// The value that describes the receipt ledger.
pub open spec fn ledger_members() -> Seq<(Seq<char>, JsonView)> {
    seq![
        ("schema"@, JsonView::Text("henosis_connector"@)),
        ("table"@, JsonView::Text("migration_receipts"@)),
    ]
}

/// The value that describes a migration, without its SQL.
pub open spec fn transition_members(migration: MigrationView) -> Seq<(Seq<char>, JsonView)> {
    seq![
        ("checksum"@, JsonView::Text(migration.checksum)),
        ("migrationId"@, JsonView::Text(migration.id)),
    ]
}

impl Planning {
    /// The graph as lowercase hexadecimal.
    pub open spec fn graph(self) -> Seq<char> {
        hex_text(self.desired.graph_id)
    }

    /// The identity of the desired level.
    pub open spec fn level(self) -> Seq<char> {
        blake3_text(self.desired.digest())
    }

    /// The components, by hash.
    pub open spec fn pins(self) -> Seq<ComponentPinView> {
        self.desired.components
    }

    /// The hashes of all components, as text.
    pub open spec fn scopes(self) -> Seq<Seq<char>> {
        Seq::new(self.pins().len(), |i: int| hex_text(self.pins()[i].spec_hash))
    }

    /// The identity of an operation in this plan.
    pub open spec fn id(self, operation: OperationView) -> Seq<char> {
        operation_identity(self.level(), operation)
    }

    /// The binding that a component wants.
    pub open spec fn binding(self, pin: ComponentPinView) -> BindingView {
        BindingView {
            graph_id: self.graph(),
            resource_id: pin.context.resource_id,
            project: pin.context.target.project,
            database: pin.context.target.database,
            schema: pin.context.target.schema,
        }
    }

    /// The step that binds a component's resource.
    pub open spec fn binding_step(self, pin: ComponentPinView) -> PlannedOperationView {
        let operation = OperationView::EstablishBinding { binding: self.binding(pin) };
        PlannedOperationView {
            id: self.id(operation),
            address: "binding."@ + pin.context.resource_id,
            component_scopes: seq![hex_text(pin.spec_hash)],
            execution_class: ExecutionClass::ReconciledObject,
            action: Action::Bind,
            before: JsonView::Null,
            after: self.binding(pin).review_value(),
            destructive_level: DestructiveLevel::NonDestructive,
            dependencies: seq![],
            preconditions: seq!["resourceId is unbound"@],
            operation,
        }
    }

    /// The draft with the bindings of the first components that are unbound.
    pub open spec fn after_bindings(self, count: int) -> DraftView
        decreases count,
    {
        if count <= 0 {
            DraftView::blank()
        } else {
            let draft = self.after_bindings(count - 1);
            let pin = self.pins()[count - 1];
            if held(self.journal.bindings, pin.context.resource_id) is Some {
                draft
            } else {
                draft.with_step(pin.context.resource_id, self.binding_step(pin))
            }
        }
    }

    /// The step that creates the receipt ledger.
    pub open spec fn metadata_step(self, draft: DraftView) -> PlannedOperationView {
        PlannedOperationView {
            id: self.id(OperationView::EnsureMetadata),
            address: "database.henosis_connector.migration_receipts"@,
            component_scopes: self.scopes(),
            execution_class: ExecutionClass::ReconciledObject,
            action: Action::Create,
            before: JsonView::Null,
            after: object_of(ledger_members()),
            destructive_level: DestructiveLevel::NonDestructive,
            dependencies: binding_ids(draft.operations),
            preconditions: seq!["receipt ledger does not exist"@],
            operation: OperationView::EnsureMetadata,
        }
    }

    /// The draft with the receipt ledger, if that is missing.
    pub open spec fn after_metadata(self) -> DraftView {
        let draft = self.after_bindings(self.pins().len() as int);
        if self.observed.metadata_exists {
            draft
        } else {
            let step = self.metadata_step(draft);
            DraftView {
                operations: draft.operations.push(step),
                last_by_resource: followed_by(
                    draft.last_by_resource,
                    self.pins(),
                    step.id,
                    self.pins().len() as int,
                ),
                ..draft
            }
        }
    }

    /// The step that creates a component's schema.
    pub open spec fn schema_step(
        self,
        pin: ComponentPinView,
        draft: DraftView,
    ) -> PlannedOperationView {
        let operation = OperationView::EnsureSchema {
            resource_id: pin.context.resource_id,
            schema: pin.context.target.schema,
        };
        PlannedOperationView {
            id: self.id(operation),
            address: "schema."@ + pin.context.target.schema,
            component_scopes: seq![hex_text(pin.spec_hash)],
            execution_class: ExecutionClass::ReconciledObject,
            action: Action::Create,
            before: JsonView::Null,
            after: object_of(seq![("schema"@, JsonView::Text(pin.context.target.schema))]),
            destructive_level: DestructiveLevel::NonDestructive,
            dependencies: draft.predecessor(pin.context.resource_id),
            preconditions: seq!["schema does not exist"@],
            operation,
        }
    }

    /// The step that applies a migration.
    pub open spec fn migration_step(
        self,
        pin: ComponentPinView,
        migration: MigrationView,
        draft: DraftView,
    ) -> PlannedOperationView {
        let operation = OperationView::ApplyMigration {
            resource_id: pin.context.resource_id,
            schema: pin.context.target.schema,
            migration,
        };
        PlannedOperationView {
            id: self.id(operation),
            address: "schema."@ + pin.context.target.schema + ".migration."@ + migration.id,
            component_scopes: seq![hex_text(pin.spec_hash)],
            execution_class: ExecutionClass::OrderedTransition,
            action: Action::Transition,
            before: JsonView::Null,
            after: object_of(transition_members(migration)),
            destructive_level: DestructiveLevel::NonDestructive,
            dependencies: draft.predecessor(pin.context.resource_id),
            preconditions: seq!["migration receipt "@ + debug_text(migration.id) + " is absent"@],
            operation,
        }
    }

    /// An applied migration was edited.
    pub open spec fn mutation(
        self,
        pin: ComponentPinView,
        migration: MigrationView,
        checksum: Seq<char>,
    ) -> PlanDiagnosticView {
        PlanDiagnosticView {
            component_spec_hash: pin.spec_hash,
            code: "supabase.plan.migration-mutated"@,
            message: "migration "@ + debug_text(migration.id) + " was applied with checksum "@
                + debug_text(checksum) + ", but desired declares "@ + debug_text(
                migration.checksum,
            ),
            pointer: migration_pointer(
                position_of(pin.context.migrations, migration.id),
                "/checksum"@,
            ),
            help: "Never edit an applied migration ID; append a new corrective migration."@,
        }
    }

    /// The draft with one migration, if its receipt is missing.
    pub open spec fn after_migration(
        self,
        draft: DraftView,
        pin: ComponentPinView,
        migration: MigrationView,
    ) -> DraftView {
        match self.observed.checksum(pin.context.resource_id, migration.id) {
            Some(checksum) => if checksum == migration.checksum {
                draft
            } else {
                DraftView {
                    diagnostics: draft.diagnostics.push(self.mutation(pin, migration, checksum)),
                    ..draft
                }
            },
            None => draft.with_step(
                pin.context.resource_id,
                self.migration_step(pin, migration, draft),
            ),
        }
    }

    /// The draft with the first migrations of a component.
    pub open spec fn after_migrations(
        self,
        draft: DraftView,
        pin: ComponentPinView,
        count: int,
    ) -> DraftView
        decreases count,
    {
        if count <= 0 {
            draft
        } else {
            self.after_migration(
                self.after_migrations(draft, pin, count - 1),
                pin,
                pin.context.migrations[count - 1],
            )
        }
    }

    /// The draft with a component's schema, if that is missing.
    pub open spec fn after_schema(self, draft: DraftView, pin: ComponentPinView) -> DraftView {
        if self.observed.schemas.contains(pin.context.target.schema) {
            draft
        } else {
            draft.with_step(pin.context.resource_id, self.schema_step(pin, draft))
        }
    }

    /// The draft with the schemas and migrations of the first components.
    pub open spec fn after_components(self, count: int) -> DraftView
        decreases count,
    {
        if count <= 0 {
            self.after_metadata()
        } else {
            let pin = self.pins()[count - 1];
            self.after_migrations(
                self.after_schema(self.after_components(count - 1), pin),
                pin,
                pin.context.migrations.len() as int,
            )
        }
    }

    /// The schemas to expose: those exposed now that no binding claims, the public one, and those
    /// that components ask to expose.
    pub open spec fn exposed(self) -> Seq<Seq<char>> {
        with_exposed(
            placed(
                unclaimed(
                    self.journal,
                    self.observed.exposed_schemas,
                    self.observed.exposed_schemas.len() as int,
                ),
                "public"@,
            ),
            self.pins(),
            self.pins().len() as int,
        )
    }

    /// The policy of every component's schema.
    pub open spec fn policies(self) -> Seq<ApiPolicyView> {
        Seq::new(
            self.pins().len(),
            |i: int|
                ApiPolicyView {
                    schema: self.pins()[i].context.target.schema,
                    expose: self.pins()[i].context.api.expose,
                    anon_access: self.pins()[i].context.api.anon_access,
                },
        )
    }

    /// The API is configured as desired.
    pub open spec fn api_settled(self) -> bool {
        self.exposed() == self.observed.exposed_schemas && self.observed.grants_policies(
            self.policies(),
        )
    }

    /// The value that describes the API's configuration now.
    pub open spec fn api_before(self) -> Seq<(Seq<char>, JsonView)> {
        seq![
            ("anonRead"@, flags_document(self.observed.anon_read)),
            ("exposedSchemas"@, text_array(self.observed.exposed_schemas)),
        ]
    }

    /// The value that describes the API's desired configuration.
    pub open spec fn api_after(self) -> Seq<(Seq<char>, JsonView)> {
        seq![
            ("anonReadSchemas"@, text_array(set_of(schemas_of(self.pins())))),
            ("exposedSchemas"@, text_array(self.exposed())),
        ]
    }

    /// The step that configures the API.
    pub open spec fn api_step(self, draft: DraftView) -> PlannedOperationView {
        let operation = OperationView::ConfigureApi {
            exposed_schemas: self.exposed(),
            policies: self.policies(),
        };
        PlannedOperationView {
            id: self.id(operation),
            address: "postgrest.exposed-schemas"@,
            component_scopes: self.scopes(),
            execution_class: ExecutionClass::ReconciledObject,
            action: Action::Update,
            before: object_of(self.api_before()),
            after: object_of(self.api_after()),
            destructive_level: DestructiveLevel::NonDestructive,
            dependencies: values_of(draft.last_by_resource),
            preconditions: seq!["PostgREST configuration matches observed digest"@],
            operation,
        }
    }

    /// The complete draft.
    pub open spec fn draft(self) -> DraftView {
        let draft = self.after_components(self.pins().len() as int);
        if self.api_settled() {
            draft
        } else {
            DraftView { operations: draft.operations.push(self.api_step(draft)), ..draft }
        }
    }

    /// The API origin without trailing slashes.
    pub open spec fn base(self) -> Seq<char> {
        trim_end_mark(self.context.api_url, '/')
    }

    /// The values that a component publishes.
    pub open spec fn output_members(self, pin: ComponentPinView) -> Seq<(Seq<char>, JsonView)> {
        seq![
            ("anonKeyRef"@, JsonView::Text(self.context.anon_key_ref)),
            ("apiUrl"@, JsonView::Text(self.base())),
            ("database"@, JsonView::Text(pin.context.target.database)),
            ("databaseUrlRef"@, JsonView::Text(self.context.database_url_ref)),
            ("project"@, JsonView::Text(pin.context.target.project)),
            ("restUrl"@, JsonView::Text(self.base() + "/rest/v1"@)),
            ("schema"@, JsonView::Text(pin.context.target.schema)),
        ]
    }

    /// The output of every component.
    pub open spec fn outputs(self) -> Seq<PlannedOutputView> {
        Seq::new(
            self.pins().len(),
            |i: int|
                PlannedOutputView {
                    component_spec_hash: hex_text(self.pins()[i].spec_hash),
                    values: object_of(self.output_members(self.pins()[i])),
                },
        )
    }

    /// The plan, before it has an identity.
    pub open spec fn unidentified_plan(self) -> ExecutablePlanView {
        ExecutablePlanView {
            plan_id: ""@,
            api_version: API_VERSION@,
            connector: crate::CONNECTOR_NAME@,
            connector_build: self.context.connector_build,
            policy_version: POLICY_VERSION@,
            graph_id: self.graph(),
            generation: decimal_text(self.desired.generation as nat),
            slice_sequence: decimal_text(self.desired.sequence as nat),
            target: TARGET@,
            desired_digest: self.level(),
            observed_digest: self.observed.digest_text(),
            journal_tail: decimal_text(self.context.journal_tail_after_plan as nat),
            operations: self.draft().operations,
            planned_outputs: self.outputs(),
        }
    }

    /// The plan under its identity, unless something stands in its way.
    pub open spec fn result(self) -> Result<ExecutablePlanView, Seq<PlanDiagnosticView>> {
        if self.draft().diagnostics.len() > 0 {
            Err(self.draft().diagnostics)
        } else {
            Ok(self.unidentified_plan().identified())
        }
    }
}

fn one(text: String) -> (r: Vec<String>)
    ensures
        r.deep_view() == seq![text@],
{
    let mut r: Vec<String> = Vec::new();
    r.push(text);
    assert(r.deep_view() =~= seq![text@]);
    r
}

fn no_texts() -> (r: Vec<String>)
    ensures
        r.deep_view() == Seq::<Seq<char>>::empty(),
{
    let r: Vec<String> = Vec::new();
    assert(r.deep_view() =~= Seq::<Seq<char>>::empty());
    r
}

fn scope_texts(pins: &Vec<&ComponentPin>) -> (r: Vec<String>)
    ensures
        r.deep_view() == Seq::new(
            pins@.len(),
            |i: int| hex_text(pins.deep_view()[i].spec_hash),
        ),
{
    let ghost all = pins.deep_view();
    let mut scopes: Vec<String> = Vec::new();
    let mut i: usize = 0;
    while i < pins.len()
        invariant
            i <= pins@.len(),
            all == pins.deep_view(),
            scopes@.len() == i,
            forall|j: int| 0 <= j < i ==> (#[trigger] scopes@[j])@ == hex_text(all[j].spec_hash),
        decreases pins.len() - i,
    {
        assert(all[i as int] == pins@[i as int]@);
        scopes.push(crate::hashing::encode(&pins[i].spec_hash));
        i += 1;
    }
    assert(scopes.deep_view() =~= Seq::new(
        pins@.len(),
        |i: int| hex_text(pins.deep_view()[i].spec_hash),
    ));
    scopes
}

impl Draft {
    fn blank() -> (r: Self)
        ensures
            r@ == DraftView::blank(),
    {
        let r = Draft {
            operations: Vec::new(),
            last_by_resource: TextMap::new(),
            diagnostics: Vec::new(),
        };
        assert(r@ =~= DraftView::blank());
        r
    }

    fn predecessor(&self, resource_id: &str) -> (r: Vec<String>)
        ensures
            r.deep_view() == self@.predecessor(resource_id@),
    {
        match self.last_by_resource.get(resource_id) {
            Some(id) => one(id.clone()),
            None => no_texts(),
        }
    }

    fn add_step(&mut self, resource_id: &str, step: PlannedOperation)
        ensures
            final(self)@ == old(self)@.with_step(resource_id@, step@),
    {
        self.last_by_resource.insert(resource_id.to_owned(), step.id.clone());
        self.operations.push(step);
    }
}

fn plan_binding(
    level: &str,
    graph: &str,
    pin: &ComponentPin,
    Ghost(planning): Ghost<Planning>,
) -> (r: PlannedOperation)
    requires
        level@ == planning.level(),
        graph@ == planning.graph(),
    ensures
        r@ == planning.binding_step(pin@),
{
    let binding = Binding {
        graph_id: graph.to_owned(),
        resource_id: pin.context.resource_id.clone(),
        project: pin.context.target.project.clone(),
        database: pin.context.target.database.clone(),
        schema: pin.context.target.schema.clone(),
    };
    let after = binding.review_value();
    let operation = Operation::EstablishBinding { binding };
    PlannedOperation {
        id: operation_id(level, &operation),
        address: "binding.".to_owned().plus(pin.context.resource_id.as_str()),
        component_scopes: one(crate::hashing::encode(&pin.spec_hash)),
        execution_class: ExecutionClass::ReconciledObject,
        action: Action::Bind,
        before: crate::json::null(),
        after,
        destructive_level: DestructiveLevel::NonDestructive,
        dependencies: no_texts(),
        preconditions: one("resourceId is unbound".to_owned()),
        operation,
    }
}

fn draft_bindings(
    level: &str,
    graph: &str,
    pins: &Vec<&ComponentPin>,
    journal: &JournalSnapshot,
    Ghost(planning): Ghost<Planning>,
) -> (r: Draft)
    requires
        level@ == planning.level(),
        graph@ == planning.graph(),
        pins.deep_view() == planning.pins(),
        journal@ == planning.journal,
    ensures
        r@ == planning.after_bindings(planning.pins().len() as int),
{
    let mut draft = Draft::blank();
    let mut i: usize = 0;
    while i < pins.len()
        invariant
            i <= pins@.len(),
            level@ == planning.level(),
            graph@ == planning.graph(),
            pins.deep_view() == planning.pins(),
            journal@ == planning.journal,
            draft@ == planning.after_bindings(i as int),
        decreases pins.len() - i,
    {
        let pin = pins[i];
        assert(planning.pins()[i as int] == pin@);
        let bound = journal.bindings.get(pin.context.resource_id.as_str()).is_some();
        if !bound {
            let step = plan_binding(level, graph, pin, Ghost(planning));
            draft.add_step(pin.context.resource_id.as_str(), step);
        }
        i += 1;
    }
    draft
}

fn binding_identities(operations: &Vec<PlannedOperation>) -> (r: Vec<String>)
    ensures
        r.deep_view() == binding_ids(operations.deep_view()),
{
    let ghost all = operations.deep_view();
    let mut ids = no_texts();
    let mut i: usize = 0;
    assert(binding_ids(all.take(0)) =~= Seq::<Seq<char>>::empty());
    while i < operations.len()
        invariant
            i <= operations@.len(),
            all == operations.deep_view(),
            ids.deep_view() == binding_ids(all.take(i as int)),
        decreases operations.len() - i,
    {
        assert(all.take(i + 1).drop_last() == all.take(i as int));
        assert(all[i as int] == operations@[i as int]@);
        match &operations[i].operation {
            Operation::EstablishBinding { .. } => {
                ids.push(operations[i].id.clone());
            },
            _ => {},
        }
        i += 1;
    }
    assert(all.take(all.len() as int) == all);
    ids
}

fn draft_metadata(
    draft: &mut Draft,
    level: &str,
    pins: &Vec<&ComponentPin>,
    observed: &ObservedTarget,
    Ghost(planning): Ghost<Planning>,
)
    requires
        old(draft)@ == planning.after_bindings(planning.pins().len() as int),
        level@ == planning.level(),
        pins.deep_view() == planning.pins(),
        observed@ == planning.observed,
    ensures
        final(draft)@ == planning.after_metadata(),
{
    if observed.metadata_exists {
        return;
    }
    let ghost before = draft@;
    let operation = Operation::EnsureMetadata;
    let id = operation_id(level, &operation);
    let after = Members::new().with_text("schema", "henosis_connector").with_text(
        "table",
        "migration_receipts",
    );
    assert(after@ =~= ledger_members());
    let component_scopes = scope_texts(pins);
    assert(component_scopes.deep_view() =~= planning.scopes());
    let step = PlannedOperation {
        id: id.clone(),
        address: "database.henosis_connector.migration_receipts".to_owned(),
        component_scopes,
        execution_class: ExecutionClass::ReconciledObject,
        action: Action::Create,
        before: crate::json::null(),
        after: after.finish(),
        destructive_level: DestructiveLevel::NonDestructive,
        dependencies: binding_identities(&draft.operations),
        preconditions: one("receipt ledger does not exist".to_owned()),
        operation,
    };
    assert(step@ == planning.metadata_step(before));
    draft.operations.push(step);
    let ghost all = planning.pins();
    let mut i: usize = 0;
    while i < pins.len()
        invariant
            i <= pins@.len(),
            all == pins.deep_view(),
            draft@.operations == before.operations.push(planning.metadata_step(before)),
            draft@.diagnostics == before.diagnostics,
            draft@.last_by_resource == followed_by(before.last_by_resource, all, id@, i as int),
        decreases pins.len() - i,
    {
        assert(all[i as int] == pins@[i as int]@);
        draft.last_by_resource.insert(pins[i].context.resource_id.clone(), id.clone());
        i += 1;
    }
}

fn plan_schema(
    draft: &Draft,
    level: &str,
    pin: &ComponentPin,
    Ghost(planning): Ghost<Planning>,
) -> (r: PlannedOperation)
    requires
        level@ == planning.level(),
    ensures
        r@ == planning.schema_step(pin@, draft@),
{
    let operation = Operation::EnsureSchema {
        resource_id: pin.context.resource_id.clone(),
        schema: pin.context.target.schema.clone(),
    };
    let after = Members::new().with_text("schema", pin.context.target.schema.as_str());
    assert(after@ =~= seq![("schema"@, JsonView::Text(pin@.context.target.schema))]);
    PlannedOperation {
        id: operation_id(level, &operation),
        address: "schema.".to_owned().plus(pin.context.target.schema.as_str()),
        component_scopes: one(crate::hashing::encode(&pin.spec_hash)),
        execution_class: ExecutionClass::ReconciledObject,
        action: Action::Create,
        before: crate::json::null(),
        after: after.finish(),
        destructive_level: DestructiveLevel::NonDestructive,
        dependencies: draft.predecessor(pin.context.resource_id.as_str()),
        preconditions: one("schema does not exist".to_owned()),
        operation,
    }
}

fn plan_migration(
    draft: &Draft,
    level: &str,
    pin: &ComponentPin,
    migration: &Migration,
    Ghost(planning): Ghost<Planning>,
) -> (r: PlannedOperation)
    requires
        level@ == planning.level(),
    ensures
        r@ == planning.migration_step(pin@, migration@, draft@),
{
    let operation = Operation::ApplyMigration {
        resource_id: pin.context.resource_id.clone(),
        schema: pin.context.target.schema.clone(),
        migration: migration.clone(),
    };
    let after = Members::new().with_text("checksum", migration.checksum.as_str()).with_text(
        "migrationId",
        migration.id.as_str(),
    );
    assert(after@ =~= transition_members(migration@));
    PlannedOperation {
        id: operation_id(level, &operation),
        address: "schema.".to_owned().plus(pin.context.target.schema.as_str()).plus(
            ".migration.",
        ).plus(migration.id.as_str()),
        component_scopes: one(crate::hashing::encode(&pin.spec_hash)),
        execution_class: ExecutionClass::OrderedTransition,
        action: Action::Transition,
        before: crate::json::null(),
        after: after.finish(),
        destructive_level: DestructiveLevel::NonDestructive,
        dependencies: draft.predecessor(pin.context.resource_id.as_str()),
        preconditions: one(
            "migration receipt ".to_owned().plus(debug(migration.id.as_str()).as_str()).plus(
                " is absent",
            ),
        ),
        operation,
    }
}

fn find_position(migrations: &Vec<Migration>, id: &str) -> (r: usize)
    ensures
        r == position_of(migrations.deep_view(), id@),
{
    let ghost all = migrations.deep_view();
    let mut i: usize = 0;
    assert(all.skip(0) == all);
    while i < migrations.len() && !crate::text::same_text(migrations[i].id.as_str(), id)
        invariant
            i <= migrations@.len(),
            all == migrations.deep_view(),
            position_of(all, id@) == i + position_of(all.skip(i as int), id@),
        decreases migrations.len() - i,
    {
        assert(all.skip(i as int)[0] == migrations@[i as int]@);
        assert(all.skip(i as int).drop_first() == all.skip(i + 1));
        i += 1;
    }
    if i < migrations.len() {
        assert(all.skip(i as int)[0] == migrations@[i as int]@);
    }
    i
}

fn draft_migration(
    draft: &mut Draft,
    level: &str,
    pin: &ComponentPin,
    migration: &Migration,
    observed: &ObservedTarget,
    Ghost(planning): Ghost<Planning>,
)
    requires
        level@ == planning.level(),
        observed@ == planning.observed,
    ensures
        final(draft)@ == planning.after_migration(old(draft)@, pin@, migration@),
{
    match observed.migration_checksum(pin.context.resource_id.as_str(), migration.id.as_str()) {
        Some(checksum) => {
            if !crate::text::same_text(checksum, migration.checksum.as_str()) {
                let position = find_position(&pin.context.migrations, migration.id.as_str());
                draft.diagnostics.push(
                    PlanDiagnostic {
                        component_spec_hash: pin.spec_hash,
                        code: "supabase.plan.migration-mutated".to_owned(),
                        message: "migration ".to_owned().plus(
                            debug(migration.id.as_str()).as_str(),
                        ).plus(" was applied with checksum ").plus(debug(checksum).as_str()).plus(
                            ", but desired declares ",
                        ).plus(debug(migration.checksum.as_str()).as_str()),
                        pointer: "/migrations/".to_owned().plus(
                            decimal(position as u64).as_str(),
                        ).plus("/checksum"),
                        help:
                            "Never edit an applied migration ID; append a new corrective migration.".to_owned(),
                    },
                );
            }
        },
        None => {
            let step = plan_migration(draft, level, pin, migration, Ghost(planning));
            draft.add_step(pin.context.resource_id.as_str(), step);
        },
    }
}

fn draft_components(
    draft: &mut Draft,
    level: &str,
    pins: &Vec<&ComponentPin>,
    observed: &ObservedTarget,
    Ghost(planning): Ghost<Planning>,
)
    requires
        old(draft)@ == planning.after_metadata(),
        level@ == planning.level(),
        pins.deep_view() == planning.pins(),
        observed@ == planning.observed,
    ensures
        final(draft)@ == planning.after_components(planning.pins().len() as int),
{
    let mut i: usize = 0;
    while i < pins.len()
        invariant
            i <= pins@.len(),
            level@ == planning.level(),
            pins.deep_view() == planning.pins(),
            observed@ == planning.observed,
            draft@ == planning.after_components(i as int),
        decreases pins.len() - i,
    {
        let pin = pins[i];
        assert(planning.pins()[i as int] == pin@);
        let ghost before = draft@;
        if !observed.schemas.contains(pin.context.target.schema.as_str()) {
            let step = plan_schema(draft, level, pin, Ghost(planning));
            draft.add_step(pin.context.resource_id.as_str(), step);
        }
        let ghost middle = draft@;
        assert(middle == planning.after_schema(before, pin@));
        let mut k: usize = 0;
        while k < pin.context.migrations.len()
            invariant
                k <= pin.context.migrations@.len(),
                level@ == planning.level(),
                observed@ == planning.observed,
                draft@ == planning.after_migrations(middle, pin@, k as int),
            decreases pin.context.migrations.len() - k,
        {
            assert(pin@.context.migrations[k as int] == pin.context.migrations@[k as int]@);
            draft_migration(
                draft,
                level,
                pin,
                &pin.context.migrations[k],
                observed,
                Ghost(planning),
            );
            k += 1;
        }
        i += 1;
    }
}

fn is_claimed(journal: &JournalSnapshot, schema: &str) -> (r: bool)
    ensures
        r == claimed(journal@, schema@),
{
    let entries = journal.bindings.entries();
    let ghost all = journal@.bindings;
    let mut i: usize = 0;
    while i < entries.len()
        invariant
            i <= entries@.len(),
            all == entries.deep_view(),
            all == journal@.bindings,
            forall|j: int| 0 <= j < i ==> (#[trigger] all[j]).1.schema != schema@,
        decreases entries.len() - i,
    {
        assert(all[i as int] == (entries@[i as int].0@, entries@[i as int].1@));
        if crate::text::same_text(entries[i].1.schema.as_str(), schema) {
            return true;
        }
        i += 1;
    }
    false
}

fn choose_exposed(
    pins: &Vec<&ComponentPin>,
    journal: &JournalSnapshot,
    observed: &ObservedTarget,
    Ghost(planning): Ghost<Planning>,
) -> (r: TextSet)
    requires
        pins.deep_view() == planning.pins(),
        journal@ == planning.journal,
        observed@ == planning.observed,
    ensures
        r@ == planning.exposed(),
{
    let current = observed.exposed_schemas.items();
    let ghost now = planning.observed.exposed_schemas;
    let mut exposed = TextSet::new();
    let mut i: usize = 0;
    while i < current.len()
        invariant
            i <= current@.len(),
            now == current.deep_view(),
            journal@ == planning.journal,
            exposed@ == unclaimed(planning.journal, now, i as int),
        decreases current.len() - i,
    {
        assert(now[i as int] == current@[i as int]@);
        if !is_claimed(journal, current[i].as_str()) {
            exposed.insert(current[i].clone());
        }
        i += 1;
    }
    exposed.insert("public".to_owned());
    let ghost start = exposed@;
    let mut k: usize = 0;
    while k < pins.len()
        invariant
            k <= pins@.len(),
            pins.deep_view() == planning.pins(),
            exposed@ == with_exposed(start, planning.pins(), k as int),
        decreases pins.len() - k,
    {
        assert(planning.pins()[k as int] == pins@[k as int]@);
        if pins[k].context.api.expose {
            exposed.insert(pins[k].context.target.schema.clone());
        }
        k += 1;
    }
    exposed
}

fn collect_policies(pins: &Vec<&ComponentPin>, Ghost(planning): Ghost<Planning>) -> (r: Vec<
    ApiPolicy,
>)
    requires
        pins.deep_view() == planning.pins(),
    ensures
        r.deep_view() == planning.policies(),
{
    let mut policies: Vec<ApiPolicy> = Vec::new();
    let mut i: usize = 0;
    while i < pins.len()
        invariant
            i <= pins@.len(),
            pins.deep_view() == planning.pins(),
            policies@.len() == i,
            forall|j: int| 0 <= j < i ==> (#[trigger] policies@[j])@ == planning.policies()[j],
        decreases pins.len() - i,
    {
        assert(planning.pins()[i as int] == pins@[i as int]@);
        policies.push(
            ApiPolicy {
                schema: pins[i].context.target.schema.clone(),
                expose: pins[i].context.api.expose,
                anon_access: pins[i].context.api.anon_access,
            },
        );
        i += 1;
    }
    assert(policies.deep_view() =~= planning.policies());
    policies
}

fn collect_schemas(pins: &Vec<&ComponentPin>) -> (r: TextSet)
    ensures
        r@ == set_of(schemas_of(pins.deep_view())),
{
    let ghost all = pins.deep_view();
    let mut schemas: Vec<String> = Vec::new();
    let mut i: usize = 0;
    while i < pins.len()
        invariant
            i <= pins@.len(),
            all == pins.deep_view(),
            schemas@.len() == i,
            forall|j: int| 0 <= j < i ==> (#[trigger] schemas@[j])@ == schemas_of(all)[j],
        decreases pins.len() - i,
    {
        assert(all[i as int] == pins@[i as int]@);
        schemas.push(pins[i].context.target.schema.clone());
        i += 1;
    }
    assert(schemas.deep_view() =~= schemas_of(all));
    crate::target::collect_set(&schemas)
}

fn collect_last(last_by_resource: &TextMap<String>) -> (r: Vec<String>)
    ensures
        r.deep_view() == values_of(last_by_resource@),
{
    let entries = last_by_resource.entries();
    let ghost all = last_by_resource@;
    let mut ids: Vec<String> = Vec::new();
    let mut i: usize = 0;
    while i < entries.len()
        invariant
            i <= entries@.len(),
            all == entries.deep_view(),
            ids@.len() == i,
            forall|j: int| 0 <= j < i ==> (#[trigger] ids@[j])@ == all[j].1,
        decreases entries.len() - i,
    {
        assert(all[i as int] == (entries@[i as int].0@, entries@[i as int].1@));
        ids.push(entries[i].1.clone());
        i += 1;
    }
    assert(ids.deep_view() =~= values_of(all));
    ids
}

fn draft_api(
    draft: &mut Draft,
    level: &str,
    pins: &Vec<&ComponentPin>,
    journal: &JournalSnapshot,
    observed: &ObservedTarget,
    Ghost(planning): Ghost<Planning>,
)
    requires
        old(draft)@ == planning.after_components(planning.pins().len() as int),
        level@ == planning.level(),
        pins.deep_view() == planning.pins(),
        journal@ == planning.journal,
        observed@ == planning.observed,
    ensures
        final(draft)@ == planning.draft(),
{
    let ghost before_step = draft@;
    let exposed = choose_exposed(pins, journal, observed, Ghost(planning));
    let policies = collect_policies(pins, Ghost(planning));
    if exposed.same(&observed.exposed_schemas) && observed.grants(&policies) {
        return;
    }
    let operation = Operation::ConfigureApi {
        exposed_schemas: crate::model::copy_texts(exposed.items()),
        policies,
    };
    let before = Members::new().with(
        "anonRead",
        crate::target::flag_document(&observed.anon_read),
    ).with("exposedSchemas", crate::json::texts(observed.exposed_schemas.items()));
    assert(before@ =~= planning.api_before());
    let owned = collect_schemas(pins);
    let after = Members::new().with("anonReadSchemas", crate::json::texts(owned.items())).with(
        "exposedSchemas",
        crate::json::texts(exposed.items()),
    );
    assert(after@ =~= planning.api_after());
    let component_scopes = scope_texts(pins);
    assert(component_scopes.deep_view() =~= planning.scopes());
    let step = PlannedOperation {
        id: operation_id(level, &operation),
        address: "postgrest.exposed-schemas".to_owned(),
        component_scopes,
        execution_class: ExecutionClass::ReconciledObject,
        action: Action::Update,
        before: before.finish(),
        after: after.finish(),
        destructive_level: DestructiveLevel::NonDestructive,
        dependencies: collect_last(&draft.last_by_resource),
        preconditions: one("PostgREST configuration matches observed digest".to_owned()),
        operation,
    };
    assert(step@ == planning.api_step(before_step));
    draft.operations.push(step);
}

fn plan_outputs(
    pins: &Vec<&ComponentPin>,
    context: PlanContext<'_>,
    Ghost(planning): Ghost<Planning>,
) -> (r: Vec<PlannedOutput>)
    requires
        pins.deep_view() == planning.pins(),
        context@ == planning.context,
    ensures
        r.deep_view() == planning.outputs(),
{
    let base = crate::text::from_chars(
        &crate::text::trim_mark(&crate::text::chars(context.api_url), '/'),
    );
    let rest = base.clone().plus("/rest/v1");
    let mut outputs: Vec<PlannedOutput> = Vec::new();
    let mut i: usize = 0;
    while i < pins.len()
        invariant
            i <= pins@.len(),
            pins.deep_view() == planning.pins(),
            context@ == planning.context,
            base@ == planning.base(),
            rest@ == planning.base() + "/rest/v1"@,
            outputs@.len() == i,
            forall|j: int| 0 <= j < i ==> (#[trigger] outputs@[j])@ == planning.outputs()[j],
        decreases pins.len() - i,
    {
        let pin = pins[i];
        assert(planning.pins()[i as int] == pin@);
        let values = Members::new().with_text("anonKeyRef", context.anon_key_ref).with_text(
            "apiUrl",
            base.as_str(),
        ).with_text("database", pin.context.target.database.as_str()).with_text(
            "databaseUrlRef",
            context.database_url_ref,
        ).with_text("project", pin.context.target.project.as_str()).with_text(
            "restUrl",
            rest.as_str(),
        ).with_text("schema", pin.context.target.schema.as_str());
        assert(values@ =~= planning.output_members(pin@));
        outputs.push(
            PlannedOutput {
                component_spec_hash: crate::hashing::encode(&pin.spec_hash),
                values: values.finish(),
            },
        );
        i += 1;
    }
    assert(outputs.deep_view() =~= planning.outputs());
    outputs
}

/// Produces a complete immutable plan from desired, journal, and target truth.
pub fn build_plan(
    desired: &DesiredSlice,
    journal: &JournalSnapshot,
    observed: &ObservedTarget,
    context: PlanContext<'_>,
) -> (r: Result<ExecutablePlan, Vec<PlanDiagnostic>>)
    ensures
        outcome(r) == (Planning {
            desired: desired@,
            journal: journal@,
            observed: observed@,
            context: context@,
        }).result(),
{
    let ghost planning = Planning {
        desired: desired@,
        journal: journal@,
        observed: observed@,
        context: context@,
    };
    let graph_id = crate::hashing::encode(&desired.graph_id);
    let desired_digest = label_blake3(&desired.desired_digest());
    let pins = crate::slice::pins(&desired.components);
    let mut draft = draft_bindings(
        desired_digest.as_str(),
        graph_id.as_str(),
        &pins,
        journal,
        Ghost(planning),
    );
    draft_metadata(&mut draft, desired_digest.as_str(), &pins, observed, Ghost(planning));
    draft_components(&mut draft, desired_digest.as_str(), &pins, observed, Ghost(planning));
    draft_api(&mut draft, desired_digest.as_str(), &pins, journal, observed, Ghost(planning));
    if draft.diagnostics.len() > 0 {
        return Err(draft.diagnostics);
    }
    let mut plan = ExecutablePlan {
        plan_id: "".to_owned(),
        api_version: API_VERSION.to_owned(),
        connector: crate::CONNECTOR_NAME.to_owned(),
        connector_build: context.connector_build.to_owned(),
        policy_version: POLICY_VERSION.to_owned(),
        graph_id,
        generation: decimal(desired.generation),
        slice_sequence: decimal(desired.sequence),
        target: TARGET.to_owned(),
        desired_digest,
        observed_digest: observed.digest_label(),
        journal_tail: decimal(context.journal_tail_after_plan),
        operations: draft.operations,
        planned_outputs: plan_outputs(&pins, context, Ghost(planning)),
    };
    assert(plan@ == planning.unidentified_plan());
    plan.refresh_id();
    Ok(plan)
}

// ---------------------------------------------------------------------------
// Outputs
// ---------------------------------------------------------------------------

impl ExecutablePlanView {
    /// Every planned output names its producer by a hexadecimal hash.
    pub open spec fn outputs_are_named(self) -> bool {
        forall|i: int|
            0 <= i < self.planned_outputs.len() ==> is_hex(
                (#[trigger] self.planned_outputs[i]).component_spec_hash,
            )
    }

    /// The planned outputs as published values.
    pub open spec fn published(self) -> Seq<ComponentOutputsView> {
        Seq::new(
            self.planned_outputs.len(),
            |i: int|
                ComponentOutputsView {
                    component_spec_hash: hex_bytes(
                        encode_utf8(self.planned_outputs[i].component_spec_hash),
                    ),
                    values_json: json_bytes(self.planned_outputs[i].values),
                },
        )
    }
}

impl ExecutablePlan {
    /// Converts fully known planned outputs to published values.
    pub fn contract_outputs(&self) -> (r: Vec<ComponentOutputs>)
        requires
            self@.outputs_are_named(),
        ensures
            r.deep_view() == self@.published(),
    {
        let ghost all = self@.planned_outputs;
        let mut outputs: Vec<ComponentOutputs> = Vec::new();
        let mut i: usize = 0;
        while i < self.planned_outputs.len()
            invariant
                i <= self.planned_outputs@.len(),
                all == self.planned_outputs.deep_view(),
                self@.outputs_are_named(),
                outputs@.len() == i,
                forall|j: int| 0 <= j < i ==> (#[trigger] outputs@[j])@ == self@.published()[j],
            decreases self.planned_outputs.len() - i,
        {
            let output = &self.planned_outputs[i];
            assert(all[i as int] == output@);
            assert(is_hex(self@.planned_outputs[i as int].component_spec_hash));
            let component_spec_hash = match crate::hashing::decode(
                output.component_spec_hash.as_str(),
            ) {
                Ok(bytes) => bytes,
                Err(_) => Vec::new(),
            };
            let values_json = crate::json::to_bytes(&output.values);
            outputs.push(ComponentOutputs { component_spec_hash, values_json });
            i += 1;
        }
        assert(outputs.deep_view() =~= self@.published());
        outputs
    }
}

/// A built plan publishes for every component its own hash and its planned values.
pub proof fn built_plans_publish_every_component(planning: Planning)
    ensures
        planning.result() matches Ok(plan) ==> plan.outputs_are_named() && plan.published().len()
            == planning.pins().len() && forall|i: int|
            0 <= i < planning.pins().len() ==> (
            #[trigger] plan.published()[i]).component_spec_hash == planning.pins()[i].spec_hash
                && plan.published()[i].values_json == json_bytes(
                object_of(planning.output_members(planning.pins()[i])),
            ),
{
    if planning.result() is Ok {
        let plan = planning.result()->Ok_0;
        assert forall|i: int| 0 <= i < plan.planned_outputs.len() implies is_hex(
            (#[trigger] plan.planned_outputs[i]).component_spec_hash,
        ) by {
            crate::hashing::hex_gives_back(planning.pins()[i].spec_hash);
        }
        assert forall|i: int| 0 <= i < planning.pins().len() implies (
        #[trigger] plan.published()[i]).component_spec_hash == planning.pins()[i].spec_hash
            && plan.published()[i].values_json == json_bytes(
            object_of(planning.output_members(planning.pins()[i])),
        ) by {
            crate::hashing::hex_gives_back(planning.pins()[i].spec_hash);
        }
    }
}

// ---------------------------------------------------------------------------
// Clean levels
// ---------------------------------------------------------------------------

/// The component raises no issue, and its resource is unbound or bound as it wants.
pub open spec fn clean_pin(
    pin: ComponentPinView,
    journal: JournalSnapshotView,
    graph: Seq<char>,
) -> bool {
    &&& pin.context.issues().len() == 0
    &&& held(journal.bindings, pin.context.resource_id) matches Some(binding) ==> !conflicts(
        binding,
        pin,
        graph,
    )
}

proof fn clean_pins(
    pins: Seq<ComponentPinView>,
    journal: JournalSnapshotView,
    graph: Seq<char>,
    count: int,
)
    requires
        0 <= count <= pins.len(),
    ensures
        pins_diagnostics(pins, journal, graph, count).len() == 0 <==> forall|i: int|
            0 <= i < count ==> clean_pin(#[trigger] pins[i], journal, graph),
    decreases count,
{
    if count > 0 {
        clean_pins(pins, journal, graph, count - 1);
        assert(pin_diagnostics(pins[count - 1], journal, graph).len() == 0 <==> clean_pin(
            pins[count - 1],
            journal,
            graph,
        ));
    }
}

proof fn no_foreign_binding(bindings: Seq<(Seq<char>, BindingView)>, graph: Seq<char>)
    ensures
        foreign_binding(bindings, graph) is None <==> forall|i: int|
            0 <= i < bindings.len() ==> (#[trigger] bindings[i]).1.graph_id == graph,
    decreases bindings.len(),
{
    if bindings.len() > 0 {
        let rest = bindings.drop_first();
        no_foreign_binding(rest, graph);
        if foreign_binding(bindings, graph) is None {
            assert forall|i: int| 0 <= i < bindings.len() implies (
            #[trigger] bindings[i]).1.graph_id == graph by {
                if i > 0 {
                    assert(rest[i - 1] == bindings[i]);
                }
            }
        } else if bindings[0].1.graph_id == graph {
            let i = choose|i: int| 0 <= i < rest.len() && (#[trigger] rest[i]).1.graph_id != graph;
            assert(bindings[i + 1] == rest[i]);
        }
    }
}

/// A level passes validation exactly if every binding of the journal belongs to its graph, and
/// every component raises no issue and is unbound or bound as it wants.
pub proof fn clean_levels_pass_validation(desired: DesiredSliceView, journal: JournalSnapshotView)
    ensures
        desired_diagnostics(desired, journal).len() == 0 <==> {
            &&& forall|i: int|
                0 <= i < journal.bindings.len() ==> (#[trigger] journal.bindings[i]).1.graph_id
                    == hex_text(desired.graph_id)
            &&& forall|i: int|
                0 <= i < desired.components.len() ==> clean_pin(
                    #[trigger] desired.components[i],
                    journal,
                    hex_text(desired.graph_id),
                )
        },
{
    let graph = hex_text(desired.graph_id);
    no_foreign_binding(journal.bindings, graph);
    clean_pins(desired.components, journal, graph, desired.components.len() as int);
}

}
