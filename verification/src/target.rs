//! Native PostgreSQL/PostgREST observation and one-operation application.

use vstd::prelude::*;

use crate::context::AnonAccess;
use crate::context::MigrationView;
use crate::hashing::blake3_of;
use crate::hashing::blake3_text;
use crate::hashing::label_blake3;
use crate::inputs::batches_set_nothing;
use crate::inputs::distinct_inputs;
use crate::inputs::held_setting;
use crate::inputs::setting_name;
use crate::inputs::settings_hold_values;
use crate::inputs::settings_of;
use crate::inputs::supplied_text;
use crate::json::json_bytes;
use crate::json::json_of;
use crate::json::object_of;
use crate::json::text_array;
use crate::json::JsonView;
use crate::json::Members;
use crate::order::held;
use crate::order::placed;
use crate::order::put;
use crate::order::TextMap;
use crate::order::TextSet;
use crate::plan::ApiPolicy;
use crate::plan::ApiPolicyView;
use crate::plan::ExecutablePlan;
use crate::plan::ExecutablePlanView;
use crate::plan::Operation;
use crate::plan::OperationView;
use crate::plan::PlannedOperation;
use crate::plan::PlannedOperationView;
use crate::slice::ComponentPinView;
use crate::slice::DesiredSlice;
use crate::slice::UpstreamOutputView;
use crate::text::debug;
use crate::text::debug_text;
use crate::text::decimal;
use crate::text::decimal_text;
use crate::text::doubled;
use crate::text::fields;
use crate::text::joined;
use crate::text::trim_text;
use crate::text::Plus as _;
use crate::text::Separator;

verus! {

broadcast use crate::model::group_model;

/// The advisory lock that serializes work on the target.
pub const TARGET_LOCK_KEY: i64 = 7_219_384_115_691_047_989;

/// The statement that takes the advisory lock until the transaction ends.
pub const LOCK_STATEMENT: &'static str = "select pg_advisory_xact_lock($1)";

/// Configured trusted target boundary.
#[derive(Clone, Debug)]
pub struct TargetConfig {
    /// `PostgreSQL` host on the compose network.
    pub host: String,
    /// `PostgreSQL` port.
    pub port: u16,
    /// Login role.
    pub user: String,
    /// Database name.
    pub database: String,
    /// Path of the secret that contains only the database password.
    pub password_file: String,
    /// Public credential-free API origin.
    pub api_url: String,
    /// Secret reference published instead of a database URL.
    pub database_url_ref: String,
    /// Secret reference published instead of an anonymous key.
    pub anon_key_ref: String,
}

/// Local Supabase target.
#[derive(Clone, Debug)]
pub struct Target {
    config: TargetConfig,
}

impl Target {
    /// The configured boundary.
    pub closed spec fn configured(self) -> TargetConfig {
        self.config
    }

    /// Constructs a target without reading secrets yet.
    pub fn new(config: TargetConfig) -> (r: Self)
        ensures
            r.configured() == config,
    {
        Target { config }
    }

    /// The configured boundary.
    pub fn config(&self) -> (r: &TargetConfig)
        ensures
            *r == self.configured(),
    {
        &self.config
    }

    /// Public API URL used in non-secret outputs.
    pub fn api_url(&self) -> (r: &str)
        ensures
            r@ == self.configured().api_url@,
    {
        self.config.api_url.as_str()
    }

    /// Stable database URL reference.
    pub fn database_url_ref(&self) -> (r: &str)
        ensures
            r@ == self.configured().database_url_ref@,
    {
        self.config.database_url_ref.as_str()
    }

    /// Stable anonymous key reference.
    pub fn anon_key_ref(&self) -> (r: &str)
        ensures
            r@ == self.configured().anon_key_ref@,
    {
        self.config.anon_key_ref.as_str()
    }
}

/// Canonical observed facts relevant to the desired slice.
#[derive(Debug, PartialEq, Eq)]
pub struct ObservedTarget {
    /// Database identity and version, never credentials.
    pub identity: DatabaseIdentity,
    /// Whether the connector target ledger exists.
    pub metadata_exists: bool,
    /// Desired schemas currently present.
    pub schemas: TextSet,
    /// Target-side migration receipts in canonical identity/ID order.
    pub migrations: Vec<ObservedMigration>,
    /// Current `PostgREST` exposed schema set.
    pub exposed_schemas: TextSet,
    /// Whether each desired schema currently has anonymous read access.
    pub anon_read: TextMap<bool>,
}

/// What an [`ObservedTarget`] holds.
#[verifier::ext_equal]
pub struct ObservedTargetView {
    pub identity: DatabaseIdentityView,
    pub metadata_exists: bool,
    pub schemas: Seq<Seq<char>>,
    pub migrations: Seq<ObservedMigrationView>,
    pub exposed_schemas: Seq<Seq<char>>,
    pub anon_read: Seq<(Seq<char>, bool)>,
}

impl DeepView for ObservedTarget {
    type V = ObservedTargetView;

    open spec fn deep_view(&self) -> ObservedTargetView {
        ObservedTargetView {
            identity: self.identity@,
            metadata_exists: self.metadata_exists,
            schemas: self.schemas@,
            migrations: self.migrations.deep_view(),
            exposed_schemas: self.exposed_schemas@,
            anon_read: self.anon_read@,
        }
    }
}

impl View for ObservedTarget {
    type V = ObservedTargetView;

    open spec fn view(&self) -> ObservedTargetView {
        self.deep_view()
    }
}

impl Clone for ObservedTarget {
    fn clone(&self) -> (r: Self)
        ensures
            r@ == self@,
    {
        let r = ObservedTarget {
            identity: self.identity.clone(),
            metadata_exists: self.metadata_exists,
            schemas: self.schemas.clone(),
            migrations: self.migrations.clone(),
            exposed_schemas: self.exposed_schemas.clone(),
            anon_read: self.anon_read.clone(),
        };
        assert(r.migrations.deep_view() =~= self.migrations.deep_view());
        r
    }
}

/// One non-secret receipt from the target-authoritative migration ledger.
#[derive(Debug, PartialEq, Eq)]
pub struct ObservedMigration {
    /// Stable authored resource identity.
    pub resource_id: String,
    /// Stable append-only migration ID.
    pub migration_id: String,
    /// Hash of the exact applied SQL payload.
    pub checksum: String,
}

/// What an [`ObservedMigration`] holds.
#[verifier::ext_equal]
pub struct ObservedMigrationView {
    pub resource_id: Seq<char>,
    pub migration_id: Seq<char>,
    pub checksum: Seq<char>,
}

impl DeepView for ObservedMigration {
    type V = ObservedMigrationView;

    open spec fn deep_view(&self) -> ObservedMigrationView {
        ObservedMigrationView {
            resource_id: self.resource_id@,
            migration_id: self.migration_id@,
            checksum: self.checksum@,
        }
    }
}

impl View for ObservedMigration {
    type V = ObservedMigrationView;

    open spec fn view(&self) -> ObservedMigrationView {
        self.deep_view()
    }
}

impl Clone for ObservedMigration {
    fn clone(&self) -> (r: Self)
        ensures
            r@ == self@,
    {
        ObservedMigration {
            resource_id: self.resource_id.clone(),
            migration_id: self.migration_id.clone(),
            checksum: self.checksum.clone(),
        }
    }
}

/// Stable non-secret database identity.
#[derive(Debug, PartialEq, Eq)]
pub struct DatabaseIdentity {
    /// Current database name.
    pub database: String,
    /// `PostgreSQL` database OID rendered as a string ID.
    pub database_oid: String,
    /// `PostgreSQL` server version number.
    pub server_version: String,
}

/// What a [`DatabaseIdentity`] holds.
#[verifier::ext_equal]
pub struct DatabaseIdentityView {
    pub database: Seq<char>,
    pub database_oid: Seq<char>,
    pub server_version: Seq<char>,
}

impl DeepView for DatabaseIdentity {
    type V = DatabaseIdentityView;

    open spec fn deep_view(&self) -> DatabaseIdentityView {
        DatabaseIdentityView {
            database: self.database@,
            database_oid: self.database_oid@,
            server_version: self.server_version@,
        }
    }
}

impl View for DatabaseIdentity {
    type V = DatabaseIdentityView;

    open spec fn view(&self) -> DatabaseIdentityView {
        self.deep_view()
    }
}

impl Clone for DatabaseIdentity {
    fn clone(&self) -> (r: Self)
        ensures
            r@ == self@,
    {
        DatabaseIdentity {
            database: self.database.clone(),
            database_oid: self.database_oid.clone(),
            server_version: self.server_version.clone(),
        }
    }
}

/// Canonical provider evidence.
#[derive(Debug, PartialEq, Eq)]
pub struct ProviderDiagnostic {
    /// Stable connector/provider code.
    pub code: String,
    /// Verbatim provider fields in deterministic order.
    pub detail: String,
    /// Provider hint when present.
    pub help: Option<String>,
}

/// What a [`ProviderDiagnostic`] holds.
#[verifier::ext_equal]
pub struct ProviderDiagnosticView {
    pub code: Seq<char>,
    pub detail: Seq<char>,
    pub help: Option<Seq<char>>,
}

impl DeepView for ProviderDiagnostic {
    type V = ProviderDiagnosticView;

    open spec fn deep_view(&self) -> ProviderDiagnosticView {
        ProviderDiagnosticView {
            code: self.code@,
            detail: self.detail@,
            help: match self.help {
                Some(value) => Some(value@),
                None => None,
            },
        }
    }
}

impl View for ProviderDiagnostic {
    type V = ProviderDiagnosticView;

    open spec fn view(&self) -> ProviderDiagnosticView {
        self.deep_view()
    }
}

impl Clone for ProviderDiagnostic {
    fn clone(&self) -> (r: Self)
        ensures
            r@ == self@,
    {
        ProviderDiagnostic {
            code: self.code.clone(),
            detail: self.detail.clone(),
            help: match &self.help {
                Some(value) => Some(value.clone()),
                None => None,
            },
        }
    }
}

/// Target access failure.
#[derive(Debug, PartialEq, Eq)]
pub enum TargetError {
    /// Target could not be reached or observed.
    Unavailable(String),
    /// `PostgreSQL` rejected an exact planned operation.
    Provider(ProviderDiagnostic),
}

/// What a [`TargetError`] holds.
#[verifier::ext_equal]
pub enum TargetErrorView {
    Unavailable(Seq<char>),
    Provider(ProviderDiagnosticView),
}

impl DeepView for TargetError {
    type V = TargetErrorView;

    open spec fn deep_view(&self) -> TargetErrorView {
        match self {
            TargetError::Unavailable(value) => TargetErrorView::Unavailable(value@),
            TargetError::Provider(value) => TargetErrorView::Provider(value@),
        }
    }
}

impl View for TargetError {
    type V = TargetErrorView;

    open spec fn view(&self) -> TargetErrorView {
        self.deep_view()
    }
}

impl Clone for TargetError {
    fn clone(&self) -> (r: Self)
        ensures
            r@ == self@,
    {
        match self {
            TargetError::Unavailable(value) => TargetError::Unavailable(value.clone()),
            TargetError::Provider(value) => TargetError::Provider(value.clone()),
        }
    }
}

impl TargetErrorView {
    /// The failure in words.
    pub open spec fn message(self) -> Seq<char> {
        match self {
            TargetErrorView::Unavailable(detail) => "Supabase target unavailable: "@ + detail,
            TargetErrorView::Provider(diagnostic) => diagnostic.detail,
        }
    }
}

impl TargetError {
    /// The failure in words.
    pub fn message(&self) -> (r: String)
        ensures
            r@ == self@.message(),
    {
        match self {
            TargetError::Unavailable(detail) => "Supabase target unavailable: ".to_owned().plus(
                detail.as_str(),
            ),
            TargetError::Provider(diagnostic) => diagnostic.detail.clone(),
        }
    }
}

/// Result of an apply transaction.
#[derive(Debug, PartialEq, Eq)]
pub enum ApplyResult {
    /// Exact preconditions held and the operation committed.
    Applied {
        /// Target digest after commit and re-observation.
        observed_digest: String,
    },
    /// Transactional re-observation contradicted the plan before mutation.
    Stale {
        /// Fresh target digest.
        observed_digest: String,
    },
}

/// What an [`ApplyResult`] holds.
#[verifier::ext_equal]
pub enum ApplyResultView {
    Applied { observed_digest: Seq<char> },
    Stale { observed_digest: Seq<char> },
}

impl DeepView for ApplyResult {
    type V = ApplyResultView;

    open spec fn deep_view(&self) -> ApplyResultView {
        match self {
            ApplyResult::Applied { observed_digest } => ApplyResultView::Applied {
                observed_digest: observed_digest@,
            },
            ApplyResult::Stale { observed_digest } => ApplyResultView::Stale {
                observed_digest: observed_digest@,
            },
        }
    }
}

impl View for ApplyResult {
    type V = ApplyResultView;

    open spec fn view(&self) -> ApplyResultView {
        self.deep_view()
    }
}

impl Clone for ApplyResult {
    fn clone(&self) -> (r: Self)
        ensures
            r@ == self@,
    {
        match self {
            ApplyResult::Applied { observed_digest } => {
                ApplyResult::Applied {
                    observed_digest: observed_digest.clone(),
                }
            },
            ApplyResult::Stale { observed_digest } => {
                ApplyResult::Stale {
                    observed_digest: observed_digest.clone(),
                }
            },
        }
    }
}

// ---------------------------------------------------------------------------
// Observed facts
// ---------------------------------------------------------------------------

/// The checksum of the first receipt for the migration of the resource.
pub open spec fn receipt_checksum(
    receipts: Seq<ObservedMigrationView>,
    resource_id: Seq<char>,
    migration_id: Seq<char>,
) -> Option<Seq<char>>
    decreases receipts.len(),
{
    if receipts.len() == 0 {
        None
    } else if receipts[0].resource_id == resource_id && receipts[0].migration_id == migration_id {
        Some(receipts[0].checksum)
    } else {
        receipt_checksum(receipts.drop_first(), resource_id, migration_id)
    }
}

/// Whether a policy asks for anonymous read access.
pub open spec fn wants_read(policy: ApiPolicyView) -> bool {
    policy.expose && policy.anon_access == AnonAccess::Read
}

impl ObservedTargetView {
    /// The checksum of the receipt for a migration.
    pub open spec fn checksum(self, resource_id: Seq<char>, migration_id: Seq<char>) -> Option<
        Seq<char>,
    > {
        receipt_checksum(self.migrations, resource_id, migration_id)
    }

    /// The grants of one schema are those that the policy asks for.
    pub open spec fn grants_policy(self, policy: ApiPolicyView) -> bool {
        held(self.anon_read, policy.schema) == Some(wants_read(policy))
    }

    /// The grants of every schema are those that its policy asks for.
    pub open spec fn grants_policies(self, policies: Seq<ApiPolicyView>) -> bool {
        forall|i: int| 0 <= i < policies.len() ==> self.grants_policy(#[trigger] policies[i])
    }

    /// The operation's postcondition holds.
    pub open spec fn satisfies(self, operation: OperationView) -> bool {
        match operation {
            OperationView::EstablishBinding { .. } => false,
            OperationView::EnsureMetadata => self.metadata_exists,
            OperationView::EnsureSchema { schema, .. } => self.schemas.contains(schema),
            OperationView::ApplyMigration { resource_id, migration, .. } => self.checksum(
                resource_id,
                migration.id,
            ) == Some(migration.checksum),
            OperationView::ConfigureApi { exposed_schemas, policies } => self.exposed_schemas
                == set_of(exposed_schemas) && self.grants_policies(policies),
        }
    }

    /// The members of the document.
    pub open spec fn members(self) -> Seq<(Seq<char>, JsonView)> {
        seq![
            ("identity"@, self.identity.document()),
            ("metadataExists"@, JsonView::Bool(self.metadata_exists)),
            ("schemas"@, text_array(self.schemas)),
            (
                "migrations"@,
                JsonView::Array(
                    Seq::new(self.migrations.len(), |i: int| self.migrations[i].document()),
                ),
            ),
            ("exposedSchemas"@, text_array(self.exposed_schemas)),
            ("anonRead"@, flags_document(self.anon_read)),
        ]
    }

    /// The facts as a document.
    pub open spec fn document(self) -> JsonView {
        object_of(self.members())
    }

    /// The digest of re-observable target facts.
    pub open spec fn digest(self) -> Seq<u8> {
        blake3_of(json_bytes(self.document()))
    }

    /// The digest of re-observable target facts as labelled text.
    pub open spec fn digest_text(self) -> Seq<char> {
        blake3_text(self.digest())
    }
}

/// The texts as a set, in ascending order.
pub open spec fn set_of(texts: Seq<Seq<char>>) -> Seq<Seq<char>>
    decreases texts.len(),
{
    if texts.len() == 0 {
        seq![]
    } else {
        placed(set_of(texts.drop_last()), texts.last())
    }
}

/// Flags under their names.
pub open spec fn flag_members(flags: Seq<(Seq<char>, bool)>) -> Seq<(Seq<char>, JsonView)> {
    Seq::new(flags.len(), |i: int| (flags[i].0, JsonView::Bool(flags[i].1)))
}

/// Flags as a document.
pub open spec fn flags_document(flags: Seq<(Seq<char>, bool)>) -> JsonView {
    object_of(flag_members(flags))
}

/// Collects the texts in a set.
pub(crate) fn collect_set(texts: &Vec<String>) -> (r: TextSet)
    ensures
        r@ == set_of(texts.deep_view()),
{
    let ghost all = texts.deep_view();
    let mut set = TextSet::new();
    let mut i: usize = 0;
    assert(set@ =~= set_of(all.take(0)));
    while i < texts.len()
        invariant
            i <= texts@.len(),
            all == texts.deep_view(),
            set@ == set_of(all.take(i as int)),
        decreases texts.len() - i,
    {
        assert(all.take(i + 1).drop_last() == all.take(i as int));
        set.insert(texts[i].clone());
        i += 1;
    }
    assert(all.take(all.len() as int) == all);
    set
}

/// Writes flags as a document.
pub(crate) fn flag_document(flags: &TextMap<bool>) -> (r: serde_json::Value)
    ensures
        json_of(r) == flags_document(flags@),
{
    let entries = flags.entries();
    let ghost all = flags@;
    let mut members = Members::new();
    let mut i: usize = 0;
    assert(members@ =~= flag_members(all).take(0));
    while i < entries.len()
        invariant
            i <= entries@.len(),
            all == entries.deep_view(),
            members@ == flag_members(all).take(i as int),
        decreases entries.len() - i,
    {
        assert(all[i as int] == (entries@[i as int].0@, entries@[i as int].1));
        members = members.with(entries[i].0.as_str(), crate::json::boolean(entries[i].1));
        assert(members@ =~= flag_members(all).take(i + 1));
        i += 1;
    }
    assert(flag_members(all).take(all.len() as int) =~= flag_members(all));
    members.finish()
}

impl DatabaseIdentityView {
    /// The members of the document.
    pub open spec fn members(self) -> Seq<(Seq<char>, JsonView)> {
        seq![
            ("database"@, JsonView::Text(self.database)),
            ("databaseOid"@, JsonView::Text(self.database_oid)),
            ("serverVersion"@, JsonView::Text(self.server_version)),
        ]
    }

    /// The identity as a document.
    pub open spec fn document(self) -> JsonView {
        object_of(self.members())
    }
}

impl DatabaseIdentity {
    fn document(&self) -> (r: serde_json::Value)
        ensures
            json_of(r) == self@.document(),
    {
        let members = Members::new().with_text("database", self.database.as_str()).with_text(
            "databaseOid",
            self.database_oid.as_str(),
        ).with_text("serverVersion", self.server_version.as_str());
        assert(members@ =~= self@.members());
        members.finish()
    }
}

impl ObservedMigrationView {
    /// The members of the document.
    pub open spec fn members(self) -> Seq<(Seq<char>, JsonView)> {
        seq![
            ("resourceId"@, JsonView::Text(self.resource_id)),
            ("migrationId"@, JsonView::Text(self.migration_id)),
            ("checksum"@, JsonView::Text(self.checksum)),
        ]
    }

    /// The receipt as a document.
    pub open spec fn document(self) -> JsonView {
        object_of(self.members())
    }
}

impl ObservedMigration {
    fn document(&self) -> (r: serde_json::Value)
        ensures
            json_of(r) == self@.document(),
    {
        let members = Members::new().with_text("resourceId", self.resource_id.as_str()).with_text(
            "migrationId",
            self.migration_id.as_str(),
        ).with_text("checksum", self.checksum.as_str());
        assert(members@ =~= self@.members());
        members.finish()
    }
}

impl ObservedTarget {
    /// Finds the receipt for a migration.
    pub fn migration_checksum(&self, resource_id: &str, migration_id: &str) -> (r: Option<&str>)
        ensures
            match r {
                Some(checksum) => self@.checksum(resource_id@, migration_id@) == Some(checksum@),
                None => self@.checksum(resource_id@, migration_id@) is None,
            },
    {
        let ghost all = self@.migrations;
        let mut i: usize = 0;
        assert(all.skip(0) == all);
        while i < self.migrations.len()
            invariant
                i <= self.migrations@.len(),
                all == self.migrations.deep_view(),
                receipt_checksum(all, resource_id@, migration_id@) == receipt_checksum(
                    all.skip(i as int),
                    resource_id@,
                    migration_id@,
                ),
            decreases self.migrations.len() - i,
        {
            let receipt = &self.migrations[i];
            assert(all.skip(i as int)[0] == receipt@);
            if crate::text::same_text(receipt.resource_id.as_str(), resource_id)
                && crate::text::same_text(receipt.migration_id.as_str(), migration_id) {
                return Some(receipt.checksum.as_str());
            }
            assert(all.skip(i as int).drop_first() == all.skip(i + 1));
            i += 1;
        }
        None
    }

    /// The facts as a document.
    pub fn document(&self) -> (r: serde_json::Value)
        ensures
            json_of(r) == self@.document(),
    {
        let mut receipts: Vec<serde_json::Value> = Vec::new();
        let mut i: usize = 0;
        while i < self.migrations.len()
            invariant
                i <= self.migrations@.len(),
                receipts@.len() == i,
                forall|j: int|
                    0 <= j < i ==> json_of(#[trigger] receipts@[j])
                        == self@.migrations[j].document(),
            decreases self.migrations.len() - i,
        {
            receipts.push(self.migrations[i].document());
            i += 1;
        }
        let ghost all = self@.migrations;
        assert(crate::json::json_all(receipts@) =~= Seq::new(
            all.len(),
            |i: int| all[i].document(),
        ));
        let members = Members::new().with("identity", self.identity.document()).with(
            "metadataExists",
            crate::json::boolean(self.metadata_exists),
        ).with("schemas", crate::json::texts(self.schemas.items())).with(
            "migrations",
            crate::json::array(receipts),
        ).with("exposedSchemas", crate::json::texts(self.exposed_schemas.items())).with(
            "anonRead",
            flag_document(&self.anon_read),
        );
        assert(members@ =~= self@.members());
        members.finish()
    }

    /// Deterministic digest of re-observable target facts.
    pub fn digest(&self) -> (r: [u8; 32])
        ensures
            r@ == self@.digest(),
    {
        crate::hashing::blake3(&crate::json::to_bytes(&self.document()))
    }

    /// The digest as labelled text.
    pub fn digest_label(&self) -> (r: String)
        ensures
            r@ == self@.digest_text(),
    {
        label_blake3(&self.digest())
    }

    /// Whether the grants of every schema are those that its policy asks for.
    pub fn grants(&self, policies: &Vec<ApiPolicy>) -> (r: bool)
        ensures
            r == self@.grants_policies(policies.deep_view()),
    {
        let ghost all = policies.deep_view();
        let mut i: usize = 0;
        while i < policies.len()
            invariant
                i <= policies@.len(),
                all == policies.deep_view(),
                forall|j: int| 0 <= j < i ==> self@.grants_policy(#[trigger] all[j]),
            decreases policies.len() - i,
        {
            let policy = &policies[i];
            assert(all[i as int] == policy@);
            let wanted: bool = policy.expose && policy.anon_access == AnonAccess::Read;
            let granted = match self.anon_read.get(policy.schema.as_str()) {
                Some(actual) => *actual == wanted,
                None => false,
            };
            if !granted {
                assert(!self@.grants_policy(all[i as int]));
                return false;
            }
            i += 1;
        }
        true
    }
}

impl Target {
    /// Checks an interrupted operation's postcondition from current truth.
    pub fn operation_satisfied(&self, operation: &Operation, observed: &ObservedTarget) -> (r: bool)
        ensures
            r == observed@.satisfies(operation@),
    {
        match operation {
            Operation::EstablishBinding { .. } => false,
            Operation::EnsureMetadata => observed.metadata_exists,
            Operation::EnsureSchema { resource_id: _, schema } => observed.schemas.contains(
                schema.as_str(),
            ),
            Operation::ApplyMigration { resource_id, schema: _, migration } => {
                match observed.migration_checksum(resource_id.as_str(), migration.id.as_str()) {
                    Some(checksum) => crate::text::same_text(
                        checksum,
                        migration.checksum.as_str(),
                    ),
                    None => false,
                }
            },
            Operation::ConfigureApi { exposed_schemas, policies } => {
                observed.exposed_schemas.same(&collect_set(exposed_schemas)) && observed.grants(
                    policies,
                )
            },
        }
    }
}

// ---------------------------------------------------------------------------
// Observation
// ---------------------------------------------------------------------------

/// How far an observation has come.
#[derive(Clone, Copy, Debug, PartialEq, Eq, Structural)]
pub enum Stage {
    /// The database's identity is asked for.
    Identity,
    /// The receipt ledger is looked for.
    Metadata,
    /// The schema at the position is looked for.
    Schema(usize),
    /// The anonymous access of the schema at the position is asked for.
    Access(usize),
    /// The migration receipts are asked for.
    Receipts,
    /// The exposed schemas are asked for.
    Exposed,
    /// Nothing is left to ask.
    Complete,
}

/// One question to the target.
#[derive(Debug, PartialEq, Eq)]
pub enum Query {
    /// Name, OID and server version of the current database.
    Identity,
    /// Whether the receipt ledger exists.
    Metadata,
    /// Whether the schema exists.
    Schema(String),
    /// Whether the schema can be read anonymously.
    Access(String),
    /// Every migration receipt.
    Receipts,
    /// The configured list of exposed schemas.
    Exposed,
}

/// What a [`Query`] holds.
#[verifier::ext_equal]
pub enum QueryView {
    Identity,
    Metadata,
    Schema(Seq<char>),
    Access(Seq<char>),
    Receipts,
    Exposed,
}

impl DeepView for Query {
    type V = QueryView;

    open spec fn deep_view(&self) -> QueryView {
        match self {
            Query::Identity => QueryView::Identity,
            Query::Metadata => QueryView::Metadata,
            Query::Schema(value) => QueryView::Schema(value@),
            Query::Access(value) => QueryView::Access(value@),
            Query::Receipts => QueryView::Receipts,
            Query::Exposed => QueryView::Exposed,
        }
    }
}

impl View for Query {
    type V = QueryView;

    open spec fn view(&self) -> QueryView {
        self.deep_view()
    }
}

/// What the target answers.
#[derive(Debug, PartialEq, Eq)]
pub enum Answer {
    /// The database's identity.
    Identity(DatabaseIdentity),
    /// A fact that holds or does not.
    Flag(bool),
    /// The migration receipts, ordered by resource and migration.
    Receipts(Vec<ObservedMigration>),
    /// The configured list, separated by commas.
    Listing(String),
}

/// What an [`Answer`] holds.
#[verifier::ext_equal]
pub enum AnswerView {
    Identity(DatabaseIdentityView),
    Flag(bool),
    Receipts(Seq<ObservedMigrationView>),
    Listing(Seq<char>),
}

impl DeepView for Answer {
    type V = AnswerView;

    open spec fn deep_view(&self) -> AnswerView {
        match self {
            Answer::Identity(value) => AnswerView::Identity(value@),
            Answer::Flag(value) => AnswerView::Flag(*value),
            Answer::Receipts(value) => AnswerView::Receipts(value.deep_view()),
            Answer::Listing(value) => AnswerView::Listing(value@),
        }
    }
}

impl View for Answer {
    type V = AnswerView;

    open spec fn view(&self) -> AnswerView {
        self.deep_view()
    }
}

impl QueryView {
    /// The SQL of the question.
    pub open spec fn sql(self) -> Seq<char> {
        match self {
            QueryView::Identity =>
                "select current_database(), (select oid::text from pg_database where datname = current_database()), current_setting('server_version_num')"@,
            QueryView::Metadata =>
                "select to_regclass('henosis_connector.migration_receipts') is not null"@,
            QueryView::Schema(_) =>
                "select exists(select 1 from pg_namespace where nspname = $1)"@,
            QueryView::Access(_) =>
                "select has_schema_privilege('anon', $1, 'USAGE') and not exists (select 1 from pg_tables where schemaname = $1 and not has_table_privilege('anon', quote_ident(schemaname) || '.' || quote_ident(tablename), 'SELECT'))"@,
            QueryView::Receipts =>
                "select resource_id, migration_id, checksum from henosis_connector.migration_receipts order by resource_id, migration_id"@,
            QueryView::Exposed =>
                "select coalesce((select split_part(setting, '=', 2) from pg_roles cross join lateral unnest(coalesce(rolconfig, '{}'::text[])) setting where rolname = 'postgres' and setting like 'pgrst.db_schemas=%' limit 1), 'public')"@,
        }
    }

    /// The parameter of the question.
    pub open spec fn parameter(self) -> Option<Seq<char>> {
        match self {
            QueryView::Schema(schema) => Some(schema),
            QueryView::Access(schema) => Some(schema),
            _ => None,
        }
    }
}

impl Query {
    /// The SQL of the question.
    pub fn sql(&self) -> (r: &'static str)
        ensures
            r@ == self@.sql(),
    {
        match self {
            Query::Identity =>
                "select current_database(), (select oid::text from pg_database where datname = current_database()), current_setting('server_version_num')",
            Query::Metadata =>
                "select to_regclass('henosis_connector.migration_receipts') is not null",
            Query::Schema(_) => "select exists(select 1 from pg_namespace where nspname = $1)",
            Query::Access(_) =>
                "select has_schema_privilege('anon', $1, 'USAGE') and not exists (select 1 from pg_tables where schemaname = $1 and not has_table_privilege('anon', quote_ident(schemaname) || '.' || quote_ident(tablename), 'SELECT'))",
            Query::Receipts =>
                "select resource_id, migration_id, checksum from henosis_connector.migration_receipts order by resource_id, migration_id",
            Query::Exposed =>
                "select coalesce((select split_part(setting, '=', 2) from pg_roles cross join lateral unnest(coalesce(rolconfig, '{}'::text[])) setting where rolname = 'postgres' and setting like 'pgrst.db_schemas=%' limit 1), 'public')",
        }
    }

    /// The parameter of the question.
    pub fn parameter(&self) -> (r: Option<&String>)
        ensures
            r.deep_view() == self@.parameter(),
    {
        match self {
            Query::Schema(schema) => Some(schema),
            Query::Access(schema) => Some(schema),
            _ => None,
        }
    }
}

/// The schemas that a configured list names: its fields without surrounding white space, apart
/// from empty ones, as a set.
pub open spec fn listed_schemas(listing: Seq<char>) -> Seq<Seq<char>> {
    let pieces = fields(listing, Separator::Mark(','));
    set_of(crate::text::occupied(Seq::new(pieces.len(), |i: int| trim_text(pieces[i]))))
}

fn parse_listing(listing: &str) -> (r: TextSet)
    ensures
        r@ == listed_schemas(listing@),
{
    let pieces = crate::text::split(&crate::text::chars(listing), Separator::Mark(','));
    let ghost all = pieces.deep_view();
    let ghost trimmed = Seq::new(all.len(), |i: int| trim_text(all[i]));
    let mut names: Vec<Vec<char>> = Vec::new();
    let mut i: usize = 0;
    while i < pieces.len()
        invariant
            i <= pieces@.len(),
            all == pieces.deep_view(),
            trimmed == Seq::new(all.len(), |i: int| trim_text(all[i])),
            names@.len() == i,
            forall|j: int| 0 <= j < i ==> (#[trigger] names@[j])@ == trimmed[j],
        decreases pieces.len() - i,
    {
        assert(all[i as int] == pieces@[i as int]@);
        names.push(crate::text::trim(&pieces[i]));
        i += 1;
    }
    assert(names.deep_view() =~= trimmed);
    let kept = crate::text::keep_occupied(names);
    let mut texts: Vec<String> = Vec::new();
    let mut k: usize = 0;
    while k < kept.len()
        invariant
            k <= kept@.len(),
            texts@.len() == k,
            forall|j: int| 0 <= j < k ==> (#[trigger] texts@[j])@ == kept@[j]@,
        decreases kept.len() - k,
    {
        texts.push(crate::text::from_chars(&kept[k]));
        k += 1;
    }
    assert(texts.deep_view() =~= kept.deep_view());
    collect_set(&texts)
}

/// An observation of the target that is under way.
#[derive(Debug, PartialEq, Eq)]
pub struct Observation {
    /// The desired schemas, in the order of their components.
    pub schemas: Vec<String>,
    /// How far the observation has come.
    pub stage: Stage,
    /// What was observed so far.
    pub observed: ObservedTarget,
}

/// What an [`Observation`] holds.
#[verifier::ext_equal]
pub struct ObservationView {
    pub schemas: Seq<Seq<char>>,
    pub stage: Stage,
    pub observed: ObservedTargetView,
}

impl DeepView for Observation {
    type V = ObservationView;

    open spec fn deep_view(&self) -> ObservationView {
        ObservationView {
            schemas: self.schemas.deep_view(),
            stage: self.stage,
            observed: self.observed@,
        }
    }
}

impl View for Observation {
    type V = ObservationView;

    open spec fn view(&self) -> ObservationView {
        self.deep_view()
    }
}

/// Nothing observed yet.
pub open spec fn nothing_observed() -> ObservedTargetView {
    ObservedTargetView {
        identity: DatabaseIdentityView { database: ""@, database_oid: ""@, server_version: ""@ },
        metadata_exists: false,
        schemas: seq![],
        migrations: seq![],
        exposed_schemas: seq![],
        anon_read: seq![],
    }
}

/// The schemas of the components, in their order.
pub open spec fn schemas_of(pins: Seq<ComponentPinView>) -> Seq<Seq<char>> {
    Seq::new(pins.len(), |i: int| pins[i].context.target.schema)
}

impl ObservationView {
    /// The observation for the schemas, before the first question.
    pub open spec fn start(schemas: Seq<Seq<char>>) -> Self {
        ObservationView { schemas, stage: Stage::Identity, observed: nothing_observed() }
    }

    /// The stage at which the schema at the position is due.
    pub open spec fn stage_for(self, index: int) -> Stage {
        if index < self.schemas.len() {
            Stage::Schema(index as usize)
        } else if self.observed.metadata_exists {
            Stage::Receipts
        } else {
            Stage::Exposed
        }
    }

    /// The stage is one that the schemas admit.
    pub open spec fn well_formed(self) -> bool {
        &&& self.schemas.len() <= usize::MAX
        &&& match self.stage {
            Stage::Schema(index) => index < self.schemas.len(),
            Stage::Access(index) => index < self.schemas.len(),
            _ => true,
        }
    }

    /// The next question.
    pub open spec fn query(self) -> Option<QueryView> {
        match self.stage {
            Stage::Identity => Some(QueryView::Identity),
            Stage::Metadata => Some(QueryView::Metadata),
            Stage::Schema(index) => Some(QueryView::Schema(self.schemas[index as int])),
            Stage::Access(index) => Some(QueryView::Access(self.schemas[index as int])),
            Stage::Receipts => Some(QueryView::Receipts),
            Stage::Exposed => Some(QueryView::Exposed),
            Stage::Complete => None,
        }
    }

    /// The answer is of the kind that the question asks for.
    pub open spec fn awaits(self, answer: AnswerView) -> bool {
        match self.stage {
            Stage::Identity => answer is Identity,
            Stage::Metadata => answer is Flag,
            Stage::Schema(_) => answer is Flag,
            Stage::Access(_) => answer is Flag,
            Stage::Receipts => answer is Receipts,
            Stage::Exposed => answer is Listing,
            Stage::Complete => false,
        }
    }

    /// The observation after an answer.
    pub open spec fn after(self, answer: AnswerView) -> Self {
        match self.stage {
            Stage::Identity => ObservationView {
                stage: Stage::Metadata,
                observed: ObservedTargetView { identity: answer->Identity_0, ..self.observed },
                ..self
            },
            Stage::Metadata => {
                let next = ObservationView {
                    observed: ObservedTargetView {
                        metadata_exists: answer->Flag_0,
                        ..self.observed
                    },
                    ..self
                };
                ObservationView { stage: next.stage_for(0), ..next }
            },
            Stage::Schema(index) => {
                let schema = self.schemas[index as int];
                if answer->Flag_0 {
                    ObservationView {
                        stage: Stage::Access(index),
                        observed: ObservedTargetView {
                            schemas: placed(self.observed.schemas, schema),
                            ..self.observed
                        },
                        ..self
                    }
                } else {
                    ObservationView {
                        stage: self.stage_for(index + 1),
                        observed: ObservedTargetView {
                            anon_read: put(self.observed.anon_read, schema, false),
                            ..self.observed
                        },
                        ..self
                    }
                }
            },
            Stage::Access(index) => {
                let schema = self.schemas[index as int];
                ObservationView {
                    stage: self.stage_for(index + 1),
                    observed: ObservedTargetView {
                        anon_read: put(self.observed.anon_read, schema, answer->Flag_0),
                        ..self.observed
                    },
                    ..self
                }
            },
            Stage::Receipts => ObservationView {
                stage: Stage::Exposed,
                observed: ObservedTargetView { migrations: answer->Receipts_0, ..self.observed },
                ..self
            },
            Stage::Exposed => ObservationView {
                stage: Stage::Complete,
                observed: ObservedTargetView {
                    exposed_schemas: listed_schemas(answer->Listing_0),
                    ..self.observed
                },
                ..self
            },
            Stage::Complete => self,
        }
    }

    /// An upper bound on the questions that are left.
    pub open spec fn questions_left(self) -> int {
        let total = self.schemas.len() as int;
        match self.stage {
            Stage::Identity => 2 * total + 5,
            Stage::Metadata => 2 * total + 4,
            Stage::Schema(index) => 2 * (total - index) + 3,
            Stage::Access(index) => 2 * (total - index) + 2,
            Stage::Receipts => 2,
            Stage::Exposed => 1,
            Stage::Complete => 0,
        }
    }
}

impl Observation {
    /// Begins an observation of all target facts that can affect a plan for the desired level.
    pub fn begin(desired: &DesiredSlice) -> (r: Self)
        ensures
            r@ == ObservationView::start(schemas_of(desired@.components)),
            r@.well_formed(),
    {
        let pins = crate::slice::pins(&desired.components);
        let ghost all = desired@.components;
        let mut schemas: Vec<String> = Vec::new();
        let mut i: usize = 0;
        while i < pins.len()
            invariant
                i <= pins@.len(),
                all == pins.deep_view(),
                schemas@.len() == i,
                forall|j: int| 0 <= j < i ==> (#[trigger] schemas@[j])@ == schemas_of(all)[j],
            decreases pins.len() - i,
        {
            assert(all[i as int] == pins@[i as int]@);
            schemas.push(pins[i].context.target.schema.clone());
            i += 1;
        }
        assert(schemas.deep_view() =~= schemas_of(all));
        Observation {
            schemas,
            stage: Stage::Identity,
            observed: ObservedTarget {
                identity: DatabaseIdentity {
                    database: "".to_owned(),
                    database_oid: "".to_owned(),
                    server_version: "".to_owned(),
                },
                metadata_exists: false,
                schemas: TextSet::new(),
                migrations: Vec::new(),
                exposed_schemas: TextSet::new(),
                anon_read: TextMap::new(),
            },
        }
    }

    /// The next question, unless the observation is complete.
    pub fn query(&self) -> (r: Option<Query>)
        requires
            self@.well_formed(),
        ensures
            r.deep_view() == self@.query(),
    {
        match self.stage {
            Stage::Identity => Some(Query::Identity),
            Stage::Metadata => Some(Query::Metadata),
            Stage::Schema(index) => Some(Query::Schema(self.schemas[index].clone())),
            Stage::Access(index) => Some(Query::Access(self.schemas[index].clone())),
            Stage::Receipts => Some(Query::Receipts),
            Stage::Exposed => Some(Query::Exposed),
            Stage::Complete => None,
        }
    }

    fn due(&self, index: usize) -> (r: Stage)
        ensures
            r == self@.stage_for(index as int),
    {
        if index < self.schemas.len() {
            Stage::Schema(index)
        } else if self.observed.metadata_exists {
            Stage::Receipts
        } else {
            Stage::Exposed
        }
    }

    /// Takes the answer to the question.
    pub fn take(&mut self, answer: Answer)
        requires
            old(self)@.well_formed(),
            old(self)@.awaits(answer@),
        ensures
            final(self)@ == old(self)@.after(answer@),
            final(self)@.well_formed(),
            final(self)@.questions_left() < old(self)@.questions_left(),
    {
        match (self.stage, answer) {
            (Stage::Identity, Answer::Identity(identity)) => {
                self.observed.identity = identity;
                self.stage = Stage::Metadata;
            },
            (Stage::Metadata, Answer::Flag(exists)) => {
                self.observed.metadata_exists = exists;
                self.stage = self.due(0);
            },
            (Stage::Schema(index), Answer::Flag(exists)) => {
                let schema = self.schemas[index].clone();
                if exists {
                    self.observed.schemas.insert(schema);
                    self.stage = Stage::Access(index);
                } else {
                    self.observed.anon_read.insert(schema, false);
                    self.stage = self.due(index + 1);
                }
            },
            (Stage::Access(index), Answer::Flag(access)) => {
                let schema = self.schemas[index].clone();
                self.observed.anon_read.insert(schema, access);
                self.stage = self.due(index + 1);
            },
            (Stage::Receipts, Answer::Receipts(receipts)) => {
                self.observed.migrations = receipts;
                self.stage = Stage::Exposed;
            },
            (Stage::Exposed, Answer::Listing(listing)) => {
                self.observed.exposed_schemas = parse_listing(listing.as_str());
                self.stage = Stage::Complete;
            },
            _ => {},
        }
    }

    /// What was observed.
    pub fn finish(self) -> (r: ObservedTarget)
        ensures
            r@ == self@.observed,
    {
        self.observed
    }
}

/// A target that stays as it is while it is observed.
pub struct TargetTruth {
    /// Name, OID and version of the database.
    pub identity: DatabaseIdentityView,
    /// Whether the receipt ledger exists.
    pub metadata_exists: bool,
    /// The schemas that exist.
    pub present: spec_fn(Seq<char>) -> bool,
    /// The schemas that can be read anonymously.
    pub readable: spec_fn(Seq<char>) -> bool,
    /// The migration receipts.
    pub receipts: Seq<ObservedMigrationView>,
    /// The configured list of exposed schemas.
    pub listing: Seq<char>,
}

impl TargetTruth {
    /// The truthful answer.
    pub open spec fn answer(self, query: QueryView) -> AnswerView {
        match query {
            QueryView::Identity => AnswerView::Identity(self.identity),
            QueryView::Metadata => AnswerView::Flag(self.metadata_exists),
            QueryView::Schema(schema) => AnswerView::Flag((self.present)(schema)),
            QueryView::Access(schema) => AnswerView::Flag((self.readable)(schema)),
            QueryView::Receipts => AnswerView::Receipts(self.receipts),
            QueryView::Exposed => AnswerView::Listing(self.listing),
        }
    }

    /// Those of the first schemas that exist.
    pub open spec fn present_among(self, schemas: Seq<Seq<char>>, count: int) -> Seq<Seq<char>>
        decreases count,
    {
        if count <= 0 {
            seq![]
        } else if (self.present)(schemas[count - 1]) {
            placed(self.present_among(schemas, count - 1), schemas[count - 1])
        } else {
            self.present_among(schemas, count - 1)
        }
    }

    /// Which of the first schemas exist and can be read anonymously.
    pub open spec fn access_among(self, schemas: Seq<Seq<char>>, count: int) -> Seq<
        (Seq<char>, bool),
    >
        decreases count,
    {
        if count <= 0 {
            seq![]
        } else {
            let schema = schemas[count - 1];
            put(
                self.access_among(schemas, count - 1),
                schema,
                (self.present)(schema) && (self.readable)(schema),
            )
        }
    }

    /// The facts about the target that matter for the schemas.
    pub open spec fn observed(self, schemas: Seq<Seq<char>>) -> ObservedTargetView {
        ObservedTargetView {
            identity: self.identity,
            metadata_exists: self.metadata_exists,
            schemas: self.present_among(schemas, schemas.len() as int),
            migrations: if self.metadata_exists {
                self.receipts
            } else {
                seq![]
            },
            exposed_schemas: listed_schemas(self.listing),
            anon_read: self.access_among(schemas, schemas.len() as int),
        }
    }

    /// What was observed so far is true.
    pub open spec fn agrees(self, observation: ObservationView) -> bool {
        let schemas = observation.schemas;
        let all = self.observed(schemas);
        let blank = nothing_observed();
        observation.observed == match observation.stage {
            Stage::Identity => blank,
            Stage::Metadata => ObservedTargetView { identity: self.identity, ..blank },
            Stage::Schema(index) => ObservedTargetView {
                schemas: self.present_among(schemas, index as int),
                anon_read: self.access_among(schemas, index as int),
                migrations: seq![],
                exposed_schemas: seq![],
                ..all
            },
            Stage::Access(index) => ObservedTargetView {
                schemas: self.present_among(schemas, index + 1),
                anon_read: self.access_among(schemas, index as int),
                migrations: seq![],
                exposed_schemas: seq![],
                ..all
            },
            Stage::Receipts => ObservedTargetView {
                migrations: seq![],
                exposed_schemas: seq![],
                ..all
            },
            Stage::Exposed => ObservedTargetView { exposed_schemas: seq![], ..all },
            Stage::Complete => all,
        } && match observation.stage {
            Stage::Access(index) => (self.present)(schemas[index as int]),
            Stage::Receipts => self.metadata_exists,
            _ => true,
        }
    }
}

/// A truthful answer is of the kind that the question asks for, and keeps what was observed true.
pub proof fn truthful_answers_agree(observation: ObservationView, truth: TargetTruth)
    requires
        observation.well_formed(),
        truth.agrees(observation),
        observation.query() is Some,
    ensures
        ({
            let answer = truth.answer(observation.query()->0);
            let next = observation.after(answer);
            &&& observation.awaits(answer)
            &&& next.well_formed()
            &&& next.schemas == observation.schemas
            &&& next.questions_left() < observation.questions_left()
            &&& truth.agrees(next)
        }),
{
}

/// What an observation gives when every question is answered truthfully.
pub open spec fn read_target(observation: ObservationView, truth: TargetTruth) -> ObservedTargetView
    decreases observation.questions_left(),
        when observation.well_formed() && truth.agrees(observation)
        via reading_ends
{
    match observation.query() {
        None => observation.observed,
        Some(query) => read_target(observation.after(truth.answer(query)), truth),
    }
}

#[via_fn]
proof fn reading_ends(observation: ObservationView, truth: TargetTruth) {
    if observation.query() is Some {
        truthful_answers_agree(observation, truth);
    }
}

proof fn reading_gives_truth(observation: ObservationView, truth: TargetTruth)
    requires
        observation.well_formed(),
        truth.agrees(observation),
    ensures
        read_target(observation, truth) == truth.observed(observation.schemas),
    decreases observation.questions_left(),
{
    if observation.query() is Some {
        truthful_answers_agree(observation, truth);
        reading_gives_truth(observation.after(truth.answer(observation.query()->0)), truth);
    }
}

/// Observing a target that stays as it is gives the truth about it: the desired schemas that
/// exist, whether each can be read anonymously, the receipts if there is a ledger, and the
/// exposed schemas.
pub proof fn observation_gives_truth(schemas: Seq<Seq<char>>, truth: TargetTruth)
    requires
        schemas.len() <= usize::MAX,
    ensures
        read_target(ObservationView::start(schemas), truth) == truth.observed(schemas),
{
    reading_gives_truth(ObservationView::start(schemas), truth);
}

// ---------------------------------------------------------------------------
// Quoting
// ---------------------------------------------------------------------------

/// A text between two copies of the mark, with every copy inside doubled.
pub open spec fn quoted(text: Seq<char>, mark: char) -> Seq<char> {
    seq![mark] + doubled(text, mark) + seq![mark]
}

/// The text that a quoted text stands for.
pub open spec fn unquoted(text: Seq<char>, mark: char) -> Seq<char> {
    halved(text.subrange(1, text.len() - 1), mark)
}

/// Every pair of marks replaced by one.
pub open spec fn halved(text: Seq<char>, mark: char) -> Seq<char>
    decreases text.len(),
{
    if text.len() == 0 {
        seq![]
    } else if text.last() == mark && text.len() >= 2 {
        halved(text.drop_last().drop_last(), mark).push(mark)
    } else {
        halved(text.drop_last(), mark).push(text.last())
    }
}

fn quote(value: &str, mark: char) -> (r: String)
    ensures
        r@ == quoted(value@, mark),
{
    let mut out = String::new();
    out.push(mark);
    out.push_str(
        crate::text::from_chars(&crate::text::double(&crate::text::chars(value), mark)).as_str(),
    );
    out.push(mark);
    assert(out@ =~= quoted(value@, mark));
    out
}

/// Quotes a text as a SQL identifier.
pub fn quote_identifier(value: &str) -> (r: String)
    ensures
        r@ == quoted(value@, '"'),
{
    quote(value, '"')
}

/// Quotes a text as a SQL literal.
pub fn quote_literal(value: &str) -> (r: String)
    ensures
        r@ == quoted(value@, '\''),
{
    quote(value, '\'')
}

proof fn halving_undoes_doubling(text: Seq<char>, mark: char)
    ensures
        halved(doubled(text, mark), mark) == text,
    decreases text.len(),
{
    if text.len() > 0 {
        halving_undoes_doubling(text.drop_last(), mark);
        let before = doubled(text.drop_last(), mark);
        if text.last() == mark {
            assert(before.push(mark).push(mark).drop_last().drop_last() =~= before);
        } else {
            assert(before.push(text.last()).drop_last() =~= before);
        }
        assert(text =~= text.drop_last().push(text.last()));
    }
}

/// Quoting loses nothing: the text can be had back from the quoted text.
pub proof fn quoting_can_be_undone(text: Seq<char>, mark: char)
    ensures
        unquoted(quoted(text, mark), mark) == text,
{
    assert(quoted(text, mark).subrange(1, quoted(text, mark).len() - 1) =~= doubled(text, mark));
    halving_undoes_doubling(text, mark);
}

/// Different texts have different quotations.
pub proof fn quoting_tells_apart(a: Seq<char>, b: Seq<char>, mark: char)
    requires
        quoted(a, mark) == quoted(b, mark),
    ensures
        a == b,
{
    quoting_can_be_undone(a, mark);
    quoting_can_be_undone(b, mark);
}

// ---------------------------------------------------------------------------
// Execution
// ---------------------------------------------------------------------------

/// One step of an operation, inside the transaction.
#[derive(Debug, PartialEq, Eq)]
pub enum Statement {
    /// A batch of SQL without parameters.
    Batch(String),
    /// One SQL statement with its parameters.
    Execute {
        /// The SQL.
        sql: String,
        /// Its parameters.
        parameters: Vec<String>,
    },
}

/// What a [`Statement`] holds.
#[verifier::ext_equal]
pub enum StatementView {
    Batch(Seq<char>),
    Execute { sql: Seq<char>, parameters: Seq<Seq<char>> },
}

impl DeepView for Statement {
    type V = StatementView;

    open spec fn deep_view(&self) -> StatementView {
        match self {
            Statement::Batch(value) => StatementView::Batch(value@),
            Statement::Execute { sql, parameters } => StatementView::Execute {
                sql: sql@,
                parameters: parameters.deep_view(),
            },
        }
    }
}

impl View for Statement {
    type V = StatementView;

    open spec fn view(&self) -> StatementView {
        self.deep_view()
    }
}

/// The ledger that holds the migration receipts.
pub open spec fn ledger_sql() -> Seq<char> {
    "create schema if not exists henosis_connector;create table if not exists henosis_connector.migration_receipts (resource_id text not null, migration_id text not null, checksum text not null,schema_name text not null, plan_id text not null, operation_id text not null,applied_at timestamptz not null default now(),primary key (resource_id, migration_id));revoke all on schema henosis_connector from public, anon, authenticated;"@
}

/// A schema of its own, closed to the public.
pub open spec fn schema_sql(schema: Seq<char>) -> Seq<char> {
    let name = quoted(schema, '"');
    "create schema if not exists "@ + name + "; revoke all on schema "@ + name + " from public;"@
}

/// The search path of a migration.
pub open spec fn search_path_sql(schema: Seq<char>) -> Seq<char> {
    "set local search_path = "@ + quoted(schema, '"') + ", public, extensions;"@
}

/// The statement that writes a migration receipt.
pub open spec fn receipt_sql() -> Seq<char> {
    "insert into henosis_connector.migration_receipts (resource_id, migration_id, checksum, schema_name, plan_id, operation_id) values ($1, $2, $3, $4, $5, $6)"@
}

/// The list of schemas that PostgREST exposes.
pub open spec fn exposure_sql(schemas: Seq<Seq<char>>) -> Seq<char> {
    "alter role postgres set pgrst.db_schemas = "@ + quoted(joined(schemas, seq![',']), '\'')
        + ";"@
}

/// The grants of one schema.
pub open spec fn grant_sql(policy: ApiPolicyView) -> Seq<char> {
    let schema = quoted(policy.schema, '"');
    if wants_read(policy) {
        "grant usage on schema "@ + schema + " to anon;grant select on all tables in schema "@
            + schema + " to anon;alter default privileges in schema "@ + schema
            + " grant select on tables to anon;"@
    } else {
        "revoke select on all tables in schema "@ + schema
            + " from anon;revoke usage on schema "@ + schema
            + " from anon;alter default privileges in schema "@ + schema
            + " revoke select on tables from anon;"@
    }
}

/// The signal that makes PostgREST read its configuration again.
pub open spec fn reload_sql() -> Seq<char> {
    "notify pgrst, 'reload config'; notify pgrst, 'reload schema';"@
}

/// The search path, the inputs, the SQL and the receipt of a migration, in this order.
pub open spec fn migration_statements(
    plan_id: Seq<char>,
    operation_id: Seq<char>,
    resource_id: Seq<char>,
    schema: Seq<char>,
    migration: MigrationView,
    settings: Seq<StatementView>,
) -> Seq<StatementView> {
    seq![StatementView::Batch(search_path_sql(schema))] + settings + seq![
        StatementView::Batch(migration.sql),
        StatementView::Execute {
            sql: receipt_sql(),
            parameters: seq![
                resource_id,
                migration.id,
                migration.checksum,
                schema,
                plan_id,
                operation_id,
            ],
        },
    ]
}

/// The statements that carry a planned operation out, in order.
pub open spec fn statements_of(
    outputs: Seq<UpstreamOutputView>,
    plan_id: Seq<char>,
    planned: PlannedOperationView,
) -> Seq<StatementView> {
    match planned.operation {
        OperationView::EstablishBinding { .. } => seq![],
        OperationView::EnsureMetadata => seq![StatementView::Batch(ledger_sql())],
        OperationView::EnsureSchema { schema, .. } => seq![
            StatementView::Batch(schema_sql(schema)),
        ],
        OperationView::ApplyMigration { resource_id, schema, migration } => migration_statements(
            plan_id,
            planned.id,
            resource_id,
            schema,
            migration,
            settings_of(outputs, migration),
        ),
        OperationView::ConfigureApi { exposed_schemas, policies } => seq![
            StatementView::Batch(exposure_sql(exposed_schemas)),
        ] + Seq::new(policies.len(), |i: int| StatementView::Batch(grant_sql(policies[i]))) + seq![
            StatementView::Batch(reload_sql()),
        ],
    }
}

fn ledger() -> (r: String)
    ensures
        r@ == ledger_sql(),
{
    "create schema if not exists henosis_connector;create table if not exists henosis_connector.migration_receipts (resource_id text not null, migration_id text not null, checksum text not null,schema_name text not null, plan_id text not null, operation_id text not null,applied_at timestamptz not null default now(),primary key (resource_id, migration_id));revoke all on schema henosis_connector from public, anon, authenticated;".to_owned()
}

fn create_schema(schema: &str) -> (r: String)
    ensures
        r@ == schema_sql(schema@),
{
    let name = quote_identifier(schema);
    "create schema if not exists ".to_owned().plus(name.as_str()).plus(
        "; revoke all on schema ",
    ).plus(name.as_str()).plus(" from public;")
}

fn exposure(schemas: &Vec<String>) -> (r: String)
    ensures
        r@ == exposure_sql(schemas.deep_view()),
{
    let mut pieces: Vec<Vec<char>> = Vec::new();
    let mut i: usize = 0;
    while i < schemas.len()
        invariant
            i <= schemas@.len(),
            pieces@.len() == i,
            forall|j: int| 0 <= j < i ==> (#[trigger] pieces@[j])@ == schemas@[j]@,
        decreases schemas.len() - i,
    {
        pieces.push(crate::text::chars(schemas[i].as_str()));
        i += 1;
    }
    assert(pieces.deep_view() =~= schemas.deep_view());
    let list = crate::text::from_chars(&crate::text::join(&pieces, ','));
    "alter role postgres set pgrst.db_schemas = ".to_owned().plus(
        quote_literal(list.as_str()).as_str(),
    ).plus(";")
}

fn grant(policy: &ApiPolicy) -> (r: String)
    ensures
        r@ == grant_sql(policy@),
{
    let schema = quote_identifier(policy.schema.as_str());
    if policy.expose && policy.anon_access == AnonAccess::Read {
        "grant usage on schema ".to_owned().plus(schema.as_str()).plus(
            " to anon;grant select on all tables in schema ",
        ).plus(schema.as_str()).plus(" to anon;alter default privileges in schema ").plus(
            schema.as_str(),
        ).plus(" grant select on tables to anon;")
    } else {
        "revoke select on all tables in schema ".to_owned().plus(schema.as_str()).plus(
            " from anon;revoke usage on schema ",
        ).plus(schema.as_str()).plus(" from anon;alter default privileges in schema ").plus(
            schema.as_str(),
        ).plus(" revoke select on tables from anon;")
    }
}

/// The statements that carry a planned operation of a level out, in order. A migration finds each of
/// its inputs that has a value in a setting of the transaction.
pub fn execute(
    desired: &DesiredSlice,
    authoritative_plan_id: &str,
    planned: &PlannedOperation,
) -> (r: Vec<Statement>)
    ensures
        r.deep_view() == statements_of(
            desired@.upstream_outputs,
            authoritative_plan_id@,
            planned@,
        ),
{
    let mut statements: Vec<Statement> = Vec::new();
    match &planned.operation {
        Operation::EstablishBinding { .. } => {},
        Operation::EnsureMetadata => {
            statements.push(Statement::Batch(ledger()));
        },
        Operation::EnsureSchema { resource_id: _, schema } => {
            statements.push(Statement::Batch(create_schema(schema.as_str())));
        },
        Operation::ApplyMigration { resource_id, schema, migration } => {
            let name = quote_identifier(schema.as_str());
            statements.push(
                Statement::Batch(
                    "set local search_path = ".to_owned().plus(name.as_str()).plus(
                        ", public, extensions;",
                    ),
                ),
            );
            let mut settings = crate::inputs::settings(
                &crate::slice::outputs(&desired.upstream_outputs),
                migration,
            );
            let ghost set = settings.deep_view();
            statements.append(&mut settings);
            assert(statements.deep_view() =~= seq![
                StatementView::Batch(search_path_sql(schema@)),
            ] + set);
            statements.push(Statement::Batch(migration.sql.clone()));
            let parameters = vec![
                resource_id.clone(),
                migration.id.clone(),
                migration.checksum.clone(),
                schema.clone(),
                authoritative_plan_id.to_owned(),
                planned.id.clone(),
            ];
            assert(parameters.deep_view() =~= seq![
                resource_id@,
                migration@.id,
                migration@.checksum,
                schema@,
                authoritative_plan_id@,
                planned@.id,
            ]);
            statements.push(
                Statement::Execute {
                    sql:
                        "insert into henosis_connector.migration_receipts (resource_id, migration_id, checksum, schema_name, plan_id, operation_id) values ($1, $2, $3, $4, $5, $6)".to_owned(),
                    parameters,
                },
            );
            assert(statements.deep_view() =~= migration_statements(
                authoritative_plan_id@,
                planned@.id,
                resource_id@,
                schema@,
                migration@,
                set,
            ));
        },
        Operation::ConfigureApi { exposed_schemas, policies } => {
            let ghost all = policies.deep_view();
            let ghost grants = Seq::new(
                all.len(),
                |i: int| StatementView::Batch(grant_sql(all[i])),
            );
            statements.push(Statement::Batch(exposure(exposed_schemas)));
            let ghost first = seq![StatementView::Batch(exposure_sql(exposed_schemas.deep_view()))];
            let mut i: usize = 0;
            assert(statements.deep_view() =~= first + grants.take(0));
            while i < policies.len()
                invariant
                    i <= policies@.len(),
                    all == policies.deep_view(),
                    grants == Seq::new(all.len(), |i: int| StatementView::Batch(grant_sql(all[i]))),
                    statements.deep_view() == first + grants.take(i as int),
                decreases policies.len() - i,
            {
                assert(all[i as int] == policies@[i as int]@);
                statements.push(Statement::Batch(grant(&policies[i])));
                assert(grants.take(i + 1) =~= grants.take(i as int).push(grants[i as int]));
                assert(statements.deep_view() =~= first + grants.take(i + 1));
                i += 1;
            }
            assert(grants.take(grants.len() as int) =~= grants);
            statements.push(
                Statement::Batch(
                    "notify pgrst, 'reload config'; notify pgrst, 'reload schema';".to_owned(),
                ),
            );
            assert(statements.deep_view() =~= first + grants + seq![
                StatementView::Batch(reload_sql()),
            ]);
        },
    }
    assert(statements.deep_view() =~= statements_of(
        desired@.upstream_outputs,
        authoritative_plan_id@,
        planned@,
    ));
    statements
}

/// What an apply transaction does once the target is locked and observed.
#[derive(Debug, PartialEq, Eq)]
pub enum ApplyDecision {
    /// Nothing is executed: the plan is out of date.
    Rollback(ApplyResult),
    /// The statements are executed in order and committed.
    Commit(Vec<Statement>),
}

/// What an [`ApplyDecision`] holds.
#[verifier::ext_equal]
pub enum ApplyDecisionView {
    Rollback(ApplyResultView),
    Commit(Seq<StatementView>),
}

impl DeepView for ApplyDecision {
    type V = ApplyDecisionView;

    open spec fn deep_view(&self) -> ApplyDecisionView {
        match self {
            ApplyDecision::Rollback(value) => ApplyDecisionView::Rollback(value@),
            ApplyDecision::Commit(value) => ApplyDecisionView::Commit(value.deep_view()),
        }
    }
}

impl View for ApplyDecision {
    type V = ApplyDecisionView;

    open spec fn view(&self) -> ApplyDecisionView {
        self.deep_view()
    }
}

/// What an apply transaction does, given the digest of the observation under the lock.
pub open spec fn decision_with(
    observed_digest: Seq<char>,
    outputs: Seq<UpstreamOutputView>,
    plan: ExecutablePlanView,
    authoritative_plan_id: Seq<char>,
    operation: PlannedOperationView,
) -> ApplyDecisionView {
    if observed_digest != plan.observed_digest {
        ApplyDecisionView::Rollback(ApplyResultView::Stale { observed_digest })
    } else {
        ApplyDecisionView::Commit(statements_of(outputs, authoritative_plan_id, operation))
    }
}

/// What an apply transaction does, given the observation under the lock.
pub open spec fn decision_of(
    observed: ObservedTargetView,
    outputs: Seq<UpstreamOutputView>,
    plan: ExecutablePlanView,
    authoritative_plan_id: Seq<char>,
    operation: PlannedOperationView,
) -> ApplyDecisionView {
    decision_with(observed.digest_text(), outputs, plan, authoritative_plan_id, operation)
}

/// Decides an apply transaction from the digest of the observation under the lock.
pub fn decide_with_digest(
    observed_digest: String,
    desired: &DesiredSlice,
    plan: &ExecutablePlan,
    authoritative_plan_id: &str,
    operation: &PlannedOperation,
) -> (r: ApplyDecision)
    ensures
        r@ == decision_with(
            observed_digest@,
            desired@.upstream_outputs,
            plan@,
            authoritative_plan_id@,
            operation@,
        ),
{
    if observed_digest != plan.observed_digest {
        ApplyDecision::Rollback(ApplyResult::Stale { observed_digest })
    } else {
        ApplyDecision::Commit(execute(desired, authoritative_plan_id, operation))
    }
}

/// Decides an apply transaction from the observation under the lock.
pub fn decide_apply(
    observed: &ObservedTarget,
    desired: &DesiredSlice,
    plan: &ExecutablePlan,
    authoritative_plan_id: &str,
    operation: &PlannedOperation,
) -> (r: ApplyDecision)
    ensures
        r@ == decision_of(
            observed@,
            desired@.upstream_outputs,
            plan@,
            authoritative_plan_id@,
            operation@,
        ),
{
    decide_with_digest(observed.digest_label(), desired, plan, authoritative_plan_id, operation)
}

/// Decides the apply transaction of a plan from the observation under the lock: the plan's first
/// operation is carried out, under the plan's own identity.
pub fn decide_next(
    observed: &ObservedTarget,
    desired: &DesiredSlice,
    plan: &ExecutablePlan,
) -> (r: ApplyDecision)
    requires
        plan@.operations.len() > 0,
    ensures
        r@ == decision_of(
            observed@,
            desired@.upstream_outputs,
            plan@,
            plan@.plan_id,
            plan@.operations[0],
        ),
{
    decide_apply(observed, desired, plan, plan.plan_id.as_str(), &plan.operations[0])
}

/// The result of a committed operation, from the observation after it.
pub fn applied(after: &ObservedTarget) -> (r: ApplyResult)
    ensures
        r@ == (ApplyResultView::Applied { observed_digest: after@.digest_text() }),
{
    ApplyResult::Applied { observed_digest: after.digest_label() }
}

/// A plan whose observation no longer holds executes nothing.
pub proof fn stale_plans_execute_nothing(
    observed: ObservedTargetView,
    outputs: Seq<UpstreamOutputView>,
    plan: ExecutablePlanView,
    authoritative_plan_id: Seq<char>,
    operation: PlannedOperationView,
)
    requires
        observed.digest_text() != plan.observed_digest,
    ensures
        decision_of(observed, outputs, plan, authoritative_plan_id, operation) is Rollback,
{
}

/// A migration of a fresh plan runs in one transaction: after the search path its inputs are set,
/// then its exact SQL runs, and its receipt is written last. When the SQL runs, every input is found
/// under its name with exactly its value, and one without a value is unset.
pub proof fn migrations_find_their_inputs(
    observed: ObservedTargetView,
    outputs: Seq<UpstreamOutputView>,
    plan: ExecutablePlanView,
    plan_id: Seq<char>,
    planned: PlannedOperationView,
)
    requires
        observed.digest_text() == plan.observed_digest,
        planned.operation is ApplyMigration,
        distinct_inputs(planned.operation->ApplyMigration_migration),
    ensures
        match planned.operation {
            OperationView::ApplyMigration { resource_id, schema, migration } => {
                let statements = statements_of(outputs, plan_id, planned);
                let count = statements.len() as int;
                &&& decision_of(observed, outputs, plan, plan_id, planned)
                    == ApplyDecisionView::Commit(statements)
                &&& count >= 3
                &&& statements[0] == StatementView::Batch(search_path_sql(schema))
                &&& forall|i: int|
                    0 <= i < migration.inputs.len() ==> held_setting(
                        statements.take(count - 2),
                        setting_name(#[trigger] migration.inputs[i]),
                    ) == supplied_text(outputs, migration.inputs[i])
                &&& statements[count - 2] == StatementView::Batch(migration.sql)
                &&& statements[count - 1] == (StatementView::Execute {
                    sql: receipt_sql(),
                    parameters: seq![
                        resource_id,
                        migration.id,
                        migration.checksum,
                        schema,
                        plan_id,
                        planned.id,
                    ],
                })
            },
            _ => false,
        },
{
    match planned.operation {
        OperationView::ApplyMigration { schema, migration, .. } => {
            let statements = statements_of(outputs, plan_id, planned);
            let count = statements.len() as int;
            let settings = settings_of(outputs, migration);
            assert(statements.take(count - 2) =~= seq![
                StatementView::Batch(search_path_sql(schema)),
            ] + settings);
            assert forall|i: int| 0 <= i < migration.inputs.len() implies held_setting(
                statements.take(count - 2),
                setting_name(#[trigger] migration.inputs[i]),
            ) == supplied_text(outputs, migration.inputs[i]) by {
                settings_hold_values(outputs, migration, migration.inputs.len() as int, i);
                batches_set_nothing(
                    search_path_sql(schema),
                    settings,
                    setting_name(migration.inputs[i]),
                );
            }
            assert(statements[count - 2] == StatementView::Batch(migration.sql));
            assert(statements[count - 1] is Execute);
        },
        _ => {},
    }
}

// ---------------------------------------------------------------------------
// Failures
// ---------------------------------------------------------------------------

/// Where the provider saw the error.
#[derive(Debug, PartialEq, Eq)]
pub enum ErrorPosition {
    /// In the original query.
    Original(u32),
    /// In a query that the provider made up.
    Internal {
        /// Position in that query.
        position: u32,
        /// That query.
        query: String,
    },
}

/// What an [`ErrorPosition`] holds.
#[verifier::ext_equal]
pub enum ErrorPositionView {
    Original(u32),
    Internal { position: u32, query: Seq<char> },
}

impl DeepView for ErrorPosition {
    type V = ErrorPositionView;

    open spec fn deep_view(&self) -> ErrorPositionView {
        match self {
            ErrorPosition::Original(value) => ErrorPositionView::Original(*value),
            ErrorPosition::Internal { position, query } => ErrorPositionView::Internal {
                position: *position,
                query: query@,
            },
        }
    }
}

impl View for ErrorPosition {
    type V = ErrorPositionView;

    open spec fn view(&self) -> ErrorPositionView {
        self.deep_view()
    }
}

/// The fields of an error that the provider reports.
#[derive(Debug, PartialEq, Eq)]
pub struct ProviderFailure {
    /// Severity of the error.
    pub severity: String,
    /// SQLSTATE code.
    pub code: String,
    /// Primary message.
    pub message: String,
    /// Secondary message.
    pub detail: Option<String>,
    /// Suggestion what to do.
    pub hint: Option<String>,
    /// Where the error was seen.
    pub position: Option<ErrorPosition>,
    /// The context of the error.
    pub context: Option<String>,
}

/// What a [`ProviderFailure`] holds.
#[verifier::ext_equal]
pub struct ProviderFailureView {
    pub severity: Seq<char>,
    pub code: Seq<char>,
    pub message: Seq<char>,
    pub detail: Option<Seq<char>>,
    pub hint: Option<Seq<char>>,
    pub position: Option<ErrorPositionView>,
    pub context: Option<Seq<char>>,
}

impl DeepView for ProviderFailure {
    type V = ProviderFailureView;

    open spec fn deep_view(&self) -> ProviderFailureView {
        ProviderFailureView {
            severity: self.severity@,
            code: self.code@,
            message: self.message@,
            detail: match self.detail {
                Some(value) => Some(value@),
                None => None,
            },
            hint: match self.hint {
                Some(value) => Some(value@),
                None => None,
            },
            position: match self.position {
                Some(value) => Some(value@),
                None => None,
            },
            context: match self.context {
                Some(value) => Some(value@),
                None => None,
            },
        }
    }
}

impl View for ProviderFailure {
    type V = ProviderFailureView;

    open spec fn view(&self) -> ProviderFailureView {
        self.deep_view()
    }
}

impl ErrorPositionView {
    /// The position in words.
    pub open spec fn text(self) -> Seq<char> {
        match self {
            ErrorPositionView::Original(position) => "Original("@ + decimal_text(position as nat)
                + ")"@,
            ErrorPositionView::Internal { position, query } => "Internal { position: "@
                + decimal_text(position as nat) + ", query: "@ + debug_text(query) + " }"@,
        }
    }
}

impl ErrorPosition {
    fn text(&self) -> (r: String)
        ensures
            r@ == self@.text(),
    {
        match self {
            ErrorPosition::Original(position) => "Original(".to_owned().plus(
                decimal(*position as u64).as_str(),
            ).plus(")"),
            ErrorPosition::Internal { position, query } => "Internal { position: ".to_owned().plus(
                decimal(*position as u64).as_str(),
            ).plus(", query: ").plus(debug(query.as_str()).as_str()).plus(" }"),
        }
    }
}

/// A line of evidence, if the field is there.
pub open spec fn evidence_line(label: Seq<char>, value: Option<Seq<char>>) -> Seq<char> {
    match value {
        Some(text) => "\n"@ + label + text,
        None => ""@,
    }
}

impl ProviderFailureView {
    /// The provider's fields, one on each line, in a fixed order.
    pub open spec fn evidence(self) -> Seq<char> {
        "severity: "@ + self.severity + "\ncode: "@ + self.code + "\nmessage: "@ + self.message
            + evidence_line("detail: "@, self.detail) + evidence_line("hint: "@, self.hint)
            + evidence_line(
            "position: "@,
            match self.position {
                Some(position) => Some(position.text()),
                None => None,
            },
        ) + evidence_line("where: "@, self.context)
    }

    /// The failure as canonical evidence.
    pub open spec fn diagnostic(self) -> ProviderDiagnosticView {
        ProviderDiagnosticView {
            code: "supabase.postgres."@ + self.code,
            detail: self.evidence(),
            help: self.hint,
        }
    }
}

fn add_line(evidence: String, label: &str, value: Option<&str>) -> (r: String)
    ensures
        r@ == evidence@ + evidence_line(label@, value.deep_view()),
{
    match value {
        Some(text) => {
            let r = evidence.plus("\n").plus(label).plus(text);
            assert(r@ =~= evidence@ + evidence_line(label@, value.deep_view()));
            r
        },
        None => {
            proof {
                reveal_strlit("");
            }
            assert(evidence@ =~= evidence@ + ""@);
            evidence
        },
    }
}

/// A target that cannot be reached or observed.
pub fn unavailable(error: &str) -> (r: TargetError)
    ensures
        r@ == TargetErrorView::Unavailable(error@),
{
    TargetError::Unavailable(error.to_owned())
}

fn text_of(value: &Option<String>) -> (r: Option<&str>)
    ensures
        r.deep_view() == value.deep_view(),
{
    match value {
        Some(text) => Some(text.as_str()),
        None => None,
    }
}

/// Canonical evidence of an error that the provider reports; any other error, given by its text,
/// counts as an unavailable target.
pub fn provider_or_unavailable(error: Result<ProviderFailure, String>) -> (r: TargetError)
    ensures
        r@ == match error {
            Ok(failure) => TargetErrorView::Provider(failure@.diagnostic()),
            Err(text) => TargetErrorView::Unavailable(text@),
        },
{
    match error {
        Err(text) => unavailable(text.as_str()),
        Ok(failure) => {
            let start = "severity: ".to_owned().plus(failure.severity.as_str()).plus(
                "\ncode: ",
            ).plus(failure.code.as_str()).plus("\nmessage: ").plus(failure.message.as_str());
            let with_detail = add_line(start, "detail: ", text_of(&failure.detail));
            let with_hint = add_line(with_detail, "hint: ", text_of(&failure.hint));
            let position = match &failure.position {
                Some(position) => Some(position.text()),
                None => None,
            };
            let with_position = add_line(with_hint, "position: ", text_of(&position));
            let detail = add_line(with_position, "where: ", text_of(&failure.context));
            let code = "supabase.postgres.".to_owned().plus(failure.code.as_str());
            TargetError::Provider(ProviderDiagnostic { code, detail, help: failure.hint })
        },
    }
}

}
