//! Strict connector-owned authoring context.

use vstd::prelude::*;
use vstd::utf8::encode_utf8;

use crate::hashing::label_sha256;
use crate::hashing::sha256_text;
use crate::json::byte_array;
use crate::json::json_of;
use crate::json::object_of;
use crate::json::JsonView;
use crate::json::Members;
use crate::model::optional;
use crate::order::precedes;
use crate::text::debug;
use crate::text::debug_text;
use crate::text::decimal;
use crate::text::decimal_text;
use crate::text::digit;
use crate::text::fields;
use crate::text::lower;
use crate::text::occupied;
use crate::text::starts_with;
use crate::text::trim_text;
use crate::text::upper_text;
use crate::text::Plus as _;
use crate::text::Separator;

verus! {

broadcast use crate::model::group_model;

/// Current component-context discriminator.
pub const API_VERSION: &'static str = "henosis.dev/supabase-component-context/v1";

/// Strict JSON object carried by a component specification.
#[derive(Debug, PartialEq, Eq)]
pub struct ComponentContext {
    /// Versioned schema discriminator.
    pub api_version: String,
    /// Stable author-owned logical identity.
    pub resource_id: String,
    /// Configured native target selection.
    pub target: TargetContext,
    /// Ordered transitions, oldest first.
    pub migrations: Vec<Migration>,
    /// Desired `PostgREST` exposure and grants.
    pub api: ApiContext,
}

/// What a [`ComponentContext`] holds.
#[verifier::ext_equal]
pub struct ComponentContextView {
    pub api_version: Seq<char>,
    pub resource_id: Seq<char>,
    pub target: TargetContextView,
    pub migrations: Seq<MigrationView>,
    pub api: ApiContextView,
}

impl DeepView for ComponentContext {
    type V = ComponentContextView;

    open spec fn deep_view(&self) -> ComponentContextView {
        ComponentContextView {
            api_version: self.api_version@,
            resource_id: self.resource_id@,
            target: self.target@,
            migrations: self.migrations.deep_view(),
            api: self.api@,
        }
    }
}

impl View for ComponentContext {
    type V = ComponentContextView;

    open spec fn view(&self) -> ComponentContextView {
        self.deep_view()
    }
}

impl Clone for ComponentContext {
    fn clone(&self) -> (r: Self)
        ensures
            r@ == self@,
    {
        let r = ComponentContext {
            api_version: self.api_version.clone(),
            resource_id: self.resource_id.clone(),
            target: self.target.clone(),
            migrations: self.migrations.clone(),
            api: self.api.clone(),
        };
        assert(r.migrations.deep_view() =~= self.migrations.deep_view());
        r
    }
}

/// Local self-hosted target coordinates.
#[derive(Debug, PartialEq, Eq)]
pub struct TargetContext {
    /// Configured stack key.
    pub stack: String,
    /// Self-hosted single-project identity.
    pub project: String,
    /// `PostgreSQL` database name.
    pub database: String,
    /// Connector-owned `PostgreSQL` schema.
    pub schema: String,
}

/// What a [`TargetContext`] holds.
#[verifier::ext_equal]
pub struct TargetContextView {
    pub stack: Seq<char>,
    pub project: Seq<char>,
    pub database: Seq<char>,
    pub schema: Seq<char>,
}

impl DeepView for TargetContext {
    type V = TargetContextView;

    open spec fn deep_view(&self) -> TargetContextView {
        TargetContextView {
            stack: self.stack@,
            project: self.project@,
            database: self.database@,
            schema: self.schema@,
        }
    }
}

impl View for TargetContext {
    type V = TargetContextView;

    open spec fn view(&self) -> TargetContextView {
        self.deep_view()
    }
}

impl Clone for TargetContext {
    fn clone(&self) -> (r: Self)
        ensures
            r@ == self@,
    {
        TargetContext {
            stack: self.stack.clone(),
            project: self.project.clone(),
            database: self.database.clone(),
            schema: self.schema.clone(),
        }
    }
}

/// One immutable ordered SQL transition.
#[derive(Debug, PartialEq, Eq)]
pub struct Migration {
    /// Strictly increasing durable transition identity.
    pub id: String,
    /// `sha256:` digest over the exact SQL bytes.
    pub checksum: String,
    /// Non-secret additive SQL.
    pub sql: String,
    /// Typed upstream values exposed to this migration through transaction-local settings.
    pub inputs: Vec<InputSlot>,
}

/// What a [`Migration`] holds.
#[verifier::ext_equal]
pub struct MigrationView {
    pub id: Seq<char>,
    pub checksum: Seq<char>,
    pub sql: Seq<char>,
    pub inputs: Seq<InputSlotView>,
}

impl DeepView for Migration {
    type V = MigrationView;

    open spec fn deep_view(&self) -> MigrationView {
        MigrationView {
            id: self.id@,
            checksum: self.checksum@,
            sql: self.sql@,
            inputs: self.inputs.deep_view(),
        }
    }
}

impl View for Migration {
    type V = MigrationView;

    open spec fn view(&self) -> MigrationView {
        self.deep_view()
    }
}

impl Clone for Migration {
    fn clone(&self) -> (r: Self)
        ensures
            r@ == self@,
    {
        let r = Migration {
            id: self.id.clone(),
            checksum: self.checksum.clone(),
            sql: self.sql.clone(),
            inputs: self.inputs.clone(),
        };
        assert(r.inputs.deep_view() =~= self.inputs.deep_view());
        r
    }
}

/// One native migration input declaration.
#[derive(Debug, PartialEq, Eq)]
pub struct InputSlot {
    /// `PostgreSQL` setting suffix available as `henosis.input.<name>`.
    pub name: String,
    /// Immutable producer component-spec hash.
    pub producer_component_spec_hash: [u8; 32],
    /// Top-level producer output property.
    pub output: String,
    /// Optional value used when the producer output is absent.
    pub default: Option<serde_json::Value>,
}

/// What an [`InputSlot`] holds.
#[verifier::ext_equal]
pub struct InputSlotView {
    pub name: Seq<char>,
    pub producer_component_spec_hash: Seq<u8>,
    pub output: Seq<char>,
    pub default: Option<JsonView>,
}

impl DeepView for InputSlot {
    type V = InputSlotView;

    open spec fn deep_view(&self) -> InputSlotView {
        InputSlotView {
            name: self.name@,
            producer_component_spec_hash: self.producer_component_spec_hash@,
            output: self.output@,
            default: match self.default {
                Some(value) => Some(json_of(value)),
                None => None,
            },
        }
    }
}

impl View for InputSlot {
    type V = InputSlotView;

    open spec fn view(&self) -> InputSlotView {
        self.deep_view()
    }
}

impl Clone for InputSlot {
    fn clone(&self) -> (r: Self)
        ensures
            r@ == self@,
    {
        InputSlot {
            name: self.name.clone(),
            producer_component_spec_hash: self.producer_component_spec_hash,
            output: self.output.clone(),
            default: match &self.default {
                Some(value) => Some(value.clone()),
                None => None,
            },
        }
    }
}

/// Reconciled `PostgREST` configuration.
#[derive(Debug, PartialEq, Eq)]
pub struct ApiContext {
    /// Whether `PostgREST` exposes this schema.
    pub expose: bool,
    /// Anonymous access policy.
    pub anon_access: AnonAccess,
}

/// What an [`ApiContext`] holds.
#[verifier::ext_equal]
pub struct ApiContextView {
    pub expose: bool,
    pub anon_access: AnonAccess,
}

impl DeepView for ApiContext {
    type V = ApiContextView;

    open spec fn deep_view(&self) -> ApiContextView {
        ApiContextView {
            expose: self.expose,
            anon_access: self.anon_access,
        }
    }
}

impl View for ApiContext {
    type V = ApiContextView;

    open spec fn view(&self) -> ApiContextView {
        self.deep_view()
    }
}

impl Clone for ApiContext {
    fn clone(&self) -> (r: Self)
        ensures
            r@ == self@,
    {
        ApiContext {
            expose: self.expose,
            anon_access: self.anon_access,
        }
    }
}

/// V1 anonymous API access policy.
#[derive(Clone, Copy, Debug, PartialEq, Eq, Structural)]
pub enum AnonAccess {
    /// No anonymous grants.
    NoAccess,
    /// Schema usage and SELECT on all current tables.
    Read,
}

/// Context decoding or boundary validation failure.
#[derive(Debug, PartialEq, Eq)]
pub enum ContextError {
    /// Bytes are not strict v1 JSON.
    Json(String),
    /// A boundary field is outside the v1 vocabulary.
    Invalid(String),
}

/// What a [`ContextError`] holds.
#[verifier::ext_equal]
pub enum ContextErrorView {
    Json(Seq<char>),
    Invalid(Seq<char>),
}

impl DeepView for ContextError {
    type V = ContextErrorView;

    open spec fn deep_view(&self) -> ContextErrorView {
        match self {
            ContextError::Json(value) => ContextErrorView::Json(value@),
            ContextError::Invalid(value) => ContextErrorView::Invalid(value@),
        }
    }
}

impl View for ContextError {
    type V = ContextErrorView;

    open spec fn view(&self) -> ContextErrorView {
        self.deep_view()
    }
}

impl ContextErrorView {
    /// The failure in words.
    pub open spec fn message(self) -> Seq<char> {
        match self {
            ContextErrorView::Json(detail) => "invalid "@ + API_VERSION@ + " JSON: "@ + detail,
            ContextErrorView::Invalid(detail) => "invalid "@ + API_VERSION@ + ": "@ + detail,
        }
    }
}

impl ContextError {
    /// The failure in words.
    pub fn message(&self) -> (r: String)
        ensures
            r@ == self@.message(),
    {
        match self {
            ContextError::Json(detail) => "invalid ".to_owned().plus(API_VERSION).plus(
                " JSON: ",
            ).plus(detail.as_str()),
            ContextError::Invalid(detail) => "invalid ".to_owned().plus(API_VERSION).plus(
                ": ",
            ).plus(detail.as_str()),
        }
    }
}

/// A diagnostic discovered in the mutation-free planning phase.
#[derive(Debug, PartialEq, Eq)]
pub struct PlanIssue {
    /// Stable diagnostic code.
    pub code: &'static str,
    /// Canonical safe detail.
    pub message: String,
    /// RFC 6901 path rooted at connector context.
    pub pointer: String,
    /// Actionable author guidance.
    pub help: String,
}

/// What a [`PlanIssue`] holds.
#[verifier::ext_equal]
pub struct PlanIssueView {
    pub code: Seq<char>,
    pub message: Seq<char>,
    pub pointer: Seq<char>,
    pub help: Seq<char>,
}

impl DeepView for PlanIssue {
    type V = PlanIssueView;

    open spec fn deep_view(&self) -> PlanIssueView {
        PlanIssueView {
            code: self.code@,
            message: self.message@,
            pointer: self.pointer@,
            help: self.help@,
        }
    }
}

impl View for PlanIssue {
    type V = PlanIssueView;

    open spec fn view(&self) -> PlanIssueView {
        self.deep_view()
    }
}

impl Clone for PlanIssue {
    fn clone(&self) -> (r: Self)
        ensures
            r@ == self@,
    {
        PlanIssue {
            code: self.code,
            message: self.message.clone(),
            pointer: self.pointer.clone(),
            help: self.help.clone(),
        }
    }
}

// ---------------------------------------------------------------------------
// Identities
// ---------------------------------------------------------------------------

/// A small letter, a digit, an underscore or a hyphen.
pub open spec fn id_char(c: char) -> bool {
    lower(c) || digit(c) || c == '_' || c == '-'
}

/// `[a-z][a-z0-9_-]{0,62}`.
pub open spec fn logical_id(text: Seq<char>) -> bool {
    &&& 1 <= text.len() <= 63
    &&& lower(text[0])
    &&& forall|i: int| 0 <= i < text.len() ==> id_char(#[trigger] text[i])
}

/// `[a-z][a-z0-9_]{0,62}`.
pub open spec fn input_name(text: Seq<char>) -> bool {
    &&& logical_id(text)
    &&& forall|i: int| 0 <= i < text.len() ==> #[trigger] text[i] != '-'
}

/// `[a-z0-9][a-z0-9_-]{0,95}`.
pub open spec fn migration_id(text: Seq<char>) -> bool {
    &&& 1 <= text.len() <= 96
    &&& lower(text[0]) || digit(text[0])
    &&& forall|i: int| 0 <= i < text.len() ==> id_char(#[trigger] text[i])
}

/// The schemas that PostgreSQL, Supabase and the connector keep for themselves.
pub open spec fn reserved_schemas() -> Seq<Seq<char>> {
    seq![
        "auth"@,
        "extensions"@,
        "graphql"@,
        "graphql_public"@,
        "henosis_connector"@,
        "information_schema"@,
        "pg_catalog"@,
        "public"@,
        "realtime"@,
        "storage"@,
        "supabase_functions"@,
        "vault"@,
    ]
}

/// A schema that no component may own.
pub open spec fn reserved_schema(text: Seq<char>) -> bool {
    starts_with(text, "pg_"@) || reserved_schemas().contains(text)
}

/// The complaint about a field that is no logical identity.
pub open spec fn logical_id_message(field: Seq<char>) -> Seq<char> {
    field + " must match [a-z][a-z0-9_-]{0,62}"@
}

/// The complaint about a reserved schema.
pub open spec fn reserved_message(schema: Seq<char>) -> Seq<char> {
    "target.schema "@ + debug_text(schema) + " is reserved"@
}

fn has_id_chars(chars: &Vec<char>) -> (r: bool)
    ensures
        r == forall|i: int| 0 <= i < chars@.len() ==> id_char(#[trigger] chars@[i]),
{
    let mut i: usize = 0;
    while i < chars.len()
        invariant
            i <= chars@.len(),
            forall|j: int| 0 <= j < i ==> id_char(#[trigger] chars@[j]),
        decreases chars.len() - i,
    {
        let c = chars[i];
        if !(crate::text::is_lower(c) || crate::text::is_digit(c) || c == '_' || c == '-') {
            assert(!id_char(chars@[i as int]));
            return false;
        }
        i += 1;
    }
    true
}

fn is_logical_id(value: &str) -> (r: bool)
    ensures
        r == logical_id(value@),
{
    let chars = crate::text::chars(value);
    let size: usize = chars.len();
    size > 0 && size <= 63 && crate::text::is_lower(chars[0]) && has_id_chars(&chars)
}

/// Accepts exactly the logical identities.
pub fn validate_logical_id(value: &str, field: &str) -> (r: Result<(), ContextError>)
    ensures
        r is Ok <==> logical_id(value@),
        r matches Err(error) ==> error@ == ContextErrorView::Invalid(logical_id_message(field@)),
{
    if is_logical_id(value) {
        Ok(())
    } else {
        Err(ContextError::Invalid(field.to_owned().plus(" must match [a-z][a-z0-9_-]{0,62}")))
    }
}

fn reserved() -> (r: Vec<&'static str>)
    ensures
        r.deep_view() == reserved_schemas(),
{
    let r = vec![
        "auth",
        "extensions",
        "graphql",
        "graphql_public",
        "henosis_connector",
        "information_schema",
        "pg_catalog",
        "public",
        "realtime",
        "storage",
        "supabase_functions",
        "vault",
    ];
    assert(r.deep_view() =~= reserved_schemas());
    r
}

/// Accepts exactly the logical identities that are not reserved.
pub fn validate_schema(value: &str) -> (r: Result<(), ContextError>)
    ensures
        r is Ok <==> logical_id(value@) && !reserved_schema(value@),
        r matches Err(error) ==> error@ == ContextErrorView::Invalid(
            if !logical_id(value@) {
                logical_id_message("target.schema"@)
            } else {
                reserved_message(value@)
            },
        ),
{
    match validate_logical_id(value, "target.schema") {
        Err(error) => {
            return Err(error);
        },
        Ok(_) => {},
    }
    let chars = crate::text::chars(value);
    let prefix = crate::text::chars("pg_");
    if crate::text::begins_with(&chars, &prefix) || crate::text::is_among(value, &reserved()) {
        Err(
            ContextError::Invalid(
                "target.schema ".to_owned().plus(debug(value).as_str()).plus(" is reserved"),
            ),
        )
    } else {
        Ok(())
    }
}

/// Accepts exactly the input names.
pub fn is_input_name(value: &str) -> (r: bool)
    ensures
        r == input_name(value@),
{
    let chars = crate::text::chars(value);
    if !is_logical_id(value) {
        return false;
    }
    let mut i: usize = 0;
    while i < chars.len()
        invariant
            i <= chars@.len(),
            chars@ == value@,
            forall|j: int| 0 <= j < i ==> #[trigger] value@[j] != '-',
        decreases chars.len() - i,
    {
        if chars[i] == '-' {
            assert(value@[i as int] == '-');
            return false;
        }
        i += 1;
    }
    true
}

/// Accepts exactly the migration identities.
pub fn is_migration_id(value: &str) -> (r: bool)
    ensures
        r == migration_id(value@),
{
    let chars = crate::text::chars(value);
    let size: usize = chars.len();
    size > 0 && size <= 96 && (crate::text::is_lower(chars[0]) || crate::text::is_digit(chars[0]))
        && has_id_chars(&chars)
}

// ---------------------------------------------------------------------------
// Forbidden SQL
// ---------------------------------------------------------------------------

/// The verbs that additive SQL does not use, in the order in which they are looked for.
pub open spec fn forbidden_verbs() -> Seq<Seq<char>> {
    seq![
        "ALTER"@,
        "CALL"@,
        "COPY"@,
        "DELETE"@,
        "DO"@,
        "DROP"@,
        "MERGE"@,
        "REVOKE"@,
        "TRUNCATE"@,
        "UPDATE"@,
    ]
}

/// The words of a SQL text, in capitals.
pub open spec fn sql_words(sql: Seq<char>) -> Seq<Seq<char>> {
    let words = occupied(fields(sql, Separator::NonWord));
    Seq::new(words.len(), |i: int| upper_text(words[i]))
}

/// The three words stand side by side.
pub open spec fn side_by_side(words: Seq<Seq<char>>, at: int) -> bool {
    &&& 0 <= at
    &&& at + 3 <= words.len()
    &&& words[at] == "CREATE"@
    &&& words[at + 1] == "OR"@
    &&& words[at + 2] == "REPLACE"@
}

/// The first of the verbs that is among the words.
pub open spec fn first_among(verbs: Seq<Seq<char>>, words: Seq<Seq<char>>) -> Option<Seq<char>>
    decreases verbs.len(),
{
    if verbs.len() == 0 {
        None
    } else if words.contains(verbs[0]) {
        Some(verbs[0])
    } else {
        first_among(verbs.drop_first(), words)
    }
}

/// The forbidden verb that a SQL text uses.
pub open spec fn forbidden_verb(sql: Seq<char>) -> Option<Seq<char>> {
    let words = sql_words(sql);
    if exists|at: int| side_by_side(words, at) {
        Some("CREATE OR REPLACE"@)
    } else {
        first_among(forbidden_verbs(), words)
    }
}

fn forbidden() -> (r: Vec<&'static str>)
    ensures
        r.deep_view() == forbidden_verbs(),
{
    let r = vec![
        "ALTER",
        "CALL",
        "COPY",
        "DELETE",
        "DO",
        "DROP",
        "MERGE",
        "REVOKE",
        "TRUNCATE",
        "UPDATE",
    ];
    assert(r.deep_view() =~= forbidden_verbs());
    r
}

fn words_of(sql: &str) -> (r: Vec<String>)
    ensures
        r.deep_view() == sql_words(sql@),
{
    let pieces = crate::text::keep_occupied(
        crate::text::split(&crate::text::chars(sql), Separator::NonWord),
    );
    let mut words: Vec<String> = Vec::new();
    let mut i: usize = 0;
    while i < pieces.len()
        invariant
            i <= pieces.len(),
            pieces.deep_view() == occupied(fields(sql@, Separator::NonWord)),
            words.len() == i,
            forall|j: int| 0 <= j < i ==> #[trigger] words@[j]@ == sql_words(sql@)[j],
        decreases pieces.len() - i,
    {
        let word = crate::text::from_chars(&crate::text::to_upper(&pieces[i]));
        assert(pieces.deep_view()[i as int] == pieces@[i as int]@);
        words.push(word);
        i += 1;
    }
    assert(words.deep_view() =~= sql_words(sql@));
    words
}

/// The forbidden verb that a SQL text uses.
pub fn forbidden_sql_verb(sql: &str) -> (r: Option<&'static str>)
    ensures
        r.deep_view() == forbidden_verb(sql@),
{
    let words = words_of(sql);
    let ghost all = words.deep_view();
    let size: usize = words.len();
    let mut i: usize = 0;
    while i < size && size - i >= 3
        invariant
            i <= size,
            size == words@.len(),
            all == words.deep_view(),
            all == sql_words(sql@),
            forall|at: int| 0 <= at < i ==> !side_by_side(all, at),
        decreases size - i,
    {
        if crate::text::same_text(words[i].as_str(), "CREATE") && crate::text::same_text(
            words[i + 1].as_str(),
            "OR",
        ) && crate::text::same_text(words[i + 2].as_str(), "REPLACE") {
            assert(side_by_side(all, i as int));
            return Some("CREATE OR REPLACE");
        }
        i += 1;
    }
    assert forall|at: int| !side_by_side(all, at) by {}
    let verbs = forbidden();
    let mut k: usize = 0;
    assert(verbs.deep_view().skip(0) == verbs.deep_view());
    while k < verbs.len()
        invariant
            k <= verbs@.len(),
            all == words.deep_view(),
            all == sql_words(sql@),
            !exists|at: int| side_by_side(all, at),
            verbs.deep_view() == forbidden_verbs(),
            first_among(forbidden_verbs(), all) == first_among(
                forbidden_verbs().skip(k as int),
                all,
            ),
        decreases verbs.len() - k,
    {
        assert(forbidden_verbs().skip(k as int)[0] == verbs.deep_view()[k as int]);
        if crate::text::is_member(verbs[k], &words) {
            return Some(verbs[k]);
        }
        assert(forbidden_verbs().skip(k as int).drop_first() == forbidden_verbs().skip(k + 1));
        k += 1;
    }
    None
}

// ---------------------------------------------------------------------------
// Boundary validation
// ---------------------------------------------------------------------------

impl ComponentContextView {
    /// What is wrong with the identity and target fields: the first complaint, if any.
    pub open spec fn boundary_complaint(self) -> Option<Seq<char>> {
        if self.api_version != API_VERSION@ {
            Some(
                "unsupported apiVersion "@ + debug_text(self.api_version) + "; expected "@
                    + debug_text(API_VERSION@),
            )
        } else if !logical_id(self.resource_id) {
            Some(logical_id_message("resourceId"@))
        } else if self.target.stack != "local"@ {
            Some("target.stack must be the configured v1 stack \"local\""@)
        } else if self.target.project != "henosis-local"@ {
            Some("target.project must be the self-hosted v1 project \"henosis-local\""@)
        } else if self.target.database != "postgres"@ {
            Some("target.database must be the v1 database \"postgres\""@)
        } else if !logical_id(self.target.schema) {
            Some(logical_id_message("target.schema"@))
        } else if reserved_schema(self.target.schema) {
            Some(reserved_message(self.target.schema))
        } else {
            None
        }
    }
}

impl ComponentContext {
    /// Takes the outcome of decoding strict JSON and validates the identity and target fields that
    /// safe durable acceptance needs. Migration contents are checked in the plan phase, so that
    /// failures can be reported atomically.
    pub fn from_bytes(decoded: Result<ComponentContext, String>) -> (r: Result<
        ComponentContext,
        ContextError,
    >)
        ensures
            match decoded {
                Err(detail) => r matches Err(error) && error@ == ContextErrorView::Json(detail@),
                Ok(context) => match context@.boundary_complaint() {
                    Some(complaint) => r matches Err(error) && error@ == ContextErrorView::Invalid(
                        complaint,
                    ),
                    None => r matches Ok(accepted) && accepted@ == context@,
                },
            },
    {
        match decoded {
            Err(detail) => Err(ContextError::Json(detail)),
            Ok(context) => match context.validate_boundary() {
                Err(error) => Err(error),
                Ok(_) => Ok(context),
            },
        }
    }

    /// Checks the identity and target fields, in the order of the first complaint.
    pub fn validate_boundary(&self) -> (r: Result<(), ContextError>)
        ensures
            match self@.boundary_complaint() {
                Some(complaint) => r matches Err(error) && error@ == ContextErrorView::Invalid(
                    complaint,
                ),
                None => r is Ok,
            },
    {
        if !crate::text::same_text(self.api_version.as_str(), API_VERSION) {
            return Err(
                ContextError::Invalid(
                    "unsupported apiVersion ".to_owned().plus(
                        debug(self.api_version.as_str()).as_str(),
                    ).plus("; expected ").plus(debug(API_VERSION).as_str()),
                ),
            );
        }
        match validate_logical_id(self.resource_id.as_str(), "resourceId") {
            Err(error) => {
                return Err(error);
            },
            Ok(_) => {},
        }
        if !crate::text::same_text(self.target.stack.as_str(), "local") {
            return Err(
                ContextError::Invalid(
                    "target.stack must be the configured v1 stack \"local\"".to_owned(),
                ),
            );
        }
        if !crate::text::same_text(self.target.project.as_str(), "henosis-local") {
            return Err(
                ContextError::Invalid(
                    "target.project must be the self-hosted v1 project \"henosis-local\"".to_owned(),
                ),
            );
        }
        if !crate::text::same_text(self.target.database.as_str(), "postgres") {
            return Err(
                ContextError::Invalid(
                    "target.database must be the v1 database \"postgres\"".to_owned(),
                ),
            );
        }
        validate_schema(self.target.schema.as_str())
    }
}

// ---------------------------------------------------------------------------
// Plan issues
// ---------------------------------------------------------------------------

/// The JSON pointer of a migration's property.
pub open spec fn migration_pointer(index: int, property: Seq<char>) -> Seq<char> {
    "/migrations/"@ + decimal_text(index as nat) + property
}

/// The JSON pointer of a migration input's property.
pub open spec fn input_pointer(index: int, input: int, property: Seq<char>) -> Seq<char> {
    "/migrations/"@ + decimal_text(index as nat) + "/inputs/"@ + decimal_text(input as nat)
        + property
}

/// The checksum that a SQL text must declare.
pub open spec fn sql_checksum(sql: Seq<char>) -> Seq<char> {
    sha256_text(encode_utf8(sql))
}

pub open spec fn id_issue(migration: MigrationView, index: int) -> PlanIssueView {
    PlanIssueView {
        code: "supabase.plan.migration-id"@,
        message: "migration id "@ + debug_text(migration.id) + " is invalid"@,
        pointer: migration_pointer(index, "/id"@),
        help:
            "Use 1-96 lowercase letters, digits, underscores, or hyphens, beginning with a letter or digit."@,
    }
}

pub open spec fn order_issue(migration: MigrationView, index: int) -> PlanIssueView {
    PlanIssueView {
        code: "supabase.plan.migration-order"@,
        message: "migration "@ + debug_text(migration.id)
            + " is not strictly after the preceding migration"@,
        pointer: migration_pointer(index, "/id"@),
        help: "Keep migration IDs unique and in strictly increasing lexical order."@,
    }
}

pub open spec fn checksum_issue(
    migration: MigrationView,
    actual: Seq<char>,
    index: int,
) -> PlanIssueView {
    PlanIssueView {
        code: "supabase.plan.migration-checksum"@,
        message: "migration "@ + debug_text(migration.id) + " declares checksum "@ + debug_text(
            migration.checksum,
        ) + ", but its exact SQL hashes to "@ + debug_text(actual),
        pointer: migration_pointer(index, "/checksum"@),
        help:
            "Regenerate checksum as SHA-256 over the exact UTF-8 SQL bytes; never edit an already-applied migration ID."@,
    }
}

pub open spec fn input_issue(migration: MigrationView, index: int, input: int) -> PlanIssueView {
    PlanIssueView {
        code: "supabase.input.invalid"@,
        message: "migration "@ + debug_text(migration.id) + " input "@ + debug_text(
            migration.inputs[input].name,
        ) + " has an invalid name or output property"@,
        pointer: input_pointer(index, input, ""@),
        help: "Use lowercase letters, digits, and underscores, beginning with a letter."@,
    }
}

pub open spec fn duplicate_issue(
    migration: MigrationView,
    index: int,
    input: int,
) -> PlanIssueView {
    PlanIssueView {
        code: "supabase.input.duplicate"@,
        message: "migration "@ + debug_text(migration.id) + " declares input "@ + debug_text(
            migration.inputs[input].name,
        ) + " more than once"@,
        pointer: input_pointer(index, input, "/name"@),
        help: "Give each migration input a unique setting name."@,
    }
}

pub open spec fn empty_issue(migration: MigrationView, index: int) -> PlanIssueView {
    PlanIssueView {
        code: "supabase.plan.migration-empty"@,
        message: "migration "@ + debug_text(migration.id) + " has no SQL"@,
        pointer: migration_pointer(index, "/sql"@),
        help: "Remove the migration or provide one additive SQL transition."@,
    }
}

pub open spec fn verb_issue(
    migration: MigrationView,
    index: int,
    verb: Seq<char>,
) -> PlanIssueView {
    PlanIssueView {
        code: "supabase.plan.destructive-unsupported"@,
        message: "migration "@ + debug_text(migration.id) + " contains v1-unsupported verb "@
            + debug_text(verb),
        pointer: migration_pointer(index, "/sql"@),
        help:
            "V1 auto-applies additive SQL only; split out destructive or data-rewriting work for a future approval-capable policy."@,
    }
}

/// Some earlier input of the migration has the same name.
pub open spec fn repeats_name(migration: MigrationView, input: int) -> bool {
    exists|earlier: int|
        0 <= earlier < input && (#[trigger] migration.inputs[earlier]).name
            == migration.inputs[input].name
}

/// An input whose name or output property is no input name.
pub open spec fn bad_input(input: InputSlotView) -> bool {
    !input_name(input.name) || !input_name(input.output)
}

/// The issues of the first inputs of a migration.
pub open spec fn input_issues(migration: MigrationView, index: int, count: int) -> Seq<
    PlanIssueView,
>
    decreases count,
{
    if count <= 0 {
        seq![]
    } else {
        input_issues(migration, index, count - 1) + optional(
            bad_input(migration.inputs[count - 1]),
            input_issue(migration, index, count - 1),
        ) + optional(
            repeats_name(migration, count - 1),
            duplicate_issue(migration, index, count - 1),
        )
    }
}

/// The issues of a migration's SQL.
pub open spec fn sql_issues(migration: MigrationView, index: int) -> Seq<PlanIssueView> {
    if trim_text(migration.sql).len() == 0 {
        seq![empty_issue(migration, index)]
    } else {
        match forbidden_verb(migration.sql) {
            Some(verb) => seq![verb_issue(migration, index, verb)],
            None => seq![],
        }
    }
}

/// The migration does not follow its predecessor.
pub open spec fn out_of_order(migrations: Seq<MigrationView>, index: int) -> bool {
    index > 0 && !precedes(migrations[index - 1].id, migrations[index].id)
}

/// The issues of one migration, given the actual checksums of the migrations' SQL.
pub open spec fn migration_issues(
    migrations: Seq<MigrationView>,
    actual: Seq<Seq<char>>,
    index: int,
) -> Seq<PlanIssueView> {
    let migration = migrations[index];
    optional(!migration_id(migration.id), id_issue(migration, index)) + optional(
        out_of_order(migrations, index),
        order_issue(migration, index),
    ) + optional(
        migration.checksum != actual[index],
        checksum_issue(migration, actual[index], index),
    ) + input_issues(migration, index, migration.inputs.len() as int) + sql_issues(
        migration,
        index,
    )
}

/// The issues of the first migrations, given the actual checksums of the migrations' SQL.
pub open spec fn issues_up_to(
    migrations: Seq<MigrationView>,
    actual: Seq<Seq<char>>,
    count: int,
) -> Seq<PlanIssueView>
    decreases count,
{
    if count <= 0 {
        seq![]
    } else {
        issues_up_to(migrations, actual, count - 1) + migration_issues(
            migrations,
            actual,
            count - 1,
        )
    }
}

impl ComponentContextView {
    /// The checksums of the migrations' exact SQL.
    pub open spec fn actual_checksums(self) -> Seq<Seq<char>> {
        Seq::new(self.migrations.len(), |i: int| sql_checksum(self.migrations[i].sql))
    }

    /// Every content problem, in the order of the migrations, given the actual checksums of their
    /// SQL.
    pub open spec fn issues_against(self, actual: Seq<Seq<char>>) -> Seq<PlanIssueView> {
        issues_up_to(self.migrations, actual, self.migrations.len() as int)
    }

    /// Every content problem, in the order of the migrations.
    pub open spec fn issues(self) -> Seq<PlanIssueView> {
        self.issues_against(self.actual_checksums())
    }
}

fn pointer(index: usize, property: &str) -> (r: String)
    ensures
        r@ == migration_pointer(index as int, property@),
{
    "/migrations/".to_owned().plus(decimal(index as u64).as_str()).plus(property)
}

fn pointer_to_input(index: usize, input: usize, property: &str) -> (r: String)
    ensures
        r@ == input_pointer(index as int, input as int, property@),
{
    "/migrations/".to_owned().plus(decimal(index as u64).as_str()).plus("/inputs/").plus(
        decimal(input as u64).as_str(),
    ).plus(property)
}

fn name_is_repeated(migration: &Migration, input: usize) -> (r: bool)
    requires
        input < migration.inputs@.len(),
    ensures
        r == repeats_name(migration@, input as int),
{
    let mut i: usize = 0;
    while i < input
        invariant
            i <= input < migration.inputs@.len(),
            forall|j: int|
                0 <= j < i ==> (#[trigger] migration@.inputs[j]).name
                    != migration@.inputs[input as int].name,
        decreases input - i,
    {
        if migration.inputs[i].name == migration.inputs[input].name {
            assert(migration@.inputs[i as int].name == migration@.inputs[input as int].name);
            return true;
        }
        i += 1;
    }
    false
}

fn check_inputs(migration: &Migration, index: usize) -> (r: Vec<PlanIssue>)
    ensures
        r.deep_view() == input_issues(migration@, index as int, migration.inputs@.len() as int),
{
    let mut issues: Vec<PlanIssue> = Vec::new();
    let mut i: usize = 0;
    assert(issues.deep_view() =~= input_issues(migration@, index as int, 0));
    while i < migration.inputs.len()
        invariant
            i <= migration.inputs@.len(),
            issues.deep_view() == input_issues(migration@, index as int, i as int),
        decreases migration.inputs.len() - i,
    {
        let ghost before = issues.deep_view();
        let input = &migration.inputs[i];
        assert(migration@.inputs[i as int] == input@);
        if !is_input_name(input.name.as_str()) || !is_input_name(input.output.as_str()) {
            issues.push(
                PlanIssue {
                    code: "supabase.input.invalid",
                    message: "migration ".to_owned().plus(debug(migration.id.as_str()).as_str()).plus(
                        " input ",
                    ).plus(debug(input.name.as_str()).as_str()).plus(
                        " has an invalid name or output property",
                    ),
                    pointer: pointer_to_input(index, i, ""),
                    help:
                        "Use lowercase letters, digits, and underscores, beginning with a letter.".to_owned(),
                },
            );
        }
        let ghost middle = issues.deep_view();
        assert(middle =~= before + optional(
            bad_input(migration@.inputs[i as int]),
            input_issue(migration@, index as int, i as int),
        ));
        if name_is_repeated(migration, i) {
            issues.push(
                PlanIssue {
                    code: "supabase.input.duplicate",
                    message: "migration ".to_owned().plus(debug(migration.id.as_str()).as_str()).plus(
                        " declares input ",
                    ).plus(debug(input.name.as_str()).as_str()).plus(" more than once"),
                    pointer: pointer_to_input(index, i, "/name"),
                    help: "Give each migration input a unique setting name.".to_owned(),
                },
            );
        }
        assert(issues.deep_view() =~= middle + optional(
            repeats_name(migration@, i as int),
            duplicate_issue(migration@, index as int, i as int),
        ));
        i += 1;
    }
    issues
}

fn check_sql(migration: &Migration, index: usize) -> (r: Vec<PlanIssue>)
    ensures
        r.deep_view() == sql_issues(migration@, index as int),
{
    let mut issues: Vec<PlanIssue> = Vec::new();
    if crate::text::trim(&crate::text::chars(migration.sql.as_str())).len() == 0 {
        issues.push(
            PlanIssue {
                code: "supabase.plan.migration-empty",
                message: "migration ".to_owned().plus(debug(migration.id.as_str()).as_str()).plus(
                    " has no SQL",
                ),
                pointer: pointer(index, "/sql"),
                help: "Remove the migration or provide one additive SQL transition.".to_owned(),
            },
        );
    } else {
        match forbidden_sql_verb(migration.sql.as_str()) {
            Some(verb) => {
                issues.push(
                    PlanIssue {
                        code: "supabase.plan.destructive-unsupported",
                        message: "migration ".to_owned().plus(
                            debug(migration.id.as_str()).as_str(),
                        ).plus(" contains v1-unsupported verb ").plus(debug(verb).as_str()),
                        pointer: pointer(index, "/sql"),
                        help:
                            "V1 auto-applies additive SQL only; split out destructive or data-rewriting work for a future approval-capable policy.".to_owned(),
                    },
                );
            },
            None => {},
        }
    }
    assert(issues.deep_view() =~= sql_issues(migration@, index as int));
    issues
}

fn check_declaration(migrations: &Vec<Migration>, index: usize, actual: &str) -> (r: Vec<PlanIssue>)
    requires
        index < migrations@.len(),
    ensures
        r.deep_view() == optional(
            !migration_id(migrations@[index as int]@.id),
            id_issue(migrations@[index as int]@, index as int),
        ) + optional(
            out_of_order(migrations.deep_view(), index as int),
            order_issue(migrations@[index as int]@, index as int),
        ) + optional(
            migrations@[index as int]@.checksum != actual@,
            checksum_issue(migrations@[index as int]@, actual@, index as int),
        ),
{
    let migration = &migrations[index];
    let mut issues: Vec<PlanIssue> = Vec::new();
    if !is_migration_id(migration.id.as_str()) {
        issues.push(
            PlanIssue {
                code: "supabase.plan.migration-id",
                message: "migration id ".to_owned().plus(debug(migration.id.as_str()).as_str()).plus(
                    " is invalid",
                ),
                pointer: pointer(index, "/id"),
                help:
                    "Use 1-96 lowercase letters, digits, underscores, or hyphens, beginning with a letter or digit.".to_owned(),
            },
        );
    }
    let ghost first = issues.deep_view();
    assert(first =~= optional(
        !migration_id(migration@.id),
        id_issue(migration@, index as int),
    ));
    let misplaced = index > 0 && !crate::order::is_before(
        &crate::text::chars(migrations[index - 1].id.as_str()),
        &crate::text::chars(migration.id.as_str()),
    );
    assert(misplaced == out_of_order(migrations.deep_view(), index as int));
    if misplaced {
        issues.push(
            PlanIssue {
                code: "supabase.plan.migration-order",
                message: "migration ".to_owned().plus(debug(migration.id.as_str()).as_str()).plus(
                    " is not strictly after the preceding migration",
                ),
                pointer: pointer(index, "/id"),
                help: "Keep migration IDs unique and in strictly increasing lexical order.".to_owned(),
            },
        );
    }
    let ghost second = issues.deep_view();
    assert(second =~= first + optional(misplaced, order_issue(migration@, index as int)));
    if !crate::text::same_text(migration.checksum.as_str(), actual) {
        issues.push(
            PlanIssue {
                code: "supabase.plan.migration-checksum",
                message: "migration ".to_owned().plus(debug(migration.id.as_str()).as_str()).plus(
                    " declares checksum ",
                ).plus(debug(migration.checksum.as_str()).as_str()).plus(
                    ", but its exact SQL hashes to ",
                ).plus(debug(actual).as_str()),
                pointer: pointer(index, "/checksum"),
                help:
                    "Regenerate checksum as SHA-256 over the exact UTF-8 SQL bytes; never edit an already-applied migration ID.".to_owned(),
            },
        );
    }
    assert(issues.deep_view() =~= second + optional(
        migration@.checksum != actual@,
        checksum_issue(migration@, actual@, index as int),
    ));
    issues
}

impl ComponentContext {
    /// Accumulates content problems, given the actual checksums of the migrations' SQL.
    pub fn issues_against(&self, actual: &Vec<String>) -> (r: Vec<PlanIssue>)
        requires
            actual@.len() == self.migrations@.len(),
        ensures
            r.deep_view() == self@.issues_against(actual.deep_view()),
    {
        let ghost checksums = actual.deep_view();
        let mut issues: Vec<PlanIssue> = Vec::new();
        let mut i: usize = 0;
        assert(issues.deep_view() =~= issues_up_to(self@.migrations, checksums, 0));
        while i < self.migrations.len()
            invariant
                i <= self.migrations@.len(),
                actual@.len() == self.migrations@.len(),
                checksums == actual.deep_view(),
                issues.deep_view() == issues_up_to(self@.migrations, checksums, i as int),
            decreases self.migrations.len() - i,
        {
            let ghost before = issues.deep_view();
            assert(checksums[i as int] == actual@[i as int]@);
            let mut declaration = check_declaration(&self.migrations, i, actual[i].as_str());
            let mut inputs = check_inputs(&self.migrations[i], i);
            let mut sql = check_sql(&self.migrations[i], i);
            let ghost found = declaration.deep_view() + inputs.deep_view() + sql.deep_view();
            assert(found == migration_issues(self@.migrations, checksums, i as int));
            issues.append(&mut declaration);
            issues.append(&mut inputs);
            issues.append(&mut sql);
            assert(issues.deep_view() =~= before + found);
            i += 1;
        }
        issues
    }

    /// Accumulates content problems without touching the target.
    pub fn plan_issues(&self) -> (r: Vec<PlanIssue>)
        ensures
            r.deep_view() == self@.issues(),
    {
        let mut actual: Vec<String> = Vec::new();
        let mut i: usize = 0;
        while i < self.migrations.len()
            invariant
                i <= self.migrations@.len(),
                actual@.len() == i,
                forall|j: int|
                    0 <= j < i ==> (#[trigger] actual@[j])@ == self@.actual_checksums()[j],
            decreases self.migrations.len() - i,
        {
            assert(self@.migrations[i as int] == self.migrations@[i as int]@);
            actual.push(label_sha256(self.migrations[i].sql.as_str().as_bytes()));
            i += 1;
        }
        assert(actual.deep_view() =~= self@.actual_checksums());
        self.issues_against(&actual)
    }
}

// ---------------------------------------------------------------------------
// Documents
// ---------------------------------------------------------------------------

impl AnonAccess {
    /// The policy's name in documents.
    pub open spec fn name(self) -> Seq<char> {
        match self {
            AnonAccess::NoAccess => "none"@,
            AnonAccess::Read => "read"@,
        }
    }

    /// The policy's name in documents.
    pub fn text(self) -> (r: &'static str)
        ensures
            r@ == self.name(),
    {
        match self {
            AnonAccess::NoAccess => "none",
            AnonAccess::Read => "read",
        }
    }
}

impl InputSlotView {
    /// The members of the document.
    pub open spec fn members(self) -> Seq<(Seq<char>, JsonView)> {
        seq![
            ("name"@, JsonView::Text(self.name)),
            ("producerComponentSpecHash"@, byte_array(self.producer_component_spec_hash)),
            ("output"@, JsonView::Text(self.output)),
            (
                "default"@,
                match self.default {
                    Some(value) => value,
                    None => JsonView::Null,
                },
            ),
        ]
    }

    /// The declaration as a document.
    pub open spec fn document(self) -> JsonView {
        object_of(self.members())
    }
}

impl MigrationView {
    /// The members of the document.
    pub open spec fn members(self) -> Seq<(Seq<char>, JsonView)> {
        seq![
            ("id"@, JsonView::Text(self.id)),
            ("checksum"@, JsonView::Text(self.checksum)),
            ("sql"@, JsonView::Text(self.sql)),
            (
                "inputs"@,
                JsonView::Array(
                    Seq::new(self.inputs.len(), |i: int| self.inputs[i].document()),
                ),
            ),
        ]
    }

    /// The migration as a document.
    pub open spec fn document(self) -> JsonView {
        object_of(self.members())
    }
}

impl TargetContextView {
    /// The members of the document.
    pub open spec fn members(self) -> Seq<(Seq<char>, JsonView)> {
        seq![
            ("stack"@, JsonView::Text(self.stack)),
            ("project"@, JsonView::Text(self.project)),
            ("database"@, JsonView::Text(self.database)),
            ("schema"@, JsonView::Text(self.schema)),
        ]
    }

    /// The coordinates as a document.
    pub open spec fn document(self) -> JsonView {
        object_of(self.members())
    }
}

impl ApiContextView {
    /// The members of the document.
    pub open spec fn members(self) -> Seq<(Seq<char>, JsonView)> {
        seq![
            ("expose"@, JsonView::Bool(self.expose)),
            ("anonAccess"@, JsonView::Text(self.anon_access.name())),
        ]
    }

    /// The configuration as a document.
    pub open spec fn document(self) -> JsonView {
        object_of(self.members())
    }
}

impl ComponentContextView {
    /// The members of the document.
    pub open spec fn members(self) -> Seq<(Seq<char>, JsonView)> {
        seq![
            ("apiVersion"@, JsonView::Text(self.api_version)),
            ("resourceId"@, JsonView::Text(self.resource_id)),
            ("target"@, self.target.document()),
            (
                "migrations"@,
                JsonView::Array(
                    Seq::new(self.migrations.len(), |i: int| self.migrations[i].document()),
                ),
            ),
            ("api"@, self.api.document()),
        ]
    }

    /// The context as a document.
    pub open spec fn document(self) -> JsonView {
        object_of(self.members())
    }
}

impl InputSlot {
    fn document(&self) -> (r: serde_json::Value)
        ensures
            json_of(r) == self@.document(),
    {
        let default = match &self.default {
            Some(value) => value.clone(),
            None => crate::json::null(),
        };
        let members = Members::new().with_text("name", self.name.as_str()).with(
            "producerComponentSpecHash",
            crate::json::bytes(&self.producer_component_spec_hash),
        ).with_text("output", self.output.as_str()).with("default", default);
        assert(members@ =~= self@.members());
        members.finish()
    }
}

impl Migration {
    /// The migration as a document.
    pub fn document(&self) -> (r: serde_json::Value)
        ensures
            json_of(r) == self@.document(),
    {
        let mut inputs: Vec<serde_json::Value> = Vec::new();
        let mut i: usize = 0;
        while i < self.inputs.len()
            invariant
                i <= self.inputs@.len(),
                inputs@.len() == i,
                forall|j: int|
                    0 <= j < i ==> json_of(#[trigger] inputs@[j]) == self@.inputs[j].document(),
            decreases self.inputs.len() - i,
        {
            inputs.push(self.inputs[i].document());
            i += 1;
        }
        let ghost all = self@.inputs;
        assert(crate::json::json_all(inputs@) =~= Seq::new(
            all.len(),
            |i: int| all[i].document(),
        ));
        let members = Members::new().with_text("id", self.id.as_str()).with_text(
            "checksum",
            self.checksum.as_str(),
        ).with_text("sql", self.sql.as_str()).with("inputs", crate::json::array(inputs));
        assert(members@ =~= self@.members());
        members.finish()
    }
}

impl TargetContext {
    fn document(&self) -> (r: serde_json::Value)
        ensures
            json_of(r) == self@.document(),
    {
        let members = Members::new().with_text("stack", self.stack.as_str()).with_text(
            "project",
            self.project.as_str(),
        ).with_text("database", self.database.as_str()).with_text("schema", self.schema.as_str());
        assert(members@ =~= self@.members());
        members.finish()
    }
}

impl ApiContext {
    fn document(&self) -> (r: serde_json::Value)
        ensures
            json_of(r) == self@.document(),
    {
        let members = Members::new().with("expose", crate::json::boolean(self.expose)).with_text(
            "anonAccess",
            self.anon_access.text(),
        );
        assert(members@ =~= self@.members());
        members.finish()
    }
}

impl ComponentContext {
    /// The context as a document.
    pub fn document(&self) -> (r: serde_json::Value)
        ensures
            json_of(r) == self@.document(),
    {
        let mut migrations: Vec<serde_json::Value> = Vec::new();
        let mut i: usize = 0;
        while i < self.migrations.len()
            invariant
                i <= self.migrations@.len(),
                migrations@.len() == i,
                forall|j: int|
                    0 <= j < i ==> json_of(#[trigger] migrations@[j])
                        == self@.migrations[j].document(),
            decreases self.migrations.len() - i,
        {
            migrations.push(self.migrations[i].document());
            i += 1;
        }
        let ghost all = self@.migrations;
        assert(crate::json::json_all(migrations@) =~= Seq::new(
            all.len(),
            |i: int| all[i].document(),
        ));
        let members = Members::new().with_text("apiVersion", self.api_version.as_str()).with_text(
            "resourceId",
            self.resource_id.as_str(),
        ).with("target", self.target.document()).with(
            "migrations",
            crate::json::array(migrations),
        ).with("api", self.api.document());
        assert(members@ =~= self@.members());
        members.finish()
    }
}

// ---------------------------------------------------------------------------
// Soundness
// ---------------------------------------------------------------------------

/// A migration that raises no issue: its identity is valid and stands after its predecessor's, its
/// checksum is that of its SQL, its inputs are valid and have different names, and its SQL is
/// additive.
pub open spec fn sound_migration(migrations: Seq<MigrationView>, index: int) -> bool {
    let migration = migrations[index];
    &&& migration_id(migration.id)
    &&& !out_of_order(migrations, index)
    &&& migration.checksum == sql_checksum(migration.sql)
    &&& forall|k: int|
        0 <= k < migration.inputs.len() ==> !bad_input(#[trigger] migration.inputs[k])
            && !repeats_name(migration, k)
    &&& trim_text(migration.sql).len() > 0
    &&& forbidden_verb(migration.sql) is None
}

proof fn inputs_without_issues(migration: MigrationView, index: int, count: int)
    requires
        0 <= count <= migration.inputs.len(),
    ensures
        input_issues(migration, index, count).len() == 0 <==> forall|k: int|
            0 <= k < count ==> !bad_input(#[trigger] migration.inputs[k]) && !repeats_name(
                migration,
                k,
            ),
    decreases count,
{
    if count > 0 {
        inputs_without_issues(migration, index, count - 1);
        let last = migration.inputs[count - 1];
        assert(input_issues(migration, index, count).len() == input_issues(
            migration,
            index,
            count - 1,
        ).len() + optional(bad_input(last), input_issue(migration, index, count - 1)).len()
            + optional(
            repeats_name(migration, count - 1),
            duplicate_issue(migration, index, count - 1),
        ).len());
    }
}

proof fn migrations_without_issues(migrations: Seq<MigrationView>, count: int)
    requires
        0 <= count <= migrations.len(),
    ensures
        issues_up_to(
            migrations,
            Seq::new(migrations.len(), |i: int| sql_checksum(migrations[i].sql)),
            count,
        ).len() == 0 <==> forall|i: int|
            0 <= i < count ==> #[trigger] sound_migration(migrations, i),
    decreases count,
{
    if count > 0 {
        migrations_without_issues(migrations, count - 1);
        let migration = migrations[count - 1];
        inputs_without_issues(migration, count - 1, migration.inputs.len() as int);
        let actual = Seq::new(migrations.len(), |i: int| sql_checksum(migrations[i].sql));
        assert(migration_issues(migrations, actual, count - 1).len() == 0 <==> sound_migration(
            migrations,
            count - 1,
        ));
    }
}

/// A context raises no issue exactly if all its migrations are sound.
pub proof fn sound_contexts_raise_no_issue(context: ComponentContextView)
    ensures
        context.issues().len() == 0 <==> forall|i: int|
            0 <= i < context.migrations.len() ==> #[trigger] sound_migration(
                context.migrations,
                i,
            ),
{
    migrations_without_issues(context.migrations, context.migrations.len() as int);
}

}
