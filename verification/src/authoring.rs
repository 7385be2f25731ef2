//! Native Supabase project to Henosis component-spec derivation.

use vstd::prelude::*;
use vstd::utf8::encode_utf8;
use vstd::utf8::valid_utf8;

use crate::context::input_name;
use crate::context::is_input_name;
use crate::context::sql_checksum;
use crate::context::AnonAccess;
use crate::context::ApiContext;
use crate::context::ApiContextView;
use crate::context::ComponentContext;
use crate::context::ComponentContextView;
use crate::context::ContextErrorView;
use crate::context::InputSlot;
use crate::context::InputSlotView;
use crate::context::Migration;
use crate::context::MigrationView;
use crate::context::TargetContext;
use crate::context::TargetContextView;
use crate::hashing::hex_bytes;
use crate::hashing::hex_complaint;
use crate::hashing::is_hex;
use crate::hashing::label_sha256;
use crate::json::byte_array;
use crate::json::canonical;
use crate::json::json_bytes;
use crate::json::json_of;
use crate::json::json_parsed;
use crate::json::object_of;
use crate::json::text_array;
use crate::json::JsonView;
use crate::json::Members;
use crate::model::outcome;
use crate::order::ascending;
use crate::order::placed;
use crate::order::sorted_items;
use crate::text::cut_at;
use crate::text::cut_at_last;
use crate::text::debug;
use crate::text::debug_text;
use crate::text::decimal;
use crate::text::decimal_text;
use crate::text::fields;
use crate::text::joined;
use crate::text::lines_of;
use crate::text::lower_text;
use crate::text::occupied;
use crate::text::replaced;
use crate::text::starts_with;
use crate::text::text_of;
use crate::text::trim_text;
use crate::text::utf8_error;
use crate::text::Plus as _;
use crate::text::Separator;

verus! {

broadcast use crate::model::group_model;

/// Fully derived material needed to construct a component specification.
#[derive(Debug, PartialEq, Eq)]
pub struct DerivedComponent {
    /// Component name derived from native `project_id`.
    pub name: String,
    /// Connector assignment implied by the native `supabase/` project.
    pub connector: String,
    /// Connector-defined, fixed output contract.
    pub outputs_schema: serde_json::Value,
    /// Resolved immutable component-spec hashes from graph metadata.
    pub depends_on: Vec<Vec<u8>>,
    /// Exact opaque connector context derived from native files.
    pub connector_context: ComponentContext,
}

/// What a [`DerivedComponent`] holds.
#[verifier::ext_equal]
pub struct DerivedComponentView {
    pub name: Seq<char>,
    pub connector: Seq<char>,
    pub outputs_schema: JsonView,
    pub depends_on: Seq<Seq<u8>>,
    pub connector_context: ComponentContextView,
}

impl DeepView for DerivedComponent {
    type V = DerivedComponentView;

    open spec fn deep_view(&self) -> DerivedComponentView {
        DerivedComponentView {
            name: self.name@,
            connector: self.connector@,
            outputs_schema: json_of(self.outputs_schema),
            depends_on: self.depends_on.deep_view(),
            connector_context: self.connector_context@,
        }
    }
}

impl View for DerivedComponent {
    type V = DerivedComponentView;

    open spec fn view(&self) -> DerivedComponentView {
        self.deep_view()
    }
}

impl Clone for DerivedComponent {
    fn clone(&self) -> (r: Self)
        ensures
            r@ == self@,
    {
        let r = DerivedComponent {
            name: self.name.clone(),
            connector: self.connector.clone(),
            outputs_schema: self.outputs_schema.clone(),
            depends_on: self.depends_on.clone(),
            connector_context: self.connector_context.clone(),
        };
        assert(r.depends_on.deep_view() =~= self.depends_on.deep_view());
        r
    }
}

/// Native project error discovered before component registration.
#[derive(Debug, PartialEq, Eq)]
pub enum DeriveError {
    /// A required file or directory cannot be read.
    Read {
        /// Native path that failed.
        path: String,
        /// Filesystem error.
        source: String,
    },
    /// A TOML source is malformed.
    Toml {
        /// Source path.
        path: String,
        /// Parser detail.
        source: String,
    },
    /// Authoring configuration is coherent TOML but violates the contract.
    Invalid {
        /// Most relevant source path.
        path: String,
        /// Actionable detail.
        message: String,
    },
    /// Derived values unexpectedly cannot be serialized.
    Serialize {
        /// JSON serialization error.
        source: String,
    },
}

/// What a [`DeriveError`] holds.
#[verifier::ext_equal]
pub enum DeriveErrorView {
    Read { path: Seq<char>, source: Seq<char> },
    Toml { path: Seq<char>, source: Seq<char> },
    Invalid { path: Seq<char>, message: Seq<char> },
    Serialize { source: Seq<char> },
}

impl DeepView for DeriveError {
    type V = DeriveErrorView;

    open spec fn deep_view(&self) -> DeriveErrorView {
        match self {
            DeriveError::Read { path, source } => DeriveErrorView::Read {
                path: path@,
                source: source@,
            },
            DeriveError::Toml { path, source } => DeriveErrorView::Toml {
                path: path@,
                source: source@,
            },
            DeriveError::Invalid { path, message } => DeriveErrorView::Invalid {
                path: path@,
                message: message@,
            },
            DeriveError::Serialize { source } => DeriveErrorView::Serialize {
                source: source@,
            },
        }
    }
}

impl View for DeriveError {
    type V = DeriveErrorView;

    open spec fn view(&self) -> DeriveErrorView {
        self.deep_view()
    }
}

impl DeriveErrorView {
    /// The failure in words.
    pub open spec fn message(self) -> Seq<char> {
        match self {
            DeriveErrorView::Read { path, source } => "cannot read "@ + path + ": "@ + source,
            DeriveErrorView::Toml { path, source } => "invalid TOML in "@ + path + ": "@ + source,
            DeriveErrorView::Invalid { path, message } => "invalid Supabase component at "@ + path
                + ": "@ + message,
            DeriveErrorView::Serialize { source } => "cannot serialize derived component: "@
                + source,
        }
    }
}

impl DeriveError {
    /// The failure in words.
    pub fn message(&self) -> (r: String)
        ensures
            r@ == self@.message(),
    {
        match self {
            DeriveError::Read { path, source } => "cannot read ".to_owned().plus(
                path.as_str(),
            ).plus(": ").plus(source.as_str()),
            DeriveError::Toml { path, source } => "invalid TOML in ".to_owned().plus(
                path.as_str(),
            ).plus(": ").plus(source.as_str()),
            DeriveError::Invalid { path, message } => "invalid Supabase component at ".to_owned().plus(
                path.as_str(),
            ).plus(": ").plus(message.as_str()),
            DeriveError::Serialize { source } => "cannot serialize derived component: ".to_owned().plus(
                source.as_str(),
            ),
        }
    }
}

/// What matters of `supabase/config.toml`.
#[derive(Debug, PartialEq, Eq)]
pub struct SupabaseConfig {
    /// Native project identity; empty where the file has none.
    pub project_id: String,
    /// The `[api]` table.
    pub api: SupabaseApi,
    /// The `[db]` table.
    pub db: SupabaseDatabase,
}

/// What a [`SupabaseConfig`] holds.
#[verifier::ext_equal]
pub struct SupabaseConfigView {
    pub project_id: Seq<char>,
    pub api: SupabaseApiView,
    pub db: SupabaseDatabaseView,
}

impl DeepView for SupabaseConfig {
    type V = SupabaseConfigView;

    open spec fn deep_view(&self) -> SupabaseConfigView {
        SupabaseConfigView {
            project_id: self.project_id@,
            api: self.api@,
            db: self.db@,
        }
    }
}

impl View for SupabaseConfig {
    type V = SupabaseConfigView;

    open spec fn view(&self) -> SupabaseConfigView {
        self.deep_view()
    }
}

/// What matters of the `[api]` table.
#[derive(Debug, PartialEq, Eq)]
pub struct SupabaseApi {
    /// Whether the API is enabled, as it is unless the file says otherwise.
    pub enabled: bool,
    /// The exposed schemas.
    pub schemas: Vec<String>,
}

/// What a [`SupabaseApi`] holds.
#[verifier::ext_equal]
pub struct SupabaseApiView {
    pub enabled: bool,
    pub schemas: Seq<Seq<char>>,
}

impl DeepView for SupabaseApi {
    type V = SupabaseApiView;

    open spec fn deep_view(&self) -> SupabaseApiView {
        SupabaseApiView {
            enabled: self.enabled,
            schemas: self.schemas.deep_view(),
        }
    }
}

impl View for SupabaseApi {
    type V = SupabaseApiView;

    open spec fn view(&self) -> SupabaseApiView {
        self.deep_view()
    }
}

/// What matters of the `[db]` table.
#[derive(Debug, PartialEq, Eq)]
pub struct SupabaseDatabase {
    /// The `[db.migrations]` table.
    pub migrations: SupabaseMigrations,
}

/// What a [`SupabaseDatabase`] holds.
#[verifier::ext_equal]
pub struct SupabaseDatabaseView {
    pub migrations: SupabaseMigrationsView,
}

impl DeepView for SupabaseDatabase {
    type V = SupabaseDatabaseView;

    open spec fn deep_view(&self) -> SupabaseDatabaseView {
        SupabaseDatabaseView {
            migrations: self.migrations@,
        }
    }
}

impl View for SupabaseDatabase {
    type V = SupabaseDatabaseView;

    open spec fn view(&self) -> SupabaseDatabaseView {
        self.deep_view()
    }
}

/// What matters of the `[db.migrations]` table.
#[derive(Debug, PartialEq, Eq)]
pub struct SupabaseMigrations {
    /// Whether migrations are enabled, as they are unless the file says otherwise.
    pub enabled: bool,
}

/// What a [`SupabaseMigrations`] holds.
#[verifier::ext_equal]
pub struct SupabaseMigrationsView {
    pub enabled: bool,
}

impl DeepView for SupabaseMigrations {
    type V = SupabaseMigrationsView;

    open spec fn deep_view(&self) -> SupabaseMigrationsView {
        SupabaseMigrationsView {
            enabled: self.enabled,
        }
    }
}

impl View for SupabaseMigrations {
    type V = SupabaseMigrationsView;

    open spec fn view(&self) -> SupabaseMigrationsView {
        self.deep_view()
    }
}

/// What a switch is set to where the file does not say.
pub fn enabled() -> (r: bool)
    ensures
        r,
{
    true
}

impl Default for SupabaseMigrations {
    /// The table where the file has none.
    fn default() -> (r: Self)
        ensures
            r@ == (SupabaseMigrationsView { enabled: true }),
    {
        SupabaseMigrations { enabled: enabled() }
    }
}

impl Default for SupabaseDatabase {
    /// The table where the file has none.
    fn default() -> (r: Self)
        ensures
            r@ == (SupabaseDatabaseView {
                migrations: SupabaseMigrationsView { enabled: true },
            }),
    {
        SupabaseDatabase { migrations: SupabaseMigrations::default() }
    }
}

/// An authoring failure.
pub open spec fn violation(path: Seq<char>, message: Seq<char>) -> DeriveErrorView {
    DeriveErrorView::Invalid { path, message }
}

/// Refuses an authoring configuration.
pub fn invalid<T>(path: &str, message: String) -> (r: Result<T, DeriveError>)
    ensures
        r matches Err(error) && error@ == violation(path@, message@),
{
    Err(DeriveError::Invalid { path: path.to_owned(), message })
}

// ---------------------------------------------------------------------------
// Native identity
// ---------------------------------------------------------------------------

/// The schema that a component name stands for.
pub open spec fn schema_of_name(name: Seq<char>) -> Seq<char> {
    replaced(name, '-', '_')
}

/// The schema that a component name derives: the name with underscores for hyphens, if that is a
/// small letter followed by up to 62 small letters, digits and underscores.
pub fn native_schema(name: &str, path: &str) -> (r: Result<String, DeriveError>)
    ensures
        outcome(r) == if input_name(schema_of_name(name@)) {
            Ok(schema_of_name(name@))
        } else {
            Err(
                violation(
                    path@,
                    "project_id "@ + debug_text(name@)
                        + " cannot derive a PostgreSQL schema; use lowercase letters, digits, hyphens, or underscores"@,
                ),
            )
        },
{
    let schema = crate::text::from_chars(&crate::text::replace(&crate::text::chars(name), '-', '_'));
    if !is_input_name(schema.as_str()) {
        return invalid(
            path,
            "project_id ".to_owned().plus(debug(name).as_str()).plus(
                " cannot derive a PostgreSQL schema; use lowercase letters, digits, hyphens, or underscores",
            ),
        );
    }
    Ok(schema)
}

// ---------------------------------------------------------------------------
// Migration files
// ---------------------------------------------------------------------------

/// The position of the last dot in a file name.
pub open spec fn last_dot(name: Seq<u8>) -> Option<int>
    decreases name.len(),
{
    if name.len() == 0 {
        None
    } else if name.last() == 46 {
        Some(name.len() - 1)
    } else {
        last_dot(name.drop_last())
    }
}

/// The file name ends in `.sql`, behind at least one byte.
pub open spec fn is_sql_name(name: Seq<u8>) -> bool {
    last_dot(name) matches Some(at) && at > 0 && name.skip(at + 1) == seq![115u8, 113, 108]
}

/// What stands before the last dot of a file name.
pub open spec fn stem_of(name: Seq<u8>) -> Seq<u8> {
    match last_dot(name) {
        Some(at) => if at > 0 {
            name.take(at)
        } else {
            name
        },
        None => name,
    }
}

/// The names of SQL files among the first names.
pub open spec fn sql_names(names: Seq<Seq<u8>>, count: int) -> Seq<Seq<u8>>
    decreases count,
{
    if count <= 0 {
        seq![]
    } else if is_sql_name(names[count - 1]) {
        sql_names(names, count - 1).push(names[count - 1])
    } else {
        sql_names(names, count - 1)
    }
}

/// The migration files of a directory, in the order of their names.
pub open spec fn migration_names(names: Seq<Seq<u8>>) -> Seq<Seq<u8>> {
    sorted_items(sql_names(names, names.len() as int))
}

proof fn last_dot_inside(name: Seq<u8>)
    ensures
        last_dot(name) matches Some(at) ==> 0 <= at < name.len(),
    decreases name.len(),
{
    if name.len() > 0 && name.last() != 46 {
        last_dot_inside(name.drop_last());
    }
}

fn find_last_dot(name: &Vec<u8>) -> (r: Option<usize>)
    ensures
        match r {
            Some(at) => last_dot(name@) == Some(at as int) && at < name@.len(),
            None => last_dot(name@) is None,
        },
{
    let mut to: usize = name.len();
    assert(name@.take(name@.len() as int) == name@);
    while 0 < to
        invariant
            to <= name@.len(),
            last_dot(name@) == last_dot(name@.take(to as int)),
        decreases to,
    {
        if name[to - 1] == 46 {
            return Some(to - 1);
        }
        assert(name@.take(to as int).drop_last() == name@.take(to - 1));
        to -= 1;
    }
    None
}

fn has_sql_name(name: &Vec<u8>) -> (r: bool)
    ensures
        r == is_sql_name(name@),
{
    match find_last_dot(name) {
        None => false,
        Some(at) => {
            let size: usize = name.len();
            if at == 0 || size - at != 4 {
                assert(name@.skip(at + 1).len() != 3 || at == 0);
                return false;
            }
            let r = name[at + 1] == 115 && name[at + 2] == 113 && name[at + 3] == 108;
            let ghost rest = name@.skip(at + 1);
            assert(rest[0] == name@[at + 1] && rest[1] == name@[at + 2] && rest[2] == name@[at
                + 3]);
            if r {
                assert(rest =~= seq![115u8, 113, 108]);
            }
            r
        },
    }
}

fn file_stem(name: &Vec<u8>) -> (r: Vec<u8>)
    ensures
        r@ == stem_of(name@),
{
    match find_last_dot(name) {
        None => crate::model::copy_bytes(name),
        Some(at) => {
            if at == 0 {
                return crate::model::copy_bytes(name);
            }
            let mut stem: Vec<u8> = Vec::new();
            let mut i: usize = 0;
            while i < at
                invariant
                    i <= at < name@.len(),
                    stem@ == name@.take(i as int),
                decreases at - i,
            {
                stem.push(name[i]);
                assert(name@.take(i + 1) == name@.take(i as int).push(name@[i as int]));
                i += 1;
            }
            stem
        },
    }
}

/// Selects the migration files of a directory by their names and sorts them.
pub fn select_migrations(names: &Vec<Vec<u8>>) -> (r: Vec<Vec<u8>>)
    ensures
        r.deep_view() == migration_names(names.deep_view()),
{
    let ghost all = names.deep_view();
    let mut chosen: Vec<Vec<u8>> = Vec::new();
    let mut i: usize = 0;
    assert(chosen.deep_view() =~= sql_names(all, 0));
    while i < names.len()
        invariant
            i <= names@.len(),
            all == names.deep_view(),
            chosen.deep_view() == sql_names(all, i as int),
        decreases names.len() - i,
    {
        assert(all[i as int] == names@[i as int]@);
        if has_sql_name(&names[i]) {
            chosen.push(crate::model::copy_bytes(&names[i]));
        }
        i += 1;
    }
    crate::order::sort_bytes(&chosen)
}

/// One migration file, as it was read.
#[derive(Debug, PartialEq, Eq)]
pub struct MigrationFile {
    /// Raw file name.
    pub name: Vec<u8>,
    /// Native path, for messages.
    pub path: String,
    /// The contents, or why they cannot be read.
    pub contents: Result<Vec<u8>, String>,
}

/// What a [`MigrationFile`] holds.
#[verifier::ext_equal]
pub struct MigrationFileView {
    pub name: Seq<u8>,
    pub path: Seq<char>,
    pub contents: Result<Seq<u8>, Seq<char>>,
}

impl DeepView for MigrationFile {
    type V = MigrationFileView;

    open spec fn deep_view(&self) -> MigrationFileView {
        MigrationFileView {
            name: self.name@,
            path: self.path@,
            contents: match self.contents {
                Ok(value) => Ok(value@),
                Err(error) => Err(error@),
            },
        }
    }
}

impl View for MigrationFile {
    type V = MigrationFileView;

    open spec fn view(&self) -> MigrationFileView {
        self.deep_view()
    }
}

// ---------------------------------------------------------------------------
// Inputs
// ---------------------------------------------------------------------------

/// The comment that declares an input.
pub open spec fn input_mark() -> Seq<char> {
    "-- henosis:input "@
}

/// What a line declares.
pub open spec fn declaration_of(line: Seq<char>) -> Option<Seq<char>> {
    let text = trim_text(line);
    if starts_with(text, input_mark()) {
        Some(text.skip(input_mark().len() as int))
    } else {
        None
    }
}

/// What stands between `${henosis:` and `}`.
pub open spec fn placeholder_body(placeholder: Seq<char>) -> Option<Seq<char>> {
    if starts_with(placeholder, "${henosis:"@) {
        let rest = placeholder.skip("${henosis:"@.len() as int);
        if rest.len() > 0 && rest.last() == '}' {
            Some(rest.drop_last())
        } else {
            None
        }
    } else {
        None
    }
}

/// A complaint about a line.
pub open spec fn line_complaint(line: nat, detail: Seq<char>) -> Seq<char> {
    "line "@ + decimal_text(line) + ": "@ + detail
}

/// The text has an ASCII capital.
pub open spec fn has_capital(text: Seq<char>) -> bool {
    exists|i: int| 0 <= i < text.len() && crate::text::upper(#[trigger] text[i])
}

/// The producer's hash, or the complaint about it.
pub open spec fn producer_hash(producer: Seq<char>) -> Result<Seq<u8>, Seq<char>> {
    let digits = encode_utf8(producer);
    if !is_hex(producer) {
        Err("producer hash is invalid: "@ + hex_complaint(digits))
    } else if digits.len() != 64 || has_capital(producer) {
        Err("producer hash must contain 64 lowercase hexadecimal characters"@)
    } else {
        Ok(hex_bytes(digits))
    }
}

/// The input that a name and a reference declare, or the complaint, given what parsing the default
/// gives.
pub open spec fn input_with(
    name: Seq<char>,
    reference: Seq<char>,
    default: Option<Result<JsonView, Seq<char>>>,
) -> Result<InputSlotView, Seq<char>> {
    match cut_at_last(reference, '.') {
        None => Err("input reference must contain HASH.output"@),
        Some((producer, output)) => match producer_hash(producer) {
            Err(complaint) => Err(complaint),
            Ok(producer_component_spec_hash) => match default {
                None => Ok(
                    InputSlotView {
                        name: trim_text(name),
                        producer_component_spec_hash,
                        output,
                        default: None,
                    },
                ),
                Some(Err(error)) => Err("input default must be JSON: "@ + error),
                Some(Ok(value)) => Ok(
                    InputSlotView {
                        name: trim_text(name),
                        producer_component_spec_hash,
                        output,
                        default: Some(canonical(value)),
                    },
                ),
            },
        },
    }
}

/// The input that a name and a reference with its default declare, or the complaint.
pub open spec fn referenced_input(
    name: Seq<char>,
    reference: Seq<char>,
    default: Option<Seq<char>>,
) -> Result<InputSlotView, Seq<char>> {
    input_with(
        name,
        reference,
        match default {
            Some(text) => Some(json_parsed(text)),
            None => None,
        },
    )
}

/// The input that a declaration stands for, or the complaint.
pub open spec fn declared_input(declaration: Seq<char>) -> Result<InputSlotView, Seq<char>> {
    match cut_at(declaration, "="@) {
        None => Err("input declaration must be NAME=${henosis:HASH.output}"@),
        Some((name, placeholder)) => match placeholder_body(placeholder) {
            None => Err("input value must use ${henosis:HASH.output}"@),
            Some(body) => match cut_at(body, ":-"@) {
                Some((reference, default)) => referenced_input(name, reference, Some(default)),
                None => referenced_input(name, body, None),
            },
        },
    }
}

/// The inputs that the first lines declare, or the first complaint.
pub open spec fn inputs_up_to(lines: Seq<Seq<char>>, count: int) -> Result<
    Seq<InputSlotView>,
    Seq<char>,
>
    decreases count,
{
    if count <= 0 {
        Ok(seq![])
    } else {
        match inputs_up_to(lines, count - 1) {
            Err(complaint) => Err(complaint),
            Ok(inputs) => match declaration_of(lines[count - 1]) {
                None => Ok(inputs),
                Some(declaration) => match declared_input(declaration) {
                    Err(detail) => Err(line_complaint(count as nat, detail)),
                    Ok(input) => Ok(inputs.push(input)),
                },
            },
        }
    }
}

/// The inputs that a SQL text declares, or the first complaint.
pub open spec fn declared_inputs(sql: Seq<char>) -> Result<Seq<InputSlotView>, Seq<char>> {
    inputs_up_to(lines_of(sql), lines_of(sql).len() as int)
}

fn contains_capital(text: &str) -> (r: bool)
    ensures
        r == has_capital(text@),
{
    let chars = crate::text::chars(text);
    let mut i: usize = 0;
    while i < chars.len()
        invariant
            i <= chars@.len(),
            chars@ == text@,
            forall|j: int| 0 <= j < i ==> !crate::text::upper(#[trigger] text@[j]),
        decreases chars.len() - i,
    {
        if crate::text::is_upper(chars[i]) {
            assert(crate::text::upper(text@[i as int]));
            return true;
        }
        i += 1;
    }
    false
}

fn to_array(bytes: &Vec<u8>) -> (r: [u8; 32])
    requires
        bytes@.len() == 32,
    ensures
        r@ == bytes@,
{
    let mut array = [0u8; 32];
    let mut i: usize = 0;
    while i < 32
        invariant
            i <= 32,
            bytes@.len() == 32,
            array@.len() == 32,
            forall|j: int| 0 <= j < i ==> #[trigger] array@[j] == bytes@[j],
        decreases 32 - i,
    {
        array[i] = bytes[i];
        i += 1;
    }
    assert(array@ =~= bytes@);
    array
}

fn parse_producer(producer: &str) -> (r: Result<[u8; 32], String>)
    ensures
        match r {
            Ok(hash) => producer_hash(producer@) == Ok::<Seq<u8>, Seq<char>>(hash@),
            Err(complaint) => producer_hash(producer@) == Err::<Seq<u8>, Seq<char>>(complaint@),
        },
{
    match crate::hashing::decode(producer) {
        Err(source) => Err("producer hash is invalid: ".to_owned().plus(source.as_str())),
        Ok(bytes) => {
            if bytes.len() != 32 || producer.as_bytes().len() != 64 || contains_capital(producer) {
                return Err(
                    "producer hash must contain 64 lowercase hexadecimal characters".to_owned(),
                );
            }
            Ok(to_array(&bytes))
        },
    }
}

/// What parsing a default gave: the value's tree, or the text of the error.
pub open spec fn parsed_default(default: Option<Result<serde_json::Value, String>>) -> Option<
    Result<JsonView, Seq<char>>,
> {
    match default {
        Some(Ok(value)) => Some(Ok(json_of(value))),
        Some(Err(error)) => Some(Err(error@)),
        None => None,
    }
}

/// Makes the input that a name and a reference declare, given what parsing the default gave.
pub fn input_slot(
    name: &str,
    reference: &str,
    default: Option<Result<serde_json::Value, String>>,
) -> (r: Result<InputSlot, String>)
    ensures
        outcome(r) == input_with(name@, reference@, parsed_default(default)),
{
    let (producer, output) = match crate::text::split_last(&crate::text::chars(reference), '.') {
        Some(parts) => parts,
        None => {
            return Err("input reference must contain HASH.output".to_owned());
        },
    };
    let hash = match parse_producer(crate::text::from_chars(&producer).as_str()) {
        Ok(hash) => hash,
        Err(complaint) => {
            return Err(complaint);
        },
    };
    let value = match default {
        None => None,
        Some(Ok(value)) => {
            let mut value = value;
            crate::json::sort_members(&mut value);
            Some(value)
        },
        Some(Err(error)) => {
            return Err("input default must be JSON: ".to_owned().plus(error.as_str()));
        },
    };
    Ok(
        InputSlot {
            name: crate::text::from_chars(&crate::text::trim(&crate::text::chars(name))),
            producer_component_spec_hash: hash,
            output: crate::text::from_chars(&output),
            default: value,
        },
    )
}

fn parse_reference(name: &Vec<char>, reference: &Vec<char>, default: Option<Vec<char>>) -> (r: Result<
    InputSlot,
    String,
>)
    ensures
        outcome(r) == referenced_input(
            name@,
            reference@,
            match default {
                Some(text) => Some(text@),
                None => None,
            },
        ),
{
    let parsed = match default {
        Some(text) => Some(crate::json::parse(crate::text::from_chars(&text).as_str())),
        None => None,
    };
    input_slot(
        crate::text::from_chars(name).as_str(),
        crate::text::from_chars(reference).as_str(),
        parsed,
    )
}

fn strip_placeholder(placeholder: &Vec<char>) -> (r: Option<Vec<char>>)
    ensures
        match r {
            Some(body) => placeholder_body(placeholder@) == Some(body@),
            None => placeholder_body(placeholder@) is None,
        },
{
    let prefix = crate::text::chars("${henosis:");
    if !crate::text::begins_with(placeholder, &prefix) {
        return None;
    }
    let size: usize = placeholder.len();
    let start: usize = prefix.len();
    let ghost rest = placeholder@.skip(start as int);
    if size == start || placeholder[size - 1] != '}' {
        assert(rest.len() == 0 || rest.last() == placeholder@[size - 1]);
        return None;
    }
    assert(rest.last() == placeholder@[size - 1]);
    assert(rest.drop_last() =~= placeholder@.subrange(start as int, size - 1));
    Some(crate::text::part(placeholder, start, size - 1))
}

/// Parses one input declaration. A complaint does not name the line.
pub fn parse_declaration(declaration: &str) -> (r: Result<InputSlot, String>)
    ensures
        outcome(r) == declared_input(declaration@),
{
    let (name, placeholder) = match crate::text::split_once(
        &crate::text::chars(declaration),
        "=",
    ) {
        Some(parts) => parts,
        None => {
            return Err("input declaration must be NAME=${henosis:HASH.output}".to_owned());
        },
    };
    let body = match strip_placeholder(&placeholder) {
        Some(body) => body,
        None => {
            return Err("input value must use ${henosis:HASH.output}".to_owned());
        },
    };
    match crate::text::split_once(&body, ":-") {
        Some((reference, default)) => parse_reference(&name, &reference, Some(default)),
        None => parse_reference(&name, &body, None),
    }
}

/// Parses the input declaration of a line.
pub fn parse_input(declaration: &str, line: usize, path: &str) -> (r: Result<
    InputSlot,
    DeriveError,
>)
    ensures
        outcome(r) == match declared_input(declaration@) {
            Ok(input) => Ok(input),
            Err(detail) => Err(violation(path@, line_complaint(line as nat, detail))),
        },
{
    match parse_declaration(declaration) {
        Ok(input) => Ok(input),
        Err(detail) => invalid(
            path,
            "line ".to_owned().plus(decimal(line as u64).as_str()).plus(": ").plus(
                detail.as_str(),
            ),
        ),
    }
}

fn find_declaration(line: &Vec<char>) -> (r: Option<String>)
    ensures
        r.deep_view() == declaration_of(line@),
{
    let text = crate::text::trim(line);
    let mark = crate::text::chars("-- henosis:input ");
    if crate::text::begins_with(&text, &mark) {
        assert(text@.skip(mark@.len() as int) =~= text@.subrange(
            mark@.len() as int,
            text@.len() as int,
        ));
        Some(crate::text::from_chars(&crate::text::part(&text, mark.len(), text.len())))
    } else {
        None
    }
}

proof fn complaint_stays(lines: Seq<Seq<char>>, count: int, total: int)
    requires
        0 <= count <= total,
        inputs_up_to(lines, count) is Err,
    ensures
        inputs_up_to(lines, total) == inputs_up_to(lines, count),
    decreases total,
{
    if count < total {
        complaint_stays(lines, count, total - 1);
    }
}

/// Collects the inputs that the comments of a SQL text declare.
pub fn derive_inputs(sql: &str, path: &str) -> (r: Result<Vec<InputSlot>, DeriveError>)
    ensures
        outcome(r) == match declared_inputs(sql@) {
            Ok(inputs) => Ok(inputs),
            Err(complaint) => Err(violation(path@, complaint)),
        },
{
    let lines = crate::text::lines(&crate::text::chars(sql));
    let ghost all = lines.deep_view();
    let mut inputs: Vec<InputSlot> = Vec::new();
    let mut i: usize = 0;
    assert(inputs.deep_view() =~= Seq::<InputSlotView>::empty());
    while i < lines.len()
        invariant
            i <= lines@.len(),
            all == lines.deep_view(),
            all == lines_of(sql@),
            inputs_up_to(all, i as int) == Ok::<Seq<InputSlotView>, Seq<char>>(
                inputs.deep_view(),
            ),
        decreases lines.len() - i,
    {
        assert(all[i as int] == lines@[i as int]@);
        match find_declaration(&lines[i]) {
            None => {},
            Some(declaration) => match parse_input(declaration.as_str(), i + 1, path) {
                Ok(input) => {
                    inputs.push(input);
                },
                Err(error) => {
                    proof {
                        assert(inputs_up_to(all, i + 1) is Err);
                        complaint_stays(all, i + 1, all.len() as int);
                    }
                    return Err(error);
                },
            },
        }
        i += 1;
    }
    Ok(inputs)
}

// ---------------------------------------------------------------------------
// Migrations
// ---------------------------------------------------------------------------

/// The migration that a file stands for.
pub open spec fn migration_of(file: MigrationFileView) -> Result<MigrationView, DeriveErrorView> {
    if !valid_utf8(stem_of(file.name)) {
        Err(violation(file.path, "migration filename must be UTF-8 and end in .sql"@))
    } else {
        match file.contents {
            Err(source) => Err(DeriveErrorView::Read { path: file.path, source }),
            Ok(bytes) => if !valid_utf8(bytes) {
                Err(violation(file.path, "migration must be UTF-8: "@ + utf8_error(bytes)))
            } else {
                match declared_inputs(text_of(bytes)) {
                    Err(complaint) => Err(violation(file.path, complaint)),
                    Ok(inputs) => Ok(
                        MigrationView {
                            id: text_of(stem_of(file.name)),
                            checksum: sql_checksum(text_of(bytes)),
                            sql: text_of(bytes),
                            inputs,
                        },
                    ),
                }
            },
        }
    }
}

/// The migrations that the first files stand for, or the first failure.
pub open spec fn migrations_up_to(files: Seq<MigrationFileView>, count: int) -> Result<
    Seq<MigrationView>,
    DeriveErrorView,
>
    decreases count,
{
    if count <= 0 {
        Ok(seq![])
    } else {
        match migrations_up_to(files, count - 1) {
            Err(error) => Err(error),
            Ok(migrations) => match migration_of(files[count - 1]) {
                Err(error) => Err(error),
                Ok(migration) => Ok(migrations.push(migration)),
            },
        }
    }
}

fn derive_migration(file: &MigrationFile) -> (r: Result<Migration, DeriveError>)
    ensures
        outcome(r) == migration_of(file@),
{
    let id = match crate::text::read_text(&file_stem(&file.name)) {
        Ok(id) => id,
        Err(_) => {
            return invalid(
                file.path.as_str(),
                "migration filename must be UTF-8 and end in .sql".to_owned(),
            );
        },
    };
    let bytes = match &file.contents {
        Ok(bytes) => bytes,
        Err(source) => {
            return Err(DeriveError::Read { path: file.path.clone(), source: source.clone() });
        },
    };
    let sql = match crate::text::read_text(bytes) {
        Ok(sql) => sql,
        Err(source) => {
            return invalid(
                file.path.as_str(),
                "migration must be UTF-8: ".to_owned().plus(source.as_str()),
            );
        },
    };
    let inputs = match derive_inputs(sql.as_str(), file.path.as_str()) {
        Ok(inputs) => inputs,
        Err(error) => {
            return Err(error);
        },
    };
    Ok(Migration { id, checksum: label_sha256(sql.as_str().as_bytes()), sql, inputs })
}

proof fn failure_stays(files: Seq<MigrationFileView>, count: int, total: int)
    requires
        0 <= count <= total,
        migrations_up_to(files, count) is Err,
    ensures
        migrations_up_to(files, total) == migrations_up_to(files, count),
    decreases total,
{
    if count < total {
        failure_stays(files, count, total - 1);
    }
}

/// Derives the migrations of the files, in their order.
pub fn derive_migrations(files: &Vec<MigrationFile>) -> (r: Result<Vec<Migration>, DeriveError>)
    ensures
        outcome(r) == migrations_up_to(files.deep_view(), files@.len() as int),
{
    let ghost all = files.deep_view();
    let mut migrations: Vec<Migration> = Vec::new();
    let mut i: usize = 0;
    assert(migrations.deep_view() =~= Seq::<MigrationView>::empty());
    while i < files.len()
        invariant
            i <= files@.len(),
            all == files.deep_view(),
            migrations_up_to(all, i as int) == Ok::<Seq<MigrationView>, DeriveErrorView>(
                migrations.deep_view(),
            ),
        decreases files.len() - i,
    {
        assert(all[i as int] == files@[i as int]@);
        match derive_migration(&files[i]) {
            Ok(migration) => {
                migrations.push(migration);
            },
            Err(error) => {
                proof {
                    assert(migrations_up_to(all, i + 1) is Err);
                    failure_stays(all, i + 1, all.len() as int);
                }
                return Err(error);
            },
        }
        i += 1;
    }
    Ok(migrations)
}

// ---------------------------------------------------------------------------
// Anonymous access
// ---------------------------------------------------------------------------

/// The SQL of all migrations, one after the other on lines of their own.
pub open spec fn all_sql(migrations: Seq<MigrationView>) -> Seq<char> {
    joined(Seq::new(migrations.len(), |i: int| migrations[i].sql), seq!['\n'])
}

/// A line without its comment.
pub open spec fn without_comment(line: Seq<char>) -> Seq<char> {
    match cut_at(line, "--"@) {
        Some((before, _)) => before,
        None => line,
    }
}

/// A SQL text without comments.
pub open spec fn uncommented(sql: Seq<char>) -> Seq<char> {
    let lines = lines_of(sql);
    joined(Seq::new(lines.len(), |i: int| without_comment(lines[i])), seq!['\n'])
}

/// A statement in small letters, with one blank between words.
pub open spec fn plain_statement(statement: Seq<char>) -> Seq<char> {
    lower_text(joined(occupied(fields(statement, Separator::Blank)), seq![' ']))
}

/// The statements of a SQL text without comments.
pub open spec fn statements_of_sql(sql: Seq<char>) -> Seq<Seq<char>> {
    let pieces = fields(uncommented(sql), Separator::Mark(';'));
    Seq::new(pieces.len(), |i: int| plain_statement(pieces[i]))
}

/// The statement that lets anonymous users into a schema.
pub open spec fn usage_grant(schema: Seq<char>) -> Seq<char> {
    "grant usage on schema "@ + schema + " to anon"@
}

/// The statement that lets anonymous users read all tables of a schema.
pub open spec fn select_grant(schema: Seq<char>) -> Seq<char> {
    "grant select on all tables in schema "@ + schema + " to anon"@
}

/// The complaint about one grant without the other.
pub open spec fn grant_complaint(schema: Seq<char>) -> Seq<char> {
    "native anon-read policy for schema "@ + debug_text(schema)
        + " is incomplete: migrations must contain both `grant usage on schema "@ + schema
        + " to anon` and `grant select on all tables in schema "@ + schema
        + " to anon`, or neither"@
}

/// The anonymous access that migrations grant: reading if they hold both grants, none if they hold
/// neither.
pub open spec fn granted_access(
    migrations: Seq<MigrationView>,
    schema: Seq<char>,
    config_path: Seq<char>,
) -> Result<AnonAccess, DeriveErrorView> {
    let statements = statements_of_sql(all_sql(migrations));
    let usage = statements.contains(usage_grant(schema));
    let select = statements.contains(select_grant(schema));
    if usage && select {
        Ok(AnonAccess::Read)
    } else if !usage && !select {
        Ok(AnonAccess::NoAccess)
    } else {
        Err(violation(config_path, grant_complaint(schema)))
    }
}

fn collect_sql(migrations: &Vec<Migration>) -> (r: Vec<char>)
    ensures
        r@ == all_sql(migrations.deep_view()),
{
    let ghost all = migrations.deep_view();
    let ghost texts = Seq::new(all.len(), |i: int| all[i].sql);
    let mut pieces: Vec<Vec<char>> = Vec::new();
    let mut i: usize = 0;
    while i < migrations.len()
        invariant
            i <= migrations@.len(),
            all == migrations.deep_view(),
            texts == Seq::new(all.len(), |i: int| all[i].sql),
            pieces@.len() == i,
            forall|j: int| 0 <= j < i ==> (#[trigger] pieces@[j])@ == texts[j],
        decreases migrations.len() - i,
    {
        assert(all[i as int] == migrations@[i as int]@);
        pieces.push(crate::text::chars(migrations[i].sql.as_str()));
        i += 1;
    }
    assert(pieces.deep_view() =~= texts);
    crate::text::join(&pieces, '\n')
}

fn strip_comments(sql: &Vec<char>) -> (r: Vec<char>)
    ensures
        r@ == uncommented(sql@),
{
    let lines = crate::text::lines(sql);
    let ghost all = lines.deep_view();
    let ghost stripped = Seq::new(all.len(), |i: int| without_comment(all[i]));
    let mut pieces: Vec<Vec<char>> = Vec::new();
    let mut i: usize = 0;
    while i < lines.len()
        invariant
            i <= lines@.len(),
            all == lines.deep_view(),
            stripped == Seq::new(all.len(), |i: int| without_comment(all[i])),
            pieces@.len() == i,
            forall|j: int| 0 <= j < i ==> (#[trigger] pieces@[j])@ == stripped[j],
        decreases lines.len() - i,
    {
        assert(all[i as int] == lines@[i as int]@);
        let piece = match crate::text::split_once(&lines[i], "--") {
            Some((before, _)) => before,
            None => crate::text::part(&lines[i], 0, lines[i].len()),
        };
        assert(piece@ =~= stripped[i as int]);
        pieces.push(piece);
        i += 1;
    }
    assert(pieces.deep_view() =~= stripped);
    crate::text::join(&pieces, '\n')
}

fn simplify(statement: &Vec<char>) -> (r: String)
    ensures
        r@ == plain_statement(statement@),
{
    let words = crate::text::keep_occupied(crate::text::split(statement, Separator::Blank));
    crate::text::from_chars(&crate::text::to_lower(&crate::text::join(&words, ' ')))
}

fn collect_statements(sql: &Vec<char>) -> (r: Vec<String>)
    ensures
        r.deep_view() == statements_of_sql(sql@),
{
    let pieces = crate::text::split(&strip_comments(sql), Separator::Mark(';'));
    let ghost all = pieces.deep_view();
    let mut statements: Vec<String> = Vec::new();
    let mut i: usize = 0;
    while i < pieces.len()
        invariant
            i <= pieces@.len(),
            all == pieces.deep_view(),
            all == fields(uncommented(sql@), Separator::Mark(';')),
            statements@.len() == i,
            forall|j: int| 0 <= j < i ==> (#[trigger] statements@[j])@ == plain_statement(all[j]),
        decreases pieces.len() - i,
    {
        assert(all[i as int] == pieces@[i as int]@);
        statements.push(simplify(&pieces[i]));
        i += 1;
    }
    assert(statements.deep_view() =~= statements_of_sql(sql@));
    statements
}

/// Derives the anonymous access that migrations grant.
pub fn derive_anon_access(migrations: &Vec<Migration>, schema: &str, config_path: &str) -> (r: Result<
    AnonAccess,
    DeriveError,
>)
    ensures
        match r {
            Ok(access) => granted_access(migrations.deep_view(), schema@, config_path@) == Ok::<
                AnonAccess,
                DeriveErrorView,
            >(access),
            Err(error) => granted_access(migrations.deep_view(), schema@, config_path@) == Err::<
                AnonAccess,
                DeriveErrorView,
            >(error@),
        },
{
    let statements = collect_statements(&collect_sql(migrations));
    let usage_text = "grant usage on schema ".to_owned().plus(schema).plus(" to anon");
    let select_text = "grant select on all tables in schema ".to_owned().plus(schema).plus(
        " to anon",
    );
    let usage = crate::text::is_member(usage_text.as_str(), &statements);
    let select = crate::text::is_member(select_text.as_str(), &statements);
    if usage && select {
        Ok(AnonAccess::Read)
    } else if !usage && !select {
        Ok(AnonAccess::NoAccess)
    } else {
        invalid(
            config_path,
            "native anon-read policy for schema ".to_owned().plus(debug(schema).as_str()).plus(
                " is incomplete: migrations must contain both `grant usage on schema ",
            ).plus(schema).plus(" to anon` and `grant select on all tables in schema ").plus(
                schema,
            ).plus(" to anon`, or neither"),
        )
    }
}

// ---------------------------------------------------------------------------
// Components
// ---------------------------------------------------------------------------

/// A native project, as it was read.
#[derive(Debug, PartialEq, Eq)]
pub struct NativeProject {
    /// Path of the configuration, for messages.
    pub config_path: String,
    /// Name of the repository's directory, if it is UTF-8.
    pub directory_name: Option<String>,
    /// The configuration, or why it cannot be had.
    pub config: Result<SupabaseConfig, DeriveError>,
    /// The selected migration files in their order, or why the directory cannot be read. A
    /// directory that does not exist has no files.
    pub files: Result<Vec<MigrationFile>, DeriveError>,
}

/// What a [`NativeProject`] holds.
#[verifier::ext_equal]
pub struct NativeProjectView {
    pub config_path: Seq<char>,
    pub directory_name: Option<Seq<char>>,
    pub config: Result<SupabaseConfigView, DeriveErrorView>,
    pub files: Result<Seq<MigrationFileView>, DeriveErrorView>,
}

impl DeepView for NativeProject {
    type V = NativeProjectView;

    open spec fn deep_view(&self) -> NativeProjectView {
        NativeProjectView {
            config_path: self.config_path@,
            directory_name: match self.directory_name {
                Some(value) => Some(value@),
                None => None,
            },
            config: match self.config {
                Ok(value) => Ok(value@),
                Err(error) => Err(error@),
            },
            files: match self.files {
                Ok(value) => Ok(value.deep_view()),
                Err(error) => Err(error@),
            },
        }
    }
}

impl View for NativeProject {
    type V = NativeProjectView;

    open spec fn view(&self) -> NativeProjectView {
        self.deep_view()
    }
}

/// The producers of the first inputs of a migration, in ascending order.
pub open spec fn producers_of(
    known: Seq<Seq<u8>>,
    inputs: Seq<InputSlotView>,
    count: int,
) -> Seq<Seq<u8>>
    decreases count,
{
    if count <= 0 {
        known
    } else {
        placed(
            producers_of(known, inputs, count - 1),
            inputs[count - 1].producer_component_spec_hash,
        )
    }
}

/// The producers of the first migrations' inputs, in ascending order.
pub open spec fn dependencies_of(migrations: Seq<MigrationView>, count: int) -> Seq<Seq<u8>>
    decreases count,
{
    if count <= 0 {
        seq![]
    } else {
        let migration = migrations[count - 1];
        producers_of(
            dependencies_of(migrations, count - 1),
            migration.inputs,
            migration.inputs.len() as int,
        )
    }
}

/// A schema's property that is a text.
pub open spec fn text_property() -> JsonView {
    object_of(seq![("type"@, JsonView::Text("string"@))])
}

/// The members of a property that is a URI.
pub open spec fn uri_members() -> Seq<(Seq<char>, JsonView)> {
    seq![("format"@, JsonView::Text("uri"@)), ("type"@, JsonView::Text("string"@))]
}

/// A schema's property that is a URI.
pub open spec fn uri_property() -> JsonView {
    object_of(uri_members())
}

/// The properties that every component publishes.
pub open spec fn output_properties() -> Seq<(Seq<char>, JsonView)> {
    seq![
        ("anonKeyRef"@, text_property()),
        ("apiUrl"@, uri_property()),
        ("database"@, text_property()),
        ("databaseUrlRef"@, text_property()),
        ("project"@, text_property()),
        ("restUrl"@, uri_property()),
        ("schema"@, text_property()),
    ]
}

/// The names of the properties that every component publishes.
pub open spec fn required_outputs() -> Seq<Seq<char>> {
    seq![
        "project"@,
        "database"@,
        "schema"@,
        "apiUrl"@,
        "restUrl"@,
        "databaseUrlRef"@,
        "anonKeyRef"@,
    ]
}

/// The members of the fixed output contract.
pub open spec fn contract_members() -> Seq<(Seq<char>, JsonView)> {
    seq![
        ("$schema"@, JsonView::Text("https://json-schema.org/draft/2020-12/schema"@)),
        ("additionalProperties"@, JsonView::Bool(false)),
        ("properties"@, object_of(output_properties())),
        ("required"@, text_array(required_outputs())),
        ("type"@, JsonView::Text("object"@)),
    ]
}

/// The fixed output contract.
pub open spec fn output_contract() -> JsonView {
    object_of(contract_members())
}

impl NativeProjectView {
    /// The component's name, or why there is none.
    pub open spec fn name(self, config: SupabaseConfigView) -> Result<Seq<char>, DeriveErrorView> {
        if trim_text(config.project_id).len() > 0 {
            Ok(config.project_id)
        } else {
            match self.directory_name {
                Some(name) => if name.len() > 0 {
                    Ok(name)
                } else {
                    Err(self.nameless())
                },
                None => Err(self.nameless()),
            }
        }
    }

    /// There is no name.
    pub open spec fn nameless(self) -> DeriveErrorView {
        violation(
            self.config_path,
            "project_id is empty and the repository directory has no UTF-8 name"@,
        )
    }

    /// The component of a name, a schema, its migrations and its access.
    pub open spec fn component(
        self,
        config: SupabaseConfigView,
        name: Seq<char>,
        migrations: Seq<MigrationView>,
        anon_access: AnonAccess,
    ) -> DerivedComponentView {
        let schema = schema_of_name(name);
        DerivedComponentView {
            name,
            connector: crate::CONNECTOR_NAME@,
            outputs_schema: output_contract(),
            depends_on: dependencies_of(migrations, migrations.len() as int),
            connector_context: ComponentContextView {
                api_version: crate::context::API_VERSION@,
                resource_id: schema,
                target: TargetContextView {
                    stack: "local"@,
                    project: "henosis-local"@,
                    database: "postgres"@,
                    schema,
                },
                migrations,
                api: ApiContextView {
                    expose: config.api.enabled && config.api.schemas.contains(schema),
                    anon_access,
                },
            },
        }
    }

    /// The component that the project stands for, before its context is held to the boundary.
    pub open spec fn candidate(self) -> Result<DerivedComponentView, DeriveErrorView> {
        match self.config {
            Err(error) => Err(error),
            Ok(config) => match self.name(config) {
                Err(error) => Err(error),
                Ok(name) => if !input_name(schema_of_name(name)) {
                    Err(
                        violation(
                            self.config_path,
                            "project_id "@ + debug_text(name)
                                + " cannot derive a PostgreSQL schema; use lowercase letters, digits, hyphens, or underscores"@,
                        ),
                    )
                } else if !config.db.migrations.enabled {
                    Err(
                        violation(
                            self.config_path,
                            "[db.migrations].enabled must remain true because native migrations are the component source"@,
                        ),
                    )
                } else {
                    match self.files {
                        Err(error) => Err(error),
                        Ok(files) => match migrations_up_to(files, files.len() as int) {
                            Err(error) => Err(error),
                            Ok(migrations) => match granted_access(
                                migrations,
                                schema_of_name(name),
                                self.config_path,
                            ) {
                                Err(error) => Err(error),
                                Ok(access) => Ok(self.component(config, name, migrations, access)),
                            },
                        },
                    }
                },
            },
        }
    }

    /// The component that the project stands for, given what decoding its context bytes gives.
    pub open spec fn derived(
        self,
        decoded: Result<ComponentContextView, Seq<char>>,
    ) -> Result<DerivedComponentView, DeriveErrorView> {
        match self.candidate() {
            Err(error) => Err(error),
            Ok(component) => match decoded {
                Err(detail) => Err(
                    violation(self.config_path, ContextErrorView::Json(detail).message()),
                ),
                Ok(context) => match context.boundary_complaint() {
                    Some(complaint) => Err(
                        violation(
                            self.config_path,
                            ContextErrorView::Invalid(complaint).message(),
                        ),
                    ),
                    None => Ok(component),
                },
            },
        }
    }
}

fn collect_dependencies(migrations: &Vec<Migration>) -> (r: Vec<Vec<u8>>)
    ensures
        r.deep_view() == dependencies_of(migrations.deep_view(), migrations@.len() as int),
        ascending(r.deep_view()),
{
    let ghost all = migrations.deep_view();
    let mut producers: Vec<Vec<u8>> = Vec::new();
    let mut i: usize = 0;
    assert(producers.deep_view() =~= dependencies_of(all, 0));
    while i < migrations.len()
        invariant
            i <= migrations@.len(),
            all == migrations.deep_view(),
            producers.deep_view() == dependencies_of(all, i as int),
            ascending(producers.deep_view()),
        decreases migrations.len() - i,
    {
        let inputs = &migrations[i].inputs;
        assert(all[i as int].inputs == inputs.deep_view());
        let ghost known = producers.deep_view();
        let mut k: usize = 0;
        while k < inputs.len()
            invariant
                k <= inputs@.len(),
                producers.deep_view() == producers_of(known, inputs.deep_view(), k as int),
                ascending(producers.deep_view()),
            decreases inputs.len() - k,
        {
            assert(inputs.deep_view()[k as int] == inputs@[k as int]@);
            crate::order::place_bytes(
                &mut producers,
                vstd::slice::slice_to_vec(&inputs[k].producer_component_spec_hash),
            );
            k += 1;
        }
        i += 1;
    }
    producers
}

fn text_value() -> (r: serde_json::Value)
    ensures
        json_of(r) == text_property(),
{
    let members = Members::new().with_text("type", "string");
    assert(members@ =~= seq![("type"@, JsonView::Text("string"@))]);
    members.finish()
}

fn uri_value() -> (r: serde_json::Value)
    ensures
        json_of(r) == uri_property(),
{
    let members = Members::new().with_text("format", "uri").with_text("type", "string");
    assert(members@ =~= uri_members());
    members.finish()
}

/// The fixed output contract.
pub fn output_schema() -> (r: serde_json::Value)
    ensures
        json_of(r) == output_contract(),
{
    let properties = Members::new().with("anonKeyRef", text_value()).with(
        "apiUrl",
        uri_value(),
    ).with("database", text_value()).with("databaseUrlRef", text_value()).with(
        "project",
        text_value(),
    ).with("restUrl", uri_value()).with("schema", text_value());
    assert(properties@ =~= output_properties());
    let required = vec![
        "project".to_owned(),
        "database".to_owned(),
        "schema".to_owned(),
        "apiUrl".to_owned(),
        "restUrl".to_owned(),
        "databaseUrlRef".to_owned(),
        "anonKeyRef".to_owned(),
    ];
    assert(required.deep_view() =~= required_outputs());
    let members = Members::new().with_text(
        "$schema",
        "https://json-schema.org/draft/2020-12/schema",
    ).with("additionalProperties", crate::json::boolean(false)).with(
        "properties",
        properties.finish(),
    ).with("required", crate::json::texts(&required)).with_text("type", "object");
    assert(members@ =~= contract_members());
    members.finish()
}

fn choose_name(project: &NativeProject, config: &SupabaseConfig) -> (r: Result<String, DeriveError>)
    ensures
        outcome(r) == project@.name(config@),
{
    if crate::text::trim(&crate::text::chars(config.project_id.as_str())).len() > 0 {
        return Ok(config.project_id.clone());
    }
    match &project.directory_name {
        Some(name) => {
            let size: usize = crate::text::chars(name.as_str()).len();
            if size > 0 {
                return Ok(name.clone());
            }
        },
        None => {},
    }
    invalid(
        project.config_path.as_str(),
        "project_id is empty and the repository directory has no UTF-8 name".to_owned(),
    )
}

impl Clone for DeriveError {
    fn clone(&self) -> (r: Self)
        ensures
            r@ == self@,
    {
        match self {
            DeriveError::Read { path, source } => DeriveError::Read {
                path: path.clone(),
                source: source.clone(),
            },
            DeriveError::Toml { path, source } => DeriveError::Toml {
                path: path.clone(),
                source: source.clone(),
            },
            DeriveError::Invalid { path, message } => DeriveError::Invalid {
                path: path.clone(),
                message: message.clone(),
            },
            DeriveError::Serialize { source } => DeriveError::Serialize {
                source: source.clone(),
            },
        }
    }
}

/// Derives the component of a project, before its context is held to the boundary.
pub fn derive_candidate(project: &NativeProject) -> (r: Result<DerivedComponent, DeriveError>)
    ensures
        outcome(r) == project@.candidate(),
{
    let config_path = project.config_path.as_str();
    let config = match &project.config {
        Ok(config) => config,
        Err(error) => {
            return Err(error.clone());
        },
    };
    let name = match choose_name(project, config) {
        Ok(name) => name,
        Err(error) => {
            return Err(error);
        },
    };
    let schema = match native_schema(name.as_str(), config_path) {
        Ok(schema) => schema,
        Err(error) => {
            return Err(error);
        },
    };
    if !config.db.migrations.enabled {
        return invalid(
            config_path,
            "[db.migrations].enabled must remain true because native migrations are the component source".to_owned(),
        );
    }
    let expose = config.api.enabled && crate::text::is_member(
        schema.as_str(),
        &config.api.schemas,
    );
    let files = match &project.files {
        Ok(files) => files,
        Err(error) => {
            return Err(error.clone());
        },
    };
    let migrations = match derive_migrations(files) {
        Ok(migrations) => migrations,
        Err(error) => {
            return Err(error);
        },
    };
    let anon_access = match derive_anon_access(&migrations, schema.as_str(), config_path) {
        Ok(access) => access,
        Err(error) => {
            return Err(error);
        },
    };
    let depends_on = collect_dependencies(&migrations);
    Ok(
        DerivedComponent {
            name,
            connector: crate::CONNECTOR_NAME.to_owned(),
            outputs_schema: output_schema(),
            depends_on,
            connector_context: ComponentContext {
                api_version: crate::context::API_VERSION.to_owned(),
                resource_id: schema.clone(),
                target: TargetContext {
                    stack: "local".to_owned(),
                    project: "henosis-local".to_owned(),
                    database: "postgres".to_owned(),
                    schema,
                },
                migrations,
                api: ApiContext { expose, anon_access },
            },
        },
    )
}

/// Derives the component of a project. Its context is held to the connector's own boundary
/// validation, as decoding its bytes gives it, rather than to a second spelling of those rules.
pub fn derive_component(project: &NativeProject, decoded: Result<ComponentContext, String>) -> (r: Result<
    DerivedComponent,
    DeriveError,
>)
    ensures
        outcome(r) == project@.derived(outcome(decoded)),
{
    match derive_candidate(project) {
        Err(error) => Err(error),
        Ok(component) => match ComponentContext::from_bytes(decoded) {
            Err(error) => invalid(project.config_path.as_str(), error.message()),
            Ok(_) => Ok(component),
        },
    }
}

impl DerivedComponentView {
    /// The members of the document.
    pub open spec fn members(self) -> Seq<(Seq<char>, JsonView)> {
        seq![
            ("name"@, JsonView::Text(self.name)),
            ("connector"@, JsonView::Text(self.connector)),
            ("outputsSchema"@, self.outputs_schema),
            (
                "dependsOn"@,
                JsonView::Array(
                    Seq::new(self.depends_on.len(), |i: int| byte_array(self.depends_on[i])),
                ),
            ),
            ("connectorContext"@, self.connector_context.document()),
        ]
    }

    /// The component as a document.
    pub open spec fn document(self) -> JsonView {
        object_of(self.members())
    }
}

impl DerivedComponent {
    /// Serializes the opaque connector-owned context bytes sent to core.
    pub fn connector_context_bytes(&self) -> (r: Result<Vec<u8>, DeriveError>)
        ensures
            r matches Ok(bytes) && bytes@ == json_bytes(self@.connector_context.document()),
    {
        Ok(crate::json::to_bytes(&self.connector_context.document()))
    }

    /// Serializes the fixed output JSON Schema sent to core.
    pub fn outputs_schema_bytes(&self) -> (r: Result<Vec<u8>, DeriveError>)
        ensures
            r matches Ok(bytes) && bytes@ == json_bytes(self@.outputs_schema),
    {
        Ok(crate::json::to_bytes(&self.outputs_schema))
    }

    /// The component as a document.
    pub fn document(&self) -> (r: serde_json::Value)
        ensures
            json_of(r) == self@.document(),
    {
        let mut producers: Vec<serde_json::Value> = Vec::new();
        let ghost all = self@.depends_on;
        let mut i: usize = 0;
        while i < self.depends_on.len()
            invariant
                i <= self.depends_on@.len(),
                all == self.depends_on.deep_view(),
                producers@.len() == i,
                forall|j: int| 0 <= j < i ==> json_of(#[trigger] producers@[j]) == byte_array(all[j]),
            decreases self.depends_on.len() - i,
        {
            assert(all[i as int] == self.depends_on@[i as int]@);
            producers.push(crate::json::bytes(&self.depends_on[i]));
            i += 1;
        }
        assert(crate::json::json_all(producers@) =~= Seq::new(
            all.len(),
            |i: int| byte_array(all[i]),
        ));
        let members = Members::new().with_text("name", self.name.as_str()).with_text(
            "connector",
            self.connector.as_str(),
        ).with("outputsSchema", self.outputs_schema.clone()).with(
            "dependsOn",
            crate::json::array(producers),
        ).with("connectorContext", self.connector_context.document());
        assert(members@ =~= self@.members());
        members.finish()
    }
}

}
