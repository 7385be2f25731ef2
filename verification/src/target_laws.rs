//! What is observed of a target, and what is executed on it.

use vstd::prelude::*;
use vstd::utf8::encode_utf8;

use crate::context::AnonAccess;
use crate::inputs::setting_text;
use crate::inputs::settings_of;
use crate::inputs::settings_up_to;
use crate::inputs::supplied_text;
use crate::json::json_bytes;
use crate::json::JsonView;
use crate::order::ascending;
use crate::order::held;
use crate::order::keys;
use crate::plan::ApiPolicyView;
use crate::plan::ExecutablePlanView;
use crate::plan::OperationView;
use crate::plan::PlannedOperationView;
use crate::slice::DesiredSliceView;
use crate::slice::UpstreamOutputView;
use crate::target::decision_of;
use crate::target::listed_schemas;
use crate::target::quoted;
use crate::target::read_target;
use crate::target::statements_of;
use crate::target::ApplyDecisionView;
use crate::target::ApplyResultView;
use crate::target::ObservationView;
use crate::target::ObservedTargetView;
use crate::target::ProviderFailureView;
use crate::target::QueryView;
use crate::target::StatementView;
use crate::target::TargetTruth;
use crate::text::fields;
use crate::text::joined;
use crate::text::trim_text;
use crate::text::Separator;

verus! {

// ---------------------------------------------------------------------------
// Observing
// ---------------------------------------------------------------------------

proof fn present_schemas_are_noted(truth: TargetTruth, schemas: Seq<Seq<char>>, count: int)
    requires
        0 <= count <= schemas.len(),
    ensures
        ascending(truth.present_among(schemas, count)),
        forall|schema: Seq<char>| #[trigger]
            truth.present_among(schemas, count).contains(schema) <==> (truth.present)(schema)
                && exists|i: int| 0 <= i < count && #[trigger] schemas[i] == schema,
    decreases count,
{
    if count > 0 {
        present_schemas_are_noted(truth, schemas, count - 1);
        let before = truth.present_among(schemas, count - 1);
        let last = schemas[count - 1];
        crate::order::placed_keeps_order(before, last);
        assert forall|schema: Seq<char>| #[trigger]
            truth.present_among(schemas, count).contains(schema) <==> (truth.present)(schema)
                && exists|i: int| 0 <= i < count && #[trigger] schemas[i] == schema by {
            assert(before.contains(schema) || !before.contains(schema));
            if exists|i: int| 0 <= i < count && #[trigger] schemas[i] == schema {
                let i = choose|i: int| 0 <= i < count && #[trigger] schemas[i] == schema;
                assert(i == count - 1 || i < count - 1);
            }
        }
    }
}

proof fn access_is_noted(truth: TargetTruth, schemas: Seq<Seq<char>>, count: int)
    requires
        0 <= count <= schemas.len(),
    ensures
        ascending(keys(truth.access_among(schemas, count))),
        forall|schema: Seq<char>| #[trigger]
            held(truth.access_among(schemas, count), schema) == if exists|i: int|
                0 <= i < count && #[trigger] schemas[i] == schema {
                Some((truth.present)(schema) && (truth.readable)(schema))
            } else {
                None
            },
    decreases count,
{
    if count > 0 {
        access_is_noted(truth, schemas, count - 1);
        let before = truth.access_among(schemas, count - 1);
        let last = schemas[count - 1];
        let flag = (truth.present)(last) && (truth.readable)(last);
        let all = truth.access_among(schemas, count);
        crate::order::put_holds(before, last, flag);
        assert forall|schema: Seq<char>| #[trigger]
            held(all, schema) == if exists|i: int|
                0 <= i < count && #[trigger] schemas[i] == schema {
                Some((truth.present)(schema) && (truth.readable)(schema))
            } else {
                None
            } by {
            if schema != last {
                assert(held(all, schema) == held(before, schema));
                if exists|i: int| 0 <= i < count && #[trigger] schemas[i] == schema {
                    let i = choose|i: int| 0 <= i < count && #[trigger] schemas[i] == schema;
                    assert(i < count - 1);
                }
            }
        }
    } else {
        assert(keys(truth.access_among(schemas, 0)) =~= Seq::<Seq<char>>::empty());
    }
}

/// The name stands in the list: it is not empty, and it is one of the pieces between the commas,
/// without the blanks around it.
pub open spec fn is_listed(listing: Seq<char>, schema: Seq<char>) -> bool {
    let pieces = fields(listing, Separator::Mark(','));
    schema.len() > 0 && exists|i: int|
        0 <= i < pieces.len() && trim_text(#[trigger] pieces[i]) == schema
}

proof fn listed_schemas_are_listed(listing: Seq<char>)
    ensures
        ascending(listed_schemas(listing)),
        forall|schema: Seq<char>| #[trigger]
            listed_schemas(listing).contains(schema) <==> is_listed(listing, schema),
{
    let pieces = fields(listing, Separator::Mark(','));
    let trimmed = Seq::new(pieces.len(), |i: int| trim_text(pieces[i]));
    let names = crate::text::occupied(trimmed);
    crate::plan_laws::set_of_ascends(names);
    crate::text_laws::empty_pieces_are_left_out(trimmed);
    let test = |piece: Seq<char>| piece.len() > 0;
    assert forall|schema: Seq<char>| #[trigger]
        listed_schemas(listing).contains(schema) <==> is_listed(listing, schema) by {
        assert(listed_schemas(listing).contains(schema) <==> names.contains(schema));
        if names.contains(schema) {
            let k = names.index_of(schema);
            trimmed.lemma_filter_pred(test, k);
            trimmed.lemma_filter_contains_rev(test, schema);
            let i = trimmed.index_of(schema);
            assert(trim_text(pieces[i]) == schema);
        }
        if is_listed(listing, schema) {
            let i = choose|i: int|
                0 <= i < pieces.len() && trim_text(#[trigger] pieces[i]) == schema;
            assert(trimmed[i] == schema);
            trimmed.lemma_filter_contains(test, i);
        }
    }
}

/// Observing a target that stays as it is gives the truth about it, and all of it that matters: the
/// identity, whether there is a ledger and what it holds, which of the desired schemas exist, which of
/// them can be read anonymously, and which schemas are listed as exposed.
pub proof fn observation_tells_the_truth(schemas: Seq<Seq<char>>, truth: TargetTruth)
    requires
        schemas.len() <= usize::MAX,
    ensures
        ({
            let observed = read_target(ObservationView::start(schemas), truth);
            &&& observed.identity == truth.identity
            &&& observed.metadata_exists == truth.metadata_exists
            &&& observed.migrations == if truth.metadata_exists {
                truth.receipts
            } else {
                seq![]
            }
            &&& ascending(observed.schemas)
            &&& forall|schema: Seq<char>| #[trigger]
                observed.schemas.contains(schema) <==> schemas.contains(schema) && (truth.present)(
                    schema,
                )
            &&& ascending(keys(observed.anon_read))
            &&& forall|schema: Seq<char>| #[trigger]
                held(observed.anon_read, schema) == if schemas.contains(schema) {
                    Some((truth.present)(schema) && (truth.readable)(schema))
                } else {
                    None
                }
            &&& ascending(observed.exposed_schemas)
            &&& forall|schema: Seq<char>| #[trigger]
                observed.exposed_schemas.contains(schema) <==> is_listed(truth.listing, schema)
        }),
{
    let total = schemas.len() as int;
    let observed = read_target(ObservationView::start(schemas), truth);
    crate::target::observation_gives_truth(schemas, truth);
    present_schemas_are_noted(truth, schemas, total);
    access_is_noted(truth, schemas, total);
    listed_schemas_are_listed(truth.listing);
    assert forall|schema: Seq<char>| #[trigger]
        observed.schemas.contains(schema) <==> schemas.contains(schema) && (truth.present)(
        schema,
    ) by {
        if schemas.contains(schema) {
            let i = schemas.index_of(schema);
            assert(schemas[i] == schema);
        }
    }
    assert forall|schema: Seq<char>| #[trigger]
        held(observed.anon_read, schema) == if schemas.contains(schema) {
            Some((truth.present)(schema) && (truth.readable)(schema))
        } else {
            None
        } by {
        if schemas.contains(schema) {
            let i = schemas.index_of(schema);
            assert(schemas[i] == schema);
        }
    }
}

/// Observing for a level tells of the schema of every component whether it exists, and whether it can
/// be read anonymously.
pub proof fn levels_are_observed_whole(desired: DesiredSliceView, truth: TargetTruth, i: int)
    requires
        desired.components.len() <= usize::MAX,
        0 <= i < desired.components.len(),
    ensures
        ({
            let schema = desired.components[i].context.target.schema;
            let observed = read_target(
                ObservationView::start(crate::target::schemas_of(desired.components)),
                truth,
            );
            &&& observed.schemas.contains(schema) <==> (truth.present)(schema)
            &&& held(observed.anon_read, schema) == Some(
                (truth.present)(schema) && (truth.readable)(schema),
            )
        }),
{
    let schemas = crate::target::schemas_of(desired.components);
    observation_tells_the_truth(schemas, truth);
    assert(schemas[i] == desired.components[i].context.target.schema);
    assert(schemas.contains(schemas[i]));
}

// ---------------------------------------------------------------------------
// Executing
// ---------------------------------------------------------------------------

/// The statement gives or takes what the policy says: usage of the schema and reading of all its
/// tables, those to come included.
pub open spec fn sets_policy(statement: StatementView, policy: ApiPolicyView) -> bool {
    let schema = quoted(policy.schema, '"');
    statement == StatementView::Batch(
        if policy.expose && policy.anon_access == AnonAccess::Read {
            "grant usage on schema "@ + schema + " to anon;grant select on all tables in schema "@
                + schema + " to anon;alter default privileges in schema "@ + schema
                + " grant select on tables to anon;"@
        } else {
            "revoke select on all tables in schema "@ + schema
                + " from anon;revoke usage on schema "@ + schema
                + " from anon;alter default privileges in schema "@ + schema
                + " revoke select on tables from anon;"@
        },
    )
}

/// A binding executes nothing. The ledger and a schema are created if they are missing, closed to the
/// public. The API is exposed with exactly the schemas in order, then every policy is set, then
/// PostgREST is told.
pub proof fn operations_execute_their_sql(
    outputs: Seq<UpstreamOutputView>,
    plan_id: Seq<char>,
    planned: PlannedOperationView,
)
    ensures
        ({
            let statements = statements_of(outputs, plan_id, planned);
            match planned.operation {
                OperationView::EstablishBinding { .. } => statements.len() == 0,
                OperationView::EnsureMetadata => statements == seq![
                    StatementView::Batch(
                        "create schema if not exists henosis_connector;create table if not exists henosis_connector.migration_receipts (resource_id text not null, migration_id text not null, checksum text not null,schema_name text not null, plan_id text not null, operation_id text not null,applied_at timestamptz not null default now(),primary key (resource_id, migration_id));revoke all on schema henosis_connector from public, anon, authenticated;"@,
                    ),
                ],
                OperationView::EnsureSchema { schema, .. } => statements == seq![
                    StatementView::Batch(
                        "create schema if not exists "@ + quoted(schema, '"')
                            + "; revoke all on schema "@ + quoted(schema, '"') + " from public;"@,
                    ),
                ],
                OperationView::ApplyMigration { resource_id, schema, migration } => {
                    let count = statements.len() as int;
                    &&& count >= 3
                    &&& statements[0] == StatementView::Batch(
                        "set local search_path = "@ + quoted(schema, '"')
                            + ", public, extensions;"@,
                    )
                    &&& statements[count - 2] == StatementView::Batch(migration.sql)
                    &&& statements[count - 1] == (StatementView::Execute {
                        sql:
                            "insert into henosis_connector.migration_receipts (resource_id, migration_id, checksum, schema_name, plan_id, operation_id) values ($1, $2, $3, $4, $5, $6)"@,
                        parameters: seq![
                            resource_id,
                            migration.id,
                            migration.checksum,
                            schema,
                            plan_id,
                            planned.id,
                        ],
                    })
                },
                OperationView::ConfigureApi { exposed_schemas, policies } => {
                    &&& statements.len() == policies.len() + 2
                    &&& statements[0] == StatementView::Batch(
                        "alter role postgres set pgrst.db_schemas = "@ + quoted(
                            joined(exposed_schemas, seq![',']),
                            '\'',
                        ) + ";"@,
                    )
                    &&& forall|i: int|
                        0 <= i < policies.len() ==> sets_policy(
                            #[trigger] statements[i + 1],
                            policies[i],
                        )
                    &&& statements.last() == StatementView::Batch(
                        "notify pgrst, 'reload config'; notify pgrst, 'reload schema';"@,
                    )
                },
            }
        }),
{
    let statements = statements_of(outputs, plan_id, planned);
    match planned.operation {
        OperationView::ConfigureApi { policies, .. } => {
            assert forall|i: int| 0 <= i < policies.len() implies sets_policy(
                #[trigger] statements[i + 1],
                policies[i],
            ) by {
                assert(statements[i + 1] == StatementView::Batch(
                    crate::target::grant_sql(policies[i]),
                ));
            }
        },
        OperationView::ApplyMigration { migration, .. } => {
            let count = statements.len() as int;
            assert(statements[count - 2] == StatementView::Batch(migration.sql));
            assert(statements[count - 1] is Execute);
        },
        _ => {},
    }
}

/// A text is set as it is, and any other value as its compact JSON.
pub proof fn values_are_set_as_text(value: JsonView)
    requires
        vstd::utf8::valid_utf8(json_bytes(value)),
    ensures
        match value {
            JsonView::Text(text) => setting_text(value) == text,
            _ => encode_utf8(setting_text(value)) == json_bytes(value),
        },
{
    vstd::utf8::decode_utf8_encode_utf8(json_bytes(value));
}

/// What a producer publishes reaches the inputs that name it: an input is given the property of its
/// output, if the producer's outputs are JSON and have it, and otherwise its default, if it has one.
pub proof fn published_outputs_reach_their_inputs(
    outputs: Seq<UpstreamOutputView>,
    i: int,
    slot: crate::context::InputSlotView,
)
    requires
        0 <= i < outputs.len(),
        outputs[i].component_spec_hash == slot.producer_component_spec_hash,
        forall|j: int|
            0 <= j < i ==> (#[trigger] outputs[j]).component_spec_hash
                != outputs[i].component_spec_hash,
    ensures
        ({
            let bytes = outputs[i].values_json;
            let parsed = crate::json::json_parsed(vstd::utf8::decode_utf8(bytes));
            let published = if vstd::utf8::valid_utf8(bytes) && parsed is Ok {
                crate::json::property_of(crate::json::canonical(parsed->Ok_0), slot.output)
            } else {
                None
            };
            supplied_text(outputs, slot) == if published is Some {
                Some(setting_text(published->0))
            } else if slot.default is Some {
                Some(setting_text(slot.default->0))
            } else {
                None
            }
        }),
{
    crate::inputs::producers_are_found(outputs, i);
}

/// An input whose producer publishes nothing is given its default, if it has one.
pub proof fn defaults_stand_in_for_silent_producers(
    outputs: Seq<UpstreamOutputView>,
    slot: crate::context::InputSlotView,
)
    requires
        forall|i: int|
            0 <= i < outputs.len() ==> (#[trigger] outputs[i]).component_spec_hash
                != slot.producer_component_spec_hash,
    ensures
        supplied_text(outputs, slot) == if slot.default is Some {
            Some(setting_text(slot.default->0))
        } else {
            None
        },
    decreases outputs.len(),
{
    if outputs.len() > 0 {
        let rest = outputs.drop_first();
        assert(outputs[0].component_spec_hash != slot.producer_component_spec_hash);
        assert forall|i: int| 0 <= i < rest.len() implies (
        #[trigger] rest[i]).component_spec_hash != slot.producer_component_spec_hash by {
            assert(rest[i] == outputs[i + 1]);
        }
        defaults_stand_in_for_silent_producers(rest, slot);
    }
}

/// The positions are those of the inputs that have a value, in order, and the statements set them
/// until the transaction ends.
pub open spec fn sets_inputs(
    outputs: Seq<UpstreamOutputView>,
    migration: crate::context::MigrationView,
    count: int,
    positions: Seq<int>,
    statements: Seq<StatementView>,
) -> bool {
    &&& positions.len() == statements.len()
    &&& forall|i: int, k: int|
        0 <= i < k < positions.len() ==> #[trigger] positions[i] < #[trigger] positions[k]
    &&& forall|k: int|
        0 <= k < positions.len() ==> {
            let slot = migration.inputs[#[trigger] positions[k]];
            &&& 0 <= positions[k] < count
            &&& supplied_text(outputs, slot) is Some
            &&& statements[k] == (StatementView::Execute {
                sql: "select set_config($1, $2, true)"@,
                parameters: seq![
                    "henosis.input."@ + slot.name,
                    supplied_text(outputs, slot)->0,
                ],
            })
        }
    &&& forall|i: int|
        0 <= i < count && supplied_text(outputs, #[trigger] migration.inputs[i]) is Some
            ==> positions.contains(i)
}

proof fn inputs_are_set(
    outputs: Seq<UpstreamOutputView>,
    migration: crate::context::MigrationView,
    count: int,
) -> (positions: Seq<int>)
    requires
        0 <= count <= migration.inputs.len(),
    ensures
        sets_inputs(
            outputs,
            migration,
            count,
            positions,
            settings_up_to(outputs, migration, count),
        ),
    decreases count,
{
    if count == 0 {
        seq![]
    } else {
        let before = inputs_are_set(outputs, migration, count - 1);
        let slot = migration.inputs[count - 1];
        if supplied_text(outputs, slot) is Some {
            let positions = before.push(count - 1);
            assert forall|i: int|
                0 <= i < count && supplied_text(
                    outputs,
                    #[trigger] migration.inputs[i],
                ) is Some implies positions.contains(i) by {
                if i < count - 1 {
                    let k = before.index_of(i);
                    assert(positions[k] == i);
                } else {
                    assert(positions[before.len() as int] == i);
                }
            }
            positions
        } else {
            before
        }
    }
}

/// Between the search path and its SQL a migration sets exactly those of its inputs that have a
/// value, in order, each under its name until the transaction ends.
pub proof fn migrations_set_their_inputs(
    outputs: Seq<UpstreamOutputView>,
    plan_id: Seq<char>,
    planned: PlannedOperationView,
)
    requires
        planned.operation is ApplyMigration,
    ensures
        ({
            let migration = planned.operation->ApplyMigration_migration;
            let statements = statements_of(outputs, plan_id, planned);
            exists|positions: Seq<int>| #[trigger]
                sets_inputs(
                    outputs,
                    migration,
                    migration.inputs.len() as int,
                    positions,
                    statements.subrange(1, statements.len() - 2),
                )
        }),
{
    let migration = planned.operation->ApplyMigration_migration;
    let statements = statements_of(outputs, plan_id, planned);
    let positions = inputs_are_set(outputs, migration, migration.inputs.len() as int);
    assert(statements.subrange(1, statements.len() - 2) =~= settings_of(outputs, migration));
}

/// An operation is carried out exactly if the target under the lock is the one that the plan was made
/// from. Otherwise the fresh digest is given back and nothing is executed.
pub proof fn only_fresh_plans_are_carried_out(
    observed: ObservedTargetView,
    outputs: Seq<UpstreamOutputView>,
    plan: ExecutablePlanView,
    plan_id: Seq<char>,
    planned: PlannedOperationView,
)
    ensures
        decision_of(observed, outputs, plan, plan_id, planned) == if observed.digest_text()
            == plan.observed_digest {
            ApplyDecisionView::Commit(statements_of(outputs, plan_id, planned))
        } else {
            ApplyDecisionView::Rollback(
                ApplyResultView::Stale { observed_digest: observed.digest_text() },
            )
        },
        observed.digest_text() == "blake3:"@ + crate::hashing::hex_text(
            crate::hashing::blake3_of(json_bytes(observed.document())),
        ),
{
}

/// What the target says of a refusal is kept verbatim, field by field in a fixed order, and the hint
/// is its help.
pub proof fn refusals_are_kept_verbatim(failure: ProviderFailureView)
    ensures
        ({
            let line = |label: Seq<char>, value: Option<Seq<char>>|
                match value {
                    Some(text) => "\n"@ + label + text,
                    None => ""@,
                };
            &&& failure.diagnostic().code == "supabase.postgres."@ + failure.code
            &&& failure.diagnostic().help == failure.hint
            &&& failure.position is None ==> failure.diagnostic().detail == "severity: "@
                + failure.severity + "\ncode: "@ + failure.code + "\nmessage: "@ + failure.message
                + line("detail: "@, failure.detail) + line("hint: "@, failure.hint) + line(
                "position: "@,
                None,
            ) + line("where: "@, failure.context)
            &&& failure.position matches Some(position) ==> failure.diagnostic().detail
                == "severity: "@ + failure.severity + "\ncode: "@ + failure.code + "\nmessage: "@
                + failure.message + line("detail: "@, failure.detail) + line(
                "hint: "@,
                failure.hint,
            ) + line("position: "@, Some(position.text())) + line("where: "@, failure.context)
        }),
{
}

/// A quoted text begins and ends with the mark, and holds every character of the text in order, a mark
/// twice and any other character once.
pub proof fn quoting_doubles_marks_only(text: Seq<char>, c: char, mark: char)
    ensures
        quoted(seq![], mark) == seq![mark, mark],
        quoted(text.push(c), mark) == quoted(text, mark).drop_last() + (if c == mark {
            seq![mark, mark]
        } else {
            seq![c]
        }) + seq![mark],
{
    assert(text.push(c).drop_last() =~= text);
    assert(quoted(text, mark).drop_last() =~= seq![mark] + crate::text::doubled(text, mark));
    assert(quoted(text.push(c), mark) =~= quoted(text, mark).drop_last() + (if c == mark {
        seq![mark, mark]
    } else {
        seq![c]
    }) + seq![mark]);
    assert(quoted(seq![], mark) =~= seq![mark, mark]);
}

/// Every question is put to the database with its schema, where it is about one. Access counts only if
/// the schema may be used and every table in it may be read.
pub proof fn questions_are_put_in_sql(schema: Seq<char>)
    ensures
        QueryView::Identity.sql()
            == "select current_database(), (select oid::text from pg_database where datname = current_database()), current_setting('server_version_num')"@,
        QueryView::Metadata.sql()
            == "select to_regclass('henosis_connector.migration_receipts') is not null"@,
        QueryView::Schema(schema).sql()
            == "select exists(select 1 from pg_namespace where nspname = $1)"@,
        QueryView::Access(schema).sql()
            == "select has_schema_privilege('anon', $1, 'USAGE') and not exists (select 1 from pg_tables where schemaname = $1 and not has_table_privilege('anon', quote_ident(schemaname) || '.' || quote_ident(tablename), 'SELECT'))"@,
        QueryView::Receipts.sql()
            == "select resource_id, migration_id, checksum from henosis_connector.migration_receipts order by resource_id, migration_id"@,
        QueryView::Exposed.sql()
            == "select coalesce((select split_part(setting, '=', 2) from pg_roles cross join lateral unnest(coalesce(rolconfig, '{}'::text[])) setting where rolname = 'postgres' and setting like 'pgrst.db_schemas=%' limit 1), 'public')"@,
        QueryView::Schema(schema).parameter() == Some(schema),
        QueryView::Access(schema).parameter() == Some(schema),
        QueryView::Identity.parameter() is None,
        QueryView::Metadata.parameter() is None,
        QueryView::Receipts.parameter() is None,
        QueryView::Exposed.parameter() is None,
{
}

}
