//! What is accepted of a component's context, and what is found wrong with it.

use vstd::prelude::*;
use vstd::utf8::encode_utf8;

use crate::context::first_among;
use crate::context::forbidden_verb;
use crate::context::forbidden_verbs;
use crate::context::input_issues;
use crate::context::input_name;
use crate::context::issues_up_to;
use crate::context::logical_id;
use crate::context::migration_id;
use crate::context::reserved_schema;
use crate::context::sql_words;
use crate::context::ComponentContextView;
use crate::context::InputSlotView;
use crate::context::MigrationView;
use crate::context::PlanIssueView;
use crate::hashing::hex_text;
use crate::hashing::sha256_of;
use crate::order::precedes;
use crate::plan_content_laws::earlier;
use crate::plan_content_laws::Place;
use crate::text::debug_text;
use crate::text::decimal_text;
use crate::text::fields;
use crate::text::occupied;
use crate::text::upper_text;
use crate::text::white_space;
use crate::text::Separator;

verus! {

// ---------------------------------------------------------------------------
// Identities
// ---------------------------------------------------------------------------

/// A small letter, a digit or an underscore.
pub open spec fn plain_char(c: char) -> bool {
    'a' <= c <= 'z' || '0' <= c <= '9' || c == '_'
}

/// Resources and schemas are named by up to 63 small letters, digits, underscores and hyphens,
/// beginning with a letter, inputs without hyphens, and migrations by up to 96, beginning with a
/// letter or a digit.
pub proof fn names_are_plain(text: Seq<char>)
    ensures
        logical_id(text) <==> 1 <= text.len() <= 63 && 'a' <= text[0] <= 'z' && forall|i: int|
            0 <= i < text.len() ==> plain_char(#[trigger] text[i]) || text[i] == '-',
        input_name(text) <==> 1 <= text.len() <= 63 && 'a' <= text[0] <= 'z' && forall|i: int|
            0 <= i < text.len() ==> plain_char(#[trigger] text[i]),
        migration_id(text) <==> 1 <= text.len() <= 96 && text[0] != '_' && text[0] != '-'
            && forall|i: int|
            0 <= i < text.len() ==> plain_char(#[trigger] text[i]) || text[i] == '-',
{
    if 1 <= text.len() <= 96 && text[0] != '_' && text[0] != '-' && forall|i: int|
        0 <= i < text.len() ==> plain_char(#[trigger] text[i]) || text[i] == '-' {
        assert(plain_char(text[0]));
    }
    if migration_id(text) {
        assert(crate::context::id_char(text[0]));
    }
}

/// No component owns a schema of PostgreSQL, of Supabase or of the connector.
pub proof fn foreign_schemas_are_reserved(schema: Seq<char>)
    ensures
        reserved_schema(schema) <==> {
            ||| exists|rest: Seq<char>| schema == #[trigger] ("pg_"@ + rest)
            ||| schema == "auth"@
            ||| schema == "extensions"@
            ||| schema == "graphql"@
            ||| schema == "graphql_public"@
            ||| schema == "henosis_connector"@
            ||| schema == "information_schema"@
            ||| schema == "pg_catalog"@
            ||| schema == "public"@
            ||| schema == "realtime"@
            ||| schema == "storage"@
            ||| schema == "supabase_functions"@
            ||| schema == "vault"@
        },
{
    let names = crate::context::reserved_schemas();
    let size = "pg_"@.len() as int;
    if crate::text::starts_with(schema, "pg_"@) {
        assert(schema =~= "pg_"@ + schema.skip(size));
    }
    if exists|rest: Seq<char>| schema == #[trigger] ("pg_"@ + rest) {
        let rest = choose|rest: Seq<char>| schema == #[trigger] ("pg_"@ + rest);
        assert(schema.take(size) =~= "pg_"@);
    }
    if names.contains(schema) {
        let k = names.index_of(schema);
        assert(names[k] == schema);
    }
    assert(names[0] == "auth"@ && names[1] == "extensions"@ && names[2] == "graphql"@);
    assert(names[3] == "graphql_public"@ && names[4] == "henosis_connector"@);
    assert(names[5] == "information_schema"@ && names[6] == "pg_catalog"@ && names[7] == "public"@);
    assert(names[8] == "realtime"@ && names[9] == "storage"@);
    assert(names[10] == "supabase_functions"@ && names[11] == "vault"@);
}

/// A context is inside the boundary exactly if it has the version, names a resource and a schema,
/// selects the one target, and its schema is not reserved.
pub proof fn contexts_are_accepted_inside_the_boundary(context: ComponentContextView)
    ensures
        context.boundary_complaint() is None <==> {
            &&& context.api_version == "henosis.dev/supabase-component-context/v1"@
            &&& logical_id(context.resource_id)
            &&& context.target.stack == "local"@
            &&& context.target.project == "henosis-local"@
            &&& context.target.database == "postgres"@
            &&& logical_id(context.target.schema)
            &&& !reserved_schema(context.target.schema)
        },
{
}

// ---------------------------------------------------------------------------
// Forbidden SQL
// ---------------------------------------------------------------------------

/// The words of a SQL text: what stands between characters that belong to no word.
pub open spec fn words_of(sql: Seq<char>) -> Seq<Seq<char>> {
    fields(sql, Separator::NonWord).filter(|piece: Seq<char>| piece.len() > 0)
}

/// The SQL uses the word, in whatever case.
pub open spec fn uses_word(sql: Seq<char>, word: Seq<char>) -> bool {
    exists|i: int|
        0 <= i < words_of(sql).len() && upper_text(#[trigger] words_of(sql)[i]) == word
}

/// The SQL replaces something that may be there: `create or replace` stands in it, in whatever
/// case.
pub open spec fn replaces(sql: Seq<char>) -> bool {
    exists|i: int|
        0 <= i && i + 2 < words_of(sql).len() && upper_text(#[trigger] words_of(sql)[i])
            == "CREATE"@ && upper_text(words_of(sql)[i + 1]) == "OR"@ && upper_text(
            words_of(sql)[i + 2],
        ) == "REPLACE"@
}

/// The verb is one that additive SQL does not use.
pub open spec fn is_destructive(verb: Seq<char>) -> bool {
    ||| verb == "ALTER"@
    ||| verb == "CALL"@
    ||| verb == "COPY"@
    ||| verb == "DELETE"@
    ||| verb == "DO"@
    ||| verb == "DROP"@
    ||| verb == "MERGE"@
    ||| verb == "REVOKE"@
    ||| verb == "TRUNCATE"@
    ||| verb == "UPDATE"@
}

proof fn words_are_known(sql: Seq<char>, word: Seq<char>)
    ensures
        sql_words(sql).len() == words_of(sql).len(),
        forall|i: int|
            0 <= i < words_of(sql).len() ==> #[trigger] sql_words(sql)[i] == upper_text(
                words_of(sql)[i],
            ),
        sql_words(sql).contains(word) <==> uses_word(sql, word),
{
    crate::text_laws::empty_pieces_are_left_out(fields(sql, Separator::NonWord));
    let words = sql_words(sql);
    assert(occupied(fields(sql, Separator::NonWord)) == words_of(sql));
    if words.contains(word) {
        let k = words.index_of(word);
        assert(upper_text(words_of(sql)[k]) == word);
    }
    if uses_word(sql, word) {
        let k = choose|k: int|
            0 <= k < words_of(sql).len() && upper_text(#[trigger] words_of(sql)[k]) == word;
        assert(words[k] == word);
    }
}

proof fn firsts_are_among(verbs: Seq<Seq<char>>, words: Seq<Seq<char>>)
    ensures
        match first_among(verbs, words) {
            Some(verb) => verbs.contains(verb) && words.contains(verb),
            None => forall|verb: Seq<char>| #[trigger]
                verbs.contains(verb) ==> !words.contains(verb),
        },
    decreases verbs.len(),
{
    if verbs.len() > 0 {
        let rest = verbs.drop_first();
        firsts_are_among(rest, words);
        if words.contains(verbs[0]) {
            assert(verbs.contains(verbs[0]));
        } else {
            assert forall|verb: Seq<char>| #[trigger] verbs.contains(verb) && verb
                != verbs[0] implies rest.contains(verb) by {
                let k = verbs.index_of(verb);
                assert(rest[k - 1] == verb);
            }
            if first_among(rest, words) is Some {
                let k = rest.index_of(first_among(rest, words)->0);
                assert(verbs[k + 1] == rest[k]);
            }
        }
    }
}

proof fn destructive_verbs_are_listed(verb: Seq<char>)
    ensures
        forbidden_verbs().contains(verb) <==> is_destructive(verb),
{
    let verbs = forbidden_verbs();
    if verbs.contains(verb) {
        let k = verbs.index_of(verb);
        assert(verbs[k] == verb);
    }
    assert(verbs[0] == "ALTER"@ && verbs[1] == "CALL"@ && verbs[2] == "COPY"@);
    assert(verbs[3] == "DELETE"@ && verbs[4] == "DO"@ && verbs[5] == "DROP"@);
    assert(verbs[6] == "MERGE"@ && verbs[7] == "REVOKE"@ && verbs[8] == "TRUNCATE"@);
    assert(verbs[9] == "UPDATE"@);
}

/// SQL is additive exactly if it uses no destructive verb, in whatever case, and replaces nothing. A
/// verb that is found is used.
pub proof fn additive_sql_uses_no_destructive_verb(sql: Seq<char>)
    ensures
        match forbidden_verb(sql) {
            Some(verb) => (verb == "CREATE OR REPLACE"@ && replaces(sql)) || (is_destructive(verb)
                && uses_word(sql, verb)),
            None => !replaces(sql) && forall|verb: Seq<char>| #[trigger]
                is_destructive(verb) ==> !uses_word(sql, verb),
        },
{
    let words = sql_words(sql);
    words_are_known(sql, "CREATE"@);
    firsts_are_among(forbidden_verbs(), words);
    if exists|at: int| crate::context::side_by_side(words, at) {
        let at = choose|at: int| crate::context::side_by_side(words, at);
        assert(words[at] == upper_text(words_of(sql)[at]));
        assert(words[at + 1] == upper_text(words_of(sql)[at + 1]));
        assert(words[at + 2] == upper_text(words_of(sql)[at + 2]));
        assert(replaces(sql));
    } else {
        if replaces(sql) {
            let at = choose|i: int|
                0 <= i && i + 2 < words_of(sql).len() && upper_text(#[trigger] words_of(sql)[i])
                    == "CREATE"@ && upper_text(words_of(sql)[i + 1]) == "OR"@ && upper_text(
                    words_of(sql)[i + 2],
                ) == "REPLACE"@;
            assert(words[at] == upper_text(words_of(sql)[at]));
            assert(words[at + 1] == upper_text(words_of(sql)[at + 1]));
            assert(words[at + 2] == upper_text(words_of(sql)[at + 2]));
            assert(crate::context::side_by_side(words, at));
        }
        match first_among(forbidden_verbs(), words) {
            Some(verb) => {
                destructive_verbs_are_listed(verb);
                words_are_known(sql, verb);
            },
            None => {
                assert forall|verb: Seq<char>| #[trigger] is_destructive(verb) implies !uses_word(
                    sql,
                    verb,
                ) by {
                    destructive_verbs_are_listed(verb);
                    words_are_known(sql, verb);
                    assert(forbidden_verbs().contains(verb));
                }
            },
        }
    }
}

// ---------------------------------------------------------------------------
// Issues
// ---------------------------------------------------------------------------

/// The input has a name or an output property that is no plain name.
pub open spec fn misnamed(input: InputSlotView) -> bool {
    !input_name(input.name) || !input_name(input.output)
}

/// Nothing but white space.
pub open spec fn is_blank(text: Seq<char>) -> bool {
    forall|i: int| 0 <= i < text.len() ==> white_space(#[trigger] text[i])
}

/// Something is wrong at the place. The stage of the place is the migration's index. Its component is
/// what is looked at: the identity, the order, the checksum, an input or the SQL. Its item is twice
/// the index of an input, and one more for its name among the others.
pub open spec fn is_wrong_at(migrations: Seq<MigrationView>, place: Place) -> bool {
    let migration = migrations[place.stage];
    &&& 0 <= place.stage < migrations.len()
    &&& if place.component == 0 {
        place.item == 0 && !migration_id(migration.id)
    } else if place.component == 1 {
        place.item == 0 && place.stage > 0 && !precedes(
            migrations[place.stage - 1].id,
            migration.id,
        )
    } else if place.component == 2 {
        place.item == 0 && migration.checksum != "sha256:"@ + hex_text(
            sha256_of(encode_utf8(migration.sql)),
        )
    } else if place.component == 3 {
        &&& 0 <= place.item / 2 < migration.inputs.len()
        &&& if place.item % 2 == 0 {
            misnamed(migration.inputs[place.item / 2])
        } else {
            exists|k: int|
                0 <= k < place.item / 2 && (#[trigger] migration.inputs[k]).name
                    == migration.inputs[place.item / 2].name
        }
    } else {
        place.component == 4 && place.item == 0 && (is_blank(migration.sql) || forbidden_verb(
            migration.sql,
        ) is Some)
    }
}

/// The issue says what is wrong at the place, where, and what to do about it.
pub open spec fn says_what_is_wrong(
    migrations: Seq<MigrationView>,
    place: Place,
    issue: PlanIssueView,
) -> bool {
    let migration = migrations[place.stage];
    let pointer = "/migrations/"@ + decimal_text(place.stage as nat);
    let input = pointer + "/inputs/"@ + decimal_text((place.item / 2) as nat);
    if place.component == 0 {
        &&& issue.code == "supabase.plan.migration-id"@
        &&& issue.message == "migration id "@ + debug_text(migration.id) + " is invalid"@
        &&& issue.pointer == pointer + "/id"@
        &&& issue.help
            == "Use 1-96 lowercase letters, digits, underscores, or hyphens, beginning with a letter or digit."@
    } else if place.component == 1 {
        &&& issue.code == "supabase.plan.migration-order"@
        &&& issue.message == "migration "@ + debug_text(migration.id)
            + " is not strictly after the preceding migration"@
        &&& issue.pointer == pointer + "/id"@
        &&& issue.help == "Keep migration IDs unique and in strictly increasing lexical order."@
    } else if place.component == 2 {
        &&& issue.code == "supabase.plan.migration-checksum"@
        &&& issue.message == "migration "@ + debug_text(migration.id) + " declares checksum "@
            + debug_text(migration.checksum) + ", but its exact SQL hashes to "@ + debug_text(
            "sha256:"@ + hex_text(sha256_of(encode_utf8(migration.sql))),
        )
        &&& issue.pointer == pointer + "/checksum"@
        &&& issue.help
            == "Regenerate checksum as SHA-256 over the exact UTF-8 SQL bytes; never edit an already-applied migration ID."@
    } else if place.component == 3 && place.item % 2 == 0 {
        &&& issue.code == "supabase.input.invalid"@
        &&& issue.message == "migration "@ + debug_text(migration.id) + " input "@ + debug_text(
            migration.inputs[place.item / 2].name,
        ) + " has an invalid name or output property"@
        &&& issue.pointer == input
        &&& issue.help
            == "Use lowercase letters, digits, and underscores, beginning with a letter."@
    } else if place.component == 3 {
        &&& issue.code == "supabase.input.duplicate"@
        &&& issue.message == "migration "@ + debug_text(migration.id) + " declares input "@
            + debug_text(migration.inputs[place.item / 2].name) + " more than once"@
        &&& issue.pointer == input + "/name"@
        &&& issue.help == "Give each migration input a unique setting name."@
    } else if is_blank(migration.sql) {
        &&& issue.code == "supabase.plan.migration-empty"@
        &&& issue.message == "migration "@ + debug_text(migration.id) + " has no SQL"@
        &&& issue.pointer == pointer + "/sql"@
        &&& issue.help == "Remove the migration or provide one additive SQL transition."@
    } else {
        &&& issue.code == "supabase.plan.destructive-unsupported"@
        &&& issue.message == "migration "@ + debug_text(migration.id)
            + " contains v1-unsupported verb "@ + debug_text(forbidden_verb(migration.sql)->0)
        &&& issue.pointer == pointer + "/sql"@
        &&& issue.help
            == "V1 auto-applies additive SQL only; split out destructive or data-rewriting work for a future approval-capable policy."@
    }
}

/// The issues are of the places, one for each. The places come one before the other, and they are all
/// those before the end at which something is wrong.
#[verifier::opaque]
pub open spec fn found_up_to(
    migrations: Seq<MigrationView>,
    issues: Seq<PlanIssueView>,
    places: Seq<Place>,
    end: Place,
) -> bool {
    &&& places.len() == issues.len()
    &&& forall|i: int, j: int|
        0 <= i < j < places.len() ==> earlier(#[trigger] places[i], #[trigger] places[j])
    &&& forall|i: int|
        0 <= i < places.len() ==> {
            &&& earlier(#[trigger] places[i], end)
            &&& is_wrong_at(migrations, places[i])
            &&& says_what_is_wrong(migrations, places[i], issues[i])
        }
    &&& forall|place: Place| #[trigger]
        is_wrong_at(migrations, place) && earlier(place, end) ==> places.contains(place)
}

proof fn find(
    migrations: Seq<MigrationView>,
    issues: Seq<PlanIssueView>,
    places: Seq<Place>,
    at: Place,
    end: Place,
    issue: PlanIssueView,
) -> (all: Seq<Place>)
    requires
        found_up_to(migrations, issues, places, at),
        earlier(at, end),
        forall|place: Place| #[trigger]
            is_wrong_at(migrations, place) && earlier(place, end) && !earlier(place, at) ==> place
                == at,
        is_wrong_at(migrations, at) ==> says_what_is_wrong(migrations, at, issue),
    ensures
        found_up_to(
            migrations,
            issues + crate::model::optional(is_wrong_at(migrations, at), issue),
            all,
            end,
        ),
{
    reveal(found_up_to);
    if is_wrong_at(migrations, at) {
        let more = places.push(at);
        assert(issues + crate::model::optional(true, issue) =~= issues.push(issue));
        assert forall|place: Place| #[trigger]
            is_wrong_at(migrations, place) && earlier(place, end) implies more.contains(place) by {
            if earlier(place, at) {
                let k = places.index_of(place);
                assert(more[k] == place);
            } else {
                assert(more[places.len() as int] == place);
            }
        }
        more
    } else {
        assert(issues + crate::model::optional(false, issue) =~= issues);
        places
    }
}

proof fn input_issues_found(
    migrations: Seq<MigrationView>,
    issues: Seq<PlanIssueView>,
    places: Seq<Place>,
    index: int,
    count: int,
) -> (all: Seq<Place>)
    requires
        0 <= index < migrations.len(),
        0 <= count <= migrations[index].inputs.len(),
        found_up_to(
            migrations,
            issues,
            places,
            Place { stage: index, component: 3, item: 0 },
        ),
    ensures
        found_up_to(
            migrations,
            issues + input_issues(migrations[index], index, count),
            all,
            Place { stage: index, component: 3, item: 2 * count },
        ),
    decreases count,
{
    let migration = migrations[index];
    if count == 0 {
        assert(issues + input_issues(migration, index, 0) =~= issues);
        places
    } else {
        let before = input_issues_found(migrations, issues, places, index, count - 1);
        let sofar = issues + input_issues(migration, index, count - 1);
        let first = Place { stage: index, component: 3, item: 2 * (count - 1) };
        let second = Place { stage: index, component: 3, item: 2 * (count - 1) + 1 };
        let end = Place { stage: index, component: 3, item: 2 * count };
        assert(first.item / 2 == count - 1 && first.item % 2 == 0);
        assert(second.item / 2 == count - 1 && second.item % 2 == 1);
        let invalid = crate::context::input_issue(migration, index, count - 1);
        let duplicate = crate::context::duplicate_issue(migration, index, count - 1);
        reveal_strlit("");
        assert("/migrations/"@ + decimal_text(index as nat) + "/inputs/"@ + decimal_text(
            (count - 1) as nat,
        ) + ""@ =~= "/migrations/"@ + decimal_text(index as nat) + "/inputs/"@ + decimal_text(
            (count - 1) as nat,
        ));
        let with_first = find(migrations, sofar, before, first, second, invalid);
        let more = sofar + crate::model::optional(is_wrong_at(migrations, first), invalid);
        let with_second = find(migrations, more, with_first, second, end, duplicate);
        assert(is_wrong_at(migrations, first) == crate::context::bad_input(
            migration.inputs[count - 1],
        ));
        assert(is_wrong_at(migrations, second) == crate::context::repeats_name(
            migration,
            count - 1,
        ));
        assert(issues + input_issues(migration, index, count) =~= more + crate::model::optional(
            is_wrong_at(migrations, second),
            duplicate,
        ));
        with_second
    }
}

proof fn head_issues_found(
    context: ComponentContextView,
    issues: Seq<PlanIssueView>,
    places: Seq<Place>,
    index: int,
) -> (all: Seq<Place>)
    requires
        0 <= index < context.migrations.len(),
        found_up_to(
            context.migrations,
            issues,
            places,
            Place { stage: index, component: 0, item: 0 },
        ),
    ensures
        ({
            let migrations = context.migrations;
            let migration = migrations[index];
            let actual = context.actual_checksums()[index];
            found_up_to(
                migrations,
                issues + crate::model::optional(
                    !migration_id(migration.id),
                    crate::context::id_issue(migration, index),
                ) + crate::model::optional(
                    crate::context::out_of_order(migrations, index),
                    crate::context::order_issue(migration, index),
                ) + crate::model::optional(
                    migration.checksum != actual,
                    crate::context::checksum_issue(migration, actual, index),
                ),
                all,
                Place { stage: index, component: 3, item: 0 },
            )
        }),
{
    let migrations = context.migrations;
    let migration = migrations[index];
    let actual = context.actual_checksums()[index];
    let a = Place { stage: index, component: 0, item: 0 };
    let b = Place { stage: index, component: 1, item: 0 };
    let c = Place { stage: index, component: 2, item: 0 };
    let d = Place { stage: index, component: 3, item: 0 };
    let id = crate::context::id_issue(migration, index);
    let order = crate::context::order_issue(migration, index);
    let checksum = crate::context::checksum_issue(migration, actual, index);
    let p = find(migrations, issues, places, a, b, id);
    let one = issues + crate::model::optional(is_wrong_at(migrations, a), id);
    let q = find(migrations, one, p, b, c, order);
    let two = one + crate::model::optional(is_wrong_at(migrations, b), order);
    find(migrations, two, q, c, d, checksum)
}

proof fn sql_issue_found(
    migrations: Seq<MigrationView>,
    issues: Seq<PlanIssueView>,
    places: Seq<Place>,
    index: int,
) -> (all: Seq<Place>)
    requires
        0 <= index < migrations.len(),
        found_up_to(
            migrations,
            issues,
            places,
            Place { stage: index, component: 3, item: 2 * migrations[index].inputs.len() as int },
        ),
    ensures
        found_up_to(
            migrations,
            issues + crate::context::sql_issues(migrations[index], index),
            all,
            Place { stage: index + 1, component: 0, item: 0 },
        ),
{
    let migration = migrations[index];
    let e = Place { stage: index, component: 3, item: 2 * migration.inputs.len() as int };
    let f = Place { stage: index, component: 4, item: 0 };
    let end = Place { stage: index + 1, component: 0, item: 0 };
    let id = crate::context::id_issue(migration, index);
    assert(e.item / 2 == migration.inputs.len());
    assert(!is_wrong_at(migrations, e));
    let t = find(migrations, issues, places, e, f, id);
    assert(issues + crate::model::optional(false, id) =~= issues);
    blank_sql_trims_to_nothing(migration.sql);
    let sql = if is_blank(migration.sql) {
        crate::context::empty_issue(migration, index)
    } else {
        crate::context::verb_issue(migration, index, forbidden_verb(migration.sql)->0)
    };
    assert(crate::context::sql_issues(migration, index) =~= crate::model::optional(
        is_wrong_at(migrations, f),
        sql,
    ));
    find(migrations, issues, t, f, end, sql)
}

proof fn issues_found(context: ComponentContextView, count: int) -> (places: Seq<Place>)
    requires
        0 <= count <= context.migrations.len(),
    ensures
        found_up_to(
            context.migrations,
            issues_up_to(context.migrations, context.actual_checksums(), count),
            places,
            Place { stage: count, component: 0, item: 0 },
        ),
    decreases count,
{
    let migrations = context.migrations;
    let actual = context.actual_checksums();
    if count == 0 {
        reveal(found_up_to);
        seq![]
    } else {
        let index = count - 1;
        let migration = migrations[index];
        let before = issues_found(context, index);
        let issues = issues_up_to(migrations, actual, index);
        let head = head_issues_found(context, issues, before, index);
        let id = crate::model::optional(
            !migration_id(migration.id),
            crate::context::id_issue(migration, index),
        );
        let order = crate::model::optional(
            crate::context::out_of_order(migrations, index),
            crate::context::order_issue(migration, index),
        );
        let checksum = crate::model::optional(
            migration.checksum != actual[index],
            crate::context::checksum_issue(migration, actual[index], index),
        );
        let three = issues + id + order + checksum;
        let total = migration.inputs.len() as int;
        let s = input_issues_found(migrations, three, head, index, total);
        let inputs = input_issues(migration, index, total);
        let u = sql_issue_found(migrations, three + inputs, s, index);
        assert(issues_up_to(migrations, actual, count) =~= three + inputs
            + crate::context::sql_issues(migration, index));
        u
    }
}

proof fn blank_sql_trims_to_nothing(text: Seq<char>)
    ensures
        crate::text::trim_text(text).len() == 0 <==> is_blank(text),
{
    crate::text_laws::trimming_takes_white_space(text);
    let (from, to) = choose|from: int, to: int| #[trigger]
        crate::text_laws::trimmed_to(text, from, to) && crate::text::trim_text(text)
            == text.subrange(from, to);
    if from < to {
        assert(!white_space(text[from]));
    } else {
        assert forall|i: int| 0 <= i < text.len() implies white_space(#[trigger] text[i]) by {
            assert(i < from || to <= i);
        }
    }
}

/// The issues of a context are exactly what is wrong with its migrations, each once, migration by
/// migration: the identity, the order, the checksum, every input, and the SQL.
pub proof fn issues_are_what_is_wrong(context: ComponentContextView)
    ensures
        exists|places: Seq<Place>| #[trigger]
            found_up_to(
                context.migrations,
                context.issues(),
                places,
                Place { stage: context.migrations.len() as int, component: 0, item: 0 },
            ),
{
    let places = issues_found(context, context.migrations.len() as int);
    assert(found_up_to(
        context.migrations,
        context.issues(),
        places,
        Place { stage: context.migrations.len() as int, component: 0, item: 0 },
    ));
}

/// A context outside the boundary is refused for the first of these: its version, its resource, its
/// stack, its project, its database, the form of its schema, or a schema that is reserved.
pub proof fn contexts_are_refused_for_the_first_misfit(context: ComponentContextView)
    ensures
        context.boundary_complaint() matches Some(complaint) ==> complaint == if context.api_version
            != "henosis.dev/supabase-component-context/v1"@ {
            "unsupported apiVersion "@ + debug_text(context.api_version) + "; expected "@
                + debug_text("henosis.dev/supabase-component-context/v1"@)
        } else if !logical_id(context.resource_id) {
            "resourceId"@ + " must match [a-z][a-z0-9_-]{0,62}"@
        } else if context.target.stack != "local"@ {
            "target.stack must be the configured v1 stack \"local\""@
        } else if context.target.project != "henosis-local"@ {
            "target.project must be the self-hosted v1 project \"henosis-local\""@
        } else if context.target.database != "postgres"@ {
            "target.database must be the v1 database \"postgres\""@
        } else if !logical_id(context.target.schema) {
            "target.schema"@ + " must match [a-z][a-z0-9_-]{0,62}"@
        } else {
            "target.schema "@ + debug_text(context.target.schema) + " is reserved"@
        },
{
}

}
