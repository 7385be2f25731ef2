//! What holds of every derived component.

use vstd::prelude::*;
use vstd::utf8::encode_utf8;

use crate::authoring::all_sql;
use crate::authoring::dependencies_of;
use crate::authoring::migration_names;
use crate::authoring::migration_of;
use crate::authoring::migrations_up_to;
use crate::authoring::producers_of;
use crate::authoring::schema_of_name;
use crate::authoring::select_grant;
use crate::authoring::sql_names;
use crate::authoring::statements_of_sql;
use crate::authoring::stem_of;
use crate::authoring::usage_grant;
use crate::authoring::MigrationFileView;
use crate::authoring::NativeProjectView;
use crate::context::reserved_schema;
use crate::context::sql_checksum;
use crate::context::AnonAccess;
use crate::context::InputSlotView;
use crate::context::MigrationView;
use crate::order::ascending;
use crate::order::in_order;

verus! {

pub(crate) proof fn each_file_gives_its_migration(files: Seq<MigrationFileView>, count: int)
    requires
        0 <= count <= files.len(),
        migrations_up_to(files, count) is Ok,
    ensures
        migrations_up_to(files, count)->Ok_0.len() == count,
        forall|i: int|
            0 <= i < count ==> migration_of(#[trigger] files[i]) == Ok::<
                MigrationView,
                crate::authoring::DeriveErrorView,
            >(migrations_up_to(files, count)->Ok_0[i]),
    decreases count,
{
    if count > 0 {
        each_file_gives_its_migration(files, count - 1);
    }
}

/// The file's stem is the migration's identity, its exact contents are the SQL, and the checksum is
/// that of the SQL.
pub open spec fn mirrors(migration: MigrationView, file: MigrationFileView) -> bool {
    &&& file.contents is Ok
    &&& encode_utf8(migration.sql) == file.contents->Ok_0
    &&& encode_utf8(migration.id) == stem_of(file.name)
    &&& migration.checksum == sql_checksum(migration.sql)
}

/// A component has one migration for each file, in the files' order: the file's stem is its
/// identity, the file's exact contents are its SQL, and its checksum is that of the SQL.
pub proof fn migrations_are_their_files(project: NativeProjectView)
    requires
        project.candidate() is Ok,
    ensures
        project.files matches Ok(files) && ({
            let migrations = project.candidate()->Ok_0.connector_context.migrations;
            &&& migrations.len() == files.len()
            &&& forall|i: int|
                0 <= i < files.len() ==> mirrors(migrations[i], #[trigger] files[i])
        }),
{
    let files = project.files->Ok_0;
    each_file_gives_its_migration(files, files.len() as int);
    let migrations = project.candidate()->Ok_0.connector_context.migrations;
    assert forall|i: int| 0 <= i < files.len() implies mirrors(
        migrations[i],
        #[trigger] files[i],
    ) by {
        let bytes = files[i].contents->Ok_0;
        vstd::utf8::decode_utf8_encode_utf8(bytes);
        vstd::utf8::decode_utf8_encode_utf8(stem_of(files[i].name));
    }
}

/// The SQL of a derived migration cannot drift from its checksum: none of its checksums is ever a
/// plan issue.
pub proof fn derived_checksums_are_right(project: NativeProjectView, index: int)
    requires
        project.candidate() is Ok,
        0 <= index < project.candidate()->Ok_0.connector_context.migrations.len(),
    ensures
        ({
            let migration = project.candidate()->Ok_0.connector_context.migrations[index];
            migration.checksum == sql_checksum(migration.sql)
        }),
{
    migrations_are_their_files(project);
    let files = project.files->Ok_0;
    let migrations = project.candidate()->Ok_0.connector_context.migrations;
    assert(mirrors(migrations[index], files[index]));
}

/// A derived context is inside the connector's boundary exactly if its schema is not reserved.
pub proof fn derived_contexts_meet_the_boundary(project: NativeProjectView)
    requires
        project.candidate() is Ok,
    ensures
        ({
            let context = project.candidate()->Ok_0.connector_context;
            context.boundary_complaint() is None <==> !reserved_schema(context.target.schema)
        }),
{
}

/// A component whose context bytes decode to its context is derived exactly if its schema is not
/// reserved.
pub proof fn components_survive_their_own_bytes(project: NativeProjectView)
    requires
        project.candidate() is Ok,
    ensures
        ({
            let component = project.candidate()->Ok_0;
            let again = project.derived(
                Ok::<crate::context::ComponentContextView, Seq<char>>(
                    component.connector_context,
                ),
            );
            &&& again is Ok <==> !reserved_schema(component.connector_context.target.schema)
            &&& again matches Ok(result) ==> result == component
        }),
{
    derived_contexts_meet_the_boundary(project);
}

/// A component is exposed exactly if the native API is enabled and lists its schema.
pub proof fn exposure_is_native(project: NativeProjectView)
    requires
        project.candidate() is Ok,
    ensures
        project.config matches Ok(config) && ({
            let component = project.candidate()->Ok_0;
            &&& component.connector_context.target.schema == schema_of_name(component.name)
            &&& component.connector_context.resource_id == schema_of_name(component.name)
            &&& component.connector_context.api.expose <==> config.api.enabled
                && config.api.schemas.contains(schema_of_name(component.name))
        }),
{
}

/// Some input comes from the producer.
pub open spec fn produced_by(inputs: Seq<InputSlotView>, count: int, hash: Seq<u8>) -> bool {
    exists|k: int|
        0 <= k < count && (#[trigger] inputs[k]).producer_component_spec_hash == hash
}

proof fn producers_are_a_set(known: Seq<Seq<u8>>, inputs: Seq<InputSlotView>, count: int)
    requires
        ascending(known),
        count <= inputs.len(),
    ensures
        ascending(producers_of(known, inputs, count)),
        forall|hash: Seq<u8>| #[trigger]
            producers_of(known, inputs, count).contains(hash) <==> known.contains(hash)
                || produced_by(inputs, count, hash),
    decreases count,
{
    if count > 0 {
        producers_are_a_set(known, inputs, count - 1);
        let before = producers_of(known, inputs, count - 1);
        let added = inputs[count - 1].producer_component_spec_hash;
        crate::order::placed_keeps_order(before, added);
        assert forall|hash: Seq<u8>| #[trigger]
            producers_of(known, inputs, count).contains(hash) <==> known.contains(hash)
                || produced_by(inputs, count, hash) by {
            if produced_by(inputs, count, hash) {
                let k = choose|k: int|
                    0 <= k < count && (#[trigger] inputs[k]).producer_component_spec_hash == hash;
                if k < count - 1 {
                    assert(produced_by(inputs, count - 1, hash));
                    assert(before.contains(hash));
                }
            }
            if producers_of(known, inputs, count).contains(hash) {
                if hash == added {
                    assert(inputs[count - 1].producer_component_spec_hash == hash);
                } else {
                    assert(before.contains(hash));
                    if !known.contains(hash) {
                        let k = choose|k: int|
                            0 <= k < count - 1 && (
                            #[trigger] inputs[k]).producer_component_spec_hash == hash;
                        assert(inputs[k].producer_component_spec_hash == hash);
                    }
                }
            }
            if known.contains(hash) {
                assert(before.contains(hash));
            }
        }
    }
}

/// Some input of the first migrations comes from the producer.
pub open spec fn needed_by(migrations: Seq<MigrationView>, count: int, hash: Seq<u8>) -> bool {
    exists|i: int|
        0 <= i < count && produced_by(
            (#[trigger] migrations[i]).inputs,
            migrations[i].inputs.len() as int,
            hash,
        )
}

proof fn dependencies_are_a_set(migrations: Seq<MigrationView>, count: int)
    requires
        count <= migrations.len(),
    ensures
        ascending(dependencies_of(migrations, count)),
        forall|hash: Seq<u8>| #[trigger]
            dependencies_of(migrations, count).contains(hash) <==> needed_by(
                migrations,
                count,
                hash,
            ),
    decreases count,
{
    if count > 0 {
        dependencies_are_a_set(migrations, count - 1);
        let inputs = migrations[count - 1].inputs;
        producers_are_a_set(
            dependencies_of(migrations, count - 1),
            inputs,
            inputs.len() as int,
        );
        assert forall|hash: Seq<u8>| #[trigger]
            dependencies_of(migrations, count).contains(hash) <==> needed_by(
                migrations,
                count,
                hash,
            ) by {
            if needed_by(migrations, count, hash) {
                let i = choose|i: int|
                    0 <= i < count && produced_by(
                        (#[trigger] migrations[i]).inputs,
                        migrations[i].inputs.len() as int,
                        hash,
                    );
                if i < count - 1 {
                    assert(needed_by(migrations, count - 1, hash));
                    assert(dependencies_of(migrations, count - 1).contains(hash));
                }
            }
            if dependencies_of(migrations, count).contains(hash) {
                if dependencies_of(migrations, count - 1).contains(hash) {
                    let i = choose|i: int|
                        0 <= i < count - 1 && produced_by(
                            (#[trigger] migrations[i]).inputs,
                            migrations[i].inputs.len() as int,
                            hash,
                        );
                    assert(produced_by(
                        migrations[i].inputs,
                        migrations[i].inputs.len() as int,
                        hash,
                    ));
                } else {
                    assert(produced_by(
                        migrations[count - 1].inputs,
                        inputs.len() as int,
                        hash,
                    ));
                }
            }
        }
    } else {
        assert forall|hash: Seq<u8>| #[trigger]
            dependencies_of(migrations, count).contains(hash) <==> needed_by(
                migrations,
                count,
                hash,
            ) by {}
    }
}

/// A component depends on exactly the producers of its inputs, each named once, in ascending
/// order.
pub proof fn dependencies_are_the_producers(project: NativeProjectView)
    requires
        project.candidate() is Ok,
    ensures
        ({
            let component = project.candidate()->Ok_0;
            let migrations = component.connector_context.migrations;
            &&& ascending(component.depends_on)
            &&& forall|hash: Seq<u8>| #[trigger]
                component.depends_on.contains(hash) <==> needed_by(
                    migrations,
                    migrations.len() as int,
                    hash,
                )
        }),
{
    let migrations = project.candidate()->Ok_0.connector_context.migrations;
    dependencies_are_a_set(migrations, migrations.len() as int);
}

/// The migration files of a directory are its SQL files, rearranged in the order of their names.
pub proof fn migration_files_are_sorted(names: Seq<Seq<u8>>)
    ensures
        in_order(migration_names(names)),
        migration_names(names).to_multiset() == sql_names(
            names,
            names.len() as int,
        ).to_multiset(),
{
    crate::order::sorting_rearranges(sql_names(names, names.len() as int));
}

/// A component is readable anonymously exactly if its migrations hold both native grants, and is
/// closed exactly if they hold neither: no component has one grant without the other.
pub proof fn read_policy_needs_both_grants(project: NativeProjectView)
    requires
        project.candidate() is Ok,
    ensures
        ({
            let context = project.candidate()->Ok_0.connector_context;
            let statements = statements_of_sql(all_sql(context.migrations));
            let usage = statements.contains(usage_grant(context.target.schema));
            let select = statements.contains(select_grant(context.target.schema));
            &&& usage == select
            &&& context.api.anon_access == AnonAccess::Read <==> usage && select
        }),
{
}

}
