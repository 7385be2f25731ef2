//! What a native project derives: which files count, what their names, contents and comments give,
//! and what the component holds.

use vstd::prelude::*;
use vstd::utf8::encode_utf8;
use vstd::utf8::valid_utf8;

use crate::authoring::declared_input;
use crate::authoring::declared_inputs;
use crate::authoring::inputs_up_to;
use crate::authoring::is_sql_name;
use crate::authoring::last_dot;
use crate::authoring::migration_names;
use crate::authoring::sql_names;
use crate::authoring::stem_of;
use crate::authoring::DeriveErrorView;
use crate::authoring::MigrationFileView;
use crate::authoring::NativeProjectView;
use crate::context::AnonAccess;
use crate::context::InputSlotView;
use crate::context::MigrationView;
use crate::hashing::hex_text;
use crate::hashing::sha256_of;
use crate::json::canonical;
use crate::json::json_parsed;
use crate::json::object_of;
use crate::json::text_array;
use crate::json::JsonView;
use crate::order::in_order;
use crate::text::cut_at;
use crate::text::decimal_text;
use crate::text::fields;
use crate::text::joined;
use crate::text::lines_of;
use crate::text::lower_text;
use crate::text::occupied;
use crate::text::occurs_at;
use crate::text::trim_text;
use crate::text::white_space;
use crate::text::Separator;

verus! {

// ---------------------------------------------------------------------------
// File names
// ---------------------------------------------------------------------------

/// The bytes of `.sql`.
pub open spec fn sql_suffix() -> Seq<u8> {
    seq![46u8, 115, 113, 108]
}

/// The name is `.sql` behind a stem of at least one byte, whatever the stem is.
pub open spec fn stem_and_suffix(name: Seq<u8>, stem: Seq<u8>) -> bool {
    stem.len() > 0 && name == stem + sql_suffix()
}

proof fn dots_are_last(name: Seq<u8>)
    ensures
        match last_dot(name) {
            Some(at) => 0 <= at < name.len() && name[at] == 46 && forall|i: int|
                at < i < name.len() ==> #[trigger] name[i] != 46,
            None => forall|i: int| 0 <= i < name.len() ==> #[trigger] name[i] != 46,
        },
    decreases name.len(),
{
    if name.len() > 0 && name.last() != 46 {
        let rest = name.drop_last();
        dots_are_last(rest);
        assert forall|i: int| 0 <= i < rest.len() implies #[trigger] name[i] == rest[i] by {}
    }
}

proof fn suffixed_names_end_at_their_dot(name: Seq<u8>, stem: Seq<u8>)
    requires
        stem_and_suffix(name, stem),
    ensures
        last_dot(name) == Some(stem.len() as int),
        name.take(stem.len() as int) == stem,
        name.skip(stem.len() as int + 1) == seq![115u8, 113, 108],
{
    dots_are_last(name);
    let at = stem.len() as int;
    assert(name[at] == 46 && name[at + 1] == 115 && name[at + 2] == 113 && name[at + 3] == 108);
    assert(name.take(at) =~= stem);
    assert(name.skip(at + 1) =~= seq![115u8, 113, 108]);
}

/// A file counts exactly if its name is `.sql` behind a stem of at least one byte, and then the stem
/// is what stands before the suffix.
pub proof fn sql_files_are_named_by_stems(name: Seq<u8>)
    ensures
        is_sql_name(name) <==> exists|stem: Seq<u8>| #[trigger] stem_and_suffix(name, stem),
        forall|stem: Seq<u8>| #[trigger] stem_and_suffix(name, stem) ==> stem_of(name) == stem,
{
    dots_are_last(name);
    if is_sql_name(name) {
        let at = last_dot(name)->0;
        let stem = name.take(at);
        assert(name.skip(at + 1).len() == 3);
        assert(name[at + 1] == name.skip(at + 1)[0]);
        assert(name[at + 2] == name.skip(at + 1)[1]);
        assert(name[at + 3] == name.skip(at + 1)[2]);
        assert(name =~= stem + sql_suffix());
        assert(stem_and_suffix(name, stem));
    }
    assert forall|stem: Seq<u8>| #[trigger] stem_and_suffix(name, stem) implies is_sql_name(name)
        && stem_of(name) == stem by {
        suffixed_names_end_at_their_dot(name, stem);
    }
}

proof fn sql_names_are_counted(names: Seq<Seq<u8>>, count: int, name: Seq<u8>)
    requires
        0 <= count <= names.len(),
    ensures
        sql_names(names, count).to_multiset().count(name) == if is_sql_name(name) {
            names.take(count).to_multiset().count(name)
        } else {
            0
        },
    decreases count,
{
    broadcast use vstd::seq_lib::group_to_multiset_ensures;

    if count > 0 {
        sql_names_are_counted(names, count - 1, name);
        assert(names.take(count) =~= names.take(count - 1).push(names[count - 1]));
    } else {
        assert(names.take(0) =~= Seq::<Seq<u8>>::empty());
        assert(sql_names(names, 0) =~= Seq::<Seq<u8>>::empty());
    }
}

/// The migration files of a directory are in the order of their names, and they are all the names
/// there that are `.sql` behind a stem, each as often as it is there.
pub proof fn every_sql_file_is_selected(names: Seq<Seq<u8>>, name: Seq<u8>)
    ensures
        in_order(migration_names(names)),
        migration_names(names).to_multiset().count(name) == if exists|stem: Seq<u8>| #[trigger]
            stem_and_suffix(name, stem) {
            names.to_multiset().count(name)
        } else {
            0
        },
{
    crate::order::sorting_rearranges(sql_names(names, names.len() as int));
    sql_names_are_counted(names, names.len() as int, name);
    assert(names.take(names.len() as int) =~= names);
    sql_files_are_named_by_stems(name);
}

// ---------------------------------------------------------------------------
// Migrations
// ---------------------------------------------------------------------------

/// A component has one migration for each file, in the files' order. Its identity is the stem of the
/// file's name, its SQL the file's exact bytes, its checksum the digest of those bytes, and its
/// inputs what the SQL declares.
pub proof fn migrations_are_read_from_their_files(project: NativeProjectView, i: int)
    requires
        project.candidate() is Ok,
        project.files is Ok,
        0 <= i < project.files->Ok_0.len(),
    ensures
        ({
            let migrations = project.candidate()->Ok_0.connector_context.migrations;
            let file = project.files->Ok_0[i];
            let migration = migrations[i];
            &&& migrations.len() == project.files->Ok_0.len()
            &&& file.contents is Ok
            &&& encode_utf8(migration.sql) == file.contents->Ok_0
            &&& forall|stem: Seq<u8>| #[trigger]
                stem_and_suffix(file.name, stem) ==> encode_utf8(migration.id) == stem
            &&& migration.checksum == "sha256:"@ + hex_text(sha256_of(file.contents->Ok_0))
            &&& declared_inputs(migration.sql) == Ok::<Seq<InputSlotView>, Seq<char>>(
                migration.inputs,
            )
        }),
{
    let files = project.files->Ok_0;
    let migrations = project.candidate()->Ok_0.connector_context.migrations;
    crate::authoring_laws::migrations_are_their_files(project);
    crate::authoring_laws::each_file_gives_its_migration(files, files.len() as int);
    assert(crate::authoring_laws::mirrors(migrations[i], files[i]));
    sql_files_are_named_by_stems(files[i].name);
}

// ---------------------------------------------------------------------------
// Inputs
// ---------------------------------------------------------------------------

/// The line declares an input: behind its blanks it begins with the mark. What it declares follows
/// the mark.
pub open spec fn declares(line: Seq<char>, declaration: Seq<char>) -> bool {
    trim_text(line) == "-- henosis:input "@ + declaration
}

proof fn declarations_follow_the_mark(line: Seq<char>)
    ensures
        match crate::authoring::declaration_of(line) {
            Some(declaration) => declares(line, declaration) && forall|other: Seq<char>| #[trigger]
                declares(line, other) ==> other == declaration,
            None => forall|other: Seq<char>| !#[trigger] declares(line, other),
        },
{
    let text = trim_text(line);
    let mark = "-- henosis:input "@;
    let size = mark.len() as int;
    assert forall|other: Seq<char>| #[trigger] declares(line, other) implies {
        &&& size <= text.len()
        &&& text.take(size) == mark
        &&& other == text.skip(size)
    } by {
        assert(text.take(size) =~= mark);
        assert(text.skip(size) =~= other);
    }
    if size <= text.len() && text.take(size) == mark {
        assert(text =~= mark + text.skip(size));
    }
}

/// The lines are exactly those among the first that declare an input, in order, and the inputs are
/// what they declare.
pub open spec fn inputs_of_lines(
    lines: Seq<Seq<char>>,
    count: int,
    positions: Seq<int>,
    inputs: Seq<InputSlotView>,
) -> bool {
    &&& positions.len() == inputs.len()
    &&& forall|i: int, k: int|
        0 <= i < k < positions.len() ==> #[trigger] positions[i] < #[trigger] positions[k]
    &&& forall|k: int|
        0 <= k < positions.len() ==> 0 <= #[trigger] positions[k] < count && exists|
            declaration: Seq<char>,
        | #[trigger]
            declares(lines[positions[k]], declaration) && declared_input(declaration) == Ok::<
                InputSlotView,
                Seq<char>,
            >(inputs[k])
    &&& forall|i: int, declaration: Seq<char>|
        0 <= i < count && #[trigger] declares(lines[i], declaration) ==> positions.contains(i)
}

/// The line is the first that declares something that is no input.
pub open spec fn fails_first(
    lines: Seq<Seq<char>>,
    count: int,
    at: int,
    complaint: Seq<char>,
) -> bool {
    &&& 0 <= at < count
    &&& exists|declaration: Seq<char>|
        {
            &&& #[trigger] declares(lines[at], declaration)
            &&& declared_input(declaration) is Err
            &&& complaint == "line "@ + decimal_text((at + 1) as nat) + ": "@ + declared_input(
                declaration,
            )->Err_0
        }
    &&& forall|i: int, declaration: Seq<char>|
        0 <= i < at && #[trigger] declares(lines[i], declaration) ==> declared_input(
            declaration,
        ) is Ok
}

proof fn inputs_are_listed(lines: Seq<Seq<char>>, count: int) -> (positions: Seq<int>)
    requires
        0 <= count <= lines.len(),
    ensures
        inputs_up_to(lines, count) matches Ok(inputs) ==> inputs_of_lines(
            lines,
            count,
            positions,
            inputs,
        ),
        inputs_up_to(lines, count) is Ok ==> forall|i: int, declaration: Seq<char>|
            0 <= i < count && #[trigger] declares(lines[i], declaration) ==> declared_input(
                declaration,
            ) is Ok,
    decreases count,
{
    if count == 0 {
        seq![]
    } else {
        let before = inputs_are_listed(lines, count - 1);
        let line = lines[count - 1];
        declarations_follow_the_mark(line);
        match inputs_up_to(lines, count - 1) {
            Err(_) => before,
            Ok(inputs) => match crate::authoring::declaration_of(line) {
                None => {
                    assert forall|i: int, other: Seq<char>|
                        0 <= i < count && #[trigger] declares(lines[i], other) implies i < count
                        - 1 by {
                        if i == count - 1 {
                            assert(declares(line, other));
                        }
                    }
                    assert(inputs_of_lines(lines, count, before, inputs));
                    before
                },
                Some(declaration) => match declared_input(declaration) {
                    Err(_) => before,
                    Ok(input) => {
                        let positions = before.push(count - 1);
                        let all = inputs.push(input);
                        assert forall|k: int| 0 <= k < positions.len() implies 0
                            <= #[trigger] positions[k] < count && exists|declaration: Seq<char>|
                         #[trigger]
                            declares(lines[positions[k]], declaration) && declared_input(
                                declaration,
                            ) == Ok::<InputSlotView, Seq<char>>(all[k]) by {
                            if k < before.len() {
                                assert(before[k] == positions[k]);
                                assert(all[k] == inputs[k]);
                            } else {
                                assert(declares(lines[positions[k]], declaration));
                            }
                        }
                        assert forall|i: int, other: Seq<char>|
                            0 <= i < count && #[trigger] declares(
                                lines[i],
                                other,
                            ) implies positions.contains(i) by {
                            if i < count - 1 {
                                let k = before.index_of(i);
                                assert(positions[k] == i);
                            } else {
                                assert(positions[before.len() as int] == i);
                            }
                        }
                        assert forall|i: int, other: Seq<char>|
                            0 <= i < count && #[trigger] declares(
                                lines[i],
                                other,
                            ) implies declared_input(other) is Ok by {
                            if i == count - 1 {
                                assert(declares(line, other));
                            }
                        }
                        assert(inputs_of_lines(lines, count, positions, all));
                        positions
                    },
                },
            },
        }
    }
}

proof fn failures_are_first(lines: Seq<Seq<char>>, count: int)
    requires
        0 <= count <= lines.len(),
        inputs_up_to(lines, count) is Err,
    ensures
        exists|at: int| #[trigger]
            fails_first(lines, count, at, inputs_up_to(lines, count)->Err_0),
    decreases count,
{
    let complaint = inputs_up_to(lines, count)->Err_0;
    let line = lines[count - 1];
    declarations_follow_the_mark(line);
    if inputs_up_to(lines, count - 1) is Err {
        failures_are_first(lines, count - 1);
        let at = choose|at: int| #[trigger]
            fails_first(lines, count - 1, at, inputs_up_to(lines, count - 1)->Err_0);
        assert(fails_first(lines, count, at, complaint));
    } else {
        let positions = inputs_are_listed(lines, count - 1);
        let declaration = crate::authoring::declaration_of(line)->0;
        assert(declares(lines[count - 1], declaration));
        assert(fails_first(lines, count, count - 1, complaint));
    }
}

/// A SQL text declares an input with every line that begins with the mark, in the order of the lines,
/// and fails at the first line that declares something else.
pub proof fn every_marked_line_declares_an_input(sql: Seq<char>)
    ensures
        match declared_inputs(sql) {
            Ok(inputs) => exists|positions: Seq<int>| #[trigger]
                inputs_of_lines(lines_of(sql), lines_of(sql).len() as int, positions, inputs),
            Err(complaint) => exists|at: int| #[trigger]
                fails_first(lines_of(sql), lines_of(sql).len() as int, at, complaint),
        },
{
    let lines = lines_of(sql);
    let positions = inputs_are_listed(lines, lines.len() as int);
    if declared_inputs(sql) is Err {
        failures_are_first(lines, lines.len() as int);
    }
}

proof fn hex_has_no_marks(hash: Seq<u8>)
    ensures
        forall|i: int|
            0 <= i < hex_text(hash).len() ==> {
                let c = #[trigger] hex_text(hash)[i];
                '0' <= c <= '9' || 'a' <= c <= 'f'
            },
        hex_text(hash).len() == 2 * hash.len(),
        encode_utf8(hex_text(hash)).len() == 2 * hash.len(),
        !crate::authoring::has_capital(hex_text(hash)),
{
    let text = hex_text(hash);
    assert forall|i: int| 0 <= i < text.len() implies ({
        let c = #[trigger] text[i];
        '0' <= c <= '9' || 'a' <= c <= 'f'
    }) by {
        assert(0 <= hash[i / 2] as int / 16 < 16);
        assert(0 <= hash[i / 2] as int % 16 < 16);
    }
    assert forall|i: int| 0 <= i < text.len() implies '\0' <= #[trigger] text[i] <= '\u{7f}' by {}
    vstd::utf8::is_ascii_chars_encode_utf8(text);
}

proof fn producers_are_read(hash: Seq<u8>)
    requires
        hash.len() == 32,
    ensures
        crate::authoring::producer_hash(hex_text(hash)) == Ok::<Seq<u8>, Seq<char>>(hash),
{
    crate::hashing::hex_gives_back(hash);
    hex_has_no_marks(hash);
}

/// The declaration of an input without a default.
pub open spec fn plain_declaration(name: Seq<char>, hash: Seq<u8>, output: Seq<char>) -> Seq<char> {
    name + "=${henosis:"@ + hex_text(hash) + "."@ + output + "}"@
}

/// The declaration of an input with a default.
pub open spec fn full_declaration(
    name: Seq<char>,
    hash: Seq<u8>,
    output: Seq<char>,
    default: Seq<char>,
) -> Seq<char> {
    name + "=${henosis:"@ + hex_text(hash) + "."@ + output + ":-"@ + default + "}"@
}

proof fn names_are_cut(name: Seq<char>, rest: Seq<char>)
    requires
        !name.contains('='),
    ensures
        cut_at(name + "="@ + rest, "="@) == Some((name, rest)),
{
    reveal_strlit("=");
    let text = name + "="@ + rest;
    assert forall|i: int| 0 <= i < name.len() implies !#[trigger] occurs_at(text, "="@, i) by {
        if occurs_at(text, "="@, i) {
            assert(text.subrange(i, i + 1)[0] == "="@[0]);
            assert(name[i] == '=');
            assert(name.contains('='));
        }
    }
    crate::text_laws::first_cuts_are_found(name, "="@, rest);
}

proof fn bodies_are_found(body: Seq<char>)
    ensures
        crate::authoring::placeholder_body("${henosis:"@ + body + "}"@) == Some(body),
{
    reveal_strlit("}");
    let mark = "${henosis:"@;
    let text = mark + body + "}"@;
    assert(text.take(mark.len() as int) =~= mark);
    assert(text.skip(mark.len() as int) =~= body + "}"@);
    assert((body + "}"@).last() == '}');
    assert((body + "}"@).drop_last() =~= body);
}

proof fn references_hold_no_default(reference: Seq<char>)
    requires
        !reference.contains(':'),
    ensures
        cut_at(reference, ":-"@) is None,
{
    reveal_strlit(":-");
    crate::text_laws::texts_are_cut_at_the_first_copy(reference, ":-"@);
    if cut_at(reference, ":-"@) is Some {
        let (before, after) = cut_at(reference, ":-"@)->0;
        assert(reference[before.len() as int] == ":-"@[0]);
        assert(reference.contains(':'));
    }
}

proof fn references_end_at_the_default(reference: Seq<char>, default: Seq<char>)
    requires
        !reference.contains(':'),
    ensures
        cut_at(reference + ":-"@ + default, ":-"@) == Some((reference, default)),
{
    reveal_strlit(":-");
    let text = reference + ":-"@ + default;
    assert forall|i: int| 0 <= i < reference.len() implies !#[trigger] occurs_at(
        text,
        ":-"@,
        i,
    ) by {
        if occurs_at(text, ":-"@, i) {
            assert(text.subrange(i, i + 2)[0] == ":-"@[0]);
            assert(reference[i] == ':');
            assert(reference.contains(':'));
        }
    }
    crate::text_laws::first_cuts_are_found(reference, ":-"@, default);
}

proof fn references_name_producer_and_output(hash: Seq<u8>, output: Seq<char>)
    requires
        !output.contains('.'),
        !output.contains(':'),
    ensures
        ({
            let reference = hex_text(hash) + "."@ + output;
            &&& crate::text::cut_at_last(reference, '.') == Some((hex_text(hash), output))
            &&& !reference.contains(':')
        }),
{
    reveal_strlit(".");
    let reference = hex_text(hash) + "."@ + output;
    assert("."@ =~= seq!['.']);
    crate::text_laws::last_cuts_are_found(hex_text(hash), '.', output);
    hex_has_no_marks(hash);
    if reference.contains(':') {
        let k = reference.index_of(':');
        let size = hex_text(hash).len() as int;
        if k < size {
            assert(hex_text(hash)[k] == ':');
        } else if k > size {
            assert(output[k - size - 1] == ':');
            assert(output.contains(':'));
        }
    }
}

/// A declaration gives an input of its name, its producer and its output, and of its default where
/// it has one.
pub proof fn declarations_give_their_input(
    name: Seq<char>,
    hash: Seq<u8>,
    output: Seq<char>,
    default: Seq<char>,
)
    requires
        !name.contains('='),
        hash.len() == 32,
        !output.contains('.'),
        !output.contains(':'),
    ensures
        declared_input(plain_declaration(name, hash, output)) == Ok::<InputSlotView, Seq<char>>(
            InputSlotView {
                name: trim_text(name),
                producer_component_spec_hash: hash,
                output,
                default: None,
            },
        ),
        declared_input(full_declaration(name, hash, output, default)) == match json_parsed(
            default,
        ) {
            Ok(value) => Ok::<InputSlotView, Seq<char>>(
                InputSlotView {
                    name: trim_text(name),
                    producer_component_spec_hash: hash,
                    output,
                    default: Some(canonical(value)),
                },
            ),
            Err(error) => Err("input default must be JSON: "@ + error),
        },
{
    let reference = hex_text(hash) + "."@ + output;
    let body = reference + ":-"@ + default;
    reveal_strlit("=${henosis:");
    reveal_strlit("=");
    reveal_strlit("${henosis:");
    assert("=${henosis:"@ =~= "="@ + "${henosis:"@);
    assert(plain_declaration(name, hash, output) =~= name + "="@ + ("${henosis:"@ + reference
        + "}"@));
    assert(full_declaration(name, hash, output, default) =~= name + "="@ + ("${henosis:"@ + body
        + "}"@));
    names_are_cut(name, "${henosis:"@ + reference + "}"@);
    names_are_cut(name, "${henosis:"@ + body + "}"@);
    bodies_are_found(reference);
    bodies_are_found(body);
    references_name_producer_and_output(hash, output);
    references_hold_no_default(reference);
    references_end_at_the_default(reference, default);
    producers_are_read(hash);
}

/// A declaration that gives an input has this form: its producer is written in 64 lowercase digits,
/// and the input's fields are what it says.
pub proof fn inputs_come_from_their_declaration(declaration: Seq<char>)
    ensures
        declared_input(declaration) matches Ok(input) ==> exists|name: Seq<char>, body: Seq<char>|
            {
                &&& declaration == #[trigger] (name + "="@ + ("${henosis:"@ + body + "}"@))
                &&& !name.contains('=')
                &&& input.name == trim_text(name)
                &&& input.producer_component_spec_hash.len() == 32
                &&& match cut_at(body, ":-"@) {
                    Some((reference, default)) => crate::text::cut_at_last(reference, '.')
                        matches Some((producer, output)) && output == input.output
                        && input.default is Some,
                    None => crate::text::cut_at_last(body, '.') matches Some((producer, output))
                        && output == input.output && input.default is None,
                }
            },
{
    if declared_input(declaration) is Ok {
        let (name, placeholder) = cut_at(declaration, "="@)->0;
        let body = crate::authoring::placeholder_body(placeholder)->0;
        let mark = "${henosis:"@;
        reveal_strlit("=");
        reveal_strlit("}");
        crate::text_laws::texts_are_cut_at_the_first_copy(declaration, "="@);
        assert(placeholder =~= mark + placeholder.skip(mark.len() as int));
        assert(placeholder.skip(mark.len() as int) =~= body + "}"@);
        assert(placeholder =~= mark + body + "}"@);
        assert(declaration == name + "="@ + (mark + body + "}"@));
        if name.contains('=') {
            let k = name.index_of('=');
            assert(declaration.subrange(k, k + 1) =~= "="@);
            assert(occurs_at(declaration, "="@, k));
        }
    }
}

// ---------------------------------------------------------------------------
// Components
// ---------------------------------------------------------------------------

/// The migrations say the statement: without comments, and without regard to blanks and capitals,
/// it is one of those between the semicolons.
pub open spec fn say(migrations: Seq<MigrationView>, statement: Seq<char>) -> bool {
    let lines = lines_of(
        joined(Seq::new(migrations.len(), |i: int| migrations[i].sql), seq!['\n']),
    );
    let bare = joined(
        Seq::new(
            lines.len(),
            |i: int|
                match cut_at(lines[i], "--"@) {
                    Some((before, _)) => before,
                    None => lines[i],
                },
        ),
        seq!['\n'],
    );
    let pieces = fields(bare, Separator::Mark(';'));
    exists|k: int|
        0 <= k < pieces.len() && lower_text(
            joined(occupied(fields(#[trigger] pieces[k], Separator::Blank)), seq![' ']),
        ) == statement
}

/// The name of a component becomes its schema with underscores for hyphens.
pub open spec fn schema_for(name: Seq<char>, schema: Seq<char>) -> bool {
    &&& schema.len() == name.len()
    &&& forall|i: int|
        0 <= i < name.len() ==> #[trigger] schema[i] == if name[i] == '-' {
            '_'
        } else {
            name[i]
        }
}

/// The schema can be derived: up to 63 small letters, digits and underscores, beginning with a
/// letter.
pub open spec fn schema_is_plain(schema: Seq<char>) -> bool {
    &&& 1 <= schema.len() <= 63
    &&& 'a' <= schema[0] <= 'z'
    &&& forall|i: int|
        0 <= i < schema.len() ==> 'a' <= #[trigger] schema[i] <= 'z' || '0' <= schema[i] <= '9'
            || schema[i] == '_'
}

/// Nothing but white space.
pub open spec fn is_blank(text: Seq<char>) -> bool {
    forall|i: int| 0 <= i < text.len() ==> white_space(#[trigger] text[i])
}

proof fn blank_texts_trim_to_nothing(text: Seq<char>)
    ensures
        trim_text(text).len() == 0 <==> is_blank(text),
{
    crate::text_laws::trimming_takes_white_space(text);
    let (from, to) = choose|from: int, to: int| #[trigger]
        crate::text_laws::trimmed_to(text, from, to) && trim_text(text) == text.subrange(from, to);
    if from < to {
        assert(!white_space(text[from]));
    } else {
        assert forall|i: int| 0 <= i < text.len() implies white_space(#[trigger] text[i]) by {
            assert(i < from || to <= i);
        }
    }
}

/// A property of the output contract.
pub open spec fn contract_property(uri: bool) -> JsonView {
    if uri {
        object_of(seq![("format"@, JsonView::Text("uri"@)), ("type"@, JsonView::Text("string"@))])
    } else {
        object_of(seq![("type"@, JsonView::Text("string"@))])
    }
}

/// A component is derived from a project with a readable configuration, a name, a schema that can be
/// derived, enabled and readable migrations, and both grants or neither. It is named after the
/// project, or else after its directory. Its schema is its name with underscores for hyphens, and is
/// its resource too. It is exposed if the API is enabled and lists the schema, and readable if its
/// migrations hold both grants.
pub proof fn components_are_derived_from_projects(project: NativeProjectView)
    ensures
        project.candidate() matches Ok(component) ==> {
            let config = project.config->Ok_0;
            let context = component.connector_context;
            let schema = context.target.schema;
            let usage = say(context.migrations, "grant usage on schema "@ + schema + " to anon"@);
            let select = say(
                context.migrations,
                "grant select on all tables in schema "@ + schema + " to anon"@,
            );
            &&& project.config is Ok
            &&& project.files is Ok
            &&& config.db.migrations.enabled
            &&& if is_blank(config.project_id) {
                project.directory_name == Some(component.name) && component.name.len() > 0
            } else {
                component.name == config.project_id
            }
            &&& component.connector == "supabase"@
            &&& context.api_version == "henosis.dev/supabase-component-context/v1"@
            &&& context.resource_id == schema
            &&& context.target.stack == "local"@
            &&& context.target.project == "henosis-local"@
            &&& context.target.database == "postgres"@
            &&& schema_for(component.name, schema)
            &&& schema_is_plain(schema)
            &&& context.api.expose <==> config.api.enabled && config.api.schemas.contains(schema)
            &&& usage == select
            &&& context.api.anon_access == if usage {
                AnonAccess::Read
            } else {
                AnonAccess::NoAccess
            }
            &&& component.outputs_schema == object_of(
                seq![
                    ("$schema"@, JsonView::Text("https://json-schema.org/draft/2020-12/schema"@)),
                    ("additionalProperties"@, JsonView::Bool(false)),
                    (
                        "properties"@,
                        object_of(
                            seq![
                                ("anonKeyRef"@, contract_property(false)),
                                ("apiUrl"@, contract_property(true)),
                                ("database"@, contract_property(false)),
                                ("databaseUrlRef"@, contract_property(false)),
                                ("project"@, contract_property(false)),
                                ("restUrl"@, contract_property(true)),
                                ("schema"@, contract_property(false)),
                            ],
                        ),
                    ),
                    (
                        "required"@,
                        text_array(
                            seq![
                                "project"@,
                                "database"@,
                                "schema"@,
                                "apiUrl"@,
                                "restUrl"@,
                                "databaseUrlRef"@,
                                "anonKeyRef"@,
                            ],
                        ),
                    ),
                    ("type"@, JsonView::Text("object"@)),
                ],
            )
        },
{
    if project.candidate() is Ok {
        let component = project.candidate()->Ok_0;
        let context = component.connector_context;
        blank_texts_trim_to_nothing(project.config->Ok_0.project_id);
        statements_are_said(
            context.migrations,
            "grant usage on schema "@ + context.target.schema + " to anon"@,
        );
        statements_are_said(
            context.migrations,
            "grant select on all tables in schema "@ + context.target.schema + " to anon"@,
        );
    }
}

proof fn statements_are_said(migrations: Seq<MigrationView>, statement: Seq<char>)
    ensures
        crate::authoring::statements_of_sql(crate::authoring::all_sql(migrations)).contains(
            statement,
        ) <==> say(migrations, statement),
{
    let whole = crate::authoring::all_sql(migrations);
    let lines = lines_of(whole);
    let bare = crate::authoring::uncommented(whole);
    let pieces = fields(bare, Separator::Mark(';'));
    let statements = crate::authoring::statements_of_sql(whole);
    assert(Seq::new(lines.len(), |i: int| crate::authoring::without_comment(lines[i])) =~= Seq::new(
        lines.len(),
        |i: int|
            match cut_at(lines[i], "--"@) {
                Some((before, _)) => before,
                None => lines[i],
            },
    ));
    if statements.contains(statement) {
        let k = statements.index_of(statement);
        assert(statements[k] == crate::authoring::plain_statement(pieces[k]));
        assert(0 <= k < pieces.len());
    }
    if say(migrations, statement) {
        let k = choose|k: int|
            0 <= k < pieces.len() && lower_text(
                joined(occupied(fields(#[trigger] pieces[k], Separator::Blank)), seq![' ']),
            ) == statement;
        assert(statements[k] == statement);
    }
}

/// The file's name and contents are texts, and its marked lines declare inputs.
pub open spec fn is_readable(file: MigrationFileView) -> bool {
    valid_utf8(stem_of(file.name)) && match file.contents {
        Ok(bytes) => valid_utf8(bytes) && declared_inputs(crate::text::text_of(bytes)) is Ok,
        Err(_) => false,
    }
}

/// A project with all of that derives a component.
pub proof fn sound_projects_derive_components(project: NativeProjectView, name: Seq<char>)
    requires
        project.config matches Ok(config) && config.db.migrations.enabled && if is_blank(
            config.project_id,
        ) {
            project.directory_name == Some(name) && name.len() > 0
        } else {
            name == config.project_id
        },
        schema_is_plain(crate::authoring::schema_of_name(name)),
        project.files matches Ok(files) && forall|i: int|
            0 <= i < files.len() ==> is_readable(#[trigger] files[i]),
    ensures
        match project.candidate() {
            Ok(component) => component.name == name,
            Err(error) => {
                let schema = crate::authoring::schema_of_name(name);
                let migrations = crate::authoring::migrations_up_to(
                    project.files->Ok_0,
                    project.files->Ok_0.len() as int,
                )->Ok_0;
                &&& say(migrations, "grant usage on schema "@ + schema + " to anon"@) != say(
                    migrations,
                    "grant select on all tables in schema "@ + schema + " to anon"@,
                )
                &&& error is Invalid
            },
        },
{
    let files = project.files->Ok_0;
    let schema = crate::authoring::schema_of_name(name);
    blank_texts_trim_to_nothing(project.config->Ok_0.project_id);
    all_files_are_read(files, files.len() as int);
    let migrations = crate::authoring::migrations_up_to(files, files.len() as int)->Ok_0;
    statements_are_said(migrations, "grant usage on schema "@ + schema + " to anon"@);
    statements_are_said(
        migrations,
        "grant select on all tables in schema "@ + schema + " to anon"@,
    );
}

proof fn all_files_are_read(files: Seq<MigrationFileView>, count: int)
    requires
        0 <= count <= files.len(),
        forall|i: int|
            0 <= i < files.len() ==> is_readable(#[trigger] files[i]),
    ensures
        crate::authoring::migrations_up_to(files, count) is Ok,
    decreases count,
{
    if count > 0 {
        all_files_are_read(files, count - 1);
        assert(is_readable(files[count - 1]));
    }
}

/// A project that derives no component fails for the first of these: its configuration cannot be
/// read, it has no name, its name gives no schema, its migrations are disabled or cannot be listed, one
/// of them cannot be read, or it holds one grant without the other.
pub proof fn projects_fail_for_a_reason(project: NativeProjectView)
    ensures
        project.candidate() matches Err(error) ==> {
            let config = project.config->Ok_0;
            let named = !is_blank(config.project_id) || (project.directory_name is Some
                && project.directory_name->0.len() > 0);
            let name = if !is_blank(config.project_id) {
                config.project_id
            } else {
                project.directory_name->0
            };
            let schema = crate::authoring::schema_of_name(name);
            if project.config is Err {
                error == project.config->Err_0
            } else if !named {
                error == (DeriveErrorView::Invalid {
                    path: project.config_path,
                    message:
                        "project_id is empty and the repository directory has no UTF-8 name"@,
                })
            } else if !schema_is_plain(schema) {
                error == (DeriveErrorView::Invalid {
                    path: project.config_path,
                    message: "project_id "@ + crate::text::debug_text(name)
                        + " cannot derive a PostgreSQL schema; use lowercase letters, digits, hyphens, or underscores"@,
                })
            } else if !config.db.migrations.enabled {
                error == (DeriveErrorView::Invalid {
                    path: project.config_path,
                    message:
                        "[db.migrations].enabled must remain true because native migrations are the component source"@,
                })
            } else if project.files is Err {
                error == project.files->Err_0
            } else if exists|i: int|
                0 <= i < project.files->Ok_0.len() && !is_readable(
                    #[trigger] project.files->Ok_0[i],
                ) {
                exists|i: int| #[trigger] first_unreadable(project.files->Ok_0, i, error)
            } else {
                error == (DeriveErrorView::Invalid {
                    path: project.config_path,
                    message: "native anon-read policy for schema "@ + crate::text::debug_text(
                        schema,
                    ) + " is incomplete: migrations must contain both `grant usage on schema "@
                        + schema + " to anon` and `grant select on all tables in schema "@ + schema
                        + " to anon`, or neither"@,
                })
            }
        },
{
    if project.candidate() is Err {
        let config = project.config->Ok_0;
        blank_texts_trim_to_nothing(config.project_id);
        if project.config is Ok && project.files is Ok {
            let files = project.files->Ok_0;
            if exists|i: int| 0 <= i < files.len() && !is_readable(#[trigger] files[i]) {
                let i = choose|i: int| 0 <= i < files.len() && !is_readable(#[trigger] files[i]);
                first_failures_are_told(files, files.len() as int, i);
            } else {
                all_files_are_read(files, files.len() as int);
            }
        }
    }
}

/// The file is the first that cannot be read, and the error says why.
pub open spec fn first_unreadable(
    files: Seq<MigrationFileView>,
    at: int,
    error: DeriveErrorView,
) -> bool {
    let file = files[at];
    &&& 0 <= at < files.len()
    &&& forall|i: int| 0 <= i < at ==> is_readable(#[trigger] files[i])
    &&& if !valid_utf8(stem_of(file.name)) {
        error == (DeriveErrorView::Invalid {
            path: file.path,
            message: "migration filename must be UTF-8 and end in .sql"@,
        })
    } else {
        match file.contents {
            Err(source) => error == (DeriveErrorView::Read { path: file.path, source }),
            Ok(bytes) => if !valid_utf8(bytes) {
                error == (DeriveErrorView::Invalid {
                    path: file.path,
                    message: "migration must be UTF-8: "@ + crate::text::utf8_error(bytes),
                })
            } else {
                declared_inputs(crate::text::text_of(bytes)) is Err && error == (
                DeriveErrorView::Invalid {
                    path: file.path,
                    message: declared_inputs(crate::text::text_of(bytes))->Err_0,
                })
            },
        }
    }
}

proof fn first_failures_are_told(files: Seq<MigrationFileView>, count: int, bad: int)
    requires
        0 <= bad < count <= files.len(),
        !is_readable(files[bad]),
    ensures
        crate::authoring::migrations_up_to(files, count) is Err,
        exists|at: int| #[trigger]
            first_unreadable(
                files,
                at,
                crate::authoring::migrations_up_to(files, count)->Err_0,
            ),
    decreases count,
{
    let before = crate::authoring::migrations_up_to(files, count - 1);
    let error = crate::authoring::migrations_up_to(files, count)->Err_0;
    if exists|i: int| 0 <= i < count - 1 && !is_readable(#[trigger] files[i]) {
        let i = choose|i: int| 0 <= i < count - 1 && !is_readable(#[trigger] files[i]);
        first_failures_are_told(files, count - 1, i);
        let at = choose|at: int| #[trigger] first_unreadable(files, at, before->Err_0);
        assert(first_unreadable(files, at, error));
    } else {
        first_files_are_read(files, count - 1);
        assert(first_unreadable(files, count - 1, error));
    }
}

proof fn first_files_are_read(files: Seq<MigrationFileView>, count: int)
    requires
        0 <= count <= files.len(),
        forall|i: int| 0 <= i < count ==> is_readable(#[trigger] files[i]),
    ensures
        crate::authoring::migrations_up_to(files, count) is Ok,
    decreases count,
{
    if count > 0 {
        first_files_are_read(files, count - 1);
        assert(is_readable(files[count - 1]));
    }
}

/// A candidate becomes the component exactly if its own context bytes are read back inside the
/// boundary, and it stays as it is.
pub proof fn candidates_become_components(
    project: NativeProjectView,
    decoded: Result<crate::context::ComponentContextView, Seq<char>>,
)
    ensures
        match project.derived(decoded) {
            Ok(component) => project.candidate() == Ok::<
                crate::authoring::DerivedComponentView,
                DeriveErrorView,
            >(component) && decoded is Ok && decoded->Ok_0.boundary_complaint() is None,
            Err(error) => if project.candidate() is Err {
                error == project.candidate()->Err_0
            } else {
                match decoded {
                    Err(detail) => error == (DeriveErrorView::Invalid {
                        path: project.config_path,
                        message: "invalid "@ + "henosis.dev/supabase-component-context/v1"@
                            + " JSON: "@ + detail,
                    }),
                    Ok(context) => context.boundary_complaint() is Some && error == (
                    DeriveErrorView::Invalid {
                        path: project.config_path,
                        message: "invalid "@ + "henosis.dev/supabase-component-context/v1"@ + ": "@
                            + context.boundary_complaint()->0,
                    }),
                }
            },
        },
{
}

/// A declaration that gives no input fails for the first of these: it has no name, its value is no
/// placeholder, the placeholder names no output, the producer's hash is none, or the default is no
/// JSON.
pub proof fn declarations_fail_for_a_reason(declaration: Seq<char>)
    ensures
        declared_input(declaration) matches Err(complaint) ==> {
            let named = cut_at(declaration, "="@);
            let body = crate::authoring::placeholder_body((named->Some_0).1);
            let parts = cut_at(body->0, ":-"@);
            let reference = if parts is Some {
                (parts->Some_0).0
            } else {
                body->0
            };
            let source = crate::text::cut_at_last(reference, '.');
            let producer = (source->Some_0).0;
            if named is None {
                complaint == "input declaration must be NAME=${henosis:HASH.output}"@
            } else if body is None {
                complaint == "input value must use ${henosis:HASH.output}"@
            } else if source is None {
                complaint == "input reference must contain HASH.output"@
            } else if !crate::hashing::is_hex(producer) {
                complaint == "producer hash is invalid: "@ + crate::hashing::hex_complaint(
                    encode_utf8(producer),
                )
            } else if encode_utf8(producer).len() != 64 || holds_capital(producer) {
                complaint == "producer hash must contain 64 lowercase hexadecimal characters"@
            } else {
                parts is Some && json_parsed((parts->Some_0).1) is Err && complaint
                    == "input default must be JSON: "@ + json_parsed((parts->Some_0).1)->Err_0
            }
        },
{
    if declared_input(declaration) is Err {
        let named = cut_at(declaration, "="@);
        let body = crate::authoring::placeholder_body((named->Some_0).1);
        let parts = cut_at(body->0, ":-"@);
        let reference = if parts is Some {
            (parts->Some_0).0
        } else {
            body->0
        };
        let producer = crate::text::cut_at_last(reference, '.')->Some_0.0;
        capitals_are_known(producer);
    }
}

/// Some character is a capital letter.
pub open spec fn holds_capital(text: Seq<char>) -> bool {
    exists|i: int| 0 <= i < text.len() && 'A' <= #[trigger] text[i] <= 'Z'
}

proof fn capitals_are_known(text: Seq<char>)
    ensures
        crate::authoring::has_capital(text) <==> holds_capital(text),
{
    if crate::authoring::has_capital(text) {
        let i = choose|i: int| 0 <= i < text.len() && crate::text::upper(#[trigger] text[i]);
        assert('A' <= text[i] <= 'Z');
    }
    if holds_capital(text) {
        let i = choose|i: int| 0 <= i < text.len() && 'A' <= #[trigger] text[i] <= 'Z';
        assert(crate::text::upper(text[i]));
    }
}

/// Authoring failures, in words.
pub proof fn authoring_failures_are_told_in_words(error: DeriveErrorView)
    ensures
        error.message() == match error {
            DeriveErrorView::Read { path, source } => "cannot read "@ + path + ": "@ + source,
            DeriveErrorView::Toml { path, source } => "invalid TOML in "@ + path + ": "@ + source,
            DeriveErrorView::Invalid { path, message } => "invalid Supabase component at "@ + path
                + ": "@ + message,
            DeriveErrorView::Serialize { source } => "cannot serialize derived component: "@
                + source,
        },
{
}

}
