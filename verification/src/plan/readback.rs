//! What was written for a plan reads back as the plan.
use vstd::prelude::*;
use vstd::string::*;

use super::file::{
    actions_json, actions_of_text, argv_element, argv_field, command_action_json, command_action_of,
    command_actions_of, patch_action_json, patch_action_of, patch_actions_of, version_error,
};
use super::snapshot::{
    actions_text_in, confirmation_json, confirmation_of, confirmations_of, reads_actions,
    snapshot_json, snapshot_of_text, versions_of, SnapshotModel,
};
use super::{
    actions_error, ActionsModel, CommandActionModel, ConfirmationModel, PatchActionModel,
    PlanErrorModel, PLAN_FORMAT_VERSION, PLAN_SNAPSHOT_VERSION,
};
use crate::json::value::{
    faithful, holds, json_text, lemma_decimal_reads_back, lemma_flat, lemma_has_member,
    lemma_json_texts, lemma_one_member, lemma_one_more_member, lemma_quoted_plain, lemma_reads_back,
    lemma_reads_list, lemma_text_list, lemma_text_list_reads_back, shallow, text_list, JsonValue,
    MAX_DEPTH,
};
use crate::json::{array_text, elements, parsed, quoted, NodeModel};
use crate::text::decimal;

verus! {

/// A patch action as a JSON value.
pub open spec fn patch_value(p: PatchActionModel) -> JsonValue {
    JsonValue::Members(patch_members(p))
}

/// The members of a patch action.
pub open spec fn patch_members(p: PatchActionModel) -> Seq<(Seq<char>, JsonValue)> {
    seq![
        ("id"@, JsonValue::Text(p.id)),
        ("path"@, JsonValue::Text(p.path)),
        ("description"@, JsonValue::Text(p.description)),
    ]
}

/// A command action as a JSON value.
pub open spec fn command_value(c: CommandActionModel) -> JsonValue {
    JsonValue::Members(command_members(c))
}

/// The members of a command action.
pub open spec fn command_members(c: CommandActionModel) -> Seq<(Seq<char>, JsonValue)> {
    seq![
        ("id"@, JsonValue::Text(c.id)),
        ("argv"@, text_list(c.argv)),
        ("description"@, JsonValue::Text(c.description)),
    ]
}

/// The values of patch actions.
pub open spec fn patch_values(v: Seq<PatchActionModel>) -> Seq<JsonValue> {
    v.map_values(|p: PatchActionModel| patch_value(p))
}

/// The values of command actions.
pub open spec fn command_values(v: Seq<CommandActionModel>) -> Seq<JsonValue> {
    v.map_values(|c: CommandActionModel| command_value(c))
}

/// The members of a manifest.
pub open spec fn actions_members(a: ActionsModel) -> Seq<(Seq<char>, JsonValue)> {
    seq![
        ("version"@, JsonValue::Number(PLAN_FORMAT_VERSION as nat)),
        ("patches"@, JsonValue::List(patch_values(a.patches))),
        ("commands"@, JsonValue::List(command_values(a.commands))),
    ]
}

proof fn lemma_quoted_names()
    ensures
        quoted("id"@) == "\"id\""@,
        quoted("path"@) == "\"path\""@,
        quoted("description"@) == "\"description\""@,
        quoted("argv"@) == "\"argv\""@,
        quoted("version"@) == "\"version\""@,
        quoted("patches"@) == "\"patches\""@,
        quoted("commands"@) == "\"commands\""@,
{
    reveal_strlit("id");
    reveal_strlit("\"id\"");
    reveal_strlit("path");
    reveal_strlit("\"path\"");
    reveal_strlit("description");
    reveal_strlit("\"description\"");
    reveal_strlit("argv");
    reveal_strlit("\"argv\"");
    reveal_strlit("version");
    reveal_strlit("\"version\"");
    reveal_strlit("patches");
    reveal_strlit("\"patches\"");
    reveal_strlit("commands");
    reveal_strlit("\"commands\"");
    lemma_quoted_plain("id"@);
    lemma_quoted_plain("path"@);
    lemma_quoted_plain("description"@);
    lemma_quoted_plain("argv"@);
    lemma_quoted_plain("version"@);
    lemma_quoted_plain("patches"@);
    lemma_quoted_plain("commands"@);
    assert(quoted("id"@) =~= "\"id\""@);
    assert(quoted("path"@) =~= "\"path\""@);
    assert(quoted("description"@) =~= "\"description\""@);
    assert(quoted("argv"@) =~= "\"argv\""@);
    assert(quoted("version"@) =~= "\"version\""@);
    assert(quoted("patches"@) =~= "\"patches\""@);
    assert(quoted("commands"@) =~= "\"commands\""@);
}

/// What stands between the values of an action.
proof fn lemma_action_words()
    ensures
        "{"@ + quoted("id"@) + ":"@ == "{\"id\":"@,
        ","@ + quoted("path"@) + ":"@ == ",\"path\":"@,
        ","@ + quoted("argv"@) + ":"@ == ",\"argv\":"@,
        ","@ + quoted("description"@) + ":"@ == ",\"description\":"@,
        ","@ + quoted("commands"@) + ":"@ == ",\"commands\":"@,
{
    lemma_quoted_names();
    reveal_strlit("{");
    reveal_strlit(":");
    reveal_strlit(",");
    reveal_strlit("\"id\"");
    reveal_strlit("\"path\"");
    reveal_strlit("\"argv\"");
    reveal_strlit("\"description\"");
    reveal_strlit("\"commands\"");
    reveal_strlit("{\"id\":");
    reveal_strlit(",\"path\":");
    reveal_strlit(",\"argv\":");
    reveal_strlit(",\"description\":");
    reveal_strlit(",\"commands\":");
    assert("{"@ + "\"id\""@ + ":"@ =~= "{\"id\":"@);
    assert(","@ + "\"path\""@ + ":"@ =~= ",\"path\":"@);
    assert(","@ + "\"argv\""@ + ":"@ =~= ",\"argv\":"@);
    assert(","@ + "\"description\""@ + ":"@ =~= ",\"description\":"@);
    assert(","@ + "\"commands\""@ + ":"@ =~= ",\"commands\":"@);
}

/// How a manifest starts.
proof fn lemma_manifest_words()
    ensures
        ("{"@ + (quoted("version"@) + ":"@ + decimal(1))) + (","@ + quoted("patches"@) + ":"@)
            == "{\"version\":1,\"patches\":"@,
{
    lemma_quoted_names();
    reveal_strlit("{");
    reveal_strlit(":");
    reveal_strlit(",");
    reveal_strlit("\"version\"");
    reveal_strlit("\"patches\"");
    reveal_strlit("{\"version\":1,\"patches\":");
    assert(decimal(1) =~= seq!['1']);
    assert(("{"@ + ("\"version\""@ + ":"@ + seq!['1'])) + (","@ + "\"patches\""@ + ":"@)
        =~= "{\"version\":1,\"patches\":"@);
}

/// The text of an object with three members.
proof fn lemma_three_members(items: Seq<(Seq<char>, JsonValue)>)
    requires
        items.len() == 3,
    ensures
        json_text(JsonValue::Members(items)) == (("{"@ + (quoted(items[0].0) + ":"@ + json_text(
            items[0].1,
        ))) + (","@ + quoted(items[1].0) + ":"@) + json_text(items[1].1)) + (","@ + quoted(
            items[2].0,
        ) + ":"@) + json_text(items[2].1) + "}"@,
{
    let one = seq![items[0]];
    let body1 = quoted(items[0].0) + ":"@ + json_text(items[0].1);
    lemma_one_member(items[0].0, items[0].1);
    lemma_one_more_member(one, items[1].0, items[1].1, body1);
    let two = one.push(items[1]);
    let body2 = body1 + ","@ + (quoted(items[1].0) + ":"@ + json_text(items[1].1));
    lemma_one_more_member(two, items[2].0, items[2].1, body2);
    assert(two.push(items[2]) =~= items);
    lemma_flat("{"@, body1, ","@, quoted(items[1].0), ":"@, json_text(items[1].1), "}"@);
    lemma_flat("{"@, body2, ","@, quoted(items[2].0), ":"@, json_text(items[2].1), "}"@);
}

proof fn lemma_patch_text(p: PatchActionModel)
    ensures
        patch_action_json(p) == json_text(patch_value(p)),
{
    lemma_three_members(patch_members(p));
    lemma_action_words();
    lemma_flat("{"@, Seq::empty(), Seq::empty(), quoted("id"@), ":"@, quoted(p.id), "}"@);
}

proof fn lemma_command_text(c: CommandActionModel)
    ensures
        command_action_json(c) == json_text(command_value(c)),
{
    lemma_three_members(command_members(c));
    lemma_action_words();
    lemma_text_list(c.argv);
    lemma_flat("{"@, Seq::empty(), Seq::empty(), quoted("id"@), ":"@, quoted(c.id), "}"@);
}

/// What is written for a manifest is the text of its members.
pub proof fn lemma_actions_text(a: ActionsModel)
    ensures
        actions_json(a) == json_text(JsonValue::Members(actions_members(a))),
{
    let items = actions_members(a);
    lemma_three_members(items);
    lemma_manifest_words();
    lemma_action_words();
    let patches = a.patches.map_values(|p: PatchActionModel| patch_action_json(p));
    assert forall|k: int| 0 <= k < patches.len() implies #[trigger] patches[k] == json_text(
        patch_values(a.patches)[k],
    ) by {
        lemma_patch_text(a.patches[k]);
    }
    lemma_json_texts(patch_values(a.patches), patches, patches.len());
    assert(patches.take(patches.len() as int) =~= patches);
    let commands = a.commands.map_values(|c: CommandActionModel| command_action_json(c));
    assert forall|k: int| 0 <= k < commands.len() implies #[trigger] commands[k] == json_text(
        command_values(a.commands)[k],
    ) by {
        lemma_command_text(a.commands[k]);
    }
    lemma_json_texts(command_values(a.commands), commands, commands.len());
    assert(commands.take(commands.len() as int) =~= commands);
    assert(json_text(items[1].1) == array_text(patches));
    assert(json_text(items[2].1) == array_text(commands));
}

proof fn lemma_names_differ()
    ensures
        "id"@ != "path"@,
        "id"@ != "description"@,
        "path"@ != "description"@,
        "id"@ != "argv"@,
        "argv"@ != "description"@,
        "version"@ != "patches"@,
        "version"@ != "commands"@,
        "patches"@ != "commands"@,
{
    reveal_strlit("id");
    reveal_strlit("path");
    reveal_strlit("description");
    reveal_strlit("argv");
    reveal_strlit("version");
    reveal_strlit("patches");
    reveal_strlit("commands");
    assert("id"@.len() == 2 && "path"@.len() == 4 && "description"@.len() == 11);
    assert("argv"@.len() == 4 && "version"@.len() == 7 && "patches"@.len() == 7);
    assert("commands"@.len() == 8);
    assert("version"@[0] == 'v' && "patches"@[0] == 'p');
}

proof fn lemma_patch_reads_back(doc: Seq<NodeModel>, i: int, p: PatchActionModel)
    requires
        holds(doc, i, patch_value(p)),
    ensures
        patch_action_of(doc, i) == Ok::<PatchActionModel, PlanErrorModel>(p),
{
    lemma_names_differ();
    let items = patch_members(p);
    lemma_has_member(doc, i, items, 0);
    lemma_has_member(doc, i, items, 1);
    lemma_has_member(doc, i, items, 2);
}

proof fn lemma_command_reads_back(doc: Seq<NodeModel>, i: int, c: CommandActionModel)
    requires
        holds(doc, i, command_value(c)),
    ensures
        command_action_of(doc, i) == Ok::<CommandActionModel, PlanErrorModel>(c),
{
    lemma_names_differ();
    let items = command_members(c);
    lemma_has_member(doc, i, items, 0);
    lemma_has_member(doc, i, items, 1);
    lemma_has_member(doc, i, items, 2);
    let read = |k: int| argv_element(doc, k);
    assert forall|k: int, s: Seq<char>|
        #![trigger holds(doc, k, JsonValue::Text(s))]
        holds(doc, k, JsonValue::Text(s)) implies read(k) == Ok::<Seq<char>, PlanErrorModel>(s) by {}
    lemma_text_list_reads_back(doc, doc[i].values[1], c.argv, read);
    assert(argv_field(doc, i) == Ok::<Seq<Seq<char>>, PlanErrorModel>(c.argv));
}

proof fn lemma_text_list_is_shallow(v: Seq<Seq<char>>, depth: nat)
    requires
        depth > 0,
    ensures
        shallow(text_list(v), depth),
{
    let items = v.map_values(|s: Seq<char>| JsonValue::Text(s));
    assert forall|k: int| 0 <= k < items.len() implies shallow(
        #[trigger] items[k],
        (depth - 1) as nat,
    ) by {
        assert(items[k] == JsonValue::Text(v[k]));
    }
}

/// A manifest is nested four deep.
pub proof fn lemma_actions_are_shallow(a: ActionsModel, depth: nat)
    requires
        depth >= 4,
    ensures
        shallow(JsonValue::Members(actions_members(a)), depth),
{
    let items = actions_members(a);
    let patches = patch_values(a.patches);
    let commands = command_values(a.commands);
    assert forall|k: int| 0 <= k < patches.len() implies shallow(
        #[trigger] patches[k],
        (depth - 2) as nat,
    ) by {
        let inner = patch_members(a.patches[k]);
        assert(patches[k] == JsonValue::Members(inner));
        assert forall|j: int| 0 <= j < inner.len() implies shallow(
            (#[trigger] inner[j]).1,
            (depth - 3) as nat,
        ) by {}
    }
    assert forall|k: int| 0 <= k < commands.len() implies shallow(
        #[trigger] commands[k],
        (depth - 2) as nat,
    ) by {
        let inner = command_members(a.commands[k]);
        assert(commands[k] == JsonValue::Members(inner));
        lemma_text_list_is_shallow(a.commands[k].argv, (depth - 3) as nat);
        assert forall|j: int| 0 <= j < inner.len() implies shallow(
            (#[trigger] inner[j]).1,
            (depth - 3) as nat,
        ) by {}
    }
    assert(shallow(JsonValue::List(patches), (depth - 1) as nat));
    assert(shallow(JsonValue::List(commands), (depth - 1) as nat));
    assert forall|i: int| 0 <= i < items.len() implies shallow(
        (#[trigger] items[i]).1,
        (depth - 1) as nat,
    ) by {}
}

/// A text that was written for a manifest reads back as the manifest, given
/// that it reads back as what it was written for.
pub proof fn law_actions_read_back(a: ActionsModel)
    requires
        actions_error(a) is None,
        faithful(actions_json(a)),
    ensures
        actions_of_text(actions_json(a)) == Ok::<ActionsModel, PlanErrorModel>(a),
{
    let items = actions_members(a);
    lemma_actions_text(a);
    lemma_actions_are_shallow(a, MAX_DEPTH as nat);
    lemma_reads_back(actions_json(a), JsonValue::Members(items));
    let doc = parsed(actions_json(a))->Ok_0;
    lemma_names_differ();
    lemma_has_member(doc, 0, items, 0);
    lemma_has_member(doc, 0, items, 1);
    lemma_has_member(doc, 0, items, 2);
    lemma_decimal_reads_back(PLAN_FORMAT_VERSION as nat, u64::MAX as int);
    assert(version_error(doc) is None);
    let at1 = doc[0].values[1];
    let read1 = |k: int| patch_action_of(doc, k);
    assert forall|k: int| 0 <= k < a.patches.len() implies read1(doc[at1].elements[k]) == Ok::<
        PatchActionModel,
        PlanErrorModel,
    >(#[trigger] a.patches[k]) by {
        assert(patch_values(a.patches)[k] == patch_value(a.patches[k]));
        lemma_patch_reads_back(doc, doc[at1].elements[k], a.patches[k]);
    }
    lemma_reads_list(doc, at1, patch_values(a.patches), read1, a.patches);
    let at2 = doc[0].values[2];
    let read2 = |k: int| command_action_of(doc, k);
    assert forall|k: int| 0 <= k < a.commands.len() implies read2(doc[at2].elements[k]) == Ok::<
        CommandActionModel,
        PlanErrorModel,
    >(#[trigger] a.commands[k]) by {
        assert(command_values(a.commands)[k] == command_value(a.commands[k]));
        lemma_command_reads_back(doc, doc[at2].elements[k], a.commands[k]);
    }
    lemma_reads_list(doc, at2, command_values(a.commands), read2, a.commands);
    assert(patch_actions_of(doc) == Ok::<Seq<PatchActionModel>, PlanErrorModel>(a.patches));
    assert(command_actions_of(doc) == Ok::<Seq<CommandActionModel>, PlanErrorModel>(a.commands));
    assert((ActionsModel { patches: a.patches, commands: a.commands }) == a);
}

/// A confirmation item as a JSON value.
pub open spec fn confirmation_value(c: ConfirmationModel) -> JsonValue {
    JsonValue::Members(confirmation_members(c))
}

/// The members of a confirmation item.
pub open spec fn confirmation_members(c: ConfirmationModel) -> Seq<(Seq<char>, JsonValue)> {
    seq![
        ("id"@, JsonValue::Text(c.id)),
        ("description"@, JsonValue::Text(c.description)),
        ("checked"@, JsonValue::Bool(c.checked)),
    ]
}

/// The values of confirmation items.
pub open spec fn confirmation_values(v: Seq<ConfirmationModel>) -> Seq<JsonValue> {
    v.map_values(|c: ConfirmationModel| confirmation_value(c))
}

/// The members of a snapshot.
pub open spec fn snapshot_members(s: SnapshotModel) -> Seq<(Seq<char>, JsonValue)> {
    seq![
        ("snapshot_version"@, JsonValue::Number(s.snapshot_version as nat)),
        ("plan_format_version"@, JsonValue::Number(s.plan_format_version as nat)),
        ("plan_sha256"@, JsonValue::Text(s.plan_sha256)),
        ("canonical_path"@, JsonValue::Text(s.canonical_path)),
        ("body_markdown"@, JsonValue::Text(s.body_markdown)),
        ("actions"@, JsonValue::Members(actions_members(s.actions))),
        ("confirmations"@, JsonValue::List(confirmation_values(s.confirmations))),
    ]
}

/// Whether a snapshot is one that is stored: of the versions that are read
/// back, with valid actions.
pub open spec fn storable(s: SnapshotModel) -> bool {
    &&& s.snapshot_version == PLAN_SNAPSHOT_VERSION
    &&& s.plan_format_version == PLAN_FORMAT_VERSION
    &&& actions_error(s.actions) is None
}

proof fn lemma_quoted_snapshot_names()
    ensures
        quoted("snapshot_version"@) == "\"snapshot_version\""@,
        quoted("plan_format_version"@) == "\"plan_format_version\""@,
        quoted("plan_sha256"@) == "\"plan_sha256\""@,
        quoted("canonical_path"@) == "\"canonical_path\""@,
        quoted("body_markdown"@) == "\"body_markdown\""@,
        quoted("actions"@) == "\"actions\""@,
        quoted("confirmations"@) == "\"confirmations\""@,
        quoted("checked"@) == "\"checked\""@,
{
    reveal_strlit("snapshot_version");
    reveal_strlit("\"snapshot_version\"");
    lemma_quoted_plain("snapshot_version"@);
    assert(quoted("snapshot_version"@) =~= "\"snapshot_version\""@);
    reveal_strlit("plan_format_version");
    reveal_strlit("\"plan_format_version\"");
    lemma_quoted_plain("plan_format_version"@);
    assert(quoted("plan_format_version"@) =~= "\"plan_format_version\""@);
    reveal_strlit("plan_sha256");
    reveal_strlit("\"plan_sha256\"");
    lemma_quoted_plain("plan_sha256"@);
    assert(quoted("plan_sha256"@) =~= "\"plan_sha256\""@);
    reveal_strlit("canonical_path");
    reveal_strlit("\"canonical_path\"");
    lemma_quoted_plain("canonical_path"@);
    assert(quoted("canonical_path"@) =~= "\"canonical_path\""@);
    reveal_strlit("body_markdown");
    reveal_strlit("\"body_markdown\"");
    lemma_quoted_plain("body_markdown"@);
    assert(quoted("body_markdown"@) =~= "\"body_markdown\""@);
    reveal_strlit("actions");
    reveal_strlit("\"actions\"");
    lemma_quoted_plain("actions"@);
    assert(quoted("actions"@) =~= "\"actions\""@);
    reveal_strlit("confirmations");
    reveal_strlit("\"confirmations\"");
    lemma_quoted_plain("confirmations"@);
    assert(quoted("confirmations"@) =~= "\"confirmations\""@);
    reveal_strlit("checked");
    reveal_strlit("\"checked\"");
    lemma_quoted_plain("checked"@);
    assert(quoted("checked"@) =~= "\"checked\""@);
}

/// What stands between the values of a snapshot.
proof fn lemma_snapshot_words()
    ensures
        "{"@ + quoted("snapshot_version"@) + ":"@ == "{\"snapshot_version\":"@,
        ","@ + quoted("plan_format_version"@) + ":"@ == ",\"plan_format_version\":"@,
        ","@ + quoted("plan_sha256"@) + ":"@ == ",\"plan_sha256\":"@,
        ","@ + quoted("canonical_path"@) + ":"@ == ",\"canonical_path\":"@,
        ","@ + quoted("body_markdown"@) + ":"@ == ",\"body_markdown\":"@,
        ","@ + quoted("actions"@) + ":"@ == ",\"actions\":"@,
        ","@ + quoted("confirmations"@) + ":"@ == ",\"confirmations\":"@,
        ","@ + quoted("checked"@) + ":"@ == ",\"checked\":"@,
{
    lemma_quoted_snapshot_names();
    reveal_strlit("{");
    reveal_strlit(":");
    reveal_strlit(",");
    reveal_strlit("\"snapshot_version\"");
    reveal_strlit("{\"snapshot_version\":");
    assert("{"@ + "\"snapshot_version\""@ + ":"@ =~= "{\"snapshot_version\":"@);
    reveal_strlit("\"plan_format_version\"");
    reveal_strlit(",\"plan_format_version\":");
    assert(","@ + "\"plan_format_version\""@ + ":"@ =~= ",\"plan_format_version\":"@);
    reveal_strlit("\"plan_sha256\"");
    reveal_strlit(",\"plan_sha256\":");
    assert(","@ + "\"plan_sha256\""@ + ":"@ =~= ",\"plan_sha256\":"@);
    reveal_strlit("\"canonical_path\"");
    reveal_strlit(",\"canonical_path\":");
    assert(","@ + "\"canonical_path\""@ + ":"@ =~= ",\"canonical_path\":"@);
    reveal_strlit("\"body_markdown\"");
    reveal_strlit(",\"body_markdown\":");
    assert(","@ + "\"body_markdown\""@ + ":"@ =~= ",\"body_markdown\":"@);
    reveal_strlit("\"actions\"");
    reveal_strlit(",\"actions\":");
    assert(","@ + "\"actions\""@ + ":"@ =~= ",\"actions\":"@);
    reveal_strlit("\"confirmations\"");
    reveal_strlit(",\"confirmations\":");
    assert(","@ + "\"confirmations\""@ + ":"@ =~= ",\"confirmations\":"@);
    reveal_strlit("\"checked\"");
    reveal_strlit(",\"checked\":");
    assert(","@ + "\"checked\""@ + ":"@ =~= ",\"checked\":"@);
}

proof fn lemma_confirmation_text(c: ConfirmationModel)
    ensures
        confirmation_json(c) == json_text(confirmation_value(c)),
{
    lemma_three_members(confirmation_members(c));
    lemma_action_words();
    lemma_snapshot_words();
    lemma_flat("{"@, Seq::empty(), Seq::empty(), quoted("id"@), ":"@, quoted(c.id), "}"@);
}

/// The text of an object up to its last member, and what one more adds to it.
proof fn lemma_next_member(items: Seq<(Seq<char>, JsonValue)>, k: int, body: Seq<char>) -> (r: Seq<
    char,
>)
    requires
        0 < k < items.len(),
        json_text(JsonValue::Members(items.take(k))) == "{"@ + body + "}"@,
    ensures
        json_text(JsonValue::Members(items.take(k + 1))) == "{"@ + r + "}"@,
        "{"@ + r == ("{"@ + body) + (","@ + quoted(items[k].0) + ":"@) + json_text(items[k].1),
{
    lemma_one_more_member(items.take(k), items[k].0, items[k].1, body);
    assert(items.take(k).push(items[k]) =~= items.take(k + 1));
    lemma_flat("{"@, body, ","@, quoted(items[k].0), ":"@, json_text(items[k].1), "}"@);
    body + ","@ + (quoted(items[k].0) + ":"@ + json_text(items[k].1))
}

/// What is written for a snapshot is the text of its members.
pub proof fn lemma_snapshot_text(s: SnapshotModel)
    ensures
        snapshot_json(s) == json_text(JsonValue::Members(snapshot_members(s))),
{
    let items = snapshot_members(s);
    lemma_snapshot_words();
    lemma_actions_text(s.actions);
    let confirmations = s.confirmations.map_values(|c: ConfirmationModel| confirmation_json(c));
    assert forall|k: int| 0 <= k < confirmations.len() implies #[trigger] confirmations[k]
        == json_text(confirmation_values(s.confirmations)[k]) by {
        lemma_confirmation_text(s.confirmations[k]);
    }
    lemma_json_texts(confirmation_values(s.confirmations), confirmations, confirmations.len());
    assert(confirmations.take(confirmations.len() as int) =~= confirmations);
    let b1 = quoted(items[0].0) + ":"@ + json_text(items[0].1);
    lemma_one_member(items[0].0, items[0].1);
    assert(items.take(1) =~= seq![items[0]]);
    lemma_flat("{"@, Seq::empty(), Seq::empty(), quoted(items[0].0), ":"@, json_text(items[0].1), "}"@);
    let b2 = lemma_next_member(items, 1, b1);
    let b3 = lemma_next_member(items, 2, b2);
    let b4 = lemma_next_member(items, 3, b3);
    let b5 = lemma_next_member(items, 4, b4);
    let b6 = lemma_next_member(items, 5, b5);
    let b7 = lemma_next_member(items, 6, b6);
    assert(items.take(7) =~= items);
}

proof fn lemma_snapshot_names_differ()
    ensures
        "id"@ != "checked"@,
        "description"@ != "checked"@,
        "snapshot_version"@ != "plan_format_version"@,
        "snapshot_version"@ != "plan_sha256"@,
        "snapshot_version"@ != "canonical_path"@,
        "snapshot_version"@ != "body_markdown"@,
        "snapshot_version"@ != "actions"@,
        "snapshot_version"@ != "confirmations"@,
        "plan_format_version"@ != "plan_sha256"@,
        "plan_format_version"@ != "canonical_path"@,
        "plan_format_version"@ != "body_markdown"@,
        "plan_format_version"@ != "actions"@,
        "plan_format_version"@ != "confirmations"@,
        "plan_sha256"@ != "canonical_path"@,
        "plan_sha256"@ != "body_markdown"@,
        "plan_sha256"@ != "actions"@,
        "plan_sha256"@ != "confirmations"@,
        "canonical_path"@ != "body_markdown"@,
        "canonical_path"@ != "actions"@,
        "canonical_path"@ != "confirmations"@,
        "body_markdown"@ != "actions"@,
        "body_markdown"@ != "confirmations"@,
        "actions"@ != "confirmations"@,
{
    reveal_strlit("snapshot_version");
    reveal_strlit("plan_format_version");
    reveal_strlit("plan_sha256");
    reveal_strlit("canonical_path");
    reveal_strlit("body_markdown");
    reveal_strlit("actions");
    reveal_strlit("confirmations");
    reveal_strlit("checked");
    reveal_strlit("id");
    reveal_strlit("description");
    assert("snapshot_version"@.len() == 16);
    assert("plan_format_version"@.len() == 19);
    assert("plan_sha256"@.len() == 11);
    assert("canonical_path"@.len() == 14);
    assert("body_markdown"@.len() == 13);
    assert("actions"@.len() == 7);
    assert("confirmations"@.len() == 13);
    assert("checked"@.len() == 7);
    assert("id"@.len() == 2);
    assert("description"@.len() == 11);
    assert("snapshot_version"@[0] == 's');
    assert("plan_format_version"@[0] == 'p');
    assert("plan_sha256"@[0] == 'p');
    assert("canonical_path"@[0] == 'c');
    assert("body_markdown"@[0] == 'b');
    assert("actions"@[0] == 'a');
    assert("confirmations"@[0] == 'c');
}

proof fn lemma_confirmation_reads_back(doc: Seq<NodeModel>, i: int, c: ConfirmationModel)
    requires
        holds(doc, i, confirmation_value(c)),
    ensures
        confirmation_of(doc, i) == Ok::<ConfirmationModel, PlanErrorModel>(c),
{
    lemma_names_differ();
    lemma_snapshot_names_differ();
    reveal_strlit("true");
    reveal_strlit("false");
    assert("true"@.len() == 4 && "false"@.len() == 5);
    let items = confirmation_members(c);
    lemma_has_member(doc, i, items, 0);
    lemma_has_member(doc, i, items, 1);
    lemma_has_member(doc, i, items, 2);
}

proof fn lemma_snapshot_is_shallow(s: SnapshotModel)
    ensures
        shallow(JsonValue::Members(snapshot_members(s)), MAX_DEPTH as nat),
{
    let depth = MAX_DEPTH as nat;
    let items = snapshot_members(s);
    let confirmations = confirmation_values(s.confirmations);
    lemma_actions_are_shallow(s.actions, (depth - 1) as nat);
    assert forall|k: int| 0 <= k < confirmations.len() implies shallow(
        #[trigger] confirmations[k],
        (depth - 2) as nat,
    ) by {
        let inner = confirmation_members(s.confirmations[k]);
        assert(confirmations[k] == JsonValue::Members(inner));
        assert forall|j: int| 0 <= j < inner.len() implies shallow(
            (#[trigger] inner[j]).1,
            (depth - 3) as nat,
        ) by {}
    }
    assert(shallow(JsonValue::List(confirmations), (depth - 1) as nat));
    assert forall|i: int| 0 <= i < items.len() implies shallow(
        (#[trigger] items[i]).1,
        (depth - 1) as nat,
    ) by {}
}

/// Where the actions of a stored snapshot stand in its document.
pub proof fn lemma_snapshot_actions_at(s: SnapshotModel)
    requires
        storable(s),
        faithful(snapshot_json(s)),
    ensures
        parsed(snapshot_json(s)) is Ok,
        reads_actions(parsed(snapshot_json(s))->Ok_0),
        actions_text_in(parsed(snapshot_json(s))->Ok_0) == actions_json(s.actions),
{
    let items = snapshot_members(s);
    lemma_snapshot_text(s);
    lemma_snapshot_is_shallow(s);
    lemma_reads_back(snapshot_json(s), JsonValue::Members(items));
    let doc = parsed(snapshot_json(s))->Ok_0;
    lemma_snapshot_names_differ();
    lemma_has_member(doc, 0, items, 0);
    lemma_has_member(doc, 0, items, 1);
    lemma_has_member(doc, 0, items, 2);
    lemma_has_member(doc, 0, items, 3);
    lemma_has_member(doc, 0, items, 4);
    lemma_has_member(doc, 0, items, 5);
    lemma_decimal_reads_back(PLAN_FORMAT_VERSION as nat, u64::MAX as int);
    lemma_decimal_reads_back(PLAN_SNAPSHOT_VERSION as nat, u64::MAX as int);
    lemma_actions_text(s.actions);
}

/// A text that was written for a snapshot reads back as the snapshot, given
/// that it and the manifest in it read back as what they were written for.
pub proof fn law_snapshots_read_back(s: SnapshotModel)
    requires
        storable(s),
        faithful(snapshot_json(s)),
        faithful(actions_json(s.actions)),
    ensures
        snapshot_of_text(snapshot_json(s)) == Ok::<SnapshotModel, PlanErrorModel>(s),
{
    let items = snapshot_members(s);
    lemma_snapshot_text(s);
    lemma_snapshot_is_shallow(s);
    lemma_reads_back(snapshot_json(s), JsonValue::Members(items));
    lemma_snapshot_actions_at(s);
    law_actions_read_back(s.actions);
    let doc = parsed(snapshot_json(s))->Ok_0;
    lemma_snapshot_names_differ();
    lemma_has_member(doc, 0, items, 0);
    lemma_has_member(doc, 0, items, 1);
    lemma_has_member(doc, 0, items, 2);
    lemma_has_member(doc, 0, items, 3);
    lemma_has_member(doc, 0, items, 4);
    lemma_has_member(doc, 0, items, 6);
    lemma_decimal_reads_back(PLAN_FORMAT_VERSION as nat, u64::MAX as int);
    lemma_decimal_reads_back(PLAN_SNAPSHOT_VERSION as nat, u64::MAX as int);
    assert(versions_of(doc) == Ok::<(u64, u64), PlanErrorModel>(
        (s.snapshot_version, s.plan_format_version),
    ));
    let at = doc[0].values[6];
    let read = |k: int| confirmation_of(doc, k);
    assert forall|k: int| 0 <= k < s.confirmations.len() implies read(doc[at].elements[k]) == Ok::<
        ConfirmationModel,
        PlanErrorModel,
    >(#[trigger] s.confirmations[k]) by {
        assert(confirmation_values(s.confirmations)[k] == confirmation_value(s.confirmations[k]));
        lemma_confirmation_reads_back(doc, doc[at].elements[k], s.confirmations[k]);
    }
    lemma_reads_list(doc, at, confirmation_values(s.confirmations), read, s.confirmations);
    assert(confirmations_of(doc) == Ok::<Seq<ConfirmationModel>, PlanErrorModel>(s.confirmations));
}

} // verus!
