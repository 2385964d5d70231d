//! What holds of the tools' arguments: what is advertised is what can be
//! decoded, and white space makes no difference.

use vstd::prelude::*;

use crate::agent::ApplyFileDiffsView;
use crate::agent::DeleteFileView;
use crate::agent::FileDiffView;
use crate::agent::FileGlobV2View;
use crate::agent::GrepView;
use crate::agent::NewFileView;
use crate::agent::ReadFileView;
use crate::agent::ReadFilesView;
use crate::agent::RunShellCommandView;
use crate::agent::ToolView;
use crate::json;
use crate::json::Json;
use crate::layout;
use crate::layout::WrittenItem;
use crate::record;
use crate::schema;
use crate::spacing;
use crate::tools;
use crate::values;

verus! {

// ---- Validity --------------------------------------------------------------

/// `v` is of the type that a schema names.
pub open spec fn has_type(v: Json, name: Json) -> bool {
    ||| name == Json::Str("string"@) && v is Str
    ||| name == Json::Str("array"@) && v is Arr
    ||| name == Json::Str("object"@) && v is Obj
}

/// `v` is valid against a JSON Schema: each keyword of the schema holds of it.
pub open spec fn valid(schema: Json, v: Json) -> bool
    decreases schema, 0nat,
{
    match schema {
        Json::Obj(keywords) => forall|k: int|
            0 <= k < keywords.len() ==> {
                let keyword = #[trigger] keywords[k];
                keyword_holds(keyword.0, keyword.1, v)
            },
        _ => false,
    }
}

/// What a keyword of a JSON Schema asks of `v`. A keyword on items asks
/// nothing of what is no array, and one on fields nothing of what is no
/// object. Fields that the schema does not name are free.
pub open spec fn keyword_holds(keyword: Seq<char>, arg: Json, v: Json) -> bool
    decreases arg, 1nat,
{
    if keyword == "type"@ {
        has_type(v, arg)
    } else if keyword == "items"@ {
        match v {
            Json::Arr(items) => forall|i: int|
                0 <= i < items.len() ==> valid(arg, #[trigger] items[i]),
            _ => true,
        }
    } else if keyword == "properties"@ {
        match (arg, v) {
            (Json::Obj(properties), Json::Obj(fields)) => forall|p: int, f: int|
                0 <= p < properties.len() && 0 <= f < fields.len() && (
                #[trigger] properties[p]).0 == (#[trigger] fields[f]).0 ==> valid(
                    properties[p].1,
                    fields[f].1,
                ),
            _ => true,
        }
    } else if keyword == "required"@ {
        match (arg, v) {
            (Json::Arr(names), Json::Obj(fields)) => forall|n: int|
                0 <= n < names.len() ==> ((#[trigger] names[n]) matches Json::Str(name)
                    ==> has_field(fields, name)),
            _ => true,
        }
    } else {
        true
    }
}

/// One of the fields goes by the name.
pub open spec fn has_field(fields: Seq<(Seq<char>, Json)>, name: Seq<char>) -> bool {
    exists|f: int| 0 <= f < fields.len() && (#[trigger] fields[f]).0 == name
}

/// No name stands twice.
pub open spec fn names_differ(fields: Seq<(Seq<char>, Json)>) -> bool {
    forall|i: int, k: int|
        0 <= i < k < fields.len() ==> #[trigger] fields[i].0 != #[trigger] fields[k].0
}

/// No object, however deep, holds a name twice.
pub open spec fn is_proper(j: Json) -> bool
    decreases j,
{
    match j {
        Json::Arr(items) => forall|i: int| 0 <= i < items.len() ==> is_proper(#[trigger] items[i]),
        Json::Obj(fields) => {
            &&& names_differ(fields)
            &&& forall|i: int|
                0 <= i < fields.len() ==> {
                    let field = #[trigger] fields[i];
                    is_proper(field.1)
                }
        },
        _ => true,
    }
}

/// The schemas of the advertised tools, in their order.
pub open spec fn tool_schemas() -> Seq<Json> {
    seq![
        tools::run_shell_command_schema(),
        tools::read_files_schema(),
        tools::grep_schema(),
        tools::file_glob_schema(),
        tools::apply_file_diffs_schema(),
    ]
}

// ---- Keywords --------------------------------------------------------------

proof fn lemma_keywords_differ()
    ensures
        "type"@.len() == 4,
        "items"@.len() == 5,
        "required"@.len() == 8,
        "properties"@.len() == 10,
        "description"@.len() == 11,
        "string"@.len() == 6,
        "array"@.len() == 5,
        "object"@.len() == 6,
        "string"@ != "object"@,
        "array"@ != "string"@,
        "array"@ != "object"@,
{
    reveal_strlit("type");
    reveal_strlit("items");
    reveal_strlit("required");
    reveal_strlit("properties");
    reveal_strlit("description");
    reveal_strlit("string");
    reveal_strlit("array");
    reveal_strlit("object");
    assert("string"@[0] == 's' && "object"@[0] == 'o');
}

proof fn lemma_keyword(keywords: Seq<(Seq<char>, Json)>, v: Json, k: int)
    requires
        valid(Json::Obj(keywords), v),
        0 <= k < keywords.len(),
    ensures
        keyword_holds(keywords[k].0, keywords[k].1, v),
{
    lemma_keyword_of(Json::Obj(keywords), v, k);
}

proof fn lemma_keyword_of(schema: Json, v: Json, k: int)
    requires
        valid(schema, v),
        schema is Obj,
        0 <= k < schema->Obj_0.len(),
    ensures
        keyword_holds(schema->Obj_0[k].0, schema->Obj_0[k].1, v),
{
}

proof fn lemma_valid_string(v: Json)
    requires
        valid(schema::string_schema(), v),
    ensures
        v is Str,
{
    lemma_keywords_differ();
    let keywords = seq![("type"@, Json::Str("string"@))];
    assert(schema::string_schema() == Json::Obj(keywords));
    lemma_keyword(keywords, v, 0);
}

proof fn lemma_valid_described_string(description: Seq<char>, v: Json)
    requires
        valid(schema::described_string_schema(description), v),
    ensures
        v is Str,
{
    lemma_keywords_differ();
    let keywords = seq![
        ("description"@, Json::Str(description)),
        ("type"@, Json::Str("string"@)),
    ];
    assert(schema::described_string_schema(description) == Json::Obj(keywords));
    lemma_keyword(keywords, v, 1);
}

proof fn lemma_valid_list(description: Seq<char>, item: Json, v: Json)
    requires
        valid(schema::list_schema(description, item), v),
    ensures
        v matches Json::Arr(items) && forall|i: int|
            0 <= i < items.len() ==> valid(item, #[trigger] items[i]),
{
    lemma_keywords_differ();
    let keywords = seq![
        ("description"@, Json::Str(description)),
        ("items"@, item),
        ("type"@, Json::Str("array"@)),
    ];
    assert(schema::list_schema(description, item) == Json::Obj(keywords));
    lemma_keyword(keywords, v, 1);
    lemma_keyword(keywords, v, 2);
}

proof fn lemma_valid_object(
    properties: Seq<(Seq<char>, Json)>,
    required: Seq<Seq<char>>,
    v: Json,
)
    requires
        valid(schema::object_schema(properties, required), v),
    ensures
        v matches Json::Obj(fields) && {
            &&& forall|p: int, f: int|
                0 <= p < properties.len() && 0 <= f < fields.len() && (
                #[trigger] properties[p]).0 == (#[trigger] fields[f]).0 ==> valid(
                    properties[p].1,
                    fields[f].1,
                )
            &&& forall|n: int|
                0 <= n < required.len() ==> has_field(fields, #[trigger] required[n])
        },
{
    lemma_keywords_differ();
    let list = schema::list_json(required);
    let keywords = seq![
        ("properties"@, Json::Obj(properties)),
        ("required"@, list),
        ("type"@, Json::Str("object"@)),
    ];
    assert(schema::object_schema(properties, required) == Json::Obj(keywords));
    lemma_keyword(keywords, v, 2);
    lemma_keyword(keywords, v, 0);
    lemma_keyword(keywords, v, 1);
    let fields = v->Obj_0;
    let names = list->Arr_0;
    let holder = Json::Obj(properties);
    assert(match (holder, v) {
        (Json::Obj(properties), Json::Obj(fields)) => forall|p: int, f: int|
            0 <= p < properties.len() && 0 <= f < fields.len() && (#[trigger] properties[p]).0 == (
            #[trigger] fields[f]).0 ==> valid(properties[p].1, fields[f].1),
        _ => true,
    });
    assert(forall|p: int, f: int|
        0 <= p < properties.len() && 0 <= f < fields.len() && (#[trigger] properties[p]).0 == (
        #[trigger] fields[f]).0 ==> valid(properties[p].1, fields[f].1));
    assert forall|n: int| 0 <= n < required.len() implies has_field(
        fields,
        #[trigger] required[n],
    ) by {
        assert(names[n] == Json::Str(required[n]));
    }
}

// ---- Fields ----------------------------------------------------------------

/// The value under `name`.
spec fn under(fields: Seq<(Seq<char>, Json)>, name: Seq<char>) -> Option<Json>
    decreases fields.len(),
{
    if fields.len() == 0 {
        None
    } else if fields.last().0 == name {
        Some(fields.last().1)
    } else {
        under(fields.drop_last(), name)
    }
}

proof fn lemma_under(fields: Seq<(Seq<char>, Json)>, name: Seq<char>)
    ensures
        match under(fields, name) {
            Some(v) => record::value_under(fields, name) == Some(json::json_text(v)) && exists|
                f: int,
            |
                0 <= f < fields.len() && #[trigger] fields[f] == (name, v),
            None => record::value_under(fields, name) is None && !has_field(fields, name),
        },
    decreases fields.len(),
{
    if fields.len() > 0 {
        let before = fields.drop_last();
        let n = fields.len() - 1;
        lemma_under(before, name);
        if fields.last().0 == name {
            assert(fields[n] == (name, fields.last().1));
        } else {
            match under(before, name) {
                Some(v) => {
                    let f = choose|f: int|
                        0 <= f < before.len() && #[trigger] before[f] == (name, v);
                    assert(fields[f] == (name, v));
                },
                None => {
                    if has_field(fields, name) {
                        let f = choose|f: int|
                            0 <= f < fields.len() && (#[trigger] fields[f]).0 == name;
                        assert(before[f].0 == name);
                    }
                },
            }
        }
    }
}

/// What is under the name of a property is valid against its schema, and
/// holds no name twice.
proof fn lemma_property(
    properties: Seq<(Seq<char>, Json)>,
    required: Seq<Seq<char>>,
    fields: Seq<(Seq<char>, Json)>,
    p: int,
)
    requires
        valid(schema::object_schema(properties, required), Json::Obj(fields)),
        is_proper(Json::Obj(fields)),
        0 <= p < properties.len(),
    ensures
        match under(fields, properties[p].0) {
            Some(v) => {
                &&& record::value_under(fields, properties[p].0) == Some(json::json_text(v))
                &&& valid(properties[p].1, v)
                &&& is_proper(v)
            },
            None => {
                &&& record::value_under(fields, properties[p].0) is None
                &&& !required.contains(properties[p].0)
            },
        },
{
    let name = properties[p].0;
    lemma_valid_object(properties, required, Json::Obj(fields));
    lemma_under(fields, name);
    match under(fields, name) {
        Some(v) => {
            let f = choose|f: int| 0 <= f < fields.len() && #[trigger] fields[f] == (name, v);
            assert(properties[p].0 == fields[f].0);
        },
        None => {
            if required.contains(name) {
                let n = required.index_of(name);
                assert(has_field(fields, required[n]));
            }
        },
    }
}

/// An object without repeated names holds none of `names` twice.
proof fn lemma_each_once(fields: Seq<(Seq<char>, Json)>, names: Seq<Seq<char>>)
    requires
        is_proper(Json::Obj(fields)),
    ensures
        record::each_once(fields, names),
{
    assert(names_differ(fields));
    assert forall|i: int, k: int|
        0 <= i < k < fields.len() && names.contains(#[trigger] fields[i].0) implies (
    #[trigger] fields[k].0 != fields[i].0) by {
        assert(fields[i].0 != fields[k].0);
    }
}

proof fn lemma_text_is_read(v: Json)
    requires
        v is Str,
    ensures
        record::required_text(Some(json::json_text(v))) is Some,
        record::optional_text(Some(json::json_text(v))) is Some,
{
    record::lemma_read_string(v->Str_0);
}

proof fn lemma_text_list_is_read(description: Seq<char>, v: Json)
    requires
        valid(schema::list_schema(description, schema::string_schema()), v),
    ensures
        record::required_text_list(Some(json::json_text(v))) is Some,
{
    lemma_valid_list(description, schema::string_schema(), v);
    let items = v->Arr_0;
    let entry = |item: Seq<char>| json::string_value(item);
    let list = Seq::new(items.len(), |i: int| items[i]->Str_0);
    assert forall|i: int| 0 <= i < items.len() implies entry(
        json::json_text(#[trigger] items[i]),
    ) == Some(list[i]) by {
        lemma_valid_string(items[i]);
        record::lemma_read_string(list[i]);
    }
    record::lemma_read_entries(items, entry, list);
}

proof fn lemma_entries_are_read<T>(
    description: Seq<char>,
    item: Json,
    v: Json,
    entry: spec_fn(Seq<char>) -> Option<T>,
)
    requires
        valid(schema::list_schema(description, item), v),
        is_proper(v),
        forall|j: Json|
            valid(item, j) && is_proper(j) ==> (#[trigger] entry(json::json_text(j))) is Some,
    ensures
        record::optional_entries(Some(json::json_text(v)), entry) is Some,
{
    lemma_valid_list(description, item, v);
    let items = v->Arr_0;
    let list = Seq::new(items.len(), |i: int| entry(json::json_text(items[i]))->0);
    assert forall|i: int| 0 <= i < items.len() implies entry(
        json::json_text(#[trigger] items[i]),
    ) == Some(list[i]) by {
        assert(valid(item, items[i]));
        assert(is_proper(items[i]));
        assert(entry(json::json_text(items[i])) is Some);
    }
    record::lemma_read_entries(items, entry, list);
}

// ---- Decoding --------------------------------------------------------------

proof fn lemma_command_is_decoded(v: Json)
    requires
        valid(tools::run_shell_command_schema(), v),
        is_proper(v),
    ensures
        tools::built_run_shell_command(json::json_text(v)) is Some,
{
    let command = schema::described_string_schema(tools::COMMAND_TEXT@);
    let properties = seq![("command"@, command)];
    let required = seq!["command"@];
    let names = seq!["command"@];
    lemma_valid_object(properties, required, v);
    let fields = v->Obj_0;
    lemma_each_once(fields, names);
    record::lemma_read_record(fields, names);
    lemma_property(properties, required, fields, 0);
    assert(required[0] == "command"@);
    let text = under(fields, "command"@)->0;
    lemma_valid_described_string(tools::COMMAND_TEXT@, text);
    lemma_text_is_read(text);
}

proof fn lemma_read_files_is_decoded(v: Json)
    requires
        valid(tools::read_files_schema(), v),
        is_proper(v),
    ensures
        tools::built_read_files(json::json_text(v)) is Some,
{
    let paths = schema::list_schema(tools::PATHS_TEXT@, schema::string_schema());
    let properties = seq![("paths"@, paths)];
    let required = seq!["paths"@];
    let names = seq!["paths"@];
    lemma_valid_object(properties, required, v);
    let fields = v->Obj_0;
    lemma_each_once(fields, names);
    record::lemma_read_record(fields, names);
    lemma_property(properties, required, fields, 0);
    assert(required[0] == "paths"@);
    lemma_text_list_is_read(tools::PATHS_TEXT@, under(fields, "paths"@)->0);
}

proof fn lemma_grep_is_decoded(v: Json)
    requires
        valid(tools::grep_schema(), v),
        is_proper(v),
    ensures
        tools::built_grep(json::json_text(v)) is Some,
{
    let path = schema::described_string_schema(tools::PATH_TEXT@);
    let queries = schema::list_schema(tools::QUERIES_TEXT@, schema::string_schema());
    let properties = seq![("path"@, path), ("queries"@, queries)];
    let required = seq!["queries"@];
    let names = seq!["queries"@, "path"@];
    lemma_valid_object(properties, required, v);
    let fields = v->Obj_0;
    lemma_each_once(fields, names);
    record::lemma_read_record(fields, names);
    lemma_property(properties, required, fields, 0);
    lemma_property(properties, required, fields, 1);
    assert(required[0] == "queries"@);
    lemma_text_list_is_read(tools::QUERIES_TEXT@, under(fields, "queries"@)->0);
    if let Some(text) = under(fields, "path"@) {
        lemma_valid_described_string(tools::PATH_TEXT@, text);
        lemma_text_is_read(text);
    }
}

proof fn lemma_file_glob_is_decoded(v: Json)
    requires
        valid(tools::file_glob_schema(), v),
        is_proper(v),
    ensures
        tools::built_file_glob(json::json_text(v)) is Some,
{
    let patterns = schema::list_schema(tools::PATTERNS_TEXT@, schema::string_schema());
    let search_dir = schema::described_string_schema(tools::SEARCH_DIR_TEXT@);
    let properties = seq![("patterns"@, patterns), ("search_dir"@, search_dir)];
    let required = seq!["patterns"@];
    let names = seq!["patterns"@, "search_dir"@];
    lemma_valid_object(properties, required, v);
    let fields = v->Obj_0;
    lemma_each_once(fields, names);
    record::lemma_read_record(fields, names);
    lemma_property(properties, required, fields, 0);
    lemma_property(properties, required, fields, 1);
    assert(required[0] == "patterns"@);
    lemma_text_list_is_read(tools::PATTERNS_TEXT@, under(fields, "patterns"@)->0);
    if let Some(text) = under(fields, "search_dir"@) {
        lemma_valid_described_string(tools::SEARCH_DIR_TEXT@, text);
        lemma_text_is_read(text);
    }
}

proof fn lemma_diff_is_decoded(v: Json)
    requires
        valid(tools::diff_schema(), v),
        is_proper(v),
    ensures
        tools::diff_entry(json::json_text(v)) is Some,
{
    let file_path = schema::string_schema();
    let replace = schema::described_string_schema(tools::REPLACE_TEXT@);
    let search = schema::described_string_schema(tools::SEARCH_TEXT@);
    let properties = seq![
        ("file_path"@, file_path),
        ("replace"@, replace),
        ("search"@, search),
    ];
    let required = seq!["file_path"@, "search"@, "replace"@];
    let names = seq!["file_path"@, "search"@, "replace"@];
    lemma_valid_object(properties, required, v);
    let fields = v->Obj_0;
    lemma_each_once(fields, names);
    record::lemma_read_record(fields, names);
    lemma_property(properties, required, fields, 0);
    lemma_property(properties, required, fields, 1);
    lemma_property(properties, required, fields, 2);
    assert(required[0] == "file_path"@);
    assert(required[1] == "search"@);
    assert(required[2] == "replace"@);
    let a = under(fields, "file_path"@)->0;
    let b = under(fields, "replace"@)->0;
    let c = under(fields, "search"@)->0;
    lemma_valid_string(a);
    lemma_valid_described_string(tools::REPLACE_TEXT@, b);
    lemma_valid_described_string(tools::SEARCH_TEXT@, c);
    lemma_text_is_read(a);
    lemma_text_is_read(b);
    lemma_text_is_read(c);
}

proof fn lemma_new_file_is_decoded(v: Json)
    requires
        valid(tools::new_file_schema(), v),
        is_proper(v),
    ensures
        tools::new_file_entry(json::json_text(v)) is Some,
{
    let string = schema::string_schema();
    let properties = seq![("content"@, string), ("file_path"@, string)];
    let required = seq!["file_path"@, "content"@];
    let names = seq!["file_path"@, "content"@];
    lemma_valid_object(properties, required, v);
    let fields = v->Obj_0;
    lemma_each_once(fields, names);
    record::lemma_read_record(fields, names);
    lemma_property(properties, required, fields, 0);
    lemma_property(properties, required, fields, 1);
    assert(required[0] == "file_path"@);
    assert(required[1] == "content"@);
    let a = under(fields, "file_path"@)->0;
    let b = under(fields, "content"@)->0;
    lemma_valid_string(a);
    lemma_valid_string(b);
    lemma_text_is_read(a);
    lemma_text_is_read(b);
}

proof fn lemma_deleted_file_is_decoded(v: Json)
    requires
        valid(tools::deleted_file_schema(), v),
        is_proper(v),
    ensures
        tools::deleted_file_entry(json::json_text(v)) is Some,
{
    let properties = seq![("file_path"@, schema::string_schema())];
    let required = seq!["file_path"@];
    let names = seq!["file_path"@];
    lemma_valid_object(properties, required, v);
    let fields = v->Obj_0;
    lemma_each_once(fields, names);
    record::lemma_read_record(fields, names);
    lemma_property(properties, required, fields, 0);
    assert(required[0] == "file_path"@);
    let a = under(fields, "file_path"@)->0;
    lemma_valid_string(a);
    lemma_text_is_read(a);
}

proof fn lemma_change_is_decoded(v: Json)
    requires
        valid(tools::apply_file_diffs_schema(), v),
        is_proper(v),
    ensures
        tools::built_apply_file_diffs(json::json_text(v)) is Some,
{
    let deleted_files = schema::list_schema(
        tools::DELETED_FILES_TEXT@,
        tools::deleted_file_schema(),
    );
    let diffs = schema::list_schema(tools::DIFFS_TEXT@, tools::diff_schema());
    let new_files = schema::list_schema(tools::NEW_FILES_TEXT@, tools::new_file_schema());
    let summary = schema::described_string_schema(tools::SUMMARY_TEXT@);
    let properties = seq![
        ("deleted_files"@, deleted_files),
        ("diffs"@, diffs),
        ("new_files"@, new_files),
        ("summary"@, summary),
    ];
    let required = seq!["summary"@];
    let names = seq!["summary"@, "diffs"@, "new_files"@, "deleted_files"@];
    lemma_valid_object(properties, required, v);
    let fields = v->Obj_0;
    lemma_each_once(fields, names);
    record::lemma_read_record(fields, names);
    lemma_property(properties, required, fields, 0);
    lemma_property(properties, required, fields, 1);
    lemma_property(properties, required, fields, 2);
    lemma_property(properties, required, fields, 3);
    assert(required[0] == "summary"@);
    let text = under(fields, "summary"@)->0;
    lemma_valid_described_string(tools::SUMMARY_TEXT@, text);
    lemma_text_is_read(text);
    let read_deleted = |t: Seq<char>| tools::deleted_file_entry(t);
    let read_diff = |t: Seq<char>| tools::diff_entry(t);
    let read_added = |t: Seq<char>| tools::new_file_entry(t);
    if let Some(list) = under(fields, "deleted_files"@) {
        assert forall|j: Json| valid(tools::deleted_file_schema(), j) && is_proper(j) implies (
        #[trigger] read_deleted(json::json_text(j))) is Some by {
            lemma_deleted_file_is_decoded(j);
        }
        lemma_entries_are_read(
            tools::DELETED_FILES_TEXT@,
            tools::deleted_file_schema(),
            list,
            read_deleted,
        );
    }
    if let Some(list) = under(fields, "diffs"@) {
        assert forall|j: Json| valid(tools::diff_schema(), j) && is_proper(j) implies (
        #[trigger] read_diff(json::json_text(j))) is Some by {
            lemma_diff_is_decoded(j);
        }
        lemma_entries_are_read(tools::DIFFS_TEXT@, tools::diff_schema(), list, read_diff);
    }
    if let Some(list) = under(fields, "new_files"@) {
        assert forall|j: Json| valid(tools::new_file_schema(), j) && is_proper(j) implies (
        #[trigger] read_added(json::json_text(j))) is Some by {
            lemma_new_file_is_decoded(j);
        }
        lemma_entries_are_read(
            tools::NEW_FILES_TEXT@,
            tools::new_file_schema(),
            list,
            read_added,
        );
    }
}

// ---- White space -----------------------------------------------------------

proof fn lemma_same_diff(x: Seq<char>, y: Seq<char>)
    requires
        spacing::same_value(x, y),
    ensures
        tools::diff_entry(x) == tools::diff_entry(y),
{
    let names = seq!["file_path"@, "search"@, "replace"@];
    spacing::lemma_same_bare_record(x, y, names);
    if let (Some(a), Some(b)) = (record::object_record(x, names), record::object_record(y, names)) {
        record::lemma_record_len(x, names);
        spacing::lemma_same_required_text(a.values[0], b.values[0]);
        spacing::lemma_same_required_text(a.values[1], b.values[1]);
        spacing::lemma_same_required_text(a.values[2], b.values[2]);
    }
}

proof fn lemma_same_new_file(x: Seq<char>, y: Seq<char>)
    requires
        spacing::same_value(x, y),
    ensures
        tools::new_file_entry(x) == tools::new_file_entry(y),
{
    let names = seq!["file_path"@, "content"@];
    spacing::lemma_same_bare_record(x, y, names);
    if let (Some(a), Some(b)) = (record::object_record(x, names), record::object_record(y, names)) {
        record::lemma_record_len(x, names);
        spacing::lemma_same_required_text(a.values[0], b.values[0]);
        spacing::lemma_same_required_text(a.values[1], b.values[1]);
    }
}

proof fn lemma_same_deleted_file(x: Seq<char>, y: Seq<char>)
    requires
        spacing::same_value(x, y),
    ensures
        tools::deleted_file_entry(x) == tools::deleted_file_entry(y),
{
    let names = seq!["file_path"@];
    spacing::lemma_same_bare_record(x, y, names);
    if let (Some(a), Some(b)) = (record::object_record(x, names), record::object_record(y, names)) {
        record::lemma_record_len(x, names);
        spacing::lemma_same_required_text(a.values[0], b.values[0]);
    }
}

proof fn lemma_same_change(item: WrittenItem)
    requires
        layout::well_spaced_item(item),
    ensures
        tools::built_apply_file_diffs(layout::item_text(item)) == tools::built_apply_file_diffs(
            json::json_text(layout::plain(item.value)),
        ),
{
    let x = layout::item_text(item);
    let y = json::json_text(layout::plain(item.value));
    let names = seq!["summary"@, "diffs"@, "new_files"@, "deleted_files"@];
    spacing::lemma_same_record(item, names);
    if let (Some(a), Some(b)) = (record::object_record(x, names), record::object_record(y, names)) {
        record::lemma_record_len(x, names);
        let read_deleted = |t: Seq<char>| tools::deleted_file_entry(t);
        let read_diff = |t: Seq<char>| tools::diff_entry(t);
        let read_added = |t: Seq<char>| tools::new_file_entry(t);
        assert forall|s: Seq<char>, t: Seq<char>| #[trigger] spacing::same_value(s, t) implies {
            &&& read_deleted(s) == read_deleted(t)
            &&& read_diff(s) == read_diff(t)
            &&& read_added(s) == read_added(t)
        } by {
            lemma_same_deleted_file(s, t);
            lemma_same_diff(s, t);
            lemma_same_new_file(s, t);
        }
        spacing::lemma_same_required_text(a.values[0], b.values[0]);
        spacing::lemma_same_optional_entries(a.values[1], b.values[1], read_diff);
        spacing::lemma_same_optional_entries(a.values[2], b.values[2], read_added);
        spacing::lemma_same_optional_entries(a.values[3], b.values[3], read_deleted);
    }
}

// ---- Laws ------------------------------------------------------------------

/// White space around the arguments of a call and between their tokens makes
/// no difference to what it builds, nor does the way strings are escaped.
pub proof fn law_layout_does_not_matter(name: Seq<char>, item: WrittenItem)
    requires
        layout::well_spaced_item(item),
    ensures
        tools::built_tool(name, layout::item_text(item)) == tools::built_tool(
            name,
            json::json_text(layout::plain(item.value)),
        ),
{
    let x = layout::item_text(item);
    let y = json::json_text(layout::plain(item.value));
    let names = tools::argument_names(name);
    spacing::lemma_same_record(item, names);
    lemma_same_change(item);
    if let (Some(a), Some(b)) = (record::object_record(x, names), record::object_record(y, names)) {
        record::lemma_record_len(x, names);
        spacing::lemma_same_required_text(a.values[0], b.values[0]);
        spacing::lemma_same_required_text_list(a.values[0], b.values[0]);
        if names.len() > 1 {
            spacing::lemma_same_optional_text(a.values[1], b.values[1]);
        }
    }
}

/// What is advertised is what can be decoded: a call with any arguments that
/// are valid against the tool's schema, however they are spaced and escaped,
/// builds a tool.
pub proof fn law_valid_arguments_are_decoded(i: int, item: WrittenItem)
    requires
        0 <= i < tools::tool_catalog().len(),
        layout::well_spaced_item(item),
        is_proper(layout::plain(item.value)),
        valid(tool_schemas()[i], layout::plain(item.value)),
    ensures
        tools::tool_catalog()[i].parameters == json::json_text(tool_schemas()[i]),
        tools::built_tool(tools::tool_catalog()[i].name, layout::item_text(item)) is Some,
{
    let v = layout::plain(item.value);
    let name = tools::tool_catalog()[i].name;
    tools::lemma_names_differ();
    law_layout_does_not_matter(name, item);
    if i == 0 {
        lemma_command_is_decoded(v);
    } else if i == 1 {
        lemma_read_files_is_decoded(v);
    } else if i == 2 {
        lemma_grep_is_decoded(v);
    } else if i == 3 {
        lemma_file_glob_is_decoded(v);
    } else {
        lemma_change_is_decoded(v);
    }
}

/// The object lacks a field that the schema requires.
pub open spec fn lacks_required(schema: Json, v: Json) -> bool {
    schema matches Json::Obj(keywords) && exists|k: int|
        0 <= k < keywords.len() && (#[trigger] keywords[k]).0 == "required"@ && !keyword_holds(
            "required"@,
            keywords[k].1,
            v,
        )
}

/// A call whose arguments lack what the tool's schema requires builds nothing.
pub proof fn law_required_arguments_are_needed(i: int, item: WrittenItem)
    requires
        0 <= i < tools::tool_catalog().len(),
        layout::well_spaced_item(item),
        is_proper(layout::plain(item.value)),
        lacks_required(tool_schemas()[i], layout::plain(item.value)),
    ensures
        tools::built_tool(tools::tool_catalog()[i].name, layout::item_text(item)) is None,
{
    let v = layout::plain(item.value);
    let name = tools::tool_catalog()[i].name;
    let keywords = tool_schemas()[i]->Obj_0;
    tools::lemma_names_differ();
    lemma_keywords_differ();
    law_layout_does_not_matter(name, item);
    let k = choose|k: int|
        0 <= k < keywords.len() && (#[trigger] keywords[k]).0 == "required"@ && !keyword_holds(
            "required"@,
            keywords[k].1,
            v,
        );
    assert(k == 1);
    let needed = tools::required_argument(name);
    assert(keywords[1].1 == schema::list_json(seq![needed]));
    let list = schema::list_json(seq![needed])->Arr_0;
    assert(list.len() == 1 && list[0] == Json::Str(needed));
    let fields = v->Obj_0;
    assert(!has_field(fields, needed)) by {
        if has_field(fields, needed) {
            assert(keyword_holds("required"@, keywords[1].1, v));
        }
    }
    lemma_under(fields, needed);
    lemma_each_once(fields, tools::argument_names(name));
    tools::law_missing_argument_is_refused(name, fields);
}

// ---- What a call asks for --------------------------------------------------

/// The edit that a value stands for.
pub open spec fn edit_meant(v: Json) -> Option<FileDiffView> {
    match v {
        Json::Obj(fields) => match (
            values::under(fields, "file_path"@),
            values::under(fields, "search"@),
            values::under(fields, "replace"@),
        ) {
            (Some(Json::Str(file_path)), Some(Json::Str(search)), Some(Json::Str(replace))) => Some(
                FileDiffView { file_path, search, replace },
            ),
            _ => None,
        },
        _ => None,
    }
}

/// The new file that a value stands for.
pub open spec fn new_file_meant(v: Json) -> Option<NewFileView> {
    match v {
        Json::Obj(fields) => match (
            values::under(fields, "file_path"@),
            values::under(fields, "content"@),
        ) {
            (Some(Json::Str(file_path)), Some(Json::Str(content))) => Some(
                NewFileView { file_path, content },
            ),
            _ => None,
        },
        _ => None,
    }
}

/// The file to delete that a value stands for.
pub open spec fn deleted_file_meant(v: Json) -> Option<DeleteFileView> {
    match v {
        Json::Obj(fields) => match values::under(fields, "file_path"@) {
            Some(Json::Str(file_path)) => Some(DeleteFileView { file_path }),
            _ => None,
        },
        _ => None,
    }
}

/// A path that may be left out: the current directory goes without a name.
pub open spec fn path_meant(v: Option<Json>) -> Option<Seq<char>> {
    match v {
        None => Some(Seq::empty()),
        Some(Json::Null) => Some(Seq::empty()),
        Some(Json::Str(path)) => Some(path),
        _ => None,
    }
}

/// A list of strings that must be there.
pub open spec fn names_meant(v: Option<Json>) -> Option<Seq<Seq<char>>> {
    match v {
        Some(v) => values::strings_in(v),
        None => None,
    }
}

/// A list that may be left out, and is empty where it is.
pub open spec fn changes_meant<T>(v: Option<Json>, f: spec_fn(Json) -> Option<T>) -> Option<
    Seq<T>,
> {
    match v {
        None => Some(Seq::empty()),
        Some(Json::Null) => Some(Seq::empty()),
        Some(v) => values::list_in(v, f),
    }
}

/// The tool that a call by `name` with the value `v` for arguments asks for.
pub open spec fn asked_for(name: Seq<char>, v: Json) -> Option<ToolView> {
    match v {
        Json::Obj(fields) => if name == "run_shell_command"@ {
            match values::under(fields, "command"@) {
                Some(Json::Str(command)) => Some(
                    ToolView::RunShellCommand(RunShellCommandView { command }),
                ),
                _ => None,
            }
        } else if name == "read_files"@ {
            match names_meant(values::under(fields, "paths"@)) {
                Some(paths) => Some(
                    ToolView::ReadFiles(
                        ReadFilesView {
                            files: Seq::new(
                                paths.len(),
                                |i: int| ReadFileView { name: paths[i], line_ranges: Seq::empty() },
                            ),
                        },
                    ),
                ),
                None => None,
            }
        } else if name == "grep"@ {
            match (
                names_meant(values::under(fields, "queries"@)),
                path_meant(values::under(fields, "path"@)),
            ) {
                (Some(queries), Some(path)) => Some(ToolView::Grep(GrepView { queries, path })),
                _ => None,
            }
        } else if name == "file_glob"@ {
            match (
                names_meant(values::under(fields, "patterns"@)),
                path_meant(values::under(fields, "search_dir"@)),
            ) {
                (Some(patterns), Some(search_dir)) => Some(
                    ToolView::FileGlobV2(FileGlobV2View { patterns, search_dir }),
                ),
                _ => None,
            }
        } else if name == "apply_file_diffs"@ {
            match (
                values::under(fields, "summary"@),
                changes_meant(values::under(fields, "diffs"@), |v: Json| edit_meant(v)),
                changes_meant(values::under(fields, "new_files"@), |v: Json| new_file_meant(v)),
                changes_meant(
                    values::under(fields, "deleted_files"@),
                    |v: Json| deleted_file_meant(v),
                ),
            ) {
                (Some(Json::Str(summary)), Some(diffs), Some(new_files), Some(deleted_files)) => {
                    Some(
                        ToolView::ApplyFileDiffs(
                            ApplyFileDiffsView {
                                summary,
                                diffs,
                                new_files,
                                deleted_files,
                                v4a_updates: Seq::empty(),
                            },
                        ),
                    )
                },
                _ => None,
            }
        } else {
            None
        },
        _ => None,
    }
}

proof fn lemma_edit_meant(v: Json)
    requires
        is_proper(v),
    ensures
        tools::diff_entry(json::json_text(v)) == edit_meant(v),
{
    let names = seq!["file_path"@, "search"@, "replace"@];
    values::lemma_record(v, names);
    if let Some(r) = record::object_record(json::json_text(v), names) {
        let m = values::members(v, names)->0;
        assert(r.values[0] == values::text_where_given(m[0]));
        assert(r.values[1] == values::text_where_given(m[1]));
        assert(r.values[2] == values::text_where_given(m[2]));
        values::lemma_required_text(m[0]);
        values::lemma_required_text(m[1]);
        values::lemma_required_text(m[2]);
    }
}

proof fn lemma_new_file_meant(v: Json)
    requires
        is_proper(v),
    ensures
        tools::new_file_entry(json::json_text(v)) == new_file_meant(v),
{
    let names = seq!["file_path"@, "content"@];
    values::lemma_record(v, names);
    if let Some(r) = record::object_record(json::json_text(v), names) {
        let m = values::members(v, names)->0;
        assert(r.values[0] == values::text_where_given(m[0]));
        assert(r.values[1] == values::text_where_given(m[1]));
        values::lemma_required_text(m[0]);
        values::lemma_required_text(m[1]);
    }
}

proof fn lemma_deleted_file_meant(v: Json)
    requires
        is_proper(v),
    ensures
        tools::deleted_file_entry(json::json_text(v)) == deleted_file_meant(v),
{
    let names = seq!["file_path"@];
    values::lemma_record(v, names);
    if let Some(r) = record::object_record(json::json_text(v), names) {
        let m = values::members(v, names)->0;
        assert(r.values[0] == values::text_where_given(m[0]));
        values::lemma_required_text(m[0]);
    }
}

proof fn lemma_changes_meant<T>(
    v: Option<Json>,
    entry: spec_fn(Seq<char>) -> Option<T>,
    f: spec_fn(Json) -> Option<T>,
)
    requires
        v matches Some(w) ==> is_proper(w),
        forall|w: Json| #[trigger] is_proper(w) ==> entry(json::json_text(w)) == f(w),
    ensures
        match record::optional_entries(values::text_where_given(v), entry) {
            Some(list) => changes_meant(v, f) == Some(tools::or_empty(list)),
            None => changes_meant(v, f) is None,
        },
{
    if let Some(Json::Arr(items)) = v {
        values::lemma_proper_items(items);
        assert forall|i: int| 0 <= i < items.len() implies entry(
            json::json_text(#[trigger] items[i]),
        ) == f(items[i]) by {
            assert(is_proper(items[i]));
        }
    }
    values::lemma_optional_list(v, entry, f);
}

proof fn lemma_change_meant(v: Json)
    requires
        is_proper(v),
    ensures
        tools::built_apply_file_diffs(json::json_text(v)) == asked_for("apply_file_diffs"@, v),
{
    lemma_call_names_differ();
    let names = seq!["summary"@, "diffs"@, "new_files"@, "deleted_files"@];
    values::lemma_record(v, names);
    if let Some(r) = record::object_record(json::json_text(v), names) {
        let m = values::members(v, names)->0;
        values::lemma_proper_members(v, names);
        assert(r.values[0] == values::text_where_given(m[0]));
        assert(r.values[1] == values::text_where_given(m[1]));
        assert(r.values[2] == values::text_where_given(m[2]));
        assert(r.values[3] == values::text_where_given(m[3]));
        values::lemma_required_text(m[0]);
        let edit = |t: Seq<char>| tools::diff_entry(t);
        let new_file = |t: Seq<char>| tools::new_file_entry(t);
        let deleted_file = |t: Seq<char>| tools::deleted_file_entry(t);
        let edit_of = |v: Json| edit_meant(v);
        let new_file_of = |v: Json| new_file_meant(v);
        let deleted_file_of = |v: Json| deleted_file_meant(v);
        assert forall|w: Json| #[trigger] is_proper(w) implies edit(json::json_text(w)) == edit_of(
            w,
        ) by {
            lemma_edit_meant(w);
        }
        assert forall|w: Json| #[trigger] is_proper(w) implies new_file(json::json_text(w))
            == new_file_of(w) by {
            lemma_new_file_meant(w);
        }
        assert forall|w: Json| #[trigger] is_proper(w) implies deleted_file(json::json_text(w))
            == deleted_file_of(w) by {
            lemma_deleted_file_meant(w);
        }
        lemma_changes_meant(m[1], edit, edit_of);
        lemma_changes_meant(m[2], new_file, new_file_of);
        lemma_changes_meant(m[3], deleted_file, deleted_file_of);
    }
}

proof fn lemma_call_names_differ()
    ensures
        "run_shell_command"@.len() == 17,
        "read_files"@.len() == 10,
        "grep"@.len() == 4,
        "file_glob"@.len() == 9,
        "apply_file_diffs"@.len() == 16,
{
    reveal_strlit("run_shell_command");
    reveal_strlit("read_files");
    reveal_strlit("grep");
    reveal_strlit("file_glob");
    reveal_strlit("apply_file_diffs");
}

proof fn lemma_search_meant(name: Seq<char>, v: Json)
    requires
        is_proper(v),
        name == "grep"@ || name == "file_glob"@,
    ensures
        tools::built_tool(name, json::json_text(v)) == asked_for(name, v),
{
    lemma_call_names_differ();
    let names = if name == "grep"@ {
        seq!["queries"@, "path"@]
    } else {
        seq!["patterns"@, "search_dir"@]
    };
    values::lemma_record(v, names);
    if let Some(r) = record::object_record(json::json_text(v), names) {
        let m = values::members(v, names)->0;
        assert(r.values[0] == values::text_where_given(m[0]));
        assert(r.values[1] == values::text_where_given(m[1]));
        values::lemma_required_text_list(m[0]);
        values::lemma_optional_text(m[1]);
    }
}

/// What a call builds is what its arguments say, field by field: each field of
/// the tool is the value under its name, in whatever order the values stand
/// and however they are laid out. A path that is left out is the current
/// directory, and changes that are left out are none. Nothing is built where a
/// value has another shape or a required one is missing, nor under any other
/// name.
pub proof fn law_call_builds_what_it_asks_for(name: Seq<char>, item: WrittenItem)
    requires
        layout::well_spaced_item(item),
        is_proper(layout::plain(item.value)),
    ensures
        tools::built_tool(name, layout::item_text(item)) == asked_for(
            name,
            layout::plain(item.value),
        ),
{
    let v = layout::plain(item.value);
    law_layout_does_not_matter(name, item);
    lemma_call_names_differ();
    if name == "run_shell_command"@ {
        let names = seq!["command"@];
        values::lemma_record(v, names);
        if let Some(r) = record::object_record(json::json_text(v), names) {
            let m = values::members(v, names)->0;
            assert(r.values[0] == values::text_where_given(m[0]));
            values::lemma_required_text(m[0]);
        }
    } else if name == "read_files"@ {
        let names = seq!["paths"@];
        values::lemma_record(v, names);
        if let Some(r) = record::object_record(json::json_text(v), names) {
            let m = values::members(v, names)->0;
            assert(r.values[0] == values::text_where_given(m[0]));
            values::lemma_required_text_list(m[0]);
            if let Some(paths) = record::required_text_list(r.values[0]) {
                assert(paths.map_values(|name: Seq<char>| tools::whole_file(name)) =~= Seq::new(
                    paths.len(),
                    |i: int| ReadFileView { name: paths[i], line_ranges: Seq::empty() },
                ));
            }
        }
    } else if name == "grep"@ || name == "file_glob"@ {
        lemma_search_meant(name, v);
    } else if name == "apply_file_diffs"@ {
        lemma_change_meant(v);
    }
}

} // verus!
