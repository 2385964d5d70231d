//! The JSON texts that the tools need: argument objects and the JSON Schemas
//! that describe them.

use vstd::prelude::*;

use crate::json;
use crate::json::Json;

verus! {

// ---- Writing a value -------------------------------------------------------

/// A list of strings.
pub open spec fn list_json(list: Seq<Seq<char>>) -> Json {
    Json::Arr(list.map_values(|s: Seq<char>| Json::Str(s)))
}

pub(crate) fn string_of(s: &str) -> (r: String)
    ensures
        r@ == json::json_text(Json::Str(s@)),
{
    json::write_string(s)
}

/// Writes an array whose items have the given texts.
pub(crate) fn array_of(items: &Vec<String>, Ghost(tree): Ghost<Seq<Json>>) -> (r: String)
    requires
        items.deep_view() == json::texts(tree),
    ensures
        r@ == json::json_text(Json::Arr(tree)),
{
    proof {
        json::lemma_texts(tree);
        assert forall|i: int| 0 <= i < items@.len() implies json::is_json_text(
            #[trigger] items@[i]@,
        ) by {
            assert(items.deep_view()[i] == json::json_text(tree[i]));
        }
    }
    json::write_array(items)
}

/// Writes an object whose fields' values have the given texts. The names must
/// stand in order.
pub(crate) fn object_of(
    fields: &Vec<(String, String)>,
    Ghost(tree): Ghost<Seq<(Seq<char>, Json)>>,
) -> (r: String)
    requires
        fields.deep_view() == json::field_texts(tree),
        json::names_increase(fields.deep_view()),
    ensures
        r@ == json::json_text(Json::Obj(tree)),
{
    proof {
        json::lemma_field_texts(tree);
        assert forall|i: int| 0 <= i < fields@.len() implies json::is_json_text(
            (#[trigger] fields@[i]).1@,
        ) by {
            assert(fields.deep_view()[i].1 == json::json_text(tree[i].1));
        }
    }
    json::write_object(fields)
}

/// Writes a list of strings.
pub(crate) fn list_of(list: &Vec<String>) -> (r: String)
    ensures
        r@ == json::json_text(list_json(list.deep_view())),
{
    let ghost tree = list.deep_view().map_values(|s: Seq<char>| Json::Str(s));
    let mut items: Vec<String> = Vec::new();
    let mut i: usize = 0;
    while i < list.len()
        invariant
            i <= list@.len(),
            items@.len() == i,
            forall|j: int|
                0 <= j < i ==> #[trigger] items.deep_view()[j] == json::json_text(
                    Json::Str(list.deep_view()[j]),
                ),
        decreases list@.len() - i,
    {
        let ghost prior = items.deep_view();
        let item: String = string_of(list[i].as_str());
        items.push(item);
        assert(items.deep_view() =~= prior.push(item@));
        i = i + 1;
    }
    proof {
        json::lemma_texts(tree);
        assert(items.deep_view() =~= json::texts(tree));
    }
    array_of(&items, Ghost(tree))
}

/// Writes an object with one field.
pub(crate) fn object1(
    name: &str,
    value: String,
    Ghost(tree): Ghost<Json>,
) -> (r: String)
    requires
        value@ == json::json_text(tree),
    ensures
        r@ == json::json_text(Json::Obj(seq![(name@, tree)])),
{
    let ghost t = seq![(name@, tree)];
    let fields: Vec<(String, String)> = vec![(name.to_string(), value)];
    proof {
        json::lemma_field_texts(t);
        assert(fields.deep_view() =~= json::field_texts(t));
    }
    object_of(&fields, Ghost(t))
}

/// Writes an object with two fields.
pub(crate) fn object2(
    name0: &str,
    value0: String,
    name1: &str,
    value1: String,
    Ghost(tree0): Ghost<Json>,
    Ghost(tree1): Ghost<Json>,
) -> (r: String)
    requires
        value0@ == json::json_text(tree0),
        value1@ == json::json_text(tree1),
        json::precedes(name0@, name1@),
    ensures
        r@ == json::json_text(Json::Obj(seq![(name0@, tree0), (name1@, tree1)])),
{
    let ghost t = seq![(name0@, tree0), (name1@, tree1)];
    let fields: Vec<(String, String)> = vec![
        (name0.to_string(), value0),
        (name1.to_string(), value1),
    ];
    proof {
        json::lemma_field_texts(t);
        assert(fields.deep_view() =~= json::field_texts(t));
    }
    object_of(&fields, Ghost(t))
}

/// Writes an object with three fields.
pub(crate) fn object3(
    name0: &str,
    value0: String,
    name1: &str,
    value1: String,
    name2: &str,
    value2: String,
    Ghost(tree0): Ghost<Json>,
    Ghost(tree1): Ghost<Json>,
    Ghost(tree2): Ghost<Json>,
) -> (r: String)
    requires
        value0@ == json::json_text(tree0),
        value1@ == json::json_text(tree1),
        value2@ == json::json_text(tree2),
        json::precedes(name0@, name1@),
        json::precedes(name0@, name2@),
        json::precedes(name1@, name2@),
    ensures
        r@ == json::json_text(
            Json::Obj(seq![(name0@, tree0), (name1@, tree1), (name2@, tree2)]),
        ),
{
    let ghost t = seq![(name0@, tree0), (name1@, tree1), (name2@, tree2)];
    let fields: Vec<(String, String)> = vec![
        (name0.to_string(), value0),
        (name1.to_string(), value1),
        (name2.to_string(), value2),
    ];
    proof {
        json::lemma_field_texts(t);
        assert(fields.deep_view() =~= json::field_texts(t));
    }
    object_of(&fields, Ghost(t))
}

/// Writes an object with four fields.
pub(crate) fn object4(
    name0: &str,
    value0: String,
    name1: &str,
    value1: String,
    name2: &str,
    value2: String,
    name3: &str,
    value3: String,
    Ghost(tree0): Ghost<Json>,
    Ghost(tree1): Ghost<Json>,
    Ghost(tree2): Ghost<Json>,
    Ghost(tree3): Ghost<Json>,
) -> (r: String)
    requires
        value0@ == json::json_text(tree0),
        value1@ == json::json_text(tree1),
        value2@ == json::json_text(tree2),
        value3@ == json::json_text(tree3),
        json::precedes(name0@, name1@),
        json::precedes(name0@, name2@),
        json::precedes(name0@, name3@),
        json::precedes(name1@, name2@),
        json::precedes(name1@, name3@),
        json::precedes(name2@, name3@),
    ensures
        r@ == json::json_text(
            Json::Obj(
                seq![(name0@, tree0), (name1@, tree1), (name2@, tree2), (name3@, tree3)],
            ),
        ),
{
    let ghost t = seq![(name0@, tree0), (name1@, tree1), (name2@, tree2), (name3@, tree3)];
    let fields: Vec<(String, String)> = vec![
        (name0.to_string(), value0),
        (name1.to_string(), value1),
        (name2.to_string(), value2),
        (name3.to_string(), value3),
    ];
    proof {
        json::lemma_field_texts(t);
        assert(fields.deep_view() =~= json::field_texts(t));
    }
    object_of(&fields, Ghost(t))
}

// ---- Schemas ---------------------------------------------------------------

/// A string.
pub open spec fn string_schema() -> Json {
    Json::Obj(seq![("type"@, Json::Str("string"@))])
}

/// A string that is described.
pub open spec fn described_string_schema(description: Seq<char>) -> Json {
    Json::Obj(
        seq![("description"@, Json::Str(description)), ("type"@, Json::Str("string"@))],
    )
}

/// A list of `items`.
pub open spec fn list_schema(description: Seq<char>, items: Json) -> Json {
    Json::Obj(
        seq![
            ("description"@, Json::Str(description)),
            ("items"@, items),
            ("type"@, Json::Str("array"@)),
        ],
    )
}

/// An object with the given properties, some of them required.
pub open spec fn object_schema(
    properties: Seq<(Seq<char>, Json)>,
    required: Seq<Seq<char>>,
) -> Json {
    Json::Obj(
        seq![
            ("properties"@, Json::Obj(properties)),
            ("required"@, list_json(required)),
            ("type"@, Json::Str("object"@)),
        ],
    )
}

/// The order of the names that stand together in an object.
pub(crate) proof fn lemma_name_order()
    ensures
        json::precedes("description"@, "type"@),
        json::precedes("description"@, "items"@),
        json::precedes("items"@, "type"@),
        json::precedes("properties"@, "required"@),
        json::precedes("properties"@, "type"@),
        json::precedes("required"@, "type"@),
        json::precedes("path"@, "queries"@),
        json::precedes("patterns"@, "search_dir"@),
        json::precedes("file_path"@, "replace"@),
        json::precedes("file_path"@, "search"@),
        json::precedes("replace"@, "search"@),
        json::precedes("content"@, "file_path"@),
        json::precedes("deleted_files"@, "diffs"@),
        json::precedes("deleted_files"@, "new_files"@),
        json::precedes("deleted_files"@, "summary"@),
        json::precedes("diffs"@, "new_files"@),
        json::precedes("diffs"@, "summary"@),
        json::precedes("new_files"@, "summary"@),
{
    reveal_strlit("description");
    reveal_strlit("type");
    reveal_strlit("items");
    reveal_strlit("properties");
    reveal_strlit("required");
    reveal_strlit("path");
    reveal_strlit("queries");
    reveal_strlit("patterns");
    reveal_strlit("search_dir");
    reveal_strlit("file_path");
    reveal_strlit("replace");
    reveal_strlit("search");
    reveal_strlit("content");
    reveal_strlit("deleted_files");
    reveal_strlit("diffs");
    reveal_strlit("new_files");
    reveal_strlit("summary");
    reveal_with_fuel(json::precedes, 3);
    // All but these two differ in the first character.
    assert("deleted_files"@.drop_first()[0] == 'e');
    assert("diffs"@.drop_first()[0] == 'i');
}

pub(crate) fn write_string_schema() -> (r: String)
    ensures
        r@ == json::json_text(string_schema()),
{
    object1("type", string_of("string"), Ghost(Json::Str("string"@)))
}

pub(crate) fn write_described_string_schema(description: &str) -> (r: String)
    ensures
        r@ == json::json_text(described_string_schema(description@)),
{
    proof {
        lemma_name_order();
    }
    object2(
        "description",
        string_of(description),
        "type",
        string_of("string"),
        Ghost(Json::Str(description@)),
        Ghost(Json::Str("string"@)),
    )
}

pub(crate) fn write_list_schema(
    description: &str,
    items: String,
    Ghost(tree): Ghost<Json>,
) -> (r: String)
    requires
        items@ == json::json_text(tree),
    ensures
        r@ == json::json_text(list_schema(description@, tree)),
{
    proof {
        lemma_name_order();
    }
    object3(
        "description",
        string_of(description),
        "items",
        items,
        "type",
        string_of("array"),
        Ghost(Json::Str(description@)),
        Ghost(tree),
        Ghost(Json::Str("array"@)),
    )
}

pub(crate) fn write_object_schema(
    properties: String,
    required: &Vec<String>,
    Ghost(tree): Ghost<Seq<(Seq<char>, Json)>>,
) -> (r: String)
    requires
        properties@ == json::json_text(Json::Obj(tree)),
    ensures
        r@ == json::json_text(object_schema(tree, required.deep_view())),
{
    proof {
        lemma_name_order();
    }
    object3(
        "properties",
        properties,
        "required",
        list_of(required),
        "type",
        string_of("object"),
        Ghost(Json::Obj(tree)),
        Ghost(list_json(required.deep_view())),
        Ghost(Json::Str("object"@)),
    )
}

} // verus!
