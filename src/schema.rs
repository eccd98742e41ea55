use vstd::prelude::*;

use crate::json::{lookup, push_member, text, Json, Member};
use vstd::string::*;
use crate::validate::{def_of, lemma_def_of_index, node_resolves, object_resolves, refs_resolve};

verus! {

/// A node of the schema tree.
pub enum SchemaNode {
    /// A JSON string: `{"type": "string"}`.
    Text,
    /// An object described by the named definition: `{"$ref": "#/definitions/<name>"}`.
    Ref(String),
    /// An array whose elements all match the inner node:
    /// `{"type": "array", "items": <node>}`.
    ArrayOf(Box<SchemaNode>),
}

/// A declared field of an object and the node its value must match.
pub struct Property {
    pub name: String,
    pub node: SchemaNode,
}

/// An object node: its declared fields and the names of those that must be present.
/// Fields that are not declared are permitted.
pub struct ObjectSchema {
    pub properties: Vec<Property>,
    pub required: Vec<String>,
}

/// A named object description that `SchemaNode::Ref` points to.
pub struct Definition {
    pub name: String,
    pub object: ObjectSchema,
}

/// A schema document: a root object and the definitions it refers to.
pub struct SchemaDocument {
    pub title: String,
    pub root: ObjectSchema,
    pub definitions: Vec<Definition>,
}

/// `k` is in the required list of `o`.
pub open spec fn is_required(o: ObjectSchema, k: Seq<char>) -> bool {
    exists|i: int| 0 <= i < o.required@.len() && #[trigger] o.required@[i]@ == k
}

/// The names of the declared fields of `o`, in order.
pub open spec fn property_names(o: ObjectSchema) -> Seq<Seq<char>> {
    o.properties@.map_values(|p: Property| p.name@)
}

/// `k` is a declared field of `o`.
pub open spec fn is_declared(o: ObjectSchema, k: Seq<char>) -> bool {
    property_names(o).contains(k)
}

/// `o` is the object node of an item: its fields in order, the node of each,
/// and its required list.
pub open spec fn is_item_object(o: ObjectSchema) -> bool {
    &&& property_names(o) == seq![
        "name"@,
        "homepage_url"@,
        "logo"@,
        "repo_url"@,
        "project_url"@,
        "twitter"@,
        "description"@
    ]
    &&& forall|i: int| 0 <= i < o.properties@.len() ==> (#[trigger] o.properties@[i]).node is Text
    &&& o.required@.len() == 2
    &&& o.required@[0]@ == "name"@
    &&& o.required@[1]@ == "homepage_url"@
}

/// `o` is the object node of a garden reference: its fields in order, the node of each,
/// and its required list.
pub open spec fn is_reference_object(o: ObjectSchema) -> bool {
    &&& property_names(o) == seq![
        "name"@,
        "url"@,
        "description"@,
        "logo"@,
        "version"@
    ]
    &&& o.properties@[0].node is Text
    &&& o.properties@[1].node is Text
    &&& o.properties@[2].node is Text
    &&& o.properties@[3].node is Text
    &&& o.properties@[4].node is Text
    &&& o.required@.len() == 2
    &&& o.required@[0]@ == "name"@
    &&& o.required@[1]@ == "url"@
}

/// `o` is the object node of a category (its `categories` field is an array of references to the category definition itself): its fields in order, the node of each,
/// and its required list.
pub open spec fn is_category_object(o: ObjectSchema) -> bool {
    &&& property_names(o) == seq![
        "name"@,
        "description"@,
        "icon_color"@,
        "items"@,
        "categories"@,
        "garden_refs"@
    ]
    &&& o.properties@[0].node is Text
    &&& o.properties@[1].node is Text
    &&& o.properties@[2].node is Text
    &&& o.properties@[3].node matches SchemaNode::ArrayOf(inner) && (*inner matches SchemaNode::Ref(d) && d@ == "GardenItem"@)
    &&& o.properties@[4].node matches SchemaNode::ArrayOf(inner) && (*inner matches SchemaNode::Ref(d) && d@ == "Category"@)
    &&& o.properties@[5].node matches SchemaNode::ArrayOf(inner) && (*inner matches SchemaNode::Ref(d) && d@ == "GardenReference"@)
    &&& o.required@.len() == 1
    &&& o.required@[0]@ == "name"@
}

/// `o` is the object node of a maintainer: its fields in order, the node of each,
/// and its required list.
pub open spec fn is_maintainer_object(o: ObjectSchema) -> bool {
    &&& property_names(o) == seq![
        "name"@,
        "email"@,
        "url"@
    ]
    &&& o.properties@[0].node is Text
    &&& o.properties@[1].node is Text
    &&& o.properties@[2].node is Text
    &&& o.required@.len() == 1
    &&& o.required@[0]@ == "name"@
}

/// `o` is the object node of a theme: its fields in order, the node of each,
/// and its required list.
pub open spec fn is_theme_object(o: ObjectSchema) -> bool {
    &&& property_names(o) == seq![
        "primary_color"@,
        "secondary_color"@,
        "background_color"@,
        "text_color"@
    ]
    &&& o.properties@[0].node is Text
    &&& o.properties@[1].node is Text
    &&& o.properties@[2].node is Text
    &&& o.properties@[3].node is Text
    &&& o.required@.len() == 0
}

/// `o` is the object node of a garden: its fields in order, the node of each,
/// and its required list.
pub open spec fn is_garden_object(o: ObjectSchema) -> bool {
    &&& property_names(o) == seq![
        "name"@,
        "description"@,
        "version"@,
        "categories"@,
        "maintainers"@,
        "created_at"@,
        "updated_at"@,
        "theme"@,
        "supergardens"@,
        "subgardens"@
    ]
    &&& o.properties@[0].node is Text
    &&& o.properties@[1].node is Text
    &&& o.properties@[2].node is Text
    &&& o.properties@[3].node matches SchemaNode::ArrayOf(inner) && (*inner matches SchemaNode::Ref(d) && d@ == "Category"@)
    &&& o.properties@[4].node matches SchemaNode::ArrayOf(inner) && (*inner matches SchemaNode::Ref(d) && d@ == "Maintainer"@)
    &&& o.properties@[5].node is Text
    &&& o.properties@[6].node is Text
    &&& o.properties@[7].node matches SchemaNode::Ref(d) && d@ == "Theme"@
    &&& o.properties@[8].node matches SchemaNode::ArrayOf(inner) && (*inner matches SchemaNode::Ref(d) && d@ == "GardenReference"@)
    &&& o.properties@[9].node matches SchemaNode::ArrayOf(inner) && (*inner matches SchemaNode::Ref(d) && d@ == "GardenReference"@)
    &&& o.required@.len() == 3
    &&& o.required@[0]@ == "name"@
    &&& o.required@[1]@ == "version"@
    &&& o.required@[2]@ == "categories"@
}

fn text_prop(name: &str) -> (p: Property)
    ensures
        p.name@ == name@,
        p.node is Text,
        forall|defs: Seq<Definition>| #[trigger] node_resolves(defs, p.node),
{
    Property { name: text(name), node: SchemaNode::Text }
}

fn ref_prop(name: &str, def: &str) -> (p: Property)
    ensures
        p.name@ == name@,
        p.node matches SchemaNode::Ref(d) && d@ == def@,
        forall|defs: Seq<Definition>| def_of(defs, def@) is Some ==> #[trigger] node_resolves(defs, p.node),
{
    Property { name: text(name), node: SchemaNode::Ref(text(def)) }
}

fn array_prop(name: &str, def: &str) -> (p: Property)
    ensures
        p.name@ == name@,
        p.node matches SchemaNode::ArrayOf(inner) && (*inner matches SchemaNode::Ref(d) && d@ == def@),
        forall|defs: Seq<Definition>| def_of(defs, def@) is Some ==> #[trigger] node_resolves(defs, p.node),
{
    let p = Property { name: text(name), node: SchemaNode::ArrayOf(Box::new(SchemaNode::Ref(text(def)))) };
    assert forall|defs: Seq<Definition>| def_of(defs, def@) is Some implies #[trigger] node_resolves(defs, p.node) by {
        reveal_with_fuel(node_resolves, 2);
    }
    p
}

fn names1(a: &str) -> (r: Vec<String>)
    ensures
        r@.len() == 1,
        r@[0]@ == a@,
{
    let mut r: Vec<String> = Vec::new();
    r.push(text(a));
    r
}

fn names2(a: &str, b: &str) -> (r: Vec<String>)
    ensures
        r@.len() == 2,
        r@[0]@ == a@,
        r@[1]@ == b@,
{
    let mut r: Vec<String> = Vec::new();
    r.push(text(a));
    r.push(text(b));
    r
}

fn names3(a: &str, b: &str, c: &str) -> (r: Vec<String>)
    ensures
        r@.len() == 3,
        r@[0]@ == a@,
        r@[1]@ == b@,
        r@[2]@ == c@,
{
    let mut r: Vec<String> = Vec::new();
    r.push(text(a));
    r.push(text(b));
    r.push(text(c));
    r
}

/// The object node of an item.
pub fn item_object() -> (o: ObjectSchema)
    ensures
        is_item_object(o),
        forall|defs: Seq<Definition>| #[trigger] object_resolves(defs, o),
{
    let mut ps: Vec<Property> = Vec::new();
    ps.push(text_prop("name"));
    ps.push(text_prop("homepage_url"));
    ps.push(text_prop("logo"));
    ps.push(text_prop("repo_url"));
    ps.push(text_prop("project_url"));
    ps.push(text_prop("twitter"));
    ps.push(text_prop("description"));
    let o = ObjectSchema { properties: ps, required: names2("name", "homepage_url") };
    assert(property_names(o) =~= seq![
        "name"@,
        "homepage_url"@,
        "logo"@,
        "repo_url"@,
        "project_url"@,
        "twitter"@,
        "description"@,
    ]);
    o
}

} // verus!

verus! {

/// The object node of a reference to another garden.
pub fn reference_object() -> (o: ObjectSchema)
    ensures
        is_reference_object(o),
        forall|defs: Seq<Definition>| #[trigger] object_resolves(defs, o),
{
    let mut ps: Vec<Property> = Vec::new();
    ps.push(text_prop("name"));
    ps.push(text_prop("url"));
    ps.push(text_prop("description"));
    ps.push(text_prop("logo"));
    ps.push(text_prop("version"));
    let o = ObjectSchema { properties: ps, required: names2("name", "url") };
    assert(property_names(o) =~= seq![
            "name"@,
            "url"@,
            "description"@,
            "logo"@,
            "version"@,
    ]);
    o
}

/// The object node of a category; its `categories` field refers back to the category definition.
pub fn category_object() -> (o: ObjectSchema)
    ensures
        is_category_object(o),
        forall|defs: Seq<Definition>| def_of(defs, "GardenItem"@) is Some && def_of(defs, "Category"@) is Some && def_of(defs, "GardenReference"@) is Some ==> #[trigger] object_resolves(defs, o),
{
    let mut ps: Vec<Property> = Vec::new();
    ps.push(text_prop("name"));
    ps.push(text_prop("description"));
    ps.push(text_prop("icon_color"));
    ps.push(array_prop("items", "GardenItem"));
    ps.push(array_prop("categories", "Category"));
    ps.push(array_prop("garden_refs", "GardenReference"));
    let o = ObjectSchema { properties: ps, required: names1("name") };
    assert(property_names(o) =~= seq![
            "name"@,
            "description"@,
            "icon_color"@,
            "items"@,
            "categories"@,
            "garden_refs"@,
    ]);
    o
}

/// The object node of a maintainer.
pub fn maintainer_object() -> (o: ObjectSchema)
    ensures
        is_maintainer_object(o),
        forall|defs: Seq<Definition>| #[trigger] object_resolves(defs, o),
{
    let mut ps: Vec<Property> = Vec::new();
    ps.push(text_prop("name"));
    ps.push(text_prop("email"));
    ps.push(text_prop("url"));
    let o = ObjectSchema { properties: ps, required: names1("name") };
    assert(property_names(o) =~= seq![
            "name"@,
            "email"@,
            "url"@,
    ]);
    o
}

/// The object node of a theme.
pub fn theme_object() -> (o: ObjectSchema)
    ensures
        is_theme_object(o),
        forall|defs: Seq<Definition>| #[trigger] object_resolves(defs, o),
{
    let mut ps: Vec<Property> = Vec::new();
    ps.push(text_prop("primary_color"));
    ps.push(text_prop("secondary_color"));
    ps.push(text_prop("background_color"));
    ps.push(text_prop("text_color"));
    let o = ObjectSchema { properties: ps, required: Vec::new() };
    assert(property_names(o) =~= seq![
            "primary_color"@,
            "secondary_color"@,
            "background_color"@,
            "text_color"@,
    ]);
    o
}

/// The object node of a garden, the root of the schema.
pub fn garden_object() -> (o: ObjectSchema)
    ensures
        is_garden_object(o),
        forall|defs: Seq<Definition>| def_of(defs, "Category"@) is Some && def_of(defs, "Maintainer"@) is Some && def_of(defs, "Theme"@) is Some && def_of(defs, "GardenReference"@) is Some ==> #[trigger] object_resolves(defs, o),
{
    let mut ps: Vec<Property> = Vec::new();
    ps.push(text_prop("name"));
    ps.push(text_prop("description"));
    ps.push(text_prop("version"));
    ps.push(array_prop("categories", "Category"));
    ps.push(array_prop("maintainers", "Maintainer"));
    ps.push(text_prop("created_at"));
    ps.push(text_prop("updated_at"));
    ps.push(ref_prop("theme", "Theme"));
    ps.push(array_prop("supergardens", "GardenReference"));
    ps.push(array_prop("subgardens", "GardenReference"));
    let o = ObjectSchema { properties: ps, required: names3("name", "version", "categories") };
    assert(property_names(o) =~= seq![
            "name"@,
            "description"@,
            "version"@,
            "categories"@,
            "maintainers"@,
            "created_at"@,
            "updated_at"@,
            "theme"@,
            "supergardens"@,
            "subgardens"@,
    ]);
    o
}

} // verus!

verus! {

/// The names of the definitions of `d`, in order.
pub open spec fn definition_names(d: SchemaDocument) -> Seq<Seq<char>> {
    d.definitions@.map_values(|x: Definition| x.name@)
}

fn definition(name: &str, object: ObjectSchema) -> (d: Definition)
    ensures
        d.name@ == name@,
        d.object == object,
{
    Definition { name: text(name), object }
}

/// The schema of a garden document, derived from the shape of the records:
/// one definition per nested record type, array fields as arrays of
/// references, and exactly the mandatory fields in each required list.
pub fn generate_garden_schema() -> (r: SchemaDocument)
    ensures
        property_names(r.root) == seq![
            "name"@,
            "description"@,
            "version"@,
            "categories"@,
            "maintainers"@,
            "created_at"@,
            "updated_at"@,
            "theme"@,
            "supergardens"@,
            "subgardens"@,
        ],
        forall|k: Seq<char>|
            #[trigger] is_required(r.root, k) <==> (k == "name"@ || k == "version"@ || k
                == "categories"@),
        definition_names(r) == seq![
            "Category"@,
            "GardenItem"@,
            "GardenReference"@,
            "Maintainer"@,
            "Theme"@,
        ],
        forall|k: Seq<char>| #[trigger] is_required(r.definitions@[0].object, k) <==> k == "name"@,
        forall|k: Seq<char>|
            #[trigger] is_required(r.definitions@[1].object, k) <==> (k == "name"@ || k
                == "homepage_url"@),
        forall|k: Seq<char>|
            #[trigger] is_required(r.definitions@[2].object, k) <==> (k == "name"@ || k == "url"@),
        forall|k: Seq<char>| #[trigger] is_required(r.definitions@[3].object, k) <==> k == "name"@,
        forall|k: Seq<char>| !#[trigger] is_required(r.definitions@[4].object, k),
        is_garden_object(r.root),
        is_category_object(r.definitions@[0].object),
        is_item_object(r.definitions@[1].object),
        is_reference_object(r.definitions@[2].object),
        is_maintainer_object(r.definitions@[3].object),
        is_theme_object(r.definitions@[4].object),
        refs_resolve(r),
{
    let mut defs: Vec<Definition> = Vec::new();
    defs.push(definition("Category", category_object()));
    defs.push(definition("GardenItem", item_object()));
    defs.push(definition("GardenReference", reference_object()));
    defs.push(definition("Maintainer", maintainer_object()));
    defs.push(definition("Theme", theme_object()));
    let r = SchemaDocument { title: text("Garden"), root: garden_object(), definitions: defs };
    proof {
        reveal_strlit("Category");
        reveal_strlit("GardenItem");
        reveal_strlit("GardenReference");
        reveal_strlit("Maintainer");
        reveal_strlit("Theme");
        let ds = r.definitions@;
        assert("GardenItem"@[6] != "GardenReference"@[6]);
        assert("Maintainer"@[0] != "GardenItem"@[0]);
        assert("Maintainer"@[0] != "Category"@[0]);
        assert("Theme"@[0] != "Category"@[0]);
        assert("Theme"@[0] != "GardenItem"@[0]);
        assert("Theme"@[0] != "Maintainer"@[0]);
        lemma_def_of_index(ds, 0, "Category"@);
        lemma_def_of_index(ds, 1, "GardenItem"@);
        lemma_def_of_index(ds, 2, "GardenReference"@);
        lemma_def_of_index(ds, 3, "Maintainer"@);
        lemma_def_of_index(ds, 4, "Theme"@);
        assert forall|k: int| 0 <= k < ds.len() implies object_resolves(ds, #[trigger] ds[k].object) by {
            assert(k == 0 || k == 1 || k == 2 || k == 3 || k == 4);
        }
    }
    assert(definition_names(r) =~= seq![
        "Category"@,
        "GardenItem"@,
        "GardenReference"@,
        "Maintainer"@,
        "Theme"@,
    ]);
    assert forall|k: Seq<char>|
        #[trigger] is_required(r.root, k) <==> (k == "name"@ || k == "version"@ || k
            == "categories"@) by {
        if k == "name"@ {
            assert(r.root.required@[0]@ == k);
        } else if k == "version"@ {
            assert(r.root.required@[1]@ == k);
        } else if k == "categories"@ {
            assert(r.root.required@[2]@ == k);
        }
    }
    assert forall|k: Seq<char>| #[trigger] is_required(r.definitions@[1].object, k) <==> (k
        == "name"@ || k == "homepage_url"@) by {
        if k == "name"@ {
            assert(r.definitions@[1].object.required@[0]@ == k);
        } else if k == "homepage_url"@ {
            assert(r.definitions@[1].object.required@[1]@ == k);
        }
    }
    assert forall|k: Seq<char>| #[trigger] is_required(r.definitions@[2].object, k) <==> (k
        == "name"@ || k == "url"@) by {
        if k == "name"@ {
            assert(r.definitions@[2].object.required@[0]@ == k);
        } else if k == "url"@ {
            assert(r.definitions@[2].object.required@[1]@ == k);
        }
    }
    assert forall|k: Seq<char>| #[trigger] is_required(r.definitions@[0].object, k) <==> k == "name"@ by {
        if k == "name"@ {
            assert(r.definitions@[0].object.required@[0]@ == k);
        }
    }
    assert forall|k: Seq<char>| #[trigger] is_required(r.definitions@[3].object, k) <==> k == "name"@ by {
        if k == "name"@ {
            assert(r.definitions@[3].object.required@[0]@ == k);
        }
    }
    r
}

} // verus!

verus! {

/// Field `k` of `ms` is the string `s`.
pub open spec fn text_at(ms: Seq<Member>, k: Seq<char>, s: Seq<char>) -> bool {
    lookup(ms, k) matches Some(Json::Str(t)) && t@ == s
}

/// Where a reference to the definition `name` points.
pub open spec fn ref_target(name: Seq<char>) -> Seq<char> {
    "#/definitions/"@ + name
}

/// `j` is the JSON form of node `n`.
pub open spec fn renders_node(n: SchemaNode, j: Json) -> bool
    decreases n,
{
    match j {
        Json::Object(ms) => match n {
            SchemaNode::Text => text_at(ms@, "type"@, "string"@),
            SchemaNode::Ref(d) => text_at(ms@, "$ref"@, ref_target(d@)),
            SchemaNode::ArrayOf(inner) => {
                &&& text_at(ms@, "type"@, "array"@)
                &&& lookup(ms@, "items"@) matches Some(x) && renders_node(*inner, x)
            },
        },
        _ => false,
    }
}

/// `j` is an array of the strings `names`, in order.
pub open spec fn renders_names(names: Seq<String>, j: Json) -> bool {
    j matches Json::Array(a) && a@.len() == names.len() && forall|i: int|
        0 <= i < names.len() ==> (#[trigger] a@[i] matches Json::Str(s) && s@ == names[i]@)
}

/// `j` is the JSON form of the object node `o`: its type, its required list,
/// and one member per declared property, in order.
pub open spec fn renders_object(o: ObjectSchema, j: Json) -> bool {
    match j {
        Json::Object(ms) => {
            &&& text_at(ms@, "type"@, "object"@)
            &&& lookup(ms@, "required"@) matches Some(r) && renders_names(o.required@, r)
            &&& lookup(ms@, "properties"@) matches Some(Json::Object(ps)) && ps@.len()
                == o.properties@.len() && forall|i: int|
                0 <= i < ps@.len() ==> #[trigger] ps@[i].key@ == o.properties@[i].name@
                    && renders_node(o.properties@[i].node, ps@[i].value)
        },
        _ => false,
    }
}

proof fn lemma_schema_keys()
    ensures
        "type"@.len() == 4,
        "$ref"@.len() == 4,
        "type"@[0] == 't',
        "$ref"@[0] == '$',
        "items"@.len() == 5,
        "required"@.len() == 8,
        "properties"@.len() == 10,
        "definitions"@.len() == 11,
        "title"@.len() == 5,
        "title"@[0] == 't',
        "items"@[0] == 'i',
        "$schema"@.len() == 7,
{
    reveal_strlit("type");
    reveal_strlit("$ref");
    reveal_strlit("items");
    reveal_strlit("required");
    reveal_strlit("properties");
    reveal_strlit("definitions");
    reveal_strlit("title");
    reveal_strlit("$schema");
}

/// The JSON form of a node.
pub fn node_json(n: &SchemaNode) -> (j: Json)
    ensures
        renders_node(*n, j),
    decreases n,
{
    proof { lemma_schema_keys(); }
    let mut ms: Vec<Member> = Vec::new();
    match n {
        SchemaNode::Text => push_member(&mut ms, "type", Json::Str(text("string"))),
        SchemaNode::Ref(d) => {
            let target = text("#/definitions/").concat(d.as_str());
            push_member(&mut ms, "$ref", Json::Str(target));
        },
        SchemaNode::ArrayOf(inner) => {
            push_member(&mut ms, "type", Json::Str(text("array")));
            push_member(&mut ms, "items", node_json(inner));
        },
    }
    Json::Object(ms)
}

/// An array of the given strings.
pub fn names_json(names: &Vec<String>) -> (j: Json)
    ensures
        renders_names(names@, j),
{
    let mut a: Vec<Json> = Vec::new();
    let mut i: usize = 0;
    while i < names.len()
        invariant
            0 <= i <= names@.len(),
            a@.len() == i,
            forall|k: int| 0 <= k < i ==> (#[trigger] a@[k] matches Json::Str(s) && s@ == names@[k]@),
        decreases names.len() - i,
    {
        a.push(Json::Str(names[i].clone()));
        i += 1;
    }
    Json::Array(a)
}

/// The members of the JSON form of an object node.
fn object_members(o: &ObjectSchema) -> (ms: Vec<Member>)
    ensures
        renders_object(*o, Json::Object(ms)),
        lookup(ms@, "title"@) is None,
        lookup(ms@, "definitions"@) is None,
{
    proof { lemma_schema_keys(); }
    let mut ps: Vec<Member> = Vec::new();
    let mut i: usize = 0;
    while i < o.properties.len()
        invariant
            0 <= i <= o.properties@.len(),
            ps@.len() == i,
            forall|k: int|
                0 <= k < i ==> #[trigger] ps@[k].key@ == o.properties@[k].name@ && renders_node(
                    o.properties@[k].node,
                    ps@[k].value,
                ),
        decreases o.properties.len() - i,
    {
        let p = &o.properties[i];
        ps.push(Member { key: p.name.clone(), value: node_json(&p.node) });
        i += 1;
    }
    let mut ms: Vec<Member> = Vec::new();
    push_member(&mut ms, "type", Json::Str(text("object")));
    push_member(&mut ms, "required", names_json(&o.required));
    push_member(&mut ms, "properties", Json::Object(ps));
    ms
}

/// The JSON form of an object node.
pub fn object_json(o: &ObjectSchema) -> (j: Json)
    ensures
        renders_object(*o, j),
{
    Json::Object(object_members(o))
}

impl SchemaDocument {
    /// The schema as a JSON document: the root object's members, a title, and
    /// one member of `definitions` per definition, in order.
    pub fn to_json(&self) -> (j: Json)
        ensures
            j matches Json::Object(ms) && {
                &&& text_at(ms@, "title"@, self.title@)
                &&& lookup(ms@, "definitions"@) matches Some(Json::Object(ds)) && ds@.len()
                    == self.definitions@.len() && forall|i: int|
                    0 <= i < ds@.len() ==> #[trigger] ds@[i].key@ == self.definitions@[i].name@
                        && renders_object(self.definitions@[i].object, ds@[i].value)
            },
            renders_object(self.root, j),
    {
        proof { lemma_schema_keys(); }
        let mut ds: Vec<Member> = Vec::new();
        let mut i: usize = 0;
        while i < self.definitions.len()
            invariant
                0 <= i <= self.definitions@.len(),
                ds@.len() == i,
                forall|k: int|
                    0 <= k < i ==> #[trigger] ds@[k].key@ == self.definitions@[k].name@ && renders_object(
                        self.definitions@[k].object,
                        ds@[k].value,
                    ),
            decreases self.definitions.len() - i,
        {
            let d = &self.definitions[i];
            ds.push(Member { key: d.name.clone(), value: object_json(&d.object) });
            i += 1;
        }
        let mut ms = object_members(&self.root);
        push_member(&mut ms, "title", Json::Str(self.title.clone()));
        push_member(&mut ms, "definitions", Json::Object(ds));
        Json::Object(ms)
    }
}

} // verus!
