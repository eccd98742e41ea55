use garden::codec::{DecodeErrorKind, JsonCodec};
use garden::json::{Json, Member};
use garden::model::{Category, Garden, GardenItem, GardenReference, Maintainer, Sprout, Theme};
use garden::schema::{generate_garden_schema, Definition, ObjectSchema, Property, SchemaDocument, SchemaNode};
use garden::validate::{PathSegment, Validator, Violation, ViolationKind};

fn st(s: &str) -> Json {
    Json::Str(s.to_string())
}

fn obj(fields: Vec<(&str, Json)>) -> Json {
    Json::Object(fields.into_iter().map(|(k, v)| Member { key: k.to_string(), value: v }).collect())
}

fn keys(j: &Json) -> Vec<String> {
    match j {
        Json::Object(ms) => ms.iter().map(|m| m.key.clone()).collect(),
        _ => panic!("not an object"),
    }
}

fn validator() -> Validator {
    match Validator::compile(generate_garden_schema()) {
        Ok(v) => v,
        Err(_) => panic!("Failed to compile schema"),
    }
}

fn missing(vs: &[Violation]) -> Vec<String> {
    vs.iter()
        .filter_map(|v| match &v.kind {
            ViolationKind::MissingRequired(n) => Some(n.clone()),
            _ => None,
        })
        .collect()
}

fn sample_input() -> Json {
    obj(vec![
        ("name", st("Test Garden")),
        ("description", st("A test garden")),
        ("version", st("1.0.0")),
        (
            "categories",
            Json::Array(vec![obj(vec![
                ("name", st("Test Category")),
                ("description", st("A test category")),
                (
                    "items",
                    Json::Array(vec![obj(vec![
                        ("name", st("Test Item")),
                        ("homepage_url", st("https://example.com")),
                        ("description", st("A test item")),
                    ])]),
                ),
            ])]),
        ),
    ])
}

fn item(name: &str) -> GardenItem {
    GardenItem {
        name: name.to_string(),
        homepage_url: format!("https://{}.example.com", name),
        logo: None,
        repo_url: Some("https://git.example.com/r".to_string()),
        project_url: None,
        twitter: None,
        description: None,
    }
}

fn leaf(name: &str) -> Category {
    Category {
        name: name.to_string(),
        description: None,
        icon_color: None,
        items: Some(vec![item(name)]),
        categories: None,
        garden_refs: None,
    }
}

fn full_garden() -> Garden {
    let mut mid = leaf("mid");
    mid.categories = Some(vec![leaf("deep")]);
    let mut top = leaf("top");
    top.icon_color = Some("#00ff00".to_string());
    top.categories = Some(vec![mid, leaf("side")]);
    top.garden_refs = Some(vec![GardenReference {
        name: "other".to_string(),
        url: "https://other.example.com".to_string(),
        description: None,
        logo: None,
        version: Some("2.0".to_string()),
    }]);
    Garden {
        name: "G".to_string(),
        description: None,
        version: "1.0.0".to_string(),
        categories: vec![top],
        maintainers: Some(vec![Maintainer { name: "m".to_string(), email: Some("m@example.com".to_string()), url: None }]),
        created_at: Some("2024-01-01".to_string()),
        updated_at: None,
        theme: Some(Theme {
            primary_color: Some("red".to_string()),
            secondary_color: None,
            background_color: None,
            text_color: Some("black".to_string()),
        }),
        supergardens: None,
        subgardens: Some(vec![]),
    }
}

#[test]
fn test_schema_and_serde() {
    let compiled = validator();
    let input = sample_input();
    let errors = compiled.validate(&input);
    assert!(errors.is_empty(), "Validation failed");
    let garden = match Garden::decode(&input) {
        Ok(g) => g,
        Err(_) => panic!("decode failed"),
    };
    assert_eq!(garden.name, "Test Garden");
    assert_eq!(garden.description.as_deref(), Some("A test garden"));
    let items = garden.categories[0].items.as_ref().unwrap();
    assert_eq!(items[0].homepage_url, "https://example.com");
    assert_eq!(items[0].description.as_deref(), Some("A test item"));
    let encoded = garden.encode();
    assert!(compiled.validate(&encoded).is_empty());
    assert_eq!(keys(&encoded), vec!["name", "description", "version", "categories"]);
}

#[test]
fn test_invalid_input() {
    let compiled = validator();
    let invalid_input = obj(vec![("name", st("Invalid Garden")), ("categories", Json::Array(vec![]))]);
    let errors = compiled.validate(&invalid_input);
    assert!(!errors.is_empty(), "Expected validation to fail");
    assert_eq!(missing(&errors), vec!["version"]);
}

#[test]
fn lib_test_invalid_input() {
    let compiled = validator();
    let invalid_input = obj(vec![("name", st("Invalid Garden"))]);
    let errors = compiled.validate(&invalid_input);
    assert!(!errors.is_empty(), "Expected validation to fail");
    assert!(missing(&errors).contains(&"categories".to_string()));
}

#[test]
fn garden_round_trip_keeps_every_field() {
    let g = full_garden();
    let back = Garden::decode(&g.encode()).ok().unwrap();
    let top = &back.categories[0];
    assert_eq!(top.icon_color.as_deref(), Some("#00ff00"));
    let kids = top.categories.as_ref().unwrap();
    assert_eq!(kids.len(), 2);
    assert_eq!(kids[0].name, "mid");
    assert_eq!(kids[1].name, "side");
    let deep = &kids[0].categories.as_ref().unwrap()[0];
    assert_eq!(deep.name, "deep");
    assert_eq!(deep.items.as_ref().unwrap()[0].homepage_url, "https://deep.example.com");
    assert_eq!(top.garden_refs.as_ref().unwrap()[0].version.as_deref(), Some("2.0"));
    assert_eq!(back.maintainers.as_ref().unwrap()[0].email.as_deref(), Some("m@example.com"));
    assert_eq!(back.created_at.as_deref(), Some("2024-01-01"));
    assert!(back.updated_at.is_none());
    let theme = back.theme.as_ref().unwrap();
    assert_eq!(theme.primary_color.as_deref(), Some("red"));
    assert!(theme.secondary_color.is_none());
    assert_eq!(back.subgardens.as_ref().unwrap().len(), 0);
    assert!(back.supergardens.is_none());
}

#[test]
fn item_round_trip() {
    let i = item("x");
    let back = GardenItem::decode(&i.encode()).ok().unwrap();
    assert_eq!(back.name, "x");
    assert_eq!(back.homepage_url, "https://x.example.com");
    assert_eq!(back.repo_url.as_deref(), Some("https://git.example.com/r"));
    assert!(back.logo.is_none());
}

#[test]
fn absent_optional_fields_have_no_key() {
    assert_eq!(keys(&item("x").encode()), vec!["name", "homepage_url", "repo_url"]);
    let g = full_garden();
    let j = g.encode();
    assert_eq!(
        keys(&j),
        vec!["name", "version", "categories", "maintainers", "created_at", "theme", "subgardens"]
    );
    let t = Theme { primary_color: None, secondary_color: None, background_color: None, text_color: None };
    assert!(keys(&t.encode()).is_empty());
    assert_eq!(keys(&leaf("l").encode()), vec!["name", "items"]);
}

#[test]
fn schema_requires_exactly_name_version_categories() {
    let s = generate_garden_schema();
    let req: Vec<&str> = s.root.required.iter().map(|r| r.as_str()).collect();
    assert_eq!(req, vec!["name", "version", "categories"]);
    let props: Vec<&str> = s.root.properties.iter().map(|p| p.name.as_str()).collect();
    assert_eq!(
        props,
        vec![
            "name", "description", "version", "categories", "maintainers", "created_at", "updated_at", "theme",
            "supergardens", "subgardens"
        ]
    );
    let defs: Vec<&str> = s.definitions.iter().map(|d| d.name.as_str()).collect();
    assert_eq!(defs, vec!["Category", "GardenItem", "GardenReference", "Maintainer", "Theme"]);
    match &s.definitions[0].object.properties[4].node {
        SchemaNode::ArrayOf(inner) => match inner.as_ref() {
            SchemaNode::Ref(d) => assert_eq!(d, "Category"),
            _ => panic!("expected a reference"),
        },
        _ => panic!("expected an array"),
    }
}

#[test]
fn three_level_nesting_validates() {
    let it = |n: &str| obj(vec![("name", st(n)), ("homepage_url", st("https://example.com"))]);
    let c3 = obj(vec![("name", st("c3")), ("items", Json::Array(vec![it("i3")]))]);
    let c2 = obj(vec![
        ("name", st("c2")),
        ("items", Json::Array(vec![it("i2")])),
        ("categories", Json::Array(vec![c3])),
    ]);
    let c1 = obj(vec![
        ("name", st("c1")),
        ("items", Json::Array(vec![it("i1")])),
        ("categories", Json::Array(vec![c2])),
    ]);
    let doc = obj(vec![("name", st("g")), ("version", st("1")), ("categories", Json::Array(vec![c1]))]);
    assert!(validator().validate(&doc).is_empty());
    assert!(Garden::decode(&doc).is_ok());
}

#[test]
fn deep_item_error_is_reported_with_its_path() {
    let bad_item = obj(vec![("name", st("i"))]);
    let c2 = obj(vec![("name", st("c2")), ("items", Json::Array(vec![bad_item]))]);
    let c1 = obj(vec![("name", st("c1")), ("categories", Json::Array(vec![c2]))]);
    let doc = obj(vec![("name", st("g")), ("version", st("1")), ("categories", Json::Array(vec![c1]))]);
    let vs = validator().validate(&doc);
    assert_eq!(vs.len(), 1);
    assert_eq!(missing(&vs), vec!["homepage_url"]);
    let path: Vec<String> = vs[0]
        .path
        .iter()
        .map(|p| match p {
            PathSegment::Key(k) => k.clone(),
            PathSegment::Index(i) => i.to_string(),
        })
        .collect();
    assert_eq!(path, vec!["categories", "0", "categories", "0", "items", "0"]);
}

#[test]
fn sample_document_decodes_homepage_url() {
    let input = sample_input();
    assert_eq!(validator().validate(&input).len(), 0);
    let g = Garden::decode(&input).ok().unwrap();
    assert_eq!(g.categories[0].items.as_ref().unwrap()[0].homepage_url, "https://example.com");
}

#[test]
fn unknown_field_accepted_unless_strict() {
    let cat = obj(vec![("name", st("c")), ("color", st("red"))]);
    let doc = obj(vec![("name", st("g")), ("version", st("1")), ("categories", Json::Array(vec![cat]))]);
    assert!(validator().validate(&doc).is_empty());
    assert!(Garden::decode(&doc).is_ok());
    let vs = validator().with_strict(true).validate(&doc);
    assert_eq!(vs.len(), 1);
    match &vs[0].kind {
        ViolationKind::UnknownField(k) => assert_eq!(k, "color"),
        _ => panic!("expected an unknown field"),
    }
}

#[test]
fn type_mismatches_are_each_reported() {
    let doc = obj(vec![
        ("name", Json::Number("3".to_string())),
        ("version", st("1")),
        ("categories", st("none")),
        ("theme", Json::Bool(true)),
    ]);
    let vs = validator().validate(&doc);
    assert_eq!(vs.len(), 3);
    assert!(matches!(vs[0].kind, ViolationKind::NotAString));
    assert!(matches!(vs[1].kind, ViolationKind::NotAnArray));
    assert!(matches!(vs[2].kind, ViolationKind::NotAnObject));
    assert!(matches!(validator().validate(&Json::Null)[0].kind, ViolationKind::NotAnObject));
}

#[test]
fn null_optional_field_is_a_violation() {
    let doc = obj(vec![
        ("name", st("g")),
        ("version", st("1")),
        ("categories", Json::Array(vec![])),
        ("description", Json::Null),
    ]);
    assert_eq!(validator().validate(&doc).len(), 1);
    let e = Garden::decode(&doc).err().unwrap();
    assert_eq!(e.field, "description");
    assert!(matches!(e.kind, DecodeErrorKind::WrongType));
}

#[test]
fn depth_limit_is_reported() {
    let mut c = obj(vec![("name", st("leaf"))]);
    for _ in 0..5 {
        c = obj(vec![("name", st("c")), ("categories", Json::Array(vec![c]))]);
    }
    let doc = obj(vec![("name", st("g")), ("version", st("1")), ("categories", Json::Array(vec![c]))]);
    assert!(validator().validate(&doc).is_empty());
    let vs = validator().with_max_depth(4).validate(&doc);
    assert_eq!(vs.len(), 2);
    assert!(vs.iter().all(|v| matches!(v.kind, ViolationKind::DepthExceeded)));
}

#[test]
fn decode_errors_name_the_field() {
    let no_version = obj(vec![("name", st("g")), ("categories", Json::Array(vec![]))]);
    let e = Garden::decode(&no_version).err().unwrap();
    assert_eq!(e.field, "version");
    assert!(matches!(e.kind, DecodeErrorKind::Missing));
    let no_categories = obj(vec![("name", st("g")), ("version", st("1"))]);
    let e = Garden::decode(&no_categories).err().unwrap();
    assert_eq!(e.field, "categories");
    assert!(matches!(e.kind, DecodeErrorKind::Missing));
    let bad = obj(vec![("name", st("g")), ("version", Json::Bool(false)), ("categories", Json::Array(vec![]))]);
    let e = Garden::decode(&bad).err().unwrap();
    assert_eq!(e.field, "version");
    assert!(matches!(e.kind, DecodeErrorKind::WrongType));
    assert!(matches!(Maintainer::decode(&st("x")).err().unwrap().kind, DecodeErrorKind::NotAnObject));
    let nested = obj(vec![("name", st("c")), ("categories", Json::Array(vec![obj(vec![])]))]);
    let e = Category::decode(&nested).err().unwrap();
    assert_eq!(e.field, "name");
}

#[test]
fn unresolved_reference_fails_to_compile() {
    let root = ObjectSchema {
        properties: vec![Property {
            name: "things".to_string(),
            node: SchemaNode::ArrayOf(Box::new(SchemaNode::Ref("Thing".to_string()))),
        }],
        required: vec![],
    };
    let other = ObjectSchema { properties: vec![], required: vec![] };
    let doc = SchemaDocument {
        title: "T".to_string(),
        root,
        definitions: vec![Definition { name: "Other".to_string(), object: other }],
    };
    match Validator::compile(doc) {
        Ok(_) => panic!("expected a compile error"),
        Err(e) => {
            assert!(e.definition.is_none());
            assert_eq!(e.property, "things");
            assert_eq!(e.target, "Thing");
        },
    }
}

#[test]
fn sprout_becomes_item() {
    let s = Sprout {
        name: "s".to_string(),
        homepage_url: "https://s.example.com".to_string(),
        logo: Some("l.png".to_string()),
        repo_url: None,
        project_url: None,
        twitter: Some("@s".to_string()),
        description: None,
    };
    let i = s.into_item();
    assert_eq!(i.name, "s");
    assert_eq!(i.logo.as_deref(), Some("l.png"));
    assert_eq!(i.twitter.as_deref(), Some("@s"));
}

fn member<'a>(j: &'a Json, k: &str) -> &'a Json {
    match j {
        Json::Object(ms) => &ms.iter().find(|m| m.key == k).unwrap().value,
        _ => panic!("not an object"),
    }
}

fn string_of(j: &Json) -> &str {
    match j {
        Json::Str(s) => s.as_str(),
        _ => panic!("not a string"),
    }
}

#[test]
fn schema_document_renders_as_json() {
    let j = generate_garden_schema().to_json();
    assert_eq!(string_of(member(&j, "title")), "Garden");
    assert_eq!(string_of(member(&j, "type")), "object");
    match member(&j, "required") {
        Json::Array(a) => {
            let names: Vec<&str> = a.iter().map(string_of).collect();
            assert_eq!(names, vec!["name", "version", "categories"]);
        },
        _ => panic!("required is not an array"),
    }
    let props = member(&j, "properties");
    assert_eq!(keys(props).len(), 10);
    assert_eq!(string_of(member(member(props, "name"), "type")), "string");
    let cats = member(props, "categories");
    assert_eq!(string_of(member(cats, "type")), "array");
    assert_eq!(string_of(member(member(cats, "items"), "$ref")), "#/definitions/Category");
    assert_eq!(string_of(member(member(props, "theme"), "$ref")), "#/definitions/Theme");
    let defs = member(&j, "definitions");
    assert_eq!(keys(defs), vec!["Category", "GardenItem", "GardenReference", "Maintainer", "Theme"]);
    let item_req = member(member(defs, "GardenItem"), "required");
    match item_req {
        Json::Array(a) => assert_eq!(a.len(), 2),
        _ => panic!("required is not an array"),
    }
}

#[test]
fn category_round_trip_keeps_nesting() {
    let mut c = leaf("a");
    c.categories = Some(vec![leaf("b"), leaf("c")]);
    c.description = Some("d".to_string());
    let back = Category::decode(&c.encode()).ok().unwrap();
    assert_eq!(back.description.as_deref(), Some("d"));
    let kids = back.categories.unwrap();
    assert_eq!(kids.len(), 2);
    assert_eq!(kids[1].items.as_ref().unwrap()[0].name, "c");
    assert!(back.garden_refs.is_none());
}
