use apidsl::constructs::{merge_arguments, ParameterWithType};
use apidsl::data::{
    HttpMethod, Literal, Object, Operation, OperationContent, Parameter, ParameterContent,
    ParameterType, Parameters, Path, PathContent, ReferenceOr, Requirement, Type,
    TypeWithAttributes, Value,
};
use apidsl::lex::to_chars;
use apidsl::literals::integer_literal;
use apidsl::openapi::{self, OpenApi, Schema};
use apidsl::{generate, is_identifier_body, is_identifier_prefix, parse, ConvertError};

fn objects(src: &str) -> Vec<Object> {
    parse(src).expect("source parses").objects
}

fn document(src: &str, config: Option<&str>) -> OpenApi {
    generate(objects(src), config.map(|c| c.to_string())).expect("document converts")
}

fn int_at(text: &str) -> Option<(i64, usize)> {
    integer_literal(&to_chars(text), 0)
}

fn schema_named<'a>(d: &'a OpenApi, name: &str) -> &'a openapi::ReferenceOr<Schema> {
    &d.components
        .schemas
        .iter()
        .rev()
        .find(|(n, _)| n == name)
        .expect("schema present")
        .1
}

const INFO: &str = "default info I { title = \"T\" version = \"1\" }";

#[test]
fn integer_literals_agree_across_bases() {
    assert_eq!(int_at("0x1A"), Some((26, 4)));
    assert_eq!(int_at("0o32"), Some((26, 4)));
    assert_eq!(int_at("0b11010"), Some((26, 7)));
    assert_eq!(int_at("26"), Some((26, 2)));
    assert_eq!(int_at("0xff"), Some((255, 4)));
}

#[test]
fn integer_literal_edges() {
    assert_eq!(int_at("9223372036854775807"), Some((i64::MAX, 19)));
    assert_eq!(int_at("9223372036854775808"), None);
    assert_eq!(int_at("0x"), None);
    assert_eq!(int_at("0b2"), None);
    assert_eq!(int_at("0o9"), None);
    assert_eq!(int_at("0b102"), Some((2, 4)));
    assert_eq!(int_at("abc"), None);
    assert_eq!(int_at(""), None);
}

#[test]
fn identifier_character_classes() {
    assert!(is_identifier_prefix('a'));
    assert!(is_identifier_prefix('_'));
    assert!(is_identifier_prefix('é'));
    assert!(!is_identifier_prefix('1'));
    assert!(is_identifier_body('1'));
    assert!(!is_identifier_body('-'));
}

#[test]
fn enum_members_keep_declaration_order() {
    let objs = objects("enum E { a, \"b\", , c }");
    assert_eq!(objs.len(), 1);
    match &objs[0] {
        Object::Enum(e) => {
            assert_eq!(e.name, "E");
            assert_eq!(e.content.selection, vec!["a", "b", "c"]);
        }
        other => panic!("not an enum: {:?}", other),
    }
    let d = document(&format!("enum E {{ a, \"b\", , c, }}\n{}", INFO), None);
    match schema_named(&d, "E") {
        openapi::ReferenceOr::Value(Schema::String { selection, format, .. }) => {
            assert_eq!(selection.clone().unwrap(), vec!["a", "b", "c"]);
            assert!(format.is_none());
        }
        other => panic!("not a string schema: {:?}", other),
    }
}

#[test]
fn required_fields_are_listed() {
    let src = format!(
        "schema S {{ f: required String, g: optional Int32, h: Bool }}\n{}",
        INFO
    );
    let d = document(&src, None);
    match schema_named(&d, "S") {
        openapi::ReferenceOr::Value(Schema::Object { required, properties, .. }) => {
            assert_eq!(required, &vec!["f".to_string(), "h".to_string()]);
            let names: Vec<&str> = properties.iter().map(|(n, _)| n.as_str()).collect();
            assert_eq!(names, vec!["f", "g", "h"]);
            match &properties[1].1 {
                openapi::ReferenceOr::Value(Schema::Integer { format, .. }) => {
                    assert_eq!(format.as_deref(), Some("int32"))
                }
                other => panic!("not an integer: {:?}", other),
            }
        }
        other => panic!("not an object: {:?}", other),
    }
}

#[test]
fn info_inherits_unset_fields() {
    let src = "info A { title = \"T\" version = \"1\" }\ninfo B : A { version = \"2\" }";
    let d = document(src, Some("B"));
    assert_eq!(d.info.title, "T");
    assert_eq!(d.info.version, "2");
    assert!(d.info.description.is_none());
    assert_eq!(d.openapi, "3.1.0");
}

#[test]
fn info_fields_in_any_order_and_extends_keyword() {
    let src = "info A { version = \"1\" description = \"d\" title = \"T\" }\ninfo B extends A { title = \"U\" }";
    let d = document(src, Some("B"));
    assert_eq!(d.info.title, "U");
    assert_eq!(d.info.version, "1");
    assert_eq!(d.info.description.as_deref(), Some("d"));
}

#[test]
fn unknown_configuration_is_an_error() {
    let src = "info A { title = \"T\" version = \"1\" }";
    match generate(objects(src), Some("C".to_string())) {
        Err(ConvertError::UnknownConfig(n)) => assert_eq!(n, "C"),
        other => panic!("expected an unknown configuration: {:?}", other),
    }
    match generate(objects(src), None) {
        Err(ConvertError::NoConfig) => {}
        other => panic!("expected no configuration: {:?}", other),
    }
}

#[test]
fn missing_title_or_version_is_an_error() {
    match generate(objects("default info A { version = \"1\" }"), None) {
        Err(ConvertError::MissingTitle) => {}
        other => panic!("expected a missing title: {:?}", other),
    }
    match generate(objects("default info A { title = \"T\" }"), None) {
        Err(ConvertError::MissingVersion) => {}
        other => panic!("expected a missing version: {:?}", other),
    }
}

#[test]
fn broken_inheritance_is_an_error() {
    match generate(objects("default info A : Z { title = \"T\" version = \"1\" }"), None) {
        Err(ConvertError::UnknownBase(n)) => assert_eq!(n, "Z"),
        other => panic!("expected an unknown base: {:?}", other),
    }
    let cyclic = "default info A : B { title = \"T\" }\ninfo B : A { version = \"1\" }";
    match generate(objects(cyclic), None) {
        Err(ConvertError::CyclicBase(_)) => {}
        other => panic!("expected a cycle: {:?}", other),
    }
}

#[test]
fn single_get_path_converts() {
    let src = format!("path \"/p\" {{ get op() {{ return 200 String }} }}\n{}", INFO);
    let d = document(&src, None);
    assert_eq!(d.paths.content.len(), 1);
    let (name, p) = &d.paths.content[0];
    assert_eq!(name, "/p");
    let get = p.get.as_ref().expect("get operation");
    assert_eq!(get.operation_id, "op");
    assert!(get.responses.default.is_none());
    assert_eq!(get.responses.code.len(), 1);
    assert_eq!(get.responses.code[0].0, "200");
    match &get.responses.code[0].1 {
        openapi::ReferenceOr::Value(r) => {
            assert!(r.headers.is_empty());
            assert_eq!(r.content.len(), 1);
            assert_eq!(r.content[0].0, "application/json");
            assert!(matches!(
                &r.content[0].1.schema,
                openapi::ReferenceOr::Value(Schema::String { format: None, selection: None, .. })
            ));
        }
        other => panic!("expected a string response: {:?}", other),
    }
    assert!(p.post.is_none() && p.put.is_none() && p.delete.is_none());
    assert!(p.options.is_none() && p.head.is_none() && p.patch.is_none() && p.trace.is_none());
}

#[test]
fn inline_response_has_json_content() {
    let src = format!(
        "path \"/p\" {{ get op() {{ return default response {{ content = String }} }} }}\n{}",
        INFO
    );
    let d = document(&src, None);
    let get = d.paths.content[0].1.get.as_ref().unwrap();
    match get.responses.default.as_ref().unwrap() {
        openapi::ReferenceOr::Value(r) => {
            assert_eq!(r.content.len(), 1);
            assert_eq!(r.content[0].0, "application/json");
            match &r.content[0].1.schema {
                openapi::ReferenceOr::Value(Schema::String { format, .. }) => assert!(format.is_none()),
                other => panic!("not a string: {:?}", other),
            }
        }
        other => panic!("expected an inline response: {:?}", other),
    }
}

#[test]
fn last_body_argument_wins() {
    let src = "path \"/p\" { post op(body=A, body=B) { return 200 R } }";
    let objs = objects(src);
    match &objs[0] {
        Object::Path(p) => {
            let op = p.content.post.as_ref().expect("post operation");
            match &op.request_body {
                Some(ReferenceOr::Ref(n)) => assert_eq!(n, "B"),
                other => panic!("expected the last body: {:?}", other),
            }
        }
        other => panic!("not a path: {:?}", other),
    }
    let d = document(&format!("{}\n{}", src, INFO), None);
    let post = d.paths.content[0].1.post.as_ref().unwrap();
    match post.request_body.as_ref().unwrap() {
        openapi::ReferenceOr::Ref { ref_path } => assert_eq!(ref_path, "#/components/requestBodies/B"),
        other => panic!("expected a reference: {:?}", other),
    }
}

fn query(name: &str) -> Parameter {
    Parameter {
        name: name.to_string(),
        ty: Some(ParameterType::Query),
        content: ParameterContent {
            content: TypeWithAttributes { target_type: Type::Bool, attributes: vec![] },
            requirement: Requirement::Optional,
            attributes: vec![],
        },
    }
}

#[test]
fn merging_arguments_keeps_parameters_and_last_body() {
    let args = vec![
        ParameterWithType::RequestBody(ReferenceOr::Ref("X".to_string())),
        ParameterWithType::Queries(Parameters { parameters: vec![query("q")] }),
        ParameterWithType::RequestBody(ReferenceOr::Ref("Y".to_string())),
        ParameterWithType::Cookies(Parameters { parameters: vec![query("c")] }),
    ];
    let (ps, body) = merge_arguments(args);
    let names: Vec<&str> = ps.parameters.iter().map(|p| p.name.as_str()).collect();
    assert_eq!(names, vec!["q", "c"]);
    match body {
        Some(ReferenceOr::Ref(n)) => assert_eq!(n, "Y"),
        other => panic!("expected the last body: {:?}", other),
    }
}

#[test]
fn conversion_is_repeatable() {
    let src = format!(
        "schema S {{ a: List<Int64 with minimum = 1> }}\ntag T with x = \"y\"\npath \"/p\" {{ get op(queries=parameters{{ q: query {{ content = String }} }}) {{ return 201 response {{ content = S }} }} }}\n{}",
        INFO
    );
    let a = format!("{:?}", document(&src, None));
    let b = format!("{:?}", document(&src, None));
    assert_eq!(a, b);
}

#[test]
fn trailing_text_is_a_syntax_error() {
    let err = parse("tag T\n???").unwrap_err();
    assert_eq!(err.position, 6);
    assert!(parse("").unwrap().objects.is_empty());
}

#[test]
fn return_code_needs_three_digits() {
    assert!(parse("path \"/p\" { get op() { return 20 X } }").is_err());
    assert!(parse("path \"/p\" { get op() { return 2000 X } }").is_err());
}

#[test]
fn default_verb_is_dropped_and_patch_is_not_a_verb() {
    let objs = objects("path \"/p\" { default op() { return 200 X } }");
    match &objs[0] {
        Object::Path(p) => {
            let c = &p.content;
            assert!(c.get.is_none() && c.post.is_none() && c.patch.is_none());
        }
        other => panic!("not a path: {:?}", other),
    }
    assert!(parse("path \"/p\" { patch op() { return 200 X } }").is_err());
}

#[test]
fn attributes_keep_last_value() {
    let objs = objects("tag T with a = 1, b = true, a = 0x10, c = name, d = r#\"raw\"#");
    match &objs[0] {
        Object::Tag(t) => {
            assert_eq!(t.name, "T");
            assert_eq!(t.attributes.len(), 4);
            assert_eq!(t.attributes[0].0, "a");
            assert!(matches!(t.attributes[0].1, Value::Immediate(Literal::Int(16))));
            assert!(matches!(t.attributes[1].1, Value::Immediate(Literal::Bool(true))));
            assert!(matches!(&t.attributes[2].1, Value::Identifier(n) if n == "name"));
            assert!(matches!(&t.attributes[3].1, Value::Immediate(Literal::String(s)) if s == "raw"));
        }
        other => panic!("not a tag: {:?}", other),
    }
    let d = document(&format!("tag T with c = name, x = 2\n{}", INFO), None);
    assert_eq!(d.tags.len(), 1);
    assert!(d.tags[0].attributes[0].1.is_none());
    assert!(matches!(d.tags[0].attributes[1].1, Some(Literal::Int(2))));
}

#[test]
fn primitive_types_and_references() {
    let src = format!(
        "schema A = Number\nschema B = DateTime\nschema C = Missing\nschema E = Object\nschema D {{ items: List<Uuid> }}\n{}",
        INFO
    );
    let d = document(&src, None);
    assert!(matches!(schema_named(&d, "A"), openapi::ReferenceOr::Value(Schema::Number { .. })));
    match schema_named(&d, "B") {
        openapi::ReferenceOr::Value(Schema::String { format, .. }) => {
            assert_eq!(format.as_deref(), Some("date-time"))
        }
        other => panic!("not a string: {:?}", other),
    }
    match schema_named(&d, "C") {
        openapi::ReferenceOr::Ref { ref_path } => assert_eq!(ref_path, "#/components/schemas/Missing"),
        other => panic!("not a reference: {:?}", other),
    }
    match schema_named(&d, "D") {
        openapi::ReferenceOr::Value(Schema::Object { properties, .. }) => match &properties[0].1 {
            openapi::ReferenceOr::Value(Schema::Array { items, .. }) => match items.as_ref() {
                openapi::ReferenceOr::Value(Schema::String { format, .. }) => {
                    assert_eq!(format.as_deref(), Some("uuid"))
                }
                other => panic!("not a string item: {:?}", other),
            },
            other => panic!("not an array: {:?}", other),
        },
        other => panic!("not an object: {:?}", other),
    }
    assert!(matches!(schema_named(&d, "E"), openapi::ReferenceOr::Value(Schema::Object { .. })));
}

#[test]
fn named_components_and_parameters() {
    let src = format!(
        "requestBody NewUser {{ content = User }}\nresponse Ok {{ headers = parameters {{ \"X-Rate\": header {{ content = Int }} }} content = String }}\npath \"/u/{{id}}\" {{ pathParameters=parameters{{ id: pathParameter {{ content = required Int64 }} }}\n get show() {{ return 200 Ok }} }}\nimport \"x\"\n{}",
        INFO
    );
    assert!(parse(&src).is_err());
    let src = format!(
        "import \"other.api\"\nrequestBody NewUser {{ content = User }}\nresponse Ok {{ headers = parameters {{ \"X-Rate\": header {{ content = Int }} }} content = String }}\npath \"/u/{{id}}\" {{ pathParameters=parameters{{ id: pathParameter {{ content = required Int64 }} }}\n get show() {{ return 200 Ok }} }}\n{}",
        INFO
    );
    let parsed = parse(&src).unwrap();
    assert_eq!(parsed.imports.len(), 1);
    assert_eq!(parsed.imports[0].file, "other.api");
    let d = generate(parsed.objects, None).unwrap();
    assert_eq!(d.components.request_bodies.len(), 1);
    assert_eq!(d.components.request_bodies[0].0, "NewUser");
    assert_eq!(d.components.responses.len(), 1);
    let (rn, r) = &d.components.responses[0];
    assert_eq!(rn, "Ok");
    assert_eq!(r.headers[0].0, "X-Rate");
    match &r.headers[0].1 {
        openapi::ReferenceOr::Value(h) => assert_eq!(h.parameter_in, openapi::ParameterIn::Header),
        other => panic!("expected a header: {:?}", other),
    }
    let p = &d.paths.content[0].1;
    assert_eq!(d.paths.content[0].0, "/u/{id}");
    match &p.parameters[0] {
        openapi::ReferenceOr::Value(q) => {
            assert_eq!(q.name, "id");
            assert_eq!(q.parameter_in, openapi::ParameterIn::Path);
            assert!(q.required);
        }
        other => panic!("expected a parameter: {:?}", other),
    }
}

#[test]
fn parameter_without_kind_is_an_error() {
    let mut p = query("loose");
    p.ty = None;
    let path = Path {
        name: "/x".to_string(),
        attributes: vec![],
        content: PathContent {
            parameters: Parameters { parameters: vec![p] },
            get: Some(Operation {
                name: "op".to_string(),
                method: HttpMethod::Get,
                parameters: Parameters { parameters: vec![] },
                content: OperationContent { default: None, response: vec![] },
                request_body: None,
            }),
            post: None,
            put: None,
            delete: None,
            options: None,
            patch: None,
            head: None,
            trace: None,
        },
    };
    let mut objs = objects(INFO);
    objs.push(Object::Path(path));
    match generate(objs, None) {
        Err(ConvertError::UnknownParameterKind(n)) => assert_eq!(n, "loose"),
        other => panic!("expected an unknown kind: {:?}", other),
    }
}

#[test]
fn duplicate_names_keep_the_later_definition() {
    let src = format!(
        "schema A = String\nschema B = Bool\nschema A = Int\nenum B {{ x }}\npath \"/p\" {{ get one() {{ return 200 X }} }}\npath \"/p\" {{ post two() {{ return 200 X }} }}\nschema C {{ f: Bool, f: optional Int }}\n{}",
        INFO
    );
    let d = document(&src, None);
    let names: Vec<&str> = d.components.schemas.iter().map(|(n, _)| n.as_str()).collect();
    assert_eq!(names, vec!["A", "B", "C"]);
    assert!(matches!(
        &d.components.schemas[0].1,
        openapi::ReferenceOr::Value(Schema::Integer { format: None, .. })
    ));
    assert!(matches!(
        &d.components.schemas[1].1,
        openapi::ReferenceOr::Value(Schema::String { selection: Some(_), .. })
    ));
    match &d.components.schemas[2].1 {
        openapi::ReferenceOr::Value(Schema::Object { required, properties, .. }) => {
            assert_eq!(required, &vec!["f".to_string()]);
            assert_eq!(properties.len(), 1);
            assert!(matches!(
                &properties[0].1,
                openapi::ReferenceOr::Value(Schema::Integer { .. })
            ));
        }
        other => panic!("not an object: {:?}", other),
    }
    assert_eq!(d.paths.content.len(), 1);
    let p = &d.paths.content[0].1;
    assert!(p.get.is_none());
    assert_eq!(p.post.as_ref().unwrap().operation_id, "two");
}

#[test]
fn stand_alone_parameters_take_their_keyword_kind() {
    let text = to_chars("header XRate with deprecated = true { content = optional Int64 }");
    let (p, end) = apidsl::constructs::parameter_definition(&text, 0).expect("parameter parses");
    assert_eq!(end, text.len());
    assert_eq!(p.name, "XRate");
    assert_eq!(p.ty, Some(ParameterType::Header));
    assert_eq!(p.content.requirement, Requirement::Optional);
    assert_eq!(p.content.attributes.len(), 1);
    let text = to_chars("parameter p { content = String }");
    let (p, _) = apidsl::constructs::parameter_definition(&text, 0).expect("parameter parses");
    assert!(p.ty.is_none());
    assert_eq!(p.content.requirement, Requirement::Required);
    assert!(apidsl::constructs::parameter_definition(&to_chars("param p { content = String }"), 0).is_none());
}

#[test]
fn whitespace_and_separators_between_constructs() {
    assert!(parse("  \n\t ").unwrap().objects.is_empty());
    assert_eq!(parse("tag A\ntag B\n").unwrap().objects.len(), 2);
    assert_eq!(parse("tag Atag B").unwrap_err().position, 9);
    let err = parse("import \"a\"\nimport").unwrap_err();
    assert_eq!(err.position, 11);
}

#[test]
fn identifiers_start_with_a_letter_or_underscore() {
    let text = to_chars("user_id2 rest");
    let (name, end) = apidsl::lex::identifier(&text, 0).expect("identifier");
    assert_eq!(name, "user_id2");
    assert_eq!(end, 8);
    assert!(apidsl::lex::identifier(&to_chars("9lives"), 0).is_none());
    assert!(apidsl::lex::identifier(&to_chars(""), 0).is_none());
    assert!(apidsl::lex::identifier(&to_chars("_x"), 0).is_some());
    assert!(parse("tag 9lives").is_err());
    assert!(parse("schema S { 1f: String }").is_err());
}

#[test]
fn named_responses_stay_references() {
    let src = format!("path \"/p\" {{ get op() {{ return 200 Ok return 404 List<String> }} }}\n{}", INFO);
    let d = document(&src, None);
    let get = d.paths.content[0].1.get.as_ref().unwrap();
    match &get.responses.code[0].1 {
        openapi::ReferenceOr::Ref { ref_path } => assert_eq!(ref_path, "#/components/responses/Ok"),
        other => panic!("expected a reference: {:?}", other),
    }
    match &get.responses.code[1].1 {
        openapi::ReferenceOr::Value(r) => assert!(matches!(
            &r.content[0].1.schema,
            openapi::ReferenceOr::Value(Schema::Array { .. })
        )),
        other => panic!("expected an inline response: {:?}", other),
    }
}

#[test]
fn body_argument_may_be_a_type_written_in_place() {
    let src = format!("path \"/p\" {{ post op(body=List<Int>) {{ return 201 Created }} }}\n{}", INFO);
    let d = document(&src, None);
    let post = d.paths.content[0].1.post.as_ref().unwrap();
    match post.request_body.as_ref().unwrap() {
        openapi::ReferenceOr::Value(b) => {
            assert_eq!(b.content[0].0, "application/json");
            assert!(matches!(
                &b.content[0].1.schema,
                openapi::ReferenceOr::Value(Schema::Array { .. })
            ));
        }
        other => panic!("expected an inline body: {:?}", other),
    }
}
