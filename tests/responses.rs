use poem_extensions::descriptor::{MediaTypeDescriptor, ResponseDescriptor, SchemaRef};
use poem_extensions::either_response::EitherResponse;
use poem_extensions::error::DeclarationError;
use poem_extensions::error_response::{bad_request_handler, ErrorResponse, FailureKind, RequestFailure};
use poem_extensions::merge::merge_descriptors;
use poem_extensions::one_response::{derive_one_response, get_description, ExtraHeader, ResponseDecl, ResponseField};
use poem_extensions::registry::{SchemaEntry, SchemaRegistry};
use poem_extensions::response::{Empty, Payload, ResponseType, ResponseValue};
use poem_extensions::status::{is_supported_status, support_status};
use poem_extensions::uni_response::{response, SlotErrorKind, UniResponse};
use poem_extensions::wire::Body;

fn docs(lines: &[&str]) -> Vec<String> {
    lines.iter().map(|l| l.to_string()).collect()
}

fn unit_decl(name: &str, status: u16, doc: &[&str]) -> ResponseDecl {
    ResponseDecl {
        name: name.to_string(),
        doc_lines: docs(doc),
        status,
        fields: vec![],
        headers: vec![],
        content_type: None,
        actual_type: None,
        bad_request_handler: false,
    }
}

fn unit_type(name: &str, status: u16, doc: &[&str]) -> ResponseType {
    derive_one_response(&unit_decl(name, status, doc)).unwrap()
}

fn json_field(schema_name: &str) -> ResponseField {
    ResponseField {
        header: None,
        doc_lines: vec![],
        deprecated: false,
        required: true,
        schema: SchemaRef::Reference(schema_name.to_string()),
        media_types: vec![MediaTypeDescriptor {
            content_type: "application/json; charset=utf-8".to_string(),
            schema: SchemaRef::Reference(schema_name.to_string()),
        }],
        schemas: vec![SchemaEntry { name: schema_name.to_string(), definition: "object".to_string() }],
    }
}

fn header_field(name: &str, doc: &[&str], required: bool, ty: &str, format: Option<&str>) -> ResponseField {
    ResponseField {
        header: Some(name.to_string()),
        doc_lines: docs(doc),
        deprecated: false,
        required,
        schema: SchemaRef::Inline { ty: ty.to_string(), format: format.map(|f| f.to_string()) },
        media_types: vec![],
        schemas: vec![],
    }
}

fn bare(status: u16, description: &str) -> ResponseDescriptor {
    ResponseDescriptor { status: Some(status), description: description.to_string(), content: vec![], headers: vec![] }
}

fn failure(kind: FailureKind, status: u16, message: &str, content_range: Option<&str>) -> RequestFailure {
    RequestFailure {
        kind,
        status,
        message: message.to_string(),
        content_range: content_range.map(|s| s.to_string()),
    }
}

#[test]
fn uni_response_meta() {
    let ok = unit_type("Ok", 200, &[" Ok"]);
    let table = response(vec![(200, ok)]).unwrap();
    assert_eq!(UniResponse::meta(&table).unwrap(), vec![bare(200, "Ok")]);

    let created = unit_type("Created", 201, &[]);
    let bad_request = unit_type("BadRequest", 400, &[" A", " B", "", " C"]);
    let table = response(vec![(201, created), (400, bad_request)]).unwrap();
    assert_eq!(
        UniResponse::meta(&table).unwrap(),
        vec![bare(201, ""), bare(400, "A\nB\n\nC")]
    );
}

#[test]
fn one_response_meta() {
    let ok = unit_type("Ok", 200, &[" Ok"]);
    assert_eq!(ok.meta(), vec![bare(200, "Ok")]);

    let mut decl = unit_decl("BadRequest", 400, &[" A", " B", "", " C"]);
    decl.fields = vec![json_field("BadRequestResult")];
    let bad_request = derive_one_response(&decl).unwrap();
    assert_eq!(
        bad_request.meta(),
        vec![ResponseDescriptor {
            status: Some(400),
            description: "A\nB\n\nC".to_string(),
            content: vec![MediaTypeDescriptor {
                content_type: "application/json; charset=utf-8".to_string(),
                schema: SchemaRef::Reference("BadRequestResult".to_string()),
            }],
            headers: vec![],
        }]
    );
}

#[test]
fn union_over_catalog_publishes_declared_slots_only() {
    let table = response(vec![
        (200, unit_type("Ok", 200, &[])),
        (201, unit_type("Created", 201, &[])),
        (502, unit_type("BadGateway", 502, &[])),
    ])
    .unwrap();
    assert_eq!(table.slots.len(), 60);
    let meta = UniResponse::meta(&table).unwrap();
    let statuses: Vec<Option<u16>> = meta.iter().map(|d| d.status).collect();
    assert_eq!(statuses, vec![Some(200), Some(201), Some(502)]);
}

#[test]
fn union_renders_active_slot_status() {
    let table = response(vec![
        (200, unit_type("Ok", 200, &[])),
        (201, unit_type("Created", 201, &[])),
        (502, unit_type("BadGateway", 502, &[])),
    ])
    .unwrap();
    for status in [200u16, 201, 502] {
        let value = UniResponse::at_status(&table, status, Empty::value()).unwrap();
        assert_eq!(value.render(&table).status, status);
    }
    assert!(UniResponse::at_status(&table, 999, Empty::value()).is_none());
}

#[test]
fn unsupported_status_is_listed_with_catalog() {
    let err = response(vec![(999, unit_type("Odd", 999, &[]))]).unwrap_err();
    match err {
        DeclarationError::UnsupportedStatus { unsupported, supported } => {
            assert_eq!(unsupported, vec![999]);
            assert_eq!(supported.len(), 60);
            assert_eq!(supported, support_status());
            assert_eq!(supported[0], 100);
            assert_eq!(supported[59], 511);
        }
        other => panic!("unexpected {:?}", other),
    }
}

#[test]
fn duplicate_status_is_rejected() {
    let err = response(vec![
        (200, unit_type("A", 200, &[])),
        (404, unit_type("B", 404, &[])),
        (200, unit_type("C", 200, &[])),
    ])
    .unwrap_err();
    assert_eq!(err, DeclarationError::DuplicateStatus(200));
}

#[test]
fn type_at_wrong_status_is_rejected() {
    let err = response(vec![(200, unit_type("Created", 201, &[]))]).unwrap_err();
    assert_eq!(
        err,
        DeclarationError::StatusMismatch { response_name: "Created".to_string(), expected: 200 }
    );
}

#[test]
fn slot_with_wrong_first_descriptor_fails_meta() {
    let mut table = response(vec![(200, unit_type("Ok", 200, &[]))]).unwrap();
    table.slots[3].variant = unit_type("Created", 201, &[]);
    let err = UniResponse::meta(&table).unwrap_err();
    assert_eq!(err.response_name, "Created");
    assert_eq!(err.expected, 200);
    assert_eq!(err.kind, SlotErrorKind::StatusMismatch);
}

#[test]
fn two_payload_fields_are_an_incorrect_definition() {
    let mut decl = unit_decl("Twice", 200, &[]);
    decl.fields = vec![json_field("A"), json_field("B")];
    assert_eq!(derive_one_response(&decl), Err(DeclarationError::IncorrectDefinition));
}

#[test]
fn status_outside_three_digits_is_invalid() {
    assert_eq!(
        derive_one_response(&unit_decl("Tiny", 99, &[])),
        Err(DeclarationError::InvalidStatus(99))
    );
    assert_eq!(
        derive_one_response(&unit_decl("Huge", 1000, &[])),
        Err(DeclarationError::InvalidStatus(1000))
    );
    assert!(derive_one_response(&unit_decl("Odd", 999, &[])).is_ok());
}

#[test]
fn headers_are_documented_in_upper_case() {
    let mut decl = unit_decl("B", 200, &[]);
    decl.fields = vec![
        header_field("my-header1", &[" header1"], true, "integer", Some("int32")),
        header_field("My-Header2", &[], false, "string", None),
    ];
    decl.headers = vec![ExtraHeader {
        name: "x-extra".to_string(),
        description: Some("extra".to_string()),
        deprecated: true,
        required: false,
        schema: SchemaRef::Inline { ty: "string".to_string(), format: None },
    }];
    let t = derive_one_response(&decl).unwrap();
    let headers = &t.descriptors[0].headers;
    assert_eq!(headers.len(), 3);
    assert_eq!(headers[0].name, "MY-HEADER1");
    assert_eq!(headers[0].description.as_deref(), Some("header1"));
    assert!(headers[0].required);
    assert_eq!(
        headers[0].schema,
        SchemaRef::Inline { ty: "integer".to_string(), format: Some("int32".to_string()) }
    );
    assert_eq!(headers[1].name, "MY-HEADER2");
    assert_eq!(headers[1].description, None);
    assert!(!headers[1].required);
    assert_eq!(headers[2].name, "X-EXTRA");
    assert!(headers[2].deprecated);
    assert_eq!(t.header_names, vec!["MY-HEADER1".to_string(), "MY-HEADER2".to_string()]);

    let value = ResponseValue { payload: None, headers: vec![Some("88".to_string()), None] };
    let wire = t.render(value);
    assert_eq!(wire.status, 200);
    assert_eq!(wire.headers, vec![("MY-HEADER1".to_string(), "88".to_string())]);
}

#[test]
fn declared_content_type_overrides_payload() {
    let mut decl = unit_decl("A", 200, &[]);
    decl.fields = vec![json_field("Item")];
    decl.content_type = Some("application/json2".to_string());
    let t = derive_one_response(&decl).unwrap();
    assert_eq!(t.descriptors[0].content[0].content_type, "application/json2");
    let value = ResponseValue {
        payload: Some(Payload {
            content_type: "application/json; charset=utf-8".to_string(),
            body: Body::Bytes(b"100".to_vec()),
        }),
        headers: vec![],
    };
    let wire = t.render(value);
    assert_eq!(wire.content_type.as_deref(), Some("application/json2"));
    assert_eq!(wire.body, Body::Bytes(b"100".to_vec()));
    assert_eq!(t.schemas.len(), 1);
}

#[test]
fn description_joins_trimmed_lines() {
    assert_eq!(get_description(&docs(&[" A", " B", "", " C"])), Some("A\nB\n\nC".to_string()));
    assert_eq!(get_description(&docs(&["", "  x  "])), Some("x".to_string()));
    assert_eq!(get_description(&docs(&["  ", ""])), None);
    assert_eq!(get_description(&docs(&[])), None);
}

#[test]
fn taxonomy_merge_prefers_declared_descriptors() {
    let mut custom = unit_type("Created", 200, &[" Created"]);
    custom.descriptors.push(bare(500, "CustomServerError"));
    let merged = EitherResponse::meta(&custom);
    let statuses: Vec<u16> = merged.iter().map(|d| d.status.unwrap()).collect();
    assert_eq!(statuses, vec![200, 400, 401, 403, 404, 405, 412, 413, 415, 416, 500]);
    assert_eq!(merged[0].description, "Created");
    assert_eq!(merged[10], bare(500, "CustomServerError"));
    assert_eq!(merged[1].content[0].content_type, "text/plain; charset=utf-8");
}

#[test]
fn merge_is_ascending_whatever_the_declared_order() {
    let intrinsic = vec![bare(404, "i404"), bare(400, "i400"), bare(500, "i500")];
    let extrinsic = vec![bare(500, "e500"), bare(201, "e201"), bare(404, "first"), bare(404, "e404")];
    let merged = merge_descriptors(intrinsic, extrinsic);
    assert_eq!(
        merged,
        vec![bare(201, "e201"), bare(400, "i400"), bare(404, "e404"), bare(500, "e500")]
    );
    assert!(merge_descriptors(vec![], vec![]).is_empty());
}

#[test]
fn classification_follows_status() {
    assert_eq!(
        bad_request_handler(&failure(FailureKind::NotFound, 404, "not found", None)),
        ErrorResponse::NotFound("not found".to_string())
    );
    assert_eq!(
        bad_request_handler(&failure(FailureKind::ParseJson, 400, "bad json", None)),
        ErrorResponse::BadRequest("bad json".to_string())
    );
    assert_eq!(
        bad_request_handler(&failure(FailureKind::SizedLimit, 413, "too big", None)),
        ErrorResponse::PayloadTooLarge("too big".to_string())
    );
    assert_eq!(
        bad_request_handler(&failure(FailureKind::StaticFile, 416, "range", Some("123"))),
        ErrorResponse::RangeNotSatisfiable("range".to_string(), Some(123))
    );
    assert_eq!(
        bad_request_handler(&failure(FailureKind::StaticFile, 416, "range", Some("+7"))),
        ErrorResponse::RangeNotSatisfiable("range".to_string(), Some(7))
    );
    assert_eq!(
        bad_request_handler(&failure(FailureKind::StaticFile, 416, "range", Some("bytes */10"))),
        ErrorResponse::RangeNotSatisfiable("range".to_string(), None)
    );
}

#[test]
fn classification_falls_back_to_internal_error() {
    assert_eq!(
        bad_request_handler(&failure(FailureKind::Other, 404, "custom", None)),
        ErrorResponse::InternalServerError("custom".to_string())
    );
    assert_eq!(
        bad_request_handler(&failure(FailureKind::Upgrade, 426, "upgrade", None)),
        ErrorResponse::InternalServerError("upgrade".to_string())
    );
    assert_eq!(ErrorResponse::from_poem_error(&failure(FailureKind::Other, 400, "x", None)), None);
    assert_eq!(ErrorResponse::from_response_error(418, "tea".to_string(), None), None);
    assert_eq!(
        ErrorResponse::from_response_error(401, "who".to_string(), None),
        Some(ErrorResponse::Unauthorized("who".to_string()))
    );
}

#[test]
fn taxonomy_renders_plain_text_with_range_header() {
    let wire = ErrorResponse::RangeNotSatisfiable("range".to_string(), Some(88)).render();
    assert_eq!(wire.status, 416);
    assert_eq!(wire.content_type.as_deref(), Some("text/plain; charset=utf-8"));
    assert_eq!(wire.headers, vec![("CONTENT-RANGE".to_string(), "88".to_string())]);
    assert_eq!(wire.body, Body::Text("range".to_string()));
    let wire = ErrorResponse::Forbidden("no".to_string()).render();
    assert_eq!(wire.status, 403);
    assert!(wire.headers.is_empty());
}

#[test]
fn taxonomy_meta_lists_each_status_once() {
    let meta = ErrorResponse::meta();
    let statuses: Vec<u16> = meta.iter().map(|d| d.status.unwrap()).collect();
    assert_eq!(statuses, vec![400, 401, 403, 404, 405, 412, 413, 415, 416, 500]);
    assert_eq!(meta[8].headers.len(), 1);
    assert_eq!(meta[8].headers[0].name, "CONTENT-RANGE");
    assert!(meta[0].headers.is_empty());
}

#[test]
fn parse_failure_recovery_goes_to_custom_handler_when_declared() {
    let mut custom = unit_type("A", 200, &[]);
    let err = failure(FailureKind::ParseQuery, 400, "bad query", None);
    assert_eq!(
        EitherResponse::from_parse_request_error(&custom, &err),
        Some(EitherResponse::Intern(ErrorResponse::BadRequest("bad query".to_string())))
    );
    custom.bad_request_handler = true;
    assert_eq!(EitherResponse::from_parse_request_error(&custom, &err), None);
}

#[test]
fn registering_twice_is_registering_once() {
    let mut decl = unit_decl("A", 200, &[]);
    decl.fields = vec![json_field("Item")];
    let t = derive_one_response(&decl).unwrap();
    let mut once = SchemaRegistry::new();
    t.register(&mut once);
    let mut twice = SchemaRegistry::new();
    t.register(&mut twice);
    t.register(&mut twice);
    assert_eq!(once, twice);
    assert_eq!(twice.len(), 1);
    assert_eq!(twice.get(&"Item".to_string()).map(|s| s.as_str()), Some("object"));

    let table = response(vec![(200, t)]).unwrap();
    let mut union_once = SchemaRegistry::new();
    UniResponse::register(&table, &mut union_once);
    let mut union_twice = SchemaRegistry::new();
    UniResponse::register(&table, &mut union_twice);
    UniResponse::register(&table, &mut union_twice);
    assert_eq!(union_once, union_twice);
}

#[test]
fn registry_keeps_the_later_definition() {
    let mut r = SchemaRegistry::new();
    r.insert(SchemaEntry { name: "A".to_string(), definition: "one".to_string() });
    r.insert(SchemaEntry { name: "A".to_string(), definition: "two".to_string() });
    assert_eq!(r.len(), 1);
    assert_eq!(r.get(&"A".to_string()).map(|s| s.as_str()), Some("two"));
}

#[test]
fn catalog_membership() {
    assert!(is_supported_status(200));
    assert!(is_supported_status(511));
    assert!(!is_supported_status(999));
    assert!(!is_supported_status(306));
}

#[test]
fn empty_response_renders_default_status() {
    let wire = Empty.render();
    assert_eq!(wire.status, 200);
    assert_eq!(wire.body, Body::Empty);
    assert!(Empty::meta().is_empty());
    assert!(Empty::response_type().descriptors.is_empty());
}

#[test]
fn either_response_renders_each_side() {
    let custom = unit_type("Created", 201, &[]);
    let wire = EitherResponse::Extern(Empty::value()).render(&custom);
    assert_eq!(wire.status, 201);
    assert_eq!(wire.body, Body::Empty);
    let wire = EitherResponse::Intern(ErrorResponse::NotFound("gone".to_string())).render(&custom);
    assert_eq!(wire.status, 404);
    assert_eq!(wire.body, Body::Text("gone".to_string()));
}
