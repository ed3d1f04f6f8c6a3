use esquema_codegen::defs::{user_type, xrpc_body, xrpc_errors};
use esquema_codegen::enums::{enum_common, impl_into_record, NamespaceEntry};
use esquema_codegen::generator::{
    collect_namespaces, gen_from_lexicon_docs, generate_records, is_module_dir, module_index,
    nsid_namespace, schema_path_of, write_to_file, Failure, KnownRecord, OutputFile,
};
use esquema_codegen::modules::{collection, lexicon_module, modules};
use esquema_codegen::object::{lex_object, union_type_string};
use esquema_codegen::paths::canonicalize_and_validate;
use esquema_codegen::remote::{pds_endpoint, record_uri_prefix, select_records};
use esquema_codegen::resolve::{resolve_path, variant_name_of};
use esquema_codegen::schema::{
    ArrayItem, ArraySchema, BodySchema, Definition, IntegerSchema, ObjectSchema, PropertySchema,
    RefSchema, RefUnion, SchemaDocument, StringFormat, StringSchema, XrpcBody, XrpcError,
    XrpcQuery,
};
use esquema_codegen::text::{decimal_string, quote_str, split_str};
use esquema_codegen::types::{
    integer_repr_of, integer_repr_string, integer_type_string, CodegenError, IntegerRepr, Width,
};
use esquema_codegen::unions::{all_unions, distinct, ref_unions};

fn s(x: &str) -> String {
    x.to_string()
}

fn int_type(minimum: Option<i64>, maximum: Option<i64>) -> Result<String, CodegenError> {
    integer_type_string(&IntegerSchema { description: None, minimum, maximum })
}

fn string_prop(format: Option<StringFormat>) -> PropertySchema {
    PropertySchema::String(StringSchema { description: None, format })
}

fn status_doc() -> SchemaDocument {
    SchemaDocument {
        id: s("xyz.statusphere.status"),
        description: None,
        defs: vec![(
            s("main"),
            Definition::Record(ObjectSchema {
                description: None,
                required: Some(vec![s("status"), s("createdAt")]),
                nullable: None,
                properties: vec![
                    (s("status"), string_prop(None)),
                    (s("createdAt"), string_prop(Some(StringFormat::Datetime))),
                ],
            }),
        )],
    }
}

fn record_doc(id: &str) -> SchemaDocument {
    SchemaDocument {
        id: s(id),
        description: None,
        defs: vec![(
            s("main"),
            Definition::Record(ObjectSchema {
                description: None,
                required: None,
                nullable: None,
                properties: vec![(s("text"), string_prop(None))],
            }),
        )],
    }
}

fn query_doc(id: &str) -> SchemaDocument {
    SchemaDocument {
        id: s(id),
        description: Some(s("Gets a status.")),
        defs: vec![(
            s("main"),
            Definition::Query(XrpcQuery {
                description: None,
                parameters: Some(ObjectSchema {
                    description: None,
                    required: Some(vec![s("uri")]),
                    nullable: None,
                    properties: vec![(s("uri"), string_prop(None))],
                }),
                output: None,
                errors: Some(vec![XrpcError { name: s("NotFound"), description: None }]),
            }),
        )],
    }
}

fn file<'a>(files: &'a [OutputFile], path: &str) -> &'a OutputFile {
    files.iter().find(|f| f.path == path).expect("file not generated")
}

// Unsigned bounds.

#[test]
fn unsigned_max_254_is_limited() {
    assert_eq!(integer_repr_of(Some(0), Some(254)), Ok(IntegerRepr::Limited(Width::W8, 254)));
    assert_eq!(int_type(Some(0), Some(254)).unwrap(), "atrium_api::types::LimitedU8<254u8>");
}

#[test]
fn unsigned_max_255_is_bare_u8() {
    assert_eq!(int_type(Some(0), Some(255)).unwrap(), "u8");
}

#[test]
fn unsigned_without_max_is_usize() {
    assert_eq!(int_type(Some(0), None).unwrap(), "usize");
}

#[test]
fn unsigned_widths_follow_the_maximum() {
    assert_eq!(int_type(Some(0), Some(256)).unwrap(), "atrium_api::types::LimitedU16<256u16>");
    assert_eq!(int_type(Some(0), Some(65535)).unwrap(), "u16");
    assert_eq!(
        int_type(Some(0), Some(65536)).unwrap(),
        "atrium_api::types::LimitedU32<65536u32>"
    );
    assert_eq!(int_type(Some(0), Some(4294967295)).unwrap(), "u32");
    assert_eq!(
        int_type(Some(0), Some(4294967296)).unwrap(),
        "atrium_api::types::LimitedU64<4294967296u64>"
    );
}

// Non-zero bounds.

#[test]
fn nonzero_max_254_is_limited() {
    assert_eq!(
        int_type(Some(1), Some(254)).unwrap(),
        "atrium_api::types::LimitedNonZeroU8<254u8>"
    );
}

#[test]
fn nonzero_max_255_is_bare() {
    assert_eq!(int_type(Some(1), Some(255)).unwrap(), "core::num::NonZeroU8");
    assert_eq!(int_type(Some(1), Some(65535)).unwrap(), "core::num::NonZeroU16");
}

#[test]
fn nonzero_without_max_is_index_sized() {
    assert_eq!(int_type(Some(1), None).unwrap(), "core::num::NonZeroUsize");
}

#[test]
fn larger_minimum_is_doubly_bounded() {
    assert_eq!(
        int_type(Some(2), Some(100)).unwrap(),
        "atrium_api::types::BoundedU8<2u8, 100u8>"
    );
    assert_eq!(
        int_type(Some(10), Some(1000)).unwrap(),
        "atrium_api::types::BoundedU16<10u16, 1000u16>"
    );
    assert_eq!(
        int_type(Some(5), None).unwrap(),
        "atrium_api::types::BoundedU64<5u64, u64::MAX>"
    );
}

#[test]
fn canonical_signed_ranges() {
    assert_eq!(int_type(Some(-128), Some(127)).unwrap(), "i8");
    assert_eq!(int_type(Some(-32768), Some(32767)).unwrap(), "i16");
    assert_eq!(int_type(Some(-2147483648), Some(2147483647)).unwrap(), "i32");
    assert_eq!(int_type(Some(i64::MIN), Some(i64::MAX)).unwrap(), "i64");
    assert_eq!(int_type(None, None).unwrap(), "i64");
}

#[test]
fn other_negative_bounds_are_unsupported() {
    assert_eq!(
        int_type(Some(-1), Some(10)),
        Err(CodegenError::UnsupportedInteger { minimum: Some(-1), maximum: Some(10) })
    );
    assert_eq!(
        int_type(None, Some(10)),
        Err(CodegenError::UnsupportedInteger { minimum: None, maximum: Some(10) })
    );
    assert_eq!(
        int_type(Some(-5), None),
        Err(CodegenError::UnsupportedInteger { minimum: Some(-5), maximum: None })
    );
}

#[test]
fn maximum_below_minimum_is_unsupported() {
    assert_eq!(
        int_type(Some(0), Some(-1)),
        Err(CodegenError::UnsupportedInteger { minimum: Some(0), maximum: Some(-1) })
    );
    assert_eq!(
        int_type(Some(300), Some(100)),
        Err(CodegenError::UnsupportedInteger { minimum: Some(300), maximum: Some(100) })
    );
    assert_eq!(
        int_type(Some(1), Some(0)),
        Err(CodegenError::UnsupportedInteger { minimum: Some(1), maximum: Some(0) })
    );
    assert_eq!(
        int_type(Some(300), Some(300)).unwrap(),
        "atrium_api::types::BoundedU16<300u16, 300u16>"
    );
}

#[test]
fn repr_renders_signed() {
    assert_eq!(integer_repr_string(IntegerRepr::Signed(Width::W16)), "i16");
}

// Namespaces.

#[test]
fn namespace_is_first_two_segments() {
    let a = nsid_namespace("a.b.c").unwrap();
    let b = nsid_namespace("a.b.d").unwrap();
    let c = nsid_namespace("a.x.y").unwrap();
    assert_eq!(a, "a.b");
    assert_eq!(a, b);
    assert_ne!(a, c);
}

#[test]
fn short_nsid_is_an_error() {
    assert_eq!(nsid_namespace("abc"), Err(CodegenError::ShortNsid { nsid: s("abc") }));
    let docs = vec![record_doc("single")];
    assert_eq!(
        gen_from_lexicon_docs(&docs).err(),
        Some(Failure { source: s("single"), error: CodegenError::ShortNsid { nsid: s("single") } })
    );
}

#[test]
fn namespaces_keep_first_occurrence_order() {
    let docs = vec![record_doc("b.c.one"), record_doc("a.x.two"), record_doc("b.c.three")];
    let ns = collect_namespaces(&docs).unwrap();
    assert_eq!(ns, vec![(s("b.c"), None), (s("a.x"), None)]);
}

// The known-record aggregate.

#[test]
fn known_records_are_sorted_regardless_of_input_order() {
    let ns: Vec<NamespaceEntry> = vec![(s("b.c"), None), (s("a.x"), None)];
    let one = vec![record_doc("b.c.zed"), query_doc("b.c.get"), record_doc("a.x.alpha")];
    let two = vec![record_doc("a.x.alpha"), record_doc("b.c.zed"), query_doc("b.c.get")];
    let r1 = generate_records(&one, &ns).unwrap();
    let r2 = generate_records(&two, &ns).unwrap();
    assert_eq!(r1.path, "record.rs");
    assert_eq!(r1.content, r2.content);
    assert_eq!(r1.content.matches("#[serde(rename = ").count(), 2);
    let alpha = r1.content.find("\"a.x.alpha\"").unwrap();
    let zed = r1.content.find("\"b.c.zed\"").unwrap();
    assert!(alpha < zed);
    assert!(!r1.content.contains("b.c.get"));
    assert_eq!(r1.content.matches("impl Into<atrium_api::types::Unknown> for KnownRecord").count(), 1);
    let known = KnownRecord::from_documents(&one);
    assert_eq!(known.nsids, vec![s("a.x.alpha"), s("b.c.zed")]);
}

#[test]
fn known_record_variants_gated_by_feature() {
    let ns: Vec<NamespaceEntry> = vec![(s("a.x"), Some(s("ax")))];
    let refs = vec![s("a.x.alpha")];
    let e = enum_common(&refs, "KnownRecord", None, &ns).unwrap();
    assert!(e.contains("#[cfg(feature = \"ax\")]"));
    assert!(e.contains("LexiconsAXAlpha(Box<crate::lexicons::a::x::alpha::Record>)"));
    let i = impl_into_record(&refs, &ns).unwrap();
    assert!(i.contains("impl From<crate::lexicons::a::x::alpha::RecordData> for KnownRecord"));
}

#[test]
fn no_records_still_convert_out() {
    let refs: Vec<String> = vec![];
    let text = impl_into_record(&refs, &vec![]).unwrap();
    assert_eq!(text.matches("impl Into<atrium_api::types::Unknown> for KnownRecord").count(), 1);
    assert!(!text.contains("impl From<"));
}

// Reference unions.

#[test]
fn closed_union_renders_two_tagged_variants() {
    let refs = vec![s("x#a"), s("x#b")];
    let e = enum_common(&refs, "MainRefs", Some("x.y.z"), &vec![]).unwrap();
    assert_eq!(e.matches("#[serde(rename = ").count(), 2);
    assert!(e.contains("#[serde(rename = \"x#a\")]\nLexiconsXA(Box<crate::lexicons::x::A>),"));
    assert!(e.contains("#[serde(rename = \"x#b\")]\nLexiconsXB(Box<crate::lexicons::x::B>),"));
    let closed = RefUnion { description: None, refs: refs.clone(), closed: Some(true) };
    assert_eq!(union_type_string(&closed, "MainRefs"), "MainRefs");
}

#[test]
fn open_union_wraps_the_enum() {
    let open = RefUnion { description: None, refs: vec![s("x#a"), s("x#b")], closed: None };
    assert_eq!(union_type_string(&open, "MainRefs"), "atrium_api::types::Union<MainRefs>");
}

#[test]
fn local_reference_is_tagged_with_document() {
    let refs = vec![s("#view")];
    let e = enum_common(&refs, "Refs", Some("a.b.c"), &vec![]).unwrap();
    assert!(e.contains("#[serde(rename = \"a.b.c#view\")]"));
    assert!(e.contains("View(Box<View>)"));
}

#[test]
fn unions_found_once_per_name_in_order() {
    let union = |r: &str| RefUnion { description: None, refs: vec![s(r)], closed: None };
    let doc = SchemaDocument {
        id: s("a.b.c"),
        description: None,
        defs: vec![
            (
                s("main"),
                Definition::Record(ObjectSchema {
                    description: None,
                    required: None,
                    nullable: None,
                    properties: vec![
                        (s("embed"), PropertySchema::Union(union("a.b.d#x"))),
                        (
                            s("items"),
                            PropertySchema::Array(ArraySchema {
                                description: None,
                                items: ArrayItem::Union(union("a.b.d#y")),
                            }),
                        ),
                    ],
                }),
            ),
            (
                s("other"),
                Definition::Array(ArraySchema {
                    description: None,
                    items: ArrayItem::Union(union("a.b.d#z")),
                }),
            ),
        ],
    };
    let found = distinct(&all_unions(&doc, "c"));
    let names: Vec<&str> = found.iter().map(|u| u.0.as_str()).collect();
    assert_eq!(names, vec!["OtherItem", "RecordEmbedRefs", "RecordItemsItem"]);
    let text = ref_unions("a.b.c", &found).unwrap();
    assert_eq!(text.matches("pub enum ").count(), 3);
}

// Objects.

#[test]
fn object_fields_sorted_and_optional_unless_required() {
    let o = ObjectSchema {
        description: Some(s("An object.")),
        required: Some(vec![s("b"), s("c")]),
        nullable: Some(vec![s("c")]),
        properties: vec![
            (s("c"), PropertySchema::Boolean(None)),
            (s("b"), PropertySchema::Integer(IntegerSchema { description: None, minimum: Some(0), maximum: Some(255) })),
            (s("a"), PropertySchema::Bytes(None)),
            (s("type"), string_prop(Some(StringFormat::Did))),
        ],
    };
    let t = lex_object(&o, "thing").unwrap();
    let a = t.find("pub a:").unwrap();
    let b = t.find("pub b: u8,").unwrap();
    let c = t.find("pub c: core::option::Option<bool>,").unwrap();
    let ty = t.find("pub r#type: core::option::Option<atrium_api::types::string::Did>,").unwrap();
    assert!(a < b && b < c && c < ty);
    assert!(t.contains("#[serde(default)]\n#[serde(with = \"serde_bytes\")]"));
    assert!(t.contains("pub struct ThingData {"));
    assert!(t.contains("pub type Thing = atrium_api::types::Object<ThingData>;"));
    assert!(t.contains("#[doc = \"An object.\"]"));
}

#[test]
fn primitive_array_items_map_one_to_one() {
    let array = |name: &str, items: ArrayItem| {
        (s(name), PropertySchema::Array(ArraySchema { description: None, items }))
    };
    let o = ObjectSchema {
        description: None,
        required: Some(vec![s("blobs"), s("chunks"), s("flags")]),
        nullable: None,
        properties: vec![
            array("flags", ArrayItem::Boolean(None)),
            array("chunks", ArrayItem::Bytes(None)),
            array("blobs", ArrayItem::Blob(None)),
        ],
    };
    let t = lex_object(&o, "Main").unwrap();
    assert!(t.contains("pub flags: Vec<bool>,"));
    assert!(t.contains("pub chunks: Vec<Vec<u8>>,"));
    assert!(t.contains("pub blobs: Vec<atrium_api::types::BlobRef>,"));
}

#[test]
fn unsupported_definition_is_an_error() {
    let d = Definition::Unsupported(s("permission-set"));
    assert_eq!(
        user_type(&d, "a.b.c", "perm", false),
        Err(CodegenError::UnsupportedDefinition { name: s("perm"), kind: s("permission-set") })
    );
}

#[test]
fn union_body_is_an_error() {
    let body = XrpcBody {
        description: None,
        encoding: s("application/json"),
        schema: Some(BodySchema::Union(RefUnion { description: None, refs: vec![], closed: None })),
    };
    assert_eq!(xrpc_body(&body, "Output"), Err(CodegenError::UnsupportedBody { name: s("Output") }));
}

#[test]
fn ref_body_is_an_alias() {
    let body = XrpcBody {
        description: None,
        encoding: s("application/json"),
        schema: Some(BodySchema::Ref(RefSchema { description: None, reference: s("a.b.c#view") })),
    };
    assert_eq!(xrpc_body(&body, "output").unwrap(), "pub type Output = crate::lexicons::a::b::c::View;\n");
}

#[test]
fn errors_enum_has_display_arms() {
    let e = xrpc_errors(&Some(vec![XrpcError { name: s("NotFound"), description: None }]));
    assert!(e.contains("NotFound(Option<String>),"));
    assert!(e.contains("Error::NotFound(msg) => {\nwrite!(_f, \"NotFound\")?;"));
    let none = xrpc_errors(&None);
    assert!(!none.contains("match self"));
}

#[test]
fn token_is_a_constant() {
    let d = Definition::Token(None);
    assert_eq!(
        user_type(&d, "a.b.c", "fooBar", false).unwrap(),
        "pub const FOO_BAR: &str = \"a.b.c#fooBar\";\n"
    );
}

// References.

#[test]
fn resolve_paths() {
    assert_eq!(resolve_path("app.bsky.feed#postView", "main").unwrap(), "crate::lexicons::app::bsky::feed::PostView");
    assert_eq!(resolve_path("app.bsky.feed", "main").unwrap(), "crate::lexicons::app::bsky::feed::Main");
    assert_eq!(resolve_path("#view", "main").unwrap(), "View");
    assert_eq!(resolve_path("a.b#CONST", "main").unwrap(), "crate::lexicons::a::b::CONST");
    assert_eq!(variant_name_of("xyz.statusphere.status", "record", true), "LexiconsXyzStatusphereStatus");
}

#[test]
fn invalid_reference_is_an_error() {
    assert_eq!(
        resolve_path("a.b#", "main"),
        Err(CodegenError::InvalidReference { reference: s("a.b#") })
    );
}

// Modules.

#[test]
fn module_declarations_and_collections() {
    let m = modules(&vec![s("feed"), s("status")], &vec![s("xyz"), s("statusphere")], &vec![(s("xyz.statusphere.status"), Some(s("st")))]);
    assert_eq!(m, "pub mod feed;\n#[cfg_attr(docsrs, doc(cfg(feature = \"st\")))]\n#[cfg(feature = \"st\")]\npub mod status;\n");
    let c = collection("status", "xyz.statusphere.status");
    assert!(c.contains("pub struct Status;"));
    assert!(c.contains("const NSID: &'static str = \"xyz.statusphere.status\";"));
    assert!(c.contains("type Record = status::Record;"));
}

#[test]
fn root_module_lists_each_top_segment_once() {
    let m = lexicon_module(&vec![(s("app.bsky"), None), (s("com.atproto"), None), (s("app.other"), None)]);
    assert_eq!(m, "pub mod record;\npub mod app;\npub mod com;\n");
}

#[test]
fn root_module_is_sorted_whatever_the_input_order() {
    let m = lexicon_module(&vec![(s("b.x"), None), (s("a.y"), None)]);
    assert_eq!(m, "pub mod record;\npub mod a;\npub mod b;\n");
    let one = vec![record_doc("b.x.one"), record_doc("a.y.two"), query_doc("b.x.get")];
    let two = vec![query_doc("b.x.get"), record_doc("a.y.two"), record_doc("b.x.one")];
    let mut f1 = gen_from_lexicon_docs(&one).unwrap();
    let mut f2 = gen_from_lexicon_docs(&two).unwrap();
    f1.sort_by(|x, y| x.path.cmp(&y.path));
    f2.sort_by(|x, y| x.path.cmp(&y.path));
    assert_eq!(f1.len(), f2.len());
    for (x, y) in f1.iter().zip(f2.iter()) {
        assert_eq!(x.path, y.path);
        assert_eq!(x.content, y.content);
    }
}

#[test]
fn one_nsid_constant_before_the_principal_type() {
    let mut doc = query_doc("a.b.get");
    doc.defs.insert(
        0,
        (
            s("other"),
            Definition::Query(XrpcQuery { description: None, parameters: None, output: None, errors: None }),
        ),
    );
    let files = gen_from_lexicon_docs(&vec![doc]).unwrap();
    let get = file(&files, "a/b/get.rs");
    assert_eq!(get.content.matches("pub const NSID").count(), 1);
    let nsid = get.content.find("pub const NSID").unwrap();
    let params = get.content.find("pub struct ParametersData").unwrap();
    assert!(nsid < params);
}

#[test]
fn reserved_directories_get_no_index() {
    assert!(!is_module_dir(&vec![]));
    assert!(!is_module_dir(&vec![s("agent")]));
    assert!(!is_module_dir(&vec![s("types"), s("x")]));
    assert!(is_module_dir(&vec![s("xyz"), s("statusphere")]));
}

// End to end.

#[test]
fn statusphere_end_to_end() {
    let docs = vec![status_doc()];
    let files = gen_from_lexicon_docs(&docs).unwrap();
    let paths: Vec<&str> = files.iter().map(|f| f.path.as_str()).collect();
    assert_eq!(paths, vec!["xyz/statusphere/status.rs", "record.rs", "mod.rs"]);
    let status = file(&files, "xyz/statusphere/status.rs");
    assert!(status.content.starts_with("// @generated"));
    assert!(status.content.contains("pub struct RecordData {"));
    assert!(status.content.contains("pub created_at: atrium_api::types::string::Datetime,"));
    assert!(status.content.contains("pub status: String,"));
    let record = file(&files, "record.rs");
    assert_eq!(record.content.matches("#[serde(rename = ").count(), 1);
    assert!(record.content.contains("#[serde(rename = \"xyz.statusphere.status\")]"));
    let ns = collect_namespaces(&docs).unwrap();
    let index = module_index(&vec![s("xyz"), s("statusphere")], vec![s("status")], &docs, &ns).unwrap();
    assert_eq!(index.path, "xyz/statusphere.rs");
    assert!(index.content.contains("pub mod status;"));
    assert_eq!(index.content.matches("impl atrium_api::types::Collection for").count(), 1);
    assert!(index.content.contains("\"xyz.statusphere.status\""));
    let top = module_index(&vec![s("xyz")], vec![s("statusphere")], &docs, &ns).unwrap();
    assert!(top.content.contains("pub mod statusphere;"));
    assert!(!top.content.contains("Collection"));
}

#[test]
fn client_index_only_with_rpc() {
    let docs = vec![status_doc(), query_doc("xyz.statusphere.getStatus")];
    let files = gen_from_lexicon_docs(&docs).unwrap();
    let client = file(&files, "client.rs");
    assert!(client.content.contains("\"xyz.statusphere.getStatus\""));
    let query = file(&files, "xyz/statusphere/get_status.rs");
    assert!(query.content.contains("pub const NSID: &str = \"xyz.statusphere.getStatus\";"));
    assert!(query.content.contains("pub struct ParametersData {"));
    assert!(query.content.contains("Gets a status."));
}

#[test]
fn output_is_deterministic() {
    let docs = vec![status_doc(), query_doc("xyz.statusphere.getStatus"), record_doc("xyz.other.thing")];
    let a = gen_from_lexicon_docs(&docs).unwrap();
    let b = gen_from_lexicon_docs(&docs).unwrap();
    assert_eq!(a.len(), b.len());
    for (x, y) in a.iter().zip(b.iter()) {
        assert_eq!(x.path, y.path);
        assert_eq!(x.content, y.content);
    }
}

#[test]
fn malformed_output_is_an_error() {
    assert_eq!(write_to_file(s("fn {")), Err(CodegenError::MalformedOutput { content: s("fn {") }));
    let ok = write_to_file(s("pub   struct   A ;")).unwrap();
    assert_eq!(ok, "// @generated - This file is generated by esquema-codegen. DO NOT EDIT.\npub   struct   A ;");
    assert!(write_to_file(s("fn f();")).is_ok());
}

// Helpers and wrappers.

#[test]
fn case_conversions() {
    assert_eq!(resolve_path("#foo_bar", "main").unwrap(), "FooBar");
    assert_eq!(resolve_path("Ab.Cd#x", "main").unwrap(), "crate::lexicons::ab::cd::X");
    assert_eq!(schema_path_of("a.b.createdAt"), "a/b/created_at.rs");
    assert_eq!(
        user_type(&Definition::Token(None), "a.b.c", "fooBar", false).unwrap(),
        "pub const FOO_BAR: &str = \"a.b.c#fooBar\";\n"
    );
}

#[test]
fn sorting_and_splitting() {
    let known = KnownRecord::from_documents(&vec![record_doc("b.b.b"), record_doc("a.a.a"), record_doc("c.c.c")]);
    assert_eq!(known.nsids, vec![s("a.a.a"), s("b.b.b"), s("c.c.c")]);
    assert_eq!(split_str("a.b.c", '.'), vec![s("a"), s("b"), s("c")]);
    assert_eq!(split_str("", '.'), vec![s("")]);
    assert_eq!(decimal_string(1234567), "1234567");
    assert_eq!(quote_str("a\"b\\c"), "\"a\\\"b\\\\c\"");
    assert_eq!(schema_path_of("xyz.statusphere.getStatus"), "xyz/statusphere/get_status.rs");
}

#[test]
fn directory_validation() {
    assert_eq!(
        canonicalize_and_validate(Some(s("/out")), true, "\"out\"", "\"/out\"", "Output directory does not exist"),
        Ok(s("/out"))
    );
    assert_eq!(
        canonicalize_and_validate(Some(s("/out")), false, "\"out\"", "\"/out\"", "Output directory does not exist"),
        Err(s("Output directory does not exist: \"/out\""))
    );
    assert_eq!(
        canonicalize_and_validate(None, false, "\"out\"", "", "Lexicon directory does not exist"),
        Err(s("Lexicon directory does not exist: \"out\""))
    );
}

#[test]
fn query_renders_parameters_and_errors() {
    let doc = query_doc("a.b.get");
    let t = user_type(&doc.defs[0].1, "a.b.get", "get", true).unwrap();
    assert!(t.contains("pub struct ParametersData {"));
    assert!(t.contains("pub uri: String,"));
    assert!(t.contains("pub enum Error {"));
}

fn referring_doc(reference: &str) -> SchemaDocument {
    SchemaDocument {
        id: s("a.b.c"),
        description: None,
        defs: vec![(
            s("main"),
            Definition::Record(ObjectSchema {
                description: None,
                required: Some(vec![s("subject")]),
                nullable: None,
                properties: vec![(
                    s("subject"),
                    PropertySchema::Ref(RefSchema { description: None, reference: s(reference) }),
                )],
            }),
        )],
    }
}

fn view_doc() -> SchemaDocument {
    SchemaDocument {
        id: s("a.b.d"),
        description: None,
        defs: vec![(
            s("view"),
            Definition::Object(ObjectSchema {
                description: None,
                required: None,
                nullable: None,
                properties: vec![(s("name"), string_prop(None))],
            }),
        )],
    }
}

#[test]
fn references_across_documents_resolve() {
    let docs = vec![referring_doc("a.b.d#view"), view_doc()];
    let files = gen_from_lexicon_docs(&docs).unwrap();
    let c = file(&files, "a/b/c.rs");
    assert!(c.content.contains("pub subject: crate::lexicons::a::b::d::View,"));
}

#[test]
fn unresolved_reference_stops_the_batch() {
    let docs = vec![referring_doc("a.b.d#view")];
    assert_eq!(
        gen_from_lexicon_docs(&docs).err(),
        Some(Failure {
            source: s("a.b.c"),
            error: CodegenError::UnresolvedReference { nsid: s("a.b.c"), reference: s("a.b.d#view") },
        })
    );
    let docs = vec![referring_doc("#missing"), view_doc()];
    assert_eq!(
        gen_from_lexicon_docs(&docs).err(),
        Some(Failure {
            source: s("a.b.c"),
            error: CodegenError::UnresolvedReference { nsid: s("a.b.c"), reference: s("#missing") },
        })
    );
    let docs = vec![referring_doc("a.b.d"), view_doc()];
    assert_eq!(
        gen_from_lexicon_docs(&docs).err(),
        Some(Failure {
            source: s("a.b.c"),
            error: CodegenError::UnresolvedReference { nsid: s("a.b.c"), reference: s("a.b.d") },
        })
    );
}

#[test]
fn failure_names_the_document() {
    let doc = SchemaDocument {
        id: s("a.b.bad"),
        description: None,
        defs: vec![(s("main"), Definition::Unsupported(s("permission-set")))],
    };
    assert_eq!(
        gen_from_lexicon_docs(&vec![status_doc(), doc]).err(),
        Some(Failure {
            source: s("a.b.bad"),
            error: CodegenError::UnsupportedDefinition { name: s("bad"), kind: s("permission-set") },
        })
    );
}

#[test]
fn schema_records_are_picked_by_prefix() {
    let prefix = record_uri_prefix("did:plc:abc", "com.atproto.lexicon.schema", "xyz.statusphere");
    assert_eq!(prefix, "at://did:plc:abc/com.atproto.lexicon.schema/xyz.statusphere");
    let uris = vec![
        s("at://did:plc:abc/com.atproto.lexicon.schema/xyz.statusphere.status"),
        s("at://did:plc:abc/com.atproto.lexicon.schema/app.other.thing"),
        s("at://did:plc:abc/com.atproto.lexicon.schema/xyz.statusphere.getStatus"),
    ];
    assert_eq!(select_records(&uris, &prefix), vec![0, 2]);
    assert_eq!(select_records(&vec![], &prefix), Vec::<usize>::new());
}

#[test]
fn first_data_server_is_the_endpoint() {
    let services = vec![
        (s("BskyNotificationService"), s("https://notify")),
        (s("AtprotoPersonalDataServer"), s("https://pds.one")),
        (s("AtprotoPersonalDataServer"), s("https://pds.two")),
    ];
    assert_eq!(pds_endpoint(&services), Some(s("https://pds.one")));
    assert_eq!(pds_endpoint(&vec![(s("Other"), s("x"))]), None);
}

#[test]
fn duplicate_nsid_stops_the_batch() {
    let docs = vec![status_doc(), record_doc("a.b.c"), status_doc()];
    assert_eq!(
        gen_from_lexicon_docs(&docs).err(),
        Some(Failure {
            source: s("xyz.statusphere.status"),
            error: CodegenError::DuplicateNsid { nsid: s("xyz.statusphere.status") },
        })
    );
}
