//! Rendering of the named definitions of a document: records, objects, RPC
//! operations, arrays, tokens and strings.
use vstd::prelude::*;
use crate::object::{array_type, array_type_string, derives, derives_text, lex_object, object_text};
use crate::resolve::{resolve_path, resolved};
use crate::schema::{
    ArraySchema, BodySchema, Definition, ObjectSchema, StringSchema, XrpcBody, XrpcError,
    XrpcProcedure, XrpcQuery, XrpcSubscription,
};
use crate::text::{
    concat_all, pascal_case, quote_str, quoted, shouty_snake_case, to_pascal, to_shouty_snake,
};
use crate::types::{doc_attr, doc_attr_string, rendered, then_append, CodegenError, ErrorView, Rendered};

verus! {

/// The variant of the error enum for one declared error.
pub open spec fn error_variant(e: XrpcError) -> Seq<char> {
    doc_attr(e.description) + pascal_case(e.name@) + "(Option<String>),\n"@
}

/// The arm of `Display::fmt` for one declared error: its name, then its
/// message if there is one.
pub open spec fn error_arm(e: XrpcError) -> Seq<char> {
    "Error::"@ + pascal_case(e.name@) + "(msg) => {\nwrite!(_f, "@ + quoted(e.name@)
        + ")?;\nif let Some(msg) = msg {\nwrite!(_f, \": {msg}\")?;\n}\n}\n"@
}

/// The error enum of an RPC operation and its `Display`.
pub open spec fn errors_text(errors: Option<Vec<XrpcError>>) -> Seq<char> {
    let es = match errors {
        Some(v) => v@,
        None => Seq::empty(),
    };
    derives_text() + "#[serde(tag = \"error\", content = \"message\")]\npub enum Error {\n"@
        + concat_all(es.map_values(|e: XrpcError| error_variant(e)))
        + "}\nimpl std::fmt::Display for Error {\nfn fmt(&self, _f: &mut std::fmt::Formatter) -> std::fmt::Result {\n"@
        + (if es.len() == 0 {
        Seq::empty()
    } else {
        "match self {\n"@ + concat_all(es.map_values(|e: XrpcError| error_arm(e))) + "}\n"@
    }) + "Ok(())\n}\n}\n"@
}

fn error_variant_string(e: &XrpcError) -> (r: String)
    ensures
        r@ == error_variant(*e),
{
    let mut r = doc_attr_string(&e.description);
    r.append(to_pascal(e.name.as_str()).as_str());
    r.append("(Option<String>),\n");
    r
}

fn error_arm_string(e: &XrpcError) -> (r: String)
    ensures
        r@ == error_arm(*e),
{
    let mut r = String::from_str("Error::");
    r.append(to_pascal(e.name.as_str()).as_str());
    r.append("(msg) => {\nwrite!(_f, ");
    r.append(quote_str(e.name.as_str()).as_str());
    r.append(")?;\nif let Some(msg) = msg {\nwrite!(_f, \": {msg}\")?;\n}\n}\n");
    r
}

/// Renders the error enum of an RPC operation.
pub fn xrpc_errors(errors: &Option<Vec<XrpcError>>) -> (r: String)
    ensures
        r@ == errors_text(*errors),
{
    let empty: Vec<XrpcError> = Vec::new();
    let es = match errors {
        Some(v) => v,
        None => &empty,
    };
    let ghost fv = |e: XrpcError| error_variant(e);
    let ghost fa = |e: XrpcError| error_arm(e);
    let ghost vs = es@.map_values(fv);
    let ghost arms = es@.map_values(fa);
    let mut variants = String::new();
    let mut body = String::new();
    let mut k: usize = 0;
    while k < es.len()
        invariant
            k <= es@.len(),
            vs == es@.map_values(fv),
            arms == es@.map_values(fa),
            forall|x: XrpcError| #[trigger] fv(x) == error_variant(x),
            forall|x: XrpcError| #[trigger] fa(x) == error_arm(x),
            variants@ == concat_all(vs.take(k as int)),
            body@ == concat_all(arms.take(k as int)),
        decreases es@.len() - k,
    {
        proof {
            assert(vs.take(k + 1).drop_last() =~= vs.take(k as int));
            assert(arms.take(k + 1).drop_last() =~= arms.take(k as int));
        }
        variants.append(error_variant_string(&es[k]).as_str());
        body.append(error_arm_string(&es[k]).as_str());
        k = k + 1;
    }
    proof {
        assert(vs.take(k as int) =~= vs);
        assert(arms.take(k as int) =~= arms);
    }
    let mut r = derives();
    r.append("#[serde(tag = \"error\", content = \"message\")]\npub enum Error {\n");
    r.append(variants.as_str());
    r.append(
        "}\nimpl std::fmt::Display for Error {\nfn fmt(&self, _f: &mut std::fmt::Formatter) -> std::fmt::Result {\n",
    );
    if es.len() > 0 {
        r.append("match self {\n");
        r.append(body.as_str());
        r.append("}\n");
    }
    r.append("Ok(())\n}\n}\n");
    proof {
        assert(es@ == match *errors {
            Some(v) => v@,
            None => Seq::<XrpcError>::empty(),
        });
    }
    r
}

/// The declarations for an RPC body named `name`: an alias of a referenced
/// type, or an object. A body without a schema declares nothing.
pub open spec fn body_text(body: XrpcBody, name: Seq<char>) -> Rendered {
    match body.schema {
        None => Ok(Seq::empty()),
        Some(BodySchema::Ref(r)) => match resolved(r.reference@, "main"@) {
            Err(e) => Err(e),
            Ok(path) => Ok(
                doc_attr(body.description) + doc_attr(r.description) + "pub type "@ + pascal_case(
                    name,
                ) + " = "@ + path + ";\n"@,
            ),
        },
        Some(BodySchema::Object(o)) => then_append(
            Ok(doc_attr(body.description)),
            object_text(o, name),
        ),
        Some(BodySchema::Union(_)) => Err(ErrorView::UnsupportedBody { name }),
    }
}

/// Renders an RPC body.
pub fn xrpc_body(body: &XrpcBody, name: &str) -> (r: Result<String, CodegenError>)
    ensures
        rendered(r) == body_text(*body, name@),
{
    match &body.schema {
        None => Ok(String::new()),
        Some(BodySchema::Ref(r)) => {
            let path = match resolve_path(r.reference.as_str(), "main") {
                Ok(p) => p,
                Err(e) => return Err(e),
            };
            let mut out = doc_attr_string(&body.description);
            out.append(doc_attr_string(&r.description).as_str());
            out.append("pub type ");
            out.append(to_pascal(name).as_str());
            out.append(" = ");
            out.append(path.as_str());
            out.append(";\n");
            Ok(out)
        },
        Some(BodySchema::Object(o)) => match lex_object(o, name) {
            Ok(t) => Ok(doc_attr_string(&body.description).concat(t.as_str())),
            Err(e) => Err(e),
        },
        Some(BodySchema::Union(_)) => Err(CodegenError::UnsupportedBody { name: String::from_str(name) }),
    }
}

/// Optional parameters, rendered as an object named `Parameters`.
pub open spec fn params_text(p: Option<ObjectSchema>) -> Rendered {
    match p {
        Some(o) => object_text(o, "Parameters"@),
        None => Ok(Seq::empty()),
    }
}

/// An optional body.
pub open spec fn opt_body_text(b: Option<XrpcBody>, name: Seq<char>) -> Rendered {
    match b {
        Some(b) => body_text(b, name),
        None => Ok(Seq::empty()),
    }
}

/// Renders the query-string parameters of an RPC operation.
pub fn xrpc_parameters(p: &Option<ObjectSchema>) -> (r: Result<String, CodegenError>)
    ensures
        rendered(r) == params_text(*p),
{
    match p {
        Some(o) => lex_object(o, "Parameters"),
        None => Ok(String::new()),
    }
}

fn opt_body(b: &Option<XrpcBody>, name: &str) -> (r: Result<String, CodegenError>)
    ensures
        rendered(r) == opt_body_text(*b, name@),
{
    match b {
        Some(b) => xrpc_body(b, name),
        None => Ok(String::new()),
    }
}

/// A query: its parameters, its output and its errors.
pub open spec fn query_text(q: XrpcQuery) -> Rendered {
    then_append(
        then_append(params_text(q.parameters), opt_body_text(q.output, "Output"@)),
        Ok(errors_text(q.errors)),
    )
}

/// Renders a query.
pub fn lex_query(q: &XrpcQuery) -> (r: Result<String, CodegenError>)
    ensures
        rendered(r) == query_text(*q),
{
    let mut out = match xrpc_parameters(&q.parameters) {
        Ok(t) => t,
        Err(e) => return Err(e),
    };
    match opt_body(&q.output, "Output") {
        Ok(t) => out.append(t.as_str()),
        Err(e) => return Err(e),
    }
    out.append(xrpc_errors(&q.errors).as_str());
    Ok(out)
}

/// A procedure: its input, its output and its errors.
pub open spec fn procedure_text(p: XrpcProcedure) -> Rendered {
    then_append(
        then_append(opt_body_text(p.input, "Input"@), opt_body_text(p.output, "Output"@)),
        Ok(errors_text(p.errors)),
    )
}

/// Renders a procedure.
pub fn lex_procedure(p: &XrpcProcedure) -> (r: Result<String, CodegenError>)
    ensures
        rendered(r) == procedure_text(*p),
{
    let mut out = match opt_body(&p.input, "Input") {
        Ok(t) => t,
        Err(e) => return Err(e),
    };
    match opt_body(&p.output, "Output") {
        Ok(t) => out.append(t.as_str()),
        Err(e) => return Err(e),
    }
    out.append(xrpc_errors(&p.errors).as_str());
    Ok(out)
}

/// A subscription: its parameters and its errors.
pub open spec fn subscription_text(s: XrpcSubscription) -> Rendered {
    then_append(params_text(s.parameters), Ok(errors_text(s.errors)))
}

/// Renders a subscription.
pub fn lex_subscription(s: &XrpcSubscription) -> (r: Result<String, CodegenError>)
    ensures
        rendered(r) == subscription_text(*s),
{
    let mut out = match xrpc_parameters(&s.parameters) {
        Ok(t) => t,
        Err(e) => return Err(e),
    };
    out.append(xrpc_errors(&s.errors).as_str());
    Ok(out)
}

/// An array definition: an alias of a `Vec` of its items.
pub open spec fn array_def_text(a: ArraySchema, name: Seq<char>) -> Rendered {
    match array_type(a, name, None) {
        Err(e) => Err(e),
        Ok(t) => Ok(doc_attr(a.description) + "pub type "@ + pascal_case(name) + " = "@ + t + ";\n"@),
    }
}

/// Renders an array definition.
pub fn lex_array(a: &ArraySchema, name: &str) -> (r: Result<String, CodegenError>)
    ensures
        rendered(r) == array_def_text(*a, name@),
{
    let t = match array_type_string(a, name, None) {
        Ok(t) => t,
        Err(e) => return Err(e),
    };
    let mut out = doc_attr_string(&a.description);
    out.append("pub type ");
    out.append(to_pascal(name).as_str());
    out.append(" = ");
    out.append(t.as_str());
    out.append(";\n");
    Ok(out)
}

/// A token: a string constant holding `schema_id#name`.
pub open spec fn token_text(description: Option<String>, name: Seq<char>, schema_id: Seq<char>) -> Seq<char> {
    doc_attr(description) + "pub const "@ + shouty_snake_case(name) + ": &str = "@ + quoted(
        schema_id + seq!['#'] + name,
    ) + ";\n"@
}

/// Renders a token.
pub fn lex_token(description: &Option<String>, name: &str, schema_id: &str) -> (r: String)
    ensures
        r@ == token_text(*description, name@, schema_id@),
{
    proof {
        reveal_strlit("#");
    }
    let mut value = String::from_str(schema_id);
    value.append("#");
    value.append(name);
    let mut out = doc_attr_string(description);
    out.append("pub const ");
    out.append(to_shouty_snake(name).as_str());
    out.append(": &str = ");
    out.append(quote_str(value.as_str()).as_str());
    out.append(";\n");
    assert(value@ =~= schema_id@ + seq!['#'] + name@);
    out
}

/// A string definition: an alias of `String`.
pub open spec fn string_def_text(s: StringSchema, name: Seq<char>) -> Seq<char> {
    doc_attr(s.description) + "pub type "@ + pascal_case(name) + " = String;\n"@
}

/// Renders a string definition.
pub fn lex_string(s: &StringSchema, name: &str) -> (r: String)
    ensures
        r@ == string_def_text(*s, name@),
{
    let mut out = doc_attr_string(&s.description);
    out.append("pub type ");
    out.append(to_pascal(name).as_str());
    out.append(" = String;\n");
    out
}

/// The declarations of one definition named `name` of the document
/// `schema_id`; the principal object of a document is named `Main`, a
/// record `Record`.
pub open spec fn user_type_text(def: Definition, schema_id: Seq<char>, name: Seq<char>, is_main: bool) -> Rendered {
    match def {
        Definition::Record(o) => object_text(o, "Record"@),
        Definition::Query(q) => query_text(q),
        Definition::Procedure(p) => procedure_text(p),
        Definition::Subscription(s) => subscription_text(s),
        Definition::Array(a) => array_def_text(a, name),
        Definition::Token(d) => Ok(token_text(d, name, schema_id)),
        Definition::Object(o) => object_text(
            o,
            if is_main {
                "Main"@
            } else {
                name
            },
        ),
        Definition::String(s) => Ok(string_def_text(s, name)),
        Definition::Unsupported(kind) => Err(ErrorView::UnsupportedDefinition { name, kind: kind@ }),
    }
}

/// Renders one definition of a document.
pub fn user_type(def: &Definition, schema_id: &str, name: &str, is_main: bool) -> (r: Result<
    String,
    CodegenError,
>)
    ensures
        rendered(r) == user_type_text(*def, schema_id@, name@, is_main),
{
    match def {
        Definition::Record(o) => lex_object(o, "Record"),
        Definition::Query(q) => lex_query(q),
        Definition::Procedure(p) => lex_procedure(p),
        Definition::Subscription(s) => lex_subscription(s),
        Definition::Array(a) => lex_array(a, name),
        Definition::Token(d) => Ok(lex_token(d, name, schema_id)),
        Definition::Object(o) => lex_object(
            o,
            if is_main {
                "Main"
            } else {
                name
            },
        ),
        Definition::String(s) => Ok(lex_string(s, name)),
        Definition::Unsupported(kind) => Err(
            CodegenError::UnsupportedDefinition {
                name: String::from_str(name),
                kind: String::from_str(kind.as_str()),
            },
        ),
    }
}

} // verus!
