//! Rendering of objects and their properties as Rust structs and fields.
use vstd::prelude::*;
use crate::resolve::{resolve_path, resolved};
use crate::schema::{
    str_eq, ArrayItem, ArraySchema, ObjectSchema, PropertySchema, RefUnion,
};
use crate::text::{
    lemma_sorted_of, pascal_case, snake_case, sorted_of, sorted_strings, to_pascal, to_snake,
};
use crate::types::{
    doc_attr, doc_attr_string, integer_type, integer_type_string, lemma_render_each_err,
    lemma_render_each_step, primitive_type, primitive_type_string, render_each, rendered,
    string_type, string_type_string, CodegenError, ErrorView, Primitive, Rendered,
};

verus! {

/// The derive list put on every generated data type.
pub open spec fn derives_text() -> Seq<char> {
    "#[derive(serde::Serialize, serde::Deserialize, Debug, Clone, PartialEq, Eq)]\n"@
}

/// Renders the derive list of generated data types.
pub fn derives() -> (r: String)
    ensures
        r@ == derives_text(),
{
    String::from_str("#[derive(serde::Serialize, serde::Deserialize, Debug, Clone, PartialEq, Eq)]\n")
}

/// A closed union is its enum; an open one wraps the enum so that unknown
/// variants are kept.
pub open spec fn union_type(u: RefUnion, enum_name: Seq<char>) -> Seq<char> {
    if u.closed == Some(true) {
        enum_name
    } else {
        "atrium_api::types::Union<"@ + enum_name + ">"@
    }
}

/// Renders the type of a union property.
pub fn union_type_string(u: &RefUnion, enum_name: &str) -> (r: String)
    ensures
        r@ == union_type(*u, enum_name@),
{
    if u.closed == Some(true) {
        String::from_str(enum_name)
    } else {
        let mut r = String::from_str("atrium_api::types::Union<");
        r.append(enum_name);
        r.append(">");
        r
    }
}

/// PascalCase of an optional owner name, or nothing.
pub open spec fn owner_prefix(owner: Option<Seq<char>>) -> Seq<char> {
    match owner {
        Some(o) => pascal_case(o),
        None => Seq::empty(),
    }
}

/// The type of the items of an array named `name`, held by `owner`.
pub open spec fn array_item_type(item: ArrayItem, name: Seq<char>, owner: Option<Seq<char>>) -> Rendered {
    match item {
        ArrayItem::Integer(i) => integer_type(i),
        ArrayItem::String(s) => Ok(string_type(s.format)),
        ArrayItem::Unknown(_) => Ok(primitive_type(Primitive::Unknown)),
        ArrayItem::CidLink(_) => Ok(primitive_type(Primitive::CidLink)),
        ArrayItem::Ref(r) => resolved(r.reference@, "main"@),
        ArrayItem::Union(u) => Ok(union_type(u, owner_prefix(owner) + pascal_case(name) + "Item"@)),
        ArrayItem::Boolean(_) => Ok(primitive_type(Primitive::Boolean)),
        ArrayItem::Bytes(_) => Ok(primitive_type(Primitive::Bytes)),
        ArrayItem::Blob(_) => Ok(primitive_type(Primitive::Blob)),
    }
}

/// The type of an array: a `Vec` of its items.
pub open spec fn array_type(a: ArraySchema, name: Seq<char>, owner: Option<Seq<char>>) -> Rendered {
    match array_item_type(a.items, name, owner) {
        Ok(t) => Ok("Vec<"@ + t + ">"@),
        Err(e) => Err(e),
    }
}

/// Renders the type of an array.
pub fn array_type_string(a: &ArraySchema, name: &str, owner: Option<&str>) -> (r: Result<
    String,
    CodegenError,
>)
    ensures
        rendered(r) == array_type(
            *a,
            name@,
            match owner {
                Some(o) => Some(o@),
                None => None,
            },
        ),
{
    let item = match &a.items {
        ArrayItem::Integer(i) => integer_type_string(i),
        ArrayItem::String(s) => Ok(string_type_string(s.format)),
        ArrayItem::Unknown(_) => Ok(primitive_type_string(Primitive::Unknown)),
        ArrayItem::CidLink(_) => Ok(primitive_type_string(Primitive::CidLink)),
        ArrayItem::Ref(r) => resolve_path(r.reference.as_str(), "main"),
        ArrayItem::Union(u) => {
            let mut enum_name = match owner {
                Some(o) => to_pascal(o),
                None => String::new(),
            };
            enum_name.append(to_pascal(name).as_str());
            enum_name.append("Item");
            Ok(union_type_string(u, enum_name.as_str()))
        },
        ArrayItem::Boolean(_) => Ok(primitive_type_string(Primitive::Boolean)),
        ArrayItem::Bytes(_) => Ok(primitive_type_string(Primitive::Bytes)),
        ArrayItem::Blob(_) => Ok(primitive_type_string(Primitive::Blob)),
    };
    match item {
        Ok(t) => {
            let mut r = String::from_str("Vec<");
            r.append(t.as_str());
            r.append(">");
            Ok(r)
        },
        Err(e) => Err(e),
    }
}

/// The type of a property named `name` of the object `object_name`.
pub open spec fn property_type(p: PropertySchema, name: Seq<char>, object_name: Seq<char>) -> Rendered {
    match p {
        PropertySchema::Ref(r) => resolved(r.reference@, "main"@),
        PropertySchema::Union(u) => Ok(
            union_type(u, pascal_case(object_name) + pascal_case(name) + "Refs"@),
        ),
        PropertySchema::Bytes(_) => Ok(primitive_type(Primitive::Bytes)),
        PropertySchema::CidLink(_) => Ok(primitive_type(Primitive::CidLink)),
        PropertySchema::Array(a) => array_type(a, name, Some(object_name)),
        PropertySchema::Blob(_) => Ok(primitive_type(Primitive::Blob)),
        PropertySchema::Boolean(_) => Ok(primitive_type(Primitive::Boolean)),
        PropertySchema::Integer(i) => integer_type(i),
        PropertySchema::String(s) => Ok(string_type(s.format)),
        PropertySchema::Unknown(_) => Ok(primitive_type(Primitive::Unknown)),
    }
}

/// The description a property carries.
pub open spec fn property_description(p: PropertySchema) -> Option<String> {
    match p {
        PropertySchema::Ref(r) => r.description,
        PropertySchema::Union(u) => u.description,
        PropertySchema::Bytes(d) => d,
        PropertySchema::CidLink(d) => d,
        PropertySchema::Array(a) => a.description,
        PropertySchema::Blob(d) => d,
        PropertySchema::Boolean(d) => d,
        PropertySchema::Integer(i) => i.description,
        PropertySchema::String(s) => s.description,
        PropertySchema::Unknown(d) => d,
    }
}

fn property_description_of(p: &PropertySchema) -> (r: &Option<String>)
    ensures
        *r == property_description(*p),
{
    match p {
        PropertySchema::Ref(r) => &r.description,
        PropertySchema::Union(u) => &u.description,
        PropertySchema::Bytes(d) => d,
        PropertySchema::CidLink(d) => d,
        PropertySchema::Array(a) => &a.description,
        PropertySchema::Blob(d) => d,
        PropertySchema::Boolean(d) => d,
        PropertySchema::Integer(i) => &i.description,
        PropertySchema::String(s) => &s.description,
        PropertySchema::Unknown(d) => d,
    }
}

fn property_type_string(p: &PropertySchema, name: &str, object_name: &str) -> (r: Result<
    String,
    CodegenError,
>)
    ensures
        rendered(r) == property_type(*p, name@, object_name@),
{
    match p {
        PropertySchema::Ref(r) => resolve_path(r.reference.as_str(), "main"),
        PropertySchema::Union(u) => {
            let mut enum_name = to_pascal(object_name);
            enum_name.append(to_pascal(name).as_str());
            enum_name.append("Refs");
            Ok(union_type_string(u, enum_name.as_str()))
        },
        PropertySchema::Bytes(_) => Ok(primitive_type_string(Primitive::Bytes)),
        PropertySchema::CidLink(_) => Ok(primitive_type_string(Primitive::CidLink)),
        PropertySchema::Array(a) => array_type_string(a, name, Some(object_name)),
        PropertySchema::Blob(_) => Ok(primitive_type_string(Primitive::Blob)),
        PropertySchema::Boolean(_) => Ok(primitive_type_string(Primitive::Boolean)),
        PropertySchema::Integer(i) => integer_type_string(i),
        PropertySchema::String(s) => Ok(string_type_string(s.format)),
        PropertySchema::Unknown(_) => Ok(primitive_type_string(Primitive::Unknown)),
    }
}

/// The Rust name of a field: `ref` and `type` become raw identifiers, the
/// rest are put in snake_case.
pub open spec fn field_name(name: Seq<char>) -> Seq<char> {
    if name == "ref"@ || name == "type"@ {
        "r#"@ + name
    } else {
        snake_case(name)
    }
}

/// The serde attributes of a byte-string field.
pub open spec fn bytes_attrs(p: PropertySchema, is_required: bool) -> Seq<char> {
    if p is Bytes {
        (if is_required {
            Seq::empty()
        } else {
            "#[serde(default)]\n"@
        }) + "#[serde(with = \"serde_bytes\")]\n"@
    } else {
        Seq::empty()
    }
}

/// The declaration of one field; a field that is not required is optional
/// and left out when serialized as `None`.
pub open spec fn field_text(
    p: PropertySchema,
    name: Seq<char>,
    is_required: bool,
    object_name: Seq<char>,
) -> Rendered {
    match property_type(p, name, object_name) {
        Err(e) => Err(e),
        Ok(t) => Ok(
            doc_attr(property_description(p)) + bytes_attrs(p, is_required) + (if is_required {
                Seq::empty()
            } else {
                "#[serde(skip_serializing_if = \"core::option::Option::is_none\")]\n"@
            }) + "pub "@ + field_name(name) + ": "@ + (if is_required {
                t
            } else {
                "core::option::Option<"@ + t + ">"@
            }) + ",\n"@,
        ),
    }
}

/// Renders the declaration of one field of an object.
pub fn lex_object_property(
    property: &PropertySchema,
    name: &str,
    is_required: bool,
    object_name: &str,
) -> (r: Result<String, CodegenError>)
    ensures
        rendered(r) == field_text(*property, name@, is_required, object_name@),
{
    let t = match property_type_string(property, name, object_name) {
        Ok(t) => t,
        Err(e) => return Err(e),
    };
    let mut out = doc_attr_string(property_description_of(property));
    match property {
        PropertySchema::Bytes(_) => {
            if !is_required {
                out.append("#[serde(default)]\n");
            }
            out.append("#[serde(with = \"serde_bytes\")]\n");
        },
        _ => {},
    }
    if !is_required {
        out.append("#[serde(skip_serializing_if = \"core::option::Option::is_none\")]\n");
    }
    out.append("pub ");
    proof {
        reveal_strlit("ref");
        reveal_strlit("type");
    }
    if str_eq(name, "ref") || str_eq(name, "type") {
        out.append("r#");
        out.append(name);
    } else {
        out.append(to_snake(name).as_str());
    }
    out.append(": ");
    if is_required {
        out.append(t.as_str());
    } else {
        out.append("core::option::Option<");
        out.append(t.as_str());
        out.append(">");
    }
    out.append(",\n");
    proof {
        assert(out@ =~= field_text(*property, name@, is_required, object_name@)->Ok_0);
    }
    Ok(out)
}

/// Whether an optional list of names holds `key`.
pub open spec fn names_contain(l: Option<Vec<String>>, key: Seq<char>) -> bool {
    match l {
        Some(v) => v.deep_view().contains(key),
        None => false,
    }
}

fn list_contains(l: &Option<Vec<String>>, key: &str) -> (r: bool)
    ensures
        r == names_contain(*l, key@),
{
    match l {
        Some(v) => {
            let mut i: usize = 0;
            while i < v.len()
                invariant
                    *l == Some::<Vec<String>>(*v),
                    i <= v@.len(),
                    forall|j: int| 0 <= j < i ==> v.deep_view()[j] != key@,
                decreases v@.len() - i,
            {
                if str_eq(v[i].as_str(), key) {
                    assert(v.deep_view()[i as int] == key@);
                    return true;
                }
                i = i + 1;
            }
            false
        },
        None => false,
    }
}

/// A property is mandatory when it is required and not nullable.
pub open spec fn is_required(o: ObjectSchema, key: Seq<char>) -> bool {
    names_contain(o.required, key) && !names_contain(o.nullable, key)
}

/// The names of an object's properties.
pub open spec fn property_keys(o: ObjectSchema) -> Seq<Seq<char>> {
    o.properties@.map_values(|p: (String, PropertySchema)| p.0@)
}

/// The property named `key` (the first, should a name repeat).
pub open spec fn property_named(o: ObjectSchema, key: Seq<char>) -> PropertySchema {
    let i = choose|i: int|
        0 <= i < o.properties@.len() && o.properties@[i].0@ == key && forall|j: int|
            0 <= j < i ==> o.properties@[j].0@ != key;
    o.properties@[i].1
}

fn find_property<'a>(o: &'a ObjectSchema, key: &str) -> (r: &'a PropertySchema)
    requires
        property_keys(*o).contains(key@),
    ensures
        *r == property_named(*o, key@),
{
    let ghost keys = property_keys(*o);
    let ghost w = choose|w: int| 0 <= w < keys.len() && keys[w] == key@;
    let mut i: usize = 0;
    while i < o.properties.len()
        invariant
            i <= o.properties@.len(),
            keys == property_keys(*o),
            0 <= w < keys.len() && keys[w] == key@,
            forall|j: int| 0 <= j < i ==> o.properties@[j].0@ != key@,
        decreases o.properties@.len() - i,
    {
        if str_eq(o.properties[i].0.as_str(), key) {
            proof {
                let c = choose|c: int|
                    0 <= c < o.properties@.len() && o.properties@[c].0@ == key@ && forall|j: int|
                        0 <= j < c ==> o.properties@[j].0@ != key@;
                assert(c == i as int) by {
                    if c < i {
                    } else if c > i {
                    }
                }
            }
            return &o.properties[i].1;
        }
        i = i + 1;
    }
    assert(keys[w] == o.properties@[w].0@);
    &o.properties[0].1
}

/// The property names of an object, in ascending order.
pub open spec fn sorted_keys(o: ObjectSchema) -> Seq<Seq<char>> {
    sorted_of(property_keys(o).to_multiset())
}

/// The declaration of the field named `key`.
#[verifier::opaque]
pub open spec fn keyed_field(o: ObjectSchema, object_name: Seq<char>, key: Seq<char>) -> Rendered {
    field_text(property_named(o, key), key, is_required(o, key), object_name)
}

/// The fields of an object, in ascending order of their names.
pub open spec fn fields_text(o: ObjectSchema, object_name: Seq<char>) -> Rendered {
    render_each(sorted_keys(o), |k: Seq<char>| keyed_field(o, object_name, k))
}

fn keyed_field_string(object: &ObjectSchema, name: &str, key: &str) -> (r: Result<
    String,
    CodegenError,
>)
    requires
        property_keys(*object).contains(key@),
    ensures
        rendered(r) == keyed_field(*object, name@, key@),
{
    let property = find_property(object, key);
    let req = list_contains(&object.required, key) && !list_contains(&object.nullable, key);
    proof {
        reveal(keyed_field);
    }
    lex_object_property(property, key, req, name)
}

proof fn lemma_in_keys(ks: Seq<Seq<char>>, keys: Seq<Seq<char>>, i: int)
    requires
        ks.to_multiset() == keys.to_multiset(),
        0 <= i < ks.len(),
    ensures
        keys.contains(ks[i]),
{
    ks.to_multiset_ensures();
    keys.to_multiset_ensures();
    assert(ks.contains(ks[i]));
    assert(ks.to_multiset().count(ks[i]) > 0);
    assert(keys.to_multiset().count(ks[i]) > 0);
}

fn object_fields(object: &ObjectSchema, name: &str) -> (r: Result<String, CodegenError>)
    ensures
        rendered(r) == fields_text(*object, name@),
{
    let mut keys: Vec<String> = Vec::new();
    let mut i: usize = 0;
    while i < object.properties.len()
        invariant
            i <= object.properties@.len(),
            keys.deep_view() == property_keys(*object).take(i as int),
        decreases object.properties@.len() - i,
    {
        let ghost before = keys.deep_view();
        keys.push(String::from_str(object.properties[i].0.as_str()));
        proof {
            assert(keys.deep_view() =~= before.push(object.properties@[i as int].0@));
            assert(property_keys(*object).take(i + 1) =~= property_keys(*object).take(i as int).push(
                object.properties@[i as int].0@,
            ));
        }
        i = i + 1;
    }
    assert(property_keys(*object).take(i as int) =~= property_keys(*object));
    let sorted = sorted_strings(keys);
    let ghost ks = sorted.deep_view();
    let ghost f = |k: Seq<char>| keyed_field(*object, name@, k);
    proof {
        lemma_sorted_of(ks);
        assert(ks == sorted_keys(*object));
        assert(render_each(ks, f) == fields_text(*object, name@));
    }
    let mut out = String::new();
    let mut k: usize = 0;
    proof {
        assert(ks.take(0) =~= Seq::<Seq<char>>::empty());
    }
    while k < sorted.len()
        invariant
            k <= sorted@.len(),
            ks == sorted.deep_view(),
            ks == sorted_keys(*object),
            render_each(ks, f) == fields_text(*object, name@),
            ks.to_multiset() == property_keys(*object).to_multiset(),
            forall|x: Seq<char>| #[trigger] f(x) == keyed_field(*object, name@, x),
            render_each(ks.take(k as int), f) == Ok::<Seq<char>, ErrorView>(out@),
        decreases sorted@.len() - k,
    {
        let key = sorted[k].as_str();
        proof {
            assert(ks[k as int] == key@);
            lemma_in_keys(ks, property_keys(*object), k as int);
            lemma_render_each_step(ks, f, k as int);
        }
        match keyed_field_string(object, name, key) {
            Ok(field) => {
                out.append(field.as_str());
            },
            Err(e) => {
                proof {
                    assert(f(ks[k as int]) == keyed_field(*object, name@, key@));
                    assert(render_each(ks.take(k + 1), f) == Err::<Seq<char>, ErrorView>(e@));
                    lemma_render_each_err(ks, f, k + 1);
                    assert(render_each(ks, f) == Err::<Seq<char>, ErrorView>(e@));
                }
                return Err(e);
            },
        }
        k = k + 1;
    }
    assert(ks.take(k as int) =~= ks);
    Ok(out)
}

/// The declarations of an object named `name`: a data struct, the type that
/// wraps it, and its conversion from an untyped value.
pub open spec fn object_text(o: ObjectSchema, name: Seq<char>) -> Rendered {
    match fields_text(o, name) {
        Err(e) => Err(e),
        Ok(fields) => Ok(
            doc_attr(o.description) + derives_text() + "#[serde(rename_all = \"camelCase\")]\n"@
                + "pub struct "@ + pascal_case(name) + "Data"@ + " {\n"@ + fields + "}\n"@
                + "pub type "@ + pascal_case(name) + " = atrium_api::types::Object<"@
                + pascal_case(name) + "Data"@ + ">;\n"@
                + "impl From<atrium_api::types::Unknown> for "@ + pascal_case(name) + "Data"@
                + " {\nfn from(value: atrium_api::types::Unknown) -> Self {\n"@
                + "<Self as atrium_api::types::TryFromUnknown>::try_from_unknown(value).unwrap()\n}\n}\n"@,
        ),
    }
}

/// Renders an object as Rust declarations.
pub fn lex_object(object: &ObjectSchema, name: &str) -> (r: Result<String, CodegenError>)
    ensures
        rendered(r) == object_text(*object, name@),
{
    let fields = match object_fields(object, name) {
        Ok(f) => f,
        Err(e) => return Err(e),
    };
    let p = to_pascal(name);
    let mut out = doc_attr_string(&object.description);
    out.append(derives().as_str());
    out.append("#[serde(rename_all = \"camelCase\")]\n");
    out.append("pub struct ");
    out.append(p.as_str());
    out.append("Data");
    out.append(" {\n");
    out.append(fields.as_str());
    out.append("}\n");
    out.append("pub type ");
    out.append(p.as_str());
    out.append(" = atrium_api::types::Object<");
    out.append(p.as_str());
    out.append("Data");
    out.append(">;\n");
    out.append("impl From<atrium_api::types::Unknown> for ");
    out.append(p.as_str());
    out.append("Data");
    out.append(" {\nfn from(value: atrium_api::types::Unknown) -> Self {\n");
    out.append(
        "<Self as atrium_api::types::TryFromUnknown>::try_from_unknown(value).unwrap()\n}\n}\n",
    );
    proof {
        assert(out@ =~= object_text(*object, name@)->Ok_0);
    }
    Ok(out)
}

} // verus!
