//! The check that every reference of every document names a definition
//! of the input set.
use vstd::prelude::*;
use crate::resolve::{ref_target, split_ref};
use crate::schema::{
    def_named, find_def, str_eq, ArrayItem, BodySchema, Definition, ObjectSchema, PropertySchema,
    SchemaDocument, XrpcBody,
};
use crate::types::CodegenError;

verus! {

/// The references of one property.
pub open spec fn prop_refs(p: PropertySchema) -> Seq<Seq<char>> {
    match p {
        PropertySchema::Ref(r) => seq![r.reference@],
        PropertySchema::Union(u) => u.refs.deep_view(),
        PropertySchema::Array(a) => item_refs(a.items),
        _ => Seq::empty(),
    }
}

/// The references of the items of an array.
pub open spec fn item_refs(i: ArrayItem) -> Seq<Seq<char>> {
    match i {
        ArrayItem::Ref(r) => seq![r.reference@],
        ArrayItem::Union(u) => u.refs.deep_view(),
        _ => Seq::empty(),
    }
}

/// The references of the properties of an object, in property order.
pub open spec fn props_refs(props: Seq<(String, PropertySchema)>) -> Seq<Seq<char>>
    decreases props.len(),
{
    if props.len() == 0 {
        Seq::empty()
    } else {
        props_refs(props.drop_last()) + prop_refs(props.last().1)
    }
}

/// The references of an optional object.
pub open spec fn opt_object_refs(o: Option<ObjectSchema>) -> Seq<Seq<char>> {
    match o {
        Some(o) => props_refs(o.properties@),
        None => Seq::empty(),
    }
}

/// The references of an optional RPC body.
pub open spec fn body_refs(b: Option<XrpcBody>) -> Seq<Seq<char>> {
    match b {
        Some(b) => match b.schema {
            Some(BodySchema::Ref(r)) => seq![r.reference@],
            Some(BodySchema::Union(u)) => u.refs.deep_view(),
            Some(BodySchema::Object(o)) => props_refs(o.properties@),
            None => Seq::empty(),
        },
        None => Seq::empty(),
    }
}

/// The references of one definition.
pub open spec fn def_refs(d: Definition) -> Seq<Seq<char>> {
    match d {
        Definition::Record(o) => props_refs(o.properties@),
        Definition::Object(o) => props_refs(o.properties@),
        Definition::Query(q) => opt_object_refs(q.parameters) + body_refs(q.output),
        Definition::Procedure(p) => body_refs(p.input) + body_refs(p.output),
        Definition::Subscription(s) => opt_object_refs(s.parameters),
        Definition::Array(a) => item_refs(a.items),
        _ => Seq::empty(),
    }
}

/// Every reference of a document, in definition order.
pub open spec fn defs_refs(defs: Seq<(String, Definition)>) -> Seq<Seq<char>>
    decreases defs.len(),
{
    if defs.len() == 0 {
        Seq::empty()
    } else {
        defs_refs(defs.drop_last()) + def_refs(defs.last().1)
    }
}

/// Whether a reference made in `current` names a definition: one of
/// `current` itself when it has no namespace, otherwise one of the document
/// whose NSID is its namespace.
pub open spec fn ref_resolves(docs: Seq<SchemaDocument>, current: SchemaDocument, r: Seq<char>) -> bool {
    let (ns, def) = ref_target(r, "main"@);
    if ns.len() == 0 {
        def_named(current, def) is Some
    } else {
        exists|i: int| 0 <= i < docs.len() && (#[trigger] docs[i]).id@ == ns && def_named(docs[i], def) is Some
    }
}

/// The first reference of `refs` that does not resolve.
pub open spec fn first_unresolved_in(
    docs: Seq<SchemaDocument>,
    current: SchemaDocument,
    refs: Seq<Seq<char>>,
) -> Option<Seq<char>>
    decreases refs.len(),
{
    if refs.len() == 0 {
        None
    } else if !ref_resolves(docs, current, refs[0]) {
        Some(refs[0])
    } else {
        first_unresolved_in(docs, current, refs.drop_first())
    }
}

/// The first document, in input order, with a reference that does not
/// resolve, and that reference.
pub open spec fn first_unresolved(docs: Seq<SchemaDocument>, k: int) -> Option<(Seq<char>, Seq<char>)>
    decreases docs.len() - k,
{
    if k < 0 || k >= docs.len() {
        None
    } else {
        match first_unresolved_in(docs, docs[k], defs_refs(docs[k].defs@)) {
            Some(r) => Some((docs[k].id@, r)),
            None => first_unresolved(docs, k + 1),
        }
    }
}

fn push_str_copy(out: &mut Vec<String>, s: &str)
    ensures
        final(out).deep_view() == old(out).deep_view().push(s@),
{
    let ghost before = out.deep_view();
    out.push(String::from_str(s));
    assert(out.deep_view() =~= before.push(s@));
}

fn push_all(out: &mut Vec<String>, v: &Vec<String>)
    ensures
        final(out).deep_view() == old(out).deep_view() + v.deep_view(),
{
    let ghost start = out.deep_view();
    let mut i: usize = 0;
    assert(start + v.deep_view().take(0) =~= start);
    while i < v.len()
        invariant
            i <= v@.len(),
            out.deep_view() == start + v.deep_view().take(i as int),
        decreases v@.len() - i,
    {
        push_str_copy(out, v[i].as_str());
        proof {
            assert(v.deep_view().take(i + 1) =~= v.deep_view().take(i as int).push(v@[i as int]@));
            assert(out.deep_view() =~= start + v.deep_view().take(i + 1));
        }
        i = i + 1;
    }
    assert(v.deep_view().take(i as int) =~= v.deep_view());
}

fn item_refs_of(out: &mut Vec<String>, i: &ArrayItem)
    ensures
        final(out).deep_view() == old(out).deep_view() + item_refs(*i),
{
    match i {
        ArrayItem::Ref(r) => {
            push_str_copy(out, r.reference.as_str());
            assert(seq![r.reference@] =~= Seq::<Seq<char>>::empty().push(r.reference@));
            assert(old(out).deep_view().push(r.reference@) =~= old(out).deep_view() + seq![r.reference@]);
        },
        ArrayItem::Union(u) => push_all(out, &u.refs),
        _ => {
            assert(old(out).deep_view() + item_refs(*i) =~= old(out).deep_view());
        },
    }
}

fn prop_refs_of(out: &mut Vec<String>, p: &PropertySchema)
    ensures
        final(out).deep_view() == old(out).deep_view() + prop_refs(*p),
{
    match p {
        PropertySchema::Ref(r) => {
            push_str_copy(out, r.reference.as_str());
            assert(old(out).deep_view().push(r.reference@) =~= old(out).deep_view() + seq![r.reference@]);
        },
        PropertySchema::Union(u) => push_all(out, &u.refs),
        PropertySchema::Array(a) => item_refs_of(out, &a.items),
        _ => {
            assert(old(out).deep_view() + prop_refs(*p) =~= old(out).deep_view());
        },
    }
}

fn props_refs_of(out: &mut Vec<String>, props: &Vec<(String, PropertySchema)>)
    ensures
        final(out).deep_view() == old(out).deep_view() + props_refs(props@),
{
    let ghost start = out.deep_view();
    let mut i: usize = 0;
    assert(start + props_refs(props@.take(0)) =~= start);
    while i < props.len()
        invariant
            i <= props@.len(),
            out.deep_view() == start + props_refs(props@.take(i as int)),
        decreases props@.len() - i,
    {
        prop_refs_of(out, &props[i].1);
        proof {
            assert(props@.take(i + 1).drop_last() =~= props@.take(i as int));
            assert(props@.take(i + 1).last() == props@[i as int]);
            assert(out.deep_view() =~= start + props_refs(props@.take(i + 1)));
        }
        i = i + 1;
    }
    assert(props@.take(i as int) =~= props@);
}

fn opt_object_refs_of(out: &mut Vec<String>, o: &Option<ObjectSchema>)
    ensures
        final(out).deep_view() == old(out).deep_view() + opt_object_refs(*o),
{
    match o {
        Some(o) => props_refs_of(out, &o.properties),
        None => {
            assert(old(out).deep_view() + opt_object_refs(None) =~= old(out).deep_view());
        },
    }
}

fn body_refs_of(out: &mut Vec<String>, b: &Option<XrpcBody>)
    ensures
        final(out).deep_view() == old(out).deep_view() + body_refs(*b),
{
    match b {
        Some(body) => match &body.schema {
            Some(BodySchema::Ref(r)) => {
                push_str_copy(out, r.reference.as_str());
                assert(old(out).deep_view().push(r.reference@) =~= old(out).deep_view() + seq![
                    r.reference@,
                ]);
            },
            Some(BodySchema::Union(u)) => push_all(out, &u.refs),
            Some(BodySchema::Object(o)) => props_refs_of(out, &o.properties),
            None => {
                assert(old(out).deep_view() + body_refs(*b) =~= old(out).deep_view());
            },
        },
        None => {
            assert(old(out).deep_view() + body_refs(*b) =~= old(out).deep_view());
        },
    }
}

fn def_refs_of(out: &mut Vec<String>, d: &Definition)
    ensures
        final(out).deep_view() == old(out).deep_view() + def_refs(*d),
{
    let ghost start = out.deep_view();
    match d {
        Definition::Record(o) => props_refs_of(out, &o.properties),
        Definition::Object(o) => props_refs_of(out, &o.properties),
        Definition::Query(q) => {
            opt_object_refs_of(out, &q.parameters);
            body_refs_of(out, &q.output);
            assert(out.deep_view() =~= start + def_refs(*d));
        },
        Definition::Procedure(p) => {
            body_refs_of(out, &p.input);
            body_refs_of(out, &p.output);
            assert(out.deep_view() =~= start + def_refs(*d));
        },
        Definition::Subscription(s) => opt_object_refs_of(out, &s.parameters),
        Definition::Array(a) => item_refs_of(out, &a.items),
        _ => {
            assert(start + def_refs(*d) =~= start);
        },
    }
}

/// Collects every reference of a document, in definition order.
pub fn doc_refs(doc: &SchemaDocument) -> (r: Vec<String>)
    ensures
        r.deep_view() == defs_refs(doc.defs@),
{
    let mut out: Vec<String> = Vec::new();
    let mut i: usize = 0;
    assert(out.deep_view() =~= defs_refs(doc.defs@.take(0)));
    while i < doc.defs.len()
        invariant
            i <= doc.defs@.len(),
            out.deep_view() == defs_refs(doc.defs@.take(i as int)),
        decreases doc.defs@.len() - i,
    {
        def_refs_of(&mut out, &doc.defs[i].1);
        proof {
            assert(doc.defs@.take(i + 1).drop_last() =~= doc.defs@.take(i as int));
            assert(doc.defs@.take(i + 1).last() == doc.defs@[i as int]);
        }
        i = i + 1;
    }
    assert(doc.defs@.take(i as int) =~= doc.defs@);
    out
}

/// Decides whether a reference made in `current` resolves.
pub fn resolves(docs: &Vec<SchemaDocument>, current: &SchemaDocument, r: &str) -> (res: bool)
    ensures
        res == ref_resolves(docs@, *current, r@),
{
    proof {
        reveal_strlit("main");
    }
    let (ns, def) = split_ref(r, "main");
    if ns.unicode_len() == 0 {
        return find_def(current, def.as_str()).is_some();
    }
    let mut i: usize = 0;
    while i < docs.len()
        invariant
            i <= docs@.len(),
            (ns@, def@) == ref_target(r@, "main"@),
            ns@.len() > 0,
            forall|j: int|
                0 <= j < i ==> !((#[trigger] docs@[j]).id@ == ns@ && def_named(docs@[j], def@) is Some),
        decreases docs@.len() - i,
    {
        if str_eq(docs[i].id.as_str(), ns.as_str()) && find_def(&docs[i], def.as_str()).is_some() {
            return true;
        }
        i = i + 1;
    }
    false
}

/// Finds the first reference of a document that does not resolve.
pub fn first_unresolved_ref(docs: &Vec<SchemaDocument>, current: &SchemaDocument) -> (r: Option<
    String,
>)
    ensures
        match first_unresolved_in(docs@, *current, defs_refs(current.defs@)) {
            Some(x) => r is Some && r->Some_0@ == x,
            None => r is None,
        },
{
    let refs = doc_refs(current);
    let ghost rv = refs.deep_view();
    let mut i: usize = 0;
    assert(rv.skip(0) =~= rv);
    while i < refs.len()
        invariant
            i <= refs@.len(),
            rv == refs.deep_view(),
            rv == defs_refs(current.defs@),
            first_unresolved_in(docs@, *current, rv.skip(i as int)) == first_unresolved_in(
                docs@,
                *current,
                rv,
            ),
        decreases refs@.len() - i,
    {
        proof {
            assert(rv.skip(i as int).drop_first() =~= rv.skip(i + 1));
            assert(rv.skip(i as int)[0] == refs@[i as int]@);
        }
        if !resolves(docs, current, refs[i].as_str()) {
            return Some(String::from_str(refs[i].as_str()));
        }
        i = i + 1;
    }
    None
}

/// Checks that every reference of every document resolves; the first that
/// does not, in input order, is the error.
pub fn check_references(docs: &Vec<SchemaDocument>) -> (r: Result<(), CodegenError>)
    ensures
        match first_unresolved(docs@, 0) {
            Some((nsid, reference)) => r is Err && r->Err_0@ == crate::types::ErrorView::UnresolvedReference {
                nsid,
                reference,
            },
            None => r is Ok,
        },
{
    let mut k: usize = 0;
    while k < docs.len()
        invariant
            k <= docs@.len(),
            first_unresolved(docs@, k as int) == first_unresolved(docs@, 0),
        decreases docs@.len() - k,
    {
        match first_unresolved_ref(docs, &docs[k]) {
            Some(reference) => {
                return Err(
                    CodegenError::UnresolvedReference {
                        nsid: String::from_str(docs[k].id.as_str()),
                        reference,
                    },
                );
            },
            None => {},
        }
        k = k + 1;
    }
    Ok(())
}

} // verus!
