//! Discovery of the reference unions of a document, and their enums.
use vstd::prelude::*;
use crate::enums::{enum_common, enum_text, NamespaceEntry, NamespaceView};
use crate::schema::{
    str_eq, ArrayItem, BodySchema, Definition, ObjectSchema, PropertySchema, SchemaDocument,
    XrpcBody,
};
use crate::text::{
    dedup_sorted, lemma_dedup_step, lemma_sorted_of, pascal_case, sorted_of, sorted_strings, to_pascal,
};
use crate::types::{
    lemma_render_each_err, lemma_render_each_step, render_each, rendered, CodegenError,
    ErrorView, Rendered,
};

verus! {

/// A union found in a document: the name of its enum and its references.
pub type UnionEntry = (String, Vec<String>);

/// The unions of one property of the object `on`: a union property, or an
/// array property whose items are a union.
pub open spec fn prop_unions(on: Seq<char>, key: Seq<char>, p: PropertySchema) -> Seq<
    (Seq<char>, Seq<Seq<char>>),
> {
    match p {
        PropertySchema::Union(u) => seq![
            (pascal_case(on) + pascal_case(key) + "Refs"@, u.refs.deep_view()),
        ],
        PropertySchema::Array(a) => match a.items {
            ArrayItem::Union(u) => seq![
                (pascal_case(on) + pascal_case(key) + "Item"@, u.refs.deep_view()),
            ],
            _ => Seq::empty(),
        },
        _ => Seq::empty(),
    }
}

/// The unions of the properties of the object `on`, in property order.
pub open spec fn object_unions(on: Seq<char>, props: Seq<(String, PropertySchema)>) -> Seq<
    (Seq<char>, Seq<Seq<char>>),
>
    decreases props.len(),
{
    if props.len() == 0 {
        Seq::empty()
    } else {
        object_unions(on, props.drop_last()) + prop_unions(on, props.last().0@, props.last().1)
    }
}

/// The unions of an optional object.
pub open spec fn opt_object_unions(on: Seq<char>, o: Option<ObjectSchema>) -> Seq<
    (Seq<char>, Seq<Seq<char>>),
> {
    match o {
        Some(o) => object_unions(on, o.properties@),
        None => Seq::empty(),
    }
}

/// The unions of an optional RPC body given as an object.
pub open spec fn body_unions(on: Seq<char>, b: Option<XrpcBody>) -> Seq<(Seq<char>, Seq<Seq<char>>)> {
    match b {
        Some(b) => match b.schema {
            Some(BodySchema::Object(o)) => object_unions(on, o.properties@),
            _ => Seq::empty(),
        },
        None => Seq::empty(),
    }
}

/// The unions of one definition, rendered under the name `name`; the
/// principal object is named `Main`.
pub open spec fn def_unions(name: Seq<char>, is_main: bool, d: Definition) -> Seq<
    (Seq<char>, Seq<Seq<char>>),
> {
    match d {
        Definition::Record(o) => object_unions("Record"@, o.properties@),
        Definition::Object(o) => object_unions(
            if is_main {
                "Main"@
            } else {
                name
            },
            o.properties@,
        ),
        Definition::Query(q) => opt_object_unions("Parameters"@, q.parameters) + body_unions(
            "Output"@,
            q.output,
        ),
        Definition::Procedure(p) => body_unions("Input"@, p.input) + body_unions("Output"@, p.output),
        Definition::Subscription(s) => opt_object_unions("Parameters"@, s.parameters),
        Definition::Array(a) => match a.items {
            ArrayItem::Union(u) => seq![(pascal_case(name) + "Item"@, u.refs.deep_view())],
            _ => Seq::empty(),
        },
        _ => Seq::empty(),
    }
}

/// The name a definition is rendered under: the principal one takes the
/// last segment of the document's NSID.
pub open spec fn rendered_name(def_name: Seq<char>, basename: Seq<char>) -> Seq<char> {
    if def_name == "main"@ {
        basename
    } else {
        def_name
    }
}

/// Every union of the definitions, in definition order.
pub open spec fn defs_unions(defs: Seq<(String, Definition)>, basename: Seq<char>) -> Seq<
    (Seq<char>, Seq<Seq<char>>),
>
    decreases defs.len(),
{
    if defs.len() == 0 {
        Seq::empty()
    } else {
        let (n, d) = defs.last();
        defs_unions(defs.drop_last(), basename) + def_unions(
            rendered_name(n@, basename),
            n@ == "main"@,
            d,
        )
    }
}

/// The references of the first union named `name`.
pub open spec fn first_refs(all: Seq<(Seq<char>, Seq<Seq<char>>)>, name: Seq<char>) -> Seq<Seq<char>> {
    let i = choose|i: int|
        0 <= i < all.len() && all[i].0 == name && forall|j: int| 0 <= j < i ==> all[j].0 != name;
    all[i].1
}

/// The distinct unions of a document: one per name, in ascending order of
/// name, each with the references of the first union of that name.
pub open spec fn distinct_unions(all: Seq<(Seq<char>, Seq<Seq<char>>)>) -> Seq<
    (Seq<char>, Seq<Seq<char>>),
> {
    let names = dedup_sorted(
        sorted_of(all.map_values(|e: (Seq<char>, Seq<Seq<char>>)| e.0).to_multiset()),
    );
    names.map_values(|n: Seq<char>| (n, first_refs(all, n)))
}

fn copy_strings(v: &Vec<String>) -> (r: Vec<String>)
    ensures
        r.deep_view() == v.deep_view(),
{
    let mut r: Vec<String> = Vec::new();
    let mut i: usize = 0;
    while i < v.len()
        invariant
            i <= v@.len(),
            r.deep_view() == v.deep_view().take(i as int),
        decreases v@.len() - i,
    {
        let ghost before = r.deep_view();
        r.push(String::from_str(v[i].as_str()));
        proof {
            assert(r.deep_view() =~= before.push(v@[i as int]@));
            assert(v.deep_view().take(i + 1) =~= v.deep_view().take(i as int).push(v@[i as int]@));
        }
        i = i + 1;
    }
    assert(v.deep_view().take(i as int) =~= v.deep_view());
    r
}

fn push_entry(out: &mut Vec<UnionEntry>, name: String, refs: &Vec<String>)
    ensures
        final(out).deep_view() == old(out).deep_view().push((name@, refs.deep_view())),
{
    let ghost before = out.deep_view();
    let copy = copy_strings(refs);
    let ghost nv = name@;
    out.push((name, copy));
    assert(out.deep_view() =~= before.push((nv, refs.deep_view())));
}

fn prop_unions_of(out: &mut Vec<UnionEntry>, on: &str, key: &str, p: &PropertySchema)
    ensures
        final(out).deep_view() == old(out).deep_view() + prop_unions(on@, key@, *p),
{
    match p {
        PropertySchema::Union(u) => {
            let mut n = to_pascal(on);
            n.append(to_pascal(key).as_str());
            n.append("Refs");
            push_entry(out, n, &u.refs);
        },
        PropertySchema::Array(a) => match &a.items {
            ArrayItem::Union(u) => {
                let mut n = to_pascal(on);
                n.append(to_pascal(key).as_str());
                n.append("Item");
                push_entry(out, n, &u.refs);
            },
            _ => {
                assert(old(out).deep_view() + prop_unions(on@, key@, *p) =~= old(out).deep_view());
            },
        },
        _ => {
            assert(old(out).deep_view() + prop_unions(on@, key@, *p) =~= old(out).deep_view());
        },
    }
}

fn object_unions_of(out: &mut Vec<UnionEntry>, on: &str, props: &Vec<(String, PropertySchema)>)
    ensures
        final(out).deep_view() == old(out).deep_view() + object_unions(on@, props@),
{
    let ghost start = out.deep_view();
    let mut i: usize = 0;
    assert(start + object_unions(on@, props@.take(0)) =~= start);
    while i < props.len()
        invariant
            i <= props@.len(),
            out.deep_view() == start + object_unions(on@, props@.take(i as int)),
        decreases props@.len() - i,
    {
        prop_unions_of(out, on, props[i].0.as_str(), &props[i].1);
        proof {
            assert(props@.take(i + 1).drop_last() =~= props@.take(i as int));
            assert(props@.take(i + 1).last() == props@[i as int]);
            assert(out.deep_view() =~= start + object_unions(on@, props@.take(i + 1)));
        }
        i = i + 1;
    }
    assert(props@.take(i as int) =~= props@);
}

fn body_unions_of(out: &mut Vec<UnionEntry>, on: &str, b: &Option<XrpcBody>)
    ensures
        final(out).deep_view() == old(out).deep_view() + body_unions(on@, *b),
{
    match b {
        Some(b) => match &b.schema {
            Some(BodySchema::Object(o)) => object_unions_of(out, on, &o.properties),
            _ => {
                assert(old(out).deep_view() + Seq::<(Seq<char>, Seq<Seq<char>>)>::empty() =~= old(
                    out,
                ).deep_view());
            },
        },
        None => {
            assert(old(out).deep_view() + Seq::<(Seq<char>, Seq<Seq<char>>)>::empty() =~= old(
                out,
            ).deep_view());
        },
    }
}

fn opt_object_unions_of(out: &mut Vec<UnionEntry>, on: &str, o: &Option<ObjectSchema>)
    ensures
        final(out).deep_view() == old(out).deep_view() + opt_object_unions(on@, *o),
{
    match o {
        Some(o) => object_unions_of(out, on, &o.properties),
        None => {
            assert(old(out).deep_view() + Seq::<(Seq<char>, Seq<Seq<char>>)>::empty() =~= old(
                out,
            ).deep_view());
        },
    }
}

fn def_unions_of(out: &mut Vec<UnionEntry>, name: &str, is_main: bool, d: &Definition)
    ensures
        final(out).deep_view() == old(out).deep_view() + def_unions(name@, is_main, *d),
{
    let ghost start = out.deep_view();
    match d {
        Definition::Record(o) => object_unions_of(out, "Record", &o.properties),
        Definition::Object(o) => object_unions_of(
            out,
            if is_main {
                "Main"
            } else {
                name
            },
            &o.properties,
        ),
        Definition::Query(q) => {
            opt_object_unions_of(out, "Parameters", &q.parameters);
            body_unions_of(out, "Output", &q.output);
            assert(out.deep_view() =~= start + def_unions(name@, is_main, *d));
        },
        Definition::Procedure(p) => {
            body_unions_of(out, "Input", &p.input);
            body_unions_of(out, "Output", &p.output);
            assert(out.deep_view() =~= start + def_unions(name@, is_main, *d));
        },
        Definition::Subscription(s) => opt_object_unions_of(out, "Parameters", &s.parameters),
        Definition::Array(a) => match &a.items {
            ArrayItem::Union(u) => {
                let mut n = to_pascal(name);
                n.append("Item");
                push_entry(out, n, &u.refs);
                assert(out.deep_view() =~= start + def_unions(name@, is_main, *d));
            },
            _ => {
                assert(start + def_unions(name@, is_main, *d) =~= start);
            },
        },
        _ => {
            assert(start + def_unions(name@, is_main, *d) =~= start);
        },
    }
}

/// Collects every union of a document's definitions, in definition order.
pub fn all_unions(doc: &SchemaDocument, basename: &str) -> (r: Vec<UnionEntry>)
    ensures
        r.deep_view() == defs_unions(doc.defs@, basename@),
{
    proof {
        reveal_strlit("main");
    }
    let mut out: Vec<UnionEntry> = Vec::new();
    let mut i: usize = 0;
    assert(out.deep_view() =~= defs_unions(doc.defs@.take(0), basename@));
    while i < doc.defs.len()
        invariant
            i <= doc.defs@.len(),
            out.deep_view() == defs_unions(doc.defs@.take(i as int), basename@),
        decreases doc.defs@.len() - i,
    {
        let is_main = str_eq(doc.defs[i].0.as_str(), "main");
        let name = if is_main {
            basename
        } else {
            doc.defs[i].0.as_str()
        };
        def_unions_of(&mut out, name, is_main, &doc.defs[i].1);
        proof {
            assert(doc.defs@.take(i + 1).drop_last() =~= doc.defs@.take(i as int));
            assert(doc.defs@.take(i + 1).last() == doc.defs@[i as int]);
        }
        i = i + 1;
    }
    assert(doc.defs@.take(i as int) =~= doc.defs@);
    out
}

fn first_refs_of(all: &Vec<UnionEntry>, name: &str) -> (r: Vec<String>)
    requires
        exists|i: int| 0 <= i < all@.len() && all@[i].0@ == name@,
    ensures
        r.deep_view() == first_refs(all.deep_view(), name@),
{
    let ghost dv = all.deep_view();
    let ghost w = choose|i: int| 0 <= i < all@.len() && all@[i].0@ == name@;
    let mut i: usize = 0;
    while i < all.len()
        invariant
            i <= all@.len(),
            dv == all.deep_view(),
            0 <= w < all@.len() && all@[w].0@ == name@,
            forall|j: int| 0 <= j < i ==> dv[j].0 != name@,
        decreases all@.len() - i,
    {
        assert(dv[i as int].0 == all@[i as int].0@);
        if str_eq(all[i].0.as_str(), name) {
            proof {
                let c = choose|c: int|
                    0 <= c < dv.len() && dv[c].0 == name@ && forall|j: int|
                        0 <= j < c ==> dv[j].0 != name@;
                assert(c == i as int) by {
                    if c < i {
                    } else if c > i {
                    }
                }
            }
            return copy_strings(&all[i].1);
        }
        i = i + 1;
    }
    assert(dv[w].0 == all@[w].0@);
    Vec::new()
}

proof fn lemma_name_present(
    sv: Seq<Seq<char>>,
    names_view: Seq<Seq<char>>,
    dv: Seq<(Seq<char>, Seq<Seq<char>>)>,
    k: int,
) -> (j: int)
    requires
        0 <= k < sv.len(),
        sv.to_multiset() == names_view.to_multiset(),
        names_view == dv.map_values(|e: (Seq<char>, Seq<Seq<char>>)| e.0),
    ensures
        0 <= j < dv.len(),
        dv[j].0 == sv[k],
{
    sv.to_multiset_ensures();
    names_view.to_multiset_ensures();
    assert(sv.contains(sv[k]));
    assert(sv.to_multiset().count(sv[k]) > 0);
    assert(names_view.to_multiset().count(sv[k]) > 0);
    let j = choose|j: int| 0 <= j < names_view.len() && names_view[j] == sv[k];
    j
}

/// Keeps one union per name, in ascending order of name.
pub fn distinct(all: &Vec<UnionEntry>) -> (r: Vec<UnionEntry>)
    ensures
        r.deep_view() == distinct_unions(all.deep_view()),
{
    let ghost dv = all.deep_view();
    let ghost names_view = dv.map_values(|e: (Seq<char>, Seq<Seq<char>>)| e.0);
    let mut names: Vec<String> = Vec::new();
    let mut i: usize = 0;
    while i < all.len()
        invariant
            i <= all@.len(),
            dv == all.deep_view(),
            names_view == dv.map_values(|e: (Seq<char>, Seq<Seq<char>>)| e.0),
            names.deep_view() == names_view.take(i as int),
        decreases all@.len() - i,
    {
        let ghost before = names.deep_view();
        names.push(String::from_str(all[i].0.as_str()));
        proof {
            assert(names.deep_view() =~= before.push(all@[i as int].0@));
            assert(names_view.take(i + 1) =~= names_view.take(i as int).push(names_view[i as int]));
        }
        i = i + 1;
    }
    assert(names_view.take(i as int) =~= names_view);
    let sorted = sorted_strings(names);
    let ghost sv = sorted.deep_view();
    proof {
        lemma_sorted_of(sv);
    }
    let ghost uniq = dedup_sorted(sv);
    let mut out: Vec<UnionEntry> = Vec::new();
    let mut k: usize = 0;
    while k < sorted.len()
        invariant
            k <= sorted@.len(),
            sv == sorted.deep_view(),
            dv == all.deep_view(),
            sv.to_multiset() == names_view.to_multiset(),
            names_view == dv.map_values(|e: (Seq<char>, Seq<Seq<char>>)| e.0),
            out.deep_view() == dedup_sorted(sv.take(k as int)).map_values(
                |n: Seq<char>| (n, first_refs(dv, n)),
            ),
        decreases sorted@.len() - k,
    {
        proof {
            lemma_dedup_step(sv, k as int);
            assert(sv[k as int] == sorted@[k as int]@);
            if k > 0 {
                assert(sv[k - 1] == sorted@[k - 1]@);
            }
        }
        let repeat = k > 0 && str_eq(sorted[k - 1].as_str(), sorted[k].as_str());
        if !repeat {
            proof {
                let j = lemma_name_present(sv, names_view, dv, k as int);
                assert(dv[j].0 == all@[j].0@);
            }
            let refs = first_refs_of(all, sorted[k].as_str());
            let name = String::from_str(sorted[k].as_str());
            let ghost prev = dedup_sorted(sv.take(k as int));
            push_entry(&mut out, name, &refs);
            proof {
                let f = |n: Seq<char>| (n, first_refs(dv, n));
                assert(out.deep_view() =~= prev.push(sv[k as int]).map_values(f));
            }
        }
        k = k + 1;
    }
    assert(sv.take(k as int) =~= sv);
    out
}

/// The enums of a document's unions, one after another.
pub open spec fn unions_text(schema_id: Seq<char>, unions: Seq<(Seq<char>, Seq<Seq<char>>)>) -> Rendered {
    render_each(
        unions,
        |u: (Seq<char>, Seq<Seq<char>>)| enum_text(u.1, u.0, Some(schema_id), Seq::empty()),
    )
}

/// Renders one enum per union of a document.
pub fn ref_unions(schema_id: &str, unions: &Vec<UnionEntry>) -> (r: Result<String, CodegenError>)
    ensures
        rendered(r) == unions_text(schema_id@, unions.deep_view()),
{
    let no_namespaces: Vec<NamespaceEntry> = Vec::new();
    assert(no_namespaces.deep_view() =~= Seq::<NamespaceView>::empty());
    let ghost us = unions.deep_view();
    let ghost f = |u: (Seq<char>, Seq<Seq<char>>)| enum_text(u.1, u.0, Some(schema_id@), Seq::empty());
    let mut out = String::new();
    let mut k: usize = 0;
    proof {
        assert(us.take(0) =~= Seq::<(Seq<char>, Seq<Seq<char>>)>::empty());
    }
    while k < unions.len()
        invariant
            k <= unions@.len(),
            us == unions.deep_view(),
            no_namespaces.deep_view() == Seq::<NamespaceView>::empty(),
            forall|x: (Seq<char>, Seq<Seq<char>>)| #[trigger] f(x) == enum_text(
                x.1,
                x.0,
                Some(schema_id@),
                Seq::empty(),
            ),
            render_each(us, f) == unions_text(schema_id@, us),
            render_each(us.take(k as int), f) == Ok::<Seq<char>, ErrorView>(out@),
        decreases unions@.len() - k,
    {
        proof {
            assert(us[k as int] == (unions@[k as int].0@, unions@[k as int].1.deep_view()));
            lemma_render_each_step(us, f, k as int);
        }
        match enum_common(&unions[k].1, unions[k].0.as_str(), Some(schema_id), &no_namespaces) {
            Ok(t) => out.append(t.as_str()),
            Err(e) => {
                proof {
                    lemma_render_each_err(us, f, k + 1);
                }
                return Err(e);
            },
        }
        k = k + 1;
    }
    assert(us.take(k as int) =~= us);
    Ok(out)
}

} // verus!
