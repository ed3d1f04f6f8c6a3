//! Properties that relate several functions of the compiler, or hold of all
//! inputs.
use vstd::prelude::*;
use crate::modules::first_segments;
use crate::enums::{enum_text, variant_tag, variant_text, NamespaceView};
use crate::generator::{namespaces_spec, root_file, ungated, generation, module_file, namespace_of, records_file, known_records, record_ids};
use crate::object::{derives_text, is_required, names_contain, union_type};
use crate::resolve::{resolved, variant_name};
use crate::schema::{is_record_doc, ObjectSchema, RefUnion, SchemaDocument};
use crate::text::{lemma_sorted_of_seq, quoted, sorted_seq, split_on};
use crate::types::render_each;

verus! {

/// No piece of a split holds the separator.
pub proof fn lemma_split_pieces(s: Seq<char>, sep: char)
    ensures
        forall|i: int, j: int|
            0 <= i < split_on(s, sep).len() && 0 <= j < split_on(s, sep)[i].len() ==> split_on(
                s,
                sep,
            )[i][j] != sep,
    decreases s.len(),
{
    if s.len() > 0 {
        lemma_split_pieces(s.drop_last(), sep);
        crate::text::lemma_split_on_nonempty(s.drop_last(), sep);
    }
}

/// `a0.a1` and `b0.b1` are the same text only if the pieces are the same,
/// when neither first piece holds a dot.
proof fn lemma_dotted_pair(a0: Seq<char>, a1: Seq<char>, b0: Seq<char>, b1: Seq<char>)
    requires
        forall|j: int| 0 <= j < a0.len() ==> a0[j] != '.',
        forall|j: int| 0 <= j < b0.len() ==> b0[j] != '.',
        a0 + seq!['.'] + a1 == b0 + seq!['.'] + b1,
    ensures
        a0 == b0,
        a1 == b1,
{
    let l = a0 + seq!['.'] + a1;
    let r = b0 + seq!['.'] + b1;
    if a0.len() < b0.len() {
        assert(l[a0.len() as int] == '.');
        assert(r[a0.len() as int] == b0[a0.len() as int]);
    } else if b0.len() < a0.len() {
        assert(r[b0.len() as int] == '.');
        assert(l[b0.len() as int] == a0[b0.len() as int]);
    }
    assert(a0 =~= l.take(a0.len() as int));
    assert(b0 =~= r.take(b0.len() as int));
    assert(a1 =~= l.skip(a0.len() as int + 1));
    assert(b1 =~= r.skip(b0.len() as int + 1));
}

/// The namespace of an NSID is its first two dot-separated segments: two
/// NSIDs of at least two segments share a namespace exactly when their
/// first and second segments agree, whatever follows.
pub proof fn lemma_namespace_segments(a: Seq<char>, b: Seq<char>)
    requires
        split_on(a, '.').len() >= 2,
        split_on(b, '.').len() >= 2,
    ensures
        namespace_of(a) == Some(split_on(a, '.')[0] + "."@ + split_on(a, '.')[1]),
        (namespace_of(a) == namespace_of(b)) <==> (split_on(a, '.')[0] == split_on(b, '.')[0]
            && split_on(a, '.')[1] == split_on(b, '.')[1]),
{
    reveal_strlit(".");
    assert("."@ =~= seq!['.']);
    let pa = split_on(a, '.');
    let pb = split_on(b, '.');
    lemma_split_pieces(a, '.');
    lemma_split_pieces(b, '.');
    if namespace_of(a) == namespace_of(b) {
        assert(pa[0] + seq!['.'] + pa[1] == pb[0] + seq!['.'] + pb[1]);
        lemma_dotted_pair(pa[0], pa[1], pb[0], pb[1]);
    }
}

/// The record NSIDs of a sequence with one more document at its end.
proof fn lemma_record_ids_last(s: Seq<SchemaDocument>)
    requires
        s.len() > 0,
    ensures
        record_ids(s).to_multiset() == if is_record_doc(s.last()) {
            record_ids(s.drop_last()).to_multiset().insert(s.last().id@)
        } else {
            record_ids(s.drop_last()).to_multiset()
        },
{
    record_ids(s.drop_last()).to_multiset_ensures();
}

/// Taking out the document at `j` takes out its NSID, if it is a record.
proof fn lemma_record_ids_remove(s: Seq<SchemaDocument>, j: int)
    requires
        0 <= j < s.len(),
    ensures
        record_ids(s).to_multiset() == if is_record_doc(s[j]) {
            record_ids(s.remove(j)).to_multiset().insert(s[j].id@)
        } else {
            record_ids(s.remove(j)).to_multiset()
        },
    decreases s.len(),
{
    lemma_record_ids_last(s);
    if j == s.len() - 1 {
        assert(s.remove(j) =~= s.drop_last());
    } else {
        let t = s.drop_last();
        lemma_record_ids_remove(t, j);
        assert(t.remove(j) =~= s.remove(j).drop_last());
        assert(s.remove(j).last() == s.last());
        assert(t[j] == s[j]);
        lemma_record_ids_last(s.remove(j));
        if is_record_doc(s[j]) && is_record_doc(s.last()) {
            assert(record_ids(s.remove(j)).to_multiset().insert(s[j].id@) =~= record_ids(
                t.remove(j),
            ).to_multiset().insert(s.last().id@).insert(s[j].id@));
            assert(record_ids(s).to_multiset() =~= record_ids(t.remove(j)).to_multiset().insert(
                s[j].id@,
            ).insert(s.last().id@));
        }
    }
}

/// The record NSIDs of two orderings of the same documents are the same
/// multiset.
proof fn lemma_record_ids_permutation(a: Seq<SchemaDocument>, b: Seq<SchemaDocument>)
    requires
        a.to_multiset() == b.to_multiset(),
    ensures
        record_ids(a).to_multiset() == record_ids(b).to_multiset(),
    decreases a.len(),
{
    a.to_multiset_ensures();
    b.to_multiset_ensures();
    if a.len() == 0 {
        assert(b.len() == 0);
        assert(b =~= a);
    } else {
        let x = a.last();
        let a2 = a.drop_last();
        assert(a.contains(x));
        assert(a.to_multiset().count(x) > 0);
        assert(b.contains(x));
        let j = choose|j: int| 0 <= j < b.len() && b[j] == x;
        let b2 = b.remove(j);
        assert(a.remove(a.len() - 1) =~= a2);
        assert(a2.to_multiset() =~= b2.to_multiset());
        lemma_record_ids_permutation(a2, b2);
        lemma_record_ids_last(a);
        lemma_record_ids_remove(b, j);
    }
}

/// The known-record aggregate depends on the set of documents only:
/// documents given in any other order yield the same variants in the same
/// order, and the same file.
pub proof fn lemma_records_order_free(
    a: Seq<SchemaDocument>,
    b: Seq<SchemaDocument>,
    namespaces: Seq<NamespaceView>,
)
    requires
        a.to_multiset() == b.to_multiset(),
    ensures
        known_records(a) == known_records(b),
        records_file(a, namespaces) == records_file(b, namespaces),
{
    lemma_record_ids_permutation(a, b);
    reveal(records_file);
}

/// The variants of the known-record aggregate are the NSIDs of the record
/// documents, each as often as it occurs among them, in ascending order.
pub proof fn lemma_known_records(docs: Seq<SchemaDocument>)
    ensures
        sorted_seq(known_records(docs)),
        known_records(docs).to_multiset() == record_ids(docs).to_multiset(),
{
    lemma_sorted_of_seq(record_ids(docs));
}

/// The variant for a reference to another document: tagged by the
/// reference as written, named from its resolved path, boxing that path.
pub open spec fn foreign_variant(x: Seq<char>) -> Seq<char> {
    "#[serde(rename = "@ + quoted(x) + ")]\n"@ + variant_name(x, "main"@, false) + "(Box<"@
        + resolved(x, "main"@)->Ok_0 + ">),\n"@
}

/// A union of two references that name other documents renders as an enum
/// of exactly two variants, tagged by the references as written and named
/// from their resolved paths; a closed union stands as that enum, an open
/// one as the enum in the extensible wrapper.
pub proof fn lemma_two_ref_union(
    x: Seq<char>,
    y: Seq<char>,
    name: Seq<char>,
    schema_id: Seq<char>,
    u: RefUnion,
)
    requires
        x.len() > 0 && x[0] != '#',
        y.len() > 0 && y[0] != '#',
        resolved(x, "main"@) is Ok,
        resolved(y, "main"@) is Ok,
    ensures
        enum_text(seq![x, y], name, Some(schema_id), Seq::empty()) == Ok::<Seq<char>, crate::types::ErrorView>(
            derives_text() + "#[serde(tag = \"$type\")]\npub enum "@ + name + " {\n"@
                + foreign_variant(x) + foreign_variant(y) + "}\n"@,
        ),
        u.closed == Some(true) ==> union_type(u, name) == name,
        u.closed != Some(true) ==> union_type(u, name) == "atrium_api::types::Union<"@ + name
            + ">"@,
{
    lemma_other_doc_variant(x, schema_id);
    lemma_other_doc_variant(y, schema_id);
    lemma_two_variants(x, y, schema_id);
    let vx = foreign_variant(x);
    let vy = foreign_variant(y);
    let head = derives_text() + "#[serde(tag = \"$type\")]\npub enum "@ + name + " {\n"@;
    assert(head + (vx + vy) + "}\n"@ =~= head + vx + vy + "}\n"@);
}

proof fn lemma_two_variants(x: Seq<char>, y: Seq<char>, schema_id: Seq<char>)
    requires
        variant_text(x, Some(schema_id), Seq::empty()) == Ok::<Seq<char>, crate::types::ErrorView>(
            foreign_variant(x),
        ),
        variant_text(y, Some(schema_id), Seq::empty()) == Ok::<Seq<char>, crate::types::ErrorView>(
            foreign_variant(y),
        ),
    ensures
        crate::enums::variants_text(seq![x, y], Some(schema_id), Seq::empty()) == Ok::<
            Seq<char>,
            crate::types::ErrorView,
        >(foreign_variant(x) + foreign_variant(y)),
{
    reveal_with_fuel(render_each, 3);
    let s = seq![x, y];
    assert(s.drop_last() =~= seq![x]);
    assert(seq![x].drop_last() =~= Seq::<Seq<char>>::empty());
    assert(Seq::<char>::empty() + foreign_variant(x) =~= foreign_variant(x));
}

proof fn lemma_other_doc_variant(x: Seq<char>, schema_id: Seq<char>)
    requires
        x.len() > 0 && x[0] != '#',
        resolved(x, "main"@) is Ok,
    ensures
        variant_text(x, Some(schema_id), Seq::empty()) == Ok::<Seq<char>, crate::types::ErrorView>(
            foreign_variant(x),
        ),
{
    reveal(variant_text);
    assert(variant_tag(x, Some(schema_id)) == x);
    assert(Seq::<char>::empty() + "#[serde(rename = "@ =~= "#[serde(rename = "@);
}

/// A property listed as nullable is never mandatory, whether or not it is
/// also listed as required: its field is optional.
pub proof fn lemma_nullable_is_optional(o: ObjectSchema, key: Seq<char>)
    requires
        names_contain(o.nullable, key),
    ensures
        !is_required(o, key),
{
}

/// The first dot-separated segment of a namespace.
pub open spec fn first_segment(n: Seq<char>) -> Seq<char> {
    split_on(n, '.')[0]
}

proof fn lemma_first_segments_ungated(names: Seq<Seq<char>>)
    ensures
        first_segments(ungated(names)) == names.map_values(|n: Seq<char>| first_segment(n)),
    decreases names.len(),
{
    if names.len() > 0 {
        lemma_first_segments_ungated(names.drop_last());
        assert(ungated(names).drop_last() =~= ungated(names.drop_last()));
        assert(names.map_values(|n: Seq<char>| first_segment(n)) =~= names.drop_last().map_values(
            |n: Seq<char>| first_segment(n),
        ).push(first_segment(names.last())));
    } else {
        assert(names.map_values(|n: Seq<char>| first_segment(n)) =~= Seq::<Seq<char>>::empty());
    }
}

proof fn lemma_first_segments_permutation(a: Seq<Seq<char>>, b: Seq<Seq<char>>)
    requires
        a.to_multiset() == b.to_multiset(),
    ensures
        a.map_values(|n: Seq<char>| first_segment(n)).to_multiset() == b.map_values(
            |n: Seq<char>| first_segment(n),
        ).to_multiset(),
    decreases a.len(),
{
    let f = |n: Seq<char>| first_segment(n);
    a.to_multiset_ensures();
    b.to_multiset_ensures();
    if a.len() == 0 {
        assert(b.len() == 0);
        assert(a.map_values(f) =~= b.map_values(f));
    } else {
        let x = a.last();
        let a2 = a.drop_last();
        assert(a.contains(x));
        assert(a.to_multiset().count(x) > 0);
        assert(b.contains(x));
        let j = choose|j: int| 0 <= j < b.len() && b[j] == x;
        let b2 = b.remove(j);
        assert(a.remove(a.len() - 1) =~= a2);
        assert(a2.to_multiset() =~= b2.to_multiset());
        lemma_first_segments_permutation(a2, b2);
        let fa = a.map_values(f);
        let fb = b.map_values(f);
        assert(fa =~= a2.map_values(f).push(f(x)));
        a2.map_values(f).to_multiset_ensures();
        fb.to_multiset_ensures();
        assert(fb.remove(j) =~= b2.map_values(f));
        assert(fb.contains(f(x)));
        assert(fb.to_multiset().count(f(x)) > 0);
        assert(fb.to_multiset() =~= b2.map_values(f).to_multiset().insert(f(x)));
    }
}

proof fn lemma_same_members(a: Seq<Seq<char>>, b: Seq<Seq<char>>)
    requires
        a.no_duplicates(),
        b.no_duplicates(),
        forall|x: Seq<char>| a.contains(x) <==> b.contains(x),
    ensures
        a.to_multiset() == b.to_multiset(),
{
    a.to_multiset_ensures();
    b.to_multiset_ensures();
    a.lemma_multiset_has_no_duplicates();
    b.lemma_multiset_has_no_duplicates();
    assert forall|x: Seq<char>| a.to_multiset().count(x) == b.to_multiset().count(x) by {
        if a.contains(x) {
            assert(a.to_multiset().contains(x));
            assert(b.to_multiset().contains(x));
        }
    }
    assert(a.to_multiset() =~= b.to_multiset());
}

/// Whether some document has the namespace `x`.
pub open spec fn has_namespace(docs: Seq<SchemaDocument>, x: Seq<char>) -> bool {
    exists|i: int| 0 <= i < docs.len() && namespace_of((#[trigger] docs[i]).id@) == Some(x)
}

proof fn lemma_namespaces_members(docs: Seq<SchemaDocument>)
    requires
        namespaces_spec(docs) is Ok,
    ensures
        namespaces_spec(docs)->Ok_0.no_duplicates(),
        forall|x: Seq<char>|
            namespaces_spec(docs)->Ok_0.contains(x) <==> has_namespace(docs, x),
    decreases docs.len(),
{
    if docs.len() > 0 {
        let d2 = docs.drop_last();
        lemma_namespaces_members(d2);
        let prev = namespaces_spec(d2)->Ok_0;
        let ns = namespace_of(docs.last().id@)->Some_0;
        assert forall|x: Seq<char>| has_namespace(d2, x) ==> has_namespace(docs, x) by {
            if has_namespace(d2, x) {
                let i = choose|i: int| 0 <= i < d2.len() && namespace_of((#[trigger] d2[i]).id@) == Some(x);
                assert(docs[i] == d2[i]);
            }
        }
        assert forall|x: Seq<char>| has_namespace(docs, x) ==> has_namespace(d2, x) || x == ns by {
            if has_namespace(docs, x) {
                let i = choose|i: int| 0 <= i < docs.len() && namespace_of((#[trigger] docs[i]).id@) == Some(x);
                if i < docs.len() - 1 {
                    assert(d2[i] == docs[i]);
                }
            }
        }
        assert(has_namespace(docs, ns)) by {
            assert(namespace_of(docs[docs.len() - 1].id@) == Some(ns));
        }
        if !prev.contains(ns) {
            let cur = prev.push(ns);
            assert forall|i: int, j: int| 0 <= i < cur.len() && 0 <= j < cur.len() && i != j implies cur[i] != cur[j] by {
                if i == prev.len() as int {
                    assert(cur[j] == prev[j]);
                } else if j == prev.len() as int {
                    assert(cur[i] == prev[i]);
                }
            }
            assert forall|x: Seq<char>| cur.contains(x) <==> (prev.contains(x) || x == ns) by {
                if cur.contains(x) {
                    let k = choose|k: int| 0 <= k < cur.len() && cur[k] == x;
                    if k < prev.len() {
                        assert(prev[k] == x);
                    }
                }
                if prev.contains(x) {
                    let k = choose|k: int| 0 <= k < prev.len() && prev[k] == x;
                    assert(cur[k] == x);
                }
                if x == ns {
                    assert(cur[prev.len() as int] == x);
                }
            }
        }
    }
}

/// The root module depends on the set of documents only: documents given in
/// any other order yield the same `mod.rs`, byte for byte.
pub proof fn lemma_root_order_free(a: Seq<SchemaDocument>, b: Seq<SchemaDocument>)
    requires
        a.to_multiset() == b.to_multiset(),
        namespaces_spec(a) is Ok,
        namespaces_spec(b) is Ok,
    ensures
        root_file(ungated(namespaces_spec(a)->Ok_0)) == root_file(ungated(namespaces_spec(b)->Ok_0)),
{
    let na = namespaces_spec(a)->Ok_0;
    let nb = namespaces_spec(b)->Ok_0;
    lemma_namespaces_members(a);
    lemma_namespaces_members(b);
    a.to_multiset_ensures();
    b.to_multiset_ensures();
    assert forall|x: Seq<char>| has_namespace(a, x) <==> has_namespace(b, x) by {
        if has_namespace(a, x) {
            let i = choose|i: int| 0 <= i < a.len() && namespace_of((#[trigger] a[i]).id@) == Some(x);
            assert(a.contains(a[i]));
            assert(a.to_multiset().count(a[i]) > 0);
            assert(b.contains(a[i]));
            let j = choose|j: int| 0 <= j < b.len() && b[j] == a[i];
            assert(namespace_of(b[j].id@) == Some(x));
        }
        if has_namespace(b, x) {
            let i = choose|i: int| 0 <= i < b.len() && namespace_of((#[trigger] b[i]).id@) == Some(x);
            assert(b.contains(b[i]));
            assert(b.to_multiset().count(b[i]) > 0);
            assert(a.contains(b[i]));
            let j = choose|j: int| 0 <= j < a.len() && a[j] == b[i];
            assert(namespace_of(a[j].id@) == Some(x));
        }
    }
    assert forall|x: Seq<char>| na.contains(x) <==> nb.contains(x) by {
        assert(na.contains(x) <==> has_namespace(a, x));
        assert(nb.contains(x) <==> has_namespace(b, x));
    }
    lemma_same_members(na, nb);
    lemma_first_segments_permutation(na, nb);
    lemma_first_segments_ungated(na);
    lemma_first_segments_ungated(nb);
    reveal(root_file);
}

/// The compiler is deterministic: the same documents yield the same files,
/// byte for byte, and the same module indexes.
pub proof fn lemma_deterministic(
    a: Seq<SchemaDocument>,
    b: Seq<SchemaDocument>,
    components: Seq<Seq<char>>,
    members: Seq<Seq<char>>,
    namespaces: Seq<NamespaceView>,
)
    requires
        a == b,
    ensures
        generation(a) == generation(b),
        module_file(components, members, a, namespaces) == module_file(
            components,
            members,
            b,
            namespaces,
        ),
{
}

} // verus!
