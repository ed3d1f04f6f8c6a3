//! Module-index files: the submodules of each output directory and the
//! collection bindings of the records that it holds.
use vstd::prelude::*;
use crate::enums::{exact_gate, exact_gate_string, NamespaceEntry, NamespaceView};
use crate::resolve::join_strings;
use crate::text::{
    dedup_sorted, dedup_sorted_strings, lemma_sorted_of, sorted_of, sorted_strings,
    concat_all, join_with, pascal_case, quote_str, quoted, split_on, split_str, to_pascal,
};

verus! {

/// The declaration of submodule `name` of the directory `components`,
/// gated by the feature of the namespace it spells, if any.
pub open spec fn module_decl(
    name: Seq<char>,
    components: Seq<Seq<char>>,
    namespaces: Seq<NamespaceView>,
) -> Seq<char> {
    exact_gate(namespaces, join_with(components.push(name), "."@)) + "pub mod "@ + name + ";\n"@
}

/// The submodule declarations of a directory.
pub open spec fn modules_text(
    names: Seq<Seq<char>>,
    components: Seq<Seq<char>>,
    namespaces: Seq<NamespaceView>,
) -> Seq<char> {
    concat_all(names.map_values(|n: Seq<char>| module_decl(n, components, namespaces)))
}

fn module_decl_string(name: &str, components: &Vec<String>, namespaces: &Vec<NamespaceEntry>) -> (r:
    String)
    ensures
        r@ == module_decl(name@, components.deep_view(), namespaces.deep_view()),
{
    let mut path: Vec<String> = Vec::new();
    let mut i: usize = 0;
    while i < components.len()
        invariant
            i <= components@.len(),
            path.deep_view() == components.deep_view().take(i as int),
        decreases components@.len() - i,
    {
        let ghost before = path.deep_view();
        path.push(String::from_str(components[i].as_str()));
        proof {
            assert(path.deep_view() =~= before.push(components@[i as int]@));
            assert(components.deep_view().take(i + 1) =~= components.deep_view().take(
                i as int,
            ).push(components@[i as int]@));
        }
        i = i + 1;
    }
    let ghost before = path.deep_view();
    path.push(String::from_str(name));
    proof {
        assert(components.deep_view().take(i as int) =~= components.deep_view());
        assert(path.deep_view() =~= before.push(name@));
    }
    let namespace = join_strings(&path, ".");
    let mut r = exact_gate_string(namespaces, namespace.as_str());
    r.append("pub mod ");
    r.append(name);
    r.append(";\n");
    r
}

/// Renders the submodule declarations of a directory, one per name.
pub fn modules(names: &Vec<String>, components: &Vec<String>, namespaces: &Vec<NamespaceEntry>) -> (r:
    String)
    ensures
        r@ == modules_text(names.deep_view(), components.deep_view(), namespaces.deep_view()),
{
    let ghost f = |n: Seq<char>| module_decl(n, components.deep_view(), namespaces.deep_view());
    let ghost mapped = names.deep_view().map_values(f);
    let mut out = String::new();
    let mut k: usize = 0;
    while k < names.len()
        invariant
            k <= names@.len(),
            mapped == names.deep_view().map_values(f),
            mapped == names.deep_view().map_values(
                |n: Seq<char>| module_decl(n, components.deep_view(), namespaces.deep_view()),
            ),
            forall|x: Seq<char>| #[trigger] f(x) == module_decl(x, components.deep_view(), namespaces.deep_view()),
            out@ == concat_all(mapped.take(k as int)),
        decreases names@.len() - k,
    {
        let d = module_decl_string(names[k].as_str(), components, namespaces);
        proof {
            assert(mapped.take(k + 1).drop_last() =~= mapped.take(k as int));
            assert(names.deep_view()[k as int] == names@[k as int]@);
        }
        out.append(d.as_str());
        k = k + 1;
    }
    assert(mapped.take(k as int) =~= mapped);
    out
}

/// The collection binding of the record `nsid`, held in submodule `name`.
pub open spec fn collection_text(name: Seq<char>, nsid: Seq<char>) -> Seq<char> {
    "#[derive(Debug)]\npub struct "@ + pascal_case(name) + ";\nimpl atrium_api::types::Collection for "@
        + pascal_case(name) + " {\nconst NSID: &'static str = "@ + quoted(nsid)
        + ";\ntype Record = "@ + name + "::Record;\n}\n"@
}

/// Renders the collection binding of a record.
pub fn collection(name: &str, nsid: &str) -> (r: String)
    ensures
        r@ == collection_text(name@, nsid@),
{
    let p = to_pascal(name);
    let mut r = String::from_str("#[derive(Debug)]\npub struct ");
    r.append(p.as_str());
    r.append(";\nimpl atrium_api::types::Collection for ");
    r.append(p.as_str());
    r.append(" {\nconst NSID: &'static str = ");
    r.append(quote_str(nsid).as_str());
    r.append(";\ntype Record = ");
    r.append(name);
    r.append("::Record;\n}\n");
    r
}

/// The first segment of each namespace, in the order of the namespaces.
pub open spec fn first_segments(namespaces: Seq<NamespaceView>) -> Seq<Seq<char>>
    decreases namespaces.len(),
{
    if namespaces.len() == 0 {
        Seq::empty()
    } else {
        first_segments(namespaces.drop_last()).push(split_on(namespaces.last().0, '.')[0])
    }
}

/// The first segments of the namespaces, each kept once, in ascending
/// order.
pub open spec fn top_modules(namespaces: Seq<NamespaceView>) -> Seq<Seq<char>> {
    dedup_sorted(sorted_of(first_segments(namespaces).to_multiset()))
}

/// The root module of the generated tree: the known-record module and one
/// module per top-level namespace segment.
pub open spec fn lexicon_module_text(namespaces: Seq<NamespaceView>) -> Seq<char> {
    "pub mod record;\n"@ + concat_all(
        top_modules(namespaces).map_values(|t: Seq<char>| "pub mod "@ + t + ";\n"@),
    )
}

/// Renders the root module of the generated tree.
pub fn lexicon_module(namespaces: &Vec<NamespaceEntry>) -> (r: String)
    ensures
        r@ == lexicon_module_text(namespaces.deep_view()),
{
    let mut firsts: Vec<String> = Vec::new();
    let mut i: usize = 0;
    assert(namespaces.deep_view().take(0) =~= Seq::<NamespaceView>::empty());
    while i < namespaces.len()
        invariant
            i <= namespaces.deep_view().len(),
            firsts.deep_view() == first_segments(namespaces.deep_view().take(i as int)),
        decreases namespaces.deep_view().len() - i,
    {
        let parts = split_str(namespaces[i].0.as_str(), '.');
        proof {
            crate::text::lemma_split_on_nonempty(namespaces.deep_view()[i as int].0, '.');
            assert(namespaces.deep_view()[i as int].0 == namespaces@[i as int].0@);
            assert(namespaces.deep_view().take(i + 1).drop_last() =~= namespaces.deep_view().take(i as int));
            assert(namespaces.deep_view().take(i + 1).last() == namespaces.deep_view()[i as int]);
            assert(parts.deep_view()[0] == parts@[0]@);
        }
        let ghost before = firsts.deep_view();
        firsts.push(String::from_str(parts[0].as_str()));
        assert(firsts.deep_view() =~= before.push(parts@[0]@));
        i = i + 1;
    }
    assert(namespaces.deep_view().take(i as int) =~= namespaces.deep_view());
    let sorted = sorted_strings(firsts);
    proof {
        lemma_sorted_of(sorted.deep_view());
    }
    let tops = dedup_sorted_strings(&sorted);
    assert(namespaces.deep_view().take(i as int) =~= namespaces.deep_view());
    let ghost f = |t: Seq<char>| "pub mod "@ + t + ";\n"@;
    let ghost mapped = tops.deep_view().map_values(f);
    let mut out = String::new();
    let mut k: usize = 0;
    while k < tops.len()
        invariant
            k <= tops@.len(),
            mapped == tops.deep_view().map_values(f),
            forall|x: Seq<char>| #[trigger] f(x) == "pub mod "@ + x + ";\n"@,
            out@ == concat_all(mapped.take(k as int)),
        decreases tops@.len() - k,
    {
        proof {
            assert(mapped.take(k + 1).drop_last() =~= mapped.take(k as int));
            assert(tops.deep_view()[k as int] == tops@[k as int]@);
        }
        out.append("pub mod ");
        out.append(tops[k].as_str());
        out.append(";\n");
        k = k + 1;
    }
    assert(mapped.take(k as int) =~= mapped);
    String::from_str("pub mod record;\n").concat(out.as_str())
}

} // verus!
