//! Resolution of references (`nsid#name`, `nsid`, `#name`) to Rust type paths.
use vstd::prelude::*;
use crate::text::{
    all_uppercase, concat_all, first_index_of, find_char, is_all_uppercase, join_with,
    pascal_case, snake_case, split_on, split_str, to_pascal, to_snake,
};
use crate::types::{rendered, CodegenError, ErrorView, Rendered};

verus! {

/// The namespace and the definition name that a reference names; a
/// reference without `#` names `default` in the namespace it spells.
pub open spec fn ref_target(r: Seq<char>, default: Seq<char>) -> (Seq<char>, Seq<char>) {
    match first_index_of(r, '#') {
        Some(i) => (r.take(i), r.skip(i + 1)),
        None => (r, default),
    }
}

/// A definition name as a type name: all-capital names are constants and
/// stay as they are, the rest are put in PascalCase.
pub open spec fn type_name_of(def: Seq<char>) -> Seq<char> {
    if all_uppercase(def) {
        def
    } else {
        pascal_case(def)
    }
}

/// The segments of the path a reference resolves to, after `crate`: within
/// the same document, the type name alone; otherwise `lexicons`, each
/// namespace segment in snake_case, and the type name.
pub open spec fn path_segments(r: Seq<char>, default: Seq<char>) -> Seq<Seq<char>> {
    let (ns, def) = ref_target(r, default);
    if ns.len() == 0 {
        seq![pascal_case(def)]
    } else {
        seq!["lexicons"@] + split_on(ns, '.').map_values(|s: Seq<char>| snake_case(s)) + seq![
            type_name_of(def),
        ]
    }
}

/// The text of the path a reference resolves to.
pub open spec fn path_text(r: Seq<char>, default: Seq<char>) -> Seq<char> {
    let (ns, def) = ref_target(r, default);
    if ns.len() == 0 {
        pascal_case(def)
    } else {
        "crate::"@ + join_with(path_segments(r, default), "::"@)
    }
}

/// Whether `syn` reads the text as a Rust path.
pub uninterp spec fn parses_as_path(s: Seq<char>) -> bool;

/// Relies on `syn::parse_str::<syn::Path>`: whether the text parses as a path,
/// which depends on the text alone.
#[verifier::external_body]
fn is_type_path(s: &str) -> (r: bool)
    ensures
        r == parses_as_path(s@),
{
    syn::parse_str::<syn::Path>(s).is_ok()
}

/// Splits a reference into its namespace and definition name.
pub fn split_ref(r: &str, default: &str) -> (res: (String, String))
    ensures
        (res.0@, res.1@) == ref_target(r@, default@),
{
    match find_char(r, '#') {
        Some(i) => {
            let n = r.unicode_len();
            let ns = String::from_str(r.substring_char(0, i));
            let def = String::from_str(r.substring_char(i + 1, n));
            assert(r@.subrange(0, i as int) == r@.take(i as int));
            assert(r@.subrange(i + 1, n as int) == r@.skip(i + 1));
            (ns, def)
        },
        None => (String::from_str(r), String::from_str(default)),
    }
}

/// Builds the segments of the path that a reference resolves to.
pub fn path_segments_of(r: &str, default: &str) -> (res: Vec<String>)
    ensures
        res.deep_view() == path_segments(r@, default@),
{
    let (ns, def) = split_ref(r, default);
    let mut segs: Vec<String> = Vec::new();
    if ns.unicode_len() == 0 {
        segs.push(to_pascal(def.as_str()));
        assert(segs.deep_view() =~= path_segments(r@, default@));
        return segs;
    }
    segs.push(String::from_str("lexicons"));
    let parts = split_str(ns.as_str(), '.');
    let ghost mapped = split_on(ns@, '.').map_values(|s: Seq<char>| snake_case(s));
    let mut k: usize = 0;
    while k < parts.len()
        invariant
            k <= parts@.len(),
            parts.deep_view() == split_on(ns@, '.'),
            mapped == split_on(ns@, '.').map_values(|s: Seq<char>| snake_case(s)),
            segs.deep_view() == seq!["lexicons"@] + mapped.take(k as int),
        decreases parts@.len() - k,
    {
        let snake = to_snake(parts[k].as_str());
        let ghost before = segs.deep_view();
        proof {
            assert(parts.deep_view()[k as int] == parts@[k as int]@);
            assert(mapped[k as int] == snake@);
        }
        segs.push(snake);
        proof {
            assert(segs.deep_view() =~= before.push(snake@));
            assert(mapped.take(k + 1) =~= mapped.take(k as int).push(mapped[k as int]));
            assert(segs.deep_view() =~= seq!["lexicons"@] + mapped.take(k + 1));
        }
        k = k + 1;
    }
    let last = if is_all_uppercase(def.as_str()) {
        def
    } else {
        to_pascal(def.as_str())
    };
    segs.push(last);
    proof {
        assert(mapped.take(parts@.len() as int) =~= mapped);
        assert(segs.deep_view() =~= path_segments(r@, default@));
    }
    segs
}

/// Joins strings with a separator.
pub fn join_strings(parts: &Vec<String>, sep: &str) -> (r: String)
    ensures
        r@ == join_with(parts.deep_view(), sep@),
{
    let mut out = String::new();
    let mut k: usize = 0;
    while k < parts.len()
        invariant
            k <= parts@.len(),
            out@ == join_with(parts.deep_view().take(k as int), sep@),
        decreases parts@.len() - k,
    {
        proof {
            let t = parts.deep_view().take(k + 1);
            assert(t.drop_last() =~= parts.deep_view().take(k as int));
            assert(t.last() == parts@[k as int]@);
        }
        if k > 0 {
            out.append(sep);
        } else {
            assert(parts.deep_view().take(0) =~= Seq::<Seq<char>>::empty());
        }
        out.append(parts[k].as_str());
        k = k + 1;
    }
    assert(parts.deep_view().take(parts@.len() as int) =~= parts.deep_view());
    out
}

/// Concatenates strings.
pub fn concat_strings(parts: &Vec<String>) -> (r: String)
    ensures
        r@ == concat_all(parts.deep_view()),
{
    let mut out = String::new();
    let mut k: usize = 0;
    while k < parts.len()
        invariant
            k <= parts@.len(),
            out@ == concat_all(parts.deep_view().take(k as int)),
        decreases parts@.len() - k,
    {
        proof {
            let t = parts.deep_view().take(k + 1);
            assert(t.drop_last() =~= parts.deep_view().take(k as int));
            assert(t.last() == parts@[k as int]@);
        }
        if k == 0 {
            assert(parts.deep_view().take(0) =~= Seq::<Seq<char>>::empty());
        }
        out.append(parts[k].as_str());
        k = k + 1;
    }
    assert(parts.deep_view().take(parts@.len() as int) =~= parts.deep_view());
    out
}

/// The path a reference resolves to, or the error for a reference that
/// does not make one.
pub open spec fn resolved(r: Seq<char>, default: Seq<char>) -> Rendered {
    if parses_as_path(path_text(r, default)) {
        Ok(path_text(r, default))
    } else {
        Err(ErrorView::InvalidReference { reference: r })
    }
}

/// Resolves a reference to the text of a type path.
pub fn resolve_path(r: &str, default: &str) -> (res: Result<String, CodegenError>)
    ensures
        rendered(res) == resolved(r@, default@),
{
    let (ns, _def) = split_ref(r, default);
    let segs = path_segments_of(r, default);
    assert(segs@.len() == segs.deep_view().len());
    let text = if ns.unicode_len() == 0 {
        let t = String::from_str(segs[0].as_str());
        assert(t@ == segs.deep_view()[0]);
        t
    } else {
        String::from_str("crate::").concat(join_strings(&segs, "::").as_str())
    };
    if is_type_path(text.as_str()) {
        Ok(text)
    } else {
        Err(CodegenError::InvalidReference { reference: String::from_str(r) })
    }
}

/// The name of the enum variant that stands for a reference: each segment
/// of its path in PascalCase, run together; for a record the trailing type
/// name is left out.
pub open spec fn variant_name(r: Seq<char>, default: Seq<char>, drop_type: bool) -> Seq<char> {
    let segs = path_segments(r, default);
    let kept = if drop_type {
        segs.drop_last()
    } else {
        segs
    };
    concat_all(kept.map_values(|s: Seq<char>| pascal_case(s)))
}

/// Builds the variant name of a reference.
pub fn variant_name_of(r: &str, default: &str, drop_type: bool) -> (res: String)
    ensures
        res@ == variant_name(r@, default@, drop_type),
{
    let segs = path_segments_of(r, default);
    assert(segs@.len() == segs.deep_view().len());
    let n = if drop_type {
        segs.len() - 1
    } else {
        segs.len()
    };
    let ghost kept = if drop_type {
        segs.deep_view().drop_last()
    } else {
        segs.deep_view()
    };
    let mut names: Vec<String> = Vec::new();
    let mut k: usize = 0;
    while k < n
        invariant
            n == kept.len(),
            n <= segs@.len(),
            k <= n,
            kept == segs.deep_view().take(n as int),
            names.deep_view() == kept.take(k as int).map_values(|s: Seq<char>| pascal_case(s)),
        decreases n - k,
    {
        let p = to_pascal(segs[k].as_str());
        let ghost before = names.deep_view();
        proof {
            assert(segs.deep_view()[k as int] == segs@[k as int]@);
            assert(kept[k as int] == segs@[k as int]@);
        }
        names.push(p);
        proof {
            assert(names.deep_view() =~= before.push(p@));
            assert(names.deep_view() =~= kept.take(k + 1).map_values(
                |s: Seq<char>| pascal_case(s),
            ));
        }
        k = k + 1;
    }
    proof {
        assert(kept.take(n as int) =~= kept);
    }
    concat_strings(&names)
}

} // verus!
