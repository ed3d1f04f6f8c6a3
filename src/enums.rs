//! Rendering of tagged enums over references: reference unions and the
//! known-record aggregate.
use vstd::prelude::*;
use crate::object::{derives, derives_text};
use crate::resolve::{resolve_path, resolved, variant_name, variant_name_of};
use crate::text::{has_prefix, quote_str, quoted, starts_with};
use crate::types::{
    lemma_render_each_err, lemma_render_each_step, render_each, rendered, CodegenError,
    ErrorView, Rendered,
};

verus! {

/// A namespace prefix and the cargo feature, if any, that gates it.
pub type NamespaceEntry = (String, Option<String>);

/// A namespace prefix and its feature, as plain values.
pub type NamespaceView = (Seq<char>, Option<Seq<char>>);

/// The gating attributes for a feature.
pub open spec fn feature_attrs(f: Seq<char>) -> Seq<char> {
    "#[cfg_attr(docsrs, doc(cfg(feature = "@ + quoted(f) + ")))]\n#[cfg(feature = "@ + quoted(f)
        + ")]\n"@
}

/// Renders the gating attributes for a feature.
pub fn feature_attrs_string(f: &str) -> (r: String)
    ensures
        r@ == feature_attrs(f@),
{
    let q = quote_str(f);
    let mut r = String::from_str("#[cfg_attr(docsrs, doc(cfg(feature = ");
    r.append(q.as_str());
    r.append(")))]\n#[cfg(feature = ");
    r.append(q.as_str());
    r.append(")]\n");
    r
}

/// The gating attributes of the first namespace that satisfies `matches`
/// (nothing if it has no feature, or if none does).
pub open spec fn gate_of(namespaces: Seq<NamespaceView>, matches: spec_fn(Seq<char>) -> bool) -> Seq<char>
    decreases namespaces.len(),
{
    if namespaces.len() == 0 {
        Seq::empty()
    } else if matches(namespaces[0].0) {
        match namespaces[0].1 {
            Some(f) => feature_attrs(f),
            None => Seq::empty(),
        }
    } else {
        gate_of(namespaces.drop_first(), matches)
    }
}

/// The feature attributes of the namespace that a reference falls under.
pub open spec fn prefix_gate(namespaces: Seq<NamespaceView>, r: Seq<char>) -> Seq<char> {
    gate_of(namespaces, |p: Seq<char>| has_prefix(r, p))
}

/// The feature attributes of the namespace named exactly `name`.
pub open spec fn exact_gate(namespaces: Seq<NamespaceView>, name: Seq<char>) -> Seq<char> {
    gate_of(namespaces, |p: Seq<char>| p == name)
}

/// Finds the feature attributes of the namespace a reference falls under.
pub fn prefix_gate_string(namespaces: &Vec<NamespaceEntry>, r: &str) -> (res: String)
    ensures
        res@ == prefix_gate(namespaces.deep_view(), r@),
{
    let ghost m = |p: Seq<char>| has_prefix(r@, p);
    let mut i: usize = 0;
    assert(namespaces.deep_view().skip(0) =~= namespaces.deep_view());
    while i < namespaces.len()
        invariant
            i <= namespaces.deep_view().len(),
            m == (|p: Seq<char>| has_prefix(r@, p)),
            gate_of(namespaces.deep_view().skip(i as int), m) == prefix_gate(namespaces.deep_view(), r@),
        decreases namespaces.deep_view().len() - i,
    {
        proof {
            assert(namespaces.deep_view().skip(i as int).drop_first() =~= namespaces.deep_view().skip(i + 1));
            assert(namespaces.deep_view().skip(i as int)[0] == namespaces.deep_view()[i as int]);
            assert(namespaces.deep_view()[i as int].0 == namespaces@[i as int].0@);
            assert(namespaces.deep_view()[i as int].1 == match namespaces@[i as int].1 {
                Some(f) => Some(f@),
                None => None::<Seq<char>>,
            });
        }
        if starts_with(r, namespaces[i].0.as_str()) {
            return match &namespaces[i].1 {
                Some(f) => feature_attrs_string(f.as_str()),
                None => String::new(),
            };
        }
        i = i + 1;
    }
    String::new()
}

/// Finds the feature attributes of the namespace named exactly `name`.
pub fn exact_gate_string(namespaces: &Vec<NamespaceEntry>, name: &str) -> (res: String)
    ensures
        res@ == exact_gate(namespaces.deep_view(), name@),
{
    let ghost m = |p: Seq<char>| p == name@;
    let mut i: usize = 0;
    assert(namespaces.deep_view().skip(0) =~= namespaces.deep_view());
    while i < namespaces.len()
        invariant
            i <= namespaces.deep_view().len(),
            m == (|p: Seq<char>| p == name@),
            gate_of(namespaces.deep_view().skip(i as int), m) == exact_gate(namespaces.deep_view(), name@),
        decreases namespaces.deep_view().len() - i,
    {
        proof {
            assert(namespaces.deep_view().skip(i as int).drop_first() =~= namespaces.deep_view().skip(i + 1));
            assert(namespaces.deep_view().skip(i as int)[0] == namespaces.deep_view()[i as int]);
            assert(namespaces.deep_view()[i as int].0 == namespaces@[i as int].0@);
            assert(namespaces.deep_view()[i as int].1 == match namespaces@[i as int].1 {
                Some(f) => Some(f@),
                None => None::<Seq<char>>,
            });
        }
        if crate::schema::str_eq(namespaces[i].0.as_str(), name) {
            return match &namespaces[i].1 {
                Some(f) => feature_attrs_string(f.as_str()),
                None => String::new(),
            };
        }
        i = i + 1;
    }
    String::new()
}

/// The serde tag of a variant: a reference within the document is given in
/// full, with the document's NSID before the `#`.
pub open spec fn variant_tag(r: Seq<char>, schema_id: Option<Seq<char>>) -> Seq<char> {
    if r.len() > 0 && r[0] == '#' {
        match schema_id {
            Some(id) => id + r,
            None => r,
        }
    } else {
        r
    }
}

/// One variant of an enum over references. In the known-record aggregate
/// (no `schema_id`) a variant names a whole record document.
#[verifier::opaque]
pub open spec fn variant_text(
    r: Seq<char>,
    schema_id: Option<Seq<char>>,
    namespaces: Seq<NamespaceView>,
) -> Rendered {
    let is_record = schema_id is None;
    let default = if is_record {
        "record"@
    } else {
        "main"@
    };
    match resolved(r, default) {
        Err(e) => Err(e),
        Ok(path) => Ok(
            (if is_record {
                prefix_gate(namespaces, r)
            } else {
                Seq::empty()
            }) + "#[serde(rename = "@ + quoted(variant_tag(r, schema_id)) + ")]\n"@ + variant_name(
                r,
                default,
                is_record,
            ) + "(Box<"@ + path + ">),\n"@,
        ),
    }
}

fn variant_string(r: &str, schema_id: Option<&str>, namespaces: &Vec<NamespaceEntry>) -> (res:
    Result<String, CodegenError>)
    ensures
        rendered(res) == variant_text(
            r@,
            match schema_id {
                Some(s) => Some(s@),
                None => None,
            },
            namespaces.deep_view(),
        ),
{
    proof {
        reveal(variant_text);
        reveal_strlit("record");
        reveal_strlit("main");
    }
    let is_record = schema_id.is_none();
    let default = if is_record {
        "record"
    } else {
        "main"
    };
    let path = match resolve_path(r, default) {
        Ok(p) => p,
        Err(e) => return Err(e),
    };
    let mut out = if is_record {
        prefix_gate_string(namespaces, r)
    } else {
        String::new()
    };
    let hash = r.unicode_len() > 0 && r.get_char(0) == '#';
    let tag = match schema_id {
        Some(id) => if hash {
            String::from_str(id).concat(r)
        } else {
            String::from_str(r)
        },
        None => String::from_str(r),
    };
    out.append("#[serde(rename = ");
    out.append(quote_str(tag.as_str()).as_str());
    out.append(")]\n");
    out.append(variant_name_of(r, default, is_record).as_str());
    out.append("(Box<");
    out.append(path.as_str());
    out.append(">),\n");
    Ok(out)
}

/// The variants of an enum over `refs`.
pub open spec fn variants_text(
    refs: Seq<Seq<char>>,
    schema_id: Option<Seq<char>>,
    namespaces: Seq<NamespaceView>,
) -> Rendered {
    render_each(refs, |r: Seq<char>| variant_text(r, schema_id, namespaces))
}

/// A tagged enum named `name` with one boxed variant per reference, tagged
/// by `$type`.
pub open spec fn enum_text(
    refs: Seq<Seq<char>>,
    name: Seq<char>,
    schema_id: Option<Seq<char>>,
    namespaces: Seq<NamespaceView>,
) -> Rendered {
    match variants_text(refs, schema_id, namespaces) {
        Err(e) => Err(e),
        Ok(v) => Ok(
            derives_text() + "#[serde(tag = \"$type\")]\npub enum "@ + name + " {\n"@ + v + "}\n"@,
        ),
    }
}

/// Renders a tagged enum over references. Without a `schema_id` the
/// references are record documents and the enum is the known-record
/// aggregate, whose variants may be gated by namespace.
pub fn enum_common(
    refs: &Vec<String>,
    name: &str,
    schema_id: Option<&str>,
    namespaces: &Vec<NamespaceEntry>,
) -> (res: Result<String, CodegenError>)
    ensures
        rendered(res) == enum_text(
            refs.deep_view(),
            name@,
            match schema_id {
                Some(s) => Some(s@),
                None => None,
            },
            namespaces.deep_view(),
        ),
{
    let ghost sid = match schema_id {
        Some(s) => Some(s@),
        None => None,
    };
    let ghost rs = refs.deep_view();
    let ghost f = |r: Seq<char>| variant_text(r, sid, namespaces.deep_view());
    let mut variants = String::new();
    let mut k: usize = 0;
    proof {
        assert(rs.take(0) =~= Seq::<Seq<char>>::empty());
    }
    while k < refs.len()
        invariant
            k <= refs@.len(),
            rs == refs.deep_view(),
            sid == match schema_id {
                Some(s) => Some(s@),
                None => None,
            },
            forall|x: Seq<char>| #[trigger] f(x) == variant_text(x, sid, namespaces.deep_view()),
            render_each(rs, f) == variants_text(rs, sid, namespaces.deep_view()),
            render_each(rs.take(k as int), f) == Ok::<Seq<char>, ErrorView>(variants@),
        decreases refs@.len() - k,
    {
        proof {
            assert(rs[k as int] == refs@[k as int]@);
            lemma_render_each_step(rs, f, k as int);
        }
        match variant_string(refs[k].as_str(), schema_id, namespaces) {
            Ok(v) => variants.append(v.as_str()),
            Err(e) => {
                proof {
                    lemma_render_each_err(rs, f, k + 1);
                }
                return Err(e);
            },
        }
        k = k + 1;
    }
    assert(rs.take(k as int) =~= rs);
    let mut out = derives();
    out.append("#[serde(tag = \"$type\")]\npub enum ");
    out.append(name);
    out.append(" {\n");
    out.append(variants.as_str());
    out.append("}\n");
    Ok(out)
}

/// The conversions from a record's two shapes into the known-record
/// aggregate.
#[verifier::opaque]
pub open spec fn record_from_text(r: Seq<char>, namespaces: Seq<NamespaceView>) -> Rendered {
    match resolved(r, "record"@) {
        Err(e) => Err(e),
        Ok(rp) => match resolved(r, "record_data"@) {
            Err(e) => Err(e),
            Ok(dp) => {
                let gate = prefix_gate(namespaces, r);
                let v = variant_name(r, "record"@, true);
                Ok(
                    gate + "impl From<"@ + rp + "> for KnownRecord {\nfn from(record: "@ + rp
                        + ") -> Self {\nKnownRecord::"@ + v + "(Box::new(record))\n}\n}\n"@ + gate
                        + "impl From<"@ + dp + "> for KnownRecord {\nfn from(record_data: "@ + dp
                        + ") -> Self {\nKnownRecord::"@ + v
                        + "(Box::new(record_data.into()))\n}\n}\n"@,
                )
            },
        },
    }
}

fn record_from_string(r: &str, namespaces: &Vec<NamespaceEntry>) -> (res: Result<
    String,
    CodegenError,
>)
    ensures
        rendered(res) == record_from_text(r@, namespaces.deep_view()),
{
    proof {
        reveal(record_from_text);
    }
    let rp = match resolve_path(r, "record") {
        Ok(p) => p,
        Err(e) => return Err(e),
    };
    let dp = match resolve_path(r, "record_data") {
        Ok(p) => p,
        Err(e) => return Err(e),
    };
    let gate = prefix_gate_string(namespaces, r);
    let v = variant_name_of(r, "record", true);
    let mut out = String::from_str(gate.as_str());
    out.append("impl From<");
    out.append(rp.as_str());
    out.append("> for KnownRecord {\nfn from(record: ");
    out.append(rp.as_str());
    out.append(") -> Self {\nKnownRecord::");
    out.append(v.as_str());
    out.append("(Box::new(record))\n}\n}\n");
    out.append(gate.as_str());
    out.append("impl From<");
    out.append(dp.as_str());
    out.append("> for KnownRecord {\nfn from(record_data: ");
    out.append(dp.as_str());
    out.append(") -> Self {\nKnownRecord::");
    out.append(v.as_str());
    out.append("(Box::new(record_data.into()))\n}\n}\n");
    Ok(out)
}

/// The conversion from the known-record aggregate into an untyped value.
pub open spec fn into_unknown_text() -> Seq<char> {
    "impl Into<atrium_api::types::Unknown> for KnownRecord {\nfn into(self) -> atrium_api::types::Unknown {\natrium_api::types::TryIntoUnknown::try_into_unknown(&self).unwrap()\n}\n}\n"@
}

/// The conversions into the known-record aggregate from each record's
/// shapes, then the one conversion out of it, whatever the number of
/// records.
pub open spec fn into_record_text(refs: Seq<Seq<char>>, namespaces: Seq<NamespaceView>) -> Rendered {
    match render_each(refs, |r: Seq<char>| record_from_text(r, namespaces)) {
        Err(e) => Err(e),
        Ok(t) => Ok(t + into_unknown_text()),
    }
}

/// Renders the conversions into and out of the known-record aggregate.
pub fn impl_into_record(refs: &Vec<String>, namespaces: &Vec<NamespaceEntry>) -> (res: Result<
    String,
    CodegenError,
>)
    ensures
        rendered(res) == into_record_text(refs.deep_view(), namespaces.deep_view()),
{
    let ghost rs = refs.deep_view();
    let ghost f = |r: Seq<char>| record_from_text(r, namespaces.deep_view());
    let mut out = String::new();
    let mut k: usize = 0;
    proof {
        assert(rs.take(0) =~= Seq::<Seq<char>>::empty());
    }
    while k < refs.len()
        invariant
            k <= refs@.len(),
            rs == refs.deep_view(),
            forall|x: Seq<char>| #[trigger] f(x) == record_from_text(x, namespaces.deep_view()),
            render_each(rs, f) == render_each(
                rs,
                |r: Seq<char>| record_from_text(r, namespaces.deep_view()),
            ),
            render_each(rs.take(k as int), f) == Ok::<Seq<char>, ErrorView>(out@),
        decreases refs@.len() - k,
    {
        proof {
            assert(rs[k as int] == refs@[k as int]@);
            lemma_render_each_step(rs, f, k as int);
        }
        match record_from_string(refs[k].as_str(), namespaces) {
            Ok(v) => out.append(v.as_str()),
            Err(e) => {
                proof {
                    lemma_render_each_err(rs, f, k + 1);
                }
                return Err(e);
            },
        }
        k = k + 1;
    }
    assert(rs.take(k as int) =~= rs);
    out.append(
        "impl Into<atrium_api::types::Unknown> for KnownRecord {\nfn into(self) -> atrium_api::types::Unknown {\natrium_api::types::TryIntoUnknown::try_into_unknown(&self).unwrap()\n}\n}\n",
    );
    Ok(out)
}

} // verus!
