//! The compiler's driver: namespaces, one type file per document, the
//! known-record aggregate, the RPC index, the root module and the module
//! index of each output directory.
use vstd::prelude::*;
use crate::defs::{user_type, user_type_text};
use crate::enums::{
    enum_common, enum_text, impl_into_record, into_record_text, NamespaceEntry, NamespaceView,
};
use crate::modules::{
    collection, collection_text, lexicon_module, lexicon_module_text, modules, modules_text,
};
use crate::refs::{check_references, first_unresolved};
use crate::resolve::join_strings;
use crate::schema::{
    def_named, defines_rpc, doc_defines_rpc, find_def, is_record_doc, main_name,
    str_eq, Definition, SchemaDocument,
};
use crate::text::{
    concat_all, join_with, lemma_sorted_of, quote_str, quoted, snake_case, sorted_of,
    sorted_seq, sorted_strings, split_on, split_str, to_snake,
};
use crate::types::{
    lemma_render_each_err, lemma_render_each_step, render_each, rendered, then_append,
    CodegenError, ErrorView, Rendered,
};
use crate::unions::{all_unions, defs_unions, distinct, distinct_unions, ref_unions, unions_text};

verus! {

/// A rendered file: its path below the output root, with `/` between
/// directories, and its content.
#[derive(Clone, Debug)]
pub struct OutputFile {
    pub path: String,
    pub content: String,
}

/// The plain content of a list of files.
pub open spec fn files_view(files: Seq<OutputFile>) -> Seq<(Seq<char>, Seq<char>)> {
    files.map_values(|f: OutputFile| (f.path@, f.content@))
}

/// The first line of every generated file.
pub open spec fn header_text() -> Seq<char> {
    "// @generated - This file is generated by esquema-codegen. DO NOT EDIT.\n"@
}

/// Whether `syn` reads the text as a Rust source file.
pub uninterp spec fn parses_as_file(s: Seq<char>) -> bool;

/// Relies on `syn::parse_file`, which accepts a text exactly when it is a
/// Rust source file (its parsers report failure as an error, never a
/// panic); the answer depends on the text alone.
#[verifier::external_body]
fn is_rust_file(s: &str) -> (r: bool)
    ensures
        r == parses_as_file(s@),
{
    syn::parse_file(s).is_ok()
}

/// A rendered file as written: the header line, then the content, once the
/// content is known to parse as a Rust file; content that does not parse is
/// an error that carries it. Laying the text out is left to the writer: the
/// content is well-formed, whatever its spacing.
pub open spec fn finished(content: Seq<char>) -> Rendered {
    if parses_as_file(content) {
        Ok(header_text() + content)
    } else {
        Err(ErrorView::MalformedOutput { content })
    }
}

/// Checks rendered content and puts the header line before it.
pub fn write_to_file(content: String) -> (r: Result<String, CodegenError>)
    ensures
        rendered(r) == finished(content@),
{
    if is_rust_file(content.as_str()) {
        Ok(
            String::from_str(
                "// @generated - This file is generated by esquema-codegen. DO NOT EDIT.\n",
            ).concat(content.as_str()),
        )
    } else {
        Err(CodegenError::MalformedOutput { content })
    }
}

/// The namespace of an NSID: its first two dot-separated segments.
pub open spec fn namespace_of(id: Seq<char>) -> Option<Seq<char>> {
    let parts = split_on(id, '.');
    if parts.len() >= 2 {
        Some(parts[0] + "."@ + parts[1])
    } else {
        None
    }
}

/// Finds the namespace of an NSID; one with fewer than two segments is an
/// error.
pub fn nsid_namespace(id: &str) -> (r: Result<String, CodegenError>)
    ensures
        rendered(r) == match namespace_of(id@) {
            Some(ns) => Ok::<Seq<char>, ErrorView>(ns),
            None => Err(ErrorView::ShortNsid { nsid: id@ }),
        },
{
    let parts = split_str(id, '.');
    if parts.len() >= 2 {
        proof {
            assert(parts.deep_view()[0] == parts@[0]@);
            assert(parts.deep_view()[1] == parts@[1]@);
        }
        let mut ns = String::from_str(parts[0].as_str());
        ns.append(".");
        ns.append(parts[1].as_str());
        Ok(ns)
    } else {
        Err(CodegenError::ShortNsid { nsid: String::from_str(id) })
    }
}

/// The namespaces of the documents, each once, in order of first
/// appearance; every document must have one.
pub open spec fn namespaces_spec(docs: Seq<SchemaDocument>) -> Result<Seq<Seq<char>>, ErrorView>
    decreases docs.len(),
{
    if docs.len() == 0 {
        Ok(Seq::empty())
    } else {
        match namespaces_spec(docs.drop_last()) {
            Err(e) => Err(e),
            Ok(prev) => match namespace_of(docs.last().id@) {
                None => Err(ErrorView::ShortNsid { nsid: docs.last().id@ }),
                Some(ns) => Ok(
                    if prev.contains(ns) {
                        prev
                    } else {
                        prev.push(ns)
                    },
                ),
            },
        }
    }
}

/// Namespaces that no feature gates.
pub open spec fn ungated(ns: Seq<Seq<char>>) -> Seq<NamespaceView> {
    ns.map_values(|n: Seq<char>| (n, None::<Seq<char>>))
}

/// Collects the namespaces of the documents, none of them gated by a
/// feature.
pub fn collect_namespaces(docs: &Vec<SchemaDocument>) -> (r: Result<
    Vec<NamespaceEntry>,
    CodegenError,
>)
    ensures
        match namespaces_spec(docs@) {
            Ok(ns) => r is Ok && r->Ok_0.deep_view() == ungated(ns),
            Err(e) => r is Err && r->Err_0@ == e,
        },
{
    let mut out: Vec<NamespaceEntry> = Vec::new();
    let mut names: Vec<String> = Vec::new();
    let mut i: usize = 0;
    proof {
        assert(docs@.take(0) =~= Seq::<SchemaDocument>::empty());
        assert(names.deep_view() =~= Seq::<Seq<char>>::empty());
    }
    while i < docs.len()
        invariant
            i <= docs@.len(),
            namespaces_spec(docs@.take(i as int)) == Ok::<Seq<Seq<char>>, ErrorView>(
                names.deep_view(),
            ),
            out.deep_view() == ungated(names.deep_view()),
        decreases docs@.len() - i,
    {
        proof {
            assert(docs@.take(i + 1).drop_last() =~= docs@.take(i as int));
            assert(docs@.take(i + 1).last() == docs@[i as int]);
        }
        let ns = match nsid_namespace(docs[i].id.as_str()) {
            Ok(ns) => ns,
            Err(e) => {
                proof {
                    lemma_namespaces_err(docs@, i as int + 1);
                }
                return Err(e);
            },
        };
        let mut seen = false;
        let mut j: usize = 0;
        while j < names.len()
            invariant
                j <= names@.len(),
                seen == exists|m: int| 0 <= m < j && names.deep_view()[m] == ns@,
            decreases names@.len() - j,
        {
            if str_eq(names[j].as_str(), ns.as_str()) {
                assert(names.deep_view()[j as int] == ns@);
                seen = true;
            }
            j = j + 1;
        }
        if !seen {
            let ghost before = names.deep_view();
            let ghost before_out = out.deep_view();
            let ghost nv = ns@;
            names.push(String::from_str(ns.as_str()));
            out.push((ns, None));
            proof {
                assert(names.deep_view() =~= before.push(nv));
                assert(out.deep_view() =~= before_out.push((nv, None::<Seq<char>>)));
                assert(ungated(names.deep_view()) =~= ungated(before).push((nv, None::<Seq<char>>)));
            }
        }
        i = i + 1;
    }
    assert(docs@.take(i as int) =~= docs@);
    Ok(out)
}

proof fn lemma_namespaces_err(docs: Seq<SchemaDocument>, k: int)
    requires
        0 <= k <= docs.len(),
        namespaces_spec(docs.take(k)) is Err,
    ensures
        namespaces_spec(docs) == namespaces_spec(docs.take(k)),
    decreases docs.len() - k,
{
    if k < docs.len() {
        assert(docs.take(k + 1).drop_last() =~= docs.take(k));
        lemma_namespaces_err(docs, k + 1);
    } else {
        assert(docs.take(k) =~= docs);
    }
}

/// The constant naming the RPC operation of a document.
pub open spec fn nsid_const(id: Seq<char>) -> Seq<char> {
    "pub const NSID: &str = "@ + quoted(id) + ";\n"@
}

/// The module documentation of a document's type file.
pub open spec fn head_text(doc: SchemaDocument) -> Seq<char> {
    "#![doc = "@ + quoted("Definitions for the `"@ + doc.id@ + "` namespace."@) + "]\n"@ + match doc.description {
        Some(d) => "#![doc = "@ + quoted(d@) + "]\n"@,
        None => Seq::empty(),
    }
}

/// The start of a document's declarations: one NSID constant when the
/// document defines any RPC operation, then its principal definition, if
/// it has one, rendered under the last segment of its NSID.
pub open spec fn principal_text(doc: SchemaDocument, basename: Seq<char>) -> Rendered {
    then_append(
        Ok(
            if defines_rpc(doc) {
                nsid_const(doc.id@)
            } else {
                Seq::empty()
            },
        ),
        match def_named(doc, main_name()) {
            Some(d) => user_type_text(d, doc.id@, basename, true),
            None => Ok(Seq::empty()),
        },
    )
}

/// The names of the definitions other than the principal one.
pub open spec fn other_names(defs: Seq<(String, Definition)>) -> Seq<Seq<char>>
    decreases defs.len(),
{
    if defs.len() == 0 {
        Seq::empty()
    } else {
        let prev = other_names(defs.drop_last());
        if defs.last().0@ == main_name() {
            prev
        } else {
            prev.push(defs.last().0@)
        }
    }
}

/// The definition named `n`, rendered under that name.
pub open spec fn other_item(doc: SchemaDocument, n: Seq<char>) -> Rendered {
    match def_named(doc, n) {
        Some(d) => user_type_text(d, doc.id@, n, false),
        None => Ok(Seq::empty()),
    }
}

/// The last segment of an NSID.
pub open spec fn basename_of(id: Seq<char>) -> Seq<char> {
    split_on(id, '.').last()
}

/// The content of a document's type file before its header: its documentation,
/// the NSID constant and the principal definition, the other definitions
/// in ascending order of name, then the enums of its unions.
pub open spec fn schema_text(doc: SchemaDocument) -> Rendered {
    let id = doc.id@;
    let base = basename_of(id);
    then_append(
        then_append(
            then_append(
                Ok(head_text(doc)),
                principal_text(doc, base),
            ),
            render_each(
                sorted_of(other_names(doc.defs@).to_multiset()),
                |n: Seq<char>| other_item(doc, n),
            ),
        ),
        unions_text(id, distinct_unions(defs_unions(doc.defs@, base))),
    )
}

/// The path of a document's type file: a directory per segment of its NSID
/// but the last, which names the file in snake_case.
pub open spec fn schema_path(id: Seq<char>) -> Seq<char> {
    let parts = split_on(id, '.');
    let dirs = parts.drop_last();
    (if dirs.len() > 0 {
        join_with(dirs, "/"@) + "/"@
    } else {
        Seq::empty()
    }) + snake_case(parts.last()) + ".rs"@
}

fn principal(doc: &SchemaDocument, basename: &str) -> (r: Result<String, CodegenError>)
    ensures
        rendered(r) == principal_text(*doc, basename@),
{
    let mut out = String::new();
    if doc_defines_rpc(doc) {
        out.append("pub const NSID: &str = ");
        out.append(quote_str(doc.id.as_str()).as_str());
        out.append(";\n");
    }
    proof {
        reveal_strlit("main");
        assert(main_name() =~= "main"@);
    }
    match find_def(doc, "main") {
        Some(d) => match user_type(d, doc.id.as_str(), basename, true) {
            Ok(t) => out.append(t.as_str()),
            Err(e) => return Err(e),
        },
        None => {},
    }
    Ok(out)
}

fn other_names_of(doc: &SchemaDocument) -> (r: Vec<String>)
    ensures
        r.deep_view() == other_names(doc.defs@),
{
    proof {
        reveal_strlit("main");
        assert(main_name() =~= "main"@);
    }
    let mut out: Vec<String> = Vec::new();
    let mut i: usize = 0;
    assert(doc.defs@.take(0) =~= Seq::<(String, Definition)>::empty());
    while i < doc.defs.len()
        invariant
            i <= doc.defs@.len(),
            main_name() == "main"@,
            out.deep_view() == other_names(doc.defs@.take(i as int)),
        decreases doc.defs@.len() - i,
    {
        proof {
            assert(doc.defs@.take(i + 1).drop_last() =~= doc.defs@.take(i as int));
            assert(doc.defs@.take(i + 1).last() == doc.defs@[i as int]);
        }
        if !str_eq(doc.defs[i].0.as_str(), "main") {
            let ghost before = out.deep_view();
            out.push(String::from_str(doc.defs[i].0.as_str()));
            assert(out.deep_view() =~= before.push(doc.defs@[i as int].0@));
        }
        i = i + 1;
    }
    assert(doc.defs@.take(i as int) =~= doc.defs@);
    out
}

fn other_item_string(doc: &SchemaDocument, n: &str) -> (r: Result<String, CodegenError>)
    ensures
        rendered(r) == other_item(*doc, n@),
{
    match find_def(doc, n) {
        Some(d) => user_type(d, doc.id.as_str(), n, false),
        None => Ok(String::new()),
    }
}

fn rest_pass(doc: &SchemaDocument) -> (r: Result<String, CodegenError>)
    ensures
        rendered(r) == render_each(
            sorted_of(other_names(doc.defs@).to_multiset()),
            |n: Seq<char>| other_item(*doc, n),
        ),
{
    let sorted = sorted_strings(other_names_of(doc));
    let ghost ns = sorted.deep_view();
    proof {
        lemma_sorted_of(ns);
    }
    let ghost f = |n: Seq<char>| other_item(*doc, n);
    let mut out = String::new();
    let mut k: usize = 0;
    proof {
        assert(ns.take(0) =~= Seq::<Seq<char>>::empty());
    }
    while k < sorted.len()
        invariant
            k <= sorted@.len(),
            ns == sorted.deep_view(),
            ns == sorted_of(other_names(doc.defs@).to_multiset()),
            forall|x: Seq<char>| #[trigger] f(x) == other_item(*doc, x),
            render_each(ns, f) == render_each(
                sorted_of(other_names(doc.defs@).to_multiset()),
                |n: Seq<char>| other_item(*doc, n),
            ),
            render_each(ns.take(k as int), f) == Ok::<Seq<char>, ErrorView>(out@),
        decreases sorted@.len() - k,
    {
        proof {
            assert(ns[k as int] == sorted@[k as int]@);
            lemma_render_each_step(ns, f, k as int);
        }
        match other_item_string(doc, sorted[k].as_str()) {
            Ok(t) => out.append(t.as_str()),
            Err(e) => {
                proof {
                    lemma_render_each_err(ns, f, k + 1);
                }
                return Err(e);
            },
        }
        k = k + 1;
    }
    assert(ns.take(k as int) =~= ns);
    Ok(out)
}

fn head_string(doc: &SchemaDocument) -> (r: String)
    ensures
        r@ == head_text(*doc),
{
    let mut title = String::from_str("Definitions for the `");
    title.append(doc.id.as_str());
    title.append("` namespace.");
    let mut out = String::from_str("#![doc = ");
    out.append(quote_str(title.as_str()).as_str());
    out.append("]\n");
    match &doc.description {
        Some(d) => {
            out.append("#![doc = ");
            out.append(quote_str(d.as_str()).as_str());
            out.append("]\n");
        },
        None => {},
    }
    out
}

/// Renders the content of a document's type file, before its header.
pub fn schema_content(doc: &SchemaDocument) -> (r: Result<String, CodegenError>)
    ensures
        rendered(r) == schema_text(*doc),
{
    let parts = split_str(doc.id.as_str(), '.');
    proof {
        crate::text::lemma_split_on_nonempty(doc.id@, '.');
        assert(parts.deep_view().last() == parts@.last()@);
    }
    let basename = parts[parts.len() - 1].as_str();
    let mut out = head_string(doc);
    match principal(doc, basename) {
        Ok(t) => out.append(t.as_str()),
        Err(e) => return Err(e),
    }
    match rest_pass(doc) {
        Ok(t) => out.append(t.as_str()),
        Err(e) => return Err(e),
    }
    let unions = distinct(&all_unions(doc, basename));
    match ref_unions(doc.id.as_str(), &unions) {
        Ok(t) => out.append(t.as_str()),
        Err(e) => return Err(e),
    }
    Ok(out)
}

/// Builds the path of a document's type file.
pub fn schema_path_of(id: &str) -> (r: String)
    ensures
        r@ == schema_path(id@),
{
    let mut parts = split_str(id, '.');
    proof {
        crate::text::lemma_split_on_nonempty(id@, '.');
    }
    let ghost all = parts.deep_view();
    let last = parts.pop().unwrap();
    proof {
        assert(parts.deep_view() =~= all.drop_last());
        assert(last@ == all.last());
    }
    let mut out = if parts.len() > 0 {
        join_strings(&parts, "/").concat("/")
    } else {
        String::new()
    };
    out.append(to_snake(last.as_str()).as_str());
    out.append(".rs");
    out
}

/// A document's type file, checked and headed.
#[verifier::opaque]
pub open spec fn schema_file(doc: SchemaDocument) -> Result<(Seq<char>, Seq<char>), ErrorView> {
    match schema_text(doc) {
        Err(e) => Err(e),
        Ok(t) => match finished(t) {
            Err(e) => Err(e),
            Ok(c) => Ok((schema_path(doc.id@), c)),
        },
    }
}

/// Renders the type file of one document.
pub fn generate_schemas(doc: &SchemaDocument) -> (r: Result<OutputFile, CodegenError>)
    ensures
        match schema_file(*doc) {
            Ok(f) => r is Ok && (r->Ok_0.path@, r->Ok_0.content@) == f,
            Err(e) => r is Err && r->Err_0@ == e,
        },
{
    proof {
        reveal(schema_file);
    }
    let content = match schema_content(doc) {
        Ok(t) => t,
        Err(e) => return Err(e),
    };
    match write_to_file(content) {
        Ok(c) => Ok(OutputFile { path: schema_path_of(doc.id.as_str()), content: c }),
        Err(e) => Err(e),
    }
}

/// The NSIDs of the documents whose principal definition is a record, in
/// input order.
pub open spec fn record_ids(docs: Seq<SchemaDocument>) -> Seq<Seq<char>>
    decreases docs.len(),
{
    if docs.len() == 0 {
        Seq::empty()
    } else {
        let prev = record_ids(docs.drop_last());
        if is_record_doc(docs.last()) {
            prev.push(docs.last().id@)
        } else {
            prev
        }
    }
}

/// The NSIDs of the documents that define an RPC operation, in input order.
pub open spec fn rpc_ids(docs: Seq<SchemaDocument>) -> Seq<Seq<char>>
    decreases docs.len(),
{
    if docs.len() == 0 {
        Seq::empty()
    } else {
        let prev = rpc_ids(docs.drop_last());
        if defines_rpc(docs.last()) {
            prev.push(docs.last().id@)
        } else {
            prev
        }
    }
}

fn is_record_document(doc: &SchemaDocument) -> (r: bool)
    ensures
        r == is_record_doc(*doc),
{
    proof {
        reveal_strlit("main");
        assert(main_name() =~= "main"@);
    }
    match find_def(doc, "main") {
        Some(Definition::Record(_)) => true,
        _ => false,
    }
}

/// Collects the NSIDs of the record documents, in input order.
pub fn record_ids_of(docs: &Vec<SchemaDocument>) -> (r: Vec<String>)
    ensures
        r.deep_view() == record_ids(docs@),
{
    let mut out: Vec<String> = Vec::new();
    let mut i: usize = 0;
    assert(docs@.take(0) =~= Seq::<SchemaDocument>::empty());
    while i < docs.len()
        invariant
            i <= docs@.len(),
            out.deep_view() == record_ids(docs@.take(i as int)),
        decreases docs@.len() - i,
    {
        proof {
            assert(docs@.take(i + 1).drop_last() =~= docs@.take(i as int));
            assert(docs@.take(i + 1).last() == docs@[i as int]);
        }
        if is_record_document(&docs[i]) {
            let ghost before = out.deep_view();
            out.push(String::from_str(docs[i].id.as_str()));
            assert(out.deep_view() =~= before.push(docs@[i as int].id@));
        }
        i = i + 1;
    }
    assert(docs@.take(i as int) =~= docs@);
    out
}

/// Collects the NSIDs of the documents that define an RPC operation.
pub fn rpc_ids_of(docs: &Vec<SchemaDocument>) -> (r: Vec<String>)
    ensures
        r.deep_view() == rpc_ids(docs@),
{
    let mut out: Vec<String> = Vec::new();
    let mut i: usize = 0;
    assert(docs@.take(0) =~= Seq::<SchemaDocument>::empty());
    while i < docs.len()
        invariant
            i <= docs@.len(),
            out.deep_view() == rpc_ids(docs@.take(i as int)),
        decreases docs@.len() - i,
    {
        proof {
            assert(docs@.take(i + 1).drop_last() =~= docs@.take(i as int));
            assert(docs@.take(i + 1).last() == docs@[i as int]);
        }
        if doc_defines_rpc(&docs[i]) {
            let ghost before = out.deep_view();
            out.push(String::from_str(docs[i].id.as_str()));
            assert(out.deep_view() =~= before.push(docs@[i as int].id@));
        }
        i = i + 1;
    }
    assert(docs@.take(i as int) =~= docs@);
    out
}

/// The record NSIDs in ascending order: the variants of the aggregate.
pub open spec fn known_records(docs: Seq<SchemaDocument>) -> Seq<Seq<char>> {
    sorted_of(record_ids(docs).to_multiset())
}

/// The content of the known-record file before its header.
pub open spec fn records_text(docs: Seq<SchemaDocument>, namespaces: Seq<NamespaceView>) -> Rendered {
    let ids = known_records(docs);
    then_append(
        then_append(
            Ok("#![doc = \"A collection of known record types.\"]\n"@),
            enum_text(ids, "KnownRecord"@, None, namespaces),
        ),
        into_record_text(ids, namespaces),
    )
}

/// The known-record file, checked and headed.
#[verifier::opaque]
pub open spec fn records_file(docs: Seq<SchemaDocument>, namespaces: Seq<NamespaceView>) -> Result<
    (Seq<char>, Seq<char>),
    ErrorView,
> {
    match records_text(docs, namespaces) {
        Err(e) => Err(e),
        Ok(t) => match finished(t) {
            Err(e) => Err(e),
            Ok(c) => Ok(("record.rs"@, c)),
        },
    }
}

/// The known-record aggregate as data: the NSIDs of the record documents,
/// one variant each, in ascending order.
#[derive(Clone, Debug)]
pub struct KnownRecord {
    pub nsids: Vec<String>,
}

impl KnownRecord {
    /// Gathers the record documents of a set of documents.
    pub fn from_documents(docs: &Vec<SchemaDocument>) -> (r: KnownRecord)
        ensures
            r.nsids.deep_view() == known_records(docs@),
            sorted_seq(r.nsids.deep_view()),
            r.nsids.deep_view().to_multiset() == record_ids(docs@).to_multiset(),
    {
        let nsids = sorted_strings(record_ids_of(docs));
        proof {
            lemma_sorted_of(nsids.deep_view());
        }
        KnownRecord { nsids }
    }
}

/// Renders the known-record aggregate: one variant per record document,
/// in ascending order of NSID, and the conversions into and out of it.
pub fn generate_records(docs: &Vec<SchemaDocument>, namespaces: &Vec<NamespaceEntry>) -> (r: Result<
    OutputFile,
    CodegenError,
>)
    ensures
        match records_file(docs@, namespaces.deep_view()) {
            Ok(f) => r is Ok && (r->Ok_0.path@, r->Ok_0.content@) == f,
            Err(e) => r is Err && r->Err_0@ == e,
        },
{
    proof {
        reveal(records_file);
    }
    let ids = KnownRecord::from_documents(docs).nsids;
    let mut content = String::from_str("#![doc = \"A collection of known record types.\"]\n");
    match enum_common(&ids, "KnownRecord", None, namespaces) {
        Ok(t) => content.append(t.as_str()),
        Err(e) => return Err(e),
    }
    match impl_into_record(&ids, namespaces) {
        Ok(t) => content.append(t.as_str()),
        Err(e) => return Err(e),
    }
    match write_to_file(content) {
        Ok(c) => Ok(OutputFile { path: String::from_str("record.rs"), content: c }),
        Err(e) => Err(e),
    }
}

/// The content of the RPC index before its header: the NSID of every
/// operation, in ascending order.
pub open spec fn client_text(docs: Seq<SchemaDocument>) -> Seq<char> {
    "#![doc = \"The RPC operations of the generated namespaces.\"]\npub const OPERATIONS: &[&str] = &[\n"@
        + concat_all(
        sorted_of(rpc_ids(docs).to_multiset()).map_values(|id: Seq<char>| quoted(id) + ",\n"@),
    ) + "];\n"@
}

/// The RPC index, checked and headed.
#[verifier::opaque]
pub open spec fn client_file(docs: Seq<SchemaDocument>) -> Result<(Seq<char>, Seq<char>), ErrorView> {
    match finished(client_text(docs)) {
        Err(e) => Err(e),
        Ok(c) => Ok(("client.rs"@, c)),
    }
}

/// Renders the RPC index.
pub fn generate_client(docs: &Vec<SchemaDocument>) -> (r: Result<OutputFile, CodegenError>)
    ensures
        match client_file(docs@) {
            Ok(f) => r is Ok && (r->Ok_0.path@, r->Ok_0.content@) == f,
            Err(e) => r is Err && r->Err_0@ == e,
        },
{
    proof {
        reveal(client_file);
    }
    let ids = sorted_strings(rpc_ids_of(docs));
    proof {
        lemma_sorted_of(ids.deep_view());
    }
    let ghost f = |id: Seq<char>| quoted(id) + ",\n"@;
    let ghost mapped = ids.deep_view().map_values(f);
    let mut list = String::new();
    let mut k: usize = 0;
    while k < ids.len()
        invariant
            k <= ids@.len(),
            mapped == ids.deep_view().map_values(f),
            forall|x: Seq<char>| #[trigger] f(x) == quoted(x) + ",\n"@,
            list@ == concat_all(mapped.take(k as int)),
        decreases ids@.len() - k,
    {
        proof {
            assert(mapped.take(k + 1).drop_last() =~= mapped.take(k as int));
            assert(ids.deep_view()[k as int] == ids@[k as int]@);
        }
        list.append(quote_str(ids[k].as_str()).as_str());
        list.append(",\n");
        k = k + 1;
    }
    assert(mapped.take(k as int) =~= mapped);
    let mut content = String::from_str(
        "#![doc = \"The RPC operations of the generated namespaces.\"]\npub const OPERATIONS: &[&str] = &[\n",
    );
    content.append(list.as_str());
    content.append("];\n");
    match write_to_file(content) {
        Ok(c) => Ok(OutputFile { path: String::from_str("client.rs"), content: c }),
        Err(e) => Err(e),
    }
}

/// The root module file, checked and headed.
#[verifier::opaque]
pub open spec fn root_file(namespaces: Seq<NamespaceView>) -> Result<(Seq<char>, Seq<char>), ErrorView> {
    match finished(lexicon_module_text(namespaces)) {
        Err(e) => Err(e),
        Ok(c) => Ok(("mod.rs"@, c)),
    }
}

/// Renders the root module of the generated tree.
pub fn generate_lexicons_mod(namespaces: &Vec<NamespaceEntry>) -> (r: Result<OutputFile, CodegenError>)
    ensures
        match root_file(namespaces.deep_view()) {
            Ok(f) => r is Ok && (r->Ok_0.path@, r->Ok_0.content@) == f,
            Err(e) => r is Err && r->Err_0@ == e,
        },
{
    proof {
        reveal(root_file);
    }
    match write_to_file(lexicon_module(namespaces)) {
        Ok(c) => Ok(OutputFile { path: String::from_str("mod.rs"), content: c }),
        Err(e) => Err(e),
    }
}

/// Whether the document at `k` has the NSID of an earlier one.
pub open spec fn repeats_earlier(docs: Seq<SchemaDocument>, k: int) -> bool {
    exists|j: int| 0 <= j < k && (#[trigger] docs[j]).id@ == docs[k].id@
}

/// The NSID of the first document, from position `k` on, that repeats an
/// earlier one.
pub open spec fn first_duplicate(docs: Seq<SchemaDocument>, k: int) -> Option<Seq<char>>
    decreases docs.len() - k,
{
    if k < 0 || k >= docs.len() {
        None
    } else if repeats_earlier(docs, k) {
        Some(docs[k].id@)
    } else {
        first_duplicate(docs, k + 1)
    }
}

/// Checks that no two documents share an NSID; the first that repeats an
/// earlier one is the error.
pub fn check_unique_ids(docs: &Vec<SchemaDocument>) -> (r: Result<(), CodegenError>)
    ensures
        match first_duplicate(docs@, 0) {
            Some(nsid) => r is Err && r->Err_0@ == ErrorView::DuplicateNsid { nsid },
            None => r is Ok,
        },
{
    let mut k: usize = 0;
    while k < docs.len()
        invariant
            k <= docs@.len(),
            first_duplicate(docs@, k as int) == first_duplicate(docs@, 0),
        decreases docs@.len() - k,
    {
        let mut j: usize = 0;
        while j < k
            invariant
                j <= k < docs@.len(),
                first_duplicate(docs@, k as int) == first_duplicate(docs@, 0),
                forall|m: int| 0 <= m < j ==> (#[trigger] docs@[m]).id@ != docs@[k as int].id@,
            decreases k - j,
        {
            if str_eq(docs[j].id.as_str(), docs[k].id.as_str()) {
                assert(repeats_earlier(docs@, k as int));
                return Err(CodegenError::DuplicateNsid { nsid: String::from_str(docs[k].id.as_str()) });
            }
            j = j + 1;
        }
        assert(!repeats_earlier(docs@, k as int));
        k = k + 1;
    }
    Ok(())
}

/// A file as plain values: its path and its content.
pub type FileView = (Seq<char>, Seq<char>);

/// Why a compilation stopped: the NSID of the document, or the path of the
/// output file, where it stopped, and the error.
#[derive(Clone, Debug, PartialEq, Eq)]
pub struct Failure {
    pub source: String,
    pub error: CodegenError,
}

/// A failure as plain values.
pub type FailureView = (Seq<char>, ErrorView);

/// Adds a file rendered for `source` to a list of files; the first error
/// wins, marked with its source.
pub open spec fn push_file(
    acc: Result<Seq<FileView>, FailureView>,
    source: Seq<char>,
    f: Result<FileView, ErrorView>,
) -> Result<Seq<FileView>, FailureView> {
    match acc {
        Err(e) => Err(e),
        Ok(fs) => match f {
            Err(e) => Err((source, e)),
            Ok(f) => Ok(fs.push(f)),
        },
    }
}

/// The type files of the documents, in input order.
pub open spec fn schema_files(docs: Seq<SchemaDocument>) -> Result<Seq<FileView>, FailureView>
    decreases docs.len(),
{
    if docs.len() == 0 {
        Ok(Seq::empty())
    } else {
        push_file(schema_files(docs.drop_last()), docs.last().id@, schema_file(docs.last()))
    }
}

/// Whether any document defines an RPC operation.
pub open spec fn has_rpc(docs: Seq<SchemaDocument>) -> bool {
    exists|i: int| 0 <= i < docs.len() && defines_rpc(#[trigger] docs[i])
}

/// Everything the compiler writes for a set of documents, but the module
/// indexes of the directories: the type file of each document, the
/// known-record file, the RPC index when any document defines an
/// operation, and the root module. A document without a namespace, two
/// documents with one NSID, or a reference that names no definition of the
/// set, stops it all.
pub open spec fn generation(docs: Seq<SchemaDocument>) -> Result<Seq<FileView>, FailureView> {
    match namespaces_spec(docs) {
        Err(e) => Err(
            (
                match e {
                    ErrorView::ShortNsid { nsid } => nsid,
                    _ => Seq::empty(),
                },
                e,
            ),
        ),
        Ok(names) => if let Some(nsid) = first_duplicate(docs, 0) {
            Err((nsid, ErrorView::DuplicateNsid { nsid }))
        } else if let Some((nsid, reference)) = first_unresolved(docs, 0) {
            Err((nsid, ErrorView::UnresolvedReference { nsid, reference }))
        } else {
            let ns = ungated(names);
            let with_records = push_file(schema_files(docs), "record.rs"@, records_file(docs, ns));
            let with_client = if has_rpc(docs) {
                push_file(with_records, "client.rs"@, client_file(docs))
            } else {
                with_records
            };
            push_file(with_client, "mod.rs"@, root_file(ns))
        },
    }
}

proof fn lemma_schema_files_err(docs: Seq<SchemaDocument>, k: int)
    requires
        0 <= k <= docs.len(),
        schema_files(docs.take(k)) is Err,
    ensures
        schema_files(docs) == schema_files(docs.take(k)),
    decreases docs.len() - k,
{
    if k < docs.len() {
        assert(docs.take(k + 1).drop_last() =~= docs.take(k));
        lemma_schema_files_err(docs, k + 1);
    } else {
        assert(docs.take(k) =~= docs);
    }
}

fn push_output(
    out: &mut Vec<OutputFile>,
    source: &str,
    r: Result<OutputFile, CodegenError>,
    Ghost(expected): Ghost<Result<FileView, ErrorView>>,
) -> (res: Result<(), Failure>)
    requires
        match expected {
            Ok(f) => r is Ok && (r->Ok_0.path@, r->Ok_0.content@) == f,
            Err(e) => r is Err && r->Err_0@ == e,
        },
    ensures
        match push_file(Ok(files_view(old(out)@)), source@, expected) {
            Ok(fs) => res is Ok && files_view(final(out)@) == fs,
            Err(e) => res is Err && (res->Err_0.source@, res->Err_0.error@) == e,
        },
{
    match r {
        Ok(f) => {
            let ghost before = out@;
            out.push(f);
            assert(files_view(out@) =~= files_view(before).push(
                (out@.last().path@, out@.last().content@),
            ));
            Ok(())
        },
        Err(error) => Err(Failure { source: String::from_str(source), error }),
    }
}

/// Compiles a set of documents into the files to write, each with its path
/// below the output root. The module index of each directory depends on
/// what the directory holds once these are written: see `module_index`.
pub fn gen_from_lexicon_docs(schemas: &Vec<SchemaDocument>) -> (r: Result<
    Vec<OutputFile>,
    Failure,
>)
    ensures
        match generation(schemas@) {
            Ok(fs) => r is Ok && files_view(r->Ok_0@) == fs,
            Err(e) => r is Err && (r->Err_0.source@, r->Err_0.error@) == e,
        },
{
    let namespaces = match collect_namespaces(schemas) {
        Ok(ns) => ns,
        Err(error) => {
            let source = match &error {
                CodegenError::ShortNsid { nsid } => String::from_str(nsid.as_str()),
                _ => String::new(),
            };
            return Err(Failure { source, error });
        },
    };
    let ghost names = namespaces_spec(schemas@)->Ok_0;
    match check_unique_ids(schemas) {
        Ok(()) => {},
        Err(error) => {
            let source = match &error {
                CodegenError::DuplicateNsid { nsid } => String::from_str(nsid.as_str()),
                _ => String::new(),
            };
            return Err(Failure { source, error });
        },
    }
    match check_references(schemas) {
        Ok(()) => {},
        Err(error) => {
            let source = match &error {
                CodegenError::UnresolvedReference { nsid, .. } => String::from_str(nsid.as_str()),
                _ => String::new(),
            };
            return Err(Failure { source, error });
        },
    }
    let mut out: Vec<OutputFile> = Vec::new();
    let mut i: usize = 0;
    assert(schemas@.take(0) =~= Seq::<SchemaDocument>::empty());
    assert(files_view(out@) =~= Seq::<FileView>::empty());
    while i < schemas.len()
        invariant
            i <= schemas@.len(),
            namespaces_spec(schemas@) == Ok::<Seq<Seq<char>>, ErrorView>(names),
            first_duplicate(schemas@, 0) is None,
            first_unresolved(schemas@, 0) is None,
            schema_files(schemas@.take(i as int)) == Ok::<Seq<FileView>, FailureView>(
                files_view(out@),
            ),
        decreases schemas@.len() - i,
    {
        proof {
            assert(schemas@.take(i + 1).drop_last() =~= schemas@.take(i as int));
            assert(schemas@.take(i + 1).last() == schemas@[i as int]);
        }
        let file = generate_schemas(&schemas[i]);
        match push_output(&mut out, schemas[i].id.as_str(), file, Ghost(schema_file(schemas@[i as int]))) {
            Ok(()) => {},
            Err(e) => {
                proof {
                    lemma_schema_files_err(schemas@, i + 1);
                }
                return Err(e);
            },
        }
        i = i + 1;
    }
    assert(schemas@.take(i as int) =~= schemas@);
    match push_output(
        &mut out,
        "record.rs",
        generate_records(schemas, &namespaces),
        Ghost(records_file(schemas@, ungated(names))),
    ) {
        Ok(()) => {},
        Err(e) => return Err(e),
    }
    if any_rpc_docs(schemas) {
        match push_output(
            &mut out,
            "client.rs",
            generate_client(schemas),
            Ghost(client_file(schemas@)),
        ) {
            Ok(()) => {},
            Err(e) => return Err(e),
        }
    }
    match push_output(
        &mut out,
        "mod.rs",
        generate_lexicons_mod(&namespaces),
        Ghost(root_file(ungated(names))),
    ) {
        Ok(()) => {},
        Err(e) => return Err(e),
    }
    Ok(out)
}

fn any_rpc_docs(docs: &Vec<SchemaDocument>) -> (r: bool)
    ensures
        r == has_rpc(docs@),
{
    crate::schema::any_rpc(docs)
}

/// Whether a directory below the output root gets a module index: every
/// one but the root and those under the reserved `agent` and `types`
/// directories, which hold code written by hand.
pub open spec fn is_module_dir_spec(components: Seq<Seq<char>>) -> bool {
    components.len() > 0 && components[0] != "agent"@ && components[0] != "types"@
}

/// Decides whether a directory, given by its path components below the
/// output root, gets a module index.
pub fn is_module_dir(components: &Vec<String>) -> (r: bool)
    ensures
        r == is_module_dir_spec(components.deep_view()),
{
    if components.len() == 0 {
        return false;
    }
    assert(components.deep_view()[0] == components@[0]@);
    !str_eq(components[0].as_str(), "agent") && !str_eq(components[0].as_str(), "types")
}

/// Whether some document is the record `nsid`.
pub open spec fn is_record_nsid(docs: Seq<SchemaDocument>, nsid: Seq<char>) -> bool {
    exists|i: int| 0 <= i < docs.len() && (#[trigger] docs[i]).id@ == nsid && is_record_doc(docs[i])
}

/// The collection binding of member `name` of the directory whose namespace
/// is `ns`, when that member is a record document.
pub open spec fn collection_for(docs: Seq<SchemaDocument>, ns: Seq<char>, name: Seq<char>) -> Seq<char> {
    let nsid = ns + "."@ + name;
    if is_record_nsid(docs, nsid) {
        collection_text(name, nsid)
    } else {
        Seq::empty()
    }
}

/// The content of a directory's module index before its header, for its
/// members in ascending order.
pub open spec fn module_index_text(
    components: Seq<Seq<char>>,
    names: Seq<Seq<char>>,
    docs: Seq<SchemaDocument>,
    namespaces: Seq<NamespaceView>,
) -> Seq<char> {
    let ns = join_with(components, "."@);
    "#![doc = "@ + quoted("Definitions for the `"@ + ns + "` namespace."@) + "]\n"@ + modules_text(
        names,
        components,
        namespaces,
    ) + concat_all(names.map_values(|n: Seq<char>| collection_for(docs, ns, n)))
}

/// A directory's module index, checked and headed; its path is the directory's with
/// `.rs` added.
#[verifier::opaque]
pub open spec fn module_file(
    components: Seq<Seq<char>>,
    members: Seq<Seq<char>>,
    docs: Seq<SchemaDocument>,
    namespaces: Seq<NamespaceView>,
) -> Result<FileView, ErrorView> {
    let names = sorted_of(members.to_multiset());
    match finished(module_index_text(components, names, docs, namespaces)) {
        Err(e) => Err(e),
        Ok(c) => Ok((join_with(components, "/"@) + ".rs"@, c)),
    }
}

fn record_nsid_exists(docs: &Vec<SchemaDocument>, nsid: &str) -> (r: bool)
    ensures
        r == is_record_nsid(docs@, nsid@),
{
    let mut i: usize = 0;
    while i < docs.len()
        invariant
            i <= docs@.len(),
            forall|j: int|
                0 <= j < i ==> !((#[trigger] docs@[j]).id@ == nsid@ && is_record_doc(docs@[j])),
        decreases docs@.len() - i,
    {
        if str_eq(docs[i].id.as_str(), nsid) && is_record_document(&docs[i]) {
            return true;
        }
        i = i + 1;
    }
    false
}

fn collection_for_string(docs: &Vec<SchemaDocument>, ns: &str, name: &str) -> (r: String)
    ensures
        r@ == collection_for(docs@, ns@, name@),
{
    let mut nsid = String::from_str(ns);
    nsid.append(".");
    nsid.append(name);
    if record_nsid_exists(docs, nsid.as_str()) {
        collection(name, nsid.as_str())
    } else {
        String::new()
    }
}

/// Renders the module index of a directory from the names of the files it
/// holds (without their extensions): a submodule per name, in ascending
/// order, and a collection binding per record among them.
pub fn module_index(
    components: &Vec<String>,
    members: Vec<String>,
    schemas: &Vec<SchemaDocument>,
    namespaces: &Vec<NamespaceEntry>,
) -> (r: Result<OutputFile, CodegenError>)
    ensures
        match module_file(components.deep_view(), members.deep_view(), schemas@, namespaces.deep_view()) {
            Ok(f) => r is Ok && (r->Ok_0.path@, r->Ok_0.content@) == f,
            Err(e) => r is Err && r->Err_0@ == e,
        },
{
    proof {
        reveal(module_file);
    }
    let names = sorted_strings(members);
    proof {
        lemma_sorted_of(names.deep_view());
    }
    let ns = join_strings(components, ".");
    let ghost nsv = ns@;
    let ghost f = |n: Seq<char>| collection_for(schemas@, nsv, n);
    let ghost mapped = names.deep_view().map_values(f);
    let mut bindings = String::new();
    let mut k: usize = 0;
    while k < names.len()
        invariant
            k <= names@.len(),
            mapped == names.deep_view().map_values(f),
            forall|x: Seq<char>| #[trigger] f(x) == collection_for(schemas@, nsv, x),
            nsv == ns@,
            bindings@ == concat_all(mapped.take(k as int)),
        decreases names@.len() - k,
    {
        proof {
            assert(mapped.take(k + 1).drop_last() =~= mapped.take(k as int));
            assert(names.deep_view()[k as int] == names@[k as int]@);
        }
        bindings.append(collection_for_string(schemas, ns.as_str(), names[k].as_str()).as_str());
        k = k + 1;
    }
    assert(mapped.take(k as int) =~= mapped);
    let mut title = String::from_str("Definitions for the `");
    title.append(ns.as_str());
    title.append("` namespace.");
    let mut content = String::from_str("#![doc = ");
    content.append(quote_str(title.as_str()).as_str());
    content.append("]\n");
    content.append(modules(&names, components, namespaces).as_str());
    content.append(bindings.as_str());
    match write_to_file(content) {
        Ok(c) => {
            let path = join_strings(components, "/").concat(".rs");
            Ok(OutputFile { path, content: c })
        },
        Err(e) => Err(e),
    }
}

} // verus!
