//! The in-memory form of a Lexicon schema document.
use vstd::prelude::*;

verus! {

/// The `format` tag of a Lexicon string.
#[derive(Clone, Copy, Debug, PartialEq, Eq)]
pub enum StringFormat {
    AtIdentifier,
    AtUri,
    Cid,
    Datetime,
    Did,
    Handle,
    Nsid,
    Uri,
    Language,
    Tid,
    RecordKey,
}

/// An integer with optional bounds.
#[derive(Clone, Debug)]
pub struct IntegerSchema {
    pub description: Option<String>,
    pub minimum: Option<i64>,
    pub maximum: Option<i64>,
}

/// A string with an optional format.
#[derive(Clone, Debug)]
pub struct StringSchema {
    pub description: Option<String>,
    pub format: Option<StringFormat>,
}

/// A reference to another definition: `nsid#name`, `nsid`, or `#name`.
#[derive(Clone, Debug)]
pub struct RefSchema {
    pub description: Option<String>,
    pub reference: String,
}

/// A value that is one of several referenced definitions.
#[derive(Clone, Debug)]
pub struct RefUnion {
    pub description: Option<String>,
    pub refs: Vec<String>,
    pub closed: Option<bool>,
}

/// What the items of an array may be.
#[derive(Clone, Debug)]
pub enum ArrayItem {
    Boolean(Option<String>),
    Integer(IntegerSchema),
    String(StringSchema),
    Unknown(Option<String>),
    Bytes(Option<String>),
    CidLink(Option<String>),
    Blob(Option<String>),
    Ref(RefSchema),
    Union(RefUnion),
}

/// An array and the kind of its items.
#[derive(Clone, Debug)]
pub struct ArraySchema {
    pub description: Option<String>,
    pub items: ArrayItem,
}

/// The schema of one property of an object.
#[derive(Clone, Debug)]
pub enum PropertySchema {
    Ref(RefSchema),
    Union(RefUnion),
    Bytes(Option<String>),
    CidLink(Option<String>),
    Array(ArraySchema),
    Blob(Option<String>),
    Boolean(Option<String>),
    Integer(IntegerSchema),
    String(StringSchema),
    Unknown(Option<String>),
}

/// An object: named properties, the names that must be present, and the
/// names that may be null (and so are never mandatory).
#[derive(Clone, Debug)]
pub struct ObjectSchema {
    pub description: Option<String>,
    pub required: Option<Vec<String>>,
    pub nullable: Option<Vec<String>>,
    pub properties: Vec<(String, PropertySchema)>,
}

/// The schema of an RPC body.
#[derive(Clone, Debug)]
pub enum BodySchema {
    Ref(RefSchema),
    Union(RefUnion),
    Object(ObjectSchema),
}

/// The input or output body of an RPC operation.
#[derive(Clone, Debug)]
pub struct XrpcBody {
    pub description: Option<String>,
    pub encoding: String,
    pub schema: Option<BodySchema>,
}

/// An error that an RPC operation declares.
#[derive(Clone, Debug)]
pub struct XrpcError {
    pub name: String,
    pub description: Option<String>,
}

/// A query: parameters in, an output body out.
#[derive(Clone, Debug)]
pub struct XrpcQuery {
    pub description: Option<String>,
    pub parameters: Option<ObjectSchema>,
    pub output: Option<XrpcBody>,
    pub errors: Option<Vec<XrpcError>>,
}

/// A procedure: an input body in, an output body out.
#[derive(Clone, Debug)]
pub struct XrpcProcedure {
    pub description: Option<String>,
    pub input: Option<XrpcBody>,
    pub output: Option<XrpcBody>,
    pub errors: Option<Vec<XrpcError>>,
}

/// A subscription: parameters in, a stream of messages out.
#[derive(Clone, Debug)]
pub struct XrpcSubscription {
    pub description: Option<String>,
    pub parameters: Option<ObjectSchema>,
    pub errors: Option<Vec<XrpcError>>,
}

/// One named definition of a document.
#[derive(Clone, Debug)]
pub enum Definition {
    Record(ObjectSchema),
    Query(XrpcQuery),
    Procedure(XrpcProcedure),
    Subscription(XrpcSubscription),
    Array(ArraySchema),
    Token(Option<String>),
    Object(ObjectSchema),
    String(StringSchema),
    /// A kind that this compiler does not support, by its `type` tag.
    Unsupported(String),
}

/// A Lexicon document: its NSID, a description, and its definitions by name.
#[derive(Clone, Debug)]
pub struct SchemaDocument {
    pub id: String,
    pub description: Option<String>,
    pub defs: Vec<(String, Definition)>,
}

/// Whether a definition is an RPC operation.
pub open spec fn is_rpc(d: Definition) -> bool {
    d is Query || d is Procedure || d is Subscription
}

/// Whether the document defines a query, a procedure or a subscription.
pub open spec fn defines_rpc(doc: SchemaDocument) -> bool {
    exists|i: int| 0 <= i < doc.defs@.len() && is_rpc(#[trigger] doc.defs@[i].1)
}

/// The name of the principal definition.
pub open spec fn main_name() -> Seq<char> {
    seq!['m', 'a', 'i', 'n']
}

/// The definition named `name`, if the document has one (the first, should
/// a name repeat).
pub open spec fn def_named(doc: SchemaDocument, name: Seq<char>) -> Option<Definition> {
    if exists|i: int| 0 <= i < doc.defs@.len() && doc.defs@[i].0@ == name {
        let i = choose|i: int|
            0 <= i < doc.defs@.len() && doc.defs@[i].0@ == name && forall|j: int|
                0 <= j < i ==> doc.defs@[j].0@ != name;
        Some(doc.defs@[i].1)
    } else {
        None
    }
}

/// Whether the principal definition of the document is a record.
pub open spec fn is_record_doc(doc: SchemaDocument) -> bool {
    match def_named(doc, main_name()) {
        Some(d) => d is Record,
        None => false,
    }
}

/// Whether any of the documents defines an RPC operation.
pub fn any_rpc(docs: &Vec<SchemaDocument>) -> (r: bool)
    ensures
        r == exists|i: int| 0 <= i < docs@.len() && defines_rpc(#[trigger] docs@[i]),
{
    let mut k: usize = 0;
    while k < docs.len()
        invariant
            k <= docs@.len(),
            forall|i: int| 0 <= i < k ==> !defines_rpc(#[trigger] docs@[i]),
        decreases docs@.len() - k,
    {
        if doc_defines_rpc(&docs[k]) {
            return true;
        }
        k = k + 1;
    }
    false
}

/// Whether one document defines an RPC operation.
pub fn doc_defines_rpc(doc: &SchemaDocument) -> (r: bool)
    ensures
        r == defines_rpc(*doc),
{
    let mut i: usize = 0;
    while i < doc.defs.len()
        invariant
            i <= doc.defs@.len(),
            forall|j: int| 0 <= j < i ==> !is_rpc(#[trigger] doc.defs@[j].1),
        decreases doc.defs@.len() - i,
    {
        match &doc.defs[i].1 {
            Definition::Query(_) | Definition::Procedure(_) | Definition::Subscription(_) => {
                return true;
            },
            _ => {},
        }
        i = i + 1;
    }
    false
}

/// Finds the definition named `name`.
pub fn find_def<'a>(doc: &'a SchemaDocument, name: &str) -> (r: Option<&'a Definition>)
    ensures
        match r {
            Some(d) => def_named(*doc, name@) == Some(*d),
            None => def_named(*doc, name@) is None,
        },
{
    let mut i: usize = 0;
    while i < doc.defs.len()
        invariant
            i <= doc.defs@.len(),
            forall|j: int| 0 <= j < i ==> doc.defs@[j].0@ != name@,
        decreases doc.defs@.len() - i,
    {
        if str_eq(doc.defs[i].0.as_str(), name) {
            let ghost k = i as int;
            proof {
                let c = choose|c: int|
                    0 <= c < doc.defs@.len() && doc.defs@[c].0@ == name@ && forall|j: int|
                        0 <= j < c ==> doc.defs@[j].0@ != name@;
                assert(c == k) by {
                    if c < k {
                    } else if c > k {
                    }
                }
            }
            return Some(&doc.defs[i].1);
        }
        i = i + 1;
    }
    None
}

/// Equality of two strings by their characters.
pub fn str_eq(a: &str, b: &str) -> (r: bool)
    ensures
        r == (a@ == b@),
{
    let n = a.unicode_len();
    let m = b.unicode_len();
    if n != m {
        return false;
    }
    let mut i: usize = 0;
    while i < n
        invariant
            n == a@.len(),
            m == b@.len(),
            n == m,
            i <= n,
            forall|j: int| 0 <= j < i ==> a@[j] == b@[j],
        decreases n - i,
    {
        if a.get_char(i) != b.get_char(i) {
            return false;
        }
        i = i + 1;
    }
    assert(a@ =~= b@);
    true
}

} // verus!
