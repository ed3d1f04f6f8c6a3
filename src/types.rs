//! The mapping from Lexicon primitives to Rust type expressions.
use vstd::prelude::*;
use crate::schema::{IntegerSchema, StringFormat};
use crate::text::{decimal, decimal_string, quote_str, quoted};

verus! {

/// A fixed integer width.
#[derive(Clone, Copy, Debug, PartialEq, Eq, Structural)]
pub enum Width {
    W8,
    W16,
    W32,
    W64,
}

/// The Rust representation chosen for a bounded Lexicon integer. Values that
/// stand in a type are kept as the literal written there.
#[derive(Clone, Copy, Debug, PartialEq, Eq, Structural)]
pub enum IntegerRepr {
    /// `usize`: a count or an index into something held in memory.
    Usize,
    /// `u8` .. `u64`.
    Unsigned(Width),
    /// `LimitedU*<max>`.
    Limited(Width, u64),
    /// `NonZeroU*`.
    NonZero(Width),
    /// `NonZeroUsize`: a non-zero count or index.
    NonZeroUsize,
    /// `LimitedNonZeroU*<max>`.
    LimitedNonZero(Width, u64),
    /// `BoundedU*<min, max>`; at width 64 with no maximum, `u64::MAX`.
    Bounded(Width, u64, Option<u64>),
    /// `i8` .. `i64`.
    Signed(Width),
}

/// Why a schema cannot be compiled.
#[derive(Clone, Debug, PartialEq, Eq)]
pub enum CodegenError {
    /// An integer whose bounds have no representation.
    UnsupportedInteger { minimum: Option<i64>, maximum: Option<i64> },
    /// A definition of a kind that is not supported, by its `type` tag.
    UnsupportedDefinition { name: String, kind: String },
    /// An RPC body given as a union, which is not supported.
    UnsupportedBody { name: String },
    /// An identifier with fewer than two dot-separated segments.
    ShortNsid { nsid: String },
    /// Two input documents with the same identifier.
    DuplicateNsid { nsid: String },
    /// A reference that does not make a valid type path.
    InvalidReference { reference: String },
    /// A reference, made in document `nsid`, to a definition that no input
    /// document has.
    UnresolvedReference { nsid: String, reference: String },
    /// Rendered source that does not parse as a Rust file.
    MalformedOutput { content: String },
}

/// The content of a `CodegenError`, as plain values.
pub enum ErrorView {
    UnsupportedInteger { minimum: Option<i64>, maximum: Option<i64> },
    UnsupportedDefinition { name: Seq<char>, kind: Seq<char> },
    UnsupportedBody { name: Seq<char> },
    ShortNsid { nsid: Seq<char> },
    DuplicateNsid { nsid: Seq<char> },
    InvalidReference { reference: Seq<char> },
    UnresolvedReference { nsid: Seq<char>, reference: Seq<char> },
    MalformedOutput { content: Seq<char> },
}

impl View for CodegenError {
    type V = ErrorView;

    open spec fn view(&self) -> ErrorView {
        match self {
            CodegenError::UnsupportedInteger { minimum, maximum } => ErrorView::UnsupportedInteger {
                minimum: *minimum,
                maximum: *maximum,
            },
            CodegenError::UnsupportedDefinition { name, kind } => ErrorView::UnsupportedDefinition {
                name: name@,
                kind: kind@,
            },
            CodegenError::UnsupportedBody { name } => ErrorView::UnsupportedBody { name: name@ },
            CodegenError::ShortNsid { nsid } => ErrorView::ShortNsid { nsid: nsid@ },
            CodegenError::DuplicateNsid { nsid } => ErrorView::DuplicateNsid { nsid: nsid@ },
            CodegenError::InvalidReference { reference } => ErrorView::InvalidReference {
                reference: reference@,
            },
            CodegenError::UnresolvedReference { nsid, reference } => ErrorView::UnresolvedReference {
                nsid: nsid@,
                reference: reference@,
            },
            CodegenError::MalformedOutput { content } => ErrorView::MalformedOutput {
                content: content@,
            },
        }
    }
}

/// A rendering result as plain values.
pub type Rendered = Result<Seq<char>, ErrorView>;

/// The plain content of a rendering result.
pub open spec fn rendered(r: Result<String, CodegenError>) -> Rendered {
    match r {
        Ok(s) => Ok(s@),
        Err(e) => Err(e@),
    }
}

/// Appends the text of `b` to that of `a`; the first error wins.
pub open spec fn then_append(a: Rendered, b: Rendered) -> Rendered {
    match a {
        Err(e) => Err(e),
        Ok(x) => match b {
            Err(e) => Err(e),
            Ok(y) => Ok(x + y),
        },
    }
}

/// Renders each item in turn and concatenates the texts; the first error
/// wins.
pub open spec fn render_each<A>(items: Seq<A>, f: spec_fn(A) -> Rendered) -> Rendered
    decreases items.len(),
{
    if items.len() == 0 {
        Ok(Seq::empty())
    } else {
        then_append(render_each(items.drop_last(), f), f(items.last()))
    }
}

/// Once a prefix of the items fails, the whole fails with the same error.
pub proof fn lemma_render_each_err<A>(items: Seq<A>, f: spec_fn(A) -> Rendered, k: int)
    requires
        0 <= k <= items.len(),
        render_each(items.take(k), f) is Err,
    ensures
        render_each(items, f) == render_each(items.take(k), f),
    decreases items.len() - k,
{
    if k < items.len() {
        assert(items.take(k + 1).drop_last() =~= items.take(k));
        lemma_render_each_err(items, f, k + 1);
    } else {
        assert(items.take(k) =~= items);
    }
}

/// One more item extends the rendering of a prefix.
pub proof fn lemma_render_each_step<A>(items: Seq<A>, f: spec_fn(A) -> Rendered, k: int)
    requires
        0 <= k < items.len(),
    ensures
        render_each(items.take(k + 1), f) == then_append(render_each(items.take(k), f), f(items[k])),
{
    assert(items.take(k + 1).drop_last() =~= items.take(k));
}

/// The narrowest unsigned width that holds `m`.
pub open spec fn narrowest_width(m: int) -> Width {
    if m <= 0xff {
        Width::W8
    } else if m <= 0xffff {
        Width::W16
    } else if m <= 0xffff_ffff {
        Width::W32
    } else {
        Width::W64
    }
}

/// The largest value of the unsigned type of width `w`.
pub open spec fn width_max(w: Width) -> int {
    match w {
        Width::W8 => 0xff,
        Width::W16 => 0xffff,
        Width::W32 => 0xffff_ffff,
        Width::W64 => 0xffff_ffff_ffff_ffff,
    }
}

/// The signed type whose range is exactly `[lo, hi]`, if there is one.
pub open spec fn canonical_signed(lo: i64, hi: i64) -> Option<Width> {
    if lo == -0x80 && hi == 0x7f {
        Some(Width::W8)
    } else if lo == -0x8000 && hi == 0x7fff {
        Some(Width::W16)
    } else if lo == -0x8000_0000 && hi == 0x7fff_ffff {
        Some(Width::W32)
    } else if lo == i64::MIN && hi == i64::MAX {
        Some(Width::W64)
    } else {
        None
    }
}

/// The type to use for an integer with bounds `minimum` and `maximum`.
/// - No bounds: `i64`; a maximum alone has no representation.
/// - A negative minimum: the signed type whose range is exactly the
///   bounds; any other negative pair has no representation.
/// - A maximum below the minimum has no representation.
/// - Minimum 0 or 1: the narrowest unsigned width that holds the maximum,
///   bare (plain or non-zero) where the maximum is that width's largest
///   value, otherwise limited to the maximum; with no maximum the
///   index-sized type (`usize`, or its non-zero counterpart).
/// - A larger minimum: bounded by both, at the narrowest width that holds
///   the maximum, or at 64 bits up to `u64::MAX` when there is no maximum.
pub open spec fn integer_repr(minimum: Option<i64>, maximum: Option<i64>) -> Option<IntegerRepr> {
    match minimum {
        None => match maximum {
            None => Some(IntegerRepr::Signed(Width::W64)),
            Some(_) => None,
        },
        Some(lo) => if lo < 0 {
            match maximum {
                Some(hi) => match canonical_signed(lo, hi) {
                    Some(w) => Some(IntegerRepr::Signed(w)),
                    None => None,
                },
                None => None,
            }
        } else {
            match maximum {
                None => Some(
                    if lo == 0 {
                        IntegerRepr::Usize
                    } else if lo == 1 {
                        IntegerRepr::NonZeroUsize
                    } else {
                        IntegerRepr::Bounded(Width::W64, lo as u64, None)
                    },
                ),
                Some(hi) => if hi < lo {
                    None
                } else {
                    let w = narrowest_width(hi as int);
                    let bare = hi as int == width_max(w);
                    Some(
                        if lo == 0 {
                            if bare {
                                IntegerRepr::Unsigned(w)
                            } else {
                                IntegerRepr::Limited(w, hi as u64)
                            }
                        } else if lo == 1 {
                            if bare {
                                IntegerRepr::NonZero(w)
                            } else {
                                IntegerRepr::LimitedNonZero(w, hi as u64)
                            }
                        } else {
                            IntegerRepr::Bounded(w, lo as u64, Some(hi as u64))
                        },
                    )
                },
            }
        },
    }
}

fn narrowest_width_of(m: i64) -> (w: Width)
    requires
        m >= 0,
    ensures
        w == narrowest_width(m as int),
{
    if m <= 0xff {
        Width::W8
    } else if m <= 0xffff {
        Width::W16
    } else if m <= 0xffff_ffff {
        Width::W32
    } else {
        Width::W64
    }
}

fn is_width_max(m: i64, w: Width) -> (r: bool)
    ensures
        r == (m as int == width_max(w)),
{
    match w {
        Width::W8 => m == 0xff,
        Width::W16 => m == 0xffff,
        Width::W32 => m == 0xffff_ffff,
        Width::W64 => false,
    }
}

/// Chooses the representation of an integer with the given bounds; bounds
/// that have none are an error.
pub fn integer_repr_of(minimum: Option<i64>, maximum: Option<i64>) -> (r: Result<
    IntegerRepr,
    CodegenError,
>)
    ensures
        match integer_repr(minimum, maximum) {
            Some(t) => r == Ok::<IntegerRepr, CodegenError>(t),
            None => r == Err::<IntegerRepr, CodegenError>(
                CodegenError::UnsupportedInteger { minimum, maximum },
            ),
        },
{
    let unsupported = CodegenError::UnsupportedInteger { minimum, maximum };
    match minimum {
        None => match maximum {
            None => Ok(IntegerRepr::Signed(Width::W64)),
            Some(_) => Err(unsupported),
        },
        Some(lo) => if lo < 0 {
            match maximum {
                Some(hi) => if lo == -0x80 && hi == 0x7f {
                    Ok(IntegerRepr::Signed(Width::W8))
                } else if lo == -0x8000 && hi == 0x7fff {
                    Ok(IntegerRepr::Signed(Width::W16))
                } else if lo == -0x8000_0000 && hi == 0x7fff_ffff {
                    Ok(IntegerRepr::Signed(Width::W32))
                } else if lo == i64::MIN && hi == i64::MAX {
                    Ok(IntegerRepr::Signed(Width::W64))
                } else {
                    Err(unsupported)
                },
                None => Err(unsupported),
            }
        } else {
            match maximum {
                None => Ok(
                    if lo == 0 {
                        IntegerRepr::Usize
                    } else if lo == 1 {
                        IntegerRepr::NonZeroUsize
                    } else {
                        IntegerRepr::Bounded(Width::W64, lo as u64, None)
                    },
                ),
                Some(hi) => if hi < lo {
                    Err(unsupported)
                } else {
                    let w = narrowest_width_of(hi);
                    let bare = is_width_max(hi, w);
                    Ok(
                        if lo == 0 {
                            if bare {
                                IntegerRepr::Unsigned(w)
                            } else {
                                IntegerRepr::Limited(w, hi as u64)
                            }
                        } else if lo == 1 {
                            if bare {
                                IntegerRepr::NonZero(w)
                            } else {
                                IntegerRepr::LimitedNonZero(w, hi as u64)
                            }
                        } else {
                            IntegerRepr::Bounded(w, lo as u64, Some(hi as u64))
                        },
                    )
                },
            }
        },
    }
}

/// With a minimum of 0, an integer takes the narrowest unsigned width that
/// holds its maximum: the bare type where the maximum is that width's largest
/// value, otherwise a wrapper limited to the maximum; with no maximum it
/// takes `usize`.
pub proof fn lemma_unsigned_bounds(m: i64)
    requires
        m >= 0,
    ensures
        integer_repr(Some(0), None) == Some(IntegerRepr::Usize),
        integer_repr(Some(0), Some(m)) == Some(
            if m == width_max(narrowest_width(m as int)) {
                IntegerRepr::Unsigned(narrowest_width(m as int))
            } else {
                IntegerRepr::Limited(narrowest_width(m as int), m as u64)
            },
        ),
        integer_repr(Some(0), Some(254)) == Some(IntegerRepr::Limited(Width::W8, 254)),
        integer_repr(Some(0), Some(255)) == Some(IntegerRepr::Unsigned(Width::W8)),
{
}

/// With a minimum of 1, the width is chosen as with a minimum of 0, from the
/// non-zero family of types: with a maximum, the narrowest width that holds
/// it, bare or limited alike; with no maximum, the index-sized non-zero type.
pub proof fn lemma_nonzero_bounds(m: i64)
    requires
        m >= 1,
    ensures
        integer_repr(Some(1), None) == Some(IntegerRepr::NonZeroUsize),
        integer_repr(Some(1), Some(m)) == Some(
            if m == width_max(narrowest_width(m as int)) {
                IntegerRepr::NonZero(narrowest_width(m as int))
            } else {
                IntegerRepr::LimitedNonZero(narrowest_width(m as int), m as u64)
            },
        ),
        integer_repr(Some(1), Some(254)) == Some(IntegerRepr::LimitedNonZero(Width::W8, 254)),
        integer_repr(Some(1), Some(255)) == Some(IntegerRepr::NonZero(Width::W8)),
{
}

/// Negative bounds have a representation only when they are exactly the
/// range of a signed type.
pub proof fn lemma_negative_bounds(lo: i64, hi: Option<i64>)
    requires
        lo < 0,
    ensures
        integer_repr(Some(lo), hi) is Some <==> (hi is Some && canonical_signed(lo, hi->Some_0) is Some),
{
}

/// `8`, `16`, `32` or `64`.
pub open spec fn width_bits(w: Width) -> Seq<char> {
    match w {
        Width::W8 => seq!['8'],
        Width::W16 => seq!['1', '6'],
        Width::W32 => seq!['3', '2'],
        Width::W64 => seq!['6', '4'],
    }
}

fn width_bits_str(w: Width) -> (r: &'static str)
    ensures
        r@ == width_bits(w),
{
    proof {
        reveal_strlit("8");
        reveal_strlit("16");
        reveal_strlit("32");
        reveal_strlit("64");
    }
    let r = match w {
        Width::W8 => "8",
        Width::W16 => "16",
        Width::W32 => "32",
        Width::W64 => "64",
    };
    assert(r@ =~= width_bits(w));
    r
}

/// A literal of the unsigned type of width `w`, such as `254u8`.
pub open spec fn unsigned_literal(v: u64, w: Width) -> Seq<char> {
    decimal(v as nat) + seq!['u'] + width_bits(w)
}

/// The text of the type that a representation stands for.
pub open spec fn integer_repr_text(t: IntegerRepr) -> Seq<char> {
    match t {
        IntegerRepr::Usize => "usize"@,
        IntegerRepr::NonZeroUsize => "core::num::NonZeroUsize"@,
        IntegerRepr::Unsigned(w) => seq!['u'] + width_bits(w),
        IntegerRepr::Limited(w, v) => "atrium_api::types::LimitedU"@ + width_bits(w) + "<"@
            + unsigned_literal(v, w) + ">"@,
        IntegerRepr::NonZero(w) => "core::num::NonZeroU"@ + width_bits(w),
        IntegerRepr::LimitedNonZero(w, v) => "atrium_api::types::LimitedNonZeroU"@ + width_bits(w)
            + "<"@ + unsigned_literal(v, w) + ">"@,
        IntegerRepr::Bounded(w, lo, hi) => "atrium_api::types::BoundedU"@ + width_bits(w) + "<"@
            + unsigned_literal(lo, w) + ", "@ + match hi {
            Some(h) => unsigned_literal(h, w),
            None => "u64::MAX"@,
        } + ">"@,
        IntegerRepr::Signed(w) => seq!['i'] + width_bits(w),
    }
}

fn unsigned_literal_string(v: u64, w: Width) -> (r: String)
    ensures
        r@ == unsigned_literal(v, w),
{
    proof {
        reveal_strlit("u");
    }
    let mut s = decimal_string(v);
    s.append("u");
    s.append(width_bits_str(w));
    assert(s@ =~= unsigned_literal(v, w));
    s
}

/// Renders a representation as Rust type text.
pub fn integer_repr_string(t: IntegerRepr) -> (r: String)
    ensures
        r@ == integer_repr_text(t),
{
    proof {
        reveal_strlit("u");
        reveal_strlit("i");
    }
    match t {
        IntegerRepr::Usize => String::from_str("usize"),
        IntegerRepr::NonZeroUsize => String::from_str("core::num::NonZeroUsize"),
        IntegerRepr::Unsigned(w) => {
            let r = String::from_str("u").concat(width_bits_str(w));
            assert(r@ =~= integer_repr_text(t));
            r
        },
        IntegerRepr::Limited(w, v) => {
            let mut r = String::from_str("atrium_api::types::LimitedU");
            r.append(width_bits_str(w));
            r.append("<");
            r.append(unsigned_literal_string(v, w).as_str());
            r.append(">");
            r
        },
        IntegerRepr::NonZero(w) => String::from_str("core::num::NonZeroU").concat(width_bits_str(w)),
        IntegerRepr::LimitedNonZero(w, v) => {
            let mut r = String::from_str("atrium_api::types::LimitedNonZeroU");
            r.append(width_bits_str(w));
            r.append("<");
            r.append(unsigned_literal_string(v, w).as_str());
            r.append(">");
            r
        },
        IntegerRepr::Bounded(w, lo, hi) => {
            let mut r = String::from_str("atrium_api::types::BoundedU");
            r.append(width_bits_str(w));
            r.append("<");
            r.append(unsigned_literal_string(lo, w).as_str());
            r.append(", ");
            match hi {
                Some(h) => r.append(unsigned_literal_string(h, w).as_str()),
                None => r.append("u64::MAX"),
            }
            r.append(">");
            r
        },
        IntegerRepr::Signed(w) => {
            let r = String::from_str("i").concat(width_bits_str(w));
            assert(r@ =~= integer_repr_text(t));
            r
        },
    }
}

/// `#[doc = "..."]` for a description, or nothing.
pub open spec fn doc_attr(description: Option<String>) -> Seq<char> {
    match description {
        Some(d) => "#[doc = "@ + quoted(d@) + "]\n"@,
        None => Seq::empty(),
    }
}

/// Renders the documentation attribute of a description.
pub fn doc_attr_string(description: &Option<String>) -> (r: String)
    ensures
        r@ == doc_attr(*description),
{
    match description {
        Some(d) => {
            let mut r = String::from_str("#[doc = ");
            r.append(quote_str(d.as_str()).as_str());
            r.append("]\n");
            r
        },
        None => String::new(),
    }
}

/// The type of an integer property with the given bounds.
pub open spec fn integer_type(i: IntegerSchema) -> Rendered {
    match integer_repr(i.minimum, i.maximum) {
        Some(t) => Ok(integer_repr_text(t)),
        None => Err(ErrorView::UnsupportedInteger { minimum: i.minimum, maximum: i.maximum }),
    }
}

/// Maps an integer schema to its Rust type.
pub fn integer_type_string(i: &IntegerSchema) -> (r: Result<String, CodegenError>)
    ensures
        rendered(r) == integer_type(*i),
{
    match integer_repr_of(i.minimum, i.maximum) {
        Ok(t) => Ok(integer_repr_string(t)),
        Err(e) => Err(e),
    }
}

/// The type of a string with the given format; formats without a type of
/// their own are plain strings.
pub open spec fn string_type(f: Option<StringFormat>) -> Seq<char> {
    match f {
        Some(StringFormat::AtIdentifier) => "atrium_api::types::string::AtIdentifier"@,
        Some(StringFormat::Cid) => "atrium_api::types::string::Cid"@,
        Some(StringFormat::Datetime) => "atrium_api::types::string::Datetime"@,
        Some(StringFormat::Did) => "atrium_api::types::string::Did"@,
        Some(StringFormat::Handle) => "atrium_api::types::string::Handle"@,
        Some(StringFormat::Nsid) => "atrium_api::types::string::Nsid"@,
        Some(StringFormat::Language) => "atrium_api::types::string::Language"@,
        Some(StringFormat::Tid) => "atrium_api::types::string::Tid"@,
        Some(StringFormat::RecordKey) => "atrium_api::types::string::RecordKey"@,
        _ => "String"@,
    }
}

/// Maps a string format to its Rust type.
pub fn string_type_string(f: Option<StringFormat>) -> (r: String)
    ensures
        r@ == string_type(f),
{
    match f {
        Some(StringFormat::AtIdentifier) => String::from_str("atrium_api::types::string::AtIdentifier"),
        Some(StringFormat::Cid) => String::from_str("atrium_api::types::string::Cid"),
        Some(StringFormat::Datetime) => String::from_str("atrium_api::types::string::Datetime"),
        Some(StringFormat::Did) => String::from_str("atrium_api::types::string::Did"),
        Some(StringFormat::Handle) => String::from_str("atrium_api::types::string::Handle"),
        Some(StringFormat::Nsid) => String::from_str("atrium_api::types::string::Nsid"),
        Some(StringFormat::Language) => String::from_str("atrium_api::types::string::Language"),
        Some(StringFormat::Tid) => String::from_str("atrium_api::types::string::Tid"),
        Some(StringFormat::RecordKey) => String::from_str("atrium_api::types::string::RecordKey"),
        _ => String::from_str("String"),
    }
}

/// A primitive that maps to one fixed type.
#[derive(Clone, Copy, Debug, PartialEq, Eq, Structural)]
pub enum Primitive {
    Boolean,
    Bytes,
    CidLink,
    Blob,
    Unknown,
}

/// The fixed type of a primitive.
pub open spec fn primitive_type(p: Primitive) -> Seq<char> {
    match p {
        Primitive::Boolean => "bool"@,
        Primitive::Bytes => "Vec<u8>"@,
        Primitive::CidLink => "atrium_api::types::CidLink"@,
        Primitive::Blob => "atrium_api::types::BlobRef"@,
        Primitive::Unknown => "atrium_api::types::Unknown"@,
    }
}

/// Maps a fixed primitive to its Rust type.
pub fn primitive_type_string(p: Primitive) -> (r: String)
    ensures
        r@ == primitive_type(p),
{
    match p {
        Primitive::Boolean => String::from_str("bool"),
        Primitive::Bytes => String::from_str("Vec<u8>"),
        Primitive::CidLink => String::from_str("atrium_api::types::CidLink"),
        Primitive::Blob => String::from_str("atrium_api::types::BlobRef"),
        Primitive::Unknown => String::from_str("atrium_api::types::Unknown"),
    }
}

} // verus!
