use vstd::prelude::*;

use std::num::ParseIntError;

use crate::text::spec_parse_u8;

verus! {

/// What follows the key of one item inside an attribute's parentheses.
#[derive(Debug, Clone, PartialEq, Eq)]
pub enum MetaValue {
    /// The key alone: `varint32`.
    Bare,
    /// `key = expression`: the expression's source text and, where the
    /// expression is an integer literal, its value's decimal digits.
    Assigned { text: String, int_digits: Option<String> },
    /// Anything else after the key, such as a parenthesised list.
    Other,
}

/// One item inside an attribute's parentheses: its path and what follows it.
#[derive(Debug, Clone, PartialEq, Eq)]
pub struct Meta {
    pub path: String,
    pub value: MetaValue,
}

/// An attribute on an item: its path and, where its arguments are a
/// parenthesised list of items, those items.
#[derive(Debug, Clone, PartialEq, Eq)]
pub struct Attr {
    pub path: String,
    pub items: Option<Vec<Meta>>,
}

/// Why a `codec` or `repr` attribute was refused.
#[derive(Debug, Clone, Copy, PartialEq, Eq)]
pub enum AttrError {
    /// The attribute's arguments are not a parenthesised list of items.
    Malformed,
    UnknownField,
    UnknownType,
    UnknownVariant,
    UnsupportedRepr,
    /// The key needs `= value`.
    ExpectedEq,
    /// The key takes no value.
    ExpectedComma,
    /// The value is not an integer literal that fits in a byte.
    BadInteger,
}

/// The message each refusal is reported with.
pub open spec fn attr_error_text(e: AttrError) -> Seq<char> {
    match e {
        AttrError::Malformed => "expected attribute arguments in parentheses"@,
        AttrError::UnknownField => "unknown field codec attribute"@,
        AttrError::UnknownType => "unknown type codec attribute"@,
        AttrError::UnknownVariant => "unknown variant codec attribute"@,
        AttrError::UnsupportedRepr => "unsupported repr type for codec"@,
        AttrError::ExpectedEq => "expected `=`"@,
        AttrError::ExpectedComma => "expected `,`"@,
        AttrError::BadInteger => "expected integer literal"@,
    }
}

impl AttrError {
    /// The message the derive reports.
    pub fn message(&self) -> (m: &'static str)
        ensures
            m@ == attr_error_text(*self),
    {
        match self {
            AttrError::Malformed => "expected attribute arguments in parentheses",
            AttrError::UnknownField => "unknown field codec attribute",
            AttrError::UnknownType => "unknown type codec attribute",
            AttrError::UnknownVariant => "unknown variant codec attribute",
            AttrError::UnsupportedRepr => "unsupported repr type for codec",
            AttrError::ExpectedEq => "expected `=`",
            AttrError::ExpectedComma => "expected `,`",
            AttrError::BadInteger => "expected integer literal",
        }
    }
}

/// A type as written in source, as far as the derive looks into it.
#[derive(Debug, PartialEq, Eq)]
pub enum TypeExpr {
    /// A path such as `Vec<u8>` or `std::string::String`.
    Path(Vec<PathSegment>),
    /// Any other type: a reference, a tuple, an array, ...
    Other,
}

/// One segment of a type path: its name and its arguments.
#[derive(Debug, PartialEq, Eq)]
pub struct PathSegment {
    pub ident: String,
    pub args: SegmentArgs,
}

/// The arguments of a path segment.
#[derive(Debug, PartialEq, Eq)]
pub enum SegmentArgs {
    /// No arguments.
    Plain,
    /// `<...>`.
    Angle(Vec<GenericArg>),
    /// `(...) -> ...`.
    Parenthesized,
}

/// One argument between angle brackets.
#[derive(Debug, PartialEq, Eq)]
pub enum GenericArg {
    Type(TypeExpr),
    /// A lifetime, a constant, a binding, ...
    Other,
}

/// `arg` is the type `u8`, written as a one-segment path.
pub open spec fn names_u8(arg: GenericArg) -> bool {
    arg matches GenericArg::Type(TypeExpr::Path(segs)) && segs@.len() == 1 && segs@[0].ident@ == "u8"@
}

/// `ty` is written `Vec<u8>`: a one-segment path `Vec` with one argument,
/// the one-segment path `u8`.
pub open spec fn vec_u8_type(ty: TypeExpr) -> bool {
    match ty {
        TypeExpr::Path(segs) => segs@.len() == 1 && segs@[0].ident@ == "Vec"@ && match segs@[0].args {
            SegmentArgs::Angle(args) => args@.len() == 1 && names_u8(args@[0]),
            _ => false,
        },
        TypeExpr::Other => false,
    }
}

/// Whether a field's type is written `Vec<u8>`, for which the derive uses
/// the byte-slice codec calls.
pub fn is_vec_u8(ty: &TypeExpr) -> (r: bool)
    ensures
        r == vec_u8_type(*ty),
{
    match ty {
        TypeExpr::Path(segs) => {
            if segs.len() != 1 || !is_named(&segs[0].ident, "Vec") {
                return false;
            }
            match &segs[0].args {
                SegmentArgs::Angle(args) => {
                    if args.len() != 1 {
                        return false;
                    }
                    match &args[0] {
                        GenericArg::Type(TypeExpr::Path(inner)) => inner.len() == 1 && is_named(&inner[0].ident, "u8"),
                        _ => false,
                    }
                },
                _ => false,
            }
        },
        TypeExpr::Other => false,
    }
}

/// How a field is encoded.
#[derive(Debug, Clone, PartialEq, Eq)]
pub struct FieldAttrs {
    pub varint32: bool,
    pub varint64: bool,
    pub json: bool,
    /// The source text of the expression that fixes the field's length.
    pub fixed_length: Option<String>,
    pub remaining: bool,
}

/// How a type is encoded.
#[derive(Debug, Clone, Copy, PartialEq, Eq)]
pub struct TypeAttrs {
    pub tagged: bool,
    pub varint32: bool,
    pub varint64: bool,
}

/// How an enum variant is encoded.
#[derive(Debug, Clone, Copy, PartialEq, Eq)]
pub struct VariantAttrs {
    pub packet_id: Option<u8>,
}

impl Default for FieldAttrs {
    fn default() -> (r: Self)
        ensures
            r == no_field_attrs(),
    {
        FieldAttrs { varint32: false, varint64: false, json: false, fixed_length: None, remaining: false }
    }
}

impl Default for TypeAttrs {
    fn default() -> (r: Self)
        ensures
            r == (TypeAttrs { tagged: false, varint32: false, varint64: false }),
    {
        TypeAttrs { tagged: false, varint32: false, varint64: false }
    }
}

impl Default for VariantAttrs {
    fn default() -> (r: Self)
        ensures
            r == (VariantAttrs { packet_id: None }),
    {
        VariantAttrs { packet_id: None }
    }
}

/// A field with no codec attribute.
pub open spec fn no_field_attrs() -> FieldAttrs {
    FieldAttrs { varint32: false, varint64: false, json: false, fixed_length: None, remaining: false }
}

/// A flag key: accepted alone, refused with a value after it.
pub open spec fn flag<A>(set: A, m: Meta) -> Result<A, AttrError> {
    match m.value {
        MetaValue::Bare => Ok(set),
        _ => Err(AttrError::ExpectedComma),
    }
}

/// One item of a type's `codec` attribute applied to what was read so far.
pub open spec fn type_step(acc: TypeAttrs, m: Meta) -> Result<TypeAttrs, AttrError> {
    if m.path@ == "tagged"@ {
        flag(TypeAttrs { tagged: true, ..acc }, m)
    } else if m.path@ == "varint32"@ {
        flag(TypeAttrs { varint32: true, ..acc }, m)
    } else if m.path@ == "varint64"@ {
        flag(TypeAttrs { varint64: true, ..acc }, m)
    } else {
        Err(AttrError::UnknownType)
    }
}

/// One item of a variant's `codec` attribute applied to what was read so far.
pub open spec fn variant_step(acc: VariantAttrs, m: Meta) -> Result<VariantAttrs, AttrError> {
    if m.path@ == "packet_id"@ {
        match m.value {
            MetaValue::Assigned { int_digits: Some(d), .. } => match spec_parse_u8(d@) {
                Some(id) => Ok(VariantAttrs { packet_id: Some(id) }),
                None => Err(AttrError::BadInteger),
            },
            MetaValue::Assigned { int_digits: None, .. } => Err(AttrError::BadInteger),
            _ => Err(AttrError::ExpectedEq),
        }
    } else {
        Err(AttrError::UnknownVariant)
    }
}

/// One item of a field's `codec` attribute applied to what was read so far;
/// `vari32` is another spelling of `varint32`.
pub open spec fn field_step(acc: FieldAttrs, m: Meta) -> Result<FieldAttrs, AttrError> {
    if m.path@ == "varint32"@ || m.path@ == "vari32"@ {
        flag(FieldAttrs { varint32: true, ..acc }, m)
    } else if m.path@ == "varint64"@ {
        flag(FieldAttrs { varint64: true, ..acc }, m)
    } else if m.path@ == "json"@ {
        flag(FieldAttrs { json: true, ..acc }, m)
    } else if m.path@ == "fixed_length"@ {
        match m.value {
            MetaValue::Assigned { text, .. } => Ok(FieldAttrs { fixed_length: Some(text), ..acc }),
            _ => Err(AttrError::ExpectedEq),
        }
    } else if m.path@ == "remaining"@ {
        flag(FieldAttrs { remaining: true, ..acc }, m)
    } else {
        Err(AttrError::UnknownField)
    }
}

/// The items of one attribute applied in order; the first refusal stops.
pub open spec fn fold_items<A>(acc: A, items: Seq<Meta>, step: spec_fn(A, Meta) -> Result<A, AttrError>) -> Result<A, AttrError>
    decreases items.len(),
{
    if items.len() == 0 {
        Ok(acc)
    } else {
        match fold_items(acc, items.drop_last(), step) {
            Ok(a) => step(a, items.last()),
            Err(e) => Err(e),
        }
    }
}

/// One attribute applied to what was read so far: only `codec` attributes
/// count, and theirs must be a list of items.
pub open spec fn codec_attr<A>(acc: A, attr: Attr, step: spec_fn(A, Meta) -> Result<A, AttrError>) -> Result<A, AttrError> {
    if attr.path@ == "codec"@ {
        match attr.items {
            Some(items) => fold_items(acc, items@, step),
            None => Err(AttrError::Malformed),
        }
    } else {
        Ok(acc)
    }
}

/// Every `codec` attribute of an item, in order, from nothing read.
pub open spec fn fold_codec<A>(acc: A, attrs: Seq<Attr>, step: spec_fn(A, Meta) -> Result<A, AttrError>) -> Result<A, AttrError>
    decreases attrs.len(),
{
    if attrs.len() == 0 {
        Ok(acc)
    } else {
        match fold_codec(acc, attrs.drop_last(), step) {
            Ok(a) => codec_attr(a, attrs.last(), step),
            Err(e) => Err(e),
        }
    }
}

/// What one attribute item does to the settings read so far, for each kind
/// of item that carries `codec` attributes.
pub trait CodecAttrs: Sized {
    spec fn step(self, m: Meta) -> Result<Self, AttrError>;

    fn apply(self, m: &Meta) -> (r: Result<Self, AttrError>)
        ensures
            r == self.step(*m),
    ;
}

/// The step of a kind of settings, as a function.
pub open spec fn steps<A: CodecAttrs>() -> spec_fn(A, Meta) -> Result<A, AttrError> {
    |a: A, m: Meta| a.step(m)
}

/// What a type's attributes say of its encoding.
pub open spec fn type_attrs_of(attrs: Seq<Attr>) -> Result<TypeAttrs, AttrError> {
    fold_codec(TypeAttrs { tagged: false, varint32: false, varint64: false }, attrs, steps::<TypeAttrs>())
}

/// What a variant's attributes say of its encoding.
pub open spec fn variant_attrs_of(attrs: Seq<Attr>) -> Result<VariantAttrs, AttrError> {
    fold_codec(VariantAttrs { packet_id: None }, attrs, steps::<VariantAttrs>())
}

/// What a field's attributes say of its encoding.
pub open spec fn field_attrs_of(attrs: Seq<Attr>) -> Result<FieldAttrs, AttrError> {
    fold_codec(no_field_attrs(), attrs, steps::<FieldAttrs>())
}

proof fn lemma_fold_items_step<A>(acc: A, items: Seq<Meta>, j: int, step: spec_fn(A, Meta) -> Result<A, AttrError>)
    requires
        0 <= j < items.len(),
    ensures
        fold_items(acc, items.take(j + 1), step) == match fold_items(acc, items.take(j), step) {
            Ok(a) => step(a, items[j]),
            Err(e) => Err(e),
        },
{
    assert(items.take(j + 1).drop_last() =~= items.take(j));
}

proof fn lemma_items_refusal_stands<A>(acc: A, items: Seq<Meta>, k: int, step: spec_fn(A, Meta) -> Result<A, AttrError>)
    requires
        0 <= k <= items.len(),
        fold_items(acc, items.take(k), step) is Err,
    ensures
        fold_items(acc, items, step) == fold_items(acc, items.take(k), step),
    decreases items.len() - k,
{
    if k < items.len() {
        lemma_fold_items_step(acc, items, k, step);
        lemma_items_refusal_stands(acc, items, k + 1, step);
    } else {
        assert(items.take(k) =~= items);
    }
}

proof fn lemma_fold_codec_step<A>(acc: A, attrs: Seq<Attr>, i: int, step: spec_fn(A, Meta) -> Result<A, AttrError>)
    requires
        0 <= i < attrs.len(),
    ensures
        fold_codec(acc, attrs.take(i + 1), step) == match fold_codec(acc, attrs.take(i), step) {
            Ok(a) => codec_attr(a, attrs[i], step),
            Err(e) => Err(e),
        },
{
    assert(attrs.take(i + 1).drop_last() =~= attrs.take(i));
}

proof fn lemma_codec_refusal_stands<A>(acc: A, attrs: Seq<Attr>, k: int, step: spec_fn(A, Meta) -> Result<A, AttrError>)
    requires
        0 <= k <= attrs.len(),
        fold_codec(acc, attrs.take(k), step) is Err,
    ensures
        fold_codec(acc, attrs, step) == fold_codec(acc, attrs.take(k), step),
    decreases attrs.len() - k,
{
    if k < attrs.len() {
        lemma_fold_codec_step(acc, attrs, k, step);
        lemma_codec_refusal_stands(acc, attrs, k + 1, step);
    } else {
        assert(attrs.take(k) =~= attrs);
    }
}

fn is_named(path: &String, name: &str) -> (r: bool)
    ensures
        r == (path@ == name@),
{
    *path == name.to_owned()
}

/// The items of every `codec` attribute applied in order to `init`.
fn read_codec<A: CodecAttrs>(init: A, attrs: &[Attr]) -> (r: Result<A, AttrError>)
    ensures
        r == fold_codec(init, attrs@, steps::<A>()),
{
    let ghost step = steps::<A>();
    let mut acc = init;
    let mut i: usize = 0;
    while i < attrs.len()
        invariant
            i <= attrs.len(),
            step == steps::<A>(),
            fold_codec(init, attrs@.take(i as int), step) == Ok::<A, AttrError>(acc),
        decreases attrs.len() - i,
    {
        let attr = &attrs[i];
        proof {
            lemma_fold_codec_step(init, attrs@, i as int, step);
        }
        if is_named(&attr.path, "codec") {
            match &attr.items {
                Some(items) => {
                    let ghost start = acc;
                    let mut j: usize = 0;
                    while j < items.len()
                        invariant
                            j <= items.len(),
                            i < attrs.len(),
                            attrs@[i as int] == *attr,
                            attr.path@ == "codec"@,
                            attr.items == Some(*items),
                            fold_codec(init, attrs@.take(i as int), step) == Ok::<A, AttrError>(start),
                            step == steps::<A>(),
                            fold_items(start, items@.take(j as int), step) == Ok::<A, AttrError>(acc),
                        decreases items.len() - j,
                    {
                        proof {
                            lemma_fold_items_step(start, items@, j as int, step);
                        }
                        match acc.apply(&items[j]) {
                            Ok(a) => {
                                acc = a;
                            },
                            Err(e) => {
                                proof {
                                    lemma_items_refusal_stands(start, items@, j + 1, step);
                                    lemma_fold_codec_step(init, attrs@, i as int, step);
                                    lemma_codec_refusal_stands(init, attrs@, i + 1, step);
                                }
                                return Err(e);
                            },
                        }
                        j += 1;
                    }
                    assert(items@.take(items.len() as int) =~= items@);
                },
                None => {
                    proof {
                        lemma_codec_refusal_stands(init, attrs@, i + 1, step);
                    }
                    return Err(AttrError::Malformed);
                },
            }
        }
        i += 1;
    }
    assert(attrs@.take(attrs.len() as int) =~= attrs@);
    Ok(acc)
}

/// What a type's `codec` attributes say: the flags `tagged`, `varint32` and
/// `varint64`; any other item is refused.
pub fn parse_type_attrs(attrs: &[Attr]) -> (r: Result<TypeAttrs, AttrError>)
    ensures
        r == type_attrs_of(attrs@),
{
    read_codec(TypeAttrs::default(), attrs)
}

/// What a variant's `codec` attributes say: `packet_id = N`, a byte.
pub fn parse_variant_attrs(attrs: &[Attr]) -> (r: Result<VariantAttrs, AttrError>)
    ensures
        r == variant_attrs_of(attrs@),
{
    read_codec(VariantAttrs::default(), attrs)
}

/// What a field's `codec` attributes say: the flags `varint32` (also spelt
/// `vari32`), `varint64`, `json` and `remaining`, and
/// `fixed_length = expression`.
pub fn parse_field_attrs(attrs: &[Attr]) -> (r: Result<FieldAttrs, AttrError>)
    ensures
        r == field_attrs_of(attrs@),
{
    read_codec(FieldAttrs::default(), attrs)
}

/// The integer representations a `repr` attribute may name.
pub open spec fn repr_name(p: Seq<char>) -> bool {
    p == "u8"@ || p == "i32"@ || p == "u32"@ || p == "i64"@ || p == "u64"@ || p == "i16"@ || p == "u16"@
}

/// One item of a `repr` attribute: a later name replaces an earlier one.
pub open spec fn repr_step(acc: Option<String>, m: Meta) -> Result<Option<String>, AttrError> {
    if repr_name(m.path@) {
        flag(Some(m.path), m)
    } else {
        Err(AttrError::UnsupportedRepr)
    }
}

/// `repr_step` as a function.
pub open spec fn repr_steps() -> spec_fn(Option<String>, Meta) -> Result<Option<String>, AttrError> {
    |a: Option<String>, m: Meta| repr_step(a, m)
}

/// The representation that the first `repr` attribute names; none without
/// one.
pub open spec fn repr_of(attrs: Seq<Attr>) -> Result<Option<String>, AttrError>
    decreases attrs.len(),
{
    if attrs.len() == 0 {
        Ok(None)
    } else if attrs[0].path@ == "repr"@ {
        match attrs[0].items {
            Some(items) => fold_items(None, items@, repr_steps()),
            None => Err(AttrError::Malformed),
        }
    } else {
        repr_of(attrs.drop_first())
    }
}

fn is_repr_name(path: &String) -> (r: bool)
    ensures
        r == repr_name(path@),
{
    is_named(path, "u8") || is_named(path, "i32") || is_named(path, "u32") || is_named(path, "i64")
        || is_named(path, "u64") || is_named(path, "i16") || is_named(path, "u16")
}

/// The integer representation that an enum's first `repr` attribute names,
/// for its discriminant on the wire; none where it has no `repr` attribute.
pub fn parse_repr_type(attrs: &[Attr]) -> (r: Result<Option<String>, AttrError>)
    ensures
        r == repr_of(attrs@),
{
    let mut i: usize = 0;
    assert(attrs@.skip(0) =~= attrs@);
    while i < attrs.len()
        invariant
            i <= attrs.len(),
            repr_of(attrs@) == repr_of(attrs@.skip(i as int)),
        decreases attrs.len() - i,
    {
        let attr = &attrs[i];
        assert(attrs@.skip(i as int).drop_first() =~= attrs@.skip(i + 1));
        assert(attrs@.skip(i as int)[0] == attrs@[i as int]);
        if is_named(&attr.path, "repr") {
            match &attr.items {
                Some(items) => {
                    let ghost step = repr_steps();
                    let mut acc: Option<String> = None;
                    let mut j: usize = 0;
                    while j < items.len()
                        invariant
                            j <= items.len(),
                            i < attrs.len(),
                            attrs@.skip(i as int)[0] == *attr,
                            attr.path@ == "repr"@,
                            attr.items == Some(*items),
                            repr_of(attrs@) == repr_of(attrs@.skip(i as int)),
                            step == repr_steps(),
                            fold_items(None, items@.take(j as int), step) == Ok::<Option<String>, AttrError>(acc),
                        decreases items.len() - j,
                    {
                        proof {
                            lemma_fold_items_step(None, items@, j as int, step);
                        }
                        let m = &items[j];
                        if !is_repr_name(&m.path) {
                            proof {
                                lemma_items_refusal_stands(None, items@, j + 1, step);
                            }
                            return Err(AttrError::UnsupportedRepr);
                        }
                        if !bare(m) {
                            proof {
                                lemma_items_refusal_stands(None, items@, j + 1, step);
                            }
                            return Err(AttrError::ExpectedComma);
                        }
                        acc = Some(m.path.clone());
                        j += 1;
                    }
                    assert(items@.take(items.len() as int) =~= items@);
                    return Ok(acc);
                },
                None => {
                    return Err(AttrError::Malformed);
                },
            }
        }
        i += 1;
    }
    Ok(None)
}

fn bare(m: &Meta) -> (b: bool)
    ensures
        b == (m.value is Bare),
{
    match m.value {
        MetaValue::Bare => true,
        _ => false,
    }
}

impl CodecAttrs for TypeAttrs {
    open spec fn step(self, m: Meta) -> Result<Self, AttrError> {
        type_step(self, m)
    }

    fn apply(self, m: &Meta) -> (r: Result<Self, AttrError>) {
        let set = if is_named(&m.path, "tagged") {
            TypeAttrs { tagged: true, ..self }
        } else if is_named(&m.path, "varint32") {
            TypeAttrs { varint32: true, ..self }
        } else if is_named(&m.path, "varint64") {
            TypeAttrs { varint64: true, ..self }
        } else {
            return Err(AttrError::UnknownType);
        };
        if bare(m) {
            Ok(set)
        } else {
            Err(AttrError::ExpectedComma)
        }
    }
}

impl CodecAttrs for VariantAttrs {
    open spec fn step(self, m: Meta) -> Result<Self, AttrError> {
        variant_step(self, m)
    }

    fn apply(self, m: &Meta) -> (r: Result<Self, AttrError>) {
        if !is_named(&m.path, "packet_id") {
            return Err(AttrError::UnknownVariant);
        }
        match &m.value {
            MetaValue::Assigned { int_digits: Some(d), .. } => match parse_u8(d.as_str()) {
                Ok(id) => Ok(VariantAttrs { packet_id: Some(id) }),
                Err(_) => Err(AttrError::BadInteger),
            },
            MetaValue::Assigned { int_digits: None, .. } => Err(AttrError::BadInteger),
            _ => Err(AttrError::ExpectedEq),
        }
    }
}

impl CodecAttrs for FieldAttrs {
    open spec fn step(self, m: Meta) -> Result<Self, AttrError> {
        field_step(self, m)
    }

    fn apply(self, m: &Meta) -> (r: Result<Self, AttrError>) {
        let set = if is_named(&m.path, "varint32") || is_named(&m.path, "vari32") {
            FieldAttrs { varint32: true, ..self }
        } else if is_named(&m.path, "varint64") {
            FieldAttrs { varint64: true, ..self }
        } else if is_named(&m.path, "json") {
            FieldAttrs { json: true, ..self }
        } else if is_named(&m.path, "fixed_length") {
            return match &m.value {
                MetaValue::Assigned { text, .. } => Ok(FieldAttrs { fixed_length: Some(text.clone()), ..self }),
                _ => Err(AttrError::ExpectedEq),
            };
        } else if is_named(&m.path, "remaining") {
            FieldAttrs { remaining: true, ..self }
        } else {
            return Err(AttrError::UnknownField);
        };
        if bare(m) {
            Ok(set)
        } else {
            Err(AttrError::ExpectedComma)
        }
    }
}

/// `str::parse::<u8>` from std: an optional `+` and decimal digits whose
/// value fits in a byte read as that value, anything else refused with the
/// parse error.
#[verifier::external_body]
fn parse_u8(text: &str) -> (r: Result<u8, ParseIntError>)
    ensures
        match r {
            Ok(v) => spec_parse_u8(text@) == Some(v),
            Err(_) => spec_parse_u8(text@) is None,
        },
{
    text.parse()
}

} // verus!
