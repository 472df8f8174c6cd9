use vstd::prelude::*;

use crate::attrs::{
    field_attrs_of, parse_field_attrs, parse_repr_type, parse_type_attrs, parse_variant_attrs,
    repr_of, type_attrs_of, attr_error_text, variant_attrs_of, vec_u8_type, is_vec_u8, Attr, AttrError, TypeExpr,
};

verus! {

/// A named field of a struct that derives the codec.
#[derive(Debug, PartialEq, Eq)]
pub struct FieldInput {
    pub name: String,
    pub attrs: Vec<Attr>,
    pub ty: TypeExpr,
}

/// The fields of an enum variant.
#[derive(Debug, Clone, Copy, PartialEq, Eq)]
pub enum VariantFields {
    Unit,
    /// Exactly one unnamed field.
    Newtype,
    Other,
}

/// A variant of an enum that derives the codec.
#[derive(Debug, Clone, PartialEq, Eq)]
pub struct VariantInput {
    pub name: String,
    pub attrs: Vec<Attr>,
    pub fields: VariantFields,
    /// The source text of the variant's explicit discriminant.
    pub discriminant: Option<String>,
}

/// What the item deriving the codec is made of.
#[derive(Debug, PartialEq, Eq)]
pub enum DataInput {
    NamedStruct(Vec<FieldInput>),
    TupleStruct,
    UnitStruct,
    Enum(Vec<VariantInput>),
    Union,
}

/// An item that derives `Encode` or `Decode`: its name, its attributes and
/// its shape.
#[derive(Debug, PartialEq, Eq)]
pub struct DeriveInput {
    pub name: String,
    pub attrs: Vec<Attr>,
    pub data: DataInput,
}

/// Which of the two codec traits is derived.
#[derive(Debug, Clone, Copy, PartialEq, Eq)]
pub enum Derive {
    Encode,
    Decode,
}

/// How one field goes on the wire.
#[derive(Debug, Clone, PartialEq, Eq)]
pub enum FieldCodec {
    VarI32,
    VarI64,
    /// As a JSON string.
    Json,
    /// Raw bytes, as many as the expression says, with no length prefix.
    FixedBytes(String),
    /// Items one after the other, as many as the expression says, with no
    /// length prefix.
    FixedVec(String),
    /// Raw bytes up to the end of the input.
    RemainingBytes,
    /// The field type's own codec.
    Plain,
}

/// A field and how it goes on the wire.
#[derive(Debug, Clone, PartialEq, Eq)]
pub struct FieldPlan {
    pub name: String,
    pub codec: FieldCodec,
}

/// A variant of a tagged enum and the packet id that leads it on the wire.
#[derive(Debug, Clone, PartialEq, Eq)]
pub struct TaggedVariant {
    pub name: String,
    pub packet_id: u8,
}

/// A variant of a `repr` enum and its discriminant's source text.
#[derive(Debug, Clone, PartialEq, Eq)]
pub struct ReprVariant {
    pub name: String,
    pub discriminant: String,
}

/// How a `repr` enum's discriminant goes on the wire.
#[derive(Debug, Clone, Copy, PartialEq, Eq)]
pub enum DiscriminantWire {
    VarI32,
    VarI64,
    /// As the `repr` integer type itself.
    Fixed,
}

/// What the derived impl does: the codec calls it makes, in order.
#[derive(Debug, Clone, PartialEq, Eq)]
pub enum CodecPlan {
    /// Each field in order.
    Struct(Vec<FieldPlan>),
    /// Nothing at all.
    UnitStruct,
    /// The variant's packet id as a single byte, then its one field. With
    /// `from_impls`, the enum also converts from each variant's field type
    /// (the `Encode` derive gives these `From` impls).
    Tagged { variants: Vec<TaggedVariant>, from_impls: bool },
    /// The variant's discriminant, as the `repr` type names.
    Repr { repr: String, wire: DiscriminantWire, variants: Vec<ReprVariant> },
}

/// The plan as a mathematical value.
pub enum PlanView {
    Struct(Seq<FieldPlan>),
    UnitStruct,
    Tagged { variants: Seq<TaggedVariant>, from_impls: bool },
    Repr { repr: String, wire: DiscriminantWire, variants: Seq<ReprVariant> },
}

impl View for CodecPlan {
    type V = PlanView;

    open spec fn view(&self) -> PlanView {
        match self {
            CodecPlan::Struct(fields) => PlanView::Struct(fields@),
            CodecPlan::UnitStruct => PlanView::UnitStruct,
            CodecPlan::Tagged { variants, from_impls } => PlanView::Tagged { variants: variants@, from_impls: *from_impls },
            CodecPlan::Repr { repr, wire, variants } => PlanView::Repr {
                repr: *repr,
                wire: *wire,
                variants: variants@,
            },
        }
    }
}

/// Why the codec cannot be derived for an item.
#[derive(Debug, Clone, Copy, PartialEq, Eq)]
pub enum DeriveError {
    Attr(AttrError),
    TupleStruct(Derive),
    RemainingNeedsBytes,
    MissingPacketId,
    NotNewtypeVariant,
    MissingDiscriminant,
    NotUnitVariant,
    EnumWithoutLayout(Derive),
    Union,
}

/// The message each refusal is reported with.
pub open spec fn derive_error_text(e: DeriveError) -> Seq<char> {
    match e {
        DeriveError::Attr(a) => attr_error_text(a),
        DeriveError::TupleStruct(Derive::Encode) => "Encode derive for tuple structs is not supported"@,
        DeriveError::TupleStruct(Derive::Decode) => "Decode derive for tuple structs is not supported"@,
        DeriveError::RemainingNeedsBytes => "remaining attribute only works with Vec<u8>"@,
        DeriveError::MissingPacketId => "tagged enum variant must have #[codec(packet_id = ...)] attribute"@,
        DeriveError::NotNewtypeVariant => "Enum variant must have exactly one unnamed field"@,
        DeriveError::MissingDiscriminant => "repr enum variant must have explicit discriminant"@,
        DeriveError::NotUnitVariant => "repr enum variant must be a unit variant"@,
        DeriveError::EnumWithoutLayout(Derive::Encode) =>
            "Enum Encode derive requires #[codec(tagged)] attribute or #[repr(...)] attribute"@,
        DeriveError::EnumWithoutLayout(Derive::Decode) =>
            "Enum Decode derive requires #[codec(tagged)] attribute or #[repr(...)] attribute"@,
        DeriveError::Union => "Unions are not supported"@,
    }
}

impl DeriveError {
    /// The message the derive reports.
    pub fn message(&self) -> (m: &'static str)
        ensures
            m@ == derive_error_text(*self),
    {
        match self {
            DeriveError::Attr(e) => e.message(),
            DeriveError::TupleStruct(Derive::Encode) => "Encode derive for tuple structs is not supported",
            DeriveError::TupleStruct(Derive::Decode) => "Decode derive for tuple structs is not supported",
            DeriveError::RemainingNeedsBytes => "remaining attribute only works with Vec<u8>",
            DeriveError::MissingPacketId => "tagged enum variant must have #[codec(packet_id = ...)] attribute",
            DeriveError::NotNewtypeVariant => "Enum variant must have exactly one unnamed field",
            DeriveError::MissingDiscriminant => "repr enum variant must have explicit discriminant",
            DeriveError::NotUnitVariant => "repr enum variant must be a unit variant",
            DeriveError::EnumWithoutLayout(Derive::Encode) => "Enum Encode derive requires #[codec(tagged)] attribute or #[repr(...)] attribute",
            DeriveError::EnumWithoutLayout(Derive::Decode) => "Enum Decode derive requires #[codec(tagged)] attribute or #[repr(...)] attribute",
            DeriveError::Union => "Unions are not supported",
        }
    }
}

/// The results in order, or the first refusal among them.
pub open spec fn collect<T>(rs: Seq<Result<T, DeriveError>>) -> Result<Seq<T>, DeriveError>
    decreases rs.len(),
{
    if rs.len() == 0 {
        Ok(Seq::empty())
    } else {
        match collect(rs.drop_last()) {
            Ok(s) => match rs.last() {
                Ok(x) => Ok(s.push(x)),
                Err(e) => Err(e),
            },
            Err(e) => Err(e),
        }
    }
}

/// How a field goes on the wire: the first of its settings that applies, in
/// the order varint32, varint64, json, fixed length, remaining.
pub open spec fn field_plan_of(f: FieldInput) -> Result<FieldPlan, DeriveError> {
    match field_attrs_of(f.attrs@) {
        Err(e) => Err(DeriveError::Attr(e)),
        Ok(a) => {
            let codec = if a.varint32 {
                Ok(FieldCodec::VarI32)
            } else if a.varint64 {
                Ok(FieldCodec::VarI64)
            } else if a.json {
                Ok(FieldCodec::Json)
            } else if a.fixed_length is Some {
                if vec_u8_type(f.ty) {
                    Ok(FieldCodec::FixedBytes(a.fixed_length->0))
                } else {
                    Ok(FieldCodec::FixedVec(a.fixed_length->0))
                }
            } else if a.remaining {
                if vec_u8_type(f.ty) {
                    Ok(FieldCodec::RemainingBytes)
                } else {
                    Err(DeriveError::RemainingNeedsBytes)
                }
            } else {
                Ok(FieldCodec::Plain)
            };
            match codec {
                Ok(c) => Ok(FieldPlan { name: f.name, codec: c }),
                Err(e) => Err(e),
            }
        },
    }
}

/// A tagged enum's variant: it needs a packet id and exactly one unnamed
/// field.
pub open spec fn tagged_variant_of(v: VariantInput) -> Result<TaggedVariant, DeriveError> {
    match variant_attrs_of(v.attrs@) {
        Err(e) => Err(DeriveError::Attr(e)),
        Ok(a) => match a.packet_id {
            None => Err(DeriveError::MissingPacketId),
            Some(id) => match v.fields {
                VariantFields::Newtype => Ok(TaggedVariant { name: v.name, packet_id: id }),
                _ => Err(DeriveError::NotNewtypeVariant),
            },
        },
    }
}

/// A `repr` enum's variant: it needs to be a unit variant with an explicit
/// discriminant.
pub open spec fn repr_variant_of(v: VariantInput) -> Result<ReprVariant, DeriveError> {
    match v.fields {
        VariantFields::Unit => match v.discriminant {
            Some(d) => Ok(ReprVariant { name: v.name, discriminant: d }),
            None => Err(DeriveError::MissingDiscriminant),
        },
        _ => Err(DeriveError::NotUnitVariant),
    }
}

/// What deriving the codec for `input` does, or why it is refused. The type's
/// `codec` attributes are read first, and an enum's `repr` attribute next.
pub open spec fn plan_of(input: DeriveInput, derive: Derive) -> Result<PlanView, DeriveError> {
    match type_attrs_of(input.attrs@) {
        Err(e) => Err(DeriveError::Attr(e)),
        Ok(t) => match input.data {
            DataInput::NamedStruct(fields) => match collect(
                fields@.map_values(|f: FieldInput| field_plan_of(f)),
            ) {
                Ok(ps) => Ok(PlanView::Struct(ps)),
                Err(e) => Err(e),
            },
            DataInput::TupleStruct => Err(DeriveError::TupleStruct(derive)),
            DataInput::UnitStruct => Ok(PlanView::UnitStruct),
            DataInput::Enum(variants) => match repr_of(input.attrs@) {
                Err(e) => Err(DeriveError::Attr(e)),
                Ok(repr) => if t.tagged {
                    match collect(variants@.map_values(|v: VariantInput| tagged_variant_of(v))) {
                        Ok(vs) => Ok(PlanView::Tagged { variants: vs, from_impls: derive == Derive::Encode }),
                        Err(e) => Err(e),
                    }
                } else if repr is Some {
                    match collect(variants@.map_values(|v: VariantInput| repr_variant_of(v))) {
                        Ok(vs) => Ok(PlanView::Repr {
                            repr: repr->0,
                            wire: if t.varint32 {
                                DiscriminantWire::VarI32
                            } else if t.varint64 {
                                DiscriminantWire::VarI64
                            } else {
                                DiscriminantWire::Fixed
                            },
                            variants: vs,
                        }),
                        Err(e) => Err(e),
                    }
                } else {
                    Err(DeriveError::EnumWithoutLayout(derive))
                },
            },
            DataInput::Union => Err(DeriveError::Union),
        },
    }
}

/// A result with its plan taken by its view.
pub open spec fn plan_result_view(r: Result<CodecPlan, DeriveError>) -> Result<PlanView, DeriveError> {
    match r {
        Ok(p) => Ok(p@),
        Err(e) => Err(e),
    }
}

proof fn lemma_collect_step<T>(rs: Seq<Result<T, DeriveError>>, i: int)
    requires
        0 <= i < rs.len(),
    ensures
        collect(rs.take(i + 1)) == match collect(rs.take(i)) {
            Ok(s) => match rs[i] {
                Ok(x) => Ok(s.push(x)),
                Err(e) => Err(e),
            },
            Err(e) => Err(e),
        },
{
    assert(rs.take(i + 1).drop_last() =~= rs.take(i));
}

proof fn lemma_refusal_stands<T>(rs: Seq<Result<T, DeriveError>>, k: int)
    requires
        0 <= k <= rs.len(),
        collect(rs.take(k)) is Err,
    ensures
        collect(rs) == collect(rs.take(k)),
    decreases rs.len() - k,
{
    if k < rs.len() {
        lemma_collect_step(rs, k);
        lemma_refusal_stands(rs, k + 1);
    } else {
        assert(rs.take(k) =~= rs);
    }
}

fn field_plan(f: &FieldInput) -> (r: Result<FieldPlan, DeriveError>)
    ensures
        r == field_plan_of(*f),
{
    let a = match parse_field_attrs(f.attrs.as_slice()) {
        Ok(a) => a,
        Err(e) => return Err(DeriveError::Attr(e)),
    };
    let vec_u8 = is_vec_u8(&f.ty);
    let codec = if a.varint32 {
        FieldCodec::VarI32
    } else if a.varint64 {
        FieldCodec::VarI64
    } else if a.json {
        FieldCodec::Json
    } else if let Some(text) = a.fixed_length {
        if vec_u8 {
            FieldCodec::FixedBytes(text)
        } else {
            FieldCodec::FixedVec(text)
        }
    } else if a.remaining {
        if vec_u8 {
            FieldCodec::RemainingBytes
        } else {
            return Err(DeriveError::RemainingNeedsBytes);
        }
    } else {
        FieldCodec::Plain
    };
    Ok(FieldPlan { name: f.name.clone(), codec })
}

fn tagged_variant(v: &VariantInput) -> (r: Result<TaggedVariant, DeriveError>)
    ensures
        r == tagged_variant_of(*v),
{
    let a = match parse_variant_attrs(v.attrs.as_slice()) {
        Ok(a) => a,
        Err(e) => return Err(DeriveError::Attr(e)),
    };
    match a.packet_id {
        None => Err(DeriveError::MissingPacketId),
        Some(id) => match v.fields {
            VariantFields::Newtype => Ok(TaggedVariant { name: v.name.clone(), packet_id: id }),
            _ => Err(DeriveError::NotNewtypeVariant),
        },
    }
}

fn repr_variant(v: &VariantInput) -> (r: Result<ReprVariant, DeriveError>)
    ensures
        r == repr_variant_of(*v),
{
    match v.fields {
        VariantFields::Unit => match &v.discriminant {
            Some(d) => Ok(ReprVariant { name: v.name.clone(), discriminant: d.clone() }),
            None => Err(DeriveError::MissingDiscriminant),
        },
        _ => Err(DeriveError::NotUnitVariant),
    }
}

fn field_plans(fields: &Vec<FieldInput>) -> (r: Result<Vec<FieldPlan>, DeriveError>)
    ensures
        match r {
            Ok(ps) => collect(fields@.map_values(|f: FieldInput| field_plan_of(f))) == Ok::<Seq<FieldPlan>, DeriveError>(ps@),
            Err(e) => collect(fields@.map_values(|f: FieldInput| field_plan_of(f))) == Err::<Seq<FieldPlan>, DeriveError>(e),
        },
{
    let ghost rs = fields@.map_values(|f: FieldInput| field_plan_of(f));
    let mut out: Vec<FieldPlan> = Vec::new();
    let mut i: usize = 0;
    while i < fields.len()
        invariant
            i <= fields.len(),
            rs == fields@.map_values(|f: FieldInput| field_plan_of(f)),
            collect(rs.take(i as int)) == Ok::<Seq<FieldPlan>, DeriveError>(out@),
        decreases fields.len() - i,
    {
        proof {
            lemma_collect_step(rs, i as int);
        }
        match field_plan(&fields[i]) {
            Ok(p) => out.push(p),
            Err(e) => {
                proof {
                    lemma_refusal_stands(rs, i + 1);
                }
                return Err(e);
            },
        }
        i += 1;
    }
    assert(rs.take(fields.len() as int) =~= rs);
    Ok(out)
}

fn tagged_variants(variants: &Vec<VariantInput>) -> (r: Result<Vec<TaggedVariant>, DeriveError>)
    ensures
        match r {
            Ok(vs) => collect(variants@.map_values(|v: VariantInput| tagged_variant_of(v))) == Ok::<Seq<TaggedVariant>, DeriveError>(vs@),
            Err(e) => collect(variants@.map_values(|v: VariantInput| tagged_variant_of(v))) == Err::<Seq<TaggedVariant>, DeriveError>(e),
        },
{
    let ghost rs = variants@.map_values(|v: VariantInput| tagged_variant_of(v));
    let mut out: Vec<TaggedVariant> = Vec::new();
    let mut i: usize = 0;
    while i < variants.len()
        invariant
            i <= variants.len(),
            rs == variants@.map_values(|v: VariantInput| tagged_variant_of(v)),
            collect(rs.take(i as int)) == Ok::<Seq<TaggedVariant>, DeriveError>(out@),
        decreases variants.len() - i,
    {
        proof {
            lemma_collect_step(rs, i as int);
        }
        match tagged_variant(&variants[i]) {
            Ok(v) => out.push(v),
            Err(e) => {
                proof {
                    lemma_refusal_stands(rs, i + 1);
                }
                return Err(e);
            },
        }
        i += 1;
    }
    assert(rs.take(variants.len() as int) =~= rs);
    Ok(out)
}

fn repr_variants(variants: &Vec<VariantInput>) -> (r: Result<Vec<ReprVariant>, DeriveError>)
    ensures
        match r {
            Ok(vs) => collect(variants@.map_values(|v: VariantInput| repr_variant_of(v))) == Ok::<Seq<ReprVariant>, DeriveError>(vs@),
            Err(e) => collect(variants@.map_values(|v: VariantInput| repr_variant_of(v))) == Err::<Seq<ReprVariant>, DeriveError>(e),
        },
{
    let ghost rs = variants@.map_values(|v: VariantInput| repr_variant_of(v));
    let mut out: Vec<ReprVariant> = Vec::new();
    let mut i: usize = 0;
    while i < variants.len()
        invariant
            i <= variants.len(),
            rs == variants@.map_values(|v: VariantInput| repr_variant_of(v)),
            collect(rs.take(i as int)) == Ok::<Seq<ReprVariant>, DeriveError>(out@),
        decreases variants.len() - i,
    {
        proof {
            lemma_collect_step(rs, i as int);
        }
        match repr_variant(&variants[i]) {
            Ok(v) => out.push(v),
            Err(e) => {
                proof {
                    lemma_refusal_stands(rs, i + 1);
                }
                return Err(e);
            },
        }
        i += 1;
    }
    assert(rs.take(variants.len() as int) =~= rs);
    Ok(out)
}

fn plan(input: &DeriveInput, derive: Derive) -> (r: Result<CodecPlan, DeriveError>)
    ensures
        plan_result_view(r) == plan_of(*input, derive),
{
    let t = match parse_type_attrs(input.attrs.as_slice()) {
        Ok(t) => t,
        Err(e) => return Err(DeriveError::Attr(e)),
    };
    match &input.data {
        DataInput::NamedStruct(fields) => match field_plans(fields) {
            Ok(ps) => Ok(CodecPlan::Struct(ps)),
            Err(e) => Err(e),
        },
        DataInput::TupleStruct => Err(DeriveError::TupleStruct(derive)),
        DataInput::UnitStruct => Ok(CodecPlan::UnitStruct),
        DataInput::Enum(variants) => {
            let repr = match parse_repr_type(input.attrs.as_slice()) {
                Ok(repr) => repr,
                Err(e) => return Err(DeriveError::Attr(e)),
            };
            if t.tagged {
                match tagged_variants(variants) {
                    Ok(vs) => Ok(CodecPlan::Tagged { variants: vs, from_impls: match derive {
                        Derive::Encode => true,
                        Derive::Decode => false,
                    } }),
                    Err(e) => Err(e),
                }
            } else if let Some(repr) = repr {
                match repr_variants(variants) {
                    Ok(vs) => {
                        let wire = if t.varint32 {
                            DiscriminantWire::VarI32
                        } else if t.varint64 {
                            DiscriminantWire::VarI64
                        } else {
                            DiscriminantWire::Fixed
                        };
                        Ok(CodecPlan::Repr { repr, wire, variants: vs })
                    },
                    Err(e) => Err(e),
                }
            } else {
                Err(DeriveError::EnumWithoutLayout(derive))
            }
        },
        DataInput::Union => Err(DeriveError::Union),
    }
}

/// What `#[derive(Encode)]` makes of `input`: the codec calls of the derived
/// `encode`, in order, or why it is refused.
pub fn derive_encode(input: &DeriveInput) -> (r: Result<CodecPlan, DeriveError>)
    ensures
        plan_result_view(r) == plan_of(*input, Derive::Encode),
{
    plan(input, Derive::Encode)
}

/// What `#[derive(Decode)]` makes of `input`: the codec calls of the derived
/// `decode_with`, in order, or why it is refused.
pub fn derive_decode(input: &DeriveInput) -> (r: Result<CodecPlan, DeriveError>)
    ensures
        plan_result_view(r) == plan_of(*input, Derive::Decode),
{
    plan(input, Derive::Decode)
}

proof fn lemma_collect_ok<T>(rs: Seq<Result<T, DeriveError>>, s: Seq<T>)
    requires
        collect(rs) == Ok::<Seq<T>, DeriveError>(s),
    ensures
        s.len() == rs.len(),
        forall|i: int| 0 <= i < rs.len() ==> rs[i] == Ok::<T, DeriveError>(#[trigger] s[i]),
    decreases rs.len(),
{
    if rs.len() > 0 {
        let prefix = collect(rs.drop_last());
        let p = prefix->Ok_0;
        lemma_collect_ok(rs.drop_last(), p);
        assert(s == p.push(rs.last()->Ok_0));
        assert forall|i: int| 0 <= i < rs.len() implies rs[i] == Ok::<T, DeriveError>(#[trigger] s[i]) by {
            if i < rs.len() - 1 {
                assert(rs.drop_last()[i] == rs[i]);
            }
        }
    }
}

/// A derived codec handles every field of a struct, in the order the struct
/// declares them, each with the codec its own attributes and type select.
pub proof fn the_derive_keeps_every_field_in_order(input: DeriveInput, derive: Derive, fields: Seq<FieldPlan>)
    requires
        input.data is NamedStruct,
        plan_of(input, derive) == Ok::<PlanView, DeriveError>(PlanView::Struct(fields)),
    ensures
        fields.len() == input.data->NamedStruct_0@.len(),
        forall|i: int|
            0 <= i < fields.len() ==> field_plan_of(input.data->NamedStruct_0@[i]) == Ok::<FieldPlan, DeriveError>(
                #[trigger] fields[i],
            ),
        forall|i: int| 0 <= i < fields.len() ==> #[trigger] fields[i].name == input.data->NamedStruct_0@[i].name,
{
    let fs = input.data->NamedStruct_0@;
    let rs = fs.map_values(|f: FieldInput| field_plan_of(f));
    lemma_collect_ok(rs, fields);
    assert forall|i: int| 0 <= i < fields.len() implies field_plan_of(fs[i]) == Ok::<FieldPlan, DeriveError>(
        #[trigger] fields[i],
    ) by {
        assert(rs[i] == field_plan_of(fs[i]));
    }
    assert forall|i: int| 0 <= i < fields.len() implies #[trigger] fields[i].name == fs[i].name by {
        assert(rs[i] == field_plan_of(fs[i]));
    }
}


/// How a field is coded follows its attributes, the first that applies
/// winning: `varint32`, then `varint64`, then `json`, then a fixed length
/// (raw bytes for a `Vec<u8>`, items otherwise), then `remaining` (only for a
/// `Vec<u8>`); a field with none of them uses its own codec. The field keeps
/// its name, and an attribute the parser refuses is reported.
pub proof fn fields_are_coded_as_their_attributes_say(f: FieldInput)
    ensures
        field_attrs_of(f.attrs@) matches Err(e) ==> field_plan_of(f) == Err::<FieldPlan, DeriveError>(
            DeriveError::Attr(e),
        ),
        field_attrs_of(f.attrs@) matches Ok(a) ==> {
            let plan = |c: FieldCodec| Ok::<FieldPlan, DeriveError>(FieldPlan { name: f.name, codec: c });
            &&& a.varint32 ==> field_plan_of(f) == plan(FieldCodec::VarI32)
            &&& !a.varint32 && a.varint64 ==> field_plan_of(f) == plan(FieldCodec::VarI64)
            &&& !a.varint32 && !a.varint64 && a.json ==> field_plan_of(f) == plan(FieldCodec::Json)
            &&& !a.varint32 && !a.varint64 && !a.json && a.fixed_length is Some ==> field_plan_of(f) == plan(
                if vec_u8_type(f.ty) {
                    FieldCodec::FixedBytes(a.fixed_length->0)
                } else {
                    FieldCodec::FixedVec(a.fixed_length->0)
                },
            )
            &&& !a.varint32 && !a.varint64 && !a.json && a.fixed_length is None && a.remaining ==> field_plan_of(f)
                == if vec_u8_type(f.ty) {
                    plan(FieldCodec::RemainingBytes)
                } else {
                    Err::<FieldPlan, DeriveError>(DeriveError::RemainingNeedsBytes)
                }
            &&& !a.varint32 && !a.varint64 && !a.json && a.fixed_length is None && !a.remaining ==> field_plan_of(f)
                == plan(FieldCodec::Plain)
        },
{
}

/// Collecting results keeps every success in order when all succeed, and
/// gives the first refusal otherwise.
pub proof fn collecting_keeps_order_or_gives_the_first_refusal<T>(rs: Seq<Result<T, DeriveError>>)
    ensures
        (forall|i: int| 0 <= i < rs.len() ==> #[trigger] rs[i] is Ok) ==> (collect(rs) matches Ok(xs)
            && xs.len() == rs.len() && forall|i: int| 0 <= i < rs.len() ==> Ok::<T, DeriveError>(#[trigger] xs[i]) == rs[i]),
        forall|k: int|
            0 <= k < rs.len() && #[trigger] rs[k] is Err && (forall|j: int| 0 <= j < k ==> #[trigger] rs[j] is Ok)
                ==> collect(rs) == Err::<Seq<T>, DeriveError>(rs[k]->Err_0),
    decreases rs.len(),
{
    if rs.len() > 0 {
        let init = rs.drop_last();
        collecting_keeps_order_or_gives_the_first_refusal(init);
        assert forall|i: int| 0 <= i < init.len() implies #[trigger] init[i] == rs[i] by {}
        assert forall|k: int|
            0 <= k < rs.len() && #[trigger] rs[k] is Err && (forall|j: int| 0 <= j < k ==> #[trigger] rs[j] is Ok)
                implies collect(rs) == Err::<Seq<T>, DeriveError>(rs[k]->Err_0) by {
            if k < rs.len() - 1 {
                assert(init[k] is Err);
                assert forall|j: int| 0 <= j < k implies #[trigger] init[j] is Ok by {
                    assert(rs[j] is Ok);
                }
            } else {
                assert forall|i: int| 0 <= i < init.len() implies #[trigger] init[i] is Ok by {
                    assert(rs[i] is Ok);
                }
            }
        }
        if forall|i: int| 0 <= i < rs.len() ==> #[trigger] rs[i] is Ok {
            assert forall|i: int| 0 <= i < init.len() implies #[trigger] init[i] is Ok by {
                assert(rs[i] is Ok);
            }
            assert(rs[rs.len() - 1] is Ok);
        }
    }
}

/// A named struct is planned field by field in order: when every field can
/// be planned, the plan has each field's own plan at its place; otherwise
/// the first field that cannot be planned gives the refusal.
pub proof fn struct_fields_are_planned_in_order(input: DeriveInput, derive: Derive)
    requires
        type_attrs_of(input.attrs@) is Ok,
        input.data is NamedStruct,
    ensures
        ({
            let fields = input.data->NamedStruct_0@;
            &&& (forall|i: int| 0 <= i < fields.len() ==> #[trigger] field_plan_of(fields[i]) is Ok)
                ==> (plan_of(input, derive) matches Ok(PlanView::Struct(ps)) && ps.len() == fields.len()
                && forall|i: int| 0 <= i < fields.len() ==> Ok::<FieldPlan, DeriveError>(#[trigger] ps[i])
                == field_plan_of(fields[i]))
            &&& forall|k: int|
                0 <= k < fields.len() && #[trigger] field_plan_of(fields[k]) is Err && (forall|j: int|
                    0 <= j < k ==> #[trigger] field_plan_of(fields[j]) is Ok) ==> plan_of(input, derive)
                    == Err::<PlanView, DeriveError>(field_plan_of(fields[k])->Err_0)
        }),
{
    let fields = input.data->NamedStruct_0@;
    let rs = fields.map_values(|f: FieldInput| field_plan_of(f));
    collecting_keeps_order_or_gives_the_first_refusal(rs);
    assert forall|i: int| 0 <= i < fields.len() implies #[trigger] rs[i] == field_plan_of(fields[i]) by {}
    if forall|i: int| 0 <= i < fields.len() ==> #[trigger] field_plan_of(fields[i]) is Ok {
        assert forall|i: int| 0 <= i < rs.len() implies #[trigger] rs[i] is Ok by {
            assert(field_plan_of(fields[i]) is Ok);
        }
    }
    assert forall|k: int|
        0 <= k < fields.len() && #[trigger] field_plan_of(fields[k]) is Err && (forall|j: int|
            0 <= j < k ==> #[trigger] field_plan_of(fields[j]) is Ok) implies plan_of(input, derive)
            == Err::<PlanView, DeriveError>(field_plan_of(fields[k])->Err_0) by {
        assert(rs[k] is Err);
        assert forall|j: int| 0 <= j < k implies #[trigger] rs[j] is Ok by {
            assert(field_plan_of(fields[j]) is Ok);
        }
    }
}

/// An enum is laid out as its attributes say: a tagged enum leads each
/// variant with its packet id and, derived for encoding only, converts from
/// each variant's field; otherwise a `repr` enum writes its discriminant as
/// a 32-bit or 64-bit varint when asked, else as the `repr` integer; an enum
/// with neither is refused.
pub proof fn enums_are_laid_out_as_their_attributes_say(input: DeriveInput, derive: Derive)
    requires
        input.data is Enum,
        type_attrs_of(input.attrs@) is Ok,
        repr_of(input.attrs@) is Ok,
    ensures
        ({
            let t = type_attrs_of(input.attrs@)->Ok_0;
            let repr = repr_of(input.attrs@)->Ok_0;
            &&& t.tagged ==> (plan_of(input, derive) matches Ok(p) ==> (p matches PlanView::Tagged {
                from_impls,
                ..
            } && from_impls == (derive == Derive::Encode)))
            &&& !t.tagged && repr is Some ==> (plan_of(input, derive) matches Ok(p) ==> (p matches PlanView::Repr {
                repr: r,
                wire,
                ..
            } && r == repr->0 && wire == (if t.varint32 {
                DiscriminantWire::VarI32
            } else if t.varint64 {
                DiscriminantWire::VarI64
            } else {
                DiscriminantWire::Fixed
            })))
            &&& !t.tagged && repr is None ==> plan_of(input, derive) == Err::<PlanView, DeriveError>(
                DeriveError::EnumWithoutLayout(derive),
            )
        }),
{
}
} // verus!
