//! What the encoder writes: a model of values and of their encoded length, and
//! the proof that the computed bound covers every value of a descriptor.
use vstd::prelude::*;
use crate::laws::{lemma_variants_max, lemma_variants_unknown};
use crate::max_size::{
    dmt_bound, discriminant_len, fields_bound, pow128, types_bound, variant_bound,
    variants_bound, varint_len,
};
use crate::schema::{DataModelType, DataModelVariant, NamedType, NamedValue};

verus! {

/// A value as the encoder sees it, reduced to what decides its encoded length.
pub enum Value {
    Bool(bool),
    /// Any integer scalar.
    Int(int),
    /// Any floating-point scalar.
    Float,
    Char(char),
    /// The bytes of a string or of a byte array.
    Bytes(Seq<u8>),
    /// An absent optional value.
    Absent,
    /// A present optional value.
    Present(Box<Value>),
    Unit,
    /// Elements of a sequence or tuple, or the fields of a struct.
    Items(Seq<Value>),
    /// The keys and the values of a map, entry by entry.
    Entries(Seq<Value>, Seq<Value>),
    /// The ordinal of an enum variant and its payload.
    Variant(nat, Box<Value>),
}

/// Zig-zag transform applied to signed integers before varint encoding.
pub open spec fn zigzag(i: int) -> nat {
    if i >= 0 {
        (2 * i) as nat
    } else {
        (-2 * i - 1) as nat
    }
}

/// Bytes taken by `c` in UTF-8.
pub open spec fn utf8_len(c: char) -> nat {
    let n = c as u32;
    if n < 0x80 {
        1
    } else if n < 0x800 {
        2
    } else if n < 0x10000 {
        3
    } else {
        4
    }
}

/// `max_len` admits a count of `n`.
pub open spec fn within(max_len: Option<usize>, n: nat) -> bool {
    match max_len {
        Some(m) => n <= m,
        None => true,
    }
}

/// `v` is a value of the shape `d`, within its declared bounds.
pub open spec fn conforms(d: DataModelType, v: Value) -> bool
    decreases d, 0nat,
{
    match d {
        DataModelType::Bool => v is Bool,
        DataModelType::I8 => v is Int && -0x80 <= v->Int_0 < 0x80,
        DataModelType::U8 => v is Int && 0 <= v->Int_0 < 0x100,
        DataModelType::I16 => v is Int && -0x8000 <= v->Int_0 < 0x8000,
        DataModelType::I32 => v is Int && -0x8000_0000 <= v->Int_0 < 0x8000_0000,
        DataModelType::I64 => v is Int && -0x8000_0000_0000_0000 <= v->Int_0 < 0x8000_0000_0000_0000,
        DataModelType::I128 => v is Int && -0x8000_0000_0000_0000_0000_0000_0000_0000 <= v->Int_0
            < 0x8000_0000_0000_0000_0000_0000_0000_0000,
        DataModelType::U16 => v is Int && 0 <= v->Int_0 < 0x1_0000,
        DataModelType::U32 => v is Int && 0 <= v->Int_0 < 0x1_0000_0000,
        DataModelType::U64 => v is Int && 0 <= v->Int_0 < 0x1_0000_0000_0000_0000,
        DataModelType::U128 => v is Int && 0 <= v->Int_0 < 0x1_0000_0000_0000_0000_0000_0000_0000_0000,
        DataModelType::Usize => v is Int && 0 <= v->Int_0,
        DataModelType::Isize => v is Int,
        DataModelType::F32 => v is Float,
        DataModelType::F64 => v is Float,
        DataModelType::Char => v is Char,
        DataModelType::String { max_len } => v is Bytes && within(max_len, v->Bytes_0.len()),
        DataModelType::ByteArray { max_len } => v is Bytes && within(max_len, v->Bytes_0.len()),
        DataModelType::Option(nt) => match v {
            Value::Absent => true,
            Value::Present(x) => conforms(nt.ty, *x),
            _ => false,
        },
        DataModelType::Unit => v is Unit,
        DataModelType::UnitStruct => v is Unit,
        DataModelType::NewtypeStruct(nt) => conforms(nt.ty, v),
        DataModelType::Sequence { element, max_len } => match v {
            Value::Items(vs) => within(max_len, vs.len()) && forall|i: int|
                0 <= i < vs.len() ==> conforms(element.ty, #[trigger] vs[i]),
            _ => false,
        },
        DataModelType::Tuple(nts) => v is Items && types_conform(nts@, v->Items_0),
        DataModelType::TupleStruct(nts) => v is Items && types_conform(nts@, v->Items_0),
        DataModelType::Mapping { key, val, max_len } => match v {
            Value::Entries(ks, vs) => {
                &&& ks.len() == vs.len()
                &&& within(max_len, ks.len())
                &&& forall|i: int| 0 <= i < ks.len() ==> conforms(key.ty, #[trigger] ks[i])
                &&& forall|i: int| 0 <= i < vs.len() ==> conforms(val.ty, #[trigger] vs[i])
            },
            _ => false,
        },
        DataModelType::Struct(nvs) => v is Items && fields_conform(nvs@, v->Items_0),
        DataModelType::Enum(vars) => match v {
            Value::Variant(i, p) => i < vars@.len() && variant_conforms(vars@[i as int].ty, *p),
            _ => false,
        },
        DataModelType::Schema => false,
    }
}

/// `vs` holds one value of each type of `ts`, in order.
pub open spec fn types_conform(ts: Seq<NamedType>, vs: Seq<Value>) -> bool
    decreases ts, 0nat,
{
    &&& vs.len() == ts.len()
    &&& forall|i: int| 0 <= i < ts.len() ==> conforms(#[trigger] ts[i].ty, vs[i])
}

/// `vs` holds one value of each field of `fs`, in order.
pub open spec fn fields_conform(fs: Seq<NamedValue>, vs: Seq<Value>) -> bool
    decreases fs, 0nat,
{
    &&& vs.len() == fs.len()
    &&& forall|i: int| 0 <= i < fs.len() ==> conforms(#[trigger] fs[i].ty.ty, vs[i])
}

/// `p` is a payload of the variant shape `s`.
pub open spec fn variant_conforms(s: DataModelVariant, p: Value) -> bool
    decreases s, 0nat,
{
    match s {
        DataModelVariant::UnitVariant => p is Unit,
        DataModelVariant::NewtypeVariant(nt) => conforms(nt.ty, p),
        DataModelVariant::TupleVariant(nts) => p is Items && types_conform(nts@, p->Items_0),
        DataModelVariant::StructVariant(nvs) => p is Items && fields_conform(nvs@, p->Items_0),
    }
}

/// Bytes the encoder writes for the value `v` of shape `d`.
pub open spec fn wire_len(d: DataModelType, v: Value) -> nat
    decreases d, 0nat,
{
    match d {
        DataModelType::Bool => 1,
        DataModelType::I8 => 1,
        DataModelType::U8 => 1,
        DataModelType::I16 => varint_len(zigzag(v->Int_0)),
        DataModelType::I32 => varint_len(zigzag(v->Int_0)),
        DataModelType::I64 => varint_len(zigzag(v->Int_0)),
        DataModelType::I128 => varint_len(zigzag(v->Int_0)),
        DataModelType::U16 => varint_len(v->Int_0 as nat),
        DataModelType::U32 => varint_len(v->Int_0 as nat),
        DataModelType::U64 => varint_len(v->Int_0 as nat),
        DataModelType::U128 => varint_len(v->Int_0 as nat),
        DataModelType::Usize => varint_len(v->Int_0 as nat),
        DataModelType::Isize => varint_len(zigzag(v->Int_0)),
        DataModelType::F32 => 4,
        DataModelType::F64 => 8,
        DataModelType::Char => 1 + utf8_len(v->Char_0),
        DataModelType::String { max_len: _ } => varint_len(v->Bytes_0.len()) + v->Bytes_0.len(),
        DataModelType::ByteArray { max_len: _ } => varint_len(v->Bytes_0.len()) + v->Bytes_0.len(),
        DataModelType::Option(nt) => match v {
            Value::Present(x) => 1 + wire_len(nt.ty, *x),
            _ => 1,
        },
        DataModelType::Unit => 0,
        DataModelType::UnitStruct => 0,
        DataModelType::NewtypeStruct(nt) => wire_len(nt.ty, v),
        DataModelType::Sequence { element, max_len: _ } => varint_len(v->Items_0.len())
            + repeated_len(element.ty, v->Items_0),
        DataModelType::Tuple(nts) => types_len(nts@, v->Items_0),
        DataModelType::TupleStruct(nts) => types_len(nts@, v->Items_0),
        DataModelType::Mapping { key, val, max_len: _ } => match v {
            Value::Entries(ks, vs) => varint_len(ks.len()) + repeated_len(key.ty, ks)
                + repeated_len(val.ty, vs),
            _ => 0,
        },
        DataModelType::Struct(nvs) => fields_len(nvs@, v->Items_0),
        DataModelType::Enum(vars) => match v {
            Value::Variant(i, p) => varint_len(i) + if i < vars@.len() {
                variant_len(vars@[i as int].ty, *p)
            } else {
                0
            },
            _ => 0,
        },
        DataModelType::Schema => 0,
    }
}

/// Bytes written for the values `vs`, each of shape `e`.
pub open spec fn repeated_len(e: DataModelType, vs: Seq<Value>) -> nat
    decreases e, vs.len(),
{
    if vs.len() == 0 {
        0
    } else {
        repeated_len(e, vs.drop_last()) + wire_len(e, vs.last())
    }
}

/// Bytes written for the values `vs` of the types `ts`, in order.
pub open spec fn types_len(ts: Seq<NamedType>, vs: Seq<Value>) -> nat
    decreases ts, 0nat,
{
    if ts.len() == 0 {
        0
    } else {
        types_len(ts.drop_last(), vs.drop_last()) + wire_len(ts.last().ty, vs.last())
    }
}

/// Bytes written for the values `vs` of the fields `fs`, in order.
pub open spec fn fields_len(fs: Seq<NamedValue>, vs: Seq<Value>) -> nat
    decreases fs, 0nat,
{
    if fs.len() == 0 {
        0
    } else {
        fields_len(fs.drop_last(), vs.drop_last()) + wire_len(fs.last().ty.ty, vs.last())
    }
}

/// Bytes written for the payload `p` of the variant shape `s`.
pub open spec fn variant_len(s: DataModelVariant, p: Value) -> nat
    decreases s, 0nat,
{
    match s {
        DataModelVariant::UnitVariant => 0,
        DataModelVariant::NewtypeVariant(nt) => wire_len(nt.ty, p),
        DataModelVariant::TupleVariant(nts) => types_len(nts@, p->Items_0),
        DataModelVariant::StructVariant(nvs) => fields_len(nvs@, p->Items_0),
    }
}

/// `d` holds no optional value at any depth.
pub open spec fn option_free(d: DataModelType) -> bool
    decreases d, 0nat,
{
    match d {
        DataModelType::Option(_) => false,
        DataModelType::NewtypeStruct(nt) => option_free(nt.ty),
        DataModelType::Sequence { element, max_len: _ } => option_free(element.ty),
        DataModelType::Mapping { key, val, max_len: _ } => option_free(key.ty) && option_free(val.ty),
        DataModelType::Tuple(nts) => types_option_free(nts@),
        DataModelType::TupleStruct(nts) => types_option_free(nts@),
        DataModelType::Struct(nvs) => forall|i: int|
            0 <= i < nvs@.len() ==> option_free(#[trigger] nvs@[i].ty.ty),
        DataModelType::Enum(vars) => forall|i: int|
            0 <= i < vars@.len() ==> variant_option_free(#[trigger] vars@[i].ty),
        _ => true,
    }
}

/// No type of `ts` holds an optional value.
pub open spec fn types_option_free(ts: Seq<NamedType>) -> bool
    decreases ts, 0nat,
{
    forall|i: int| 0 <= i < ts.len() ==> option_free(#[trigger] ts[i].ty)
}

/// The payload shape `s` holds no optional value.
pub open spec fn variant_option_free(s: DataModelVariant) -> bool
    decreases s, 0nat,
{
    match s {
        DataModelVariant::UnitVariant => true,
        DataModelVariant::NewtypeVariant(nt) => option_free(nt.ty),
        DataModelVariant::TupleVariant(nts) => types_option_free(nts@),
        DataModelVariant::StructVariant(nvs) => forall|i: int|
            0 <= i < nvs@.len() ==> option_free(#[trigger] nvs@[i].ty.ty),
    }
}

proof fn lemma_varint_len_below(x: nat, k: nat)
    requires
        k >= 1,
        x < pow128(k),
    ensures
        varint_len(x) <= k,
    decreases k,
{
    if x >= 128 {
        if k == 1 {
            assert(pow128(1) == 128) by {
                reveal_with_fuel(pow128, 2);
            }
        }
        lemma_varint_len_below(x / 128, (k - 1) as nat);
    }
}

proof fn lemma_varint_len_monotone(x: nat, y: nat)
    requires
        x <= y,
    ensures
        varint_len(x) <= varint_len(y),
    decreases y,
{
    if x >= 128 {
        lemma_varint_len_monotone(x / 128, y / 128);
    }
}

proof fn lemma_pow128_values()
    ensures
        pow128(3) == 2097152,
        pow128(5) == 34359738368,
        pow128(10) == 1180591620717411303424,
        pow128(19) == 10889035741470030830827987437816582766592,
{
    reveal_with_fuel(pow128, 20);
}

proof fn lemma_repeated_sound(e: DataModelType, vs: Seq<Value>, b: usize)
    requires
        forall|i: int| 0 <= i < vs.len() ==> conforms(e, #[trigger] vs[i]),
        option_free(e),
        dmt_bound(e) == Some(b),
    ensures
        repeated_len(e, vs) <= vs.len() * b,
    decreases e, vs.len(),
{
    if vs.len() > 0 {
        let rest = vs.drop_last();
        assert forall|i: int| 0 <= i < rest.len() implies conforms(e, #[trigger] rest[i]) by {
            assert(rest[i] == vs[i]);
        }
        lemma_repeated_sound(e, rest, b);
        soundness_law(e, vs.last());
        assert((vs.len() - 1) * b + b == vs.len() * b) by (nonlinear_arith);
    }
}

proof fn lemma_types_sound(ts: Seq<NamedType>, vs: Seq<Value>)
    requires
        types_conform(ts, vs),
        types_option_free(ts),
        types_bound(ts) is Some,
    ensures
        types_len(ts, vs) <= types_bound(ts)->0,
    decreases ts, 0nat,
{
    if ts.len() > 0 {
        let (rt, rv) = (ts.drop_last(), vs.drop_last());
        assert forall|i: int| 0 <= i < rt.len() implies conforms(#[trigger] rt[i].ty, rv[i]) && option_free(rt[i].ty) by {
            assert(rt[i] == ts[i]);
            assert(rv[i] == vs[i]);
        }
        lemma_types_sound(rt, rv);
        assert(conforms(ts[ts.len() - 1].ty, vs[vs.len() - 1]));
        assert(option_free(ts[ts.len() - 1].ty));
        soundness_law(ts.last().ty, vs.last());
    }
}

proof fn lemma_fields_sound(fs: Seq<NamedValue>, vs: Seq<Value>)
    requires
        fields_conform(fs, vs),
        forall|i: int| 0 <= i < fs.len() ==> option_free(#[trigger] fs[i].ty.ty),
        fields_bound(fs) is Some,
    ensures
        fields_len(fs, vs) <= fields_bound(fs)->0,
    decreases fs, 0nat,
{
    if fs.len() > 0 {
        let (rf, rv) = (fs.drop_last(), vs.drop_last());
        assert forall|i: int| 0 <= i < rf.len() implies conforms(#[trigger] rf[i].ty.ty, rv[i]) && option_free(rf[i].ty.ty) by {
            assert(rf[i] == fs[i]);
            assert(rv[i] == vs[i]);
        }
        lemma_fields_sound(rf, rv);
        assert(conforms(fs[fs.len() - 1].ty.ty, vs[vs.len() - 1]));
        assert(option_free(fs[fs.len() - 1].ty.ty));
        soundness_law(fs.last().ty.ty, vs.last());
    }
}

proof fn lemma_variant_sound(s: DataModelVariant, p: Value)
    requires
        variant_conforms(s, p),
        variant_option_free(s),
        variant_bound(s) is Some,
    ensures
        variant_len(s, p) <= variant_bound(s)->0,
    decreases s, 0nat,
{
    match s {
        DataModelVariant::UnitVariant => {},
        DataModelVariant::NewtypeVariant(nt) => {
            soundness_law(nt.ty, p);
        },
        DataModelVariant::TupleVariant(nts) => {
            lemma_types_sound(nts@, p->Items_0);
        },
        DataModelVariant::StructVariant(nvs) => {
            lemma_fields_sound(nvs@, p->Items_0);
        },
    }
}

/// Wherever a bound is reported for a descriptor without optional values, no
/// value of that descriptor, within its declared bounds, encodes to more bytes.
///
/// An optional value is encoded with a one-byte presence tag that its bound
/// does not count, so descriptors that hold one are left out.
pub proof fn soundness_law(d: DataModelType, v: Value)
    requires
        conforms(d, v),
        option_free(d),
        dmt_bound(d) is Some,
    ensures
        wire_len(d, v) <= dmt_bound(d)->0,
    decreases d, 0nat,
{
    lemma_pow128_values();
    match d {
        DataModelType::I16 => {
            lemma_varint_len_below(zigzag(v->Int_0), 3);
        },
        DataModelType::I32 => {
            lemma_varint_len_below(zigzag(v->Int_0), 5);
        },
        DataModelType::I64 => {
            lemma_varint_len_below(zigzag(v->Int_0), 10);
        },
        DataModelType::I128 => {
            lemma_varint_len_below(zigzag(v->Int_0), 19);
        },
        DataModelType::U16 => {
            lemma_varint_len_below(v->Int_0 as nat, 3);
        },
        DataModelType::U32 => {
            lemma_varint_len_below(v->Int_0 as nat, 5);
        },
        DataModelType::U64 => {
            lemma_varint_len_below(v->Int_0 as nat, 10);
        },
        DataModelType::U128 => {
            lemma_varint_len_below(v->Int_0 as nat, 19);
        },
        DataModelType::String { max_len } => {
            lemma_varint_len_monotone(v->Bytes_0.len(), max_len->0 as nat);
        },
        DataModelType::ByteArray { max_len } => {
            lemma_varint_len_monotone(v->Bytes_0.len(), max_len->0 as nat);
        },
        DataModelType::NewtypeStruct(nt) => {
            soundness_law(nt.ty, v);
        },
        DataModelType::Sequence { element, max_len } => {
            let vs = v->Items_0;
            let c = max_len->0;
            let b = dmt_bound(element.ty)->0;
            lemma_repeated_sound(element.ty, vs, b);
            lemma_varint_len_monotone(vs.len(), c as nat);
            assert(vs.len() * b <= c * b) by (nonlinear_arith)
                requires
                    vs.len() <= c,
                    b >= 0,
            ;
        },
        DataModelType::Tuple(nts) => {
            lemma_types_sound(nts@, v->Items_0);
        },
        DataModelType::TupleStruct(nts) => {
            lemma_types_sound(nts@, v->Items_0);
        },
        DataModelType::Mapping { key, val, max_len } => {
            let ks = v->Entries_0;
            let vs = v->Entries_1;
            let c = max_len->0;
            let kb = dmt_bound(key.ty)->0;
            let vb = dmt_bound(val.ty)->0;
            lemma_repeated_sound(key.ty, ks, kb);
            lemma_repeated_sound(val.ty, vs, vb);
            lemma_varint_len_monotone(ks.len(), c as nat);
            assert(ks.len() * kb + ks.len() * vb <= c * (kb + vb)) by (nonlinear_arith)
                requires
                    ks.len() <= c,
                    kb >= 0,
                    vb >= 0,
            ;
        },
        DataModelType::Struct(nvs) => {
            lemma_fields_sound(nvs@, v->Items_0);
        },
        DataModelType::Enum(vars) => {
            let i = v->Variant_0;
            let p = *v->Variant_1;
            assert forall|j: int| 0 <= j < vars@.len() implies (#[trigger] variant_bound(vars@[j].ty)) is Some by {
                if variant_bound(vars@[j].ty) is None {
                    lemma_variants_unknown(vars@, j);
                }
            }
            lemma_variants_max(vars@);
            lemma_variant_sound(vars@[i as int].ty, p);
            lemma_varint_len_monotone(i, (vars@.len() - 1) as nat);
            assert(discriminant_len(vars@.len()) == varint_len((vars@.len() - 1) as nat));
        },
        _ => {},
    }
}

} // verus!
