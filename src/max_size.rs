//! Worst-case encoded size of a descriptor.
use vstd::prelude::*;
use crate::schema::{DataModelType, DataModelVariant, NamedType, NamedValue, NamedVariant};
use crate::Schema;

verus! {

/// Bytes taken by `n` as a varint: seven payload bits per byte.
pub open spec fn varint_len(n: nat) -> nat
    decreases n,
{
    if n < 128 {
        1
    } else {
        1 + varint_len(n / 128)
    }
}

/// `128` to the power `k`.
pub open spec fn pow128(k: nat) -> nat
    decreases k,
{
    if k == 0 {
        1
    } else {
        128 * pow128((k - 1) as nat)
    }
}

/// A byte count, or `None` where it does not fit in a `usize`.
pub open spec fn fit(x: int) -> Option<usize> {
    if 0 <= x <= usize::MAX {
        Some(x as usize)
    } else {
        None
    }
}

/// A length prefix followed by at most `max_len` raw bytes.
pub open spec fn string_bound(max_len: Option<usize>) -> Option<usize> {
    match max_len {
        Some(n) => fit(varint_len(n as nat) + n),
        None => None,
    }
}

/// A count prefix followed by at most `max_len` elements of size `elem`.
pub open spec fn seq_bound(elem: Option<usize>, max_len: Option<usize>) -> Option<usize> {
    match (elem, max_len) {
        (Some(e), Some(c)) => fit(varint_len(c as nat) + c * e),
        _ => None,
    }
}

/// A count prefix followed by at most `max_len` entries of a key and a value.
pub open spec fn map_bound(key: Option<usize>, val: Option<usize>, max_len: Option<usize>) -> Option<usize> {
    match (key, val, max_len) {
        (Some(k), Some(v), Some(c)) => fit(varint_len(c as nat) + c * (k + v)),
        _ => None,
    }
}

/// The sum of two bounds; unknown as soon as either is.
pub open spec fn add_bound(a: Option<usize>, b: Option<usize>) -> Option<usize> {
    match (a, b) {
        (Some(x), Some(y)) => fit(x + y),
        _ => None,
    }
}

/// The larger of two bounds; unknown as soon as either is.
pub open spec fn max_bound(a: Option<usize>, b: Option<usize>) -> Option<usize> {
    match (a, b) {
        (Some(x), Some(y)) => Some(if x >= y { x } else { y }),
        _ => None,
    }
}

/// Bytes taken by the discriminant of an enum with `n` variants.
pub open spec fn discriminant_len(n: nat) -> nat {
    if n == 0 {
        1
    } else {
        varint_len((n - 1) as nat)
    }
}

/// Worst-case size of a value of shape `d`, or `None` where it is unbounded
/// or exceeds `usize`.
pub open spec fn dmt_bound(d: DataModelType) -> Option<usize>
    decreases d,
{
    match d {
        DataModelType::Bool => Some(1),
        DataModelType::I8 => Some(1),
        DataModelType::U8 => Some(1),
        DataModelType::I16 => Some(3),
        DataModelType::I32 => Some(5),
        DataModelType::I64 => Some(10),
        DataModelType::I128 => Some(19),
        DataModelType::U16 => Some(3),
        DataModelType::U32 => Some(5),
        DataModelType::U64 => Some(10),
        DataModelType::U128 => Some(19),
        DataModelType::Usize => None,
        DataModelType::Isize => None,
        DataModelType::F32 => Some(4),
        DataModelType::F64 => Some(8),
        DataModelType::Char => Some(5),
        DataModelType::String { max_len } => string_bound(max_len),
        DataModelType::ByteArray { max_len } => string_bound(max_len),
        DataModelType::Option(nt) => dmt_bound(nt.ty),
        DataModelType::Unit => Some(0),
        DataModelType::UnitStruct => Some(0),
        DataModelType::NewtypeStruct(nt) => dmt_bound(nt.ty),
        DataModelType::Sequence { element, max_len } => seq_bound(dmt_bound(element.ty), max_len),
        DataModelType::Tuple(nts) => types_bound(nts@),
        DataModelType::TupleStruct(nts) => types_bound(nts@),
        DataModelType::Mapping { key, val, max_len } => map_bound(
            dmt_bound(key.ty),
            dmt_bound(val.ty),
            max_len,
        ),
        DataModelType::Struct(nvs) => fields_bound(nvs@),
        DataModelType::Enum(vars) => match variants_bound(vars@) {
            Some(m) => fit(m + discriminant_len(vars@.len())),
            None => None,
        },
        DataModelType::Schema => None,
    }
}

/// Sum of the bounds of a list of types.
pub open spec fn types_bound(ts: Seq<NamedType>) -> Option<usize>
    decreases ts,
{
    if ts.len() == 0 {
        Some(0)
    } else {
        add_bound(types_bound(ts.drop_last()), dmt_bound(ts.last().ty))
    }
}

/// Sum of the bounds of a list of named fields.
pub open spec fn fields_bound(fs: Seq<NamedValue>) -> Option<usize>
    decreases fs,
{
    if fs.len() == 0 {
        Some(0)
    } else {
        add_bound(fields_bound(fs.drop_last()), dmt_bound(fs.last().ty.ty))
    }
}

/// Bound of the payload of one enum variant.
pub open spec fn variant_bound(v: DataModelVariant) -> Option<usize>
    decreases v,
{
    match v {
        DataModelVariant::UnitVariant => Some(0),
        DataModelVariant::NewtypeVariant(nt) => dmt_bound(nt.ty),
        DataModelVariant::TupleVariant(nts) => types_bound(nts@),
        DataModelVariant::StructVariant(nvs) => fields_bound(nvs@),
    }
}

/// Largest payload bound over a list of variants.
pub open spec fn variants_bound(vs: Seq<NamedVariant>) -> Option<usize>
    decreases vs,
{
    if vs.len() == 0 {
        Some(0)
    } else {
        max_bound(variants_bound(vs.drop_last()), variant_bound(vs.last().ty))
    }
}

proof fn lemma_varint_len_small(x: nat)
    requires
        x >= 1,
    ensures
        varint_len(x) <= x,
    decreases x,
{
    if x >= 128 {
        lemma_varint_len_small(x / 128);
    }
}

proof fn lemma_types_unknown_extends(s: Seq<NamedType>, j: int, k: int)
    requires
        0 <= j <= k <= s.len(),
        types_bound(s.subrange(0, j)) is None,
    ensures
        types_bound(s.subrange(0, k)) is None,
    decreases k - j,
{
    if j < k {
        lemma_types_unknown_extends(s, j, k - 1);
        assert(s.subrange(0, k).drop_last() =~= s.subrange(0, k - 1));
    }
}

proof fn lemma_fields_unknown_extends(s: Seq<NamedValue>, j: int, k: int)
    requires
        0 <= j <= k <= s.len(),
        fields_bound(s.subrange(0, j)) is None,
    ensures
        fields_bound(s.subrange(0, k)) is None,
    decreases k - j,
{
    if j < k {
        lemma_fields_unknown_extends(s, j, k - 1);
        assert(s.subrange(0, k).drop_last() =~= s.subrange(0, k - 1));
    }
}

proof fn lemma_variants_unknown_extends(s: Seq<NamedVariant>, j: int, k: int)
    requires
        0 <= j <= k <= s.len(),
        variants_bound(s.subrange(0, j)) is None,
    ensures
        variants_bound(s.subrange(0, k)) is None,
    decreases k - j,
{
    if j < k {
        lemma_variants_unknown_extends(s, j, k - 1);
        assert(s.subrange(0, k).drop_last() =~= s.subrange(0, k - 1));
    }
}

/// Bytes taken by `n` as a varint.
pub fn size_as_varint_usize(n: usize) -> (r: usize)
    ensures
        r == varint_len(n as nat),
{
    let mut m: usize = n;
    let mut r: usize = 1;
    while m >= 128
        invariant
            1 <= r,
            r + varint_len(m as nat) == varint_len(n as nat) + 1,
            m <= n,
        decreases m,
    {
        proof {
            lemma_varint_len_small(n as nat);
            lemma_varint_len_small((m / 128) as nat);
        }
        m = m / 128;
        r = r + 1;
    }
    r
}

/// Worst-case size of a string or byte array of at most `max_len` bytes.
pub fn bounded_string_max(max_len: Option<usize>) -> (r: Option<usize>)
    ensures
        r == string_bound(max_len),
{
    match max_len {
        Some(n) => n.checked_add(size_as_varint_usize(n)),
        None => None,
    }
}

/// Worst-case size of a sequence of at most `max_len` values of `element`.
pub fn bounded_seq_max(element: &NamedType, max_len: Option<usize>) -> (r: Option<usize>)
    ensures
        r == seq_bound(dmt_bound(element.ty), max_len),
    decreases element, 2nat,
{
    let size_one = max_size_nt(element);
    match (size_one, max_len) {
        (Some(sz), Some(n)) => {
            let varint_sz = size_as_varint_usize(n);
            match sz.checked_mul(n) {
                Some(data_sz) => data_sz.checked_add(varint_sz),
                None => {
                    proof {
                        assert(n * sz == sz * n) by (nonlinear_arith);
                    }
                    None
                },
            }
        },
        _ => None,
    }
}

fn map_sizes_max(size_key: Option<usize>, size_val: Option<usize>, max_len: Option<usize>) -> (r: Option<usize>)
    ensures
        r == map_bound(size_key, size_val, max_len),
{
    match (size_key, size_val, max_len) {
        (Some(k), Some(v), Some(n)) => {
            let varint_sz = size_as_varint_usize(n);
            if n == 0 {
                assert(0 * (k + v) == 0);
                return Some(varint_sz);
            }
            match k.checked_add(v) {
                Some(entry) => match entry.checked_mul(n) {
                    Some(data_sz) => data_sz.checked_add(varint_sz),
                    None => {
                        proof {
                            assert(n * entry == entry * n) by (nonlinear_arith);
                        }
                        None
                    },
                },
                None => {
                    proof {
                        assert(n * (k + v) >= k + v) by (nonlinear_arith)
                            requires
                                n >= 1,
                                k + v >= 0,
                        ;
                    }
                    None
                },
            }
        },
        _ => None,
    }
}

/// Worst-case size of a map of at most `max_len` entries of `key` and `val`.
pub fn bounded_map_max(key: &NamedType, val: &NamedType, max_len: Option<usize>) -> (r: Option<usize>)
    ensures
        r == map_bound(dmt_bound(key.ty), dmt_bound(val.ty), max_len),
{
    map_sizes_max(max_size_nt(key), max_size_nt(val), max_len)
}

/// Worst-case size of a value of the named type `nt`.
pub fn max_size_nt(nt: &NamedType) -> (r: Option<usize>)
    ensures
        r == dmt_bound(nt.ty),
    decreases nt, 1nat,
{
    max_size_dmt(&nt.ty)
}

fn sum_types(nts: &Vec<NamedType>) -> (r: Option<usize>)
    ensures
        r == types_bound(nts@),
    decreases nts, 2nat,
{
    let mut i: usize = 0;
    let mut ct: usize = 0;
    while i < nts.len()
        invariant
            i <= nts.len(),
            types_bound(nts@.subrange(0, i as int)) == Some(ct),
        decreases nts.len() - i,
    {
        assert(nts@.subrange(0, i + 1).drop_last() =~= nts@.subrange(0, i as int));
        let sz = max_size_nt(&nts[i]);
        let next = match sz {
            Some(sz) => ct.checked_add(sz),
            None => None,
        };
        match next {
            Some(n) => {
                ct = n;
            },
            None => {
                proof {
                    lemma_types_unknown_extends(nts@, i + 1, nts@.len() as int);
                    assert(nts@.subrange(0, nts@.len() as int) =~= nts@);
                }
                return None;
            },
        }
        i += 1;
    }
    assert(nts@.subrange(0, i as int) =~= nts@);
    Some(ct)
}

fn sum_fields(nvs: &Vec<NamedValue>) -> (r: Option<usize>)
    ensures
        r == fields_bound(nvs@),
    decreases nvs, 2nat,
{
    let mut i: usize = 0;
    let mut ct: usize = 0;
    while i < nvs.len()
        invariant
            i <= nvs.len(),
            fields_bound(nvs@.subrange(0, i as int)) == Some(ct),
        decreases nvs.len() - i,
    {
        assert(nvs@.subrange(0, i + 1).drop_last() =~= nvs@.subrange(0, i as int));
        let sz = max_size_nt(&nvs[i].ty);
        let next = match sz {
            Some(sz) => ct.checked_add(sz),
            None => None,
        };
        match next {
            Some(n) => {
                ct = n;
            },
            None => {
                proof {
                    lemma_fields_unknown_extends(nvs@, i + 1, nvs@.len() as int);
                    assert(nvs@.subrange(0, nvs@.len() as int) =~= nvs@);
                }
                return None;
            },
        }
        i += 1;
    }
    assert(nvs@.subrange(0, i as int) =~= nvs@);
    Some(ct)
}

fn variant_max(v: &DataModelVariant) -> (r: Option<usize>)
    ensures
        r == variant_bound(*v),
    decreases v, 2nat,
{
    match v {
        DataModelVariant::UnitVariant => Some(0),
        DataModelVariant::NewtypeVariant(nt) => max_size_nt(nt),
        DataModelVariant::TupleVariant(nts) => sum_types(nts),
        DataModelVariant::StructVariant(nvs) => sum_fields(nvs),
    }
}

fn enum_max(vars: &Vec<NamedVariant>) -> (r: Option<usize>)
    ensures
        r == (match variants_bound(vars@) {
            Some(m) => fit(m + discriminant_len(vars@.len())),
            None => None,
        }),
    decreases vars, 2nat,
{
    let mut i: usize = 0;
    let mut max: usize = 0;
    while i < vars.len()
        invariant
            i <= vars.len(),
            variants_bound(vars@.subrange(0, i as int)) == Some(max),
        decreases vars.len() - i,
    {
        assert(vars@.subrange(0, i + 1).drop_last() =~= vars@.subrange(0, i as int));
        match variant_max(&vars[i].ty) {
            Some(sz) => {
                if sz > max {
                    max = sz;
                }
            },
            None => {
                proof {
                    lemma_variants_unknown_extends(vars@, i + 1, vars@.len() as int);
                    assert(vars@.subrange(0, vars@.len() as int) =~= vars@);
                }
                return None;
            },
        }
        i += 1;
    }
    assert(vars@.subrange(0, i as int) =~= vars@);
    let disc_size = if vars.len() == 0 {
        1
    } else {
        size_as_varint_usize(vars.len() - 1)
    };
    max.checked_add(disc_size)
}

/// Worst-case size of a value of shape `dmt`; `None` where no bound exists
/// or it exceeds `usize`.
pub fn max_size_dmt(dmt: &DataModelType) -> (r: Option<usize>)
    ensures
        r == dmt_bound(*dmt),
    decreases dmt, 0nat,
{
    match dmt {
        DataModelType::Bool => Some(1),
        DataModelType::I8 => Some(1),
        DataModelType::U8 => Some(1),
        DataModelType::I16 => Some(3),
        DataModelType::I32 => Some(5),
        DataModelType::I64 => Some(10),
        DataModelType::I128 => Some(19),
        DataModelType::U16 => Some(3),
        DataModelType::U32 => Some(5),
        DataModelType::U64 => Some(10),
        DataModelType::U128 => Some(19),
        DataModelType::Usize => None,
        DataModelType::Isize => None,
        DataModelType::F32 => Some(4),
        DataModelType::F64 => Some(8),
        DataModelType::Char => Some(5),
        DataModelType::String { max_len } => bounded_string_max(*max_len),
        DataModelType::ByteArray { max_len } => bounded_string_max(*max_len),
        DataModelType::Option(nt) => max_size_nt(nt),
        DataModelType::Unit => Some(0),
        DataModelType::UnitStruct => Some(0),
        DataModelType::NewtypeStruct(nt) => max_size_nt(nt),
        DataModelType::Sequence { element, max_len } => bounded_seq_max(element, *max_len),
        DataModelType::Tuple(nts) => sum_types(nts),
        DataModelType::TupleStruct(nts) => sum_types(nts),
        DataModelType::Mapping { key, val, max_len } => {
            map_sizes_max(max_size_nt(key), max_size_nt(val), *max_len)
        },
        DataModelType::Struct(nvs) => sum_fields(nvs),
        DataModelType::Enum(vars) => enum_max(vars),
        DataModelType::Schema => None,
    }
}


/// Worst-case encoded size of a value of `T`: its hand-supplied bound where it
/// has one, else the bound computed from its descriptor.
///
/// A hand-supplied bound is trusted as given: it must not be relied on where an
/// underestimate would be unsafe.
pub fn max_size<T: Schema>() -> (r: Option<usize>)
    ensures
        r == (match T::spec_manual_max_size() {
            Some(n) => Some(n),
            None => dmt_bound(T::spec_schema().ty),
        }),
{
    match T::manual_max_size() {
        Some(n) => Some(n),
        None => max_size_nt(&T::schema()),
    }
}

} // verus!
