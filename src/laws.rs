//! Laws that relate the size of a descriptor to the sizes of its parts.
use vstd::prelude::*;
use crate::max_size::{
    dmt_bound, discriminant_len, fields_bound, fit, pow128, types_bound, variant_bound,
    variants_bound, varint_len,
};
use crate::schema::{DataModelType, DataModelVariant, NamedType, NamedValue, NamedVariant};

verus! {

/// A sequence of at most `c` elements of size `e` takes a count prefix of
/// `varint_len(c)` bytes and `c * e` bytes of elements.
pub proof fn seq_law(element: NamedType, c: usize, e: usize)
    requires
        dmt_bound(element.ty) == Some(e),
    ensures
        dmt_bound(DataModelType::Sequence { element: Box::new(element), max_len: Some(c) })
            == fit(varint_len(c as nat) + c * e),
        varint_len(c as nat) + c * e <= usize::MAX ==> dmt_bound(
            DataModelType::Sequence { element: Box::new(element), max_len: Some(c) },
        ) == Some((varint_len(c as nat) + c * e) as usize),
{
}

/// A map of at most `c` entries with keys of size `k` and values of size `v`
/// takes `varint_len(c) + c * (k + v)` bytes.
pub proof fn map_law(key: NamedType, val: NamedType, c: usize, k: usize, v: usize)
    requires
        dmt_bound(key.ty) == Some(k),
        dmt_bound(val.ty) == Some(v),
    ensures
        dmt_bound(
            DataModelType::Mapping { key: Box::new(key), val: Box::new(val), max_len: Some(c) },
        ) == fit(varint_len(c as nat) + c * (k + v)),
        varint_len(c as nat) + c * (k + v) <= usize::MAX ==> dmt_bound(
            DataModelType::Mapping { key: Box::new(key), val: Box::new(val), max_len: Some(c) },
        ) == Some((varint_len(c as nat) + c * (k + v)) as usize),
{
}

pub(crate) proof fn lemma_variants_max(vs: Seq<NamedVariant>)
    requires
        forall|i: int| 0 <= i < vs.len() ==> (#[trigger] variant_bound(vs[i].ty)) is Some,
    ensures
        variants_bound(vs) is Some,
        forall|i: int|
            0 <= i < vs.len() ==> (#[trigger] variant_bound(vs[i].ty))->0 <= variants_bound(
                vs,
            )->0,
        vs.len() == 0 ==> variants_bound(vs) == Some(0usize),
        vs.len() > 0 ==> exists|i: int|
            0 <= i < vs.len() && #[trigger] variant_bound(vs[i].ty) == variants_bound(vs),
    decreases vs.len(),
{
    if vs.len() > 0 {
        let rest = vs.drop_last();
        assert forall|i: int| 0 <= i < rest.len() implies (#[trigger] variant_bound(
            rest[i].ty,
        )) is Some by {
            assert(rest[i] == vs[i]);
        }
        lemma_variants_max(rest);
        let last = vs.len() - 1;
        assert(variant_bound(vs[last].ty) is Some);
        assert forall|i: int|
            0 <= i < vs.len() implies (#[trigger] variant_bound(vs[i].ty))->0 <= variants_bound(
            vs,
        )->0 by {
            if i < last {
                assert(rest[i] == vs[i]);
            }
        }
        if rest.len() > 0 && variants_bound(rest)->0 >= variant_bound(vs[last].ty)->0 {
            let j = choose|j: int|
                0 <= j < rest.len() && #[trigger] variant_bound(rest[j].ty) == variants_bound(
                    rest,
                );
            assert(rest[j] == vs[j]);
            assert(variant_bound(vs[j].ty) == variants_bound(vs));
        } else {
            assert(variant_bound(vs[last].ty) == variants_bound(vs));
        }
    }
}

/// An enum whose variants all have known payload sizes takes a discriminant of
/// `varint_len(V - 1)` bytes for `V >= 1` variants (one byte for none) plus its
/// largest payload.
pub proof fn enum_law(vars: Vec<NamedVariant>)
    requires
        forall|i: int| 0 <= i < vars@.len() ==> (#[trigger] variant_bound(vars@[i].ty)) is Some,
    ensures
        ({
            let m = variants_bound(vars@)->0;
            &&& variants_bound(vars@) is Some
            &&& forall|i: int|
                0 <= i < vars@.len() ==> (#[trigger] variant_bound(vars@[i].ty))->0 <= m
            &&& vars@.len() > 0 ==> exists|i: int|
                0 <= i < vars@.len() && (#[trigger] variant_bound(vars@[i].ty))->0 == m
            &&& vars@.len() == 0 ==> m == 0
            &&& dmt_bound(DataModelType::Enum(vars)) == fit(m + discriminant_len(vars@.len()))
        }),
        vars@.len() >= 1 ==> discriminant_len(vars@.len()) == varint_len((vars@.len() - 1) as nat),
        vars@.len() == 0 ==> discriminant_len(vars@.len()) == 1,
{
    lemma_variants_max(vars@);
}

/// `c` is one of the direct parts of the payload `v`.
pub open spec fn is_variant_part(v: DataModelVariant, c: DataModelType) -> bool {
    match v {
        DataModelVariant::UnitVariant => false,
        DataModelVariant::NewtypeVariant(nt) => nt.ty == c,
        DataModelVariant::TupleVariant(nts) => exists|i: int|
            0 <= i < nts@.len() && (#[trigger] nts@[i]).ty == c,
        DataModelVariant::StructVariant(nvs) => exists|i: int|
            0 <= i < nvs@.len() && (#[trigger] nvs@[i]).ty.ty == c,
    }
}

/// `c` is one of the direct parts of `d`.
pub open spec fn is_part(d: DataModelType, c: DataModelType) -> bool {
    match d {
        DataModelType::Option(nt) => nt.ty == c,
        DataModelType::NewtypeStruct(nt) => nt.ty == c,
        DataModelType::Sequence { element, max_len: _ } => element.ty == c,
        DataModelType::Mapping { key, val, max_len: _ } => key.ty == c || val.ty == c,
        DataModelType::Tuple(nts) => exists|i: int| 0 <= i < nts@.len() && (#[trigger] nts@[i]).ty == c,
        DataModelType::TupleStruct(nts) => exists|i: int|
            0 <= i < nts@.len() && (#[trigger] nts@[i]).ty == c,
        DataModelType::Struct(nvs) => exists|i: int|
            0 <= i < nvs@.len() && (#[trigger] nvs@[i]).ty.ty == c,
        DataModelType::Enum(vars) => exists|i: int|
            0 <= i < vars@.len() && is_variant_part((#[trigger] vars@[i]).ty, c),
        _ => false,
    }
}

/// `path` leads from its first descriptor to its last, each one a direct part
/// of the one before.
pub open spec fn is_path(path: Seq<DataModelType>) -> bool {
    &&& path.len() >= 1
    &&& forall|i: int| 0 <= i < path.len() - 1 ==> is_part(#[trigger] path[i], path[i + 1])
}

proof fn lemma_types_unknown(s: Seq<NamedType>, i: int)
    requires
        0 <= i < s.len(),
        dmt_bound(s[i].ty) is None,
    ensures
        types_bound(s) is None,
    decreases s.len(),
{
    if i < s.len() - 1 {
        assert(s.drop_last()[i] == s[i]);
        lemma_types_unknown(s.drop_last(), i);
    }
}

proof fn lemma_fields_unknown(s: Seq<NamedValue>, i: int)
    requires
        0 <= i < s.len(),
        dmt_bound(s[i].ty.ty) is None,
    ensures
        fields_bound(s) is None,
    decreases s.len(),
{
    if i < s.len() - 1 {
        assert(s.drop_last()[i] == s[i]);
        lemma_fields_unknown(s.drop_last(), i);
    }
}

pub(crate) proof fn lemma_variants_unknown(s: Seq<NamedVariant>, i: int)
    requires
        0 <= i < s.len(),
        variant_bound(s[i].ty) is None,
    ensures
        variants_bound(s) is None,
    decreases s.len(),
{
    if i < s.len() - 1 {
        assert(s.drop_last()[i] == s[i]);
        lemma_variants_unknown(s.drop_last(), i);
    }
}

/// A descriptor with an unbounded direct part is itself unbounded: no partial
/// or guessed number is reported.
pub proof fn unknown_part_law(d: DataModelType, c: DataModelType)
    requires
        is_part(d, c),
        dmt_bound(c) is None,
    ensures
        dmt_bound(d) is None,
{
    match d {
        DataModelType::Tuple(nts) => {
            let i = choose|i: int| 0 <= i < nts@.len() && (#[trigger] nts@[i]).ty == c;
            lemma_types_unknown(nts@, i);
        },
        DataModelType::TupleStruct(nts) => {
            let i = choose|i: int| 0 <= i < nts@.len() && (#[trigger] nts@[i]).ty == c;
            lemma_types_unknown(nts@, i);
        },
        DataModelType::Struct(nvs) => {
            let i = choose|i: int| 0 <= i < nvs@.len() && (#[trigger] nvs@[i]).ty.ty == c;
            lemma_fields_unknown(nvs@, i);
        },
        DataModelType::Enum(vars) => {
            let i = choose|i: int|
                0 <= i < vars@.len() && is_variant_part((#[trigger] vars@[i]).ty, c);
            match vars@[i].ty {
                DataModelVariant::TupleVariant(nts) => {
                    let j = choose|j: int| 0 <= j < nts@.len() && (#[trigger] nts@[j]).ty == c;
                    lemma_types_unknown(nts@, j);
                },
                DataModelVariant::StructVariant(nvs) => {
                    let j = choose|j: int| 0 <= j < nvs@.len() && (#[trigger] nvs@[j]).ty.ty == c;
                    lemma_fields_unknown(nvs@, j);
                },
                _ => {},
            }
            lemma_variants_unknown(vars@, i);
        },
        _ => {},
    }
}

/// A descriptor that contains an unbounded part at any depth is unbounded, and
/// so is every descriptor on the way down to that part.
pub proof fn unknown_propagation_law(path: Seq<DataModelType>)
    requires
        is_path(path),
        dmt_bound(path.last()) is None,
    ensures
        forall|i: int| 0 <= i < path.len() ==> (#[trigger] dmt_bound(path[i])) is None,
    decreases path.len(),
{
    if path.len() > 1 {
        let rest = path.subrange(1, path.len() as int);
        assert forall|i: int| 0 <= i < rest.len() - 1 implies is_part(
            #[trigger] rest[i],
            rest[i + 1],
        ) by {
            assert(is_part(path[i + 1], path[i + 2]));
        }
        assert(rest.last() == path.last());
        unknown_propagation_law(rest);
        assert(dmt_bound(rest[0]) is None);
        assert(is_part(path[0], path[1]));
        unknown_part_law(path[0], path[1]);
        assert forall|i: int| 0 <= i < path.len() implies (#[trigger] dmt_bound(path[i])) is None by {
            if i > 0 {
                assert(path[i] == rest[i - 1]);
            }
        }
    }
}

/// A varint takes `k` bytes exactly for the values from `128^(k-1)` (from zero
/// where `k` is 1) up to below `128^k`.
pub proof fn varint_boundary_law(n: nat, k: nat)
    requires
        k >= 1,
        k == 1 || pow128((k - 1) as nat) <= n,
        n < pow128(k),
    ensures
        varint_len(n) == k,
    decreases k,
{
    if k == 1 {
        assert(pow128(1) == 128) by {
            reveal_with_fuel(pow128, 2);
        }
    } else {
        let p = pow128((k - 2) as nat);
        assert(pow128((k - 1) as nat) == 128 * p);
        assert(pow128(k) == 128 * pow128((k - 1) as nat));
        assert(p >= 1) by {
            lemma_pow128_positive((k - 2) as nat);
        }
        assert(n / 128 >= p && n / 128 < pow128((k - 1) as nat)) by (nonlinear_arith)
            requires
                128 * p <= n,
                n < 128 * pow128((k - 1) as nat),
        ;
        varint_boundary_law(n / 128, (k - 1) as nat);
    }
}

proof fn lemma_pow128_positive(k: nat)
    ensures
        pow128(k) >= 1,
    decreases k,
{
    if k > 0 {
        lemma_pow128_positive((k - 1) as nat);
    }
}

} // verus!
