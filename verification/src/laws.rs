//! The framework's laws, proved once over the specification functions.
//!
//! The central law is the round trip: decoding what a conforming value
//! encodes to gives the value back, across records, unit enumerations,
//! tagged unions, lists, optional fields and custom codec hooks.  Beside
//! it stand the elision, missing-field and unknown-variant laws.

use vstd::prelude::*;

use crate::codec::{
    conforms, conforms_fields, conforms_list, err_here, find_name, find_variant,
    lemma_conforms_fields_index, lemma_conforms_list_index, lemma_decode_fields_err_persists,
    lemma_decode_fields_index, lemma_encode_fields_contains, lemma_encode_fields_origin,
    lemma_encode_list_index, lemma_find_name_from, lemma_find_variant_from, spec_decode,
    spec_decode_field_value, spec_decode_fields, spec_decode_list, spec_encode,
    spec_encode_field_value, spec_encode_fields, spec_encode_list,
};
use crate::error::{DecodeErrorKindView, DecodeErrorView, HookError};
use crate::hooks::{lemma_hook_roundtrip, spec_hook_decode, spec_hook_encode, HookId};
use crate::shape::{wf_fields, wf_registry, FieldSpecView, FieldType, RegEntryView, ShapeView};
use crate::token::{find_entry, lemma_find_entry_from, TokenView};
use crate::value::DatumView;

verus! {

/// Round trip: decoding what a conforming value encodes to gives the
/// value back, for every registered type and every conforming value.
pub proof fn lemma_roundtrip(reg: Map<u64, RegEntryView>, v: DatumView, t: FieldType)
    requires
        wf_registry(reg),
        conforms(reg, v, t),
    ensures
        spec_decode(reg, spec_encode(reg, v, t), t) == Ok::<DatumView, DecodeErrorView>(v),
    decreases v, 0nat, 0nat,
{
    match t {
        FieldType::Bool => {},
        FieldType::Int => {},
        FieldType::Text => {},
        FieldType::List(et) => {
            let vs = v->List_0;
            lemma_roundtrip_list(reg, vs, *et, vs.len());
            lemma_encode_list_index(reg, vs, *et, vs.len());
            assert(vs.take(vs.len() as int) =~= vs);
        },
        FieldType::Named(id) => {
            let entry = reg[id];
            match entry.type_codec {
                Some(h) => {
                    lemma_hook_roundtrip(h, v);
                },
                None => {
                    match entry.shape {
                        ShapeView::Record(fields) => {
                            let vs = v->Record_0;
                            lemma_roundtrip_fields(
                                reg,
                                Seq::empty(),
                                vs,
                                fields,
                                vs.len(),
                            );
                            assert(Seq::empty().add(
                                spec_encode_fields(reg, vs, fields, vs.len()),
                            ) =~= spec_encode_fields(reg, vs, fields, vs.len()));
                            assert(vs.take(vs.len() as int) =~= vs);
                        },
                        ShapeView::UnitEnum(names) => {
                            let k = v->Case_0;
                            lemma_find_name_from(names, names[k], 0);
                            match find_name(names, names[k]) {
                                Some(j) => {
                                    assert(j == k);
                                },
                                None => {
                                    assert(false);
                                },
                            }
                        },
                        ShapeView::TaggedUnion { tag, variants } => {
                            let k = v->Union_0;
                            let vs = v->Union_1;
                            let fields = variants[k].fields;
                            let prefix = seq![(tag, TokenView::Text(variants[k].name))];
                            let es = prefix + spec_encode_fields(reg, vs, fields, vs.len());
                            assert(es[0].0 == tag);
                            lemma_find_entry_from(es, tag, 0);
                            match find_entry(es, tag) {
                                Some(j) => {
                                    assert(j == 0);
                                },
                                None => {
                                    assert(false);
                                },
                            }
                            lemma_find_variant_from(variants, variants[k].name, 0);
                            match find_variant(variants, variants[k].name) {
                                Some(j) => {
                                    assert(j == k);
                                },
                                None => {
                                    assert(false);
                                },
                            }
                            assert(forall|j: int, i: int|
                                0 <= j < prefix.len() && 0 <= i < fields.len() ==> (
                                #[trigger] prefix[j]).0 != (#[trigger] fields[i]).wire_name);
                            lemma_roundtrip_fields(reg, prefix, vs, fields, vs.len());
                            assert(vs.take(vs.len() as int) =~= vs);
                        },
                    }
                },
            }
        },
    }
}

/// Round trip for list elements: the first `n` encoded elements decode
/// back to the first `n` values.
proof fn lemma_roundtrip_list(
    reg: Map<u64, RegEntryView>,
    vs: Seq<DatumView>,
    et: FieldType,
    n: nat,
)
    requires
        wf_registry(reg),
        conforms_list(reg, vs, et, vs.len()),
        n <= vs.len(),
    ensures
        spec_decode_list(reg, spec_encode_list(reg, vs, et, vs.len()), et, n) == Ok::<
            Seq<DatumView>,
            DecodeErrorView,
        >(vs.take(n as int)),
    decreases vs, 2nat, n,
{
    let ts = spec_encode_list(reg, vs, et, vs.len());
    lemma_encode_list_index(reg, vs, et, vs.len());
    if n == 0 {
        assert(vs.take(0) =~= Seq::<DatumView>::empty());
    } else {
        lemma_roundtrip_list(reg, vs, et, (n - 1) as nat);
        lemma_conforms_list_index(reg, vs, et, vs.len(), n - 1);
        lemma_roundtrip(reg, vs[n - 1], et);
        assert(ts[n - 1] == spec_encode(reg, vs[n - 1], et));
        assert(vs.take(n - 1).push(vs[n - 1]) =~= vs.take(n as int));
    }
}

/// Round trip for record and variant fields: decoding the encoded entries,
/// after any foreign prefix, gives the field values back, absent optional
/// fields included.
proof fn lemma_roundtrip_fields(
    reg: Map<u64, RegEntryView>,
    prefix: Seq<(Seq<char>, TokenView)>,
    vs: Seq<DatumView>,
    fields: Seq<FieldSpecView>,
    n: nat,
)
    requires
        wf_registry(reg),
        wf_fields(fields),
        vs.len() == fields.len(),
        conforms_fields(reg, vs, fields, vs.len()),
        n <= vs.len(),
        forall|j: int, i: int|
            0 <= j < prefix.len() && 0 <= i < fields.len() ==> (#[trigger] prefix[j]).0 != (
            #[trigger] fields[i]).wire_name,
    ensures
        spec_decode_fields(
            reg,
            prefix + spec_encode_fields(reg, vs, fields, vs.len()),
            fields,
            n,
        ) == Ok::<Seq<DatumView>, DecodeErrorView>(vs.take(n as int)),
    decreases vs, 2nat, n,
{
    let enc = spec_encode_fields(reg, vs, fields, vs.len());
    let es = prefix + enc;
    lemma_encode_fields_origin(reg, vs, fields, vs.len());
    if n == 0 {
        assert(vs.take(0) =~= Seq::<DatumView>::empty());
    } else {
        lemma_roundtrip_fields(reg, prefix, vs, fields, (n - 1) as nat);
        lemma_conforms_fields_index(reg, vs, fields, vs.len(), n - 1);
        let field = fields[n - 1];
        let x = vs[n - 1];
        lemma_find_entry_from(es, field.wire_name, 0);
        if x is Absent {
            // no entry carries this wire name, so the lookup fails and the
            // optional field comes back absent
            match find_entry(es, field.wire_name) {
                Some(j) => {
                    if j < prefix.len() {
                        assert(false);
                    } else {
                        let i = choose|i: int|
                            0 <= i < vs.len() && !(vs[i] is Absent) && #[trigger] enc[j
                                - prefix.len()] == (
                            fields[i].wire_name,
                            spec_encode_field_value(reg, vs[i], fields[i]),
                            );
                        assert(fields[i].wire_name == field.wire_name);
                        assert(i == n - 1);
                        assert(false);
                    }
                },
                None => {},
            }
            assert(spec_decode_field_value(reg, es, field) == Ok::<
                DatumView,
                DecodeErrorView,
            >(DatumView::Absent));
        } else {
            lemma_encode_fields_contains(reg, vs, fields, vs.len(), n - 1);
            let j0 = choose|j0: int|
                0 <= j0 < enc.len() && #[trigger] enc[j0] == (
                field.wire_name,
                spec_encode_field_value(reg, x, field),
                );
            assert(es[prefix.len() + j0] == enc[j0]);
            match find_entry(es, field.wire_name) {
                None => {
                    assert(es[prefix.len() + j0].0 == field.wire_name);
                    assert(false);
                },
                Some(j) => {
                    if j < prefix.len() {
                        assert(false);
                    } else {
                        let i = choose|i: int|
                            0 <= i < vs.len() && !(vs[i] is Absent) && #[trigger] enc[j
                                - prefix.len()] == (
                            fields[i].wire_name,
                            spec_encode_field_value(reg, vs[i], fields[i]),
                            );
                        assert(i == n - 1);
                        assert(es[j].1 == spec_encode_field_value(reg, x, field));
                        match field.codec {
                            Some(h) => {
                                lemma_hook_roundtrip(h, x);
                            },
                            None => {
                                lemma_roundtrip(reg, x, field.ftype);
                            },
                        }
                        assert(spec_decode_field_value(reg, es, field) == Ok::<
                            DatumView,
                            DecodeErrorView,
                        >(x));
                    }
                },
            }
        }
        assert(vs.take(n - 1).push(x) =~= vs.take(n as int));
    }
}

/// Optional elision: encoding a record whose optional field is absent
/// produces a mapping without that field's wire key at all.
pub proof fn lemma_optional_elision(
    reg: Map<u64, RegEntryView>,
    v: DatumView,
    id: u64,
    i: int,
)
    requires
        wf_registry(reg),
        conforms(reg, v, FieldType::Named(id)),
        reg[id].type_codec is None,
        reg[id].shape matches ShapeView::Record(fields),
        0 <= i < reg[id].shape->Record_0.len(),
        v->Record_0[i] is Absent,
    ensures
        spec_encode(reg, v, FieldType::Named(id)) matches TokenView::Mapping(es) && find_entry(
            es,
            reg[id].shape->Record_0[i].wire_name,
        ) is None,
{
    let fields = reg[id].shape->Record_0;
    let vs = v->Record_0;
    let es = spec_encode_fields(reg, vs, fields, vs.len());
    lemma_encode_fields_origin(reg, vs, fields, vs.len());
    lemma_find_entry_from(es, fields[i].wire_name, 0);
    match find_entry(es, fields[i].wire_name) {
        Some(j) => {
            let i2 = choose|i2: int|
                0 <= i2 < vs.len() && !(vs[i2] is Absent) && #[trigger] es[j] == (
                fields[i2].wire_name,
                spec_encode_field_value(reg, vs[i2], fields[i2]),
                );
            assert(i2 == i);
            assert(false);
        },
        None => {},
    }
}

/// Optional absence on decode: a mapping that lacks an optional field's
/// wire key decodes, when it decodes at all, to a record holding the
/// absent sentinel at that field.
pub proof fn lemma_optional_absent_decode(
    reg: Map<u64, RegEntryView>,
    es: Seq<(Seq<char>, TokenView)>,
    id: u64,
    i: int,
)
    requires
        reg.contains_key(id),
        reg[id].type_codec is None,
        reg[id].shape matches ShapeView::Record(fields),
        0 <= i < reg[id].shape->Record_0.len(),
        reg[id].shape->Record_0[i].optional,
        find_entry(es, reg[id].shape->Record_0[i].wire_name) is None,
        spec_decode(reg, TokenView::Mapping(es), FieldType::Named(id)) is Ok,
    ensures
        spec_decode(reg, TokenView::Mapping(es), FieldType::Named(id))->Ok_0->Record_0[i]
            is Absent,
{
    let fields = reg[id].shape->Record_0;
    lemma_decode_fields_index(reg, es, fields, fields.len());
}

/// Missing required field: when every earlier field decodes, a mapping
/// that lacks a required field's wire key fails with `MissingField`
/// naming that field.
pub proof fn lemma_missing_required_field(
    reg: Map<u64, RegEntryView>,
    es: Seq<(Seq<char>, TokenView)>,
    id: u64,
    i: int,
)
    requires
        reg.contains_key(id),
        reg[id].type_codec is None,
        reg[id].shape matches ShapeView::Record(fields),
        0 <= i < reg[id].shape->Record_0.len(),
        !reg[id].shape->Record_0[i].optional,
        find_entry(es, reg[id].shape->Record_0[i].wire_name) is None,
        spec_decode_fields(reg, es, reg[id].shape->Record_0, i as nat) is Ok,
    ensures
        spec_decode(reg, TokenView::Mapping(es), FieldType::Named(id)) == Err::<
            DatumView,
            DecodeErrorView,
        >(
            DecodeErrorView {
                path: seq![reg[id].shape->Record_0[i].name],
                kind: DecodeErrorKindView::MissingField(reg[id].shape->Record_0[i].name),
            },
        ),
{
    let fields = reg[id].shape->Record_0;
    assert(spec_decode_field_value(reg, es, fields[i]) == Err::<DatumView, DecodeErrorView>(
        DecodeErrorView {
            path: seq![fields[i].name],
            kind: DecodeErrorKindView::MissingField(fields[i].name),
        },
    ));
    assert(spec_decode_fields(reg, es, fields, (i + 1) as nat) == Err::<
        Seq<DatumView>,
        DecodeErrorView,
    >(
        DecodeErrorView {
            path: seq![fields[i].name],
            kind: DecodeErrorKindView::MissingField(fields[i].name),
        },
    ));
    lemma_decode_fields_err_persists(reg, es, fields, (i + 1) as nat, fields.len());
}

/// Unknown tagged-union variant: a mapping whose tag value names no
/// declared variant fails with `UnknownVariant` carrying that value.
pub proof fn lemma_unknown_variant(
    reg: Map<u64, RegEntryView>,
    es: Seq<(Seq<char>, TokenView)>,
    id: u64,
    j: int,
    s: Seq<char>,
)
    requires
        reg.contains_key(id),
        reg[id].type_codec is None,
        reg[id].shape matches ShapeView::TaggedUnion { tag, variants },
        find_entry(es, reg[id].shape->TaggedUnion_tag) == Some(j),
        es[j].1 == TokenView::Text(s),
        forall|k: int|
            0 <= k < reg[id].shape->TaggedUnion_variants.len() ==> (
            #[trigger] reg[id].shape->TaggedUnion_variants[k]).name != s,
    ensures
        spec_decode(reg, TokenView::Mapping(es), FieldType::Named(id)) == Err::<
            DatumView,
            DecodeErrorView,
        >(err_here(DecodeErrorKindView::UnknownVariant(s))),
{
    let variants = reg[id].shape->TaggedUnion_variants;
    lemma_find_variant_from(variants, s, 0);
    match find_variant(variants, s) {
        Some(k) => {
            assert(false);
        },
        None => {},
    }
}

/// Custom codec fidelity: the epoch-milliseconds hook decodes its own
/// encoding of any timestamp back to the same millisecond count, exactly.
pub proof fn lemma_epoch_millis_fidelity(ms: int)
    ensures
        spec_hook_decode(
            HookId::EpochMillis,
            spec_hook_encode(HookId::EpochMillis, DatumView::Int(ms)),
        ) == Ok::<DatumView, HookError>(DatumView::Int(ms)),
{
}

} // verus!
