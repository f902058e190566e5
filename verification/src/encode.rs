//! The executable generic encoder, proved against `spec_encode`.
//!
//! Encoding is total on conforming values: a registered, shape-fitting
//! value always encodes, and the result is exactly what `spec_encode`
//! says.  Absent optional fields are omitted from the produced mapping;
//! tagged-union values become a mapping with the tag entry first.

use vstd::prelude::*;

use crate::codec::{
    conforms, conforms_field_value, conforms_fields, lemma_conforms_fields_index,
    lemma_conforms_list_index, lemma_encode_list_index, spec_encode, spec_encode_field_value,
    spec_encode_fields, spec_encode_list,
};
use crate::hooks::hook_encode;
use crate::shape::{FieldSpec, FieldType, Registry, ShapeSpec};
use crate::token::{
    entry_models_upto, lemma_entry_models_upto, lemma_entry_models_upto_prefix,
    lemma_token_models_upto, Token, TokenView,
};
use crate::value::{
    lemma_model_variant, lemma_value_models_upto, value_models_upto, Datum, DatumView,
};

verus! {

/// Encode a conforming value at a field type.
#[verifier::loop_isolation(false)]
pub fn encode_as(reg: &Registry, v: &Datum, t: &FieldType) -> (r: Token)
    requires
        reg.wf(),
        conforms(reg@, v@, *t),
    ensures
        r@ == spec_encode(reg@, v@, *t),
    decreases v@, 0nat, 0nat,
{
    proof {
        lemma_model_variant(*v);
    }
    match t {
        FieldType::Bool => {
            match v {
                Datum::Bool(b) => Token::Bool(*b),
                _ => Token::Null,  // unreachable: the value conforms
            }
        },
        FieldType::Int => {
            match v {
                Datum::Int(n) => Token::Number(*n),
                _ => Token::Null,  // unreachable: the value conforms
            }
        },
        FieldType::Text => {
            match v {
                Datum::Text(s) => Token::Text(s.clone()),
                _ => Token::Null,  // unreachable: the value conforms
            }
        },
        FieldType::List(et) => {
            match v {
                Datum::List(vs) => {
                    let ghost vsm = value_models_upto(vs@, vs@.len());
                    proof {
                        lemma_value_models_upto(vs@, vs@.len());
                    }
                    let n = vs.len();
                    let mut out: Vec<Token> = Vec::new();
                    for i in 0..n
                        invariant
                            reg.wf(),
                            n == vs@.len(),
                            vsm == value_models_upto(vs@, vs@.len()),
                            vsm.len() == n,
                            forall|j: int| 0 <= j < n ==> #[trigger] vsm[j] == vs@[j]@,
                            crate::codec::conforms_list(reg@, vsm, **et, vsm.len()),
                            out@.len() == i,
                            forall|j: int|
                                0 <= j < i ==> #[trigger] out@[j]@ == spec_encode(
                                    reg@,
                                    vsm[j],
                                    **et,
                                ),
                    {
                        proof {
                            lemma_conforms_list_index(reg@, vsm, **et, vsm.len(), i as int);
                            assert(decreases_to!(v@ => v@->List_0));
                            assert(decreases_to!(vsm => vsm[i as int]));
                        }
                        let tok = encode_as(reg, &vs[i], et);
                        out.push(tok);
                    }
                    proof {
                        lemma_token_models_upto(out@, out@.len());
                        lemma_encode_list_index(reg@, vsm, **et, vsm.len());
                        assert(out@.len() == n);
                        assert(spec_encode_list(reg@, vsm, **et, vsm.len()).len() == n);
                        assert forall|j: int| 0 <= j < n implies #[trigger] crate::token::token_models_upto(
                            out@,
                            out@.len(),
                        )[j] == spec_encode_list(reg@, vsm, **et, vsm.len())[j] by {
                            assert(crate::token::token_models_upto(out@, out@.len())[j]
                                == out@[j].model());
                            assert(out@[j]@ == spec_encode(reg@, vsm[j], **et));
                            assert(spec_encode_list(reg@, vsm, **et, vsm.len())[j] == spec_encode(
                                reg@,
                                vsm[j],
                                **et,
                            ));
                        }
                        assert(crate::token::token_models_upto(out@, out@.len())
                            =~= spec_encode_list(reg@, vsm, **et, vsm.len()));
                    }
                    Token::Sequence(out)
                },
                _ => Token::Null,  // unreachable: the value conforms
            }
        },
        FieldType::Named(id) => {
            let entry = match reg.lookup(*id) {
                Ok(e) => e,
                Err(_) => {
                    proof {
                        assert(false);  // the value conforms, so the id is registered
                    }
                    return Token::Null;
                },
            };
            match &entry.type_codec {
                Some(h) => hook_encode(*h, v),
                None => {
                    match &entry.shape {
                        ShapeSpec::Record(fields) => {
                            match v {
                                Datum::Record(vs) => {
                                    let mut out: Vec<(String, Token)> = Vec::new();
                                    proof {
                                        lemma_value_models_upto(vs@, vs@.len());
                                        assert(decreases_to!(v@ => v@->Record_0));
                                    }
                                    encode_fields_into(reg, vs, fields, &mut out);
                                    let r = Token::Mapping(out);
                                    proof {
                                        assert(r@->Mapping_0 =~= spec_encode_fields(
                                            reg@,
                                            v@->Record_0,
                                            fields.deep_view(),
                                            v@->Record_0.len(),
                                        ));
                                    }
                                    r
                                },
                                _ => Token::Null,  // unreachable: the value conforms
                            }
                        },
                        ShapeSpec::UnitEnum(names) => {
                            match v {
                                Datum::Case(k) => Token::Text(names[*k].clone()),
                                _ => Token::Null,  // unreachable: the value conforms
                            }
                        },
                        ShapeSpec::TaggedUnion { tag, variants } => {
                            match v {
                                Datum::Union(k, vs) => {
                                    let variant = &variants[*k];
                                    let mut out: Vec<(String, Token)> = Vec::new();
                                    out.push(
                                        (tag.clone(), Token::Text(variant.name.clone())),
                                    );
                                    proof {
                                        lemma_value_models_upto(vs@, vs@.len());
                                        lemma_entry_models_upto(out@, 1);
                                        assert(entry_models_upto(out@, 1) =~= seq![
                                            (tag@, TokenView::Text(variant.name@)),
                                        ]);
                                        assert(decreases_to!(v@ => v@->Union_1));
                                    }
                                    encode_fields_into(reg, vs, &variant.fields, &mut out);
                                    let r = Token::Mapping(out);
                                    proof {
                                        assert(r@->Mapping_0 =~= seq![
                                            (tag@, TokenView::Text(variant.name@)),
                                        ] + spec_encode_fields(
                                            reg@,
                                            v@->Union_1,
                                            variant.fields.deep_view(),
                                            v@->Union_1.len(),
                                        ));
                                    }
                                    r
                                },
                                _ => Token::Null,  // unreachable: the value conforms
                            }
                        },
                    }
                },
            }
        },
    }
}

/// Encode one present field's value, through its hook if it has one.
fn encode_field_value(reg: &Registry, v: &Datum, field: &FieldSpec) -> (r: Token)
    requires
        reg.wf(),
        !(v@ is Absent),
        conforms_field_value(reg@, v@, field@),
    ensures
        r@ == spec_encode_field_value(reg@, v@, field@),
    decreases v@, 1nat, 0nat,
{
    match &field.codec {
        Some(h) => hook_encode(*h, v),
        None => encode_as(reg, v, &field.ftype),
    }
}

/// Append the entries the fields encode to: one per present field, in
/// declared order; absent optional fields contribute nothing.
#[verifier::loop_isolation(false)]
fn encode_fields_into(
    reg: &Registry,
    vs: &Vec<Datum>,
    fields: &Vec<FieldSpec>,
    out: &mut Vec<(String, Token)>,
)
    requires
        reg.wf(),
        vs@.len() == fields@.len(),
        conforms_fields(
            reg@,
            value_models_upto(vs@, vs@.len()),
            fields.deep_view(),
            vs@.len(),
        ),
    ensures
        entry_models_upto(final(out)@, final(out)@.len()) == entry_models_upto(
            old(out)@,
            old(out)@.len(),
        ) + spec_encode_fields(
            reg@,
            value_models_upto(vs@, vs@.len()),
            fields.deep_view(),
            vs@.len(),
        ),
    decreases value_models_upto(vs@, vs@.len()), 2nat, 0nat,
{
    let ghost vsm = value_models_upto(vs@, vs@.len());
    let ghost fdm = fields.deep_view();
    let ghost base = entry_models_upto(old(out)@, old(out)@.len());
    proof {
        lemma_value_models_upto(vs@, vs@.len());
    }
    let n = vs.len();
    for i in 0..n
        invariant
            reg.wf(),
            n == vs@.len(),
            n == fields@.len(),
            vsm == value_models_upto(vs@, vs@.len()),
            fdm == fields.deep_view(),
            vsm.len() == n,
            fdm.len() == n,
            forall|j: int| 0 <= j < n ==> #[trigger] vsm[j] == vs@[j]@,
            forall|j: int| 0 <= j < n ==> #[trigger] fdm[j] == fields@[j]@,
            conforms_fields(reg@, vsm, fdm, vsm.len()),
            base == entry_models_upto(old(out)@, old(out)@.len()),
            out@.len() >= old(out)@.len(),
            forall|j: int| 0 <= j < old(out)@.len() ==> out@[j] == old(out)@[j],
            entry_models_upto(out@, out@.len()) == base + spec_encode_fields(
                reg@,
                vsm,
                fdm,
                i as nat,
            ),
    {
        proof {
            lemma_conforms_fields_index(reg@, vsm, fdm, vsm.len(), i as int);
        }
        let ghost out_before = out@;
        if let Datum::Absent = &vs[i] {
            proof {
                assert(spec_encode_fields(reg@, vsm, fdm, (i + 1) as nat) == spec_encode_fields(
                    reg@,
                    vsm,
                    fdm,
                    i as nat,
                ));
            }
        } else {
            proof {
                lemma_model_variant(vs@[i as int]);
                assert(decreases_to!(vsm => vsm[i as int]));
            }
            let tok = encode_field_value(reg, &vs[i], &fields[i]);
            let wire = fields[i].wire_name.clone();
            out.push((wire, tok));
            proof {
                lemma_entry_models_upto_prefix(out_before, out@, out_before.len());
                lemma_entry_models_upto(out@, out@.len());
                lemma_entry_models_upto(out_before, out_before.len());
                assert(entry_models_upto(out@, out@.len()) == entry_models_upto(
                    out@,
                    out_before.len(),
                ).push((fields@[i as int].wire_name@, tok@)));
                assert(entry_models_upto(out@, out@.len()) =~= base + spec_encode_fields(
                    reg@,
                    vsm,
                    fdm,
                    (i + 1) as nat,
                ));
            }
        }
    }
}

/// Encode a conforming value of a registered type: the entry point of the
/// generic encoder.
pub fn encode(reg: &Registry, v: &Datum, id: u64) -> (r: Token)
    requires
        reg.wf(),
        conforms(reg@, v@, FieldType::Named(id)),
    ensures
        r@ == spec_encode(reg@, v@, FieldType::Named(id)),
{
    encode_as(reg, v, &FieldType::Named(id))
}

} // verus!
