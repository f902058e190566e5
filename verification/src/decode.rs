//! The executable generic decoder, proved against `spec_decode`.
//!
//! Decoding is deterministic on malformed input: it rejects the token with
//! the first error met, in declared field order, and never yields a
//! partially-populated value.  Each error carries the path of field and
//! variant names from the root to the offending position.

use vstd::prelude::*;

use crate::codec::{
    find_name, find_variant, lemma_decode_fields_err_persists, lemma_decode_list_err_persists,
    lemma_find_name_from, lemma_find_variant_from, spec_decode, spec_decode_field_value,
    spec_decode_fields, spec_decode_list,
};
use crate::error::{DecodeError, DecodeErrorKind, DecodeErrorView, TokenKind};
use crate::hooks::hook_decode;
use crate::shape::{FieldSpec, FieldType, Registry, ShapeSpec, Variant};
use crate::token::{
    entry_models_upto, find_entry_pos, lemma_entry_models_upto, lemma_token_models_upto,
    token_models_upto, Token,
};
use crate::value::{lemma_value_models_upto, lemma_value_models_upto_prefix, value_models_upto,
    Datum, DatumView,
};

verus! {

/// The syntactic kind of a token, for mismatch reports.
pub fn token_kind(t: &Token) -> (k: TokenKind)
    ensures
        k == crate::codec::kind_of(t@),
{
    match t {
        Token::Null => TokenKind::Null,
        Token::Bool(_) => TokenKind::Bool,
        Token::Number(_) => TokenKind::Number,
        Token::Text(_) => TokenKind::Text,
        Token::Sequence(_) => TokenKind::Sequence,
        Token::Mapping(_) => TokenKind::Mapping,
    }
}

/// A decode error at the current position.
fn make_error(kind: DecodeErrorKind) -> (e: DecodeError)
    ensures
        e@ == crate::codec::err_here(kind@),
{
    let e = DecodeError { path: Vec::new(), kind };
    proof {
        assert(e@.path =~= Seq::<Seq<char>>::empty());
    }
    e
}

/// A decode error at a named field.
fn make_field_error(name: &String, kind: DecodeErrorKind) -> (e: DecodeError)
    ensures
        e@ == (DecodeErrorView { path: seq![name@], kind: kind@ }),
{
    let mut path: Vec<String> = Vec::new();
    path.push(name.clone());
    let e = DecodeError { path, kind };
    proof {
        assert(e@.path =~= seq![name@]);
    }
    e
}

/// The position of the first declared name equal to `s`.
#[verifier::loop_isolation(false)]
fn find_name_pos(names: &Vec<String>, s: &String) -> (r: Option<usize>)
    ensures
        ({
            let nm = names.deep_view();
            match r {
                Some(k) => k < names@.len() && find_name(nm, s@) == Some(k as int),
                None => find_name(nm, s@) is None,
            }
        }),
{
    let ghost nm = names.deep_view();
    proof {
        lemma_find_name_from(nm, s@, 0);
    }
    let n = names.len();
    for i in 0..n
        invariant
            forall|k: int| 0 <= k < i ==> nm[k] != s@,
    {
        if names[i] == *s {
            proof {
                assert(nm[i as int] == s@);
                if find_name(nm, s@) is None {
                    assert(false);
                } else {
                    let jj = find_name(nm, s@)->Some_0;
                    assert(nm[jj] == s@);
                    assert(!(jj < i));
                    assert(!(jj > i));
                }
            }
            return Some(i);
        }
    }
    None
}

/// The position of the first variant named `s`.
#[verifier::loop_isolation(false)]
fn find_variant_pos(variants: &Vec<Variant>, s: &String) -> (r: Option<usize>)
    ensures
        ({
            let vm = variants.deep_view();
            match r {
                Some(k) => k < variants@.len() && find_variant(vm, s@) == Some(k as int),
                None => find_variant(vm, s@) is None,
            }
        }),
{
    let ghost vm = variants.deep_view();
    proof {
        lemma_find_variant_from(vm, s@, 0);
    }
    let n = variants.len();
    for i in 0..n
        invariant
            forall|k: int| 0 <= k < i ==> (#[trigger] vm[k]).name != s@,
    {
        if variants[i].name == *s {
            proof {
                assert(vm[i as int].name == s@);
                if find_variant(vm, s@) is None {
                    assert(false);
                } else {
                    let jj = find_variant(vm, s@)->Some_0;
                    assert(vm[jj].name == s@);
                    assert(!(jj < i));
                    assert(!(jj > i));
                }
            }
            return Some(i);
        }
    }
    None
}

/// Decode a token at a field type.
#[verifier::loop_isolation(false)]
pub fn decode_as(reg: &Registry, t: &Token, ft: &FieldType) -> (r: Result<Datum, DecodeError>)
    requires
        reg.wf(),
    ensures
        match r {
            Ok(v) => spec_decode(reg@, t@, *ft) == Ok::<DatumView, DecodeErrorView>(v@),
            Err(e) => spec_decode(reg@, t@, *ft) == Err::<DatumView, DecodeErrorView>(e@),
        },
    decreases t@, 0nat, 0nat,
{
    match ft {
        FieldType::Bool => {
            match t {
                Token::Bool(b) => Ok(Datum::Bool(*b)),
                _ => Err(
                    make_error(DecodeErrorKind::TypeMismatch(TokenKind::Bool, token_kind(t))),
                ),
            }
        },
        FieldType::Int => {
            match t {
                Token::Number(n) => Ok(Datum::Int(*n)),
                _ => Err(
                    make_error(
                        DecodeErrorKind::TypeMismatch(TokenKind::Number, token_kind(t)),
                    ),
                ),
            }
        },
        FieldType::Text => {
            match t {
                Token::Text(s) => Ok(Datum::Text(s.clone())),
                _ => Err(
                    make_error(DecodeErrorKind::TypeMismatch(TokenKind::Text, token_kind(t))),
                ),
            }
        },
        FieldType::List(et) => {
            match t {
                Token::Sequence(ts) => {
                    let ghost tsm = token_models_upto(ts@, ts@.len());
                    proof {
                        lemma_token_models_upto(ts@, ts@.len());
                    }
                    let n = ts.len();
                    let mut out: Vec<Datum> = Vec::new();
                    for i in 0..n
                        invariant
                            out@.len() == i,
                            spec_decode_list(reg@, tsm, **et, i as nat) == Ok::<
                                Seq<DatumView>,
                                DecodeErrorView,
                            >(value_models_upto(out@, i as nat)),
                    {
                        proof {
                            assert(decreases_to!(t@ => t@->Sequence_0));
                            assert(decreases_to!(tsm => tsm[i as int]));
                        }
                        let ghost out_before = out@;
                        match decode_as(reg, &ts[i], et) {
                            Ok(v) => {
                                out.push(v);
                                proof {
                                    lemma_value_models_upto_prefix(
                                        out_before,
                                        out@,
                                        out_before.len(),
                                    );
                                }
                            },
                            Err(e) => {
                                proof {
                                    lemma_decode_list_err_persists(
                                        reg@,
                                        tsm,
                                        **et,
                                        (i + 1) as nat,
                                        tsm.len(),
                                    );
                                }
                                return Err(e);
                            },
                        }
                    }
                    let v = Datum::List(out);
                    Ok(v)
                },
                _ => Err(
                    make_error(
                        DecodeErrorKind::TypeMismatch(TokenKind::Sequence, token_kind(t)),
                    ),
                ),
            }
        },
        FieldType::Named(id) => {
            let entry = match reg.lookup(*id) {
                Ok(e) => e,
                Err(_) => {
                    return Err(make_error(DecodeErrorKind::UnknownType(*id)));
                },
            };
            match &entry.type_codec {
                Some(h) => {
                    match hook_decode(*h, t) {
                        Ok(v) => Ok(v),
                        Err(he) => Err(make_error(DecodeErrorKind::CustomCodec(he))),
                    }
                },
                None => {
                    match &entry.shape {
                        ShapeSpec::Record(fields) => {
                            match t {
                                Token::Mapping(es) => {
                                    proof {
                                        assert(decreases_to!(t@ => t@->Mapping_0));
                                    }
                                    match decode_fields(reg, es, fields) {
                                        Ok(vs) => Ok(Datum::Record(vs)),
                                        Err(e) => Err(e),
                                    }
                                },
                                _ => Err(
                                    make_error(
                                        DecodeErrorKind::TypeMismatch(
                                            TokenKind::Mapping,
                                            token_kind(t),
                                        ),
                                    ),
                                ),
                            }
                        },
                        ShapeSpec::UnitEnum(names) => {
                            match t {
                                Token::Text(s) => {
                                    match find_name_pos(names, s) {
                                        Some(k) => Ok(Datum::Case(k)),
                                        None => Err(
                                            make_error(
                                                DecodeErrorKind::UnknownVariant(s.clone()),
                                            ),
                                        ),
                                    }
                                },
                                _ => Err(
                                    make_error(
                                        DecodeErrorKind::TypeMismatch(
                                            TokenKind::Text,
                                            token_kind(t),
                                        ),
                                    ),
                                ),
                            }
                        },
                        ShapeSpec::TaggedUnion { tag, variants } => {
                            match t {
                                Token::Mapping(es) => {
                                    proof {
                                        lemma_entry_models_upto(es@, es@.len());
                                    }
                                    let j = match find_entry_pos(es, tag) {
                                        Some(j) => j,
                                        None => {
                                            return Err(
                                                make_error(DecodeErrorKind::MissingTag),
                                            );
                                        },
                                    };
                                    match &es[j].1 {
                                        Token::Text(s) => {
                                            match find_variant_pos(variants, s) {
                                                Some(k) => {
                                                    proof {
                                                        assert(decreases_to!(t@
                                                            => t@->Mapping_0));
                                                    }
                                                    match decode_fields(
                                                        reg,
                                                        es,
                                                        &variants[k].fields,
                                                    ) {
                                                        Ok(vs) => Ok(Datum::Union(k, vs)),
                                                        Err(mut e) => {
                                                            e.push_path(&variants[k].name);
                                                            Err(e)
                                                        },
                                                    }
                                                },
                                                None => Err(
                                                    make_error(
                                                        DecodeErrorKind::UnknownVariant(
                                                            s.clone(),
                                                        ),
                                                    ),
                                                ),
                                            }
                                        },
                                        _ => Err(make_error(DecodeErrorKind::MissingTag)),
                                    }
                                },
                                _ => Err(
                                    make_error(
                                        DecodeErrorKind::TypeMismatch(
                                            TokenKind::Mapping,
                                            token_kind(t),
                                        ),
                                    ),
                                ),
                            }
                        },
                    }
                },
            }
        },
    }
}

/// Decode one field's value, looking its wire name up in the mapping's
/// entries.
#[verifier::loop_isolation(false)]
fn decode_field_value(reg: &Registry, es: &Vec<(String, Token)>, field: &FieldSpec) -> (r: Result<
    Datum,
    DecodeError,
>)
    requires
        reg.wf(),
    ensures
        ({
            let ems = entry_models_upto(es@, es@.len());
            match r {
                Ok(v) => spec_decode_field_value(reg@, ems, field@) == Ok::<
                    DatumView,
                    DecodeErrorView,
                >(v@),
                Err(e) => spec_decode_field_value(reg@, ems, field@) == Err::<
                    DatumView,
                    DecodeErrorView,
                >(e@),
            }
        }),
    decreases entry_models_upto(es@, es@.len()), 1nat, 0nat,
{
    let ghost ems = entry_models_upto(es@, es@.len());
    proof {
        lemma_entry_models_upto(es@, es@.len());
    }
    match find_entry_pos(es, &field.wire_name) {
        None => {
            if field.optional {
                Ok(Datum::Absent)
            } else {
                Err(
                    make_field_error(
                        &field.name,
                        DecodeErrorKind::MissingField(field.name.clone()),
                    ),
                )
            }
        },
        Some(j) => {
            match &field.codec {
                Some(h) => {
                    match hook_decode(*h, &es[j].1) {
                        Ok(v) => Ok(v),
                        Err(he) => Err(
                            make_field_error(&field.name, DecodeErrorKind::CustomCodec(he)),
                        ),
                    }
                },
                None => {
                    proof {
                        assert(decreases_to!(ems => ems[j as int]));
                        assert(decreases_to!(ems[j as int] => ems[j as int].1));
                    }
                    match decode_as(reg, &es[j].1, &field.ftype) {
                        Ok(v) => Ok(v),
                        Err(mut e) => {
                            e.push_path(&field.name);
                            Err(e)
                        },
                    }
                },
            }
        },
    }
}

/// Decode the fields of a record or variant from a mapping's entries, in
/// declared order, stopping at the first failure.
#[verifier::loop_isolation(false)]
fn decode_fields(reg: &Registry, es: &Vec<(String, Token)>, fields: &Vec<FieldSpec>) -> (r: Result<
    Vec<Datum>,
    DecodeError,
>)
    requires
        reg.wf(),
    ensures
        ({
            let ems = entry_models_upto(es@, es@.len());
            let fdm = fields.deep_view();
            match r {
                Ok(vs) => vs@.len() == fields@.len() && spec_decode_fields(
                    reg@,
                    ems,
                    fdm,
                    fields@.len(),
                ) == Ok::<Seq<DatumView>, DecodeErrorView>(
                    value_models_upto(vs@, vs@.len()),
                ),
                Err(e) => spec_decode_fields(reg@, ems, fdm, fields@.len()) == Err::<
                    Seq<DatumView>,
                    DecodeErrorView,
                >(e@),
            }
        }),
    decreases entry_models_upto(es@, es@.len()), 2nat, 0nat,
{
    let ghost ems = entry_models_upto(es@, es@.len());
    let ghost fdm = fields.deep_view();
    let n = fields.len();
    let mut out: Vec<Datum> = Vec::new();
    for i in 0..n
        invariant
            out@.len() == i,
            spec_decode_fields(reg@, ems, fdm, i as nat) == Ok::<
                Seq<DatumView>,
                DecodeErrorView,
            >(value_models_upto(out@, i as nat)),
    {
        let ghost out_before = out@;
        match decode_field_value(reg, es, &fields[i]) {
            Ok(v) => {
                out.push(v);
                proof {
                    lemma_value_models_upto_prefix(out_before, out@, out_before.len());
                }
            },
            Err(e) => {
                proof {
                    lemma_decode_fields_err_persists(
                        reg@,
                        ems,
                        fdm,
                        (i + 1) as nat,
                        fdm.len(),
                    );
                }
                return Err(e);
            },
        }
    }
    Ok(out)
}

/// Decode a token as a value of a registered type: the entry point of the
/// generic decoder.
pub fn decode(reg: &Registry, t: &Token, id: u64) -> (r: Result<Datum, DecodeError>)
    requires
        reg.wf(),
    ensures
        match r {
            Ok(v) => spec_decode(reg@, t@, FieldType::Named(id)) == Ok::<
                DatumView,
                DecodeErrorView,
            >(v@),
            Err(e) => spec_decode(reg@, t@, FieldType::Named(id)) == Err::<
                DatumView,
                DecodeErrorView,
            >(e@),
        },
{
    decode_as(reg, t, &FieldType::Named(id))
}

} // verus!
