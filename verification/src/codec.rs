//! The generic encoder and decoder, at the specification level.
//!
//! `conforms` says which values fit which field type under a registry;
//! `spec_encode` gives the token a conforming value encodes to, and
//! `spec_decode` gives the value or error any token decodes to.  The
//! executable encoder and decoder are proved against these functions.

use vstd::prelude::*;

use crate::error::{DecodeErrorKindView, DecodeErrorView, TokenKind};
use crate::hooks::{hook_conforms, spec_hook_decode, spec_hook_encode};
use crate::shape::{FieldSpecView, FieldType, RegEntryView, ShapeView, VariantView};
use crate::token::{find_entry, lemma_find_entry_from, TokenView};
use crate::value::DatumView;

verus! {

/// The syntactic kind of a token.
pub open spec fn kind_of(t: TokenView) -> TokenKind {
    match t {
        TokenView::Null => TokenKind::Null,
        TokenView::Bool(_) => TokenKind::Bool,
        TokenView::Number(_) => TokenKind::Number,
        TokenView::Text(_) => TokenKind::Text,
        TokenView::Sequence(_) => TokenKind::Sequence,
        TokenView::Mapping(_) => TokenKind::Mapping,
    }
}

/// A decode error with an empty path.
pub open spec fn err_here(kind: DecodeErrorKindView) -> DecodeErrorView {
    DecodeErrorView { path: Seq::empty(), kind }
}

/// A type-mismatch error for a token where `expected` was wanted.
pub open spec fn err_mismatch(expected: TokenKind, t: TokenView) -> DecodeErrorView {
    err_here(DecodeErrorKindView::TypeMismatch(expected, kind_of(t)))
}

/// The position of the first name equal to `s`, searching from `i`.
pub open spec fn find_name_from(names: Seq<Seq<char>>, s: Seq<char>, i: nat) -> Option<int>
    decreases names.len() - i,
    when i <= names.len()
{
    if i == names.len() {
        None
    } else if names[i as int] == s {
        Some(i as int)
    } else {
        find_name_from(names, s, i + 1)
    }
}

/// The position of the first declared name equal to `s`.
pub open spec fn find_name(names: Seq<Seq<char>>, s: Seq<char>) -> Option<int> {
    find_name_from(names, s, 0)
}

/// The position of the first variant named `s`, searching from `i`.
pub open spec fn find_variant_from(variants: Seq<VariantView>, s: Seq<char>, i: nat) -> Option<
    int,
>
    decreases variants.len() - i,
    when i <= variants.len()
{
    if i == variants.len() {
        None
    } else if variants[i as int].name == s {
        Some(i as int)
    } else {
        find_variant_from(variants, s, i + 1)
    }
}

/// The position of the first variant named `s`.
pub open spec fn find_variant(variants: Seq<VariantView>, s: Seq<char>) -> Option<int> {
    find_variant_from(variants, s, 0)
}

/// Whether value `v` fits field type `t` under registry `reg`.
pub open spec fn conforms(reg: Map<u64, RegEntryView>, v: DatumView, t: FieldType) -> bool
    decreases v, 0nat, 0nat,
{
    match t {
        FieldType::Bool => v is Bool,
        FieldType::Int => v is Int,
        FieldType::Text => v is Text,
        FieldType::List(et) => {
            &&& v matches DatumView::List(vs)
            &&& conforms_list(reg, vs, *et, vs.len())
        },
        FieldType::Named(id) => {
            &&& reg.contains_key(id)
            &&& match reg[id].type_codec {
                Some(h) => hook_conforms(h, v),
                None => match reg[id].shape {
                    ShapeView::Record(fields) => {
                        &&& v matches DatumView::Record(vs)
                        &&& vs.len() == fields.len()
                        &&& conforms_fields(reg, vs, fields, vs.len())
                    },
                    ShapeView::UnitEnum(names) => {
                        &&& v matches DatumView::Case(k)
                        &&& 0 <= k < names.len()
                    },
                    ShapeView::TaggedUnion { tag, variants } => {
                        &&& v matches DatumView::Union(k, vs)
                        &&& 0 <= k < variants.len()
                        &&& vs.len() == variants[k].fields.len()
                        &&& conforms_fields(reg, vs, variants[k].fields, vs.len())
                    },
                },
            }
        },
    }
}

/// Whether one field's value fits its field specification: absent only if
/// optional, and otherwise fitting the field's hook or type.
pub open spec fn conforms_field_value(
    reg: Map<u64, RegEntryView>,
    v: DatumView,
    field: FieldSpecView,
) -> bool
    decreases v, 1nat, 0nat,
{
    if v is Absent {
        field.optional
    } else {
        match field.codec {
            Some(h) => hook_conforms(h, v),
            None => conforms(reg, v, field.ftype),
        }
    }
}

/// Whether the first `n` values fit the first `n` field specifications.
pub open spec fn conforms_fields(
    reg: Map<u64, RegEntryView>,
    vs: Seq<DatumView>,
    fields: Seq<FieldSpecView>,
    n: nat,
) -> bool
    decreases vs, 2nat, n,
    when n <= vs.len()
{
    if n == 0 {
        true
    } else {
        conforms_fields(reg, vs, fields, (n - 1) as nat) && conforms_field_value(
            reg,
            vs[n - 1],
            fields[n - 1],
        )
    }
}

/// Whether the first `n` elements all fit the element type.
pub open spec fn conforms_list(
    reg: Map<u64, RegEntryView>,
    vs: Seq<DatumView>,
    et: FieldType,
    n: nat,
) -> bool
    decreases vs, 2nat, n,
    when n <= vs.len()
{
    if n == 0 {
        true
    } else {
        conforms_list(reg, vs, et, (n - 1) as nat) && conforms(reg, vs[n - 1], et)
    }
}

/// The token a conforming value encodes to.
pub open spec fn spec_encode(reg: Map<u64, RegEntryView>, v: DatumView, t: FieldType) -> TokenView
    decreases v, 0nat, 0nat,
{
    match t {
        FieldType::Bool => TokenView::Bool(v->Bool_0),
        FieldType::Int => TokenView::Number(v->Int_0),
        FieldType::Text => TokenView::Text(v->Text_0),
        FieldType::List(et) => match v {
            DatumView::List(vs) => TokenView::Sequence(spec_encode_list(reg, vs, *et, vs.len())),
            _ => TokenView::Null,
        },
        FieldType::Named(id) => {
            if !reg.contains_key(id) {
                TokenView::Null
            } else {
                match reg[id].type_codec {
                    Some(h) => spec_hook_encode(h, v),
                    None => match reg[id].shape {
                        ShapeView::Record(fields) => match v {
                            DatumView::Record(vs) => TokenView::Mapping(
                                spec_encode_fields(reg, vs, fields, vs.len()),
                            ),
                            _ => TokenView::Null,
                        },
                        ShapeView::UnitEnum(names) => match v {
                            DatumView::Case(k) => {
                                if 0 <= k < names.len() {
                                    TokenView::Text(names[k])
                                } else {
                                    TokenView::Null
                                }
                            },
                            _ => TokenView::Null,
                        },
                        ShapeView::TaggedUnion { tag, variants } => match v {
                            DatumView::Union(k, vs) => {
                                if 0 <= k < variants.len() {
                                    TokenView::Mapping(
                                        seq![(tag, TokenView::Text(variants[k].name))]
                                            + spec_encode_fields(
                                            reg,
                                            vs,
                                            variants[k].fields,
                                            vs.len(),
                                        ),
                                    )
                                } else {
                                    TokenView::Null
                                }
                            },
                            _ => TokenView::Null,
                        },
                    },
                }
            }
        },
    }
}

/// The token one present field's value encodes to.
pub open spec fn spec_encode_field_value(
    reg: Map<u64, RegEntryView>,
    v: DatumView,
    field: FieldSpecView,
) -> TokenView
    decreases v, 1nat, 0nat,
{
    match field.codec {
        Some(h) => spec_hook_encode(h, v),
        None => spec_encode(reg, v, field.ftype),
    }
}

/// The mapping entries the first `n` fields encode to: one entry per
/// present field, in declared order; absent optional fields are omitted.
pub open spec fn spec_encode_fields(
    reg: Map<u64, RegEntryView>,
    vs: Seq<DatumView>,
    fields: Seq<FieldSpecView>,
    n: nat,
) -> Seq<(Seq<char>, TokenView)>
    decreases vs, 2nat, n,
    when n <= vs.len()
{
    if n == 0 {
        Seq::empty()
    } else {
        let rest = spec_encode_fields(reg, vs, fields, (n - 1) as nat);
        if vs[n - 1] is Absent {
            rest
        } else {
            rest.push(
                (fields[n - 1].wire_name, spec_encode_field_value(reg, vs[n - 1], fields[n - 1])),
            )
        }
    }
}

/// The tokens the first `n` elements of a list encode to.
pub open spec fn spec_encode_list(
    reg: Map<u64, RegEntryView>,
    vs: Seq<DatumView>,
    et: FieldType,
    n: nat,
) -> Seq<TokenView>
    decreases vs, 2nat, n,
    when n <= vs.len()
{
    if n == 0 {
        Seq::empty()
    } else {
        spec_encode_list(reg, vs, et, (n - 1) as nat).push(spec_encode(reg, vs[n - 1], et))
    }
}

/// The value or error a token decodes to at field type `ft`.
pub open spec fn spec_decode(reg: Map<u64, RegEntryView>, t: TokenView, ft: FieldType) -> Result<
    DatumView,
    DecodeErrorView,
>
    decreases t, 0nat, 0nat,
{
    match ft {
        FieldType::Bool => match t {
            TokenView::Bool(b) => Ok(DatumView::Bool(b)),
            _ => Err(err_mismatch(TokenKind::Bool, t)),
        },
        FieldType::Int => match t {
            TokenView::Number(n) => Ok(DatumView::Int(n)),
            _ => Err(err_mismatch(TokenKind::Number, t)),
        },
        FieldType::Text => match t {
            TokenView::Text(s) => Ok(DatumView::Text(s)),
            _ => Err(err_mismatch(TokenKind::Text, t)),
        },
        FieldType::List(et) => match t {
            TokenView::Sequence(ts) => match spec_decode_list(reg, ts, *et, ts.len()) {
                Ok(vs) => Ok(DatumView::List(vs)),
                Err(e) => Err(e),
            },
            _ => Err(err_mismatch(TokenKind::Sequence, t)),
        },
        FieldType::Named(id) => {
            if !reg.contains_key(id) {
                Err(err_here(DecodeErrorKindView::UnknownType(id)))
            } else {
                match reg[id].type_codec {
                    Some(h) => match spec_hook_decode(h, t) {
                        Ok(v) => Ok(v),
                        Err(he) => Err(err_here(DecodeErrorKindView::CustomCodec(he))),
                    },
                    None => match reg[id].shape {
                        ShapeView::Record(fields) => match t {
                            TokenView::Mapping(es) => match spec_decode_fields(
                                reg,
                                es,
                                fields,
                                fields.len(),
                            ) {
                                Ok(vs) => Ok(DatumView::Record(vs)),
                                Err(e) => Err(e),
                            },
                            _ => Err(err_mismatch(TokenKind::Mapping, t)),
                        },
                        ShapeView::UnitEnum(names) => match t {
                            TokenView::Text(s) => match find_name(names, s) {
                                Some(k) => Ok(DatumView::Case(k)),
                                None => Err(err_here(DecodeErrorKindView::UnknownVariant(s))),
                            },
                            _ => Err(err_mismatch(TokenKind::Text, t)),
                        },
                        ShapeView::TaggedUnion { tag, variants } => match t {
                            TokenView::Mapping(es) => match find_entry(es, tag) {
                                Some(j) => match es[j].1 {
                                    TokenView::Text(s) => match find_variant(variants, s) {
                                        Some(k) => match spec_decode_fields(
                                            reg,
                                            es,
                                            variants[k].fields,
                                            variants[k].fields.len(),
                                        ) {
                                            Ok(vs) => Ok(DatumView::Union(k, vs)),
                                            Err(e) => Err(e.under(variants[k].name)),
                                        },
                                        None => Err(
                                            err_here(DecodeErrorKindView::UnknownVariant(s)),
                                        ),
                                    },
                                    _ => Err(err_here(DecodeErrorKindView::MissingTag)),
                                },
                                None => Err(err_here(DecodeErrorKindView::MissingTag)),
                            },
                            _ => Err(err_mismatch(TokenKind::Mapping, t)),
                        },
                    },
                }
            }
        },
    }
}

/// The value or error one field decodes to, looking its wire name up in
/// the mapping's entries.
pub open spec fn spec_decode_field_value(
    reg: Map<u64, RegEntryView>,
    es: Seq<(Seq<char>, TokenView)>,
    field: FieldSpecView,
) -> Result<DatumView, DecodeErrorView>
    decreases es, 1nat, 0nat,
    via spec_decode_field_value_dec
{
    match find_entry(es, field.wire_name) {
        None => {
            if field.optional {
                Ok(DatumView::Absent)
            } else {
                Err(
                    DecodeErrorView {
                        path: seq![field.name],
                        kind: DecodeErrorKindView::MissingField(field.name),
                    },
                )
            }
        },
        Some(j) => match field.codec {
            Some(h) => match spec_hook_decode(h, es[j].1) {
                Ok(v) => Ok(v),
                Err(he) => Err(
                    DecodeErrorView {
                        path: seq![field.name],
                        kind: DecodeErrorKindView::CustomCodec(he),
                    },
                ),
            },
            None => match spec_decode(reg, es[j].1, field.ftype) {
                Ok(v) => Ok(v),
                Err(e) => Err(e.under(field.name)),
            },
        },
    }
}

#[via_fn]
proof fn spec_decode_field_value_dec(
    reg: Map<u64, RegEntryView>,
    es: Seq<(Seq<char>, TokenView)>,
    field: FieldSpecView,
) {
    lemma_find_entry_from(es, field.wire_name, 0);
}

/// The values or first error the first `n` fields decode to.
pub open spec fn spec_decode_fields(
    reg: Map<u64, RegEntryView>,
    es: Seq<(Seq<char>, TokenView)>,
    fields: Seq<FieldSpecView>,
    n: nat,
) -> Result<Seq<DatumView>, DecodeErrorView>
    decreases es, 2nat, n,
    when n <= fields.len()
{
    if n == 0 {
        Ok(Seq::empty())
    } else {
        match spec_decode_fields(reg, es, fields, (n - 1) as nat) {
            Err(e) => Err(e),
            Ok(vs) => match spec_decode_field_value(reg, es, fields[n - 1]) {
                Ok(v) => Ok(vs.push(v)),
                Err(e) => Err(e),
            },
        }
    }
}

/// The values or first error the first `n` elements decode to.
pub open spec fn spec_decode_list(
    reg: Map<u64, RegEntryView>,
    ts: Seq<TokenView>,
    et: FieldType,
    n: nat,
) -> Result<Seq<DatumView>, DecodeErrorView>
    decreases ts, 2nat, n,
    when n <= ts.len()
{
    if n == 0 {
        Ok(Seq::empty())
    } else {
        match spec_decode_list(reg, ts, et, (n - 1) as nat) {
            Err(e) => Err(e),
            Ok(vs) => match spec_decode(reg, ts[n - 1], et) {
                Ok(v) => Ok(vs.push(v)),
                Err(e) => Err(e),
            },
        }
    }
}

/// What `find_name_from` returns: the first match at or after `i`, if any.
pub proof fn lemma_find_name_from(names: Seq<Seq<char>>, s: Seq<char>, i: nat)
    requires
        i <= names.len(),
    ensures
        match find_name_from(names, s, i) {
            Some(j) => i <= j < names.len() && names[j] == s && forall|k: int|
                i <= k < j ==> names[k] != s,
            None => forall|k: int| i <= k < names.len() ==> names[k] != s,
        },
    decreases names.len() - i,
{
    if i < names.len() && names[i as int] != s {
        lemma_find_name_from(names, s, i + 1);
    }
}

/// What `find_variant_from` returns: the first match at or after `i`, if
/// any.
pub proof fn lemma_find_variant_from(variants: Seq<VariantView>, s: Seq<char>, i: nat)
    requires
        i <= variants.len(),
    ensures
        match find_variant_from(variants, s, i) {
            Some(j) => i <= j < variants.len() && variants[j].name == s && forall|k: int|
                i <= k < j ==> (#[trigger] variants[k]).name != s,
            None => forall|k: int| i <= k < variants.len() ==> (#[trigger] variants[k]).name != s,
        },
    decreases variants.len() - i,
{
    if i < variants.len() && variants[i as int].name != s {
        lemma_find_variant_from(variants, s, i + 1);
    }
}

/// Each value of a conforming prefix conforms to its field.
pub proof fn lemma_conforms_fields_index(
    reg: Map<u64, RegEntryView>,
    vs: Seq<DatumView>,
    fields: Seq<FieldSpecView>,
    n: nat,
    i: int,
)
    requires
        n <= vs.len(),
        conforms_fields(reg, vs, fields, n),
        0 <= i < n,
    ensures
        conforms_field_value(reg, vs[i], fields[i]),
    decreases n,
{
    if i < n - 1 {
        lemma_conforms_fields_index(reg, vs, fields, (n - 1) as nat, i);
    }
}

/// Each element of a conforming list prefix conforms to the element type.
pub proof fn lemma_conforms_list_index(
    reg: Map<u64, RegEntryView>,
    vs: Seq<DatumView>,
    et: FieldType,
    n: nat,
    i: int,
)
    requires
        n <= vs.len(),
        conforms_list(reg, vs, et, n),
        0 <= i < n,
    ensures
        conforms(reg, vs[i], et),
    decreases n,
{
    if i < n - 1 {
        lemma_conforms_list_index(reg, vs, et, (n - 1) as nat, i);
    }
}

/// A failed field-prefix decode stays failed as the prefix grows.
pub proof fn lemma_decode_fields_err_persists(
    reg: Map<u64, RegEntryView>,
    es: Seq<(Seq<char>, TokenView)>,
    fields: Seq<FieldSpecView>,
    m: nat,
    n: nat,
)
    requires
        m <= n <= fields.len(),
        spec_decode_fields(reg, es, fields, m) is Err,
    ensures
        spec_decode_fields(reg, es, fields, n) == spec_decode_fields(reg, es, fields, m),
    decreases n,
{
    if m < n {
        lemma_decode_fields_err_persists(reg, es, fields, m, (n - 1) as nat);
    }
}

/// A failed list-prefix decode stays failed as the prefix grows.
pub proof fn lemma_decode_list_err_persists(
    reg: Map<u64, RegEntryView>,
    ts: Seq<TokenView>,
    et: FieldType,
    m: nat,
    n: nat,
)
    requires
        m <= n <= ts.len(),
        spec_decode_list(reg, ts, et, m) is Err,
    ensures
        spec_decode_list(reg, ts, et, n) == spec_decode_list(reg, ts, et, m),
    decreases n,
{
    if m < n {
        lemma_decode_list_err_persists(reg, ts, et, m, (n - 1) as nat);
    }
}

/// A successful field-prefix decode yields one value per field, each the
/// field's own decode.
pub proof fn lemma_decode_fields_index(
    reg: Map<u64, RegEntryView>,
    es: Seq<(Seq<char>, TokenView)>,
    fields: Seq<FieldSpecView>,
    n: nat,
)
    requires
        n <= fields.len(),
        spec_decode_fields(reg, es, fields, n) is Ok,
    ensures
        spec_decode_fields(reg, es, fields, n)->Ok_0.len() == n,
        forall|i: int|
            0 <= i < n ==> spec_decode_field_value(reg, es, #[trigger] fields[i]) == Ok::<
                DatumView,
                DecodeErrorView,
            >(spec_decode_fields(reg, es, fields, n)->Ok_0[i]),
    decreases n,
{
    if n > 0 {
        lemma_decode_fields_index(reg, es, fields, (n - 1) as nat);
    }
}

/// Every entry the field encoder emits comes from one present field: its
/// wire name paired with that field's encoded value.
pub proof fn lemma_encode_fields_origin(
    reg: Map<u64, RegEntryView>,
    vs: Seq<DatumView>,
    fields: Seq<FieldSpecView>,
    n: nat,
)
    requires
        n <= vs.len(),
    ensures
        forall|j: int|
            0 <= j < spec_encode_fields(reg, vs, fields, n).len() ==> exists|i: int|
                0 <= i < n && !(vs[i] is Absent) && #[trigger] spec_encode_fields(
                    reg,
                    vs,
                    fields,
                    n,
                )[j] == (fields[i].wire_name, spec_encode_field_value(reg, vs[i], fields[i])),
    decreases n,
{
    if n > 0 {
        lemma_encode_fields_origin(reg, vs, fields, (n - 1) as nat);
        let whole = spec_encode_fields(reg, vs, fields, n);
        let rest = spec_encode_fields(reg, vs, fields, (n - 1) as nat);
        assert forall|j: int| 0 <= j < whole.len() implies exists|i: int|
            0 <= i < n && !(vs[i] is Absent) && #[trigger] whole[j] == (
            fields[i].wire_name,
            spec_encode_field_value(reg, vs[i], fields[i]),
            ) by {
            if j < rest.len() {
                let i = choose|i: int|
                    0 <= i < n - 1 && !(vs[i] is Absent) && #[trigger] rest[j] == (
                    fields[i].wire_name,
                    spec_encode_field_value(reg, vs[i], fields[i]),
                    );
                assert(whole[j] == rest[j]);
                assert(0 <= i < n && !(vs[i] is Absent) && whole[j] == (
                fields[i].wire_name,
                spec_encode_field_value(reg, vs[i], fields[i]),
                ));
            } else {
                assert(!(vs[n - 1] is Absent) && whole[j] == (
                fields[n - 1].wire_name,
                spec_encode_field_value(reg, vs[n - 1], fields[n - 1]),
                ));
            }
        }
    }
}

/// Every present field among the first `n` contributes its entry.
pub proof fn lemma_encode_fields_contains(
    reg: Map<u64, RegEntryView>,
    vs: Seq<DatumView>,
    fields: Seq<FieldSpecView>,
    n: nat,
    i: int,
)
    requires
        n <= vs.len(),
        0 <= i < n,
        !(vs[i] is Absent),
    ensures
        exists|j: int|
            0 <= j < spec_encode_fields(reg, vs, fields, n).len() && #[trigger] spec_encode_fields(
                reg,
                vs,
                fields,
                n,
            )[j] == (fields[i].wire_name, spec_encode_field_value(reg, vs[i], fields[i])),
    decreases n,
{
    let whole = spec_encode_fields(reg, vs, fields, n);
    let rest = spec_encode_fields(reg, vs, fields, (n - 1) as nat);
    if i < n - 1 {
        lemma_encode_fields_contains(reg, vs, fields, (n - 1) as nat, i);
        let j = choose|j: int|
            0 <= j < rest.len() && #[trigger] rest[j] == (
            fields[i].wire_name,
            spec_encode_field_value(reg, vs[i], fields[i]),
            );
        assert(whole[j] == rest[j]);
    } else {
        assert(whole[whole.len() - 1] == (
        fields[i].wire_name,
        spec_encode_field_value(reg, vs[i], fields[i]),
        ));
    }
}

/// The encoded list has one token per element: each element's encoding.
pub proof fn lemma_encode_list_index(
    reg: Map<u64, RegEntryView>,
    vs: Seq<DatumView>,
    et: FieldType,
    n: nat,
)
    requires
        n <= vs.len(),
    ensures
        spec_encode_list(reg, vs, et, n).len() == n,
        forall|i: int|
            0 <= i < n ==> #[trigger] spec_encode_list(reg, vs, et, n)[i] == spec_encode(
                reg,
                vs[i],
                et,
            ),
    decreases n,
{
    if n > 0 {
        lemma_encode_list_index(reg, vs, et, (n - 1) as nat);
    }
}

} // verus!
