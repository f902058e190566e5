//! Custom codec hooks: named pairs of pure encode and decode functions
//! that override the generic encoder and decoder for one field or one
//! whole type.
//!
//! The set of hooks is closed, so that each hook's behaviour is stated and
//! proved here once: the epoch-milliseconds timestamp codec and the
//! composite-name codec, which collapses a two-field name record into the
//! single text `"first last"`.

use vstd::prelude::*;
use vstd::string::*;

use crate::error::HookError;
use crate::token::{Token, TokenView};
use crate::value::{lemma_value_models_upto, Datum, DatumView};

verus! {

/// The custom codec hooks the framework knows.
#[derive(Clone, Copy, PartialEq, Eq, Structural, Debug)]
pub enum HookId {
    /// Encodes a timestamp as the number of milliseconds since the epoch.
    EpochMillis,
    /// Encodes a two-part name as the single text `"first last"`.
    CompositeName,
}

/// A point in time, to millisecond precision: the count of milliseconds
/// since the epoch.  Sub-millisecond precision is outside this type.
#[derive(Clone, Copy, PartialEq, Eq, Structural, Debug)]
pub struct Timestamp {
    pub millis: i64,
}

/// Encode a timestamp as its epoch-milliseconds number token.
pub fn serialize(ts: &Timestamp) -> (t: Token)
    ensures
        t@ == TokenView::Number(ts.millis as int),
{
    Token::Number(ts.millis)
}

/// Decode an epoch-milliseconds number token back into a timestamp.
/// Fails with `InvalidTimestamp` on any token that is not a number.
pub fn deserialize(t: &Token) -> (r: Result<Timestamp, HookError>)
    ensures
        match t@ {
            TokenView::Number(n) => (r matches Ok(ts) && ts.millis as int == n),
            _ => r == Err::<Timestamp, HookError>(HookError::InvalidTimestamp),
        },
{
    match t {
        Token::Number(n) => Ok(Timestamp { millis: *n }),
        _ => Err(HookError::InvalidTimestamp),
    }
}

/// A usable first name part: non-empty and without a space.
pub open spec fn valid_name_part(s: Seq<char>) -> bool {
    s.len() > 0 && forall|i: int| 0 <= i < s.len() ==> s[i] != ' '
}

/// The composite wire form of a two-part name: `first`, one space, `last`.
pub open spec fn name_text(f: Seq<char>, l: Seq<char>) -> Seq<char> {
    f + seq![' '] + l
}

/// `p` is the position of the first space of `s`.
pub open spec fn first_space_at(s: Seq<char>, p: int) -> bool {
    &&& 0 <= p < s.len()
    &&& s[p] == ' '
    &&& forall|j: int| 0 <= j < p ==> s[j] != ' '
}

/// Split a composite name at its first space into the part before it and
/// the remainder after it (the remainder may itself contain spaces).
/// Nothing when the text has no space, or either side of the first space
/// is empty.
pub open spec fn split_name(s: Seq<char>) -> Option<(Seq<char>, Seq<char>)> {
    if exists|p: int| first_space_at(s, p) && 1 <= p <= s.len() - 2 {
        let p = choose|p: int| first_space_at(s, p) && 1 <= p <= s.len() - 2;
        Some((s.take(p), s.skip(p + 1)))
    } else {
        None
    }
}

/// Splitting the composite form of a space-free first part and a
/// non-empty last part gives the parts back.
pub proof fn lemma_name_roundtrip(f: Seq<char>, l: Seq<char>)
    requires
        valid_name_part(f),
        l.len() > 0,
    ensures
        split_name(name_text(f, l)) == Some((f, l)),
{
    let s = name_text(f, l);
    let p = f.len() as int;
    assert(s.len() == f.len() + 1 + l.len());
    assert(s[p] == ' ');
    assert forall|j: int| 0 <= j < p implies s[j] != ' ' by {
        assert(s[j] == f[j]);
    }
    assert(first_space_at(s, p) && 1 <= p <= s.len() - 2);
    let q = choose|q: int| first_space_at(s, q) && 1 <= q <= s.len() - 2;
    assert(q == p) by {
        if q < p {
            assert(s[q] != ' ');
        } else if q > p {
            assert(s[p] != ' ');
        }
    }
    assert(s.take(p) =~= f);
    assert(s.skip(p + 1) =~= l);
}

/// Join two name parts into the composite wire text `"first last"`.
pub fn join_name(first: &String, last: &String) -> (r: String)
    ensures
        r@ == name_text(first@, last@),
{
    let mut s = first.clone();
    s.append(" ");
    s.append(last.as_str());
    proof {
        reveal_strlit(" ");
        assert(s@ =~= name_text(first@, last@));
    }
    s
}

/// Split a composite name text at its first space.  Returns the part
/// before the space and the remainder after it, or nothing when the text
/// has no space or either side of the first space is empty.
pub fn split_name_text(s: &str) -> (r: Option<(String, String)>)
    ensures
        match r {
            Some(p) => split_name(s@) == Some((p.0@, p.1@)),
            None => split_name(s@) is None,
        },
{
    let n = s.unicode_len();
    for i in 0..n
        invariant
            n == s@.len(),
            forall|j: int| 0 <= j < i ==> s@[j] != ' ',
    {
        let c = s.get_char(i);
        if c == ' ' {
            proof {
                assert(first_space_at(s@, i as int));
            }
            if i >= 1 && n - i >= 2 {
                let first = s.substring_char(0, i).to_owned();
                let last = s.substring_char(i + 1, n).to_owned();
                proof {
                    let q = choose|q: int|
                        first_space_at(s@, q) && 1 <= q <= s@.len() - 2;
                    assert(q == i as int) by {
                        if q < i as int {
                            assert(s@[q] != ' ');
                        } else if q > i as int {
                            assert(s@[i as int] != ' ');
                        }
                    }
                    assert(first@ =~= s@.take(i as int));
                    assert(last@ =~= s@.skip(i as int + 1));
                }
                return Some((first, last));
            } else {
                proof {
                    assert forall|p: int|
                        !(first_space_at(s@, p) && 1 <= p <= s@.len() - 2) by {
                        if first_space_at(s@, p) {
                            assert(p == i as int) by {
                                if p < i as int {
                                    assert(s@[p] != ' ');
                                } else if p > i as int {
                                    assert(s@[i as int] != ' ');
                                }
                            }
                        }
                    }
                }
                return None;
            }
        }
    }
    proof {
        assert forall|p: int| !(first_space_at(s@, p) && 1 <= p <= s@.len() - 2) by {
            if first_space_at(s@, p) {
                assert(s@[p] != ' ');
            }
        }
    }
    None
}

/// Whether a value fits a hook's domain: what the hook's encode function
/// is defined on.
pub open spec fn hook_conforms(h: HookId, v: DatumView) -> bool {
    match h {
        HookId::EpochMillis => v is Int,
        HookId::CompositeName => {
            &&& v matches DatumView::Record(vs)
            &&& vs.len() == 2
            &&& vs[0] is Text
            &&& vs[1] is Text
            &&& valid_name_part(vs[0]->Text_0)
            &&& vs[1]->Text_0.len() > 0
        },
    }
}

/// What a hook's encode function produces, on values of its domain.
pub open spec fn spec_hook_encode(h: HookId, v: DatumView) -> TokenView {
    match h {
        HookId::EpochMillis => TokenView::Number(v->Int_0),
        HookId::CompositeName => TokenView::Text(
            name_text(v->Record_0[0]->Text_0, v->Record_0[1]->Text_0),
        ),
    }
}

/// What a hook's decode function produces, on any token.
pub open spec fn spec_hook_decode(h: HookId, t: TokenView) -> Result<DatumView, HookError> {
    match h {
        HookId::EpochMillis => match t {
            TokenView::Number(n) => Ok(DatumView::Int(n)),
            _ => Err(HookError::InvalidTimestamp),
        },
        HookId::CompositeName => match t {
            TokenView::Text(s) => match split_name(s) {
                Some(p) => Ok(
                    DatumView::Record(seq![DatumView::Text(p.0), DatumView::Text(p.1)]),
                ),
                None => Err(HookError::MalformedName),
            },
            _ => Err(HookError::MalformedName),
        },
    }
}

/// A value whose model is an integer is built by the integer constructor.
proof fn lemma_model_is_int(v: Datum)
    requires
        v.model() is Int,
    ensures
        v is Int,
{
    match v {
        Datum::Bool(_) => {},
        Datum::Int(_) => {},
        Datum::Text(_) => {},
        Datum::List(_) => {},
        Datum::Record(_) => {},
        Datum::Case(_) => {},
        Datum::Union(_, _) => {},
        Datum::Absent => {},
    }
}

/// A value whose model is a record is built by the record constructor.
proof fn lemma_model_is_record(v: Datum)
    requires
        v.model() is Record,
    ensures
        v is Record,
{
    match v {
        Datum::Bool(_) => {},
        Datum::Int(_) => {},
        Datum::Text(_) => {},
        Datum::List(_) => {},
        Datum::Record(_) => {},
        Datum::Case(_) => {},
        Datum::Union(_, _) => {},
        Datum::Absent => {},
    }
}

/// A value whose model is text is built by the text constructor.
proof fn lemma_model_is_text(v: Datum)
    requires
        v.model() is Text,
    ensures
        v is Text,
{
    match v {
        Datum::Bool(_) => {},
        Datum::Int(_) => {},
        Datum::Text(_) => {},
        Datum::List(_) => {},
        Datum::Record(_) => {},
        Datum::Case(_) => {},
        Datum::Union(_, _) => {},
        Datum::Absent => {},
    }
}

/// Run a hook's encode function.
pub fn hook_encode(h: HookId, v: &Datum) -> (t: Token)
    requires
        hook_conforms(h, v@),
    ensures
        t@ == spec_hook_encode(h, v@),
{
    match h {
        HookId::EpochMillis => {
            match v {
                Datum::Int(n) => Token::Number(*n),
                _ => {
                    proof {
                        lemma_model_is_int(*v);
                    }
                    Token::Null
                },
            }
        },
        HookId::CompositeName => {
            match v {
                Datum::Record(vs) => {
                    proof {
                        lemma_value_models_upto(vs@, vs@.len());
                    }
                    match (&vs[0], &vs[1]) {
                        (Datum::Text(f), Datum::Text(l)) => Token::Text(join_name(f, l)),
                        _ => {
                            proof {
                                lemma_model_is_text(vs@[0]);
                                lemma_model_is_text(vs@[1]);
                            }
                            Token::Null
                        },
                    }
                },
                _ => {
                    proof {
                        lemma_model_is_record(*v);
                    }
                    Token::Null
                },
            }
        },
    }
}

/// Run a hook's decode function.
pub fn hook_decode(h: HookId, t: &Token) -> (r: Result<Datum, HookError>)
    ensures
        match r {
            Ok(v) => spec_hook_decode(h, t@) == Ok::<DatumView, HookError>(v@),
            Err(e) => spec_hook_decode(h, t@) == Err::<DatumView, HookError>(e),
        },
{
    match h {
        HookId::EpochMillis => {
            match t {
                Token::Number(n) => Ok(Datum::Int(*n)),
                _ => Err(HookError::InvalidTimestamp),
            }
        },
        HookId::CompositeName => {
            match t {
                Token::Text(s) => {
                    match split_name_text(s.as_str()) {
                        Some(parts) => {
                            let (first, last) = parts;
                            let ghost f0 = first@;
                            let ghost l0 = last@;
                            let mut vs: Vec<Datum> = Vec::new();
                            vs.push(Datum::Text(first));
                            vs.push(Datum::Text(last));
                            proof {
                                lemma_value_models_upto(vs@, vs@.len());
                            }
                            let v = Datum::Record(vs);
                            proof {
                                assert(v@->Record_0 =~= seq![
                                    DatumView::Text(f0),
                                    DatumView::Text(l0),
                                ]);
                            }
                            Ok(v)
                        },
                        None => Err(HookError::MalformedName),
                    }
                },
                _ => Err(HookError::MalformedName),
            }
        },
    }
}

/// Decoding what a hook encoded gives the value back: the hook pair is a
/// faithful codec on the hook's domain.
pub proof fn lemma_hook_roundtrip(h: HookId, v: DatumView)
    requires
        hook_conforms(h, v),
    ensures
        spec_hook_decode(h, spec_hook_encode(h, v)) == Ok::<DatumView, HookError>(v),
{
    match h {
        HookId::EpochMillis => {},
        HookId::CompositeName => {
            let vs = v->Record_0;
            let f = vs[0]->Text_0;
            let l = vs[1]->Text_0;
            lemma_name_roundtrip(f, l);
            assert(seq![DatumView::Text(f), DatumView::Text(l)] =~= vs);
        },
    }
}

} // verus!
