//! In-memory values, the domain of the generic encoder and the range of the
//! generic decoder.
//!
//! A [`Datum`] is a dynamic representation of a typed in-memory value: the
//! shape registry says which values fit which registered type.  Record and
//! tagged-union fields are kept positionally, in declared field order;
//! names come from the shape.  `Absent` is the sentinel an optional field
//! holds when it has no value.

use vstd::prelude::*;

verus! {

/// A dynamically-typed in-memory value.
#[derive(Debug, PartialEq, Eq)]
pub enum Datum {
    Bool(bool),
    Int(i64),
    Text(String),
    /// A homogeneous list, for list-typed fields.
    List(Vec<Datum>),
    /// The fields of a record, in declared order.
    Record(Vec<Datum>),
    /// A unit-enumeration value: the index of the variant in declared order.
    Case(usize),
    /// A tagged-union value: the variant's index in declared order and its
    /// fields in declared order.
    Union(usize, Vec<Datum>),
    /// The sentinel an optional field holds when no value is present.
    Absent,
}

/// The mathematical model of a [`Datum`].
pub enum DatumView {
    Bool(bool),
    Int(int),
    Text(Seq<char>),
    List(Seq<DatumView>),
    Record(Seq<DatumView>),
    Case(int),
    Union(int, Seq<DatumView>),
    Absent,
}

/// The models of the first `n` values of `vs`.
pub open spec fn value_models_upto(vs: Seq<Datum>, n: nat) -> Seq<DatumView>
    decreases vs, n,
    when n <= vs.len()
{
    if n == 0 {
        Seq::empty()
    } else {
        value_models_upto(vs, (n - 1) as nat).push(vs[n - 1].model())
    }
}

impl Datum {
    /// The model of this value.
    pub open spec fn model(self) -> DatumView
        decreases self, 0nat,
    {
        match self {
            Datum::Bool(b) => DatumView::Bool(b),
            Datum::Int(n) => DatumView::Int(n as int),
            Datum::Text(s) => DatumView::Text(s@),
            Datum::List(vs) => DatumView::List(value_models_upto(vs@, vs@.len())),
            Datum::Record(vs) => DatumView::Record(value_models_upto(vs@, vs@.len())),
            Datum::Case(k) => DatumView::Case(k as int),
            Datum::Union(k, vs) => DatumView::Union(
                k as int,
                value_models_upto(vs@, vs@.len()),
            ),
            Datum::Absent => DatumView::Absent,
        }
    }
}

impl View for Datum {
    type V = DatumView;

    open spec fn view(&self) -> DatumView {
        self.model()
    }
}

/// Each model in `value_models_upto(vs, n)` is the model of the
/// corresponding value.
pub proof fn lemma_value_models_upto(vs: Seq<Datum>, n: nat)
    requires
        n <= vs.len(),
    ensures
        value_models_upto(vs, n).len() == n,
        forall|i: int| 0 <= i < n ==> #[trigger] value_models_upto(vs, n)[i] == vs[i].model(),
    decreases n,
{
    if n > 0 {
        lemma_value_models_upto(vs, (n - 1) as nat);
    }
}

/// Two value sequences equal on their first `n` elements model the same
/// prefix.
pub proof fn lemma_value_models_upto_prefix(vs1: Seq<Datum>, vs2: Seq<Datum>, n: nat)
    requires
        n <= vs1.len(),
        n <= vs2.len(),
        forall|i: int| 0 <= i < n ==> vs1[i] == vs2[i],
    ensures
        value_models_upto(vs1, n) == value_models_upto(vs2, n),
    decreases n,
{
    if n > 0 {
        lemma_value_models_upto_prefix(vs1, vs2, (n - 1) as nat);
    }
}

/// A value's model is built by the matching model constructor.
pub proof fn lemma_model_variant(v: Datum)
    ensures
        v@ is Bool <==> v is Bool,
        v@ is Int <==> v is Int,
        v@ is Text <==> v is Text,
        v@ is List <==> v is List,
        v@ is Record <==> v is Record,
        v@ is Case <==> v is Case,
        v@ is Union <==> v is Union,
        v@ is Absent <==> v is Absent,
{
    match v {
        Datum::Bool(_) => {},
        Datum::Int(_) => {},
        Datum::Text(_) => {},
        Datum::List(_) => {},
        Datum::Record(_) => {},
        Datum::Case(_) => {},
        Datum::Union(_, _) => {},
        Datum::Absent => {},
    }
}

} // verus!
