//! The token model: a small intermediate representation of structured data.
//!
//! A [`Token`] is what the generic encoder produces and the generic decoder
//! consumes; the textual codec turns tokens into wire text and back.  The
//! mathematical model of a token is a [`TokenView`], in which strings are
//! sequences of characters and vectors are sequences.

use vstd::prelude::*;

verus! {

/// A structured value in wire-neutral form.
///
/// A `Mapping` keeps its entries in insertion order; well-formed mappings
/// (see [`TokenView::wf`]) have pairwise distinct keys.  Numbers are
/// integers: the token model carries no fractional values.
#[derive(Debug, PartialEq, Eq)]
pub enum Token {
    Null,
    Bool(bool),
    Number(i64),
    Text(String),
    Sequence(Vec<Token>),
    Mapping(Vec<(String, Token)>),
}

/// The mathematical model of a [`Token`].
pub enum TokenView {
    Null,
    Bool(bool),
    Number(int),
    Text(Seq<char>),
    Sequence(Seq<TokenView>),
    Mapping(Seq<(Seq<char>, TokenView)>),
}

/// The models of the first `n` tokens of `ts`.
pub open spec fn token_models_upto(ts: Seq<Token>, n: nat) -> Seq<TokenView>
    decreases ts, n,
    when n <= ts.len()
{
    if n == 0 {
        Seq::empty()
    } else {
        token_models_upto(ts, (n - 1) as nat).push(ts[n - 1].model())
    }
}

/// The models of the first `n` mapping entries of `es`.
pub open spec fn entry_models_upto(es: Seq<(String, Token)>, n: nat) -> Seq<
    (Seq<char>, TokenView),
>
    decreases es, n,
    when n <= es.len()
{
    if n == 0 {
        Seq::empty()
    } else {
        entry_models_upto(es, (n - 1) as nat).push((es[n - 1].0@, es[n - 1].1.model()))
    }
}

impl Token {
    /// The model of this token.
    pub open spec fn model(self) -> TokenView
        decreases self, 0nat,
    {
        match self {
            Token::Null => TokenView::Null,
            Token::Bool(b) => TokenView::Bool(b),
            Token::Number(n) => TokenView::Number(n as int),
            Token::Text(s) => TokenView::Text(s@),
            Token::Sequence(ts) => TokenView::Sequence(token_models_upto(ts@, ts@.len())),
            Token::Mapping(es) => TokenView::Mapping(entry_models_upto(es@, es@.len())),
        }
    }
}

impl View for Token {
    type V = TokenView;

    open spec fn view(&self) -> TokenView {
        self.model()
    }
}

/// Each model in `token_models_upto(ts, n)` is the model of the
/// corresponding token.
pub proof fn lemma_token_models_upto(ts: Seq<Token>, n: nat)
    requires
        n <= ts.len(),
    ensures
        token_models_upto(ts, n).len() == n,
        forall|i: int| 0 <= i < n ==> #[trigger] token_models_upto(ts, n)[i] == ts[i].model(),
    decreases n,
{
    if n > 0 {
        lemma_token_models_upto(ts, (n - 1) as nat);
    }
}

/// Each model in `entry_models_upto(es, n)` pairs the key's view with the
/// model of the corresponding entry's token.
pub proof fn lemma_entry_models_upto(es: Seq<(String, Token)>, n: nat)
    requires
        n <= es.len(),
    ensures
        entry_models_upto(es, n).len() == n,
        forall|i: int|
            0 <= i < n ==> #[trigger] entry_models_upto(es, n)[i] == (es[i].0@, es[i].1.model()),
    decreases n,
{
    if n > 0 {
        lemma_entry_models_upto(es, (n - 1) as nat);
    }
}

/// Two entry sequences equal on their first `n` entries model the same
/// prefix.
pub proof fn lemma_entry_models_upto_prefix(
    es1: Seq<(String, Token)>,
    es2: Seq<(String, Token)>,
    n: nat,
)
    requires
        n <= es1.len(),
        n <= es2.len(),
        forall|i: int| 0 <= i < n ==> es1[i] == es2[i],
    ensures
        entry_models_upto(es1, n) == entry_models_upto(es2, n),
    decreases n,
{
    if n > 0 {
        lemma_entry_models_upto_prefix(es1, es2, (n - 1) as nat);
    }
}

/// Whether the first `n` tokens of `ts` are all well-formed.
pub open spec fn tokens_wf_upto(ts: Seq<TokenView>, n: nat) -> bool
    decreases ts, n,
    when n <= ts.len()
{
    if n == 0 {
        true
    } else {
        tokens_wf_upto(ts, (n - 1) as nat) && ts[n - 1].wf()
    }
}

/// Whether the values of the first `n` entries of `es` are all
/// well-formed.
pub open spec fn entries_wf_upto(es: Seq<(Seq<char>, TokenView)>, n: nat) -> bool
    decreases es, n,
    when n <= es.len()
{
    if n == 0 {
        true
    } else {
        entries_wf_upto(es, (n - 1) as nat) && es[n - 1].1.wf()
    }
}

/// The largest depth among the first `n` tokens of `ts`.
pub open spec fn tokens_depth_upto(ts: Seq<TokenView>, n: nat) -> nat
    decreases ts, n,
    when n <= ts.len()
{
    if n == 0 {
        0
    } else {
        let rest = tokens_depth_upto(ts, (n - 1) as nat);
        let d = ts[n - 1].depth();
        if d > rest {
            d
        } else {
            rest
        }
    }
}

/// The largest depth among the values of the first `n` entries of `es`.
pub open spec fn entries_depth_upto(es: Seq<(Seq<char>, TokenView)>, n: nat) -> nat
    decreases es, n,
    when n <= es.len()
{
    if n == 0 {
        0
    } else {
        let rest = entries_depth_upto(es, (n - 1) as nat);
        let d = es[n - 1].1.depth();
        if d > rest {
            d
        } else {
            rest
        }
    }
}

impl TokenView {
    /// Well-formedness: every mapping in the token has pairwise distinct
    /// keys.
    pub open spec fn wf(self) -> bool
        decreases self, 0nat,
    {
        match self {
            TokenView::Sequence(ts) => tokens_wf_upto(ts, ts.len()),
            TokenView::Mapping(es) => {
                &&& forall|i: int, j: int|
                    0 <= i < j < es.len() ==> (#[trigger] es[i]).0 != (#[trigger] es[j]).0
                &&& entries_wf_upto(es, es.len())
            },
            _ => true,
        }
    }

    /// Nesting depth: scalars have depth zero; a sequence or mapping is
    /// one deeper than its deepest member.
    pub open spec fn depth(self) -> nat
        decreases self, 0nat,
    {
        match self {
            TokenView::Sequence(ts) => 1 + tokens_depth_upto(ts, ts.len()),
            TokenView::Mapping(es) => 1 + entries_depth_upto(es, es.len()),
            _ => 0,
        }
    }
}

/// The position of the first entry with the given key, searching from `i`.
pub open spec fn find_entry_from(
    es: Seq<(Seq<char>, TokenView)>,
    key: Seq<char>,
    i: nat,
) -> Option<int>
    decreases es.len() - i,
    when i <= es.len()
{
    if i == es.len() {
        None
    } else if es[i as int].0 == key {
        Some(i as int)
    } else {
        find_entry_from(es, key, i + 1)
    }
}

/// The position of the first entry of a mapping with the given key.
pub open spec fn find_entry(es: Seq<(Seq<char>, TokenView)>, key: Seq<char>) -> Option<int> {
    find_entry_from(es, key, 0)
}

/// What `find_entry_from` returns: the first match at or after `i`, if
/// any.
pub proof fn lemma_find_entry_from(es: Seq<(Seq<char>, TokenView)>, key: Seq<char>, i: nat)
    requires
        i <= es.len(),
    ensures
        match find_entry_from(es, key, i) {
            Some(j) => i <= j < es.len() && es[j].0 == key && forall|k: int|
                i <= k < j ==> (#[trigger] es[k]).0 != key,
            None => forall|k: int| i <= k < es.len() ==> (#[trigger] es[k]).0 != key,
        },
    decreases es.len() - i,
{
    if i < es.len() && es[i as int].0 != key {
        lemma_find_entry_from(es, key, i + 1);
    }
}

/// The position of the first entry of a mapping's entry list with the
/// given key.
#[verifier::loop_isolation(false)]
pub(crate) fn find_entry_pos(es: &Vec<(String, Token)>, key: &String) -> (r: Option<usize>)
    ensures
        ({
            let ems = entry_models_upto(es@, es@.len());
            match r {
                Some(j) => j < es@.len() && find_entry(ems, key@) == Some(j as int),
                None => find_entry(ems, key@) is None,
            }
        }),
{
    let ghost ems = entry_models_upto(es@, es@.len());
    proof {
        lemma_entry_models_upto(es@, es@.len());
        lemma_find_entry_from(ems, key@, 0);
    }
    let n = es.len();
    for i in 0..n
        invariant
            forall|k: int| 0 <= k < i ==> (#[trigger] ems[k]).0 != key@,
    {
        if es[i].0 == *key {
            proof {
                assert(ems[i as int].0 == key@);
                if find_entry(ems, key@) is None {
                    assert(false);
                } else {
                    let jj = find_entry(ems, key@)->Some_0;
                    assert(ems[jj].0 == key@);
                    assert(!(jj < i));
                    assert(!(jj > i));
                }
            }
            return Some(i);
        }
    }
    None
}

/// A token's model is built by the matching model constructor.
proof fn lemma_token_model_variant(t: Token)
    ensures
        t@ is Mapping <==> t is Mapping,
        t@ is Sequence <==> t is Sequence,
{
    match t {
        Token::Null => {},
        Token::Bool(_) => {},
        Token::Number(_) => {},
        Token::Text(_) => {},
        Token::Sequence(_) => {},
        Token::Mapping(_) => {},
    }
}

impl Token {
    /// Whether this token is a mapping that holds the given key.
    pub fn has_key(&self, key: &String) -> (r: bool)
        ensures
            r == (self@ is Mapping && find_entry(self@->Mapping_0, key@) is Some),
    {
        proof {
            lemma_token_model_variant(*self);
        }
        match self {
            Token::Mapping(es) => find_entry_pos(es, key).is_some(),
            _ => false,
        }
    }

    /// The value of a mapping at the given key: the first entry with that
    /// key, if any.  Nothing on a token that is not a mapping.
    pub fn get(&self, key: &String) -> (r: Option<&Token>)
        ensures
            match self@ {
                TokenView::Mapping(es) => match find_entry(es, key@) {
                    Some(j) => r is Some && r->Some_0@ == es[j].1,
                    None => r is None,
                },
                _ => r is None,
            },
    {
        proof {
            lemma_token_model_variant(*self);
        }
        match self {
            Token::Mapping(es) => {
                match find_entry_pos(es, key) {
                    Some(j) => {
                        proof {
                            lemma_entry_models_upto(es@, es@.len());
                        }
                        Some(&es[j].1)
                    },
                    None => None,
                }
            },
            _ => None,
        }
    }

    /// The number of elements of a sequence token.
    pub fn seq_len(&self) -> (r: usize)
        requires
            self is Sequence,
        ensures
            r == self@->Sequence_0.len(),
    {
        match self {
            Token::Sequence(ts) => {
                proof {
                    lemma_token_models_upto(ts@, ts@.len());
                }
                ts.len()
            },
            _ => 0,  // unreachable: the token is a sequence
        }
    }

    /// The element of a sequence token at the given position.
    pub fn seq_at(&self, i: usize) -> (r: &Token)
        requires
            self is Sequence,
            i < self@->Sequence_0.len(),
        ensures
            r@ == self@->Sequence_0[i as int],
    {
        match self {
            Token::Sequence(ts) => {
                proof {
                    lemma_token_models_upto(ts@, ts@.len());
                }
                &ts[i]
            },
            _ => self,  // unreachable: the token is a sequence
        }
    }
}

} // verus!
