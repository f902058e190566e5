//! Error taxonomy of the framework.
//!
//! Registry misuse is reported through [`RegistryError`]; data-dependent
//! decode failures through [`DecodeError`], which carries the path of field
//! and variant names from the root to the offending position.

use vstd::prelude::*;

verus! {

/// The six syntactic kinds a token can have; used to report type mismatches.
#[derive(Clone, Copy, PartialEq, Eq, Structural, Debug)]
pub enum TokenKind {
    Null,
    Bool,
    Number,
    Text,
    Sequence,
    Mapping,
}

/// A failure of a custom codec hook.
#[derive(Clone, Copy, PartialEq, Eq, Structural, Debug)]
pub enum HookError {
    /// The epoch-milliseconds hook was handed a token that is not an
    /// integer-valued number.
    InvalidTimestamp,
    /// The composite-name hook was handed a non-text token, or text whose
    /// split at its first space leaves an empty part on either side (or
    /// that has no space at all).
    MalformedName,
}

/// Misuse of the shape registry.
#[derive(Clone, Copy, PartialEq, Eq, Structural, Debug)]
pub enum RegistryError {
    /// The type id was already registered.
    DuplicateShape,
    /// The type id is not registered.
    UnknownType,
    /// The type already carries a whole-type codec hook.
    DuplicateHook,
}

/// What went wrong during a decode.
#[derive(Debug, PartialEq, Eq)]
pub enum DecodeErrorKind {
    /// A required field's wire key is absent from the mapping.
    MissingField(String),
    /// A unit-enumeration or tagged-union tag value matches no declared
    /// variant.
    UnknownVariant(String),
    /// A tagged union's tag field is absent or not text.
    MissingTag,
    /// The token's kind does not fit the shape (expected, actual).
    TypeMismatch(TokenKind, TokenKind),
    /// A custom codec hook failed.
    CustomCodec(HookError),
    /// The type id is not registered.
    UnknownType(u64),
}

/// The model of a [`DecodeErrorKind`].
pub enum DecodeErrorKindView {
    MissingField(Seq<char>),
    UnknownVariant(Seq<char>),
    MissingTag,
    TypeMismatch(TokenKind, TokenKind),
    CustomCodec(HookError),
    UnknownType(u64),
}

impl View for DecodeErrorKind {
    type V = DecodeErrorKindView;

    open spec fn view(&self) -> DecodeErrorKindView {
        match self {
            DecodeErrorKind::MissingField(n) => DecodeErrorKindView::MissingField(n@),
            DecodeErrorKind::UnknownVariant(n) => DecodeErrorKindView::UnknownVariant(n@),
            DecodeErrorKind::MissingTag => DecodeErrorKindView::MissingTag,
            DecodeErrorKind::TypeMismatch(e, a) => DecodeErrorKindView::TypeMismatch(*e, *a),
            DecodeErrorKind::CustomCodec(h) => DecodeErrorKindView::CustomCodec(*h),
            DecodeErrorKind::UnknownType(id) => DecodeErrorKindView::UnknownType(*id),
        }
    }
}

/// A decode failure: the first error met, with the path of field and
/// variant names leading from the root of the decoded token to it.
#[derive(Debug, PartialEq, Eq)]
pub struct DecodeError {
    pub path: Vec<String>,
    pub kind: DecodeErrorKind,
}

/// The model of a [`DecodeError`].
pub struct DecodeErrorView {
    pub path: Seq<Seq<char>>,
    pub kind: DecodeErrorKindView,
}

impl View for DecodeError {
    type V = DecodeErrorView;

    open spec fn view(&self) -> DecodeErrorView {
        DecodeErrorView { path: self.path.deep_view(), kind: self.kind@ }
    }
}

impl DecodeErrorView {
    /// The same error, seen from one level further out: `name` is the field
    /// or variant the decoder went through to meet it.
    pub open spec fn under(self, name: Seq<char>) -> DecodeErrorView {
        DecodeErrorView { path: seq![name] + self.path, kind: self.kind }
    }
}

impl DecodeError {
    /// Prepend the field or variant name just descended through to the
    /// error's path.
    pub fn push_path(&mut self, name: &String)
        ensures
            final(self)@ == old(self)@.under(name@),
    {
        self.path.insert(0, name.clone());
        proof {
            assert(self@.path =~= seq![name@] + old(self)@.path);
        }
    }
}

/// A failure of the external textual codec on malformed wire text.
#[derive(Debug, Clone)]
pub struct SyntaxError {
    pub line: u64,
    pub column: u64,
    pub message: String,
}

} // verus!
