//! The shape registry: per type id, a static description of the type's
//! structure, used by the generic encoder and decoder.
//!
//! A shape is a record of fields, an enumeration of unit variants, or a
//! tagged union of named record variants.  Each field carries the name it
//! has in memory, the name it has on the wire, an optionality flag and an
//! optional custom codec hook; a registry entry can also carry a whole-type
//! hook, which overrides the generic behaviour entirely.

use vstd::prelude::*;

use crate::error::RegistryError;
use crate::hooks::HookId;

verus! {

/// The type of one field's value.
#[derive(Debug)]
pub enum FieldType {
    Bool,
    Int,
    Text,
    /// A homogeneous list of the element type.
    List(Box<FieldType>),
    /// A registered type, by its id.
    Named(u64),
}

/// One field of a record or of a tagged-union variant.
#[derive(Debug)]
pub struct FieldSpec {
    /// The field's name as declared in the value type.
    pub name: String,
    /// The name the field has on the wire.
    pub wire_name: String,
    /// Whether the field may be absent on the wire.
    pub optional: bool,
    /// The type of the field's value.
    pub ftype: FieldType,
    /// A custom codec hook bound to this field, if any.
    pub codec: Option<HookId>,
}

/// The model of a [`FieldSpec`].
pub struct FieldSpecView {
    pub name: Seq<char>,
    pub wire_name: Seq<char>,
    pub optional: bool,
    pub ftype: FieldType,
    pub codec: Option<HookId>,
}

impl View for FieldSpec {
    type V = FieldSpecView;

    open spec fn view(&self) -> FieldSpecView {
        FieldSpecView {
            name: self.name@,
            wire_name: self.wire_name@,
            optional: self.optional,
            ftype: self.ftype,
            codec: self.codec,
        }
    }
}

impl DeepView for FieldSpec {
    type V = FieldSpecView;

    open spec fn deep_view(&self) -> FieldSpecView {
        self.view()
    }
}

/// One variant of a tagged union: a name and a record of fields.
#[derive(Debug)]
pub struct Variant {
    pub name: String,
    pub fields: Vec<FieldSpec>,
}

/// The model of a [`Variant`].
pub struct VariantView {
    pub name: Seq<char>,
    pub fields: Seq<FieldSpecView>,
}

impl View for Variant {
    type V = VariantView;

    open spec fn view(&self) -> VariantView {
        VariantView { name: self.name@, fields: self.fields.deep_view() }
    }
}

impl DeepView for Variant {
    type V = VariantView;

    open spec fn deep_view(&self) -> VariantView {
        self.view()
    }
}

/// The declared structure of a registered type.
#[derive(Debug)]
pub enum ShapeSpec {
    /// Named, ordered fields.
    Record(Vec<FieldSpec>),
    /// Unit variants, encoded as their name.
    UnitEnum(Vec<String>),
    /// A tagged union: the tag field's wire name, and the variants in
    /// declared order.
    TaggedUnion { tag: String, variants: Vec<Variant> },
}

/// The model of a [`ShapeSpec`].
pub enum ShapeView {
    Record(Seq<FieldSpecView>),
    UnitEnum(Seq<Seq<char>>),
    TaggedUnion { tag: Seq<char>, variants: Seq<VariantView> },
}

impl View for ShapeSpec {
    type V = ShapeView;

    open spec fn view(&self) -> ShapeView {
        match self {
            ShapeSpec::Record(fs) => ShapeView::Record(fs.deep_view()),
            ShapeSpec::UnitEnum(ns) => ShapeView::UnitEnum(ns.deep_view()),
            ShapeSpec::TaggedUnion { tag, variants } => ShapeView::TaggedUnion {
                tag: tag@,
                variants: variants.deep_view(),
            },
        }
    }
}

/// Wire names pairwise distinct within one field list.
pub open spec fn wf_fields(fields: Seq<FieldSpecView>) -> bool {
    forall|i: int, j: int|
        0 <= i < j < fields.len() ==> fields[i].wire_name != fields[j].wire_name
}

/// Names pairwise distinct.
pub open spec fn distinct_names(names: Seq<Seq<char>>) -> bool {
    forall|i: int, j: int| 0 <= i < j < names.len() ==> names[i] != names[j]
}

/// Well-formedness of a shape: the names the decoder discriminates on are
/// pairwise distinct, and no variant field shares its wire name with the
/// tag field.
pub open spec fn wf_shape(s: ShapeView) -> bool {
    match s {
        ShapeView::Record(fs) => wf_fields(fs),
        ShapeView::UnitEnum(ns) => distinct_names(ns),
        ShapeView::TaggedUnion { tag, variants } => {
            &&& forall|i: int, j: int|
                0 <= i < j < variants.len() ==> (#[trigger] variants[i]).name != (
                #[trigger] variants[j]).name
            &&& forall|k: int| 0 <= k < variants.len() ==> wf_fields(#[trigger] variants[k].fields)
            &&& forall|k: int, i: int|
                0 <= k < variants.len() && 0 <= i < variants[k].fields.len() ==> (
                #[trigger] variants[k].fields[i]).wire_name != tag
        },
    }
}

/// One registry entry: a shape, and the whole-type codec hook bound to the
/// type, if any.
pub struct RegEntry {
    pub id: u64,
    pub shape: ShapeSpec,
    pub type_codec: Option<HookId>,
}

/// The model of a registry entry.
pub struct RegEntryView {
    pub shape: ShapeView,
    pub type_codec: Option<HookId>,
}

/// The map modelled by the first `n` entries of `es`.
pub open spec fn reg_map_upto(es: Seq<RegEntry>, n: nat) -> Map<u64, RegEntryView>
    decreases n,
    when n <= es.len()
{
    if n == 0 {
        Map::empty()
    } else {
        reg_map_upto(es, (n - 1) as nat).insert(
            es[n - 1].id,
            RegEntryView { shape: es[n - 1].shape@, type_codec: es[n - 1].type_codec },
        )
    }
}

/// The shape registry: immutable configuration once populated, consulted by
/// every encode and decode call.
pub struct Registry {
    /// The registered entries, in registration order.
    pub entries: Vec<RegEntry>,
}

impl View for Registry {
    type V = Map<u64, RegEntryView>;

    open spec fn view(&self) -> Map<u64, RegEntryView> {
        reg_map_upto(self.entries@, self.entries@.len())
    }
}

/// Every shape in the registry map is well-formed.
pub open spec fn wf_registry(reg: Map<u64, RegEntryView>) -> bool {
    forall|id: u64| reg.contains_key(id) ==> wf_shape((#[trigger] reg[id]).shape)
}

/// The first `n` entries of `es` have pairwise distinct ids.
pub open spec fn distinct_ids(es: Seq<RegEntry>) -> bool {
    forall|i: int, j: int| 0 <= i < j < es.len() ==> es[i].id != es[j].id
}

impl Registry {
    /// Entries have distinct ids and well-formed shapes.
    pub open spec fn wf(&self) -> bool {
        &&& distinct_ids(self.entries@)
        &&& wf_registry(self@)
    }

    /// An empty registry.
    pub fn new() -> (r: Registry)
        ensures
            r@ == Map::<u64, RegEntryView>::empty(),
            r.wf(),
    {
        let r = Registry { entries: Vec::new() };
        proof {
            assert(r@ =~= Map::<u64, RegEntryView>::empty());
        }
        r
    }

    /// The position of `id` among the entries, if registered.
    fn find(&self, id: u64) -> (r: Option<usize>)
        ensures
            match r {
                Some(i) => i < self.entries@.len() && self.entries@[i as int].id == id,
                None => forall|i: int|
                    0 <= i < self.entries@.len() ==> (#[trigger] self.entries@[i]).id != id,
            },
    {
        let n = self.entries.len();
        for i in 0..n
            invariant
                n == self.entries@.len(),
                forall|j: int| 0 <= j < i ==> (#[trigger] self.entries@[j]).id != id,
        {
            if self.entries[i].id == id {
                return Some(i);
            }
        }
        None
    }

    /// Register a shape under a type id.  Fails if the id is already
    /// registered; the registry is then unchanged.
    pub fn register_shape(&mut self, id: u64, shape: ShapeSpec) -> (r: Result<
        (),
        RegistryError,
    >)
        requires
            old(self).wf(),
            wf_shape(shape@),
        ensures
            final(self).wf(),
            match r {
                Ok(()) => !old(self)@.contains_key(id) && final(self)@ == old(self)@.insert(
                    id,
                    RegEntryView { shape: shape@, type_codec: None },
                ),
                Err(e) => e == RegistryError::DuplicateShape && old(self)@.contains_key(id)
                    && final(self)@ == old(self)@,
            },
    {
        proof {
            lemma_reg_map_upto(self.entries@, self.entries@.len());
        }
        if self.find(id).is_some() {
            return Err(RegistryError::DuplicateShape);
        }
        let ghost old_entries = self.entries@;
        self.entries.push(RegEntry { id, shape, type_codec: None });
        proof {
            assert(self.entries@.len() == old_entries.len() + 1);
            assert(reg_map_upto(self.entries@, old_entries.len()) == reg_map_upto(
                old_entries,
                old_entries.len(),
            )) by {
                lemma_reg_map_upto_prefix(self.entries@, old_entries, old_entries.len());
            }
            lemma_reg_map_upto(self.entries@, self.entries@.len());
        }
        Ok(())
    }

    /// Bind a whole-type codec hook to a registered type.  Fails if the id
    /// is unknown or the type already carries a hook; the registry is then
    /// unchanged.
    pub fn register_hook(&mut self, id: u64, hook: HookId) -> (r: Result<(), RegistryError>)
        requires
            old(self).wf(),
        ensures
            final(self).wf(),
            match r {
                Ok(()) => old(self)@.contains_key(id) && old(self)@[id].type_codec is None
                    && final(self)@ == old(self)@.insert(
                    id,
                    RegEntryView { shape: old(self)@[id].shape, type_codec: Some(hook) },
                ),
                Err(e) => final(self)@ == old(self)@ && match e {
                    RegistryError::UnknownType => !old(self)@.contains_key(id),
                    RegistryError::DuplicateHook => old(self)@.contains_key(id) && old(
                        self,
                    )@[id].type_codec is Some,
                    RegistryError::DuplicateShape => false,
                },
            },
    {
        proof {
            lemma_reg_map_upto(self.entries@, self.entries@.len());
        }
        let found = self.find(id);
        match found {
            None => {
                proof {
                    lemma_reg_map_upto(self.entries@, self.entries@.len());
                }
                Err(RegistryError::UnknownType)
            },
            Some(i) => {
                proof {
                    lemma_reg_map_at(self.entries@, self.entries@.len(), i as int);
                }
                if self.entries[i].type_codec.is_some() {
                    return Err(RegistryError::DuplicateHook);
                }
                let ghost old_entries = self.entries@;
                let old_entry = self.entries.remove(i);
                self.entries.insert(
                    i,
                    RegEntry { id, shape: old_entry.shape, type_codec: Some(hook) },
                );
                proof {
                    let e2 = RegEntry {
                        id,
                        shape: old_entries[i as int].shape,
                        type_codec: Some(hook),
                    };
                    assert(self.entries@ =~= old_entries.update(i as int, e2));
                    lemma_reg_map_update(
                        old_entries,
                        old_entries.update(i as int, e2),
                        old_entries.len(),
                        i as int,
                    );
                    assert(self@ =~= old(self)@.insert(
                        id,
                        RegEntryView { shape: old(self)@[id].shape, type_codec: Some(hook) },
                    ));
                }
                Ok(())
            },
        }
    }

    /// Look a type id up.  Fails with `UnknownType` if it is not
    /// registered.
    pub fn lookup(&self, id: u64) -> (r: Result<&RegEntry, RegistryError>)
        requires
            self.wf(),
        ensures
            match r {
                Ok(e) => self@.contains_key(id) && e.id == id && self@[id] == RegEntryView {
                    shape: e.shape@,
                    type_codec: e.type_codec,
                },
                Err(e) => e == RegistryError::UnknownType && !self@.contains_key(id),
            },
    {
        proof {
            lemma_reg_map_upto(self.entries@, self.entries@.len());
        }
        match self.find(id) {
            None => Err(RegistryError::UnknownType),
            Some(i) => {
                proof {
                    lemma_reg_map_at(self.entries@, self.entries@.len(), i as int);
                }
                Ok(&self.entries[i])
            },
        }
    }
}

/// `reg_map_upto(es, n)` contains exactly the ids of the first `n`
/// entries, and, with distinct ids, maps each to its own entry.
pub proof fn lemma_reg_map_upto(es: Seq<RegEntry>, n: nat)
    requires
        n <= es.len(),
    ensures
        forall|id: u64|
            reg_map_upto(es, n).contains_key(id) <==> exists|i: int|
                0 <= i < n && (#[trigger] es[i]).id == id,
    decreases n,
{
    if n > 0 {
        lemma_reg_map_upto(es, (n - 1) as nat);
        assert forall|id: u64| reg_map_upto(es, n).contains_key(id) implies exists|i: int|
            0 <= i < n && (#[trigger] es[i]).id == id by {
            if id == es[n - 1].id {
                assert(0 <= n - 1 < n && (es[n - 1 as int]).id == id);
            } else {
                assert(reg_map_upto(es, (n - 1) as nat).contains_key(id));
                let i = choose|i: int| 0 <= i < n - 1 && (#[trigger] es[i]).id == id;
                assert(0 <= i < n && es[i].id == id);
            }
        }
        assert forall|id: u64| (exists|i: int| 0 <= i < n && (#[trigger] es[i]).id == id)
            implies reg_map_upto(es, n).contains_key(id) by {
            let i = choose|i: int| 0 <= i < n && (#[trigger] es[i]).id == id;
            if i < n - 1 {
                assert(reg_map_upto(es, (n - 1) as nat).contains_key(id));
            }
        }
    }
}

/// With distinct ids, the map of the first `n` entries sends entry `i`'s
/// id to entry `i`'s view.
pub proof fn lemma_reg_map_at(es: Seq<RegEntry>, n: nat, i: int)
    requires
        n <= es.len(),
        distinct_ids(es),
        0 <= i < n,
    ensures
        reg_map_upto(es, n).contains_key(es[i].id),
        reg_map_upto(es, n)[es[i].id] == (RegEntryView {
            shape: es[i].shape@,
            type_codec: es[i].type_codec,
        }),
    decreases n,
{
    if i < n - 1 {
        lemma_reg_map_at(es, (n - 1) as nat, i);
    }
}

/// Updating one entry in place, keeping its id, remaps that id and nothing
/// else.
pub proof fn lemma_reg_map_update(es: Seq<RegEntry>, es2: Seq<RegEntry>, n: nat, i: int)
    requires
        n <= es.len(),
        distinct_ids(es),
        0 <= i < n,
        es2 == es.update(i, es2[i]),
        es2[i].id == es[i].id,
    ensures
        reg_map_upto(es2, n) == reg_map_upto(es, n).insert(
            es[i].id,
            RegEntryView { shape: es2[i].shape@, type_codec: es2[i].type_codec },
        ),
    decreases n,
{
    let v2 = RegEntryView { shape: es2[i].shape@, type_codec: es2[i].type_codec };
    if i == n - 1 {
        lemma_reg_map_upto_prefix(es, es2, (n - 1) as nat);
        assert(reg_map_upto(es2, n) =~= reg_map_upto(es, n).insert(es[i].id, v2));
    } else {
        lemma_reg_map_update(es, es2, (n - 1) as nat, i);
        assert(es2[n - 1] == es[n - 1]);
        assert(es[n - 1].id != es[i].id);
        assert(reg_map_upto(es2, n) =~= reg_map_upto(es, n).insert(es[i].id, v2));
    }
}

/// Two entry sequences equal on a prefix model the same map up to it.
pub proof fn lemma_reg_map_upto_prefix(es1: Seq<RegEntry>, es2: Seq<RegEntry>, n: nat)
    requires
        n <= es1.len(),
        n <= es2.len(),
        forall|i: int| 0 <= i < n ==> es1[i] == es2[i],
    ensures
        reg_map_upto(es1, n) == reg_map_upto(es2, n),
    decreases n,
{
    if n > 0 {
        lemma_reg_map_upto_prefix(es1, es2, (n - 1) as nat);
    }
}

} // verus!
