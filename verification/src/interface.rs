//! The interface model: the closed type grammar and the definitions that an
//! interface description is made of. All entities here are plain immutable
//! data; they are constructed once, before generation begins, and the
//! generator never mutates them.

use vstd::prelude::*;

verus! {

/// A reference to a type in the closed type grammar.
///
/// `Enum` and `Record` refer by name to a definition that must be present in
/// the interface model. `Optional` may wrap any other variant, with unbounded
/// nesting. `Object` is an extension point that no mapper supports yet:
/// referencing it is a generation-time failure.
#[derive(Debug, PartialEq, Eq)]
pub enum TypeReference {
    Boolean,
    U32,
    U64,
    Float,
    Double,
    String,
    Bytes,
    Enum(String),
    Record(String),
    Optional(Box<TypeReference>),
    Object(String),
}

/// An enum definition: a name and an ordered, non-empty sequence of distinct
/// value names. The order is the encoding: each value's wire representation
/// is its 1-based position in the sequence.
#[derive(Debug, PartialEq, Eq)]
pub struct EnumDefinition {
    pub name: String,
    pub values: Vec<String>,
}

/// One field of a record: a name and the type it holds.
#[derive(Debug, PartialEq, Eq)]
pub struct FieldDefinition {
    pub name: String,
    pub type_: TypeReference,
}

/// A record definition: a name and an ordered sequence of fields with names
/// unique within the record. The wire representation of a record value is
/// the concatenation of each field's wire representation in declared order.
#[derive(Debug, PartialEq, Eq)]
pub struct RecordDefinition {
    pub name: String,
    pub fields: Vec<FieldDefinition>,
}

/// One argument of a function: a name and the type it takes.
#[derive(Debug, PartialEq, Eq)]
pub struct ArgumentDefinition {
    pub name: String,
    pub type_: TypeReference,
}

/// A function definition: a name, an ordered argument list and an optional
/// return type. Each function maps 1:1 to exactly one foreign-call entry
/// point.
#[derive(Debug, PartialEq, Eq)]
pub struct FunctionDefinition {
    pub name: String,
    pub arguments: Vec<ArgumentDefinition>,
    pub return_type: Option<TypeReference>,
}

/// An object definition: an extension point of the grammar. No component of
/// the generator supports objects yet.
#[derive(Debug, PartialEq, Eq)]
pub struct ObjectDefinition {
    pub name: String,
}

/// The whole interface model handed to the generator: a namespace and the
/// ordered collections of definitions. Read-only input, parsed and validated
/// upstream.
#[derive(Debug, PartialEq, Eq)]
pub struct ComponentInterface {
    pub namespace: String,
    pub enums: Vec<EnumDefinition>,
    pub records: Vec<RecordDefinition>,
    pub functions: Vec<FunctionDefinition>,
    pub objects: Vec<ObjectDefinition>,
}

impl ComponentInterface {
    /// The namespace of the component, used for the package name and for the
    /// names of the native entry points.
    pub fn namespace(&self) -> (r: &str)
        ensures
            r@ == self.namespace@,
    {
        self.namespace.as_str()
    }
}

/// Whether some enum definition with the given name is present.
pub open spec fn has_enum(ci: ComponentInterface, name: Seq<char>) -> bool {
    exists|i: int| 0 <= i < ci.enums@.len() && ci.enums@[i].name@ == name
}

/// The index of an enum definition with the given name. Meaningful when
/// `has_enum` holds; under `wf_interface` names are unique, so the index is
/// the single one that matches.
pub open spec fn enum_index(ci: ComponentInterface, name: Seq<char>) -> int {
    choose|i: int| 0 <= i < ci.enums@.len() && ci.enums@[i].name@ == name
}

/// The enum definition with the given name, if any.
pub open spec fn lookup_enum(ci: ComponentInterface, name: Seq<char>) -> Option<EnumDefinition> {
    if has_enum(ci, name) {
        Some(ci.enums@[enum_index(ci, name)])
    } else {
        None
    }
}

/// Whether some record definition with the given name is present.
pub open spec fn has_record(ci: ComponentInterface, name: Seq<char>) -> bool {
    exists|i: int| 0 <= i < ci.records@.len() && ci.records@[i].name@ == name
}

/// The index of a record definition with the given name. Meaningful when
/// `has_record` holds; under `wf_interface` names are unique, so the index
/// is the single one that matches.
pub open spec fn record_index(ci: ComponentInterface, name: Seq<char>) -> int {
    choose|i: int| 0 <= i < ci.records@.len() && ci.records@[i].name@ == name
}

/// The record definition with the given name, if any.
pub open spec fn lookup_record(ci: ComponentInterface, name: Seq<char>) -> Option<
    RecordDefinition,
> {
    if has_record(ci, name) {
        Some(ci.records@[record_index(ci, name)])
    } else {
        None
    }
}

/// Structural depth of a type reference: how many `Optional` wrappers stand
/// around the base type.
pub open spec fn type_depth(t: TypeReference) -> nat
    decreases t,
{
    match t {
        TypeReference::Optional(inner) => type_depth(*inner) + 1,
        _ => 1,
    }
}

/// A bound on which record definitions a type reference reaches directly,
/// under a ranking `r` of the records: 1 + the rank of the record it names
/// (looking through `Optional` wrappers), 0 where it names none.
pub open spec fn type_reach_with(
    ci: ComponentInterface,
    r: spec_fn(int) -> nat,
    t: TypeReference,
) -> nat
    decreases t,
{
    match t {
        TypeReference::Record(name) => if has_record(ci, name@) {
            r(record_index(ci, name@)) + 1
        } else {
            0
        },
        TypeReference::Optional(inner) => type_reach_with(ci, r, *inner),
        _ => 0,
    }
}

/// The largest `type_reach_with` over a sequence of fields, under a
/// ranking `r` of the records.
pub open spec fn fields_reach_with(
    ci: ComponentInterface,
    r: spec_fn(int) -> nat,
    fields: Seq<FieldDefinition>,
) -> nat
    decreases fields.len(),
{
    if fields.len() == 0 {
        0
    } else {
        let first = type_reach_with(ci, r, fields[0].type_);
        let rest = fields_reach_with(ci, r, fields.drop_first());
        if first >= rest {
            first
        } else {
            rest
        }
    }
}

/// Whether `r` ranks the records so that each record's fields reach only
/// records of strictly smaller rank. Such a ranking exists exactly when
/// the type graph has no cycles, whatever order the records are declared
/// in.
pub open spec fn rank_ok(ci: ComponentInterface, r: spec_fn(int) -> nat) -> bool {
    forall|k: int|
        0 <= k < ci.records@.len() ==> fields_reach_with(
            ci,
            r,
            (#[trigger] ci.records@[k]).fields@,
        ) <= r(k)
}

/// Some ranking that witnesses the acyclicity of the type graph
/// (meaningful under `wf_interface`).
pub open spec fn the_rank(ci: ComponentInterface) -> spec_fn(int) -> nat {
    choose|r: spec_fn(int) -> nat| rank_ok(ci, r)
}

/// A bound on which record definitions a type reference reaches directly,
/// under the witnessing ranking of a well-formed model. A record's fields
/// reach only records of strictly smaller rank, which founds the
/// schema-driven recursion of the codec.
pub open spec fn record_reach(ci: ComponentInterface, t: TypeReference) -> nat {
    type_reach_with(ci, the_rank(ci), t)
}

/// The largest `record_reach` over a sequence of fields.
pub open spec fn fields_reach(ci: ComponentInterface, fields: Seq<FieldDefinition>) -> nat {
    fields_reach_with(ci, the_rank(ci), fields)
}

/// The largest `type_depth` over a sequence of fields.
pub open spec fn fields_depth(ci: ComponentInterface, fields: Seq<FieldDefinition>) -> nat
    decreases fields.len(),
{
    if fields.len() == 0 {
        0
    } else {
        let first = type_depth(fields[0].type_);
        let rest = fields_depth(ci, fields.drop_first());
        if first >= rest {
            first
        } else {
            rest
        }
    }
}

/// Whether every `Enum` and `Record` name inside the type reference resolves
/// to a definition of the model.
pub open spec fn type_resolves(ci: ComponentInterface, t: TypeReference) -> bool
    decreases t,
{
    match t {
        TypeReference::Enum(name) => has_enum(ci, name@),
        TypeReference::Record(name) => has_record(ci, name@),
        TypeReference::Optional(inner) => type_resolves(ci, *inner),
        _ => true,
    }
}

/// Well-formedness of an interface model, established upstream of the
/// generator:
/// - enum and record names are unique, so a name denotes one definition;
/// - every enum has at least one value, its value names are distinct, and
///   it has at most `u32::MAX` values, since a wire ordinal is a 32-bit
///   integer;
/// - field names are unique within each record;
/// - every name referenced by a field or an argument resolves;
/// - some ranking of the records witnesses that the type graph has no
///   cycles: each record's fields reach only records of strictly smaller
///   rank, in whatever order the records are declared.
pub open spec fn wf_interface(ci: ComponentInterface) -> bool {
    &&& exists|r: spec_fn(int) -> nat| rank_ok(ci, r)
    &&& forall|i: int, j: int|
        #![trigger ci.enums@[i].name@, ci.enums@[j].name@]
        0 <= i < j < ci.enums@.len() ==> ci.enums@[i].name@ != ci.enums@[j].name@
    &&& forall|i: int, j: int|
        #![trigger ci.records@[i].name@, ci.records@[j].name@]
        0 <= i < j < ci.records@.len() ==> ci.records@[i].name@ != ci.records@[j].name@
    &&& forall|k: int|
        0 <= k < ci.enums@.len() ==> {
            &&& 1 <= (#[trigger] ci.enums@[k]).values@.len() <= u32::MAX
            &&& forall|i: int, j: int|
                0 <= i < j < ci.enums@[k].values@.len() ==> ci.enums@[k].values@[i]@
                    != ci.enums@[k].values@[j]@
        }
    &&& forall|k: int|
        0 <= k < ci.records@.len() ==> {
            &&& forall|i: int, j: int|
                0 <= i < j < (#[trigger] ci.records@[k]).fields@.len()
                    ==> ci.records@[k].fields@[i].name@ != ci.records@[k].fields@[j].name@
            &&& forall|i: int|
                0 <= i < ci.records@[k].fields@.len() ==> type_resolves(
                    ci,
                    (#[trigger] ci.records@[k].fields@[i]).type_,
                )
        }
    &&& forall|k: int|
        0 <= k < ci.functions@.len() ==> {
            &&& forall|i: int|
                0 <= i < ci.functions@[k].arguments@.len() ==> type_resolves(
                    ci,
                    (#[trigger] ci.functions@[k].arguments@[i]).type_,
                )
            &&& match (#[trigger] ci.functions@[k]).return_type {
                Some(rt) => type_resolves(ci, rt),
                None => true,
            }
        }
}

impl ComponentInterface {
    /// Looks up the enum definition with the given name.
    pub fn find_enum(&self, name: &String) -> (r: Option<&EnumDefinition>)
        requires
            wf_interface(*self),
        ensures
            match r {
                Some(e) => lookup_enum(*self, name@) == Some(*e),
                None => lookup_enum(*self, name@) is None,
            },
    {
        let n = self.enums.len();
        for i in 0..n
            invariant
                wf_interface(*self),
                n == self.enums@.len(),
                forall|j: int| 0 <= j < i ==> self.enums@[j].name@ != name@,
        {
            if self.enums[i].name == *name {
                proof {
                    assert(self.enums@[i as int].name@ == name@);
                    assert(has_enum(*self, name@));
                    let j = enum_index(*self, name@);
                    assert(0 <= j < self.enums@.len() && self.enums@[j].name@ == name@);
                    if j < i as int {
                        assert(self.enums@[j].name@ != name@);
                    }
                    if (i as int) < j {
                        assert(self.enums@[i as int].name@ != self.enums@[j].name@);
                    }
                    assert(j == i as int);
                }
                return Some(&self.enums[i]);
            }
        }
        None
    }

    /// Looks up the record definition with the given name.
    pub fn find_record(&self, name: &String) -> (r: Option<&RecordDefinition>)
        requires
            wf_interface(*self),
        ensures
            match r {
                Some(rec) => lookup_record(*self, name@) == Some(*rec),
                None => lookup_record(*self, name@) is None,
            },
    {
        let n = self.records.len();
        for i in 0..n
            invariant
                wf_interface(*self),
                n == self.records@.len(),
                forall|j: int| 0 <= j < i ==> self.records@[j].name@ != name@,
        {
            if self.records[i].name == *name {
                proof {
                    assert(self.records@[i as int].name@ == name@);
                    assert(has_record(*self, name@));
                    let j = record_index(*self, name@);
                    assert(0 <= j < self.records@.len() && self.records@[j].name@ == name@);
                    if j < i as int {
                        assert(self.records@[j].name@ != name@);
                    }
                    if (i as int) < j {
                        assert(self.records@[i as int].name@ != self.records@[j].name@);
                    }
                    assert(j == i as int);
                }
                return Some(&self.records[i]);
            }
        }
        None
    }
}

} // verus!
