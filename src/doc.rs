//! The value model: fields, documents and their status.

use vstd::prelude::*;

verus! {

/// Index of the field that holds a document's identifier.
pub const DOC_ID_FIELD_INDEX: usize = 0;

/// A UTC instant: whole seconds since the Unix epoch and the nanoseconds past
/// that second (a leap second shows as `nanos` of one billion or more).
#[derive(Clone, Copy, Debug, PartialEq, Eq, Structural)]
pub struct DateTime {
    pub secs: i64,
    pub nanos: u32,
}

/// `a` is a later instant than `b`.
pub open spec fn datetime_gt(a: DateTime, b: DateTime) -> bool {
    a.secs > b.secs || (a.secs == b.secs && a.nanos > b.nanos)
}

impl DateTime {
    /// The instant `nanos` nanoseconds after second `secs` of the Unix epoch.
    pub fn new(secs: i64, nanos: u32) -> (r: DateTime)
        ensures
            r.secs == secs,
            r.nanos == nanos,
    {
        DateTime { secs, nanos }
    }

    /// Whether `self` is a later instant than `other`.
    pub fn is_after(&self, other: &DateTime) -> (r: bool)
        ensures
            r == datetime_gt(*self, *other),
    {
        self.secs > other.secs || (self.secs == other.secs && self.nanos > other.nanos)
    }

    /// Whether `self` and `other` are the same instant.
    pub fn same_instant(&self, other: &DateTime) -> (r: bool)
        ensures
            r == (*self == *other),
    {
        self.secs == other.secs && self.nanos == other.nanos
    }
}

/// A value of the schema-less model.
///
/// Floating-point numbers are held as the bit pattern of their IEEE 754
/// binary64 encoding (see the `float` module). The `Optional*` variants are
/// slots that may be absent; absence there is not `Null`.
#[derive(Debug)]
pub enum Field {
    Null,
    Bool(bool),
    Int(i64),
    Float(u64),
    String(String),
    DateTime(DateTime),
    Doc(Doc),
    BoolArray(Vec<bool>),
    IntArray(Vec<i64>),
    FloatArray(Vec<u64>),
    StringArray(Vec<String>),
    DateTimeArray(Vec<DateTime>),
    DocArray(Vec<Doc>),
    OptionalBool(Option<bool>),
    OptionalInt(Option<i64>),
    OptionalFloat(Option<u64>),
    OptionalString(Option<String>),
    OptionalDateTime(Option<DateTime>),
    OptionalBoolArray(Vec<Option<bool>>),
    OptionalIntArray(Vec<Option<i64>>),
    OptionalFloatArray(Vec<Option<u64>>),
    OptionalStringArray(Vec<Option<String>>),
    OptionalDateTimeArray(Vec<Option<DateTime>>),
}

/// Whether a document is live or deleted.
#[derive(Clone, Copy, Debug, PartialEq, Eq, Structural)]
pub enum Status {
    Active,
    Deleted,
}

/// A document: its fields by position, and metadata the matcher never reads.
#[derive(Debug)]
pub struct Doc {
    pub hidden: bool,
    pub fields: Vec<Field>,
    pub status: Status,
    pub schema_version_id: String,
}

/// The identifier a document carries, if its identifier field holds a string.
pub open spec fn id_of(d: Doc) -> Option<Seq<char>> {
    if d.fields.len() > DOC_ID_FIELD_INDEX {
        match d.fields@[DOC_ID_FIELD_INDEX as int] {
            Field::String(s) => Some(s@),
            _ => None,
        }
    } else {
        None
    }
}

/// `a` and `b` hold the same value, nested documents compared field by field.
pub open spec fn same_field(a: Field, b: Field) -> bool
    decreases a,
{
    match (a, b) {
        (Field::String(x), Field::String(y)) => x@ == y@,
        (Field::Doc(x), Field::Doc(y)) => same_doc(x, y),
        (Field::BoolArray(x), Field::BoolArray(y)) => x@ == y@,
        (Field::IntArray(x), Field::IntArray(y)) => x@ == y@,
        (Field::FloatArray(x), Field::FloatArray(y)) => x@ == y@,
        (Field::StringArray(x), Field::StringArray(y)) => x@ == y@,
        (Field::DateTimeArray(x), Field::DateTimeArray(y)) => x@ == y@,
        (Field::DocArray(x), Field::DocArray(y)) => x.len() == y.len() && forall|i: int|
            0 <= i < x.len() ==> same_doc(#[trigger] x@[i], y@[i]),
        (Field::OptionalString(x), Field::OptionalString(y)) => x == y,
        (Field::OptionalBoolArray(x), Field::OptionalBoolArray(y)) => x@ == y@,
        (Field::OptionalIntArray(x), Field::OptionalIntArray(y)) => x@ == y@,
        (Field::OptionalFloatArray(x), Field::OptionalFloatArray(y)) => x@ == y@,
        (Field::OptionalStringArray(x), Field::OptionalStringArray(y)) => x@ == y@,
        (Field::OptionalDateTimeArray(x), Field::OptionalDateTimeArray(y)) => x@ == y@,
        _ => a == b,
    }
}

/// `a` and `b` have the same metadata and the same fields.
pub open spec fn same_doc(a: Doc, b: Doc) -> bool
    decreases a,
{
    &&& a.hidden == b.hidden
    &&& a.status == b.status
    &&& a.schema_version_id@ == b.schema_version_id@
    &&& a.fields.len() == b.fields.len()
    &&& forall|i: int| 0 <= i < a.fields.len() ==> same_field(#[trigger] a.fields@[i], b.fields@[i])
}

impl Doc {
    /// A visible, active document with only an empty identifier field.
    pub fn new() -> (r: Doc)
        ensures
            r.fields.len() == DOC_ID_FIELD_INDEX + 1,
            id_of(r) == Some(Seq::<char>::empty()),
            !r.hidden,
            r.status == Status::Active,
            r.schema_version_id@.len() == 0,
    {
        let mut fields: Vec<Field> = Vec::new();
        fields.push(Field::String(String::new()));
        Doc { hidden: false, fields, status: Status::Active, schema_version_id: String::new() }
    }

    /// The identifier, when the identifier field holds a string.
    pub fn get_id(&self) -> (r: Option<&String>)
        requires
            self.fields.len() > DOC_ID_FIELD_INDEX,
        ensures
            match r {
                Some(s) => id_of(*self) == Some(s@),
                None => id_of(*self) is None,
            },
    {
        match &self.fields[DOC_ID_FIELD_INDEX] {
            Field::String(id) => Some(id),
            _ => None,
        }
    }

    /// Stores `doc_id` as the identifier; the other fields stay as they were.
    pub fn set_id(&mut self, doc_id: String)
        requires
            old(self).fields.len() > DOC_ID_FIELD_INDEX,
        ensures
            final(self).fields@ == old(self).fields@.update(
                DOC_ID_FIELD_INDEX as int,
                Field::String(doc_id),
            ),
            final(self).hidden == old(self).hidden,
            final(self).status == old(self).status,
            final(self).schema_version_id == old(self).schema_version_id,
            id_of(*final(self)) == Some(doc_id@),
    {
        self.fields.set(DOC_ID_FIELD_INDEX, Field::String(doc_id));
    }

    /// A deep copy: every field is copied, nested documents included.
    pub fn clone(&self) -> (r: Doc)
        ensures
            same_doc(r, *self),
        decreases self,
    {
        let mut fields: Vec<Field> = Vec::new();
        let mut i: usize = 0;
        while i < self.fields.len()
            invariant
                i <= self.fields.len(),
                fields.len() == i,
                forall|j: int| 0 <= j < i ==> same_field(#[trigger] fields@[j], self.fields@[j]),
            decreases self.fields.len() - i,
        {
            proof {
                assert(decreases_to!(self => self.fields@[i as int]));
            }
            let f = copy_field(&self.fields[i]);
            fields.push(f);
            i = i + 1;
        }
        Doc {
            hidden: self.hidden,
            fields,
            status: self.status,
            schema_version_id: self.schema_version_id.clone(),
        }
    }
}

impl Clone for Doc {
    fn clone(&self) -> (r: Self)
        ensures
            same_doc(r, *self),
    {
        Doc::clone(self)
    }
}

impl Clone for Field {
    fn clone(&self) -> (r: Self)
        ensures
            same_field(r, *self),
    {
        copy_field(self)
    }
}

/// Copies a vector element by element with `clone`, for element types whose
/// clone is exact.
fn copy_vec<T: Clone>(v: &Vec<T>) -> (r: Vec<T>)
    requires
        forall|a: T, b: T| vstd::pervasive::cloned(a, b) ==> a == b,
    ensures
        r@ == v@,
{
    let r = v.clone();
    proof {
        assert(r@ =~= v@);
    }
    r
}

/// A deep copy of a field.
pub fn copy_field(f: &Field) -> (r: Field)
    ensures
        same_field(r, *f),
    decreases f,
{
    match f {
        Field::Null => Field::Null,
        Field::Bool(b) => Field::Bool(*b),
        Field::Int(i) => Field::Int(*i),
        Field::Float(x) => Field::Float(*x),
        Field::String(s) => Field::String(s.clone()),
        Field::DateTime(d) => Field::DateTime(*d),
        Field::Doc(d) => Field::Doc(d.clone()),
        Field::BoolArray(v) => Field::BoolArray(copy_vec(v)),
        Field::IntArray(v) => Field::IntArray(copy_vec(v)),
        Field::FloatArray(v) => Field::FloatArray(copy_vec(v)),
        Field::StringArray(v) => Field::StringArray(copy_vec(v)),
        Field::DateTimeArray(v) => Field::DateTimeArray(copy_vec(v)),
        Field::DocArray(v) => {
            let mut docs: Vec<Doc> = Vec::new();
            let mut i: usize = 0;
            while i < v.len()
                invariant
                    i <= v.len(),
                    docs.len() == i,
                    *f == Field::DocArray(*v),
                    forall|j: int| 0 <= j < i ==> same_doc(#[trigger] docs@[j], v@[j]),
                decreases v.len() - i,
            {
                proof {
                    assert(decreases_to!(*f => (*f)->DocArray_0));
                    assert(decreases_to!(*v => v@[i as int]));
                }
                let d = Doc::clone(&v[i]);
                docs.push(d);
                i = i + 1;
            }
            Field::DocArray(docs)
        },
        Field::OptionalBool(o) => Field::OptionalBool(*o),
        Field::OptionalInt(o) => Field::OptionalInt(*o),
        Field::OptionalFloat(o) => Field::OptionalFloat(*o),
        Field::OptionalString(o) => Field::OptionalString(
            match o {
                Some(s) => Some(s.clone()),
                None => None,
            },
        ),
        Field::OptionalDateTime(o) => Field::OptionalDateTime(*o),
        Field::OptionalBoolArray(v) => Field::OptionalBoolArray(copy_vec(v)),
        Field::OptionalIntArray(v) => Field::OptionalIntArray(copy_vec(v)),
        Field::OptionalFloatArray(v) => Field::OptionalFloatArray(copy_vec(v)),
        Field::OptionalStringArray(v) => Field::OptionalStringArray(copy_vec(v)),
        Field::OptionalDateTimeArray(v) => Field::OptionalDateTimeArray(copy_vec(v)),
    }
}

} // verus!
