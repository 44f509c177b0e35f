//! Field mappings: which positions of a document hold which named property.

use crate::doc::{Doc, Field, Status, same_field};
use vstd::prelude::*;
use vstd::string::StringExecFns;

verus! {

/// A property to render: the field position and the name it is rendered under.
pub struct RenderKey {
    pub index: usize,
    pub key: String,
}

/// The field that holds a document's type name, and that name.
pub struct MappingTypeInfo {
    pub index: usize,
    pub name: String,
}

impl MappingTypeInfo {
    /// A copy of this record.
    pub fn clone(&self) -> (r: MappingTypeInfo)
        ensures
            r.index == self.index,
            r.name@ == self.name@,
    {
        MappingTypeInfo { index: self.index, name: self.name.clone() }
    }
}

/// The mapping of property names to field positions of a document type.
///
/// `indexes_by_name` holds, for each name, the positions mapped to it in the
/// order they were added; each name appears in one entry at most.
pub struct DocumentMapping {
    pub type_info: Option<MappingTypeInfo>,
    pub render_keys: Vec<RenderKey>,
    pub indexes_by_name: Vec<(String, Vec<usize>)>,
    pub next_index: usize,
    pub child_mappings: Vec<Option<DocumentMapping>>,
}

/// Position of the entry for `name` in `entries`, or -1 where there is none.
pub open spec fn entry_index(entries: Seq<(String, Vec<usize>)>, name: Seq<char>) -> int
    decreases entries.len(),
{
    if entries.len() == 0 {
        -1
    } else if entries.last().0@ == name {
        entries.len() - 1
    } else {
        entry_index(entries.drop_last(), name)
    }
}

/// No two entries have the same name.
pub open spec fn names_unique(entries: Seq<(String, Vec<usize>)>) -> bool {
    forall|i: int, j: int|
        0 <= i < entries.len() && 0 <= j < entries.len() && i != j ==> #[trigger] entries[i].0@
            != #[trigger] entries[j].0@
}

proof fn lemma_entry_index(entries: Seq<(String, Vec<usize>)>, name: Seq<char>)
    ensures
        -1 <= entry_index(entries, name) < entries.len(),
        entry_index(entries, name) >= 0 ==> entries[entry_index(entries, name)].0@ == name,
        entry_index(entries, name) == -1 ==> forall|i: int|
            0 <= i < entries.len() ==> #[trigger] entries[i].0@ != name,
    decreases entries.len(),
{
    if entries.len() > 0 {
        lemma_entry_index(entries.drop_last(), name);
        if entries.last().0@ != name {
            assert forall|i: int| 0 <= i < entries.len() - 1 implies #[trigger] entries[i].0@
                == entries.drop_last()[i].0@ by {}
        }
    }
}

proof fn lemma_entry_index_unique(entries: Seq<(String, Vec<usize>)>, name: Seq<char>, k: int)
    requires
        names_unique(entries),
        0 <= k < entries.len(),
        entries[k].0@ == name,
    ensures
        entry_index(entries, name) == k,
    decreases entries.len(),
{
    if k < entries.len() - 1 {
        assert(entries.last().0@ != name);
        let rest = entries.drop_last();
        assert(rest[k] == entries[k]);
        lemma_entry_index_unique(rest, name, k);
    }
}

impl DocumentMapping {
    /// Each name appears in one entry at most.
    pub open spec fn well_formed(&self) -> bool {
        names_unique(self.indexes_by_name@)
    }

    /// The positions mapped to `name`, in the order they were added.
    pub open spec fn indexes_of(&self, name: Seq<char>) -> Seq<usize> {
        let k = entry_index(self.indexes_by_name@, name);
        if k >= 0 {
            self.indexes_by_name@[k].1@
        } else {
            Seq::empty()
        }
    }

    /// An empty mapping.
    pub fn new() -> (r: DocumentMapping)
        ensures
            r.well_formed(),
            r.type_info is None,
            r.render_keys.len() == 0,
            r.indexes_by_name.len() == 0,
            r.next_index == 0,
            r.child_mappings.len() == 0,
            forall|name: Seq<char>| r.indexes_of(name).len() == 0,
    {
        DocumentMapping {
            type_info: None,
            render_keys: Vec::new(),
            indexes_by_name: Vec::new(),
            next_index: 0,
            child_mappings: Vec::new(),
        }
    }

    /// The first position not yet mapped past every mapped one.
    pub fn get_next_index(&self) -> (r: usize)
        ensures
            r == self.next_index,
    {
        self.next_index
    }

    /// Position of the entry for `name`.
    fn find_entry(&self, name: &str) -> (r: Option<usize>)
        ensures
            match r {
                Some(k) => k < self.indexes_by_name.len() && entry_index(self.indexes_by_name@, name@)
                    == k,
                None => entry_index(self.indexes_by_name@, name@) == -1,
            },
    {
        let wanted = String::from_str(name);
        let mut i: usize = self.indexes_by_name.len();
        proof {
            assert(self.indexes_by_name@.subrange(0, i as int) =~= self.indexes_by_name@);
        }
        while i > 0
            invariant
                i <= self.indexes_by_name.len(),
                wanted@ == name@,
                entry_index(self.indexes_by_name@, name@) == entry_index(
                    self.indexes_by_name@.subrange(0, i as int),
                    name@,
                ),
            decreases i,
        {
            proof {
                assert(self.indexes_by_name@.subrange(0, i as int).drop_last()
                    =~= self.indexes_by_name@.subrange(0, i - 1));
            }
            if self.indexes_by_name[i - 1].0 == wanted {
                return Some(i - 1);
            }
            i = i - 1;
        }
        proof {
            assert(self.indexes_by_name@.subrange(0, 0) =~= Seq::<(String, Vec<usize>)>::empty());
        }
        None
    }

    /// The first position mapped to `name`.
    pub fn first_index_of_name(&self, name: &str) -> (r: usize)
        requires
            self.indexes_of(name@).len() > 0,
        ensures
            r == self.indexes_of(name@)[0],
    {
        match self.find_entry(name) {
            Some(k) => self.indexes_by_name[k].1[0],
            None => {
                proof {
                    assert(false);
                }
                0
            },
        }
    }

    /// Maps one more position to `name`, and moves `next_index` past it.
    pub fn add(&mut self, index: usize, name: String)
        requires
            old(self).well_formed(),
            index < usize::MAX,
        ensures
            final(self).well_formed(),
            final(self).indexes_of(name@) == old(self).indexes_of(name@).push(index),
            forall|other: Seq<char>|
                other != name@ ==> #[trigger] final(self).indexes_of(other) == old(self).indexes_of(
                    other,
                ),
            final(self).next_index == if index >= old(self).next_index {
                (index + 1) as usize
            } else {
                old(self).next_index
            },
            final(self).type_info == old(self).type_info,
            final(self).render_keys == old(self).render_keys,
            final(self).child_mappings == old(self).child_mappings,
    {
        if index >= self.next_index {
            self.next_index = index + 1;
        }
        let ghost before = self.indexes_by_name@;
        match self.find_entry(name.as_str()) {
            Some(k) => {
                proof {
                    lemma_entry_index(before, name@);
                }
                let mut entry = self.indexes_by_name.remove(k);
                entry.1.push(index);
                let ghost changed = entry;
                self.indexes_by_name.insert(k, entry);
                proof {
                    let after = self.indexes_by_name@;
                    assert(after =~= before.update(k as int, changed));
                    assert forall|i: int| 0 <= i < after.len() implies #[trigger] after[i].0@
                        == before[i].0@ by {}
                    lemma_entry_index_unique(after, name@, k as int);
                    assert forall|other: Seq<char>| other != name@ implies #[trigger] entry_index(
                        after,
                        other,
                    ) == entry_index(before, other) by {
                        lemma_entry_index(before, other);
                        let e = entry_index(before, other);
                        if e >= 0 {
                            lemma_entry_index_unique(after, other, e);
                        } else {
                            lemma_entry_index(after, other);
                            if entry_index(after, other) >= 0 {
                                assert(before[entry_index(after, other)].0@ == other);
                            }
                        }
                    }
                    assert forall|other: Seq<char>| other != name@ implies #[trigger] self.indexes_of(
                        other,
                    ) == old(self).indexes_of(other) by {
                        let e = entry_index(before, other);
                        lemma_entry_index(before, other);
                        if e >= 0 {
                            assert(e != k);
                            assert(after[e] == before[e]);
                        }
                    }
                }
            },
            None => {
                let mut indexes: Vec<usize> = Vec::new();
                indexes.push(index);
                proof {
                    lemma_entry_index(before, name@);
                }
                self.indexes_by_name.push((name, indexes));
                proof {
                    let after = self.indexes_by_name@;
                    assert(after.drop_last() =~= before);
                    assert(after.last().0@ == name@);
                    assert forall|other: Seq<char>| other != name@ implies #[trigger] self.indexes_of(
                        other,
                    ) == old(self).indexes_of(other) by {
                        assert(entry_index(after, other) == entry_index(after.drop_last(), other));
                        assert(entry_index(after, other) == entry_index(before, other));
                        if entry_index(before, other) >= 0 {
                            lemma_entry_index(before, other);
                            assert(after[entry_index(before, other)] == before[entry_index(before, other)]);
                        }
                    }
                    assert forall|i: int, j: int|
                        0 <= i < after.len() && 0 <= j < after.len() && i != j implies #[trigger] after[i].0@
                        != #[trigger] after[j].0@ by {
                        if i < before.len() && j < before.len() {
                            assert(after[i] == before[i]);
                            assert(after[j] == before[j]);
                        } else if i < before.len() {
                            assert(after[i] == before[i]);
                        } else {
                            assert(after[j] == before[j]);
                        }
                    }
                    assert(self.indexes_of(name@) =~= old(self).indexes_of(name@).push(index));
                }
            },
        }
    }

    /// Maps the next free position to the reserved name of the type field
    /// (see [`type_field_name`]) and records it as the field that holds the
    /// document type's name `name`.
    pub fn set_type_name(&mut self, name: String)
        requires
            old(self).well_formed(),
            old(self).next_index < usize::MAX,
        ensures
            final(self).well_formed(),
            final(self).type_info matches Some(info) && info.index == old(self).next_index
                && info.name@ == name@,
            final(self).indexes_of(type_field_name()) == old(self).indexes_of(type_field_name()).push(
                old(self).next_index,
            ),
            forall|other: Seq<char>|
                other != type_field_name() ==> #[trigger] final(self).indexes_of(other) == old(self).indexes_of(other),
            final(self).next_index == old(self).next_index + 1,
            final(self).render_keys == old(self).render_keys,
            final(self).child_mappings == old(self).child_mappings,
    {
        let index = self.get_next_index();
        let key = String::from_str("type").concat("_name");
        self.type_info = Some(MappingTypeInfo { index, name });
        self.add(index, key);
    }

    /// Stores `child_mapping` at position `index` of the child mappings,
    /// growing them with empty slots as needed.
    pub fn set_child_at(&mut self, index: usize, child_mapping: DocumentMapping)
        requires
            index < usize::MAX,
        ensures
            final(self).child_mappings.len() == if index < old(self).child_mappings.len() {
                old(self).child_mappings.len()
            } else {
                (index + 1) as usize
            },
            final(self).child_mappings@[index as int] == Some(child_mapping),
            forall|i: int|
                0 <= i < final(self).child_mappings.len() && i != index ==> #[trigger] final(self).child_mappings@[i] == if i < old(self).child_mappings.len() {
                    old(self).child_mappings@[i]
                } else {
                    None
                },
            final(self).type_info == old(self).type_info,
            final(self).render_keys == old(self).render_keys,
            final(self).indexes_by_name == old(self).indexes_by_name,
            final(self).next_index == old(self).next_index,
    {
        let ghost before = self.child_mappings@;
        while self.child_mappings.len() <= index
            invariant
                index < usize::MAX,
                before.len() > index ==> self.child_mappings@ == before,
                before.len() <= index ==> self.child_mappings.len() <= index + 1,
                self.child_mappings.len() >= before.len(),
                forall|i: int|
                    0 <= i < self.child_mappings.len() ==> #[trigger] self.child_mappings@[i] == if i
                        < before.len() {
                        before[i]
                    } else {
                        None
                    },
                self.type_info == old(self).type_info,
                self.render_keys == old(self).render_keys,
                self.indexes_by_name == old(self).indexes_by_name,
                self.next_index == old(self).next_index,
                before == old(self).child_mappings@,
            decreases index + 1 - self.child_mappings.len(),
        {
            self.child_mappings.push(None);
        }
        self.child_mappings.set(index, Some(child_mapping));
    }

    /// A name that position `target_index` is mapped to, if any.
    pub fn try_to_find_name_from_index(&self, target_index: usize) -> (r: Option<String>)
        requires
            self.well_formed(),
        ensures
            match r {
                Some(name) => self.indexes_of(name@).contains(target_index),
                None => forall|name: Seq<char>| !#[trigger] self.indexes_of(name).contains(
                    target_index,
                ),
            },
    {
        let entries = &self.indexes_by_name;
        let mut k: usize = 0;
        while k < entries.len()
            invariant
                k <= entries.len(),
                self.well_formed(),
                entries == &self.indexes_by_name,
                forall|q: int| 0 <= q < k ==> !(#[trigger] entries@[q]).1@.contains(target_index),
            decreases entries.len() - k,
        {
            let indexes = &entries[k].1;
            let mut i: usize = 0;
            while i < indexes.len()
                invariant
                    i <= indexes.len(),
                    k < entries.len(),
                    self.well_formed(),
                    entries == &self.indexes_by_name,
                    *indexes == entries@[k as int].1,
                    forall|q: int| 0 <= q < i ==> indexes@[q] != target_index,
                decreases indexes.len() - i,
            {
                if indexes[i] == target_index {
                    proof {
                        lemma_entry_index_unique(entries@, entries@[k as int].0@, k as int);
                        assert(self.indexes_of(entries@[k as int].0@) == indexes@);
                        assert(indexes@[i as int] == target_index);
                    }
                    return Some(entries[k].0.clone());
                }
                i = i + 1;
            }
            proof {
                assert(!indexes@.contains(target_index));
            }
            k = k + 1;
        }
        proof {
            assert forall|name: Seq<char>| !#[trigger] self.indexes_of(name).contains(target_index) by {
                lemma_entry_index(entries@, name);
            }
        }
        None
    }

    /// A copy of this mapping and of all its child mappings, with no render keys.
    pub fn clone_without_render(&self) -> (r: DocumentMapping)
        ensures
            copied_without_render(r, *self),
            self.well_formed() ==> r.well_formed(),
        decreases self,
    {
        let type_info = match &self.type_info {
            Some(info) => Some(info.clone()),
            None => None,
        };
        let mut indexes_by_name: Vec<(String, Vec<usize>)> = Vec::new();
        let mut k: usize = 0;
        while k < self.indexes_by_name.len()
            invariant
                k <= self.indexes_by_name.len(),
                indexes_by_name.len() == k,
                forall|q: int|
                    0 <= q < k ==> (#[trigger] indexes_by_name@[q]).0@ == self.indexes_by_name@[q].0@
                        && indexes_by_name@[q].1@ == self.indexes_by_name@[q].1@,
            decreases self.indexes_by_name.len() - k,
        {
            let name = self.indexes_by_name[k].0.clone();
            let indexes = copy_indexes(&self.indexes_by_name[k].1);
            indexes_by_name.push((name, indexes));
            k = k + 1;
        }
        let mut child_mappings: Vec<Option<DocumentMapping>> = Vec::new();
        let mut i: usize = 0;
        while i < self.child_mappings.len()
            invariant
                i <= self.child_mappings.len(),
                child_mappings.len() == i,
                forall|q: int|
                    0 <= q < i ==> children_match(child_mappings@[q], #[trigger] self.child_mappings@[q]),
            decreases self.child_mappings.len() - i,
        {
            let child = match &self.child_mappings[i] {
                Some(c) => {
                    proof {
                        assert(decreases_to!(*self => self.child_mappings));
                        assert(decreases_to!(self.child_mappings => self.child_mappings@[i as int]));
                    }
                    Some(c.clone_without_render())
                },
                None => None,
            };
            child_mappings.push(child);
            i = i + 1;
        }
        let r = DocumentMapping {
            type_info,
            render_keys: Vec::new(),
            indexes_by_name,
            next_index: self.next_index,
            child_mappings,
        };
        proof {
            if self.well_formed() {
                assert forall|a: int, b: int|
                    0 <= a < r.indexes_by_name.len() && 0 <= b < r.indexes_by_name.len() && a != b implies #[trigger] r.indexes_by_name@[a].0@
                    != #[trigger] r.indexes_by_name@[b].0@ by {
                    assert(self.indexes_by_name@[a].0@ != self.indexes_by_name@[b].0@);
                }
            }
        }
        r
    }

    /// A new document with one `Int(0)` field for each position below
    /// `next_index`.
    pub fn next_doc(&self) -> (r: Doc)
        ensures
            r.fields.len() == self.next_index,
            forall|i: int| 0 <= i < r.fields.len() ==> #[trigger] r.fields@[i] == Field::Int(0),
            !r.hidden,
            r.status == Status::Active,
            r.schema_version_id@.len() == 0,
    {
        let mut doc = Doc::new();
        let mut fields: Vec<Field> = Vec::new();
        let mut i: usize = 0;
        while i < self.next_index
            invariant
                i <= self.next_index,
                fields.len() == i,
                forall|q: int| 0 <= q < i ==> #[trigger] fields@[q] == Field::Int(0),
            decreases self.next_index - i,
        {
            fields.push(Field::Int(0));
            i = i + 1;
        }
        doc.fields = fields;
        doc
    }

    /// Stores `value` in the first field mapped to `name`.
    pub fn set_first_of_name(&mut self, doc: &mut Doc, name: &str, value: Field)
        requires
            old(self).indexes_of(name@).len() > 0,
            old(self).indexes_of(name@)[0] < old(doc).fields.len(),
        ensures
            *final(self) == *old(self),
            final(doc).fields@ == old(doc).fields@.update(
                old(self).indexes_of(name@)[0] as int,
                value,
            ),
            final(doc).hidden == old(doc).hidden,
            final(doc).status == old(doc).status,
            final(doc).schema_version_id == old(doc).schema_version_id,
    {
        let index = self.first_index_of_name(name);
        doc.fields.set(index, value);
    }

    /// Stores `value` in the first field mapped to `name`, where there is one
    /// within `doc`; tells whether it did.
    pub fn try_set_first_of_name(&mut self, doc: &mut Doc, name: &str, value: Field) -> (r: bool)
        ensures
            *final(self) == *old(self),
            r == (old(self).indexes_of(name@).len() > 0 && old(self).indexes_of(name@)[0]
                < old(doc).fields.len()),
            r ==> final(doc).fields@ == old(doc).fields@.update(
                old(self).indexes_of(name@)[0] as int,
                value,
            ),
            !r ==> final(doc).fields@ == old(doc).fields@,
            final(doc).hidden == old(doc).hidden,
            final(doc).status == old(doc).status,
            final(doc).schema_version_id == old(doc).schema_version_id,
    {
        match self.find_entry(name) {
            Some(k) => {
                if self.indexes_by_name[k].1.len() > 0 {
                    let index = self.indexes_by_name[k].1[0];
                    if index < doc.fields.len() {
                        doc.fields.set(index, value);
                        return true;
                    }
                }
                false
            },
            None => false,
        }
    }

    /// The document rendered under the render keys: for each key name, the
    /// field at the position of the last key of that name that `doc` has, a
    /// copy. Each name appears once, in the order it was first rendered.
    pub fn to_map(&self, doc: &Doc) -> (r: Vec<(String, Field)>)
        ensures
            rendered_names_unique(r@),
            forall|i: int|
                0 <= i < r.len() ==> {
                    let k = rendered_index(self.render_keys@, doc.fields.len() as int, (#[trigger] r@[i]).0@);
                    0 <= k < doc.fields.len() && same_field(r@[i].1, doc.fields@[k])
                },
            forall|name: Seq<char>|
                rendered_index(self.render_keys@, doc.fields.len() as int, name) >= 0 ==> exists|i: int|
                    0 <= i < r.len() && (#[trigger] r@[i]).0@ == name,
    {
        let keys = &self.render_keys;
        let len = doc.fields.len();
        let mut out: Vec<(String, Field)> = Vec::new();
        let mut j: usize = 0;
        while j < keys.len()
            invariant
                j <= keys.len(),
                len == doc.fields.len(),
                keys == &self.render_keys,
                rendered_names_unique(out@),
                forall|i: int|
                    0 <= i < out.len() ==> {
                        let k = rendered_index(keys@.subrange(0, j as int), len as int, (#[trigger] out@[i]).0@);
                        0 <= k < len && same_field(out@[i].1, doc.fields@[k])
                    },
                forall|name: Seq<char>|
                    rendered_index(keys@.subrange(0, j as int), len as int, name) >= 0 ==> exists|i: int|
                        0 <= i < out.len() && (#[trigger] out@[i]).0@ == name,
            decreases keys.len() - j,
        {
            let ghost before = out@;
            let ghost done = keys@.subrange(0, j as int);
            let ghost next = keys@.subrange(0, j + 1);
            proof {
                assert(next.drop_last() =~= done);
                assert(next.last() == keys@[j as int]);
            }
            let key = &keys[j];
            if key.index < len {
                let value = doc.fields[key.index].clone();
                let entry = (key.key.clone(), value);
                match find_rendered(&out, &key.key) {
                    Some(p) => {
                        out.set(p, entry);
                        proof {
                            assert forall|i: int| 0 <= i < out.len() && i != p implies #[trigger] out@[i]
                                == before[i] by {}
                            assert forall|i: int| 0 <= i < out.len() implies (#[trigger] out@[i]).0@
                                == before[i].0@ by {
                                if i != p {
                                    assert(out@[i] == before[i]);
                                }
                            }
                            assert forall|i: int| 0 <= i < out.len() implies {
                                let k = rendered_index(next, len as int, (#[trigger] out@[i]).0@);
                                0 <= k < len && same_field(out@[i].1, doc.fields@[k])
                            } by {
                                if i != p {
                                    assert(out@[i] == before[i]);
                                    assert(before[i].0@ != key.key@);
                                    assert(rendered_index(next, len as int, before[i].0@) == rendered_index(
                                        done,
                                        len as int,
                                        before[i].0@,
                                    ));
                                }
                            }
                            assert forall|name: Seq<char>|
                                rendered_index(next, len as int, name) >= 0 implies exists|i: int|
                                    0 <= i < out.len() && (#[trigger] out@[i]).0@ == name by {
                                if name == key.key@ {
                                    assert(out@[p as int].0@ == name);
                                } else {
                                    assert(rendered_index(done, len as int, name) >= 0);
                                    let w = choose|i: int| 0 <= i < before.len() && (#[trigger] before[i]).0@ == name;
                                    assert(out@[w].0@ == name);
                                }
                            }
                        }
                    },
                    None => {
                        out.push(entry);
                        proof {
                            assert forall|i: int| 0 <= i < before.len() implies #[trigger] out@[i]
                                == before[i] by {}
                            assert forall|i: int| 0 <= i < out.len() implies {
                                let k = rendered_index(next, len as int, (#[trigger] out@[i]).0@);
                                0 <= k < len && same_field(out@[i].1, doc.fields@[k])
                            } by {
                                if i < before.len() {
                                    assert(out@[i] == before[i]);
                                    assert(before[i].0@ != key.key@);
                                    assert(rendered_index(next, len as int, before[i].0@) == rendered_index(
                                        done,
                                        len as int,
                                        before[i].0@,
                                    ));
                                }
                            }
                            assert forall|name: Seq<char>|
                                rendered_index(next, len as int, name) >= 0 implies exists|i: int|
                                    0 <= i < out.len() && (#[trigger] out@[i]).0@ == name by {
                                if name == key.key@ {
                                    assert(out@[before.len() as int].0@ == name);
                                } else {
                                    assert(rendered_index(done, len as int, name) >= 0);
                                    let w = choose|i: int| 0 <= i < before.len() && (#[trigger] before[i]).0@ == name;
                                    assert(out@[w].0@ == name);
                                }
                            }
                        }
                    },
                }
            } else {
                proof {
                    assert forall|name: Seq<char>| #[trigger] rendered_index(next, len as int, name)
                        == rendered_index(done, len as int, name) by {}
                }
            }
            j = j + 1;
        }
        proof {
            assert(keys@.subrange(0, j as int) =~= keys@);
        }
        out
    }

    /// The first field of `doc` mapped to `name`.
    pub fn first_of_name<'a>(&self, doc: &'a Doc, name: &str) -> (r: &'a Field)
        requires
            self.indexes_of(name@).len() > 0,
            self.indexes_of(name@)[0] < doc.fields.len(),
        ensures
            *r == doc.fields@[self.indexes_of(name@)[0] as int],
    {
        let index = self.first_index_of_name(name);
        &doc.fields[index]
    }
}

fn find_rendered(entries: &Vec<(String, Field)>, name: &String) -> (r: Option<usize>)
    ensures
        match r {
            Some(p) => p < entries.len() && entries@[p as int].0@ == name@,
            None => forall|q: int| 0 <= q < entries.len() ==> (#[trigger] entries@[q]).0@ != name@,
        },
{
    let mut p: usize = 0;
    while p < entries.len()
        invariant
            p <= entries.len(),
            forall|q: int| 0 <= q < p ==> (#[trigger] entries@[q]).0@ != name@,
        decreases entries.len() - p,
    {
        if entries[p].0 == *name {
            return Some(p);
        }
        p = p + 1;
    }
    None
}

/// Position of the field rendered under `name`: that of the last render key
/// of that name whose position is below `len`, or -1 where there is none.
pub open spec fn rendered_index(keys: Seq<RenderKey>, len: int, name: Seq<char>) -> int
    decreases keys.len(),
{
    if keys.len() == 0 {
        -1
    } else if keys.last().key@ == name && keys.last().index < len {
        keys.last().index as int
    } else {
        rendered_index(keys.drop_last(), len, name)
    }
}

/// No two rendered entries have the same name.
pub open spec fn rendered_names_unique(entries: Seq<(String, Field)>) -> bool {
    forall|i: int, j: int|
        0 <= i < entries.len() && 0 <= j < entries.len() && i != j ==> #[trigger] entries[i].0@
            != #[trigger] entries[j].0@
}

/// The reserved property name under which the type field is mapped.
pub open spec fn type_field_name() -> Seq<char> {
    "type"@ + "_name"@
}

/// `a` holds the same child mapping as `b`, copied without render keys.
pub open spec fn children_match(a: Option<DocumentMapping>, b: Option<DocumentMapping>) -> bool
    decreases b,
{
    match (a, b) {
        (Some(x), Some(y)) => copied_without_render(x, y),
        (None, None) => true,
        _ => false,
    }
}

/// `a` is `b` with its render keys, and those of its children, left out.
pub open spec fn copied_without_render(a: DocumentMapping, b: DocumentMapping) -> bool
    decreases b,
{
    &&& a.render_keys.len() == 0
    &&& a.next_index == b.next_index
    &&& match (a.type_info, b.type_info) {
        (Some(x), Some(y)) => x.index == y.index && x.name@ == y.name@,
        (None, None) => true,
        _ => false,
    }
    &&& a.indexes_by_name.len() == b.indexes_by_name.len()
    &&& forall|q: int|
        0 <= q < a.indexes_by_name.len() ==> (#[trigger] a.indexes_by_name@[q]).0@
            == b.indexes_by_name@[q].0@ && a.indexes_by_name@[q].1@ == b.indexes_by_name@[q].1@
    &&& a.child_mappings.len() == b.child_mappings.len()
    &&& forall|q: int|
        0 <= q < b.child_mappings.len() ==> children_match(
            a.child_mappings@[q],
            #[trigger] b.child_mappings@[q],
        )
}

fn copy_indexes(v: &Vec<usize>) -> (r: Vec<usize>)
    ensures
        r@ == v@,
{
    let r = v.clone();
    proof {
        assert(r@ =~= v@);
    }
    r
}

} // verus!
