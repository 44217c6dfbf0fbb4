//! Objects: records of a payload and string attributes, stored under
//! identifiers.

use crate::storage::NotFound;
use crate::table::Table;
use vstd::prelude::*;

verus! {

/// String attributes of an object. No key occurs twice; viewed as a map from
/// keys to values.
#[derive(Debug)]
pub struct Attributes {
    pairs: Table<String>,
}

impl View for Attributes {
    type V = Map<Seq<char>, Seq<char>>;

    closed spec fn view(&self) -> Map<Seq<char>, Seq<char>> {
        self.pairs@
    }
}

impl Attributes {
    /// The keys in the order in which `keys` hands them out.
    pub closed spec fn order(&self) -> Seq<Seq<char>> {
        self.pairs.keys()
    }

    /// No attributes.
    pub fn new() -> (attrs: Self)
        ensures
            attrs@ == Map::<Seq<char>, Seq<char>>::empty(),
            attrs.order() == Seq::<Seq<char>>::empty(),
    {
        Attributes { pairs: Table::new() }
    }

    /// Sets `key` to `value`; a later value for the same key replaces the
    /// earlier one.
    pub fn insert(&mut self, key: String, value: String)
        ensures
            final(self)@ == old(self)@.insert(key@, value@),
            final(self).order() == (if old(self)@.contains_key(key@) {
                old(self).order()
            } else {
                old(self).order().push(key@)
            }),
    {
        self.pairs.insert(key, value);
    }

    /// The value of `key`.
    pub fn get(&self, key: &str) -> (value: Option<&String>)
        ensures
            value.deep_view() == (if self@.contains_key(key@) {
                Some(self@[key@])
            } else {
                None
            }),
    {
        self.pairs.get(key)
    }

    /// The number of attributes.
    pub fn len(&self) -> (n: usize)
        ensures
            self@.dom().finite(),
            n == self@.len(),
    {
        self.pairs.len()
    }

    /// Every key, once.
    pub fn keys(&self) -> (keys: Vec<String>)
        ensures
            keys.deep_view() == self.order(),
            self.order().no_duplicates(),
            self.order().to_set() == self@.dom(),
    {
        self.pairs.key_list()
    }
}

impl Clone for Attributes {
    fn clone(&self) -> (copy: Self)
        ensures
            copy@ == self@,
            copy.order() == self.order(),
            copy.order().no_duplicates(),
            copy.order().to_set() == copy@.dom(),
    {
        Attributes { pairs: self.pairs.duplicate() }
    }
}

/// A stored record.
#[derive(Debug)]
pub struct Object {
    pub id: String,
    pub data: String,
    pub metadata: Attributes,
}

/// What an object holds.
pub struct ObjectView {
    pub id: Seq<char>,
    pub data: Seq<char>,
    pub metadata: Map<Seq<char>, Seq<char>>,
}

impl View for Object {
    type V = ObjectView;

    open spec fn view(&self) -> ObjectView {
        ObjectView { id: self.id@, data: self.data@, metadata: self.metadata@ }
    }
}

impl Clone for Object {
    fn clone(&self) -> (copy: Self)
        ensures
            copy@ == self@,
            copy.metadata.order() == self.metadata.order(),
            copy.metadata.order().no_duplicates(),
            copy.metadata.order().to_set() == copy@.metadata.dom(),
    {
        Object { id: self.id.clone(), data: self.data.clone(), metadata: self.metadata.clone() }
    }
}

/// What an object store holds: each stored identifier with its record.
pub type Objects = Map<Seq<char>, ObjectView>;

/// Whether every record carries the identifier under which it is stored.
pub open spec fn well_named(objects: Objects) -> bool {
    forall|id: Seq<char>| #[trigger] objects.contains_key(id) ==> objects[id].id == id
}

/// The objects after `create`: `id` holds a new record, and nothing of an
/// earlier record under `id` is kept.
pub open spec fn created(
    objects: Objects,
    id: Seq<char>,
    data: Seq<char>,
    metadata: Map<Seq<char>, Seq<char>>,
) -> Objects {
    objects.insert(id, ObjectView { id, data, metadata })
}

/// The objects after `write`: the payload of `id` is replaced and its
/// attributes are kept if `id` is stored, and nothing changes if it is not.
pub open spec fn written(objects: Objects, id: Seq<char>, data: Seq<char>) -> Objects {
    if objects.contains_key(id) {
        objects.insert(id, ObjectView { data, ..objects[id] })
    } else {
        objects
    }
}

/// The objects after `delete`: `id` is gone.
pub open spec fn deleted(objects: Objects, id: Seq<char>) -> Objects {
    objects.remove(id)
}

/// What `read` finds under `id`.
pub open spec fn stored(objects: Objects, id: Seq<char>) -> Option<ObjectView> {
    if objects.contains_key(id) {
        Some(objects[id])
    } else {
        None
    }
}

/// Whether `ids` lists every stored identifier exactly once.
pub open spec fn lists(ids: Seq<Seq<char>>, objects: Objects) -> bool {
    &&& ids.no_duplicates()
    &&& ids.to_set() == objects.dom()
    &&& ids.len() == objects.len()
}

/// A change that an object store can be asked for.
pub enum ObjectOp {
    Create { id: Seq<char>, data: Seq<char>, metadata: Map<Seq<char>, Seq<char>> },
    Write { id: Seq<char>, data: Seq<char> },
    Delete { id: Seq<char> },
}

/// The objects after one change.
pub open spec fn applied(objects: Objects, op: ObjectOp) -> Objects {
    match op {
        ObjectOp::Create { id, data, metadata } => created(objects, id, data, metadata),
        ObjectOp::Write { id, data } => written(objects, id, data),
        ObjectOp::Delete { id } => deleted(objects, id),
    }
}

/// The objects after a sequence of changes, the first one first.
pub open spec fn replayed(objects: Objects, ops: Seq<ObjectOp>) -> Objects
    decreases ops.len(),
{
    if ops.len() == 0 {
        objects
    } else {
        applied(replayed(objects, ops.drop_last()), ops.last())
    }
}

/// Whether `op` is a create or a delete of `id`.
pub open spec fn replaces(op: ObjectOp, id: Seq<char>) -> bool {
    match op {
        ObjectOp::Create { id: target, .. } => target == id,
        ObjectOp::Write { .. } => false,
        ObjectOp::Delete { id: target } => target == id,
    }
}

/// A write changes no attributes: the same identifiers are stored after it,
/// each with the attributes it had.
pub proof fn lemma_write_keeps_attributes(objects: Objects, id: Seq<char>, data: Seq<char>)
    ensures
        written(objects, id, data).dom() == objects.dom(),
        forall|other: Seq<char>| #[trigger]
            objects.contains_key(other) ==> written(objects, id, data)[other].metadata
                == objects[other].metadata,
        objects.contains_key(id) ==> written(objects, id, data)[id].data == data,
{
}

/// The attributes of a stored object stay as they are, and the object stays
/// stored, through any changes among which there is no create and no delete
/// of its identifier.
pub proof fn lemma_attributes_last(objects: Objects, id: Seq<char>, ops: Seq<ObjectOp>)
    requires
        objects.contains_key(id),
        forall|k: int| 0 <= k < ops.len() ==> !replaces(#[trigger] ops[k], id),
    ensures
        replayed(objects, ops).contains_key(id),
        replayed(objects, ops)[id].metadata == objects[id].metadata,
    decreases ops.len(),
{
    if ops.len() > 0 {
        lemma_attributes_last(objects, id, ops.drop_last());
    }
}

/// The attributes given at a create are those that a read finds, through
/// any later changes among which there is no create and no delete of the
/// same identifier.
pub proof fn lemma_created_attributes_last(
    objects: Objects,
    id: Seq<char>,
    data: Seq<char>,
    metadata: Map<Seq<char>, Seq<char>>,
    ops: Seq<ObjectOp>,
)
    requires
        forall|k: int| 0 <= k < ops.len() ==> !replaces(#[trigger] ops[k], id),
    ensures
        stored(replayed(created(objects, id, data, metadata), ops), id) matches Some(record)
            && record.metadata == metadata,
{
    lemma_attributes_last(created(objects, id, data, metadata), id, ops);
}

/// A create, then a write under the same identifier: a read finds the
/// written payload with the attributes of the create.
pub proof fn lemma_create_write_read(
    objects: Objects,
    id: Seq<char>,
    data: Seq<char>,
    metadata: Map<Seq<char>, Seq<char>>,
    new_data: Seq<char>,
)
    ensures
        stored(written(created(objects, id, data, metadata), id, new_data), id) == Some(
            (ObjectView { id, data: new_data, metadata }),
        ),
{
}

/// A write or a delete that is refused leaves the objects as they were.
pub proof fn lemma_refused_changes_nothing(objects: Objects, id: Seq<char>, data: Seq<char>)
    requires
        !objects.contains_key(id),
    ensures
        written(objects, id, data) == objects,
        deleted(objects, id) == objects,
{
}

/// Every change keeps each record under its own identifier.
pub proof fn lemma_well_named(objects: Objects, op: ObjectOp)
    requires
        well_named(objects),
    ensures
        well_named(applied(objects, op)),
{
}

/// A store of objects. Viewed as the map from each stored identifier to its
/// record; every record carries the identifier under which it is stored.
pub struct ObjectStorage {
    objects: Table<Object>,
}

impl View for ObjectStorage {
    type V = Objects;

    closed spec fn view(&self) -> Objects {
        self.objects@
    }
}

impl ObjectStorage {
    #[verifier::type_invariant]
    spec fn named_by_key(&self) -> bool {
        well_named(self.objects@)
    }

    /// An empty store.
    pub fn new() -> (store: Self)
        ensures
            store@ == Objects::empty(),
    {
        ObjectStorage { objects: Table::new() }
    }

    /// Stores a record of `data` and `metadata` under `id`, replacing the
    /// whole record that was there.
    pub fn create(&mut self, id: &str, data: &str, metadata: Attributes)
        ensures
            final(self)@ == created(old(self)@, id@, data@, metadata@),
    {
        proof {
            use_type_invariant(&*self);
        }
        let obj = Object { id: id.to_owned(), data: data.to_owned(), metadata };
        // The table changes outside the store, which at no time holds a
        // record under another identifier than its own.
        let mut objects = Table::new();
        core::mem::swap(&mut self.objects, &mut objects);
        objects.insert(id.to_owned(), obj);
        self.objects = objects;
    }

    /// The record stored under `id`.
    pub fn read(&self, id: &str) -> (record: Option<&Object>)
        ensures
            (match record {
                Some(obj) => stored(self@, id@) == Some(obj@),
                None => stored(self@, id@) is None,
            }),
            well_named(self@),
    {
        proof {
            use_type_invariant(self);
        }
        self.objects.get(id)
    }

    /// Replaces the payload of `id` and keeps its attributes. An identifier
    /// that is not stored is not created.
    pub fn write(&mut self, id: &str, new_data: &str) -> (done: Result<(), NotFound>)
        ensures
            done is Ok <==> old(self)@.contains_key(id@),
            final(self)@ == written(old(self)@, id@, new_data@),
            done is Err ==> final(self)@ == old(self)@,
    {
        proof {
            use_type_invariant(&*self);
        }
        let mut objects = Table::new();
        core::mem::swap(&mut self.objects, &mut objects);
        let done = match objects.remove(id) {
            Some(mut obj) => {
                obj.data = new_data.to_owned();
                objects.insert(id.to_owned(), obj);
                Ok(())
            },
            None => {
                Err(NotFound)
            },
        };
        self.objects = objects;
        done
    }

    /// Removes `id` with its record.
    pub fn delete(&mut self, id: &str) -> (done: Result<(), NotFound>)
        ensures
            done is Ok <==> old(self)@.contains_key(id@),
            final(self)@ == deleted(old(self)@, id@),
            done is Err ==> final(self)@ == old(self)@,
    {
        proof {
            use_type_invariant(&*self);
        }
        let mut objects = Table::new();
        core::mem::swap(&mut self.objects, &mut objects);
        let taken = objects.remove(id);
        self.objects = objects;
        match taken {
            Some(_) => Ok(()),
            None => Err(NotFound),
        }
    }

    /// Every stored identifier, once, in no particular order.
    pub fn list(&self) -> (ids: Vec<String>)
        ensures
            self@.dom().finite(),
            lists(ids.deep_view(), self@),
    {
        self.objects.key_list()
    }
}

} // verus!
