use vstd::prelude::*;
use super::error::UnityError;
use super::class::{ev, UnityClass};
use super::error::ErrorView;
use super::reader::Reader;
use super::serialized::{ObjectInfo, SerializedFile, SerializedType};
use super::tree::node_views;

verus! {

/// A reference to a Unity object: its file, its type, and where its data lies.
#[derive(Debug, Clone)]
pub struct ObjectRef<'a> {
    pub file: &'a SerializedFile<'a>,
    pub ser_type: &'a SerializedType,
    pub object: ObjectInfo,
}

/// The first type from index `i` on with class ID `c` (`types.len()` if none has it).
pub open spec fn class_type_at(types: Seq<SerializedType>, c: u32, i: int) -> int
    decreases types.len() - i,
{
    if i < 0 || i >= types.len() {
        types.len() as int
    } else if types[i].class_id == c {
        i
    } else {
        class_type_at(types, c, i + 1)
    }
}

/// The index of an object's type: the first type with the object's class ID where it
/// has one and a type has that ID, else the object's type index.
pub open spec fn object_type_index(types: Seq<SerializedType>, o: ObjectInfo) -> int {
    let by_class = match o.class_id {
        Some(c) => class_type_at(types, c as u32, 0),
        None => types.len() as int,
    };
    if by_class < types.len() {
        by_class
    } else {
        o.type_id as int
    }
}

/// Every object of a file has a type (else listing its objects fails).
pub open spec fn objects_typed(f: SerializedFile) -> bool {
    forall|i: int|
        0 <= i < f.objects@.len() ==> object_type_index(f.types@, #[trigger] f.objects@[i]) < f.types@.len()
}

/// The data of an object: `size` bytes at `start + data_offset` of the file.
pub open spec fn sp_object_data(buf: Seq<u8>, start: u64, data_offset: u64, size: u32) -> Result<
    Seq<u8>,
    UnityError,
> {
    let s = ((start + data_offset) as u64) as usize as int;
    if s > buf.len() {
        Err(UnityError::InvalidData("object start out of file range"))
    } else if size as usize > buf.len() - s {
        Err(UnityError::InvalidData("object size out of file range"))
    } else {
        Ok(buf.subrange(s, s + size as usize))
    }
}

/// Finds the type of an object.
fn find_type<'a>(types: &'a Vec<SerializedType>, o: ObjectInfo) -> (r: &'a SerializedType)
    requires
        object_type_index(types@, o) < types@.len(),
    ensures
        *r == types@[object_type_index(types@, o)],
{
    if let Some(c) = o.class_id {
        let mut i: usize = 0;
        while i < types.len()
            invariant
                0 <= i <= types@.len(),
                o.class_id == Some(c),
                class_type_at(types@, c as u32, 0) == class_type_at(types@, c as u32, i as int),
            decreases types@.len() - i,
        {
            if types[i].class_id == c as u32 {
                return &types[i];
            }
            i = i + 1;
        }
    }
    &types[o.type_id as usize]
}

impl<'a> SerializedFile<'a> {
    /// Enumerates the objects listed within this file, each with its type.
    pub fn objects(&'a self) -> (r: Vec<ObjectRef<'a>>)
        requires
            objects_typed(*self),
        ensures
            r@.len() == self.objects@.len(),
            forall|i: int|
                0 <= i < r@.len() ==> {
                    &&& (#[trigger] r@[i]).file == self
                    &&& r@[i].object == self.objects@[i]
                    &&& *r@[i].ser_type == self.types@[object_type_index(self.types@, self.objects@[i])]
                },
    {
        let mut out: Vec<ObjectRef<'a>> = Vec::new();
        let mut i: usize = 0;
        while i < self.objects.len()
            invariant
                objects_typed(*self),
                0 <= i <= self.objects@.len(),
                out@.len() == i,
                forall|k: int|
                    0 <= k < i ==> {
                        &&& (#[trigger] out@[k]).file == self
                        &&& out@[k].object == self.objects@[k]
                        &&& *out@[k].ser_type == self.types@[object_type_index(self.types@, self.objects@[k])]
                    },
            decreases self.objects@.len() - i,
        {
            let o = self.objects[i];
            assert(object_type_index(self.types@, self.objects@[i as int]) < self.types@.len());
            let t = find_type(&self.types, o);
            out.push(ObjectRef { file: self, ser_type: t, object: o });
            i = i + 1;
        }
        out
    }
}

impl<'a> ObjectRef<'a> {
    /// Gets the object's path ID.
    pub fn path_id(&self) -> (r: i64)
        ensures
            r == self.object.path_id,
    {
        self.object.path_id
    }

    /// Gets the class ID of this object's type.
    pub fn class_id(&self) -> (r: i32)
        ensures
            r == self.ser_type.class_id as i32,
    {
        self.ser_type.class_id as i32
    }

    /// Whether the data should be read as big endian.
    pub fn is_big_endian(&self) -> (r: bool)
        ensures
            r == self.file.is_big_endian,
    {
        self.file.is_big_endian
    }

    /// Gets the block of memory with the object data.
    pub fn data(&self) -> (r: Result<&'a [u8], UnityError>)
        requires
            self.object.start + self.file.data_offset <= u64::MAX,
        ensures
            r matches Ok(b) ==> sp_object_data(
                self.file.buf@,
                self.object.start,
                self.file.data_offset,
                self.object.size,
            ) == Ok::<Seq<u8>, UnityError>(b@),
            r matches Err(e) ==> sp_object_data(
                self.file.buf@,
                self.object.start,
                self.file.data_offset,
                self.object.size,
            ) == Err::<Seq<u8>, UnityError>(e),
    {
        let buf: &'a [u8] = self.file.buf;
        let s = (self.object.start + self.file.data_offset) as usize;
        if s > buf.len() {
            return Err(UnityError::InvalidData("object start out of file range"));
        }
        let size = self.object.size as usize;
        if size > buf.len() - s {
            return Err(UnityError::InvalidData("object size out of file range"));
        }
        Ok(&buf[s..s + size])
    }
}

/// Reading a `T` from an object: its data, read from the start under the first node
/// of its type's tree, with the other nodes as that node's descendants.
pub open spec fn sp_from_obj<T: UnityClass>(obj: ObjectRef) -> Result<T::Model, ErrorView> {
    match ev(sp_object_data(obj.file.buf@, obj.object.start, obj.file.data_offset, obj.object.size)) {
        Err(e) => Err(e),
        Ok(data) => {
            let tree = node_views(obj.ser_type.type_tree@);
            if tree.len() == 0 {
                Err(ErrorView::InvalidData("type tree is unexpectedly empty"))
            } else {
                match T::sp_parse(data, 0, obj.file.is_big_endian, tree[0], tree.subrange(1, tree.len() as int)) {
                    Err(e) => Err(e),
                    Ok((m, _)) => Ok(m),
                }
            }
        },
    }
}

/// Tries to load a `T` from an object.
pub fn try_from_obj<'a, T: UnityClass>(obj: &ObjectRef<'a>) -> (r: Result<T, UnityError>)
    requires
        obj.object.start + obj.file.data_offset <= u64::MAX,
    ensures
        r matches Ok(v) ==> sp_from_obj::<T>(*obj) == Ok::<T::Model, ErrorView>(v.model()),
        r matches Err(e) ==> sp_from_obj::<T>(*obj) == Err::<T::Model, ErrorView>(e@),
{
    let data = obj.data()?;
    let mut cursor = Reader::new(data);
    let type_tree = &obj.ser_type.type_tree;
    if type_tree.len() == 0 {
        return Err(UnityError::InvalidData("type tree is unexpectedly empty"));
    }
    let root = &type_tree[0];
    let tree = &type_tree.as_slice()[1..type_tree.len()];
    assert(node_views(tree@) =~= node_views(type_tree@).subrange(1, type_tree@.len() as int));
    T::parse_tree(&mut cursor, obj.is_big_endian(), root, tree)
}

impl<'a> ObjectRef<'a> {
    /// Tries to read the object into the specified type.
    pub fn try_into_class<T: UnityClass>(&self) -> (r: Result<T, UnityError>)
        requires
            self.object.start + self.file.data_offset <= u64::MAX,
        ensures
            r matches Ok(v) ==> sp_from_obj::<T>(*self) == Ok::<T::Model, ErrorView>(v.model()),
            r matches Err(e) ==> sp_from_obj::<T>(*self) == Err::<T::Model, ErrorView>(e@),
    {
        try_from_obj(self)
    }
}

/// Finds the index of an object's type, or `None` where the object has no type.
fn type_index_of(types: &Vec<SerializedType>, o: ObjectInfo) -> (r: Option<usize>)
    ensures
        r matches Some(i) ==> i == object_type_index(types@, o) && i < types@.len(),
        r is None ==> object_type_index(types@, o) >= types@.len(),
{
    if let Some(c) = o.class_id {
        let mut i: usize = 0;
        while i < types.len()
            invariant
                0 <= i <= types@.len(),
                o.class_id == Some(c),
                class_type_at(types@, c as u32, 0) == class_type_at(types@, c as u32, i as int),
            decreases types@.len() - i,
        {
            if types[i].class_id == c as u32 {
                return Some(i);
            }
            i = i + 1;
        }
    }
    if (o.type_id as usize) < types.len() {
        Some(o.type_id as usize)
    } else {
        None
    }
}

impl<'a> SerializedFile<'a> {
    /// Whether every object has a type, so that its objects can be listed.
    pub fn objects_have_types(&self) -> (r: bool)
        ensures
            r == objects_typed(*self),
    {
        let mut i: usize = 0;
        while i < self.objects.len()
            invariant
                0 <= i <= self.objects@.len(),
                forall|k: int|
                    0 <= k < i ==> object_type_index(self.types@, #[trigger] self.objects@[k]) < self.types@.len(),
            decreases self.objects@.len() - i,
        {
            if type_index_of(&self.types, self.objects[i]).is_none() {
                return false;
            }
            i = i + 1;
        }
        true
    }
}

} // verus!
