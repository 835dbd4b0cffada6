use vstd::prelude::*;
use super::error::UnityError;
use super::reader::bytes_to_vec;
use super::unity_fs::{blocks_known, sp_node_data, InfoView, NodeEntry, UnityFsFile};
use crate::text::chars::{string_from_chars, utf8_lossy};

verus! {

/// A byte offset, stored either as `u32` or as `u64`.
#[derive(Debug, Default, Clone, Copy, PartialEq, Eq, Structural)]
pub struct Offset(pub u64);

/// Streaming information for resources.
#[derive(Debug, Clone)]
pub struct StreamingInfo {
    pub offset: Offset,
    pub size: u32,
    pub path: String,
}

/// The part of a path after its last `/` (all of it if it has none).
pub open spec fn last_segment(path: Seq<char>) -> Seq<char>
    decreases path.len(),
{
    if path.len() == 0 {
        path
    } else if path.last() == '/' {
        Seq::empty()
    } else {
        last_segment(path.drop_last()).push(path.last())
    }
}

/// The `size` bytes at `offset` of a file's data, or the error for data that ends
/// before them.
pub open spec fn spec_streaming_slice(data: Seq<u8>, offset: u64, size: u32) -> Result<Seq<u8>, UnityError> {
    if offset > data.len() {
        Err(UnityError::InvalidData("streaming data offset out of bounds"))
    } else if size > data.len() - offset {
        Err(UnityError::InvalidData("streaming data size out of bounds"))
    } else {
        Ok(data.subrange(offset as int, offset + size))
    }
}

impl StreamingInfo {
    /// Whether there is no streamed data (the path is empty).
    pub fn is_empty(&self) -> (r: bool)
        ensures
            r == (self.path@.len() == 0),
    {
        self.path.as_str().is_empty()
    }

    /// The name of the archive entry that holds the data: the path's last segment.
    pub fn file_name(&self) -> (r: Vec<char>)
        ensures
            r@ == last_segment(self.path@),
    {
        let cs = crate::text::chars::chars_of(self.path.as_str());
        let mut start: usize = cs.len();
        while start > 0 && cs[start - 1] != '/'
            invariant
                0 <= start <= cs@.len(),
                cs@ == self.path@,
                forall|k: int| start <= k < cs@.len() ==> cs@[k] != '/',
            decreases start,
        {
            start = start - 1;
        }
        let mut out: Vec<char> = Vec::new();
        let mut i = start;
        while i < cs.len()
            invariant
                start <= i <= cs@.len(),
                out@ == cs@.subrange(start as int, i as int),
            decreases cs.len() - i,
        {
            out.push(cs[i]);
            i = i + 1;
        }
        proof {
            lemma_last_segment(cs@, start as int);
        }
        out
    }

    /// Cuts this resource's bytes out of the data of the archive entry that holds it.
    pub fn slice_data<'t>(&self, data: &'t [u8]) -> (r: Result<&'t [u8], UnityError>)
        ensures
            r matches Ok(s) ==> spec_streaming_slice(data@, self.offset.0, self.size) == Ok::<
                Seq<u8>,
                UnityError,
            >(s@),
            r matches Err(e) ==> spec_streaming_slice(data@, self.offset.0, self.size) == Err::<
                Seq<u8>,
                UnityError,
            >(e),
    {
        let offset = self.offset.0;
        let size = self.size;
        if offset > data.len() as u64 {
            return Err(UnityError::InvalidData("streaming data offset out of bounds"));
        }
        let rest = &data[offset as usize..data.len()];
        if size as u64 > rest.len() as u64 {
            return Err(UnityError::InvalidData("streaming data size out of bounds"));
        }
        let out = &rest[0..size as usize];
        assert(out@ =~= data@.subrange(offset as int, offset + size));
        Ok(out)
    }
}

proof fn lemma_last_segment(cs: Seq<char>, start: int)
    requires
        0 <= start <= cs.len(),
        forall|k: int| start <= k < cs.len() ==> cs[k] != '/',
        start > 0 ==> cs[start - 1] == '/',
    ensures
        last_segment(cs) == cs.subrange(start, cs.len() as int),
    decreases cs.len(),
{
    if cs.len() > start {
        lemma_last_segment(cs.drop_last(), start);
        assert(cs.drop_last().subrange(start, cs.len() - 1).push(cs.last()) =~= cs.subrange(
            start,
            cs.len() as int,
        ));
    } else if cs.len() > 0 {
        assert(cs.subrange(start, cs.len() as int) =~= Seq::<char>::empty());
    }
}

/// The first node from index `i` on whose path, decoded as UTF-8, is `name`.
pub open spec fn node_named(nodes: Seq<NodeEntry>, name: Seq<char>, i: int) -> Option<int>
    decreases nodes.len() - i,
{
    if i < 0 || i >= nodes.len() {
        None
    } else if utf8_lossy(nodes[i].path) == name {
        Some(i)
    } else {
        node_named(nodes, name, i + 1)
    }
}

/// Loading streamed data from an archive: the node named by the path's last segment,
/// its bytes, and within them the `size` bytes at `offset`.
pub open spec fn sp_load_data(fs: (Seq<u8>, InfoView, u64), path: Seq<char>, offset: u64, size: u32) -> Result<
    Seq<u8>,
    UnityError,
> {
    match node_named(fs.1.nodes, last_segment(path), 0) {
        None => Err(UnityError::InvalidData("streaming data file not found")),
        Some(i) => match sp_node_data(fs.0, fs.2, fs.1.blocks, fs.1.nodes[i]) {
            Err(e) => Err(e),
            Ok(raw) => spec_streaming_slice(raw, offset, size),
        },
    }
}

/// The archive can be read: its block count came from a 32-bit count and each block's
/// compression method is known.
pub open spec fn fs_readable(fs: &UnityFsFile) -> bool {
    fs.blocks_info.blocks@.len() <= u32::MAX && blocks_known(fs.blocks_info.blocks@)
}

impl StreamingInfo {
    /// Loads the streaming data from the archive.
    pub fn load_data(&self, fs: &UnityFsFile) -> (r: Result<Vec<u8>, UnityError>)
        requires
            fs_readable(fs),
        ensures
            r matches Ok(v) ==> sp_load_data(fs@, self.path@, self.offset.0, self.size) == Ok::<
                Seq<u8>,
                UnityError,
            >(v@),
            r matches Err(e) ==> sp_load_data(fs@, self.path@, self.offset.0, self.size) == Err::<
                Seq<u8>,
                UnityError,
            >(e),
    {
        let name = string_from_chars(self.file_name());
        let entries = fs.entries();
        let ghost nodes = fs.blocks_info@.nodes;
        let mut i: usize = 0;
        while i < entries.len()
            invariant
                entries@.len() == nodes.len(),
                nodes == fs.blocks_info@.nodes,
                fs_readable(fs),
                name@ == last_segment(self.path@),
                forall|k: int|
                    0 <= k < entries@.len() ==> (#[trigger] entries@[k]).file == fs && entries@[k].node
                        == &fs.blocks_info.nodes@[k],
                0 <= i <= entries@.len(),
                node_named(nodes, name@, 0) == node_named(nodes, name@, i as int),
            decreases entries@.len() - i,
        {
            let p = entries[i].path();
            if p == name {
                let raw = entries[i].read_raw()?;
                let s = self.slice_data(raw.as_slice())?;
                return Ok(bytes_to_vec(s));
            }
            i = i + 1;
        }
        Err(UnityError::InvalidData("streaming data file not found"))
    }

    /// Loads the streaming data, or, where there is none (the path is empty), takes
    /// the fallback bytes.
    pub fn load_data_or_else(&self, fs: &UnityFsFile, fallback: &[u8]) -> (r: Result<Vec<u8>, UnityError>)
        requires
            self.path@.len() > 0 ==> fs_readable(fs),
        ensures
            self.path@.len() == 0 ==> (r matches Ok(v) && v@ == fallback@),
            self.path@.len() > 0 ==> match r {
                Ok(v) => sp_load_data(fs@, self.path@, self.offset.0, self.size) == Ok::<Seq<u8>, UnityError>(v@),
                Err(e) => sp_load_data(fs@, self.path@, self.offset.0, self.size) == Err::<Seq<u8>, UnityError>(e),
            },
    {
        if self.is_empty() {
            Ok(bytes_to_vec(fallback))
        } else {
            self.load_data(fs)
        }
    }
}

} // verus!
