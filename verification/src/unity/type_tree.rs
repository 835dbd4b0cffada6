use vstd::prelude::*;
use super::common_str::{common_string, index_to_common_string};
use super::error::UnityError;
use super::reader::{sp_cstr, sp_uint, uint_at, Reader};
use super::tree::{NodeView, TypeTreeNode};
use crate::text::chars::{dec, push_chars, push_decimal, string_from_chars, string_from_utf8};

verus! {

/// The error for a string that is not valid UTF-8.
pub open spec fn utf8_error() -> UnityError {
    UnityError::InvalidData("string data is not valid UTF-8")
}

/// Bytes as text: their UTF-8 decoding, or the error for invalid UTF-8.
pub open spec fn sp_utf8(b: Seq<u8>) -> Result<Seq<char>, UnityError> {
    if vstd::utf8::valid_utf8(b) {
        Ok(vstd::utf8::decode_utf8(b))
    } else {
        Err(utf8_error())
    }
}

/// Decodes UTF-8 bytes, failing with the library's error on invalid data.
pub fn utf8_to_string(b: Vec<u8>) -> (r: Result<String, UnityError>)
    ensures
        r matches Ok(s) ==> sp_utf8(b@) == Ok::<Seq<char>, UnityError>(s@),
        r matches Err(e) ==> sp_utf8(b@) == Err::<Seq<char>, UnityError>(e),
{
    match string_from_utf8(b) {
        Some(s) => Ok(s),
        None => Err(UnityError::InvalidData("string data is not valid UTF-8")),
    }
}

/// Reads a zero-terminated UTF-8 string.
pub fn read_string(r: &mut Reader) -> (res: Result<String, UnityError>)
    ensures
        final(r).data == old(r).data,
        res matches Ok(s) ==> (sp_cstr(old(r).data@, old(r).pos as int) matches Ok((b, p)) && sp_utf8(b)
            == Ok::<Seq<char>, UnityError>(s@) && p == final(r).pos),
        res matches Err(e) ==> match sp_cstr(old(r).data@, old(r).pos as int) {
            Err(e2) => e == e2,
            Ok((b, _)) => sp_utf8(b) == Err::<Seq<char>, UnityError>(e),
        },
{
    let b = r.read_cstr()?;
    utf8_to_string(b)
}

/// The text of a string reference of a type tree blob: a zero-terminated string at
/// `offset` in the blob's string buffer, or, where the top bit is set, the entry of
/// the common string table at the remaining bits (`unknown:` and the decimal offset
/// where the table has none).
pub open spec fn sp_blob_str(strs: Seq<u8>, offset: u32) -> Result<Seq<char>, UnityError> {
    if offset < 0x8000_0000 {
        match sp_cstr(strs, offset as int) {
            Err(e) => Err(e),
            Ok((b, _)) => sp_utf8(b),
        }
    } else {
        match common_string((offset - 0x8000_0000) as u32) {
            Some(s) => Ok(s),
            None => Ok(seq!['u', 'n', 'k', 'n', 'o', 'w', 'n', ':'] + dec(offset as nat)),
        }
    }
}

/// Reads a string reference of a type tree blob.
fn read_str(strs: &[u8], offset: u32) -> (res: Result<String, UnityError>)
    ensures
        res matches Ok(s) ==> sp_blob_str(strs@, offset) == Ok::<Seq<char>, UnityError>(s@),
        res matches Err(e) ==> sp_blob_str(strs@, offset) == Err::<Seq<char>, UnityError>(e),
{
    let high = offset & 0x8000_0000u32;
    assert(high == 0 <==> offset < 0x8000_0000) by (bit_vector)
        requires
            high == offset & 0x8000_0000u32,
    ;
    if high == 0 {
        let mut cursor = Reader::new(strs);
        cursor.set_position(offset as u64);
        read_string(&mut cursor)
    } else {
        let low = offset & 0x7FFF_FFFFu32;
        assert(low == offset - 0x8000_0000) by (bit_vector)
            requires
                low == offset & 0x7FFF_FFFFu32,
                offset >= 0x8000_0000,
        ;
        match index_to_common_string(low) {
            Some(s) => Ok(s.to_owned()),
            None => {
                let mut out: Vec<char> = Vec::new();
                push_chars(&mut out, &['u', 'n', 'k', 'n', 'o', 'w', 'n', ':']);
                push_decimal(&mut out, offset as u128);
                assert(out@ =~= seq!['u', 'n', 'k', 'n', 'o', 'w', 'n', ':'] + dec(offset as nat));
                Ok(string_from_chars(out))
            },
        }
    }
}

/// A type tree node as stored in a type tree blob: strings are references.
#[derive(Debug, Clone, Copy, PartialEq, Eq, Structural)]
pub struct NodeBlob {
    pub version: u16,
    pub level: u8,
    pub type_flags: u8,
    pub type_str_offset: u32,
    pub name_str_offset: u32,
    pub size: i32,
    pub index: u32,
    pub meta_flags: u32,
}

/// Reading a blob node at `pos` (24 bytes): the node and the position after it.
pub open spec fn sp_node_blob(d: Seq<u8>, pos: int, big: bool) -> Result<(NodeBlob, int), UnityError> {
    if 0 <= pos && pos + 24 <= d.len() {
        Ok(
            (
                NodeBlob {
                    version: uint_at(d, pos, 2, big) as u16,
                    level: d[pos + 2],
                    type_flags: d[pos + 3],
                    type_str_offset: uint_at(d, pos + 4, 4, big) as u32,
                    name_str_offset: uint_at(d, pos + 8, 4, big) as u32,
                    size: (uint_at(d, pos + 12, 4, big) as u32) as i32,
                    index: uint_at(d, pos + 16, 4, big) as u32,
                    meta_flags: uint_at(d, pos + 20, 4, big) as u32,
                },
                pos + 24,
            ),
        )
    } else {
        Err(UnityError::UnexpectedEof)
    }
}

/// Reads a blob node.
fn read_node_blob(r: &mut Reader, big: bool) -> (res: Result<NodeBlob, UnityError>)
    ensures
        final(r).data == old(r).data,
        res matches Ok(b) ==> sp_node_blob(old(r).data@, old(r).pos as int, big) == Ok::<
            (NodeBlob, int),
            UnityError,
        >((b, final(r).pos as int)),
        res matches Err(e) ==> sp_node_blob(old(r).data@, old(r).pos as int, big) == Err::<
            (NodeBlob, int),
            UnityError,
        >(e),
{
    let version = r.read_u16(big)?;
    let level = r.read_u8()?;
    let type_flags = r.read_u8()?;
    let type_str_offset = r.read_u32(big)?;
    let name_str_offset = r.read_u32(big)?;
    let size = r.read_u32(big)? as i32;
    let index = r.read_u32(big)?;
    let meta_flags = r.read_u32(big)?;
    Ok(NodeBlob { version, level, type_flags, type_str_offset, name_str_offset, size, index, meta_flags })
}

/// Reading `n` blob nodes, each followed by an 8-byte hash from format version 19 on.
pub open spec fn sp_node_blobs(d: Seq<u8>, pos: int, big: bool, version: u32, n: nat) -> Result<
    (Seq<NodeBlob>, int),
    UnityError,
>
    decreases n,
{
    if n == 0 {
        Ok((Seq::empty(), pos))
    } else {
        match sp_node_blobs(d, pos, big, version, (n - 1) as nat) {
            Err(e) => Err(e),
            Ok((bs, p)) => match sp_node_blob(d, p, big) {
                Err(e) => Err(e),
                Ok((b, p2)) => if version >= 19 {
                    match sp_uint(d, p2, 8, big) {
                        Err(e) => Err(e),
                        Ok((_, p3)) => Ok((bs.push(b), p3)),
                    }
                } else {
                    Ok((bs.push(b), p2))
                },
            },
        }
    }
}

/// Once reading a list of records failed, reading more of them fails the same way.
proof fn lemma_node_blobs_error(d: Seq<u8>, pos: int, big: bool, version: u32, n: nat, m: nat)
    requires
        n <= m,
        sp_node_blobs(d, pos, big, version, n) is Err,
    ensures
        sp_node_blobs(d, pos, big, version, m) == sp_node_blobs(d, pos, big, version, n),
    decreases m - n,
{
    if n < m {
        lemma_node_blobs_error(d, pos, big, version, n, (m - 1) as nat);
    }
}

/// The node made of a blob node and its two strings.
pub open spec fn blob_node_view(b: NodeBlob, type_string: Seq<char>, name: Seq<char>) -> NodeView {
    NodeView {
        type_string,
        name,
        size: b.size,
        index: b.index,
        type_flags: b.type_flags as u32,
        version: b.version as u32,
        meta_flags: b.meta_flags,
        level: b.level,
    }
}

/// The first `n` blob nodes with their strings looked up, or the first error (the
/// type string of a node is looked up before its name).
pub open spec fn sp_named_nodes(strs: Seq<u8>, bs: Seq<NodeBlob>, n: nat) -> Result<Seq<NodeView>, UnityError>
    decreases n,
{
    if n == 0 {
        Ok(Seq::empty())
    } else {
        match sp_named_nodes(strs, bs, (n - 1) as nat) {
            Err(e) => Err(e),
            Ok(ns) => {
                let b = bs[n - 1];
                match sp_blob_str(strs, b.type_str_offset) {
                    Err(e) => Err(e),
                    Ok(t) => match sp_blob_str(strs, b.name_str_offset) {
                        Err(e) => Err(e),
                        Ok(nm) => Ok(ns.push(blob_node_view(b, t, nm))),
                    },
                }
            },
        }
    }
}

proof fn lemma_named_nodes_error(strs: Seq<u8>, bs: Seq<NodeBlob>, n: nat, m: nat)
    requires
        n <= m,
        sp_named_nodes(strs, bs, n) is Err,
    ensures
        sp_named_nodes(strs, bs, m) == sp_named_nodes(strs, bs, n),
    decreases m - n,
{
    if n < m {
        lemma_named_nodes_error(strs, bs, n, (m - 1) as nat);
    }
}

/// Reading a type tree blob at `pos`: the node count, the string buffer's size, the
/// nodes, then the string buffer, which the nodes' strings refer into.
pub open spec fn sp_type_tree_blob(d: Seq<u8>, pos: int, big: bool, version: u32) -> Result<
    (Seq<NodeView>, int),
    UnityError,
> {
    match sp_uint(d, pos, 4, big) {
        Err(e) => Err(e),
        Ok((count, p1)) => match sp_uint(d, p1, 4, big) {
            Err(e) => Err(e),
            Ok((str_size, p2)) => match sp_node_blobs(d, p2, big, version, count) {
                Err(e) => Err(e),
                Ok((bs, p3)) => if p3 + str_size > d.len() {
                    Err(UnityError::UnexpectedEof)
                } else {
                    match sp_named_nodes(d.subrange(p3, p3 + str_size), bs, count) {
                        Err(e) => Err(e),
                        Ok(ns) => Ok((ns, p3 + str_size)),
                    }
                },
            },
        },
    }
}

/// Reads a type tree stored as a blob: the nodes, then a buffer with their strings.
#[verifier::loop_isolation(false)]
pub fn read_type_tree_blob(r: &mut Reader, big: bool, version: u32) -> (res: Result<
    Vec<TypeTreeNode>,
    UnityError,
>)
    ensures
        final(r).data == old(r).data,
        res matches Ok(v) ==> sp_type_tree_blob(old(r).data@, old(r).pos as int, big, version) == Ok::<
            (Seq<NodeView>, int),
            UnityError,
        >((Seq::new(v@.len(), |i: int| v@[i]@), final(r).pos as int)),
        res matches Err(e) ==> sp_type_tree_blob(old(r).data@, old(r).pos as int, big, version) == Err::<
            (Seq<NodeView>, int),
            UnityError,
        >(e),
{
    let ghost d = r.data@;
    let ghost d0 = r.data;
    let ghost start = r.pos as int;
    let node_count = r.read_u32(big)?;
    let str_buf_size = r.read_u32(big)?;
    let ghost p2 = r.pos as int;
    let mut raw_nodes: Vec<NodeBlob> = Vec::new();
    let mut i: u32 = 0;
    while i < node_count
        invariant
            r.data@ == d,
            r.data == d0,
            0 <= i <= node_count,
            raw_nodes@.len() == i,
            sp_node_blobs(d, p2, big, version, i as nat) == Ok::<(Seq<NodeBlob>, int), UnityError>(
                (raw_nodes@, r.pos as int),
            ),
        decreases node_count - i,
    {
        let raw_node = match read_node_blob(r, big) {
            Ok(b) => b,
            Err(e) => {
                proof {
                    lemma_node_blobs_error(d, p2, big, version, (i + 1) as nat, node_count as nat);
                }
                return Err(e);
            },
        };
        if version >= 19 {
            match r.read_u64(big) {
                Ok(_) => {},
                Err(e) => {
                    proof {
                        lemma_node_blobs_error(d, p2, big, version, (i + 1) as nat, node_count as nat);
                    }
                    return Err(e);
                },
            }
        }
        raw_nodes.push(raw_node);
        i = i + 1;
    }
    let str_bytes = r.read_bytes(str_buf_size as usize)?;
    let ghost strs = str_bytes@;
    let mut nodes: Vec<TypeTreeNode> = Vec::new();
    let mut k: usize = 0;
    assert(Seq::new(0nat, |j: int| nodes@[j]@) =~= Seq::<NodeView>::empty());
    while k < raw_nodes.len()
        invariant
            raw_nodes@.len() == node_count,
            0 <= k <= raw_nodes@.len(),
            str_bytes@ == strs,
            nodes@.len() == k,
            sp_named_nodes(strs, raw_nodes@, k as nat) == Ok::<Seq<NodeView>, UnityError>(
                Seq::new(k as nat, |j: int| nodes@[j]@),
            ),
        decreases raw_nodes@.len() - k,
    {
        let raw_node = raw_nodes[k];
        let type_string = match read_str(str_bytes, raw_node.type_str_offset) {
            Ok(s) => s,
            Err(e) => {
                proof {
                    lemma_named_nodes_error(strs, raw_nodes@, (k + 1) as nat, node_count as nat);
                }
                return Err(e);
            },
        };
        let name = match read_str(str_bytes, raw_node.name_str_offset) {
            Ok(s) => s,
            Err(e) => {
                proof {
                    lemma_named_nodes_error(strs, raw_nodes@, (k + 1) as nat, node_count as nat);
                }
                return Err(e);
            },
        };
        let ghost before = nodes@;
        let node = TypeTreeNode {
            type_string,
            name,
            size: raw_node.size,
            index: raw_node.index,
            type_flags: raw_node.type_flags as u32,
            version: raw_node.version as u32,
            meta_flags: raw_node.meta_flags,
            level: raw_node.level,
        };
        nodes.push(node);
        assert(Seq::new((k + 1) as nat, |j: int| nodes@[j]@) =~= Seq::new(k as nat, |j: int| before[j]@).push(
            node@,
        ));
        k = k + 1;
    }
    Ok(nodes)
}

/// The number of 4-byte fields of a legacy type tree node between its name and its
/// child count: size, index (from version 2 on), type flags, version, and meta flags
/// (except in version 3).
pub open spec fn legacy_field_count(version: u32) -> int {
    3 + (if version > 1 {
        1int
    } else {
        0int
    }) + (if version != 3 {
        1int
    } else {
        0int
    })
}

/// Reading the fixed part of a legacy type tree node at `pos`: its child count and
/// the position after it. Both strings must be valid UTF-8.
pub open spec fn sp_legacy_header(d: Seq<u8>, pos: int, big: bool, version: u32) -> Result<
    (nat, int),
    UnityError,
> {
    match sp_cstr(d, pos) {
        Err(e) => Err(e),
        Ok((t, p1)) => match sp_utf8(t) {
            Err(e) => Err(e),
            Ok(_) => match sp_cstr(d, p1) {
                Err(e) => Err(e),
                Ok((n, p2)) => match sp_utf8(n) {
                    Err(e) => Err(e),
                    Ok(_) => {
                        let p3 = p2 + 4 * legacy_field_count(version);
                        match sp_uint(d, p3, 4, big) {
                            Err(e) => Err(e),
                            Ok((count, p4)) => if p3 <= d.len() {
                                Ok((count, p4))
                            } else {
                                Err(UnityError::UnexpectedEof)
                            },
                        }
                    },
                },
            },
        },
    }
}

/// Reading a legacy type tree node and, recursively, its children: the position after it.
pub open spec fn sp_legacy_tree(d: Seq<u8>, pos: int, big: bool, version: u32) -> Result<int, UnityError>
    decreases d.len() - pos, 0int,
{
    if pos < 0 || pos > d.len() {
        Err(UnityError::UnexpectedEof)
    } else {
        match sp_legacy_header(d, pos, big, version) {
            Err(e) => Err(e),
            Ok((count, p)) => if pos < p <= d.len() {
                sp_legacy_children(d, p, big, version, count)
            } else {
                Err(UnityError::UnexpectedEof)
            },
        }
    }
}

/// Reading `count` legacy type trees one after the other: the position after them.
pub open spec fn sp_legacy_children(d: Seq<u8>, pos: int, big: bool, version: u32, count: nat) -> Result<
    int,
    UnityError,
>
    decreases d.len() - pos, 1int,
{
    if count == 0 {
        Ok(pos)
    } else if pos < 0 || pos > d.len() {
        Err(UnityError::UnexpectedEof)
    } else {
        match sp_legacy_tree(d, pos, big, version) {
            Err(e) => Err(e),
            Ok(p) => if pos < p <= d.len() {
                sp_legacy_children(d, p, big, version, (count - 1) as nat)
            } else {
                Err(UnityError::UnexpectedEof)
            },
        }
    }
}

/// Reads a type tree in the legacy layout, where each node holds its strings and is
/// followed by its children. The nodes are read and checked but not kept: the result
/// is always empty.
#[verifier::loop_isolation(false)]
pub fn read_type_tree(r: &mut Reader, big: bool, version: u32) -> (res: Result<Vec<TypeTreeNode>, UnityError>)
    ensures
        final(r).data == old(r).data,
        res matches Ok(v) ==> v@.len() == 0 && sp_legacy_tree(old(r).data@, old(r).pos as int, big, version)
            == Ok::<int, UnityError>(final(r).pos as int) && old(r).pos < final(r).pos <= old(r).data@.len(),
        res matches Err(e) ==> sp_legacy_tree(old(r).data@, old(r).pos as int, big, version) == Err::<
            int,
            UnityError,
        >(e),
    decreases old(r).data@.len() - old(r).pos,
{
    let ghost d = r.data@;
    let ghost d0 = r.data;
    let ghost start = r.pos as int;
    if r.pos > r.data.len() as u64 {
        return Err(UnityError::UnexpectedEof);
    }
    proof {
        super::reader::lemma_null_at(d, start);
    }
    let _type_name = read_string(r)?;
    proof {
        super::reader::lemma_null_at(d, r.pos as int);
    }
    let _name = read_string(r)?;
    let ghost p2 = r.pos as int;
    let _size = r.read_u32(big)?;
    if version > 1 {
        let _index = r.read_u32(big)?;
    }
    let _type_flags = r.read_u32(big)?;
    let _node_version = r.read_u32(big)?;
    if version != 3 {
        let _meta_flags = r.read_u32(big)?;
    }
    assert(r.pos == p2 + 4 * legacy_field_count(version));
    let child_count = r.read_u32(big)?;
    let ghost ph = r.pos as int;
    assert(sp_legacy_header(d, start, big, version) == Ok::<(nat, int), UnityError>((child_count as nat, ph)));
    let nodes: Vec<TypeTreeNode> = Vec::new();
    let mut i: u32 = 0;
    while i < child_count
        invariant
            r.data@ == d,
            r.data == d0,
            0 <= i <= child_count,
            start < ph <= r.pos <= d.len(),
            sp_legacy_children(d, ph, big, version, child_count as nat) == sp_legacy_children(
                d,
                r.pos as int,
                big,
                version,
                (child_count - i) as nat,
            ),
        decreases child_count - i,
    {
        let ghost cur = r.pos as int;
        match read_type_tree(r, big, version) {
            Ok(_) => {},
            Err(e) => {
                return Err(e);
            },
        }
        i = i + 1;
    }
    Ok(nodes)
}

} // verus!
