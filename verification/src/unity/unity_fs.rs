use vstd::prelude::*;
use super::compress::{compression_known, decompress_data, sp_decompress};
use super::error::UnityError;
use super::reader::{bytes_to_vec, sp_cstr, sp_uint, uint_at, Reader};
use super::serialized::{sp_is_serialized_file, SerializedFile};
use crate::text::chars::string_from_utf8_lossy;

verus! {

/// One compressed block of an archive's data.
#[derive(Debug, Clone, Copy, PartialEq, Eq, Structural)]
pub struct Block {
    pub uncompressed_size: u32,
    pub compressed_size: u32,
    /// Bits 0 to 5: the compression method; bit 6: whether the block is streamed.
    pub flags: u16,
}

/// A file within an archive: where its bytes lie in the uncompressed data.
#[derive(Debug, Clone)]
pub struct Node {
    pub offset: u64,
    pub size: u64,
    pub flags: u32,
    pub path: Vec<u8>,
}

/// A node as a value.
pub struct NodeEntry {
    pub offset: u64,
    pub size: u64,
    pub flags: u32,
    pub path: Seq<u8>,
}

impl View for Node {
    type V = NodeEntry;

    open spec fn view(&self) -> NodeEntry {
        NodeEntry { offset: self.offset, size: self.size, flags: self.flags, path: self.path@ }
    }
}

/// The blocks and nodes of an archive.
#[derive(Debug, Clone)]
pub struct BlocksInfo {
    pub data_hash: Vec<u8>,
    pub blocks: Vec<Block>,
    pub nodes: Vec<Node>,
}

/// The values of a list of nodes.
pub open spec fn node_entries(v: Seq<Node>) -> Seq<NodeEntry> {
    Seq::new(v.len(), |i: int| v[i]@)
}

/// The compression method of a block.
pub open spec fn block_compression(b: Block) -> u32 {
    (b.flags & 0x3F) as u32
}

/// The bytes `UnityFS` and a zero, which an archive starts with.
pub open spec fn unity_fs_magic() -> Seq<u8> {
    seq![0x55u8, 0x6E, 0x69, 0x74, 0x79, 0x46, 0x53, 0x00]
}

/// The fields of an archive's header that reading it needs: format version, size of
/// the compressed and of the uncompressed blocks info, and flags.
pub struct FsHeader {
    pub version: u32,
    pub compressed_size: u32,
    pub uncompressed_size: u32,
    pub flags: u32,
}

/// Reading an archive's big-endian header: the magic bytes, the format version, the
/// Unity version and revision strings, the archive size, the two sizes of the blocks
/// info and the flags; with the position after it.
pub open spec fn sp_fs_header(d: Seq<u8>) -> Result<(FsHeader, int), UnityError> {
    if d.len() < 8 {
        Err(UnityError::UnexpectedEof)
    } else if d.subrange(0, 8) != unity_fs_magic() {
        Err(UnityError::InvalidData("not a UnityFS file"))
    } else {
        match sp_uint(d, 8, 4, true) {
            Err(e) => Err(e),
            Ok((version, p0)) => match sp_cstr(d, p0) {
                Err(e) => Err(e),
                Ok((_, p1)) => match sp_cstr(d, p1) {
                    Err(e) => Err(e),
                    Ok((_, p2)) => if p2 + 20 > d.len() {
                        Err(UnityError::UnexpectedEof)
                    } else {
                        Ok(
                            (
                                FsHeader {
                                    version: version as u32,
                                    compressed_size: uint_at(d, p2 + 8, 4, true) as u32,
                                    uncompressed_size: uint_at(d, p2 + 12, 4, true) as u32,
                                    flags: uint_at(d, p2 + 16, 4, true) as u32,
                                },
                                p2 + 20,
                            ),
                        )
                    },
                },
            },
        }
    }
}

/// The compression method of the blocks info (flag bits 0 to 5).
pub open spec fn header_compression(h: FsHeader) -> u32 {
    h.flags & 0x3F
}

/// Whether the blocks info is stored at the end of the archive (flag bit 7).
pub open spec fn info_at_end(h: FsHeader) -> bool {
    h.flags & 0x80 != 0
}

/// Whether the data after the blocks info starts at a 16-byte boundary (flag bit 9).
pub open spec fn info_needs_pad(h: FsHeader) -> bool {
    h.flags & 0x200 != 0
}

/// An archive whose header has a compression method this library knows (else reading
/// its flags fails).
pub open spec fn header_compression_known(d: Seq<u8>) -> bool {
    sp_fs_header(d) matches Ok((h, _)) ==> compression_known(header_compression(h))
}

/// Moving forward to the next multiple of 16; only a position past `u64::MAX` fails.
pub open spec fn sp_align16(pos: int) -> Result<int, UnityError> {
    if pos % 16 == 0 {
        Ok(pos)
    } else if pos + (16 - pos % 16) <= u64::MAX {
        Ok(pos + (16 - pos % 16))
    } else {
        Err(UnityError::InvalidData("invalid seek to an overflowing position"))
    }
}

/// Reading `n` bytes at `pos` of a file (`read_exact`): nothing to read always succeeds.
pub open spec fn sp_read_exact(d: Seq<u8>, pos: int, n: nat) -> Result<Seq<u8>, UnityError> {
    if n == 0 {
        Ok(Seq::empty())
    } else if 0 <= pos && pos + n <= d.len() {
        Ok(d.subrange(pos, pos + n))
    } else {
        Err(UnityError::UnexpectedEof)
    }
}

/// Reading `n` blocks (10 bytes each) at `pos` of the blocks info.
pub open spec fn sp_blocks(b: Seq<u8>, pos: int, n: nat) -> Result<(Seq<Block>, int), UnityError>
    decreases n,
{
    if n == 0 {
        Ok((Seq::empty(), pos))
    } else {
        match sp_blocks(b, pos, (n - 1) as nat) {
            Err(e) => Err(e),
            Ok((bs, p)) => if p + 10 <= b.len() {
                Ok(
                    (
                        bs.push(
                            Block {
                                uncompressed_size: uint_at(b, p, 4, true) as u32,
                                compressed_size: uint_at(b, p + 4, 4, true) as u32,
                                flags: uint_at(b, p + 8, 2, true) as u16,
                            },
                        ),
                        p + 10,
                    ),
                )
            } else {
                Err(UnityError::UnexpectedEof)
            },
        }
    }
}

/// Reading `n` nodes at `pos` of the blocks info: offset, size and flags, then the
/// zero-terminated path.
pub open spec fn sp_nodes(b: Seq<u8>, pos: int, n: nat) -> Result<(Seq<NodeEntry>, int), UnityError>
    decreases n,
{
    if n == 0 {
        Ok((Seq::empty(), pos))
    } else {
        match sp_nodes(b, pos, (n - 1) as nat) {
            Err(e) => Err(e),
            Ok((ns, p)) => if p + 20 <= b.len() {
                match sp_cstr(b, p + 20) {
                    Err(e) => Err(e),
                    Ok((path, p2)) => Ok(
                        (
                            ns.push(
                                NodeEntry {
                                    offset: uint_at(b, p, 8, true) as u64,
                                    size: uint_at(b, p + 8, 8, true) as u64,
                                    flags: uint_at(b, p + 16, 4, true) as u32,
                                    path,
                                },
                            ),
                            p2,
                        ),
                    ),
                }
            } else {
                Err(UnityError::UnexpectedEof)
            },
        }
    }
}

/// The blocks info as values.
pub struct InfoView {
    pub data_hash: Seq<u8>,
    pub blocks: Seq<Block>,
    pub nodes: Seq<NodeEntry>,
}

impl View for BlocksInfo {
    type V = InfoView;

    open spec fn view(&self) -> InfoView {
        InfoView { data_hash: self.data_hash@, blocks: self.blocks@, nodes: node_entries(self.nodes@) }
    }
}

/// Reading the big-endian blocks info: a 16-byte hash, the blocks after their count,
/// the nodes after their count. Bytes after them are ignored.
pub open spec fn sp_blocks_info(b: Seq<u8>) -> Result<InfoView, UnityError> {
    if b.len() < 16 {
        Err(UnityError::UnexpectedEof)
    } else {
        match sp_uint(b, 16, 4, true) {
            Err(e) => Err(e),
            Ok((bc, p1)) => match sp_blocks(b, p1, bc) {
                Err(e) => Err(e),
                Ok((blocks, p2)) => match sp_uint(b, p2, 4, true) {
                    Err(e) => Err(e),
                    Ok((nc, p3)) => match sp_nodes(b, p3, nc) {
                        Err(e) => Err(e),
                        Ok((nodes, _)) => Ok(InfoView { data_hash: b.subrange(0, 16), blocks, nodes }),
                    },
                },
            },
        }
    }
}

/// Opening an archive: its blocks info and the position where block data starts.
/// From format version 7 on the blocks info starts at a 16-byte boundary; it is either
/// at the end of the archive or right after the header, and may be followed by
/// padding to a 16-byte boundary.
pub open spec fn sp_open(d: Seq<u8>) -> Result<(InfoView, int), UnityError> {
    match sp_fs_header(d) {
        Err(e) => Err(e),
        Ok((h, p0)) => {
            let aligned = if h.version >= 7 {
                sp_align16(p0)
            } else {
                Ok(p0)
            };
            match aligned {
                Err(e) => Err(e),
                Ok(p1) => {
                    let n = h.compressed_size as nat;
                    let fetched = if info_at_end(h) {
                        if n > d.len() {
                            Err(UnityError::InvalidData("invalid seek to a negative or overflowing position"))
                        } else {
                            Ok((d.subrange(d.len() - n, d.len() as int), p1))
                        }
                    } else {
                        match sp_read_exact(d, p1, n) {
                            Err(e) => Err(e),
                            Ok(c) => Ok((c, p1 + n)),
                        }
                    };
                    match fetched {
                        Err(e) => Err(e),
                        Ok((compressed, p2)) => {
                            let padded = if info_needs_pad(h) {
                                sp_align16(p2)
                            } else {
                                Ok(p2)
                            };
                            match padded {
                                Err(e) => Err(e),
                                Ok(p3) => match sp_decompress(
                                    compressed,
                                    header_compression(h),
                                    h.uncompressed_size,
                                ) {
                                    Err(e) => Err(e),
                                    Ok(info) => match sp_blocks_info(info) {
                                        Err(e) => Err(e),
                                        Ok(bi) => Ok((bi, p3)),
                                    },
                                },
                            }
                        },
                    }
                },
            }
        },
    }
}

/// A UnityFS archive over its bytes.
#[derive(Debug, Clone)]
pub struct UnityFsFile<'a> {
    pub data: &'a [u8],
    pub blocks_info: BlocksInfo,
    pub data_offset: u64,
}

/// Moves a reader forward to the next multiple of 16.
fn align16(r: &mut Reader) -> (res: Result<(), UnityError>)
    ensures
        final(r).data == old(r).data,
        res is Ok ==> sp_align16(old(r).pos as int) == Ok::<int, UnityError>(final(r).pos as int),
        res matches Err(e) ==> sp_align16(old(r).pos as int) == Err::<int, UnityError>(e),
{
    let offset = r.pos % 16;
    if offset != 0 {
        r.skip(16 - offset)
    } else {
        Ok(())
    }
}

/// Reads the header.
#[verifier::loop_isolation(false)]
fn read_fs_header(r: &mut Reader) -> (res: Result<(u32, u32, u32, u32), UnityError>)
    requires
        old(r).pos == 0,
    ensures
        final(r).data == old(r).data,
        res matches Ok((v, c, u, f)) ==> sp_fs_header(old(r).data@) == Ok::<(FsHeader, int), UnityError>(
            (FsHeader { version: v, compressed_size: c, uncompressed_size: u, flags: f }, final(r).pos as int),
        ),
        res matches Err(e) ==> sp_fs_header(old(r).data@) == Err::<(FsHeader, int), UnityError>(e),
{
    let magic = r.read_bytes(8)?;
    let expected: [u8; 8] = [0x55, 0x6E, 0x69, 0x74, 0x79, 0x46, 0x53, 0x00];
    let mut k: usize = 0;
    while k < 8
        invariant
            0 <= k <= 8,
            magic@.len() == 8,
            expected@ == unity_fs_magic(),
            forall|j: int| 0 <= j < k ==> magic@[j] == expected@[j],
        decreases 8 - k,
    {
        if magic[k] != expected[k] {
            assert(magic@ != unity_fs_magic());
            return Err(UnityError::InvalidData("not a UnityFS file"));
        }
        k = k + 1;
    }
    assert(magic@ =~= unity_fs_magic());
    let version = r.read_u32(true)?;
    let _unity_version = r.read_cstr()?;
    let _unity_revision = r.read_cstr()?;
    let _size = r.read_u64(true)?;
    let compressed = r.read_u32(true)?;
    let uncompressed = r.read_u32(true)?;
    let flags = r.read_u32(true)?;
    Ok((version, compressed, uncompressed, flags))
}

/// The block stored at `p`.
pub open spec fn block_at(b: Seq<u8>, p: int) -> Block {
    Block {
        uncompressed_size: uint_at(b, p, 4, true) as u32,
        compressed_size: uint_at(b, p + 4, 4, true) as u32,
        flags: uint_at(b, p + 8, 2, true) as u16,
    }
}

/// Reads one block.
fn read_block(r: &mut Reader) -> (res: Result<Block, UnityError>)
    ensures
        final(r).data == old(r).data,
        old(r).pos + 10 <= old(r).data@.len() ==> res == Ok::<Block, UnityError>(
            block_at(old(r).data@, old(r).pos as int),
        ) && final(r).pos == old(r).pos + 10,
        old(r).pos + 10 > old(r).data@.len() ==> res == Err::<Block, UnityError>(UnityError::UnexpectedEof),
{
    let uncompressed_size = r.read_u32(true)?;
    let compressed_size = r.read_u32(true)?;
    let flags = r.read_u16(true)?;
    Ok(Block { uncompressed_size, compressed_size, flags })
}

proof fn lemma_blocks_error(b: Seq<u8>, pos: int, n: nat, m: nat)
    requires
        n <= m,
        sp_blocks(b, pos, n) is Err,
    ensures
        sp_blocks(b, pos, m) == sp_blocks(b, pos, n),
    decreases m - n,
{
    if n < m {
        lemma_blocks_error(b, pos, n, (m - 1) as nat);
    }
}

/// Reads `n` blocks.
fn read_blocks(r: &mut Reader, n: u32) -> (res: Result<Vec<Block>, UnityError>)
    ensures
        final(r).data == old(r).data,
        res matches Ok(v) ==> v@.len() == n,
        res matches Ok(v) ==> sp_blocks(old(r).data@, old(r).pos as int, n as nat) == Ok::<
            (Seq<Block>, int),
            UnityError,
        >((v@, final(r).pos as int)),
        res matches Err(e) ==> sp_blocks(old(r).data@, old(r).pos as int, n as nat) == Err::<
            (Seq<Block>, int),
            UnityError,
        >(e),
{
    let ghost d = r.data@;
    let ghost d0 = r.data;
    let ghost start = r.pos as int;
    let mut out: Vec<Block> = Vec::new();
    let mut i: u32 = 0;
    while i < n
        invariant
            r.data == d0,
            r.data@ == d,
            d0 == old(r).data,
            start == old(r).pos,
            0 <= i <= n,
            out@.len() == i,
            sp_blocks(d, start, i as nat) == Ok::<(Seq<Block>, int), UnityError>((out@, r.pos as int)),
        decreases n - i,
    {
        let b = match read_block(r) {
            Ok(b) => b,
            Err(e) => {
                proof {
                    lemma_blocks_error(d, start, (i + 1) as nat, n as nat);
                }
                return Err(e);
            },
        };
        out.push(b);
        i = i + 1;
    }
    Ok(out)
}

proof fn lemma_nodes_error(b: Seq<u8>, pos: int, n: nat, m: nat)
    requires
        n <= m,
        sp_nodes(b, pos, n) is Err,
    ensures
        sp_nodes(b, pos, m) == sp_nodes(b, pos, n),
    decreases m - n,
{
    if n < m {
        lemma_nodes_error(b, pos, n, (m - 1) as nat);
    }
}

/// Reads one node.
fn read_node(r: &mut Reader) -> (res: Result<Node, UnityError>)
    ensures
        final(r).data == old(r).data,
        res matches Ok(nd) ==> (sp_nodes(old(r).data@, old(r).pos as int, 1) matches Ok((ns, p)) && ns
            == seq![nd@] && p == final(r).pos),
        res matches Err(e) ==> sp_nodes(old(r).data@, old(r).pos as int, 1) == Err::<
            (Seq<NodeEntry>, int),
            UnityError,
        >(e),
{
    let ghost d = r.data@;
    let ghost p = r.pos as int;
    assert(sp_nodes(d, p, 0) == Ok::<(Seq<NodeEntry>, int), UnityError>((Seq::empty(), p)));
    let offset = r.read_u64(true)?;
    let size = r.read_u64(true)?;
    let flags = r.read_u32(true)?;
    let path = r.read_cstr()?;
    let nd = Node { offset, size, flags, path };
    assert(Seq::<NodeEntry>::empty().push(nd@) =~= seq![nd@]);
    Ok(nd)
}

/// Reads `n` nodes.
fn read_nodes(r: &mut Reader, n: u32) -> (res: Result<Vec<Node>, UnityError>)
    ensures
        final(r).data == old(r).data,
        res matches Ok(v) ==> sp_nodes(old(r).data@, old(r).pos as int, n as nat) == Ok::<
            (Seq<NodeEntry>, int),
            UnityError,
        >((node_entries(v@), final(r).pos as int)),
        res matches Err(e) ==> sp_nodes(old(r).data@, old(r).pos as int, n as nat) == Err::<
            (Seq<NodeEntry>, int),
            UnityError,
        >(e),
{
    let ghost d = r.data@;
    let ghost d0 = r.data;
    let ghost start = r.pos as int;
    let mut out: Vec<Node> = Vec::new();
    assert(node_entries(out@) =~= Seq::<NodeEntry>::empty());
    let mut i: u32 = 0;
    while i < n
        invariant
            r.data == d0,
            r.data@ == d,
            d0 == old(r).data,
            start == old(r).pos,
            0 <= i <= n,
            sp_nodes(d, start, i as nat) == Ok::<(Seq<NodeEntry>, int), UnityError>(
                (node_entries(out@), r.pos as int),
            ),
        decreases n - i,
    {
        let ghost p = r.pos as int;
        let nd = match read_node(r) {
            Ok(nd) => nd,
            Err(e) => {
                proof {
                    lemma_nodes_one(d, start, p, i as nat, node_entries(out@));
                    lemma_nodes_error(d, start, (i + 1) as nat, n as nat);
                }
                return Err(e);
            },
        };
        proof {
            lemma_nodes_one(d, start, p, i as nat, node_entries(out@));
        }
        let ghost before = out@;
        out.push(nd);
        assert(node_entries(out@) =~= node_entries(before).push(nd@));
        assert(node_entries(before) + seq![nd@] =~= node_entries(before).push(nd@));
        i = i + 1;
    }
    Ok(out)
}

/// Reading one more node continues where the previous ones ended.
proof fn lemma_nodes_one(d: Seq<u8>, start: int, p: int, i: nat, ns: Seq<NodeEntry>)
    requires
        sp_nodes(d, start, i) == Ok::<(Seq<NodeEntry>, int), UnityError>((ns, p)),
    ensures
        sp_nodes(d, start, i + 1) == match sp_nodes(d, p, 1) {
            Err(e) => Err::<(Seq<NodeEntry>, int), UnityError>(e),
            Ok((one, p2)) => Ok((ns + one, p2)),
        },
{
    assert(sp_nodes(d, p, 0) == Ok::<(Seq<NodeEntry>, int), UnityError>((Seq::empty(), p)));
    match sp_nodes(d, p, 1) {
        Err(e) => {},
        Ok((one, p2)) => {
            assert(one =~= Seq::<NodeEntry>::empty().push(one[0]));
            assert(ns + one =~= ns.push(one[0]));
        },
    }
}

/// Reads the blocks info from its decompressed bytes.
fn read_blocks_info(b: &[u8]) -> (res: Result<BlocksInfo, UnityError>)
    ensures
        res matches Ok(bi) ==> bi.blocks@.len() <= u32::MAX,
        res matches Ok(bi) ==> sp_blocks_info(b@) == Ok::<InfoView, UnityError>(bi@),
        res matches Err(e) ==> sp_blocks_info(b@) == Err::<InfoView, UnityError>(e),
{
    let mut r = Reader::new(b);
    let hash = r.read_bytes(16)?;
    let data_hash = bytes_to_vec(hash);
    let blocks_count = r.read_u32(true)?;
    let blocks = read_blocks(&mut r, blocks_count)?;
    let nodes_count = r.read_u32(true)?;
    let nodes = read_nodes(&mut r, nodes_count)?;
    Ok(BlocksInfo { data_hash, blocks, nodes })
}

impl<'a> View for UnityFsFile<'a> {
    type V = (Seq<u8>, InfoView, u64);

    open spec fn view(&self) -> (Seq<u8>, InfoView, u64) {
        (self.data@, self.blocks_info@, self.data_offset)
    }
}

impl<'a> UnityFsFile<'a> {
    /// Reads a UnityFS archive from its bytes: its header and its blocks info.
    pub fn open(data: &'a [u8]) -> (res: Result<Self, UnityError>)
        requires
            header_compression_known(data@),
        ensures
            res matches Ok(f) ==> f.blocks_info.blocks@.len() <= u32::MAX,
            res matches Ok(f) ==> f.data == data && sp_open(data@) == Ok::<(InfoView, int), UnityError>(
                (f.blocks_info@, f.data_offset as int),
            ),
            res matches Err(e) ==> sp_open(data@) == Err::<(InfoView, int), UnityError>(e),
    {
        let mut r = Reader::new(data);
        let (version, compressed_size, uncompressed_size, flags) = read_fs_header(&mut r)?;
        let ghost h = FsHeader { version, compressed_size, uncompressed_size, flags };
        if version >= 7 {
            align16(&mut r)?;
        }
        let n = compressed_size as usize;
        let compressed: Vec<u8> = if flags & 0x80 != 0 {
            if n > data.len() {
                return Err(UnityError::InvalidData("invalid seek to a negative or overflowing position"));
            }
            bytes_to_vec(&data[data.len() - n..data.len()])
        } else if n == 0 {
            Vec::new()
        } else {
            let b = r.read_bytes(n)?;
            bytes_to_vec(b)
        };
        proof {
            if flags & 0x80 == 0 && n == 0 {
                assert(compressed@ =~= Seq::<u8>::empty());
            }
        }
        if flags & 0x200 != 0 {
            align16(&mut r)?;
        }
        let info = decompress_data(compressed.as_slice(), flags & 0x3F, uncompressed_size)?;
        let blocks_info = read_blocks_info(info.as_slice())?;
        Ok(UnityFsFile { data, blocks_info, data_offset: r.pos })
    }
}

/// The start of block `i` in the compressed (or else the uncompressed) data: the sum
/// of the sizes of the blocks before it.
pub open spec fn block_start(blocks: Seq<Block>, i: int, compressed: bool) -> nat
    decreases i,
{
    if i <= 0 {
        0
    } else {
        block_start(blocks, i - 1, compressed) + if compressed {
            blocks[i - 1].compressed_size as nat
        } else {
            blocks[i - 1].uncompressed_size as nat
        }
    }
}

/// The first block from `i` on whose uncompressed range holds `offset`.
pub open spec fn block_holding(blocks: Seq<Block>, offset: u64, i: int) -> Option<int>
    decreases blocks.len() - i,
{
    if i < 0 || i >= blocks.len() {
        None
    } else if block_start(blocks, i, false) <= offset < block_start(blocks, i + 1, false) {
        Some(i)
    } else {
        block_holding(blocks, offset, i + 1)
    }
}

/// Where a block starts, in both the compressed and the uncompressed data.
#[derive(Debug, Clone, Copy, PartialEq, Eq, Structural)]
pub struct BlockOffset {
    pub index: usize,
    pub compressed_offset: u64,
    pub uncompressed_offset: u64,
}

proof fn lemma_block_holding_range(blocks: Seq<Block>, offset: u64, i: int)
    requires
        0 <= i,
    ensures
        block_holding(blocks, offset, i) matches Some(k) ==> i <= k < blocks.len(),
    decreases blocks.len() - i,
{
    if i < blocks.len() {
        lemma_block_holding_range(blocks, offset, i + 1);
    }
}

proof fn lemma_block_start_bound(blocks: Seq<Block>, i: int, compressed: bool)
    requires
        0 <= i,
    ensures
        block_start(blocks, i, compressed) <= i * 0xFFFF_FFFF,
    decreases i,
{
    if i > 0 {
        lemma_block_start_bound(blocks, i - 1, compressed);
    }
}

/// Every block of the archive uses a compression method this library knows (else
/// reading its flags fails).
pub open spec fn blocks_known(blocks: Seq<Block>) -> bool {
    forall|i: int| 0 <= i < blocks.len() ==> compression_known(block_compression(#[trigger] blocks[i]))
}

/// Collecting a node's bytes from block `j` on, where the blocks before `j` gave
/// `acc`: each block is read at its compressed start after the data offset and
/// decompressed; the node's part of it is appended until the node is complete.
pub open spec fn sp_collect(
    d: Seq<u8>,
    data_offset: u64,
    blocks: Seq<Block>,
    node: NodeEntry,
    j: int,
    coff: nat,
    uoff: nat,
    acc: Seq<u8>,
) -> Result<Seq<u8>, UnityError>
    decreases blocks.len() - j,
{
    if j < 0 || j >= blocks.len() {
        Ok(acc)
    } else {
        let b = blocks[j];
        let start = coff + data_offset;
        if start > u64::MAX {
            Err(UnityError::InvalidData("compressed data position out of bounds"))
        } else {
            match sp_read_exact(d, start, b.compressed_size as nat) {
                Err(e) => Err(e),
                Ok(c) => match sp_decompress(c, block_compression(b), b.uncompressed_size) {
                    Err(e) => Err(e),
                    Ok(u) => {
                        let sub_start = (if node.offset >= uoff {
                            (node.offset - uoff) as u64
                        } else {
                            0u64
                        }) as usize as int;
                        let missing = ((node.size - acc.len()) as u64) as usize as int;
                        if sub_start > u.len() {
                            Err(UnityError::InvalidData("node data out of block range"))
                        } else if missing <= u.len() - sub_start {
                            Ok(acc + u.subrange(sub_start, sub_start + missing))
                        } else {
                            sp_collect(
                                d,
                                data_offset,
                                blocks,
                                node,
                                j + 1,
                                coff + b.compressed_size as nat,
                                uoff + b.uncompressed_size as nat,
                                acc + u.subrange(sub_start, u.len() as int),
                            )
                        }
                    },
                },
            }
        }
    }
}

/// A node's bytes: collected from the block that holds its offset on.
pub open spec fn sp_node_bytes(d: Seq<u8>, data_offset: u64, blocks: Seq<Block>, node: NodeEntry) -> Result<
    Seq<u8>,
    UnityError,
> {
    match block_holding(blocks, node.offset, 0) {
        None => Err(UnityError::InvalidData("compressed data position out of bounds")),
        Some(i) => sp_collect(
            d,
            data_offset,
            blocks,
            node,
            i,
            block_start(blocks, i, true),
            block_start(blocks, i, false),
            Seq::empty(),
        ),
    }
}

/// A node's data: its collected bytes, which must be exactly `size` many.
pub open spec fn sp_node_data(d: Seq<u8>, data_offset: u64, blocks: Seq<Block>, node: NodeEntry) -> Result<
    Seq<u8>,
    UnityError,
> {
    match sp_node_bytes(d, data_offset, blocks, node) {
        Err(e) => Err(e),
        Ok(v) => if v.len() == node.size {
            Ok(v)
        } else {
            Err(UnityError::InvalidData("node data does not match its size"))
        },
    }
}

impl<'a> UnityFsFile<'a> {
    /// Whether every block uses a compression method this library knows.
    pub fn compression_known(&self) -> (r: bool)
        ensures
            r == blocks_known(self.blocks_info.blocks@),
    {
        let blocks = &self.blocks_info.blocks;
        let mut i: usize = 0;
        while i < blocks.len()
            invariant
                blocks@ == self.blocks_info.blocks@,
                0 <= i <= blocks@.len(),
                forall|k: int| 0 <= k < i ==> compression_known(block_compression(#[trigger] blocks@[k])),
            decreases blocks@.len() - i,
        {
            let b = blocks[i];
            if (b.flags & 0x3F) as u32 > 4 {
                assert(!compression_known(block_compression(blocks@[i as int])));
                return false;
            }
            i = i + 1;
        }
        true
    }

    /// Finds the block whose uncompressed range holds `offset`.
    pub fn get_block_index_by_offset(&self, offset: u64) -> (r: Option<BlockOffset>)
        requires
            self.blocks_info.blocks@.len() <= u32::MAX,
        ensures
            r matches Some(bo) ==> block_holding(self.blocks_info.blocks@, offset, 0) == Some(bo.index as int)
                && bo.compressed_offset == block_start(self.blocks_info.blocks@, bo.index as int, true)
                && bo.uncompressed_offset == block_start(self.blocks_info.blocks@, bo.index as int, false),
            r is None ==> block_holding(self.blocks_info.blocks@, offset, 0) is None,
    {
        let blocks = &self.blocks_info.blocks;
        let mut compressed_offset: u64 = 0;
        let mut uncompressed_offset: u64 = 0;
        let mut index: usize = 0;
        while index < blocks.len()
            invariant
                blocks@ == self.blocks_info.blocks@,
                blocks@.len() <= u32::MAX,
                0 <= index <= blocks@.len(),
                compressed_offset == block_start(blocks@, index as int, true),
                uncompressed_offset == block_start(blocks@, index as int, false),
                block_holding(blocks@, offset, 0) == block_holding(blocks@, offset, index as int),
            decreases blocks@.len() - index,
        {
            let block = blocks[index];
            proof {
                lemma_block_start_bound(blocks@, index + 1, true);
                lemma_block_start_bound(blocks@, index + 1, false);
                assert((index + 1) * 0xFFFF_FFFF <= 0xFFFF_FFFF * 0xFFFF_FFFF) by (nonlinear_arith)
                    requires
                        index + 1 <= 0xFFFF_FFFF,
                ;
            }
            let next_compressed_offset = compressed_offset + block.compressed_size as u64;
            let next_uncompressed_offset = uncompressed_offset + block.uncompressed_size as u64;
            assert(block_start(blocks@, index + 1, false) == next_uncompressed_offset);
            assert(block_start(blocks@, index + 1, true) == next_compressed_offset);
            if offset >= uncompressed_offset && offset < next_uncompressed_offset {
                return Some(BlockOffset { index, compressed_offset, uncompressed_offset });
            }
            compressed_offset = next_compressed_offset;
            uncompressed_offset = next_uncompressed_offset;
            index = index + 1;
        }
        None
    }
}

/// A file within an archive.
#[derive(Debug, Clone)]
pub struct UnityFsNode<'a> {
    pub file: &'a UnityFsFile<'a>,
    pub node: &'a Node,
}

/// The data of an archive's file: a serialized file, or raw bytes.
#[derive(Debug, Clone)]
pub enum UnityFsData<'a> {
    SerializedFile(SerializedFile<'a>),
    RawData(&'a [u8]),
}

impl<'a> UnityFsFile<'a> {
    /// Enumerates all node entries within the file.
    pub fn entries(&'a self) -> (r: Vec<UnityFsNode<'a>>)
        ensures
            r@.len() == self.blocks_info.nodes@.len(),
            forall|i: int|
                0 <= i < r@.len() ==> (#[trigger] r@[i]).file == self && r@[i].node == &self.blocks_info.nodes@[i],
    {
        let mut out: Vec<UnityFsNode<'a>> = Vec::new();
        let mut i: usize = 0;
        while i < self.blocks_info.nodes.len()
            invariant
                0 <= i <= self.blocks_info.nodes@.len(),
                out@.len() == i,
                forall|k: int|
                    0 <= k < i ==> (#[trigger] out@[k]).file == self && out@[k].node == &self.blocks_info.nodes@[k],
            decreases self.blocks_info.nodes@.len() - i,
        {
            out.push(UnityFsNode { file: self, node: &self.blocks_info.nodes[i] });
            i = i + 1;
        }
        out
    }
}

impl<'a> UnityFsNode<'a> {
    /// Gets the path name for this node (invalid UTF-8 replaced).
    pub fn path(&self) -> (r: String)
        ensures
            r@ == crate::text::chars::utf8_lossy(self.node.path@),
    {
        string_from_utf8_lossy(self.node.path.as_slice())
    }

    /// Decompresses this node's data from the blocks that hold it.
    #[verifier::loop_isolation(false)]
    fn decompress(&self) -> (r: Result<Vec<u8>, UnityError>)
        requires
            self.file.blocks_info.blocks@.len() <= u32::MAX,
            blocks_known(self.file.blocks_info.blocks@),
        ensures
            r matches Ok(v) ==> sp_node_bytes(
                self.file.data@,
                self.file.data_offset,
                self.file.blocks_info.blocks@,
                self.node@,
            ) == Ok::<Seq<u8>, UnityError>(v@),
            r matches Err(e) ==> sp_node_bytes(
                self.file.data@,
                self.file.data_offset,
                self.file.blocks_info.blocks@,
                self.node@,
            ) == Err::<Seq<u8>, UnityError>(e),
    {
        let file = self.file;
        let node = self.node;
        let blocks = &file.blocks_info.blocks;
        let ghost d = file.data@;
        let ghost ne = node@;
        let uncompressed_start = node.offset;
        let bo = match file.get_block_index_by_offset(uncompressed_start) {
            Some(bo) => bo,
            None => {
                return Err(UnityError::InvalidData("compressed data position out of bounds"));
            },
        };
        proof {
            lemma_block_holding_range(blocks@, uncompressed_start, 0);
        }
        let mut compressed_offset = bo.compressed_offset;
        let mut uncompressed_offset = bo.uncompressed_offset;
        let mut result: Vec<u8> = Vec::new();
        let mut j = bo.index;
        while j < blocks.len()
            invariant
                blocks@.len() <= u32::MAX,
                bo.index <= j <= blocks@.len(),
                compressed_offset == block_start(blocks@, j as int, true),
                uncompressed_offset == block_start(blocks@, j as int, false),
                result@.len() <= node.size,
                sp_node_bytes(d, file.data_offset, blocks@, ne) == sp_collect(
                    d,
                    file.data_offset,
                    blocks@,
                    ne,
                    j as int,
                    compressed_offset as nat,
                    uncompressed_offset as nat,
                    result@,
                ),
            decreases blocks@.len() - j,
        {
            let block = blocks[j];
            proof {
                lemma_block_start_bound(blocks@, j + 1, true);
                lemma_block_start_bound(blocks@, j + 1, false);
                assert((j + 1) * 0xFFFF_FFFF <= 0xFFFF_FFFF * 0xFFFF_FFFF) by (nonlinear_arith)
                    requires
                        j + 1 <= 0xFFFF_FFFF,
                ;
            }
            if compressed_offset > u64::MAX - file.data_offset {
                return Err(UnityError::InvalidData("compressed data position out of bounds"));
            }
            let start = compressed_offset + file.data_offset;
            let n = block.compressed_size as usize;
            let compressed: &[u8] = if n == 0 {
                &file.data[0..0]
            } else {
                if start > file.data.len() as u64 || (n as u64) > (file.data.len() as u64) - start {
                    return Err(UnityError::UnexpectedEof);
                }
                &file.data[start as usize..start as usize + n]
            };
            proof {
                if n == 0 {
                    assert(compressed@ =~= Seq::<u8>::empty());
                }
                assert(compression_known(block_compression(blocks@[j as int])));
            }
            let uncompressed_data = decompress_data(compressed, (block.flags & 0x3F) as u32, block.uncompressed_size)?;
            let sub_start: usize = if uncompressed_start >= uncompressed_offset {
                (uncompressed_start - uncompressed_offset) as usize
            } else {
                0
            };
            let missing_size = (node.size - result.len() as u64) as usize;
            if sub_start > uncompressed_data.len() {
                return Err(UnityError::InvalidData("node data out of block range"));
            }
            let ghost acc0 = result@;
            if missing_size <= uncompressed_data.len() - sub_start {
                let end = sub_start + missing_size;
                let mut k = sub_start;
                while k < end
                    invariant
                        sub_start <= k <= end <= uncompressed_data@.len(),
                        result@ == acc0 + uncompressed_data@.subrange(sub_start as int, k as int),
                    decreases end - k,
                {
                    result.push(uncompressed_data[k]);
                    k = k + 1;
                    assert(uncompressed_data@.subrange(sub_start as int, k as int) =~= uncompressed_data@.subrange(
                        sub_start as int,
                        k - 1,
                    ).push(uncompressed_data@[k - 1]));
                }
                return Ok(result);
            }
            let mut k = sub_start;
            while k < uncompressed_data.len()
                invariant
                    sub_start <= k <= uncompressed_data@.len(),
                    result@ == acc0 + uncompressed_data@.subrange(sub_start as int, k as int),
                decreases uncompressed_data@.len() - k,
            {
                result.push(uncompressed_data[k]);
                k = k + 1;
                assert(uncompressed_data@.subrange(sub_start as int, k as int) =~= uncompressed_data@.subrange(
                    sub_start as int,
                    k - 1,
                ).push(uncompressed_data@[k - 1]));
            }
            compressed_offset = compressed_offset + block.compressed_size as u64;
            uncompressed_offset = uncompressed_offset + block.uncompressed_size as u64;
            j = j + 1;
        }
        Ok(result)
    }
}

impl<'a> UnityFsNode<'a> {
    /// Reads the raw binary data for this node.
    pub fn read_raw(&self) -> (r: Result<Vec<u8>, UnityError>)
        requires
            self.file.blocks_info.blocks@.len() <= u32::MAX,
            blocks_known(self.file.blocks_info.blocks@),
        ensures
            r matches Ok(v) ==> sp_node_data(
                self.file.data@,
                self.file.data_offset,
                self.file.blocks_info.blocks@,
                self.node@,
            ) == Ok::<Seq<u8>, UnityError>(v@),
            r matches Err(e) ==> sp_node_data(
                self.file.data@,
                self.file.data_offset,
                self.file.blocks_info.blocks@,
                self.node@,
            ) == Err::<Seq<u8>, UnityError>(e),
            r matches Ok(v) ==> v@.len() == self.node@.size,
    {
        let v = self.decompress()?;
        if v.len() as u64 == self.node.size {
            Ok(v)
        } else {
            Err(UnityError::InvalidData("node data does not match its size"))
        }
    }

    /// Reads a node's raw data (as `read_raw` gives it) as a serialized file where it
    /// looks like one, else as raw bytes.
    pub fn read<'b>(raw: &'b [u8]) -> (r: Result<UnityFsData<'b>, UnityError>)
        ensures
            sp_is_serialized_file(raw@) ==> match r {
                Ok(UnityFsData::SerializedFile(f)) => super::serialized::sp_read(raw@) == Ok::<
                    super::serialized::FileView,
                    UnityError,
                >(f@) && f.buf == raw,
                Ok(UnityFsData::RawData(_)) => false,
                Err(e) => super::serialized::sp_read(raw@) == Err::<super::serialized::FileView, UnityError>(e),
            },
            !sp_is_serialized_file(raw@) ==> (r matches Ok(UnityFsData::RawData(b)) && b == raw),
    {
        if SerializedFile::is_serialized_file(raw) {
            Ok(UnityFsData::SerializedFile(SerializedFile::read(raw)?))
        } else {
            Ok(UnityFsData::RawData(raw))
        }
    }
}

/// The block found for an offset is the first whose uncompressed range holds it.
pub proof fn lemma_block_holding_holds(blocks: Seq<Block>, offset: u64, i: int)
    requires
        0 <= i,
    ensures
        block_holding(blocks, offset, i) matches Some(k) ==> i <= k < blocks.len() && block_start(blocks, k, false)
            <= offset < block_start(blocks, k + 1, false) && forall|j: int|
            i <= j < k ==> !(block_start(blocks, j, false) <= offset < #[trigger] block_start(blocks, j + 1, false)),
    decreases blocks.len() - i,
{
    if 0 <= i < blocks.len() {
        lemma_block_holding_holds(blocks, offset, i + 1);
    }
}


/// The total compressed size of the blocks before block `j`.
pub open spec fn packed_before(blocks: Seq<Block>, j: int) -> nat
    decreases j,
{
    if j <= 0 {
        0
    } else {
        packed_before(blocks, j - 1) + blocks[j - 1].compressed_size as nat
    }
}

/// The total uncompressed size of the blocks before block `j`.
pub open spec fn unpacked_before(blocks: Seq<Block>, j: int) -> nat
    decreases j,
{
    if j <= 0 {
        0
    } else {
        unpacked_before(blocks, j - 1) + blocks[j - 1].uncompressed_size as nat
    }
}

/// Block `j` decompressed: its compressed bytes lie at the data offset plus the
/// compressed sizes of the blocks before it.
pub open spec fn block_bytes(d: Seq<u8>, data_offset: u64, blocks: Seq<Block>, j: int) -> Result<Seq<u8>, UnityError> {
    let b = blocks[j];
    let start = data_offset + packed_before(blocks, j);
    if start > u64::MAX {
        Err(UnityError::InvalidData("compressed data position out of bounds"))
    } else {
        match sp_read_exact(d, start, b.compressed_size as nat) {
            Err(e) => Err(e),
            Ok(c) => sp_decompress(c, block_compression(b), b.uncompressed_size),
        }
    }
}

/// Every block decompresses, to as many bytes as its uncompressed size says.
pub open spec fn blocks_intact(d: Seq<u8>, data_offset: u64, blocks: Seq<Block>) -> bool {
    forall|j: int|
        0 <= j < blocks.len() ==> ((#[trigger] block_bytes(d, data_offset, blocks, j)) matches Ok(u) && u.len()
            == blocks[j].uncompressed_size)
}

/// The archive's uncompressed data: the first `n` blocks decompressed, one after the
/// other.
pub open spec fn archive_bytes(d: Seq<u8>, data_offset: u64, blocks: Seq<Block>, n: int) -> Seq<u8>
    decreases n,
{
    if n <= 0 {
        Seq::empty()
    } else {
        archive_bytes(d, data_offset, blocks, n - 1) + block_bytes(d, data_offset, blocks, n - 1)->Ok_0
    }
}

proof fn lemma_block_start_sums(blocks: Seq<Block>, j: int)
    ensures
        block_start(blocks, j, true) == packed_before(blocks, j),
        block_start(blocks, j, false) == unpacked_before(blocks, j),
    decreases j,
{
    if j > 0 {
        lemma_block_start_sums(blocks, j - 1);
    }
}

proof fn lemma_unpacked_mono(blocks: Seq<Block>, i: int, j: int)
    requires
        i <= j,
    ensures
        unpacked_before(blocks, i) <= unpacked_before(blocks, j),
    decreases j - i,
{
    if i < j {
        lemma_unpacked_mono(blocks, i, j - 1);
    }
}

proof fn lemma_archive_bytes(d: Seq<u8>, data_offset: u64, blocks: Seq<Block>, n: int)
    requires
        blocks_intact(d, data_offset, blocks),
        0 <= n <= blocks.len(),
    ensures
        archive_bytes(d, data_offset, blocks, n).len() == unpacked_before(blocks, n),
        forall|j: int|
            0 <= j < n ==> archive_bytes(d, data_offset, blocks, n).subrange(
                unpacked_before(blocks, j) as int,
                unpacked_before(blocks, j + 1) as int,
            ) == (#[trigger] block_bytes(d, data_offset, blocks, j))->Ok_0,
    decreases n,
{
    if n > 0 {
        lemma_archive_bytes(d, data_offset, blocks, n - 1);
        let prev = archive_bytes(d, data_offset, blocks, n - 1);
        let cur = archive_bytes(d, data_offset, blocks, n);
        let u = block_bytes(d, data_offset, blocks, n - 1)->Ok_0;
        assert(block_bytes(d, data_offset, blocks, n - 1) is Ok);
        assert forall|j: int| 0 <= j < n implies cur.subrange(
            unpacked_before(blocks, j) as int,
            unpacked_before(blocks, j + 1) as int,
        ) == (#[trigger] block_bytes(d, data_offset, blocks, j))->Ok_0 by {
            if j < n - 1 {
                lemma_unpacked_mono(blocks, j + 1, n - 1);
                assert(cur.subrange(unpacked_before(blocks, j) as int, unpacked_before(blocks, j + 1) as int)
                    =~= prev.subrange(unpacked_before(blocks, j) as int, unpacked_before(blocks, j + 1) as int));
            } else {
                assert(cur.subrange(unpacked_before(blocks, j) as int, unpacked_before(blocks, j + 1) as int) =~= u);
            }
        }
    }
}

proof fn lemma_collect_from(
    d: Seq<u8>,
    data_offset: u64,
    blocks: Seq<Block>,
    node: NodeEntry,
    j: int,
    coff: nat,
    uoff: nat,
    acc: Seq<u8>,
)
    requires
        blocks_intact(d, data_offset, blocks),
        0 <= j <= blocks.len(),
        coff == packed_before(blocks, j),
        uoff == unpacked_before(blocks, j),
        node.offset <= unpacked_before(blocks, blocks.len() as int),
        uoff > node.offset || j == blocks.len() || node.offset < unpacked_before(blocks, j + 1),
        acc == archive_bytes(d, data_offset, blocks, blocks.len() as int).subrange(
            node.offset as int,
            if uoff > node.offset { uoff as int } else { node.offset as int },
        ),
    ensures
        sp_collect(d, data_offset, blocks, node, j, coff, uoff, acc) matches Ok(v) ==> node.offset + v.len()
            <= archive_bytes(d, data_offset, blocks, blocks.len() as int).len() && v == archive_bytes(
            d,
            data_offset,
            blocks,
            blocks.len() as int,
        ).subrange(node.offset as int, node.offset + v.len()),
    decreases blocks.len() - j,
{
    let n = blocks.len() as int;
    let all = archive_bytes(d, data_offset, blocks, n);
    lemma_archive_bytes(d, data_offset, blocks, n);
    let lo = node.offset as int;
    if j < n {
        lemma_unpacked_mono(blocks, j + 1, n);
        let b = blocks[j];
        let start = coff + data_offset;
        assert(block_bytes(d, data_offset, blocks, j) is Ok);
        if start <= u64::MAX {
            if let Ok(c) = sp_read_exact(d, start, b.compressed_size as nat) {
                if let Ok(u) = sp_decompress(c, block_compression(b), b.uncompressed_size) {
                    assert(u == block_bytes(d, data_offset, blocks, j)->Ok_0);
                    assert(u =~= all.subrange(uoff as int, uoff + b.uncompressed_size));
                    let sub_start = (if node.offset >= uoff {
                        (node.offset - uoff) as u64
                    } else {
                        0u64
                    }) as usize as int;
                    if node.offset >= uoff {
                        assert(node.offset - uoff < b.uncompressed_size);
                        assert(sub_start == node.offset - uoff);
                    } else {
                        assert(sub_start == 0);
                    }
                    let missing = ((node.size - acc.len()) as u64) as usize as int;
                    if sub_start <= u.len() {
                        let top = if uoff > lo { uoff as int } else { lo };
                        if missing <= u.len() - sub_start {
                            assert(acc + u.subrange(sub_start, sub_start + missing) =~= all.subrange(
                                lo,
                                top + missing,
                            ));
                        } else {
                            let acc2 = acc + u.subrange(sub_start, u.len() as int);
                            assert(acc2 =~= all.subrange(lo, uoff + b.uncompressed_size));
                            lemma_collect_from(
                                d,
                                data_offset,
                                blocks,
                                node,
                                j + 1,
                                packed_before(blocks, j + 1),
                                unpacked_before(blocks, j + 1),
                                acc2,
                            );
                        }
                    }
                }
            }
        }
    }
}

/// A node's data is its part of the archive's uncompressed data: where every block
/// decompresses to its stated size, the bytes read for a node are the bytes from its
/// offset, `size` many, of the blocks decompressed one after the other, each block
/// read at the data offset plus the compressed sizes of the blocks before it.
pub proof fn lemma_node_data_from_archive(d: Seq<u8>, data_offset: u64, blocks: Seq<Block>, node: NodeEntry)
    requires
        blocks_intact(d, data_offset, blocks),
    ensures
        sp_node_data(d, data_offset, blocks, node) matches Ok(v) ==> node.offset + node.size <= archive_bytes(
            d,
            data_offset,
            blocks,
            blocks.len() as int,
        ).len() && v == archive_bytes(d, data_offset, blocks, blocks.len() as int).subrange(
            node.offset as int,
            node.offset + node.size,
        ),
{
    lemma_block_holding_holds(blocks, node.offset, 0);
    if let Some(i) = block_holding(blocks, node.offset, 0) {
        lemma_block_start_sums(blocks, i);
        lemma_block_start_sums(blocks, i + 1);
        lemma_unpacked_mono(blocks, i + 1, blocks.len() as int);
        lemma_archive_bytes(d, data_offset, blocks, blocks.len() as int);
        let all = archive_bytes(d, data_offset, blocks, blocks.len() as int);
        assert(all.subrange(node.offset as int, node.offset as int) =~= Seq::<u8>::empty());
        lemma_collect_from(
            d,
            data_offset,
            blocks,
            node,
            i,
            block_start(blocks, i, true),
            block_start(blocks, i, false),
            Seq::empty(),
        );
    }
}

impl<'a> UnityFsFile<'a> {
    /// Whether an archive's header, where it can be read, names a compression method
    /// this library knows, so that the archive can be opened.
    pub fn header_compression_supported(data: &[u8]) -> (r: bool)
        ensures
            r == header_compression_known(data@),
    {
        let mut r = Reader::new(data);
        match read_fs_header(&mut r) {
            Ok((_, _, _, flags)) => flags & 0x3F <= 4,
            Err(_) => true,
        }
    }
}

} // verus!
