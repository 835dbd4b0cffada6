use vstd::prelude::*;
use super::error::UnityError;
use super::reader::le_value;
use super::streaming_info::{fs_readable, sp_load_data, StreamingInfo};
use super::unity_fs::UnityFsFile;

verus! {

/// Describes one vertex attribute: which stream holds it, where, and how it is stored.
#[derive(Debug, Clone, Copy, Default, PartialEq, Eq, Structural)]
pub struct ChannelInfo {
    pub stream: u8,
    pub offset: u8,
    pub format: u8,
    pub dimension: u8,
}

/// Describes one stream of interleaved vertex data.
#[derive(Debug, Clone, Copy, Default, PartialEq, Eq, Structural)]
pub struct StreamInfo {
    pub channel_mask: u32,
    pub offset: u32,
    pub stride: u32,
    pub divider_op: u32,
    pub frequency: u32,
}

/// A part of a mesh: a range of the index buffer and of the vertices.
#[derive(Debug, Clone, Copy, Default, PartialEq, Eq, Structural)]
pub struct SubMesh {
    pub first_byte: u32,
    pub index_count: u32,
    pub topology: i32,
    pub base_vertex: u32,
    pub first_vertex: u32,
    pub vertex_count: u32,
}

/// The vertex layout and data of a mesh.
#[derive(Debug, Clone)]
pub struct VertexData {
    pub vertex_count: u32,
    pub channels: Vec<ChannelInfo>,
    pub data_size: Vec<u8>,
    pub streams: Option<Vec<StreamInfo>>,
}

/// Data for Unity's Mesh class.
#[derive(Debug, Clone)]
pub struct Mesh {
    pub name: String,
    pub sub_meshes: Vec<SubMesh>,
    pub index_format: i32,
    pub index_buffer: Vec<u8>,
    pub vertex_data: VertexData,
    pub stream_data: StreamingInfo,
}

/// The size in bytes of one element of a vertex attribute format:
/// 0 Float32, 1 Float16, 2 UNorm8, 3 UNorm8, 4 SNorm8, 5 UNorm16, 6 SNorm16,
/// 7 UInt8, 8 SInt8, 9 UInt16, 10 SInt16, 11 UInt32, 12 SInt32; 0 for others.
pub open spec fn element_size_of(format: u8) -> u8 {
    if format == 0 {
        4
    } else if format == 1 {
        2
    } else if format <= 4 {
        1
    } else if format <= 6 {
        2
    } else if format <= 8 {
        1
    } else if format <= 10 {
        2
    } else if format <= 12 {
        4
    } else {
        0
    }
}

/// The bytes a channel takes within its stream: its offset plus its elements.
pub open spec fn stride_of(c: ChannelInfo) -> u32 {
    (c.offset + c.dimension * element_size_of(c.format)) as u32
}

impl ChannelInfo {
    /// The size of one element of this channel's format.
    pub fn element_size(&self) -> (r: u8)
        ensures
            r == element_size_of(self.format),
    {
        let formats: [u8; 13] = [4, 2, 1, 1, 1, 2, 2, 1, 1, 2, 2, 4, 4];
        if (self.format as usize) < 13 {
            assert(formats@ == seq![4u8, 2, 1, 1, 1, 2, 2, 1, 1, 2, 2, 4, 4]);
            formats[self.format as usize]
        } else {
            0
        }
    }

    /// The bytes this channel takes within its stream.
    pub fn stride(&self) -> (r: u32)
        ensures
            r == stride_of(*self),
    {
        let es = self.element_size() as u32;
        let d = self.dimension as u32;
        assert(d * es <= 1020) by (nonlinear_arith)
            requires
                d <= 255,
                es <= 4,
        ;
        self.offset as u32 + d * es
    }
}

/// The little-endian 16-bit indices of a buffer (a trailing odd byte is ignored).
pub open spec fn u16_indices(buf: Seq<u8>) -> Seq<u32> {
    Seq::new(buf.len() / 2, |i: int| le_value(buf, 2 * i, 2) as u32)
}

/// The little-endian 32-bit indices of a buffer (trailing bytes are ignored).
pub open spec fn u32_indices(buf: Seq<u8>) -> Seq<u32> {
    Seq::new(buf.len() / 4, |i: int| le_value(buf, 4 * i, 4) as u32)
}

/// The index size and indices of an index buffer in the given format.
pub open spec fn spec_index_buffer(format: i32, buf: Seq<u8>) -> Result<(u32, Seq<u32>), UnityError> {
    if format == 0 {
        Ok((2, u16_indices(buf)))
    } else if format == 1 {
        Ok((4, u32_indices(buf)))
    } else {
        Err(UnityError::InvalidData("unexpected mesh index format"))
    }
}

impl Mesh {
    /// Reads the mesh's vertex data: the streamed data where the mesh has a stream
    /// path, else the data in its vertex data.
    pub fn read_vertex_data<'t>(&'t self, fs: &UnityFsFile) -> (r: Result<MeshVertexData<'t>, UnityError>)
        requires
            self.stream_data.path@.len() > 0 ==> fs_readable(fs),
        ensures
            r matches Ok(md) ==> md.mesh == self,
            self.stream_data.path@.len() == 0 ==> (r matches Ok(md) && md.data@ == self.vertex_data.data_size@),
            self.stream_data.path@.len() > 0 ==> match r {
                Ok(md) => sp_load_data(
                    fs@,
                    self.stream_data.path@,
                    self.stream_data.offset.0,
                    self.stream_data.size,
                ) == Ok::<Seq<u8>, UnityError>(md.data@),
                Err(e) => sp_load_data(
                    fs@,
                    self.stream_data.path@,
                    self.stream_data.offset.0,
                    self.stream_data.size,
                ) == Err::<Seq<u8>, UnityError>(e),
            },
    {
        let data = self.stream_data.load_data_or_else(fs, self.vertex_data.data_size.as_slice())?;
        Ok(MeshVertexData { mesh: self, data })
    }
}

/// A mesh together with its vertex bytes.
#[derive(Debug, Clone)]
pub struct MeshVertexData<'t> {
    pub mesh: &'t Mesh,
    pub data: Vec<u8>,
}

impl<'t> MeshVertexData<'t> {
    /// Decodes the mesh's index buffer of 16-bit (format 0) or 32-bit (format 1)
    /// indices: the size of an index and the indices.
    pub fn load_index_buffer(&self) -> (r: Result<(u32, Vec<u32>), UnityError>)
        ensures
            r matches Ok((size, v)) ==> spec_index_buffer(self.mesh.index_format, self.mesh.index_buffer@) == Ok::<
                (u32, Seq<u32>),
                UnityError,
            >((size, v@)),
            r matches Err(e) ==> spec_index_buffer(self.mesh.index_format, self.mesh.index_buffer@) == Err::<
                (u32, Seq<u32>),
                UnityError,
            >(e),
    {
        let format = self.mesh.index_format;
        let buf = self.mesh.index_buffer.as_slice();
        if format == 0 {
            let mut out: Vec<u32> = Vec::new();
            let n = buf.len() / 2;
            let mut i: usize = 0;
            while i < n
                invariant
                    n == buf@.len() / 2,
                    buf@.len() <= usize::MAX,
                    0 <= i <= n,
                    out@.len() == i,
                    forall|k: int| 0 <= k < i ==> #[trigger] out@[k] == le_value(buf@, 2 * k, 2) as u32,
                decreases n - i,
            {
                assert(2 * i + 1 < buf@.len());
                let j = 2 * i;
                let v = buf[j] as u32 + 256 * buf[j + 1] as u32;
                proof {
                    reveal_with_fuel(le_value, 3);
                }
                out.push(v);
                i = i + 1;
            }
            assert(out@ =~= u16_indices(buf@));
            Ok((2, out))
        } else if format == 1 {
            let mut out: Vec<u32> = Vec::new();
            let n = buf.len() / 4;
            let mut i: usize = 0;
            while i < n
                invariant
                    n == buf@.len() / 4,
                    buf@.len() <= usize::MAX,
                    0 <= i <= n,
                    out@.len() == i,
                    forall|k: int| 0 <= k < i ==> #[trigger] out@[k] == le_value(buf@, 4 * k, 4) as u32,
                decreases n - i,
            {
                assert(4 * i + 3 < buf@.len());
                let j = 4 * i;
                let b0 = buf[j] as u32;
                let b1 = buf[j + 1] as u32;
                let b2 = buf[j + 2] as u32;
                let b3 = buf[j + 3] as u32;
                let v = b0 + 256 * (b1 + 256 * (b2 + 256 * b3));
                proof {
                    reveal_with_fuel(le_value, 5);
                }
                out.push(v);
                i = i + 1;
            }
            assert(out@ =~= u32_indices(buf@));
            Ok((4, out))
        } else {
            Err(UnityError::InvalidData("unexpected mesh index format"))
        }
    }
}

/// The highest stream number any channel uses (0 without channels).
pub open spec fn max_stream(channels: Seq<ChannelInfo>) -> int
    decreases channels.len(),
{
    if channels.len() == 0 {
        0
    } else {
        let m = max_stream(channels.drop_last());
        if channels.last().stream > m {
            channels.last().stream as int
        } else {
            m
        }
    }
}

/// The empty stream.
pub open spec fn empty_stream() -> StreamInfo {
    StreamInfo { channel_mask: 0, offset: 0, stride: 0, divider_op: 0, frequency: 0 }
}

/// `streams`, extended with empty streams to at least `n` streams.
pub open spec fn padded(streams: Seq<StreamInfo>, n: int) -> Seq<StreamInfo> {
    if streams.len() >= n {
        streams
    } else {
        streams + Seq::new((n - streams.len()) as nat, |i: int| empty_stream())
    }
}

/// The streams after the first `n` channels have marked their stream: each sets its
/// bit in the stream's channel mask and widens the stream's stride to its own.
pub open spec fn fold_channels(streams: Seq<StreamInfo>, channels: Seq<ChannelInfo>, n: int) -> Seq<
    StreamInfo,
>
    decreases n,
{
    if n <= 0 {
        streams
    } else {
        let st = fold_channels(streams, channels, n - 1);
        let c = channels[n - 1];
        let s = st[c.stream as int];
        st.update(
            c.stream as int,
            StreamInfo {
                channel_mask: s.channel_mask | (1u32 << ((n - 1) as u32)),
                stride: if stride_of(c) > s.stride {
                    stride_of(c)
                } else {
                    s.stride
                },
                ..s
            },
        )
    }
}

/// The bytes of the streams before stream `i`, each `stride * vertex_count` long.
pub open spec fn offset_before(streams: Seq<StreamInfo>, vertex_count: u32, i: int) -> nat
    decreases i,
{
    if i <= 0 {
        0
    } else {
        offset_before(streams, vertex_count, i - 1) + (streams[i - 1].stride as nat) * (vertex_count as nat)
    }
}

/// The streams laid out one after the other.
pub open spec fn with_offsets(streams: Seq<StreamInfo>, vertex_count: u32) -> Seq<StreamInfo> {
    Seq::new(
        streams.len(),
        |i: int| StreamInfo { offset: offset_before(streams, vertex_count, i) as u32, ..streams[i] },
    )
}

/// The streams given by the vertex data, if any.
pub open spec fn given_streams(vd: VertexData) -> Option<Seq<StreamInfo>> {
    match vd.streams {
        Some(v) => Some(v@),
        None => None,
    }
}

/// The streams of vertex data in `data_len` bytes: the given ones, or ones laid out
/// from the channels, with a second stream moved to the end of the data.
pub open spec fn spec_load_streams(vd: VertexData, data_len: nat) -> Result<Seq<StreamInfo>, UnityError> {
    let channels = vd.channels@;
    if data_len > u32::MAX {
        Err(UnityError::InvalidData("mesh data size does not fit 32 bits"))
    } else {
        match given_streams(vd) {
            Some(given) => Ok(padded(given, max_stream(channels) + 1)),
            None => {
                let st = fold_channels(padded(Seq::empty(), max_stream(channels) + 1), channels, channels.len() as int);
                let total = offset_before(st, vd.vertex_count, st.len() as int);
                if total > data_len {
                    Err(UnityError::InvalidData("mesh channel info specified too much stream data"))
                } else {
                    let o = with_offsets(st, vd.vertex_count);
                    if o.len() == 2 {
                        Ok(o.update(1, StreamInfo { offset: (data_len - st[1].stride * vd.vertex_count) as u32, ..o[1] }))
                    } else {
                        Ok(o)
                    }
                }
            },
        }
    }
}

/// The stream layout computed from the channels fits in 32 bits (else the layout
/// arithmetic overflows).
pub open spec fn streams_fit(vd: VertexData) -> bool {
    let channels = vd.channels@;
    vd.streams is None ==> {
        &&& channels.len() <= 32
        &&& offset_before(
            fold_channels(padded(Seq::empty(), max_stream(channels) + 1), channels, channels.len() as int),
            vd.vertex_count,
            max_stream(channels) + 1,
        ) <= u32::MAX
    }
}

pub proof fn lemma_max_stream(channels: Seq<ChannelInfo>)
    ensures
        0 <= max_stream(channels) <= 255,
        forall|i: int| 0 <= i < channels.len() ==> (#[trigger] channels[i]).stream <= max_stream(channels),
    decreases channels.len(),
{
    if channels.len() > 0 {
        lemma_max_stream(channels.drop_last());
        assert forall|i: int| 0 <= i < channels.len() implies (#[trigger] channels[i]).stream <= max_stream(
            channels,
        ) by {
            if i < channels.len() - 1 {
                assert(channels[i] == channels.drop_last()[i]);
            }
        }
    }
}

pub proof fn lemma_fold_len(streams: Seq<StreamInfo>, channels: Seq<ChannelInfo>, n: int)
    requires
        0 <= n <= channels.len(),
        forall|i: int| 0 <= i < channels.len() ==> (#[trigger] channels[i]).stream < streams.len(),
    ensures
        fold_channels(streams, channels, n).len() == streams.len(),
    decreases n,
{
    if n > 0 {
        lemma_fold_len(streams, channels, n - 1);
    }
}

/// Whether bit `x` of `m` is set.
pub open spec fn has_bit(m: u32, x: int) -> bool {
    0 <= x < 32 && m & (1u32 << (x as u32)) != 0
}

proof fn lemma_or_bit(m: u32, b: u32, x: u32)
    by (bit_vector)
    requires
        b < 32,
        x < 32,
    ensures
        ((m | (1u32 << b)) & (1u32 << x) != 0) == ((m & (1u32 << x) != 0) || x == b),
{
}

proof fn lemma_zero_bits(x: u32)
    by (bit_vector)
    requires
        x < 32,
    ensures
        0u32 & (1u32 << x) == 0,
{
}

/// The stream layout that the channels give: stream `s` has bit `x` of its channel
/// mask set exactly when channel `x` lies in stream `s`; its stride is at least the
/// stride of each of its channels, and is the stride of one of them (or 0 when it has
/// none).
pub proof fn lemma_stream_layout(k: int, channels: Seq<ChannelInfo>, n: int)
    requires
        1 <= k,
        0 <= n <= channels.len(),
        n <= 32,
        forall|i: int| 0 <= i < channels.len() ==> (#[trigger] channels[i]).stream < k,
    ensures
        fold_channels(padded(Seq::empty(), k), channels, n).len() == k,
        forall|s: int, x: int|
            0 <= s < k && 0 <= x < 32 ==> (#[trigger] has_bit(
                fold_channels(padded(Seq::empty(), k), channels, n)[s].channel_mask,
                x,
            ) <==> (x < n && channels[x].stream == s)),
        forall|s: int, x: int|
            #![trigger fold_channels(padded(Seq::empty(), k), channels, n)[s], channels[x]]
            0 <= s < k && 0 <= x < n && channels[x].stream == s ==> stride_of(channels[x])
                <= fold_channels(padded(Seq::empty(), k), channels, n)[s].stride,
        forall|s: int|
            0 <= s < k ==> {
                let st = #[trigger] fold_channels(padded(Seq::empty(), k), channels, n)[s];
                ||| st.stride == 0
                ||| exists|x: int| 0 <= x < n && channels[x].stream == s && st.stride == stride_of(channels[x])
            },
    decreases n,
{
    let base = padded(Seq::<StreamInfo>::empty(), k);
    assert(base.len() == k);
    lemma_fold_len(base, channels, n);
    let st = fold_channels(base, channels, n);
    if n == 0 {
        assert forall|s: int, x: int| 0 <= s < k && 0 <= x < 32 implies !#[trigger] has_bit(st[s].channel_mask, x) by {
            assert(st[s] == empty_stream());
            lemma_zero_bits(x as u32);
        }
    } else {
        lemma_stream_layout(k, channels, n - 1);
        let prev = fold_channels(base, channels, n - 1);
        let c = channels[n - 1];
        assert forall|s: int, x: int| 0 <= s < k && 0 <= x < 32 implies (#[trigger] has_bit(
            st[s].channel_mask,
            x,
        ) <==> (x < n && channels[x].stream == s)) by {
            assert(has_bit(prev[s].channel_mask, x) <==> (x < n - 1 && channels[x].stream == s));
            if s == c.stream as int {
                lemma_or_bit(prev[s].channel_mask, (n - 1) as u32, x as u32);
            }
        }
        assert forall|s: int, x: int| #![trigger st[s], channels[x]]
            0 <= s < k && 0 <= x < n && channels[x].stream == s implies stride_of(channels[x]) <= st[s].stride by {
            if x < n - 1 {
                assert(stride_of(channels[x]) <= prev[s].stride);
            }
        }
        assert forall|s: int| 0 <= s < k implies {
            let t = #[trigger] st[s];
            ||| t.stride == 0
            ||| exists|x: int| 0 <= x < n && channels[x].stream == s && t.stride == stride_of(channels[x])
        } by {
            let p = prev[s];
            if s == c.stream as int && stride_of(c) > p.stride {
                assert(st[s].stride == stride_of(channels[n - 1]));
            } else if p.stride != 0 {
                let x = choose|x: int| 0 <= x < n - 1 && channels[x].stream == s && p.stride == stride_of(channels[x]);
                assert(st[s].stride == stride_of(channels[x]));
            }
        }
    }
}

proof fn lemma_offset_mono(streams: Seq<StreamInfo>, vc: u32, i: int, j: int)
    requires
        0 <= i <= j,
    ensures
        offset_before(streams, vc, i) <= offset_before(streams, vc, j),
    decreases j - i,
{
    if i < j {
        lemma_offset_mono(streams, vc, i, j - 1);
    }
}

impl<'t> MeshVertexData<'t> {
    /// Loads the vertex streams of the mesh for its vertex bytes: the given streams, or
    /// ones laid out from the channels.
    pub fn load_streams(&self) -> (r: Result<Vec<StreamInfo>, UnityError>)
        requires
            streams_fit(self.mesh.vertex_data),
        ensures
            r matches Ok(v) ==> spec_load_streams(self.mesh.vertex_data, self.data@.len()) == Ok::<
                Seq<StreamInfo>,
                UnityError,
            >(v@),
            r matches Err(e) ==> spec_load_streams(self.mesh.vertex_data, self.data@.len()) == Err::<
                Seq<StreamInfo>,
                UnityError,
            >(e),
    {
        let vertex_data = &self.mesh.vertex_data;
        let data = self.data.as_slice();
        if data.len() as u64 > u32::MAX as u64 {
            return Err(UnityError::InvalidData("mesh data size does not fit 32 bits"));
        }
        let data_size = data.len() as u32;
        let channels = &vertex_data.channels;
        let ghost cs = channels@;
        let mut streams: Vec<StreamInfo> = match &vertex_data.streams {
            Some(s) => s.clone(),
            None => Vec::new(),
        };
        let ghost start = streams@;
        assert(start =~= match given_streams(*vertex_data) {
            Some(g) => g,
            None => Seq::<StreamInfo>::empty(),
        });
        let mut max_s: usize = 0;
        let mut k: usize = 0;
        while k < channels.len()
            invariant
                0 <= k <= cs.len(),
                cs == channels@,
                max_s == max_stream(cs.take(k as int)),
            decreases channels.len() - k,
        {
            assert(cs.take(k + 1).drop_last() =~= cs.take(k as int));
            if channels[k].stream as usize > max_s {
                max_s = channels[k].stream as usize;
            }
            k = k + 1;
        }
        assert(cs.take(cs.len() as int) =~= cs);
        proof {
            lemma_max_stream(cs);
        }
        while streams.len() <= max_s
            invariant
                max_s == max_stream(cs),
                max_s <= 255,
                streams@.len() <= max_s + 1 ==> streams@ =~= start + Seq::new(
                    (streams@.len() - start.len()) as nat,
                    |i: int| empty_stream(),
                ),
                start.len() <= streams@.len(),
                streams@.len() > max_s + 1 ==> streams@ == start,
                padded(start, max_s + 1) == (if streams@.len() > max_s {
                    streams@
                } else {
                    padded(streams@, max_s + 1)
                }),
            decreases max_s + 1 - streams.len(),
        {
            streams.push(StreamInfo {
                channel_mask: 0,
                offset: 0,
                stride: 0,
                divider_op: 0,
                frequency: 0,
            });
        }
        assert(streams@ == padded(start, max_s + 1));
        if vertex_data.streams.is_some() {
            return Ok(streams);
        }
        let ghost base = streams@;
        let mut index: usize = 0;
        while index < channels.len()
            invariant
                0 <= index <= cs.len(),
                cs == channels@,
                cs.len() <= 32,
                base.len() == max_s + 1,
                forall|i: int| 0 <= i < cs.len() ==> (#[trigger] cs[i]).stream < base.len(),
                streams@ == fold_channels(base, cs, index as int),
            decreases channels.len() - index,
        {
            let channel = channels[index];
            proof {
                lemma_fold_len(base, cs, index as int);
            }
            let s = streams[channel.stream as usize];
            let cur_size = channel.stride();
            let new_stride = if cur_size > s.stride {
                cur_size
            } else {
                s.stride
            };
            let updated = StreamInfo {
                channel_mask: s.channel_mask | (1u32 << (index as u32)),
                stride: new_stride,
                ..s
            };
            streams.set(channel.stream as usize, updated);
            index = index + 1;
        }
        let ghost st = streams@;
        proof {
            lemma_fold_len(base, cs, cs.len() as int);
        }
        let vc = vertex_data.vertex_count;
        let mut cur_offset: u32 = 0;
        let mut i: usize = 0;
        while i < streams.len()
            invariant
                streams@.len() == st.len(),
                0 <= i <= st.len(),
                offset_before(st, vc, st.len() as int) <= u32::MAX,
                cur_offset == offset_before(st, vc, i as int),
                forall|j: int| 0 <= j < i ==> #[trigger] streams@[j] == with_offsets(st, vc)[j],
                forall|j: int| i <= j < st.len() ==> #[trigger] streams@[j] == st[j],
            decreases streams.len() - i,
        {
            proof {
                lemma_offset_mono(st, vc, i + 1, st.len() as int);
            }
            let s = streams[i];
            streams.set(i, StreamInfo { offset: cur_offset, ..s });
            assert(s.stride * vc <= u32::MAX) by (nonlinear_arith)
                requires
                    cur_offset + s.stride * vc <= u32::MAX,
                    cur_offset >= 0,
            ;
            cur_offset = cur_offset + s.stride * vc;
            i = i + 1;
        }
        assert(streams@ =~= with_offsets(st, vc));
        if cur_offset > data_size {
            return Err(UnityError::InvalidData("mesh channel info specified too much stream data"));
        }
        if streams.len() == 2 {
            let s1 = streams[1];
            proof {
                lemma_offset_mono(st, vc, 2, 2);
                assert(offset_before(st, vc, 2) == offset_before(st, vc, 1) + st[1].stride * vc);
            }
            streams.set(1, StreamInfo { offset: data_size - s1.stride * vc, ..s1 });
        }
        Ok(streams)
    }
}

/// The raw components of one vertex attribute, as stored in the vertex data. Each
/// component is the little-endian value of its `element_size_of(format)` bytes.
/// A `dimension` of 0 means the attribute was not loaded (all zeros).
#[derive(Debug, Clone, Copy, Default, PartialEq, Eq, Structural)]
pub struct VertexAttribute {
    pub format: u8,
    pub dimension: u8,
    pub x: u32,
    pub y: u32,
    pub z: u32,
}

/// A vertex: its position and its texture coordinates.
#[derive(Debug, Clone, Copy, Default, PartialEq, Eq, Structural)]
pub struct Vertex {
    pub pos: VertexAttribute,
    pub uv: VertexAttribute,
}

/// The attribute that was not loaded.
pub open spec fn no_attribute() -> VertexAttribute {
    VertexAttribute { format: 0, dimension: 0, x: 0, y: 0, z: 0 }
}

/// A vertex without attributes.
pub open spec fn empty_vertex() -> Vertex {
    Vertex { pos: no_attribute(), uv: no_attribute() }
}

/// Reading the attribute of `c` at byte `pos` of `data`.
pub open spec fn spec_read_attribute(data: Seq<u8>, pos: int, c: ChannelInfo) -> Result<
    VertexAttribute,
    UnityError,
> {
    let es = element_size_of(c.format) as nat;
    if c.format > 6 {
        Err(UnityError::Unsupported("unsupported mesh data type"))
    } else if pos + c.dimension * es > data.len() {
        Err(UnityError::UnexpectedEof)
    } else {
        Ok(
            VertexAttribute {
                format: c.format,
                dimension: c.dimension,
                x: if c.dimension > 0 {
                    le_value(data, pos, es) as u32
                } else {
                    0
                },
                y: if c.dimension > 1 {
                    le_value(data, pos + es, es) as u32
                } else {
                    0
                },
                z: if c.dimension > 2 {
                    le_value(data, pos + 2 * es, es) as u32
                } else {
                    0
                },
            },
        )
    }
}

/// Where vertex `k` of a sub-mesh has the attribute of channel `c` in stream `s`.
pub open spec fn attribute_pos(s: StreamInfo, sm: SubMesh, c: ChannelInfo, k: int) -> int {
    s.offset + (sm.first_vertex + k) * s.stride + c.offset
}

/// Whether channel `index` is loaded for a sub-mesh: it is the position (channel 0,
/// three components) or a texture coordinate set (channels 3 and 4, one to three
/// components), its stream exists, holds the channel, and lies within the data.
pub open spec fn channel_loads(
    channels: Seq<ChannelInfo>,
    index: int,
    streams: Seq<StreamInfo>,
    sm: SubMesh,
    data_len: nat,
) -> bool {
    let c = channels[index];
    &&& 1 <= c.dimension <= 3
    &&& (index == 0 || index == 3 || index == 4)
    &&& c.stream < streams.len()
    &&& stride_of(c) <= streams[c.stream as int].stride
    &&& streams[c.stream as int].stride * sm.vertex_count + streams[c.stream as int].offset <= data_len
    &&& (index == 0 ==> c.dimension == 3)
}

/// Sets attribute `index`'s slot (position for channel 0, else texture coordinates).
pub open spec fn with_attribute(v: Vertex, index: int, a: VertexAttribute) -> Vertex {
    if index == 0 {
        Vertex { pos: a, ..v }
    } else {
        Vertex { uv: a, ..v }
    }
}

/// The vertices after loading channel `index` into `vs`.
pub open spec fn spec_apply_channel(
    vs: Seq<Vertex>,
    data: Seq<u8>,
    streams: Seq<StreamInfo>,
    sm: SubMesh,
    c: ChannelInfo,
    index: int,
) -> Result<Seq<Vertex>, UnityError> {
    let s = streams[c.stream as int];
    if sm.vertex_count == 0 {
        Ok(vs)
    } else if c.format > 6 {
        Err(UnityError::Unsupported("unsupported mesh data type"))
    } else if exists|k: int|
        0 <= k < sm.vertex_count && #[trigger] spec_read_attribute(data, attribute_pos(s, sm, c, k), c) is Err {
        Err(UnityError::UnexpectedEof)
    } else {
        Ok(
            Seq::new(
                vs.len(),
                |k: int| with_attribute(vs[k], index, spec_read_attribute(data, attribute_pos(s, sm, c, k), c)->Ok_0),
            ),
        )
    }
}

/// The vertices of a sub-mesh after its first `n` channels.
pub open spec fn spec_vertices(
    data: Seq<u8>,
    streams: Seq<StreamInfo>,
    sm: SubMesh,
    channels: Seq<ChannelInfo>,
    n: int,
) -> Result<Seq<Vertex>, UnityError>
    decreases n,
{
    if n <= 0 {
        Ok(Seq::new(sm.vertex_count as nat, |k: int| empty_vertex()))
    } else {
        match spec_vertices(data, streams, sm, channels, n - 1) {
            Err(e) => Err(e),
            Ok(vs) => if channel_loads(channels, n - 1, streams, sm, data.len()) {
                spec_apply_channel(vs, data, streams, sm, channels[n - 1], n - 1)
            } else {
                Ok(vs)
            },
        }
    }
}

/// Once loading a channel failed, the later channels keep that error.
proof fn lemma_vertices_error_stays(
    data: Seq<u8>,
    streams: Seq<StreamInfo>,
    sm: SubMesh,
    channels: Seq<ChannelInfo>,
    n: int,
    m: int,
)
    requires
        0 <= n <= m,
        spec_vertices(data, streams, sm, channels, n) is Err,
    ensures
        spec_vertices(data, streams, sm, channels, m) == spec_vertices(data, streams, sm, channels, n),
    decreases m - n,
{
    if n < m {
        lemma_vertices_error_stays(data, streams, sm, channels, n, m - 1);
    }
}

/// Reads the attribute of `c` at byte `pos` of `data`.
fn read_attribute(data: &[u8], pos: u64, c: ChannelInfo) -> (r: Result<VertexAttribute, UnityError>)
    ensures
        r matches Ok(a) ==> spec_read_attribute(data@, pos as int, c) == Ok::<VertexAttribute, UnityError>(a),
        r matches Err(e) ==> spec_read_attribute(data@, pos as int, c) == Err::<VertexAttribute, UnityError>(e),
{
    if c.format > 6 {
        return Err(UnityError::Unsupported("unsupported mesh data type"));
    }
    let es = c.element_size() as u64;
    let size = c.dimension as u64 * es;
    assert(size <= 1020) by (nonlinear_arith)
        requires
            size == c.dimension * es,
            c.dimension <= 255,
            es <= 4,
    ;
    if pos > data.len() as u64 || size > data.len() as u64 - pos {
        return Err(UnityError::UnexpectedEof);
    }
    let mut reader = super::reader::Reader { data, pos };
    let mut comps: [u32; 3] = [0, 0, 0];
    let mut k: u8 = 0;
    while k < c.dimension && k < 3
        invariant
            reader.data@ == data@,
            0 <= k <= 3,
            k <= c.dimension,
            es == element_size_of(c.format),
            1 <= es <= 4,
            pos + c.dimension * es <= data@.len(),
            reader.pos == pos + k * es,
            forall|m: int| 0 <= m < k ==> #[trigger] comps@[m] == le_value(data@, pos + m * es, es as nat),
            forall|m: int| k <= m < 3 ==> #[trigger] comps@[m] == 0,
        decreases 3 - k,
    {
        assert(reader.pos + es <= data@.len()) by (nonlinear_arith)
            requires
                reader.pos == pos + k * es,
                k < c.dimension,
                pos + c.dimension * es <= data@.len(),
        ;
        let v = match reader.read_uint(es as usize, false) {
            Ok(v) => v,
            Err(e) => {
                return Err(e);
            },
        };
        proof {
            super::reader::lemma_uint_bound(data@, pos + k * es, es as nat, false);
            vstd::arithmetic::power2::lemma2_to64();
        }
        comps.set(k as usize, v as u32);
        assert(reader.pos == pos + (k + 1) * es) by (nonlinear_arith)
            requires
                reader.pos == pos + k * es + es,
        ;
        k = k + 1;
    }
    Ok(VertexAttribute { format: c.format, dimension: c.dimension, x: comps[0], y: comps[1], z: comps[2] })
}

/// Loads channel `index` of a sub-mesh into its vertices.
fn apply_channel(
    vs: &mut Vec<Vertex>,
    data: &[u8],
    streams: &Vec<StreamInfo>,
    sm: SubMesh,
    c: ChannelInfo,
    index: usize,
) -> (r: Result<(), UnityError>)
    requires
        old(vs)@.len() == sm.vertex_count,
        c.stream < streams@.len(),
        sm.first_vertex + sm.vertex_count <= 0x1_0000_0000,
    ensures
        r is Ok ==> spec_apply_channel(old(vs)@, data@, streams@, sm, c, index as int) == Ok::<
            Seq<Vertex>,
            UnityError,
        >(final(vs)@),
        r matches Err(e) ==> spec_apply_channel(old(vs)@, data@, streams@, sm, c, index as int)
            == Err::<Seq<Vertex>, UnityError>(e),
{
    let ghost before = vs@;
    let s = streams[c.stream as usize];
    let vc = sm.vertex_count;
    if vc == 0 {
        return Ok(());
    }
    if c.format > 6 {
        return Err(UnityError::Unsupported("unsupported mesh data type"));
    }
    let mut k: u32 = 0;
    while k < vc
        invariant
            before.len() == vc,
            vc == sm.vertex_count,
            s == streams@[c.stream as int],
            c.format <= 6,
            sm.first_vertex + sm.vertex_count <= 0x1_0000_0000,
            vs@.len() == vc,
            0 <= k <= vc,
            forall|m: int| 0 <= m < k ==> #[trigger] spec_read_attribute(data@, attribute_pos(s, sm, c, m), c) is Ok,
            forall|m: int|
                0 <= m < k ==> #[trigger] vs@[m] == with_attribute(
                    before[m],
                    index as int,
                    spec_read_attribute(data@, attribute_pos(s, sm, c, m), c)->Ok_0,
                ),
            forall|m: int| k <= m < vc ==> #[trigger] vs@[m] == before[m],
        decreases vc - k,
    {
        let vertex = sm.first_vertex + k;
        assert((vertex as u64) * (s.stride as u64) <= 0xFFFF_FFFE_0000_0001u64) by (nonlinear_arith)
            requires
                vertex <= 0xFFFF_FFFFu64,
                s.stride <= 0xFFFF_FFFFu64,
        ;
        let pos = s.offset as u64 + (vertex as u64) * (s.stride as u64) + c.offset as u64;
        let a = match read_attribute(data, pos, c) {
            Ok(a) => a,
            Err(e) => {
                proof {
                    assert(spec_read_attribute(data@, attribute_pos(s, sm, c, k as int), c) is Err);
                }
                return Err(e);
            },
        };
        let old_v = vs[k as usize];
        let new_v = if index == 0 {
            Vertex { pos: a, ..old_v }
        } else {
            Vertex { uv: a, ..old_v }
        };
        vs.set(k as usize, new_v);
        k = k + 1;
    }
    proof {
        assert(!(exists|k: int|
            0 <= k < sm.vertex_count && #[trigger] spec_read_attribute(data@, attribute_pos(s, sm, c, k), c)
                is Err));
        assert(vs@ =~= Seq::new(
            before.len(),
            |k: int|
                with_attribute(
                    before[k],
                    index as int,
                    spec_read_attribute(data@, attribute_pos(s, sm, c, k), c)->Ok_0,
                ),
        ));
    }
    Ok(())
}

/// Whether channel `index` is loaded for a sub-mesh.
fn loads_channel(
    channels: &Vec<ChannelInfo>,
    index: usize,
    streams: &Vec<StreamInfo>,
    sm: SubMesh,
    data_len: usize,
) -> (r: bool)
    requires
        index < channels@.len(),
    ensures
        r == channel_loads(channels@, index as int, streams@, sm, data_len as nat),
{
    let c = channels[index];
    if !(1 <= c.dimension && c.dimension <= 3) {
        return false;
    }
    if !(index == 0 || index == 3 || index == 4) {
        return false;
    }
    if c.stream as usize >= streams.len() {
        return false;
    }
    let s = streams[c.stream as usize];
    assert((s.stride as u64) * (sm.vertex_count as u64) <= 0xFFFF_FFFE_0000_0001u64) by (nonlinear_arith)
        requires
            s.stride <= 0xFFFF_FFFFu64,
            sm.vertex_count <= 0xFFFF_FFFFu64,
    ;
    let stream_size = (s.stride as u64) * (sm.vertex_count as u64) + s.offset as u64;
    if c.stride() > s.stride || stream_size > data_len as u64 {
        return false;
    }
    !(index == 0 && c.dimension != 3)
}

/// Loads the vertices of a sub-mesh.
pub(crate) fn resolve_vertices(
    data: &[u8],
    streams: &Vec<StreamInfo>,
    sm: SubMesh,
    channels: &Vec<ChannelInfo>,
) -> (r: Result<Vec<Vertex>, UnityError>)
    requires
        sm.first_vertex + sm.vertex_count <= 0x1_0000_0000,
    ensures
        r matches Ok(v) ==> spec_vertices(data@, streams@, sm, channels@, channels@.len() as int) == Ok::<
            Seq<Vertex>,
            UnityError,
        >(v@),
        r matches Err(e) ==> spec_vertices(data@, streams@, sm, channels@, channels@.len() as int) == Err::<
            Seq<Vertex>,
            UnityError,
        >(e),
{
    let mut vs: Vec<Vertex> = Vec::new();
    let vc = sm.vertex_count as usize;
    let mut k: usize = 0;
    while k < vc
        invariant
            vc == sm.vertex_count,
            0 <= k <= vc,
            vs@ =~= Seq::new(k as nat, |m: int| empty_vertex()),
        decreases vc - k,
    {
        vs.push(Vertex::default_vertex());
        k = k + 1;
    }
    let mut index: usize = 0;
    while index < channels.len()
        invariant
            sm.first_vertex + sm.vertex_count <= 0x1_0000_0000,
            0 <= index <= channels@.len(),
            spec_vertices(data@, streams@, sm, channels@, index as int) == Ok::<Seq<Vertex>, UnityError>(vs@),
            vs@.len() == sm.vertex_count,
        decreases channels.len() - index,
    {
        if loads_channel(channels, index, streams, sm, data.len()) {
            let ghost before = vs@;
            let c = channels[index];
            match apply_channel(&mut vs, data, streams, sm, c, index) {
                Ok(()) => {
                    proof {
                        if sm.vertex_count > 0 {
                            assert(vs@.len() == before.len());
                        }
                    }
                },
                Err(e) => {
                    proof {
                        lemma_vertices_error_stays(
                            data@,
                            streams@,
                            sm,
                            channels@,
                            index as int + 1,
                            channels@.len() as int,
                        );
                    }
                    return Err(e);
                },
            }
        }
        index = index + 1;
    }
    Ok(vs)
}

impl Vertex {
    /// A vertex without attributes.
    pub fn default_vertex() -> (r: Vertex)
        ensures
            r == empty_vertex(),
    {
        let a = VertexAttribute { format: 0, dimension: 0, x: 0, y: 0, z: 0 };
        Vertex { pos: a, uv: a }
    }
}

} // verus!
