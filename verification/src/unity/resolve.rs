use vstd::prelude::*;
use super::error::UnityError;
use super::mesh::{
    empty_stream, fold_channels, lemma_fold_len, lemma_max_stream, max_stream, offset_before, padded,
    resolve_vertices, spec_index_buffer, spec_load_streams, spec_vertices, stride_of, streams_fit,
    ChannelInfo, Mesh, MeshVertexData, StreamInfo, SubMesh, Vertex, VertexData,
};

verus! {

/// The part of the index buffer a sub-mesh uses: `index_count` indices from index
/// `first_byte / index_size` on, cut off at the end of the buffer.
pub open spec fn index_window(indices: Seq<u32>, index_size: u32, sm: SubMesh) -> Seq<u32> {
    let off = (sm.first_byte / index_size) as int;
    let start = if off < indices.len() {
        off
    } else {
        indices.len() as int
    };
    let rest = indices.len() - start;
    let end = if sm.index_count < rest {
        start + sm.index_count
    } else {
        indices.len() as int
    };
    indices.subrange(start, end)
}

/// The vertex a sub-mesh's index refers to, counted from the sub-mesh's first vertex.
pub open spec fn vertex_of(sm: SubMesh, index: u32) -> usize {
    (index + sm.base_vertex - sm.first_vertex) as usize
}

/// Triangle `t` of a window of indices: three consecutive indices, with the first
/// and the last swapped on every other triangle of a strip topology (counted from
/// the window's offset in the buffer).
pub open spec fn triangle_at(w: Seq<u32>, t: int, sm: SubMesh, parity: int) -> (usize, usize, usize) {
    let a = vertex_of(sm, w[3 * t]);
    let b = vertex_of(sm, w[3 * t + 1]);
    let c = vertex_of(sm, w[3 * t + 2]);
    if sm.topology != 0 && (parity + t) % 2 == 1 {
        (c, b, a)
    } else {
        (a, b, c)
    }
}

/// The triangles of a sub-mesh; a trailing incomplete triangle is dropped.
pub open spec fn spec_triangles(indices: Seq<u32>, index_size: u32, sm: SubMesh) -> Seq<(usize, usize, usize)> {
    let w = index_window(indices, index_size, sm);
    let parity = ((sm.first_byte / index_size) % 2) as int;
    Seq::new(w.len() / 3, |t: int| triangle_at(w, t, sm, parity))
}

/// Every index of a complete triangle of the sub-mesh, moved by the sub-mesh's base
/// vertex, fits in 32 bits and lies at or after its first vertex (else the vertex
/// arithmetic overflows).
pub open spec fn triangles_fit(indices: Seq<u32>, index_size: u32, sm: SubMesh) -> bool {
    let w = index_window(indices, index_size, sm);
    forall|j: int|
        0 <= j < 3 * (w.len() / 3) ==> sm.first_vertex <= #[trigger] w[j] + sm.base_vertex <= u32::MAX
}

/// Builds the triangles of a sub-mesh from the decoded index buffer.
fn build_triangles(indices: &Vec<u32>, index_size: u32, sm: SubMesh) -> (r: Vec<(usize, usize, usize)>)
    requires
        index_size == 2 || index_size == 4,
        triangles_fit(indices@, index_size, sm),
    ensures
        r@ == spec_triangles(indices@, index_size, sm),
{
    let ghost w = index_window(indices@, index_size, sm);
    let off = sm.first_byte / index_size;
    let len = indices.len();
    let start: usize = if (off as u64) < (len as u64) {
        off as usize
    } else {
        len
    };
    let rest = len - start;
    let take: usize = if (sm.index_count as u64) < (rest as u64) {
        sm.index_count as usize
    } else {
        rest
    };
    assert(w =~= indices@.subrange(start as int, start + take));
    let n = take / 3;
    let parity = off % 2;
    let mut out: Vec<(usize, usize, usize)> = Vec::new();
    let mut t: usize = 0;
    while t < n
        invariant
            w == indices@.subrange(start as int, start + take),
            start + take <= indices@.len(),
            len == indices@.len(),
            n == take / 3,
            n == w.len() / 3,
            parity == (sm.first_byte / index_size) % 2,
            triangles_fit(indices@, index_size, sm),
            w == index_window(indices@, index_size, sm),
            0 <= t <= n,
            out@.len() == t,
            forall|k: int| 0 <= k < t ==> #[trigger] out@[k] == triangle_at(w, k, sm, parity as int),
        decreases n - t,
    {
        assert(3 * t + 3 <= take) by (nonlinear_arith)
            requires
                t < n,
                n == take / 3,
        ;
        let j = start + 3 * t;
        assert(w[3 * t as int] == indices@[j as int]);
        assert(w[3 * t + 1] == indices@[j + 1]);
        assert(w[3 * t + 2] == indices@[j + 2]);
        let i0 = indices[j];
        let i1 = indices[j + 1];
        let i2 = indices[j + 2];
        assert(sm.first_vertex <= w[3 * t as int] + sm.base_vertex <= u32::MAX);
        assert(sm.first_vertex <= w[3 * t + 1] + sm.base_vertex <= u32::MAX);
        assert(sm.first_vertex <= w[3 * t + 2] + sm.base_vertex <= u32::MAX);
        let a = (i0 + sm.base_vertex - sm.first_vertex) as usize;
        let b = (i1 + sm.base_vertex - sm.first_vertex) as usize;
        let c = (i2 + sm.base_vertex - sm.first_vertex) as usize;
        let odd = (parity as usize + t) % 2 == 1;
        let tri = if sm.topology != 0 && odd {
            (c, b, a)
        } else {
            (a, b, c)
        };
        out.push(tri);
        t = t + 1;
    }
    assert(out@ =~= spec_triangles(indices@, index_size, sm));
    out
}

/// A sub-mesh with its vertices loaded and its triangles as triples of vertex
/// positions in `vertices`.
#[derive(Debug, Clone)]
pub struct ResolvedMesh {
    vertices: Vec<Vertex>,
    triangle_data: Vec<(usize, usize, usize)>,
}

impl View for ResolvedMesh {
    type V = (Seq<Vertex>, Seq<(usize, usize, usize)>);

    closed spec fn view(&self) -> (Seq<Vertex>, Seq<(usize, usize, usize)>) {
        (self.vertices@, self.triangle_data@)
    }
}

/// Every triangle refers to vertices that exist.
pub open spec fn triangles_in_bounds(m: (Seq<Vertex>, Seq<(usize, usize, usize)>)) -> bool {
    forall|t: int|
        0 <= t < m.1.len() ==> {
            &&& (#[trigger] m.1[t]).0 < m.0.len()
            &&& m.1[t].1 < m.0.len()
            &&& m.1[t].2 < m.0.len()
        }
}

impl ResolvedMesh {
    /// The sub-mesh's vertices.
    pub fn vertices(&self) -> (r: &[Vertex])
        ensures
            r@ == self@.0,
    {
        self.vertices.as_slice()
    }

    /// Whether every triangle refers to vertices that exist.
    pub fn triangles_valid(&self) -> (r: bool)
        ensures
            r == triangles_in_bounds(self@),
    {
        let n = self.vertices.len();
        let mut t: usize = 0;
        while t < self.triangle_data.len()
            invariant
                n == self@.0.len(),
                0 <= t <= self@.1.len(),
                forall|k: int|
                    0 <= k < t ==> {
                        &&& (#[trigger] self@.1[k]).0 < self@.0.len()
                        &&& self@.1[k].1 < self@.0.len()
                        &&& self@.1[k].2 < self@.0.len()
                    },
            decreases self@.1.len() - t,
        {
            let tri = self.triangle_data[t];
            assert(tri == self@.1[t as int]);
            if tri.0 >= n || tri.1 >= n || tri.2 >= n {
                return false;
            }
            t = t + 1;
        }
        true
    }

    /// The sub-mesh's triangles, each as its three vertices.
    pub fn triangles(&self) -> (r: Vec<(Vertex, Vertex, Vertex)>)
        requires
            triangles_in_bounds(self@),
        ensures
            r@.len() == self@.1.len(),
            forall|t: int|
                0 <= t < r@.len() ==> #[trigger] r@[t] == (
                    self@.0[self@.1[t].0 as int],
                    self@.0[self@.1[t].1 as int],
                    self@.0[self@.1[t].2 as int],
                ),
    {
        let mut out: Vec<(Vertex, Vertex, Vertex)> = Vec::new();
        let mut t: usize = 0;
        while t < self.triangle_data.len()
            invariant
                triangles_in_bounds(self@),
                0 <= t <= self@.1.len(),
                out@.len() == t,
                forall|k: int|
                    0 <= k < t ==> #[trigger] out@[k] == (
                        self@.0[self@.1[k].0 as int],
                        self@.0[self@.1[k].1 as int],
                        self@.0[self@.1[k].2 as int],
                    ),
            decreases self@.1.len() - t,
        {
            let tri = self.triangle_data[t];
            assert(tri == self@.1[t as int]);
            out.push((self.vertices[tri.0], self.vertices[tri.1], self.vertices[tri.2]));
            t = t + 1;
        }
        out
    }
}

/// The resolved sub-meshes `0..n`, or the first error.
pub open spec fn spec_resolve_subs(
    data: Seq<u8>,
    streams: Seq<StreamInfo>,
    channels: Seq<ChannelInfo>,
    indices: Seq<u32>,
    index_size: u32,
    sub_meshes: Seq<SubMesh>,
    n: int,
) -> Result<Seq<(Seq<Vertex>, Seq<(usize, usize, usize)>)>, UnityError>
    decreases n,
{
    if n <= 0 {
        Ok(Seq::empty())
    } else {
        match spec_resolve_subs(data, streams, channels, indices, index_size, sub_meshes, n - 1) {
            Err(e) => Err(e),
            Ok(done) => {
                let sm = sub_meshes[n - 1];
                match spec_vertices(data, streams, sm, channels, channels.len() as int) {
                    Err(e) => Err(e),
                    Ok(vs) => Ok(done.push((vs, spec_triangles(indices, index_size, sm)))),
                }
            },
        }
    }
}

/// The sub-meshes of a mesh resolved against its vertex bytes `data`.
pub open spec fn spec_resolve_meshes(mesh: Mesh, data: Seq<u8>) -> Result<
    Seq<(Seq<Vertex>, Seq<(usize, usize, usize)>)>,
    UnityError,
> {
    match spec_index_buffer(mesh.index_format, mesh.index_buffer@) {
        Err(e) => Err(e),
        Ok((index_size, indices)) => match spec_load_streams(mesh.vertex_data, data.len()) {
            Err(e) => Err(e),
            Ok(streams) => spec_resolve_subs(
                data,
                streams,
                mesh.vertex_data.channels@,
                indices,
                index_size,
                mesh.sub_meshes@,
                mesh.sub_meshes@.len() as int,
            ),
        },
    }
}

/// What resolving a mesh needs to stay within the integer widths it computes in:
/// the computed stream layout fits, each sub-mesh's vertices are numbered in 32 bits,
/// and its triangles' indices fit (see `triangles_fit`).
pub open spec fn mesh_fits(mesh: Mesh) -> bool {
    &&& streams_fit(mesh.vertex_data)
    &&& forall|i: int|
        0 <= i < mesh.sub_meshes@.len() ==> (#[trigger] mesh.sub_meshes@[i]).first_vertex
            + mesh.sub_meshes@[i].vertex_count <= 0x1_0000_0000
    &&& (spec_index_buffer(mesh.index_format, mesh.index_buffer@) matches Ok((size, indices))
        ==> forall|i: int|
        0 <= i < mesh.sub_meshes@.len() ==> triangles_fit(indices, size, #[trigger] mesh.sub_meshes@[i]))
}

impl<'t> MeshVertexData<'t> {
    /// Resolves every sub-mesh: its vertices (positions from channel 0, texture
    /// coordinates from channels 3 and 4) and its triangles.
    pub fn resolve_meshes(&self) -> (r: Result<Vec<ResolvedMesh>, UnityError>)
        requires
            mesh_fits(*self.mesh),
        ensures
            r matches Ok(v) ==> spec_resolve_meshes(*self.mesh, self.data@) == Ok::<
                Seq<(Seq<Vertex>, Seq<(usize, usize, usize)>)>,
                UnityError,
            >(Seq::new(v@.len(), |i: int| v@[i]@)),
            r matches Err(e) ==> spec_resolve_meshes(*self.mesh, self.data@) == Err::<
                Seq<(Seq<Vertex>, Seq<(usize, usize, usize)>)>,
                UnityError,
            >(e),
            r matches Ok(v) ==> v@.len() == self.mesh.sub_meshes@.len(),
            r matches Ok(v) ==> forall|i: int|
                0 <= i < v@.len() ==> (#[trigger] v@[i])@.0.len() == self.mesh.sub_meshes@[i].vertex_count,
    {
        proof {
            lemma_resolved_vertex_counts(*self.mesh, self.data@);
        }
        let mesh = self.mesh;
        let (index_size, indices) = match self.load_index_buffer() {
            Ok(x) => x,
            Err(e) => {
                return Err(e);
            },
        };
        let streams = match self.load_streams() {
            Ok(s) => s,
            Err(e) => {
                return Err(e);
            },
        };
        let channels = &mesh.vertex_data.channels;
        let subs = &mesh.sub_meshes;
        let mut result: Vec<ResolvedMesh> = Vec::new();
        let mut i: usize = 0;
        assert(Seq::new(0nat, |k: int| result@[k]@) =~= Seq::<(Seq<Vertex>, Seq<(usize, usize, usize)>)>::empty());
        while i < subs.len()
            invariant
                mesh_fits(*mesh),
                mesh == self.mesh,
                subs@ == mesh.sub_meshes@,
                channels@ == mesh.vertex_data.channels@,
                spec_load_streams(mesh.vertex_data, self.data@.len()) == Ok::<Seq<StreamInfo>, UnityError>(
                    streams@,
                ),
                spec_index_buffer(mesh.index_format, mesh.index_buffer@) == Ok::<(u32, Seq<u32>), UnityError>(
                    (index_size, indices@),
                ),
                index_size == 2 || index_size == 4,
                0 <= i <= subs@.len(),
                result@.len() == i,
                spec_resolve_subs(self.data@, streams@, channels@, indices@, index_size, subs@, i as int)
                    == Ok::<Seq<(Seq<Vertex>, Seq<(usize, usize, usize)>)>, UnityError>(
                    Seq::new(i as nat, |k: int| result@[k]@),
                ),
            decreases subs@.len() - i,
        {
            let sm = subs[i];
            assert(mesh.sub_meshes@[i as int] == sm);
            assert(sm.first_vertex + sm.vertex_count <= 0x1_0000_0000);
            let vertices = match resolve_vertices(self.data.as_slice(), &streams, sm, channels) {
                Ok(v) => v,
                Err(e) => {
                    proof {
                        assert(subs@[i as int] == sm);
                        assert(spec_resolve_subs(
                            self.data@,
                            streams@,
                            channels@,
                            indices@,
                            index_size,
                            subs@,
                            i as int + 1,
                        ) == Err::<Seq<(Seq<Vertex>, Seq<(usize, usize, usize)>)>, UnityError>(e));
                        lemma_resolve_error_stays(
                            self.data@,
                            streams@,
                            channels@,
                            indices@,
                            index_size,
                            subs@,
                            i as int + 1,
                            subs@.len() as int,
                        );
                        assert(spec_resolve_meshes(*mesh, self.data@) == spec_resolve_subs(
                            self.data@,
                            streams@,
                            channels@,
                            indices@,
                            index_size,
                            subs@,
                            subs@.len() as int,
                        ));
                    }
                    return Err(e);
                },
            };
            assert(triangles_fit(indices@, index_size, subs@[i as int]));
            let triangle_data = build_triangles(&indices, index_size, sm);
            let ghost before = result@;
            result.push(ResolvedMesh { vertices, triangle_data });
            assert(Seq::new((i + 1) as nat, |k: int| result@[k]@) =~= Seq::new(i as nat, |k: int| before[k]@).push(
                (vertices@, triangle_data@),
            ));
            i = i + 1;
        }
        proof {
            let ms = Seq::new(result@.len(), |k: int| result@[k]@);
            assert forall|k: int| 0 <= k < result@.len() implies (#[trigger] result@[k])@.0.len()
                == mesh.sub_meshes@[k].vertex_count by {
                assert(ms[k] == result@[k]@);
            }
        }
        Ok(result)
    }
}

/// A sub-mesh's vertices, when they resolve, are `vertex_count` many.
pub proof fn lemma_vertex_count(
    data: Seq<u8>,
    streams: Seq<StreamInfo>,
    sm: SubMesh,
    channels: Seq<ChannelInfo>,
    n: int,
)
    ensures
        spec_vertices(data, streams, sm, channels, n) matches Ok(vs) ==> vs.len() == sm.vertex_count,
    decreases n,
{
    if n > 0 {
        lemma_vertex_count(data, streams, sm, channels, n - 1);
    }
}

proof fn lemma_resolve_subs_counts(
    data: Seq<u8>,
    streams: Seq<StreamInfo>,
    channels: Seq<ChannelInfo>,
    indices: Seq<u32>,
    index_size: u32,
    sub_meshes: Seq<SubMesh>,
    n: int,
)
    requires
        0 <= n,
    ensures
        spec_resolve_subs(data, streams, channels, indices, index_size, sub_meshes, n) matches Ok(done) ==> {
            &&& done.len() == n
            &&& forall|i: int| 0 <= i < n ==> (#[trigger] done[i]).0.len() == sub_meshes[i].vertex_count
            &&& forall|i: int| 0 <= i < n ==> (#[trigger] done[i]).1 == spec_triangles(indices, index_size, sub_meshes[i])
        },
    decreases n,
{
    if n > 0 {
        lemma_resolve_subs_counts(data, streams, channels, indices, index_size, sub_meshes, n - 1);
        lemma_vertex_count(data, streams, sub_meshes[n - 1], channels, channels.len() as int);
    }
}

/// Resolving a mesh gives one vertex list per sub-mesh, and the list of sub-mesh `i`
/// has that sub-mesh's `vertex_count` vertices.
pub proof fn lemma_resolved_vertex_counts(mesh: Mesh, data: Seq<u8>)
    ensures
        spec_resolve_meshes(mesh, data) matches Ok(ms) ==> {
            &&& ms.len() == mesh.sub_meshes@.len()
            &&& forall|i: int|
                0 <= i < ms.len() ==> (#[trigger] ms[i]).0.len() == mesh.sub_meshes@[i].vertex_count
        },
{
    if let Ok((index_size, indices)) = spec_index_buffer(mesh.index_format, mesh.index_buffer@) {
        if let Ok(streams) = spec_load_streams(mesh.vertex_data, data.len()) {
            lemma_resolve_subs_counts(
                data,
                streams,
                mesh.vertex_data.channels@,
                indices,
                index_size,
                mesh.sub_meshes@,
                mesh.sub_meshes@.len() as int,
            );
        }
    }
}

/// Whether every index that a complete triangle of sub-mesh `sm` uses, moved by its
/// base vertex, names one of the sub-mesh's own vertices.
pub open spec fn indices_within(indices: Seq<u32>, index_size: u32, sm: SubMesh) -> bool {
    let w = index_window(indices, index_size, sm);
    forall|j: int|
        0 <= j < 3 * (w.len() / 3) ==> sm.first_vertex <= #[trigger] w[j] + sm.base_vertex < sm.first_vertex
            + sm.vertex_count
}

/// Triangle corners count from the sub-mesh's first vertex: where a sub-mesh's
/// indices (moved by its base vertex) lie among its own vertices, every triangle of
/// the resolved sub-mesh refers to vertices it has.
pub proof fn lemma_triangles_reach_own_vertices(mesh: Mesh, data: Seq<u8>)
    ensures
        spec_resolve_meshes(mesh, data) matches Ok(ms) ==> forall|i: int|
            0 <= i < ms.len() && (spec_index_buffer(mesh.index_format, mesh.index_buffer@) matches Ok((size, indices))
                && indices_within(indices, size, mesh.sub_meshes@[i])) ==> triangles_in_bounds(#[trigger] ms[i]),
{
    if let Ok((index_size, indices)) = spec_index_buffer(mesh.index_format, mesh.index_buffer@) {
        if let Ok(streams) = spec_load_streams(mesh.vertex_data, data.len()) {
            let n = mesh.sub_meshes@.len() as int;
            lemma_resolve_subs_counts(
                data,
                streams,
                mesh.vertex_data.channels@,
                indices,
                index_size,
                mesh.sub_meshes@,
                n,
            );
            if let Ok(ms) = spec_resolve_meshes(mesh, data) {
                assert forall|i: int|
                    0 <= i < ms.len() && indices_within(indices, index_size, mesh.sub_meshes@[i]) implies triangles_in_bounds(
                    #[trigger] ms[i],
                ) by {
                    let sm = mesh.sub_meshes@[i];
                    let w = index_window(indices, index_size, sm);
                    let parity = ((sm.first_byte / index_size) % 2) as int;
                    let tris = ms[i].1;
                    assert(tris == spec_triangles(indices, index_size, sm));
                    assert forall|t: int| 0 <= t < tris.len() implies {
                        &&& (#[trigger] tris[t]).0 < ms[i].0.len()
                        &&& tris[t].1 < ms[i].0.len()
                        &&& tris[t].2 < ms[i].0.len()
                    } by {
                        assert(tris[t] == triangle_at(w, t, sm, parity));
                        assert(3 * t + 2 < 3 * (w.len() / 3));
                        let x = w[3 * t];
                        let y = w[3 * t + 1];
                        let z = w[3 * t + 2];
                        assert(sm.first_vertex <= x + sm.base_vertex < sm.first_vertex + sm.vertex_count);
                        assert(sm.first_vertex <= y + sm.base_vertex < sm.first_vertex + sm.vertex_count);
                        assert(sm.first_vertex <= z + sm.base_vertex < sm.first_vertex + sm.vertex_count);
                    }
                }
            }
        }
    }
}

/// Once a sub-mesh failed to resolve, the later ones keep that error.
proof fn lemma_resolve_error_stays(
    data: Seq<u8>,
    streams: Seq<StreamInfo>,
    channels: Seq<ChannelInfo>,
    indices: Seq<u32>,
    index_size: u32,
    sub_meshes: Seq<SubMesh>,
    n: int,
    m: int,
)
    requires
        0 <= n <= m,
        spec_resolve_subs(data, streams, channels, indices, index_size, sub_meshes, n) is Err,
    ensures
        spec_resolve_subs(data, streams, channels, indices, index_size, sub_meshes, m) == spec_resolve_subs(
            data,
            streams,
            channels,
            indices,
            index_size,
            sub_meshes,
            n,
        ),
    decreases m - n,
{
    if n < m {
        lemma_resolve_error_stays(data, streams, channels, indices, index_size, sub_meshes, n, m - 1);
    }
}

/// Whether the stream layout that the channels give fits in 32 bits (`streams_fit`).
pub fn streams_fit_check(vd: &VertexData) -> (r: bool)
    ensures
        r == streams_fit(*vd),
{
    if vd.streams.is_some() {
        return true;
    }
    let channels = &vd.channels;
    let ghost cs = channels@;
    if channels.len() > 32 {
        return false;
    }
    let mut max_s: usize = 0;
    let mut k: usize = 0;
    while k < channels.len()
        invariant
            0 <= k <= cs.len(),
            cs == channels@,
            max_s == max_stream(cs.take(k as int)),
        decreases channels.len() - k,
    {
        assert(cs.take(k + 1).drop_last() =~= cs.take(k as int));
        if channels[k].stream as usize > max_s {
            max_s = channels[k].stream as usize;
        }
        k = k + 1;
    }
    assert(cs.take(cs.len() as int) =~= cs);
    proof {
        lemma_max_stream(cs);
    }
    let mut streams: Vec<StreamInfo> = Vec::new();
    while streams.len() <= max_s
        invariant
            max_s <= 255,
            streams@.len() <= max_s + 1,
            streams@ =~= Seq::new(streams@.len(), |i: int| empty_stream()),
        decreases max_s + 1 - streams.len(),
    {
        streams.push(StreamInfo { channel_mask: 0, offset: 0, stride: 0, divider_op: 0, frequency: 0 });
    }
    let ghost base = streams@;
    assert(base =~= padded(Seq::empty(), max_s + 1));
    let mut index: usize = 0;
    while index < channels.len()
        invariant
            0 <= index <= cs.len(),
            cs == channels@,
            cs.len() <= 32,
            base.len() == max_s + 1,
            forall|i: int| 0 <= i < cs.len() ==> (#[trigger] cs[i]).stream < base.len(),
            streams@ == fold_channels(base, cs, index as int),
        decreases channels.len() - index,
    {
        let channel = channels[index];
        proof {
            lemma_fold_len(base, cs, index as int);
        }
        let s = streams[channel.stream as usize];
        let cur_size = channel.stride();
        let new_stride = if cur_size > s.stride {
            cur_size
        } else {
            s.stride
        };
        streams.set(
            channel.stream as usize,
            StreamInfo { channel_mask: s.channel_mask | (1u32 << (index as u32)), stride: new_stride, ..s },
        );
        index = index + 1;
    }
    proof {
        lemma_fold_len(base, cs, cs.len() as int);
    }
    let ghost st = streams@;
    let vc = vd.vertex_count;
    let mut total: u128 = 0;
    let mut i: usize = 0;
    while i < streams.len()
        invariant
            streams@ == st,
            st.len() <= 256,
            0 <= i <= st.len(),
            total == offset_before(st, vc, i as int),
            total <= i * 0xFFFF_FFFF_FFFF_FFFF,
        decreases streams.len() - i,
    {
        let stride = streams[i].stride;
        assert((stride as u128) * (vc as u128) <= 0xFFFF_FFFF_FFFF_FFFF) by (nonlinear_arith)
            requires
                stride <= 0xFFFF_FFFFu32,
                vc <= 0xFFFF_FFFFu32,
        ;
        total = total + (stride as u128) * (vc as u128);
        i = i + 1;
    }
    total <= u32::MAX as u128
}

/// Whether a sub-mesh's triangles stay within 32-bit vertex numbers (`triangles_fit`).
pub fn triangles_fit_check(indices: &Vec<u32>, index_size: u32, sm: SubMesh) -> (r: bool)
    requires
        index_size == 2 || index_size == 4,
    ensures
        r == triangles_fit(indices@, index_size, sm),
{
    let ghost w = index_window(indices@, index_size, sm);
    let off = sm.first_byte / index_size;
    let len = indices.len();
    let start: usize = if (off as u64) < (len as u64) {
        off as usize
    } else {
        len
    };
    let rest = len - start;
    let take: usize = if (sm.index_count as u64) < (rest as u64) {
        sm.index_count as usize
    } else {
        rest
    };
    assert(w =~= indices@.subrange(start as int, start + take));
    let n = 3 * (take / 3);
    let mut j: usize = 0;
    while j < n
        invariant
            w == indices@.subrange(start as int, start + take),
            start + take <= indices@.len(),
            n == 3 * (w.len() / 3),
            n <= take,
            len == indices@.len(),
            w == index_window(indices@, index_size, sm),
            0 <= j <= n,
            forall|k: int| 0 <= k < j ==> sm.first_vertex <= #[trigger] w[k] + sm.base_vertex <= u32::MAX,
        decreases n - j,
    {
        let v = indices[start + j] as u64 + sm.base_vertex as u64;
        assert(w[j as int] == indices@[start + j]);
        if v < sm.first_vertex as u64 || v > u32::MAX as u64 {
            assert(!(sm.first_vertex <= w[j as int] + sm.base_vertex <= u32::MAX));
            return false;
        }
        j = j + 1;
    }
    true
}

/// Whether resolving a mesh stays within the integer widths it computes in
/// (`mesh_fits`).
pub fn mesh_fits_check(mesh: &Mesh) -> (r: bool)
    ensures
        r == mesh_fits(*mesh),
{
    if !streams_fit_check(&mesh.vertex_data) {
        return false;
    }
    let subs = &mesh.sub_meshes;
    let mut i: usize = 0;
    while i < subs.len()
        invariant
            0 <= i <= subs@.len(),
            subs@ == mesh.sub_meshes@,
            forall|k: int| 0 <= k < i ==> (#[trigger] subs@[k]).first_vertex + subs@[k].vertex_count <= 0x1_0000_0000,
        decreases subs@.len() - i,
    {
        if subs[i].first_vertex as u64 + subs[i].vertex_count as u64 > 0x1_0000_0000 {
            return false;
        }
        i = i + 1;
    }
    let probe = MeshVertexData { mesh, data: Vec::new() };
    match probe.load_index_buffer() {
        Err(_) => true,
        Ok((size, indices)) => {
            let mut i: usize = 0;
            while i < subs.len()
                invariant
                    0 <= i <= subs@.len(),
                    subs@ == mesh.sub_meshes@,
                    size == 2 || size == 4,
                    spec_index_buffer(mesh.index_format, mesh.index_buffer@) == Ok::<(u32, Seq<u32>), UnityError>(
                        (size, indices@),
                    ),
                    forall|k: int| 0 <= k < i ==> triangles_fit(indices@, size, #[trigger] subs@[k]),
                decreases subs@.len() - i,
            {
                if !triangles_fit_check(&indices, size, subs[i]) {
                    assert(!triangles_fit(indices@, size, mesh.sub_meshes@[i as int]));
                    return false;
                }
                i = i + 1;
            }
            true
        },
    }
}

} // verus!
