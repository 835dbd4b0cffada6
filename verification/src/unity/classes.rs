use vstd::prelude::*;
use super::class::{
    align_reader, mismatch, skip, sp_after, sp_skip_node, str_is, UnityClass,
};
use super::error::{ErrorView, UnityError};
use super::mesh::{ChannelInfo, Mesh, StreamInfo, SubMesh, VertexData};
use super::reader::Reader;
use super::streaming_info::{Offset, StreamingInfo};
use super::texture2d::Texture2D;
use super::tree::{
    lemma_split_views, lemma_subtree_end_v, node_views, split_tree, split_views, subtree_end_v, NodeView,
    TypeTreeNode,
};

verus! {

/// A `ChannelInfo` with every field at its default.
pub open spec fn empty_channelinfo_model() -> ChannelInfo {
    ChannelInfo { stream: 0, offset: 0, format: 0, dimension: 0 }
}

/// Reading the fields of a `ChannelInfo` from the sibling subtrees `rest`: a subtree
/// named like a field is read as that field, any other is skipped.
pub open spec fn sp_fields_channel_info(d: Seq<u8>, pos: int, big: bool, rest: Seq<NodeView>, acc: ChannelInfo) -> Result<
    (ChannelInfo, int),
    ErrorView,
>
    decreases rest.len(),
{
    match split_views(rest) {
        None => Ok((acc, pos)),
        Some((next, children, siblings)) => {
            proof {
                lemma_subtree_end_v(rest, rest[0].level, 1);
            }
            let step = if next.name == "stream"@ {
                match <u8 as UnityClass>::sp_parse(d, pos, big, next, children) {
                    Err(e) => Err(e),
                    Ok((v, p)) => Ok((ChannelInfo { stream: v, ..acc }, p)),
                }
            } else if next.name == "offset"@ {
                match <u8 as UnityClass>::sp_parse(d, pos, big, next, children) {
                    Err(e) => Err(e),
                    Ok((v, p)) => Ok((ChannelInfo { offset: v, ..acc }, p)),
                }
            } else if next.name == "format"@ {
                match <u8 as UnityClass>::sp_parse(d, pos, big, next, children) {
                    Err(e) => Err(e),
                    Ok((v, p)) => Ok((ChannelInfo { format: v, ..acc }, p)),
                }
            } else if next.name == "dimension"@ {
                match <u8 as UnityClass>::sp_parse(d, pos, big, next, children) {
                    Err(e) => Err(e),
                    Ok((v, p)) => Ok((ChannelInfo { dimension: v, ..acc }, p)),
                }
            } else {
                match sp_skip_node(d, pos, big, next, children) {
                    Err(e) => Err(e),
                    Ok(p) => Ok((acc, p)),
                }
            };
            match step {
                Err(e) => Err(e),
                Ok((a, p)) => sp_fields_channel_info(d, p, big, siblings, a),
            }
        },
    }
}

impl ChannelInfo {
    /// A `ChannelInfo` with every field at its default.
    pub fn empty_value() -> (r: ChannelInfo)
        ensures
            r.model() == empty_channelinfo_model(),
    {
        ChannelInfo { stream: 0, offset: 0, format: 0, dimension: 0 }
    }
}

impl UnityClass for ChannelInfo {
    type Model = ChannelInfo;

    open spec fn model(&self) -> ChannelInfo {
        *self
    }

    /// A `ChannelInfo` node: its fields from its children, then its alignment.
    open spec fn sp_parse(d: Seq<u8>, pos: int, big: bool, root: NodeView, tree: Seq<NodeView>) -> Result<
        (ChannelInfo, int),
        ErrorView,
    > {
        if root.type_string != "ChannelInfo"@ {
            Err(ErrorView::Mismatch("ChannelInfo"@, root.type_string))
        } else {
            match sp_fields_channel_info(d, pos, big, tree, empty_channelinfo_model()) {
                Err(e) => Err(e),
                Ok((m, p)) => match sp_after(root, p) {
                    Err(e) => Err(e),
                    Ok(p2) => Ok((m, p2)),
                },
            }
        }
    }

    #[verifier::loop_isolation(false)]
    fn parse_tree(r: &mut Reader, big: bool, root: &TypeTreeNode, tree: &[TypeTreeNode]) -> (res: Result<
        ChannelInfo,
        UnityError,
    >) {
        if !str_is(&root.type_string, "ChannelInfo") {
            return Err(mismatch("ChannelInfo", root));
        }
        let ghost d = r.data@;
        let ghost p0 = r.pos as int;
        let mut result = ChannelInfo::empty_value();
        let mut rest = tree;
        let mut done = false;
        while !done
            invariant
                r.data@ == d,
                r.data == old(r).data,
                rest@.len() <= tree@.len(),
                sp_fields_channel_info(d, p0, big, node_views(tree@), empty_channelinfo_model()) == sp_fields_channel_info(
                    d,
                    r.pos as int,
                    big,
                    node_views(rest@),
                    result.model(),
                ),
                done ==> split_views(node_views(rest@)) is None,
            decreases rest@.len() + if done {
                0int
            } else {
                1int
            },
        {
            proof {
                lemma_split_views(rest@);
            }
            match split_tree(rest) {
                None => {
                    done = true;
                },
                Some((next, children, siblings)) => {
                    proof {
                        lemma_subtree_end_v(node_views(rest@), node_views(rest@)[0].level, 1);
                        assert(node_views(siblings@).len() == siblings@.len());
                    }
                    if str_is(&next.name, "stream") {
                        result.stream = <u8 as UnityClass>::parse_tree(r, big, next, children)?;
                    } else if str_is(&next.name, "offset") {
                        result.offset = <u8 as UnityClass>::parse_tree(r, big, next, children)?;
                    } else if str_is(&next.name, "format") {
                        result.format = <u8 as UnityClass>::parse_tree(r, big, next, children)?;
                    } else if str_is(&next.name, "dimension") {
                        result.dimension = <u8 as UnityClass>::parse_tree(r, big, next, children)?;
                    } else {
                        skip(r, big, next, children)?;
                    }
                    rest = siblings;
                },
            }
        }
        align_reader(r, root)?;
        Ok(result)
    }
}

/// A `StreamInfo` with every field at its default.
pub open spec fn empty_streaminfo_model() -> StreamInfo {
    StreamInfo { channel_mask: 0, offset: 0, stride: 0, divider_op: 0, frequency: 0 }
}

/// Reading the fields of a `StreamInfo` from the sibling subtrees `rest`: a subtree
/// named like a field is read as that field, any other is skipped.
pub open spec fn sp_fields_stream_info(d: Seq<u8>, pos: int, big: bool, rest: Seq<NodeView>, acc: StreamInfo) -> Result<
    (StreamInfo, int),
    ErrorView,
>
    decreases rest.len(),
{
    match split_views(rest) {
        None => Ok((acc, pos)),
        Some((next, children, siblings)) => {
            proof {
                lemma_subtree_end_v(rest, rest[0].level, 1);
            }
            let step = if next.name == "channelMask"@ {
                match <u32 as UnityClass>::sp_parse(d, pos, big, next, children) {
                    Err(e) => Err(e),
                    Ok((v, p)) => Ok((StreamInfo { channel_mask: v, ..acc }, p)),
                }
            } else if next.name == "offset"@ {
                match <u32 as UnityClass>::sp_parse(d, pos, big, next, children) {
                    Err(e) => Err(e),
                    Ok((v, p)) => Ok((StreamInfo { offset: v, ..acc }, p)),
                }
            } else if next.name == "stride"@ {
                match <u32 as UnityClass>::sp_parse(d, pos, big, next, children) {
                    Err(e) => Err(e),
                    Ok((v, p)) => Ok((StreamInfo { stride: v, ..acc }, p)),
                }
            } else if next.name == "dividerOp"@ {
                match <u32 as UnityClass>::sp_parse(d, pos, big, next, children) {
                    Err(e) => Err(e),
                    Ok((v, p)) => Ok((StreamInfo { divider_op: v, ..acc }, p)),
                }
            } else if next.name == "frequency"@ {
                match <u32 as UnityClass>::sp_parse(d, pos, big, next, children) {
                    Err(e) => Err(e),
                    Ok((v, p)) => Ok((StreamInfo { frequency: v, ..acc }, p)),
                }
            } else {
                match sp_skip_node(d, pos, big, next, children) {
                    Err(e) => Err(e),
                    Ok(p) => Ok((acc, p)),
                }
            };
            match step {
                Err(e) => Err(e),
                Ok((a, p)) => sp_fields_stream_info(d, p, big, siblings, a),
            }
        },
    }
}

impl StreamInfo {
    /// A `StreamInfo` with every field at its default.
    pub fn empty_value() -> (r: StreamInfo)
        ensures
            r.model() == empty_streaminfo_model(),
    {
        StreamInfo { channel_mask: 0, offset: 0, stride: 0, divider_op: 0, frequency: 0 }
    }
}

impl UnityClass for StreamInfo {
    type Model = StreamInfo;

    open spec fn model(&self) -> StreamInfo {
        *self
    }

    /// A `StreamInfo` node: its fields from its children, then its alignment.
    open spec fn sp_parse(d: Seq<u8>, pos: int, big: bool, root: NodeView, tree: Seq<NodeView>) -> Result<
        (StreamInfo, int),
        ErrorView,
    > {
        if root.type_string != "StreamInfo"@ {
            Err(ErrorView::Mismatch("StreamInfo"@, root.type_string))
        } else {
            match sp_fields_stream_info(d, pos, big, tree, empty_streaminfo_model()) {
                Err(e) => Err(e),
                Ok((m, p)) => match sp_after(root, p) {
                    Err(e) => Err(e),
                    Ok(p2) => Ok((m, p2)),
                },
            }
        }
    }

    #[verifier::loop_isolation(false)]
    fn parse_tree(r: &mut Reader, big: bool, root: &TypeTreeNode, tree: &[TypeTreeNode]) -> (res: Result<
        StreamInfo,
        UnityError,
    >) {
        if !str_is(&root.type_string, "StreamInfo") {
            return Err(mismatch("StreamInfo", root));
        }
        let ghost d = r.data@;
        let ghost p0 = r.pos as int;
        let mut result = StreamInfo::empty_value();
        let mut rest = tree;
        let mut done = false;
        while !done
            invariant
                r.data@ == d,
                r.data == old(r).data,
                rest@.len() <= tree@.len(),
                sp_fields_stream_info(d, p0, big, node_views(tree@), empty_streaminfo_model()) == sp_fields_stream_info(
                    d,
                    r.pos as int,
                    big,
                    node_views(rest@),
                    result.model(),
                ),
                done ==> split_views(node_views(rest@)) is None,
            decreases rest@.len() + if done {
                0int
            } else {
                1int
            },
        {
            proof {
                lemma_split_views(rest@);
            }
            match split_tree(rest) {
                None => {
                    done = true;
                },
                Some((next, children, siblings)) => {
                    proof {
                        lemma_subtree_end_v(node_views(rest@), node_views(rest@)[0].level, 1);
                        assert(node_views(siblings@).len() == siblings@.len());
                    }
                    if str_is(&next.name, "channelMask") {
                        result.channel_mask = <u32 as UnityClass>::parse_tree(r, big, next, children)?;
                    } else if str_is(&next.name, "offset") {
                        result.offset = <u32 as UnityClass>::parse_tree(r, big, next, children)?;
                    } else if str_is(&next.name, "stride") {
                        result.stride = <u32 as UnityClass>::parse_tree(r, big, next, children)?;
                    } else if str_is(&next.name, "dividerOp") {
                        result.divider_op = <u32 as UnityClass>::parse_tree(r, big, next, children)?;
                    } else if str_is(&next.name, "frequency") {
                        result.frequency = <u32 as UnityClass>::parse_tree(r, big, next, children)?;
                    } else {
                        skip(r, big, next, children)?;
                    }
                    rest = siblings;
                },
            }
        }
        align_reader(r, root)?;
        Ok(result)
    }
}

/// A `SubMesh` with every field at its default.
pub open spec fn empty_submesh_model() -> SubMesh {
    SubMesh { first_byte: 0, index_count: 0, topology: 0, base_vertex: 0, first_vertex: 0, vertex_count: 0 }
}

/// Reading the fields of a `SubMesh` from the sibling subtrees `rest`: a subtree
/// named like a field is read as that field, any other is skipped.
pub open spec fn sp_fields_sub_mesh(d: Seq<u8>, pos: int, big: bool, rest: Seq<NodeView>, acc: SubMesh) -> Result<
    (SubMesh, int),
    ErrorView,
>
    decreases rest.len(),
{
    match split_views(rest) {
        None => Ok((acc, pos)),
        Some((next, children, siblings)) => {
            proof {
                lemma_subtree_end_v(rest, rest[0].level, 1);
            }
            let step = if next.name == "firstByte"@ {
                match <u32 as UnityClass>::sp_parse(d, pos, big, next, children) {
                    Err(e) => Err(e),
                    Ok((v, p)) => Ok((SubMesh { first_byte: v, ..acc }, p)),
                }
            } else if next.name == "indexCount"@ {
                match <u32 as UnityClass>::sp_parse(d, pos, big, next, children) {
                    Err(e) => Err(e),
                    Ok((v, p)) => Ok((SubMesh { index_count: v, ..acc }, p)),
                }
            } else if next.name == "topology"@ {
                match <i32 as UnityClass>::sp_parse(d, pos, big, next, children) {
                    Err(e) => Err(e),
                    Ok((v, p)) => Ok((SubMesh { topology: v, ..acc }, p)),
                }
            } else if next.name == "baseVertex"@ {
                match <u32 as UnityClass>::sp_parse(d, pos, big, next, children) {
                    Err(e) => Err(e),
                    Ok((v, p)) => Ok((SubMesh { base_vertex: v, ..acc }, p)),
                }
            } else if next.name == "firstVertex"@ {
                match <u32 as UnityClass>::sp_parse(d, pos, big, next, children) {
                    Err(e) => Err(e),
                    Ok((v, p)) => Ok((SubMesh { first_vertex: v, ..acc }, p)),
                }
            } else if next.name == "vertexCount"@ {
                match <u32 as UnityClass>::sp_parse(d, pos, big, next, children) {
                    Err(e) => Err(e),
                    Ok((v, p)) => Ok((SubMesh { vertex_count: v, ..acc }, p)),
                }
            } else {
                match sp_skip_node(d, pos, big, next, children) {
                    Err(e) => Err(e),
                    Ok(p) => Ok((acc, p)),
                }
            };
            match step {
                Err(e) => Err(e),
                Ok((a, p)) => sp_fields_sub_mesh(d, p, big, siblings, a),
            }
        },
    }
}

impl SubMesh {
    /// A `SubMesh` with every field at its default.
    pub fn empty_value() -> (r: SubMesh)
        ensures
            r.model() == empty_submesh_model(),
    {
        SubMesh { first_byte: 0, index_count: 0, topology: 0, base_vertex: 0, first_vertex: 0, vertex_count: 0 }
    }
}

impl UnityClass for SubMesh {
    type Model = SubMesh;

    open spec fn model(&self) -> SubMesh {
        *self
    }

    /// A `SubMesh` node: its fields from its children, then its alignment.
    open spec fn sp_parse(d: Seq<u8>, pos: int, big: bool, root: NodeView, tree: Seq<NodeView>) -> Result<
        (SubMesh, int),
        ErrorView,
    > {
        if root.type_string != "SubMesh"@ {
            Err(ErrorView::Mismatch("SubMesh"@, root.type_string))
        } else {
            match sp_fields_sub_mesh(d, pos, big, tree, empty_submesh_model()) {
                Err(e) => Err(e),
                Ok((m, p)) => match sp_after(root, p) {
                    Err(e) => Err(e),
                    Ok(p2) => Ok((m, p2)),
                },
            }
        }
    }

    #[verifier::loop_isolation(false)]
    fn parse_tree(r: &mut Reader, big: bool, root: &TypeTreeNode, tree: &[TypeTreeNode]) -> (res: Result<
        SubMesh,
        UnityError,
    >) {
        if !str_is(&root.type_string, "SubMesh") {
            return Err(mismatch("SubMesh", root));
        }
        let ghost d = r.data@;
        let ghost p0 = r.pos as int;
        let mut result = SubMesh::empty_value();
        let mut rest = tree;
        let mut done = false;
        while !done
            invariant
                r.data@ == d,
                r.data == old(r).data,
                rest@.len() <= tree@.len(),
                sp_fields_sub_mesh(d, p0, big, node_views(tree@), empty_submesh_model()) == sp_fields_sub_mesh(
                    d,
                    r.pos as int,
                    big,
                    node_views(rest@),
                    result.model(),
                ),
                done ==> split_views(node_views(rest@)) is None,
            decreases rest@.len() + if done {
                0int
            } else {
                1int
            },
        {
            proof {
                lemma_split_views(rest@);
            }
            match split_tree(rest) {
                None => {
                    done = true;
                },
                Some((next, children, siblings)) => {
                    proof {
                        lemma_subtree_end_v(node_views(rest@), node_views(rest@)[0].level, 1);
                        assert(node_views(siblings@).len() == siblings@.len());
                    }
                    if str_is(&next.name, "firstByte") {
                        result.first_byte = <u32 as UnityClass>::parse_tree(r, big, next, children)?;
                    } else if str_is(&next.name, "indexCount") {
                        result.index_count = <u32 as UnityClass>::parse_tree(r, big, next, children)?;
                    } else if str_is(&next.name, "topology") {
                        result.topology = <i32 as UnityClass>::parse_tree(r, big, next, children)?;
                    } else if str_is(&next.name, "baseVertex") {
                        result.base_vertex = <u32 as UnityClass>::parse_tree(r, big, next, children)?;
                    } else if str_is(&next.name, "firstVertex") {
                        result.first_vertex = <u32 as UnityClass>::parse_tree(r, big, next, children)?;
                    } else if str_is(&next.name, "vertexCount") {
                        result.vertex_count = <u32 as UnityClass>::parse_tree(r, big, next, children)?;
                    } else {
                        skip(r, big, next, children)?;
                    }
                    rest = siblings;
                },
            }
        }
        align_reader(r, root)?;
        Ok(result)
    }
}

/// A `StreamingInfo` as a value.
pub struct StreamingInfoModel {
    pub offset: u64,
    pub size: u32,
    pub path: Seq<char>,
}

/// The model of a `StreamingInfo` with every field at its default.
pub open spec fn empty_streaminginfo_model() -> StreamingInfoModel {
    StreamingInfoModel { offset: 0, size: 0, path: Seq::<char>::empty() }
}

/// Reading the fields of a `StreamingInfo` from the sibling subtrees `rest`: a subtree
/// named like a field is read as that field, any other is skipped.
pub open spec fn sp_fields_streaming_info(d: Seq<u8>, pos: int, big: bool, rest: Seq<NodeView>, acc: StreamingInfoModel) -> Result<
    (StreamingInfoModel, int),
    ErrorView,
>
    decreases rest.len(),
{
    match split_views(rest) {
        None => Ok((acc, pos)),
        Some((next, children, siblings)) => {
            proof {
                lemma_subtree_end_v(rest, rest[0].level, 1);
            }
            let step = if next.name == "offset"@ {
                match <Offset as UnityClass>::sp_parse(d, pos, big, next, children) {
                    Err(e) => Err(e),
                    Ok((v, p)) => Ok((StreamingInfoModel { offset: v, ..acc }, p)),
                }
            } else if next.name == "size"@ {
                match <u32 as UnityClass>::sp_parse(d, pos, big, next, children) {
                    Err(e) => Err(e),
                    Ok((v, p)) => Ok((StreamingInfoModel { size: v, ..acc }, p)),
                }
            } else if next.name == "path"@ {
                match <String as UnityClass>::sp_parse(d, pos, big, next, children) {
                    Err(e) => Err(e),
                    Ok((v, p)) => Ok((StreamingInfoModel { path: v, ..acc }, p)),
                }
            } else {
                match sp_skip_node(d, pos, big, next, children) {
                    Err(e) => Err(e),
                    Ok(p) => Ok((acc, p)),
                }
            };
            match step {
                Err(e) => Err(e),
                Ok((a, p)) => sp_fields_streaming_info(d, p, big, siblings, a),
            }
        },
    }
}

impl StreamingInfo {
    /// A `StreamingInfo` with every field at its default.
    pub fn empty_value() -> (r: StreamingInfo)
        ensures
            r.model() == empty_streaminginfo_model(),
    {
        StreamingInfo { offset: Offset(0), size: 0, path: String::new() }
    }
}

impl UnityClass for StreamingInfo {
    type Model = StreamingInfoModel;

    open spec fn model(&self) -> StreamingInfoModel {
        StreamingInfoModel { offset: self.offset.model(), size: self.size, path: self.path.model() }
    }

    /// A `StreamingInfo` node: its fields from its children, then its alignment.
    open spec fn sp_parse(d: Seq<u8>, pos: int, big: bool, root: NodeView, tree: Seq<NodeView>) -> Result<
        (StreamingInfoModel, int),
        ErrorView,
    > {
        if root.type_string != "StreamingInfo"@ {
            Err(ErrorView::Mismatch("StreamingInfo"@, root.type_string))
        } else {
            match sp_fields_streaming_info(d, pos, big, tree, empty_streaminginfo_model()) {
                Err(e) => Err(e),
                Ok((m, p)) => match sp_after(root, p) {
                    Err(e) => Err(e),
                    Ok(p2) => Ok((m, p2)),
                },
            }
        }
    }

    #[verifier::loop_isolation(false)]
    fn parse_tree(r: &mut Reader, big: bool, root: &TypeTreeNode, tree: &[TypeTreeNode]) -> (res: Result<
        StreamingInfo,
        UnityError,
    >) {
        if !str_is(&root.type_string, "StreamingInfo") {
            return Err(mismatch("StreamingInfo", root));
        }
        let ghost d = r.data@;
        let ghost p0 = r.pos as int;
        let mut result = StreamingInfo::empty_value();
        let mut rest = tree;
        let mut done = false;
        while !done
            invariant
                r.data@ == d,
                r.data == old(r).data,
                rest@.len() <= tree@.len(),
                sp_fields_streaming_info(d, p0, big, node_views(tree@), empty_streaminginfo_model()) == sp_fields_streaming_info(
                    d,
                    r.pos as int,
                    big,
                    node_views(rest@),
                    result.model(),
                ),
                done ==> split_views(node_views(rest@)) is None,
            decreases rest@.len() + if done {
                0int
            } else {
                1int
            },
        {
            proof {
                lemma_split_views(rest@);
            }
            match split_tree(rest) {
                None => {
                    done = true;
                },
                Some((next, children, siblings)) => {
                    proof {
                        lemma_subtree_end_v(node_views(rest@), node_views(rest@)[0].level, 1);
                        assert(node_views(siblings@).len() == siblings@.len());
                    }
                    if str_is(&next.name, "offset") {
                        result.offset = <Offset as UnityClass>::parse_tree(r, big, next, children)?;
                    } else if str_is(&next.name, "size") {
                        result.size = <u32 as UnityClass>::parse_tree(r, big, next, children)?;
                    } else if str_is(&next.name, "path") {
                        result.path = <String as UnityClass>::parse_tree(r, big, next, children)?;
                    } else {
                        skip(r, big, next, children)?;
                    }
                    rest = siblings;
                },
            }
        }
        align_reader(r, root)?;
        Ok(result)
    }
}

/// A `VertexData` as a value.
pub struct VertexDataModel {
    pub vertex_count: u32,
    pub channels: Seq<ChannelInfo>,
    pub data_size: Seq<u8>,
    pub streams: Option<Seq<StreamInfo>>,
}

/// The model of a `VertexData` with every field at its default.
pub open spec fn empty_vertexdata_model() -> VertexDataModel {
    VertexDataModel { vertex_count: 0, channels: Seq::<ChannelInfo>::empty(), data_size: Seq::<u8>::empty(), streams: None }
}

/// Reading the fields of a `VertexData` from the sibling subtrees `rest`: a subtree
/// named like a field is read as that field, any other is skipped.
pub open spec fn sp_fields_vertex_data(d: Seq<u8>, pos: int, big: bool, rest: Seq<NodeView>, acc: VertexDataModel) -> Result<
    (VertexDataModel, int),
    ErrorView,
>
    decreases rest.len(),
{
    match split_views(rest) {
        None => Ok((acc, pos)),
        Some((next, children, siblings)) => {
            proof {
                lemma_subtree_end_v(rest, rest[0].level, 1);
            }
            let step = if next.name == "m_VertexCount"@ {
                match <u32 as UnityClass>::sp_parse(d, pos, big, next, children) {
                    Err(e) => Err(e),
                    Ok((v, p)) => Ok((VertexDataModel { vertex_count: v, ..acc }, p)),
                }
            } else if next.name == "m_Channels"@ {
                match <Vec<ChannelInfo> as UnityClass>::sp_parse(d, pos, big, next, children) {
                    Err(e) => Err(e),
                    Ok((v, p)) => Ok((VertexDataModel { channels: v, ..acc }, p)),
                }
            } else if next.name == "m_DataSize"@ {
                match <Vec<u8> as UnityClass>::sp_parse(d, pos, big, next, children) {
                    Err(e) => Err(e),
                    Ok((v, p)) => Ok((VertexDataModel { data_size: v, ..acc }, p)),
                }
            } else if next.name == "m_Streams"@ {
                match <Option<Vec<StreamInfo>> as UnityClass>::sp_parse(d, pos, big, next, children) {
                    Err(e) => Err(e),
                    Ok((v, p)) => Ok((VertexDataModel { streams: v, ..acc }, p)),
                }
            } else {
                match sp_skip_node(d, pos, big, next, children) {
                    Err(e) => Err(e),
                    Ok(p) => Ok((acc, p)),
                }
            };
            match step {
                Err(e) => Err(e),
                Ok((a, p)) => sp_fields_vertex_data(d, p, big, siblings, a),
            }
        },
    }
}

impl VertexData {
    /// A `VertexData` with every field at its default.
    pub fn empty_value() -> (r: VertexData)
        ensures
            r.model() == empty_vertexdata_model(),
    {
        let r = VertexData { vertex_count: 0, channels: Vec::new(), data_size: Vec::new(), streams: None };
        assert(r.channels.model() =~= Seq::<ChannelInfo>::empty());
        assert(r.data_size.model() =~= Seq::<u8>::empty());
        r
    }
}

impl UnityClass for VertexData {
    type Model = VertexDataModel;

    open spec fn model(&self) -> VertexDataModel {
        VertexDataModel { vertex_count: self.vertex_count, channels: self.channels.model(), data_size: self.data_size.model(), streams: self.streams.model() }
    }

    /// A `VertexData` node: its fields from its children, then its alignment.
    open spec fn sp_parse(d: Seq<u8>, pos: int, big: bool, root: NodeView, tree: Seq<NodeView>) -> Result<
        (VertexDataModel, int),
        ErrorView,
    > {
        if root.type_string != "VertexData"@ {
            Err(ErrorView::Mismatch("VertexData"@, root.type_string))
        } else {
            match sp_fields_vertex_data(d, pos, big, tree, empty_vertexdata_model()) {
                Err(e) => Err(e),
                Ok((m, p)) => match sp_after(root, p) {
                    Err(e) => Err(e),
                    Ok(p2) => Ok((m, p2)),
                },
            }
        }
    }

    #[verifier::loop_isolation(false)]
    fn parse_tree(r: &mut Reader, big: bool, root: &TypeTreeNode, tree: &[TypeTreeNode]) -> (res: Result<
        VertexData,
        UnityError,
    >) {
        if !str_is(&root.type_string, "VertexData") {
            return Err(mismatch("VertexData", root));
        }
        let ghost d = r.data@;
        let ghost p0 = r.pos as int;
        let mut result = VertexData::empty_value();
        let mut rest = tree;
        let mut done = false;
        while !done
            invariant
                r.data@ == d,
                r.data == old(r).data,
                rest@.len() <= tree@.len(),
                sp_fields_vertex_data(d, p0, big, node_views(tree@), empty_vertexdata_model()) == sp_fields_vertex_data(
                    d,
                    r.pos as int,
                    big,
                    node_views(rest@),
                    result.model(),
                ),
                done ==> split_views(node_views(rest@)) is None,
            decreases rest@.len() + if done {
                0int
            } else {
                1int
            },
        {
            proof {
                lemma_split_views(rest@);
            }
            match split_tree(rest) {
                None => {
                    done = true;
                },
                Some((next, children, siblings)) => {
                    proof {
                        lemma_subtree_end_v(node_views(rest@), node_views(rest@)[0].level, 1);
                        assert(node_views(siblings@).len() == siblings@.len());
                    }
                    if str_is(&next.name, "m_VertexCount") {
                        result.vertex_count = <u32 as UnityClass>::parse_tree(r, big, next, children)?;
                    } else if str_is(&next.name, "m_Channels") {
                        result.channels = <Vec<ChannelInfo> as UnityClass>::parse_tree(r, big, next, children)?;
                    } else if str_is(&next.name, "m_DataSize") {
                        result.data_size = <Vec<u8> as UnityClass>::parse_tree(r, big, next, children)?;
                    } else if str_is(&next.name, "m_Streams") {
                        result.streams = <Option<Vec<StreamInfo>> as UnityClass>::parse_tree(r, big, next, children)?;
                    } else {
                        skip(r, big, next, children)?;
                    }
                    rest = siblings;
                },
            }
        }
        align_reader(r, root)?;
        Ok(result)
    }
}

/// A `Texture2D` as a value.
pub struct Texture2DModel {
    pub name: Seq<char>,
    pub width: i32,
    pub height: i32,
    pub format: i32,
    pub image_data: Seq<u8>,
    pub stream_data: StreamingInfoModel,
}

/// The model of a `Texture2D` with every field at its default.
pub open spec fn empty_texture2d_model() -> Texture2DModel {
    Texture2DModel { name: Seq::<char>::empty(), width: 0, height: 0, format: 0, image_data: Seq::<u8>::empty(), stream_data: empty_streaminginfo_model() }
}

/// Reading the fields of a `Texture2D` from the sibling subtrees `rest`: a subtree
/// named like a field is read as that field, any other is skipped.
pub open spec fn sp_fields_texture2d(d: Seq<u8>, pos: int, big: bool, rest: Seq<NodeView>, acc: Texture2DModel) -> Result<
    (Texture2DModel, int),
    ErrorView,
>
    decreases rest.len(),
{
    match split_views(rest) {
        None => Ok((acc, pos)),
        Some((next, children, siblings)) => {
            proof {
                lemma_subtree_end_v(rest, rest[0].level, 1);
            }
            let step = if next.name == "m_Name"@ {
                match <String as UnityClass>::sp_parse(d, pos, big, next, children) {
                    Err(e) => Err(e),
                    Ok((v, p)) => Ok((Texture2DModel { name: v, ..acc }, p)),
                }
            } else if next.name == "m_Width"@ {
                match <i32 as UnityClass>::sp_parse(d, pos, big, next, children) {
                    Err(e) => Err(e),
                    Ok((v, p)) => Ok((Texture2DModel { width: v, ..acc }, p)),
                }
            } else if next.name == "m_Height"@ {
                match <i32 as UnityClass>::sp_parse(d, pos, big, next, children) {
                    Err(e) => Err(e),
                    Ok((v, p)) => Ok((Texture2DModel { height: v, ..acc }, p)),
                }
            } else if next.name == "m_TextureFormat"@ {
                match <i32 as UnityClass>::sp_parse(d, pos, big, next, children) {
                    Err(e) => Err(e),
                    Ok((v, p)) => Ok((Texture2DModel { format: v, ..acc }, p)),
                }
            } else if next.name == "image data"@ {
                match <Vec<u8> as UnityClass>::sp_parse(d, pos, big, next, children) {
                    Err(e) => Err(e),
                    Ok((v, p)) => Ok((Texture2DModel { image_data: v, ..acc }, p)),
                }
            } else if next.name == "m_StreamData"@ {
                match <StreamingInfo as UnityClass>::sp_parse(d, pos, big, next, children) {
                    Err(e) => Err(e),
                    Ok((v, p)) => Ok((Texture2DModel { stream_data: v, ..acc }, p)),
                }
            } else {
                match sp_skip_node(d, pos, big, next, children) {
                    Err(e) => Err(e),
                    Ok(p) => Ok((acc, p)),
                }
            };
            match step {
                Err(e) => Err(e),
                Ok((a, p)) => sp_fields_texture2d(d, p, big, siblings, a),
            }
        },
    }
}

impl Texture2D {
    /// A `Texture2D` with every field at its default.
    pub fn empty_value() -> (r: Texture2D)
        ensures
            r.model() == empty_texture2d_model(),
    {
        let r = Texture2D {
            name: String::new(),
            width: 0,
            height: 0,
            format: 0,
            image_data: Vec::new(),
            stream_data: StreamingInfo::empty_value(),
        };
        assert(r.image_data.model() =~= Seq::<u8>::empty());
        r
    }
}

impl UnityClass for Texture2D {
    type Model = Texture2DModel;

    open spec fn model(&self) -> Texture2DModel {
        Texture2DModel { name: self.name.model(), width: self.width, height: self.height, format: self.format, image_data: self.image_data.model(), stream_data: self.stream_data.model() }
    }

    /// A `Texture2D` node: its fields from its children, then its alignment.
    open spec fn sp_parse(d: Seq<u8>, pos: int, big: bool, root: NodeView, tree: Seq<NodeView>) -> Result<
        (Texture2DModel, int),
        ErrorView,
    > {
        if root.type_string != "Texture2D"@ {
            Err(ErrorView::Mismatch("Texture2D"@, root.type_string))
        } else {
            match sp_fields_texture2d(d, pos, big, tree, empty_texture2d_model()) {
                Err(e) => Err(e),
                Ok((m, p)) => match sp_after(root, p) {
                    Err(e) => Err(e),
                    Ok(p2) => Ok((m, p2)),
                },
            }
        }
    }

    #[verifier::loop_isolation(false)]
    fn parse_tree(r: &mut Reader, big: bool, root: &TypeTreeNode, tree: &[TypeTreeNode]) -> (res: Result<
        Texture2D,
        UnityError,
    >) {
        if !str_is(&root.type_string, "Texture2D") {
            return Err(mismatch("Texture2D", root));
        }
        let ghost d = r.data@;
        let ghost p0 = r.pos as int;
        let mut result = Texture2D::empty_value();
        let mut rest = tree;
        let mut done = false;
        while !done
            invariant
                r.data@ == d,
                r.data == old(r).data,
                rest@.len() <= tree@.len(),
                sp_fields_texture2d(d, p0, big, node_views(tree@), empty_texture2d_model()) == sp_fields_texture2d(
                    d,
                    r.pos as int,
                    big,
                    node_views(rest@),
                    result.model(),
                ),
                done ==> split_views(node_views(rest@)) is None,
            decreases rest@.len() + if done {
                0int
            } else {
                1int
            },
        {
            proof {
                lemma_split_views(rest@);
            }
            match split_tree(rest) {
                None => {
                    done = true;
                },
                Some((next, children, siblings)) => {
                    proof {
                        lemma_subtree_end_v(node_views(rest@), node_views(rest@)[0].level, 1);
                        assert(node_views(siblings@).len() == siblings@.len());
                    }
                    if str_is(&next.name, "m_Name") {
                        result.name = <String as UnityClass>::parse_tree(r, big, next, children)?;
                    } else if str_is(&next.name, "m_Width") {
                        result.width = <i32 as UnityClass>::parse_tree(r, big, next, children)?;
                    } else if str_is(&next.name, "m_Height") {
                        result.height = <i32 as UnityClass>::parse_tree(r, big, next, children)?;
                    } else if str_is(&next.name, "m_TextureFormat") {
                        result.format = <i32 as UnityClass>::parse_tree(r, big, next, children)?;
                    } else if str_is(&next.name, "image data") {
                        result.image_data = <Vec<u8> as UnityClass>::parse_tree(r, big, next, children)?;
                    } else if str_is(&next.name, "m_StreamData") {
                        result.stream_data = <StreamingInfo as UnityClass>::parse_tree(r, big, next, children)?;
                    } else {
                        skip(r, big, next, children)?;
                    }
                    rest = siblings;
                },
            }
        }
        align_reader(r, root)?;
        Ok(result)
    }
}

/// A `Mesh` as a value.
pub struct MeshModel {
    pub name: Seq<char>,
    pub sub_meshes: Seq<SubMesh>,
    pub index_format: i32,
    pub index_buffer: Seq<u8>,
    pub vertex_data: VertexDataModel,
    pub stream_data: StreamingInfoModel,
}

/// The model of a `Mesh` with every field at its default.
pub open spec fn empty_mesh_model() -> MeshModel {
    MeshModel { name: Seq::<char>::empty(), sub_meshes: Seq::<SubMesh>::empty(), index_format: 0, index_buffer: Seq::<u8>::empty(), vertex_data: empty_vertexdata_model(), stream_data: empty_streaminginfo_model() }
}

/// Reading the fields of a `Mesh` from the sibling subtrees `rest`: a subtree
/// named like a field is read as that field, any other is skipped.
pub open spec fn sp_fields_mesh(d: Seq<u8>, pos: int, big: bool, rest: Seq<NodeView>, acc: MeshModel) -> Result<
    (MeshModel, int),
    ErrorView,
>
    decreases rest.len(),
{
    match split_views(rest) {
        None => Ok((acc, pos)),
        Some((next, children, siblings)) => {
            proof {
                lemma_subtree_end_v(rest, rest[0].level, 1);
            }
            let step = if next.name == "m_Name"@ {
                match <String as UnityClass>::sp_parse(d, pos, big, next, children) {
                    Err(e) => Err(e),
                    Ok((v, p)) => Ok((MeshModel { name: v, ..acc }, p)),
                }
            } else if next.name == "m_SubMeshes"@ {
                match <Vec<SubMesh> as UnityClass>::sp_parse(d, pos, big, next, children) {
                    Err(e) => Err(e),
                    Ok((v, p)) => Ok((MeshModel { sub_meshes: v, ..acc }, p)),
                }
            } else if next.name == "m_IndexFormat"@ {
                match <i32 as UnityClass>::sp_parse(d, pos, big, next, children) {
                    Err(e) => Err(e),
                    Ok((v, p)) => Ok((MeshModel { index_format: v, ..acc }, p)),
                }
            } else if next.name == "m_IndexBuffer"@ {
                match <Vec<u8> as UnityClass>::sp_parse(d, pos, big, next, children) {
                    Err(e) => Err(e),
                    Ok((v, p)) => Ok((MeshModel { index_buffer: v, ..acc }, p)),
                }
            } else if next.name == "m_VertexData"@ {
                match <VertexData as UnityClass>::sp_parse(d, pos, big, next, children) {
                    Err(e) => Err(e),
                    Ok((v, p)) => Ok((MeshModel { vertex_data: v, ..acc }, p)),
                }
            } else if next.name == "m_StreamData"@ {
                match <StreamingInfo as UnityClass>::sp_parse(d, pos, big, next, children) {
                    Err(e) => Err(e),
                    Ok((v, p)) => Ok((MeshModel { stream_data: v, ..acc }, p)),
                }
            } else {
                match sp_skip_node(d, pos, big, next, children) {
                    Err(e) => Err(e),
                    Ok(p) => Ok((acc, p)),
                }
            };
            match step {
                Err(e) => Err(e),
                Ok((a, p)) => sp_fields_mesh(d, p, big, siblings, a),
            }
        },
    }
}

impl Mesh {
    /// A `Mesh` with every field at its default.
    pub fn empty_value() -> (r: Mesh)
        ensures
            r.model() == empty_mesh_model(),
    {
        let r = Mesh {
            name: String::new(),
            sub_meshes: Vec::new(),
            index_format: 0,
            index_buffer: Vec::new(),
            vertex_data: VertexData::empty_value(),
            stream_data: StreamingInfo::empty_value(),
        };
        assert(r.sub_meshes.model() =~= Seq::<SubMesh>::empty());
        assert(r.index_buffer.model() =~= Seq::<u8>::empty());
        r
    }
}

impl UnityClass for Mesh {
    type Model = MeshModel;

    open spec fn model(&self) -> MeshModel {
        MeshModel { name: self.name.model(), sub_meshes: self.sub_meshes.model(), index_format: self.index_format, index_buffer: self.index_buffer.model(), vertex_data: self.vertex_data.model(), stream_data: self.stream_data.model() }
    }

    /// A `Mesh` node: its fields from its children, then its alignment.
    open spec fn sp_parse(d: Seq<u8>, pos: int, big: bool, root: NodeView, tree: Seq<NodeView>) -> Result<
        (MeshModel, int),
        ErrorView,
    > {
        if root.type_string != "Mesh"@ {
            Err(ErrorView::Mismatch("Mesh"@, root.type_string))
        } else {
            match sp_fields_mesh(d, pos, big, tree, empty_mesh_model()) {
                Err(e) => Err(e),
                Ok((m, p)) => match sp_after(root, p) {
                    Err(e) => Err(e),
                    Ok(p2) => Ok((m, p2)),
                },
            }
        }
    }

    #[verifier::loop_isolation(false)]
    fn parse_tree(r: &mut Reader, big: bool, root: &TypeTreeNode, tree: &[TypeTreeNode]) -> (res: Result<
        Mesh,
        UnityError,
    >) {
        if !str_is(&root.type_string, "Mesh") {
            return Err(mismatch("Mesh", root));
        }
        let ghost d = r.data@;
        let ghost p0 = r.pos as int;
        let mut result = Mesh::empty_value();
        let mut rest = tree;
        let mut done = false;
        while !done
            invariant
                r.data@ == d,
                r.data == old(r).data,
                rest@.len() <= tree@.len(),
                sp_fields_mesh(d, p0, big, node_views(tree@), empty_mesh_model()) == sp_fields_mesh(
                    d,
                    r.pos as int,
                    big,
                    node_views(rest@),
                    result.model(),
                ),
                done ==> split_views(node_views(rest@)) is None,
            decreases rest@.len() + if done {
                0int
            } else {
                1int
            },
        {
            proof {
                lemma_split_views(rest@);
            }
            match split_tree(rest) {
                None => {
                    done = true;
                },
                Some((next, children, siblings)) => {
                    proof {
                        lemma_subtree_end_v(node_views(rest@), node_views(rest@)[0].level, 1);
                        assert(node_views(siblings@).len() == siblings@.len());
                    }
                    if str_is(&next.name, "m_Name") {
                        result.name = <String as UnityClass>::parse_tree(r, big, next, children)?;
                    } else if str_is(&next.name, "m_SubMeshes") {
                        result.sub_meshes = <Vec<SubMesh> as UnityClass>::parse_tree(r, big, next, children)?;
                    } else if str_is(&next.name, "m_IndexFormat") {
                        result.index_format = <i32 as UnityClass>::parse_tree(r, big, next, children)?;
                    } else if str_is(&next.name, "m_IndexBuffer") {
                        result.index_buffer = <Vec<u8> as UnityClass>::parse_tree(r, big, next, children)?;
                    } else if str_is(&next.name, "m_VertexData") {
                        result.vertex_data = <VertexData as UnityClass>::parse_tree(r, big, next, children)?;
                    } else if str_is(&next.name, "m_StreamData") {
                        result.stream_data = <StreamingInfo as UnityClass>::parse_tree(r, big, next, children)?;
                    } else {
                        skip(r, big, next, children)?;
                    }
                    rest = siblings;
                },
            }
        }
        align_reader(r, root)?;
        Ok(result)
    }
}


/// Whether no top-level node of `rest` is named `name`.
pub open spec fn lacks_field(rest: Seq<NodeView>, name: Seq<char>) -> bool
    decreases rest.len(),
{
    match split_views(rest) {
        None => true,
        Some((next, _, siblings)) => {
            proof {
                lemma_subtree_end_v(rest, rest[0].level, 1);
            }
            next.name != name && lacks_field(siblings, name)
        },
    }
}

/// Whether `idx` is where a top-level node of `rest` starts (or the end of `rest`):
/// splitting off whole top-level subtrees from the front reaches it.
pub open spec fn is_boundary(rest: Seq<NodeView>, idx: int) -> bool
    decreases rest.len(),
{
    if idx == 0 {
        true
    } else {
        match split_views(rest) {
            None => false,
            Some((_, children, siblings)) => {
                proof {
                    lemma_subtree_end_v(rest, rest[0].level, 1);
                }
                idx >= children.len() + 1 && is_boundary(siblings, idx - children.len() - 1)
            },
        }
    }
}

proof fn lemma_subtree_end_prefix(tree: Seq<NodeView>, level: u8, i: int, idx: int)
    requires
        0 <= i <= idx <= tree.len(),
        subtree_end_v(tree, level, i) <= idx,
    ensures
        subtree_end_v(tree.subrange(0, idx), level, i) == subtree_end_v(tree, level, i),
    decreases tree.len() - i,
{
    lemma_subtree_end_v(tree, level, i);
    if i < idx && tree[i].level > level {
        lemma_subtree_end_prefix(tree, level, i + 1, idx);
    }
}

proof fn lemma_boundary_bounds(rest: Seq<NodeView>, idx: int)
    requires
        is_boundary(rest, idx),
    ensures
        0 <= idx <= rest.len(),
    decreases rest.len(),
{
    if idx != 0 {
        lemma_subtree_end_v(rest, rest[0].level, 1);
        if let Some((_, children, siblings)) = split_views(rest) {
            lemma_boundary_bounds(siblings, idx - children.len() - 1);
        }
    }
}

/// Reading the fields of a texture in two parts: up to a top-level node, then from it
/// on, gives what reading them in one go gives.
proof fn lemma_texture_fields_split(
    d: Seq<u8>,
    pos: int,
    big: bool,
    rest: Seq<NodeView>,
    acc: Texture2DModel,
    idx: int,
)
    requires
        is_boundary(rest, idx),
    ensures
        sp_fields_texture2d(d, pos, big, rest, acc) == match sp_fields_texture2d(
            d,
            pos,
            big,
            rest.subrange(0, idx),
            acc,
        ) {
            Err(e) => Err(e),
            Ok((a, q)) => sp_fields_texture2d(d, q, big, rest.subrange(idx, rest.len() as int), a),
        },
    decreases rest.len(),
{
    lemma_boundary_bounds(rest, idx);
    if idx == 0 {
        assert(rest.subrange(0, 0).len() == 0);
        assert(rest.subrange(0, rest.len() as int) =~= rest);
    } else {
        lemma_subtree_end_v(rest, rest[0].level, 1);
        let e = subtree_end_v(rest, rest[0].level, 1);
        let pre = rest.subrange(0, idx);
        lemma_subtree_end_prefix(rest, rest[0].level, 1, idx);
        let s = rest.subrange(e, rest.len() as int);
        assert(pre.subrange(1, e) =~= rest.subrange(1, e));
        assert(pre.subrange(e, pre.len() as int) =~= s.subrange(0, idx - e));
        assert(split_views(pre) == Some((rest[0], rest.subrange(1, e), s.subrange(0, idx - e))));
        assert(s.subrange(idx - e, s.len() as int) =~= rest.subrange(idx, rest.len() as int));
        let step = if rest[0].name == "m_Name"@ {
            match <String as UnityClass>::sp_parse(d, pos, big, rest[0], rest.subrange(1, e)) {
                Err(e) => Err(e),
                Ok((v, p)) => Ok((Texture2DModel { name: v, ..acc }, p)),
            }
        } else if rest[0].name == "m_Width"@ {
            match <i32 as UnityClass>::sp_parse(d, pos, big, rest[0], rest.subrange(1, e)) {
                Err(e) => Err(e),
                Ok((v, p)) => Ok((Texture2DModel { width: v, ..acc }, p)),
            }
        } else if rest[0].name == "m_Height"@ {
            match <i32 as UnityClass>::sp_parse(d, pos, big, rest[0], rest.subrange(1, e)) {
                Err(e) => Err(e),
                Ok((v, p)) => Ok((Texture2DModel { height: v, ..acc }, p)),
            }
        } else if rest[0].name == "m_TextureFormat"@ {
            match <i32 as UnityClass>::sp_parse(d, pos, big, rest[0], rest.subrange(1, e)) {
                Err(e) => Err(e),
                Ok((v, p)) => Ok((Texture2DModel { format: v, ..acc }, p)),
            }
        } else if rest[0].name == "image data"@ {
            match <Vec<u8> as UnityClass>::sp_parse(d, pos, big, rest[0], rest.subrange(1, e)) {
                Err(e) => Err(e),
                Ok((v, p)) => Ok((Texture2DModel { image_data: v, ..acc }, p)),
            }
        } else if rest[0].name == "m_StreamData"@ {
            match <StreamingInfo as UnityClass>::sp_parse(d, pos, big, rest[0], rest.subrange(1, e)) {
                Err(e) => Err(e),
                Ok((v, p)) => Ok((Texture2DModel { stream_data: v, ..acc }, p)),
            }
        } else {
            match sp_skip_node(d, pos, big, rest[0], rest.subrange(1, e)) {
                Err(e) => Err(e),
                Ok(p) => Ok((acc, p)),
            }
        };
        if let Ok((a, p)) = step {
            lemma_texture_fields_split(d, p, big, s, a, idx - e);
        }
    }
}

proof fn lemma_field_names_differ()
    ensures
        "image data"@ != "m_Name"@,
        "image data"@ != "m_Width"@,
        "image data"@ != "m_Height"@,
        "image data"@ != "m_TextureFormat"@,
{
    reveal_strlit("image data");
    reveal_strlit("m_Name");
    reveal_strlit("m_Width");
    reveal_strlit("m_Height");
    reveal_strlit("m_TextureFormat");
    assert("image data"@.len() == 10);
    assert("m_Name"@.len() == 6);
    assert("m_Width"@.len() == 7);
    assert("m_Height"@.len() == 8);
    assert("m_TextureFormat"@.len() == 15);
}

/// Fields other than `image data` leave the image data as it was.
proof fn lemma_texture_image_data_kept(d: Seq<u8>, pos: int, big: bool, rest: Seq<NodeView>, acc: Texture2DModel)
    requires
        lacks_field(rest, "image data"@),
    ensures
        sp_fields_texture2d(d, pos, big, rest, acc) matches Ok((m, _)) ==> m.image_data == acc.image_data,
    decreases rest.len(),
{
    if let Some((next, children, siblings)) = split_views(rest) {
        lemma_subtree_end_v(rest, rest[0].level, 1);
        assert(next.name != "image data"@);
        if next.name == "m_Name"@ {
            if let Ok((v, p)) = <String as UnityClass>::sp_parse(d, pos, big, next, children) {
                lemma_texture_image_data_kept(d, p, big, siblings, Texture2DModel { name: v, ..acc });
            }
        } else if next.name == "m_Width"@ || next.name == "m_Height"@ || next.name == "m_TextureFormat"@ {
            if let Ok((v, p)) = <i32 as UnityClass>::sp_parse(d, pos, big, next, children) {
                lemma_texture_image_data_kept(d, p, big, siblings, Texture2DModel { width: v, ..acc });
                lemma_texture_image_data_kept(d, p, big, siblings, Texture2DModel { height: v, ..acc });
                lemma_texture_image_data_kept(d, p, big, siblings, Texture2DModel { format: v, ..acc });
            }
        } else if next.name == "m_StreamData"@ {
            if let Ok((v, p)) = <StreamingInfo as UnityClass>::sp_parse(d, pos, big, next, children) {
                lemma_texture_image_data_kept(d, p, big, siblings, Texture2DModel { stream_data: v, ..acc });
            }
        } else {
            if let Ok(p) = sp_skip_node(d, pos, big, next, children) {
                lemma_texture_image_data_kept(d, p, big, siblings, acc);
            }
        }
    }
}

/// A texture's image data is what its `image data` field holds: where the texture's
/// fields `rest` have their last top-level `image data` node at index `idx`, and
/// reading them succeeds, then reading the fields before that node succeeds too, and
/// the image data is the byte array read from that node at the position where they
/// end.
pub proof fn lemma_texture_image_data(
    d: Seq<u8>,
    pos: int,
    big: bool,
    rest: Seq<NodeView>,
    acc: Texture2DModel,
    idx: int,
)
    requires
        is_boundary(rest, idx),
        idx < rest.len(),
        rest[idx].name == "image data"@,
        split_views(rest.subrange(idx, rest.len() as int)) matches Some((_, _, later)) && lacks_field(
            later,
            "image data"@,
        ),
    ensures
        sp_fields_texture2d(d, pos, big, rest, acc) matches Ok((m, _)) ==> {
            &&& sp_fields_texture2d(d, pos, big, rest.subrange(0, idx), acc) is Ok
            &&& (sp_fields_texture2d(d, pos, big, rest.subrange(0, idx), acc) matches Ok((_, q)) && {
                let r = rest.subrange(idx, rest.len() as int);
                let e = subtree_end_v(r, r[0].level, 1);
                <Vec<u8> as UnityClass>::sp_parse(d, q, big, r[0], r.subrange(1, e)) matches Ok((v, _))
                    && m.image_data == v
            })
        },
{
    lemma_texture_fields_split(d, pos, big, rest, acc, idx);
    lemma_boundary_bounds(rest, idx);
    if let Ok((a, q)) = sp_fields_texture2d(d, pos, big, rest.subrange(0, idx), acc) {
        let r = rest.subrange(idx, rest.len() as int);
        assert(r[0] == rest[idx]);
        lemma_subtree_end_v(r, r[0].level, 1);
        let e = subtree_end_v(r, r[0].level, 1);
        let later = r.subrange(e, r.len() as int);
        lemma_field_names_differ();
        if let Ok((v, p)) = <Vec<u8> as UnityClass>::sp_parse(d, q, big, r[0], r.subrange(1, e)) {
            lemma_texture_image_data_kept(d, p, big, later, Texture2DModel { image_data: v, ..a });
        }
    }
}


/// The number fields of a texture: width (`k == 0`), height (`k == 1`) and texture
/// format (otherwise).
pub open spec fn texture_number(m: Texture2DModel, k: int) -> i32 {
    if k == 0 {
        m.width
    } else if k == 1 {
        m.height
    } else {
        m.format
    }
}

/// The field name of texture number field `k`.
pub open spec fn texture_number_name(k: int) -> Seq<char> {
    if k == 0 {
        "m_Width"@
    } else if k == 1 {
        "m_Height"@
    } else {
        "m_TextureFormat"@
    }
}

proof fn lemma_number_names_differ()
    ensures
        "m_Name"@ != "m_Width"@,
        "m_Name"@ != "m_Height"@,
        "m_Name"@ != "m_TextureFormat"@,
        "m_Width"@ != "m_Height"@,
        "m_Width"@ != "m_TextureFormat"@,
        "m_Height"@ != "m_TextureFormat"@,
{
    reveal_strlit("m_Name");
    reveal_strlit("m_Width");
    reveal_strlit("m_Height");
    reveal_strlit("m_TextureFormat");
    assert("m_Name"@.len() == 6);
    assert("m_Width"@.len() == 7);
    assert("m_Height"@.len() == 8);
    assert("m_TextureFormat"@.len() == 15);
}

/// Fields with other names leave texture number field `k` as it was.
proof fn lemma_texture_number_kept(
    d: Seq<u8>,
    pos: int,
    big: bool,
    rest: Seq<NodeView>,
    acc: Texture2DModel,
    k: int,
)
    requires
        lacks_field(rest, texture_number_name(k)),
    ensures
        sp_fields_texture2d(d, pos, big, rest, acc) matches Ok((m, _)) ==> texture_number(m, k) == texture_number(
            acc,
            k,
        ),
    decreases rest.len(),
{
    if let Some((next, children, siblings)) = split_views(rest) {
        lemma_subtree_end_v(rest, rest[0].level, 1);
        if next.name == "m_Name"@ {
            if let Ok((v, p)) = <String as UnityClass>::sp_parse(d, pos, big, next, children) {
                lemma_texture_number_kept(d, p, big, siblings, Texture2DModel { name: v, ..acc }, k);
            }
        } else if next.name == "m_Width"@ || next.name == "m_Height"@ || next.name == "m_TextureFormat"@ {
            if let Ok((v, p)) = <i32 as UnityClass>::sp_parse(d, pos, big, next, children) {
                lemma_texture_number_kept(d, p, big, siblings, Texture2DModel { width: v, ..acc }, k);
                lemma_texture_number_kept(d, p, big, siblings, Texture2DModel { height: v, ..acc }, k);
                lemma_texture_number_kept(d, p, big, siblings, Texture2DModel { format: v, ..acc }, k);
            }
        } else if next.name == "image data"@ {
            if let Ok((v, p)) = <Vec<u8> as UnityClass>::sp_parse(d, pos, big, next, children) {
                lemma_texture_number_kept(d, p, big, siblings, Texture2DModel { image_data: v, ..acc }, k);
            }
        } else if next.name == "m_StreamData"@ {
            if let Ok((v, p)) = <StreamingInfo as UnityClass>::sp_parse(d, pos, big, next, children) {
                lemma_texture_number_kept(d, p, big, siblings, Texture2DModel { stream_data: v, ..acc }, k);
            }
        } else {
            if let Ok(p) = sp_skip_node(d, pos, big, next, children) {
                lemma_texture_number_kept(d, p, big, siblings, acc, k);
            }
        }
    }
}

/// A texture's width, height and format are what their fields hold: where the
/// texture's fields `rest` have their last top-level node of that name at index
/// `idx`, and reading them succeeds, then reading the fields before that node
/// succeeds too, and the number is the one read from that node at the position where
/// they end.
pub proof fn lemma_texture_number(
    d: Seq<u8>,
    pos: int,
    big: bool,
    rest: Seq<NodeView>,
    acc: Texture2DModel,
    idx: int,
    k: int,
)
    requires
        is_boundary(rest, idx),
        idx < rest.len(),
        rest[idx].name == texture_number_name(k),
        split_views(rest.subrange(idx, rest.len() as int)) matches Some((_, _, later)) && lacks_field(
            later,
            texture_number_name(k),
        ),
    ensures
        sp_fields_texture2d(d, pos, big, rest, acc) matches Ok((m, _)) ==> {
            &&& sp_fields_texture2d(d, pos, big, rest.subrange(0, idx), acc) is Ok
            &&& (sp_fields_texture2d(d, pos, big, rest.subrange(0, idx), acc) matches Ok((_, q)) && {
                let r = rest.subrange(idx, rest.len() as int);
                let e = subtree_end_v(r, r[0].level, 1);
                <i32 as UnityClass>::sp_parse(d, q, big, r[0], r.subrange(1, e)) matches Ok((v, _))
                    && texture_number(m, k) == v
            })
        },
{
    lemma_texture_fields_split(d, pos, big, rest, acc, idx);
    lemma_boundary_bounds(rest, idx);
    if let Ok((a, q)) = sp_fields_texture2d(d, pos, big, rest.subrange(0, idx), acc) {
        let r = rest.subrange(idx, rest.len() as int);
        assert(r[0] == rest[idx]);
        lemma_subtree_end_v(r, r[0].level, 1);
        let e = subtree_end_v(r, r[0].level, 1);
        let later = r.subrange(e, r.len() as int);
        lemma_number_names_differ();
        if let Ok((v, p)) = <i32 as UnityClass>::sp_parse(d, q, big, r[0], r.subrange(1, e)) {
            if k == 0 {
                lemma_texture_number_kept(d, p, big, later, Texture2DModel { width: v, ..a }, k);
            } else if k == 1 {
                lemma_texture_number_kept(d, p, big, later, Texture2DModel { height: v, ..a }, k);
            } else {
                lemma_texture_number_kept(d, p, big, later, Texture2DModel { format: v, ..a }, k);
            }
        }
    }
}

} // verus!
