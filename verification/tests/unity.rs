use houston::unity::class::UnityClass;
use houston::unity::error::UnityError;
use houston::unity::mesh::{ChannelInfo, Mesh, MeshVertexData, StreamInfo, SubMesh, VertexData};
use houston::unity::reader::Reader;
use houston::unity::serialized::SerializedFile;
use houston::unity::streaming_info::{Offset, StreamingInfo};
use houston::unity::texture2d::{Texture2D, TextureFormat};
use houston::unity::tree::{split_tree, TypeTreeNode};
use houston::unity::type_tree::read_type_tree;
use houston::unity::unity_fs::{UnityFsData, UnityFsFile, UnityFsNode};

fn be16(v: &mut Vec<u8>, x: u16) {
    v.extend_from_slice(&x.to_be_bytes());
}

fn be32(v: &mut Vec<u8>, x: u32) {
    v.extend_from_slice(&x.to_be_bytes());
}

fn be64(v: &mut Vec<u8>, x: u64) {
    v.extend_from_slice(&x.to_be_bytes());
}

fn le16(v: &mut Vec<u8>, x: u16) {
    v.extend_from_slice(&x.to_le_bytes());
}

fn le32(v: &mut Vec<u8>, x: u32) {
    v.extend_from_slice(&x.to_le_bytes());
}

fn le64(v: &mut Vec<u8>, x: u64) {
    v.extend_from_slice(&x.to_le_bytes());
}

const COMMON: u32 = 0x8000_0000;

#[allow(clippy::too_many_arguments)]
fn blob_node(v: &mut Vec<u8>, level: u8, type_off: u32, name_off: u32, size: i32, meta: u32) {
    le16(v, 1);
    v.push(level);
    v.push(0);
    le32(v, type_off);
    le32(v, name_off);
    le32(v, size as u32);
    le32(v, 0);
    le32(v, meta);
}

/// A version 17 serialized file with one Texture2D type (name, width, height,
/// format) and one object of it.
fn texture_file(name: &[u8], width: i32, height: i32, format: i32) -> Vec<u8> {
    let mut strs = Vec::new();
    let w = strs.len() as u32;
    strs.extend_from_slice(b"m_Width\0");
    let h = strs.len() as u32;
    strs.extend_from_slice(b"m_Height\0");
    let f = strs.len() as u32;
    strs.extend_from_slice(b"m_TextureFormat\0");

    let mut body = Vec::new();
    body.push(0); // little endian
    body.extend_from_slice(&[0, 0, 0]);
    body.extend_from_slice(b"2019.4.0f1\0");
    le32(&mut body, 13); // target platform
    body.push(1); // type trees enabled
    le32(&mut body, 1); // one type
    le32(&mut body, 28); // Texture2D
    body.push(0); // not stripped
    be16(&mut body, 0xFFFF); // script type index
    body.extend_from_slice(&[0u8; 16]); // hash
    le32(&mut body, 8);
    le32(&mut body, strs.len() as u32);
    blob_node(&mut body, 0, COMMON | 874, COMMON | 55, -1, 0);
    blob_node(&mut body, 1, COMMON | 840, COMMON | 427, -1, 0);
    blob_node(&mut body, 2, COMMON | 49, COMMON | 49, -1, 0x4000);
    blob_node(&mut body, 3, COMMON | 222, COMMON | 795, 4, 0);
    blob_node(&mut body, 3, COMMON | 81, COMMON | 106, 1, 0);
    blob_node(&mut body, 1, COMMON | 222, w, 4, 0);
    blob_node(&mut body, 1, COMMON | 222, h, 4, 0);
    blob_node(&mut body, 1, COMMON | 222, f, 4, 0);
    body.extend_from_slice(&strs);
    le32(&mut body, 1); // one object
    while (16 + body.len()) % 4 != 0 {
        body.push(0);
    }

    let mut object = Vec::new();
    le32(&mut object, name.len() as u32);
    object.extend_from_slice(name);
    while object.len() % 4 != 0 {
        object.push(0);
    }
    le32(&mut object, width as u32);
    le32(&mut object, height as u32);
    le32(&mut object, format as u32);

    le64(&mut body, 7); // path id
    le32(&mut body, 0); // start
    le32(&mut body, object.len() as u32);
    le32(&mut body, 0); // type index

    let mut data_offset = 16 + body.len();
    while data_offset % 16 != 0 {
        data_offset += 1;
    }
    let total = data_offset + object.len();

    let mut file = Vec::new();
    be32(&mut file, body.len() as u32);
    be32(&mut file, total as u32);
    be32(&mut file, 17);
    be32(&mut file, data_offset as u32);
    file.extend_from_slice(&body);
    file.resize(data_offset, 0);
    file.extend_from_slice(&object);
    file
}

#[test]
fn serialized_file_reads_types_and_objects() {
    let file = texture_file(b"test", 64, 32, 4);
    assert!(SerializedFile::is_serialized_file(&file));
    let sf = SerializedFile::read(&file).unwrap();
    assert_eq!(sf.version, 17);
    assert!(!sf.is_big_endian);
    assert_eq!(sf.unity_version.as_deref(), Some(&b"2019.4.0f1"[..]));
    assert_eq!(sf.target_platform, Some(13));
    assert!(sf.enable_type_tree);
    let types = sf.types();
    assert_eq!(types.len(), 1);
    assert_eq!(types[0].class_id, 28);
    assert_eq!(types[0].script_type_index, Some(0xFFFF));
    let tree = &types[0].type_tree;
    assert_eq!(tree.len(), 8);
    assert_eq!(tree[0].type_string, "Texture2D");
    assert_eq!(tree[0].name, "Base");
    assert_eq!(tree[1].type_string, "string");
    assert_eq!(tree[1].name, "m_Name");
    assert_eq!(tree[3].type_string, "int");
    assert_eq!(tree[3].name, "size");
    assert_eq!(tree[5].name, "m_Width");
    assert_eq!(tree[7].name, "m_TextureFormat");
    assert_eq!(tree[2].meta_flags, 0x4000);

    let objects = sf.objects();
    assert_eq!(objects.len(), 1);
    let obj = &objects[0];
    assert_eq!(obj.path_id(), 7);
    assert_eq!(obj.class_id(), 28);
    assert!(!obj.is_big_endian());
    assert_eq!(obj.data().unwrap().len(), 20);

    let tex: Texture2D = obj.try_into_class().unwrap();
    assert_eq!(tex.name, "test");
    assert_eq!(tex.width, 64);
    assert_eq!(tex.height, 32);
    assert_eq!(tex.format(), TextureFormat::RGBA32);
    assert!(tex.image_data.is_empty());
    assert!(tex.stream_data.is_empty());
}

#[test]
fn serialized_file_rejects_other_data() {
    let mut file = texture_file(b"test", 1, 1, 4);
    assert!(!SerializedFile::is_serialized_file(&file[..10]));
    file.push(0);
    // The file size no longer matches.
    assert!(!SerializedFile::is_serialized_file(&file));
    let short = &file[..40];
    assert!(SerializedFile::read(short).is_err());
}

#[test]
fn object_class_mismatch() {
    let file = texture_file(b"abc", 1, 2, 4);
    let sf = SerializedFile::read(&file).unwrap();
    let objects = sf.objects();
    let r: Result<StreamingInfo, UnityError> = objects[0].try_into_class();
    match r {
        Err(UnityError::Mismatch(m)) => {
            assert_eq!(m.expected, "StreamingInfo");
            assert_eq!(m.received, "Texture2D");
        },
        other => panic!("unexpected {:?}", other.map(|_| ())),
    }
}

fn node(type_string: &str, name: &str, size: i32, level: u8, meta_flags: u32) -> TypeTreeNode {
    TypeTreeNode {
        type_string: type_string.to_string(),
        name: name.to_string(),
        size,
        index: 0,
        type_flags: 0,
        version: 1,
        meta_flags,
        level,
    }
}

#[test]
fn split_tree_splits_first_children_siblings() {
    let tree = vec![
        node("Base", "a", -1, 1, 0),
        node("int", "b", 4, 2, 0),
        node("int", "c", 4, 3, 0),
        node("int", "d", 4, 1, 0),
        node("int", "e", 4, 2, 0),
    ];
    let (first, children, siblings) = split_tree(&tree).unwrap();
    assert_eq!(first.name, "a");
    assert_eq!(children.len(), 2);
    assert_eq!(children[1].name, "c");
    assert_eq!(siblings.len(), 2);
    assert_eq!(siblings[0].name, "d");
    assert!(split_tree(&[]).is_none());
}

#[test]
fn class_parse_skips_unknown_and_aligns() {
    // A StreamingInfo with an unknown field first, then offset (as u64), size and path.
    let tree = vec![
        node("float", "extra", 4, 1, 0),
        node("UInt64", "offset", 8, 1, 0),
        node("unsigned int", "size", 4, 1, 0),
        node("string", "path", -1, 1, 0),
        node("Array", "Array", -1, 2, 0x4000),
        node("int", "size", 4, 3, 0),
        node("char", "data", 1, 3, 0),
    ];
    let root = node("StreamingInfo", "m_StreamData", -1, 0, 0);
    let mut data = Vec::new();
    le32(&mut data, 0xDEAD_BEEF);
    le64(&mut data, 0x1_0000_0002);
    le32(&mut data, 16);
    le32(&mut data, 5);
    data.extend_from_slice(b"a/b/c");
    data.extend_from_slice(&[0, 0, 0]);
    data.extend_from_slice(&[9, 9]);
    let mut r = Reader::new(&data);
    let info = StreamingInfo::parse_tree(&mut r, false, &root, &tree).unwrap();
    assert_eq!(info.offset.0, 0x1_0000_0002);
    assert_eq!(info.size, 16);
    assert_eq!(info.path, "a/b/c");
    assert_eq!(r.pos, 28);
    assert_eq!(info.file_name().into_iter().collect::<String>(), "c");
}

#[test]
fn array_of_u32_and_eof() {
    let root = node("vector", "v", -1, 0, 0x4000);
    let tree = vec![node("Array", "Array", -1, 1, 0), node("int", "size", 4, 2, 0), node("UInt32", "data", 4, 2, 0)];
    let mut data = Vec::new();
    le32(&mut data, 3);
    le32(&mut data, 10);
    le32(&mut data, 20);
    le32(&mut data, 30);
    let mut r = Reader::new(&data);
    let v = <Vec<u32> as UnityClass>::parse_tree(&mut r, false, &root, &tree).unwrap();
    assert_eq!(v, vec![10, 20, 30]);
    let short = &data[..10];
    let mut r = Reader::new(short);
    assert!(matches!(
        <Vec<u32> as UnityClass>::parse_tree(&mut r, false, &root, &tree),
        Err(UnityError::UnexpectedEof)
    ));
}

#[test]
fn legacy_type_tree_reads_but_keeps_nothing() {
    let mut data = Vec::new();
    data.extend_from_slice(b"Base\0obj\0");
    for x in [-1i32 as u32, 0, 0, 1, 0, 1] {
        le32(&mut data, x);
    }
    data.extend_from_slice(b"int\0m_X\0");
    for x in [4u32, 1, 0, 1, 0, 0] {
        le32(&mut data, x);
    }
    let mut r = Reader::new(&data);
    let nodes = read_type_tree(&mut r, false, 5).unwrap();
    assert!(nodes.is_empty());
    assert_eq!(r.pos as usize, data.len());
    let mut r = Reader::new(&data[..data.len() - 2]);
    assert!(read_type_tree(&mut r, false, 5).is_err());
}

fn compress(data: &[u8], compression: u32) -> Vec<u8> {
    match compression {
        0 => data.to_vec(),
        1 => {
            let mut out = Vec::new();
            let options = lzma_rs::compress::Options {
                unpacked_size: lzma_rs::compress::UnpackedSize::SkipWritingToHeader,
            };
            lzma_rs::lzma_compress_with_options(&mut std::io::Cursor::new(data), &mut out, &options).unwrap();
            out
        },
        2 => lz4::block::compress(data, None, false).unwrap(),
        _ => unreachable!(),
    }
}

/// A version 6 archive with the given files laid out one after the
/// other in one block.
fn archive(files: &[(&str, &[u8])], compression: u32) -> Vec<u8> {
    let mut data = Vec::new();
    let mut nodes = Vec::new();
    for (path, bytes) in files {
        be64(&mut nodes, data.len() as u64);
        be64(&mut nodes, bytes.len() as u64);
        be32(&mut nodes, 4);
        nodes.extend_from_slice(path.as_bytes());
        nodes.push(0);
        data.extend_from_slice(bytes);
    }
    let block = compress(&data, compression);
    let mut info = vec![0u8; 16];
    be32(&mut info, 1);
    be32(&mut info, data.len() as u32);
    be32(&mut info, block.len() as u32);
    be16(&mut info, compression as u16);
    be32(&mut info, files.len() as u32);
    info.extend_from_slice(&nodes);
    let stored_info = compress(&info, compression);

    let mut out = Vec::new();
    out.extend_from_slice(b"UnityFS\0");
    be32(&mut out, 6);
    out.extend_from_slice(b"5.x.x\0");
    out.extend_from_slice(b"2019.4.0f1\0");
    be64(&mut out, 0);
    be32(&mut out, stored_info.len() as u32);
    be32(&mut out, info.len() as u32);
    be32(&mut out, compression);
    out.extend_from_slice(&stored_info);
    out.extend_from_slice(&block);
    out
}

#[test]
fn unity_fs_reads_nodes() {
    let file = texture_file(b"tex", 2, 1, 4);
    let pixels: Vec<u8> = (0u8..20).collect();
    for compression in [0, 1, 2] {
        let bytes = archive(&[("CAB-test", &file), ("CAB-test.resS", &pixels)], compression);
        let fs = UnityFsFile::open(&bytes).unwrap();
        assert!(fs.compression_known());
        let entries = fs.entries();
        assert_eq!(entries.len(), 2);
        assert_eq!(entries[0].path(), "CAB-test");
        assert_eq!(entries[1].path(), "CAB-test.resS");
        let raw = entries[0].read_raw().unwrap();
        assert_eq!(raw, file);
        match UnityFsNode::read(&raw).unwrap() {
            UnityFsData::SerializedFile(sf) => assert_eq!(sf.types().len(), 1),
            UnityFsData::RawData(_) => panic!("expected a serialized file"),
        }
        let raw = entries[1].read_raw().unwrap();
        assert_eq!(raw, pixels);
        assert!(matches!(UnityFsNode::read(&raw).unwrap(), UnityFsData::RawData(_)));
        let bo = fs.get_block_index_by_offset(file.len() as u64).unwrap();
        assert_eq!(bo.index, 0);
        assert!(fs.get_block_index_by_offset((file.len() + pixels.len()) as u64).is_none());

        let stream = StreamingInfo { offset: Offset(2), size: 8, path: "archive:/CAB-test/CAB-test.resS".to_string() };
        assert_eq!(stream.load_data(&fs).unwrap(), (2u8..10).collect::<Vec<u8>>());
        let too_big = StreamingInfo { offset: Offset(2), size: 19, path: "CAB-test.resS".to_string() };
        assert!(matches!(too_big.load_data(&fs), Err(UnityError::InvalidData("streaming data size out of bounds"))));
        let missing = StreamingInfo { offset: Offset(0), size: 1, path: "nope".to_string() };
        assert!(matches!(missing.load_data(&fs), Err(UnityError::InvalidData("streaming data file not found"))));

        let tex = Texture2D {
            name: "t".to_string(),
            width: 2,
            height: 1,
            format: 4,
            image_data: Vec::new(),
            stream_data: StreamingInfo { offset: Offset(4), size: 8, path: "CAB-test.resS".to_string() },
        };
        let td = tex.read_data(&fs).unwrap();
        assert_eq!(td.data(), &pixels[4..12]);
        let img = td.decode().unwrap();
        assert_eq!((img.width, img.height), (2, 1));
        assert_eq!(img.data, pixels[4..12].to_vec());
    }
}

#[test]
fn unity_fs_rejects_bad_magic() {
    let mut bytes = archive(&[("a", b"xyz")], 0);
    bytes[0] = b'X';
    assert!(matches!(UnityFsFile::open(&bytes), Err(UnityError::InvalidData("not a UnityFS file"))));
    assert!(matches!(UnityFsFile::open(&bytes[..4]), Err(UnityError::UnexpectedEof)));
}

#[test]
fn texture_decode_errors() {
    let tex = Texture2D {
        name: String::new(),
        width: 4,
        height: 4,
        format: 47,
        image_data: vec![0u8; 8],
        stream_data: StreamingInfo { offset: Offset(0), size: 0, path: String::new() },
    };
    assert_eq!(tex.format(), TextureFormat::ETC2_RGBA8);
    let td = tex.with_data(tex.image_data.clone());
    assert!(matches!(td.decode(), Err(UnityError::InvalidData("Not enough data to decode image!"))));
    let rgba = Texture2D { format: 4, width: 2, height: 2, ..tex.clone() };
    assert!(matches!(
        rgba.with_data(vec![0u8; 15]).decode(),
        Err(UnityError::InvalidData("image data size incorrect"))
    ));
}

#[test]
fn texture_decode_etc2_matches_decoder() {
    let block: Vec<u8> = vec![0x7f, 0x12, 0x34, 0x56, 0x78, 0x9a, 0xbc, 0xde, 0x11, 0x22, 0x33, 0x44, 0x55, 0x66, 0x77, 0x88];
    let tex = Texture2D {
        name: String::new(),
        width: 4,
        height: 4,
        format: 47,
        image_data: block.clone(),
        stream_data: StreamingInfo { offset: Offset(0), size: 0, path: String::new() },
    };
    let img = tex.with_data(block.clone()).decode().unwrap();
    let mut pixels = vec![0u32; 16];
    texture2ddecoder::decode_etc2_rgba8(&block, 4, 4, &mut pixels).unwrap();
    let mut expected = Vec::new();
    for px in pixels {
        let b = px.to_le_bytes();
        expected.extend_from_slice(&[b[2], b[1], b[0], b[3]]);
    }
    assert_eq!(img.data, expected);
}

fn f32_bits(x: f32) -> u32 {
    x.to_bits()
}

fn test_mesh(indices: &[u16], topology: i32) -> Mesh {
    let mut index_buffer = Vec::new();
    for i in indices {
        le16(&mut index_buffer, *i);
    }
    let pos = ChannelInfo { stream: 0, offset: 0, format: 0, dimension: 3 };
    let none = ChannelInfo { stream: 0, offset: 0, format: 0, dimension: 0 };
    let uv = ChannelInfo { stream: 0, offset: 12, format: 0, dimension: 2 };
    Mesh {
        name: "m".to_string(),
        sub_meshes: vec![SubMesh {
            first_byte: 0,
            index_count: indices.len() as u32,
            topology,
            base_vertex: 0,
            first_vertex: 0,
            vertex_count: 3,
        }],
        index_format: 0,
        index_buffer,
        vertex_data: VertexData {
            vertex_count: 3,
            channels: vec![pos, none, none, uv, none],
            data_size: Vec::new(),
            streams: None,
        },
        stream_data: StreamingInfo { offset: Offset(0), size: 0, path: String::new() },
    }
}

fn vertex_bytes() -> Vec<u8> {
    let mut data = Vec::new();
    for k in 0..3 {
        for c in 0..3 {
            le32(&mut data, f32_bits((k * 3 + c) as f32));
        }
        le32(&mut data, f32_bits(0.5 * k as f32));
        le32(&mut data, f32_bits(0.25));
    }
    data
}

#[test]
fn mesh_resolves_vertices_and_triangles() {
    let mesh = test_mesh(&[0, 1, 2, 2, 1], 0);
    let md = MeshVertexData { mesh: &mesh, data: vertex_bytes() };
    let (size, indices) = md.load_index_buffer().unwrap();
    assert_eq!((size, indices), (2, vec![0, 1, 2, 2, 1]));
    let streams = md.load_streams().unwrap();
    assert_eq!(streams.len(), 1);
    assert_eq!(streams[0].stride, 20);
    assert_eq!(streams[0].offset, 0);
    assert_eq!(streams[0].channel_mask, 0b11111);
    let resolved = md.resolve_meshes().unwrap();
    assert_eq!(resolved.len(), 1);
    let vs = resolved[0].vertices();
    assert_eq!(vs.len(), 3);
    assert_eq!(vs[1].pos.dimension, 3);
    assert_eq!((vs[1].pos.x, vs[1].pos.y, vs[1].pos.z), (f32_bits(3.0), f32_bits(4.0), f32_bits(5.0)));
    assert_eq!(vs[2].uv.dimension, 2);
    assert_eq!((vs[2].uv.x, vs[2].uv.y, vs[2].uv.z), (f32_bits(1.0), f32_bits(0.25), 0));
    let tris = resolved[0].triangles();
    assert_eq!(tris.len(), 1);
    assert_eq!(tris[0].0, vs[0]);
    assert_eq!(tris[0].2, vs[2]);
}

#[test]
fn mesh_strip_topology_swaps_odd_triangles() {
    let mesh = test_mesh(&[0, 1, 2, 1, 2, 0], 1);
    let md = MeshVertexData { mesh: &mesh, data: vertex_bytes() };
    let resolved = md.resolve_meshes().unwrap();
    let vs = resolved[0].vertices();
    let tris = resolved[0].triangles();
    assert_eq!(tris.len(), 2);
    assert_eq!((tris[0].0, tris[0].1, tris[0].2), (vs[0], vs[1], vs[2]));
    assert_eq!((tris[1].0, tris[1].1, tris[1].2), (vs[0], vs[2], vs[1]));
}

#[test]
fn mesh_errors() {
    let mut mesh = test_mesh(&[0, 1, 2], 0);
    mesh.index_format = 5;
    let md = MeshVertexData { mesh: &mesh, data: vertex_bytes() };
    assert!(matches!(md.resolve_meshes(), Err(UnityError::InvalidData("unexpected mesh index format"))));
    let mesh = test_mesh(&[0, 1, 2], 0);
    let md = MeshVertexData { mesh: &mesh, data: vertex_bytes()[..40].to_vec() };
    assert!(matches!(
        md.resolve_meshes(),
        Err(UnityError::InvalidData("mesh channel info specified too much stream data"))
    ));
    let mut mesh = test_mesh(&[0, 1, 2], 0);
    mesh.vertex_data.streams = Some(vec![StreamInfo { channel_mask: 1, offset: 0, stride: 20, divider_op: 0, frequency: 0 }]);
    mesh.vertex_data.channels[0].format = 9;
    let md = MeshVertexData { mesh: &mesh, data: vertex_bytes() };
    assert!(matches!(md.resolve_meshes(), Err(UnityError::Unsupported("unsupported mesh data type"))));
}

#[test]
fn signed_and_short_values() {
    let mut data = Vec::new();
    data.extend_from_slice(&(-2i16).to_be_bytes());
    data.extend_from_slice(&[0, 0]);
    data.extend_from_slice(&(-5i64).to_be_bytes());
    data.push(0xFF);
    let mut r = Reader::new(&data);
    assert_eq!(<i16 as UnityClass>::parse_tree(&mut r, true, &node("short", "a", 2, 0, 0x4000), &[]).unwrap(), -2);
    assert_eq!(r.pos, 4);
    assert_eq!(<i64 as UnityClass>::parse_tree(&mut r, true, &node("SInt64", "b", 8, 0, 0), &[]).unwrap(), -5);
    assert_eq!(<i8 as UnityClass>::parse_tree(&mut r, true, &node("SInt8", "c", 1, 0, 0), &[]).unwrap(), -1);
    let mut r = Reader::new(&data);
    match <u16 as UnityClass>::parse_tree(&mut r, true, &node("int", "d", 4, 0, 0), &[]) {
        Err(UnityError::Mismatch(m)) => assert_eq!((m.expected.as_str(), m.received.as_str()), ("UInt16", "int")),
        _ => panic!("expected a mismatch"),
    }
}

#[test]
fn unity_fs_node_size_must_match() {
    let payload: Vec<u8> = (0u8..10).collect();
    let mut bytes = archive(&[("CAB-raw", &payload)], 0);
    // the first node's size, big-endian, after the header and the block list
    let at = 49 + 34 + 8;
    assert_eq!(&bytes[at..at + 8], &10u64.to_be_bytes());
    bytes[at + 7] = 11;
    let fs = UnityFsFile::open(&bytes).unwrap();
    let entries = fs.entries();
    assert!(matches!(
        entries[0].read_raw(),
        Err(UnityError::InvalidData("node data does not match its size"))
    ));
}

#[test]
fn resolved_meshes_have_vertex_count() {
    let mesh = test_mesh(&[0, 1, 2], 0);
    let md = MeshVertexData { mesh: &mesh, data: vertex_bytes() };
    let resolved = md.resolve_meshes().unwrap();
    assert_eq!(resolved.len(), mesh.sub_meshes.len());
    for (r, sm) in resolved.iter().zip(mesh.sub_meshes.iter()) {
        assert_eq!(r.vertices().len(), sm.vertex_count as usize);
    }
}
