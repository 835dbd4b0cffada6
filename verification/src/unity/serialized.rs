use vstd::prelude::*;
use super::error::UnityError;
use super::reader::{lemma_uint_bound, sp_cstr, sp_uint, uint_at, Reader};
use super::tree::{node_views, NodeView, TypeTreeNode};
use super::type_tree::{read_type_tree, read_type_tree_blob, sp_legacy_tree, sp_type_tree_blob};

verus! {

/// Information about a serialized type.
#[derive(Debug, Clone)]
pub struct SerializedType {
    pub class_id: u32,
    pub is_stripped_type: bool,
    pub script_type_index: Option<u16>,
    pub script_id: Option<Vec<u8>>,
    pub type_tree: Vec<TypeTreeNode>,
}

/// A serialized type as a value.
pub struct TypeView {
    pub class_id: u32,
    pub is_stripped_type: bool,
    pub script_type_index: Option<u16>,
    pub script_id: Option<Seq<u8>>,
    pub type_tree: Seq<NodeView>,
}


/// The bytes of an optional buffer.
pub open spec fn opt_bytes(o: Option<Vec<u8>>) -> Option<Seq<u8>> {
    match o {
        Some(v) => Some(v@),
        None => None,
    }
}

impl View for SerializedType {
    type V = TypeView;

    open spec fn view(&self) -> TypeView {
        TypeView {
            class_id: self.class_id,
            is_stripped_type: self.is_stripped_type,
            script_type_index: self.script_type_index,
            script_id: opt_bytes(self.script_id),
            type_tree: node_views(self.type_tree@),
        }
    }
}

/// Where an object's data lies and of which type it is.
#[derive(Debug, Clone, Copy, PartialEq, Eq, Structural)]
pub struct ObjectInfo {
    pub path_id: i64,
    pub start: u64,
    pub size: u32,
    pub type_id: u32,
    pub class_id: Option<u16>,
}

/// Skipping `n` bytes that are read and discarded.
pub open spec fn sp_skip(d: Seq<u8>, pos: int, n: nat) -> Result<int, UnityError> {
    if 0 <= pos && pos + n <= d.len() {
        Ok(pos + n)
    } else {
        Err(UnityError::UnexpectedEof)
    }
}

/// Moving forward to the next multiple of 4; only a position past `u64::MAX` fails.
pub open spec fn sp_align4(pos: int) -> Result<int, UnityError> {
    if pos % 4 == 0 {
        Ok(pos)
    } else if pos + (4 - pos % 4) <= u64::MAX {
        Ok(pos + (4 - pos % 4))
    } else {
        Err(UnityError::InvalidData("invalid seek to an overflowing position"))
    }
}

/// Reads and discards `n` bytes.
fn skip_bytes(r: &mut Reader, n: usize) -> (res: Result<(), UnityError>)
    ensures
        final(r).data == old(r).data,
        res is Ok ==> sp_skip(old(r).data@, old(r).pos as int, n as nat) == Ok::<int, UnityError>(
            final(r).pos as int,
        ),
        res matches Err(e) ==> sp_skip(old(r).data@, old(r).pos as int, n as nat) == Err::<int, UnityError>(e),
{
    let _ = r.read_bytes(n)?;
    Ok(())
}

/// Aligns the reader to the next multiple of 4.
pub fn align_cursor(r: &mut Reader) -> (res: Result<(), UnityError>)
    ensures
        final(r).data == old(r).data,
        res is Ok ==> sp_align4(old(r).pos as int) == Ok::<int, UnityError>(final(r).pos as int),
        res matches Err(e) ==> sp_align4(old(r).pos as int) == Err::<int, UnityError>(e),
{
    r.align4()
}

/// Reading an object's entry at `pos` in a file of the given format version: its
/// location (32-bit path IDs before version 14 unless big IDs are enabled, aligned
/// from version 14 on, 64-bit start from version 22 on), its class ID before version
/// 16, and the fields that are skipped.
pub open spec fn sp_object_info(d: Seq<u8>, pos: int, big: bool, version: u32, big_id: bool) -> Result<
    (ObjectInfo, int),
    UnityError,
> {
    let start = if big_id || version < 14 {
        Ok(pos)
    } else {
        sp_align4(pos)
    };
    match start {
        Err(e) => Err(e),
        Ok(q) => {
            let pw: nat = if big_id || version >= 14 {
                8
            } else {
                4
            };
            let sw: nat = if !big_id && version >= 22 {
                8
            } else {
                4
            };
            let p = q + pw + sw + 8;
            if q + pw + sw + 8 > d.len() {
                Err(UnityError::UnexpectedEof)
            } else {
                let path_id = if pw == 8 {
                    (uint_at(d, q, 8, big) as u64) as i64
                } else {
                    (uint_at(d, q, 4, big) as u32) as i64
                };
                let obj_start = uint_at(d, q + pw, sw, big) as u64;
                let size = uint_at(d, q + pw + sw, 4, big) as u32;
                let type_id = uint_at(d, q + pw + sw + 4, 4, big) as u32;
                let class = if version < 16 {
                    match sp_uint(d, p, 2, big) {
                        Err(e) => Err(e),
                        Ok((c, p2)) => Ok((Some(c as u16), p2)),
                    }
                } else {
                    Ok((None::<u16>, p))
                };
                match class {
                    Err(e) => Err(e),
                    Ok((class_id, p2)) => {
                        let rest: nat = (if version < 11 {
                            2nat
                        } else {
                            0nat
                        }) + (if 11 <= version < 17 {
                            2nat
                        } else {
                            0nat
                        }) + (if 15 <= version < 17 {
                            1nat
                        } else {
                            0nat
                        });
                        match sp_skip(d, p2, rest) {
                            Err(e) => Err(e),
                            Ok(p3) => Ok(
                                (
                                    ObjectInfo { path_id, start: obj_start, size, type_id, class_id },
                                    p3,
                                ),
                            ),
                        }
                    },
                }
            }
        },
    }
}

/// Whether a type has a script ID: from version 13 on, for a referenced type with a
/// script type index, for a class ID with the top bit set before version 16, or for
/// a script (class 114) from version 16 on.
pub open spec fn has_script_id(
    version: u32,
    is_ref_type: bool,
    class_id: u32,
    script_type_index: Option<u16>,
) -> bool {
    version >= 13 && ((is_ref_type && script_type_index is Some) || (version < 16 && class_id
        >= 0x8000_0000) || (version >= 16 && class_id == 114))
}

/// Reading what follows a type tree from version 21 on: three zero-terminated names
/// for a referenced type, else a list of 32-bit dependencies.
pub open spec fn sp_type_extra(d: Seq<u8>, pos: int, big: bool, is_ref_type: bool) -> Result<int, UnityError> {
    if is_ref_type {
        match sp_cstr(d, pos) {
            Err(e) => Err(e),
            Ok((_, p1)) => match sp_cstr(d, p1) {
                Err(e) => Err(e),
                Ok((_, p2)) => match sp_cstr(d, p2) {
                    Err(e) => Err(e),
                    Ok((_, p3)) => Ok(p3),
                },
            },
        }
    } else {
        match sp_uint(d, pos, 4, big) {
            Err(e) => Err(e),
            Ok((count, p1)) => sp_skip(d, p1, 4 * count),
        }
    }
}

/// Reading a type's tree (where type trees are enabled) and what follows it.
pub open spec fn sp_type_tree_part(
    d: Seq<u8>,
    pos: int,
    big: bool,
    version: u32,
    enable_type_tree: bool,
    is_ref_type: bool,
) -> Result<(Seq<NodeView>, int), UnityError> {
    if !enable_type_tree {
        Ok((Seq::empty(), pos))
    } else {
        let tree = if version >= 12 || version == 10 {
            sp_type_tree_blob(d, pos, big, version)
        } else {
            match sp_legacy_tree(d, pos, big, version) {
                Err(e) => Err(e),
                Ok(p) => Ok((Seq::<NodeView>::empty(), p)),
            }
        };
        match tree {
            Err(e) => Err(e),
            Ok((nodes, p)) => if version >= 21 {
                match sp_type_extra(d, p, big, is_ref_type) {
                    Err(e) => Err(e),
                    Ok(p2) => Ok((nodes, p2)),
                }
            } else {
                Ok((nodes, p))
            },
        }
    }
}

/// Reading a serialized type at `pos`: its class ID, the stripped flag (version 16 on),
/// the big-endian script type index (version 17 on), the script ID where it has one,
/// a skipped 16-byte hash (version 13 on), then its tree.
pub open spec fn sp_serialized_type(
    d: Seq<u8>,
    pos: int,
    big: bool,
    version: u32,
    enable_type_tree: bool,
    is_ref_type: bool,
) -> Result<(TypeView, int), UnityError> {
    match sp_uint(d, pos, 4, big) {
        Err(e) => Err(e),
        Ok((class_id, p1)) => {
            let stripped = if version >= 16 {
                match sp_uint(d, p1, 1, big) {
                    Err(e) => Err(e),
                    Ok((b, p)) => Ok((b != 0, p)),
                }
            } else {
                Ok((false, p1))
            };
            match stripped {
                Err(e) => Err(e),
                Ok((is_stripped_type, p2)) => {
                    let sti = if version >= 17 {
                        match sp_uint(d, p2, 2, true) {
                            Err(e) => Err(e),
                            Ok((v, p)) => Ok((Some(v as u16), p)),
                        }
                    } else {
                        Ok((None::<u16>, p2))
                    };
                    match sti {
                        Err(e) => Err(e),
                        Ok((script_type_index, p3)) => {
                            let sid = if has_script_id(version, is_ref_type, class_id as u32, script_type_index) {
                                match sp_skip(d, p3, 16) {
                                    Err(e) => Err(e),
                                    Ok(p) => Ok((Some(d.subrange(p3, p)), p)),
                                }
                            } else {
                                Ok((None::<Seq<u8>>, p3))
                            };
                            match sid {
                                Err(e) => Err(e),
                                Ok((script_id, p4)) => {
                                    let hash = if version >= 13 {
                                        sp_skip(d, p4, 16)
                                    } else {
                                        Ok(p4)
                                    };
                                    match hash {
                                        Err(e) => Err(e),
                                        Ok(p5) => match sp_type_tree_part(
                                            d,
                                            p5,
                                            big,
                                            version,
                                            enable_type_tree,
                                            is_ref_type,
                                        ) {
                                            Err(e) => Err(e),
                                            Ok((type_tree, p6)) => Ok(
                                                (
                                                    TypeView {
                                                        class_id: class_id as u32,
                                                        is_stripped_type,
                                                        script_type_index,
                                                        script_id,
                                                        type_tree,
                                                    },
                                                    p6,
                                                ),
                                            ),
                                        },
                                    }
                                },
                            }
                        },
                    }
                },
            }
        },
    }
}

/// Information about a serialized file: its header, types and objects, over its bytes.
#[derive(Debug, Clone)]
pub struct SerializedFile<'a> {
    pub buf: &'a [u8],
    pub metadata_size: u32,
    pub file_size: u64,
    pub version: u32,
    pub data_offset: u64,
    pub unity_version: Option<Vec<u8>>,
    pub target_platform: Option<u32>,
    pub is_big_endian: bool,
    pub enable_type_tree: bool,
    pub big_id_enabled: bool,
    pub types: Vec<SerializedType>,
    pub objects: Vec<ObjectInfo>,
}

/// The values of a list of serialized types.
pub open spec fn type_views(v: Seq<SerializedType>) -> Seq<TypeView> {
    Seq::new(v.len(), |i: int| v[i]@)
}

impl<'a> SerializedFile<'a> {
    /// Reads an object's entry.
    fn read_object_info(&self, r: &mut Reader) -> (res: Result<ObjectInfo, UnityError>)
        ensures
            final(r).data == old(r).data,
            res matches Ok(o) ==> sp_object_info(
                old(r).data@,
                old(r).pos as int,
                self.is_big_endian,
                self.version,
                self.big_id_enabled,
            ) == Ok::<(ObjectInfo, int), UnityError>((o, final(r).pos as int)),
            res matches Err(e) ==> sp_object_info(
                old(r).data@,
                old(r).pos as int,
                self.is_big_endian,
                self.version,
                self.big_id_enabled,
            ) == Err::<(ObjectInfo, int), UnityError>(e),
    {
        let big = self.is_big_endian;
        let version = self.version;
        if !self.big_id_enabled && version >= 14 {
            align_cursor(r)?;
        }
        let ghost q = r.pos as int;
        let path_id: i64 = if self.big_id_enabled || version >= 14 {
            match r.read_u64(big) {
                Ok(v) => v as i64,
                Err(e) => {
                    return Err(e);
                },
            }
        } else {
            match r.read_u32(big) {
                Ok(v) => v as i64,
                Err(e) => {
                    return Err(e);
                },
            }
        };
        let start: u64 = if !self.big_id_enabled && version >= 22 {
            match r.read_u64(big) {
                Ok(v) => v,
                Err(e) => {
                    return Err(e);
                },
            }
        } else {
            match r.read_u32(big) {
                Ok(v) => v as u64,
                Err(e) => {
                    return Err(e);
                },
            }
        };
        let size = r.read_u32(big)?;
        let type_id = r.read_u32(big)?;
        let class_id = if version < 16 {
            Some(r.read_u16(big)?)
        } else {
            None
        };
        let ghost p2 = r.pos as int;
        if version < 11 {
            let _is_destroyed = r.read_u16(big)?;
        }
        if version >= 11 && version < 17 {
            let _script_type_index = r.read_u16(big)?;
        }
        if version >= 15 && version < 17 {
            let _stripped = r.read_u8()?;
        }
        Ok(ObjectInfo { path_id, start, size, type_id, class_id })
    }

    /// Reads a serialized type.
    fn read_serialized_type(&self, r: &mut Reader, is_ref_type: bool) -> (res: Result<SerializedType, UnityError>)
        ensures
            final(r).data == old(r).data,
            res matches Ok(t) ==> sp_serialized_type(
                old(r).data@,
                old(r).pos as int,
                self.is_big_endian,
                self.version,
                self.enable_type_tree,
                is_ref_type,
            ) == Ok::<(TypeView, int), UnityError>((t@, final(r).pos as int)),
            res matches Err(e) ==> sp_serialized_type(
                old(r).data@,
                old(r).pos as int,
                self.is_big_endian,
                self.version,
                self.enable_type_tree,
                is_ref_type,
            ) == Err::<(TypeView, int), UnityError>(e),
    {
        let big = self.is_big_endian;
        let version = self.version;
        let ghost d = r.data@;
        let class_id = r.read_u32(big)?;
        let is_stripped_type = if version >= 16 {
            r.read_uint(1, big)? != 0
        } else {
            false
        };
        let script_type_index = if version >= 17 {
            Some(r.read_u16(true)?)
        } else {
            None
        };
        let ghost p3 = r.pos as int;
        let mut script_id: Option<Vec<u8>> = None;
        if version >= 13 {
            if (is_ref_type && script_type_index.is_some()) || (version < 16 && class_id >= 0x8000_0000) || (
            version >= 16 && class_id == 114) {
                let b = r.read_bytes(16)?;
                script_id = Some(super::reader::bytes_to_vec(b));
            }
            skip_bytes(r, 16)?;
        }
        let type_tree = read_type_tree_part(r, big, version, self.enable_type_tree, is_ref_type)?;
        Ok(SerializedType { class_id, is_stripped_type, script_type_index, script_id, type_tree })
    }
}

/// Reads what follows a type tree from version 21 on.
#[verifier::loop_isolation(false)]
fn read_type_extra(r: &mut Reader, big: bool, is_ref_type: bool) -> (res: Result<(), UnityError>)
    ensures
        final(r).data == old(r).data,
        res is Ok ==> sp_type_extra(old(r).data@, old(r).pos as int, big, is_ref_type) == Ok::<int, UnityError>(
            final(r).pos as int,
        ),
        res matches Err(e) ==> sp_type_extra(old(r).data@, old(r).pos as int, big, is_ref_type) == Err::<
            int,
            UnityError,
        >(e),
{
    if is_ref_type {
        let _class_name = r.read_cstr()?;
        let _namespace = r.read_cstr()?;
        let _asm_name = r.read_cstr()?;
        Ok(())
    } else {
        let ghost d = r.data@;
        let ghost d0 = r.data;
        let count = r.read_u32(big)?;
        let ghost p1 = r.pos as int;
        let mut k: u32 = 0;
        while k < count
            invariant
                r.data == d0,
                r.data@ == d,
                0 <= k <= count,
                r.pos == p1 + 4 * k,
                p1 + 4 * k <= d.len(),
            decreases count - k,
        {
            match r.read_u32(big) {
                Ok(_) => {},
                Err(e) => {
                    assert(p1 + 4 * count > d.len()) by (nonlinear_arith)
                        requires
                            p1 + 4 * k + 4 > d.len(),
                            k < count,
                    ;
                    return Err(e);
                },
            }
            k = k + 1;
        }
        Ok(())
    }
}

/// Reads a type's tree (where type trees are enabled) and what follows it.
fn read_type_tree_part(
    r: &mut Reader,
    big: bool,
    version: u32,
    enable_type_tree: bool,
    is_ref_type: bool,
) -> (res: Result<Vec<TypeTreeNode>, UnityError>)
    ensures
        final(r).data == old(r).data,
        res matches Ok(v) ==> sp_type_tree_part(
            old(r).data@,
            old(r).pos as int,
            big,
            version,
            enable_type_tree,
            is_ref_type,
        ) == Ok::<(Seq<NodeView>, int), UnityError>((node_views(v@), final(r).pos as int)),
        res matches Err(e) ==> sp_type_tree_part(
            old(r).data@,
            old(r).pos as int,
            big,
            version,
            enable_type_tree,
            is_ref_type,
        ) == Err::<(Seq<NodeView>, int), UnityError>(e),
{
    if !enable_type_tree {
        let v: Vec<TypeTreeNode> = Vec::new();
        assert(node_views(v@) =~= Seq::<NodeView>::empty());
        return Ok(v);
    }
    let type_tree = if version >= 12 || version == 10 {
        read_type_tree_blob(r, big, version)?
    } else {
        let v = read_type_tree(r, big, version)?;
        assert(node_views(v@) =~= Seq::<NodeView>::empty());
        v
    };
    if version >= 21 {
        read_type_extra(r, big, is_ref_type)?;
    }
    Ok(type_tree)
}

/// The header fields of a serialized file as values.
pub struct Prelude {
    pub metadata_size: u32,
    pub file_size: u64,
    pub version: u32,
    pub data_offset: u64,
    pub is_big_endian: bool,
    pub unity_version: Option<Seq<u8>>,
    pub target_platform: Option<u32>,
    pub enable_type_tree: bool,
}

/// The big-endian 32-bit header fields: metadata size, file size, version and data
/// offset, in that order.
pub open spec fn header_field(d: Seq<u8>, k: int) -> nat {
    uint_at(d, 4 * k, 4, true)
}

/// A file before format version 9, which keeps its byte-order flag at `file_size -
/// metadata_size`, has a file size not below its metadata size (else that position
/// underflows).
pub open spec fn legacy_header_sane(d: Seq<u8>) -> bool {
    d.len() >= 16 && header_field(d, 2) < 9 ==> header_field(d, 1) >= header_field(d, 0)
}

/// Reading a byte that is a flag: whether it is non-zero.
pub open spec fn sp_flag(d: Seq<u8>, pos: int) -> Result<(bool, int), UnityError> {
    match sp_uint(d, pos, 1, false) {
        Err(e) => Err(e),
        Ok((b, p)) => Ok((b != 0, p)),
    }
}

/// Reading the header of a serialized file: the big-endian main header; the
/// byte-order flag (followed by 3 reserved bytes from version 9 on, else at `file_size
/// - metadata_size`); from version 22 on, 64-bit sizes that replace those of the main
/// header; the Unity version string (version 7 on); the target platform (version 8
/// on, in the file's byte order); and whether type trees are present (version 13 on).
pub open spec fn sp_prelude(d: Seq<u8>) -> Result<(Prelude, int), UnityError> {
    if d.len() < 16 {
        Err(UnityError::UnexpectedEof)
    } else {
        let m = header_field(d, 0);
        let f = header_field(d, 1);
        let v = header_field(d, 2) as u32;
        let o = header_field(d, 3);
        let endian = if v >= 9 {
            match sp_flag(d, 16) {
                Err(e) => Err(e),
                Ok((b, p)) => match sp_skip(d, p, 3) {
                    Err(e) => Err(e),
                    Ok(p2) => Ok((b, p2)),
                },
            }
        } else {
            sp_flag(d, f - m)
        };
        match endian {
            Err(e) => Err(e),
            Ok((big, p1)) => {
                let ext = if v >= 22 {
                    if p1 + 28 <= d.len() {
                        Ok(
                            (
                                uint_at(d, p1, 4, true) as u32,
                                uint_at(d, p1 + 4, 8, true) as u64,
                                uint_at(d, p1 + 12, 8, true) as u64,
                                p1 + 28,
                            ),
                        )
                    } else {
                        Err(UnityError::UnexpectedEof)
                    }
                } else {
                    Ok((m as u32, f as u64, o as u64, p1))
                };
                match ext {
                    Err(e) => Err(e),
                    Ok((ms, fs, dof, p2)) => {
                        let uv = if v >= 7 {
                            match sp_cstr(d, p2) {
                                Err(e) => Err(e),
                                Ok((b, p)) => Ok((Some(b), p)),
                            }
                        } else {
                            Ok((None::<Seq<u8>>, p2))
                        };
                        match uv {
                            Err(e) => Err(e),
                            Ok((unity_version, p3)) => {
                                let tp = if v >= 8 {
                                    match sp_uint(d, p3, 4, big) {
                                        Err(e) => Err(e),
                                        Ok((t, p)) => Ok((Some(t as u32), p)),
                                    }
                                } else {
                                    Ok((None::<u32>, p3))
                                };
                                match tp {
                                    Err(e) => Err(e),
                                    Ok((target_platform, p4)) => {
                                        let tt = if v >= 13 {
                                            sp_flag(d, p4)
                                        } else {
                                            Ok((false, p4))
                                        };
                                        match tt {
                                            Err(e) => Err(e),
                                            Ok((enable_type_tree, p5)) => Ok(
                                                (
                                                    Prelude {
                                                        metadata_size: ms,
                                                        file_size: fs,
                                                        version: v,
                                                        data_offset: dof,
                                                        is_big_endian: big,
                                                        unity_version,
                                                        target_platform,
                                                        enable_type_tree,
                                                    },
                                                    p5,
                                                ),
                                            ),
                                        }
                                    },
                                }
                            },
                        }
                    },
                }
            },
        }
    }
}

/// Reading `n` serialized types one after the other.
pub open spec fn sp_types(d: Seq<u8>, pos: int, big: bool, version: u32, enable_type_tree: bool, n: nat) -> Result<
    (Seq<TypeView>, int),
    UnityError,
>
    decreases n,
{
    if n == 0 {
        Ok((Seq::empty(), pos))
    } else {
        match sp_types(d, pos, big, version, enable_type_tree, (n - 1) as nat) {
            Err(e) => Err(e),
            Ok((ts, p)) => match sp_serialized_type(d, p, big, version, enable_type_tree, false) {
                Err(e) => Err(e),
                Ok((t, p2)) => Ok((ts.push(t), p2)),
            },
        }
    }
}

proof fn lemma_types_error(d: Seq<u8>, pos: int, big: bool, version: u32, ett: bool, n: nat, m: nat)
    requires
        n <= m,
        sp_types(d, pos, big, version, ett, n) is Err,
    ensures
        sp_types(d, pos, big, version, ett, m) == sp_types(d, pos, big, version, ett, n),
    decreases m - n,
{
    if n < m {
        lemma_types_error(d, pos, big, version, ett, n, (m - 1) as nat);
    }
}

/// Reading `n` object entries one after the other.
pub open spec fn sp_objects(d: Seq<u8>, pos: int, big: bool, version: u32, big_id: bool, n: nat) -> Result<
    (Seq<ObjectInfo>, int),
    UnityError,
>
    decreases n,
{
    if n == 0 {
        Ok((Seq::empty(), pos))
    } else {
        match sp_objects(d, pos, big, version, big_id, (n - 1) as nat) {
            Err(e) => Err(e),
            Ok((os, p)) => match sp_object_info(d, p, big, version, big_id) {
                Err(e) => Err(e),
                Ok((o, p2)) => Ok((os.push(o), p2)),
            },
        }
    }
}

proof fn lemma_objects_error(d: Seq<u8>, pos: int, big: bool, version: u32, bid: bool, n: nat, m: nat)
    requires
        n <= m,
        sp_objects(d, pos, big, version, bid, n) is Err,
    ensures
        sp_objects(d, pos, big, version, bid, m) == sp_objects(d, pos, big, version, bid, n),
    decreases m - n,
{
    if n < m {
        lemma_objects_error(d, pos, big, version, bid, n, (m - 1) as nat);
    }
}

/// A serialized file as a value.
pub struct FileView {
    pub buf: Seq<u8>,
    pub metadata_size: u32,
    pub file_size: u64,
    pub version: u32,
    pub data_offset: u64,
    pub unity_version: Option<Seq<u8>>,
    pub target_platform: Option<u32>,
    pub is_big_endian: bool,
    pub enable_type_tree: bool,
    pub big_id_enabled: bool,
    pub types: Seq<TypeView>,
    pub objects: Seq<ObjectInfo>,
}

impl<'a> View for SerializedFile<'a> {
    type V = FileView;

    open spec fn view(&self) -> FileView {
        FileView {
            buf: self.buf@,
            metadata_size: self.metadata_size,
            file_size: self.file_size,
            version: self.version,
            data_offset: self.data_offset,
            unity_version: opt_bytes(self.unity_version),
            target_platform: self.target_platform,
            is_big_endian: self.is_big_endian,
            enable_type_tree: self.enable_type_tree,
            big_id_enabled: self.big_id_enabled,
            types: type_views(self.types@),
            objects: self.objects@,
        }
    }
}

/// Reading a serialized file: its header, its types (after their count), whether big
/// object IDs are enabled (versions 7 to 13), and its objects (after their count).
/// What follows the objects is not read.
pub open spec fn sp_read(d: Seq<u8>) -> Result<FileView, UnityError> {
    match sp_prelude(d) {
        Err(e) => Err(e),
        Ok((pre, p)) => {
            let big = pre.is_big_endian;
            let v = pre.version;
            match sp_uint(d, p, 4, big) {
                Err(e) => Err(e),
                Ok((tc, p1)) => match sp_types(d, p1, big, v, pre.enable_type_tree, tc) {
                    Err(e) => Err(e),
                    Ok((types, p2)) => {
                        let bid = if 7 <= v < 14 {
                            match sp_uint(d, p2, 4, big) {
                                Err(e) => Err(e),
                                Ok((b, p)) => Ok((b != 0, p)),
                            }
                        } else {
                            Ok((false, p2))
                        };
                        match bid {
                            Err(e) => Err(e),
                            Ok((big_id, p3)) => match sp_uint(d, p3, 4, big) {
                                Err(e) => Err(e),
                                Ok((oc, p4)) => match sp_objects(d, p4, big, v, big_id, oc) {
                                    Err(e) => Err(e),
                                    Ok((objects, _)) => Ok(
                                        FileView {
                                            buf: d,
                                            metadata_size: pre.metadata_size,
                                            file_size: pre.file_size,
                                            version: v,
                                            data_offset: pre.data_offset,
                                            unity_version: pre.unity_version,
                                            target_platform: pre.target_platform,
                                            is_big_endian: big,
                                            enable_type_tree: pre.enable_type_tree,
                                            big_id_enabled: big_id,
                                            types,
                                            objects,
                                        },
                                    ),
                                },
                            },
                        }
                    },
                },
            }
        },
    }
}

/// Whether bytes look like a complete serialized file: a main header whose file size
/// is not below its metadata size, a byte-order flag, and, per the 32-bit or (from
/// version 22 on) 64-bit header, a file size equal to the length and a data offset
/// within the file.
pub open spec fn sp_is_serialized_file(d: Seq<u8>) -> bool {
    if d.len() < 16 {
        false
    } else {
        let m = header_field(d, 0);
        let f = header_field(d, 1);
        let v = header_field(d, 2);
        let o = header_field(d, 3);
        if f < m {
            false
        } else {
            let flag_end = if v >= 9 {
                20
            } else {
                f - m + 1
            };
            if flag_end > d.len() {
                false
            } else if v >= 22 {
                flag_end + 28 <= d.len() && d.len() == (uint_at(d, flag_end + 4, 8, true) as u64) as usize
                    && uint_at(d, flag_end + 12, 8, true) <= uint_at(d, flag_end + 4, 8, true)
            } else {
                d.len() == (f as u32) as usize && o <= f
            }
        }
    }
}

/// The header fields of a serialized file.
pub open spec fn prelude_of(f: FileView) -> Prelude {
    Prelude {
        metadata_size: f.metadata_size,
        file_size: f.file_size,
        version: f.version,
        data_offset: f.data_offset,
        is_big_endian: f.is_big_endian,
        unity_version: f.unity_version,
        target_platform: f.target_platform,
        enable_type_tree: f.enable_type_tree,
    }
}

impl<'a> SerializedFile<'a> {
    /// Reads the header: a file without types and objects yet, and the position after
    /// the header.
    fn read_header(buf: &'a [u8]) -> (res: Result<(SerializedFile<'a>, u64), UnityError>)
        requires
            legacy_header_sane(buf@),
        ensures
            res matches Ok((f, p)) ==> sp_prelude(buf@) == Ok::<(Prelude, int), UnityError>(
                (prelude_of(f@), p as int),
            ) && f.buf == buf && f.types@.len() == 0 && f.objects@.len() == 0 && !f.big_id_enabled,
            res matches Err(e) ==> sp_prelude(buf@) == Err::<(Prelude, int), UnityError>(e),
    {
        let mut r = Reader::new(buf);
        let metadata_size = r.read_u32(true)?;
        let file_size = r.read_u32(true)?;
        let version = r.read_u32(true)?;
        let data_offset = r.read_u32(true)?;
        let is_big_endian = if version >= 9 {
            let endian = r.read_uint(1, false)?;
            let _reserved = r.read_bytes(3)?;
            endian != 0
        } else {
            r.set_position((file_size - metadata_size) as u64);
            r.read_uint(1, false)? != 0
        };
        let mut ms = metadata_size;
        let mut fs = file_size as u64;
        let mut dof = data_offset as u64;
        if version >= 22 {
            ms = r.read_u32(true)?;
            fs = r.read_u64(true)?;
            dof = r.read_u64(true)?;
            let _reserved = r.read_u64(true)?;
        }
        let unity_version = if version >= 7 {
            Some(r.read_cstr()?)
        } else {
            None
        };
        let target_platform = if version >= 8 {
            Some(r.read_u32(is_big_endian)?)
        } else {
            None
        };
        let enable_type_tree = if version >= 13 {
            r.read_uint(1, false)? != 0
        } else {
            false
        };
        let f = SerializedFile {
            buf,
            metadata_size: ms,
            file_size: fs,
            version,
            data_offset: dof,
            unity_version,
            target_platform,
            is_big_endian,
            enable_type_tree,
            big_id_enabled: false,
            types: Vec::new(),
            objects: Vec::new(),
        };
        Ok((f, r.pos))
    }

    /// Reads a buffer into a [`SerializedFile`]: its header, types and objects.
    pub fn read(buf: &'a [u8]) -> (res: Result<Self, UnityError>)
        requires
            legacy_header_sane(buf@),
        ensures
            res matches Ok(f) ==> sp_read(buf@) == Ok::<FileView, UnityError>(f@) && f.buf == buf,
            res matches Err(e) ==> sp_read(buf@) == Err::<FileView, UnityError>(e),
    {
        let ghost d = buf@;
        let (mut result, pos) = Self::read_header(buf)?;
        let ghost pre = prelude_of(result@);
        let big = result.is_big_endian;
        let version = result.version;
        let ett = result.enable_type_tree;
        let mut r = Reader::new(buf);
        r.set_position(pos);
        let type_count = r.read_u32(big)?;
        let ghost p1 = r.pos as int;
        assert(type_views(result.types@) =~= Seq::<TypeView>::empty());
        let mut i: u32 = 0;
        while i < type_count
            invariant
                r.data@ == d,
                d == buf@,
                result.buf == buf,
                result.version == version,
                result.is_big_endian == big,
                result.enable_type_tree == ett,
                prelude_of(result@) == pre,
                !result.big_id_enabled,
                result.objects@.len() == 0,
                sp_prelude(d) == Ok::<(Prelude, int), UnityError>((pre, pos as int)),
                pre.is_big_endian == big,
                pre.version == version,
                pre.enable_type_tree == ett,
                sp_uint(d, pos as int, 4, big) == Ok::<(nat, int), UnityError>((type_count as nat, p1)),
                sp_types(d, p1, big, version, ett, type_count as nat) matches Err(e) ==> sp_read(d) == Err::<
                    FileView,
                    UnityError,
                >(e),
                0 <= i <= type_count,
                sp_types(d, p1, big, version, ett, i as nat) == Ok::<(Seq<TypeView>, int), UnityError>(
                    (type_views(result.types@), r.pos as int),
                ),
            decreases type_count - i,
        {
            let t = match result.read_serialized_type(&mut r, false) {
                Ok(t) => t,
                Err(e) => {
                    proof {
                        lemma_types_error(d, p1, big, version, ett, (i + 1) as nat, type_count as nat);
                    }
                    return Err(e);
                },
            };
            let ghost before = result.types@;
            result.types.push(t);
            assert(type_views(result.types@) =~= type_views(before).push(t@));
            i = i + 1;
        }
        if version >= 7 && version < 14 {
            result.big_id_enabled = r.read_u32(big)? != 0;
        }
        let big_id = result.big_id_enabled;
        let ghost p3 = r.pos as int;
        let object_count = r.read_u32(big)?;
        let ghost p4 = r.pos as int;
        let ghost tv = type_views(result.types@);
        assert(sp_read(d) matches Ok(f) ==> f.types == tv);
        assert(result.objects@ =~= Seq::<ObjectInfo>::empty());
        let mut k: u32 = 0;
        while k < object_count
            invariant
                r.data@ == d,
                d == buf@,
                result.buf == buf,
                result.version == version,
                result.is_big_endian == big,
                result.enable_type_tree == ett,
                result.big_id_enabled == big_id,
                prelude_of(result@) == pre,
                type_views(result.types@) == tv,
                sp_read(d) == match sp_objects(d, p4, big, version, big_id, object_count as nat) {
                    Err(e) => Err::<FileView, UnityError>(e),
                    Ok((os, _)) => Ok(FileView { objects: os, ..result@ }),
                },
                0 <= k <= object_count,
                sp_objects(d, p4, big, version, big_id, k as nat) == Ok::<(Seq<ObjectInfo>, int), UnityError>(
                    (result.objects@, r.pos as int),
                ),
            decreases object_count - k,
        {
            let o = match result.read_object_info(&mut r) {
                Ok(o) => o,
                Err(e) => {
                    proof {
                        lemma_objects_error(d, p4, big, version, big_id, (k + 1) as nat, object_count as nat);
                    }
                    return Err(e);
                },
            };
            result.objects.push(o);
            k = k + 1;
        }
        Ok(result)
    }

    /// Determines whether a buffer represents a serialized file.
    pub fn is_serialized_file(buf: &[u8]) -> (r: bool)
        ensures
            r == sp_is_serialized_file(buf@),
    {
        let mut cursor = Reader::new(buf);
        let metadata_size = match cursor.read_u32(true) {
            Ok(v) => v,
            Err(_) => {
                return false;
            },
        };
        let file_size = match cursor.read_u32(true) {
            Ok(v) => v,
            Err(_) => {
                return false;
            },
        };
        let version = match cursor.read_u32(true) {
            Ok(v) => v,
            Err(_) => {
                return false;
            },
        };
        let data_offset = match cursor.read_u32(true) {
            Ok(v) => v,
            Err(_) => {
                return false;
            },
        };
        if file_size < metadata_size {
            return false;
        }
        if version >= 9 {
            if cursor.read_bytes(4).is_err() {
                return false;
            }
        } else {
            cursor.set_position((file_size - metadata_size) as u64);
            if cursor.read_u8().is_err() {
                return false;
            }
        }
        if version >= 22 {
            let _ms = match cursor.read_u32(true) {
                Ok(v) => v,
                Err(_) => {
                    return false;
                },
            };
            let fs = match cursor.read_u64(true) {
                Ok(v) => v,
                Err(_) => {
                    return false;
                },
            };
            let dof = match cursor.read_u64(true) {
                Ok(v) => v,
                Err(_) => {
                    return false;
                },
            };
            if cursor.read_u64(true).is_err() {
                return false;
            }
            buf.len() == fs as usize && dof <= fs
        } else {
            buf.len() == file_size as usize && data_offset <= file_size
        }
    }

    /// Gets the serialized types.
    pub fn types(&self) -> (r: &[SerializedType])
        ensures
            r@ == self.types@,
    {
        self.types.as_slice()
    }
}

/// The layout of an object entry. The entry starts at `pos`, moved up to a multiple of
/// 4 from version 14 on (unless big IDs are enabled), and holds path ID, start, size
/// and type ID, in the file's byte order:
/// - with big IDs: a 64-bit path ID, then 32-bit start, size and type ID;
/// - before version 14: all four 32 bits wide;
/// - from version 14 on: a 64-bit path ID, then 32-bit start, size and type ID;
/// - from version 22 on: a 64-bit path ID and a 64-bit start, then 32-bit size and
///   type ID.
pub proof fn lemma_object_entry_layout(d: Seq<u8>, pos: int, big: bool, version: u32, big_id: bool)
    ensures
        sp_object_info(d, pos, big, version, big_id) matches Ok((info, _)) ==> {
            let q = if big_id || version < 14 || pos % 4 == 0 { pos } else { pos + 4 - pos % 4 };
            if big_id {
                &&& info.path_id == (uint_at(d, q, 8, big) as u64) as i64
                &&& info.start == uint_at(d, q + 8, 4, big)
                &&& info.size == uint_at(d, q + 12, 4, big)
                &&& info.type_id == uint_at(d, q + 16, 4, big)
            } else if version < 14 {
                &&& info.path_id == (uint_at(d, q, 4, big) as u32) as i64
                &&& info.start == uint_at(d, q + 4, 4, big)
                &&& info.size == uint_at(d, q + 8, 4, big)
                &&& info.type_id == uint_at(d, q + 12, 4, big)
            } else if version < 22 {
                &&& info.path_id == (uint_at(d, q, 8, big) as u64) as i64
                &&& info.start == uint_at(d, q + 8, 4, big)
                &&& info.size == uint_at(d, q + 12, 4, big)
                &&& info.type_id == uint_at(d, q + 16, 4, big)
            } else {
                &&& info.path_id == (uint_at(d, q, 8, big) as u64) as i64
                &&& info.start == uint_at(d, q + 8, 8, big)
                &&& info.size == uint_at(d, q + 16, 4, big)
                &&& info.type_id == uint_at(d, q + 20, 4, big)
            }
        },
{
    if let Ok((info, _)) = sp_object_info(d, pos, big, version, big_id) {
        let q = if big_id || version < 14 || pos % 4 == 0 { pos } else { pos + 4 - pos % 4 };
        lemma_uint_bound(d, q + 8, 4, big);
        lemma_uint_bound(d, q + 8, 8, big);
        lemma_uint_bound(d, q + 4, 4, big);
        lemma_uint_bound(d, q + 12, 4, big);
        lemma_uint_bound(d, q + 16, 4, big);
        lemma_uint_bound(d, q + 20, 4, big);
        lemma_uint_bound(d, q + 8, 4, big);
    }
}

/// A buffer that is recognised as a serialized file can be read: its header never
/// places the byte-order flag below zero.
pub proof fn lemma_recognised_file_is_readable(d: Seq<u8>)
    requires
        sp_is_serialized_file(d),
    ensures
        legacy_header_sane(d),
{
}

} // verus!
