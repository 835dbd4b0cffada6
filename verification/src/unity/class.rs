use vstd::prelude::*;
use super::error::{ErrorView, UnityError, UnityMismatch};
use super::reader::{sp_uint, Reader};
use super::serialized::sp_align4;
use super::tree::{lemma_split_views, lemma_subtree_end_v, node_views, split_tree, split_views, NodeView, TypeTreeNode};
use super::type_tree::{sp_utf8, utf8_to_string};
use super::streaming_info::Offset;

verus! {

/// An error result as a value.
pub open spec fn ev<A>(r: Result<A, UnityError>) -> Result<A, ErrorView> {
    match r {
        Ok(a) => Ok(a),
        Err(e) => Err(e@),
    }
}

/// Whether a string is `lit`.
pub fn str_is(s: &String, lit: &str) -> (r: bool)
    ensures
        r == (s@ == lit@),
{
    let o = lit.to_owned();
    *s == o
}

/// The error for a node whose type is not the expected one.
pub fn mismatch(expected: &str, root: &TypeTreeNode) -> (e: UnityError)
    ensures
        e@ == ErrorView::Mismatch(expected@, root.type_string@),
{
    UnityError::Mismatch(UnityMismatch { expected: expected.to_owned(), received: root.type_string.clone() })
}

/// The position after a node's value: aligned to 4 bytes where the node asks for it.
pub open spec fn sp_after(root: NodeView, p: int) -> Result<int, ErrorView> {
    if root.meta_flags & 0x4000 != 0 {
        ev(sp_align4(p))
    } else {
        Ok(p)
    }
}

/// Aligns the reader after a node's value where the node asks for it.
pub fn align_reader(r: &mut Reader, root: &TypeTreeNode) -> (res: Result<(), UnityError>)
    ensures
        final(r).data == old(r).data,
        res is Ok ==> sp_after(root@, old(r).pos as int) == Ok::<int, ErrorView>(final(r).pos as int),
        res matches Err(e) ==> sp_after(root@, old(r).pos as int) == Err::<int, ErrorView>(e@),
        res is Err ==> final(r).pos == old(r).pos,
{
    if root.meta_flags & 0x4000 != 0 {
        r.align4()
    } else {
        Ok(())
    }
}

/// A type whose values can be read from object data under a type tree.
pub trait UnityClass: Sized {
    /// What a value stands for.
    type Model;

    /// The value as a model.
    spec fn model(&self) -> Self::Model;

    /// Reading a value at `pos` under the node `root` with descendants `tree`: the
    /// value and the position after it.
    spec fn sp_parse(d: Seq<u8>, pos: int, big: bool, root: NodeView, tree: Seq<NodeView>) -> Result<
        (Self::Model, int),
        ErrorView,
    >;

    /// Parses a value under `root`, whose descendants are `tree`.
    fn parse_tree(r: &mut Reader, big: bool, root: &TypeTreeNode, tree: &[TypeTreeNode]) -> (res: Result<
        Self,
        UnityError,
    >)
        ensures
            final(r).data == old(r).data,
            res matches Ok(v) ==> Self::sp_parse(old(r).data@, old(r).pos as int, big, root@, node_views(tree@))
                == Ok::<(Self::Model, int), ErrorView>((v.model(), final(r).pos as int)),
            res matches Err(e) ==> Self::sp_parse(old(r).data@, old(r).pos as int, big, root@, node_views(tree@))
                == Err::<(Self::Model, int), ErrorView>(e@),
    ;
}

/// Reading an unsigned value of `n` bytes under a node whose type `ok` says is the
/// right one (else a mismatch with `expected`).
pub open spec fn sp_prim(
    d: Seq<u8>,
    pos: int,
    big: bool,
    root: NodeView,
    ok: bool,
    expected: Seq<char>,
    n: nat,
) -> Result<(nat, int), ErrorView> {
    if !ok {
        Err(ErrorView::Mismatch(expected, root.type_string))
    } else {
        match sp_uint(d, pos, n, big) {
            Err(e) => Err(e@),
            Ok((v, p)) => match sp_after(root, p) {
                Err(e) => Err(e),
                Ok(p2) => Ok((v, p2)),
            },
        }
    }
}

/// Reads an unsigned value of `n` bytes.
fn read_prim(r: &mut Reader, big: bool, root: &TypeTreeNode, ok: bool, expected: &str, n: usize) -> (res: Result<
    u64,
    UnityError,
>)
    requires
        1 <= n <= 8,
    ensures
        final(r).data == old(r).data,
        res matches Ok(v) ==> sp_prim(old(r).data@, old(r).pos as int, big, root@, ok, expected@, n as nat)
            == Ok::<(nat, int), ErrorView>((v as nat, final(r).pos as int)),
        res matches Err(e) ==> sp_prim(old(r).data@, old(r).pos as int, big, root@, ok, expected@, n as nat)
            == Err::<(nat, int), ErrorView>(e@),
        res is Err ==> final(r).pos == if ok && sp_uint(old(r).data@, old(r).pos as int, n as nat, big) is Ok {
            old(r).pos + n
        } else {
            old(r).pos as int
        },
{
    if !ok {
        return Err(mismatch(expected, root));
    }
    let v = r.read_uint(n, big)?;
    align_reader(r, root)?;
    Ok(v)
}

/// The type names a `u8` is read under.
pub open spec fn u8_type(t: Seq<char>) -> bool {
    t == "UInt8"@ || t == "char"@
}

/// The type names an `i32` is read under.
pub open spec fn i32_type(t: Seq<char>) -> bool {
    t == "SInt32"@ || t == "int"@
}

/// The type names a `u32` is read under.
pub open spec fn u32_type(t: Seq<char>) -> bool {
    t == "UInt32"@ || t == "unsigned int"@ || t == "Type*"@
}

/// The type names a `u64` is read under.
pub open spec fn u64_type(t: Seq<char>) -> bool {
    t == "UInt64"@ || t == "unsigned long long"@ || t == "FileSize"@
}

impl UnityClass for u8 {
    type Model = u8;

    open spec fn model(&self) -> u8 {
        *self
    }

    open spec fn sp_parse(d: Seq<u8>, pos: int, big: bool, root: NodeView, tree: Seq<NodeView>) -> Result<
        (u8, int),
        ErrorView,
    > {
        match sp_prim(d, pos, big, root, u8_type(root.type_string), "UInt8"@, 1) {
            Err(e) => Err(e),
            Ok((v, p)) => Ok((v as u8, p)),
        }
    }

    fn parse_tree(r: &mut Reader, big: bool, root: &TypeTreeNode, tree: &[TypeTreeNode]) -> (res: Result<
        u8,
        UnityError,
    >) {
        let ok = str_is(&root.type_string, "UInt8") || str_is(&root.type_string, "char");
        let v = read_prim(r, big, root, ok, "UInt8", 1)?;
        proof {
            super::reader::lemma_uint_bound(old(r).data@, old(r).pos as int, 1, big);
            vstd::arithmetic::power2::lemma2_to64();
        }
        Ok(v as u8)
    }
}

impl UnityClass for i32 {
    type Model = i32;

    open spec fn model(&self) -> i32 {
        *self
    }

    open spec fn sp_parse(d: Seq<u8>, pos: int, big: bool, root: NodeView, tree: Seq<NodeView>) -> Result<
        (i32, int),
        ErrorView,
    > {
        match sp_prim(d, pos, big, root, i32_type(root.type_string), "SInt32"@, 4) {
            Err(e) => Err(e),
            Ok((v, p)) => Ok(((v as u32) as i32, p)),
        }
    }

    fn parse_tree(r: &mut Reader, big: bool, root: &TypeTreeNode, tree: &[TypeTreeNode]) -> (res: Result<
        i32,
        UnityError,
    >) {
        let ok = str_is(&root.type_string, "SInt32") || str_is(&root.type_string, "int");
        let v = read_prim(r, big, root, ok, "SInt32", 4)?;
        proof {
            super::reader::lemma_uint_bound(old(r).data@, old(r).pos as int, 4, big);
        }
        Ok((v as u32) as i32)
    }
}

impl UnityClass for u32 {
    type Model = u32;

    open spec fn model(&self) -> u32 {
        *self
    }

    open spec fn sp_parse(d: Seq<u8>, pos: int, big: bool, root: NodeView, tree: Seq<NodeView>) -> Result<
        (u32, int),
        ErrorView,
    > {
        match sp_prim(d, pos, big, root, u32_type(root.type_string), "UInt32"@, 4) {
            Err(e) => Err(e),
            Ok((v, p)) => Ok((v as u32, p)),
        }
    }

    fn parse_tree(r: &mut Reader, big: bool, root: &TypeTreeNode, tree: &[TypeTreeNode]) -> (res: Result<
        u32,
        UnityError,
    >) {
        let ok = str_is(&root.type_string, "UInt32") || str_is(&root.type_string, "unsigned int") || str_is(
            &root.type_string,
            "Type*",
        );
        let v = read_prim(r, big, root, ok, "UInt32", 4)?;
        proof {
            super::reader::lemma_uint_bound(old(r).data@, old(r).pos as int, 4, big);
        }
        Ok(v as u32)
    }
}

impl UnityClass for u64 {
    type Model = u64;

    open spec fn model(&self) -> u64 {
        *self
    }

    open spec fn sp_parse(d: Seq<u8>, pos: int, big: bool, root: NodeView, tree: Seq<NodeView>) -> Result<
        (u64, int),
        ErrorView,
    > {
        match sp_prim(d, pos, big, root, u64_type(root.type_string), "UInt64"@, 8) {
            Err(e) => Err(e),
            Ok((v, p)) => Ok((v as u64, p)),
        }
    }

    fn parse_tree(r: &mut Reader, big: bool, root: &TypeTreeNode, tree: &[TypeTreeNode]) -> (res: Result<
        u64,
        UnityError,
    >) {
        let ok = str_is(&root.type_string, "UInt64") || str_is(&root.type_string, "unsigned long long")
            || str_is(&root.type_string, "FileSize");
        read_prim(r, big, root, ok, "UInt64", 8)
    }
}

/// The type names an `i8` is read under.
pub open spec fn i8_type(t: Seq<char>) -> bool {
    t == "SInt8"@
}

/// The type names an `i16` is read under.
pub open spec fn i16_type(t: Seq<char>) -> bool {
    t == "SInt16"@ || t == "short"@
}

/// The type names an `u16` is read under.
pub open spec fn u16_type(t: Seq<char>) -> bool {
    t == "UInt16"@ || t == "unsigned short"@
}

/// The type names an `i64` is read under.
pub open spec fn i64_type(t: Seq<char>) -> bool {
    t == "SInt64"@ || t == "long long"@
}

impl UnityClass for i8 {
    type Model = i8;

    open spec fn model(&self) -> i8 {
        *self
    }

    open spec fn sp_parse(d: Seq<u8>, pos: int, big: bool, root: NodeView, tree: Seq<NodeView>) -> Result<
        (i8, int),
        ErrorView,
    > {
        match sp_prim(d, pos, big, root, i8_type(root.type_string), "SInt8"@, 1) {
            Err(e) => Err(e),
            Ok((v, p)) => Ok(((v as u8) as i8, p)),
        }
    }

    fn parse_tree(r: &mut Reader, big: bool, root: &TypeTreeNode, tree: &[TypeTreeNode]) -> (res: Result<
        i8,
        UnityError,
    >) {
        let ok = str_is(&root.type_string, "SInt8");
        let v = read_prim(r, big, root, ok, "SInt8", 1)?;
        proof {
            super::reader::lemma_uint_bound(old(r).data@, old(r).pos as int, 1, big);
            vstd::arithmetic::power2::lemma2_to64();
        }
        Ok((v as u8) as i8)
    }
}

impl UnityClass for i16 {
    type Model = i16;

    open spec fn model(&self) -> i16 {
        *self
    }

    open spec fn sp_parse(d: Seq<u8>, pos: int, big: bool, root: NodeView, tree: Seq<NodeView>) -> Result<
        (i16, int),
        ErrorView,
    > {
        match sp_prim(d, pos, big, root, i16_type(root.type_string), "SInt16"@, 2) {
            Err(e) => Err(e),
            Ok((v, p)) => Ok(((v as u16) as i16, p)),
        }
    }

    fn parse_tree(r: &mut Reader, big: bool, root: &TypeTreeNode, tree: &[TypeTreeNode]) -> (res: Result<
        i16,
        UnityError,
    >) {
        let ok = str_is(&root.type_string, "SInt16") || str_is(&root.type_string, "short");
        let v = read_prim(r, big, root, ok, "SInt16", 2)?;
        proof {
            super::reader::lemma_uint_bound(old(r).data@, old(r).pos as int, 2, big);
            vstd::arithmetic::power2::lemma2_to64();
        }
        Ok((v as u16) as i16)
    }
}

impl UnityClass for u16 {
    type Model = u16;

    open spec fn model(&self) -> u16 {
        *self
    }

    open spec fn sp_parse(d: Seq<u8>, pos: int, big: bool, root: NodeView, tree: Seq<NodeView>) -> Result<
        (u16, int),
        ErrorView,
    > {
        match sp_prim(d, pos, big, root, u16_type(root.type_string), "UInt16"@, 2) {
            Err(e) => Err(e),
            Ok((v, p)) => Ok((v as u16, p)),
        }
    }

    fn parse_tree(r: &mut Reader, big: bool, root: &TypeTreeNode, tree: &[TypeTreeNode]) -> (res: Result<
        u16,
        UnityError,
    >) {
        let ok = str_is(&root.type_string, "UInt16") || str_is(&root.type_string, "unsigned short");
        let v = read_prim(r, big, root, ok, "UInt16", 2)?;
        proof {
            super::reader::lemma_uint_bound(old(r).data@, old(r).pos as int, 2, big);
            vstd::arithmetic::power2::lemma2_to64();
        }
        Ok(v as u16)
    }
}

impl UnityClass for i64 {
    type Model = i64;

    open spec fn model(&self) -> i64 {
        *self
    }

    open spec fn sp_parse(d: Seq<u8>, pos: int, big: bool, root: NodeView, tree: Seq<NodeView>) -> Result<
        (i64, int),
        ErrorView,
    > {
        match sp_prim(d, pos, big, root, i64_type(root.type_string), "SInt64"@, 8) {
            Err(e) => Err(e),
            Ok((v, p)) => Ok(((v as u64) as i64, p)),
        }
    }

    fn parse_tree(r: &mut Reader, big: bool, root: &TypeTreeNode, tree: &[TypeTreeNode]) -> (res: Result<
        i64,
        UnityError,
    >) {
        let ok = str_is(&root.type_string, "SInt64") || str_is(&root.type_string, "long long");
        let v = read_prim(r, big, root, ok, "SInt64", 8)?;
        Ok((v as u64) as i64)
    }
}

/// Skipping a value under `root` with descendants `tree`: a value of known size is
/// skipped at once, an array by skipping its element that many times, anything else
/// by skipping its children in turn; then the alignment the node asks for.
pub open spec fn sp_skip_node(d: Seq<u8>, pos: int, big: bool, root: NodeView, tree: Seq<NodeView>) -> Result<
    int,
    ErrorView,
>
    decreases tree.len(), 2int,
{
    let body = if root.size >= 0 {
        if pos + root.size <= u64::MAX {
            Ok(pos + root.size)
        } else {
            Err(ErrorView::InvalidData("invalid seek to an overflowing position"))
        }
    } else if root.type_string == "Array"@ || root.type_string == "TypelessData"@ {
        match sp_uint(d, pos, 4, big) {
            Err(e) => Err(e@),
            Ok((count, p)) => if tree.len() < 2 {
                Err(ErrorView::InvalidData("skipped array type data does not contain data element"))
            } else {
                sp_skip_repeat(d, p, big, tree[1], tree.subrange(2, tree.len() as int), count)
            },
        }
    } else {
        sp_skip_siblings(d, pos, big, tree)
    };
    match body {
        Err(e) => Err(e),
        Ok(p) => sp_after(root, p),
    }
}

/// Skipping `count` values under the same node.
pub open spec fn sp_skip_repeat(
    d: Seq<u8>,
    pos: int,
    big: bool,
    next: NodeView,
    children: Seq<NodeView>,
    count: nat,
) -> Result<int, ErrorView>
    decreases children.len() + 1, count,
{
    if count == 0 {
        Ok(pos)
    } else {
        match sp_skip_node(d, pos, big, next, children) {
            Err(e) => Err(e),
            Ok(p) => sp_skip_repeat(d, p, big, next, children, (count - 1) as nat),
        }
    }
}

/// Skipping the values of a list of sibling subtrees in turn.
pub open spec fn sp_skip_siblings(d: Seq<u8>, pos: int, big: bool, rest: Seq<NodeView>) -> Result<int, ErrorView>
    decreases rest.len(), 1int,
{
    match split_views(rest) {
        None => Ok(pos),
        Some((next, children, siblings)) => {
            proof {
                lemma_subtree_end_v(rest, rest[0].level, 1);
            }
            match sp_skip_node(d, pos, big, next, children) {
                Err(e) => Err(e),
                Ok(p) => sp_skip_siblings(d, p, big, siblings),
            }
        },
    }
}

proof fn lemma_skip_repeat_error(d: Seq<u8>, pos: int, big: bool, next: NodeView, children: Seq<NodeView>, p: int, k: nat, e: ErrorView)
    requires
        sp_skip_node(d, p, big, next, children) == Err::<int, ErrorView>(e),
        k > 0,
    ensures
        sp_skip_repeat(d, p, big, next, children, k) == Err::<int, ErrorView>(e),
{
}

/// Skips a value under `root`, whose descendants are `tree`.
#[verifier::loop_isolation(false)]
pub fn skip(r: &mut Reader, big: bool, root: &TypeTreeNode, tree: &[TypeTreeNode]) -> (res: Result<(), UnityError>)
    ensures
        final(r).data == old(r).data,
        res is Ok ==> sp_skip_node(old(r).data@, old(r).pos as int, big, root@, node_views(tree@)) == Ok::<
            int,
            ErrorView,
        >(final(r).pos as int),
        res matches Err(e) ==> sp_skip_node(old(r).data@, old(r).pos as int, big, root@, node_views(tree@))
            == Err::<int, ErrorView>(e@),
    decreases tree@.len(),
{
    let ghost d = r.data@;
    let ghost tv = node_views(tree@);
    if root.size >= 0 {
        match r.skip(root.size as u64) {
            Ok(()) => {},
            Err(e) => {
                return Err(e);
            },
        }
    } else if str_is(&root.type_string, "Array") || str_is(&root.type_string, "TypelessData") {
        let size = r.read_u32(big)?;
        if tree.len() < 2 {
            return Err(UnityError::InvalidData("skipped array type data does not contain data element"));
        }
        let next = &tree[1];
        let children = &tree[2..tree.len()];
        assert(node_views(children@) =~= tv.subrange(2, tv.len() as int));
        let ghost p0 = r.pos as int;
        let mut i: u32 = 0;
        while i < size
            invariant
                r.data@ == d,
                0 <= i <= size,
                sp_skip_repeat(d, p0, big, tv[1], tv.subrange(2, tv.len() as int), size as nat) == sp_skip_repeat(
                    d,
                    r.pos as int,
                    big,
                    next@,
                    node_views(children@),
                    (size - i) as nat,
                ),
                next@ == tv[1],
                node_views(children@) == tv.subrange(2, tv.len() as int),
                children@.len() < tree@.len(),
            decreases size - i,
        {
            match skip(r, big, next, children) {
                Ok(()) => {},
                Err(e) => {
                    return Err(e);
                },
            }
            i = i + 1;
        }
    } else {
        let ghost p0 = r.pos as int;
        let mut rest = tree;
        let mut done = false;
        while !done
            invariant
                r.data@ == d,
                rest@.len() <= tree@.len(),
                sp_skip_siblings(d, p0, big, tv) == sp_skip_siblings(d, r.pos as int, big, node_views(rest@)),
                done ==> split_views(node_views(rest@)) is None,
            decreases rest@.len() + if done {
                0int
            } else {
                1int
            },
        {
            proof {
                lemma_split_views(rest@);
            }
            match split_tree(rest) {
                None => {
                    done = true;
                },
                Some((next, children, siblings)) => {
                    proof {
                        lemma_subtree_end_v(node_views(rest@), node_views(rest@)[0].level, 1);
                        assert(node_views(children@).len() == children@.len());
                        assert(node_views(siblings@).len() == siblings@.len());
                        assert(children@.len() < rest@.len());
                    }
                    match skip(r, big, next, children) {
                        Ok(()) => {},
                        Err(e) => {
                            return Err(e);
                        },
                    }
                    rest = siblings;
                },
            }
        }
    }
    align_reader(r, root)
}

impl UnityClass for String {
    type Model = Seq<char>;

    open spec fn model(&self) -> Seq<char> {
        self@
    }

    open spec fn sp_parse(d: Seq<u8>, pos: int, big: bool, root: NodeView, tree: Seq<NodeView>) -> Result<
        (Seq<char>, int),
        ErrorView,
    > {
        if root.type_string != "string"@ {
            Err(ErrorView::Mismatch("string"@, root.type_string))
        } else if tree.len() == 0 {
            Err(ErrorView::InvalidData("string type data does not contain children"))
        } else {
            match <Vec<u8> as UnityClass>::sp_parse(d, pos, big, tree[0], tree.subrange(1, tree.len() as int)) {
                Err(e) => Err(e),
                Ok((b, p)) => match sp_utf8(b) {
                    Err(e) => Err(e@),
                    Ok(s) => Ok((s, p)),
                },
            }
        }
    }

    fn parse_tree(r: &mut Reader, big: bool, root: &TypeTreeNode, tree: &[TypeTreeNode]) -> (res: Result<
        String,
        UnityError,
    >) {
        if !str_is(&root.type_string, "string") {
            return Err(mismatch("string", root));
        }
        if tree.len() == 0 {
            return Err(UnityError::InvalidData("string type data does not contain children"));
        }
        let next = &tree[0];
        let children = &tree[1..tree.len()];
        assert(node_views(children@) =~= node_views(tree@).subrange(1, tree@.len() as int));
        let data = <Vec<u8> as UnityClass>::parse_tree(r, big, next, children)?;
        assert(data.model() =~= data@);
        utf8_to_string(data)
    }
}

/// Reading `n` values of `T` under the same node, one after the other.
pub open spec fn sp_items<T: UnityClass>(
    d: Seq<u8>,
    pos: int,
    big: bool,
    next: NodeView,
    children: Seq<NodeView>,
    n: nat,
) -> Result<(Seq<T::Model>, int), ErrorView>
    decreases n,
{
    if n == 0 {
        Ok((Seq::empty(), pos))
    } else {
        match sp_items::<T>(d, pos, big, next, children, (n - 1) as nat) {
            Err(e) => Err(e),
            Ok((vs, p)) => match T::sp_parse(d, p, big, next, children) {
                Err(e) => Err(e),
                Ok((v, p2)) => Ok((vs.push(v), p2)),
            },
        }
    }
}

proof fn lemma_items_error<T: UnityClass>(
    d: Seq<u8>,
    pos: int,
    big: bool,
    next: NodeView,
    children: Seq<NodeView>,
    n: nat,
    m: nat,
)
    requires
        n <= m,
        sp_items::<T>(d, pos, big, next, children, n) is Err,
    ensures
        sp_items::<T>(d, pos, big, next, children, m) == sp_items::<T>(d, pos, big, next, children, n),
    decreases m - n,
{
    if n < m {
        lemma_items_error::<T>(d, pos, big, next, children, n, (m - 1) as nat);
    }
}

impl<T: UnityClass> UnityClass for Vec<T> {
    type Model = Seq<T::Model>;

    open spec fn model(&self) -> Seq<T::Model> {
        Seq::new(self@.len(), |i: int| self@[i].model())
    }

    /// A `vector` node holds its array as its first child; an `Array` or
    /// `TypelessData` node holds the element count, then one element node that every
    /// element is read under.
    open spec fn sp_parse(d: Seq<u8>, pos: int, big: bool, root: NodeView, tree: Seq<NodeView>) -> Result<
        (Seq<T::Model>, int),
        ErrorView,
    >
        decreases tree.len(),
    {
        if root.type_string == "vector"@ {
            if tree.len() == 0 {
                Err(ErrorView::InvalidData("vector type data does not contain children"))
            } else {
                match Self::sp_parse(d, pos, big, tree[0], tree.subrange(1, tree.len() as int)) {
                    Err(e) => Err(e),
                    Ok((v, p)) => match sp_after(root, p) {
                        Err(e) => Err(e),
                        Ok(p2) => Ok((v, p2)),
                    },
                }
            }
        } else if !(root.type_string == "Array"@ || root.type_string == "TypelessData"@) {
            Err(ErrorView::Mismatch("Array"@, root.type_string))
        } else {
            match sp_uint(d, pos, 4, big) {
                Err(e) => Err(e@),
                Ok((len, p)) => if tree.len() < 2 {
                    Err(ErrorView::InvalidData("array type data does not contain data element"))
                } else {
                    match sp_items::<T>(d, p, big, tree[1], tree.subrange(2, tree.len() as int), len) {
                        Err(e) => Err(e),
                        Ok((items, p2)) => match sp_after(root, p2) {
                            Err(e) => Err(e),
                            Ok(p3) => Ok((items, p3)),
                        },
                    }
                }
            }
        }
    }

    #[verifier::loop_isolation(false)]
    fn parse_tree(r: &mut Reader, big: bool, root: &TypeTreeNode, tree: &[TypeTreeNode]) -> (res: Result<
        Vec<T>,
        UnityError,
    >)
        decreases tree@.len(),
    {
        let ghost tv = node_views(tree@);
        if str_is(&root.type_string, "vector") {
            if tree.len() == 0 {
                return Err(UnityError::InvalidData("vector type data does not contain children"));
            }
            let next = &tree[0];
            let children = &tree[1..tree.len()];
            assert(node_views(children@) =~= tv.subrange(1, tv.len() as int));
            let result = Self::parse_tree(r, big, next, children)?;
            align_reader(r, root)?;
            return Ok(result);
        }
        if !(str_is(&root.type_string, "Array") || str_is(&root.type_string, "TypelessData")) {
            return Err(mismatch("Array", root));
        }
        let len = r.read_u32(big)?;
        if tree.len() < 2 {
            return Err(UnityError::InvalidData("array type data does not contain data element"));
        }
        let next = &tree[1];
        let children = &tree[2..tree.len()];
        assert(node_views(children@) =~= tv.subrange(2, tv.len() as int));
        let ghost d = r.data@;
        let ghost p0 = r.pos as int;
        let mut result: Vec<T> = Vec::new();
        assert(result.model() =~= Seq::<T::Model>::empty());
        let mut i: u32 = 0;
        while i < len
            invariant
                r.data@ == d,
                r.data == old(r).data,
                0 <= i <= len,
                result@.len() == i,
                next@ == tv[1],
                node_views(children@) == tv.subrange(2, tv.len() as int),
                sp_items::<T>(d, p0, big, next@, node_views(children@), i as nat) == Ok::<
                    (Seq<T::Model>, int),
                    ErrorView,
                >((result.model(), r.pos as int)),
            decreases len - i,
        {
            let item = match T::parse_tree(r, big, next, children) {
                Ok(v) => v,
                Err(e) => {
                    proof {
                        lemma_items_error::<T>(d, p0, big, next@, node_views(children@), (i + 1) as nat, len as nat);
                    }
                    return Err(e);
                },
            };
            let ghost before = result.model();
            result.push(item);
            assert(result.model() =~= before.push(item.model()));
            i = i + 1;
        }
        align_reader(r, root)?;
        Ok(result)
    }
}

impl<T: UnityClass> UnityClass for Option<T> {
    type Model = Option<T::Model>;

    open spec fn model(&self) -> Option<T::Model> {
        match self {
            Some(v) => Some(v.model()),
            None => None,
        }
    }

    open spec fn sp_parse(d: Seq<u8>, pos: int, big: bool, root: NodeView, tree: Seq<NodeView>) -> Result<
        (Option<T::Model>, int),
        ErrorView,
    > {
        match T::sp_parse(d, pos, big, root, tree) {
            Err(e) => Err(e),
            Ok((v, p)) => Ok((Some(v), p)),
        }
    }

    fn parse_tree(r: &mut Reader, big: bool, root: &TypeTreeNode, tree: &[TypeTreeNode]) -> (res: Result<
        Option<T>,
        UnityError,
    >) {
        let v = T::parse_tree(r, big, root, tree)?;
        Ok(Some(v))
    }
}

impl UnityClass for Offset {
    type Model = u64;

    open spec fn model(&self) -> u64 {
        self.0
    }

    /// An offset is read as a `u32` where it can be, else as a `u64` from where
    /// that attempt left off.
    open spec fn sp_parse(d: Seq<u8>, pos: int, big: bool, root: NodeView, tree: Seq<NodeView>) -> Result<
        (u64, int),
        ErrorView,
    > {
        match sp_prim(d, pos, big, root, u32_type(root.type_string), "UInt32"@, 4) {
            Ok((v, p)) => Ok((v as u64, p)),
            Err(_) => {
                let p = if u32_type(root.type_string) && sp_uint(d, pos, 4, big) is Ok {
                    pos + 4
                } else {
                    pos
                };
                match sp_prim(d, p, big, root, u64_type(root.type_string), "UInt64"@, 8) {
                    Err(e) => Err(e),
                    Ok((v, p2)) => Ok((v as u64, p2)),
                }
            },
        }
    }

    fn parse_tree(r: &mut Reader, big: bool, root: &TypeTreeNode, tree: &[TypeTreeNode]) -> (res: Result<
        Offset,
        UnityError,
    >) {
        let ok32 = str_is(&root.type_string, "UInt32") || str_is(&root.type_string, "unsigned int") || str_is(
            &root.type_string,
            "Type*",
        );
        match read_prim(r, big, root, ok32, "UInt32", 4) {
            Ok(v) => {
                proof {
                    super::reader::lemma_uint_bound(old(r).data@, old(r).pos as int, 4, big);
                }
                Ok(Offset(v))
            },
            Err(_) => {
                let ok64 = str_is(&root.type_string, "UInt64") || str_is(&root.type_string, "unsigned long long")
                    || str_is(&root.type_string, "FileSize");
                let v = read_prim(r, big, root, ok64, "UInt64", 8)?;
                Ok(Offset(v))
            },
        }
    }
}

} // verus!
