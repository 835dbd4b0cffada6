use vstd::prelude::*;
use super::error::UnityError;

verus! {

/// The unsigned value of `n` bytes of `s` at `i`, little-endian.
pub open spec fn le_value(s: Seq<u8>, i: int, n: nat) -> nat
    decreases n,
{
    if n == 0 {
        0
    } else {
        s[i] as nat + 256 * le_value(s, i + 1, (n - 1) as nat)
    }
}

/// The unsigned value of `n` bytes of `s` at `i`, big-endian.
pub open spec fn be_value(s: Seq<u8>, i: int, n: nat) -> nat
    decreases n,
{
    if n == 0 {
        0
    } else {
        be_value(s, i, (n - 1) as nat) * 256 + s[i + n - 1] as nat
    }
}

/// The unsigned value of `n` bytes of `s` at `i` in the given byte order.
pub open spec fn uint_at(s: Seq<u8>, i: int, n: nat, big: bool) -> nat {
    if big {
        be_value(s, i, n)
    } else {
        le_value(s, i, n)
    }
}

/// The two's-complement value of an unsigned `bits`-bit value.
pub open spec fn signed(v: nat, bits: nat) -> int {
    if v < vstd::arithmetic::power2::pow2((bits - 1) as nat) {
        v as int
    } else {
        v - vstd::arithmetic::power2::pow2(bits)
    }
}

/// Reading `n` bytes at `pos` as an unsigned value in the given byte order: the value
/// and the position after it.
pub open spec fn sp_uint(d: Seq<u8>, pos: int, n: nat, big: bool) -> Result<(nat, int), UnityError> {
    if 0 <= pos && pos + n <= d.len() {
        Ok((uint_at(d, pos, n, big), pos + n))
    } else {
        Err(UnityError::UnexpectedEof)
    }
}

/// The index of the first zero byte at or after `i` (`d.len()` if there is none).
pub open spec fn null_at(d: Seq<u8>, i: int) -> int
    decreases d.len() - i,
{
    if i < 0 || i >= d.len() {
        d.len() as int
    } else if d[i] == 0 {
        i
    } else {
        null_at(d, i + 1)
    }
}

/// Reading a zero-terminated byte string at `pos`: its bytes (without the zero) and
/// the position after the zero. Data that ends first is an error.
pub open spec fn sp_cstr(d: Seq<u8>, pos: int) -> Result<(Seq<u8>, int), UnityError> {
    let e = null_at(d, pos);
    if pos < 0 || e >= d.len() {
        Err(UnityError::UnexpectedEof)
    } else {
        Ok((d.subrange(pos, e), e + 1))
    }
}

pub proof fn lemma_null_at(d: Seq<u8>, i: int)
    requires
        0 <= i,
    ensures
        i <= d.len() ==> i <= null_at(d, i) <= d.len(),
        i > d.len() ==> null_at(d, i) == d.len(),
        null_at(d, i) < d.len() ==> d[null_at(d, i)] == 0,
        forall|k: int| i <= k < null_at(d, i) ==> d[k] != 0,
    decreases d.len() - i,
{
    if i < d.len() && d[i] != 0 {
        lemma_null_at(d, i + 1);
    }
}

/// Copies bytes into a new vector.
pub fn bytes_to_vec(b: &[u8]) -> (r: Vec<u8>)
    ensures
        r@ == b@,
{
    let mut out: Vec<u8> = Vec::new();
    let mut k: usize = 0;
    while k < b.len()
        invariant
            0 <= k <= b@.len(),
            out@ == b@.subrange(0, k as int),
        decreases b@.len() - k,
    {
        out.push(b[k]);
        k = k + 1;
    }
    assert(out@ =~= b@);
    out
}

/// A read position in a byte buffer (`Cursor<&[u8]>`). The position may lie past
/// the end, where every read fails.
pub struct Reader<'a> {
    /// The bytes.
    pub data: &'a [u8],
    /// The read position.
    pub pos: u64,
}

impl<'a> Reader<'a> {
    /// Whether `n` bytes are left to read.
    pub open spec fn has(&self, n: nat) -> bool {
        self.pos + n <= self.data@.len()
    }

    /// A reader at the start of `data`.
    pub fn new(data: &'a [u8]) -> (r: Self)
        ensures
            r.data@ == data@,
            r.pos == 0,
    {
        Reader { data, pos: 0 }
    }

    /// Reads `n` bytes.
    pub fn read_bytes(&mut self, n: usize) -> (r: Result<&'a [u8], UnityError>)
        ensures
            final(self).data == old(self).data,
            old(self).has(n as nat) ==> (r matches Ok(b) && b@ == old(self).data@.subrange(
                old(self).pos as int,
                old(self).pos + n,
            ) && final(self).pos == old(self).pos + n),
            !old(self).has(n as nat) ==> (r matches Err(UnityError::UnexpectedEof) && final(self).pos
                == old(self).pos),
    {
        let len = self.data.len();
        if self.pos > len as u64 || (n as u64) > (len as u64) - self.pos {
            return Err(UnityError::UnexpectedEof);
        }
        let start = self.pos as usize;
        let out = &self.data[start..start + n];
        self.pos = self.pos + n as u64;
        Ok(out)
    }

    /// Reads one byte.
    pub fn read_u8(&mut self) -> (r: Result<u8, UnityError>)
        ensures
            final(self).data == old(self).data,
            old(self).has(1) ==> r == Ok::<u8, UnityError>(old(self).data@[old(self).pos as int])
                && final(self).pos == old(self).pos + 1,
            !old(self).has(1) ==> (r matches Err(UnityError::UnexpectedEof) && final(self).pos
                == old(self).pos),
    {
        let b = self.read_bytes(1)?;
        Ok(b[0])
    }

    /// Reads an unsigned value of `n` bytes (at most 8) in the given byte order.
    pub fn read_uint(&mut self, n: usize, big: bool) -> (r: Result<u64, UnityError>)
        requires
            1 <= n <= 8,
        ensures
            final(self).data == old(self).data,
            old(self).has(n as nat) ==> (r matches Ok(v) && v == uint_at(
                old(self).data@,
                old(self).pos as int,
                n as nat,
                big,
            ) && final(self).pos == old(self).pos + n),
            !old(self).has(n as nat) ==> (r matches Err(UnityError::UnexpectedEof) && final(self).pos
                == old(self).pos),
    {
        let b = self.read_bytes(n)?;
        proof {
            lemma_window(old(self).data@, old(self).pos as int, n as nat);
        }
        Ok(uint_of(b, big))
    }

    /// Reads a `u16`.
    pub fn read_u16(&mut self, big: bool) -> (r: Result<u16, UnityError>)
        ensures
            final(self).data == old(self).data,
            old(self).has(2) ==> (r matches Ok(v) && v == uint_at(old(self).data@, old(self).pos as int, 2, big)
                && final(self).pos == old(self).pos + 2),
            !old(self).has(2) ==> (r matches Err(UnityError::UnexpectedEof) && final(self).pos
                == old(self).pos),
    {
        let v = self.read_uint(2, big)?;
        proof {
            lemma_uint_bound(self.data@, old(self).pos as int, 2, big);
        }
        Ok(v as u16)
    }

    /// Reads a `u32`.
    pub fn read_u32(&mut self, big: bool) -> (r: Result<u32, UnityError>)
        ensures
            final(self).data == old(self).data,
            old(self).has(4) ==> (r matches Ok(v) && v == uint_at(old(self).data@, old(self).pos as int, 4, big)
                && final(self).pos == old(self).pos + 4),
            !old(self).has(4) ==> (r matches Err(UnityError::UnexpectedEof) && final(self).pos
                == old(self).pos),
    {
        let v = self.read_uint(4, big)?;
        proof {
            lemma_uint_bound(self.data@, old(self).pos as int, 4, big);
        }
        Ok(v as u32)
    }

    /// Reads a `u64`.
    pub fn read_u64(&mut self, big: bool) -> (r: Result<u64, UnityError>)
        ensures
            final(self).data == old(self).data,
            old(self).has(8) ==> (r matches Ok(v) && v == uint_at(old(self).data@, old(self).pos as int, 8, big)
                && final(self).pos == old(self).pos + 8),
            !old(self).has(8) ==> (r matches Err(UnityError::UnexpectedEof) && final(self).pos
                == old(self).pos),
    {
        self.read_uint(8, big)
    }

    /// Reads a zero-terminated byte string (binrw's `NullString`).
    pub fn read_cstr(&mut self) -> (r: Result<Vec<u8>, UnityError>)
        ensures
            final(self).data == old(self).data,
            r matches Ok(b) ==> sp_cstr(old(self).data@, old(self).pos as int) == Ok::<
                (Seq<u8>, int),
                UnityError,
            >((b@, final(self).pos as int)),
            r matches Err(e) ==> sp_cstr(old(self).data@, old(self).pos as int) == Err::<
                (Seq<u8>, int),
                UnityError,
            >(e),
    {
        proof {
            lemma_null_at(self.data@, self.pos as int);
        }
        let len = self.data.len();
        if self.pos >= len as u64 {
            return Err(UnityError::UnexpectedEof);
        }
        let start = self.pos as usize;
        let mut end = start;
        while end < len && self.data[end] != 0
            invariant
                start <= end <= len,
                len == self.data@.len(),
                start == old(self).pos,
                self.data == old(self).data,
                null_at(self.data@, start as int) == null_at(self.data@, end as int),
            decreases len - end,
        {
            end = end + 1;
        }
        if end >= len {
            return Err(UnityError::UnexpectedEof);
        }
        let mut out: Vec<u8> = Vec::new();
        let mut k = start;
        while k < end
            invariant
                start <= k <= end,
                end < len,
                len == self.data@.len(),
                out@ == self.data@.subrange(start as int, k as int),
            decreases end - k,
        {
            out.push(self.data[k]);
            k = k + 1;
        }
        self.pos = (end + 1) as u64;
        Ok(out)
    }

    /// Moves the position to `pos` (`Cursor::set_position`).
    pub fn set_position(&mut self, pos: u64)
        ensures
            final(self).data == old(self).data,
            final(self).pos == pos,
    {
        self.pos = pos;
    }

    /// Moves the position `n` bytes forward (`Seek::seek(SeekFrom::Current(n))`), which
    /// fails only when the new position overflows.
    pub fn skip(&mut self, n: u64) -> (r: Result<(), UnityError>)
        ensures
            final(self).data == old(self).data,
            old(self).pos + n <= u64::MAX ==> r is Ok && final(self).pos == old(self).pos + n,
            old(self).pos + n > u64::MAX ==> (r == Err::<(), UnityError>(
                UnityError::InvalidData("invalid seek to an overflowing position"),
            ) && final(self).pos == old(self).pos),
    {
        if n > u64::MAX - self.pos {
            return Err(UnityError::InvalidData("invalid seek to an overflowing position"));
        }
        self.pos = self.pos + n;
        Ok(())
    }

    /// Moves the position forward to the next multiple of 4.
    pub fn align4(&mut self) -> (r: Result<(), UnityError>)
        ensures
            final(self).data == old(self).data,
            old(self).pos % 4 == 0 ==> r is Ok && final(self).pos == old(self).pos,
            old(self).pos % 4 != 0 && old(self).pos + (4 - old(self).pos % 4) <= u64::MAX ==> r is Ok
                && final(self).pos == old(self).pos + (4 - old(self).pos % 4),
            old(self).pos % 4 != 0 && old(self).pos + (4 - old(self).pos % 4) > u64::MAX ==> r == Err::<
                (),
                UnityError,
            >(UnityError::InvalidData("invalid seek to an overflowing position")) && final(self).pos == old(
                self,
            ).pos,
    {
        let offset = self.pos % 4;
        if offset != 0 {
            self.skip(4 - offset)
        } else {
            Ok(())
        }
    }
}

proof fn lemma_le_bound(s: Seq<u8>, i: int, n: nat)
    ensures
        le_value(s, i, n) < vstd::arithmetic::power2::pow2(8 * n),
    decreases n,
{
    vstd::arithmetic::power2::lemma2_to64();
    if n > 0 {
        lemma_le_bound(s, i + 1, (n - 1) as nat);
        vstd::arithmetic::power2::lemma_pow2_adds(8, 8 * (n - 1) as nat);
        assert(8 * n == 8 + 8 * (n - 1) as nat) by (nonlinear_arith)
            requires
                n > 0,
        ;
    }
}

proof fn lemma_be_bound(s: Seq<u8>, i: int, n: nat)
    ensures
        be_value(s, i, n) < vstd::arithmetic::power2::pow2(8 * n),
    decreases n,
{
    vstd::arithmetic::power2::lemma2_to64();
    if n > 0 {
        lemma_be_bound(s, i, (n - 1) as nat);
        vstd::arithmetic::power2::lemma_pow2_adds(8 * (n - 1) as nat, 8);
        assert(8 * n == 8 * (n - 1) as nat + 8) by (nonlinear_arith)
            requires
                n > 0,
        ;
    }
}

/// An unsigned value of `n` bytes is below `2^(8n)`.
pub proof fn lemma_uint_bound(s: Seq<u8>, i: int, n: nat, big: bool)
    ensures
        uint_at(s, i, n, big) < vstd::arithmetic::power2::pow2(8 * n),
        n == 2 ==> uint_at(s, i, n, big) <= u16::MAX,
        n == 4 ==> uint_at(s, i, n, big) <= u32::MAX,
        n == 8 ==> uint_at(s, i, n, big) <= u64::MAX,
{
    lemma_le_bound(s, i, n);
    lemma_be_bound(s, i, n);
    vstd::arithmetic::power2::lemma2_to64();
    vstd::arithmetic::power2::lemma2_to64_rest();
}

/// A value depends only on the bytes it is made of.
pub proof fn lemma_window(s: Seq<u8>, i: int, n: nat)
    requires
        0 <= i,
        i + n <= s.len(),
    ensures
        le_value(s.subrange(i, i + n), 0, n) == le_value(s, i, n),
        be_value(s.subrange(i, i + n), 0, n) == be_value(s, i, n),
{
    lemma_window_le(s, i, n, 0);
    lemma_window_be(s, i, n, n);
}

proof fn lemma_window_le(s: Seq<u8>, i: int, n: nat, k: nat)
    requires
        0 <= i,
        k <= n,
        i + n <= s.len(),
    ensures
        le_value(s.subrange(i, i + n), k as int, (n - k) as nat) == le_value(s, i + k, (n - k) as nat),
    decreases n - k,
{
    if k < n {
        lemma_window_le(s, i, n, k + 1);
    }
}

proof fn lemma_window_be(s: Seq<u8>, i: int, n: nat, k: nat)
    requires
        0 <= i,
        k <= n,
        i + n <= s.len(),
    ensures
        be_value(s.subrange(i, i + n), 0, k) == be_value(s, i, k),
    decreases k,
{
    if k > 0 {
        lemma_window_be(s, i, n, (k - 1) as nat);
    }
}

proof fn lemma_pow2_le_64(a: nat)
    requires
        a <= 64,
    ensures
        vstd::arithmetic::power2::pow2(a) <= vstd::arithmetic::power2::pow2(64),
{
    if a < 64 {
        vstd::arithmetic::power2::lemma_pow2_strictly_increases(a, 64);
    }
}

/// The value of up to 8 bytes in the given byte order.
fn uint_of(b: &[u8], big: bool) -> (r: u64)
    requires
        1 <= b@.len() <= 8,
    ensures
        r == uint_at(b@, 0, b@.len(), big),
{
    proof {
        vstd::arithmetic::power2::lemma2_to64();
        vstd::arithmetic::power2::lemma2_to64_rest();
    }
    let n = b.len();
    let mut v: u64 = 0;
    if big {
        let mut k: usize = 0;
        while k < n
            invariant
                n == b@.len(),
                1 <= n <= 8,
                0 <= k <= n,
                v == be_value(b@, 0, k as nat),
            decreases n - k,
        {
            proof {
                lemma_be_bound(b@, 0, (k + 1) as nat);
                lemma_pow2_le_64(8 * (k + 1) as nat);
                vstd::arithmetic::power2::lemma2_to64_rest();
                assert(be_value(b@, 0, (k + 1) as nat) == v * 256 + b@[k as int]);
            }
            v = v * 256 + b[k] as u64;
            k = k + 1;
        }
        v
    } else {
        let mut k: usize = n;
        while k > 0
            invariant
                n == b@.len(),
                1 <= n <= 8,
                0 <= k <= n,
                v == le_value(b@, k as int, (n - k) as nat),
            decreases k,
        {
            proof {
                lemma_le_bound(b@, k - 1, (n - k + 1) as nat);
                lemma_pow2_le_64(8 * (n - k + 1) as nat);
                vstd::arithmetic::power2::lemma2_to64_rest();
                assert(le_value(b@, k - 1, (n - k + 1) as nat) == b@[k - 1] + 256 * v);
            }
            v = b[k - 1] as u64 + 256 * v;
            k = k - 1;
        }
        v
    }
}

} // verus!
