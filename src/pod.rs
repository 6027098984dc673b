use vstd::prelude::*;
use vstd::layout::size_of;
use vstd::arithmetic::power2::{
    pow2, lemma2_to64, lemma2_to64_rest, lemma_pow2_adds, lemma_pow2_pos, lemma_pow2_strictly_increases,
};
use vstd::arithmetic::div_mod::{
    lemma_div_denominator, lemma_fundamental_div_mod_converse, lemma_mod_breakdown, lemma_small_mod,
};
use vstd::bits::lemma_u64_shr_is_div;

verus! {

/// The low `n` bytes of `v`, least significant first.
pub open spec fn le_bytes(v: u64, n: nat) -> Seq<u8> {
    Seq::new(n, |i: int| ((v >> ((8 * i) as u64)) & 0xff) as u8)
}

/// Every byte of the low `n` bytes of zero is zero.
pub proof fn lemma_le_bytes_zero(n: nat)
    requires
        n <= 8,
    ensures
        forall|i: int| 0 <= i < n ==> #[trigger] le_bytes(0, n)[i] == 0,
{
    assert forall|i: int| 0 <= i < n implies #[trigger] le_bytes(0, n)[i] == 0 by {
        let s = (8 * i) as u64;
        assert((0u64 >> s) & 0xff == 0) by (bit_vector);
    }
}

/// The unsigned value of bytes given least significant first.
pub open spec fn le_value(b: Seq<u8>) -> nat
    decreases b.len(),
{
    if b.len() == 0 {
        0
    } else {
        b[0] as nat + 256 * le_value(b.drop_first())
    }
}

/// Powers of two grow with the exponent.
proof fn lemma_pow2_le(e1: nat, e2: nat)
    requires
        e1 <= e2,
    ensures
        pow2(e1) <= pow2(e2),
{
    if e1 < e2 {
        lemma_pow2_strictly_increases(e1, e2);
    }
}

/// The value of `n` bytes is below `2^(8n)`.
pub proof fn lemma_le_value_bound(b: Seq<u8>)
    ensures
        le_value(b) < pow2(8 * b.len()),
    decreases b.len(),
{
    if b.len() == 0 {
        lemma2_to64();
    } else {
        let rest = b.drop_first();
        lemma_le_value_bound(rest);
        lemma_pow2_adds(8, 8 * rest.len());
        lemma2_to64();
        assert(8 + 8 * rest.len() == 8 * b.len());
        let p = pow2(8 * rest.len());
        assert(le_value(rest) + 1 <= p);
        assert(256 * (le_value(rest) + 1) <= 256 * p) by (nonlinear_arith)
            requires le_value(rest) + 1 <= p;
    }
}

/// Byte `i` of bytes read as a value is `b[i]`.
pub proof fn lemma_le_value_byte(b: Seq<u8>, i: nat)
    requires
        i < b.len(),
    ensures
        (le_value(b) / pow2(8 * i)) % 256 == b[i as int],
    decreases i,
{
    let rest = b.drop_first();
    let v = le_value(b);
    assert(v == le_value(rest) * 256 + b[0]) by (nonlinear_arith)
        requires v == b[0] as nat + 256 * le_value(rest);
    lemma_fundamental_div_mod_converse(v as int, 256, le_value(rest) as int, b[0] as int);
    lemma2_to64();
    if i == 0 {
        assert(pow2(8 * i) == 1);
        assert(v / 1 == v);
    } else {
        let e = (8 * (i - 1)) as nat;
        lemma_le_value_byte(rest, (i - 1) as nat);
        assert(rest[i - 1] == b[i as int]);
        lemma_pow2_adds(8, e);
        assert(8 + e == 8 * i);
        lemma_pow2_pos(e);
        lemma_div_denominator(v as int, 256, pow2(e) as int);
        assert(pow2(8 * i) == 256 * pow2(e));
        assert(v / pow2(8 * i) == le_value(rest) / pow2(e));
        assert((le_value(rest) / pow2(e)) % 256 == rest[i - 1]);
    }
}

/// The low `b.len()` bytes of the value of `b` are `b` again.
pub proof fn lemma_le_bytes_of_value(b: Seq<u8>)
    requires
        b.len() <= 8,
    ensures
        le_value(b) < pow2(8 * b.len()),
        le_bytes(le_value(b) as u64, b.len()) == b,
{
    lemma_le_value_bound(b);
    lemma_pow2_le(8 * b.len(), 64);
    lemma2_to64();
    lemma2_to64_rest();
    let v = le_value(b) as u64;
    assert forall|i: int| 0 <= i < b.len() implies #[trigger] le_bytes(v, b.len())[i] == b[i] by {
        let s = (8 * i) as u64;
        lemma_u64_shr_is_div(v, s);
        let w = v >> s;
        assert(w & 0xff == w % 256) by (bit_vector);
        lemma_le_value_byte(b, i as nat);
    }
    assert(le_bytes(v, b.len()) =~= b);
}

/// Read back as a value, the low `n` bytes of `v` give `v` modulo `2^(8n)`.
pub proof fn lemma_le_value_of_bytes(v: u64, n: nat)
    requires
        n <= 8,
    ensures
        le_value(le_bytes(v, n)) == v as nat % pow2(8 * n),
    decreases n,
{
    lemma2_to64();
    if n == 0 {
        assert(v as nat % 1 == 0);
    } else {
        let b = le_bytes(v, n);
        let w = v >> 8u64;
        lemma_le_value_of_bytes(w, (n - 1) as nat);
        assert forall|i: int| 0 <= i < n - 1 implies #[trigger] b.drop_first()[i] == le_bytes(
            w,
            (n - 1) as nat,
        )[i] by {
            let s = (8 * i) as u64;
            assert(s < 56);
            assert((8 * (i + 1)) as u64 == s + 8);
            assert(v >> (s + 8) == (v >> 8u64) >> s) by (bit_vector)
                requires s < 56;
        }
        assert(b.drop_first() =~= le_bytes(w, (n - 1) as nat));
        assert(v >> 8u64 == v / 256) by (bit_vector);
        assert((v >> 0u64) & 0xff == v % 256) by (bit_vector);
        let e = (8 * (n - 1)) as nat;
        lemma_pow2_pos(e);
        lemma_pow2_adds(8, e);
        assert(8 + e == 8 * n);
        lemma_mod_breakdown(v as int, 256, pow2(e) as int);
    }
}

/// Reads `n` bytes of `b` from `at` on as an unsigned value, least
/// significant first.
fn read_le(b: &[u8], at: usize, n: usize) -> (r: u64)
    requires
        n <= 8,
        at + n <= b@.len(),
    ensures
        r == le_value(b@.subrange(at as int, at + n)),
{
    let blen: usize = b.len();
    let mut v: u64 = 0;
    let mut j: usize = n;
    while j > 0
        invariant
            j <= n <= 8,
            blen == b@.len(),
            at + n <= b@.len(),
            v == le_value(b@.subrange(at + j, at + n)),
        decreases j,
    {
        let ghost tail = b@.subrange(at + j, at + n);
        proof {
            lemma_le_value_bound(tail);
            lemma_pow2_le(8 * tail.len(), 56);
            lemma2_to64();
            lemma2_to64_rest();
            assert(v * 256 + 255 <= u64::MAX) by (nonlinear_arith)
                requires v < 0x100_0000_0000_0000;
        }
        v = v * 256 + b[at + (j - 1)] as u64;
        j -= 1;
        assert(b@.subrange(at + j, at + n).drop_first() =~= tail);
    }
    v
}

/// Appends the low `n` bytes of `v` to `out`, least significant first.
fn push_le_bytes(v: u64, n: usize, out: &mut Vec<u8>)
    requires
        n <= 8,
    ensures
        final(out)@ == old(out)@ + le_bytes(v, n as nat),
{
    let mut i: usize = 0;
    while i < n
        invariant
            i <= n <= 8,
            out@ == old(out)@ + le_bytes(v, i as nat),
        decreases n - i,
    {
        let shift: u64 = 8 * (i as u64);
        out.push(((v >> shift) & 0xff) as u8);
        i += 1;
        assert(out@ =~= old(out)@ + le_bytes(v, i as nat));
    }
}

/// A plain-old-data element: copyable, whose value is held in exactly
/// `size_of::<Self>()` bytes. Its byte image is given least significant byte
/// first, which is its order in memory on little-endian targets.
pub trait Pod: Copy + Sized {
    /// The byte image of the value.
    spec fn spec_bytes(self) -> Seq<u8>;

    /// The byte image has the size of the type.
    proof fn lemma_bytes_len(self)
        ensures
            self.spec_bytes().len() == size_of::<Self>(),
    ;

    /// Appends the byte image of the value to `out`.
    fn append_bytes(&self, out: &mut Vec<u8>)
        ensures
            final(out)@ == old(out)@ + self.spec_bytes(),
    ;

    /// The value whose byte image is `b`, for `b` of `size_of::<Self>()` bytes.
    spec fn spec_from_bytes(b: Seq<u8>) -> Self;

    /// Every run of `size_of::<Self>()` bytes is the image of a value.
    proof fn lemma_from_bytes(b: Seq<u8>)
        requires
            b.len() == size_of::<Self>(),
        ensures
            Self::spec_from_bytes(b).spec_bytes() == b,
    ;

    /// Reading a value's image back gives the value.
    proof fn lemma_bytes_round_trip(self)
        ensures
            Self::spec_from_bytes(self.spec_bytes()) == self,
    ;

    /// Reads the value whose image starts at byte `at` of `b`.
    fn read_bytes(b: &[u8], at: usize) -> (r: Self)
        requires
            at + size_of::<Self>() <= b@.len(),
        ensures
            r == Self::spec_from_bytes(b@.subrange(at as int, at + size_of::<Self>())),
    ;

    /// A value that stands for memory not written yet. Nothing is promised of
    /// it beyond being a valid value of the type.
    fn unwritten() -> Self;
}

/// A plain-old-data element whose all-zero byte pattern is a legal value.
pub trait ZeroBits: Pod {
    /// The value whose bytes are all zero.
    spec fn spec_zero() -> Self;

    /// Every byte of the zero value is zero.
    proof fn lemma_zero_bytes()
        ensures
            forall|i: int|
                0 <= i < Self::spec_zero().spec_bytes().len() ==> #[trigger] Self::spec_zero().spec_bytes()[i]
                    == 0,
    ;

    /// The value whose bytes are all zero.
    fn zero() -> (r: Self)
        ensures
            r == Self::spec_zero(),
    ;
}

impl Pod for u8 {
    open spec fn spec_bytes(self) -> Seq<u8> {
        le_bytes(self as u64, 1)
    }

    proof fn lemma_bytes_len(self) {
        broadcast use vstd::layout::layout_of_primitives;
    }

    fn append_bytes(&self, out: &mut Vec<u8>) {
        push_le_bytes(*self as u64, 1, out);
    }

    open spec fn spec_from_bytes(b: Seq<u8>) -> Self {
        le_value(b) as u8
    }

    proof fn lemma_from_bytes(b: Seq<u8>) {
        broadcast use vstd::layout::layout_of_primitives;
        lemma2_to64();
        lemma2_to64_rest();
        lemma_le_bytes_of_value(b);
    }

    proof fn lemma_bytes_round_trip(self) {
        broadcast use vstd::layout::layout_of_primitives;
        lemma2_to64();
        lemma2_to64_rest();
        lemma_le_value_of_bytes(self as u64, 1);
        lemma_small_mod((self as u64) as nat, pow2(8 * 1));
    }

    fn read_bytes(b: &[u8], at: usize) -> (r: Self) {
        proof {
            broadcast use vstd::layout::layout_of_primitives;
        }
        let n: usize = 1;
        read_le(b, at, n) as u8
    }

    fn unwritten() -> Self {
        0
    }
}

impl ZeroBits for u8 {
    open spec fn spec_zero() -> Self {
        0
    }

    proof fn lemma_zero_bytes() {
        broadcast use vstd::layout::layout_of_primitives;
        lemma_le_bytes_zero(1);
    }

    fn zero() -> (r: Self) {
        0
    }
}

impl Pod for u16 {
    open spec fn spec_bytes(self) -> Seq<u8> {
        le_bytes(self as u64, 2)
    }

    proof fn lemma_bytes_len(self) {
        broadcast use vstd::layout::layout_of_primitives;
    }

    fn append_bytes(&self, out: &mut Vec<u8>) {
        push_le_bytes(*self as u64, 2, out);
    }

    open spec fn spec_from_bytes(b: Seq<u8>) -> Self {
        le_value(b) as u16
    }

    proof fn lemma_from_bytes(b: Seq<u8>) {
        broadcast use vstd::layout::layout_of_primitives;
        lemma2_to64();
        lemma2_to64_rest();
        lemma_le_bytes_of_value(b);
    }

    proof fn lemma_bytes_round_trip(self) {
        broadcast use vstd::layout::layout_of_primitives;
        lemma2_to64();
        lemma2_to64_rest();
        lemma_le_value_of_bytes(self as u64, 2);
        lemma_small_mod((self as u64) as nat, pow2(8 * 2));
    }

    fn read_bytes(b: &[u8], at: usize) -> (r: Self) {
        proof {
            broadcast use vstd::layout::layout_of_primitives;
        }
        let n: usize = 2;
        read_le(b, at, n) as u16
    }

    fn unwritten() -> Self {
        0
    }
}

impl ZeroBits for u16 {
    open spec fn spec_zero() -> Self {
        0
    }

    proof fn lemma_zero_bytes() {
        broadcast use vstd::layout::layout_of_primitives;
        lemma_le_bytes_zero(2);
    }

    fn zero() -> (r: Self) {
        0
    }
}

impl Pod for u32 {
    open spec fn spec_bytes(self) -> Seq<u8> {
        le_bytes(self as u64, 4)
    }

    proof fn lemma_bytes_len(self) {
        broadcast use vstd::layout::layout_of_primitives;
    }

    fn append_bytes(&self, out: &mut Vec<u8>) {
        push_le_bytes(*self as u64, 4, out);
    }

    open spec fn spec_from_bytes(b: Seq<u8>) -> Self {
        le_value(b) as u32
    }

    proof fn lemma_from_bytes(b: Seq<u8>) {
        broadcast use vstd::layout::layout_of_primitives;
        lemma2_to64();
        lemma2_to64_rest();
        lemma_le_bytes_of_value(b);
    }

    proof fn lemma_bytes_round_trip(self) {
        broadcast use vstd::layout::layout_of_primitives;
        lemma2_to64();
        lemma2_to64_rest();
        lemma_le_value_of_bytes(self as u64, 4);
        lemma_small_mod((self as u64) as nat, pow2(8 * 4));
    }

    fn read_bytes(b: &[u8], at: usize) -> (r: Self) {
        proof {
            broadcast use vstd::layout::layout_of_primitives;
        }
        let n: usize = 4;
        read_le(b, at, n) as u32
    }

    fn unwritten() -> Self {
        0
    }
}

impl ZeroBits for u32 {
    open spec fn spec_zero() -> Self {
        0
    }

    proof fn lemma_zero_bytes() {
        broadcast use vstd::layout::layout_of_primitives;
        lemma_le_bytes_zero(4);
    }

    fn zero() -> (r: Self) {
        0
    }
}

impl Pod for u64 {
    open spec fn spec_bytes(self) -> Seq<u8> {
        le_bytes(self as u64, 8)
    }

    proof fn lemma_bytes_len(self) {
        broadcast use vstd::layout::layout_of_primitives;
    }

    fn append_bytes(&self, out: &mut Vec<u8>) {
        push_le_bytes(*self as u64, 8, out);
    }

    open spec fn spec_from_bytes(b: Seq<u8>) -> Self {
        le_value(b) as u64
    }

    proof fn lemma_from_bytes(b: Seq<u8>) {
        broadcast use vstd::layout::layout_of_primitives;
        lemma2_to64();
        lemma2_to64_rest();
        lemma_le_bytes_of_value(b);
    }

    proof fn lemma_bytes_round_trip(self) {
        broadcast use vstd::layout::layout_of_primitives;
        lemma2_to64();
        lemma2_to64_rest();
        lemma_le_value_of_bytes(self as u64, 8);
        lemma_small_mod((self as u64) as nat, pow2(8 * 8));
    }

    fn read_bytes(b: &[u8], at: usize) -> (r: Self) {
        proof {
            broadcast use vstd::layout::layout_of_primitives;
        }
        let n: usize = 8;
        read_le(b, at, n) as u64
    }

    fn unwritten() -> Self {
        0
    }
}

impl ZeroBits for u64 {
    open spec fn spec_zero() -> Self {
        0
    }

    proof fn lemma_zero_bytes() {
        broadcast use vstd::layout::layout_of_primitives;
        lemma_le_bytes_zero(8);
    }

    fn zero() -> (r: Self) {
        0
    }
}

impl Pod for usize {
    open spec fn spec_bytes(self) -> Seq<u8> {
        le_bytes(self as u64, size_of::<usize>())
    }

    proof fn lemma_bytes_len(self) {
        broadcast use vstd::layout::layout_of_primitives;
    }

    fn append_bytes(&self, out: &mut Vec<u8>) {
        proof {
            broadcast use vstd::layout::layout_of_primitives;
            assert(usize::BITS == 32 || usize::BITS == 64);
        }
        push_le_bytes(*self as u64, core::mem::size_of::<usize>(), out);
    }

    open spec fn spec_from_bytes(b: Seq<u8>) -> Self {
        le_value(b) as usize
    }

    proof fn lemma_from_bytes(b: Seq<u8>) {
        broadcast use vstd::layout::layout_of_primitives;
        assert(usize::BITS == 32 || usize::BITS == 64);
        lemma2_to64();
        lemma2_to64_rest();
        lemma_le_bytes_of_value(b);
    }

    proof fn lemma_bytes_round_trip(self) {
        broadcast use vstd::layout::layout_of_primitives;
        assert(usize::BITS == 32 || usize::BITS == 64);
        lemma2_to64();
        lemma2_to64_rest();
        lemma_le_value_of_bytes(self as u64, size_of::<usize>());
        lemma_small_mod((self as u64) as nat, pow2(8 * size_of::<usize>()));
    }

    fn read_bytes(b: &[u8], at: usize) -> (r: Self) {
        proof {
            broadcast use vstd::layout::layout_of_primitives;
            assert(usize::BITS == 32 || usize::BITS == 64);
        }
        let n: usize = core::mem::size_of::<usize>();
        read_le(b, at, n) as usize
    }

    fn unwritten() -> Self {
        0
    }
}

impl ZeroBits for usize {
    open spec fn spec_zero() -> Self {
        0
    }

    proof fn lemma_zero_bytes() {
        broadcast use vstd::layout::layout_of_primitives;
        assert(usize::BITS == 32 || usize::BITS == 64);
        lemma_le_bytes_zero(size_of::<usize>());
    }

    fn zero() -> (r: Self) {
        0
    }
}

impl Pod for i8 {
    open spec fn spec_bytes(self) -> Seq<u8> {
        le_bytes((self as u8) as u64, 1)
    }

    proof fn lemma_bytes_len(self) {
        broadcast use vstd::layout::layout_of_primitives;
    }

    fn append_bytes(&self, out: &mut Vec<u8>) {
        push_le_bytes(*self as u8 as u64, 1, out);
    }

    open spec fn spec_from_bytes(b: Seq<u8>) -> Self {
        (le_value(b) as u8) as i8
    }

    proof fn lemma_from_bytes(b: Seq<u8>) {
        broadcast use vstd::layout::layout_of_primitives;
        lemma2_to64();
        lemma2_to64_rest();
        lemma_le_bytes_of_value(b);
        let x = le_value(b) as u8;
        assert(((x as i8) as u8) == x) by (bit_vector);
    }

    proof fn lemma_bytes_round_trip(self) {
        broadcast use vstd::layout::layout_of_primitives;
        lemma2_to64();
        lemma2_to64_rest();
        lemma_le_value_of_bytes((self as u8) as u64, 1);
        lemma_small_mod(((self as u8) as u64) as nat, pow2(8 * 1));
        let x = self;
        assert(((x as u8) as i8) == x) by (bit_vector);
    }

    fn read_bytes(b: &[u8], at: usize) -> (r: Self) {
        proof {
            broadcast use vstd::layout::layout_of_primitives;
        }
        let n: usize = 1;
        (read_le(b, at, n) as u8) as i8
    }

    fn unwritten() -> Self {
        0
    }
}

impl ZeroBits for i8 {
    open spec fn spec_zero() -> Self {
        0
    }

    proof fn lemma_zero_bytes() {
        broadcast use vstd::layout::layout_of_primitives;
        lemma_le_bytes_zero(1);
    }

    fn zero() -> (r: Self) {
        0
    }
}

impl Pod for i16 {
    open spec fn spec_bytes(self) -> Seq<u8> {
        le_bytes((self as u16) as u64, 2)
    }

    proof fn lemma_bytes_len(self) {
        broadcast use vstd::layout::layout_of_primitives;
    }

    fn append_bytes(&self, out: &mut Vec<u8>) {
        push_le_bytes(*self as u16 as u64, 2, out);
    }

    open spec fn spec_from_bytes(b: Seq<u8>) -> Self {
        (le_value(b) as u16) as i16
    }

    proof fn lemma_from_bytes(b: Seq<u8>) {
        broadcast use vstd::layout::layout_of_primitives;
        lemma2_to64();
        lemma2_to64_rest();
        lemma_le_bytes_of_value(b);
        let x = le_value(b) as u16;
        assert(((x as i16) as u16) == x) by (bit_vector);
    }

    proof fn lemma_bytes_round_trip(self) {
        broadcast use vstd::layout::layout_of_primitives;
        lemma2_to64();
        lemma2_to64_rest();
        lemma_le_value_of_bytes((self as u16) as u64, 2);
        lemma_small_mod(((self as u16) as u64) as nat, pow2(8 * 2));
        let x = self;
        assert(((x as u16) as i16) == x) by (bit_vector);
    }

    fn read_bytes(b: &[u8], at: usize) -> (r: Self) {
        proof {
            broadcast use vstd::layout::layout_of_primitives;
        }
        let n: usize = 2;
        (read_le(b, at, n) as u16) as i16
    }

    fn unwritten() -> Self {
        0
    }
}

impl ZeroBits for i16 {
    open spec fn spec_zero() -> Self {
        0
    }

    proof fn lemma_zero_bytes() {
        broadcast use vstd::layout::layout_of_primitives;
        lemma_le_bytes_zero(2);
    }

    fn zero() -> (r: Self) {
        0
    }
}

impl Pod for i32 {
    open spec fn spec_bytes(self) -> Seq<u8> {
        le_bytes((self as u32) as u64, 4)
    }

    proof fn lemma_bytes_len(self) {
        broadcast use vstd::layout::layout_of_primitives;
    }

    fn append_bytes(&self, out: &mut Vec<u8>) {
        push_le_bytes(*self as u32 as u64, 4, out);
    }

    open spec fn spec_from_bytes(b: Seq<u8>) -> Self {
        (le_value(b) as u32) as i32
    }

    proof fn lemma_from_bytes(b: Seq<u8>) {
        broadcast use vstd::layout::layout_of_primitives;
        lemma2_to64();
        lemma2_to64_rest();
        lemma_le_bytes_of_value(b);
        let x = le_value(b) as u32;
        assert(((x as i32) as u32) == x) by (bit_vector);
    }

    proof fn lemma_bytes_round_trip(self) {
        broadcast use vstd::layout::layout_of_primitives;
        lemma2_to64();
        lemma2_to64_rest();
        lemma_le_value_of_bytes((self as u32) as u64, 4);
        lemma_small_mod(((self as u32) as u64) as nat, pow2(8 * 4));
        let x = self;
        assert(((x as u32) as i32) == x) by (bit_vector);
    }

    fn read_bytes(b: &[u8], at: usize) -> (r: Self) {
        proof {
            broadcast use vstd::layout::layout_of_primitives;
        }
        let n: usize = 4;
        (read_le(b, at, n) as u32) as i32
    }

    fn unwritten() -> Self {
        0
    }
}

impl ZeroBits for i32 {
    open spec fn spec_zero() -> Self {
        0
    }

    proof fn lemma_zero_bytes() {
        broadcast use vstd::layout::layout_of_primitives;
        lemma_le_bytes_zero(4);
    }

    fn zero() -> (r: Self) {
        0
    }
}

impl Pod for i64 {
    open spec fn spec_bytes(self) -> Seq<u8> {
        le_bytes((self as u64) as u64, 8)
    }

    proof fn lemma_bytes_len(self) {
        broadcast use vstd::layout::layout_of_primitives;
    }

    fn append_bytes(&self, out: &mut Vec<u8>) {
        push_le_bytes(*self as u64 as u64, 8, out);
    }

    open spec fn spec_from_bytes(b: Seq<u8>) -> Self {
        (le_value(b) as u64) as i64
    }

    proof fn lemma_from_bytes(b: Seq<u8>) {
        broadcast use vstd::layout::layout_of_primitives;
        lemma2_to64();
        lemma2_to64_rest();
        lemma_le_bytes_of_value(b);
        let x = le_value(b) as u64;
        assert(((x as i64) as u64) == x) by (bit_vector);
    }

    proof fn lemma_bytes_round_trip(self) {
        broadcast use vstd::layout::layout_of_primitives;
        lemma2_to64();
        lemma2_to64_rest();
        lemma_le_value_of_bytes((self as u64) as u64, 8);
        lemma_small_mod(((self as u64) as u64) as nat, pow2(8 * 8));
        let x = self;
        assert(((x as u64) as i64) == x) by (bit_vector);
    }

    fn read_bytes(b: &[u8], at: usize) -> (r: Self) {
        proof {
            broadcast use vstd::layout::layout_of_primitives;
        }
        let n: usize = 8;
        (read_le(b, at, n) as u64) as i64
    }

    fn unwritten() -> Self {
        0
    }
}

impl ZeroBits for i64 {
    open spec fn spec_zero() -> Self {
        0
    }

    proof fn lemma_zero_bytes() {
        broadcast use vstd::layout::layout_of_primitives;
        lemma_le_bytes_zero(8);
    }

    fn zero() -> (r: Self) {
        0
    }
}

impl Pod for isize {
    open spec fn spec_bytes(self) -> Seq<u8> {
        le_bytes((self as usize) as u64, size_of::<usize>())
    }

    proof fn lemma_bytes_len(self) {
        broadcast use vstd::layout::layout_of_primitives;
    }

    fn append_bytes(&self, out: &mut Vec<u8>) {
        proof {
            broadcast use vstd::layout::layout_of_primitives;
            assert(usize::BITS == 32 || usize::BITS == 64);
        }
        push_le_bytes(*self as usize as u64, core::mem::size_of::<usize>(), out);
    }

    open spec fn spec_from_bytes(b: Seq<u8>) -> Self {
        (le_value(b) as usize) as isize
    }

    proof fn lemma_from_bytes(b: Seq<u8>) {
        broadcast use vstd::layout::layout_of_primitives;
        assert(usize::BITS == 32 || usize::BITS == 64);
        lemma2_to64();
        lemma2_to64_rest();
        lemma_le_bytes_of_value(b);
        let x = le_value(b) as usize;
        assert(((x as isize) as usize) == x) by (bit_vector);
    }

    proof fn lemma_bytes_round_trip(self) {
        broadcast use vstd::layout::layout_of_primitives;
        assert(usize::BITS == 32 || usize::BITS == 64);
        lemma2_to64();
        lemma2_to64_rest();
        lemma_le_value_of_bytes((self as usize) as u64, size_of::<usize>());
        lemma_small_mod(((self as usize) as u64) as nat, pow2(8 * size_of::<usize>()));
        let x = self;
        assert(((x as usize) as isize) == x) by (bit_vector);
    }

    fn read_bytes(b: &[u8], at: usize) -> (r: Self) {
        proof {
            broadcast use vstd::layout::layout_of_primitives;
            assert(usize::BITS == 32 || usize::BITS == 64);
        }
        let n: usize = core::mem::size_of::<usize>();
        (read_le(b, at, n) as usize) as isize
    }

    fn unwritten() -> Self {
        0
    }
}

impl ZeroBits for isize {
    open spec fn spec_zero() -> Self {
        0
    }

    proof fn lemma_zero_bytes() {
        broadcast use vstd::layout::layout_of_primitives;
        assert(usize::BITS == 32 || usize::BITS == 64);
        lemma_le_bytes_zero(size_of::<usize>());
    }

    fn zero() -> (r: Self) {
        0
    }
}

} // verus!
