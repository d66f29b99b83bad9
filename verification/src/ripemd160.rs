//! A streaming RIPEMD-160 hasher, verified against a mathematical model of
//! the digest: two parallel 80-round lines over 16-word blocks, MD-style
//! padding with a little-endian bit length, and little-endian serialization
//! of the five-word state.
use vstd::prelude::*;

verus! {

/// Message-word permutation for the left line.
pub const RMD_R: [u8; 80] = [
    0, 1, 2, 3, 4, 5, 6, 7, 8, 9, 10, 11, 12, 13, 14, 15, 7, 4, 13, 1, 10, 6, 15, 3, 12, 0, 9, 5,
    2, 14, 11, 8, 3, 10, 14, 4, 9, 15, 8, 1, 2, 7, 0, 6, 13, 11, 5, 12, 1, 9, 11, 10, 0, 8, 12, 4,
    13, 3, 7, 15, 14, 5, 6, 2, 4, 0, 5, 9, 7, 12, 2, 10, 14, 1, 3, 8, 11, 6, 15, 13,
];

/// Message-word permutation for the right line.
pub const RMD_RH: [u8; 80] = [
    5, 14, 7, 0, 9, 2, 11, 4, 13, 6, 15, 8, 1, 10, 3, 12, 6, 11, 3, 7, 0, 13, 5, 10, 14, 15, 8,
    12, 4, 9, 1, 2, 15, 5, 1, 3, 7, 14, 6, 9, 11, 8, 12, 2, 10, 0, 4, 13, 8, 6, 4, 1, 3, 11, 15,
    0, 5, 12, 2, 13, 9, 7, 10, 14, 12, 15, 10, 4, 1, 5, 8, 7, 6, 2, 13, 14, 0, 3, 9, 11,
];

/// Rotation amounts for the left line.
pub const RMD_S: [u8; 80] = [
    11, 14, 15, 12, 5, 8, 7, 9, 11, 13, 14, 15, 6, 7, 9, 8, 7, 6, 8, 13, 11, 9, 7, 15, 7, 12, 15,
    9, 11, 7, 13, 12, 11, 13, 6, 7, 14, 9, 13, 15, 14, 8, 13, 6, 5, 12, 7, 5, 11, 12, 14, 15, 14,
    15, 9, 8, 9, 14, 5, 6, 8, 6, 5, 12, 9, 15, 5, 11, 6, 8, 13, 12, 5, 12, 13, 14, 11, 8, 5, 6,
];

/// Rotation amounts for the right line.
pub const RMD_SH: [u8; 80] = [
    8, 9, 9, 11, 13, 15, 15, 5, 7, 7, 8, 11, 14, 14, 12, 6, 9, 13, 15, 7, 12, 8, 9, 11, 7, 7, 12,
    7, 6, 15, 13, 11, 9, 7, 15, 11, 8, 6, 6, 14, 12, 13, 5, 14, 13, 13, 7, 5, 15, 5, 8, 11, 14,
    14, 6, 14, 6, 9, 12, 9, 12, 5, 15, 8, 8, 5, 12, 9, 12, 5, 14, 6, 8, 13, 6, 5, 15, 13, 11, 11,
];

/// Addition of two words modulo 2^32.
pub open spec fn s32(a: u32, b: u32) -> u32 {
    vstd::wrapping::u32_specs::wrapping_add(a, b)
}

/// Addition of three words modulo 2^32.
pub open spec fn s32_3(a: u32, b: u32, c: u32) -> u32 {
    s32(s32(a, b), c)
}

/// Addition of four words modulo 2^32.
pub open spec fn s32_4(a: u32, b: u32, c: u32, d: u32) -> u32 {
    s32(s32(s32(a, b), c), d)
}

/// Left rotation of a 32-bit word.
pub open spec fn rotl_spec(x: u32, s: u32) -> u32
    recommends
        0 < s < 32,
{
    (x << s) | (x >> ((32 - s) as u32))
}

/// The round-dependent boolean function, shared by both lines.
pub open spec fn rmd_f(j: int, x: u32, y: u32, z: u32) -> u32 {
    if j <= 15 {
        x ^ y ^ z
    } else if j <= 31 {
        (x & y) | (!x & z)
    } else if j <= 47 {
        (x | !y) ^ z
    } else if j <= 63 {
        (x & z) | (y & !z)
    } else {
        x ^ (y | !z)
    }
}

/// Round constants for the left line.
pub open spec fn rmd_k(j: int) -> u32 {
    if j <= 15 {
        0x00000000
    } else if j <= 31 {
        0x5a827999
    } else if j <= 47 {
        0x6ed9eba1
    } else if j <= 63 {
        0x8f1bbcdc
    } else {
        0xa953fd4e
    }
}

/// Round constants for the right line.
pub open spec fn rmd_kh(j: int) -> u32 {
    if j <= 15 {
        0x50a28be6
    } else if j <= 31 {
        0x5c4dd124
    } else if j <= 47 {
        0x6d703ef3
    } else if j <= 63 {
        0x7a6d76e9
    } else {
        0x00000000
    }
}

/// The ten working words of the two round lines.
pub struct RoundState {
    pub a: u32,
    pub b: u32,
    pub c: u32,
    pub d: u32,
    pub e: u32,
    pub ah: u32,
    pub bh: u32,
    pub ch: u32,
    pub dh: u32,
    pub eh: u32,
}

/// One round of both lines on a 16-word block.
#[verifier::opaque]
pub open spec fn rmd_round(m: Seq<u32>, s: RoundState, j: int) -> RoundState
    recommends
        m.len() == 16,
        0 <= j < 80,
{
    let t1 = s32(
        rotl_spec(
            s32_4(s.a, rmd_f(j, s.b, s.c, s.d), m[RMD_R@[j] as int], rmd_k(j)),
            RMD_S@[j] as u32,
        ),
        s.e,
    );
    let t2 = s32(
        rotl_spec(
            s32_4(s.ah, rmd_f(79 - j, s.bh, s.ch, s.dh), m[RMD_RH@[j] as int], rmd_kh(j)),
            RMD_SH@[j] as u32,
        ),
        s.eh,
    );
    RoundState {
        a: s.e,
        b: t1,
        c: s.b,
        d: rotl_spec(s.c, 10),
        e: s.d,
        ah: s.eh,
        bh: t2,
        ch: s.bh,
        dh: rotl_spec(s.ch, 10),
        eh: s.dh,
    }
}

/// The round state after the first `j` rounds.
pub open spec fn rmd_iter(m: Seq<u32>, s0: RoundState, j: int) -> RoundState
    decreases j,
{
    if j <= 0 {
        s0
    } else {
        rmd_round(m, rmd_iter(m, s0, j - 1), j - 1)
    }
}

/// Both lines start from the current chaining state.
pub open spec fn init_state(h: Seq<u32>) -> RoundState
    recommends
        h.len() == 5,
{
    RoundState {
        a: h[0],
        b: h[1],
        c: h[2],
        d: h[3],
        e: h[4],
        ah: h[0],
        bh: h[1],
        ch: h[2],
        dh: h[3],
        eh: h[4],
    }
}

/// The compression function: 80 rounds, then the standard combination of the
/// chaining state with both line states.
#[verifier::opaque]
pub open spec fn rmd_compress(h: Seq<u32>, m: Seq<u32>) -> Seq<u32>
    recommends
        h.len() == 5,
        m.len() == 16,
{
    let s = rmd_iter(m, init_state(h), 80);
    seq![
        s32_3(h[1], s.c, s.dh),
        s32_3(h[2], s.d, s.eh),
        s32_3(h[3], s.e, s.ah),
        s32_3(h[4], s.a, s.bh),
        s32_3(h[0], s.b, s.ch),
    ]
}

/// The 32-bit word stored little-endian at offset `off`.
pub open spec fn le_word_at(b: Seq<u8>, off: int) -> u32
    recommends
        0 <= off,
        off + 4 <= b.len(),
{
    (b[off] + b[off + 1] * 0x100 + b[off + 2] * 0x10000 + b[off + 3] * 0x1000000) as u32
}

/// The sixteen words of the block starting at offset `off`.
pub open spec fn block_words(b: Seq<u8>, off: int) -> Seq<u32> {
    Seq::new(16, |i: int| le_word_at(b, off + 4 * i))
}

/// Fold the compression function over a whole number of 64-byte blocks.
pub open spec fn process_blocks(h: Seq<u32>, b: Seq<u8>) -> Seq<u32>
    decreases b.len(),
{
    if b.len() < 64 {
        h
    } else {
        process_blocks(rmd_compress(h, block_words(b, 0)), b.skip(64))
    }
}

/// The fixed initial chaining state.
pub open spec fn rmd_init() -> Seq<u32> {
    seq![0x67452301u32, 0xefcdab89u32, 0x98badcfeu32, 0x10325476u32, 0xc3d2e1f0u32]
}

/// MD-style padding for a message of `len` bytes: 0x80, zero bytes, then the
/// bit length as eight little-endian bytes, to a multiple of 64 bytes.
pub open spec fn rmd_pad(len: nat) -> Seq<u8>
    recommends
        len * 8 <= u64::MAX,
{
    let k = 64 - ((len + 8) % 64);
    seq![0x80u8] + Seq::new((k - 1) as nat, |i: int| 0u8) + vstd::bytes::spec_u64_to_le_bytes(
        (len * 8) as u64,
    )
}

/// Byte `k` (0 = least significant) of a word, as stored little-endian.
pub open spec fn le_byte(x: u32, k: int) -> u8 {
    if k == 0 {
        (x % 0x100) as u8
    } else if k == 1 {
        ((x / 0x100) % 0x100) as u8
    } else if k == 2 {
        ((x / 0x10000) % 0x100) as u8
    } else {
        ((x / 0x1000000) % 0x100) as u8
    }
}

/// Little-endian serialization of a word sequence.
pub open spec fn words_le_bytes(ws: Seq<u32>) -> Seq<u8> {
    Seq::new(ws.len() * 4, |i: int| le_byte(ws[i / 4], i % 4))
}

/// The RIPEMD-160 digest of a byte sequence: pad, compress each block, and
/// serialize the final state little-endian.
#[verifier::opaque]
pub open spec fn rmd160_spec(msg: Seq<u8>) -> Seq<u8>
    recommends
        msg.len() * 8 <= u64::MAX,
{
    words_le_bytes(process_blocks(rmd_init(), msg + rmd_pad(msg.len())))
}

pub proof fn lemma_table_bounds()
    ensures
        forall|j: int| 0 <= j < 80 ==> #[trigger] RMD_R@[j] < 16,
        forall|j: int| 0 <= j < 80 ==> #[trigger] RMD_RH@[j] < 16,
        forall|j: int| 0 <= j < 80 ==> 0 < #[trigger] RMD_S@[j] < 32,
        forall|j: int| 0 <= j < 80 ==> 0 < #[trigger] RMD_SH@[j] < 32,
{
}

/// A streaming RIPEMD-160 hasher. The view is the sequence of bytes absorbed
/// so far; `digest` returns the digest of exactly that sequence.
pub struct Ripemd160 {
    h0: u32,
    h1: u32,
    h2: u32,
    h3: u32,
    h4: u32,
    pending: Vec<u8>,
    total: u64,
    absorbed: Ghost<Seq<u8>>,
}

impl Ripemd160 {
    /// All bytes absorbed so far.
    pub closed spec fn view(&self) -> Seq<u8> {
        self.absorbed@
    }

    /// The number of absorbed bytes in already-compressed blocks.
    pub closed spec fn done_len(&self) -> int {
        self.total - self.total % 64
    }

    /// Internal consistency: the chaining state covers all full blocks and
    /// `pending` holds the remaining tail.
    pub closed spec fn inv(&self) -> bool {
        &&& self.total == self.absorbed@.len()
        &&& self.total <= 0xffff_ffffu64
        &&& self.pending@ =~= self.absorbed@.skip(self.done_len())
        &&& seq![self.h0, self.h1, self.h2, self.h3, self.h4] == process_blocks(
            rmd_init(),
            self.absorbed@.take(self.done_len()),
        )
    }

    pub fn new() -> (r: Ripemd160)
        ensures
            r.inv(),
            r@ == Seq::<u8>::empty(),
    {
        let r = Ripemd160 {
            h0: 0x67452301,
            h1: 0xefcdab89,
            h2: 0x98badcfe,
            h3: 0x10325476,
            h4: 0xc3d2e1f0,
            pending: Vec::new(),
            total: 0,
            absorbed: Ghost(Seq::empty()),
        };
        proof {
            assert(r.absorbed@.take(0) =~= Seq::<u8>::empty());
            assert(r.absorbed@.skip(0) =~= Seq::<u8>::empty());
            reveal_with_fuel(process_blocks, 1);
            assert(seq![r.h0, r.h1, r.h2, r.h3, r.h4] =~= rmd_init());
        }
        r
    }

    /// The round function of the left line.
    pub fn f(j: u32, x: u32, y: u32, z: u32) -> (r: u32)
        requires
            j < 80,
        ensures
            r == rmd_f(j as int, x, y, z),
    {
        if j <= 15 {
            x ^ y ^ z
        } else if j <= 31 {
            (x & y) | (!x & z)
        } else if j <= 47 {
            (x | !y) ^ z
        } else if j <= 63 {
            (x & z) | (y & !z)
        } else {
            x ^ (y | !z)
        }
    }

    /// Round constants for the left line.
    pub fn k(j: u32) -> (r: u32)
        requires
            j < 80,
        ensures
            r == rmd_k(j as int),
    {
        if j <= 15 {
            0x00000000
        } else if j <= 31 {
            0x5a827999
        } else if j <= 47 {
            0x6ed9eba1
        } else if j <= 63 {
            0x8f1bbcdc
        } else {
            0xa953fd4e
        }
    }

    /// Round constants for the right line.
    pub fn kh(j: u32) -> (r: u32)
        requires
            j < 80,
        ensures
            r == rmd_kh(j as int),
    {
        if j <= 15 {
            0x50a28be6
        } else if j <= 31 {
            0x5c4dd124
        } else if j <= 47 {
            0x6d703ef3
        } else if j <= 63 {
            0x7a6d76e9
        } else {
            0x00000000
        }
    }

    /// Left rotation of a 32-bit word.
    pub fn rotl32(w: u32, b: u32) -> (r: u32)
        requires
            0 < b < 32,
        ensures
            r == rotl_spec(w, b),
    {
        (w << b) | (w >> (32 - b))
    }

    /// Read the sixteen little-endian words of the block at `off`.
    pub fn join32(bytes: &Vec<u8>, off: usize) -> (r: Vec<u32>)
        requires
            off + 64 <= bytes@.len(),
        ensures
            r@ =~= block_words(bytes@, off as int),
    {
        let n = bytes.len();
        let mut r: Vec<u32> = Vec::new();
        let mut i: usize = 0;
        while i < 16
            invariant
                i <= 16,
                off + 64 <= n,
                n == bytes@.len(),
                r@.len() == i,
                forall|q: int| 0 <= q < i ==> r@[q] == le_word_at(bytes@, off + 4 * q),
            decreases 16 - i,
        {
            let p = off + 4 * i;
            let w = bytes[p] as u32 + bytes[p + 1] as u32 * 0x100 + bytes[p + 2] as u32 * 0x10000
                + bytes[p + 3] as u32 * 0x1000000;
            r.push(w);
            i = i + 1;
        }
        r
    }

    /// Serialize five words little-endian into twenty bytes.
    pub fn split32(h: (u32, u32, u32, u32, u32)) -> (r: Vec<u8>)
        ensures
            r@ =~= words_le_bytes(seq![h.0, h.1, h.2, h.3, h.4]),
    {
        let ws: Vec<u32> = vec![h.0, h.1, h.2, h.3, h.4];
        let mut r: Vec<u8> = Vec::new();
        let mut i: usize = 0;
        while i < 5
            invariant
                i <= 5,
                ws@ =~= seq![h.0, h.1, h.2, h.3, h.4],
                r@.len() == 4 * i,
                forall|q: int| 0 <= q < 4 * i ==> r@[q] == le_byte(ws@[q / 4], q % 4),
            decreases 5 - i,
        {
            let x = ws[i];
            r.push((x % 0x100) as u8);
            r.push(((x / 0x100) % 0x100) as u8);
            r.push(((x / 0x10000) % 0x100) as u8);
            r.push(((x / 0x1000000) % 0x100) as u8);
            i = i + 1;
        }
        r
    }

    /// One application of the compression function.
    fn compress(h: (u32, u32, u32, u32, u32), m: &Vec<u32>) -> (r: (u32, u32, u32, u32, u32))
        requires
            m@.len() == 16,
        ensures
            seq![r.0, r.1, r.2, r.3, r.4] == rmd_compress(seq![h.0, h.1, h.2, h.3, h.4], m@),
    {
        let ghost hseq = seq![h.0, h.1, h.2, h.3, h.4];
        let mut a = h.0;
        let mut b = h.1;
        let mut c = h.2;
        let mut d = h.3;
        let mut e = h.4;
        let mut ah = h.0;
        let mut bh = h.1;
        let mut ch = h.2;
        let mut dh = h.3;
        let mut eh = h.4;
        proof {
            lemma_table_bounds();
        }
        let mut j: usize = 0;
        while j < 80
            invariant
                j <= 80,
                m@.len() == 16,
                (RoundState { a, b, c, d, e, ah, bh, ch, dh, eh }) == rmd_iter(
                    m@,
                    init_state(hseq),
                    j as int,
                ),
                forall|q: int| 0 <= q < 80 ==> #[trigger] RMD_R@[q] < 16,
                forall|q: int| 0 <= q < 80 ==> #[trigger] RMD_RH@[q] < 16,
                forall|q: int| 0 <= q < 80 ==> 0 < #[trigger] RMD_S@[q] < 32,
                forall|q: int| 0 <= q < 80 ==> 0 < #[trigger] RMD_SH@[q] < 32,
            decreases 80 - j,
        {
            let ghost pre = RoundState { a, b, c, d, e, ah, bh, ch, dh, eh };
            let fj = Self::f(j as u32, b, c, d);
            let t = Self::rotl32(
                a.wrapping_add(fj).wrapping_add(m[RMD_R[j] as usize]).wrapping_add(
                    Self::k(j as u32),
                ),
                RMD_S[j] as u32,
            ).wrapping_add(e);
            a = e;
            e = d;
            d = Self::rotl32(c, 10);
            c = b;
            b = t;
            let fjh = Self::f(79 - j as u32, bh, ch, dh);
            let th = Self::rotl32(
                ah.wrapping_add(fjh).wrapping_add(m[RMD_RH[j] as usize]).wrapping_add(
                    Self::kh(j as u32),
                ),
                RMD_SH[j] as u32,
            ).wrapping_add(eh);
            ah = eh;
            eh = dh;
            dh = Self::rotl32(ch, 10);
            ch = bh;
            bh = th;
            proof {
                reveal(rmd_round);
                assert((RoundState { a, b, c, d, e, ah, bh, ch, dh, eh }) == rmd_round(
                    m@,
                    pre,
                    j as int,
                ));
            }
            j = j + 1;
        }
        let r0 = h.1.wrapping_add(c).wrapping_add(dh);
        let r1 = h.2.wrapping_add(d).wrapping_add(eh);
        let r2 = h.3.wrapping_add(e).wrapping_add(ah);
        let r3 = h.4.wrapping_add(a).wrapping_add(bh);
        let r4 = h.0.wrapping_add(b).wrapping_add(ch);
        proof {
            reveal(rmd_compress);
            assert(seq![r0, r1, r2, r3, r4] =~= rmd_compress(hseq, m@));
        }
        (r0, r1, r2, r3, r4)
    }

    /// Absorb more message bytes.
    #[verifier::rlimit(100)]
    pub fn update(&mut self, msg: &Vec<u8>)
        requires
            old(self).inv(),
            old(self)@.len() + msg@.len() <= 0xffff_ffff,
        ensures
            final(self).inv(),
            final(self)@ == old(self)@ + msg@,
    {
        let ghost orig = self.absorbed@;
        let mut i: usize = 0;
        while i < msg.len()
            invariant
                i <= msg@.len(),
                self.inv(),
                self.absorbed@ =~= orig + msg@.take(i as int),
                orig.len() + msg@.len() <= 0xffff_ffff,
            decreases msg@.len() - i,
        {
            let ghost pre = *self;
            self.pending.push(msg[i]);
            self.total = self.total + 1;
            proof {
                self.absorbed@ = pre.absorbed@ + seq![msg@[i as int]];
            }
            if self.pending.len() == 64 {
                let m = Self::join32(&self.pending, 0);
                let ghost full = self.absorbed@;
                let ghost done_pre = full.take(full.len() - 64);
                let ghost blk = full.skip(full.len() - 64);
                proof {
                    // The tail just completed a block: the new length is a
                    // multiple of 64 and the pending bytes are that block.
                    assert(self.total % 64 == 0);
                    assert(done_pre =~= pre.absorbed@.take(pre.done_len()));
                    assert(self.pending@ =~= blk);
                    lemma_process_app(rmd_init(), done_pre, blk);
                    reveal_with_fuel(process_blocks, 2);
                    assert(block_words(self.pending@, 0) =~= block_words(blk, 0));
                }
                let hn = Self::compress((self.h0, self.h1, self.h2, self.h3, self.h4), &m);
                self.h0 = hn.0;
                self.h1 = hn.1;
                self.h2 = hn.2;
                self.h3 = hn.3;
                self.h4 = hn.4;
                self.pending.clear();
                proof {
                    assert(done_pre + blk =~= full);
                    assert(full.take(self.done_len()) =~= full);
                    assert(self.pending@ =~= self.absorbed@.skip(self.done_len()));
                }
            } else {
                proof {
                    assert(self.done_len() == pre.done_len());
                    assert(self.absorbed@.take(self.done_len()) =~= pre.absorbed@.take(
                        pre.done_len(),
                    ));
                    assert(self.pending@ =~= self.absorbed@.skip(self.done_len()));
                }
            }
            i = i + 1;
        }
        proof {
            assert(orig + msg@.take(msg@.len() as int) =~= orig + msg@);
        }
    }

    /// The digest of all bytes absorbed so far. The hasher itself is left
    /// untouched and may absorb further bytes.
    #[verifier::rlimit(100)]
    pub fn digest(&self) -> (r: Vec<u8>)
        requires
            self.inv(),
        ensures
            r@ == rmd160_spec(self@),
            r@.len() == 20,
    {
        // Assemble the final partial block(s): the pending tail plus padding.
        let mut tail: Vec<u8> = Vec::new();
        let mut i: usize = 0;
        while i < self.pending.len()
            invariant
                i <= self.pending@.len(),
                tail@ =~= self.pending@.take(i as int),
            decreases self.pending@.len() - i,
        {
            tail.push(self.pending[i]);
            i = i + 1;
        }
        proof {
            assert(tail@ =~= self.pending@);
        }
        let rem = ((self.total + 8) % 64) as usize;
        let k = 64 - rem;
        tail.push(0x80);
        let mut z: usize = 1;
        while z < k
            invariant
                1 <= z <= k,
                k <= 64,
                tail@ =~= self.pending@ + seq![0x80u8] + Seq::new((z - 1) as nat, |q: int| 0u8),
            decreases k - z,
        {
            tail.push(0);
            proof {
                assert(tail@ =~= self.pending@ + seq![0x80u8] + Seq::new(z as nat, |q: int| 0u8));
            }
            z = z + 1;
        }
        let lenbytes = vstd::bytes::u64_to_le_bytes(self.total * 8);
        let mut w: usize = 0;
        while w < 8
            invariant
                w <= 8,
                k == 64 - ((self.total + 8) % 64),
                lenbytes@ == vstd::bytes::spec_u64_to_le_bytes((self.total * 8) as u64),
                lenbytes@.len() == 8,
                tail@ =~= self.pending@ + seq![0x80u8] + Seq::new((k - 1) as nat, |q: int| 0u8)
                    + lenbytes@.take(w as int),
            decreases 8 - w,
        {
            tail.push(lenbytes[w]);
            w = w + 1;
        }
        proof {
            assert(lenbytes@.take(8) =~= lenbytes@);
            assert(tail@ =~= self.pending@ + rmd_pad(self.absorbed@.len()));
            let done = self.absorbed@.take(self.done_len());
            assert(self.absorbed@ + rmd_pad(self.absorbed@.len()) =~= done + tail@);
            lemma_process_app(rmd_init(), done, tail@);
        }
        let mut h = (self.h0, self.h1, self.h2, self.h3, self.h4);
        proof {
            assert(tail@.skip(0) =~= tail@);
        }
        let mut off: usize = 0;
        while off < tail.len()
            invariant
                off <= tail@.len(),
                off % 64 == 0,
                tail@.len() % 64 == 0,
                process_blocks(
                    seq![self.h0, self.h1, self.h2, self.h3, self.h4],
                    tail@,
                ) == process_blocks(seq![h.0, h.1, h.2, h.3, h.4], tail@.skip(off as int)),
            decreases tail@.len() - off,
        {
            let m = Self::join32(&tail, off);
            proof {
                let restpre = tail@.skip(off as int);
                assert(restpre.len() >= 64);
                assert(block_words(tail@, off as int) =~= block_words(restpre, 0)) by {
                    assert forall|q: int| 0 <= q < 16 implies #[trigger] le_word_at(restpre, 4 * q)
                        == le_word_at(tail@, off + 4 * q) by {
                        assert(restpre[4 * q] == tail@[off + 4 * q]);
                        assert(restpre[4 * q + 1] == tail@[off + 4 * q + 1]);
                        assert(restpre[4 * q + 2] == tail@[off + 4 * q + 2]);
                        assert(restpre[4 * q + 3] == tail@[off + 4 * q + 3]);
                    }
                }
                assert(restpre.skip(64) =~= tail@.skip(off + 64));
            }
            h = Self::compress(h, &m);
            off = off + 64;
        }
        proof {
            reveal(rmd160_spec);
            assert(tail@.skip(off as int) =~= Seq::<u8>::empty());
            reveal_with_fuel(process_blocks, 1);
        }
        Self::split32(h)
    }
}

/// Folding blocks over a concatenation equals folding each part in turn.
pub proof fn lemma_process_app(h: Seq<u32>, a: Seq<u8>, b: Seq<u8>)
    requires
        a.len() % 64 == 0,
    ensures
        process_blocks(h, a + b) == process_blocks(process_blocks(h, a), b),
    decreases a.len(),
{
    if a.len() == 0 {
        assert(a + b =~= b);
    } else {
        let rest = a.skip(64);
        assert(block_words(a + b, 0) =~= block_words(a, 0)) by {
            assert forall|q: int| 0 <= q < 16 implies #[trigger] le_word_at(a + b, 4 * q) == le_word_at(
                a,
                4 * q,
            ) by {
                assert((a + b)[4 * q] == a[4 * q]);
                assert((a + b)[4 * q + 1] == a[4 * q + 1]);
                assert((a + b)[4 * q + 2] == a[4 * q + 2]);
                assert((a + b)[4 * q + 3] == a[4 * q + 3]);
            }
        }
        assert((a + b).skip(64) =~= rest + b);
        lemma_process_app(rmd_compress(h, block_words(a, 0)), rest, b);
    }
}

} // verus!
