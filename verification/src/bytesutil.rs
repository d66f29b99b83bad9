//! Verified byte-string helpers: lowercase hex encoding and decoding,
//! big-endian integer views of byte strings, and fixed-length zero-padded
//! copies of key material.
use vstd::prelude::*;

verus! {

/// The lowercase hex digit for a nibble.
pub open spec fn hex_digit_spec(n: u8) -> char
    recommends
        n < 16,
{
    if n == 0 {
        '0'
    } else if n == 1 {
        '1'
    } else if n == 2 {
        '2'
    } else if n == 3 {
        '3'
    } else if n == 4 {
        '4'
    } else if n == 5 {
        '5'
    } else if n == 6 {
        '6'
    } else if n == 7 {
        '7'
    } else if n == 8 {
        '8'
    } else if n == 9 {
        '9'
    } else if n == 10 {
        'a'
    } else if n == 11 {
        'b'
    } else if n == 12 {
        'c'
    } else if n == 13 {
        'd'
    } else if n == 14 {
        'e'
    } else {
        'f'
    }
}

/// Lowercase hex encoding of a byte string: two digits per byte, high
/// nibble first.
pub open spec fn hex_of(b: Seq<u8>) -> Seq<char> {
    Seq::new(
        b.len() * 2,
        |i: int|
            if i % 2 == 0 {
                hex_digit_spec(b[i / 2] / 16)
            } else {
                hex_digit_spec(b[i / 2] % 16)
            },
    )
}

/// Whether a character is a lowercase hex digit.
pub open spec fn is_lhex(c: char) -> bool {
    ('0' <= c && c <= '9') || ('a' <= c && c <= 'f')
}

/// The big-endian integer value of a byte string.
pub open spec fn be_val(b: Seq<u8>) -> int
    decreases b.len(),
{
    if b.len() == 0 {
        0
    } else {
        be_val(b.drop_last()) * 256 + b.last()
    }
}

/// Append a nibble's lowercase hex digit to a string.
fn push_hex_digit(s: &mut String, n: u8)
    requires
        n < 16,
    ensures
        final(s)@ == old(s)@ + seq![hex_digit_spec(n)],
{
    proof {
        reveal_strlit("0");
        reveal_strlit("1");
        reveal_strlit("2");
        reveal_strlit("3");
        reveal_strlit("4");
        reveal_strlit("5");
        reveal_strlit("6");
        reveal_strlit("7");
        reveal_strlit("8");
        reveal_strlit("9");
        reveal_strlit("a");
        reveal_strlit("b");
        reveal_strlit("c");
        reveal_strlit("d");
        reveal_strlit("e");
        reveal_strlit("f");
    }
    if n == 0 {
        s.append("0");
    } else if n == 1 {
        s.append("1");
    } else if n == 2 {
        s.append("2");
    } else if n == 3 {
        s.append("3");
    } else if n == 4 {
        s.append("4");
    } else if n == 5 {
        s.append("5");
    } else if n == 6 {
        s.append("6");
    } else if n == 7 {
        s.append("7");
    } else if n == 8 {
        s.append("8");
    } else if n == 9 {
        s.append("9");
    } else if n == 10 {
        s.append("a");
    } else if n == 11 {
        s.append("b");
    } else if n == 12 {
        s.append("c");
    } else if n == 13 {
        s.append("d");
    } else if n == 14 {
        s.append("e");
    } else {
        s.append("f");
    }
}

/// Encode a byte string as lowercase hex, two digits per byte.
pub fn to_hex(bytes: &Vec<u8>) -> (r: String)
    ensures
        r@ == hex_of(bytes@),
{
    let mut r = String::new();
    let mut i: usize = 0;
    while i < bytes.len()
        invariant
            i <= bytes@.len(),
            r@ =~= hex_of(bytes@.take(i as int)),
        decreases bytes@.len() - i,
    {
        let b = bytes[i];
        push_hex_digit(&mut r, b / 16);
        push_hex_digit(&mut r, b % 16);
        proof {
            assert(r@ =~= hex_of(bytes@.take(i + 1)));
        }
        i = i + 1;
    }
    proof {
        assert(bytes@.take(bytes@.len() as int) =~= bytes@);
    }
    r
}

/// The nibble value of a lowercase hex digit.
fn hex_val(c: char) -> (r: Option<u8>)
    ensures
        r is Some <==> is_lhex(c),
        r is Some ==> r->0 < 16 && hex_digit_spec(r->0) == c,
{
    if c == '0' {
        Some(0)
    } else if c == '1' {
        Some(1)
    } else if c == '2' {
        Some(2)
    } else if c == '3' {
        Some(3)
    } else if c == '4' {
        Some(4)
    } else if c == '5' {
        Some(5)
    } else if c == '6' {
        Some(6)
    } else if c == '7' {
        Some(7)
    } else if c == '8' {
        Some(8)
    } else if c == '9' {
        Some(9)
    } else if c == 'a' {
        Some(10)
    } else if c == 'b' {
        Some(11)
    } else if c == 'c' {
        Some(12)
    } else if c == 'd' {
        Some(13)
    } else if c == 'e' {
        Some(14)
    } else if c == 'f' {
        Some(15)
    } else {
        None
    }
}

/// Decode a lowercase hex string back into bytes. Fails on an odd length or
/// any character that is not a lowercase hex digit.
pub fn from_hex(s: &str) -> (r: Result<Vec<u8>, crate::HdError>)
    ensures
        r is Ok <==> (s@.len() % 2 == 0 && (forall|i: int|
            0 <= i < s@.len() ==> is_lhex(#[trigger] s@[i]))),
        r is Ok ==> hex_of(r->Ok_0@) == s@,
        r is Err ==> r == Err::<Vec<u8>, crate::HdError>(crate::HdError::KeyDecode),
{
    let n = s.unicode_len();
    if n % 2 != 0 {
        return Err(crate::HdError::KeyDecode);
    }
    let mut v: Vec<u8> = Vec::new();
    let mut i: usize = 0;
    while i < n
        invariant
            i <= n,
            i % 2 == 0,
            n % 2 == 0,
            n == s@.len(),
            v@.len() * 2 == i,
            hex_of(v@) =~= s@.take(i as int),
            forall|q: int| 0 <= q < i ==> is_lhex(#[trigger] s@[q]),
        decreases n - i,
    {
        let c1 = s.get_char(i);
        let c2 = s.get_char(i + 1);
        let n1 = match hex_val(c1) {
            Some(x) => x,
            None => {
                return Err(crate::HdError::KeyDecode);
            },
        };
        let n2 = match hex_val(c2) {
            Some(x) => x,
            None => {
                return Err(crate::HdError::KeyDecode);
            },
        };
        let b = n1 * 16 + n2;
        v.push(b);
        proof {
            assert(b / 16 == n1 && b % 16 == n2) by (nonlinear_arith)
                requires
                    n1 < 16,
                    n2 < 16,
                    b == n1 * 16 + n2,
            ;
            assert(hex_of(v@) =~= s@.take(i + 2));
        }
        i = i + 2;
    }
    proof {
        assert(s@.take(n as int) =~= s@);
        assert forall|q: int| 0 <= q < s@.len() implies is_lhex(#[trigger] s@[q]) by {}
    }
    Ok(v)
}

/// Copy a byte string into a fixed-length buffer, truncating or zero-padding
/// on the right.
pub open spec fn padded_copy_spec(src: Seq<u8>, n: nat) -> Seq<u8> {
    Seq::new(
        n,
        |i: int|
            if i < src.len() {
                src[i]
            } else {
                0u8
            },
    )
}

/// A 32-byte zero-padded copy of a byte string's prefix.
pub fn key256(slice: &Vec<u8>) -> (r: Vec<u8>)
    ensures
        r@ == padded_copy_spec(slice@, 32),
{
    padded_copy(slice, 32)
}

/// A 64-byte zero-padded copy of a byte string's prefix.
pub fn key512(slice: &Vec<u8>) -> (r: Vec<u8>)
    ensures
        r@ == padded_copy_spec(slice@, 64),
{
    padded_copy(slice, 64)
}

/// A 24-byte zero-padded copy of a byte string's prefix.
pub fn key192(slice: &Vec<u8>) -> (r: Vec<u8>)
    ensures
        r@ == padded_copy_spec(slice@, 24),
{
    padded_copy(slice, 24)
}

fn padded_copy(slice: &Vec<u8>, n: usize) -> (r: Vec<u8>)
    ensures
        r@ =~= padded_copy_spec(slice@, n as nat),
{
    let mut r: Vec<u8> = Vec::new();
    let mut i: usize = 0;
    while i < n
        invariant
            i <= n,
            r@.len() == i,
            forall|q: int|
                0 <= q < i ==> r@[q] == (if q < slice@.len() {
                    slice@[q]
                } else {
                    0u8
                }),
        decreases n - i,
    {
        if i < slice.len() {
            let b = slice[i];
            r.push(b);
        } else {
            r.push(0);
        }
        i = i + 1;
    }
    r
}

/// 256 raised to a power: the number of byte strings of a given length.
pub open spec fn pow256(n: nat) -> int
    decreases n,
{
    if n == 0 {
        1
    } else {
        256 * pow256((n - 1) as nat)
    }
}

/// The `n`-byte big-endian encoding of an integer below `pow256(n)`.
pub open spec fn be_bytes(v: int, n: nat) -> Seq<u8>
    decreases n,
{
    if n == 0 {
        Seq::empty()
    } else {
        be_bytes(v / 256, (n - 1) as nat).push((v % 256) as u8)
    }
}

/// A byte string's big-endian value lies below `pow256` of its length.
pub proof fn lemma_be_val_bounds(b: Seq<u8>)
    ensures
        0 <= be_val(b) < pow256(b.len()),
    decreases b.len(),
{
    if b.len() == 0 {
    } else {
        let front = b.drop_last();
        lemma_be_val_bounds(front);
        assert(be_val(front) * 256 + b.last() < pow256(b.len())) by (nonlinear_arith)
            requires
                0 <= be_val(front) < pow256((b.len() - 1) as nat),
                b.last() < 256,
                pow256(b.len()) == 256 * pow256((b.len() - 1) as nat),
        ;
    }
}

/// `be_bytes` really encodes the value, in exactly `n` bytes.
pub proof fn lemma_be_bytes_val(v: int, n: nat)
    requires
        0 <= v < pow256(n),
    ensures
        be_bytes(v, n).len() == n,
        be_val(be_bytes(v, n)) == v,
    decreases n,
{
    if n == 0 {
    } else {
        assert(0 <= v / 256 < pow256((n - 1) as nat) && v / 256 * 256 + v % 256 == v && 0 <= v % 256
            < 256) by (nonlinear_arith)
            requires
                0 <= v < pow256(n),
                pow256(n) == 256 * pow256((n - 1) as nat),
        ;
        lemma_be_bytes_val(v / 256, (n - 1) as nat);
        let b = be_bytes(v, n);
        assert(b.drop_last() =~= be_bytes(v / 256, (n - 1) as nat));
    }
}

/// Two byte strings of one length with one big-endian value are equal.
pub proof fn lemma_be_val_inj(x: Seq<u8>, y: Seq<u8>)
    requires
        x.len() == y.len(),
        be_val(x) == be_val(y),
    ensures
        x == y,
    decreases x.len(),
{
    if x.len() == 0 {
        assert(x =~= y);
    } else {
        let fx = x.drop_last();
        let fy = y.drop_last();
        lemma_be_val_bounds(fx);
        lemma_be_val_bounds(fy);
        assert(be_val(fx) == be_val(fy) && x.last() == y.last()) by (nonlinear_arith)
            requires
                be_val(x) == be_val(fx) * 256 + x.last(),
                be_val(y) == be_val(fy) * 256 + y.last(),
                be_val(x) == be_val(y),
                0 <= x.last() < 256,
                0 <= y.last() < 256,
                0 <= be_val(fx),
                0 <= be_val(fy),
        ;
        lemma_be_val_inj(fx, fy);
        assert(x =~= fx.push(x.last()));
        assert(y =~= fy.push(y.last()));
    }
}

/// Copy a sub-range of a byte string into a fresh vector.
pub fn subvec(v: &Vec<u8>, from: usize, to: usize) -> (r: Vec<u8>)
    requires
        from <= to <= v@.len(),
    ensures
        r@ =~= v@.subrange(from as int, to as int),
{
    let mut r: Vec<u8> = Vec::new();
    let mut i: usize = from;
    while i < to
        invariant
            from <= i <= to <= v@.len(),
            r@.len() == i - from,
            forall|q: int| 0 <= q < i - from ==> r@[q] == v@[from + q],
        decreases to - i,
    {
        let b = v[i];
        r.push(b);
        i = i + 1;
    }
    r
}

/// Append one byte string to another.
pub fn vec_extend(dst: &mut Vec<u8>, src: &Vec<u8>)
    ensures
        final(dst)@ == old(dst)@ + src@,
{
    dst.extend_from_slice(src.as_slice());
    proof {
        assert(dst@ =~= old(dst)@ + src@);
    }
}

/// The four big-endian bytes of a 32-bit integer.
pub open spec fn be32_of(x: u32) -> Seq<u8> {
    seq![
        (x / 0x1000000) as u8,
        ((x / 0x10000) % 0x100) as u8,
        ((x / 0x100) % 0x100) as u8,
        (x % 0x100) as u8,
    ]
}

/// Serialize a 32-bit integer as four big-endian bytes.
pub fn u32_to_be(x: u32) -> (r: Vec<u8>)
    ensures
        r@ == be32_of(x),
{
    let mut r: Vec<u8> = Vec::new();
    r.push((x / 0x1000000) as u8);
    r.push(((x / 0x10000) % 0x100) as u8);
    r.push(((x / 0x100) % 0x100) as u8);
    r.push((x % 0x100) as u8);
    proof {
        assert(r@ =~= be32_of(x));
    }
    r
}

} // verus!
