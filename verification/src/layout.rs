use vstd::prelude::*;

verus! {

/// The 16-bit value that `bytes` holds at `at`, low byte first.
#[verifier::opaque]
pub open spec fn spec_u16_at(bytes: Seq<u8>, at: int) -> u16 {
    (bytes[at] as int + 256 * bytes[at + 1] as int) as u16
}

/// The 32-bit value that `bytes` holds at `at`, low byte first.
#[verifier::opaque]
pub open spec fn spec_u32_at(bytes: Seq<u8>, at: int) -> u32 {
    (bytes[at] as int + 256 * bytes[at + 1] as int + 65536 * bytes[at + 2] as int + 16777216
        * bytes[at + 3] as int) as u32
}

/// The two bytes of `x`, low byte first.
#[verifier::opaque]
pub open spec fn spec_u16_bytes(x: u16) -> Seq<u8> {
    seq![(x % 256) as u8, (x / 256) as u8]
}

/// The four bytes of `x`, low byte first.
#[verifier::opaque]
pub open spec fn spec_u32_bytes(x: u32) -> Seq<u8> {
    seq![
        (x % 256) as u8,
        ((x / 256) % 256) as u8,
        ((x / 65536) % 256) as u8,
        (x / 16777216) as u8,
    ]
}

/// `bytes` with `src` written over the positions from `at` on.
pub open spec fn splice(bytes: Seq<u8>, at: int, src: Seq<u8>) -> Seq<u8> {
    Seq::new(
        bytes.len(),
        |i: int|
            if at <= i < at + src.len() {
                src[i - at]
            } else {
                bytes[i]
            },
    )
}

/// A 16-bit value takes two bytes, a 32-bit value four.
pub proof fn lemma_bytes_len(x: u16, y: u32)
    ensures
        spec_u16_bytes(x).len() == 2,
        spec_u32_bytes(y).len() == 4,
{
    reveal(spec_u16_bytes);
    reveal(spec_u32_bytes);
}

/// The four bytes of zero are zero.
pub proof fn lemma_zero_bytes()
    ensures
        spec_u32_bytes(0) == seq![0u8, 0u8, 0u8, 0u8],
{
    reveal(spec_u32_bytes);
    assert(spec_u32_bytes(0) =~= seq![0u8, 0u8, 0u8, 0u8]);
}

/// Four zero bytes hold the value zero.
pub proof fn lemma_zero_u32(bytes: Seq<u8>, at: int)
    requires
        bytes[at] == 0,
        bytes[at + 1] == 0,
        bytes[at + 2] == 0,
        bytes[at + 3] == 0,
    ensures
        spec_u32_at(bytes, at) == 0,
{
    reveal(spec_u32_at);
}

/// Reading a 16-bit value where its bytes were written gives the value back.
pub proof fn lemma_u16_written(bytes: Seq<u8>, at: int, x: u16)
    requires
        0 <= at,
        at + 2 <= bytes.len(),
    ensures
        spec_u16_at(splice(bytes, at, spec_u16_bytes(x)), at) == x,
{
    reveal(spec_u16_bytes);
    reveal(spec_u16_at);
}

/// Reading a 32-bit value where its bytes were written gives the value back.
pub proof fn lemma_u32_written(bytes: Seq<u8>, at: int, x: u32)
    requires
        0 <= at,
        at + 4 <= bytes.len(),
    ensures
        spec_u32_at(splice(bytes, at, spec_u32_bytes(x)), at) == x,
{
    reveal(spec_u32_bytes);
    reveal(spec_u32_at);
}

/// A 16-bit value depends on its two bytes alone.
pub proof fn lemma_u16_same(a: Seq<u8>, b: Seq<u8>, at: int)
    requires
        a[at] == b[at],
        a[at + 1] == b[at + 1],
    ensures
        spec_u16_at(a, at) == spec_u16_at(b, at),
{
    reveal(spec_u16_at);
}

/// A 32-bit value depends on its four bytes alone.
pub proof fn lemma_u32_same(a: Seq<u8>, b: Seq<u8>, at: int)
    requires
        a[at] == b[at],
        a[at + 1] == b[at + 1],
        a[at + 2] == b[at + 2],
        a[at + 3] == b[at + 3],
    ensures
        spec_u32_at(a, at) == spec_u32_at(b, at),
{
    reveal(spec_u32_at);
}

/// The 16-bit value at `at`.
pub fn read_u16(data: &Vec<u8>, at: usize) -> (x: u16)
    requires
        at + 2 <= data.len(),
    ensures
        x == spec_u16_at(data@, at as int),
{
    proof {
        reveal(spec_u16_at);
    }
    let lo: u16 = data[at] as u16;
    let hi: u16 = data[at + 1] as u16;
    lo + 256 * hi
}

/// The 32-bit value at `at`.
pub fn read_u32(data: &Vec<u8>, at: usize) -> (x: u32)
    requires
        at + 4 <= data.len(),
    ensures
        x == spec_u32_at(data@, at as int),
{
    proof {
        reveal(spec_u32_at);
    }
    let b0: u32 = data[at] as u32;
    let b1: u32 = data[at + 1] as u32;
    let b2: u32 = data[at + 2] as u32;
    let b3: u32 = data[at + 3] as u32;
    b0 + 256 * b1 + 65536 * b2 + 16777216 * b3
}

/// Writes `x` at `at`, low byte first.
pub fn write_u16(data: &mut Vec<u8>, at: usize, x: u16)
    requires
        at + 2 <= old(data).len(),
    ensures
        final(data)@ == splice(old(data)@, at as int, spec_u16_bytes(x)),
{
    proof {
        reveal(spec_u16_bytes);
    }
    data[at] = (x % 256) as u8;
    data[at + 1] = (x / 256) as u8;
    assert(data@ =~= splice(old(data)@, at as int, spec_u16_bytes(x)));
}

/// Writes `x` at `at`, low byte first.
pub fn write_u32(data: &mut Vec<u8>, at: usize, x: u32)
    requires
        at + 4 <= old(data).len(),
    ensures
        final(data)@ == splice(old(data)@, at as int, spec_u32_bytes(x)),
{
    proof {
        reveal(spec_u32_bytes);
    }
    data[at] = (x % 256) as u8;
    data[at + 1] = ((x / 256) % 256) as u8;
    data[at + 2] = ((x / 65536) % 256) as u8;
    data[at + 3] = (x / 16777216) as u8;
    assert(data@ =~= splice(old(data)@, at as int, spec_u32_bytes(x)));
}

/// Writes the bytes of `src` from `at` on.
pub fn write_bytes(data: &mut Vec<u8>, at: usize, src: &[u8])
    requires
        at + src.len() <= old(data).len(),
    ensures
        final(data)@ == splice(old(data)@, at as int, src@),
{
    let n = src.len();
    let mut i: usize = 0;
    while i < n
        invariant
            n == src@.len(),
            i <= n,
            at + n <= data.len(),
            data.len() == old(data).len(),
            forall|j: int| 0 <= j < data@.len() ==> data@[j] == if at <= j < at + i {
                src@[j - at]
            } else {
                old(data)@[j]
            },
        decreases n - i,
    {
        data[at + i] = src[i];
        i += 1;
    }
    assert(data@ =~= splice(old(data)@, at as int, src@));
}

} // verus!
