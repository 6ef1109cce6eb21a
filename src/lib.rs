use vstd::prelude::*;

pub mod fs;

verus! {

/// One round of Marsaglia's 32-bit xorshift (shifts 13, 17, 5).
pub open spec fn xorshift32_spec(t: u32) -> u32 {
    let a = t ^ (t << 13u32);
    let b = a ^ (a >> 17u32);
    b ^ (b << 5u32)
}

/// A pseudo-random number made from a cycle count: its low 32 bits,
/// scrambled by one round of xorshift.
pub fn xor_rng_u32(cycles: u64) -> (r: u32)
    ensures
        r == xorshift32_spec(cycles as u32),
{
    let mut t: u32 = cycles as u32;
    t = t ^ (t << 13u32);
    t = t ^ (t >> 17u32);
    t ^ (t << 5u32)
}


/// Xorshift loses nothing: cycle counts that differ in their low 32 bits
/// give different numbers.
pub proof fn lemma_xor_rng_distinct(c1: u64, c2: u64)
    requires
        c1 as u32 != c2 as u32,
    ensures
        xorshift32_spec(c1 as u32) != xorshift32_spec(c2 as u32),
{
    let a = c1 as u32;
    let b = c2 as u32;
    assert(a != b ==> (a ^ (a << 13u32)) ^ ((a ^ (a << 13u32)) >> 17u32) ^ (((a ^ (a << 13u32)) ^ ((a
        ^ (a << 13u32)) >> 17u32)) << 5u32) != (b ^ (b << 13u32)) ^ ((b ^ (b << 13u32)) >> 17u32) ^ (((b
        ^ (b << 13u32)) ^ ((b ^ (b << 13u32)) >> 17u32)) << 5u32)) by (bit_vector);
}

/// The bytes of `x`, least significant first.
pub open spec fn le_bytes(x: u32) -> Seq<u8> {
    seq![
        (x & 0xffu32) as u8,
        ((x >> 8u32) & 0xffu32) as u8,
        ((x >> 16u32) & 0xffu32) as u8,
        (x >> 24u32) as u8,
    ]
}

/// An ASCII digit or letter: `0-9`, `A-Z` or `a-z`.
pub open spec fn is_alphanumeric(b: u8) -> bool {
    (48 <= b < 58) || (65 <= b < 91) || (97 <= b < 123)
}

/// The alphanumeric bytes of `s`, in order.
pub open spec fn keep_alphanumerics(s: Seq<u8>) -> Seq<u8>
    decreases s.len(),
{
    if s.len() == 0 {
        s
    } else if is_alphanumeric(s.last()) {
        keep_alphanumerics(s.drop_last()).push(s.last())
    } else {
        keep_alphanumerics(s.drop_last())
    }
}

fn is_alphanumeric_byte(b: u8) -> (r: bool)
    ensures
        r == is_alphanumeric(b),
{
    (48 <= b && b < 58) || (65 <= b && b < 91) || (97 <= b && b < 123)
}

/// The alphanumeric bytes among those of `x`, least significant first.
pub fn alphanumeric_bytes(x: u32) -> (r: Vec<u8>)
    ensures
        r@ == keep_alphanumerics(le_bytes(x)),
{
    let bytes: Vec<u8> = vec![
        (x & 0xffu32) as u8,
        ((x >> 8u32) & 0xffu32) as u8,
        ((x >> 16u32) & 0xffu32) as u8,
        (x >> 24u32) as u8,
    ];
    assert(bytes@ =~= le_bytes(x));
    let mut r: Vec<u8> = Vec::new();
    let mut i: usize = 0;
    while i < bytes.len()
        invariant
            i <= bytes@.len(),
            bytes@ == le_bytes(x),
            r@ == keep_alphanumerics(bytes@.take(i as int)),
        decreases bytes.len() - i,
    {
        assert(bytes@.take(i + 1).drop_last() =~= bytes@.take(i as int));
        if is_alphanumeric_byte(bytes[i]) {
            r.push(bytes[i]);
        }
        i += 1;
    }
    assert(bytes@.take(4) =~= bytes@);
    r
}

/// Draws one number from `rand_fn` and keeps its alphanumeric bytes.
pub fn xor_rng_u8_alphanumerics<F: Fn() -> u32>(rand_fn: &F) -> (r: Vec<u8>)
    requires
        rand_fn.requires(()),
    ensures
        exists|x: u32| rand_fn.ensures((), x) && r@ == keep_alphanumerics(le_bytes(x)),
{
    let x = rand_fn();
    alphanumeric_bytes(x)
}

/// How many of a draw's alphanumeric bytes a buffer holding `have` bytes
/// takes on the way to `len`: at least one, since the length is checked
/// after each byte.
pub open spec fn bytes_wanted(have: nat, len: nat) -> nat {
    if len > have { (len - have) as nat } else { 1 }
}

/// Appends the alphanumeric bytes of the draw `x` to `buf`, one at a time,
/// stopping as soon as `buf` holds `len` bytes. Tells whether it stopped
/// there; if not, every such byte was appended.
pub fn push_alphanumerics(buf: &mut Vec<u8>, x: u32, len: usize) -> (done: bool)
    requires
        old(buf)@.len() + 4 <= usize::MAX,
    ensures
        ({
            let a = keep_alphanumerics(le_bytes(x));
            let k = bytes_wanted(old(buf)@.len(), len as nat);
            &&& done == (k <= a.len())
            &&& final(buf)@ == old(buf)@ + if done { a.take(k as int) } else { a }
        }),
{
    let a = alphanumeric_bytes(x);
    proof {
        lemma_keep_alphanumerics_len(le_bytes(x));
    }
    let ghost start = buf@;
    let mut i: usize = 0;
    while i < a.len()
        invariant
            i <= a@.len() <= 4,
            start == old(buf)@,
            a@ == keep_alphanumerics(le_bytes(x)),
            start.len() + 4 <= usize::MAX,
            buf@ == start + a@.take(i as int),
            i > 0 ==> buf@.len() < len,
        decreases a.len() - i,
    {
        let ghost before = buf@.len();
        buf.push(a[i]);
        i += 1;
        assert(buf@ =~= start + a@.take(i as int));
        if buf.len() >= len {
            assert(i as nat == bytes_wanted(start.len(), len as nat)) by {
                if i > 1 {
                    assert(before < len);
                }
            }
            return true;
        }
    }
    assert(a@.take(a@.len() as int) =~= a@);
    false
}

/// Filtering never lengthens a sequence.
proof fn lemma_keep_alphanumerics_len(s: Seq<u8>)
    ensures
        keep_alphanumerics(s).len() <= s.len(),
    decreases s.len(),
{
    if s.len() > 0 {
        lemma_keep_alphanumerics_len(s.drop_last());
    }
}

/// A clock reading given as seconds and nanoseconds, in nanoseconds.
pub open spec fn timespec_ns(tv_sec: int, tv_nsec: int) -> int {
    tv_sec * 1_000_000_000 + tv_nsec
}

/// Converts seconds and nanoseconds to nanoseconds.
pub fn timespec_to_ns(tv_sec: i64, tv_nsec: i64) -> (r: u64)
    requires
        tv_sec >= 0,
        tv_nsec >= 0,
        timespec_ns(tv_sec as int, tv_nsec as int) <= u64::MAX,
    ensures
        r == timespec_ns(tv_sec as int, tv_nsec as int),
{
    (tv_sec as u64) * 1_000_000_000 + (tv_nsec as u64)
}

/// A CPU time given as seconds and nanoseconds, in whole microseconds.
pub open spec fn timespec_us(tv_sec: int, tv_nsec: int) -> int {
    tv_sec * 1_000_000 + tv_nsec / 1000
}

/// Converts seconds and nanoseconds to whole microseconds.
pub fn timespec_to_us(tv_sec: i64, tv_nsec: i64) -> (r: u64)
    requires
        tv_sec >= 0,
        tv_nsec >= 0,
        timespec_us(tv_sec as int, tv_nsec as int) <= u64::MAX,
    ensures
        r == timespec_us(tv_sec as int, tv_nsec as int),
{
    (tv_sec as u64) * 1_000_000 + (tv_nsec as u64) / 1000
}

} // verus!
