//! The `hello` module: wrapping integer arithmetic, a small calculator that
//! picks an operation by name, and a greeting written into a caller's buffer.

use vstd::prelude::*;

verus! {

use vstd::wrapping::i32_specs;

/// Operation completed successfully.
pub const HELLO_OK: i32 = 0;

/// The requested operation name is not supported.
pub const HELLO_ERR_UNSUPPORTED: i32 = -1;

/// Division by zero was requested.
pub const HELLO_ERR_DIV_ZERO: i32 = -2;

/// A destination buffer was too small or a pointer was invalid.
pub const HELLO_ERR_BUFFER: i32 = -3;

/// `a + b`, wrapping at 32 bits.
pub fn add(a: i32, b: i32) -> (r: i32)
    ensures
        r == i32_specs::wrapping_add(a, b),
{
    a.wrapping_add(b)
}

/// `a - b`, wrapping at 32 bits.
pub fn sub(a: i32, b: i32) -> (r: i32)
    ensures
        r == i32_specs::wrapping_sub(a, b),
{
    a.wrapping_sub(b)
}

/// `a * b`, wrapping at 32 bits.
pub fn mul(a: i32, b: i32) -> (r: i32)
    ensures
        r == i32_specs::wrapping_mul(a, b),
{
    a.wrapping_mul(b)
}

/// The operation names that select addition: `add` and `+`.
pub open spec fn names_add(op: Seq<u8>) -> bool {
    op == seq![0x61u8, 0x64u8, 0x64u8] || op == seq![0x2bu8]
}

/// The operation names that select subtraction: `sub` and `-`.
pub open spec fn names_sub(op: Seq<u8>) -> bool {
    op == seq![0x73u8, 0x75u8, 0x62u8] || op == seq![0x2du8]
}

/// The operation names that select multiplication: `mul` and `*`.
pub open spec fn names_mul(op: Seq<u8>) -> bool {
    op == seq![0x6du8, 0x75u8, 0x6cu8] || op == seq![0x2au8]
}

/// No name selects two operations.
proof fn lemma_names_distinct(op: Seq<u8>)
    ensures
        !(names_add(op) && names_sub(op)),
        !(names_add(op) && names_mul(op)),
        !(names_sub(op) && names_mul(op)),
{
    if names_add(op) {
        assert(op[0] == 0x61u8 || op[0] == 0x2bu8);
    }
    if names_sub(op) {
        assert(op[0] == 0x73u8 || op[0] == 0x2du8);
    }
    if names_mul(op) {
        assert(op[0] == 0x6du8 || op[0] == 0x2au8);
    }
}

/// Whether `op` spells the three bytes `c0 c1 c2` or the single byte `symbol`.
fn is_op(op: &[u8], c0: u8, c1: u8, c2: u8, symbol: u8) -> (r: bool)
    ensures
        r == (op@ == seq![c0, c1, c2] || op@ == seq![symbol]),
{
    if op.len() == 3 {
        let r = op[0] == c0 && op[1] == c1 && op[2] == c2;
        assert(r ==> op@ =~= seq![c0, c1, c2]);
        r
    } else if op.len() == 1 {
        let r = op[0] == symbol;
        assert(r ==> op@ =~= seq![symbol]);
        r
    } else {
        false
    }
}

/// Applies the operation named by `op` to `a` and `b`: `add`/`+`, `sub`/`-`
/// or `mul`/`*`, wrapping at 32 bits; `None` for any other name.
pub fn calc(op: &[u8], a: i32, b: i32) -> (r: Option<i32>)
    ensures
        names_add(op@) ==> r == Some(i32_specs::wrapping_add(a, b)),
        names_sub(op@) ==> r == Some(i32_specs::wrapping_sub(a, b)),
        names_mul(op@) ==> r == Some(i32_specs::wrapping_mul(a, b)),
        r is None <==> !(names_add(op@) || names_sub(op@) || names_mul(op@)),
{
    proof {
        lemma_names_distinct(op@);
    }
    if is_op(op, 0x61, 0x64, 0x64, 0x2b) {
        Some(self::add(a, b))
    } else if is_op(op, 0x73, 0x75, 0x62, 0x2d) {
        Some(self::sub(a, b))
    } else if is_op(op, 0x6d, 0x75, 0x6c, 0x2a) {
        Some(self::mul(a, b))
    } else {
        None
    }
}

/// The bytes of `Hello, `.
pub open spec fn greeting_prefix() -> Seq<u8> {
    seq![0x48u8, 0x65u8, 0x6cu8, 0x6cu8, 0x6fu8, 0x2cu8, 0x20u8]
}

/// The bytes of ` from Rust!`.
pub open spec fn greeting_suffix() -> Seq<u8> {
    seq![0x20u8, 0x66u8, 0x72u8, 0x6fu8, 0x6du8, 0x20u8, 0x52u8, 0x75u8, 0x73u8, 0x74u8, 0x21u8]
}

/// The whole greeting for `name`: `Hello, <name> from Rust!`.
pub open spec fn greeting(name: Seq<u8>) -> Seq<u8> {
    greeting_prefix() + name + greeting_suffix()
}

/// What writing `bytes` at the front of a buffer that held `buf` leaves in
/// it: as many leading bytes of `bytes` as fit, the rest of `buf` after them.
pub open spec fn written_into(buf: Seq<u8>, bytes: Seq<u8>) -> Seq<u8> {
    let k = if bytes.len() <= buf.len() {
        bytes.len()
    } else {
        buf.len()
    };
    bytes.take(k as int) + buf.skip(k as int)
}

fn greeting_prefix_bytes() -> (r: [u8; 7])
    ensures
        r@ == greeting_prefix(),
{
    let r: [u8; 7] = [0x48, 0x65, 0x6c, 0x6c, 0x6f, 0x2c, 0x20];
    assert(r@ =~= greeting_prefix());
    r
}

fn greeting_suffix_bytes() -> (r: [u8; 11])
    ensures
        r@ == greeting_suffix(),
{
    let r: [u8; 11] = [0x20, 0x66, 0x72, 0x6f, 0x6d, 0x20, 0x52, 0x75, 0x73, 0x74, 0x21];
    assert(r@ =~= greeting_suffix());
    r
}

/// Copies `src` into `out` from position `at` on, as far as it fits.
/// Returns the position after the copy, or `None` when `src` did not fit.
fn copy_part(src: &[u8], out: &mut [u8], at: usize) -> (r: Option<usize>)
    requires
        at <= old(out)@.len(),
    ensures
        final(out)@ == old(out)@.take(at as int) + written_into(old(out)@.skip(at as int), src@),
        r is Some <==> at + src@.len() <= old(out)@.len(),
        r matches Some(end) ==> end == at + src@.len(),
{
    let mut pos = at;
    let mut i: usize = 0;
    while i < src.len()
        invariant
            at <= pos <= out@.len(),
            pos == at + i,
            i <= src@.len(),
            out@.len() == old(out)@.len(),
            out@ == old(out)@.take(at as int) + src@.take(i as int) + old(out)@.skip(pos as int),
        decreases src@.len() - i,
    {
        if pos >= out.len() {
            assert(out@ =~= old(out)@.take(at as int) + written_into(
                old(out)@.skip(at as int),
                src@,
            ));
            return None;
        }
        out[pos] = src[i];
        pos += 1;
        i += 1;
        assert(out@ =~= old(out)@.take(at as int) + src@.take(i as int) + old(out)@.skip(
            pos as int,
        ));
    }
    assert(src@.take(i as int) =~= src@);
    assert(out@ =~= old(out)@.take(at as int) + written_into(old(out)@.skip(at as int), src@));
    Some(pos)
}

/// Writes `Hello, <name> from Rust!` into the front of `out` and returns
/// its length in bytes; `None` when it does not fit, in which case as much of
/// the greeting as fits has been written.
pub fn greet_into(name: &[u8], out: &mut [u8]) -> (r: Option<usize>)
    ensures
        final(out)@ == written_into(old(out)@, greeting(name@)),
        r is Some <==> greeting(name@).len() <= old(out)@.len(),
        r matches Some(n) ==> n == greeting(name@).len(),
{
    let prefix = greeting_prefix_bytes();
    let suffix = greeting_suffix_bytes();
    let ghost buf = out@;
    let ghost g = greeting(name@);
    let r1 = copy_part(prefix.as_slice(), out, 0);
    assert(buf.take(0) =~= Seq::<u8>::empty());
    assert(buf.skip(0) =~= buf);
    let at = match r1 {
        Some(at) => at,
        None => {
            assert(out@ =~= written_into(buf, g));
            return None;
        },
    };
    let r2 = copy_part(name, out, at);
    let at = match r2 {
        Some(at) => at,
        None => {
            assert(out@ =~= written_into(buf, g));
            return None;
        },
    };
    let r3 = copy_part(suffix.as_slice(), out, at);
    assert(out@ =~= written_into(buf, g));
    r3
}

} // verus!
