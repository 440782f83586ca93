//! The xorshift generator that names temporary datastore directories.

use vstd::prelude::*;

verus! {

/// One step of the 32-bit xorshift generator (shifts 13, 17, 5).
pub open spec fn xorshift_step(x: u32) -> u32 {
    let a = x ^ (x << 13u32);
    let b = a ^ (a >> 17u32);
    b ^ (b << 5u32)
}

/// Advances `state` by one xorshift step and returns the new state.
pub fn xorshift(state: &mut u32) -> (r: u32)
    ensures
        r == xorshift_step(*old(state)),
        *final(state) == r,
{
    let mut x = *state;
    x ^= x << 13u32;
    x ^= x >> 17u32;
    x ^= x << 5u32;
    *state = x;
    x
}

} // verus!

verus! {

/// Distinct states step to distinct states: each xorshift step is a
/// bijection of `u32`, so the generator never merges two sequences.
pub proof fn lemma_xorshift_injective(a: u32, b: u32)
    requires
        a != b,
    ensures
        xorshift_step(a) != xorshift_step(b),
{
    let a1 = a ^ (a << 13u32);
    let b1 = b ^ (b << 13u32);
    assert(a1 != b1) by (bit_vector)
        requires
            a != b,
            a1 == a ^ (a << 13u32),
            b1 == b ^ (b << 13u32),
    ;
    let a2 = a1 ^ (a1 >> 17u32);
    let b2 = b1 ^ (b1 >> 17u32);
    assert(a2 != b2) by (bit_vector)
        requires
            a1 != b1,
            a2 == a1 ^ (a1 >> 17u32),
            b2 == b1 ^ (b1 >> 17u32),
    ;
    let a3 = a2 ^ (a2 << 5u32);
    let b3 = b2 ^ (b2 << 5u32);
    assert(a3 != b3) by (bit_vector)
        requires
            a2 != b2,
            a3 == a2 ^ (a2 << 5u32),
            b3 == b2 ^ (b2 << 5u32),
    ;
}

/// Zero is the only fixed point at zero: a nonzero state never steps to zero,
/// so a seeded generator keeps producing fresh names.
pub proof fn lemma_xorshift_nonzero(a: u32)
    requires
        a != 0,
    ensures
        xorshift_step(a) != 0,
{
    assert(xorshift_step(0) == 0) by (bit_vector);
    lemma_xorshift_injective(a, 0);
}

/// The generator seed taken from the wall-clock time: the seconds and the
/// sub-second nanoseconds are mixed, then the two halves are folded together.
pub open spec fn time_seed(secs: u64, nanos: u32) -> u32 {
    let t = secs ^ (nanos as u64);
    ((t >> 32u64) as u32) ^ (t as u32)
}

/// Computes the generator seed from the time since the Unix epoch.
pub fn seed_from_time(secs: u64, nanos: u32) -> (r: u32)
    ensures
        r == time_seed(secs, nanos),
{
    let t: u64 = secs ^ (nanos as u64);
    ((t >> 32u64) as u32) ^ (t as u32)
}

} // verus!

verus! {

/// The name of a temporary datastore directory: `surreal_lang_tests_{n}`.
pub open spec fn temp_dir_name_text(n: u32) -> Seq<char> {
    "surreal_lang_tests_"@ + crate::text::decimal(n as nat)
}

/// Names a temporary datastore directory after a generated number.
pub fn temp_dir_name(n: u32) -> (r: String)
    ensures
        r@ == temp_dir_name_text(n),
{
    let mut s = crate::text::owned("surreal_lang_tests_");
    crate::text::push_decimal(&mut s, n as u64);
    s
}

} // verus!
