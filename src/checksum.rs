//! A checksum of the tracked state for desync detection. Integers are hashed
//! by their bit patterns, and bodies are combined by a wrapping sum, so the
//! order in which bodies are stored does not matter.
use vstd::prelude::*;
use crate::geom::Vec2;
use crate::world::{Body, World, WorldView};

verus! {

/// Multiplier of the word mixing step (the 64-bit FNV prime).
pub const MIX_PRIME: u64 = 0x0000_0100_0000_01b3;
/// Starting value of a body digest (the 64-bit FNV offset basis).
pub const MIX_BASIS: u64 = 0xcbf2_9ce4_8422_2325;

/// Folds one 64-bit word into a running hash.
pub open spec fn mix(h: u64, v: u64) -> u64 {
    (h ^ v).wrapping_mul(MIX_PRIME)
}

/// The bit pattern of an `i32`, widened without sign extension.
pub open spec fn bits(x: i32) -> u64 {
    (x as u32) as u64
}

/// The digest of one body's tracked values.
#[verifier::opaque]
pub open spec fn body_digest(b: Body) -> u64 {
    let h0 = mix(MIX_BASIS, b.id);
    let h1 = mix(h0, bits(b.position.x));
    let h2 = mix(h1, bits(b.position.y));
    let h3 = mix(h2, bits(b.linear_velocity.x));
    let h4 = mix(h3, bits(b.linear_velocity.y));
    let h5 = mix(h4, bits(b.angular_velocity));
    let h6 = mix(h5, bits(b.previous_position.x));
    mix(h6, bits(b.previous_position.y))
}

/// Wrapping sum of the digests of the first `k` bodies.
pub open spec fn digest_sum(bodies: Seq<Body>, k: int) -> u64
    decreases k,
{
    if k <= 0 {
        0
    } else {
        digest_sum(bodies, k - 1).wrapping_add(body_digest(bodies[k - 1]))
    }
}

/// The checksum of a world: the frame counter mixed into the sum of the body
/// digests.
pub open spec fn checksum_spec(w: WorldView) -> u64 {
    mix(digest_sum(w.bodies, w.bodies.len() as int), w.frame)
}

fn mix_word(h: u64, v: u64) -> (r: u64)
    ensures
        r == mix(h, v),
{
    (h ^ v).wrapping_mul(MIX_PRIME)
}

fn bits_of(x: i32) -> (r: u64)
    ensures
        r == bits(x),
{
    (x as u32) as u64
}

/// The digest of one body's tracked values.
pub fn digest(b: &Body) -> (r: u64)
    ensures
        r == body_digest(*b),
{
    reveal(body_digest);
    let h0 = mix_word(MIX_BASIS, b.id);
    let h1 = mix_word(h0, bits_of(b.position.x));
    let h2 = mix_word(h1, bits_of(b.position.y));
    let h3 = mix_word(h2, bits_of(b.linear_velocity.x));
    let h4 = mix_word(h3, bits_of(b.linear_velocity.y));
    let h5 = mix_word(h4, bits_of(b.angular_velocity));
    let h6 = mix_word(h5, bits_of(b.previous_position.x));
    mix_word(h6, bits_of(b.previous_position.y))
}

/// The checksum of the tracked state.
pub fn checksum(world: &World) -> (r: u64)
    ensures
        r == checksum_spec(world@),
{
    let mut sum: u64 = 0;
    let mut i: usize = 0;
    while i < world.bodies.len()
        invariant
            0 <= i <= world.bodies.len(),
            sum == digest_sum(world@.bodies, i as int),
        decreases world.bodies.len() - i,
    {
        sum = sum.wrapping_add(digest(&world.bodies[i]));
        i = i + 1;
    }
    mix_word(sum, world.frame)
}

/// The hash of an `i32` pair by the bit patterns of its components, as the
/// previous-position bookkeeping hashes it.
pub fn position_hash(p: Vec2) -> (r: u64)
    ensures
        r == mix(mix(MIX_BASIS, bits(p.x)), bits(p.y)),
{
    mix_word(mix_word(MIX_BASIS, bits_of(p.x)), bits_of(p.y))
}

/// Hashing is a function of the tracked state: equal states have equal
/// checksums, however often they are hashed.
pub proof fn lemma_checksum_stable(a: WorldView, b: WorldView)
    requires
        a == b,
    ensures
        checksum_spec(a) == checksum_spec(b),
{
}

/// Swapping two neighbouring bodies leaves the checksum unchanged.
pub proof fn lemma_checksum_swap(w: WorldView, i: int)
    requires
        0 <= i && i + 1 < w.bodies.len(),
    ensures
        checksum_spec(w) == checksum_spec(
            WorldView {
                bodies: w.bodies.update(i, w.bodies[i + 1]).update(i + 1, w.bodies[i]),
                ..w
            },
        ),
{
    let s = w.bodies;
    let t = s.update(i, s[i + 1]).update(i + 1, s[i]);
    lemma_digest_sum_swap(s, t, i, s.len() as int);
}

proof fn lemma_digest_sum_swap(s: Seq<Body>, t: Seq<Body>, i: int, k: int)
    requires
        0 <= i && i + 1 < s.len(),
        t == s.update(i, s[i + 1]).update(i + 1, s[i]),
        0 <= k <= s.len(),
    ensures
        k <= i ==> digest_sum(s, k) == digest_sum(t, k),
        k >= i + 2 ==> digest_sum(s, k) == digest_sum(t, k),
    decreases k,
{
    if k > 0 {
        lemma_digest_sum_swap(s, t, i, k - 1);
        if k == i + 2 {
            lemma_digest_sum_swap(s, t, i, i);
            let a = digest_sum(s, i);
            let x = body_digest(s[i]);
            let y = body_digest(s[i + 1]);
            assert(digest_sum(s, i + 1) == a.wrapping_add(x));
            assert(t[i] == s[i + 1] && t[i + 1] == s[i]);
            assert(digest_sum(t, i + 1) == digest_sum(t, i).wrapping_add(y));
            assert(digest_sum(s, k) == a.wrapping_add(x).wrapping_add(y));
            assert(digest_sum(t, k) == a.wrapping_add(y).wrapping_add(x));
            lemma_wrapping_add_swap(a, x, y);
        }
    }
}

proof fn lemma_wrapping_add_swap(a: u64, x: u64, y: u64)
    ensures
        a.wrapping_add(x).wrapping_add(y) == a.wrapping_add(y).wrapping_add(x),
{
}

} // verus!
