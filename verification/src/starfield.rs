//! The deterministic decorative starfield.
//!
//! A Pcg64 generator is seeded from the sector's name, so the same name
//! always yields the same field. Points are Cartesian pairs in milli-units;
//! both axes deliberately reach one plot unit past the grid edge.

use vstd::prelude::*;
use rand::Rng;

verus! {

/// The sequence of starfield points drawn for a given seed string, point
/// count and pair of upper bounds (in milli-units; the lower bound of both
/// axes is fixed at -1000).
pub uninterp spec fn star_points(seed: Seq<char>, count: int, x_hi: int, y_hi: int) -> Seq<
    (i32, i32),
>;

/// How many starfield points a grid of the given extent gets:
/// `ceil(rows * columns * 1.6)`.
pub open spec fn star_count(rows: int, columns: int) -> int {
    (8 * (rows * columns) + 4) / 5
}

/// Relies on `rand_seeder::Seeder` and `rand_pcg::Pcg64`: a Pcg64 built
/// from a string seed is a pure function of the string's characters, and
/// `rand::Rng::gen_range` draws uniformly from the inclusive range and
/// depends only on the generator state; so the whole sequence of draws is a
/// function of the seed, the count and the bounds alone.
#[verifier::external_body]
pub fn generate_starfield(seed: &str, count: usize, x_hi: i32, y_hi: i32) -> (r: Vec<(i32, i32)>)
    requires
        x_hi >= -1000,
        y_hi >= -1000,
    ensures
        r@ == star_points(seed@, count as int, x_hi as int, y_hi as int),
        r@.len() == count,
        forall|i: int|
            0 <= i < count ==> -1000 <= (#[trigger] r@[i]).0 <= x_hi && -1000 <= r@[i].1 <= y_hi,
{
    let mut rng: rand_pcg::Pcg64 = rand_seeder::Seeder::from(seed).make_rng();
    let mut points = Vec::with_capacity(count);
    for _ in 0..count {
        let px = rng.gen_range(-1000..=x_hi);
        let py = rng.gen_range(-1000..=y_hi);
        points.push((px, py));
    }
    points
}

} // verus!
