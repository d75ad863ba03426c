//! Offsets between every pair of antennas.
use vstd::prelude::*;

use crate::matrix::{pair_index, MAX_ANTENNAS};

verus! {

/// The largest magnitude of an antenna coordinate, in millimetres.
pub const MAX_POSITION: i64 = 0x1000_0000_0000_0000;

/// East and north coordinates that the offsets can be taken of.
pub open spec fn positions_ok(east: Seq<i64>, north: Seq<i64>) -> bool {
    &&& east.len() == north.len()
    &&& east.len() <= MAX_ANTENNAS
    &&& forall|a: int| 0 <= a < east.len() ==> -MAX_POSITION <= #[trigger] east[a] <= MAX_POSITION
    &&& forall|a: int| 0 <= a < north.len() ==> -MAX_POSITION <= #[trigger] north[a] <= MAX_POSITION
}

/// `o` is the offset of antenna `a` from antenna `b`.
pub open spec fn is_offset(o: (i64, i64), east: Seq<i64>, north: Seq<i64>, a: int, b: int) -> bool {
    o.0 == east[a] - east[b] && o.1 == north[a] - north[b]
}

/// The offsets `(east_a - east_b, north_a - north_b)` of every antenna pair
/// `(a, b)`, in millimetres, at `a * n + b` for `n` antennas.
pub fn create_baselines(east: &Vec<i64>, north: &Vec<i64>) -> (r: Vec<(i64, i64)>)
    requires
        positions_ok(east@, north@),
    ensures
        r@.len() == east@.len() * east@.len(),
        forall|a: int, b: int|
            0 <= a < east@.len() && 0 <= b < east@.len() ==> is_offset(#[trigger] r@[pair_index(
                east@.len() as int,
                a,
                b,
            )], east@, north@, a, b),
        forall|a: int, b: int|
            0 <= a < east@.len() && 0 <= b < east@.len() ==> #[trigger] r@[pair_index(
                east@.len() as int,
                a,
                b,
            )].0 == -r@[pair_index(east@.len() as int, b, a)].0 && r@[pair_index(
                east@.len() as int,
                a,
                b,
            )].1 == -r@[pair_index(east@.len() as int, b, a)].1,
{
    let n = east.len();
    let mut r: Vec<(i64, i64)> = Vec::new();
    let mut a: usize = 0;
    while a < n
        invariant
            positions_ok(east@, north@),
            n == east@.len(),
            a <= n,
            r@.len() == a * n,
            forall|i: int, j: int|
                0 <= i < a && 0 <= j < n ==> is_offset(#[trigger] r@[pair_index(n as int, i, j)], east@, north@, i, j),
        decreases n - a,
    {
        let mut b: usize = 0;
        while b < n
            invariant
                positions_ok(east@, north@),
                n == east@.len(),
                a < n,
                b <= n,
                r@.len() == a * n + b,
                forall|i: int, j: int|
                    0 <= i < a && 0 <= j < n ==> is_offset(#[trigger] r@[pair_index(n as int, i, j)], east@, north@, i, j),
                forall|j: int|
                    0 <= j < b ==> is_offset(#[trigger] r@[pair_index(n as int, a as int, j)], east@, north@, a as int, j),
            decreases n - b,
        {
            let ghost before = r@;
            r.push((east[a] - east[b], north[a] - north[b]));
            assert forall|i: int, j: int| 0 <= i < a && 0 <= j < n implies is_offset(#[trigger] r@[pair_index(
                n as int,
                i,
                j,
            )], east@, north@, i, j) by {
                assert(i * n + j < a * n + b) by (nonlinear_arith)
                    requires
                        0 <= i < a,
                        0 <= j < n,
                        0 <= b,
                ;
                assert(r@[pair_index(n as int, i, j)] == before[pair_index(n as int, i, j)]);
            }
            b = b + 1;
        }
        assert((a + 1) * n == a * n + n) by (nonlinear_arith);
        a = a + 1;
    }
    r
}

} // verus!
