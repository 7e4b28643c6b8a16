use vstd::prelude::*;

use crate::utils::random_int;

verus! {

/// The number of lattice points of the noise, per axis.
pub const POINT_COUNT: usize = 256;

/// The sequence `0, 1, ..., n - 1`.
pub open spec fn identity(n: nat) -> Seq<usize> {
    Seq::new(n, |i: int| i as usize)
}

/// Whether `p` holds each of the numbers below `POINT_COUNT` once.
pub open spec fn is_permutation(p: Seq<usize>) -> bool {
    &&& p.len() == POINT_COUNT
    &&& forall|i: int| 0 <= i < p.len() ==> #[trigger] p[i] < POINT_COUNT
    &&& p.no_duplicates()
}

/// The lattice position, on one axis, of the cell `cell` moved by `step`:
/// the sum, folded into the range of the permutation tables.
pub open spec fn folded(cell: i32, step: i32) -> int {
    (cell + step) % (POINT_COUNT as int)
}

/// Exclusive or of two table entries.
pub open spec fn mixed(a: usize, b: usize) -> usize {
    a ^ b
}

/// The three permutation tables of the gradient noise.
///
/// Each table holds the numbers below `POINT_COUNT` in a random order. A
/// lattice point is sent to the position of its gradient by looking up its
/// three folded coordinates, one in each table, and mixing the entries.
pub struct Perlin {
    perm_x: Vec<usize>,
    perm_y: Vec<usize>,
    perm_z: Vec<usize>,
}

impl Perlin {
    #[verifier::type_invariant]
    spec fn well_formed(self) -> bool {
        &&& is_permutation(self.perm_x@)
        &&& is_permutation(self.perm_y@)
        &&& is_permutation(self.perm_z@)
    }

    /// The table for the x axis.
    pub closed spec fn table_x(self) -> Seq<usize> {
        self.perm_x@
    }

    /// The table for the y axis.
    pub closed spec fn table_y(self) -> Seq<usize> {
        self.perm_y@
    }

    /// The table for the z axis.
    pub closed spec fn table_z(self) -> Seq<usize> {
        self.perm_z@
    }

    /// Draws three tables.
    pub fn new() -> (r: Self)
        ensures
            is_permutation(r.table_x()),
            is_permutation(r.table_y()),
            is_permutation(r.table_z()),
    {
        let perm_x = Self::perlin_generate_perm();
        let perm_y = Self::perlin_generate_perm();
        let perm_z = Self::perlin_generate_perm();
        Self { perm_x, perm_y, perm_z }
    }

    /// The position of the gradient of a lattice point, as a value.
    pub open spec fn gradient_index(
        self,
        i: i32,
        j: i32,
        k: i32,
        di: i32,
        dj: i32,
        dk: i32,
    ) -> usize {
        mixed(
            mixed(self.table_x()[folded(i, di)], self.table_y()[folded(j, dj)]),
            self.table_z()[folded(k, dk)],
        )
    }

    /// The position, among `POINT_COUNT` gradients, of the gradient of the
    /// lattice point that lies `di`, `dj`, `dk` cells beyond the cell
    /// `i`, `j`, `k`.
    pub fn gradient(&self, i: i32, j: i32, k: i32, di: i32, dj: i32, dk: i32) -> (r: usize)
        ensures
            r == self.gradient_index(i, j, k, di, dj, dk),
            r < POINT_COUNT,
    {
        proof {
            use_type_invariant(self);
        }
        let a = fold(i, di);
        let b = fold(j, dj);
        let c = fold(k, dk);
        let x = self.perm_x[a];
        let y = self.perm_y[b];
        let z = self.perm_z[c];
        assert(x ^ y ^ z < 256) by (bit_vector)
            requires
                x < 256,
                y < 256,
                z < 256,
        ;
        x ^ y ^ z
    }

    /// The positions of the gradients of the eight corners of the cell
    /// `i`, `j`, `k`: the corner itself first, then with the steps along z,
    /// y and x as the binary digits of the position say.
    pub fn noise(&self, i: i32, j: i32, k: i32) -> (r: Vec<usize>)
        ensures
            r@.len() == 8,
            forall|di: int, dj: int, dk: int|
                0 <= di < 2 && 0 <= dj < 2 && 0 <= dk < 2 ==> #[trigger] r@[4 * di + 2 * dj + dk]
                    == self.gradient_index(i, j, k, di as i32, dj as i32, dk as i32),
            forall|n: int| 0 <= n < 8 ==> #[trigger] r@[n] < POINT_COUNT,
    {
        let mut r: Vec<usize> = Vec::with_capacity(8);
        let mut di: i32 = 0;
        while di < 2
            invariant
                0 <= di <= 2,
                r@.len() == 4 * di,
                forall|a: int, b: int, c: int|
                    0 <= a < di && 0 <= b < 2 && 0 <= c < 2 ==> #[trigger] r@[4 * a + 2 * b + c]
                        == self.gradient_index(i, j, k, a as i32, b as i32, c as i32),
                forall|n: int| 0 <= n < r@.len() ==> #[trigger] r@[n] < POINT_COUNT,
            decreases 2 - di,
        {
            let mut dj: i32 = 0;
            while dj < 2
                invariant
                    0 <= di < 2,
                    0 <= dj <= 2,
                    r@.len() == 4 * di + 2 * dj,
                    forall|a: int, b: int, c: int|
                        0 <= a < 2 && 0 <= b < 2 && 0 <= c < 2 && 4 * a + 2 * b + c < r@.len()
                            ==> #[trigger] r@[4 * a + 2 * b + c] == self.gradient_index(
                            i,
                            j,
                            k,
                            a as i32,
                            b as i32,
                            c as i32,
                        ),
                    forall|n: int| 0 <= n < r@.len() ==> #[trigger] r@[n] < POINT_COUNT,
                decreases 2 - dj,
            {
                let mut dk: i32 = 0;
                while dk < 2
                    invariant
                        0 <= di < 2,
                        0 <= dj < 2,
                        0 <= dk <= 2,
                        r@.len() == 4 * di + 2 * dj + dk,
                        forall|a: int, b: int, c: int|
                            0 <= a < 2 && 0 <= b < 2 && 0 <= c < 2 && 4 * a + 2 * b + c < r@.len()
                                ==> #[trigger] r@[4 * a + 2 * b + c] == self.gradient_index(
                                i,
                                j,
                                k,
                                a as i32,
                                b as i32,
                                c as i32,
                            ),
                        forall|n: int| 0 <= n < r@.len() ==> #[trigger] r@[n] < POINT_COUNT,
                    decreases 2 - dk,
                {
                    let at = self.gradient(i, j, k, di, dj, dk);
                    r.push(at);
                    dk += 1;
                }
                dj += 1;
            }
            di += 1;
        }
        r
    }

    /// A table: the numbers below `POINT_COUNT`, shuffled.
    pub fn perlin_generate_perm() -> (p: Vec<usize>)
        ensures
            is_permutation(p@),
    {
        let mut p: Vec<usize> = Vec::with_capacity(POINT_COUNT);
        let mut i: usize = 0;
        while i < POINT_COUNT
            invariant
                i <= POINT_COUNT,
                p@ == identity(i as nat),
            decreases POINT_COUNT - i,
        {
            p.push(i);
            assert(p@ == identity((i + 1) as nat));
            i += 1;
        }
        Self::permute(&mut p);
        proof {
            lemma_shuffled_identity(p@);
        }
        p
    }

    /// Shuffles the vector in place: from the last position down, each
    /// entry changes places with one drawn at random from those up to it.
    pub fn permute(points: &mut Vec<usize>)
        requires
            old(points)@.len() <= u32::MAX,
        ensures
            final(points)@.len() == old(points)@.len(),
            final(points)@.to_multiset() == old(points)@.to_multiset(),
            exists|draws: Seq<usize>|
                #[trigger] within_reach(draws, old(points)@.len()) && final(points)@ == shuffled(
                    old(points)@,
                    draws,
                ),
    {
        let ghost mut draws: Seq<usize> = Seq::empty();
        let mut i: usize = points.len();
        while i > 0
            invariant
                i <= points@.len(),
                points@.len() == old(points)@.len(),
                points@.len() <= u32::MAX,
                points@.to_multiset() == old(points)@.to_multiset(),
                draws.len() == points@.len() - i,
                forall|k: int| 0 <= k < draws.len() ==> #[trigger] draws[k] <= points@.len() - 1 - k,
                points@ == shuffled(old(points)@, draws),
            decreases i,
        {
            i -= 1;
            let target = random_int(0, i as u32) as usize;
            let ghost before = points@;
            Self::exchange(points, i, target);
            proof {
                lemma_exchange_keeps_entries(before, i as int, target as int);
                assert(draws.push(target).drop_last() == draws);
                draws = draws.push(target);
            }
        }
        assert(within_reach(draws, old(points)@.len()));
    }

    /// Lets the entries at two positions of the vector change places.
    pub fn exchange(points: &mut Vec<usize>, i: usize, target: usize)
        requires
            i < old(points)@.len(),
            target < old(points)@.len(),
        ensures
            final(points)@ == exchanged(old(points)@, i as int, target as int),
    {
        let a = points[i];
        let b = points[target];
        points.set(i, b);
        points.set(target, a);
    }
}

/// The sequence in which the entries at `i` and `j` have changed places.
pub open spec fn exchanged(s: Seq<usize>, i: int, j: int) -> Seq<usize> {
    s.update(i, s[j]).update(j, s[i])
}

/// Whether `draws` can be the positions drawn while a sequence of `n`
/// entries is shuffled: there is one draw for each position, the first for
/// the last position, and the draw for a position does not lie beyond it.
pub open spec fn within_reach(draws: Seq<usize>, n: nat) -> bool {
    &&& draws.len() == n
    &&& forall|k: int| 0 <= k < draws.len() ==> #[trigger] draws[k] <= n - 1 - k
}

/// The sequence `s` after the exchanges that the draws stand for: the first
/// draw changes places with the last position of `s`, the next with the one
/// before it, and so on down.
pub open spec fn shuffled(s: Seq<usize>, draws: Seq<usize>) -> Seq<usize>
    decreases draws.len(),
{
    if draws.len() == 0 {
        s
    } else {
        exchanged(shuffled(s, draws.drop_last()), s.len() - draws.len(), draws.last() as int)
    }
}

/// The lattice position, on one axis, of the cell `cell` moved by `step`.
fn fold(cell: i32, step: i32) -> (r: usize)
    ensures
        r == folded(cell, step),
        r < POINT_COUNT,
{
    let sum: i64 = cell as i64 + step as i64;
    let low: i64 = sum & 255;
    assert(0 <= low < 256 && low == sum % 256) by (bit_vector)
        requires
            low == sum & 255,
    ;
    low as usize
}

/// Two entries of a sequence that change places leave it with the entries
/// it had.
pub proof fn lemma_exchange_keeps_entries(s: Seq<usize>, i: int, j: int)
    requires
        0 <= i < s.len(),
        0 <= j < s.len(),
    ensures
        exchanged(s, i, j).to_multiset() == s.to_multiset(),
{
    broadcast use vstd::seq_lib::to_multiset_update;
    broadcast use vstd::multiset::group_multiset_axioms;

    let mid = s.update(i, s[j]);
    assert(mid.to_multiset() == s.to_multiset().insert(s[j]).remove(s[i]));
    assert(mid.update(j, s[i]).to_multiset() == mid.to_multiset().insert(s[i]).remove(mid[j]));
    s.to_multiset_ensures();
    assert(s.contains(s[i]));
    assert(s.contains(s[j]));
    assert(mid.update(j, s[i]).to_multiset() =~= s.to_multiset());
}

/// A sequence with the entries of `0, 1, ..., POINT_COUNT - 1` is a
/// permutation of them.
pub proof fn lemma_shuffled_identity(p: Seq<usize>)
    requires
        p.to_multiset() == identity(POINT_COUNT as nat).to_multiset(),
    ensures
        is_permutation(p),
{
    let id = identity(POINT_COUNT as nat);
    p.to_multiset_ensures();
    id.to_multiset_ensures();
    assert forall|i: int| 0 <= i < p.len() implies #[trigger] p[i] < POINT_COUNT by {
        assert(p.contains(p[i]));
        assert(id.to_multiset().count(p[i]) > 0);
        assert(id.contains(p[i]));
        let k = choose|k: int| 0 <= k < id.len() && id[k] == p[i];
        assert(id[k] == k);
    }
    assert(id.no_duplicates());
    id.lemma_multiset_has_no_duplicates();
    p.lemma_multiset_has_no_duplicates_conv();
}

} // verus!
