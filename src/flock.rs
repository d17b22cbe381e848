//! The flock: neighbourhood queries, the aggregates over a neighbourhood,
//! the steering rule and the per-tick update of every bird.
use vstd::prelude::*;
use crate::arith::{div_floor, lemma_div_within};
use crate::geometry::{Vector, dist_sq};

verus! {

/// Distance, in fixed-point units, under which another bird is a neighbour
/// (100 world units).
pub const LOCAL_RADIUS: i64 = 100_000_000;

/// A member of the flock: where it is and where it is heading.
#[derive(Clone, Copy, Debug, PartialEq, Eq, Structural)]
pub struct Bird {
    pub pos: Vector,
    pub dir: i64,
}

/// `other` counts as a neighbour of `focal`: it is a different bird, compared
/// by value, and lies strictly within `LOCAL_RADIUS`.
pub open spec fn is_neighbor(focal: Bird, other: Bird) -> bool {
    other != focal && dist_sq(focal.pos, other.pos) < LOCAL_RADIUS * LOCAL_RADIUS
}

/// The indices below `n` of the neighbours of `focal`, in increasing order.
pub open spec fn neighbors_below(birds: Seq<Bird>, focal: Bird, n: int) -> Seq<usize>
    decreases n,
{
    if n <= 0 {
        Seq::empty()
    } else {
        let s = neighbors_below(birds, focal, n - 1);
        if is_neighbor(focal, birds[n - 1]) {
            s.push((n - 1) as usize)
        } else {
            s
        }
    }
}

/// The indices of all neighbours of `focal` in the flock, in increasing order.
pub open spec fn neighbors_of(birds: Seq<Bird>, focal: Bird) -> Seq<usize> {
    neighbors_below(birds, focal, birds.len() as int)
}

/// What `neighbors_below` holds: exactly the indices below `n` of neighbours.
pub proof fn lemma_neighbors_below(birds: Seq<Bird>, focal: Bird, n: int)
    requires
        0 <= n <= birds.len(),
        n <= usize::MAX + 1,
    ensures
        forall|t: int|
            0 <= t < neighbors_below(birds, focal, n).len() ==> {
                let k = #[trigger] neighbors_below(birds, focal, n)[t];
                k < n && is_neighbor(focal, birds[k as int])
            },
        forall|k: int|
            0 <= k < n ==> (neighbors_below(birds, focal, n).contains(k as usize) <==> is_neighbor(
                focal,
                #[trigger] birds[k],
            )),
    decreases n,
{
    if n > 0 {
        lemma_neighbors_below(birds, focal, n - 1);
        let s = neighbors_below(birds, focal, n - 1);
        if is_neighbor(focal, birds[n - 1]) {
            assert(s.push((n - 1) as usize)[s.len() as int] == (n - 1) as usize);
        }
        assert forall|k: int| 0 <= k < n implies (neighbors_below(birds, focal, n).contains(
            k as usize,
        ) <==> is_neighbor(focal, #[trigger] birds[k])) by {
            let r = neighbors_below(birds, focal, n);
            if k < n - 1 {
                if r.contains(k as usize) {
                    let t = choose|t: int| 0 <= t < r.len() && r[t] == k as usize;
                    if t < s.len() {
                        assert(s[t] == k as usize);
                    }
                } else if is_neighbor(focal, birds[k]) {
                    let t = choose|t: int| 0 <= t < s.len() && s[t] == k as usize;
                    assert(r[t] == k as usize);
                }
            } else {
                if is_neighbor(focal, birds[k]) {
                    assert(r[s.len() as int] == k as usize);
                }
            }
        }
    }
}

/// A bird is never its own neighbour: no index of the neighbourhood of a
/// bird refers to a bird equal to it, so in particular not to itself.
pub proof fn lemma_neighbors_exclude_focal(birds: Seq<Bird>, i: int)
    requires
        0 <= i < birds.len(),
        birds.len() <= usize::MAX,
    ensures
        !neighbors_of(birds, birds[i]).contains(i as usize),
        forall|t: int|
            0 <= t < neighbors_of(birds, birds[i]).len() ==> birds[#[trigger] neighbors_of(
                birds,
                birds[i],
            )[t] as int] != birds[i],
{
    lemma_neighbors_below(birds, birds[i], birds.len() as int);
}

/// Being a neighbour is symmetric: `j` is in the neighbourhood of bird `i`
/// exactly when `i` is in the neighbourhood of bird `j`.
pub proof fn lemma_neighbors_symmetric(birds: Seq<Bird>, i: int, j: int)
    requires
        0 <= i < birds.len(),
        0 <= j < birds.len(),
        birds.len() <= usize::MAX,
    ensures
        neighbors_of(birds, birds[i]).contains(j as usize) <==> neighbors_of(
            birds,
            birds[j],
        ).contains(i as usize),
{
    lemma_neighbors_below(birds, birds[i], birds.len() as int);
    lemma_neighbors_below(birds, birds[j], birds.len() as int);
    let (a, b) = (birds[i].pos, birds[j].pos);
    assert(dist_sq(a, b) == dist_sq(b, a)) by (nonlinear_arith);
}

/// The indices of the neighbours of `focal` in `birds`, in increasing order.
pub fn neighbors(birds: &Vec<Bird>, focal: Bird) -> (r: Vec<usize>)
    ensures
        r@ == neighbors_of(birds@, focal),
{
    let mut r: Vec<usize> = Vec::new();
    let mut k: usize = 0;
    while k < birds.len()
        invariant
            k <= birds.len(),
            r@ == neighbors_below(birds@, focal, k as int),
        decreases birds.len() - k,
    {
        let other = birds[k];
        if other != focal && focal.pos.is_within(other.pos, LOCAL_RADIUS) {
            r.push(k);
        }
        k = k + 1;
    }
    r
}

/// The indices in `idx` all refer to birds of the flock.
pub open spec fn indices_valid(birds: Seq<Bird>, idx: Seq<usize>) -> bool {
    forall|t: int| 0 <= t < idx.len() ==> #[trigger] idx[t] < birds.len()
}

/// The sum of the x coordinates of the birds at `idx`.
pub open spec fn sum_x(birds: Seq<Bird>, idx: Seq<usize>) -> int
    decreases idx.len(),
{
    if idx.len() == 0 {
        0
    } else {
        sum_x(birds, idx.drop_last()) + birds[idx.last() as int].pos.x
    }
}

/// The sum of the y coordinates of the birds at `idx`.
pub open spec fn sum_y(birds: Seq<Bird>, idx: Seq<usize>) -> int
    decreases idx.len(),
{
    if idx.len() == 0 {
        0
    } else {
        sum_y(birds, idx.drop_last()) + birds[idx.last() as int].pos.y
    }
}

/// The sum of the headings of the birds at `idx`, as plain numbers.
pub open spec fn sum_dir(birds: Seq<Bird>, idx: Seq<usize>) -> int
    decreases idx.len(),
{
    if idx.len() == 0 {
        0
    } else {
        sum_dir(birds, idx.drop_last()) + birds[idx.last() as int].dir
    }
}

/// The mean of `n` values that add up to `total`, rounded down; zero when
/// there are none.
pub open spec fn mean(total: int, n: int) -> int {
    if n == 0 {
        0
    } else {
        total / n
    }
}

/// Over no birds the centroid is the origin and the mean heading zero; over
/// one bird they are that bird's position and heading.
pub proof fn lemma_mean_of_few(birds: Seq<Bird>, idx: Seq<usize>)
    requires
        idx.len() <= 1,
        indices_valid(birds, idx),
    ensures
        idx.len() == 0 ==> mean(sum_x(birds, idx), 0) == 0 && mean(sum_y(birds, idx), 0) == 0
            && mean(sum_dir(birds, idx), 0) == 0,
        idx.len() == 1 ==> {
            let b = birds[idx[0] as int];
            &&& mean(sum_x(birds, idx), 1) == b.pos.x
            &&& mean(sum_y(birds, idx), 1) == b.pos.y
            &&& mean(sum_dir(birds, idx), 1) == b.dir
        },
{
    if idx.len() == 1 {
        assert(idx.drop_last().len() == 0);
        assert(sum_x(birds, idx.drop_last()) == 0);
        assert(sum_y(birds, idx.drop_last()) == 0);
        assert(sum_dir(birds, idx.drop_last()) == 0);
        assert(idx.last() == idx[0]);
        assert(sum_x(birds, idx) == birds[idx[0] as int].pos.x);
        assert(sum_y(birds, idx) == birds[idx[0] as int].pos.y);
        assert(sum_dir(birds, idx) == birds[idx[0] as int].dir);
    }
}

/// The componentwise mean position of the birds at `idx`, rounded down; the
/// origin when `idx` is empty.
pub fn center_of_mass(birds: &Vec<Bird>, idx: &Vec<usize>) -> (r: Vector)
    requires
        indices_valid(birds@, idx@),
    ensures
        r.x == mean(sum_x(birds@, idx@), idx@.len() as int),
        r.y == mean(sum_y(birds@, idx@), idx@.len() as int),
{
    if idx.len() == 0 {
        return Vector::zero();
    }
    let mut sx: i128 = 0;
    let mut sy: i128 = 0;
    let mut k: usize = 0;
    while k < idx.len()
        invariant
            k <= idx.len(),
            indices_valid(birds@, idx@),
            sx == sum_x(birds@, idx@.take(k as int)),
            sy == sum_y(birds@, idx@.take(k as int)),
            k * (i64::MIN as int) <= sx <= k * (i64::MAX as int),
            k * (i64::MIN as int) <= sy <= k * (i64::MAX as int),
        decreases idx.len() - k,
    {
        let b = birds[idx[k]];
        assert(idx@.take(k + 1).drop_last() =~= idx@.take(k as int));
        sx = sx + b.pos.x as i128;
        sy = sy + b.pos.y as i128;
        k = k + 1;
    }
    assert(idx@.take(k as int) =~= idx@);
    let n = idx.len() as i128;
    proof {
        lemma_div_within(sx as int, n as int, i64::MIN as int, i64::MAX as int);
        lemma_div_within(sy as int, n as int, i64::MIN as int, i64::MAX as int);
    }
    Vector { x: div_floor(sx, n) as i64, y: div_floor(sy, n) as i64 }
}

/// The mean heading of the birds at `idx`, rounded down and taken over the
/// headings as plain numbers (not on the circle); zero when `idx` is empty.
pub fn avg_heading(birds: &Vec<Bird>, idx: &Vec<usize>) -> (r: i64)
    requires
        indices_valid(birds@, idx@),
    ensures
        r == mean(sum_dir(birds@, idx@), idx@.len() as int),
{
    if idx.len() == 0 {
        return 0;
    }
    let mut total: i128 = 0;
    let mut k: usize = 0;
    while k < idx.len()
        invariant
            k <= idx.len(),
            indices_valid(birds@, idx@),
            total == sum_dir(birds@, idx@.take(k as int)),
            k * (i64::MIN as int) <= total <= k * (i64::MAX as int),
        decreases idx.len() - k,
    {
        let b = birds[idx[k]];
        assert(idx@.take(k + 1).drop_last() =~= idx@.take(k as int));
        total = total + b.dir as i128;
        k = k + 1;
    }
    assert(idx@.take(k as int) =~= idx@);
    let n = idx.len() as i128;
    proof {
        lemma_div_within(total as int, n as int, i64::MIN as int, i64::MAX as int);
    }
    div_floor(total, n) as i64
}

} // verus!
