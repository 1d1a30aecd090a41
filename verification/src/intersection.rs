//! Which sphere a ray meets first, from the roots that the host found for
//! each sphere.

use vstd::prelude::*;
use crate::double::{Double, Value};

verus! {

/// The two ray parameters at which a ray meets one sphere, in no order.
pub type Roots = (Double, Double);

/// Pattern of 0.001, the double nearest to one thousandth.
pub const BIAS_BITS: u64 = 0x3f50_624d_d2f1_a9fc;

pub open spec fn spec_bias() -> Double {
    Double { bits: BIAS_BITS }
}

/// The least parameter of a ray that leaves a surface, 0.001: it keeps the
/// ray from meeting the surface it starts on.
#[verifier::when_used_as_spec(spec_bias)]
pub fn bias() -> (d: Double)
    ensures
        d == spec_bias(),
{
    Double { bits: BIAS_BITS }
}

/// `t` lies in `[t_min, t_max]`.
pub open spec fn within(t: Double, t_min: Double, t_max: Double) -> bool {
    t_min@.le(t@) && t@.le(t_max@)
}

/// The smaller root of a pair.
pub open spec fn nearer(roots: Roots) -> Double {
    roots.0.min_spec(roots.1)
}

/// Both roots of a pair lie in `[t_min, t_max]`.
pub open spec fn pair_within(roots: Roots, t_min: Double, t_max: Double) -> bool {
    within(roots.0, t_min, t_max) && within(roots.1, t_min, t_max)
}

/// A sphere counts as met only where both of its roots lie in the range and
/// the smaller one is not infinite. A sphere that the ray enters in range and
/// leaves out of range does not count.
pub open spec fn accepted(roots: Roots, t_min: Double, t_max: Double) -> bool {
    pair_within(roots, t_min, t_max) && nearer(roots)@.lt(Value::Infinity)
}

/// Sphere `k` is the one met first: it is accepted, no accepted sphere has a
/// smaller root in the total order, and none before it has an equal one.
pub open spec fn is_closest(all: Seq<Roots>, t_min: Double, t_max: Double, k: int) -> bool {
    &&& 0 <= k < all.len()
    &&& accepted(all[k], t_min, t_max)
    &&& forall|i: int|
        0 <= i < all.len() && accepted(#[trigger] all[i], t_min, t_max) ==> nearer(
            all[k],
        ).total_key() <= nearer(all[i]).total_key()
    &&& forall|i: int|
        0 <= i < k && accepted(#[trigger] all[i], t_min, t_max) ==> nearer(all[k]).total_key()
            < nearer(all[i]).total_key()
}

/// No number lies in a range whose upper end is below its lower end.
pub proof fn lemma_inverted_range_is_empty(t: Double, t_min: Double, t_max: Double)
    requires
        t_max@.lt(t_min@),
    ensures
        !within(t, t_min, t_max),
{
}

/// A range with an upper end below its lower end accepts no sphere.
pub proof fn lemma_inverted_range_accepts_nothing(roots: Roots, t_min: Double, t_max: Double)
    requires
        t_max@.lt(t_min@),
    ensures
        !pair_within(roots, t_min, t_max),
        !accepted(roots, t_min, t_max),
{
}

/// At most one sphere is the one met first.
pub proof fn lemma_closest_is_unique(
    all: Seq<Roots>,
    t_min: Double,
    t_max: Double,
    j: int,
    k: int,
)
    requires
        is_closest(all, t_min, t_max, j),
        is_closest(all, t_min, t_max, k),
    ensures
        j == k,
{
}

/// The sphere met first is the nearest: no accepted sphere has a root that is
/// numerically smaller.
pub proof fn lemma_closest_is_nearest(
    all: Seq<Roots>,
    t_min: Double,
    t_max: Double,
    k: int,
    i: int,
)
    requires
        is_closest(all, t_min, t_max, k),
        0 <= i < all.len(),
        accepted(all[i], t_min, t_max),
    ensures
        !nearer(all[i])@.lt(nearer(all[k])@),
{
    if nearer(all[i])@.lt(nearer(all[k])@) {
        nearer(all[i]).lemma_total_order_keeps_numeric(nearer(all[k]));
    }
}

/// The roots of a ray and a sphere: a negative discriminant means that the
/// ray misses, and both roots are then positive infinity; otherwise they are
/// the two solutions that the host computed.
pub fn roots_or_miss(discriminant: Double, t1: Double, t2: Double) -> (roots: Roots)
    ensures
        discriminant@.lt(Value::Finite(0)) ==> roots == (Double::infinity(), Double::infinity()),
        !discriminant@.lt(Value::Finite(0)) ==> roots == (t1, t2),
{
    if discriminant.lt(Double::zero()) {
        (Double::infinity(), Double::infinity())
    } else {
        (t1, t2)
    }
}

/// Whether a sphere with these roots counts as met within `[t_min, t_max]`.
pub fn is_accepted(roots: Roots, t_min: Double, t_max: Double) -> (yes: bool)
    ensures
        yes == accepted(roots, t_min, t_max),
{
    let (t1, t2) = roots;
    t1.ge(t_min) && t1.le(t_max) && t2.ge(t_min) && t2.le(t_max) && t1.min(t2).lt(
        Double::infinity(),
    )
}

/// Finds the sphere that a ray meets first within `[t_min, t_max]`.
/// `all[i]` holds the roots of the ray and sphere `i`. Gives the smaller root
/// of the sphere met first and that sphere's index; `None` where no sphere
/// is accepted, as with no sphere at all or with `t_max` below `t_min`.
pub fn closest_intersection(all: &Vec<Roots>, t_min: Double, t_max: Double) -> (hit: Option<
    (Double, usize),
>)
    ensures
        match hit {
            Some((t, k)) => is_closest(all@, t_min, t_max, k as int) && t == nearer(all@[k as int]),
            None => forall|i: int| 0 <= i < all.len() ==> !accepted(#[trigger] all@[i], t_min, t_max),
        },
        hit is None <==> forall|i: int|
            0 <= i < all.len() ==> !accepted(#[trigger] all@[i], t_min, t_max),
        (forall|i: int| 0 <= i < all.len() ==> !pair_within(#[trigger] all@[i], t_min, t_max))
            ==> hit is None,
        all.len() == 0 ==> hit is None,
        t_max@.lt(t_min@) ==> hit is None,
{
    let mut best: Option<(Double, usize)> = None;
    let mut i: usize = 0;
    while i < all.len()
        invariant
            i <= all.len(),
            match best {
                Some((t, k)) => k < i && is_closest(all@.take(i as int), t_min, t_max, k as int)
                    && t == nearer(all@[k as int]),
                None => forall|j: int| 0 <= j < i ==> !accepted(#[trigger] all@[j], t_min, t_max),
            },
        decreases all.len() - i,
    {
        let roots = all[i];
        if is_accepted(roots, t_min, t_max) {
            let t = roots.0.min(roots.1);
            match best {
                None => {
                    best = Some((t, i));
                },
                Some((least, _)) => {
                    if t.total_lt(least) {
                        best = Some((t, i));
                    }
                },
            }
        }
        i += 1;
    }
    assert(all@.take(all.len() as int) =~= all@);
    best
}

} // verus!
