//! Crossings of a ray with the objects of a scene, kept in the order in which
//! the ray meets them.

use vstd::prelude::*;
use vstd::multiset::Multiset;
use vstd::relations::{sorted_by, total_ordering};
use vstd::seq_lib::*;

verus! {

/// The first of the bit patterns with the sign bit set.
pub const SIGN_BIT: u64 = 0x8000_0000_0000_0000;

/// A ray parameter is a floating-point number of 64 bits: a sign bit, then
/// the bits of the magnitude, where a greater number has greater magnitude
/// bits. This is the number's place on a scale of integers on which the
/// numbers stand in their order: the magnitude bits with the sign in front.
/// Minus zero and zero share a place.
pub open spec fn signed_magnitude(bits: u64) -> int {
    if bits < SIGN_BIT {
        bits as int
    } else {
        -((bits - SIGN_BIT) as int)
    }
}

/// The integer that stands for the ray parameter with the bit pattern
/// `bits`: its signed magnitude, moved down by one where the sign bit is set,
/// so that every bit pattern has an integer of its own.
pub open spec fn key_of_bits(bits: u64) -> int {
    if bits < SIGN_BIT {
        bits as int
    } else {
        -((bits - SIGN_BIT) as int) - 1
    }
}

/// The integer that stands for the ray parameter with the bit pattern `bits`.
pub fn parameter_key(bits: u64) -> (key: i64)
    ensures
        key == key_of_bits(bits),
{
    if bits < SIGN_BIT {
        bits as i64
    } else {
        -((bits - SIGN_BIT) as i64) - 1
    }
}

/// The bit pattern of the ray parameter that `key` stands for.
pub fn key_bits(key: i64) -> (bits: u64)
    ensures
        key_of_bits(bits) == key,
        bits == if key >= 0 {
            key as int
        } else {
            SIGN_BIT - key - 1
        },
{
    if key >= 0 {
        key as u64
    } else {
        (-(key + 1)) as u64 + SIGN_BIT
    }
}

/// The keys stand in the order of the parameters: a smaller parameter has a
/// smaller key, and a key is above zero exactly where the parameter is. Two
/// bit patterns have the same key only if they are the same.
pub proof fn lemma_keys_order_as_parameters(a: u64, b: u64)
    ensures
        signed_magnitude(a) < signed_magnitude(b) ==> key_of_bits(a) < key_of_bits(b),
        key_of_bits(a) < key_of_bits(b) ==> signed_magnitude(a) <= signed_magnitude(b),
        key_of_bits(a) > 0 <==> signed_magnitude(a) > 0,
        key_of_bits(a) == key_of_bits(b) ==> a == b,
{
}

/// One crossing of a ray with an object.
///
/// `t` stands for the ray parameter of the crossing. It is an integer that
/// orders as the parameter does, such as `parameter_key` gives: a smaller
/// `t` is a crossing met earlier, and `t > 0` exactly where the crossing lies
/// ahead of the ray's origin. `object` is the position of the object in the
/// scene's list of objects.
#[derive(Clone, Copy, Debug, PartialEq, Eq, Structural)]
pub struct Intersection {
    pub t: i64,
    pub object: usize,
}

impl Intersection {
    pub fn new(t: i64, object: usize) -> (i: Self)
        ensures
            i.t == t,
            i.object == object,
    {
        Intersection { t, object }
    }
}

/// No crossing stands before one that the ray meets earlier.
pub open spec fn sorted_by_t(s: Seq<Intersection>) -> bool {
    forall|i: int, j: int| 0 <= i <= j < s.len() ==> s[i].t <= s[j].t
}

/// `k` is the place of the first crossing in `s` that lies ahead of the ray's
/// origin.
pub open spec fn is_first_ahead(s: Seq<Intersection>, k: int) -> bool {
    &&& 0 <= k < s.len()
    &&& s[k].t > 0
    &&& forall|j: int| 0 <= j < k ==> s[j].t <= 0
}

/// Crossings in the order in which the ray meets them.
#[derive(Clone, Debug)]
pub struct Intersections(Vec<Intersection>);

impl View for Intersections {
    type V = Seq<Intersection>;

    closed spec fn view(&self) -> Seq<Intersection> {
        self.0@
    }
}

/// Puts `x` into the ordered `v`, behind the crossings that are not later
/// than it.
fn insert_ordered(v: &mut Vec<Intersection>, x: Intersection)
    requires
        sorted_by_t(old(v)@),
    ensures
        sorted_by_t(final(v)@),
        final(v)@.to_multiset() == old(v)@.to_multiset().insert(x),
{
    let mut k: usize = v.len();
    while k > 0 && v[k - 1].t > x.t
        invariant
            k <= v.len(),
            v@ == old(v)@,
            forall|j: int| k <= j < v.len() ==> v@[j].t > x.t,
        decreases k,
    {
        k = k - 1;
    }
    v.insert(k, x);
    proof {
        let before = old(v)@;
        let after = v@;
        assert(after == before.insert(k as int, x));
        assert(after.remove(k as int) =~= before);
        to_multiset_remove(after, k as int);
        assert(after[k as int] == x);
        after.to_multiset_ensures();
        assert(after.contains(x));
        assert(after.to_multiset() =~= before.to_multiset().insert(x));
        assert(sorted_by_t(after)) by {
            assert forall|i: int, j: int| 0 <= i <= j < after.len() implies after[i].t
                <= after[j].t by {
                if i < k && j > k {
                    assert(before[i].t <= before[j - 1].t);
                } else if i < k && j < k {
                    assert(before[i].t <= before[j].t);
                } else if i > k {
                    assert(before[i - 1].t <= before[j - 1].t);
                }
            }
        }
    }
}

impl Intersections {
    /// The crossings stand in the order in which the ray meets them. Every
    /// function that makes or changes a collection sees to this.
    pub open spec fn well_formed(&self) -> bool {
        sorted_by_t(self@)
    }

    /// A collection without crossings.
    pub fn empty() -> (xs: Self)
        ensures
            xs.well_formed(),
            xs@ == Seq::<Intersection>::empty(),
    {
        Intersections(Vec::new())
    }

    /// The crossings of `xs`, put in order.
    pub fn new(xs: &[Intersection]) -> (sorted: Self)
        ensures
            sorted.well_formed(),
            sorted@.to_multiset() == xs@.to_multiset(),
    {
        let mut all = Intersections::empty();
        all.extend(xs);
        proof {
            assert(Seq::<Intersection>::empty().to_multiset() =~= Multiset::<
                Intersection,
            >::empty()) by {
                Seq::<Intersection>::empty().to_multiset_ensures();
            }
            assert(all@.to_multiset() =~= xs@.to_multiset());
        }
        all
    }

    /// Takes in the crossings of `items` and keeps the order.
    pub fn extend(&mut self, items: &[Intersection])
        requires
            old(self).well_formed(),
        ensures
            final(self).well_formed(),
            final(self)@.to_multiset() == old(self)@.to_multiset().add(items@.to_multiset()),
    {
        proof {
            assert(items@.subrange(0, 0) =~= Seq::<Intersection>::empty());
            Seq::<Intersection>::empty().to_multiset_ensures();
            assert(old(self)@.to_multiset().add(Seq::<Intersection>::empty().to_multiset())
                =~= old(self)@.to_multiset());
        }
        let mut n: usize = 0;
        while n < items.len()
            invariant
                n <= items.len(),
                sorted_by_t(self.0@),
                self.0@.to_multiset() == old(self)@.to_multiset().add(
                    items@.subrange(0, n as int).to_multiset(),
                ),
            decreases items.len() - n,
        {
            let x = items[n];
            insert_ordered(&mut self.0, x);
            proof {
                let done = items@.subrange(0, n as int);
                assert(items@.subrange(0, n + 1) =~= done.push(x));
                to_multiset_build(done, x);
                assert(self.0@.to_multiset() =~= old(self)@.to_multiset().add(
                    done.push(x).to_multiset(),
                ));
            }
            n = n + 1;
        }
        proof {
            assert(items@.subrange(0, n as int) =~= items@);
        }
    }

    /// The number of crossings.
    pub fn len(&self) -> (n: usize)
        ensures
            n == self@.len(),
    {
        self.0.len()
    }

    /// The crossing at place `i`, counted from the earliest.
    pub fn index(&self, i: usize) -> (x: &Intersection)
        requires
            i < self@.len(),
        ensures
            *x == self@[i as int],
    {
        &self.0[i]
    }

    /// The crossings as a vector, earliest first.
    pub fn borrow(&self) -> (v: &Vec<Intersection>)
        ensures
            v@ == self@,
    {
        &self.0
    }

    /// The first crossing ahead of the ray's origin, which is the visible one:
    /// of all crossings with `t > 0`, the earliest. A crossing at `t == 0` is
    /// not ahead.
    pub fn hit(&self) -> (h: Option<Intersection>)
        requires
            self.well_formed(),
        ensures
            match h {
                Some(x) => {
                    &&& exists|k: int| is_first_ahead(self@, k) && self@[k] == x
                    &&& forall|i: int| 0 <= i < self@.len() && self@[i].t > 0 ==> x.t <= self@[i].t
                },
                None => forall|i: int| 0 <= i < self@.len() ==> self@[i].t <= 0,
            },
    {
        let mut k: usize = 0;
        while k < self.0.len()
            invariant
                k <= self.0.len(),
                sorted_by_t(self.0@),
                forall|j: int| 0 <= j < k ==> self.0@[j].t <= 0,
            decreases self.0.len() - k,
        {
            if self.0[k].t > 0 {
                assert(is_first_ahead(self@, k as int));
                return Some(self.0[k]);
            }
            k = k + 1;
        }
        None
    }

    /// Whether some crossing lies ahead of the ray's origin and before
    /// `distance`: whether something stands between the origin and what lies
    /// at `distance` on the ray.
    pub fn hit_before(&self, distance: i64) -> (blocked: bool)
        requires
            self.well_formed(),
        ensures
            blocked == exists|i: int| 0 <= i < self@.len() && 0 < #[trigger] self@[i].t < distance,
    {
        match self.hit() {
            Some(x) => {
                let ghost k = choose|k: int| is_first_ahead(self@, k) && self@[k] == x;
                assert(0 < self@[k].t);
                x.t < distance
            },
            None => false,
        }
    }

    /// Forgets every crossing.
    pub fn clear(&mut self)
        ensures
            final(self).well_formed(),
            final(self)@ == Seq::<Intersection>::empty(),
    {
        self.0.clear();
    }
}

/// The ray parameters of the crossings of `s`, place by place.
pub open spec fn parameters(s: Seq<Intersection>) -> Seq<int> {
    s.map_values(|x: Intersection| x.t as int)
}

proof fn lemma_same_crossings_same_parameters(a: Seq<Intersection>, b: Seq<Intersection>)
    requires
        a.to_multiset() == b.to_multiset(),
    ensures
        parameters(a).to_multiset() == parameters(b).to_multiset(),
    decreases a.len(),
{
    a.to_multiset_ensures();
    b.to_multiset_ensures();
    if a.len() == 0 {
        assert(parameters(a) =~= parameters(b));
    } else {
        let x = a.last();
        let shorter_a = a.drop_last();
        assert(a =~= shorter_a.push(x));
        to_multiset_build(shorter_a, x);
        assert(b.to_multiset().count(x) > 0);
        assert(b.contains(x));
        let j = choose|j: int| 0 <= j < b.len() && b[j] == x;
        let shorter_b = b.remove(j);
        to_multiset_remove(b, j);
        assert(shorter_a.to_multiset() =~= shorter_b.to_multiset());
        lemma_same_crossings_same_parameters(shorter_a, shorter_b);
        assert(parameters(a) =~= parameters(shorter_a).push(x.t as int));
        to_multiset_build(parameters(shorter_a), x.t as int);
        assert(parameters(b).remove(j) =~= parameters(shorter_b));
        to_multiset_remove(parameters(b), j);
        assert(parameters(b)[j] == x.t as int);
        parameters(b).to_multiset_ensures();
        assert(parameters(b).contains(x.t as int));
        assert(parameters(b).to_multiset() =~= parameters(shorter_b).to_multiset().insert(
            x.t as int,
        ));
    }
}

/// The order in which crossings are put into a collection does not show in
/// it: two ordered collections of the same crossings list the same ray
/// parameters, place by place. They may differ only in the order of two
/// objects that are met at the same parameter.
pub proof fn lemma_order_of_insertion_does_not_matter(a: Seq<Intersection>, b: Seq<Intersection>)
    requires
        sorted_by_t(a),
        sorted_by_t(b),
        a.to_multiset() == b.to_multiset(),
    ensures
        a.len() == b.len(),
        forall|i: int| 0 <= i < a.len() ==> a[i].t == b[i].t,
{
    lemma_same_crossings_same_parameters(a, b);
    let leq = |x: int, y: int| x <= y;
    assert(total_ordering(leq));
    assert(sorted_by(parameters(a), leq)) by {
        assert forall|i: int, j: int| 0 <= i < j < parameters(a).len() implies #[trigger] leq(
            parameters(a)[i],
            parameters(a)[j],
        ) by {
            assert(a[i].t <= a[j].t);
        }
    }
    assert(sorted_by(parameters(b), leq)) by {
        assert forall|i: int, j: int| 0 <= i < j < parameters(b).len() implies #[trigger] leq(
            parameters(b)[i],
            parameters(b)[j],
        ) by {
            assert(b[i].t <= b[j].t);
        }
    }
    lemma_sorted_unique(parameters(a), parameters(b), leq);
    assert(a.len() == parameters(a).len());
    assert(b.len() == parameters(b).len());
    assert forall|i: int| 0 <= i < a.len() implies a[i].t == b[i].t by {
        assert(parameters(a)[i] == a[i].t);
        assert(parameters(b)[i] == b[i].t);
    }
}

/// The visible crossing is determined by the collection: whenever it is asked
/// for, it is found at the same place.
pub proof fn lemma_first_ahead_is_determined(s: Seq<Intersection>, k1: int, k2: int)
    requires
        is_first_ahead(s, k1),
        is_first_ahead(s, k2),
    ensures
        k1 == k2,
{
    if k1 < k2 {
        assert(s[k1].t <= 0);
    } else if k2 < k1 {
        assert(s[k2].t <= 0);
    }
}

/// The first crossing ahead of the origin is the nearest one ahead: in an
/// ordered collection no crossing with `t > 0` is earlier than it.
pub proof fn lemma_first_ahead_is_nearest(s: Seq<Intersection>, k: int)
    requires
        sorted_by_t(s),
        is_first_ahead(s, k),
    ensures
        forall|i: int| 0 <= i < s.len() && s[i].t > 0 ==> s[k].t <= s[i].t,
{
}

} // verus!
