use raytracer::intersection::{key_bits, parameter_key, Intersection, Intersections};

/// The integer that stands for the ray parameter `t`.
fn key(t: f64) -> i64 {
    parameter_key(t.to_bits())
}

#[test]
fn key_orders_as_the_parameter_does() {
    let ts = [-7.5, -1.0, -0.25, 0.0, 0.25, 1.0, 2.0, 7.5];
    for w in ts.windows(2) {
        assert!(key(w[0]) < key(w[1]));
    }
    assert_eq!(key(0.0), 0);
    assert!(key(1e-300) > 0);
    assert!(key(-1e-300) < 0);
}

#[test]
fn key_orders_infinities_and_the_smallest_numbers() {
    let ts = [
        f64::NEG_INFINITY,
        f64::MIN,
        -1.0,
        -f64::MIN_POSITIVE,
        -5e-324,
        0.0,
        5e-324,
        f64::MIN_POSITIVE,
        1.0,
        f64::MAX,
        f64::INFINITY,
    ];
    for w in ts.windows(2) {
        assert!(key(w[0]) < key(w[1]));
    }
    assert_eq!(key(-0.0), -1);
    assert_eq!(key(5e-324), 1);
    assert_eq!(key(1.0), 0x3ff0_0000_0000_0000);
    assert_eq!(key(-5e-324), -2);
    assert_eq!(parameter_key(u64::MAX), i64::MIN);
}

#[test]
fn key_bits_gives_the_parameter_back() {
    for t in [-7.5, -1.0, -0.0, 0.0, 0.25, 4.0, 6.0, f64::INFINITY, f64::NEG_INFINITY] {
        let back = f64::from_bits(key_bits(key(t)));
        assert_eq!(back.to_bits(), t.to_bits());
    }
    assert_eq!(key_bits(0), 0);
    assert_eq!(key_bits(-1), 0x8000_0000_0000_0000);
    assert_eq!(key_bits(i64::MIN), u64::MAX);
    assert_eq!(key_bits(i64::MAX), 0x7fff_ffff_ffff_ffff);
}

#[test]
fn intersection_t_object() {
    let i = Intersection::new(key(3.5), 0);
    assert_eq!(i.t, key(3.5));
    assert_eq!(i.object, 0);
}

#[test]
fn intersection_hit_all_positive() {
    let i1 = Intersection::new(key(1.0), 0);
    let i2 = Intersection::new(key(2.0), 0);
    assert_eq!(Intersections::new(&[i1, i2]).hit(), Some(i1));
}

#[test]
fn intersection_hit_some_negative() {
    let i1 = Intersection::new(key(-1.0), 0);
    let i2 = Intersection::new(key(1.0), 0);
    assert_eq!(Intersections::new(&[i1, i2]).hit(), Some(i2));
}

#[test]
fn intersection_hit_all_negative() {
    let i1 = Intersection::new(key(-2.0), 0);
    let i2 = Intersection::new(key(-1.0), 0);
    assert_eq!(Intersections::new(&[i1, i2]).hit(), None);
}

#[test]
fn intersection_hit_lowest_nonnegative() {
    let i1 = Intersection::new(key(5.0), 0);
    let i2 = Intersection::new(key(7.0), 0);
    let i3 = Intersection::new(key(-3.0), 0);
    let i4 = Intersection::new(key(2.0), 0);
    assert_eq!(Intersections::new(&[i1, i2, i3, i4]).hit(), Some(i4));
}

#[test]
fn crossing_at_the_origin_is_no_hit() {
    let at_origin = Intersection::new(0, 3);
    let ahead = Intersection::new(9, 4);
    assert_eq!(Intersections::new(&[at_origin]).hit(), None);
    assert_eq!(Intersections::new(&[ahead, at_origin]).hit(), Some(ahead));
}

#[test]
fn empty_collection_has_no_crossing_and_no_hit() {
    let xs = Intersections::empty();
    assert_eq!(xs.len(), 0);
    assert_eq!(xs.hit(), None);
    assert!(!xs.hit_before(i64::MAX));
}

#[test]
fn new_puts_the_crossings_in_order() {
    let xs = Intersections::new(&[
        Intersection::new(5, 0),
        Intersection::new(7, 1),
        Intersection::new(-3, 2),
        Intersection::new(2, 3),
    ]);
    assert_eq!(xs.len(), 4);
    assert_eq!(*xs.index(0), Intersection::new(-3, 2));
    assert_eq!(*xs.index(1), Intersection::new(2, 3));
    assert_eq!(*xs.index(2), Intersection::new(5, 0));
    assert_eq!(*xs.index(3), Intersection::new(7, 1));
}

#[test]
fn extend_keeps_the_order_over_several_objects() {
    // Two spheres round one centre, met at 4 and 6, and at 4.5 and 5.5.
    let mut xs = Intersections::empty();
    xs.extend(&[Intersection::new(key(4.0), 0), Intersection::new(key(6.0), 0)]);
    xs.extend(&[Intersection::new(key(4.5), 1), Intersection::new(key(5.5), 1)]);
    assert_eq!(xs.len(), 4);
    assert_eq!(xs.index(0).t, key(4.0));
    assert_eq!(xs.index(1).t, key(4.5));
    assert_eq!(xs.index(2).t, key(5.5));
    assert_eq!(xs.index(3).t, key(6.0));
    let ts: Vec<i64> = xs.borrow().iter().map(|x| x.t).collect();
    assert_eq!(ts, vec![key(4.0), key(4.5), key(5.5), key(6.0)]);
}

#[test]
fn extend_by_nothing_changes_nothing() {
    let mut xs = Intersections::new(&[Intersection::new(3, 0), Intersection::new(1, 0)]);
    xs.extend(&[]);
    assert_eq!(xs.len(), 2);
    assert_eq!(xs.index(0).t, 1);
    assert_eq!(xs.index(1).t, 3);
}

#[test]
fn clear_forgets_every_crossing() {
    let mut xs = Intersections::new(&[Intersection::new(3, 0), Intersection::new(1, 0)]);
    xs.clear();
    assert_eq!(xs.len(), 0);
    assert_eq!(xs.hit(), None);
    xs.extend(&[Intersection::new(8, 2)]);
    assert_eq!(xs.hit(), Some(Intersection::new(8, 2)));
}

#[test]
fn hit_before_tells_what_stands_in_the_way() {
    let xs = Intersections::new(&[
        Intersection::new(-4, 0),
        Intersection::new(6, 0),
        Intersection::new(9, 1),
    ]);
    assert!(xs.hit_before(7));
    assert!(xs.hit_before(10));
    // The nearest crossing ahead is at 6: nothing lies before 6 or nearer.
    assert!(!xs.hit_before(6));
    assert!(!xs.hit_before(1));
    // A crossing behind the origin stands in nobody's way.
    assert!(!Intersections::new(&[Intersection::new(-4, 0)]).hit_before(100));
}

#[test]
fn hit_is_the_same_on_every_call() {
    let xs = Intersections::new(&[Intersection::new(5, 0), Intersection::new(2, 1)]);
    assert_eq!(xs.hit(), xs.hit());
    assert_eq!(xs.hit_before(3), xs.hit_before(3));
}
