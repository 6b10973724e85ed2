use d2simrs::simpledv::constants::MAX_HOP_COUNT;
use d2simrs::simpledv::metric::Metric;

fn hops(n: usize) -> Metric {
    let mut m = Metric::new_zero();
    for _ in 0..n {
        m = m + Metric::one_hop();
    }
    m
}

#[test]
fn infinity_plus_one_hop_is_infinity() {
    assert_eq!(Metric::infinity() + Metric::one_hop(), Metric::infinity());
    assert_eq!(Metric::one_hop() + Metric::infinity(), Metric::infinity());
    assert_eq!(Metric::infinity() + Metric::infinity(), Metric::infinity());
    assert_eq!(Metric::infinity() + Metric::new_zero(), Metric::infinity());
}

#[test]
fn last_finite_hop_count_plus_one_is_infinity() {
    let last = hops(MAX_HOP_COUNT - 1);
    assert_eq!(last.hop_count(), 14);
    assert!(!last.is_infinity());
    assert_eq!(last + Metric::one_hop(), Metric::infinity());
    assert_eq!((last + last).hop_count(), MAX_HOP_COUNT);
}

#[test]
fn sums_below_the_ceiling_are_exact() {
    assert_eq!((hops(3) + hops(4)).hop_count(), 7);
    assert_eq!((Metric::new_zero() + Metric::one_hop()).hop_count(), 1);
    assert_eq!((hops(7) + hops(7)).hop_count(), 14);
    assert_eq!((hops(7) + hops(8)).hop_count(), 15);
    assert!((hops(7) + hops(8)).is_infinity());
}

#[test]
fn default_is_infinity_and_metrics_are_ordered() {
    assert_eq!(Metric::default(), Metric::infinity());
    assert!(Metric::default().is_infinity());
    assert_eq!(Metric::infinity().hop_count(), MAX_HOP_COUNT);
    assert!(hops(2).is_less(&hops(3)));
    assert!(!hops(3).is_less(&hops(3)));
    assert!(hops(14).is_less(&Metric::infinity()));
    assert!(hops(2) < hops(3));
    assert_eq!(hops(40), Metric::infinity());
}
