use running_moments::count::SampleCount;

#[test]
fn new_counter_is_empty() {
    let c = SampleCount::new();
    assert!(c.is_empty());
    assert_eq!(c.len(), 0);
}

#[test]
fn is_empty_exactly_when_len_is_zero() {
    let mut c = SampleCount::new();
    assert_eq!(c.is_empty(), c.len() == 0);
    c.increment();
    assert_eq!(c.is_empty(), c.len() == 0);
    assert!(!c.is_empty());
    for _ in 0..5 {
        c.increment();
        assert_eq!(c.is_empty(), c.len() == 0);
    }
}

#[test]
fn increment_counts_one_observation() {
    let mut c = SampleCount::new();
    c.increment();
    assert_eq!(c.len(), 1);
    c.increment();
    assert_eq!(c.len(), 2);
    c.increment();
    assert_eq!(c.len(), 3);
}

/// The counter that holds `2^63 - 1`, reached by merging the powers of two below
/// `2^63`, together with the counter that holds `2^63`.
fn just_below_and_at_two_to_the_63() -> (SampleCount, SampleCount) {
    let mut power = SampleCount::new();
    power.increment();
    let mut below = SampleCount::new();
    for _ in 0..63 {
        below.merge(&power);
        let copy = power;
        power.merge(&copy);
    }
    (below, power)
}

#[test]
fn merge_reaches_the_largest_count() {
    let (mut below, power) = just_below_and_at_two_to_the_63();
    assert_eq!(power.len(), 1u64 << 63);
    assert_eq!(below.len(), (1u64 << 63) - 1);
    below.merge(&power);
    assert_eq!(below.len(), u64::MAX);
    assert_eq!(below.sample_variance_divisor(), Some(u64::MAX - 1));
}

#[test]
fn increment_reaches_the_largest_count() {
    let (mut c, _) = just_below_and_at_two_to_the_63();
    let copy = c;
    c.merge(&copy);
    assert_eq!(c.len(), u64::MAX - 1);
    c.increment();
    assert_eq!(c.len(), u64::MAX);
}

#[test]
fn merge_adds_the_counts() {
    let mut a = SampleCount::new();
    let mut b = SampleCount::new();
    for _ in 0..4 {
        a.increment();
    }
    for _ in 0..3 {
        b.increment();
    }
    a.merge(&b);
    assert_eq!(a.len(), 7);
    assert_eq!(b.len(), 3);
}

#[test]
fn merge_with_itself_doubles_the_count() {
    let mut a = SampleCount::new();
    for _ in 0..3 {
        a.increment();
    }
    let same = a;
    a.merge(&same);
    assert_eq!(a.len(), 6);
    assert_eq!(same.len(), 3);
}

#[test]
fn merge_with_empty_changes_nothing() {
    let mut a = SampleCount::new();
    a.increment();
    a.increment();
    let empty = SampleCount::new();
    a.merge(&empty);
    assert_eq!(a.len(), 2);
    let mut e = SampleCount::new();
    e.merge(&a);
    assert_eq!(e.len(), 2);
    assert_eq!(a.len(), 2);
}

#[test]
fn merge_of_two_empty_counters_is_empty() {
    let mut a = SampleCount::new();
    let b = SampleCount::new();
    a.merge(&b);
    assert!(a.is_empty());
    assert_eq!(a.len(), 0);
}

#[test]
fn merge_is_associative_on_counts() {
    let make = |k: u64| {
        let mut c = SampleCount::new();
        for _ in 0..k {
            c.increment();
        }
        c
    };
    let (a, b, c) = (make(2), make(5), make(11));
    let mut left = a;
    left.merge(&b);
    left.merge(&c);
    let mut bc = b;
    bc.merge(&c);
    let mut right = a;
    right.merge(&bc);
    assert_eq!(left.len(), 18);
    assert_eq!(right.len(), 18);
}

#[test]
fn non_empty_counter_never_becomes_empty() {
    let mut a = SampleCount::new();
    a.increment();
    let empty = SampleCount::new();
    a.merge(&empty);
    assert!(!a.is_empty());
    a.increment();
    assert!(!a.is_empty());
    a.merge(&a.clone());
    assert!(!a.is_empty());
}

#[test]
fn sample_variance_divisor_undefined_below_two() {
    let mut c = SampleCount::new();
    assert_eq!(c.sample_variance_divisor(), None);
    c.increment();
    assert_eq!(c.sample_variance_divisor(), None);
}

#[test]
fn sample_variance_divisor_is_one_less_than_count() {
    let mut c = SampleCount::new();
    c.increment();
    c.increment();
    assert_eq!(c.sample_variance_divisor(), Some(1));
    c.increment();
    assert_eq!(c.sample_variance_divisor(), Some(2));
}

#[test]
fn population_variance_divisor_undefined_when_empty() {
    let c = SampleCount::new();
    assert_eq!(c.population_variance_divisor(), None);
}

#[test]
fn population_variance_divisor_is_the_count() {
    let mut c = SampleCount::new();
    c.increment();
    assert_eq!(c.population_variance_divisor(), Some(1));
    c.increment();
    assert_eq!(c.population_variance_divisor(), Some(2));
}

#[test]
fn eight_observations_one_at_a_time() {
    // Counts behind the worked example 2, 4, 4, 4, 5, 5, 7, 9: the population
    // variance divides by 8, the sample variance by 7.
    let mut c = SampleCount::new();
    for _ in [2, 4, 4, 4, 5, 5, 7, 9] {
        c.increment();
    }
    assert_eq!(c.len(), 8);
    assert_eq!(c.population_variance_divisor(), Some(8));
    assert_eq!(c.sample_variance_divisor(), Some(7));
}

#[test]
fn eight_observations_in_two_halves() {
    let mut first = SampleCount::new();
    for _ in [2, 4, 4, 4] {
        first.increment();
    }
    let mut second = SampleCount::new();
    for _ in [5, 5, 7, 9] {
        second.increment();
    }
    first.merge(&second);
    assert_eq!(first.len(), 8);
    assert_eq!(first.population_variance_divisor(), Some(8));
    assert_eq!(first.sample_variance_divisor(), Some(7));
    assert_eq!(second.len(), 4);
}

#[test]
fn counter_is_copied_by_value() {
    let mut a = SampleCount::new();
    a.increment();
    let b = a;
    a.increment();
    assert_eq!(a.len(), 2);
    assert_eq!(b.len(), 1);
}
