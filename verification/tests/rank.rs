use biowclib_mz::{reading_rank, reading_ranks};

fn rank(x: f64) -> u64 {
    reading_rank(x.to_bits())
}

#[test]
fn ranks_order_readings_as_the_readings_order() {
    let readings = [
        f64::NEG_INFINITY,
        f64::MIN,
        -1.0e10,
        -2.5,
        -1.0,
        -f64::MIN_POSITIVE,
        -5.0e-324,
        0.0,
        5.0e-324,
        f64::MIN_POSITIVE,
        0.1,
        0.30000000000000004,
        1.0,
        1.0000000000000002,
        9.0,
        15.0,
        1.0e10,
        f64::MAX,
        f64::INFINITY,
    ];
    for (i, a) in readings.iter().enumerate() {
        for (j, b) in readings.iter().enumerate() {
            assert_eq!(rank(*a) < rank(*b), i < j);
            assert_eq!(rank(*a) == rank(*b), i == j);
        }
    }
}

#[test]
fn ranks_have_their_exact_values() {
    assert_eq!(rank(0.0), 0x8000_0000_0000_0000);
    assert_eq!(rank(1.0), 0xBFF0_0000_0000_0000);
    assert_eq!(rank(-1.0), 0x4010_0000_0000_0000);
    assert_eq!(rank(f64::INFINITY), 0xFFF0_0000_0000_0000);
    assert_eq!(rank(f64::NEG_INFINITY), 0x0010_0000_0000_0000);
    assert_eq!(reading_rank(1), 0x8000_0000_0000_0001);
    assert_eq!(reading_rank(0x8000_0000_0000_0001), 0x7FFF_FFFF_FFFF_FFFF);
}

#[test]
fn the_two_zeros_rank_the_same() {
    assert_eq!(rank(0.0), rank(-0.0));
    assert!(rank(-5.0e-324) < rank(-0.0));
    assert!(rank(0.0) < rank(5.0e-324));
}

#[test]
fn what_is_no_number_ranks_lowest() {
    assert_eq!(rank(f64::NAN), 0);
    assert_eq!(rank(-f64::NAN), 0);
    assert_eq!(reading_rank(0x7FF0_0000_0000_0001), 0);
    assert_eq!(reading_rank(0xFFF0_0000_0000_0001), 0);
    assert_eq!(reading_rank(u64::MAX), 0);
    assert_eq!(reading_rank(0x7FFF_FFFF_FFFF_FFFF), 0);
    assert!(rank(f64::NAN) < rank(f64::NEG_INFINITY));
}

#[test]
fn each_reading_of_a_spectrum_is_ranked() {
    let bits: Vec<u64> = [3.5f64, f64::NAN, -0.0, 2.0]
        .iter()
        .map(|x| x.to_bits())
        .collect();
    assert_eq!(
        reading_ranks(&bits),
        vec![rank(3.5), 0, 0x8000_0000_0000_0000, rank(2.0)]
    );
    assert_eq!(reading_ranks(&vec![]), vec![]);
}
