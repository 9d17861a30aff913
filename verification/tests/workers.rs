use pdf_images::workers::boost_applies;
use pdf_images::workers::get_main_workers_limit;
use pdf_images::workers::get_sub_workers_limit;
use pdf_images::workers::main_limit_for;
use pdf_images::workers::sub_candidate_for;
use pdf_images::workers::sub_limit_for;
use pdf_images::workers::Percent;
use pdf_images::workers::HIGHEST_BOOST;
use pdf_images::workers::PAGE_BOOST;
use pdf_images::workers::ZERO_PERCENT;

fn percent(value: f32) -> Percent {
    Percent { bits: value.to_bits() }
}

#[test]
fn test_get_main_workers_limit() {
    let main_workers_limit = get_main_workers_limit();
    assert!(main_workers_limit > 0);
}

#[test]
fn test_get_sub_workers_limit() {
    let usage = Some(percent(35.5));

    let sub_worker_limit_pm0p1 = get_sub_workers_limit(percent(-0.1), usage);
    assert!(sub_worker_limit_pm0p1 > 0);

    let sub_worker_limit_p0 = get_sub_workers_limit(percent(0.0), usage);
    assert!(sub_worker_limit_p0 > 0);

    let sub_worker_limit_p60 = get_sub_workers_limit(percent(60.0), usage);
    assert!(sub_worker_limit_p60 > 0);

    let sub_worker_limit_p60p1 = get_sub_workers_limit(percent(60.1), usage);
    assert!(sub_worker_limit_p60p1 > 0);

    assert_eq!(sub_worker_limit_pm0p1, sub_worker_limit_p60p1);

    assert!(sub_worker_limit_p0 <= sub_worker_limit_p60);

    assert!(sub_worker_limit_p60 >= sub_worker_limit_pm0p1);
}

#[test]
fn nine_cores_give_two_main_and_three_sub_workers() {
    assert_eq!(main_limit_for(9), 2);
    assert_eq!(sub_candidate_for(9), 3);
    let idle = Some(percent(0.0));
    assert_eq!(sub_limit_for(9, percent(-0.1), idle), 3);
    assert_eq!(sub_limit_for(9, percent(60.1), idle), 3);
    assert_eq!(sub_limit_for(9, percent(-0.1), idle), sub_limit_for(9, percent(60.1), idle));
    assert_eq!(sub_limit_for(9, percent(-0.1), None), 3);
}

#[test]
fn boost_doubles_when_the_load_is_below_it() {
    assert_eq!(sub_limit_for(9, percent(50.0), Some(percent(10.0))), 6);
    assert_eq!(sub_limit_for(9, percent(50.0), Some(percent(49.999))), 6);
    assert_eq!(sub_limit_for(9, percent(50.0), Some(percent(50.0))), 3);
    assert_eq!(sub_limit_for(9, percent(50.0), Some(percent(80.0))), 3);
    assert_eq!(sub_limit_for(9, percent(60.0), Some(percent(59.0))), 6);
    assert_eq!(sub_limit_for(9, percent(0.0), Some(percent(0.0))), 3);
    assert_eq!(sub_limit_for(9, percent(50.0), None), 3);
    assert_eq!(sub_limit_for(9, percent(50.0), Some(percent(f32::NAN))), 3);
    assert_eq!(sub_limit_for(9, percent(f32::NAN), Some(percent(1.0))), 3);
}

#[test]
fn main_limit_is_a_quarter_of_the_other_cores() {
    let expected = [1usize, 1, 1, 1, 1, 1, 1, 1, 1, 2, 2, 2, 2, 3, 3, 3, 3, 4];
    for (cores, limit) in expected.iter().enumerate() {
        assert_eq!(main_limit_for(cores), *limit, "cores = {}", cores);
    }
    assert_eq!(main_limit_for(64), 15);
    assert_eq!(main_limit_for(usize::MAX), (usize::MAX - 1) / 4);
}

#[test]
fn sub_candidate_shares_what_the_main_pool_leaves() {
    let expected = [1usize, 1, 1, 2, 3, 4, 5, 6, 7, 3, 4, 4, 5, 3, 3, 4, 4, 3];
    for (cores, limit) in expected.iter().enumerate() {
        assert_eq!(sub_candidate_for(cores), *limit, "cores = {}", cores);
    }
    assert_eq!(sub_candidate_for(64), 3);
    for cores in 0..2000usize {
        let limit = sub_candidate_for(cores);
        assert!(1 <= limit && limit <= 7);
    }
    assert!(sub_candidate_for(usize::MAX) <= 7);
}

#[test]
fn boost_is_taken_from_zero_to_sixty() {
    assert!(boost_applies(percent(0.0)));
    assert!(boost_applies(percent(-0.0)));
    assert!(boost_applies(percent(50.0)));
    assert!(boost_applies(percent(60.0)));
    assert!(!boost_applies(percent(-0.1)));
    assert!(!boost_applies(percent(60.1)));
    assert!(!boost_applies(percent(f32::NAN)));
    assert!(!boost_applies(percent(f32::INFINITY)));
    assert!(!boost_applies(percent(f32::NEG_INFINITY)));
    assert!(!boost_applies(percent(-f32::MIN_POSITIVE)));
    assert!(boost_applies(percent(f32::MIN_POSITIVE)));
}

#[test]
fn patterns_of_the_named_percentages() {
    assert_eq!(0.0f32.to_bits(), ZERO_PERCENT);
    assert_eq!(60.0f32.to_bits(), HIGHEST_BOOST);
    assert_eq!(50.0f32.to_bits(), PAGE_BOOST);
}

#[test]
fn order_of_readings_is_the_order_of_the_numbers() {
    let values = [
        f32::NEG_INFINITY,
        f32::MIN,
        -1.0e10,
        -60.1,
        -1.5,
        -1.0,
        -0.1,
        -f32::MIN_POSITIVE,
        -1.0e-45,
        -0.0,
        0.0,
        1.0e-45,
        f32::MIN_POSITIVE,
        0.1,
        0.5,
        1.0,
        1.5,
        49.999,
        50.0,
        59.999996,
        60.0,
        60.000004,
        60.1,
        100.0,
        1.0e10,
        f32::MAX,
        f32::INFINITY,
        f32::NAN,
        -f32::NAN,
    ];
    for a in values {
        for b in values {
            assert_eq!(percent(a).below(percent(b)), a < b, "{} < {}", a, b);
        }
        assert_eq!(percent(a).is_number(), !a.is_nan());
        assert_eq!(boost_applies(percent(a)), (0.0..=60.0).contains(&a), "{}", a);
    }
}

#[test]
fn order_of_readings_on_many_patterns() {
    let mut a: u32 = 0x0000_0001;
    for _ in 0..400 {
        a = a.wrapping_mul(1_664_525).wrapping_add(1_013_904_223);
        let mut b: u32 = a ^ 0x5a5a_5a5a;
        for _ in 0..50 {
            b = b.wrapping_mul(22_695_477).wrapping_add(1);
            let left = f32::from_bits(a);
            let right = f32::from_bits(b);
            assert_eq!(Percent { bits: a }.below(Percent { bits: b }), left < right);
        }
    }
}
