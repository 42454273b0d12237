use extract_transform_load::server::stats::{
    calculate_median_doubled, calculate_median_index, calculate_quartiles_scaled, QuartilesScaled,
};

#[test]
fn calculate_median_index_odd_test() {
    let xs: Vec<u64> = vec![6, 7, 15, 36, 39, 40, 41, 42, 43, 47, 49];

    let left = calculate_median_index(xs.len(), xs.len() % 2 == 0);
    let right = 5;

    assert_eq!(left.is_err(), false);
    assert_eq!(left.unwrap(), right);
}

#[test]
fn calculate_median_index_even_test() {
    let xs: Vec<u64> = vec![6, 7, 15, 36, 39, 40, 41, 42, 43, 47];

    let left = calculate_median_index(xs.len(), xs.len() % 2 == 0);
    let right = 4;

    assert_eq!(left.is_err(), false);
    assert_eq!(left.unwrap(), right);
}

#[test]
fn calculate_median_index_empty_test() {
    assert_eq!(calculate_median_index(0, true), Err("give non-empty slice"));
}

#[test]
fn calculate_median_doubled_even_test() {
    // the median of this sample is 39.5, so its double is 79
    let xs: Vec<u64> = vec![6, 7, 15, 36, 39, 40, 41, 42, 43, 47];

    assert_eq!(calculate_median_doubled(xs.as_slice()), Ok(79));
}

#[test]
fn calculate_median_doubled_odd_test() {
    // the median of this sample is 40, so its double is 80
    let xs: Vec<u64> = vec![6, 7, 15, 36, 39, 40, 41, 42, 43, 47, 49];

    assert_eq!(calculate_median_doubled(xs.as_slice()), Ok(80));
}

#[test]
fn calculate_median_doubled_empty_test() {
    let xs: Vec<u64> = Vec::new();

    assert_eq!(calculate_median_doubled(xs.as_slice()), Err("give non-empty slice"));
}

#[test]
fn calculate_quartiles_scaled_even_test() {
    // quartiles of the sample: lower fence -25.5, first 15, median
    // 39.5, third 42, upper fence 82.5 -- scaled by four below
    let xs: Vec<u64> = vec![6, 7, 15, 36, 39, 40, 41, 42, 43, 47];

    let left = calculate_quartiles_scaled(xs.as_slice());
    let right = QuartilesScaled {
        lower_fence: -102,
        first: 60,
        median: 158,
        third: 168,
        upper_fence: 330,
    };

    assert_eq!(left, Ok(right));

    // quartiles: lower fence -22.5, first 15, median 37.5, third 40,
    // upper fence 77.5
    let ys: Vec<u64> = vec![7, 15, 36, 39, 40, 41];

    let left = calculate_quartiles_scaled(ys.as_slice());
    let right = QuartilesScaled {
        lower_fence: -90,
        first: 60,
        median: 150,
        third: 160,
        upper_fence: 310,
    };

    assert_eq!(left, Ok(right));
}

#[test]
fn calculate_quartiles_scaled_odd_test() {
    // quartiles of the sample: lower fence -27, first 15, median 40,
    // third 43, upper fence 85 -- scaled by four below
    let xs: Vec<u64> = vec![6, 7, 15, 36, 39, 40, 41, 42, 43, 47, 49];

    let left = calculate_quartiles_scaled(xs.as_slice());
    let right = QuartilesScaled {
        lower_fence: -108,
        first: 60,
        median: 160,
        third: 172,
        upper_fence: 340,
    };

    assert_eq!(left, Ok(right));
}

#[test]
fn calculate_quartiles_scaled_short_test() {
    let xs: Vec<u64> = vec![5];

    assert_eq!(calculate_quartiles_scaled(xs.as_slice()), Err("give non-empty slice"));
}
