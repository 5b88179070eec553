use nps::summary::Score;
use nps::Rating;
use nps::Summary;

fn ratings_of(values: &[u8]) -> Vec<Rating> {
    values.iter().map(|v| Rating::new(*v).unwrap()).collect()
}

fn as_float(score: Score) -> f64 {
    score.numerator as f64 / score.denominator as f64
}

#[test]
fn test_construct() {
    let s = Summary::new(vec![Rating::new(6).unwrap()]);

    assert!(s.detractors() == 1);
    assert!(s.promoters() + s.passive() == 0);
}

#[test]
fn test_empty() {
    let s = Summary::new(vec![]);

    assert!(as_float(s.score()) == 0.0);
}

#[test]
fn test_all_positive() {
    let s = Summary::new(vec![Rating::new(10).unwrap()]);

    assert!(as_float(s.score()) == 1.0);
    assert!(s.promoters() == 1);
    assert!(s.histogram()[10] == 1);
}

#[test]
fn test_all_negative() {
    let s = Summary::new(vec![Rating::new(6).unwrap()]);

    assert!(as_float(s.score()) == -1.0);
    assert!(s.detractors() == 1);
    assert!(s.histogram()[6] == 1);
}

#[test]
fn summary_test_equality() {
    let a = Summary::new(vec![Rating::new(5).unwrap()]);
    let b = a.clone();

    assert!(a == b);
}

#[test]
fn empty_input_gives_zeros() {
    let s = Summary::new(Vec::new());
    assert_eq!(s.promoters(), 0);
    assert_eq!(s.detractors(), 0);
    assert_eq!(s.passive(), 0);
    assert_eq!(s.histogram(), [0u64; 11]);
    assert_eq!(s.score(), Score { numerator: 0, denominator: 1 });
}

#[test]
fn a_lone_passive_scores_zero() {
    let s = Summary::new(ratings_of(&[7]));
    assert_eq!(s.passive(), 1);
    assert_eq!(s.score(), Score { numerator: 0, denominator: 1 });
    assert!(as_float(s.score()) == 0.0);
}

#[test]
fn one_of_each_bucket() {
    let ratings = vec![
        Rating::new(6).unwrap(),
        Rating::with_comment(8, "no feedback").unwrap(),
        Rating::new(10).unwrap(),
    ];
    let s = Summary::new(ratings);

    assert_eq!(s.histogram(), [0, 0, 0, 0, 0, 0, 1, 0, 1, 0, 1]);
    assert_eq!(s.detractors(), 1);
    assert_eq!(s.passive(), 1);
    assert_eq!(s.promoters(), 1);
    assert_eq!(s.score(), Score { numerator: 0, denominator: 3 });
    assert!(as_float(s.score()) == 0.0);
}

#[test]
fn each_value_lands_in_its_bucket() {
    for v in 0..=10u8 {
        let s = Summary::new(ratings_of(&[v]));
        let mut expected = [0u64; 11];
        expected[v as usize] = 1;
        assert_eq!(s.histogram(), expected);
        assert_eq!(s.detractors(), if v <= 6 { 1 } else { 0 });
        assert_eq!(s.passive(), if v == 7 || v == 8 { 1 } else { 0 });
        assert_eq!(s.promoters(), if v >= 9 { 1 } else { 0 });
    }
}

#[test]
fn bucket_boundaries() {
    let s = Summary::new(ratings_of(&[0, 6, 7, 8, 9, 10]));
    assert_eq!(s.detractors(), 2);
    assert_eq!(s.passive(), 2);
    assert_eq!(s.promoters(), 2);
    assert_eq!(s.histogram(), [1, 0, 0, 0, 0, 0, 1, 1, 1, 1, 1]);
}

#[test]
fn buckets_add_up_to_the_number_of_ratings() {
    let values = [0u8, 1, 2, 3, 4, 5, 6, 7, 8, 9, 10, 10, 9, 3, 3, 7, 0, 10];
    let s = Summary::new(ratings_of(&values));
    assert_eq!(s.promoters() + s.detractors() + s.passive(), values.len() as u64);
    assert_eq!(s.promoters(), 5);
    assert_eq!(s.detractors(), 10);
    assert_eq!(s.passive(), 3);
}

#[test]
fn histogram_counts_each_value() {
    let values = [0u8, 1, 2, 3, 4, 5, 6, 7, 8, 9, 10, 10, 9, 3, 3, 7, 0, 10];
    let s = Summary::new(ratings_of(&values));
    let h = s.histogram();
    for v in 0..=10u8 {
        let expected = values.iter().filter(|x| **x == v).count() as u64;
        assert_eq!(h[v as usize], expected);
    }
    assert_eq!(h, [2, 1, 1, 3, 1, 1, 1, 2, 1, 2, 3]);
    assert_eq!(h.iter().sum::<u64>(), values.len() as u64);
}

#[test]
fn histogram_agrees_with_the_buckets() {
    let s = Summary::new(ratings_of(&[10, 9, 9, 8, 7, 7, 7, 6, 5, 4, 3, 2, 1, 0, 0]));
    let h = s.histogram();
    assert_eq!(s.promoters(), h[9] + h[10]);
    assert_eq!(s.passive(), h[7] + h[8]);
    assert_eq!(s.detractors(), h[0] + h[1] + h[2] + h[3] + h[4] + h[5] + h[6]);
}

#[test]
fn score_is_promoters_less_detractors_over_all() {
    let s = Summary::new(ratings_of(&[10, 10, 6, 7]));
    assert_eq!(s.score(), Score { numerator: 1, denominator: 4 });
    assert!(as_float(s.score()) == 0.25);

    let t = Summary::new(ratings_of(&[9, 0, 1, 2, 8]));
    assert_eq!(t.score(), Score { numerator: -2, denominator: 5 });
    assert!(as_float(t.score()) == -0.4);
}

#[test]
fn score_stays_between_minus_one_and_one() {
    let batches: [&[u8]; 6] = [
        &[10],
        &[0],
        &[7, 8],
        &[10, 9, 0],
        &[0, 1, 2, 3, 4, 5, 6, 7, 8, 9, 10],
        &[9, 9, 9, 9, 6],
    ];
    for values in batches {
        let score = Summary::new(ratings_of(values)).score();
        assert!(score.denominator > 0);
        assert!(score.numerator <= score.denominator as i128);
        assert!(score.numerator >= -(score.denominator as i128));
        let f = as_float(score);
        assert!(-1.0 <= f && f <= 1.0);
    }
}

#[test]
fn many_promoters_still_score_one() {
    let s = Summary::new(ratings_of(&[10u8; 300]));
    assert_eq!(s.promoters(), 300);
    assert_eq!(s.histogram()[10], 300);
    assert_eq!(s.score(), Score { numerator: 300, denominator: 300 });
    assert!(as_float(s.score()) == 1.0);
}

#[test]
fn many_detractors_still_score_minus_one() {
    let s = Summary::new(ratings_of(&[3u8; 1000]));
    assert_eq!(s.detractors(), 1000);
    assert_eq!(s.score(), Score { numerator: -1000, denominator: 1000 });
    assert!(as_float(s.score()) == -1.0);
}

#[test]
fn order_of_the_ratings_does_not_matter() {
    let a = Summary::new(ratings_of(&[0, 10, 7, 9, 3, 8]));
    let b = Summary::new(ratings_of(&[8, 3, 9, 7, 10, 0]));
    assert!(a == b);
    assert_eq!(a.score(), b.score());
}

#[test]
fn comments_do_not_matter_to_the_summary() {
    let bare = Summary::new(vec![Rating::new(9).unwrap(), Rating::new(2).unwrap()]);
    let commented = Summary::new(vec![
        Rating::with_comment(9, "love it").unwrap(),
        Rating::with_comment(2, "meh").unwrap(),
    ]);
    assert!(bare == commented);
}

#[test]
fn summaries_differ_when_a_bucket_differs() {
    let a = Summary::new(ratings_of(&[9]));
    let b = Summary::new(ratings_of(&[7]));
    let c = Summary::new(ratings_of(&[9, 9]));
    assert!(a != b);
    assert!(a != c);
    assert!(b != c);
}

#[test]
fn summaries_differ_when_only_the_histogram_differs() {
    let a = Summary::new(ratings_of(&[9]));
    let b = Summary::new(ratings_of(&[10]));
    assert_eq!(a.promoters(), b.promoters());
    assert_eq!(a.detractors(), b.detractors());
    assert_eq!(a.passive(), b.passive());
    assert!(a != b);

    let c = Summary::new(ratings_of(&[0, 7]));
    let d = Summary::new(ratings_of(&[6, 8]));
    assert!(c != d);
}

#[test]
fn a_copy_of_a_summary_is_equal_to_it() {
    let a = Summary::new(ratings_of(&[1, 5, 8, 10, 10]));
    let b = a;
    let c = a.clone();
    assert!(a == b);
    assert!(a == c);
    assert_eq!(c.histogram(), a.histogram());
    assert_eq!(c.score(), a.score());
}

#[test]
fn a_returned_histogram_is_a_copy() {
    let s = Summary::new(ratings_of(&[4, 4]));
    let mut h = s.histogram();
    h[4] = 99;
    assert_eq!(s.histogram()[4], 2);
}
