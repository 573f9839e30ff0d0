use similarity::catalog::{init_test_similarity_engine, Item, Key, Similarity, SimilarityError};
use similarity::ranking::{RankedResult, DEFAULT_TOP_K};
use similarity::score::Score;

fn item(id: i32, rating: Vec<i32>) -> Item {
    Item {
        rating,
        title: format!("item {}", id),
        description: String::from("test item"),
        id,
    }
}

fn catalog(items: Vec<Item>) -> Similarity {
    let mut c = Similarity::new();
    for it in items {
        c.create_item(it);
    }
    c
}

fn value(s: &Score) -> f64 {
    if s.norm_sq_1 == 0 || s.norm_sq_2 == 0 {
        return 0.0;
    }
    s.dot as f64 / ((s.norm_sq_1 as f64).sqrt() * (s.norm_sq_2 as f64).sqrt())
}

fn ids(r: &[RankedResult]) -> Vec<i32> {
    r.iter().map(|e| e.id).collect()
}

#[test]
fn dot_product_commutes() {
    let c = Similarity::new();
    let a = item(1, vec![3, -4, 7]);
    let b = item(2, vec![-2, 5, 1]);
    assert_eq!(c.dot_product(&a, &b), Ok(-6 - 20 + 7));
    assert_eq!(c.dot_product(&a, &b), c.dot_product(&b, &a));
}

#[test]
fn dot_product_length_mismatch() {
    let c = Similarity::new();
    let a = item(1, vec![1, 2, 3]);
    let b = item(2, vec![1, 2]);
    assert_eq!(
        c.dot_product(&a, &b),
        Err(SimilarityError::LengthMismatch { expected: 3, found: 2 })
    );
}

#[test]
fn dot_product_of_extreme_values_is_exact() {
    let c = Similarity::new();
    let a = item(1, vec![i32::MIN, i32::MIN]);
    let expected = 2 * (i32::MIN as i128) * (i32::MIN as i128);
    assert_eq!(c.dot_product(&a, &a), Ok(expected));
    assert_eq!(c.magnitude_squared(&a), expected as u128);
}

#[test]
fn magnitude_is_zero_only_for_zero_vectors() {
    let c = Similarity::new();
    assert_eq!(c.magnitude_squared(&item(1, vec![])), 0);
    assert_eq!(c.magnitude_squared(&item(2, vec![0, 0, 0])), 0);
    assert_eq!(c.magnitude_squared(&item(3, vec![0, -3, 4])), 25);
    assert!(((c.magnitude_squared(&item(4, vec![3, 4])) as f64).sqrt() - 5.0).abs() < 1e-12);
}

#[test]
fn self_similarity_is_one() {
    let c = Similarity::new();
    let a = item(1, vec![2, -9, 5]);
    let s = c.cosine_similarity(&a, &a).unwrap();
    assert_eq!(s.dot as u128, s.norm_sq_1);
    assert!((value(&s) - 1.0).abs() < 1e-12);
}

#[test]
fn zero_vector_similarity_is_zero() {
    let c = Similarity::new();
    let z = item(1, vec![0, 0]);
    let a = item(2, vec![3, 5]);
    let s = c.cosine_similarity(&z, &a).unwrap();
    assert_eq!(value(&s), 0.0);
    let s = c.cosine_similarity(&a, &z).unwrap();
    assert_eq!(value(&s), 0.0);
    let s = c.cosine_similarity(&z, &z).unwrap();
    assert_eq!(value(&s), 0.0);
}

#[test]
fn cosine_similarity_length_mismatch() {
    let c = Similarity::new();
    let a = item(1, vec![1, 2]);
    let b = item(2, vec![1, 2, 3]);
    assert!(matches!(
        c.cosine_similarity(&a, &b),
        Err(SimilarityError::LengthMismatch { expected: 2, found: 3 })
    ));
}

#[test]
fn cosine_similarity_worked_example() {
    let c = catalog(vec![item(1, vec![10, 4]), item(2, vec![10, 7]), item(5, vec![2, 9])]);
    let s = c.cosine_similarity(&c.items[2], &c.items[0]).unwrap();
    assert_eq!(s.dot, 56);
    assert_eq!(s.norm_sq_1, 85);
    assert_eq!(s.norm_sq_2, 116);
    assert!((value(&s) - 0.5635).abs() < 1e-3);
}

#[test]
fn score_comparison_is_exact() {
    let half = Score { dot: 1, norm_sq_1: 2, norm_sq_2: 2 };
    let other_half = Score { dot: 2, norm_sq_1: 4, norm_sq_2: 4 };
    let negative = Score { dot: -3, norm_sq_1: 9, norm_sq_2: 2 };
    let zero = Score { dot: 5, norm_sq_1: 0, norm_sq_2: 7 };
    assert_eq!(half.compare(&other_half), 0);
    assert_eq!(half.compare(&zero), 1);
    assert_eq!(negative.compare(&zero), -1);
    assert!(zero.is_at_least(&negative));
    assert!(!negative.is_at_least(&half));
}

#[test]
fn query_not_found() {
    let c = catalog(vec![item(1, vec![10, 4]), item(2, vec![10, 7]), item(5, vec![2, 9])]);
    assert!(matches!(c.get_similar(999), Err(SimilarityError::NotFound { id: 999 })));
    let empty = Similarity::new();
    assert!(matches!(empty.get_similar(1), Err(SimilarityError::NotFound { id: 1 })));
}

#[test]
fn query_with_mismatched_candidate_fails() {
    let c = catalog(vec![item(1, vec![10, 4]), item(2, vec![10, 7, 1]), item(3, vec![1])]);
    assert!(matches!(
        c.get_similar(1),
        Err(SimilarityError::LengthMismatch { expected: 2, found: 3 })
    ));
}

#[test]
fn three_items_give_two_results() {
    let c = catalog(vec![item(1, vec![10, 4]), item(2, vec![10, 7]), item(5, vec![2, 9])]);
    let r = c.get_top_k(5, 5).unwrap();
    assert_eq!(ids(&r), vec![2, 1]);
    assert!(value(&r[0].similarity) >= value(&r[1].similarity));
    assert_eq!(r[1].title, "item 1");
    assert_eq!(r[1].index, 0);
}

#[test]
fn demo_catalog_top_five() {
    let engine = init_test_similarity_engine();
    assert_eq!(engine.keys.len(), 2);
    assert_eq!(engine.items.len(), 10);
    assert!(engine.norms_in_range());
    let r = engine.get_similar(5).unwrap();
    assert_eq!(r.len(), DEFAULT_TOP_K);
    assert_eq!(ids(&r), vec![8, 4, 10, 3, 6]);
    assert_eq!(r[0].title, "Die Hard");
    assert!((value(&r[0].similarity) - 0.99735).abs() < 1e-4);
    for w in r.windows(2) {
        assert!(w[0].similarity.is_at_least(&w[1].similarity));
        assert!(value(&w[0].similarity) >= value(&w[1].similarity));
    }
    assert!(r.iter().all(|e| e.id != 5));
}

#[test]
fn demo_catalog_full_ranking() {
    let engine = init_test_similarity_engine();
    let r = engine.get_top_k(5, 100).unwrap();
    assert_eq!(ids(&r), vec![8, 4, 10, 3, 6, 2, 1, 7, 9]);
    assert_eq!(engine.get_top_k(5, 0).unwrap().len(), 0);
    assert_eq!(ids(&engine.get_top_k(5, 2).unwrap()), vec![8, 4]);
}

#[test]
fn duplicate_query_ids_are_all_excluded() {
    let c = catalog(vec![item(1, vec![1, 0]), item(2, vec![1, 1]), item(1, vec![0, 1])]);
    let r = c.get_similar(1).unwrap();
    assert_eq!(ids(&r), vec![2]);
}

#[test]
fn norms_out_of_range_are_detected() {
    let c = catalog(vec![item(1, vec![50000, 1])]);
    assert!(!c.norms_in_range());
    let c = catalog(vec![item(1, vec![46340, 0])]);
    assert!(c.norms_in_range());
}

#[test]
fn keys_are_kept() {
    let mut c = Similarity::new();
    c.create_key(Key { title: String::from("Comedy"), weight: 3 });
    c.create_item(item(1, vec![1]));
    assert_eq!(c.keys.len(), 1);
    assert_eq!(c.keys[0].weight, 3);
    assert_eq!(c.items.len(), 1);
}
