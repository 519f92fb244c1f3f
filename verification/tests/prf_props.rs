// Properties of the PRF that need no homomorphic machinery: everything here
// goes through the clear reference evaluation.

use lwr_prf::{derive_matrix, generate_prf_key, prf_clear, vec_mul_vec_clear};

fn fixed_key() -> Vec<u64> {
    vec![1, 2, 3, 4, 5, 6, 7, 4095]
}

#[test]
fn clear_output_is_deterministic() {
    let key = fixed_key();
    let x = vec![1u8, 2, 3];
    let out1 = prf_clear(&x, &key);
    let out2 = prf_clear(&x, &key);
    assert_eq!(out1, out2);
    assert_eq!(out1.len(), 16);
}

#[test]
fn distinct_inputs_give_distinct_outputs() {
    let key = fixed_key();
    let pairs: Vec<(Vec<u8>, Vec<u8>)> = vec![
        (vec![1, 2, 3], vec![1, 2, 4]),
        (vec![0], vec![1]),
        (vec![], vec![0]),
        (vec![255; 32], vec![254; 32]),
    ];
    for (x1, x2) in pairs {
        assert_ne!(prf_clear(&x1, &key), prf_clear(&x2, &key));
    }
}

#[test]
fn distinct_keys_give_distinct_outputs() {
    let k1 = generate_prf_key();
    let k2 = generate_prf_key();
    assert_ne!(k1, k2);
    let x = vec![1u8, 2, 3];
    assert_ne!(prf_clear(&x, &k1), prf_clear(&x, &k2));
}

#[test]
fn empty_input_still_works() {
    let key = fixed_key();
    let out1 = prf_clear(&[], &key);
    let out2 = prf_clear(&[], &key);
    assert_eq!(out1, out2);
    assert_eq!(out1.len(), 16);
}

#[test]
fn prf_key_has_the_right_shape() {
    let key = generate_prf_key();
    assert_eq!(key.len(), 8);
    for &k in &key {
        assert!(k < 4096);
    }
}

#[test]
fn derived_matrix_shape_and_determinism() {
    let m1 = derive_matrix(&[1, 2, 3]);
    let m2 = derive_matrix(&[1, 2, 3]);
    let other = derive_matrix(&[9, 9, 9]);
    assert_eq!(m1, m2);
    assert_ne!(m1, other);
    assert_eq!(m1.len(), 16);
    for row in &m1 {
        assert_eq!(row.len(), 8);
        for &e in row {
            assert!(e < 4096);
        }
    }
}

#[test]
fn clear_inner_product_small_values() {
    let m = vec![1u64, 2, 3];
    let v = vec![4u64, 5, 6];
    assert_eq!(vec_mul_vec_clear(&m, &v), 32);
}

#[test]
fn clear_inner_product_wraps_modulo_q() {
    let m = vec![4095u64, 4095];
    let v = vec![4095u64, 4095];
    // 2 * 4095^2 = 33538050 = 8188 * 4096 + 2
    assert_eq!(vec_mul_vec_clear(&m, &v), 2);
}

#[test]
fn clear_output_bytes_follow_the_rounding_formula() {
    let key = fixed_key();
    let x = vec![7u8, 7, 7];
    let m = derive_matrix(&x);
    let out = prf_clear(&x, &key);
    for (r, row) in m.iter().enumerate() {
        let inner = vec_mul_vec_clear(row, &key);
        let expected = ((inner / 16) % 256) as u8;
        assert_eq!(out[r], expected);
    }
}

#[test]
fn matrix_product_matches_per_row_products() {
    let key = fixed_key();
    let m = derive_matrix(&[42]);
    let v = lwr_prf::mat_mul_vec_clear(&m, &key);
    assert_eq!(v.len(), 16);
    for (r, row) in m.iter().enumerate() {
        assert_eq!(v[r], vec_mul_vec_clear(row, &key));
        assert!(v[r] < 4096);
    }
}
