// The homomorphic side of the pipeline, run against the real encryption
// scheme: a keypair is generated, the input matrix is encrypted, and the
// first OUT_LEN ciphertexts are decrypted again and checked against the
// clear matrix.

use std::time::Instant;

use lwr_prf::{decrypt, derive_matrix, encode, generate_fhe_keys};

#[test]
fn encrypt_decrypt_roundtrip() {
    let t0 = Instant::now();
    let (ck, sk) = generate_fhe_keys();
    println!("keygen: {:?}", t0.elapsed());
    let _ = sk;

    let x = vec![1u8, 2, 3];
    let t1 = Instant::now();
    let x_enc = encode(&ck, &x);
    println!("encode: {:?}", t1.elapsed());

    let m = derive_matrix(&x);

    // Decrypt the first two encrypted rows: exactly OUT_LEN ciphertexts.
    let mut rows = x_enc.into_iter();
    let mut cts = rows.next().unwrap();
    cts.extend(rows.next().unwrap());
    let t2 = Instant::now();
    let y = decrypt(ck, &cts);
    println!("decrypt: {:?}", t2.elapsed());

    for i in 0..16 {
        let clear = m[i / 8][i % 8];
        assert_eq!(y[i], (clear % 256) as u8);
    }
}
