use cipher_relay::constants::{BASE, PRIME};
use cipher_relay::utils::mod_exp;

fn slow_mod_exp(base: u64, exponent: u64, modulus: u64) -> u64 {
    let mut result = 1 % modulus;
    for _ in 0..exponent {
        result = result * (base % modulus) % modulus;
    }
    result
}

#[test]
fn mod_exp_small() {
    assert_eq!(mod_exp(7, 3, 23), 21);
    assert_eq!(mod_exp(7, 5, 23), 17);
    assert_eq!(mod_exp(2, 10, 1000), 24);
    assert_eq!(mod_exp(3, 4, 5), 1);
}

#[test]
fn mod_exp_edges() {
    assert_eq!(mod_exp(5, 0, 7), 1);
    assert_eq!(mod_exp(0, 0, 7), 1);
    assert_eq!(mod_exp(0, 5, 7), 0);
    assert_eq!(mod_exp(5, 1, 7), 5);
    assert_eq!(mod_exp(12, 1, 7), 5);
    assert_eq!(mod_exp(5, 0, 1), 0);
    assert_eq!(mod_exp(5, 3, 1), 0);
    assert_eq!(mod_exp(65535, 65535, 1), 0);
}

#[test]
fn mod_exp_agrees_with_repeated_multiplication() {
    for base in [0u16, 1, 2, 7, 22, 23, 255, 256, 4097, 65535] {
        for exponent in [0u16, 1, 2, 3, 16, 17, 255, 1000] {
            for modulus in [1u16, 2, 23, 255, 256, 257, 32768, 65521, 65535] {
                assert_eq!(
                    mod_exp(base, exponent, modulus) as u64,
                    slow_mod_exp(base as u64, exponent as u64, modulus as u64)
                );
            }
        }
    }
}

#[test]
fn mod_exp_serves_every_16_bit_modulus() {
    assert_eq!(mod_exp(65534, 2, 65535), 1);
    assert_eq!(mod_exp(65520, 2, 65521), 1);
    assert_eq!(mod_exp(65520, 65535, 65521), 65520);
    assert_eq!(mod_exp(2, 65535, 65535) as u64, slow_mod_exp(2, 65535, 65535));
}

#[test]
fn shared_secret_commutes() {
    for p in [2u16, 3, 5, 7, 11, 23, 101, 65521] {
        for g in [2u16, 3, 5, 7] {
            for a in 1..p.min(30) {
                for b in 1..p.min(30) {
                    assert_eq!(mod_exp(mod_exp(g, a, p), b, p), mod_exp(mod_exp(g, b, p), a, p));
                }
            }
        }
    }
}

#[test]
fn key_exchange_scenario() {
    assert_eq!(BASE, 7);
    assert_eq!(PRIME, 23);
    let a_private = 3;
    let b_private = 5;
    let a_public = mod_exp(BASE, a_private, PRIME);
    let b_public = mod_exp(BASE, b_private, PRIME);
    assert_eq!(a_public, 21);
    assert_eq!(b_public, 17);
    let a_secret = mod_exp(b_public, a_private, PRIME);
    let b_secret = mod_exp(a_public, b_private, PRIME);
    assert_eq!(a_secret, b_secret);
    assert_eq!(a_secret, 14);
}
