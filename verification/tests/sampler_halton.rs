use pt::primes::prime;
use pt::sampler_halton::{
    radicalInverse, shuffle_blocks_with, ExtendedGCD, InverseRadicalInverse, MultiplicativeInverse,
    RadicalInverse, Shuffle,
};

/// Largest `f32` below one.
const ONE_MINUS_EPSILON: f32 = 1. - f32::EPSILON;

/// The radical inverse as a floating-point number in `[0, 1)`.
fn to_float((n, d): (u32, u32)) -> f32 {
    ONE_MINUS_EPSILON.min(n as f32 / d as f32)
}

#[test]
fn TestRadicalInverse() {
    assert_eq!(to_float(radicalInverse(10, 0)), 0.0);
    assert_eq!(to_float(radicalInverse(10, 1)), 0.1);
    assert_eq!(to_float(radicalInverse(10, 1234)), 0.4321);
    assert_eq!(radicalInverse(10, 0), (0, 1));
    assert_eq!(radicalInverse(10, 1), (1, 10));
    assert_eq!(radicalInverse(10, 1234), (4321, 10000));
}

#[test]
#[should_panic]
fn TestShuffleInvalidStart() {
    let a: &mut [usize] = &mut [0; 32];
    Shuffle(a, 2, 8, 4);
}

#[test]
fn TestExtendedGCD() {
    assert_eq!(ExtendedGCD(2, 0), (1, 0));
    assert_eq!(ExtendedGCD(2, 4), (1, 0));
    assert_eq!(ExtendedGCD(4, 6), (-1, 1));
    assert_eq!(ExtendedGCD(8, 6), (1, -1));
    assert_eq!(ExtendedGCD(8, 6), (1, -1));
    assert_eq!(ExtendedGCD(77, 14), (1, -5));
}

#[test]
fn extended_gcd_negative_arguments() {
    // Rust's division rounds toward zero, which the coefficients follow.
    assert_eq!(ExtendedGCD(-4, 6), (1, 1));
    assert_eq!(ExtendedGCD(4, -6), (1, 1));
    let (x, y) = ExtendedGCD(-35, 21);
    assert_eq!((x * -35 + y * 21).abs(), 7);
}

#[test]
fn extended_gcd_bezout_identity() {
    for a in 0..40i64 {
        for b in 0..40i64 {
            let (x, y) = ExtendedGCD(a, b);
            let mut g = a;
            let mut h = b;
            while h != 0 {
                let t = g % h;
                g = h;
                h = t;
            }
            assert_eq!(x * a + y * b, g);
        }
    }
}

#[test]
fn multiplicative_inverse_values() {
    // 3 * 5 = 15 = 2 * 7 + 1
    assert_eq!(MultiplicativeInverse(3, 7), 2);
    assert_eq!(MultiplicativeInverse(2, 3), 1);
    assert_eq!(MultiplicativeInverse(5, 7), 3);
    assert_eq!((5 * 3) % 7, 1);
    // The magnitude of a negative remainder gives -1 modulo n.
    assert_eq!((3 * 2) % 7, 6);
}

#[test]
fn radical_inverse_in_base_two() {
    assert_eq!(radicalInverse(2, 1), (1, 2));
    assert_eq!(radicalInverse(2, 2), (1, 4));
    assert_eq!(radicalInverse(2, 3), (3, 4));
    assert_eq!(radicalInverse(2, 6), (3, 8));
    assert_eq!(to_float(radicalInverse(2, 6)), 0.375);
}

#[test]
fn radical_inverse_by_prime_index() {
    assert_eq!(prime(0), 2);
    assert_eq!(prime(1), 3);
    assert_eq!(prime(999), 7919);
    assert_eq!(prime(1023), 8161);
    assert_eq!(RadicalInverse(0, 6), (3, 8));
    assert_eq!(RadicalInverse(1, 5), (7, 9));
    assert_eq!(RadicalInverse(1023, 8162), (8161 + 1, 8161 * 8161));
}

#[test]
fn inverse_radical_inverse_values() {
    assert_eq!(InverseRadicalInverse(10, 4321, 4), 1234);
    assert_eq!(InverseRadicalInverse(10, 1, 2), 10);
    assert_eq!(InverseRadicalInverse(2, 0b011, 3), 0b110);
    assert_eq!(InverseRadicalInverse(3, 5, 0), 0);
}

#[test]
fn inverse_radical_inverse_undoes_radical_inverse() {
    for base in 2..12u32 {
        for a in 0..500u32 {
            let (n, _) = radicalInverse(base, a);
            let mut digits = 0;
            let mut t = a;
            while t > 0 {
                t /= base;
                digits += 1;
            }
            assert_eq!(InverseRadicalInverse(base, n, digits), a as usize);
        }
    }
}

#[test]
fn shuffle_moves_whole_blocks() {
    let mut s: Vec<usize> = (0..32).collect();
    Shuffle(&mut s, 8, 4, 4);
    // Outside the shuffled range nothing moves.
    assert_eq!(&s[0..8], &(0..8).collect::<Vec<usize>>()[..]);
    assert_eq!(&s[24..32], &(24..32).collect::<Vec<usize>>()[..]);
    // Each block of four is one of the blocks it started as, kept in one piece.
    let mut firsts = Vec::new();
    for k in 0..4 {
        let b = &s[8 + 4 * k..12 + 4 * k];
        assert_eq!(b[0] % 4, 0);
        assert_eq!(b, &[b[0], b[0] + 1, b[0] + 2, b[0] + 3]);
        firsts.push(b[0]);
    }
    firsts.sort();
    assert_eq!(firsts, vec![8, 12, 16, 20]);
}

#[test]
fn shuffle_single_elements_is_a_permutation() {
    let mut s: Vec<usize> = (0..10).collect();
    Shuffle(&mut s, 0, 10, 1);
    let mut sorted = s.clone();
    sorted.sort();
    assert_eq!(sorted, (0..10).collect::<Vec<usize>>());
    let mut e: Vec<usize> = vec![5, 6];
    Shuffle(&mut e, 0, 0, 1);
    assert_eq!(e, vec![5, 6]);
}

#[test]
fn extended_gcd_at_the_edge_of_i64() {
    assert_eq!(ExtendedGCD(i64::MIN, 1), (0, 1));
    assert_eq!(ExtendedGCD(i64::MIN, 0), (1, 0));
}

#[test]
fn inverse_radical_inverse_undoes_itself() {
    assert_eq!(InverseRadicalInverse(2, 1, 3), 4);
    assert_eq!(InverseRadicalInverse(2, 4, 3), 1);
    assert_eq!(InverseRadicalInverse(3, 5, 2), 7);
    assert_eq!(InverseRadicalInverse(3, 7, 2), 5);
    for base in 2..6u32 {
        for n in 0..5u32 {
            let limit = base.pow(n);
            for a in 0..limit {
                let r = InverseRadicalInverse(base, a, n);
                assert!(r < limit as usize);
                assert_eq!(InverseRadicalInverse(base, r as u32, n), a as usize);
            }
        }
    }
}

#[test]
fn shuffle_with_given_draws() {
    // Blocks of two starting at index 2: step 0 exchanges blocks 0 and 2,
    // step 1 keeps block 1, step 2 keeps block 2.
    let mut s: Vec<usize> = (0..10).collect();
    shuffle_blocks_with(&mut s, 2, 3, 2, &vec![2, 1, 2]);
    assert_eq!(s, vec![0, 1, 6, 7, 4, 5, 2, 3, 8, 9]);
    // Single elements: 0 <-> 1, then 1 <-> 2.
    let mut t: Vec<usize> = vec![10, 20, 30];
    shuffle_blocks_with(&mut t, 0, 3, 1, &vec![1, 2, 2]);
    assert_eq!(t, vec![20, 30, 10]);
}
