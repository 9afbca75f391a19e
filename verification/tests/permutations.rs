use byteperm::{
    AffinePermutation, FeistelPermutation, MultiplicativePermutation, Permutation,
    PermutationError, ShiftPermutation, XorPermutation,
};

/// A fixed run of values that covers the corners and then scatters.
fn samples() -> Vec<u64> {
    let mut values = vec![
        0,
        1,
        2,
        41,
        42,
        43,
        0xffff_ffff,
        0x1_0000_0000,
        0x7fff_ffff_ffff_ffff,
        0x8000_0000_0000_0000,
        std::u64::MAX - 1,
        std::u64::MAX,
    ];
    let mut state: u64 = 0x2545_f491_4f6c_dd1d;
    for _ in 0..500 {
        state = state
            .wrapping_mul(6364136223846793005)
            .wrapping_add(1442695040888963407);
        values.push(state);
    }
    values
}

fn assert_round_trips<P: Permutation>(perm: &P, name: &str) {
    for input in samples() {
        let output = perm.apply(input);
        assert_eq!(perm.unapply(output), input, "{} not invertible on {}", name, input);
        let back = perm.unapply(input);
        assert_eq!(perm.apply(back), input, "{} does not reach {}", name, input);
    }
}

#[test]
fn shift_invertible() {
    for amount in samples() {
        assert_round_trips(&ShiftPermutation::new(amount), &format!("shift({})", amount));
    }
}

#[test]
fn xor_invertible() {
    for key in samples() {
        assert_round_trips(&XorPermutation::new(key), &format!("xor({})", key));
    }
}

#[test]
fn multiply_invertible() {
    for key in samples() {
        let scalar = key.wrapping_mul(2).wrapping_add(1);
        let perm = MultiplicativePermutation::new(scalar).unwrap();
        assert_round_trips(&perm, &format!("mult({})", scalar));
    }
}

#[test]
fn affineinvertible() {
    for key in samples() {
        let scalar = key.wrapping_mul(2).wrapping_add(1);
        let offset = key.wrapping_mul(42).wrapping_add(19);
        let perm = AffinePermutation::new(scalar, offset).unwrap();
        assert_round_trips(&perm, &format!("affine({}, {})", scalar, offset));
    }
}

#[test]
fn feistel_invertible() {
    for key in samples() {
        assert_round_trips(&FeistelPermutation::new(key), &format!("feistel({})", key));
    }
}

#[test]
fn shift_wrap() {
    let amount = std::u64::MAX;
    let perm = ShiftPermutation::new(amount);
    let input = 42;
    assert_eq!(
        perm.unapply(perm.apply(input)),
        input,
        "shift({}) not invertible on {}",
        amount,
        input
    );
}

#[test]
fn shift_by_the_largest_amount_subtracts_one() {
    let perm = ShiftPermutation::new(std::u64::MAX);
    assert_eq!(perm.apply(42), 41);
    assert_eq!(perm.apply(0), std::u64::MAX);
    assert_eq!(perm.unapply(41), 42);
    assert_eq!(perm.unapply(std::u64::MAX), 0);
}

#[test]
fn shift_values() {
    let perm = ShiftPermutation::new(12345);
    assert_eq!(perm.apply(42), 12387);
    assert_eq!(perm.unapply(12387), 42);
    assert_eq!(perm.apply(std::u64::MAX), 12344);
    assert_eq!(perm.unapply(0), std::u64::MAX - 12344);
}

#[test]
fn shift_sequence() {
    // Adjacent inputs produce adjacent outputs.
    let perm = ShiftPermutation::new(12345);
    assert_eq!(perm.apply(42) + 1, perm.apply(43),);
}

#[test]
fn shift_keeps_neighbours_everywhere() {
    for amount in [0, 1, 12345, std::u64::MAX] {
        let perm = ShiftPermutation::new(amount);
        for input in samples() {
            assert_eq!(
                perm.apply(input).wrapping_add(1),
                perm.apply(input.wrapping_add(1))
            );
        }
    }
}

#[test]
fn shift_by_zero_is_identity() {
    let perm = ShiftPermutation::new(0);
    for input in samples() {
        assert_eq!(perm.apply(input), input);
        assert_eq!(perm.unapply(input), input);
    }
}

#[test]
fn xor_values() {
    let perm = XorPermutation::new(123_456_789);
    assert_eq!(perm.apply(42), 123_456_831);
    assert_eq!(perm.unapply(123_456_831), 42);
    assert_eq!(perm.apply(0), 123_456_789);
    assert_eq!(perm.apply(123_456_789), 0);
}

#[test]
fn xor_sequence() {
    // Inputs that differ by a single bit produce outputs that differ by a single bit.
    let perm = XorPermutation::new(123_456_789);
    assert_eq!(perm.apply(42), perm.apply(43) ^ 1,);
}

#[test]
fn xor_keeps_bit_positions_everywhere() {
    let perm = XorPermutation::new(0xdead_beef);
    for input in samples() {
        assert_eq!(perm.apply(input), perm.apply(input ^ 1) ^ 1);
        for bit in 0..64 {
            let mask = 1u64 << bit;
            assert_eq!(perm.apply(input ^ mask), perm.apply(input) ^ mask);
        }
    }
}

#[test]
fn xor_is_its_own_inverse() {
    let perm = XorPermutation::new(0xdead_beef);
    for input in samples() {
        assert_eq!(perm.apply(input), perm.unapply(input));
    }
}

#[test]
fn mul_zero() {
    // It always maps 0 to 0, and 1 to the key.
    let perm = MultiplicativePermutation::new(123_456_789).unwrap();
    assert_eq!(perm.apply(0), 0);
    assert_eq!(perm.apply(1), 123_456_789);
}

#[test]
fn mul_values() {
    let perm = MultiplicativePermutation::new(123_456_789).unwrap();
    assert_eq!(perm.apply(42), 5_185_185_138);
    assert_eq!(perm.unapply(5_185_185_138), 42);
    // 2^63 * odd wraps to 2^63
    assert_eq!(perm.apply(0x8000_0000_0000_0000), 0x8000_0000_0000_0000);
    // the inverse of 123456789 is 16969517551553616445
    assert_eq!(perm.unapply(1), 16969517551553616445);
    let three = MultiplicativePermutation::new(3).unwrap();
    assert_eq!(three.apply(std::u64::MAX), std::u64::MAX - 2);
    assert_eq!(three.unapply(3), 1);
    assert_eq!(three.unapply(1), 12297829382473034411);
}

#[test]
fn mul_by_one_is_identity() {
    let perm = MultiplicativePermutation::new(1).unwrap();
    for input in samples() {
        assert_eq!(perm.apply(input), input);
        assert_eq!(perm.unapply(input), input);
    }
}

#[test]
fn mul_refuses_even_scalars() {
    assert!(matches!(
        MultiplicativePermutation::new(0),
        Err(PermutationError::InvalidScalar)
    ));
    assert!(matches!(
        MultiplicativePermutation::new(2),
        Err(PermutationError::InvalidScalar)
    ));
    assert!(matches!(
        MultiplicativePermutation::new(123_456_788),
        Err(PermutationError::InvalidScalar)
    ));
    assert!(matches!(
        MultiplicativePermutation::new(std::u64::MAX - 1),
        Err(PermutationError::InvalidScalar)
    ));
    assert!(MultiplicativePermutation::new(std::u64::MAX).is_ok());
}

#[test]
fn affine_zero() {
    // It doesn't do weird things at zero or one.
    let perm = AffinePermutation::new(123_456_789, 417).unwrap();
    assert_eq!(perm.apply(0), 417);
    assert_eq!(perm.apply(1), 123_456_789 + 417);
}

#[test]
fn affine_values() {
    let perm = AffinePermutation::new(123_456_789, 417).unwrap();
    assert_eq!(perm.apply(42), 5_185_185_555);
    assert_eq!(perm.unapply(5_185_185_555), 42);
    assert_eq!(perm.unapply(417), 0);
    assert_eq!(perm.unapply(123_457_206), 1);
    // below the offset the subtraction wraps
    assert_eq!(perm.apply(perm.unapply(5)), 5);
    let wrap = AffinePermutation::new(std::u64::MAX, std::u64::MAX).unwrap();
    assert_eq!(wrap.apply(0), std::u64::MAX);
    assert_eq!(wrap.apply(1), std::u64::MAX - 1);
    assert_eq!(wrap.unapply(std::u64::MAX - 1), 1);
}

#[test]
fn affine_sequence() {
    // It still leaks information if you can feed it sequential inputs.
    let scalar = 18446744073709551557;
    let perm = AffinePermutation::new(scalar, 417).unwrap();

    let x1 = perm.apply(42);
    let x2 = perm.apply(43);
    assert_eq!(x2.wrapping_sub(x1), scalar);

    // Once you figure this out, you can predict the next output.
    assert_eq!(perm.apply(44), x2.wrapping_add(scalar));
}

#[test]
fn affine_step_is_the_scalar_everywhere() {
    let scalar: u64 = 0xdead_beef;
    let perm = AffinePermutation::new(scalar, 0xcafe_babe).unwrap();
    for n in samples() {
        let first = perm.apply(n);
        let second = perm.apply(n.wrapping_add(1));
        assert_eq!(second.wrapping_sub(first), scalar);
        assert_eq!(
            perm.apply(n.wrapping_add(2)),
            second.wrapping_add(second.wrapping_sub(first))
        );
    }
}

#[test]
fn affine_is_multiply_then_shift() {
    let affine = AffinePermutation::new(123_456_789, 417).unwrap();
    let multiply = MultiplicativePermutation::new(123_456_789).unwrap();
    let shift = ShiftPermutation::new(417);
    for x in samples() {
        assert_eq!(affine.apply(x), shift.apply(multiply.apply(x)));
        assert_eq!(affine.unapply(x), multiply.unapply(shift.unapply(x)));
    }
}

#[test]
fn affine_refuses_even_scalars() {
    assert!(matches!(
        AffinePermutation::new(0, 417),
        Err(PermutationError::InvalidScalar)
    ));
    assert!(matches!(
        AffinePermutation::new(0xdead_beee, 0xcafe_babe),
        Err(PermutationError::InvalidScalar)
    ));
    assert!(AffinePermutation::new(0xdead_beef, 0xcafe_babe).is_ok());
}

#[test]
fn feistel_values() {
    let perm = FeistelPermutation::new(0xdead_beef);
    let expected: [u64; 8] = [
        5358820872018124919,
        7452164435822903889,
        950262170999838652,
        7001902663628272926,
        15398782428880446320,
        9756182044356679188,
        788068343448921030,
        8696977646595271400,
    ];
    for (input, output) in expected.iter().enumerate() {
        assert_eq!(perm.apply(input as u64), *output);
        assert_eq!(perm.unapply(*output), input as u64);
    }
    assert_eq!(FeistelPermutation::new(0).apply(0), 17390291809515569623);
    let other = FeistelPermutation::new(0x0123_4567_89ab_cdef);
    assert_eq!(other.apply(42), 15979407231985836781);
    assert_eq!(other.unapply(42), 824993436624835792);
}

#[test]
fn feistel_depends_on_the_key() {
    let one = FeistelPermutation::new(1);
    let two = FeistelPermutation::new(2);
    let high = FeistelPermutation::new(1 << 32);
    for input in samples() {
        assert_ne!(one.apply(input), two.apply(input));
        assert_ne!(one.apply(input), high.apply(input));
    }
}

#[test]
fn feistel_scatters_neighbours() {
    // None of what the arithmetic permutations give away holds here.
    let perm = FeistelPermutation::new(0xdead_beef);
    for input in samples() {
        let first = perm.apply(input);
        let second = perm.apply(input.wrapping_add(1));
        let third = perm.apply(input.wrapping_add(2));
        assert_ne!(first.wrapping_add(1), second);
        assert_ne!(third.wrapping_sub(second), second.wrapping_sub(first));
        assert!((perm.apply(input) ^ perm.apply(input ^ 1)).count_ones() > 1);
    }
}

#[test]
fn outputs_are_distinct() {
    let mult = MultiplicativePermutation::new(0xdead_beef).unwrap();
    let affine = AffinePermutation::new(0xdead_beef, 0xcafe_babe).unwrap();
    let feistel = FeistelPermutation::new(0xdead_beef);
    let mut seen_mult = std::collections::HashSet::new();
    let mut seen_affine = std::collections::HashSet::new();
    let mut seen_feistel = std::collections::HashSet::new();
    for input in 0..5000u64 {
        assert!(seen_mult.insert(mult.apply(input)));
        assert!(seen_affine.insert(affine.apply(input)));
        assert!(seen_feistel.insert(feistel.apply(input)));
    }
}
