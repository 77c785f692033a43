use commit_leaf::leaf_hash::{Bhp, BhpSize, LeafHash, Poseidon, PoseidonRate};
use commit_leaf::mode::Mode;
use snarkvm_circuit_network::AleoV0;
use snarkvm_circuit_types::environment::{Eject, Environment, FromBits, Inject, Mode as CircuitMode};
use snarkvm_circuit_types::{Boolean, Field};
use snarkvm_console_network::prelude::ToBits as NativeToBits;
use snarkvm_console_network::{MainnetV0, Network};

const BHP1024: Bhp = Bhp { size: BhpSize::Bhp1024 };
const POSEIDON4: Poseidon = Poseidon { rate: PoseidonRate::Poseidon4 };

const ITERATIONS: u64 = 10;

struct Rng(u64);

impl Rng {
    fn bit(&mut self) -> bool {
        self.0 = self.0.wrapping_mul(6364136223846793005).wrapping_add(1442695040888963407);
        (self.0 >> 33) & 1 == 1
    }

    fn bits(&mut self, n: usize) -> Vec<bool> {
        (0..n).map(|_| self.bit()).collect()
    }
}

fn native_field(bits: &[bool]) -> <Field<AleoV0> as Eject>::Primitive {
    let booleans: Vec<Boolean<AleoV0>> = Inject::new(CircuitMode::Constant, bits.to_vec());
    Field::from_bits_le(&booleans).eject_value()
}

fn counts() -> (u64, u64, u64, u64) {
    (AleoV0::num_constants(), AleoV0::num_public(), AleoV0::num_private(), AleoV0::num_constraints())
}

fn delta(before: (u64, u64, u64, u64)) -> (u64, u64, u64, u64) {
    let after = counts();
    (after.0 - before.0, after.1 - before.1, after.2 - before.2, after.3 - before.3)
}

/// Hashes random leaves of 1024 bits; checks each against the native hash and returns the
/// circuit counts of each iteration.
fn check_bhp1024(mode: Mode) -> Vec<(u64, u64, u64, u64)> {
    let mut rng = Rng(1024);
    let mut all = Vec::new();
    for _ in 0..ITERATIONS {
        let input = rng.bits(1024);
        let mut prefixed = vec![false];
        prefixed.extend_from_slice(&input);
        let expected = MainnetV0::hash_bhp1024(&prefixed).unwrap().to_bits_le();
        let leaf: Vec<(bool, Mode)> = input.iter().map(|b| (*b, mode)).collect();
        let before = counts();
        let (candidate, candidate_mode) = BHP1024.hash(&leaf);
        all.push(delta(before));
        assert_eq!(expected, candidate);
        assert_eq!(candidate_mode, if mode == Mode::Constant { Mode::Constant } else { Mode::Private });
    }
    all
}

/// Hashes random leaves of four field elements; checks each against the native hash and
/// returns the circuit counts of each iteration.
fn check_poseidon4(mode: Mode) -> Vec<(u64, u64, u64, u64)> {
    let mut rng = Rng(4);
    let mut all = Vec::new();
    for _ in 0..ITERATIONS {
        // Field elements in their 253-bit form (the top bit clear, so below the modulus).
        let input: Vec<Vec<bool>> = (0..4).map(|_| { let mut e = rng.bits(252); e.push(false); e }).collect();
        let mut prefixed = vec![native_field(&[])];
        prefixed.extend(input.iter().map(|e| native_field(e)));
        let expected = MainnetV0::hash_psd4(&prefixed).unwrap().to_bits_le();
        let leaf: Vec<(Vec<bool>, Mode)> = input.iter().map(|e| (e.clone(), mode)).collect();
        let before = counts();
        let (candidate, candidate_mode) = POSEIDON4.hash(&leaf);
        all.push(delta(before));
        assert_eq!(expected, candidate);
        assert_eq!(candidate_mode, if mode == Mode::Constant { Mode::Constant } else { Mode::Private });
    }
    all
}

// The declared counts are (constants, public variables, private variables, constraints) that
// one leaf hash adds to the circuit, injection of the leaf and decomposition of the result
// into bits included. The first iteration is left out: the first use of a hasher also sets
// up its own constants.

/// The public variables, private variables and constraints are the same in every iteration.
fn assert_stable(all: &[(u64, u64, u64, u64)]) {
    assert!(all.iter().all(|c| (c.1, c.2, c.3) == (all[0].1, all[0].2, all[0].3)), "{all:?}");
}

#[test]
fn test_hash_bhp1024_constant() {
    let all = check_bhp1024(Mode::Constant);
    assert_stable(&all);
    assert_eq!(all[1..].to_vec(), vec![(3069, 0, 0, 0); 9]);
}

#[test]
fn test_hash_bhp1024_public() {
    let all = check_bhp1024(Mode::Public);
    assert_stable(&all);
    assert_eq!(all[1..].to_vec(), vec![(414, 1024, 2249, 3275); 9]);
}

#[test]
fn test_hash_bhp1024_private() {
    let all = check_bhp1024(Mode::Private);
    assert_stable(&all);
    assert_eq!(all[1..].to_vec(), vec![(414, 0, 3273, 3275); 9]);
}

#[test]
fn test_hash_poseidon4_constant() {
    let all = check_poseidon4(Mode::Constant);
    assert_stable(&all);
    assert_eq!(all[1..].to_vec(), vec![(1266, 0, 0, 0); 9]);
}

#[test]
fn test_hash_poseidon4_public() {
    let all = check_poseidon4(Mode::Public);
    assert_stable(&all);
    assert_eq!(all[1..].to_vec(), vec![(1, 1012, 2213, 3231); 9]);
}

#[test]
fn test_hash_poseidon4_private() {
    let all = check_poseidon4(Mode::Private);
    assert_stable(&all);
    assert_eq!(all[1..].to_vec(), vec![(1, 0, 3225, 3231); 9]);
}
