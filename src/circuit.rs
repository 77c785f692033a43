use crate::field::{field_ok, scalar_ok};
use crate::mode::{witness_mode, Mode};
use snarkvm_circuit_network::{Aleo, AleoV0};
use snarkvm_circuit_types::environment::{Eject, FromBits, Inject, Mode as CircuitMode, ToBits};
use snarkvm_circuit_types::{Boolean, Field, Scalar};
use vstd::prelude::*;

verus! {

/// The values of a sequence of moded bits.
pub open spec fn bit_values(s: Seq<(bool, Mode)>) -> Seq<bool> {
    s.map_values(|p: (bool, Mode)| p.0)
}

/// The values of a sequence of moded field elements, each given by its little-endian bits.
pub open spec fn field_values(s: Seq<(Vec<bool>, Mode)>) -> Seq<Seq<bool>> {
    s.map_values(|p: (Vec<bool>, Mode)| p.0@)
}

/// The modes of a sequence of moded bits.
pub open spec fn bit_modes(s: Seq<(bool, Mode)>) -> Seq<Mode> {
    s.map_values(|p: (bool, Mode)| p.1)
}

/// The modes of a sequence of moded field elements.
pub open spec fn field_modes(s: Seq<(Vec<bool>, Mode)>) -> Seq<Mode> {
    s.map_values(|p: (Vec<bool>, Mode)| p.1)
}

/// The little-endian bits of the BHP-256 hash of `input`.
pub uninterp spec fn bhp256_hash_of(input: Seq<bool>) -> Seq<bool>;

/// The little-endian bits of the BHP-512 hash of `input`.
pub uninterp spec fn bhp512_hash_of(input: Seq<bool>) -> Seq<bool>;

/// The little-endian bits of the BHP-768 hash of `input`.
pub uninterp spec fn bhp768_hash_of(input: Seq<bool>) -> Seq<bool>;

/// The little-endian bits of the BHP-1024 hash of `input`.
pub uninterp spec fn bhp1024_hash_of(input: Seq<bool>) -> Seq<bool>;

/// The little-endian bits of the Poseidon (rate 2) hash of the field elements `input`.
pub uninterp spec fn psd2_hash_of(input: Seq<Seq<bool>>) -> Seq<bool>;

/// The little-endian bits of the Poseidon (rate 8) hash of the field elements `input`.
pub uninterp spec fn psd8_hash_of(input: Seq<Seq<bool>>) -> Seq<bool>;

/// The little-endian bits of the Poseidon (rate 4) hash of the field elements `input`.
pub uninterp spec fn psd4_hash_of(input: Seq<Seq<bool>>) -> Seq<bool>;

/// The little-endian bits of the x-coordinate of the BHP-1024 commitment to `input`
/// under the scalar `randomizer`.
pub uninterp spec fn bhp1024_commit_of(input: Seq<bool>, randomizer: Seq<bool>) -> Seq<bool>;

// Each wrapper injects its inputs into the circuit under their modes. The modes decide the
// constraints that are emitted, not the value: snarkVM's own tests check, for every mode,
// that the ejected value equals the native one. So the names below take the values alone.
// A computed result is a witness: constant when every input is constant, else private
// (snarkVM's `witness_mode!`).

/// Relies on `Aleo::hash_bhp1024` of `AleoV0`, whose input is each bit injected by
/// `Boolean::new` under its mode: the value of the hash depends on the bits alone.
#[verifier::external_body]
pub(crate) fn hash_bhp1024(input: &Vec<(bool, Mode)>) -> (r: (Vec<bool>, Mode))
    ensures
        r.0@ == bhp1024_hash_of(bit_values(input@)),
        r.1 == witness_mode(bit_modes(input@)),
{
    let cm = |m: &Mode| match m { Mode::Constant => CircuitMode::Constant, Mode::Public => CircuitMode::Public, Mode::Private => CircuitMode::Private };
    let lm = |m: CircuitMode| match m { CircuitMode::Constant => Mode::Constant, CircuitMode::Public => Mode::Public, CircuitMode::Private => Mode::Private };
    let bits: Vec<Boolean<AleoV0>> = input.iter().map(|(b, m)| Boolean::new(cm(m), *b)).collect();
    let h = AleoV0::hash_bhp1024(&bits);
    (h.to_bits_le().eject_value(), lm(h.eject_mode()))
}

/// Relies on `Aleo::hash_psd4` of `AleoV0`, whose input elements are each built by
/// `Field::from_bits_le` from bits injected under the element's mode: the value of the hash
/// depends on the elements' bits alone.
#[verifier::external_body]
pub(crate) fn hash_psd4(input: &Vec<(Vec<bool>, Mode)>) -> (r: (Vec<bool>, Mode))
    requires
        forall|i: int| 0 <= i < input@.len() ==> field_ok((#[trigger] input@[i]).0@),
    ensures
        r.0@ == psd4_hash_of(field_values(input@)),
        r.1 == witness_mode(field_modes(input@)),
{
    let cm = |m: &Mode| match m { Mode::Constant => CircuitMode::Constant, Mode::Public => CircuitMode::Public, Mode::Private => CircuitMode::Private };
    let lm = |m: CircuitMode| match m { CircuitMode::Constant => Mode::Constant, CircuitMode::Public => Mode::Public, CircuitMode::Private => Mode::Private };
    let fields: Vec<Field<AleoV0>> = input.iter()
        .map(|(bits, m)| Field::from_bits_le(&<Vec<Boolean<AleoV0>> as Inject>::new(cm(m), bits.clone())))
        .collect();
    let h = AleoV0::hash_psd4(&fields);
    (h.to_bits_le().eject_value(), lm(h.eject_mode()))
}

/// Relies on `Aleo::hash_bhp256` of `AleoV0`, whose input is each bit injected by
/// `Boolean::new` under its mode: the value of the hash depends on the bits alone.
#[verifier::external_body]
pub(crate) fn hash_bhp256(input: &Vec<(bool, Mode)>) -> (r: (Vec<bool>, Mode))
    ensures
        r.0@ == bhp256_hash_of(bit_values(input@)),
        r.1 == witness_mode(bit_modes(input@)),
{
    let cm = |m: &Mode| match m { Mode::Constant => CircuitMode::Constant, Mode::Public => CircuitMode::Public, Mode::Private => CircuitMode::Private };
    let lm = |m: CircuitMode| match m { CircuitMode::Constant => Mode::Constant, CircuitMode::Public => Mode::Public, CircuitMode::Private => Mode::Private };
    let bits: Vec<Boolean<AleoV0>> = input.iter().map(|(b, m)| Boolean::new(cm(m), *b)).collect();
    let h = AleoV0::hash_bhp256(&bits);
    (h.to_bits_le().eject_value(), lm(h.eject_mode()))
}

/// Relies on `Aleo::hash_bhp512` of `AleoV0`, whose input is each bit injected by
/// `Boolean::new` under its mode: the value of the hash depends on the bits alone.
#[verifier::external_body]
pub(crate) fn hash_bhp512(input: &Vec<(bool, Mode)>) -> (r: (Vec<bool>, Mode))
    ensures
        r.0@ == bhp512_hash_of(bit_values(input@)),
        r.1 == witness_mode(bit_modes(input@)),
{
    let cm = |m: &Mode| match m { Mode::Constant => CircuitMode::Constant, Mode::Public => CircuitMode::Public, Mode::Private => CircuitMode::Private };
    let lm = |m: CircuitMode| match m { CircuitMode::Constant => Mode::Constant, CircuitMode::Public => Mode::Public, CircuitMode::Private => Mode::Private };
    let bits: Vec<Boolean<AleoV0>> = input.iter().map(|(b, m)| Boolean::new(cm(m), *b)).collect();
    let h = AleoV0::hash_bhp512(&bits);
    (h.to_bits_le().eject_value(), lm(h.eject_mode()))
}

/// Relies on `Aleo::hash_bhp768` of `AleoV0`, whose input is each bit injected by
/// `Boolean::new` under its mode: the value of the hash depends on the bits alone.
#[verifier::external_body]
pub(crate) fn hash_bhp768(input: &Vec<(bool, Mode)>) -> (r: (Vec<bool>, Mode))
    ensures
        r.0@ == bhp768_hash_of(bit_values(input@)),
        r.1 == witness_mode(bit_modes(input@)),
{
    let cm = |m: &Mode| match m { Mode::Constant => CircuitMode::Constant, Mode::Public => CircuitMode::Public, Mode::Private => CircuitMode::Private };
    let lm = |m: CircuitMode| match m { CircuitMode::Constant => Mode::Constant, CircuitMode::Public => Mode::Public, CircuitMode::Private => Mode::Private };
    let bits: Vec<Boolean<AleoV0>> = input.iter().map(|(b, m)| Boolean::new(cm(m), *b)).collect();
    let h = AleoV0::hash_bhp768(&bits);
    (h.to_bits_le().eject_value(), lm(h.eject_mode()))
}

/// Relies on `Aleo::hash_psd2` of `AleoV0`, whose input elements are each built by
/// `Field::from_bits_le` from bits injected under the element's mode: the value of the hash
/// depends on the elements' bits alone.
#[verifier::external_body]
pub(crate) fn hash_psd2(input: &Vec<(Vec<bool>, Mode)>) -> (r: (Vec<bool>, Mode))
    requires
        forall|i: int| 0 <= i < input@.len() ==> field_ok((#[trigger] input@[i]).0@),
    ensures
        r.0@ == psd2_hash_of(field_values(input@)),
        r.1 == witness_mode(field_modes(input@)),
{
    let cm = |m: &Mode| match m { Mode::Constant => CircuitMode::Constant, Mode::Public => CircuitMode::Public, Mode::Private => CircuitMode::Private };
    let lm = |m: CircuitMode| match m { CircuitMode::Constant => Mode::Constant, CircuitMode::Public => Mode::Public, CircuitMode::Private => Mode::Private };
    let fields: Vec<Field<AleoV0>> = input.iter()
        .map(|(bits, m)| Field::from_bits_le(&<Vec<Boolean<AleoV0>> as Inject>::new(cm(m), bits.clone())))
        .collect();
    let h = AleoV0::hash_psd2(&fields);
    (h.to_bits_le().eject_value(), lm(h.eject_mode()))
}

/// Relies on `Aleo::hash_psd8` of `AleoV0`, whose input elements are each built by
/// `Field::from_bits_le` from bits injected under the element's mode: the value of the hash
/// depends on the elements' bits alone.
#[verifier::external_body]
pub(crate) fn hash_psd8(input: &Vec<(Vec<bool>, Mode)>) -> (r: (Vec<bool>, Mode))
    requires
        forall|i: int| 0 <= i < input@.len() ==> field_ok((#[trigger] input@[i]).0@),
    ensures
        r.0@ == psd8_hash_of(field_values(input@)),
        r.1 == witness_mode(field_modes(input@)),
{
    let cm = |m: &Mode| match m { Mode::Constant => CircuitMode::Constant, Mode::Public => CircuitMode::Public, Mode::Private => CircuitMode::Private };
    let lm = |m: CircuitMode| match m { CircuitMode::Constant => Mode::Constant, CircuitMode::Public => Mode::Public, CircuitMode::Private => Mode::Private };
    let fields: Vec<Field<AleoV0>> = input.iter()
        .map(|(bits, m)| Field::from_bits_le(&<Vec<Boolean<AleoV0>> as Inject>::new(cm(m), bits.clone())))
        .collect();
    let h = AleoV0::hash_psd8(&fields);
    (h.to_bits_le().eject_value(), lm(h.eject_mode()))
}

/// Relies on `Aleo::commit_to_group_bhp1024` of `AleoV0` and on `Group::to_x_coordinate`,
/// with the input bits injected under their modes and the randomizer built by
/// `Scalar::from_bits_le`: the commitment depends on the bits alone.
#[verifier::external_body]
pub(crate) fn commit_bhp1024(input: &Vec<(bool, Mode)>, randomizer: &Vec<bool>, randomizer_mode: Mode) -> (r: Vec<bool>)
    requires
        scalar_ok(randomizer@),
    ensures
        r@ == bhp1024_commit_of(bit_values(input@), randomizer@),
{
    let cm = |m: &Mode| match m { Mode::Constant => CircuitMode::Constant, Mode::Public => CircuitMode::Public, Mode::Private => CircuitMode::Private };
    let bits: Vec<Boolean<AleoV0>> = input.iter().map(|(b, m)| Boolean::new(cm(m), *b)).collect();
    let r: Vec<Boolean<AleoV0>> = Inject::new(cm(&randomizer_mode), randomizer.clone());
    let commitment = AleoV0::commit_to_group_bhp1024(&bits, &Scalar::from_bits_le(&r));
    commitment.to_x_coordinate().to_bits_le().eject_value()
}

} // verus!
