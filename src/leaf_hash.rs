use crate::circuit::{
    bhp1024_hash_of, bhp256_hash_of, bhp512_hash_of, bhp768_hash_of, bit_modes, bit_values,
    field_modes, field_values, hash_bhp1024, hash_bhp256, hash_bhp512, hash_bhp768, hash_psd2,
    hash_psd4, hash_psd8, psd2_hash_of, psd4_hash_of, psd8_hash_of,
};
use crate::field::{field_ok, lemma_zero_is_field};
use crate::literal::copy_bits;
use crate::mode::{lemma_witness_mode_constant_prefix, witness_mode, Mode};
use vstd::prelude::*;

verus! {

/// The input size that a window hash is set up for; larger inputs are chained.
#[derive(Clone, Copy, Debug, PartialEq, Eq, Structural)]
pub enum BhpSize {
    Bhp256,
    Bhp512,
    Bhp768,
    Bhp1024,
}

/// The window-hash family; its leaves are sequences of bits.
#[derive(Clone, Copy, Debug, PartialEq, Eq, Structural)]
pub struct Bhp {
    pub size: BhpSize,
}

/// The rate at which a sponge hash absorbs field elements.
#[derive(Clone, Copy, Debug, PartialEq, Eq, Structural)]
pub enum PoseidonRate {
    Poseidon2,
    Poseidon4,
    Poseidon8,
}

/// The sponge-hash family; its leaves are sequences of field elements, each given by its
/// little-endian bits.
#[derive(Clone, Copy, Debug, PartialEq, Eq, Structural)]
pub struct Poseidon {
    pub rate: PoseidonRate,
}

/// The little-endian bits of the window hash of `input` for the given size.
pub open spec fn bhp_hash_of(size: BhpSize, input: Seq<bool>) -> Seq<bool> {
    match size {
        BhpSize::Bhp256 => bhp256_hash_of(input),
        BhpSize::Bhp512 => bhp512_hash_of(input),
        BhpSize::Bhp768 => bhp768_hash_of(input),
        BhpSize::Bhp1024 => bhp1024_hash_of(input),
    }
}

/// The little-endian bits of the sponge hash of `input` at the given rate.
pub open spec fn psd_hash_of(rate: PoseidonRate, input: Seq<Seq<bool>>) -> Seq<bool> {
    match rate {
        PoseidonRate::Poseidon2 => psd2_hash_of(input),
        PoseidonRate::Poseidon4 => psd4_hash_of(input),
        PoseidonRate::Poseidon8 => psd8_hash_of(input),
    }
}

/// The input hashed for a window-hash leaf: a constant `false` bit, then the leaf.
pub open spec fn bhp_leaf_input(leaf: Seq<bool>) -> Seq<bool> {
    seq![false] + leaf
}

/// The field element zero, as bits (no bits: the empty sum).
pub open spec fn zero_field() -> Seq<bool> {
    Seq::empty()
}

/// The input hashed for a sponge leaf: a constant zero element, then the leaf.
pub open spec fn psd_leaf_input(leaf: Seq<Seq<bool>>) -> Seq<Seq<bool>> {
    seq![zero_field()] + leaf
}

/// A Merkle leaf hash: the leaf is prefixed with a constant domain element before it is
/// hashed, so that leaf hashes never share a pre-image with the hashes of inner nodes.
pub trait LeafHash {
    type Leaf;

    /// Whether `leaf` is a well-formed leaf of this family.
    spec fn leaf_ok(&self, leaf: &Self::Leaf) -> bool;

    /// The little-endian bits of the hash of `leaf`.
    spec fn leaf_hash(&self, leaf: &Self::Leaf) -> Seq<bool>;

    /// The mode of the hash of `leaf`.
    spec fn leaf_mode(&self, leaf: &Self::Leaf) -> Mode;

    /// Returns the hash of the given leaf node, with its mode.
    fn hash(&self, leaf: &Self::Leaf) -> (r: (Vec<bool>, Mode))
        requires
            self.leaf_ok(leaf),
        ensures
            r.0@ == self.leaf_hash(leaf),
            r.1 == self.leaf_mode(leaf),
    ;
}

impl LeafHash for Bhp {
    type Leaf = Vec<(bool, Mode)>;

    open spec fn leaf_ok(&self, leaf: &Self::Leaf) -> bool {
        true
    }

    open spec fn leaf_hash(&self, leaf: &Self::Leaf) -> Seq<bool> {
        bhp_hash_of(self.size, bhp_leaf_input(bit_values(leaf@)))
    }

    /// Constant when every bit of the leaf is constant, else private.
    open spec fn leaf_mode(&self, leaf: &Self::Leaf) -> Mode {
        witness_mode(bit_modes(leaf@))
    }

    fn hash(&self, leaf: &Self::Leaf) -> (r: (Vec<bool>, Mode)) {
        let mut input: Vec<(bool, Mode)> = Vec::new();
        input.push((false, Mode::Constant));
        let mut i: usize = 0;
        while i < leaf.len()
            invariant
                i <= leaf@.len(),
                input@ == seq![(false, Mode::Constant)] + leaf@.subrange(0, i as int),
            decreases leaf@.len() - i,
        {
            input.push(leaf[i]);
            i = i + 1;
            assert(input@ =~= seq![(false, Mode::Constant)] + leaf@.subrange(0, i as int));
        }
        assert(leaf@.subrange(0, leaf@.len() as int) =~= leaf@);
        assert(bit_values(input@) =~= bhp_leaf_input(bit_values(leaf@)));
        assert(bit_modes(input@) =~= seq![Mode::Constant] + bit_modes(leaf@));
        proof {
            lemma_witness_mode_constant_prefix(bit_modes(leaf@));
        }
        match self.size {
            BhpSize::Bhp256 => hash_bhp256(&input),
            BhpSize::Bhp512 => hash_bhp512(&input),
            BhpSize::Bhp768 => hash_bhp768(&input),
            BhpSize::Bhp1024 => hash_bhp1024(&input),
        }
    }
}

impl LeafHash for Poseidon {
    type Leaf = Vec<(Vec<bool>, Mode)>;

    open spec fn leaf_ok(&self, leaf: &Self::Leaf) -> bool {
        forall|i: int| 0 <= i < leaf@.len() ==> field_ok((#[trigger] leaf@[i]).0@)
    }

    open spec fn leaf_hash(&self, leaf: &Self::Leaf) -> Seq<bool> {
        psd_hash_of(self.rate, psd_leaf_input(field_values(leaf@)))
    }

    /// Constant when every element of the leaf is constant, else private.
    open spec fn leaf_mode(&self, leaf: &Self::Leaf) -> Mode {
        witness_mode(field_modes(leaf@))
    }

    fn hash(&self, leaf: &Self::Leaf) -> (r: (Vec<bool>, Mode)) {
        proof {
            lemma_zero_is_field();
        }
        let mut input: Vec<(Vec<bool>, Mode)> = Vec::new();
        input.push((Vec::new(), Mode::Constant));
        let mut i: usize = 0;
        while i < leaf.len()
            invariant
                i <= leaf@.len(),
                self.leaf_ok(leaf),
                input@.len() == i + 1,
                input@[0].0@ == zero_field(),
                input@[0].1 == Mode::Constant,
                forall|k: int| 0 <= k < input@.len() ==> field_ok((#[trigger] input@[k]).0@),
                forall|k: int| 0 <= k < i ==> (#[trigger] input@[k + 1]).0@ == leaf@[k].0@,
                forall|k: int| 0 <= k < i ==> (#[trigger] input@[k + 1]).1 == leaf@[k].1,
            decreases leaf@.len() - i,
        {
            let mut bits: Vec<bool> = Vec::new();
            copy_bits(&mut bits, &leaf[i].0);
            input.push((bits, leaf[i].1));
            i = i + 1;
        }
        assert(field_values(input@) =~= psd_leaf_input(field_values(leaf@))) by {
            assert forall|k: int| 0 <= k < input@.len() implies field_values(input@)[k]
                == psd_leaf_input(field_values(leaf@))[k] by {
                if k > 0 {
                    assert(input@[(k - 1) + 1].0@ == leaf@[k - 1].0@);
                }
            }
        }
        assert(field_modes(input@) =~= seq![Mode::Constant] + field_modes(leaf@)) by {
            assert forall|k: int| 0 <= k < input@.len() implies field_modes(input@)[k]
                == (seq![Mode::Constant] + field_modes(leaf@))[k] by {
                if k > 0 {
                    assert(input@[(k - 1) + 1].1 == leaf@[k - 1].1);
                }
            }
        }
        proof {
            lemma_witness_mode_constant_prefix(field_modes(leaf@));
        }
        match self.rate {
            PoseidonRate::Poseidon2 => hash_psd2(&input),
            PoseidonRate::Poseidon4 => hash_psd4(&input),
            PoseidonRate::Poseidon8 => hash_psd8(&input),
        }
    }
}

/// A window-hash leaf is hashed from an input that is neither the bare leaf nor the input
/// of any hash whose first bit is `true`: leaf pre-images are kept apart from the rest.
pub proof fn lemma_bhp_domain_separated(leaf: Seq<bool>, other: Seq<bool>)
    ensures
        bhp_leaf_input(leaf) != leaf,
        bhp_leaf_input(leaf)[0] == false,
        bhp_leaf_input(leaf).len() == leaf.len() + 1,
        bhp_leaf_input(leaf).drop_first() == leaf,
        bhp_leaf_input(leaf) != seq![true] + other,
{
    assert(bhp_leaf_input(leaf).len() != leaf.len());
    assert(bhp_leaf_input(leaf).drop_first() =~= leaf);
    assert((seq![true] + other)[0] == true);
}

/// A sponge leaf is hashed from an input that is not the bare leaf, and whose first
/// element is the constant zero whatever the leaf holds.
pub proof fn lemma_psd_domain_separated(leaf: Seq<Seq<bool>>)
    ensures
        psd_leaf_input(leaf) != leaf,
        psd_leaf_input(leaf)[0] == zero_field(),
        psd_leaf_input(leaf).len() == leaf.len() + 1,
        psd_leaf_input(leaf).drop_first() == leaf,
{
    assert(psd_leaf_input(leaf).len() != leaf.len());
    assert(psd_leaf_input(leaf).drop_first() =~= leaf);
}

} // verus!
