//! A wallet: one Ed25519 key pair, which names an account and signs for it.

use vstd::prelude::*;
use vstd::slice::slice_subrange;
use crate::base16::{hex_encode, hex_string};
use crate::signing::{
    ed25519_signature, generate_keypair, keypair_parses, keypair_sign, keypair_well_formed,
    signature_well_formed,
};

verus! {

/// A key pair, held in its 64-byte storage form.
pub struct Wallet {
    keypair: Vec<u8>,
}

impl View for Wallet {
    type V = Seq<u8>;

    /// The 64 bytes of the key pair: secret key, then public key.
    closed spec fn view(&self) -> Seq<u8> {
        self.keypair@
    }
}

/// The public half of a key pair in storage form.
pub open spec fn public_key_of(keypair: Seq<u8>) -> Seq<u8> {
    keypair.subrange(32, 64)
}

/// The outcome of taking `bytes` as a stored key pair: the wallet that holds
/// them if they are a well-formed key pair, and nothing if they are not.
pub open spec fn restored(bytes: Seq<u8>, outcome: Option<Wallet>) -> bool {
    match outcome {
        Some(wallet) => keypair_well_formed(bytes) && wallet@ == bytes,
        None => !keypair_well_formed(bytes),
    }
}

impl Wallet {
    #[verifier::type_invariant]
    spec fn well_formed(&self) -> bool {
        keypair_well_formed(self.keypair@)
    }

    /// Takes a stored key pair, if `bytes` are one.
    pub fn from_bytes(bytes: Vec<u8>) -> (wallet: Option<Wallet>)
        ensures
            wallet is Some <==> keypair_well_formed(bytes@),
            wallet is Some ==> wallet.unwrap()@ == bytes@,
    {
        if keypair_parses(bytes.as_slice()) {
            Some(Wallet { keypair: bytes })
        } else {
            None
        }
    }

    /// Makes a fresh key pair from the system's randomness. Whatever 64 bytes
    /// were generated, the outcome is that of `from_bytes` on them: the wallet
    /// that holds them, and `None` only if they were no well-formed key pair.
    pub fn generate() -> (wallet: Option<Wallet>)
        ensures
            exists|bytes: Seq<u8>| bytes.len() == 64 && #[trigger] restored(bytes, wallet),
            wallet is Some ==> keypair_well_formed(wallet.unwrap()@),
    {
        let bytes = generate_keypair();
        let wallet = Wallet::from_bytes(bytes);
        assert(restored(bytes@, wallet));
        wallet
    }

    /// The key pair in storage form, from which `from_bytes` restores the wallet.
    pub fn to_bytes(&self) -> (bytes: Vec<u8>)
        ensures
            bytes@ == self@,
            keypair_well_formed(bytes@),
    {
        proof {
            use_type_invariant(self);
        }
        self.keypair.clone()
    }

    /// The account that this wallet names: its public key in hexadecimal.
    pub fn address(&self) -> (address: String)
        ensures
            address@ == hex_string(public_key_of(self@)),
            address@.len() == 64,
    {
        proof {
            use_type_invariant(self);
        }
        hex_encode(slice_subrange(self.keypair.as_slice(), 32, 64))
    }

    /// Signs `message` with the wallet's key pair.
    pub fn sign(&self, message: &[u8]) -> (signature: Vec<u8>)
        ensures
            signature@ == ed25519_signature(self@, message@),
            signature_well_formed(signature@),
    {
        proof {
            use_type_invariant(self);
        }
        keypair_sign(self.keypair.as_slice(), message)
    }
}

} // verus!
