//! Transfers of value between accounts, signed by the sender.

use vstd::prelude::*;
use crate::base16::{
    hex_bytes, hex_decode, hex_encode, hex_string, is_hex, lemma_hex_round_trip,
};
use crate::signing::{
    ed25519_public_key, ed25519_signature, ed25519_verifies, ed25519_verify, public_key_parses,
    signature_parses, signature_well_formed,
};
use crate::text::{
    decimal, lemma_cancel_around, lemma_cancel_front, lemma_decimal_injective, push_decimal,
    push_quoted, push_str, str_debug, utf8,
};
use crate::wallet::{public_key_of, Wallet};

verus! {

/// A transfer of `amount` from one account to another. The signature and the
/// public key are carried in hexadecimal once the transfer is signed.
#[derive(Debug)]
pub struct Transaction {
    pub from: String,
    pub to: String,
    pub amount: u64,
    pub signature: Option<String>,
    pub public_key: Option<String>,
}

/// A transaction as a mathematical value.
pub ghost struct TransactionView {
    pub from: Seq<char>,
    pub to: Seq<char>,
    pub amount: nat,
    pub signature: Option<Seq<char>>,
    pub public_key: Option<Seq<char>>,
}

/// The view of an optional string.
pub open spec fn option_text(value: Option<String>) -> Option<Seq<char>> {
    match value {
        Some(text) => Some(text@),
        None => None,
    }
}

impl View for Transaction {
    type V = TransactionView;

    open spec fn view(&self) -> TransactionView {
        TransactionView {
            from: self.from@,
            to: self.to@,
            amount: self.amount as nat,
            signature: option_text(self.signature),
            public_key: option_text(self.public_key),
        }
    }
}

/// The sender of block rewards. Its transactions need no signature and no funds.
pub open spec fn coinbase() -> Seq<char> {
    "COINBASE"@
}

/// The bytes that a signature covers: sender, recipient and amount, and
/// neither the signature nor the public key.
pub open spec fn signing_payload(tx: TransactionView) -> Seq<u8> {
    utf8(tx.from) + utf8(tx.to) + decimal(tx.amount)
}

/// Whether `tx` carries a signature and a public key, both in hexadecimal,
/// the signature in transport form and the key a public key of 32 bytes, such
/// that the signature is accepted for the payload under the key.
pub open spec fn signature_valid(tx: TransactionView) -> bool {
    &&& tx.signature is Some
    &&& tx.public_key is Some
    &&& is_hex(utf8(tx.signature.unwrap()))
    &&& is_hex(utf8(tx.public_key.unwrap()))
    &&& signature_well_formed(hex_bytes(utf8(tx.signature.unwrap())))
    &&& hex_bytes(utf8(tx.public_key.unwrap())).len() == 32
    &&& ed25519_public_key(hex_bytes(utf8(tx.public_key.unwrap())))
    &&& ed25519_verifies(
        hex_bytes(utf8(tx.public_key.unwrap())),
        signing_payload(tx),
        hex_bytes(utf8(tx.signature.unwrap())),
    )
}

/// `tx` as the wallet with key pair `keypair` signs it.
pub open spec fn signed_by(tx: TransactionView, keypair: Seq<u8>) -> TransactionView {
    TransactionView {
        signature: Some(hex_string(ed25519_signature(keypair, signing_payload(tx)))),
        public_key: Some(hex_string(public_key_of(keypair))),
        ..tx
    }
}

/// The text `None`, or `Some(..)` around the quoted string.
pub open spec fn option_rendering(value: Option<Seq<char>>) -> Seq<u8> {
    match value {
        None => utf8("None"@),
        Some(text) => utf8("Some("@) + utf8(str_debug(text)) + utf8(")"@),
    }
}

/// The canonical text of a transaction, as it enters a block's hashed content.
pub open spec fn transaction_rendering(tx: TransactionView) -> Seq<u8> {
    utf8("Transaction { from: "@) + utf8(str_debug(tx.from)) + utf8(", to: "@) + utf8(
        str_debug(tx.to),
    ) + utf8(", amount: "@) + decimal(tx.amount) + utf8(", signature: "@) + option_rendering(
        tx.signature,
    ) + utf8(", public_key: "@) + option_rendering(tx.public_key) + utf8(" }"@)
}

/// The text of a transaction before its amount.
pub open spec fn rendering_before_amount(tx: TransactionView) -> Seq<u8> {
    utf8("Transaction { from: "@) + utf8(str_debug(tx.from)) + utf8(", to: "@) + utf8(
        str_debug(tx.to),
    ) + utf8(", amount: "@)
}

/// The text of a transaction after its amount.
pub open spec fn rendering_after_amount(tx: TransactionView) -> Seq<u8> {
    utf8(", signature: "@) + option_rendering(tx.signature) + utf8(", public_key: "@)
        + option_rendering(tx.public_key) + utf8(" }"@)
}

/// The canonical text of a transaction is the numeral of its amount between
/// two texts that do not depend on the amount.
pub proof fn lemma_rendering_around_amount(tx: TransactionView)
    ensures
        transaction_rendering(tx) == rendering_before_amount(tx) + decimal(tx.amount)
            + rendering_after_amount(tx),
{
}

/// Two transactions that differ in the amount alone have different canonical
/// texts.
pub proof fn lemma_rendering_tells_amount(tx: TransactionView, amount: nat)
    requires
        transaction_rendering(tx) == transaction_rendering(TransactionView { amount, ..tx }),
    ensures
        amount == tx.amount,
{
    let other = TransactionView { amount, ..tx };
    lemma_rendering_around_amount(tx);
    lemma_rendering_around_amount(other);
    lemma_cancel_around(
        rendering_before_amount(tx),
        decimal(tx.amount),
        decimal(amount),
        rendering_after_amount(tx),
    );
    lemma_decimal_injective(tx.amount, amount);
}

/// Two transactions with the same sender and recipient and different amounts
/// have different payloads: a signature covers the amount.
pub proof fn lemma_payload_tells_amount(tx: TransactionView, amount: nat)
    requires
        signing_payload(tx) == signing_payload(TransactionView { amount, ..tx }),
    ensures
        amount == tx.amount,
{
    lemma_cancel_front(utf8(tx.from) + utf8(tx.to), decimal(tx.amount), decimal(amount));
    lemma_decimal_injective(tx.amount, amount);
}

/// Between signing and verifying nothing is lost: a transaction as a wallet
/// signs it is valid exactly if the signature that the key pair gives to the
/// payload is in transport form, the public half of the key pair is a public
/// key of 32 bytes, and the signature is accepted for the payload under that
/// key. The hexadecimal text in which both travel decodes to the bytes it was
/// made of.
pub proof fn lemma_signed_transaction_verdict(tx: TransactionView, keypair: Seq<u8>)
    ensures
        signature_valid(signed_by(tx, keypair)) <==> {
            &&& signature_well_formed(ed25519_signature(keypair, signing_payload(tx)))
            &&& public_key_of(keypair).len() == 32
            &&& ed25519_public_key(public_key_of(keypair))
            &&& ed25519_verifies(
                public_key_of(keypair),
                signing_payload(tx),
                ed25519_signature(keypair, signing_payload(tx)),
            )
        },
{
    lemma_hex_round_trip(ed25519_signature(keypair, signing_payload(tx)));
    lemma_hex_round_trip(public_key_of(keypair));
}

fn clone_option(value: &Option<String>) -> (copy: Option<String>)
    ensures
        copy == *value,
{
    match value {
        Some(text) => Some(text.clone()),
        None => None,
    }
}

fn push_option(buf: &mut Vec<u8>, value: &Option<String>)
    ensures
        final(buf)@ == old(buf)@ + option_rendering(option_text(*value)),
{
    match value {
        None => {
            push_str(buf, "None");
        },
        Some(text) => {
            push_str(buf, "Some(");
            push_quoted(buf, text.as_str());
            push_str(buf, ")");
        },
    }
}

impl Clone for Transaction {
    fn clone(&self) -> (copy: Self)
        ensures
            copy == *self,
    {
        Transaction {
            from: self.from.clone(),
            to: self.to.clone(),
            amount: self.amount,
            signature: clone_option(&self.signature),
            public_key: clone_option(&self.public_key),
        }
    }
}

impl Transaction {
    /// Whether the sender is the reward issuer.
    pub fn is_coinbase(&self) -> (yes: bool)
        ensures
            yes == (self@.from == coinbase()),
    {
        let issuer: String = "COINBASE".to_owned();
        self.from == issuer
    }

    /// The bytes that a signature of this transaction covers.
    pub fn payload(&self) -> (bytes: Vec<u8>)
        ensures
            bytes@ == signing_payload(self@),
    {
        let mut bytes: Vec<u8> = Vec::new();
        push_str(&mut bytes, self.from.as_str());
        push_str(&mut bytes, self.to.as_str());
        push_decimal(&mut bytes, self.amount);
        bytes
    }

    /// Signs the transaction with `wallet`: the signature of the payload and the
    /// wallet's public key are attached in hexadecimal, the rest is kept.
    pub fn sign(self, wallet: &Wallet) -> (signed: Self)
        ensures
            signed@ == signed_by(self@, wallet@),
    {
        let message = self.payload();
        let signature = wallet.sign(message.as_slice());
        let signature_hex = hex_encode(signature.as_slice());
        let public_key_hex = wallet.address();
        Transaction {
            from: self.from,
            to: self.to,
            amount: self.amount,
            signature: Some(signature_hex),
            public_key: Some(public_key_hex),
        }
    }

    /// Checks the signature against the payload and the embedded public key.
    /// An absent, undecodable or malformed signature or key counts as invalid.
    pub fn verify_transaction_signature(&self) -> (valid: bool)
        ensures
            valid == signature_valid(self@),
    {
        let signature_hex = match &self.signature {
            Some(text) => text,
            None => {
                return false;
            },
        };
        let public_key_hex = match &self.public_key {
            Some(text) => text,
            None => {
                return false;
            },
        };
        let message = self.payload();
        let signature = match hex_decode(signature_hex.as_str().as_bytes()) {
            Some(bytes) => bytes,
            None => {
                return false;
            },
        };
        let public_key = match hex_decode(public_key_hex.as_str().as_bytes()) {
            Some(bytes) => bytes,
            None => {
                return false;
            },
        };
        if !signature_parses(signature.as_slice()) {
            return false;
        }
        if !public_key_parses(public_key.as_slice()) {
            return false;
        }
        ed25519_verify(public_key.as_slice(), message.as_slice(), signature.as_slice())
    }

    /// Appends the canonical text of the transaction to `buf`.
    pub fn render(&self, buf: &mut Vec<u8>)
        ensures
            final(buf)@ == old(buf)@ + transaction_rendering(self@),
    {
        push_str(buf, "Transaction { from: ");
        push_quoted(buf, self.from.as_str());
        push_str(buf, ", to: ");
        push_quoted(buf, self.to.as_str());
        push_str(buf, ", amount: ");
        push_decimal(buf, self.amount);
        push_str(buf, ", signature: ");
        push_option(buf, &self.signature);
        push_str(buf, ", public_key: ");
        push_option(buf, &self.public_key);
        push_str(buf, " }");
    }
}

} // verus!
