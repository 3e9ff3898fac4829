use rustcoin::wallet::Wallet;

const SECRET: &str = "9d61b19deffd5a60ba844af492ec2cc44449c5697b326919703bac031cae7f60";
const PUBLIC: &str = "d75a980182b10ab7d54bfed3c964073a0ee172f3daa62325af021a68f707511a";
const SIGNATURE_OF_NOTHING: &str = "e5564300c360ac729086e2cc806e828a84877f1eb8e5d974d873e06522490155\
5fb8821590a33bacc61e39701cf9b46bd25bf5f0595bbe24655141438e7a100b";

fn known_keypair() -> Vec<u8> {
    let mut bytes = hex::decode(SECRET).unwrap();
    bytes.extend(hex::decode(PUBLIC).unwrap());
    bytes
}

#[test]
fn wallet_from_known_keypair_has_the_public_key_as_address() {
    let wallet = Wallet::from_bytes(known_keypair()).expect("a well-formed key pair");
    assert_eq!(wallet.address(), PUBLIC);
}

#[test]
fn wallet_signs_deterministically_with_the_known_signature() {
    let wallet = Wallet::from_bytes(known_keypair()).unwrap();
    let signature = wallet.sign(b"");
    assert_eq!(hex::encode(&signature), SIGNATURE_OF_NOTHING);
    assert_eq!(wallet.sign(b""), signature);
    assert_ne!(wallet.sign(b"x"), signature);
}

#[test]
fn wallet_signature_is_64_bytes_in_transport_form() {
    let wallet = Wallet::from_bytes(known_keypair()).unwrap();
    let signature = wallet.sign(b"some message");
    assert_eq!(signature.len(), 64);
    assert!(signature[63] < 32);
}

#[test]
fn wallet_round_trips_through_its_bytes() {
    let wallet = Wallet::from_bytes(known_keypair()).unwrap();
    assert_eq!(wallet.to_bytes(), known_keypair());
    let again = Wallet::from_bytes(wallet.to_bytes()).unwrap();
    assert_eq!(again.address(), wallet.address());
}

#[test]
fn wallet_rejects_bytes_of_the_wrong_length() {
    assert!(Wallet::from_bytes(Vec::new()).is_none());
    assert!(Wallet::from_bytes(vec![0u8; 63]).is_none());
    assert!(Wallet::from_bytes(vec![0u8; 65]).is_none());
    assert!(Wallet::from_bytes(hex::decode(SECRET).unwrap()).is_none());
}

#[test]
fn wallet_rejects_a_public_half_that_is_no_curve_point() {
    // y = 2 is the ordinate of no point of the curve.
    let mut bytes = hex::decode(SECRET).unwrap();
    let mut public = vec![0u8; 32];
    public[0] = 2;
    bytes.extend(public);
    assert!(Wallet::from_bytes(bytes).is_none());
}

#[test]
fn generated_wallets_are_well_formed_and_differ() {
    let first = Wallet::generate().expect("a generated key pair is well-formed");
    let second = Wallet::generate().expect("a generated key pair is well-formed");
    assert_eq!(first.to_bytes().len(), 64);
    assert_eq!(first.address().len(), 64);
    assert_ne!(first.address(), second.address());
    assert!(Wallet::from_bytes(first.to_bytes()).is_some());
}
