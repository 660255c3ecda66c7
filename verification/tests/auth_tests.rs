use dronechain::auth::signature_check_answer;
use dronechain::auth::{check_auth_valid, send_auth, sign_command, verify_signature, KeyStep};

fn keys() -> (Vec<u8>, Vec<u8>) {
    let rsa = openssl::rsa::Rsa::generate(2048).unwrap();
    (rsa.private_key_to_pem().unwrap(), rsa.public_key_to_pem().unwrap())
}

#[test]
fn sign_then_verify() {
    let (private_pem, public_pem) = keys();
    let sig = send_auth(&private_pem, "check_my_auth").unwrap();
    assert_eq!(verify_signature(&public_pem, "check_my_auth", &sig), Ok(true));
    assert_eq!(verify_signature(&public_pem, "other", &sig), Ok(false));
    let sig2 = sign_command(&private_pem, "check_my_auth").unwrap();
    assert_eq!(sig, sig2);
}

#[test]
fn vote_check_answers_the_verdict() {
    let (private_pem, public_pem) = keys();
    let sig = send_auth(&private_pem, "land").unwrap();
    assert_eq!(check_auth_valid(&public_pem, "land", &sig), Ok(true));
    assert_eq!(check_auth_valid(&public_pem, "takeoff", &sig), Ok(false));
    let (_, other_public) = keys();
    assert_eq!(check_auth_valid(&other_public, "land", &sig), Ok(false));
}

#[test]
fn bad_keys_are_reported() {
    assert_eq!(verify_signature(b"not a key", "x", &[1, 2]), Err(KeyStep::ParseKey));
    assert_eq!(check_auth_valid(b"not a key", "x", &[1, 2]), Err(KeyStep::ParseKey));
    assert_eq!(send_auth(b"not a key", "x"), Err(KeyStep::ParseKey));
}

#[test]
fn answers_for_openssl_outcomes() {
    assert_eq!(signature_check_answer(Ok(false)), Ok(false));
    assert_eq!(signature_check_answer(Ok(true)), Ok(true));
    assert_eq!(signature_check_answer(Err(KeyStep::Finish)), Ok(false));
    assert_eq!(signature_check_answer(Err(KeyStep::FeedData)), Err(KeyStep::FeedData));
}
