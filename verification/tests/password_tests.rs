use auth_core::password::{hash_password, password_matches};

#[test]
fn hash_then_verify_accepts() {
    let hashed = hash_password("longenoughpw").expect("hashing must succeed");
    assert!(password_matches("longenoughpw", &hashed));
}

#[test]
fn verify_rejects_wrong_password() {
    let hashed = hash_password("longenoughpw").expect("hashing must succeed");
    assert!(!password_matches("longenoughpX", &hashed));
    assert!(!password_matches("", &hashed));
}

#[test]
fn verify_returns_false_on_malformed_hash() {
    assert!(!password_matches("whatever", "not-a-valid-stored-hash"));
    assert!(!password_matches("whatever", ""));
}

#[test]
fn two_hashes_of_same_password_differ_but_both_verify() {
    let h1 = hash_password("correct horse battery").expect("hashing must succeed");
    let h2 = hash_password("correct horse battery").expect("hashing must succeed");
    assert_ne!(h1, h2);
    assert!(password_matches("correct horse battery", &h1));
    assert!(password_matches("correct horse battery", &h2));
}
