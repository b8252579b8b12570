use sizematters::digest::compute_password;
use sizematters::user::UserData;

#[test]
fn password_commitment_is_md5_hex_of_plaintext() {
    let hashed = compute_password("x".to_owned(), false);
    assert_eq!(hashed, "9dd4e461268c8034f5c8564e155c67a6");
    assert_eq!(hashed.len(), 32);
}

#[test]
fn prehashed_password_is_stored_as_given() {
    let hashed = compute_password("9dd4e461268c8034f5c8564e155c67a6".to_owned(), true);
    assert_eq!(hashed, "9dd4e461268c8034f5c8564e155c67a6");
}

#[test]
fn commitment_is_deterministic() {
    assert_eq!(
        compute_password("secret".to_owned(), false),
        compute_password("secret".to_owned(), false)
    );
}

#[test]
fn new_user_gets_placeholder_name_and_derived_avatar() {
    let user = UserData::new("x".to_owned());
    assert_eq!(user.user_id, "x");
    assert_eq!(user.name, "Shirtless Muppet");
    assert_eq!(user.gravatar_id, "9dd4e461268c8034f5c8564e155c67a6");
}

#[test]
fn set_avatar_rederives_the_reference() {
    let mut user = UserData::new("someone".to_owned());
    user.set_avatar("x");
    assert_eq!(user.gravatar_id, "9dd4e461268c8034f5c8564e155c67a6");
    assert_eq!(user.user_id, "someone");
}
