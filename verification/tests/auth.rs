use rusted_iron::auth::{admits, encode, is_authenticated, skips_auth, verify, AuthMiddlewareData};
use rusted_iron::user::{get_field, User};

#[test]
fn can_verify_hash_generated() {
    let hash = "$2a$12$KJczViz/D69PAoDPN3Qszuc0cDNQdzYVzjujOVJ68bLH/5X/opfM.";
    assert!(verify("password", hash));
}

#[test]
fn can_verify_own_generated_hash() {
    let encoded = encode("superuser123!".to_string());
    assert_eq!(true, verify("superuser123!", encoded.as_str()));
}

#[test]
fn can_detect_wrong_password_with_own_generated_hash() {
    let encoded = encode("superuser123!".to_string());
    assert_eq!(false, verify("superuser1234!", &encoded));
}

#[test]
fn mod_can_verify_hash_generated() {
    let hash = "$2a$12$KJczViz/D69PAoDPN3Qszuc0cDNQdzYVzjujOVJ68bLH/5X/opfM.";
    assert!(verify("password", hash));
    assert!(!verify("passwort", hash));
}

#[test]
fn mod_can_verify_own_generated_hash() {
    let encoded = encode("superuser123!".to_string());
    assert_ne!(encoded, "superuser123!");
    assert_eq!(encoded.len(), 60);
    assert_eq!(true, verify("superuser123!", encoded.as_str()));
}

#[test]
fn mod_can_detect_wrong_password_with_own_generated_hash() {
    let encoded = encode("superuser123!".to_string());
    assert_eq!(false, verify("superuser1234!", &encoded));
}

#[test]
fn what_is_no_hash_verifies_nothing() {
    assert!(!verify("password", ""));
    assert!(!verify("password", "password"));
    assert!(!verify("", "Failed to encode"));
    assert!(!verify("password", "$2a$12$KJczViz/D69PAoDPN3Qszuc0cDNQdzYVzjujOVJ68bLH/5X/opfM"));
}

#[test]
fn a_user_is_authenticated_by_the_stored_hash() {
    let user = User::new(
        "Ada".to_string(),
        "Lovelace".to_string(),
        "ada@example.com".to_string(),
        "engine".to_string(),
    )
    .unwrap();
    assert_eq!(user.first_name, Some("Ada".to_string()));
    assert_eq!(user.last_name, Some("Lovelace".to_string()));
    assert_eq!(user.email, Some("ada@example.com".to_string()));
    assert_ne!(user.password, Some("engine".to_string()));
    let right = AuthMiddlewareData {
        email: "ada@example.com".to_string(),
        password_plain: "engine".to_string(),
    };
    let wrong = AuthMiddlewareData {
        email: "ada@example.com".to_string(),
        password_plain: "Engine".to_string(),
    };
    assert!(is_authenticated(&right, &user));
    assert!(!is_authenticated(&wrong, &user));
    let mut nobody = user.clone();
    nobody.password = None;
    assert!(!is_authenticated(&right, &nobody));
}

#[test]
fn a_user_is_read_from_its_fields() {
    let pair = |a: &str, b: &str| (a.to_string(), b.to_string());
    let fields = vec![
        pair("email", "a@b"),
        pair("first_name", "A"),
        pair("password", "hash"),
        pair("email", "later@b"),
        pair("other", "x"),
    ];
    let user = User::new_from_hash(&fields);
    assert_eq!(user.first_name, Some("A".to_string()));
    assert_eq!(user.last_name, None);
    assert_eq!(user.email, Some("a@b".to_string()));
    assert_eq!(user.password, Some("hash".to_string()));
    assert_eq!(get_field(&fields, "other"), Some("x".to_string()));
    assert_eq!(get_field(&fields, "Other"), None);
    assert_eq!(get_field(&vec![], "email"), None);
}

#[test]
fn the_service_itself_is_let_in_by_its_user_agent() {
    assert!(skips_auth(Some("token-1 pusher/0.1.0"), "token-1"));
    assert!(skips_auth(Some("token-1"), "token-1"));
    assert!(skips_auth(Some("anything"), ""));
    assert!(!skips_auth(Some("pusher token-1"), "token-1"));
    assert!(!skips_auth(Some("token"), "token-1"));
    assert!(!skips_auth(None, "token-1"));
    assert!(!skips_auth(None, ""));
    assert!(admits(true, false, false));
    assert!(admits(false, true, true));
    assert!(!admits(false, true, false));
    assert!(!admits(false, false, true));
}

#[test]
fn a_header_without_password_stands_for_the_empty_password() {
    let with = AuthMiddlewareData::from_header("a@b".to_string(), Some("pw".to_string()));
    assert_eq!((with.email.as_str(), with.password_plain.as_str()), ("a@b", "pw"));
    let without = AuthMiddlewareData::from_header("a@b".to_string(), None);
    assert_eq!((without.email.as_str(), without.password_plain.as_str()), ("a@b", ""));
}

#[test]
fn a_user_is_found_under_the_first_id_of_the_address() {
    let ids = vec!["5b".to_string(), "6c".to_string()];
    assert_eq!(User::find_by_email("a@b".to_string(), &ids), Ok("user:5b".to_string()));
    assert_eq!(
        User::find_by_email("a@b".to_string(), &vec![]),
        Err("No user with key: email:a@b".to_string())
    );
}
