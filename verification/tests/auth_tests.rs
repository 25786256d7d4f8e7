use snd_core::auth::{
    accepted_version, handle_entry, motd, validate_password, validate_username, EntryOutcome,
};
use snd_core::messages::{EntryPoint, EntryResponse, LoginData};
use snd_core::store::Database;

fn attempt(user: &str, pass: &str, signup: bool) -> EntryPoint {
    EntryPoint::LoginAttempt(LoginData {
        username: user.to_string(),
        passwd: pass.to_string(),
        signup,
        client_ver: "0.1.0".to_string(),
    })
}

#[test]
fn username_validation_reports_the_specific_refusal() {
    assert_eq!(validate_username(&"eric".to_string()), None);
    assert_eq!(validate_username(&"Eric_123".to_string()), None);
    assert_eq!(validate_username(&"abc".to_string()), None);
    assert_eq!(validate_username(&"a234567890123456".to_string()), None);
    assert_eq!(
        validate_username(&"ab".to_string()),
        Some("Username is too short".to_string())
    );
    assert_eq!(
        validate_username(&"a2345678901234567".to_string()),
        Some("Username is too long".to_string())
    );
    assert_eq!(
        validate_username(&"bad name".to_string()),
        Some("Username must be only letters, numbers, and underscores".to_string())
    );
    assert_eq!(
        validate_username(&"héro".to_string()),
        Some("Username must be only letters, numbers, and underscores".to_string())
    );
    // the character check comes before the length check
    assert_eq!(
        validate_username(&"a!".to_string()),
        Some("Username must be only letters, numbers, and underscores".to_string())
    );
}

#[test]
fn password_validation_reports_the_specific_refusal() {
    assert_eq!(validate_password(&"abcd".to_string()), None);
    assert_eq!(validate_password(&"G00d_P4ss!".to_string()), None);
    assert_eq!(
        validate_password(&"abc".to_string()),
        Some("Password is too short".to_string())
    );
    assert_eq!(
        validate_password(&"a23456789012345678901234567890123".to_string()),
        Some("Password is too long".to_string())
    );
    assert_eq!(
        validate_password(&"has space".to_string()),
        Some("Invalid Password: Password must be plain ascii with no spaces or ''s".to_string())
    );
    assert_eq!(
        validate_password(&"qu'ote".to_string()),
        Some("Invalid Password: Password must be plain ascii with no spaces or ''s".to_string())
    );
    assert_eq!(
        validate_password(&"pässwörd".to_string()),
        Some("Invalid Password: Password must be plain ascii with no spaces or ''s".to_string())
    );
}

#[test]
fn version_probe_is_answered_and_never_yields_a_session() {
    let mut db = Database::new();
    match handle_entry(&mut db, EntryPoint::Version("0.1.0".to_string())) {
        EntryOutcome::Ping(EntryResponse::Version(v)) => assert_eq!(v, accepted_version()),
        other => panic!("unexpected outcome: {:?}", fmt(&other)),
    }
    match handle_entry(&mut db, EntryPoint::Version("9.9.9".to_string())) {
        EntryOutcome::Ping(EntryResponse::Error(m)) => {
            assert_eq!(m, "Invalid version: 0.1.0");
        }
        other => panic!("unexpected outcome: {:?}", fmt(&other)),
    }
    assert!(!db.player_exists(&"eric".to_string()));
}

fn fmt(o: &EntryOutcome) -> String {
    match o {
        EntryOutcome::Ping(r) => format!("Ping({:?})", r),
        EntryOutcome::Reject(r) => format!("Reject({:?})", r),
        EntryOutcome::Accept(u, r) => format!("Accept({}, {:?})", u, r),
    }
}

#[test]
fn signup_on_a_fresh_store_creates_the_player_and_replies_motd() {
    let mut db = Database::new();
    let uuid = match handle_entry(&mut db, attempt("eric", "abcd", true)) {
        EntryOutcome::Accept(uuid, EntryResponse::Motd(m)) => {
            assert_eq!(m, motd());
            uuid
        }
        other => panic!("unexpected outcome: {}", fmt(&other)),
    };
    let rec = db.get_player(&uuid).expect("player created");
    assert_eq!(rec.username, "eric");
    assert_eq!(rec.password, "abcd");
    assert_eq!(rec.level, 1);
    assert_eq!(rec.exp, 0);
    assert_eq!(rec.health, 100);
    assert_eq!(rec.region, "Plains of Arenlok");
    assert!(rec.active, "the new identity is bound to the session");
}

#[test]
fn signup_refusals_leave_the_store_untouched() {
    let mut db = Database::new();
    match handle_entry(&mut db, attempt("eric", "abcd", true)) {
        EntryOutcome::Accept(..) => {}
        other => panic!("unexpected outcome: {}", fmt(&other)),
    }
    match handle_entry(&mut db, attempt("eric", "wxyz", true)) {
        EntryOutcome::Reject(EntryResponse::Error(m)) => {
            assert_eq!(m, "Username already exists");
        }
        other => panic!("unexpected outcome: {}", fmt(&other)),
    }
    match handle_entry(&mut db, attempt("x", "abcd", true)) {
        EntryOutcome::Reject(EntryResponse::Error(m)) => {
            assert_eq!(m, "Username is too short");
        }
        other => panic!("unexpected outcome: {}", fmt(&other)),
    }
    match handle_entry(&mut db, attempt("newbie", "a b", true)) {
        EntryOutcome::Reject(EntryResponse::Error(m)) => {
            assert_eq!(
                m,
                "Invalid Password: Password must be plain ascii with no spaces or ''s"
            );
        }
        other => panic!("unexpected outcome: {}", fmt(&other)),
    }
    assert!(!db.player_exists(&"x".to_string()));
    assert!(!db.player_exists(&"newbie".to_string()));
}

#[test]
fn login_succeeds_exactly_on_matching_inactive_credentials() {
    let mut db = Database::new();
    let uuid = match handle_entry(&mut db, attempt("eric", "abcd", true)) {
        EntryOutcome::Accept(uuid, _) => uuid,
        other => panic!("unexpected outcome: {}", fmt(&other)),
    };
    // the signup bound a session; a login while it lives is refused
    match handle_entry(&mut db, attempt("eric", "abcd", false)) {
        EntryOutcome::Reject(EntryResponse::Error(m)) => assert_eq!(m, "Already Online"),
        other => panic!("unexpected outcome: {}", fmt(&other)),
    }
    assert!(db.set_player_inactive(&uuid));
    match handle_entry(&mut db, attempt("eric", "nope", false)) {
        EntryOutcome::Reject(EntryResponse::Error(m)) => assert_eq!(m, "Invalid Password"),
        other => panic!("unexpected outcome: {}", fmt(&other)),
    }
    match handle_entry(&mut db, attempt("ghost", "abcd", false)) {
        EntryOutcome::Reject(EntryResponse::Error(m)) => assert_eq!(m, "Invalid User"),
        other => panic!("unexpected outcome: {}", fmt(&other)),
    }
    match handle_entry(&mut db, attempt("eric", "abcd", false)) {
        EntryOutcome::Accept(u, EntryResponse::Motd(_)) => assert_eq!(u, uuid),
        other => panic!("unexpected outcome: {}", fmt(&other)),
    }
    assert!(db.is_player_active(&uuid));
    // and the second concurrent login is refused again
    match handle_entry(&mut db, attempt("eric", "abcd", false)) {
        EntryOutcome::Reject(EntryResponse::Error(m)) => assert_eq!(m, "Already Online"),
        other => panic!("unexpected outcome: {}", fmt(&other)),
    }
}
