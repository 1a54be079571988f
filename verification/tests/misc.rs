use sharinflame::entities::AuthUser;
use sharinflame::session::AuthError;
use sharinflame::password::{check_password, hash_password, store_password};
use sharinflame::perms::{role_permissions, permissions_to_list, Permission};
use sharinflame::response::{AppError, FuncError};
use sharinflame::security::generate_key;
use sharinflame::snowflake::SNOWFLAKE_EPOCH_MS;
use sharinflame::storage::normalize_url;
use sharinflame::users::{user_profile_update_query, ProfileParam, UserProfileUpdate};
use sharinflame::validate::{validate_languages, validate_username};

#[test]
fn normalize_url_cases() {
    assert_eq!(normalize_url(None), None);
    assert_eq!(
        normalize_url(Some("https://example.com/a.png".to_string())),
        Some("https://example.com/a.png".to_string())
    );
    assert_eq!(
        normalize_url(Some("avatars/a.png".to_string())),
        Some("https://storage.sharinflame.com/avatars/a.png".to_string())
    );
}

#[test]
fn role_permission_bits() {
    assert_eq!(role_permissions(&0).bits, 0);
    assert_eq!(role_permissions(&1).bits, 16);
    assert_eq!(role_permissions(&2).bits, 16 | 1 | 2 | 4);
    assert_eq!(role_permissions(&3).bits, 1 | 2 | 4);
    assert_eq!(role_permissions(&4).bits, 16 | 1 | 2 | 4 | 8 | 64);
    assert_eq!(role_permissions(&999).bits, 127);
    assert_eq!(role_permissions(&7).bits, 0);
    assert_eq!(role_permissions(&-1).bits, 0);
    assert_eq!(Permission::all().bits, 127);
}

#[test]
fn permission_lists() {
    assert_eq!(
        permissions_to_list(role_permissions(&4)),
        vec![
            "MODERATE_POSTS",
            "MODERATE_COMMENTS",
            "MODERATE_PROFILES",
            "BAN_USERS",
            "RED_BUTTON",
            "ADMIN_PANEL",
        ]
    );
    assert_eq!(permissions_to_list(role_permissions(&0)), Vec::<&str>::new());
    assert_eq!(permissions_to_list(role_permissions(&1)), vec!["RED_BUTTON"]);
    assert_eq!(
        permissions_to_list(Permission::all()),
        vec![
            "MODERATE_POSTS",
            "MODERATE_COMMENTS",
            "MODERATE_PROFILES",
            "BAN_USERS",
            "RED_BUTTON",
            "REVIEW_APPELLATIONS",
            "ADMIN_PANEL",
        ]
    );
}

#[test]
fn username_rules() {
    assert!(validate_username("abc.def"));
    assert!(validate_username("A_z.9"));
    assert!(validate_username("a.b.c"));
    assert!(!validate_username(""));
    assert!(!validate_username("a..b"));
    assert!(!validate_username("a__b"));
    assert!(!validate_username("a-b"));
    assert!(!validate_username("a b"));
    assert!(!validate_username("ü"));
}

#[test]
fn language_rules() {
    let ok: Vec<String> = vec!["en".to_string(), "de".to_string()];
    assert!(validate_languages(&ok));
    let too_many: Vec<String> = (0..9).map(|i| format!("l{}", i)).collect();
    assert!(!validate_languages(&too_many));
    let too_long: Vec<String> = vec!["x".repeat(17)];
    assert!(!validate_languages(&too_long));
    let edge: Vec<String> = vec!["x".repeat(16)];
    assert!(validate_languages(&edge));
}

#[test]
fn password_round_trip() {
    let stored = store_password("hunter2!").expect("random source works");
    // hex(16-byte salt) + '$' + hex(32-byte hash), all lowercase hex
    assert_eq!(stored.len(), 32 + 1 + 64);
    assert_eq!(stored.as_bytes()[32], b'$');
    for (i, b) in stored.bytes().enumerate() {
        if i != 32 {
            assert!(b.is_ascii_digit() || (b'a'..=b'f').contains(&b), "not lowercase hex at {}", i);
        }
    }
    assert!(check_password(&stored, "hunter2!"));
    assert!(!check_password(&stored, "hunter3!"));
    assert!(!check_password("malformed", "hunter2!"));
    assert!(!check_password("zz$zz", "hunter2!"));
    assert!(!check_password("00$00", "hunter2!"));
}

#[test]
fn password_hash_matches_direct_derivation() {
    let salt = [7u8; 16];
    let ours = hash_password("pw", &salt);
    let mut direct = [0u8; 32];
    pbkdf2::pbkdf2_hmac::<sha2::Sha256>(b"pw", &salt, 10000, &mut direct);
    assert_eq!(ours.as_slice(), &direct);
}

#[test]
fn generate_key_shape() {
    let a = generate_key(16).unwrap();
    let b = generate_key(16).unwrap();
    assert_eq!(a.len(), 24);
    assert_ne!(a, b);
}

#[test]
fn created_at_from_snowflake_id() {
    let ts = 98765u64;
    let id = (ts << 22) | (3u64 << 17) | (1u64 << 12) | 7;
    let user = AuthUser {
        username: "u".to_string(),
        user_id: id.to_string(),
        email: "u@example.com".to_string(),
        password_hash: None,
        email_verified: None,
        pending_email: None,
        pending_email_until: None,
    };
    assert_eq!(user.created_at_ms(), Some(SNOWFLAKE_EPOCH_MS + ts));
    let bad = AuthUser { user_id: "not-a-number".to_string(), ..user };
    assert_eq!(bad.created_at_ms(), None);
}

#[test]
fn profile_update_query_text() {
    let empty = UserProfileUpdate::default();
    assert!(user_profile_update_query(empty).is_none());

    let update = UserProfileUpdate {
        display_name: Some("Neo".to_string()),
        bio: Some("hi".to_string()),
        ..Default::default()
    };
    let (query, params) = user_profile_update_query(update).unwrap();
    assert_eq!(query, "UPDATE user_profiles SET display_name = $2, bio = $3 WHERE user_id = $1");
    assert_eq!(params.len(), 2);
    assert!(matches!(&params[0], ProfileParam::Text(s) if s == "Neo"));
    assert!(matches!(&params[1], ProfileParam::Text(s) if s == "hi"));

    let update = UserProfileUpdate {
        display_name: Some("a".to_string()),
        avatar_context_id: Some("b".to_string()),
        banner_context_id: Some("c".to_string()),
        bio: Some("d".to_string()),
        languages: Some(vec!["en".to_string()]),
    };
    let (query, params) = user_profile_update_query(update).unwrap();
    assert_eq!(
        query,
        "UPDATE user_profiles SET display_name = $2, avatar_context_id = $3, \
         banner_context_id = $4, bio = $5, languages = $6 WHERE user_id = $1"
    );
    assert_eq!(params.len(), 5);
    assert!(matches!(&params[4], ProfileParam::TextList(v) if v == &vec!["en".to_string()]));
}

#[test]
fn error_mappings() {
    assert!(matches!(
        FuncError::UserNotFound.to_app_error(),
        AppError::NotFound("USER_NOT_FOUND")
    ));
    assert!(matches!(
        FuncError::ExpiredToken.to_app_error(),
        AppError::Unauthorized("EXPIRED_TOKEN")
    ));
    assert!(matches!(
        FuncError::InvalidToken.to_app_error(),
        AppError::Unauthorized("INVALID_TOKEN")
    ));
    assert!(matches!(
        FuncError::UsernameExists.to_app_error(),
        AppError::Conflict("USERNAME_EXISTS")
    ));
    assert_eq!(AuthError::ExpiredToken.to_func_error(), FuncError::ExpiredToken);
    assert_eq!(AuthError::StaleSecret.to_func_error(), FuncError::InvalidToken);
    assert_eq!(AuthError::InvalidSignature.to_func_error(), FuncError::Unauthorized);
}
