use invidious::auth::{
    base64_encode, hash_outcome, hash_password, login_gate, login_verdict, normalize_email,
    normalize_password, password_accepted, register_gate, register_verdict, session_id,
    sid_from_cookies, truncate_utf8, update_password_verdict, verify_password, AuthError, AuthUser,
};

#[test]
fn test_base64_encode() {
    let test_data = b"Hello";
    let encoded = base64_encode(test_data);
    assert_eq!(encoded, "SGVsbG8");
}

#[test]
fn base64_groups_and_tails() {
    assert_eq!(base64_encode(b""), "");
    assert_eq!(base64_encode(b"f"), "Zg");
    assert_eq!(base64_encode(b"fo"), "Zm8");
    assert_eq!(base64_encode(b"foo"), "Zm9v");
    assert_eq!(base64_encode(b"foobar"), "Zm9vYmFy");
}

#[test]
fn base64_uses_url_safe_alphabet() {
    assert_eq!(base64_encode(&[0xfb, 0xff]), "-_8");
    assert_eq!(base64_encode(&[0xff, 0xff, 0xff]), "____");
    assert_eq!(base64_encode(&[0xfb, 0xef, 0xbe]), "----");
}

#[test]
fn session_id_is_43_url_safe_characters() {
    let mut bytes = [0u8; 32];
    for (i, b) in bytes.iter_mut().enumerate() {
        *b = (i as u8).wrapping_mul(37).wrapping_add(200);
    }
    let sid = session_id(&bytes);
    assert_eq!(sid.len(), 43);
    assert!(sid
        .chars()
        .all(|c| c.is_ascii_alphanumeric() || c == '-' || c == '_'));
}

#[test]
fn session_id_is_the_bytes_in_base64() {
    assert_eq!(session_id(&[0u8; 32]), "A".repeat(43));
    assert_eq!(session_id(&[0xffu8; 32]), format!("{}8", "_".repeat(42)));
    let bytes = [7u8; 32];
    assert_eq!(session_id(&bytes), base64_encode(&bytes));
    let mut other = bytes;
    other[31] = 8;
    assert_ne!(session_id(&bytes), session_id(&other));
}

#[test]
fn base64_decodes_back_to_its_bytes() {
    let value = |c: u8| -> u32 {
        match c {
            b'A'..=b'Z' => (c - b'A') as u32,
            b'a'..=b'z' => (c - b'a') as u32 + 26,
            b'0'..=b'9' => (c - b'0') as u32 + 52,
            b'-' => 62,
            _ => 63,
        }
    };
    for len in 0..40usize {
        let data: Vec<u8> = (0..len).map(|i| (i * 97 + len * 13) as u8).collect();
        let text = base64_encode(&data);
        let mut back = Vec::new();
        let mut acc: u32 = 0;
        let mut bits = 0;
        for c in text.bytes() {
            acc = (acc << 6) | value(c);
            bits += 6;
            if bits >= 8 {
                bits -= 8;
                back.push((acc >> bits) as u8);
                acc &= (1 << bits) - 1;
            }
        }
        assert_eq!(back, data);
    }
}

#[test]
fn truncation_keeps_whole_characters() {
    assert_eq!(truncate_utf8("hello", 10), "hello");
    assert_eq!(truncate_utf8("hello", 3), "hel");
    assert_eq!(truncate_utf8("", 3), "");
    // 'é' takes two bytes: cutting after its first byte leaves a replacement character.
    assert_eq!(truncate_utf8("aé", 2), "a\u{FFFD}");
    assert_eq!(truncate_utf8("aé", 3), "aé");
    assert_eq!(truncate_utf8("aéb", 3), "aé");
}

#[test]
fn normalised_email_is_lowercase_and_short() {
    assert_eq!(normalize_email("User@Example.COM"), "user@example.com");
    let long = "A".repeat(300);
    assert_eq!(normalize_email(&long), "a".repeat(254));
}

#[test]
fn normalised_password_is_cut_at_55_bytes() {
    let long = "x".repeat(60);
    assert_eq!(normalize_password(&long), "x".repeat(55));
    assert_eq!(normalize_password("short"), "short");
    let cut = format!("{}é", "x".repeat(54));
    assert_eq!(normalize_password(&cut), format!("{}\u{FFFD}", "x".repeat(54)));
}

#[test]
fn hashed_password_verifies() {
    let stored = normalize_password("hunter2");
    let hash = hash_password(&stored).unwrap();
    assert_eq!(hash.len(), 60);
    assert!(hash.starts_with("$2b$10$"));
    assert!(verify_password("hunter2", &hash));
    assert!(!verify_password("hunter3", &hash));
}

#[test]
fn long_passwords_compare_on_their_first_55_bytes() {
    let first = format!("{}{}", "p".repeat(55), "tail-one");
    let second = format!("{}{}", "p".repeat(55), "tail-two");
    let hash = hash_password(&normalize_password(&first)).unwrap();
    assert!(verify_password(&second, &hash));
}

#[test]
fn a_malformed_hash_rejects_every_password() {
    assert!(!verify_password("anything", "not a hash"));
    assert!(!password_accepted(None));
    assert!(!password_accepted(Some(false)));
    assert!(password_accepted(Some(true)));
}

#[test]
fn hash_failure_becomes_a_database_error() {
    match hash_outcome(Err("no randomness".to_string())) {
        Err(AuthError::Database(m)) => assert_eq!(m, "bcrypt error: no randomness"),
        other => panic!("unexpected {:?}", other),
    }
    match hash_outcome(Ok("h".to_string())) {
        Ok(h) => assert_eq!(h, "h"),
        other => panic!("unexpected {:?}", other),
    }
}

#[test]
fn login_decisions() {
    assert!(matches!(login_gate(false), Err(AuthError::LoginDisabled)));
    assert!(login_gate(true).is_ok());
    assert!(matches!(login_verdict(true, None, "pw"), Err(AuthError::UserNotFound)));
    assert!(matches!(login_verdict(false, None, "pw"), Err(AuthError::RegistrationDisabled)));
    assert!(matches!(login_verdict(true, Some(None), "pw"), Err(AuthError::InvalidPassword)));
    let hash = hash_password("pw").unwrap();
    assert!(login_verdict(true, Some(Some(&hash)), "pw").is_ok());
    assert!(matches!(
        login_verdict(true, Some(Some(&hash)), "other"),
        Err(AuthError::InvalidPassword)
    ));
}

#[test]
fn registration_decisions() {
    assert!(matches!(register_gate(false, true), Err(AuthError::LoginDisabled)));
    assert!(matches!(register_gate(false, false), Err(AuthError::LoginDisabled)));
    assert!(matches!(register_gate(true, false), Err(AuthError::RegistrationDisabled)));
    assert!(register_gate(true, true).is_ok());
    assert!(matches!(register_verdict(true), Err(AuthError::UserNotFound)));
    assert!(register_verdict(false).is_ok());
}

#[test]
fn password_change_decisions() {
    assert!(matches!(update_password_verdict(None, "old"), Err(AuthError::UserNotFound)));
    assert!(matches!(update_password_verdict(Some(None), "old"), Err(AuthError::InvalidPassword)));
    let hash = hash_password("old").unwrap();
    assert!(update_password_verdict(Some(Some(&hash)), "old").is_ok());
    assert!(matches!(
        update_password_verdict(Some(Some(&hash)), "new"),
        Err(AuthError::InvalidPassword)
    ));
}

#[test]
fn registered_password_logs_in() {
    let typed = "Correct Horse Battery Staple and then some more words to pass 55 bytes";
    let hash = hash_password(&normalize_password(typed)).unwrap();
    assert!(login_verdict(true, Some(Some(&hash)), typed).is_ok());
    assert!(update_password_verdict(Some(Some(&hash)), typed).is_ok());
}

#[test]
fn session_cookie_is_found() {
    assert_eq!(sid_from_cookies("SID=abc"), Some("abc".to_string()));
    assert_eq!(
        sid_from_cookies("theme=dark; SID=xyz; PREFS=1"),
        Some("xyz".to_string())
    );
    assert_eq!(sid_from_cookies("  SID=first ;SID=second"), Some("first".to_string()));
    assert_eq!(sid_from_cookies("theme=dark"), None);
    assert_eq!(sid_from_cookies(""), None);
    assert_eq!(sid_from_cookies("XSID=no"), None);
}

#[test]
fn error_messages() {
    assert_eq!(AuthError::UserNotFound.message(), "User not found");
    assert_eq!(AuthError::InvalidPassword.message(), "Invalid password");
    assert_eq!(AuthError::LoginDisabled.message(), "Login disabled");
    assert_eq!(AuthError::RegistrationDisabled.message(), "Registration disabled");
    assert_eq!(AuthError::InvalidSession.message(), "Session expired or invalid");
    assert_eq!(
        AuthError::Database("gone".to_string()).message(),
        "Database error: gone"
    );
}

#[test]
fn user_of_an_email() {
    let u = AuthUser::for_email("a@b.c".to_string());
    assert_eq!(u.email, "a@b.c");
    assert_eq!(u.username, "a@b.c");
}

#[test]
fn normalised_passwords_are_their_own_normal_form() {
    for p in [
        "short".to_string(),
        "x".repeat(80),
        format!("{}é", "x".repeat(54)),
        format!("{}é", "x".repeat(52)),
        format!("{}€tail", "y".repeat(53)),
    ] {
        let once = normalize_password(&p);
        assert_eq!(normalize_password(&once), once);
    }
}
