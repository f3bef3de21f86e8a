use rustdesk_server_pro::time::Timestamp;
use base64::Engine;
use rustdesk_server_pro::user::{
    check_login, hash_password, issue_token, list_users_query, require_affected, strip_bearer,
    subject_of, token_subject, Permission, TokenClaims, TOKEN_LIFETIME_HOURS, User, UserCreateRequest, UserError, UserInfo, UserRole, UserUpdateRequest,
};

fn create(password: &str, role: &str) -> UserCreateRequest {
    UserCreateRequest {
        username: "alice".to_string(),
        email: "alice@example.com".to_string(),
        password: password.to_string(),
        role: role.to_string(),
        organization_id: Some("org".to_string()),
    }
}

fn info(role: &str) -> UserInfo {
    UserInfo {
        id: "u1".to_string(),
        username: "alice".to_string(),
        email: "a@x".to_string(),
        role: role.to_string(),
        organization_id: Some("org".to_string()),
    }
}

#[test]
fn roles_parse_and_print() {
    assert_eq!(UserRole::parse("admin"), Ok(UserRole::Admin));
    assert_eq!(UserRole::parse("OPERATOR"), Ok(UserRole::Operator));
    assert_eq!(UserRole::parse("Viewer"), Ok(UserRole::Viewer));
    assert_eq!(UserRole::parse("root"), Err(()));
    assert_eq!("viewer".parse::<UserRole>(), Ok(UserRole::Viewer));
    for r in [UserRole::Admin, UserRole::Operator, UserRole::Viewer] {
        assert_eq!(UserRole::parse(r.to_str()), Ok(r));
    }
}

#[test]
fn permission_table() {
    for p in [Permission::View, Permission::ManageUsers, Permission::ManageDevices, Permission::Connect] {
        assert!(UserRole::Admin.has_permission(p));
    }
    assert!(UserRole::Operator.has_permission(Permission::View));
    assert!(UserRole::Operator.has_permission(Permission::ManageDevices));
    assert!(UserRole::Operator.has_permission(Permission::Connect));
    assert!(UserRole::Operator.has_permission(Permission::ManageUsers));
    assert!(UserRole::Viewer.has_permission(Permission::View));
    assert!(!UserRole::Viewer.has_permission(Permission::ManageDevices));
    assert!(!UserRole::Viewer.has_permission(Permission::Connect));
    assert!(!UserRole::Viewer.has_permission(Permission::ManageUsers));
}

#[test]
fn creation_checks() {
    assert_eq!(create("short", "admin").validate(), Err(UserError::PasswordTooShort));
    // Eight bytes, though fewer characters, is long enough.
    assert_eq!(create("ééééx", "admin").validate(), Ok(UserRole::Admin));
    assert_eq!(create("long enough", "boss").validate(), Err(UserError::InvalidRole));
    assert_eq!(create("short", "boss").validate(), Err(UserError::PasswordTooShort));
    let r = create("password1", "Operator");
    assert_eq!(r.check_clash(None), Ok(()));
    assert_eq!(
        r.check_clash(Some(("alice".to_string(), "other@x".to_string()))),
        Err(UserError::UsernameExists)
    );
    assert_eq!(
        r.check_clash(Some(("bob".to_string(), "alice@example.com".to_string()))),
        Err(UserError::EmailExists)
    );
    assert_eq!(r.check_clash(Some(("bob".to_string(), "b@x".to_string()))), Ok(()));
    let shown = r.into_info("id-1".to_string(), UserRole::Operator);
    assert_eq!(shown.id, "id-1");
    assert_eq!(shown.role, "operator");
    assert_eq!(shown.organization_id, Some("org".to_string()));
}

#[test]
fn stored_password_signs_in() {
    let hash = hash_password("correct horse").unwrap();
    assert_ne!(hash, "correct horse");
    assert_eq!(check_login("correct horse", &hash, 1), Ok(()));
    assert_eq!(check_login("wrong horse", &hash, 1), Err(UserError::InvalidCredentials));
    assert_eq!(check_login("correct horse", &hash, 0), Err(UserError::UserNotActive));
    assert_eq!(check_login("correct horse", "not a hash", 1), Err(UserError::InvalidCredentials));
}

#[test]
fn updates_merge_with_current() {
    let req = UserUpdateRequest { email: None, role: None, organization_id: None, is_active: None };
    let c = req.merge(info("viewer")).unwrap();
    assert_eq!(c.email, "a@x");
    assert_eq!(c.role, "viewer");
    assert_eq!(c.organization_id, Some("org".to_string()));
    assert!(c.is_active);
    let req = UserUpdateRequest {
        email: Some("n@x".to_string()),
        role: Some("ADMIN".to_string()),
        organization_id: Some("o2".to_string()),
        is_active: Some(false),
    };
    let c = req.merge(info("viewer")).unwrap();
    assert_eq!(c.email, "n@x");
    assert_eq!(c.role, "ADMIN");
    assert_eq!(c.organization_id, Some("o2".to_string()));
    assert!(!c.is_active);
    let req = UserUpdateRequest { email: None, role: Some("chief".to_string()), organization_id: None, is_active: None };
    assert!(matches!(req.merge(info("viewer")), Err(UserError::InvalidRole)));
    let req = UserUpdateRequest { email: None, role: None, organization_id: None, is_active: None };
    assert!(matches!(req.merge(info("ghost")), Err(UserError::InvalidRole)));
}

#[test]
fn tokens_and_bearer_prefix() {
    assert_eq!(strip_bearer("Bearer abc.def"), "abc.def");
    assert_eq!(strip_bearer("abc.def"), "abc.def");
    assert_eq!(strip_bearer("bearer abc"), "bearer abc");
    assert_eq!(strip_bearer("Bearer "), "");
    let c = TokenClaims::for_user(&info("admin"), 1_000);
    assert_eq!(c.sub, "u1");
    assert_eq!(c.role, "admin");
    assert_eq!(c.exp, 1_000 + 24 * 3600);
}

#[test]
fn admin_check_and_user_info() {
    assert!(info("admin").is_admin());
    assert!(!info("Admin").is_admin());
    assert!(!info("operator").is_admin());
    let u = User {
        id: "1".to_string(),
        username: "bob".to_string(),
        email: "b@x".to_string(),
        password_hash: "h".to_string(),
        role: UserRole::Viewer,
        organization_id: None,
        created_at: Timestamp { secs: 0, nanos: 0 },
        last_login: None,
        is_active: true,
    };
    let i = UserInfo::from_user(u);
    assert_eq!(i.role, "viewer");
    assert_eq!(i.username, "bob");
    assert_eq!(i.clone().email, "b@x");
}

#[test]
fn user_queries_and_outcomes() {
    let (q, p) = list_users_query(Some("org9"));
    assert_eq!(q, "SELECT id, username, email, role, organization_id FROM users WHERE organization_id = ?");
    assert_eq!(p, vec!["org9".to_string()]);
    let (q, p) = list_users_query(None);
    assert_eq!(q, "SELECT id, username, email, role, organization_id FROM users");
    assert!(p.is_empty());
    assert_eq!(require_affected(0), Err(UserError::NotFound));
    assert_eq!(require_affected(1), Ok(()));
}

#[test]
fn user_error_messages() {
    assert_eq!(UserError::NotFound.message(), "User not found");
    assert_eq!(UserError::UsernameExists.message(), "Username already exists");
    assert_eq!(UserError::EmailExists.message(), "Email already exists");
    assert_eq!(UserError::InvalidCredentials.message(), "Invalid username or password");
    assert_eq!(UserError::InvalidRole.message(), "Invalid role");
    assert_eq!(UserError::PasswordTooShort.message(), "Password must be at least 8 characters");
    assert_eq!(UserError::UserNotActive.message(), "User is not active");
    assert_eq!(UserError::Unauthorized.message(), "Unauthorized");
    assert_eq!(UserError::DatabaseError("x".to_string()).message(), "Database error: x");
    assert_eq!(UserError::JwtError("y".to_string()).message(), "JWT error: y");
    assert_eq!(UserError::BcryptError("z".to_string()).message(), "BCrypt error: z");
}

fn token_part(token: &str, i: usize) -> String {
    let part = token.split('.').nth(i).unwrap();
    let bytes = base64::engine::general_purpose::URL_SAFE_NO_PAD.decode(part).unwrap();
    String::from_utf8(bytes).unwrap()
}

#[test]
fn issued_token_names_its_user() {
    let now = chrono::Utc::now().timestamp();
    let token = issue_token(&info("operator"), now);
    assert_eq!(token.split('.').count(), 3);
    assert_eq!(token_part(&token, 0), "{\"typ\":\"JWT\",\"alg\":\"HS256\"}");
    let exp = now + TOKEN_LIFETIME_HOURS * 3600;
    assert_eq!(
        token_part(&token, 1),
        format!("{{\"sub\":\"u1\",\"exp\":{},\"role\":\"operator\"}}", exp)
    );
    assert_eq!(token_subject(&format!("Bearer {}", token)), Ok("u1".to_string()));
    assert_eq!(token_subject(&token), Ok("u1".to_string()));
}

#[test]
fn refused_tokens_are_invalid_credentials() {
    let now = chrono::Utc::now().timestamp();
    let token = issue_token(&info("admin"), now);
    // A changed signature.
    let mut forged = token.clone();
    let last = forged.pop().unwrap();
    forged.push(if last == 'A' { 'B' } else { 'A' });
    assert_eq!(token_subject(&forged), Err(UserError::InvalidCredentials));
    // Expired long ago.
    let old = issue_token(&info("admin"), 1_000);
    assert_eq!(token_subject(&old), Err(UserError::InvalidCredentials));
    // Not a token at all.
    assert_eq!(token_subject("Bearer nonsense"), Err(UserError::InvalidCredentials));
    assert_eq!(subject_of(None), Err(UserError::InvalidCredentials));
    assert_eq!(
        subject_of(Some(("u9".to_string(), 5, "viewer".to_string()))),
        Ok("u9".to_string())
    );
}
