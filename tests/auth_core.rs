use account_auth::auth::{GuardStep, RequireAuth, UserLookup};
use account_auth::dtos::{FilterUserDto, LoginUserDto, RegisterUserDto, RequestQueryDto};
use account_auth::error::{ErrorMessage, HttpError};
use account_auth::handler::auth::{
    login_request, login_response, login_response_at, register_request, register_response,
    SaveOutcome,
};
use account_auth::handler::users::{get_me, get_users, list_params};
use account_auth::models::{User, UserRole};
use account_auth::password::{compare, hash, MAX_PASSWORD_LENGTH};
use account_auth::token::{create_token, create_token_at, decode_token, decode_token_at};

const SECRET: &[u8] = b"test-signing-secret";

fn user(id: &str, email: &str, password_hash: &str, role: UserRole) -> User {
    User {
        id: id.to_string(),
        name: "Ana".to_string(),
        email: email.to_string(),
        password: password_hash.to_string(),
        role,
        photo: "default.png".to_string(),
        verified: false,
        created_at: Some(1_700_000_000),
        updated_at: Some(1_700_000_100),
    }
}

fn register_dto(email: &str, password: &str, confirm: &str) -> RegisterUserDto {
    RegisterUserDto {
        name: "Ana".to_string(),
        email: email.to_string(),
        password: password.to_string(),
        password_confirmation: confirm.to_string(),
    }
}

/// An in-memory stand-in for the persistence collaborator.
struct Store {
    users: Vec<User>,
}

impl Store {
    fn save(&mut self, name: &str, email: &str, password_hash: &str) -> SaveOutcome {
        if self.users.iter().any(|u| u.email == email) {
            return SaveOutcome::DuplicateEmail;
        }
        let mut u = user(&format!("id-{}", self.users.len() + 1), email, password_hash, UserRole::User);
        u.name = name.to_string();
        self.users.push(u.clone());
        SaveOutcome::Saved(u)
    }

    fn by_email(&self, email: &str) -> UserLookup {
        match self.users.iter().find(|u| u.email == email) {
            Some(u) => UserLookup::Found(u.clone()),
            None => UserLookup::NotFound,
        }
    }

    fn by_id(&self, id: &str) -> UserLookup {
        match self.users.iter().find(|u| u.id == id) {
            Some(u) => UserLookup::Found(u.clone()),
            None => UserLookup::NotFound,
        }
    }
}

#[test]
fn password_round_trip() {
    let h = hash("123456").unwrap();
    assert_ne!(h, "123456");
    assert_eq!(compare("123456", &h), Ok(true));
    assert_eq!(compare("1234567", &h), Ok(false));
}

#[test]
fn password_length_errors() {
    assert_eq!(hash(""), Err(ErrorMessage::EmptyPassword));
    let long = "a".repeat(MAX_PASSWORD_LENGTH + 1);
    assert_eq!(hash(&long), Err(ErrorMessage::HashingError));
    let longest = "a".repeat(MAX_PASSWORD_LENGTH);
    let h = hash(&longest).unwrap();
    assert_eq!(compare(&longest, &h), Ok(true));
    assert_eq!(compare(&long, &h), Ok(false));
    assert_eq!(compare("", &h), Ok(false));
    assert_eq!(compare("", "x"), Err(ErrorMessage::InvalidHashFormate));
}

#[test]
fn password_bad_hash_format() {
    assert_eq!(compare("123456", "not a hash"), Err(ErrorMessage::InvalidHashFormate));
}

#[test]
fn token_round_trip() {
    let t = create_token_at("user-1", SECRET, 1000, 60).unwrap();
    let c = decode_token_at(&t, SECRET, 1059).unwrap();
    assert_eq!(c.sub, "user-1");
    assert_eq!(c.iat, 1000);
    assert_eq!(c.exp, 1060);
}

#[test]
fn token_layout() {
    let t = create_token_at("a.b", SECRET, -5, 10).unwrap();
    let (tag, payload) = t.split_once('.').unwrap();
    assert_eq!(tag.len(), 64);
    assert!(tag.chars().all(|c| c.is_ascii_hexdigit() && !c.is_ascii_uppercase()));
    assert_eq!(payload, "-5.5.a.b");
    assert_eq!(decode_token_at(&t, SECRET, 0).unwrap().sub, "a.b");
}

#[test]
fn token_with_clock() {
    let t = create_token("user-9", SECRET, 3600).unwrap();
    assert_eq!(decode_token(&t, SECRET).unwrap().sub, "user-9");
}

#[test]
fn token_other_secret_rejected() {
    let t = create_token_at("user-1", SECRET, 1000, 60).unwrap();
    assert_eq!(decode_token_at(&t, b"another-secret", 1001).unwrap_err(), ErrorMessage::InvalidToken);
}

#[test]
fn token_expired_rejected() {
    let t = create_token_at("user-1", SECRET, 1000, 60).unwrap();
    assert_eq!(decode_token_at(&t, SECRET, 1060).unwrap_err(), ErrorMessage::InvalidToken);
    assert_eq!(decode_token_at(&t, SECRET, 5000).unwrap_err(), ErrorMessage::InvalidToken);
}

#[test]
fn token_tampered_rejected() {
    let t = create_token_at("user-1", SECRET, 1000, 60).unwrap();
    let forged = t.replace(".user-1", ".user-2");
    assert_eq!(decode_token_at(&forged, SECRET, 1001).unwrap_err(), ErrorMessage::InvalidToken);
    let padded = t.replace(".1000.", ".01000.");
    assert_eq!(decode_token_at(&padded, SECRET, 1001).unwrap_err(), ErrorMessage::InvalidToken);
    assert_eq!(decode_token_at("", SECRET, 0).unwrap_err(), ErrorMessage::InvalidToken);
    assert_eq!(decode_token_at("abc", SECRET, 0).unwrap_err(), ErrorMessage::InvalidToken);
}

#[test]
fn token_expiry_overflow() {
    assert_eq!(create_token_at("u", SECRET, i64::MAX, 1), Err(ErrorMessage::ServerError));
}

#[test]
fn guard_extraction_prefers_bearer() {
    assert_eq!(RequireAuth::extract_token(Some("Bearer abc"), Some("def")), Some("abc".to_string()));
    assert_eq!(RequireAuth::extract_token(Some("Basic abc"), Some("def")), Some("def".to_string()));
    assert_eq!(RequireAuth::extract_token(None, Some("def")), Some("def".to_string()));
    assert_eq!(RequireAuth::extract_token(Some("Bearer "), None), None);
    assert_eq!(RequireAuth::extract_token(None, Some("")), None);
}

#[test]
fn guard_no_credential() {
    let guard = RequireAuth::allowed_roles(vec![UserRole::Admin], SECRET.to_vec());
    match guard.begin_at(None, None, 0) {
        GuardStep::Reject(e) => assert_eq!(e, ErrorMessage::TokenNotProvided),
        GuardStep::Lookup(_) => panic!("no credential must not reach a lookup"),
    }
}

#[test]
fn guard_invalid_token() {
    let guard = RequireAuth::allowed_roles(vec![UserRole::Admin], SECRET.to_vec());
    match guard.begin_at(Some("Bearer garbage"), None, 0) {
        GuardStep::Reject(e) => assert_eq!(e, ErrorMessage::InvalidToken),
        GuardStep::Lookup(_) => panic!("a bad token must not reach a lookup"),
    }
}

#[test]
fn guard_admin_only() {
    let guard = RequireAuth::allowed_roles(vec![UserRole::Admin], SECRET.to_vec());
    let t = create_token_at("id-1", SECRET, 1000, 60).unwrap();
    let header = format!("Bearer {}", t);
    let claims = match guard.begin_at(Some(&header), None, 1001) {
        GuardStep::Lookup(c) => c,
        GuardStep::Reject(e) => panic!("unexpected rejection {:?}", e),
    };
    assert_eq!(claims.sub, "id-1");
    let plain = user("id-1", "a@b.com", "h", UserRole::User);
    assert_eq!(guard.finish(UserLookup::Found(plain)).unwrap_err(), ErrorMessage::PermissionDenied);
    let admin = user("id-1", "a@b.com", "h", UserRole::Admin);
    assert_eq!(guard.finish(UserLookup::Found(admin)).unwrap().id, "id-1");
    assert!(!guard.role_allowed(UserRole::Moderator));
}

#[test]
fn guard_deleted_user() {
    let guard = RequireAuth::allowed_roles(vec![UserRole::User, UserRole::Moderator, UserRole::Admin], SECRET.to_vec());
    let t = create_token_at("id-7", SECRET, 1000, 60).unwrap();
    match guard.begin_at(None, Some(&t), 1001) {
        GuardStep::Lookup(c) => assert_eq!(c.sub, "id-7"),
        GuardStep::Reject(e) => panic!("unexpected rejection {:?}", e),
    }
    let store = Store { users: Vec::new() };
    assert_eq!(guard.finish(store.by_id("id-7")).unwrap_err(), ErrorMessage::UserNoLongerExist);
    assert_eq!(guard.finish(UserLookup::Failed).unwrap_err(), ErrorMessage::ServerError);
}

#[test]
fn register_then_duplicate() {
    let mut store = Store { users: Vec::new() };
    let dto = register_dto("a@b.com", "123456", "123456");
    let h = register_request(&dto).unwrap();
    let saved = register_response(store.save(&dto.name, &dto.email, &h)).unwrap();
    assert_eq!(saved.status, "success");
    assert_eq!(saved.data.user.email, "a@b.com");
    assert_eq!(saved.data.user.role, "user");
    assert_eq!(compare("123456", &store.users[0].password), Ok(true));
    let again = register_response(store.save(&dto.name, &dto.email, &h)).unwrap_err();
    assert_eq!(again.status, 409);
    assert_eq!(again.message, "Já existe um usuário com este e-mail.");
}

#[test]
fn register_validation() {
    let e = register_request(&register_dto("a@b.com", "123456", "654321")).unwrap_err();
    assert_eq!((e.status, e.message.as_str()), (400, "As senhas não correspondem!"));
    let e = register_request(&register_dto("nope", "123456", "123456")).unwrap_err();
    assert_eq!((e.status, e.message.as_str()), (400, "Email inválido!"));
    let e = register_request(&register_dto("", "123456", "123456")).unwrap_err();
    assert_eq!(e.message, "Email é obrigatório!");
    let e = register_request(&register_dto("a@b.com", "123", "123")).unwrap_err();
    assert_eq!(e.message, "Senha deve ter no minimo 6 caracteres!");
    let mut dto = register_dto("a@b.com", "123456", "123456");
    dto.name = String::new();
    assert_eq!(dto.validate().unwrap_err(), "Nome é obrigatório!");
}

#[test]
fn register_failures() {
    let e = register_response(SaveOutcome::Failed).unwrap_err();
    assert_eq!((e.status, e.message.as_str()), (500, "Erro no servidor. Tente novamente mais tarde."));
    let mut u = user("id-1", "a@b.com", "h", UserRole::User);
    u.created_at = None;
    assert_eq!(register_response(SaveOutcome::Saved(u)).unwrap_err().status, 500);
}

#[test]
fn login_scenario() {
    let mut store = Store { users: Vec::new() };
    let dto = register_dto("a@b.com", "123456", "123456");
    let h = register_request(&dto).unwrap();
    register_response(store.save(&dto.name, &dto.email, &h)).unwrap();

    let wrong = LoginUserDto { email: "a@b.com".to_string(), password: "1234567".to_string() };
    login_request(&wrong).unwrap();
    let e = login_response_at(&wrong, store.by_email("a@b.com"), SECRET, 60, 1000).unwrap_err();
    assert_eq!((e.status, e.message.as_str()), (401, "E-mail ou senha estão incorretos."));

    let unknown = LoginUserDto { email: "x@b.com".to_string(), password: "123456".to_string() };
    let e = login_response_at(&unknown, store.by_email("x@b.com"), SECRET, 60, 1000).unwrap_err();
    assert_eq!((e.status, e.message.as_str()), (401, "E-mail ou senha estão incorretos."));

    let right = LoginUserDto { email: "a@b.com".to_string(), password: "123456".to_string() };
    let ok = login_response_at(&right, store.by_email("a@b.com"), SECRET, 60, 1000).unwrap();
    assert_eq!(ok.status, "success");
    let claims = decode_token_at(&ok.token, SECRET, 1001).unwrap();
    assert_eq!(claims.sub, store.users[0].id);
    let guard = RequireAuth::allowed_roles(vec![UserRole::User], SECRET.to_vec());
    assert_eq!(guard.finish(store.by_id(&claims.sub)).unwrap().id, store.users[0].id);
}

#[test]
fn login_validation() {
    let bad = LoginUserDto { email: "a@b.com".to_string(), password: "".to_string() };
    let e = login_request(&bad).unwrap_err();
    assert_eq!((e.status, e.message.as_str()), (400, "Senha é obrigatório!"));
    let e = login_response_at(&bad, UserLookup::Failed, SECRET, 60, 0).unwrap_err();
    assert_eq!(e.status, 500);
}

#[test]
fn error_messages() {
    assert_eq!(ErrorMessage::ExceededMaxPasswordLength(64).to_str(), "A senha não deve ter mais de 64 caracteres.");
    assert_eq!(ErrorMessage::InvalidToken.to_str(), "O token de autenticação é inválido ou expirou.");
    assert_eq!(ErrorMessage::TokenNotProvided.to_str(), "Você não está logado, por favor forneça um token.");
    let e = ErrorMessage::PermissionDenied.into_http_error();
    assert_eq!(e.status, 403);
    assert_eq!(ErrorMessage::UserNoLongerExist.into_http_error().status, 401);
    assert_eq!(ErrorMessage::HashingError.into_http_error().status, 500);
}

#[test]
fn http_error_constructors() {
    assert_eq!(HttpError::new("m".to_string(), 418).status, 418);
    assert_eq!(HttpError::server_error("m".to_string()).status, 500);
    assert_eq!(HttpError::bat_request("m".to_string()).status, 400);
    assert_eq!(HttpError::unique_constraint_violation("m".to_string()).status, 409);
    assert_eq!(HttpError::unauthorized("m".to_string()).status, 401);
    assert_eq!(HttpError::forbidden("m".to_string()).message, "m");
}

#[test]
fn response_parts() {
    let (status, body) = HttpError::unauthorized("no".to_string()).into_response_parts();
    assert_eq!((status, body.status.as_str(), body.message.as_str()), (401, "fail", "no"));
    let (status, body) = HttpError::new("teapot".to_string(), 418).into_response_parts();
    assert_eq!((status, body.status.as_str()), (500, "error"));
    assert_eq!(body.message, "Erro no servidor. Tente novamente mais tarde.");
}

#[test]
fn listing_params_and_users() {
    assert_eq!(list_params(&RequestQueryDto { page: None, limit: None }).unwrap(), (1, 10));
    assert_eq!(list_params(&RequestQueryDto { page: Some(3), limit: Some(50) }).unwrap(), (3, 50));
    assert_eq!(list_params(&RequestQueryDto { page: Some(0), limit: None }).unwrap_err().status, 400);
    assert_eq!(list_params(&RequestQueryDto { page: None, limit: Some(51) }).unwrap_err().status, 400);
    let users = vec![
        user("1", "a@b.com", "h1", UserRole::Admin),
        user("2", "c@d.com", "h2", UserRole::Moderator),
    ];
    let list = get_users(&users);
    assert_eq!(list.results, 2);
    assert_eq!(list.users[1].role, "moderator");
    assert_eq!(list.users[0].created_at, 1_700_000_000);
    let me = get_me(&users[0]);
    assert_eq!(me.data.user.id, "1");
    let f = FilterUserDto::filter_user(&users[1]);
    assert_eq!((f.email.as_str(), f.updated_at), ("c@d.com", 1_700_000_100));
}

#[test]
fn role_names() {
    assert_eq!(UserRole::Admin.to_str(), "admin");
    assert_eq!(UserRole::User.to_str(), "user");
}

#[test]
fn login_unparseable_stored_hash() {
    let body = LoginUserDto { email: "a@b.com".to_string(), password: "123456".to_string() };
    let stored = user("id-1", "a@b.com", "not a phc string", UserRole::User);
    let e = login_response_at(&body, UserLookup::Found(stored), SECRET, 60, 1000).unwrap_err();
    assert_eq!((e.status, e.message.as_str()), (500, "Erro no servidor. Tente novamente mais tarde."));
}

#[test]
fn login_with_clock() {
    let h = hash("123456").unwrap();
    let stored = user("id-3", "a@b.com", &h, UserRole::User);
    let body = LoginUserDto { email: "a@b.com".to_string(), password: "123456".to_string() };
    let ok = login_response(&body, UserLookup::Found(stored), SECRET, 3600).unwrap();
    assert_eq!(decode_token(&ok.token, SECRET).unwrap().sub, "id-3");
}

#[test]
fn register_hashing_failure_is_generic() {
    let long = "a".repeat(MAX_PASSWORD_LENGTH + 1);
    let e = register_request(&register_dto("a@b.com", &long, &long)).unwrap_err();
    assert_eq!((e.status, e.message.as_str()), (500, "Erro no servidor. Tente novamente mais tarde."));
}

#[test]
fn stored_hash_differs_from_password() {
    let h = register_request(&register_dto("a@b.com", "123456", "123456")).unwrap();
    assert_ne!(h, "123456");
    assert!(h.chars().count() > MAX_PASSWORD_LENGTH);
}
