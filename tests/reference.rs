use argon2::password_hash::{PasswordHasher, SaltString};
use ghost_api::error::PlanError;
use ghost_api::reference::{AccountItem, AccountItemService, AccountType, AuthService, ReferenceStore, Service, ServiceService, User, UserRole};

fn hash(password: &str) -> String {
    let salt = SaltString::encode_b64(b"fixed-test-salt!").unwrap();
    argon2::Argon2::default().hash_password(password.as_bytes(), &salt).unwrap().to_string()
}

#[test]
fn account_items_need_name_and_code() {
    assert!(matches!(AccountItem::new(" ".to_string(), "4000".to_string(), None, AccountType::Revenue, 1), Err(PlanError::ValidationError)));
    assert!(matches!(AccountItem::new("Sales".to_string(), "".to_string(), None, AccountType::Revenue, 1), Err(PlanError::ValidationError)));
    let a = AccountItem::new("Sales".to_string(), "4000".to_string(), None, AccountType::Revenue, 1).unwrap();
    assert_eq!(a.code, "4000");
    assert_eq!(a.account_type, AccountType::Revenue);
}

#[test]
fn service_slugs_are_checked() {
    assert!(Service::new("Web".to_string(), "web-shop-2".to_string(), 1).is_ok());
    assert!(matches!(Service::new("Web".to_string(), "Web".to_string(), 1), Err(PlanError::ValidationError)));
    assert!(matches!(Service::new("Web".to_string(), "web shop".to_string(), 1), Err(PlanError::ValidationError)));
    assert!(matches!(Service::new("Web".to_string(), "".to_string(), 1), Err(PlanError::ValidationError)));
    assert!(matches!(Service::new("Web".to_string(), "web\n".to_string(), 1), Err(PlanError::ValidationError)));
    assert!(matches!(Service::new("Web".to_string(), "café".to_string(), 1), Err(PlanError::ValidationError)));
    assert!(Service::new("Web".to_string(), "-".to_string(), 1).is_ok());
    assert!(matches!(Service::new(" ".to_string(), "web".to_string(), 1), Err(PlanError::ValidationError)));
}

#[test]
fn service_check_given_the_slug_test() {
    assert!(Service::checked("Web".to_string(), "x".to_string(), 1, Some(true)).is_ok());
    assert!(Service::checked("Web".to_string(), "x".to_string(), 1, Some(false)).is_err());
    assert!(Service::checked("Web".to_string(), "x".to_string(), 1, None).is_err());
}

#[test]
fn service_slugs_are_unique() {
    let mut store = ReferenceStore::new();
    let svc = ServiceService::new();
    svc.create(&mut store, "Web".to_string(), "web".to_string(), 2).unwrap();
    assert!(matches!(svc.create(&mut store, "Other".to_string(), "web".to_string(), 1), Err(PlanError::ValidationError)));
    svc.create(&mut store, "App".to_string(), "app".to_string(), 1).unwrap();
    let slugs: Vec<String> = svc.list_all(&store).into_iter().map(|s| s.slug).collect();
    assert_eq!(slugs, vec!["app".to_string(), "web".to_string()]);
}

#[test]
fn accounts_are_listed_by_display_order() {
    let mut store = ReferenceStore::new();
    let svc = AccountItemService::new();
    svc.create(&mut store, "B".to_string(), "2".to_string(), None, AccountType::CostOfGoodsSold, 2).unwrap();
    svc.create(&mut store, "A".to_string(), "1".to_string(), None, AccountType::Revenue, 1).unwrap();
    assert!(svc.create(&mut store, "C".to_string(), " ".to_string(), None, AccountType::SellingGeneralAdmin, 0).is_err());
    let codes: Vec<String> = svc.list_all(&store).into_iter().map(|a| a.code).collect();
    assert_eq!(codes, vec!["1".to_string(), "2".to_string()]);
}

#[test]
fn users_sign_up_once_and_sign_in_with_their_password() {
    let mut store = ReferenceStore::new();
    let auth = AuthService::new();
    let u = auth.signup(&mut store, "Ann".to_string(), "ann@example.com".to_string(), hash("secret-pw")).unwrap();
    assert_eq!(u.role, UserRole::Member);
    assert!(!u.is_admin());
    assert!(matches!(auth.signup(&mut store, "Ann".to_string(), "ann@example.com".to_string(), hash("x")), Err(PlanError::ValidationError)));
    let found = auth.login(&store, "ann@example.com".to_string(), "secret-pw".to_string()).unwrap();
    assert_eq!(found.id, u.id);
    assert!(matches!(auth.login(&store, "ann@example.com".to_string(), "wrong".to_string()), Err(PlanError::InvalidCredentials)));
    assert!(matches!(auth.login(&store, "bob@example.com".to_string(), "secret-pw".to_string()), Err(PlanError::InvalidCredentials)));
}

#[test]
fn users_need_a_name() {
    assert!(matches!(User::new(" ".to_string(), "a@b.c".to_string(), "h".to_string()), Err(PlanError::ValidationError)));
    let mut u = User::new("A".to_string(), "a@b.c".to_string(), "h".to_string()).unwrap();
    u.role = UserRole::Admin;
    assert!(u.is_admin());
}

#[test]
fn sign_in_decision_given_the_password_check() {
    let mut store = ReferenceStore::new();
    let auth = AuthService::new();
    let u = auth.signup(&mut store, "Ann".to_string(), "ann@example.com".to_string(), "stored".to_string()).unwrap();
    let email = "ann@example.com".to_string();
    assert_eq!(auth.login_checked(&store, &email, Some(true)).unwrap().id, u.id);
    assert!(matches!(auth.login_checked(&store, &email, Some(false)), Err(PlanError::InvalidCredentials)));
    assert!(matches!(auth.login_checked(&store, &email, None), Err(PlanError::InvalidCredentials)));
    let other = "bob@example.com".to_string();
    assert!(matches!(auth.login_checked(&store, &other, Some(true)), Err(PlanError::InvalidCredentials)));
}

#[test]
fn malformed_stored_hash_never_signs_in() {
    let mut store = ReferenceStore::new();
    let auth = AuthService::new();
    auth.signup(&mut store, "Ann".to_string(), "ann@example.com".to_string(), "not-a-hash".to_string()).unwrap();
    assert!(matches!(auth.login(&store, "ann@example.com".to_string(), "not-a-hash".to_string()), Err(PlanError::InvalidCredentials)));
}
