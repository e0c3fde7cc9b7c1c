use pms::error::ApiError;
use pms::id::RecordId;
use pms::models::user::{bearer_token, RoleDrop, User, UserClaims, UserCredential, UserImageRequest, UserRequest};
use pms::models::company::{CompanyContact, CompanyImageRequest, CompanyRequest};
use pms::models::customer::{Customer, CustomerContact, CustomerPerson, CustomerRequest};

fn id(n: u8) -> RecordId {
    RecordId { bytes: [n; 12] }
}

fn request(email: &str, password: &str) -> UserRequest {
    UserRequest { name: "Ann".to_string(), email: email.to_string(), password: password.to_string(), role_id: None, image: None }
}

#[test]
fn new_users_need_a_long_password_and_a_plain_address() {
    assert_eq!(request("ann@example.com", "secret12").check(), Ok(()));
    assert_eq!(request("ann.b+x@mail.example.org", "12345678").check(), Ok(()));
    assert_eq!(request("ann@example.com", "short").check(), Err(ApiError::UserMustHaveValidPassword));
    assert_eq!(request("not-an-address", "12345678").check(), Err(ApiError::UserMustHaveValidEmail));
    assert_eq!(request("Ann@Example.com", "12345678").check(), Err(ApiError::UserMustHaveValidEmail));
    assert_eq!(request("ann@example.com", "pässwö").check(), Ok(()));
}

#[test]
fn roles_are_kept_where_found_and_required() {
    assert_eq!(request("a@b.cd", "12345678").granted_roles(&vec![]), Err(ApiError::UserMustHaveRoles));
    let mut r = request("a@b.cd", "12345678");
    r.role_id = Some(vec![id(1), id(2), id(3)]);
    assert_eq!(r.granted_roles(&vec![true, false, true]), Ok(vec![id(1), id(3)]));
    let u = r.into_user(vec![id(3)]);
    assert_eq!(u.role_id, vec![id(3)]);
    assert_eq!(u.email, "a@b.cd");
    assert!(u._id.is_none() && u.image.is_none());
}

fn stored_user(password: &str) -> User {
    User {
        _id: Some(id(7)),
        name: "Ann".to_string(),
        email: "ann@example.com".to_string(),
        password: password.to_string(),
        role_id: vec![id(1), id(2)],
        image: None,
    }
}

#[test]
fn a_hashed_password_logs_in() {
    let mut u = stored_user("correct horse");
    assert_eq!(u.hash_password(), Ok(()));
    assert_ne!(u.password, "correct horse");
    let good = UserCredential { email: u.email.clone(), password: "correct horse".to_string() };
    let claims: UserClaims = good.authenticate(Some(&u), 1_000).unwrap();
    assert_eq!(claims.sub, "070707070707070707070707");
    assert_eq!(claims.exp, 1_000 + 86_400);
    assert_eq!(claims.iss, "Redian");
    assert_eq!(claims.aud, "http://localhost:8000");
    assert_eq!(UserCredential::subject_id(&claims), Some(id(7)));
    let bad = UserCredential { email: u.email.clone(), password: "wrong".to_string() };
    assert_eq!(bad.authenticate(Some(&u), 1_000).unwrap_err(), ApiError::InvalidCombination);
    assert_eq!(good.authenticate(None, 1_000).unwrap_err(), ApiError::InvalidCombination);
}

#[test]
fn subjects_that_are_not_ids_name_nobody() {
    let claims = UserClaims { aud: String::new(), exp: 0, iss: String::new(), sub: "someone".to_string() };
    assert_eq!(UserCredential::subject_id(&claims), None);
}

#[test]
fn dropping_a_role_removes_its_first_occurrence() {
    let mut u = stored_user("x");
    assert_eq!(u.drop_role(&id(9)), RoleDrop::NotHeld);
    assert_eq!(u.drop_role(&id(1)), RoleDrop::UpdateUser);
    assert_eq!(u.role_id, vec![id(2)]);
    assert_eq!(u.drop_role(&id(2)), RoleDrop::DeleteUser);
    assert!(u.role_id.is_empty());
}

#[test]
fn an_update_keeps_the_password_behind_a_star() {
    let old = stored_user("$2b$hash");
    let mut payload = request("new@example.com", "*");
    payload.image = Some(UserImageRequest { extension: "image/png".to_string() });
    let (u, rehash) = User::updated_by(old, id(7), vec![id(5)], payload, id(8));
    assert!(!rehash);
    assert_eq!(u.password, "$2b$hash");
    assert_eq!(u.email, "new@example.com");
    assert_eq!(u.role_id, vec![id(5)]);
    assert_eq!(u._id, Some(id(7)));
    let img = u.image.unwrap();
    assert_eq!(img._id, id(8));
    assert_eq!(img.extension, "image/png");
    let (u, rehash) = User::updated_by(stored_user("$2b$hash"), id(7), vec![], request("a@b.cd", "**"), id(8));
    assert!(rehash);
    assert_eq!(u.password, "**");
    assert!(u.image.is_none());
}

#[test]
fn bearer_tokens_lose_their_prefix() {
    assert_eq!(bearer_token(b"Bearer abc.def"), b"abc.def".to_vec());
    assert_eq!(bearer_token(b"Bearer "), Vec::<u8>::new());
}

#[test]
fn company_and_customer_requests_make_records() {
    let req = CompanyRequest {
        name: "Acme".to_string(),
        field: "Building".to_string(),
        contact: CompanyContact { address: "Main St".to_string(), email: None, phone: Some("1".to_string()) },
        image: Some(CompanyImageRequest { extension: "image/png".to_string() }),
    };
    let c = req.into_company(Some(id(1)), id(2));
    assert_eq!(c._id, Some(id(1)));
    assert_eq!(c.name, "Acme");
    assert_eq!(c.image.as_ref().map(|i| i._id), Some(id(2)));
    let req = CustomerRequest {
        name: "Bob".to_string(),
        field: "Roads".to_string(),
        contact: CustomerContact { address: "Side St".to_string(), email: None, phone: None },
        person: vec![
            CustomerPerson { _id: None, name: "P".to_string(), address: None, phone: None, email: None, role: "boss".to_string() },
            CustomerPerson { _id: None, name: "Q".to_string(), address: None, phone: None, email: None, role: "aide".to_string() },
        ],
        image: None,
    };
    let mut c: Customer = req.into_customer(None, id(3));
    assert!(c._id.is_none() && c.image.is_none());
    c.assign_ids(id(4), &vec![id(5), id(6)]);
    assert_eq!(c._id, Some(id(4)));
    assert_eq!(c.person[0]._id, Some(id(5)));
    assert_eq!(c.person[1]._id, Some(id(6)));
    assert_eq!(c.person[1].role, "aide");
}

#[test]
fn a_stored_hash_outside_printable_ascii_accepts_no_login() {
    let mut u = stored_user("correct horse");
    u.password = format!("$2b$10${}abcdefghijklmnopqrst", '\u{80}');
    let login = UserCredential { email: u.email.clone(), password: "correct horse".to_string() };
    assert_eq!(login.authenticate(Some(&u), 0).err(), Some(ApiError::InvalidCombination));
    assert!(pms::models::user::printable_ascii("$2b$10$abc ~"));
    assert!(!pms::models::user::printable_ascii("tab\there"));
}

#[test]
fn a_user_without_id_is_only_refused_by_a_wrong_password() {
    let mut u = stored_user("correct horse");
    assert_eq!(u.hash_password(), Ok(()));
    u._id = None;
    let good = UserCredential { email: u.email.clone(), password: "correct horse".to_string() };
    let bad = UserCredential { email: u.email.clone(), password: "wrong horse".to_string() };
    assert!(good.try_authenticate(Some(&u), 0).is_none());
    assert_eq!(bad.try_authenticate(Some(&u), 0).map(|r| r.err()), Some(Some(ApiError::InvalidCombination)));
    assert_eq!(bad.try_authenticate(None, 0).map(|r| r.err()), Some(Some(ApiError::InvalidCombination)));
}
