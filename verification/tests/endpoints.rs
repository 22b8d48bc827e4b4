use room_relay::error::ApiError;
use room_relay::rooms::{
    create_room, get_rooms, CreateRoomRequestStruct, CreateRoomResponse, GetRoomResponse,
};
use room_relay::user::{
    check_user, create_user, me, sign_in, signed_in, Claims, Credentials, JwtClaims,
    SigninResponse, StoredUser, UserRequest, SESSION_EXPIRY,
};

fn unauthorized(reason: &str) -> ApiError {
    ApiError::Unauthorized(reason.to_string())
}

#[test]
fn claims_carry_the_user_and_the_fixed_expiry() {
    let claims = Claims::new("user-1".to_string());
    assert_eq!(claims.sub, "user-1");
    assert_eq!(claims.exp, 10000000000000000000);
    assert_eq!(SESSION_EXPIRY, 10000000000000000000);
}

#[test]
fn a_verified_token_gives_its_claims() {
    let claims = Claims { sub: "user-1".to_string(), exp: 42 };
    match JwtClaims::from_request(Credentials::Verified(claims)) {
        Ok(JwtClaims(found)) => {
            assert_eq!(found.sub, "user-1");
            assert_eq!(found.exp, 42);
        }
        Err(_) => panic!("a verified token is accepted"),
    }
}

#[test]
fn a_rejected_token_is_unauthorized() {
    match JwtClaims::from_request(Credentials::Rejected) {
        Err(error) => {
            assert_eq!(error, unauthorized("Invalid JWT token"));
            assert_eq!(error.status(), 401);
        }
        Ok(_) => panic!("a rejected token is refused"),
    }
}

#[test]
fn a_missing_header_is_unauthorized() {
    match JwtClaims::from_request(Credentials::Missing) {
        Err(error) => assert_eq!(error, unauthorized("Authorization header missing or invalid")),
        Ok(_) => panic!("a request without a header is refused"),
    }
}

#[test]
fn check_user_lets_claims_through() {
    let claims = Claims { sub: "user-1".to_string(), exp: 42 };
    match check_user(Ok(JwtClaims(claims))) {
        Ok(found) => assert_eq!(found.sub, "user-1"),
        Err(_) => panic!("claims are let through"),
    }
}

#[test]
fn check_user_refuses_with_one_reason() {
    for refusal in [
        unauthorized("Invalid JWT token"),
        unauthorized("Authorization header missing or invalid"),
        ApiError::Internal("anything".to_string()),
    ] {
        match check_user(Err(refusal)) {
            Err(error) => assert_eq!(error, unauthorized("Invalid or missing token")),
            Ok(_) => panic!("a refusal stays a refusal"),
        }
    }
}

#[test]
fn create_user_answers_with_the_identifier() {
    match create_user(Ok("user-7".to_string())) {
        Ok(response) => assert_eq!(response.id, "user-7"),
        Err(_) => panic!("a created user is answered"),
    }
    match create_user(Err("duplicate key".to_string())) {
        Err(error) => {
            assert_eq!(error, ApiError::Conflict("duplicate key".to_string()));
            assert_eq!(error.status(), 409);
            assert_eq!(error.message(), "duplicate key");
        }
        Ok(_) => panic!("a store error is a conflict"),
    }
}

fn stored(id: &str, password: &str) -> Result<StoredUser, String> {
    Ok(StoredUser { id: id.to_string(), password: password.to_string() })
}

#[test]
fn sign_in_with_the_stored_password_issues_claims() {
    let body = UserRequest { username: "ann".to_string(), password: "secret".to_string() };
    match sign_in(stored("user-1", "secret"), &body) {
        Ok(claims) => {
            assert_eq!(claims.sub, "user-1");
            assert_eq!(claims.exp, 10000000000000000000);
        }
        Err(_) => panic!("the stored password signs in"),
    }
}

#[test]
fn sign_in_with_another_password_is_unauthorized() {
    let body = UserRequest { username: "ann".to_string(), password: "guess".to_string() };
    match sign_in(stored("user-1", "secret"), &body) {
        Err(error) => assert_eq!(error, unauthorized("Incorrect password")),
        Ok(_) => panic!("another password does not sign in"),
    }
    let empty = UserRequest { username: "ann".to_string(), password: String::new() };
    assert!(sign_in(stored("user-1", "secret"), &empty).is_err());
}

#[test]
fn sign_in_as_an_unknown_user_is_unauthorized() {
    let body = UserRequest { username: "bob".to_string(), password: "secret".to_string() };
    match sign_in(Err("no rows returned".to_string()), &body) {
        Err(error) => {
            assert_eq!(error, unauthorized("no rows returned"));
            assert_eq!(error.status(), 401);
        }
        Ok(_) => panic!("an unknown user does not sign in"),
    }
}

#[test]
fn signed_in_answers_with_the_token() {
    match signed_in(Ok("abc.def.ghi".to_string())) {
        Ok(response) => assert_eq!(response.token(), "abc.def.ghi"),
        Err(_) => panic!("an issued token is answered"),
    }
    match signed_in(Err("no key".to_string())) {
        Err(error) => {
            assert_eq!(error, ApiError::Internal("no key".to_string()));
            assert_eq!(error.status(), 500);
        }
        Ok(_) => panic!("a token that could not be issued is a server error"),
    }
}

#[test]
fn signin_response_carries_the_token() {
    let response = SigninResponse::new("abc.def.ghi".to_string());
    assert_eq!(response.token(), "abc.def.ghi");
}

#[test]
fn me_greets_the_user() {
    let claims = Claims::new("user-1".to_string());
    assert_eq!(me(Some(&claims)), Ok("Hello User, user-1".to_string()));
    assert_eq!(me(None), Err(unauthorized("No Claims From Jwt")));
}

#[test]
fn create_room_answers_with_the_slug() {
    let request =
        CreateRoomRequestStruct { room_slug: "lobby".to_string(), created_by: "ann".to_string() };
    let record = CreateRoomResponse { slug: request.room_slug.clone() };
    match create_room(Ok(record)) {
        Ok(response) => assert_eq!(response.slug, "lobby"),
        Err(_) => panic!("a created room is answered"),
    }
    match create_room(Err("slug taken".to_string())) {
        Err(error) => assert_eq!(error, ApiError::Conflict("slug taken".to_string())),
        Ok(_) => panic!("a store error is a conflict"),
    }
}

#[test]
fn get_rooms_answers_with_the_slugs() {
    let record = GetRoomResponse { rooms: vec!["lobby".to_string(), "games".to_string()] };
    match get_rooms(Ok(record)) {
        Ok(response) => assert_eq!(response.rooms, vec!["lobby".to_string(), "games".to_string()]),
        Err(_) => panic!("a list is answered"),
    }
    match get_rooms(Ok(GetRoomResponse { rooms: Vec::new() })) {
        Ok(response) => assert!(response.rooms.is_empty()),
        Err(_) => panic!("an empty list is answered"),
    }
    match get_rooms(Err("down".to_string())) {
        Err(error) => assert_eq!(error, ApiError::Conflict("down".to_string())),
        Ok(_) => panic!("a store error is a conflict"),
    }
}

#[test]
fn every_refusal_has_its_status() {
    assert_eq!(ApiError::Unauthorized("a".to_string()).status(), 401);
    assert_eq!(ApiError::Conflict("b".to_string()).status(), 409);
    assert_eq!(ApiError::Internal("c".to_string()).status(), 500);
    assert_eq!(ApiError::Internal("c".to_string()).message(), "c");
    assert_eq!(ApiError::Unauthorized("a".to_string()).message(), "a");
}
