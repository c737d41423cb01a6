use plasma::api::api_path;
use plasma::api::body::FindBody;
use plasma::api::response::RegisterResponse;
use plasma::api::ws::{generate_key, make_request, request_host};
use plasma::directory::DirectoryError;
use plasma::hash::hashed_password;
use plasma::hex::{decode_hex, encode_hex};
use plasma::keyring::{key_of_file, parse_decimal, push_decimal, KeyType, Keyring};
use plasma::model;
use plasma::model::{objectid_from_str, objectid_from_str_raw, Chat, ObjectId, User};
use plasma::server::{
    find_handle, is_unique_email, login_handle, register_handle, rest_routes, with_auth,
    AuthorizationError, BsonError, Endpoint, Error, Find, Method, WebErrorMessage,
};
use plasma::token::{jwt_from_header, Claims, TOKEN_DURATION};

const OID: &str = "65a1b2c3d4e5f60718293a4b";

#[test]
fn hex_digits() {
    assert_eq!(encode_hex(&[]), "");
    assert_eq!(encode_hex(&[0x00, 0x0f, 0xa5, 0xff]), "000fa5ff");
    assert_eq!(decode_hex("000fa5ff"), Some(vec![0x00, 0x0f, 0xa5, 0xff]));
    assert_eq!(decode_hex("000FA5Ff"), Some(vec![0x00, 0x0f, 0xa5, 0xff]));
    assert_eq!(decode_hex(""), Some(vec![]));
    assert_eq!(decode_hex("0"), None);
    assert_eq!(decode_hex("0g"), None);
    assert_eq!(decode_hex("g0"), None);
    assert_eq!(decode_hex("00 1"), None);
    assert_eq!(decode_hex("é0"), None);
}

#[test]
fn password_is_kept_as_sha3_256_in_hex() {
    assert_eq!(
        hashed_password(&String::from("")),
        "a7ffc6f8bf1ed76651c14756a061d662f580ff4de43b49fa82d80a4b80f8434a"
    );
    assert_eq!(
        hashed_password(&String::from("abc")),
        "3a985da74fe225b2045c172d6bd390bd855f086e3e9d525b46bfe24511431532"
    );
    assert_ne!(hashed_password(&String::from("abc")), hashed_password(&String::from("abd")));
}

#[test]
fn object_id_is_24_digits() {
    let id = ObjectId::parse_str(OID).unwrap();
    assert_eq!(id.to_hex(), OID);
    assert_eq!(id.to_wrapped(), format!("ObjectId(\"{}\")", OID));
    assert_eq!(ObjectId::parse_str(&OID.to_uppercase()), Ok(id.clone()));
    assert!(id.same(&id.clone()));
    assert!(!id.same(&ObjectId::parse_str("000000000000000000000000").unwrap()));
    assert_eq!(ObjectId::parse_str(""), Err(model::Error::InvalidOID));
    assert_eq!(ObjectId::parse_str(&OID[..23]), Err(model::Error::InvalidOID));
    assert_eq!(ObjectId::parse_str(&format!("{}00", OID)), Err(model::Error::InvalidOID));
    assert_eq!(ObjectId::parse_str("65a1b2c3d4e5f60718293a4z"), Err(model::Error::InvalidOID));
    assert_eq!(objectid_from_str_raw(OID), Ok(id.clone()));
}

#[test]
fn object_id_from_a_subject() {
    let id = ObjectId::parse_str(OID).unwrap();
    assert_eq!(objectid_from_str(&id.to_wrapped()), Ok(id.clone()));
    // What stands around the digits is not looked at.
    assert_eq!(objectid_from_str(&format!("0123456789{}", OID)), Ok(id.clone()));
    assert_eq!(objectid_from_str(&format!("0123456789{}trailing", OID)), Ok(id));
    assert_eq!(objectid_from_str(OID), Err(model::Error::InvalidOID));
    assert_eq!(objectid_from_str(""), Err(model::Error::InvalidOID));
    assert_eq!(
        objectid_from_str("ObjectId(\"65a1b2c3d4e5f60718293a4\")"),
        Err(model::Error::InvalidOID)
    );
}

#[test]
fn claims_speak_for_a_user_for_an_hour() {
    assert_eq!(TOKEN_DURATION, 60);
    let mut user = User::new(&String::from("a@x"), &String::from("alice"), &String::from("h"));
    assert_eq!(Claims::from_user(&user, 1_000).unwrap_err(), Error::InvalidClaimData);
    user.id = Some(ObjectId::parse_str(OID).unwrap());
    let claims = Claims::from_user(&user, 1_700_000_000).unwrap();
    assert_eq!(claims.sub(), format!("ObjectId(\"{}\")", OID));
    assert_eq!(claims.exp(), 1_700_003_600);
    assert_eq!(Claims::from_user(&user, u64::MAX).unwrap_err(), Error::InvalidClaimData);
    assert_eq!(Claims::from_user(&user, u64::MAX - 3599).unwrap_err(), Error::InvalidClaimData);
    assert_eq!(Claims::from_user(&user, 0).unwrap().exp(), 3600);
    let carried = Claims::new(String::from("s"), 5);
    assert_eq!((carried.sub(), carried.exp()), (String::from("s"), 5));
}

#[test]
fn token_is_what_follows_bearer() {
    assert_eq!(jwt_from_header(Some("Bearer abc.def")), Some(String::from("abc.def")));
    assert_eq!(jwt_from_header(Some("Bearer ")), Some(String::from("")));
    assert_eq!(jwt_from_header(Some("Bearer Bearer x")), Some(String::from("x")));
    assert_eq!(jwt_from_header(Some("Bearer  x")), Some(String::from(" x")));
    assert_eq!(jwt_from_header(Some("bearer x")), None);
    assert_eq!(jwt_from_header(Some("Bearer")), None);
    assert_eq!(jwt_from_header(Some(" Bearer x")), None);
    assert_eq!(jwt_from_header(Some("")), None);
    assert_eq!(jwt_from_header(None), None);
}

#[test]
fn routes() {
    assert_eq!(rest_routes(Method::Post, "register"), Some(Endpoint::Register));
    assert_eq!(rest_routes(Method::Post, "login"), Some(Endpoint::Login));
    assert_eq!(rest_routes(Method::Get, "dashboard"), Some(Endpoint::Dashboard));
    assert_eq!(rest_routes(Method::Post, "user"), Some(Endpoint::User));
    assert_eq!(rest_routes(Method::Get, "chats"), Some(Endpoint::Chats));
    assert_eq!(rest_routes(Method::Post, "chat"), Some(Endpoint::Chat));
    assert_eq!(rest_routes(Method::Get, "chat"), Some(Endpoint::Socket));
    assert_eq!(rest_routes(Method::Post, "messages"), Some(Endpoint::Messages));
    assert_eq!(rest_routes(Method::Post, "message"), Some(Endpoint::Message));
    assert_eq!(rest_routes(Method::Post, "bundle"), Some(Endpoint::Bundle));
    assert_eq!(rest_routes(Method::Post, "peer_bundle"), Some(Endpoint::PeerBundle));
    assert_eq!(rest_routes(Method::Post, "initial_message"), Some(Endpoint::InitialMessage));
    assert_eq!(
        rest_routes(Method::Post, "get_initial_message"),
        Some(Endpoint::GetInitialMessage)
    );
    assert_eq!(rest_routes(Method::Get, "register"), None);
    assert_eq!(rest_routes(Method::Post, "dashboard"), None);
    assert_eq!(rest_routes(Method::Post, "Bundle"), None);
    assert_eq!(rest_routes(Method::Post, ""), None);
    assert_eq!(rest_routes(Method::Other, "bundle"), None);
    for endpoint in [
        Endpoint::Register,
        Endpoint::Login,
        Endpoint::Dashboard,
        Endpoint::User,
        Endpoint::Chats,
        Endpoint::Chat,
        Endpoint::Messages,
        Endpoint::Message,
        Endpoint::Bundle,
        Endpoint::PeerBundle,
        Endpoint::InitialMessage,
        Endpoint::GetInitialMessage,
        Endpoint::Socket,
    ] {
        assert_eq!(rest_routes(endpoint.method(), endpoint.path()), Some(endpoint));
        assert_eq!(
            with_auth(endpoint),
            endpoint != Endpoint::Register && endpoint != Endpoint::Login
        );
    }
    assert_eq!(api_path(Endpoint::PeerBundle), "http://localhost:8000/peer_bundle");
    assert_eq!(api_path(Endpoint::Login), "http://localhost:8000/login");
}

#[test]
fn failures_on_the_wire() {
    assert_eq!(
        WebErrorMessage::unknown(),
        WebErrorMessage { kind: "Unkown error", status_code: 400 }
    );
    assert_eq!(WebErrorMessage::rejection("k", 418), WebErrorMessage { kind: "k", status_code: 418 });
    assert_eq!(
        WebErrorMessage::from_error(Error::BodyError),
        WebErrorMessage { kind: "error::Error", status_code: 400 }
    );
    assert_eq!(
        WebErrorMessage::from_model(model::Error::NotUnique),
        WebErrorMessage { kind: "model::Error", status_code: 400 }
    );
    assert_eq!(WebErrorMessage::from_model(model::Error::NoUserWithSuchEmail).status_code, 404);
    assert_eq!(
        WebErrorMessage::from_bson(BsonError::ConversionError),
        WebErrorMessage { kind: "error::BsonError", status_code: 400 }
    );
    assert_eq!(
        WebErrorMessage::from_authorization(AuthorizationError::MissingAuthHeader),
        WebErrorMessage { kind: "error::AuthError", status_code: 401 }
    );
    assert_eq!(
        WebErrorMessage::from_authorization(AuthorizationError::InvalidCredentials).status_code,
        401
    );
    assert_eq!(WebErrorMessage::from_directory(DirectoryError::AlreadyPublished).status_code, 409);
    assert_eq!(WebErrorMessage::from_directory(DirectoryError::UnknownUser).status_code, 404);
    assert_eq!(WebErrorMessage::from_directory(DirectoryError::NoOneTimeLeft).status_code, 410);
}

#[test]
fn email_is_free_where_no_user_has_it() {
    assert_eq!(is_unique_email(Ok(())), Ok(false));
    assert_eq!(is_unique_email(Err(model::Error::NoUserWithSuchEmail)), Ok(true));
    assert_eq!(is_unique_email(Err(model::Error::DbError)), Err(model::Error::DbError));
    assert_eq!(register_handle(Ok(())), Err(model::Error::NotUnique));
    assert_eq!(register_handle(Err(model::Error::NoUserWithSuchEmail)), Ok(()));
    assert_eq!(
        register_handle(Err(model::Error::CouldNotConnectToDB)),
        Err(model::Error::CouldNotConnectToDB)
    );
}

#[test]
fn login_compares_hashed_passwords() {
    let password = String::from("secret");
    let user =
        User::new(&String::from("a@x"), &String::from("alice"), &hashed_password(&password));
    assert_eq!(user.username(), "alice");
    assert!(user.id().is_none());
    assert!(user.password_matches(&hashed_password(&password)));
    assert!(!user.password_matches(&password));
    assert_eq!(login_handle(&user, &password), Ok(()));
    assert_eq!(
        login_handle(&user, &String::from("Secret")),
        Err(AuthorizationError::InvalidCredentials)
    );
}

#[test]
fn user_is_looked_for_by_id_first() {
    let id = ObjectId::parse_str(OID).unwrap();
    let all = FindBody {
        id: Some(id.clone()),
        email: Some(String::from("a@x")),
        username: Some(String::from("alice")),
    };
    assert!(matches!(find_handle(all), Find::ById(found) if found == id));
    let two = FindBody {
        id: None,
        email: Some(String::from("a@x")),
        username: Some(String::from("alice")),
    };
    assert!(matches!(find_handle(two), Find::ByUsername(name) if name == "alice"));
    let one = FindBody { id: None, email: Some(String::from("a@x")), username: None };
    assert!(matches!(find_handle(one), Find::ByEmail(mail) if mail == "a@x"));
    let none = FindBody { id: None, email: None, username: None };
    assert!(matches!(find_handle(none), Find::Nothing));
    assert!(matches!(find_handle(FindBody::id(id.clone())), Find::ById(found) if found == id));
    assert!(matches!(
        find_handle(FindBody::username(String::from("bob"))),
        Find::ByUsername(name) if name == "bob"
    ));
}

#[test]
fn chat_of_a_subject_and_a_member() {
    let a = ObjectId::parse_str(OID).unwrap();
    let b = ObjectId::parse_str("000000000000000000000001").unwrap();
    let chat = Chat::new(&a.to_wrapped(), b.clone()).unwrap();
    assert!(chat.id().is_none());
    assert_eq!(chat.members(), &vec![a.clone(), b.clone()]);
    assert_eq!(Chat::new(OID, b.clone()).unwrap_err(), model::Error::InvalidOID);
    let stored = Chat::from_record(Some(a.clone()), vec![b.clone()]);
    assert_eq!(stored.id(), &Some(a.clone()));
    let record = model::RegisterBundle::new(
        &a.to_wrapped(),
        plasma::handshake::RegisterBundleBinary {
            identity: vec![],
            signed_pre: vec![],
            signature: vec![],
            one_time_pres: vec![],
        },
    )
    .unwrap();
    assert_eq!(record.user_id, a);
    assert!(record.id.is_none());
    let message = model::Message::new(a.clone(), b.clone(), vec![1], 9);
    assert_eq!((message.chat_id, message.sender_id, message.timestamp), (a, b, 9));
}

#[test]
fn registration_succeeded() {
    assert!(RegisterResponse { message: String::from("success") }.succeeded());
    assert!(!RegisterResponse { message: String::from("Success") }.succeeded());
    assert!(!RegisterResponse { message: String::new() }.succeeded());
}

#[test]
fn keyring_names_its_files() {
    let keyring = Keyring::new("a@x");
    assert_eq!(keyring.mail(), "a@x");
    assert_eq!(keyring.account_path(), ".plasmax/a@x");
    assert_eq!(keyring.token_path(), ".plasmax/a@x/token");
    assert_eq!(keyring.key_path(KeyType::Identity), ".plasmax/a@x/keys/identity");
    assert_eq!(keyring.key_path(KeyType::Signed), ".plasmax/a@x/keys/signed");
    assert_eq!(keyring.key_path(KeyType::OneTime(0)), ".plasmax/a@x/keys/onetime_0");
    assert_eq!(keyring.key_path(KeyType::OneTime(49)), ".plasmax/a@x/keys/onetime_49");
    assert_eq!(keyring.key_path(KeyType::OneTime(65535)), ".plasmax/a@x/keys/onetime_65535");
    assert_eq!(keyring.secret_path("bob"), ".plasmax/a@x/chat_secret/bob");
    let mut text = String::from("n=");
    push_decimal(&mut text, 1007);
    assert_eq!(text, "n=1007");
}

#[test]
fn socket_request() {
    assert_eq!(request_host("localhost:8000"), Some(String::from("localhost:8000")));
    assert_eq!(request_host("user:pw@host"), Some(String::from("host")));
    assert_eq!(request_host("a@b@c"), Some(String::from("b@c")));
    assert_eq!(request_host("user@"), None);
    assert_eq!(request_host(""), None);
    let headers = make_request("localhost:8000", "a2V5", "tok");
    let pairs: Vec<(&str, &str)> =
        headers.iter().map(|h| (h.name.as_str(), h.value.as_str())).collect();
    assert_eq!(
        pairs,
        vec![
            ("Host", "localhost:8000"),
            ("Connection", "Upgrade"),
            ("Upgrade", "websocket"),
            ("Sec-WebSocket-Version", "13"),
            ("Sec-WebSocket-Key", "a2V5"),
            ("Authorization", "Bearer tok"),
        ]
    );
}

#[test]
fn socket_key_is_16_fresh_bytes_in_base64() {
    let key = generate_key();
    assert_eq!(key.len(), 24);
    assert!(key.ends_with("=="));
    assert!(key[..22].chars().all(|c| c.is_ascii_alphanumeric() || c == '+' || c == '/'));
    assert_ne!(key, generate_key());
}

#[test]
fn decimal_digits_are_read_back() {
    assert_eq!(parse_decimal("0"), Some(0));
    assert_eq!(parse_decimal("7"), Some(7));
    assert_eq!(parse_decimal("49"), Some(49));
    assert_eq!(parse_decimal("65535"), Some(65535));
    assert_eq!(parse_decimal("65536"), None);
    assert_eq!(parse_decimal("99999"), None);
    assert_eq!(parse_decimal("100000"), None);
    assert_eq!(parse_decimal(""), None);
    assert_eq!(parse_decimal("007"), None);
    assert_eq!(parse_decimal("00"), None);
    assert_eq!(parse_decimal("+5"), None);
    assert_eq!(parse_decimal("-5"), None);
    assert_eq!(parse_decimal("1a"), None);
    assert_eq!(parse_decimal(" 1"), None);
    assert_eq!(parse_decimal("١"), None);
    for n in [0u16, 9, 10, 99, 100, 999, 1000, 9999, 10000, 65535] {
        let mut text = String::new();
        push_decimal(&mut text, n);
        assert_eq!(text, n.to_string());
        assert_eq!(parse_decimal(&text), Some(n));
    }
}

#[test]
fn key_files_are_known_by_their_names() {
    assert_eq!(key_of_file("identity"), Some(KeyType::Identity));
    assert_eq!(key_of_file("signed"), Some(KeyType::Signed));
    assert_eq!(key_of_file("onetime_0"), Some(KeyType::OneTime(0)));
    assert_eq!(key_of_file("onetime_49"), Some(KeyType::OneTime(49)));
    assert_eq!(key_of_file("onetime_65535"), Some(KeyType::OneTime(65535)));
    assert_eq!(key_of_file("onetime_65536"), None);
    assert_eq!(key_of_file("onetime_"), None);
    assert_eq!(key_of_file("onetime_01"), None);
    assert_eq!(key_of_file("onetime_x"), None);
    assert_eq!(key_of_file("onetime"), None);
    assert_eq!(key_of_file("Identity"), None);
    assert_eq!(key_of_file("identity "), None);
    assert_eq!(key_of_file("token"), None);
    assert_eq!(key_of_file(""), None);
    let keyring = Keyring::new("a@x");
    for key_type in [KeyType::Identity, KeyType::Signed, KeyType::OneTime(7)] {
        let path = keyring.key_path(key_type);
        let name = path.rsplit('/').next().unwrap();
        assert_eq!(key_of_file(name), Some(key_type));
    }
}
