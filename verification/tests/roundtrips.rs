use shapecodec::decode::decode;
use shapecodec::encode::{encode, encode_as};
use shapecodec::hooks::HookId;
use shapecodec::shape::{FieldSpec, FieldType, Registry, ShapeSpec, Variant};
use shapecodec::text::{from_json_text, from_toml_text, to_json_text, to_toml_text};
use shapecodec::token::Token;
use shapecodec::value::Datum;

fn field(name: &str, wire: &str, ftype: FieldType) -> FieldSpec {
    FieldSpec {
        name: name.to_string(),
        wire_name: wire.to_string(),
        optional: false,
        ftype,
        codec: None,
    }
}

fn opt_field(name: &str, wire: &str, ftype: FieldType) -> FieldSpec {
    FieldSpec {
        name: name.to_string(),
        wire_name: wire.to_string(),
        optional: true,
        ftype,
        codec: None,
    }
}

fn hook_field(name: &str, wire: &str, hook: HookId) -> FieldSpec {
    FieldSpec {
        name: name.to_string(),
        wire_name: wire.to_string(),
        optional: false,
        ftype: FieldType::Int,
        codec: Some(hook),
    }
}

fn text(s: &str) -> Datum {
    Datum::Text(s.to_string())
}

const USER_LOGIN: u64 = 1;
const ADDRESS: u64 = 2;
const CREATE_USER: u64 = 3;
const USER: u64 = 4;
const GENDER: u64 = 5;
const PAYMENT: u64 = 6;
const CATEGORY: u64 = 7;
const ADMIN: u64 = 8;
const NAME: u64 = 9;

fn registry() -> Registry {
    let mut reg = Registry::new();
    reg.register_shape(
        USER_LOGIN,
        ShapeSpec::Record(vec![
            field("username", "username", FieldType::Text),
            field("password", "password", FieldType::Text),
        ]),
    )
    .unwrap();
    reg.register_shape(
        ADDRESS,
        ShapeSpec::Record(vec![
            field("street", "street", FieldType::Text),
            field("city", "city", FieldType::Text),
            field("state", "state", FieldType::Text),
            field("zip", "zip", FieldType::Text),
        ]),
    )
    .unwrap();
    reg.register_shape(
        CREATE_USER,
        ShapeSpec::Record(vec![
            field("username", "username", FieldType::Text),
            field("password", "password", FieldType::Text),
            field("email", "email", FieldType::Text),
            field("address", "alamat", FieldType::Named(ADDRESS)),
        ]),
    )
    .unwrap();
    reg.register_shape(
        GENDER,
        ShapeSpec::UnitEnum(vec!["Male".to_string(), "Female".to_string()]),
    )
    .unwrap();
    reg.register_shape(
        PAYMENT,
        ShapeSpec::TaggedUnion {
            tag: "type".to_string(),
            variants: vec![
                Variant {
                    name: "CreditCard".to_string(),
                    fields: vec![
                        field("card_number", "card_number", FieldType::Text),
                        field("expiration", "expiration", FieldType::Text),
                    ],
                },
                Variant {
                    name: "BankAccount".to_string(),
                    fields: vec![
                        field("account_number", "account_number", FieldType::Text),
                        field("bank_name", "bank_name", FieldType::Text),
                    ],
                },
            ],
        },
    )
    .unwrap();
    reg.register_shape(
        USER,
        ShapeSpec::Record(vec![
            field("username", "USERNAME", FieldType::Text),
            field("email", "EMAIL", FieldType::Text),
            field("first_name", "FIRST_NAME", FieldType::Text),
            field("hobbies", "HOBBIES", FieldType::List(Box::new(FieldType::Text))),
            opt_field("phone", "PHONE", FieldType::Text),
            field("gender", "GENDER", FieldType::Named(GENDER)),
            field("payment", "PAYMENT", FieldType::Named(PAYMENT)),
        ]),
    )
    .unwrap();
    reg.register_shape(
        CATEGORY,
        ShapeSpec::Record(vec![
            field("id", "id", FieldType::Text),
            field("name", "name", FieldType::Text),
            hook_field("created_at", "created_at", HookId::EpochMillis),
            hook_field("updated_at", "updated_at", HookId::EpochMillis),
        ]),
    )
    .unwrap();
    reg.register_shape(
        NAME,
        ShapeSpec::Record(vec![
            field("first", "first", FieldType::Text),
            field("last", "last", FieldType::Text),
        ]),
    )
    .unwrap();
    reg.register_hook(NAME, HookId::CompositeName).unwrap();
    reg.register_shape(
        ADMIN,
        ShapeSpec::Record(vec![
            field("id", "id", FieldType::Text),
            field("name", "name", FieldType::Named(NAME)),
            hook_field("created_at", "created_at", HookId::EpochMillis),
            hook_field("updated_at", "updated_at", HookId::EpochMillis),
        ]),
    )
    .unwrap();
    reg
}

#[test]
fn test_toml() {
    let reg = registry();
    let category = Datum::Record(vec![
        text("123"),
        text("Test Toml"),
        Datum::Int(1711182446000),
        Datum::Int(1711182446000),
    ]);
    let token = encode(&reg, &category, CATEGORY);
    let toml_text = to_toml_text(&token);
    println!("{}", toml_text);
    assert!(toml_text.contains("id = \"123\""));
    assert!(toml_text.contains("name = \"Test Toml\""));
    let back = from_toml_text(&toml_text).unwrap();
    assert_eq!(back, token);
    let result = decode(&reg, &back, CATEGORY).unwrap();
    println!("{:?}", result);
    assert_eq!(result, category);
}

#[test]
fn test_custom_serialize() {
    let reg = registry();
    let admin = Datum::Record(vec![
        text("admin"),
        Datum::Record(vec![text("ekotaro"), text("kuroniwa")]),
        Datum::Int(1711182446000),
        Datum::Int(1711182446000),
    ]);
    let token = encode(&reg, &admin, ADMIN);
    match &token {
        Token::Mapping(entries) => {
            assert_eq!(entries[1].0, "name");
            assert_eq!(entries[1].1, Token::Text("ekotaro kuroniwa".to_string()));
        }
        other => panic!("expected a mapping, got {:?}", other),
    }
    let json = to_json_text(&token);
    println!("{}", json);
    let back = from_json_text(&json).unwrap();
    let result = decode(&reg, &back, ADMIN).unwrap();
    println!("{:?}", result);
    assert_eq!(result, admin);
}

#[test]
fn test_chrono() {
    let reg = registry();
    let category = Datum::Record(vec![
        text("gatget"),
        text("Gadget"),
        Datum::Int(1711182446123),
        Datum::Int(1711182446123),
    ]);
    let json = to_json_text(&encode(&reg, &category, CATEGORY));
    println!("{}", json);
    assert_eq!(
        json,
        "{\"id\":\"gatget\",\"name\":\"Gadget\",\"created_at\":1711182446123,\"updated_at\":1711182446123}"
    );
    let result = decode(&reg, &from_json_text(&json).unwrap(), CATEGORY).unwrap();
    println!("{:?}", result);
    assert_eq!(result, category);
}

#[test]
fn test_create_json_for_user_login_request() {
    let reg = registry();
    let login_request = Datum::Record(vec![text("testuser"), text("testpassword")]);
    let json = to_json_text(&encode(&reg, &login_request, USER_LOGIN));
    println!("{}", json);
    assert_eq!(
        json,
        "{\"username\":\"testuser\",\"password\":\"testpassword\"}"
    );
    let result = decode(&reg, &from_json_text(&json).unwrap(), USER_LOGIN).unwrap();
    println!("{:?}", result);
    assert_eq!(result, login_request);
}

#[test]
fn test_create_json_for_create_user_request() {
    let reg = registry();
    let request = Datum::Record(vec![
        text("testuser"),
        text("testpassword"),
        text("ekotaro@gamil.com"),
        Datum::Record(vec![
            text("Jl sunan batu"),
            text("kota"),
            text("provinsi"),
            text("76243572634"),
        ]),
    ]);
    let json = to_json_text(&encode(&reg, &request, CREATE_USER));
    println!("{}", json);
    assert!(json.contains("\"alamat\":{\"street\":\"Jl sunan batu\""));
    let result = decode(&reg, &from_json_text(&json).unwrap(), CREATE_USER).unwrap();
    println!("{:?}", result);
    assert_eq!(result, request);
}

#[test]
fn test_create_json_from_array() {
    let reg = Registry::new();
    let numbers = Datum::List(vec![
        Datum::Int(10),
        Datum::Int(11),
        Datum::Int(12),
        Datum::Int(13),
        Datum::Int(14),
        Datum::Int(15),
    ]);
    let token = encode_as(&reg, &numbers, &FieldType::List(Box::new(FieldType::Int)));
    let json = to_json_text(&token);
    println!("{}", json);
    assert_eq!(json, "[10,11,12,13,14,15]");
}

#[test]
fn test_vector() {
    let reg = registry();
    let request = Datum::Record(vec![
        text("testuser"),
        text("ekotaro@gmail.com"),
        text("ekotaro kanedo"),
        Datum::List(vec![text("reading"), text("swimming"), text("eating")]),
        Datum::Absent,
        Datum::Case(0),
        Datum::Union(1, vec![text("123123123"), text("Bank Bca")]),
    ]);
    let json = to_json_text(&encode(&reg, &request, USER));
    println!("{}", json);
    assert!(!json.contains("PHONE"));
    assert!(json.contains("\"GENDER\":\"Male\""));
    let login_result = decode(&reg, &from_json_text(&json).unwrap(), USER).unwrap();
    println!("{:?}", login_result);
    assert_eq!(login_result, request);
}

#[test]
fn test_vector_with_option() {
    let reg = registry();
    let request = Datum::Record(vec![
        text("testuser"),
        text("ekotaro@gmail.com"),
        text("ekataro kanedo"),
        Datum::List(vec![text("reading"), text("swimming"), text("eating")]),
        Datum::Text("123456789".to_string()),
        Datum::Case(1),
        Datum::Union(0, vec![text("123123123"), text("2020-03-23")]),
    ]);
    let json = to_json_text(&encode(&reg, &request, USER));
    println!("{}", json);
    assert!(json.contains("\"PHONE\":\"123456789\""));
    let login_result = decode(&reg, &from_json_text(&json).unwrap(), USER).unwrap();
    println!("{:?}", login_result);
    assert_eq!(login_result, request);
}

#[test]
fn test_map() {
    let values = Token::Mapping(vec![
        ("one".to_string(), Token::Number(1)),
        ("two".to_string(), Token::Number(2)),
        ("three".to_string(), Token::Number(3)),
    ]);
    let json = to_json_text(&values);
    println!("{}", json);
    assert_eq!(json, "{\"one\":1,\"two\":2,\"three\":3}");
    let result = from_json_text(&json).unwrap();
    println!("{:?}", result);
    assert_eq!(result, values);
}

#[test]
fn tagged_union_wire_shape() {
    let reg = registry();
    let payment = Datum::Union(1, vec![text("123123123"), text("Bank Bca")]);
    let token = encode(&reg, &payment, PAYMENT);
    let expected = Token::Mapping(vec![
        ("type".to_string(), Token::Text("BankAccount".to_string())),
        ("account_number".to_string(), Token::Text("123123123".to_string())),
        ("bank_name".to_string(), Token::Text("Bank Bca".to_string())),
    ]);
    assert_eq!(token, expected);
    assert_eq!(
        to_json_text(&token),
        "{\"type\":\"BankAccount\",\"account_number\":\"123123123\",\"bank_name\":\"Bank Bca\"}"
    );
}
