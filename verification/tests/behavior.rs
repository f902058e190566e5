use shapecodec::decode::decode;
use shapecodec::encode::encode;
use shapecodec::error::{DecodeErrorKind, HookError, RegistryError, TokenKind};
use shapecodec::hooks::{deserialize, serialize, HookId, Timestamp};
use shapecodec::shape::{FieldSpec, FieldType, Registry, ShapeSpec, Variant};
use shapecodec::text::from_json_text;
use shapecodec::token::Token;
use shapecodec::value::Datum;

fn field(name: &str, wire: &str, ftype: FieldType) -> FieldSpec {
    FieldSpec {
        name: name.to_string(),
        wire_name: wire.to_string(),
        optional: false,
        ftype,
        codec: None,
    }
}

fn opt_field(name: &str, wire: &str, ftype: FieldType) -> FieldSpec {
    FieldSpec {
        name: name.to_string(),
        wire_name: wire.to_string(),
        optional: true,
        ftype,
        codec: None,
    }
}

const STAMPED: u64 = 6;
const LOGIN: u64 = 1;
const CONTACT: u64 = 2;
const PAYMENT: u64 = 3;
const NAME: u64 = 4;
const GENDER: u64 = 5;

fn registry() -> Registry {
    let mut reg = Registry::new();
    reg.register_shape(
        LOGIN,
        ShapeSpec::Record(vec![
            field("username", "username", FieldType::Text),
            field("password", "password", FieldType::Text),
        ]),
    )
    .unwrap();
    reg.register_shape(
        CONTACT,
        ShapeSpec::Record(vec![
            field("email", "email", FieldType::Text),
            opt_field("phone", "phone", FieldType::Text),
        ]),
    )
    .unwrap();
    reg.register_shape(
        PAYMENT,
        ShapeSpec::TaggedUnion {
            tag: "type".to_string(),
            variants: vec![
                Variant {
                    name: "CreditCard".to_string(),
                    fields: vec![
                        field("card_number", "card_number", FieldType::Text),
                        field("expiration", "expiration", FieldType::Text),
                    ],
                },
                Variant {
                    name: "BankAccount".to_string(),
                    fields: vec![
                        field("account_number", "account_number", FieldType::Text),
                        field("bank_name", "bank_name", FieldType::Text),
                    ],
                },
            ],
        },
    )
    .unwrap();
    reg.register_shape(
        NAME,
        ShapeSpec::Record(vec![
            field("first", "first", FieldType::Text),
            field("last", "last", FieldType::Text),
        ]),
    )
    .unwrap();
    reg.register_hook(NAME, HookId::CompositeName).unwrap();
    reg.register_shape(
        GENDER,
        ShapeSpec::UnitEnum(vec!["Male".to_string(), "Female".to_string()]),
    )
    .unwrap();
    reg.register_shape(
        STAMPED,
        ShapeSpec::Record(vec![FieldSpec {
            name: "created_at".to_string(),
            wire_name: "created_at".to_string(),
            optional: false,
            ftype: FieldType::Int,
            codec: Some(HookId::EpochMillis),
        }]),
    )
    .unwrap();
    reg
}

#[test]
fn missing_required_field_is_reported() {
    let reg = registry();
    let token = Token::Mapping(vec![(
        "username".to_string(),
        Token::Text("testuser".to_string()),
    )]);
    let err = decode(&reg, &token, LOGIN).unwrap_err();
    assert_eq!(err.kind, DecodeErrorKind::MissingField("password".to_string()));
    assert_eq!(err.path, vec!["password".to_string()]);
}

#[test]
fn optional_field_elided_on_encode() {
    let reg = registry();
    let contact = Datum::Record(vec![
        Datum::Text("a@b.c".to_string()),
        Datum::Absent,
    ]);
    let token = encode(&reg, &contact, CONTACT);
    match token {
        Token::Mapping(entries) => {
            assert_eq!(entries.len(), 1);
            assert_eq!(entries[0].0, "email");
        }
        other => panic!("expected a mapping, got {:?}", other),
    }
}

#[test]
fn optional_field_absent_on_decode() {
    let reg = registry();
    let token = Token::Mapping(vec![(
        "email".to_string(),
        Token::Text("a@b.c".to_string()),
    )]);
    let contact = decode(&reg, &token, CONTACT).unwrap();
    assert_eq!(
        contact,
        Datum::Record(vec![Datum::Text("a@b.c".to_string()), Datum::Absent])
    );
}

#[test]
fn wire_null_is_a_type_mismatch() {
    let reg = registry();
    let token = Token::Mapping(vec![
        ("email".to_string(), Token::Text("a@b.c".to_string())),
        ("phone".to_string(), Token::Null),
    ]);
    let err = decode(&reg, &token, CONTACT).unwrap_err();
    assert_eq!(
        err.kind,
        DecodeErrorKind::TypeMismatch(TokenKind::Text, TokenKind::Null)
    );
    assert_eq!(err.path, vec!["phone".to_string()]);
}

#[test]
fn unknown_union_variant_is_reported() {
    let reg = registry();
    let token = Token::Mapping(vec![
        ("type".to_string(), Token::Text("Paypal".to_string())),
        ("account_number".to_string(), Token::Text("1".to_string())),
    ]);
    let err = decode(&reg, &token, PAYMENT).unwrap_err();
    assert_eq!(err.kind, DecodeErrorKind::UnknownVariant("Paypal".to_string()));
}

#[test]
fn missing_tag_is_reported() {
    let reg = registry();
    let no_tag = Token::Mapping(vec![(
        "account_number".to_string(),
        Token::Text("1".to_string()),
    )]);
    let err = decode(&reg, &no_tag, PAYMENT).unwrap_err();
    assert_eq!(err.kind, DecodeErrorKind::MissingTag);
    let non_text_tag = Token::Mapping(vec![("type".to_string(), Token::Number(3))]);
    let err = decode(&reg, &non_text_tag, PAYMENT).unwrap_err();
    assert_eq!(err.kind, DecodeErrorKind::MissingTag);
}

#[test]
fn unknown_enum_variant_is_reported() {
    let reg = registry();
    let err = decode(&reg, &Token::Text("Other".to_string()), GENDER).unwrap_err();
    assert_eq!(err.kind, DecodeErrorKind::UnknownVariant("Other".to_string()));
    let ok = decode(&reg, &Token::Text("Female".to_string()), GENDER).unwrap();
    assert_eq!(ok, Datum::Case(1));
}

#[test]
fn record_wants_a_mapping() {
    let reg = registry();
    let err = decode(&reg, &Token::Sequence(vec![]), LOGIN).unwrap_err();
    assert_eq!(
        err.kind,
        DecodeErrorKind::TypeMismatch(TokenKind::Mapping, TokenKind::Sequence)
    );
}

#[test]
fn unknown_type_id_is_reported() {
    let reg = registry();
    let err = decode(&reg, &Token::Null, 999).unwrap_err();
    assert_eq!(err.kind, DecodeErrorKind::UnknownType(999));
}

#[test]
fn registry_rejects_duplicates() {
    let mut reg = registry();
    let again = reg.register_shape(LOGIN, ShapeSpec::UnitEnum(vec![]));
    assert_eq!(again, Err(RegistryError::DuplicateShape));
    let unknown = reg.register_hook(999, HookId::EpochMillis);
    assert_eq!(unknown, Err(RegistryError::UnknownType));
    let twice = reg.register_hook(NAME, HookId::EpochMillis);
    assert_eq!(twice, Err(RegistryError::DuplicateHook));
}

#[test]
fn epoch_millis_is_exact() {
    let ts = Timestamp { millis: 1711182446123 };
    let token = serialize(&ts);
    assert_eq!(token, Token::Number(1711182446123));
    assert_eq!(deserialize(&token), Ok(Timestamp { millis: 1711182446123 }));
    assert_eq!(
        deserialize(&Token::Text("soon".to_string())),
        Err(HookError::InvalidTimestamp)
    );
}

#[test]
fn bad_timestamp_token_is_a_codec_error() {
    let reg = registry();
    let token = Token::Mapping(vec![(
        "created_at".to_string(),
        Token::Text("soon".to_string()),
    )]);
    let err = decode(&reg, &token, STAMPED).unwrap_err();
    assert_eq!(
        err.kind,
        DecodeErrorKind::CustomCodec(HookError::InvalidTimestamp)
    );
    assert_eq!(err.path, vec!["created_at".to_string()]);
    let ok = decode(
        &reg,
        &Token::Mapping(vec![("created_at".to_string(), Token::Number(17))]),
        STAMPED,
    )
    .unwrap();
    assert_eq!(ok, Datum::Record(vec![Datum::Int(17)]));
}

#[test]
fn composite_name_splits_and_joins() {
    let reg = registry();
    let name = Datum::Record(vec![
        Datum::Text("ekotaro".to_string()),
        Datum::Text("kuroniwa".to_string()),
    ]);
    let token = encode(&reg, &name, NAME);
    assert_eq!(token, Token::Text("ekotaro kuroniwa".to_string()));
    assert_eq!(decode(&reg, &token, NAME).unwrap(), name);
}

#[test]
fn composite_name_splits_at_first_space() {
    let reg = registry();
    let name = decode(&reg, &Token::Text("one two three".to_string()), NAME).unwrap();
    assert_eq!(
        name,
        Datum::Record(vec![
            Datum::Text("one".to_string()),
            Datum::Text("two three".to_string()),
        ])
    );
    assert_eq!(encode(&reg, &name, NAME), Token::Text("one two three".to_string()));
    let spaced = decode(&reg, &Token::Text("a  b".to_string()), NAME).unwrap();
    assert_eq!(
        spaced,
        Datum::Record(vec![
            Datum::Text("a".to_string()),
            Datum::Text(" b".to_string()),
        ])
    );
}

#[test]
fn composite_name_without_space_is_malformed() {
    let reg = registry();
    let err = decode(&reg, &Token::Text("ekotarokuroniwa".to_string()), NAME).unwrap_err();
    assert_eq!(
        err.kind,
        DecodeErrorKind::CustomCodec(HookError::MalformedName)
    );
    let err = decode(&reg, &Token::Text(" last".to_string()), NAME).unwrap_err();
    assert_eq!(
        err.kind,
        DecodeErrorKind::CustomCodec(HookError::MalformedName)
    );
    let err = decode(&reg, &Token::Text("first ".to_string()), NAME).unwrap_err();
    assert_eq!(
        err.kind,
        DecodeErrorKind::CustomCodec(HookError::MalformedName)
    );
}

#[test]
fn nested_error_paths_name_the_route() {
    let reg = registry();
    let token = Token::Mapping(vec![
        ("type".to_string(), Token::Text("BankAccount".to_string())),
        ("account_number".to_string(), Token::Text("1".to_string())),
    ]);
    let err = decode(&reg, &token, PAYMENT).unwrap_err();
    assert_eq!(err.kind, DecodeErrorKind::MissingField("bank_name".to_string()));
    assert_eq!(
        err.path,
        vec!["BankAccount".to_string(), "bank_name".to_string()]
    );
}

#[test]
fn token_accessors_reach_members() {
    let mapping = Token::Mapping(vec![
        ("one".to_string(), Token::Number(1)),
        ("two".to_string(), Token::Number(2)),
    ]);
    assert!(mapping.has_key(&"two".to_string()));
    assert!(!mapping.has_key(&"three".to_string()));
    assert_eq!(mapping.get(&"one".to_string()), Some(&Token::Number(1)));
    assert_eq!(mapping.get(&"three".to_string()), None);
    assert_eq!(Token::Null.get(&"one".to_string()), None);
    let sequence = Token::Sequence(vec![Token::Bool(true), Token::Null]);
    assert_eq!(sequence.seq_len(), 2);
    assert_eq!(sequence.seq_at(1), &Token::Null);
}

#[test]
fn malformed_wire_text_is_a_syntax_error() {
    let err = from_json_text("{\"a\": ").unwrap_err();
    assert!(err.line >= 1);
    let ok = from_json_text("{\"a\":true,\"b\":null}").unwrap();
    assert_eq!(
        ok,
        Token::Mapping(vec![
            ("a".to_string(), Token::Bool(true)),
            ("b".to_string(), Token::Null),
        ])
    );
}
