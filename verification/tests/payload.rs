use node_scheduler::payload::{EncodeType, Error, PayloadType, RawPayload};

fn ptype(s: &str) -> PayloadType {
    PayloadType::try_from(s.to_string()).unwrap()
}

#[test]
fn payload_type_follows_the_pattern() {
    let t = ptype("ping");
    assert_eq!(t.to_string(), "ping");
    assert_eq!(String::from(t), "ping");
    assert!(matches!(
        PayloadType::try_from("ping pong".to_string()),
        Err(Error::InvalidPayloadType(s)) if s == "ping pong"
    ));
    assert!(PayloadType::try_from("abcdefghijklmnopq".to_string()).is_err());
}

#[test]
fn raw_payload_keeps_its_parts() {
    let p = RawPayload::new(EncodeType::Json, ptype("pong"), vec![1, 2, 3]);
    assert_eq!(p.encode_type(), EncodeType::Json);
    assert_eq!(p.payload_type(), &ptype("pong"));
    assert_eq!(p.raw(), &[1u8, 2, 3][..]);
    let q = p.clone();
    assert_eq!(q.raw(), p.raw());
    assert_eq!(q.payload_type(), p.payload_type());
}

#[test]
fn type_check_accepts_the_same_type() {
    let p = RawPayload::new(EncodeType::Bincode, ptype("ping"), vec![]);
    assert!(p.check_payload_type(&ptype("ping")).is_ok());
}

#[test]
fn type_check_names_both_types() {
    let p = RawPayload::new(EncodeType::Bincode, ptype("ping"), vec![]);
    match p.check_payload_type(&ptype("pong")) {
        Err(Error::PayloadTypeNotMatch { expected, found }) => {
            assert_eq!(expected, ptype("pong"));
            assert_eq!(found, ptype("ping"));
        }
        _ => panic!("mismatch not reported"),
    }
}

#[test]
fn from_encoded_builds_a_payload() {
    let p = RawPayload::from_encoded(EncodeType::Json, ptype("pong"), Ok(b"{}".to_vec())).unwrap();
    assert_eq!(p.encode_type(), EncodeType::Json);
    assert_eq!(p.payload_type(), &ptype("pong"));
    assert_eq!(p.raw(), b"{}");
    assert!(p.check_payload_type(&ptype("pong")).is_ok());
}

#[test]
fn from_encoded_passes_the_encoding_error_on() {
    let json_err = serde_json::from_slice::<serde_json::Value>(b"{").unwrap_err();
    let r = RawPayload::from_encoded(EncodeType::Json, ptype("pong"), Err(Error::JsonError(json_err)));
    assert!(matches!(r, Err(Error::JsonError(_))));
}
