use hacksim::codec::{decode_result, encode_result};
use hacksim::resolve::CommandResult;

fn record(
    success: bool,
    message: Option<&str>,
    experience: Option<u32>,
    money: Option<u32>,
    detection: Option<u32>,
) -> CommandResult {
    CommandResult {
        success,
        message: message.map(|s| s.to_string()),
        experience,
        money,
        detection,
    }
}

#[test]
fn encode_full_record() {
    let r = record(true, Some("hi"), Some(50), None, Some(25));
    assert_eq!(
        encode_result(&r),
        "{\"success\":true,\"message\":\"hi\",\"experience\":50,\"money\":null,\"detection\":25}"
    );
}

#[test]
fn encode_failure_record() {
    let r = record(false, None, None, None, None);
    assert_eq!(
        encode_result(&r),
        "{\"success\":false,\"message\":null,\"experience\":null,\"money\":null,\"detection\":null}"
    );
}

#[test]
fn encode_escapes_quotes_and_backslashes() {
    let r = record(true, Some("a\"b\\c"), None, None, None);
    assert_eq!(
        encode_result(&r),
        "{\"success\":true,\"message\":\"a\\\"b\\\\c\",\"experience\":null,\"money\":null,\"detection\":null}"
    );
}

#[test]
fn decode_reads_back_fields() {
    let r = decode_result(
        "{\"success\":true,\"message\":\"hi\",\"experience\":50,\"money\":null,\"detection\":25}",
    )
    .unwrap();
    assert!(r.success);
    assert_eq!(r.message, Some("hi".to_string()));
    assert_eq!(r.experience, Some(50));
    assert_eq!(r.money, None);
    assert_eq!(r.detection, Some(25));
}

#[test]
fn round_trip_restores_every_field() {
    let samples = vec![
        record(true, Some("Password cracked: abcdefghijkl"), Some(100), Some(500), Some(25)),
        record(false, Some("Failed to crack password"), Some(25), Some(0), Some(25)),
        record(false, None, None, None, None),
        record(true, Some("line one\nline \"two\" \\ end"), Some(0), Some(4294967295), Some(100)),
        record(true, Some(""), None, Some(0), None),
    ];
    for original in samples {
        let encoded = encode_result(&original);
        let decoded = decode_result(&encoded).unwrap();
        assert_eq!(decoded.success, original.success);
        assert_eq!(decoded.message, original.message);
        assert_eq!(decoded.experience, original.experience);
        assert_eq!(decoded.money, original.money);
        assert_eq!(decoded.detection, original.detection);
    }
}

#[test]
fn decode_rejects_malformed_documents() {
    assert!(decode_result("").is_none());
    assert!(decode_result("{}").is_none());
    assert!(decode_result("{\"success\":maybe,\"message\":null,\"experience\":null,\"money\":null,\"detection\":null}").is_none());
    assert!(decode_result("{\"success\":true,\"message\":null,\"experience\":null,\"money\":null,\"detection\":null} ").is_none());
    assert!(decode_result("{\"success\":true,\"message\":\"unterminated,\"experience\":null,\"money\":null,\"detection\":null}").is_none());
    assert!(decode_result("{\"success\":true,\"message\":null,\"experience\":99999999999,\"money\":null,\"detection\":null}").is_none());
}
