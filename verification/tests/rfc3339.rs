use cargo_registry::models::token::{ApiToken, CreatedApiToken};
use cargo_registry::util::timestamp::Timestamp;
use cargo_registry::util::token::{SecureToken, SecureTokenKind};
use chrono::NaiveDate;

fn timestamp(year: i32, month: u32, day: u32, hour: u32, min: u32, sec: u32) -> Timestamp {
    let at = NaiveDate::from_ymd_opt(year, month, day).unwrap().and_hms_opt(hour, min, sec).unwrap();
    Timestamp::from_micros(at.and_utc().timestamp_micros())
}

fn text(at: Option<Timestamp>) -> serde_json::Value {
    match at.and_then(|t| t.to_rfc3339()) {
        Some(text) => serde_json::Value::String(text),
        None => serde_json::Value::Null,
    }
}

#[test]
fn api_token_serializes_to_rfc3339() {
    let tok = ApiToken::new(
        12345,
        23456,
        SecureToken::generate(SecureTokenKind::Api).into_inner(),
        "".to_string(),
        timestamp(2017, 1, 6, 14, 23, 11),
        Some(timestamp(2017, 1, 6, 14, 23, 12)),
        false,
        None,
        None,
    );
    let mut fields = serde_json::Map::new();
    fields.insert("id".to_string(), serde_json::Value::from(tok.id));
    fields.insert("name".to_string(), serde_json::Value::from(tok.name.clone()));
    fields.insert("created_at".to_string(), text(Some(tok.created_at)));
    fields.insert("last_used_at".to_string(), text(tok.last_used_at));
    let json = serde_json::to_string(&serde_json::Value::Object(fields)).unwrap();
    assert!(json.as_str().find(r#""created_at":"2017-01-06T14:23:11+00:00""#).is_some());
    assert!(json.as_str().find(r#""last_used_at":"2017-01-06T14:23:12+00:00""#).is_some());
}

#[test]
fn encodeable_api_token_with_token_serializes_to_rfc3339() {
    let tok = CreatedApiToken {
        model: ApiToken::new(
            12345,
            0,
            SecureToken::generate(SecureTokenKind::Api).into_inner(),
            "".to_string(),
            timestamp(2017, 1, 6, 14, 23, 11),
            Some(timestamp(2017, 1, 6, 14, 23, 12)),
            false,
            None,
            None,
        ),
        plaintext: "".to_string(),
    };
    let mut fields = serde_json::Map::new();
    fields.insert("id".to_string(), serde_json::Value::from(tok.model.id));
    fields.insert("name".to_string(), serde_json::Value::from(tok.model.name.clone()));
    fields.insert("token".to_string(), serde_json::Value::from(tok.plaintext.clone()));
    fields.insert("revoked".to_string(), serde_json::Value::from(tok.model.revoked));
    fields.insert("created_at".to_string(), text(Some(tok.model.created_at)));
    fields.insert("last_used_at".to_string(), text(tok.model.last_used_at));
    let json = serde_json::to_string(&serde_json::Value::Object(fields)).unwrap();
    assert!(json.as_str().find(r#""created_at":"2017-01-06T14:23:11+00:00""#).is_some());
    assert!(json.as_str().find(r#""last_used_at":"2017-01-06T14:23:12+00:00""#).is_some());
}

#[test]
fn rfc3339_text_of_known_instants() {
    assert_eq!(Timestamp::from_micros(0).to_rfc3339().unwrap(), "1970-01-01T00:00:00+00:00");
    assert_eq!(
        Timestamp::from_micros(1_483_712_591_000_000).to_rfc3339().unwrap(),
        "2017-01-06T14:23:11+00:00"
    );
    assert_eq!(
        Timestamp::from_micros(1_483_712_591_250_000).to_rfc3339().unwrap(),
        "2017-01-06T14:23:11.250+00:00"
    );
    assert_eq!(
        Timestamp::from_micros(1_483_712_591_000_001).to_rfc3339().unwrap(),
        "2017-01-06T14:23:11.000001+00:00"
    );
    assert_eq!(Timestamp::from_micros(-1_000_000).to_rfc3339().unwrap(), "1969-12-31T23:59:59+00:00");
}

#[test]
fn rfc3339_text_is_missing_beyond_the_calendar() {
    assert!(Timestamp::from_micros(i64::MAX).to_rfc3339().is_none());
    assert!(Timestamp::from_micros(i64::MIN).to_rfc3339().is_none());
}

#[test]
fn later_of_picks_the_later_timestamp() {
    let a = Timestamp::from_micros(5);
    let b = Timestamp::from_micros(6);
    assert_eq!(a.later_of(b), b);
    assert_eq!(b.later_of(a), b);
    assert_eq!(a.later_of(a), a);
    assert_eq!(Timestamp::from_micros(-1).later_of(Timestamp::from_micros(-2)).micros, -1);
}
