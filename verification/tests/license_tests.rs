use base64::Engine;
use rustdesk_server_pro::license::{
    decode_license_key, encode_license_key, ActiveLicense, LicenseData, LicenseError,
    LicenseInfo, LicenseManager, LicenseType,
};
use rustdesk_server_pro::time::{Timestamp, SECS_PER_DAY};

/// An instant as RFC 3339 text, the way the application writes it.
fn rfc3339(t: Timestamp) -> String {
    chrono::DateTime::from_timestamp(t.secs, t.nanos).unwrap().to_rfc3339()
}

/// An RFC 3339 text read back as an instant.
fn instant(text: &str) -> Timestamp {
    let t = chrono::DateTime::parse_from_rfc3339(text).unwrap();
    Timestamp { secs: t.timestamp(), nanos: t.timestamp_subsec_nanos() }
}

/// Writes the payload of a key as JSON, the way the application does.
fn payload_json(d: &LicenseData) -> Vec<u8> {
    format!(
        "{{\"id\":\"{}\",\"license_type\":\"{}\",\"valid_until\":\"{}\",\"max_devices\":{},\"issued_at\":\"{}\",\"signature\":[]}}",
        d.id,
        d.license_type.as_str(),
        rfc3339(d.valid_until),
        d.max_devices,
        rfc3339(d.issued_at)
    )
    .into_bytes()
}

/// Reads the payload back.
fn payload_data(bytes: &[u8]) -> LicenseData {
    let v: serde_json::Value = serde_json::from_slice(bytes).unwrap();
    LicenseData {
        id: v["id"].as_str().unwrap().to_string(),
        license_type: LicenseType::parse(v["license_type"].as_str().unwrap()).unwrap(),
        valid_until: instant(v["valid_until"].as_str().unwrap()),
        max_devices: v["max_devices"].as_i64().unwrap() as i32,
        issued_at: instant(v["issued_at"].as_str().unwrap()),
        signature: Vec::new(),
    }
}

fn now() -> Timestamp {
    let t = chrono::Utc::now();
    Timestamp { secs: t.timestamp(), nanos: t.timestamp_subsec_nanos() }
}

fn ts(secs: i64) -> Timestamp {
    Timestamp { secs, nanos: 0 }
}

#[test]
fn test_generate_and_validate_license() {
    let mut manager = LicenseManager::new();

    let data = manager.prepare_license("pro", 30, Some(50)).unwrap();
    let key = encode_license_key(&payload_json(&data));
    assert!(!key.is_empty());

    let payload = decode_license_key(&key).unwrap();
    let info = manager.activate(payload_data(&payload)).unwrap();
    assert_eq!(info.license_type, LicenseType::Pro);
    assert_eq!(info.max_devices, Some(50));
    assert!(now().is_before(&info.valid_until));
}

#[test]
fn test_validate_invalid_key() {
    let result = decode_license_key("invalid-key");
    assert!(result.is_err());
}

#[test]
fn test_expired_license() {
    let mut manager = LicenseManager::new();
    let data = manager.prepare_license("basic", -1, None).unwrap();
    let key = encode_license_key(&payload_json(&data));
    let payload = decode_license_key(&key).unwrap();
    let result = manager.activate(payload_data(&payload));
    assert!(matches!(result, Err(LicenseError::Expired)));
    assert!(manager.get_active_license().is_none());
}

#[test]
fn license_kinds_and_defaults() {
    assert_eq!(LicenseType::parse("basic"), Ok(LicenseType::Basic));
    assert_eq!(LicenseType::parse("PRO"), Ok(LicenseType::Pro));
    assert_eq!(LicenseType::parse("Enterprise"), Ok(LicenseType::Enterprise));
    assert_eq!(LicenseType::parse("gold"), Err(()));
    assert_eq!("pro".parse::<LicenseType>(), Ok(LicenseType::Pro));
    assert_eq!(LicenseType::Basic.max_devices_default(), 50);
    assert_eq!(LicenseType::Pro.max_devices_default(), 200);
    assert_eq!(LicenseType::Enterprise.max_devices_default(), -1);
    for t in [LicenseType::Basic, LicenseType::Pro, LicenseType::Enterprise] {
        assert_eq!(LicenseType::parse(t.as_str()), Ok(t));
    }
}

#[test]
fn prepare_license_fills_the_term_and_budget() {
    let manager = LicenseManager::new();
    let d = manager.prepare_license("basic", 10, None).unwrap();
    assert_eq!(d.license_type, LicenseType::Basic);
    assert_eq!(d.max_devices, 50);
    assert_eq!(d.valid_until.secs, d.issued_at.secs + 10 * SECS_PER_DAY);
    assert_eq!(d.valid_until.nanos, d.issued_at.nanos);
    assert_eq!(d.id.len(), 36);
    assert!(d.signature.is_empty());
    assert!(matches!(manager.prepare_license("silver", 10, None), Err(LicenseError::InvalidType)));
    assert!(matches!(
        manager.prepare_license("pro", i64::MAX, None),
        Err(LicenseError::InvalidParameter(_))
    ));
}

#[test]
fn key_layout_roundtrips() {
    let payload = b"{\"x\":1}".to_vec();
    let key = encode_license_key(&payload);
    assert_eq!(decode_license_key(&key), Ok(payload.clone()));
    // The key is Base64 of version byte, 64 zero bytes, then the payload.
    let mut expected = vec![1u8];
    expected.extend_from_slice(&[0u8; 64]);
    expected.extend_from_slice(&payload);
    assert_eq!(key, base64::engine::general_purpose::STANDARD.encode(&expected));
}

#[test]
fn key_framing_errors() {
    let enc = |b: &[u8]| base64::engine::general_purpose::STANDARD.encode(b);
    // Empty.
    assert_eq!(decode_license_key(&enc(&[])), Err(LicenseError::InvalidFormat));
    // Wrong version.
    let mut wrong = vec![2u8];
    wrong.extend_from_slice(&[0u8; 70]);
    assert_eq!(decode_license_key(&enc(&wrong)), Err(LicenseError::InvalidFormat));
    // Header only.
    let mut header = vec![1u8];
    header.extend_from_slice(&[0u8; 64]);
    assert_eq!(decode_license_key(&enc(&header)), Err(LicenseError::InvalidFormat));
    // One byte of payload is enough.
    header.push(b'7');
    assert_eq!(decode_license_key(&enc(&header)), Ok(vec![b'7']));
}

fn data(valid_until: i64, max_devices: i32) -> LicenseData {
    LicenseData {
        id: "L-1".to_string(),
        license_type: LicenseType::Pro,
        valid_until: ts(valid_until),
        max_devices,
        issued_at: ts(0),
        signature: Vec::new(),
    }
}

#[test]
fn activation_at_a_given_instant() {
    let mut m = LicenseManager::new();
    assert_eq!(m.activate_at(data(100, 3), ts(101)).unwrap_err(), LicenseError::Expired);
    assert!(m.get_active_license().is_none());
    let info = m.activate_at(data(100, 3), ts(100)).unwrap();
    assert_eq!(info.max_devices, Some(3));
    assert_eq!(m.get_active_license().unwrap().id, "L-1");
    let unlimited = m.activate_at(data(100, -1), ts(0)).unwrap();
    assert_eq!(unlimited.max_devices, None);
}

#[test]
fn device_budget_is_enforced() {
    let mut m = LicenseManager::new();
    // No licence: always room.
    assert_eq!(m.check_device_limit(), Ok(true));
    assert_eq!(m.increment_device_count(), Ok(()));
    m.activate_at(data(100, 2), ts(0)).unwrap();
    assert_eq!(m.check_device_limit(), Ok(true));
    assert_eq!(m.increment_device_count(), Ok(()));
    assert_eq!(m.increment_device_count(), Ok(()));
    assert_eq!(m.check_device_limit(), Ok(false));
    assert_eq!(m.increment_device_count(), Err(LicenseError::DeviceLimitExceeded));
    assert_eq!(m.active_license.as_ref().unwrap().device_count, 2);
    // A new licence starts counting again.
    m.activate_at(data(100, -1), ts(0)).unwrap();
    for _ in 0..10 {
        assert_eq!(m.increment_device_count(), Ok(()));
    }
    assert_eq!(m.active_license.as_ref().unwrap().device_count, 0);
}

#[test]
fn license_info_from_data_reads_budget() {
    let info = LicenseInfo::from_data(data(5, 0));
    assert_eq!(info.max_devices, Some(0));
    let active = ActiveLicense { info, device_count: 0 };
    assert_eq!(active.device_count, 0);
}

#[test]
fn license_error_messages() {
    assert_eq!(LicenseError::Expired.message(), "License has expired");
    assert_eq!(LicenseError::InvalidFormat.message(), "Invalid license key format");
    assert_eq!(
        LicenseError::CryptoError("x".to_string()).message(),
        "Crypto error: x"
    );
    assert_eq!(LicenseError::InvalidSignature.message(), "License signature verification failed");
    assert_eq!(LicenseError::NotFound.message(), "License key not found");
    assert_eq!(LicenseError::DeviceLimitExceeded.message(), "Maximum device limit reached");
    assert_eq!(LicenseError::InvalidType.message(), "License type not recognized");
    assert_eq!(LicenseError::DatabaseError("d".to_string()).message(), "Database error: d");
    assert_eq!(LicenseError::IoError("i".to_string()).message(), "IO error: i");
    assert_eq!(LicenseError::InvalidParameter("p".to_string()).message(), "Invalid parameter: p");
}

#[test]
fn key_length_is_the_padded_base64_length() {
    let key = encode_license_key(b"x");
    // 1 version byte, 64 signature bytes and 1 payload byte: 66 bytes, 22 groups of three.
    assert_eq!(key.len(), 88);
    assert!(key.ends_with(|c: char| c != '='));
}

#[test]
fn expiry_is_decided_to_the_nanosecond() {
    let mut m = LicenseManager::new();
    let mut d = data(100, 3);
    d.valid_until = Timestamp { secs: 100, nanos: 5 };
    assert_eq!(
        m.activate_at(d, Timestamp { secs: 100, nanos: 6 }).unwrap_err(),
        LicenseError::Expired
    );
    let mut d = data(100, 3);
    d.valid_until = Timestamp { secs: 100, nanos: 5 };
    assert!(m.activate_at(d, Timestamp { secs: 100, nanos: 5 }).is_ok());
}
