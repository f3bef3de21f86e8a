use rustdesk_server_pro::time::Timestamp;
use rustdesk_server_pro::audit::{
    list_logs_query, log_from_row, AuditError, AuditLogRequest, AuditLogType, AuditRow,
};
use rustdesk_server_pro::web::{ListAuditLogsQuery, LoginRequest};

const ALL: [AuditLogType; 8] = [
    AuditLogType::Authentication,
    AuditLogType::Authorization,
    AuditLogType::Device,
    AuditLogType::User,
    AuditLogType::License,
    AuditLogType::System,
    AuditLogType::Session,
    AuditLogType::Configuration,
];

#[test]
fn kind_names_read_back() {
    for t in ALL {
        assert_eq!(AuditLogType::parse_filter(t.as_str()), Some(t));
        assert_eq!(AuditLogType::from_stored(t.as_str()), t);
    }
    assert_eq!(AuditLogType::parse_filter("DEVICE"), Some(AuditLogType::Device));
    assert_eq!(AuditLogType::parse_filter("misc"), None);
    assert_eq!(AuditLogType::from_stored("misc"), AuditLogType::System);
}

#[test]
fn listing_query_with_everything() {
    let (q, p) = list_logs_query(
        Some(AuditLogType::Session),
        Some("u1"),
        Some("d1"),
        Some("2024-01-01T00:00:00+00:00"),
        Some("2024-02-01T00:00:00+00:00"),
        Some(50),
        Some(-5),
    );
    assert_eq!(
        q,
        "SELECT * FROM audit_logs WHERE 1=1 AND log_type = ? AND user_id = ? AND device_id = ? \
         AND created_at >= ? AND created_at <= ? ORDER BY created_at DESC LIMIT ? OFFSET ?"
    );
    assert_eq!(
        p,
        vec![
            "session",
            "u1",
            "d1",
            "2024-01-01T00:00:00+00:00",
            "2024-02-01T00:00:00+00:00",
            "50",
            "-5"
        ]
        .into_iter()
        .map(String::from)
        .collect::<Vec<_>>()
    );
    let (q, p) = list_logs_query(None, None, None, None, None, None, Some(i32::MIN));
    assert_eq!(q, "SELECT * FROM audit_logs WHERE 1=1 ORDER BY created_at DESC OFFSET ?");
    assert_eq!(p, vec!["-2147483648".to_string()]);
}

#[test]
fn request_builders() {
    let a = AuditLogRequest::authentication(Some("u".to_string()), None, "login", Some("ip".to_string()), Some("ua".to_string()));
    assert_eq!(a.log_type, AuditLogType::Authentication);
    assert_eq!(a.action, "login");
    assert_eq!(a.user_agent, Some("ua".to_string()));
    assert_eq!(a.device_id, None);
    let d = AuditLogRequest::device(None, None, Some("d".to_string()), Some("n".to_string()), "approve", None, Some("{}".to_string()));
    assert_eq!(d.log_type, AuditLogType::Device);
    assert_eq!(d.details, Some("{}".to_string()));
    let s = AuditLogRequest::session(None, None, None, None, "connect", Some("1.1.1.1".to_string()));
    assert_eq!(s.log_type, AuditLogType::Session);
    assert_eq!(s.ip_address, Some("1.1.1.1".to_string()));
    let c = AuditLogRequest::configuration(None, Some("admin".to_string()), "set", None);
    assert_eq!(c.log_type, AuditLogType::Configuration);
    let values = c.row_values("id9", "T");
    assert_eq!(values.len(), 11);
    assert_eq!(values[0], Some("id9".to_string()));
    assert_eq!(values[1], Some("configuration".to_string()));
    assert_eq!(values[2], Some("set".to_string()));
    assert_eq!(values[4], Some("admin".to_string()));
    assert_eq!(values[10], Some("T".to_string()));
}

#[test]
fn rows_read_back_with_checked_details() {
    let row = AuditRow {
        id: Some("1".to_string()),
        log_type: Some("LICENSE".to_string()),
        action: None,
        user_id: None,
        username: None,
        device_id: None,
        device_name: None,
        ip_address: None,
        user_agent: None,
        details: Some("{\"a\": [1, 2]}".to_string()),
        created_at: Some("2000-01-01T00:00:00Z".to_string()),
    };
    let l = log_from_row(row, Timestamp { secs: 5, nanos: 0 });
    assert_eq!(l.log_type, AuditLogType::License);
    assert_eq!(l.action, "");
    assert_eq!(l.details, Some("{\"a\": [1, 2]}".to_string()));
    assert_eq!(l.created_at, Timestamp { secs: 946_684_800, nanos: 0 });
    let row = AuditRow {
        id: None,
        log_type: None,
        action: Some("x".to_string()),
        user_id: None,
        username: None,
        device_id: None,
        device_name: None,
        ip_address: None,
        user_agent: None,
        details: Some("{not json".to_string()),
        created_at: None,
    };
    let l = log_from_row(row, Timestamp { secs: 5, nanos: 0 });
    assert_eq!(l.log_type, AuditLogType::System);
    assert_eq!(l.details, None);
    assert_eq!(l.created_at, Timestamp { secs: 5, nanos: 0 });
}

#[test]
fn audit_messages_and_handler_parsing() {
    assert_eq!(AuditError::NotFound.message(), "Log not found");
    assert_eq!(AuditError::DatabaseError("x".to_string()).message(), "Database error: x");
    assert_eq!(AuditError::SerializationError("y".to_string()).message(), "Serialization error: y");
    let q = ListAuditLogsQuery { log_type: Some("User".to_string()), user_id: None, device_id: None, limit: None, offset: None };
    assert_eq!(q.log_type_filter(), Some(AuditLogType::User));
    let q = ListAuditLogsQuery { log_type: Some("other".to_string()), user_id: None, device_id: None, limit: None, offset: None };
    assert_eq!(q.log_type_filter(), None);
    let l = LoginRequest { username: "a".to_string(), password: "b".to_string() }.into_login();
    assert_eq!(l.username, "a");
    assert_eq!(l.password, "b");
}

fn is_uuid_v4(s: &str) -> bool {
    let b: Vec<char> = s.chars().collect();
    b.len() == 36
        && (0..36).all(|i| {
            if [8, 13, 18, 23].contains(&i) {
                b[i] == '-'
            } else {
                b[i].is_ascii_digit() || ('a'..='f').contains(&b[i])
            }
        })
        && b[14] == '4'
        && ['8', '9', 'a', 'b'].contains(&b[19])
}

#[test]
fn recorded_values_get_fresh_id_and_time() {
    let req = AuditLogRequest::authentication(Some("u1".to_string()), Some("bob".to_string()), "login", None, None);
    let v = req.record_values();
    assert_eq!(v.len(), 11);
    assert!(is_uuid_v4(v[0].as_deref().unwrap()));
    assert_eq!(v[2], Some("login".to_string()));
    assert!(v[10].is_some());
}
