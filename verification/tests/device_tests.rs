use rustdesk_server_pro::time::Timestamp;
use rustdesk_server_pro::device::{
    device_from_row, list_devices_query, require_unregistered, DeviceCreateRequest, require_affected, update_assignments,
    update_device_statement, DeviceError, DeviceRow, DeviceStatus, DeviceUpdateRequest,
};
use rustdesk_server_pro::web::{ListDevicesQuery, UpdateDeviceStatusRequest};

fn empty_update() -> DeviceUpdateRequest {
    DeviceUpdateRequest {
        name: None,
        hostname: None,
        os_type: None,
        os_version: None,
        ip_address: None,
        status: None,
        approved: None,
    }
}

const NOW: &str = "2024-01-02T03:04:05+00:00";

#[test]
fn status_names() {
    for s in [DeviceStatus::Online, DeviceStatus::Offline, DeviceStatus::Away, DeviceStatus::Unknown] {
        assert_eq!(DeviceStatus::from_stored(s.as_str()), s);
    }
    assert_eq!(DeviceStatus::from_stored("ONLINE"), DeviceStatus::Online);
    assert_eq!(DeviceStatus::from_stored("gone"), DeviceStatus::Unknown);
    assert_eq!(DeviceStatus::parse_filter("Away"), Some(DeviceStatus::Away));
    assert_eq!(DeviceStatus::parse_filter("unknown"), None);
}

#[test]
fn empty_update_only_stamps_time() {
    let (sql, params) = update_device_statement(&empty_update(), None, NOW);
    assert_eq!(sql, "UPDATE devices SET updated_at = ? WHERE id = ?");
    assert_eq!(params, vec![NOW.to_string()]);
}

#[test]
fn full_update_statement() {
    let req = DeviceUpdateRequest {
        name: Some("pc".to_string()),
        hostname: Some("host".to_string()),
        os_type: Some("linux".to_string()),
        os_version: Some("6".to_string()),
        ip_address: Some("10.0.0.1".to_string()),
        status: Some(DeviceStatus::Online),
        approved: Some(true),
    };
    let (sql, params) = update_device_statement(&req, Some("root".to_string()), NOW);
    assert_eq!(
        sql,
        "UPDATE devices SET name = ?, hostname = ?, os_type = ?, os_version = ?, ip_address = ?, \
         status = ?, last_online = ?, approved = ?, approved_by = ?, approved_at = ?, updated_at = ? \
         WHERE id = ?"
    );
    assert_eq!(
        params,
        vec!["pc", "host", "linux", "6", "10.0.0.1", "online", NOW, "1", "root", NOW, NOW]
            .into_iter()
            .map(String::from)
            .collect::<Vec<_>>()
    );
}

#[test]
fn withdrawing_approval_clears_approver() {
    let mut req = empty_update();
    req.approved = Some(false);
    req.status = Some(DeviceStatus::Away);
    let (sql, params) = update_device_statement(&req, Some("ignored".to_string()), NOW);
    assert_eq!(
        sql,
        "UPDATE devices SET status = ?, approved = ?, approved_by = NULL, approved_at = NULL, updated_at = ? WHERE id = ?"
    );
    assert_eq!(params, vec!["away".to_string(), "0".to_string(), NOW.to_string()]);
}

#[test]
fn approval_request_and_default_approver() {
    let a = update_assignments(&DeviceUpdateRequest::approval(), None, NOW);
    let cols: Vec<&str> = a.iter().map(|(c, _)| c.as_str()).collect();
    assert_eq!(cols, vec!["approved", "approved_by", "approved_at", "updated_at"]);
    assert_eq!(a[1].1, Some(String::new()));
    let s = DeviceUpdateRequest::status_change(DeviceStatus::Offline, Some("1.2.3.4".to_string()));
    let (sql, _) = update_device_statement(&s, None, NOW);
    assert_eq!(sql, "UPDATE devices SET ip_address = ?, status = ?, updated_at = ? WHERE id = ?");
}

#[test]
fn listing_queries() {
    let (q, p) = list_devices_query(None, None, None);
    assert_eq!(q, "SELECT * FROM devices WHERE 1=1");
    assert!(p.is_empty());
    let (q, p) = list_devices_query(Some("o1"), Some(DeviceStatus::Online), Some(false));
    assert_eq!(
        q,
        "SELECT * FROM devices WHERE 1=1 AND organization_id = ? AND status = ? AND approved = ?"
    );
    assert_eq!(p, vec!["o1".to_string(), "online".to_string(), "0".to_string()]);
}

fn row() -> DeviceRow {
    DeviceRow {
        id: Some("id".to_string()),
        device_id: Some("dev".to_string()),
        name: None,
        hostname: Some("h".to_string()),
        os_type: None,
        os_version: None,
        ip_address: None,
        status: Some("Online".to_string()),
        user_id: None,
        organization_id: Some("o".to_string()),
        approved: Some(2),
        approved_by: Some("admin".to_string()),
        approved_at: Some("1970-01-01T00:00:01.000000250Z".to_string()),
        last_online: Some("not a time".to_string()),
        created_at: None,
        updated_at: Some("1970-01-01T01:00:00+01:00".to_string()),
    }
}

#[test]
fn rows_read_back() {
    let d = device_from_row(row(), Timestamp { secs: 99, nanos: 7 });
    assert_eq!(d.id, "id");
    assert_eq!(d.name, "");
    assert_eq!(d.hostname, Some("h".to_string()));
    assert_eq!(d.status, DeviceStatus::Online);
    assert!(d.approved);
    assert_eq!(d.approved_at, Some(Timestamp { secs: 1, nanos: 250 }));
    assert_eq!(d.last_online, None);
    assert_eq!(d.created_at, Timestamp { secs: 99, nanos: 7 });
    assert_eq!(d.updated_at, Timestamp { secs: 0, nanos: 0 });
    let mut r = row();
    r.approved = None;
    r.status = None;
    let d = device_from_row(r, Timestamp { secs: 0, nanos: 0 });
    assert!(!d.approved);
    assert_eq!(d.status, DeviceStatus::Unknown);
}

#[test]
fn device_outcomes_and_messages() {
    assert_eq!(require_affected(0), Err(DeviceError::NotFound));
    assert_eq!(require_affected(3), Ok(()));
    assert_eq!(DeviceError::NotFound.message(), "Device not found");
    assert_eq!(DeviceError::AlreadyExists.message(), "Device already exists");
    assert_eq!(DeviceError::InvalidStatus.message(), "Invalid device status");
    assert_eq!(DeviceError::NotApproved.message(), "Device not approved");
    assert_eq!(DeviceError::DatabaseError("q".to_string()).message(), "Database error: q");
}

#[test]
fn handler_status_parsing() {
    let q = ListDevicesQuery { organization_id: None, status: Some("OFFLINE".to_string()), approved: None };
    assert_eq!(q.status_filter(), Some(DeviceStatus::Offline));
    let q = ListDevicesQuery { organization_id: None, status: Some("sleeping".to_string()), approved: None };
    assert_eq!(q.status_filter(), None);
    let b = UpdateDeviceStatusRequest { status: "away".to_string(), ip_address: None };
    assert_eq!(b.parsed_status(), Some(DeviceStatus::Away));
    let b = UpdateDeviceStatusRequest { status: "unknown".to_string(), ip_address: None };
    assert_eq!(b.parsed_status(), None);
}

#[test]
fn new_device_row_reads_back_offline_and_unapproved() {
    let req = DeviceCreateRequest {
        device_id: "dev-9".to_string(),
        name: "Laptop".to_string(),
        hostname: Some("lap".to_string()),
        os_type: None,
        os_version: None,
        ip_address: Some("10.0.0.9".to_string()),
        organization_id: None,
    };
    let now = "2024-05-01T12:00:00.123456789+00:00".to_string();
    let r = req.new_row("id-9".to_string(), Some("u1".to_string()), now.clone());
    assert_eq!(r.status, Some("offline".to_string()));
    assert_eq!(r.approved, Some(0));
    assert_eq!(r.created_at, Some(now.clone()));
    assert_eq!(r.updated_at, Some(now));
    assert_eq!(r.user_id, Some("u1".to_string()));
    let d = device_from_row(r, Timestamp { secs: 0, nanos: 0 });
    assert_eq!(d.status, DeviceStatus::Offline);
    assert!(!d.approved);
    assert_eq!(d.approved_at, None);
    assert_eq!(d.last_online, None);
    assert_eq!(d.created_at, d.updated_at);
    assert_eq!(d.created_at, Timestamp { secs: 1_714_564_800, nanos: 123_456_789 });
}

fn is_uuid_v4(s: &str) -> bool {
    let b: Vec<char> = s.chars().collect();
    b.len() == 36
        && (0..36).all(|i| {
            if [8, 13, 18, 23].contains(&i) {
                b[i] == '-'
            } else {
                b[i].is_ascii_digit() || ('a'..='f').contains(&b[i])
            }
        })
        && b[14] == '4'
        && ['8', '9', 'a', 'b'].contains(&b[19])
}

#[test]
fn duplicate_device_ids_are_refused() {
    assert_eq!(require_unregistered(true), Err(DeviceError::AlreadyExists));
    assert_eq!(require_unregistered(false), Ok(()));
}

#[test]
fn registered_device_gets_fresh_id_and_time() {
    let req = DeviceCreateRequest {
        device_id: "dev-1".to_string(),
        name: "Desk".to_string(),
        hostname: None,
        os_type: Some("linux".to_string()),
        os_version: None,
        ip_address: None,
        organization_id: Some("org".to_string()),
    };
    let r = req.register(None);
    assert!(is_uuid_v4(r.id.as_deref().unwrap()));
    assert_eq!(r.device_id, Some("dev-1".to_string()));
    assert_eq!(r.status, Some("offline".to_string()));
    assert_eq!(r.approved, Some(0));
    assert!(r.created_at.is_some());
    assert_eq!(r.created_at, r.updated_at);
    let d = device_from_row(r, Timestamp { secs: 0, nanos: 0 });
    assert!(d.created_at.secs > 1_600_000_000);
}
