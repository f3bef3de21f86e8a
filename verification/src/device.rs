//! Devices: their records, how an update request becomes an `UPDATE` statement,
//! how a listing request becomes a filtered query, and how a stored row is read back.
use vstd::prelude::*;
use vstd::string::*;

use crate::sql::{
    apply_conditions, assignments_view, bound_values, conditions_view, fragments, opt_view,
    update_statement, update_text, Assignment, Condition,
};
use crate::text::{folded, matches_word, same_word, texts};
use crate::license::{fresh_uuid, uuid_v4_text};
use crate::time::Timestamp;

verus! {

// ----------------------------------------------------------------------------
// Trusted items
// ----------------------------------------------------------------------------

/// The instant (seconds since the Unix epoch and nanoseconds past them) that chrono reads
/// from an RFC 3339 text, or `None` where it rejects the text.
pub uninterp spec fn rfc3339_instant(text: Seq<char>) -> Option<(i64, u32)>;

/// Calls `chrono::DateTime::parse_from_rfc3339`, moves the result to UTC and reads it
/// with `timestamp` and `timestamp_subsec_nanos`. Claims that the result is the named
/// reading of the text.
#[verifier::external_body]
pub(crate) fn parse_rfc3339(text: &str) -> (r: Option<Timestamp>)
    ensures
        match r {
            Some(t) => rfc3339_instant(text@) == Some((t.secs, t.nanos)),
            None => rfc3339_instant(text@) is None,
        },
{
    chrono::DateTime::parse_from_rfc3339(text).ok().map(|t| {
        let utc = t.with_timezone(&chrono::Utc);
        Timestamp { secs: utc.timestamp(), nanos: utc.timestamp_subsec_nanos() }
    })
}

// ----------------------------------------------------------------------------
// Errors and status
// ----------------------------------------------------------------------------

/// Why a device operation failed.
#[derive(Debug, PartialEq, Eq)]
pub enum DeviceError {
    NotFound,
    AlreadyExists,
    InvalidStatus,
    NotApproved,
    DatabaseError(String),
}

/// The message shown for an error.
pub open spec fn device_error_message(e: DeviceError) -> Seq<char> {
    match e {
        DeviceError::NotFound => "Device not found"@,
        DeviceError::AlreadyExists => "Device already exists"@,
        DeviceError::InvalidStatus => "Invalid device status"@,
        DeviceError::NotApproved => "Device not approved"@,
        DeviceError::DatabaseError(s) => "Database error: "@ + s@,
    }
}

impl DeviceError {
    /// The message shown for the error.
    pub fn message(&self) -> (m: String)
        ensures
            m@ == device_error_message(*self),
    {
        match self {
            DeviceError::NotFound => "Device not found".to_owned(),
            DeviceError::AlreadyExists => "Device already exists".to_owned(),
            DeviceError::InvalidStatus => "Invalid device status".to_owned(),
            DeviceError::NotApproved => "Device not approved".to_owned(),
            DeviceError::DatabaseError(s) => {
                let mut m = "Database error: ".to_owned();
                m.append(s.as_str());
                m
            },
        }
    }
}

/// The connection state of a device.
#[derive(Debug, Clone, Copy, PartialEq, Eq, Structural)]
pub enum DeviceStatus {
    Online,
    Offline,
    Away,
    Unknown,
}

/// The stored and displayed name of a status.
pub open spec fn status_name(s: DeviceStatus) -> Seq<char> {
    match s {
        DeviceStatus::Online => "online"@,
        DeviceStatus::Offline => "offline"@,
        DeviceStatus::Away => "away"@,
        DeviceStatus::Unknown => "unknown"@,
    }
}

/// The status a stored name reads as: one of the three known states (letters compared
/// without regard to case), anything else being unknown.
pub open spec fn stored_status(s: Seq<char>) -> DeviceStatus {
    if same_word(s, "online"@) {
        DeviceStatus::Online
    } else if same_word(s, "offline"@) {
        DeviceStatus::Offline
    } else if same_word(s, "away"@) {
        DeviceStatus::Away
    } else {
        DeviceStatus::Unknown
    }
}

/// The status a filter names: one of the three known states, or none.
pub open spec fn filter_status(s: Seq<char>) -> Option<DeviceStatus> {
    if same_word(s, "online"@) {
        Some(DeviceStatus::Online)
    } else if same_word(s, "offline"@) {
        Some(DeviceStatus::Offline)
    } else if same_word(s, "away"@) {
        Some(DeviceStatus::Away)
    } else {
        None
    }
}

impl DeviceStatus {
    /// The name of the status.
    pub fn as_str(&self) -> (s: &'static str)
        ensures
            s@ == status_name(*self),
    {
        match self {
            DeviceStatus::Online => "online",
            DeviceStatus::Offline => "offline",
            DeviceStatus::Away => "away",
            DeviceStatus::Unknown => "unknown",
        }
    }

    /// The status a stored name reads as.
    pub fn from_stored(s: &str) -> (r: DeviceStatus)
        ensures
            r == stored_status(s@),
    {
        if matches_word(s, "online") {
            DeviceStatus::Online
        } else if matches_word(s, "offline") {
            DeviceStatus::Offline
        } else if matches_word(s, "away") {
            DeviceStatus::Away
        } else {
            DeviceStatus::Unknown
        }
    }

    /// The status a listing or status-change request names, if it names one.
    pub fn parse_filter(s: &str) -> (r: Option<DeviceStatus>)
        ensures
            r == filter_status(s@),
    {
        if matches_word(s, "online") {
            Some(DeviceStatus::Online)
        } else if matches_word(s, "offline") {
            Some(DeviceStatus::Offline)
        } else if matches_word(s, "away") {
            Some(DeviceStatus::Away)
        } else {
            None
        }
    }
}

/// Every status reads back from its own name; the three known ones are also accepted as
/// filters, and the unknown one is not.
pub proof fn lemma_status_names_read_back(s: DeviceStatus)
    ensures
        stored_status(status_name(s)) == s,
        filter_status(status_name(s)) == (if s == DeviceStatus::Unknown {
            None
        } else {
            Some(s)
        }),
{
    reveal_strlit("online");
    reveal_strlit("offline");
    reveal_strlit("away");
    reveal_strlit("unknown");
    let n = status_name(s);
    match s {
        DeviceStatus::Online => {
            assert(same_word(n, "online"@));
        },
        DeviceStatus::Offline => {
            assert(!same_word(n, "online"@));
            assert(same_word(n, "offline"@));
        },
        DeviceStatus::Away => {
            assert(!same_word(n, "online"@));
            assert(!same_word(n, "offline"@));
            assert(same_word(n, "away"@));
        },
        DeviceStatus::Unknown => {
            assert(!same_word(n, "online"@));
            assert(folded(n[0]) != ("offline"@[0] as u32));
            assert(!same_word(n, "offline"@));
            assert(!same_word(n, "away"@));
        },
    }
}

// ----------------------------------------------------------------------------
// Records and requests
// ----------------------------------------------------------------------------

/// A registered device.
#[derive(Debug)]
pub struct Device {
    pub id: String,
    pub device_id: String,
    pub name: String,
    pub hostname: Option<String>,
    pub os_type: Option<String>,
    pub os_version: Option<String>,
    pub ip_address: Option<String>,
    pub status: DeviceStatus,
    pub user_id: Option<String>,
    pub organization_id: Option<String>,
    pub approved: bool,
    pub approved_by: Option<String>,
    pub approved_at: Option<Timestamp>,
    pub last_online: Option<Timestamp>,
    pub created_at: Timestamp,
    pub updated_at: Timestamp,
}

/// A request to register a device.
#[derive(Debug)]
pub struct DeviceCreateRequest {
    pub device_id: String,
    pub name: String,
    pub hostname: Option<String>,
    pub os_type: Option<String>,
    pub os_version: Option<String>,
    pub ip_address: Option<String>,
    pub organization_id: Option<String>,
}

/// A request to change some of a device's fields; absent fields stay as they are.
#[derive(Debug)]
pub struct DeviceUpdateRequest {
    pub name: Option<String>,
    pub hostname: Option<String>,
    pub os_type: Option<String>,
    pub os_version: Option<String>,
    pub ip_address: Option<String>,
    pub status: Option<DeviceStatus>,
    pub approved: Option<bool>,
}

impl DeviceUpdateRequest {
    /// The request that approves a device and changes nothing else.
    pub fn approval() -> (r: DeviceUpdateRequest)
        ensures
            r.name is None && r.hostname is None && r.os_type is None && r.os_version is None
                && r.ip_address is None && r.status is None,
            r.approved == Some(true),
    {
        DeviceUpdateRequest {
            name: None,
            hostname: None,
            os_type: None,
            os_version: None,
            ip_address: None,
            status: None,
            approved: Some(true),
        }
    }

    /// The request that records a device's connection state and, if given, its address.
    pub fn status_change(status: DeviceStatus, ip_address: Option<String>) -> (r:
        DeviceUpdateRequest)
        ensures
            r.name is None && r.hostname is None && r.os_type is None && r.os_version is None,
            r.ip_address == ip_address,
            r.status == Some(status),
            r.approved is None,
    {
        DeviceUpdateRequest {
            name: None,
            hostname: None,
            os_type: None,
            os_version: None,
            ip_address,
            status: Some(status),
            approved: None,
        }
    }
}

// ----------------------------------------------------------------------------
// Updates
// ----------------------------------------------------------------------------

/// The assignment of an optional field: none when the field is absent.
pub open spec fn field_assignment(column: Seq<char>, v: Option<String>) -> Seq<
    (Seq<char>, Option<Seq<char>>),
> {
    match v {
        Some(x) => seq![(column, Some(x@))],
        None => seq![],
    }
}

/// The assignments of a status change: the status, and the time last seen when the
/// device comes online.
pub open spec fn status_assignments(status: Option<DeviceStatus>, now: Seq<char>) -> Seq<
    (Seq<char>, Option<Seq<char>>),
> {
    match status {
        None => seq![],
        Some(s) => seq![("status"@, Some(status_name(s)))] + if s == DeviceStatus::Online {
            seq![("last_online"@, Some(now))]
        } else {
            seq![]
        },
    }
}

/// The assignments of an approval decision: granting records who approved and when
/// (the approver defaulting to the empty text); withdrawing clears both.
pub open spec fn approval_assignments(
    approved: Option<bool>,
    approved_by: Option<String>,
    now: Seq<char>,
) -> Seq<(Seq<char>, Option<Seq<char>>)> {
    match approved {
        None => seq![],
        Some(true) => seq![
            ("approved"@, Some("1"@)),
            ("approved_by"@, Some(
                match approved_by {
                    Some(b) => b@,
                    None => Seq::<char>::empty(),
                },
            )),
            ("approved_at"@, Some(now)),
        ],
        Some(false) => seq![
            ("approved"@, Some("0"@)),
            ("approved_by"@, None),
            ("approved_at"@, None),
        ],
    }
}

/// The assignments that carry out an update request at time `now` (an RFC 3339 text):
/// the given fields in a fixed order, then the status and approval changes, and always
/// the update time last.
pub open spec fn device_update_assignments(
    r: DeviceUpdateRequest,
    approved_by: Option<String>,
    now: Seq<char>,
) -> Seq<(Seq<char>, Option<Seq<char>>)> {
    field_assignment("name"@, r.name) + field_assignment("hostname"@, r.hostname)
        + field_assignment("os_type"@, r.os_type) + field_assignment("os_version"@, r.os_version)
        + field_assignment("ip_address"@, r.ip_address) + status_assignments(r.status, now)
        + approval_assignments(r.approved, approved_by, now) + seq![("updated_at"@, Some(now))]
}

proof fn lemma_concat_contains<A>(a: Seq<A>, b: Seq<A>, x: A)
    ensures
        (a + b).contains(x) <==> a.contains(x) || b.contains(x),
{
    if (a + b).contains(x) {
        let i = choose|i: int| 0 <= i < (a + b).len() && (a + b)[i] == x;
        if i < a.len() {
            assert(a[i] == x);
        } else {
            assert(b[i - a.len()] == x);
        }
    }
    if a.contains(x) {
        let i = choose|i: int| 0 <= i < a.len() && a[i] == x;
        assert((a + b)[i] == x);
    }
    if b.contains(x) {
        let i = choose|i: int| 0 <= i < b.len() && b[i] == x;
        assert((a + b)[a.len() + i] == x);
    }
}

/// The column names of the fields an update request may change; none of them is a column
/// that a status or approval change or the update stamp writes.
pub open spec fn is_field_column(c: Seq<char>) -> bool {
    c == "name"@ || c == "hostname"@ || c == "os_type"@ || c == "os_version"@ || c
        == "ip_address"@
}

/// The request gives the field, with the text `y` holds.
pub open spec fn gives(v: Option<String>, y: Option<Seq<char>>) -> bool {
    match v {
        Some(s) => y == Some(s@),
        None => false,
    }
}

proof fn lemma_field_assignment_contains(
    column: Seq<char>,
    v: Option<String>,
    c: Seq<char>,
    x: Option<Seq<char>>,
)
    ensures
        field_assignment(column, v).contains((c, x)) <==> (c == column && gives(v, x)),
{
    if field_assignment(column, v).contains((c, x)) {
        let i = choose|i: int|
            0 <= i < field_assignment(column, v).len() && field_assignment(column, v)[i] == (c, x);
        assert(i == 0);
    }
    if c == column && gives(v, x) {
        assert(field_assignment(column, v)[0] == (c, x));
    }
}

proof fn lemma_changes_leave_fields(
    r: DeviceUpdateRequest,
    approved_by: Option<String>,
    now: Seq<char>,
    c: Seq<char>,
    x: Option<Seq<char>>,
)
    requires
        is_field_column(c),
    ensures
        !(status_assignments(r.status, now) + approval_assignments(r.approved, approved_by, now)
            + seq![("updated_at"@, Some(now))]).contains((c, x)),
{
    reveal_strlit("name");
    reveal_strlit("hostname");
    reveal_strlit("os_type");
    reveal_strlit("os_version");
    reveal_strlit("ip_address");
    reveal_strlit("status");
    reveal_strlit("last_online");
    reveal_strlit("approved");
    reveal_strlit("approved_by");
    reveal_strlit("approved_at");
    reveal_strlit("updated_at");
    let t = status_assignments(r.status, now) + approval_assignments(r.approved, approved_by, now)
        + seq![("updated_at"@, Some(now))];
    if t.contains((c, x)) {
        let i = choose|i: int| 0 <= i < t.len() && t[i] == (c, x);
        let col = t[i].0;
        assert(col == "status"@ || col == "last_online"@ || col == "approved"@ || col
            == "approved_by"@ || col == "approved_at"@ || col == "updated_at"@);
        assert(col != "name"@) by {
            if col.len() == 4 {
                assert(col[0] != 'n');
            }
        }
        assert(col != "hostname"@) by {
            if col.len() == 8 {
                assert(col[0] != 'h');
            }
        }
        assert(col != "os_type"@);
        assert(col != "os_version"@) by {
            if col.len() == 10 {
                assert(col[0] != 'o');
            }
        }
        assert(col != "ip_address"@) by {
            if col.len() == 10 {
                assert(col[0] != 'i');
            }
        }
    }
}

proof fn lemma_field_column_set(
    r: DeviceUpdateRequest,
    approved_by: Option<String>,
    now: Seq<char>,
    c: Seq<char>,
    y: Option<Seq<char>>,
)
    requires
        is_field_column(c),
    ensures
        device_update_assignments(r, approved_by, now).contains((c, y)) <==> ((c == "name"@
            && gives(r.name, y)) || (c == "hostname"@ && gives(r.hostname, y)) || (c
            == "os_type"@ && gives(r.os_type, y)) || (c == "os_version"@ && gives(r.os_version, y))
            || (c == "ip_address"@ && gives(r.ip_address, y))),
{
    let f1 = field_assignment("name"@, r.name);
    let f2 = field_assignment("hostname"@, r.hostname);
    let f3 = field_assignment("os_type"@, r.os_type);
    let f4 = field_assignment("os_version"@, r.os_version);
    let f5 = field_assignment("ip_address"@, r.ip_address);
    let t = status_assignments(r.status, now) + approval_assignments(r.approved, approved_by, now)
        + seq![("updated_at"@, Some(now))];
    assert(device_update_assignments(r, approved_by, now) =~= f1 + f2 + f3 + f4 + f5 + t);
    lemma_concat_contains(f1, f2, (c, y));
    lemma_concat_contains(f1 + f2, f3, (c, y));
    lemma_concat_contains(f1 + f2 + f3, f4, (c, y));
    lemma_concat_contains(f1 + f2 + f3 + f4, f5, (c, y));
    lemma_concat_contains(f1 + f2 + f3 + f4 + f5, t, (c, y));
    lemma_changes_leave_fields(r, approved_by, now, c, y);
    lemma_field_assignment_contains("name"@, r.name, c, y);
    lemma_field_assignment_contains("hostname"@, r.hostname, c, y);
    lemma_field_assignment_contains("os_type"@, r.os_type, c, y);
    lemma_field_assignment_contains("os_version"@, r.os_version, c, y);
    lemma_field_assignment_contains("ip_address"@, r.ip_address, c, y);
}

/// Each field that an update request gives is stored, and only those: whatever else the
/// request asks, the assignments set a field's column to a value exactly when the request
/// gives that field that value, and never clear it.
pub proof fn lemma_update_sets_given_fields(
    r: DeviceUpdateRequest,
    approved_by: Option<String>,
    now: Seq<char>,
    x: Seq<char>,
)
    ensures
        device_update_assignments(r, approved_by, now).contains(("name"@, Some(x))) <==> gives(
            r.name,
            Some(x),
        ),
        device_update_assignments(r, approved_by, now).contains(("hostname"@, Some(x)))
            <==> gives(r.hostname, Some(x)),
        device_update_assignments(r, approved_by, now).contains(("os_type"@, Some(x)))
            <==> gives(r.os_type, Some(x)),
        device_update_assignments(r, approved_by, now).contains(("os_version"@, Some(x)))
            <==> gives(r.os_version, Some(x)),
        device_update_assignments(r, approved_by, now).contains(("ip_address"@, Some(x)))
            <==> gives(r.ip_address, Some(x)),
        forall|c: Seq<char>|
            is_field_column(c) ==> !#[trigger] device_update_assignments(r, approved_by, now).contains(
                (c, None),
            ),
{
    reveal_strlit("name");
    reveal_strlit("hostname");
    reveal_strlit("os_type");
    reveal_strlit("os_version");
    reveal_strlit("ip_address");
    assert("name"@.len() == 4);
    assert("hostname"@.len() == 8);
    assert("os_type"@.len() == 7);
    assert("os_version"@.len() == 10);
    assert("ip_address"@.len() == 10);
    lemma_field_column_set(r, approved_by, now, "name"@, Some(x));
    lemma_field_column_set(r, approved_by, now, "hostname"@, Some(x));
    lemma_field_column_set(r, approved_by, now, "os_type"@, Some(x));
    lemma_field_column_set(r, approved_by, now, "os_version"@, Some(x));
    assert("os_version"@ != "ip_address"@) by {
        assert("os_version"@[0] != "ip_address"@[0]);
    }
    lemma_field_column_set(r, approved_by, now, "ip_address"@, Some(x));
    assert forall|c: Seq<char>| is_field_column(c) implies !#[trigger] device_update_assignments(
        r,
        approved_by,
        now,
    ).contains((c, None)) by {
        lemma_field_column_set(r, approved_by, now, c, None);
    }
}

fn push_field(out: &mut Vec<Assignment>, column: &str, v: &Option<String>)
    ensures
        assignments_view(final(out)@) == assignments_view(old(out)@) + field_assignment(
            column@,
            *v,
        ),
{
    let ghost before = out@;
    match v {
        Some(x) => {
            out.push((column.to_owned(), Some(x.clone())));
        },
        None => {},
    }
    assert(assignments_view(out@) =~= assignments_view(before) + field_assignment(column@, *v));
}

/// The assignments that carry out `request` at time `now`.
pub fn update_assignments(
    request: &DeviceUpdateRequest,
    approved_by: Option<String>,
    now: &str,
) -> (r: Vec<Assignment>)
    ensures
        assignments_view(r@) == device_update_assignments(*request, approved_by, now@),
{
    let mut out: Vec<Assignment> = Vec::new();
    push_field(&mut out, "name", &request.name);
    push_field(&mut out, "hostname", &request.hostname);
    push_field(&mut out, "os_type", &request.os_type);
    push_field(&mut out, "os_version", &request.os_version);
    push_field(&mut out, "ip_address", &request.ip_address);
    let ghost fields = assignments_view(out@);
    match request.status {
        Some(s) => {
            out.push(("status".to_owned(), Some(s.as_str().to_owned())));
            if s == DeviceStatus::Online {
                out.push(("last_online".to_owned(), Some(now.to_owned())));
            }
        },
        None => {},
    }
    assert(assignments_view(out@) =~= fields + status_assignments(request.status, now@));
    let ghost with_status = assignments_view(out@);
    match request.approved {
        Some(true) => {
            out.push(("approved".to_owned(), Some("1".to_owned())));
            let by = match approved_by {
                Some(b) => b,
                None => String::new(),
            };
            out.push(("approved_by".to_owned(), Some(by)));
            out.push(("approved_at".to_owned(), Some(now.to_owned())));
        },
        Some(false) => {
            out.push(("approved".to_owned(), Some("0".to_owned())));
            out.push(("approved_by".to_owned(), None));
            out.push(("approved_at".to_owned(), None));
        },
        None => {},
    }
    assert(assignments_view(out@) =~= with_status + approval_assignments(
        request.approved,
        approved_by,
        now@,
    ));
    let ghost with_approval = assignments_view(out@);
    out.push(("updated_at".to_owned(), Some(now.to_owned())));
    assert(assignments_view(out@) =~= with_approval + seq![("updated_at"@, Some(now@))]);
    out
}

/// The statement that carries out `request` on a device at time `now`, and the values
/// to bind before the device's id.
pub fn update_device_statement(
    request: &DeviceUpdateRequest,
    approved_by: Option<String>,
    now: &str,
) -> (r: (String, Vec<String>))
    ensures
        r.0@ == update_text("devices"@, device_update_assignments(*request, approved_by, now@)),
        texts(r.1@) == bound_values(device_update_assignments(*request, approved_by, now@)),
{
    let assignments = update_assignments(request, approved_by, now);
    update_statement("devices", &assignments)
}

/// Every update stamps the update time, as its last assignment.
pub proof fn lemma_update_stamps_time(
    r: DeviceUpdateRequest,
    approved_by: Option<String>,
    now: Seq<char>,
)
    ensures
        device_update_assignments(r, approved_by, now).len() > 0,
        device_update_assignments(r, approved_by, now).last() == ("updated_at"@, Some(now)),
{
}

/// An approval sets exactly the approval flag, the approver, the approval time and the
/// update time.
pub proof fn lemma_approval_assignments(by: String, now: Seq<char>)
    ensures
        device_update_assignments(
            DeviceUpdateRequest {
                name: None,
                hostname: None,
                os_type: None,
                os_version: None,
                ip_address: None,
                status: None,
                approved: Some(true),
            },
            Some(by),
            now,
        ) == seq![
            ("approved"@, Some("1"@)),
            ("approved_by"@, Some(by@)),
            ("approved_at"@, Some(now)),
            ("updated_at"@, Some(now)),
        ],
{
    let r = DeviceUpdateRequest {
        name: None,
        hostname: None,
        os_type: None,
        os_version: None,
        ip_address: None,
        status: None,
        approved: Some(true),
    };
    assert(device_update_assignments(r, Some(by), now) =~= seq![
        ("approved"@, Some("1"@)),
        ("approved_by"@, Some(by@)),
        ("approved_at"@, Some(now)),
        ("updated_at"@, Some(now)),
    ]);
}

/// A device coming online has the time it was last seen stamped along with its status.
pub proof fn lemma_online_stamps_last_seen(ip: Option<String>, now: Seq<char>)
    ensures
        device_update_assignments(
            DeviceUpdateRequest {
                name: None,
                hostname: None,
                os_type: None,
                os_version: None,
                ip_address: ip,
                status: Some(DeviceStatus::Online),
                approved: None,
            },
            None,
            now,
        ) == field_assignment("ip_address"@, ip) + seq![
            ("status"@, Some("online"@)),
            ("last_online"@, Some(now)),
            ("updated_at"@, Some(now)),
        ],
{
    let r = DeviceUpdateRequest {
        name: None,
        hostname: None,
        os_type: None,
        os_version: None,
        ip_address: ip,
        status: Some(DeviceStatus::Online),
        approved: None,
    };
    assert(device_update_assignments(r, None, now) =~= field_assignment("ip_address"@, ip) + seq![
        ("status"@, Some("online"@)),
        ("last_online"@, Some(now)),
        ("updated_at"@, Some(now)),
    ]);
}

// ----------------------------------------------------------------------------
// Listing
// ----------------------------------------------------------------------------

/// The filters of a device listing: by organisation, by status and by approval, each
/// only when asked for.
pub open spec fn device_filters(
    organization_id: Option<Seq<char>>,
    status: Option<DeviceStatus>,
    approved: Option<bool>,
) -> Seq<(Seq<char>, Seq<char>)> {
    (match organization_id {
        Some(o) => seq![(" AND organization_id = ?"@, o)],
        None => seq![],
    }) + (match status {
        Some(s) => seq![(" AND status = ?"@, status_name(s))],
        None => seq![],
    }) + (match approved {
        Some(a) => seq![(" AND approved = ?"@, if a {
            "1"@
        } else {
            "0"@
        })],
        None => seq![],
    })
}

/// The approval filter follows the request's flag, whatever the other filters: asking for
/// approved devices binds `1` (the stored mark of an approved device), asking for
/// unapproved ones binds `0`, and not asking adds no approval condition. It is the last
/// condition, so its value is the last one bound.
pub proof fn lemma_approval_filter(
    organization_id: Option<Seq<char>>,
    status: Option<DeviceStatus>,
    approved: Option<bool>,
)
    ensures
        approved == Some(true) ==> device_filters(organization_id, status, approved).last() == (
            " AND approved = ?"@,
            "1"@,
        ),
        approved == Some(false) ==> device_filters(organization_id, status, approved).last() == (
            " AND approved = ?"@,
            "0"@,
        ),
        approved is None ==> forall|i: int|
            0 <= i < device_filters(organization_id, status, approved).len() ==> (#[trigger] device_filters(
                organization_id,
                status,
                approved,
            )[i]).0 != " AND approved = ?"@,
        organization_id matches Some(o) ==> device_filters(organization_id, status, approved)[0]
            == (" AND organization_id = ?"@, o),
        status matches Some(st) ==> device_filters(organization_id, status, approved).contains(
            (" AND status = ?"@, status_name(st)),
        ),
        device_filters(organization_id, status, approved).len() == (if organization_id is Some {
            1int
        } else {
            0int
        }) + (if status is Some {
            1int
        } else {
            0int
        }) + (if approved is Some {
            1int
        } else {
            0int
        }),
{
    reveal_strlit(" AND approved = ?");
    reveal_strlit(" AND organization_id = ?");
    reveal_strlit(" AND status = ?");
    assert(" AND approved = ?"@.len() == 17);
    assert(" AND organization_id = ?"@.len() == 24);
    assert(" AND status = ?"@.len() == 15);
    let fs = device_filters(organization_id, status, approved);
    if let Some(st) = status {
        let i: int = if organization_id is Some {
            1
        } else {
            0
        };
        assert(fs[i] == (" AND status = ?"@, status_name(st)));
    }
}

/// The query that lists the devices matching the filters, and the values it binds.
pub fn list_devices_query(
    organization_id: Option<&str>,
    status: Option<DeviceStatus>,
    approved: Option<bool>,
) -> (r: (String, Vec<String>))
    ensures
        ({
            let fs = device_filters(
                match organization_id {
                    Some(o) => Some(o@),
                    None => None,
                },
                status,
                approved,
            );
            &&& r.0@ == "SELECT * FROM devices WHERE 1=1"@ + fragments(fs)
            &&& texts(r.1@) == fs.map_values(|c: (Seq<char>, Seq<char>)| c.1)
        }),
        approved == Some(true) ==> r.1@.len() > 0 && r.1@.last()@ == "1"@,
        approved == Some(false) ==> r.1@.len() > 0 && r.1@.last()@ == "0"@,
{
    let mut conditions: Vec<Condition> = Vec::new();
    match organization_id {
        Some(o) => conditions.push((" AND organization_id = ?".to_owned(), o.to_owned())),
        None => {},
    }
    match status {
        Some(s) => conditions.push((" AND status = ?".to_owned(), s.as_str().to_owned())),
        None => {},
    }
    match approved {
        Some(a) => {
            let v = if a {
                "1".to_owned()
            } else {
                "0".to_owned()
            };
            conditions.push((" AND approved = ?".to_owned(), v));
        },
        None => {},
    }
    let ghost fs = device_filters(
        match organization_id {
            Some(o) => Some(o@),
            None => None,
        },
        status,
        approved,
    );
    assert(conditions_view(conditions@) =~= fs);
    let mut query = "SELECT * FROM devices WHERE 1=1".to_owned();
    let mut params: Vec<String> = Vec::new();
    apply_conditions(&mut query, &mut params, &conditions);
    assert(texts(params@) =~= fs.map_values(|c: (Seq<char>, Seq<char>)| c.1));
    proof {
        lemma_approval_filter(
            match organization_id {
                Some(o) => Some(o@),
                None => None,
            },
            status,
            approved,
        );
        if approved is Some {
            assert(texts(params@).last() == fs.last().1);
        }
    }
    (query, params)
}

// ----------------------------------------------------------------------------
// Reading stored rows
// ----------------------------------------------------------------------------

/// The columns of a stored device row as the database hands them out: each is absent
/// when it is NULL or of another type.
#[derive(Debug)]
pub struct DeviceRow {
    pub id: Option<String>,
    pub device_id: Option<String>,
    pub name: Option<String>,
    pub hostname: Option<String>,
    pub os_type: Option<String>,
    pub os_version: Option<String>,
    pub ip_address: Option<String>,
    pub status: Option<String>,
    pub user_id: Option<String>,
    pub organization_id: Option<String>,
    pub approved: Option<i32>,
    pub approved_by: Option<String>,
    pub approved_at: Option<String>,
    pub last_online: Option<String>,
    pub created_at: Option<String>,
    pub updated_at: Option<String>,
}

/// The text of a column, the empty text when it is absent.
pub open spec fn text_or_empty(v: Option<String>) -> Seq<char> {
    match v {
        Some(s) => s@,
        None => Seq::<char>::empty(),
    }
}

/// The instant stored in a column, when it is present and reads as RFC 3339.
pub open spec fn stored_instant(v: Option<String>) -> Option<Timestamp> {
    match v {
        Some(s) => match rfc3339_instant(s@) {
            Some((secs, nanos)) => Some(Timestamp { secs, nanos }),
            None => None,
        },
        None => None,
    }
}

pub(crate) fn text_or_default(v: Option<String>) -> (s: String)
    ensures
        s@ == text_or_empty(v),
{
    match v {
        Some(s) => s,
        None => String::new(),
    }
}

pub(crate) fn instant_of(v: &Option<String>) -> (r: Option<Timestamp>)
    ensures
        r == stored_instant(*v),
{
    match v {
        Some(s) => parse_rfc3339(s.as_str()),
        None => None,
    }
}

/// Reads a stored row back as a device. Missing texts read as empty, a missing approval
/// flag as not approved, any non-zero flag as approved, an unreadable status as unknown,
/// and a missing or unreadable creation or update time as `now`.
pub fn device_from_row(row: DeviceRow, now: Timestamp) -> (d: Device)
    ensures
        d.id@ == text_or_empty(row.id),
        d.device_id@ == text_or_empty(row.device_id),
        d.name@ == text_or_empty(row.name),
        d.hostname == row.hostname,
        d.os_type == row.os_type,
        d.os_version == row.os_version,
        d.ip_address == row.ip_address,
        d.status == stored_status(text_or_empty(row.status)),
        d.user_id == row.user_id,
        d.organization_id == row.organization_id,
        d.approved == (match row.approved {
            Some(a) => a != 0,
            None => false,
        }),
        d.approved_by == row.approved_by,
        d.approved_at == stored_instant(row.approved_at),
        d.last_online == stored_instant(row.last_online),
        d.created_at == (match stored_instant(row.created_at) {
            Some(t) => t,
            None => now,
        }),
        d.updated_at == (match stored_instant(row.updated_at) {
            Some(t) => t,
            None => now,
        }),
{
    let status_text = text_or_default(row.status);
    let status = DeviceStatus::from_stored(status_text.as_str());
    let approved_at = instant_of(&row.approved_at);
    let last_online = instant_of(&row.last_online);
    let created_at = match instant_of(&row.created_at) {
        Some(t) => t,
        None => now,
    };
    let updated_at = match instant_of(&row.updated_at) {
        Some(t) => t,
        None => now,
    };
    Device {
        id: text_or_default(row.id),
        device_id: text_or_default(row.device_id),
        name: text_or_default(row.name),
        hostname: row.hostname,
        os_type: row.os_type,
        os_version: row.os_version,
        ip_address: row.ip_address,
        status,
        user_id: row.user_id,
        organization_id: row.organization_id,
        approved: match row.approved {
            Some(a) => a != 0,
            None => false,
        },
        approved_by: row.approved_by,
        approved_at,
        last_online,
        created_at,
        updated_at,
    }
}

impl DeviceCreateRequest {
    /// The row stored for a newly registered device with record id `id`, registered by
    /// `user_id` at `now` (RFC 3339 text): offline, not approved, never seen online, and
    /// created and updated at `now`.
    pub fn new_row(self, id: String, user_id: Option<String>, now: String) -> (row: DeviceRow)
        ensures
            row.id == Some(id),
            row.device_id == Some(self.device_id),
            row.name == Some(self.name),
            row.hostname == self.hostname,
            row.os_type == self.os_type,
            row.os_version == self.os_version,
            row.ip_address == self.ip_address,
            row.status matches Some(st) && st@ == status_name(DeviceStatus::Offline),
            row.user_id == user_id,
            row.organization_id == self.organization_id,
            row.approved == Some(0i32),
            row.approved_by is None,
            row.approved_at is None,
            row.last_online is None,
            row.created_at == Some(now),
            row.updated_at == Some(now),
    {
        let status = DeviceStatus::Offline.as_str().to_owned();
        DeviceRow {
            id: Some(id),
            device_id: Some(self.device_id),
            name: Some(self.name),
            hostname: self.hostname,
            os_type: self.os_type,
            os_version: self.os_version,
            ip_address: self.ip_address,
            status: Some(status),
            user_id,
            organization_id: self.organization_id,
            approved: Some(0),
            approved_by: None,
            approved_at: None,
            last_online: None,
            created_at: Some(now.clone()),
            updated_at: Some(now),
        }
    }
}

/// Reads `chrono::Utc::now()` and writes it with `to_rfc3339`. The instant depends on the
/// clock; nothing is claimed of the text.
#[verifier::external_body]
pub(crate) fn utc_now_rfc3339() -> String {
    chrono::Utc::now().to_rfc3339()
}

impl DeviceCreateRequest {
    /// The row stored for a device that `user_id` registers now: a fresh version 4 UUID as
    /// its record id and the current time (RFC 3339 text) as its creation and update time,
    /// otherwise as [`DeviceCreateRequest::new_row`] makes it.
    pub fn register(self, user_id: Option<String>) -> (row: DeviceRow)
        ensures
            row.id matches Some(i) && uuid_v4_text(i@),
            row.device_id == Some(self.device_id),
            row.name == Some(self.name),
            row.hostname == self.hostname,
            row.os_type == self.os_type,
            row.os_version == self.os_version,
            row.ip_address == self.ip_address,
            row.status matches Some(st) && st@ == status_name(DeviceStatus::Offline),
            row.user_id == user_id,
            row.organization_id == self.organization_id,
            row.approved == Some(0i32),
            row.approved_by is None,
            row.approved_at is None,
            row.last_online is None,
            row.created_at is Some,
            row.created_at == row.updated_at,
    {
        let id = fresh_uuid();
        let now = utc_now_rfc3339();
        self.new_row(id, user_id, now)
    }
}

/// A newly registered device reads back as offline, not approved, never approved or seen
/// online, with its creation time equal to its update time.
pub proof fn lemma_new_device_reads_back(row: DeviceRow, now: Seq<char>)
    requires
        row.status matches Some(st) && st@ == status_name(DeviceStatus::Offline),
        row.approved == Some(0i32),
        row.approved_at is None,
        row.last_online is None,
        row.created_at matches Some(c) && c@ == now,
        row.updated_at matches Some(u) && u@ == now,
    ensures
        stored_status(text_or_empty(row.status)) == DeviceStatus::Offline,
        (match row.approved {
            Some(a) => a != 0,
            None => false,
        }) == false,
        stored_instant(row.approved_at) is None,
        stored_instant(row.last_online) is None,
        stored_instant(row.created_at) == stored_instant(row.updated_at),
{
    lemma_status_names_read_back(DeviceStatus::Offline);
}

/// Whether a device may be registered, given whether its device id is already stored: a
/// stored id is refused as already existing.
pub fn require_unregistered(already_stored: bool) -> (r: Result<(), DeviceError>)
    ensures
        already_stored <==> r == Err::<(), DeviceError>(DeviceError::AlreadyExists),
        !already_stored <==> r is Ok,
{
    if already_stored {
        Err(DeviceError::AlreadyExists)
    } else {
        Ok(())
    }
}

/// The outcome of a statement that should have touched one device.
pub fn require_affected(rows_affected: u64) -> (r: Result<(), DeviceError>)
    ensures
        rows_affected == 0 <==> r == Err::<(), DeviceError>(DeviceError::NotFound),
        rows_affected != 0 <==> r is Ok,
{
    if rows_affected == 0 {
        Err(DeviceError::NotFound)
    } else {
        Ok(())
    }
}

} // verus!
