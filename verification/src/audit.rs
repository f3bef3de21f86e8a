//! Audit records: their kinds, the requests that create them, the filtered listing
//! query, and how a stored row is read back.
use vstd::prelude::*;

use crate::device::{instant_of, stored_instant, text_or_default, text_or_empty};
use crate::device::utc_now_rfc3339;
use crate::license::{fresh_uuid, uuid_v4_text};
use crate::time::Timestamp;
use crate::sql::{apply_conditions, conditions_view, fragments, Condition};
use crate::text::{folded, matches_word, same_word, signed_decimal, signed_text, texts};

verus! {

// ----------------------------------------------------------------------------
// Trusted items
// ----------------------------------------------------------------------------

/// Whether serde_json accepts `text` as one JSON value.
pub uninterp spec fn is_json_text(text: Seq<char>) -> bool;

/// Calls `serde_json::from_str::<serde_json::Value>` and keeps only whether it succeeded.
/// Claims that this is the named verdict on the text.
#[verifier::external_body]
fn json_parses(text: &str) -> (ok: bool)
    ensures
        ok == is_json_text(text@),
{
    serde_json::from_str::<serde_json::Value>(text).is_ok()
}

// ----------------------------------------------------------------------------
// Errors and kinds
// ----------------------------------------------------------------------------

/// Why an audit operation failed.
#[derive(Debug, PartialEq, Eq)]
pub enum AuditError {
    NotFound,
    DatabaseError(String),
    SerializationError(String),
}

/// The message shown for an error.
pub open spec fn audit_error_message(e: AuditError) -> Seq<char> {
    match e {
        AuditError::NotFound => "Log not found"@,
        AuditError::DatabaseError(s) => "Database error: "@ + s@,
        AuditError::SerializationError(s) => "Serialization error: "@ + s@,
    }
}

impl AuditError {
    /// The message shown for the error.
    pub fn message(&self) -> (m: String)
        ensures
            m@ == audit_error_message(*self),
    {
        match self {
            AuditError::NotFound => "Log not found".to_owned(),
            AuditError::DatabaseError(s) => {
                let mut m = "Database error: ".to_owned();
                m.append(s.as_str());
                m
            },
            AuditError::SerializationError(s) => {
                let mut m = "Serialization error: ".to_owned();
                m.append(s.as_str());
                m
            },
        }
    }
}

/// What an audit record is about.
#[derive(Debug, Clone, Copy, PartialEq, Eq, Structural)]
pub enum AuditLogType {
    Authentication,
    Authorization,
    Device,
    User,
    License,
    System,
    Session,
    Configuration,
}

/// The stored and displayed name of a kind.
pub open spec fn log_type_name(t: AuditLogType) -> Seq<char> {
    match t {
        AuditLogType::Authentication => "authentication"@,
        AuditLogType::Authorization => "authorization"@,
        AuditLogType::Device => "device"@,
        AuditLogType::User => "user"@,
        AuditLogType::License => "license"@,
        AuditLogType::System => "system"@,
        AuditLogType::Session => "session"@,
        AuditLogType::Configuration => "configuration"@,
    }
}

/// The kind a name denotes, letters compared without regard to case.
pub open spec fn named_log_type(s: Seq<char>) -> Option<AuditLogType> {
    if same_word(s, "authentication"@) {
        Some(AuditLogType::Authentication)
    } else if same_word(s, "authorization"@) {
        Some(AuditLogType::Authorization)
    } else if same_word(s, "device"@) {
        Some(AuditLogType::Device)
    } else if same_word(s, "user"@) {
        Some(AuditLogType::User)
    } else if same_word(s, "license"@) {
        Some(AuditLogType::License)
    } else if same_word(s, "system"@) {
        Some(AuditLogType::System)
    } else if same_word(s, "session"@) {
        Some(AuditLogType::Session)
    } else if same_word(s, "configuration"@) {
        Some(AuditLogType::Configuration)
    } else {
        None
    }
}

impl AuditLogType {
    /// The name of the kind.
    pub fn as_str(&self) -> (s: &'static str)
        ensures
            s@ == log_type_name(*self),
    {
        match self {
            AuditLogType::Authentication => "authentication",
            AuditLogType::Authorization => "authorization",
            AuditLogType::Device => "device",
            AuditLogType::User => "user",
            AuditLogType::License => "license",
            AuditLogType::System => "system",
            AuditLogType::Session => "session",
            AuditLogType::Configuration => "configuration",
        }
    }

    /// The kind a listing request names, if it names one.
    pub fn parse_filter(s: &str) -> (r: Option<AuditLogType>)
        ensures
            r == named_log_type(s@),
    {
        if matches_word(s, "authentication") {
            Some(AuditLogType::Authentication)
        } else if matches_word(s, "authorization") {
            Some(AuditLogType::Authorization)
        } else if matches_word(s, "device") {
            Some(AuditLogType::Device)
        } else if matches_word(s, "user") {
            Some(AuditLogType::User)
        } else if matches_word(s, "license") {
            Some(AuditLogType::License)
        } else if matches_word(s, "system") {
            Some(AuditLogType::System)
        } else if matches_word(s, "session") {
            Some(AuditLogType::Session)
        } else if matches_word(s, "configuration") {
            Some(AuditLogType::Configuration)
        } else {
            None
        }
    }

    /// The kind a stored name reads as; an unreadable name reads as `System`.
    pub fn from_stored(s: &str) -> (r: AuditLogType)
        ensures
            r == (match named_log_type(s@) {
                Some(t) => t,
                None => AuditLogType::System,
            }),
    {
        match AuditLogType::parse_filter(s) {
            Some(t) => t,
            None => AuditLogType::System,
        }
    }
}

/// Every kind reads back from its own name.
pub proof fn lemma_log_type_names_read_back(t: AuditLogType)
    ensures
        named_log_type(log_type_name(t)) == Some(t),
{
    reveal_strlit("authentication");
    reveal_strlit("authorization");
    reveal_strlit("device");
    reveal_strlit("user");
    reveal_strlit("license");
    reveal_strlit("system");
    reveal_strlit("session");
    reveal_strlit("configuration");
    let n = log_type_name(t);
    // Names of equal length differ in a letter; point to one.
    match t {
        AuditLogType::Authentication => {
            assert(same_word(n, "authentication"@));
        },
        AuditLogType::Authorization => {
            assert(!same_word(n, "authentication"@));
            assert(same_word(n, "authorization"@));
        },
        AuditLogType::Device => {
            assert(!same_word(n, "authentication"@));
            assert(!same_word(n, "authorization"@));
            assert(same_word(n, "device"@));
        },
        AuditLogType::User => {
            assert(!same_word(n, "authentication"@));
            assert(!same_word(n, "authorization"@));
            assert(!same_word(n, "device"@));
            assert(same_word(n, "user"@));
        },
        AuditLogType::License => {
            assert(!same_word(n, "authentication"@));
            assert(!same_word(n, "authorization"@));
            assert(!same_word(n, "device"@));
            assert(!same_word(n, "user"@));
            assert(same_word(n, "license"@));
        },
        AuditLogType::System => {
            assert(!same_word(n, "authentication"@));
            assert(!same_word(n, "authorization"@));
            assert(folded(n[0]) != ("device"@[0] as u32));
            assert(!same_word(n, "device"@));
            assert(!same_word(n, "user"@));
            assert(!same_word(n, "license"@));
            assert(same_word(n, "system"@));
        },
        AuditLogType::Session => {
            assert(!same_word(n, "authentication"@));
            assert(!same_word(n, "authorization"@));
            assert(!same_word(n, "device"@));
            assert(!same_word(n, "user"@));
            assert(folded(n[0]) != ("license"@[0] as u32));
            assert(!same_word(n, "license"@));
            assert(!same_word(n, "system"@));
            assert(same_word(n, "session"@));
        },
        AuditLogType::Configuration => {
            assert(!same_word(n, "authentication"@));
            assert(folded(n[0]) != ("authorization"@[0] as u32));
            assert(!same_word(n, "authorization"@));
            assert(!same_word(n, "device"@));
            assert(!same_word(n, "user"@));
            assert(!same_word(n, "license"@));
            assert(!same_word(n, "system"@));
            assert(!same_word(n, "session"@));
            assert(same_word(n, "configuration"@));
        },
    }
}

// ----------------------------------------------------------------------------
// Records and requests
// ----------------------------------------------------------------------------

/// A stored audit record. `details` is JSON text.
#[derive(Debug)]
pub struct AuditLog {
    pub id: String,
    pub log_type: AuditLogType,
    pub action: String,
    pub user_id: Option<String>,
    pub username: Option<String>,
    pub device_id: Option<String>,
    pub device_name: Option<String>,
    pub ip_address: Option<String>,
    pub user_agent: Option<String>,
    pub details: Option<String>,
    pub created_at: Timestamp,
}

/// A request to record an event; `details` is JSON text.
#[derive(Debug)]
pub struct AuditLogRequest {
    pub log_type: AuditLogType,
    pub action: String,
    pub user_id: Option<String>,
    pub username: Option<String>,
    pub device_id: Option<String>,
    pub device_name: Option<String>,
    pub ip_address: Option<String>,
    pub user_agent: Option<String>,
    pub details: Option<String>,
}

impl AuditLogRequest {
    /// The record of a sign-in event.
    pub fn authentication(
        user_id: Option<String>,
        username: Option<String>,
        action: &str,
        ip_address: Option<String>,
        user_agent: Option<String>,
    ) -> (r: AuditLogRequest)
        ensures
            r.log_type == AuditLogType::Authentication,
            r.action@ == action@,
            r.user_id == user_id,
            r.username == username,
            r.device_id is None,
            r.device_name is None,
            r.ip_address == ip_address,
            r.user_agent == user_agent,
            r.details is None,
    {
        AuditLogRequest {
            log_type: AuditLogType::Authentication,
            action: action.to_owned(),
            user_id,
            username,
            device_id: None,
            device_name: None,
            ip_address,
            user_agent,
            details: None,
        }
    }

    /// The record of an event on a device.
    pub fn device(
        user_id: Option<String>,
        username: Option<String>,
        device_id: Option<String>,
        device_name: Option<String>,
        action: &str,
        ip_address: Option<String>,
        details: Option<String>,
    ) -> (r: AuditLogRequest)
        ensures
            r.log_type == AuditLogType::Device,
            r.action@ == action@,
            r.user_id == user_id,
            r.username == username,
            r.device_id == device_id,
            r.device_name == device_name,
            r.ip_address == ip_address,
            r.user_agent is None,
            r.details == details,
    {
        AuditLogRequest {
            log_type: AuditLogType::Device,
            action: action.to_owned(),
            user_id,
            username,
            device_id,
            device_name,
            ip_address,
            user_agent: None,
            details,
        }
    }

    /// The record of a remote session event.
    pub fn session(
        user_id: Option<String>,
        username: Option<String>,
        device_id: Option<String>,
        device_name: Option<String>,
        action: &str,
        ip_address: Option<String>,
    ) -> (r: AuditLogRequest)
        ensures
            r.log_type == AuditLogType::Session,
            r.action@ == action@,
            r.user_id == user_id,
            r.username == username,
            r.device_id == device_id,
            r.device_name == device_name,
            r.ip_address == ip_address,
            r.user_agent is None,
            r.details is None,
    {
        AuditLogRequest {
            log_type: AuditLogType::Session,
            action: action.to_owned(),
            user_id,
            username,
            device_id,
            device_name,
            ip_address,
            user_agent: None,
            details: None,
        }
    }

    /// The record of a configuration change.
    pub fn configuration(
        user_id: Option<String>,
        username: Option<String>,
        action: &str,
        details: Option<String>,
    ) -> (r: AuditLogRequest)
        ensures
            r.log_type == AuditLogType::Configuration,
            r.action@ == action@,
            r.user_id == user_id,
            r.username == username,
            r.device_id is None,
            r.device_name is None,
            r.ip_address is None,
            r.user_agent is None,
            r.details == details,
    {
        AuditLogRequest {
            log_type: AuditLogType::Configuration,
            action: action.to_owned(),
            user_id,
            username,
            device_id: None,
            device_name: None,
            ip_address: None,
            user_agent: None,
            details,
        }
    }

    /// The values stored for this request now: as [`AuditLogRequest::row_values`] gives
    /// them for a fresh version 4 UUID as the record id and the current time (RFC 3339
    /// text) as the creation time.
    pub fn record_values(&self) -> (r: Vec<Option<String>>)
        ensures
            r@.len() == 11,
            r@[0] matches Some(s) && uuid_v4_text(s@),
            r@[1] matches Some(s) && s@ == log_type_name(self.log_type),
            r@[2] matches Some(s) && s@ == self.action@,
            r@[3] == self.user_id,
            r@[4] == self.username,
            r@[5] == self.device_id,
            r@[6] == self.device_name,
            r@[7] == self.ip_address,
            r@[8] == self.user_agent,
            r@[9] == self.details,
            r@[10] is Some,
    {
        let id = fresh_uuid();
        let now = utc_now_rfc3339();
        self.row_values(id.as_str(), now.as_str())
    }

    /// The values stored for this request under the record id `id` at time `now` (RFC
    /// 3339 text), in the column order id, kind, action, user id, user name, device id,
    /// device name, address, user agent, details, creation time.
    pub fn row_values(&self, id: &str, now: &str) -> (r: Vec<Option<String>>)
        ensures
            r@.len() == 11,
            r@[0] matches Some(s) && s@ == id@,
            r@[1] matches Some(s) && s@ == log_type_name(self.log_type),
            r@[2] matches Some(s) && s@ == self.action@,
            r@[3] == self.user_id,
            r@[4] == self.username,
            r@[5] == self.device_id,
            r@[6] == self.device_name,
            r@[7] == self.ip_address,
            r@[8] == self.user_agent,
            r@[9] == self.details,
            r@[10] matches Some(s) && s@ == now@,
    {
        let mut r: Vec<Option<String>> = Vec::new();
        r.push(Some(id.to_owned()));
        r.push(Some(self.log_type.as_str().to_owned()));
        r.push(Some(self.action.clone()));
        r.push(self.user_id.clone());
        r.push(self.username.clone());
        r.push(self.device_id.clone());
        r.push(self.device_name.clone());
        r.push(self.ip_address.clone());
        r.push(self.user_agent.clone());
        r.push(self.details.clone());
        r.push(Some(now.to_owned()));
        r
    }
}

// ----------------------------------------------------------------------------
// Listing
// ----------------------------------------------------------------------------

/// The filters of an audit listing, each only when asked for: by kind, user, device, and
/// creation time from `start_time` and up to `end_time` (RFC 3339 texts).
pub open spec fn log_filters(
    log_type: Option<AuditLogType>,
    user_id: Option<Seq<char>>,
    device_id: Option<Seq<char>>,
    start_time: Option<Seq<char>>,
    end_time: Option<Seq<char>>,
) -> Seq<(Seq<char>, Seq<char>)> {
    (match log_type {
        Some(t) => seq![(" AND log_type = ?"@, log_type_name(t))],
        None => seq![],
    }) + (match user_id {
        Some(u) => seq![(" AND user_id = ?"@, u)],
        None => seq![],
    }) + (match device_id {
        Some(d) => seq![(" AND device_id = ?"@, d)],
        None => seq![],
    }) + (match start_time {
        Some(s) => seq![(" AND created_at >= ?"@, s)],
        None => seq![],
    }) + (match end_time {
        Some(e) => seq![(" AND created_at <= ?"@, e)],
        None => seq![],
    })
}

/// One when the option is given, else zero.
pub open spec fn given<T>(o: Option<T>) -> int {
    if o is Some {
        1
    } else {
        0
    }
}

/// Each filter of an audit listing that is asked for is applied with its own value,
/// whatever the others: there is one condition per filter given, and each given filter's
/// condition binds what was given for it.
pub proof fn lemma_log_filters_given(
    log_type: Option<AuditLogType>,
    user_id: Option<Seq<char>>,
    device_id: Option<Seq<char>>,
    start_time: Option<Seq<char>>,
    end_time: Option<Seq<char>>,
)
    ensures
        ({
            let fs = log_filters(log_type, user_id, device_id, start_time, end_time);
            &&& fs.len() == given(log_type) + given(user_id) + given(device_id) + given(start_time)
                + given(end_time)
            &&& log_type matches Some(t) ==> fs.contains((" AND log_type = ?"@, log_type_name(t)))
            &&& user_id matches Some(u) ==> fs.contains((" AND user_id = ?"@, u))
            &&& device_id matches Some(d) ==> fs.contains((" AND device_id = ?"@, d))
            &&& start_time matches Some(t) ==> fs.contains((" AND created_at >= ?"@, t))
            &&& end_time matches Some(t) ==> fs.contains((" AND created_at <= ?"@, t))
        }),
{
    let fs = log_filters(log_type, user_id, device_id, start_time, end_time);
    let a = given(log_type);
    let b = a + given(user_id);
    let c = b + given(device_id);
    let d = c + given(start_time);
    if let Some(t) = log_type {
        assert(fs[0] == (" AND log_type = ?"@, log_type_name(t)));
    }
    if let Some(u) = user_id {
        assert(fs[a] == (" AND user_id = ?"@, u));
    }
    if let Some(x) = device_id {
        assert(fs[b] == (" AND device_id = ?"@, x));
    }
    if let Some(t) = start_time {
        assert(fs[c] == (" AND created_at >= ?"@, t));
    }
    if let Some(t) = end_time {
        assert(fs[d] == (" AND created_at <= ?"@, t));
    }
}

/// The text of an optional string argument.
pub open spec fn opt_str(o: Option<&str>) -> Option<Seq<char>> {
    match o {
        Some(s) => Some(s@),
        None => None,
    }
}

/// The paging tail of an audit listing: the newest first, then an optional limit and
/// offset, each bound as a parameter.
pub open spec fn paging_text(limit: Option<i32>, offset: Option<i32>) -> Seq<char> {
    " ORDER BY created_at DESC"@ + (if limit is Some {
        " LIMIT ?"@
    } else {
        Seq::<char>::empty()
    }) + (if offset is Some {
        " OFFSET ?"@
    } else {
        Seq::<char>::empty()
    })
}

/// The values bound by the paging tail.
pub open spec fn paging_params(limit: Option<i32>, offset: Option<i32>) -> Seq<Seq<char>> {
    (match limit {
        Some(l) => seq![signed_decimal(l as int)],
        None => seq![],
    }) + (match offset {
        Some(o) => seq![signed_decimal(o as int)],
        None => seq![],
    })
}

/// The limit of a listing is bound whenever it is given, whatever the offset: its decimal
/// text is the first paging value and the query asks for it with ` LIMIT ?` right after
/// the ordering; the offset, when given, is the last value and comes last in the query.
/// There is one bound value per paging option given.
pub proof fn lemma_paging_binds_limit(limit: Option<i32>, offset: Option<i32>)
    ensures
        paging_params(limit, offset).len() == (if limit is Some {
            1int
        } else {
            0int
        }) + (if offset is Some {
            1int
        } else {
            0int
        }),
        limit matches Some(l) ==> paging_params(limit, offset)[0] == signed_decimal(l as int)
            && paging_text(limit, offset).subrange(0, 33) == " ORDER BY created_at DESC LIMIT ?"@,
        offset matches Some(o) ==> paging_params(limit, offset).last() == signed_decimal(o as int)
            && paging_text(limit, offset).subrange(
            paging_text(limit, offset).len() - 9,
            paging_text(limit, offset).len() as int,
        ) == " OFFSET ?"@,
        paging_text(limit, offset).subrange(0, 25) == " ORDER BY created_at DESC"@,
{
    reveal_strlit(" ORDER BY created_at DESC");
    reveal_strlit(" LIMIT ?");
    reveal_strlit(" OFFSET ?");
    reveal_strlit(" ORDER BY created_at DESC LIMIT ?");
    let t = paging_text(limit, offset);
    assert(t.subrange(0, 25) =~= " ORDER BY created_at DESC"@);
    if limit is Some {
        assert(t.subrange(0, 33) =~= " ORDER BY created_at DESC LIMIT ?"@);
    }
    if offset is Some {
        assert(t.subrange(t.len() - 9, t.len() as int) =~= " OFFSET ?"@);
    }
}

fn log_conditions(
    log_type: Option<AuditLogType>,
    user_id: Option<&str>,
    device_id: Option<&str>,
    start_time: Option<&str>,
    end_time: Option<&str>,
) -> (r: Vec<Condition>)
    ensures
        conditions_view(r@) == log_filters(
            log_type,
            opt_str(user_id),
            opt_str(device_id),
            opt_str(start_time),
            opt_str(end_time),
        ),
{
    let mut conditions: Vec<Condition> = Vec::new();
    match log_type {
        Some(t) => conditions.push((" AND log_type = ?".to_owned(), t.as_str().to_owned())),
        None => {},
    }
    match user_id {
        Some(u) => conditions.push((" AND user_id = ?".to_owned(), u.to_owned())),
        None => {},
    }
    match device_id {
        Some(d) => conditions.push((" AND device_id = ?".to_owned(), d.to_owned())),
        None => {},
    }
    match start_time {
        Some(s) => conditions.push((" AND created_at >= ?".to_owned(), s.to_owned())),
        None => {},
    }
    match end_time {
        Some(e) => conditions.push((" AND created_at <= ?".to_owned(), e.to_owned())),
        None => {},
    }
    assert(conditions_view(conditions@) =~= log_filters(
        log_type,
        opt_str(user_id),
        opt_str(device_id),
        opt_str(start_time),
        opt_str(end_time),
    ));
    conditions
}

fn append_paging(query: &mut String, params: &mut Vec<String>, limit: Option<i32>, offset: Option<i32>)
    ensures
        final(query)@ == old(query)@ + paging_text(limit, offset),
        texts(final(params)@) == texts(old(params)@) + paging_params(limit, offset),
{
    let ghost q0 = query@;
    let ghost p0 = texts(params@);
    query.append(" ORDER BY created_at DESC");
    let ghost ordered = query@;
    match limit {
        Some(l) => {
            query.append(" LIMIT ?");
            let ghost before = params@;
            params.push(signed_text(l as i128));
            assert(texts(params@) =~= texts(before).push(signed_decimal(l as int)));
        },
        None => {},
    }
    let ghost limited = query@;
    let ghost limit_params = texts(params@);
    match offset {
        Some(o) => {
            query.append(" OFFSET ?");
            let ghost before = params@;
            params.push(signed_text(o as i128));
            assert(texts(params@) =~= texts(before).push(signed_decimal(o as int)));
        },
        None => {},
    }
    assert(query@ =~= q0 + paging_text(limit, offset));
    assert(texts(params@) =~= p0 + paging_params(limit, offset));
}

/// The query that lists the audit records matching the filters, newest first and paged
/// as asked, and the values it binds.
pub fn list_logs_query(
    log_type: Option<AuditLogType>,
    user_id: Option<&str>,
    device_id: Option<&str>,
    start_time: Option<&str>,
    end_time: Option<&str>,
    limit: Option<i32>,
    offset: Option<i32>,
) -> (r: (String, Vec<String>))
    ensures
        ({
            let fs = log_filters(
                log_type,
                opt_str(user_id),
                opt_str(device_id),
                opt_str(start_time),
                opt_str(end_time),
            );
            &&& r.0@ == "SELECT * FROM audit_logs WHERE 1=1"@ + fragments(fs) + paging_text(
                limit,
                offset,
            )
            &&& texts(r.1@) == fs.map_values(|c: (Seq<char>, Seq<char>)| c.1) + paging_params(
                limit,
                offset,
            )
        }),
{
    let conditions = log_conditions(log_type, user_id, device_id, start_time, end_time);
    let mut query = "SELECT * FROM audit_logs WHERE 1=1".to_owned();
    let mut params: Vec<String> = Vec::new();
    apply_conditions(&mut query, &mut params, &conditions);
    append_paging(&mut query, &mut params, limit, offset);
    assert(texts(Seq::<String>::empty()) =~= Seq::<Seq<char>>::empty());
    (query, params)
}

// ----------------------------------------------------------------------------
// Reading stored rows
// ----------------------------------------------------------------------------

/// The columns of a stored audit row as the database hands them out: each is absent
/// when it is NULL or of another type.
#[derive(Debug)]
pub struct AuditRow {
    pub id: Option<String>,
    pub log_type: Option<String>,
    pub action: Option<String>,
    pub user_id: Option<String>,
    pub username: Option<String>,
    pub device_id: Option<String>,
    pub device_name: Option<String>,
    pub ip_address: Option<String>,
    pub user_agent: Option<String>,
    pub details: Option<String>,
    pub created_at: Option<String>,
}

/// The details stored in a column, kept when they are JSON.
pub open spec fn stored_details(v: Option<String>) -> Option<String> {
    match v {
        Some(s) => if is_json_text(s@) {
            Some(s)
        } else {
            None
        },
        None => None,
    }
}

/// Reads a stored row back as an audit record. Missing texts read as empty, an
/// unreadable kind as `System`, details that are not JSON as absent, and a missing or
/// unreadable creation time as `now`.
pub fn log_from_row(row: AuditRow, now: Timestamp) -> (l: AuditLog)
    ensures
        l.id@ == text_or_empty(row.id),
        l.log_type == (match named_log_type(text_or_empty(row.log_type)) {
            Some(t) => t,
            None => AuditLogType::System,
        }),
        l.action@ == text_or_empty(row.action),
        l.user_id == row.user_id,
        l.username == row.username,
        l.device_id == row.device_id,
        l.device_name == row.device_name,
        l.ip_address == row.ip_address,
        l.user_agent == row.user_agent,
        l.details == stored_details(row.details),
        l.created_at == (match stored_instant(row.created_at) {
            Some(t) => t,
            None => now,
        }),
{
    let kind_text = text_or_default(row.log_type);
    let log_type = AuditLogType::from_stored(kind_text.as_str());
    let details = match row.details {
        Some(s) => if json_parses(s.as_str()) {
            Some(s)
        } else {
            None
        },
        None => None,
    };
    let created_at = match instant_of(&row.created_at) {
        Some(t) => t,
        None => now,
    };
    AuditLog {
        id: text_or_default(row.id),
        log_type,
        action: text_or_default(row.action),
        user_id: row.user_id,
        username: row.username,
        device_id: row.device_id,
        device_name: row.device_name,
        ip_address: row.ip_address,
        user_agent: row.user_agent,
        details,
        created_at,
    }
}

} // verus!
