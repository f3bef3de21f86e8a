//! The bodies and query strings that the HTTP interface accepts, and what the handlers
//! read out of them.
use vstd::prelude::*;

use crate::audit::{named_log_type, AuditLogType};
use crate::device::{filter_status, DeviceStatus};
use crate::user::UserLoginRequest;

verus! {

/// A sign-in body.
#[derive(Debug)]
pub struct LoginRequest {
    pub username: String,
    pub password: String,
}

impl LoginRequest {
    /// The sign-in request this body makes.
    pub fn into_login(self) -> (r: UserLoginRequest)
        ensures
            r.username == self.username,
            r.password == self.password,
    {
        UserLoginRequest { username: self.username, password: self.password }
    }
}

/// A body that asks whether a token is valid.
#[derive(Debug)]
pub struct ValidateTokenRequest {
    pub token: String,
}

/// The query of an account listing.
#[derive(Debug)]
pub struct ListUsersQuery {
    pub organization_id: Option<String>,
}

/// A password change body.
#[derive(Debug)]
pub struct ChangePasswordRequest {
    pub old_password: String,
    pub new_password: String,
}

/// The query of a device listing.
#[derive(Debug)]
pub struct ListDevicesQuery {
    pub organization_id: Option<String>,
    pub status: Option<String>,
    pub approved: Option<bool>,
}

impl ListDevicesQuery {
    /// The status to filter on: the one the query names, if it names one of the three
    /// known states; otherwise no status filter.
    pub fn status_filter(&self) -> (r: Option<DeviceStatus>)
        ensures
            r == (match self.status {
                Some(s) => filter_status(s@),
                None => None,
            }),
    {
        match &self.status {
            Some(s) => DeviceStatus::parse_filter(s.as_str()),
            None => None,
        }
    }
}

/// A body that reports a device's connection state.
#[derive(Debug)]
pub struct UpdateDeviceStatusRequest {
    pub status: String,
    pub ip_address: Option<String>,
}

impl UpdateDeviceStatusRequest {
    /// The reported state, which must be one of the three known ones.
    pub fn parsed_status(&self) -> (r: Option<DeviceStatus>)
        ensures
            r == filter_status(self.status@),
    {
        DeviceStatus::parse_filter(self.status.as_str())
    }
}

/// The query of an audit listing.
#[derive(Debug)]
pub struct ListAuditLogsQuery {
    pub log_type: Option<String>,
    pub user_id: Option<String>,
    pub device_id: Option<String>,
    pub limit: Option<i32>,
    pub offset: Option<i32>,
}

impl ListAuditLogsQuery {
    /// The kind to filter on: the one the query names, if any; an unknown name sets no
    /// kind filter.
    pub fn log_type_filter(&self) -> (r: Option<AuditLogType>)
        ensures
            r == (match self.log_type {
                Some(s) => named_log_type(s@),
                None => None,
            }),
    {
        match &self.log_type {
            Some(s) => AuditLogType::parse_filter(s.as_str()),
            None => None,
        }
    }
}

/// A body that asks for a new licence.
#[derive(Debug)]
pub struct LicenseGenerateRequest {
    pub license_type: String,
    pub duration_days: i64,
    pub max_devices: Option<i32>,
}

/// A body that presents a licence key.
#[derive(Debug)]
pub struct LicenseValidateRequest {
    pub key: String,
}

/// A body that describes an organisation.
#[derive(Debug)]
pub struct OrganizationCreateRequest {
    pub name: String,
    pub description: Option<String>,
    pub max_devices: Option<i32>,
}

} // verus!
