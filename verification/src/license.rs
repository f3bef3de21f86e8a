//! Licence keys: the key layout, the licence kinds, and the active licence with
//! its device budget.
//!
//! A key is the standard Base64 text of `[version] ++ [signature; 64] ++ payload`,
//! where the payload is the JSON text of a [`LicenseData`] (written and read by
//! the application) and the signature block is all zeros.
use base64::Engine;
use vstd::prelude::*;

use crate::text::{matches_word, same_word};
use crate::time::{earlier, Timestamp, SECS_PER_DAY};

verus! {

/// The version byte that starts every licence key.
pub const LICENSE_KEY_VERSION: u8 = 1;

// ----------------------------------------------------------------------------
// Trusted items
// ----------------------------------------------------------------------------

/// The character of the standard Base64 alphabet for the six-bit value `v`.
pub open spec fn base64_digit(v: int) -> char {
    if v < 26 {
        (65 + v) as char
    } else if v < 52 {
        (97 + (v - 26)) as char
    } else if v < 62 {
        (48 + (v - 52)) as char
    } else if v == 62 {
        '+'
    } else {
        '/'
    }
}

/// Standard padded Base64 (RFC 4648, section 4) of `data`: each group of three bytes, read
/// as a 24-bit number, becomes four characters of six bits each; a last group of one or
/// two bytes is filled with zero bits and its missing characters written as `=`.
pub open spec fn base64_text(data: Seq<u8>) -> Seq<char>
    decreases data.len(),
{
    if data.len() == 0 {
        seq![]
    } else if data.len() == 1 {
        let n = data[0] * 65536;
        seq![base64_digit(n / 262144), base64_digit((n / 4096) % 64), '=', '=']
    } else if data.len() == 2 {
        let n = data[0] * 65536 + data[1] * 256;
        seq![
            base64_digit(n / 262144),
            base64_digit((n / 4096) % 64),
            base64_digit((n / 64) % 64),
            '=',
        ]
    } else {
        let n = data[0] * 65536 + data[1] * 256 + data[2];
        seq![
            base64_digit(n / 262144),
            base64_digit((n / 4096) % 64),
            base64_digit((n / 64) % 64),
            base64_digit(n % 64),
        ] + base64_text(data.subrange(3, data.len() as int))
    }
}

/// Base64 text is four characters for every started group of three bytes.
pub proof fn lemma_base64_text_len(data: Seq<u8>)
    ensures
        base64_text(data).len() == 4 * ((data.len() + 2) / 3),
    decreases data.len(),
{
    if data.len() >= 3 {
        lemma_base64_text_len(data.subrange(3, data.len() as int));
    }
}

/// The bytes that base64's `STANDARD` engine reads back from `text`, or `None` where it
/// rejects the text.
pub uninterp spec fn base64_decoding(text: Seq<char>) -> Option<Seq<u8>>;

/// Calls `base64::engine::general_purpose::STANDARD.encode`. Claims that the result is
/// the standard padded Base64 of `data` (the `STANDARD` engine uses the standard alphabet
/// and writes padding), and that the same engine decodes it back to `data` (it accepts
/// exactly the canonical padded texts, and decodes each to the bytes it encodes). The
/// crate panics when the output length overflows `usize`; `requires` keeps the input well
/// below that.
#[verifier::external_body]
fn base64_encode(data: &[u8]) -> (text: String)
    requires
        data@.len() <= usize::MAX / 2,
    ensures
        text@ == base64_text(data@),
        base64_decoding(text@) == Some(data@),
{
    base64::engine::general_purpose::STANDARD.encode(data)
}

/// A character of the standard Base64 alphabet, or the padding `=`.
pub open spec fn base64_char(c: char) -> bool {
    ('A' <= c && c <= 'Z') || ('a' <= c && c <= 'z') || ('0' <= c && c <= '9') || c == '+'
        || c == '/' || c == '='
}

/// Calls `base64::engine::general_purpose::STANDARD.decode` on the bytes of `text`.
/// Claims that the result is the named decoding of the text, `None` standing for the
/// crate's `DecodeError`, and that a text holding a character outside the standard
/// alphabet and `=` is refused (the engine's decode table marks every other byte
/// invalid, which gives `DecodeError::InvalidByte`).
#[verifier::external_body]
fn base64_decode(text: &str) -> (bytes: Option<Vec<u8>>)
    ensures
        match bytes {
            Some(b) => base64_decoding(text@) == Some(b@),
            None => base64_decoding(text@) is None,
        },
        (exists|i: int| 0 <= i < text@.len() && !base64_char(#[trigger] text@[i])) ==> bytes is None,
{
    base64::engine::general_purpose::STANDARD.decode(text).ok()
}

/// Reads `sodiumoxide::crypto::sign::SIGNATUREBYTES`, the length of an ed25519
/// signature, which the crate defines as 64.
#[verifier::external_body]
fn signature_len() -> (n: usize)
    ensures
        n == 64,
{
    sodiumoxide::crypto::sign::SIGNATUREBYTES
}

/// Calls `sodiumoxide::init`, which prepares libsodium; its outcome is
/// ignored. Nothing is claimed.
#[verifier::external_body]
fn sodium_init() {
    let _ = sodiumoxide::init();
}

/// A lowercase hexadecimal digit.
pub open spec fn hex_digit(c: char) -> bool {
    ('0' <= c && c <= '9') || ('a' <= c && c <= 'f')
}

/// The text of a version 4 UUID as `to_string` writes it: 36 characters, lowercase
/// hexadecimal digits in groups of 8, 4, 4, 4 and 12 joined by hyphens, the version digit
/// `4` first in the third group and the variant digit (`8`, `9`, `a` or `b`) first in the
/// fourth.
pub open spec fn uuid_v4_text(s: Seq<char>) -> bool {
    &&& s.len() == 36
    &&& forall|i: int|
        0 <= i < 36 ==> if i == 8 || i == 13 || i == 18 || i == 23 {
            s[i] == '-'
        } else {
            hex_digit(#[trigger] s[i])
        }
    &&& s[14] == '4'
    &&& (s[19] == '8' || s[19] == '9' || s[19] == 'a' || s[19] == 'b')
}

/// Calls `uuid::Uuid::new_v4` and renders it with `to_string`. The value is random; the
/// claim is its layout: `new_v4` masks in the version 4 and RFC 4122 variant bits, and
/// `Display` writes the hyphenated lowercase form.
#[verifier::external_body]
pub(crate) fn fresh_uuid() -> (id: String)
    ensures
        uuid_v4_text(id@),
{
    uuid::Uuid::new_v4().to_string()
}

/// Reads `chrono::Utc::now()` as its seconds since the Unix epoch (`timestamp`) and the
/// nanoseconds past them (`timestamp_subsec_nanos`). The instant depends on the clock;
/// what is claimed is that it is no leap second: `Utc::now` builds it from the system
/// time's `subsec_nanos`, which stays below one second.
#[verifier::external_body]
pub(crate) fn utc_now() -> (t: Timestamp)
    ensures
        t.nanos < 1_000_000_000,
{
    let now = chrono::Utc::now();
    Timestamp { secs: now.timestamp(), nanos: now.timestamp_subsec_nanos() }
}

/// The instant (seconds, nanoseconds) that chrono reaches by adding `days` whole days to
/// the instant `secs`, `nanos`, or `None` where chrono rejects the instant or reports the
/// duration or the result out of its range.
pub uninterp spec fn chrono_days_later(secs: i64, nanos: u32, days: i64) -> Option<(i64, u32)>;

/// Calls `chrono::DateTime::from_timestamp`, `TimeDelta::try_days` and
/// `DateTime::checked_add_signed`, then reads the result with `timestamp` and
/// `timestamp_subsec_nanos`. Claims that the result is the named value, and that away
/// from a leap second it is the same time of day `days * 86 400` seconds later (chrono's
/// UTC days are exactly 86 400 seconds, and a whole-day shift keeps the nanoseconds).
/// Which instants are out of chrono's range is not stated.
#[verifier::external_body]
fn add_days(t: Timestamp, days: i64) -> (r: Option<Timestamp>)
    ensures
        match r {
            Some(v) => chrono_days_later(t.secs, t.nanos, days) == Some((v.secs, v.nanos)),
            None => chrono_days_later(t.secs, t.nanos, days) is None,
        },
        t.nanos < 1_000_000_000 ==> (r matches Some(v) ==> v.secs == t.secs + days * SECS_PER_DAY
            && v.nanos == t.nanos),
{
    let start = chrono::DateTime::from_timestamp(t.secs, t.nanos)?;
    let delta = chrono::TimeDelta::try_days(days)?;
    start
        .checked_add_signed(delta)
        .map(|d| Timestamp { secs: d.timestamp(), nanos: d.timestamp_subsec_nanos() })
}

// ----------------------------------------------------------------------------
// Errors
// ----------------------------------------------------------------------------

/// Why a licence operation failed.
#[derive(Debug, PartialEq, Eq)]
pub enum LicenseError {
    InvalidFormat,
    InvalidSignature,
    Expired,
    InvalidType,
    NotFound,
    DeviceLimitExceeded,
    DatabaseError(String),
    CryptoError(String),
    IoError(String),
    InvalidParameter(String),
}

/// The message shown for an error.
pub open spec fn license_error_message(e: LicenseError) -> Seq<char> {
    match e {
        LicenseError::InvalidFormat => "Invalid license key format"@,
        LicenseError::InvalidSignature => "License signature verification failed"@,
        LicenseError::Expired => "License has expired"@,
        LicenseError::InvalidType => "License type not recognized"@,
        LicenseError::NotFound => "License key not found"@,
        LicenseError::DeviceLimitExceeded => "Maximum device limit reached"@,
        LicenseError::DatabaseError(s) => "Database error: "@ + s@,
        LicenseError::CryptoError(s) => "Crypto error: "@ + s@,
        LicenseError::IoError(s) => "IO error: "@ + s@,
        LicenseError::InvalidParameter(s) => "Invalid parameter: "@ + s@,
    }
}

fn with_detail(prefix: &str, detail: &String) -> (r: String)
    ensures
        r@ == prefix@ + detail@,
{
    let mut r = prefix.to_owned();
    r.append(detail.as_str());
    r
}

impl LicenseError {
    /// The message shown for the error.
    pub fn message(&self) -> (m: String)
        ensures
            m@ == license_error_message(*self),
    {
        match self {
            LicenseError::InvalidFormat => "Invalid license key format".to_owned(),
            LicenseError::InvalidSignature => "License signature verification failed".to_owned(),
            LicenseError::Expired => "License has expired".to_owned(),
            LicenseError::InvalidType => "License type not recognized".to_owned(),
            LicenseError::NotFound => "License key not found".to_owned(),
            LicenseError::DeviceLimitExceeded => "Maximum device limit reached".to_owned(),
            LicenseError::DatabaseError(s) => with_detail("Database error: ", s),
            LicenseError::CryptoError(s) => with_detail("Crypto error: ", s),
            LicenseError::IoError(s) => with_detail("IO error: ", s),
            LicenseError::InvalidParameter(s) => with_detail("Invalid parameter: ", s),
        }
    }
}

// ----------------------------------------------------------------------------
// Licence kinds
// ----------------------------------------------------------------------------

/// The kinds of licence on offer.
#[derive(Debug, Clone, Copy, PartialEq, Eq, Structural)]
pub enum LicenseType {
    Basic,
    Pro,
    Enterprise,
}

/// The keyword that names a licence kind.
pub open spec fn license_type_name(t: LicenseType) -> Seq<char> {
    match t {
        LicenseType::Basic => "basic"@,
        LicenseType::Pro => "pro"@,
        LicenseType::Enterprise => "enterprise"@,
    }
}

/// The device budget that a kind grants when none is given: 50, 200, or no limit
/// (written as -1) for the enterprise kind.
pub open spec fn default_devices(t: LicenseType) -> i32 {
    match t {
        LicenseType::Basic => 50,
        LicenseType::Pro => 200,
        LicenseType::Enterprise => -1i32,
    }
}

impl LicenseType {
    /// Reads a licence kind from its keyword, letters compared without regard to case.
    pub fn parse(s: &str) -> (r: Result<LicenseType, ()>)
        ensures
            match r {
                Ok(t) => same_word(s@, license_type_name(t)),
                Err(()) => forall|t: LicenseType| !same_word(s@, #[trigger] license_type_name(t)),
            },
    {
        if matches_word(s, "basic") {
            Ok(LicenseType::Basic)
        } else if matches_word(s, "pro") {
            Ok(LicenseType::Pro)
        } else if matches_word(s, "enterprise") {
            Ok(LicenseType::Enterprise)
        } else {
            proof {
                assert forall|t: LicenseType| !same_word(s@, #[trigger] license_type_name(t)) by {
                    match t {
                        LicenseType::Basic => {},
                        LicenseType::Pro => {},
                        LicenseType::Enterprise => {},
                    }
                }
            }
            Err(())
        }
    }

    /// The keyword of this kind.
    pub fn as_str(&self) -> (s: &'static str)
        ensures
            s@ == license_type_name(*self),
    {
        match self {
            LicenseType::Basic => "basic",
            LicenseType::Pro => "pro",
            LicenseType::Enterprise => "enterprise",
        }
    }

    /// The device budget this kind grants when none is given.
    pub fn max_devices_default(&self) -> (n: i32)
        ensures
            n == default_devices(*self),
    {
        match self {
            LicenseType::Basic => 50,
            LicenseType::Pro => 200,
            LicenseType::Enterprise => -1,
        }
    }
}

/// Every kind reads back from its own keyword.
pub proof fn lemma_license_type_names_read_back(t: LicenseType)
    ensures
        same_word(license_type_name(t), license_type_name(t)),
        forall|u: LicenseType| #[trigger] same_word(license_type_name(t), license_type_name(u)) ==> u == t,
{
    reveal_strlit("basic");
    reveal_strlit("pro");
    reveal_strlit("enterprise");
    assert forall|u: LicenseType| #[trigger] same_word(license_type_name(t), license_type_name(u)) implies u == t by {
        if u != t {
            match (t, u) {
                (LicenseType::Basic, _) => {},
                (LicenseType::Pro, _) => {},
                (LicenseType::Enterprise, _) => {},
            }
        }
    }
}

impl std::str::FromStr for LicenseType {
    type Err = ();

    fn from_str(s: &str) -> (r: Result<LicenseType, ()>)
        ensures
            match r {
                Ok(t) => same_word(s@, license_type_name(t)),
                Err(()) => forall|t: LicenseType| !same_word(s@, #[trigger] license_type_name(t)),
            },
    {
        LicenseType::parse(s)
    }
}

// ----------------------------------------------------------------------------
// Licence records
// ----------------------------------------------------------------------------

/// What a key carries.
#[derive(Debug)]
pub struct LicenseData {
    pub id: String,
    pub license_type: LicenseType,
    pub valid_until: Timestamp,
    pub max_devices: i32,
    pub issued_at: Timestamp,
    pub signature: Vec<u8>,
}

/// What the server reports of an accepted licence. A budget of `None` means no limit.
#[derive(Debug)]
pub struct LicenseInfo {
    pub id: String,
    pub license_type: LicenseType,
    pub valid_until: Timestamp,
    pub max_devices: Option<i32>,
    pub issued_at: Timestamp,
}

impl Clone for LicenseInfo {
    fn clone(&self) -> (r: Self)
        ensures
            r == *self,
    {
        LicenseInfo {
            id: self.id.clone(),
            license_type: self.license_type,
            valid_until: self.valid_until,
            max_devices: self.max_devices,
            issued_at: self.issued_at,
        }
    }
}

/// The budget recorded in a key, read as a limit: a negative budget means no limit.
pub open spec fn budget_of(max_devices: i32) -> Option<i32> {
    if max_devices < 0 {
        None
    } else {
        Some(max_devices)
    }
}

impl LicenseInfo {
    /// The report of a key's data.
    pub fn from_data(data: LicenseData) -> (info: LicenseInfo)
        ensures
            info.id == data.id,
            info.license_type == data.license_type,
            info.valid_until == data.valid_until,
            info.issued_at == data.issued_at,
            info.max_devices == budget_of(data.max_devices),
    {
        LicenseInfo {
            id: data.id,
            license_type: data.license_type,
            valid_until: data.valid_until,
            max_devices: if data.max_devices < 0 {
                None
            } else {
                Some(data.max_devices)
            },
            issued_at: data.issued_at,
        }
    }
}

impl LicenseData {
    /// The data of a new licence of kind `license_type`, issued at `issued_at` and valid
    /// until `valid_until` (the issue instant moved by the licence's term, as far as the
    /// calendar reaches). A missing budget takes the kind's default. An instant that the
    /// calendar cannot reach is refused as an invalid parameter.
    pub fn assemble(
        id: String,
        license_type: LicenseType,
        issued_at: Timestamp,
        valid_until: Option<Timestamp>,
        max_devices: Option<i32>,
    ) -> (r: Result<LicenseData, LicenseError>)
        ensures
            match valid_until {
                None => r matches Err(LicenseError::InvalidParameter(_)),
                Some(end) => r matches Ok(d) && d.id == id && d.license_type == license_type
                    && d.issued_at == issued_at && d.valid_until == end && d.max_devices == (
                match max_devices {
                    Some(m) => m,
                    None => default_devices(license_type),
                }) && d.signature@.len() == 0,
            },
    {
        match valid_until {
            None => Err(LicenseError::InvalidParameter("licence term is out of range".to_owned())),
            Some(end) => {
                let m = match max_devices {
                    Some(m) => m,
                    None => license_type.max_devices_default(),
                };
                Ok(
                    LicenseData {
                        id,
                        license_type,
                        valid_until: end,
                        max_devices: m,
                        issued_at,
                        signature: Vec::new(),
                    },
                )
            },
        }
    }
}

// ----------------------------------------------------------------------------
// Key layout
// ----------------------------------------------------------------------------

/// The bytes of a key that carries `payload`: the version byte, 64 zero bytes where a
/// signature would stand, then the payload.
pub open spec fn key_bytes(payload: Seq<u8>) -> Seq<u8> {
    seq![LICENSE_KEY_VERSION] + Seq::new(64, |i: int| 0u8) + payload
}

/// The payload of decoded key bytes: present when the bytes start with the version
/// byte and hold more than the 65 bytes of header.
pub open spec fn payload_of(bytes: Seq<u8>) -> Option<Seq<u8>> {
    if bytes.len() > 65 && bytes[0] == LICENSE_KEY_VERSION {
        Some(bytes.subrange(65, bytes.len() as int))
    } else {
        None
    }
}

/// The payload that a key text carries, if it is a well-formed key.
pub open spec fn key_payload(key: Seq<char>) -> Option<Seq<u8>> {
    match base64_decoding(key) {
        Some(bytes) => payload_of(bytes),
        None => None,
    }
}

/// Frames a payload as a licence key and encodes it in Base64.
pub fn encode_license_key(payload: &[u8]) -> (key: String)
    requires
        payload@.len() <= usize::MAX / 4,
    ensures
        key@ == base64_text(key_bytes(payload@)),
        key@.len() == 4 * ((payload@.len() + 67) / 3),
        base64_decoding(key@) == Some(key_bytes(payload@)),
{
    let sig = signature_len();
    let mut bytes: Vec<u8> = Vec::new();
    bytes.push(LICENSE_KEY_VERSION);
    let mut i: usize = 0;
    while i < sig
        invariant
            sig == 64,
            i <= sig,
            bytes@ == seq![LICENSE_KEY_VERSION] + Seq::new(i as nat, |j: int| 0u8),
        decreases sig - i,
    {
        bytes.push(0u8);
        i = i + 1;
        assert(bytes@ == seq![LICENSE_KEY_VERSION] + Seq::new(i as nat, |j: int| 0u8));
    }
    let mut k: usize = 0;
    while k < payload.len()
        invariant
            k <= payload@.len(),
            bytes@ == seq![LICENSE_KEY_VERSION] + Seq::new(64, |j: int| 0u8) + payload@.subrange(
                0,
                k as int,
            ),
        decreases payload@.len() - k,
    {
        bytes.push(payload[k]);
        k = k + 1;
        assert(payload@.subrange(0, k as int) == payload@.subrange(0, k - 1 as int).push(
            payload@[k - 1],
        ));
    }
    assert(payload@.subrange(0, payload@.len() as int) == payload@);
    proof {
        lemma_base64_text_len(key_bytes(payload@));
    }
    base64_encode(bytes.as_slice())
}

/// Decodes a key and returns the payload it carries. Anything that is not Base64, does
/// not start with the version byte, or holds no payload after the header is refused
/// as an invalid format.
pub fn decode_license_key(key: &str) -> (r: Result<Vec<u8>, LicenseError>)
    ensures
        match key_payload(key@) {
            Some(p) => r matches Ok(v) && v@ == p,
            None => r == Err::<Vec<u8>, LicenseError>(LicenseError::InvalidFormat),
        },
        (exists|i: int| 0 <= i < key@.len() && !base64_char(#[trigger] key@[i])) ==> r
            == Err::<Vec<u8>, LicenseError>(LicenseError::InvalidFormat),
{
    let decoded = match base64_decode(key) {
        Some(b) => b,
        None => return Err(LicenseError::InvalidFormat),
    };
    if decoded.len() == 0 || decoded[0] != LICENSE_KEY_VERSION {
        return Err(LicenseError::InvalidFormat);
    }
    let header = signature_len() + 1;
    if decoded.len() <= header {
        return Err(LicenseError::InvalidFormat);
    }
    let mut payload: Vec<u8> = Vec::new();
    let mut i: usize = header;
    while i < decoded.len()
        invariant
            header == 65,
            header <= i <= decoded@.len(),
            payload@ == decoded@.subrange(65, i as int),
        decreases decoded@.len() - i,
    {
        payload.push(decoded[i]);
        i = i + 1;
        assert(decoded@.subrange(65, i as int) == decoded@.subrange(65, i - 1 as int).push(
            decoded@[i - 1],
        ));
    }
    Ok(payload)
}

/// A key made from a non-empty payload gives that payload back.
pub proof fn lemma_key_roundtrip(payload: Seq<u8>, key: Seq<char>)
    requires
        payload.len() > 0,
        base64_decoding(key) == Some(key_bytes(payload)),
    ensures
        key_payload(key) == Some(payload),
{
    let b = key_bytes(payload);
    assert(b.len() == 65 + payload.len());
    assert(b[0] == LICENSE_KEY_VERSION);
    assert(b.subrange(65, b.len() as int) =~= payload);
}

// ----------------------------------------------------------------------------
// The active licence
// ----------------------------------------------------------------------------

/// An accepted licence and the number of devices counted against it.
#[derive(Debug)]
pub struct ActiveLicense {
    pub info: LicenseInfo,
    pub device_count: i32,
}

/// Whether one more device fits the active licence: always when there is none or it
/// has no limit, otherwise when the count is below the limit.
pub open spec fn has_capacity(active: Option<ActiveLicense>) -> bool {
    match active {
        None => true,
        Some(a) => match a.info.max_devices {
            None => true,
            Some(max) => a.device_count < max,
        },
    }
}

/// The effect of counting one more device: the new state, or the refusal.
pub open spec fn count_device(active: Option<ActiveLicense>) -> Result<
    Option<ActiveLicense>,
    LicenseError,
> {
    match active {
        None => Ok(None),
        Some(a) => match a.info.max_devices {
            None => Ok(Some(a)),
            Some(max) => if a.device_count < max {
                Ok(Some(ActiveLicense { info: a.info, device_count: (a.device_count + 1) as i32 }))
            } else {
                Err(LicenseError::DeviceLimitExceeded)
            },
        },
    }
}

/// The count stays within the limit (trivially so without a limit).
pub open spec fn within_limit(active: Option<ActiveLicense>) -> bool {
    match active {
        None => true,
        Some(a) => match a.info.max_devices {
            None => true,
            Some(max) => 0 <= a.device_count <= max,
        },
    }
}

/// Holds the licence that was last accepted.
pub struct LicenseManager {
    pub active_license: Option<ActiveLicense>,
}

impl LicenseManager {
    /// A manager with no licence; prepares libsodium.
    pub fn new() -> (m: LicenseManager)
        ensures
            m.active_license is None,
    {
        sodium_init();
        LicenseManager { active_license: None }
    }

    /// The data of a new licence: `license_type` names the kind, the term is
    /// `duration_days` days from now, and a missing budget takes the kind's default.
    /// An unknown kind is refused; so is a term that leaves the calendar.
    pub fn prepare_license(
        &self,
        license_type: &str,
        duration_days: i64,
        max_devices: Option<i32>,
    ) -> (r: Result<LicenseData, LicenseError>)
        ensures
            (forall|t: LicenseType| !same_word(license_type@, #[trigger] license_type_name(t)))
                <==> r == Err::<LicenseData, LicenseError>(LicenseError::InvalidType),
            r matches Ok(d) ==> {
                &&& same_word(license_type@, license_type_name(d.license_type))
                &&& d.valid_until.secs == d.issued_at.secs + duration_days * SECS_PER_DAY
                &&& d.valid_until.nanos == d.issued_at.nanos
                &&& d.issued_at.nanos < 1_000_000_000
                &&& d.max_devices == (match max_devices {
                    Some(m) => m,
                    None => default_devices(d.license_type),
                })
                &&& uuid_v4_text(d.id@)
                &&& d.signature@.len() == 0
            },
    {
        let t = match LicenseType::parse(license_type) {
            Ok(t) => t,
            Err(()) => return Err(LicenseError::InvalidType),
        };
        let id = fresh_uuid();
        let issued_at = utc_now();
        let valid_until = add_days(issued_at, duration_days);
        LicenseData::assemble(id, t, issued_at, valid_until, max_devices)
    }

    /// Accepts a key's data at the instant `now`: refuses it as expired when its term
    /// ended before `now`; otherwise makes it the active licence with no devices counted
    /// and reports it.
    pub fn activate_at(&mut self, data: LicenseData, now: Timestamp) -> (r: Result<
        LicenseInfo,
        LicenseError,
    >)
        ensures
            earlier(data.valid_until, now) ==> r == Err::<LicenseInfo, LicenseError>(
                LicenseError::Expired,
            ) && final(self).active_license == old(self).active_license,
            !earlier(data.valid_until, now) ==> (r matches Ok(info) && info.id == data.id
                && info.license_type == data.license_type && info.valid_until == data.valid_until
                && info.issued_at == data.issued_at && info.max_devices == budget_of(
                data.max_devices,
            ) && final(self).active_license == Some(ActiveLicense { info, device_count: 0 })),
    {
        if data.valid_until.is_before(&now) {
            return Err(LicenseError::Expired);
        }
        let info = LicenseInfo::from_data(data);
        self.active_license = Some(ActiveLicense { info: info.clone(), device_count: 0 });
        Ok(info)
    }

    /// Accepts a key's data now; see [`LicenseManager::activate_at`]. The outcome
    /// depends on the clock, so only what holds for every instant is stated.
    pub fn activate(&mut self, data: LicenseData) -> (r: Result<LicenseInfo, LicenseError>)
        ensures
            r matches Ok(info) ==> info.id == data.id && info.license_type == data.license_type
                && info.valid_until == data.valid_until && info.issued_at == data.issued_at
                && info.max_devices == budget_of(data.max_devices)
                && final(self).active_license == Some(ActiveLicense { info, device_count: 0 }),
            r matches Err(e) ==> e == LicenseError::Expired && final(self).active_license == old(
                self,
            ).active_license,
    {
        let now = utc_now();
        self.activate_at(data, now)
    }

    /// Whether one more device fits the active licence. Never fails.
    pub fn check_device_limit(&self) -> (r: Result<bool, LicenseError>)
        ensures
            r == Ok::<bool, LicenseError>(has_capacity(self.active_license)),
    {
        match &self.active_license {
            Some(active) => match active.info.max_devices {
                Some(max) => Ok(active.device_count < max),
                None => Ok(true),
            },
            None => Ok(true),
        }
    }

    /// Counts one more device against the active licence, or refuses when its limit is
    /// reached (leaving the count as it was).
    pub fn increment_device_count(&mut self) -> (r: Result<(), LicenseError>)
        ensures
            match count_device(old(self).active_license) {
                Ok(next) => r == Ok::<(), LicenseError>(()) && final(self).active_license == next,
                Err(e) => r == Err::<(), LicenseError>(e) && final(self).active_license == old(
                    self,
                ).active_license,
            },
    {
        match &mut self.active_license {
            Some(active) => {
                match active.info.max_devices {
                    Some(max) => {
                        if active.device_count >= max {
                            return Err(LicenseError::DeviceLimitExceeded);
                        }
                        active.device_count = active.device_count + 1;
                    },
                    None => {},
                }
                Ok(())
            },
            None => Ok(()),
        }
    }

    /// The report of the active licence, if there is one.
    pub fn get_active_license(&self) -> (r: Option<LicenseInfo>)
        ensures
            match self.active_license {
                Some(a) => r == Some(a.info),
                None => r is None,
            },
    {
        match &self.active_license {
            Some(a) => Some(a.info.clone()),
            None => None,
        }
    }
}

/// The device check and the device count agree: a device is counted exactly when the
/// check says that one more fits.
pub proof fn lemma_check_matches_count(active: Option<ActiveLicense>)
    ensures
        has_capacity(active) <==> count_device(active) is Ok,
{
}

/// Counting devices never takes the count past the licence's limit.
pub proof fn lemma_count_stays_within_limit(active: Option<ActiveLicense>)
    requires
        within_limit(active),
    ensures
        count_device(active) matches Ok(next) ==> within_limit(next),
{
}

/// A freshly accepted licence has room for a device unless its limit is not positive.
pub proof fn lemma_fresh_license_capacity(info: LicenseInfo)
    ensures
        has_capacity(Some(ActiveLicense { info, device_count: 0 })) <==> (
        info.max_devices matches Some(m) ==> m > 0),
        within_limit(Some(ActiveLicense { info, device_count: 0 })) <==> (
        info.max_devices matches Some(m) ==> m >= 0),
{
}

} // verus!
