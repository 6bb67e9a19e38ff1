use vstd::prelude::*;
use base64::Engine;
use crate::model::{is_sync_table, app_sync_tables, sync_tables};
use crate::store::names_of;
use crate::retry::{error_text, DeviceSyncError};
use crate::text::{
    append_str, ascii_lower_seq, chars_of, eq_ignore_ascii_case, eq_ignore_ascii_case_seq, is_hex_digit, str_eq,
    string_of, to_ascii_lowercase, trim, trim_seq,
};

verus! {

/// Whether `s` is `sha256:` followed by 64 hexadecimal digits.
pub open spec fn spec_is_valid_sha256_checksum(s: Seq<char>) -> bool {
    s.len() == 71 && s.subrange(0, 7) == "sha256:"@ && forall|i: int| 7 <= i < 71 ==> is_hex_digit(#[trigger] s[i])
}

fn is_hex_digit_char(c: char) -> (r: bool)
    ensures
        r == is_hex_digit(c),
{
    ('0' <= c && c <= '9') || ('a' <= c && c <= 'f') || ('A' <= c && c <= 'F')
}

pub fn is_valid_sha256_checksum(checksum: &str) -> (r: bool)
    ensures
        r == spec_is_valid_sha256_checksum(checksum@),
{
    let cs = chars_of(checksum);
    if cs.len() != 71 {
        return false;
    }
    let prefix = crate::text::string_from_range(&cs, 0, 7);
    if !str_eq(prefix.as_str(), "sha256:") {
        return false;
    }
    let mut i: usize = 7;
    while i < 71
        invariant
            cs@ == checksum@,
            cs@.len() == 71,
            7 <= i <= 71,
            forall|k: int| 7 <= k < i ==> is_hex_digit(#[trigger] checksum@[k]),
        decreases 71 - i,
    {
        if !is_hex_digit_char(cs[i]) {
            return false;
        }
        i += 1;
    }
    true
}

/// Whether a string parses as a UUID (hyphenated, simple, URN or braced).
pub uninterp spec fn uuid_text_valid(s: Seq<char>) -> bool;

/// Relies on `uuid::Uuid::parse_str`: whether the text parses as a UUID.
#[verifier::external_body]
fn parses_as_uuid(s: &str) -> (r: bool)
    ensures
        r == uuid_text_valid(s@),
{
    uuid::Uuid::parse_str(s).is_ok()
}

/// Header set sent with a snapshot upload.
#[derive(Debug, Clone, PartialEq, Eq)]
pub struct SnapshotUploadHeaders {
    pub event_id: Option<String>,
    pub schema_version: i32,
    pub covers_tables: Vec<String>,
    pub size_bytes: i64,
    pub checksum: String,
    pub metadata_payload: String,
    pub payload_key_version: i32,
}

/// Why a snapshot upload was refused before any request was made.
#[derive(Debug, Clone, Copy, PartialEq, Eq, Structural)]
pub enum UploadRejection {
    EmptyPayload,
    PayloadTooLarge,
    SizeMismatch,
    ChecksumFormat,
    ChecksumMismatch,
    InvalidEventId,
    AlreadyInProgress,
    Cancelled,
}

/// Text of each rejection.
pub open spec fn rejection_message(r: UploadRejection) -> Seq<char> {
    match r {
        UploadRejection::EmptyPayload => "Snapshot payload is empty"@,
        UploadRejection::PayloadTooLarge => "Snapshot payload is too large for size header"@,
        UploadRejection::SizeMismatch => "Snapshot size header does not match payload length"@,
        UploadRejection::ChecksumFormat => "Invalid snapshot checksum format; expected sha256:<hex>"@,
        UploadRejection::ChecksumMismatch => "Snapshot checksum does not match payload bytes"@,
        UploadRejection::InvalidEventId => "Invalid snapshot event ID"@,
        UploadRejection::AlreadyInProgress => "Snapshot upload already in progress for this snapshot event"@,
        UploadRejection::Cancelled => "Snapshot upload cancelled"@,
    }
}

impl UploadRejection {
    pub fn message(&self) -> (r: &'static str)
        ensures
            r@ == rejection_message(*self),
    {
        match self {
            UploadRejection::EmptyPayload => "Snapshot payload is empty",
            UploadRejection::PayloadTooLarge => "Snapshot payload is too large for size header",
            UploadRejection::SizeMismatch => "Snapshot size header does not match payload length",
            UploadRejection::ChecksumFormat => "Invalid snapshot checksum format; expected sha256:<hex>",
            UploadRejection::ChecksumMismatch => "Snapshot checksum does not match payload bytes",
            UploadRejection::InvalidEventId => "Invalid snapshot event ID",
            UploadRejection::AlreadyInProgress => "Snapshot upload already in progress for this snapshot event",
            UploadRejection::Cancelled => "Snapshot upload cancelled",
        }
    }

    /// The client error that reports this rejection: an invalid request
    /// carrying the rejection's text.
    pub fn to_error(&self) -> (r: DeviceSyncError)
        ensures
            r matches DeviceSyncError::InvalidRequest(m) && m@ == rejection_message(*self),
    {
        DeviceSyncError::InvalidRequest(string_of(self.message()))
    }
}

/// Validation of a snapshot upload before any HTTP request. `payload_len` is
/// the body's length and `computed_checksum` the `sha256:<hex>` digest of the
/// body.
pub open spec fn spec_upload_rejection(
    size_bytes: i64,
    checksum: Seq<char>,
    event_id: Option<Seq<char>>,
    payload_len: usize,
    computed_checksum: Seq<char>,
) -> Option<UploadRejection> {
    if payload_len == 0 {
        Some(UploadRejection::EmptyPayload)
    } else if payload_len > i64::MAX {
        Some(UploadRejection::PayloadTooLarge)
    } else if size_bytes != payload_len {
        Some(UploadRejection::SizeMismatch)
    } else if !spec_is_valid_sha256_checksum(checksum) {
        Some(UploadRejection::ChecksumFormat)
    } else if !eq_ignore_ascii_case_seq(checksum, computed_checksum) {
        Some(UploadRejection::ChecksumMismatch)
    } else if event_id matches Some(id) && !uuid_text_valid(id) {
        Some(UploadRejection::InvalidEventId)
    } else {
        None
    }
}

pub open spec fn opt_view(o: Option<String>) -> Option<Seq<char>> {
    match o {
        Some(s) => Some(s@),
        None => None,
    }
}

/// Checks an upload's headers against its body and settles what is sent:
/// the checksum in lower case, and the caller's event id, or `fresh_event_id`
/// when the caller gave none, reused for every attempt.
pub fn prepare_snapshot_upload(
    headers: SnapshotUploadHeaders,
    payload_len: usize,
    computed_checksum: &str,
    fresh_event_id: String,
) -> (r: Result<SnapshotUploadHeaders, UploadRejection>)
    ensures
        match r {
            Ok(h) => spec_upload_rejection(headers.size_bytes, headers.checksum@, opt_view(headers.event_id), payload_len, computed_checksum@) is None
                && h.checksum@ == ascii_lower_seq(computed_checksum@)
                && h.event_id == Some(match headers.event_id {
                    Some(id) => id,
                    None => fresh_event_id,
                })
                && h.size_bytes == headers.size_bytes
                && h.schema_version == headers.schema_version
                && h.covers_tables == headers.covers_tables
                && h.metadata_payload == headers.metadata_payload
                && h.payload_key_version == headers.payload_key_version,
            Err(e) => spec_upload_rejection(headers.size_bytes, headers.checksum@, opt_view(headers.event_id), payload_len, computed_checksum@) == Some(e),
        },
{
    if payload_len == 0 {
        return Err(UploadRejection::EmptyPayload);
    }
    if payload_len as u64 > i64::MAX as u64 {
        return Err(UploadRejection::PayloadTooLarge);
    }
    if headers.size_bytes != payload_len as i64 {
        return Err(UploadRejection::SizeMismatch);
    }
    if !is_valid_sha256_checksum(headers.checksum.as_str()) {
        return Err(UploadRejection::ChecksumFormat);
    }
    if !eq_ignore_ascii_case(headers.checksum.as_str(), computed_checksum) {
        return Err(UploadRejection::ChecksumMismatch);
    }
    let event_id = match headers.event_id {
        Some(id) => {
            if !parses_as_uuid(id.as_str()) {
                return Err(UploadRejection::InvalidEventId);
            }
            id
        },
        None => fresh_event_id,
    };
    Ok(SnapshotUploadHeaders {
        event_id: Some(event_id),
        schema_version: headers.schema_version,
        covers_tables: headers.covers_tables,
        size_bytes: headers.size_bytes,
        checksum: to_ascii_lowercase(computed_checksum),
        metadata_payload: headers.metadata_payload,
        payload_key_version: headers.payload_key_version,
    })
}

/// Key under which an upload is registered as in flight.
pub open spec fn upload_key(device_id: Seq<char>, event_id: Seq<char>) -> Seq<char> {
    device_id + ":"@ + event_id
}

pub fn snapshot_upload_key(device_id: &str, event_id: &str) -> (r: String)
    ensures
        r@ == upload_key(device_id@, event_id@),
{
    let mut s = string_of(device_id);
    append_str(&mut s, ":");
    append_str(&mut s, event_id);
    s
}

/// The snapshot uploads in flight in this process, each registered once.
/// A vector whose keys are kept distinct (`wf`) serves as the set, so that
/// membership, insertion and removal are stated over `view_keys`.
pub struct InFlightUploads {
    keys: Vec<String>,
}

impl InFlightUploads {
    /// The keys registered.
    pub closed spec fn view_keys(&self) -> Set<Seq<char>> {
        Set::new(|k: Seq<char>| exists|i: int| 0 <= i < self.keys@.len() && self.keys@[i]@ == k)
    }

    pub closed spec fn wf(&self) -> bool {
        forall|i: int, j: int| 0 <= i < j < self.keys@.len() ==> self.keys@[i]@ != self.keys@[j]@
    }

    pub fn new() -> (r: Self)
        ensures
            r.wf(),
            r.view_keys() == Set::<Seq<char>>::empty(),
    {
        let r = InFlightUploads { keys: Vec::new() };
        assert(r.view_keys() =~= Set::<Seq<char>>::empty());
        r
    }

    fn position(&self, key: &str) -> (r: Option<usize>)
        ensures
            match r {
                Some(i) => i < self.keys@.len() && self.keys@[i as int]@ == key@,
                None => !self.view_keys().contains(key@),
            },
    {
        let mut i: usize = 0;
        while i < self.keys.len()
            invariant
                i <= self.keys@.len(),
                forall|k: int| 0 <= k < i ==> self.keys@[k]@ != key@,
            decreases self.keys.len() - i,
        {
            if str_eq(self.keys[i].as_str(), key) {
                return Some(i);
            }
            i += 1;
        }
        None
    }

    /// Registers `key`; refuses, leaving the set as it was, when an upload
    /// with that key is already in flight.
    pub fn try_begin(&mut self, key: String) -> (r: bool)
        requires
            old(self).wf(),
        ensures
            final(self).wf(),
            r == !old(self).view_keys().contains(key@),
            final(self).view_keys() == old(self).view_keys().insert(key@),
    {
        if self.position(key.as_str()).is_some() {
            assert(self.view_keys() =~= self.view_keys().insert(key@));
            return false;
        }
        let ghost k = key@;
        let ghost before = self.view_keys();
        self.keys.push(key);
        assert(self.view_keys() =~= before.insert(k)) by {
            assert(self.keys@[self.keys@.len() - 1]@ == k);
            assert forall|x: Seq<char>| self.view_keys().contains(x) implies before.insert(k).contains(x) by {
                let i = choose|i: int| 0 <= i < self.keys@.len() && self.keys@[i]@ == x;
                if i < self.keys@.len() - 1 {
                    assert(old(self).keys@[i]@ == x);
                }
            }
            assert forall|x: Seq<char>| before.insert(k).contains(x) implies self.view_keys().contains(x) by {
                if x != k {
                    let i = choose|i: int| 0 <= i < old(self).keys@.len() && old(self).keys@[i]@ == x;
                    assert(self.keys@[i]@ == x);
                }
            }
        }
        true
    }

    /// Unregisters `key`.
    pub fn finish(&mut self, key: &str)
        requires
            old(self).wf(),
        ensures
            final(self).wf(),
            final(self).view_keys() == old(self).view_keys().remove(key@),
    {
        match self.position(key) {
            None => {
                assert(self.view_keys() =~= self.view_keys().remove(key@));
            },
            Some(i) => {
                let ghost before = self.keys@;
                self.keys.remove(i);
                assert(self.view_keys() =~= old(self).view_keys().remove(key@)) by {
                    assert forall|x: Seq<char>| self.view_keys().contains(x) implies old(self).view_keys().remove(key@).contains(x) by {
                        let j = choose|j: int| 0 <= j < self.keys@.len() && self.keys@[j]@ == x;
                        if j < i {
                            assert(before[j]@ == x);
                        } else {
                            assert(before[j + 1]@ == x);
                        }
                    }
                    assert forall|x: Seq<char>| old(self).view_keys().remove(key@).contains(x) implies self.view_keys().contains(x) by {
                        let j = choose|j: int| 0 <= j < before.len() && before[j]@ == x;
                        if j < i {
                            assert(self.keys@[j]@ == x);
                        } else if j > i {
                            assert(self.keys@[j - 1]@ == x);
                        }
                    }
                }
            },
        }
    }
}

} // verus!

verus! {

/// The 16-byte header of an SQLite database file, `SQLite format 3\0`.
pub open spec fn sqlite_magic() -> Seq<u8> {
    seq![83u8, 81u8, 76u8, 105u8, 116u8, 101u8, 32u8, 102u8, 111u8, 114u8, 109u8, 97u8, 116u8, 32u8, 51u8, 0u8]
}

pub open spec fn spec_is_sqlite_image(bytes: Seq<u8>) -> bool {
    bytes.len() >= 16 && bytes.subrange(0, 16) == sqlite_magic()
}

/// Whether the bytes start with the SQLite file header.
pub fn is_sqlite_image(bytes: &[u8]) -> (r: bool)
    ensures
        r == spec_is_sqlite_image(bytes@),
{
    if bytes.len() < 16 {
        return false;
    }
    let r = bytes[0] == 83 && bytes[1] == 81 && bytes[2] == 76 && bytes[3] == 105 && bytes[4] == 116
        && bytes[5] == 101 && bytes[6] == 32 && bytes[7] == 102 && bytes[8] == 111 && bytes[9] == 114
        && bytes[10] == 109 && bytes[11] == 97 && bytes[12] == 116 && bytes[13] == 32 && bytes[14] == 51
        && bytes[15] == 0;
    if r {
        assert(bytes@.subrange(0, 16) =~= sqlite_magic());
    } else {
        assert(bytes@.subrange(0, 16) != sqlite_magic()) by {
            if bytes@.subrange(0, 16) == sqlite_magic() {
                assert(bytes@.subrange(0, 16)[0] == bytes@[0]);
            }
        }
    }
    r
}

/// The bytes that standard, padded base64 text decodes to, or `None` when
/// the text is not such base64.
pub uninterp spec fn base64_decoded(s: Seq<char>) -> Option<Seq<u8>>;

/// Standard, padded base64 text of some bytes.
pub uninterp spec fn base64_encoded(b: Seq<u8>) -> Seq<char>;

/// Relies on `base64`'s `STANDARD` engine `decode`: the decoded bytes, or
/// an error when the text is not valid base64.
#[verifier::external_body]
fn base64_decode(s: &str) -> (r: Option<Vec<u8>>)
    ensures
        match r {
            Some(v) => base64_decoded(s@) == Some(v@),
            None => base64_decoded(s@) is None,
        },
{
    base64::engine::general_purpose::STANDARD.decode(s).ok()
}

/// Relies on `base64`'s `STANDARD` engine `encode`.
#[verifier::external_body]
fn base64_encode(b: &[u8]) -> (r: String)
    ensures
        r@ == base64_encoded(b@),
{
    base64::engine::general_purpose::STANDARD.encode(b)
}

/// Why a decrypted snapshot could not be turned into a database image.
#[derive(Debug, Clone, Copy, PartialEq, Eq, Structural)]
pub enum SnapshotImageError {
    NotBase64,
    NotSqliteImage,
}

/// Plaintext that carries a database image through the text envelope.
pub fn snapshot_plaintext(image: &[u8]) -> (r: String)
    ensures
        r@ == base64_encoded(image@),
{
    base64_encode(image)
}

/// Turns a decrypted snapshot payload back into the database image: base64
/// of the trimmed text, which must start with the SQLite header.
pub fn decode_snapshot_image(decrypted: &str) -> (r: Result<Vec<u8>, SnapshotImageError>)
    ensures
        match base64_decoded(trim_seq(decrypted@)) {
            None => r == Err::<Vec<u8>, SnapshotImageError>(SnapshotImageError::NotBase64),
            Some(b) => if spec_is_sqlite_image(b) {
                r matches Ok(v) && v@ == b
            } else {
                r == Err::<Vec<u8>, SnapshotImageError>(SnapshotImageError::NotSqliteImage)
            },
        },
{
    let t = trim(decrypted);
    match base64_decode(t) {
        None => Err(SnapshotImageError::NotBase64),
        Some(bytes) => {
            if is_sqlite_image(bytes.as_slice()) {
                Ok(bytes)
            } else {
                Err(SnapshotImageError::NotSqliteImage)
            }
        },
    }
}

/// The shape of a UUID that the relay accepts as a snapshot id: the nil or
/// max UUID, or 36 characters `8-4-4-4-12` of hex digits with version `1`-`8`
/// and variant `8`, `9`, `a` or `b` (either case).
pub open spec fn spec_is_strict_uuid_shape(v: Seq<char>) -> bool {
    v.len() == 36 && forall|i: int| 0 <= i < 36 ==> #[trigger] strict_uuid_char_ok(i, v[i])
}

pub open spec fn strict_uuid_char_ok(i: int, c: char) -> bool {
    if i == 8 || i == 13 || i == 18 || i == 23 {
        c == '-'
    } else if i == 14 {
        '1' <= c && c <= '8'
    } else if i == 19 {
        c == '8' || c == '9' || c == 'a' || c == 'b' || c == 'A' || c == 'B'
    } else {
        is_hex_digit(c)
    }
}

pub open spec fn spec_is_backend_strict_uuid(input: Seq<char>) -> bool {
    let v = trim_seq(input);
    eq_ignore_ascii_case_seq(v, "00000000-0000-0000-0000-000000000000"@)
        || eq_ignore_ascii_case_seq(v, "ffffffff-ffff-ffff-ffff-ffffffffffff"@)
        || spec_is_strict_uuid_shape(v)
}

fn strict_uuid_char_ok_exec(i: usize, c: char) -> (r: bool)
    ensures
        r == strict_uuid_char_ok(i as int, c),
{
    if i == 8 || i == 13 || i == 18 || i == 23 {
        c == '-'
    } else if i == 14 {
        '1' <= c && c <= '8'
    } else if i == 19 {
        c == '8' || c == '9' || c == 'a' || c == 'b' || c == 'A' || c == 'B'
    } else {
        is_hex_digit_char(c)
    }
}

/// Whether a snapshot id has the strict UUID shape that the relay checks.
pub fn is_backend_strict_uuid(input: &str) -> (r: bool)
    ensures
        r == spec_is_backend_strict_uuid(input@),
{
    let value = trim(input);
    if eq_ignore_ascii_case(value, "00000000-0000-0000-0000-000000000000")
        || eq_ignore_ascii_case(value, "ffffffff-ffff-ffff-ffff-ffffffffffff") {
        return true;
    }
    let cs = chars_of(value);
    if cs.len() != 36 {
        return false;
    }
    let mut i: usize = 0;
    while i < 36
        invariant
            cs@ == value@,
            cs@.len() == 36,
            i <= 36,
            value@ == trim_seq(input@),
            !eq_ignore_ascii_case_seq(value@, "00000000-0000-0000-0000-000000000000"@),
            !eq_ignore_ascii_case_seq(value@, "ffffffff-ffff-ffff-ffff-ffffffffffff"@),
            forall|k: int| 0 <= k < i ==> #[trigger] strict_uuid_char_ok(k, value@[k]),
        decreases 36 - i,
    {
        if !strict_uuid_char_ok_exec(i, cs[i]) {
            assert(!strict_uuid_char_ok(i as int, value@[i as int]));
            return false;
        }
        i += 1;
    }
    true
}

/// Latest snapshot metadata as the relay describes it.
#[derive(Debug, Clone, PartialEq, Eq)]
pub struct SnapshotLatest {
    pub snapshot_id: String,
    pub schema_version: i32,
    pub covers_tables: Vec<String>,
    pub oplog_seq: i64,
    pub size_bytes: i64,
    pub checksum: String,
    pub created_at: String,
}

/// The snapshot schema this build can restore.
pub const LOCAL_SCHEMA_VERSION: i32 = 1;

/// Next step of the bootstrap path.
#[derive(Debug, Clone, Copy, PartialEq, Eq, Structural)]
pub enum BootstrapStep {
    /// The device is not ready; nothing to do.
    SkipNotReady,
    /// The store was already bootstrapped.
    SkipAlreadyBootstrapped,
    /// No snapshot exists: this is the first device; mark bootstrap complete.
    FirstDevice,
    /// The snapshot was written by a newer schema; the app must be updated.
    SchemaTooNew,
    /// The metadata names no snapshot; ask the relay for a fresh one.
    RequestFresh,
    /// Download, verify and restore the snapshot.
    Download,
}

/// Decides the bootstrap step. `latest` is the latest snapshot's metadata,
/// `None` when the relay has none.
pub open spec fn spec_plan_bootstrap(ready: bool, needs_bootstrap: bool, latest: Option<SnapshotLatest>) -> BootstrapStep {
    if !ready {
        BootstrapStep::SkipNotReady
    } else if !needs_bootstrap {
        BootstrapStep::SkipAlreadyBootstrapped
    } else {
        match latest {
            None => BootstrapStep::FirstDevice,
            Some(l) => if l.schema_version > LOCAL_SCHEMA_VERSION {
                BootstrapStep::SchemaTooNew
            } else if trim_seq(l.snapshot_id@).len() == 0 {
                BootstrapStep::RequestFresh
            } else {
                BootstrapStep::Download
            },
        }
    }
}

pub fn plan_bootstrap(ready: bool, needs_bootstrap: bool, latest: Option<&SnapshotLatest>) -> (r: BootstrapStep)
    ensures
        r == spec_plan_bootstrap(ready, needs_bootstrap, match latest {
            Some(l) => Some(*l),
            None => None,
        }),
{
    if !ready {
        return BootstrapStep::SkipNotReady;
    }
    if !needs_bootstrap {
        return BootstrapStep::SkipAlreadyBootstrapped;
    }
    match latest {
        None => BootstrapStep::FirstDevice,
        Some(l) => {
            if l.schema_version > LOCAL_SCHEMA_VERSION {
                BootstrapStep::SchemaTooNew
            } else if trim(l.snapshot_id.as_str()).unicode_len() == 0 {
                BootstrapStep::RequestFresh
            } else {
                BootstrapStep::Download
            }
        },
    }
}

/// Which checksum disagreed with the downloaded bytes.
#[derive(Debug, Clone, Copy, PartialEq, Eq, Structural)]
pub enum ChecksumMismatch {
    DownloadHeader,
    LatestMetadata,
}

/// Checks the digest of downloaded bytes against the download's header and,
/// when not blank, the latest-snapshot metadata; hex digits match in either
/// case.
pub fn verify_snapshot_checksum(header_checksum: &str, metadata_checksum: &str, actual: &str) -> (r: Result<(), ChecksumMismatch>)
    ensures
        r == if !eq_ignore_ascii_case_seq(header_checksum@, actual@) {
            Err::<(), ChecksumMismatch>(ChecksumMismatch::DownloadHeader)
        } else if trim_seq(metadata_checksum@).len() > 0 && !eq_ignore_ascii_case_seq(metadata_checksum@, actual@) {
            Err(ChecksumMismatch::LatestMetadata)
        } else {
            Ok(())
        },
{
    if !eq_ignore_ascii_case(header_checksum, actual) {
        return Err(ChecksumMismatch::DownloadHeader);
    }
    if trim(metadata_checksum).unicode_len() > 0 && !eq_ignore_ascii_case(metadata_checksum, actual) {
        return Err(ChecksumMismatch::LatestMetadata);
    }
    Ok(())
}

/// Tables restored from a snapshot: those it covers that are in the sync
/// catalog, in its order; the whole catalog when that leaves none.
pub fn tables_to_restore(covers_tables: &Vec<String>) -> (r: Vec<String>)
    ensures
        r@.len() > 0,
        forall|i: int| 0 <= i < r@.len() ==> sync_tables().contains(#[trigger] r@[i]@),
        (exists|j: int| 0 <= j < covers_tables@.len() && sync_tables().contains(#[trigger] covers_tables@[j]@)) ==> forall|i: int|
            0 <= i < r@.len() ==> exists|j: int| 0 <= j < covers_tables@.len() && covers_tables@[j]@ == #[trigger] r@[i]@,
        forall|j: int| 0 <= j < covers_tables@.len() && sync_tables().contains(#[trigger] covers_tables@[j]@) ==> exists|i: int|
            0 <= i < r@.len() && r@[i]@ == covers_tables@[j]@,
{
    let mut out: Vec<String> = Vec::new();
    let mut i: usize = 0;
    while i < covers_tables.len()
        invariant
            i <= covers_tables@.len(),
            forall|k: int| 0 <= k < out@.len() ==> sync_tables().contains(#[trigger] out@[k]@),
            forall|k: int| 0 <= k < out@.len() ==> exists|j: int| 0 <= j < i && covers_tables@[j]@ == #[trigger] out@[k]@,
            forall|j: int| 0 <= j < i && sync_tables().contains(#[trigger] covers_tables@[j]@) ==> exists|k: int|
                0 <= k < out@.len() && out@[k]@ == covers_tables@[j]@,
            out@.len() == 0 ==> forall|j: int| 0 <= j < i ==> !sync_tables().contains(#[trigger] covers_tables@[j]@),
        decreases covers_tables.len() - i,
    {
        let ghost before = out@;
        if is_sync_table(covers_tables[i].as_str()) {
            let t = string_of(covers_tables[i].as_str());
            out.push(t);
            assert(out@[out@.len() - 1]@ == covers_tables@[i as int]@);
        }
        assert forall|j: int| 0 <= j < i + 1 && sync_tables().contains(#[trigger] covers_tables@[j]@) implies exists|k: int|
            0 <= k < out@.len() && out@[k]@ == covers_tables@[j]@ by {
            if j < i {
                let k = choose|k: int| 0 <= k < before.len() && before[k]@ == covers_tables@[j]@;
                assert(out@[k] == before[k]);
            } else {
                assert(out@[out@.len() - 1]@ == covers_tables@[j]@);
            }
        }
        assert forall|k: int| 0 <= k < out@.len() implies exists|j: int| 0 <= j < i + 1 && covers_tables@[j]@ == #[trigger] out@[k]@ by {
            if k < before.len() {
                assert(out@[k] == before[k]);
                let j = choose|j: int| 0 <= j < i && covers_tables@[j]@ == before[k]@;
            } else {
                assert(covers_tables@[i as int]@ == out@[k]@);
            }
        }
        i += 1;
    }
    if out.len() == 0 {
        let all = app_sync_tables();
        let mut k: usize = 0;
        while k < all.len()
            invariant
                all@.len() == sync_tables().len(),
                forall|m: int| 0 <= m < all@.len() ==> all@[m]@ == sync_tables()[m],
                k <= all@.len(),
                out@.len() == k,
                forall|m: int| 0 <= m < k ==> out@[m]@ == sync_tables()[m],
                forall|j: int| 0 <= j < covers_tables@.len() ==> !sync_tables().contains(#[trigger] covers_tables@[j]@),
            decreases all.len() - k,
        {
            out.push(string_of(all[k]));
            k += 1;
        }
        assert forall|m: int| 0 <= m < out@.len() implies sync_tables().contains(#[trigger] out@[m]@) by {
            assert(sync_tables()[m] == out@[m]@);
        }
    }
    out
}

/// Result of a snapshot bootstrap attempt.
#[derive(Debug, Clone, PartialEq, Eq)]
pub struct SyncBootstrapResult {
    pub status: String,
    pub message: String,
    pub snapshot_id: Option<String>,
    pub cursor: Option<i64>,
}

/// Result of a snapshot generation and upload attempt.
#[derive(Debug, Clone, PartialEq, Eq)]
pub struct SyncSnapshotUploadResult {
    pub status: String,
    pub snapshot_id: Option<String>,
    pub oplog_seq: Option<i64>,
    pub message: String,
}

/// The result of an upload that was cancelled: no snapshot, no sequence.
pub fn snapshot_upload_cancelled_result(message: &str) -> (r: SyncSnapshotUploadResult)
    ensures
        r.status@ == "cancelled"@,
        r.snapshot_id is None,
        r.oplog_seq is None,
        r.message@ == message@,
{
    SyncSnapshotUploadResult {
        status: string_of("cancelled"),
        snapshot_id: None,
        oplog_seq: None,
        message: string_of(message),
    }
}

/// Result of starting or stopping the background engine.
#[derive(Debug, Clone, PartialEq, Eq)]
pub struct SyncBackgroundEngineResult {
    pub status: String,
    pub message: String,
}

/// Engine status together with the background loop's state.
#[derive(Debug, Clone, PartialEq, Eq)]
pub struct SyncEngineStatusResult {
    pub cursor: i64,
    pub last_push_at: Option<String>,
    pub last_pull_at: Option<String>,
    pub last_error: Option<String>,
    pub consecutive_failures: i32,
    pub next_retry_at: Option<String>,
    pub last_cycle_status: Option<String>,
    pub last_cycle_duration_ms: Option<i64>,
    pub background_running: bool,
    pub bootstrap_required: bool,
}

} // verus!

verus! {

/// Event name under which upload progress is published.
pub const SNAPSHOT_UPLOAD_PROGRESS_EVENT: &'static str = "device-sync:snapshot-upload-progress";

/// Stages of a snapshot upload reported to the user.
#[derive(Debug, Clone, Copy, PartialEq, Eq, Structural)]
pub enum SnapshotUploadStage {
    Start,
    Exported,
    Uploading,
    Complete,
    Cancelled,
}

/// Progress payload published for one stage.
#[derive(Debug, Clone, PartialEq, Eq)]
pub struct SnapshotUploadProgressEvent {
    pub stage: String,
    pub progress: u8,
    pub message: String,
}

pub open spec fn stage_name(s: SnapshotUploadStage) -> Seq<char> {
    match s {
        SnapshotUploadStage::Start => "start"@,
        SnapshotUploadStage::Exported => "exported"@,
        SnapshotUploadStage::Uploading => "uploading"@,
        SnapshotUploadStage::Complete => "complete"@,
        SnapshotUploadStage::Cancelled => "cancelled"@,
    }
}

/// Percentage shown at each stage: 5, 35, 70, 100, and 0 once cancelled.
pub open spec fn stage_progress(s: SnapshotUploadStage) -> u8 {
    match s {
        SnapshotUploadStage::Start => 5,
        SnapshotUploadStage::Exported => 35,
        SnapshotUploadStage::Uploading => 70,
        SnapshotUploadStage::Complete => 100,
        SnapshotUploadStage::Cancelled => 0,
    }
}

pub fn snapshot_upload_progress(stage: SnapshotUploadStage, message: &str) -> (r: SnapshotUploadProgressEvent)
    ensures
        r.stage@ == stage_name(stage),
        r.progress == stage_progress(stage),
        r.progress <= 100,
        r.message@ == message@,
{
    let (name, progress): (&str, u8) = match stage {
        SnapshotUploadStage::Start => ("start", 5),
        SnapshotUploadStage::Exported => ("exported", 35),
        SnapshotUploadStage::Uploading => ("uploading", 70),
        SnapshotUploadStage::Complete => ("complete", 100),
        SnapshotUploadStage::Cancelled => ("cancelled", 0),
    };
    SnapshotUploadProgressEvent { stage: string_of(name), progress, message: string_of(message) }
}

} // verus!

verus! {

/// Which snapshot metadata the bootstrap path trusts.
#[derive(Debug, Clone, Copy, PartialEq, Eq, Structural)]
pub enum LatestSnapshotSource {
    /// The latest-snapshot response, whose id has the strict UUID shape.
    Latest,
    /// The snapshot pointer of the events-cursor response.
    CursorPointer,
    /// The error is reported as is.
    Fail,
}

/// The relay may hand out a malformed snapshot id, or reject its own id as
/// not a UUID; in both cases the cursor response's pointer is used instead.
pub open spec fn spec_latest_snapshot_source(latest: Result<SnapshotLatest, DeviceSyncError>) -> LatestSnapshotSource {
    match latest {
        Ok(s) => if spec_is_backend_strict_uuid(s.snapshot_id@) {
            LatestSnapshotSource::Latest
        } else {
            LatestSnapshotSource::CursorPointer
        },
        Err(DeviceSyncError::Api { status, message }) => if status == 400 && crate::text::contains_seq(message@, "snapshotId"@)
            && (crate::text::contains_seq(message@, "Invalid UUID"@) || crate::text::contains_seq(message@, "invalid_format"@)) {
            LatestSnapshotSource::CursorPointer
        } else {
            LatestSnapshotSource::Fail
        },
        Err(_) => LatestSnapshotSource::Fail,
    }
}

pub fn latest_snapshot_source(latest: &Result<SnapshotLatest, DeviceSyncError>) -> (r: LatestSnapshotSource)
    ensures
        r == spec_latest_snapshot_source(*latest),
{
    match latest {
        Ok(s) => if is_backend_strict_uuid(s.snapshot_id.as_str()) {
            LatestSnapshotSource::Latest
        } else {
            LatestSnapshotSource::CursorPointer
        },
        Err(e) => if e.is_snapshot_id_validation_error() {
            LatestSnapshotSource::CursorPointer
        } else {
            LatestSnapshotSource::Fail
        },
    }
}

/// Metadata built from the cursor response's snapshot pointer: no table
/// list, size or checksum is known.
pub fn snapshot_from_pointer(snapshot_id: String, schema_version: i32, oplog_seq: i64) -> (r: SnapshotLatest)
    ensures
        r.snapshot_id == snapshot_id,
        r.schema_version == schema_version,
        r.oplog_seq == oplog_seq,
        r.covers_tables@.len() == 0,
        r.size_bytes == 0,
        r.checksum@.len() == 0,
        r.created_at@.len() == 0,
{
    SnapshotLatest {
        snapshot_id,
        schema_version,
        covers_tables: Vec::new(),
        oplog_seq,
        size_bytes: 0,
        checksum: String::new(),
        created_at: String::new(),
    }
}

} // verus!

verus! {

/// Engine status as reported to the user, with the loop's state.
pub fn engine_status_result(
    status: crate::model::SyncEngineStatus,
    background_running: bool,
    bootstrap_required: bool,
) -> (r: SyncEngineStatusResult)
    ensures
        r.cursor == status.cursor,
        r.last_push_at == status.last_push_at,
        r.last_pull_at == status.last_pull_at,
        r.last_error == status.last_error,
        r.consecutive_failures == status.consecutive_failures,
        r.next_retry_at == status.next_retry_at,
        r.last_cycle_status == status.last_cycle_status,
        r.last_cycle_duration_ms == status.last_cycle_duration_ms,
        r.background_running == background_running,
        r.bootstrap_required == bootstrap_required,
{
    SyncEngineStatusResult {
        cursor: status.cursor,
        last_push_at: status.last_push_at,
        last_pull_at: status.last_pull_at,
        last_error: status.last_error,
        consecutive_failures: status.consecutive_failures,
        next_retry_at: status.next_retry_at,
        last_cycle_status: status.last_cycle_status,
        last_cycle_duration_ms: status.last_cycle_duration_ms,
        background_running,
        bootstrap_required,
    }
}

} // verus!

verus! {

pub open spec fn cancelled_message(exported: bool) -> Seq<char> {
    if exported {
        "Snapshot upload cancelled after export"@
    } else {
        "Snapshot upload cancelled before export"@
    }
}

/// Decides whether a snapshot upload stops before (or, with `exported`,
/// right after) the export: a device that is not trusted skips it, and a
/// set cancel flag ends it as cancelled. `None` lets the upload go on.
pub fn snapshot_upload_gate(trusted: bool, cancelled: bool, exported: bool) -> (r: Option<SyncSnapshotUploadResult>)
    ensures
        !trusted ==> (r matches Some(x) && x.status@ == "skipped"@ && x.snapshot_id is None && x.oplog_seq is None
            && x.message@ == "Current device is not trusted"@),
        trusted && cancelled ==> (r matches Some(x) && x.status@ == "cancelled"@ && x.snapshot_id is None
            && x.oplog_seq is None && x.message@ == cancelled_message(exported)),
        trusted && !cancelled ==> r is None,
{
    if !trusted {
        return Some(SyncSnapshotUploadResult {
            status: string_of("skipped"),
            snapshot_id: None,
            oplog_seq: None,
            message: string_of("Current device is not trusted"),
        });
    }
    if cancelled {
        let m = if exported {
            "Snapshot upload cancelled after export"
        } else {
            "Snapshot upload cancelled before export"
        };
        return Some(snapshot_upload_cancelled_result(m));
    }
    None
}

/// Header set of an upload of the whole catalog: a payload of `payload_len`
/// bytes with the given digest, encrypted under `key_version` (1 when none,
/// and at least 1).
pub fn snapshot_upload_headers(
    event_id: String,
    payload_len: usize,
    checksum: String,
    metadata_payload: String,
    key_version: Option<i32>,
) -> (r: SnapshotUploadHeaders)
    requires
        payload_len <= i64::MAX,
    ensures
        r.event_id == Some(event_id),
        r.schema_version == LOCAL_SCHEMA_VERSION,
        names_of(r.covers_tables@) == sync_tables(),
        r.size_bytes == payload_len,
        r.checksum == checksum,
        r.metadata_payload == metadata_payload,
        r.payload_key_version == match key_version {
            Some(v) => if v < 1 { 1 } else { v },
            None => 1,
        },
{
    let all = app_sync_tables();
    let mut tables: Vec<String> = Vec::new();
    let mut k: usize = 0;
    while k < all.len()
        invariant
            all@.len() == sync_tables().len(),
            forall|m: int| 0 <= m < all@.len() ==> all@[m]@ == sync_tables()[m],
            k <= all@.len(),
            tables@.len() == k,
            forall|m: int| 0 <= m < k ==> tables@[m]@ == sync_tables()[m],
        decreases all.len() - k,
    {
        tables.push(string_of(all[k]));
        k += 1;
    }
    assert(names_of(tables@) =~= sync_tables());
    let v: i32 = match key_version {
        Some(v) => if v < 1 { 1 } else { v },
        None => 1,
    };
    SnapshotUploadHeaders {
        event_id: Some(event_id),
        schema_version: LOCAL_SCHEMA_VERSION,
        covers_tables: tables,
        size_bytes: payload_len as i64,
        checksum,
        metadata_payload,
        payload_key_version: v,
    }
}

/// Whether an upload failure reports a cancellation: its text mentions
/// `cancelled`, in any ASCII case.
pub open spec fn is_cancellation(e: DeviceSyncError) -> bool {
    crate::text::contains_seq(ascii_lower_seq(error_text(e)), "cancelled"@)
}

/// The result of an upload: uploaded with the relay's snapshot id and
/// sequence; cancelled when the failure reports a cancellation; any other
/// failure unchanged.
pub fn snapshot_upload_outcome(res: Result<(String, i64), DeviceSyncError>) -> (o: Result<SyncSnapshotUploadResult, DeviceSyncError>)
    ensures
        match res {
            Ok((id, seq)) => o matches Ok(x) && x.status@ == "uploaded"@ && x.snapshot_id == Some(id)
                && x.oplog_seq == Some(seq) && x.message@ == "Snapshot uploaded"@,
            Err(e) => if is_cancellation(e) {
                o matches Ok(x) && x.status@ == "cancelled"@ && x.snapshot_id is None && x.oplog_seq is None
                    && x.message@ == "Snapshot upload cancelled during transfer"@
            } else {
                o == Err::<SyncSnapshotUploadResult, DeviceSyncError>(e)
            },
        },
{
    match res {
        Ok((id, seq)) => Ok(SyncSnapshotUploadResult {
            status: string_of("uploaded"),
            snapshot_id: Some(id),
            oplog_seq: Some(seq),
            message: string_of("Snapshot uploaded"),
        }),
        Err(e) => {
            let lower = to_ascii_lowercase(e.text());
            if crate::text::contains_str(lower.as_str(), "cancelled") {
                Ok(snapshot_upload_cancelled_result("Snapshot upload cancelled during transfer"))
            } else {
                Err(e)
            }
        },
    }
}

/// A failed latest-snapshot lookup answered 404: no snapshot exists yet, so
/// this is the first device.
pub fn is_first_device(err: &DeviceSyncError) -> (r: bool)
    ensures
        r == (err matches DeviceSyncError::Api { status, .. } && status == 404),
{
    match err {
        DeviceSyncError::Api { status, .. } => *status == 404,
        _ => false,
    }
}

} // verus!
