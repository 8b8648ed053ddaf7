use vstd::prelude::*;
use crate::models::SyncResult;

verus! {

/// Why a synchronization target was refused.
#[derive(Clone, Copy, Debug, PartialEq, Eq, Structural)]
pub enum SyncError {
    /// A field that must be filled is empty.
    MissingField,
}

impl SyncError {
    /// The message for a WebDAV target.
    pub fn webdav_message(&self) -> (text: String)
        ensures
            text@ == "All fields are required"@,
    {
        String::from_str("All fields are required")
    }

    /// The message for an S3 target.
    pub fn s3_message(&self) -> (text: String)
        ensures
            text@ == "All required fields must be filled"@,
    {
        String::from_str("All required fields must be filled")
    }
}

/// Accepts a WebDAV target when address, user and password are all filled.
pub fn configure_webdav(url: &str, username: &str, password: &str, _path: &str) -> (outcome: Result<
    (),
    SyncError,
>)
    ensures
        outcome == if url@.len() == 0 || username@.len() == 0 || password@.len() == 0 {
            Err::<(), SyncError>(SyncError::MissingField)
        } else {
            Ok::<(), SyncError>(())
        },
{
    if url.is_empty() || username.is_empty() || password.is_empty() {
        return Err(SyncError::MissingField);
    }
    Ok(())
}

/// Accepts an S3 target when bucket, region and both keys are all filled.
pub fn configure_s3(
    bucket: &str,
    region: &str,
    access_key: &str,
    secret_key: &str,
    _endpoint: &Option<String>,
) -> (outcome: Result<(), SyncError>)
    ensures
        outcome == if bucket@.len() == 0 || region@.len() == 0 || access_key@.len() == 0
            || secret_key@.len() == 0 {
            Err::<(), SyncError>(SyncError::MissingField)
        } else {
            Ok::<(), SyncError>(())
        },
{
    if bucket.is_empty() || region.is_empty() || access_key.is_empty() || secret_key.is_empty() {
        return Err(SyncError::MissingField);
    }
    Ok(())
}

/// Which way a synchronization run moves data.
#[derive(Clone, Copy, Debug, PartialEq, Eq, Structural)]
pub enum SyncDirection {
    Upload,
    Download,
}

/// The message of a finished run.
pub open spec fn sync_message(direction: SyncDirection, sync_type: Seq<char>) -> Seq<char> {
    match direction {
        SyncDirection::Upload => "Upload sync via "@ + sync_type + " completed"@,
        SyncDirection::Download => "Download sync via "@ + sync_type + " completed"@,
    }
}

/// The report of a run that finished at `timestamp`.
pub fn sync_report(direction: SyncDirection, sync_type: &str, timestamp: String) -> (report:
    SyncResult)
    ensures
        report.success,
        report.message@ == sync_message(direction, sync_type@),
        report.timestamp == timestamp,
{
    let mut message = match direction {
        SyncDirection::Upload => String::from_str("Upload sync via "),
        SyncDirection::Download => String::from_str("Download sync via "),
    };
    message.append(sync_type);
    message.append(" completed");
    SyncResult { success: true, message, timestamp }
}

/// Calls `chrono::Utc::now` and `chrono::DateTime::to_rfc3339`. The text is
/// the clock's, so nothing is stated of it.
#[verifier::external_body]
fn now_rfc3339() -> (stamp: String) {
    chrono::Utc::now().to_rfc3339()
}

/// Reports an upload run, stamped with the current time.
pub fn sync_upload(sync_type: &str) -> (report: SyncResult)
    ensures
        report.success,
        report.message@ == sync_message(SyncDirection::Upload, sync_type@),
{
    sync_report(SyncDirection::Upload, sync_type, now_rfc3339())
}

/// Reports a download run, stamped with the current time.
pub fn sync_download(sync_type: &str) -> (report: SyncResult)
    ensures
        report.success,
        report.message@ == sync_message(SyncDirection::Download, sync_type@),
{
    sync_report(SyncDirection::Download, sync_type, now_rfc3339())
}

} // verus!
