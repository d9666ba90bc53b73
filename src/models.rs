use vstd::prelude::*;

verus! {

/// An instant on the UTC time line: whole seconds since the Unix epoch and
/// the nanoseconds past that second.
#[derive(Clone, Copy, Debug, PartialEq, Eq, Structural)]
pub struct UtcTime {
    pub secs: i64,
    pub nanos: u32,
}

/// A calendar day without a time of day.
#[derive(Clone, Copy, Debug, PartialEq, Eq, Structural)]
pub struct CalendarDate {
    pub year: i32,
    pub month: u32,
    pub day: u32,
}

/// One per-version daily download count, as the registry reports it and as
/// one row of the `crate_downloads` table holds it.
#[derive(Clone, Copy, Debug, PartialEq, Eq, Structural)]
pub struct VersionDownload {
    pub date: UtcTime,
    pub downloads: i64,
    pub id: i32,
    pub version: i32,
}

/// An extra download count for one day; decoded, never stored.
#[derive(Clone, Copy, Debug, PartialEq, Eq, Structural)]
pub struct BasicDownload {
    pub date: CalendarDate,
    pub downloads: usize,
}

/// The `meta` part of a downloads response.
#[derive(Clone, Debug)]
pub struct Downloads {
    pub extra_downloads: Vec<BasicDownload>,
}

/// A decoded downloads response.
#[derive(Clone, Debug)]
pub struct DownloadInfo {
    pub meta: Downloads,
    pub version_downloads: Vec<VersionDownload>,
}

/// What a `DownloadInfo` holds, as sequences.
pub struct InfoModel {
    pub extra: Seq<BasicDownload>,
    pub versions: Seq<VersionDownload>,
}

impl View for DownloadInfo {
    type V = InfoModel;

    open spec fn view(&self) -> InfoModel {
        InfoModel { extra: self.meta.extra_downloads@, versions: self.version_downloads@ }
    }
}

/// Why a run stops.
#[derive(Clone, Copy, Debug, PartialEq, Eq, Structural)]
pub enum PipelineError {
    /// No package name was given.
    Argument,
    /// The request failed, or the response status was not a success.
    Transport,
    /// The response body is not UTF-8.
    Encoding,
    /// The body is not a downloads document of the expected shape.
    MalformedPayload,
    /// The storage endpoint could not be reached.
    Connection,
    /// The table could not be set up.
    Persistence,
}

/// The one-line description of each error.
pub open spec fn error_message(e: PipelineError) -> Seq<char> {
    match e {
        PipelineError::Argument => "no package name given"@,
        PipelineError::Transport => "request failed or returned a non-success status"@,
        PipelineError::Encoding => "response body is not valid UTF-8"@,
        PipelineError::MalformedPayload => "malformed downloads payload"@,
        PipelineError::Connection => "cannot connect to storage"@,
        PipelineError::Persistence => "cannot set up the downloads table"@,
    }
}

impl PipelineError {
    /// A one-line description of the error.
    pub fn message(&self) -> (r: &'static str)
        ensures
            r@ == error_message(*self),
    {
        match self {
            PipelineError::Argument => "no package name given",
            PipelineError::Transport => "request failed or returned a non-success status",
            PipelineError::Encoding => "response body is not valid UTF-8",
            PipelineError::MalformedPayload => "malformed downloads payload",
            PipelineError::Connection => "cannot connect to storage",
            PipelineError::Persistence => "cannot set up the downloads table",
        }
    }
}

} // verus!
