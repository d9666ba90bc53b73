use crate::json::{get_field, json_document, lookup, parse_json, Json};
use crate::models::{
    BasicDownload, CalendarDate, DownloadInfo, Downloads, InfoModel, PipelineError, UtcTime,
    VersionDownload,
};
use chrono::Datelike;
use std::str::FromStr;
use vstd::prelude::*;

verus! {

/// The instant that an RFC 3339 timestamp names, as seconds since the Unix
/// epoch and nanoseconds past them, if the text is such a timestamp.
pub uninterp spec fn rfc3339_instant(s: Seq<char>) -> Option<(i64, u32)>;

/// The calendar day that a `YYYY-MM-DD` text names, as year, month and day,
/// if the text names one.
pub uninterp spec fn iso_calendar_date(s: Seq<char>) -> Option<(i32, u32, u32)>;

/// Relies on chrono's `FromStr` for `DateTime<Utc>` (a relaxed RFC 3339 form,
/// any offset, converted to UTC), with `timestamp` and
/// `timestamp_subsec_nanos` read off the result.
#[verifier::external_body]
fn parse_instant(s: &str) -> (r: Option<(i64, u32)>)
    ensures
        r == rfc3339_instant(s@),
{
    match chrono::DateTime::<chrono::Utc>::from_str(s) {
        Ok(d) => Some((d.timestamp(), d.timestamp_subsec_nanos())),
        Err(_) => None,
    }
}

/// Relies on chrono's `FromStr` for `NaiveDate`, with `year`, `month` and
/// `day` read off the result.
#[verifier::external_body]
fn parse_calendar_date(s: &str) -> (r: Option<(i32, u32, u32)>)
    ensures
        r == iso_calendar_date(s@),
{
    match chrono::NaiveDate::from_str(s) {
        Ok(d) => Some((d.year(), d.month(), d.day())),
        Err(_) => None,
    }
}

/// A member that must hold an integer in the range of `i64`.
pub open spec fn as_i64(j: Option<Json>) -> Option<i64> {
    match j {
        Some(Json::Int(n)) => if i64::MIN <= n <= i64::MAX { Some(n as i64) } else { None },
        _ => None,
    }
}

/// A member that must hold an integer in the range of `i32`.
pub open spec fn as_i32(j: Option<Json>) -> Option<i32> {
    match j {
        Some(Json::Int(n)) => if i32::MIN <= n <= i32::MAX { Some(n as i32) } else { None },
        _ => None,
    }
}

/// A member that must hold an integer in the range of `usize`.
pub open spec fn as_usize(j: Option<Json>) -> Option<usize> {
    match j {
        Some(Json::Int(n)) => if 0 <= n <= usize::MAX { Some(n as usize) } else { None },
        _ => None,
    }
}

/// A member that must hold an RFC 3339 timestamp.
pub open spec fn as_instant(j: Option<Json>) -> Option<UtcTime> {
    match j {
        Some(Json::Str(s)) => match rfc3339_instant(s@) {
            Some((secs, nanos)) => Some(UtcTime { secs, nanos }),
            None => None,
        },
        _ => None,
    }
}

/// A member that must hold a `YYYY-MM-DD` date.
pub open spec fn as_calendar_date(j: Option<Json>) -> Option<CalendarDate> {
    match j {
        Some(Json::Str(s)) => match iso_calendar_date(s@) {
            Some((year, month, day)) => Some(CalendarDate { year, month, day }),
            None => None,
        },
        _ => None,
    }
}

/// The record that a JSON object describes: all four members present and of
/// the right shape, other members ignored.
pub open spec fn spec_version_download(j: Json) -> Option<VersionDownload> {
    match j {
        Json::Object(fs) => {
            let date = as_instant(lookup(fs@, "date"@));
            let downloads = as_i64(lookup(fs@, "downloads"@));
            let id = as_i32(lookup(fs@, "id"@));
            let version = as_i32(lookup(fs@, "version"@));
            if date is Some && downloads is Some && id is Some && version is Some {
                Some(
                    VersionDownload {
                        date: date->Some_0,
                        downloads: downloads->Some_0,
                        id: id->Some_0,
                        version: version->Some_0,
                    },
                )
            } else {
                None
            }
        },
        _ => None,
    }
}

/// The extra download count that a JSON object describes.
pub open spec fn spec_basic_download(j: Json) -> Option<BasicDownload> {
    match j {
        Json::Object(fs) => {
            let date = as_calendar_date(lookup(fs@, "date"@));
            let downloads = as_usize(lookup(fs@, "downloads"@));
            if date is Some && downloads is Some {
                Some(BasicDownload { date: date->Some_0, downloads: downloads->Some_0 })
            } else {
                None
            }
        },
        _ => None,
    }
}

/// The records of a JSON array, where every element describes one.
pub open spec fn spec_version_list(items: Seq<Json>) -> Option<Seq<VersionDownload>> {
    if forall|i: int| 0 <= i < items.len() ==> (#[trigger] spec_version_download(items[i])) is Some {
        Some(items.map_values(|j: Json| spec_version_download(j)->Some_0))
    } else {
        None
    }
}

/// The extra download counts of a JSON array, where every element describes one.
pub open spec fn spec_basic_list(items: Seq<Json>) -> Option<Seq<BasicDownload>> {
    if forall|i: int| 0 <= i < items.len() ==> (#[trigger] spec_basic_download(items[i])) is Some {
        Some(items.map_values(|j: Json| spec_basic_download(j)->Some_0))
    } else {
        None
    }
}

/// The response that a JSON document describes: an object with `meta` (an
/// object whose `extra_downloads` is an array) and `version_downloads` (an
/// array).
pub open spec fn spec_download_info(j: Json) -> Option<InfoModel> {
    match j {
        Json::Object(fs) => match (lookup(fs@, "meta"@), lookup(fs@, "version_downloads"@)) {
            (Some(Json::Object(meta)), Some(Json::Array(versions))) => match lookup(
                meta@,
                "extra_downloads"@,
            ) {
                Some(Json::Array(extra)) => match (
                    spec_basic_list(extra@),
                    spec_version_list(versions@),
                ) {
                    (Some(e), Some(v)) => Some(InfoModel { extra: e, versions: v }),
                    _ => None,
                },
                _ => None,
            },
            _ => None,
        },
        _ => None,
    }
}

/// The response that a text describes.
pub open spec fn spec_decode(s: Seq<char>) -> Option<InfoModel> {
    match json_document(s) {
        Some(j) => spec_download_info(j),
        None => None,
    }
}

/// Where the outcome of a decode matches what its model gives.
pub open spec fn decoded_as(r: Result<DownloadInfo, PipelineError>, m: Option<InfoModel>) -> bool {
    match m {
        Some(model) => r is Ok && r->Ok_0@ == model,
        None => r == Err::<DownloadInfo, PipelineError>(PipelineError::MalformedPayload),
    }
}

fn int_member(fields: &Vec<(String, Json)>, key: &str, lo: i128, hi: i128) -> (r: Option<i128>)
    ensures
        match r {
            Some(n) => lo <= n <= hi && lookup(fields@, key@) == Some(Json::Int(n)),
            None => !(lookup(fields@, key@) matches Some(Json::Int(n)) && lo <= n <= hi),
        },
{
    let k = <String as vstd::string::StringExecFns>::from_str(key);
    match get_field(fields, &k) {
        Some(Json::Int(n)) => if lo <= *n && *n <= hi { Some(*n) } else { None },
        _ => None,
    }
}

fn str_member<'a>(fields: &'a Vec<(String, Json)>, key: &str) -> (r: Option<&'a String>)
    ensures
        match r {
            Some(s) => lookup(fields@, key@) == Some(Json::Str(*s)),
            None => !(lookup(fields@, key@) is Some && lookup(fields@, key@)->Some_0 is Str),
        },
{
    let k = <String as vstd::string::StringExecFns>::from_str(key);
    match get_field(fields, &k) {
        Some(Json::Str(s)) => Some(s),
        _ => None,
    }
}

/// Decodes one per-version record from a JSON value.
pub fn decode_version_download(j: &Json) -> (r: Result<VersionDownload, PipelineError>)
    ensures
        match spec_version_download(*j) {
            Some(v) => r == Ok::<VersionDownload, PipelineError>(v),
            None => r == Err::<VersionDownload, PipelineError>(PipelineError::MalformedPayload),
        },
{
    let fields = match j {
        Json::Object(fs) => fs,
        _ => return Err(PipelineError::MalformedPayload),
    };
    let date = match str_member(fields, "date") {
        Some(s) => match parse_instant(s.as_str()) {
            Some((secs, nanos)) => UtcTime { secs, nanos },
            None => return Err(PipelineError::MalformedPayload),
        },
        None => return Err(PipelineError::MalformedPayload),
    };
    let downloads = match int_member(fields, "downloads", i64::MIN as i128, i64::MAX as i128) {
        Some(n) => n as i64,
        None => return Err(PipelineError::MalformedPayload),
    };
    let id = match int_member(fields, "id", i32::MIN as i128, i32::MAX as i128) {
        Some(n) => n as i32,
        None => return Err(PipelineError::MalformedPayload),
    };
    let version = match int_member(fields, "version", i32::MIN as i128, i32::MAX as i128) {
        Some(n) => n as i32,
        None => return Err(PipelineError::MalformedPayload),
    };
    Ok(VersionDownload { date, downloads, id, version })
}

/// Decodes one extra download count from a JSON value.
pub fn decode_basic_download(j: &Json) -> (r: Result<BasicDownload, PipelineError>)
    ensures
        match spec_basic_download(*j) {
            Some(b) => r == Ok::<BasicDownload, PipelineError>(b),
            None => r == Err::<BasicDownload, PipelineError>(PipelineError::MalformedPayload),
        },
{
    let fields = match j {
        Json::Object(fs) => fs,
        _ => return Err(PipelineError::MalformedPayload),
    };
    let date = match str_member(fields, "date") {
        Some(s) => match parse_calendar_date(s.as_str()) {
            Some((year, month, day)) => CalendarDate { year, month, day },
            None => return Err(PipelineError::MalformedPayload),
        },
        None => return Err(PipelineError::MalformedPayload),
    };
    let downloads = match int_member(fields, "downloads", 0, usize::MAX as i128) {
        Some(n) => n as usize,
        None => return Err(PipelineError::MalformedPayload),
    };
    Ok(BasicDownload { date, downloads })
}

/// Decodes every element of a JSON array as a per-version record, in order.
pub fn decode_version_list(items: &Vec<Json>) -> (r: Result<Vec<VersionDownload>, PipelineError>)
    ensures
        match spec_version_list(items@) {
            Some(vs) => r is Ok && r->Ok_0@ == vs,
            None => r == Err::<Vec<VersionDownload>, PipelineError>(PipelineError::MalformedPayload),
        },
{
    let mut out: Vec<VersionDownload> = Vec::new();
    let mut i: usize = 0;
    while i < items.len()
        invariant
            0 <= i <= items.len(),
            out@.len() == i,
            forall|k: int| 0 <= k < i ==> (#[trigger] spec_version_download(items@[k])) is Some,
            forall|k: int| 0 <= k < i ==> out@[k] == spec_version_download(items@[k])->Some_0,
        decreases items.len() - i,
    {
        match decode_version_download(&items[i]) {
            Ok(v) => out.push(v),
            Err(e) => {
                assert(spec_version_download(items@[i as int]) is None);
                return Err(e);
            },
        }
        i = i + 1;
    }
    assert(out@ =~= items@.map_values(|j: Json| spec_version_download(j)->Some_0));
    Ok(out)
}

/// Decodes every element of a JSON array as an extra download count, in order.
pub fn decode_basic_list(items: &Vec<Json>) -> (r: Result<Vec<BasicDownload>, PipelineError>)
    ensures
        match spec_basic_list(items@) {
            Some(bs) => r is Ok && r->Ok_0@ == bs,
            None => r == Err::<Vec<BasicDownload>, PipelineError>(PipelineError::MalformedPayload),
        },
{
    let mut out: Vec<BasicDownload> = Vec::new();
    let mut i: usize = 0;
    while i < items.len()
        invariant
            0 <= i <= items.len(),
            out@.len() == i,
            forall|k: int| 0 <= k < i ==> (#[trigger] spec_basic_download(items@[k])) is Some,
            forall|k: int| 0 <= k < i ==> out@[k] == spec_basic_download(items@[k])->Some_0,
        decreases items.len() - i,
    {
        match decode_basic_download(&items[i]) {
            Ok(b) => out.push(b),
            Err(e) => {
                assert(spec_basic_download(items@[i as int]) is None);
                return Err(e);
            },
        }
        i = i + 1;
    }
    assert(out@ =~= items@.map_values(|j: Json| spec_basic_download(j)->Some_0));
    Ok(out)
}

fn array_member<'a>(fields: &'a Vec<(String, Json)>, key: &str) -> (r: Option<&'a Vec<Json>>)
    ensures
        match r {
            Some(a) => lookup(fields@, key@) == Some(Json::Array(*a)),
            None => !(lookup(fields@, key@) is Some && lookup(fields@, key@)->Some_0 is Array),
        },
{
    let k = <String as vstd::string::StringExecFns>::from_str(key);
    match get_field(fields, &k) {
        Some(Json::Array(a)) => Some(a),
        _ => None,
    }
}

fn object_member<'a>(fields: &'a Vec<(String, Json)>, key: &str) -> (r: Option<&'a Vec<(String, Json)>>)
    ensures
        match r {
            Some(o) => lookup(fields@, key@) == Some(Json::Object(*o)),
            None => !(lookup(fields@, key@) is Some && lookup(fields@, key@)->Some_0 is Object),
        },
{
    let k = <String as vstd::string::StringExecFns>::from_str(key);
    match get_field(fields, &k) {
        Some(Json::Object(o)) => Some(o),
        _ => None,
    }
}

/// Decodes a downloads response from a JSON document.
pub fn decode_download_info(j: &Json) -> (r: Result<DownloadInfo, PipelineError>)
    ensures
        decoded_as(r, spec_download_info(*j)),
{
    let fields = match j {
        Json::Object(fs) => fs,
        _ => return Err(PipelineError::MalformedPayload),
    };
    let meta = match object_member(fields, "meta") {
        Some(m) => m,
        None => return Err(PipelineError::MalformedPayload),
    };
    let versions = match array_member(fields, "version_downloads") {
        Some(a) => a,
        None => return Err(PipelineError::MalformedPayload),
    };
    let extra = match array_member(meta, "extra_downloads") {
        Some(a) => a,
        None => return Err(PipelineError::MalformedPayload),
    };
    let extra_downloads = decode_basic_list(extra)?;
    let version_downloads = decode_version_list(versions)?;
    Ok(DownloadInfo { meta: Downloads { extra_downloads }, version_downloads })
}

/// Decodes a downloads response from the text of a response body: fails with
/// `MalformedPayload` where the text is not JSON or not of the expected shape.
pub fn decode_payload(text: &str) -> (r: Result<DownloadInfo, PipelineError>)
    ensures
        decoded_as(r, spec_decode(text@)),
{
    match parse_json(text) {
        Some(j) => decode_download_info(&j),
        None => Err(PipelineError::MalformedPayload),
    }
}

/// Decoding is a function of the text alone: two decodes of one text give
/// the same response, record for record.
pub proof fn lemma_decode_deterministic(
    a: Seq<char>,
    b: Seq<char>,
    ra: Result<DownloadInfo, PipelineError>,
    rb: Result<DownloadInfo, PipelineError>,
)
    requires
        a == b,
        decoded_as(ra, spec_decode(a)),
        decoded_as(rb, spec_decode(b)),
    ensures
        ra is Ok <==> rb is Ok,
        ra is Ok ==> ra->Ok_0@ == rb->Ok_0@,
        ra is Err ==> ra == rb,
{
}

/// A record with a required member missing is never decoded.
pub proof fn lemma_missing_member_rejected(fields: Vec<(String, Json)>, key: Seq<char>)
    requires
        key == "date"@ || key == "downloads"@ || key == "id"@ || key == "version"@,
        lookup(fields@, key) is None,
    ensures
        spec_version_download(Json::Object(fields)) is None,
{
}

} // verus!
