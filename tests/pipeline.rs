use crate_downloads::database::{
    after_statement, statement_sql, summarize_load, upload, LoadVerdict, ResetPolicy, Statement, StatementOutcome,
};
use crate_downloads::decode::{decode_payload, decode_version_download};
use crate_downloads::fetch::{body_text, check_status, decimal_text, download_url, read_response};
use crate_downloads::json::{parse_json, Json};
use crate_downloads::models::{CalendarDate, PipelineError, UtcTime, VersionDownload};
use crate_downloads::pipeline::{Action, LoadSchedule, Run};

const FIXTURE: &str = r#"{
  "meta": { "extra_downloads": [ {"date": "2024-01-03", "downloads": 7} ] },
  "version_downloads": [
    {"date": "2024-01-01T00:00:00Z", "downloads": 10, "id": 1, "version": 5},
    {"date": "2024-01-02T00:00:00Z", "downloads": 20, "id": 2, "version": 5}
  ]
}"#;

fn first() -> VersionDownload {
    VersionDownload { date: UtcTime { secs: 1704067200, nanos: 0 }, downloads: 10, id: 1, version: 5 }
}

fn second() -> VersionDownload {
    VersionDownload { date: UtcTime { secs: 1704153600, nanos: 0 }, downloads: 20, id: 2, version: 5 }
}

fn record_text(fields: &str) -> String {
    format!(r#"{{"meta": {{"extra_downloads": []}}, "version_downloads": [{{{}}}]}}"#, fields)
}

#[test]
fn fixture_yields_two_rows() {
    let info = decode_payload(FIXTURE).unwrap();
    assert_eq!(info.version_downloads, vec![first(), second()]);
    let plan = upload(info.version_downloads, ResetPolicy::Destructive);
    assert_eq!(
        plan,
        vec![Statement::DropTable, Statement::CreateTable, Statement::Insert(first()), Statement::Insert(second())]
    );
}

#[test]
fn fixture_meta_is_decoded() {
    let info = decode_payload(FIXTURE).unwrap();
    assert_eq!(info.meta.extra_downloads.len(), 1);
    assert_eq!(info.meta.extra_downloads[0].date, CalendarDate { year: 2024, month: 1, day: 3 });
    assert_eq!(info.meta.extra_downloads[0].downloads, 7);
}

#[test]
fn decoding_twice_gives_equal_records() {
    let a = decode_payload(FIXTURE).unwrap();
    let b = decode_payload(FIXTURE).unwrap();
    assert_eq!(a.version_downloads, b.version_downloads);
    assert_eq!(a.meta.extra_downloads, b.meta.extra_downloads);
}

#[test]
fn missing_id_is_malformed() {
    let text = record_text(r#""date": "2024-01-01T00:00:00Z", "downloads": 10, "version": 5"#);
    assert_eq!(decode_payload(&text).unwrap_err(), PipelineError::MalformedPayload);
}

#[test]
fn missing_version_downloads_is_malformed() {
    assert_eq!(decode_payload(r#"{"meta": {"extra_downloads": []}}"#).unwrap_err(), PipelineError::MalformedPayload);
}

#[test]
fn not_json_is_malformed() {
    assert_eq!(decode_payload("<html>not found</html>").unwrap_err(), PipelineError::MalformedPayload);
}

#[test]
fn fractional_downloads_is_malformed() {
    let text = record_text(r#""date": "2024-01-01T00:00:00Z", "downloads": 10.5, "id": 1, "version": 5"#);
    assert_eq!(decode_payload(&text).unwrap_err(), PipelineError::MalformedPayload);
}

#[test]
fn bad_date_is_malformed() {
    let text = record_text(r#""date": "yesterday", "downloads": 10, "id": 1, "version": 5"#);
    assert_eq!(decode_payload(&text).unwrap_err(), PipelineError::MalformedPayload);
}

#[test]
fn id_out_of_range_is_malformed() {
    let text = record_text(r#""date": "2024-01-01T00:00:00Z", "downloads": 10, "id": 2147483648, "version": 5"#);
    assert_eq!(decode_payload(&text).unwrap_err(), PipelineError::MalformedPayload);
}

#[test]
fn negative_downloads_and_unknown_fields_are_accepted() {
    let text = record_text(r#""date": "2024-01-01T00:00:00Z", "downloads": -3, "id": 1, "version": 5, "extra": true"#);
    let info = decode_payload(&text).unwrap();
    assert_eq!(info.version_downloads[0].downloads, -3);
}

#[test]
fn offset_dates_are_read_as_utc() {
    let text = record_text(r#""date": "2024-01-01T02:00:00.5+02:00", "downloads": 1, "id": 1, "version": 5"#);
    let info = decode_payload(&text).unwrap();
    assert_eq!(info.version_downloads[0].date, UtcTime { secs: 1704067200, nanos: 500000000 });
}

#[test]
fn single_record_decodes_from_json() {
    let j = parse_json(r#"{"date": "2024-01-02T00:00:00Z", "downloads": 20, "id": 2, "version": 5}"#).unwrap();
    assert_eq!(decode_version_download(&j).unwrap(), second());
    assert_eq!(decode_version_download(&Json::Null).unwrap_err(), PipelineError::MalformedPayload);
}

#[test]
fn decimal_text_writes_integers() {
    assert_eq!(decimal_text(0), "0");
    assert_eq!(decimal_text(1234), "1234");
    assert_eq!(decimal_text(-56), "-56");
    assert_eq!(decimal_text(i64::MIN), "-9223372036854775808");
}

#[test]
fn download_url_names_package_and_timestamp() {
    assert_eq!(download_url("fitsio", 1700000000), "https://crates.io/api/v1/crates/fitsio/downloads?_=1700000000");
}

#[test]
fn status_checks() {
    assert_eq!(check_status(200), Ok(()));
    assert_eq!(check_status(204), Ok(()));
    assert_eq!(check_status(404), Err(PipelineError::Transport));
    assert_eq!(check_status(500), Err(PipelineError::Transport));
}

#[test]
fn invalid_utf8_is_an_encoding_error() {
    assert_eq!(body_text(vec![0xff, 0xfe]).unwrap_err(), PipelineError::Encoding);
    assert_eq!(body_text(b"ok".to_vec()).unwrap(), "ok");
}

#[test]
fn not_found_status_is_a_transport_error() {
    assert_eq!(read_response(404, FIXTURE.as_bytes().to_vec()).unwrap_err(), PipelineError::Transport);
    assert_eq!(read_response(200, vec![0xff]).unwrap_err(), PipelineError::Encoding);
}

#[test]
fn empty_package_list_is_an_argument_error() {
    assert!(matches!(Run::start(&vec![], 1, LoadSchedule::PerPackage), Err(PipelineError::Argument)));
}

#[test]
fn run_fetches_each_package_then_loads_once() {
    let packages = vec!["fitsio".to_string(), "serde".to_string()];
    let mut run = Run::start(&packages, 42, LoadSchedule::Batched).unwrap();
    match run.next_action() {
        Action::Fetch(u) => assert_eq!(u, "https://crates.io/api/v1/crates/fitsio/downloads?_=42"),
        _ => panic!("expected a fetch"),
    }
    run.on_response(200, FIXTURE.as_bytes().to_vec()).unwrap();
    match run.next_action() {
        Action::Fetch(u) => assert_eq!(u, "https://crates.io/api/v1/crates/serde/downloads?_=42"),
        _ => panic!("expected a fetch"),
    }
    assert_eq!(run.on_response(404, vec![]), Err(PipelineError::Transport));
    assert_eq!(run.next, 1);
    assert_eq!(run.collected, vec![first(), second()]);
    run.on_response(200, FIXTURE.as_bytes().to_vec()).unwrap();
    assert!(matches!(run.next_action(), Action::Load));
    let plan = run.load_plan(ResetPolicy::Additive);
    assert_eq!(plan.len(), 5);
    assert_eq!(plan[0], Statement::CreateTable);
    assert_eq!(plan[4], Statement::Insert(second()));
    run.on_loaded();
    assert!(matches!(run.next_action(), Action::Finished));
}

#[test]
fn per_package_run_loads_before_the_next_fetch() {
    let packages = vec!["fitsio".to_string(), "serde".to_string()];
    let mut run = Run::start(&packages, 7, LoadSchedule::PerPackage).unwrap();
    assert!(matches!(run.next_action(), Action::Fetch(_)));
    run.on_response(200, FIXTURE.as_bytes().to_vec()).unwrap();
    assert!(matches!(run.next_action(), Action::Load));
    assert_eq!(
        run.load_plan(ResetPolicy::Destructive),
        vec![Statement::DropTable, Statement::CreateTable, Statement::Insert(first()), Statement::Insert(second())]
    );
    run.on_loaded();
    assert!(run.collected.is_empty());
    match run.next_action() {
        Action::Fetch(u) => assert_eq!(u, "https://crates.io/api/v1/crates/serde/downloads?_=7"),
        _ => panic!("expected a fetch"),
    }
    run.on_response(200, FIXTURE.as_bytes().to_vec()).unwrap();
    assert!(matches!(run.next_action(), Action::Load));
    assert_eq!(run.load_plan(ResetPolicy::Additive).len(), 3);
    run.on_loaded();
    assert!(matches!(run.next_action(), Action::Finished));
}

#[test]
fn single_package_run_starts() {
    let run = Run::start(&vec!["fitsio".to_string()], 1, LoadSchedule::PerPackage).unwrap();
    assert_eq!(run.urls, vec!["https://crates.io/api/v1/crates/fitsio/downloads?_=1".to_string()]);
}

#[test]
fn loader_failure_policy() {
    let ins = Statement::Insert(first());
    assert_eq!(after_statement(&ins, StatementOutcome::Done), LoadVerdict::Recorded(true));
    assert_eq!(after_statement(&ins, StatementOutcome::Failed), LoadVerdict::Recorded(false));
    assert_eq!(after_statement(&ins, StatementOutcome::BeginFailed), LoadVerdict::Stop(PipelineError::Persistence));
    assert_eq!(after_statement(&Statement::DropTable, StatementOutcome::Done), LoadVerdict::Continue);
    assert_eq!(after_statement(&Statement::CreateTable, StatementOutcome::Failed), LoadVerdict::Stop(PipelineError::Persistence));
}

#[test]
fn additive_plan_only_creates() {
    assert_eq!(upload(vec![], ResetPolicy::Additive), vec![Statement::CreateTable]);
    assert_eq!(upload(vec![], ResetPolicy::Destructive), vec![Statement::DropTable, Statement::CreateTable]);
}

#[test]
fn load_report_splits_by_outcome() {
    let r = summarize_load(&vec![first(), second()], &vec![false, true]);
    assert_eq!(r.stored, vec![second()]);
    assert_eq!(r.failed, vec![first()]);
}

#[test]
fn sql_texts() {
    assert_eq!(statement_sql(&Statement::DropTable), "DROP TABLE IF EXISTS crate_downloads");
    assert!(statement_sql(&Statement::Insert(first())).starts_with("INSERT INTO crate_downloads"));
    assert!(statement_sql(&Statement::CreateTable).contains("id INTEGER PRIMARY KEY"));
}

#[test]
fn error_messages_are_not_empty() {
    assert!(!PipelineError::Argument.message().is_empty());
    assert!(!PipelineError::Persistence.message().is_empty());
}
