use ddns_engine::error::ProvidersErrorType;
use ddns_engine::record::{Existence, RecordMachine, RemoteOp, RemoteRecord, RemoteReply, Step};

fn rec(id: &str, value: &str) -> RemoteRecord {
    RemoteRecord { id: id.to_string(), value: value.to_string() }
}

#[test]
fn three_records_two_deleted_first_adopted() {
    let mut m = RecordMachine::new();
    assert!(matches!(m.start_query(), Step::Call(RemoteOp::List)));
    let s = m.resume(RemoteReply::Listed(vec![rec("1", "1.1.1.1"), rec("2", "2.2.2.2"), rec("3", "3.3.3.3")]));
    assert!(matches!(s, Step::Call(RemoteOp::Delete(ref id)) if id == "2"));
    let s = m.resume(RemoteReply::Deleted);
    assert!(matches!(s, Step::Call(RemoteOp::Delete(ref id)) if id == "3"));
    let s = m.resume(RemoteReply::Deleted);
    assert!(matches!(s, Step::Done(Err(ProvidersErrorType::TooManyRecords))));
    assert_eq!(m.state.existence, Existence::Present);
    assert_eq!(m.state.record_id, "1");
    assert_eq!(m.state.value, "1.1.1.1");
}

#[test]
fn failed_delete_is_reported() {
    let mut m = RecordMachine::new();
    m.start_query();
    m.resume(RemoteReply::Listed(vec![rec("1", "a"), rec("2", "b")]));
    let s = m.resume(RemoteReply::Failed);
    assert!(matches!(s, Step::Done(Err(ProvidersErrorType::DeleteDomainRecordsError))));
    assert_eq!(m.state.existence, Existence::Unknown);
}

#[test]
fn query_of_one_record() {
    let mut m = RecordMachine::new();
    m.start_query();
    let s = m.resume(RemoteReply::Listed(vec![rec("7", "9.9.9.9")]));
    assert!(matches!(s, Step::Done(Ok(ref v)) if v == "9.9.9.9"));
    assert_eq!(m.state.existence, Existence::Present);
    assert_eq!(m.state.record_id, "7");
}

#[test]
fn query_of_no_record() {
    let mut m = RecordMachine::new();
    m.start_query();
    let s = m.resume(RemoteReply::Listed(Vec::new()));
    assert!(matches!(s, Step::Done(Err(ProvidersErrorType::NoRecordFound))));
    assert_eq!(m.state.existence, Existence::Absent);
}

#[test]
fn failed_listing_is_a_query_error() {
    let mut m = RecordMachine::new();
    m.start_query();
    let s = m.resume(RemoteReply::Failed);
    assert!(matches!(s, Step::Done(Err(ProvidersErrorType::QueryDomainRecordsError))));
}

#[test]
fn update_then_query_returns_written_value() {
    // A service with no record: the update lists, creates, and the query
    // then lists the created record.
    let mut m = RecordMachine::new();
    let s = m.start_update("5.6.7.8".to_string());
    assert!(matches!(s, Step::Call(RemoteOp::List)));
    let s = m.resume(RemoteReply::Listed(Vec::new()));
    assert!(matches!(s, Step::Call(RemoteOp::Create(ref v)) if v == "5.6.7.8"));
    let s = m.resume(RemoteReply::Created("42".to_string()));
    assert!(matches!(s, Step::Done(Ok(ref v)) if v == "5.6.7.8"));
    assert_eq!(m.state.record_id, "42");
    assert!(matches!(m.start_query(), Step::Call(RemoteOp::List)));
    let s = m.resume(RemoteReply::Listed(vec![rec("42", "5.6.7.8")]));
    assert!(matches!(s, Step::Done(Ok(ref v)) if v == "5.6.7.8"));
}

#[test]
fn update_of_present_record_modifies_it() {
    let mut m = RecordMachine::new();
    m.start_query();
    m.resume(RemoteReply::Listed(vec![rec("7", "1.1.1.1")]));
    let s = m.start_update("2.2.2.2".to_string());
    assert!(matches!(s, Step::Call(RemoteOp::Modify(ref id, ref v)) if id == "7" && v == "2.2.2.2"));
    let s = m.resume(RemoteReply::Modified("7".to_string()));
    assert!(matches!(s, Step::Done(Ok(ref v)) if v == "2.2.2.2"));
    assert_eq!(m.state.value, "2.2.2.2");
}

#[test]
fn mismatched_identifier_resets_state() {
    let mut m = RecordMachine::new();
    m.start_query();
    m.resume(RemoteReply::Listed(vec![rec("7", "1.1.1.1")]));
    m.start_update("2.2.2.2".to_string());
    let s = m.resume(RemoteReply::Modified("8".to_string()));
    assert!(matches!(s, Step::Done(Err(ProvidersErrorType::OtherError))));
    assert_eq!(m.state.existence, Existence::Unknown);
}

#[test]
fn update_after_failed_query_creates() {
    let mut m = RecordMachine::new();
    m.start_update("3.3.3.3".to_string());
    let s = m.resume(RemoteReply::Failed);
    assert!(matches!(s, Step::Call(RemoteOp::Create(ref v)) if v == "3.3.3.3"));
    let s = m.resume(RemoteReply::Failed);
    assert!(matches!(s, Step::Done(Err(ProvidersErrorType::NetworkError))));
}

#[test]
fn reply_without_operation() {
    let mut m = RecordMachine::new();
    let s = m.resume(RemoteReply::Deleted);
    assert!(matches!(s, Step::Done(Err(ProvidersErrorType::NotInitialized))));
}

#[test]
fn error_names() {
    assert_eq!(ProvidersErrorType::NoRecordFound.as_str(), "NoRecordFound");
    assert_eq!(ProvidersErrorType::TooManyRecords.as_str(), "TooManyRecords");
    assert_eq!(ProvidersErrorType::KeyError.as_str(), "KeyError");
}
