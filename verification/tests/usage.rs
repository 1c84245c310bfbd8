use std::io::ErrorKind;
use streamio::bridge::{LegacyRead, LegacyWrite};
use streamio::usage::legacy::{self, TypeImplementingRead, TypeImplementingWrite};
use streamio::usage::new::{
    self, TypeImplementingCoreError, TypeImplementingReadCore, TypeImplementingWriteCore,
};
use streamio::usage::scripted::{Script, ScriptError, ScriptedSink};

#[test]
fn a_count_shaped_source_read_through_the_outcome_protocol_gives_abc() {
    let text = new::fun_req_read_ext(TypeImplementingRead::default());
    assert_eq!(text.unwrap(), "ABC");
}

#[test]
fn a_wrapped_source_read_through_the_count_shaped_contract_gives_abc() {
    let text = legacy::fun_req_read(LegacyRead(TypeImplementingReadCore::default()));
    assert_eq!(text.unwrap(), "ABC");
}

#[test]
fn a_count_shaped_sink_written_through_the_outcome_protocol_holds_012() {
    let (sink, done) = new::fun_req_write(TypeImplementingWrite::default());
    assert!(done.is_ok());
    assert_eq!(sink.contents(), [0, 1, 2]);
}

#[test]
fn a_wrapped_sink_written_through_the_count_shaped_contract_holds_012() {
    let (sink, done) = legacy::fun_req_write(LegacyWrite(TypeImplementingWriteCore::default()));
    assert!(done.is_ok());
    assert_eq!(sink.0.contents(), [0, 1, 2]);
}

#[test]
fn reading_bytes_that_are_no_text_fails() {
    let text = new::fun_req_read_ext(TypeImplementingReadCore::new(&[0xff]));
    assert_eq!(text, Err(TypeImplementingCoreError::InvalidUtf8));
    let text = legacy::fun_req_read(TypeImplementingRead::new(&[0xff]));
    assert_eq!(text.unwrap_err().kind(), ErrorKind::InvalidData);
}

#[test]
fn writing_three_bytes_to_a_sink_with_less_room_fails() {
    let (sink, done) = new::fun_req_write(ScriptedSink::new(2, Script::plain()));
    assert_eq!(done, Err(ScriptError::UnexpectedEof));
    assert_eq!(sink.contents().as_slice(), &[0, 1]);
    let (sink, done) = legacy::fun_req_write(LegacyWrite(ScriptedSink::new(2, Script::plain())));
    assert_eq!(done.unwrap_err().kind(), ErrorKind::Other);
    assert_eq!(sink.0.contents().as_slice(), &[0, 1]);
}

#[test]
fn the_sources_and_sinks_start_as_documented() {
    let sink = TypeImplementingWriteCore::default();
    assert_eq!(sink.contents(), [65, 66, 67]);
    assert_eq!(sink.len(), 0);
    let legacy_sink = TypeImplementingWrite::default();
    assert_eq!(legacy_sink.contents(), [65, 66, 67]);
    assert_eq!(legacy_sink.len(), 0);
}
