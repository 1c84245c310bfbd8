use streamio::outcome::OpRes;
use streamio::usage::new::{TypeImplementingCoreError, TypeImplementingWriteCore};
use streamio::usage::scripted::{Script, ScriptError, ScriptedSink};
use streamio::vectored::WriteStd;
use streamio::write_core::{verdict, WriteCore, WriteFmt};

#[test]
fn write_all_of_three_bytes_fills_the_three_byte_sink() {
    let mut sink = TypeImplementingWriteCore::default();
    assert_eq!(sink.write_all(&[0, 1, 2]), Ok(()));
    assert_eq!(sink.contents(), [0, 1, 2]);
    assert_eq!(sink.len(), 3);
}

#[test]
fn write_all_of_four_bytes_fails_on_the_three_byte_sink() {
    let mut sink = TypeImplementingWriteCore::default();
    assert_eq!(
        sink.write_all(&[0, 1, 2, 3]),
        Err(TypeImplementingCoreError::UnexpectedEof)
    );
    assert_eq!(sink.contents(), [0, 1, 2]);
}

#[test]
fn write_all_of_nothing_succeeds_on_a_full_sink() {
    let mut sink = TypeImplementingWriteCore::default();
    assert_eq!(sink.write_all(&[0, 1, 2]), Ok(()));
    assert_eq!(sink.write_all(&[]), Ok(()));
}

#[test]
fn write_reports_partial_complete_and_end() {
    let mut sink = TypeImplementingWriteCore::default();
    assert_eq!(sink.write(&[9, 8]), Ok(OpRes::Completly(2)));
    assert_eq!(sink.contents(), [9, 8, 67]);
    assert_eq!(sink.write(&[7, 6]), Ok(OpRes::Partial(1)));
    assert_eq!(sink.contents(), [9, 8, 7]);
    assert_eq!(sink.write(&[5]), Ok(OpRes::Eof));
    assert_eq!(sink.write(&[]), Ok(OpRes::Eof));
    assert_eq!(sink.flush(), Ok(()));
}

#[test]
fn write_all_goes_on_after_partial_writes_and_retries() {
    let script = Script { chunk: 3, pause: 2, fail_at: None };
    let mut sink = ScriptedSink::new(100, script);
    assert_eq!(sink.write_all(b"hello, world"), Ok(()));
    assert_eq!(sink.contents().as_slice(), b"hello, world");
}

#[test]
fn write_all_passes_the_sink_error_on() {
    let script = Script { chunk: 4, pause: 0, fail_at: Some(6) };
    let mut sink = ScriptedSink::new(100, script);
    assert_eq!(sink.write_all(b"hello, world"), Err(ScriptError::Broken));
    assert_eq!(sink.contents().as_slice(), b"hello,");
}

#[test]
fn write_all_fails_with_end_of_file_when_the_room_runs_out() {
    let mut sink = ScriptedSink::new(5, Script::plain());
    assert_eq!(sink.write_all(b"hello, world"), Err(ScriptError::UnexpectedEof));
    assert_eq!(sink.contents().as_slice(), b"hello");
}

#[test]
fn flush_is_counted_and_fails_where_the_script_says() {
    let mut sink = ScriptedSink::new(5, Script { chunk: 0, pause: 0, fail_at: Some(2) });
    assert_eq!(sink.flush(), Ok(()));
    assert_eq!(sink.flushes(), 1);
    assert_eq!(sink.write_all(b"ab"), Ok(()));
    assert_eq!(sink.flush(), Err(ScriptError::Broken));
    assert_eq!(sink.flushes(), 1);
}

#[test]
fn flush_makes_the_bytes_taken_durable() {
    let mut sink = ScriptedSink::new(10, Script { chunk: 0, pause: 0, fail_at: Some(5) });
    assert_eq!(sink.flushed(), 0);
    assert_eq!(sink.write_all(b"abc"), Ok(()));
    assert_eq!(sink.flushed(), 0);
    assert_eq!(sink.flush(), Ok(()));
    assert_eq!(sink.flushed(), 3);
    assert_eq!(sink.flushes(), 1);
    assert_eq!(sink.write_all(b"de"), Ok(()));
    assert_eq!(sink.flushed(), 3);
    assert_eq!(sink.flush(), Err(ScriptError::Broken));
    assert_eq!(sink.flushed(), 3);
    assert_eq!(sink.flushes(), 1);
}

fn fragments(parts: &[&str]) -> Vec<String> {
    parts.iter().map(|p| p.to_string()).collect()
}

#[test]
fn write_fragments_writes_every_fragment_once() {
    let mut sink = ScriptedSink::new(100, Script { chunk: 2, pause: 1, fail_at: None });
    assert_eq!(sink.write_fragments(&fragments(&["ab", "-", "007", "", "-z"]), true), Ok(()));
    assert_eq!(sink.contents().as_slice(), b"ab-007-z");
}

#[test]
fn write_fragments_of_nothing_succeeds() {
    let mut sink = ScriptedSink::new(0, Script::plain());
    assert_eq!(sink.write_fragments(&fragments(&[]), true), Ok(()));
    assert_eq!(sink.write_fragments(&fragments(&["", ""]), true), Ok(()));
    assert_eq!(sink.contents().len(), 0);
}

#[test]
fn write_fragments_passes_the_sink_error_on_and_stops() {
    let mut sink = ScriptedSink::new(4, Script::plain());
    assert_eq!(
        sink.write_fragments(&fragments(&["abc", "def", "ghi"]), true),
        Err(ScriptError::UnexpectedEof)
    );
    assert_eq!(sink.contents().as_slice(), b"abcd");
    let mut broken = ScriptedSink::new(100, Script { chunk: 0, pause: 0, fail_at: Some(3) });
    assert_eq!(
        broken.write_fragments(&fragments(&["abc", "def"]), false),
        Err(ScriptError::Broken)
    );
    assert_eq!(broken.contents().as_slice(), b"abc");
}

#[test]
fn write_fragments_tells_a_formatter_failure_apart() {
    let mut sink = ScriptedSink::new(100, Script::plain());
    assert_eq!(
        sink.write_fragments(&fragments(&["ab"]), false),
        Err(ScriptError::FormatterError)
    );
    assert_eq!(sink.contents().as_slice(), b"ab");
}

#[test]
fn write_fragments_encodes_text_as_utf8() {
    let mut sink = ScriptedSink::new(100, Script::plain());
    assert_eq!(sink.write_fragments(&fragments(&["ü", "世"]), true), Ok(()));
    assert_eq!(sink.contents().as_slice(), "ü世".as_bytes());
}

#[test]
fn verdict_decides_by_the_report_and_the_recorded_error() {
    let none: Result<(), ScriptError> = Ok(());
    let some: Result<(), ScriptError> = Err(ScriptError::Broken);
    assert_eq!(verdict(Ok(()), none), Ok(()));
    assert_eq!(verdict(Ok(()), some), Ok(()));
    assert_eq!(verdict(Err(std::fmt::Error), some), Err(ScriptError::Broken));
    assert_eq!(verdict(Err(std::fmt::Error), none), Err(ScriptError::FormatterError));
}

#[test]
fn write_vectored_offers_the_first_buffer_that_is_not_empty() {
    let mut sink = ScriptedSink::new(100, Script::plain());
    let bufs = vec![vec![], b"ab".to_vec(), b"cd".to_vec()];
    assert_eq!(sink.write_vectored(&bufs), Ok(OpRes::Completly(2)));
    assert_eq!(sink.contents().as_slice(), b"ab");
    assert!(!sink.is_write_vectored());
    let empty: Vec<Vec<u8>> = vec![vec![], vec![]];
    assert_eq!(sink.write_vectored(&empty), Ok(OpRes::Eof));
}

#[test]
fn write_all_vectored_takes_every_buffer_in_order() {
    let mut sink = ScriptedSink::new(100, Script { chunk: 3, pause: 1, fail_at: None });
    let bufs = vec![b"ab".to_vec(), vec![], b"cdefg".to_vec(), b"h".to_vec()];
    assert_eq!(sink.write_all_vectored(&bufs), Ok(()));
    assert_eq!(sink.contents().as_slice(), b"abcdefgh");
    let mut small = ScriptedSink::new(4, Script::plain());
    assert_eq!(small.write_all_vectored(&bufs), Err(ScriptError::UnexpectedEof));
    assert_eq!(small.contents().as_slice(), b"abcd");
}

#[test]
fn by_ref_writes_to_the_same_sink() {
    let mut sink = TypeImplementingWriteCore::default();
    assert_eq!(sink.by_ref().write(&[1]), Ok(OpRes::Completly(1)));
    assert_eq!(sink.write(&[2]), Ok(OpRes::Completly(1)));
    assert_eq!(sink.contents(), [1, 2, 67]);
}

#[test]
fn three_byte_sink_reports_a_formatter_failure() {
    let mut sink = TypeImplementingWriteCore::default();
    assert_eq!(
        sink.write_fragments(&fragments(&["a"]), false),
        Err(TypeImplementingCoreError::FormatterError)
    );
    assert_eq!(sink.contents(), [b'a', 66, 67]);
    assert_eq!(
        sink.write_fragments(&fragments(&["bcd"]), true),
        Err(TypeImplementingCoreError::UnexpectedEof)
    );
    assert_eq!(sink.contents(), [b'a', b'b', b'c']);
}
