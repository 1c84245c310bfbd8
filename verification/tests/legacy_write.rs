use std::io::ErrorKind;
use streamio::bridge::LegacyWrite;
use streamio::usage::legacy::TypeImplementingWrite;
use streamio::usage::scripted::{Script, ScriptedSink};
use streamio::write::Write;

fn scripted(capacity: usize, script: Script) -> LegacyWrite<ScriptedSink> {
    LegacyWrite(ScriptedSink::new(capacity, script))
}

#[test]
fn count_shaped_write_returns_the_bytes_taken() {
    let mut sink = TypeImplementingWrite::default();
    assert_eq!(Write::write(&mut sink, &[9, 8]).unwrap(), 2);
    assert_eq!(sink.contents(), [9, 8, 67]);
    assert_eq!(Write::write(&mut sink, &[7, 6]).unwrap(), 1);
    assert_eq!(Write::write(&mut sink, &[5]).unwrap(), 0);
    assert_eq!(sink.contents(), [9, 8, 7]);
    assert_eq!(sink.len(), 3);
    assert!(Write::flush(&mut sink).is_ok());
    assert!(!Write::is_write_vectored(&sink));
}

#[test]
fn count_shaped_write_all_fills_the_three_byte_sink() {
    let mut sink = TypeImplementingWrite::default();
    assert!(Write::write_all(&mut sink, &[0, 1, 2]).is_ok());
    assert_eq!(sink.contents(), [0, 1, 2]);
}

#[test]
fn count_shaped_write_all_fails_with_write_zero_when_the_room_runs_out() {
    let mut sink = TypeImplementingWrite::default();
    let e = Write::write_all(&mut sink, &[0, 1, 2, 3]).unwrap_err();
    assert_eq!(e.kind(), ErrorKind::WriteZero);
    assert_eq!(e.get_ref(), Some("failed to write whole buffer"));
    assert_eq!(sink.contents(), [0, 1, 2]);
}

#[test]
fn count_shaped_write_all_reissues_after_interruptions() {
    let mut sink = scripted(100, Script { chunk: 3, pause: 2, fail_at: None });
    assert!(Write::write_all(Write::by_ref(&mut sink), b"hello, world").is_ok());
    assert_eq!(sink.0.contents().as_slice(), b"hello, world");
}

#[test]
fn count_shaped_write_vectored_offers_the_first_buffer_that_is_not_empty() {
    let mut sink = TypeImplementingWrite::default();
    let bufs = vec![vec![], vec![1u8, 2], vec![3u8]];
    assert_eq!(Write::write_vectored(&mut sink, &bufs).unwrap(), 2);
    assert_eq!(sink.contents(), [1, 2, 67]);
}

#[test]
fn count_shaped_write_all_vectored_takes_every_buffer_in_order() {
    let mut sink = TypeImplementingWrite::default();
    let bufs = vec![vec![1u8], vec![], vec![2u8, 3]];
    assert!(Write::write_all_vectored(&mut sink, &bufs).is_ok());
    assert_eq!(sink.contents(), [1, 2, 3]);
    let more = vec![vec![4u8]];
    let e = Write::write_all_vectored(&mut sink, &more).unwrap_err();
    assert_eq!(e.kind(), ErrorKind::WriteZero);
}
