use std::io::ErrorKind;
use streamio::bridge::LegacyRead;
use streamio::read::{append_to_string, chain, Read, ReadExt};
use streamio::read_alloc::ReadAlloc;
use streamio::usage::legacy::TypeImplementingRead;
use streamio::usage::scripted::{Script, ScriptedSource};

fn scripted(data: &[u8], script: Script) -> LegacyRead<ScriptedSource> {
    LegacyRead(ScriptedSource::new(data.to_vec(), script, true))
}

#[test]
fn count_shaped_read_returns_the_bytes_moved() {
    let mut source = TypeImplementingRead::default();
    let mut buf = [0u8; 2];
    assert_eq!(Read::read(&mut source, &mut buf).unwrap(), 2);
    assert_eq!(buf, [65, 66]);
    assert_eq!(Read::read(&mut source, &mut buf).unwrap(), 1);
    assert_eq!(buf, [67, 66]);
    assert_eq!(Read::read(&mut source, &mut buf).unwrap(), 0);
    assert!(!Read::is_read_vectored(&source));
    assert!(Read::initializer(&source).should_initialize());
}

#[test]
fn count_shaped_read_exact_fills_the_buffer() {
    let mut source = TypeImplementingRead::new(b"hello world");
    let mut buf = [0u8; 5];
    assert!(Read::read_exact(&mut source, &mut buf).is_ok());
    assert_eq!(&buf, b"hello");
}

#[test]
fn count_shaped_read_exact_fails_on_a_short_source() {
    let mut source = TypeImplementingRead::default();
    let mut buf = [0u8; 4];
    let e = Read::read_exact(&mut source, &mut buf).unwrap_err();
    assert_eq!(e.kind(), ErrorKind::UnexpectedEof);
    assert_eq!(e.get_ref(), Some("failed to fill whole buffer"));
    assert_eq!(&buf[..3], &[65, 66, 67]);
}

#[test]
fn count_shaped_read_exact_reissues_after_interruptions() {
    let mut source = scripted(b"abcdefg", Script { chunk: 2, pause: 2, fail_at: None });
    let mut buf = [0u8; 7];
    assert!(Read::read_exact(&mut source, &mut buf).is_ok());
    assert_eq!(&buf, b"abcdefg");
}

#[test]
fn count_shaped_read_to_end_returns_the_number_of_bytes() {
    let mut source = TypeImplementingRead::default();
    let mut out = vec![1u8];
    assert_eq!(ReadExt::read_to_end(&mut source, &mut out).unwrap(), 3);
    assert_eq!(out, [1, 65, 66, 67]);
}

#[test]
fn count_shaped_read_to_end_keeps_the_bytes_moved_before_an_error() {
    let data: Vec<u8> = (0..90u8).collect();
    let mut source = scripted(&data, Script { chunk: 4, pause: 1, fail_at: Some(50) });
    let mut out = vec![7u8];
    let e = ReadExt::read_to_end(&mut source, &mut out).unwrap_err();
    assert_eq!(e.kind(), ErrorKind::Other);
    assert_eq!(out.len(), 51);
    assert_eq!(&out[1..], &data[..50]);
}

#[test]
fn count_shaped_read_to_string_appends_text() {
    let mut source = TypeImplementingRead::default();
    let mut text = String::from(">");
    assert_eq!(ReadExt::read_to_string(&mut source, &mut text).unwrap(), 3);
    assert_eq!(text, ">ABC");
}

#[test]
fn count_shaped_read_to_string_rejects_bytes_that_are_no_text() {
    let mut source = TypeImplementingRead::new(&[b'a', 0xff]);
    let mut text = String::from("kept");
    let e = ReadExt::read_to_string(&mut source, &mut text).unwrap_err();
    assert_eq!(e.kind(), ErrorKind::InvalidData);
    assert_eq!(e.get_ref(), Some("stream did not contain valid UTF-8"));
    assert_eq!(text, "kept");
}

#[test]
fn count_shaped_read_to_string_keeps_text_read_before_an_error() {
    let mut source = scripted(b"abcdef", Script { chunk: 0, pause: 0, fail_at: Some(4) });
    let mut text = String::from(">");
    let e = ReadExt::read_to_string(&mut source, &mut text).unwrap_err();
    assert_eq!(e.kind(), ErrorKind::Other);
    assert_eq!(text, ">abcd");
}

#[test]
fn count_shaped_append_to_string_passes_the_drain_result_on() {
    let mut text = String::from("a");
    assert_eq!(append_to_string(&mut text, b"bc", Ok(2)).unwrap(), 2);
    assert_eq!(text, "abc");
    let e = append_to_string(&mut text, &[0x80], Ok(1)).unwrap_err();
    assert_eq!(e.kind(), ErrorKind::InvalidData);
    assert_eq!(text, "abc");
    let failed = Err(streamio::error::Error::simple(ErrorKind::TimedOut));
    let e = append_to_string(&mut text, b"de", failed).unwrap_err();
    assert_eq!(e.kind(), ErrorKind::TimedOut);
    assert_eq!(text, "abcde");
    let failed = Err(streamio::error::Error::simple(ErrorKind::TimedOut));
    let e = append_to_string(&mut text, &[0x80], failed).unwrap_err();
    assert_eq!(e.kind(), ErrorKind::TimedOut);
    assert_eq!(text, "abcde");
}

#[test]
fn count_shaped_read_vectored_uses_the_first_buffer_that_is_not_empty() {
    let mut source = TypeImplementingRead::default();
    let mut bufs = vec![vec![], vec![0u8; 2], vec![9u8; 2]];
    assert_eq!(Read::read_vectored(&mut source, &mut bufs).unwrap(), 2);
    assert_eq!(bufs, vec![vec![], vec![65, 66], vec![9, 9]]);
    let mut none: Vec<Vec<u8>> = vec![vec![]];
    assert_eq!(Read::read_vectored(&mut source, &mut none).unwrap(), 0);
    let mut rest = vec![vec![0u8; 4]];
    assert_eq!(Read::read_vectored(&mut source, &mut rest).unwrap(), 1);
    assert_eq!(rest[0][0], 67);
}

#[test]
fn count_shaped_combinators_wrap_the_source() {
    let mut capped = Read::take(TypeImplementingRead::default(), 2);
    let mut out = Vec::new();
    assert!(ReadAlloc::read_to_end(&mut capped, &mut out).is_ok());
    assert_eq!(out, [65, 66]);
    let both = chain(TypeImplementingRead::new(b"AB"), TypeImplementingRead::new(b"CD"));
    let (first, second) = both.into_inner();
    let mut bytes = Read::bytes(first);
    assert_eq!(bytes.next().map(|r| r.unwrap()), Some(b'A'));
    let mut second = second;
    let mut one = [0u8; 1];
    assert_eq!(Read::read(Read::by_ref(&mut second), &mut one).unwrap(), 1);
    assert_eq!(one, [b'C']);
}
