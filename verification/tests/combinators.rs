use streamio::bytes::Bytes;
use streamio::chain::Chain;
use streamio::outcome::OpRes;
use streamio::read_alloc::ReadAlloc;
use streamio::read_core::ReadCore;
use streamio::take::Take;
use streamio::usage::new::{TypeImplementingCoreError, TypeImplementingReadCore};
use streamio::usage::scripted::{Script, ScriptError, ScriptedSource};

fn plain(data: &[u8]) -> ScriptedSource {
    ScriptedSource::new(data.to_vec(), Script::plain(), true)
}

#[test]
fn take_of_two_from_abc_reads_ab() {
    let source = TypeImplementingReadCore::new(b"ABC");
    let mut capped = Take::new(source, 2);
    let mut out = Vec::new();
    assert_eq!(capped.read_to_end(&mut out), Ok(()));
    assert_eq!(out, b"AB");
    assert_eq!(capped.limit(), 0);
}

#[test]
fn take_passes_at_most_its_quota_over_many_calls() {
    let mut capped = Take::new(plain(b"abcdefghij"), 7);
    let mut total = Vec::new();
    let mut buf = [0u8; 3];
    loop {
        match capped.read(&mut buf).unwrap() {
            OpRes::Eof => break,
            OpRes::Retry => {}
            OpRes::Partial(n) | OpRes::Completly(n) => total.extend_from_slice(&buf[..n]),
        }
    }
    assert_eq!(total, b"abcdefg");
    assert_eq!(capped.limit(), 0);
}

#[test]
fn take_quota_goes_down_by_the_bytes_moved() {
    let mut capped = Take::new(plain(b"abcdefghij"), 7);
    let mut buf = [0u8; 3];
    assert_eq!(capped.read(&mut buf), Ok(OpRes::Completly(3)));
    assert_eq!(capped.limit(), 4);
    assert_eq!(capped.read(&mut buf), Ok(OpRes::Completly(3)));
    assert_eq!(capped.limit(), 1);
    assert_eq!(capped.read(&mut buf), Ok(OpRes::Completly(1)));
    assert_eq!(buf[0], b'g');
    assert_eq!(capped.limit(), 0);
}

#[test]
fn take_with_a_large_quota_ends_with_the_source() {
    let mut capped = Take::new(plain(b"abc"), 100);
    let mut out = Vec::new();
    assert_eq!(capped.read_to_end(&mut out), Ok(()));
    assert_eq!(out, b"abc");
    assert_eq!(capped.limit(), 97);
}

#[test]
fn take_at_zero_reports_the_end_and_leaves_the_source_alone() {
    let script = Script { chunk: 0, pause: 0, fail_at: Some(0) };
    let failing = ScriptedSource::new(b"abc".to_vec(), script, true);
    let mut capped = Take::new(failing, 0);
    let mut buf = [0u8; 3];
    assert_eq!(capped.read(&mut buf), Ok(OpRes::Eof));
    assert_eq!(capped.read(&mut buf), Ok(OpRes::Eof));
    assert_eq!(buf, [0, 0, 0]);
    assert_eq!(capped.get_ref().delivered(), 0);
    capped.set_limit(1);
    assert_eq!(capped.read(&mut buf), Err(ScriptError::Broken));
}

#[test]
fn take_reaching_zero_stops_before_the_source_ends() {
    let mut capped = Take::new(plain(b"abcdef"), 2);
    let mut buf = [0u8; 4];
    assert_eq!(capped.read(&mut buf), Ok(OpRes::Completly(2)));
    assert_eq!(capped.read(&mut buf), Ok(OpRes::Eof));
    assert_eq!(capped.get_ref().delivered(), 2);
    let mut inner = capped.into_inner();
    assert_eq!(inner.read(&mut buf), Ok(OpRes::Completly(4)));
    assert_eq!(&buf, b"cdef");
}

#[test]
fn take_accessors_reach_the_wrapped_source() {
    let mut capped = Take::new(plain(b"abcdef"), 4);
    assert_eq!(capped.limit(), 4);
    let mut one = [0u8; 1];
    assert_eq!(capped.get_mut().read(&mut one), Ok(OpRes::Completly(1)));
    assert_eq!(capped.limit(), 4);
    capped.set_limit(2);
    let mut out = Vec::new();
    assert_eq!(capped.read_to_end(&mut out), Ok(()));
    assert_eq!(out, b"bc");
}

#[test]
fn take_method_caps_the_source() {
    let mut capped = TypeImplementingReadCore::default().take(1);
    let mut out = Vec::new();
    assert_eq!(capped.read_to_end(&mut out), Ok(()));
    assert_eq!(out, [65]);
}

#[test]
fn chain_of_ab_and_cd_reads_abcd() {
    let mut both = Chain::new(
        TypeImplementingReadCore::new(b"AB"),
        TypeImplementingReadCore::new(b"CD"),
    );
    let mut out = Vec::new();
    assert_eq!(both.read_to_end(&mut out), Ok(()));
    assert_eq!(out, b"ABCD");
}

fn drain_with(size: usize, first: &[u8], second: &[u8]) -> Vec<u8> {
    let mut both = Chain::new(plain(first), plain(second));
    let mut total = Vec::new();
    let mut buf = vec![0u8; size];
    loop {
        match both.read(&mut buf).unwrap() {
            OpRes::Eof => break,
            OpRes::Retry => {}
            OpRes::Partial(n) | OpRes::Completly(n) => total.extend_from_slice(&buf[..n]),
        }
    }
    total
}

#[test]
fn chain_loses_nothing_at_the_boundary_for_any_buffer_size() {
    for size in 1..=8 {
        assert_eq!(drain_with(size, b"abcde", b"fgh"), b"abcdefgh");
        assert_eq!(drain_with(size, b"", b"fgh"), b"fgh");
        assert_eq!(drain_with(size, b"abcde", b""), b"abcde");
    }
}

#[test]
fn chain_goes_on_with_the_second_in_the_call_that_ends_the_first() {
    let mut both = Chain::new(plain(b"ab"), plain(b"cd"));
    let mut buf = [0u8; 2];
    assert_eq!(both.read(&mut buf), Ok(OpRes::Completly(2)));
    assert_eq!(&buf, b"ab");
    assert_eq!(both.read(&mut buf), Ok(OpRes::Completly(2)));
    assert_eq!(&buf, b"cd");
    assert_eq!(both.read(&mut buf), Ok(OpRes::Eof));
}

#[test]
fn chain_of_two_empty_sources_is_empty() {
    let mut both = Chain::new(plain(b""), plain(b""));
    let mut buf = [0u8; 2];
    assert_eq!(both.read(&mut buf), Ok(OpRes::Eof));
}

#[test]
fn chain_passes_errors_and_retries_on() {
    let stalling = ScriptedSource::new(
        b"ab".to_vec(),
        Script { chunk: 0, pause: 1, fail_at: None },
        true,
    );
    let failing = ScriptedSource::new(
        b"cd".to_vec(),
        Script { chunk: 0, pause: 0, fail_at: Some(1) },
        true,
    );
    let mut both = Chain::new(stalling, failing);
    let mut buf = [0u8; 4];
    assert_eq!(both.read(&mut buf), Ok(OpRes::Retry));
    assert_eq!(both.read(&mut buf), Ok(OpRes::Partial(2)));
    assert_eq!(both.read(&mut buf), Ok(OpRes::Partial(1)));
    assert_eq!(buf[0], b'c');
    assert_eq!(both.read(&mut buf), Err(ScriptError::Broken));
}

#[test]
fn chain_accessors_reach_both_sources() {
    let mut both = Chain::new(plain(b"ab"), plain(b"cd"));
    {
        let (first, second) = both.get_ref();
        assert_eq!(first.delivered(), 0);
        assert_eq!(second.delivered(), 0);
    }
    {
        let (first, _second) = both.get_mut();
        let mut one = [0u8; 1];
        assert_eq!(first.read(&mut one), Ok(OpRes::Completly(1)));
    }
    let mut out = Vec::new();
    assert_eq!(both.read_to_end(&mut out), Ok(()));
    assert_eq!(out, b"bcd");
    let (first, second) = both.into_inner();
    assert_eq!(first.delivered(), 2);
    assert_eq!(second.delivered(), 2);
}

#[test]
fn chain_asks_for_zeroing_if_either_source_does() {
    let lax = || ScriptedSource::new(Vec::new(), Script::plain(), false);
    let strict = || ScriptedSource::new(Vec::new(), Script::plain(), true);
    assert!(Chain::new(strict(), lax()).initializer().should_initialize());
    assert!(Chain::new(lax(), strict()).initializer().should_initialize());
    assert!(!Chain::new(lax(), lax()).initializer().should_initialize());
    assert!(!Take::new(lax(), 3).initializer().should_initialize());
    assert!(Take::new(strict(), 3).initializer().should_initialize());
}

#[test]
fn bytes_over_abc_yields_each_byte_and_ends() {
    let source = TypeImplementingReadCore::new(&[0x41, 0x42, 0x43]);
    let mut bytes = Bytes::new(source);
    assert_eq!(bytes.next(), Some(Ok(0x41)));
    assert_eq!(bytes.next(), Some(Ok(0x42)));
    assert_eq!(bytes.next(), Some(Ok(0x43)));
    assert_eq!(bytes.next(), None);
    assert_eq!(bytes.next(), None);
}

#[test]
fn bytes_reissues_retries() {
    let script = Script { chunk: 0, pause: 3, fail_at: None };
    let mut bytes = ScriptedSource::new(b"xy".to_vec(), script, true).bytes();
    assert_eq!(bytes.next(), Some(Ok(b'x')));
    assert_eq!(bytes.next(), Some(Ok(b'y')));
    assert_eq!(bytes.next(), None);
}

#[test]
fn bytes_yields_an_error_once_and_ends() {
    let script = Script { chunk: 0, pause: 0, fail_at: Some(1) };
    let mut bytes = ScriptedSource::new(b"xy".to_vec(), script, true).bytes();
    assert_eq!(bytes.next(), Some(Ok(b'x')));
    assert_eq!(bytes.next(), Some(Err(ScriptError::Broken)));
    assert_eq!(bytes.next(), None);
    assert_eq!(bytes.next(), None);
}

#[test]
fn bytes_over_an_empty_source_ends_at_once() {
    let mut bytes: Bytes<TypeImplementingReadCore> = Bytes::new(TypeImplementingReadCore::new(b""));
    let first: Option<Result<u8, TypeImplementingCoreError>> = bytes.next();
    assert_eq!(first, None);
}

#[test]
fn chain_asked_for_no_bytes_gives_up_a_first_source_that_answers_with_the_end() {
    let mut both = Chain::new(
        TypeImplementingReadCore::new(b"AB"),
        TypeImplementingReadCore::new(b"CD"),
    );
    let mut none: [u8; 0] = [];
    assert_eq!(both.read(&mut none), Ok(OpRes::Eof));
    let mut out = Vec::new();
    assert_eq!(both.read_to_end(&mut out), Ok(()));
    assert_eq!(out, b"CD");
}
