use streamio::outcome::OpRes;
use streamio::read_core::{chain, ReadCore};
use streamio::usage::new::{TypeImplementingCoreError, TypeImplementingReadCore};
use streamio::usage::scripted::{Script, ScriptError, ScriptedSource};

#[test]
fn read_moves_what_fits_and_reports_complete() {
    let mut source = TypeImplementingReadCore::default();
    let mut buf = [0u8; 2];
    assert_eq!(source.read(&mut buf), Ok(OpRes::Completly(2)));
    assert_eq!(buf, [65, 66]);
}

#[test]
fn read_reports_partial_when_the_data_runs_out() {
    let mut source = TypeImplementingReadCore::default();
    let mut buf = [9u8; 5];
    assert_eq!(source.read(&mut buf), Ok(OpRes::Partial(3)));
    assert_eq!(buf, [65, 66, 67, 9, 9]);
    assert_eq!(source.read(&mut buf), Ok(OpRes::Eof));
}

#[test]
fn read_into_an_empty_buffer_reports_the_end() {
    let mut source = TypeImplementingReadCore::default();
    let mut buf: [u8; 0] = [];
    assert_eq!(source.read(&mut buf), Ok(OpRes::Eof));
    let mut rest = [0u8; 3];
    assert_eq!(source.read(&mut rest), Ok(OpRes::Completly(3)));
    assert_eq!(rest, [65, 66, 67]);
}

#[test]
fn read_exact_fills_the_buffer() {
    let mut source = TypeImplementingReadCore::new(b"hello world");
    let mut buf = [0u8; 5];
    assert_eq!(source.read_exact(&mut buf), Ok(()));
    assert_eq!(&buf, b"hello");
    let mut rest = [0u8; 6];
    assert_eq!(source.read_exact(&mut rest), Ok(()));
    assert_eq!(&rest, b" world");
}

#[test]
fn read_exact_of_nothing_succeeds_on_an_empty_source() {
    let mut source = TypeImplementingReadCore::new(b"");
    let mut buf: [u8; 0] = [];
    assert_eq!(source.read_exact(&mut buf), Ok(()));
}

#[test]
fn read_exact_fails_when_the_source_ends_early() {
    let mut source = TypeImplementingReadCore::default();
    let mut buf = [0u8; 4];
    assert_eq!(
        source.read_exact(&mut buf),
        Err(TypeImplementingCoreError::UnexpectedEof)
    );
    assert_eq!(&buf[..3], &[65, 66, 67]);
}

#[test]
fn read_exact_goes_on_after_partial_transfers() {
    let script = Script { chunk: 2, pause: 0, fail_at: None };
    let mut source = ScriptedSource::new(b"abcdefg".to_vec(), script, true);
    let mut buf = [0u8; 7];
    assert_eq!(source.read_exact(&mut buf), Ok(()));
    assert_eq!(&buf, b"abcdefg");
}

#[test]
fn read_exact_reissues_after_a_retry() {
    let script = Script { chunk: 3, pause: 2, fail_at: None };
    let mut source = ScriptedSource::new(b"abcdefg".to_vec(), script, true);
    let mut buf = [0u8; 5];
    assert_eq!(source.read_exact(&mut buf), Ok(()));
    assert_eq!(&buf, b"abcde");
    assert_eq!(source.delivered(), 5);
}

#[test]
fn read_exact_passes_the_source_error_on() {
    let script = Script { chunk: 0, pause: 0, fail_at: Some(3) };
    let mut source = ScriptedSource::new(b"abcdefg".to_vec(), script, true);
    let mut buf = [0u8; 5];
    assert_eq!(source.read_exact(&mut buf), Err(ScriptError::Broken));
    assert_eq!(&buf[..3], b"abc");
    assert_eq!(source.delivered(), 3);
}

#[test]
fn scripted_source_follows_its_script() {
    let script = Script { chunk: 2, pause: 1, fail_at: Some(3) };
    let mut source = ScriptedSource::new(b"abcd".to_vec(), script, false);
    assert!(!source.initializer().should_initialize());
    let mut buf = [0u8; 4];
    assert_eq!(source.read(&mut buf), Ok(OpRes::Retry));
    assert_eq!(source.read(&mut buf), Ok(OpRes::Partial(2)));
    assert_eq!(source.read(&mut buf), Ok(OpRes::Retry));
    assert_eq!(source.read(&mut buf), Ok(OpRes::Partial(1)));
    assert_eq!(source.read(&mut buf), Err(ScriptError::Broken));
    assert_eq!(source.read(&mut buf), Err(ScriptError::Broken));
}

#[test]
fn by_ref_reads_from_the_same_source() {
    let mut source = TypeImplementingReadCore::default();
    let mut one = [0u8; 1];
    assert_eq!(source.by_ref().read(&mut one), Ok(OpRes::Completly(1)));
    assert_eq!(source.read(&mut one), Ok(OpRes::Completly(1)));
    assert_eq!(one, [66]);
}

#[test]
fn default_policy_is_zeroing() {
    let source = TypeImplementingReadCore::default();
    assert!(source.initializer().should_initialize());
}

#[test]
fn chain_function_puts_the_second_behind_the_first() {
    let mut both = chain(
        TypeImplementingReadCore::new(b"AB"),
        TypeImplementingReadCore::new(b"CD"),
    );
    let mut buf = [0u8; 4];
    assert_eq!(both.read_exact(&mut buf), Ok(()));
    assert_eq!(&buf, b"ABCD");
}
