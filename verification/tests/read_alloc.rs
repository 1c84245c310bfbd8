use streamio::read_alloc::{append_to_string, ReadAlloc};
use streamio::read_core::ReadCore;
use streamio::take::Take;
use streamio::usage::new::{TypeImplementingCoreError, TypeImplementingReadCore};
use streamio::usage::scripted::{Script, ScriptError, ScriptedSource};

fn long_data(n: usize) -> Vec<u8> {
    (0..n).map(|i| (i % 251) as u8).collect()
}

#[test]
fn read_to_end_appends_everything() {
    let mut source = TypeImplementingReadCore::default();
    let mut out = vec![1u8, 2];
    assert_eq!(source.read_to_end(&mut out), Ok(()));
    assert_eq!(out, [1, 2, 65, 66, 67]);
}

#[test]
fn read_to_end_of_an_empty_source_changes_nothing() {
    let mut source = TypeImplementingReadCore::new(b"");
    let mut out = vec![1u8, 2];
    assert_eq!(source.read_to_end(&mut out), Ok(()));
    assert_eq!(out, [1, 2]);
}

#[test]
fn read_to_end_grows_past_one_reservation() {
    let data = long_data(1000);
    let mut source = ScriptedSource::new(data.clone(), Script::plain(), true);
    let mut out = Vec::new();
    assert_eq!(source.read_to_end(&mut out), Ok(()));
    assert_eq!(out, data);
}

#[test]
fn read_to_end_takes_small_pieces_and_retries() {
    let data = long_data(100);
    let script = Script { chunk: 7, pause: 2, fail_at: None };
    let mut source = ScriptedSource::new(data.clone(), script, false);
    let mut out = vec![9u8];
    assert_eq!(source.read_to_end(&mut out), Ok(()));
    assert_eq!(out[0], 9);
    assert_eq!(&out[1..], &data[..]);
}

#[test]
fn read_to_end_keeps_exactly_the_bytes_moved_before_an_error() {
    for k in [0usize, 1, 5, 31, 32, 33, 64, 70] {
        let data = long_data(100);
        let script = Script { chunk: 5, pause: 1, fail_at: Some(k) };
        let mut source = ScriptedSource::new(data.clone(), script, true);
        let mut out = vec![7u8, 7, 7];
        assert_eq!(source.read_to_end(&mut out), Err(ScriptError::Broken));
        assert_eq!(out.len(), 3 + k);
        assert_eq!(&out[..3], &[7, 7, 7]);
        assert_eq!(&out[3..], &data[..k]);
        assert_eq!(source.delivered(), k);
    }
}

#[test]
fn read_to_end_on_take_stops_at_the_quota() {
    let data = long_data(100);
    let mut capped = Take::new(ScriptedSource::new(data.clone(), Script::plain(), true), 40);
    let mut out = Vec::new();
    assert_eq!(capped.read_to_end(&mut out), Ok(()));
    assert_eq!(out, &data[..40]);
    assert_eq!(capped.get_ref().delivered(), 40);
}

#[test]
fn read_to_end_on_take_with_no_quota_reads_nothing() {
    let mut capped = Take::new(TypeImplementingReadCore::default(), 0);
    let mut out = vec![5u8];
    assert_eq!(capped.read_to_end(&mut out), Ok(()));
    assert_eq!(out, [5]);
}

#[test]
fn read_to_string_appends_text() {
    let mut source = TypeImplementingReadCore::default();
    let mut text = String::from(">");
    assert_eq!(source.read_to_string(&mut text), Ok(()));
    assert_eq!(text, ">ABC");
}

#[test]
fn read_to_string_takes_text_of_several_bytes_a_character() {
    let mut source = TypeImplementingReadCore::new("grüße, 世界".as_bytes());
    let mut text = String::new();
    assert_eq!(source.read_to_string(&mut text), Ok(()));
    assert_eq!(text, "grüße, 世界");
}

#[test]
fn read_to_string_rejects_bytes_that_are_no_text() {
    let mut source = TypeImplementingReadCore::new(&[b'a', 0xff, b'b']);
    let mut text = String::from("kept");
    assert_eq!(
        source.read_to_string(&mut text),
        Err(TypeImplementingCoreError::InvalidUtf8)
    );
    assert_eq!(text, "kept");
}

#[test]
fn read_to_string_rejects_a_character_cut_short() {
    let mut source = TypeImplementingReadCore::new(&[b'a', 0xe4, 0xb8]);
    let mut text = String::from("kept");
    assert_eq!(
        source.read_to_string(&mut text),
        Err(TypeImplementingCoreError::InvalidUtf8)
    );
    assert_eq!(text.len(), 4);
}

#[test]
fn read_to_string_leaves_the_text_when_the_source_fails() {
    let script = Script { chunk: 0, pause: 0, fail_at: Some(2) };
    let mut source = ScriptedSource::new(b"abcd".to_vec(), script, true);
    let mut text = String::from("kept");
    assert_eq!(source.read_to_string(&mut text), Err(ScriptError::Broken));
    assert_eq!(text, "kept");
}

#[test]
fn append_to_string_commits_or_rolls_back() {
    let mut text = String::from("a");
    let ok: Result<(), TypeImplementingCoreError> = Ok(());
    assert_eq!(append_to_string(&mut text, b"bc", ok), Ok(()));
    assert_eq!(text, "abc");
    assert_eq!(
        append_to_string(&mut text, &[0xc0], ok),
        Err(TypeImplementingCoreError::InvalidUtf8)
    );
    assert_eq!(text, "abc");
    let failed: Result<(), TypeImplementingCoreError> =
        Err(TypeImplementingCoreError::UnexpectedEof);
    assert_eq!(
        append_to_string(&mut text, b"de", failed),
        Err(TypeImplementingCoreError::UnexpectedEof)
    );
    assert_eq!(text, "abc");
}

#[test]
fn read_to_string_on_a_scripted_source_rejects_bytes_that_are_no_text() {
    let script = Script { chunk: 1, pause: 1, fail_at: None };
    let mut source = ScriptedSource::new(vec![b'o', b'k', 0xc3], script, true);
    let mut text = String::new();
    assert_eq!(source.read_to_string(&mut text), Err(ScriptError::InvalidUtf8));
    assert_eq!(text, "");
    assert_eq!(source.delivered(), 3);
}
