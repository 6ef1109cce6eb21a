use fc_util::fs::{
    absolute_path, candidate_path, create_helper, exhausted_error, is_absolute, join_path,
    tempfile_or_fallback, tmpfile_needs_fallback, IoError, IoErrorKind, TempPath, NUM_RETRIES,
};
use std::cell::{Cell, RefCell};
use std::collections::HashSet;

const UNSUPPORTED: [i32; 3] = [libc::EOPNOTSUPP, libc::EISDIR, libc::ENOENT];

fn tmpfile_needs_fallback_linux(raw: Option<i32>) -> bool {
    tmpfile_needs_fallback(raw, &UNSUPPORTED)
}

fn collision() -> IoError {
    IoError { kind: IoErrorKind::AlreadyExists, raw_os_error: None, message: "Nope".to_string() }
}

fn os_error(code: i32) -> IoError {
    IoError { kind: IoErrorKind::Other, raw_os_error: Some(code), message: "os error".to_string() }
}

#[test]
fn test_create_helper_success() {
    assert_eq!(
        create_helper(b"/tmp", 1, |_| b"filename.txt".to_vec(), |_i, _p| Result::Ok("X")).unwrap(),
        "X"
    );
}

#[test]
fn test_create_helper_fail() {
    fn creator(_attempt: usize, _p: Vec<u8>) -> Result<String, IoError> {
        Result::Err(collision())
    }

    assert_eq!(
        create_helper(b"/tmp", 128, |_| b"filename.txt".to_vec(), creator)
            .unwrap_err()
            .message,
        "Too many (128) temporary creation attempts within /tmp"
    );
}

/// A directory of the given entries, whose exclusive create fails on a
/// taken name.
fn exclusive_create(existing: &RefCell<HashSet<Vec<u8>>>, p: Vec<u8>) -> Result<Vec<u8>, IoError> {
    if existing.borrow().contains(&p) {
        Err(IoError { kind: IoErrorKind::AlreadyExists, raw_os_error: Some(17), message: "File exists".to_string() })
    } else {
        existing.borrow_mut().insert(p.clone());
        Ok(p)
    }
}

#[test]
fn creates_in_empty_directory() {
    let dir = RefCell::new(HashSet::new());
    let r = create_helper(b"/d", 1, |_| b"filename.txt".to_vec(), |_i, p| exclusive_create(&dir, p));
    assert_eq!(r.unwrap(), b"/d/.tmpfilename.txt".to_vec());
    assert!(dir.borrow().contains(&b"/d/.tmpfilename.txt".to_vec()));
}

#[test]
fn fails_when_only_candidate_is_taken() {
    let dir = RefCell::new(HashSet::new());
    dir.borrow_mut().insert(b"/d/.tmpfilename.txt".to_vec());
    let e = create_helper(b"/d", 1, |_| b"filename.txt".to_vec(), |_i, p| exclusive_create(&dir, p))
        .unwrap_err();
    assert_eq!(e.kind, IoErrorKind::AlreadyExists);
    assert_eq!(e.message, "Too many (1) temporary creation attempts within /d");
}

#[test]
fn all_collisions_use_whole_budget() {
    let calls = Cell::new(0usize);
    let e = create_helper(
        b"/var/tmp",
        7,
        |_| b"x".to_vec(),
        |_i, _p| -> Result<(), IoError> {
            calls.set(calls.get() + 1);
            Err(collision())
        },
    )
    .unwrap_err();
    assert_eq!(calls.get(), 7);
    assert!(e.message.contains("7"));
    assert!(e.message.contains("/var/tmp"));
    assert_eq!(e.raw_os_error, None);
}

#[test]
fn success_on_third_attempt_draws_three_fragments() {
    let draws = Cell::new(0usize);
    let r = create_helper(
        b"/d",
        10,
        |_| {
            draws.set(draws.get() + 1);
            format!("f{}", draws.get()).into_bytes()
        },
        |_i, p| if p.ends_with(b"f3") { Ok(p) } else { Err(collision()) },
    );
    assert_eq!(r.unwrap(), b"/d/.tmpf3".to_vec());
    assert_eq!(draws.get(), 3);
}

#[test]
fn other_errors_pass_through_unretried() {
    let calls = Cell::new(0usize);
    let e = create_helper(
        b"/d",
        10,
        |_| b"a".to_vec(),
        |_i, _p| -> Result<(), IoError> {
            calls.set(calls.get() + 1);
            Err(IoError { kind: IoErrorKind::Other, raw_os_error: Some(13), message: "Permission denied".to_string() })
        },
    )
    .unwrap_err();
    assert_eq!(calls.get(), 1);
    assert_eq!(e.kind, IoErrorKind::Other);
    assert_eq!(e.raw_os_error, Some(13));
    assert_eq!(e.message, "Permission denied");
}

#[test]
fn zero_budget_fails_at_once() {
    let e = create_helper(b"/d", 0, |_| b"a".to_vec(), |_i, p| -> Result<Vec<u8>, IoError> { Ok(p) })
        .unwrap_err();
    assert_eq!(e.message, "Too many (0) temporary creation attempts within /d");
}

#[test]
fn exhausted_error_message() {
    let e = exhausted_error(1234, b"dir");
    assert_eq!(e.kind, IoErrorKind::AlreadyExists);
    assert_eq!(e.message, "Too many (1234) temporary creation attempts within dir");
}

#[test]
fn join_path_separators() {
    assert_eq!(join_path(b"/d", b"a"), b"/d/a");
    assert_eq!(join_path(b"/d/", b"a"), b"/d/a");
    assert_eq!(join_path(b"", b"a"), b"a");
    assert_eq!(join_path(b"/", b"a"), b"/a");
}

#[test]
fn candidate_path_has_prefix() {
    assert_eq!(candidate_path(b"target", b"namedtempfile.txt"), b"target/.tmpnamedtempfile.txt");
}

#[test]
fn absolute_path_resolves_relative_only() {
    assert_eq!(absolute_path(b"/home/u", b"target"), b"/home/u/target");
    assert_eq!(absolute_path(b"/home/u", b"/tmp"), b"/tmp");
    assert_eq!(absolute_path(b"", b"/tmp"), b"/tmp");
    assert_eq!(absolute_path(b"/", b"x/y"), b"/x/y");
    assert!(is_absolute(b"/a"));
    assert!(!is_absolute(b"a/b"));
    assert!(!is_absolute(b""));
}

#[test]
fn fallback_only_on_unsupported_codes() {
    assert!(tmpfile_needs_fallback_linux(Some(libc::EOPNOTSUPP)));
    assert!(tmpfile_needs_fallback_linux(Some(libc::EISDIR)));
    assert!(tmpfile_needs_fallback_linux(Some(libc::ENOENT)));
    assert!(!tmpfile_needs_fallback(Some(95), &[]));
    assert!(tmpfile_needs_fallback(Some(7), &[3, 7]));
    assert!(!tmpfile_needs_fallback_linux(Some(libc::EACCES)));
    assert!(!tmpfile_needs_fallback_linux(None));
}

#[test]
fn non_text_parent_is_left_out_of_message() {
    let e = create_helper(b"/d\xff", 1, |_| b"a".to_vec(), |_i, _p| -> Result<(), IoError> { Err(collision()) })
        .unwrap_err();
    assert_eq!(e.message, "Too many (1) temporary creation attempts");
}

#[test]
fn distinct_non_text_fragments_give_distinct_paths() {
    assert_ne!(candidate_path(b"/d", b"\xfe"), candidate_path(b"/d", b"\xff"));
}

#[test]
fn native_success_is_kept() {
    let draws = Cell::new(0usize);
    let r = tempfile_or_fallback(
        b"/d",
        Ok(7),
        &UNSUPPORTED,
        |_| {
            draws.set(draws.get() + 1);
            b"a".to_vec()
        },
        |_i, _p| Ok(8),
    );
    assert_eq!(r.unwrap(), 7);
    assert_eq!(draws.get(), 0);
}

#[test]
fn native_other_error_is_returned_unretried() {
    let draws = Cell::new(0usize);
    let made = RefCell::new(Vec::new());
    let e = tempfile_or_fallback(
        b"/d",
        Err(os_error(libc::EACCES)),
        &UNSUPPORTED,
        |_| {
            draws.set(draws.get() + 1);
            b"a".to_vec()
        },
        |_i, p| {
            made.borrow_mut().push(p);
            Ok(8)
        },
    )
    .unwrap_err();
    assert_eq!(e.raw_os_error, Some(libc::EACCES));
    assert_eq!(draws.get(), 0);
    assert!(made.borrow().is_empty());
}

#[test]
fn native_unsupported_falls_back_to_loop() {
    for code in [libc::EOPNOTSUPP, libc::EISDIR, libc::ENOENT] {
        let made = RefCell::new(Vec::new());
        let r = tempfile_or_fallback(b"/d", Err(os_error(code)), &UNSUPPORTED, |_| b"frag".to_vec(), |_i, p| {
            made.borrow_mut().push(p.clone());
            Ok(p)
        });
        assert_eq!(r.unwrap(), b"/d/.tmpfrag".to_vec());
        assert_eq!(made.borrow().len(), 1);
    }
}

#[test]
fn fallback_budget_is_two_to_the_thirty_one() {
    assert_eq!(NUM_RETRIES, 1usize << 31);
}

#[test]
fn temp_path_keeps_path() {
    let p = TempPath::new(b"/d/.tmpx".to_vec());
    assert_eq!(p.as_bytes(), b"/d/.tmpx");
}

#[test]
fn attempts_are_numbered_in_order() {
    let draws = RefCell::new(Vec::new());
    let tries = RefCell::new(Vec::new());
    let _ = create_helper(
        b"/d",
        4,
        |i| {
            draws.borrow_mut().push(i);
            b"a".to_vec()
        },
        |i, _p| -> Result<(), IoError> {
            tries.borrow_mut().push(i);
            Err(collision())
        },
    );
    assert_eq!(*draws.borrow(), vec![0, 1, 2, 3]);
    assert_eq!(*tries.borrow(), vec![0, 1, 2, 3]);
}

#[test]
fn exhausted_message_decimal_edges() {
    assert_eq!(exhausted_error(0, b"d").message, "Too many (0) temporary creation attempts within d");
    assert_eq!(exhausted_error(10, b"d").message, "Too many (10) temporary creation attempts within d");
    assert_eq!(
        exhausted_error(usize::MAX, b"d").message,
        format!("Too many ({}) temporary creation attempts within d", usize::MAX)
    );
}
