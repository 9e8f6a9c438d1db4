use media_cruncher::archive::{
    absolute_zip_path, archive_failure, extract_step, has_password_marker, is_archive_name, is_supported_archive,
    looks_password_protected, password_from_line, repack_failure, repack_zip_args,
    repacked_extension, repacked_extension_for, seven_zip_extract_args, ArchiveErrorKind,
    ExtractAction, ExtractPhase, MAX_PASSWORD_ATTEMPTS,
};

fn strs(v: &[&str]) -> Vec<String> {
    v.iter().map(|s| s.to_string()).collect()
}

#[test]
fn supported_archive_extensions() {
    for name in [
        "a.zip", "a.cbz", "a.7z", "a.rar", "a.tar", "a.gz", "a.bz2", "a.xz", "a.tgz", "a.tbz2",
        "a.txz", "a.tar.gz", "a.tar.bz2", "a.tar.xz",
    ] {
        assert!(is_supported_archive(name), "{}", name);
    }
}

#[test]
fn supported_archive_ignores_case() {
    assert!(is_supported_archive("Comic.CBZ"));
    assert!(is_supported_archive("/home/me/Backup.Tar.Gz"));
    assert!(is_supported_archive("X.7Z"));
}

#[test]
fn unsupported_names() {
    assert!(!is_supported_archive("photo.jpg"));
    assert!(!is_supported_archive("zip"));
    assert!(!is_supported_archive("archive.zip.txt"));
    assert!(!is_supported_archive(""));
    assert!(!is_supported_archive(".."));
    assert!(!is_supported_archive("dir.zip/.."));
    assert!(!is_supported_archive("archive.zip/inner"));
}

#[test]
fn supported_archive_uses_final_component() {
    // A trailing separator does not change the final component.
    assert!(is_supported_archive("/tmp/x.zip/"));
    assert!(is_supported_archive("dir/sub/file.rar"));
}

#[test]
fn archive_name_expects_lowercase() {
    assert!(is_archive_name("a.zip"));
    assert!(!is_archive_name("a.ZIP"));
    assert!(!is_archive_name(""));
}

#[test]
fn password_markers_any_case() {
    assert!(looks_password_protected("ERROR: Wrong password : a.7z"));
    assert!(looks_password_protected("Can not open encrypted archive. Wrong password?"));
    assert!(looks_password_protected("ERROR: Data Error in encrypted file. Wrong password?"));
    assert!(looks_password_protected("Break signaled"));
    assert!(looks_password_protected("ERROR: Headers Error : a.7z"));
    assert!(looks_password_protected("some ENCRYPTED ARCHIVE here"));
}

#[test]
fn no_password_marker() {
    assert!(!looks_password_protected("Everything is Ok"));
    assert!(!looks_password_protected(""));
    assert!(!looks_password_protected("wrong pass word"));
    assert!(!has_password_marker("WRONG PASSWORD"));
    assert!(has_password_marker("wrong password"));
}

#[test]
fn failure_message_without_output() {
    let e = archive_failure("extract archive", "  \n\t ");
    assert_eq!(e.kind, ArchiveErrorKind::Other);
    assert_eq!(e.message, "7z failed to extract archive");
}

#[test]
fn failure_message_with_output() {
    let e = archive_failure("extract archive", "\n  ERROR: Unexpected end of archive \n");
    assert_eq!(e.kind, ArchiveErrorKind::Other);
    assert_eq!(e.message, "7z failed to extract archive:\nERROR: Unexpected end of archive");
}

#[test]
fn repack_failure_messages() {
    let e = repack_failure("");
    assert_eq!(e.kind, ArchiveErrorKind::Other);
    assert_eq!(e.message, "7z failed to create the ZIP archive with no error output.");
    let e = repack_failure("  disk full \n");
    assert_eq!(e.message, "7z failed to create the ZIP archive:\ndisk full");
}

#[test]
fn extract_args_without_password() {
    assert_eq!(
        seven_zip_extract_args("a.7z", "/tmp/work", None),
        strs(&["x", "-y", "-o/tmp/work", "a.7z"])
    );
}

#[test]
fn extract_args_with_password() {
    assert_eq!(
        seven_zip_extract_args("a.7z", "/tmp/work", Some("hunter2")),
        strs(&["x", "-y", "-o/tmp/work", "-phunter2", "a.7z"])
    );
    assert_eq!(
        seven_zip_extract_args("a.7z", "/tmp/work", Some("")),
        strs(&["x", "-y", "-o/tmp/work", "-p", "a.7z"])
    );
}

#[test]
fn repack_args() {
    assert_eq!(
        repack_zip_args("/data/book.tmp.archive"),
        strs(&["a", "-tzip", "-mx=9", "/data/book.tmp.archive", "*"])
    );
}

#[test]
fn password_line_endings() {
    assert_eq!(password_from_line("secret\r\n"), "secret");
    assert_eq!(password_from_line("secret\n\n\r"), "secret");
    assert_eq!(password_from_line("se\ncret\n"), "se\ncret");
    assert_eq!(password_from_line("pass "), "pass ");
    assert_eq!(password_from_line("\r\n"), "");
    assert_eq!(password_from_line(""), "");
}

#[test]
fn extraction_succeeds_first_time() {
    assert!(matches!(extract_step(ExtractPhase::Initial, true, "Wrong password"), ExtractAction::Done));
}

#[test]
fn extraction_asks_for_password() {
    match extract_step(ExtractPhase::Initial, false, "ERROR: Wrong password : a.7z") {
        ExtractAction::AskPassword { next, wrong_password } => {
            assert_eq!(next, ExtractPhase::WithPassword { attempt: 1 });
            assert!(!wrong_password);
        }
        other => panic!("unexpected {:?}", other),
    }
}

#[test]
fn extraction_fails_on_other_error() {
    match extract_step(ExtractPhase::Initial, false, "  ERROR: Unexpected end of archive\n") {
        ExtractAction::Fail { error, wrong_password } => {
            assert!(!wrong_password);
            assert_eq!(error.kind, ArchiveErrorKind::Other);
            assert_eq!(error.message, "7z failed to extract archive:\nERROR: Unexpected end of archive");
        }
        other => panic!("unexpected {:?}", other),
    }
    match extract_step(ExtractPhase::WithPassword { attempt: 2 }, false, "CRC Failed") {
        ExtractAction::Fail { error, wrong_password } => {
            assert!(!wrong_password);
            assert_eq!(error.kind, ArchiveErrorKind::Other);
            assert_eq!(error.message, "7z failed to extract archive:\nCRC Failed");
        }
        other => panic!("unexpected {:?}", other),
    }
}

#[test]
fn extraction_retries_wrong_password() {
    match extract_step(ExtractPhase::WithPassword { attempt: 1 }, false, "Wrong password") {
        ExtractAction::AskPassword { next, wrong_password } => {
            assert_eq!(next, ExtractPhase::WithPassword { attempt: 2 });
            assert!(wrong_password);
        }
        other => panic!("unexpected {:?}", other),
    }
    assert!(matches!(
        extract_step(ExtractPhase::WithPassword { attempt: 3 }, true, ""),
        ExtractAction::Done
    ));
}

#[test]
fn extraction_gives_up_after_three_passwords() {
    match extract_step(ExtractPhase::WithPassword { attempt: 3 }, false, "Wrong password") {
        ExtractAction::Fail { error, wrong_password } => {
            assert!(wrong_password);
            assert_eq!(error.kind, ArchiveErrorKind::PermissionDenied);
            assert_eq!(error.message, "Too many wrong password attempts.");
        }
        other => panic!("unexpected {:?}", other),
    }
}

#[test]
fn password_attempts_are_bounded() {
    let mut phase = ExtractPhase::Initial;
    let mut asked = 0;
    loop {
        match extract_step(phase, false, "Can not open encrypted archive. Wrong password?") {
            ExtractAction::AskPassword { next, .. } => {
                asked += 1;
                phase = next;
            }
            ExtractAction::Fail { error, .. } => {
                assert_eq!(error.kind, ArchiveErrorKind::PermissionDenied);
                break;
            }
            ExtractAction::Done => panic!("a failed run cannot be done"),
        }
    }
    assert_eq!(asked, MAX_PASSWORD_ATTEMPTS);
}

#[test]
fn repacked_extensions() {
    assert_eq!(repacked_extension("comic.cbz"), "cbz");
    assert_eq!(repacked_extension("Comic.CBZ"), "cbz");
    assert_eq!(repacked_extension("a.zip"), "zip");
    assert_eq!(repacked_extension("a.rar"), "zip");
    assert_eq!(repacked_extension("a.tar.gz"), "zip");
    assert_eq!(repacked_extension("noext"), "zip");
    assert_eq!(repacked_extension_for("cbz"), "cbz");
    assert_eq!(repacked_extension_for("CBZ"), "zip");
}

#[test]
fn blank_output_gives_short_message() {
    let e = archive_failure("extract archive", " \t\r\n\u{a0}\u{3000}\u{2028}");
    assert_eq!(e.message, "7z failed to extract archive");
    let e = repack_failure("\u{85}\u{2000} ");
    assert_eq!(e.message, "7z failed to create the ZIP archive with no error output.");
}

#[test]
fn unicode_white_space_is_trimmed() {
    let e = archive_failure("extract archive", "\u{3000}\u{a0}bad data\u{202f}\n");
    assert_eq!(e.message, "7z failed to extract archive:\nbad data");
    // A zero-width space is not white space.
    let e = archive_failure("extract archive", "\u{200b}x");
    assert_eq!(e.message, "7z failed to extract archive:\n\u{200b}x");
}

#[test]
fn absolute_zip_paths() {
    assert_eq!(absolute_zip_path("/data/a.tmp.archive", None), Some("/data/a.tmp.archive".to_string()));
    assert_eq!(absolute_zip_path("/data/a.tmp.archive", Some("/home/u")), Some("/data/a.tmp.archive".to_string()));
    assert_eq!(absolute_zip_path("a.tmp.archive", None), None);
    assert_eq!(absolute_zip_path("a.tmp.archive", Some("/home/u")), Some("/home/u/a.tmp.archive".to_string()));
    assert_eq!(absolute_zip_path("sub/a.tmp.archive", Some("/home/u/")), Some("/home/u/sub/a.tmp.archive".to_string()));
}
