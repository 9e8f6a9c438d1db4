//! Archive handling driven through the `7z` tool: which files count as
//! archives, the tool's argument lists, how its error output is read, and the
//! password-retry protocol of extraction.

use vstd::prelude::*;
use vstd::string::StringExecFns;
use vstd::string::StrSliceExecFns;
use crate::text::{
    is_absolute_path, is_white_space, joined_path, lemma_blank_trims_to_empty, path_is_absolute,
    path_join,
    chars_of, contains_chars, ends_with_chars, extension_of, file_name_of, has_substring, has_suffix, lowercase,
    lowercased, path_extension, path_file_name, push_owned, same_text, push_text, trim, trimmed, views,
};

verus! {

broadcast use vstd::string::group_string_axioms;

/// The name of the archive tool that is run.
pub const SEVEN_ZIP: &'static str = "7z";

/// How many passwords extraction asks for before giving up.
pub const MAX_PASSWORD_ATTEMPTS: u32 = 3;

/// The category of an archive error, as the caller reports it.
#[derive(Debug, Clone, Copy, PartialEq, Eq, Structural)]
pub enum ArchiveErrorKind {
    /// The tool failed for a reason of its own.
    Other,
    /// Every password that was tried was rejected.
    PermissionDenied,
}

/// An error of archive extraction or creation.
#[derive(Debug)]
pub struct ArchiveError {
    pub kind: ArchiveErrorKind,
    pub message: String,
}

// ---------------------------------------------------------------------------
// Archive names
// ---------------------------------------------------------------------------

/// A lowercase file name that ends in one of the archive extensions.
pub open spec fn archive_name(name: Seq<char>) -> bool {
    ||| has_suffix(name, ".zip"@)
    ||| has_suffix(name, ".cbz"@)
    ||| has_suffix(name, ".7z"@)
    ||| has_suffix(name, ".rar"@)
    ||| has_suffix(name, ".tar"@)
    ||| has_suffix(name, ".gz"@)
    ||| has_suffix(name, ".bz2"@)
    ||| has_suffix(name, ".xz"@)
    ||| has_suffix(name, ".tgz"@)
    ||| has_suffix(name, ".tbz2"@)
    ||| has_suffix(name, ".txz"@)
    ||| has_suffix(name, ".tar.gz"@)
    ||| has_suffix(name, ".tar.bz2"@)
    ||| has_suffix(name, ".tar.xz"@)
}

/// Whether an already lowercased file name ends in an archive extension.
pub fn is_archive_name(lower_name: &str) -> (r: bool)
    ensures
        r == archive_name(lower_name@),
{
    let name = chars_of(lower_name);
    ends_with_chars(&name, &chars_of(".zip")) || ends_with_chars(&name, &chars_of(".cbz"))
        || ends_with_chars(&name, &chars_of(".7z")) || ends_with_chars(&name, &chars_of(".rar"))
        || ends_with_chars(&name, &chars_of(".tar")) || ends_with_chars(&name, &chars_of(".gz"))
        || ends_with_chars(&name, &chars_of(".bz2")) || ends_with_chars(&name, &chars_of(".xz"))
        || ends_with_chars(&name, &chars_of(".tgz")) || ends_with_chars(
        &name,
        &chars_of(".tbz2"),
    ) || ends_with_chars(&name, &chars_of(".txz")) || ends_with_chars(
        &name,
        &chars_of(".tar.gz"),
    ) || ends_with_chars(&name, &chars_of(".tar.bz2")) || ends_with_chars(
        &name,
        &chars_of(".tar.xz"),
    )
}

/// Whether the file named by `path` is an archive that `7z` can unpack, judged by the
/// lowercased final component of the path. A path without a final component is none.
pub fn is_supported_archive(path: &str) -> (r: bool)
    ensures
        r == match file_name_of(path@) {
            Some(name) => archive_name(lowercased(name)),
            None => false,
        },
{
    match path_file_name(path) {
        Some(name) => {
            let lower = lowercase(name.as_str());
            is_archive_name(lower.as_str())
        },
        None => false,
    }
}

// ---------------------------------------------------------------------------
// Error output of the tool
// ---------------------------------------------------------------------------

/// Lowercase error output that shows the archive is encrypted or the password was wrong.
pub open spec fn password_markers(lower: Seq<char>) -> bool {
    ||| has_substring(lower, "wrong password"@)
    ||| has_substring(lower, "can not open encrypted archive"@)
    ||| has_substring(lower, "encrypted archive"@)
    ||| has_substring(lower, "data error in encrypted file"@)
    ||| has_substring(lower, "break signaled"@)
    ||| has_substring(lower, "headers error"@)
}

/// Whether already lowercased error output holds one of the password markers.
pub fn has_password_marker(lower: &str) -> (r: bool)
    ensures
        r == password_markers(lower@),
{
    let text = chars_of(lower);
    contains_chars(&text, &chars_of("wrong password")) || contains_chars(
        &text,
        &chars_of("can not open encrypted archive"),
    ) || contains_chars(&text, &chars_of("encrypted archive")) || contains_chars(
        &text,
        &chars_of("data error in encrypted file"),
    ) || contains_chars(&text, &chars_of("break signaled")) || contains_chars(
        &text,
        &chars_of("headers error"),
    )
}

/// Whether the tool's error output, read without regard to case, says that the archive
/// needs a (different) password.
pub fn looks_password_protected(stderr: &str) -> (r: bool)
    ensures
        r == password_markers(lowercased(stderr@)),
{
    let lower = lowercase(stderr);
    has_password_marker(lower.as_str())
}

/// The message for a failed `action`, given the tool's trimmed error output.
pub open spec fn failure_message(action: Seq<char>, trimmed_stderr: Seq<char>) -> Seq<char> {
    if trimmed_stderr.len() == 0 {
        "7z failed to "@ + action
    } else {
        "7z failed to "@ + action + ":\n"@ + trimmed_stderr
    }
}

/// The error for a failed `action`, given the tool's error output already trimmed.
fn failure_from_trimmed(action: &str, trimmed_stderr: &str) -> (e: ArchiveError)
    ensures
        e.kind == ArchiveErrorKind::Other,
        e.message@ == failure_message(action@, trimmed_stderr@),
{
    let mut message = String::from_str("7z failed to ");
    message.append(action);
    if trimmed_stderr.unicode_len() != 0 {
        message.append(":\n");
        message.append(trimmed_stderr);
    }
    ArchiveError { kind: ArchiveErrorKind::Other, message }
}

/// The error for a failed `action`, quoting the tool's error output with surrounding
/// white space removed, or naming only the action where nothing else is left.
pub fn archive_failure(action: &str, stderr: &str) -> (e: ArchiveError)
    ensures
        e.kind == ArchiveErrorKind::Other,
        e.message@ == failure_message(action@, trimmed(stderr@)),
{
    failure_from_trimmed(action, trim(stderr))
}

/// The message when creating the ZIP archive failed, given the trimmed error output.
pub open spec fn repack_failure_message(trimmed_stderr: Seq<char>) -> Seq<char> {
    if trimmed_stderr.len() == 0 {
        "7z failed to create the ZIP archive with no error output."@
    } else {
        "7z failed to create the ZIP archive:\n"@ + trimmed_stderr
    }
}

/// The error when creating the ZIP archive failed, given the error output already trimmed.
fn repack_failure_from_trimmed(trimmed_stderr: &str) -> (e: ArchiveError)
    ensures
        e.kind == ArchiveErrorKind::Other,
        e.message@ == repack_failure_message(trimmed_stderr@),
{
    if trimmed_stderr.unicode_len() == 0 {
        ArchiveError {
            kind: ArchiveErrorKind::Other,
            message: String::from_str("7z failed to create the ZIP archive with no error output."),
        }
    } else {
        let mut message = String::from_str("7z failed to create the ZIP archive:\n");
        message.append(trimmed_stderr);
        ArchiveError { kind: ArchiveErrorKind::Other, message }
    }
}

/// The error when creating the ZIP archive failed, quoting the trimmed error output.
pub fn repack_failure(stderr: &str) -> (e: ArchiveError)
    ensures
        e.kind == ArchiveErrorKind::Other,
        e.message@ == repack_failure_message(trimmed(stderr@)),
{
    repack_failure_from_trimmed(trim(stderr))
}

/// Error output made only of white space is not quoted: the message names the action alone.
pub proof fn lemma_blank_output_short_message(action: Seq<char>, stderr: Seq<char>)
    requires
        forall|i: int| 0 <= i < stderr.len() ==> is_white_space(#[trigger] stderr[i]),
    ensures
        failure_message(action, trimmed(stderr)) == "7z failed to "@ + action,
        repack_failure_message(trimmed(stderr))
            == "7z failed to create the ZIP archive with no error output."@,
{
    lemma_blank_trims_to_empty(stderr);
}

// ---------------------------------------------------------------------------
// Argument lists
// ---------------------------------------------------------------------------

/// The arguments of `7z` that extract `archive_path` into `extract_to`, with a password
/// where one is given (an empty one still passes the bare `-p` switch).
pub open spec fn extract_args(
    archive_path: Seq<char>,
    extract_to: Seq<char>,
    password: Option<Seq<char>>,
) -> Seq<Seq<char>> {
    let head = seq!["x"@, "-y"@, "-o"@ + extract_to];
    let pw = match password {
        None => Seq::<Seq<char>>::empty(),
        Some(p) => if p.len() > 0 {
            seq!["-p"@ + p]
        } else {
            seq!["-p"@]
        },
    };
    head + pw + seq![archive_path]
}

/// Builds the argument list of [`extract_args`].
pub fn seven_zip_extract_args(archive_path: &str, extract_to: &str, password: Option<&str>) -> (args:
    Vec<String>)
    ensures
        views(args@) == extract_args(
            archive_path@,
            extract_to@,
            match password {
                Some(p) => Some(p@),
                None => None,
            },
        ),
{
    let mut args: Vec<String> = Vec::new();
    push_text(&mut args, "x");
    push_text(&mut args, "-y");
    let mut out = String::from_str("-o");
    out.append(extract_to);
    push_owned(&mut args, out);
    match password {
        Some(pw) => {
            if pw.unicode_len() != 0 {
                let mut p = String::from_str("-p");
                p.append(pw);
                push_owned(&mut args, p);
            } else {
                push_text(&mut args, "-p");
            }
        },
        None => {},
    }
    push_text(&mut args, archive_path);
    args
}

/// The arguments of `7z`, run inside the source directory, that pack everything there
/// into a ZIP archive at `absolute_zip_path` with maximum compression.
pub open spec fn repack_args(absolute_zip_path: Seq<char>) -> Seq<Seq<char>> {
    seq!["a"@, "-tzip"@, "-mx=9"@, absolute_zip_path, "*"@]
}

/// Builds the argument list of [`repack_args`].
pub fn repack_zip_args(absolute_zip_path: &str) -> (args: Vec<String>)
    ensures
        views(args@) == repack_args(absolute_zip_path@),
{
    let mut args: Vec<String> = Vec::new();
    push_text(&mut args, "a");
    push_text(&mut args, "-tzip");
    push_text(&mut args, "-mx=9");
    push_text(&mut args, absolute_zip_path);
    push_text(&mut args, "*");
    args
}

/// Where the ZIP archive is written, as an absolute path, since `7z` runs inside the source
/// directory: `zip_path` itself where it is absolute, else `zip_path` joined onto the working
/// directory. `None` where the path is relative and no working directory is given, so that the
/// caller reads the working directory only when it is needed.
pub fn absolute_zip_path(zip_path: &str, working_dir: Option<&str>) -> (r: Option<String>)
    ensures
        match r {
            Some(p) => if is_absolute_path(zip_path@) {
                p@ == zip_path@
            } else {
                working_dir is Some && p@ == joined_path(working_dir->0@, zip_path@)
            },
            None => !is_absolute_path(zip_path@) && working_dir is None,
        },
{
    if path_is_absolute(zip_path) {
        Some(String::from_str(zip_path))
    } else {
        match working_dir {
            Some(dir) => Some(path_join(dir, zip_path)),
            None => None,
        }
    }
}

// ---------------------------------------------------------------------------
// Password entry
// ---------------------------------------------------------------------------

/// `s` with every carriage return and line feed at its end removed.
pub open spec fn without_line_ending(s: Seq<char>) -> Seq<char>
    decreases s.len(),
{
    if s.len() > 0 && (s.last() == '\r' || s.last() == '\n') {
        without_line_ending(s.drop_last())
    } else {
        s
    }
}

/// The password typed on a line read from the terminal: the line without its ending.
pub fn password_from_line(line: &str) -> (pw: String)
    ensures
        pw@ == without_line_ending(line@),
{
    let chars = chars_of(line);
    let mut end: usize = chars.len();
    assert(chars@.take(end as int) =~= chars@);
    while end > 0 && (chars[end - 1] == '\r' || chars[end - 1] == '\n')
        invariant
            end <= chars@.len(),
            chars@ == line@,
            without_line_ending(chars@.take(end as int)) == without_line_ending(line@),
        decreases end,
    {
        assert(chars@.take(end as int).drop_last() =~= chars@.take(end - 1));
        end = end - 1;
    }
    assert(chars@.take(end as int) =~= line@.subrange(0, end as int));
    String::from_str(line.substring_char(0, end))
}

/// Removing the line ending keeps a prefix of the line, removes only carriage returns and
/// line feeds, and leaves none of them at the end.
pub proof fn lemma_line_ending_removed(s: Seq<char>)
    ensures
        ({
            let p = without_line_ending(s);
            &&& p.len() <= s.len()
            &&& p == s.take(p.len() as int)
            &&& forall|i: int| p.len() <= i < s.len() ==> s[i] == '\r' || s[i] == '\n'
            &&& p.len() > 0 ==> p.last() != '\r' && p.last() != '\n'
        }),
    decreases s.len(),
{
    if s.len() > 0 && (s.last() == '\r' || s.last() == '\n') {
        let d = s.drop_last();
        lemma_line_ending_removed(d);
        let p = without_line_ending(d);
        assert(p == s.take(p.len() as int)) by {
            assert(d.take(p.len() as int) =~= s.take(p.len() as int));
        }
        assert forall|i: int| p.len() <= i < s.len() implies s[i] == '\r' || s[i] == '\n' by {
            if i < d.len() {
                assert(s[i] == d[i]);
            }
        }
    } else {
        assert(s.take(s.len() as int) =~= s);
    }
}

// ---------------------------------------------------------------------------
// Extraction protocol
// ---------------------------------------------------------------------------

/// Which run of the extraction tool has just finished.
#[derive(Debug, Clone, Copy, PartialEq, Eq, Structural)]
pub enum ExtractPhase {
    /// The first run, made without a password.
    Initial,
    /// The run made with the `attempt`-th password that was typed (counting from 1).
    WithPassword { attempt: u32 },
}

/// What to do after a run of the extraction tool.
#[derive(Debug)]
pub enum ExtractAction {
    /// The archive is extracted.
    Done,
    /// Ask for a password and run the tool with it; the run is then in phase `next`.
    /// Where `wrong_password`, first tell the user that the last password was wrong.
    AskPassword { next: ExtractPhase, wrong_password: bool },
    /// Give up with `error`; where `wrong_password`, first tell the user that the last
    /// password was wrong.
    Fail { error: ArchiveError, wrong_password: bool },
}

/// The phase of the next run, where the run that just finished in `phase` calls for one:
/// it failed, its error output shows a password problem, and the attempts are not used up.
pub open spec fn next_phase(phase: ExtractPhase, success: bool, protected: bool) -> Option<
    ExtractPhase,
> {
    if success || !protected {
        None
    } else {
        match phase {
            ExtractPhase::Initial => Some(ExtractPhase::WithPassword { attempt: 1 }),
            ExtractPhase::WithPassword { attempt } => if attempt < MAX_PASSWORD_ATTEMPTS {
                Some(ExtractPhase::WithPassword { attempt: (attempt + 1) as u32 })
            } else {
                None
            },
        }
    }
}

/// The decision after a run of the extraction tool in `phase` that succeeded or not and
/// wrote `stderr`. A success ends it. A failure whose error output shows no password problem
/// is reported with that output. A password problem leads to asking for a password, at most
/// [`MAX_PASSWORD_ATTEMPTS`] times; a rejected password is announced as wrong, and once the
/// attempts are used up extraction fails with a permission error.
pub fn extract_step(phase: ExtractPhase, success: bool, stderr: &str) -> (action: ExtractAction)
    ensures
        success ==> action is Done,
        !success ==> action !is Done,
        action is AskPassword <==> next_phase(
            phase,
            success,
            password_markers(lowercased(stderr@)),
        ) is Some,
        match action {
            ExtractAction::Done => true,
            ExtractAction::AskPassword { next, wrong_password } => {
                &&& Some(next) == next_phase(
                    phase,
                    success,
                    password_markers(lowercased(stderr@)),
                )
                &&& wrong_password == (phase != ExtractPhase::Initial)
            },
            ExtractAction::Fail { error, wrong_password } => if password_markers(
                lowercased(stderr@),
            ) {
                &&& phase != ExtractPhase::Initial
                &&& wrong_password
                &&& error.kind == ArchiveErrorKind::PermissionDenied
                &&& error.message@ == "Too many wrong password attempts."@
            } else {
                &&& !wrong_password
                &&& error.kind == ArchiveErrorKind::Other
                &&& error.message@ == failure_message("extract archive"@, trimmed(stderr@))
            },
        },
{
    if success {
        return ExtractAction::Done;
    }
    if !looks_password_protected(stderr) {
        return ExtractAction::Fail {
            error: archive_failure("extract archive", stderr),
            wrong_password: false,
        };
    }
    match phase {
        ExtractPhase::Initial => ExtractAction::AskPassword {
            next: ExtractPhase::WithPassword { attempt: 1 },
            wrong_password: false,
        },
        ExtractPhase::WithPassword { attempt } => {
            if attempt < MAX_PASSWORD_ATTEMPTS {
                ExtractAction::AskPassword {
                    next: ExtractPhase::WithPassword { attempt: attempt + 1 },
                    wrong_password: true,
                }
            } else {
                ExtractAction::Fail {
                    error: ArchiveError {
                        kind: ArchiveErrorKind::PermissionDenied,
                        message: String::from_str("Too many wrong password attempts."),
                    },
                    wrong_password: true,
                }
            }
        },
    }
}

/// The number of passwords asked for when extraction starts in `phase` and the runs end as
/// `runs` says, each as (succeeded, error output shows a password problem). Runs after the
/// protocol has stopped are not made.
pub open spec fn passwords_asked(phase: ExtractPhase, runs: Seq<(bool, bool)>) -> nat
    decreases runs.len(),
{
    if runs.len() == 0 {
        0
    } else {
        match next_phase(phase, runs[0].0, runs[0].1) {
            None => 0,
            Some(next) => 1 + passwords_asked(next, runs.drop_first()),
        }
    }
}

proof fn lemma_passwords_left(attempt: u32, runs: Seq<(bool, bool)>)
    requires
        1 <= attempt <= MAX_PASSWORD_ATTEMPTS,
    ensures
        passwords_asked(ExtractPhase::WithPassword { attempt }, runs) <= MAX_PASSWORD_ATTEMPTS
            - attempt,
    decreases runs.len(),
{
    if runs.len() > 0 {
        let p = ExtractPhase::WithPassword { attempt };
        match next_phase(p, runs[0].0, runs[0].1) {
            None => {},
            Some(next) => {
                lemma_passwords_left((attempt + 1) as u32, runs.drop_first());
            },
        }
    }
}

/// However the runs of the extraction tool turn out, extraction asks for at most
/// [`MAX_PASSWORD_ATTEMPTS`] passwords.
pub proof fn lemma_password_attempts_bounded(runs: Seq<(bool, bool)>)
    ensures
        passwords_asked(ExtractPhase::Initial, runs) <= MAX_PASSWORD_ATTEMPTS,
{
    if runs.len() > 0 {
        match next_phase(ExtractPhase::Initial, runs[0].0, runs[0].1) {
            None => {},
            Some(next) => {
                lemma_passwords_left(1, runs.drop_first());
            },
        }
    }
}

// ---------------------------------------------------------------------------
// The repacked archive
// ---------------------------------------------------------------------------

/// The extension of the repacked archive, given the original's lowercased extension:
/// a comic book archive stays one, everything else becomes a ZIP file.
pub open spec fn repacked_extension_text(lower_ext: Seq<char>) -> Seq<char> {
    if lower_ext == "cbz"@ {
        "cbz"@
    } else {
        "zip"@
    }
}

/// The extension of the repacked archive for an already lowercased original extension.
pub fn repacked_extension_for(lower_ext: &str) -> (r: String)
    ensures
        r@ == repacked_extension_text(lower_ext@),
{
    if same_text(lower_ext, "cbz") {
        String::from_str("cbz")
    } else {
        String::from_str("zip")
    }
}

/// The extension that the archive at `archive_path` has once repacked: `cbz` where its own
/// extension is `cbz` in any case, `zip` otherwise (also where it has none).
pub fn repacked_extension(archive_path: &str) -> (r: String)
    ensures
        r@ == match extension_of(archive_path@) {
            Some(ext) => repacked_extension_text(lowercased(ext)),
            None => "zip"@,
        },
{
    match path_extension(archive_path) {
        Some(ext) => {
            let lower = lowercase(ext.as_str());
            repacked_extension_for(lower.as_str())
        },
        None => String::from_str("zip"),
    }
}

// ---------------------------------------------------------------------------
// Laws
// ---------------------------------------------------------------------------

/// A lowercase file name is an archive name exactly when it ends in one of the fourteen
/// suffixes of the formats handed to `7z`; a name ending in anything else (`.mp4`, `.jpg`)
/// is not one.
pub proof fn lemma_archive_names_are_the_fourteen_suffixes(name: Seq<char>)
    ensures
        ({
            let suffixes = seq![
                ".zip"@,
                ".cbz"@,
                ".7z"@,
                ".rar"@,
                ".tar"@,
                ".gz"@,
                ".bz2"@,
                ".xz"@,
                ".tgz"@,
                ".tbz2"@,
                ".txz"@,
                ".tar.gz"@,
                ".tar.bz2"@,
                ".tar.xz"@,
            ];
            archive_name(name) <==> exists|k: int|
                0 <= k < 14 && has_suffix(name, #[trigger] suffixes[k])
        }),
{
    let l = seq![
        ".zip"@,
        ".cbz"@,
        ".7z"@,
        ".rar"@,
        ".tar"@,
        ".gz"@,
        ".bz2"@,
        ".xz"@,
        ".tgz"@,
        ".tbz2"@,
        ".txz"@,
        ".tar.gz"@,
        ".tar.bz2"@,
        ".tar.xz"@,
    ];
    assert(l[0] == ".zip"@ && l[1] == ".cbz"@ && l[2] == ".7z"@ && l[3] == ".rar"@ && l[4]
        == ".tar"@ && l[5] == ".gz"@ && l[6] == ".bz2"@ && l[7] == ".xz"@ && l[8] == ".tgz"@
        && l[9] == ".tbz2"@ && l[10] == ".txz"@ && l[11] == ".tar.gz"@ && l[12] == ".tar.bz2"@
        && l[13] == ".tar.xz"@);
    if exists|k: int| 0 <= k < 14 && has_suffix(name, #[trigger] l[k]) {
        let k = choose|k: int| 0 <= k < 14 && has_suffix(name, #[trigger] l[k]);
        assert(archive_name(name));
    }
}

/// A failed run counts as a password problem exactly when its lowercased error output holds
/// one of the six password messages of `7z`.
pub proof fn lemma_password_problem_is_one_of_six_messages(lower: Seq<char>)
    ensures
        ({
            let messages = seq![
                "wrong password"@,
                "can not open encrypted archive"@,
                "encrypted archive"@,
                "data error in encrypted file"@,
                "break signaled"@,
                "headers error"@,
            ];
            password_markers(lower) <==> exists|k: int|
                0 <= k < 6 && has_substring(lower, #[trigger] messages[k])
        }),
{
    let l = seq![
        "wrong password"@,
        "can not open encrypted archive"@,
        "encrypted archive"@,
        "data error in encrypted file"@,
        "break signaled"@,
        "headers error"@,
    ];
    assert(l[0] == "wrong password"@ && l[1] == "can not open encrypted archive"@ && l[2]
        == "encrypted archive"@ && l[3] == "data error in encrypted file"@ && l[4]
        == "break signaled"@ && l[5] == "headers error"@);
    if exists|k: int| 0 <= k < 6 && has_substring(lower, #[trigger] l[k]) {
        let k = choose|k: int| 0 <= k < 6 && has_substring(lower, #[trigger] l[k]);
        assert(password_markers(lower));
    }
}

/// A failed run whose error output, lowercased, holds none of the six password messages
/// (such as "can not open the file as archive") asks for no password, in any phase: the
/// extraction ends there, reporting that output.
pub proof fn lemma_other_failures_ask_no_password(phase: ExtractPhase, stderr: Seq<char>)
    requires
        !has_substring(lowercased(stderr), "wrong password"@),
        !has_substring(lowercased(stderr), "can not open encrypted archive"@),
        !has_substring(lowercased(stderr), "encrypted archive"@),
        !has_substring(lowercased(stderr), "data error in encrypted file"@),
        !has_substring(lowercased(stderr), "break signaled"@),
        !has_substring(lowercased(stderr), "headers error"@),
    ensures
        !password_markers(lowercased(stderr)),
        next_phase(phase, false, password_markers(lowercased(stderr))) is None,
{
}

/// A first run that fails with one of the six password messages leads to asking for the
/// first password.
pub proof fn lemma_password_message_asks_first_password(stderr: Seq<char>, k: int)
    requires
        0 <= k < 6,
        has_substring(
            lowercased(stderr),
            seq![
                "wrong password"@,
                "can not open encrypted archive"@,
                "encrypted archive"@,
                "data error in encrypted file"@,
                "break signaled"@,
                "headers error"@,
            ][k],
        ),
    ensures
        next_phase(ExtractPhase::Initial, false, password_markers(lowercased(stderr))) == Some(
            ExtractPhase::WithPassword { attempt: 1 },
        ),
{
    lemma_password_problem_is_one_of_six_messages(lowercased(stderr));
}

/// The repacked archive is always a `cbz` or a `zip` file (the format `7z` writes with
/// `-tzip`), and it is a `cbz` file exactly when the original's lowercased extension is `cbz`.
pub proof fn lemma_repacked_as_cbz_or_zip(lower_ext: Seq<char>)
    ensures
        repacked_extension_text(lower_ext) == "cbz"@ || repacked_extension_text(lower_ext)
            == "zip"@,
        repacked_extension_text(lower_ext) == "cbz"@ <==> lower_ext == "cbz"@,
{
    reveal_strlit("cbz");
    reveal_strlit("zip");
    assert("cbz"@ != "zip"@) by {
        assert("cbz"@[0] != "zip"@[0]);
    }
}

/// When every run fails with a password problem, exactly three passwords are asked for,
/// one after each failed run, before extraction gives up.
pub proof fn lemma_three_passwords_when_always_rejected(runs: Seq<(bool, bool)>)
    requires
        runs.len() >= 4,
        forall|i: int| 0 <= i < runs.len() ==> #[trigger] runs[i] == (false, true),
    ensures
        passwords_asked(ExtractPhase::Initial, runs) == 3,
{
    let r1 = runs.drop_first();
    let r2 = r1.drop_first();
    let r3 = r2.drop_first();
    assert(runs[0] == (false, true));
    assert(r1[0] == runs[1]);
    assert(r2[0] == runs[2]);
    assert(r3[0] == runs[3]);
    assert(passwords_asked(ExtractPhase::WithPassword { attempt: 3 }, r3) == 0);
    assert(passwords_asked(ExtractPhase::WithPassword { attempt: 2 }, r2) == 1);
    assert(passwords_asked(ExtractPhase::WithPassword { attempt: 1 }, r1) == 2);
}

/// A run that succeeds ends extraction at once, whatever the phase: no password is asked for.
pub proof fn lemma_success_asks_nothing(phase: ExtractPhase, runs: Seq<(bool, bool)>)
    requires
        runs.len() > 0,
        runs[0].0,
    ensures
        passwords_asked(phase, runs) == 0,
{
}

/// The extraction arguments: extract with full paths (`x`), answer yes to every question,
/// write into the target directory, pass `-p` followed by the password where one is given
/// (nothing more for an empty one), and name the archive last.
pub proof fn lemma_extract_args_shape(
    archive_path: Seq<char>,
    extract_to: Seq<char>,
    password: Option<Seq<char>>,
)
    ensures
        ({
            let a = extract_args(archive_path, extract_to, password);
            &&& a.take(3) == seq!["x"@, "-y"@, "-o"@ + extract_to]
            &&& a.last() == archive_path
            &&& password is None ==> a.len() == 4
            &&& password matches Some(p) ==> a.len() == 5 && a[3] == "-p"@ + p
        }),
{
    let a = extract_args(archive_path, extract_to, password);
    assert(a.take(3) =~= seq!["x"@, "-y"@, "-o"@ + extract_to]);
    if let Some(p) = password {
        if p.len() == 0 {
            assert("-p"@ + p =~= "-p"@);
        }
    }
}

/// The repacking arguments: add (`a`) to a ZIP archive (`-tzip`) at maximum compression
/// (`-mx=9`) at the given path, everything in the directory (`*`).
pub proof fn lemma_repack_args_shape(absolute_zip_path: Seq<char>)
    ensures
        repack_args(absolute_zip_path) == seq![
            "a"@,
            "-tzip"@,
            "-mx=9"@,
            absolute_zip_path,
            "*"@,
        ],
{
}

/// A failure message names the action after "7z failed to ", and quotes the trimmed error
/// output after a colon and a line break exactly where some is left.
pub proof fn lemma_failure_message_shape(action: Seq<char>, stderr: Seq<char>)
    ensures
        ({
            let t = trimmed(stderr);
            let m = failure_message(action, t);
            &&& m.take(13 + action.len() as int) == "7z failed to "@ + action
            &&& t.len() == 0 ==> m == "7z failed to "@ + action
            &&& t.len() > 0 ==> m == "7z failed to "@ + action + ":\n"@ + t
        }),
{
    reveal_strlit("7z failed to ");
    let t = trimmed(stderr);
    let m = failure_message(action, t);
    assert(m.take(13 + action.len() as int) =~= "7z failed to "@ + action);
}

} // verus!
