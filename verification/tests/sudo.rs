use codex_policy::ids::ThreadId;
use codex_policy::protocol::sudo_once::SudoOnceCredential;
use codex_policy::sudo::capability::{
    check_effective_user, check_peer_identity, check_sudo_executable,
    require_secure_exec_dumpability, runtime_capability, seals_complete, sudo_once_available, CapabilityError,
    DumpabilityError,
};
use codex_policy::sudo::command::{SudoOnceCommand, SudoOnceGrant};
use std::sync::Arc;
use codex_policy::sudo::procfs::{
    ancestor_search_step, begin_ancestor_search, process_is_traced, AncestorStep,
    parse_process_stat, parse_tracer_pid, sudo_meets_trust_requirements, ParseIntErrorKind,
    ProcError, ProcessStat,
};
use codex_policy::sudo::wire::{
    check_credential_len, decode_command, decode_exit_status, decode_header, encode_command,
    encode_exit_status, encode_frame, encode_header, take_credential, CommandFrame, Frame,
    FrameKind, WireError, HEADER_LEN, MAX_CREDENTIAL_LEN, MAX_FRAME_LEN,
};
use codex_policy::tui::styled::{SpanStyle, StyledSpan};
use codex_policy::tui::sudo_overlay::{
    approval_prompt_lines, command_line, credential_header_lines, Area, ROOT_WARNING,
    approval_key_action, attempt_line, ApprovalKeyAction, CredentialPrompt, KeyCode, KeyEvent,
    KeyEventKind, ALT, CONTROL, SHIFT, SUPER,
};

const COMMAND: [&str; 3] = ["/usr/bin/printf", "", "%s"];

#[test]
fn command_frame_preserves_the_exact_approved_arguments() {
    let encoded = encode_command(b"/var/empty", &COMMAND.map(str::to_string))
        .expect("encode command");
    assert_eq!(
        decode_command(&encoded).expect("decode command"),
        CommandFrame {
            cwd: b"/var/empty".to_vec(),
            argv: COMMAND.iter().map(|a| a.as_bytes().to_vec()).collect(),
        }
    );
}

#[test]
fn command_frame_layout_and_rejections() {
    let encoded = encode_command(b"/", &["ls".to_string()]).expect("encode");
    assert_eq!(encoded, vec![0, 0, 0, 1, b'/', 0, 0, 0, 1, 0, 0, 0, 2, b'l', b's']);
    assert_eq!(encode_command(b"/", &[]), Err(WireError::InvalidArgumentCount));
    assert_eq!(encode_command(b"", &["ls".to_string()]), Err(WireError::InvalidElement));
    assert_eq!(encode_command(b"/", &["a\0b".to_string()]), Err(WireError::InvalidElement));
    let mut trailing = encoded.clone();
    trailing.push(7);
    assert_eq!(decode_command(&trailing), Err(WireError::TrailingBytes));
    assert_eq!(decode_command(&encoded[..encoded.len() - 1]), Err(WireError::Truncated));
}

fn credential_error(frame: Frame) -> WireError {
    match take_credential(frame) {
        Ok(_) => panic!("credential must be rejected"),
        Err(e) => e,
    }
}

#[test]
fn credential_frame_rejects_payloads_larger_than_askpass_can_accept() {
    let frame = Frame { kind: FrameKind::Credential, payload: vec![0_u8; MAX_CREDENTIAL_LEN + 1] };
    let error = credential_error(frame);
    assert_eq!(error, WireError::InvalidCredential);
    assert_eq!(error.message(), "invalid sudo credential frame");
}

#[test]
fn credential_frames_accept_only_clean_credentials() {
    let frame = Frame { kind: FrameKind::Credential, payload: b"hunter2".to_vec() };
    match take_credential(frame) {
        Ok(credential) => assert_eq!(credential.expose_secret(), b"hunter2"),
        Err(e) => panic!("unexpected {e:?}"),
    }
    for bad in [b"a\nb".to_vec(), b"a\rb".to_vec(), b"a\0b".to_vec()] {
        let frame = Frame { kind: FrameKind::Credential, payload: bad };
        assert_eq!(credential_error(frame), WireError::InvalidCredential);
    }
    let frame = Frame { kind: FrameKind::Cancel, payload: b"x".to_vec() };
    assert_eq!(credential_error(frame), WireError::InvalidCredential);
    assert_eq!(check_credential_len(&[1u8; MAX_CREDENTIAL_LEN]), Ok(()));
    assert_eq!(check_credential_len(&[1u8; MAX_CREDENTIAL_LEN + 1]), Err(WireError::CredentialTooLong));
}

#[test]
fn headers_and_frames_round_trip() {
    let header = encode_header(FrameKind::Exited, 4).expect("header");
    assert_eq!(header.len(), HEADER_LEN);
    assert_eq!(&header[..8], b"CDXSUDO1");
    assert_eq!(header[8], 1);
    assert_eq!(header[9], 21);
    assert_eq!(&header[10..], &[0, 0, 0, 4]);
    assert_eq!(decode_header(header), Ok((FrameKind::Exited, 4)));
    assert_eq!(encode_header(FrameKind::Start, MAX_FRAME_LEN + 1), Err(WireError::FrameTooLarge));

    let mut bad = header;
    bad[0] = b'X';
    assert_eq!(decode_header(bad), Err(WireError::InvalidHeader));
    let mut unknown = header;
    unknown[9] = 99;
    assert_eq!(decode_header(unknown), Err(WireError::UnknownFrameKind));
    let mut large = header;
    large[10] = 0xff;
    assert_eq!(decode_header(large), Err(WireError::FrameTooLarge));

    let frame = encode_frame(FrameKind::Credential, b"pw").expect("frame");
    assert_eq!(frame.len(), HEADER_LEN + 2);
    assert_eq!(&frame[HEADER_LEN..], b"pw");
    assert_eq!(frame[9], FrameKind::Credential.code());
}

#[test]
fn exit_status_round_trips() {
    for code in [0, 1, -1, 255, i32::MIN, i32::MAX] {
        assert_eq!(decode_exit_status(&encode_exit_status(code)), Ok(code));
    }
    assert_eq!(encode_exit_status(258), [0, 0, 1, 2]);
    assert_eq!(decode_exit_status(&[0, 0, 1]), Err(WireError::InvalidExitStatus));
}

#[test]
fn process_stat_reads_parent_and_start_time() {
    let stat = "1234 (my (odd) cmd) S 77 1 1 0 -1 4194560 1 0 0 0 0 0 0 0 20 0 1 0 987654 0 0";
    assert_eq!(
        parse_process_stat(stat),
        Ok(ProcessStat { parent_pid: 77, start_time: 987654 })
    );
    assert_eq!(parse_process_stat("no paren here"), Err(ProcError::InvalidStat));
    assert_eq!(parse_process_stat("1 (x) S"), Err(ProcError::MissingParentPid));
    assert_eq!(parse_process_stat("1 (x) S 2 3"), Err(ProcError::MissingStartTime));
    assert_eq!(
        parse_process_stat("1 (x) S -2"),
        Err(ProcError::Number(ParseIntErrorKind::InvalidDigit))
    );
    assert_eq!(
        parse_process_stat("1 (x) S 4294967296"),
        Err(ProcError::Number(ParseIntErrorKind::PosOverflow))
    );
    assert_eq!(ProcError::MissingStartTime.message(), "process stat omitted start time");
}

#[test]
fn tracer_pid_is_read_from_status() {
    assert_eq!(parse_tracer_pid("Name:\tcat\nTracerPid:\t0\nUid:\t1\n"), Ok(0));
    assert_eq!(parse_tracer_pid("TracerPid:  4321  \n"), Ok(4321));
    assert_eq!(parse_tracer_pid("Name:\tcat\n"), Err(ProcError::MissingTracerPid));
    assert_eq!(
        parse_tracer_pid("TracerPid:\t\n"),
        Err(ProcError::Number(ParseIntErrorKind::Empty))
    );
    assert_eq!(ParseIntErrorKind::Empty.message(), "cannot parse integer from empty string");
}

#[test]
fn capability_checks() {
    assert_eq!(check_effective_user(0), Err(CapabilityError::RunningAsRoot));
    assert_eq!(check_effective_user(1000), Ok(()));
    assert_eq!(check_sudo_executable(true, 0, 0o104755), Ok(()));
    assert_eq!(check_sudo_executable(true, 0, 0o104775), Err(CapabilityError::UntrustedSudo));
    assert_eq!(check_sudo_executable(true, 1, 0o104755), Err(CapabilityError::UntrustedSudo));
    assert_eq!(check_sudo_executable(false, 0, 0o104755), Err(CapabilityError::UntrustedSudo));
    assert_eq!(check_sudo_executable(true, 0, 0o100755), Err(CapabilityError::UntrustedSudo));
    assert!(sudo_meets_trust_requirements(true, 0, 0o4711));
    assert!(!sudo_meets_trust_requirements(true, 0, 0o4600));
    assert_eq!(check_peer_identity(5, 5, 5), Ok(()));
    assert_eq!(check_peer_identity(5, 6, 5), Err(CapabilityError::PeerIdentityMismatch));
    assert_eq!(
        CapabilityError::RunningAsRoot.message(),
        "sudo_once is unavailable for root"
    );
    assert!(sudo_once_available(true, true));
    assert!(!sudo_once_available(true, false));
    assert!(!sudo_once_available(false, true));
    assert!(seals_complete(0b1111, 0b0101));
    assert!(!seals_complete(0b1010, 0b0101));
}

#[test]
fn suid_dumpable_policy() {
    assert_eq!(require_secure_exec_dumpability("0\n"), Ok(()));
    assert_eq!(require_secure_exec_dumpability(" 2 "), Ok(()));
    assert_eq!(require_secure_exec_dumpability("1\n"), Err(DumpabilityError::Ptraceable));
    assert_eq!(require_secure_exec_dumpability("3"), Err(DumpabilityError::InvalidValue));
    assert_eq!(
        require_secure_exec_dumpability("256"),
        Err(DumpabilityError::Number(ParseIntErrorKind::PosOverflow))
    );
    assert_eq!(
        require_secure_exec_dumpability("x"),
        Err(DumpabilityError::Number(ParseIntErrorKind::InvalidDigit))
    );
}

fn press(code: KeyCode, modifiers: u8) -> KeyEvent {
    KeyEvent { code, modifiers, kind: KeyEventKind::Press }
}

#[test]
fn only_unmodified_y_keys_authorize() {
    for code in ['y', 'Y'] {
        assert_eq!(approval_key_action(press(KeyCode::Char(code), 0)), ApprovalKeyAction::Approve);
    }
}

#[test]
fn modified_y_keys_do_not_authorize() {
    for modifiers in [SHIFT, CONTROL, ALT, SUPER, SHIFT | CONTROL | ALT | SUPER] {
        assert_eq!(
            approval_key_action(press(KeyCode::Char('y'), modifiers)),
            ApprovalKeyAction::Ignore
        );
    }
}

#[test]
fn escape_aborts_the_single_use_approval() {
    assert_eq!(approval_key_action(press(KeyCode::Esc, 0)), ApprovalKeyAction::Abort);
    assert_eq!(approval_key_action(press(KeyCode::Char('c'), CONTROL)), ApprovalKeyAction::Abort);
    let release = KeyEvent { code: KeyCode::Esc, modifiers: 0, kind: KeyEventKind::Release };
    assert_eq!(approval_key_action(release), ApprovalKeyAction::Ignore);
    assert_eq!(approval_key_action(press(KeyCode::Char('n'), 0)), ApprovalKeyAction::Ignore);
}

const TEST_CREDENTIAL: &str = "password";

#[test]
fn credential_is_masked_and_never_serialized_with_the_command() {
    let mut prompt = CredentialPrompt::new();
    for character in TEST_CREDENTIAL.chars() {
        assert!(prompt.handle_key_event(press(KeyCode::Char(character), 0)).is_none());
    }
    let line = prompt.masked_line();
    assert!(!line.contains(TEST_CREDENTIAL));
    assert!(line.contains("********"));
    assert_eq!(line, "Password: ********");
    let answer = prompt.handle_key_event(press(KeyCode::Enter, 0)).expect("credential answer");
    let credential = answer.credential.expect("credential");
    assert_eq!(credential.expose_secret(), TEST_CREDENTIAL);
    assert!(!credential.redacted().contains(TEST_CREDENTIAL));
    assert!(prompt.is_complete());
    assert_eq!(prompt.masked_line(), "Password: ");
    assert!(prompt.handle_key_event(press(KeyCode::Enter, 0)).is_none());
}

#[test]
fn esc_submits_a_null_credential() {
    let mut prompt = CredentialPrompt::new();
    let answer = prompt.handle_key_event(press(KeyCode::Esc, 0)).expect("cancel answer");
    assert!(answer.credential.is_none());
    assert!(prompt.is_complete());
}

#[test]
fn credential_editing_keys() {
    let mut prompt = CredentialPrompt::new();
    prompt.handle_key_event(press(KeyCode::Char('a'), SHIFT));
    prompt.handle_key_event(press(KeyCode::Char('b'), CONTROL));
    prompt.handle_key_event(press(KeyCode::Char('c'), 0));
    assert_eq!(prompt.masked_line(), "Password: **");
    prompt.handle_key_event(press(KeyCode::Backspace, 0));
    assert!(prompt.handle_paste("xyz".to_string()));
    let answer = prompt.handle_key_event(press(KeyCode::Enter, 0)).expect("answer");
    assert_eq!(answer.credential.expect("credential").expose_secret(), "axyz");

    let mut cancelled = CredentialPrompt::new();
    assert!(cancelled.on_ctrl_c().expect("cancel").credential.is_none());
    assert!(cancelled.on_ctrl_c().is_none());
    let mut dismissed = CredentialPrompt::new();
    dismissed.handle_paste("secret".to_string());
    dismissed.dismiss();
    assert!(dismissed.is_complete());
    assert_eq!(dismissed.masked_line(), "Password: ");
    assert_eq!(attempt_line(0), "Password attempt 1. Press Esc to cancel.");
}

#[test]
fn sudo_once_credential_and_command_keep_their_values() {
    let credential = SudoOnceCredential::new("s3cret".to_string());
    assert_eq!(credential.expose_secret(), "s3cret");
    assert_eq!(credential.redacted(), "SudoOnceCredential([REDACTED])");
    let command = SudoOnceCommand::new(
        ThreadId::from_u128(9),
        vec!["/usr/bin/id".to_string()],
        "/tmp".to_string(),
        Some("check".to_string()),
    );
    assert_eq!(command.thread_id(), ThreadId::from_u128(9));
    assert_eq!(command.argv(), &["/usr/bin/id".to_string()]);
    assert_eq!(command.cwd(), "/tmp");
    assert_eq!(command.reason(), Some("check"));
    assert_eq!(ThreadId::from_u128(9).as_u128(), 9);
}

#[test]
fn ancestor_search_walks_parents() {
    let (search, step) = begin_ancestor_search(40, 40);
    assert_eq!(step, AncestorStep::Answer(true));
    assert_eq!(search.current, 40);

    let (search, step) = begin_ancestor_search(40, 10);
    assert_eq!(step, AncestorStep::ReadParent(40));
    let (search, step) = ancestor_search_step(search, 30);
    assert_eq!(step, AncestorStep::ReadParent(30));
    let (search, step) = ancestor_search_step(search, 10);
    assert_eq!(step, AncestorStep::Answer(true));
    assert_eq!(search.steps, 2);

    let (search, _) = begin_ancestor_search(5, 10);
    assert_eq!(ancestor_search_step(search, 0).1, AncestorStep::Answer(false));
    assert_eq!(ancestor_search_step(search, 5).1, AncestorStep::Answer(false));

    let (mut search, mut step) = begin_ancestor_search(1000, 1);
    let mut reads = 0;
    while let AncestorStep::ReadParent(pid) = step {
        reads += 1;
        let next = ancestor_search_step(search, pid + 1);
        search = next.0;
        step = next.1;
    }
    assert_eq!(reads, 128);
    assert_eq!(step, AncestorStep::Answer(false));

    assert_eq!(process_is_traced("TracerPid:\t0\n"), Ok(false));
    assert_eq!(process_is_traced("TracerPid:\t77\n"), Ok(true));
    assert_eq!(process_is_traced("Name:\tx\n"), Err(ProcError::MissingTracerPid));
}

fn line(style: SpanStyle, text: &str) -> Vec<StyledSpan> {
    vec![codex_policy::tui::styled::StyledSpan { style, text: text.to_string() }]
}

#[test]
fn approval_snapshot_shows_the_frozen_command_and_warning() {
    let command = SudoOnceCommand::new(
        ThreadId::from_u128(1),
        vec!["/usr/bin/printf".to_string(), "hello world".to_string()],
        "/tmp".to_string(),
        Some("install package".to_string()),
    );
    assert_eq!(command_line(command.argv()), "/usr/bin/printf 'hello world'");
    assert_eq!(
        approval_prompt_lines(&command, 78),
        vec![
            line(SpanStyle::Bold, "Sudo authorization required"),
            line(SpanStyle::RedBold, ROOT_WARNING),
            line(SpanStyle::Plain, ""),
            line(SpanStyle::Bold, "Command:"),
            line(SpanStyle::Plain, "/usr/bin/printf 'hello world'"),
            line(SpanStyle::Bold, "Working directory:"),
            line(SpanStyle::Plain, "/tmp"),
            line(SpanStyle::Bold, "Reason:"),
            line(SpanStyle::Plain, "install package"),
            line(SpanStyle::Plain, ""),
            line(SpanStyle::Dim, "y: authorize once · Esc/Ctrl-C: abort"),
        ]
    );
    let narrow = approval_prompt_lines(&command, 16);
    assert_eq!(narrow[4], line(SpanStyle::Plain, "/usr/bin/printf"));
    assert_eq!(narrow[5], line(SpanStyle::Plain, "'hello world'"));
    let unquotable = SudoOnceCommand::new(
        ThreadId::from_u128(1),
        vec!["a\0b".to_string()],
        "/".to_string(),
        None,
    );
    assert_eq!(command_line(unquotable.argv()), "[command cannot be safely rendered]");
    assert_eq!(approval_prompt_lines(&unquotable, 80).len(), 9);
}

#[test]
fn credential_prompt_header_and_cursor() {
    assert_eq!(
        credential_header_lines(2),
        vec![
            line(SpanStyle::Bold, "Sudo authentication required"),
            line(SpanStyle::Dim, "Password attempt 3. Press Esc to cancel."),
            line(SpanStyle::Plain, ""),
        ]
    );
    let mut prompt = CredentialPrompt::new();
    prompt.handle_paste("abc".to_string());
    assert_eq!(prompt.cursor_pos(Area { x: 2, y: 5, width: 80, height: 4 }), (15, 8));
    assert_eq!(prompt.cursor_pos(Area { x: 2, y: 5, width: 6, height: 2 }), (8, 7));
}

#[test]
fn grant_keeps_the_approved_command_snapshot() {
    let command = Arc::new(SudoOnceCommand::new(
        ThreadId::from_u128(7),
        vec!["id".to_string(), "-u".to_string()],
        "/tmp".to_string(),
        None,
    ));
    let grant = SudoOnceGrant::for_command(Arc::clone(&command));
    assert!(Arc::ptr_eq(&command, grant.command()));
    assert_eq!(grant.command().argv(), ["id".to_string(), "-u".to_string()]);
    let back = grant.into_command();
    assert!(Arc::ptr_eq(&command, &back));
}

#[test]
fn ancestor_search_stops_at_the_step_limit() {
    let search = codex_policy::sudo::procfs::AncestorSearch { ancestor: 1, current: 5, steps: 128 };
    assert_eq!(ancestor_search_step(search, 3), (search, AncestorStep::Answer(false)));
    let search = codex_policy::sudo::procfs::AncestorSearch { ancestor: 1, current: 5, steps: 127 };
    let (next, step) = ancestor_search_step(search, 1);
    assert_eq!(next.steps, 128);
    assert_eq!(step, AncestorStep::Answer(false));
}

#[test]
fn runtime_checks_run_in_order_and_report_the_first_failure() {
    const TRUSTED_MODE: u32 = 0o104755;
    assert_eq!(runtime_capability(1000, true, 0, TRUSTED_MODE, 42, 42, 42), Ok(()));
    assert_eq!(
        runtime_capability(0, false, 1000, 0o644, 1, 2, 42),
        Err(CapabilityError::RunningAsRoot)
    );
    assert_eq!(
        runtime_capability(1000, true, 1000, TRUSTED_MODE, 1, 2, 42),
        Err(CapabilityError::UntrustedSudo)
    );
    assert_eq!(
        runtime_capability(1000, true, 0, TRUSTED_MODE, 42, 7, 42),
        Err(CapabilityError::PeerIdentityMismatch)
    );
    assert!(sudo_once_available(runtime_capability(1000, true, 0, TRUSTED_MODE, 42, 42, 42).is_ok(), true));
}
