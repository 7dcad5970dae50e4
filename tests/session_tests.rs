use trssh::display::TextBlock;
use trssh::geometry::Rgba;
use trssh::handlers::{DoNothing, TextboxMethod};
use trssh::id_map::IdMap;
use trssh::logger::Logger;
use trssh::object_ids::LOGGER;
use trssh::session::{
    remote_path, ChannelOutcome, DownloadOutcome, HandshakeErrorCode, HandshakeEvent, HandshakeStep,
    SSHClient, UploadOutcome,
};
use trssh::store::{NonInteractable, OnlyInteractable};
use trssh::widgets::TextBox;

fn done(stdout: &str) -> ChannelOutcome {
    ChannelOutcome::Completed { stdout: stdout.to_string(), stderr: String::new() }
}

fn run(c: &mut SSHClient, cmd: &str, outcome: ChannelOutcome) -> (String, Result<Vec<String>, String>) {
    let line = c.begin_command(cmd);
    let r = c.execute_command(cmd, true, outcome);
    (line, r)
}

fn history(c: &SSHClient) -> Vec<String> {
    c.get_previous_commands()
}

#[test]
fn first_command_is_sent_alone() {
    let mut c = SSHClient::new();
    let (line, r) = run(&mut c, "ls", done("a\n"));
    assert_eq!(line, "ls");
    assert_eq!(r, Ok(vec!["a\n".to_string()]));
    assert!(history(&c).is_empty());
}

#[test]
fn directory_changes_are_replayed_before_later_commands() {
    let mut c = SSHClient::new();
    run(&mut c, "cd foo", done(""));
    run(&mut c, "touch x", done(""));
    run(&mut c, "cd bar", done(""));
    assert_eq!(history(&c), vec!["cd foo".to_string(), "cd bar".to_string()]);
    let (line, _) = run(&mut c, "pwd", done("/home/bob/foo/bar\n"));
    assert_eq!(line, "cd foo; cd bar; pwd");
}

#[test]
fn absolute_cd_resets_the_replay_list() {
    let mut c = SSHClient::new();
    run(&mut c, "cd a", done(""));
    run(&mut c, "cd b", done(""));
    let (line, _) = run(&mut c, "cd /x", done(""));
    assert_eq!(line, "cd /x");
    assert_eq!(history(&c), vec!["cd /x".to_string()]);
    let (line, _) = run(&mut c, "ls", done(""));
    assert_eq!(line, "cd /x; ls");
    assert_eq!(history(&c).len(), 1);
}

#[test]
fn command_with_error_output_is_not_recorded() {
    let mut c = SSHClient::new();
    let line = c.begin_command("cd nowhere");
    assert_eq!(line, "cd nowhere");
    let r = c.execute_command(
        "cd nowhere",
        true,
        ChannelOutcome::Completed { stdout: String::new(), stderr: "no such dir".to_string() },
    );
    assert_eq!(r, Ok(vec!["Command Failed, Error: no such dir".to_string()]));
    assert!(history(&c).is_empty());
    assert!(c.is_session_still_valid());
}

#[test]
fn command_not_asked_to_be_recorded_is_not() {
    let mut c = SSHClient::new();
    c.begin_command("cd a");
    c.execute_command("cd a", false, done(""));
    assert!(history(&c).is_empty());
}

#[test]
fn each_channel_failure_invalidates_the_session() {
    let cases = [
        (ChannelOutcome::OpenFailed, "[SSH ERROR] There was an error establishing a session-based channel."),
        (ChannelOutcome::ExecFailed, "[SSH ERROR] There was an error executing a command."),
        (ChannelOutcome::ReadFailed, "[SSH ERROR] The channel was unable to read the result of your command."),
        (ChannelOutcome::StderrReadFailed, "[SSH ERROR] The channel was unable to read the error result of your command."),
        (ChannelOutcome::CloseFailed, "[SSH ERROR] The channel was unable to gracefully close."),
    ];
    for (outcome, text) in cases {
        let mut c = SSHClient::new();
        c.begin_command("cd a");
        let r = c.execute_command("cd a", true, outcome);
        assert_eq!(r, Err(text.to_string()));
        assert!(!c.is_session_still_valid());
        assert!(history(&c).is_empty());
    }
}

#[test]
fn remote_path_trims_the_newlines_of_pwd() {
    assert_eq!(remote_path("/home/bob\n", "f.txt"), "/home/bob/f.txt");
    assert_eq!(remote_path("\n/srv\n\n", "a"), "/srv/a");
    assert_eq!(remote_path("", "a"), "/a");
}

#[test]
fn download_outcomes() {
    let mut c = SSHClient::new();
    assert_eq!(c.download_file("f.txt", DownloadOutcome::Saved), Ok("f.txt".to_string()));
    assert_eq!(
        c.download_file("f.txt", DownloadOutcome::RemoteOpenFailed),
        Err("[SSH WARN] Problem creating file link".to_string())
    );
    assert_eq!(
        c.download_file("f.txt", DownloadOutcome::RemoteReadFailed),
        Err("[SSH WARN] There was a problem trying to download the file contents".to_string())
    );
    assert_eq!(
        c.download_file("f.txt", DownloadOutcome::LocalWriteFailed),
        Err("[SSH WARN] Problem creating a local save file to store the data in".to_string())
    );
    assert!(c.is_session_still_valid());
    assert_eq!(
        c.download_file("f.txt", DownloadOutcome::SftpFailed),
        Err("[SSH ERROR] Error establishing an SFTP session".to_string())
    );
    assert!(!c.is_session_still_valid());
}

#[test]
fn upload_outcomes() {
    let mut c = SSHClient::new();
    assert_eq!(
        c.upload_file("f.txt", "/home/bob\n", UploadOutcome::Sent),
        Ok("/home/bob/f.txt".to_string())
    );
    assert_eq!(
        c.upload_file("f.txt", "/d", UploadOutcome::LocalOpenFailed),
        Err("[SSH WARN] There was a problem finding the file to upload".to_string())
    );
    assert_eq!(
        c.upload_file("f.txt", "/d", UploadOutcome::LocalReadFailed),
        Err("[SSH WARN] There was a problem reading the file to upload".to_string())
    );
    assert_eq!(
        c.upload_file("f.txt", "/d", UploadOutcome::RemoteCreateFailed),
        Err("[SSH WARN] Could not create file link in destination folder".to_string())
    );
    assert_eq!(
        c.upload_file("f.txt", "/d", UploadOutcome::RemoteWriteFailed),
        Err("[SSH WARN] Could not write data to target file".to_string())
    );
    assert!(c.is_session_still_valid());
    assert!(c.upload_file("f.txt", "/d", UploadOutcome::SftpFailed).is_err());
    assert!(!c.is_session_still_valid());
}

#[test]
fn upload_and_download_of_a_name_use_one_remote_path() {
    let pwd = "/home/bob\n";
    let mut c = SSHClient::new();
    let up = c.upload_file("data.bin", pwd, UploadOutcome::Sent).unwrap();
    assert_eq!(up, remote_path(pwd, "data.bin"));
}

fn start(c: &mut SSHClient, key: bool) -> HandshakeStep {
    c.make_ssh_handshake(
        "example.com".to_string(),
        "bob".to_string(),
        if key { String::new() } else { "pw".to_string() },
        String::new(),
        if key { "/key".to_string() } else { String::new() },
        String::new(),
        key,
    )
}

fn finished(s: HandshakeStep) -> Result<i8, HandshakeErrorCode> {
    match s {
        HandshakeStep::Finished(r) => r,
        _ => panic!("the handshake should be over"),
    }
}

#[test]
fn handshake_opens_port_22_of_the_host() {
    let mut c = SSHClient::new();
    match start(&mut c, false) {
        HandshakeStep::OpenTcp { address } => assert_eq!(address, "example.com:22"),
        _ => panic!("expected a TCP connection first"),
    }
}

#[test]
fn unreachable_host_is_fatal() {
    let mut c = SSHClient::new();
    start(&mut c, false);
    let r = finished(c.advance_handshake(HandshakeEvent::TcpConnect(false)));
    assert_eq!(r, Err(HandshakeErrorCode::TcpFail));
    assert!(!c.is_session_still_valid());
    assert!(!c.get_login_status());
}

#[test]
fn session_and_stream_failures_are_fatal() {
    let mut c = SSHClient::new();
    start(&mut c, false);
    assert!(matches!(c.advance_handshake(HandshakeEvent::TcpConnect(true)), HandshakeStep::CreateSession));
    assert_eq!(finished(c.advance_handshake(HandshakeEvent::SessionNew(false))), Err(HandshakeErrorCode::SessionFail));
    assert!(!c.is_session_still_valid());

    let mut c = SSHClient::new();
    start(&mut c, false);
    assert!(matches!(c.advance_handshake(HandshakeEvent::SessionNew(true)), HandshakeStep::BindStream));
    assert_eq!(finished(c.advance_handshake(HandshakeEvent::StreamBind(false))), Err(HandshakeErrorCode::TcpFail));
    assert!(!c.is_session_still_valid());
}

#[test]
fn failed_protocol_handshake_is_recoverable() {
    let mut c = SSHClient::new();
    start(&mut c, false);
    assert!(matches!(c.advance_handshake(HandshakeEvent::StreamBind(true)), HandshakeStep::Handshake));
    assert_eq!(finished(c.advance_handshake(HandshakeEvent::Handshake(false))), Err(HandshakeErrorCode::HandshakeFail));
    assert!(c.is_session_still_valid());
}

#[test]
fn password_mode_authenticates_with_the_password() {
    let mut c = SSHClient::new();
    start(&mut c, false);
    match c.advance_handshake(HandshakeEvent::Handshake(true)) {
        HandshakeStep::AuthenticatePassword { username, password } => {
            assert_eq!(username, "bob");
            assert_eq!(password, "pw");
        }
        _ => panic!("expected password authentication"),
    }
    let r = finished(c.advance_handshake(HandshakeEvent::Auth { accepted: true, authenticated: true }));
    assert_eq!(r, Ok(1));
    assert!(c.get_login_status());
    assert!(c.is_session_still_valid());
}

#[test]
fn key_mode_leaves_out_empty_parts() {
    let mut c = SSHClient::new();
    start(&mut c, true);
    match c.advance_handshake(HandshakeEvent::Handshake(true)) {
        HandshakeStep::AuthenticateKey { username, public_key, private_key, passphrase } => {
            assert_eq!(username, "bob");
            assert_eq!(public_key, None);
            assert_eq!(private_key, "/key");
            assert_eq!(passphrase, None);
        }
        _ => panic!("expected key authentication"),
    }
}

#[test]
fn refused_credentials_are_recoverable() {
    let mut c = SSHClient::new();
    start(&mut c, false);
    let r = finished(c.advance_handshake(HandshakeEvent::Auth { accepted: false, authenticated: false }));
    assert_eq!(r, Err(HandshakeErrorCode::LoginAuthFail));
    assert!(c.is_session_still_valid());
    assert!(!c.get_login_status());
}

#[test]
fn unauthenticated_session_after_success_is_fatal() {
    let mut c = SSHClient::new();
    start(&mut c, false);
    let r = finished(c.advance_handshake(HandshakeEvent::Auth { accepted: true, authenticated: false }));
    assert_eq!(r, Err(HandshakeErrorCode::SessionAuthFail));
    assert!(!c.is_session_still_valid());
}

fn login_form(values: [&str; 6]) -> (IdMap<OnlyInteractable>, IdMap<NonInteractable>) {
    let mut only = IdMap::new();
    let c = Rgba::new(0, 0, 0, 255);
    for (k, v) in values.iter().enumerate() {
        let mut t = TextBox::new(
            0,
            0,
            10,
            10,
            c,
            c,
            c,
            String::new(),
            TextboxMethod::DoNothing(DoNothing),
            TextBlock::new(0, 0, c, String::new(), 20),
            false,
            false,
            true,
        );
        t.force_set_text(v.to_string());
        only.insert(k as u32 + 1, OnlyInteractable::TextBox(t));
    }
    let mut none = IdMap::new();
    none.insert(LOGGER, NonInteractable::Logger(Logger::new(0, 0, 1080, 840, 5, 20, c, String::new())));
    (only, none)
}

fn logged(none: &IdMap<NonInteractable>) -> Vec<String> {
    let i = none.find(LOGGER).unwrap();
    match none.value_at(i) {
        NonInteractable::Logger(l) => l.get_lines(),
        _ => panic!("no logger"),
    }
}

fn armed_client() -> SSHClient {
    let mut c = SSHClient::new();
    c.init();
    c.update_login_field_values(1, 2, 3, 4, 5, 6);
    c
}

fn box_text(only: &IdMap<OnlyInteractable>, id: u32) -> String {
    match only.value_at(only.find(id).unwrap()) {
        OnlyInteractable::TextBox(t) => t.get_text(),
        _ => panic!("not a text box"),
    }
}

#[test]
fn password_together_with_key_is_rejected_before_connecting() {
    let (mut only, mut none) = login_form(["example.com", "bob", "pw", "", "/key", ""]);
    let mut c = armed_client();
    let r = c.update(&mut only, &mut none);
    assert!(r.is_none());
    assert_eq!(
        logged(&none),
        vec!["[SSH CONNECT] Please SSH using only SSH Keys or by password, not both.".to_string()]
    );
    assert_eq!(c.get_login_field_values(), (0, 0, 0, 0, 0, 0));
    for id in 1..=6 {
        assert_eq!(box_text(&only, id), "");
    }
}

#[test]
fn missing_hostname_is_rejected() {
    let (mut only, mut none) = login_form(["", "bob", "pw", "", "", ""]);
    let mut c = armed_client();
    assert!(c.update(&mut only, &mut none).is_none());
    assert_eq!(
        logged(&none),
        vec!["[SSH CONNECT] There is a missing piece of info before attempting to log in.".to_string()]
    );
}

#[test]
fn login_waits_until_all_ids_are_set() {
    let (mut only, mut none) = login_form(["example.com", "bob", "pw", "", "", ""]);
    let mut c = SSHClient::new();
    c.update_login_field_values(1, 2, 3, 4, 5, 0);
    assert!(c.update(&mut only, &mut none).is_none());
    assert_eq!(box_text(&only, 1), "example.com");
    assert!(logged(&none).is_empty());
}

#[test]
fn key_login_whose_authentication_fails_logs_once_and_stays_valid() {
    let (mut only, mut none) = login_form(["example.com", "bob", "", "", "/key", ""]);
    let mut c = armed_client();
    let req = c.update(&mut only, &mut none).expect("a handshake is due");
    assert!(req.key_instead_of_password);
    assert_eq!(req.hostname, "example.com");
    assert_eq!(req.private_key, "/key");
    c.make_ssh_handshake(
        req.hostname,
        req.username,
        req.password,
        req.public_key,
        req.private_key,
        req.passphrase,
        req.key_instead_of_password,
    );
    c.advance_handshake(HandshakeEvent::TcpConnect(true));
    c.advance_handshake(HandshakeEvent::SessionNew(true));
    c.advance_handshake(HandshakeEvent::StreamBind(true));
    assert!(matches!(
        c.advance_handshake(HandshakeEvent::Handshake(true)),
        HandshakeStep::AuthenticateKey { .. }
    ));
    let r = finished(c.advance_handshake(HandshakeEvent::Auth { accepted: false, authenticated: false }));
    assert_eq!(r, Err(HandshakeErrorCode::LoginAuthFail));
    c.report_handshake(r, &mut none);
    let lines = logged(&none);
    assert_eq!(lines.iter().filter(|l| l.contains("Failed to authenticate a login")).count(), 1);
    assert!(c.is_session_still_valid());
}

#[test]
fn no_new_login_after_a_fatal_failure() {
    let (mut only, mut none) = login_form(["example.com", "bob", "pw", "", "", ""]);
    let mut c = armed_client();
    let req = c.update(&mut only, &mut none).expect("a handshake is due");
    c.make_ssh_handshake(
        req.hostname,
        req.username,
        req.password,
        req.public_key,
        req.private_key,
        req.passphrase,
        req.key_instead_of_password,
    );
    let r = finished(c.advance_handshake(HandshakeEvent::TcpConnect(false)));
    assert_eq!(r, Err(HandshakeErrorCode::TcpFail));
    c.report_handshake(r, &mut none);
    assert_eq!(logged(&none), vec!["[SSH ERROR] Failed to establish a TCP Connection".to_string()]);
    let (mut only2, _) = login_form(["example.com", "bob", "pw", "", "", ""]);
    c.update_login_field_values(1, 2, 3, 4, 5, 6);
    assert!(c.update(&mut only2, &mut none).is_none());
    assert_eq!(box_text(&only2, 1), "example.com");
}

#[test]
fn successful_login_is_reported_with_the_host() {
    let (_, mut none) = login_form(["", "", "", "", "", ""]);
    let mut c = SSHClient::new();
    c.init();
    start(&mut c, false);
    let r = finished(c.advance_handshake(HandshakeEvent::Auth { accepted: true, authenticated: true }));
    c.report_handshake(r, &mut none);
    assert_eq!(logged(&none), vec!["[SSH INFO] Successful SSH into example.com".to_string()]);
}
