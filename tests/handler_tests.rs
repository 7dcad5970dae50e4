use trssh::display::{RaytracerWindow, TextBlock};
use trssh::geometry::Rgba;
use trssh::handlers::{
    AddLogLine, DownloadFile, ExecuteCommand, HandlerJob, RemoteReply, RemoteRequest, SSHConnect, Step,
    ToggleRaytracer, UploadDirectory, UploadFile,
};
use trssh::id_map::IdMap;
use trssh::layout::init_graphics_objects_main;
use trssh::logger::Logger;
use trssh::object_ids::{COMMAND_BOX, LOGGER, LOGIN_BUTTON, SSHCLIENT};
use trssh::session::{ChannelOutcome, DownloadOutcome, HandshakeEvent, SSHClient, UploadOutcome};
use trssh::store::{HiddenManager, NonInteractable, OnlyInteractable};
use trssh::window_manager::WindowManager;

fn white() -> Rgba {
    Rgba::new(255, 255, 255, 255)
}

fn parts() -> IdMap<NonInteractable> {
    let mut p = IdMap::new();
    p.insert(LOGGER, NonInteractable::Logger(Logger::new(0, 0, 1080, 840, 5, 20, white(), String::new())));
    p
}

fn lines(p: &IdMap<NonInteractable>) -> Vec<String> {
    match p.value_at(p.find(LOGGER).unwrap()) {
        NonInteractable::Logger(l) => l.get_lines(),
        _ => panic!("no logger"),
    }
}

fn hidden(logged_in: bool) -> IdMap<HiddenManager> {
    let mut c = SSHClient::new();
    c.init();
    if logged_in {
        c.make_ssh_handshake(
            "h".to_string(),
            "u".to_string(),
            "p".to_string(),
            String::new(),
            String::new(),
            String::new(),
            false,
        );
        c.advance_handshake(HandshakeEvent::Auth { accepted: true, authenticated: true });
    }
    let mut h = IdMap::new();
    h.insert(SSHCLIENT, HiddenManager::SSHClient(c));
    h
}

fn client(h: &IdMap<HiddenManager>) -> &SSHClient {
    match h.value_at(h.find(SSHCLIENT).unwrap()) {
        HiddenManager::SSHClient(c) => c,
    }
}

fn done(stdout: &str) -> ChannelOutcome {
    ChannelOutcome::Completed { stdout: stdout.to_string(), stderr: String::new() }
}

fn request(step: Step) -> (HandlerJob, RemoteRequest) {
    match step {
        Step::Request(j, r) => (j, r),
        Step::Done(_) => panic!("expected a request"),
    }
}

fn finished(step: Step) -> Option<IdMap<NonInteractable>> {
    match step {
        Step::Done(r) => r,
        Step::Request(..) => panic!("expected the handler to finish"),
    }
}

fn command_of(r: RemoteRequest) -> String {
    match r {
        RemoteRequest::RunCommand(c) => c,
        _ => panic!("expected a command"),
    }
}

#[test]
fn command_before_login_asks_to_log_in() {
    let mut h = hidden(false);
    let p = finished(ExecuteCommand.on_enter(COMMAND_BOX, parts(), &mut h, "ls")).unwrap();
    assert_eq!(lines(&p), vec!["[SSH WARNING] Please log in before running commands".to_string()]);
}

#[test]
fn command_output_is_logged_after_the_echo() {
    let mut h = hidden(true);
    let (job, req) = request(ExecuteCommand.on_enter(COMMAND_BOX, parts(), &mut h, "ls"));
    assert_eq!(command_of(req), "ls");
    let p = finished(job.resume(RemoteReply::Channel(done("a\nb\n")), &mut h)).unwrap();
    assert_eq!(lines(&p), vec![">>> ls".to_string(), "a".to_string(), "b".to_string()]);
}

#[test]
fn failed_channel_is_logged_as_an_execution_error() {
    let mut h = hidden(true);
    let (job, _) = request(ExecuteCommand.on_enter(COMMAND_BOX, parts(), &mut h, "ls"));
    let p = finished(job.resume(RemoteReply::Channel(ChannelOutcome::ExecFailed), &mut h)).unwrap();
    assert_eq!(
        lines(&p),
        vec![">>> ls".to_string(), "Execution Error: [SSH ERROR] There was an error executing a command.".to_string()]
    );
    assert!(!client(&h).is_session_still_valid());
}

#[test]
fn clear_command_empties_the_logger() {
    let mut h = hidden(true);
    let (job, _) = request(ExecuteCommand.on_enter(COMMAND_BOX, parts(), &mut h, "clear"));
    let p = finished(job.resume(RemoteReply::Channel(done("")), &mut h)).unwrap();
    assert!(lines(&p).is_empty());
}

#[test]
fn overlong_output_is_cut() {
    let mut h = hidden(true);
    let (job, _) = request(ExecuteCommand.on_enter(COMMAND_BOX, parts(), &mut h, "cat big"));
    let big = "x".repeat(100_000);
    let p = finished(job.resume(RemoteReply::Channel(done(&big)), &mut h)).unwrap();
    let total: usize = lines(&p).iter().skip(1).map(|l| l.len()).sum();
    assert_eq!(total, 99_999);
}

#[test]
fn download_fetches_the_file_from_the_working_directory() {
    let mut h = hidden(true);
    let (job, req) = request(DownloadFile.on_enter(9, parts(), &mut h, "f.txt"));
    assert_eq!(command_of(req), "pwd");
    let (job, req) = request(job.resume(RemoteReply::Channel(done("/home/bob\n")), &mut h));
    match req {
        RemoteRequest::Download { remote_path, local_path } => {
            assert_eq!(remote_path, "/home/bob/f.txt");
            assert_eq!(local_path, "f.txt");
        }
        _ => panic!("expected a download"),
    }
    let p = finished(job.resume(RemoteReply::Downloaded(DownloadOutcome::Saved), &mut h)).unwrap();
    assert_eq!(lines(&p), vec!["Downloaded file to f.txt".to_string()]);
}

#[test]
fn upload_sends_the_file_into_the_working_directory() {
    let mut h = hidden(true);
    let (job, _) = request(UploadFile.on_enter(10, parts(), &mut h, "f.txt"));
    let (job, req) = request(job.resume(RemoteReply::Channel(done("/home/bob\n")), &mut h));
    match req {
        RemoteRequest::Upload { local_path, remote_path } => {
            assert_eq!(local_path, "f.txt");
            assert_eq!(remote_path, "/home/bob/f.txt");
        }
        _ => panic!("expected an upload"),
    }
    let p = finished(job.resume(RemoteReply::Uploaded(UploadOutcome::Sent), &mut h)).unwrap();
    assert_eq!(lines(&p), vec!["Uploaded file to /home/bob/f.txt".to_string()]);
}

#[test]
fn transfer_without_login_asks_to_log_in() {
    let mut h = hidden(false);
    let p = finished(DownloadFile.on_enter(9, parts(), &mut h, "f.txt")).unwrap();
    assert_eq!(lines(&p), vec!["[SSH WARNING] Please log in before transferring files".to_string()]);
    let p = finished(UploadFile.on_enter(10, parts(), &mut h, "f.txt")).unwrap();
    assert_eq!(lines(&p), vec!["[SSH WARNING] Please log in before transferring files".to_string()]);
}

#[test]
fn pwd_with_error_output_is_logged_not_used() {
    let mut h = hidden(true);
    let (job, _) = request(DownloadFile.on_enter(9, parts(), &mut h, "f.txt"));
    let err = ChannelOutcome::Completed { stdout: String::new(), stderr: "denied".to_string() };
    let p = finished(job.resume(RemoteReply::Channel(err), &mut h)).unwrap();
    assert_eq!(lines(&p), vec!["Command Failed, Error: denied".to_string()]);
}

#[test]
fn upload_of_a_plain_file_as_directory_is_refused() {
    let mut h = hidden(true);
    let (job, req) = request(UploadDirectory.on_enter(11, parts(), &mut h, "notes.txt"));
    assert!(matches!(req, RemoteRequest::CheckDirectory(ref p) if p == "notes.txt"));
    let p = finished(job.resume(RemoteReply::IsDirectory(false), &mut h)).unwrap();
    assert_eq!(lines(&p), vec!["[SSH WARN] This file is not a directory".to_string()]);
}

#[test]
fn directory_upload_makes_directories_then_sends_files() {
    let mut h = hidden(true);
    let (job, _) = request(UploadDirectory.on_enter(11, parts(), &mut h, "d"));
    let (job, req) = request(job.resume(RemoteReply::IsDirectory(true), &mut h));
    assert!(matches!(req, RemoteRequest::ListTree(ref p) if p == "d"));
    let tree = (vec!["d/a.txt".to_string()], vec!["d".to_string()]);
    let (job, req) = request(job.resume(RemoteReply::Tree(Some(tree)), &mut h));
    assert_eq!(command_of(req), "mkdir d");
    let (job, req) = request(job.resume(RemoteReply::Channel(done("")), &mut h));
    assert_eq!(command_of(req), "pwd");
    let (job, req) = request(job.resume(RemoteReply::Channel(done("/srv\n")), &mut h));
    match req {
        RemoteRequest::Upload { local_path, remote_path } => {
            assert_eq!(local_path, "d/a.txt");
            assert_eq!(remote_path, "/srv/d/a.txt");
        }
        _ => panic!("expected an upload"),
    }
    let p = finished(job.resume(RemoteReply::Uploaded(UploadOutcome::Sent), &mut h)).unwrap();
    assert_eq!(lines(&p), vec!["Uploaded file to /srv/d/a.txt".to_string()]);
}

#[test]
fn failed_mkdir_stops_the_file_uploads() {
    let mut h = hidden(true);
    let (job, _) = request(UploadDirectory.on_enter(11, parts(), &mut h, "d"));
    let (job, _) = request(job.resume(RemoteReply::IsDirectory(true), &mut h));
    let tree = (vec!["d/a.txt".to_string()], vec!["d".to_string()]);
    let (job, _) = request(job.resume(RemoteReply::Tree(Some(tree)), &mut h));
    let p = finished(job.resume(RemoteReply::Channel(ChannelOutcome::ReadFailed), &mut h)).unwrap();
    assert_eq!(
        lines(&p),
        vec!["[SSH WARN] Files were not uploaded: a directory could not be made or the session is unusable".to_string()]
    );
}

#[test]
fn unreadable_tree_is_logged() {
    let mut h = hidden(true);
    let (job, _) = request(UploadDirectory.on_enter(11, parts(), &mut h, "d"));
    let (job, _) = request(job.resume(RemoteReply::IsDirectory(true), &mut h));
    let p = finished(job.resume(RemoteReply::Tree(None), &mut h)).unwrap();
    assert_eq!(lines(&p), vec!["[SSH WARN] Could not list the files of that directory".to_string()]);
}

#[test]
fn add_log_line_logs_the_text() {
    let p = AddLogLine.on_enter(1, parts(), "hello").unwrap();
    assert_eq!(lines(&p), vec!["hello".to_string()]);
}

#[test]
fn connect_button_registers_the_login_boxes() {
    let mut h = hidden(false);
    assert!(SSHConnect.on_click(LOGIN_BUTTON, parts(), &mut h).is_none());
    assert_eq!(client(&h).get_login_field_values(), (1, 2, 3, 4, 5, 6));
}

#[test]
fn toggle_button_switches_its_raytracer() {
    let mut p = IdMap::new();
    p.insert(13, NonInteractable::RaytracerWindow(RaytracerWindow::new(0, 0, 10, 10, white())));
    let p = ToggleRaytracer { target: 13 }.on_click(12, p).unwrap();
    match p.value_at(0) {
        NonInteractable::RaytracerWindow(w) => assert!(w.get_render_status()),
        _ => panic!("not a raytracer"),
    }
}

#[test]
fn default_layout_holds_the_form_logger_and_session() {
    let mut none = IdMap::new();
    let mut only = IdMap::new();
    let mut hid = IdMap::new();
    init_graphics_objects_main(&mut none, &mut only, &mut hid);
    assert_eq!(only.len(), 11);
    assert!(matches!(none.value_at(none.find(LOGGER).unwrap()), NonInteractable::Logger(_)));
    assert!(matches!(only.value_at(only.find(LOGIN_BUTTON).unwrap()), OnlyInteractable::Button(_)));
    assert!(hid.find(SSHCLIENT).is_some());
}

#[test]
fn window_manager_installs_a_handler_result() {
    let mut wm = WindowManager::new(1772, 900, white());
    init_graphics_objects_main(
        &mut wm.non_interactable_components,
        &mut wm.only_interactable_components,
        &mut wm.hidden_components,
    );
    wm.init();
    wm.prefill_login_fields(Some("example.com".to_string()), None, None, None, None);
    let snapshot = wm.get_non_interactable_graphics_components();
    let p = AddLogLine.on_enter(1, snapshot, "x").unwrap();
    wm.install(Some(p));
    assert_eq!(lines(&wm.non_interactable_components), vec!["x".to_string()]);
    let text = match wm.only_interactable_components.value_at(0) {
        OnlyInteractable::TextBox(t) => t.get_text(),
        _ => panic!("not a text box"),
    };
    assert_eq!(text, "example.com");
}

#[test]
fn missing_path_is_not_a_directory() {
    assert!(!trssh::local_fs::is_directory("/no/such/dir/anywhere"));
    assert!(trssh::local_fs::is_directory("/"));
}

#[test]
fn default_layout_keeps_widget_and_display_ids_apart() {
    let mut none = IdMap::new();
    let mut only = IdMap::new();
    let mut hid = IdMap::new();
    init_graphics_objects_main(&mut none, &mut only, &mut hid);
    for i in 0..only.len() {
        assert!(none.find(only.id_at(i)).is_none());
    }
    let ids: Vec<u32> = (0..only.len()).map(|i| only.id_at(i)).collect();
    assert_eq!(ids, (1..=11).collect::<Vec<u32>>());
    assert_eq!(hid.len(), 1);
    let c = client(&hid);
    assert!(c.is_session_still_valid());
    assert!(!c.get_login_status());
    assert_eq!(c.get_login_field_values(), (0, 0, 0, 0, 0, 0));
}

#[test]
fn start_up_masks_the_password_box_and_finds_the_logger() {
    let mut wm = WindowManager::new(1772, 900, white());
    init_graphics_objects_main(
        &mut wm.non_interactable_components,
        &mut wm.only_interactable_components,
        &mut wm.hidden_components,
    );
    wm.init();
    let i = wm.only_interactable_components.find(3).unwrap();
    match wm.only_interactable_components.value_at(i) {
        OnlyInteractable::TextBox(t) => assert!(t.text_container.password_mode),
        _ => panic!("not a text box"),
    }
    assert_eq!(client(&wm.hidden_components).get_logger_id(), LOGGER);
}
