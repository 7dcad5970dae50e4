use vstd::prelude::*;

use crate::display::RaytracerWindow;
use crate::id_map::{ids_increasing, lemma_position_unique, lemma_update_keeps_positions, position_of, value_of, IdMap};
use crate::object_ids::{
    LOGGER, PASSPHRASE_BOX, PASSWORD_BOX, PRIVATE_KEY_BOX, PUBLIC_KEY_BOX, SSHCLIENT, USERNAME_BOX, HOSTNAME_BOX,
};
use crate::session::{
    channel_error, spec_composite, history_before_run, history_after_success, ChannelOutcome, ClientView,
    DownloadOutcome, UploadOutcome, SSHClient, remote_path, spec_remote_path, COMMAND_FAILED,
};
use crate::store::{clear_log, lemma_logged_nothing, lemma_logged_twice, log_to, logged_into, HiddenManager, NonInteractable};
use crate::text::{chars_of, slice_chars, string_of};
use crate::user_interaction::Invocation;
use crate::widgets::{Button, TextBox};

verus! {

/// Hands the login form's field ids to the session manager.
#[derive(Clone, Copy, Debug, PartialEq, Eq, Structural)]
pub struct SSHConnect;

/// Switches the noise rendering of the raytracer panel stored under `target`.
#[derive(Clone, Copy, Debug, PartialEq, Eq, Structural)]
pub struct ToggleRaytracer {
    pub target: u32,
}

/// Ignores Enter.
#[derive(Clone, Copy, Debug, PartialEq, Eq, Structural)]
pub struct DoNothing;

/// Copies the text into the logger.
#[derive(Clone, Copy, Debug, PartialEq, Eq, Structural)]
pub struct AddLogLine;

/// Runs the text as a remote command and logs what it printed.
#[derive(Clone, Copy, Debug, PartialEq, Eq, Structural)]
pub struct ExecuteCommand;

/// Downloads the named file from the remote working directory.
#[derive(Clone, Copy, Debug, PartialEq, Eq, Structural)]
pub struct DownloadFile;

/// Uploads a local directory tree into the remote working directory.
#[derive(Clone, Copy, Debug, PartialEq, Eq, Structural)]
pub struct UploadDirectory;

/// Uploads the named local file into the remote working directory.
#[derive(Clone, Copy, Debug, PartialEq, Eq, Structural)]
pub struct UploadFile;

/// The click behaviour a button carries.
#[derive(Clone, Copy, Debug, PartialEq, Eq, Structural)]
pub enum ButtonHandler {
    SSHConnect(SSHConnect),
    ToggleRaytracer(ToggleRaytracer),
}

/// The Enter behaviour a text box carries.
#[derive(Clone, Copy, Debug, PartialEq, Eq, Structural)]
pub enum TextboxMethod {
    DoNothing(DoNothing),
    AddLogLine(AddLogLine),
    ExecuteCommand(ExecuteCommand),
    DownloadFile(DownloadFile),
    UploadDirectory(UploadDirectory),
    UploadFile(UploadFile),
}


pub const LOGIN_FIRST: &'static str = "[SSH WARNING] Please log in before running commands";
pub const TRANSFER_LOGIN_FIRST: &'static str = "[SSH WARNING] Please log in before transferring files";
pub const TREE_UNREADABLE: &'static str = "[SSH WARN] Could not list the files of that directory";
pub const FILES_SKIPPED: &'static str = "[SSH WARN] Files were not uploaded: a directory could not be made or the session is unusable";
pub const COMMAND_ECHO: &'static str = ">>> ";
pub const EXECUTION_ERROR: &'static str = "Execution Error: ";
pub const DOWNLOADED_TO: &'static str = "Downloaded file to ";
pub const UPLOADED_TO: &'static str = "Uploaded file to ";
pub const NOT_A_DIRECTORY: &'static str = "[SSH WARN] This file is not a directory";

/// Command output longer than this many characters is cut before logging.
pub const MAX_LOGGER_LINE_LENGTH: usize = 99999;

/// A line of command output as it is logged.
pub open spec fn truncated(l: Seq<char>) -> Seq<char> {
    if l.len() > MAX_LOGGER_LINE_LENGTH {
        l.take(MAX_LOGGER_LINE_LENGTH as int)
    } else {
        l
    }
}

/// The session manager's state, if the hidden set holds it.
pub open spec fn client_view(h: Seq<(u32, HiddenManager)>) -> Option<ClientView> {
    match value_of(h, SSHCLIENT) {
        Some(HiddenManager::SSHClient(c)) => Some(c@),
        None => None,
    }
}

/// `b` is the hidden set `a` with the session manager's state now `v`.
pub open spec fn client_now(
    a: Seq<(u32, HiddenManager)>,
    b: Seq<(u32, HiddenManager)>,
    v: ClientView,
) -> bool {
    &&& position_of(a, SSHCLIENT) is Some
    &&& b.len() == a.len()
    &&& forall|k: int| 0 <= k < a.len() && k != position_of(a, SSHCLIENT).unwrap() ==> b[k] == a[k]
    &&& b[position_of(a, SSHCLIENT).unwrap()].0 == SSHCLIENT
    &&& b[position_of(a, SSHCLIENT).unwrap()].1 matches HiddenManager::SSHClient(c) && c@ == v
}

/// Whether the snapshot holds a logger under the well-known id.
pub open spec fn has_logger(p: Seq<(u32, NonInteractable)>) -> bool {
    value_of(p, LOGGER) matches Some(NonInteractable::Logger(_))
}

/// Whether remote work may be started.
pub open spec fn usable(v: ClientView) -> bool {
    v.have_logged_in && v.session_still_valid
}

/// What a finished command logs: the echoed command, then its output or
/// its error.
pub open spec fn command_log(text: Seq<char>, o: ChannelOutcome) -> Seq<Seq<char>> {
    seq![COMMAND_ECHO@ + text] + match o {
        ChannelOutcome::Completed { stdout, stderr } => if stderr@.len() > 0 {
            seq![truncated(COMMAND_FAILED@ + stderr@)]
        } else {
            seq![truncated(stdout@)]
        },
        _ => seq![EXECUTION_ERROR@ + channel_error(o)],
    }
}

/// What the state of `c` becomes when a command settles with `o`.
pub open spec fn after_command(
    c: ClientView,
    text: Seq<char>,
    add: bool,
    o: ChannelOutcome,
) -> ClientView {
    match o {
        ChannelOutcome::Completed { stdout, stderr } => if stderr@.len() > 0 {
            c
        } else {
            ClientView { previous_commands: history_after_success(c.previous_commands, text, add), ..c }
        },
        _ => ClientView { session_still_valid: false, ..c },
    }
}

/// The handler ended, handing back `parts` untouched, and the hidden set
/// did not change.
pub open spec fn ended_as_is(
    r: Step,
    parts: IdMap<NonInteractable>,
    h0: Seq<(u32, HiddenManager)>,
    h1: Seq<(u32, HiddenManager)>,
) -> bool {
    r matches Step::Done(Some(p)) && p == parts && h1 == h0
}

/// Remote or local work a handler needs done before it can go on.
pub enum RemoteRequest {
    /// Run this line on a fresh command channel.
    RunCommand(String),
    /// Fetch the remote file into the local file.
    Download { remote_path: String, local_path: String },
    /// Send the local file to the remote path.
    Upload { local_path: String, remote_path: String },
    /// Say whether the local path is a directory.
    CheckDirectory(String),
    /// List the files and the directories (itself first) under a local directory.
    ListTree(String),
}

/// The outcome of a `RemoteRequest`.
pub enum RemoteReply {
    Channel(ChannelOutcome),
    Downloaded(DownloadOutcome),
    Uploaded(UploadOutcome),
    IsDirectory(bool),
    Tree(Option<(Vec<String>, Vec<String>)>),
}

/// Where a handler stands while it waits for a reply.
#[derive(Clone, Copy, Debug, PartialEq, Eq, Structural)]
pub enum Phase {
    /// The user's command is running.
    Command,
    /// `pwd` runs ahead of a download.
    DownloadDir,
    Download,
    /// `pwd` runs ahead of an upload.
    UploadDir,
    Upload,
    TreeCheck,
    TreeList,
    /// `mkdir` of the directory at this index runs.
    TreeMkdir { index: usize },
    /// `pwd` runs ahead of the upload of the file at this index.
    TreePwd { index: usize },
    TreeUpload { index: usize },
}

/// A handler waiting for a reply, with the snapshot it will hand back.
pub struct HandlerJob {
    pub phase: Phase,
    pub parts: IdMap<NonInteractable>,
    pub text: String,
    pub directory: String,
    pub dirs: Vec<String>,
    pub files: Vec<String>,
    pub directory_success: bool,
}

/// What a handler does next: ask for work, or finish with the snapshot
/// that replaces the display store (`None`: keep the store).
pub enum Step {
    Request(HandlerJob, RemoteRequest),
    Done(Option<IdMap<NonInteractable>>),
}

pub(crate) fn find_client(h: &IdMap<HiddenManager>) -> (r: Option<usize>)
    requires
        h.wf(),
    ensures
        r == match position_of(h@, SSHCLIENT) {
            Some(i) => Some(i as usize),
            None => None::<usize>,
        },
        r matches Some(i) ==> i < h@.len() && h@[i as int].0 == SSHCLIENT && client_view(h@) == Some(
            match h@[i as int].1 {
                HiddenManager::SSHClient(c) => c@,
            },
        ),
        r is None ==> client_view(h@) is None,
{
    let r = h.find(SSHCLIENT);
    proof {
        if let Some(i) = r {
            lemma_position_unique(h@, i as int);
        }
    }
    r
}

pub(crate) fn client_at(h: &mut IdMap<HiddenManager>, i: usize) -> (c: &mut SSHClient)
    requires
        old(h).wf(),
        i < old(h)@.len(),
        old(h)@[i as int].0 == SSHCLIENT,
    ensures
        old(h)@[i as int].1 == HiddenManager::SSHClient(*c),
        final(h)@ == old(h)@.update(i as int, (SSHCLIENT, HiddenManager::SSHClient(*final(c)))),
{
    match h.value_at_mut(i) {
        HiddenManager::SSHClient(c) => c,
    }
}

pub(crate) proof fn lemma_client_now(a: Seq<(u32, HiddenManager)>, i: int, c: SSHClient)
    requires
        ids_increasing(a),
        0 <= i < a.len(),
        a[i].0 == SSHCLIENT,
    ensures
        client_now(a, a.update(i, (SSHCLIENT, HiddenManager::SSHClient(c))), c@),
        ids_increasing(a.update(i, (SSHCLIENT, HiddenManager::SSHClient(c)))),
        client_view(a.update(i, (SSHCLIENT, HiddenManager::SSHClient(c)))) == Some(c@),
{
    lemma_position_unique(a, i);
    lemma_update_keeps_positions(a, i, HiddenManager::SSHClient(c), SSHCLIENT);
    lemma_position_unique(a.update(i, (SSHCLIENT, HiddenManager::SSHClient(c))), i);
}

fn has_logger_exec(p: &IdMap<NonInteractable>) -> (r: bool)
    requires
        p.wf(),
    ensures
        r == has_logger(p@),
{
    match p.find(LOGGER) {
        Some(i) => {
            proof {
                lemma_position_unique(p@, i as int);
            }
            match p.value_at(i) {
                NonInteractable::Logger(_) => true,
                _ => false,
            }
        },
        None => false,
    }
}

fn cut_line(l: &String) -> (r: String)
    ensures
        r@ == truncated(l@),
{
    let cs = chars_of(l.as_str());
    if cs.len() > MAX_LOGGER_LINE_LENGTH {
        let kept = slice_chars(&cs, 0, MAX_LOGGER_LINE_LENGTH);
        string_of(&kept)
    } else {
        l.clone()
    }
}

fn concat(a: &str, b: &str) -> (r: String)
    ensures
        r@ == a@ + b@,
{
    let mut r = a.to_string();
    r.append(b);
    r
}

/// `h1` is `h0` with the six login box ids handed to the session manager.
pub open spec fn login_boxes_registered(
    h0: Seq<(u32, HiddenManager)>,
    h1: Seq<(u32, HiddenManager)>,
) -> bool {
    match client_view(h0) {
        Some(v) => client_now(
            h0,
            h1,
            ClientView {
                login_field_values: (
                    HOSTNAME_BOX,
                    USERNAME_BOX,
                    PASSWORD_BOX,
                    PUBLIC_KEY_BOX,
                    PRIVATE_KEY_BOX,
                    PASSPHRASE_BOX,
                ),
                ..v
            },
        ),
        None => h1 == h0,
    }
}

/// `r` is the snapshot `parts` with the raytracer under `target`, if any,
/// switched.
pub open spec fn raytracer_toggled(
    parts: Seq<(u32, NonInteractable)>,
    target: u32,
    r: Option<IdMap<NonInteractable>>,
) -> bool {
    r matches Some(p) && p.wf() && match value_of(parts, target) {
        Some(NonInteractable::RaytracerWindow(w)) => p@ == parts.update(
            position_of(parts, target).unwrap(),
            (target, NonInteractable::RaytracerWindow(RaytracerWindow { render: !w.render, ..w })),
        ),
        _ => p@ == parts,
    }
}

/// What a click handler does.
pub open spec fn clicked(
    handler: ButtonHandler,
    parts: Seq<(u32, NonInteractable)>,
    h0: Seq<(u32, HiddenManager)>,
    h1: Seq<(u32, HiddenManager)>,
    r: Option<IdMap<NonInteractable>>,
) -> bool {
    match handler {
        ButtonHandler::SSHConnect(_) => r is None && login_boxes_registered(h0, h1),
        ButtonHandler::ToggleRaytracer(t) => raytracer_toggled(parts, t.target, r) && h1 == h0,
    }
}

impl SSHConnect {
    /// Registers the six login boxes with the session manager; the display
    /// store is kept.
    pub fn on_click(
        &self,
        button_id: u32,
        win_man_parts: IdMap<NonInteractable>,
        win_man_hiddens: &mut IdMap<HiddenManager>,
    ) -> (r: Option<IdMap<NonInteractable>>)
        requires
            old(win_man_hiddens).wf(),
        ensures
            r is None,
            final(win_man_hiddens).wf(),
            login_boxes_registered(old(win_man_hiddens)@, final(win_man_hiddens)@),
    {
        if let Some(i) = find_client(win_man_hiddens) {
            let ghost a = win_man_hiddens@;
            let c = client_at(win_man_hiddens, i);
            c.update_login_field_values(
                HOSTNAME_BOX,
                USERNAME_BOX,
                PASSWORD_BOX,
                PUBLIC_KEY_BOX,
                PRIVATE_KEY_BOX,
                PASSPHRASE_BOX,
            );
            proof {
                lemma_client_now(a, i as int, *c);
            }
        }
        None
    }
}

impl ToggleRaytracer {
    /// Switches the rendering of the raytracer panel under `target`; any
    /// other entity there, or none, is left alone.
    pub fn on_click(&self, button_id: u32, win_man_parts: IdMap<NonInteractable>) -> (r: Option<
        IdMap<NonInteractable>,
    >)
        requires
            win_man_parts.wf(),
        ensures
            raytracer_toggled(win_man_parts@, self.target, r),
    {
        let mut parts = win_man_parts;
        if let Some(i) = parts.find(self.target) {
            let ghost a = parts@;
            proof {
                lemma_position_unique(a, i as int);
            }
            let v = parts.value_at_mut(i);
            if let NonInteractable::RaytracerWindow(w) = v {
                w.change_render_status();
            }
            proof {
                lemma_update_keeps_positions(a, i as int, parts@[i as int].1, 0);
                if !(value_of(a, self.target) matches Some(NonInteractable::RaytracerWindow(_))) {
                    assert(parts@ =~= a);
                }
            }
        }
        Some(parts)
    }
}

impl ButtonHandler {
    pub fn on_click(
        &self,
        button_id: u32,
        win_man_parts: IdMap<NonInteractable>,
        win_man_hiddens: &mut IdMap<HiddenManager>,
    ) -> (r: Option<IdMap<NonInteractable>>)
        requires
            win_man_parts.wf(),
            old(win_man_hiddens).wf(),
        ensures
            final(win_man_hiddens).wf(),
            r matches Some(p) ==> p.wf(),
            clicked(*self, win_man_parts@, old(win_man_hiddens)@, final(win_man_hiddens)@, r),
    {
        match self {
            ButtonHandler::SSHConnect(h) => h.on_click(button_id, win_man_parts, win_man_hiddens),
            ButtonHandler::ToggleRaytracer(h) => h.on_click(button_id, win_man_parts),
        }
    }
}

impl Button {
    /// Runs the button's click handler.
    pub fn on_interact(
        &self,
        button_id: u32,
        win_man_parts: IdMap<NonInteractable>,
        win_man_hiddens: &mut IdMap<HiddenManager>,
    ) -> (r: Option<IdMap<NonInteractable>>)
        requires
            win_man_parts.wf(),
            old(win_man_hiddens).wf(),
        ensures
            final(win_man_hiddens).wf(),
            r matches Some(p) ==> p.wf(),
            clicked(
                self.button_handler,
                win_man_parts@,
                old(win_man_hiddens)@,
                final(win_man_hiddens)@,
                r,
            ),
    {
        self.button_handler.on_click(button_id, win_man_parts, win_man_hiddens)
    }
}

impl AddLogLine {
    /// Logs the text.
    pub fn on_enter(&self, textbox_id: u32, win_man_parts: IdMap<NonInteractable>, text: &str) -> (r:
        Option<IdMap<NonInteractable>>)
        requires
            win_man_parts.wf(),
        ensures
            r matches Some(p) && p.wf() && logged_into(win_man_parts@, p@, LOGGER, seq![text@], false),
    {
        let mut parts = win_man_parts;
        log_to(&mut parts, LOGGER, text);
        Some(parts)
    }
}

fn new_job(phase: Phase, parts: IdMap<NonInteractable>, text: &str) -> (j: HandlerJob)
    ensures
        j.phase == phase,
        j.parts == parts,
        j.text@ == text@,
        j.directory@ == Seq::<char>::empty(),
        j.dirs@ == Seq::<String>::empty(),
        j.files@ == Seq::<String>::empty(),
        j.directory_success,
{
    HandlerJob {
        phase,
        parts,
        text: text.to_string(),
        directory: String::new(),
        dirs: Vec::new(),
        files: Vec::new(),
        directory_success: true,
    }
}

/// Prepares `cmd` on the session manager at position `i`.
fn begin_on(h: &mut IdMap<HiddenManager>, i: usize, cmd: &str) -> (line: String)
    requires
        old(h).wf(),
        i < old(h)@.len(),
        old(h)@[i as int].0 == SSHCLIENT,
    ensures
        final(h).wf(),
        client_view(old(h)@) matches Some(v) && line@ == spec_composite(v.previous_commands, cmd@)
            && client_now(
            old(h)@,
            final(h)@,
            ClientView { previous_commands: history_before_run(v.previous_commands, cmd@), ..v },
        ),
{
    let ghost a = h@;
    proof {
        lemma_position_unique(a, i as int);
    }
    let c = client_at(h, i);
    let line = c.begin_command(cmd);
    proof {
        lemma_client_now(a, i as int, *c);
    }
    line
}

/// Settles a command on the session manager at position `i`.
fn settle_on(
    h: &mut IdMap<HiddenManager>,
    i: usize,
    cmd: &str,
    add: bool,
    o: ChannelOutcome,
) -> (r: Result<Vec<String>, String>)
    requires
        old(h).wf(),
        i < old(h)@.len(),
        old(h)@[i as int].0 == SSHCLIENT,
    ensures
        final(h).wf(),
        client_view(old(h)@) matches Some(v) && client_now(old(h)@, final(h)@, after_command(v, cmd@, add, o)),
        match o {
            ChannelOutcome::Completed { stdout, stderr } => r is Ok && crate::logger::views(r->Ok_0@) == if stderr@.len() > 0 {
                seq![COMMAND_FAILED@ + stderr@]
            } else {
                seq![stdout@]
            },
            _ => r is Err && r->Err_0@ == channel_error(o),
        },
{
    let ghost a = h@;
    proof {
        lemma_position_unique(a, i as int);
    }
    let c = client_at(h, i);
    let r = c.execute_command(cmd, add, o);
    proof {
        lemma_client_now(a, i as int, *c);
    }
    r
}

pub open spec fn command_started(
    parts: IdMap<NonInteractable>,
    h0: Seq<(u32, HiddenManager)>,
    h1: Seq<(u32, HiddenManager)>,
    text: Seq<char>,
    r: Step,
) -> bool {
    match client_view(h0) {
        None => ended_as_is(r, parts, h0, h1),
        Some(v) => if !usable(v) {
            &&& r matches Step::Done(Some(p)) && p.wf() && logged_into(
                parts@,
                p@,
                LOGGER,
                seq![LOGIN_FIRST@],
                false,
            )
            &&& h1 == h0
        } else {
            &&& r matches Step::Request(job, RemoteRequest::RunCommand(cmd)) && cmd@
                == spec_composite(v.previous_commands, text) && job.phase == Phase::Command
                && job.parts == parts && job.text@ == text
            &&& client_now(
                h0,
                h1,
                ClientView {
                    previous_commands: history_before_run(v.previous_commands, text),
                    ..v
                },
            )
        },
    }
}

impl ExecuteCommand {
    /// Starts the user's command when the session is usable; otherwise logs
    /// a request to log in first. Without a session manager nothing happens.
    pub fn on_enter(
        &self,
        textbox_id: u32,
        win_man_parts: IdMap<NonInteractable>,
        win_man_hiddens: &mut IdMap<HiddenManager>,
        text: &str,
    ) -> (r: Step)
        requires
            win_man_parts.wf(),
            old(win_man_hiddens).wf(),
        ensures
            final(win_man_hiddens).wf(),
            command_started(
                win_man_parts,
                old(win_man_hiddens)@,
                final(win_man_hiddens)@,
                text@,
                r,
            ),
    {
        match find_client(win_man_hiddens) {
            None => Step::Done(Some(win_man_parts)),
            Some(i) => {
                let usable_now = match win_man_hiddens.value_at(i) {
                    HiddenManager::SSHClient(c) => c.get_login_status() && c.is_session_still_valid(),
                };
                if !usable_now {
                    let mut parts = win_man_parts;
                    log_to(&mut parts, LOGGER, LOGIN_FIRST);
                    Step::Done(Some(parts))
                } else {
                    let line = begin_on(win_man_hiddens, i, text);
                    Step::Request(
                        new_job(Phase::Command, win_man_parts, text),
                        RemoteRequest::RunCommand(line),
                    )
                }
            },
        }
    }
}

/// Logs how the user's command went; the command `clear` also empties the
/// scrollback.
fn finish_command(
    parts: IdMap<NonInteractable>,
    text: &String,
    h: &mut IdMap<HiddenManager>,
    o: ChannelOutcome,
) -> (r: Step)
    requires
        parts.wf(),
        old(h).wf(),
    ensures
        final(h).wf(),
        match client_view(old(h)@) {
            Some(v) => {
                &&& r matches Step::Done(Some(p)) && p.wf() && logged_into(
                    parts@,
                    p@,
                    LOGGER,
                    command_log(text@, o),
                    text@ == "clear"@,
                )
                &&& client_now(old(h)@, final(h)@, after_command(v, text@, true, o))
            },
            None => ended_as_is(r, parts, old(h)@, final(h)@),
        },
{
    match find_client(h) {
        None => Step::Done(Some(parts)),
        Some(i) => {
            let ghost o_copy = o;
            let ghost expected = command_log(text@, o);
            let result = settle_on(h, i, text.as_str(), true, o);
            let mut p = parts;
            let ghost start = p@;
            proof {
                lemma_logged_nothing(start, LOGGER);
            }
            let echo = concat(COMMAND_ECHO, text.as_str());
            log_to(&mut p, LOGGER, echo.as_str());
            let ghost echoed = p@;
            proof {
                lemma_logged_twice(start, start, echoed, LOGGER, seq![], echo@);
            }
            let second = match result {
                Ok(lines) => {
                    assert(crate::logger::views(lines@).len() == lines@.len());
                    assert(lines@.len() == 1);
                    assert(crate::logger::views(lines@)[0] == lines@[0]@);
                    cut_line(&lines[0])
                },
                Err(e) => concat(EXECUTION_ERROR, e.as_str()),
            };
            log_to(&mut p, LOGGER, second.as_str());
            proof {
                lemma_logged_twice(start, echoed, p@, LOGGER, seq![echo@], second@);
                assert(seq![echo@].push(second@) =~= expected);
            }
            let clear_word = "clear".to_string();
            if *text == clear_word {
                let ghost filled = p@;
                clear_log(&mut p, LOGGER);
                proof {
                    if let Some(NonInteractable::Logger(l)) = value_of(start, LOGGER) {
                        let q = position_of(start, LOGGER).unwrap();
                        lemma_position_unique(start, q);
                        lemma_position_unique(filled, q);
                    }
                }
            }
            Step::Done(Some(p))
        },
    }
}

/// The line a `pwd` run yields as the working directory: its output, or
/// the failure line when it wrote errors.
pub open spec fn pwd_line(o: ChannelOutcome) -> Seq<char> {
    match o {
        ChannelOutcome::Completed { stdout, stderr } => if stderr@.len() > 0 {
            COMMAND_FAILED@ + stderr@
        } else {
            stdout@
        },
        _ => seq![],
    }
}

/// What the state of `c` becomes when a download settles with `o`.
pub open spec fn after_download_state(c: ClientView, o: DownloadOutcome) -> ClientView {
    if o == DownloadOutcome::SftpFailed {
        ClientView { session_still_valid: false, ..c }
    } else {
        c
    }
}

/// What the state of `c` becomes when an upload settles with `o`.
pub open spec fn after_upload_state(c: ClientView, o: UploadOutcome) -> ClientView {
    if o == UploadOutcome::SftpFailed {
        ClientView { session_still_valid: false, ..c }
    } else {
        c
    }
}

/// Whether a transfer handler may start: a usable session and a logger.
pub open spec fn transfer_ready(
    h: Seq<(u32, HiddenManager)>,
    p: Seq<(u32, NonInteractable)>,
) -> bool {
    client_view(h) matches Some(v) && usable(v) && has_logger(p)
}

/// How a transfer handler starts: `pwd` when it may, else nothing.
pub open spec fn transfer_started(
    phase: Phase,
    parts: IdMap<NonInteractable>,
    h0: Seq<(u32, HiddenManager)>,
    h1: Seq<(u32, HiddenManager)>,
    text: Seq<char>,
    r: Step,
) -> bool {
    if transfer_ready(h0, parts@) {
        let v = client_view(h0).unwrap();
        &&& r matches Step::Request(job, RemoteRequest::RunCommand(cmd)) && cmd@ == spec_composite(
            v.previous_commands,
            "pwd"@,
        ) && job.phase == phase && job.parts == parts && job.text@ == text
        &&& client_now(
            h0,
            h1,
            ClientView { previous_commands: history_before_run(v.previous_commands, "pwd"@), ..v },
        )
    } else {
        &&& r matches Step::Done(Some(p)) && p.wf() && logged_into(
            parts@,
            p@,
            LOGGER,
            seq![TRANSFER_LOGIN_FIRST@],
            false,
        )
        &&& h1 == h0
    }
}

/// Starts `pwd` for a transfer, or logs that it cannot start.
fn start_transfer(
    phase: Phase,
    parts: IdMap<NonInteractable>,
    h: &mut IdMap<HiddenManager>,
    text: &str,
) -> (r: Step)
    requires
        parts.wf(),
        old(h).wf(),
    ensures
        final(h).wf(),
        transfer_started(phase, parts, old(h)@, final(h)@, text@, r),
{
    let mut parts = parts;
    match find_client(h) {
        None => {
            log_to(&mut parts, LOGGER, TRANSFER_LOGIN_FIRST);
            Step::Done(Some(parts))
        },
        Some(i) => {
            let usable_now = match h.value_at(i) {
                HiddenManager::SSHClient(c) => c.get_login_status() && c.is_session_still_valid(),
            };
            if usable_now && has_logger_exec(&parts) {
                let line = begin_on(h, i, "pwd");
                Step::Request(new_job(phase, parts, text), RemoteRequest::RunCommand(line))
            } else {
                log_to(&mut parts, LOGGER, TRANSFER_LOGIN_FIRST);
                Step::Done(Some(parts))
            }
        },
    }
}

impl DownloadFile {
    /// Asks for the remote working directory when the session is usable
    /// and there is a logger to report to; otherwise logs that a login is
    /// needed.
    pub fn on_enter(
        &self,
        textbox_id: u32,
        win_man_parts: IdMap<NonInteractable>,
        win_man_hiddens: &mut IdMap<HiddenManager>,
        text: &str,
    ) -> (r: Step)
        requires
            win_man_parts.wf(),
            old(win_man_hiddens).wf(),
        ensures
            final(win_man_hiddens).wf(),
            transfer_started(
                Phase::DownloadDir,
                win_man_parts,
                old(win_man_hiddens)@,
                final(win_man_hiddens)@,
                text@,
                r,
            ),
    {
        start_transfer(Phase::DownloadDir, win_man_parts, win_man_hiddens, text)
    }
}

impl UploadFile {
    /// Asks for the remote working directory when the session is usable
    /// and there is a logger to report to; otherwise logs that a login is
    /// needed.
    pub fn on_enter(
        &self,
        textbox_id: u32,
        win_man_parts: IdMap<NonInteractable>,
        win_man_hiddens: &mut IdMap<HiddenManager>,
        text: &str,
    ) -> (r: Step)
        requires
            win_man_parts.wf(),
            old(win_man_hiddens).wf(),
        ensures
            final(win_man_hiddens).wf(),
            transfer_started(
                Phase::UploadDir,
                win_man_parts,
                old(win_man_hiddens)@,
                final(win_man_hiddens)@,
                text@,
                r,
            ),
    {
        start_transfer(Phase::UploadDir, win_man_parts, win_man_hiddens, text)
    }
}

/// Whether `pwd` printed a directory: the channel worked and nothing was
/// written to standard error.
pub open spec fn pwd_ok(o: ChannelOutcome) -> bool {
    o matches ChannelOutcome::Completed { stderr, .. } && stderr@.len() == 0
}

/// The line logged when `pwd` did not print a directory.
pub open spec fn pwd_error(o: ChannelOutcome) -> Seq<char> {
    match o {
        ChannelOutcome::Completed { stderr, .. } => COMMAND_FAILED@ + stderr@,
        _ => channel_error(o),
    }
}

/// How settling `pwd` ahead of a transfer goes: the transfer of `text` is
/// requested in the directory printed, or the failure is logged.
pub open spec fn after_pwd_settled(
    h0: Seq<(u32, HiddenManager)>,
    h1: Seq<(u32, HiddenManager)>,
    parts: IdMap<NonInteractable>,
    text: Seq<char>,
    o: ChannelOutcome,
    download: bool,
    r: Step,
) -> bool {
    match client_view(h0) {
        Some(v) => {
            &&& client_now(h0, h1, after_command(v, "pwd"@, false, o))
            &&& if pwd_ok(o) {
                &&& download ==> (r matches Step::Request(job, RemoteRequest::Download { remote_path, local_path })
                    && remote_path@ == spec_remote_path(pwd_line(o), text) && local_path@ == text
                    && job.phase == Phase::Download && job.parts == parts && job.text@ == text)
                &&& !download ==> (r matches Step::Request(job, RemoteRequest::Upload { local_path, remote_path })
                    && remote_path@ == spec_remote_path(pwd_line(o), text) && local_path@ == text
                    && job.phase == Phase::Upload && job.parts == parts && job.text@ == text
                    && job.directory@ == pwd_line(o))
            } else {
                r matches Step::Done(Some(p)) && p.wf() && logged_into(
                    parts@,
                    p@,
                    LOGGER,
                    seq![pwd_error(o)],
                    false,
                )
            }
        },
        None => ended_as_is(r, parts, h0, h1),
    }
}

fn printed_directory(o: &ChannelOutcome) -> (b: bool)
    ensures
        b == pwd_ok(*o),
{
    match o {
        ChannelOutcome::Completed { stderr, .. } => stderr.as_str().unicode_len() == 0,
        _ => false,
    }
}

/// Settles `pwd` ahead of a transfer.
fn after_pwd(
    parts: IdMap<NonInteractable>,
    text: &String,
    h: &mut IdMap<HiddenManager>,
    o: ChannelOutcome,
    download: bool,
) -> (r: Step)
    requires
        parts.wf(),
        old(h).wf(),
    ensures
        final(h).wf(),
        after_pwd_settled(old(h)@, final(h)@, parts, text@, o, download, r),
{
    match find_client(h) {
        None => Step::Done(Some(parts)),
        Some(i) => {
            let printed = printed_directory(&o);
            let result = settle_on(h, i, "pwd", false, o);
            match result {
                Ok(lines) => {
                    assert(crate::logger::views(lines@).len() == lines@.len());
                    assert(crate::logger::views(lines@)[0] == lines@[0]@);
                    if !printed {
                        let mut p = parts;
                        log_to(&mut p, LOGGER, lines[0].as_str());
                        return Step::Done(Some(p));
                    }
                    let dir = lines[0].clone();
                    let path = remote_path(dir.as_str(), text.as_str());
                    let mut job = new_job(if download { Phase::Download } else { Phase::Upload }, parts, text.as_str());
                    if download {
                        Step::Request(
                            job,
                            RemoteRequest::Download { remote_path: path, local_path: text.clone() },
                        )
                    } else {
                        job.directory = dir;
                        Step::Request(
                            job,
                            RemoteRequest::Upload { local_path: text.clone(), remote_path: path },
                        )
                    }
                },
                Err(e) => {
                    let mut p = parts;
                    log_to(&mut p, LOGGER, e.as_str());
                    Step::Done(Some(p))
                },
            }
        },
    }
}

/// How settling a download of `text` goes: the result is logged.
pub open spec fn after_download_settled(
    h0: Seq<(u32, HiddenManager)>,
    h1: Seq<(u32, HiddenManager)>,
    parts: IdMap<NonInteractable>,
    text: Seq<char>,
    o: DownloadOutcome,
    r: Step,
) -> bool {
    match client_view(h0) {
        Some(v) => {
            &&& client_now(h0, h1, after_download_state(v, o))
            &&& r matches Step::Done(Some(p)) && p.wf() && logged_into(
                parts@,
                p@,
                LOGGER,
                seq![if o == DownloadOutcome::Saved { DOWNLOADED_TO@ + text } else { crate::session::download_error(o) }],
                false,
            )
        },
        None => ended_as_is(r, parts, h0, h1),
    }
}

/// Logs how a download of `text` went.
fn after_download(
    parts: IdMap<NonInteractable>,
    text: &String,
    h: &mut IdMap<HiddenManager>,
    o: DownloadOutcome,
) -> (r: Step)
    requires
        parts.wf(),
        old(h).wf(),
    ensures
        final(h).wf(),
        after_download_settled(old(h)@, final(h)@, parts, text@, o, r),
{
    match find_client(h) {
        None => Step::Done(Some(parts)),
        Some(i) => {
            let ghost a = h@;
            proof {
                lemma_position_unique(a, i as int);
            }
            let c = client_at(h, i);
            let result = c.download_file(text.as_str(), o);
            proof {
                lemma_client_now(a, i as int, *c);
            }
            let line = match result {
                Ok(f) => concat(DOWNLOADED_TO, f.as_str()),
                Err(e) => e,
            };
            let mut p = parts;
            log_to(&mut p, LOGGER, line.as_str());
            Step::Done(Some(p))
        },
    }
}

/// How settling an upload of `text` into `directory` goes: the result is
/// logged.
pub open spec fn after_upload_settled(
    h0: Seq<(u32, HiddenManager)>,
    h1: Seq<(u32, HiddenManager)>,
    parts: IdMap<NonInteractable>,
    text: Seq<char>,
    directory: Seq<char>,
    o: UploadOutcome,
    r: Step,
) -> bool {
    match client_view(h0) {
        Some(v) => {
            &&& client_now(h0, h1, after_upload_state(v, o))
            &&& r matches Step::Done(Some(p)) && p.wf() && logged_into(
                parts@,
                p@,
                LOGGER,
                seq![if o == UploadOutcome::Sent { UPLOADED_TO@ + spec_remote_path(directory, text) } else { crate::session::upload_error(o) }],
                false,
            )
        },
        None => ended_as_is(r, parts, h0, h1),
    }
}

/// Logs how an upload of `text` into `directory` went.
fn after_upload(
    parts: IdMap<NonInteractable>,
    text: &String,
    directory: &String,
    h: &mut IdMap<HiddenManager>,
    o: UploadOutcome,
) -> (r: Step)
    requires
        parts.wf(),
        old(h).wf(),
    ensures
        final(h).wf(),
        after_upload_settled(old(h)@, final(h)@, parts, text@, directory@, o, r),
{
    match find_client(h) {
        None => Step::Done(Some(parts)),
        Some(i) => {
            let ghost a = h@;
            proof {
                lemma_position_unique(a, i as int);
            }
            let c = client_at(h, i);
            let result = c.upload_file(text.as_str(), directory.as_str(), o);
            proof {
                lemma_client_now(a, i as int, *c);
            }
            let line = match result {
                Ok(path) => concat(UPLOADED_TO, path.as_str()),
                Err(e) => e,
            };
            let mut p = parts;
            log_to(&mut p, LOGGER, line.as_str());
            Step::Done(Some(p))
        },
    }
}

/// Whether the session manager in `h` is present and usable.
pub open spec fn client_usable(h: Seq<(u32, HiddenManager)>) -> bool {
    client_view(h) matches Some(v) && usable(v)
}

fn client_usable_exec(h: &IdMap<HiddenManager>) -> (r: bool)
    requires
        h.wf(),
    ensures
        r == client_usable(h@),
{
    match find_client(h) {
        None => false,
        Some(i) => match h.value_at(i) {
            HiddenManager::SSHClient(c) => c.get_login_status() && c.is_session_still_valid(),
        },
    }
}

/// How a directory upload starts: by asking whether the text names a
/// local directory.
pub open spec fn tree_started(
    parts: IdMap<NonInteractable>,
    h0: Seq<(u32, HiddenManager)>,
    h1: Seq<(u32, HiddenManager)>,
    text: Seq<char>,
    r: Step,
) -> bool {
    &&& h1 == h0
    &&& r matches Step::Request(job, RemoteRequest::CheckDirectory(path)) && path@ == text
        && job.phase == Phase::TreeCheck && job.parts == parts && job.text@ == text
}

impl UploadDirectory {
    /// First asks whether the text names a local directory.
    pub fn on_enter(
        &self,
        textbox_id: u32,
        win_man_parts: IdMap<NonInteractable>,
        win_man_hiddens: &mut IdMap<HiddenManager>,
        text: &str,
    ) -> (r: Step)
        requires
            win_man_parts.wf(),
            old(win_man_hiddens).wf(),
        ensures
            tree_started(win_man_parts, old(win_man_hiddens)@, final(win_man_hiddens)@, text@, r),
    {
        Step::Request(
            new_job(Phase::TreeCheck, win_man_parts, text),
            RemoteRequest::CheckDirectory(text.to_string()),
        )
    }
}

/// The step that uploading the files from index `i` on takes: `pwd` ahead
/// of the file at `i` while the session is usable and every directory
/// was made, else the end with the snapshot.
pub open spec fn file_step(
    h0: Seq<(u32, HiddenManager)>,
    h1: Seq<(u32, HiddenManager)>,
    parts: IdMap<NonInteractable>,
    dirs: Seq<String>,
    files: Seq<String>,
    success: bool,
    i: int,
    r: Step,
) -> bool {
    if i < files.len() && client_usable(h0) && success {
        let v = client_view(h0).unwrap();
        &&& r matches Step::Request(j, RemoteRequest::RunCommand(cmd)) && cmd@ == spec_composite(
            v.previous_commands,
            "pwd"@,
        ) && j.phase == (Phase::TreePwd { index: i as usize }) && j.parts == parts && j.files@ == files
            && j.dirs@ == dirs && j.directory_success == success
        &&& client_now(
            h0,
            h1,
            ClientView { previous_commands: history_before_run(v.previous_commands, "pwd"@), ..v },
        )
    } else if i < files.len() {
        &&& r matches Step::Done(Some(p)) && p.wf() && logged_into(parts@, p@, LOGGER, seq![FILES_SKIPPED@], false)
        &&& h1 == h0
    } else {
        ended_as_is(r, parts, h0, h1)
    }
}

/// The step that making the directories from index `i` on takes: `mkdir`
/// of the directory at `i` while the session is usable, else the files.
pub open spec fn mkdir_step(
    h0: Seq<(u32, HiddenManager)>,
    h1: Seq<(u32, HiddenManager)>,
    parts: IdMap<NonInteractable>,
    dirs: Seq<String>,
    files: Seq<String>,
    success: bool,
    i: int,
    r: Step,
) -> bool {
    if i < dirs.len() && client_usable(h0) {
        let v = client_view(h0).unwrap();
        &&& r matches Step::Request(j, RemoteRequest::RunCommand(cmd)) && cmd@ == spec_composite(
            v.previous_commands,
            "mkdir "@ + dirs[i]@,
        ) && j.phase == (Phase::TreeMkdir { index: i as usize }) && j.parts == parts && j.files@
            == files && j.dirs@ == dirs && j.directory_success == success
        &&& client_now(
            h0,
            h1,
            ClientView { previous_commands: history_before_run(v.previous_commands, "mkdir "@ + dirs[i]@), ..v },
        )
    } else {
        file_step(h0, h1, parts, dirs, files, success, 0, r)
    }
}

/// The upload of the file at `i` and of those after it, each preceded by
/// `pwd`, while the session stays usable and every directory was made.
fn next_file(job: HandlerJob, i: usize, h: &mut IdMap<HiddenManager>) -> (r: Step)
    requires
        job.parts.wf(),
        old(h).wf(),
    ensures
        final(h).wf(),
        file_step(
            old(h)@,
            final(h)@,
            job.parts,
            job.dirs@,
            job.files@,
            job.directory_success,
            i as int,
            r,
        ),
{
    if i < job.files.len() && job.directory_success && client_usable_exec(h) {
        let ci = find_client(h).unwrap();
        let line = begin_on(h, ci, "pwd");
        let mut j = job;
        j.phase = Phase::TreePwd { index: i };
        Step::Request(j, RemoteRequest::RunCommand(line))
    } else if i < job.files.len() {
        let mut p = job.parts;
        log_to(&mut p, LOGGER, FILES_SKIPPED);
        Step::Done(Some(p))
    } else {
        Step::Done(Some(job.parts))
    }
}

/// `mkdir` of the directory at `i` and of those after it, while the
/// session stays usable; then the files.
fn next_mkdir(job: HandlerJob, i: usize, h: &mut IdMap<HiddenManager>) -> (r: Step)
    requires
        job.parts.wf(),
        old(h).wf(),
    ensures
        final(h).wf(),
        mkdir_step(
            old(h)@,
            final(h)@,
            job.parts,
            job.dirs@,
            job.files@,
            job.directory_success,
            i as int,
            r,
        ),
{
    if i < job.dirs.len() && client_usable_exec(h) {
        let ci = find_client(h).unwrap();
        let cmd = concat("mkdir ", job.dirs[i].as_str());
        let line = begin_on(h, ci, cmd.as_str());
        let mut j = job;
        j.phase = Phase::TreeMkdir { index: i };
        Step::Request(j, RemoteRequest::RunCommand(line))
    } else {
        next_file(job, 0, h)
    }
}

/// How a waiting job takes the reply to its last request: the next step
/// `r` and the hidden set after.
pub open spec fn resumed(job: HandlerJob, reply: RemoteReply, h0: Seq<(u32, HiddenManager)>, h1: Seq<(u32, HiddenManager)>, r: Step) -> bool {
    &&& (job.phase == Phase::Command ==> match reply {
        RemoteReply::Channel(o) => match client_view(h0) {
            Some(v) => {
                &&& r matches Step::Done(Some(p)) && logged_into(
                    job.parts@,
                    p@,
                    LOGGER,
                    command_log(job.text@, o),
                    job.text@ == "clear"@,
                )
                &&& client_now(
                    h0,
                    h1,
                    after_command(v, job.text@, true, o),
                )
            },
            None => ended_as_is(r, job.parts, h0, h1),
        },
        _ => ended_as_is(r, job.parts, h0, h1),
    })
    &&& (job.phase == Phase::DownloadDir ==> match reply {
        RemoteReply::Channel(o) => after_pwd_settled(
            h0,
            h1,
            job.parts,
            job.text@,
            o,
            true,
            r,
        ),
        _ => ended_as_is(r, job.parts, h0, h1),
    })
    &&& (job.phase == Phase::UploadDir ==> match reply {
        RemoteReply::Channel(o) => after_pwd_settled(
            h0,
            h1,
            job.parts,
            job.text@,
            o,
            false,
            r,
        ),
        _ => ended_as_is(r, job.parts, h0, h1),
    })
    &&& (job.phase == Phase::Download ==> match reply {
        RemoteReply::Downloaded(o) => after_download_settled(
            h0,
            h1,
            job.parts,
            job.text@,
            o,
            r,
        ),
        _ => ended_as_is(r, job.parts, h0, h1),
    })
    &&& (job.phase == Phase::Upload ==> match reply {
        RemoteReply::Uploaded(o) => after_upload_settled(
            h0,
            h1,
            job.parts,
            job.text@,
            job.directory@,
            o,
            r,
        ),
        _ => ended_as_is(r, job.parts, h0, h1),
    })
    &&& (job.phase == Phase::TreeCheck ==> match reply {
        RemoteReply::IsDirectory(is_dir) => if !is_dir {
            r matches Step::Done(Some(p)) && logged_into(job.parts@, p@, LOGGER, seq![NOT_A_DIRECTORY@], false)
                && h1 == h0
        } else if client_usable(h0) && has_logger(job.parts@) {
            r matches Step::Request(j, RemoteRequest::ListTree(path)) && path@ == job.text@
                && j.phase == Phase::TreeList && j.parts == job.parts && h1 == h0
        } else {
            r matches Step::Done(Some(p)) && logged_into(job.parts@, p@, LOGGER, seq![TRANSFER_LOGIN_FIRST@], false)
                && h1 == h0
        },
        _ => ended_as_is(r, job.parts, h0, h1),
    })
    &&& (job.phase == Phase::TreeList ==> match reply {
        RemoteReply::Tree(None) => r matches Step::Done(Some(p)) && logged_into(job.parts@, p@, LOGGER, seq![TREE_UNREADABLE@], false)
            && h1 == h0,
        RemoteReply::Tree(Some((files, dirs))) => mkdir_step(
            h0,
            h1,
            job.parts,
            dirs@,
            files@,
            true,
            0,
            r,
        ),
        _ => ended_as_is(r, job.parts, h0, h1),
    })
    &&& (job.phase is TreeMkdir ==> match reply {
        RemoteReply::Channel(o) => if job.phase->TreeMkdir_index < job.dirs@.len() && client_view(h0) is Some {
            exists|hm: Seq<(u32, HiddenManager)>|
                #[trigger] client_now(
                    h0,
                    hm,
                    after_command(
                        client_view(h0).unwrap(),
                        "mkdir "@ + job.dirs@[job.phase->TreeMkdir_index as int]@,
                        false,
                        o,
                    ),
                ) && mkdir_step(
                    hm,
                    h1,
                    job.parts,
                    job.dirs@,
                    job.files@,
                    job.directory_success && o is Completed,
                    job.phase->TreeMkdir_index + 1,
                    r,
                )
        } else {
            ended_as_is(r, job.parts, h0, h1)
        },
        _ => ended_as_is(r, job.parts, h0, h1),
    })
    &&& (job.phase is TreePwd ==> match reply {
        RemoteReply::Channel(o) => if job.phase->TreePwd_index < job.files@.len() && client_view(h0) is Some {
            let i = job.phase->TreePwd_index;
            let v = client_view(h0).unwrap();
            if pwd_ok(o) {
                &&& client_now(h0, h1, after_command(v, "pwd"@, false, o))
                &&& r matches Step::Request(j, RemoteRequest::Upload { local_path, remote_path })
                    && local_path@ == job.files@[i as int]@ && remote_path@ == spec_remote_path(
                    pwd_line(o),
                    job.files@[i as int]@,
                ) && j.phase == (Phase::TreeUpload { index: i }) && j.directory@ == pwd_line(o)
                    && j.parts == job.parts && j.files == job.files && j.dirs == job.dirs
                    && j.directory_success == job.directory_success
            } else {
                exists|hm: Seq<(u32, HiddenManager)>, pm: IdMap<NonInteractable>|
                    #[trigger] client_now(h0, hm, after_command(v, "pwd"@, false, o))
                        && pm.wf() && #[trigger] logged_into(job.parts@, pm@, LOGGER, seq![pwd_error(o)], false)
                        && file_step(
                        hm,
                        h1,
                        pm,
                        job.dirs@,
                        job.files@,
                        job.directory_success,
                        i + 1,
                        r,
                    )
            }
        } else {
            ended_as_is(r, job.parts, h0, h1)
        },
        _ => ended_as_is(r, job.parts, h0, h1),
    })
    &&& (job.phase is TreeUpload ==> match reply {
        RemoteReply::Uploaded(o) => if job.phase->TreeUpload_index < job.files@.len() {
            exists|hm: Seq<(u32, HiddenManager)>, pm: IdMap<NonInteractable>|
                #[trigger] after_upload_settled(
                    h0,
                    hm,
                    job.parts,
                    job.files@[job.phase->TreeUpload_index as int]@,
                    job.directory@,
                    o,
                    Step::Done(Some(pm)),
                ) && pm.wf() && file_step(
                    hm,
                    h1,
                    pm,
                    job.dirs@,
                    job.files@,
                    job.directory_success,
                    job.phase->TreeUpload_index + 1,
                    r,
                )
        } else {
            ended_as_is(r, job.parts, h0, h1)
        },
        _ => ended_as_is(r, job.parts, h0, h1),
    })
}

impl HandlerJob {
    /// Takes the reply to the job's last request and goes on.
    pub fn resume(self, reply: RemoteReply, win_man_hiddens: &mut IdMap<HiddenManager>) -> (r: Step)
        requires
            self.parts.wf(),
            old(win_man_hiddens).wf(),
        ensures
            final(win_man_hiddens).wf(),
            r matches Step::Request(j, _) ==> j.parts.wf(),
            r matches Step::Done(Some(p)) ==> p.wf(),
            resumed(self, reply, old(win_man_hiddens)@, final(win_man_hiddens)@, r),
    {
        match self.phase {
            Phase::Command => match reply {
                RemoteReply::Channel(o) => finish_command(self.parts, &self.text, win_man_hiddens, o),
                _ => Step::Done(Some(self.parts)),
            },
            Phase::DownloadDir => match reply {
                RemoteReply::Channel(o) => after_pwd(self.parts, &self.text, win_man_hiddens, o, true),
                _ => Step::Done(Some(self.parts)),
            },
            Phase::UploadDir => match reply {
                RemoteReply::Channel(o) => after_pwd(self.parts, &self.text, win_man_hiddens, o, false),
                _ => Step::Done(Some(self.parts)),
            },
            Phase::Download => match reply {
                RemoteReply::Downloaded(o) => after_download(self.parts, &self.text, win_man_hiddens, o),
                _ => Step::Done(Some(self.parts)),
            },
            Phase::Upload => match reply {
                RemoteReply::Uploaded(o) => after_upload(self.parts, &self.text, &self.directory, win_man_hiddens, o),
                _ => Step::Done(Some(self.parts)),
            },
            Phase::TreeCheck => match reply {
                RemoteReply::IsDirectory(is_dir) => {
                    if !is_dir {
                        let mut p = self.parts;
                        log_to(&mut p, LOGGER, NOT_A_DIRECTORY);
                        Step::Done(Some(p))
                    } else if client_usable_exec(win_man_hiddens) && has_logger_exec(&self.parts) {
                        let path = self.text.clone();
                        let mut j = self;
                        j.phase = Phase::TreeList;
                        Step::Request(j, RemoteRequest::ListTree(path))
                    } else {
                        let mut p = self.parts;
                        log_to(&mut p, LOGGER, TRANSFER_LOGIN_FIRST);
                        Step::Done(Some(p))
                    }
                },
                _ => Step::Done(Some(self.parts)),
            },
            Phase::TreeList => match reply {
                RemoteReply::Tree(None) => {
                    let mut p = self.parts;
                    log_to(&mut p, LOGGER, TREE_UNREADABLE);
                    Step::Done(Some(p))
                },
                RemoteReply::Tree(Some((files, dirs))) => {
                    let mut j = self;
                    j.files = files;
                    j.dirs = dirs;
                    j.directory_success = true;
                    next_mkdir(j, 0, win_man_hiddens)
                },
                _ => Step::Done(Some(self.parts)),
            },
            Phase::TreeMkdir { index } => match reply {
                RemoteReply::Channel(o) => {
                    if index < self.dirs.len() && find_client(win_man_hiddens).is_some() {
                        let ci = find_client(win_man_hiddens).unwrap();
                        let cmd = concat("mkdir ", self.dirs[index].as_str());
                        let ghost h0 = win_man_hiddens@;
                        let result = settle_on(win_man_hiddens, ci, cmd.as_str(), false, o);
                        let ghost hm = win_man_hiddens@;
                        let mut j = self;
                        if result.is_err() {
                            j.directory_success = false;
                        }
                        let r = next_mkdir(j, index + 1, win_man_hiddens);
                        assert(client_now(h0, hm, after_command(client_view(h0).unwrap(), cmd@, false, o)));
                        r
                    } else {
                        Step::Done(Some(self.parts))
                    }
                },
                _ => Step::Done(Some(self.parts)),
            },
            Phase::TreePwd { index } => match reply {
                RemoteReply::Channel(o) => {
                    if index < self.files.len() && find_client(win_man_hiddens).is_some() {
                        let ci = find_client(win_man_hiddens).unwrap();
                        let ghost h0 = win_man_hiddens@;
                        let ghost self_parts = self.parts;
                        let printed = printed_directory(&o);
                        let result = settle_on(win_man_hiddens, ci, "pwd", false, o);
                        match result {
                            Ok(lines) if !printed => {
                                assert(crate::logger::views(lines@).len() == lines@.len());
                                assert(crate::logger::views(lines@)[0] == lines@[0]@);
                                let ghost hm = win_man_hiddens@;
                                let mut j = self;
                                log_to(&mut j.parts, LOGGER, lines[0].as_str());
                                let ghost pm = j.parts;
                                let r = next_file(j, index + 1, win_man_hiddens);
                                assert(client_now(h0, hm, after_command(client_view(h0).unwrap(), "pwd"@, false, o)));
                                assert(logged_into(self_parts@, pm@, LOGGER, seq![pwd_error(o)], false));
                                r
                            },
                            Ok(lines) => {
                                assert(crate::logger::views(lines@).len() == lines@.len());
                                assert(crate::logger::views(lines@)[0] == lines@[0]@);
                                let dir = lines[0].clone();
                                let path = remote_path(dir.as_str(), self.files[index].as_str());
                                let local = self.files[index].clone();
                                let mut j = self;
                                j.directory = dir;
                                j.phase = Phase::TreeUpload { index };
                                Step::Request(
                                    j,
                                    RemoteRequest::Upload { local_path: local, remote_path: path },
                                )
                            },
                            Err(e) => {
                                let ghost hm = win_man_hiddens@;
                                let mut j = self;
                                log_to(&mut j.parts, LOGGER, e.as_str());
                                let ghost pm = j.parts;
                                let r = next_file(j, index + 1, win_man_hiddens);
                                assert(client_now(h0, hm, after_command(client_view(h0).unwrap(), "pwd"@, false, o)));
                                assert(logged_into(self_parts@, pm@, LOGGER, seq![pwd_error(o)], false));
                                r
                            },
                        }
                    } else {
                        Step::Done(Some(self.parts))
                    }
                },
                _ => Step::Done(Some(self.parts)),
            },
            Phase::TreeUpload { index } => match reply {
                RemoteReply::Uploaded(o) => {
                    if index < self.files.len() {
                        let ghost h0 = win_man_hiddens@;
                        let ghost self_parts = self.parts;
                        let ghost name = self.files@[index as int]@;
                        let ghost dir = self.directory@;
                        let up = after_upload(self.parts, &self.files[index], &self.directory, win_man_hiddens, o);
                        let ghost hm = win_man_hiddens@;
                        match up {
                            Step::Done(Some(p)) => {
                                let ghost pm = p;
                                assert(after_upload_settled(h0, hm, self_parts, name, dir, o, Step::Done(Some(pm))));
                                let j = HandlerJob {
                                    phase: self.phase,
                                    parts: p,
                                    text: self.text,
                                    directory: self.directory,
                                    dirs: self.dirs,
                                    files: self.files,
                                    directory_success: self.directory_success,
                                };
                                next_file(j, index + 1, win_man_hiddens)
                            },
                            other => other,
                        }
                    } else {
                        Step::Done(Some(self.parts))
                    }
                },
                _ => Step::Done(Some(self.parts)),
            },
        }
    }
}

/// What an Enter handler does with `text`.
pub open spec fn entered(
    m: TextboxMethod,
    parts: IdMap<NonInteractable>,
    h0: Seq<(u32, HiddenManager)>,
    h1: Seq<(u32, HiddenManager)>,
    text: Seq<char>,
    r: Step,
) -> bool {
    match m {
        TextboxMethod::DoNothing(_) => r matches Step::Done(None) && h1 == h0,
        TextboxMethod::AddLogLine(_) => r matches Step::Done(Some(p)) && p.wf() && logged_into(
            parts@,
            p@,
            LOGGER,
            seq![text],
            false,
        ) && h1 == h0,
        TextboxMethod::ExecuteCommand(_) => command_started(parts, h0, h1, text, r),
        TextboxMethod::DownloadFile(_) => transfer_started(Phase::DownloadDir, parts, h0, h1, text, r),
        TextboxMethod::UploadFile(_) => transfer_started(Phase::UploadDir, parts, h0, h1, text, r),
        TextboxMethod::UploadDirectory(_) => tree_started(parts, h0, h1, text, r),
    }
}

impl TextboxMethod {
    /// Runs the Enter handler on `text`.
    pub fn on_enter(
        &self,
        textbox_id: u32,
        win_man_parts: IdMap<NonInteractable>,
        win_man_hiddens: &mut IdMap<HiddenManager>,
        text: &str,
    ) -> (r: Step)
        requires
            win_man_parts.wf(),
            old(win_man_hiddens).wf(),
        ensures
            final(win_man_hiddens).wf(),
            r matches Step::Request(j, _) ==> j.parts.wf(),
            r matches Step::Done(Some(p)) ==> p.wf(),
            entered(*self, win_man_parts, old(win_man_hiddens)@, final(win_man_hiddens)@, text@, r),
    {
        match self {
            TextboxMethod::DoNothing(_) => Step::Done(None),
            TextboxMethod::AddLogLine(h) => Step::Done(h.on_enter(textbox_id, win_man_parts, text)),
            TextboxMethod::ExecuteCommand(h) => h.on_enter(textbox_id, win_man_parts, win_man_hiddens, text),
            TextboxMethod::DownloadFile(h) => h.on_enter(textbox_id, win_man_parts, win_man_hiddens, text),
            TextboxMethod::UploadDirectory(h) => h.on_enter(textbox_id, win_man_parts, win_man_hiddens, text),
            TextboxMethod::UploadFile(h) => h.on_enter(textbox_id, win_man_parts, win_man_hiddens, text),
        }
    }
}

impl TextBox {
    /// Runs the box's Enter handler on its current text.
    pub fn on_interact(
        &self,
        textbox_id: u32,
        win_man_parts: IdMap<NonInteractable>,
        win_man_hiddens: &mut IdMap<HiddenManager>,
    ) -> (r: Step)
        requires
            win_man_parts.wf(),
            old(win_man_hiddens).wf(),
        ensures
            final(win_man_hiddens).wf(),
            r matches Step::Request(j, _) ==> j.parts.wf(),
            r matches Step::Done(Some(p)) ==> p.wf(),
            entered(
                self.on_enter,
                win_man_parts,
                old(win_man_hiddens)@,
                final(win_man_hiddens)@,
                self.text(),
                r,
            ),
    {
        let text = self.get_text();
        self.on_enter.on_enter(textbox_id, win_man_parts, win_man_hiddens, text.as_str())
    }
}

/// What running the invoked handler on the snapshot `parts` does.
pub open spec fn started(
    inv: Invocation,
    parts: IdMap<NonInteractable>,
    h0: Seq<(u32, HiddenManager)>,
    h1: Seq<(u32, HiddenManager)>,
    r: Step,
) -> bool {
    match inv {
        Invocation::Click { button_handler, .. } => r matches Step::Done(res) && clicked(
            button_handler,
            parts@,
            h0,
            h1,
            res,
        ),
        Invocation::Enter { on_enter, text, .. } => entered(on_enter, parts, h0, h1, text@, r),
    }
}

impl Invocation {
    /// Runs the invoked handler on a snapshot of the display store.
    pub fn start(self, win_man_parts: IdMap<NonInteractable>, win_man_hiddens: &mut IdMap<HiddenManager>) -> (r: Step)
        requires
            win_man_parts.wf(),
            old(win_man_hiddens).wf(),
        ensures
            final(win_man_hiddens).wf(),
            r matches Step::Request(j, _) ==> j.parts.wf(),
            r matches Step::Done(Some(p)) ==> p.wf(),
            started(self, win_man_parts, old(win_man_hiddens)@, final(win_man_hiddens)@, r),
    {
        match self {
            Invocation::Click { id, button_handler } => Step::Done(
                button_handler.on_click(id, win_man_parts, win_man_hiddens),
            ),
            Invocation::Enter { id, on_enter, text } => on_enter.on_enter(
                id,
                win_man_parts,
                win_man_hiddens,
                text.as_str(),
            ),
        }
    }
}

} // verus!
