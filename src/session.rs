use vstd::prelude::*;

use crate::id_map::{lemma_position_unique, lemma_update_keeps_positions, value_of, IdMap};
use crate::logger::views;
use crate::store::{lemma_logged_nothing, lemma_logged_twice, log_to, logged_into, NonInteractable, OnlyInteractable};
use crate::text::{chars_contain, chars_of, extend_chars, slice_chars, spec_contains, string_of};

verus! {

/// Why a handshake stopped.
#[derive(Clone, Copy, Debug, PartialEq, Eq, Structural)]
pub enum HandshakeErrorCode {
    /// No TCP connection to port 22 (fatal).
    TcpFail,
    /// No protocol session object could be made (fatal).
    SessionFail,
    /// The protocol handshake failed; the host may be misspelt (recoverable).
    HandshakeFail,
    /// The credentials were refused (recoverable).
    LoginAuthFail,
    /// Authentication reported success yet the session is not authenticated (fatal).
    SessionAuthFail,
}

/// What the transport must do next for a handshake in progress.
pub enum HandshakeStep {
    /// Open a TCP stream to this `host:22` address.
    OpenTcp { address: String },
    /// Create the protocol session object.
    CreateSession,
    /// Give the session a clone of the TCP stream.
    BindStream,
    /// Run the protocol handshake.
    Handshake,
    /// Authenticate with a key pair; absent parts are `None`.
    AuthenticateKey {
        username: String,
        public_key: Option<String>,
        private_key: String,
        passphrase: Option<String>,
    },
    /// Authenticate with a password.
    AuthenticatePassword { username: String, password: String },
    /// The handshake is over.
    Finished(Result<i8, HandshakeErrorCode>),
}

/// What the transport reports back for the step it was asked to perform.
#[derive(Clone, Copy, Debug, PartialEq, Eq, Structural)]
pub enum HandshakeEvent {
    TcpConnect(bool),
    SessionNew(bool),
    StreamBind(bool),
    Handshake(bool),
    /// `accepted`: the authentication call succeeded; `authenticated`: the
    /// session then reports itself authenticated.
    Auth { accepted: bool, authenticated: bool },
}

/// How a one-shot command channel ended.
pub enum ChannelOutcome {
    OpenFailed,
    ExecFailed,
    ReadFailed,
    StderrReadFailed,
    CloseFailed,
    /// The command ran; what it wrote to standard output and standard error.
    Completed { stdout: String, stderr: String },
}

/// How a download ended.
#[derive(Clone, Copy, Debug, PartialEq, Eq, Structural)]
pub enum DownloadOutcome {
    SftpFailed,
    RemoteOpenFailed,
    RemoteReadFailed,
    LocalWriteFailed,
    Saved,
}

/// How an upload ended.
#[derive(Clone, Copy, Debug, PartialEq, Eq, Structural)]
pub enum UploadOutcome {
    SftpFailed,
    LocalOpenFailed,
    LocalReadFailed,
    RemoteCreateFailed,
    RemoteWriteFailed,
    Sent,
}

pub const CHANNEL_OPEN_ERROR: &'static str = "[SSH ERROR] There was an error establishing a session-based channel.";
pub const EXEC_ERROR: &'static str = "[SSH ERROR] There was an error executing a command.";
pub const READ_ERROR: &'static str = "[SSH ERROR] The channel was unable to read the result of your command.";
pub const STDERR_READ_ERROR: &'static str = "[SSH ERROR] The channel was unable to read the error result of your command.";
pub const CLOSE_ERROR: &'static str = "[SSH ERROR] The channel was unable to gracefully close.";
pub const COMMAND_FAILED: &'static str = "Command Failed, Error: ";
pub const SFTP_ERROR: &'static str = "[SSH ERROR] Error establishing an SFTP session";
pub const REMOTE_OPEN_ERROR: &'static str = "[SSH WARN] Problem creating file link";
pub const REMOTE_READ_ERROR: &'static str = "[SSH WARN] There was a problem trying to download the file contents";
pub const LOCAL_WRITE_ERROR: &'static str = "[SSH WARN] Problem creating a local save file to store the data in";
pub const LOCAL_OPEN_ERROR: &'static str = "[SSH WARN] There was a problem finding the file to upload";
pub const LOCAL_READ_ERROR: &'static str = "[SSH WARN] There was a problem reading the file to upload";
pub const REMOTE_CREATE_ERROR: &'static str = "[SSH WARN] Could not create file link in destination folder";
pub const REMOTE_WRITE_ERROR: &'static str = "[SSH WARN] Could not write data to target file";

/// Whether a command changes directory.
pub open spec fn is_cd(c: Seq<char>) -> bool {
    spec_contains(c, "cd "@)
}

/// Whether a command changes to a directory given from the root.
pub open spec fn is_absolute_cd(c: Seq<char>) -> bool {
    spec_contains(c, "cd /"@)
}

/// `a` and `b` as one shell line, `a` first: joined by `"; "`, or just `b`
/// when `a` is empty.
pub open spec fn join_parts(a: Seq<char>, b: Seq<char>) -> Seq<char> {
    if a.len() == 0 {
        b
    } else {
        a + "; "@ + b
    }
}

/// The recorded directory changes in order, joined by `"; "`.
pub open spec fn replay_prefix(prev: Seq<Seq<char>>) -> Seq<char>
    decreases prev.len(),
{
    if prev.len() == 0 {
        seq![]
    } else if is_cd(prev.last()) {
        join_parts(replay_prefix(prev.drop_last()), prev.last())
    } else {
        replay_prefix(prev.drop_last())
    }
}

fn join_into(acc: &mut Vec<char>, sep: &Vec<char>, part: &Vec<char>)
    requires
        sep@ == "; "@,
    ensures
        final(acc)@ == join_parts(old(acc)@, part@),
{
    if acc.len() > 0 {
        extend_chars(acc, sep);
    }
    extend_chars(acc, part);
}

/// The line sent to a fresh channel to run `new` where the recorded
/// directory changes left the shell.
pub open spec fn spec_composite(prev: Seq<Seq<char>>, new: Seq<char>) -> Seq<char> {
    if is_absolute_cd(new) {
        new
    } else {
        join_parts(replay_prefix(prev), new)
    }
}

/// The replay list once `new` is about to run: an absolute `cd` drops it.
pub open spec fn history_before_run(prev: Seq<Seq<char>>, new: Seq<char>) -> Seq<Seq<char>> {
    if is_absolute_cd(new) {
        seq![]
    } else {
        prev
    }
}

/// The replay list after `new` ran without error output.
pub open spec fn history_after_success(
    prev: Seq<Seq<char>>,
    new: Seq<char>,
    add_to_command_list: bool,
) -> Seq<Seq<char>> {
    if add_to_command_list && is_cd(new) {
        prev.push(new)
    } else {
        prev
    }
}

/// The error text for a channel that failed.
pub open spec fn channel_error(o: ChannelOutcome) -> Seq<char> {
    match o {
        ChannelOutcome::OpenFailed => CHANNEL_OPEN_ERROR@,
        ChannelOutcome::ExecFailed => EXEC_ERROR@,
        ChannelOutcome::ReadFailed => READ_ERROR@,
        ChannelOutcome::StderrReadFailed => STDERR_READ_ERROR@,
        ChannelOutcome::CloseFailed => CLOSE_ERROR@,
        ChannelOutcome::Completed { .. } => seq![],
    }
}

/// `s` without the newlines at either end.
pub open spec fn trim_newlines(s: Seq<char>) -> Seq<char> {
    trim_leading(trim_trailing(s))
}

pub open spec fn trim_trailing(s: Seq<char>) -> Seq<char>
    decreases s.len(),
{
    if s.len() > 0 && s.last() == '\n' {
        trim_trailing(s.drop_last())
    } else {
        s
    }
}

pub open spec fn trim_leading(s: Seq<char>) -> Seq<char>
    decreases s.len(),
{
    if s.len() > 0 && s.first() == '\n' {
        trim_leading(s.drop_first())
    } else {
        s
    }
}

/// The remote path of `filename` in `directory` as `pwd` printed it.
pub open spec fn spec_remote_path(directory: Seq<char>, filename: Seq<char>) -> Seq<char> {
    trim_newlines(directory) + "/"@ + filename
}

proof fn lemma_trim_trailing_take(s: Seq<char>, e: int)
    requires
        0 <= e <= s.len(),
        forall|k: int| e <= k < s.len() ==> s[k] == '\n',
    ensures
        trim_trailing(s) == trim_trailing(s.take(e)),
    decreases s.len() - e,
{
    if e < s.len() {
        assert(s.drop_last().take(e) =~= s.take(e));
        lemma_trim_trailing_take(s.drop_last(), e);
    } else {
        assert(s.take(e) =~= s);
    }
}

proof fn lemma_trim_leading_skip(s: Seq<char>, b: int)
    requires
        0 <= b <= s.len(),
        forall|k: int| 0 <= k < b ==> s[k] == '\n',
    ensures
        trim_leading(s) == trim_leading(s.skip(b)),
    decreases b,
{
    if b > 0 {
        assert(s.drop_first().skip(b - 1) =~= s.skip(b));
        lemma_trim_leading_skip(s.drop_first(), b - 1);
    } else {
        assert(s.skip(0) =~= s);
    }
}

/// Joins the directory printed by `pwd` and a file name into a remote path.
pub fn remote_path(directory: &str, filename: &str) -> (r: String)
    ensures
        r@ == spec_remote_path(directory@, filename@),
{
    let cs = chars_of(directory);
    let mut e: usize = cs.len();
    while e > 0 && cs[e - 1] == '\n'
        invariant
            e <= cs@.len(),
            forall|k: int| e <= k < cs@.len() ==> cs@[k] == '\n',
        decreases e,
    {
        e = e - 1;
    }
    proof {
        lemma_trim_trailing_take(cs@, e as int);
    }
    let t = slice_chars(&cs, 0, e);
    assert(t@ =~= cs@.take(e as int));
    assert(trim_trailing(t@) == t@);
    let mut b: usize = 0;
    while b < t.len() && t[b] == '\n'
        invariant
            b <= t@.len(),
            forall|k: int| 0 <= k < b ==> t@[k] == '\n',
        decreases t@.len() - b,
    {
        b = b + 1;
    }
    proof {
        lemma_trim_leading_skip(t@, b as int);
    }
    let mut out = slice_chars(&t, b, t.len());
    assert(out@ =~= t@.skip(b as int));
    proof {
        let u = t@.skip(b as int);
        if u.len() > 0 {
            assert(u.first() == t@[b as int]);
        }
    }
    let slash = chars_of("/");
    extend_chars(&mut out, &slash);
    let name = chars_of(filename);
    extend_chars(&mut out, &name);
    string_of(&out)
}

/// The session manager's state as plain values.
pub ghost struct ClientView {
    pub remote_server: Seq<char>,
    pub username: Seq<char>,
    pub password: Seq<char>,
    pub passphrase: Seq<char>,
    pub public_key: Seq<char>,
    pub private_key: Seq<char>,
    /// Authenticate with the key pair rather than the password.
    pub key_auth: bool,
    /// Sticky: once false, no remote operation should be attempted.
    pub session_still_valid: bool,
    pub have_logged_in: bool,
    /// Ids of the six login text boxes; all zero when no login is pending.
    pub login_field_values: (u32, u32, u32, u32, u32, u32),
    /// The directory changes replayed before every command.
    pub previous_commands: Seq<Seq<char>>,
    pub logger_id: u32,
}

/// The state of a manager just made: no settings, usable, not logged in,
/// no login pending, nothing to replay.
pub open spec fn fresh_client_view() -> ClientView {
    ClientView {
        remote_server: seq![],
        username: seq![],
        password: seq![],
        passphrase: seq![],
        public_key: seq![],
        private_key: seq![],
        key_auth: false,
        session_still_valid: true,
        have_logged_in: false,
        login_field_values: (0, 0, 0, 0, 0, 0),
        previous_commands: seq![],
        logger_id: 0,
    }
}

/// Owns the connection settings, the health sentinel and the emulated
/// working directory of one remote shell session. The transport itself is
/// driven by the caller, step by step, as this manager directs.
pub struct SSHClient {
    remote_server: String,
    username: String,
    password: String,
    passphrase: String,
    public_key: String,
    private_key: String,
    key_auth: bool,
    session_still_valid: bool,
    have_logged_in: bool,
    login_field_values: (u32, u32, u32, u32, u32, u32),
    previous_commands: Vec<String>,
    logger_id: u32,
}

impl View for SSHClient {
    type V = ClientView;

    closed spec fn view(&self) -> ClientView {
        ClientView {
            remote_server: self.remote_server@,
            username: self.username@,
            password: self.password@,
            passphrase: self.passphrase@,
            public_key: self.public_key@,
            private_key: self.private_key@,
            key_auth: self.key_auth,
            session_still_valid: self.session_still_valid,
            have_logged_in: self.have_logged_in,
            login_field_values: self.login_field_values,
            previous_commands: views(self.previous_commands@),
            logger_id: self.logger_id,
        }
    }
}

impl SSHClient {
    pub fn new() -> (r: SSHClient)
        ensures
            r@ == fresh_client_view(),
    {
        let r = SSHClient {
            remote_server: String::new(),
            username: String::new(),
            password: String::new(),
            passphrase: String::new(),
            public_key: String::new(),
            private_key: String::new(),
            key_auth: false,
            session_still_valid: true,
            have_logged_in: false,
            login_field_values: (0, 0, 0, 0, 0, 0),
            previous_commands: Vec::new(),
            logger_id: 0,
        };
        assert(views(r.previous_commands@) =~= Seq::<Seq<char>>::empty());
        r
    }

    /// Points the manager at the logger it reports to.
    pub fn init(&mut self)
        ensures
            final(self)@ == (ClientView { logger_id: crate::object_ids::LOGGER, ..old(self)@ }),
    {
        self.logger_id = crate::object_ids::LOGGER;
    }

    pub fn get_login_status(&self) -> (r: bool)
        ensures
            r == self@.have_logged_in,
    {
        self.have_logged_in
    }

    pub fn is_session_still_valid(&self) -> (r: bool)
        ensures
            r == self@.session_still_valid,
    {
        self.session_still_valid
    }

    pub fn get_logger_id(&self) -> (r: u32)
        ensures
            r == self@.logger_id,
    {
        self.logger_id
    }

    pub fn get_remote_server(&self) -> (r: String)
        ensures
            r@ == self@.remote_server,
    {
        self.remote_server.clone()
    }

    pub fn get_login_field_values(&self) -> (r: (u32, u32, u32, u32, u32, u32))
        ensures
            r == self@.login_field_values,
    {
        self.login_field_values
    }

    /// The directory changes that are replayed before each command.
    pub fn get_previous_commands(&self) -> (r: Vec<String>)
        ensures
            views(r@) == self@.previous_commands,
    {
        let mut r: Vec<String> = Vec::new();
        let mut i: usize = 0;
        while i < self.previous_commands.len()
            invariant
                0 <= i <= self.previous_commands@.len(),
                r@ == self.previous_commands@.take(i as int),
            decreases self.previous_commands@.len() - i,
        {
            r.push(self.previous_commands[i].clone());
            i = i + 1;
            assert(r@ =~= self.previous_commands@.take(i as int));
        }
        assert(r@ =~= self.previous_commands@);
        r
    }

    /// Records the ids of the six login text boxes: hostname, username,
    /// password, public key, private key, passphrase.
    pub fn update_login_field_values(
        &mut self,
        one: u32,
        two: u32,
        three: u32,
        four: u32,
        five: u32,
        six: u32,
    )
        ensures
            final(self)@ == (ClientView {
                login_field_values: (one, two, three, four, five, six),
                ..old(self)@
            }),
    {
        self.login_field_values = (one, two, three, four, five, six);
    }

    /// Prepares a command: an absolute `cd` empties the replay list, and the
    /// result is the line to run on a fresh channel.
    pub fn begin_command(&mut self, new_command: &str) -> (r: String)
        ensures
            r@ == spec_composite(old(self)@.previous_commands, new_command@),
            final(self)@ == (ClientView {
                previous_commands: history_before_run(old(self)@.previous_commands, new_command@),
                ..old(self)@
            }),
    {
        let new_cs = chars_of(new_command);
        let abs = chars_of("cd /");
        if chars_contain(&new_cs, &abs) {
            self.previous_commands = Vec::new();
            assert(views(self.previous_commands@) =~= Seq::<Seq<char>>::empty());
            return new_command.to_string();
        }
        let cd = chars_of("cd ");
        let sep = chars_of("; ");
        let mut acc: Vec<char> = Vec::new();
        let mut i: usize = 0;
        while i < self.previous_commands.len()
            invariant
                0 <= i <= self.previous_commands@.len(),
                cd@ == "cd "@,
                sep@ == "; "@,
                acc@ == replay_prefix(views(self.previous_commands@).take(i as int)),
            decreases self.previous_commands@.len() - i,
        {
            let ghost p = views(self.previous_commands@).take(i + 1);
            assert(p.drop_last() =~= views(self.previous_commands@).take(i as int));
            let com = chars_of(self.previous_commands[i].as_str());
            if chars_contain(&com, &cd) {
                join_into(&mut acc, &sep, &com);
            }
            i = i + 1;
        }
        assert(views(self.previous_commands@).take(i as int) =~= views(self.previous_commands@));
        join_into(&mut acc, &sep, &new_cs);
        string_of(&acc)
    }

    /// Settles a command prepared by `begin_command` from how its channel
    /// ended. A channel failure marks the session invalid. Error output
    /// gives one failure line and records nothing; otherwise the output is
    /// returned and a directory change is recorded when asked for.
    pub fn execute_command(
        &mut self,
        new_command: &str,
        add_to_command_list: bool,
        outcome: ChannelOutcome,
    ) -> (r: Result<Vec<String>, String>)
        ensures
            match outcome {
                ChannelOutcome::Completed { stdout, stderr } => {
                    &&& r is Ok
                    &&& if stderr@.len() > 0 {
                        &&& views(r->Ok_0@) == seq![COMMAND_FAILED@ + stderr@]
                        &&& final(self)@ == old(self)@
                    } else {
                        &&& views(r->Ok_0@) == seq![stdout@]
                        &&& final(self)@ == (ClientView {
                            previous_commands: history_after_success(
                                old(self)@.previous_commands,
                                new_command@,
                                add_to_command_list,
                            ),
                            ..old(self)@
                        })
                    }
                },
                _ => {
                    &&& r is Err
                    &&& r->Err_0@ == channel_error(outcome)
                    &&& final(self)@ == (ClientView { session_still_valid: false, ..old(self)@ })
                },
            },
    {
        match outcome {
            ChannelOutcome::Completed { stdout, stderr } => {
                let mut lines: Vec<String> = Vec::new();
                if stderr.as_str().unicode_len() > 0 {
                    let mut m = COMMAND_FAILED.to_string();
                    m.append(stderr.as_str());
                    lines.push(m);
                    assert(views(lines@) =~= seq![COMMAND_FAILED@ + stderr@]);
                } else {
                    lines.push(stdout);
                    assert(views(lines@) =~= seq![stdout@]);
                    let cd = chars_of("cd ");
                    let new_cs = chars_of(new_command);
                    if add_to_command_list && chars_contain(&new_cs, &cd) {
                        let ghost before = views(self.previous_commands@);
                        self.previous_commands.push(new_command.to_string());
                        assert(views(self.previous_commands@) =~= before.push(new_command@));
                    }
                }
                Ok(lines)
            },
            ChannelOutcome::OpenFailed => {
                self.session_still_valid = false;
                Err(CHANNEL_OPEN_ERROR.to_string())
            },
            ChannelOutcome::ExecFailed => {
                self.session_still_valid = false;
                Err(EXEC_ERROR.to_string())
            },
            ChannelOutcome::ReadFailed => {
                self.session_still_valid = false;
                Err(READ_ERROR.to_string())
            },
            ChannelOutcome::StderrReadFailed => {
                self.session_still_valid = false;
                Err(STDERR_READ_ERROR.to_string())
            },
            ChannelOutcome::CloseFailed => {
                self.session_still_valid = false;
                Err(CLOSE_ERROR.to_string())
            },
        }
    }
}


pub const MISSING_INFO: &'static str = "[SSH CONNECT] There is a missing piece of info before attempting to log in.";
pub const BOTH_AUTH_MODES: &'static str = "[SSH CONNECT] Please SSH using only SSH Keys or by password, not both.";
pub const SUCCESS_PREFIX: &'static str = "[SSH INFO] Successful SSH into ";
pub const TCP_FAIL_LINE: &'static str = "[SSH ERROR] Failed to establish a TCP Connection";
pub const SESSION_FAIL_LINE: &'static str = "[SSH ERROR] Failed to establish a new session";
pub const HANDSHAKE_FAIL_LINE: &'static str = "[SSH WARN] Failed to create a link between a TCP Connection and a Session";
pub const HANDSHAKE_HELP_LINE: &'static str = "[SSH HELP] ...Did you perhaps misspell the hostname?";
pub const LOGIN_AUTH_FAIL_LINE: &'static str = "[SSH WARN] Failed to authenticate a login";
pub const LOGIN_AUTH_HELP_LINE: &'static str = "[SSH HELP] ...Did you type your username and password correctly?";
pub const SESSION_AUTH_FAIL_LINE: &'static str = "[SSH ERROR] Failed to authenticate a Session";

/// The error text of a failed download; a download that was saved has none.
pub open spec fn download_error(o: DownloadOutcome) -> Seq<char> {
    match o {
        DownloadOutcome::SftpFailed => SFTP_ERROR@,
        DownloadOutcome::RemoteOpenFailed => REMOTE_OPEN_ERROR@,
        DownloadOutcome::RemoteReadFailed => REMOTE_READ_ERROR@,
        DownloadOutcome::LocalWriteFailed => LOCAL_WRITE_ERROR@,
        DownloadOutcome::Saved => seq![],
    }
}

/// The error text of a failed upload; a finished upload has none.
pub open spec fn upload_error(o: UploadOutcome) -> Seq<char> {
    match o {
        UploadOutcome::SftpFailed => SFTP_ERROR@,
        UploadOutcome::LocalOpenFailed => LOCAL_OPEN_ERROR@,
        UploadOutcome::LocalReadFailed => LOCAL_READ_ERROR@,
        UploadOutcome::RemoteCreateFailed => REMOTE_CREATE_ERROR@,
        UploadOutcome::RemoteWriteFailed => REMOTE_WRITE_ERROR@,
        UploadOutcome::Sent => seq![],
    }
}

/// The logger lines that report how a handshake ended.
pub open spec fn handshake_report(
    result: Result<i8, HandshakeErrorCode>,
    remote_server: Seq<char>,
) -> Seq<Seq<char>> {
    match result {
        Ok(_) => seq![SUCCESS_PREFIX@ + remote_server],
        Err(HandshakeErrorCode::TcpFail) => seq![TCP_FAIL_LINE@],
        Err(HandshakeErrorCode::SessionFail) => seq![SESSION_FAIL_LINE@],
        Err(HandshakeErrorCode::HandshakeFail) => seq![HANDSHAKE_FAIL_LINE@, HANDSHAKE_HELP_LINE@],
        Err(HandshakeErrorCode::LoginAuthFail) => seq![LOGIN_AUTH_FAIL_LINE@, LOGIN_AUTH_HELP_LINE@],
        Err(HandshakeErrorCode::SessionAuthFail) => seq![SESSION_AUTH_FAIL_LINE@],
    }
}

/// A text that is `None` when empty.
pub open spec fn optional(o: Option<String>, s: Seq<char>) -> bool {
    match o {
        Some(t) => s.len() > 0 && t@ == s,
        None => s.len() == 0,
    }
}

fn optional_of(s: &String) -> (r: Option<String>)
    ensures
        optional(r, s@),
{
    if s.as_str().unicode_len() == 0 {
        None
    } else {
        Some(s.clone())
    }
}

/// How the manager, in state `v0`, takes the transport's report `event`:
/// its next state `v1` and the next step `r`.
pub open spec fn handshake_advanced(v0: ClientView, v1: ClientView, event: HandshakeEvent, r: HandshakeStep) -> bool {
    match event {
        HandshakeEvent::TcpConnect(ok) => if ok {
            r is CreateSession && v1 == v0
        } else {
            r == HandshakeStep::Finished(Err(HandshakeErrorCode::TcpFail))
                && v1 == (ClientView { session_still_valid: false, ..v0 })
        },
        HandshakeEvent::SessionNew(ok) => if ok {
            r is BindStream && v1 == v0
        } else {
            r == HandshakeStep::Finished(Err(HandshakeErrorCode::SessionFail))
                && v1 == (ClientView { session_still_valid: false, ..v0 })
        },
        HandshakeEvent::StreamBind(ok) => if ok {
            r is Handshake && v1 == v0
        } else {
            r == HandshakeStep::Finished(Err(HandshakeErrorCode::TcpFail))
                && v1 == (ClientView { session_still_valid: false, ..v0 })
        },
        HandshakeEvent::Handshake(ok) => {
            &&& v1 == v0
            &&& if !ok {
                r == HandshakeStep::Finished(Err(HandshakeErrorCode::HandshakeFail))
            } else if v0.key_auth {
                r matches HandshakeStep::AuthenticateKey {
                    username,
                    public_key,
                    private_key,
                    passphrase,
                } && username@ == v0.username && optional(
                    public_key,
                    v0.public_key,
                ) && private_key@ == v0.private_key && optional(
                    passphrase,
                    v0.passphrase,
                )
            } else {
                r matches HandshakeStep::AuthenticatePassword { username, password }
                    && username@ == v0.username && password@ == v0.password
            }
        },
        HandshakeEvent::Auth { accepted, authenticated } => if !accepted {
            r == HandshakeStep::Finished(Err(HandshakeErrorCode::LoginAuthFail))
                && v1 == v0
        } else if !authenticated {
            r == HandshakeStep::Finished(Err(HandshakeErrorCode::SessionAuthFail))
                && v1 == (ClientView { session_still_valid: false, ..v0 })
        } else {
            r == HandshakeStep::Finished(Ok(1))
                && v1 == (ClientView { have_logged_in: true, ..v0 })
        },
    }
}

impl SSHClient {
    /// Stores the connection settings and starts a handshake: the first
    /// step opens a TCP stream to port 22 of the host.
    pub fn make_ssh_handshake(
        &mut self,
        rs: String,
        un: String,
        pw: String,
        pb: String,
        pv: String,
        pp: String,
        key_instead_of_password: bool,
    ) -> (r: HandshakeStep)
        ensures
            final(self)@ == (ClientView {
                remote_server: rs@,
                username: un@,
                password: pw@,
                public_key: pb@,
                private_key: pv@,
                passphrase: pp@,
                key_auth: key_instead_of_password,
                ..old(self)@
            }),
            r matches HandshakeStep::OpenTcp { address } && address@ == rs@ + ":22"@,
    {
        let mut address = rs.clone();
        address.append(":22");
        self.remote_server = rs;
        self.username = un;
        self.password = pw;
        self.public_key = pb;
        self.private_key = pv;
        self.passphrase = pp;
        self.key_auth = key_instead_of_password;
        HandshakeStep::OpenTcp { address }
    }

    /// Takes the transport's report on the last step and names the next
    /// one. Failing to connect, to make a session or to bind the stream, and
    /// a session that is not authenticated after authentication succeeded,
    /// are fatal and mark the session invalid; a failed protocol handshake
    /// or refused credentials are not. Success marks the manager logged in.
    pub fn advance_handshake(&mut self, event: HandshakeEvent) -> (r: HandshakeStep)
        ensures
            handshake_advanced(old(self)@, final(self)@, event, r),
    {
        match event {
            HandshakeEvent::TcpConnect(ok) => {
                if ok {
                    HandshakeStep::CreateSession
                } else {
                    self.session_still_valid = false;
                    HandshakeStep::Finished(Err(HandshakeErrorCode::TcpFail))
                }
            },
            HandshakeEvent::SessionNew(ok) => {
                if ok {
                    HandshakeStep::BindStream
                } else {
                    self.session_still_valid = false;
                    HandshakeStep::Finished(Err(HandshakeErrorCode::SessionFail))
                }
            },
            HandshakeEvent::StreamBind(ok) => {
                if ok {
                    HandshakeStep::Handshake
                } else {
                    self.session_still_valid = false;
                    HandshakeStep::Finished(Err(HandshakeErrorCode::TcpFail))
                }
            },
            HandshakeEvent::Handshake(ok) => {
                if !ok {
                    HandshakeStep::Finished(Err(HandshakeErrorCode::HandshakeFail))
                } else if self.key_auth {
                    HandshakeStep::AuthenticateKey {
                        username: self.username.clone(),
                        public_key: optional_of(&self.public_key),
                        private_key: self.private_key.clone(),
                        passphrase: optional_of(&self.passphrase),
                    }
                } else {
                    HandshakeStep::AuthenticatePassword {
                        username: self.username.clone(),
                        password: self.password.clone(),
                    }
                }
            },
            HandshakeEvent::Auth { accepted, authenticated } => {
                if !accepted {
                    HandshakeStep::Finished(Err(HandshakeErrorCode::LoginAuthFail))
                } else if !authenticated {
                    self.session_still_valid = false;
                    HandshakeStep::Finished(Err(HandshakeErrorCode::SessionAuthFail))
                } else {
                    self.have_logged_in = true;
                    HandshakeStep::Finished(Ok(1))
                }
            },
        }
    }

    /// Settles a download of `filename`, fetched from the remote working
    /// directory into a local file of the same name. Only a failure to open
    /// the file-transfer session marks the session invalid.
    pub fn download_file(&mut self, filename: &str, outcome: DownloadOutcome) -> (r: Result<
        String,
        String,
    >)
        ensures
            outcome == DownloadOutcome::Saved ==> r is Ok && r->Ok_0@ == filename@,
            outcome != DownloadOutcome::Saved ==> r is Err && r->Err_0@ == download_error(outcome),
            final(self)@ == if outcome == DownloadOutcome::SftpFailed {
                ClientView { session_still_valid: false, ..old(self)@ }
            } else {
                old(self)@
            },
    {
        match outcome {
            DownloadOutcome::Saved => Ok(filename.to_string()),
            DownloadOutcome::SftpFailed => {
                self.session_still_valid = false;
                Err(SFTP_ERROR.to_string())
            },
            DownloadOutcome::RemoteOpenFailed => Err(REMOTE_OPEN_ERROR.to_string()),
            DownloadOutcome::RemoteReadFailed => Err(REMOTE_READ_ERROR.to_string()),
            DownloadOutcome::LocalWriteFailed => Err(LOCAL_WRITE_ERROR.to_string()),
        }
    }

    /// Settles an upload of the local file `filename` into `directory`, as
    /// `pwd` printed it; the result is the remote path. Only a failure to
    /// open the file-transfer session marks the session invalid.
    pub fn upload_file(&mut self, filename: &str, directory: &str, outcome: UploadOutcome) -> (r:
        Result<String, String>)
        ensures
            outcome == UploadOutcome::Sent ==> r is Ok && r->Ok_0@ == spec_remote_path(
                directory@,
                filename@,
            ),
            outcome != UploadOutcome::Sent ==> r is Err && r->Err_0@ == upload_error(outcome),
            final(self)@ == if outcome == UploadOutcome::SftpFailed {
                ClientView { session_still_valid: false, ..old(self)@ }
            } else {
                old(self)@
            },
    {
        match outcome {
            UploadOutcome::Sent => Ok(remote_path(directory, filename)),
            UploadOutcome::SftpFailed => {
                self.session_still_valid = false;
                Err(SFTP_ERROR.to_string())
            },
            UploadOutcome::LocalOpenFailed => Err(LOCAL_OPEN_ERROR.to_string()),
            UploadOutcome::LocalReadFailed => Err(LOCAL_READ_ERROR.to_string()),
            UploadOutcome::RemoteCreateFailed => Err(REMOTE_CREATE_ERROR.to_string()),
            UploadOutcome::RemoteWriteFailed => Err(REMOTE_WRITE_ERROR.to_string()),
        }
    }
}


/// The text of the text box stored under `id`; empty if there is none.
pub open spec fn box_text(s: Seq<(u32, OnlyInteractable)>, id: u32) -> Seq<char> {
    match value_of(s, id) {
        Some(OnlyInteractable::TextBox(t)) => t.text(),
        _ => seq![],
    }
}

/// `b` is `a` with the text boxes whose ids are in `ids` emptied.
pub open spec fn boxes_cleared(
    a: Seq<(u32, OnlyInteractable)>,
    b: Seq<(u32, OnlyInteractable)>,
    ids: Seq<u32>,
) -> bool {
    &&& b.len() == a.len()
    &&& forall|k: int|
        0 <= k < a.len() ==> {
            &&& (#[trigger] b[k]).0 == a[k].0
            &&& if ids.contains(a[k].0) && a[k].1 is TextBox {
                b[k].1 matches OnlyInteractable::TextBox(t2) && t2.same_but_text(a[k].1->TextBox_0)
                    && t2.text() == Seq::<char>::empty()
            } else {
                b[k].1 == a[k].1
            }
        }
}

/// A login the form asked for, checked and ready for a handshake.
pub struct LoginRequest {
    pub hostname: String,
    pub username: String,
    pub password: String,
    pub public_key: String,
    pub private_key: String,
    pub passphrase: String,
    pub key_instead_of_password: bool,
}

/// The six login box ids, in form order.
pub open spec fn field_ids(f: (u32, u32, u32, u32, u32, u32)) -> Seq<u32> {
    seq![f.0, f.1, f.2, f.3, f.4, f.5]
}

/// Whether a login is pending: all six ids are set and the session is usable.
pub open spec fn login_armed(v: ClientView) -> bool {
    let f = v.login_field_values;
    &&& v.session_still_valid
    &&& f.0 != 0 && f.1 != 0 && f.2 != 0 && f.3 != 0 && f.4 != 0 && f.5 != 0
}

fn read_box(only: &IdMap<OnlyInteractable>, id: u32) -> (r: String)
    requires
        only.wf(),
    ensures
        r@ == box_text(only@, id),
{
    match only.find(id) {
        Some(i) => {
            proof {
                lemma_position_unique(only@, i as int);
            }
            match only.value_at(i) {
                OnlyInteractable::TextBox(t) => t.get_text(),
                OnlyInteractable::Button(_) => String::new(),
            }
        },
        None => String::new(),
    }
}

fn clear_box(
    only: &mut IdMap<OnlyInteractable>,
    id: u32,
    Ghost(orig): Ghost<Seq<(u32, OnlyInteractable)>>,
    Ghost(ids): Ghost<Seq<u32>>,
)
    requires
        old(only).wf(),
        boxes_cleared(orig, old(only)@, ids),
    ensures
        final(only).wf(),
        boxes_cleared(orig, final(only)@, ids.push(id)),
{
    let ghost a = only@;
    if let Some(i) = only.find(id) {
        let v = only.value_at_mut(i);
        if let OnlyInteractable::TextBox(t) = v {
            t.force_clear_text();
        }
        proof {
            lemma_update_keeps_positions(a, i as int, only@[i as int].1, id);
        }
    }
    proof {
        assert forall|k: int| 0 <= k < orig.len() implies {
            &&& (#[trigger] only@[k]).0 == orig[k].0
            &&& if ids.push(id).contains(orig[k].0) && orig[k].1 is TextBox {
                only@[k].1 matches OnlyInteractable::TextBox(t2) && t2.same_but_text(
                    orig[k].1->TextBox_0,
                ) && t2.text() == Seq::<char>::empty()
            } else {
                only@[k].1 == orig[k].1
            }
        } by {
            assert(a[k].0 == orig[k].0);
            if orig[k].0 == id {
                assert(ids.push(id).contains(id)) by {
                    assert(ids.push(id)[ids.len() as int] == id);
                }
            } else {
                assert(ids.push(id).contains(orig[k].0) == ids.contains(orig[k].0)) by {
                    if ids.contains(orig[k].0) {
                        let j = choose|j: int| 0 <= j < ids.len() && ids[j] == orig[k].0;
                        assert(ids.push(id)[j] == orig[k].0);
                    }
                }
            }
        }
    }
}

/// One login hand-off by a manager in state `v0`: its next state `v1`, the
/// widgets and display store before and after, and the request made.
pub open spec fn login_step(v0: ClientView, v1: ClientView, only0: Seq<(u32, OnlyInteractable)>, only1: Seq<(u32, OnlyInteractable)>, none0: Seq<(u32, NonInteractable)>, none1: Seq<(u32, NonInteractable)>, r: Option<LoginRequest>) -> bool {
    &&& (!login_armed(v0) ==> {
        &&& r is None
        &&& v1 == v0
        &&& only1 == only0
        &&& none1 == none0
    })
    &&& (login_armed(v0) ==> {
        let ids = field_ids(v0.login_field_values);
        let c = |k: int| box_text(only0, ids[k]);
        &&& boxes_cleared(only0, only1, ids)
        &&& v1 == (ClientView {
            login_field_values: (0, 0, 0, 0, 0, 0),
            ..v0
        })
        &&& if c(0).len() == 0 || c(1).len() == 0 {
            &&& r is None
            &&& logged_into(
                none0,
                none1,
                v0.logger_id,
                seq![MISSING_INFO@],
                false,
            )
        } else if c(2).len() > 0 && (c(3).len() > 0 || c(4).len() > 0 || c(5).len() > 0) {
            &&& r is None
            &&& logged_into(
                none0,
                none1,
                v0.logger_id,
                seq![BOTH_AUTH_MODES@],
                false,
            )
        } else {
            &&& none1 == none0
            &&& r matches Some(req) && req.hostname@ == c(0) && req.username@ == c(1)
                && req.password@ == c(2) && req.public_key@ == c(3) && req.private_key@
                == c(4) && req.passphrase@ == c(5) && req.key_instead_of_password == (c(
                4,
            ).len() > 0)
        }
    })
}

impl SSHClient {
    /// The per-frame login hand-off. When all six login box ids are set and
    /// the session is still usable, reads the six boxes, empties them and
    /// unsets the ids. Hostname and username are required, and a password
    /// excludes the key fields: either problem is logged and nothing else
    /// happens. Otherwise the result asks for a handshake, by key pair when
    /// a private key path was given.
    pub fn update(
        &mut self,
        only: &mut IdMap<OnlyInteractable>,
        none: &mut IdMap<NonInteractable>,
    ) -> (r: Option<LoginRequest>)
        requires
            old(only).wf(),
            old(none).wf(),
        ensures
            final(only).wf(),
            final(none).wf(),
            login_step(old(self)@, final(self)@, old(only)@, final(only)@, old(none)@, final(none)@, r),
    {
        let f = self.login_field_values;
        if !(self.session_still_valid && f.0 != 0 && f.1 != 0 && f.2 != 0 && f.3 != 0 && f.4 != 0
            && f.5 != 0) {
            return None;
        }
        let ids: Vec<u32> = vec![f.0, f.1, f.2, f.3, f.4, f.5];
        assert(ids@ == field_ids(f));
        let mut contents: Vec<String> = Vec::new();
        let mut k: usize = 0;
        while k < 6
            invariant
                0 <= k <= 6,
                ids@ == field_ids(f),
                only.wf(),
                contents@.len() == k,
                forall|j: int| 0 <= j < k ==> (#[trigger] contents@[j])@ == box_text(only@, ids@[j]),
            decreases 6 - k,
        {
            let t = read_box(only, ids[k]);
            contents.push(t);
            k = k + 1;
        }
        let ghost orig = only@;
        proof {
            assert forall|j: int| 0 <= j < orig.len() implies (#[trigger] orig[j]).0 == orig[j].0 && !Seq::<u32>::empty().contains(orig[j].0) by {}
        }
        let mut k: usize = 0;
        while k < 6
            invariant
                0 <= k <= 6,
                ids@ == field_ids(f),
                only.wf(),
                boxes_cleared(orig, only@, ids@.take(k as int)),
            decreases 6 - k,
        {
            clear_box(only, ids[k], Ghost(orig), Ghost(ids@.take(k as int)));
            assert(ids@.take(k as int).push(ids@[k as int]) =~= ids@.take(k + 1));
            k = k + 1;
        }
        assert(ids@.take(6) =~= ids@);
        self.login_field_values = (0, 0, 0, 0, 0, 0);
        let lid = self.logger_id;
        if contents[0].as_str().unicode_len() == 0 || contents[1].as_str().unicode_len() == 0 {
            log_to(none, lid, MISSING_INFO);
            None
        } else if contents[2].as_str().unicode_len() > 0 && (contents[3].as_str().unicode_len() > 0
            || contents[4].as_str().unicode_len() > 0 || contents[5].as_str().unicode_len() > 0) {
            log_to(none, lid, BOTH_AUTH_MODES);
            None
        } else {
            let key = contents[4].as_str().unicode_len() > 0;
            Some(
                LoginRequest {
                    hostname: contents[0].clone(),
                    username: contents[1].clone(),
                    password: contents[2].clone(),
                    public_key: contents[3].clone(),
                    private_key: contents[4].clone(),
                    passphrase: contents[5].clone(),
                    key_instead_of_password: key,
                },
            )
        }
    }

    /// Logs how a handshake ended.
    pub fn report_handshake(
        &self,
        result: Result<i8, HandshakeErrorCode>,
        none: &mut IdMap<NonInteractable>,
    )
        requires
            old(none).wf(),
        ensures
            final(none).wf(),
            logged_into(
                old(none)@,
                final(none)@,
                self@.logger_id,
                handshake_report(result, self@.remote_server),
                false,
            ),
    {
        let lid = self.logger_id;
        let ghost a = none@;
        proof {
            lemma_logged_nothing(a, lid);
        }
        match result {
            Ok(_) => {
                let mut m = SUCCESS_PREFIX.to_string();
                m.append(self.remote_server.as_str());
                log_to(none, lid, m.as_str());
                let ghost b = none@;
                proof {
                    lemma_logged_twice(a, a, b, lid, seq![], m@);
                    assert(Seq::<Seq<char>>::empty().push(m@) =~= handshake_report(result, self@.remote_server));
                }
            },
            Err(code) => {
                let (first, second): (&str, Option<&str>) = match code {
                    HandshakeErrorCode::TcpFail => (TCP_FAIL_LINE, None),
                    HandshakeErrorCode::SessionFail => (SESSION_FAIL_LINE, None),
                    HandshakeErrorCode::HandshakeFail => (HANDSHAKE_FAIL_LINE, Some(HANDSHAKE_HELP_LINE)),
                    HandshakeErrorCode::LoginAuthFail => (LOGIN_AUTH_FAIL_LINE, Some(LOGIN_AUTH_HELP_LINE)),
                    HandshakeErrorCode::SessionAuthFail => (SESSION_AUTH_FAIL_LINE, None),
                };
                log_to(none, lid, first);
                let ghost b = none@;
                proof {
                    lemma_logged_twice(a, a, b, lid, seq![], first@);
                }
                match second {
                    Some(line) => {
                        log_to(none, lid, line);
                        proof {
                            lemma_logged_twice(a, b, none@, lid, seq![first@], line@);
                            assert(seq![first@].push(line@) =~= handshake_report(result, self@.remote_server));
                        }
                    },
                    None => {
                        assert(Seq::<Seq<char>>::empty().push(first@) =~= handshake_report(result, self@.remote_server));
                    },
                }
            },
        }
    }
}

/// The replay list after `c` ran without error output and was recorded.
pub open spec fn history_step(h: Seq<Seq<char>>, c: Seq<char>) -> Seq<Seq<char>> {
    history_after_success(history_before_run(h, c), c, true)
}

/// The replay list after each command of `cmds` ran in turn that way.
pub open spec fn history_after_all(h: Seq<Seq<char>>, cmds: Seq<Seq<char>>) -> Seq<Seq<char>>
    decreases cmds.len(),
{
    if cmds.len() == 0 {
        h
    } else {
        history_step(history_after_all(h, cmds.drop_last()), cmds.last())
    }
}

/// The position of the last absolute `cd` in `cmds`, or -1.
pub open spec fn last_reset(cmds: Seq<Seq<char>>) -> int
    decreases cmds.len(),
{
    if cmds.len() == 0 {
        -1
    } else if is_absolute_cd(cmds.last()) {
        cmds.len() - 1
    } else {
        last_reset(cmds.drop_last())
    }
}

proof fn lemma_last_reset_bound(cmds: Seq<Seq<char>>)
    ensures
        -1 <= last_reset(cmds) < cmds.len(),
        last_reset(cmds) >= 0 ==> is_absolute_cd(cmds[last_reset(cmds)]),
    decreases cmds.len(),
{
    if cmds.len() > 0 && !is_absolute_cd(cmds.last()) {
        lemma_last_reset_bound(cmds.drop_last());
    }
}

/// An absolute `cd` is a `cd`.
pub proof fn lemma_absolute_cd_is_cd(c: Seq<char>)
    requires
        is_absolute_cd(c),
    ensures
        is_cd(c),
{
    reveal_strlit("cd /");
    reveal_strlit("cd ");
    let i = choose|i: int| 0 <= i && i + "cd /"@.len() <= c.len() && #[trigger] c.subrange(i, i + "cd /"@.len()) == "cd /"@;
    assert(c.subrange(i, i + 3) =~= c.subrange(i, i + 4).subrange(0, 3));
    assert("cd /"@.subrange(0, 3) =~= "cd "@);
    assert(c.subrange(i, i + "cd "@.len()) == "cd "@);
}

/// An absolute `cd` that succeeds leaves exactly itself to replay,
/// whatever was recorded before.
pub proof fn lemma_absolute_cd_resets(h: Seq<Seq<char>>, c: Seq<char>)
    requires
        is_absolute_cd(c),
    ensures
        history_step(h, c) == seq![c],
        history_step(h, c).len() == 1,
{
    lemma_absolute_cd_is_cd(c);
    assert(Seq::<Seq<char>>::empty().push(c) =~= seq![c]);
}

/// After any sequence of commands that all succeed, the replay list holds
/// exactly the directory changes made since the last absolute `cd` (that
/// one included), in order; with no absolute `cd`, those made since the
/// start follow what was recorded before. Replayed in a fresh shell they
/// lead to the directory an interactive shell would be in.
pub proof fn lemma_replay_tracks_directory(h: Seq<Seq<char>>, cmds: Seq<Seq<char>>)
    ensures
        history_after_all(h, cmds) == if last_reset(cmds) >= 0 {
            cmds.skip(last_reset(cmds)).filter(|c: Seq<char>| is_cd(c))
        } else {
            h + cmds.filter(|c: Seq<char>| is_cd(c))
        },
    decreases cmds.len(),
{
    let f = |c: Seq<char>| is_cd(c);
    reveal_with_fuel(Seq::filter, 2);
    if cmds.len() == 0 {
        assert(h + cmds.filter(f) =~= h);
    } else {
        let rest = cmds.drop_last();
        let c = cmds.last();
        lemma_replay_tracks_directory(h, rest);
        assert(rest.push(c) =~= cmds);
        if is_absolute_cd(c) {
            lemma_absolute_cd_resets(history_after_all(h, rest), c);
            let one = cmds.skip(cmds.len() - 1);
            assert(one =~= seq![c]);
            assert(one.drop_last() =~= Seq::<Seq<char>>::empty());
            lemma_absolute_cd_is_cd(c);
            assert(one.last() == c);
            assert(f(one.last()));
            assert(one.drop_last().filter(f) =~= Seq::<Seq<char>>::empty());
            assert(one.filter(f) =~= seq![c]);
        } else {
            let k = last_reset(rest);
            lemma_last_reset_bound(rest);
            assert(last_reset(cmds) == k);
            assert(cmds.drop_last() =~= rest);
            if k >= 0 {
                let t = cmds.skip(k);
                assert(t.drop_last() =~= rest.skip(k));
                assert(t.last() == c);
            } else {
                assert(cmds.filter(f) == if is_cd(c) { rest.filter(f).push(c) } else { rest.filter(f) });
                if is_cd(c) {
                    assert(h + rest.filter(f).push(c) =~= (h + rest.filter(f)).push(c));
                }
            }
        }
    }
}

/// Once the session is marked invalid (a failed TCP connection, say), no
/// login hand-off asks for another handshake until a new manager is made.
pub proof fn lemma_invalid_session_blocks_login(v: ClientView)
    requires
        !v.session_still_valid,
    ensures
        !login_armed(v),
{
}

/// A handshake to an unreachable host fails with `TcpFail` and marks the
/// session invalid; the next login hand-off then asks for no handshake and
/// changes nothing, until a new manager is made.
pub proof fn lemma_unreachable_host_blocks_retry(
    v0: ClientView,
    v1: ClientView,
    step: HandshakeStep,
    v2: ClientView,
    only0: Seq<(u32, OnlyInteractable)>,
    only1: Seq<(u32, OnlyInteractable)>,
    none0: Seq<(u32, NonInteractable)>,
    none1: Seq<(u32, NonInteractable)>,
    r: Option<LoginRequest>,
)
    requires
        handshake_advanced(v0, v1, HandshakeEvent::TcpConnect(false), step),
        login_step(v1, v2, only0, only1, none0, none1, r),
    ensures
        step == HandshakeStep::Finished(Err(HandshakeErrorCode::TcpFail)),
        !v1.session_still_valid,
        v1.have_logged_in == v0.have_logged_in,
        r is None,
        v2 == v1,
        only1 == only0,
        none1 == none0,
{
}

/// Refused credentials end the handshake with `LoginAuthFail`, leave the
/// manager as it was (still valid, not logged in if it was not), and are
/// reported by one failure line followed by one hint.
pub proof fn lemma_refused_login_keeps_session(
    v0: ClientView,
    v1: ClientView,
    authenticated: bool,
    step: HandshakeStep,
)
    requires
        handshake_advanced(v0, v1, HandshakeEvent::Auth { accepted: false, authenticated }, step),
    ensures
        step == HandshakeStep::Finished(Err(HandshakeErrorCode::LoginAuthFail)),
        v1 == v0,
        handshake_report(Err(HandshakeErrorCode::LoginAuthFail), v0.remote_server) == seq![
            LOGIN_AUTH_FAIL_LINE@,
            LOGIN_AUTH_HELP_LINE@,
        ],
{
}

} // verus!
