use vstd::prelude::*;

use crate::display::TextBlock;
use crate::geometry::Rgba;
use crate::widgets::TextBox;
use crate::handlers::{
    client_at, client_now, client_view, find_client, lemma_client_now, resumed, started, HandlerJob,
    RemoteReply, Step,
};
use crate::id_map::{lemma_position_unique, lemma_update_keeps_positions, IdMap};
use crate::object_ids::{LOGGER, HOSTNAME_BOX, PASSPHRASE_BOX, PRIVATE_KEY_BOX, PUBLIC_KEY_BOX, USERNAME_BOX, SSHCLIENT};
use crate::session::{handshake_advanced, handshake_report, login_step, ClientView, HandshakeErrorCode, HandshakeEvent, HandshakeStep, LoginRequest};
use crate::store::{logged_into, snapshot, snapshot_of, HiddenManager, NonInteractable, OnlyInteractable};
use crate::user_interaction::{first_firing, fired_before, frame_stepped, FrameInput, Invocation, UserInteractionManager};

verus! {

/// A widget after start-up: a text box's text takes on its password mode.
pub open spec fn initialised(e: (u32, OnlyInteractable)) -> (u32, OnlyInteractable) {
    match e.1 {
        OnlyInteractable::TextBox(t) => (
            e.0,
            OnlyInteractable::TextBox(
                TextBox {
                    text_container: TextBlock { password_mode: t.password_mode, ..t.text_container },
                    ..t
                },
            ),
        ),
        OnlyInteractable::Button(_) => e,
    }
}

/// `b` is the hidden service `a` after start-up: it reports to `LOGGER`.
pub open spec fn logger_found(a: HiddenManager, b: HiddenManager) -> bool {
    match (a, b) {
        (HiddenManager::SSHClient(c0), HiddenManager::SSHClient(c1)) => c1@ == (ClientView {
            logger_id: LOGGER,
            ..c0@
        }),
    }
}

/// Owns the three component tables of the window: display entities,
/// widgets and hidden services.
pub struct WindowManager {
    pub screen_width: i32,
    pub screen_height: i32,
    pub main_window_colour: Rgba,
    pub non_interactable_components: IdMap<NonInteractable>,
    pub only_interactable_components: IdMap<OnlyInteractable>,
    pub hidden_components: IdMap<HiddenManager>,
}

impl WindowManager {
    pub open spec fn wf(&self) -> bool {
        &&& self.non_interactable_components.wf()
        &&& self.only_interactable_components.wf()
        &&& self.hidden_components.wf()
    }

    pub fn new(w: i32, h: i32, colour: Rgba) -> (r: WindowManager)
        ensures
            r.wf(),
            r.screen_width == w && r.screen_height == h,
            r.main_window_colour == colour,
            r.non_interactable_components@.len() == 0,
            r.only_interactable_components@.len() == 0,
            r.hidden_components@.len() == 0,
    {
        WindowManager {
            screen_width: w,
            screen_height: h,
            main_window_colour: colour,
            non_interactable_components: IdMap::new(),
            only_interactable_components: IdMap::new(),
            hidden_components: IdMap::new(),
        }
    }

    /// A full copy of the display store.
    pub fn get_non_interactable_graphics_components(&self) -> (r: IdMap<NonInteractable>)
        requires
            self.wf(),
        ensures
            r.wf(),
            r@.len() == self.non_interactable_components@.len(),
            forall|k: int|
                0 <= k < r@.len() ==> (#[trigger] r@[k]).0 == self.non_interactable_components@[k].0
                    && r@[k].1.same_entity(self.non_interactable_components@[k].1),
    {
        snapshot(&self.non_interactable_components)
    }

    /// Installs a replacement display store.
    pub fn set_non_interactable_graphics_components(&mut self, value: IdMap<NonInteractable>)
        requires
            value.wf(),
        ensures
            final(self).non_interactable_components == value,
            final(self).only_interactable_components == old(self).only_interactable_components,
            final(self).hidden_components == old(self).hidden_components,
    {
        self.non_interactable_components = value;
    }

    /// The widgets and the hidden services, for use at the same time.
    pub fn get_pair_of_graphics_components(&mut self) -> (r: (
        &mut IdMap<OnlyInteractable>,
        &mut IdMap<HiddenManager>,
    ))
        ensures
            *r.0 == old(self).only_interactable_components,
            *r.1 == old(self).hidden_components,
            *final(self) == (WindowManager {
                only_interactable_components: *final(r.0),
                hidden_components: *final(r.1),
                ..*old(self)
            }),
    {
        (&mut self.only_interactable_components, &mut self.hidden_components)
    }

    /// Readies the components: text boxes pass their password mode to their
    /// text, and the session manager finds its logger.
    pub fn init(&mut self)
        requires
            old(self).wf(),
        ensures
            final(self).wf(),
            final(self).non_interactable_components == old(self).non_interactable_components,
            final(self).only_interactable_components@.len() == old(self).only_interactable_components@.len(),
            forall|k: int|
                0 <= k < old(self).only_interactable_components@.len() ==> #[trigger] final(self).only_interactable_components@[k] == initialised(old(self).only_interactable_components@[k]),
            final(self).hidden_components@.len() == old(self).hidden_components@.len(),
            forall|k: int|
                0 <= k < old(self).hidden_components@.len() ==> (#[trigger] final(self).hidden_components@[k]).0 == old(self).hidden_components@[k].0 && logger_found(
                    old(self).hidden_components@[k].1,
                    final(self).hidden_components@[k].1,
                ),
    {
        let ghost o = self.only_interactable_components@;
        let n: usize = self.only_interactable_components.len();
        let mut i: usize = 0;
        while i < n
            invariant
                self.wf(),
                n == o.len(),
                i <= n,
                self.only_interactable_components@.len() == n,
                self.non_interactable_components == old(self).non_interactable_components,
                self.hidden_components == old(self).hidden_components,
                forall|k: int| 0 <= k < i ==> #[trigger] self.only_interactable_components@[k] == initialised(o[k]),
                forall|k: int| i <= k < n ==> #[trigger] self.only_interactable_components@[k] == o[k],
            decreases n - i,
        {
            let ghost a = self.only_interactable_components@;
            let w = self.only_interactable_components.value_at_mut(i);
            if let OnlyInteractable::TextBox(t) = w {
                t.init();
            }
            proof {
                lemma_update_keeps_positions(a, i as int, self.only_interactable_components@[i as int].1, 0);
            }
            i = i + 1;
        }
        let ghost hs = self.hidden_components@;
        let m: usize = self.hidden_components.len();
        let mut j: usize = 0;
        while j < m
            invariant
                self.wf(),
                m == hs.len(),
                j <= m,
                hs == old(self).hidden_components@,
                self.hidden_components@.len() == m,
                self.non_interactable_components == old(self).non_interactable_components,
                self.only_interactable_components@.len() == n,
                forall|k: int| 0 <= k < n ==> #[trigger] self.only_interactable_components@[k] == initialised(o[k]),
                forall|k: int|
                    0 <= k < j ==> (#[trigger] self.hidden_components@[k]).0 == hs[k].0 && logger_found(
                        hs[k].1,
                        self.hidden_components@[k].1,
                    ),
                forall|k: int| j <= k < m ==> #[trigger] self.hidden_components@[k] == hs[k],
            decreases m - j,
        {
            let ghost a = self.hidden_components@;
            let w = self.hidden_components.value_at_mut(j);
            match w {
                HiddenManager::SSHClient(c) => c.init(),
            }
            proof {
                lemma_update_keeps_positions(a, j as int, self.hidden_components@[j as int].1, 0);
            }
            j = j + 1;
        }
    }

    /// Puts text given at start-up into the login boxes: hostname,
    /// username, public key, private key and passphrase.
    pub fn prefill_login_fields(
        &mut self,
        hostname: Option<String>,
        username: Option<String>,
        public: Option<String>,
        private: Option<String>,
        passphrase: Option<String>,
    )
        requires
            old(self).wf(),
        ensures
            final(self).wf(),
            final(self).non_interactable_components == old(self).non_interactable_components,
            final(self).hidden_components == old(self).hidden_components,
    {
        if let Some(t) = hostname {
            self.set_box_text(HOSTNAME_BOX, t);
        }
        if let Some(t) = username {
            self.set_box_text(USERNAME_BOX, t);
        }
        if let Some(t) = public {
            self.set_box_text(PUBLIC_KEY_BOX, t);
        }
        if let Some(t) = private {
            self.set_box_text(PRIVATE_KEY_BOX, t);
        }
        if let Some(t) = passphrase {
            self.set_box_text(PASSPHRASE_BOX, t);
        }
    }

    /// Sets the text of the text box under `id`, if there is one.
    pub fn set_box_text(&mut self, id: u32, text: String)
        requires
            old(self).wf(),
        ensures
            final(self).wf(),
            final(self).non_interactable_components == old(self).non_interactable_components,
            final(self).hidden_components == old(self).hidden_components,
            crate::session::box_text(final(self).only_interactable_components@, id) == if crate::id_map::value_of(old(self).only_interactable_components@, id) matches Some(OnlyInteractable::TextBox(_)) {
                text@
            } else {
                crate::session::box_text(old(self).only_interactable_components@, id)
            },
    {
        let ghost a = self.only_interactable_components@;
        if let Some(i) = self.only_interactable_components.find(id) {
            proof {
                lemma_position_unique(a, i as int);
            }
            let w = self.only_interactable_components.value_at_mut(i);
            if let OnlyInteractable::TextBox(t) = w {
                t.force_set_text(text);
            }
            proof {
                lemma_update_keeps_positions(a, i as int, self.only_interactable_components@[i as int].1, id);
                lemma_position_unique(self.only_interactable_components@, i as int);
            }
        }
    }

    /// The session manager's per-frame login hand-off; see
    /// `SSHClient::update`.
    pub fn update_hidden(&mut self) -> (r: Option<LoginRequest>)
        requires
            old(self).wf(),
        ensures
            final(self).wf(),
            final(self).screen_width == old(self).screen_width,
            final(self).screen_height == old(self).screen_height,
            final(self).main_window_colour == old(self).main_window_colour,
            match client_view(old(self).hidden_components@) {
                None => r is None && *final(self) == *old(self),
                Some(v) => client_view(final(self).hidden_components@) matches Some(v1) && client_now(
                    old(self).hidden_components@,
                    final(self).hidden_components@,
                    v1,
                ) && login_step(
                    v,
                    v1,
                    old(self).only_interactable_components@,
                    final(self).only_interactable_components@,
                    old(self).non_interactable_components@,
                    final(self).non_interactable_components@,
                    r,
                ),
            },
    {
        match find_client(&self.hidden_components) {
            None => None,
            Some(i) => {
                let ghost a = self.hidden_components@;
                let c = client_at(&mut self.hidden_components, i);
                let r = c.update(&mut self.only_interactable_components, &mut self.non_interactable_components);
                proof {
                    lemma_client_now(a, i as int, *c);
                }
                r
            },
        }
    }

    /// Starts the handshake a login request asked for: the manager stores
    /// the request's settings.
    pub fn start_handshake(&mut self, req: LoginRequest) -> (r: Option<HandshakeStep>)
        requires
            old(self).wf(),
        ensures
            final(self).wf(),
            final(self).only_interactable_components == old(self).only_interactable_components,
            final(self).non_interactable_components == old(self).non_interactable_components,
            match client_view(old(self).hidden_components@) {
                None => r is None && final(self).hidden_components == old(self).hidden_components,
                Some(v) => {
                    &&& r matches Some(step) && step matches HandshakeStep::OpenTcp { address }
                        && address@ == req.hostname@ + ":22"@
                    &&& client_now(
                        old(self).hidden_components@,
                        final(self).hidden_components@,
                        ClientView {
                            remote_server: req.hostname@,
                            username: req.username@,
                            password: req.password@,
                            public_key: req.public_key@,
                            private_key: req.private_key@,
                            passphrase: req.passphrase@,
                            key_auth: req.key_instead_of_password,
                            ..v
                        },
                    )
                },
            },
    {
        match find_client(&self.hidden_components) {
            None => None,
            Some(i) => {
                let ghost a = self.hidden_components@;
                let c = client_at(&mut self.hidden_components, i);
                let r = c.make_ssh_handshake(
                    req.hostname,
                    req.username,
                    req.password,
                    req.public_key,
                    req.private_key,
                    req.passphrase,
                    req.key_instead_of_password,
                );
                proof {
                    lemma_client_now(a, i as int, *c);
                }
                Some(r)
            },
        }
    }

    /// Hands the transport's report to the session manager's handshake; see
    /// `SSHClient::advance_handshake`.
    pub fn advance_handshake(&mut self, event: HandshakeEvent) -> (r: Option<HandshakeStep>)
        requires
            old(self).wf(),
        ensures
            final(self).wf(),
            final(self).only_interactable_components == old(self).only_interactable_components,
            final(self).non_interactable_components == old(self).non_interactable_components,
            match client_view(old(self).hidden_components@) {
                None => r is None && final(self).hidden_components == old(self).hidden_components,
                Some(v) => r matches Some(step) && client_view(final(self).hidden_components@) matches Some(
                    v1,
                ) && client_now(old(self).hidden_components@, final(self).hidden_components@, v1)
                    && handshake_advanced(v, v1, event, step),
            },
    {
        match find_client(&self.hidden_components) {
            None => None,
            Some(i) => {
                let ghost a = self.hidden_components@;
                let c = client_at(&mut self.hidden_components, i);
                let r = c.advance_handshake(event);
                proof {
                    lemma_client_now(a, i as int, *c);
                }
                Some(r)
            },
        }
    }

    /// Logs how the handshake ended; see `SSHClient::report_handshake`.
    pub fn report_handshake(&mut self, result: Result<i8, HandshakeErrorCode>)
        requires
            old(self).wf(),
        ensures
            final(self).wf(),
            final(self).only_interactable_components == old(self).only_interactable_components,
            final(self).hidden_components == old(self).hidden_components,
            match client_view(old(self).hidden_components@) {
                None => final(self).non_interactable_components == old(self).non_interactable_components,
                Some(v) => logged_into(
                    old(self).non_interactable_components@,
                    final(self).non_interactable_components@,
                    v.logger_id,
                    handshake_report(result, v.remote_server),
                    false,
                ),
            },
    {
        if let Some(i) = find_client(&self.hidden_components) {
            match self.hidden_components.value_at(i) {
                HiddenManager::SSHClient(c) => c.report_handshake(result, &mut self.non_interactable_components),
            }
        }
    }

    /// One frame of interaction: widgets react to the input, and the
    /// handler of the first widget due to fire, if any, starts on a copy of
    /// the display store.
    pub fn dispatch(&mut self, uim: &mut UserInteractionManager, input: FrameInput) -> (r: Option<Step>)
        requires
            old(self).wf(),
        ensures
            final(self).wf(),
            final(self).non_interactable_components == old(self).non_interactable_components,
            frame_stepped(
                old(self).only_interactable_components@,
                final(self).only_interactable_components@,
                input,
                input.enter_down && !old(uim).enter_was_down,
            ),
            r is None <==> !fired_before(
                old(self).only_interactable_components@,
                old(self).only_interactable_components@.len() as int,
                input,
                input.enter_down && !old(uim).enter_was_down,
            ),
            r is None ==> final(self).hidden_components == old(self).hidden_components,
            r matches Some(step) ==> exists|inv: Invocation, p: IdMap<NonInteractable>|
                first_firing(
                    old(self).only_interactable_components@,
                    inv,
                    input,
                    input.enter_down && !old(uim).enter_was_down,
                ) && p.wf() && snapshot_of(p@, old(self).non_interactable_components@) && #[trigger] started(
                    inv,
                    p,
                    old(self).hidden_components@,
                    final(self).hidden_components@,
                    step,
                ),
            r matches Some(Step::Request(j, _)) ==> j.parts.wf(),
            r matches Some(Step::Done(Some(p))) ==> p.wf(),
    {
        match uim.update(input, &mut self.only_interactable_components) {
            None => None,
            Some(inv) => {
                let parts = self.get_non_interactable_graphics_components();
                let ghost g_inv = inv;
                let ghost g_parts = parts;
                let ghost h0 = self.hidden_components@;
                let step = inv.start(parts, &mut self.hidden_components);
                assert(started(g_inv, g_parts, h0, self.hidden_components@, step));
                Some(step)
            },
        }
    }

    /// Hands a reply to a waiting handler; see `HandlerJob::resume`.
    pub fn resume_job(&mut self, job: HandlerJob, reply: RemoteReply) -> (r: Step)
        requires
            old(self).wf(),
            job.parts.wf(),
        ensures
            final(self).wf(),
            final(self).non_interactable_components == old(self).non_interactable_components,
            final(self).only_interactable_components == old(self).only_interactable_components,
            resumed(job, reply, old(self).hidden_components@, final(self).hidden_components@, r),
            r matches Step::Request(j, _) ==> j.parts.wf(),
            r matches Step::Done(Some(p)) ==> p.wf(),
    {
        job.resume(reply, &mut self.hidden_components)
    }

    /// Installs what a finished handler handed back, if anything.
    pub fn install(&mut self, result: Option<IdMap<NonInteractable>>)
        requires
            old(self).wf(),
            result matches Some(p) ==> p.wf(),
        ensures
            final(self).wf(),
            match result {
                Some(p) => final(self).non_interactable_components == p,
                None => final(self).non_interactable_components == old(self).non_interactable_components,
            },
    {
        if let Some(p) = result {
            self.set_non_interactable_graphics_components(p);
        }
    }
}

} // verus!
