use vstd::prelude::*;

use crate::display::{ScreenDecoration, TextBlock};
use crate::geometry::Rgba;
use crate::handlers::{
    ButtonHandler, DoNothing, DownloadFile, ExecuteCommand, SSHConnect, TextboxMethod,
    UploadDirectory, UploadFile,
};
use crate::id_map::{id_set, value_of, IdMap};
use crate::logger::Logger;
use crate::object_ids::{
    COMMAND_BOX, COMMAND_DCR, DOWNLOAD_BOX, DOWNLOAD_DCR, HOSTNAME_BOX, HOSTNAME_DCR, LOGGER,
    LOGIN_BUTTON, LOGIN_DCR, PASSPHRASE_BOX, PASSPHRASE_DCR, PASSWORD_BOX, PASSWORD_DCR,
    PRIVATE_KEY_BOX, PRIVATE_KEY_DCR, PUBLIC_KEY_BOX, PUBLIC_KEY_DCR, SSHCLIENT, UPLOAD_DIR_BOX,
    UPLOAD_DIR_DCR, UPLOAD_FILE_BOX, UPLOAD_FILE_DCR, USERNAME_BOX, USERNAME_DCR,
};
use crate::session::{fresh_client_view, SSHClient};
use crate::store::{HiddenManager, NonInteractable, OnlyInteractable};
use crate::widgets::{Button, TextBox};

verus! {

/// A form text box of the standard size whose text starts 10 pixels in.
fn form_box(
    x: i32,
    y: i32,
    rose: bool,
    placeholder: &str,
    on_enter: TextboxMethod,
    password_mode: bool,
    enter_clears_text: bool,
    enter_removes_focus: bool,
) -> (r: OnlyInteractable)
    requires
        0 <= x <= 10000,
        0 <= y <= 10000,
    ensures
        r matches OnlyInteractable::TextBox(t) && t.on_enter == on_enter && t.password_mode
            == password_mode && t.enter_clears_text == enter_clears_text && t.enter_removes_focus
            == enter_removes_focus && t.text() == Seq::<char>::empty(),
{
    let (idle, hover, depressed) = if rose {
        (Rgba::new(255, 140, 140, 255), Rgba::new(255, 204, 204, 255), Rgba::new(179, 77, 77, 255))
    } else {
        (Rgba::new(230, 230, 230, 255), Rgba::new(255, 255, 255, 255), Rgba::new(179, 179, 179, 255))
    };
    OnlyInteractable::TextBox(
        TextBox::new(
            x,
            y,
            300,
            50,
            idle,
            hover,
            depressed,
            placeholder.to_string(),
            on_enter,
            TextBlock::new(x + 10, y + 30, Rgba::new(0, 0, 0, 255), String::new(), 20),
            password_mode,
            enter_clears_text,
            enter_removes_focus,
        ),
    )
}

/// The frame drawn 5 pixels around a form widget.
fn frame_for(x: i32, y: i32) -> (r: NonInteractable)
    requires
        10 <= x <= 10000,
        10 <= y <= 10000,
{
    NonInteractable::ScreenDecoration(ScreenDecoration::new(x - 5, y - 5, 310, 60, Rgba::new(13, 13, 13, 255)))
}

fn label(x: i32, y: i32, text: &str, size: i32) -> (r: NonInteractable) {
    NonInteractable::TextBlock(TextBlock::new(x, y, Rgba::new(13, 13, 13, 255), text.to_string(), size))
}

/// The entry under `id` is an empty text box with the Enter handler `m`.
pub open spec fn form_box_at(s: Seq<(u32, OnlyInteractable)>, id: u32, m: TextboxMethod) -> bool {
    value_of(s, id) matches Some(OnlyInteractable::TextBox(t)) && t.on_enter == m && t.text()
        == Seq::<char>::empty()
}

/// Adds the login form, its button, and the command and transfer boxes.
fn add_widgets(only: &mut IdMap<OnlyInteractable>)
    requires
        old(only).wf(),
    ensures
        final(only).wf(),
        value_of(final(only)@, LOGIN_BUTTON) matches Some(OnlyInteractable::Button(b))
            && b.button_handler == ButtonHandler::SSHConnect(SSHConnect),
        form_box_at(final(only)@, HOSTNAME_BOX, TextboxMethod::DoNothing(DoNothing)),
        form_box_at(final(only)@, USERNAME_BOX, TextboxMethod::DoNothing(DoNothing)),
        form_box_at(final(only)@, PASSWORD_BOX, TextboxMethod::DoNothing(DoNothing)),
        form_box_at(final(only)@, PUBLIC_KEY_BOX, TextboxMethod::DoNothing(DoNothing)),
        form_box_at(final(only)@, PRIVATE_KEY_BOX, TextboxMethod::DoNothing(DoNothing)),
        form_box_at(final(only)@, PASSPHRASE_BOX, TextboxMethod::DoNothing(DoNothing)),
        form_box_at(final(only)@, COMMAND_BOX, TextboxMethod::ExecuteCommand(ExecuteCommand)),
        form_box_at(final(only)@, DOWNLOAD_BOX, TextboxMethod::DownloadFile(DownloadFile)),
        form_box_at(final(only)@, UPLOAD_FILE_BOX, TextboxMethod::UploadFile(UploadFile)),
        form_box_at(final(only)@, UPLOAD_DIR_BOX, TextboxMethod::UploadDirectory(UploadDirectory)),
        id_set(final(only)@) == id_set(old(only)@).union(set![1u32, 2, 3, 4, 5, 6, 7, 8, 9, 10, 11]),
{
    let ghost start = only@;
    let nothing = TextboxMethod::DoNothing(DoNothing);

    only.insert(HOSTNAME_BOX, form_box(25, 25, true, "Enter Hostname", nothing, false, false, true));
    only.insert(USERNAME_BOX, form_box(340, 25, true, "Enter Username", nothing, false, false, true));
    only.insert(PASSWORD_BOX, form_box(25, 155, false, "Enter Password", nothing, true, false, true));
    only.insert(
        PUBLIC_KEY_BOX,
        form_box(340, 90, false, "Enter Public Key Path", nothing, false, false, true),
    );
    only.insert(
        PRIVATE_KEY_BOX,
        form_box(340, 155, false, "Enter Private Key Path", nothing, false, false, true),
    );
    only.insert(PASSPHRASE_BOX, form_box(340, 220, false, "Enter Passphrase", nothing, false, false, true));

    only.insert(
        LOGIN_BUTTON,
        OnlyInteractable::Button(
            Button::new(
                182,
                285,
                300,
                50,
                Rgba::new(128, 51, 51, 255),
                Rgba::new(204, 128, 128, 255),
                Rgba::new(77, 3, 3, 255),
                ButtonHandler::SSHConnect(SSHConnect),
                TextBlock::new(227, 315, Rgba::new(255, 255, 255, 255), "Login".to_string(), 20),
            ),
        ),
    );

    only.insert(
        COMMAND_BOX,
        form_box(
            25,
            415,
            false,
            "Enter Command",
            TextboxMethod::ExecuteCommand(ExecuteCommand),
            false,
            true,
            false,
        ),
    );
    only.insert(
        DOWNLOAD_BOX,
        form_box(
            25,
            480,
            false,
            "Enter a file to download",
            TextboxMethod::DownloadFile(DownloadFile),
            false,
            true,
            true,
        ),
    );
    only.insert(
        UPLOAD_FILE_BOX,
        form_box(
            25,
            545,
            false,
            "Enter a file to upload",
            TextboxMethod::UploadFile(UploadFile),
            false,
            true,
            true,
        ),
    );
    only.insert(
        UPLOAD_DIR_BOX,
        form_box(
            25,
            610,
            false,
            "Enter a directory to upload",
            TextboxMethod::UploadDirectory(UploadDirectory),
            false,
            true,
            true,
        ),
    );
    assert(id_set(only@) =~= id_set(start).union(set![1u32, 2, 3, 4, 5, 6, 7, 8, 9, 10, 11]));
}

/// The ids of the frames behind the form widgets.
pub open spec fn frame_ids() -> Set<u32> {
    set![101u32, 102, 103, 104, 105, 106, 107, 108, 109, 110, 111]
}

/// The ids of the panels, labels and the logger.
pub open spec fn panel_ids() -> Set<u32> {
    set![51u32, 52, 49, 50, 71, 54, 55, 72, 73, 74, 75]
}

/// Adds the frames behind the form widgets.
fn add_frames(none: &mut IdMap<NonInteractable>)
    requires
        old(none).wf(),
    ensures
        final(none).wf(),
        forall|k: u32| !frame_ids().contains(k) ==> value_of(final(none)@, k) == value_of(old(none)@, k),
        id_set(final(none)@) == id_set(old(none)@).union(frame_ids()),
{
    let ghost start = none@;
    none.insert(HOSTNAME_DCR, frame_for(25, 25));
    none.insert(USERNAME_DCR, frame_for(340, 25));
    none.insert(PASSWORD_DCR, frame_for(25, 155));
    none.insert(PUBLIC_KEY_DCR, frame_for(340, 90));
    none.insert(PRIVATE_KEY_DCR, frame_for(340, 155));
    none.insert(PASSPHRASE_DCR, frame_for(340, 220));
    none.insert(LOGIN_DCR, frame_for(182, 285));
    none.insert(COMMAND_DCR, frame_for(25, 415));
    none.insert(DOWNLOAD_DCR, frame_for(25, 480));
    none.insert(UPLOAD_FILE_DCR, frame_for(25, 545));
    none.insert(UPLOAD_DIR_DCR, frame_for(25, 610));
    assert(id_set(none@) =~= id_set(start).union(frame_ids()));
}

/// Adds the panels, the labels and the logger.
#[verifier::rlimit(60)]
fn add_panels(none: &mut IdMap<NonInteractable>)
    requires
        old(none).wf(),
    ensures
        final(none).wf(),
        value_of(final(none)@, LOGGER) matches Some(NonInteractable::Logger(_)),
        id_set(final(none)@) == id_set(old(none)@).union(panel_ids()),
{
    let ghost start = none@;
    none.insert(51, NonInteractable::ScreenDecoration(ScreenDecoration::new(9, 9, 664, 342, Rgba::new(51, 51, 51, 255))));
    none.insert(52, NonInteractable::ScreenDecoration(ScreenDecoration::new(9, 399, 664, 492, Rgba::new(51, 51, 51, 255))));
    none.insert(49, NonInteractable::ScreenDecoration(ScreenDecoration::new(681, 49, 1082, 842, Rgba::new(51, 51, 51, 255))));
    none.insert(71, label(1161, 33, "Logger", 46));
    none.insert(54, NonInteractable::ScreenDecoration(ScreenDecoration::new(335, 475, 310, 125, Rgba::new(13, 13, 13, 255))));
    none.insert(55, NonInteractable::ScreenDecoration(ScreenDecoration::new(340, 480, 300, 115, Rgba::new(128, 51, 51, 255))));
    none.insert(72, label(350, 510, "Warning", 40));
    none.insert(73, label(350, 535, "SFTP actions are a thread-", 20));
    none.insert(74, label(350, 555, "blocking action", 20));
    none.insert(75, label(350, 575, "The screen may go unresponsive ", 20));
    none.insert(LOGGER, NonInteractable::Logger(Logger::new(682, 50, 1080, 840, 5, 20, Rgba::new(255, 255, 255, 255), String::new())));
    assert(id_set(none@) =~= id_set(start).union(panel_ids()));
}

/// The ids of the display entities.
pub open spec fn display_ids() -> Set<u32> {
    frame_ids().union(panel_ids())
}

/// Adds the frames, panels, labels and the logger.
fn add_display(none: &mut IdMap<NonInteractable>)
    requires
        old(none).wf(),
    ensures
        final(none).wf(),
        value_of(final(none)@, LOGGER) matches Some(NonInteractable::Logger(_)),
        id_set(final(none)@) == id_set(old(none)@).union(display_ids()),
{
    let ghost start = none@;
    add_frames(none);
    add_panels(none);
    assert(id_set(none@) =~= id_set(start).union(display_ids()));
}

/// Fills the three tables with the window's components: the login form
/// and its button, the command and transfer boxes, the logger with its
/// panels and labels, and a fresh session manager.
pub fn init_graphics_objects_main(
    non_interactable_components: &mut IdMap<NonInteractable>,
    only_interactable_components: &mut IdMap<OnlyInteractable>,
    hidden_components: &mut IdMap<HiddenManager>,
)
    requires
        old(non_interactable_components).wf(),
        old(only_interactable_components).wf(),
        old(hidden_components).wf(),
    ensures
        final(non_interactable_components).wf(),
        final(only_interactable_components).wf(),
        final(hidden_components).wf(),
        value_of(final(non_interactable_components)@, LOGGER) matches Some(NonInteractable::Logger(_)),
        value_of(final(hidden_components)@, SSHCLIENT) matches Some(HiddenManager::SSHClient(c))
            && c@ == fresh_client_view(),
        value_of(final(only_interactable_components)@, LOGIN_BUTTON) matches Some(OnlyInteractable::Button(b))
            && b.button_handler == ButtonHandler::SSHConnect(SSHConnect),
        form_box_at(final(only_interactable_components)@, HOSTNAME_BOX, TextboxMethod::DoNothing(DoNothing)),
        form_box_at(final(only_interactable_components)@, USERNAME_BOX, TextboxMethod::DoNothing(DoNothing)),
        form_box_at(final(only_interactable_components)@, PASSWORD_BOX, TextboxMethod::DoNothing(DoNothing)),
        form_box_at(final(only_interactable_components)@, PUBLIC_KEY_BOX, TextboxMethod::DoNothing(DoNothing)),
        form_box_at(final(only_interactable_components)@, PRIVATE_KEY_BOX, TextboxMethod::DoNothing(DoNothing)),
        form_box_at(final(only_interactable_components)@, PASSPHRASE_BOX, TextboxMethod::DoNothing(DoNothing)),
        form_box_at(final(only_interactable_components)@, COMMAND_BOX, TextboxMethod::ExecuteCommand(ExecuteCommand)),
        form_box_at(final(only_interactable_components)@, DOWNLOAD_BOX, TextboxMethod::DownloadFile(DownloadFile)),
        form_box_at(final(only_interactable_components)@, UPLOAD_FILE_BOX, TextboxMethod::UploadFile(UploadFile)),
        form_box_at(
            final(only_interactable_components)@,
            UPLOAD_DIR_BOX,
            TextboxMethod::UploadDirectory(UploadDirectory),
        ),
        old(only_interactable_components)@.len() == 0 ==> id_set(final(only_interactable_components)@)
            == set![1u32, 2, 3, 4, 5, 6, 7, 8, 9, 10, 11],
        old(hidden_components)@.len() == 0 ==> id_set(final(hidden_components)@) == set![SSHCLIENT],
        old(non_interactable_components)@.len() == 0 && old(only_interactable_components)@.len() == 0
            ==> id_set(final(non_interactable_components)@).disjoint(id_set(final(only_interactable_components)@)),
{
    add_widgets(only_interactable_components);
    add_display(non_interactable_components);
    hidden_components.insert(SSHCLIENT, HiddenManager::SSHClient(SSHClient::new()));
    proof {
        if old(only_interactable_components)@.len() == 0 {
            assert(id_set(old(only_interactable_components)@) =~= Set::<u32>::empty());
            assert(id_set(only_interactable_components@) =~= set![1u32, 2, 3, 4, 5, 6, 7, 8, 9, 10, 11]);
        }
        if old(hidden_components)@.len() == 0 {
            assert(id_set(old(hidden_components)@) =~= Set::<u32>::empty());
            assert(id_set(hidden_components@) =~= set![SSHCLIENT]);
        }
        if old(non_interactable_components)@.len() == 0 && old(only_interactable_components)@.len() == 0 {
            assert(id_set(old(non_interactable_components)@) =~= Set::<u32>::empty());
            assert(id_set(non_interactable_components@) =~= display_ids());
            assert(display_ids().disjoint(set![1u32, 2, 3, 4, 5, 6, 7, 8, 9, 10, 11]));
        }
    }
}

} // verus!
