use vstd::prelude::*;

verus! {

// Widget ids. The id of a widget's backing panel is the widget's id plus 100.
pub const HOSTNAME_BOX: u32 = 1;
pub const HOSTNAME_DCR: u32 = 101;

pub const USERNAME_BOX: u32 = 2;
pub const USERNAME_DCR: u32 = 102;

pub const PASSWORD_BOX: u32 = 3;
pub const PASSWORD_DCR: u32 = 103;

pub const PUBLIC_KEY_BOX: u32 = 4;
pub const PUBLIC_KEY_DCR: u32 = 104;

pub const PRIVATE_KEY_BOX: u32 = 5;
pub const PRIVATE_KEY_DCR: u32 = 105;

pub const PASSPHRASE_BOX: u32 = 6;
pub const PASSPHRASE_DCR: u32 = 106;

pub const LOGIN_BUTTON: u32 = 7;
pub const LOGIN_DCR: u32 = 107;

pub const COMMAND_BOX: u32 = 8;
pub const COMMAND_DCR: u32 = 108;

pub const DOWNLOAD_BOX: u32 = 9;
pub const DOWNLOAD_DCR: u32 = 109;

pub const UPLOAD_FILE_BOX: u32 = 10;
pub const UPLOAD_FILE_DCR: u32 = 110;

pub const UPLOAD_DIR_BOX: u32 = 11;
pub const UPLOAD_DIR_DCR: u32 = 111;

/// The scrollback logger among the display entities.
pub const LOGGER: u32 = 50;

/// The session manager among the hidden components.
pub const SSHCLIENT: u32 = 100;

} // verus!
