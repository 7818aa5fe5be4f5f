//! What the title bar shows beside the collaborators: the call controls, the
//! state of the connection, the user menu, and the labels of the project.

use vstd::prelude::*;
use vstd::string::*;

verus! {

/// The longest project name that is shown in full, in characters.
pub const MAX_PROJECT_NAME_LENGTH: usize = 40;

/// The longest branch name that is shown in full, in characters.
pub const MAX_BRANCH_NAME_LENGTH: usize = 40;

/// `s` if it has at most `max_chars` characters, else its first `max_chars`
/// characters and an ellipsis.
pub open spec fn trailed_off(s: Seq<char>, max_chars: nat) -> Seq<char> {
    if s.len() <= max_chars {
        s
    } else {
        s.take(max_chars as int).push('\u{2026}')
    }
}

/// Cuts `s` down to `max_chars` characters, marking the cut with an ellipsis.
pub fn truncate_and_trailoff(s: &str, max_chars: usize) -> (label: String)
    ensures
        label@ == trailed_off(s@, max_chars as nat),
{
    if s.unicode_len() <= max_chars {
        String::from_str(s)
    } else {
        let mut label = String::from_str(s.substring_char(0, max_chars));
        label.append("\u{2026}");
        proof {
            reveal_strlit("\u{2026}");
            assert("\u{2026}"@ =~= seq!['\u{2026}']);
            assert(label@ =~= s@.take(max_chars as int).push('\u{2026}'));
        }
        label
    }
}

/// The label of the project button: the name of the first visible worktree,
/// or nothing where there is none, cut to the longest name shown.
pub fn project_name_label(root_name: Option<&str>) -> (label: String)
    ensures
        label@ == match root_name {
            Some(name) => trailed_off(name@, MAX_PROJECT_NAME_LENGTH as nat),
            None => Seq::<char>::empty(),
        },
{
    match root_name {
        Some(name) => truncate_and_trailoff(name, MAX_PROJECT_NAME_LENGTH),
        None => String::new(),
    }
}

/// The label of the branch button, where the first visible worktree is on a
/// branch.
pub fn branch_label(branch: Option<&str>) -> (label: Option<String>)
    ensures
        match (branch, label) {
            (Some(name), Some(label)) => label@ == trailed_off(
                name@,
                MAX_BRANCH_NAME_LENGTH as nat,
            ),
            (None, None) => true,
            _ => false,
        },
{
    match branch {
        Some(name) => Some(truncate_and_trailoff(name, MAX_BRANCH_NAME_LENGTH)),
        None => None,
    }
}

/// The tooltip of a collaborator's avatar.
pub fn follow_tooltip(handle: &str) -> (tooltip: String)
    ensures
        tooltip@ == "Follow "@ + handle@,
{
    let mut tooltip = String::from_str("Follow ");
    tooltip.append(handle);
    tooltip
}

/// What the sharing button offers.
#[derive(Clone, Copy, Debug, PartialEq, Eq, Structural, Hash)]
pub enum SharingToggle {
    Share,
    Unshare,
}

impl SharingToggle {
    /// The label of the button.
    pub fn label(&self) -> (label: &'static str)
        ensures
            label@ == match *self {
                SharingToggle::Share => "Share"@,
                SharingToggle::Unshare => "Unshare"@,
            },
    {
        match self {
            SharingToggle::Share => "Share",
            SharingToggle::Unshare => "Unshare",
        }
    }
}

/// The state of the controls that the title bar shows during a call.
#[derive(Clone, Copy, Debug, PartialEq, Eq, Structural, Hash)]
pub struct CallControls {
    /// The sharing button, shown for a local project only.
    pub sharing: Option<SharingToggle>,
    /// Whether the microphone button is shown as muted.
    pub muted: bool,
    /// Whether the sound button is shown as deafened.
    pub deafened: bool,
    /// Whether the screen button is shown as sharing.
    pub screen_sharing: bool,
}

/// The controls for a call, given what the project and the room report. A
/// project that is not local cannot be shared from here, and a room that does
/// not know whether the user is deafened counts as not deafened.
pub fn call_controls(
    project_is_local: bool,
    project_is_shared: bool,
    muted: bool,
    deafened: Option<bool>,
    screen_sharing: bool,
) -> (controls: CallControls)
    ensures
        controls == (CallControls {
            sharing: if !project_is_local {
                None
            } else if project_is_shared {
                Some(SharingToggle::Unshare)
            } else {
                Some(SharingToggle::Share)
            },
            muted,
            deafened: deafened == Some(true),
            screen_sharing,
        }),
{
    let sharing = if !project_is_local {
        None
    } else if project_is_shared {
        Some(SharingToggle::Unshare)
    } else {
        Some(SharingToggle::Share)
    };
    let deafened = match deafened {
        Some(deafened) => deafened,
        None => false,
    };
    CallControls { sharing, muted, deafened, screen_sharing }
}

/// The state of the connection to the collaboration server.
#[derive(Clone, Copy, Debug, PartialEq, Eq, Structural, Hash)]
pub enum ConnectionStatus {
    SignedOut,
    UpgradeRequired,
    Authenticating,
    Connecting,
    ConnectionError,
    Connected,
    ConnectionLost,
    Reauthenticating,
    Reconnecting,
    ReconnectionError,
}

/// The state of the updater.
#[derive(Clone, Copy, Debug, PartialEq, Eq, Structural, Hash)]
pub enum UpdateStatus {
    Idle,
    Checking,
    Downloading,
    Installing,
    Updated,
    Errored,
}

/// What a user whose client is too old is told to do.
#[derive(Clone, Copy, Debug, PartialEq, Eq, Structural, Hash)]
pub enum UpgradeAdvice {
    Restart,
    Wait,
    Update,
}

/// What a click on the upgrade notice sets off.
#[derive(Clone, Copy, Debug, PartialEq, Eq, Structural, Hash)]
pub enum UpgradeAction {
    Restart,
    CheckForUpdate,
}

/// What the title bar says about a connection that is not in order.
#[derive(Clone, Copy, Debug, PartialEq, Eq, Structural, Hash)]
pub enum ConnectionNotice {
    Disconnected,
    UpgradeRequired { advice: UpgradeAdvice },
}

/// The advice that goes with the state of the updater, if there is one.
pub open spec fn advice_for(update: Option<UpdateStatus>) -> UpgradeAdvice {
    match update {
        Some(UpdateStatus::Updated) => UpgradeAdvice::Restart,
        Some(UpdateStatus::Installing) | Some(UpdateStatus::Downloading) | Some(
            UpdateStatus::Checking,
        ) => UpgradeAdvice::Wait,
        Some(UpdateStatus::Idle) | Some(UpdateStatus::Errored) | None => UpgradeAdvice::Update,
    }
}

/// The notice for a connection in state `status`: none while the user is
/// signed out, still connecting, or connected.
pub open spec fn notice_for(status: ConnectionStatus, update: Option<UpdateStatus>) -> Option<
    ConnectionNotice,
> {
    match status {
        ConnectionStatus::ConnectionError
        | ConnectionStatus::ConnectionLost
        | ConnectionStatus::Reauthenticating
        | ConnectionStatus::Reconnecting
        | ConnectionStatus::ReconnectionError => Some(ConnectionNotice::Disconnected),
        ConnectionStatus::UpgradeRequired => Some(
            ConnectionNotice::UpgradeRequired { advice: advice_for(update) },
        ),
        ConnectionStatus::SignedOut
        | ConnectionStatus::Authenticating
        | ConnectionStatus::Connecting
        | ConnectionStatus::Connected => None,
    }
}

impl UpgradeAdvice {
    /// The advice for the state of the updater, if there is one.
    pub fn for_update(update: Option<UpdateStatus>) -> (advice: UpgradeAdvice)
        ensures
            advice == advice_for(update),
    {
        match update {
            Some(UpdateStatus::Updated) => UpgradeAdvice::Restart,
            Some(UpdateStatus::Installing) | Some(UpdateStatus::Downloading) | Some(
                UpdateStatus::Checking,
            ) => UpgradeAdvice::Wait,
            Some(UpdateStatus::Idle) | Some(UpdateStatus::Errored) | None => UpgradeAdvice::Update,
        }
    }

    /// The text of the advice.
    pub fn label(&self) -> (label: &'static str)
        ensures
            label@ == match *self {
                UpgradeAdvice::Restart => "Please restart Zed to Collaborate"@,
                UpgradeAdvice::Wait => "Updating..."@,
                UpgradeAdvice::Update => "Please update Zed to Collaborate"@,
            },
    {
        match self {
            UpgradeAdvice::Restart => "Please restart Zed to Collaborate",
            UpgradeAdvice::Wait => "Updating...",
            UpgradeAdvice::Update => "Please update Zed to Collaborate",
        }
    }
}

/// The notice that the title bar shows for a connection in state `status`.
pub fn connection_notice(status: ConnectionStatus, update: Option<UpdateStatus>) -> (notice:
    Option<ConnectionNotice>)
    ensures
        notice == notice_for(status, update),
{
    match status {
        ConnectionStatus::ConnectionError
        | ConnectionStatus::ConnectionLost
        | ConnectionStatus::Reauthenticating
        | ConnectionStatus::Reconnecting
        | ConnectionStatus::ReconnectionError => Some(ConnectionNotice::Disconnected),
        ConnectionStatus::UpgradeRequired => Some(
            ConnectionNotice::UpgradeRequired { advice: UpgradeAdvice::for_update(update) },
        ),
        _ => None,
    }
}

/// What a click on the upgrade notice sets off: a restart once the update is
/// in place, a check for updates in every other case.
pub fn upgrade_action(update: Option<UpdateStatus>) -> (action: UpgradeAction)
    ensures
        action == if update == Some(UpdateStatus::Updated) {
            UpgradeAction::Restart
        } else {
            UpgradeAction::CheckForUpdate
        },
{
    match update {
        Some(UpdateStatus::Updated) => UpgradeAction::Restart,
        _ => UpgradeAction::CheckForUpdate,
    }
}

/// One item at the right end of the title bar.
#[derive(Clone, Copy, Debug, PartialEq, Eq, Structural, Hash)]
pub enum AccountItem {
    Notice(ConnectionNotice),
    SignIn,
    UserMenu,
}

/// The items at the right end of the title bar: the user menu alone while
/// connected; else the notice, if there is one, the sign-in button and the
/// user menu.
pub open spec fn account_items_for(status: ConnectionStatus, update: Option<UpdateStatus>) -> Seq<
    AccountItem,
> {
    if status == ConnectionStatus::Connected {
        seq![AccountItem::UserMenu]
    } else {
        match notice_for(status, update) {
            Some(notice) => seq![
                AccountItem::Notice(notice),
                AccountItem::SignIn,
                AccountItem::UserMenu,
            ],
            None => seq![AccountItem::SignIn, AccountItem::UserMenu],
        }
    }
}

/// The items at the right end of the title bar, from left to right.
pub fn account_items(status: ConnectionStatus, update: Option<UpdateStatus>) -> (items: Vec<
    AccountItem,
>)
    ensures
        items@ == account_items_for(status, update),
{
    let mut items: Vec<AccountItem> = Vec::new();
    if status != ConnectionStatus::Connected {
        match connection_notice(status, update) {
            Some(notice) => {
                items.push(AccountItem::Notice(notice));
            },
            None => {},
        }
        items.push(AccountItem::SignIn);
    }
    items.push(AccountItem::UserMenu);
    assert(items@ =~= account_items_for(status, update));
    items
}

/// One line of the user menu.
#[derive(Clone, Copy, Debug, PartialEq, Eq, Structural, Hash)]
pub enum MenuEntry {
    Settings,
    Theme,
    Separator,
    ShareFeedback,
    SignOut,
}

impl MenuEntry {
    /// The text of the line. A separator has none.
    pub fn label(&self) -> (label: Option<&'static str>)
        ensures
            match *self {
                MenuEntry::Settings => label matches Some(text) && text@ == "Settings"@,
                MenuEntry::Theme => label matches Some(text) && text@ == "Theme"@,
                MenuEntry::Separator => label is None,
                MenuEntry::ShareFeedback => label matches Some(text) && text@ == "Share Feedback"@,
                MenuEntry::SignOut => label matches Some(text) && text@ == "Sign Out"@,
            },
    {
        match self {
            MenuEntry::Settings => Some("Settings"),
            MenuEntry::Theme => Some("Theme"),
            MenuEntry::Separator => None,
            MenuEntry::ShareFeedback => Some("Share Feedback"),
            MenuEntry::SignOut => Some("Sign Out"),
        }
    }
}

/// The lines of the user menu: signing out is offered only to a user who is
/// signed in.
pub open spec fn user_menu_for(signed_in: bool) -> Seq<MenuEntry> {
    let common = seq![
        MenuEntry::Settings,
        MenuEntry::Theme,
        MenuEntry::Separator,
        MenuEntry::ShareFeedback,
    ];
    if signed_in {
        common.push(MenuEntry::SignOut)
    } else {
        common
    }
}

/// The lines of the user menu, from top to bottom.
pub fn user_menu(signed_in: bool) -> (entries: Vec<MenuEntry>)
    ensures
        entries@ == user_menu_for(signed_in),
{
    let mut entries: Vec<MenuEntry> = Vec::new();
    entries.push(MenuEntry::Settings);
    entries.push(MenuEntry::Theme);
    entries.push(MenuEntry::Separator);
    entries.push(MenuEntry::ShareFeedback);
    if signed_in {
        entries.push(MenuEntry::SignOut);
    }
    assert(entries@ =~= user_menu_for(signed_in));
    entries
}

} // verus!
