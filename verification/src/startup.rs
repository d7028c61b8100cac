//! Starting when somebody logs in.
//!
//! Off unless asked for, and visible: a login item fails by silently not being there, so its
//! status is what is actually installed and not what was last requested.

use vstd::prelude::*;

use crate::text::{cat3, cat5, cat7, join_path, joined_path, opt_text, same, stands_inside, within};

verus! {

/// The label that entries are keyed by.
pub const LABEL: &'static str = "com.dwmmholdings.revlocal";

/// Whether starting at login is arranged.
#[derive(Clone, Copy, Debug, PartialEq, Eq, Structural)]
pub enum Status {
    /// The entry is installed.
    Enabled,
    /// It is not, and it could be.
    Disabled,
    /// This platform has no way of it here. "You have not turned it on" and "turning it on does
    /// nothing here" are different things to say.
    Unsupported,
}

/// Where the entry lives below a home directory, on a platform that has one.
pub open spec fn entry_at(home: Seq<char>, os: Seq<char>) -> Option<Seq<char>> {
    if os == "macos"@ {
        Some(joined_path(joined_path(home, "Library/LaunchAgents"@), LABEL@ + ".plist"@))
    } else if os == "linux"@ {
        Some(joined_path(home, ".config/autostart/rev-local.desktop"@))
    } else {
        None
    }
}

/// Where the entry lives below a home directory.
pub fn entry_path(home: &str, os: &str) -> (r: Option<String>)
    ensures
        opt_text(r) == entry_at(home@, os@),
{
    if same(os, "macos") {
        Some(
            join_path(
                join_path(home, "Library/LaunchAgents").as_str(),
                crate::text::cat2(LABEL, ".plist").as_str(),
            ),
        )
    } else if same(os, "linux") {
        Some(join_path(home, ".config/autostart/rev-local.desktop"))
    } else {
        None
    }
}

/// The macOS agent that opens the app at login.
pub open spec fn agent(app_path: Seq<char>) -> Seq<char> {
    "<?xml version=\"1.0\" encoding=\"UTF-8\"?>\n<!DOCTYPE plist PUBLIC \"-//Apple//DTD PLIST 1.0//EN\" \"http://www.apple.com/DTDs/PropertyList-1.0.dtd\">\n<plist version=\"1.0\">\n<dict>\n  <key>Label</key>\n  <string>"@
        + LABEL@
        + "</string>\n  <key>ProgramArguments</key>\n  <array>\n    <string>/usr/bin/open</string>\n    <string>-a</string>\n    <string>"@
        + app_path
        + "</string>\n  </array>\n  <key>RunAtLoad</key>\n  <true/>\n</dict>\n</plist>\n"@
}

/// The macOS agent that opens the app at login. It does not keep the app alive: one that restarted
/// it would make quitting a lie.
pub fn launch_agent(app_path: &str) -> (r: String)
    ensures
        r@ == agent(app_path@),
{
    cat5(
        "<?xml version=\"1.0\" encoding=\"UTF-8\"?>\n<!DOCTYPE plist PUBLIC \"-//Apple//DTD PLIST 1.0//EN\" \"http://www.apple.com/DTDs/PropertyList-1.0.dtd\">\n<plist version=\"1.0\">\n<dict>\n  <key>Label</key>\n  <string>",
        LABEL,
        "</string>\n  <key>ProgramArguments</key>\n  <array>\n    <string>/usr/bin/open</string>\n    <string>-a</string>\n    <string>",
        app_path,
        "</string>\n  </array>\n  <key>RunAtLoad</key>\n  <true/>\n</dict>\n</plist>\n",
    )
}

/// The autostart entry of a desktop.
pub open spec fn autostart(exe_path: Seq<char>) -> Seq<char> {
    "[Desktop Entry]\nType=Application\nName=rev-local\nComment=Local, autonomous code review\nExec="@
        + exe_path + "\nTerminal=false\nX-GNOME-Autostart-enabled=true\n"@
}

/// The autostart entry of a desktop.
pub fn desktop_entry(exe_path: &str) -> (r: String)
    ensures
        r@ == autostart(exe_path@),
{
    cat3(
        "[Desktop Entry]\nType=Application\nName=rev-local\nComment=Local, autonomous code review\nExec=",
        exe_path,
        "\nTerminal=false\nX-GNOME-Autostart-enabled=true\n",
    )
}

/// What is installed on a platform, given whether the entry is there.
pub open spec fn arranged(os: Seq<char>, exists: bool) -> Status {
    if os != "macos"@ && os != "linux"@ {
        Status::Unsupported
    } else if exists {
        Status::Enabled
    } else {
        Status::Disabled
    }
}

/// What is installed, given whether the entry is there.
pub fn status(os: &str, exists: bool) -> (r: Status)
    ensures
        r == arranged(os@, exists),
{
    match entry_path("", os) {
        None => Status::Unsupported,
        Some(_) => {
            if exists {
                Status::Enabled
            } else {
                Status::Disabled
            }
        },
    }
}

/// Why the login item could not be changed.
#[derive(Clone, Debug, PartialEq, Eq)]
pub enum StartupError {
    /// This platform has no way of it here.
    Unsupported,
    /// The entry could not be written or removed.
    Io {
        /// What was being attempted.
        action: &'static str,
        /// Where.
        path: String,
        /// Why.
        source: String,
    },
}

impl StartupError {
    /// The error in words.
    pub fn describe(&self) -> (r: String)
        ensures
            r@ == match *self {
                Self::Unsupported => "starting at login is not implemented on this platform yet\n  try: launch rev-local yourself, or leave it running"@,
                Self::Io { action, path, source } => "could not "@ + action@ + " the login item at "@
                    + path@ + ": "@ + source@ + "\n  try: check the directory is writable"@,
            },
    {
        match self {
            Self::Unsupported => "starting at login is not implemented on this platform yet\n  try: launch rev-local yourself, or leave it running".to_owned(),
            Self::Io { action, path, source } => cat7(
                "could not ",
                action,
                " the login item at ",
                path.as_str(),
                ": ",
                source.as_str(),
                "\n  try: check the directory is writable",
            ),
        }
    }
}

/// What is installed to start at login, and where. The app's bundle is opened on macOS, and the
/// program run elsewhere: the wrong one gives an entry that exists and does nothing.
pub fn enable(home: &str, os: &str, target: &str) -> (r: Result<(String, String), StartupError>)
    ensures
        match entry_at(home@, os@) {
            None => r == Err::<(String, String), _>(StartupError::Unsupported),
            Some(path) => r is Ok && (r->Ok_0).0@ == path && (r->Ok_0).1@ == if os@ == "macos"@ {
                agent(target@)
            } else {
                autostart(target@)
            },
        },
{
    match entry_path(home, os) {
        None => Err(StartupError::Unsupported),
        Some(path) => {
            let body = if same(os, "macos") {
                launch_agent(target)
            } else {
                desktop_entry(target)
            };
            Ok((path, body))
        },
    }
}

/// The entry to remove.
pub fn disable(home: &str, os: &str) -> (r: Result<String, StartupError>)
    ensures
        match entry_at(home@, os@) {
            None => r == Err::<String, _>(StartupError::Unsupported),
            Some(path) => r is Ok && r->Ok_0@ == path,
        },
{
    match entry_path(home, os) {
        None => Err(StartupError::Unsupported),
        Some(path) => Ok(path),
    }
}

/// Where the entry that starts the daemon stands, by the system: and nowhere on one that has no such
/// place, which is said.
pub proof fn where_the_entry_stands(home: Seq<char>, os: Seq<char>, exists: bool)
    ensures
        os == "macos"@ ==> entry_at(home, os) == Some(
            joined_path(
                joined_path(home, "Library/LaunchAgents"@),
                "com.dwmmholdings.revlocal"@ + ".plist"@,
            ),
        ),
        os == "linux"@ ==> entry_at(home, os) == Some(joined_path(home, ".config/autostart/rev-local.desktop"@)),
        os != "macos"@ && os != "linux"@ ==> entry_at(home, os) is None,
        arranged(os, exists) == Status::Unsupported <==> entry_at(home, os) is None,
        entry_at(home, os) is Some ==> (arranged(os, exists) == Status::Enabled) == exists,
        entry_at(home, os) is Some ==> (arranged(os, exists) == Status::Disabled) == !exists,
{
    reveal_strlit("macos");
    reveal_strlit("linux");
    assert("macos"@[0] == 'm' && "linux"@[0] == 'l');
}

/// The entry starts the program it was given.
pub proof fn the_entry_starts_what_it_was_given(path: Seq<char>)
    ensures
        within(agent(path), "<string>"@ + path + "</string>"@),
        within(autostart(path), "Exec="@ + path + "\n"@),
{
    let first =
        "<?xml version=\"1.0\" encoding=\"UTF-8\"?>\n<!DOCTYPE plist PUBLIC \"-//Apple//DTD PLIST 1.0//EN\" \"http://www.apple.com/DTDs/PropertyList-1.0.dtd\">\n<plist version=\"1.0\">\n<dict>\n  <key>Label</key>\n  <string>"@
        + LABEL@;
    let second =
        "</string>\n  <key>ProgramArguments</key>\n  <array>\n    <string>/usr/bin/open</string>\n    <string>-a</string>\n    <string>"@;
    let third = "</string>\n  </array>\n  <key>RunAtLoad</key>\n  <true/>\n</dict>\n</plist>\n"@;
    reveal_strlit(
        "</string>\n  <key>ProgramArguments</key>\n  <array>\n    <string>/usr/bin/open</string>\n    <string>-a</string>\n    <string>",
    );
    reveal_strlit("</string>\n  </array>\n  <key>RunAtLoad</key>\n  <true/>\n</dict>\n</plist>\n");
    reveal_strlit("<string>");
    reveal_strlit("</string>");
    let n = second.len() - 8;
    assert(second =~= second.take(n) + "<string>"@);
    assert(third =~= "</string>"@ + third.skip(9));
    let part = "<string>"@ + path + "</string>"@;
    stands_inside(first + second.take(n), part, third.skip(9));
    assert(first + second.take(n) + part + third.skip(9) =~= agent(path));
    let head =
        "[Desktop Entry]\nType=Application\nName=rev-local\nComment=Local, autonomous code review\nExec="@;
    let tail = "\nTerminal=false\nX-GNOME-Autostart-enabled=true\n"@;
    reveal_strlit("[Desktop Entry]\nType=Application\nName=rev-local\nComment=Local, autonomous code review\nExec=");
    reveal_strlit("\nTerminal=false\nX-GNOME-Autostart-enabled=true\n");
    reveal_strlit("Exec=");
    reveal_strlit("\n");
    let m = head.len() - 5;
    assert(head =~= head.take(m) + "Exec="@);
    assert(tail =~= "\n"@ + tail.skip(1));
    let line = "Exec="@ + path + "\n"@;
    stands_inside(head.take(m), line, tail.skip(1));
    assert(head.take(m) + line + tail.skip(1) =~= autostart(path));
}

} // verus!
