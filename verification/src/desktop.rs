//! Decisions of the desktop shell: tray menu commands, the show/hide
//! shortcut, and the input-method status and integration reports.
use vstd::prelude::*;
use crate::text::{contains, has_infix, str_chars, str_eq};
use crate::todo::{opt_string, string_views};

verus! {

/// What a tray-menu entry asks for.
#[derive(Clone, Copy, Debug, PartialEq, Eq, Structural)]
pub enum TrayAction {
    ShowWindow,
    HideWindow,
    Pause,
    Resume,
    Quit,
    Ignore,
}

/// The action of the tray-menu entry with id `id`.
pub open spec fn tray_action_of(id: Seq<char>) -> TrayAction {
    if id == "show"@ {
        TrayAction::ShowWindow
    } else if id == "hide"@ {
        TrayAction::HideWindow
    } else if id == "pause"@ {
        TrayAction::Pause
    } else if id == "resume"@ {
        TrayAction::Resume
    } else if id == "quit"@ {
        TrayAction::Quit
    } else {
        TrayAction::Ignore
    }
}

/// Reads the id of a tray-menu entry.
pub fn tray_action(id: &str) -> (r: TrayAction)
    ensures
        r == tray_action_of(id@),
{
    if str_eq(id, "show") {
        TrayAction::ShowWindow
    } else if str_eq(id, "hide") {
        TrayAction::HideWindow
    } else if str_eq(id, "pause") {
        TrayAction::Pause
    } else if str_eq(id, "resume") {
        TrayAction::Resume
    } else if str_eq(id, "quit") {
        TrayAction::Quit
    } else {
        TrayAction::Ignore
    }
}

/// The show/hide shortcut hides a visible window and shows (and focuses) a hidden one.
pub fn shortcut_action(visible: bool) -> (r: TrayAction)
    ensures
        r == if visible {
            TrayAction::HideWindow
        } else {
            TrayAction::ShowWindow
        },
{
    if visible {
        TrayAction::HideWindow
    } else {
        TrayAction::ShowWindow
    }
}

/// The input method's state as the settings page shows it.
pub open spec fn ime_status_text(enabled: bool, installed: bool) -> Seq<char> {
    if enabled {
        "enabled"@
    } else if installed {
        "installed"@
    } else {
        "not_installed"@
    }
}

pub fn ime_status_label(enabled: bool, installed: bool) -> (r: &'static str)
    ensures
        r@ == ime_status_text(enabled, installed),
{
    if enabled {
        "enabled"
    } else if installed {
        "installed"
    } else {
        "not_installed"
    }
}

/// Whether the list of enabled input sources names the bundled input method.
pub fn ime_listed(sources: &str) -> (r: bool)
    ensures
        r == contains(sources@, "LogInputIME"@),
{
    has_infix(&str_chars(sources), &str_chars("LogInputIME"))
}

/// Whether the strings of the Squirrel binary name the assistant's socket.
pub fn has_ipc_hook(binary_strings: &str) -> (r: bool)
    ensures
        r == contains(binary_strings@, "personal-log-ai-ime.sock"@),
{
    has_infix(&str_chars(binary_strings), &str_chars("personal-log-ai-ime.sock"))
}

/// Screen recording is not checked: access is reported as granted.
pub fn check_screen_recording_permission() -> (r: bool)
    ensures
        r,
{
    true
}

/// The answer to a request to install the input method.
#[derive(Clone, Debug)]
pub struct InstallReport {
    pub success: bool,
    pub installed: bool,
    pub message: String,
}

/// The report of an install: already installed, copied from the bundled
/// resources, or neither (then it asks for a manual install).
pub open spec fn install_report_is(already: bool, copied: bool, r: InstallReport) -> bool {
    if already {
        r.success && r.installed && r.message@ == "输入法已安装"@
    } else if copied {
        r.success && r.installed && r.message@ == "输入法安装成功，请在系统设置中启用"@
    } else {
        !r.success && !r.installed && r.message@ == "未找到内嵌输入法资源，请手动安装 LogInputIME.app"@
    }
}

pub fn install_report(already: bool, copied: bool) -> (r: InstallReport)
    ensures
        install_report_is(already, copied, r),
{
    if already {
        InstallReport { success: true, installed: true, message: "输入法已安装".to_owned() }
    } else if copied {
        InstallReport {
            success: true,
            installed: true,
            message: "输入法安装成功，请在系统设置中启用".to_owned(),
        }
    } else {
        InstallReport {
            success: false,
            installed: false,
            message: "未找到内嵌输入法资源，请手动安装 LogInputIME.app".to_owned(),
        }
    }
}

pub const SYSTEM_SQUIRREL: &'static str = "/Library/Input Methods/Squirrel.app";

pub const SYSTEM_SQUIRREL_BIN: &'static str = "/Library/Input Methods/Squirrel.app/Contents/MacOS/Squirrel";

/// Where Squirrel is installed: the system copy first, then the user's.
pub fn squirrel_location(system_exists: bool, user_exists: bool, user_path: &str) -> (r: Option<String>)
    ensures
        opt_string(r) == if system_exists {
            Some(SYSTEM_SQUIRREL@)
        } else if user_exists {
            Some(user_path@)
        } else {
            None::<Seq<char>>
        },
{
    if system_exists {
        Some(SYSTEM_SQUIRREL.to_owned())
    } else if user_exists {
        Some(user_path.to_owned())
    } else {
        None
    }
}

/// The Squirrel binary to ask for a reload: the system one first, then the user's.
pub fn squirrel_binary(system_exists: bool, user_exists: bool, user_bin: &str) -> (r: Result<
    String,
    String,
>)
    ensures
        match r {
            Ok(p) => (system_exists && p@ == SYSTEM_SQUIRREL_BIN@) || (!system_exists && user_exists
                && p@ == user_bin@),
            Err(m) => !system_exists && !user_exists && m@ == "Squirrel 未安装"@,
        },
        r is Ok <==> system_exists || user_exists,
{
    if system_exists {
        Ok(SYSTEM_SQUIRREL_BIN.to_owned())
    } else if user_exists {
        Ok(user_bin.to_owned())
    } else {
        Err("Squirrel 未安装".to_owned())
    }
}

/// `s` with every occurrence of `p` (found left to right, without overlap)
/// removed, as `str::replace(p, "")` gives.
pub open spec fn remove_all(s: Seq<char>, p: Seq<char>) -> Seq<char>
    decreases s.len(),
{
    if s.len() == 0 || p.len() == 0 {
        s
    } else if p.len() <= s.len() && s.take(p.len() as int) == p {
        remove_all(s.skip(p.len() as int), p)
    } else {
        seq![s[0]] + remove_all(s.drop_first(), p)
    }
}

pub const SCHEMA_SUFFIX: &'static str = ".schema.yaml";

/// The input schemas named by the files `names`: those ending in
/// `.schema.yaml`, with that text taken out, in order.
pub open spec fn schema_names_of(names: Seq<Seq<char>>) -> Seq<Seq<char>>
    decreases names.len(),
{
    if names.len() == 0 {
        seq![]
    } else {
        let n = names.last();
        let rest = schema_names_of(names.drop_last());
        if n.len() >= SCHEMA_SUFFIX@.len() && n.skip(n.len() - SCHEMA_SUFFIX@.len()) == SCHEMA_SUFFIX@ {
            rest.push(remove_all(n, SCHEMA_SUFFIX@))
        } else {
            rest
        }
    }
}

fn remove_all_exec(v: &Vec<char>, p: &Vec<char>) -> (r: String)
    requires
        p.len() > 0,
    ensures
        r@ == remove_all(v@, p@),
{
    let mut out = String::new();
    let mut i: usize = 0;
    assert(v@.skip(0) =~= v@);
    while i < v.len()
        invariant
            i <= v.len(),
            p.len() > 0,
            remove_all(v@, p@) == out@ + remove_all(v@.skip(i as int), p@),
        decreases v.len() - i,
    {
        let ghost rest = v@.skip(i as int);
        if v.len() - i >= p.len() && crate::text::matches_at(v, p, i) {
            assert(rest.take(p@.len() as int) =~= p@);
            assert(rest.skip(p@.len() as int) =~= v@.skip(i + p.len()));
            i = i + p.len();
        } else {
            proof {
                if p@.len() <= rest.len() {
                    assert(rest.take(p@.len() as int) =~= v@.subrange(i as int, i + p@.len()));
                    assert(!crate::text::occurs_at(v@, p@, i as int));
                }
                assert(rest.drop_first() =~= v@.skip(i + 1));
            }
            crate::text::push_char(&mut out, v[i]);
            i = i + 1;
            assert(remove_all(v@, p@) == out@ + remove_all(v@.skip(i as int), p@));
        }
    }
    out
}

/// Lists the input schemas among the file names of Squirrel's shared support folder.
pub fn schema_names(names: &Vec<String>) -> (r: Vec<String>)
    ensures
        string_views(r@) == schema_names_of(string_views(names@)),
{
    let suffix = str_chars(SCHEMA_SUFFIX);
    proof {
        reveal_strlit(".schema.yaml");
    }
    assert(suffix@.len() == 12);
    let mut out: Vec<String> = Vec::new();
    let mut i: usize = 0;
    while i < names.len()
        invariant
            i <= names.len(),
            suffix@ == SCHEMA_SUFFIX@,
            suffix.len() == 12,
            string_views(out@) == schema_names_of(string_views(names@).take(i as int)),
        decreases names.len() - i,
    {
        let v = str_chars(names[i].as_str());
        assert(string_views(names@).take(i + 1).drop_last() =~= string_views(names@).take(i as int));
        if v.len() >= suffix.len() && crate::text::matches_at(&v, &suffix, v.len() - suffix.len()) {
            let ghost before = out@;
            out.push(remove_all_exec(&v, &suffix));
            proof {
                assert(v@.skip(v@.len() - suffix@.len()) =~= suffix@);
                assert(string_views(out@) =~= string_views(before).push(remove_all(v@, suffix@)));
            }
        } else {
            proof {
                if v@.len() >= suffix@.len() && v@.skip(v@.len() - suffix@.len()) == suffix@ {
                    assert forall|j: int| 0 <= j < suffix@.len() implies v@[v@.len() - suffix@.len()
                        + j] == suffix@[j] by {
                        assert(v@.skip(v@.len() - suffix@.len())[j] == v@[v@.len() - suffix@.len() + j]);
                    }
                }
            }
        }
        i += 1;
    }
    assert(string_views(names@).take(names@.len() as int) =~= string_views(names@));
    out
}

} // verus!
