//! Running from a folder of one's own, starting with the system, and the server to start with.

use crate::json;
use crate::json::Json;
use crate::text;
use vstd::prelude::*;
use vstd::string::*;

verus! {

/// The file beside the program that makes it portable.
pub const MARKER: &'static str = "ZortilWatch.portable";

/// The folder beside the program that holds a portable program's data.
pub const DATA_DIR: &'static str = "data";

/// The file beside the program that names a server.
pub const CONFIG: &'static str = "zortilwatch.config.json";

/// Whether the program is portable. `marker` says whether the marker file is there; nothing when
/// the program's folder is not known.
pub fn is_portable(marker: Option<bool>) -> (r: bool)
    ensures
        r == (marker == Some(true)),
{
    match marker {
        Some(m) => m,
        None => false,
    }
}

/// The folder beside the program to which a portable program's data is to go; none when the
/// program is not portable, and the data stays where the system keeps it.
pub fn setup_portable_env(marker: Option<bool>) -> (dir: Option<&'static str>)
    ensures
        match dir {
            Some(d) => marker == Some(true) && d@ == DATA_DIR@,
            None => marker != Some(true),
        },
{
    if is_portable(marker) {
        Some(DATA_DIR)
    } else {
        None
    }
}

/// The server that a configuration names, if it names one.
pub fn default_server(config: &Json) -> (r: Option<String>)
    ensures
        text::opt_view(r) == (match json::str_field(config@, "server"@) {
            Some(s) => if text::trim(s).len() > 0 {
                Some(text::trim(s))
            } else {
                None
            },
            None => None,
        }),
{
    match config.get_str("server") {
        Some(s) => {
            let t: String = text::trimmed(s.as_str());
            if t.as_str().is_empty() {
                None
            } else {
                Some(t)
            }
        },
        None => None,
    }
}

/// The command that starts the program with the system, out of sight.
pub fn launch_command(exe: &str) -> (s: String)
    ensures
        s@ == text::command_line(exe@, "--minimized"@),
{
    text::quoted_command(exe, "--minimized")
}

/// Whether a registry value is gone, by the code that deleting it gave: success, or that there was
/// none.
pub fn removed(code: u32) -> (r: bool)
    ensures
        r == (code == 0 || code == 2),
{
    code == 0 || code == 2
}

/// A program is portable exactly when its marker is there, and its data then goes beside it.
pub proof fn law_portable(marker: Option<bool>, r: bool, dir: Option<&'static str>)
    requires
        call_ensures(is_portable, (marker,), r),
        call_ensures(setup_portable_env, (marker,), dir),
    ensures
        r <==> marker == Some(true),
        dir is Some <==> r,
        dir matches Some(d) ==> d@ == "data"@,
{
}

/// The server is the one that the configuration names, without the white space after it; a
/// configuration that names none gives none.
pub proof fn law_server_of_the_configuration(
    config: &Json,
    r: Option<String>,
    name: Seq<char>,
    tail: Seq<char>,
)
    requires
        call_ensures(default_server, (config,), r),
        forall|i: int| 0 <= i < tail.len() ==> text::is_space(#[trigger] tail[i]),
        name.len() > 0 ==> !text::is_space(name[0]) && !text::is_space(name.last()),
    ensures
        name.len() > 0 && json::field(config@, "server"@) == Some(json::Value::Str(name + tail)) ==> (r
            matches Some(t) && t@ == name),
        json::field(config@, "server"@) is None ==> r is None,
        json::field(config@, "server"@) == Some(json::Value::Null) ==> r is None,
        json::field(config@, "server"@) == Some(json::Value::Str(Seq::empty())) ==> r is None,
{
    if name.len() > 0 {
        text::lemma_trim_tail(name, tail);
    }
}

/// A value is gone when deleting it worked, or when there was none.
pub proof fn law_removed(code: u32, r: bool)
    requires
        call_ensures(removed, (code,), r),
    ensures
        r <==> code == 0 || code == 2,
{
}

/// The program is started out of sight: its path stands in quotes, and the argument after it.
pub proof fn law_launch_command(exe: &str, s: String, worker: String)
    requires
        call_ensures(launch_command, (exe,), s),
        call_ensures(crate::service::worker_command, (exe,), worker),
    ensures
        s@ == seq!['"'] + exe@ + seq!['"', ' '] + "--minimized"@,
        worker@ == seq!['"'] + exe@ + seq!['"', ' '] + "--worker"@,
{
    reveal_strlit("\"");
    reveal_strlit("\" ");
    assert("\""@ =~= seq!['"']);
    assert("\" "@ =~= seq!['"', ' ']);
}

} // verus!
