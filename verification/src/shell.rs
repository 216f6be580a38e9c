//! The shell around the panes: what it was asked for when it was started, and
//! what its window does.

use crate::clock;
use crate::text;
use vstd::prelude::*;

verus! {

/// What the maximize button does.
#[derive(Clone, Copy, Debug, PartialEq, Eq, Structural)]
pub enum WindowAction {
    Maximize,
    Unmaximize,
}

/// Whether one of the arguments is `--clean`.
pub open spec fn asks_for_clean(args: Seq<String>) -> bool {
    exists|i: int| 0 <= i < args.len() && (#[trigger] args[i])@ == "--clean"@
}

/// Whether these are the arguments that Neovim is started with.
pub open spec fn are_nvim_args(clean: bool, args: Seq<String>) -> bool {
    if clean {
        args.len() == 1 && args[0]@ == "--clean"@
    } else {
        args.len() == 0
    }
}

/// The number of frames between two frame-pacing lines that a variable asks for:
/// its value where it is there and reads as a positive integer, and the default
/// where it does not.
pub open spec fn frames_between_lines(variable: Option<&str>) -> u64 {
    match variable {
        Some(s) => match text::unsigned_value(s@) {
            Some(n) => if n > 0 {
                n
            } else {
                clock::LOG_EVERY_N_FRAMES
            },
            None => clock::LOG_EVERY_N_FRAMES,
        },
        None => clock::LOG_EVERY_N_FRAMES,
    }
}

/// The line that tells how Neovim was shut down.
pub open spec fn shutdown_text(exited_cleanly: bool) -> Seq<char> {
    if exited_cleanly {
        "[live] LiveHarness::shutdown() returned true (real NeovimExited observed)"@
    } else {
        "[live] LiveHarness::shutdown() returned false (timed out waiting for NeovimExited -- nvim child may be orphaned, see LiveHarness::shutdown's own doc)"@
    }
}

/// What the maximize button does to a window that is maximized or not.
pub open spec fn button_action(is_maximized: bool) -> WindowAction {
    if is_maximized {
        WindowAction::Unmaximize
    } else {
        WindowAction::Maximize
    }
}

/// The number of frames between two frame-pacing lines, from the value of the
/// environment variable that sets it.
pub fn log_every_n_frames(variable: Option<&str>) -> (n: u64)
    ensures
        n == frames_between_lines(variable),
        n > 0,
{
    match variable {
        Some(s) => match text::parse_unsigned(s) {
            Some(n) => {
                if n > 0 {
                    n
                } else {
                    clock::LOG_EVERY_N_FRAMES
                }
            },
            None => clock::LOG_EVERY_N_FRAMES,
        },
        None => clock::LOG_EVERY_N_FRAMES,
    }
}

/// Whether Neovim is to be started without its user's configuration.
pub fn want_clean(args: &Vec<String>) -> (clean: bool)
    ensures
        clean == asks_for_clean(args@),
{
    let mut i: usize = 0;
    while i < args.len()
        invariant
            i <= args@.len(),
            forall|j: int| 0 <= j < i ==> (#[trigger] args@[j])@ != "--clean"@,
        decreases args@.len() - i,
    {
        if text::same_text(&args[i], "--clean") {
            assert(args@[i as int]@ == "--clean"@);
            return true;
        }
        i = i + 1;
    }
    false
}

/// The arguments that Neovim is started with.
pub fn extra_nvim_args(clean: bool) -> (args: Vec<String>)
    ensures
        are_nvim_args(clean, args@),
{
    let mut args: Vec<String> = Vec::new();
    if clean {
        args.push("--clean".to_owned());
    }
    args
}

/// What the maximize button does to a window that is maximized or not.
pub fn toggle_maximize(is_maximized: bool) -> (action: WindowAction)
    ensures
        action == if is_maximized {
            WindowAction::Unmaximize
        } else {
            WindowAction::Maximize
        },
        action == button_action(is_maximized),
{
    if is_maximized {
        WindowAction::Unmaximize
    } else {
        WindowAction::Maximize
    }
}

/// The line that tells how Neovim was shut down.
pub fn shutdown_line(exited_cleanly: bool) -> (line: String)
    ensures
        line@ == shutdown_text(exited_cleanly),
{
    if exited_cleanly {
        "[live] LiveHarness::shutdown() returned true (real NeovimExited observed)".to_owned()
    } else {
        "[live] LiveHarness::shutdown() returned false (timed out waiting for NeovimExited -- nvim child may be orphaned, see LiveHarness::shutdown's own doc)".to_owned()
    }
}

/// Neovim is started with `--clean` exactly when the shell was.
pub proof fn law_clean_is_passed_on(args: Seq<String>, nvim_args: Seq<String>)
    requires
        are_nvim_args(asks_for_clean(args), nvim_args),
    ensures
        asks_for_clean(nvim_args) == asks_for_clean(args),
{
    if asks_for_clean(args) {
        assert(nvim_args[0]@ == "--clean"@);
    }
}

/// `--clean` is found wherever it stands among the arguments, and nothing else is
/// taken for it.
pub proof fn law_clean_counts_anywhere(args: Seq<String>, i: int)
    ensures
        0 <= i < args.len() && args[i]@ == "--clean"@ ==> asks_for_clean(args),
        (forall|j: int| 0 <= j < args.len() ==> (#[trigger] args[j])@ != "--clean"@)
            ==> !asks_for_clean(args),
{
}

/// More arguments take nothing back: a list asks for it exactly when one of its
/// parts does.
pub proof fn law_clean_of_joined_arguments(a: Seq<String>, b: Seq<String>)
    ensures
        asks_for_clean(a + b) == (asks_for_clean(a) || asks_for_clean(b)),
{
    if asks_for_clean(a) {
        let i = choose|i: int| 0 <= i < a.len() && (#[trigger] a[i])@ == "--clean"@;
        assert((a + b)[i]@ == "--clean"@);
    }
    if asks_for_clean(b) {
        let i = choose|i: int| 0 <= i < b.len() && (#[trigger] b[i])@ == "--clean"@;
        assert((a + b)[a.len() + i]@ == "--clean"@);
    }
    if asks_for_clean(a + b) {
        let i = choose|i: int| 0 <= i < (a + b).len() && (#[trigger] (a + b)[i])@ == "--clean"@;
        if i < a.len() {
            assert(a[i]@ == "--clean"@);
        } else {
            assert(b[i - a.len()]@ == "--clean"@);
        }
    }
}

/// Neovim gets the one argument, or none.
pub proof fn law_nvim_gets_one_argument_or_none(args: Seq<String>)
    ensures
        are_nvim_args(true, args) <==> args.len() == 1 && args[0]@ == "--clean"@,
        are_nvim_args(false, args) <==> args.len() == 0,
{
}

/// A variable that holds a positive number is followed, however large the number
/// is; one that is missing, holds zero or does not read as a number leaves sixty
/// frames between two lines.
pub proof fn law_variable_sets_the_frames_between_lines(s: &str, n: u64)
    ensures
        n > 0 && s@ == text::decimal(n as nat) ==> frames_between_lines(Some(s)) == n,
        n > 0 && text::unsigned_value(s@) == Some(n) ==> frames_between_lines(Some(s)) == n,
        text::unsigned_value(s@) == Some(0u64) ==> frames_between_lines(Some(s)) == 60,
        text::unsigned_value(s@) is None ==> frames_between_lines(Some(s)) == 60,
        frames_between_lines(None) == 60,
{
    text::law_unsigned_round_trip(n);
}

/// The maximize button always changes the window, and pressed twice it leaves it
/// as it was.
pub proof fn law_button_toggles(is_maximized: bool)
    ensures
        button_action(is_maximized) == WindowAction::Maximize <==> !is_maximized,
        button_action(is_maximized) != button_action(!is_maximized),
{
}

/// The line tells whether the exit of Neovim was seen.
pub proof fn law_shutdown_line_tells_the_outcome()
    ensures
        shutdown_text(true) != shutdown_text(false),
        shutdown_text(true)
            == "[live] LiveHarness::shutdown() returned true (real NeovimExited observed)"@,
{
    reveal_strlit("[live] LiveHarness::shutdown() returned true (real NeovimExited observed)");
    reveal_strlit(
        "[live] LiveHarness::shutdown() returned false (timed out waiting for NeovimExited -- nvim child may be orphaned, see LiveHarness::shutdown's own doc)",
    );
    assert(shutdown_text(true).len() != shutdown_text(false).len());
}

} // verus!
