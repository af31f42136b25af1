//! Hyprland integration: a floating "quick todo" window bound to a key.
//!
//! The window is a terminal launched with a distinct window class so a
//! Hyprland rule can float, size, and center only that window.

use vstd::prelude::*;

use crate::text::{append, str_eq, to_owned_string};

verus! {

/// Window class used by both the spawn command and the float rule.
pub const FLOAT_CLASS: &'static str = "todo-float";

/// The command that opens the floating window: the terminal with its class
/// flag, hosting the compact interface.
pub open spec fn spawn_command_text(binary: Seq<char>, terminal: Seq<char>) -> Seq<char> {
    terminal + " --class "@ + FLOAT_CLASS@ + " -e "@ + binary + " tui --compact"@
}

/// The Hyprland snippet: three rules for the window class and the keybind.
pub open spec fn config_snippet_text(binary: Seq<char>, terminal: Seq<char>) -> Seq<char> {
    "# todo — Hyprland floating quick-window\n"@ + "windowrule = float, class:^("@ + FLOAT_CLASS@
        + ")$\n"@ + "windowrule = size 40% 50%, class:^("@ + FLOAT_CLASS@ + ")$\n"@
        + "windowrule = center, class:^("@ + FLOAT_CLASS@ + ")$\n"@
        + "# SUPER + Shift + T → open the floating todo window\n"@ + "bind = SUPER SHIFT, T, exec, "@
        + spawn_command_text(binary, terminal) + "\n"@
}

/// Hyprland config snippet: float rules for the quick-todo window plus a
/// SUPER+Shift+T keybind that spawns it. Printed by `todo hypr-config`.
///
/// `terminal` is the emulator used to host the interface (e.g. "kitty").
pub fn config_snippet(binary: &str, terminal: &str) -> (r: String)
    ensures
        r@ == config_snippet_text(binary@, terminal@),
{
    let spawn = spawn_command(binary, terminal);
    let mut s = to_owned_string("# todo — Hyprland floating quick-window\n");
    append(&mut s, "windowrule = float, class:^(");
    append(&mut s, FLOAT_CLASS);
    append(&mut s, ")$\n");
    append(&mut s, "windowrule = size 40% 50%, class:^(");
    append(&mut s, FLOAT_CLASS);
    append(&mut s, ")$\n");
    append(&mut s, "windowrule = center, class:^(");
    append(&mut s, FLOAT_CLASS);
    append(&mut s, ")$\n");
    append(&mut s, "# SUPER + Shift + T → open the floating todo window\n");
    append(&mut s, "bind = SUPER SHIFT, T, exec, ");
    append(&mut s, spawn.as_str());
    append(&mut s, "\n");
    s
}

/// The command Hyprland runs to open the floating window. kitty and
/// alacritty both accept `--class`; the compact interface runs inside it.
pub fn spawn_command(binary: &str, terminal: &str) -> (r: String)
    ensures
        r@ == spawn_command_text(binary@, terminal@),
{
    let mut s = if str_eq(terminal, "alacritty") {
        to_owned_string("alacritty")
    } else {
        // kitty and most others use the same flag shape.
        to_owned_string(terminal)
    };
    append(&mut s, " --class ");
    append(&mut s, FLOAT_CLASS);
    append(&mut s, " -e ");
    append(&mut s, binary);
    append(&mut s, " tui --compact");
    s
}

} // verus!
