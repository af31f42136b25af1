use todo::hypr::{config_snippet, spawn_command, FLOAT_CLASS};

#[test]
fn snippet_has_keybind_and_class() {
    let snip = config_snippet("todo", "kitty");
    assert!(snip.contains("SUPER SHIFT, T"));
    assert!(snip.contains(FLOAT_CLASS));
    assert!(snip.contains("todo tui --compact"));
}

#[test]
fn alacritty_uses_class_flag() {
    let cmd = spawn_command("todo", "alacritty");
    assert!(cmd.starts_with("alacritty --class todo-float"));
    assert!(cmd.ends_with("todo tui --compact"));
}

#[test]
fn kitty_spawn_command_is_exact() {
    assert_eq!(spawn_command("todo", "kitty"), "kitty --class todo-float -e todo tui --compact");
}

#[test]
fn hypr_snippet_is_exact() {
    assert_eq!(
        config_snippet("td", "foot"),
        "# todo — Hyprland floating quick-window\n\
         windowrule = float, class:^(todo-float)$\n\
         windowrule = size 40% 50%, class:^(todo-float)$\n\
         windowrule = center, class:^(todo-float)$\n\
         # SUPER + Shift + T → open the floating todo window\n\
         bind = SUPER SHIFT, T, exec, foot --class todo-float -e td tui --compact\n"
    );
}
