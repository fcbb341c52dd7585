use rust_autossh::cli::{parse_gui_args, GuiArgs};

fn args(list: &[&str]) -> Vec<String> {
    list.iter().map(|s| s.to_string()).collect()
}

#[test]
fn gui_config_flag_takes_the_next_argument() {
    assert_eq!(parse_gui_args(&args(&[])), GuiArgs::Run(None));
    assert_eq!(
        parse_gui_args(&args(&["--config", "/etc/a.toml"])),
        GuiArgs::Run(Some("/etc/a.toml".into()))
    );
    assert_eq!(
        parse_gui_args(&args(&["-c", "a", "x", "-c", "b"])),
        GuiArgs::Run(Some("b".into())),
        "the last path wins, unknown arguments are ignored"
    );
    assert_eq!(parse_gui_args(&args(&["-c", "-h"])), GuiArgs::Run(Some("-h".into())));
}

#[test]
fn gui_help_and_missing_values() {
    assert_eq!(parse_gui_args(&args(&["x", "--help", "-c"])), GuiArgs::Help);
    assert_eq!(parse_gui_args(&args(&["-c"])), GuiArgs::MissingConfigValue);
}
