//! The graphical front end's command line: `[--config PATH]`.

use vstd::prelude::*;

use crate::text::{eq_text, opt_view, strings_view};

verus! {

/// What the front end's arguments ask for.
#[derive(Debug, PartialEq, Eq)]
pub enum GuiArgs {
    /// Run, with this configuration file instead of the default one.
    Run(Option<String>),
    /// Print the usage and exit.
    Help,
    /// `-c`/`--config` came last, without its value.
    MissingConfigValue,
}

/// The plain values of [`GuiArgs`].
pub enum GuiArgsView {
    Run(Option<Seq<char>>),
    Help,
    MissingConfigValue,
}

pub open spec fn gui_args_view(a: GuiArgs) -> GuiArgsView {
    match a {
        GuiArgs::Run(p) => GuiArgsView::Run(opt_view(p)),
        GuiArgs::Help => GuiArgsView::Help,
        GuiArgs::MissingConfigValue => GuiArgsView::MissingConfigValue,
    }
}

pub open spec fn is_config_flag(a: Seq<char>) -> bool {
    a == "-c"@ || a == "--config"@
}

pub open spec fn is_help_flag(a: Seq<char>) -> bool {
    a == "-h"@ || a == "--help"@
}

/// Reads the arguments from position `i` on, left to right: each
/// `-c`/`--config` takes the next argument as the path (the last one wins),
/// help stops at once, other arguments are ignored.
pub open spec fn gui_args_from(args: Seq<Seq<char>>, i: int, path: Option<Seq<char>>) -> GuiArgsView
    decreases args.len() - i,
{
    if i < 0 || i >= args.len() {
        GuiArgsView::Run(path)
    } else if is_config_flag(args[i]) {
        if i + 1 < args.len() {
            gui_args_from(args, i + 2, Some(args[i + 1]))
        } else {
            GuiArgsView::MissingConfigValue
        }
    } else if is_help_flag(args[i]) {
        GuiArgsView::Help
    } else {
        gui_args_from(args, i + 1, path)
    }
}

/// Parses the front end's arguments (without the program name).
pub fn parse_gui_args(args: &Vec<String>) -> (r: GuiArgs)
    ensures
        gui_args_view(r) == gui_args_from(strings_view(args@), 0, None),
{
    let ghost a = strings_view(args@);
    let mut path: Option<String> = None;
    let mut i: usize = 0;
    while i < args.len()
        invariant
            i <= args@.len() + 1,
            a == strings_view(args@),
            gui_args_from(a, i as int, opt_view(path)) == gui_args_from(a, 0, None),
        decreases args@.len() + 1 - i,
    {
        let arg = crate::text::str_chars(args[i].as_str());
        assert(arg@ == a[i as int]);
        if eq_text(arg.as_slice(), "-c") || eq_text(arg.as_slice(), "--config") {
            if i + 1 < args.len() {
                path = Some(args[i + 1].clone());
                i = i + 2;
            } else {
                return GuiArgs::MissingConfigValue;
            }
        } else if eq_text(arg.as_slice(), "-h") || eq_text(arg.as_slice(), "--help") {
            return GuiArgs::Help;
        } else {
            i = i + 1;
        }
    }
    GuiArgs::Run(path)
}

} // verus!
