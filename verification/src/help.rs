//! The command-line parser that prints the help: one subcommand for each
//! documented target, under the about text and above the postscript.
//!
//! The parser is a `clap::Command`. This module builds it step by step and
//! states, over [`command_spec`], what each step puts into it. What is said
//! there of clap's own functions is taken from clap's source and is not
//! proved; what [`make_help`] builds with them is. What clap then prints for
//! the parser is clap's business.

use crate::makefile::Makefile;
use clap::{Arg, ArgAction, Command};
use vstd::prelude::*;

verus! {

#[verifier::external_type_specification]
#[verifier::external_body]
pub struct ExCommand(clap::Command);

#[verifier::external_type_specification]
#[verifier::external_body]
pub struct ExArg(clap::Arg);

/// What an argument of a command holds, as far as this module sets it.
pub struct ArgSpec {
    /// The id, the name by which the argument is found among the matches:
    /// what `Arg::get_id` gives.
    pub id: Seq<char>,
    /// The long flag, without its dashes: what `Arg::get_long` gives.
    pub long: Option<Seq<char>>,
    /// The help text: the text of what `Arg::get_help` gives.
    pub help: Option<Seq<char>>,
    /// The argument is a switch, false when absent and true when present:
    /// `Arg::get_action` gives `ArgAction::SetTrue`.
    pub sets_true: bool,
}

/// What a command holds, as far as this module sets it.
pub struct CommandSpec {
    /// The name: what `Command::get_name` gives.
    pub name: Seq<char>,
    /// The text above the usage: the text of what `Command::get_about` gives.
    pub about: Option<Seq<char>>,
    /// The text below the options and subcommands: the text of what
    /// `Command::get_after_help` gives.
    pub after_help: Option<Seq<char>>,
    /// The arguments in the order in which they were added: those that
    /// `Command::get_arguments` gives.
    pub args: Seq<ArgSpec>,
    /// The subcommands as (name, about) in the order in which they were
    /// added: those that `Command::get_subcommands` gives.
    pub subcommands: Seq<(Seq<char>, Option<Seq<char>>)>,
    /// No `help` subcommand is made: what
    /// `Command::is_disable_help_subcommand_set` gives.
    pub help_subcommand_disabled: bool,
}

/// What `arg` holds. Nothing is known of it but what the functions below say
/// of the arguments they return.
pub uninterp spec fn arg_spec(arg: Arg) -> ArgSpec;

/// What `cmd` holds. Nothing is known of it but what the functions below say
/// of the commands they return.
pub uninterp spec fn command_spec(cmd: Command) -> CommandSpec;

/// The name under which the program is run.
pub open spec fn program_name() -> Seq<char> {
    "mk"@
}

/// The switch that stands for the program's own commands.
pub open spec fn internal_switch() -> ArgSpec {
    ArgSpec {
        id: "me"@,
        long: Some("me"@),
        help: Some("Run an internal `mk` command"@),
        sets_true: true,
    }
}

/// The subcommands that stand for `targets`: one for each, in order, under
/// the target's name and with its help as about text.
pub open spec fn target_commands(targets: Seq<(Seq<char>, Seq<char>)>) -> Seq<
    (Seq<char>, Option<Seq<char>>),
> {
    Seq::new(targets.len(), |i: int| (targets[i].0, Some(targets[i].1)))
}

/// The parser for a Makefile with the about text `about`, the postscript
/// `epilogue` and the documented targets `targets`. An empty about text or
/// postscript is left out.
pub open spec fn help_spec(
    about: Seq<char>,
    epilogue: Seq<char>,
    targets: Seq<(Seq<char>, Seq<char>)>,
) -> CommandSpec {
    CommandSpec {
        name: program_name(),
        about: if about.len() > 0 {
            Some(about)
        } else {
            None
        },
        after_help: if epilogue.len() > 0 {
            Some(epilogue)
        } else {
            None
        },
        args: seq![internal_switch()],
        subcommands: target_commands(targets),
        help_subcommand_disabled: true,
    }
}

/// `Arg::new`: a new argument has the id it was given, and no long flag, no
/// help text and no action of its own yet.
#[verifier::external_body]
fn arg_new(id: &str) -> (arg: Arg)
    ensures
        arg_spec(arg) == (ArgSpec { id: id@, long: None, help: None, sets_true: false }),
{
    Arg::new(id.to_owned())
}

/// `Arg::long`: sets the long flag and leaves the rest.
#[verifier::external_body]
fn arg_long(arg: Arg, long: &str) -> (with: Arg)
    ensures
        arg_spec(with) == (ArgSpec { long: Some(long@), ..arg_spec(arg) }),
{
    arg.long(long.to_owned())
}

/// `Arg::help`: sets the help text and leaves the rest.
#[verifier::external_body]
fn arg_help(arg: Arg, help: &str) -> (with: Arg)
    ensures
        arg_spec(with) == (ArgSpec { help: Some(help@), ..arg_spec(arg) }),
{
    arg.help(help.to_owned())
}

/// `Arg::action` with `ArgAction::SetTrue`: makes the argument a switch and
/// leaves the rest.
#[verifier::external_body]
fn arg_set_true(arg: Arg) -> (with: Arg)
    ensures
        arg_spec(with) == (ArgSpec { sets_true: true, ..arg_spec(arg) }),
{
    arg.action(ArgAction::SetTrue)
}

/// `Command::new`: a new command has the name it was given and nothing else.
#[verifier::external_body]
fn command_new(name: &str) -> (cmd: Command)
    ensures
        command_spec(cmd) == (CommandSpec {
            name: name@,
            about: None,
            after_help: None,
            args: Seq::empty(),
            subcommands: Seq::empty(),
            help_subcommand_disabled: false,
        }),
{
    Command::new(name.to_owned())
}

/// `Command::arg`: adds the argument after those that are there and leaves
/// the rest.
#[verifier::external_body]
fn command_arg(cmd: Command, arg: Arg) -> (with: Command)
    ensures
        command_spec(with) == (CommandSpec {
            args: command_spec(cmd).args.push(arg_spec(arg)),
            ..command_spec(cmd)
        }),
{
    cmd.arg(arg)
}

/// `Command::disable_help_subcommand`: sets whether the `help` subcommand is
/// disabled and leaves the rest.
#[verifier::external_body]
fn command_disable_help_subcommand(cmd: Command, yes: bool) -> (with: Command)
    ensures
        command_spec(with) == (CommandSpec { help_subcommand_disabled: yes, ..command_spec(cmd) }),
{
    cmd.disable_help_subcommand(yes)
}

/// `Command::about`: sets the about text and leaves the rest.
#[verifier::external_body]
fn command_about(cmd: Command, about: &str) -> (with: Command)
    ensures
        command_spec(with) == (CommandSpec { about: Some(about@), ..command_spec(cmd) }),
{
    cmd.about(about.to_owned())
}

/// `Command::after_help`: sets the after-help text and leaves the rest.
#[verifier::external_body]
fn command_after_help(cmd: Command, help: &str) -> (with: Command)
    ensures
        command_spec(with) == (CommandSpec { after_help: Some(help@), ..command_spec(cmd) }),
{
    cmd.after_help(help.to_owned())
}

/// `Command::subcommand`: adds the subcommand, with its name and about text,
/// after those that are there and leaves the rest.
#[verifier::external_body]
fn command_subcommand(cmd: Command, sub: Command) -> (with: Command)
    ensures
        command_spec(with) == (CommandSpec {
            subcommands: command_spec(cmd).subcommands.push(
                (command_spec(sub).name, command_spec(sub).about),
            ),
            ..command_spec(cmd)
        }),
{
    cmd.subcommand(sub)
}

/// The parser before anything of a Makefile is in it: the program's name, the
/// internal switch, and no `help` subcommand.
fn base_command() -> (cmd: Command)
    ensures
        command_spec(cmd) == help_spec(Seq::empty(), Seq::empty(), Seq::empty()),
{
    let switch = arg_set_true(
        arg_help(arg_long(arg_new("me"), "me"), "Run an internal `mk` command"),
    );
    let cmd = command_disable_help_subcommand(command_arg(command_new("mk"), switch), true);
    proof {
        assert(command_spec(cmd).args =~= seq![internal_switch()]);
        assert(command_spec(cmd).subcommands =~= target_commands(Seq::empty()));
    }
    cmd
}

/// Adds one subcommand to `cmd` for each of `targets`, in order.
fn with_targets(cmd: Command, targets: &Vec<(String, String)>) -> (with: Command)
    requires
        command_spec(cmd).subcommands == target_commands(Seq::empty()),
    ensures
        command_spec(with) == (CommandSpec {
            subcommands: target_commands(targets.deep_view()),
            ..command_spec(cmd)
        }),
{
    let ghost start = command_spec(cmd);
    let mut cmd = cmd;
    let mut i: usize = 0;
    assert(target_commands(targets.deep_view().take(0)) =~= target_commands(Seq::empty()));
    while i < targets.len()
        invariant
            i <= targets.len(),
            command_spec(cmd) == (CommandSpec {
                subcommands: target_commands(targets.deep_view().take(i as int)),
                ..start
            }),
        decreases targets.len() - i,
    {
        let sub = command_about(command_new(targets[i].0.as_str()), targets[i].1.as_str());
        proof {
            assert(target_commands(targets.deep_view().take(i + 1)) =~= target_commands(
                targets.deep_view().take(i as int),
            ).push((targets@[i as int].0@, Some(targets@[i as int].1@))));
        }
        cmd = command_subcommand(cmd, sub);
        i += 1;
    }
    assert(targets.deep_view().take(targets.len() as int) =~= targets.deep_view());
    cmd
}

/// Builds the parser that prints the help for a Makefile with the about text
/// `about`, the postscript `epilogue` and the documented targets `targets`.
pub fn make_help(about: String, epilogue: String, targets: Vec<(String, String)>) -> (cmd: Command)
    ensures
        command_spec(cmd) == help_spec(about@, epilogue@, targets.deep_view()),
{
    let mut cmd = base_command();
    if !about.as_str().is_empty() {
        cmd = command_about(cmd, about.as_str());
    }
    if !epilogue.as_str().is_empty() {
        cmd = command_after_help(cmd, epilogue.as_str());
    }
    with_targets(cmd, &targets)
}

impl Makefile {
    /// Builds the parser that prints the help for this Makefile: its
    /// postscript below, whatever it holds, one subcommand for each
    /// documented target, and no about text.
    pub fn get_arg_parser(&mut self) -> (cmd: Command)
        ensures
            *final(self) == *old(self),
            command_spec(cmd) == (CommandSpec {
                after_help: Some(old(self)@.postscript),
                ..help_spec(Seq::empty(), Seq::empty(), old(self)@.targets)
            }),
    {
        let cmd = command_after_help(base_command(), self.postscript.as_str());
        with_targets(cmd, &self.targets)
    }
}

} // verus!
