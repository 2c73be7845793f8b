//! What the walk asks of a `clap` [`Command`].
//!
//! A `Command` is opaque to the proofs. What the contracts say of one, they
//! say through the names declared here: the tree of names that the walk
//! finds in it, the three settings that the walk changes, what `clap` renders
//! for it, and whether `clap` is able to build it. Every function of this
//! file hands one call on to `clap`; its contract is taken on trust from
//! `clap`'s source.
//!
//! `clap` builds a command before it renders its help. The build hands the
//! command's global arguments and settings down to the subcommands that it
//! holds, and brings in what the command deferred, but builds none of the
//! subcommands. The walk therefore reads the subcommands of a command from
//! the copy that `clap` has built, and has each of them built in its turn.

use clap_builder::Command;
use vstd::prelude::*;

verus! {

#[verifier::external_type_specification]
#[verifier::external_body]
pub struct ExCommand(Command);

/// The names of a command tree: the name of a command and, in the order in
/// which they were declared, the outlines of its subcommands.
pub struct Outline {
    pub name: Seq<char>,
    pub subcommands: Seq<Outline>,
}

/// The names of the tree that the walk finds in a command: the command's
/// name as it stands and, in turn, the outlines of the subcommands that it
/// holds once `clap` has built it with its automatic help switched off.
pub uninterp spec fn command_outline(cmd: Command) -> Outline;

/// The outlines of the subcommands that a command holds as it stands, in
/// the order in which it holds them.
pub uninterp spec fn held_outlines(cmd: Command) -> Seq<Outline>;

/// Whether `Command::render_long_help` returns for the command once its
/// automatic help flag and help subcommand are switched off, and in turn for
/// every subcommand that the command then holds. `clap` builds a command
/// before it renders its help, and panics where the arguments or settings of
/// the command contradict each other.
pub uninterp spec fn documentable(cmd: Command) -> bool;

/// Whether every subcommand that a command holds as it stands is
/// [`documentable`].
pub uninterp spec fn held_documentable(cmd: Command) -> bool;

/// Whether the automatic `--help` flag of the command is switched off: what
/// `Command::is_disable_help_flag_set` answers.
pub uninterp spec fn help_flag_disabled(cmd: Command) -> bool;

/// Whether the automatic `help` subcommand of the command is switched off:
/// what `Command::is_disable_help_subcommand_set` answers.
pub uninterp spec fn help_subcommand_disabled(cmd: Command) -> bool;

/// The binary name that was set for the command, if one was: what
/// `Command::get_bin_name` answers.
pub uninterp spec fn bin_name(cmd: Command) -> Option<Seq<char>>;

/// Whether `help` is a text that `Command::render_long_help` gives for the
/// command as it stands. The text may depend on more than the command: on
/// the terminal, where `clap` wraps its help to it.
pub uninterp spec fn long_help_of(cmd: Command, help: Seq<char>) -> bool;

/// `Command::get_name`: the name of the command itself.
#[verifier::external_body]
pub(crate) fn name<'a>(cmd: &'a Command) -> (name: &'a str)
    ensures
        name@ == command_outline(*cmd).name,
{
    cmd.get_name()
}

/// `Command::get_subcommands`: the commands that `cmd` holds as it stands, in
/// the order in which it holds them.
#[verifier::external_body]
pub(crate) fn subcommands<'a>(cmd: &'a Command) -> (subs: Vec<&'a Command>)
    ensures
        subs@.len() == held_outlines(*cmd).len(),
        forall|i: int|
            0 <= i < subs@.len() ==> command_outline(*#[trigger] subs@[i]) == held_outlines(
                *cmd,
            )[i],
        held_documentable(*cmd) ==> forall|i: int|
            0 <= i < subs@.len() ==> documentable(*#[trigger] subs@[i]),
{
    cmd.get_subcommands().collect()
}

/// `Command::clone`: a copy of `cmd`.
#[verifier::external_body]
pub(crate) fn duplicate(cmd: &Command) -> (copy: Command)
    ensures
        copy == *cmd,
{
    cmd.clone()
}

/// `Command::disable_help_subcommand`: the command with its automatic `help`
/// subcommand switched off (`yes`) or on. Its help flag stays as it is, and
/// so does what `clap` makes of the command once both are off.
#[verifier::external_body]
pub(crate) fn disable_help_subcommand(cmd: Command, yes: bool) -> (changed: Command)
    ensures
        help_subcommand_disabled(changed) == yes,
        help_flag_disabled(changed) == help_flag_disabled(cmd),
        command_outline(changed) == command_outline(cmd),
        documentable(cmd) ==> documentable(changed),
{
    cmd.disable_help_subcommand(yes)
}

/// `Command::disable_help_flag`: the command with its automatic `--help`
/// flag switched off (`yes`) or on. Its help subcommand stays as it is, and
/// so does what `clap` makes of the command once both are off.
#[verifier::external_body]
pub(crate) fn disable_help_flag(cmd: Command, yes: bool) -> (changed: Command)
    ensures
        help_flag_disabled(changed) == yes,
        help_subcommand_disabled(changed) == help_subcommand_disabled(cmd),
        command_outline(changed) == command_outline(cmd),
        documentable(cmd) ==> documentable(changed),
{
    cmd.disable_help_flag(yes)
}

/// `Command::set_bin_name`: the binary name of the command, with which the
/// usage line of its help starts, becomes `name`. Nothing else of the
/// command changes.
#[verifier::external_body]
pub(crate) fn set_bin_name(cmd: &mut Command, name: String)
    ensures
        bin_name(*final(cmd)) == Some(name@),
        help_flag_disabled(*final(cmd)) == help_flag_disabled(*old(cmd)),
        help_subcommand_disabled(*final(cmd)) == help_subcommand_disabled(*old(cmd)),
        command_outline(*final(cmd)) == command_outline(*old(cmd)),
        documentable(*old(cmd)) ==> documentable(*final(cmd)),
{
    cmd.set_bin_name(name)
}

/// `Command::render_long_help`, as plain text: what `--help` would print for
/// the command. `clap` builds the command first, which is why the command has
/// to be one that it can build as it stands, and leaves it built: it then
/// holds the subcommands of its outline, each ready to be built in its turn.
/// Of the text nothing is claimed but that `clap` gave it for this command.
#[verifier::external_body]
pub(crate) fn render_long_help(cmd: &mut Command) -> (help: String)
    requires
        documentable(*old(cmd)),
        help_flag_disabled(*old(cmd)),
        help_subcommand_disabled(*old(cmd)),
    ensures
        long_help_of(*old(cmd), help@),
        held_outlines(*final(cmd)) == command_outline(*old(cmd)).subcommands,
        held_documentable(*final(cmd)),
{
    cmd.render_long_help().to_string()
}

} // verus!
