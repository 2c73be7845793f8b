//! Markdown descriptions of `clap` command trees.
//!
//! [`markdown`] walks a command and its subcommands and writes one section per
//! command: a heading that spells out the whole invocation path, then the
//! command's long help in a fenced block.
//!
//! The walk and the text around the help are proved: which sections there
//! are, in which order, what each heading says and what parts the sections.
//! The help itself is `clap`'s; [`command`] lists what is taken on trust of
//! `clap`, and [`path`] what is taken on trust of the chain of names that the
//! walk carries along.

pub mod command;
pub mod document;
pub mod path;
pub mod text;

use crate::command::{
    bin_name, command_outline, disable_help_flag, disable_help_subcommand, documentable,
    duplicate, held_documentable, held_outlines, help_flag_disabled, help_subcommand_disabled,
    long_help_of, name, render_long_help, set_bin_name, subcommands, Outline,
};
use crate::document::{
    blank_line, document, forest_paths, lemma_document_append, push_heading, push_usage_block,
    section_paths, separator, subtree_paths,
};
use crate::path::{components, empty, is_empty, path_components, pushed};
use crate::text::{join, joined};
use clap_builder::Command;
use stackstack::Stack;
use vstd::prelude::*;
use vstd::string::StringExecFns;

verus! {

/// Whether `help` is what `clap` gave for the command that `path` leads to:
/// the long help of a command of that name whose automatic help flag and
/// help subcommand are switched off and whose binary name is the whole path,
/// joined by blanks.
pub open spec fn is_help_for(path: Seq<Seq<char>>, help: Seq<char>) -> bool {
    exists|shown: Command|
        {
            &&& #[trigger] long_help_of(shown, help)
            &&& help_flag_disabled(shown)
            &&& help_subcommand_disabled(shown)
            &&& bin_name(shown) == Some(joined(path))
            &&& path.len() > 0
            &&& command_outline(shown).name == path.last()
        }
}

/// Whether `helps` gives, for each of `paths` in order, a help that `clap`
/// gave for the command that the path leads to.
pub open spec fn are_helps_for(paths: Seq<Seq<Seq<char>>>, helps: Seq<Seq<char>>) -> bool {
    &&& helps.len() == paths.len()
    &&& forall|i: int| 0 <= i < paths.len() ==> is_help_for(#[trigger] paths[i], helps[i])
}

/// Whether `doc` is the document of a command tree with the names of
/// `outline`: one section for each command, in the order of the walk, each
/// showing the help that `clap` gave for that command.
pub open spec fn is_document_of(doc: Seq<char>, outline: Outline) -> bool {
    exists|helps: Seq<Seq<char>>|
        are_helps_for(section_paths(outline), helps) && doc == #[trigger] document(
            section_paths(outline),
            helps,
        )
}

/// Describes `cmd` and every command below it in markdown.
///
/// The document holds one section for each command: first the command's own,
/// then those of each subcommand's tree, in the order in which the
/// subcommands were declared, with one blank line between a section and the
/// next. The help in each section is what `clap` prints for the
/// [`presentation`] of the command, whose binary name is the path that leads
/// to the command, joined by blanks.
///
/// The subcommands of a command are read once `clap` has built it, so that
/// their sections show what the command hands down to them, such as its
/// global arguments. `cmd` has to be a tree that `clap` can build; `clap`
/// panics on one that it cannot.
pub fn markdown(cmd: Command) -> (doc: String)
    requires
        documentable(cmd),
    ensures
        is_document_of(doc@, command_outline(cmd)),
{
    let mut buf = String::new();
    let root = empty();
    let Ghost(helps) = _markdown(&mut buf, root, &cmd);
    proof {
        assert(separator(path_components(root)) == Seq::<char>::empty());
        assert(buf@ == document(section_paths(command_outline(cmd)), helps));
    }
    buf
}

/// The copy of `cmd` that is shown to `clap` for its help: the automatic help
/// flag and help subcommand are switched off, since their lines say nothing
/// in a document, and the binary name is `invocation`, so that the usage line
/// spells out the whole path. `cmd` itself is left as it is.
pub fn presentation(cmd: &Command, invocation: String) -> (shown: Command)
    ensures
        help_subcommand_disabled(shown),
        help_flag_disabled(shown),
        bin_name(shown) == Some(invocation@),
        command_outline(shown) == command_outline(*cmd),
        documentable(*cmd) ==> documentable(shown),
{
    let mut shown = disable_help_flag(disable_help_subcommand(duplicate(cmd), true), true);
    set_bin_name(&mut shown, invocation);
    shown
}

/// Appends to `buf` the sections of `cmd` and of every command below it;
/// `path` leads to the command above `cmd` and is empty for the root. The
/// result is the help that `clap` gave for each section.
fn _markdown(buf: &mut String, path: Stack<&str>, cmd: &Command) -> (helps: Ghost<Seq<Seq<char>>>)
    requires
        documentable(*cmd),
    ensures
        are_helps_for(subtree_paths(path_components(path), command_outline(*cmd)), helps@),
        final(buf)@ == old(buf)@ + separator(path_components(path)) + document(
            subtree_paths(path_components(path), command_outline(*cmd)),
            helps@,
        ),
    decreases command_outline(*cmd),
{
    let ghost parent = path_components(path);
    let ghost outline = command_outline(*cmd);
    if !is_empty(&path) {
        buf.append("\n\n");
        proof {
            reveal_strlit("\n\n");
            assert("\n\n"@ == blank_line());
        }
    }
    let path = pushed(&path, name(cmd));
    let ghost here = parent.push(outline.name);
    let names = components(&path);
    push_heading(buf, names.as_slice());

    let mut shown = presentation(cmd, join(names.as_slice()));
    let ghost handed = shown;
    let help = render_long_help(&mut shown);
    push_usage_block(buf, help.as_str());

    let ghost mut helps = seq![help@];
    let ghost start = old(buf)@ + separator(parent);
    proof {
        assert(forest_paths(here, outline.subcommands.take(0)) == Seq::<Seq<Seq<char>>>::empty());
        assert(seq![here] + forest_paths(here, outline.subcommands.take(0)) == seq![here]);
        assert(long_help_of(handed, help@));
        assert(is_help_for(here, help@));
    }
    let subs = subcommands(&shown);
    let mut i: usize = 0;
    while i < subs.len()
        invariant
            i <= subs.len(),
            subs@.len() == outline.subcommands.len(),
            outline == command_outline(*cmd),
            forall|k: int|
                0 <= k < subs@.len() ==> command_outline(*#[trigger] subs@[k])
                    == outline.subcommands[k],
            forall|k: int| 0 <= k < subs@.len() ==> documentable(*#[trigger] subs@[k]),
            path_components(path) == here,
            here.len() > 0,
            are_helps_for(
                seq![here] + forest_paths(here, outline.subcommands.take(i as int)),
                helps,
            ),
            buf@ == start + document(
                seq![here] + forest_paths(here, outline.subcommands.take(i as int)),
                helps,
            ),
        decreases subs.len() - i,
    {
        let ghost done = seq![here] + forest_paths(here, outline.subcommands.take(i as int));
        let ghost before = buf@;
        let Ghost(more) = _markdown(buf, path, subs[i]);
        proof {
            let next = subtree_paths(here, outline.subcommands[i as int]);
            assert(command_outline(*subs@[i as int]) == outline.subcommands[i as int]);
            assert(outline.subcommands.take(i + 1).drop_last() == outline.subcommands.take(
                i as int,
            ));
            assert(forest_paths(here, outline.subcommands.take(i + 1)) == forest_paths(
                here,
                outline.subcommands.take(i as int),
            ) + next);
            assert(seq![here] + forest_paths(here, outline.subcommands.take(i + 1)) == done
                + next);
            lemma_document_append(done, helps, next, more);
            assert(buf@ == before + blank_line() + document(next, more));
            assert(buf@ =~= start + (document(done, helps) + blank_line() + document(next, more)));
            lemma_helps_append(done, helps, next, more);
            helps = helps + more;
        }
        i += 1;
    }
    proof {
        assert(outline.subcommands.take(i as int) == outline.subcommands);
    }
    Ghost(helps)
}

/// Helps for one run of sections followed by helps for another are helps for
/// the two runs together.
pub proof fn lemma_helps_append(
    paths: Seq<Seq<Seq<char>>>,
    helps: Seq<Seq<char>>,
    more_paths: Seq<Seq<Seq<char>>>,
    more_helps: Seq<Seq<char>>,
)
    requires
        are_helps_for(paths, helps),
        are_helps_for(more_paths, more_helps),
    ensures
        are_helps_for(paths + more_paths, helps + more_helps),
{
    let all = paths + more_paths;
    let all_helps = helps + more_helps;
    assert forall|i: int| 0 <= i < all.len() implies is_help_for(#[trigger] all[i], all_helps[i]) by {
        if i < paths.len() {
            assert(is_help_for(paths[i], helps[i]));
        } else {
            assert(is_help_for(more_paths[i - paths.len()], more_helps[i - paths.len()]));
        }
    }
}

} // verus!
