//! The text of a document, section by section.
//!
//! A section is a heading line and a fenced block. The heading of a command
//! at depth `d` is `d` number signs followed by the `d` names of its path,
//! each after a blank and between backticks. The block holds the command's
//! help without the white space around it.

use crate::command::Outline;
use crate::text::{trim, trimmed, views};
use vstd::prelude::*;
use vstd::string::StringExecFns;

verus! {

/// `n` number signs.
pub open spec fn hashes(n: nat) -> Seq<char> {
    Seq::new(n, |i: int| '#')
}

/// Every name of `path` in turn, each written as a blank, a backtick, the
/// name and a backtick.
pub open spec fn quoted(path: Seq<Seq<char>>) -> Seq<char>
    decreases path.len(),
{
    if path.len() == 0 {
        Seq::empty()
    } else {
        quoted(path.drop_last()) + seq![' ', '`'] + path.last() + seq!['`']
    }
}

/// The heading line of the command that `path` leads to, without a line
/// break.
pub open spec fn heading(path: Seq<Seq<char>>) -> Seq<char> {
    hashes(path.len()) + quoted(path)
}

/// The line that opens a usage block, with the line break that ends the
/// heading before it.
pub open spec fn fence_open() -> Seq<char> {
    seq!['\n', '`', '`', '`', 't', 'e', 'x', 't', '\n']
}

/// The line that closes a usage block, with the line break before it.
pub open spec fn fence_close() -> Seq<char> {
    seq!['\n', '`', '`', '`']
}

/// The fenced block that shows `help`.
pub open spec fn usage_block(help: Seq<char>) -> Seq<char> {
    fence_open() + trimmed(help) + fence_close()
}

/// The section of the command that `path` leads to and whose help is `help`.
pub open spec fn section(path: Seq<Seq<char>>, help: Seq<char>) -> Seq<char> {
    heading(path) + usage_block(help)
}

/// What stands between a section and the next: the line break that ends the
/// closing fence, and one blank line.
pub open spec fn blank_line() -> Seq<char> {
    seq!['\n', '\n']
}

/// One section for each path, in order, with one blank line between a
/// section and the next. `helps` gives the help of each section; only its
/// first `paths.len()` entries count.
pub open spec fn document(paths: Seq<Seq<Seq<char>>>, helps: Seq<Seq<char>>) -> Seq<char>
    decreases paths.len(),
{
    if paths.len() == 0 {
        Seq::empty()
    } else if paths.len() == 1 {
        section(paths[0], helps[0])
    } else {
        document(paths.drop_last(), helps) + blank_line() + section(
            paths.last(),
            helps[paths.len() - 1],
        )
    }
}

/// The blank line that parts a section from the one before it. The walk
/// starts with an empty path, so only the root's section has none.
pub open spec fn separator(parent: Seq<Seq<char>>) -> Seq<char> {
    if parent.len() > 0 {
        blank_line()
    } else {
        Seq::empty()
    }
}

/// The paths of the sections of one command tree, in the order of the walk:
/// the path of the command itself, which is `parent` and its name, then the
/// paths of the tree of each subcommand in turn.
pub open spec fn subtree_paths(parent: Seq<Seq<char>>, outline: Outline) -> Seq<Seq<Seq<char>>>
    decreases outline,
{
    seq![parent.push(outline.name)] + forest_paths(parent.push(outline.name), outline.subcommands)
}

/// The paths of the sections of the trees `outlines`, which all stand
/// directly below `parent`: tree after tree, in the order given.
pub open spec fn forest_paths(parent: Seq<Seq<char>>, outlines: Seq<Outline>) -> Seq<
    Seq<Seq<char>>,
>
    decreases outlines,
{
    if outlines.len() == 0 {
        Seq::empty()
    } else {
        forest_paths(parent, outlines.drop_last()) + subtree_paths(parent, outlines.last())
    }
}

/// The paths of the sections of the document of a whole command tree.
pub open spec fn section_paths(outline: Outline) -> Seq<Seq<Seq<char>>> {
    subtree_paths(Seq::empty(), outline)
}

/// A document of two runs of sections is the document of the first run, a
/// blank line, and the document of the second.
pub proof fn lemma_document_append(
    paths: Seq<Seq<Seq<char>>>,
    helps: Seq<Seq<char>>,
    more_paths: Seq<Seq<Seq<char>>>,
    more_helps: Seq<Seq<char>>,
)
    requires
        paths.len() == helps.len(),
        more_paths.len() == more_helps.len(),
        paths.len() > 0,
        more_paths.len() > 0,
    ensures
        document(paths + more_paths, helps + more_helps) == document(paths, helps) + blank_line()
            + document(more_paths, more_helps),
    decreases more_paths.len(),
{
    let all = paths + more_paths;
    let all_helps = helps + more_helps;
    lemma_document_reads_prefix(paths, helps, all_helps);
    if more_paths.len() == 1 {
        assert(all.drop_last() == paths);
        assert(all_helps[all.len() - 1] == more_helps[0]);
    } else {
        lemma_document_append(paths, helps, more_paths.drop_last(), more_helps.drop_last());
        lemma_document_reads_prefix(more_paths.drop_last(), more_helps.drop_last(), more_helps);
        lemma_document_reads_prefix(
            paths + more_paths.drop_last(),
            helps + more_helps.drop_last(),
            all_helps,
        );
        assert(all.drop_last() == paths + more_paths.drop_last());
        assert(all_helps[all.len() - 1] == more_helps[more_paths.len() - 1]);
    }
}

/// A document reads as many helps as it has paths: what follows them in
/// `helps` plays no part.
pub proof fn lemma_document_reads_prefix(
    paths: Seq<Seq<Seq<char>>>,
    helps: Seq<Seq<char>>,
    longer: Seq<Seq<char>>,
)
    requires
        paths.len() <= helps.len() <= longer.len(),
        forall|i: int| 0 <= i < paths.len() ==> helps[i] == longer[i],
    ensures
        document(paths, helps) == document(paths, longer),
    decreases paths.len(),
{
    if paths.len() > 1 {
        lemma_document_reads_prefix(paths.drop_last(), helps, longer);
    }
}

/// The document of a command without subcommands is one section and nothing
/// else: a number sign, a blank, the name between backticks, and the fenced
/// block with the help.
pub proof fn lemma_document_of_leaf(outline: Outline, helps: Seq<Seq<char>>)
    requires
        outline.subcommands.len() == 0,
        helps.len() == 1,
    ensures
        section_paths(outline) == seq![seq![outline.name]],
        document(section_paths(outline), helps) == seq!['#', ' ', '`'] + outline.name + seq!['`']
            + fence_open() + trimmed(helps[0]) + fence_close(),
{
    let root = Seq::<Seq<char>>::empty().push(outline.name);
    assert(root == seq![outline.name]);
    assert(forest_paths(root, outline.subcommands) == Seq::<Seq<Seq<char>>>::empty());
    assert(section_paths(outline) == seq![root]);
    lemma_heading_names(Seq::empty(), outline.name);
    assert(quoted(Seq::empty()) == Seq::<char>::empty());
    assert(hashes(0) == Seq::<char>::empty());
    assert(heading(root) == seq!['#', ' ', '`'] + outline.name + seq!['`']);
}

/// A heading starts with as many number signs as its path has names, and
/// with no more: a blank follows them.
pub proof fn lemma_heading_depth(path: Seq<Seq<char>>)
    requires
        path.len() > 0,
    ensures
        heading(path).len() > path.len(),
        forall|i: int| 0 <= i < path.len() ==> heading(path)[i] == '#',
        heading(path)[path.len() as int] == ' ',
        heading(path).last() == '`',
{
    lemma_quoted_edges(path);
}

/// The names of a heading: those of the path above, as they are written in
/// its own heading, and then the last name after a blank and between
/// backticks. A heading of depth `d` thus quotes `d` names.
pub proof fn lemma_heading_names(path: Seq<Seq<char>>, name: Seq<char>)
    ensures
        quoted(path.push(name)) == quoted(path) + seq![' ', '`'] + name + seq!['`'],
        heading(path.push(name)) == seq!['#'] + heading(path) + seq![' ', '`'] + name + seq!['`'],
{
    assert(path.push(name).drop_last() == path);
    assert(hashes(path.len() + 1) == seq!['#'] + hashes(path.len()));
}

/// What is written for a path that is not empty starts with a blank and ends
/// with a backtick.
pub proof fn lemma_quoted_edges(path: Seq<Seq<char>>)
    requires
        path.len() > 0,
    ensures
        quoted(path).len() >= 3,
        quoted(path).first() == ' ',
        quoted(path).last() == '`',
    decreases path.len(),
{
    let above = quoted(path.drop_last());
    let own = seq![' ', '`'] + path.last() + seq!['`'];
    assert(quoted(path) == above + own);
    if path.len() > 1 {
        lemma_quoted_edges(path.drop_last());
        assert(quoted(path).first() == above.first());
    } else {
        assert(above == Seq::<char>::empty());
        assert(quoted(path) == own);
    }
    assert(quoted(path).last() == own.last());
}

/// A section starts with a number sign and ends with a backtick: it brings
/// no line break of its own at either end, so that the blank line between
/// two sections is the only one there.
pub proof fn lemma_section_edges(path: Seq<Seq<char>>, help: Seq<char>)
    requires
        path.len() > 0,
    ensures
        section(path, help).first() == '#',
        section(path, help).last() == '`',
{
    lemma_heading_depth(path);
}

/// A document starts with the number sign of its first heading and ends
/// with the backtick of its last fence: with [`lemma_document_separators`],
/// what lies between the closing fence of a section and the heading of the
/// next is one blank line, never none and never two.
pub proof fn lemma_document_edges(paths: Seq<Seq<Seq<char>>>, helps: Seq<Seq<char>>)
    requires
        paths.len() > 0,
        forall|i: int| 0 <= i < paths.len() ==> (#[trigger] paths[i]).len() > 0,
    ensures
        document(paths, helps).len() > 0,
        document(paths, helps).first() == '#',
        document(paths, helps).last() == '`',
    decreases paths.len(),
{
    lemma_section_edges(paths.last(), helps[paths.len() - 1]);
    if paths.len() > 1 {
        assert forall|i: int| 0 <= i < paths.drop_last().len() implies (
        #[trigger] paths.drop_last()[i]).len() > 0 by {
            assert(paths.drop_last()[i] == paths[i]);
        }
        lemma_document_edges(paths.drop_last(), helps);
    }
}

/// The first section of a document has nothing before it, and each further
/// section comes after one blank line.
pub proof fn lemma_document_separators(
    paths: Seq<Seq<Seq<char>>>,
    helps: Seq<Seq<char>>,
    path: Seq<Seq<char>>,
    help: Seq<char>,
)
    requires
        paths.len() == helps.len(),
    ensures
        document(paths.push(path), helps.push(help)) == document(paths, helps) + (if paths.len()
            > 0 {
            blank_line()
        } else {
            Seq::empty()
        }) + section(path, help),
{
    assert(paths.push(path).drop_last() == paths);
    if paths.len() > 0 {
        lemma_document_reads_prefix(paths, helps, helps.push(help));
    }
}

/// Every path of a command tree leads through the command at its top, and
/// the first is the path of that command itself.
pub proof fn lemma_subtree_paths_extend(parent: Seq<Seq<char>>, outline: Outline, i: int)
    requires
        0 <= i < subtree_paths(parent, outline).len(),
    ensures
        subtree_paths(parent, outline)[0] == parent.push(outline.name),
        subtree_paths(parent, outline)[i].len() > parent.len(),
        subtree_paths(parent, outline)[i].take(parent.len() as int + 1) == parent.push(outline.name),
    decreases outline,
{
    let here = parent.push(outline.name);
    if i == 0 {
        assert(here.take(parent.len() as int + 1) == here);
    } else {
        lemma_forest_paths_extend(here, outline.subcommands, i - 1);
        let path = forest_paths(here, outline.subcommands)[i - 1];
        assert(path.take(parent.len() as int + 1) == path.take(here.len() as int).take(
            parent.len() as int + 1,
        ));
    }
}

/// Every path of the trees below `parent` leads through `parent`.
pub proof fn lemma_forest_paths_extend(parent: Seq<Seq<char>>, outlines: Seq<Outline>, i: int)
    requires
        0 <= i < forest_paths(parent, outlines).len(),
    ensures
        forest_paths(parent, outlines)[i].len() > parent.len(),
        forest_paths(parent, outlines)[i].take(parent.len() as int) == parent,
    decreases outlines,
{
    let before = forest_paths(parent, outlines.drop_last());
    if i < before.len() {
        lemma_forest_paths_extend(parent, outlines.drop_last(), i);
    } else {
        lemma_subtree_paths_extend(parent, outlines.last(), i - before.len());
        let path = subtree_paths(parent, outlines.last())[i - before.len()];
        assert(path.take(parent.len() as int) == path.take(parent.len() as int + 1).take(
            parent.len() as int,
        ));
        assert(parent.push(outlines.last().name).take(parent.len() as int) == parent);
    }
}

/// Where the sections of the `k`-th of the trees `outlines` start among the
/// sections of them all: after the sections of the trees before it.
pub open spec fn subtree_start(parent: Seq<Seq<char>>, outlines: Seq<Outline>, k: int) -> int {
    forest_paths(parent, outlines.take(k)).len() as int
}

/// Subcommands keep the order in which they were declared: the sections of
/// the `k`-th tree stand together, after those of the trees before it and
/// before those of the trees after it, and none is left out or written
/// twice.
pub proof fn lemma_siblings_in_order(parent: Seq<Seq<char>>, outlines: Seq<Outline>, k: int)
    requires
        0 <= k < outlines.len(),
    ensures
        0 <= subtree_start(parent, outlines, k) < subtree_start(parent, outlines, k + 1)
            <= forest_paths(parent, outlines).len(),
        forest_paths(parent, outlines).subrange(
            subtree_start(parent, outlines, k),
            subtree_start(parent, outlines, k + 1),
        ) == subtree_paths(parent, outlines[k]),
        forest_paths(parent, outlines)[subtree_start(parent, outlines, k)] == parent.push(
            outlines[k].name,
        ),
        subtree_start(parent, outlines, 0) == 0,
        subtree_start(parent, outlines, outlines.len() as int) == forest_paths(
            parent,
            outlines,
        ).len(),
    decreases outlines.len() - k,
{
    let all = forest_paths(parent, outlines);
    let upto = forest_paths(parent, outlines.take(k));
    let tree = subtree_paths(parent, outlines[k]);
    assert(outlines.take(0) == Seq::<Outline>::empty());
    assert(outlines.take(outlines.len() as int) == outlines);
    assert(outlines.take(k + 1).drop_last() == outlines.take(k));
    assert(forest_paths(parent, outlines.take(k + 1)) == upto + tree);
    lemma_forest_paths_grow(parent, outlines, k + 1);
    let both = upto + tree;
    assert(all.take(both.len() as int) == both);
    assert(tree.len() > 0);
    assert(all.subrange(upto.len() as int, both.len() as int) =~= tree) by {
        assert forall|i: int| 0 <= i < tree.len() implies all[upto.len() + i] == tree[i] by {
            assert(all.take(both.len() as int)[upto.len() + i] == both[upto.len() + i]);
        }
    }
    assert(all[upto.len() as int] == tree[0]) by {
        assert(all.take(both.len() as int)[upto.len() as int] == both[upto.len() as int]);
    }
}

/// The sections of the first `k` trees are the first sections of them all.
pub proof fn lemma_forest_paths_grow(parent: Seq<Seq<char>>, outlines: Seq<Outline>, k: int)
    requires
        0 <= k <= outlines.len(),
    ensures
        forest_paths(parent, outlines.take(k)).len() <= forest_paths(parent, outlines).len(),
        forest_paths(parent, outlines).take(forest_paths(parent, outlines.take(k)).len() as int)
            == forest_paths(parent, outlines.take(k)),
    decreases outlines.len() - k,
{
    if k == outlines.len() {
        assert(outlines.take(k) == outlines);
    } else {
        lemma_forest_paths_grow(parent, outlines, k + 1);
        assert(outlines.take(k + 1).drop_last() == outlines.take(k));
        let shorter = forest_paths(parent, outlines.take(k));
        let longer = forest_paths(parent, outlines.take(k + 1));
        assert(longer.take(shorter.len() as int) == shorter);
        assert(forest_paths(parent, outlines).take(shorter.len() as int) == forest_paths(
            parent,
            outlines,
        ).take(longer.len() as int).take(shorter.len() as int));
    }
}

/// Appends the heading of `path` to `buf`.
pub fn push_heading(buf: &mut String, path: &[&str])
    ensures
        final(buf)@ == old(buf)@ + heading(views(path@)),
{
    let ghost names = views(path@);
    let mut i: usize = 0;
    while i < path.len()
        invariant
            i <= path.len(),
            buf@ == old(buf)@ + hashes(i as nat),
        decreases path.len() - i,
    {
        buf.append("#");
        proof {
            reveal_strlit("#");
            assert(hashes(i as nat) + "#"@ =~= hashes((i + 1) as nat));
        }
        i += 1;
    }
    let mut k: usize = 0;
    while k < path.len()
        invariant
            k <= path.len(),
            names == views(path@),
            buf@ == old(buf)@ + hashes(path.len() as nat) + quoted(names.take(k as int)),
        decreases path.len() - k,
    {
        buf.append(" `");
        buf.append(path[k]);
        buf.append("`");
        proof {
            reveal_strlit(" `");
            reveal_strlit("`");
            assert(names.take(k + 1).drop_last() == names.take(k as int));
            assert(" `"@ == seq![' ', '`']);
            assert("`"@ == seq!['`']);
        }
        k += 1;
    }
    proof {
        assert(names.take(k as int) == names);
    }
}

/// Appends to `buf` the fenced block that shows `help`: the help loses the
/// white space at its ends.
pub fn push_usage_block(buf: &mut String, help: &str)
    ensures
        final(buf)@ == old(buf)@ + usage_block(help@),
{
    buf.append("\n```text\n");
    buf.append(trim(help));
    buf.append("\n```");
    proof {
        reveal_strlit("\n```text\n");
        reveal_strlit("\n```");
        assert("\n```text\n"@ == fence_open());
        assert("\n```"@ == fence_close());
    }
}

} // verus!
