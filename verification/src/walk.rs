//! The decisions of the two directory walks: the depth-bounded tree
//! printer and the recursive size sum. The caller enumerates the
//! directories and reports each child; these functions say what to print,
//! what to count and where to descend.

use crate::entry::is_hidden;
use crate::entry::is_hidden_name;
use vstd::prelude::*;
use vstd::string::*;

verus! {

/// Where the tree printer stands: the depth limit, the number of
/// descents made so far, the prefix of every line at this level, and
/// whether hidden children are printed.
#[derive(Debug, Clone, PartialEq, Eq)]
pub struct TreeWalk {
    pub depth: u32,
    pub count: u32,
    pub head: String,
    pub show_hidden: bool,
}

/// The mathematical value of a [`TreeWalk`].
pub struct TreeWalkView {
    pub depth: u32,
    pub count: u32,
    pub head: Seq<char>,
    pub show_hidden: bool,
}

impl View for TreeWalk {
    type V = TreeWalkView;

    open spec fn view(&self) -> TreeWalkView {
        TreeWalkView {
            depth: self.depth,
            count: self.count,
            head: self.head@,
            show_hidden: self.show_hidden,
        }
    }
}

/// What enumerating a directory reports of one child.
#[derive(Debug, Clone, PartialEq, Eq)]
pub struct TreeChild {
    /// The child's name, `None` where it is not valid UTF-8.
    pub name: Option<String>,
    /// Whether the child is a directory, `None` where its metadata could
    /// not be read.
    pub is_dir: Option<bool>,
    /// Whether any execute permission bit is set.
    pub executable: bool,
}

/// What the tree printer does with one child: the line to print, and
/// where the walk stands inside the child if it is to be entered.
#[derive(Debug, Clone, PartialEq, Eq)]
pub struct TreeVisit {
    pub line: String,
    pub descend: Option<TreeWalk>,
}

/// The glyph that starts the name on every line.
pub open spec fn branch_glyph() -> Seq<char> {
    "├──> "@
}

/// The glyph that lengthens the prefix for one more level.
pub open spec fn continuation_glyph() -> Seq<char> {
    "│    "@
}

/// The mark put before the name of an executable child.
pub open spec fn executable_mark() -> Seq<char> {
    "*"@
}

/// The name printed for a child.
pub open spec fn child_name(child: TreeChild) -> Seq<char> {
    match child.name {
        Some(n) => n@,
        None => "Cannot unwrap filename"@,
    }
}

/// Whether a child is left out: it is hidden and hidden children are
/// not printed, or its metadata could not be read.
pub open spec fn is_skipped(walk: TreeWalkView, child: TreeChild) -> bool {
    (!walk.show_hidden && is_hidden_name(child_name(child))) || child.is_dir is None
}

/// The line printed for a child: the prefix, the branch glyph, the
/// executable mark if it applies, and the name.
pub open spec fn child_line(walk: TreeWalkView, child: TreeChild) -> Seq<char> {
    walk.head + branch_glyph() + (if child.executable {
        executable_mark()
    } else {
        Seq::empty()
    }) + child_name(child)
}

/// Where the walk stands inside a child that is entered: one descent
/// more, and the prefix lengthened by the continuation glyph. A child is
/// entered only if it is printed, is a directory, and the depth limit is
/// not yet reached.
pub open spec fn child_walk(walk: TreeWalkView, child: TreeChild) -> Option<TreeWalkView> {
    if !is_skipped(walk, child) && child.is_dir == Some(true) && walk.count < walk.depth {
        Some(
            TreeWalkView {
                depth: walk.depth,
                count: (walk.count + 1) as u32,
                head: walk.head + continuation_glyph(),
                show_hidden: walk.show_hidden,
            },
        )
    } else {
        None
    }
}

/// Whether the walk can pass from `from` into `to` by entering some
/// child.
pub open spec fn enters(from: TreeWalkView, to: TreeWalkView) -> bool {
    exists|child: TreeChild| #[trigger] child_walk(from, child) == Some(to)
}

/// A chain of walks, each entered from the one before.
pub open spec fn is_descent(path: Seq<TreeWalkView>) -> bool {
    forall|i: int| 0 <= i < path.len() - 1 ==> enters(#[trigger] path[i], path[i + 1])
}

/// The walk never goes deeper than its limit: along any chain of
/// descents that starts within the limit, each level has made one descent
/// more than the level before and none has made more than the limit
/// allows. With a limit of zero nothing is ever entered.
pub proof fn lemma_depth_is_bounded(path: Seq<TreeWalkView>)
    requires
        path.len() > 0,
        path[0].count <= path[0].depth,
        is_descent(path),
    ensures
        forall|i: int|
            0 <= i < path.len() ==> (#[trigger] path[i]).depth == path[0].depth && path[i].count
                == path[0].count + i && path[i].count <= path[0].depth,
        path.len() <= path[0].depth - path[0].count + 1,
    decreases path.len(),
{
    if path.len() > 1 {
        let shorter = path.drop_last();
        assert forall|i: int| 0 <= i < shorter.len() - 1 implies enters(
            #[trigger] shorter[i],
            shorter[i + 1],
        ) by {
            assert(enters(path[i], path[i + 1]));
        }
        lemma_depth_is_bounded(shorter);
        let k = path.len() - 2;
        assert(enters(path[k], path[k + 1]));
        assert(shorter[k] == path[k]);
        assert forall|i: int| 0 <= i < path.len() implies (#[trigger] path[i]).depth
            == path[0].depth && path[i].count == path[0].count + i && path[i].count
            <= path[0].depth by {
            if i < path.len() - 1 {
                assert(shorter[i] == path[i]);
            }
        }
    }
}

/// The name printed for a child.
fn child_name_text(child: &TreeChild) -> (out: String)
    ensures
        out@ == child_name(*child),
{
    match &child.name {
        Some(n) => n.clone(),
        None => String::from_str("Cannot unwrap filename"),
    }
}

/// Decides what the tree printer does with one child of the directory
/// it stands in: nothing for a child that is left out, else the line to
/// print and, for a directory within the depth limit, the walk inside
/// it.
pub fn tree_step(walk: &TreeWalk, child: &TreeChild) -> (visit: Option<TreeVisit>)
    ensures
        visit is None <==> is_skipped(walk@, *child),
        visit matches Some(v) ==> v.line@ == child_line(walk@, *child) && match v.descend {
            Some(next) => child_walk(walk@, *child) == Some(next@),
            None => child_walk(walk@, *child) is None,
        },
{
    let name = child_name_text(child);
    if !walk.show_hidden && is_hidden(name.as_str()) {
        return None;
    }
    match child.is_dir {
        None => None,
        Some(is_dir) => {
            let mut line = walk.head.clone();
            line.append("├──> ");
            if child.executable {
                line.append("*");
            }
            line.append(name.as_str());
            assert(line@ =~= child_line(walk@, *child));
            let descend = if is_dir && walk.count < walk.depth {
                let mut head = walk.head.clone();
                head.append("│    ");
                Some(
                    TreeWalk {
                        depth: walk.depth,
                        count: walk.count + 1,
                        head,
                        show_hidden: walk.show_hidden,
                    },
                )
            } else {
                None
            };
            Some(TreeVisit { line, descend })
        },
    }
}

/// What the size walk finds at one path.
#[derive(Debug, Clone, Copy, PartialEq, Eq, Structural)]
pub enum SizeProbe {
    /// A regular file of this length.
    File(u64),
    /// A directory.
    Directory,
    /// A symbolic link.
    Symlink,
    /// Anything else that has metadata: a device, a socket, a pipe.
    Other,
    /// Something whose metadata could not be read.
    Unreadable,
}

/// What the size walk does at one path.
#[derive(Debug, Clone, Copy, PartialEq, Eq, Structural)]
pub enum SizeStep {
    /// Count this many bytes.
    Count(u64),
    /// Enumerate the directory and walk its children.
    Descend,
    /// Pass over the path: it contributes nothing.
    Skip,
}

/// What a path contributes to the size of the tree it lies in: a regular
/// file is counted with its length, a directory is entered, and anything
/// else, a symbolic link or an unreadable path among them, is passed
/// over.
pub open spec fn size_action(probe: SizeProbe) -> SizeStep {
    match probe {
        SizeProbe::File(len) => SizeStep::Count(len),
        SizeProbe::Directory => SizeStep::Descend,
        SizeProbe::Symlink => SizeStep::Skip,
        SizeProbe::Other => SizeStep::Skip,
        SizeProbe::Unreadable => SizeStep::Skip,
    }
}

/// Decides what the size walk does at one path.
pub fn size_step(probe: SizeProbe) -> (step: SizeStep)
    ensures
        step == size_action(probe),
{
    match probe {
        SizeProbe::File(len) => SizeStep::Count(len),
        SizeProbe::Directory => SizeStep::Descend,
        SizeProbe::Symlink => SizeStep::Skip,
        SizeProbe::Other => SizeStep::Skip,
        SizeProbe::Unreadable => SizeStep::Skip,
    }
}

} // verus!
