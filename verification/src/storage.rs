//! Replacing a file so that it is whole at every moment.
//!
//! The new content goes to a temporary file beside the target, and the
//! temporary file is then renamed over the target. The library names the
//! steps; its caller performs them in their order. Whenever the steps are cut
//! short, in the middle of the write too, the target holds what it held before
//! or the new content, never a part of either.

use crate::text::join;
use vstd::prelude::*;

verus! {

/// One step on the files of a directory.
#[derive(Debug, PartialEq, Eq)]
pub enum FileOp {
    /// Write the content to the path, making the file or emptying it first.
    Write { path: String, content: String },
    /// Rename the file at `from` to `to`, over what may be there, in one step.
    Rename { from: String, to: String },
}

/// A [`FileOp`] as mathematical values.
pub enum FileOpView {
    Write { path: Seq<char>, content: Seq<char> },
    Rename { from: Seq<char>, to: Seq<char> },
}

impl View for FileOp {
    type V = FileOpView;

    open spec fn view(&self) -> FileOpView {
        match *self {
            FileOp::Write { path, content } => FileOpView::Write {
                path: path@,
                content: content@,
            },
            FileOp::Rename { from, to } => FileOpView::Rename { from: from@, to: to@ },
        }
    }
}

/// The views of a sequence of steps.
pub open spec fn steps_view(steps: Seq<FileOp>) -> Seq<FileOpView> {
    Seq::new(steps.len(), |i: int| steps[i]@)
}

/// The content of the file at a path, if there is a file.
pub open spec fn content_at(files: Map<Seq<char>, Seq<char>>, path: Seq<char>) -> Option<
    Seq<char>,
> {
    if files.dom().contains(path) {
        Some(files[path])
    } else {
        None
    }
}

/// The files after a step that ran to its end. A rename of a file that is not
/// there changes nothing.
pub open spec fn performed(files: Map<Seq<char>, Seq<char>>, step: FileOpView) -> Map<
    Seq<char>,
    Seq<char>,
> {
    match step {
        FileOpView::Write { path, content } => files.insert(path, content),
        FileOpView::Rename { from, to } => if files.dom().contains(from) {
            files.remove(from).insert(to, files[from])
        } else {
            files
        },
    }
}

/// The files after a step that was cut short. A write leaves anything
/// whatever at its path; a rename has happened or has not, so a rename that
/// was cut short has not.
pub open spec fn interrupted(
    files: Map<Seq<char>, Seq<char>>,
    step: FileOpView,
    left: Seq<char>,
) -> Map<Seq<char>, Seq<char>> {
    match step {
        FileOpView::Write { path, content } => files.insert(path, left),
        FileOpView::Rename { from, to } => files,
    }
}

/// The files after the first `done` of the steps.
pub open spec fn after_steps(
    files: Map<Seq<char>, Seq<char>>,
    steps: Seq<FileOpView>,
    done: nat,
) -> Map<Seq<char>, Seq<char>>
    decreases done,
{
    if done == 0 {
        files
    } else {
        performed(after_steps(files, steps, (done - 1) as nat), steps[done - 1])
    }
}

/// The path of the temporary file for a target.
pub open spec fn temporary_path(target: Seq<char>) -> Seq<char> {
    target + ".tmp"@
}

/// The steps that replace the file at `target` by `content`.
pub open spec fn replace_steps(target: Seq<char>, content: Seq<char>) -> Seq<FileOpView> {
    seq![
        FileOpView::Write { path: temporary_path(target), content },
        FileOpView::Rename { from: temporary_path(target), to: target },
    ]
}

/// The temporary file is another file than the target.
pub proof fn lemma_temporary_differs(target: Seq<char>)
    ensures
        temporary_path(target) != target,
{
    reveal_strlit(".tmp");
    assert(temporary_path(target).len() == target.len() + 4);
}

/// After both steps the target holds the new content.
pub proof fn lemma_replace_completes(
    files: Map<Seq<char>, Seq<char>>,
    target: Seq<char>,
    content: Seq<char>,
)
    ensures
        content_at(after_steps(files, replace_steps(target, content), 2), target) == Some(content),
{
    reveal_with_fuel(after_steps, 3);
}

/// A replacement that ends after `done` whole steps, or in the middle of the
/// step after them, leaves the target with what it held before or with the
/// new content.
pub proof fn lemma_replace_is_atomic(
    files: Map<Seq<char>, Seq<char>>,
    target: Seq<char>,
    content: Seq<char>,
    done: nat,
    left: Seq<char>,
)
    requires
        done <= 2,
    ensures
        ({
            let steps = replace_steps(target, content);
            let whole = after_steps(files, steps, done);
            &&& content_at(whole, target) == content_at(files, target) || content_at(whole, target)
                == Some(content)
            &&& done < 2 ==> {
                let torn = interrupted(whole, steps[done as int], left);
                content_at(torn, target) == content_at(files, target) || content_at(torn, target)
                    == Some(content)
            }
        }),
{
    reveal_with_fuel(after_steps, 3);
    lemma_temporary_differs(target);
}

/// Names the steps that replace the file at `target` by `content`: write the
/// temporary file beside it, then rename that file over it.
pub fn atomic_replace(target: &str, content: String) -> (steps: Vec<FileOp>)
    ensures
        steps_view(steps@) == replace_steps(target@, content@),
{
    let ghost written = content@;
    let mut steps: Vec<FileOp> = Vec::new();
    steps.push(FileOp::Write { path: join(target, ".tmp"), content });
    steps.push(FileOp::Rename { from: join(target, ".tmp"), to: target.to_owned() });
    assert(steps_view(steps@) =~= replace_steps(target@, written));
    steps
}

} // verus!
