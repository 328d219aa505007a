//! What a plan does to a destination directory.
//!
//! The destination is modelled as a map from paths below it, each a
//! sequence of components, to what stands there. The steps of a plan are
//! given their meaning on this model, and the laws of this module are proved
//! of that meaning. Whoever carries a plan out on a real filesystem is held
//! to it.

use vstd::prelude::*;

use crate::archive::{
    all_steps, entry_outcome, is_first_failure, planned, EntryView, StepView,
};
use crate::error::Error;

verus! {

/// What stands at a path.
pub ghost enum Node {
    /// A directory.
    Directory,
    /// A file with its bytes.
    File { content: Seq<u8> },
}

/// A directory tree: what stands at each path below the destination.
pub type Tree = Map<Seq<Seq<char>>, Node>;

/// `level` is `path` or one of the directories above it, below the destination.
pub open spec fn is_level(path: Seq<Seq<char>>, level: Seq<Seq<char>>) -> bool {
    0 < level.len() <= path.len() && level == path.take(level.len() as int)
}

/// The step puts something at `place`.
pub open spec fn touches(step: StepView, place: Seq<Seq<char>>) -> bool {
    match step {
        StepView::CreateDir { path } => is_level(path, place),
        StepView::WriteFile { path, content } => place == path,
    }
}

/// What the step puts where it touches.
pub open spec fn written(step: StepView) -> Node {
    match step {
        StepView::CreateDir { path } => Node::Directory,
        StepView::WriteFile { path, content } => Node::File { content },
    }
}

/// The filesystem lets the step happen: no directory is created where a file
/// stands, and a file is written below the destination, not where a
/// directory stands, and into a directory that exists.
pub open spec fn step_allowed(tree: Tree, step: StepView) -> bool {
    match step {
        StepView::CreateDir { path } => forall|level: Seq<Seq<char>>|
            #[trigger] is_level(path, level) && tree.dom().contains(level)
                ==> tree[level] is Directory,
        StepView::WriteFile { path, content } => {
            &&& path.len() > 0
            &&& tree.dom().contains(path) ==> tree[path] is File
            &&& path.len() > 1 ==> tree.dom().contains(path.drop_last())
                && tree[path.drop_last()] is Directory
        },
    }
}

/// The tree after the step.
pub open spec fn after_step(tree: Tree, step: StepView) -> Tree {
    Map::new(
        |place: Seq<Seq<char>>| tree.dom().contains(place) || touches(step, place),
        |place: Seq<Seq<char>>|
            if touches(step, place) {
                written(step)
            } else {
                tree[place]
            },
    )
}

/// The tree after the steps, one after the other.
pub open spec fn after_steps(tree: Tree, steps: Seq<StepView>) -> Tree
    decreases steps.len(),
{
    if steps.len() == 0 {
        tree
    } else {
        after_step(after_steps(tree, steps.drop_last()), steps.last())
    }
}

/// The filesystem lets every step happen in its turn.
pub open spec fn steps_allowed(tree: Tree, steps: Seq<StepView>) -> bool
    decreases steps.len(),
{
    steps.len() == 0 || (steps_allowed(tree, steps.drop_last()) && step_allowed(
        after_steps(tree, steps.drop_last()),
        steps.last(),
    ))
}

/// The destination after the steps were carried out in it directly, `None`
/// where the filesystem refuses one of them.
pub open spec fn installed(tree: Tree, steps: Seq<StepView>) -> Option<Tree> {
    if steps_allowed(tree, steps) {
        Some(after_steps(tree, steps))
    } else {
        None
    }
}

/// The destination after what was staged is moved into it: what was staged
/// replaces what stood at the same path, and everything else stays.
pub open spec fn merged(tree: Tree, staged: Tree) -> Tree {
    tree.union_prefer_right(staged)
}

/// A path that no step touches is after the steps what it was before: what
/// stood in the destination and is not in the archive is not pruned.
pub proof fn law_untouched_paths_stay(tree: Tree, steps: Seq<StepView>, place: Seq<Seq<char>>)
    requires
        forall|j: int| 0 <= j < steps.len() ==> !touches(#[trigger] steps[j], place),
    ensures
        after_steps(tree, steps).dom().contains(place) == tree.dom().contains(place),
        tree.dom().contains(place) ==> after_steps(tree, steps)[place] == tree[place],
    decreases steps.len(),
{
    if steps.len() > 0 {
        let before = steps.drop_last();
        assert forall|j: int| 0 <= j < before.len() implies !touches(
            #[trigger] before[j],
            place,
        ) by {
            assert(before[j] == steps[j]);
        }
        law_untouched_paths_stay(tree, before, place);
        assert(!touches(steps[steps.len() - 1], place));
    }
}

/// After the steps, a path holds what the last step that touches it put
/// there: the directory, or the file with exactly the bytes of its entry.
pub proof fn law_last_step_decides(
    tree: Tree,
    steps: Seq<StepView>,
    place: Seq<Seq<char>>,
    index: int,
)
    requires
        0 <= index < steps.len(),
        touches(steps[index], place),
        forall|j: int| index < j < steps.len() ==> !touches(#[trigger] steps[j], place),
    ensures
        after_steps(tree, steps).dom().contains(place),
        after_steps(tree, steps)[place] == written(steps[index]),
    decreases steps.len(),
{
    let before = steps.drop_last();
    if index < steps.len() - 1 {
        assert(before[index] == steps[index]);
        assert forall|j: int| index < j < before.len() implies !touches(
            #[trigger] before[j],
            place,
        ) by {
            assert(before[j] == steps[j]);
        }
        law_last_step_decides(tree, before, place, index);
        assert(!touches(steps[steps.len() - 1], place));
    }
}

/// A step on a merged tree touches only the right-hand side.
proof fn lemma_step_over_merge(tree: Tree, staged: Tree, step: StepView)
    ensures
        after_step(merged(tree, staged), step) == merged(tree, after_step(staged, step)),
{
    assert(after_step(merged(tree, staged), step) =~= merged(tree, after_step(staged, step)));
}

/// Staging first gives the same destination as unpacking into it directly:
/// the steps carried out in an empty staging directory, and then moved into
/// the destination, leave what the steps carried out in the destination leave.
pub proof fn law_staging_agrees(tree: Tree, steps: Seq<StepView>)
    ensures
        after_steps(tree, steps) == merged(tree, after_steps(Map::empty(), steps)),
    decreases steps.len(),
{
    if steps.len() == 0 {
        assert(tree =~= merged(tree, Map::empty()));
    } else {
        law_staging_agrees(tree, steps.drop_last());
        lemma_step_over_merge(
            tree,
            after_steps(Map::empty(), steps.drop_last()),
            steps.last(),
        );
    }
}

/// Carrying the same steps out a second time changes nothing.
pub proof fn law_steps_idempotent(tree: Tree, steps: Seq<StepView>)
    ensures
        after_steps(after_steps(tree, steps), steps) == after_steps(tree, steps),
{
    let staged = after_steps(Map::<Seq<Seq<char>>, Node>::empty(), steps);
    law_staging_agrees(tree, steps);
    law_staging_agrees(after_steps(tree, steps), steps);
    assert(merged(merged(tree, staged), staged) =~= merged(tree, staged));
}

/// Both are directories, or both are files.
pub open spec fn same_kind(one: Node, other: Node) -> bool {
    one is Directory <==> other is Directory
}

/// Everything that stands in `tree` stands in `later`, as a directory where
/// it was a directory and as a file where it was a file.
pub open spec fn grows(tree: Tree, later: Tree) -> bool {
    forall|place: Seq<Seq<char>>| #[trigger]
        tree.dom().contains(place) ==> later.dom().contains(place) && same_kind(
            tree[place],
            later[place],
        )
}

/// A step that the filesystem lets happen turns no file into a directory and
/// no directory into a file, and removes nothing.
pub proof fn lemma_step_grows(tree: Tree, step: StepView)
    requires
        step_allowed(tree, step),
    ensures
        grows(tree, after_step(tree, step)),
{
    let later = after_step(tree, step);
    assert forall|place: Seq<Seq<char>>| #[trigger]
        tree.dom().contains(place) implies later.dom().contains(place) && same_kind(
        tree[place],
        later[place],
    ) by {
        if touches(step, place) {
            match step {
                StepView::CreateDir { path } => {
                    assert(is_level(path, place));
                },
                StepView::WriteFile { path, content } => {},
            }
        }
    }
}

/// Steps carried out in two parts.
pub proof fn lemma_steps_in_parts(tree: Tree, first: Seq<StepView>, second: Seq<StepView>)
    ensures
        after_steps(tree, first + second) == after_steps(after_steps(tree, first), second),
        steps_allowed(tree, first + second) <==> steps_allowed(tree, first) && steps_allowed(
            after_steps(tree, first),
            second,
        ),
    decreases second.len(),
{
    if second.len() == 0 {
        assert(first + second =~= first);
    } else {
        lemma_steps_in_parts(tree, first, second.drop_last());
        assert((first + second).drop_last() =~= first + second.drop_last());
        assert((first + second).last() == second.last());
    }
}

/// Steps that the filesystem lets happen turn no file into a directory and
/// no directory into a file, and remove nothing.
pub proof fn lemma_steps_grow(tree: Tree, steps: Seq<StepView>)
    requires
        steps_allowed(tree, steps),
    ensures
        grows(tree, after_steps(tree, steps)),
    decreases steps.len(),
{
    if steps.len() > 0 {
        lemma_steps_grow(tree, steps.drop_last());
        lemma_step_grows(after_steps(tree, steps.drop_last()), steps.last());
    }
}

/// Where the steps went through once, the first `count` of them go through
/// again on what the steps left.
proof fn lemma_rerun_allowed(tree: Tree, steps: Seq<StepView>, count: int)
    requires
        steps_allowed(tree, steps),
        0 <= count <= steps.len(),
    ensures
        steps_allowed(after_steps(tree, steps), steps.take(count)),
    decreases count,
{
    if count > 0 {
        let k = count - 1;
        lemma_rerun_allowed(tree, steps, k);
        let done = steps.take(k);
        let step = steps[k];
        let end = after_steps(tree, steps);
        let staged = after_steps(Map::<Seq<Seq<char>>, Node>::empty(), done);
        let first = after_steps(tree, done);
        let again = after_steps(end, done);
        let next = after_step(first, step);
        assert(steps.take(count).drop_last() =~= done);
        assert(steps.take(count).last() == step);
        assert(steps =~= steps.take(count) + steps.skip(count));
        lemma_steps_in_parts(tree, steps.take(count), steps.skip(count));
        assert(step_allowed(first, step));
        assert(after_steps(tree, steps.take(count)) == next);
        lemma_steps_grow(next, steps.skip(count));
        assert(grows(next, end));
        lemma_step_grows(first, step);
        law_staging_agrees(tree, done);
        law_staging_agrees(end, done);
        assert(first == merged(tree, staged));
        assert(again == merged(end, staged));
        match step {
            StepView::CreateDir { path } => {
                assert forall|level: Seq<Seq<char>>|
                    #[trigger] is_level(path, level) && again.dom().contains(
                        level,
                    ) implies again[level] is Directory by {
                    if staged.dom().contains(level) {
                        assert(first.dom().contains(level));
                        assert(first[level] == again[level]);
                    } else {
                        assert(touches(step, level));
                        assert(next.dom().contains(level));
                        assert(next[level] is Directory);
                    }
                }
            },
            StepView::WriteFile { path, content } => {
                if again.dom().contains(path) {
                    if staged.dom().contains(path) {
                        assert(first.dom().contains(path));
                        assert(first[path] == again[path]);
                    } else {
                        assert(touches(step, path));
                        assert(next.dom().contains(path));
                        assert(next[path] is File);
                    }
                }
                if path.len() > 1 {
                    let parent = path.drop_last();
                    assert(first.dom().contains(parent));
                    assert(next.dom().contains(parent));
                    if staged.dom().contains(parent) {
                        assert(first[parent] == again[parent]);
                    } else {
                        assert(!touches(step, parent));
                        assert(next[parent] == first[parent]);
                    }
                }
            },
        }
        assert(step_allowed(again, step));
    }
}

/// Installing the same archive twice leaves what installing it once leaves:
/// where the filesystem lets the steps happen, it lets them happen again on
/// what they left, and nothing changes.
pub proof fn law_install_idempotent(tree: Tree, steps: Seq<StepView>)
    requires
        installed(tree, steps) is Some,
    ensures
        installed(installed(tree, steps)->Some_0, steps) == installed(tree, steps),
{
    lemma_rerun_allowed(tree, steps, steps.len() as int);
    assert(steps.take(steps.len() as int) =~= steps);
    law_steps_idempotent(tree, steps);
}

/// Every file is written right after the directory it lies in was created.
/// The plans made from archives are of this kind.
pub open spec fn prepared(steps: Seq<StepView>) -> bool {
    forall|i: int|
        0 <= i < steps.len() ==> (#[trigger] steps[i] matches StepView::WriteFile {
            path,
            content,
        } ==> i > 0 && steps[i - 1] == (StepView::CreateDir { path: path.drop_last() }))
}

/// The steps planned for the entries of an archive write every file right
/// after the directory it lies in was created.
pub proof fn law_planned_is_prepared(entries: Seq<Option<EntryView>>)
    requires
        planned(entries) is Ok,
    ensures
        prepared(planned(entries)->Ok_0),
        planned(entries)->Ok_0 == all_steps(entries),
        forall|j: int| 0 <= j < entries.len() ==> entry_outcome(#[trigger] entries[j]) is Ok,
    decreases entries.len(),
{
    assert forall|j: int| 0 <= j < entries.len() implies entry_outcome(
        #[trigger] entries[j],
    ) is Ok by {
        if entry_outcome(entries[j]) is Err {
            lemma_failure_is_planned(entries, j);
        }
    }
    if entries.len() > 0 {
        let before = entries.drop_last();
        assert forall|i: int| !is_first_failure(before, i) by {
            if 0 <= i < before.len() {
                assert(before[i] == entries[i]);
            }
        }
        law_planned_is_prepared(before);
        let old_steps = all_steps(before);
        let more = entry_outcome(entries.last())->Ok_0;
        let steps = old_steps + more;
        assert forall|i: int| 0 <= i < steps.len() implies (#[trigger] steps[i] matches StepView::WriteFile {
            path,
            content,
        } ==> i > 0 && steps[i - 1] == (StepView::CreateDir { path: path.drop_last() })) by {
            if i < old_steps.len() {
                assert(steps[i] == old_steps[i]);
                if i > 0 {
                    assert(steps[i - 1] == old_steps[i - 1]);
                }
            } else {
                assert(steps[i] == more[i - old_steps.len()]);
                if i - old_steps.len() == 1 {
                    assert(steps[i - 1] == more[0]);
                }
            }
        }
    }
}

/// Where an entry asks for a failure, planning fails.
proof fn lemma_failure_is_planned(entries: Seq<Option<EntryView>>, index: int)
    requires
        0 <= index < entries.len(),
        entry_outcome(entries[index]) is Err,
    ensures
        planned(entries) is Err,
    decreases index,
{
    if exists|j: int| 0 <= j < index && entry_outcome(#[trigger] entries[j]) is Err {
        let j = choose|j: int| 0 <= j < index && entry_outcome(#[trigger] entries[j]) is Err;
        lemma_failure_is_planned(entries, j);
    } else {
        assert(is_first_failure(entries, index));
    }
}

/// Staging a plan made from an archive never fails where unpacking directly
/// succeeds, and moving what was staged into the destination leaves what
/// unpacking directly leaves.
pub proof fn law_staged_install(tree: Tree, steps: Seq<StepView>)
    requires
        prepared(steps),
        installed(tree, steps) is Some,
    ensures
        installed(Map::empty(), steps) is Some,
        installed(tree, steps) == Some(merged(tree, installed(Map::empty(), steps)->Some_0)),
{
    lemma_staging_allowed(tree, steps);
    law_staging_agrees(tree, steps);
}

/// Prepared steps that go through in a destination go through in an empty
/// staging directory.
proof fn lemma_staging_allowed(tree: Tree, steps: Seq<StepView>)
    requires
        prepared(steps),
        steps_allowed(tree, steps),
    ensures
        steps_allowed(Map::<Seq<Seq<char>>, Node>::empty(), steps),
    decreases steps.len(),
{
    if steps.len() > 0 {
        let done = steps.drop_last();
        let step = steps.last();
        assert(prepared(done)) by {
            assert forall|i: int| 0 <= i < done.len() implies (#[trigger] done[i] matches StepView::WriteFile {
                path,
                content,
            } ==> i > 0 && done[i - 1] == (StepView::CreateDir { path: path.drop_last() })) by {
                assert(done[i] == steps[i]);
                if i > 0 {
                    assert(done[i - 1] == steps[i - 1]);
                }
            }
        }
        lemma_staging_allowed(tree, done);
        let staged = after_steps(Map::<Seq<Seq<char>>, Node>::empty(), done);
        let first = after_steps(tree, done);
        law_staging_agrees(tree, done);
        assert(first == merged(tree, staged));
        match step {
            StepView::CreateDir { path } => {
                assert forall|level: Seq<Seq<char>>|
                    #[trigger] is_level(path, level) && staged.dom().contains(
                        level,
                    ) implies staged[level] is Directory by {
                    assert(first.dom().contains(level));
                    assert(first[level] == staged[level]);
                }
            },
            StepView::WriteFile { path, content } => {
                if staged.dom().contains(path) {
                    assert(first[path] == staged[path]);
                }
                if path.len() > 1 {
                    let parent = path.drop_last();
                    assert(steps[steps.len() - 1] == step);
                    assert(done.last() == steps[steps.len() - 2]);
                    assert(done.last() == (StepView::CreateDir { path: parent }));
                    assert(parent.take(parent.len() as int) =~= parent);
                    assert(is_level(parent, parent));
                    assert(touches(done.last(), parent));
                }
            },
        }
    }
}

/// The destination after an attempt to install: what the steps leave where
/// there is a plan, and what was there where there is none.
pub open spec fn destination_after(tree: Tree, outcome: Result<Seq<StepView>, Error>) -> Option<
    Tree,
> {
    match outcome {
        Ok(steps) => installed(tree, steps),
        Err(_) => Some(tree),
    }
}

/// An archive with an entry whose stored path escapes leaves the destination
/// as it was: nothing of it is written.
pub proof fn law_traversal_leaves_destination(
    tree: Tree,
    entries: Seq<Option<EntryView>>,
    index: int,
)
    requires
        0 <= index < entries.len(),
        entries[index] matches Some(entry) && crate::path::escapes(entry.name),
    ensures
        destination_after(tree, planned(entries)) == Some(tree),
{
    crate::archive::law_traversal_rejected(entries, index);
}

} // verus!
