//! Moving learned data to where it belongs, without overwriting anything.

use vstd::prelude::*;

verus! {

/// What is next for a file.
#[derive(Clone, Copy, Debug, PartialEq, Eq, Structural)]
pub enum Step {
    /// Rename the file.
    Rename,
    /// Create the new file, which must not exist yet.
    Create,
    /// Copy the file into the new one.
    Copy,
    /// Remove the old file.
    RemoveSource,
    /// Remove the new file, which is not complete.
    RemoveDestination,
    /// The file was moved.
    Moved,
    /// The file stays where it is.
    Skipped,
    /// Give up.
    Failed,
}

/// What came of a step.
#[derive(Clone, Copy, Debug, PartialEq, Eq, Structural)]
pub enum Outcome {
    Done,
    /// The new file exists already.
    Exists,
    Failed,
}

/// What is first for a file. Only files are moved, and only where nothing is in the way.
pub open spec fn first(is_file: bool, destination_exists: bool) -> Step {
    if is_file && !destination_exists {
        Step::Rename
    } else {
        Step::Skipped
    }
}

/// What is next for a file. What cannot be renamed is copied, and the old file is removed only
/// when the copy is complete.
pub open spec fn following(step: Step, outcome: Outcome) -> Step {
    match step {
        Step::Rename => if outcome is Done {
            Step::Moved
        } else {
            Step::Create
        },
        Step::Create => match outcome {
            Outcome::Done => Step::Copy,
            Outcome::Exists => Step::Skipped,
            Outcome::Failed => Step::Failed,
        },
        Step::Copy => if outcome is Done {
            Step::RemoveSource
        } else {
            Step::RemoveDestination
        },
        Step::RemoveSource => if outcome is Done {
            Step::Moved
        } else {
            Step::Failed
        },
        Step::RemoveDestination => Step::Failed,
        _ => step,
    }
}

/// What is first for a file.
pub fn begin(is_file: bool, destination_exists: bool) -> (r: Step)
    ensures
        r == first(is_file, destination_exists),
{
    if is_file && !destination_exists {
        Step::Rename
    } else {
        Step::Skipped
    }
}

/// What is next for a file.
pub fn next(step: Step, outcome: Outcome) -> (r: Step)
    ensures
        r == following(step, outcome),
{
    match step {
        Step::Rename => match outcome {
            Outcome::Done => Step::Moved,
            _ => Step::Create,
        },
        Step::Create => match outcome {
            Outcome::Done => Step::Copy,
            Outcome::Exists => Step::Skipped,
            Outcome::Failed => Step::Failed,
        },
        Step::Copy => match outcome {
            Outcome::Done => Step::RemoveSource,
            _ => Step::RemoveDestination,
        },
        Step::RemoveSource => match outcome {
            Outcome::Done => Step::Moved,
            _ => Step::Failed,
        },
        Step::RemoveDestination => Step::Failed,
        Step::Moved => Step::Moved,
        Step::Skipped => Step::Skipped,
        Step::Failed => Step::Failed,
    }
}

/// The file is dealt with.
pub open spec fn is_over(step: Step) -> bool {
    step is Moved || step is Skipped || step is Failed
}

/// How many steps may still follow.
pub open spec fn steps_left(step: Step) -> nat {
    match step {
        Step::Rename => 4,
        Step::Create => 3,
        Step::Copy => 2,
        Step::RemoveSource => 1,
        Step::RemoveDestination => 1,
        _ => 0,
    }
}

/// Each step brings the file closer to being dealt with.
pub proof fn move_comes_to_an_end(step: Step, outcome: Outcome)
    requires
        !is_over(step),
    ensures
        steps_left(following(step, outcome)) < steps_left(step),
        steps_left(step) > 0,
{
}

/// The old file is removed only after all of it was copied.
pub proof fn source_is_removed_last(step: Step, outcome: Outcome)
    requires
        following(step, outcome) is RemoveSource,
        step !is RemoveSource,
    ensures
        step is Copy && outcome is Done,
{
}

/// What exists already is never overwritten: then the file is neither renamed nor copied.
pub proof fn nothing_is_overwritten(is_file: bool, outcome: Outcome)
    ensures
        first(is_file, true) is Skipped,
        outcome is Exists ==> following(Step::Create, outcome) is Skipped,
        following(Step::Create, outcome) is Copy ==> outcome is Done,
{
}

/// Only a file whose place is free is moved.
pub proof fn only_free_places_are_taken(is_file: bool, destination_exists: bool)
    ensures
        first(is_file, destination_exists) is Rename <==> is_file && !destination_exists,
        first(is_file, destination_exists) is Skipped <==> !is_file || destination_exists,
{
}

/// A file counts as moved exactly when it was renamed, or when it was removed after it had been copied.
pub proof fn moved_file_is_not_left_behind(step: Step, outcome: Outcome)
    requires
        !is_over(step),
    ensures
        following(step, outcome) is Moved <==> outcome is Done && (step is Rename || step
            is RemoveSource),
        following(step, outcome) is Copy <==> step is Create && outcome is Done,
        following(step, outcome) is RemoveSource <==> step is Copy && outcome is Done,
        following(step, outcome) is Skipped <==> step is Create && outcome is Exists,
{
}

/// What cannot be renamed is copied, and what was copied in part is removed again before the move
/// fails.
pub proof fn incomplete_copy_is_removed(step: Step, outcome: Outcome)
    ensures
        following(step, outcome) is Create <==> step is Rename && outcome !is Done,
        following(step, outcome) is RemoveDestination <==> step is Copy && outcome !is Done,
        following(Step::RemoveDestination, outcome) is Failed,
        outcome is Failed ==> following(Step::Create, outcome) is Failed,
        outcome !is Done ==> following(Step::RemoveSource, outcome) is Failed,
        is_over(step) ==> following(step, outcome) == step,
        is_over(step) <==> step is Moved || step is Skipped || step is Failed,
{
}

} // verus!
