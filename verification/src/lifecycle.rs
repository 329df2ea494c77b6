use vstd::prelude::*;

use crate::errors::TodoError;
use crate::states::{Identity, ProfileRecord, TaskRecord, TASK_INDEX_SPAN};

verus! {

/// A task may be created for this profile by this caller: the caller is the
/// owner, a one-byte index is still free, and the active counter can still
/// be incremented.
pub open spec fn add_todo_allowed(profile: ProfileRecord, authority: Identity) -> bool {
    &&& profile.owner == authority
    &&& profile.total_created < TASK_INDEX_SPAN
    &&& profile.active_count < u16::MAX
}

/// The error `add_todo` reports when it is not allowed, in the order the
/// guards run: authority first, then the index space, then the counter.
pub open spec fn add_todo_error(profile: ProfileRecord, authority: Identity) -> TodoError {
    if profile.owner != authority {
        TodoError::AuthorityMismatch
    } else if profile.total_created >= TASK_INDEX_SPAN {
        TodoError::IndexSpaceExhausted
    } else {
        TodoError::CounterOverflow
    }
}

/// Marking may proceed: the caller is the owner and the done flag is in the
/// state the marking policy demands (see `mark_todo`).
pub open spec fn mark_todo_allowed(task: TaskRecord, authority: Identity) -> bool {
    &&& task.owner == authority
    &&& task.done
}

/// The error `mark_todo` reports when it is not allowed: authority first,
/// then the flag state.
pub open spec fn mark_todo_error(task: TaskRecord, authority: Identity) -> TodoError {
    if task.owner != authority {
        TodoError::AuthorityMismatch
    } else {
        TodoError::InvalidMarkState
    }
}

/// Deletion may proceed: the caller owns both records and the active
/// counter can still be decremented.
pub open spec fn delete_todo_allowed(
    profile: ProfileRecord,
    task: TaskRecord,
    authority: Identity,
) -> bool {
    &&& profile.owner == authority
    &&& task.owner == authority
    &&& profile.active_count > 0
}

/// The error `delete_todo` reports when it is not allowed: authority first,
/// then the counter.
pub open spec fn delete_todo_error(
    profile: ProfileRecord,
    task: TaskRecord,
    authority: Identity,
) -> TodoError {
    if profile.owner != authority || task.owner != authority {
        TodoError::AuthorityMismatch
    } else {
        TodoError::Underflow
    }
}

/// Create the caller's profile record: both counters start at zero and the
/// caller becomes the stored owner.
pub fn initialize_user(authority: &Identity) -> (profile: ProfileRecord)
    ensures
        profile.owner == *authority,
        profile.total_created == 0,
        profile.active_count == 0,
{
    ProfileRecord { owner: *authority, total_created: 0, active_count: 0 }
}

/// Create a task for the caller: the new task takes the profile's
/// `total_created` as its index, carries the given content unmarked, and
/// both profile counters are incremented by checked addition. On any error
/// the profile is left unchanged and no task is produced.
pub fn add_todo(authority: &Identity, profile: &mut ProfileRecord, content: String) -> (r: Result<
    TaskRecord,
    TodoError,
>)
    ensures
        r is Ok <==> add_todo_allowed(*old(profile), *authority),
        match r {
            Ok(task) => {
                &&& task.owner == *authority
                &&& task.index == old(profile).total_created as u8
                &&& task.content == content
                &&& !task.done
                &&& final(profile).owner == old(profile).owner
                &&& final(profile).total_created == old(profile).total_created + 1
                &&& final(profile).active_count == old(profile).active_count + 1
            },
            Err(e) => {
                &&& *final(profile) == *old(profile)
                &&& e == add_todo_error(*old(profile), *authority)
            },
        },
{
    if profile.owner != *authority {
        return Err(TodoError::AuthorityMismatch);
    }
    if profile.total_created >= TASK_INDEX_SPAN {
        return Err(TodoError::IndexSpaceExhausted);
    }
    let total = match profile.total_created.checked_add(1) {
        Some(t) => t,
        None => {
            return Err(TodoError::CounterOverflow);
        },
    };
    let active = match profile.active_count.checked_add(1) {
        Some(a) => a,
        None => {
            return Err(TodoError::CounterOverflow);
        },
    };
    let task = TaskRecord {
        owner: *authority,
        index: profile.total_created as u8,
        content,
        done: false,
    };
    profile.total_created = total;
    profile.active_count = active;
    Ok(task)
}

/// Flip the task's done flag under the literal marking policy: the flag must
/// already be set, and marking clears it. A task whose flag is clear — in
/// particular any freshly created task — reports `InvalidMarkState`. On any
/// error the task is left unchanged.
pub fn mark_todo(authority: &Identity, task: &mut TaskRecord) -> (r: Result<(), TodoError>)
    ensures
        r is Ok <==> mark_todo_allowed(*old(task), *authority),
        match r {
            Ok(()) => {
                &&& final(task).owner == old(task).owner
                &&& final(task).index == old(task).index
                &&& final(task).content == old(task).content
                &&& !final(task).done
            },
            Err(e) => {
                &&& *final(task) == *old(task)
                &&& e == mark_todo_error(*old(task), *authority)
            },
        },
{
    if task.owner != *authority {
        return Err(TodoError::AuthorityMismatch);
    }
    if !task.done {
        return Err(TodoError::InvalidMarkState);
    }
    task.done = !task.done;
    Ok(())
}

/// Retire a task: the active counter is decremented by checked subtraction
/// while `total_created` deliberately keeps its value, so the deleted index
/// is never reused. On any error the profile is left unchanged.
pub fn delete_todo(authority: &Identity, profile: &mut ProfileRecord, task: &TaskRecord) -> (r:
    Result<(), TodoError>)
    ensures
        r is Ok <==> delete_todo_allowed(*old(profile), *task, *authority),
        match r {
            Ok(()) => {
                &&& final(profile).owner == old(profile).owner
                &&& final(profile).total_created == old(profile).total_created
                &&& final(profile).active_count == old(profile).active_count - 1
            },
            Err(e) => {
                &&& *final(profile) == *old(profile)
                &&& e == delete_todo_error(*old(profile), *task, *authority)
            },
        },
{
    if profile.owner != *authority {
        return Err(TodoError::AuthorityMismatch);
    }
    if task.owner != *authority {
        return Err(TodoError::AuthorityMismatch);
    }
    let active = match profile.active_count.checked_sub(1) {
        Some(a) => a,
        None => {
            return Err(TodoError::Underflow);
        },
    };
    profile.active_count = active;
    Ok(())
}

/// Law: two successive successful task creations for one owner assign
/// distinct indices. Each creation takes the owner's creation counter at
/// its own call as the index, and every success raises that counter, so
/// even operations racing on one profile can never both be granted the
/// same index once the host serializes them.
pub proof fn lemma_successive_indices_distinct(
    first: ProfileRecord,
    second: ProfileRecord,
    index1: u8,
    index2: u8,
)
    requires
        first.total_created < TASK_INDEX_SPAN,
        index1 == first.total_created as u8,
        second.total_created == first.total_created + 1,
        second.total_created < TASK_INDEX_SPAN,
        index2 == second.total_created as u8,
    ensures
        index1 != index2,
{
}

} // verus!
