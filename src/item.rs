use crate::stamp::{now_stamp, Stamp};
use vstd::prelude::*;

verus! {

/// Why an operation on records was refused.
#[derive(Clone, Copy, Debug, PartialEq, Eq, Structural)]
pub enum TodoError {
    /// A record's text was empty.
    InvalidInput,
    /// A position outside the current view.
    InvalidIndex,
    /// The local clock has no single midnight today: the zone skips it or
    /// passes it twice.
    ClockError,
}

/// One to-do entry: when it was created, when (if ever) it was completed,
/// and its text.
#[derive(Debug)]
pub struct TODOItem {
    pub create_time: Stamp,
    pub check_time: Option<Stamp>,
    pub content: String,
}

/// The completion time that checking a record created at `created` at the
/// moment `now` gives: `now`, but never earlier than the creation.
pub open spec fn completion_time(created: Stamp, now: Stamp) -> Stamp {
    if now.before(created) {
        created
    } else {
        now
    }
}

/// The completion time after checking at `now`: a record already completed
/// keeps its completion time.
pub open spec fn checked_time(check_time: Option<Stamp>, created: Stamp, now: Stamp) -> Option<
    Stamp,
> {
    match check_time {
        Some(t) => Some(t),
        None => Some(completion_time(created, now)),
    }
}

impl TODOItem {
    pub open spec fn wf(&self) -> bool {
        &&& self.create_time.wf()
        &&& self.content@.len() > 0
        &&& self.check_time matches Some(t) ==> t.wf() && !t.before(self.create_time)
    }

    /// A new, uncompleted record with text `content` created at `now`.
    pub fn new_at(content: String, now: Stamp) -> (r: Result<TODOItem, TodoError>)
        requires
            now.wf(),
        ensures
            content@.len() == 0 <==> r == Err::<TODOItem, TodoError>(TodoError::InvalidInput),
            content@.len() > 0 <==> r is Ok,
            r matches Ok(item) ==> {
                &&& item.create_time == now
                &&& item.check_time is None
                &&& item.content@ == content@
                &&& item.wf()
            },
    {
        if content.as_str().is_empty() {
            Err(TodoError::InvalidInput)
        } else {
            Ok(TODOItem { create_time: now, check_time: None, content })
        }
    }

    /// A new, uncompleted record with text `content`, created now.
    pub fn new(content: String) -> (r: Result<TODOItem, TodoError>)
        ensures
            content@.len() == 0 <==> r == Err::<TODOItem, TodoError>(TodoError::InvalidInput),
            content@.len() > 0 <==> r is Ok,
            r matches Ok(item) ==> {
                &&& item.create_time.wf()
                &&& item.check_time is None
                &&& item.content@ == content@
                &&& item.wf()
            },
    {
        let now = now_stamp();
        TODOItem::new_at(content, now)
    }

    /// Marks the record completed at `now`; a completed record is left as it is.
    pub fn check_at(&mut self, now: Stamp)
        ensures
            final(self).create_time == old(self).create_time,
            final(self).content == old(self).content,
            final(self).check_time == checked_time(
                old(self).check_time,
                old(self).create_time,
                now,
            ),
            old(self).wf() && now.wf() ==> final(self).wf(),
    {
        if self.check_time.is_none() {
            let t = if now.is_before(&self.create_time) {
                self.create_time
            } else {
                now
            };
            self.check_time = Some(t);
        }
    }

    /// Marks the record completed now; a completed record is left as it is.
    pub fn check(&mut self)
        ensures
            final(self).create_time == old(self).create_time,
            final(self).content == old(self).content,
            final(self).check_time is Some,
            old(self).check_time is Some ==> final(self).check_time == old(self).check_time,
            old(self).check_time is None ==> !final(self).check_time.unwrap().before(
                old(self).create_time,
            ),
            old(self).wf() ==> final(self).wf(),
    {
        let now = now_stamp();
        self.check_at(now);
    }
}

} // verus!
