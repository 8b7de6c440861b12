use vstd::prelude::*;

use crate::class::ClassId;

verus! {

/// Identifier of a schedule, issued by a school's schedule counter.
pub type ScheduleId = u32;

/// The ghost image of a [`Schedule`]: its id, the characters of its name,
/// and the id of the class it refers to.
pub struct ScheduleView {
    pub id: ScheduleId,
    pub name: Seq<char>,
    pub class_id: ClassId,
}

/// A schedule: an id, a display name, and a non-owning reference to a
/// class. No check ties the class id to an existing class; the
/// reference's validity is the caller's responsibility.
#[derive(Debug, Clone, PartialEq)]
pub struct Schedule {
    id: ScheduleId,
    name: String,
    class_id: ClassId,
}

impl View for Schedule {
    type V = ScheduleView;

    closed spec fn view(&self) -> ScheduleView {
        ScheduleView { id: self.id, name: self.name@, class_id: self.class_id }
    }
}

impl Schedule {
    pub fn new(id: ScheduleId, name: String, class_id: ClassId) -> (schedule: Self)
        ensures
            schedule@ == (ScheduleView { id: id, name: name@, class_id: class_id }),
    {
        Self { id, name, class_id }
    }

    pub fn id(&self) -> (id: ScheduleId)
        ensures
            id == self@.id,
    {
        self.id
    }

    pub fn name(&self) -> (name: &String)
        ensures
            name@ == self@.name,
    {
        &self.name
    }

    pub fn get_class_id(&self) -> (class_id: ClassId)
        ensures
            class_id == self@.class_id,
    {
        self.class_id
    }
}

} // verus!
