use vstd::prelude::*;

use crate::subject::SubjectId;

verus! {

/// Identifier of a teacher, issued by a school's teacher counter.
pub type TeacherId = u32;

/// The ghost image of a [`Teacher`]: its id, the characters of its name,
/// and the id of the subject it refers to.
pub struct TeacherView {
    pub id: TeacherId,
    pub name: Seq<char>,
    pub subject_id: SubjectId,
}

/// A teacher: an id, a display name, and a non-owning reference to the
/// subject taught. No check ties the subject id to an existing subject;
/// the reference's validity is the caller's responsibility.
#[derive(Debug, Clone, PartialEq)]
pub struct Teacher {
    id: TeacherId,
    name: String,
    subject_id: SubjectId,
}

impl View for Teacher {
    type V = TeacherView;

    closed spec fn view(&self) -> TeacherView {
        TeacherView { id: self.id, name: self.name@, subject_id: self.subject_id }
    }
}

impl Teacher {
    pub fn new(id: TeacherId, name: String, subject_id: SubjectId) -> (teacher: Self)
        ensures
            teacher@ == (TeacherView { id: id, name: name@, subject_id: subject_id }),
    {
        Self { id, name, subject_id }
    }

    pub fn id(&self) -> (id: TeacherId)
        ensures
            id == self@.id,
    {
        self.id
    }

    pub fn name(&self) -> (name: &str)
        ensures
            name@ == self@.name,
    {
        self.name.as_str()
    }

    pub fn subject_id(&self) -> (subject_id: &SubjectId)
        ensures
            *subject_id == self@.subject_id,
    {
        &self.subject_id
    }
}

} // verus!
