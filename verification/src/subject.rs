use vstd::prelude::*;

use crate::class::ClassId;

verus! {

/// Identifier of a subject, issued by a school's subject counter.
pub type SubjectId = u32;

/// The ghost image of a [`Subject`]: its id and the characters of its name.
pub struct SubjectView {
    pub id: SubjectId,
    pub name: Seq<char>,
}

/// A subject taught at a school: an id together with a display name.
#[derive(Debug, Clone, PartialEq)]
pub struct Subject {
    id: SubjectId,
    name: String,
}

impl View for Subject {
    type V = SubjectView;

    closed spec fn view(&self) -> SubjectView {
        SubjectView { id: self.id, name: self.name@ }
    }
}

impl Subject {
    /// The class id is accepted for interface parity but recorded nowhere:
    /// a subject keeps no back reference to a class.
    pub fn new(id: SubjectId, name: String, _class_id: ClassId) -> (subject: Self)
        ensures
            subject@ == (SubjectView { id: id, name: name@ }),
    {
        Self { id, name }
    }

    pub fn id(&self) -> (id: SubjectId)
        ensures
            id == self@.id,
    {
        self.id
    }

    pub fn name(&self) -> (name: &str)
        ensures
            name@ == self@.name,
    {
        self.name.as_str()
    }
}

} // verus!
