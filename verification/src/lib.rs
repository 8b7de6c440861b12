//! A school's administrative registry: subjects, teachers, classes and
//! schedules, each carrying a generated integer id, owned and looked up
//! through a `School` aggregate that also issues the ids.

use vstd::prelude::*;

pub mod class;
pub mod schedule;
pub mod school;
pub mod subject;
pub mod teacher;

pub use class::{Class, ClassId, ClassView};
pub use schedule::{Schedule, ScheduleId, ScheduleView};
pub use school::{School, SchoolId, SchoolView};
pub use subject::{Subject, SubjectId, SubjectView};
pub use teacher::{Teacher, TeacherId, TeacherView};

verus! {

/// A hosting application's handle on the registry: it owns the one school
/// aggregate and issues every mutation through it.
pub struct App {
    school: School,
}

impl View for App {
    type V = SchoolView;

    closed spec fn view(&self) -> SchoolView {
        self.school@
    }
}

impl App {
    pub fn new(id: SchoolId, name: String) -> (app: Self)
        ensures
            app@ == school::empty_school(id, name@),
    {
        Self { school: School::new(id, name) }
    }
}

} // verus!
