use vstd::prelude::*;

use crate::class::{Class, ClassId, ClassView};
use crate::schedule::{Schedule, ScheduleId, ScheduleView};
use crate::teacher::{Teacher, TeacherId, TeacherView};

verus! {

/// Identifier of a school, assigned externally at construction.
pub type SchoolId = i32;

/// `indexmap::IndexMap` declared for the verifier: an insertion-ordered
/// map, opaque here, described through the entry functions and the
/// wrappers below.
#[verifier::external_type_specification]
#[verifier::external_body]
#[verifier::reject_recursive_types(K)]
#[verifier::reject_recursive_types(V)]
#[verifier::reject_recursive_types(S)]
pub struct ExIndexMap<K, V, S>(indexmap::IndexMap<K, V, S>);

/// Relies on `indexmap::IndexMap`'s `Clone`: cloning is accepted with
/// nothing assumed of the copy; verified code never reads a cloned map.
pub assume_specification<K: Clone, V: Clone, S: Clone>[ <indexmap::IndexMap<
    K,
    V,
    S,
> as Clone>::clone ](m: &indexmap::IndexMap<K, V, S>) -> indexmap::IndexMap<K, V, S>;

/// The entries a teacher registry holds, as a map from id to teacher.
pub uninterp spec fn teacher_entries(m: indexmap::IndexMap<TeacherId, Teacher>) -> Map<
    TeacherId,
    Teacher,
>;

/// The entries a class registry holds, as a map from id to class.
pub uninterp spec fn class_entries(m: indexmap::IndexMap<ClassId, Class>) -> Map<ClassId, Class>;

/// The entries a schedule registry holds, as a map from id to schedule.
pub uninterp spec fn schedule_entries(m: indexmap::IndexMap<ScheduleId, Schedule>) -> Map<
    ScheduleId,
    Schedule,
>;

/// The keys of a teacher registry, in insertion order. An
/// `indexmap::IndexMap` keeps its keys unique and in the order their
/// entries were first inserted.
pub uninterp spec fn teacher_key_order(m: indexmap::IndexMap<TeacherId, Teacher>) -> Seq<
    TeacherId,
>;

/// The keys of a class registry, in insertion order.
pub uninterp spec fn class_key_order(m: indexmap::IndexMap<ClassId, Class>) -> Seq<ClassId>;

/// The keys of a schedule registry, in insertion order.
pub uninterp spec fn schedule_key_order(m: indexmap::IndexMap<ScheduleId, Schedule>) -> Seq<
    ScheduleId,
>;

/// Relies on `indexmap::IndexMap::new`: a new map is empty.
#[verifier::external_body]
fn teacher_map_new() -> (m: indexmap::IndexMap<TeacherId, Teacher>)
    ensures
        forall|id: TeacherId| !teacher_entries(m).contains_key(id),
        teacher_key_order(m) == Seq::<TeacherId>::empty(),
{
    indexmap::IndexMap::new()
}

/// Relies on `indexmap::IndexMap::insert`: the value is stored under the
/// key (an existing key keeps its place in the order, a new one goes
/// last), and any previous value under the key is returned.
#[verifier::external_body]
fn teacher_map_insert(
    m: &mut indexmap::IndexMap<TeacherId, Teacher>,
    key: TeacherId,
    value: Teacher,
) -> (previous: Option<Teacher>)
    ensures
        teacher_entries(*final(m)) == teacher_entries(*old(m)).insert(key, value),
        teacher_key_order(*final(m)) == if teacher_entries(*old(m)).contains_key(key) {
            teacher_key_order(*old(m))
        } else {
            teacher_key_order(*old(m)).push(key)
        },
        previous == if teacher_entries(*old(m)).contains_key(key) {
            Some(teacher_entries(*old(m))[key])
        } else {
            None::<Teacher>
        },
{
    m.insert(key, value)
}

/// Relies on `indexmap::IndexMap::get`: returns a reference to the value
/// stored under the key, or `None` if the key is absent.
#[verifier::external_body]
fn teacher_map_get<'a>(
    m: &'a indexmap::IndexMap<TeacherId, Teacher>,
    key: TeacherId,
) -> (value: Option<&'a Teacher>)
    ensures
        match value {
            Some(v) => teacher_entries(*m).contains_key(key) && *v == teacher_entries(*m)[key],
            None => !teacher_entries(*m).contains_key(key),
        },
{
    m.get(&key)
}

/// Relies on `indexmap::IndexMap::shift_remove`: the entry under the key
/// is removed with the order of the remaining entries preserved and its
/// value returned; an absent key is a no-op returning `None`.
#[verifier::external_body]
fn teacher_map_shift_remove(m: &mut indexmap::IndexMap<TeacherId, Teacher>, key: TeacherId) -> (removed: Option<
    Teacher,
>)
    ensures
        teacher_entries(*final(m)) == teacher_entries(*old(m)).remove(key),
        teacher_key_order(*final(m)) == teacher_key_order(*old(m)).remove_value(key),
        removed == if teacher_entries(*old(m)).contains_key(key) {
            Some(teacher_entries(*old(m))[key])
        } else {
            None::<Teacher>
        },
{
    m.shift_remove(&key)
}

/// Relies on `indexmap::IndexMap::new`: a new map is empty.
#[verifier::external_body]
fn class_map_new() -> (m: indexmap::IndexMap<ClassId, Class>)
    ensures
        forall|id: ClassId| !class_entries(m).contains_key(id),
        class_key_order(m) == Seq::<ClassId>::empty(),
{
    indexmap::IndexMap::new()
}

/// Relies on `indexmap::IndexMap::insert`: the value is stored under the
/// key (an existing key keeps its place in the order, a new one goes
/// last), and any previous value under the key is returned.
#[verifier::external_body]
fn class_map_insert(m: &mut indexmap::IndexMap<ClassId, Class>, key: ClassId, value: Class) -> (previous: Option<
    Class,
>)
    ensures
        class_entries(*final(m)) == class_entries(*old(m)).insert(key, value),
        class_key_order(*final(m)) == if class_entries(*old(m)).contains_key(key) {
            class_key_order(*old(m))
        } else {
            class_key_order(*old(m)).push(key)
        },
        previous == if class_entries(*old(m)).contains_key(key) {
            Some(class_entries(*old(m))[key])
        } else {
            None::<Class>
        },
{
    m.insert(key, value)
}

/// Relies on `indexmap::IndexMap::get`: returns a reference to the value
/// stored under the key, or `None` if the key is absent.
#[verifier::external_body]
fn class_map_get<'a>(m: &'a indexmap::IndexMap<ClassId, Class>, key: ClassId) -> (value: Option<
    &'a Class,
>)
    ensures
        match value {
            Some(v) => class_entries(*m).contains_key(key) && *v == class_entries(*m)[key],
            None => !class_entries(*m).contains_key(key),
        },
{
    m.get(&key)
}

/// Relies on `indexmap::IndexMap::shift_remove`: the entry under the key
/// is removed with the order of the remaining entries preserved and its
/// value returned; an absent key is a no-op returning `None`.
#[verifier::external_body]
fn class_map_shift_remove(m: &mut indexmap::IndexMap<ClassId, Class>, key: ClassId) -> (removed: Option<
    Class,
>)
    ensures
        class_entries(*final(m)) == class_entries(*old(m)).remove(key),
        class_key_order(*final(m)) == class_key_order(*old(m)).remove_value(key),
        removed == if class_entries(*old(m)).contains_key(key) {
            Some(class_entries(*old(m))[key])
        } else {
            None::<Class>
        },
{
    m.shift_remove(&key)
}

/// Relies on `indexmap::IndexMap::new`: a new map is empty.
#[verifier::external_body]
fn schedule_map_new() -> (m: indexmap::IndexMap<ScheduleId, Schedule>)
    ensures
        forall|id: ScheduleId| !schedule_entries(m).contains_key(id),
        schedule_key_order(m) == Seq::<ScheduleId>::empty(),
{
    indexmap::IndexMap::new()
}

/// Relies on `indexmap::IndexMap::insert`: the value is stored under the
/// key (an existing key keeps its place in the order, a new one goes
/// last), and any previous value under the key is returned.
#[verifier::external_body]
fn schedule_map_insert(
    m: &mut indexmap::IndexMap<ScheduleId, Schedule>,
    key: ScheduleId,
    value: Schedule,
) -> (previous: Option<Schedule>)
    ensures
        schedule_entries(*final(m)) == schedule_entries(*old(m)).insert(key, value),
        schedule_key_order(*final(m)) == if schedule_entries(*old(m)).contains_key(key) {
            schedule_key_order(*old(m))
        } else {
            schedule_key_order(*old(m)).push(key)
        },
        previous == if schedule_entries(*old(m)).contains_key(key) {
            Some(schedule_entries(*old(m))[key])
        } else {
            None::<Schedule>
        },
{
    m.insert(key, value)
}

/// Relies on `indexmap::IndexMap::get`: returns a reference to the value
/// stored under the key, or `None` if the key is absent.
#[verifier::external_body]
fn schedule_map_get<'a>(
    m: &'a indexmap::IndexMap<ScheduleId, Schedule>,
    key: ScheduleId,
) -> (value: Option<&'a Schedule>)
    ensures
        match value {
            Some(v) => schedule_entries(*m).contains_key(key) && *v == schedule_entries(*m)[key],
            None => !schedule_entries(*m).contains_key(key),
        },
{
    m.get(&key)
}

/// Relies on `indexmap::IndexMap::shift_remove`: the entry under the key
/// is removed with the order of the remaining entries preserved and its
/// value returned; an absent key is a no-op returning `None`.
#[verifier::external_body]
fn schedule_map_shift_remove(
    m: &mut indexmap::IndexMap<ScheduleId, Schedule>,
    key: ScheduleId,
) -> (removed: Option<Schedule>)
    ensures
        schedule_entries(*final(m)) == schedule_entries(*old(m)).remove(key),
        schedule_key_order(*final(m)) == schedule_key_order(*old(m)).remove_value(key),
        removed == if schedule_entries(*old(m)).contains_key(key) {
            Some(schedule_entries(*old(m))[key])
        } else {
            None::<Schedule>
        },
{
    m.shift_remove(&key)
}

/// Relies on `indexmap::IndexMap::values`: the stored values, in the
/// insertion order of their entries.
#[verifier::external_body]
fn teacher_map_values<'a>(m: &'a indexmap::IndexMap<TeacherId, Teacher>) -> (values: Vec<&'a Teacher>)
    ensures
        values@.len() == teacher_key_order(*m).len(),
        forall|i: int|
            0 <= i < values@.len() ==> teacher_entries(*m).contains_key(
                #[trigger] teacher_key_order(*m)[i],
            ),
        forall|i: int|
            0 <= i < values@.len() ==> *values@[i] == teacher_entries(*m)[#[trigger] teacher_key_order(
                *m,
            )[i]],
{
    m.values().collect()
}

/// Relies on `indexmap::IndexMap::values`: the stored values, in the
/// insertion order of their entries.
#[verifier::external_body]
fn class_map_values<'a>(m: &'a indexmap::IndexMap<ClassId, Class>) -> (values: Vec<&'a Class>)
    ensures
        values@.len() == class_key_order(*m).len(),
        forall|i: int|
            0 <= i < values@.len() ==> class_entries(*m).contains_key(
                #[trigger] class_key_order(*m)[i],
            ),
        forall|i: int|
            0 <= i < values@.len() ==> *values@[i] == class_entries(*m)[#[trigger] class_key_order(
                *m,
            )[i]],
{
    m.values().collect()
}

/// Relies on `indexmap::IndexMap::values`: the stored values, in the
/// insertion order of their entries.
#[verifier::external_body]
fn schedule_map_values<'a>(m: &'a indexmap::IndexMap<ScheduleId, Schedule>) -> (values: Vec<&'a Schedule>)
    ensures
        values@.len() == schedule_key_order(*m).len(),
        forall|i: int|
            0 <= i < values@.len() ==> schedule_entries(*m).contains_key(
                #[trigger] schedule_key_order(*m)[i],
            ),
        forall|i: int|
            0 <= i < values@.len() ==> *values@[i] == schedule_entries(*m)[#[trigger] schedule_key_order(
                *m,
            )[i]],
{
    m.values().collect()
}

/// The registry entries seen through each teacher's ghost image.
pub open spec fn teacher_views(entries: Map<TeacherId, Teacher>) -> Map<TeacherId, TeacherView> {
    Map::new(|id: TeacherId| entries.contains_key(id), |id: TeacherId| entries[id]@)
}

/// The registry entries seen through each class's ghost image.
pub open spec fn class_views(entries: Map<ClassId, Class>) -> Map<ClassId, ClassView> {
    Map::new(|id: ClassId| entries.contains_key(id), |id: ClassId| entries[id]@)
}

/// The registry entries seen through each schedule's ghost image.
pub open spec fn schedule_views(entries: Map<ScheduleId, Schedule>) -> Map<
    ScheduleId,
    ScheduleView,
> {
    Map::new(|id: ScheduleId| entries.contains_key(id), |id: ScheduleId| entries[id]@)
}

/// The ghost image of a [`School`]: its id and name, the three registries
/// as maps from id to entity image beside their keys in insertion order,
/// and the three id counters.
pub struct SchoolView {
    pub id: SchoolId,
    pub name: Seq<char>,
    pub teachers: Map<TeacherId, TeacherView>,
    pub classes: Map<ClassId, ClassView>,
    pub schedules: Map<ScheduleId, ScheduleView>,
    pub teacher_order: Seq<TeacherId>,
    pub class_order: Seq<ClassId>,
    pub schedule_order: Seq<ScheduleId>,
    pub next_teacher_id: TeacherId,
    pub next_class_id: ClassId,
    pub next_schedule_id: ScheduleId,
}

/// A school just constructed: empty registries, every counter at one.
pub open spec fn empty_school(id: SchoolId, name: Seq<char>) -> SchoolView {
    SchoolView {
        id: id,
        name: name,
        teachers: Map::empty(),
        classes: Map::empty(),
        schedules: Map::empty(),
        teacher_order: Seq::empty(),
        class_order: Seq::empty(),
        schedule_order: Seq::empty(),
        next_teacher_id: 1,
        next_class_id: 1,
        next_schedule_id: 1,
    }
}

/// The school after one teacher id was issued: only that counter moves.
pub open spec fn with_teacher_id_issued(s: SchoolView) -> SchoolView
    recommends
        s.next_teacher_id < TeacherId::MAX,
{
    SchoolView { next_teacher_id: (s.next_teacher_id + 1) as TeacherId, ..s }
}

/// The school after one class id was issued: only that counter moves.
pub open spec fn with_class_id_issued(s: SchoolView) -> SchoolView
    recommends
        s.next_class_id < ClassId::MAX,
{
    SchoolView { next_class_id: (s.next_class_id + 1) as ClassId, ..s }
}

/// The school after one schedule id was issued: only that counter moves.
pub open spec fn with_schedule_id_issued(s: SchoolView) -> SchoolView
    recommends
        s.next_schedule_id < ScheduleId::MAX,
{
    SchoolView { next_schedule_id: (s.next_schedule_id + 1) as ScheduleId, ..s }
}

/// The school after a teacher was inserted under its own id: a teacher
/// already stored there is silently overwritten and keeps its place in
/// the insertion order; a new one goes last.
pub open spec fn with_teacher_added(s: SchoolView, t: TeacherView) -> SchoolView {
    SchoolView {
        teachers: s.teachers.insert(t.id, t),
        teacher_order: if s.teachers.contains_key(t.id) {
            s.teacher_order
        } else {
            s.teacher_order.push(t.id)
        },
        ..s
    }
}

/// The school after the teacher under `id` was removed, the remaining
/// teachers keeping their relative insertion order; a no-op if absent.
pub open spec fn with_teacher_removed(s: SchoolView, id: TeacherId) -> SchoolView {
    SchoolView {
        teachers: s.teachers.remove(id),
        teacher_order: s.teacher_order.remove_value(id),
        ..s
    }
}

/// The school after a class was inserted under its own id: a class
/// already stored there is silently overwritten and keeps its place in
/// the insertion order; a new one goes last.
pub open spec fn with_class_added(s: SchoolView, c: ClassView) -> SchoolView {
    SchoolView {
        classes: s.classes.insert(c.id, c),
        class_order: if s.classes.contains_key(c.id) {
            s.class_order
        } else {
            s.class_order.push(c.id)
        },
        ..s
    }
}

/// The school after the class under `id` was removed, the remaining
/// classes keeping their relative insertion order; a no-op if absent.
pub open spec fn with_class_removed(s: SchoolView, id: ClassId) -> SchoolView {
    SchoolView {
        classes: s.classes.remove(id),
        class_order: s.class_order.remove_value(id),
        ..s
    }
}

/// The school after a schedule was inserted under its own id: a schedule
/// already stored there is silently overwritten and keeps its place in
/// the insertion order; a new one goes last.
pub open spec fn with_schedule_added(s: SchoolView, c: ScheduleView) -> SchoolView {
    SchoolView {
        schedules: s.schedules.insert(c.id, c),
        schedule_order: if s.schedules.contains_key(c.id) {
            s.schedule_order
        } else {
            s.schedule_order.push(c.id)
        },
        ..s
    }
}

/// The school after the schedule under `id` was removed, the remaining
/// schedules keeping their relative insertion order; a no-op if absent.
pub open spec fn with_schedule_removed(s: SchoolView, id: ScheduleId) -> SchoolView {
    SchoolView {
        schedules: s.schedules.remove(id),
        schedule_order: s.schedule_order.remove_value(id),
        ..s
    }
}

/// The aggregate root: owns the teacher, class and schedule registries
/// (insertion-ordered, keyed by id) and issues their ids from three
/// monotonically increasing counters. Entities are created by the caller
/// from an issued id and inserted explicitly; the school never
/// auto-inserts, and no cross-registry integrity is enforced.
#[derive(Debug, Clone, PartialEq)]
pub struct School {
    id: SchoolId,
    name: String,
    teachers: indexmap::IndexMap<TeacherId, Teacher>,
    classes: indexmap::IndexMap<ClassId, Class>,
    schedules: indexmap::IndexMap<ScheduleId, Schedule>,
    next_teacher_id: TeacherId,
    next_class_id: ClassId,
    next_schedule_id: ScheduleId,
}

impl View for School {
    type V = SchoolView;

    closed spec fn view(&self) -> SchoolView {
        SchoolView {
            id: self.id,
            name: self.name@,
            teachers: teacher_views(teacher_entries(self.teachers)),
            classes: class_views(class_entries(self.classes)),
            schedules: schedule_views(schedule_entries(self.schedules)),
            teacher_order: teacher_key_order(self.teachers),
            class_order: class_key_order(self.classes),
            schedule_order: schedule_key_order(self.schedules),
            next_teacher_id: self.next_teacher_id,
            next_class_id: self.next_class_id,
            next_schedule_id: self.next_schedule_id,
        }
    }
}

impl School {
    pub fn new(id: SchoolId, name: String) -> (school: Self)
        ensures
            school@ == empty_school(id, name@),
    {
        let school = Self {
            id,
            name,
            teachers: teacher_map_new(),
            classes: class_map_new(),
            schedules: schedule_map_new(),
            next_teacher_id: 1,
            next_class_id: 1,
            next_schedule_id: 1,
        };
        proof {
            assert(school@.teachers =~= Map::<TeacherId, TeacherView>::empty());
            assert(school@.classes =~= Map::<ClassId, ClassView>::empty());
            assert(school@.schedules =~= Map::<ScheduleId, ScheduleView>::empty());
        }
        school
    }

    pub fn id(&self) -> (id: SchoolId)
        ensures
            id == self@.id,
    {
        self.id
    }

    pub fn name(&self) -> (name: &String)
        ensures
            name@ == self@.name,
    {
        &self.name
    }

    /// Returns the current teacher counter, then moves it up by one; the
    /// first call on a fresh school returns 1.
    pub fn get_next_teacher_id(&mut self) -> (id: TeacherId)
        requires
            old(self)@.next_teacher_id < TeacherId::MAX,
        ensures
            id == old(self)@.next_teacher_id,
            final(self)@ == with_teacher_id_issued(old(self)@),
    {
        let current_id = self.next_teacher_id;
        self.next_teacher_id += 1;
        current_id
    }

    /// Returns the current class counter, then moves it up by one; the
    /// first call on a fresh school returns 1.
    pub fn get_next_class_id(&mut self) -> (id: ClassId)
        requires
            old(self)@.next_class_id < ClassId::MAX,
        ensures
            id == old(self)@.next_class_id,
            final(self)@ == with_class_id_issued(old(self)@),
    {
        let current_id = self.next_class_id;
        self.next_class_id += 1;
        current_id
    }

    /// Returns the current schedule counter, then moves it up by one; the
    /// first call on a fresh school returns 1.
    pub fn get_next_schedule_id(&mut self) -> (id: ScheduleId)
        requires
            old(self)@.next_schedule_id < ScheduleId::MAX,
        ensures
            id == old(self)@.next_schedule_id,
            final(self)@ == with_schedule_id_issued(old(self)@),
    {
        let current_id = self.next_schedule_id;
        self.next_schedule_id += 1;
        current_id
    }

    /// The class id the next `get_next_class_id` call would return.
    pub fn next_class_id(&self) -> (id: ClassId)
        ensures
            id == self@.next_class_id,
    {
        self.next_class_id
    }

    /// Inserts the teacher under its own id, silently overwriting any
    /// teacher already stored under that id (last write wins).
    pub fn add_teacher(&mut self, teacher: Teacher)
        ensures
            final(self)@ == with_teacher_added(old(self)@, teacher@),
    {
        let id = teacher.id();
        teacher_map_insert(&mut self.teachers, id, teacher);
        proof {
            assert(teacher_views(teacher_entries(self.teachers)) =~= teacher_views(
                teacher_entries(old(self).teachers),
            ).insert(teacher@.id, teacher@));
            assert(old(self)@.teachers.contains_key(teacher@.id) == teacher_entries(
                old(self).teachers,
            ).contains_key(teacher@.id));
        }
    }

    /// Looks the teacher up by id; `None` signals absence.
    pub fn get_teacher(&self, id: TeacherId) -> (teacher: Option<&Teacher>)
        ensures
            match teacher {
                Some(t) => self@.teachers.contains_key(id) && t@ == self@.teachers[id],
                None => !self@.teachers.contains_key(id),
            },
    {
        teacher_map_get(&self.teachers, id)
    }

    /// Removes the teacher under `id` if present, keeping the insertion
    /// order of the remaining teachers; a no-op if absent.
    pub fn remove_teacher(&mut self, id: TeacherId)
        ensures
            final(self)@ == with_teacher_removed(old(self)@, id),
    {
        teacher_map_shift_remove(&mut self.teachers, id);
        proof {
            assert(teacher_views(teacher_entries(self.teachers)) =~= teacher_views(
                teacher_entries(old(self).teachers),
            ).remove(id));
        }
    }

    /// Inserts the class under its own id, silently overwriting any class
    /// already stored under that id (last write wins).
    pub fn add_class(&mut self, class: Class)
        ensures
            final(self)@ == with_class_added(old(self)@, class@),
    {
        let id = class.id();
        class_map_insert(&mut self.classes, id, class);
        proof {
            assert(class_views(class_entries(self.classes)) =~= class_views(
                class_entries(old(self).classes),
            ).insert(class@.id, class@));
            assert(old(self)@.classes.contains_key(class@.id) == class_entries(
                old(self).classes,
            ).contains_key(class@.id));
        }
    }

    /// Looks the class up by id; `None` signals absence.
    pub fn get_class(&self, id: ClassId) -> (class: Option<&Class>)
        ensures
            match class {
                Some(c) => self@.classes.contains_key(id) && c@ == self@.classes[id],
                None => !self@.classes.contains_key(id),
            },
    {
        class_map_get(&self.classes, id)
    }

    /// Removes the class under `id` if present, keeping the insertion
    /// order of the remaining classes; a no-op if absent. No cascade:
    /// schedules referencing the class stay.
    pub fn remove_class(&mut self, id: ClassId)
        ensures
            final(self)@ == with_class_removed(old(self)@, id),
    {
        class_map_shift_remove(&mut self.classes, id);
        proof {
            assert(class_views(class_entries(self.classes)) =~= class_views(
                class_entries(old(self).classes),
            ).remove(id));
        }
    }

    /// Inserts the schedule under its own id, silently overwriting any
    /// schedule already stored under that id (last write wins).
    pub fn add_schedule(&mut self, schedule: Schedule)
        ensures
            final(self)@ == with_schedule_added(old(self)@, schedule@),
    {
        let id = schedule.id();
        schedule_map_insert(&mut self.schedules, id, schedule);
        proof {
            assert(schedule_views(schedule_entries(self.schedules)) =~= schedule_views(
                schedule_entries(old(self).schedules),
            ).insert(schedule@.id, schedule@));
            assert(old(self)@.schedules.contains_key(schedule@.id) == schedule_entries(
                old(self).schedules,
            ).contains_key(schedule@.id));
        }
    }

    /// Looks the schedule up by id; `None` signals absence.
    pub fn get_schedule(&self, id: ScheduleId) -> (schedule: Option<&Schedule>)
        ensures
            match schedule {
                Some(s) => self@.schedules.contains_key(id) && s@ == self@.schedules[id],
                None => !self@.schedules.contains_key(id),
            },
    {
        schedule_map_get(&self.schedules, id)
    }

    /// Removes the schedule under `id` if present, keeping the insertion
    /// order of the remaining schedules; a no-op if absent.
    pub fn remove_schedule(&mut self, id: ScheduleId)
        ensures
            final(self)@ == with_schedule_removed(old(self)@, id),
    {
        schedule_map_shift_remove(&mut self.schedules, id);
        proof {
            assert(schedule_views(schedule_entries(self.schedules)) =~= schedule_views(
                schedule_entries(old(self).schedules),
            ).remove(id));
        }
    }

    /// The teachers of the registry, in insertion order.
    pub fn teachers(&self) -> (teachers: Vec<&Teacher>)
        ensures
            teachers@.len() == self@.teacher_order.len(),
            forall|i: int|
                0 <= i < teachers@.len() ==> self@.teachers.contains_key(
                    #[trigger] self@.teacher_order[i],
                ),
            forall|i: int|
                0 <= i < teachers@.len() ==> teachers@[i]@ == self@.teachers[#[trigger] self@.teacher_order[i]],
    {
        let values = teacher_map_values(&self.teachers);
        proof {
            assert forall|i: int| 0 <= i < values@.len() implies self@.teachers.contains_key(
                #[trigger] self@.teacher_order[i],
            ) && values@[i]@ == self@.teachers[self@.teacher_order[i]] by {
                assert(*values@[i] == teacher_entries(self.teachers)[teacher_key_order(
                    self.teachers,
                )[i]]);
            }
        }
        values
    }

    /// The classes of the registry, in insertion order.
    pub fn classes(&self) -> (classes: Vec<&Class>)
        ensures
            classes@.len() == self@.class_order.len(),
            forall|i: int|
                0 <= i < classes@.len() ==> self@.classes.contains_key(
                    #[trigger] self@.class_order[i],
                ),
            forall|i: int|
                0 <= i < classes@.len() ==> classes@[i]@ == self@.classes[#[trigger] self@.class_order[i]],
    {
        let values = class_map_values(&self.classes);
        proof {
            assert forall|i: int| 0 <= i < values@.len() implies self@.classes.contains_key(
                #[trigger] self@.class_order[i],
            ) && values@[i]@ == self@.classes[self@.class_order[i]] by {
                assert(*values@[i] == class_entries(self.classes)[class_key_order(self.classes)[i]]);
            }
        }
        values
    }

    /// The schedules of the registry, in insertion order.
    pub fn schedules(&self) -> (schedules: Vec<&Schedule>)
        ensures
            schedules@.len() == self@.schedule_order.len(),
            forall|i: int|
                0 <= i < schedules@.len() ==> self@.schedules.contains_key(
                    #[trigger] self@.schedule_order[i],
                ),
            forall|i: int|
                0 <= i < schedules@.len() ==> schedules@[i]@ == self@.schedules[#[trigger] self@.schedule_order[i]],
    {
        let values = schedule_map_values(&self.schedules);
        proof {
            assert forall|i: int| 0 <= i < values@.len() implies self@.schedules.contains_key(
                #[trigger] self@.schedule_order[i],
            ) && values@[i]@ == self@.schedules[self@.schedule_order[i]] by {
                assert(*values@[i] == schedule_entries(self.schedules)[schedule_key_order(
                    self.schedules,
                )[i]]);
            }
        }
        values
    }
}

/// A key-order sequence describes a registry map exactly: no key twice,
/// and the keys listed are exactly the map's keys.
pub open spec fn order_tracks_map<V>(order: Seq<u32>, m: Map<u32, V>) -> bool {
    &&& order.no_duplicates()
    &&& forall|id: u32| #[trigger] order.contains(id) <==> m.contains_key(id)
}

/// Within a school, each registry's insertion order lists exactly the
/// registry's keys, each once.
pub open spec fn registry_order_consistent(s: SchoolView) -> bool {
    &&& order_tracks_map(s.teacher_order, s.teachers)
    &&& order_tracks_map(s.class_order, s.classes)
    &&& order_tracks_map(s.schedule_order, s.schedules)
}

proof fn lemma_push_tracks_insert<V>(order: Seq<u32>, m: Map<u32, V>, key: u32, value: V)
    requires
        order_tracks_map(order, m),
    ensures
        order_tracks_map(
            if m.contains_key(key) {
                order
            } else {
                order.push(key)
            },
            m.insert(key, value),
        ),
{
    if m.contains_key(key) {
        assert(order.contains(key));
    } else {
        let order2 = order.push(key);
        assert(order2[order.len() as int] == key);
        assert forall|i: int, j: int|
            0 <= i < order2.len() && 0 <= j < order2.len() && i != j implies order2[i]
            != order2[j] by {
            if i == order.len() {
                if order[j] == key {
                    assert(order.contains(key));
                }
            } else if j == order.len() {
                if order[i] == key {
                    assert(order.contains(key));
                }
            }
        }
        assert(order2.no_duplicates());
        assert forall|id: u32| #[trigger] order2.contains(id) <==> m.insert(
            key,
            value,
        ).contains_key(id) by {
            if order2.contains(id) {
                let i = choose|i: int| 0 <= i < order2.len() && order2[i] == id;
                if i < order.len() {
                    assert(order[i] == id);
                    assert(order.contains(id));
                }
            }
            if m.insert(key, value).contains_key(id) {
                if id == key {
                    assert(order2[order.len() as int] == key);
                } else {
                    assert(m.contains_key(id));
                    assert(order.contains(id));
                    let i = choose|i: int| 0 <= i < order.len() && order[i] == id;
                    assert(order2[i] == id);
                }
            }
        }
    }
}

proof fn lemma_remove_value_tracks_remove<V>(order: Seq<u32>, m: Map<u32, V>, key: u32)
    requires
        order_tracks_map(order, m),
    ensures
        order_tracks_map(order.remove_value(key), m.remove(key)),
{
    order.index_of_first_ensures(key);
    if order.contains(key) {
        let idx = order.index_of_first(key)->Some_0;
        let order2 = order.remove(idx);
        order.remove_ensures(idx);
        assert forall|i: int, j: int|
            0 <= i < order2.len() && 0 <= j < order2.len() && i != j implies order2[i]
            != order2[j] by {
            let si: int = if i < idx {
                i
            } else {
                i + 1
            };
            let sj: int = if j < idx {
                j
            } else {
                j + 1
            };
            assert(order2[i] == order[si]);
            assert(order2[j] == order[sj]);
        }
        assert(order2.no_duplicates());
        assert forall|id: u32| #[trigger] order2.contains(id) <==> m.remove(key).contains_key(
            id,
        ) by {
            if order2.contains(id) {
                let i = choose|i: int| 0 <= i < order2.len() && order2[i] == id;
                let si: int = if i < idx {
                    i
                } else {
                    i + 1
                };
                assert(order2[i] == order[si]);
                assert(order.contains(id));
                if id == key {
                    assert(order[si] == order[idx]);
                    assert(false);
                }
            }
            if m.remove(key).contains_key(id) {
                assert(m.contains_key(id) && id != key);
                assert(order.contains(id));
                let i = choose|i: int| 0 <= i < order.len() && order[i] == id;
                if i < idx {
                    assert(order2[i] == order[i]);
                } else {
                    assert(i != idx);
                    assert(order2[i - 1] == order[i]);
                }
                assert(order2.contains(id));
            }
        }
    } else {
        assert forall|id: u32| #[trigger] order.contains(id) <==> m.remove(key).contains_key(
            id,
        ) by {
            if id == key {
                assert(!m.contains_key(key));
            }
        }
    }
}

/// Within a school, an entity's id field always equals its registry key.
pub open spec fn ids_match_keys(s: SchoolView) -> bool {
    &&& forall|id: TeacherId|
        s.teachers.contains_key(id) ==> (#[trigger] s.teachers[id]).id == id
    &&& forall|id: ClassId| s.classes.contains_key(id) ==> (#[trigger] s.classes[id]).id == id
    &&& forall|id: ScheduleId|
        s.schedules.contains_key(id) ==> (#[trigger] s.schedules[id]).id == id
}

/// A fresh school satisfies the registry invariants vacuously.
pub proof fn lemma_empty_school_invariants(id: SchoolId, name: Seq<char>)
    ensures
        ids_match_keys(empty_school(id, name)),
        registry_order_consistent(empty_school(id, name)),
{
}

/// Every operation keeps an entity's id field equal to its registry key
/// (entities are always stored under their own id), keeps each registry's
/// insertion order listing exactly its keys, and no id counter ever
/// decreases.
pub proof fn lemma_operations_preserve_school_invariants(
    s: SchoolView,
    t: TeacherView,
    c: ClassView,
    sc: ScheduleView,
    teacher_id: TeacherId,
    class_id: ClassId,
    schedule_id: ScheduleId,
)
    requires
        ids_match_keys(s),
        registry_order_consistent(s),
        s.next_teacher_id < TeacherId::MAX,
        s.next_class_id < ClassId::MAX,
        s.next_schedule_id < ScheduleId::MAX,
    ensures
        ids_match_keys(with_teacher_added(s, t)),
        ids_match_keys(with_teacher_removed(s, teacher_id)),
        ids_match_keys(with_class_added(s, c)),
        ids_match_keys(with_class_removed(s, class_id)),
        ids_match_keys(with_schedule_added(s, sc)),
        ids_match_keys(with_schedule_removed(s, schedule_id)),
        ids_match_keys(with_teacher_id_issued(s)),
        ids_match_keys(with_class_id_issued(s)),
        ids_match_keys(with_schedule_id_issued(s)),
        registry_order_consistent(with_teacher_added(s, t)),
        registry_order_consistent(with_teacher_removed(s, teacher_id)),
        registry_order_consistent(with_class_added(s, c)),
        registry_order_consistent(with_class_removed(s, class_id)),
        registry_order_consistent(with_schedule_added(s, sc)),
        registry_order_consistent(with_schedule_removed(s, schedule_id)),
        registry_order_consistent(with_teacher_id_issued(s)),
        registry_order_consistent(with_class_id_issued(s)),
        registry_order_consistent(with_schedule_id_issued(s)),
        with_teacher_id_issued(s).next_teacher_id > s.next_teacher_id,
        with_class_id_issued(s).next_class_id > s.next_class_id,
        with_schedule_id_issued(s).next_schedule_id > s.next_schedule_id,
{
    lemma_push_tracks_insert(s.teacher_order, s.teachers, t.id, t);
    lemma_remove_value_tracks_remove(s.teacher_order, s.teachers, teacher_id);
    lemma_push_tracks_insert(s.class_order, s.classes, c.id, c);
    lemma_remove_value_tracks_remove(s.class_order, s.classes, class_id);
    lemma_push_tracks_insert(s.schedule_order, s.schedules, sc.id, sc);
    lemma_remove_value_tracks_remove(s.schedule_order, s.schedules, schedule_id);
}

/// The school after `n` class ids were issued in a row.
pub open spec fn school_after_class_issues(s: SchoolView, n: nat) -> SchoolView
    decreases n,
{
    if n == 0 {
        s
    } else {
        with_class_id_issued(school_after_class_issues(s, (n - 1) as nat))
    }
}

/// The class id the nth issue (1-indexed) in a row hands out: the counter
/// standing before it.
pub open spec fn nth_issued_class_id(s: SchoolView, n: nat) -> ClassId
    recommends
        1 <= n,
{
    school_after_class_issues(s, (n - 1) as nat).next_class_id
}

proof fn lemma_class_counter_after_issues(s: SchoolView, k: nat)
    requires
        s.next_class_id == 1,
        k + 1 <= ClassId::MAX,
    ensures
        school_after_class_issues(s, k).next_class_id == 1 + k,
    decreases k,
{
    if k > 0 {
        lemma_class_counter_after_issues(s, (k - 1) as nat);
    }
}

/// On a fresh school the class counter stands at one, and each issue moves
/// it up by exactly one, so a row of `get_next_class_id` calls hands out
/// 1, 2, 3, ...: the nth call (1-indexed) returns n.
pub proof fn lemma_nth_class_id_is_n(s: SchoolView, n: nat)
    requires
        s.next_class_id == 1,
        1 <= n,
        n <= ClassId::MAX,
    ensures
        nth_issued_class_id(s, n) == n,
{
    lemma_class_counter_after_issues(s, (n - 1) as nat);
}

/// Looking a class up right after adding it finds exactly the class that
/// was added.
pub proof fn lemma_add_class_then_lookup(s: SchoolView, c: ClassView)
    ensures
        with_class_added(s, c).classes.contains_key(c.id),
        with_class_added(s, c).classes[c.id] == c,
{
}

/// Removing a class right after adding it leaves no class under that id:
/// the lookup signals absence.
pub proof fn lemma_add_then_remove_class_leaves_absent(s: SchoolView, c: ClassView)
    ensures
        !with_class_removed(with_class_added(s, c), c.id).classes.contains_key(c.id),
{
}

} // verus!
