use vstd::prelude::*;

use crate::subject::SubjectId;

verus! {

/// Identifier of a class, issued by a school's class counter.
pub type ClassId = u32;

/// `indexmap::IndexSet` declared for the verifier: an insertion-ordered set,
/// opaque here, described through [`index_set_elems`] and the wrappers below.
#[verifier::external_type_specification]
#[verifier::external_body]
#[verifier::reject_recursive_types(T)]
#[verifier::reject_recursive_types(S)]
pub struct ExIndexSet<T, S>(indexmap::IndexSet<T, S>);

/// Relies on `indexmap::IndexSet`'s `Clone`: cloning is accepted with
/// nothing assumed of the copy; verified code never reads a cloned set.
pub assume_specification<T: Clone, S: Clone>[ <indexmap::IndexSet<T, S> as Clone>::clone ](
    s: &indexmap::IndexSet<T, S>,
) -> indexmap::IndexSet<T, S>;

/// The elements a subject-id set holds, in insertion order. An
/// `indexmap::IndexSet` keeps its items unique and in the order they were
/// first inserted, so a duplicate-free sequence captures its whole content.
pub uninterp spec fn index_set_elems(s: indexmap::IndexSet<SubjectId>) -> Seq<SubjectId>;

/// Relies on `indexmap::IndexSet::new`: a new set is empty.
#[verifier::external_body]
fn set_new() -> (s: indexmap::IndexSet<SubjectId>)
    ensures
        index_set_elems(s) == Seq::<SubjectId>::empty(),
{
    indexmap::IndexSet::new()
}

/// Relies on `indexmap::IndexSet::insert`: an already present value leaves
/// the set unchanged and returns false; a new value is appended last in
/// order and returns true.
#[verifier::external_body]
fn set_insert(s: &mut indexmap::IndexSet<SubjectId>, value: SubjectId) -> (newly_added: bool)
    ensures
        newly_added == !index_set_elems(*old(s)).contains(value),
        index_set_elems(*final(s)) == if index_set_elems(*old(s)).contains(value) {
            index_set_elems(*old(s))
        } else {
            index_set_elems(*old(s)).push(value)
        },
{
    s.insert(value)
}

/// Relies on `indexmap::IndexSet::shift_remove`: a present value (a set
/// holds it at most once) is removed with the order of the remaining
/// elements preserved, returning true; an absent value is a no-op
/// returning false.
#[verifier::external_body]
fn set_shift_remove(s: &mut indexmap::IndexSet<SubjectId>, value: SubjectId) -> (was_present: bool)
    ensures
        was_present == index_set_elems(*old(s)).contains(value),
        index_set_elems(*final(s)) == index_set_elems(*old(s)).remove_value(value),
{
    s.shift_remove(&value)
}

/// The ghost image of a [`Class`]: its id, the characters of its name and
/// description, and its associated subject ids in insertion order.
pub struct ClassView {
    pub id: ClassId,
    pub name: Seq<char>,
    pub description: Seq<char>,
    pub subjects: Seq<SubjectId>,
}

/// A class: an id, a name, a description, and an insertion-ordered set of
/// associated subject ids (duplicates collapse).
#[derive(Debug, Clone, PartialEq)]
pub struct Class {
    id: ClassId,
    name: String,
    description: String,
    subjects: indexmap::IndexSet<SubjectId>,
}

impl View for Class {
    type V = ClassView;

    closed spec fn view(&self) -> ClassView {
        ClassView {
            id: self.id,
            name: self.name@,
            description: self.description@,
            subjects: index_set_elems(self.subjects),
        }
    }
}

/// The subject list after an idempotent insert: unchanged when the id is
/// already associated, extended at the end otherwise.
pub open spec fn subjects_after_add(subjects: Seq<SubjectId>, subject_id: SubjectId) -> Seq<
    SubjectId,
> {
    if subjects.contains(subject_id) {
        subjects
    } else {
        subjects.push(subject_id)
    }
}

/// The subject list after the ids of `added` were inserted one by one,
/// in order, each idempotently.
pub open spec fn subjects_after_add_all(
    subjects: Seq<SubjectId>,
    added: Seq<SubjectId>,
) -> Seq<SubjectId>
    decreases added.len(),
{
    if added.len() == 0 {
        subjects
    } else {
        subjects_after_add(subjects_after_add_all(subjects, added.drop_last()), added.last())
    }
}

impl Class {
    /// A fresh class starts with no associated subjects.
    pub fn new(id: ClassId, name: String, description: String) -> (class: Self)
        ensures
            class@ == (ClassView {
                id: id,
                name: name@,
                description: description@,
                subjects: Seq::empty(),
            }),
    {
        Self { id, name, description, subjects: set_new() }
    }

    pub fn id(&self) -> (id: ClassId)
        ensures
            id == self@.id,
    {
        self.id
    }

    pub fn name(&self) -> (name: &str)
        ensures
            name@ == self@.name,
    {
        self.name.as_str()
    }

    pub fn description(&self) -> (description: &str)
        ensures
            description@ == self@.description,
    {
        self.description.as_str()
    }

    /// A read-only view of the associated subject ids, in insertion order.
    pub fn subject_ids(&self) -> (subjects: &indexmap::IndexSet<SubjectId>)
        ensures
            index_set_elems(*subjects) == self@.subjects,
    {
        &self.subjects
    }

    /// Idempotent insert: associates the subject id, keeping it at its old
    /// position if it is already associated.
    pub fn add_subject(&mut self, subject_id: SubjectId)
        ensures
            final(self)@ == (ClassView {
                subjects: subjects_after_add(old(self)@.subjects, subject_id),
                ..old(self)@
            }),
    {
        set_insert(&mut self.subjects, subject_id);
    }

    /// Bulk idempotent insert: associates each id of `subject_ids` in order.
    pub fn add_subjects(&mut self, subject_ids: &Vec<SubjectId>)
        ensures
            final(self)@ == (ClassView {
                subjects: subjects_after_add_all(old(self)@.subjects, subject_ids@),
                ..old(self)@
            }),
    {
        let ghost start = self@.subjects;
        for i in 0..subject_ids.len()
            invariant
                self@.subjects == subjects_after_add_all(start, subject_ids@.take(i as int)),
                self@.id == old(self)@.id,
                self@.name == old(self)@.name,
                self@.description == old(self)@.description,
                start == old(self)@.subjects,
        {
            self.add_subject(subject_ids[i]);
            proof {
                assert(subject_ids@.take(i + 1).drop_last() =~= subject_ids@.take(i as int));
                assert(subject_ids@.take(i + 1).last() == subject_ids@[i as int]);
            }
        }
        proof {
            assert(subject_ids@.take(subject_ids@.len() as int) =~= subject_ids@);
        }
    }

    /// Idempotent removal: drops the subject id if it is associated,
    /// preserving the order of the remaining ids; a no-op otherwise.
    pub fn remove_subject(&mut self, subject_id: SubjectId)
        ensures
            final(self)@ == (ClassView {
                subjects: old(self)@.subjects.remove_value(subject_id),
                ..old(self)@
            }),
    {
        set_shift_remove(&mut self.subjects, subject_id);
    }
}

/// Adding a subject id that is not yet associated and then removing it
/// restores the subject list exactly: the two calls are inverses. (When the
/// id is already associated, the add is a no-op and the removal still drops
/// the id, so the pair is inverse only from a state without the id.)
pub proof fn lemma_add_then_remove_subject_restores(
    subjects: Seq<SubjectId>,
    subject_id: SubjectId,
)
    requires
        !subjects.contains(subject_id),
    ensures
        subjects_after_add(subjects, subject_id).remove_value(subject_id) == subjects,
{
    let added = subjects.push(subject_id);
    assert(added[subjects.len() as int] == subject_id);
    added.index_of_first_ensures(subject_id);
    let idx = added.index_of_first(subject_id)->Some_0;
    assert(forall|j: int| 0 <= j < subjects.len() ==> added[j] == subjects[j]);
    assert(idx == subjects.len() as int);
    assert(added.remove(idx) =~= subjects);
}

/// Associating the same subject id twice is the same as associating it
/// once: `add_subject` is idempotent.
pub proof fn lemma_add_subject_idempotent(subjects: Seq<SubjectId>, subject_id: SubjectId)
    ensures
        subjects_after_add(subjects_after_add(subjects, subject_id), subject_id)
            == subjects_after_add(subjects, subject_id),
{
    if !subjects.contains(subject_id) {
        assert(subjects.push(subject_id)[subjects.len() as int] == subject_id);
    }
}

} // verus!
