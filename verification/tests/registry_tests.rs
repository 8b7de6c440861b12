use school_registry::{Class, Schedule, School, Subject, Teacher};

#[test]
fn class_ids_count_up_from_one() {
    let mut school = School::new(1, "S".to_string());
    for expected in 1..=5u32 {
        assert_eq!(school.get_next_class_id(), expected);
    }
}

#[test]
fn counters_are_independent_per_kind() {
    let mut school = School::new(1, "S".to_string());
    assert_eq!(school.get_next_class_id(), 1);
    assert_eq!(school.get_next_class_id(), 2);
    assert_eq!(school.get_next_teacher_id(), 1);
    assert_eq!(school.get_next_schedule_id(), 1);
}

#[test]
fn next_class_id_peeks_without_advancing() {
    let mut school = School::new(1, "S".to_string());
    assert_eq!(school.next_class_id(), 1);
    assert_eq!(school.next_class_id(), 1);
    assert_eq!(school.get_next_class_id(), 1);
    assert_eq!(school.next_class_id(), 2);
}

#[test]
fn teacher_ids_then_lookup_scenario() {
    let mut school = School::new(1, "Test School".to_string());
    assert_eq!(school.get_next_teacher_id(), 1);
    assert_eq!(school.get_next_teacher_id(), 2);
    let teacher = Teacher::new(1, "A".to_string(), 5);
    school.add_teacher(teacher.clone());
    assert_eq!(school.get_teacher(1), Some(&teacher));
}

#[test]
fn lookups_on_fresh_school_signal_absence() {
    let school = School::new(1, "S".to_string());
    assert_eq!(school.get_teacher(1), None);
    assert_eq!(school.get_class(1), None);
    assert_eq!(school.get_schedule(1), None);
}

#[test]
fn adding_under_same_id_overwrites_silently() {
    let mut school = School::new(1, "S".to_string());
    school.add_class(Class::new(1, "First".to_string(), "D1".to_string()));
    school.add_class(Class::new(1, "Second".to_string(), "D2".to_string()));
    let got = school.get_class(1).expect("class under id 1");
    assert_eq!(got.name(), "Second");
}

#[test]
fn removing_an_absent_id_is_a_noop() {
    let mut school = School::new(1, "S".to_string());
    school.add_class(Class::new(1, "C".to_string(), "D".to_string()));
    school.remove_class(99);
    school.remove_teacher(99);
    school.remove_schedule(99);
    assert!(school.get_class(1).is_some());
}

#[test]
fn removing_one_class_keeps_the_others() {
    let mut school = School::new(1, "S".to_string());
    school.add_class(Class::new(1, "C1".to_string(), "D1".to_string()));
    school.add_class(Class::new(2, "C2".to_string(), "D2".to_string()));
    school.remove_class(1);
    assert_eq!(school.get_class(1), None);
    assert!(school.get_class(2).is_some());
}

#[test]
fn school_name_is_kept() {
    let school = School::new(3, "Evergreen".to_string());
    assert_eq!(school.name(), "Evergreen");
    assert_eq!(school.id(), 3);
}

#[test]
fn subject_accessors_ignore_class_reference() {
    let subject = Subject::new(4, "Math".to_string(), 77);
    assert_eq!(subject.id(), 4);
    assert_eq!(subject.name(), "Math");
}

#[test]
fn teacher_accessors_return_fields() {
    let teacher = Teacher::new(2, "B".to_string(), 9);
    assert_eq!(teacher.id(), 2);
    assert_eq!(teacher.name(), "B");
    assert_eq!(*teacher.subject_id(), 9);
}

#[test]
fn schedule_accessors_return_fields() {
    let schedule = Schedule::new(6, "Morning".to_string(), 2);
    assert_eq!(schedule.id(), 6);
    assert_eq!(schedule.name(), "Morning");
    assert_eq!(schedule.get_class_id(), 2);
}

#[test]
fn no_cascade_from_class_removal() {
    let mut school = School::new(1, "S".to_string());
    school.add_class(Class::new(1, "C".to_string(), "D".to_string()));
    school.add_schedule(Schedule::new(1, "Sch".to_string(), 1));
    school.remove_class(1);
    assert!(school.get_schedule(1).is_some());
}

#[test]
fn registries_enumerate_in_insertion_order() {
    let mut school = School::new(1, "S".to_string());
    school.add_class(Class::new(3, "C3".to_string(), "D3".to_string()));
    school.add_class(Class::new(1, "C1".to_string(), "D1".to_string()));
    school.add_class(Class::new(2, "C2".to_string(), "D2".to_string()));
    let ids: Vec<u32> = school.classes().iter().map(|c| c.id()).collect();
    assert_eq!(ids, vec![3, 1, 2]);
    school.add_teacher(Teacher::new(2, "B".to_string(), 9));
    school.add_teacher(Teacher::new(1, "A".to_string(), 5));
    let names: Vec<&str> = school.teachers().iter().map(|t| t.name()).collect();
    assert_eq!(names, vec!["B", "A"]);
}

#[test]
fn removal_keeps_relative_order_of_remaining_entries() {
    let mut school = School::new(1, "S".to_string());
    school.add_schedule(Schedule::new(1, "S1".to_string(), 1));
    school.add_schedule(Schedule::new(2, "S2".to_string(), 1));
    school.add_schedule(Schedule::new(3, "S3".to_string(), 1));
    school.remove_schedule(2);
    let ids: Vec<u32> = school.schedules().iter().map(|s| s.id()).collect();
    assert_eq!(ids, vec![1, 3]);
}

#[test]
fn overwriting_keeps_the_entry_in_its_place() {
    let mut school = School::new(1, "S".to_string());
    school.add_class(Class::new(1, "First".to_string(), "D1".to_string()));
    school.add_class(Class::new(2, "Other".to_string(), "D2".to_string()));
    school.add_class(Class::new(1, "Replaced".to_string(), "D1".to_string()));
    let names: Vec<&str> = school.classes().iter().map(|c| c.name()).collect();
    assert_eq!(names, vec!["Replaced", "Other"]);
}

#[test]
fn enumeration_of_a_fresh_school_is_empty() {
    let school = School::new(1, "S".to_string());
    assert!(school.teachers().is_empty());
    assert!(school.classes().is_empty());
    assert!(school.schedules().is_empty());
}
