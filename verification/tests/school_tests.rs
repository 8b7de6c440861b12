use school_registry::{Class, Schedule, School, Teacher};

#[test]
fn school_can_be_created() {
    let school = School::new(1, "Test School".to_string());
    assert_eq!(school.id(), 1);
}

#[test]
fn school_can_get_next_teacher_id() {
    let mut school = School::new(1, "Test School".to_string());
    assert_eq!(school.get_next_teacher_id(), 1);
    assert_eq!(school.get_next_teacher_id(), 2);
}

#[test]
fn school_can_get_next_class_id() {
    let mut school = School::new(1, "Test School".to_string());
    assert_eq!(school.get_next_class_id(), 1);
    assert_eq!(school.get_next_class_id(), 2);
}

#[test]
fn school_can_get_next_schedule_id() {
    let mut school = School::new(1, "Test School".to_string());
    assert_eq!(school.get_next_schedule_id(), 1);
    assert_eq!(school.get_next_schedule_id(), 2);
}

#[test]
fn class_can_be_created() {
    let mut school = School::new(1, "Test School".to_string());
    let class_id = school.get_next_class_id();
    let class = Class::new(
        class_id,
        "Test Class".to_string(),
        "Test Description".to_string(),
    );
    let expected_class = class.clone();
    school.add_class(class);
    assert_eq!(school.get_class(class_id), Some(&expected_class));
}

#[test]
fn class_can_be_get_by_id() {
    let mut school = School::new(1, "Test School".to_string());
    let class_id = school.get_next_class_id();
    let class = Class::new(
        class_id,
        "Test Class".to_string(),
        "Test Description".to_string(),
    );
    school.add_class(class.clone());
    assert_eq!(school.get_class(class_id), Some(&class));
}

#[test]
fn class_can_be_removed() {
    let mut school = School::new(1, "Test School".to_string());
    let class_id = school.get_next_class_id();
    let class = Class::new(
        class_id,
        "Test Class".to_string(),
        "Test Description".to_string(),
    );
    school.add_class(class.clone());
    school.remove_class(class_id);
    assert_eq!(school.get_class(class_id), None);
}

#[test]
fn teacher_can_be_created() {
    let mut school = School::new(1, "Test School".to_string());
    let teacher_id = school.get_next_teacher_id();
    let teacher = Teacher::new(teacher_id, "Test Teacher".to_string(), 1);
    let expected_teacher = teacher.clone();
    school.add_teacher(teacher);
    assert_eq!(school.get_teacher(teacher_id), Some(&expected_teacher));
}

#[test]
fn teacher_can_be_get_by_id() {
    let mut school = School::new(1, "Test School".to_string());
    let teacher_id = school.get_next_teacher_id();
    let teacher = Teacher::new(teacher_id, "Test Teacher".to_string(), 1);
    let expected_teacher = teacher.clone();
    school.add_teacher(teacher);
    assert_eq!(school.get_teacher(teacher_id), Some(&expected_teacher));
}

#[test]
fn schedule_can_be_created() {
    let mut school = School::new(1, "Test School".to_string());
    let schedule_id = school.get_next_schedule_id();
    let schedule = Schedule::new(schedule_id, "Test Schedule".to_string(), 1);
    let expected_schedule = schedule.clone();
    school.add_schedule(schedule);
    assert_eq!(school.get_schedule(schedule_id), Some(&expected_schedule));
}
