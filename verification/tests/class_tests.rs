use school_registry::Class;

#[test]
fn subject_can_be_added_to_class() {
    let mut class = Class::new(1, "Test Class".to_string(), "Test Description".to_string());
    class.add_subject(1);
    assert_eq!(class.subject_ids().len(), 1);
    assert!(class.subject_ids().contains(&1));
}

#[test]
fn subject_can_be_removed_from_class() {
    let mut class = Class::new(1, "Test Class".to_string(), "Test Description".to_string());
    class.add_subject(1);
    class.remove_subject(1);
    assert_eq!(class.subject_ids().len(), 0);
    assert!(!class.subject_ids().contains(&1));
}

#[test]
fn new_class_has_no_subjects() {
    let class = Class::new(1, "C".to_string(), "D".to_string());
    assert_eq!(class.subject_ids().len(), 0);
}

#[test]
fn class_accessors_return_fields() {
    let class = Class::new(9, "Algebra".to_string(), "Linear equations".to_string());
    assert_eq!(class.id(), 9);
    assert_eq!(class.name(), "Algebra");
    assert_eq!(class.description(), "Linear equations");
}

#[test]
fn add_subject_twice_keeps_len_one() {
    let mut class = Class::new(1, "C".to_string(), "D".to_string());
    class.add_subject(5);
    class.add_subject(5);
    assert_eq!(class.subject_ids().len(), 1);
    assert!(class.subject_ids().contains(&5));
}

#[test]
fn add_then_remove_subject_restores_subject_ids() {
    let mut class = Class::new(1, "C".to_string(), "D".to_string());
    class.add_subject(3);
    let before: Vec<u32> = class.subject_ids().iter().copied().collect();
    class.add_subject(7);
    class.remove_subject(7);
    let after: Vec<u32> = class.subject_ids().iter().copied().collect();
    assert_eq!(before, after);
}

#[test]
fn remove_absent_subject_is_a_noop() {
    let mut class = Class::new(1, "C".to_string(), "D".to_string());
    class.add_subject(3);
    class.remove_subject(9);
    let ids: Vec<u32> = class.subject_ids().iter().copied().collect();
    assert_eq!(ids, vec![3]);
}

#[test]
fn bulk_add_then_remove_keeps_insertion_order() {
    let mut class = Class::new(1, "C".to_string(), "D".to_string());
    class.add_subjects(&vec![3, 4, 5]);
    let ids: Vec<u32> = class.subject_ids().iter().copied().collect();
    assert_eq!(ids, vec![3, 4, 5]);
    class.remove_subject(4);
    let ids: Vec<u32> = class.subject_ids().iter().copied().collect();
    assert_eq!(ids, vec![3, 5]);
}

#[test]
fn bulk_add_collapses_duplicates() {
    let mut class = Class::new(1, "C".to_string(), "D".to_string());
    class.add_subjects(&vec![3, 4, 3, 5, 4]);
    let ids: Vec<u32> = class.subject_ids().iter().copied().collect();
    assert_eq!(ids, vec![3, 4, 5]);
}
