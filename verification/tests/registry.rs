use task_registry::{Task, TODO};

fn pairs_of(tasks: &[Task]) -> Vec<(String, String)> {
    let mut pairs: Vec<(String, String)> = tasks
        .iter()
        .map(|task| (task.id().to_string(), task.name().to_string()))
        .collect();
    pairs.sort();
    pairs
}

fn names_of(tasks: &[Task]) -> Vec<String> {
    let mut names: Vec<String> = tasks.iter().map(|task| task.name().to_string()).collect();
    names.sort();
    names
}

#[test]
fn new_registry_lists_nothing() {
    let store = TODO::new();
    assert!(store.all().is_empty());
}

#[test]
fn added_task_is_returned_and_listed() {
    let mut store = TODO::new();
    let task = store.add("buy milk".to_string());
    assert_eq!(task.name(), "buy milk");
    let listed = store.all();
    assert_eq!(listed.len(), 1);
    assert_eq!(listed[0].id(), task.id());
    assert_eq!(listed[0].name(), "buy milk");
}

#[test]
fn added_task_is_listed_exactly_once_and_was_not_listed_before() {
    let mut store = TODO::new();
    store.add("first".to_string());
    store.add("second".to_string());
    let before = pairs_of(&store.all());
    let task = store.add("third".to_string());
    let entry = (task.id().to_string(), "third".to_string());
    assert!(!before.contains(&entry));
    let after = pairs_of(&store.all());
    assert_eq!(after.iter().filter(|pair| **pair == entry).count(), 1);
    assert_eq!(after.len(), before.len() + 1);
    for pair in &before {
        assert!(after.contains(pair));
    }
}

#[test]
fn deleted_task_is_no_longer_listed() {
    let mut store = TODO::new();
    let kept = store.add("kept".to_string());
    let task = store.add("gone".to_string());
    store.delete(task.id().to_string());
    let listed = store.all();
    assert!(listed.iter().all(|other| other.id() != task.id()));
    assert_eq!(
        pairs_of(&listed),
        vec![(kept.id().to_string(), "kept".to_string())]
    );
}

#[test]
fn two_added_tasks_are_listed_in_some_order() {
    let mut store = TODO::new();
    let a = store.add("a".to_string());
    let b = store.add("b".to_string());
    let listed = store.all();
    assert_eq!(listed.len(), 2);
    assert_eq!(names_of(&listed), vec!["a".to_string(), "b".to_string()]);
    let mut expected = vec![
        (a.id().to_string(), "a".to_string()),
        (b.id().to_string(), "b".to_string()),
    ];
    expected.sort();
    assert_eq!(pairs_of(&listed), expected);
}

#[test]
fn deleting_the_added_task_empties_the_registry() {
    let mut store = TODO::new();
    let task = store.add("x".to_string());
    store.delete(task.id().to_string());
    assert!(store.all().is_empty());
}

#[test]
fn deleting_an_unknown_id_from_an_empty_registry_is_accepted() {
    let mut store = TODO::new();
    store.delete("nonexistent-id".to_string());
    assert!(store.all().is_empty());
}

#[test]
fn delete_all_after_two_adds_lists_nothing() {
    let mut store = TODO::new();
    store.add("a".to_string());
    store.add("b".to_string());
    store.delete_all();
    assert!(store.all().is_empty());
}

#[test]
fn empty_name_is_accepted() {
    let mut store = TODO::new();
    let task = store.add(String::new());
    assert_eq!(task.name(), "");
    let listed = store.all();
    assert_eq!(listed.len(), 1);
    assert_eq!(listed[0].id(), task.id());
    assert_eq!(listed[0].name(), "");
}

#[test]
fn generated_id_has_the_hyphenated_version_four_shape() {
    let mut store = TODO::new();
    for round in 0..200 {
        let task = store.add(format!("task {}", round));
        let id: Vec<char> = task.id().chars().collect();
        assert_eq!(id.len(), 36);
        for (place, c) in id.iter().enumerate() {
            if place == 8 || place == 13 || place == 18 || place == 23 {
                assert_eq!(*c, '-');
            } else {
                assert!(matches!(*c, '0'..='9' | 'a'..='f'));
            }
        }
        assert_eq!(id[14], '4');
        assert!(matches!(id[19], '8' | '9' | 'a' | 'b'));
    }
}

#[test]
fn generated_ids_differ_from_each_other() {
    let mut store = TODO::new();
    let mut ids: Vec<String> = Vec::new();
    for round in 0..1000 {
        ids.push(store.add(format!("task {}", round)).id().to_string());
    }
    ids.sort();
    ids.dedup();
    assert_eq!(ids.len(), 1000);
}

#[test]
fn three_thousand_adds_are_all_listed() {
    let mut store = TODO::new();
    let mut expected: Vec<(String, String)> = Vec::new();
    for round in 0..3000 {
        let name = format!("task {}", round);
        let task = store.add(name.clone());
        assert_eq!(task.name(), name);
        expected.push((task.id().to_string(), name));
    }
    expected.sort();
    let listed = store.all();
    assert_eq!(listed.len(), 3000);
    assert_eq!(pairs_of(&listed), expected);
}

#[test]
fn same_name_twice_gives_two_tasks() {
    let mut store = TODO::new();
    let first = store.add("again".to_string());
    let second = store.add("again".to_string());
    assert_ne!(first.id(), second.id());
    assert_eq!(names_of(&store.all()), vec!["again".to_string(), "again".to_string()]);
}

#[test]
fn add_with_id_stores_under_the_given_id() {
    let mut store = TODO::new();
    let task = store.add_with_id("id-1".to_string(), "water plants".to_string());
    assert_eq!(task.id(), "id-1");
    assert_eq!(task.name(), "water plants");
    assert_eq!(
        pairs_of(&store.all()),
        vec![("id-1".to_string(), "water plants".to_string())]
    );
}

#[test]
fn add_with_id_replaces_the_task_under_a_live_id() {
    let mut store = TODO::new();
    store.add_with_id("id-1".to_string(), "old".to_string());
    store.add_with_id("id-2".to_string(), "other".to_string());
    let task = store.add_with_id("id-1".to_string(), "new".to_string());
    assert_eq!(task.name(), "new");
    assert_eq!(
        pairs_of(&store.all()),
        vec![
            ("id-1".to_string(), "new".to_string()),
            ("id-2".to_string(), "other".to_string()),
        ]
    );
}

#[test]
fn add_with_id_accepts_empty_texts() {
    let mut store = TODO::new();
    let task = store.add_with_id(String::new(), String::new());
    assert_eq!(task.id(), "");
    assert_eq!(task.name(), "");
    assert_eq!(pairs_of(&store.all()), vec![(String::new(), String::new())]);
    store.delete(String::new());
    assert!(store.all().is_empty());
}

#[test]
fn delete_removes_only_the_task_with_that_id() {
    let mut store = TODO::new();
    store.add_with_id("id-1".to_string(), "a".to_string());
    store.add_with_id("id-2".to_string(), "b".to_string());
    store.add_with_id("id-3".to_string(), "c".to_string());
    store.delete("id-2".to_string());
    assert_eq!(
        pairs_of(&store.all()),
        vec![
            ("id-1".to_string(), "a".to_string()),
            ("id-3".to_string(), "c".to_string()),
        ]
    );
}

#[test]
fn deleting_an_id_that_is_not_live_changes_nothing() {
    let mut store = TODO::new();
    store.add_with_id("id-1".to_string(), "a".to_string());
    store.add_with_id("id-2".to_string(), "b".to_string());
    let before = pairs_of(&store.all());
    store.delete("id-9".to_string());
    store.delete("a".to_string());
    assert_eq!(pairs_of(&store.all()), before);
}

#[test]
fn deleting_twice_is_the_same_as_deleting_once() {
    let mut store = TODO::new();
    let kept = store.add("kept".to_string());
    let gone = store.add("gone".to_string());
    store.delete(gone.id().to_string());
    store.delete(gone.id().to_string());
    let listed = store.all();
    assert_eq!(listed.len(), 1);
    assert_eq!(listed[0].id(), kept.id());
    assert_eq!(listed[0].name(), "kept");
}

#[test]
fn delete_all_on_an_empty_registry_is_accepted() {
    let mut store = TODO::new();
    store.delete_all();
    assert!(store.all().is_empty());
}

#[test]
fn registry_is_usable_after_delete_all() {
    let mut store = TODO::new();
    for round in 0..50 {
        store.add(format!("task {}", round));
    }
    store.delete_all();
    assert!(store.all().is_empty());
    let task = store.add("afterwards".to_string());
    let listed = store.all();
    assert_eq!(listed.len(), 1);
    assert_eq!(listed[0].id(), task.id());
}

#[test]
fn listing_is_a_snapshot() {
    let mut store = TODO::new();
    store.add_with_id("id-1".to_string(), "a".to_string());
    let snapshot = store.all();
    store.add_with_id("id-2".to_string(), "b".to_string());
    store.delete("id-1".to_string());
    assert_eq!(pairs_of(&snapshot), vec![("id-1".to_string(), "a".to_string())]);
    assert_eq!(pairs_of(&store.all()), vec![("id-2".to_string(), "b".to_string())]);
}

#[test]
fn listing_leaves_the_registry_as_it_is() {
    let mut store = TODO::new();
    store.add_with_id("id-1".to_string(), "a".to_string());
    store.add_with_id("id-2".to_string(), "b".to_string());
    let first = pairs_of(&store.all());
    let second = pairs_of(&store.all());
    assert_eq!(first, second);
    assert_eq!(first.len(), 2);
}

#[test]
fn cloned_registry_holds_the_same_tasks_and_lives_apart() {
    let mut store = TODO::new();
    store.add_with_id("id-1".to_string(), "a".to_string());
    store.add_with_id("id-2".to_string(), "b".to_string());
    let mut copy = store.clone();
    assert_eq!(pairs_of(&copy.all()), pairs_of(&store.all()));
    copy.delete("id-1".to_string());
    copy.add_with_id("id-3".to_string(), "c".to_string());
    assert_eq!(
        pairs_of(&store.all()),
        vec![
            ("id-1".to_string(), "a".to_string()),
            ("id-2".to_string(), "b".to_string()),
        ]
    );
    assert_eq!(
        pairs_of(&copy.all()),
        vec![
            ("id-2".to_string(), "b".to_string()),
            ("id-3".to_string(), "c".to_string()),
        ]
    );
}

#[test]
fn task_keeps_what_it_was_built_with() {
    let task = Task::new("some id".to_string(), "some name".to_string());
    assert_eq!(task.id(), "some id");
    assert_eq!(task.name(), "some name");
    let copy = task.clone();
    assert_eq!(copy.id(), "some id");
    assert_eq!(copy.name(), "some name");
}

#[test]
fn task_debug_text_shows_both_fields() {
    let task = Task::new("i".to_string(), "n".to_string());
    assert_eq!(format!("{:?}", task), "Task { id: \"i\", name: \"n\" }");
}
