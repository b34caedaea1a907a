use todo_list::codec::{from_chars, load_or_default, to_chars};
use todo_list::error::TodoError;
use todo_list::task::{Task, TaskStatus};
use todo_list::task_list::TaskList;

fn chars_of(s: &str) -> Vec<char> {
    s.chars().collect()
}

fn string_of(v: &[char]) -> String {
    v.iter().collect()
}

fn sample_task(id: usize, description: &str, status: TaskStatus) -> Task {
    Task {
        id,
        description: description.to_string(),
        status,
        created_at: "2025-01-02 03:04:05".to_string(),
        completed_at: None,
    }
}

#[test]
fn writer_produces_pretty_document() {
    let list = TaskList {
        name: "Task List".to_string(),
        tasks: vec![sample_task(1, "Buy milk", TaskStatus::Pending)],
        next_id: 2,
    };
    let expected = "{\n  \"name\": \"Task List\",\n  \"tasks\": [\n    {\n      \"id\": 1,\n      \"description\": \"Buy milk\",\n      \"status\": \"Pending\",\n      \"created_at\": \"2025-01-02 03:04:05\",\n      \"completed_at\": null\n    }\n  ],\n  \"next_id\": 2\n}";
    assert_eq!(string_of(&to_chars(&list)), expected);
}

#[test]
fn writer_renders_empty_list() {
    let list = TaskList::new();
    let expected = "{\n  \"name\": \"Task List\",\n  \"tasks\": [],\n  \"next_id\": 1\n}";
    assert_eq!(string_of(&to_chars(&list)), expected);
}

#[test]
fn round_trip_preserves_every_field() {
    let mut t2 = sample_task(2, "Walk dog", TaskStatus::Completed);
    t2.completed_at = Some("2025-03-04 05:06:07".to_string());
    let list = TaskList {
        name: "mine".to_string(),
        tasks: vec![
            sample_task(1, "Buy milk", TaskStatus::Pending),
            t2,
            sample_task(5, "Nap", TaskStatus::Suspended),
        ],
        next_id: 6,
    };
    let loaded = from_chars(&to_chars(&list)).unwrap();
    assert_eq!(loaded, list);
}

#[test]
fn round_trip_preserves_escapes_and_unicode() {
    let list = TaskList {
        name: "a\"b\\c".to_string(),
        tasks: vec![sample_task(
            1,
            "tab\there \"quoted\" back\\slash\nnewline \u{0001}ctl 中文 😀",
            TaskStatus::Pending,
        )],
        next_id: 2,
    };
    let loaded = from_chars(&to_chars(&list)).unwrap();
    assert_eq!(loaded, list);
}

#[test]
fn round_trip_after_mutations() {
    let mut list = TaskList::new();
    list.add_task("one".to_string());
    list.add_task("two".to_string());
    list.complete_task(1);
    list.delete_task(2);
    list.add_task("three".to_string());
    let loaded = from_chars(&to_chars(&list)).unwrap();
    assert_eq!(loaded, list);
}

#[test]
fn load_without_backing_file_is_fresh_and_no_error() {
    let loaded = load_or_default(None).unwrap();
    assert_eq!(loaded.next_id, 1);
    assert!(loaded.get_tasks().is_empty());
    assert_eq!(loaded.name, "Task List");
}

#[test]
fn load_existing_content_goes_through_decoder() {
    let doc = chars_of("{\"name\": \"n\", \"tasks\": [], \"next_id\": 1}");
    let loaded = load_or_default(Some(&doc)).unwrap();
    assert_eq!(loaded.name, "n");
    let bad = chars_of("not json");
    assert!(matches!(
        load_or_default(Some(&bad)),
        Err(TodoError::JsonError(_))
    ));
}

#[test]
fn missing_tasks_field_is_a_decode_error() {
    let doc = chars_of("{\"name\": \"Task List\", \"next_id\": 1}");
    assert!(matches!(from_chars(&doc), Err(TodoError::JsonError(_))));
}

#[test]
fn unknown_status_is_a_decode_error() {
    let doc = chars_of(
        "{\"name\": \"n\", \"tasks\": [{\"id\": 1, \"description\": \"d\", \"status\": \"Unknown\", \"created_at\": \"t\", \"completed_at\": null}], \"next_id\": 2}",
    );
    assert!(matches!(from_chars(&doc), Err(TodoError::JsonError(_))));
}

#[test]
fn reader_accepts_any_field_order_and_whitespace() {
    let doc = chars_of(
        "  {\"next_id\":7,\"tasks\":[{\"status\":\"Suspended\",\"created_at\":\"t\",\"id\":3,\"description\":\"d\"}],\"name\":\"n\"}  ",
    );
    let loaded = from_chars(&doc).unwrap();
    assert_eq!(loaded.next_id, 7);
    assert_eq!(loaded.name, "n");
    assert_eq!(loaded.tasks.len(), 1);
    assert_eq!(loaded.tasks[0].id, 3);
    assert_eq!(loaded.tasks[0].status, TaskStatus::Suspended);
    assert_eq!(loaded.tasks[0].completed_at, None);
}

#[test]
fn reader_accepts_missing_completed_at_as_null() {
    let doc = chars_of(
        "{\"name\":\"n\",\"tasks\":[{\"id\":1,\"description\":\"d\",\"status\":\"Pending\",\"created_at\":\"t\"}],\"next_id\":2}",
    );
    let loaded = from_chars(&doc).unwrap();
    assert_eq!(loaded.tasks[0].completed_at, None);
}

#[test]
fn reader_accepts_completed_at_string() {
    let doc = chars_of(
        "{\"name\":\"n\",\"tasks\":[{\"id\":1,\"description\":\"d\",\"status\":\"Completed\",\"created_at\":\"t\",\"completed_at\":\"u\"}],\"next_id\":2}",
    );
    let loaded = from_chars(&doc).unwrap();
    assert_eq!(loaded.tasks[0].completed_at, Some("u".to_string()));
}

#[test]
fn reader_decodes_standard_escapes() {
    let doc = chars_of(
        "{\"name\":\"a\\u0041\\n\\t\\\\\\\"\\/\",\"tasks\":[],\"next_id\":1}",
    );
    let loaded = from_chars(&doc).unwrap();
    assert_eq!(loaded.name, "aA\n\t\\\"/");
}

#[test]
fn reader_decodes_surrogate_pairs() {
    let doc = chars_of("{\"name\":\"\\uD83D\\uDE00\",\"tasks\":[],\"next_id\":1}");
    let loaded = from_chars(&doc).unwrap();
    assert_eq!(loaded.name, "😀");
}

#[test]
fn lone_surrogate_is_a_decode_error() {
    let doc = chars_of("{\"name\":\"\\uD83D x\",\"tasks\":[],\"next_id\":1}");
    assert!(matches!(from_chars(&doc), Err(TodoError::JsonError(_))));
}

#[test]
fn duplicate_field_is_a_decode_error() {
    let doc = chars_of("{\"name\":\"a\",\"name\":\"b\",\"tasks\":[],\"next_id\":1}");
    assert!(matches!(from_chars(&doc), Err(TodoError::JsonError(_))));
}

#[test]
fn unknown_field_is_a_decode_error() {
    let doc = chars_of("{\"name\":\"a\",\"tasks\":[],\"next_id\":1,\"extra\":0}");
    assert!(matches!(from_chars(&doc), Err(TodoError::JsonError(_))));
}

#[test]
fn trailing_content_is_a_decode_error() {
    let doc = chars_of("{\"name\":\"a\",\"tasks\":[],\"next_id\":1} x");
    assert!(matches!(from_chars(&doc), Err(TodoError::JsonError(_))));
}

#[test]
fn oversized_number_is_a_decode_error() {
    let doc = chars_of(
        "{\"name\":\"a\",\"tasks\":[],\"next_id\":99999999999999999999999999}",
    );
    assert!(matches!(from_chars(&doc), Err(TodoError::JsonError(_))));
}

#[test]
fn raw_control_character_is_a_decode_error() {
    let doc = chars_of("{\"name\":\"a\u{0001}b\",\"tasks\":[],\"next_id\":1}");
    assert!(matches!(from_chars(&doc), Err(TodoError::JsonError(_))));
}

#[test]
fn empty_input_is_a_decode_error() {
    assert!(matches!(
        from_chars(&chars_of("")),
        Err(TodoError::JsonError(_))
    ));
    assert!(matches!(
        from_chars(&chars_of("   ")),
        Err(TodoError::JsonError(_))
    ));
}

#[test]
fn empty_task_object_is_a_decode_error() {
    let doc = chars_of("{\"name\":\"a\",\"tasks\":[{}],\"next_id\":1}");
    assert!(matches!(from_chars(&doc), Err(TodoError::JsonError(_))));
}

#[test]
fn writer_escapes_control_characters() {
    let list = TaskList {
        name: "a\u{0001}".to_string(),
        tasks: vec![],
        next_id: 1,
    };
    let out = string_of(&to_chars(&list));
    assert_eq!(out, "{\n  \"name\": \"a\\u0001\",\n  \"tasks\": [],\n  \"next_id\": 1\n}");
}
