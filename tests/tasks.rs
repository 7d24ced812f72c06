use task_tracker::task::{
    Message as TaskMessage, Outcome, RecordError, Stamp, State, Status, Task, TaskRecord,
    TaskView,
};
use task_tracker::task_tracker::{Effect, Message, TaskTracker};
use task_tracker::text::{contains, is_blank_text, same_text, trim};

fn at(secs: i64) -> Stamp {
    Stamp { secs, nanos: 0 }
}

fn record_to_json(r: &TaskRecord) -> serde_json::Value {
    let mut m = serde_json::Map::new();
    m.insert(
        "id".to_string(),
        serde_json::Value::String(uuid::Uuid::from_u128(r.id).to_string()),
    );
    m.insert("title".to_string(), serde_json::Value::String(r.title.clone()));
    m.insert("description".to_string(), serde_json::Value::String(r.description.clone()));
    m.insert("status".to_string(), serde_json::Value::String(r.status.clone()));
    let c = chrono::DateTime::from_timestamp(r.created_at.secs, r.created_at.nanos).unwrap();
    let d = chrono::DateTime::from_timestamp(r.modified_at.secs, r.modified_at.nanos).unwrap();
    m.insert("created_at".to_string(), serde_json::to_value(c.naive_utc()).unwrap());
    m.insert("modified_at".to_string(), serde_json::to_value(d.naive_utc()).unwrap());
    serde_json::Value::Object(m)
}

fn json_to_record(v: &serde_json::Value) -> TaskRecord {
    let text = |k: &str| v.get(k).unwrap().as_str().unwrap().to_string();
    let stamp = |k: &str| {
        let n: chrono::NaiveDateTime = serde_json::from_value(v.get(k).unwrap().clone()).unwrap();
        let u = n.and_utc();
        Stamp { secs: u.timestamp(), nanos: u.timestamp_subsec_nanos() }
    };
    TaskRecord {
        id: uuid::Uuid::parse_str(&text("id")).unwrap().as_u128(),
        title: text("title"),
        description: text("description"),
        status: text("status"),
        created_at: stamp("created_at"),
        modified_at: stamp("modified_at"),
    }
}

fn same_task(a: &Task, b: &Task) -> bool {
    a.id() == b.id()
        && a.title == b.title
        && a.description == b.description
        && a.status == b.status
        && a.created_at() == b.created_at()
        && a.modified_at() == b.modified_at()
}

#[test]
fn serialize_deserialize_task() {
    let task = Task::new("Test", "Test Serialize");

    let ser = serde_json::to_string_pretty(&record_to_json(&task.to_record())).unwrap();

    let des = serde_json::from_str::<serde_json::Value>(ser.as_str())
        .ok()
        .and_then(|v| Task::from_record(&json_to_record(&v)).ok())
        .unwrap_or(Task::new("Error", ""));

    assert!(same_task(&task, &des));
}

#[test]
fn record_round_trip_keeps_every_field() {
    let mut t = Task::with_id_at(7, "a", "b", Stamp { secs: 10, nanos: 5 });
    t.modify_at(None, None, Some(Status::InProgress), Stamp { secs: 12, nanos: 1 });
    let r = t.to_record();
    assert_eq!(r.status, "in-progress");
    let back = Task::from_record(&r).unwrap();
    assert!(same_task(&t, &back));
}

#[test]
fn record_errors() {
    let good = Task::with_id_at(1, "t", "d", at(5)).to_record();
    let mut bad_status = Task::with_id_at(1, "t", "d", at(5)).to_record();
    bad_status.status = "Done".to_string();
    assert_eq!(Task::from_record(&bad_status).err(), Some(RecordError::UnknownStatus));
    let mut bad_stamp = Task::with_id_at(1, "t", "d", at(5)).to_record();
    bad_stamp.modified_at = Stamp { secs: 6, nanos: 2_000_000_000 };
    assert_eq!(Task::from_record(&bad_stamp).err(), Some(RecordError::InvalidStamp));
    let mut backwards = Task::with_id_at(1, "t", "d", at(5)).to_record();
    backwards.modified_at = at(4);
    assert_eq!(Task::from_record(&backwards).err(), Some(RecordError::ModifiedBeforeCreated));
    assert!(Task::from_record(&good).is_ok());
    let all = vec![good, bad_status, backwards];
    assert_eq!(TaskTracker::from_records(&all).err(), Some(RecordError::UnknownStatus));
}

#[test]
fn status_codes_and_labels() {
    for s in Status::all() {
        assert_eq!(Status::from_code(s.code()), Some(s));
    }
    assert_eq!(Status::Done.code(), "done");
    assert_eq!(Status::InProgress.code(), "in-progress");
    assert_eq!(Status::ToDo.code(), "to-do");
    assert_eq!(Status::from_code("todo"), None);
    assert_eq!(Status::Done.to_string(), "Terminada\n");
    assert_eq!(Status::InProgress.to_string(), "En progreso\n");
    assert_eq!(Status::ToDo.to_string(), "Pendiente\n");
}

#[test]
fn text_helpers() {
    assert_eq!(trim("  a b \n"), "a b");
    assert_eq!(trim("\u{3000}x\u{a0}"), "x");
    assert_eq!(trim("   "), "");
    assert!(is_blank_text(""));
    assert!(is_blank_text(" \t\r\n"));
    assert!(!is_blank_text(" x "));
    assert!(contains("Buy milk", "milk"));
    assert!(contains("Buy milk", ""));
    assert!(!contains("Buy milk", "Milk"));
    assert!(!contains("mil", "milk"));
    assert!(same_text("añ", "añ"));
    assert!(!same_text("a", "ab"));
}

#[test]
fn create_rejects_blank_input() {
    let mut t = TaskTracker::new(Vec::new());
    assert!(!t.create_task_at("", "x", 1, at(1)));
    assert!(!t.create_task_at("x", "", 1, at(1)));
    assert!(!t.create_task_at("  ", "  ", 1, at(1)));
    assert!(!t.create_task("", "x"));
    assert_eq!(t.tasks.len(), 0);
}

#[test]
fn create_appends_a_todo_task() {
    let mut t = TaskTracker::new(Vec::new());
    assert!(t.create_task("Report", "Write report"));
    assert_eq!(t.tasks.len(), 1);
    let task = t.tasks[0].get_task();
    assert_eq!(task.title, "Report");
    assert_eq!(task.status, Status::ToDo);
    assert_eq!(task.created_at(), task.modified_at());
    assert!(task.created_at().nanos < 2_000_000_000);
    assert_eq!(t.tasks[0].state, State::Static);
}

#[test]
fn fresh_tasks_get_distinct_ids() {
    let a = Task::new("a", "b");
    let b = Task::new("a", "b");
    assert_ne!(a.id(), b.id());
    assert_ne!(a.id(), 0);
}

#[test]
fn delete_of_absent_id_changes_nothing() {
    let mut t = TaskTracker::new(Vec::new());
    t.add_task_at("a".to_string(), "b".to_string(), 1, at(1));
    t.add_task_at("c".to_string(), "d".to_string(), 2, at(2));
    t.remove_task(99);
    assert_eq!(t.tasks.len(), 2);
    assert_eq!(t.tasks[0].get_task().id(), 1);
    assert_eq!(t.tasks[1].get_task().id(), 2);
    t.remove_task(1);
    t.remove_task(1);
    assert_eq!(t.tasks.len(), 1);
    assert_eq!(t.tasks[0].get_task().id(), 2);
}

#[test]
fn modify_with_no_fields_touches() {
    let mut task = Task::with_id_at(1, "t", "d", at(10));
    task.modify_at(None, None, None, at(20));
    assert_eq!(task.modified_at(), at(20));
    assert_eq!(task.created_at(), at(10));
    assert_eq!(task.title, "t");
    task.modify_at(None, None, None, at(15));
    assert_eq!(task.modified_at(), at(20));
    let before = task.modified_at();
    task.modify(None, None, None);
    assert!(before.le(&task.modified_at()));
    task.modified();
    assert!(before.le(&task.modified_at()));
}

#[test]
fn setters_leave_the_stamp() {
    let mut task = Task::with_id_at(1, "t", "d", at(10));
    task.set_title("T".to_string());
    task.set_description("D".to_string());
    task.set_status(Status::Done);
    assert_eq!(task.title, "T");
    assert_eq!(task.description, "D");
    assert_eq!(task.status, Status::Done);
    assert_eq!(task.modified_at(), at(10));
    task.touch(at(11));
    assert_eq!(task.modified_at(), at(11));
}

fn three_tasks() -> TaskTracker {
    let mut t = TaskTracker::new(Vec::new());
    t.add_task_at("Buy milk".to_string(), "x".to_string(), 1, at(1));
    t.add_task_at("Buy milk".to_string(), "y".to_string(), 2, at(2));
    t.add_task_at("Clean".to_string(), "z".to_string(), 3, at(3));
    t.update_task_at(2, None, None, Some(Status::Done), at(4));
    t
}

#[test]
fn filter_composition() {
    let mut t = three_tasks();
    t.update_at(Message::SetQueryText("milk".to_string()), 0, at(5));
    t.update_at(Message::SetQueryStatus(Some(Status::ToDo)), 0, at(5));
    let ids: Vec<u128> = t.filtered_tasks().iter().map(|v| v.get_task().id()).collect();
    assert_eq!(ids, vec![1]);
    t.update_at(Message::SetQueryText(String::new()), 0, at(5));
    t.update_at(Message::SetQueryStatus(None), 0, at(5));
    let ids: Vec<u128> = t.filtered_tasks().iter().map(|v| v.get_task().id()).collect();
    assert_eq!(ids, vec![1, 2, 3]);
}

#[test]
fn queries() {
    let t = three_tasks();
    let ids = |v: Vec<&Task>| v.iter().map(|x| x.id()).collect::<Vec<u128>>();
    assert_eq!(ids(t.get_tasks()), vec![1, 2, 3]);
    assert_eq!(ids(t.get_tasks_by_date(at(2))), vec![2]);
    assert_eq!(ids(t.get_tasks_by_date_range(at(2), at(3))), vec![2, 3]);
    assert_eq!(ids(t.get_tasks_by_date_range(at(4), at(9))), Vec::<u128>::new());
    assert_eq!(ids(t.by_title_or_description("z")), vec![3]);
    assert_eq!(ids(t.by_title_or_description("Buy")), vec![1, 2]);
    let done: Vec<u128> = t.by_status(Status::Done).iter().map(|v| v.get_task().id()).collect();
    assert_eq!(done, vec![2]);
    assert_eq!(t.get_task(3).map(|x| x.title.clone()), Some("Clean".to_string()));
    assert!(t.get_task(9).is_none());
    assert_eq!(t.position(3), Some(2));
}

#[test]
fn update_of_absent_id_changes_nothing() {
    let mut t = three_tasks();
    assert!(!t.update_task_at(9, Some("n".to_string()), None, None, at(9)));
    assert_eq!(t.get_task(1).unwrap().modified_at(), at(1));
    assert!(t.update_task(1, Some("n".to_string()), None, None));
    assert_eq!(t.get_task(1).unwrap().title, "n");
}

#[test]
fn edit_diff_semantics() {
    let mut v = TaskView::from_task(Task::with_id_at(1, "X", "Y", at(1)));
    assert_eq!(v.update_at(TaskMessage::ToggleState, at(2)), Outcome::Idle);
    assert_eq!(v.state, State::Edit);
    v.update_at(TaskMessage::SetTitle(String::new()), at(2));
    v.update_at(TaskMessage::SetDescription("Z".to_string()), at(2));
    let (title, description, status) = v.accept_diff();
    assert_eq!(title, None);
    assert_eq!(description, Some("Z".to_string()));
    assert_eq!(status, None);
    assert_eq!(v.update_at(TaskMessage::Accept, at(3)), Outcome::Persist);
    let task = v.get_task();
    assert_eq!(task.title, "X");
    assert_eq!(task.description, "Z");
    assert_eq!(task.status, Status::ToDo);
    assert_eq!(task.modified_at(), at(3));
    assert_eq!(v.state, State::Static);
}

#[test]
fn cancel_drops_drafts() {
    let mut v = TaskView::from_task(Task::with_id_at(1, "X", "Y", at(1)));
    v.update_at(TaskMessage::ToggleState, at(2));
    v.update_at(TaskMessage::SetTitle("W".to_string()), at(2));
    v.update_at(TaskMessage::SetStatus(Status::Done), at(2));
    v.update_at(TaskMessage::ToggleState, at(2));
    assert_eq!(v.state, State::Static);
    assert_eq!(v.fields.title, "X");
    assert_eq!(v.get_task().title, "X");
    assert_eq!(v.update_at(TaskMessage::Accept, at(3)), Outcome::Idle);
    assert_eq!(v.get_task().modified_at(), at(1));
    assert_eq!(v.update_at(TaskMessage::Delete(1), at(3)), Outcome::Remove(1));
    v.get_task_mut().set_title("Q".to_string());
    assert_eq!(v.get_task().title, "Q");
}

#[test]
fn end_to_end_scenario() {
    let mut t = TaskTracker::new(Vec::new());
    let e = t.update_at(
        Message::Create("Report".to_string(), "Write report".to_string()),
        42,
        at(100),
    );
    assert_eq!(e, Effect::Save);
    assert_eq!(t.tasks.len(), 1);
    assert_eq!(t.tasks[0].get_task().status, Status::ToDo);
    let saved = t.to_records();
    assert_eq!(saved.len(), 1);
    assert_eq!(saved[0].id, 42);
    assert_eq!(saved[0].status, "to-do");

    let e = t.update_at(
        Message::TaskMessage(
            42,
            TaskMessage::Modify { title: None, description: None, status: Some(Status::Done) },
        ),
        0,
        at(200),
    );
    assert_eq!(e, Effect::Save);
    assert_eq!(t.tasks.len(), 1);
    assert_eq!(t.tasks[0].get_task().status, Status::Done);
    assert_eq!(t.tasks[0].get_task().modified_at(), at(200));
    let saved = t.to_records();
    assert_eq!(saved[0].status, "done");
    let reloaded = TaskTracker::from_records(&saved).unwrap();
    assert!(same_task(reloaded.tasks[0].get_task(), t.tasks[0].get_task()));

    assert_eq!(t.update_at(Message::Delete(42), 0, at(300)), Effect::Save);
    assert_eq!(t.tasks.len(), 0);
    assert_eq!(t.to_records().len(), 0);
}

#[test]
fn dispatch_of_form_and_focus_events() {
    let mut t = TaskTracker::new(Vec::new());
    assert_eq!(t.update_at(Message::SetTitle("a".to_string()), 0, at(1)), Effect::Nothing);
    assert_eq!(t.update_at(Message::SetDescription("b".to_string()), 0, at(1)), Effect::Nothing);
    assert_eq!(t.title, "a");
    assert_eq!(
        t.update_at(Message::Create(" ".to_string(), "b".to_string()), 5, at(1)),
        Effect::Nothing
    );
    assert_eq!(t.title, "a");
    assert_eq!(
        t.update_at(Message::Create("a".to_string(), "b".to_string()), 5, at(1)),
        Effect::Save
    );
    assert_eq!(t.title, "");
    assert_eq!(t.description, "");
    assert_eq!(t.update_at(Message::FocusNext, 0, at(1)), Effect::FocusNext);
    assert_eq!(t.update_at(Message::FocusPrev, 0, at(1)), Effect::FocusPrev);
    assert_eq!(
        t.update_at(Message::TaskMessage(5, TaskMessage::ToggleState), 0, at(2)),
        Effect::Nothing
    );
    assert_eq!(t.tasks[0].state, State::Edit);
    assert_eq!(t.update_at(Message::TaskMessage(5, TaskMessage::Update), 0, at(2)), Effect::Save);
    assert_eq!(
        t.update_at(Message::TaskMessage(9, TaskMessage::ToggleState), 0, at(2)),
        Effect::Nothing
    );
    assert_eq!(
        t.update_at(Message::TaskMessage(5, TaskMessage::Delete(5)), 0, at(2)),
        Effect::Save
    );
    assert_eq!(t.tasks.len(), 0);
    assert_eq!(t.update(Message::SetQueryText("q".to_string())), Effect::Nothing);
    assert_eq!(t.filter.text, "q");
}

#[test]
fn mutable_access_by_id() {
    let mut t = three_tasks();
    if let Some(task) = t.get_task_mut(3) {
        task.set_status(Status::InProgress);
    }
    assert_eq!(t.get_task(3).unwrap().status, Status::InProgress);
    assert_eq!(t.get_task(3).unwrap().modified_at(), at(3));
    assert!(t.get_task_mut(9).is_none());
    assert_eq!(t.tasks.len(), 3);
}

#[test]
fn loaded_collection_starts_read_only() {
    let records = three_tasks().to_records();
    let t = TaskTracker::from_records(&records).unwrap();
    assert_eq!(t.tasks.len(), 3);
    assert!(t.tasks.iter().all(|v| v.state == State::Static));
    assert_eq!(t.tasks[1].get_task().status, Status::Done);
    assert_eq!(t.tasks[1].fields.status, Status::Done);
    assert_eq!(t.title, "");
    assert_eq!(t.filter.status, None);
}
