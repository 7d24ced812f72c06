//! A single task, its status, its timestamps, its persisted record form, and
//! the per-task view/edit state machine with its draft fields.

use vstd::prelude::*;
use crate::ambient::{fresh_id, local_now};
use crate::text::{same_text, trim, trimmed};

verus! {

/// The three status buckets of a task.
#[derive(Clone, Copy, Debug, PartialEq, Eq, Structural)]
pub enum Status {
    Done,
    InProgress,
    ToDo,
}

/// The word under which a status is stored.
pub open spec fn status_code(s: Status) -> Seq<char> {
    match s {
        Status::Done => "done"@,
        Status::InProgress => "in-progress"@,
        Status::ToDo => "to-do"@,
    }
}

/// The status stored under a word, if any.
pub open spec fn status_of_code(c: Seq<char>) -> Option<Status> {
    if c == "done"@ {
        Some(Status::Done)
    } else if c == "in-progress"@ {
        Some(Status::InProgress)
    } else if c == "to-do"@ {
        Some(Status::ToDo)
    } else {
        None
    }
}

/// The label shown for a status, one line.
pub open spec fn status_label(s: Status) -> Seq<char> {
    match s {
        Status::Done => "Terminada\n"@,
        Status::InProgress => "En progreso\n"@,
        Status::ToDo => "Pendiente\n"@,
    }
}

impl Status {
    /// Every status, in the order the status picker lists them.
    pub fn all() -> (r: Vec<Status>)
        ensures
            r@ == seq![Status::Done, Status::InProgress, Status::ToDo],
    {
        vec![Status::Done, Status::InProgress, Status::ToDo]
    }

    /// The word under which this status is stored.
    pub fn code(&self) -> (r: &'static str)
        ensures
            r@ == status_code(*self),
    {
        match self {
            Status::Done => "done",
            Status::InProgress => "in-progress",
            Status::ToDo => "to-do",
        }
    }

    /// The status stored under `c`; `None` for any other word.
    pub fn from_code(c: &str) -> (r: Option<Status>)
        ensures
            r == status_of_code(c@),
    {
        if same_text(c, "done") {
            Some(Status::Done)
        } else if same_text(c, "in-progress") {
            Some(Status::InProgress)
        } else if same_text(c, "to-do") {
            Some(Status::ToDo)
        } else {
            None
        }
    }

    /// The label shown for this status, ending in a line break.
    pub fn to_string(&self) -> (r: String)
        ensures
            r@ == status_label(*self),
    {
        match self {
            Status::Done => "Terminada\n".to_owned(),
            Status::InProgress => "En progreso\n".to_owned(),
            Status::ToDo => "Pendiente\n".to_owned(),
        }
    }
}

/// Stored codes tell the statuses apart: reading back a status's code gives it.
pub proof fn lemma_status_code_round_trip(s: Status)
    ensures
        status_of_code(status_code(s)) == Some(s),
{
    reveal_strlit("done");
    reveal_strlit("in-progress");
    reveal_strlit("to-do");
    assert("done"@.len() == 4);
    assert("in-progress"@.len() == 11);
    assert("to-do"@.len() == 5);
}

} // verus!

verus! {

/// A naive local date and time, as whole seconds since 1970-01-01T00:00:00
/// and the nanoseconds past that second (at or past one billion only within
/// a leap second). Stamps order by seconds, then nanoseconds.
#[derive(Clone, Copy, Debug, PartialEq, Eq, Structural)]
pub struct Stamp {
    pub secs: i64,
    pub nanos: u32,
}

/// `a` is not later than `b`.
pub open spec fn stamp_le(a: Stamp, b: Stamp) -> bool {
    a.secs < b.secs || (a.secs == b.secs && a.nanos <= b.nanos)
}

/// The later of two stamps.
pub open spec fn stamp_max(a: Stamp, b: Stamp) -> Stamp {
    if stamp_le(a, b) {
        b
    } else {
        a
    }
}

impl Stamp {
    pub open spec fn valid(self) -> bool {
        self.nanos < 2_000_000_000
    }

    /// Whether `self` is not later than `other`.
    pub fn le(&self, other: &Stamp) -> (r: bool)
        ensures
            r == stamp_le(*self, *other),
    {
        self.secs < other.secs || (self.secs == other.secs && self.nanos <= other.nanos)
    }
}

/// What a task holds, as mathematical values.
pub ghost struct TaskModel {
    pub id: u128,
    pub title: Seq<char>,
    pub description: Seq<char>,
    pub status: Status,
    pub created_at: Stamp,
    pub modified_at: Stamp,
}

/// A stored task.
#[derive(Debug)]
pub struct Task {
    pub id: u128,
    pub title: String,
    pub description: String,
    pub status: Status,
    pub created_at: Stamp,
    pub modified_at: Stamp,
}

impl View for Task {
    type V = TaskModel;

    open spec fn view(&self) -> TaskModel {
        TaskModel {
            id: self.id,
            title: self.title@,
            description: self.description@,
            status: self.status,
            created_at: self.created_at,
            modified_at: self.modified_at,
        }
    }
}

/// A well-formed task: valid stamps, and never modified before it was created.
pub open spec fn task_wf(t: TaskModel) -> bool {
    t.created_at.valid() && t.modified_at.valid() && stamp_le(t.created_at, t.modified_at)
}

/// The task that `modify` leaves: each given field replaced, the modification
/// stamp moved to `now`, or kept where the clock reads earlier than it.
pub open spec fn modified_task(
    t: TaskModel,
    title: Option<Seq<char>>,
    description: Option<Seq<char>>,
    status: Option<Status>,
    now: Stamp,
) -> TaskModel {
    TaskModel {
        title: match title {
            Some(x) => x,
            None => t.title,
        },
        description: match description {
            Some(x) => x,
            None => t.description,
        },
        status: match status {
            Some(x) => x,
            None => t.status,
        },
        modified_at: stamp_max(t.modified_at, now),
        ..t
    }
}

pub open spec fn opt_view(o: Option<String>) -> Option<Seq<char>> {
    match o {
        Some(s) => Some(s@),
        None => None,
    }
}

impl Task {
    pub open spec fn wf(&self) -> bool {
        task_wf(self@)
    }

    /// A new task with a fresh random id, status `ToDo`, and both stamps set to
    /// the local time now.
    pub fn new(title: &str, description: &str) -> (r: Task)
        ensures
            r@.title == title@,
            r@.description == description@,
            r@.status == Status::ToDo,
            r@.created_at == r@.modified_at,
            r.wf(),
    {
        let id = fresh_id();
        let now = local_now();
        Task::with_id_at(id, title, description, now)
    }

    /// A new task with the given id, status `ToDo`, and both stamps `now`.
    pub fn with_id_at(id: u128, title: &str, description: &str, now: Stamp) -> (r: Task)
        ensures
            r@ == (TaskModel {
                id,
                title: title@,
                description: description@,
                status: Status::ToDo,
                created_at: now,
                modified_at: now,
            }),
    {
        Task {
            id,
            title: title.to_owned(),
            description: description.to_owned(),
            status: Status::ToDo,
            created_at: now,
            modified_at: now,
        }
    }

    /// A duplicate of the task, field for field.
    pub fn duplicate(&self) -> (r: Task)
        ensures
            r@ == self@,
    {
        Task {
            id: self.id,
            title: self.title.clone(),
            description: self.description.clone(),
            status: self.status,
            created_at: self.created_at,
            modified_at: self.modified_at,
        }
    }

    /// Replaces the title; the modification stamp is left as it is.
    pub fn set_title(&mut self, title: String)
        ensures
            final(self)@ == (TaskModel { title: title@, ..old(self)@ }),
    {
        self.title = title;
    }

    /// Replaces the description; the modification stamp is left as it is.
    pub fn set_description(&mut self, description: String)
        ensures
            final(self)@ == (TaskModel { description: description@, ..old(self)@ }),
    {
        self.description = description;
    }

    /// Replaces the status; the modification stamp is left as it is.
    pub fn set_status(&mut self, status: Status)
        ensures
            final(self)@ == (TaskModel { status, ..old(self)@ }),
    {
        self.status = status;
    }

    /// Moves the modification stamp to `now`; a clock reading earlier than
    /// the current stamp leaves it as it is, so that it never goes back.
    pub fn touch(&mut self, now: Stamp)
        ensures
            final(self)@ == (TaskModel {
                modified_at: stamp_max(old(self)@.modified_at, now),
                ..old(self)@
            }),
    {
        if self.modified_at.le(&now) {
            self.modified_at = now;
        }
    }

    /// Touches the task with the local time now.
    pub fn modified(&mut self)
        ensures
            exists|now: Stamp|
                now.valid() && final(self)@ == (TaskModel {
                    modified_at: stamp_max(old(self)@.modified_at, now),
                    ..old(self)@
                }),
    {
        let now = local_now();
        self.touch(now);
        assert(now.valid() && self@ == (TaskModel {
            modified_at: stamp_max(old(self)@.modified_at, now),
            ..old(self)@
        }));
    }

    pub fn id(&self) -> (r: u128)
        ensures
            r == self@.id,
    {
        self.id
    }

    pub fn created_at(&self) -> (r: Stamp)
        ensures
            r == self@.created_at,
    {
        self.created_at
    }

    pub fn modified_at(&self) -> (r: Stamp)
        ensures
            r == self@.modified_at,
    {
        self.modified_at
    }

    /// Applies each given field and touches the task at `now`, even when no
    /// field is given.
    pub fn modify_at(
        &mut self,
        title: Option<String>,
        description: Option<String>,
        status: Option<Status>,
        now: Stamp,
    )
        ensures
            final(self)@ == modified_task(
                old(self)@,
                opt_view(title),
                opt_view(description),
                status,
                now,
            ),
    {
        if let Some(title) = title {
            self.title = title;
        }
        if let Some(description) = description {
            self.description = description;
        }
        if let Some(status) = status {
            self.status = status;
        }
        self.touch(now);
    }

    /// Applies each given field and touches the task with the local time now.
    pub fn modify(&mut self, title: Option<String>, description: Option<String>, status: Option<Status>)
        ensures
            exists|now: Stamp|
                now.valid() && final(self)@ == modified_task(
                    old(self)@,
                    opt_view(title),
                    opt_view(description),
                    status,
                    now,
                ),
    {
        let ghost (t0, d0) = (title, description);
        let now = local_now();
        self.modify_at(title, description, status, now);
        assert(now.valid() && self@ == modified_task(old(self)@, opt_view(t0), opt_view(d0), status, now));
    }
}

/// A well-formed task stays well-formed through `modify`, and its modification
/// stamp never goes back, even when no field is given.
pub proof fn lemma_modify_touches(
    t: TaskModel,
    title: Option<Seq<char>>,
    description: Option<Seq<char>>,
    status: Option<Status>,
    now: Stamp,
)
    requires
        task_wf(t),
        now.valid(),
    ensures
        task_wf(modified_task(t, title, description, status, now)),
        stamp_le(t.modified_at, modified_task(t, title, description, status, now).modified_at),
        stamp_le(now, modified_task(t, title, description, status, now).modified_at),
        modified_task(t, title, description, status, now).id == t.id,
        modified_task(t, title, description, status, now).created_at == t.created_at,
{
}

} // verus!

verus! {

/// A task as it is persisted: the status as its stored word. The id and the
/// stamps are written out by the persistence layer in their textual forms.
#[derive(Debug)]
pub struct TaskRecord {
    pub id: u128,
    pub title: String,
    pub description: String,
    pub status: String,
    pub created_at: Stamp,
    pub modified_at: Stamp,
}

pub ghost struct RecordModel {
    pub id: u128,
    pub title: Seq<char>,
    pub description: Seq<char>,
    pub status: Seq<char>,
    pub created_at: Stamp,
    pub modified_at: Stamp,
}

impl View for TaskRecord {
    type V = RecordModel;

    open spec fn view(&self) -> RecordModel {
        RecordModel {
            id: self.id,
            title: self.title@,
            description: self.description@,
            status: self.status@,
            created_at: self.created_at,
            modified_at: self.modified_at,
        }
    }
}

/// Why a persisted record does not make a task.
#[derive(Clone, Copy, Debug, PartialEq, Eq, Structural)]
pub enum RecordError {
    /// The status word is none of the stored words.
    UnknownStatus,
    /// A stamp's nanoseconds are two billion or more.
    InvalidStamp,
    /// The modification stamp is earlier than the creation stamp.
    ModifiedBeforeCreated,
}

pub open spec fn record_of(t: TaskModel) -> RecordModel {
    RecordModel {
        id: t.id,
        title: t.title,
        description: t.description,
        status: status_code(t.status),
        created_at: t.created_at,
        modified_at: t.modified_at,
    }
}

/// The task a record stands for, or the first thing wrong with it.
pub open spec fn task_of_record(r: RecordModel) -> Result<TaskModel, RecordError> {
    match status_of_code(r.status) {
        None => Err(RecordError::UnknownStatus),
        Some(status) => if !r.created_at.valid() || !r.modified_at.valid() {
            Err(RecordError::InvalidStamp)
        } else if !stamp_le(r.created_at, r.modified_at) {
            Err(RecordError::ModifiedBeforeCreated)
        } else {
            Ok(
                TaskModel {
                    id: r.id,
                    title: r.title,
                    description: r.description,
                    status,
                    created_at: r.created_at,
                    modified_at: r.modified_at,
                },
            )
        },
    }
}

impl Task {
    /// The record under which the task is persisted.
    pub fn to_record(&self) -> (r: TaskRecord)
        ensures
            r@ == record_of(self@),
    {
        TaskRecord {
            id: self.id,
            title: self.title.clone(),
            description: self.description.clone(),
            status: self.status.code().to_owned(),
            created_at: self.created_at,
            modified_at: self.modified_at,
        }
    }

    /// The task a persisted record stands for.
    pub fn from_record(r: &TaskRecord) -> (res: Result<Task, RecordError>)
        ensures
            match (res, task_of_record(r@)) {
                (Ok(t), Ok(m)) => t@ == m,
                (Err(e), Err(f)) => e == f,
                _ => false,
            },
    {
        let status = match Status::from_code(r.status.as_str()) {
            Some(s) => s,
            None => {
                return Err(RecordError::UnknownStatus);
            },
        };
        if r.created_at.nanos >= 2_000_000_000 || r.modified_at.nanos >= 2_000_000_000 {
            return Err(RecordError::InvalidStamp);
        }
        if !r.created_at.le(&r.modified_at) {
            return Err(RecordError::ModifiedBeforeCreated);
        }
        Ok(
            Task {
                id: r.id,
                title: r.title.clone(),
                description: r.description.clone(),
                status,
                created_at: r.created_at,
                modified_at: r.modified_at,
            },
        )
    }
}

/// Every well-formed task reads back from its persisted record unchanged.
pub proof fn lemma_record_round_trip(t: TaskModel)
    requires
        task_wf(t),
    ensures
        task_of_record(record_of(t)) == Ok::<TaskModel, RecordError>(t),
{
    lemma_status_code_round_trip(t.status);
}

/// A task read from a record is well-formed.
pub proof fn lemma_record_gives_wf(r: RecordModel)
    requires
        task_of_record(r) is Ok,
    ensures
        task_wf(task_of_record(r)->Ok_0),
{
}

} // verus!

verus! {

/// Whether a task is shown read-only or with its draft fields open.
#[derive(Clone, Copy, Debug, PartialEq, Eq, Structural, Default)]
pub enum State {
    #[default]
    Static,
    Edit,
}

/// The draft fields of a task being edited.
#[derive(Debug)]
pub struct Field {
    pub title: String,
    pub description: String,
    pub status: Status,
}

/// A task together with its view/edit state and its drafts.
#[derive(Debug)]
pub struct TaskView {
    pub task: Task,
    pub state: State,
    pub fields: Field,
}

pub ghost struct TaskViewModel {
    pub task: TaskModel,
    pub state: State,
    pub draft_title: Seq<char>,
    pub draft_description: Seq<char>,
    pub draft_status: Status,
}

impl View for TaskView {
    type V = TaskViewModel;

    open spec fn view(&self) -> TaskViewModel {
        TaskViewModel {
            task: self.task@,
            state: self.state,
            draft_title: self.fields.title@,
            draft_description: self.fields.description@,
            draft_status: self.fields.status,
        }
    }
}

/// A task in state `state`, its drafts set to the task's own values.
pub open spec fn fresh_view(t: TaskModel, state: State) -> TaskViewModel {
    TaskViewModel {
        task: t,
        state,
        draft_title: t.title,
        draft_description: t.description,
        draft_status: t.status,
    }
}

/// The changes that accepting an edit asks for: the draft title where it is
/// not empty and differs; the trimmed draft description where it differs;
/// the draft status where it differs.
pub open spec fn edit_diff(v: TaskViewModel) -> (Option<Seq<char>>, Option<Seq<char>>, Option<Status>) {
    (
        if v.draft_title.len() > 0 && v.draft_title != v.task.title {
            Some(v.draft_title)
        } else {
            None
        },
        if trimmed(v.draft_description) != v.task.description {
            Some(trimmed(v.draft_description))
        } else {
            None
        },
        if v.draft_status != v.task.status {
            Some(v.draft_status)
        } else {
            None
        },
    )
}

/// The view after `modify` at `now` with the given fields: back to `Static`,
/// drafts reset to the modified task.
pub open spec fn after_modify(
    v: TaskViewModel,
    title: Option<Seq<char>>,
    description: Option<Seq<char>>,
    status: Option<Status>,
    now: Stamp,
) -> TaskViewModel {
    fresh_view(modified_task(v.task, title, description, status, now), State::Static)
}

/// What a task view asks of the collection after handling a message.
#[derive(Clone, Copy, Debug, PartialEq, Eq, Structural)]
pub enum Outcome {
    /// Nothing to do.
    Idle,
    /// The task changed: the collection is to be saved.
    Persist,
    /// The task with this id is to be deleted.
    Remove(u128),
}

/// The events a task view handles.
#[derive(Debug)]
pub enum Message {
    /// Apply these changes to the task, touch it, and leave edit mode.
    Modify { title: Option<String>, description: Option<String>, status: Option<Status> },
    /// Set the draft title.
    SetTitle(String),
    /// Set the draft description.
    SetDescription(String),
    /// Set the draft status.
    SetStatus(Status),
    /// Begin an edit (drafts taken from the task), or cancel one (drafts dropped).
    ToggleState,
    /// Accept the edit: apply the differences between drafts and task.
    Accept,
    /// The task was changed and is to be saved.
    Update,
    /// The task with this id is to be deleted.
    Delete(u128),
}

/// Handling `message` at time `now` takes the view from `v` to `w` and asks `r`
/// of the collection.
pub open spec fn handles(v: TaskViewModel, message: Message, now: Stamp, r: Outcome, w: TaskViewModel) -> bool {
    match message {
        Message::Modify { title, description, status } => r == Outcome::Persist
            && w == after_modify(
            v,
            opt_view(title),
            opt_view(description),
            status,
            now,
        ),
        Message::SetTitle(t) => r == Outcome::Idle && w == (TaskViewModel {
            draft_title: t@,
            ..v
        }),
        Message::SetDescription(d) => r == Outcome::Idle && w == (
        TaskViewModel { draft_description: d@, ..v }),
        Message::SetStatus(s) => r == Outcome::Idle && w == (TaskViewModel {
            draft_status: s,
            ..v
        }),
        Message::ToggleState => r == Outcome::Idle && w == fresh_view(
            v.task,
            if v.state == State::Static {
                State::Edit
            } else {
                State::Static
            },
        ),
        Message::Accept => if v.state == State::Edit {
            r == Outcome::Persist && w == after_modify(
                v,
                edit_diff(v).0,
                edit_diff(v).1,
                edit_diff(v).2,
                now,
            )
        } else {
            r == Outcome::Idle && w == v
        },
        Message::Update => r == Outcome::Persist && w == v,
        Message::Delete(id) => r == Outcome::Remove(id) && w == v,
    }
}

impl TaskView {
    /// A read-only view of `task`, drafts set to its values.
    pub fn from_task(task: Task) -> (r: TaskView)
        ensures
            r@ == fresh_view(task@, State::Static),
    {
        let fields = Field {
            title: task.title.clone(),
            description: task.description.clone(),
            status: task.status,
        };
        TaskView { task, state: State::Static, fields }
    }

    pub fn get_task(&self) -> (r: &Task)
        ensures
            r@ == self@.task,
    {
        &self.task
    }

    pub fn get_task_mut(&mut self) -> (r: &mut Task)
        ensures
            *r == old(self).task,
            final(self).task == *final(r),
            final(self).state == old(self).state,
            final(self).fields == old(self).fields,
    {
        &mut self.task
    }

    fn reset_fields(&mut self)
        ensures
            final(self)@ == fresh_view(old(self)@.task, old(self)@.state),
            final(self).task == old(self).task,
    {
        self.fields.title = self.task.title.clone();
        self.fields.description = self.task.description.clone();
        self.fields.status = self.task.status;
    }

    /// The changes that accepting the current drafts asks for.
    pub fn accept_diff(&self) -> (r: (Option<String>, Option<String>, Option<Status>))
        ensures
            (opt_view(r.0), opt_view(r.1), r.2) == edit_diff(self@),
    {
        let title = if self.fields.title.as_str().is_empty() || self.fields.title
            == self.task.title {
            None
        } else {
            Some(self.fields.title.clone())
        };
        let draft = trim(self.fields.description.as_str());
        let description = if draft == self.task.description {
            None
        } else {
            Some(draft)
        };
        let status = if self.fields.status == self.task.status {
            None
        } else {
            Some(self.fields.status)
        };
        (title, description, status)
    }

    /// Handles `message`, with `now` as the time of any modification.
    pub fn update_at(&mut self, message: Message, now: Stamp) -> (r: Outcome)
        ensures
            handles(old(self)@, message, now, r, final(self)@),
    {
        match message {
            Message::Modify { title, description, status } => {
                self.task.modify_at(title, description, status, now);
                self.state = State::Static;
                self.reset_fields();
                Outcome::Persist
            },
            Message::SetTitle(t) => {
                self.fields.title = t;
                Outcome::Idle
            },
            Message::SetDescription(d) => {
                self.fields.description = d;
                Outcome::Idle
            },
            Message::SetStatus(s) => {
                self.fields.status = s;
                Outcome::Idle
            },
            Message::ToggleState => {
                self.state = match self.state {
                    State::Static => State::Edit,
                    State::Edit => State::Static,
                };
                self.reset_fields();
                Outcome::Idle
            },
            Message::Accept => {
                if self.state == State::Edit {
                    let (title, description, status) = self.accept_diff();
                    self.task.modify_at(title, description, status, now);
                    self.state = State::Static;
                    self.reset_fields();
                    Outcome::Persist
                } else {
                    Outcome::Idle
                }
            },
            Message::Update => Outcome::Persist,
            Message::Delete(id) => Outcome::Remove(id),
        }
    }

    /// Handles `message`, with the local time now as the time of any modification.
    pub fn update(&mut self, message: Message) -> (r: Outcome)
        ensures
            exists|now: Stamp| now.valid() && #[trigger] handles(old(self)@, message, now, r, final(self)@),
    {
        let now = local_now();
        let ghost msg = message;
        let r = self.update_at(message, now);
        assert(now.valid() && handles(old(self)@, msg, now, r, self@));
        r
    }
}

/// Accepting an edit whose draft title is empty keeps the task's title: an
/// empty draft title means no change, not a cleared title.
pub proof fn lemma_empty_draft_title_keeps_title(v: TaskViewModel, now: Stamp)
    requires
        v.draft_title.len() == 0,
    ensures
        after_modify(v, edit_diff(v).0, edit_diff(v).1, edit_diff(v).2, now).task.title
            == v.task.title,
{
}

/// Accepting an edit changes nothing but what differs between drafts and task
/// (and the modification stamp): drafts equal to the task leave its fields.
pub proof fn lemma_unchanged_drafts_keep_task(v: TaskViewModel, now: Stamp)
    requires
        v.draft_title == v.task.title,
        trimmed(v.draft_description) == v.task.description,
        v.draft_status == v.task.status,
    ensures
        after_modify(v, edit_diff(v).0, edit_diff(v).1, edit_diff(v).2, now).task == (TaskModel {
            modified_at: stamp_max(v.task.modified_at, now),
            ..v.task
        }),
{
}

} // verus!
