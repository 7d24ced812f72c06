//! The task collection: creation, deletion and update, read-only queries,
//! the visible subset under a query, and the dispatch of interface events.

use vstd::prelude::*;
use crate::ambient::local_now;
use crate::task::{
    fresh_view, handles, stamp_le, task_of_record, record_of, Message as TaskMessage,
    Outcome, RecordError, RecordModel, Stamp, State, Status, Task, TaskModel, TaskRecord,
    TaskView, TaskViewModel, opt_view,
};
use crate::text::{contains, has_substring, is_blank, is_blank_text};
use crate::task::{lemma_modify_touches, lemma_record_round_trip, modified_task, task_wf};

verus! {

/// The filter the interface applies: a substring of title or description,
/// and optionally a status bucket.
#[derive(Debug)]
pub struct Query {
    pub text: String,
    pub status: Option<Status>,
}

/// What a selection asks of a task: each present part must hold.
pub ghost struct Criterion {
    pub status: Option<Status>,
    pub text: Option<Seq<char>>,
    pub from: Option<Stamp>,
    pub to: Option<Stamp>,
}

pub open spec fn satisfies(c: Criterion, t: TaskModel) -> bool {
    &&& (c.status is Some ==> t.status == c.status->Some_0)
    &&& (c.text is Some ==> has_substring(t.title, c.text->Some_0) || has_substring(
        t.description,
        c.text->Some_0,
    ))
    &&& (c.from is Some ==> stamp_le(c.from->Some_0, t.created_at))
    &&& (c.to is Some ==> stamp_le(t.created_at, c.to->Some_0))
}

pub open spec fn any_task() -> Criterion {
    Criterion { status: None, text: None, from: None, to: None }
}

/// The views of `s` whose task satisfies `c`, in order.
pub open spec fn pick_views(s: Seq<TaskView>, c: Criterion) -> Seq<TaskViewModel>
    decreases s.len(),
{
    if s.len() == 0 {
        Seq::empty()
    } else {
        let p = pick_views(s.drop_last(), c);
        if satisfies(c, s.last().task@) {
            p.push(s.last()@)
        } else {
            p
        }
    }
}

/// The tasks of `s` that satisfy `c`, in order.
pub open spec fn pick_tasks(s: Seq<TaskView>, c: Criterion) -> Seq<TaskModel>
    decreases s.len(),
{
    if s.len() == 0 {
        Seq::empty()
    } else {
        let p = pick_tasks(s.drop_last(), c);
        if satisfies(c, s.last().task@) {
            p.push(s.last().task@)
        } else {
            p
        }
    }
}

/// The views of `s` whose task does not have id `id`, in order.
pub open spec fn without_id(s: Seq<TaskViewModel>, id: u128) -> Seq<TaskViewModel>
    decreases s.len(),
{
    if s.len() == 0 {
        Seq::empty()
    } else {
        let p = without_id(s.drop_last(), id);
        if s.last().task.id != id {
            p.push(s.last())
        } else {
            p
        }
    }
}

pub open spec fn views_of(s: Seq<TaskView>) -> Seq<TaskViewModel> {
    s.map_values(|v: TaskView| v@)
}

pub open spec fn task_models(s: Seq<Task>) -> Seq<TaskModel> {
    s.map_values(|t: Task| t@)
}

/// Each task shown read-only, drafts set to its values.
pub open spec fn fresh_views(s: Seq<TaskModel>) -> Seq<TaskViewModel> {
    s.map_values(|t: TaskModel| fresh_view(t, State::Static))
}

pub open spec fn tasks_of(s: Seq<TaskView>) -> Seq<TaskModel> {
    s.map_values(|v: TaskView| v.task@)
}

pub open spec fn ref_views(s: Seq<&TaskView>) -> Seq<TaskViewModel> {
    s.map_values(|v: &TaskView| v@)
}

pub open spec fn ref_tasks_of_views(s: Seq<&TaskView>) -> Seq<TaskModel> {
    s.map_values(|v: &TaskView| v.task@)
}

pub open spec fn ref_tasks(s: Seq<&Task>) -> Seq<TaskModel> {
    s.map_values(|t: &Task| t@)
}

/// The tasks persisted as `rs`, or the error of the first record that is wrong.
pub open spec fn tasks_of_records(rs: Seq<RecordModel>) -> Result<Seq<TaskModel>, RecordError>
    decreases rs.len(),
{
    if rs.len() == 0 {
        Ok(Seq::empty())
    } else {
        match tasks_of_records(rs.drop_last()) {
            Err(e) => Err(e),
            Ok(ts) => match task_of_record(rs.last()) {
                Err(e) => Err(e),
                Ok(t) => Ok(ts.push(t)),
            },
        }
    }
}

pub open spec fn records_of(ts: Seq<TaskModel>) -> Seq<RecordModel> {
    ts.map_values(|t: TaskModel| record_of(t))
}

pub open spec fn record_views(rs: Seq<TaskRecord>) -> Seq<RecordModel> {
    rs.map_values(|r: TaskRecord| r@)
}

/// The executable form of a `Criterion`.
struct Pick<'a> {
    status: Option<Status>,
    text: Option<&'a str>,
    from: Option<Stamp>,
    to: Option<Stamp>,
}

impl<'a> Pick<'a> {
    spec fn criterion(&self) -> Criterion {
        Criterion {
            status: self.status,
            text: match self.text {
                Some(t) => Some(t@),
                None => None,
            },
            from: self.from,
            to: self.to,
        }
    }

    fn admits(&self, t: &Task) -> (r: bool)
        ensures
            r == satisfies(self.criterion(), t@),
    {
        if let Some(s) = self.status {
            if t.status != s {
                return false;
            }
        }
        if let Some(q) = self.text {
            if !contains(t.title.as_str(), q) && !contains(t.description.as_str(), q) {
                return false;
            }
        }
        if let Some(f) = self.from {
            if !f.le(&t.created_at) {
                return false;
            }
        }
        if let Some(e) = self.to {
            if !t.created_at.le(&e) {
                return false;
            }
        }
        true
    }
}

/// The task collection, the create form's fields, and the current query.
#[derive(Debug)]
pub struct TaskTracker {
    pub tasks: Vec<TaskView>,
    pub title: String,
    pub description: String,
    pub filter: Query,
}

impl TaskTracker {
    pub open spec fn wf(&self) -> bool {
        tracker_wf(self@)
    }

    pub open spec fn query(&self) -> Criterion {
        Criterion { status: self.filter.status, text: Some(self.filter.text@), from: None, to: None }
    }

    /// A collection holding `tasks` in order, each shown read-only, with an
    /// empty create form and an empty query.
    pub fn new(tasks: Vec<Task>) -> (r: TaskTracker)
        ensures
            views_of(r.tasks@) == fresh_views(task_models(tasks@)),
            r.title@.len() == 0,
            r.description@.len() == 0,
            r.filter.text@.len() == 0,
            r.filter.status is None,
    {
        let mut tasks = tasks;
        let ghost orig = tasks@;
        let mut views: Vec<TaskView> = Vec::new();
        let mut k: usize = 0;
        let n = tasks.len();
        while tasks.len() > 0
            invariant
                n == orig.len(),
                k + tasks@.len() == n,
                tasks@ == orig.subrange(k as int, n as int),
                views_of(views@) == fresh_views(task_models(orig.subrange(0, k as int))),
            decreases tasks@.len(),
        {
            let t = tasks.remove(0);
            let v = TaskView::from_task(t);
            let ghost before = views@;
            views.push(v);
            proof {
                assert(orig.subrange(0, k + 1) =~= orig.subrange(0, k as int).push(orig[k as int]));
                assert(views_of(views@) =~= views_of(before).push(v@));
                assert(task_models(orig.subrange(0, k + 1)) =~= task_models(
                    orig.subrange(0, k as int),
                ).push(orig[k as int]@));
                assert(fresh_views(task_models(orig.subrange(0, k + 1))) =~= fresh_views(
                    task_models(orig.subrange(0, k as int)),
                ).push(fresh_view(orig[k as int]@, State::Static)));
            }
            k = k + 1;
            proof {
                assert(tasks@ =~= orig.subrange(k as int, n as int));
            }
        }
        assert(orig.subrange(0, n as int) =~= orig);
        TaskTracker {
            tasks: views,
            title: String::new(),
            description: String::new(),
            filter: Query { text: String::new(), status: None },
        }
    }

    /// The views whose task satisfies `pick`, in collection order.
    fn select(&self, pick: &Pick) -> (r: Vec<&TaskView>)
        ensures
            ref_views(r@) == pick_views(self.tasks@, pick.criterion()),
            ref_tasks_of_views(r@) == pick_tasks(self.tasks@, pick.criterion()),
    {
        let mut r: Vec<&TaskView> = Vec::new();
        let mut i: usize = 0;
        while i < self.tasks.len()
            invariant
                0 <= i <= self.tasks@.len(),
                ref_views(r@) == pick_views(self.tasks@.subrange(0, i as int), pick.criterion()),
                ref_tasks_of_views(r@) == pick_tasks(
                    self.tasks@.subrange(0, i as int),
                    pick.criterion(),
                ),
            decreases self.tasks@.len() - i,
        {
            let tv = &self.tasks[i];
            let ghost before = r@;
            let ghost pre = self.tasks@.subrange(0, i as int);
            let ghost cur = self.tasks@.subrange(0, i + 1);
            proof {
                assert(cur.drop_last() =~= pre);
            }
            if pick.admits(&tv.task) {
                r.push(tv);
                proof {
                    assert(ref_views(r@) =~= ref_views(before).push(tv@));
                    assert(ref_tasks_of_views(r@) =~= ref_tasks_of_views(before).push(tv.task@));
                }
            }
            i = i + 1;
        }
        assert(self.tasks@.subrange(0, self.tasks@.len() as int) =~= self.tasks@);
        r
    }

    /// All tasks, in collection order.
    pub fn get_tasks(&self) -> (r: Vec<&Task>)
        ensures
            ref_tasks(r@) == pick_tasks(self.tasks@, any_task()),
    {
        let pick = Pick { status: None, text: None, from: None, to: None };
        tasks_in(self.select(&pick))
    }

    /// The views of the tasks in bucket `status`, in collection order.
    pub fn by_status(&self, status: Status) -> (r: Vec<&TaskView>)
        ensures
            ref_views(r@) == pick_views(
                self.tasks@,
                Criterion { status: Some(status), ..any_task() },
            ),
    {
        let pick = Pick { status: Some(status), text: None, from: None, to: None };
        self.select(&pick)
    }

    /// The tasks created exactly at `date`, in collection order.
    pub fn get_tasks_by_date(&self, date: Stamp) -> (r: Vec<&Task>)
        ensures
            ref_tasks(r@) == pick_tasks(
                self.tasks@,
                Criterion { from: Some(date), to: Some(date), ..any_task() },
            ),
    {
        let pick = Pick { status: None, text: None, from: Some(date), to: Some(date) };
        tasks_in(self.select(&pick))
    }

    /// The tasks whose title or description contains `query`, in collection order.
    pub fn by_title_or_description(&self, query: &str) -> (r: Vec<&Task>)
        ensures
            ref_tasks(r@) == pick_tasks(self.tasks@, Criterion { text: Some(query@), ..any_task() }),
    {
        let pick = Pick { status: None, text: Some(query), from: None, to: None };
        tasks_in(self.select(&pick))
    }

    /// The tasks created from `start` to `end`, both included, in collection order.
    pub fn get_tasks_by_date_range(&self, start: Stamp, end: Stamp) -> (r: Vec<&Task>)
        ensures
            ref_tasks(r@) == pick_tasks(
                self.tasks@,
                Criterion { from: Some(start), to: Some(end), ..any_task() },
            ),
    {
        let pick = Pick { status: None, text: None, from: Some(start), to: Some(end) };
        tasks_in(self.select(&pick))
    }

    /// The views the interface shows under the current query: those in the
    /// query's bucket, if it names one, whose title or description contains
    /// the query text; in collection order.
    pub fn filtered_tasks(&self) -> (r: Vec<&TaskView>)
        ensures
            ref_views(r@) == pick_views(self.tasks@, self.query()),
    {
        let pick = Pick {
            status: self.filter.status,
            text: Some(self.filter.text.as_str()),
            from: None,
            to: None,
        };
        self.select(&pick)
    }
}

/// The tasks of the given views, in order.
fn tasks_in<'a>(views: Vec<&'a TaskView>) -> (r: Vec<&'a Task>)
    ensures
        ref_tasks(r@) == ref_tasks_of_views(views@),
{
    let mut r: Vec<&Task> = Vec::new();
    let mut i: usize = 0;
    while i < views.len()
        invariant
            0 <= i <= views@.len(),
            ref_tasks(r@) == ref_tasks_of_views(views@.subrange(0, i as int)),
        decreases views@.len() - i,
    {
        let ghost before = r@;
        r.push(&views[i].task);
        proof {
            assert(ref_tasks(r@) =~= ref_tasks(before).push(views@[i as int].task@));
            assert(ref_tasks_of_views(views@.subrange(0, i + 1)) =~= ref_tasks_of_views(
                views@.subrange(0, i as int),
            ).push(views@[i as int].task@));
        }
        i = i + 1;
    }
    assert(views@.subrange(0, views@.len() as int) =~= views@);
    r
}

/// What the collection holds, as mathematical values.
pub ghost struct TrackerModel {
    pub tasks: Seq<TaskViewModel>,
    pub title: Seq<char>,
    pub description: Seq<char>,
    pub query_text: Seq<char>,
    pub query_status: Option<Status>,
}

impl View for TaskTracker {
    type V = TrackerModel;

    open spec fn view(&self) -> TrackerModel {
        TrackerModel {
            tasks: views_of(self.tasks@),
            title: self.title@,
            description: self.description@,
            query_text: self.filter.text@,
            query_status: self.filter.status,
        }
    }
}

/// The task that creation makes from `title` and `description`, with id `id`
/// at time `now`.
pub open spec fn created_task(title: Seq<char>, description: Seq<char>, id: u128, now: Stamp) -> TaskModel {
    TaskModel { id, title, description, status: Status::ToDo, created_at: now, modified_at: now }
}

/// `v` with a task created from `title` and `description` at the end.
pub open spec fn with_created(
    v: TrackerModel,
    title: Seq<char>,
    description: Seq<char>,
    id: u128,
    now: Stamp,
) -> TrackerModel {
    TrackerModel {
        tasks: v.tasks.push(fresh_view(created_task(title, description, id, now), State::Static)),
        ..v
    }
}

/// Creation is refused when either text is blank.
pub open spec fn creation_refused(title: Seq<char>, description: Seq<char>) -> bool {
    is_blank(title) || is_blank(description)
}

/// `i` is the first position in `s` of a view whose task has id `id`.
pub open spec fn first_view_with_id(s: Seq<TaskViewModel>, id: u128, i: int) -> bool {
    0 <= i < s.len() && s[i].task.id == id && forall|j: int| 0 <= j < i ==> s[j].task.id != id
}

pub open spec fn has_view_with_id(s: Seq<TaskViewModel>, id: u128) -> bool {
    exists|i: int| 0 <= i < s.len() && #[trigger] s[i].task.id == id
}

/// The views after an update of the first task with id `id`: its given
/// fields replaced and the task touched at `now`; nothing changes where no
/// task has that id.
pub open spec fn updated_views(
    s: Seq<TaskViewModel>,
    id: u128,
    title: Option<Seq<char>>,
    description: Option<Seq<char>>,
    status: Option<Status>,
    now: Stamp,
) -> Seq<TaskViewModel> {
    if has_view_with_id(s, id) {
        let i = choose|i: int| first_view_with_id(s, id, i);
        s.update(
            i,
            TaskViewModel { task: modified_task(s[i].task, title, description, status, now), ..s[i] },
        )
    } else {
        s
    }
}

proof fn lemma_first_view_exists(s: Seq<TaskViewModel>, id: u128, k: int)
    requires
        0 <= k < s.len(),
        s[k].task.id == id,
    ensures
        exists|i: int| first_view_with_id(s, id, i),
    decreases k,
{
    if exists|j: int| 0 <= j < k && s[j].task.id == id {
        let j = choose|j: int| 0 <= j < k && s[j].task.id == id;
        lemma_first_view_exists(s, id, j);
    } else {
        assert(first_view_with_id(s, id, k));
    }
}

proof fn lemma_first_view_unique(s: Seq<TaskViewModel>, id: u128, i: int, j: int)
    requires
        first_view_with_id(s, id, i),
        first_view_with_id(s, id, j),
    ensures
        i == j,
{
}

impl TaskTracker {
    /// The position of the first task with id `id`.
    pub fn position(&self, id: u128) -> (r: Option<usize>)
        ensures
            match r {
                Some(i) => first_view_with_id(self@.tasks, id, i as int),
                None => !has_view_with_id(self@.tasks, id),
            },
    {
        let mut i: usize = 0;
        while i < self.tasks.len()
            invariant
                0 <= i <= self.tasks@.len(),
                forall|j: int| 0 <= j < i ==> self@.tasks[j].task.id != id,
            decreases self.tasks@.len() - i,
        {
            if self.tasks[i].task.id == id {
                return Some(i);
            }
            i = i + 1;
        }
        None
    }

    /// The first task with id `id`, if any.
    pub fn get_task(&self, id: u128) -> (r: Option<&Task>)
        ensures
            match r {
                Some(t) => exists|i: int|
                    first_view_with_id(self@.tasks, id, i) && t@ == #[trigger] self@.tasks[i].task,
                None => !has_view_with_id(self@.tasks, id),
            },
    {
        match self.position(id) {
            Some(i) => Some(&self.tasks[i].task),
            None => None,
        }
    }

    /// Mutable access to the first task with id `id`, if any; the rest of the
    /// collection is left as it is.
    pub fn get_task_mut(&mut self, id: u128) -> (r: Option<&mut Task>)
        ensures
            match r {
                Some(t) => exists|i: int|
                    #![trigger old(self).tasks@[i]]
                    first_view_with_id(old(self)@.tasks, id, i) && *t == old(self).tasks@[i].task
                        && final(self).tasks@ == old(self).tasks@.update(
                        i,
                        TaskView { task: *final(t), ..old(self).tasks@[i] },
                    ) && final(self).title == old(self).title && final(self).description == old(
                        self,
                    ).description && final(self).filter == old(self).filter,
                None => !has_view_with_id(old(self)@.tasks, id) && *final(self) == *old(self),
            },
    {
        match self.position(id) {
            Some(i) => Some(&mut self.tasks[i].task),
            None => None,
        }
    }

    /// Appends a task made from `title` and `description` with id `id` at
    /// time `now`, shown read-only. No validation is done here.
    pub fn add_task_at(&mut self, title: String, description: String, id: u128, now: Stamp)
        ensures
            final(self)@ == with_created(old(self)@, title@, description@, id, now),
    {
        let t = Task::with_id_at(id, title.as_str(), description.as_str(), now);
        let v = TaskView::from_task(t);
        let ghost before = self.tasks@;
        self.tasks.push(v);
        assert(views_of(self.tasks@) =~= views_of(before).push(v@));
    }

    /// Appends a task made from `title` and `description`, with a fresh id
    /// and the local time now. No validation is done here.
    pub fn add_task(&mut self, title: String, description: String)
        ensures
            exists|id: u128, now: Stamp|
                now.valid() && final(self)@ == #[trigger] with_created(
                    old(self)@,
                    title@,
                    description@,
                    id,
                    now,
                ),
    {
        let ghost (t0, d0) = (title@, description@);
        let id = crate::ambient::fresh_id();
        let now = local_now();
        self.add_task_at(title, description, id, now);
        assert(now.valid() && self@ == with_created(old(self)@, t0, d0, id, now));
    }

    /// Creates a task from `title` and `description` with id `id` at time
    /// `now`, unless either is blank; returns whether it did.
    pub fn create_task_at(&mut self, title: &str, description: &str, id: u128, now: Stamp) -> (r: bool)
        ensures
            r == !creation_refused(title@, description@),
            r ==> final(self)@ == with_created(old(self)@, title@, description@, id, now),
            !r ==> final(self)@ == old(self)@,
    {
        if is_blank_text(title) || is_blank_text(description) {
            return false;
        }
        self.add_task_at(title.to_owned(), description.to_owned(), id, now);
        true
    }

    /// Creates a task from `title` and `description` with a fresh id at the
    /// local time now, unless either is blank; returns whether it did.
    pub fn create_task(&mut self, title: &str, description: &str) -> (r: bool)
        ensures
            r == !creation_refused(title@, description@),
            r ==> exists|id: u128, now: Stamp|
                now.valid() && final(self)@ == #[trigger] with_created(
                    old(self)@,
                    title@,
                    description@,
                    id,
                    now,
                ),
            !r ==> final(self)@ == old(self)@,
    {
        let id = crate::ambient::fresh_id();
        let now = local_now();
        let r = self.create_task_at(title, description, id, now);
        if r {
            assert(now.valid() && self@ == with_created(old(self)@, title@, description@, id, now));
        }
        r
    }

    /// Removes every task with id `id`; nothing changes where there is none.
    pub fn remove_task(&mut self, id: u128)
        ensures
            final(self)@ == (TrackerModel { tasks: without_id(old(self)@.tasks, id), ..old(self)@ }),
    {
        let mut rest: Vec<TaskView> = Vec::new();
        std::mem::swap(&mut rest, &mut self.tasks);
        let ghost orig = rest@;
        let ghost n = orig.len();
        let ghost mut k: int = 0;
        while rest.len() > 0
            invariant
                n == orig.len(),
                0 <= k <= n,
                rest@ == orig.subrange(k, n as int),
                self.title == old(self).title,
                self.description == old(self).description,
                self.filter == old(self).filter,
                orig == old(self).tasks@,
                views_of(self.tasks@) == without_id(views_of(orig.subrange(0, k)), id),
            decreases rest@.len(),
        {
            let v = rest.remove(0);
            let ghost before = self.tasks@;
            proof {
                assert(views_of(orig.subrange(0, k + 1)).drop_last() =~= views_of(
                    orig.subrange(0, k),
                ));
                assert(views_of(orig.subrange(0, k + 1)).last() == v@);
            }
            if v.task.id != id {
                self.tasks.push(v);
                assert(views_of(self.tasks@) =~= views_of(before).push(v@));
            }
            proof {
                k = k + 1;
                assert(rest@ =~= orig.subrange(k, n as int));
            }
        }
        assert(orig.subrange(0, n as int) =~= orig);
    }

    /// Updates the first task with id `id`: each given field replaced, then
    /// touched at `now`. Returns whether there was such a task; where there
    /// is none nothing changes.
    pub fn update_task_at(
        &mut self,
        id: u128,
        title: Option<String>,
        description: Option<String>,
        status: Option<Status>,
        now: Stamp,
    ) -> (r: bool)
        ensures
            r == has_view_with_id(old(self)@.tasks, id),
            final(self)@ == (TrackerModel {
                tasks: updated_views(
                    old(self)@.tasks,
                    id,
                    opt_view(title),
                    opt_view(description),
                    status,
                    now,
                ),
                ..old(self)@
            }),
    {
        let ghost (t0, d0) = (opt_view(title), opt_view(description));
        match self.position(id) {
            None => false,
            Some(i) => {
                let ghost s = old(self)@.tasks;
                let mut v = self.tasks.remove(i);
                v.task.modify_at(title, description, status, now);
                self.tasks.insert(i, v);
                proof {
                    let j = choose|j: int| first_view_with_id(s, id, j);
                    lemma_first_view_unique(s, id, i as int, j);
                    assert(views_of(self.tasks@) =~= s.update(
                        i as int,
                        TaskViewModel { task: modified_task(s[i as int].task, t0, d0, status, now), ..s[i as int] },
                    ));
                }
                true
            },
        }
    }

    /// Updates the first task with id `id` at the local time now.
    pub fn update_task(
        &mut self,
        id: u128,
        title: Option<String>,
        description: Option<String>,
        status: Option<Status>,
    ) -> (r: bool)
        ensures
            r == has_view_with_id(old(self)@.tasks, id),
            exists|now: Stamp|
                now.valid() && final(self)@ == (TrackerModel {
                    tasks: #[trigger] updated_views(
                        old(self)@.tasks,
                        id,
                        opt_view(title),
                        opt_view(description),
                        status,
                        now,
                    ),
                    ..old(self)@
                }),
    {
        let ghost (t0, d0) = (opt_view(title), opt_view(description));
        let now = local_now();
        let r = self.update_task_at(id, title, description, status, now);
        assert(now.valid() && self@ == (TrackerModel {
            tasks: updated_views(old(self)@.tasks, id, t0, d0, status, now),
            ..old(self)@
        }));
        r
    }
}

/// What a handled event asks of the interface.
#[derive(Clone, Copy, Debug, PartialEq, Eq, Structural)]
pub enum Effect {
    /// Nothing beyond showing the new state.
    Nothing,
    /// The collection changed: write it to storage.
    Save,
    /// Move the input focus forward.
    FocusNext,
    /// Move the input focus back.
    FocusPrev,
}

/// The events the collection handles.
#[derive(Debug)]
pub enum Message {
    Delete(u128),
    SetTitle(String),
    SetDescription(String),
    SetQueryText(String),
    SetQueryStatus(Option<Status>),
    Create(String, String),
    TaskMessage(u128, TaskMessage),
    FocusNext,
    FocusPrev,
}

pub open spec fn effect_of(o: Outcome) -> Effect {
    match o {
        Outcome::Idle => Effect::Nothing,
        _ => Effect::Save,
    }
}

/// Handling `message` takes the collection from `v` to `w` and asks `e` of the
/// interface; a task created on the way gets id `id`, and `now` is the time
/// of any change.
pub open spec fn dispatches(
    v: TrackerModel,
    message: Message,
    id: u128,
    now: Stamp,
    e: Effect,
    w: TrackerModel,
) -> bool {
    match message {
        Message::Delete(x) => e == Effect::Save && w == (TrackerModel {
            tasks: without_id(v.tasks, x),
            ..v
        }),
        Message::SetTitle(t) => e == Effect::Nothing && w == (TrackerModel { title: t@, ..v }),
        Message::SetDescription(d) => e == Effect::Nothing && w == (TrackerModel {
            description: d@,
            ..v
        }),
        Message::SetQueryText(t) => e == Effect::Nothing && w == (TrackerModel {
            query_text: t@,
            ..v
        }),
        Message::SetQueryStatus(s) => e == Effect::Nothing && w == (TrackerModel {
            query_status: s,
            ..v
        }),
        Message::Create(t, d) => if creation_refused(t@, d@) {
            e == Effect::Nothing && w == v
        } else {
            e == Effect::Save && w == (TrackerModel {
                title: Seq::empty(),
                description: Seq::empty(),
                ..with_created(v, t@, d@, id, now)
            })
        },
        Message::TaskMessage(x, m) => match m {
            TaskMessage::Delete(y) => e == Effect::Save && w == (TrackerModel {
                tasks: without_id(v.tasks, y),
                ..v
            }),
            TaskMessage::Update => e == Effect::Save && w == v,
            _ => if has_view_with_id(v.tasks, x) {
                let i = choose|i: int| first_view_with_id(v.tasks, x, i);
                &&& w == (TrackerModel { tasks: v.tasks.update(i, w.tasks[i]), ..v })
                &&& exists|o: Outcome|
                    #[trigger] handles(v.tasks[i], m, now, o, w.tasks[i]) && e == effect_of(o)
            } else {
                e == Effect::Nothing && w == v
            },
        },
        Message::FocusNext => e == Effect::FocusNext && w == v,
        Message::FocusPrev => e == Effect::FocusPrev && w == v,
    }
}

impl TaskTracker {
    /// Handles `message`; a task created on the way gets id `id`, and `now`
    /// is the time of any change.
    pub fn update_at(&mut self, message: Message, id: u128, now: Stamp) -> (e: Effect)
        ensures
            dispatches(old(self)@, message, id, now, e, final(self)@),
    {
        match message {
            Message::Delete(x) => {
                self.remove_task(x);
                Effect::Save
            },
            Message::SetTitle(t) => {
                self.title = t;
                Effect::Nothing
            },
            Message::SetDescription(d) => {
                self.description = d;
                Effect::Nothing
            },
            Message::SetQueryText(t) => {
                self.filter.text = t;
                Effect::Nothing
            },
            Message::SetQueryStatus(s) => {
                self.filter.status = s;
                Effect::Nothing
            },
            Message::Create(t, d) => {
                if self.create_task_at(t.as_str(), d.as_str(), id, now) {
                    self.title = String::new();
                    self.description = String::new();
                    Effect::Save
                } else {
                    Effect::Nothing
                }
            },
            Message::TaskMessage(x, m) => match m {
                TaskMessage::Delete(y) => {
                    self.remove_task(y);
                    Effect::Save
                },
                TaskMessage::Update => Effect::Save,
                other => match self.position(x) {
                    None => Effect::Nothing,
                    Some(i) => {
                        let ghost s = old(self)@.tasks;
                        let ghost msg = other;
                        let mut v = self.tasks.remove(i);
                        let ghost before = v@;
                        let o = v.update_at(other, now);
                        let ghost after = v@;
                        self.tasks.insert(i, v);
                        proof {
                            let j = choose|j: int| first_view_with_id(s, x, j);
                            lemma_first_view_unique(s, x, i as int, j);
                            assert(views_of(self.tasks@) =~= s.update(i as int, after));
                            assert(handles(before, msg, now, o, after));
                        }
                        match o {
                            Outcome::Idle => Effect::Nothing,
                            _ => Effect::Save,
                        }
                    },
                },
            },
            Message::FocusNext => Effect::FocusNext,
            Message::FocusPrev => Effect::FocusPrev,
        }
    }

    /// Handles `message`, with a fresh id for a task created on the way and
    /// the local time now as the time of any change.
    pub fn update(&mut self, message: Message) -> (e: Effect)
        ensures
            exists|id: u128, now: Stamp|
                now.valid() && #[trigger] dispatches(old(self)@, message, id, now, e, final(self)@),
    {
        let ghost msg = message;
        let id = crate::ambient::fresh_id();
        let now = local_now();
        let e = self.update_at(message, id, now);
        assert(now.valid() && dispatches(old(self)@, msg, id, now, e, self@));
        e
    }

    /// The persisted form of the collection, in order.
    pub fn to_records(&self) -> (r: Vec<TaskRecord>)
        ensures
            record_views(r@) == records_of(tasks_of(self.tasks@)),
    {
        let mut r: Vec<TaskRecord> = Vec::new();
        let mut i: usize = 0;
        while i < self.tasks.len()
            invariant
                0 <= i <= self.tasks@.len(),
                record_views(r@) == records_of(tasks_of(self.tasks@.subrange(0, i as int))),
            decreases self.tasks@.len() - i,
        {
            let rec = self.tasks[i].task.to_record();
            let ghost before = r@;
            r.push(rec);
            proof {
                assert(record_views(r@) =~= record_views(before).push(rec@));
                assert(records_of(tasks_of(self.tasks@.subrange(0, i + 1))) =~= records_of(
                    tasks_of(self.tasks@.subrange(0, i as int)),
                ).push(record_of(self.tasks@[i as int].task@)));
            }
            i = i + 1;
        }
        assert(self.tasks@.subrange(0, self.tasks@.len() as int) =~= self.tasks@);
        r
    }

    /// The collection persisted as `records`, each task shown read-only, with
    /// an empty create form and query; or the error of the first wrong record.
    pub fn from_records(records: &Vec<TaskRecord>) -> (res: Result<TaskTracker, RecordError>)
        ensures
            match (res, tasks_of_records(record_views(records@))) {
                (Ok(t), Ok(ts)) => t@ == (TrackerModel {
                    tasks: fresh_views(ts),
                    title: Seq::empty(),
                    description: Seq::empty(),
                    query_text: Seq::empty(),
                    query_status: None,
                }),
                (Err(e), Err(f)) => e == f,
                _ => false,
            },
            res is Ok ==> res->Ok_0.wf(),
    {
        proof {
            lemma_records_give_wf(record_views(records@));
        }
        let mut tasks: Vec<Task> = Vec::new();
        let mut i: usize = 0;
        assert(record_views(records@.subrange(0, 0)) =~= Seq::<RecordModel>::empty());
        assert(task_models(tasks@) =~= Seq::<TaskModel>::empty());
        while i < records.len()
            invariant
                0 <= i <= records@.len(),
                tasks_of_records(record_views(records@.subrange(0, i as int))) == Ok::<
                    Seq<TaskModel>,
                    RecordError,
                >(task_models(tasks@)),
            decreases records@.len() - i,
        {
            let ghost pre = record_views(records@.subrange(0, i as int));
            proof {
                assert(record_views(records@.subrange(0, i + 1)).drop_last() =~= pre);
                assert(record_views(records@.subrange(0, i + 1)).last() == records@[i as int]@);
            }
            match Task::from_record(&records[i]) {
                Ok(t) => {
                    let ghost before = tasks@;
                    tasks.push(t);
                    assert(task_models(tasks@) =~= task_models(before).push(t@));
                },
                Err(e) => {
                    proof {
                        lemma_records_error_sticks(records@, i as int + 1);
                    }
                    return Err(e);
                },
            }
            i = i + 1;
        }
        assert(records@.subrange(0, records@.len() as int) =~= records@);
        let t = TaskTracker::new(tasks);
        assert(t.title@ =~= Seq::<char>::empty());
        assert(t.description@ =~= Seq::<char>::empty());
        assert(t.filter.text@ =~= Seq::<char>::empty());
        Ok(t)
    }
}

/// Tasks read back from records are well-formed.
proof fn lemma_records_give_wf(rs: Seq<RecordModel>)
    ensures
        tasks_of_records(rs) is Ok ==> forall|i: int|
            0 <= i < tasks_of_records(rs)->Ok_0.len() ==> task_wf(
                #[trigger] tasks_of_records(rs)->Ok_0[i],
            ),
    decreases rs.len(),
{
    if rs.len() > 0 {
        lemma_records_give_wf(rs.drop_last());
        if tasks_of_records(rs) is Ok {
            crate::task::lemma_record_gives_wf(rs.last());
        }
    }
}

/// Once a prefix of the records fails, every longer prefix fails the same way.
proof fn lemma_records_error_sticks(rs: Seq<TaskRecord>, i: int)
    requires
        0 <= i <= rs.len(),
        tasks_of_records(record_views(rs.subrange(0, i))) is Err,
    ensures
        tasks_of_records(record_views(rs)) == tasks_of_records(record_views(rs.subrange(0, i))),
    decreases rs.len() - i,
{
    if i < rs.len() {
        assert(record_views(rs.subrange(0, i + 1)).drop_last() =~= record_views(rs.subrange(0, i)));
        lemma_records_error_sticks(rs, i + 1);
    } else {
        assert(rs.subrange(0, i) =~= rs);
    }
}

/// Persisting well-formed tasks and reading the records back gives the same
/// tasks in the same order.
pub proof fn lemma_records_round_trip(ts: Seq<TaskModel>)
    requires
        forall|i: int| 0 <= i < ts.len() ==> task_wf(#[trigger] ts[i]),
    ensures
        tasks_of_records(records_of(ts)) == Ok::<Seq<TaskModel>, RecordError>(ts),
    decreases ts.len(),
{
    if ts.len() > 0 {
        let init = ts.drop_last();
        assert(records_of(ts).drop_last() =~= records_of(init));
        assert(task_wf(ts[ts.len() - 1]));
        lemma_records_round_trip(init);
        lemma_record_round_trip(ts.last());
        assert(records_of(ts).last() == record_of(ts.last()));
        assert(records_of(ts).len() > 0);
        assert(init.push(ts.last()) =~= ts);
        assert(tasks_of_records(records_of(ts)) == Ok::<Seq<TaskModel>, RecordError>(
            init.push(ts.last()),
        ));
    } else {
        assert(records_of(ts) =~= Seq::<RecordModel>::empty());
        assert(ts =~= Seq::<TaskModel>::empty());
    }
}

/// Deleting an id that no task has leaves the tasks as they are.
pub proof fn lemma_remove_absent_id(s: Seq<TaskViewModel>, id: u128)
    requires
        !has_view_with_id(s, id),
    ensures
        without_id(s, id) == s,
    decreases s.len(),
{
    if s.len() > 0 {
        let init = s.drop_last();
        assert(!has_view_with_id(init, id)) by {
            if has_view_with_id(init, id) {
                let i = choose|i: int| 0 <= i < init.len() && #[trigger] init[i].task.id == id;
                assert(s[i].task.id == id);
            }
        }
        lemma_remove_absent_id(init, id);
        assert(s[s.len() - 1].task.id != id);
        assert(init.push(s.last()) =~= s);
    }
}

/// After a deletion no task has the deleted id, so deleting it again changes nothing.
pub proof fn lemma_remove_twice(s: Seq<TaskViewModel>, id: u128)
    ensures
        !has_view_with_id(without_id(s, id), id),
        without_id(without_id(s, id), id) == without_id(s, id),
    decreases s.len(),
{
    if s.len() > 0 {
        lemma_remove_twice(s.drop_last(), id);
        let p = without_id(s.drop_last(), id);
        if s.last().task.id != id {
            assert(!has_view_with_id(p.push(s.last()), id)) by {
                if has_view_with_id(p.push(s.last()), id) {
                    let i = choose|i: int|
                        0 <= i < p.push(s.last()).len() && #[trigger] p.push(s.last())[i].task.id
                            == id;
                    if i < p.len() {
                        assert(p[i].task.id == id);
                    }
                }
            }
        }
    }
    lemma_remove_absent_id(without_id(s, id), id);
}

/// Every task of the collection is well-formed.
pub open spec fn tracker_wf(v: TrackerModel) -> bool {
    forall|i: int| 0 <= i < v.tasks.len() ==> task_wf(#[trigger] v.tasks[i].task)
}

proof fn lemma_without_id_keeps_wf(s: Seq<TaskViewModel>, id: u128)
    requires
        forall|i: int| 0 <= i < s.len() ==> task_wf(#[trigger] s[i].task),
    ensures
        forall|i: int|
            0 <= i < without_id(s, id).len() ==> task_wf(#[trigger] without_id(s, id)[i].task),
    decreases s.len(),
{
    if s.len() > 0 {
        let init = s.drop_last();
        assert forall|i: int| 0 <= i < init.len() implies task_wf(#[trigger] init[i].task) by {
            assert(init[i] == s[i]);
        }
        lemma_without_id_keeps_wf(init, id);
        assert(task_wf(s[s.len() - 1].task));
    }
}

/// Handling any event keeps every task well-formed: no task is ever
/// modified before it was created, and every stamp stays valid.
pub proof fn lemma_dispatch_keeps_wf(
    v: TrackerModel,
    message: Message,
    id: u128,
    now: Stamp,
    e: Effect,
    w: TrackerModel,
)
    requires
        tracker_wf(v),
        now.valid(),
        dispatches(v, message, id, now, e, w),
    ensures
        tracker_wf(w),
{
    match message {
        Message::Delete(x) => {
            lemma_without_id_keeps_wf(v.tasks, x);
        },
        Message::Create(t, d) => {
            if !creation_refused(t@, d@) {
                assert forall|i: int| 0 <= i < w.tasks.len() implies task_wf(
                    #[trigger] w.tasks[i].task,
                ) by {
                    if i < v.tasks.len() {
                        assert(w.tasks[i] == v.tasks[i]);
                    }
                }
            }
        },
        Message::TaskMessage(x, m) => match m {
            TaskMessage::Delete(y) => {
                lemma_without_id_keeps_wf(v.tasks, y);
            },
            TaskMessage::Update => {},
            _ => {
                if has_view_with_id(v.tasks, x) {
                    let k = choose|k: int| 0 <= k < v.tasks.len() && #[trigger] v.tasks[k].task.id == x;
                    lemma_first_view_exists(v.tasks, x, k);
                    let i = choose|i: int| first_view_with_id(v.tasks, x, i);
                    let o = choose|o: Outcome|
                        #[trigger] handles(v.tasks[i], m, now, o, w.tasks[i]) && e == effect_of(o);
                    let t = v.tasks[i].task;
                    assert(task_wf(t));
                    match m {
                        TaskMessage::Modify { title, description, status } => {
                            lemma_modify_touches(t, opt_view(title), opt_view(description), status, now);
                        },
                        TaskMessage::Accept => {
                            let d = crate::task::edit_diff(v.tasks[i]);
                            lemma_modify_touches(t, d.0, d.1, d.2, now);
                        },
                        _ => {},
                    }
                    assert(task_wf(w.tasks[i].task));
                    assert forall|j: int| 0 <= j < w.tasks.len() implies task_wf(
                        #[trigger] w.tasks[j].task,
                    ) by {
                        if j != i {
                            assert(w.tasks[j] == v.tasks[j]);
                        }
                    }
                }
            },
        },
        _ => {},
    }
}

} // verus!
