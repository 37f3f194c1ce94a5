//! The session todo list: how a new list keeps the ids of known tasks and
//! numbers the new ones, and how it is shown.

use vstd::prelude::*;
use crate::num::{decimal, decimal_string, parse_uint, parse_uint_exec};
use crate::styled::{plain_style, spans_view, tone_style, StyledSpan, TextStyle, Tone};
use crate::text::{chars_of, join, join_str, str_eq, views};

verus! {

/// A task of the todo list.
pub struct Task {
    pub id: String,
    pub agent: Option<String>,
    pub title: String,
    pub status: String,
    pub priority: Option<String>,
    pub created_at: String,
    pub updated_at: String,
}

/// One item of a new list as the model sent it; missing fields are none.
pub struct TodoInput {
    pub content: Option<String>,
    pub status: Option<String>,
    pub priority: Option<String>,
}

/// A task by its view: id, title, status and priority.
pub struct TaskView {
    pub id: Seq<char>,
    pub title: Seq<char>,
    pub status: Seq<char>,
    pub priority: Option<Seq<char>>,
}

pub open spec fn opt_string_view(o: Option<String>) -> Option<Seq<char>> {
    match o {
        Some(s) => Some(s@),
        None => None,
    }
}

pub open spec fn task_view(t: Task) -> TaskView {
    TaskView { id: t.id@, title: t.title@, status: t.status@, priority: opt_string_view(t.priority) }
}

pub open spec fn tasks_view(v: Seq<Task>) -> Seq<TaskView> {
    v.map_values(|t: Task| task_view(t))
}

/// The id of the last known task with this title, if any.
pub open spec fn known_id(existing: Seq<Task>, title: Seq<char>) -> Option<Seq<char>>
    decreases existing.len(),
{
    if existing.len() == 0 {
        None
    } else if existing.last().title@ == title {
        Some(existing.last().id@)
    } else {
        known_id(existing.drop_last(), title)
    }
}

/// The largest id among the known tasks that is a number, 0 if none is.
pub open spec fn max_numeric_id(existing: Seq<Task>) -> nat
    decreases existing.len(),
{
    if existing.len() == 0 {
        0
    } else {
        let rest = max_numeric_id(existing.drop_last());
        match parse_uint(existing.last().id@, 10, usize::MAX as nat) {
            Some(n) => if n > rest {
                n
            } else {
                rest
            },
            None => rest,
        }
    }
}

/// The title of an item: its content, or empty.
pub open spec fn item_title(item: TodoInput) -> Seq<char> {
    match item.content {
        Some(c) => c@,
        None => Seq::empty(),
    }
}

/// The tasks made of the first `k` items and the next fresh number: a task
/// keeps the id of the known task with its title, else takes the next
/// fresh number; its status defaults to `pending`.
pub open spec fn assign(existing: Seq<Task>, items: Seq<TodoInput>, k: int) -> (Seq<TaskView>, nat)
    decreases k,
{
    if k <= 0 || k > items.len() {
        (seq![], max_numeric_id(existing) + 1)
    } else {
        let (done, next) = assign(existing, items, k - 1);
        let item = items[k - 1];
        let title = item_title(item);
        let (id, next2) = match known_id(existing, title) {
            Some(id) => (id, next),
            None => (decimal(next), next + 1),
        };
        let status = match item.status {
            Some(s) => s@,
            None => "pending"@,
        };
        (done.push(TaskView { id, title, status, priority: opt_string_view(item.priority) }), next2)
    }
}

fn known_id_exec(existing: &Vec<Task>, title: &str) -> (r: Option<String>)
    ensures
        r matches Some(id) ==> known_id(existing@, title@) == Some(id@),
        r is None ==> known_id(existing@, title@) is None,
{
    let mut j = existing.len();
    proof {
        assert(existing@.take(j as int) =~= existing@);
    }
    while j > 0
        invariant
            j <= existing.len(),
            known_id(existing@, title@) == known_id(existing@.take(j as int), title@),
        decreases j,
    {
        proof {
            assert(existing@.take(j as int).drop_last() =~= existing@.take(j - 1));
            assert(existing@.take(j as int).last() == existing@[j - 1]);
        }
        if str_eq(existing[j - 1].title.as_str(), title) {
            return Some(existing[j - 1].id.clone());
        }
        j -= 1;
    }
    proof {
        assert(existing@.take(0).len() == 0);
    }
    None
}

fn max_numeric_id_exec(existing: &Vec<Task>) -> (r: u64)
    ensures
        r == max_numeric_id(existing@),
{
    let mut m: u64 = 0;
    let mut i: usize = 0;
    proof {
        assert(existing@.take(0) =~= Seq::<Task>::empty());
    }
    while i < existing.len()
        invariant
            i <= existing.len(),
            m == max_numeric_id(existing@.take(i as int)),
            m <= usize::MAX,
        decreases existing.len() - i,
    {
        proof {
            assert(existing@.take(i + 1).drop_last() =~= existing@.take(i as int));
            assert(existing@.take(i + 1).last() == existing@[i as int]);
        }
        let v = chars_of(existing[i].id.as_str());
        proof {
            assert(v@.subrange(0, v@.len() as int) =~= v@);
        }
        match parse_uint_exec(&v, 0, v.len(), 10, usize::MAX as u64) {
            Some(n) => {
                if n > m {
                    m = n;
                }
            },
            None => {},
        }
        i += 1;
    }
    proof {
        assert(existing@.take(existing.len() as int) =~= existing@);
    }
    m
}

/// The new todo list (see `assign`); every task is stamped with `now`.
pub fn assign_tasks(existing: &Vec<Task>, items: &Vec<TodoInput>, now: &str) -> (r: Vec<Task>)
    requires
        max_numeric_id(existing@) + items.len() + 1 <= usize::MAX,
    ensures
        tasks_view(r@) == assign(existing@, items@, items.len() as int).0,
        forall|i: int| 0 <= i < r.len() ==> (#[trigger] r@[i]).agent is None && r@[i].created_at@
            == now@ && r@[i].updated_at@ == now@,
{
    let mut next: u64 = max_numeric_id_exec(existing) + 1;
    let mut out: Vec<Task> = Vec::new();
    let mut i: usize = 0;
    while i < items.len()
        invariant
            i <= items.len(),
            max_numeric_id(existing@) + items.len() + 1 <= usize::MAX,
            (tasks_view(out@), next as nat) == assign(existing@, items@, i as int),
            next <= max_numeric_id(existing@) + 1 + i,
            forall|k: int| 0 <= k < out.len() ==> (#[trigger] out@[k]).agent is None
                && out@[k].created_at@ == now@ && out@[k].updated_at@ == now@,
        decreases items.len() - i,
    {
        let item = &items[i];
        let title = match &item.content {
            Some(c) => c.clone(),
            None => String::new(),
        };
        let id = match known_id_exec(existing, title.as_str()) {
            Some(id) => id,
            None => {
                let s = decimal_string(next);
                next = next + 1;
                s
            },
        };
        let status = match &item.status {
            Some(s) => s.clone(),
            None => String::from_str("pending"),
        };
        let priority = match &item.priority {
            Some(p) => Some(p.clone()),
            None => None,
        };
        let t = Task {
            id,
            agent: None,
            title,
            status,
            priority,
            created_at: String::from_str(now),
            updated_at: String::from_str(now),
        };
        let ghost before = tasks_view(out@);
        out.push(t);
        proof {
            assert(tasks_view(out@) =~= before.push(task_view(t)));
        }
        i += 1;
    }
    out
}

/// Fresh numbers handed out by `assign` only grow: the next one is always
/// above every number already given and above every numeric known id.
pub proof fn lemma_fresh_ids_grow(existing: Seq<Task>, items: Seq<TodoInput>, k: int)
    requires
        0 <= k <= items.len(),
    ensures
        assign(existing, items, k).1 > max_numeric_id(existing),
        k > 0 ==> assign(existing, items, k).1 >= assign(existing, items, k - 1).1,
    decreases k,
{
    if k > 0 {
        lemma_fresh_ids_grow(existing, items, k - 1);
    }
}

/// The check mark of a status.
pub open spec fn status_mark(status: Seq<char>) -> Seq<char> {
    if status == "completed"@ {
        "[x]"@
    } else if status == "in_progress"@ {
        "[~]"@
    } else if status == "cancelled"@ {
        "[-]"@
    } else {
        "[ ]"@
    }
}

/// A task's line: mark, title, and status with priority in parentheses.
pub open spec fn task_line(t: TaskView) -> Seq<char> {
    status_mark(t.status) + " "@ + t.title + " ("@ + t.status + ", "@ + (match t.priority {
        Some(p) => p,
        None => Seq::empty(),
    }) + ")"@
}

/// The tool's reply after replacing the list.
pub open spec fn spec_render_todos(ts: Seq<TaskView>) -> Seq<char> {
    "Updated todo list ("@ + decimal(ts.len()) + " items):\n"@ + join(
        Seq::new(ts.len(), |i: int| task_line(ts[i])),
        "\n"@,
    )
}

pub fn render_todos(tasks: &Vec<Task>) -> (r: String)
    ensures
        r@ == spec_render_todos(tasks_view(tasks@)),
{
    let ghost tv = tasks_view(tasks@);
    let mut lines: Vec<String> = Vec::new();
    let mut i: usize = 0;
    while i < tasks.len()
        invariant
            tv == tasks_view(tasks@),
            i <= tasks.len(),
            views(lines@) =~= Seq::new(tv.len(), |k: int| task_line(tv[k])).take(i as int),
        decreases tasks.len() - i,
    {
        let t = &tasks[i];
        let s = t.status.as_str();
        let mark = if str_eq(s, "completed") {
            "[x]"
        } else if str_eq(s, "in_progress") {
            "[~]"
        } else if str_eq(s, "cancelled") {
            "[-]"
        } else {
            "[ ]"
        };
        let mut line = String::from_str(mark);
        line.append(" ");
        line.append(t.title.as_str());
        line.append(" (");
        line.append(s);
        line.append(", ");
        match &t.priority {
            Some(p) => line.append(p.as_str()),
            None => {},
        }
        line.append(")");
        proof {
            assert(tv[i as int] == task_view(tasks@[i as int]));
            assert(line@ =~= task_line(tv[i as int]));
        }
        let ghost before = views(lines@);
        lines.push(line);
        proof {
            assert(views(lines@) =~= before.push(line@));
        }
        i += 1;
    }
    proof {
        assert(Seq::new(tv.len(), |k: int| task_line(tv[k])).take(tasks.len() as int) =~= Seq::new(
            tv.len(),
            |k: int| task_line(tv[k]),
        ));
    }
    let mut r = String::from_str("Updated todo list (");
    r.append(decimal_string(tasks.len() as u64).as_str());
    r.append(" items):\n");
    r.append(join_str(&lines, "\n").as_str());
    r
}


/// The number of completed tasks.
pub open spec fn completed_count(tasks: Seq<Task>) -> nat
    decreases tasks.len(),
{
    if tasks.len() == 0 {
        0
    } else {
        completed_count(tasks.drop_last()) + if tasks.last().status@ == "completed"@ { 1nat } else { 0nat }
    }
}

/// A task's line in the sidebar: a mark of its status and its title; done
/// and cancelled tasks muted, the task in progress highlighted.
pub open spec fn panel_line(t: Task) -> (Seq<char>, TextStyle) {
    let st = t.status@;
    if st == "completed"@ {
        ("[x] "@ + t.title@, tone_style(Tone::Muted))
    } else if st == "in_progress"@ {
        ("[~] "@ + t.title@, tone_style(Tone::Assistant))
    } else if st == "cancelled"@ {
        ("[-] "@ + t.title@, tone_style(Tone::Muted))
    } else {
        ("[ ] "@ + t.title@, tone_style(Tone::Sidebar))
    }
}

/// The sidebar's todo panel: none for an empty list; else its title,
/// ` TODO done/total `, and a line per task.
pub open spec fn spec_todo_panel(tasks: Seq<Task>) -> Option<(Seq<char>, Seq<(Seq<char>, TextStyle)>)> {
    if tasks.len() == 0 {
        None
    } else {
        Some((
            " TODO "@ + decimal(completed_count(tasks)) + "/"@ + decimal(tasks.len()) + " "@,
            tasks.map_values(|t: Task| panel_line(t)),
        ))
    }
}

/// The sidebar's todo panel (see `spec_todo_panel`).
pub fn todo_panel(tasks: &Vec<Task>) -> (r: Option<(String, Vec<StyledSpan>)>)
    ensures
        match r {
            Some((title, lines)) => spec_todo_panel(tasks@) == Some((title@, spans_view(lines@))),
            None => spec_todo_panel(tasks@) is None,
        },
{
    if tasks.len() == 0 {
        return None;
    }
    let mut done: usize = 0;
    let mut lines: Vec<StyledSpan> = Vec::new();
    let mut i: usize = 0;
    while i < tasks.len()
        invariant
            i <= tasks.len(),
            done == completed_count(tasks@.take(i as int)),
            done <= i,
            spans_view(lines@) =~= tasks@.map_values(|t: Task| panel_line(t)).take(i as int),
        decreases tasks.len() - i,
    {
        let t = &tasks[i];
        let st = t.status.as_str();
        let (mark, style, finished) = if str_eq(st, "completed") {
            ("[x] ", plain_style(Tone::Muted), true)
        } else if str_eq(st, "in_progress") {
            ("[~] ", plain_style(Tone::Assistant), false)
        } else if str_eq(st, "cancelled") {
            ("[-] ", plain_style(Tone::Muted), false)
        } else {
            ("[ ] ", plain_style(Tone::Sidebar), false)
        };
        let mut text = String::from_str(mark);
        text.append(t.title.as_str());
        let ghost before = spans_view(lines@);
        lines.push(StyledSpan { text: text, style: style });
        proof {
            assert(tasks@.take(i + 1).drop_last() =~= tasks@.take(i as int));
            assert(spans_view(lines@) =~= before.push((text@, style)));
            assert((text@, style) == panel_line(tasks@[i as int]));
            assert(tasks@.map_values(|t: Task| panel_line(t)).take(i + 1)
                =~= tasks@.map_values(|t: Task| panel_line(t)).take(i as int).push(panel_line(tasks@[i as int])));
        }
        if finished {
            done = done + 1;
        }
        i += 1;
    }
    proof {
        assert(tasks@.take(tasks.len() as int) =~= tasks@);
        assert(tasks@.map_values(|t: Task| panel_line(t)).take(tasks.len() as int)
            =~= tasks@.map_values(|t: Task| panel_line(t)));
    }
    let mut title = String::from_str(" TODO ");
    title.append(decimal_string(done as u64).as_str());
    title.append("/");
    title.append(decimal_string(tasks.len() as u64).as_str());
    title.append(" ");
    Some((title, lines))
}

} // verus!
