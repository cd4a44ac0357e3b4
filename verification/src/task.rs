//! A task as the lists hold it.

use vstd::prelude::*;
use crate::text::texts;

verus! {

/// One task. `position` orders the active list; `tags` are kept trimmed
/// and without empty entries.
#[derive(Debug, PartialEq, Eq)]
pub struct Task {
    pub id: i64,
    pub title: String,
    pub position: i64,
    pub done: bool,
    pub created_at: String,
    pub notes: String,
    pub tags: Vec<String>,
}

/// What a task holds, as mathematical values.
pub struct TaskView {
    pub id: i64,
    pub title: Seq<char>,
    pub position: i64,
    pub done: bool,
    pub created_at: Seq<char>,
    pub notes: Seq<char>,
    pub tags: Seq<Seq<char>>,
}

impl View for Task {
    type V = TaskView;

    open spec fn view(&self) -> TaskView {
        TaskView {
            id: self.id,
            title: self.title@,
            position: self.position,
            done: self.done,
            created_at: self.created_at@,
            notes: self.notes@,
            tags: texts(self.tags@),
        }
    }
}

/// The views of a list of tasks.
pub open spec fn views(s: Seq<Task>) -> Seq<TaskView> {
    s.map_values(|t: Task| t@)
}

/// A copy of a list of strings.
pub fn copy_strings(v: &Vec<String>) -> (r: Vec<String>)
    ensures
        texts(r@) == texts(v@),
{
    let mut r: Vec<String> = Vec::new();
    let mut i: usize = 0;
    while i < v.len()
        invariant
            i <= v.len(),
            r.len() == i,
            forall|k: int| 0 <= k < i ==> (#[trigger] r@[k])@ == v@[k]@,
        decreases v.len() - i,
    {
        r.push(v[i].clone());
        i = i + 1;
    }
    proof {
        assert(texts(r@) =~= texts(v@));
    }
    r
}

impl Task {
    /// A field-by-field copy.
    pub fn duplicate(&self) -> (r: Task)
        ensures
            r@ == self@,
    {
        Task {
            id: self.id,
            title: self.title.clone(),
            position: self.position,
            done: self.done,
            created_at: self.created_at.clone(),
            notes: self.notes.clone(),
            tags: copy_strings(&self.tags),
        }
    }
}

} // verus!

verus! {

impl TaskView {
    pub open spec fn with_position(self, p: i64) -> TaskView {
        TaskView { position: p, ..self }
    }

    pub open spec fn with_done(self, d: bool) -> TaskView {
        TaskView { done: d, ..self }
    }

    pub open spec fn with_title(self, t: Seq<char>) -> TaskView {
        TaskView { title: t, ..self }
    }

    pub open spec fn with_notes(self, n: Seq<char>) -> TaskView {
        TaskView { notes: n, ..self }
    }

    pub open spec fn with_tags(self, t: Seq<Seq<char>>) -> TaskView {
        TaskView { tags: t, ..self }
    }
}

/// The largest position among the first `n` tasks (`n > 0`).
pub open spec fn max_position_upto(s: Seq<TaskView>, n: nat) -> i64
    decreases n,
{
    if n <= 1 {
        s[0].position
    } else {
        let m = max_position_upto(s, (n - 1) as nat);
        if m < s[n - 1].position {
            s[n - 1].position
        } else {
            m
        }
    }
}

/// The position a task appended to the list gets: one past the largest
/// position in it, or 1 for an empty list.
pub open spec fn next_position(s: Seq<TaskView>) -> int {
    if s.len() == 0 {
        1
    } else {
        max_position_upto(s, s.len()) + 1
    }
}

/// No position is the largest `i64`, so `next_position` is an `i64`.
pub open spec fn positions_fit(s: Seq<TaskView>) -> bool {
    forall|i: int| 0 <= i < s.len() ==> (#[trigger] s[i]).position < i64::MAX
}

pub proof fn lemma_max_position_upto(s: Seq<TaskView>, n: nat)
    requires
        0 < n <= s.len(),
    ensures
        forall|i: int| 0 <= i < n ==> (#[trigger] s[i]).position <= max_position_upto(s, n),
        exists|i: int| 0 <= i < n && (#[trigger] s[i]).position == max_position_upto(s, n),
    decreases n,
{
    if n > 1 {
        lemma_max_position_upto(s, (n - 1) as nat);
        let m = max_position_upto(s, (n - 1) as nat);
        if m < s[n - 1].position {
            assert(s[n - 1].position == max_position_upto(s, n));
        } else {
            let i = choose|i: int| 0 <= i < n - 1 && (#[trigger] s[i]).position == m;
            assert(s[i].position == max_position_upto(s, n));
        }
    } else {
        assert(s[0].position == max_position_upto(s, n));
    }
}

/// `next_position` of the tasks of a list.
pub fn compute_next_position(tasks: &Vec<Task>) -> (r: i64)
    requires
        positions_fit(views(tasks@)),
    ensures
        r == next_position(views(tasks@)),
{
    if tasks.len() == 0 {
        return 1;
    }
    let ghost s = views(tasks@);
    let mut m = tasks[0].position;
    let mut i: usize = 1;
    while i < tasks.len()
        invariant
            1 <= i <= tasks.len(),
            s == views(tasks@),
            m == max_position_upto(s, i as nat),
        decreases tasks.len() - i,
    {
        if m < tasks[i].position {
            m = tasks[i].position;
        }
        i = i + 1;
    }
    proof {
        lemma_max_position_upto(s, s.len());
        let k = choose|k: int| 0 <= k < s.len() && (#[trigger] s[k]).position == m;
        assert(s[k].position < i64::MAX);
    }
    m + 1
}

} // verus!
