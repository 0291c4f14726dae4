//! The task list: tasks to tick off, each with a count of the focus
//! sessions spent on it, and one task that focus sessions are credited to.

use vstd::prelude::*;
use vstd::string::*;
use crate::clock::{utc_now, UtcTime};
use crate::text::{decimal, lemma_decimal_digits, lemma_decimal_injective, push_decimal, str_eq};

verus! {

/// A task.
pub struct Todo {
    pub id: String,
    pub title: String,
    pub done: bool,
    pub pomodoros_done: u32,
    pub pomodoros_estimated: u32,
    pub created_at: UtcTime,
    pub completed_at: Option<UtcTime>,
}

impl Clone for Todo {
    fn clone(&self) -> (r: Self)
        ensures
            r == *self,
    {
        Todo {
            id: self.id.clone(),
            title: self.title.clone(),
            done: self.done,
            pomodoros_done: self.pomodoros_done,
            pomodoros_estimated: self.pomodoros_estimated,
            created_at: self.created_at.clone(),
            completed_at: match &self.completed_at {
                Some(t) => Some(t.clone()),
                None => None,
            },
        }
    }
}

/// The tasks, in the order they were added, and the one being worked on.
pub struct TodoStore {
    pub version: u32,
    pub active_id: Option<String>,
    pub items: Vec<Todo>,
}

impl Default for TodoStore {
    fn default() -> (r: Self)
        ensures
            r.version == 1,
            r.active_id is None,
            r.items@.len() == 0,
    {
        TodoStore { version: 1, active_id: None, items: Vec::new() }
    }
}

/// The id `generate_id` writes: the milliseconds, a dash, the sequence
/// number.
pub open spec fn id_text(millis: nat, seq: nat) -> Seq<char> {
    decimal(millis).push('-') + decimal(seq)
}

/// A task id made of a clock reading in milliseconds and a sequence number
/// that the caller never hands out twice.
pub fn generate_id(millis: u128, seq: u64) -> (id: String)
    ensures
        id@ == id_text(millis as nat, seq as nat),
{
    let mut id = String::new();
    push_decimal(&mut id, millis);
    proof { reveal_strlit("-"); }
    id.append("-");
    push_decimal(&mut id, seq as u128);
    id
}

/// Ids made of different pairs of a clock reading and a sequence number
/// differ: the text `millis-seq` gives both numbers back. So ids never repeat
/// while the sequence numbers do not.
pub proof fn lemma_ids_differ(m1: nat, s1: nat, m2: nat, s2: nat)
    requires
        m1 != m2 || s1 != s2,
    ensures
        id_text(m1, s1) != id_text(m2, s2),
{
    let a = decimal(m1);
    let b = decimal(m2);
    let x = id_text(m1, s1);
    let y = id_text(m2, s2);
    lemma_decimal_digits(m1);
    lemma_decimal_digits(m2);
    lemma_decimal_digits(s1);
    lemma_decimal_digits(s2);
    if x == y {
        assert(x[a.len() as int] == '-');
        assert(y[b.len() as int] == '-');
        if a.len() < b.len() {
            assert(y[a.len() as int] == b[a.len() as int]);
        } else if b.len() < a.len() {
            assert(x[b.len() as int] == a[b.len() as int]);
        }
        assert(a =~= x.subrange(0, a.len() as int));
        assert(b =~= y.subrange(0, b.len() as int));
        lemma_decimal_injective(m1, m2);
        assert(decimal(s1) =~= x.subrange(a.len() as int + 1, x.len() as int));
        assert(decimal(s2) =~= y.subrange(b.len() as int + 1, y.len() as int));
        lemma_decimal_injective(s1, s2);
    }
}

/// Whether some task in `items` has the id `id`.
pub open spec fn has_id(items: Seq<Todo>, id: Seq<char>) -> bool {
    exists|i: int| 0 <= i < items.len() && #[trigger] items[i].id@ == id
}

/// Whether `i` is the first task in `items` with the id `id`: the one every
/// operation on that id acts on.
pub open spec fn is_first_with_id(items: Seq<Todo>, id: Seq<char>, i: int) -> bool {
    &&& 0 <= i < items.len()
    &&& items[i].id@ == id
    &&& forall|j: int| 0 <= j < i ==> #[trigger] items[j].id@ != id
}

/// The first task in `items` with the id `id` (meaningful where there is
/// one).
pub open spec fn first_with_id(items: Seq<Todo>, id: Seq<char>) -> int {
    choose|i: int| is_first_with_id(items, id, i)
}

/// The positions of the tasks of `items` whose `done` is `done`, in order.
pub open spec fn indices_where(items: Seq<Todo>, done: bool) -> Seq<int>
    decreases items.len(),
{
    if items.len() == 0 {
        seq![]
    } else if items.last().done == done {
        indices_where(items.drop_last(), done).push(items.len() - 1)
    } else {
        indices_where(items.drop_last(), done)
    }
}

/// Whether a task is not done.
pub open spec fn is_open() -> spec_fn(Todo) -> bool {
    |t: Todo| !t.done
}

/// Whether a task's id is other than `id`.
pub open spec fn id_other_than(id: Seq<char>) -> spec_fn(Todo) -> bool {
    |t: Todo| t.id@ != id
}

/// The tasks that are not done.
pub open spec fn open_tasks(items: Seq<Todo>) -> Seq<Todo> {
    items.filter(is_open())
}

/// The tasks whose id is not `id`.
pub open spec fn without_id(items: Seq<Todo>, id: Seq<char>) -> Seq<Todo> {
    items.filter(id_other_than(id))
}

/// `new` is `old` with only `done` flipped, finished exactly when done.
pub open spec fn toggled(old: Todo, new: Todo) -> bool {
    &&& new.id == old.id
    &&& new.title == old.title
    &&& new.done == !old.done
    &&& new.pomodoros_done == old.pomodoros_done
    &&& new.pomodoros_estimated == old.pomodoros_estimated
    &&& new.created_at == old.created_at
    &&& (new.completed_at is Some <==> new.done)
}

/// Whether the task with id `id` is the one being worked on.
pub open spec fn is_active_id(active: Option<String>, id: Seq<char>) -> bool {
    active matches Some(a) && a@ == id
}

/// The task being worked on, where it is in the list.
pub open spec fn active_index(store: TodoStore) -> Option<int> {
    match store.active_id {
        Some(a) => if has_id(store.items@, a@) { Some(first_with_id(store.items@, a@)) } else { None },
        None => None,
    }
}

/// Whether crediting a focus session to the task with id `id` keeps its
/// count in a `u32`.
pub open spec fn can_credit(items: Seq<Todo>, id: Seq<char>) -> bool {
    has_id(items, id) ==> items[first_with_id(items, id)].pomodoros_done < u32::MAX
}

/// Whether crediting the task being worked on keeps its count in a `u32`.
pub open spec fn can_credit_active(store: TodoStore) -> bool {
    store.active_id matches Some(a) ==> can_credit(store.items@, a@)
}

proof fn lemma_first_is_unique(items: Seq<Todo>, id: Seq<char>, i: int)
    requires
        is_first_with_id(items, id, i),
    ensures
        has_id(items, id),
        first_with_id(items, id) == i,
{
    assert(items[i].id@ == id);
    let k = first_with_id(items, id);
    assert(is_first_with_id(items, id, k));
    if k < i {
        assert(items[k].id@ != id);
    } else if k > i {
        assert(items[i].id@ != id);
    }
}

impl TodoStore {
    /// Where the first task with id `id` stands, if any.
    pub fn position(&self, id: &str) -> (r: Option<usize>)
        ensures
            r matches Some(i) ==> is_first_with_id(self.items@, id@, i as int) && first_with_id(self.items@, id@) == i,
            r is None <==> !has_id(self.items@, id@),
    {
        let n = self.items.len();
        let mut i: usize = 0;
        while i < n
            invariant
                n == self.items@.len(),
                i <= n,
                forall|j: int| 0 <= j < i ==> #[trigger] self.items@[j].id@ != id@,
            decreases n - i,
        {
            if str_eq(self.items[i].id.as_str(), id) {
                proof { lemma_first_is_unique(self.items@, id@, i as int); }
                return Some(i);
            }
            i = i + 1;
        }
        proof {
            if has_id(self.items@, id@) {
                let k = choose|k: int| 0 <= k < self.items@.len() && #[trigger] self.items@[k].id@ == id@;
                assert(self.items@[k].id@ != id@);
            }
        }
        None
    }

    /// Adds an open task with the title `title` at the end of the list, under
    /// the id made of `millis` and `seq` (see [`generate_id`]), created at the
    /// instant `now`. Returns the id.
    pub fn add_at(&mut self, title: String, millis: u128, seq: u64, now: UtcTime) -> (id: String)
        ensures
            id@ == id_text(millis as nat, seq as nat),
            final(self).version == old(self).version,
            final(self).active_id == old(self).active_id,
            final(self).items@ == old(self).items@.push(
                Todo {
                    id,
                    title,
                    done: false,
                    pomodoros_done: 0,
                    pomodoros_estimated: 0,
                    created_at: now,
                    completed_at: None,
                },
            ),
    {
        let id = generate_id(millis, seq);
        let todo = Todo {
            id: id.clone(),
            title,
            done: false,
            pomodoros_done: 0,
            pomodoros_estimated: 0,
            created_at: now,
            completed_at: None,
        };
        self.items.push(todo);
        id
    }

    /// Adds an open task as [`TodoStore::add_at`] does, created now. Returns
    /// its id, or `None`, changing nothing, where the clock cannot be read
    /// (see [`utc_now`]).
    pub fn add(&mut self, title: String, millis: u128, seq: u64) -> (id: Option<String>)
        ensures
            id is None ==> *final(self) == *old(self),
            id matches Some(id) ==> {
                &&& id@ == id_text(millis as nat, seq as nat)
                &&& final(self).version == old(self).version
                &&& final(self).active_id == old(self).active_id
                &&& final(self).items@.len() == old(self).items@.len() + 1
                &&& final(self).items@.drop_last() == old(self).items@
                &&& final(self).items@.last().id == id
                &&& final(self).items@.last().title == title
                &&& !final(self).items@.last().done
                &&& final(self).items@.last().pomodoros_done == 0
                &&& final(self).items@.last().pomodoros_estimated == 0
                &&& final(self).items@.last().completed_at is None
            },
    {
        match utc_now() {
            Some(now) => {
                let id = self.add_at(title, millis, seq, now);
                assert(self.items@.drop_last() =~= old(self).items@);
                Some(id)
            },
            None => None,
        }
    }

    /// Marks the first task with id `id` done, or open again; a task done is
    /// stamped with the instant `now`, and an opened one loses its stamp.
    /// Returns whether there was such a task.
    pub fn toggle_at(&mut self, id: &str, now: UtcTime) -> (found: bool)
        ensures
            found == has_id(old(self).items@, id@),
            final(self).version == old(self).version,
            final(self).active_id == old(self).active_id,
            found ==> final(self).items@ == old(self).items@.update(
                first_with_id(old(self).items@, id@),
                Todo {
                    done: !old(self).items@[first_with_id(old(self).items@, id@)].done,
                    completed_at: if old(self).items@[first_with_id(old(self).items@, id@)].done {
                        None
                    } else {
                        Some(now)
                    },
                    ..old(self).items@[first_with_id(old(self).items@, id@)]
                },
            ),
            !found ==> final(self).items@ == old(self).items@,
    {
        match self.position(id) {
            Some(i) => {
                let mut todo = self.items[i].clone();
                todo.done = !todo.done;
                todo.completed_at = if todo.done { Some(now) } else { None };
                self.items.set(i, todo);
                true
            },
            None => false,
        }
    }

    /// Marks the first task with id `id` done, or open again, as
    /// [`TodoStore::toggle_at`] does, stamped now. Returns whether there was
    /// such a task, or `None`, changing nothing, where the clock cannot be
    /// read (see [`utc_now`]).
    pub fn toggle(&mut self, id: &str) -> (found: Option<bool>)
        ensures
            found is None ==> *final(self) == *old(self),
            found matches Some(found) ==> {
                &&& found == has_id(old(self).items@, id@)
                &&& final(self).version == old(self).version
                &&& final(self).active_id == old(self).active_id
                &&& final(self).items@.len() == old(self).items@.len()
                &&& forall|j: int|
                    0 <= j < old(self).items@.len() && !(found && j == first_with_id(old(self).items@, id@))
                        ==> #[trigger] final(self).items@[j] == old(self).items@[j]
                &&& found ==> toggled(
                    old(self).items@[first_with_id(old(self).items@, id@)],
                    final(self).items@[first_with_id(old(self).items@, id@)],
                )
            },
    {
        match utc_now() {
            Some(now) => {
                proof {
                    if has_id(self.items@, id@) {
                        let k = choose|k: int| 0 <= k < self.items@.len() && #[trigger] self.items@[k].id@ == id@;
                        lemma_first_with_id_exists(self.items@, id@, k);
                    }
                }
                Some(self.toggle_at(id, now))
            },
            None => None,
        }
    }

    /// Drops every task with id `id`; if it was the one being worked on,
    /// none is. Returns whether any task was dropped.
    pub fn remove(&mut self, id: &str) -> (removed: bool)
        ensures
            removed == has_id(old(self).items@, id@),
            final(self).version == old(self).version,
            final(self).active_id == (if is_active_id(old(self).active_id, id@) {
                None
            } else {
                old(self).active_id
            }),
            final(self).items@ == without_id(old(self).items@, id@),
    {
        let is_active = match &self.active_id {
            Some(a) => str_eq(a.as_str(), id),
            None => false,
        };
        if is_active {
            self.active_id = None;
        }
        let ghost pred = id_other_than(id@);
        let n = self.items.len();
        let mut kept: Vec<Todo> = Vec::new();
        let mut dropped: usize = 0;
        let mut i: usize = 0;
        while i < n
            invariant
                n == self.items@.len(),
                self.items@ == old(self).items@,
                i <= n,
                pred == id_other_than(id@),
                kept@ == self.items@.take(i as int).filter(pred),
                dropped + kept@.len() == i,
                (dropped > 0) == (exists|j: int| 0 <= j < i && #[trigger] self.items@[j].id@ == id@),
            decreases n - i,
        {
            proof {
                assert(self.items@.take(i + 1) =~= self.items@.take(i as int).push(self.items@[i as int]));
                self.items@.take(i as int).lemma_filter_push(self.items@[i as int], pred);
            }
            let ghost item = self.items@[i as int];
            assert(pred(item) == (item.id@ != id@));
            if str_eq(self.items[i].id.as_str(), id) {
                dropped = dropped + 1;
            } else {
                kept.push(self.items[i].clone());
            }
            i = i + 1;
        }
        proof {
            assert(self.items@.take(n as int) =~= self.items@);
        }
        self.items = kept;
        dropped > 0
    }

    /// Drops the tasks that are done; if the task being worked on is among
    /// them, none is worked on.
    pub fn clear_completed(&mut self)
        ensures
            final(self).version == old(self).version,
            final(self).active_id == (if (old(self).active_id matches Some(a) && exists|j: int|
                0 <= j < old(self).items@.len() && #[trigger] old(self).items@[j].id@ == a@
                    && old(self).items@[j].done) {
                None
            } else {
                old(self).active_id
            }),
            final(self).items@ == open_tasks(old(self).items@),
    {
        let clear_active = match &self.active_id {
            Some(active) => {
                let n = self.items.len();
                let mut hit = false;
                let mut i: usize = 0;
                while i < n
                    invariant
                        n == self.items@.len(),
                        i <= n,
                        hit == (exists|j: int|
                            0 <= j < i && #[trigger] self.items@[j].id@ == active@ && self.items@[j].done),
                    decreases n - i,
                {
                    if self.items[i].done && str_eq(self.items[i].id.as_str(), active.as_str()) {
                        hit = true;
                    }
                    i = i + 1;
                }
                hit
            },
            None => false,
        };
        if clear_active {
            self.active_id = None;
        }
        let ghost pred = is_open();
        let n = self.items.len();
        let mut kept: Vec<Todo> = Vec::new();
        let mut i: usize = 0;
        while i < n
            invariant
                n == self.items@.len(),
                self.items@ == old(self).items@,
                i <= n,
                pred == is_open(),
                kept@ == self.items@.take(i as int).filter(pred),
            decreases n - i,
        {
            proof {
                assert(self.items@.take(i + 1) =~= self.items@.take(i as int).push(self.items@[i as int]));
                self.items@.take(i as int).lemma_filter_push(self.items@[i as int], pred);
            }
            assert(pred(self.items@[i as int]) == !self.items@[i as int].done);
            if !self.items[i].done {
                kept.push(self.items[i].clone());
            }
            i = i + 1;
        }
        proof {
            assert(self.items@.take(n as int) =~= self.items@);
        }
        self.items = kept;
    }

    /// Credits one focus session to the first task with id `id`. Returns
    /// whether there was such a task.
    pub fn increment_pomodoro(&mut self, id: &str) -> (found: bool)
        requires
            can_credit(old(self).items@, id@),
        ensures
            found == has_id(old(self).items@, id@),
            final(self).version == old(self).version,
            final(self).active_id == old(self).active_id,
            found ==> final(self).items@ == old(self).items@.update(
                first_with_id(old(self).items@, id@),
                Todo {
                    pomodoros_done: (old(self).items@[first_with_id(old(self).items@, id@)].pomodoros_done + 1) as u32,
                    ..old(self).items@[first_with_id(old(self).items@, id@)]
                },
            ),
            !found ==> final(self).items@ == old(self).items@,
    {
        match self.position(id) {
            Some(i) => {
                let mut todo = self.items[i].clone();
                todo.pomodoros_done = todo.pomodoros_done + 1;
                self.items.set(i, todo);
                true
            },
            None => false,
        }
    }

    /// The task being worked on, if it is in the list.
    pub fn active_task(&self) -> (r: Option<&Todo>)
        ensures
            match active_index(*self) {
                Some(i) => r matches Some(t) && *t == self.items@[i],
                None => r is None,
            },
    {
        match &self.active_id {
            Some(a) => match self.position(a.as_str()) {
                Some(i) => Some(&self.items[i]),
                None => None,
            },
            None => None,
        }
    }

    /// Makes the task with id `id` the one worked on, or none.
    pub fn set_active(&mut self, id: Option<String>)
        ensures
            final(self).active_id == id,
            final(self).version == old(self).version,
            final(self).items == old(self).items,
    {
        self.active_id = id;
    }

    /// Makes the task with id `id` the one worked on, or, if it already is,
    /// makes none the one worked on.
    pub fn toggle_active(&mut self, id: String)
        ensures
            final(self).active_id == (if is_active_id(old(self).active_id, id@) { None } else { Some(id) }),
            final(self).version == old(self).version,
            final(self).items == old(self).items,
    {
        if self.is_active(id.as_str()) {
            self.active_id = None;
        } else {
            self.active_id = Some(id);
        }
    }

    /// Whether the task with id `id` is the one worked on.
    pub fn is_active(&self, id: &str) -> (r: bool)
        ensures
            r == is_active_id(self.active_id, id@),
    {
        match &self.active_id {
            Some(a) => str_eq(a.as_str(), id),
            None => false,
        }
    }

    /// Credits one focus session to the task being worked on. Returns
    /// whether a task was credited.
    pub fn increment_active_pomodoro(&mut self) -> (credited: bool)
        requires
            can_credit_active(*old(self)),
        ensures
            credited == (active_index(*old(self)) is Some),
            final(self).version == old(self).version,
            final(self).active_id == old(self).active_id,
            match active_index(*old(self)) {
                Some(i) => final(self).items@ == old(self).items@.update(
                    i,
                    Todo { pomodoros_done: (old(self).items@[i].pomodoros_done + 1) as u32, ..old(self).items@[i] },
                ),
                None => final(self).items@ == old(self).items@,
            },
    {
        let active_id = match &self.active_id {
            Some(id) => id.clone(),
            None => return false,
        };
        self.increment_pomodoro(active_id.as_str())
    }

    /// Gives the first task with id `id` the title `title`. Returns whether
    /// there was such a task.
    pub fn rename(&mut self, id: &str, title: String) -> (found: bool)
        ensures
            found == has_id(old(self).items@, id@),
            final(self).version == old(self).version,
            final(self).active_id == old(self).active_id,
            found ==> final(self).items@ == old(self).items@.update(
                first_with_id(old(self).items@, id@),
                Todo { title, ..old(self).items@[first_with_id(old(self).items@, id@)] },
            ),
            !found ==> final(self).items@ == old(self).items@,
    {
        match self.position(id) {
            Some(i) => {
                let mut todo = self.items[i].clone();
                todo.title = title;
                self.items.set(i, todo);
                true
            },
            None => false,
        }
    }

    /// Sets how many focus sessions the first task with id `id` is expected
    /// to take. Returns whether there was such a task.
    pub fn set_estimate(&mut self, id: &str, estimate: u32) -> (found: bool)
        ensures
            found == has_id(old(self).items@, id@),
            final(self).version == old(self).version,
            final(self).active_id == old(self).active_id,
            found ==> final(self).items@ == old(self).items@.update(
                first_with_id(old(self).items@, id@),
                Todo { pomodoros_estimated: estimate, ..old(self).items@[first_with_id(old(self).items@, id@)] },
            ),
            !found ==> final(self).items@ == old(self).items@,
    {
        match self.position(id) {
            Some(i) => {
                let mut todo = self.items[i].clone();
                todo.pomodoros_estimated = estimate;
                self.items.set(i, todo);
                true
            },
            None => false,
        }
    }

    /// The order the task list shows: the open tasks, then the done ones,
    /// each in the order they were added. (This is a stable sort by `done`.)
    pub fn display_order(&self) -> (order: Vec<usize>)
        ensures
            order@.map_values(|i: usize| i as int) == indices_where(self.items@, false) + indices_where(
                self.items@,
                true,
            ),
    {
        let n = self.items.len();
        let mut open: Vec<usize> = Vec::new();
        let mut done: Vec<usize> = Vec::new();
        let mut i: usize = 0;
        while i < n
            invariant
                n == self.items@.len(),
                i <= n,
                open@.map_values(|k: usize| k as int) == indices_where(self.items@.take(i as int), false),
                done@.map_values(|k: usize| k as int) == indices_where(self.items@.take(i as int), true),
            decreases n - i,
        {
            proof {
                assert(self.items@.take(i + 1).drop_last() =~= self.items@.take(i as int));
            }
            if self.items[i].done {
                done.push(i);
                assert(done@.map_values(|k: usize| k as int) =~= indices_where(self.items@.take(i + 1), true));
                assert(open@.map_values(|k: usize| k as int) =~= indices_where(self.items@.take(i + 1), false));
            } else {
                open.push(i);
                assert(open@.map_values(|k: usize| k as int) =~= indices_where(self.items@.take(i + 1), false));
                assert(done@.map_values(|k: usize| k as int) =~= indices_where(self.items@.take(i + 1), true));
            }
            i = i + 1;
        }
        proof {
            assert(self.items@.take(n as int) =~= self.items@);
        }
        let ghost open_view = open@;
        let ghost done_view = done@;
        open.append(&mut done);
        assert(open@ =~= open_view + done_view);
        assert(open@.map_values(|k: usize| k as int) =~= open_view.map_values(|k: usize| k as int)
            + done_view.map_values(|k: usize| k as int));
        open
    }

    /// How many tasks are not done.
    pub fn remaining_count(&self) -> (n: usize)
        ensures
            n == open_tasks(self.items@).len(),
    {
        let ghost pred = is_open();
        let n = self.items.len();
        let mut count: usize = 0;
        let mut i: usize = 0;
        while i < n
            invariant
                n == self.items@.len(),
                i <= n,
                pred == is_open(),
                count == self.items@.take(i as int).filter(pred).len(),
                count <= i,
            decreases n - i,
        {
            proof {
                assert(self.items@.take(i + 1) =~= self.items@.take(i as int).push(self.items@[i as int]));
                self.items@.take(i as int).lemma_filter_push(self.items@[i as int], pred);
            }
            assert(pred(self.items@[i as int]) == !self.items@[i as int].done);
            if !self.items[i].done {
                count = count + 1;
            }
            i = i + 1;
        }
        proof {
            assert(self.items@.take(n as int) =~= self.items@);
        }
        count
    }
}


/// Adding an open task leaves one more task to do.
pub proof fn lemma_add_counts_one_more(items: Seq<Todo>, t: Todo)
    requires
        !t.done,
    ensures
        open_tasks(items.push(t)).len() == open_tasks(items).len() + 1,
{
    items.lemma_filter_push(t, is_open());
}

/// Toggling a task twice gives it back open or done as before, with the
/// rest of it unchanged; a task opened again has no finishing time.
pub proof fn lemma_toggle_twice(a: Todo, b: Todo, c: Todo)
    requires
        toggled(a, b),
        toggled(b, c),
    ensures
        c.done == a.done,
        c.id == a.id,
        c.title == a.title,
        c.pomodoros_done == a.pomodoros_done,
        c.pomodoros_estimated == a.pomodoros_estimated,
        !c.done ==> c.completed_at is None,
{
}

/// After removing an id, no task has it.
pub proof fn lemma_removed_id_is_gone(items: Seq<Todo>, id: Seq<char>)
    ensures
        !has_id(without_id(items, id), id),
{
    let rest = without_id(items, id);
    if has_id(rest, id) {
        let k = choose|k: int| 0 <= k < rest.len() && #[trigger] rest[k].id@ == id;
        items.lemma_filter_pred(id_other_than(id), k);
    }
}

/// After clearing the finished tasks, every task is open, and as many tasks
/// remain to do as before.
pub proof fn lemma_clear_keeps_open_tasks(items: Seq<Todo>)
    ensures
        forall|k: int| 0 <= k < open_tasks(items).len() ==> !#[trigger] open_tasks(items)[k].done,
        open_tasks(open_tasks(items)) == open_tasks(items),
{
    assert forall|k: int| 0 <= k < open_tasks(items).len() implies !#[trigger] open_tasks(items)[k].done by {
        items.lemma_filter_pred(is_open(), k);
    }
    let once = open_tasks(items);
    once.lemma_filter_len(is_open());
    assert forall|k: int| 0 <= k < once.len() implies #[trigger] is_open()(once[k]) by {
        items.lemma_filter_pred(is_open(), k);
    }
    lemma_filter_keeps_all(once, is_open());
}

/// Filtering a sequence whose elements all pass gives it back.
proof fn lemma_filter_keeps_all(s: Seq<Todo>, p: spec_fn(Todo) -> bool)
    requires
        forall|k: int| 0 <= k < s.len() ==> #[trigger] p(s[k]),
    ensures
        s.filter(p) == s,
    decreases s.len(),
{
    if s.len() == 0 {
        assert(s.filter(p) =~= s);
    } else {
        let init = s.drop_last();
        assert forall|k: int| 0 <= k < init.len() implies #[trigger] p(init[k]) by {
            assert(init[k] == s[k]);
        }
        lemma_filter_keeps_all(init, p);
        init.lemma_filter_push(s.last(), p);
        assert(init.push(s.last()) =~= s);
    }
}

proof fn lemma_first_with_id_exists(items: Seq<Todo>, id: Seq<char>, k: int)
    requires
        0 <= k < items.len(),
        items[k].id@ == id,
    ensures
        is_first_with_id(items, id, first_with_id(items, id)),
    decreases k,
{
    if forall|j: int| 0 <= j < k ==> #[trigger] items[j].id@ != id {
        assert(is_first_with_id(items, id, k));
    } else {
        let j = choose|j: int| 0 <= j < k && #[trigger] items[j].id@ == id;
        lemma_first_with_id_exists(items, id, j);
    }
}

/// Changing a task but not its id keeps the task being worked on where it
/// is: crediting sessions, ticking a task off, renaming or re-estimating it
/// does not change which task is worked on.
pub proof fn lemma_same_id_keeps_active(store: TodoStore, after: TodoStore, i: int, t: Todo)
    requires
        0 <= i < store.items@.len(),
        t.id@ == store.items@[i].id@,
        after.active_id == store.active_id,
        after.items@ == store.items@.update(i, t),
    ensures
        active_index(after) == active_index(store),
{
    if let Some(a) = store.active_id {
        let before = store.items@;
        let now = after.items@;
        assert forall|j: int| 0 <= j < before.len() implies #[trigger] now[j].id@ == before[j].id@ by {}
        if has_id(before, a@) {
            let k = choose|k: int| 0 <= k < before.len() && #[trigger] before[k].id@ == a@;
            lemma_first_with_id_exists(before, a@, k);
            let f = first_with_id(before, a@);
            assert(now[f].id@ == before[f].id@);
            assert forall|j: int| 0 <= j < f implies #[trigger] now[j].id@ != a@ by {
                assert(before[j].id@ != a@);
            }
            lemma_first_is_unique(now, a@, f);
        } else {
            if has_id(now, a@) {
                let k = choose|k: int| 0 <= k < now.len() && #[trigger] now[k].id@ == a@;
                assert(before[k].id@ == a@);
            }
        }
    }
}

/// The task being worked on, where there is one, is the first task with
/// the worked-on id.
pub proof fn lemma_active_index_in_range(store: TodoStore)
    ensures
        active_index(store) matches Some(i) ==> (store.active_id matches Some(a) && is_first_with_id(
            store.items@,
            a@,
            i,
        )),
{
    if let Some(a) = store.active_id {
        if has_id(store.items@, a@) {
            let k = choose|k: int| 0 <= k < store.items@.len() && #[trigger] store.items@[k].id@ == a@;
            lemma_first_with_id_exists(store.items@, a@, k);
        }
    }
}

/// The task list shows every task exactly once, open tasks first: the
/// positions listed for open and for done tasks together are as many as the
/// tasks, each list holds only tasks of its kind, in the order they were
/// added, so no position is listed twice.
pub proof fn lemma_display_order_lists_each_task_once(items: Seq<Todo>, done: bool)
    ensures
        indices_where(items, done).len() + indices_where(items, !done).len() == items.len(),
        forall|k: int|
            0 <= k < indices_where(items, done).len() ==> {
                let i = #[trigger] indices_where(items, done)[k];
                0 <= i < items.len() && items[i].done == done
            },
        forall|k: int, l: int|
            0 <= k < l < indices_where(items, done).len() ==> #[trigger] indices_where(items, done)[k]
                < #[trigger] indices_where(items, done)[l],
    decreases items.len(),
{
    if items.len() > 0 {
        let init = items.drop_last();
        lemma_display_order_lists_each_task_once(init, done);
        let prev = indices_where(init, done);
        let cur = indices_where(items, done);
        assert forall|k: int| 0 <= k < cur.len() implies {
            let i = #[trigger] cur[k];
            0 <= i < items.len() && items[i].done == done
        } by {
            if k < prev.len() {
                assert(cur[k] == prev[k]);
                assert(items[prev[k]] == init[prev[k]]);
            }
        }
        assert forall|k: int, l: int| 0 <= k < l < cur.len() implies #[trigger] cur[k] < #[trigger] cur[l] by {
            if l < prev.len() {
                assert(cur[k] == prev[k] && cur[l] == prev[l]);
            } else {
                assert(cur[k] == prev[k]);
            }
        }
    }
}

/// How many tasks of `items` have the id `id`.
pub open spec fn id_count(items: Seq<Todo>, id: Seq<char>) -> nat
    decreases items.len(),
{
    if items.len() == 0 {
        0
    } else {
        id_count(items.drop_last(), id) + if items.last().id@ == id { 1nat } else { 0nat }
    }
}

/// Removing an id drops exactly the tasks with that id: every other task,
/// done or not, is still there, in the order it had, and the list is shorter
/// by the number of tasks that had the id.
pub proof fn lemma_remove_drops_only_that_id(items: Seq<Todo>, id: Seq<char>)
    ensures
        forall|k: int| 0 <= k < items.len() && items[k].id@ != id ==> #[trigger] without_id(items, id).contains(
            items[k],
        ),
        forall|k: int| 0 <= k < without_id(items, id).len() ==> #[trigger] without_id(items, id)[k].id@ != id,
        without_id(items, id).len() + id_count(items, id) == items.len(),
        forall|k: int, l: int|
            0 <= k < l < items.len() && items[k].id@ != id && items[l].id@ != id ==> exists|a: int, b: int|
                0 <= a < b < without_id(items, id).len() && without_id(items, id)[a] == #[trigger] items[k]
                    && without_id(items, id)[b] == #[trigger] items[l],
    decreases items.len(),
{
    let p = id_other_than(id);
    let r = without_id(items, id);
    assert forall|k: int| 0 <= k < items.len() && items[k].id@ != id implies #[trigger] r.contains(items[k]) by {
        items.lemma_filter_contains(p, k);
    }
    assert forall|k: int| 0 <= k < r.len() implies #[trigger] r[k].id@ != id by {
        items.lemma_filter_pred(p, k);
    }
    if items.len() > 0 {
        let init = items.drop_last();
        let last = items.last();
        lemma_remove_drops_only_that_id(init, id);
        assert(init.push(last) =~= items);
        init.lemma_filter_push(last, p);
        let ri = without_id(init, id);
        assert forall|k: int, l: int|
            0 <= k < l < items.len() && items[k].id@ != id && items[l].id@ != id implies exists|a: int, b: int|
                0 <= a < b < r.len() && r[a] == #[trigger] items[k] && r[b] == #[trigger] items[l] by {
            assert(items[k] == init[k]);
            if l < items.len() - 1 {
                assert(items[l] == init[l]);
                let (a, b) = choose|a: int, b: int|
                    0 <= a < b < ri.len() && ri[a] == #[trigger] init[k] && ri[b] == #[trigger] init[l];
                assert(r[a] == ri[a] && r[b] == ri[b]);
            } else {
                assert(ri.contains(init[k]));
                let a = choose|a: int| 0 <= a < ri.len() && ri[a] == init[k];
                assert(r[a] == ri[a]);
                assert(r[ri.len() as int] == last);
            }
        }
    } else {
        assert(r =~= Seq::<Todo>::empty());
    }
}

/// Clearing the finished tasks keeps every open task, in the order it had,
/// and drops only finished ones.
pub proof fn lemma_clear_keeps_every_open_task(items: Seq<Todo>)
    ensures
        forall|k: int| 0 <= k < items.len() && !items[k].done ==> #[trigger] open_tasks(items).contains(items[k]),
        forall|k: int| 0 <= k < open_tasks(items).len() ==> !(#[trigger] open_tasks(items)[k]).done,
        open_tasks(items).len() <= items.len(),
{
    assert forall|k: int| 0 <= k < items.len() && !items[k].done implies #[trigger] open_tasks(items).contains(
        items[k],
    ) by {
        items.lemma_filter_contains(is_open(), k);
    }
    assert forall|k: int| 0 <= k < open_tasks(items).len() implies !(#[trigger] open_tasks(items)[k]).done by {
        items.lemma_filter_pred(is_open(), k);
    }
    items.lemma_filter_len(is_open());
}

} // verus!
