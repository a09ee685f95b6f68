//! The task record. A record is an atomic blob of fields to the
//! replication subsystem: its identity is positional (recomputed from line
//! order on every load), and two records are "the same" during a merge
//! exactly when every field except that positional identity agrees.

use vstd::prelude::*;

use crate::priority::Priority;
use crate::sort_order::SortCriteria;
use crate::text::{lower_of, lowercase};
use core::cmp::Ordering;
use chrono::Datelike;

verus! {

/// A calendar date, held as plain year, month and day numbers.
#[derive(Debug, Clone, Copy, PartialEq, Eq, Structural)]
pub struct Date {
    pub year: i32,
    pub month: u8,
    pub day: u8,
}

impl Date {
    /// A date is valid when month and day lie in their calendar ranges.
    pub open spec fn is_valid(&self) -> bool {
        1 <= self.month <= 12 && 1 <= self.day <= 31
    }

    /// Builds a date, rejecting month or day values outside the calendar
    /// ranges.
    pub fn new(year: i32, month: u8, day: u8) -> (r: Option<Date>)
        ensures
            1 <= month <= 12 && 1 <= day <= 31 ==> r == Some(Date { year, month, day }),
            !(1 <= month <= 12 && 1 <= day <= 31) ==> r is None,
    {
        if 1 <= month && month <= 12 && 1 <= day && day <= 31 {
            Some(Date { year, month, day })
        } else {
            None
        }
    }

    /// Whether this date lies strictly before `other`, by year, then month,
    /// then day.
    pub open spec fn spec_lt(&self, other: &Date) -> bool {
        self.year < other.year || (self.year == other.year && (self.month < other.month || (
        self.month == other.month && self.day < other.day)))
    }

    /// Compares two dates chronologically.
    pub fn cmp_date(&self, other: &Date) -> (r: Ordering)
        ensures
            r == spec_cmp_date(*self, *other),
    {
        if self.year != other.year {
            if self.year < other.year {
                Ordering::Less
            } else {
                Ordering::Greater
            }
        } else if self.month != other.month {
            if self.month < other.month {
                Ordering::Less
            } else {
                Ordering::Greater
            }
        } else if self.day != other.day {
            if self.day < other.day {
                Ordering::Less
            } else {
                Ordering::Greater
            }
        } else {
            Ordering::Equal
        }
    }
}

/// Chronological comparison of two dates in specifications.
pub open spec fn spec_cmp_date(a: Date, b: Date) -> Ordering {
    if a.spec_lt(&b) {
        Ordering::Less
    } else if b.spec_lt(&a) {
        Ordering::Greater
    } else {
        Ordering::Equal
    }
}

/// Relies on `chrono::Utc::now`: the current time as whole seconds since
/// the Unix epoch. The result depends on the clock, so nothing is promised
/// of its value.
#[verifier::external_body]
pub fn now_seconds() -> i64 {
    chrono::Utc::now().timestamp()
}

/// Relies on `chrono::Utc::now` (via `date_naive`): the current UTC
/// calendar date. chrono guarantees month and day lie in their calendar
/// ranges; the value itself depends on the clock.
#[verifier::external_body]
pub fn today() -> (r: Date)
    ensures
        r.is_valid(),
{
    let d = chrono::Utc::now().date_naive();
    Date { year: d.year(), month: d.month() as u8, day: d.day() as u8 }
}

/// One task record.
#[derive(Debug)]
pub struct Todo {
    pub id: u32,
    pub title: String,
    pub description: Option<String>,
    pub finished: bool,
    pub priority: Priority,
    pub created_at: i64,
    pub due_date: Option<Date>,
}

/// Everything a record carries except its positional identity. Two records
/// with equal content are duplicates to the merge policy.
pub open spec fn spec_content(t: Todo) -> (Seq<char>, Option<Seq<char>>, bool, Priority, i64, Option<
    Date,
>) {
    (t.title@, t.description.deep_view(), t.finished, t.priority, t.created_at, t.due_date)
}

impl Todo {
    /// A record is well formed when its due date, if any, is a valid
    /// calendar date.
    pub open spec fn wf(&self) -> bool {
        match self.due_date {
            Some(d) => d.is_valid(),
            None => true,
        }
    }

    /// A fresh record: placeholder identity 0, the given title, no
    /// description, unfinished, low priority, no due date, created now.
    pub fn new(title: String) -> (r: Todo)
        ensures
            r.id == 0,
            r.title@ == title@,
            r.description is None,
            !r.finished,
            r.priority == Priority::Low,
            r.due_date is None,
            r.wf(),
    {
        Todo {
            id: 0,
            title,
            description: None,
            finished: false,
            priority: Priority::Low,
            created_at: now_seconds(),
            due_date: None,
        }
    }

    pub fn is_finished(&self) -> (r: bool)
        ensures
            r == self.finished,
    {
        self.finished
    }

    /// Whether the record's due date lies strictly before `today`.
    pub fn is_overdue_on(&self, today: Date) -> (r: bool)
        ensures
            r == match self.due_date {
                Some(d) => d.spec_lt(&today),
                None => false,
            },
    {
        match &self.due_date {
            Some(d) => {
                if d.year != today.year {
                    d.year < today.year
                } else if d.month != today.month {
                    d.month < today.month
                } else {
                    d.day < today.day
                }
            },
            None => false,
        }
    }

    /// Whether the record is overdue as of the current UTC date. A record
    /// without a due date is never overdue.
    pub fn is_overdue(&self) -> (r: bool)
        ensures
            self.due_date is None ==> !r,
    {
        let t = today();
        self.is_overdue_on(t)
    }

    pub fn complete(&mut self, complete: bool)
        ensures
            *final(self) == (Todo { finished: complete, ..*old(self) }),
    {
        self.finished = complete;
    }

    pub fn get_title(&self) -> (r: String)
        ensures
            r@ == self.title@,
    {
        self.title.clone()
    }

    pub fn get_id(&self) -> (r: u32)
        ensures
            r == self.id,
    {
        self.id
    }

    /// The description, or the empty string when none is set.
    pub fn get_description(&self) -> (r: String)
        ensures
            r@ == match self.description.deep_view() {
                Some(d) => d,
                None => Seq::<char>::empty(),
            },
    {
        match &self.description {
            Some(d) => d.clone(),
            None => String::new(),
        }
    }

    pub fn get_creation_date(&self) -> (r: i64)
        ensures
            r == self.created_at,
    {
        self.created_at
    }

    pub fn get_due_date(&self) -> (r: Option<Date>)
        ensures
            r == self.due_date,
    {
        self.due_date
    }

    pub fn get_priority(&self) -> (r: &Priority)
        ensures
            *r == self.priority,
    {
        &self.priority
    }

    pub fn get_finished(&self) -> (r: bool)
        ensures
            r == self.finished,
    {
        self.finished
    }

    pub fn set_id(&mut self, id: u32)
        ensures
            *final(self) == (Todo { id, ..*old(self) }),
    {
        self.id = id;
    }

    pub fn set_title(&mut self, title: String)
        ensures
            *final(self) == (Todo { title, ..*old(self) }),
    {
        self.title = title;
    }

    pub fn set_description(&mut self, description: String)
        ensures
            *final(self) == (Todo { description: Some(description), ..*old(self) }),
    {
        self.description = Some(description);
    }

    pub fn set_priority(&mut self, priority: Priority)
        ensures
            *final(self) == (Todo { priority, ..*old(self) }),
    {
        self.priority = priority;
    }

    pub fn set_due_date(&mut self, due_date: Date)
        requires
            due_date.is_valid(),
        ensures
            *final(self) == (Todo { due_date: Some(due_date), ..*old(self) }),
    {
        self.due_date = Some(due_date);
    }

    pub fn set_finished(&mut self, finished: bool)
        ensures
            *final(self) == (Todo { finished, ..*old(self) }),
    {
        self.finished = finished;
    }

    pub fn set_creation_date(&mut self, creation_date: i64)
        ensures
            *final(self) == (Todo { created_at: creation_date, ..*old(self) }),
    {
        self.created_at = creation_date;
    }

    /// Compares two records by a single criterion.
    pub fn compare(&self, other: &Todo, sort_order: &SortCriteria) -> (r: Ordering)
        ensures
            r == spec_compare(*self, *other, *sort_order),
    {
        proof {
            reveal(spec_compare);
        }
        match sort_order {
            SortCriteria::Priority => {
                let a = self.priority.priority_value();
                let b = other.priority.priority_value();
                cmp_u8(b, a)
            },
            SortCriteria::PriorityReverse => {
                let a = self.priority.priority_value();
                let b = other.priority.priority_value();
                cmp_u8(a, b)
            },
            SortCriteria::CreatedDesc => cmp_i64(other.created_at, self.created_at),
            SortCriteria::CreatedAsc => cmp_i64(self.created_at, other.created_at),
            SortCriteria::DueDate => {
                match (&self.due_date, &other.due_date) {
                    (Some(a), Some(b)) => a.cmp_date(b),
                    (Some(_), None) => Ordering::Less,
                    (None, Some(_)) => Ordering::Greater,
                    (None, None) => Ordering::Equal,
                }
            },
            SortCriteria::DueDateReverse => {
                match (&self.due_date, &other.due_date) {
                    (Some(a), Some(b)) => b.cmp_date(a),
                    (Some(_), None) => Ordering::Less,
                    (None, Some(_)) => Ordering::Greater,
                    (None, None) => Ordering::Equal,
                }
            },
            SortCriteria::TitleAsc => {
                let a = lowercase(self.title.as_str());
                let b = lowercase(other.title.as_str());
                lex_cmp(a.as_str(), b.as_str())
            },
            SortCriteria::TitleDesc => {
                let a = lowercase(self.title.as_str());
                let b = lowercase(other.title.as_str());
                lex_cmp(b.as_str(), a.as_str())
            },
            SortCriteria::Status => {
                match (self.finished, other.finished) {
                    (false, true) => Ordering::Less,
                    (true, false) => Ordering::Greater,
                    _ => Ordering::Equal,
                }
            },
            SortCriteria::StatusReverse => {
                match (self.finished, other.finished) {
                    (true, false) => Ordering::Less,
                    (false, true) => Ordering::Greater,
                    _ => Ordering::Equal,
                }
            },
        }
    }
}

impl Clone for Todo {
    /// A clone keeps every field.
    fn clone(&self) -> (r: Self)
        ensures
            r == *self,
    {
        Todo {
            id: self.id,
            title: self.title.clone(),
            description: match &self.description {
                Some(d) => Some(d.clone()),
                None => None,
            },
            finished: self.finished,
            priority: self.priority,
            created_at: self.created_at,
            due_date: self.due_date,
        }
    }
}

/// Integer comparison in specifications.
pub open spec fn spec_cmp_int(a: int, b: int) -> Ordering {
    if a < b {
        Ordering::Less
    } else if a == b {
        Ordering::Equal
    } else {
        Ordering::Greater
    }
}

fn cmp_u8(a: u8, b: u8) -> (r: Ordering)
    ensures
        r == spec_cmp_int(a as int, b as int),
{
    if a < b {
        Ordering::Less
    } else if a == b {
        Ordering::Equal
    } else {
        Ordering::Greater
    }
}

fn cmp_i64(a: i64, b: i64) -> (r: Ordering)
    ensures
        r == spec_cmp_int(a as int, b as int),
{
    if a < b {
        Ordering::Less
    } else if a == b {
        Ordering::Equal
    } else {
        Ordering::Greater
    }
}

/// Lexicographic comparison of two character sequences by code point,
/// with a proper prefix ordered first.
pub open spec fn spec_lex_cmp(a: Seq<char>, b: Seq<char>) -> Ordering
    decreases a.len(),
{
    if a.len() == 0 && b.len() == 0 {
        Ordering::Equal
    } else if a.len() == 0 {
        Ordering::Less
    } else if b.len() == 0 {
        Ordering::Greater
    } else if (a[0] as u32) < (b[0] as u32) {
        Ordering::Less
    } else if (a[0] as u32) > (b[0] as u32) {
        Ordering::Greater
    } else {
        spec_lex_cmp(a.drop_first(), b.drop_first())
    }
}

/// Compares two strings lexicographically by code point.
pub fn lex_cmp(a: &str, b: &str) -> (r: Ordering)
    ensures
        r == spec_lex_cmp(a@, b@),
{
    let na = a.unicode_len();
    let nb = b.unicode_len();
    proof {
        assert(a@.skip(0) =~= a@);
        assert(b@.skip(0) =~= b@);
    }
    let mut i: usize = 0;
    while i < na && i < nb
        invariant
            na == a@.len(),
            nb == b@.len(),
            i <= na,
            i <= nb,
            spec_lex_cmp(a@, b@) == spec_lex_cmp(a@.skip(i as int), b@.skip(i as int)),
        decreases na - i,
    {
        let ca = a.get_char(i);
        let cb = b.get_char(i);
        proof {
            assert(a@.skip(i as int)[0] == a@[i as int]);
            assert(b@.skip(i as int)[0] == b@[i as int]);
            assert(a@.skip(i as int).drop_first() =~= a@.skip(i + 1));
            assert(b@.skip(i as int).drop_first() =~= b@.skip(i + 1));
        }
        if (ca as u32) < (cb as u32) {
            return Ordering::Less;
        } else if (ca as u32) > (cb as u32) {
            return Ordering::Greater;
        }
        i = i + 1;
    }
    proof {
        assert(a@.skip(i as int).len() == na - i);
        assert(b@.skip(i as int).len() == nb - i);
    }
    if na == i && nb == i {
        Ordering::Equal
    } else if na == i {
        Ordering::Less
    } else {
        Ordering::Greater
    }
}

/// What `Todo::compare` returns for each criterion.
#[verifier::opaque]
pub open spec fn spec_compare(a: Todo, b: Todo, c: SortCriteria) -> Ordering {
    match c {
        SortCriteria::Priority => spec_cmp_int(
            b.priority.spec_value() as int,
            a.priority.spec_value() as int,
        ),
        SortCriteria::PriorityReverse => spec_cmp_int(
            a.priority.spec_value() as int,
            b.priority.spec_value() as int,
        ),
        SortCriteria::CreatedDesc => spec_cmp_int(b.created_at as int, a.created_at as int),
        SortCriteria::CreatedAsc => spec_cmp_int(a.created_at as int, b.created_at as int),
        SortCriteria::DueDate => match (a.due_date, b.due_date) {
            (Some(x), Some(y)) => spec_cmp_date(x, y),
            (Some(_), None) => Ordering::Less,
            (None, Some(_)) => Ordering::Greater,
            (None, None) => Ordering::Equal,
        },
        SortCriteria::DueDateReverse => match (a.due_date, b.due_date) {
            (Some(x), Some(y)) => spec_cmp_date(y, x),
            (Some(_), None) => Ordering::Less,
            (None, Some(_)) => Ordering::Greater,
            (None, None) => Ordering::Equal,
        },
        SortCriteria::TitleAsc => spec_lex_cmp(lower_of(a.title@), lower_of(b.title@)),
        SortCriteria::TitleDesc => spec_lex_cmp(lower_of(b.title@), lower_of(a.title@)),
        SortCriteria::Status => match (a.finished, b.finished) {
            (false, true) => Ordering::Less,
            (true, false) => Ordering::Greater,
            _ => Ordering::Equal,
        },
        SortCriteria::StatusReverse => match (a.finished, b.finished) {
            (true, false) => Ordering::Less,
            (false, true) => Ordering::Greater,
            _ => Ordering::Equal,
        },
    }
}

/// A step-by-step builder for a task record.
pub struct TodoBuilder {
    pub id: u32,
    pub title: String,
    pub description: Option<String>,
    pub finished: Option<bool>,
    pub priority: Option<Priority>,
    pub due_date: Option<Date>,
}

impl TodoBuilder {
    pub fn new() -> (r: TodoBuilder)
        ensures
            r.id == 0,
            r.title@ == Seq::<char>::empty(),
            r.description is None,
            r.finished is None,
            r.priority is None,
            r.due_date is None,
    {
        TodoBuilder {
            id: 0,
            title: String::new(),
            description: None,
            finished: None,
            priority: None,
            due_date: None,
        }
    }

    pub fn id(self, id: u32) -> (r: TodoBuilder)
        ensures
            r == (TodoBuilder { id, ..self }),
    {
        TodoBuilder { id, ..self }
    }

    pub fn title(self, title: &str) -> (r: TodoBuilder)
        ensures
            r.title@ == title@,
            r == (TodoBuilder { title: r.title, ..self }),
    {
        TodoBuilder { title: String::from_str(title), ..self }
    }

    pub fn description(self, description: Option<String>) -> (r: TodoBuilder)
        ensures
            r == (TodoBuilder { description, ..self }),
    {
        TodoBuilder { description, ..self }
    }

    pub fn finished(self, finished: bool) -> (r: TodoBuilder)
        ensures
            r == (TodoBuilder { finished: Some(finished), ..self }),
    {
        TodoBuilder { finished: Some(finished), ..self }
    }

    pub fn priority(self, priority: Priority) -> (r: TodoBuilder)
        ensures
            r == (TodoBuilder { priority: Some(priority), ..self }),
    {
        TodoBuilder { priority: Some(priority), ..self }
    }

    pub fn due_date(self, due_date: Date) -> (r: TodoBuilder)
        requires
            due_date.is_valid(),
        ensures
            r == (TodoBuilder { due_date: Some(due_date), ..self }),
    {
        TodoBuilder { due_date: Some(due_date), ..self }
    }

    /// Finishes the record. Unset fields take their defaults: unfinished,
    /// low priority. The creation time is the clock's current value.
    pub fn build(self) -> (r: Result<Todo, String>)
        requires
            match self.due_date {
                Some(d) => d.is_valid(),
                None => true,
            },
        ensures
            r is Ok,
            r matches Ok(t) ==> {
                &&& t.id == self.id
                &&& t.title@ == self.title@
                &&& t.description.deep_view() == self.description.deep_view()
                &&& t.finished == match self.finished {
                    Some(f) => f,
                    None => false,
                }
                &&& t.priority == match self.priority {
                    Some(p) => p,
                    None => Priority::Low,
                }
                &&& t.due_date == self.due_date
                &&& t.wf()
            },
    {
        Ok(
            Todo {
                id: self.id,
                title: self.title,
                description: self.description,
                finished: match self.finished {
                    Some(f) => f,
                    None => false,
                },
                priority: match self.priority {
                    Some(p) => p,
                    None => Priority::Low,
                },
                created_at: now_seconds(),
                due_date: self.due_date,
            },
        )
    }
}


/// The opposite of an ordering.
pub open spec fn flip_ord(o: Ordering) -> Ordering {
    match o {
        Ordering::Less => Ordering::Greater,
        Ordering::Equal => Ordering::Equal,
        Ordering::Greater => Ordering::Less,
    }
}

/// Lexicographic comparison flips with its arguments.
pub proof fn lemma_lex_flip(a: Seq<char>, b: Seq<char>)
    ensures
        spec_lex_cmp(b, a) == flip_ord(spec_lex_cmp(a, b)),
    decreases a.len(),
{
    if a.len() == 0 || b.len() == 0 {
    } else if (a[0] as u32) == (b[0] as u32) {
        lemma_lex_flip(a.drop_first(), b.drop_first());
    }
}

/// Every single-criterion comparison flips with its arguments.
pub proof fn lemma_compare_flip(a: Todo, b: Todo, c: SortCriteria)
    ensures
        spec_compare(b, a, c) == flip_ord(spec_compare(a, b, c)),
{
    reveal(spec_compare);
    match c {
        SortCriteria::TitleAsc => {
            lemma_lex_flip(lower_of(a.title@), lower_of(b.title@));
        },
        SortCriteria::TitleDesc => {
            lemma_lex_flip(lower_of(b.title@), lower_of(a.title@));
        },
        _ => {},
    }
}

/// Comparison by a chain of criteria: the first criterion that does not
/// call the records equal decides.
pub open spec fn spec_chain_compare(a: Todo, b: Todo, cs: Seq<SortCriteria>) -> Ordering
    decreases cs.len(),
{
    if cs.len() == 0 {
        Ordering::Equal
    } else if spec_compare(a, b, cs[0]) == Ordering::Equal {
        spec_chain_compare(a, b, cs.drop_first())
    } else {
        spec_compare(a, b, cs[0])
    }
}

/// A chain comparison flips with its arguments.
pub proof fn lemma_chain_flip(a: Todo, b: Todo, cs: Seq<SortCriteria>)
    ensures
        spec_chain_compare(b, a, cs) == flip_ord(spec_chain_compare(a, b, cs)),
    decreases cs.len(),
{
    if cs.len() == 0 {
    } else {
        lemma_compare_flip(a, b, cs[0]);
        lemma_chain_flip(a, b, cs.drop_first());
    }
}

/// Compares two records by a chain of criteria, later criteria breaking
/// ties left by earlier ones.
pub fn chain_compare(a: &Todo, b: &Todo, sort_order: &Vec<SortCriteria>) -> (r: Ordering)
    ensures
        r == spec_chain_compare(*a, *b, sort_order@),
{
    let n = sort_order.len();
    let mut i: usize = 0;
    proof {
        assert(sort_order@.skip(0) =~= sort_order@);
    }
    while i < n
        invariant
            i <= n,
            n == sort_order@.len(),
            spec_chain_compare(*a, *b, sort_order@) == spec_chain_compare(
                *a,
                *b,
                sort_order@.skip(i as int),
            ),
        decreases n - i,
    {
        let o = a.compare(b, &sort_order[i]);
        proof {
            assert(sort_order@.skip(i as int)[0] == sort_order@[i as int]);
            assert(sort_order@.skip(i as int).drop_first() =~= sort_order@.skip(i as int + 1));
        }
        match o {
            Ordering::Equal => {},
            _ => {
                return o;
            },
        }
        i = i + 1;
    }
    Ordering::Equal
}
} // verus!
