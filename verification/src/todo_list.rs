//! The record store: an append-only, newline-delimited list of serialized
//! records. Identity is positional: on every load the Nth non-blank line
//! becomes record N. A save rewrites the whole store; a load either reads
//! every record or fails fast, naming the first corrupt line.

use vstd::prelude::*;

use crate::codec::{
    parse_line, record_view, render_line, spec_parse_line, spec_render_line, with_id, RecordView,
};
use crate::errors::TodoError;
use crate::sort_order::SortCriteria;
use crate::text::{spec_join_lines, spec_split_lines, split_lines};
use crate::todo::Todo;

verus! {

/// A line is blank when it holds nothing but spaces, tabs and carriage
/// returns; blank lines are skipped on load.
pub open spec fn is_blank(s: Seq<char>) -> bool {
    forall|i: int| 0 <= i < s.len() ==> s[i] == ' ' || s[i] == '\t' || s[i] == '\r'
}

/// Whether a line is blank.
pub fn is_blank_line(s: &str) -> (r: bool)
    ensures
        r == is_blank(s@),
{
    let n = s.unicode_len();
    let mut i: usize = 0;
    while i < n
        invariant
            n == s@.len(),
            i <= n,
            forall|j: int| 0 <= j < i ==> s@[j] == ' ' || s@[j] == '\t' || s@[j] == '\r',
        decreases n - i,
    {
        let c = s.get_char(i);
        if !(c == ' ' || c == '\t' || c == '\r') {
            proof {
                assert(!(s@[i as int] == ' ' || s@[i as int] == '\t' || s@[i as int] == '\r'));
            }
            return false;
        }
        i = i + 1;
    }
    true
}

/// The contents of a list of records, one view per record.
pub open spec fn views(ts: Seq<Todo>) -> Seq<RecordView> {
    ts.map_values(|t: Todo| record_view(t))
}

/// Loads records from store lines, starting at physical line `lineno`
/// (1-based) and numbering records from `next_id`. Blank lines are
/// skipped; the first unparseable non-blank line aborts the whole load
/// with its line number.
pub open spec fn spec_load_lines(lines: Seq<Seq<char>>, lineno: int, next_id: int) -> Result<
    Seq<RecordView>,
    int,
>
    decreases lines.len(),
{
    if lines.len() == 0 {
        Ok(Seq::empty())
    } else if is_blank(lines[0]) {
        spec_load_lines(lines.drop_first(), lineno + 1, next_id)
    } else {
        match spec_parse_line(lines[0]) {
            None => Err(lineno),
            Some(v) => match spec_load_lines(lines.drop_first(), lineno + 1, next_id + 1) {
                Ok(rest) => Ok(seq![with_id(v, next_id)] + rest),
                Err(e) => Err(e),
            },
        }
    }
}

/// Loads records from the whole store text.
pub open spec fn spec_load(text: Seq<char>) -> Result<Seq<RecordView>, int> {
    spec_load_lines(spec_split_lines(text), 1, 0)
}

/// The store text for a list of records: each record's line, LF-terminated.
pub open spec fn spec_save(vs: Seq<RecordView>) -> Seq<char>
    decreases vs.len(),
{
    if vs.len() == 0 {
        Seq::empty()
    } else {
        spec_render_line(vs[0]) + seq!['\n'] + spec_save(vs.drop_first())
    }
}

/// Appending one record appends one line to the store text.
proof fn lemma_save_push(vs: Seq<RecordView>, v: RecordView)
    ensures
        spec_save(vs.push(v)) == spec_save(vs) + spec_render_line(v) + seq!['\n'],
    decreases vs.len(),
{
    if vs.len() == 0 {
        assert(vs.push(v) =~= seq![v]);
        assert(seq![v].drop_first() =~= Seq::<RecordView>::empty());
        assert(spec_save(seq![v]) == spec_render_line(v) + seq!['\n'] + spec_save(
            Seq::<RecordView>::empty(),
        ));
        assert(spec_render_line(v) + seq!['\n'] + Seq::<char>::empty() =~= Seq::<char>::empty()
            + spec_render_line(v) + seq!['\n']);
    } else {
        lemma_save_push(vs.drop_first(), v);
        assert(vs.push(v).drop_first() =~= vs.drop_first().push(v));
        assert(vs.push(v)[0] == vs[0]);
        assert(spec_render_line(vs[0]) + seq!['\n'] + (spec_save(vs.drop_first())
            + spec_render_line(v) + seq!['\n']) =~= (spec_render_line(vs[0]) + seq!['\n']
            + spec_save(vs.drop_first())) + spec_render_line(v) + seq!['\n']);
    }
}

/// The task list held in one store file.
#[derive(Debug)]
pub struct TodoList {
    pub todos: Vec<Todo>,
}

impl TodoList {
    /// Every record's due date, if any, is a valid calendar date.
    pub open spec fn wf(&self) -> bool {
        forall|i: int| 0 <= i < self.todos@.len() ==> (#[trigger] self.todos@[i]).wf()
    }

    /// An empty task list.
    pub fn new() -> (r: TodoList)
        ensures
            r.todos@.len() == 0,
            r.wf(),
    {
        TodoList { todos: Vec::new() }
    }

    /// Loads the task list from the store file's text. A missing store file
    /// (`None`) is an empty list, not an error. Each non-blank line must
    /// parse; the first corrupt line aborts the load, naming its 1-based
    /// line number, and no partial list is returned.
    pub fn load(text: Option<&str>) -> (r: Result<TodoList, TodoError>)
        requires
            match text {
                Some(t) => t@.len() < u32::MAX,
                None => true,
            },
        ensures
            match text {
                None => r matches Ok(l) && l.todos@.len() == 0,
                Some(t) => match spec_load(t@) {
                    Ok(vs) => r matches Ok(l) && views(l.todos@) == vs && l.wf(),
                    Err(k) => r matches Err(e) && e == (TodoError::CorruptRecord {
                        line: k as usize,
                    }),
                },
            },
    {
        let t = match text {
            None => {
                return Ok(TodoList::new());
            },
            Some(t) => t,
        };
        let lines = split_lines(t);
        let ghost ld = lines.deep_view();
        proof {
            lemma_split_count(t@);
            assert(ld.len() <= t@.len() + 1);
        }
        let n = lines.len();
        let mut todos: Vec<Todo> = Vec::new();
        let mut next_id: u32 = 0;
        let mut i: usize = 0;
        proof {
            assert(ld.skip(0) =~= ld);
            assert(views(todos@) =~= Seq::<RecordView>::empty());
        }
        while i < n
            invariant
                i <= n,
                n == ld.len(),
                ld == lines.deep_view(),
                ld == spec_split_lines(t@),
                text == Some(t),
                n == lines@.len(),
                ld.len() <= t@.len() + 1,
                t@.len() < u32::MAX,
                next_id <= i,
                spec_load_lines(ld, 1, 0) == match spec_load_lines(
                    ld.skip(i as int),
                    i + 1,
                    next_id as int,
                ) {
                    Ok(rest) => Ok::<Seq<RecordView>, int>(views(todos@) + rest),
                    Err(e) => Err::<Seq<RecordView>, int>(e),
                },
                forall|j: int| 0 <= j < todos@.len() ==> (#[trigger] todos@[j]).wf(),
            decreases n - i,
        {
            let ghost sj = ld.skip(i as int);
            proof {
                assert(sj[0] == ld[i as int]);
                assert(ld[i as int] == lines@[i as int]@);
                assert(sj.drop_first() =~= ld.skip(i as int + 1));
            }
            let line = &lines[i];
            if is_blank_line(line.as_str()) {
                i = i + 1;
                continue;
            }
            match parse_line(line.as_str()) {
                None => {
                    proof {
                        assert(!is_blank(sj[0]));
                        assert(spec_parse_line(sj[0]) is None);
                        assert(spec_load_lines(sj, i as int + 1, next_id as int) == Err::<
                            Seq<RecordView>,
                            int,
                        >(i as int + 1));
                        assert(spec_load_lines(ld, 1, 0) == Err::<Seq<RecordView>, int>(
                            i as int + 1,
                        ));
                        assert(spec_load(t@) == Err::<Seq<RecordView>, int>(i as int + 1));
                    }
                    return Err(TodoError::CorruptRecord { line: i + 1 });
                },
                Some(mut todo) => {
                    todo.set_id(next_id);
                    let ghost prev_views = views(todos@);
                    let ghost w = record_view(todo);
                    todos.push(todo);
                    proof {
                        assert(w == with_id(spec_parse_line(sj[0])->Some_0, next_id as int));
                        assert(views(todos@) =~= prev_views.push(w));
                        let next = spec_load_lines(
                            ld.skip(i as int + 1),
                            i + 2,
                            next_id as int + 1,
                        );
                        match next {
                            Ok(rest) => {
                                assert(prev_views + (seq![w] + rest) =~= views(todos@) + rest);
                            },
                            Err(_) => {},
                        }
                    }
                    next_id = next_id + 1;
                    i = i + 1;
                },
            }
        }
        proof {
            assert(ld.skip(n as int).len() == 0);
            assert(views(todos@) + Seq::<RecordView>::empty() =~= views(todos@));
        }
        Ok(TodoList { todos })
    }

    /// The store file's new text: every record, one line each, in list
    /// order. A save is a wholesale rewrite of the store, never an
    /// incremental append.
    pub fn save(&self) -> (r: String)
        requires
            self.wf(),
        ensures
            r@ == spec_save(views(self.todos@)),
    {
        let mut out = String::new();
        let n = self.todos.len();
        let mut i: usize = 0;
        proof {
            assert(views(self.todos@.subrange(0, 0)) =~= Seq::<RecordView>::empty());
        }
        while i < n
            invariant
                i <= n,
                n == self.todos@.len(),
                self.wf(),
                out@ == spec_save(views(self.todos@.subrange(0, i as int))),
            decreases n - i,
        {
            let line = render_line(&self.todos[i]);
            out.append(line.as_str());
            out.append("\n");
            proof {
                reveal_strlit("\n");
                assert("\n"@ =~= seq!['\n']);
                let pre = views(self.todos@.subrange(0, i as int));
                assert(self.todos@.subrange(0, i as int + 1) =~= self.todos@.subrange(
                    0,
                    i as int,
                ).push(self.todos@[i as int]));
                assert(views(self.todos@.subrange(0, i as int + 1)) =~= pre.push(
                    record_view(self.todos@[i as int]),
                ));
                lemma_save_push(pre, record_view(self.todos@[i as int]));
            }
            i = i + 1;
        }
        proof {
            assert(self.todos@.subrange(0, n as int) =~= self.todos@);
        }
        out
    }

    /// Appends a record to the end of the list.
    pub fn add(&mut self, task: Todo)
        ensures
            final(self).todos@ == old(self).todos@.push(task),
    {
        self.todos.push(task);
    }

    /// Removes and returns the record at `index`; `None`, and no change,
    /// when `index` is out of range.
    pub fn remove(&mut self, index: usize) -> (r: Option<Todo>)
        ensures
            index < old(self).todos@.len() ==> {
                &&& r == Some(old(self).todos@[index as int])
                &&& final(self).todos@ == old(self).todos@.remove(index as int)
            },
            index >= old(self).todos@.len() ==> {
                &&& r is None
                &&& *final(self) == *old(self)
            },
    {
        if index < self.todos.len() {
            Some(self.todos.remove(index))
        } else {
            None
        }
    }

    /// The record at position `id`, if any.
    pub fn get_todo(&self, id: usize) -> (r: Option<&Todo>)
        ensures
            id < self.todos@.len() ==> r == Some(&self.todos@[id as int]),
            id >= self.todos@.len() ==> r is None,
    {
        if id < self.todos.len() {
            Some(&self.todos[id])
        } else {
            None
        }
    }

    /// Replaces the record at position `id`; `false`, and no change, when
    /// `id` is out of range.
    pub fn set_todo(&mut self, id: usize, task: Todo) -> (r: bool)
        ensures
            id < old(self).todos@.len() ==> {
                &&& r
                &&& final(self).todos@ == old(self).todos@.update(id as int, task)
            },
            id >= old(self).todos@.len() ==> !r && *final(self) == *old(self),
    {
        if id < self.todos.len() {
            self.todos.set(id, task);
            true
        } else {
            false
        }
    }
}

/// A split yields at least one line and at most one line per character
/// plus one.
proof fn lemma_split_count(t: Seq<char>)
    ensures
        1 <= spec_split_lines(t).len() <= t.len() + 1,
    decreases t.len(),
{
    crate::text::lemma_line_break_bounds(t);
    let k = crate::text::line_break(t);
    if 0 <= k < t.len() {
        lemma_split_count(t.skip(k + 1));
    }
}

/// Records parsed out of raw lines with placeholder identity 0; lines that
/// do not parse are dropped. This is the display path of conflict
/// resolution, never what is written back.
pub open spec fn spec_records_of_lines(ls: Seq<Seq<char>>) -> Seq<RecordView>
    decreases ls.len(),
{
    if ls.len() == 0 {
        Seq::empty()
    } else {
        match spec_parse_line(ls[0]) {
            Some(v) => seq![with_id(v, 0)] + spec_records_of_lines(ls.drop_first()),
            None => spec_records_of_lines(ls.drop_first()),
        }
    }
}

/// Parses each line into a record with placeholder identity 0, dropping
/// lines that do not parse.
pub fn todos_from_json_lines(lines: &Vec<String>) -> (r: Vec<Todo>)
    ensures
        views(r@) == spec_records_of_lines(lines.deep_view()),
        forall|i: int| 0 <= i < r@.len() ==> (#[trigger] r@[i]).wf(),
{
    let ghost ld = lines.deep_view();
    let n = lines.len();
    let mut r: Vec<Todo> = Vec::new();
    let mut i: usize = 0;
    proof {
        assert(ld.skip(0) =~= ld);
        assert(views(r@) =~= Seq::<RecordView>::empty());
        assert(Seq::<RecordView>::empty() + spec_records_of_lines(ld) =~= spec_records_of_lines(
            ld,
        ));
    }
    while i < n
        invariant
            i <= n,
            n == ld.len(),
            ld == lines.deep_view(),
            n == lines@.len(),
            spec_records_of_lines(ld) == views(r@) + spec_records_of_lines(ld.skip(i as int)),
            forall|j: int| 0 <= j < r@.len() ==> (#[trigger] r@[j]).wf(),
        decreases n - i,
    {
        let ghost sj = ld.skip(i as int);
        proof {
            assert(sj[0] == ld[i as int]);
            assert(ld[i as int] == lines@[i as int]@);
            assert(sj.drop_first() =~= ld.skip(i as int + 1));
        }
        match Todo::from_json_line(lines[i].as_str(), 0) {
            Some(todo) => {
                let ghost prev_views = views(r@);
                let ghost w = record_view(todo);
                r.push(todo);
                proof {
                    assert(views(r@) =~= prev_views.push(w));
                    assert(prev_views + (seq![w] + spec_records_of_lines(sj.drop_first()))
                        =~= views(r@) + spec_records_of_lines(sj.drop_first()));
                }
            },
            None => {},
        }
        i = i + 1;
    }
    proof {
        assert(ld.skip(n as int).len() == 0);
        assert(views(r@) + Seq::<RecordView>::empty() =~= views(r@));
    }
    r
}

// ------------------------------------------------------------------
// The store round trip
// ------------------------------------------------------------------

/// The store text of a record list splits into one line per record plus a
/// final empty line.
proof fn lemma_split_save(vs: Seq<RecordView>)
    ensures
        spec_split_lines(spec_save(vs)) == vs.map_values(|v: RecordView| spec_render_line(v)).push(
            Seq::<char>::empty(),
        ),
    decreases vs.len(),
{
    let lines = vs.map_values(|v: RecordView| spec_render_line(v)).push(Seq::<char>::empty());
    assert(spec_save(vs) == spec_join_lines(lines)) by {
        lemma_save_is_join(vs);
    }
    assert forall|i: int| 0 <= i < lines.len() implies !(#[trigger] lines[i]).contains('\n') by {
        if i < lines.len() - 1 {
            crate::codec::lemma_render_line_no_newline(vs[i]);
        } else {
            if lines[i].contains('\n') {
                let k = choose|k: int| 0 <= k < lines[i].len() && lines[i][k] == '\n';
            }
        }
    }
    crate::text::lemma_split_of_join(lines);
}

/// The store text is the lines of the records, newline-joined, with a
/// final empty line.
proof fn lemma_save_is_join(vs: Seq<RecordView>)
    ensures
        spec_save(vs) == spec_join_lines(
            vs.map_values(|v: RecordView| spec_render_line(v)).push(Seq::<char>::empty()),
        ),
    decreases vs.len(),
{
    let lines = vs.map_values(|v: RecordView| spec_render_line(v)).push(Seq::<char>::empty());
    if vs.len() == 0 {
        assert(lines =~= seq![Seq::<char>::empty()]);
        assert(spec_join_lines(lines) == Seq::<char>::empty());
    } else {
        lemma_save_is_join(vs.drop_first());
        let tail_lines = vs.drop_first().map_values(|v: RecordView| spec_render_line(v)).push(
            Seq::<char>::empty(),
        );
        assert(lines.drop_first() =~= tail_lines);
        assert(lines[0] == spec_render_line(vs[0]));
        assert(lines.len() >= 2);
        assert(spec_join_lines(lines) == spec_render_line(vs[0]) + seq!['\n'] + spec_join_lines(
            tail_lines,
        ));
    }
}

/// Loading the rendered lines of well-formed records yields the records,
/// renumbered from `next_id`.
#[verifier::rlimit(100)]
#[verifier::spinoff_prover]
proof fn lemma_load_renders(vs: Seq<RecordView>, lineno: int, next_id: int)
    requires
        forall|i: int| 0 <= i < vs.len() ==> (#[trigger] vs[i]).wf(),
        0 <= next_id,
        next_id + vs.len() <= u32::MAX + 1,
    ensures
        spec_load_lines(
            vs.map_values(|v: RecordView| spec_render_line(v)).push(Seq::<char>::empty()),
            lineno,
            next_id,
        ) == Ok::<Seq<RecordView>, int>(
            Seq::new(vs.len(), |i: int| with_id(vs[i], next_id + i)),
        ),
    decreases vs.len(),
{
    let lines = vs.map_values(|v: RecordView| spec_render_line(v)).push(Seq::<char>::empty());
    if vs.len() == 0 {
        assert(lines =~= seq![Seq::<char>::empty()]);
        assert(is_blank(lines[0]));
        assert(lines.drop_first() =~= Seq::<Seq<char>>::empty());
        assert(spec_load_lines(Seq::<Seq<char>>::empty(), lineno + 1, next_id) == Ok::<
            Seq<RecordView>,
            int,
        >(Seq::empty()));
        assert(spec_load_lines(lines, lineno, next_id) == spec_load_lines(
            lines.drop_first(),
            lineno + 1,
            next_id,
        ));
        assert(Seq::new(0, |i: int| with_id(vs[i], next_id + i)) =~= Seq::<RecordView>::empty());
    } else {
        let v0 = vs[0];
        assert(lines[0] == spec_render_line(v0));
        crate::codec::lemma_render_line_starts_brace(v0);
        assert(!is_blank(lines[0])) by {
            if is_blank(lines[0]) {
                assert(lines[0][0] == ' ' || lines[0][0] == '\t' || lines[0][0] == '\r');
            }
        }
        crate::codec::lemma_parse_render_line(v0);
        lemma_load_renders(vs.drop_first(), lineno + 1, next_id + 1);
        let tail_lines = vs.drop_first().map_values(|v: RecordView| spec_render_line(v)).push(
            Seq::<char>::empty(),
        );
        assert(lines.drop_first() =~= tail_lines);
        let tail_out = Seq::new(
            (vs.len() - 1) as nat,
            |i: int| with_id(vs.drop_first()[i], next_id + 1 + i),
        );
        assert(spec_load_lines(tail_lines, lineno + 1, next_id + 1) == Ok::<Seq<RecordView>, int>(
            tail_out,
        ));
        assert(spec_load_lines(lines, lineno, next_id) == Ok::<Seq<RecordView>, int>(
            seq![with_id(v0, next_id)] + tail_out,
        ));
        assert(seq![with_id(v0, next_id)] + tail_out =~= Seq::new(
            vs.len(),
            |i: int| with_id(vs[i], next_id + i),
        ));
    }
}

/// THE ROUND TRIP OF THE STORE: saving any list of well-formed records and
/// loading the text back yields the same records in the same order, with
/// each record's positional identity recomputed from its position.
pub proof fn lemma_save_load_round_trip(vs: Seq<RecordView>)
    requires
        forall|i: int| 0 <= i < vs.len() ==> (#[trigger] vs[i]).wf(),
        vs.len() <= u32::MAX,
    ensures
        spec_load(spec_save(vs)) == Ok::<Seq<RecordView>, int>(
            Seq::new(vs.len(), |i: int| with_id(vs[i], i)),
        ),
{
    lemma_split_save(vs);
    lemma_load_renders(vs, 1, 0);
    assert(Seq::new(vs.len(), |i: int| with_id(vs[i], 0 + i)) =~= Seq::new(
        vs.len(),
        |i: int| with_id(vs[i], i),
    ));
}


/// Adjacent sortedness under a criteria chain: no record compares greater
/// than its successor.
pub open spec fn sorted_by(s: Seq<Todo>, cs: Seq<SortCriteria>) -> bool {
    forall|i: int|
        0 <= i < s.len() - 1 ==> crate::todo::spec_chain_compare(#[trigger] s[i], s[i + 1], cs)
            != core::cmp::Ordering::Greater
}

/// Inserting a record right before the first greater record keeps the
/// list sorted.
#[verifier::rlimit(100)]
#[verifier::spinoff_prover]
proof fn lemma_sorted_insert(prev: Seq<Todo>, t: Todo, p: int, cs: Seq<SortCriteria>)
    requires
        0 <= p <= prev.len(),
        sorted_by(prev, cs),
        forall|k: int|
            0 <= k < p ==> crate::todo::spec_chain_compare(#[trigger] prev[k], t, cs)
                != core::cmp::Ordering::Greater,
        p < prev.len() ==> crate::todo::spec_chain_compare(prev[p], t, cs)
            == core::cmp::Ordering::Greater,
    ensures
        sorted_by(prev.insert(p, t), cs),
{
    let out = prev.insert(p, t);
    assert forall|k: int|
        0 <= k < out.len() - 1 implies crate::todo::spec_chain_compare(
        #[trigger] out[k],
        out[k + 1],
        cs,
    ) != core::cmp::Ordering::Greater by {
        if k + 1 < p {
            assert(out[k] == prev[k] && out[k + 1] == prev[k + 1]);
        } else if k + 1 == p {
            assert(out[k] == prev[k] && out[k + 1] == t);
        } else if k == p {
            assert(out[k] == t && out[k + 1] == prev[k]);
            assert(crate::todo::spec_chain_compare(prev[k], t, cs)
                == core::cmp::Ordering::Greater);
            crate::todo::lemma_chain_flip(prev[k], t, cs);
        } else {
            assert(out[k] == prev[k - 1] && out[k + 1] == prev[k]);
        }
    }
}

/// One insertion step keeps the running multiset in step with the prefix
/// taken so far.
proof fn lemma_sort_step_multiset(prev: Seq<Todo>, t: Todo, p: int, orig: Seq<Todo>, i: int)
    requires
        0 <= p <= prev.len(),
        0 <= i < orig.len(),
        t == orig[i],
        prev.to_multiset() == orig.subrange(0, i).to_multiset(),
    ensures
        prev.insert(p, t).to_multiset() == orig.subrange(0, i + 1).to_multiset(),
{
    broadcast use vstd::seq_lib::group_to_multiset_ensures;

    vstd::seq_lib::to_multiset_insert(prev, p, t);
    assert(orig.subrange(0, i + 1) =~= orig.subrange(0, i).push(orig[i]));
    assert(orig.subrange(0, i + 1).to_multiset() =~= orig.subrange(0, i).to_multiset().insert(
        orig[i],
    ));
    assert(prev.insert(p, t).to_multiset() =~= orig.subrange(0, i + 1).to_multiset());
}

/// A list whose records all came from a well-formed list is well formed.
proof fn lemma_multiset_wf(new: Seq<Todo>, orig: Seq<Todo>)
    requires
        new.to_multiset() == orig.to_multiset(),
        forall|j: int| 0 <= j < orig.len() ==> (#[trigger] orig[j]).wf(),
    ensures
        forall|k: int| 0 <= k < new.len() ==> (#[trigger] new[k]).wf(),
{
    broadcast use vstd::seq_lib::group_to_multiset_ensures;

    assert forall|k: int| 0 <= k < new.len() implies (#[trigger] new[k]).wf() by {
        let x = new[k];
        assert(new.contains(x));
        assert(new.to_multiset().count(x) > 0);
        assert(orig.to_multiset().count(x) > 0);
        assert(orig.contains(x));
        let j = choose|j: int| 0 <= j < orig.len() && orig[j] == x;
        assert(orig[j].wf());
    }
}

impl TodoList {
    /// Reorders the records by the criteria chain: the same records (one
    /// for one), with none comparing greater than its successor. Equal
    /// records keep their relative order.
    #[verifier::rlimit(100)]
    #[verifier::spinoff_prover]
    pub fn sort_by_order(&mut self, sort_order: &Vec<SortCriteria>)
        ensures
            final(self).todos@.to_multiset() == old(self).todos@.to_multiset(),
            final(self).todos@.len() == old(self).todos@.len(),
            sorted_by(final(self).todos@, sort_order@),
            old(self).wf() ==> final(self).wf(),
    {
        let ghost cs = sort_order@;
        let ghost orig = self.todos@;
        let n = self.todos.len();
        let mut out: Vec<Todo> = Vec::new();
        let mut i: usize = 0;
        proof {
            broadcast use vstd::seq_lib::group_to_multiset_ensures;

            assert(orig.subrange(0, 0) =~= Seq::<Todo>::empty());
            assert(out@.to_multiset() =~= orig.subrange(0, 0).to_multiset());
        }
        while i < n
            invariant
                i <= n,
                n == self.todos@.len(),
                self.todos@ == orig,
                cs == sort_order@,
                out@.to_multiset() == orig.subrange(0, i as int).to_multiset(),
                out@.len() == i,
                sorted_by(out@, cs),
            decreases n - i,
        {
            let t = self.todos[i].clone();
            let m = out.len();
            let mut p: usize = 0;
            let mut found = false;
            while p < m && !found
                invariant
                    p <= m,
                    m == out@.len(),
                    cs == sort_order@,
                    t == orig[i as int],
                    forall|k: int|
                        0 <= k < p ==> crate::todo::spec_chain_compare(#[trigger] out@[k], t, cs)
                            != core::cmp::Ordering::Greater,
                    found ==> p < m && crate::todo::spec_chain_compare(out@[p as int], t, cs)
                        == core::cmp::Ordering::Greater,
                decreases m - p + (if found { 0int } else { 1int }),
            {
                match crate::todo::chain_compare(&out[p], &t, sort_order) {
                    core::cmp::Ordering::Greater => {
                        found = true;
                    },
                    _ => {
                        p = p + 1;
                    },
                }
            }
            let ghost prev = out@;
            out.insert(p, t);
            proof {
                assert(out@ == prev.insert(p as int, t));
                lemma_sorted_insert(prev, t, p as int, cs);
                lemma_sort_step_multiset(prev, t, p as int, orig, i as int);
            }
            i = i + 1;
        }
        proof {
            assert(orig.subrange(0, n as int) =~= orig);
        }
        self.todos = out;
        proof {
            if old(self).wf() {
                lemma_multiset_wf(self.todos@, orig);
            }
            broadcast use vstd::seq_lib::group_to_multiset_ensures;

        }
    }
}

} // verus!
