//! The merge policy: the ordered union of two record lists, de-duplicated
//! by content. Content is every field except the positional identity, so
//! two replicas' copies of one task are merged even after their line
//! numbers diverged. First occurrence order is preserved: all of the local
//! list first, then every remote record not already present by content.

use vstd::prelude::*;

use crate::todo::{spec_content, Todo};
use crate::todo_list::TodoList;

verus! {

/// Whether some record in `s` has the same content as `t`.
pub open spec fn content_in(s: Seq<Todo>, t: Todo) -> bool {
    exists|i: int| 0 <= i < s.len() && spec_content(s[i]) == spec_content(t)
}

/// `s` with every record dropped whose content already occurred earlier.
pub open spec fn dedup_by_content(s: Seq<Todo>) -> Seq<Todo>
    decreases s.len(),
{
    if s.len() == 0 {
        Seq::empty()
    } else {
        let pre = s.drop_last();
        if content_in(pre, s.last()) {
            dedup_by_content(pre)
        } else {
            dedup_by_content(pre).push(s.last())
        }
    }
}

/// No two records of `s` share their content.
pub open spec fn content_distinct(s: Seq<Todo>) -> bool {
    forall|i: int, j: int|
        0 <= i < j < s.len() ==> spec_content(s[i]) != spec_content(s[j])
}

/// No record of `a` shares its content with a record of `b`.
pub open spec fn content_disjoint(a: Seq<Todo>, b: Seq<Todo>) -> bool {
    forall|i: int, j: int|
        0 <= i < a.len() && 0 <= j < b.len() ==> spec_content(a[i]) != spec_content(b[j])
}

/// Whether two records agree on every field except the positional identity.
pub fn content_eq(a: &Todo, b: &Todo) -> (r: bool)
    ensures
        r == (spec_content(*a) == spec_content(*b)),
{
    let title_eq = crate::text::str_eq(a.title.as_str(), b.title.as_str());
    let desc_eq = match &a.description {
        None => b.description.is_none(),
        Some(x) => match &b.description {
            Some(y) => crate::text::str_eq(x.as_str(), y.as_str()),
            None => false,
        },
    };
    let due_eq = match &a.due_date {
        None => b.due_date.is_none(),
        Some(x) => match &b.due_date {
            Some(y) => *x == *y,
            None => false,
        },
    };
    let fin_eq = a.finished == b.finished;
    let pri_eq = a.priority == b.priority;
    let created_eq = a.created_at == b.created_at;
    proof {
        assert(desc_eq == (a.description.deep_view() == b.description.deep_view()));
        let ca = spec_content(*a);
        let cb = spec_content(*b);
        if title_eq && desc_eq && fin_eq && pri_eq && created_eq && due_eq {
            assert(ca == cb) by {
                assert(ca.0 == cb.0 && ca.1 == cb.1 && ca.2 == cb.2 && ca.3 == cb.3 && ca.4
                    == cb.4 && ca.5 == cb.5);
            }
        } else {
            assert(ca != cb) by {
                if ca == cb {
                    assert(ca.0 == cb.0 && ca.1 == cb.1 && ca.2 == cb.2 && ca.3 == cb.3 && ca.4
                        == cb.4 && ca.5 == cb.5);
                }
            }
        }
    }
    title_eq && desc_eq && fin_eq && pri_eq && created_eq && due_eq
}

/// Whether some record of `v` has the same content as `t`.
fn contains_content(v: &Vec<Todo>, t: &Todo) -> (r: bool)
    ensures
        r == content_in(v@, *t),
{
    let n = v.len();
    let mut i: usize = 0;
    while i < n
        invariant
            i <= n,
            n == v@.len(),
            forall|j: int| 0 <= j < i ==> spec_content(v@[j]) != spec_content(*t),
        decreases n - i,
    {
        if content_eq(&v[i], t) {
            return true;
        }
        i = i + 1;
    }
    false
}

/// Deduplication keeps a representative of each content: membership by
/// content is unchanged.
proof fn lemma_dedup_same_contents(s: Seq<Todo>, t: Todo)
    ensures
        content_in(dedup_by_content(s), t) == content_in(s, t),
    decreases s.len(),
{
    if s.len() == 0 {
    } else {
        let pre = s.drop_last();
        lemma_dedup_same_contents(pre, t);
        if content_in(pre, s.last()) {
            assert(content_in(s, t) ==> content_in(pre, t)) by {
                if content_in(s, t) {
                    let i = choose|i: int|
                        0 <= i < s.len() && spec_content(s[i]) == spec_content(t);
                    if i < pre.len() {
                        assert(spec_content(pre[i]) == spec_content(t));
                    } else {
                        let k = choose|k: int|
                            0 <= k < pre.len() && spec_content(pre[k]) == spec_content(s.last());
                        assert(spec_content(pre[k]) == spec_content(t));
                    }
                }
            }
            assert(content_in(pre, t) ==> content_in(s, t)) by {
                if content_in(pre, t) {
                    let i = choose|i: int|
                        0 <= i < pre.len() && spec_content(pre[i]) == spec_content(t);
                    assert(spec_content(s[i]) == spec_content(t));
                }
            }
        } else {
            let d = dedup_by_content(pre).push(s.last());
            assert(content_in(d, t) == (content_in(dedup_by_content(pre), t) || spec_content(
                s.last(),
            ) == spec_content(t))) by {
                if content_in(d, t) {
                    let i = choose|i: int|
                        0 <= i < d.len() && spec_content(d[i]) == spec_content(t);
                    if i < d.len() - 1 {
                        assert(spec_content(dedup_by_content(pre)[i]) == spec_content(t));
                    }
                }
                if content_in(dedup_by_content(pre), t) {
                    let i = choose|i: int|
                        0 <= i < dedup_by_content(pre).len() && spec_content(
                            dedup_by_content(pre)[i],
                        ) == spec_content(t);
                    assert(spec_content(d[i]) == spec_content(t));
                }
                if spec_content(s.last()) == spec_content(t) {
                    assert(spec_content(d[d.len() - 1]) == spec_content(t));
                }
            }
            assert(content_in(s, t) == (content_in(pre, t) || spec_content(s.last())
                == spec_content(t))) by {
                if content_in(s, t) {
                    let i = choose|i: int|
                        0 <= i < s.len() && spec_content(s[i]) == spec_content(t);
                    if i < pre.len() {
                        assert(spec_content(pre[i]) == spec_content(t));
                    }
                }
                if content_in(pre, t) {
                    let i = choose|i: int|
                        0 <= i < pre.len() && spec_content(pre[i]) == spec_content(t);
                    assert(spec_content(s[i]) == spec_content(t));
                }
            }
        }
    }
}

/// Extending by one record keeps it only when its content is new.
proof fn lemma_dedup_push(s: Seq<Todo>, t: Todo)
    ensures
        dedup_by_content(s.push(t)) == if content_in(s, t) {
            dedup_by_content(s)
        } else {
            dedup_by_content(s).push(t)
        },
{
    assert(s.push(t).drop_last() =~= s);
    assert(s.push(t).last() == t);
}

/// The version-controlled repository wrapping the data directory, named by
/// its filesystem path.
#[derive(Debug)]
pub struct GitRepo {
    pub path: String,
}

impl GitRepo {
    /// Binds the repository at the given path. The path is only recorded;
    /// nothing on disk is touched.
    pub fn new(path: &str) -> (r: GitRepo)
        ensures
            r.path@ == path@,
    {
        GitRepo { path: String::from_str(path) }
    }

    /// Merges two record lists: all of `local` in order, then every record
    /// of `remote` whose content is not already present. Duplicates by
    /// content are never introduced.
    pub fn merge_todo_lists(&self, local: TodoList, remote: TodoList) -> (r: TodoList)
        ensures
            r.todos@ == dedup_by_content(local.todos@ + remote.todos@),
    {
        let ghost all = local.todos@ + remote.todos@;
        let mut merged: Vec<Todo> = Vec::new();
        proof {
            assert(local.todos@.subrange(0, 0) =~= Seq::<Todo>::empty());
            assert(merged@ =~= dedup_by_content(local.todos@.subrange(0, 0)));
        }
        let n = local.todos.len();
        let mut i: usize = 0;
        while i < n
            invariant
                i <= n,
                n == local.todos@.len(),
                merged@ == dedup_by_content(local.todos@.subrange(0, i as int)),
            decreases n - i,
        {
            let t = local.todos[i].clone();
            let ghost pre = local.todos@.subrange(0, i as int);
            proof {
                lemma_dedup_same_contents(pre, local.todos@[i as int]);
                lemma_dedup_push(pre, local.todos@[i as int]);
                assert(local.todos@.subrange(0, i as int + 1) =~= pre.push(
                    local.todos@[i as int],
                ));
            }
            if !contains_content(&merged, &t) {
                merged.push(t);
            }
            i = i + 1;
        }
        proof {
            assert(local.todos@.subrange(0, n as int) =~= local.todos@);
        }
        let m = remote.todos.len();
        let mut j: usize = 0;
        proof {
            assert(all.subrange(0, local.todos@.len() as int) =~= local.todos@);
        }
        while j < m
            invariant
                j <= m,
                m == remote.todos@.len(),
                all == local.todos@ + remote.todos@,
                n == local.todos@.len(),
                merged@ == dedup_by_content(all.subrange(0, n + j)),
            decreases m - j,
        {
            let t = remote.todos[j].clone();
            let ghost pre = all.subrange(0, n + j);
            proof {
                assert(all[n + j] == remote.todos@[j as int]);
                lemma_dedup_same_contents(pre, all[n + j]);
                lemma_dedup_push(pre, all[n + j]);
                assert(all.subrange(0, n + j + 1) =~= pre.push(all[n + j]));
            }
            if !contains_content(&merged, &t) {
                merged.push(t);
            }
            j = j + 1;
        }
        proof {
            assert(all.subrange(0, n + m) =~= all);
        }
        TodoList { todos: merged }
    }
}

/// Deduplication leaves a content-distinct list untouched.
proof fn lemma_dedup_distinct(s: Seq<Todo>)
    requires
        content_distinct(s),
    ensures
        dedup_by_content(s) == s,
    decreases s.len(),
{
    if s.len() == 0 {
        assert(dedup_by_content(s) =~= s);
    } else {
        let pre = s.drop_last();
        assert(content_distinct(pre)) by {
            assert(forall|i: int, j: int|
                0 <= i < j < pre.len() ==> spec_content(#[trigger] pre[i]) != spec_content(
                    #[trigger] pre[j],
                )) by {
                assert(forall|i: int, j: int|
                    0 <= i < j < pre.len() ==> pre[i] == s[i] && pre[j] == s[j]);
            }
        }
        lemma_dedup_distinct(pre);
        assert(!content_in(pre, s.last())) by {
            if content_in(pre, s.last()) {
                let i = choose|i: int|
                    0 <= i < pre.len() && spec_content(pre[i]) == spec_content(s.last());
                assert(spec_content(s[i]) == spec_content(s[s.len() - 1]));
            }
        }
        assert(pre.push(s.last()) =~= s);
    }
}

/// Records whose content is already present add nothing to the merge.
proof fn lemma_dedup_absorb(s: Seq<Todo>, t: Seq<Todo>)
    requires
        forall|i: int| 0 <= i < t.len() ==> content_in(s, #[trigger] t[i]),
    ensures
        dedup_by_content(s + t) == dedup_by_content(s),
    decreases t.len(),
{
    if t.len() == 0 {
        assert(s + t =~= s);
    } else {
        let pre = t.drop_last();
        assert(forall|i: int| 0 <= i < pre.len() ==> content_in(s, #[trigger] pre[i])) by {
            assert(forall|i: int| 0 <= i < pre.len() ==> pre[i] == #[trigger] t[i]);
        }
        lemma_dedup_absorb(s, pre);
        assert(s + t =~= (s + pre).push(t.last()));
        lemma_dedup_push(s + pre, t.last());
        assert(content_in(s + pre, t.last())) by {
            assert(content_in(s, t.last()));
            let i = choose|i: int|
                0 <= i < s.len() && spec_content(s[i]) == spec_content(t.last());
            assert(spec_content((s + pre)[i]) == spec_content(t.last()));
        }
    }
}

/// Appending records whose contents are fresh and mutually distinct keeps
/// them all.
proof fn lemma_dedup_append_fresh(s: Seq<Todo>, t: Seq<Todo>)
    requires
        content_distinct(t),
        forall|i: int| 0 <= i < t.len() ==> !content_in(s, #[trigger] t[i]),
    ensures
        dedup_by_content(s + t) == dedup_by_content(s) + t,
    decreases t.len(),
{
    if t.len() == 0 {
        assert(s + t =~= s);
        assert(dedup_by_content(s) + t =~= dedup_by_content(s));
    } else {
        let pre = t.drop_last();
        assert(forall|i: int| 0 <= i < pre.len() ==> pre[i] == #[trigger] t[i]);
        assert(content_distinct(pre));
        assert(forall|i: int| 0 <= i < pre.len() ==> !content_in(s, #[trigger] pre[i]));
        lemma_dedup_append_fresh(s, pre);
        assert(s + t =~= (s + pre).push(t.last()));
        lemma_dedup_push(s + pre, t.last());
        assert(!content_in(s + pre, t.last())) by {
            if content_in(s + pre, t.last()) {
                let i = choose|i: int|
                    0 <= i < (s + pre).len() && spec_content((s + pre)[i]) == spec_content(
                        t.last(),
                    );
                if i < s.len() {
                    assert(spec_content(s[i]) == spec_content(t.last()));
                    assert(content_in(s, t.last()));
                    assert(t[t.len() - 1] == t.last());
                } else {
                    assert(spec_content(t[i - s.len()]) == spec_content(t[t.len() - 1]));
                }
            }
        }
        assert(dedup_by_content(s) + pre.push(t.last()) =~= (dedup_by_content(s) + pre).push(
            t.last(),
        ));
        assert(pre.push(t.last()) =~= t);
    }
}

/// LAW: merging a content-distinct list with itself gives the list back,
/// in order, with no duplicates introduced.
pub proof fn lemma_merge_idempotent(x: Seq<Todo>)
    requires
        content_distinct(x),
    ensures
        dedup_by_content(x + x) == x,
{
    assert(forall|i: int| 0 <= i < x.len() ==> content_in(x, #[trigger] x[i]));
    lemma_dedup_absorb(x, x);
    lemma_dedup_distinct(x);
}

/// LAW: merging two content-distinct, content-disjoint lists concatenates
/// them: the result has the length of both together and contains every
/// record of each.
pub proof fn lemma_merge_disjoint_union(a: Seq<Todo>, b: Seq<Todo>)
    requires
        content_distinct(a),
        content_distinct(b),
        content_disjoint(a, b),
    ensures
        dedup_by_content(a + b) == a + b,
        dedup_by_content(a + b).len() == a.len() + b.len(),
        forall|i: int| 0 <= i < a.len() ==> dedup_by_content(a + b)[i] == a[i],
        forall|j: int| 0 <= j < b.len() ==> dedup_by_content(a + b)[a.len() + j] == b[j],
{
    assert(forall|i: int| 0 <= i < b.len() ==> !content_in(a, #[trigger] b[i])) by {
        assert forall|i: int| 0 <= i < b.len() implies !content_in(a, #[trigger] b[i]) by {
            if content_in(a, b[i]) {
                let k = choose|k: int|
                    0 <= k < a.len() && spec_content(a[k]) == spec_content(b[i]);
            }
        }
    }
    lemma_dedup_append_fresh(a, b);
    lemma_dedup_distinct(a);
}

/// LAW: merging a list with a copy of itself followed by fresh records
/// suppresses the duplicates: the result is the list followed by the fresh
/// records, not the list twice.
pub proof fn lemma_merge_duplicate_suppression(a: Seq<Todo>, b: Seq<Todo>)
    requires
        content_distinct(a),
        content_distinct(b),
        content_disjoint(a, b),
    ensures
        dedup_by_content(a + (a + b)) == a + b,
        dedup_by_content(a + (a + b)).len() == a.len() + b.len(),
{
    assert(forall|i: int| 0 <= i < a.len() ==> content_in(a, #[trigger] a[i]));
    lemma_dedup_absorb(a, a);
    lemma_dedup_distinct(a);
    assert(forall|i: int| 0 <= i < b.len() ==> !content_in(a + a, #[trigger] b[i])) by {
        assert forall|i: int| 0 <= i < b.len() implies !content_in(a + a, #[trigger] b[i]) by {
            if content_in(a + a, b[i]) {
                let k = choose|k: int|
                    0 <= k < (a + a).len() && spec_content((a + a)[k]) == spec_content(b[i]);
                if k < a.len() {
                    assert(spec_content(a[k]) == spec_content(b[i]));
                } else {
                    assert(spec_content(a[k - a.len()]) == spec_content(b[i]));
                }
            }
        }
    }
    lemma_dedup_append_fresh(a + a, b);
    assert(a + (a + b) =~= (a + a) + b);
    assert(dedup_by_content((a + a) + b) == dedup_by_content(a + a) + b);
    assert(dedup_by_content(a + a) == a);
    assert(dedup_by_content(a + (a + b)) == a + b);
}

} // verus!
