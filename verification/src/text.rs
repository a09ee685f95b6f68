//! Character-level text utilities: conversions between strings and
//! character vectors, line splitting and joining, prefix tests and
//! substring search. Everything here states its result over `Seq<char>`
//! views, so the record codec and the conflict resolver can speak of the
//! raw file text exactly.

use vstd::prelude::*;

verus! {

/// Relies on `<String as FromIterator<char>>` via `Iterator::collect`:
/// collecting characters yields the string of exactly those characters
/// in order.
#[verifier::external_body]
pub fn chars_to_string(v: &Vec<char>) -> (r: String)
    ensures
        r@ == v@,
{
    v.iter().collect()
}

/// The case-folded form of a sequence of characters, as `str::to_lowercase`
/// computes it. The result depends on the characters alone.
pub uninterp spec fn lower_of(s: Seq<char>) -> Seq<char>;

/// Relies on `str::to_lowercase`: the lower-case form of a string is a
/// function of its characters alone.
#[verifier::external_body]
pub fn lowercase(s: &str) -> (r: String)
    ensures
        r@ == lower_of(s@),
{
    s.to_lowercase()
}

/// The characters of a string slice, as a vector.
pub fn str_to_chars(s: &str) -> (r: Vec<char>)
    ensures
        r@ == s@,
{
    let n = s.unicode_len();
    let mut r: Vec<char> = Vec::new();
    let mut i: usize = 0;
    while i < n
        invariant
            n == s@.len(),
            i <= n,
            r@ == s@.subrange(0, i as int),
        decreases n - i,
    {
        r.push(s.get_char(i));
        i = i + 1;
        proof {
            assert(r@ =~= s@.subrange(0, i as int));
        }
    }
    proof {
        assert(r@ =~= s@);
    }
    r
}

/// Whether two string slices hold the same characters.
pub fn str_eq(a: &str, b: &str) -> (r: bool)
    ensures
        r == (a@ == b@),
{
    let na = a.unicode_len();
    let nb = b.unicode_len();
    if na != nb {
        proof {
            assert(a@ != b@) by {
                if a@ == b@ {
                    assert(a@.len() == b@.len());
                }
            }
        }
        return false;
    }
    let mut i: usize = 0;
    while i < na
        invariant
            na == a@.len(),
            na == b@.len(),
            i <= na,
            forall|j: int| 0 <= j < i ==> a@[j] == b@[j],
        decreases na - i,
    {
        if a.get_char(i) != b.get_char(i) {
            proof {
                assert(a@[i as int] != b@[i as int]);
            }
            return false;
        }
        i = i + 1;
    }
    proof {
        assert(a@ =~= b@);
    }
    true
}

/// Whether `s` begins with the characters of `prefix`.
pub open spec fn spec_starts_with(s: Seq<char>, prefix: Seq<char>) -> bool {
    prefix.len() <= s.len() && s.subrange(0, prefix.len() as int) == prefix
}

/// Whether the string slice `s` begins with `prefix`.
pub fn str_starts_with(s: &str, prefix: &str) -> (r: bool)
    ensures
        r == spec_starts_with(s@, prefix@),
{
    let np = prefix.unicode_len();
    let ns = s.unicode_len();
    if np > ns {
        return false;
    }
    let mut i: usize = 0;
    while i < np
        invariant
            np == prefix@.len(),
            ns == s@.len(),
            np <= ns,
            i <= np,
            forall|j: int| 0 <= j < i ==> s@[j] == prefix@[j],
        decreases np - i,
    {
        if s.get_char(i) != prefix.get_char(i) {
            proof {
                assert(s@[i as int] != prefix@[i as int]);
                assert(!spec_starts_with(s@, prefix@)) by {
                    if spec_starts_with(s@, prefix@) {
                        assert(s@.subrange(0, np as int)[i as int] == prefix@[i as int]);
                    }
                }
            }
            return false;
        }
        i = i + 1;
    }
    proof {
        assert(s@.subrange(0, np as int) =~= prefix@);
    }
    true
}

/// Whether `pat` occurs in `s` starting at position `i`.
pub open spec fn occurs_at(s: Seq<char>, pat: Seq<char>, i: int) -> bool {
    0 <= i && i + pat.len() <= s.len() && s.subrange(i, i + pat.len() as int) == pat
}

/// Whether `pat` occurs anywhere in `s`.
pub open spec fn is_substring(s: Seq<char>, pat: Seq<char>) -> bool {
    exists|i: int| occurs_at(s, pat, i)
}

/// Whether the characters of `pat` occur contiguously in `s`.
pub fn str_contains(s: &str, pat: &str) -> (r: bool)
    ensures
        r == is_substring(s@, pat@),
{
    let ns = s.unicode_len();
    let np = pat.unicode_len();
    if np > ns {
        return false;
    }
    let mut start: usize = 0;
    while start <= ns - np
        invariant
            ns == s@.len(),
            np == pat@.len(),
            np <= ns,
            start <= ns - np + 1,
            forall|k: int| 0 <= k < start ==> !occurs_at(s@, pat@, k),
        decreases ns - np + 1 - start,
    {
        let mut i: usize = 0;
        let mut matched = true;
        while i < np && matched
            invariant
                ns == s@.len(),
                np == pat@.len(),
                start + np <= ns,
                i <= np,
                matched ==> forall|j: int| 0 <= j < i ==> s@[start + j] == pat@[j],
                !matched ==> !occurs_at(s@, pat@, start as int),
                !matched ==> np > 0,
            decreases np - i + (if matched { 1int } else { 0int }),
        {
            if s.get_char(start + i) != pat.get_char(i) {
                matched = false;
                proof {
                    assert(s@[start + i] != pat@[i as int]);
                    assert(!occurs_at(s@, pat@, start as int)) by {
                        if occurs_at(s@, pat@, start as int) {
                            assert(s@.subrange(start as int, start + np)[i as int]
                                == pat@[i as int]);
                            assert(s@[start + i] == pat@[i as int]);
                        }
                    }
                }
            } else {
                i = i + 1;
            }
        }
        if matched {
            proof {
                assert(s@.subrange(start as int, start + np) =~= pat@);
                assert(occurs_at(s@, pat@, start as int));
            }
            return true;
        }
        start = start + 1;
    }
    proof {
        assert(!is_substring(s@, pat@)) by {
            if is_substring(s@, pat@) {
                let k = choose|k: int| occurs_at(s@, pat@, k);
                assert(k + np <= ns);
                assert(!occurs_at(s@, pat@, k));
            }
        }
    }
    false
}

/// The lines of `text`, joined back with a newline between each pair.
pub open spec fn spec_join_lines(lines: Seq<Seq<char>>) -> Seq<char>
    decreases lines.len(),
{
    if lines.len() == 0 {
        Seq::empty()
    } else if lines.len() == 1 {
        lines[0]
    } else {
        lines[0] + seq!['\n'] + spec_join_lines(lines.drop_first())
    }
}

/// Splits `text` at every newline, in the way that joining the parts with
/// a newline between each pair gives `text` back. A text that ends in a
/// newline therefore yields an empty final line.
pub fn split_lines(text: &str) -> (lines: Vec<String>)
    ensures
        lines@.len() >= 1,
        spec_join_lines(lines.deep_view()) == text@,
        forall|i: int| 0 <= i < lines@.len() ==> !lines.deep_view()[i].contains('\n'),
        lines.deep_view() == spec_split_lines(text@),
{
    let chars = str_to_chars(text);
    let n = chars.len();
    let mut lines: Vec<String> = Vec::new();
    let mut cur: Vec<char> = Vec::new();
    proof {
        assert(lines.deep_view().push(cur@) =~= seq![cur@]);
        assert(text@.subrange(0, 0) =~= Seq::<char>::empty());
    }
    let mut i: usize = 0;
    while i < n
        invariant
            n == chars.len(),
            chars@ == text@,
            i <= n,
            spec_join_lines(lines.deep_view().push(cur@)) == text@.subrange(0, i as int),
            forall|j: int| 0 <= j < lines@.len() ==> !lines.deep_view()[j].contains('\n'),
            !cur@.contains('\n'),
        decreases n - i,
    {
        let ghost prev_lines = lines.deep_view();
        let ghost prev_cur = cur@;
        let c = chars[i];
        proof {
            assert(text@.subrange(0, i + 1) =~= text@.subrange(0, i as int) + seq![
                text@[i as int],
            ]);
        }
        if c == '\n' {
            let done = chars_to_string(&cur);
            lines.push(done);
            cur = Vec::new();
            proof {
                assert(lines.deep_view() =~= prev_lines.push(prev_cur));
                lemma_join_push_line(prev_lines.push(prev_cur), Seq::<char>::empty());
                assert(spec_join_lines(prev_lines.push(prev_cur)) + seq!['\n']
                    + Seq::<char>::empty() =~= text@.subrange(0, i as int) + seq!['\n']);
                assert(spec_join_lines(lines.deep_view().push(cur@)) == text@.subrange(0, i + 1));
                assert(forall|j: int|
                    0 <= j < lines@.len() ==> !(#[trigger] lines.deep_view()[j]).contains('\n'));
            }
        } else {
            cur.push(c);
            proof {
                assert(cur@ =~= prev_cur.push(c));
                lemma_join_push_last(prev_lines, prev_cur, c);
                assert(!cur@.contains('\n')) by {
                    if cur@.contains('\n') {
                        let k = choose|k: int| 0 <= k < cur@.len() && cur@[k] == '\n';
                        if k < prev_cur.len() {
                            assert(prev_cur[k] == '\n');
                        }
                    }
                }
            }
        }
        i = i + 1;
    }
    let ghost prev_lines = lines.deep_view();
    let ghost prev_cur = cur@;
    let done = chars_to_string(&cur);
    lines.push(done);
    proof {
        assert(lines.deep_view() =~= prev_lines.push(prev_cur));
        assert(text@.subrange(0, n as int) =~= text@);
        assert(forall|j: int|
            0 <= j < lines@.len() ==> !(#[trigger] lines.deep_view()[j]).contains('\n'));
        lemma_split_of_join(lines.deep_view());
    }
    lines
}

/// Joining after appending an empty line adds one newline and nothing more.
proof fn lemma_join_push_line(lines: Seq<Seq<char>>, last: Seq<char>)
    ensures
        spec_join_lines(lines.push(last)) == if lines.len() == 0 {
            last
        } else {
            spec_join_lines(lines) + seq!['\n'] + last
        },
    decreases lines.len(),
{
    if lines.len() == 0 {
        assert(lines.push(last) =~= seq![last]);
        assert(spec_join_lines(seq![last]) == last);
    } else {
        let tail = lines.drop_first();
        lemma_join_push_line(tail, last);
        assert(lines.push(last).drop_first() =~= tail.push(last));
        assert(lines.push(last)[0] == lines[0]);
        assert(lines.push(last).len() >= 2);
        if lines.len() == 1 {
            assert(spec_join_lines(lines) == lines[0]);
            assert(spec_join_lines(tail.push(last)) == last);
        }
    }
}

/// Extending the unfinished last line extends the joined text by one character.
proof fn lemma_join_push_last(lines: Seq<Seq<char>>, cur: Seq<char>, c: char)
    ensures
        spec_join_lines(lines.push(cur.push(c))) == spec_join_lines(lines.push(cur)) + seq![c],
{
    lemma_join_push_line(lines, cur);
    lemma_join_push_line(lines, cur.push(c));
    if lines.len() == 0 {
        assert(cur.push(c) =~= cur + seq![c]);
    } else {
        assert(cur.push(c) =~= cur + seq![c]);
        assert(spec_join_lines(lines) + seq!['\n'] + (cur + seq![c]) =~= (spec_join_lines(lines)
            + seq!['\n'] + cur) + seq![c]);
    }
}

/// Joins lines with a newline between each pair, undoing `split_lines`.
pub fn join_lines(lines: &Vec<String>) -> (r: String)
    ensures
        r@ == spec_join_lines(lines.deep_view()),
{
    let mut out: Vec<char> = Vec::new();
    let n = lines.len();
    let mut i: usize = 0;
    while i < n
        invariant
            n == lines@.len(),
            i <= n,
            out@ == spec_join_prefix(lines.deep_view(), i as int),
        decreases n - i,
    {
        if i > 0 {
            out.push('\n');
        }
        let cs = str_to_chars(lines[i].as_str());
        let mut j: usize = 0;
        let m = cs.len();
        let ghost base = out@;
        while j < m
            invariant
                m == cs.len(),
                j <= m,
                out@ == base + cs@.subrange(0, j as int),
            decreases m - j,
        {
            out.push(cs[j]);
            proof {
                assert(base + cs@.subrange(0, j + 1) =~= (base + cs@.subrange(0, j as int)).push(
                    cs@[j as int],
                ));
            }
            j = j + 1;
        }
        proof {
            assert(cs@.subrange(0, m as int) =~= cs@);
            lemma_join_prefix_step(lines.deep_view(), i as int);
        }
        i = i + 1;
    }
    proof {
        lemma_join_prefix_full(lines.deep_view());
    }
    chars_to_string(&out)
}

/// The joined text of the first `k` lines.
spec fn spec_join_prefix(lines: Seq<Seq<char>>, k: int) -> Seq<char>
    recommends
        0 <= k <= lines.len(),
{
    spec_join_lines(lines.subrange(0, k))
}

proof fn lemma_join_prefix_step(lines: Seq<Seq<char>>, i: int)
    requires
        0 <= i < lines.len(),
    ensures
        spec_join_prefix(lines, i + 1) == if i == 0 {
            lines[0]
        } else {
            spec_join_prefix(lines, i) + seq!['\n'] + lines[i]
        },
{
    assert(lines.subrange(0, i + 1) =~= lines.subrange(0, i).push(lines[i]));
    lemma_join_push_line(lines.subrange(0, i), lines[i]);
}

proof fn lemma_join_prefix_full(lines: Seq<Seq<char>>)
    ensures
        spec_join_prefix(lines, lines.len() as int) == spec_join_lines(lines),
{
    assert(lines.subrange(0, lines.len() as int) =~= lines);
}


/// The index of the first newline in `t`, or `t.len()` if there is none.
pub open spec fn line_break(t: Seq<char>) -> int
    decreases t.len(),
{
    if t.len() == 0 || t[0] == '\n' {
        0
    } else {
        1 + line_break(t.drop_first())
    }
}

/// The first newline is where `line_break` says, and nothing before it is
/// a newline.
pub proof fn lemma_line_break_bounds(t: Seq<char>)
    ensures
        0 <= line_break(t) <= t.len(),
        forall|j: int| 0 <= j < line_break(t) ==> t[j] != '\n',
        line_break(t) < t.len() ==> t[line_break(t)] == '\n',
    decreases t.len(),
{
    if t.len() == 0 || t[0] == '\n' {
    } else {
        lemma_line_break_bounds(t.drop_first());
        assert forall|j: int| 0 <= j < line_break(t) implies t[j] != '\n' by {
            if j > 0 {
                assert(t.drop_first()[j - 1] == t[j]);
            }
        }
        if line_break(t) < t.len() {
            assert(t.drop_first()[line_break(t) - 1] == t[line_break(t)]);
        }
    }
}

/// Any newline-free prefix ending at a newline or at the end locates the
/// first newline.
pub proof fn lemma_line_break_unique(t: Seq<char>, k: int)
    requires
        0 <= k <= t.len(),
        forall|j: int| 0 <= j < k ==> t[j] != '\n',
        k < t.len() ==> t[k] == '\n',
    ensures
        line_break(t) == k,
    decreases t.len(),
{
    if k == 0 {
    } else {
        assert(t[0] != '\n');
        let u = t.drop_first();
        assert(forall|j: int| 0 <= j < k - 1 ==> #[trigger] u[j] == t[j + 1]);
        if k - 1 < u.len() {
            assert(u[k - 1] == t[k]);
        }
        lemma_line_break_unique(u, k - 1);
    }
}

/// The lines of `t`: the text cut at every newline. A trailing newline
/// yields an empty final line.
pub open spec fn spec_split_lines(t: Seq<char>) -> Seq<Seq<char>>
    decreases t.len(),
{
    let k = line_break(t);
    if 0 <= k < t.len() {
        seq![t.subrange(0, k)] + spec_split_lines(t.skip(k + 1))
    } else {
        seq![t]
    }
}

/// Splitting undoes joining: newline-free lines joined with newlines split
/// back into exactly those lines.
pub proof fn lemma_split_of_join(lines: Seq<Seq<char>>)
    requires
        lines.len() >= 1,
        forall|i: int| 0 <= i < lines.len() ==> !(#[trigger] lines[i]).contains('\n'),
    ensures
        spec_split_lines(spec_join_lines(lines)) == lines,
    decreases lines.len(),
{
    let t = spec_join_lines(lines);
    let first = lines[0];
    assert forall|j: int| 0 <= j < first.len() implies first[j] != '\n' by {
        if first[j] == '\n' {
            assert(first.contains('\n'));
        }
    }
    if lines.len() == 1 {
        assert(t == first);
        lemma_line_break_unique(t, t.len() as int);
        assert(spec_split_lines(t) =~= seq![t]);
        assert(seq![t] =~= lines);
    } else {
        let rest = lines.drop_first();
        assert(t == first + seq!['\n'] + spec_join_lines(rest));
        assert forall|j: int| 0 <= j < first.len() implies t[j] != '\n' by {
            assert(t[j] == first[j]);
        }
        assert(t[first.len() as int] == '\n');
        lemma_line_break_unique(t, first.len() as int);
        assert(t.subrange(0, first.len() as int) =~= first);
        assert(t.skip(first.len() as int + 1) =~= spec_join_lines(rest));
        assert(forall|i: int| 0 <= i < rest.len() ==> rest[i] == #[trigger] lines[i + 1]);
        lemma_split_of_join(rest);
        assert(seq![first] + rest =~= lines);
    }
}

/// Joining undoes splitting: the lines of `t`, joined with newlines,
/// give `t` back.
pub proof fn lemma_join_of_split(t: Seq<char>)
    ensures
        spec_join_lines(spec_split_lines(t)) == t,
    decreases t.len(),
{
    lemma_line_break_bounds(t);
    let k = line_break(t);
    if 0 <= k < t.len() {
        lemma_join_of_split(t.skip(k + 1));
        let first = t.subrange(0, k);
        let rest = spec_split_lines(t.skip(k + 1));
        let lines = seq![first] + rest;
        assert(spec_split_lines(t) == lines);
        assert(rest.len() >= 1);
        assert(lines.len() >= 2);
        assert(lines[0] == first);
        assert(lines.drop_first() =~= rest);
        assert(spec_join_lines(lines) == first + seq!['\n'] + spec_join_lines(rest));
        assert(t[k] == '\n');
        assert(first + seq!['\n'] + t.skip(k + 1) =~= t);
    }
}
} // verus!
