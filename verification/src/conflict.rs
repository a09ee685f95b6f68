//! The conflict resolver. After a failed automatic merge the store file
//! holds ordinary lines interleaved with conflict-marker regions. This
//! module scans the raw lines, cuts out each region's local and incoming
//! sides, and rebuilds the file from one decision per region. The original
//! raw lines — never re-serialized records — are what is written back, so
//! resolution is deterministic and preserves formatting exactly.

use vstd::prelude::*;

use crate::errors::TodoError;
use crate::text::{spec_starts_with, str_starts_with};

verus! {

/// A line opening a conflict region: seven `<` and a space, then the local
/// ref name, which is ignored.
pub open spec fn is_conflict_start(line: Seq<char>) -> bool {
    spec_starts_with(line, "<<<<<<< "@)
}

/// A line separating the local side from the incoming side.
pub open spec fn is_conflict_sep(line: Seq<char>) -> bool {
    spec_starts_with(line, "======="@)
}

/// A line closing a conflict region; the trailing ref name is ignored.
pub open spec fn is_conflict_close(line: Seq<char>) -> bool {
    spec_starts_with(line, ">>>>>>>"@)
}

/// Whether a line opens a conflict region.
pub fn is_conflict_start_line(line: &str) -> (r: bool)
    ensures
        r == is_conflict_start(line@),
{
    str_starts_with(line, "<<<<<<< ")
}

/// Whether a line separates the two sides of a conflict region.
pub fn is_conflict_sep_line(line: &str) -> (r: bool)
    ensures
        r == is_conflict_sep(line@),
{
    str_starts_with(line, "=======")
}

/// Whether a line closes a conflict region.
pub fn is_conflict_close_line(line: &str) -> (r: bool)
    ensures
        r == is_conflict_close(line@),
{
    str_starts_with(line, ">>>>>>>")
}

/// What to keep from one conflict region. An unrecognized choice discards
/// the region's content entirely.
#[derive(Debug, Clone, Copy, PartialEq, Eq, Structural)]
pub enum MergeDecision {
    KeepLocal,
    KeepIncoming,
    KeepBoth,
    Discard,
}

impl MergeDecision {
    /// Reads a decision from the user's choice: `1` keeps the local side,
    /// `2` the incoming side, `3` both; anything else discards the region.
    pub fn from_choice(choice: &str) -> (r: MergeDecision)
        ensures
            choice@ == "1"@ ==> r == MergeDecision::KeepLocal,
            choice@ == "2"@ ==> r == MergeDecision::KeepIncoming,
            choice@ == "3"@ ==> r == MergeDecision::KeepBoth,
            choice@ != "1"@ && choice@ != "2"@ && choice@ != "3"@ ==> r
                == MergeDecision::Discard,
    {
        proof {
            reveal_strlit("1");
            reveal_strlit("2");
            reveal_strlit("3");
            assert("1"@.len() == 1);
            assert("2"@.len() == 1);
            assert("3"@.len() == 1);
            assert("1"@[0] == '1' && "2"@[0] == '2' && "3"@[0] == '3');
            assert("1"@ != "2"@ && "1"@ != "3"@ && "2"@ != "3"@);
        }
        if crate::text::str_eq(choice, "1") {
            MergeDecision::KeepLocal
        } else if crate::text::str_eq(choice, "2") {
            MergeDecision::KeepIncoming
        } else if crate::text::str_eq(choice, "3") {
            MergeDecision::KeepBoth
        } else {
            MergeDecision::Discard
        }
    }
}

/// One parsed conflict region: the competing local and incoming line
/// groups. Transient: it exists only while a resolution is gathered, and
/// is never persisted.
#[derive(Debug)]
pub struct ConflictBlock {
    pub local_lines: Vec<String>,
    pub incoming_lines: Vec<String>,
}

/// The first separator line at or after `from`, or the end.
pub open spec fn first_sep_from(lines: Seq<Seq<char>>, from: int) -> int
    decreases lines.len() - from,
{
    if from < 0 || from >= lines.len() {
        lines.len() as int
    } else if is_conflict_sep(lines[from]) {
        from
    } else {
        first_sep_from(lines, from + 1)
    }
}

/// The first close line at or after `from`, or the end.
pub open spec fn first_close_from(lines: Seq<Seq<char>>, from: int) -> int
    decreases lines.len() - from,
{
    if from < 0 || from >= lines.len() {
        lines.len() as int
    } else if is_conflict_close(lines[from]) {
        from
    } else {
        first_close_from(lines, from + 1)
    }
}

/// Where a separator-free stretch ends at a separator or at the end, that
/// is the first separator.
proof fn lemma_first_sep_unique(lines: Seq<Seq<char>>, from: int, k: int)
    requires
        0 <= from <= k <= lines.len(),
        forall|t: int| from <= t < k ==> !is_conflict_sep(#[trigger] lines[t]),
        k < lines.len() ==> is_conflict_sep(lines[k]),
    ensures
        first_sep_from(lines, from) == k,
    decreases k - from,
{
    if from == k {
    } else {
        lemma_first_sep_unique(lines, from + 1, k);
    }
}

/// Where a close-free stretch ends at a close line or at the end, that is
/// the first close line.
proof fn lemma_first_close_unique(lines: Seq<Seq<char>>, from: int, k: int)
    requires
        0 <= from <= k <= lines.len(),
        forall|t: int| from <= t < k ==> !is_conflict_close(#[trigger] lines[t]),
        k < lines.len() ==> is_conflict_close(lines[k]),
    ensures
        first_close_from(lines, from) == k,
    decreases k - from,
{
    if from == k {
    } else {
        lemma_first_close_unique(lines, from + 1, k);
    }
}

/// The lines a decision keeps from a conflict region.
pub open spec fn spec_chosen(
    local: Seq<Seq<char>>,
    incoming: Seq<Seq<char>>,
    d: MergeDecision,
) -> Seq<Seq<char>> {
    match d {
        MergeDecision::KeepLocal => local,
        MergeDecision::KeepIncoming => incoming,
        MergeDecision::KeepBoth => local + incoming,
        MergeDecision::Discard => Seq::empty(),
    }
}

/// Resolves conflict-marker regions in `lines` with one decision per
/// region, in document order. Ordinary lines are copied verbatim. `None`
/// when the decisions run out before the regions do: resolution is then
/// unfinished and nothing may be written back.
pub open spec fn spec_resolve(lines: Seq<Seq<char>>, ds: Seq<MergeDecision>) -> Option<
    Seq<Seq<char>>,
>
    decreases lines.len(),
{
    if lines.len() == 0 {
        Some(Seq::empty())
    } else if !is_conflict_start(lines[0]) {
        match spec_resolve(lines.drop_first(), ds) {
            Some(r) => Some(seq![lines[0]] + r),
            None => None,
        }
    } else if ds.len() == 0 {
        None
    } else {
        let sep = first_sep_from(lines, 1);
        let local = lines.subrange(1, sep);
        let inc_start = if sep < lines.len() {
            sep + 1
        } else {
            sep
        };
        let close = first_close_from(lines, inc_start);
        let incoming = lines.subrange(inc_start, close);
        let rest_start = if close < lines.len() {
            close + 1
        } else {
            close
        };
        if 1 <= rest_start <= lines.len() {
            match spec_resolve(lines.skip(rest_start), ds.drop_first()) {
                Some(r) => Some(spec_chosen(local, incoming, ds[0]) + r),
                None => None,
            }
        } else {
            None
        }
    }
}

/// The conflict regions of `lines`, in document order.
pub open spec fn spec_blocks(lines: Seq<Seq<char>>) -> Seq<(Seq<Seq<char>>, Seq<Seq<char>>)>
    decreases lines.len(),
{
    if lines.len() == 0 {
        Seq::empty()
    } else if !is_conflict_start(lines[0]) {
        spec_blocks(lines.drop_first())
    } else {
        let sep = first_sep_from(lines, 1);
        let local = lines.subrange(1, sep);
        let inc_start = if sep < lines.len() {
            sep + 1
        } else {
            sep
        };
        let close = first_close_from(lines, inc_start);
        let incoming = lines.subrange(inc_start, close);
        let rest_start = if close < lines.len() {
            close + 1
        } else {
            close
        };
        if 1 <= rest_start <= lines.len() {
            seq![(local, incoming)] + spec_blocks(lines.skip(rest_start))
        } else {
            Seq::empty()
        }
    }
}

/// Copies the lines of `v` in positions `a..b`.
fn collect_range(v: &Vec<String>, a: usize, b: usize) -> (r: Vec<String>)
    requires
        a <= b <= v@.len(),
    ensures
        r.deep_view() == v.deep_view().subrange(a as int, b as int),
{
    let mut r: Vec<String> = Vec::new();
    let mut i: usize = a;
    proof {
        assert(r.deep_view() =~= v.deep_view().subrange(a as int, a as int));
    }
    while i < b
        invariant
            a <= i <= b <= v@.len(),
            v@.len() == v.deep_view().len(),
            r.deep_view() == v.deep_view().subrange(a as int, i as int),
        decreases b - i,
    {
        let ghost prev = r.deep_view();
        r.push(v[i].clone());
        proof {
            assert(r.deep_view() =~= prev.push(v.deep_view()[i as int]));
            assert(v.deep_view().subrange(a as int, i as int + 1) =~= v.deep_view().subrange(
                a as int,
                i as int,
            ).push(v.deep_view()[i as int]));
        }
        i = i + 1;
    }
    r
}

/// Scans the conflict regions out of raw store lines, for display and for
/// gathering one decision per region.
pub fn conflict_blocks(lines: &Vec<String>) -> (r: Vec<ConflictBlock>)
    ensures
        r@.len() == spec_blocks(lines.deep_view()).len(),
        forall|b: int|
            0 <= b < r@.len() ==> {
                &&& (#[trigger] r@[b]).local_lines.deep_view() == spec_blocks(
                    lines.deep_view(),
                )[b].0
                &&& r@[b].incoming_lines.deep_view() == spec_blocks(lines.deep_view())[b].1
            },
{
    let ghost ld = lines.deep_view();
    let n = lines.len();
    let mut r: Vec<ConflictBlock> = Vec::new();
    let mut i: usize = 0;
    proof {
        assert(ld.skip(0) =~= ld);
        assert(blocks_of(r@) =~= Seq::<(Seq<Seq<char>>, Seq<Seq<char>>)>::empty());
        assert(blocks_of(r@) + spec_blocks(ld) =~= spec_blocks(ld));
    }
    while i < n
        invariant
            i <= n,
            n == ld.len(),
            ld == lines.deep_view(),
            n == lines@.len(),
            spec_blocks(ld) == blocks_of(r@) + spec_blocks(ld.skip(i as int)),
        decreases n - i,
    {
        let ghost sj = ld.skip(i as int);
        proof {
            assert(sj[0] == ld[i as int]);
            assert(ld[i as int] == lines@[i as int]@);
            assert(sj.drop_first() =~= ld.skip(i as int + 1));
        }
        if !is_conflict_start_line(lines[i].as_str()) {
            i = i + 1;
            continue;
        }
        let (block, rest) = scan_block(lines, i);
        let ghost prev = blocks_of(r@);
        let ghost pair = (block.local_lines.deep_view(), block.incoming_lines.deep_view());
        r.push(block);
        proof {
            assert(blocks_of(r@) =~= prev.push(pair));
            assert(sj.skip(rest - i) =~= ld.skip(rest as int));
            let tail = spec_blocks(ld.skip(rest as int));
            assert(spec_blocks(sj) == seq![pair] + tail);
            assert(prev + (seq![pair] + tail) =~= blocks_of(r@) + tail);
        }
        i = rest;
    }
    proof {
        assert(spec_blocks(ld.skip(n as int)) =~= Seq::<(Seq<Seq<char>>, Seq<Seq<char>>)>::empty());
        assert(blocks_of(r@) + Seq::<(Seq<Seq<char>>, Seq<Seq<char>>)>::empty() =~= blocks_of(
            r@,
        ));
        assert forall|b: int| 0 <= b < r@.len() implies {
            &&& (#[trigger] r@[b]).local_lines.deep_view() == spec_blocks(ld)[b].0
            &&& r@[b].incoming_lines.deep_view() == spec_blocks(ld)[b].1
        } by {
            assert(blocks_of(r@)[b] == (r@[b].local_lines.deep_view(),
            r@[b].incoming_lines.deep_view()));
        }
    }
    r
}

/// The local and incoming sides of already-scanned blocks.
pub open spec fn blocks_of(bs: Seq<ConflictBlock>) -> Seq<(Seq<Seq<char>>, Seq<Seq<char>>)> {
    bs.map_values(|b: ConflictBlock| (b.local_lines.deep_view(), b.incoming_lines.deep_view()))
}

/// Scans one conflict region starting at the marker line `i`, returning
/// the region and the position just past it.
fn scan_block(lines: &Vec<String>, i: usize) -> (r: (ConflictBlock, usize))
    requires
        i < lines@.len(),
        is_conflict_start(lines.deep_view()[i as int]),
    ensures
        ({
            let sj = lines.deep_view().skip(i as int);
            let sep = first_sep_from(sj, 1);
            let inc_start = if sep < sj.len() {
                sep + 1
            } else {
                sep
            };
            let close = first_close_from(sj, inc_start);
            let rest_start = if close < sj.len() {
                close + 1
            } else {
                close
            };
            &&& r.0.local_lines.deep_view() == sj.subrange(1, sep)
            &&& r.0.incoming_lines.deep_view() == sj.subrange(inc_start, close)
            &&& r.1 == i + rest_start
            &&& i < r.1 <= lines@.len()
        }),
{
    let ghost ld = lines.deep_view();
    let ghost sj = ld.skip(i as int);
    let n = lines.len();
    // find the separator
    let mut j = i + 1;
    while j < n && !is_conflict_sep_line(lines[j].as_str())
        invariant
            i + 1 <= j <= n,
            n == ld.len(),
            ld == lines.deep_view(),
            n == lines@.len(),
            forall|t: int| i + 1 <= t < j ==> !is_conflict_sep(#[trigger] ld[t]),
        decreases n - j,
    {
        proof {
            assert(ld[j as int] == lines@[j as int]@);
        }
        j = j + 1;
    }
    proof {
        if j < n {
            assert(ld[j as int] == lines@[j as int]@);
        }
        assert(forall|t: int|
            1 <= t < j - i ==> sj[t] == #[trigger] ld[i + t]);
        assert forall|t: int| 1 <= t < j - i implies !is_conflict_sep(#[trigger] sj[t]) by {
            assert(sj[t] == ld[i + t]);
        }
        if j - i < sj.len() {
            assert(sj[j - i] == ld[j as int]);
        }
        lemma_first_sep_unique(sj, 1, j - i);
    }
    let local = collect_range(lines, i + 1, j);
    proof {
        assert(ld.subrange(i + 1, j as int) =~= sj.subrange(1, j - i));
    }
    // find the close marker
    let inc_from: usize = if j < n {
        j + 1
    } else {
        j
    };
    let mut k = inc_from;
    while k < n && !is_conflict_close_line(lines[k].as_str())
        invariant
            inc_from <= k <= n,
            n == ld.len(),
            ld == lines.deep_view(),
            n == lines@.len(),
            forall|t: int| inc_from <= t < k ==> !is_conflict_close(#[trigger] ld[t]),
        decreases n - k,
    {
        proof {
            assert(ld[k as int] == lines@[k as int]@);
        }
        k = k + 1;
    }
    proof {
        if k < n {
            assert(ld[k as int] == lines@[k as int]@);
        }
        assert forall|t: int| inc_from - i <= t < k - i implies !is_conflict_close(
            #[trigger] sj[t],
        ) by {
            assert(sj[t] == ld[i + t]);
        }
        if k - i < sj.len() {
            assert(sj[k - i] == ld[k as int]);
        }
        lemma_first_close_unique(sj, inc_from - i, k - i);
    }
    let incoming = collect_range(lines, inc_from, k);
    proof {
        assert(ld.subrange(inc_from as int, k as int) =~= sj.subrange(
            inc_from - i,
            k - i,
        ));
    }
    let rest: usize = if k < n {
        k + 1
    } else {
        k
    };
    (ConflictBlock { local_lines: local, incoming_lines: incoming }, rest)
}

/// Resolves every conflict region of the raw store lines, applying one
/// decision per region in document order. Ordinary lines pass through
/// verbatim; the raw sides, not re-serialized records, are what is kept.
/// When the decisions run out before the regions do, the resolution is
/// unfinished and an error is returned so the store file stays untouched.
pub fn resolve_lines(lines: &Vec<String>, decisions: &Vec<MergeDecision>) -> (r: Result<
    Vec<String>,
    TodoError,
>)
    ensures
        match spec_resolve(lines.deep_view(), decisions@) {
            Some(res) => r matches Ok(out) && out.deep_view() == res,
            None => r matches Err(e) && e == TodoError::ConflictUnresolved,
        },
{
    let ghost ld = lines.deep_view();
    let ghost ds = decisions@;
    let n = lines.len();
    let nd = decisions.len();
    let mut out: Vec<String> = Vec::new();
    let mut i: usize = 0;
    let mut d: usize = 0;
    proof {
        assert(ld.skip(0) =~= ld);
        assert(ds.skip(0) =~= ds);
        match spec_resolve(ld, ds) {
            Some(res) => {
                assert(out.deep_view() =~= Seq::<Seq<char>>::empty());
                assert(out.deep_view() + res =~= res);
            },
            None => {},
        }
    }
    while i < n
        invariant
            i <= n,
            d <= nd,
            n == ld.len(),
            ld == lines.deep_view(),
            n == lines@.len(),
            nd == ds.len(),
            ds == decisions@,
            spec_resolve(ld, ds) == match spec_resolve(ld.skip(i as int), ds.skip(d as int)) {
                Some(res) => Some(out.deep_view() + res),
                None => None::<Seq<Seq<char>>>,
            },
        decreases n - i,
    {
        let ghost sj = ld.skip(i as int);
        let ghost dsj = ds.skip(d as int);
        proof {
            assert(sj[0] == ld[i as int]);
            assert(ld[i as int] == lines@[i as int]@);
            assert(sj.drop_first() =~= ld.skip(i as int + 1));
        }
        if !is_conflict_start_line(lines[i].as_str()) {
            let ghost prev = out.deep_view();
            out.push(lines[i].clone());
            proof {
                assert(out.deep_view() =~= prev.push(sj[0]));
                match spec_resolve(sj.drop_first(), dsj) {
                    Some(res) => {
                        assert(prev + (seq![sj[0]] + res) =~= out.deep_view() + res);
                    },
                    None => {},
                }
            }
            i = i + 1;
            continue;
        }
        if d == nd {
            proof {
                assert(dsj.len() == 0);
                assert(spec_resolve(sj, dsj) is None);
            }
            return Err(TodoError::ConflictUnresolved);
        }
        let dec = decisions[d];
        let (block, rest) = scan_block(lines, i);
        proof {
            assert(dsj[0] == ds[d as int]);
            assert(dsj.drop_first() =~= ds.skip(d as int + 1));
            assert(sj.skip(rest - i) =~= ld.skip(rest as int));
        }
        let ghost chosen = spec_chosen(
            block.local_lines.deep_view(),
            block.incoming_lines.deep_view(),
            dec,
        );
        let ghost prev = out.deep_view();
        let mut local = block.local_lines;
        let mut incoming = block.incoming_lines;
        match dec {
            MergeDecision::KeepLocal => {
                out.append(&mut local);
            },
            MergeDecision::KeepIncoming => {
                out.append(&mut incoming);
            },
            MergeDecision::KeepBoth => {
                out.append(&mut local);
                out.append(&mut incoming);
            },
            MergeDecision::Discard => {},
        }
        proof {
            assert(out.deep_view() =~= prev + chosen);
            match spec_resolve(ld.skip(rest as int), ds.skip(d as int + 1)) {
                Some(res) => {
                    assert(prev + (chosen + res) =~= out.deep_view() + res);
                },
                None => {},
            }
        }
        i = rest;
        d = d + 1;
    }
    proof {
        assert(ld.skip(n as int).len() == 0);
        assert(spec_resolve(ld.skip(n as int), ds.skip(d as int)) == Some(Seq::<Seq<char>>::empty()));
        assert(out.deep_view() + Seq::<Seq<char>>::empty() =~= out.deep_view());
    }
    Ok(out)
}

/// LAW: a store file without a single conflict marker passes through the
/// resolver unchanged, whatever decisions stand ready.
pub proof fn lemma_resolve_no_markers(lines: Seq<Seq<char>>, ds: Seq<MergeDecision>)
    requires
        forall|i: int| 0 <= i < lines.len() ==> !is_conflict_start(#[trigger] lines[i]),
    ensures
        spec_resolve(lines, ds) == Some(lines),
    decreases lines.len(),
{
    if lines.len() == 0 {
        assert(Seq::<Seq<char>>::empty() =~= lines);
    } else {
        assert(forall|i: int|
            0 <= i < lines.drop_first().len() ==> lines.drop_first()[i] == #[trigger] lines[i
                + 1]);
        lemma_resolve_no_markers(lines.drop_first(), ds);
        assert(seq![lines[0]] + lines.drop_first() =~= lines);
    }
}

/// LAW, at the level of the raw file text: a store file whose lines hold no
/// conflict marker comes back from the resolver byte-identical.
pub proof fn lemma_conflict_free_text_identity(text: Seq<char>, ds: Seq<MergeDecision>)
    requires
        forall|i: int|
            0 <= i < crate::text::spec_split_lines(text).len() ==> !is_conflict_start(
                #[trigger] crate::text::spec_split_lines(text)[i],
            ),
    ensures
        spec_resolve(crate::text::spec_split_lines(text), ds) == Some(
            crate::text::spec_split_lines(text),
        ),
        crate::text::spec_join_lines(crate::text::spec_split_lines(text)) == text,
{
    lemma_resolve_no_markers(crate::text::spec_split_lines(text), ds);
    crate::text::lemma_join_of_split(text);
}

/// Resolves the raw store file text with one decision per conflict region
/// and returns the rewritten text. With no regions present the text comes
/// back byte-identical. An unfinished resolution (too few decisions) is an
/// error, and the caller must leave the store file as it was.
pub fn resolve_conflicts(content: &str, decisions: &Vec<MergeDecision>) -> (r: Result<
    String,
    TodoError,
>)
    ensures
        match spec_resolve(crate::text::spec_split_lines(content@), decisions@) {
            Some(res) => r matches Ok(out) && out@ == crate::text::spec_join_lines(res),
            None => r matches Err(e) && e == TodoError::ConflictUnresolved,
        },
{
    let lines = crate::text::split_lines(content);
    match resolve_lines(&lines, decisions) {
        Ok(out) => Ok(crate::text::join_lines(&out)),
        Err(e) => Err(e),
    }
}

} // verus!
