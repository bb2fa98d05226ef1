//! Point-in-time slicing of log lines.
//!
//! The daemon never tails a file itself: the surrounding binary reads a
//! log file's lines and the functions here compute the slice a client
//! asked for — a page at a line offset for paged retrieval, or the last
//! lines joined into one text for tail-style viewing.

use vstd::prelude::*;

verus! {

/// The page of lines returned for a request starting at `since` with at
/// most `limit` lines: lines at or after `since`, clipped to what exists.
pub open spec fn spec_log_page(lines: Seq<Seq<char>>, since: int, limit: int) -> Seq<Seq<char>>
    recommends
        since >= 0,
        limit >= 0,
{
    let start = if since > lines.len() {
        lines.len() as int
    } else {
        since
    };
    let end = if since + limit > lines.len() {
        lines.len() as int
    } else {
        since + limit
    };
    lines.subrange(start, end)
}

/// The line index from which the next page continues.
pub open spec fn spec_next_line(lines: Seq<Seq<char>>, since: int, limit: int) -> int {
    let start = if since > lines.len() {
        lines.len() as int
    } else {
        since
    };
    start + spec_log_page(lines, since, limit).len()
}

/// Return the page of lines at or after `since_line`, bounded by `limit`,
/// and the index a caller passes to request the next page.
pub fn slice_log_lines(lines: &Vec<String>, since_line: u64, limit: u64) -> (r: (Vec<String>, u64))
    ensures
        r.0.deep_view() == spec_log_page(lines.deep_view(), since_line as int, limit as int),
        r.1 as int == spec_next_line(lines.deep_view(), since_line as int, limit as int),
{
    let len: usize = lines.len();
    let start: usize = if since_line > len as u64 {
        len
    } else {
        since_line as usize
    };
    let avail: usize = len - start;
    let take: usize = if limit > avail as u64 {
        avail
    } else {
        limit as usize
    };
    let mut out: Vec<String> = Vec::new();
    let mut i: usize = 0;
    while i < take
        invariant
            len == lines@.len(),
            start + take <= len,
            i <= take,
            out@.len() == i,
            forall|j: int| 0 <= j < i ==> out.deep_view()[j] == lines.deep_view()[start + j],
        decreases take - i,
    {
        let c = lines[start + i].clone();
        let ghost prev = out.deep_view();
        let ghost cv = c@;
        out.push(c);
        proof {
            assert(out.deep_view() =~= prev.push(cv));
            assert(out.deep_view()[i as int] == lines.deep_view()[start + i]);
        }
        i = i + 1;
    }
    proof {
        assert(out.deep_view() =~= spec_log_page(
            lines.deep_view(),
            since_line as int,
            limit as int,
        ));
    }
    (out, (start + take) as u64)
}

/// The lines joined with a newline between each pair, as one text.
pub open spec fn spec_join_lines(ls: Seq<Seq<char>>) -> Seq<char>
    decreases ls.len(),
{
    if ls.len() == 0 {
        Seq::empty()
    } else if ls.len() == 1 {
        ls[0]
    } else {
        spec_join_lines(ls.drop_last()) + "\n"@ + ls.last()
    }
}

/// Where the last `n` lines start.
pub open spec fn spec_tail_start(len: int, n: int) -> int {
    if len > n {
        len - n
    } else {
        0
    }
}

/// Join the last `n` lines with newlines, for tail-style log viewing.
pub fn tail_lines(lines: &Vec<String>, n: usize) -> (s: String)
    ensures
        s@ == spec_join_lines(
            lines.deep_view().subrange(
                spec_tail_start(lines.deep_view().len() as int, n as int),
                lines.deep_view().len() as int,
            ),
        ),
{
    let len: usize = lines.len();
    let start: usize = if len > n {
        len - n
    } else {
        0
    };
    let ghost tail = lines.deep_view().subrange(start as int, len as int);
    let mut s = String::new();
    let mut i: usize = start;
    proof {
        assert(tail.take(0) =~= Seq::<Seq<char>>::empty());
    }
    while i < len
        invariant
            start <= i <= len,
            len == lines@.len(),
            tail == lines.deep_view().subrange(start as int, len as int),
            s@ == spec_join_lines(tail.take(i - start)),
        decreases len - i,
    {
        if i > start {
            s.append("\n");
        }
        s.append(lines[i].as_str());
        proof {
            let k = i - start;
            assert(tail.take(k + 1).drop_last() =~= tail.take(k as int));
            assert(tail.take(k + 1).last() == tail[k as int]);
            assert(tail[k as int] == lines.deep_view()[i as int]);
            if k == 0 {
                assert(s@ =~= spec_join_lines(tail.take(k + 1)));
            } else {
                assert(s@ =~= spec_join_lines(tail.take(k + 1)));
            }
        }
        i = i + 1;
    }
    proof {
        assert(tail.take(len - start) =~= tail);
    }
    s
}

/// Log round-trip: after writing `N` lines, requesting a page at offset 0
/// with limit `N` returns exactly those lines in order, and requesting a
/// page at offset `N` returns nothing, whatever the limit.
pub proof fn lemma_log_round_trip(lines: Seq<Seq<char>>, limit: int)
    requires
        limit >= 0,
    ensures
        spec_log_page(lines, 0, lines.len() as int) == lines,
        spec_log_page(lines, lines.len() as int, limit) == Seq::<Seq<char>>::empty(),
        spec_next_line(lines, 0, lines.len() as int) == lines.len(),
{
    assert(spec_log_page(lines, 0, lines.len() as int) =~= lines);
    assert(spec_log_page(lines, lines.len() as int, limit) =~= Seq::<Seq<char>>::empty());
}

} // verus!

verus! {

/// The path of a run's log file under a logs directory:
/// `<log_dir>/<run_id>.log`.
pub fn log_path(run_id: &str, log_dir: &str) -> (p: String)
    ensures
        p@ == log_dir@ + "/"@ + run_id@ + ".log"@,
{
    let p = log_dir.to_owned().concat("/").concat(run_id).concat(".log");
    proof {
        assert(p@ =~= log_dir@ + "/"@ + run_id@ + ".log"@);
    }
    p
}

} // verus!
