//! Map outlines in the GMT multi-segment text format: which lines break a
//! segment and which hold a point, and how the points form segments.

use vstd::prelude::*;
use crate::text::{trim, str_trim, chars_of, split_whitespace, tokens};

verus! {

/// What a line of a GMT outline file holds.
#[derive(Debug)]
pub enum GmtLine {
    /// A segment header (`>`) or a comment (`#`): the current segment ends.
    Break,
    /// The first two words of a data line: longitude and latitude.
    Point(String, String),
    /// A blank line, or one with fewer than two words.
    Skip,
}

/// The reading of a line: breaks start with `>` or `#` once trimmed, and
/// other non-blank lines with at least two words give their first two.
pub open spec fn gmt_line_reads(line: Seq<char>, r: GmtLine) -> bool {
    let t = trim(line);
    if t.len() > 0 && (t[0] == '>' || t[0] == '#') {
        r is Break
    } else if t.len() > 0 && tokens(t).len() >= 2 {
        r matches GmtLine::Point(a, b) && a@ == tokens(t)[0] && b@ == tokens(t)[1]
    } else {
        r is Skip
    }
}

/// Read one line of a GMT outline file.
pub fn gmt_line(line: &str) -> (r: GmtLine)
    ensures
        gmt_line_reads(line@, r),
{
    let t = str_trim(line);
    let tc = chars_of(t);
    if tc.len() > 0 && (tc[0] == '>' || tc[0] == '#') {
        return GmtLine::Break;
    }
    if tc.len() == 0 {
        return GmtLine::Skip;
    }
    let words = split_whitespace(t);
    if words.len() >= 2 {
        let a = words[0].clone();
        let b = words[1].clone();
        GmtLine::Point(a, b)
    } else {
        GmtLine::Skip
    }
}

/// A line of an outline file once its point has been read: a break, a
/// point whose coordinates are numbers, or neither.
#[derive(Debug, Clone, Copy, PartialEq, Eq, Structural)]
pub enum GmtMark {
    Break,
    Point,
    Skip,
}

/// The finished segments and the open one after the first `n` marks: a
/// break closes the open segment when it holds points, and a point joins
/// it.
pub open spec fn segment_state(marks: Seq<GmtMark>, n: int) -> (Seq<Seq<usize>>, Seq<usize>)
    decreases n,
{
    if n <= 0 {
        (seq![], seq![])
    } else {
        let (done, cur) = segment_state(marks, n - 1);
        match marks[n - 1] {
            GmtMark::Break => if cur.len() > 0 { (done.push(cur), seq![]) } else { (done, cur) },
            GmtMark::Point => (done, cur.push((n - 1) as usize)),
            GmtMark::Skip => (done, cur),
        }
    }
}

/// The segments of an outline file: the positions of its points, grouped
/// between breaks, without empty segments.
pub open spec fn segments(marks: Seq<GmtMark>) -> Seq<Seq<usize>> {
    let (done, cur) = segment_state(marks, marks.len() as int);
    if cur.len() > 0 { done.push(cur) } else { done }
}

/// Group the points of an outline file into segments.
pub fn gmt_segments(marks: &Vec<GmtMark>) -> (r: Vec<Vec<usize>>)
    ensures
        r@.map_values(|v: Vec<usize>| v@) == segments(marks@),
{
    let mut done: Vec<Vec<usize>> = Vec::new();
    let mut cur: Vec<usize> = Vec::new();
    let mut i: usize = 0;
    while i < marks.len()
        invariant
            i <= marks@.len(),
            done@.map_values(|v: Vec<usize>| v@) == segment_state(marks@, i as int).0,
            cur@ == segment_state(marks@, i as int).1,
        decreases marks.len() - i,
    {
        let ghost before = done@.map_values(|v: Vec<usize>| v@);
        match marks[i] {
            GmtMark::Break => {
                if cur.len() > 0 {
                    let finished = cur;
                    cur = Vec::new();
                    done.push(finished);
                    assert(done@.map_values(|v: Vec<usize>| v@) =~= before.push(segment_state(marks@, i as int).1));
                }
            },
            GmtMark::Point => {
                cur.push(i);
            },
            GmtMark::Skip => {},
        }
        i = i + 1;
    }
    let ghost before = done@.map_values(|v: Vec<usize>| v@);
    if cur.len() > 0 {
        done.push(cur);
        assert(done@.map_values(|v: Vec<usize>| v@) =~= before.push(segment_state(marks@, marks@.len() as int).1));
    }
    done
}

} // verus!
