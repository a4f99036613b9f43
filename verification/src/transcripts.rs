//! Raw transcripts of pi sessions: JSONL files read a page of timeline items
//! at a time, and the detail of one item.
//!
//! A page is read line by line. For each line the caller asks
//! `reads_line`; a blank line goes through `blank_line`; the items a line
//! produces go through `take_blocks`, which says which of them enter the
//! page; reading stops when the state is `stopped` or the lines run out, and
//! `finish_page` gives the cursor to resume from.
use vstd::prelude::*;
use vstd::string::*;

use crate::error::{Error, ErrorV};
use crate::json::{json_at, json_parse_error, json_pretty_at, json_pretty_text, json_value_at, parse_json, JsonAt, JsonAtV, JsonDoc};
use crate::text::{cat3, is_blank, nat_text, text_eq, u64_text};

verus! {

/// A position in a raw transcript: the byte offset of a line and the index of
/// the next item that line produces.
#[derive(Debug, Clone, Copy, PartialEq, Eq, Structural)]
pub struct CursorPosition {
    pub offset: usize,
    pub block_index: usize,
}

/// Reads the raw JSONL transcripts of pi sessions.
#[derive(Debug)]
pub struct PiJsonlParser;

impl PiJsonlParser {
    /// A parser.
    pub fn new() -> (r: Self) {
        PiJsonlParser
    }

    /// The client type whose transcripts the parser reads: `pi`.
    pub fn client_type(&self) -> (r: &'static str)
        ensures
            r@ == "pi"@,
    {
        "pi"
    }

    /// The transcript format the parser reads: `pi-jsonl`.
    pub fn format(&self) -> (r: &'static str)
        ensures
            r@ == "pi-jsonl"@,
    {
        "pi-jsonl"
    }

    /// The parser reads only `pi` sources in `pi-jsonl` format; any other is
    /// `CapabilityUnavailable`.
    pub fn check_source(&self, client_type: &str, format: &str) -> (r: Result<(), Error>)
        ensures
            r is Ok <==> (client_type@ == "pi"@ && format@ == "pi-jsonl"@),
            r matches Err(e) ==> e@ == ErrorV::CapabilityUnavailable(
                "unsupported source "@ + client_type@ + "/"@ + format@ + " for pi jsonl parser"@,
            ),
    {
        if text_eq(client_type, self.client_type()) && text_eq(format, self.format()) {
            Ok(())
        } else {
            Err(
                Error::CapabilityUnavailable(
                    cat3("unsupported source ", client_type, "/").concat(format).concat(
                        " for pi jsonl parser",
                    ),
                ),
            )
        }
    }
}

/// The id of a raw source: its client type and path, joined by `:`.
pub fn source_id(client_type: &str, path: &str) -> (r: String)
    ensures
        r@ == client_type@ + ":"@ + path@,
{
    cat3(client_type, ":", path)
}

/// Position of the first `\n` in `b` at or after `from`, or `b.len()`.
pub open spec fn next_newline(b: Seq<u8>, from: int) -> int
    decreases b.len() - from,
{
    if from >= b.len() {
        b.len() as int
    } else if b[from] == 10u8 {
        from
    } else {
        next_newline(b, from + 1)
    }
}

/// The lines of `b` from `from` on, as `(start, end)` byte ranges, each line
/// keeping its `\n`; a last line without `\n` is a line too, and there is no
/// empty line at the end.
pub open spec fn spans_from(b: Seq<u8>, from: int) -> Seq<(int, int)>
    decreases b.len() - from,
{
    if from < 0 || from >= b.len() {
        Seq::empty()
    } else {
        let nl = next_newline(b, from);
        proof {
            lemma_next_newline_bounds(b, from);
        }
        let end = if nl < b.len() {
            nl + 1
        } else {
            b.len() as int
        };
        seq![(from, end)] + spans_from(b, end)
    }
}

/// `next_newline` lies between `from` and the end, at a `\n` when it is not
/// the end, and skips no `\n`.
pub proof fn lemma_next_newline_bounds(b: Seq<u8>, from: int)
    requires
        0 <= from,
    ensures
        from <= b.len() ==> from <= next_newline(b, from) <= b.len(),
        next_newline(b, from) < b.len() ==> b[next_newline(b, from)] == 10u8,
        forall|k: int| from <= k < next_newline(b, from) ==> b[k] != 10u8,
    decreases b.len() - from,
{
    if from < b.len() && b[from] != 10u8 {
        lemma_next_newline_bounds(b, from + 1);
    }
}

proof fn lemma_next_newline_skip(b: Seq<u8>, from: int, i: int)
    requires
        0 <= from <= i <= b.len(),
        forall|k: int| from <= k < i ==> b[k] != 10u8,
    ensures
        next_newline(b, from) == next_newline(b, i),
    decreases i - from,
{
    if from < i {
        lemma_next_newline_skip(b, from + 1, i);
    }
}

/// The spans of the lines of `bytes`, in order (see `spans_from`).
pub fn line_spans(bytes: &Vec<u8>) -> (r: Vec<(usize, usize)>)
    ensures
        r@.map_values(|p: (usize, usize)| (p.0 as int, p.1 as int)) == spans_from(bytes@, 0),
{
    let ghost b = bytes@;
    let mut out: Vec<(usize, usize)> = Vec::new();
    let mut start: usize = 0;
    let mut i: usize = 0;
    while i < bytes.len()
        invariant
            b == bytes@,
            start <= i <= bytes.len(),
            forall|k: int| start <= k < i ==> b[k] != 10u8,
            out@.map_values(|p: (usize, usize)| (p.0 as int, p.1 as int)) + spans_from(b, start as int)
                == spans_from(b, 0),
        decreases bytes.len() - i,
    {
        if bytes[i] == 10u8 {
            proof {
                lemma_next_newline_skip(b, start as int, i as int);
                assert(next_newline(b, start as int) == i);
                assert(spans_from(b, start as int) == seq![(start as int, i + 1)] + spans_from(
                    b,
                    i + 1,
                ));
            }
            let ghost before = out@;
            out.push((start, i + 1));
            proof {
                assert(out@.map_values(|p: (usize, usize)| (p.0 as int, p.1 as int)) =~= before.map_values(
                    |p: (usize, usize)| (p.0 as int, p.1 as int),
                ).push((start as int, i + 1)));
                assert(before.map_values(|p: (usize, usize)| (p.0 as int, p.1 as int)).push(
                    (start as int, i + 1),
                ) + spans_from(b, i + 1) =~= before.map_values(
                    |p: (usize, usize)| (p.0 as int, p.1 as int),
                ) + (seq![(start as int, i + 1)] + spans_from(b, i + 1)));
            }
            start = i + 1;
        }
        i += 1;
    }
    if start < bytes.len() {
        proof {
            lemma_next_newline_skip(b, start as int, b.len() as int);
            assert(spans_from(b, b.len() as int) =~= Seq::<(int, int)>::empty());
            assert(spans_from(b, start as int) == seq![(start as int, b.len() as int)] + spans_from(
                b,
                b.len() as int,
            ));
        }
        let ghost before = out@;
        out.push((start, bytes.len()));
        proof {
            assert(out@.map_values(|p: (usize, usize)| (p.0 as int, p.1 as int)) =~= before.map_values(
                |p: (usize, usize)| (p.0 as int, p.1 as int),
            ) + spans_from(b, start as int));
        }
    } else {
        proof {
            assert(spans_from(b, start as int) =~= Seq::<(int, int)>::empty());
            assert(out@.map_values(|p: (usize, usize)| (p.0 as int, p.1 as int)) =~= out@.map_values(
                |p: (usize, usize)| (p.0 as int, p.1 as int),
            ) + spans_from(b, start as int));
        }
    }
    out
}

/// The lines cover the source exactly, in order: the first starts where
/// reading starts, each starts where the previous ended, none is empty, the
/// last ends at the end of the source, and a line holds a `\n` only as its
/// last byte, which every line but the last has.
pub proof fn lemma_spans_partition(b: Seq<u8>, from: int)
    requires
        0 <= from <= b.len(),
    ensures
        ({
            let sp = spans_from(b, from);
            &&& sp.len() == 0 <==> from == b.len()
            &&& sp.len() > 0 ==> sp[0].0 == from && sp[sp.len() - 1].1 == b.len()
            &&& forall|i: int| 0 <= i < sp.len() ==> from <= #[trigger] sp[i].0 < sp[i].1 <= b.len()
            &&& forall|i: int| 0 <= i < sp.len() - 1 ==> #[trigger] sp[i].1 == sp[i + 1].0
            &&& forall|i: int| 0 <= i < sp.len() - 1 ==> b[#[trigger] sp[i].1 - 1] == 10u8
            &&& forall|i: int, k: int| 0 <= i < sp.len() && #[trigger] sp[i].0 <= k < sp[i].1 - 1 ==> #[trigger] b[k] != 10u8
        }),
    decreases b.len() - from,
{
    if from < b.len() {
        lemma_next_newline_bounds(b, from);
        let nl = next_newline(b, from);
        let end = if nl < b.len() {
            nl + 1
        } else {
            b.len() as int
        };
        lemma_spans_partition(b, end);
        let rest = spans_from(b, end);
        let sp = spans_from(b, from);
        assert(sp == seq![(from, end)] + rest);
        assert(forall|i: int| 0 < i < sp.len() ==> sp[i] == rest[i - 1]);
        if rest.len() > 0 {
            assert(sp[sp.len() - 1] == rest[rest.len() - 1]);
        }
        assert forall|i: int| 0 <= i < sp.len() - 1 implies b[#[trigger] sp[i].1 - 1] == 10u8 by {
            if i > 0 {
                assert(sp[i] == rest[i - 1]);
            }
        }
        assert forall|i: int, k: int| 0 <= i < sp.len() && #[trigger] sp[i].0 <= k < sp[i].1 - 1 implies #[trigger] b[k] != 10u8 by {
            if i > 0 {
                assert(sp[i] == rest[i - 1]);
            }
        }
    }
}

/// The state of a page being read.
#[derive(Debug, Clone, Copy)]
pub struct PageState {
    /// Where the page starts.
    pub cursor: CursorPosition,
    /// How many items the page holds at most.
    pub limit: usize,
    /// How many items the page holds so far.
    pub taken: usize,
    /// Where the next page starts, as far as read.
    pub next_position: CursorPosition,
    /// The page is full and an item was left for the next page.
    pub stopped: bool,
}

/// What every step keeps: the limit is at least one, the page never holds
/// more than its limit, it stops only when full, and the resume position
/// never lies before the start.
pub open spec fn page_wf(s: PageState) -> bool {
    &&& 1 <= s.limit
    &&& s.taken <= s.limit
    &&& s.stopped ==> s.taken == s.limit
    &&& s.cursor.offset <= s.next_position.offset
}

/// The text of a number.
pub open spec fn usize_text(n: usize) -> Seq<char> {
    nat_text(n as nat)
}

/// A page starting at `cursor` in a source of `source_len` bytes, holding at
/// most `limit` items (at least one); a cursor past the end of the source is
/// a `Domain` error.
pub fn start_page(cursor: CursorPosition, source_len: usize, limit: usize) -> (r: Result<PageState, Error>)
    ensures
        r is Ok <==> cursor.offset <= source_len,
        r matches Ok(s) ==> page_wf(s) && s.cursor == cursor && s.limit == (if limit == 0 {
            1
        } else {
            limit
        }) && s.taken == 0 && s.next_position == cursor && !s.stopped,
        r matches Err(e) ==> e@ == ErrorV::Domain(
            "cursor_invalid: offset "@ + usize_text(cursor.offset) + " exceeds source length "@
                + usize_text(source_len),
        ),
{
    if cursor.offset > source_len {
        let o = u64_text(cursor.offset as u64);
        let l = u64_text(source_len as u64);
        return Err(
            Error::Domain(
                String::from_str("cursor_invalid: offset ").concat(o.as_str()).concat(
                    " exceeds source length ",
                ).concat(l.as_str()),
            ),
        );
    }
    let limit = if limit == 0 {
        1
    } else {
        limit
    };
    Ok(PageState { cursor, limit, taken: 0, next_position: cursor, stopped: false })
}

/// A line is read only from the page's start on: lines that start before the
/// cursor belong to earlier pages.
pub fn reads_line(s: &PageState, line_start: usize) -> (r: bool)
    ensures
        r == (s.cursor.offset <= line_start),
{
    s.cursor.offset <= line_start
}

/// A blank line produces nothing; the page resumes after it. It is taken as
/// a line of no items would be.
pub fn blank_line(s: &PageState, line_start: usize, line_end: usize) -> (r: PageState)
    requires
        page_wf(*s),
        s.cursor.offset <= line_start <= line_end,
    ensures
        page_wf(r),
        r == (PageState { next_position: CursorPosition { offset: line_end, block_index: 0 }, ..*s }),
        r == spec_take_blocks(*s, line_start as int, line_end as int, 0).0,
{
    PageState { next_position: CursorPosition { offset: line_end, block_index: 0 }, ..*s }
}

/// The first item of a line that belongs to the page: where the page starts
/// inside that line, or the first.
pub open spec fn first_block(s: PageState, line_start: int) -> int {
    if line_start == s.cursor.offset {
        s.cursor.block_index as int
    } else {
        0
    }
}

/// The items of a line that remain from `first_block` on.
pub open spec fn available(s: PageState, line_start: int, produced: int) -> int {
    let from = first_block(s, line_start);
    if from < produced {
        produced - from
    } else {
        0
    }
}

/// Items `from..to` of a line that produced `produced` items enter the page.
/// When more remain than the page has room for, the page takes what fits,
/// stops, and resumes at the first item left; otherwise it takes them all and
/// resumes after the line.
pub open spec fn spec_take_blocks(s: PageState, line_start: int, line_end: int, produced: int) -> (
    PageState,
    int,
    int,
) {
    let from = first_block(s, line_start);
    let avail = available(s, line_start, produced);
    let room = s.limit - s.taken;
    if avail > room {
        (
            PageState {
                taken: s.limit,
                next_position: CursorPosition { offset: line_start as usize, block_index: (from + room) as usize },
                stopped: true,
                ..s
            },
            from,
            from + room,
        )
    } else {
        (
            PageState {
                taken: (s.taken + avail) as usize,
                next_position: CursorPosition { offset: line_end as usize, block_index: 0 },
                ..s
            },
            from,
            from + avail,
        )
    }
}

/// Takes the items of one line (see `spec_take_blocks`): the page takes items
/// `r.1..r.2` of the line.
pub fn take_blocks(s: &PageState, line_start: usize, line_end: usize, produced: usize) -> (r: (
    PageState,
    usize,
    usize,
))
    requires
        page_wf(*s),
        !s.stopped,
        s.cursor.offset <= line_start <= line_end,
    ensures
        page_wf(r.0),
        (r.0, r.1 as int, r.2 as int) == spec_take_blocks(*s, line_start as int, line_end as int, produced as int),
        r.1 <= r.2,
        r.2 - r.1 <= s.limit - s.taken,
{
    let from: usize = if line_start == s.cursor.offset {
        s.cursor.block_index
    } else {
        0
    };
    let avail: usize = if from < produced {
        produced - from
    } else {
        0
    };
    let room: usize = s.limit - s.taken;
    if avail > room {
        (
            PageState {
                taken: s.limit,
                next_position: CursorPosition { offset: line_start, block_index: from + room },
                stopped: true,
                ..*s
            },
            from,
            from + room,
        )
    } else {
        (
            PageState {
                taken: s.taken + avail,
                next_position: CursorPosition { offset: line_end, block_index: 0 },
                ..*s
            },
            from,
            from + avail,
        )
    }
}

/// How a page ends.
#[derive(Debug, Clone, Copy)]
pub struct PageOutcome {
    /// Where the next page starts.
    pub next_position: CursorPosition,
    /// More items may follow: the page stopped full, or bytes remain unread.
    pub has_more: bool,
    /// The page reached the end of the source.
    pub is_tail: bool,
}

/// How a page ends: more follows when it stopped full or bytes remain after
/// the resume position; it is the tail exactly when nothing more follows.
pub fn finish_page(s: &PageState, source_len: usize) -> (r: PageOutcome)
    ensures
        r.next_position == s.next_position,
        r.has_more == (s.stopped || s.next_position.offset < source_len),
        r.is_tail == !r.has_more,
{
    let has_more = s.stopped || s.next_position.offset < source_len;
    PageOutcome { next_position: s.next_position, has_more, is_tail: !has_more }
}

/// A line as paging sees it: where it starts, where it ends, and how many
/// items it produces (none for a blank line).
pub type LineShape = (int, int, int);

/// The lines of a source of `len` bytes, in order: each non-empty, each
/// starting where the previous one ended, the first at 0 and the last ending
/// at `len`; no line produces a negative or unrepresentable count of items.
pub open spec fn lines_wf(lines: Seq<LineShape>, len: int) -> bool {
    &&& 0 <= len <= usize::MAX
    &&& forall|i: int| 0 <= i < lines.len() ==> 0 <= (#[trigger] lines[i]).0 < lines[i].1 <= len && 0
        <= lines[i].2 <= usize::MAX
    &&& forall|i: int| 0 <= i < lines.len() - 1 ==> (#[trigger] lines[i]).1 == lines[i + 1].0
    &&& (lines.len() == 0 ==> len == 0)
    &&& (lines.len() > 0 ==> lines[0].0 == 0 && lines[lines.len() - 1].1 == len)
}

/// The items of a line at or after position `(o, b)`: all of them when the
/// line starts after `o`, those from index `b` on when it starts at `o`,
/// none when it starts before. An item is named by its line's start and its
/// index in the line.
pub open spec fn line_rest(l: LineShape, o: int, b: int) -> Seq<(int, int)> {
    if l.0 > o {
        Seq::new(l.2 as nat, |k: int| (l.0, k))
    } else if l.0 == o && b < l.2 {
        Seq::new((l.2 - b) as nat, |k: int| (l.0, b + k))
    } else {
        Seq::empty()
    }
}

/// The items of lines `i..` at or after position `(o, b)`, in order.
pub open spec fn remaining(lines: Seq<LineShape>, i: int, o: int, b: int) -> Seq<(int, int)>
    decreases lines.len() - i,
{
    if i < 0 || i >= lines.len() {
        Seq::empty()
    } else {
        line_rest(lines[i], o, b) + remaining(lines, i + 1, o, b)
    }
}

/// Reading lines `i..` into a page in state `s`: lines before the page's
/// start are passed over, each other line goes through `spec_take_blocks`
/// (a blank line produces nothing), and reading ends when the page stops or
/// the lines run out. The result is the final state and the items taken.
pub open spec fn page_run(lines: Seq<LineShape>, i: int, s: PageState) -> (PageState, Seq<(int, int)>)
    decreases lines.len() - i,
{
    if i < 0 || i >= lines.len() || s.stopped {
        (s, Seq::empty())
    } else if lines[i].0 < s.cursor.offset {
        page_run(lines, i + 1, s)
    } else {
        let r = spec_take_blocks(s, lines[i].0, lines[i].1, lines[i].2);
        let taken = Seq::new((r.2 - r.1) as nat, |k: int| (lines[i].0, r.1 + k));
        let rest = page_run(lines, i + 1, r.0);
        (rest.0, taken + rest.1)
    }
}

proof fn lemma_starts_increase(lines: Seq<LineShape>, len: int, i: int, j: int)
    requires
        lines_wf(lines, len),
        0 <= i < j < lines.len(),
    ensures
        lines[i].0 < lines[j].0,
        lines[i].1 <= lines[j].0,
    decreases j - i,
{
    assert(lines[j - 1].1 == lines[j].0);
    if i < j - 1 {
        lemma_starts_increase(lines, len, i, j - 1);
    }
}

/// Lines `i..j` that start before `o` hold nothing at or after `(o, b)`.
proof fn lemma_remaining_skip_before(lines: Seq<LineShape>, i: int, j: int, o: int, b: int)
    requires
        0 <= i <= j <= lines.len(),
        forall|k: int| i <= k < j ==> (#[trigger] lines[k]).0 < o,
    ensures
        remaining(lines, i, o, b) == remaining(lines, j, o, b),
    decreases j - i,
{
    if i < j {
        lemma_remaining_skip_before(lines, i + 1, j, o, b);
        assert(line_rest(lines[i], o, b) =~= Seq::<(int, int)>::empty());
        assert(remaining(lines, i, o, b) =~= remaining(lines, i + 1, o, b));
    }
}

/// Lines that all start after `o` hold all their items at or after `(o, b)`
/// and at or after `(o2, b2)` alike.
proof fn lemma_remaining_all_after(lines: Seq<LineShape>, i: int, o: int, b: int, o2: int, b2: int)
    requires
        0 <= i <= lines.len(),
        forall|k: int| i <= k < lines.len() ==> (#[trigger] lines[k]).0 > o && lines[k].0 > o2,
    ensures
        remaining(lines, i, o, b) == remaining(lines, i, o2, b2),
    decreases lines.len() - i,
{
    if i < lines.len() {
        lemma_remaining_all_after(lines, i + 1, o, b, o2, b2);
        assert(line_rest(lines[i], o, b) =~= line_rest(lines[i], o2, b2));
    }
}

/// Reading a page takes, in order, the next items of the source from the
/// page's start on, as many as fit; and the position it resumes from holds
/// exactly the items after those. Reading page after page therefore yields
/// every item of the source once, in order.
pub proof fn lemma_page_takes_next_items(lines: Seq<LineShape>, len: int, s: PageState)
    requires
        lines_wf(lines, len),
        page_wf(s),
        !s.stopped,
        s.taken == 0,
        s.next_position == s.cursor,
        s.cursor.offset <= len,
    ensures
        ({
            let run = page_run(lines, 0, s);
            let all = remaining(lines, 0, s.cursor.offset as int, s.cursor.block_index as int);
            let k = if all.len() < s.limit {
                all.len() as int
            } else {
                s.limit as int
            };
            &&& run.1 == all.take(k)
            &&& remaining(lines, 0, run.0.next_position.offset as int, run.0.next_position.block_index as int)
                == all.skip(k)
            &&& run.0.next_position.offset <= len
            &&& (run.0.next_position.offset == len ==> all.skip(k).len() == 0)
        }),
{
    lemma_page_run(lines, len, 0, s);
    let run = page_run(lines, 0, s);
    if run.0.next_position.offset == len {
        let o = run.0.next_position.offset as int;
        let b = run.0.next_position.block_index as int;
        assert forall|k: int| 0 <= k < lines.len() implies (#[trigger] lines[k]).0 < o by {}
        lemma_remaining_skip_before(lines, 0, lines.len() as int, o, b);
    }
}

proof fn lemma_line_order(lines: Seq<LineShape>, len: int, i: int)
    requires
        lines_wf(lines, len),
        0 <= i < lines.len(),
    ensures
        forall|k: int| i < k < lines.len() ==> (#[trigger] lines[k]).0 > lines[i].0 && lines[k].0 >= lines[i].1,
        forall|k: int| 0 <= k < i ==> (#[trigger] lines[k]).0 < lines[i].0 && lines[k].1 <= lines[i].0,
{
    assert forall|k: int| i < k < lines.len() implies (#[trigger] lines[k]).0 > lines[i].0 && lines[k].0
        >= lines[i].1 by {
        lemma_starts_increase(lines, len, i, k);
    }
    assert forall|k: int| 0 <= k < i implies (#[trigger] lines[k]).0 < lines[i].0 && lines[k].1
        <= lines[i].0 by {
        lemma_starts_increase(lines, len, k, i);
    }
}

/// The items of a read line that remain for the page.
proof fn lemma_read_line_items(lines: Seq<LineShape>, len: int, i: int, s: PageState)
    requires
        lines_wf(lines, len),
        0 <= i < lines.len(),
        lines[i].0 >= s.cursor.offset,
    ensures
        remaining(lines, i, s.cursor.offset as int, s.cursor.block_index as int) == Seq::new(
            available(s, lines[i].0, lines[i].2) as nat,
            |k: int| (lines[i].0, first_block(s, lines[i].0) + k),
        ) + remaining(lines, i + 1, s.cursor.offset as int, s.cursor.block_index as int),
{
    let l = lines[i];
    let o = s.cursor.offset as int;
    let b = s.cursor.block_index as int;
    assert(line_rest(l, o, b) =~= Seq::new(
        available(s, l.0, l.2) as nat,
        |k: int| (l.0, first_block(s, l.0) + k),
    ));
}

/// A page that stops inside line `i`.
#[verifier::spinoff_prover]
proof fn lemma_stop_step(lines: Seq<LineShape>, len: int, i: int, s: PageState)
    requires
        lines_wf(lines, len),
        0 <= i < lines.len(),
        page_wf(s),
        !s.stopped,
        lines[i].0 >= s.cursor.offset,
        available(s, lines[i].0, lines[i].2) > s.limit - s.taken,
    ensures
        ({
            let l = lines[i];
            let r = spec_take_blocks(s, l.0, l.1, l.2);
            let o = s.cursor.offset as int;
            let b = s.cursor.block_index as int;
            let rest = remaining(lines, i, o, b);
            let room = s.limit - s.taken;
            &&& room < rest.len()
            &&& page_run(lines, i, s).0 == r.0
            &&& page_run(lines, i, s).1 == rest.take(room as int)
            &&& page_wf(r.0)
            &&& r.0.cursor == s.cursor && r.0.limit == s.limit
            &&& r.0.next_position.offset <= len
            &&& remaining(lines, 0, r.0.next_position.offset as int, r.0.next_position.block_index as int)
                == rest.skip(room as int)
        }),
{
    let l = lines[i];
    let o = s.cursor.offset as int;
    let b = s.cursor.block_index as int;
    let r = spec_take_blocks(s, l.0, l.1, l.2);
    let from = first_block(s, l.0);
    let avail = available(s, l.0, l.2);
    let room = s.limit - s.taken;
    let rest = remaining(lines, i, o, b);
    let part = Seq::new(avail as nat, |k: int| (l.0, from + k));
    let tail = remaining(lines, i + 1, o, b);
    lemma_read_line_items(lines, len, i, s);
    lemma_line_order(lines, len, i);
    assert(rest == part + tail);
    assert(r.1 == from && r.2 == from + room);
    assert(r.0.stopped);
    assert(page_run(lines, i + 1, r.0).1 =~= Seq::<(int, int)>::empty());
    assert(page_run(lines, i, s).1 =~= Seq::new(room as nat, |k: int| (l.0, from + k)));
    assert(Seq::new(room as nat, |k: int| (l.0, from + k)) =~= rest.take(room as int));
    let np = r.0.next_position;
    assert(np.offset == l.0 && np.block_index == from + room);
    lemma_remaining_skip_before(lines, 0, i, l.0, from + room);
    lemma_remaining_all_after(lines, i + 1, l.0, from + room, o, b);
    assert(line_rest(l, l.0, from + room) =~= Seq::new(
        (avail - room) as nat,
        |k: int| (l.0, from + room + k),
    ));
    assert(remaining(lines, i, l.0, from + room) =~= rest.skip(room as int));
}

/// A page that takes the whole of line `i` and goes on.
#[verifier::spinoff_prover]
proof fn lemma_take_step(lines: Seq<LineShape>, len: int, i: int, s: PageState)
    requires
        lines_wf(lines, len),
        0 <= i < lines.len(),
        page_wf(s),
        !s.stopped,
        lines[i].0 >= s.cursor.offset,
        available(s, lines[i].0, lines[i].2) <= s.limit - s.taken,
    ensures
        ({
            let l = lines[i];
            let r = spec_take_blocks(s, l.0, l.1, l.2);
            let o = s.cursor.offset as int;
            let b = s.cursor.block_index as int;
            let avail = available(s, l.0, l.2);
            let part = Seq::new(avail as nat, |k: int| (l.0, first_block(s, l.0) + k));
            let tail = remaining(lines, i + 1, o, b);
            &&& remaining(lines, i, o, b) == part + tail
            &&& page_run(lines, i, s) == (page_run(lines, i + 1, r.0).0, part + page_run(lines, i + 1, r.0).1)
            &&& page_wf(r.0)
            &&& !r.0.stopped
            &&& r.0.cursor == s.cursor && r.0.limit == s.limit
            &&& r.0.taken == s.taken + avail
            &&& r.0.next_position.offset <= len
            &&& remaining(lines, 0, r.0.next_position.offset as int, r.0.next_position.block_index as int)
                == tail
        }),
{
    let l = lines[i];
    let o = s.cursor.offset as int;
    let b = s.cursor.block_index as int;
    let r = spec_take_blocks(s, l.0, l.1, l.2);
    let from = first_block(s, l.0);
    let avail = available(s, l.0, l.2);
    let tail = remaining(lines, i + 1, o, b);
    lemma_read_line_items(lines, len, i, s);
    lemma_line_order(lines, len, i);
    assert(r.1 == from && r.2 == from + avail);
    let s2 = r.0;
    assert(s2.next_position.offset == l.1 && s2.next_position.block_index == 0);
    if i + 1 < lines.len() {
        let n = lines[i + 1];
        assert(l.1 == n.0);
        lemma_remaining_skip_before(lines, 0, i + 1, l.1, 0);
        lemma_line_order(lines, len, i + 1);
        lemma_remaining_all_after(lines, i + 2, l.1, 0, o, b);
        assert(line_rest(n, o, b) =~= line_rest(n, l.1, 0));
        assert(remaining(lines, i + 1, l.1, 0) =~= tail);
    } else {
        assert forall|k: int| 0 <= k < i + 1 implies (#[trigger] lines[k]).0 < l.1 by {}
        lemma_remaining_skip_before(lines, 0, i + 1, l.1, 0);
        assert(tail =~= Seq::<(int, int)>::empty());
    }
}

#[verifier::spinoff_prover]
#[verifier::rlimit(40)]
proof fn lemma_page_run(lines: Seq<LineShape>, len: int, i: int, s: PageState)
    requires
        lines_wf(lines, len),
        0 <= i <= lines.len(),
        page_wf(s),
        !s.stopped,
        s.next_position.offset <= len,
        remaining(lines, 0, s.next_position.offset as int, s.next_position.block_index as int)
            == remaining(lines, i, s.cursor.offset as int, s.cursor.block_index as int),
    ensures
        ({
            let run = page_run(lines, i, s);
            let rest = remaining(lines, i, s.cursor.offset as int, s.cursor.block_index as int);
            let room = s.limit - s.taken;
            let k = if rest.len() < room {
                rest.len() as int
            } else {
                room as int
            };
            &&& run.1 == rest.take(k)
            &&& run.0.cursor == s.cursor
            &&& run.0.limit == s.limit
            &&& page_wf(run.0)
            &&& remaining(lines, 0, run.0.next_position.offset as int, run.0.next_position.block_index as int)
                == rest.skip(k)
            &&& run.0.next_position.offset <= len
        }),
    decreases lines.len() - i,
{
    let o = s.cursor.offset as int;
    let b = s.cursor.block_index as int;
    let rest = remaining(lines, i, o, b);
    if i >= lines.len() {
        assert(rest =~= Seq::<(int, int)>::empty());
        assert(rest.take(0) =~= rest);
        assert(rest.skip(0) =~= rest);
        return;
    }
    let l = lines[i];
    if l.0 < o {
        assert(line_rest(l, o, b) =~= Seq::<(int, int)>::empty());
        assert(rest =~= remaining(lines, i + 1, o, b));
        lemma_page_run(lines, len, i + 1, s);
        return;
    }
    let avail = available(s, l.0, l.2);
    let room = s.limit - s.taken;
    if avail > room {
        lemma_stop_step(lines, len, i, s);
    } else {
        lemma_take_step(lines, len, i, s);
        let r = spec_take_blocks(s, l.0, l.1, l.2);
        let s2 = r.0;
        let part = Seq::new(avail as nat, |k: int| (l.0, first_block(s, l.0) + k));
        let tail = remaining(lines, i + 1, o, b);
        lemma_page_run(lines, len, i + 1, s2);
        let run2 = page_run(lines, i + 1, s2);
        let room2 = s2.limit - s2.taken;
        let k2 = if tail.len() < room2 {
            tail.len() as int
        } else {
            room2 as int
        };
        assert(part + tail.take(k2) =~= rest.take(avail + k2));
        assert(rest.skip(avail + k2) =~= tail.skip(k2));
    }
}

/// The message `std::str::from_utf8` reports for bytes that are not UTF-8.
pub uninterp spec fn utf8_error_text(bytes: Seq<u8>) -> Seq<char>;

/// `std::str::from_utf8` on `bytes[start..end]`, the text copied out, its
/// error turned into its message.
///
/// The text is the UTF-8 decoding of the bytes exactly when they are valid
/// UTF-8; the message is only named.
#[verifier::external_body]
fn utf8_text(bytes: &Vec<u8>, start: usize, end: usize) -> (r: Result<String, String>)
    requires
        start <= end <= bytes.len(),
    ensures
        match r {
            Ok(t) => vstd::utf8::valid_utf8(bytes@.subrange(start as int, end as int)) && t@
                == vstd::utf8::decode_utf8(bytes@.subrange(start as int, end as int)),
            Err(m) => !vstd::utf8::valid_utf8(bytes@.subrange(start as int, end as int)) && m@
                == utf8_error_text(bytes@.subrange(start as int, end as int)),
        },
{
    match std::str::from_utf8(&bytes[start..end]) {
        Ok(t) => Ok(t.to_string()),
        Err(e) => Err(e.to_string()),
    }
}

/// `s` without its trailing `\r` and `\n` characters.
pub open spec fn drop_line_end(s: Seq<char>) -> Seq<char>
    decreases s.len(),
{
    if s.len() > 0 && (s.last() == '\r' || s.last() == '\n') {
        drop_line_end(s.drop_last())
    } else {
        s
    }
}

/// The text of a line without its line end.
fn trim_line_end(t: &str) -> (r: String)
    ensures
        r@ == drop_line_end(t@),
{
    let v = crate::text::chars_of(t);
    let mut j: usize = v.len();
    assert(v@.take(j as int) =~= v@);
    while j > 0 && (v[j - 1] == '\r' || v[j - 1] == '\n')
        invariant
            j <= v.len(),
            v@ == t@,
            drop_line_end(t@) == drop_line_end(v@.take(j as int)),
        decreases j,
    {
        assert(v@.take(j as int).drop_last() =~= v@.take(j - 1));
        j -= 1;
    }
    assert(drop_line_end(v@.take(j as int)) == v@.take(j as int));
    crate::text::string_of_range(&v, 0, j)
}

/// The first state of a page starting at `cursor` and holding at most
/// `limit` items (at least one).
pub open spec fn first_state(cursor: CursorPosition, limit: usize) -> PageState {
    PageState {
        cursor,
        limit: if limit == 0 {
            1
        } else {
            limit
        },
        taken: 0,
        next_position: cursor,
        stopped: false,
    }
}

/// The items of a page as (line start, index in the line).
pub open spec fn items_v(items: Seq<(usize, usize, usize)>) -> Seq<(int, int)> {
    items.map_values(|x: (usize, usize, usize)| (x.0 as int, x.2 as int))
}

/// `lines` may be the lines of `bytes` as paging sees them, given what
/// reading found: their spans are those of the source, and each line that was
/// read (among the first `counts.len()`, from the page's start on) produced
/// the count recorded for it; any other line may produce any count.
pub open spec fn agrees(lines: Seq<LineShape>, bytes: Seq<u8>, counts: Seq<usize>, cursor: CursorPosition) -> bool {
    let sp = spans_from(bytes, 0);
    &&& lines.len() == sp.len()
    &&& forall|k: int|
        0 <= k < lines.len() ==> (#[trigger] lines[k]).0 == sp[k].0 && lines[k].1 == sp[k].1 && 0 <= lines[k].2
            <= usize::MAX
    &&& forall|k: int|
        0 <= k < counts.len() && k < lines.len() && sp[k].0 >= cursor.offset ==> (#[trigger] lines[k]).2 == counts[k]
}

/// Reading has ended at line `i` of `n` in state `s`: the lines ran out or
/// the page stopped.
pub open spec fn page_run_done(n: int, i: int, s: PageState) -> bool {
    i >= n || s.stopped
}

/// A page read from a source.
#[derive(Debug)]
pub struct PageRead {
    /// The items taken, as (line start, line end, index in the line).
    pub items: Vec<(usize, usize, usize)>,
    /// How many items each line of the source produced, in order: what
    /// `item_count` gave for a line read, 0 for a line passed over, a blank
    /// line, or a line after reading stopped.
    pub counts: Vec<usize>,
    /// How many lines, from the first, reading went through.
    pub lines_read: usize,
    /// How the page ends.
    pub outcome: PageOutcome,
}

/// `n` is a count `item_count` can give for line `start..end` of `bytes`,
/// called on the entry parsed from its text.
pub open spec fn closure_count<F: Fn(&JsonDoc, usize, usize) -> usize>(
    item_count: F,
    bytes: Seq<u8>,
    start: int,
    end: int,
    n: usize,
) -> bool {
    exists|d: JsonDoc| d@ == entry_text(bytes, start, end) && call_ensures(item_count, (&d, start as usize, end as usize), n)
}

/// Line `k` of `bytes` is read: it is among the first `lines_read`, starts at
/// or after the cursor, and is not blank.
pub open spec fn line_counted(bytes: Seq<u8>, cursor: CursorPosition, lines_read: int, k: int) -> bool {
    let sp = spans_from(bytes, 0);
    &&& k < lines_read
    &&& sp[k].0 >= cursor.offset
    &&& !is_blank(entry_text(bytes, sp[k].0, sp[k].1))
}

/// The counts recorded for the first `counts.len()` lines: what `item_count`
/// gives for each line read, 0 for the others.
pub open spec fn counts_from_closure<F: Fn(&JsonDoc, usize, usize) -> usize>(
    item_count: F,
    bytes: Seq<u8>,
    cursor: CursorPosition,
    lines_read: int,
    counts: Seq<usize>,
) -> bool {
    let sp = spans_from(bytes, 0);
    forall|k: int|
        0 <= k < counts.len() && k < sp.len() ==> if line_counted(bytes, cursor, lines_read, k) {
            closure_count(item_count, bytes, sp[k].0, sp[k].1, #[trigger] counts[k])
        } else {
            counts[k] == 0
        }
}

/// Every item names the line it comes from: its start and end are those of
/// a line of the source.
pub open spec fn items_on_lines(bytes: Seq<u8>, items: Seq<(usize, usize, usize)>) -> bool {
    let sp = spans_from(bytes, 0);
    forall|j: int|
        0 <= j < items.len() ==> exists|k: int|
            0 <= k < sp.len() && #[trigger] sp[k].0 == (#[trigger] items[j]).0 && sp[k].1 == items[j].1
}

/// What reading a page established, for lines as `agrees` allows: the page
/// is the run of `page_run` over them, which takes the next items of the
/// source from the cursor on, as many as fit, and resumes exactly after them.
pub open spec fn page_facts(lines: Seq<LineShape>, len: int, p: PageRead, cursor: CursorPosition, limit: usize) -> bool {
    let s0 = first_state(cursor, limit);
    let run = page_run(lines, 0, s0);
    let all = remaining(lines, 0, cursor.offset as int, cursor.block_index as int);
    let k = if all.len() < s0.limit {
        all.len() as int
    } else {
        s0.limit as int
    };
    &&& items_v(p.items@) == run.1
    &&& run.1 == all.take(k)
    &&& p.outcome.next_position == run.0.next_position
    &&& remaining(lines, 0, run.0.next_position.offset as int, run.0.next_position.block_index as int)
        == all.skip(k)
    &&& p.outcome.has_more == (run.0.stopped || run.0.next_position.offset < len)
    &&& p.outcome.is_tail == !p.outcome.has_more
    &&& (run.0.next_position.offset == len ==> all.skip(k).len() == 0)
}

/// Line `start..end` of a source reads well: it is UTF-8 and, without its
/// line end, blank or one JSON value.
pub open spec fn line_ok(bytes: Seq<u8>, start: int, end: int) -> bool {
    &&& vstd::utf8::valid_utf8(bytes.subrange(start, end))
    &&& (is_blank(entry_text(bytes, start, end)) || json_parse_error(entry_text(bytes, start, end)) is None)
}

/// Reads a page of a JSONL source from `cursor`, taking at most `limit`
/// items (at least one). Lines that start before the cursor are passed over;
/// a blank line produces nothing; any other line is decoded as UTF-8, parsed
/// as JSON, and produces `item_count(entry, start, end)` items. Reading stops
/// when the page is full and a line has items left, or at the end.
///
/// A cursor past the end is a `Domain` error (see `start_page`); so is a line
/// read that is not UTF-8 or not JSON. On success the page is exactly the
/// next items of the source from the cursor, as `page_facts` says, for the
/// counts the lines produce. Success is owed when every line from the cursor
/// on reads well (`line_ok`); at a cursor at the end of the source the page
/// is empty, has no more and is the tail.
pub fn page_of_lines<F: Fn(&JsonDoc, usize, usize) -> usize>(
    bytes: &Vec<u8>,
    cursor: CursorPosition,
    limit: usize,
    item_count: F,
) -> (r: Result<PageRead, Error>)
    requires
        forall|v: &JsonDoc, a: usize, b: usize| #[trigger] item_count.requires((v, a, b)),
    ensures
        cursor.offset > bytes.len() ==> (r matches Err(e) && e@ == ErrorV::Domain(
            "cursor_invalid: offset "@ + usize_text(cursor.offset) + " exceeds source length "@
                + usize_text(bytes.len()),
        )),
        cursor.offset <= bytes.len() && (forall|k: int|
            0 <= k < spans_from(bytes@, 0).len() && spans_from(bytes@, 0)[k].0 >= cursor.offset ==> #[trigger] line_ok(
                bytes@,
                spans_from(bytes@, 0)[k].0,
                spans_from(bytes@, 0)[k].1,
            )) ==> r is Ok,
        cursor.offset == bytes.len() ==> (r matches Ok(p) && p.items@.len() == 0 && !p.outcome.has_more
            && p.outcome.is_tail && p.outcome.next_position == cursor),
        r matches Ok(p) ==> {
            &&& cursor.offset <= bytes.len()
            &&& p.counts.len() == spans_from(bytes@, 0).len()
            &&& p.lines_read <= p.counts.len()
            &&& counts_from_closure(item_count, bytes@, cursor, p.lines_read as int, p.counts@)
            &&& p.lines_read < p.counts.len() ==> p.items.len() == first_state(cursor, limit).limit
            &&& items_on_lines(bytes@, p.items@)
            &&& forall|lines: Seq<LineShape>|
                #[trigger] agrees(lines, bytes@, p.counts@, cursor) ==> lines_wf(lines, bytes.len() as int)
                    && page_facts(lines, bytes.len() as int, p, cursor, limit)
        },
{
    let spans = line_spans(bytes);
    let ghost sp = spans_from(bytes@, 0);
    proof {
        lemma_spans_partition(bytes@, 0);
    }
    let mut s = start_page(cursor, bytes.len(), limit)?;
    let ghost s0 = s;
    assert(s0 == first_state(cursor, limit));
    let mut items: Vec<(usize, usize, usize)> = Vec::new();
    let mut counts: Vec<usize> = Vec::new();
    let mut i: usize = 0;
    assert(spans.len() == sp.len());
    while i < spans.len() && !s.stopped
        invariant
            sp == spans_from(bytes@, 0),
            spans@.map_values(|p: (usize, usize)| (p.0 as int, p.1 as int)) == sp,
            spans.len() == sp.len(),
            forall|k: int| 0 <= k < sp.len() ==> 0 <= #[trigger] sp[k].0 < sp[k].1 <= bytes.len(),
            i <= spans.len(),
            counts.len() == i,
            page_wf(s),
            s.cursor == cursor,
            s0 == first_state(cursor, limit),
            page_wf(s0),
            cursor.offset <= bytes.len(),
            cursor.offset == bytes.len() ==> items@.len() == 0 && s == s0,
            items.len() == s.taken,
            s.limit == s0.limit,
            counts_from_closure(item_count, bytes@, cursor, i as int, counts@),
            items_on_lines(bytes@, items@),
            forall|v: &JsonDoc, a: usize, b: usize| #[trigger] item_count.requires((v, a, b)),
            forall|lines: Seq<LineShape>|
                #[trigger] agrees(lines, bytes@, counts@, cursor) ==> page_run(lines, 0, s0) == (
                    page_run(lines, i as int, s).0,
                    items_v(items@) + page_run(lines, i as int, s).1,
                ),
        decreases spans.len() - i,
    {
        let (start, end) = spans[i];
        assert(sp[i as int] == (start as int, end as int));
        let ghost s_before = s;
        let ghost items_before = items@;
        let ghost counts_before = counts@;
        let mut n: usize = 0;
        let mut read = false;
        if reads_line(&s, start) {
            read = true;
            let text = match utf8_text(bytes, start, end) {
                Ok(t) => t,
                Err(m) => {
                    proof {
                        assert(!line_ok(bytes@, sp[i as int].0, sp[i as int].1));
                    }
                    return Err(Error::Domain(String::from_str("pi jsonl source is not utf-8: ").concat(m.as_str())));
                },
            };
            let t = trim_line_end(text.as_str());
            assert(t@ == entry_text(bytes@, start as int, end as int));
            if crate::text::blank(t.as_str()) {
                assert(is_blank(entry_text(bytes@, start as int, end as int)));
                s = blank_line(&s, start, end);
            } else {
                assert(!is_blank(entry_text(bytes@, start as int, end as int)));
                let entry = match parse_json(t.as_str()) {
                    Ok(d) => d,
                    Err(e) => {
                        proof {
                            assert(!line_ok(bytes@, sp[i as int].0, sp[i as int].1));
                        }
                        return Err(e);
                    },
                };
                n = item_count(&entry, start, end);
                assert(closure_count(item_count, bytes@, start as int, end as int, n));
                let (next, from, to) = take_blocks(&s, start, end, n);
                let mut k = from;
                let ghost base = items@;
                while k < to
                    invariant
                        from <= k <= to,
                        items@ == base + Seq::new((k - from) as nat, |j: int| (start, end, (from + j) as usize)),
                    decreases to - k,
                {
                    items.push((start, end, k));
                    assert(items@ =~= base + Seq::new((k + 1 - from) as nat, |j: int| (start, end, (from + j) as usize)));
                    k += 1;
                }
                assert(items_v(items@) =~= items_v(base) + Seq::new((to - from) as nat, |j: int| (start as int, from + j)));
                assert(items_on_lines(bytes@, items@)) by {
                    assert forall|j: int| 0 <= j < items@.len() implies exists|kk: int|
                        0 <= kk < sp.len() && #[trigger] sp[kk].0 == (#[trigger] items@[j]).0 && sp[kk].1 == items@[j].1 by {
                        if j < base.len() {
                            assert(items@[j] == base[j]);
                        } else {
                            assert(items@[j].0 == start && items@[j].1 == end);
                            assert(sp[i as int].0 == items@[j].0);
                        }
                    }
                }
                s = next;
            }
        }
        counts.push(n);
        proof {
            assert forall|k: int| 0 <= k < counts@.len() && k < sp.len() implies (if line_counted(bytes@, cursor, i + 1, k) {
                closure_count(item_count, bytes@, sp[k].0, sp[k].1, #[trigger] counts@[k])
            } else {
                counts@[k] == 0
            }) by {
                if k < i {
                    assert(counts@[k] == counts_before[k]);
                    assert(line_counted(bytes@, cursor, i + 1, k) == line_counted(bytes@, cursor, i as int, k));
                } else {
                    assert(counts@[k] == n);
                    assert(sp[k] == (start as int, end as int));
                }
            }
            assert forall|lines: Seq<LineShape>| #[trigger] agrees(lines, bytes@, counts@, cursor) implies page_run(lines, 0, s0) == (
                page_run(lines, i + 1, s).0,
                items_v(items@) + page_run(lines, i + 1, s).1,
            ) by {
                assert(agrees(lines, bytes@, counts_before, cursor)) by {
                    assert forall|k: int| 0 <= k < counts_before.len() && k < lines.len() && sp[k].0 >= cursor.offset implies (#[trigger] lines[k]).2 == counts_before[k] by {
                        assert(counts@[k] == counts_before[k]);
                    }
                }
                assert(lines[i as int].0 == start && lines[i as int].1 == end);
                if read {
                    assert(lines[i as int].2 == n) by {
                        assert(counts@[i as int] == n);
                    }
                    let r = spec_take_blocks(s_before, start as int, end as int, n as int);
                    assert(s == r.0);
                    let taken = Seq::new((r.2 - r.1) as nat, |j: int| (start as int, r.1 + j));
                    assert(page_run(lines, i as int, s_before) == (
                        page_run(lines, i + 1, r.0).0,
                        taken + page_run(lines, i + 1, r.0).1,
                    ));
                    assert(items_v(items@) =~= items_v(items_before) + taken);
                    assert(items_v(items_before) + (taken + page_run(lines, i + 1, s).1) =~= items_v(items@)
                        + page_run(lines, i + 1, s).1);
                } else {
                    assert(page_run(lines, i as int, s_before) == page_run(lines, i + 1, s_before));
                }
            }
        }
        i += 1;
    }
    let ghost visited = counts@;
    let ghost i1 = i as int;
    let lines_read = i;
    assert(page_run_done(sp.len() as int, i1, s));
    while i < spans.len()
        invariant
            i <= spans.len(),
            counts.len() == i,
            forall|k: int| 0 <= k < visited.len() ==> counts@[k] == visited[k],
            forall|k: int| visited.len() <= k < i ==> counts@[k] == 0,
            visited.len() <= i,
        decreases spans.len() - i,
    {
        counts.push(0);
        i += 1;
    }
    let out = finish_page(&s, bytes.len());
    let p = PageRead { items, counts, lines_read, outcome: out };
    proof {
        assert(counts_from_closure(item_count, bytes@, cursor, lines_read as int, p.counts@)) by {
            assert forall|k: int| 0 <= k < p.counts@.len() && k < sp.len() implies (if line_counted(bytes@, cursor, lines_read as int, k) {
                closure_count(item_count, bytes@, sp[k].0, sp[k].1, #[trigger] p.counts@[k])
            } else {
                p.counts@[k] == 0
            }) by {
                if k < visited.len() {
                    assert(p.counts@[k] == visited[k]);
                }
            }
        }
    }
    proof {
        assert forall|lines: Seq<LineShape>| #[trigger] agrees(lines, bytes@, p.counts@, cursor) implies lines_wf(lines, bytes.len() as int)
            && page_facts(lines, bytes.len() as int, p, cursor, limit) by {
            assert(agrees(lines, bytes@, visited, cursor)) by {
                assert forall|k: int| 0 <= k < visited.len() && k < lines.len() && sp[k].0 >= cursor.offset implies (#[trigger] lines[k]).2 == visited[k] by {
                    assert(p.counts@[k] == visited[k]);
                }
            }
            assert(page_run(lines, i1, s) == (s, Seq::<(int, int)>::empty()));
            assert(items_v(p.items@) + Seq::<(int, int)>::empty() =~= items_v(p.items@));
            assert(lines_wf(lines, bytes.len() as int)) by {
                assert forall|k: int| 0 <= k < lines.len() - 1 implies (#[trigger] lines[k]).1 == lines[k + 1].0 by {
                    assert(sp[k].1 == sp[k + 1].0);
                }
                if lines.len() > 0 {
                    assert(lines[0].0 == sp[0].0);
                    assert(lines[lines.len() - 1].1 == sp[sp.len() - 1].1);
                }
            }
            lemma_page_takes_next_items(lines, bytes.len() as int, s0);
        }
    }
    Ok(p)
}

/// A byte range of a source must lie inside it.
pub fn check_detail_range(start: usize, end: usize, source_len: usize) -> (r: Result<(), Error>)
    ensures
        r is Ok <==> (start <= end && end <= source_len),
        r matches Err(e) ==> e@ == ErrorV::Domain("content_ref_invalid: byte range outside source"@),
{
    if start > end || end > source_len {
        Err(Error::Domain(String::from_str("content_ref_invalid: byte range outside source")))
    } else {
        Ok(())
    }
}

/// What the detail of a timeline item shows of its transcript entry.
#[derive(Debug, Clone, Copy, PartialEq, Eq, Structural)]
pub enum DetailSelection {
    /// The block at this index of the entry's `message.content`.
    ContentBlock(usize),
    /// The whole entry.
    WholeEntry,
}

/// The detail of an assistant, thinking or tool-call item is its content
/// block; of any other item, the whole entry.
pub fn detail_selection(kind: &str, block_index: usize) -> (r: DetailSelection)
    ensures
        r == (if kind@ == "assistant"@ || kind@ == "thinking"@ || kind@ == "tool_call"@ {
            DetailSelection::ContentBlock(block_index)
        } else {
            DetailSelection::WholeEntry
        }),
{
    if text_eq(kind, "assistant") || text_eq(kind, "thinking") || text_eq(kind, "tool_call") {
        DetailSelection::ContentBlock(block_index)
    } else {
        DetailSelection::WholeEntry
    }
}


/// The detail of a timeline item: its JSON text and that text's size in bytes.
#[derive(Debug)]
pub struct ItemDetail {
    pub text: String,
    pub size_bytes: usize,
}

/// The JSON pointer to content block `index` of an entry.
pub open spec fn block_pointer(index: usize) -> Seq<char> {
    "/message/content/"@ + nat_text(index as nat)
}

/// The detail text of an entry given as the JSON text `line`: for an
/// assistant, thinking or tool-call item the pretty JSON of its content block
/// `index` (the element of the array `message.content`), `null` when there is
/// none; for any other item the pretty JSON of the whole entry.
pub open spec fn detail_text(line: Seq<char>, kind: Seq<char>, index: usize) -> Seq<char> {
    if kind == "assistant"@ || kind == "thinking"@ || kind == "tool_call"@ {
        if json_value_at(line, "/message/content"@) matches JsonAtV::Array(n) && index < n && !(json_value_at(
            line,
            block_pointer(index),
        ) is Missing) {
            json_pretty_text(line, block_pointer(index))
        } else {
            "null"@
        }
    } else {
        json_pretty_text(line, Seq::empty())
    }
}

/// The entry text of bytes `start..end` of a source: their UTF-8 decoding
/// without the line end.
pub open spec fn entry_text(bytes: Seq<u8>, start: int, end: int) -> Seq<char> {
    drop_line_end(vstd::utf8::decode_utf8(bytes.subrange(start, end)))
}

/// The detail of the timeline item in bytes `start..end` of a source: the
/// range must lie inside the source and its bytes be UTF-8 and, without the
/// line end, one JSON entry; the detail is the pretty JSON text of the
/// entry's content block `block_index` (null when it has none) for an
/// assistant, thinking or tool-call item, and of the whole entry otherwise,
/// with its size in bytes.
pub fn item_detail(bytes: &Vec<u8>, start: usize, end: usize, kind: &str, block_index: usize) -> (r: Result<
    ItemDetail,
    Error,
>)
    ensures
        !(start <= end && end <= bytes.len()) ==> (r matches Err(e) && e@ == ErrorV::Domain(
            "content_ref_invalid: byte range outside source"@,
        )),
        (start <= end && end <= bytes.len() && !vstd::utf8::valid_utf8(bytes@.subrange(start as int, end as int)))
            ==> (r matches Err(e) && e@ == ErrorV::Domain(
            "content_ref_invalid: source is not utf-8: "@ + utf8_error_text(bytes@.subrange(start as int, end as int)),
        )),
        (start <= end && end <= bytes.len() && vstd::utf8::valid_utf8(bytes@.subrange(start as int, end as int)))
            ==> match json_parse_error(entry_text(bytes@, start as int, end as int)) {
            Some(m) => r matches Err(e) && e@ == ErrorV::Domain(m),
            None => r matches Ok(d) && d.text@ == detail_text(
                entry_text(bytes@, start as int, end as int),
                kind@,
                block_index,
            ) && d.size_bytes == vstd::utf8::encode_utf8(d.text@).len() as usize,
        },
{
    check_detail_range(start, end, bytes.len())?;
    let line = match utf8_text(bytes, start, end) {
        Ok(t) => t,
        Err(m) => {
            return Err(Error::Domain(String::from_str("content_ref_invalid: source is not utf-8: ").concat(m.as_str())));
        },
    };
    let line = trim_line_end(line.as_str());
    let doc = parse_json(line.as_str())?;
    let text = match detail_selection(kind, block_index) {
        DetailSelection::ContentBlock(index) => {
            let present = match json_at(&doc, "/message/content") {
                JsonAt::Array(n) => index < n,
                _ => false,
            };
            let shown = if present {
                let p = String::from_str("/message/content/").concat(u64_text(index as u64).as_str());
                assert(p@ == block_pointer(index));
                json_pretty_at(&doc, p.as_str())
            } else {
                None
            };
            let t = match shown {
                Some(t) => t,
                None => String::from_str("null"),
            };
            assert(index == block_index);
            assert(kind@ == "assistant"@ || kind@ == "thinking"@ || kind@ == "tool_call"@);
            assert(t@ == detail_text(doc@, kind@, block_index));
            t
        },
        DetailSelection::WholeEntry => {
            proof {
                reveal_strlit("");
            }
            assert(""@ == Seq::<char>::empty());
            let t = match json_pretty_at(&doc, "") {
                Some(t) => t,
                None => String::from_str("null"),
            };
            assert(!(kind@ == "assistant"@ || kind@ == "thinking"@ || kind@ == "tool_call"@));
            assert(t@ == detail_text(doc@, kind@, block_index));
            t
        },
    };
    assert(doc@ == entry_text(bytes@, start as int, end as int));
    assert(text@ == detail_text(doc@, kind@, block_index));
    let size_bytes = text.as_str().len();
    Ok(ItemDetail { text, size_bytes })
}

/// What the detail of a timeline item is, as `item_detail` says: its text,
/// or the error reading it gives.
pub open spec fn spec_item_detail(bytes: Seq<u8>, start: int, end: int, kind: Seq<char>, block_index: usize) -> Result<
    Seq<char>,
    ErrorV,
> {
    if !(start <= end && end <= bytes.len()) {
        Err(ErrorV::Domain("content_ref_invalid: byte range outside source"@))
    } else if !vstd::utf8::valid_utf8(bytes.subrange(start, end)) {
        Err(
            ErrorV::Domain(
                "content_ref_invalid: source is not utf-8: "@ + utf8_error_text(bytes.subrange(start, end)),
            ),
        )
    } else {
        match json_parse_error(entry_text(bytes, start, end)) {
            Some(m) => Err(ErrorV::Domain(m)),
            None => Ok(detail_text(entry_text(bytes, start, end), kind, block_index)),
        }
    }
}

/// The detail page of a timeline item.
#[derive(Debug)]
pub struct TimelineItemDetailPage {
    pub binding_id: String,
    pub content_ref: String,
    pub content_type: String,
    pub size_bytes: usize,
    pub text: String,
}

impl PiJsonlParser {
    /// The detail page of the timeline item that `content_ref` names, in
    /// bytes `start..end` of the source `binding_id` whose bytes are `bytes`:
    /// the detail `item_detail` gives, as `application/json`, with the
    /// binding and the content reference it was asked for.
    pub fn timeline_item_detail(
        &self,
        bytes: &Vec<u8>,
        start: usize,
        end: usize,
        kind: &str,
        block_index: usize,
        binding_id: String,
        content_ref: String,
    ) -> (r: Result<TimelineItemDetailPage, Error>)
        ensures
            match spec_item_detail(bytes@, start as int, end as int, kind@, block_index) {
                Err(e) => r matches Err(x) && x@ == e,
                Ok(t) => r matches Ok(p) && p.text@ == t && p.size_bytes == vstd::utf8::encode_utf8(t).len() as usize
                    && p.content_type@ == "application/json"@ && p.binding_id == binding_id && p.content_ref
                    == content_ref,
            },
    {
        let d = match item_detail(bytes, start, end, kind, block_index) {
            Ok(d) => d,
            Err(e) => return Err(e),
        };
        Ok(
            TimelineItemDetailPage {
                binding_id,
                content_ref,
                content_type: String::from_str("application/json"),
                size_bytes: d.size_bytes,
                text: d.text,
            },
        )
    }
}

} // verus!
