use llmparty::transcripts::page_of_lines;
use llmparty::json::JsonDoc;
use llmparty::transcripts::item_detail;
use llmparty::error::Error;
use llmparty::transcripts::{
    blank_line, check_detail_range, detail_selection, finish_page, line_spans, reads_line,
    source_id, start_page, take_blocks, CursorPosition, DetailSelection, PiJsonlParser,
};

fn pos(offset: usize, block_index: usize) -> CursorPosition {
    CursorPosition { offset, block_index }
}

#[test]
fn parser_reads_pi_jsonl_sources_only() {
    let parser = PiJsonlParser::new();
    assert_eq!(parser.client_type(), "pi");
    assert_eq!(parser.format(), "pi-jsonl");
    assert!(parser.check_source("pi", "pi-jsonl").is_ok());
    match parser.check_source("codex", "jsonl") {
        Err(Error::CapabilityUnavailable(m)) => {
            assert_eq!(m, "unsupported source codex/jsonl for pi jsonl parser")
        }
        other => panic!("unexpected {other:?}"),
    }
}

#[test]
fn source_id_joins_client_type_and_path() {
    assert_eq!(source_id("pi", "/tmp/s.jsonl"), "pi:/tmp/s.jsonl");
}

#[test]
fn line_spans_split_after_each_newline() {
    assert_eq!(line_spans(&b"a\nbc\n\nd".to_vec()), vec![(0, 2), (2, 5), (5, 6), (6, 7)]);
    assert_eq!(line_spans(&b"x\n".to_vec()), vec![(0, 2)]);
    assert!(line_spans(&Vec::new()).is_empty());
}

#[test]
fn a_cursor_past_the_end_is_invalid() {
    match start_page(pos(11, 0), 10, 5) {
        Err(Error::Domain(m)) => assert_eq!(m, "cursor_invalid: offset 11 exceeds source length 10"),
        other => panic!("unexpected {other:?}"),
    }
    let s = start_page(pos(10, 0), 10, 0).unwrap();
    assert_eq!(s.limit, 1);
    assert_eq!(s.taken, 0);
}

#[test]
fn a_page_stops_when_full_and_resumes_at_the_first_item_left() {
    // Lines: [0,10) produces 3 items, [10,11) is blank, [11,20) produces 2.
    let s = start_page(pos(0, 0), 20, 4).unwrap();
    assert!(reads_line(&s, 0));
    let (s, from, to) = take_blocks(&s, 0, 10, 3);
    assert_eq!((from, to), (0, 3));
    assert_eq!(s.next_position, pos(10, 0));
    let s = blank_line(&s, 10, 11);
    assert_eq!(s.next_position, pos(11, 0));
    let (s, from, to) = take_blocks(&s, 11, 20, 2);
    assert_eq!((from, to), (0, 1));
    assert!(s.stopped);
    assert_eq!(s.taken, 4);
    let out = finish_page(&s, 20);
    assert_eq!(out.next_position, pos(11, 1));
    assert!(out.has_more);
    assert!(!out.is_tail);

    // The next page starts inside line [11,20) at its second item.
    let s = start_page(out.next_position, 20, 4).unwrap();
    assert!(!reads_line(&s, 0));
    let (s, from, to) = take_blocks(&s, 11, 20, 2);
    assert_eq!((from, to), (1, 2));
    let out = finish_page(&s, 20);
    assert_eq!(out.next_position, pos(20, 0));
    assert!(!out.has_more);
    assert!(out.is_tail);
}

#[test]
fn a_page_that_ends_exactly_full_is_not_stopped() {
    let s = start_page(pos(0, 0), 30, 2).unwrap();
    let (s, _, to) = take_blocks(&s, 0, 10, 2);
    assert_eq!(to, 2);
    assert!(!s.stopped);
    let out = finish_page(&s, 30);
    assert!(out.has_more);
    assert_eq!(out.next_position, pos(10, 0));
}

#[test]
fn detail_ranges_must_lie_inside_the_source() {
    assert!(check_detail_range(2, 5, 5).is_ok());
    for (start, end) in [(6, 5), (0, 6)] {
        match check_detail_range(start, end, 5) {
            Err(Error::Domain(m)) => assert_eq!(m, "content_ref_invalid: byte range outside source"),
            other => panic!("unexpected {other:?}"),
        }
    }
}

#[test]
fn detail_shows_a_content_block_or_the_whole_entry() {
    assert_eq!(detail_selection("assistant", 2), DetailSelection::ContentBlock(2));
    assert_eq!(detail_selection("tool_call", 0), DetailSelection::ContentBlock(0));
    assert_eq!(detail_selection("user", 3), DetailSelection::WholeEntry);
}

fn read_page(
    lines: &[(usize, usize, usize)],
    len: usize,
    cursor: CursorPosition,
    limit: usize,
) -> (Vec<(usize, usize)>, CursorPosition, bool) {
    let mut state = start_page(cursor, len, limit).unwrap();
    let mut items = Vec::new();
    for &(start, end, produced) in lines {
        if state.stopped {
            break;
        }
        if !reads_line(&state, start) {
            continue;
        }
        if produced == 0 {
            state = blank_line(&state, start, end);
            continue;
        }
        let (next, from, to) = take_blocks(&state, start, end, produced);
        items.extend((from..to).map(|k| (start, k)));
        state = next;
    }
    let out = finish_page(&state, len);
    (items, out.next_position, out.has_more)
}

#[test]
fn paging_through_a_source_yields_every_item_once_in_order() {
    let lines = [(0, 10, 3), (10, 11, 0), (11, 20, 2), (20, 25, 4), (25, 26, 0)];
    let all: Vec<(usize, usize)> = lines
        .iter()
        .flat_map(|&(start, _, produced)| (0..produced).map(move |k| (start, k)))
        .collect();
    for limit in 1..=10 {
        let mut seen = Vec::new();
        let mut cursor = pos(0, 0);
        for _ in 0..20 {
            let (items, next, has_more) = read_page(&lines, 26, cursor, limit);
            assert!(items.len() <= limit);
            seen.extend(items);
            cursor = next;
            if !has_more {
                break;
            }
        }
        assert_eq!(seen, all, "limit {limit}");
    }
}

#[test]
fn page_of_lines_reads_json_lines_and_resumes_exactly() {
    let text = "{\"n\":2}\n\n{\"n\":3}\r\n{\"n\":1}\n";
    let bytes = text.as_bytes().to_vec();
    let count = |d: &JsonDoc, _: usize, _: usize| d.value()["n"].as_u64().unwrap() as usize;
    let mut seen = Vec::new();
    let mut cursor = pos(0, 0);
    loop {
        let page = page_of_lines(&bytes, cursor, 2, count).unwrap();
        assert!(page.items.len() <= 2);
        seen.extend(page.items.iter().map(|&(s, _, k)| (s, k)));
        cursor = page.outcome.next_position;
        if !page.outcome.has_more {
            assert!(page.outcome.is_tail);
            break;
        }
    }
    assert_eq!(seen, vec![(0, 0), (0, 1), (9, 0), (9, 1), (9, 2), (18, 0)]);
}

#[test]
fn page_of_lines_reports_bad_cursors_and_bad_lines() {
    let count = |_: &JsonDoc, _: usize, _: usize| 1usize;
    match page_of_lines(&b"{}\n".to_vec(), pos(9, 0), 5, count) {
        Err(Error::Domain(m)) => assert_eq!(m, "cursor_invalid: offset 9 exceeds source length 3"),
        other => panic!("unexpected {other:?}"),
    }
    assert!(matches!(page_of_lines(&b"{}\nnot json\n".to_vec(), pos(0, 0), 5, count), Err(Error::Domain(_))));
    match page_of_lines(&vec![0xff, b'\n'], pos(0, 0), 5, count) {
        Err(Error::Domain(m)) => assert!(m.starts_with("pi jsonl source is not utf-8: ")),
        other => panic!("unexpected {other:?}"),
    }
    // At the end of the source the page is empty and is the tail.
    let page = page_of_lines(&b"{}\n".to_vec(), pos(3, 0), 5, count).unwrap();
    assert!(page.items.is_empty());
    assert!(!page.outcome.has_more);
    assert!(page.outcome.is_tail);
    assert_eq!(page.outcome.next_position, pos(3, 0));
    // A bad line after the page is full is never read.
    let page = page_of_lines(&b"{}\n{}\nnot json\n".to_vec(), pos(0, 0), 1, count).unwrap();
    assert_eq!(page.items.len(), 1);
    assert!(page.outcome.has_more);
}

#[test]
fn item_detail_shows_a_content_block_or_the_entry() {
    let line = "{\"message\":{\"content\":[\"a\",{\"b\":1}]}}\n";
    let bytes = line.as_bytes().to_vec();
    let d = item_detail(&bytes, 0, bytes.len(), "assistant", 1).unwrap();
    assert_eq!(d.text, "{\n  \"b\": 1\n}");
    assert_eq!(d.size_bytes, d.text.len());
    assert_eq!(item_detail(&bytes, 0, bytes.len(), "thinking", 7).unwrap().text, "null");
    assert!(item_detail(&bytes, 0, bytes.len(), "user", 0).unwrap().text.starts_with("{\n  \"message\""));
    assert!(matches!(item_detail(&bytes, 3, 2, "user", 0), Err(Error::Domain(m)) if m == "content_ref_invalid: byte range outside source"));
    // A content object with a key that looks like an index has no blocks.
    let obj = "{\"message\":{\"content\":{\"0\":\"x\"}}}".as_bytes().to_vec();
    assert_eq!(item_detail(&obj, 0, obj.len(), "assistant", 0).unwrap().text, "null");
}

#[test]
fn timeline_item_detail_pages_carry_their_binding_and_reference() {
    let line = "{\"message\":{\"content\":[\"a\"]}}\n";
    let bytes = line.as_bytes().to_vec();
    let p = PiJsonlParser::new()
        .timeline_item_detail(&bytes, 0, bytes.len(), "assistant", 0, "pi:/x".to_string(), "ref1".to_string())
        .unwrap();
    assert_eq!(p.text, "\"a\"");
    assert_eq!(p.size_bytes, 3);
    assert_eq!(p.content_type, "application/json");
    assert_eq!(p.binding_id, "pi:/x");
    assert_eq!(p.content_ref, "ref1");
    assert!(PiJsonlParser::new()
        .timeline_item_detail(&bytes, 5, 2, "user", 0, "b".to_string(), "r".to_string())
        .is_err());
}
