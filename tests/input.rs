use transgender::input::{classify_input, parse_utf8, process_input};
use transgender::ops::Op;
use transgender::pattern::{compile_pattern, first_hit, UsizeIter};

#[test]
fn test_parse_utf8() {
    let raw: [u8; 4] = [232, 145, 137, 232];
    let (cs, trunc) = parse_utf8(&raw, &Vec::new());
    assert_eq!(cs, ['葉']);
    assert_eq!(trunc, [232]);
}

#[test]
fn parse_utf8_carries_bytes_over() {
    let (cs, trunc) = parse_utf8(&[145, 137, b'a', 0, b'b'], &vec![232]);
    assert_eq!(cs, ['葉', 'a']);
    assert!(trunc.is_empty());
    let (cs, _) = parse_utf8(&[0xFF, b'x'], &Vec::new());
    assert_eq!(cs, ['\u{FFFD}', 'x']);
}

#[test]
fn keys_decode_to_operations() {
    assert_eq!(process_input(&vec![]), None);
    assert_eq!(process_input(&vec![27]), None);
    assert_eq!(process_input(&vec![27, 91]), None);
    assert_eq!(process_input(&vec![27, 91, 65]), Some(Op::Up));
    assert_eq!(process_input(&vec![27, 91, 68]), Some(Op::Left));
    assert_eq!(process_input(&vec![27, 1]), Some(Op::Noop));
    assert_eq!(process_input(&vec![4]), Some(Op::PageDown));
    assert_eq!(process_input(&vec![21]), Some(Op::PageUp));
    assert_eq!(process_input(&vec![103]), None);
    assert_eq!(process_input(&vec![103, 103]), Some(Op::Top));
    assert_eq!(process_input(&vec![103, 106]), Some(Op::Down));
    assert_eq!(process_input(&vec![b'q']), Some(Op::Quit));
    assert_eq!(process_input(&vec![b'/']), Some(Op::Search));
    assert_eq!(process_input(&vec![b'N']), Some(Op::PrevMatch));
    assert_eq!(process_input(&vec![b'x']), Some(Op::Noop));
}

#[test]
fn arrows_while_searching() {
    assert_eq!(classify_input(vec![]), (None, Op::Noop));
    assert_eq!(classify_input(vec!['\u{1b}', '[', 'B']), (None, Op::Down));
    assert_eq!(classify_input(vec!['a', 'b']), (Some(vec!['a', 'b']), Op::Noop));
}

#[test]
fn case_suffix_of_search_text() {
    let t: Vec<char> = "foo\\C".chars().collect();
    assert_eq!(compile_pattern(&t), (String::from("foo"), false));
    let t: Vec<char> = "foo\\\\C".chars().collect();
    assert_eq!(compile_pattern(&t), (String::from("foo\\\\C"), true));
    let t: Vec<char> = "foo\\\\\\C".chars().collect();
    assert_eq!(compile_pattern(&t), (String::from("foo\\\\"), false));
    let t: Vec<char> = "\\C".chars().collect();
    assert_eq!(compile_pattern(&t), (String::new(), false));
    let t: Vec<char> = "\\\\C".chars().collect();
    assert_eq!(compile_pattern(&t), (String::from("\\\\C"), true));
}

#[test]
fn scan_order_wraps_once() {
    let hits = vec![true, false, false, true, false];
    assert_eq!(first_hit(&hits, 1, false), Some(3));
    assert_eq!(first_hit(&hits, 4, false), Some(0));
    assert_eq!(first_hit(&hits, 2, true), Some(0));
    assert_eq!(first_hit(&hits, 0, true), Some(0));
    assert_eq!(first_hit(&hits, 1, true), Some(0));
    assert_eq!(first_hit(&vec![false, false], 1, true), None);
    assert_eq!(first_hit(&vec![false, true, false], 2, true), Some(1));
}

#[test]
fn row_runs_in_both_directions() {
    let mut up = UsizeIter::Forward { next: 2, end: 5 };
    let mut seen = Vec::new();
    while let Some(i) = up.next() {
        seen.push(i);
    }
    assert_eq!(seen, [2, 3, 4]);
    let mut down = UsizeIter::Backward { next: 3, end: 0 };
    seen.clear();
    while let Some(i) = down.next() {
        seen.push(i);
    }
    assert_eq!(seen, [2, 1, 0]);
    assert_eq!(UsizeIter::Forward { next: 4, end: 4 }.next(), None);
}
