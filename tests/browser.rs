use std::collections::HashSet;
use transgender::browser::{self, get_height, Browser, Request};
use transgender::canvas;
use transgender::ops::{Mode, Op};

const TEST_HEIGHT: usize = 10;

fn names(prefix: &str, n: usize) -> Vec<String> {
    (0..n).map(|i| format!("{}-{}Q{}Z", prefix, i * 7 + 3, i)).collect()
}

// a directory holding some files f-... and some directories d-...
fn random_dirs_nfiles() -> (Vec<String>, Vec<String>) {
    (names("f", 6), names("d", 5))
}

fn listing(files: &[String], dirs: &[String]) -> Vec<String> {
    let mut v: Vec<String> = files.to_vec();
    v.extend(dirs.iter().cloned());
    v
}

fn browser_at(path: &str, entries: Vec<String>) -> Browser {
    browser::new(path, entries, get_height(TEST_HEIGHT))
}

#[test]
fn test_browser_init() {
    let tmp_dirs = ["ts-test-A1", "ts-test-B2", "ts-test-C3", "ts-test-D4"];
    let temp_dir = format!("/tmp/{}/{}/{}/{}", tmp_dirs[0], tmp_dirs[1], tmp_dirs[2], tmp_dirs[3]);
    let b = browser_at(&temp_dir, Vec::new());
    let past_dir = &b.past_dir;
    let depth = 4;
    assert_eq!(depth + 1, past_dir.len());
    let ans = vec!["", "tmp", tmp_dirs[0], tmp_dirs[1], tmp_dirs[2]];
    for i in 0..past_dir.len() {
        let name = past_dir[i].rsplit('/').next().unwrap();
        assert_eq!(ans[i], name);
    }
    assert_eq!(b.current_path, temp_dir);
}

#[test]
fn test_read_content() {
    let (files, dirs) = random_dirs_nfiles();
    let mut dirs_files: HashSet<String> = HashSet::new();
    for f in files.iter().chain(dirs.iter()) {
        dirs_files.insert(f.to_string());
    }
    let mut b = browser_at("/tmp/ts-test-root", Vec::new());
    b.read_content(listing(&files, &dirs));
    let mut dedup: HashSet<String> = HashSet::new();
    for c in b.content.iter() {
        if !dirs_files.contains(c) {
            panic!("incorrect content");
        }
        dedup.insert(c.clone());
    }
    assert_eq!(dedup.len(), dirs_files.len());
}

#[test]
fn test_get_preview() {
    let (files, dirs) = random_dirs_nfiles();
    let mut dirs_files: HashSet<String> = HashSet::new();
    for f in files.iter().chain(dirs.iter()) {
        dirs_files.insert(f.to_string());
    }
    let root_dir = "ts-test-root";
    let mut b = browser_at("/tmp", vec![String::from("a"), String::from(root_dir), String::from("z")]);
    let mut cur_pos = 0;
    for (i, cd) in b.content.iter().enumerate() {
        if cd == root_dir {
            cur_pos = i;
            break;
        }
    }
    b.set_cursor_pos_centered(cur_pos);
    assert_eq!(b.path_under_cursor(), Some(String::from("/tmp/ts-test-root")));
    b.set_preview(listing(&files, &dirs));
    let mut dedup: HashSet<String> = HashSet::new();
    for p in b.preview.iter() {
        if !dirs_files.contains(p) {
            panic!("incorrect preview");
        }
        dedup.insert(p.clone());
    }
    assert_eq!(dedup.len(), dirs_files.len());
}

#[test]
fn test_top() {
    let (files, dirs) = random_dirs_nfiles();
    let mut b = browser_at("/tmp/ts-test-root", listing(&files, &dirs));
    b.top();
    assert_eq!(b.cursor, 0);
    assert_eq!(b.window_start, 0);
}

#[test]
fn test_bottom() {
    let (files, dirs) = random_dirs_nfiles();
    let mut b = browser_at("/tmp/ts-test-root", listing(&files, &dirs));
    b.bottom();
    assert_eq!(b.cursor, b.content.len() - 1);
}

#[test]
fn test_up() {
    let (files, dirs) = random_dirs_nfiles();
    let mut b = browser_at("/tmp/ts-test-root", listing(&files, &dirs));
    b.bottom();
    let cur_pos1 = b.cursor;
    b.up();
    let cur_pos2 = b.cursor;
    assert_eq!(cur_pos1, cur_pos2 + 1);
}

#[test]
fn test_down() {
    let (files, dirs) = random_dirs_nfiles();
    let mut b = browser_at("/tmp/ts-test-root", listing(&files, &dirs));
    b.top();
    let cur_pos1 = b.cursor;
    b.down();
    let cur_pos2 = b.cursor;
    assert_eq!(cur_pos1 + 1, cur_pos2);
}

#[test]
fn test_left() {
    let (files, dirs) = random_dirs_nfiles();
    let root_dir = "ts-test-root";
    let target = &dirs[0];
    let mut b = browser_at(&format!("/tmp/{}/{}", root_dir, target), Vec::new());
    assert_eq!(b.parent_path(), Some(format!("/tmp/{}", root_dir)));
    b.left(listing(&files, &dirs));
    assert_eq!(b.current_path, format!("/tmp/{}", root_dir));
    assert_eq!(&b.content[b.cursor], target);
}

#[test]
fn test_right() {
    let (files, dirs) = random_dirs_nfiles();
    let root_dir = "ts-test-root";
    let target = &dirs[0];
    let mut b = browser_at(&format!("/tmp/{}", root_dir), listing(&files, &dirs));
    let mut found = None;
    for (i, dir) in b.content.iter().enumerate() {
        if dir == target {
            found = Some(i);
            break;
        }
    }
    b.set_cursor_pos_centered(found.unwrap());
    b.right(true, Vec::new());
    assert_eq!(b.current_path, format!("/tmp/{}/{}", root_dir, target));
}

#[test]
fn test_pageup() {
    let (files, dirs) = random_dirs_nfiles();
    let mut b = browser_at("/tmp/ts-test-root", listing(&files, &dirs));
    b.bottom();
    let cursor_pos1 = b.cursor;
    b.pageup();
    let cursor_pos2 = b.cursor;
    let half_page = get_height(TEST_HEIGHT) / 2;
    let expected = if cursor_pos1 < half_page { 0 } else { cursor_pos1 - half_page };
    assert_eq!(expected, cursor_pos2);
}

#[test]
fn test_pagedown() {
    let (files, dirs) = random_dirs_nfiles();
    let mut b = browser_at("/tmp/ts-test-root", listing(&files, &dirs));
    b.top();
    let cursor_pos1 = b.cursor;
    b.pagedown();
    let cursor_pos2 = b.cursor;
    let half_page = get_height(TEST_HEIGHT) / 2;
    let expected = if cursor_pos1 + half_page >= b.content.len() {
        b.content.len() - 1
    } else {
        cursor_pos1 + half_page
    };
    assert_eq!(expected, cursor_pos2);
}

// matching a complete filename
#[test]
fn test_search() {
    let (files, dirs) = random_dirs_nfiles();
    let f = files[3].clone();
    let mut b = browser_at("/tmp/ts-test-root", listing(&files, &dirs));
    let content = b.content.clone();
    let mut answer = content.len();
    for (i, c) in content.iter().enumerate() {
        if c == &f {
            answer = i;
            break;
        }
    }
    b.search_txt = f.chars().collect::<Vec<char>>();
    b.next_match(b.cursor, false);
    assert_eq!(b.cursor, answer);
}

#[test]
fn get_height_leaves_the_status_line() {
    assert_eq!(get_height(10), 9);
    assert_eq!(get_height(1), 0);
    assert_eq!(get_height(0), 0);
}

#[test]
fn sorting_ignores_case_and_keeps_all_entries() {
    let mut b = browser_at("/", Vec::new());
    b.read_content(vec![String::from("b"), String::from("A"), String::from("c")]);
    assert_eq!(b.content, vec!["A", "b", "c"]);
    b.read_content(vec![String::from("B"), String::from("a")]);
    assert_eq!(b.content, vec!["a", "B"]);
    let same: Vec<String> = ["b", "B", "a", "A"].iter().map(|s| s.to_string()).collect();
    b.read_content(same);
    assert_eq!(b.content, vec!["a", "A", "b", "B"]);
}

#[test]
fn up_moves_one_row_and_keeps_the_viewport() {
    let entries: Vec<String> = ["a", "b", "c", "d", "e"].iter().map(|s| s.to_string()).collect();
    let mut b = browser_at("/x", entries);
    b.cursor = 2;
    b.up();
    assert_eq!(b.cursor, 1);
    assert_eq!(b.window_start, 0);
    b.cursor = 3;
    b.window_start = 3;
    b.up();
    assert_eq!(b.cursor, 2);
    assert_eq!(b.window_start, 2);
}

#[test]
fn top_and_centering_are_idempotent() {
    let entries = names("e", 40);
    let mut b = browser_at("/x", entries);
    b.set_cursor_pos_centered(30);
    b.top();
    assert_eq!((b.cursor, b.window_start), (0, 0));
    b.top();
    assert_eq!((b.cursor, b.window_start), (0, 0));
    b.set_cursor_pos_centered(20);
    let first = b.window_start;
    b.set_cursor_pos_centered(20);
    assert_eq!(b.window_start, first);
    assert_eq!(first, 20 - 9 / 2);
    b.set_cursor_pos_centered(3);
    assert_eq!(b.window_start, 0);
}

#[test]
fn descend_then_ascend_comes_back_to_the_entry() {
    let parent: Vec<String> = ["alpha", "sub", "zeta", "Beta"].iter().map(|s| s.to_string()).collect();
    let mut b = browser_at("/home/user", parent.clone());
    b.set_cursor_pos_centered(2);
    assert_eq!(b.content[2], "sub");
    b.right(true, vec![String::from("inner")]);
    assert_eq!(b.current_path, "/home/user/sub");
    assert_eq!(b.cursor, 0);
    b.left(parent);
    assert_eq!(b.current_path, "/home/user");
    assert_eq!(b.cursor, 2);
    assert_eq!(b.content[b.cursor], "sub");
}

#[test]
fn ascend_from_a_fresh_start_finds_the_child() {
    let mut b = browser_at("/home/user/sub", Vec::new());
    let parent: Vec<String> = ["alpha", "Beta", "sub", "zeta"].iter().map(|s| s.to_string()).collect();
    b.left(parent);
    assert_eq!(b.current_path, "/home/user");
    assert_eq!(b.cursor, 2);
    b.left(vec![String::from("home")]);
    b.left(vec![String::from("x")]);
    assert_eq!(b.current_path, "/");
    assert_eq!(b.parent_path(), None);
    b.left(vec![String::from("y")]);
    assert_eq!(b.current_path, "/");
}

#[test]
fn descend_needs_a_directory() {
    let mut b = browser_at("/", vec![String::from("file")]);
    b.right(false, vec![String::from("x")]);
    assert_eq!(b.current_path, "/");
    b.right(true, vec![String::from("x")]);
    assert_eq!(b.current_path, "/file");
    assert_eq!(b.content, vec!["x"]);
}

#[test]
fn find_next_wraps_and_stays_without_match() {
    let entries: Vec<String> = ["apple", "banana", "cherry", "apricot"].iter().map(|s| s.to_string()).collect();
    let mut b = browser_at("/x", entries);
    // sorted: apple, apricot, banana, cherry
    b.search_txt = "^ap".chars().collect();
    b.next_match(2, false);
    assert_eq!(b.cursor, 0);
    b.next_match(1, false);
    assert_eq!(b.cursor, 1);
    b.next_match(3, true);
    assert_eq!(b.cursor, 1);
    b.search_txt = "nothing".chars().collect();
    b.next_match(3, false);
    assert_eq!(b.cursor, 1);
    // a pattern that does not compile matches nothing
    b.search_txt = "(ap".chars().collect();
    b.next_match(0, false);
    assert_eq!(b.cursor, 1);
    // case-insensitive by default, case-sensitive with \C
    b.search_txt = "CHERRY".chars().collect();
    b.next_match(0, false);
    assert_eq!(b.cursor, 3);
    b.search_txt = "BANANA\\C".chars().collect();
    b.next_match(0, false);
    assert_eq!(b.cursor, 3);
}

#[test]
fn history_keeps_the_last_submissions() {
    let mut b = browser_at("/x", Vec::new());
    for i in 0..257 {
        b.search_txt = format!("query{}", i).chars().collect();
        b.save_history();
    }
    assert_eq!(b.search_history.len(), 256);
    let first: Vec<char> = "query0".chars().collect();
    let second: Vec<char> = "query1".chars().collect();
    assert!(!b.search_history.contains(&first));
    assert_eq!(b.search_history[0], second);
    assert_eq!(b.search_history_index, 256);
    b.search_txt = Vec::new();
    b.save_history();
    assert_eq!(b.search_history.len(), 256);
}

#[test]
fn typing_a_search_and_committing_it() {
    let entries: Vec<String> = ["one", "two", "three"].iter().map(|s| s.to_string()).collect();
    let mut b = browser_at("/x", entries);
    let mut c = canvas::new("");
    assert_eq!(b.normal_op(Op::Search), Request::Stay);
    assert_eq!(b.mode, Mode::Search);
    b.search(&mut c, Some(vec!['t', 'w']), Op::Noop);
    assert_eq!(b.search_txt, vec!['t', 'w']);
    assert_eq!(b.input_cursor_pos, 2);
    // sorted: one, three, two
    assert_eq!(b.cursor, 2);
    b.search(&mut c, None, Op::Left);
    assert_eq!(b.input_cursor_pos, 1);
    b.search(&mut c, Some(vec!['h']), Op::Noop);
    assert_eq!(b.search_txt, vec!['t', 'h', 'w']);
    b.search(&mut c, Some(vec![127 as char]), Op::Noop);
    assert_eq!(b.search_txt, vec!['t', 'w']);
    assert_eq!(b.input_cursor_pos, 1);
    b.search(&mut c, Some(vec![10 as char]), Op::Noop);
    assert_eq!(b.mode, Mode::Normal);
    assert_eq!(b.search_history.len(), 1);
    assert_eq!(b.normal_op(Op::RevSearch), Request::Stay);
    b.search(&mut c, None, Op::Up);
    assert_eq!(b.search_txt, vec!['t', 'w']);
    b.search(&mut c, Some(vec![27 as char]), Op::Noop);
    assert_eq!(b.mode, Mode::Normal);
    assert!(b.search_txt.is_empty());
}

#[test]
fn normal_keys_make_requests() {
    let mut b = browser_at("/x", vec![String::from("a")]);
    assert_eq!(b.normal_op(Op::Left), Request::Ascend);
    assert_eq!(b.normal_op(Op::Right), Request::Descend);
    assert_eq!(b.normal_op(Op::Quit), Request::Quit);
    assert_eq!(b.normal_op(Op::Exit), Request::ExitCurDir);
    assert_eq!(b.normal_op(Op::ExitCursorO), Request::ExitCursorO);
    assert_eq!(b.normal_op(Op::ExitCursorEnter), Request::ExitCursorEnter);
    assert_eq!(b.normal_op(Op::Down), Request::Stay);
}

#[test]
fn canonical_paths() {
    assert!(browser::is_canonical("/"));
    assert!(browser::is_canonical("/tmp/a"));
    assert!(!browser::is_canonical("tmp"));
    assert!(!browser::is_canonical("/tmp/"));
    assert!(!browser::is_canonical("/tmp//a"));
    assert!(!browser::is_canonical(""));
}

#[test]
fn ancestors_follow_the_moves() {
    let mut b = browser_at("/a/b", vec![String::from("c")]);
    assert_eq!(b.past_dir, vec!["/", "/a"]);
    b.right(true, Vec::new());
    assert_eq!(b.current_path, "/a/b/c");
    assert_eq!(b.past_dir, vec!["/", "/a", "/a/b"]);
    b.left(vec![String::from("c")]);
    b.left(vec![String::from("b")]);
    assert_eq!(b.current_path, "/a");
    assert_eq!(b.past_dir, vec!["/"]);
    let mut r = browser_at("/", vec![String::from("etc")]);
    r.right(true, Vec::new());
    assert_eq!(r.current_path, "/etc");
    assert_eq!(r.past_dir, vec!["/"]);
}

#[test]
fn history_fills_from_a_partial_history() {
    let mut b = browser_at("/x", Vec::new());
    for i in 0..10 {
        b.search_txt = format!("old{}", i).chars().collect();
        b.save_history();
    }
    for i in 0..300 {
        b.search_txt = format!("new{}", i).chars().collect();
        b.save_history();
    }
    assert_eq!(b.search_history.len(), 256);
}

#[test]
fn bare_case_suffix_matches_every_entry() {
    let entries: Vec<String> = ["alpha", "beta", "gamma"].iter().map(|s| s.to_string()).collect();
    let mut b = browser_at("/x", entries);
    b.search_txt = "\\C".chars().collect();
    b.next_match(2, false);
    assert_eq!(b.cursor, 2);
    b.next_match(1, false);
    assert_eq!(b.cursor, 1);
}
