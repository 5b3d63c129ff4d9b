use transgender::browser::{self, Browser};
use transgender::canvas::{self, csi, Canvas};
use transgender::ops::Mode;

fn search_browser() -> Browser {
    browser::new("/", Vec::new(), 10)
}

#[test]
fn test_csi() {
    assert_eq!(csi("foo"), "\x1b[foo");
}

#[test]
fn test_new() {
    let canvas = canvas::new("trans");
    assert_eq!(canvas.height, 0);
    assert_eq!(canvas.width, 0);
    assert_eq!(canvas.pixels.is_empty(), true);
    // trans' highlight value
    assert_eq!(canvas.theme.highlight, "\x1b[0;37m");
    assert_eq!(canvas.utf8_table.table.len(), 65536);
    assert_eq!(canvas.bottom_start, 0);
    assert_eq!(canvas.add_algnmt, false);
}

#[test]
fn test_set() {
    let mut canvas = canvas::new("");
    let n = 23;
    canvas.width = n;
    canvas.height = n;
    canvas.pixels = vec![vec!['X'; n]; n];
    canvas.set(n / 2, n / 2, 'Y');
    assert_eq!(canvas.pixels[n / 2][n / 2], 'Y');
}

#[test]
fn test_reset_bottom_bar() {
    let mut canvas = canvas::new("");
    canvas.reset_bottom_bar();
    assert_eq!(canvas.bottom_start, 0);
    assert_eq!(canvas.add_algnmt, false);
}

#[test]
fn test_bottom_line_configure() {
    let texts = [
        "Ċ昃.鱁ᔡԝv6tղЈ液ϋxꖷA㣌₡i䔸긫qަ쬸쒽mUǦ裊[⿇::žҟ掕",
        "汉皇重色思倾国，御宇多年求不得。杨家有女初长成，养在深闺人未识。
             天生丽质难自弃，一朝选在君王侧。回眸一笑百媚生，六宫粉黛无颜色。
             春寒赐浴华清池，温泉水滑洗凝脂。侍儿扶起娇无力，始是新承恩泽时。
             云鬓花颜金步摇，芙蓉帐暖度春宵。春宵苦短日高起，从此君王不早朝。
             承欢侍宴无闲暇，春从春游夜专夜。后宫佳丽三千人，三千宠爱在一身。
             金屋妆成娇侍夜，玉楼宴罢醉和春。姊妹弟兄皆列土，可怜光彩生门户。
             遂令天下父母心，不重生男重生女。骊宫高处入青云，仙乐风飘处处闻。
             缓歌慢舞凝丝竹，尽日君王看不足。渔阳鼙鼓动地来，惊破霓裳羽衣曲。",
        "And all the graven images thereof shall be$ beaten to pieces, and all the hires thereof
             shall be burned with the fire, and all the idols thereof will I lay desolate: for she
             gathered it of the hire of an harlot, and they shall return to the hire of an harlot.",
    ];
    let texts_configured = [
        "/ᔡԝv6tղЈ液ϋxꖷA㣌₡i䔸긫qަ쬸쒽mUǦ裊[⿇::žҟ",
        "/思倾国，御宇多年求不得。杨家有女初长成",
        "/all the graven images thereof shall be$",
    ];
    let texts_configured_rev = [
        "?ᔡԝv6tղЈ液ϋxꖷA㣌₡i䔸긫qަ쬸쒽mUǦ裊[⿇::žҟ",
        "?思倾国，御宇多年求不得。杨家有女初长成",
        "?all the graven images thereof shall be$",
    ];
    let mut canvas = canvas::new("");
    let width = 40;
    canvas.width = width;
    canvas.bottom_start = 4;
    let mut browser = search_browser();
    browser.mode = Mode::Search;
    browser.input_cursor_pos = canvas.bottom_start;
    let mut i = 0;
    for st in texts.iter() {
        browser.search_txt = st.chars().collect::<Vec<char>>();
        let bottom_line_str = canvas.bottom_line_configure(&browser);
        assert_eq!(bottom_line_str, texts_configured[i]);
        i += 1;
    }
    // reverse search
    browser.mode = Mode::RevSearch;
    browser.input_cursor_pos = canvas.bottom_start;
    i = 0;
    for st in texts.iter() {
        browser.search_txt = st.chars().collect::<Vec<char>>();
        let bottom_line_str = canvas.bottom_line_configure(&browser);
        assert_eq!(bottom_line_str, texts_configured_rev[i]);
        i += 1;
    }
}

#[test]
fn test_line_get_utf8_len() {
    let canvas = canvas::new("");
    assert_eq!(canvas.get_utf8_len('𰻝'), 2);
    assert_eq!(canvas.get_utf8_len('ぎ'), 2);
    assert_eq!(canvas.get_utf8_len(')'), 1);
}

#[test]
fn test_clear_pixels() {
    let mut canvas = canvas::new("");
    let n = 10;
    let v = vec![vec![' '; n]; n];
    canvas.pixels = v.clone();
    canvas.pixels[0][0] = '&';
    canvas.pixels[n - 1][n - 1] = '^';
    canvas.height = n;
    canvas.width = n;
    canvas.clear_pixels();
    assert_eq!(canvas.pixels, v);
}

#[test]
fn test_check_insert_highlight() {
    let canvas = canvas::new("");

    let mut string_to_draw = String::new();
    // cursor is on it, regular file
    canvas.check_insert_highlight(&mut string_to_draw, 0, 0, 0, false);
    assert_eq!(
        string_to_draw,
        format!("{}{}", canvas.theme.highlight, canvas.theme.highlight_background)
    );

    // cursor is not on it, regular file
    string_to_draw = String::new();
    canvas.check_insert_highlight(&mut string_to_draw, 0, 0, 1, false);
    assert_eq!(
        string_to_draw,
        format!("{}{}", canvas.theme.normal, canvas.theme.normal_background)
    );

    // cursor is on it, directory
    string_to_draw = String::new();
    canvas.check_insert_highlight(&mut string_to_draw, 0, 0, 0, true);
    assert_eq!(
        string_to_draw,
        format!(
            "{}{}{}",
            canvas.theme.highlight, canvas.theme.highlight_background, canvas.theme.highlight_dir
        )
    );

    // cursor is not on it, directory
    string_to_draw = String::new();
    canvas.check_insert_highlight(&mut string_to_draw, 0, 0, 1, true);
    assert_eq!(
        string_to_draw,
        format!(
            "{}{}{}",
            canvas.theme.normal, canvas.theme.normal_background, canvas.theme.highlight_dir
        )
    );
}

fn bar(canvas: &Canvas) -> String {
    format!(
        "{}{}{}{}{}{}{}",
        &csi("0H"),
        &csi("0K"),
        canvas.theme.bottom_bar,
        canvas.theme.bottom_bar_background,
        (0..canvas.width).map(|_| " ").collect::<String>(),
        &csi("0H"),
        &csi("0K"),
    )
}

#[test]
fn test_draw_bottom_line() {
    let mut canvas = canvas::new("");
    // in normal mode, print current path
    let mut str_to_draw = String::new();
    let current_path = "dummy_path";
    let mut browser = search_browser();
    browser.mode = Mode::Normal;
    browser.current_path = String::from(current_path);
    browser.search_txt = Vec::new();
    browser.input_cursor_pos = 0;
    canvas.width = current_path.chars().count();
    canvas.draw_bottom_line(&mut str_to_draw, &browser);
    assert_eq!(str_to_draw, format!("{}{}", bar(&canvas), current_path));
    // cropped
    let to_crop = 2;
    str_to_draw = String::new();
    canvas.width -= to_crop;
    browser.mode = Mode::Normal;
    browser.current_path = String::from(current_path);
    browser.search_txt = Vec::new();
    browser.input_cursor_pos = 0;
    canvas.draw_bottom_line(&mut str_to_draw, &browser);
    assert_eq!(
        str_to_draw,
        format!(
            "{}{}",
            bar(&canvas),
            current_path.chars().take(current_path.len() - to_crop).collect::<String>()
        )
    );
    // search no crop
    str_to_draw = String::new();
    let text = "foobar";
    let search_txt = text.chars().collect::<Vec<char>>();
    canvas.width = search_txt.len() + 3;
    let cursor_pos = search_txt.len() / 2;
    browser.mode = Mode::Search;
    browser.current_path = String::from(current_path);
    browser.search_txt = search_txt.clone();
    browser.input_cursor_pos = cursor_pos;
    canvas.draw_bottom_line(&mut str_to_draw, &browser);
    assert_eq!(
        str_to_draw,
        format!(
            "{}/{}{}{}",
            bar(&canvas),
            text,
            &csi("?25h"),
            &csi(&format!(
                "0;{}H",
                search_txt.len() / 2 + 2 + if canvas.add_algnmt { 1 } else { 0 }
            ))
        )
    );
    // search cropped
    canvas.reset_bottom_bar();
    str_to_draw = String::new();
    let text = "foobarfoobar";
    let search_txt = text.chars().collect::<Vec<char>>();
    let cursor_pos = 0;
    canvas.width = search_txt.len() / 2;
    browser.mode = Mode::Search;
    browser.search_txt = search_txt.clone();
    browser.input_cursor_pos = cursor_pos;
    canvas.draw_bottom_line(&mut str_to_draw, &browser);
    assert_eq!(
        str_to_draw,
        format!(
            "{}/{}{}{}",
            bar(&canvas),
            text.chars()
                .take(canvas.width - (1 + if canvas.add_algnmt { 1 } else { 0 }))
                .collect::<String>(),
            &csi("?25h"),
            &csi(&format!(
                "0;{}H",
                cursor_pos + 2 + if canvas.add_algnmt { 1 } else { 0 }
            ))
        )
    );
    // search cropped and non-zero cursor placement
    canvas.reset_bottom_bar();
    str_to_draw = String::new();
    let text = "foobarfoobar";
    let search_txt = text.chars().collect::<Vec<char>>();
    let cursor_pos = search_txt.len() - 2; // on the 'a'
    canvas.width = search_txt.len() / 2;
    browser.mode = Mode::Search;
    browser.search_txt = search_txt.clone();
    browser.input_cursor_pos = cursor_pos;
    canvas.draw_bottom_line(&mut str_to_draw, &browser);
    assert_eq!(
        str_to_draw,
        format!(
            "{}/{}{}{}",
            bar(&canvas),
            "fooba",
            &csi("?25h"),
            &csi(&format!("0;{}H", canvas.width))
        )
    );
    // search cropped and non-zero cursor placement and UTF8 character
    canvas.reset_bottom_bar();
    str_to_draw = String::new();
    let text = "从此君王不早朝aaab";
    let search_txt = text.chars().collect::<Vec<char>>();
    let cursor_pos = search_txt.len();
    canvas.width = 18;
    browser.mode = Mode::Search;
    browser.search_txt = search_txt.clone();
    browser.input_cursor_pos = cursor_pos;
    canvas.draw_bottom_line(&mut str_to_draw, &browser);
    assert_eq!(
        str_to_draw,
        format!(
            "{}/{}{}{}",
            bar(&canvas),
            "此君王不早朝aaab",
            &csi("?25h"),
            &csi(&format!("0;{}H", canvas.width))
        )
    );
    // search cropped and non-zero cursor placement and UTF8 character and alignment '>'
    canvas.reset_bottom_bar();
    str_to_draw = String::new();
    let text = "从此君王不早朝aaab";
    let search_txt = text.chars().collect::<Vec<char>>();
    let cursor_pos = search_txt.len();
    canvas.width = 19;
    browser.mode = Mode::Search;
    browser.search_txt = search_txt.clone();
    browser.input_cursor_pos = cursor_pos;
    canvas.draw_bottom_line(&mut str_to_draw, &browser);
    assert_eq!(
        str_to_draw,
        format!(
            "{}/{}{}{}",
            bar(&canvas),
            ">此君王不早朝aaab",
            &csi("?25h"),
            &csi(&format!("0;{}H", canvas.width))
        )
    );
    // reverse search/slash
    canvas.reset_bottom_bar();
    str_to_draw = String::new();
    let text = "从此君王不早朝aaab";
    let search_txt = text.chars().collect::<Vec<char>>();
    let cursor_pos = search_txt.len();
    canvas.width = 18;
    browser.mode = Mode::RevSearch;
    browser.search_txt = search_txt.clone();
    browser.input_cursor_pos = cursor_pos;
    canvas.draw_bottom_line(&mut str_to_draw, &browser);
    assert_eq!(
        str_to_draw,
        format!(
            "{}?{}{}{}",
            bar(&canvas),
            "此君王不早朝aaab",
            &csi("?25h"),
            &csi(&format!("0;{}H", canvas.width))
        )
    );
}

#[test]
fn status_line_scrolls_to_the_cursor() {
    let mut canvas = canvas::new("");
    canvas.width = 19;
    let mut browser = search_browser();
    browser.mode = Mode::Search;
    browser.search_txt = "abcdefghijklmnopqrst".chars().collect();
    browser.input_cursor_pos = 19;
    let line = canvas.bottom_line_configure(&browser);
    assert_eq!(canvas.bottom_start, 2);
    assert_eq!(line, "/cdefghijklmnopqrst");
    assert!(!canvas.add_algnmt);
}

#[test]
fn pane_rows_fill_their_columns() {
    let mut canvas = canvas::new("lucius");
    canvas.resize(2, 10);
    let mut browser = search_browser();
    browser.content = vec![String::from("ab\u{301}c"), String::from("冬川や")];
    browser.cursor = 1;
    browser.current_path = String::from("/p");
    let out = canvas.draw(&browser, &vec![], &vec![]);
    // listing pane of 6 columns: a combining mark takes a cell but no column,
    // and a space makes up for it; a wide character one column short of
    // fitting is replaced by a space.
    assert!(out.contains("ab\u{301}c   "));
    assert!(out.contains("冬川や"));
    assert!(out.contains("\u{1b}[2H\u{1b}[0K"));
}
