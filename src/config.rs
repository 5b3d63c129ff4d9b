//! The configuration text: `key = value` lines that name the colour theme and
//! the programs that open files.
use vstd::prelude::*;
use crate::ops::Op;
use crate::text::{chars_of, lower_of, lowercase, string_of};

verus! {

/// The pieces of `s` between the occurrences of `c`, as `str::split` gives
/// them: one piece more than there are separators.
pub open spec fn split_on(s: Seq<char>, c: char) -> Seq<Seq<char>>
    decreases s.len(),
{
    if s.len() == 0 {
        seq![Seq::empty()]
    } else {
        let init = split_on(s.drop_last(), c);
        if s.last() == c {
            init.push(Seq::empty())
        } else {
            init.update(init.len() - 1, init.last().push(s.last()))
        }
    }
}

proof fn lemma_split_on_len(s: Seq<char>, c: char)
    ensures
        split_on(s, c).len() >= 1,
    decreases s.len(),
{
    if s.len() > 0 {
        lemma_split_on_len(s.drop_last(), c);
    }
}

/// Whether `c` has the Unicode `White_Space` property, as
/// `char::is_whitespace` tests it.
pub open spec fn is_white_space(c: char) -> bool {
    let v = c as u32;
    (0x9 <= v <= 0xD) || v == 0x20 || v == 0x85 || v == 0xA0 || v == 0x1680 || (0x2000 <= v
        <= 0x200A) || v == 0x2028 || v == 0x2029 || v == 0x202F || v == 0x205F || v == 0x3000
}

/// `s` without its leading white space.
pub open spec fn trim_start_of(s: Seq<char>) -> Seq<char>
    decreases s.len(),
{
    if s.len() > 0 && is_white_space(s[0]) {
        trim_start_of(s.drop_first())
    } else {
        s
    }
}

/// `s` without its trailing white space.
pub open spec fn trim_end_of(s: Seq<char>) -> Seq<char>
    decreases s.len(),
{
    if s.len() > 0 && is_white_space(s.last()) {
        trim_end_of(s.drop_last())
    } else {
        s
    }
}

/// `s` without its leading and trailing white space.
pub open spec fn trim_of(s: Seq<char>) -> Seq<char> {
    trim_end_of(trim_start_of(s))
}

/// Relies on `str::trim`: the string without leading and trailing white
/// space (`char::is_whitespace`).
#[verifier::external_body]
fn trim(s: &str) -> (r: String)
    ensures
        r@ == trim_of(s@),
{
    s.trim().to_string()
}

/// The pieces of `s` between the occurrences of `c`.
pub fn split(s: &Vec<char>, c: char) -> (r: Vec<Vec<char>>)
    ensures
        r@.map_values(|v: Vec<char>| v@) == split_on(s@, c),
{
    let mut pieces: Vec<Vec<char>> = Vec::new();
    let mut cur: Vec<char> = Vec::new();
    let mut i: usize = 0;
    assert(s@.subrange(0, 0) =~= Seq::<char>::empty());
    assert(pieces@.map_values(|v: Vec<char>| v@).push(cur@) =~= split_on(Seq::<char>::empty(), c));
    while i < s.len()
        invariant
            i <= s.len(),
            pieces@.map_values(|v: Vec<char>| v@).push(cur@) == split_on(s@.subrange(0, i as int), c),
        decreases s.len() - i,
    {
        let ghost before = pieces@.map_values(|v: Vec<char>| v@).push(cur@);
        assert(s@.subrange(0, i + 1).drop_last() =~= s@.subrange(0, i as int));
        if s[i] == c {
            pieces.push(cur);
            cur = Vec::new();
            assert(pieces@.map_values(|v: Vec<char>| v@).push(cur@) =~= before.push(Seq::empty()));
        } else {
            cur.push(s[i]);
            assert(pieces@.map_values(|v: Vec<char>| v@).push(cur@) =~= before.update(
                before.len() - 1,
                before.last().push(s@[i as int]),
            ));
        }
        i = i + 1;
    }
    assert(s@.subrange(0, s.len() as int) =~= s@);
    pieces.push(cur);
    pieces
}

/// The key of a `key = value` line, or of any text: trimmed and lowercase.
pub open spec fn key_of(s: Seq<char>) -> Seq<char> {
    lower_of(trim_of(s))
}

/// The theme that configuration lines `lines` name: the value, trimmed and
/// lowercase, of the first line of two `=`-separated parts whose key is
/// "theme"; empty where none is.
pub open spec fn config_theme(lines: Seq<Seq<char>>) -> Seq<char>
    decreases lines.len(),
{
    if lines.len() == 0 {
        Seq::empty()
    } else {
        let kv = split_on(lines[0], '=');
        if kv.len() == 2 && key_of(kv[0]) == "theme"@ {
            key_of(kv[1])
        } else {
            config_theme(lines.drop_first())
        }
    }
}

/// A command line: its first space-separated word and the others.
pub open spec fn command_of(value: Seq<char>) -> (Seq<char>, Seq<Seq<char>>) {
    let parts = split_on(trim_of(value), ' ');
    (parts[0], parts.drop_first())
}

/// The opener that configuration lines `lines` give, starting from `comm`
/// with `args`: the first line whose key is `key` decides; before it, each
/// `editor` or `open` line replaces the command.
pub open spec fn config_opener(
    lines: Seq<Seq<char>>,
    key: Option<Seq<char>>,
    comm: Seq<char>,
    args: Option<Seq<Seq<char>>>,
) -> (Seq<char>, Option<Seq<Seq<char>>>)
    decreases lines.len(),
{
    if lines.len() == 0 {
        (comm, args)
    } else {
        let kv = split_on(lines[0], '=');
        let rest = lines.drop_first();
        if kv.len() != 2 {
            config_opener(rest, key, comm, args)
        } else if key is Some && key_of(kv[0]) == key->0 {
            (command_of(kv[1]).0, Some(command_of(kv[1]).1))
        } else if key_of(kv[0]) == "editor"@ || key_of(kv[0]) == "open"@ {
            config_opener(rest, key, command_of(kv[1]).0, Some(command_of(kv[1]).1))
        } else {
            config_opener(rest, key, comm, args)
        }
    }
}

/// The configuration key of the opener for `op`.
pub open spec fn opener_key(op: Op) -> Option<Seq<char>> {
    match op {
        Op::ExitCursorO => Some("o"@),
        Op::ExitCursorEnter => Some("enter"@),
        _ => None,
    }
}

/// The key of `s`, as a string.
fn key_string(s: &Vec<char>) -> (r: String)
    ensures
        r@ == key_of(s@),
{
    let t = trim(string_of(s.as_slice()).as_str());
    lowercase(t.as_str())
}

/// The theme that configuration text `text` names, or an empty string.
pub fn get_theme(text: &str) -> (r: String)
    ensures
        r@ == config_theme(split_on(text@, '\n')),
{
    let lines = split(&chars_of(text), '\n');
    let ghost ls = lines@.map_values(|v: Vec<char>| v@);
    let theme_key = String::from_str("theme");
    let mut i: usize = 0;
    assert(ls.subrange(0, ls.len() as int) =~= ls);
    while i < lines.len()
        invariant
            i <= lines.len(),
            ls == lines@.map_values(|v: Vec<char>| v@),
            ls == split_on(text@, '\n'),
            theme_key@ == "theme"@,
            config_theme(ls) == config_theme(ls.subrange(i as int, ls.len() as int)),
        decreases lines.len() - i,
    {
        assert(ls.subrange(i as int, ls.len() as int).drop_first() =~= ls.subrange(i + 1, ls.len() as int));
        assert(ls[i as int] == lines[i as int]@);
        let kv = split(&lines[i], '=');
        proof {
            let kvs = kv@.map_values(|v: Vec<char>| v@);
            if kv.len() == 2 {
                assert(kvs[0] == kv[0]@ && kvs[1] == kv[1]@);
            }
        }
        if kv.len() == 2 {
            let key = key_string(&kv[0]);
            if key.eq(&theme_key) {
                return key_string(&kv[1]);
            }
        }
        i = i + 1;
    }
    String::new()
}

/// The command of `value`: its first word and the others.
fn command(value: &Vec<char>) -> (r: (String, Vec<String>))
    ensures
        r.0@ == command_of(value@).0,
        r.1@.map_values(|a: String| a@) == command_of(value@).1,
{
    let t = chars_of(trim(string_of(value.as_slice()).as_str()).as_str());
    let parts = split(&t, ' ');
    proof {
        lemma_split_on_len(t@, ' ');
    }
    let comm = string_of(parts[0].as_slice());
    assert(parts@.map_values(|v: Vec<char>| v@)[0] == parts[0]@);
    let mut args: Vec<String> = Vec::new();
    let mut k: usize = 1;
    while k < parts.len()
        invariant
            1 <= k <= parts.len(),
            parts@.map_values(|v: Vec<char>| v@) == split_on(t@, ' '),
            args@.map_values(|a: String| a@) == parts@.map_values(|v: Vec<char>| v@).subrange(1, k as int),
        decreases parts.len() - k,
    {
        let ghost pm = parts@.map_values(|v: Vec<char>| v@);
        let ghost before = args@;
        let a = string_of(parts[k].as_slice());
        args.push(a);
        assert(pm[k as int] == parts[k as int]@);
        assert(args@ == before.push(a));
        assert(before.map_values(|a: String| a@) == pm.subrange(1, k as int));
        assert(args@.map_values(|a: String| a@) =~= before.map_values(|a: String| a@).push(a@));
        assert(pm.subrange(1, k + 1) =~= pm.subrange(1, k as int).push(pm[k as int]));
        k = k + 1;
    }
    assert(parts@.map_values(|v: Vec<char>| v@).subrange(1, parts.len() as int) =~= parts@.map_values(
        |v: Vec<char>| v@,
    ).drop_first());
    (comm, args)
}

/// The view of an opener's arguments.
pub open spec fn args_view(a: Option<Vec<String>>) -> Option<Seq<Seq<char>>> {
    match a {
        Some(v) => Some(v@.map_values(|s: String| s@)),
        None => None,
    }
}

/// The opener command and its arguments for key `op` that configuration text
/// `text` gives: the line of that key, else the last `editor` or `open` line,
/// else "vi" with no arguments.
pub fn get_opener(op: Op, text: &str) -> (r: (String, Option<Vec<String>>))
    ensures
        (r.0@, args_view(r.1)) == config_opener(split_on(text@, '\n'), opener_key(op), "vi"@, None),
{
    let key: Option<String> = match op {
        Op::ExitCursorO => Some(String::from_str("o")),
        Op::ExitCursorEnter => Some(String::from_str("enter")),
        _ => None,
    };
    let editor_key = String::from_str("editor");
    let opener_key_s = String::from_str("open");
    let lines = split(&chars_of(text), '\n');
    let ghost ls = lines@.map_values(|v: Vec<char>| v@);
    let ghost want = config_opener(ls, opener_key(op), "vi"@, None);
    let mut comm = String::from_str("vi");
    let mut args: Option<Vec<String>> = None;
    let mut i: usize = 0;
    assert(ls.subrange(0, ls.len() as int) =~= ls);
    while i < lines.len()
        invariant
            i <= lines.len(),
            ls == lines@.map_values(|v: Vec<char>| v@),
            ls == split_on(text@, '\n'),
            want == config_opener(split_on(text@, '\n'), opener_key(op), "vi"@, None),
            editor_key@ == "editor"@,
            opener_key_s@ == "open"@,
            match key {
                Some(k) => opener_key(op) == Some(k@),
                None => opener_key(op) is None,
            },
            want == config_opener(ls.subrange(i as int, ls.len() as int), opener_key(op), comm@, args_view(args)),
        decreases lines.len() - i,
    {
        assert(ls.subrange(i as int, ls.len() as int).drop_first() =~= ls.subrange(i + 1, ls.len() as int));
        assert(ls[i as int] == lines[i as int]@);
        let kv = split(&lines[i], '=');
        proof {
            let kvs = kv@.map_values(|v: Vec<char>| v@);
            if kv.len() == 2 {
                assert(kvs[0] == kv[0]@ && kvs[1] == kv[1]@);
            }
        }
        if kv.len() == 2 {
            let name = key_string(&kv[0]);
            let hit = match &key {
                Some(k) => name.eq(k),
                None => false,
            };
            if hit {
                let (c, a) = command(&kv[1]);
                return (c, Some(a));
            }
            if name.eq(&editor_key) || name.eq(&opener_key_s) {
                let (c, a) = command(&kv[1]);
                comm = c;
                args = Some(a);
            }
        }
        i = i + 1;
    }
    (comm, args)
}

} // verus!
