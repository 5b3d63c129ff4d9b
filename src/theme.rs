//! Colour themes: the built-in table and the selection of one by name.
use vstd::prelude::*;

verus! {

/// Number of colours that a theme entry holds.
pub const THEME_COLOR_NUM: usize = 7;

/// The escape sequences that colour each part of the screen.
pub struct Theme {
    /// Highlighted filename when selected
    pub highlight: String,
    /// Highlighted directory name
    pub highlight_dir: String,
    /// Highlight block background
    pub highlight_background: String,
    /// Normal entry names
    pub normal: String,
    /// Background of everything
    pub normal_background: String,
    /// Bottom bar text; may be empty
    pub bottom_bar: String,
    /// Bottom bar background; may be empty
    pub bottom_bar_background: String,
}

/// The built-in themes: each a name and its seven colours, in the order of the
/// fields of `Theme`.
pub open spec fn builtin_themes() -> Seq<(Seq<char>, Seq<Seq<char>>)> {
    seq![
        ("trans"@, seq!["\x1b[0;37m"@, "\x1b[38;5;175m"@, "\x1b[48;5;24m"@, "\x1b[0;37m"@, "\x1b[48;5;31m"@, "\x1b[38;5;0m"@, "\x1b[48;5;175m"@]),
        ("dark"@, seq!["\x1b[38;5;0m"@, "\x1b[38;5;27m"@, "\x1b[48;5;255m"@, "\x1b[38;5;255m"@, "\x1b[48;5;0m"@, ""@, ""@]),
        ("lucius"@, seq!["\x1b[38;5;187m"@, "\x1b[38;5;117m"@, "\x1b[48;5;238m"@, "\x1b[38;5;188m"@, "\x1b[48;5;236m"@, "\x1b[38;5;188m"@, "\x1b[48;5;238m"@]),
        ("acme"@, seq!["\x1b[38;5;233m"@, "\x1b[38;5;39m"@, "\x1b[48;5;186m"@, "\x1b[38;5;233m"@, "\x1b[48;5;230m"@, "\x1b[38;5;233m"@, "\x1b[48;5;195m"@]),
        ("sakura"@, seq!["\x1b[38;5;253m"@, "\x1b[38;5;52m"@, "\x1b[48;5;175m"@, "\x1b[38;5;253m"@, "\x1b[48;5;168m"@, "\x1b[38;5;52m"@, "\x1b[48;5;175m"@]),
        ("vscode"@, seq!["\x1b[38;5;176m"@, "\x1b[38;5;43m"@, "\x1b[48;5;236m"@, "\x1b[38;5;75m"@, "\x1b[48;5;235m"@, "\x1b[38;5;117m"@, "\x1b[48;5;236m"@]),
        ("jesus"@, seq!["\x1b[38;5;94m"@, "\x1b[38;5;236m"@, "\x1b[48;5;180m"@, "\x1b[38;5;187m"@, "\x1b[48;5;137m"@, "\x1b[38;5;236m"@, "\x1b[48;5;180m"@]),
        ("catppuccin"@, seq!["\x1b[38;2;238;212;159m"@, "\x1b[38;2;245;169;127m"@, "\x1b[48;2;48;51;71m"@, "\x1b[38;2;138;173;244m"@, "\x1b[48;2;36;39;58m"@, "\x1b[38;2;128;135;162m"@, "\x1b[48;2;54;58;79m"@]),
        ("lucius-l"@, seq!["\x1b[38;5;130m"@, "\x1b[38;5;25m"@, "\x1b[48;5;253m"@, "\x1b[38;5;238m"@, "\x1b[48;5;255m"@, "\x1b[38;5;255m"@, "\x1b[48;5;244m"@]),
    ]
}

/// Index of the first entry of `t` named `name`, or `t.len()` where none is.
pub open spec fn find_theme(t: Seq<(Seq<char>, Seq<Seq<char>>)>, name: Seq<char>) -> int
    decreases t.len(),
{
    if t.len() == 0 {
        0
    } else if t[0].0 == name {
        0
    } else {
        1 + find_theme(t.drop_first(), name)
    }
}

/// Index of the theme chosen for `name`: the first entry of that name, or
/// else the first named "lucius".
pub open spec fn theme_index(name: Seq<char>) -> int {
    let i = find_theme(builtin_themes(), name);
    if i < builtin_themes().len() {
        i
    } else {
        find_theme(builtin_themes(), "lucius"@)
    }
}

/// The colours of theme `i` of the built-in table.
pub open spec fn theme_colors(i: int) -> Seq<Seq<char>> {
    builtin_themes()[i].1
}

impl Theme {
    /// The seven colours, in the order of the fields.
    pub open spec fn colors(&self) -> Seq<Seq<char>> {
        seq![
            self.highlight@,
            self.highlight_dir@,
            self.highlight_background@,
            self.normal@,
            self.normal_background@,
            self.bottom_bar@,
            self.bottom_bar_background@,
        ]
    }

    /// The built-in theme called `name`, or "lucius" where no theme has that
    /// name.
    pub fn from(name: &str) -> (t: Theme)
        ensures
            t.colors() == theme_colors(theme_index(name@)),
    {
        let theme_table = ThemeTable::new();
        proof {
            lemma_find_theme_bound(builtin_themes(), "lucius"@, 2);
        }
        let lucius = String::from_str("lucius");
        let wanted = String::from_str(name);
        let default_i = find_entry(&theme_table, &lucius);
        let found_i = find_entry(&theme_table, &wanted);
        let theme_i = if found_i < theme_table.theme_entries.len() {
            found_i
        } else {
            default_i
        };
        let e = &theme_table.theme_entries[theme_i];
        assert(e.color@.map_values(|s: String| s@) == theme_colors(theme_i as int));
        assert(e.color@.len() == THEME_COLOR_NUM);
        let t = Theme {
            highlight: e.color[0].clone(),
            highlight_dir: e.color[1].clone(),
            highlight_background: e.color[2].clone(),
            normal: e.color[3].clone(),
            normal_background: e.color[4].clone(),
            bottom_bar: e.color[5].clone(),
            bottom_bar_background: e.color[6].clone(),
        };
        assert(t.colors() =~= theme_colors(theme_i as int));
        t
    }
}

proof fn lemma_find_theme_bound(t: Seq<(Seq<char>, Seq<Seq<char>>)>, name: Seq<char>, k: int)
    requires
        0 <= k < t.len(),
        t[k].0 == name,
    ensures
        find_theme(t, name) <= k,
    decreases k,
{
    if k > 0 && t[0].0 != name {
        lemma_find_theme_bound(t.drop_first(), name, k - 1);
    }
}

proof fn lemma_find_theme_at(t: Seq<(Seq<char>, Seq<Seq<char>>)>, name: Seq<char>, i: int)
    requires
        0 <= i <= t.len(),
        forall|j: int| 0 <= j < i ==> t[j].0 != name,
        i == t.len() || t[i].0 == name,
    ensures
        find_theme(t, name) == i,
    decreases i,
{
    if i > 0 {
        lemma_find_theme_at(t.drop_first(), name, i - 1);
    }
}

fn find_entry(table: &ThemeTable, name: &String) -> (i: usize)
    ensures
        i == find_theme(table.view(), name@),
        i <= table.view().len(),
{
    let n = table.theme_entries.len();
    let mut i: usize = 0;
    while i < n
        invariant
            n == table.theme_entries.len(),
            i <= n,
            forall|j: int| 0 <= j < i ==> table.view()[j].0 != name@,
        decreases n - i,
    {
        if table.theme_entries[i].name.eq(name) {
            proof {
                lemma_find_theme_at(table.view(), name@, i as int);
            }
            return i;
        }
        i = i + 1;
    }
    proof {
        lemma_find_theme_at(table.view(), name@, i as int);
    }
    i
}

struct ThemeEntry {
    name: String,
    color: Vec<String>,
}

impl ThemeEntry {
    spec fn view(&self) -> (Seq<char>, Seq<Seq<char>>) {
        (self.name@, self.color@.map_values(|s: String| s@))
    }
}

fn entry(
    name: &str,
    c0: &str,
    c1: &str,
    c2: &str,
    c3: &str,
    c4: &str,
    c5: &str,
    c6: &str,
) -> (e: ThemeEntry)
    ensures
        e.view() == (name@, seq![c0@, c1@, c2@, c3@, c4@, c5@, c6@]),
{
    let color = vec![
        String::from_str(c0),
        String::from_str(c1),
        String::from_str(c2),
        String::from_str(c3),
        String::from_str(c4),
        String::from_str(c5),
        String::from_str(c6),
    ];
    let e = ThemeEntry { name: String::from_str(name), color };
    assert(e.view().1 =~= seq![c0@, c1@, c2@, c3@, c4@, c5@, c6@]);
    e
}

struct ThemeTable {
    theme_entries: Vec<ThemeEntry>,
}

impl ThemeTable {
    spec fn view(&self) -> Seq<(Seq<char>, Seq<Seq<char>>)> {
        self.theme_entries@.map_values(|e: ThemeEntry| e.view())
    }

    fn new() -> (t: ThemeTable)
        ensures
            t.view() == builtin_themes(),
    {
        let theme_entries = vec![
            entry("trans", "\x1b[0;37m", "\x1b[38;5;175m", "\x1b[48;5;24m", "\x1b[0;37m", "\x1b[48;5;31m", "\x1b[38;5;0m", "\x1b[48;5;175m"),
            entry("dark", "\x1b[38;5;0m", "\x1b[38;5;27m", "\x1b[48;5;255m", "\x1b[38;5;255m", "\x1b[48;5;0m", "", ""),
            entry("lucius", "\x1b[38;5;187m", "\x1b[38;5;117m", "\x1b[48;5;238m", "\x1b[38;5;188m", "\x1b[48;5;236m", "\x1b[38;5;188m", "\x1b[48;5;238m"),
            entry("acme", "\x1b[38;5;233m", "\x1b[38;5;39m", "\x1b[48;5;186m", "\x1b[38;5;233m", "\x1b[48;5;230m", "\x1b[38;5;233m", "\x1b[48;5;195m"),
            entry("sakura", "\x1b[38;5;253m", "\x1b[38;5;52m", "\x1b[48;5;175m", "\x1b[38;5;253m", "\x1b[48;5;168m", "\x1b[38;5;52m", "\x1b[48;5;175m"),
            entry("vscode", "\x1b[38;5;176m", "\x1b[38;5;43m", "\x1b[48;5;236m", "\x1b[38;5;75m", "\x1b[48;5;235m", "\x1b[38;5;117m", "\x1b[48;5;236m"),
            entry("jesus", "\x1b[38;5;94m", "\x1b[38;5;236m", "\x1b[48;5;180m", "\x1b[38;5;187m", "\x1b[48;5;137m", "\x1b[38;5;236m", "\x1b[48;5;180m"),
            entry("catppuccin", "\x1b[38;2;238;212;159m", "\x1b[38;2;245;169;127m", "\x1b[48;2;48;51;71m", "\x1b[38;2;138;173;244m", "\x1b[48;2;36;39;58m", "\x1b[38;2;128;135;162m", "\x1b[48;2;54;58;79m"),
            entry("lucius-l", "\x1b[38;5;130m", "\x1b[38;5;25m", "\x1b[48;5;253m", "\x1b[38;5;238m", "\x1b[48;5;255m", "\x1b[38;5;255m", "\x1b[48;5;244m"),
        ];
        let t = ThemeTable { theme_entries };
        assert(t.view() =~= builtin_themes());
        t
    }
}

} // verus!
