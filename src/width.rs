//! Display width of characters on a terminal: a static table of code point
//! ranges and the lookups built on it.
use vstd::prelude::*;

verus! {

/// A closed range `l..=r` of code points whose display width differs from one
/// column: two columns where `is_wide`, none otherwise (controls, combining
/// marks and other zero-width characters).
pub struct U8Range {
    pub l: usize,
    pub r: usize,
    pub is_wide: bool,
}

/// Width in columns of code point `cp` according to the first range of `t` that
/// holds it; one column where no range holds it.
pub open spec fn range_width(t: Seq<U8Range>, cp: int) -> nat
    decreases t.len(),
{
    if t.len() == 0 {
        1
    } else if t[0].l <= cp <= t[0].r {
        if t[0].is_wide {
            2
        } else {
            0
        }
    } else {
        range_width(t.drop_first(), cp)
    }
}

/// No character takes more than two columns.
pub proof fn lemma_range_width_le_two(t: Seq<U8Range>, cp: int)
    ensures
        range_width(t, cp) <= 2,
    decreases t.len(),
{
    if t.len() > 0 {
        lemma_range_width_le_two(t.drop_first(), cp);
    }
}

/// The ranges, sorted and disjoint, of the characters that do not take exactly
/// one column.
pub open spec fn width_ranges() -> Seq<U8Range> {
    seq![
            U8Range { l: 0x0000, r: 0x001F, is_wide: false },
            U8Range { l: 0x007F, r: 0x009F, is_wide: false },
            U8Range { l: 0x0300, r: 0x036F, is_wide: false },
            U8Range { l: 0x0483, r: 0x0489, is_wide: false },
            U8Range { l: 0x0591, r: 0x05BD, is_wide: false },
            U8Range { l: 0x05BF, r: 0x05BF, is_wide: false },
            U8Range { l: 0x05C1, r: 0x05C2, is_wide: false },
            U8Range { l: 0x05C4, r: 0x05C5, is_wide: false },
            U8Range { l: 0x05C7, r: 0x05C7, is_wide: false },
            U8Range { l: 0x0610, r: 0x061A, is_wide: false },
            U8Range { l: 0x064B, r: 0x065F, is_wide: false },
            U8Range { l: 0x0670, r: 0x0670, is_wide: false },
            U8Range { l: 0x06D6, r: 0x06DC, is_wide: false },
            U8Range { l: 0x06DF, r: 0x06E4, is_wide: false },
            U8Range { l: 0x06E7, r: 0x06E8, is_wide: false },
            U8Range { l: 0x06EA, r: 0x06ED, is_wide: false },
            U8Range { l: 0x0711, r: 0x0711, is_wide: false },
            U8Range { l: 0x0730, r: 0x074A, is_wide: false },
            U8Range { l: 0x07A6, r: 0x07B0, is_wide: false },
            U8Range { l: 0x07EB, r: 0x07F3, is_wide: false },
            U8Range { l: 0x0816, r: 0x082D, is_wide: false },
            U8Range { l: 0x0859, r: 0x085B, is_wide: false },
            U8Range { l: 0x08D3, r: 0x0902, is_wide: false },
            U8Range { l: 0x093A, r: 0x093A, is_wide: false },
            U8Range { l: 0x093C, r: 0x093C, is_wide: false },
            U8Range { l: 0x0941, r: 0x0948, is_wide: false },
            U8Range { l: 0x094D, r: 0x094D, is_wide: false },
            U8Range { l: 0x0951, r: 0x0957, is_wide: false },
            U8Range { l: 0x0E31, r: 0x0E31, is_wide: false },
            U8Range { l: 0x0E34, r: 0x0E3A, is_wide: false },
            U8Range { l: 0x0E47, r: 0x0E4E, is_wide: false },
            U8Range { l: 0x0EB1, r: 0x0EB1, is_wide: false },
            U8Range { l: 0x0EB4, r: 0x0EBC, is_wide: false },
            U8Range { l: 0x0EC8, r: 0x0ECD, is_wide: false },
            U8Range { l: 0x1100, r: 0x115F, is_wide: true },
            U8Range { l: 0x1160, r: 0x11FF, is_wide: false },
            U8Range { l: 0x1AB0, r: 0x1AFF, is_wide: false },
            U8Range { l: 0x1DC0, r: 0x1DFF, is_wide: false },
            U8Range { l: 0x200B, r: 0x200F, is_wide: false },
            U8Range { l: 0x2028, r: 0x202E, is_wide: false },
            U8Range { l: 0x2060, r: 0x2064, is_wide: false },
            U8Range { l: 0x20D0, r: 0x20FF, is_wide: false },
            U8Range { l: 0x231A, r: 0x231B, is_wide: true },
            U8Range { l: 0x2329, r: 0x232A, is_wide: true },
            U8Range { l: 0x23E9, r: 0x23EC, is_wide: true },
            U8Range { l: 0x23F0, r: 0x23F0, is_wide: true },
            U8Range { l: 0x23F3, r: 0x23F3, is_wide: true },
            U8Range { l: 0x25FD, r: 0x25FE, is_wide: true },
            U8Range { l: 0x2614, r: 0x2615, is_wide: true },
            U8Range { l: 0x2648, r: 0x2653, is_wide: true },
            U8Range { l: 0x267F, r: 0x267F, is_wide: true },
            U8Range { l: 0x2693, r: 0x2693, is_wide: true },
            U8Range { l: 0x26A1, r: 0x26A1, is_wide: true },
            U8Range { l: 0x26AA, r: 0x26AB, is_wide: true },
            U8Range { l: 0x26BD, r: 0x26BE, is_wide: true },
            U8Range { l: 0x26C4, r: 0x26C5, is_wide: true },
            U8Range { l: 0x26CE, r: 0x26CE, is_wide: true },
            U8Range { l: 0x26D4, r: 0x26D4, is_wide: true },
            U8Range { l: 0x26EA, r: 0x26EA, is_wide: true },
            U8Range { l: 0x26F2, r: 0x26F3, is_wide: true },
            U8Range { l: 0x26F5, r: 0x26F5, is_wide: true },
            U8Range { l: 0x26FA, r: 0x26FA, is_wide: true },
            U8Range { l: 0x26FD, r: 0x26FD, is_wide: true },
            U8Range { l: 0x2705, r: 0x2705, is_wide: true },
            U8Range { l: 0x270A, r: 0x270B, is_wide: true },
            U8Range { l: 0x2728, r: 0x2728, is_wide: true },
            U8Range { l: 0x274C, r: 0x274C, is_wide: true },
            U8Range { l: 0x274E, r: 0x274E, is_wide: true },
            U8Range { l: 0x2753, r: 0x2755, is_wide: true },
            U8Range { l: 0x2757, r: 0x2757, is_wide: true },
            U8Range { l: 0x2795, r: 0x2797, is_wide: true },
            U8Range { l: 0x27B0, r: 0x27B0, is_wide: true },
            U8Range { l: 0x27BF, r: 0x27BF, is_wide: true },
            U8Range { l: 0x2B1B, r: 0x2B1C, is_wide: true },
            U8Range { l: 0x2B50, r: 0x2B50, is_wide: true },
            U8Range { l: 0x2B55, r: 0x2B55, is_wide: true },
            U8Range { l: 0x2E80, r: 0x303E, is_wide: true },
            U8Range { l: 0x3041, r: 0x33FF, is_wide: true },
            U8Range { l: 0x3400, r: 0x4DBF, is_wide: true },
            U8Range { l: 0x4E00, r: 0x9FFF, is_wide: true },
            U8Range { l: 0xA000, r: 0xA4CF, is_wide: true },
            U8Range { l: 0xA960, r: 0xA97F, is_wide: true },
            U8Range { l: 0xAC00, r: 0xD7A3, is_wide: true },
            U8Range { l: 0xF900, r: 0xFAFF, is_wide: true },
            U8Range { l: 0xFE00, r: 0xFE0F, is_wide: false },
            U8Range { l: 0xFE10, r: 0xFE19, is_wide: true },
            U8Range { l: 0xFE20, r: 0xFE2F, is_wide: false },
            U8Range { l: 0xFE30, r: 0xFE6F, is_wide: true },
            U8Range { l: 0xFEFF, r: 0xFEFF, is_wide: false },
            U8Range { l: 0xFF00, r: 0xFF60, is_wide: true },
            U8Range { l: 0xFFE0, r: 0xFFE6, is_wide: true },
            U8Range { l: 0x16FE0, r: 0x16FE4, is_wide: true },
            U8Range { l: 0x17000, r: 0x18CFF, is_wide: true },
            U8Range { l: 0x1B000, r: 0x1B2FF, is_wide: true },
            U8Range { l: 0x1F004, r: 0x1F004, is_wide: true },
            U8Range { l: 0x1F0CF, r: 0x1F0CF, is_wide: true },
            U8Range { l: 0x1F18E, r: 0x1F18E, is_wide: true },
            U8Range { l: 0x1F191, r: 0x1F19A, is_wide: true },
            U8Range { l: 0x1F200, r: 0x1F251, is_wide: true },
            U8Range { l: 0x1F300, r: 0x1F64F, is_wide: true },
            U8Range { l: 0x1F680, r: 0x1F6FF, is_wide: true },
            U8Range { l: 0x1F7E0, r: 0x1F7EB, is_wide: true },
            U8Range { l: 0x1F90C, r: 0x1F9FF, is_wide: true },
            U8Range { l: 0x1FA70, r: 0x1FAFF, is_wide: true },
            U8Range { l: 0x20000, r: 0x2FFFD, is_wide: true },
            U8Range { l: 0x30000, r: 0x3FFFD, is_wide: true },
            U8Range { l: 0xE0000, r: 0xE007F, is_wide: false },
            U8Range { l: 0xE0100, r: 0xE01EF, is_wide: false },
    ]
}

/// Number of terminal columns that `c` occupies: 0, 1 or 2.
pub open spec fn char_width(c: char) -> nat {
    range_width(width_ranges(), c as int)
}

/// Number of code points held by the fast lookup table.
pub const BMP_SIZE: usize = 65536;

fn ranges_vec() -> (r: Vec<U8Range>)
    ensures
        r@ == width_ranges(),
{
    let v = vec![
            U8Range { l: 0x0000, r: 0x001F, is_wide: false },
            U8Range { l: 0x007F, r: 0x009F, is_wide: false },
            U8Range { l: 0x0300, r: 0x036F, is_wide: false },
            U8Range { l: 0x0483, r: 0x0489, is_wide: false },
            U8Range { l: 0x0591, r: 0x05BD, is_wide: false },
            U8Range { l: 0x05BF, r: 0x05BF, is_wide: false },
            U8Range { l: 0x05C1, r: 0x05C2, is_wide: false },
            U8Range { l: 0x05C4, r: 0x05C5, is_wide: false },
            U8Range { l: 0x05C7, r: 0x05C7, is_wide: false },
            U8Range { l: 0x0610, r: 0x061A, is_wide: false },
            U8Range { l: 0x064B, r: 0x065F, is_wide: false },
            U8Range { l: 0x0670, r: 0x0670, is_wide: false },
            U8Range { l: 0x06D6, r: 0x06DC, is_wide: false },
            U8Range { l: 0x06DF, r: 0x06E4, is_wide: false },
            U8Range { l: 0x06E7, r: 0x06E8, is_wide: false },
            U8Range { l: 0x06EA, r: 0x06ED, is_wide: false },
            U8Range { l: 0x0711, r: 0x0711, is_wide: false },
            U8Range { l: 0x0730, r: 0x074A, is_wide: false },
            U8Range { l: 0x07A6, r: 0x07B0, is_wide: false },
            U8Range { l: 0x07EB, r: 0x07F3, is_wide: false },
            U8Range { l: 0x0816, r: 0x082D, is_wide: false },
            U8Range { l: 0x0859, r: 0x085B, is_wide: false },
            U8Range { l: 0x08D3, r: 0x0902, is_wide: false },
            U8Range { l: 0x093A, r: 0x093A, is_wide: false },
            U8Range { l: 0x093C, r: 0x093C, is_wide: false },
            U8Range { l: 0x0941, r: 0x0948, is_wide: false },
            U8Range { l: 0x094D, r: 0x094D, is_wide: false },
            U8Range { l: 0x0951, r: 0x0957, is_wide: false },
            U8Range { l: 0x0E31, r: 0x0E31, is_wide: false },
            U8Range { l: 0x0E34, r: 0x0E3A, is_wide: false },
            U8Range { l: 0x0E47, r: 0x0E4E, is_wide: false },
            U8Range { l: 0x0EB1, r: 0x0EB1, is_wide: false },
            U8Range { l: 0x0EB4, r: 0x0EBC, is_wide: false },
            U8Range { l: 0x0EC8, r: 0x0ECD, is_wide: false },
            U8Range { l: 0x1100, r: 0x115F, is_wide: true },
            U8Range { l: 0x1160, r: 0x11FF, is_wide: false },
            U8Range { l: 0x1AB0, r: 0x1AFF, is_wide: false },
            U8Range { l: 0x1DC0, r: 0x1DFF, is_wide: false },
            U8Range { l: 0x200B, r: 0x200F, is_wide: false },
            U8Range { l: 0x2028, r: 0x202E, is_wide: false },
            U8Range { l: 0x2060, r: 0x2064, is_wide: false },
            U8Range { l: 0x20D0, r: 0x20FF, is_wide: false },
            U8Range { l: 0x231A, r: 0x231B, is_wide: true },
            U8Range { l: 0x2329, r: 0x232A, is_wide: true },
            U8Range { l: 0x23E9, r: 0x23EC, is_wide: true },
            U8Range { l: 0x23F0, r: 0x23F0, is_wide: true },
            U8Range { l: 0x23F3, r: 0x23F3, is_wide: true },
            U8Range { l: 0x25FD, r: 0x25FE, is_wide: true },
            U8Range { l: 0x2614, r: 0x2615, is_wide: true },
            U8Range { l: 0x2648, r: 0x2653, is_wide: true },
            U8Range { l: 0x267F, r: 0x267F, is_wide: true },
            U8Range { l: 0x2693, r: 0x2693, is_wide: true },
            U8Range { l: 0x26A1, r: 0x26A1, is_wide: true },
            U8Range { l: 0x26AA, r: 0x26AB, is_wide: true },
            U8Range { l: 0x26BD, r: 0x26BE, is_wide: true },
            U8Range { l: 0x26C4, r: 0x26C5, is_wide: true },
            U8Range { l: 0x26CE, r: 0x26CE, is_wide: true },
            U8Range { l: 0x26D4, r: 0x26D4, is_wide: true },
            U8Range { l: 0x26EA, r: 0x26EA, is_wide: true },
            U8Range { l: 0x26F2, r: 0x26F3, is_wide: true },
            U8Range { l: 0x26F5, r: 0x26F5, is_wide: true },
            U8Range { l: 0x26FA, r: 0x26FA, is_wide: true },
            U8Range { l: 0x26FD, r: 0x26FD, is_wide: true },
            U8Range { l: 0x2705, r: 0x2705, is_wide: true },
            U8Range { l: 0x270A, r: 0x270B, is_wide: true },
            U8Range { l: 0x2728, r: 0x2728, is_wide: true },
            U8Range { l: 0x274C, r: 0x274C, is_wide: true },
            U8Range { l: 0x274E, r: 0x274E, is_wide: true },
            U8Range { l: 0x2753, r: 0x2755, is_wide: true },
            U8Range { l: 0x2757, r: 0x2757, is_wide: true },
            U8Range { l: 0x2795, r: 0x2797, is_wide: true },
            U8Range { l: 0x27B0, r: 0x27B0, is_wide: true },
            U8Range { l: 0x27BF, r: 0x27BF, is_wide: true },
            U8Range { l: 0x2B1B, r: 0x2B1C, is_wide: true },
            U8Range { l: 0x2B50, r: 0x2B50, is_wide: true },
            U8Range { l: 0x2B55, r: 0x2B55, is_wide: true },
            U8Range { l: 0x2E80, r: 0x303E, is_wide: true },
            U8Range { l: 0x3041, r: 0x33FF, is_wide: true },
            U8Range { l: 0x3400, r: 0x4DBF, is_wide: true },
            U8Range { l: 0x4E00, r: 0x9FFF, is_wide: true },
            U8Range { l: 0xA000, r: 0xA4CF, is_wide: true },
            U8Range { l: 0xA960, r: 0xA97F, is_wide: true },
            U8Range { l: 0xAC00, r: 0xD7A3, is_wide: true },
            U8Range { l: 0xF900, r: 0xFAFF, is_wide: true },
            U8Range { l: 0xFE00, r: 0xFE0F, is_wide: false },
            U8Range { l: 0xFE10, r: 0xFE19, is_wide: true },
            U8Range { l: 0xFE20, r: 0xFE2F, is_wide: false },
            U8Range { l: 0xFE30, r: 0xFE6F, is_wide: true },
            U8Range { l: 0xFEFF, r: 0xFEFF, is_wide: false },
            U8Range { l: 0xFF00, r: 0xFF60, is_wide: true },
            U8Range { l: 0xFFE0, r: 0xFFE6, is_wide: true },
            U8Range { l: 0x16FE0, r: 0x16FE4, is_wide: true },
            U8Range { l: 0x17000, r: 0x18CFF, is_wide: true },
            U8Range { l: 0x1B000, r: 0x1B2FF, is_wide: true },
            U8Range { l: 0x1F004, r: 0x1F004, is_wide: true },
            U8Range { l: 0x1F0CF, r: 0x1F0CF, is_wide: true },
            U8Range { l: 0x1F18E, r: 0x1F18E, is_wide: true },
            U8Range { l: 0x1F191, r: 0x1F19A, is_wide: true },
            U8Range { l: 0x1F200, r: 0x1F251, is_wide: true },
            U8Range { l: 0x1F300, r: 0x1F64F, is_wide: true },
            U8Range { l: 0x1F680, r: 0x1F6FF, is_wide: true },
            U8Range { l: 0x1F7E0, r: 0x1F7EB, is_wide: true },
            U8Range { l: 0x1F90C, r: 0x1F9FF, is_wide: true },
            U8Range { l: 0x1FA70, r: 0x1FAFF, is_wide: true },
            U8Range { l: 0x20000, r: 0x2FFFD, is_wide: true },
            U8Range { l: 0x30000, r: 0x3FFFD, is_wide: true },
            U8Range { l: 0xE0000, r: 0xE007F, is_wide: false },
            U8Range { l: 0xE0100, r: 0xE01EF, is_wide: false },
    ];
    assert(v@ =~= width_ranges());
    v
}

proof fn lemma_range_width_step(t: Seq<U8Range>, i: int, cp: int)
    requires
        0 <= i < t.len(),
        !(t[i].l <= cp <= t[i].r),
    ensures
        range_width(t.subrange(i, t.len() as int), cp) == range_width(
            t.subrange(i + 1, t.len() as int),
            cp,
        ),
{
    assert(t.subrange(i, t.len() as int).drop_first() =~= t.subrange(i + 1, t.len() as int));
}

/// Width of code point `cp` by a scan of the ranges `t`.
fn scan_width(t: &Vec<U8Range>, cp: usize) -> (w: u8)
    ensures
        w as nat == range_width(t@, cp as int),
{
    let n = t.len();
    let mut i: usize = 0;
    assert(t@.subrange(0, n as int) =~= t@);
    while i < n
        invariant
            n == t.len(),
            0 <= i <= n,
            range_width(t@, cp as int) == range_width(t@.subrange(i as int, n as int), cp as int),
        decreases n - i,
    {
        if t[i].l <= cp && cp <= t[i].r {
            if t[i].is_wide {
                return 2;
            } else {
                return 0;
            }
        }
        proof {
            lemma_range_width_step(t@, i as int, cp as int);
        }
        i = i + 1;
    }
    assert(t@.subrange(n as int, n as int) =~= Seq::<U8Range>::empty());
    1
}

/// The width classifier: the range table, and the width of every code point
/// below `BMP_SIZE` looked up once in advance.
pub struct WidthTable {
    pub table: Vec<u8>,
    pub ranges: Vec<U8Range>,
}

impl WidthTable {
    pub open spec fn wf(&self) -> bool {
        &&& self.table.len() == BMP_SIZE
        &&& self.ranges@ == width_ranges()
        &&& forall|i: int|
            0 <= i < BMP_SIZE ==> #[trigger] self.table[i] as nat == range_width(
                width_ranges(),
                i,
            )
    }

    pub fn new() -> (r: WidthTable)
        ensures
            r.wf(),
    {
        let ranges = ranges_vec();
        let mut table: Vec<u8> = Vec::new();
        let mut cp: usize = 0;
        while cp < BMP_SIZE
            invariant
                ranges@ == width_ranges(),
                cp <= BMP_SIZE,
                table.len() == cp,
                forall|i: int|
                    0 <= i < cp ==> #[trigger] table[i] as nat == range_width(width_ranges(), i),
            decreases BMP_SIZE - cp,
        {
            let w = scan_width(&ranges, cp);
            table.push(w);
            cp = cp + 1;
        }
        WidthTable { table, ranges }
    }

    /// Display width of `c` in columns.
    pub fn classify(&self, c: char) -> (w: usize)
        requires
            self.wf(),
        ensures
            w == char_width(c),
            w <= 2,
    {
        let cp = c as u32 as usize;
        proof {
            lemma_range_width_le_two(width_ranges(), c as int);
        }
        if cp < BMP_SIZE {
            self.table[cp] as usize
        } else {
            scan_width(&self.ranges, cp) as usize
        }
    }
}

} // verus!
