//! Keyboard input: raw bytes to key operations in normal mode, and UTF-8
//! decoding with an incomplete trailing character carried to the next read.
use vstd::prelude::*;
use crate::ops::Op;

verus! {

/// The operation of a single key in normal mode.
pub open spec fn key_op(b: u8) -> Op {
    if b == 107 {
        Op::Up
    } else if b == 106 {
        Op::Down
    } else if b == 104 {
        Op::Left
    } else if b == 108 {
        Op::Right
    } else if b == 111 {
        Op::ExitCursorO
    } else if b == 10 {
        Op::ExitCursorEnter
    } else if b == 105 {
        Op::Exit
    } else if b == 113 {
        Op::Quit
    } else if b == 47 {
        Op::Search
    } else if b == 63 {
        Op::RevSearch
    } else if b == 71 {
        Op::Bottom
    } else if b == 110 {
        Op::NextMatch
    } else if b == 78 {
        Op::PrevMatch
    } else {
        Op::Noop
    }
}

/// The operation of the arrow key whose escape sequence ends in `b`.
pub open spec fn arrow_op(b: u8) -> Op {
    if b == 65 {
        Op::Up
    } else if b == 66 {
        Op::Down
    } else if b == 67 {
        Op::Right
    } else if b == 68 {
        Op::Left
    } else {
        Op::Noop
    }
}

/// The operation that the bytes `k` read so far make, or none where another
/// byte is needed: `ESC [` and a letter for the arrows, Ctrl-D and Ctrl-U for
/// pages, `gg` for the top, and single keys otherwise.
pub open spec fn decode_keys(k: Seq<u8>) -> Option<Op> {
    if k.len() == 0 {
        None
    } else if k[0] == 27 {
        if k.len() < 2 {
            None
        } else if k[1] != 91 {
            Some(Op::Noop)
        } else if k.len() < 3 {
            None
        } else {
            Some(arrow_op(k[2]))
        }
    } else if k[0] == 4 {
        Some(Op::PageDown)
    } else if k[0] == 21 {
        Some(Op::PageUp)
    } else if k[0] == 103 {
        if k.len() < 2 {
            None
        } else if k[1] == 103 {
            Some(Op::Top)
        } else {
            Some(key_op(k[1]))
        }
    } else {
        Some(key_op(k[0]))
    }
}

fn key_op_of(b: u8) -> (r: Op)
    ensures
        r == key_op(b),
{
    match b {
        107 => Op::Up,
        106 => Op::Down,
        104 => Op::Left,
        108 => Op::Right,
        111 => Op::ExitCursorO,
        10 => Op::ExitCursorEnter,
        105 => Op::Exit,
        113 => Op::Quit,
        47 => Op::Search,
        63 => Op::RevSearch,
        71 => Op::Bottom,
        110 => Op::NextMatch,
        78 => Op::PrevMatch,
        _ => Op::Noop,
    }
}

fn arrow_op_of(b: u8) -> (r: Op)
    ensures
        r == arrow_op(b),
{
    match b {
        65 => Op::Up,
        66 => Op::Down,
        67 => Op::Right,
        68 => Op::Left,
        _ => Op::Noop,
    }
}

/// Decode the key bytes read so far in normal mode: the operation, or none
/// where another byte must be read first.
pub fn process_input(keys: &Vec<u8>) -> (r: Option<Op>)
    ensures
        r == decode_keys(keys@),
{
    if keys.len() == 0 {
        return None;
    }
    let input = keys[0];
    if input == 27 {
        if keys.len() < 2 {
            None
        } else if keys[1] != 91 {
            Some(Op::Noop)
        } else if keys.len() < 3 {
            None
        } else {
            Some(arrow_op_of(keys[2]))
        }
    } else if input == 4 {
        Some(Op::PageDown)
    } else if input == 21 {
        Some(Op::PageUp)
    } else if input == 103 {
        if keys.len() < 2 {
            None
        } else if keys[1] == 103 {
            Some(Op::Top)
        } else {
            Some(key_op_of(keys[1]))
        }
    } else {
        Some(key_op_of(input))
    }
}

/// Length of the UTF-8 sequence that byte `b` starts; 0 for a byte that
/// starts none.
pub open spec fn lead_len(b: u8) -> int {
    if b < 128 {
        1
    } else if 192 <= b < 224 {
        2
    } else if 224 <= b < 240 {
        3
    } else if 240 <= b < 248 {
        4
    } else {
        0
    }
}

/// Whether `b` is a continuation byte.
pub open spec fn is_cont(b: u8) -> bool {
    128 <= b < 192
}

/// The code point of the `n`-byte sequence at `i` of `raw`.
pub open spec fn code_point(raw: Seq<u8>, i: int, n: int) -> int {
    if n == 1 {
        raw[i] as int
    } else if n == 2 {
        (raw[i] - 192) * 64 + (raw[i + 1] - 128)
    } else if n == 3 {
        (raw[i] - 224) * 4096 + (raw[i + 1] - 128) * 64 + (raw[i + 2] - 128)
    } else {
        (raw[i] - 240) * 262144 + (raw[i + 1] - 128) * 4096 + (raw[i + 2] - 128) * 64 + (
        raw[i + 3] - 128)
    }
}

/// Least code point that needs `n` bytes.
pub open spec fn min_code(n: int) -> int {
    if n == 1 {
        0
    } else if n == 2 {
        0x80
    } else if n == 3 {
        0x800
    } else {
        0x10000
    }
}

/// Whether the complete `n`-byte sequence at `i` of `raw` encodes a Unicode
/// scalar value in its shortest form.
pub open spec fn valid_seq(raw: Seq<u8>, i: int, n: int) -> bool {
    &&& forall|j: int| i < j < i + n ==> is_cont(#[trigger] raw[j])
    &&& code_point(raw, i, n) >= min_code(n)
    &&& code_point(raw, i, n) <= 0x10FFFF
    &&& !(0xD800 <= code_point(raw, i, n) <= 0xDFFF)
}

/// The replacement character U+FFFD, for bytes that encode nothing.
pub const REPLACEMENT: u32 = 0xFFFD;

/// Code points decoded from `raw` at `i` on, and the bytes of an incomplete
/// last sequence. Decoding stops at a zero byte; a byte that starts no valid
/// sequence gives U+FFFD.
pub open spec fn parse_from(raw: Seq<u8>, i: int) -> (Seq<u32>, Seq<u8>)
    decreases raw.len() - i,
{
    if i < 0 || i >= raw.len() || raw[i] == 0 {
        (Seq::empty(), Seq::empty())
    } else if lead_len(raw[i]) > 0 && i + lead_len(raw[i]) > raw.len() {
        (Seq::empty(), raw.subrange(i, raw.len() as int))
    } else if lead_len(raw[i]) > 0 && valid_seq(raw, i, lead_len(raw[i])) {
        let rest = parse_from(raw, i + lead_len(raw[i]));
        (seq![code_point(raw, i, lead_len(raw[i])) as u32] + rest.0, rest.1)
    } else {
        let rest = parse_from(raw, i + 1);
        (seq![REPLACEMENT] + rest.0, rest.1)
    }
}

/// Relies on `char::from_u32`: a character exactly for a Unicode scalar
/// value, with that code point.
#[verifier::external_body]
fn char_from_u32(v: u32) -> (r: Option<char>)
    ensures
        r is Some <==> (v <= 0x10FFFF && !(0xD800 <= v <= 0xDFFF)),
        r is Some ==> r->0 as u32 == v,
{
    char::from_u32(v)
}

/// Decode the sequence at `i`: its code point where it is valid and complete.
fn decode_at(raw: &Vec<u8>, i: usize, n: usize) -> (r: Option<u32>)
    requires
        1 <= n <= 4,
        i + n <= raw.len(),
        n == lead_len(raw[i as int]),
    ensures
        r is Some <==> valid_seq(raw@, i as int, n as int),
        r is Some ==> r->0 == code_point(raw@, i as int, n as int),
{
    let mut j: usize = i + 1;
    while j < i + n
        invariant
            i + 1 <= j <= i + n <= raw.len(),
            forall|k: int| i < k < j ==> is_cont(#[trigger] raw@[k]),
        decreases i + n - j,
    {
        if !(128 <= raw[j] && raw[j] < 192) {
            assert(!is_cont(raw@[j as int]));
            return None;
        }
        j = j + 1;
    }
    let b0 = raw[i] as u32;
    let cp: u32 = if n == 1 {
        b0
    } else if n == 2 {
        (b0 - 192) * 64 + (raw[i + 1] as u32 - 128)
    } else if n == 3 {
        (b0 - 224) * 4096 + (raw[i + 1] as u32 - 128) * 64 + (raw[i + 2] as u32 - 128)
    } else {
        (b0 - 240) * 262144 + (raw[i + 1] as u32 - 128) * 4096 + (raw[i + 2] as u32 - 128) * 64
            + (raw[i + 3] as u32 - 128)
    };
    let least: u32 = if n == 1 {
        0
    } else if n == 2 {
        0x80
    } else if n == 3 {
        0x800
    } else {
        0x10000
    };
    if cp < least || cp > 0x10FFFF || (0xD800 <= cp && cp <= 0xDFFF) {
        None
    } else {
        Some(cp)
    }
}

/// Decode `prev_trunc` followed by `raw` into characters, up to a zero byte;
/// the bytes of an incomplete last character are returned to be put before
/// the next read. A byte that starts no valid sequence gives U+FFFD.
pub fn parse_utf8(raw: &[u8], prev_trunc: &Vec<u8>) -> (r: (Vec<char>, Vec<u8>))
    ensures
        ({
            let (codes, trunc) = parse_from(prev_trunc@ + raw@, 0);
            &&& r.0@.map_values(|c: char| c as u32) == codes
            &&& r.1@ == trunc
        }),
{
    let mut bytes = prev_trunc.clone();
    let mut k: usize = 0;
    while k < raw.len()
        invariant
            k <= raw.len(),
            bytes@ == prev_trunc@ + raw@.subrange(0, k as int),
        decreases raw.len() - k,
    {
        bytes.push(raw[k]);
        k = k + 1;
        assert(bytes@ =~= prev_trunc@ + raw@.subrange(0, k as int));
    }
    assert(raw@.subrange(0, raw.len() as int) =~= raw@);
    let ghost all = bytes@;
    let mut res: Vec<char> = Vec::new();
    let mut trunc: Vec<u8> = Vec::new();
    let mut i: usize = 0;
    while i < bytes.len() && bytes[i] != 0
        invariant
            bytes@ == all,
            all == prev_trunc@ + raw@,
            i <= bytes.len(),
            trunc@ == Seq::<u8>::empty(),
            parse_from(all, 0).0 == res@.map_values(|c: char| c as u32) + parse_from(all, i as int).0,
            parse_from(all, 0).1 == parse_from(all, i as int).1,
        decreases bytes.len() - i,
    {
        let b = bytes[i];
        let n: usize = if b < 128 {
            1
        } else if 192 <= b && b < 224 {
            2
        } else if 224 <= b && b < 240 {
            3
        } else if 240 <= b && b < 248 {
            4
        } else {
            0
        };
        if n > 0 && n > bytes.len() - i {
            assert(n as int == lead_len(all[i as int]));
            assert(parse_from(all, i as int) == (Seq::<u32>::empty(), all.subrange(i as int, all.len() as int)));
            let mut j: usize = i;
            while j < bytes.len()
                invariant
                    i <= j <= bytes.len(),
                    bytes@ == all,
                    all == prev_trunc@ + raw@,
                    trunc@ == all.subrange(i as int, j as int),
                    parse_from(all, 0).0 == res@.map_values(|c: char| c as u32) + parse_from(all, i as int).0,
                    parse_from(all, 0).1 == parse_from(all, i as int).1,
                    parse_from(all, i as int) == (Seq::<u32>::empty(), all.subrange(i as int, all.len() as int)),
                decreases bytes.len() - j,
            {
                trunc.push(bytes[j]);
                j = j + 1;
                assert(trunc@ =~= all.subrange(i as int, j as int));
            }
            assert(n as int == lead_len(all[i as int]));
            assert(parse_from(all, i as int) == (Seq::<u32>::empty(), all.subrange(i as int, all.len() as int)));
            assert(res@.map_values(|c: char| c as u32) + Seq::<u32>::empty() =~= res@.map_values(|c: char| c as u32));
            return (res, trunc);
        }
        let ghost before = res@;
        let mut step: usize = 1;
        let mut code: u32 = REPLACEMENT;
        if n > 0 {
            match decode_at(&bytes, i, n) {
                Some(cp) => {
                    step = n;
                    code = cp;
                },
                None => {},
            }
        }
        match char_from_u32(code) {
            Some(c) => {
                res.push(c);
            },
            None => {
                assert(false);
            },
        }
        proof {
            assert(res@.map_values(|c: char| c as u32) =~= before.map_values(|c: char| c as u32).push(code));
        }
        i = i + step;
    }
    proof {
        assert(parse_from(all, i as int).0 == Seq::<u32>::empty());
        assert(res@.map_values(|c: char| c as u32) + Seq::<u32>::empty() =~= res@.map_values(|c: char| c as u32));
    }
    (res, trunc)
}

/// What a read while searching stands for: the arrow keys as operations, any
/// other characters as typed text; nothing where none were read.
pub fn classify_input(chars: Vec<char>) -> (r: (Option<Vec<char>>, Op))
    ensures
        chars.len() == 0 ==> r == (None::<Vec<char>>, Op::Noop),
        chars.len() >= 3 && chars[0] as u32 == 27 && chars[1] as u32 == 91 && arrow_op(
            chars[2] as u32 as u8,
        ) != Op::Noop && (chars[2] as u32) < 256 ==> r.0 is None && r.1 == arrow_op(
            chars[2] as u32 as u8,
        ),
        chars.len() > 0 && !(chars.len() >= 3 && chars[0] as u32 == 27 && chars[1] as u32 == 91
            && (chars[2] as u32) < 256 && arrow_op(chars[2] as u32 as u8) != Op::Noop) ==> r.0
            == Some(chars) && r.1 == Op::Noop,
{
    if chars.len() == 0 {
        return (None, Op::Noop);
    }
    if chars.len() >= 3 && chars[0] as u32 == 27 && chars[1] as u32 == 91 && (chars[2] as u32) < 256 {
        let op = arrow_op_of(chars[2] as u32 as u8);
        if op != Op::Noop {
            return (None, op);
        }
    }
    (Some(chars), Op::Noop)
}

} // verus!
