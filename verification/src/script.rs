//! Bounds on an effect script's numeric literals.
//!
//! The outside effect compiler converts every integer and hexadecimal
//! literal it parses with an unchecked 32-bit conversion, so a script
//! holding an oversized or malformed literal would abort it.  The scanner
//! here finds such literals first, conservatively, over the raw characters:
//! a script it clears is safe to hand to the compiler, and one it rejects
//! is reported through the library's own error popup instead.

use vstd::prelude::*;

verus! {

/// Whether `c` is a decimal digit.
pub open spec fn is_dec_digit(c: char) -> bool {
    '0' <= c && c <= '9'
}

/// Whether `c` is a hexadecimal digit.
pub open spec fn is_hex_digit(c: char) -> bool {
    is_dec_digit(c) || ('a' <= c && c <= 'f') || ('A' <= c && c <= 'F')
}

/// The value of a decimal digit.
pub open spec fn dec_digit_val(c: char) -> int {
    c as int - '0' as int
}

/// The value of a hexadecimal digit.
pub open spec fn hex_digit_val(c: char) -> int {
    if is_dec_digit(c) {
        c as int - '0' as int
    } else if 'a' <= c && c <= 'f' {
        c as int - 'a' as int + 10
    } else {
        c as int - 'A' as int + 10
    }
}

/// The value of the decimal digit run starting at `i`, folded onto `acc`.
pub open spec fn dec_run_val(s: Seq<char>, i: int, acc: int) -> int
    decreases s.len() - i,
{
    if 0 <= i < s.len() && is_dec_digit(s[i]) {
        dec_run_val(s, i + 1, acc * 10 + dec_digit_val(s[i]))
    } else {
        acc
    }
}

/// The value of the hexadecimal digit run starting at `i`, folded onto
/// `acc`.
pub open spec fn hex_run_val(s: Seq<char>, i: int, acc: int) -> int
    decreases s.len() - i,
{
    if 0 <= i < s.len() && is_hex_digit(s[i]) {
        hex_run_val(s, i + 1, acc * 16 + hex_digit_val(s[i]))
    } else {
        acc
    }
}

/// Whether position `i` starts a numeric literal the compiler's 32-bit
/// conversions cannot process: a maximal decimal digit run whose value
/// exceeds what an unsigned — or, right after a minus sign, a negative
/// signed — 32-bit integer holds, or a `0x` with no hexadecimal digit or a
/// hexadecimal value beyond 32 bits.  The scan is conservative: digit runs
/// inside comments or string literals are held to the same bound.
pub open spec fn bad_start(s: Seq<char>, i: int) -> bool {
    ||| (0 <= i < s.len() && is_dec_digit(s[i]) && (i == 0 || !is_dec_digit(s[i - 1])) && (if i
        > 0 && s[i - 1] == '-' {
        dec_run_val(s, i, 0) > 0x8000_0000
    } else {
        dec_run_val(s, i, 0) > 0xffff_ffff
    }))
    ||| (0 <= i && i + 1 < s.len() && s[i] == '0' && s[i + 1] == 'x' && (i + 2 >= s.len()
        || !is_hex_digit(s[i + 2]) || hex_run_val(s, i + 2, 0) > 0xffff_ffff))
}

/// Whether every numeric literal of the script stays within what the
/// compiler's 32-bit conversions can process.
pub open spec fn dsl_literals_bounded(s: Seq<char>) -> bool {
    forall|i: int| 0 <= i < s.len() ==> !bad_start(s, i)
}

/// The one-based line and column of position `end`, scanning from `j` with
/// the counters so far.
pub open spec fn pos_acc(s: Seq<char>, j: int, end: int, line: int, col: int) -> (int, int)
    decreases end - j,
{
    if j < 0 || j >= end || j >= s.len() {
        (line, col)
    } else if s[j] == '\n' {
        pos_acc(s, j + 1, end, line + 1, 1)
    } else {
        pos_acc(s, j + 1, end, line, col + 1)
    }
}

/// The one-based line and column of position `i`.
pub open spec fn line_col_of(s: Seq<char>, i: int) -> (int, int) {
    pos_acc(s, 0, i, 1, 1)
}

/// A count held to what the popup's position fields can carry.
pub open spec fn sat_u32(n: int) -> u32 {
    if n > u32::MAX {
        u32::MAX
    } else if n < 0 {
        0
    } else {
        n as u32
    }
}

/// The characters of a string, indexable.
pub fn chars_of(s: &str) -> (v: Vec<char>)
    ensures
        v@ == s@,
{
    let n = s.unicode_len();
    let mut v: Vec<char> = Vec::new();
    let mut i: usize = 0;
    while i < n
        invariant
            n == s@.len(),
            i <= n,
            v@ == s@.take(i as int),
        decreases n - i,
    {
        v.push(s.get_char(i));
        proof {
            assert(v@ =~= s@.take(i as int + 1));
        }
        i = i + 1;
    }
    proof {
        assert(s@.take(n as int) =~= s@);
    }
    v
}

/// Whether the decimal run starting at `i` exceeds `bound`.
fn dec_run_over(v: &Vec<char>, i: usize, bound: u64) -> (r: bool)
    requires
        bound <= 0xffff_ffff,
    ensures
        r == (dec_run_val(v@, i as int, 0) > bound as int),
{
    let n = v.len();
    let mut j: usize = i;
    let mut acc: u64 = 0;
    let mut over: bool = false;
    let ghost mut exact: int = 0int;
    while j < n && is_dec(v[j])
        invariant
            n == v@.len(),
            i <= j <= n || j == i,
            dec_run_val(v@, i as int, 0) == dec_run_val(v@, j as int, exact),
            !over ==> acc == exact && exact <= 0xffff_ffff,
            over ==> exact > 0xffff_ffff,
            exact >= 0,
        decreases n - j,
    {
        let d: u64 = (v[j] as u32 - '0' as u32) as u64;
        proof {
            assert(dec_run_val(v@, j as int, exact) == dec_run_val(
                v@,
                j as int + 1,
                exact * 10 + dec_digit_val(v@[j as int]),
            ));
            assert(dec_digit_val(v@[j as int]) == d);
        }
        if !over {
            acc = acc * 10 + d;
            if acc > 0xffff_ffff {
                over = true;
            }
        }
        proof {
            exact = exact * 10 + d;
        }
        j = j + 1;
    }
    proof {
        assert(dec_run_val(v@, j as int, exact) == exact);
    }
    over || acc > bound
}

/// Whether the hexadecimal run starting at `i` exceeds 32 bits.
fn hex_run_over(v: &Vec<char>, i: usize) -> (r: bool)
    ensures
        r == (hex_run_val(v@, i as int, 0) > 0xffff_ffff),
{
    let n = v.len();
    let mut j: usize = i;
    let mut acc: u64 = 0;
    let mut over: bool = false;
    let ghost mut exact: int = 0int;
    while j < n && is_hex(v[j])
        invariant
            n == v@.len(),
            i <= j <= n || j == i,
            hex_run_val(v@, i as int, 0) == hex_run_val(v@, j as int, exact),
            !over ==> acc == exact && exact <= 0xffff_ffff,
            over ==> exact > 0xffff_ffff,
            exact >= 0,
        decreases n - j,
    {
        let d: u64 = hex_val_of(v[j]) as u64;
        proof {
            assert(hex_run_val(v@, j as int, exact) == hex_run_val(
                v@,
                j as int + 1,
                exact * 16 + hex_digit_val(v@[j as int]),
            ));
            assert(hex_digit_val(v@[j as int]) == d);
        }
        if !over {
            acc = acc * 16 + d;
            if acc > 0xffff_ffff {
                over = true;
            }
        }
        proof {
            exact = exact * 16 + d;
        }
        j = j + 1;
    }
    proof {
        assert(hex_run_val(v@, j as int, exact) == exact);
    }
    over
}

/// Whether `c` is a decimal digit.
fn is_dec(c: char) -> (r: bool)
    ensures
        r == is_dec_digit(c),
{
    '0' <= c && c <= '9'
}

/// Whether `c` is a hexadecimal digit.
fn is_hex(c: char) -> (r: bool)
    ensures
        r == is_hex_digit(c),
{
    ('0' <= c && c <= '9') || ('a' <= c && c <= 'f') || ('A' <= c && c <= 'F')
}

/// The value of a hexadecimal digit.
fn hex_val_of(c: char) -> (r: u32)
    requires
        is_hex_digit(c),
    ensures
        r == hex_digit_val(c),
{
    if '0' <= c && c <= '9' {
        c as u32 - '0' as u32
    } else if 'a' <= c && c <= 'f' {
        c as u32 - 'a' as u32 + 10
    } else {
        c as u32 - 'A' as u32 + 10
    }
}

/// Scans a script's characters for the first numeric literal the compiler
/// cannot process; `None` clears the script for compilation.
pub fn scan_literals(v: &Vec<char>) -> (r: Option<usize>)
    ensures
        r is None <==> dsl_literals_bounded(v@),
        r matches Some(i) ==> i < v@.len() && bad_start(v@, i as int) && (forall|j: int|
            0 <= j < i ==> !bad_start(v@, j)),
{
    let n = v.len();
    let mut i: usize = 0;
    while i < n
        invariant
            n == v@.len(),
            i <= n,
            forall|j: int| 0 <= j < i ==> !bad_start(v@, j),
        decreases n - i,
    {
        let c = v[i];
        if is_dec(c) && (i == 0 || !is_dec(v[i - 1])) {
            let minus = i > 0 && v[i - 1] == '-';
            let bound: u64 = if minus {
                0x8000_0000
            } else {
                0xffff_ffff
            };
            if dec_run_over(v, i, bound) {
                proof {
                    assert(bad_start(v@, i as int));
                }
                return Some(i);
            }
        }
        if c == '0' && i + 1 < n && v[i + 1] == 'x' {
            if i + 2 >= n || !is_hex(v[i + 2]) || hex_run_over(v, i + 2) {
                proof {
                    assert(bad_start(v@, i as int));
                }
                return Some(i);
            }
        }
        proof {
            assert(!bad_start(v@, i as int));
        }
        i = i + 1;
    }
    None
}

/// The one-based line and column of position `i` of the script, each held
/// to what the position fields can carry.
pub fn line_col_at(v: &Vec<char>, i: usize) -> (r: (u32, u32))
    ensures
        r.0 == sat_u32(line_col_of(v@, i as int).0),
        r.1 == sat_u32(line_col_of(v@, i as int).1),
{
    let n = v.len();
    let mut j: usize = 0;
    let mut line: u32 = 1;
    let mut col: u32 = 1;
    let ghost mut eline: int = 1int;
    let ghost mut ecol: int = 1int;
    while j < i && j < n
        invariant
            n == v@.len(),
            j <= n,
            line_col_of(v@, i as int) == pos_acc(v@, j as int, i as int, eline, ecol),
            line == sat_u32(eline),
            col == sat_u32(ecol),
            eline >= 1,
            ecol >= 1,
        decreases i - j,
    {
        if v[j] == '\n' {
            if line < u32::MAX {
                line = line + 1;
            }
            col = 1;
            proof {
                eline = eline + 1;
                ecol = 1int;
            }
        } else {
            if col < u32::MAX {
                col = col + 1;
            }
            proof {
                ecol = ecol + 1;
            }
        }
        j = j + 1;
    }
    proof {
        assert(pos_acc(v@, j as int, i as int, eline, ecol) == (eline, ecol));
    }
    (line, col)
}

} // verus!
