//! The debug dump of a run: trace, returns, register table, and a
//! `hexdump -C` style view of memory.

use vstd::prelude::*;

use crate::sim::error::{SimError, SimErrorV};
use crate::sim::machine::{opt_err_view, trace_view};
use crate::sim::simulator::{SimResult, SimResultV};
use crate::sim::trace::{err_text, Line, Piece, PieceV};
use crate::sim::value::SimValue;
use crate::text::{dec_int, dec_nat, hex_padded, push_char, push_dec_i64, push_dec_u64, push_hex_padded, push_str};

verus! {

// ---------- rendering values and lines ----------

/// The `Display` text of an integer value, such as `I64(42)`; `None` for a
/// float, whose text the caller renders.
pub open spec fn int_value_text(v: SimValue) -> Option<Seq<char>> {
    match v {
        SimValue::I8(x) => Some("I8("@ + dec_int(x as int) + ")"@),
        SimValue::I16(x) => Some("I16("@ + dec_int(x as int) + ")"@),
        SimValue::I32(x) => Some("I32("@ + dec_int(x as int) + ")"@),
        SimValue::I64(x) => Some("I64("@ + dec_int(x as int) + ")"@),
        _ => None,
    }
}

/// The text of a line whose values are all integers; `None` when a float
/// value occurs in it.
pub open spec fn plain_text(p: Seq<PieceV>) -> Option<Seq<char>>
    decreases p.len(),
{
    if p.len() == 0 {
        Some(seq![])
    } else {
        match plain_text(p.drop_last()) {
            None => None,
            Some(t) => match p.last() {
                PieceV::Text(s) => Some(t + s),
                PieceV::Value(v) => match int_value_text(v) {
                    Some(x) => Some(t + x),
                    None => None,
                },
            },
        }
    }
}

/// The text of several lines, each followed by a newline; `None` when a
/// float value occurs in any of them.
pub open spec fn plain_lines(lines: Seq<Seq<PieceV>>) -> Option<Seq<char>>
    decreases lines.len(),
{
    if lines.len() == 0 {
        Some(seq![])
    } else {
        match (plain_lines(lines.drop_last()), plain_text(lines.last())) {
            (Some(a), Some(b)) => Some(a + b + "\n"@),
            _ => None,
        }
    }
}

pub open spec fn opt_string_view(r: Option<String>) -> Option<Seq<char>> {
    match r {
        Some(s) => Some(s@),
        None => None,
    }
}

/// Appends the text of an integer value.
fn push_int_value(s: &mut String, v: SimValue)
    requires
        v.is_int(),
    ensures
        Some(final(s)@) == (match int_value_text(v) {
            Some(t) => Some(old(s)@ + t),
            None => None,
        }),
{
    match v {
        SimValue::I8(x) => {
            push_str(s, "I8(");
            push_dec_i64(s, x as i64);
        },
        SimValue::I16(x) => {
            push_str(s, "I16(");
            push_dec_i64(s, x as i64);
        },
        SimValue::I32(x) => {
            push_str(s, "I32(");
            push_dec_i64(s, x as i64);
        },
        SimValue::I64(x) => {
            push_str(s, "I64(");
            push_dec_i64(s, x);
        },
        _ => {},
    }
    push_str(s, ")");
    assert(int_value_text(v) matches Some(t) && final(s)@ =~= old(s)@ + t);
}

proof fn lemma_plain_text_prefix_none(p: Seq<PieceV>, k: int)
    requires
        0 <= k <= p.len(),
        plain_text(p.take(k)) is None,
    ensures
        plain_text(p) is None,
    decreases p.len() - k,
{
    if k < p.len() {
        assert(p.take(k + 1).drop_last() =~= p.take(k));
        lemma_plain_text_prefix_none(p, k + 1);
    } else {
        assert(p.take(k) =~= p);
    }
}

proof fn lemma_plain_lines_prefix_none(lines: Seq<Seq<PieceV>>, k: int)
    requires
        0 <= k <= lines.len(),
        plain_lines(lines.take(k)) is None,
    ensures
        plain_lines(lines) is None,
    decreases lines.len() - k,
{
    if k < lines.len() {
        assert(lines.take(k + 1).drop_last() =~= lines.take(k));
        lemma_plain_lines_prefix_none(lines, k + 1);
    } else {
        assert(lines.take(k) =~= lines);
    }
}

impl Line {
    /// The line's text when all its values are integers; `None` when it
    /// holds a float value (render those with the float's own `Display`).
    pub fn plain_text(&self) -> (r: Option<String>)
        ensures
            opt_string_view(r) == plain_text(self@),
    {
        let ghost p = self@;
        let mut s = String::new();
        let mut i: usize = 0;
        while i < self.pieces.len()
            invariant
                p == self@,
                i <= self.pieces@.len(),
                p.len() == self.pieces@.len(),
                plain_text(p.take(i as int)) == Some(s@),
            decreases self.pieces@.len() - i,
        {
            assert(p.take(i + 1).drop_last() =~= p.take(i as int));
            assert(p[i as int] == self.pieces@[i as int]@);
            match &self.pieces[i] {
                Piece::Text(t) => push_str(&mut s, t.as_str()),
                Piece::Value(v) => {
                    if v.is_int_exec() {
                        push_int_value(&mut s, *v);
                    } else {
                        proof {
                            lemma_plain_text_prefix_none(p, i + 1);
                        }
                        return None;
                    }
                },
            }
            i = i + 1;
        }
        assert(p.take(i as int) =~= p);
        Some(s)
    }
}

// ---------- hexdump ----------

/// `n` spaces.
pub open spec fn spaces(n: nat) -> Seq<char> {
    Seq::new(n, |i: int| ' ')
}

/// The character shown for a byte in the ASCII gutter: printable ASCII as
/// itself, anything else as `.`.
pub open spec fn gutter_char(b: u8) -> char {
    if 0x20 <= b < 0x7f {
        b as char
    } else {
        '.'
    }
}

/// The hex cells of a row for columns `0..n`: `xx ` per byte present,
/// three spaces per byte missing, and an extra space before column 8.
pub open spec fn hex_cells(bytes: Seq<u8>, n: nat) -> Seq<char>
    decreases n,
{
    if n == 0 {
        seq![]
    } else {
        let i = (n - 1) as nat;
        hex_cells(bytes, i) + (if i == 8 {
            " "@
        } else {
            seq![]
        }) + (if i < bytes.len() {
            hex_padded(bytes[i as int] as nat, 2) + " "@
        } else {
            "   "@
        })
    }
}

/// One hexdump row: the address in 8 hex digits, 16 hex cells split 8+8,
/// then the bytes in an ASCII gutter padded to 16 columns.
pub open spec fn row_text(addr: nat, bytes: Seq<u8>) -> Seq<char> {
    hex_padded(addr, 8) + ": "@ + hex_cells(bytes, 16) + " |"@ + bytes.map_values(
        |b: u8| gutter_char(b),
    ) + spaces(if bytes.len() < 16 {
        (16 - bytes.len()) as nat
    } else {
        0
    }) + "|"@
}

/// Number of 16-byte rows (the last one possibly short).
pub open spec fn row_count(len: nat) -> nat {
    ((len + 15) / 16) as nat
}

/// Bytes `16 * k ..` of row `k`.
pub open spec fn chunk(mem: Seq<u8>, k: nat) -> Seq<u8> {
    let lo: int = 16 * k as int;
    let hi: int = if 16 * k + 16 <= mem.len() {
        16 * k as int + 16
    } else {
        mem.len() as int
    };
    mem.subrange(lo as int, hi as int)
}

/// Row `k` repeats the full row before it and is not the last row, so it
/// is folded into a `*` line.
pub open spec fn folds(mem: Seq<u8>, k: nat) -> bool {
    &&& k > 0
    &&& k + 1 < row_count(mem.len())
    &&& chunk(mem, k) == chunk(mem, (k - 1) as nat)
}

/// The hexdump lines from row `k` on; `star` says whether the row before
/// was folded.
pub open spec fn hexdump_from(mem: Seq<u8>, k: nat, star: bool) -> Seq<Seq<char>>
    decreases row_count(mem.len()) - k,
{
    if k >= row_count(mem.len()) {
        seq![]
    } else if folds(mem, k) {
        if star {
            hexdump_from(mem, k + 1, true)
        } else {
            seq!["*"@] + hexdump_from(mem, k + 1, true)
        }
    } else {
        seq![row_text(16 * k, chunk(mem, k))] + hexdump_from(mem, k + 1, false)
    }
}

/// The lines of a hexdump of `mem`: one row per 16 bytes, with runs of
/// repeated full rows (other than the last row) shown as a single `*`.
pub open spec fn hexdump_lines(mem: Seq<u8>) -> Seq<Seq<char>> {
    hexdump_from(mem, 0, false)
}

proof fn lemma_hexdump_from_ends_with_last_row(mem: Seq<u8>, k: nat, star: bool)
    requires
        k < row_count(mem.len()),
    ensures
        hexdump_from(mem, k, star).len() > 0,
        hexdump_from(mem, k, star).last() == row_text(
            16 * (row_count(mem.len()) - 1) as nat,
            chunk(mem, (row_count(mem.len()) - 1) as nat),
        ),
    decreases row_count(mem.len()) - k,
{
    let h = hexdump_from(mem, k, star);
    if k + 1 < row_count(mem.len()) {
        lemma_hexdump_from_ends_with_last_row(mem, k + 1, true);
        lemma_hexdump_from_ends_with_last_row(mem, k + 1, false);
        if folds(mem, k) {
            if !star {
                let rest = hexdump_from(mem, k + 1, true);
                assert(h == seq!["*"@] + rest);
                assert(h.last() == rest.last());
            }
        } else {
            let rest = hexdump_from(mem, k + 1, false);
            assert(h == seq![row_text(16 * k, chunk(mem, k))] + rest);
            assert(h.last() == rest.last());
        }
    } else {
        assert(!folds(mem, k));
        assert(hexdump_from(mem, k + 1, false) =~= Seq::<Seq<char>>::empty());
        assert(h =~= seq![row_text(16 * k, chunk(mem, k))]);
    }
}

/// A hexdump of non-empty memory always starts with the first row and ends
/// with the last row: only repeated rows strictly between them are folded.
pub proof fn law_hexdump_shows_first_and_last_rows(mem: Seq<u8>)
    requires
        mem.len() > 0,
    ensures
        hexdump_lines(mem).len() > 0,
        hexdump_lines(mem)[0] == row_text(0, chunk(mem, 0)),
        hexdump_lines(mem).last() == row_text(
            16 * (row_count(mem.len()) - 1) as nat,
            chunk(mem, (row_count(mem.len()) - 1) as nat),
        ),
{
    lemma_hexdump_from_ends_with_last_row(mem, 0, false);
}

/// A hexdump of empty memory has no lines, and a row that is not folded
/// is shown as its own `row_text` line in place.
pub proof fn law_hexdump_rows_in_order(mem: Seq<u8>, k: nat, star: bool)
    ensures
        mem.len() == 0 ==> hexdump_lines(mem).len() == 0,
        k < row_count(mem.len()) && !folds(mem, k) ==> hexdump_from(mem, k, star) == seq![
            row_text(16 * k, chunk(mem, k)),
        ] + hexdump_from(mem, k + 1, false),
        k < row_count(mem.len()) && folds(mem, k) ==> hexdump_from(mem, k, star) == if star {
            hexdump_from(mem, k + 1, true)
        } else {
            seq!["*"@] + hexdump_from(mem, k + 1, true)
        },
{
    assert(row_count(0) == 0);
}

/// A `*` line never follows another `*` line: a run of repeated rows folds
/// into one.
pub proof fn law_hexdump_folds_runs_once(mem: Seq<u8>, k: nat, star: bool, i: int)
    requires
        0 <= i < hexdump_from(mem, k, star).len() - 1,
        hexdump_from(mem, k, star)[i] == "*"@,
    ensures
        hexdump_from(mem, k, star)[i + 1] != "*"@,
    decreases row_count(mem.len()) - k,
{
    reveal_strlit("*");
    let h = hexdump_from(mem, k, star);
    if k < row_count(mem.len()) {
        if folds(mem, k) {
            if star {
                law_hexdump_folds_runs_once(mem, k + 1, true, i);
            } else {
                let rest = hexdump_from(mem, k + 1, true);
                if i == 0 {
                    lemma_star_not_first(mem, k + 1);
                    assert(h[1] == rest[0]);
                } else {
                    assert(h[i] == rest[i - 1]);
                    assert(h[i + 1] == rest[i]);
                    law_hexdump_folds_runs_once(mem, k + 1, true, i - 1);
                }
            }
        } else {
            let rest = hexdump_from(mem, k + 1, false);
            lemma_row_text_not_star(16 * k, chunk(mem, k));
            if i > 0 {
                assert(h[i] == rest[i - 1]);
                assert(h[i + 1] == rest[i]);
                law_hexdump_folds_runs_once(mem, k + 1, false, i - 1);
            }
        }
    }
}

/// Rows after a fold start with a real row (or there are none).
proof fn lemma_star_not_first(mem: Seq<u8>, k: nat)
    ensures
        hexdump_from(mem, k, true).len() > 0 ==> hexdump_from(mem, k, true)[0] != "*"@,
    decreases row_count(mem.len()) - k,
{
    reveal_strlit("*");
    if k < row_count(mem.len()) {
        if folds(mem, k) {
            lemma_star_not_first(mem, k + 1);
        } else {
            lemma_row_text_not_star(16 * k, chunk(mem, k));
        }
    }
}

proof fn lemma_row_text_not_star(addr: nat, bytes: Seq<u8>)
    ensures
        row_text(addr, bytes) != "*"@,
{
    reveal_strlit("*");
    reveal_strlit(": ");
    assert(row_text(addr, bytes).len() > 1);
}

/// Lines each followed by a newline.
pub open spec fn join_lines(lines: Seq<Seq<char>>) -> Seq<char>
    decreases lines.len(),
{
    if lines.len() == 0 {
        seq![]
    } else {
        join_lines(lines.drop_last()) + lines.last() + "\n"@
    }
}

pub open spec fn strings_view(v: Seq<String>) -> Seq<Seq<char>> {
    v.map_values(|s: String| s@)
}

fn gutter(b: u8) -> (c: char)
    ensures
        c == gutter_char(b),
{
    if 0x20 <= b && b < 0x7f {
        b as char
    } else {
        '.'
    }
}

/// One hexdump row, without its newline.
pub fn hexdump_row(addr: usize, bytes: &[u8]) -> (r: String)
    ensures
        r@ == row_text(addr as nat, bytes@),
{
    let mut s = String::new();
    push_hex_padded(&mut s, addr as u64, 8);
    push_str(&mut s, ": ");
    let ghost head = hex_padded(addr as nat, 8) + ": "@;
    let mut i: usize = 0;
    while i < 16
        invariant
            i <= 16,
            s@ == head + hex_cells(bytes@, i as nat),
        decreases 16 - i,
    {
        if i == 8 {
            push_str(&mut s, " ");
        }
        if i < bytes.len() {
            push_hex_padded(&mut s, bytes[i] as u64, 2);
            push_str(&mut s, " ");
        } else {
            push_str(&mut s, "   ");
        }
        assert(s@ =~= head + hex_cells(bytes@, (i + 1) as nat));
        i = i + 1;
    }
    push_str(&mut s, " |");
    let ghost mid = head + hex_cells(bytes@, 16) + " |"@;
    let mut j: usize = 0;
    while j < bytes.len()
        invariant
            j <= bytes@.len(),
            s@ == mid + bytes@.take(j as int).map_values(|b: u8| gutter_char(b)),
        decreases bytes@.len() - j,
    {
        push_char(&mut s, gutter(bytes[j]));
        assert(bytes@.take(j + 1).map_values(|b: u8| gutter_char(b)) =~= bytes@.take(
            j as int,
        ).map_values(|b: u8| gutter_char(b)).push(gutter_char(bytes@[j as int])));
        j = j + 1;
    }
    assert(bytes@.take(j as int) =~= bytes@);
    let ghost body = mid + bytes@.map_values(|b: u8| gutter_char(b));
    let mut k: usize = bytes.len();
    while k < 16
        invariant
            bytes@.len() <= k <= 16 || (k == bytes@.len() && k >= 16),
            s@ == body + spaces((k - bytes@.len()) as nat),
        decreases 16 - k,
    {
        push_char(&mut s, ' ');
        assert(spaces((k + 1 - bytes@.len()) as nat) =~= spaces((k - bytes@.len()) as nat).push(' '));
        k = k + 1;
    }
    push_str(&mut s, "|");
    assert(s@ =~= row_text(addr as nat, bytes@));
    s
}

/// Appends one hexdump row and its newline.
pub fn write_hexdump_row(out: &mut String, addr: usize, bytes: &[u8])
    ensures
        final(out)@ == old(out)@ + row_text(addr as nat, bytes@) + "\n"@,
{
    let row = hexdump_row(addr, bytes);
    push_str(out, row.as_str());
    push_str(out, "\n");
}

/// Whether rows `k` and `k - 1` hold the same bytes (both full).
fn same_as_previous(mem: &[u8], k: usize) -> (r: bool)
    requires
        1 <= k,
        16 * k + 16 <= mem@.len(),
    ensures
        r == (chunk(mem@, k as nat) == chunk(mem@, (k - 1) as nat)),
{
    let len = mem.len();
    let base = 16 * k;
    let prev = base - 16;
    let mut i: usize = 0;
    while i < 16
        invariant
            i <= 16,
            len == mem@.len(),
            base == 16 * k,
            prev + 16 == base,
            base + 16 <= len,
            1 <= k,
            forall|j: int| 0 <= j < i ==> #[trigger] chunk(mem@, k as nat)[j] == chunk(mem@, (k - 1) as nat)[j],
        decreases 16 - i,
    {
        assert(chunk(mem@, k as nat)[i as int] == mem@[base + i]);
        assert(chunk(mem@, (k - 1) as nat)[i as int] == mem@[prev + i]);
        if mem[base + i] != mem[prev + i] {
            return false;
        }
        i = i + 1;
    }
    assert(chunk(mem@, k as nat) =~= chunk(mem@, (k - 1) as nat));
    true
}

/// The lines of a hexdump of `mem` (see [`hexdump_lines`]).
pub fn hexdump_rows(mem: &[u8]) -> (r: Vec<String>)
    ensures
        strings_view(r@) == hexdump_lines(mem@),
{
    let n = mem.len() / 16 + if mem.len() % 16 == 0 {
        0
    } else {
        1
    };
    assert(n == row_count(mem@.len())) by (nonlinear_arith)
        requires
            n == mem@.len() / 16 + if mem@.len() % 16 == 0 {
                0int
            } else {
                1int
            },
    ;
    let len = mem.len();
    let mut out: Vec<String> = Vec::new();
    let mut star = false;
    let mut k: usize = 0;
    while k < n
        invariant
            n == row_count(mem@.len()),
            len == mem@.len(),
            k <= n,
            strings_view(out@) + hexdump_from(mem@, k as nat, star) == hexdump_lines(mem@),
        decreases n - k,
    {
        let ghost before = strings_view(out@);
        assert(16 * k < mem@.len()) by (nonlinear_arith)
            requires
                k < n,
                n == (mem@.len() + 15) / 16,
        ;
        let lo = 16 * k;
        assert(k + 1 < n ==> 16 * k + 16 <= mem@.len()) by (nonlinear_arith)
            requires
                n == (mem@.len() + 15) / 16,
        ;
        let full_repeat = k > 0 && k + 1 < n && same_as_previous(mem, k);
        assert(full_repeat == folds(mem@, k as nat));
        if full_repeat {
            if !star {
                out.push(String::from_str("*"));
                assert(strings_view(out@) =~= before + seq!["*"@]);
            }
            star = true;
        } else {
            let hi = if mem.len() - lo >= 16 {
                lo + 16
            } else {
                mem.len()
            };
            let row = hexdump_row(lo, vstd::slice::slice_subrange(mem, lo, hi));
            out.push(row);
            assert(strings_view(out@) =~= before + seq![row_text((16 * k) as nat, chunk(mem@, k as nat))]);
            star = false;
        }
        k = k + 1;
    }
    assert(strings_view(out@) =~= hexdump_lines(mem@));
    out
}

/// Writes a hexdump of `mem`, each line followed by a newline: address,
/// 16 bytes of hex split 8+8, then an ASCII gutter; repeated all-equal
/// full rows collapse to a `*` line.
pub fn write_hexdump(out: &mut String, mem: &[u8])
    ensures
        final(out)@ == old(out)@ + join_lines(hexdump_lines(mem@)),
{
    let rows = hexdump_rows(mem);
    let mut i: usize = 0;
    while i < rows.len()
        invariant
            i <= rows@.len(),
            strings_view(rows@) == hexdump_lines(mem@),
            out@ == old(out)@ + join_lines(strings_view(rows@).take(i as int)),
        decreases rows@.len() - i,
    {
        push_str(out, rows[i].as_str());
        push_str(out, "\n");
        assert(strings_view(rows@).take(i + 1).drop_last() =~= strings_view(rows@).take(i as int));
        i = i + 1;
    }
    assert(strings_view(rows@).take(i as int) =~= strings_view(rows@));
}

// ---------- the dump ----------

/// A line of a single text piece.
pub open spec fn text_only(t: Seq<char>) -> Seq<PieceV> {
    seq![PieceV::Text(t)]
}

/// The trace section: absent when there is no trace.
pub open spec fn trace_section(t: Seq<Seq<PieceV>>) -> Seq<Seq<PieceV>> {
    if t.len() == 0 {
        seq![]
    } else {
        seq![text_only("=== Trace ==="@)] + t + seq![seq![]]
    }
}

/// `ret[i] = <value>` for each returned value.
pub open spec fn return_lines(r: Seq<SimValue>) -> Seq<Seq<PieceV>> {
    Seq::new(
        r.len(),
        |i: int| seq![PieceV::Text("ret["@ + dec_nat(i as nat) + "] = "@), PieceV::Value(r[i])],
    )
}

pub open spec fn returns_section(r: Seq<SimValue>) -> Seq<Seq<PieceV>> {
    seq![text_only("=== Returns ==="@)] + (if r.len() == 0 {
        seq![text_only("(none)"@)]
    } else {
        return_lines(r)
    }) + seq![seq![]]
}

/// `v<n> = <value>` for each bound register among the first `k`, in
/// value order.
pub open spec fn register_lines(regs: Seq<Option<SimValue>>, k: nat) -> Seq<Seq<PieceV>>
    decreases k,
{
    if k == 0 {
        seq![]
    } else {
        let rest = register_lines(regs, (k - 1) as nat);
        match regs[k - 1] {
            Some(v) => rest.push(
                seq![PieceV::Text("v"@ + dec_nat((k - 1) as nat) + " = "@), PieceV::Value(v)],
            ),
            None => rest,
        }
    }
}

pub open spec fn registers_section(regs: Seq<Option<SimValue>>) -> Seq<Seq<PieceV>> {
    let lines = register_lines(regs, regs.len());
    seq![text_only("=== Registers (SSA) ==="@)] + (if lines.len() == 0 {
        seq![text_only("(none)"@)]
    } else {
        lines
    }) + seq![seq![]]
}

/// Number of non-zero bytes among the first `k`.
pub open spec fn nonzero_count(mem: Seq<u8>, k: nat) -> nat
    decreases k,
{
    if k == 0 {
        0
    } else {
        nonzero_count(mem, (k - 1) as nat) + if mem[k - 1] != 0 {
            1nat
        } else {
            0nat
        }
    }
}

pub open spec fn memory_section(mem: Seq<u8>) -> Seq<Seq<PieceV>> {
    seq![
        text_only(
            "=== Memory ("@ + dec_nat(mem.len()) + " bytes, "@ + dec_nat(nonzero_count(mem, mem.len()))
                + " non-zero) ==="@,
        ),
    ] + hexdump_lines(mem).map_values(|l: Seq<char>| text_only(l))
}

pub open spec fn halted_section(e: Option<SimErrorV>) -> Seq<Seq<PieceV>> {
    match e {
        Some(err) => seq![seq![], text_only("=== Halted ==="@), text_only(err_text(err))],
        None => seq![],
    }
}

/// The four-section debug dump of a result: the trace (when there is
/// one), the returns, the SSA register table and a hexdump of memory, then
/// the error when the run halted.
pub open spec fn dump_lines(r: SimResultV) -> Seq<Seq<PieceV>> {
    trace_section(r.trace) + returns_section(r.returns) + registers_section(r.registers)
        + memory_section(r.memory) + halted_section(r.error)
}

fn copy_piece(p: &Piece) -> (r: Piece)
    ensures
        r@ == p@,
{
    match p {
        Piece::Text(t) => Piece::Text(t.clone()),
        Piece::Value(v) => Piece::Value(*v),
    }
}

fn copy_line(l: &Line) -> (r: Line)
    ensures
        r@ == l@,
{
    let mut pieces: Vec<Piece> = Vec::new();
    let mut i: usize = 0;
    while i < l.pieces.len()
        invariant
            i <= l.pieces@.len(),
            crate::sim::trace::pieces_view(pieces@) =~= l@.take(i as int),
        decreases l.pieces@.len() - i,
    {
        let p = copy_piece(&l.pieces[i]);
        proof {
            crate::sim::trace::lemma_pieces_view_push(pieces@, p);
        }
        pieces.push(p);
        assert(l@.take(i + 1) =~= l@.take(i as int).push(l.pieces@[i as int]@));
        i = i + 1;
    }
    let r = Line { pieces };
    assert(r@ =~= l@);
    r
}

fn text(s: &str) -> (r: Line)
    ensures
        r@ == text_only(s@),
{
    crate::sim::trace::text_line(String::from_str(s))
}

fn blank() -> (r: Line)
    ensures
        r@ == Seq::<PieceV>::empty(),
{
    let r = Line { pieces: Vec::new() };
    assert(r@ =~= Seq::<PieceV>::empty());
    r
}

fn add_line(lines: &mut Vec<Line>, l: Line)
    ensures
        trace_view(final(lines)@) == trace_view(old(lines)@).push(l@),
{
    proof {
        crate::sim::machine::lemma_trace_view_push(old(lines)@, l);
    }
    lines.push(l);
}

fn push_trace_section(out: &mut Vec<Line>, trace: &Vec<Line>)
    ensures
        trace_view(final(out)@) == trace_view(old(out)@) + trace_section(trace_view(trace@)),
{
    if trace.len() > 0 {
        add_line(out, text("=== Trace ==="));
        let ghost base = trace_view(out@);
        let mut i: usize = 0;
        while i < trace.len()
            invariant
                i <= trace@.len(),
                trace_view(out@) == base + trace_view(trace@).take(i as int),
            decreases trace@.len() - i,
        {
            let l = copy_line(&trace[i]);
            add_line(out, l);
            assert(base + trace_view(trace@).take(i + 1) =~= (base + trace_view(trace@).take(
                i as int,
            )).push(trace@[i as int]@));
            i = i + 1;
        }
        add_line(out, blank());
        assert(trace_view(trace@).take(i as int) =~= trace_view(trace@));
    }
    assert(trace_view(out@) =~= trace_view(old(out)@) + trace_section(trace_view(trace@)));
}

fn push_returns_section(out: &mut Vec<Line>, vals: &Vec<SimValue>)
    ensures
        trace_view(final(out)@) == trace_view(old(out)@) + returns_section(vals@),
{
    add_line(out, text("=== Returns ==="));
    if vals.len() == 0 {
        add_line(out, text("(none)"));
    } else {
        let ghost base = trace_view(out@);
        let mut i: usize = 0;
        while i < vals.len()
            invariant
                i <= vals@.len(),
                trace_view(out@) == base + return_lines(vals@).take(i as int),
            decreases vals@.len() - i,
        {
            let mut head = String::from_str("ret[");
            push_dec_u64(&mut head, i as u64);
            push_str(&mut head, "] = ");
            let mut l = crate::sim::trace::text_line(head);
            crate::sim::trace::add_value(&mut l, vals[i]);
            assert(l@ =~= return_lines(vals@)[i as int]);
            add_line(out, l);
            assert(base + return_lines(vals@).take(i + 1) =~= (base + return_lines(vals@).take(
                i as int,
            )).push(return_lines(vals@)[i as int]));
            i = i + 1;
        }
        assert(return_lines(vals@).take(i as int) =~= return_lines(vals@));
    }
    add_line(out, blank());
    assert(trace_view(out@) =~= trace_view(old(out)@) + returns_section(vals@));
}

fn push_registers_section(out: &mut Vec<Line>, slots: &Vec<Option<SimValue>>)
    ensures
        trace_view(final(out)@) == trace_view(old(out)@) + registers_section(slots@),
{
    add_line(out, text("=== Registers (SSA) ==="));
    let ghost base = trace_view(out@);
    let mut any = false;
    let mut i: usize = 0;
    while i < slots.len()
        invariant
            i <= slots@.len(),
            trace_view(out@) == base + register_lines(slots@, i as nat),
            any == (register_lines(slots@, i as nat).len() > 0),
        decreases slots@.len() - i,
    {
        match slots[i] {
            Some(v) => {
                let mut head = String::from_str("v");
                push_dec_u64(&mut head, i as u64);
                push_str(&mut head, " = ");
                let mut l = crate::sim::trace::text_line(head);
                crate::sim::trace::add_value(&mut l, v);
                assert(l@ =~= seq![
                    PieceV::Text("v"@ + dec_nat(i as nat) + " = "@),
                    PieceV::Value(v),
                ]);
                add_line(out, l);
                any = true;
            },
            None => {},
        }
        assert(base + register_lines(slots@, (i + 1) as nat) =~= trace_view(out@));
        i = i + 1;
    }
    if !any {
        add_line(out, text("(none)"));
    }
    add_line(out, blank());
    assert(trace_view(out@) =~= trace_view(old(out)@) + registers_section(slots@));
}

fn push_memory_section(out: &mut Vec<Line>, mem: &Vec<u8>)
    ensures
        trace_view(final(out)@) == trace_view(old(out)@) + memory_section(mem@),
{
    let mut nonzero: usize = 0;
    let mut i: usize = 0;
    while i < mem.len()
        invariant
            i <= mem@.len(),
            nonzero == nonzero_count(mem@, i as nat),
            nonzero <= i,
        decreases mem@.len() - i,
    {
        if mem[i] != 0 {
            nonzero = nonzero + 1;
        }
        i = i + 1;
    }
    let mut head = String::from_str("=== Memory (");
    push_dec_u64(&mut head, mem.len() as u64);
    push_str(&mut head, " bytes, ");
    push_dec_u64(&mut head, nonzero as u64);
    push_str(&mut head, " non-zero) ===");
    add_line(out, crate::sim::trace::text_line(head));
    let ghost base = trace_view(out@);
    let rows = hexdump_rows(mem.as_slice());
    let ghost hex = hexdump_lines(mem@).map_values(|l: Seq<char>| text_only(l));
    let mut j: usize = 0;
    while j < rows.len()
        invariant
            j <= rows@.len(),
            strings_view(rows@) == hexdump_lines(mem@),
            hex == hexdump_lines(mem@).map_values(|l: Seq<char>| text_only(l)),
            trace_view(out@) == base + hex.take(j as int),
        decreases rows@.len() - j,
    {
        let row = rows[j].clone();
        assert(row@ == strings_view(rows@)[j as int]);
        add_line(out, crate::sim::trace::text_line(row));
        assert(base + hex.take(j + 1) =~= (base + hex.take(j as int)).push(hex[j as int]));
        j = j + 1;
    }
    assert(hex.take(j as int) =~= hex);
    assert(trace_view(out@) =~= trace_view(old(out)@) + memory_section(mem@));
}

fn push_halted_section(out: &mut Vec<Line>, e: &Option<SimError>)
    ensures
        trace_view(final(out)@) == trace_view(old(out)@) + halted_section(opt_err_view(*e)),
{
    match e {
        Some(err) => {
            add_line(out, blank());
            add_line(out, text("=== Halted ==="));
            add_line(out, crate::sim::trace::text_line(err.message()));
        },
        None => {},
    }
    assert(trace_view(out@) =~= trace_view(old(out)@) + halted_section(opt_err_view(*e)));
}

impl SimResult {
    /// Appends the four-section debug dump (see [`dump_lines`]): the
    /// trace when there is one, the returns, the SSA register table and a
    /// hexdump of memory, then the error when the run halted. Values stay
    /// pieces for the caller to render.
    pub fn dump_to(&self, out: &mut Vec<Line>)
        ensures
            trace_view(final(out)@) == trace_view(old(out)@) + dump_lines(self@),
    {
        push_trace_section(out, &self.trace);
        push_returns_section(out, &self.returns);
        push_registers_section(out, &self.registers.slots);
        push_memory_section(out, &self.memory);
        push_halted_section(out, &self.error);
        assert(trace_view(out@) =~= trace_view(old(out)@) + dump_lines(self@));
    }

    /// The lines of the debug dump (see [`dump_lines`]).
    pub fn dump_lines(&self) -> (r: Vec<Line>)
        ensures
            trace_view(r@) == dump_lines(self@),
    {
        let mut out: Vec<Line> = Vec::new();
        assert(trace_view(out@) =~= seq![]);
        self.dump_to(&mut out);
        assert(trace_view(out@) =~= dump_lines(self@));
        out
    }

    /// The debug dump as text, each line followed by a newline, when no
    /// float value appears in it; `None` otherwise.
    pub fn dump_text(&self) -> (r: Option<String>)
        ensures
            opt_string_view(r) == plain_lines(dump_lines(self@)),
    {
        let lines = self.dump_lines();
        let ghost ls = trace_view(lines@);
        let mut out = String::new();
        let mut i: usize = 0;
        while i < lines.len()
            invariant
                i <= lines@.len(),
                ls == trace_view(lines@),
                ls == dump_lines(self@),
                plain_lines(ls.take(i as int)) == Some(out@),
            decreases lines@.len() - i,
        {
            assert(ls.take(i + 1).drop_last() =~= ls.take(i as int));
            assert(ls.take(i + 1).last() == lines@[i as int]@);
            match lines[i].plain_text() {
                Some(t) => {
                    push_str(&mut out, t.as_str());
                    push_str(&mut out, "\n");
                },
                None => {
                    proof {
                        assert(ls.len() == lines@.len());
                        assert(plain_text(ls.take(i + 1).last()) is None);
                        assert(plain_lines(ls.take(i + 1)) is None);
                        lemma_plain_lines_prefix_none(ls, i + 1);
                    }
                    return None;
                },
            }
            i = i + 1;
        }
        assert(ls.take(i as int) =~= ls);
        Some(out)
    }
}

} // verus!
