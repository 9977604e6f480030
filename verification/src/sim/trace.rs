//! The text of trace lines and error messages. A line is a sequence of
//! pieces: literal text, and simulator values, which are rendered later
//! (integers here, floats by the caller).

use vstd::prelude::*;
use vstd::utf8::{decode_utf8, valid_utf8};

use crate::sim::error::{SimError, SimErrorV};
use crate::sim::value::SimValue;
use crate::sim::error::{push_ty_text, ty_named, ty_text};
use crate::sim::ir::IrFunction;
use crate::text::{
    dec_nat, debug_str, hex_nat, push_dec_u64, push_digits, push_str, str_debug, utf8_string,
};

verus! {

/// A piece of a rendered line: literal text or a value.
#[derive(Clone, Debug)]
pub enum Piece {
    Text(String),
    Value(SimValue),
}

/// The view of a [`Piece`].
pub enum PieceV {
    Text(Seq<char>),
    Value(SimValue),
}

impl View for Piece {
    type V = PieceV;

    open spec fn view(&self) -> PieceV {
        match self {
            Piece::Text(s) => PieceV::Text(s@),
            Piece::Value(v) => PieceV::Value(*v),
        }
    }
}

/// The view of a sequence of pieces.
pub open spec fn pieces_view(p: Seq<Piece>) -> Seq<PieceV> {
    p.map_values(|x: Piece| x@)
}

pub proof fn lemma_pieces_view_push(p: Seq<Piece>, x: Piece)
    ensures
        pieces_view(p.push(x)) == pieces_view(p).push(x@),
{
    assert(pieces_view(p.push(x)) =~= pieces_view(p).push(x@));
}

/// One line of text made of pieces.
#[derive(Clone, Debug)]
pub struct Line {
    pub pieces: Vec<Piece>,
}

impl View for Line {
    type V = Seq<PieceV>;

    open spec fn view(&self) -> Seq<PieceV> {
        pieces_view(self.pieces@)
    }
}

/// Appends a text piece.
pub fn add_text(line: &mut Line, s: String)
    ensures
        final(line)@ == old(line)@.push(PieceV::Text(s@)),
{
    proof {
        lemma_pieces_view_push(line.pieces@, Piece::Text(s));
    }
    line.pieces.push(Piece::Text(s));
}

/// Appends a value piece.
pub fn add_value(line: &mut Line, v: SimValue)
    ensures
        final(line)@ == old(line)@.push(PieceV::Value(v)),
{
    proof {
        lemma_pieces_view_push(line.pieces@, Piece::Value(v));
    }
    line.pieces.push(Piece::Value(v));
}

/// `v<n>`, the display name of an SSA value.
pub open spec fn value_name(n: u32) -> Seq<char> {
    "v"@ + dec_nat(n as nat)
}

/// `inst<n>`, the display name of an instruction.
pub open spec fn inst_name(n: u32) -> Seq<char> {
    "inst"@ + dec_nat(n as nat)
}

/// `block<n>`, the display name of a block.
pub open spec fn block_name(n: u32) -> Seq<char> {
    "block"@ + dec_nat(n as nat)
}

/// Appends `<prefix><n>`.
pub fn push_named(s: &mut String, prefix: &str, n: u32)
    ensures
        final(s)@ == old(s)@ + prefix@ + dec_nat(n as nat),
{
    push_str(s, prefix);
    push_dec_u64(s, n as u64);
}

/// The message of an error, as its `Display` gives it.
pub open spec fn err_text(e: SimErrorV) -> Seq<char> {
    match e {
        SimErrorV::UnsupportedOpcode(name) => "unsupported opcode `"@ + name + "`"@,
        SimErrorV::OutOfBounds { addr, size, memory_len } => "out-of-bounds access: addr=0x"@
            + hex_nat(addr as nat) + " size="@ + dec_nat(size as nat) + " memory_len="@ + dec_nat(
            memory_len as nat,
        ),
        SimErrorV::UndefinedValue(v) => "undefined SSA value "@ + value_name(v),
        SimErrorV::TypeMismatch(s) => "type mismatch: "@ + s,
        SimErrorV::StepLimitExceeded { limit } => "step limit exceeded ("@ + dec_nat(limit as nat)
            + " instructions) \u{2014} possible infinite loop"@,
    }
}

impl SimError {
    /// The error's message (what `Display` prints for it).
    pub fn message(&self) -> (r: String)
        ensures
            r@ == err_text(self@),
    {
        let mut s = String::new();
        match self {
            SimError::UnsupportedOpcode(name) => {
                push_str(&mut s, "unsupported opcode `");
                push_str(&mut s, name.as_str());
                push_str(&mut s, "`");
            },
            SimError::OutOfBounds { addr, size, memory_len } => {
                push_str(&mut s, "out-of-bounds access: addr=0x");
                push_digits(&mut s, *addr, 16);
                push_str(&mut s, " size=");
                push_dec_u64(&mut s, *size as u64);
                push_str(&mut s, " memory_len=");
                push_dec_u64(&mut s, *memory_len as u64);
            },
            SimError::UndefinedValue(v) => {
                push_str(&mut s, "undefined SSA value ");
                push_named(&mut s, "v", *v);
            },
            SimError::TypeMismatch(m) => {
                push_str(&mut s, "type mismatch: ");
                push_str(&mut s, m.as_str());
            },
            SimError::StepLimitExceeded { limit } => {
                push_str(&mut s, "step limit exceeded (");
                push_dec_u64(&mut s, *limit as u64);
                push_str(&mut s, " instructions) \u{2014} possible infinite loop");
            },
        }
        assert(s@ =~= err_text(self@));
        s
    }
}

/// `  ! halt: <error> at inst<n>`.
pub open spec fn halt_line(e: SimErrorV, inst: u32) -> Seq<PieceV> {
    seq![PieceV::Text("  ! halt: "@ + err_text(e) + " at "@ + inst_name(inst))]
}

/// `  jump block<n>`.
pub open spec fn jump_line(target: u32) -> Seq<PieceV> {
    seq![PieceV::Text("  jump "@ + block_name(target))]
}

/// `  brif <cond> -> block<n> (then|else)`.
pub open spec fn brif_line(cond: bool, target: u32) -> Seq<PieceV> {
    seq![
        PieceV::Text(
            "  brif "@ + (if cond {
                "true"@
            } else {
                "false"@
            }) + " -> "@ + block_name(target) + " ("@ + (if cond {
                "then"@
            } else {
                "else"@
            }) + ")"@,
        ),
    ]
}

/// Parts joined by `, `.
pub open spec fn join_parts(parts: Seq<Seq<PieceV>>) -> Seq<PieceV>
    decreases parts.len(),
{
    if parts.len() == 0 {
        seq![]
    } else if parts.len() == 1 {
        parts[0]
    } else {
        join_parts(parts.drop_last()) + seq![PieceV::Text(", "@)] + parts.last()
    }
}

/// Each value as a part of its own.
pub open spec fn value_parts(vals: Seq<SimValue>) -> Seq<Seq<PieceV>> {
    vals.map_values(|v: SimValue| seq![PieceV::Value(v)])
}

/// Values joined by `, `.
pub open spec fn join_values(vals: Seq<SimValue>) -> Seq<PieceV> {
    join_parts(value_parts(vals))
}

pub proof fn lemma_join_parts_push(parts: Seq<Seq<PieceV>>, x: Seq<PieceV>)
    ensures
        join_parts(parts.push(x)) == if parts.len() == 0 {
            x
        } else {
            join_parts(parts) + seq![PieceV::Text(", "@)] + x
        },
{
    assert(parts.push(x).drop_last() =~= parts);
}

/// Appends the values joined by `, `.
pub fn add_values(line: &mut Line, vals: &Vec<SimValue>)
    ensures
        final(line)@ == old(line)@ + join_values(vals@),
{
    let n = vals.len();
    let mut i: usize = 0;
    while i < n
        invariant
            n == vals@.len(),
            i <= n,
            line@ == old(line)@ + join_values(vals@.take(i as int)),
        decreases n - i,
    {
        let ghost before = line@;
        if i > 0 {
            add_text(line, String::from_str(", "));
        }
        add_value(line, vals[i]);
        proof {
            assert(value_parts(vals@.take(i + 1)) =~= value_parts(vals@.take(i as int)).push(
                seq![PieceV::Value(vals@[i as int])],
            ));
            lemma_join_parts_push(
                value_parts(vals@.take(i as int)),
                seq![PieceV::Value(vals@[i as int])],
            );
            if i > 0 {
                assert(line@ =~= old(line)@ + join_values(vals@.take(i + 1)));
            } else {
                assert(line@ =~= old(line)@ + join_values(vals@.take(i + 1)));
            }
        }
        i = i + 1;
    }
    assert(vals@.take(n as int) =~= vals@);
}

/// `  return [<values>]`.
pub open spec fn return_line(vals: Seq<SimValue>) -> Seq<PieceV> {
    seq![PieceV::Text("  return ["@)] + join_values(vals) + seq![PieceV::Text("]"@)]
}

/// Names joined by `, `.
pub open spec fn join_names(vs: Seq<u32>) -> Seq<char>
    decreases vs.len(),
{
    if vs.len() == 0 {
        seq![]
    } else if vs.len() == 1 {
        value_name(vs[0])
    } else {
        join_names(vs.drop_last()) + ", "@ + value_name(vs.last())
    }
}

/// `v1, v2 = ` for a non-empty list of results, nothing otherwise.
pub open spec fn results_prefix(results: Seq<u32>) -> Seq<char> {
    if results.len() == 0 {
        seq![]
    } else {
        join_names(results) + " = "@
    }
}

/// `  <results> = <opcode> [<values>]`.
pub open spec fn produce_line(results: Seq<u32>, opname: Seq<char>, produced: Seq<SimValue>) -> Seq<
    PieceV,
> {
    seq![PieceV::Text("  "@ + results_prefix(results) + opname + " ["@)] + join_values(produced)
        + seq![PieceV::Text("]"@)]
}

/// Appends the value names joined by `, `.
pub fn push_names(s: &mut String, vs: &Vec<u32>)
    ensures
        final(s)@ == old(s)@ + join_names(vs@),
{
    let n = vs.len();
    let mut i: usize = 0;
    while i < n
        invariant
            n == vs@.len(),
            i <= n,
            s@ == old(s)@ + join_names(vs@.take(i as int)),
        decreases n - i,
    {
        if i > 0 {
            push_str(s, ", ");
        }
        push_named(s, "v", vs[i]);
        proof {
            assert(vs@.take(i + 1).drop_last() =~= vs@.take(i as int));
            assert(s@ =~= old(s)@ + join_names(vs@.take(i + 1)));
        }
        i = i + 1;
    }
    assert(vs@.take(n as int) =~= vs@);
}

/// Builds the trace line of an instruction that produced values.
pub fn make_produce_line(results: &Vec<u32>, opname: &String, produced: &Vec<SimValue>) -> (r:
    Line)
    ensures
        r@ == produce_line(results@, opname@, produced@),
{
    let mut s = String::new();
    push_str(&mut s, "  ");
    if results.len() > 0 {
        push_names(&mut s, results);
        push_str(&mut s, " = ");
    }
    push_str(&mut s, opname.as_str());
    push_str(&mut s, " [");
    assert(s@ =~= "  "@ + results_prefix(results@) + opname@ + " ["@);
    let mut line = Line { pieces: Vec::new() };
    assert(line@ =~= seq![]);
    add_text(&mut line, s);
    add_values(&mut line, produced);
    add_text(&mut line, String::from_str("]"));
    assert(line@ =~= produce_line(results@, opname@, produced@));
    line
}

/// Builds `  return [<values>]`.
pub fn make_return_line(vals: &Vec<SimValue>) -> (r: Line)
    ensures
        r@ == return_line(vals@),
{
    let mut line = Line { pieces: Vec::new() };
    assert(line@ =~= seq![]);
    add_text(&mut line, String::from_str("  return ["));
    add_values(&mut line, vals);
    add_text(&mut line, String::from_str("]"));
    assert(line@ =~= return_line(vals@));
    line
}

/// Builds a one-piece text line.
pub fn text_line(s: String) -> (r: Line)
    ensures
        r@ == seq![PieceV::Text(s@)],
{
    let mut line = Line { pieces: Vec::new() };
    assert(line@ =~= seq![]);
    add_text(&mut line, s);
    line
}

/// Builds `  ! halt: <error> at inst<n>`.
pub fn make_halt_line(e: &SimError, inst: u32) -> (r: Line)
    ensures
        r@ == halt_line(e@, inst),
{
    let mut s = String::new();
    push_str(&mut s, "  ! halt: ");
    let m = e.message();
    push_str(&mut s, m.as_str());
    push_str(&mut s, " at ");
    push_named(&mut s, "inst", inst);
    assert(s@ =~= "  ! halt: "@ + err_text(e@) + " at "@ + inst_name(inst));
    text_line(s)
}

/// Builds `  jump block<n>`.
pub fn make_jump_line(target: u32) -> (r: Line)
    ensures
        r@ == jump_line(target),
{
    let mut s = String::new();
    push_str(&mut s, "  jump ");
    push_named(&mut s, "block", target);
    assert(s@ =~= "  jump "@ + block_name(target));
    text_line(s)
}

/// Builds `  brif <cond> -> block<n> (then|else)`.
pub fn make_brif_line(cond: bool, target: u32) -> (r: Line)
    ensures
        r@ == brif_line(cond, target),
{
    let mut s = String::new();
    push_str(&mut s, "  brif ");
    push_str(&mut s, if cond { "true" } else { "false" });
    push_str(&mut s, " -> ");
    push_named(&mut s, "block", target);
    push_str(&mut s, " (");
    push_str(&mut s, if cond { "then" } else { "else" });
    push_str(&mut s, ")");
    assert(s@ =~= "  brif "@ + (if cond {
        "true"@
    } else {
        "false"@
    }) + " -> "@ + block_name(target) + " ("@ + (if cond {
        "then"@
    } else {
        "else"@
    }) + ")"@);
    text_line(s)
}

/// `lo + n`, saturating at `usize::MAX`.
pub open spec fn sat_add(lo: usize, n: usize) -> usize {
    if lo + n > usize::MAX {
        usize::MAX
    } else {
        (lo + n) as usize
    }
}

/// The string preview of call argument `i`: when it is an `I64` followed
/// by an `I64` length in `1..=64`, and that many bytes at the first one's
/// address lie in memory and are valid UTF-8, their `Debug` text.
pub open spec fn arg_preview(args: Seq<SimValue>, mem: Seq<u8>, i: int) -> Option<Seq<char>> {
    if i + 1 < args.len() && args[i] is I64 && args[i + 1] is I64 {
        let p = args[i]->I64_0;
        let l = args[i + 1]->I64_0;
        let lo = p as u64 as usize;
        let hi = sat_add(lo, l as usize);
        if 1 <= l <= 64 && hi <= mem.len() && valid_utf8(mem.subrange(lo as int, hi as int)) {
            Some(str_debug(decode_utf8(mem.subrange(lo as int, hi as int))))
        } else {
            None
        }
    } else {
        None
    }
}

/// The parts of a call's argument list from argument `i` on: each value on
/// its own, except that a previewed pointer is followed by ` -> <text>` and
/// its length argument forms the next part.
pub open spec fn call_parts(args: Seq<SimValue>, mem: Seq<u8>, i: int) -> Seq<Seq<PieceV>>
    decreases args.len() - i,
{
    if i < 0 || i >= args.len() {
        seq![]
    } else {
        match arg_preview(args, mem, i) {
            Some(t) => seq![
                seq![PieceV::Value(args[i]), PieceV::Text(" -> "@ + t)],
                seq![PieceV::Value(args[i + 1])],
            ] + call_parts(args, mem, i + 2),
            None => seq![seq![PieceV::Value(args[i])]] + call_parts(args, mem, i + 1),
        }
    }
}

/// `v<n>:<type>` names of call results joined by `, `.
pub open spec fn typed_names(f: &IrFunction, vs: Seq<u32>) -> Seq<char>
    decreases vs.len(),
{
    if vs.len() == 0 {
        seq![]
    } else if vs.len() == 1 {
        value_name(vs[0]) + ":"@ + ty_text(f, f.value_types@[vs[0] as int])
    } else {
        typed_names(f, vs.drop_last()) + ", "@ + value_name(vs.last()) + ":"@ + ty_text(
            f,
            f.value_types@[vs.last() as int],
        )
    }
}

/// ` -> <typed names>` for a call with results, nothing otherwise.
pub open spec fn call_results_text(f: &IrFunction, vs: Seq<u32>) -> Seq<char> {
    if vs.len() == 0 {
        seq![]
    } else {
        " -> "@ + typed_names(f, vs)
    }
}

/// `  call <callee>(<args>)<results>`.
pub open spec fn call_line(
    callee: Seq<char>,
    args: Seq<SimValue>,
    mem: Seq<u8>,
    results_text: Seq<char>,
) -> Seq<PieceV> {
    seq![PieceV::Text("  call "@ + callee + "("@)] + join_parts(call_parts(args, mem, 0)) + seq![
        PieceV::Text(")"@ + results_text),
    ]
}

/// The values in `vs` all have a type whose name is known.
pub open spec fn all_typed(f: &IrFunction, vs: Seq<u32>) -> bool {
    forall|i: int|
        0 <= i < vs.len() ==> #[trigger] vs[i] < f.value_types@.len() && ty_named(
            f,
            f.value_types@[vs[i] as int],
        )
}

fn preview(args: &Vec<SimValue>, mem: &Vec<u8>, i: usize) -> (r: Option<String>)
    requires
        i < args@.len(),
    ensures
        match arg_preview(args@, mem@, i as int) {
            Some(t) => r matches Some(s) && s@ == t,
            None => r is None,
        },
{
    if i < args.len() - 1 {
        if let SimValue::I64(p) = args[i] {
            if let SimValue::I64(l) = args[i + 1] {
                if 1 <= l && l <= 64 {
                    let lo = p as u64 as usize;
                    let hi = lo.saturating_add(l as usize);
                    if hi <= mem.len() {
                        match utf8_string(mem, lo, hi) {
                            Some(s) => {
                                return Some(debug_str(s.as_str()));
                            },
                            None => {
                                return None;
                            },
                        }
                    }
                }
            }
        }
    }
    None
}

/// Appends the parts of a call's argument list.
fn add_call_args(line: &mut Line, args: &Vec<SimValue>, mem: &Vec<u8>)
    ensures
        final(line)@ == old(line)@ + join_parts(call_parts(args@, mem@, 0)),
{
    let n = args.len();
    let mut i: usize = 0;
    let ghost mut done: Seq<Seq<PieceV>> = seq![];
    assert(call_parts(args@, mem@, 0) =~= done + call_parts(args@, mem@, 0));
    while i < n
        invariant
            n == args@.len(),
            i <= n,
            done + call_parts(args@, mem@, i as int) == call_parts(args@, mem@, 0),
            line@ == old(line)@ + join_parts(done),
            (i > 0) == (done.len() > 0),
        decreases n - i,
    {
        match preview(args, mem, i) {
            Some(t) => {
                if i > 0 {
                    add_text(line, String::from_str(", "));
                }
                add_value(line, args[i]);
                let mut s = String::from_str(" -> ");
                push_str(&mut s, t.as_str());
                add_text(line, s);
                add_text(line, String::from_str(", "));
                add_value(line, args[i + 1]);
                proof {
                    let p1 = seq![PieceV::Value(args@[i as int]), PieceV::Text(" -> "@ + t@)];
                    let p2 = seq![PieceV::Value(args@[i + 1])];
                    lemma_join_parts_push(done, p1);
                    lemma_join_parts_push(done.push(p1), p2);
                    assert(call_parts(args@, mem@, i as int) =~= seq![p1, p2] + call_parts(
                        args@,
                        mem@,
                        i + 2,
                    ));
                    assert(done.push(p1).push(p2) + call_parts(args@, mem@, i + 2) =~= done
                        + call_parts(args@, mem@, i as int));
                    assert(line@ =~= old(line)@ + join_parts(done.push(p1).push(p2)));
                    done = done.push(p1).push(p2);
                }
                i = i + 2;
            },
            None => {
                if i > 0 {
                    add_text(line, String::from_str(", "));
                }
                add_value(line, args[i]);
                proof {
                    let p1 = seq![PieceV::Value(args@[i as int])];
                    lemma_join_parts_push(done, p1);
                    assert(call_parts(args@, mem@, i as int) =~= seq![p1] + call_parts(
                        args@,
                        mem@,
                        i + 1,
                    ));
                    assert(done.push(p1) + call_parts(args@, mem@, i + 1) =~= done + call_parts(
                        args@,
                        mem@,
                        i as int,
                    ));
                    assert(line@ =~= old(line)@ + join_parts(done.push(p1)));
                    done = done.push(p1);
                }
                i = i + 1;
            },
        }
    }
    assert(call_parts(args@, mem@, n as int) =~= seq![]);
    assert(done =~= call_parts(args@, mem@, 0));
}

/// Appends the `v<n>:<type>` names joined by `, `.
fn push_typed_names(s: &mut String, f: &IrFunction, vs: &Vec<u32>)
    requires
        all_typed(f, vs@),
    ensures
        final(s)@ == old(s)@ + typed_names(f, vs@),
{
    let n = vs.len();
    let mut i: usize = 0;
    while i < n
        invariant
            n == vs@.len(),
            i <= n,
            all_typed(f, vs@),
            s@ == old(s)@ + typed_names(f, vs@.take(i as int)),
        decreases n - i,
    {
        if i > 0 {
            push_str(s, ", ");
        }
        let v = vs[i];
        assert(all_typed(f, vs@) ==> v < f.value_types@.len());
        push_named(s, "v", v);
        push_str(s, ":");
        push_ty_text(s, f, f.value_types[v as usize]);
        proof {
            assert(vs@.take(i + 1).drop_last() =~= vs@.take(i as int));
            assert(s@ =~= old(s)@ + typed_names(f, vs@.take(i + 1)));
        }
        i = i + 1;
    }
    assert(vs@.take(n as int) =~= vs@);
}

/// Builds `  call <callee>(<args>)<results>`.
pub fn make_call_line(
    callee: &String,
    args: &Vec<SimValue>,
    mem: &Vec<u8>,
    f: &IrFunction,
    results: &Vec<u32>,
) -> (r: Line)
    requires
        all_typed(f, results@),
    ensures
        r@ == call_line(callee@, args@, mem@, call_results_text(f, results@)),
{
    let mut head = String::from_str("  call ");
    push_str(&mut head, callee.as_str());
    push_str(&mut head, "(");
    let mut line = Line { pieces: Vec::new() };
    assert(line@ =~= seq![]);
    add_text(&mut line, head);
    add_call_args(&mut line, args, mem);
    let mut tail = String::from_str(")");
    if results.len() > 0 {
        push_str(&mut tail, " -> ");
        push_typed_names(&mut tail, f, results);
    }
    assert(tail@ =~= ")"@ + call_results_text(f, results@));
    add_text(&mut line, tail);
    assert(line@ =~= call_line(callee@, args@, mem@, call_results_text(f, results@)));
    line
}

} // verus!
