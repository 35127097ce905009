//! Serialisation of an instruction batch to the textual wire format the
//! engine accepts: one JSON array of arrays, each inner array an opcode
//! followed by its payload fields in fixed order.

use vstd::prelude::*;

use vstd::string::StrSliceExecFns;

use crate::graph::{PropVal, PropValue, ScalarVal, ScalarValue};
use crate::instruction::{Inst, Instruction, InstructionBatch};

verus! {

/// Relies on `String::push`: appends exactly the given character at the
/// end of the string.
pub assume_specification[ String::push ](s: &mut String, ch: char)
    ensures
        final(s)@ == old(s)@.push(ch),
;

/// The character for one base-16 digit, lower case.
pub open spec fn digit_char(d: int) -> char {
    if d == 0 {
        '0'
    } else if d == 1 {
        '1'
    } else if d == 2 {
        '2'
    } else if d == 3 {
        '3'
    } else if d == 4 {
        '4'
    } else if d == 5 {
        '5'
    } else if d == 6 {
        '6'
    } else if d == 7 {
        '7'
    } else if d == 8 {
        '8'
    } else if d == 9 {
        '9'
    } else if d == 10 {
        'a'
    } else if d == 11 {
        'b'
    } else if d == 12 {
        'c'
    } else if d == 13 {
        'd'
    } else if d == 14 {
        'e'
    } else if d == 15 {
        'f'
    } else {
        '0'
    }
}

/// The decimal digits of a natural number, most significant first.
pub open spec fn dec_nat(n: nat) -> Seq<char>
    decreases n,
{
    if n < 10 {
        seq![digit_char(n as int)]
    } else {
        dec_nat(n / 10).push(digit_char((n % 10) as int))
    }
}

/// The decimal text of an integer, with a leading minus sign if negative.
pub open spec fn dec_int(n: int) -> Seq<char> {
    if n < 0 {
        "-"@ + dec_nat((-n) as nat)
    } else {
        dec_nat(n as nat)
    }
}

/// How one character appears inside a JSON string literal: quotes and
/// backslashes are escaped, control characters use the short escapes where
/// JSON has them and `\u00..` otherwise, everything else stands as itself.
pub open spec fn esc_char(c: char) -> Seq<char> {
    if c == '"' {
        "\\\""@
    } else if c == '\\' {
        "\\\\"@
    } else if c == '\u{8}' {
        "\\b"@
    } else if c == '\t' {
        "\\t"@
    } else if c == '\n' {
        "\\n"@
    } else if c == '\u{c}' {
        "\\f"@
    } else if c == '\r' {
        "\\r"@
    } else if (c as u32) < 32 {
        "\\u00"@ + seq![digit_char(c as int / 16), digit_char(c as int % 16)]
    } else {
        seq![c]
    }
}

/// A whole character sequence, escaped for a JSON string literal.
pub open spec fn esc(s: Seq<char>) -> Seq<char>
    decreases s.len(),
{
    if s.len() == 0 {
        Seq::empty()
    } else {
        esc(s.drop_last()) + esc_char(s.last())
    }
}

/// A JSON string literal: the escaped text between double quotes.
pub open spec fn quoted(s: Seq<char>) -> Seq<char> {
    "\""@ + esc(s) + "\""@
}

/// The JSON text of one scalar property value.  A `Num` is carried
/// verbatim: it holds the numeric literal as the client sent it.
pub open spec fn json_of_scalar(v: ScalarVal) -> Seq<char> {
    match v {
        ScalarVal::Null => "null"@,
        ScalarVal::Bool(b) => if b {
            "true"@
        } else {
            "false"@
        },
        ScalarVal::Int(i) => dec_int(i as int),
        ScalarVal::Num(s) => s,
        ScalarVal::Text(s) => quoted(s),
    }
}

/// Scalars joined by commas.
pub open spec fn json_join_scalars(a: Seq<ScalarVal>) -> Seq<char>
    decreases a.len(),
{
    if a.len() == 0 {
        Seq::empty()
    } else if a.len() == 1 {
        json_of_scalar(a[0])
    } else {
        json_join_scalars(a.drop_last()) + ","@ + json_of_scalar(a.last())
    }
}

/// The JSON text of one property value.
pub open spec fn json_of_value(v: PropVal) -> Seq<char> {
    match v {
        PropVal::Scalar(s) => json_of_scalar(s),
        PropVal::Array(a) => "["@ + json_join_scalars(a) + "]"@,
    }
}

/// Root ids joined by commas.
pub open spec fn json_join_ids(ids: Seq<i32>) -> Seq<char>
    decreases ids.len(),
{
    if ids.len() == 0 {
        Seq::empty()
    } else if ids.len() == 1 {
        dec_int(ids[0] as int)
    } else {
        json_join_ids(ids.drop_last()) + ","@ + dec_int(ids.last() as int)
    }
}

/// The JSON text of one instruction: the opcode, then the payload fields
/// in fixed order.
pub open spec fn json_of_inst(i: Inst) -> Seq<char> {
    match i {
        Inst::Create(id, kind) => "[0,"@ + dec_int(id as int) + ","@ + quoted(kind) + "]"@,
        Inst::AppendChild(parent, child, channel) => "[2,"@ + dec_int(parent as int) + ","@
            + dec_int(child as int) + ","@ + dec_int(channel as int) + "]"@,
        Inst::SetProperty(id, name, value) => "[3,"@ + dec_int(id as int) + ","@ + quoted(name)
            + ","@ + json_of_value(value) + "]"@,
        Inst::ActivateRoots(ids) => "[4,["@ + json_join_ids(ids) + "]]"@,
        Inst::Commit => "[5]"@,
    }
}

/// Instructions joined by commas.
pub open spec fn json_join_insts(b: Seq<Inst>) -> Seq<char>
    decreases b.len(),
{
    if b.len() == 0 {
        Seq::empty()
    } else if b.len() == 1 {
        json_of_inst(b[0])
    } else {
        json_join_insts(b.drop_last()) + ","@ + json_of_inst(b.last())
    }
}

/// The wire text of a whole batch: one top-level JSON array.
pub open spec fn json_of_batch(b: Seq<Inst>) -> Seq<char> {
    "["@ + json_join_insts(b) + "]"@
}

/// One base-16 digit as text.
fn digit_str(d: u64) -> (r: &'static str)
    requires
        d < 16,
    ensures
        r@ == seq![digit_char(d as int)],
{
    match d {
        0 => {
            proof {
                reveal_strlit("0");
            }
            "0"
        },
        1 => {
            proof {
                reveal_strlit("1");
            }
            "1"
        },
        2 => {
            proof {
                reveal_strlit("2");
            }
            "2"
        },
        3 => {
            proof {
                reveal_strlit("3");
            }
            "3"
        },
        4 => {
            proof {
                reveal_strlit("4");
            }
            "4"
        },
        5 => {
            proof {
                reveal_strlit("5");
            }
            "5"
        },
        6 => {
            proof {
                reveal_strlit("6");
            }
            "6"
        },
        7 => {
            proof {
                reveal_strlit("7");
            }
            "7"
        },
        8 => {
            proof {
                reveal_strlit("8");
            }
            "8"
        },
        9 => {
            proof {
                reveal_strlit("9");
            }
            "9"
        },
        10 => {
            proof {
                reveal_strlit("a");
            }
            "a"
        },
        11 => {
            proof {
                reveal_strlit("b");
            }
            "b"
        },
        12 => {
            proof {
                reveal_strlit("c");
            }
            "c"
        },
        13 => {
            proof {
                reveal_strlit("d");
            }
            "d"
        },
        14 => {
            proof {
                reveal_strlit("e");
            }
            "e"
        },
        _ => {
            proof {
                reveal_strlit("f");
            }
            "f"
        },
    }
}

/// Append the decimal digits of `n`.
fn append_u64(out: &mut String, n: u64)
    ensures
        final(out)@ == old(out)@ + dec_nat(n as nat),
    decreases n,
{
    if n < 10 {
        out.append(digit_str(n));
        proof {
            assert(final(out)@ =~= old(out)@ + dec_nat(n as nat));
        }
    } else {
        append_u64(out, n / 10);
        out.append(digit_str(n % 10));
        proof {
            assert(final(out)@ =~= old(out)@ + dec_nat(n as nat));
        }
    }
}

/// Append the decimal text of `v`.
fn append_i64(out: &mut String, v: i64)
    ensures
        final(out)@ == old(out)@ + dec_int(v as int),
{
    if v < 0 {
        let m: u64 = (-(v as i128)) as u64;
        proof {
            assert(m == -(v as int));
        }
        out.append("-");
        append_u64(out, m);
        proof {
            assert(final(out)@ =~= old(out)@ + dec_int(v as int));
        }
    } else {
        append_u64(out, v as u64);
    }
}

/// Append `s` escaped for the inside of a JSON string literal.
fn append_escaped(out: &mut String, s: &str)
    ensures
        final(out)@ == old(out)@ + esc(s@),
{
    let n = s.unicode_len();
    let mut i: usize = 0;
    while i < n
        invariant
            n == s@.len(),
            i <= n,
            out@ == old(out)@ + esc(s@.take(i as int)),
        decreases n - i,
    {
        let c = s.get_char(i);
        if c == '"' {
            out.append("\\\"");
        } else if c == '\\' {
            out.append("\\\\");
        } else if c == '\u{8}' {
            out.append("\\b");
        } else if c == '\t' {
            out.append("\\t");
        } else if c == '\n' {
            out.append("\\n");
        } else if c == '\u{c}' {
            out.append("\\f");
        } else if c == '\r' {
            out.append("\\r");
        } else if (c as u32) < 32 {
            let d = c as u32;
            out.append("\\u00");
            out.append(digit_str((d / 16) as u64));
            out.append(digit_str((d % 16) as u64));
        } else {
            out.push(c);
        }
        i += 1;
        proof {
            assert(s@.take(i as int).drop_last() =~= s@.take(i - 1));
            assert(s@.take(i as int).last() == s@[i - 1]);
            assert(out@ =~= old(out)@ + esc(s@.take(i as int)));
        }
    }
    proof {
        assert(s@.take(n as int) =~= s@);
    }
}

/// Append `s` as a JSON string literal.
fn append_quoted(out: &mut String, s: &str)
    ensures
        final(out)@ == old(out)@ + quoted(s@),
{
    out.append("\"");
    append_escaped(out, s);
    out.append("\"");
    proof {
        assert(final(out)@ =~= old(out)@ + quoted(s@));
    }
}

/// Append the JSON text of one scalar.
fn append_scalar(out: &mut String, v: &ScalarValue)
    ensures
        final(out)@ == old(out)@ + json_of_scalar(v.deep_view()),
{
    match v {
        ScalarValue::Null => out.append("null"),
        ScalarValue::Bool(b) => if *b {
            out.append("true")
        } else {
            out.append("false")
        },
        ScalarValue::Int(i) => append_i64(out, *i),
        ScalarValue::Num(s) => out.append(s.as_str()),
        ScalarValue::Text(s) => append_quoted(out, s.as_str()),
    }
}

/// Append the JSON text of one property value.
fn append_value(out: &mut String, v: &PropValue)
    ensures
        final(out)@ == old(out)@ + json_of_value(v.deep_view()),
{
    match v {
        PropValue::Scalar(s) => append_scalar(out, s),
        PropValue::Array(a) => {
            let ghost av = a.deep_view();
            out.append("[");
            let mut j: usize = 0;
            while j < a.len()
                invariant
                    j <= a@.len(),
                    av == a.deep_view(),
                    av.len() == a@.len(),
                    forall|k: int| 0 <= k < a@.len() ==> av[k] == a@[k].deep_view(),
                    out@ == old(out)@ + "["@ + json_join_scalars(av.take(j as int)),
                decreases a@.len() - j,
            {
                if j > 0 {
                    out.append(",");
                }
                append_scalar(out, &a[j]);
                j += 1;
                proof {
                    assert(av.take(j as int).drop_last() =~= av.take(j - 1));
                    assert(av.take(j as int).last() == av[j - 1]);
                    assert(out@ =~= old(out)@ + "["@ + json_join_scalars(av.take(j as int)));
                }
            }
            out.append("]");
            proof {
                assert(av.take(av.len() as int) =~= av);
                assert(final(out)@ =~= old(out)@ + json_of_value(v.deep_view()));
            }
        },
    }
}

/// Append the JSON text of one instruction.
fn append_inst(out: &mut String, inst: &Instruction)
    ensures
        final(out)@ == old(out)@ + json_of_inst(inst.deep_view()),
{
    match inst {
        Instruction::Create(id, kind) => {
            out.append("[0,");
            append_i64(out, *id as i64);
            out.append(",");
            append_quoted(out, kind.as_str());
            out.append("]");
            proof {
                assert(final(out)@ =~= old(out)@ + json_of_inst(inst.deep_view()));
            }
        },
        Instruction::AppendChild(parent, child, channel) => {
            out.append("[2,");
            append_i64(out, *parent as i64);
            out.append(",");
            append_i64(out, *child as i64);
            out.append(",");
            append_u64(out, *channel as u64);
            out.append("]");
            proof {
                assert(dec_int(*channel as int) == dec_nat(*channel as nat));
                assert(final(out)@ =~= old(out)@ + json_of_inst(inst.deep_view()));
            }
        },
        Instruction::SetProperty(id, name, value) => {
            out.append("[3,");
            append_i64(out, *id as i64);
            out.append(",");
            append_quoted(out, name.as_str());
            out.append(",");
            append_value(out, value);
            out.append("]");
            proof {
                assert(final(out)@ =~= old(out)@ + json_of_inst(inst.deep_view()));
            }
        },
        Instruction::ActivateRoots(ids) => {
            out.append("[4,[");
            let mut j: usize = 0;
            while j < ids.len()
                invariant
                    j <= ids@.len(),
                    out@ == old(out)@ + "[4,["@ + json_join_ids(ids@.take(j as int)),
                decreases ids@.len() - j,
            {
                if j > 0 {
                    out.append(",");
                }
                append_i64(out, ids[j] as i64);
                j += 1;
                proof {
                    assert(ids@.take(j as int).drop_last() =~= ids@.take(j - 1));
                    assert(ids@.take(j as int).last() == ids@[j - 1]);
                    assert(out@ =~= old(out)@ + "[4,["@ + json_join_ids(ids@.take(j as int)));
                }
            }
            out.append("]]");
            proof {
                assert(ids@.take(ids@.len() as int) =~= ids@);
                assert(final(out)@ =~= old(out)@ + json_of_inst(inst.deep_view()));
            }
        },
        Instruction::Commit => {
            out.append("[5]");
        },
    }
}

/// Serialise a batch to the wire text the engine's batch-apply entry point
/// accepts: exactly the JSON rendering of its instructions, in order.
pub fn encode_batch(batch: &InstructionBatch) -> (s: String)
    ensures
        s@ == json_of_batch(batch@),
{
    let mut out = String::new();
    out.append("[");
    let n = batch.items.len();
    let mut j: usize = 0;
    while j < n
        invariant
            n == batch.items@.len(),
            j <= n,
            batch@.len() == n,
            forall|k: int| 0 <= k < n ==> batch@[k] == batch.items@[k].deep_view(),
            out@ == "["@ + json_join_insts(batch@.take(j as int)),
        decreases n - j,
    {
        if j > 0 {
            out.append(",");
        }
        append_inst(&mut out, &batch.items[j]);
        j += 1;
        proof {
            assert(batch@.take(j as int).drop_last() =~= batch@.take(j - 1));
            assert(batch@.take(j as int).last() == batch@[j - 1]);
            assert(out@ =~= "["@ + json_join_insts(batch@.take(j as int)));
        }
    }
    out.append("]");
    proof {
        assert(batch@.take(batch@.len() as int) =~= batch@);
        assert(out@ =~= json_of_batch(batch@));
    }
    out
}

} // verus!
