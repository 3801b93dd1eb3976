//! Deterministic human-readable rendering of actions and values, used for
//! the trace log and for printing whole scripts.
//!
//! Every renderer is specified by a spec function giving the exact
//! character sequence it appends.  Numbers print as decimals with the
//! fractional part's trailing zeros removed; record values print as
//! `{ x = …; y = …; z = …; }` with the fields in stored (name) order.
use vstd::prelude::*;

use vstd::std_specs::iter::IteratorSpec;
use vstd::string::StringExecFns;

use crate::action::Action;
use crate::action::Expr;
use crate::action::Value;
use crate::action::Vector;
use crate::num::SCALE;
use crate::num::Scalar;
use crate::script::Script;
use crate::time::Instant;

verus! {

broadcast use
    vstd::std_specs::vec::group_vec_axioms,
    vstd::seq::group_seq_axioms,
    vstd::string::next_postcondition,
    vstd::string::axiom_spec_iter,
;

/// The decimal digit character for `d` (for digits 0 through 9).
pub open spec fn digit_char(d: int) -> char {
    if d == 0 {
        '0'
    } else if d == 1 {
        '1'
    } else if d == 2 {
        '2'
    } else if d == 3 {
        '3'
    } else if d == 4 {
        '4'
    } else if d == 5 {
        '5'
    } else if d == 6 {
        '6'
    } else if d == 7 {
        '7'
    } else if d == 8 {
        '8'
    } else {
        '9'
    }
}

/// The decimal digits of a non-negative number, most significant first.
pub open spec fn udec_chars(n: int) -> Seq<char>
    decreases n,
{
    if n < 10 {
        seq![digit_char(n)]
    } else {
        udec_chars(n / 10).push(digit_char(n % 10))
    }
}

/// The last `d` decimal digits of `f`, zero-padded to width `d`.
pub open spec fn full_digits(f: int, d: int) -> Seq<char>
    decreases d,
{
    if d <= 0 {
        Seq::empty()
    } else {
        full_digits(f / 10, d - 1).push(digit_char(f % 10))
    }
}

/// The last `d` decimal digits of `f`, zero-padded on the left, with the
/// trailing zeros removed.
pub open spec fn frac_sig(f: int, d: int) -> Seq<char>
    decreases d,
{
    if d <= 0 {
        Seq::empty()
    } else if f % 10 == 0 {
        frac_sig(f / 10, d - 1)
    } else {
        full_digits(f, d)
    }
}

/// A scalar as a decimal: optional minus sign, whole part, and the
/// fractional part (nine digits, trailing zeros removed) when non-zero.
pub open spec fn scalar_chars(raw: int) -> Seq<char> {
    let mag = if raw < 0 {
        -raw
    } else {
        raw
    };
    let q = mag / (SCALE as int);
    let r = mag % (SCALE as int);
    let sign: Seq<char> = if raw < 0 {
        "-"@
    } else {
        Seq::empty()
    };
    if r == 0 {
        sign + udec_chars(q)
    } else {
        sign + udec_chars(q) + "."@ + frac_sig(r, 9)
    }
}

/// An instant as a whole number of seconds, truncated toward zero.
pub open spec fn secs_chars(raw: int) -> Seq<char> {
    let mag = if raw < 0 {
        -raw
    } else {
        raw
    };
    let sign: Seq<char> = if raw < 0 {
        "-"@
    } else {
        Seq::empty()
    };
    sign + udec_chars(mag / (SCALE as int))
}


/// Whether the character sequence contains a space.
pub open spec fn has_space(s: Seq<char>) -> bool {
    exists|i: int| 0 <= i < s.len() && s[i] == ' '
}

/// An actor name as the trace shows it: bracketed when it contains a
/// space, bare otherwise.
pub open spec fn actor_name_chars(s: Seq<char>) -> Seq<char> {
    if has_space(s) {
        "["@ + s + "]"@
    } else {
        s
    }
}

/// `k` spaces.
pub open spec fn spaces(k: int) -> Seq<char>
    decreases k,
{
    if k <= 0 {
        Seq::empty()
    } else {
        spaces(k - 1).push(' ')
    }
}

/// An instant as whole seconds, padded on the right with spaces to at
/// least eight characters.
pub open spec fn padded_secs(raw: int) -> Seq<char> {
    secs_chars(raw) + spaces(8 - secs_chars(raw).len())
}

/// How many digits a number prints with, exactly below ten million and
/// at least eight from there on.
proof fn lemma_udec_len(n: int)
    requires
        0 <= n,
    ensures
        n < 10 ==> udec_chars(n).len() == 1,
        10 <= n < 100 ==> udec_chars(n).len() == 2,
        100 <= n < 1000 ==> udec_chars(n).len() == 3,
        1000 <= n < 10000 ==> udec_chars(n).len() == 4,
        10000 <= n < 100000 ==> udec_chars(n).len() == 5,
        100000 <= n < 1000000 ==> udec_chars(n).len() == 6,
        1000000 <= n < 10000000 ==> udec_chars(n).len() == 7,
        10000000 <= n ==> udec_chars(n).len() >= 8,
    decreases n,
{
    if n >= 10 {
        lemma_udec_len(n / 10);
    }
}

/// Append one decimal digit.
fn write_digit(out: &mut String, d: u64)
    requires
        d < 10,
    ensures
        final(out)@ == old(out)@ + seq![digit_char(d as int)],
{
    proof {
        reveal_strlit("0");
        reveal_strlit("1");
        reveal_strlit("2");
        reveal_strlit("3");
        reveal_strlit("4");
        reveal_strlit("5");
        reveal_strlit("6");
        reveal_strlit("7");
        reveal_strlit("8");
        reveal_strlit("9");
    }
    if d == 0 {
        out.append("0");
    } else if d == 1 {
        out.append("1");
    } else if d == 2 {
        out.append("2");
    } else if d == 3 {
        out.append("3");
    } else if d == 4 {
        out.append("4");
    } else if d == 5 {
        out.append("5");
    } else if d == 6 {
        out.append("6");
    } else if d == 7 {
        out.append("7");
    } else if d == 8 {
        out.append("8");
    } else {
        out.append("9");
    }
    proof {
        assert(final(out)@ =~= old(out)@ + seq![digit_char(d as int)]);
    }
}

/// Append the decimal digits of `n`.
fn write_udec(out: &mut String, n: u64)
    ensures
        final(out)@ == old(out)@ + udec_chars(n as int),
    decreases n,
{
    if n < 10 {
        write_digit(out, n);
    } else {
        write_udec(out, n / 10);
        write_digit(out, n % 10);
        proof {
            assert(final(out)@ =~= old(out)@ + udec_chars(n as int));
        }
    }
}

/// Append the last `d` digits of `f`, zero-padded to width `d`.
fn write_full(out: &mut String, f: u64, d: u8)
    ensures
        final(out)@ == old(out)@ + full_digits(f as int, d as int),
    decreases d,
{
    if d > 0 {
        write_full(out, f / 10, d - 1);
        write_digit(out, f % 10);
        proof {
            assert(final(out)@ =~= old(out)@ + full_digits(f as int, d as int));
        }
    } else {
        proof {
            assert(final(out)@ =~= old(out)@ + full_digits(f as int, 0));
        }
    }
}

/// Append the last `d` digits of `f` with trailing zeros removed.
fn write_frac(out: &mut String, f: u64, d: u8)
    ensures
        final(out)@ == old(out)@ + frac_sig(f as int, d as int),
    decreases d,
{
    if d == 0 {
    } else if f % 10 == 0 {
        write_frac(out, f / 10, d - 1);
    } else {
        write_full(out, f, d);
    }
}

/// Append a scalar as a decimal.
pub fn write_scalar(out: &mut String, s: Scalar)
    ensures
        final(out)@ == old(out)@ + scalar_chars(s.raw as int),
{
    let mag: u64 = if s.raw >= 0 {
        s.raw as u64
    } else {
        let m: i128 = -(s.raw as i128);
        m as u64
    };
    if s.raw < 0 {
        out.append("-");
    }
    let q: u64 = mag / (SCALE as u64);
    let r: u64 = mag % (SCALE as u64);
    write_udec(out, q);
    if r != 0 {
        out.append(".");
        write_frac(out, r, 9);
    }
    proof {
        assert(final(out)@ =~= old(out)@ + scalar_chars(s.raw as int));
    }
}

/// Append an instant as whole seconds, padded on the right with spaces
/// to at least eight characters.
fn write_secs_padded(out: &mut String, at: Instant)
    ensures
        final(out)@ == old(out)@ + padded_secs(at.at.raw as int),
{
    let raw = at.at.raw;
    let mag: u64 = if raw >= 0 {
        raw as u64
    } else {
        let m: i128 = -(raw as i128);
        m as u64
    };
    if raw < 0 {
        out.append("-");
    }
    let q: u64 = mag / (SCALE as u64);
    write_udec(out, q);
    proof {
        lemma_udec_len(q as int);
    }
    let qlen: usize = if q < 10 {
        1
    } else if q < 100 {
        2
    } else if q < 1000 {
        3
    } else if q < 10000 {
        4
    } else if q < 100000 {
        5
    } else if q < 1000000 {
        6
    } else if q < 10000000 {
        7
    } else {
        8
    };
    let slen: usize = if raw < 0 {
        qlen + 1
    } else {
        qlen
    };
    let mut pad: usize = if slen < 8 {
        8 - slen
    } else {
        0
    };
    let ghost done = old(out)@ + secs_chars(raw as int);
    let ghost want = pad as int;
    proof {
        reveal_strlit("-");
        assert(out@ =~= done);
        let sl = secs_chars(raw as int).len() as int;
        if raw < 0 {
            assert(sl == 1 + udec_chars((mag as int) / (SCALE as int)).len());
        } else {
            assert(sl == udec_chars((mag as int) / (SCALE as int)).len());
        }
        if (slen as int) < 8 {
            assert(sl == slen as int);
        } else {
            assert(sl >= 8);
            assert(spaces(8 - sl) =~= spaces(0));
        }
        assert(spaces(8 - sl) == spaces(want));
    }
    while pad > 0
        invariant
            0 <= pad <= want,
            out@ == done + spaces(want - pad),
        decreases pad,
    {
        out.append(" ");
        proof {
            reveal_strlit(" ");
            assert(out@ =~= done + spaces(want - (pad - 1)));
        }
        pad = pad - 1;
    }
    proof {
        assert(final(out)@ =~= old(out)@ + padded_secs(at.at.raw as int));
    }
}

/// Whether the string contains a space character.
fn contains_space(s: &str) -> (r: bool)
    ensures
        r == has_space(s@),
{
    let mut it = s.chars();
    let ghost total = s@;
    proof {
        assert(it.obeys_prophetic_iter_laws());
        assert(it.remaining() == total);
    }
    let ghost mut i: int = 0;
    loop
        invariant
            total == s@,
            it.obeys_prophetic_iter_laws(),
            0 <= i <= total.len(),
            it.remaining() =~= total.skip(i),
            forall|j: int| 0 <= j < i ==> total[j] != ' ',
        decreases total.len() - i,
    {
        match it.next() {
            Some(c) => {
                proof {
                    assert(total.skip(i)[0] == total[i]);
                    assert(total.skip(i).drop_first() =~= total.skip(i + 1));
                }
                if c == ' ' {
                    proof {
                        assert(total[i] == ' ');
                        assert(has_space(total));
                    }
                    return true;
                }
                proof {
                    i = i + 1;
                }
            },
            None => {
                proof {
                    assert(total.skip(i).len() == 0);
                    assert(i == total.len());
                    assert(!has_space(total));
                }
                return false;
            },
        }
    }
}

/// An expression as the trace shows it.
pub open spec fn expr_chars(e: Expr) -> Seq<char>
    decreases e, 0int,
{
    match e {
        Expr::Myself => "self"@,
        Expr::Field { subject, field_name } => expr_chars(*subject) + "."@ + field_name@,
        Expr::NumConst { value } => scalar_chars(value.raw as int),
        Expr::Var { name } => name@,
    }
}

/// Argument expressions from index `i` on, joined with commas.
pub open spec fn args_chars(s: Seq<Expr>, i: int) -> Seq<char>
    decreases s, s.len() - i,
{
    if i < 0 || i >= s.len() {
        Seq::empty()
    } else if i + 1 == s.len() {
        expr_chars(s[i])
    } else {
        expr_chars(s[i]) + ", "@ + args_chars(s, i + 1)
    }
}

/// A value as the trace shows it.
pub open spec fn value_chars(v: Value) -> Seq<char>
    decreases v, 0int,
{
    match v {
        Value::Num(s) => scalar_chars(s.raw as int),
        Value::ActorId(h) => "Entity("@ + udec_chars(h.idx as int) + ")"@,
        Value::Struct(fields) => "{ "@ + sfields_chars(fields@, 0) + " }"@,
    }
}

/// Record fields from index `i` on, each as `name = value;`, joined with
/// spaces.
pub open spec fn sfields_chars(s: Seq<(String, Value)>, i: int) -> Seq<char>
    decreases s, s.len() - i,
{
    if i < 0 || i >= s.len() {
        Seq::empty()
    } else if i + 1 == s.len() {
        s[i].0@ + " = "@ + value_chars(s[i].1) + ";"@
    } else {
        s[i].0@ + " = "@ + value_chars(s[i].1) + ";"@ + " "@ + sfields_chars(s, i + 1)
    }
}

/// A vector as the record `{ x = …; y = …; z = …; }`.
pub open spec fn vector_chars(v: Vector) -> Seq<char> {
    "{ x = "@ + scalar_chars(v.x.raw as int) + "; y = "@ + scalar_chars(v.y.raw as int) + "; z = "@
        + scalar_chars(v.z.raw as int) + "; }"@
}

/// One action as the trace shows it (nested scripts elided as `...`).
pub open spec fn action_chars(a: Action) -> Seq<char> {
    match a {
        Action::Halt => "halt"@,
        Action::Trace { expr } => "trace "@ + expr_chars(*expr),
        Action::Spawn { name } => "spawn "@ + actor_name_chars(name@),
        Action::Wait { interval } => "wait "@ + scalar_chars(interval.length.raw as int) + "sec"@,
        Action::ListenFor { head, args } => "listen #"@ + head@ + "("@ + args_chars(args@, 0)
            + ")"@,
        Action::AsActor { name, script } => "as "@ + name@ + " do ..."@,
        Action::SetAccel { value } => "self.accel = "@ + vector_chars(value),
        Action::Transmit { head, args } => "transmit #"@ + head@ + "("@ + args_chars(args@, 0)
            + ")"@,
        Action::Die => "die"@,
        Action::WriteLocal { name, value } => name@ + " = "@ + expr_chars(*value),
        Action::DefGlobalMethod { name, body } => "def "@ + name@ + " do ..."@,
        Action::Call { name, args } => "call "@ + name@ + "("@ + args_chars(args@, 0) + ")"@,
        Action::Return => "return"@,
    }
}

/// One line of the execution log: the instant, padded, then the action.
pub open spec fn line_chars(now: Instant, a: Action) -> Seq<char> {
    padded_secs(now.at.raw as int) + ": "@ + action_chars(a)
}

/// One trace line: the expression and the value it evaluated to.
pub open spec fn trace_chars(e: Expr, v: Value) -> Seq<char> {
    "\t> "@ + expr_chars(e) + " = "@ + value_chars(v)
}

/// Append an expression.
fn write_expr(out: &mut String, e: &Expr)
    ensures
        final(out)@ == old(out)@ + expr_chars(*e),
    decreases *e, 0int,
{
    match e {
        Expr::Myself => {
            out.append("self");
        },
        Expr::Field { subject, field_name } => {
            write_expr(out, subject);
            out.append(".");
            out.append(field_name.as_str());
            proof {
                assert(final(out)@ =~= old(out)@ + expr_chars(*e));
            }
        },
        Expr::NumConst { value } => {
            write_scalar(out, *value);
        },
        Expr::Var { name } => {
            out.append(name.as_str());
        },
    }
}

/// Append the argument list from index `i` on, comma-separated.
fn write_args(out: &mut String, args: &Vec<Expr>, i: usize)
    ensures
        final(out)@ == old(out)@ + args_chars(args@, i as int),
    decreases args@, args@.len() - i,
{
    if i < args.len() {
        write_expr(out, &args[i]);
        if i + 1 < args.len() {
            out.append(", ");
            write_args(out, args, i + 1);
            proof {
                assert(final(out)@ =~= old(out)@ + args_chars(args@, i as int));
            }
        }
    }
}

/// Append a value.
fn write_value(out: &mut String, v: &Value)
    ensures
        final(out)@ == old(out)@ + value_chars(*v),
    decreases *v, 0int,
{
    match v {
        Value::Num(s) => {
            write_scalar(out, *s);
        },
        Value::ActorId(h) => {
            out.append("Entity(");
            write_udec(out, h.idx as u64);
            out.append(")");
            proof {
                assert(final(out)@ =~= old(out)@ + value_chars(*v));
            }
        },
        Value::Struct(fields) => {
            out.append("{ ");
            write_sfields(out, fields, 0);
            out.append(" }");
            proof {
                assert(final(out)@ =~= old(out)@ + value_chars(*v));
            }
        },
    }
}

/// Append the record fields from index `i` on.
fn write_sfields(out: &mut String, fields: &Vec<(String, Value)>, i: usize)
    ensures
        final(out)@ == old(out)@ + sfields_chars(fields@, i as int),
    decreases fields@, fields@.len() - i,
{
    if i < fields.len() {
        out.append(fields[i].0.as_str());
        out.append(" = ");
        write_value(out, &fields[i].1);
        out.append(";");
        if i + 1 < fields.len() {
            out.append(" ");
            write_sfields(out, fields, i + 1);
        }
        proof {
            assert(final(out)@ =~= old(out)@ + sfields_chars(fields@, i as int));
        }
    }
}

/// Append a vector as a record.
fn write_vector(out: &mut String, v: Vector)
    ensures
        final(out)@ == old(out)@ + vector_chars(v),
{
    out.append("{ x = ");
    write_scalar(out, v.x);
    out.append("; y = ");
    write_scalar(out, v.y);
    out.append("; z = ");
    write_scalar(out, v.z);
    out.append("; }");
    proof {
        assert(final(out)@ =~= old(out)@ + vector_chars(v));
    }
}

/// Append one action.
fn write_action(out: &mut String, a: &Action)
    ensures
        final(out)@ == old(out)@ + action_chars(*a),
{
    match a {
        Action::Halt => {
            out.append("halt");
        },
        Action::Trace { expr } => {
            out.append("trace ");
            write_expr(out, expr);
        },
        Action::Spawn { name } => {
            out.append("spawn ");
            let pretty = fmt_actor_name(name.as_str());
            out.append(pretty.as_str());
        },
        Action::Wait { interval } => {
            out.append("wait ");
            write_scalar(out, interval.length);
            out.append("sec");
        },
        Action::ListenFor { head, args } => {
            out.append("listen #");
            out.append(head.as_str());
            out.append("(");
            write_args(out, args, 0);
            out.append(")");
        },
        Action::AsActor { name, script } => {
            out.append("as ");
            out.append(name.as_str());
            out.append(" do ...");
        },
        Action::SetAccel { value } => {
            out.append("self.accel = ");
            write_vector(out, *value);
        },
        Action::Transmit { head, args } => {
            out.append("transmit #");
            out.append(head.as_str());
            out.append("(");
            write_args(out, args, 0);
            out.append(")");
        },
        Action::Die => {
            out.append("die");
        },
        Action::WriteLocal { name, value } => {
            out.append(name.as_str());
            out.append(" = ");
            write_expr(out, value);
        },
        Action::DefGlobalMethod { name, body } => {
            out.append("def ");
            out.append(name.as_str());
            out.append(" do ...");
        },
        Action::Call { name, args } => {
            out.append("call ");
            out.append(name.as_str());
            out.append("(");
            write_args(out, args, 0);
            out.append(")");
        },
        Action::Return => {
            out.append("return");
        },
    }
    proof {
        assert(final(out)@ =~= old(out)@ + action_chars(*a));
    }
}

/// Render one action on its own.
pub fn render_action(a: &Action) -> (r: String)
    ensures
        r@ == action_chars(*a),
{
    let mut out = String::new();
    write_action(&mut out, a);
    out
}

/// Render one value on its own.
pub fn render_value(v: &Value) -> (r: String)
    ensures
        r@ == value_chars(*v),
{
    let mut out = String::new();
    write_value(&mut out, v);
    out
}

/// Render a log line: the instant, padded, then the action executed.
pub fn render_event(now: Instant, a: &Action) -> (r: String)
    ensures
        r@ == line_chars(now, *a),
{
    let mut out = String::new();
    write_secs_padded(&mut out, now);
    out.append(": ");
    write_action(&mut out, a);
    proof {
        assert(out@ =~= line_chars(now, *a));
    }
    out
}

/// Render a trace line: the expression and the value it evaluated to.
pub fn render_trace(e: &Expr, v: &Value) -> (r: String)
    ensures
        r@ == trace_chars(*e, *v),
{
    let mut out = String::new();
    out.append("\t> ");
    write_expr(&mut out, e);
    out.append(" = ");
    write_value(&mut out, v);
    proof {
        assert(out@ =~= trace_chars(*e, *v));
    }
    out
}

/// An actor name as the trace shows it: `[name]` when the name contains
/// a space, `name` otherwise.
pub fn fmt_actor_name(name: &str) -> (r: String)
    ensures
        r@ == actor_name_chars(name@),
{
    if contains_space(name) {
        let mut out = String::new();
        out.append("[");
        out.append(name);
        out.append("]");
        proof {
            assert(out@ =~= actor_name_chars(name@));
        }
        out
    } else {
        name.to_owned()
    }
}


/// Four spaces per indentation level.
pub open spec fn ind_chars(n: int) -> Seq<char>
    decreases n,
{
    if n <= 0 {
        Seq::empty()
    } else {
        ind_chars(n - 1) + "    "@
    }
}

/// One more indentation level, pinned at the maximum depth a counter can
/// hold.
pub open spec fn inc_sat(n: int) -> int {
    if n < usize::MAX {
        n + 1
    } else {
        n
    }
}

/// The extra blank line after each top-level action.
pub open spec fn nl0(indent: int) -> Seq<char> {
    if indent == 0 {
        "\n"@
    } else {
        Seq::empty()
    }
}

/// One action, pretty-printed at an indentation level: nested scripts are
/// printed in full, one level deeper, between `do` and `done` markers.
pub open spec fn pa_chars(a: Action, indent: int) -> Seq<char>
    decreases a, 0int,
{
    match a {
        Action::AsActor { name, script } => ind_chars(indent) + "as "@ + actor_name_chars(name@)
            + " do\n"@ + ps_chars(script@, 0, inc_sat(indent)) + ind_chars(indent) + "done\n"@
            + nl0(indent),
        Action::DefGlobalMethod { name, body } => ind_chars(indent) + "def "@ + name@ + "("@
            + params_chars(body.params@, 0) + ") do"@ + ps_chars(body.script@, 0, inc_sat(indent))
            + ind_chars(indent) + "done\n"@ + nl0(indent),
        _ => ind_chars(indent) + action_chars(a) + "\n"@ + nl0(indent),
    }
}

/// A script from index `i` on, each action pretty-printed in turn.
pub open spec fn ps_chars(s: Seq<Action>, i: int, indent: int) -> Seq<char>
    decreases s, s.len() - i,
{
    if i < 0 || i >= s.len() {
        Seq::empty()
    } else {
        pa_chars(s[i], indent) + ps_chars(s, i + 1, indent)
    }
}

/// Parameter names from index `i` on, joined with commas.
pub open spec fn params_chars(s: Seq<String>, i: int) -> Seq<char>
    decreases s.len() - i,
{
    if i < 0 || i >= s.len() {
        Seq::empty()
    } else if i + 1 == s.len() {
        s[i]@
    } else {
        s[i]@ + ", "@ + params_chars(s, i + 1)
    }
}

/// A pretty-printing cursor: the current indentation level and the text
/// produced so far.
pub struct Printer {
    pub indent: usize,
    pub buffer: String,
}

impl Default for Printer {
    /// A fresh printer: no indentation, nothing written.
    fn default() -> (r: Self)
        ensures
            r.indent == 0,
            r.buffer@ == Seq::<char>::empty(),
    {
        Printer { indent: 0, buffer: String::new() }
    }
}

impl Printer {
    /// Append four spaces for each indentation level.
    pub fn write_indent(&mut self)
        ensures
            final(self).indent == old(self).indent,
            final(self).buffer@ == old(self).buffer@ + ind_chars(old(self).indent as int),
    {
        let n = self.indent;
        let mut k: usize = 0;
        while k < n
            invariant
                0 <= k <= n,
                self.indent == old(self).indent == n,
                self.buffer@ == old(self).buffer@ + ind_chars(k as int),
            decreases n - k,
        {
            self.buffer.append("    ");
            k = k + 1;
        }
    }

    /// Pretty-print one action at the current indentation level.
    #[verifier::rlimit(60)]
    fn print_action(&mut self, action: &Action)
        ensures
            final(self).indent == old(self).indent,
            final(self).buffer@ == old(self).buffer@ + pa_chars(*action, old(self).indent as int),
        decreases *action, 0int,
    {
        match action {
            Action::AsActor { name, script } => {
                self.write_indent();
                self.buffer.append("as ");
                let pretty = fmt_actor_name(name.as_str());
                self.buffer.append(pretty.as_str());
                self.buffer.append(" do\n");
                let saved = self.indent;
                if self.indent < usize::MAX {
                    self.indent = self.indent + 1;
                }
                self.print_script(script, 0);
                self.indent = saved;
                self.write_indent();
                self.buffer.append("done\n");
                if self.indent == 0 {
                    self.buffer.append("\n");
                }
                proof {
                    assert(final(self).buffer@ =~= old(self).buffer@ + pa_chars(
                        *action,
                        old(self).indent as int,
                    ));
                }
            },
            Action::DefGlobalMethod { name, body } => {
                self.write_indent();
                self.buffer.append("def ");
                self.buffer.append(name.as_str());
                self.buffer.append("(");
                write_params(&mut self.buffer, &body.params, 0);
                self.buffer.append(") do");
                let saved = self.indent;
                if self.indent < usize::MAX {
                    self.indent = self.indent + 1;
                }
                self.print_script(&body.script, 0);
                self.indent = saved;
                self.write_indent();
                self.buffer.append("done\n");
                if self.indent == 0 {
                    self.buffer.append("\n");
                }
                proof {
                    assert(final(self).buffer@ =~= old(self).buffer@ + pa_chars(
                        *action,
                        old(self).indent as int,
                    ));
                }
            },
            _ => {
                self.write_indent();
                write_action(&mut self.buffer, action);
                self.buffer.append("\n");
                if self.indent == 0 {
                    self.buffer.append("\n");
                }
                proof {
                    assert(final(self).buffer@ =~= old(self).buffer@ + pa_chars(
                        *action,
                        old(self).indent as int,
                    ));
                }
            },
        }
    }

    /// Pretty-print a script from index `i` on.
    fn print_script(&mut self, script: &Vec<Action>, i: usize)
        ensures
            final(self).indent == old(self).indent,
            final(self).buffer@ == old(self).buffer@ + ps_chars(
                script@,
                i as int,
                old(self).indent as int,
            ),
        decreases script@, script@.len() - i,
    {
        if i < script.len() {
            self.print_action(&script[i]);
            self.print_script(script, i + 1);
            proof {
                assert(final(self).buffer@ =~= old(self).buffer@ + ps_chars(
                    script@,
                    i as int,
                    old(self).indent as int,
                ));
            }
        }
    }
}

/// Append the parameter names from index `i` on, comma-separated.
fn write_params(out: &mut String, params: &Vec<String>, i: usize)
    ensures
        final(out)@ == old(out)@ + params_chars(params@, i as int),
    decreases params@.len() - i,
{
    if i < params.len() {
        out.append(params[i].as_str());
        if i + 1 < params.len() {
            out.append(", ");
            write_params(out, params, i + 1);
            proof {
                assert(final(out)@ =~= old(out)@ + params_chars(params@, i as int));
            }
        }
    }
}

impl Script {
    /// The whole script, pretty-printed from the top level.
    pub fn pretty_print(&self) -> (r: String)
        ensures
            r@ == ps_chars(self.body@, 0, 0),
    {
        let mut printer = Printer::default();
        printer.print_script(&self.body, 0);
        printer.buffer
    }
}

} // verus!
