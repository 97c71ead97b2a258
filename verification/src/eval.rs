use vstd::prelude::*;
use crate::ast::{AstModel, ASTNode, Operation, Value, ValueModel};
use crate::ast::{clone_value, view_ast, view_ast_seq, view_case_seq, view_value};
use crate::ast::{lemma_view_ast_seq_len, lemma_view_case_seq_len};
use crate::dec::{
    dec_add, dec_add_bits, dec_chars_of, dec_div, dec_div_bits, dec_eq, dec_floor, dec_floor_bits,
    dec_floor_int, dec_floor_to_int, dec_lt, dec_mul, dec_mul_bits, dec_of_int, dec_of_int_bits,
    dec_powi, dec_sub, dec_sub_bits, dec_to_chars, spec_dec_abs, spec_dec_eq, spec_dec_lt,
    spec_powi, DEC_EPSILON_BITS, DEC_ONE_BITS, DEC_ZERO_BITS,
};
use crate::text::{chars_eq, chars_to_string, int_to_chars, spec_int_chars, subvec};

verus! {

// ---------------------------------------------------------------------------
// Environments
// ---------------------------------------------------------------------------

/// The mapping a list of global bindings denotes: later entries override
/// earlier ones.
pub open spec fn env_map(s: Seq<(Vec<char>, Value)>) -> Map<Seq<char>, ValueModel>
    decreases s,
{
    if s.len() == 0 {
        Map::empty()
    } else {
        env_map(s.drop_last()).insert(s.last().0@, view_value(s.last().1))
    }
}

/// The mapping a lambda-argument frame denotes: later entries override
/// earlier ones.
pub open spec fn frame_map(s: Seq<(char, Value)>) -> Map<char, ValueModel>
    decreases s,
{
    if s.len() == 0 {
        Map::empty()
    } else {
        frame_map(s.drop_last()).insert(s.last().0, view_value(s.last().1))
    }
}

/// The models of a list of runtime values.
pub open spec fn view_vals(s: Seq<Value>) -> Seq<ValueModel> {
    s.map_values(|v: Value| view_value(v))
}

/// The character sequences of a list of output lines.
pub open spec fn lines_view(s: Seq<String>) -> Seq<Seq<char>> {
    s.map_values(|x: String| x@)
}

/// Resolves a name: a global binding first, else a one-character name bound
/// in the current argument frame.
pub open spec fn spec_lookup(
    g: Map<Seq<char>, ValueModel>,
    a: Map<char, ValueModel>,
    name: Seq<char>,
) -> Option<ValueModel> {
    if g.contains_key(name) {
        Some(g[name])
    } else if name.len() == 1 && a.contains_key(name[0]) {
        Some(a[name[0]])
    } else {
        None
    }
}

// ---------------------------------------------------------------------------
// Values: equality and rendering
// ---------------------------------------------------------------------------

/// Structural value equality, as the switch uses it: integers exactly,
/// decimals by IEEE-754 equality, words by their characters, the unit value
/// only to itself; an integer never equals a decimal, and lambdas equal
/// nothing.
pub open spec fn spec_val_eq(a: ValueModel, b: ValueModel) -> bool {
    match (a, b) {
        (ValueModel::Integer(x), ValueModel::Integer(y)) => x == y,
        (ValueModel::Decimal(x), ValueModel::Decimal(y)) => spec_dec_eq(x, y),
        (ValueModel::Word(x), ValueModel::Word(y)) => x == y,
        (ValueModel::NoneVal, ValueModel::NoneVal) => true,
        _ => false,
    }
}

/// The printed line of a value: `<λparams.>` for a lambda, digits for an
/// integer, the decimal rendering for a decimal, `'word` for a word, and
/// `Nothing` for the unit value. A variable is never printed: evaluation
/// never returns one.
pub open spec fn spec_format_value(v: ValueModel) -> Seq<char> {
    match v {
        ValueModel::Lambda { args_def, content } => seq!['<', '\u{3bb}'] + args_def + seq![
            '.',
            '>',
        ],
        ValueModel::Integer(n) => spec_int_chars(n as int),
        ValueModel::Decimal(b) => dec_chars_of(b),
        ValueModel::Word(w) => seq!['\''] + w,
        ValueModel::NoneVal => seq!['N', 'o', 't', 'h', 'i', 'n', 'g'],
        ValueModel::Variable(_) => Seq::empty(),
    }
}

// ---------------------------------------------------------------------------
// Numeric operations
// ---------------------------------------------------------------------------

/// The result of an infix operation on two integers: exact arithmetic with
/// failure on overflow; division gives an integer exactly when it divides,
/// else the binary64 quotient; exponentiation goes through binary64 with an
/// `i32` exponent; comparisons give one or zero.
pub open spec fn spec_int_op(op: Operation, l: i128, r: i128) -> Option<ValueModel> {
    match op {
        Operation::Addition => match l.checked_add(r) {
            Some(v) => Some(ValueModel::Integer(v)),
            None => None,
        },
        Operation::Substraction => match l.checked_sub(r) {
            Some(v) => Some(ValueModel::Integer(v)),
            None => None,
        },
        Operation::Multiplication => match l.checked_mul(r) {
            Some(v) => Some(ValueModel::Integer(v)),
            None => None,
        },
        Operation::Division => match l.checked_rem(r) {
            None => None,
            Some(rm) => if rm == 0 {
                match l.checked_div(r) {
                    Some(q) => Some(ValueModel::Integer(q)),
                    None => None,
                }
            } else {
                Some(
                    ValueModel::Decimal(dec_div_bits(dec_of_int_bits(l), dec_of_int_bits(r))),
                )
            },
        },
        Operation::Exponent => spec_exponent(dec_of_int_bits(l), r),
        Operation::Less => Some(ValueModel::Integer(if l < r { 1 } else { 0 })),
        Operation::LessEqual => Some(ValueModel::Integer(if l <= r { 1 } else { 0 })),
        Operation::Greater => Some(ValueModel::Integer(if l > r { 1 } else { 0 })),
        Operation::GreaterEqual => Some(ValueModel::Integer(if l >= r { 1 } else { 0 })),
        Operation::Equal => Some(ValueModel::Integer(if l == r { 1 } else { 0 })),
        Operation::NotEqual => Some(ValueModel::Integer(if l != r { 1 } else { 0 })),
    }
}

/// The result of an infix operation on two binary64 bit patterns: IEEE-754
/// arithmetic; comparisons give the decimal one or zero; equality holds when
/// the difference is below the machine epsilon, and inequality is exactly
/// its negation. An exponent that is itself a decimal value is an
/// evaluation error: only integer exponents are computed (by squaring over
/// the IEEE multiplications), a deliberate narrowing, since no power
/// function over binary64 bit patterns is available here.
pub open spec fn spec_dec_op(op: Operation, a: u64, b: u64) -> Option<ValueModel> {
    match op {
        Operation::Addition => Some(ValueModel::Decimal(dec_add_bits(a, b))),
        Operation::Substraction => Some(ValueModel::Decimal(dec_sub_bits(a, b))),
        Operation::Multiplication => Some(ValueModel::Decimal(dec_mul_bits(a, b))),
        Operation::Division => Some(ValueModel::Decimal(dec_div_bits(a, b))),
        Operation::Exponent => None,
        Operation::Less => Some(ValueModel::Decimal(dec_flag(spec_dec_lt(a, b)))),
        Operation::LessEqual => Some(
            ValueModel::Decimal(dec_flag(spec_dec_eq(a, b) || spec_dec_lt(a, b))),
        ),
        Operation::Greater => Some(ValueModel::Decimal(dec_flag(spec_dec_lt(b, a)))),
        Operation::GreaterEqual => Some(
            ValueModel::Decimal(dec_flag(spec_dec_eq(a, b) || spec_dec_lt(b, a))),
        ),
        Operation::Equal => Some(
            ValueModel::Decimal(
                dec_flag(spec_dec_lt(spec_dec_abs(dec_sub_bits(a, b)), DEC_EPSILON_BITS)),
            ),
        ),
        Operation::NotEqual => Some(
            ValueModel::Decimal(
                dec_flag(!spec_dec_lt(spec_dec_abs(dec_sub_bits(a, b)), DEC_EPSILON_BITS)),
            ),
        ),
    }
}

/// The result of raising a binary64 base (by bit pattern) to an integer
/// exponent: exponentiation by squaring over the IEEE multiplications, the
/// reciprocal for a negative exponent, and failure when the exponent does
/// not fit 32 bits.
pub open spec fn spec_exponent(base: u64, e: i128) -> Option<ValueModel> {
    if e > i32::MAX as i128 || e < i32::MIN as i128 {
        None
    } else {
        let mag: u128 = (if e < 0 {
            -(e as int)
        } else {
            e as int
        }) as u128;
        let p = spec_powi(base, mag);
        Some(
            ValueModel::Decimal(
                if e < 0 {
                    dec_div_bits(DEC_ONE_BITS, p)
                } else {
                    p
                },
            ),
        )
    }
}

/// The decimal one for a true condition, the decimal zero for a false one.
pub open spec fn dec_flag(c: bool) -> u64 {
    if c {
        DEC_ONE_BITS
    } else {
        DEC_ZERO_BITS
    }
}

/// The result of an infix operation on two values: integers stay exact, a
/// mixed pair is promoted to binary64 — except a decimal base under an
/// integer exponent, which keeps the exact exponent — and any other operand
/// fails.
pub open spec fn spec_operation(op: Operation, l: ValueModel, r: ValueModel) -> Option<
    ValueModel,
> {
    match (l, r) {
        (ValueModel::Integer(a), ValueModel::Integer(b)) => spec_int_op(op, a, b),
        (ValueModel::Integer(a), ValueModel::Decimal(b)) => spec_dec_op(op, dec_of_int_bits(a), b),
        (ValueModel::Decimal(a), ValueModel::Integer(b)) => if op is Exponent {
            spec_exponent(a, b)
        } else {
            spec_dec_op(op, a, dec_of_int_bits(b))
        },
        (ValueModel::Decimal(a), ValueModel::Decimal(b)) => spec_dec_op(op, a, b),
        _ => None,
    }
}

// ---------------------------------------------------------------------------
// The evaluator, as mathematics
//
// Each function yields the value, the globals after the step, and the lines
// printed during it, or `None` on an evaluation error (fuel exhaustion
// included). The executable evaluator is proved equal to these functions.
// ---------------------------------------------------------------------------

/// Binds argument values to single-character parameter names, left to right,
/// a later binding for the same character overriding an earlier one.
pub open spec fn spec_bind(
    params: Seq<char>,
    vals: Seq<ValueModel>,
    a: Map<char, ValueModel>,
    k: int,
) -> Map<char, ValueModel>
    decreases vals.len() - k,
{
    if !(0 <= k < vals.len()) || k >= params.len() {
        a
    } else {
        spec_bind(params, vals, a.insert(params[k], vals[k]), k + 1)
    }
}

/// Evaluates one node under globals `g` and argument frame `a`.
pub open spec fn spec_eval(
    node: AstModel,
    g: Map<Seq<char>, ValueModel>,
    a: Map<char, ValueModel>,
    fuel: nat,
) -> Option<(ValueModel, Map<Seq<char>, ValueModel>, Seq<Seq<char>>)>
    decreases fuel, 2nat, 0nat,
{
    if fuel == 0 {
        None
    } else {
        match node {
            AstModel::Nothing => Some((ValueModel::NoneVal, g, Seq::empty())),
            AstModel::Print(x) => match spec_eval(*x, g, a, (fuel - 1) as nat) {
                None => None,
                Some(p) => if p.0 is Variable {
                    None
                } else {
                    Some((ValueModel::NoneVal, p.1, p.2.push(spec_format_value(p.0))))
                },
            },
            AstModel::RationalPart(x) => match spec_eval(*x, g, a, (fuel - 1) as nat) {
                None => None,
                Some(p) => match p.0 {
                    ValueModel::Integer(_) => Some((ValueModel::Integer(0), p.1, p.2)),
                    ValueModel::Decimal(b) => Some(
                        (ValueModel::Decimal(dec_sub_bits(b, dec_floor_bits(b))), p.1, p.2),
                    ),
                    _ => None,
                },
            },
            AstModel::IntegerPart(x) => match spec_eval(*x, g, a, (fuel - 1) as nat) {
                None => None,
                Some(p) => match p.0 {
                    ValueModel::Integer(n) => Some((ValueModel::Integer(n), p.1, p.2)),
                    ValueModel::Decimal(b) => Some(
                        (ValueModel::Integer(dec_floor_int(b)), p.1, p.2),
                    ),
                    _ => None,
                },
            },
            AstModel::Switch { compared, cases } => match spec_eval(
                *compared,
                g,
                a,
                (fuel - 1) as nat,
            ) {
                None => None,
                Some(p) => match spec_eval_switch(cases, 0, p.0, p.1, a, fuel) {
                    None => None,
                    Some(t) => Some((t.0, t.1, p.2 + t.2)),
                },
            },
            AstModel::Definition { name, value } => match spec_eval(
                *value,
                g,
                a,
                (fuel - 1) as nat,
            ) {
                None => None,
                Some(p) => Some((p.0, p.1.insert(name, p.0), p.2)),
            },
            AstModel::Value(v) => match v {
                ValueModel::Variable(name) => match spec_lookup(g, a, name) {
                    Some(val) => Some((val, g, Seq::empty())),
                    None => None,
                },
                other => Some((other, g, Seq::empty())),
            },
            AstModel::LambdaCall { lambda, args } => spec_eval_lambda(*lambda, args, g, a, fuel),
            AstModel::Call { name, args } => match spec_lookup(g, a, name) {
                Some(v) => if v is Lambda {
                    spec_eval_lambda(v, args, g, a, fuel)
                } else {
                    None
                },
                None => None,
            },
            AstModel::Operation { left, operation, right } => match spec_eval(
                *left,
                g,
                a,
                (fuel - 1) as nat,
            ) {
                None => None,
                Some(p) => match spec_eval(*right, p.1, a, (fuel - 1) as nat) {
                    None => None,
                    Some(q) => match spec_operation(operation, p.0, q.0) {
                        None => None,
                        Some(v) => Some((v, q.1, p.2 + q.2)),
                    },
                },
            },
        }
    }
}

/// Applies a lambda to argument expressions: too many arguments fail; too
/// few evaluate the given arguments and curry them into a lambda over the
/// remaining parameters; an exact count evaluates the arguments under the
/// caller's frame and the body under a fresh frame binding them.
pub open spec fn spec_eval_lambda(
    lam: ValueModel,
    args: Seq<AstModel>,
    g: Map<Seq<char>, ValueModel>,
    a: Map<char, ValueModel>,
    fuel: nat,
) -> Option<(ValueModel, Map<Seq<char>, ValueModel>, Seq<Seq<char>>)>
    decreases fuel, 1nat, 0nat,
{
    if fuel == 0 {
        None
    } else {
        match lam {
            ValueModel::Lambda { args_def, content } => {
                if args.len() > args_def.len() {
                    None
                } else {
                    match spec_eval_list(args, 0, g, a, fuel) {
                        None => None,
                        Some(p) => {
                            let vals = p.0;
                            if args.len() < args_def.len() {
                                Some(
                                    (
                                        ValueModel::Lambda {
                                            args_def: args_def.skip(args.len() as int),
                                            content: Box::new(
                                                AstModel::LambdaCall {
                                                    lambda: Box::new(
                                                        ValueModel::Lambda {
                                                            args_def: args_def.take(
                                                                args.len() as int,
                                                            ),
                                                            content,
                                                        },
                                                    ),
                                                    args: vals.map_values(
                                                        |v: ValueModel| AstModel::Value(v),
                                                    ),
                                                },
                                            ),
                                        },
                                        p.1,
                                        p.2,
                                    ),
                                )
                            } else {
                                match spec_eval(
                                    *content,
                                    p.1,
                                    spec_bind(args_def, vals, a, 0),
                                    (fuel - 1) as nat,
                                ) {
                                    None => None,
                                    Some(q) => Some((q.0, q.1, p.2 + q.2)),
                                }
                            }
                        },
                    }
                }
            },
            _ => None,
        }
    }
}

/// Evaluates the argument expressions from position `k` on, left to right,
/// threading the globals and collecting the printed lines.
pub open spec fn spec_eval_list(
    args: Seq<AstModel>,
    k: int,
    g: Map<Seq<char>, ValueModel>,
    a: Map<char, ValueModel>,
    fuel: nat,
) -> Option<(Seq<ValueModel>, Map<Seq<char>, ValueModel>, Seq<Seq<char>>)>
    decreases fuel, 0nat, args.len() - k,
{
    if !(0 <= k < args.len()) {
        Some((Seq::empty(), g, Seq::empty()))
    } else if fuel == 0 {
        None
    } else {
        match spec_eval(args[k], g, a, (fuel - 1) as nat) {
            None => None,
            Some(p) => match spec_eval_list(args, k + 1, p.1, a, fuel) {
                None => None,
                Some(q) => Some((seq![p.0] + q.0, q.1, p.2 + q.2)),
            },
        }
    }
}

/// Tries the switch cases from position `k` on: each pattern is evaluated in
/// order, the first one equal to the compared value selects its result, and
/// no match yields the unit value.
pub open spec fn spec_eval_switch(
    cases: Seq<(AstModel, AstModel)>,
    k: int,
    compared: ValueModel,
    g: Map<Seq<char>, ValueModel>,
    a: Map<char, ValueModel>,
    fuel: nat,
) -> Option<(ValueModel, Map<Seq<char>, ValueModel>, Seq<Seq<char>>)>
    decreases fuel, 0nat, cases.len() - k,
{
    if !(0 <= k < cases.len()) {
        Some((ValueModel::NoneVal, g, Seq::empty()))
    } else if fuel == 0 {
        None
    } else {
        match spec_eval(cases[k].0, g, a, (fuel - 1) as nat) {
            None => None,
            Some(p) => if spec_val_eq(compared, p.0) {
                match spec_eval(cases[k].1, p.1, a, (fuel - 1) as nat) {
                    None => None,
                    Some(q) => Some((q.0, q.1, p.2 + q.2)),
                }
            } else {
                match spec_eval_switch(cases, k + 1, compared, p.1, a, fuel) {
                    None => None,
                    Some(t) => Some((t.0, t.1, p.2 + t.2)),
                }
            },
        }
    }
}

/// The fuel each top-level expression's evaluation gets.
pub const EVAL_FUEL: u64 = 1000000;

/// The globals every program starts with: `true` bound to one and `false`
/// bound to zero.
pub open spec fn initial_globals() -> Map<Seq<char>, ValueModel> {
    Map::empty().insert(seq!['t', 'r', 'u', 'e'], ValueModel::Integer(1)).insert(
        seq!['f', 'a', 'l', 's', 'e'],
        ValueModel::Integer(0),
    )
}

/// Evaluates the program's expressions from position `k` on, threading the
/// globals with an empty argument frame, and concatenating the printed
/// lines.
pub open spec fn spec_eval_program(
    prog: Seq<AstModel>,
    k: int,
    g: Map<Seq<char>, ValueModel>,
) -> Option<Seq<Seq<char>>>
    decreases prog.len() - k,
{
    if !(0 <= k < prog.len()) {
        Some(Seq::empty())
    } else {
        match spec_eval(prog[k], g, Map::empty(), EVAL_FUEL as nat) {
            None => None,
            Some(p) => match spec_eval_program(prog, k + 1, p.1) {
                None => None,
                Some(rest) => Some(p.2 + rest),
            },
        }
    }
}

/// The lines a source text prints: lex, parse, then evaluate every
/// top-level expression in order under the initial globals; `None` exactly
/// when any stage fails.
pub open spec fn spec_run(s: Seq<char>) -> Option<Seq<Seq<char>>> {
    match crate::parser::spec_source_parse(s) {
        None => None,
        Some(prog) => spec_eval_program(prog, 0, initial_globals()),
    }
}

// ---------------------------------------------------------------------------
// The executable evaluator
// ---------------------------------------------------------------------------

/// Looks a name up among the bindings before position `j`, later entries
/// first.
fn lookup_env_rec(g: &Vec<(Vec<char>, Value)>, name: &Vec<char>, j: usize) -> (r: Option<Value>)
    requires
        j <= g@.len(),
    ensures
        match r {
            Some(v) => env_map(g@.take(j as int)).contains_key(name@) && v@ == env_map(
                g@.take(j as int),
            )[name@],
            None => !env_map(g@.take(j as int)).contains_key(name@),
        },
    decreases j,
{
    if j == 0 {
        proof {
            assert(g@.take(0) =~= Seq::<(Vec<char>, Value)>::empty());
        }
        None
    } else {
        proof {
            assert(g@.take(j as int).drop_last() =~= g@.take(j as int - 1));
            assert(g@.take(j as int).last() == g@[j as int - 1]);
        }
        if chars_eq(&g[j - 1].0, name) {
            Some(clone_value(&g[j - 1].1))
        } else {
            lookup_env_rec(g, name, j - 1)
        }
    }
}

/// Looks a name up among the global bindings, the latest binding winning.
fn lookup_env(g: &Vec<(Vec<char>, Value)>, name: &Vec<char>) -> (r: Option<Value>)
    ensures
        match r {
            Some(v) => env_map(g@).contains_key(name@) && v@ == env_map(g@)[name@],
            None => !env_map(g@).contains_key(name@),
        },
{
    let n = g.len();
    proof {
        assert(g@.take(n as int) =~= g@);
    }
    lookup_env_rec(g, name, n)
}

/// Looks a parameter character up before position `j`, later entries first.
fn lookup_frame_rec(a: &Vec<(char, Value)>, c: char, j: usize) -> (r: Option<Value>)
    requires
        j <= a@.len(),
    ensures
        match r {
            Some(v) => frame_map(a@.take(j as int)).contains_key(c) && v@ == frame_map(
                a@.take(j as int),
            )[c],
            None => !frame_map(a@.take(j as int)).contains_key(c),
        },
    decreases j,
{
    if j == 0 {
        proof {
            assert(a@.take(0) =~= Seq::<(char, Value)>::empty());
        }
        None
    } else {
        proof {
            assert(a@.take(j as int).drop_last() =~= a@.take(j as int - 1));
            assert(a@.take(j as int).last() == a@[j as int - 1]);
        }
        if a[j - 1].0 == c {
            Some(clone_value(&a[j - 1].1))
        } else {
            lookup_frame_rec(a, c, j - 1)
        }
    }
}

/// Looks a parameter character up in an argument frame, the latest binding
/// winning.
fn lookup_frame(a: &Vec<(char, Value)>, c: char) -> (r: Option<Value>)
    ensures
        match r {
            Some(v) => frame_map(a@).contains_key(c) && v@ == frame_map(a@)[c],
            None => !frame_map(a@).contains_key(c),
        },
{
    let n = a.len();
    proof {
        assert(a@.take(n as int) =~= a@);
    }
    lookup_frame_rec(a, c, n)
}

proof fn lemma_frame_map_congruent(x: Seq<(char, Value)>, y: Seq<(char, Value)>)
    requires
        x.len() == y.len(),
        forall|k: int| 0 <= k < x.len() ==> x[k].0 == y[k].0 && x[k].1@ == y[k].1@,
    ensures
        frame_map(x) == frame_map(y),
    decreases x,
{
    if x.len() > 0 {
        lemma_frame_map_congruent(x.drop_last(), y.drop_last());
        assert(frame_map(x) =~= frame_map(y));
    }
}

/// A copy of an argument frame; the copy denotes the same mapping.
fn clone_frame(a: &Vec<(char, Value)>) -> (r: Vec<(char, Value)>)
    ensures
        frame_map(r@) == frame_map(a@),
{
    let mut r: Vec<(char, Value)> = Vec::new();
    let n = a.len();
    let mut i: usize = 0;
    while i < n
        invariant
            i <= n,
            n == a@.len(),
            r@.len() == i,
            forall|k: int| 0 <= k < i ==> r@[k].0 == a@[k].0 && r@[k].1@ == a@[k].1@,
        decreases n - i,
    {
        let c = a[i].0;
        let v = clone_value(&a[i].1);
        r.push((c, v));
        i += 1;
    }
    proof {
        lemma_frame_map_congruent(r@, a@);
    }
    r
}

/// Renders a value as its printed line.
pub fn format_value(v: &Value) -> (r: Vec<char>)
    ensures
        r@ == spec_format_value(v@),
{
    match v {
        Value::Lambda { args_def, content } => {
            let mut line: Vec<char> = Vec::new();
            line.push('<');
            line.push('\u{3bb}');
            let mut ad = args_def.clone();
            line.append(&mut ad);
            line.push('.');
            line.push('>');
            proof {
                assert(line@ =~= seq!['<', '\u{3bb}'] + args_def@ + seq!['.', '>']);
            }
            line
        },
        Value::Integer(n) => int_to_chars(*n),
        Value::Decimal(b) => dec_to_chars(*b),
        Value::Word(w) => {
            let mut line: Vec<char> = Vec::new();
            line.push('\'');
            let mut wd = w.clone();
            line.append(&mut wd);
            proof {
                assert(line@ =~= seq!['\''] + w@);
            }
            line
        },
        Value::NoneVal => {
            let mut line: Vec<char> = Vec::new();
            line.push('N');
            line.push('o');
            line.push('t');
            line.push('h');
            line.push('i');
            line.push('n');
            line.push('g');
            proof {
                assert(line@ =~= seq!['N', 'o', 't', 'h', 'i', 'n', 'g']);
            }
            line
        },
        Value::Variable(_) => {
            let line: Vec<char> = Vec::new();
            proof {
                assert(line@ =~= Seq::<char>::empty());
            }
            line
        },
    }
}

/// Whether two values are equal as the switch compares them.
pub fn value_eq(a: &Value, b: &Value) -> (r: bool)
    ensures
        r == spec_val_eq(a@, b@),
{
    match (a, b) {
        (Value::Integer(x), Value::Integer(y)) => *x == *y,
        (Value::Decimal(x), Value::Decimal(y)) => dec_eq(*x, *y),
        (Value::Word(x), Value::Word(y)) => chars_eq(x, y),
        (Value::NoneVal, Value::NoneVal) => true,
        _ => false,
    }
}

/// Appends one printed line to the output.
fn push_line(out: &mut Vec<String>, line: Vec<char>)
    ensures
        lines_view(final(out)@) == lines_view(old(out)@).push(line@),
{
    let s = chars_to_string(&line);
    out.push(s);
    proof {
        assert(lines_view(final(out)@) =~= lines_view(old(out)@).push(line@));
    }
}

/// Raises a binary64 base (by bit pattern) to an integer exponent, as
/// `spec_exponent` says.
fn exponent_value(base: u64, e: i128) -> (r: Result<Value, String>)
    ensures
        match spec_exponent(base, e) {
            Some(v) => r matches Ok(x) && x@ == v,
            None => r is Err,
        },
{
    if e > i32::MAX as i128 || e < i32::MIN as i128 {
        Err("InterpreterError: exponent out of range".to_string())
    } else {
        let mag: u128 = if e < 0 {
            (-e) as u128
        } else {
            e as u128
        };
        let p = dec_powi(base, mag);
        Ok(
            Value::Decimal(
                if e < 0 {
                    dec_div(DEC_ONE_BITS, p)
                } else {
                    p
                },
            ),
        )
    }
}

/// Applies an infix operation to two integers, as `spec_int_op` says.
pub fn integer_operation(op: &Operation, left: i128, right: i128) -> (r: Result<Value, String>)
    ensures
        match spec_int_op(*op, left, right) {
            Some(v) => r matches Ok(x) && x@ == v,
            None => r is Err,
        },
{
    match op {
        Operation::Addition => match left.checked_add(right) {
            Some(v) => Ok(Value::Integer(v)),
            None => Err("InterpreterError: integer overflow".to_string()),
        },
        Operation::Substraction => match left.checked_sub(right) {
            Some(v) => Ok(Value::Integer(v)),
            None => Err("InterpreterError: integer overflow".to_string()),
        },
        Operation::Multiplication => match left.checked_mul(right) {
            Some(v) => Ok(Value::Integer(v)),
            None => Err("InterpreterError: integer overflow".to_string()),
        },
        Operation::Division => match left.checked_rem(right) {
            None => Err("InterpreterError: division failed".to_string()),
            Some(rm) => {
                if rm == 0 {
                    match left.checked_div(right) {
                        Some(q) => Ok(Value::Integer(q)),
                        None => Err("InterpreterError: division failed".to_string()),
                    }
                } else {
                    Ok(Value::Decimal(dec_div(dec_of_int(left), dec_of_int(right))))
                }
            },
        },
        Operation::Exponent => exponent_value(dec_of_int(left), right),
        Operation::Less => Ok(Value::Integer(if left < right { 1 } else { 0 })),
        Operation::LessEqual => Ok(Value::Integer(if left <= right { 1 } else { 0 })),
        Operation::Greater => Ok(Value::Integer(if left > right { 1 } else { 0 })),
        Operation::GreaterEqual => Ok(Value::Integer(if left >= right { 1 } else { 0 })),
        Operation::Equal => Ok(Value::Integer(if left == right { 1 } else { 0 })),
        Operation::NotEqual => Ok(Value::Integer(if left != right { 1 } else { 0 })),
    }
}

/// Applies an infix operation to two binary64 bit patterns, as
/// `spec_dec_op` says.
pub fn decimal_operation(op: &Operation, left: u64, right: u64) -> (r: Result<Value, String>)
    ensures
        match spec_dec_op(*op, left, right) {
            Some(v) => r matches Ok(x) && x@ == v,
            None => r is Err,
        },
{
    match op {
        Operation::Addition => Ok(Value::Decimal(dec_add(left, right))),
        Operation::Substraction => Ok(Value::Decimal(dec_sub(left, right))),
        Operation::Multiplication => Ok(Value::Decimal(dec_mul(left, right))),
        Operation::Division => Ok(Value::Decimal(dec_div(left, right))),
        Operation::Exponent => Err(
            "InterpreterError: only an integer exponent can be computed".to_string(),
        ),
        Operation::Less => Ok(
            Value::Decimal(
                if dec_lt(left, right) {
                    DEC_ONE_BITS
                } else {
                    DEC_ZERO_BITS
                },
            ),
        ),
        Operation::LessEqual => Ok(
            Value::Decimal(
                if dec_eq(left, right) || dec_lt(left, right) {
                    DEC_ONE_BITS
                } else {
                    DEC_ZERO_BITS
                },
            ),
        ),
        Operation::Greater => Ok(
            Value::Decimal(
                if dec_lt(right, left) {
                    DEC_ONE_BITS
                } else {
                    DEC_ZERO_BITS
                },
            ),
        ),
        Operation::GreaterEqual => Ok(
            Value::Decimal(
                if dec_eq(left, right) || dec_lt(right, left) {
                    DEC_ONE_BITS
                } else {
                    DEC_ZERO_BITS
                },
            ),
        ),
        Operation::Equal => {
            let d = crate::dec::dec_abs(dec_sub(left, right));
            Ok(
                Value::Decimal(
                    if dec_lt(d, DEC_EPSILON_BITS) {
                        DEC_ONE_BITS
                    } else {
                        DEC_ZERO_BITS
                    },
                ),
            )
        },
        Operation::NotEqual => {
            let d = crate::dec::dec_abs(dec_sub(left, right));
            Ok(
                Value::Decimal(
                    if !dec_lt(d, DEC_EPSILON_BITS) {
                        DEC_ONE_BITS
                    } else {
                        DEC_ZERO_BITS
                    },
                ),
            )
        },
    }
}

/// Applies an infix operation to two values, as `spec_operation` says.
pub fn operation(op: &Operation, left: Value, right: Value) -> (r: Result<Value, String>)
    ensures
        match spec_operation(*op, left@, right@) {
            Some(v) => r matches Ok(x) && x@ == v,
            None => r is Err,
        },
{
    match (left, right) {
        (Value::Integer(a), Value::Integer(b)) => integer_operation(op, a, b),
        (Value::Integer(a), Value::Decimal(b)) => decimal_operation(op, dec_of_int(a), b),
        (Value::Decimal(a), Value::Integer(b)) => match op {
            Operation::Exponent => exponent_value(a, b),
            _ => decimal_operation(op, a, dec_of_int(b)),
        },
        (Value::Decimal(a), Value::Decimal(b)) => decimal_operation(op, a, b),
        _ => Err("InterpreterError: unsupported value types".to_string()),
    }
}
/// Prefixes a value onto an evaluated argument vector.
fn prepend_value(v: Value, rest: Vec<Value>) -> (r: Vec<Value>)
    ensures
        view_vals(r@) == seq![view_value(v)] + view_vals(rest@),
        r@.len() == rest@.len() + 1,
{
    let ghost orig = rest@;
    let mut rest = rest;
    rest.insert(0, v);
    proof {
        assert(view_vals(rest@) =~= seq![view_value(v)] + view_vals(orig));
    }
    rest
}

/// Wraps evaluated argument values as value leaves of the syntax tree.
fn wrap_values(vals: &Vec<Value>) -> (r: Vec<ASTNode>)
    ensures
        view_ast_seq(r@) == view_vals(vals@).map_values(|v: ValueModel| AstModel::Value(v)),
{
    let mut r: Vec<ASTNode> = Vec::new();
    let n = vals.len();
    let mut i: usize = 0;
    while i < n
        invariant
            i <= n,
            n == vals@.len(),
            r@.len() == i,
            forall|k: int| 0 <= k < i ==> view_ast(r@[k]) == AstModel::Value(view_value(vals@[k])),
        decreases n - i,
    {
        let v = clone_value(&vals[i]);
        r.push(ASTNode::Value(v));
        i += 1;
    }
    proof {
        lemma_view_ast_seq_len(r@);
        assert(view_ast_seq(r@) =~= view_vals(vals@).map_values(|v: ValueModel| AstModel::Value(v)));
    }
    r
}

/// Builds the fresh argument frame of a saturated call: the caller's frame,
/// then each parameter character bound to its value in order.
fn bind_args(params: &Vec<char>, vals: &Vec<Value>, caller: &Vec<(char, Value)>) -> (r: Vec<
    (char, Value),
>)
    requires
        vals@.len() <= params@.len(),
    ensures
        frame_map(r@) == spec_bind(params@, view_vals(vals@), frame_map(caller@), 0),
{
    let mut f = clone_frame(caller);
    let ghost f0 = f@;
    let n = vals.len();
    let mut k: usize = 0;
    while k < n
        invariant
            k <= n,
            n == vals@.len() <= params@.len(),
            spec_bind(params@, view_vals(vals@), frame_map(f@), k as int) == spec_bind(
                params@,
                view_vals(vals@),
                frame_map(f0),
                0,
            ),
        decreases n - k,
    {
        let ghost fprev = f@;
        let c = params[k];
        let v = clone_value(&vals[k]);
        f.push((c, v));
        proof {
            assert(f@.drop_last() =~= fprev);
            assert(view_vals(vals@)[k as int] == view_value(vals@[k as int]));
        }
        k += 1;
    }
    proof {
        assert(frame_map(caller@) == frame_map(f0));
    }
    f
}

/// Evaluates one node, as `spec_eval` says: the returned value, the globals
/// it may define, and the lines it prints appended to `out`.
#[verifier::rlimit(100)]
pub fn eval(
    node: &ASTNode,
    variables: &mut Vec<(Vec<char>, Value)>,
    args: &Vec<(char, Value)>,
    out: &mut Vec<String>,
    fuel: u64,
) -> (r: Result<Value, String>)
    ensures
        match spec_eval(node@, env_map(old(variables)@), frame_map(args@), fuel as nat) {
            Some(p) => r matches Ok(v) && v@ == p.0 && env_map(final(variables)@) == p.1
                && lines_view(final(out)@) == lines_view(old(out)@) + p.2,
            None => r is Err,
        },
    decreases fuel, 2nat, 0nat,
{
    let ghost g0 = variables@;
    let ghost o0 = out@;
    proof {
        reveal_with_fuel(view_ast, 3);
        reveal_with_fuel(view_value, 3);
    }
    if fuel == 0 {
        return Err("InterpreterError: evaluation too deep".to_string());
    }
    match node {
        ASTNode::Nothing => {
            proof {
                assert(lines_view(out@) =~= lines_view(out@) + Seq::<Seq<char>>::empty());
            }
            Ok(Value::NoneVal)
        },
        ASTNode::Print(x) => {
            match eval(&**x, variables, args, out, fuel - 1) {
                Err(e) => Err(e),
                Ok(v) => {
                    let is_var = match &v {
                        Value::Variable(_) => true,
                        _ => false,
                    };
                    if is_var {
                        Err("InterpreterError: a variable cannot be printed".to_string())
                    } else {
                        let line = format_value(&v);
                        let ghost lv = line@;
                        push_line(out, line);
                        proof {
                            match spec_eval(
                                view_ast(**x),
                                env_map(g0),
                                frame_map(args@),
                                (fuel - 1) as nat,
                            ) {
                                Some(p) => {
                                    assert(lines_view(o0) + p.2.push(lv) =~= (lines_view(o0)
                                        + p.2).push(lv));
                                },
                                None => {},
                            }
                        }
                        Ok(Value::NoneVal)
                    }
                },
            }
        },
        ASTNode::RationalPart(x) => {
            match eval(&**x, variables, args, out, fuel - 1) {
                Err(e) => Err(e),
                Ok(v) => match v {
                    Value::Integer(_) => Ok(Value::Integer(0)),
                    Value::Decimal(b) => Ok(Value::Decimal(dec_sub(b, dec_floor(b)))),
                    _ => Err(
                        "InterpreterError: the rational part needs a number".to_string(),
                    ),
                },
            }
        },
        ASTNode::IntegerPart(x) => {
            match eval(&**x, variables, args, out, fuel - 1) {
                Err(e) => Err(e),
                Ok(v) => match v {
                    Value::Integer(n) => Ok(Value::Integer(n)),
                    Value::Decimal(b) => Ok(Value::Integer(dec_floor_to_int(b))),
                    _ => Err(
                        "InterpreterError: the integer part needs a number".to_string(),
                    ),
                },
            }
        },
        ASTNode::Switch { compared, cases } => {
            match eval(&**compared, variables, args, out, fuel - 1) {
                Err(e) => Err(e),
                Ok(c) => {
                    let r = eval_switch(cases, 0, &c, variables, args, out, fuel);
                    proof {
                        match spec_eval(
                            view_ast(**compared),
                            env_map(g0),
                            frame_map(args@),
                            (fuel - 1) as nat,
                        ) {
                            Some(p) => {
                                match spec_eval_switch(
                                    view_case_seq(cases@),
                                    0,
                                    p.0,
                                    p.1,
                                    frame_map(args@),
                                    fuel as nat,
                                ) {
                                    Some(t) => {
                                        assert(lines_view(o0) + (p.2 + t.2) =~= (lines_view(o0)
                                            + p.2) + t.2);
                                    },
                                    None => {},
                                }
                            },
                            None => {},
                        }
                    }
                    r
                },
            }
        },
        ASTNode::Definition { name, value } => {
            match eval(&**value, variables, args, out, fuel - 1) {
                Err(e) => Err(e),
                Ok(v) => {
                    let ghost gprev = variables@;
                    let nm = name.clone();
                    let copy = clone_value(&v);
                    variables.push((nm, copy));
                    proof {
                        assert(variables@.drop_last() =~= gprev);
                    }
                    Ok(v)
                },
            }
        },
        ASTNode::Value(v) => {
            match v {
                Value::Variable(name) => {
                    match lookup_env(variables, name) {
                        Some(val) => {
                            proof {
                                assert(lines_view(out@) =~= lines_view(out@) + Seq::<
                                    Seq<char>,
                                >::empty());
                            }
                            Ok(val)
                        },
                        None => {
                            if name.len() == 1 {
                                match lookup_frame(args, name[0]) {
                                    Some(val) => {
                                        proof {
                                            assert(lines_view(out@) =~= lines_view(out@) + Seq::<
                                                Seq<char>,
                                            >::empty());
                                        }
                                        Ok(val)
                                    },
                                    None => Err(
                                        "InterpreterError: undefined variable".to_string(),
                                    ),
                                }
                            } else {
                                Err("InterpreterError: undefined variable".to_string())
                            }
                        },
                    }
                },
                other => {
                    proof {
                        assert(lines_view(out@) =~= lines_view(out@) + Seq::<Seq<char>>::empty());
                    }
                    Ok(clone_value(other))
                },
            }
        },
        ASTNode::LambdaCall { lambda, args: cargs } => {
            let lam = clone_value(&**lambda);
            eval_lambda(lam, cargs, variables, args, out, fuel)
        },
        ASTNode::Call { name, args: cargs } => {
            let looked: Option<Value> = match lookup_env(variables, name) {
                Some(val) => Some(val),
                None => {
                    if name.len() == 1 {
                        lookup_frame(args, name[0])
                    } else {
                        None
                    }
                },
            };
            match looked {
                None => Err("InterpreterError: undefined variable".to_string()),
                Some(val) => {
                    let is_lambda = match &val {
                        Value::Lambda { .. } => true,
                        _ => false,
                    };
                    if is_lambda {
                        eval_lambda(val, cargs, variables, args, out, fuel)
                    } else {
                        Err("InterpreterError: only a lambda can be called".to_string())
                    }
                },
            }
        },
        ASTNode::Operation { left, operation: op, right } => {
            match eval(&**left, variables, args, out, fuel - 1) {
                Err(e) => Err(e),
                Ok(lv) => match eval(&**right, variables, args, out, fuel - 1) {
                    Err(e) => Err(e),
                    Ok(rv) => {
                        proof {
                            match spec_eval(
                                view_ast(**left),
                                env_map(g0),
                                frame_map(args@),
                                (fuel - 1) as nat,
                            ) {
                                Some(p) => {
                                    match spec_eval(
                                        view_ast(**right),
                                        p.1,
                                        frame_map(args@),
                                        (fuel - 1) as nat,
                                    ) {
                                        Some(q) => {
                                            assert(lines_view(o0) + (p.2 + q.2) =~= (lines_view(
                                                o0,
                                            ) + p.2) + q.2);
                                        },
                                        None => {},
                                    }
                                },
                                None => {},
                            }
                        }
                        operation_step(op, lv, rv)
                    },
                },
            }
        },
    }
}

/// Applies the operation once both operands are evaluated.
fn operation_step(op: &Operation, lv: Value, rv: Value) -> (r: Result<Value, String>)
    ensures
        match spec_operation(*op, lv@, rv@) {
            Some(v) => r matches Ok(x) && x@ == v,
            None => r is Err,
        },
{
    operation(op, lv, rv)
}

/// Applies a lambda to argument expressions, as `spec_eval_lambda` says.
#[verifier::rlimit(100)]
fn eval_lambda(
    lam: Value,
    cargs: &Vec<ASTNode>,
    variables: &mut Vec<(Vec<char>, Value)>,
    args: &Vec<(char, Value)>,
    out: &mut Vec<String>,
    fuel: u64,
) -> (r: Result<Value, String>)
    ensures
        match spec_eval_lambda(
            view_value(lam),
            view_ast_seq(cargs@),
            env_map(old(variables)@),
            frame_map(args@),
            fuel as nat,
        ) {
            Some(p) => r matches Ok(v) && v@ == p.0 && env_map(final(variables)@) == p.1
                && lines_view(final(out)@) == lines_view(old(out)@) + p.2,
            None => r is Err,
        },
    decreases fuel, 1nat, 0nat,
{
    let ghost g0 = variables@;
    let ghost o0 = out@;
    proof {
        reveal_with_fuel(view_ast, 4);
        reveal_with_fuel(view_value, 4);
        lemma_view_ast_seq_len(cargs@);
    }
    if fuel == 0 {
        return Err("InterpreterError: evaluation too deep".to_string());
    }
    match lam {
        Value::Lambda { args_def, content } => {
            if cargs.len() > args_def.len() {
                return Err("InterpreterError: too many arguments".to_string());
            }
            match eval_list(cargs, 0, variables, args, out, fuel) {
                Err(e) => Err(e),
                Ok(vals) => {
                    if cargs.len() < args_def.len() {
                        let n = cargs.len();
                        let rest_params = subvec(&args_def, n, args_def.len());
                        let taken = subvec(&args_def, 0, n);
                        let wrapped = wrap_values(&vals);
                        proof {
                            assert(rest_params@ =~= args_def@.skip(n as int));
                            assert(taken@ =~= args_def@.take(n as int));
                        }
                        Ok(
                            Value::Lambda {
                                args_def: rest_params,
                                content: Box::new(
                                    ASTNode::LambdaCall {
                                        lambda: Box::new(
                                            Value::Lambda { args_def: taken, content },
                                        ),
                                        args: wrapped,
                                    },
                                ),
                            },
                        )
                    } else {
                        let frame = bind_args(&args_def, &vals, args);
                        let r = eval(&*content, variables, &frame, out, fuel - 1);
                        proof {
                            match spec_eval_list(
                                view_ast_seq(cargs@),
                                0,
                                env_map(g0),
                                frame_map(args@),
                                fuel as nat,
                            ) {
                                Some(p) => {
                                    match spec_eval(
                                        view_ast(*content),
                                        p.1,
                                        spec_bind(args_def@, view_vals(vals@), frame_map(args@), 0),
                                        (fuel - 1) as nat,
                                    ) {
                                        Some(q) => {
                                            assert(lines_view(o0) + (p.2 + q.2) =~= (lines_view(
                                                o0,
                                            ) + p.2) + q.2);
                                        },
                                        None => {},
                                    }
                                },
                                None => {},
                            }
                        }
                        match r {
                            Err(e) => Err(e),
                            Ok(v) => Ok(v),
                        }
                    }
                },
            }
        },
        _ => Err("InterpreterError: only a lambda can be called".to_string()),
    }
}

/// Evaluates argument expressions from position `k` on, as
/// `spec_eval_list` says.
fn eval_list(
    nodes: &Vec<ASTNode>,
    k: usize,
    variables: &mut Vec<(Vec<char>, Value)>,
    args: &Vec<(char, Value)>,
    out: &mut Vec<String>,
    fuel: u64,
) -> (r: Result<Vec<Value>, String>)
    ensures
        match spec_eval_list(
            view_ast_seq(nodes@),
            k as int,
            env_map(old(variables)@),
            frame_map(args@),
            fuel as nat,
        ) {
            Some(p) => r matches Ok(vs) && view_vals(vs@) == p.0 && env_map(final(variables)@)
                == p.1 && lines_view(final(out)@) == lines_view(old(out)@) + p.2 && (
            k as int <= nodes@.len() ==> vs@.len() == nodes@.len() - k),
            None => r is Err,
        },
    decreases fuel, 0nat, nodes@.len() - k,
{
    let ghost g0 = variables@;
    let ghost o0 = out@;
    proof {
        lemma_view_ast_seq_len(nodes@);
    }
    if k >= nodes.len() {
        let vs: Vec<Value> = Vec::new();
        proof {
            assert(view_vals(vs@) =~= Seq::<ValueModel>::empty());
            assert(lines_view(out@) =~= lines_view(out@) + Seq::<Seq<char>>::empty());
        }
        return Ok(vs);
    }
    if fuel == 0 {
        return Err("InterpreterError: evaluation too deep".to_string());
    }
    match eval(&nodes[k], variables, args, out, fuel - 1) {
        Err(e) => Err(e),
        Ok(v) => match eval_list(nodes, k + 1, variables, args, out, fuel) {
            Err(e) => Err(e),
            Ok(rest) => {
                proof {
                    match spec_eval(
                        view_ast_seq(nodes@)[k as int],
                        env_map(g0),
                        frame_map(args@),
                        (fuel - 1) as nat,
                    ) {
                        Some(p) => {
                            match spec_eval_list(
                                view_ast_seq(nodes@),
                                k + 1,
                                p.1,
                                frame_map(args@),
                                fuel as nat,
                            ) {
                                Some(q) => {
                                    assert(lines_view(o0) + (p.2 + q.2) =~= (lines_view(o0) + p.2)
                                        + q.2);
                                },
                                None => {},
                            }
                        },
                        None => {},
                    }
                }
                Ok(prepend_value(v, rest))
            },
        },
    }
}

/// Tries switch cases from position `k` on, as `spec_eval_switch` says.
fn eval_switch(
    cases: &Vec<(ASTNode, ASTNode)>,
    k: usize,
    compared: &Value,
    variables: &mut Vec<(Vec<char>, Value)>,
    args: &Vec<(char, Value)>,
    out: &mut Vec<String>,
    fuel: u64,
) -> (r: Result<Value, String>)
    ensures
        match spec_eval_switch(
            view_case_seq(cases@),
            k as int,
            compared@,
            env_map(old(variables)@),
            frame_map(args@),
            fuel as nat,
        ) {
            Some(p) => r matches Ok(v) && v@ == p.0 && env_map(final(variables)@) == p.1
                && lines_view(final(out)@) == lines_view(old(out)@) + p.2,
            None => r is Err,
        },
    decreases fuel, 0nat, cases@.len() - k,
{
    let ghost g0 = variables@;
    let ghost o0 = out@;
    proof {
        lemma_view_case_seq_len(cases@);
    }
    if k >= cases.len() {
        proof {
            assert(lines_view(out@) =~= lines_view(out@) + Seq::<Seq<char>>::empty());
        }
        return Ok(Value::NoneVal);
    }
    if fuel == 0 {
        return Err("InterpreterError: evaluation too deep".to_string());
    }
    match eval(&cases[k].0, variables, args, out, fuel - 1) {
        Err(e) => Err(e),
        Ok(pat) => {
            if value_eq(compared, &pat) {
                let r = eval(&cases[k].1, variables, args, out, fuel - 1);
                proof {
                    match spec_eval(
                        view_case_seq(cases@)[k as int].0,
                        env_map(g0),
                        frame_map(args@),
                        (fuel - 1) as nat,
                    ) {
                        Some(p) => {
                            match spec_eval(
                                view_case_seq(cases@)[k as int].1,
                                p.1,
                                frame_map(args@),
                                (fuel - 1) as nat,
                            ) {
                                Some(q) => {
                                    assert(lines_view(o0) + (p.2 + q.2) =~= (lines_view(o0) + p.2)
                                        + q.2);
                                },
                                None => {},
                            }
                        },
                        None => {},
                    }
                }
                r
            } else {
                let r = eval_switch(cases, k + 1, compared, variables, args, out, fuel);
                proof {
                    match spec_eval(
                        view_case_seq(cases@)[k as int].0,
                        env_map(g0),
                        frame_map(args@),
                        (fuel - 1) as nat,
                    ) {
                        Some(p) => {
                            match spec_eval_switch(
                                view_case_seq(cases@),
                                k + 1,
                                compared@,
                                p.1,
                                frame_map(args@),
                                fuel as nat,
                            ) {
                                Some(t) => {
                                    assert(lines_view(o0) + (p.2 + t.2) =~= (lines_view(o0) + p.2)
                                        + t.2);
                                },
                                None => {},
                            }
                        },
                        None => {},
                    }
                }
                r
            }
        },
    }
}

/// Evaluates the program's expressions from position `k` on, as
/// `spec_eval_program` says.
fn eval_program(
    prog: &Vec<ASTNode>,
    k: usize,
    variables: &mut Vec<(Vec<char>, Value)>,
    out: &mut Vec<String>,
) -> (r: Result<(), String>)
    ensures
        match spec_eval_program(view_ast_seq(prog@), k as int, env_map(old(variables)@)) {
            Some(lines) => r is Ok && lines_view(final(out)@) == lines_view(old(out)@) + lines,
            None => r is Err,
        },
    decreases prog@.len() - k,
{
    let ghost g0 = variables@;
    let ghost o0 = out@;
    proof {
        lemma_view_ast_seq_len(prog@);
    }
    if k >= prog.len() {
        proof {
            assert(lines_view(out@) =~= lines_view(out@) + Seq::<Seq<char>>::empty());
        }
        return Ok(());
    }
    let frame: Vec<(char, Value)> = Vec::new();
    proof {
        assert(frame_map(frame@) =~= Map::<char, ValueModel>::empty());
    }
    match eval(&prog[k], variables, &frame, out, EVAL_FUEL) {
        Err(e) => Err(e),
        Ok(_) => {
            let r = eval_program(prog, k + 1, variables, out);
            proof {
                match spec_eval(
                    view_ast_seq(prog@)[k as int],
                    env_map(g0),
                    Map::empty(),
                    EVAL_FUEL as nat,
                ) {
                    Some(p) => {
                        match spec_eval_program(view_ast_seq(prog@), k + 1, p.1) {
                            Some(rest) => {
                                assert(lines_view(o0) + (p.2 + rest) =~= (lines_view(o0) + p.2)
                                    + rest);
                            },
                            None => {},
                        }
                    },
                    None => {},
                }
            }
            r
        },
    }
}

/// Runs a source text: lexes, parses, seeds the globals with `true` and
/// `false`, evaluates every top-level expression, and returns the printed
/// lines in order; fails with a message when any stage fails.
pub fn eval_start(source: &str) -> (r: Result<Vec<String>, String>)
    ensures
        match spec_run(source@) {
            Some(lines) => r matches Ok(v) && lines_view(v@) == lines,
            None => r is Err,
        },
{
    match crate::parser::parse(source) {
        Err(e) => Err(e),
        Ok(prog) => {
            let mut variables: Vec<(Vec<char>, Value)> = Vec::new();
            let mut tname: Vec<char> = Vec::new();
            tname.push('t');
            tname.push('r');
            tname.push('u');
            tname.push('e');
            let mut fname: Vec<char> = Vec::new();
            fname.push('f');
            fname.push('a');
            fname.push('l');
            fname.push('s');
            fname.push('e');
            proof {
                assert(tname@ =~= seq!['t', 'r', 'u', 'e']);
                assert(fname@ =~= seq!['f', 'a', 'l', 's', 'e']);
            }
            variables.push((tname, Value::Integer(1)));
            variables.push((fname, Value::Integer(0)));
            proof {
                reveal_with_fuel(env_map, 4);
                let s = variables@;
                assert(s.drop_last().drop_last() =~= Seq::<(Vec<char>, Value)>::empty());
                assert(s.drop_last().last() == s[0]);
                assert(env_map(s) =~= initial_globals());
            }
            let mut out: Vec<String> = Vec::new();
            match eval_program(&prog, 0, &mut variables, &mut out) {
                Err(e) => Err(e),
                Ok(_) => {
                    proof {
                        assert(lines_view(Seq::<String>::empty()) =~= Seq::<Seq<char>>::empty());
                    }
                    Ok(out)
                },
            }
        },
    }
}

} // verus!
