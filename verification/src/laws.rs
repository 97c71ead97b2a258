use vstd::prelude::*;
use crate::ast::AstModel;
use crate::ast::ValueModel;
use crate::chars::spec_is_space;
use crate::eval::{
    initial_globals, spec_bind, spec_eval, spec_eval_lambda, spec_eval_list, spec_eval_program,
    spec_eval_switch, spec_exponent, spec_format_value, spec_int_op, spec_lookup, spec_operation,
    spec_val_eq, EVAL_FUEL,
};
use crate::dec::{dec_floor_bits, dec_floor_int, dec_sub_bits};
use vstd::arithmetic::div_mod::{
    lemma_fundamental_div_mod, lemma_fundamental_div_mod_converse, lemma_mod_pos_bound,
};
use crate::ast::Operation;
use crate::lexer::{
    lemma_line_end_bounds, lemma_multi_end_bounds, lemma_spaces_end_bounds, line_end, multi_end,
    spaces_end, spec_lex,
};
use crate::token::TokenModel;

verus! {

// ---------------------------------------------------------------------------
// The lexer's laws
// ---------------------------------------------------------------------------

/// Whether the input from `i` on holds only whitespace and comments.
pub open spec fn spec_blank(s: Seq<char>, i: int) -> bool
    decreases s.len() - i,
        via spec_blank_dec
{
    if !(0 <= i < s.len()) {
        true
    } else if spec_is_space(s[i]) {
        spec_blank(s, spaces_end(s, i))
    } else if s[i] == '#' {
        if i + 1 < s.len() && s[i + 1] == '#' {
            spec_blank(s, multi_end(s, i + 2))
        } else {
            spec_blank(s, line_end(s, i + 1))
        }
    } else {
        false
    }
}

#[via_fn]
proof fn spec_blank_dec(s: Seq<char>, i: int) {
    if 0 <= i < s.len() {
        if spec_is_space(s[i]) {
            lemma_spaces_end_bounds(s, i + 1);
        } else if s[i] == '#' {
            if i + 1 < s.len() && s[i + 1] == '#' {
                lemma_multi_end_bounds(s, i + 2);
            } else {
                lemma_line_end_bounds(s, i + 1);
            }
        }
    }
}

/// Lexing is total on whitespace- and comment-only input and produces the
/// empty token sequence.
pub proof fn lemma_blank_lexes_empty(s: Seq<char>, i: int)
    requires
        0 <= i <= s.len(),
        spec_blank(s, i),
    ensures
        spec_lex(s, i) == Some(Seq::<TokenModel>::empty()),
    decreases s.len() - i,
{
    if i < s.len() {
        let c = s[i];
        if spec_is_space(c) {
            lemma_spaces_end_bounds(s, i + 1);
            lemma_blank_lexes_empty(s, spaces_end(s, i));
        } else if i + 1 < s.len() && s[i + 1] == '#' {
            lemma_multi_end_bounds(s, i + 2);
            lemma_blank_lexes_empty(s, multi_end(s, i + 2));
        } else {
            lemma_line_end_bounds(s, i + 1);
            lemma_blank_lexes_empty(s, line_end(s, i + 1));
        }
    }
}

/// A line comment contributes no token: lexing continues at the next
/// newline.
pub proof fn lemma_line_comment_skipped(s: Seq<char>, i: int)
    requires
        0 <= i < s.len(),
        s[i] == '#',
        !(i + 1 < s.len() && s[i + 1] == '#'),
    ensures
        spec_lex(s, i) == spec_lex(s, line_end(s, i + 1)),
{
}

/// A multi-line comment contributes no token: lexing continues just after
/// the closing `##`.
pub proof fn lemma_multiline_comment_skipped(s: Seq<char>, i: int)
    requires
        0 <= i < s.len(),
        i + 1 < s.len(),
        s[i] == '#',
        s[i + 1] == '#',
    ensures
        spec_lex(s, i) == spec_lex(s, multi_end(s, i + 2)),
{
}

/// The position a multi-line comment body stops at is the second `##`: the
/// first closing pair after its start, or the end of the input when none
/// closes it.
pub proof fn lemma_multi_end_first_close(s: Seq<char>, i: int)
    requires
        0 <= i <= s.len(),
    ensures
        multi_end(s, i) == s.len() || (multi_end(s, i) >= i + 2 && s[multi_end(s, i) - 2] == '#'
            && s[multi_end(s, i) - 1] == '#'),
        forall|j: int| i <= j < multi_end(s, i) - 2 ==> !((#[trigger] s[j]) == '#' && s[j + 1]
            == '#'),
    decreases s.len() - i,
{
    if i + 1 >= s.len() {
    } else if s[i] == '#' && s[i + 1] == '#' {
    } else {
        lemma_multi_end_first_close(s, i + 1);
        lemma_multi_end_bounds(s, i + 1);
    }
}

// ---------------------------------------------------------------------------
// The evaluator's laws
// ---------------------------------------------------------------------------

/// Defining a pure expression and printing the name prints the same line as
/// printing the expression directly: for any expression that evaluates to a
/// non-variable value without changing the globals and without printing,
/// the program `name = e. ! name` and the program `! e` both print exactly
/// the one line that renders the value.
pub proof fn lemma_define_then_print(
    e: AstModel,
    name: Seq<char>,
    g: Map<Seq<char>, ValueModel>,
    v: ValueModel,
)
    requires
        spec_eval(e, g, Map::<char, ValueModel>::empty(), (EVAL_FUEL - 1) as nat) == Some(
            (v, g, Seq::<Seq<char>>::empty()),
        ),
        !(v is Variable),
    ensures
        spec_eval_program(
            seq![
                AstModel::Definition { name, value: Box::new(e) },
                AstModel::Print(Box::new(AstModel::Value(ValueModel::Variable(name)))),
            ],
            0,
            g,
        ) == Some(seq![spec_format_value(v)]),
        spec_eval_program(seq![AstModel::Print(Box::new(e))], 0, g) == Some(
            seq![spec_format_value(v)],
        ),
{
    reveal_with_fuel(spec_eval, 3);
    reveal_with_fuel(spec_eval_program, 4);
    let empty_frame = Map::<char, ValueModel>::empty();
    let prog1 = seq![
        AstModel::Definition { name, value: Box::new(e) },
        AstModel::Print(Box::new(AstModel::Value(ValueModel::Variable(name)))),
    ];
    let prog2 = seq![AstModel::Print(Box::new(e))];
    let g1 = g.insert(name, v);
    assert(spec_eval(prog1[0], g, empty_frame, EVAL_FUEL as nat) == Some(
        (v, g1, Seq::<Seq<char>>::empty()),
    ));
    assert(spec_eval(prog1[1], g1, empty_frame, EVAL_FUEL as nat) == Some(
        (ValueModel::NoneVal, g1, Seq::<Seq<char>>::empty().push(spec_format_value(v))),
    ));
    assert(spec_eval_program(prog1, 2, g1) == Some(Seq::<Seq<char>>::empty()));
    assert(spec_eval_program(prog1, 1, g1) == Some(
        Seq::<Seq<char>>::empty().push(spec_format_value(v)) + Seq::<Seq<char>>::empty(),
    ));
    assert(spec_eval_program(prog1, 0, g) == Some(
        Seq::<Seq<char>>::empty() + (Seq::<Seq<char>>::empty().push(spec_format_value(v)) + Seq::<
            Seq<char>,
        >::empty()),
    ));
    assert(Seq::<Seq<char>>::empty() + (Seq::<Seq<char>>::empty().push(spec_format_value(v))
        + Seq::<Seq<char>>::empty()) =~= seq![spec_format_value(v)]);
    assert(spec_eval(prog2[0], g, empty_frame, EVAL_FUEL as nat) == Some(
        (ValueModel::NoneVal, g, Seq::<Seq<char>>::empty().push(spec_format_value(v))),
    ));
    assert(spec_eval_program(prog2, 1, g) == Some(Seq::<Seq<char>>::empty()));
    assert(spec_eval_program(prog2, 0, g) == Some(
        Seq::<Seq<char>>::empty().push(spec_format_value(v)) + Seq::<Seq<char>>::empty(),
    ));
    assert(Seq::<Seq<char>>::empty().push(spec_format_value(v)) + Seq::<Seq<char>>::empty()
        =~= seq![spec_format_value(v)]);
}

/// A saturated application evaluates the arguments under the caller's frame
/// and then the body under a fresh frame that binds each parameter
/// character, in positional order, to its argument's value.
pub proof fn lemma_saturated_application(
    params: Seq<char>,
    body: AstModel,
    args: Seq<AstModel>,
    g: Map<Seq<char>, ValueModel>,
    a: Map<char, ValueModel>,
    fuel: nat,
)
    requires
        fuel >= 1,
        args.len() == params.len(),
    ensures
        spec_eval_lambda(
            ValueModel::Lambda { args_def: params, content: Box::new(body) },
            args,
            g,
            a,
            fuel,
        ) == match spec_eval_list(args, 0, g, a, fuel) {
            None => None,
            Some(p) => match spec_eval(body, p.1, spec_bind(params, p.0, a, 0), (fuel - 1) as nat) {
                None => None,
                Some(q) => Some((q.0, q.1, p.2 + q.2)),
            },
        },
{
}

/// The integer part of an integer is that integer itself.
pub proof fn lemma_integer_part_identity(
    n: i128,
    g: Map<Seq<char>, ValueModel>,
    a: Map<char, ValueModel>,
    fuel: nat,
)
    requires
        fuel >= 2,
    ensures
        spec_eval(
            AstModel::IntegerPart(Box::new(AstModel::Value(ValueModel::Integer(n)))),
            g,
            a,
            fuel,
        ) == Some((ValueModel::Integer(n), g, Seq::<Seq<char>>::empty())),
{
    reveal_with_fuel(spec_eval, 3);
}

/// The rational part of an integer is the integer zero.
pub proof fn lemma_rational_part_zero(
    n: i128,
    g: Map<Seq<char>, ValueModel>,
    a: Map<char, ValueModel>,
    fuel: nat,
)
    requires
        fuel >= 2,
    ensures
        spec_eval(
            AstModel::RationalPart(Box::new(AstModel::Value(ValueModel::Integer(n)))),
            g,
            a,
            fuel,
        ) == Some((ValueModel::Integer(0), g, Seq::<Seq<char>>::empty())),
{
    reveal_with_fuel(spec_eval, 3);
}

/// Division of integers is the exact integer quotient when the divisor
/// divides the dividend, and a decimal quotient otherwise: for any dividend
/// and any nonzero divisor (the one overflowing pair excepted), the result
/// is the integer `q` with `q * r == l` exactly when such an integer
/// exists, and a decimal value otherwise.
pub proof fn lemma_integer_division(l: i128, r: i128)
    requires
        r != 0,
        !(l == i128::MIN && r == -1),
    ensures
        (exists|k: int| l as int == #[trigger] (k * (r as int))) ==> (spec_int_op(Operation::Division, l, r)
            matches Some(v) && (v matches ValueModel::Integer(q) && q * r == l)),
        !(exists|k: int| l as int == #[trigger] (k * (r as int))) ==> (spec_int_op(Operation::Division, l, r)
            matches Some(v) && v is Decimal),
{
    let x = l as int;
    let d = r as int;
    if exists|k: int| x == #[trigger] (k * d) {
        let k = choose|k: int| x == #[trigger] (k * d);
        lemma_division_quotient_fits(x, d, k);
        if x == 0 {
            assert(0 * d == 0) by (nonlinear_arith);
            assert(x == 0 * d);
            lemma_fundamental_div_mod_converse(0, if d > 0 { d } else { -d }, 0, 0);
        } else if x > 0 && d > 0 {
            lemma_fundamental_div_mod_converse(x, d, k, 0);
        } else if x > 0 && d < 0 {
            assert(x == (-k) * (-d)) by (nonlinear_arith)
                requires
                    x == k * d,
            ;
            lemma_fundamental_div_mod_converse(x, -d, -k, 0);
        } else if x < 0 && d > 0 {
            assert(-x == (-k) * d) by (nonlinear_arith)
                requires
                    x == k * d,
            ;
            lemma_fundamental_div_mod_converse(-x, d, -k, 0);
        } else {
            assert(-x == k * (-d)) by (nonlinear_arith)
                requires
                    x == k * d,
            ;
            lemma_fundamental_div_mod_converse(-x, -d, k, 0);
        }
        assert(spec_int_op(Operation::Division, l, r) matches Some(v) && (v matches
            ValueModel::Integer(q) && q * r == l));
    } else {
        let dd = if d > 0 { d } else { -d };
        let xx = if x >= 0 { x } else { -x };
        lemma_mod_pos_bound(xx, dd);
        if xx % dd == 0 {
            lemma_fundamental_div_mod(xx, dd);
            let q = xx / dd;
            assert(xx == dd * q);
            if x >= 0 && d > 0 {
                assert(x == q * d) by (nonlinear_arith)
                    requires
                        xx == dd * q,
                        xx == x,
                        dd == d,
                ;
            } else if x >= 0 && d < 0 {
                assert(x == (-q) * d) by (nonlinear_arith)
                    requires
                        xx == dd * q,
                        xx == x,
                        dd == -d,
                ;
            } else if d > 0 {
                assert(x == (-q) * d) by (nonlinear_arith)
                    requires
                        xx == dd * q,
                        xx == -x,
                        dd == d,
                ;
            } else {
                assert(x == q * d) by (nonlinear_arith)
                    requires
                        xx == dd * q,
                        xx == -x,
                        dd == -d,
                ;
            }
            assert(false);
        }
        assert(spec_int_op(Operation::Division, l, r) matches Some(v) && v is Decimal);
    }
}

/// The exact quotient of a 128-bit division fits 128 bits, the one
/// overflowing pair excepted.
proof fn lemma_division_quotient_fits(x: int, d: int, k: int)
    requires
        x == k * d,
        d != 0,
        i128::MIN <= x <= i128::MAX,
        !(x == i128::MIN && d == -1),
    ensures
        i128::MIN <= k <= i128::MAX,
{
    if d == 1 {
        assert(k * 1 == k) by (nonlinear_arith);
    } else if d == -1 {
        assert(k * -1 == -k) by (nonlinear_arith);
    } else {
        assert(d >= 2 || d <= -2);
        assert(i128::MIN <= k <= i128::MAX) by (nonlinear_arith)
            requires
                x == k * d,
                d >= 2 || d <= -2,
                i128::MIN <= x <= i128::MAX,
        ;
    }
}

/// A value leaf of the syntax tree.
pub open spec fn val_leaf(v: ValueModel) -> AstModel {
    AstModel::Value(v)
}

/// A lambda value over the given parameter characters and body.
pub open spec fn lam(params: Seq<char>, body: AstModel) -> ValueModel {
    ValueModel::Lambda { args_def: params, content: Box::new(body) }
}

/// The lambda an under-applied call curries into: the remaining parameters
/// over a deferred call that captures the already-supplied values.
pub open spec fn partial_app(
    taken_params: Seq<char>,
    rest_params: Seq<char>,
    body: AstModel,
    taken_vals: Seq<ValueModel>,
) -> ValueModel {
    ValueModel::Lambda {
        args_def: rest_params,
        content: Box::new(
            AstModel::LambdaCall {
                lambda: Box::new(lam(taken_params, body)),
                args: taken_vals.map_values(|v: ValueModel| AstModel::Value(v)),
            },
        ),
    }
}

/// The value leaves of a sequence of values.
pub open spec fn val_leaves(vs: Seq<ValueModel>) -> Seq<AstModel> {
    vs.map_values(|v: ValueModel| AstModel::Value(v))
}

/// Evaluating value leaves returns the values themselves: no globals move,
/// nothing is printed.
pub proof fn lemma_eval_list_values(
    vals: Seq<ValueModel>,
    k: int,
    g: Map<Seq<char>, ValueModel>,
    a: Map<char, ValueModel>,
    fuel: nat,
)
    requires
        fuel >= 2,
        0 <= k <= vals.len(),
        forall|i: int| 0 <= i < vals.len() ==> !((#[trigger] vals[i]) is Variable),
    ensures
        spec_eval_list(val_leaves(vals), k, g, a, fuel) == Some(
            (vals.skip(k), g, Seq::<Seq<char>>::empty()),
        ),
    decreases vals.len() - k,
{
    reveal_with_fuel(spec_eval, 2);
    if k < vals.len() {
        assert(val_leaves(vals)[k] == AstModel::Value(vals[k]));
        assert(spec_eval(val_leaves(vals)[k], g, a, (fuel - 1) as nat) == Some(
            (vals[k], g, Seq::<Seq<char>>::empty()),
        ));
        lemma_eval_list_values(vals, k + 1, g, a, fuel);
        assert(seq![vals[k]] + vals.skip(k + 1) =~= vals.skip(k));
        assert(Seq::<Seq<char>>::empty() + Seq::<Seq<char>>::empty() =~= Seq::<
            Seq<char>,
        >::empty());
    } else {
        assert(vals.skip(k) =~= Seq::<ValueModel>::empty());
    }
}

/// Binding from position `k` is binding the sequences with their first `k`
/// pairs dropped.
proof fn lemma_bind_reindex(
    p: Seq<char>,
    v: Seq<ValueModel>,
    a: Map<char, ValueModel>,
    k: int,
)
    requires
        0 <= k <= v.len(),
        k <= p.len(),
    ensures
        spec_bind(p, v, a, k) == spec_bind(p.skip(k), v.skip(k), a, 0),
    decreases v.len() - k,
{
    if k < v.len() && k < p.len() {
        lemma_bind_reindex(p, v, a.insert(p[k], v[k]), k + 1);
        assert(p.skip(k).skip(1) =~= p.skip(k + 1));
        assert(v.skip(k).skip(1) =~= v.skip(k + 1));
        lemma_bind_reindex(p.skip(k), v.skip(k), a.insert(p[k], v[k]), 1);
    } else {
        assert(v.skip(k).len() == 0 || p.skip(k).len() == 0);
    }
}

/// Binding pairs onto a frame with a fresh key inserted is inserting that
/// key afterwards, when no pair rebinds it.
proof fn lemma_bind_insert_commute(
    p: Seq<char>,
    v: Seq<ValueModel>,
    a: Map<char, ValueModel>,
    c: char,
    w: ValueModel,
)
    requires
        p.len() == v.len(),
        forall|m: int| 0 <= m < p.len() ==> p[m] != c,
    ensures
        spec_bind(p, v, a.insert(c, w), 0) == spec_bind(p, v, a, 0).insert(c, w),
    decreases p.len(),
{
    if p.len() > 0 {
        assert(a.insert(c, w).insert(p[0], v[0]) =~= a.insert(p[0], v[0]).insert(c, w));
        lemma_bind_reindex(p, v, a.insert(c, w).insert(p[0], v[0]), 1);
        lemma_bind_reindex(p, v, a.insert(p[0], v[0]), 1);
        lemma_bind_insert_commute(p.skip(1), v.skip(1), a.insert(p[0], v[0]), c, w);
    }
}

/// Binding a nonempty sequence of pairs is binding all but the last pair,
/// then inserting the last.
proof fn lemma_bind_last(p: Seq<char>, v: Seq<ValueModel>, a: Map<char, ValueModel>)
    requires
        p.len() == v.len(),
        p.len() >= 1,
    ensures
        spec_bind(p, v, a, 0) == spec_bind(
            p.take(p.len() - 1),
            v.take(v.len() - 1),
            a,
            0,
        ).insert(p[p.len() - 1], v[v.len() - 1]),
    decreases p.len(),
{
    reveal_with_fuel(spec_bind, 3);
    let n = p.len() as int;
    if n == 1 {
        assert(p.take(0) =~= Seq::<char>::empty());
        assert(v.take(0) =~= Seq::<ValueModel>::empty());
    } else {
        let ins = a.insert(p[0], v[0]);
        lemma_bind_reindex(p, v, ins, 1);
        lemma_bind_last(p.skip(1), v.skip(1), ins);
        assert(p.skip(1).take(n - 2) =~= p.take(n - 1).skip(1));
        assert(v.skip(1).take(n - 2) =~= v.take(n - 1).skip(1));
        assert(p.skip(1)[n - 2] == p[n - 1]);
        assert(v.skip(1)[n - 2] == v[n - 1]);
        assert(p.take(n - 1)[0] == p[0]);
        assert(v.take(n - 1)[0] == v[0]);
        lemma_bind_reindex(p.take(n - 1), v.take(n - 1), ins, 1);
        assert(spec_bind(p, v, a, 0) == spec_bind(p, v, ins, 1));
        assert(spec_bind(p, v, ins, 1) == spec_bind(p.skip(1), v.skip(1), ins, 0));
        assert(spec_bind(p.skip(1), v.skip(1), ins, 0) == spec_bind(
            p.take(n - 1).skip(1),
            v.take(n - 1).skip(1),
            ins,
            0,
        ).insert(p[n - 1], v[n - 1]));
        assert(spec_bind(p.take(n - 1), v.take(n - 1), a, 0) == spec_bind(
            p.take(n - 1),
            v.take(n - 1),
            ins,
            1,
        ));
        assert(spec_bind(p.take(n - 1), v.take(n - 1), ins, 1) == spec_bind(
            p.take(n - 1).skip(1),
            v.take(n - 1).skip(1),
            ins,
            0,
        ));
    }
}

/// Binding the first pairs on top of a frame already holding the remaining
/// pairs binds them all, when the parameter characters are distinct.
proof fn lemma_bind_split(
    p: Seq<char>,
    v: Seq<ValueModel>,
    a: Map<char, ValueModel>,
    n1: int,
)
    requires
        p.len() == v.len(),
        0 <= n1 <= p.len(),
        forall|i: int, j: int| 0 <= i < j < p.len() ==> (#[trigger] p[i]) != (#[trigger] p[j]),
    ensures
        spec_bind(
            p.take(n1),
            v.take(n1),
            spec_bind(p.skip(n1), v.skip(n1), a, 0),
            0,
        ) == spec_bind(p, v, a, 0),
    decreases n1,
{
    if n1 == 0 {
        assert(p.take(0) =~= Seq::<char>::empty());
        assert(p.skip(0) =~= p);
        assert(v.skip(0) =~= v);
    } else {
        let m_prev = spec_bind(p.skip(n1 - 1), v.skip(n1 - 1), a, 0);
        let m_cur = spec_bind(p.skip(n1), v.skip(n1), a, 0);
        // dropping one more pair from the skipped part inserts it on top
        assert(p.skip(n1 - 1).skip(1) =~= p.skip(n1));
        assert(v.skip(n1 - 1).skip(1) =~= v.skip(n1));
        assert(p.skip(n1 - 1)[0] == p[n1 - 1]);
        assert(v.skip(n1 - 1)[0] == v[n1 - 1]);
        lemma_bind_reindex(p.skip(n1 - 1), v.skip(n1 - 1), a.insert(p[n1 - 1], v[n1 - 1]), 1);
        assert(forall|m: int| 0 <= m < p.skip(n1).len() ==> (#[trigger] p.skip(n1)[m]) != p[n1
            - 1]);
        lemma_bind_insert_commute(p.skip(n1), v.skip(n1), a, p[n1 - 1], v[n1 - 1]);
        assert(m_prev == m_cur.insert(p[n1 - 1], v[n1 - 1]));
        // peeling the last taken pair
        lemma_bind_last(p.take(n1), v.take(n1), m_cur);
        assert(p.take(n1).take(n1 - 1) =~= p.take(n1 - 1));
        assert(v.take(n1).take(n1 - 1) =~= v.take(n1 - 1));
        assert(p.take(n1)[n1 - 1] == p[n1 - 1]);
        assert(v.take(n1)[n1 - 1] == v[n1 - 1]);
        assert(forall|m: int| 0 <= m < p.take(n1 - 1).len() ==> (#[trigger] p.take(n1 - 1)[m])
            != p[n1 - 1]);
        lemma_bind_insert_commute(p.take(n1 - 1), v.take(n1 - 1), m_cur, p[n1 - 1], v[n1 - 1]);
        lemma_bind_split(p, v, a, n1 - 1);
    }
}

/// Currying is invisible, wherever the split falls: a lambda with distinct
/// parameter characters, under-applied to value arguments, yields exactly
/// the curried lambda; and applying that lambda to the remaining value
/// arguments gives the very result of the saturated application, whatever
/// the body does.
#[verifier::rlimit(100)]
#[verifier::spinoff_prover]
pub proof fn lemma_curried_application(
    params: Seq<char>,
    body: AstModel,
    vals: Seq<ValueModel>,
    n1: int,
    g: Map<Seq<char>, ValueModel>,
    a: Map<char, ValueModel>,
    fuel: nat,
)
    requires
        fuel >= 2,
        params.len() == vals.len(),
        0 <= n1 < params.len(),
        forall|i: int, j: int|
            0 <= i < j < params.len() ==> (#[trigger] params[i]) != (#[trigger] params[j]),
        forall|i: int| 0 <= i < vals.len() ==> !((#[trigger] vals[i]) is Variable),
    ensures
        spec_eval_lambda(lam(params, body), val_leaves(vals.take(n1)), g, a, fuel) == Some(
            (
                partial_app(params.take(n1), params.skip(n1), body, vals.take(n1)),
                g,
                Seq::<Seq<char>>::empty(),
            ),
        ),
        spec_eval_lambda(
            partial_app(params.take(n1), params.skip(n1), body, vals.take(n1)),
            val_leaves(vals.skip(n1)),
            g,
            a,
            (fuel + 1) as nat,
        ) == spec_eval_lambda(lam(params, body), val_leaves(vals), g, a, fuel),
{
    reveal_with_fuel(spec_eval, 2);
    reveal_with_fuel(spec_eval_lambda, 3);
    let n = params.len() as int;
    let taken = vals.take(n1);
    let rest = vals.skip(n1);
    assert(forall|i: int| 0 <= i < taken.len() ==> !((#[trigger] taken[i]) is Variable));
    assert(forall|i: int| 0 <= i < rest.len() ==> !((#[trigger] rest[i]) is Variable));
    assert(val_leaves(taken).len() == n1);
    assert(val_leaves(rest).len() == n - n1);
    assert(val_leaves(vals).len() == n);

    // clause one: under-application evaluates the given arguments and
    // curries the remaining parameters over the deferred call
    lemma_eval_list_values(taken, 0, g, a, fuel);
    assert(taken.skip(0) =~= taken);
    assert(spec_eval_lambda(lam(params, body), val_leaves(taken), g, a, fuel) matches Some(p)
        && p.0 =~= partial_app(params.take(n1), params.skip(n1), body, taken) && p.1 == g && p.2
        =~= Seq::<Seq<char>>::empty());

    // clause two: the curried lambda, saturated with the remaining
    // arguments, rebuilds the full frame and evaluates the body with the
    // same fuel as the saturated application
    lemma_eval_list_values(rest, 0, g, a, (fuel + 1) as nat);
    assert(rest.skip(0) =~= rest);
    let frame1 = spec_bind(params.skip(n1), rest, a, 0);
    lemma_eval_list_values(taken, 0, g, frame1, fuel);
    lemma_eval_list_values(vals, 0, g, a, fuel);
    assert(vals.skip(0) =~= vals);
    lemma_bind_split(params, vals, a, n1);
    let frame = spec_bind(params, vals, a, 0);
    assert(spec_bind(params.take(n1), taken, frame1, 0) == frame);
    match spec_eval(body, g, frame, (fuel - 1) as nat) {
        Some(q) => {
            assert(Seq::<Seq<char>>::empty() + q.2 =~= q.2);
            assert(Seq::<Seq<char>>::empty() + (Seq::<Seq<char>>::empty() + q.2) =~= q.2);
        },
        None => {},
    }
}

/// Currying is invisible for a three-parameter lambda with distinct
/// parameter characters applied to value arguments: under-application
/// yields exactly the curried lambda, and applying that lambda to the
/// remaining arguments — whether the split falls after the first or the
/// second argument — gives the very result of the saturated application.
#[verifier::rlimit(100)]
#[verifier::spinoff_prover]
pub proof fn lemma_ternary_currying(
    c1: char,
    c2: char,
    c3: char,
    body: AstModel,
    v1: ValueModel,
    v2: ValueModel,
    v3: ValueModel,
    g: Map<Seq<char>, ValueModel>,
    a: Map<char, ValueModel>,
    fuel: nat,
)
    requires
        fuel >= 2,
        c1 != c2,
        c1 != c3,
        c2 != c3,
        !(v1 is Variable),
        !(v2 is Variable),
        !(v3 is Variable),
    ensures
        spec_eval_lambda(lam(seq![c1, c2, c3], body), seq![val_leaf(v1)], g, a, fuel) == Some(
            (
                partial_app(seq![c1], seq![c2, c3], body, seq![v1]),
                g,
                Seq::<Seq<char>>::empty(),
            ),
        ),
        spec_eval_lambda(
            partial_app(seq![c1], seq![c2, c3], body, seq![v1]),
            seq![val_leaf(v2), val_leaf(v3)],
            g,
            a,
            (fuel + 1) as nat,
        ) == spec_eval_lambda(
            lam(seq![c1, c2, c3], body),
            seq![val_leaf(v1), val_leaf(v2), val_leaf(v3)],
            g,
            a,
            fuel,
        ),
        spec_eval_lambda(
            lam(seq![c1, c2, c3], body),
            seq![val_leaf(v1), val_leaf(v2)],
            g,
            a,
            fuel,
        ) == Some(
            (
                partial_app(seq![c1, c2], seq![c3], body, seq![v1, v2]),
                g,
                Seq::<Seq<char>>::empty(),
            ),
        ),
        spec_eval_lambda(
            partial_app(seq![c1, c2], seq![c3], body, seq![v1, v2]),
            seq![val_leaf(v3)],
            g,
            a,
            (fuel + 1) as nat,
        ) == spec_eval_lambda(
            lam(seq![c1, c2, c3], body),
            seq![val_leaf(v1), val_leaf(v2), val_leaf(v3)],
            g,
            a,
            fuel,
        ),
{
    reveal_with_fuel(spec_eval, 3);
    reveal_with_fuel(spec_eval_lambda, 3);
    reveal_with_fuel(spec_eval_list, 5);
    reveal_with_fuel(spec_bind, 5);
    let params = seq![c1, c2, c3];
    let all = seq![val_leaf(v1), val_leaf(v2), val_leaf(v3)];
    let frame = a.insert(c1, v1).insert(c2, v2).insert(c3, v3);

    // the saturated application binds all three parameters in order
    assert(spec_bind(params, seq![v1, v2, v3], a, 0) =~= frame);
    assert(spec_eval_list(all, 0, g, a, fuel) == Some(
        (seq![v1, v2, v3], g, Seq::<Seq<char>>::empty()),
    ));

    // under-application by one argument yields the first curried lambda
    assert(params.skip(1) =~= seq![c2, c3]);
    assert(params.take(1) =~= seq![c1]);
    assert(seq![v1].map_values(|v: ValueModel| AstModel::Value(v)) =~= seq![val_leaf(v1)]);
    assert(spec_eval_list(seq![val_leaf(v1)], 0, g, a, fuel) == Some(
        (seq![v1], g, Seq::<Seq<char>>::empty()),
    ));
    assert(spec_eval_lambda(lam(params, body), seq![val_leaf(v1)], g, a, fuel) matches Some(p)
        && p.0 =~= partial_app(seq![c1], seq![c2, c3], body, seq![v1]) && p.1 == g && p.2
        =~= Seq::<Seq<char>>::empty());

    // under-application by two arguments yields the second curried lambda
    assert(params.skip(2) =~= seq![c3]);
    assert(params.take(2) =~= seq![c1, c2]);
    assert(seq![v1, v2].map_values(|v: ValueModel| AstModel::Value(v)) =~= seq![
        val_leaf(v1),
        val_leaf(v2),
    ]);
    assert(spec_eval_list(seq![val_leaf(v1), val_leaf(v2)], 0, g, a, fuel) == Some(
        (seq![v1, v2], g, Seq::<Seq<char>>::empty()),
    ));
    assert(spec_eval_lambda(lam(params, body), seq![val_leaf(v1), val_leaf(v2)], g, a, fuel)
        matches Some(p) && p.0 =~= partial_app(seq![c1, c2], seq![c3], body, seq![v1, v2]) && p.1
        == g && p.2 =~= Seq::<Seq<char>>::empty());

    // applying the first curried lambda to the two remaining arguments
    // rebinds the same frame, the parameters being distinct
    assert(spec_eval_list(seq![val_leaf(v2), val_leaf(v3)], 0, g, a, (fuel + 1) as nat) == Some(
        (seq![v2, v3], g, Seq::<Seq<char>>::empty()),
    ));
    let frame1 = spec_bind(seq![c2, c3], seq![v2, v3], a, 0);
    assert(frame1 =~= a.insert(c2, v2).insert(c3, v3));
    assert(spec_eval_list(seq![val_leaf(v1)], 0, g, frame1, fuel) == Some(
        (seq![v1], g, Seq::<Seq<char>>::empty()),
    ));
    assert(spec_bind(seq![c1], seq![v1], frame1, 0) =~= frame);

    // applying the second curried lambda to the last argument likewise
    assert(spec_eval_list(seq![val_leaf(v3)], 0, g, a, (fuel + 1) as nat) == Some(
        (seq![v3], g, Seq::<Seq<char>>::empty()),
    ));
    let frame2 = spec_bind(seq![c3], seq![v3], a, 0);
    assert(frame2 =~= a.insert(c3, v3));
    assert(spec_eval_list(seq![val_leaf(v1), val_leaf(v2)], 0, g, frame2, fuel) == Some(
        (seq![v1, v2], g, Seq::<Seq<char>>::empty()),
    ));
    assert(spec_bind(seq![c1, c2], seq![v1, v2], frame2, 0) =~= frame);

    // in every path the body is evaluated under the same globals and the
    // same frame with the same fuel; the printed lines are all empty
    match spec_eval(body, g, frame, (fuel - 1) as nat) {
        Some(q) => {
            assert(Seq::<Seq<char>>::empty() + q.2 =~= q.2);
            assert(Seq::<Seq<char>>::empty() + (Seq::<Seq<char>>::empty() + q.2) =~= q.2);
        },
        None => {},
    }
}

/// The integer part of an evaluated operand: an integer is returned as it
/// is, a decimal is floored to a 128-bit integer, and every other value is
/// an evaluation error.
pub proof fn lemma_integer_part_cases(
    x: AstModel,
    g: Map<Seq<char>, ValueModel>,
    a: Map<char, ValueModel>,
    fuel: nat,
)
    requires
        fuel >= 1,
    ensures
        spec_eval(AstModel::IntegerPart(Box::new(x)), g, a, fuel) == (match spec_eval(
            x,
            g,
            a,
            (fuel - 1) as nat,
        ) {
            None => None,
            Some(p) => match p.0 {
                ValueModel::Integer(n) => Some((ValueModel::Integer(n), p.1, p.2)),
                ValueModel::Decimal(b) => Some((ValueModel::Integer(dec_floor_int(b)), p.1, p.2)),
                _ => None,
            },
        }),
{
}

/// The rational part of an evaluated operand: an integer gives the integer
/// zero, a decimal gives the value minus its floor, and every other value is
/// an evaluation error.
pub proof fn lemma_rational_part_cases(
    x: AstModel,
    g: Map<Seq<char>, ValueModel>,
    a: Map<char, ValueModel>,
    fuel: nat,
)
    requires
        fuel >= 1,
    ensures
        spec_eval(AstModel::RationalPart(Box::new(x)), g, a, fuel) == (match spec_eval(
            x,
            g,
            a,
            (fuel - 1) as nat,
        ) {
            None => None,
            Some(p) => match p.0 {
                ValueModel::Integer(_) => Some((ValueModel::Integer(0), p.1, p.2)),
                ValueModel::Decimal(b) => Some(
                    (ValueModel::Decimal(dec_sub_bits(b, dec_floor_bits(b))), p.1, p.2),
                ),
                _ => None,
            },
        }),
{
}

// ---------------------------------------------------------------------------
// Evaluation never returns a variable
// ---------------------------------------------------------------------------

/// Whether no global binding holds a variable value.
pub open spec fn globals_proper(g: Map<Seq<char>, ValueModel>) -> bool {
    forall|k: Seq<char>| #[trigger] g.contains_key(k) ==> !(g[k] is Variable)
}

/// Whether no argument-frame binding holds a variable value.
pub open spec fn frame_proper(a: Map<char, ValueModel>) -> bool {
    forall|c: char| #[trigger] a.contains_key(c) ==> !(a[c] is Variable)
}

/// The globals every program starts with hold no variable value.
pub proof fn lemma_initial_globals_proper()
    ensures
        globals_proper(initial_globals()),
{
}

/// An infix operation never yields a variable value.
pub proof fn lemma_operation_proper(op: Operation, l: ValueModel, r: ValueModel)
    ensures
        spec_operation(op, l, r) matches Some(v) ==> !(v is Variable),
{
}

/// Binding non-variable values into a proper frame keeps it proper.
pub proof fn lemma_bind_proper(
    params: Seq<char>,
    vals: Seq<ValueModel>,
    a: Map<char, ValueModel>,
    k: int,
)
    requires
        frame_proper(a),
        forall|i: int| 0 <= i < vals.len() ==> !((#[trigger] vals[i]) is Variable),
    ensures
        frame_proper(spec_bind(params, vals, a, k)),
    decreases vals.len() - k,
{
    if 0 <= k < vals.len() && k < params.len() {
        assert(frame_proper(a.insert(params[k], vals[k])));
        lemma_bind_proper(params, vals, a.insert(params[k], vals[k]), k + 1);
    }
}

/// Evaluation never returns a variable value, and keeps the globals free of
/// variable values, whenever it starts from such globals and such a frame.
pub proof fn lemma_eval_no_variable(
    node: AstModel,
    g: Map<Seq<char>, ValueModel>,
    a: Map<char, ValueModel>,
    fuel: nat,
)
    requires
        globals_proper(g),
        frame_proper(a),
    ensures
        spec_eval(node, g, a, fuel) matches Some(p) ==> !(p.0 is Variable) && globals_proper(p.1),
    decreases fuel, 2nat, 0nat,
{
    if fuel > 0 {
        match node {
            AstModel::Nothing => {},
            AstModel::Print(x) => {
                lemma_eval_no_variable(*x, g, a, (fuel - 1) as nat);
            },
            AstModel::RationalPart(x) => {
                lemma_eval_no_variable(*x, g, a, (fuel - 1) as nat);
            },
            AstModel::IntegerPart(x) => {
                lemma_eval_no_variable(*x, g, a, (fuel - 1) as nat);
            },
            AstModel::Switch { compared, cases } => {
                lemma_eval_no_variable(*compared, g, a, (fuel - 1) as nat);
                match spec_eval(*compared, g, a, (fuel - 1) as nat) {
                    Some(p) => {
                        lemma_eval_switch_no_variable(cases, 0, p.0, p.1, a, fuel);
                    },
                    None => {},
                }
            },
            AstModel::Definition { name, value } => {
                lemma_eval_no_variable(*value, g, a, (fuel - 1) as nat);
                match spec_eval(*value, g, a, (fuel - 1) as nat) {
                    Some(p) => {
                        assert(globals_proper(p.1.insert(name, p.0)));
                    },
                    None => {},
                }
            },
            AstModel::Value(v) => {
                match v {
                    ValueModel::Variable(name) => {
                        match spec_lookup(g, a, name) {
                            Some(val) => {
                                assert(!(val is Variable));
                            },
                            None => {},
                        }
                    },
                    _ => {},
                }
            },
            AstModel::LambdaCall { lambda, args } => {
                lemma_eval_lambda_no_variable(*lambda, args, g, a, fuel);
            },
            AstModel::Call { name, args } => {
                match spec_lookup(g, a, name) {
                    Some(v) => {
                        if v is Lambda {
                            lemma_eval_lambda_no_variable(v, args, g, a, fuel);
                        }
                    },
                    None => {},
                }
            },
            AstModel::Operation { left, operation, right } => {
                lemma_eval_no_variable(*left, g, a, (fuel - 1) as nat);
                match spec_eval(*left, g, a, (fuel - 1) as nat) {
                    Some(p) => {
                        lemma_eval_no_variable(*right, p.1, a, (fuel - 1) as nat);
                        match spec_eval(*right, p.1, a, (fuel - 1) as nat) {
                            Some(q) => {
                                lemma_operation_proper(operation, p.0, q.0);
                            },
                            None => {},
                        }
                    },
                    None => {},
                }
            },
        }
    }
}

/// Applying a lambda never returns a variable value.
pub proof fn lemma_eval_lambda_no_variable(
    lam: ValueModel,
    args: Seq<AstModel>,
    g: Map<Seq<char>, ValueModel>,
    a: Map<char, ValueModel>,
    fuel: nat,
)
    requires
        globals_proper(g),
        frame_proper(a),
    ensures
        spec_eval_lambda(lam, args, g, a, fuel) matches Some(p) ==> !(p.0 is Variable)
            && globals_proper(p.1),
    decreases fuel, 1nat, 0nat,
{
    if fuel > 0 {
        match lam {
            ValueModel::Lambda { args_def, content } => {
                if args.len() <= args_def.len() {
                    lemma_eval_list_no_variable(args, 0, g, a, fuel);
                    match spec_eval_list(args, 0, g, a, fuel) {
                        Some(p) => {
                            if args.len() == args_def.len() {
                                lemma_bind_proper(args_def, p.0, a, 0);
                                lemma_eval_no_variable(
                                    *content,
                                    p.1,
                                    spec_bind(args_def, p.0, a, 0),
                                    (fuel - 1) as nat,
                                );
                            }
                        },
                        None => {},
                    }
                }
            },
            _ => {},
        }
    }
}

/// Evaluating an argument list yields no variable value.
pub proof fn lemma_eval_list_no_variable(
    args: Seq<AstModel>,
    k: int,
    g: Map<Seq<char>, ValueModel>,
    a: Map<char, ValueModel>,
    fuel: nat,
)
    requires
        globals_proper(g),
        frame_proper(a),
    ensures
        spec_eval_list(args, k, g, a, fuel) matches Some(p) ==> (forall|i: int|
            0 <= i < p.0.len() ==> !((#[trigger] p.0[i]) is Variable)) && globals_proper(p.1),
    decreases fuel, 0nat, args.len() - k,
{
    if 0 <= k < args.len() && fuel > 0 {
        lemma_eval_no_variable(args[k], g, a, (fuel - 1) as nat);
        match spec_eval(args[k], g, a, (fuel - 1) as nat) {
            Some(p) => {
                lemma_eval_list_no_variable(args, k + 1, p.1, a, fuel);
            },
            None => {},
        }
    }
}

/// Walking switch cases never returns a variable value.
pub proof fn lemma_eval_switch_no_variable(
    cases: Seq<(AstModel, AstModel)>,
    k: int,
    compared: ValueModel,
    g: Map<Seq<char>, ValueModel>,
    a: Map<char, ValueModel>,
    fuel: nat,
)
    requires
        globals_proper(g),
        frame_proper(a),
    ensures
        spec_eval_switch(cases, k, compared, g, a, fuel) matches Some(p) ==> !(p.0 is Variable)
            && globals_proper(p.1),
    decreases fuel, 0nat, cases.len() - k,
{
    if 0 <= k < cases.len() && fuel > 0 {
        lemma_eval_no_variable(cases[k].0, g, a, (fuel - 1) as nat);
        match spec_eval(cases[k].0, g, a, (fuel - 1) as nat) {
            Some(p) => {
                if spec_val_eq(compared, p.0) {
                    lemma_eval_no_variable(cases[k].1, p.1, a, (fuel - 1) as nat);
                } else {
                    lemma_eval_switch_no_variable(cases, k + 1, compared, p.1, a, fuel);
                }
            },
            None => {},
        }
    }
}

// ---------------------------------------------------------------------------
// The switch's laws
// ---------------------------------------------------------------------------

/// Whether every case pattern from `k` on evaluates, the globals threading
/// through pattern after pattern, and none of their values equals the
/// compared value.
pub open spec fn spec_patterns_no_match(
    cases: Seq<(AstModel, AstModel)>,
    k: int,
    compared: ValueModel,
    g: Map<Seq<char>, ValueModel>,
    a: Map<char, ValueModel>,
    fuel: nat,
) -> bool
    decreases cases.len() - k,
{
    if !(0 <= k < cases.len()) {
        true
    } else {
        match spec_eval(cases[k].0, g, a, (fuel - 1) as nat) {
            None => false,
            Some(p) => !spec_val_eq(compared, p.0) && spec_patterns_no_match(
                cases,
                k + 1,
                compared,
                p.1,
                a,
                fuel,
            ),
        }
    }
}

/// The first case whose pattern's value equals the compared value: its
/// index, the globals after evaluating the patterns up to and including it,
/// and the lines those evaluations printed; `None` when an earlier pattern
/// fails or none matches.
pub open spec fn spec_first_match(
    cases: Seq<(AstModel, AstModel)>,
    k: int,
    compared: ValueModel,
    g: Map<Seq<char>, ValueModel>,
    a: Map<char, ValueModel>,
    fuel: nat,
) -> Option<(int, Map<Seq<char>, ValueModel>, Seq<Seq<char>>)>
    decreases cases.len() - k,
{
    if !(0 <= k < cases.len()) {
        None
    } else {
        match spec_eval(cases[k].0, g, a, (fuel - 1) as nat) {
            None => None,
            Some(p) => if spec_val_eq(compared, p.0) {
                Some((k, p.1, p.2))
            } else {
                match spec_first_match(cases, k + 1, compared, p.1, a, fuel) {
                    None => None,
                    Some(t) => Some((t.0, t.1, p.2 + t.2)),
                }
            },
        }
    }
}

/// A switch none of whose case patterns matches yields the unit value: the
/// patterns are evaluated in order, their printed lines kept, and no result
/// expression runs.
pub proof fn lemma_switch_no_match(
    cases: Seq<(AstModel, AstModel)>,
    k: int,
    compared: ValueModel,
    g: Map<Seq<char>, ValueModel>,
    a: Map<char, ValueModel>,
    fuel: nat,
)
    requires
        fuel >= 1,
        0 <= k <= cases.len(),
        spec_patterns_no_match(cases, k, compared, g, a, fuel),
    ensures
        spec_eval_switch(cases, k, compared, g, a, fuel) matches Some(t) && t.0
            == ValueModel::NoneVal,
    decreases cases.len() - k,
{
    if k < cases.len() {
        match spec_eval(cases[k].0, g, a, (fuel - 1) as nat) {
            Some(p) => {
                lemma_switch_no_match(cases, k + 1, compared, p.1, a, fuel);
            },
            None => {},
        }
    }
}

/// The first matching case selects the switch's result: the switch equals
/// the evaluation of exactly that case's result expression, after the lines
/// the pattern evaluations printed, and no later case is touched.
pub proof fn lemma_switch_selects_first_match(
    cases: Seq<(AstModel, AstModel)>,
    k: int,
    compared: ValueModel,
    g: Map<Seq<char>, ValueModel>,
    a: Map<char, ValueModel>,
    fuel: nat,
)
    requires
        fuel >= 1,
        0 <= k <= cases.len(),
        spec_first_match(cases, k, compared, g, a, fuel) is Some,
    ensures
        spec_eval_switch(cases, k, compared, g, a, fuel) == (match spec_first_match(
            cases,
            k,
            compared,
            g,
            a,
            fuel,
        ) {
            None => None,
            Some(t) => match spec_eval(cases[t.0].1, t.1, a, (fuel - 1) as nat) {
                None => None,
                Some(q) => Some((q.0, q.1, t.2 + q.2)),
            },
        }),
    decreases cases.len() - k,
{
    if k < cases.len() {
        match spec_eval(cases[k].0, g, a, (fuel - 1) as nat) {
            Some(p) => {
                if !spec_val_eq(compared, p.0) {
                    lemma_switch_selects_first_match(cases, k + 1, compared, p.1, a, fuel);
                    match spec_first_match(cases, k + 1, compared, p.1, a, fuel) {
                        Some(t) => {
                            match spec_eval(cases[t.0].1, t.1, a, (fuel - 1) as nat) {
                                Some(q) => {
                                    assert(p.2 + (t.2 + q.2) =~= (p.2 + t.2) + q.2);
                                },
                                None => {},
                            }
                        },
                        None => {},
                    }
                }
            },
            None => {},
        }
    }
}

/// The value of a case pattern that is a plain value leaf.
pub open spec fn pattern_value(c: AstModel) -> ValueModel {
    match c {
        AstModel::Value(v) => v,
        _ => ValueModel::NoneVal,
    }
}

/// Whether every case pattern from `k` on is a plain value leaf (not a
/// variable).
pub open spec fn value_patterns(cases: Seq<(AstModel, AstModel)>, k: int) -> bool {
    forall|j: int|
        k <= j < cases.len() ==> ((#[trigger] cases[j].0) matches AstModel::Value(v) && !(
        v is Variable))
}

/// A switch over plain value patterns yields the unit value when no case
/// pattern equals the compared value, and otherwise evaluates exactly the
/// result of the first case whose pattern equals it.
pub proof fn lemma_switch_first_match(
    cases: Seq<(AstModel, AstModel)>,
    k: int,
    compared: ValueModel,
    g: Map<Seq<char>, ValueModel>,
    a: Map<char, ValueModel>,
    fuel: nat,
)
    requires
        fuel >= 2,
        0 <= k <= cases.len(),
        value_patterns(cases, k),
    ensures
        (forall|j: int| k <= j < cases.len() ==> !spec_val_eq(compared, pattern_value(#[trigger] cases[j].0)))
            ==> spec_eval_switch(cases, k, compared, g, a, fuel) == Some(
            (ValueModel::NoneVal, g, Seq::<Seq<char>>::empty()),
        ),
        forall|j: int|
            k <= j < cases.len() && spec_val_eq(compared, pattern_value(#[trigger] cases[j].0)) && (
            forall|m: int| k <= m < j ==> !spec_val_eq(compared, pattern_value(#[trigger] cases[m].0)))
                ==> spec_eval_switch(cases, k, compared, g, a, fuel) == (match spec_eval(
                cases[j].1,
                g,
                a,
                (fuel - 1) as nat,
            ) {
                None => None,
                Some(q) => Some((q.0, q.1, q.2)),
            }),
    decreases cases.len() - k,
{
    reveal_with_fuel(spec_eval, 2);
    if k < cases.len() {
        let v = pattern_value(cases[k].0);
        assert(cases[k].0 == AstModel::Value(v));
        assert(spec_eval(cases[k].0, g, a, (fuel - 1) as nat) == Some(
            (v, g, Seq::<Seq<char>>::empty()),
        ));
        lemma_switch_first_match(cases, k + 1, compared, g, a, fuel);
        if spec_val_eq(compared, v) {
            match spec_eval(cases[k].1, g, a, (fuel - 1) as nat) {
                Some(q) => {
                    assert(Seq::<Seq<char>>::empty() + q.2 =~= q.2);
                },
                None => {},
            }
            assert forall|j: int|
                k <= j < cases.len() && spec_val_eq(compared, pattern_value(cases[j].0)) && (
                forall|m: int| k <= m < j ==> !spec_val_eq(compared, pattern_value(#[trigger] cases[m].0)))
                    implies spec_eval_switch(cases, k, compared, g, a, fuel) == (match spec_eval(
                    cases[j].1,
                    g,
                    a,
                    (fuel - 1) as nat,
                ) {
                    None => None,
                    Some(q) => Some((q.0, q.1, q.2)),
                }) by {
                assert(j == k);
            };
        } else {
            match spec_eval_switch(cases, k + 1, compared, g, a, fuel) {
                Some(t) => {
                    assert(Seq::<Seq<char>>::empty() + t.2 =~= t.2);
                },
                None => {},
            }
            assert forall|j: int|
                k <= j < cases.len() && spec_val_eq(compared, pattern_value(cases[j].0)) && (
                forall|m: int| k <= m < j ==> !spec_val_eq(compared, pattern_value(#[trigger] cases[m].0)))
                    implies spec_eval_switch(cases, k, compared, g, a, fuel) == (match spec_eval(
                    cases[j].1,
                    g,
                    a,
                    (fuel - 1) as nat,
                ) {
                    None => None,
                    Some(q) => Some((q.0, q.1, q.2)),
                }) by {
                assert(j != k);
                assert(forall|m: int|
                    k + 1 <= m < j ==> !spec_val_eq(compared, pattern_value(#[trigger] cases[m].0)));
            };
        }
    }
}

} // verus!
