use vstd::prelude::*;
use crate::ast::{AstModel, ASTNode, Operation, Value, ValueModel};
use crate::ast::{view_ast, view_ast_seq, view_case_seq, view_value};
use crate::ast::{lemma_view_ast_seq_len, lemma_view_case_seq_len};
use crate::token::{toks_view, Token, TokenModel};
use crate::dec::dec_lit_bits;
use crate::dec::dec_from_parts;
use crate::text::{chars_eq, chars_to_string, int_to_chars, str_to_chars};

verus! {

// ---------------------------------------------------------------------------
// Token classes
// ---------------------------------------------------------------------------

/// Whether a token closes an enclosing form or starts a switch: where
/// juxtaposed-argument collection and switch-case collection stop.
pub open spec fn spec_is_delim_tok(t: TokenModel) -> bool {
    match t {
        TokenModel::CloseParen => true,
        TokenModel::CloseBracket => true,
        TokenModel::CloseBrace => true,
        TokenModel::Dollar => true,
        _ => false,
    }
}

/// Whether a token is an infix operator.
pub open spec fn spec_is_op_tok(t: TokenModel) -> bool {
    match t {
        TokenModel::Plus => true,
        TokenModel::Minus => true,
        TokenModel::Asterisk => true,
        TokenModel::Slash => true,
        TokenModel::Circumflex => true,
        TokenModel::Equal => true,
        TokenModel::NotEqual => true,
        TokenModel::LessEqual => true,
        TokenModel::Less => true,
        TokenModel::GreaterEqual => true,
        TokenModel::Greater => true,
        _ => false,
    }
}

/// The precedence pair of an operator token: whether its right operand may
/// itself continue with `+`/`-` class operators, and whether the operator
/// chains left-associatively.
pub open spec fn spec_op_flags(t: TokenModel) -> (bool, bool) {
    match t {
        TokenModel::Plus => (true, true),
        TokenModel::Minus => (true, true),
        TokenModel::Asterisk => (false, true),
        TokenModel::Slash => (false, true),
        TokenModel::Circumflex => (false, true),
        _ => (false, false),
    }
}

/// The operation denoted by an operator token.
pub open spec fn spec_op_of(t: TokenModel) -> Operation {
    match t {
        TokenModel::Plus => Operation::Addition,
        TokenModel::Minus => Operation::Substraction,
        TokenModel::Asterisk => Operation::Multiplication,
        TokenModel::Slash => Operation::Division,
        TokenModel::Circumflex => Operation::Exponent,
        TokenModel::Equal => Operation::Equal,
        TokenModel::NotEqual => Operation::NotEqual,
        TokenModel::LessEqual => Operation::LessEqual,
        TokenModel::Less => Operation::Less,
        TokenModel::GreaterEqual => Operation::GreaterEqual,
        _ => Operation::Greater,
    }
}

// ---------------------------------------------------------------------------
// The parsing functions, as mathematics
//
// Each function takes the token sequence, the cursor position, and a fuel
// that bounds the recursion; it yields the parsed node and the position
// after it, or `None` on a parse error (fuel exhaustion included). The
// functions mirror the parser's dispatch exactly; the executable parser is
// proved equal to them.
// ---------------------------------------------------------------------------

/// Parses one expression. `from_call` marks an expression parsed as a
/// juxtaposed argument, which forbids collecting further arguments and
/// switches at this level; `allow_ops` lets a trailing infix operator
/// continue the expression.
pub open spec fn spec_parse_expression(
    t: Seq<TokenModel>,
    i: int,
    from_call: bool,
    allow_ops: bool,
    fuel: nat,
) -> Option<(AstModel, int)>
    decreases fuel,
{
    if fuel == 0 {
        None
    } else if !(0 <= i < t.len()) {
        Some((AstModel::Nothing, i))
    } else {
        match t[i] {
            TokenModel::Exclam => match spec_parse_expression(t, i + 1, false, true, (fuel - 1) as nat) {
                Some(p) => Some((AstModel::Print(Box::new(p.0)), p.1)),
                None => None,
            },
            TokenModel::OpenBracket => spec_parse_integer_part(t, i, allow_ops, (fuel - 1) as nat),
            TokenModel::OpenBrace => spec_parse_rational_part(t, i, allow_ops, (fuel - 1) as nat),
            TokenModel::OpenParen => spec_parse_pair(t, i, from_call, allow_ops, (fuel - 1) as nat),
            TokenModel::Lambda => spec_parse_lambda(t, i, (fuel - 1) as nat),
            TokenModel::Integer(_) => spec_parse_integer(t, i, from_call, allow_ops, (fuel - 1) as nat),
            TokenModel::Ident(_) => spec_parse_ident(t, i, from_call, allow_ops, (fuel - 1) as nat),
            TokenModel::Word(_) => spec_parse_word(t, i, from_call, allow_ops, (fuel - 1) as nat),
            _ => if spec_is_op_tok(t[i]) {
                spec_parse_partial_operation(t, i, (fuel - 1) as nat)
            } else {
                None
            },
        }
    }
}

/// Parses the bracketed integer-part form starting at the `[` at `i`: `[]`
/// is the partial form (a lambda taking the operand), `[e]` truncates `e`.
pub open spec fn spec_parse_integer_part(
    t: Seq<TokenModel>,
    i: int,
    allow_ops: bool,
    fuel: nat,
) -> Option<(AstModel, int)>
    decreases fuel,
{
    if fuel == 0 {
        None
    } else if i + 1 < t.len() && t[i + 1] == TokenModel::CloseBracket {
        Some(
            (
                AstModel::Value(
                    ValueModel::Lambda {
                        args_def: seq!['X'],
                        content: Box::new(
                            AstModel::IntegerPart(
                                Box::new(AstModel::Value(ValueModel::Variable(seq!['X']))),
                            ),
                        ),
                    },
                ),
                i + 2,
            ),
        )
    } else {
        match spec_parse_expression(t, i + 1, false, true, (fuel - 1) as nat) {
            None => None,
            Some(p) => {
                let result = AstModel::IntegerPart(Box::new(p.0));
                let j = p.1;
                if !(0 <= j < t.len() && t[j] == TokenModel::CloseBracket) {
                    None
                } else if allow_ops && j + 1 < t.len() && spec_is_op_tok(t[j + 1]) {
                    spec_parse_operation(t, j + 1, result, (fuel - 1) as nat)
                } else if j + 1 < t.len() && t[j + 1] == TokenModel::Dollar {
                    spec_parse_switch(t, j + 1, result, (fuel - 1) as nat)
                } else {
                    Some((result, j + 1))
                }
            },
        }
    }
}

/// Parses the braced rational-part form starting at the `{` at `i`,
/// symmetric to the integer-part form but without a trailing switch.
pub open spec fn spec_parse_rational_part(
    t: Seq<TokenModel>,
    i: int,
    allow_ops: bool,
    fuel: nat,
) -> Option<(AstModel, int)>
    decreases fuel,
{
    if fuel == 0 {
        None
    } else if i + 1 < t.len() && t[i + 1] == TokenModel::CloseBrace {
        Some(
            (
                AstModel::Value(
                    ValueModel::Lambda {
                        args_def: seq!['X'],
                        content: Box::new(
                            AstModel::RationalPart(
                                Box::new(AstModel::Value(ValueModel::Variable(seq!['X']))),
                            ),
                        ),
                    },
                ),
                i + 2,
            ),
        )
    } else {
        match spec_parse_expression(t, i + 1, false, true, (fuel - 1) as nat) {
            None => None,
            Some(p) => {
                let result = AstModel::RationalPart(Box::new(p.0));
                let j = p.1;
                if !(0 <= j < t.len() && t[j] == TokenModel::CloseBrace) {
                    None
                } else if allow_ops && j + 1 < t.len() && spec_is_op_tok(t[j + 1]) {
                    spec_parse_operation(t, j + 1, result, (fuel - 1) as nat)
                } else {
                    Some((result, j + 1))
                }
            },
        }
    }
}

/// Parses a parenthesized form starting at the `(` at `i`: `()` is the unit
/// value; a parenthesized lambda not parsed as an argument collects
/// juxtaposed arguments into a call.
pub open spec fn spec_parse_pair(
    t: Seq<TokenModel>,
    i: int,
    from_call: bool,
    allow_ops: bool,
    fuel: nat,
) -> Option<(AstModel, int)>
    decreases fuel,
{
    if fuel == 0 {
        None
    } else if i + 1 < t.len() && t[i + 1] == TokenModel::CloseParen {
        Some((AstModel::Value(ValueModel::NoneVal), i + 2))
    } else {
        match spec_parse_expression(t, i + 1, false, true, (fuel - 1) as nat) {
            None => None,
            Some(p) => {
                let j = p.1;
                if !(0 <= j < t.len() && t[j] == TokenModel::CloseParen) {
                    None
                } else {
                    match spec_pair_calls(t, j + 1, p.0, from_call, (fuel - 1) as nat) {
                        None => None,
                        Some(q) => {
                            let res = q.0;
                            let k = q.1;
                            if allow_ops && 0 <= k < t.len() && spec_is_op_tok(t[k]) {
                                spec_parse_operation(t, k, res, (fuel - 1) as nat)
                            } else if 0 <= k < t.len() && t[k] == TokenModel::Dollar {
                                spec_parse_switch(t, k, res, (fuel - 1) as nat)
                            } else if 0 <= k < t.len() && t[k] == TokenModel::Period {
                                Some((res, k + 1))
                            } else {
                                Some((res, k))
                            }
                        },
                    }
                }
            },
        }
    }
}

/// After a parenthesized expression: a lambda value not parsed as an
/// argument collects juxtaposed arguments into a lambda call.
pub open spec fn spec_pair_calls(
    t: Seq<TokenModel>,
    j: int,
    result: AstModel,
    from_call: bool,
    fuel: nat,
) -> Option<(AstModel, int)>
    decreases fuel,
{
    if fuel == 0 {
        None
    } else {
        match result {
            AstModel::Value(v) => if from_call {
                Some((AstModel::Value(v), j))
            } else {
                match v {
                    ValueModel::Lambda { args_def, content } => {
                        match spec_parse_args(t, j, true, (fuel - 1) as nat) {
                            None => None,
                            Some(q) => if q.0.len() == 0 {
                                Some(
                                    (
                                        AstModel::Value(
                                            ValueModel::Lambda { args_def, content },
                                        ),
                                        q.1,
                                    ),
                                )
                            } else {
                                Some(
                                    (
                                        AstModel::LambdaCall {
                                            lambda: Box::new(
                                                ValueModel::Lambda { args_def, content },
                                            ),
                                            args: q.0,
                                        },
                                        q.1,
                                    ),
                                )
                            },
                        }
                    },
                    _ => Some((AstModel::Value(v), j)),
                }
            },
            _ => Some((result, j)),
        }
    }
}

/// Parses a lambda form starting at the `λ` at `i`: an identifier names the
/// single-character parameters, a period separates the body; a lambda body
/// fuses its parameters into the outer lambda.
pub open spec fn spec_parse_lambda(t: Seq<TokenModel>, i: int, fuel: nat) -> Option<(AstModel, int)>
    decreases fuel,
{
    if fuel == 0 {
        None
    } else if !(i + 1 < t.len() && t[i + 1] is Ident) {
        None
    } else {
        let name = t[i + 1]->Ident_0;
        if !(i + 2 < t.len() && t[i + 2] == TokenModel::Period) {
            None
        } else {
            match spec_parse_expression(t, i + 3, false, true, (fuel - 1) as nat) {
                None => None,
                Some(p) => {
                    let body = p.0;
                    let j = p.1;
                    let fused: (Seq<char>, Box<AstModel>) = match body {
                        AstModel::Value(ValueModel::Lambda { args_def, content }) => (
                            name + args_def,
                            content,
                        ),
                        _ => (name, Box::new(body)),
                    };
                    let k = if 0 <= j < t.len() && t[j] == TokenModel::Period {
                        j + 1
                    } else {
                        j
                    };
                    Some(
                        (
                            AstModel::Value(
                                ValueModel::Lambda { args_def: fused.0, content: fused.1 },
                            ),
                            k,
                        ),
                    )
                },
            }
        }
    }
}

/// Parses an integer literal at `i`, or a decimal literal when a period and
/// a second integer follow; then a trailing operator or switch.
pub open spec fn spec_parse_integer(
    t: Seq<TokenModel>,
    i: int,
    from_call: bool,
    allow_ops: bool,
    fuel: nat,
) -> Option<(AstModel, int)>
    decreases fuel,
{
    if fuel == 0 {
        None
    } else {
        match t[i] {
            TokenModel::Integer(n) => {
                let lit: Option<(AstModel, int)> = if i + 1 < t.len() && t[i + 1]
                    == TokenModel::Period && i + 2 < t.len() && t[i + 2] is Integer {
                    let m = t[i + 2]->Integer_0;
                    if n >= 0 && m >= 0 {
                        Some((AstModel::Value(ValueModel::Decimal(dec_lit_bits(n, m))), i + 3))
                    } else {
                        None
                    }
                } else {
                    Some((AstModel::Value(ValueModel::Integer(n)), i + 1))
                };
                match lit {
                    None => None,
                    Some(p) => {
                        let result = p.0;
                        let j = p.1;
                        if allow_ops && 0 <= j < t.len() && spec_is_op_tok(t[j]) {
                            spec_parse_operation(t, j, result, (fuel - 1) as nat)
                        } else if !from_call && 0 <= j < t.len() && t[j] == TokenModel::Dollar {
                            spec_parse_switch(t, j, result, (fuel - 1) as nat)
                        } else {
                            Some((result, j))
                        }
                    },
                }
            },
            _ => None,
        }
    }
}

/// Parses a word literal at `i`, then a trailing operator or switch.
pub open spec fn spec_parse_word(
    t: Seq<TokenModel>,
    i: int,
    from_call: bool,
    allow_ops: bool,
    fuel: nat,
) -> Option<(AstModel, int)>
    decreases fuel,
{
    if fuel == 0 {
        None
    } else {
        match t[i] {
            TokenModel::Word(name) => {
                let result = AstModel::Value(ValueModel::Word(name));
                if allow_ops && i + 1 < t.len() && spec_is_op_tok(t[i + 1]) {
                    spec_parse_operation(t, i + 1, result, (fuel - 1) as nat)
                } else if !from_call && i + 1 < t.len() && t[i + 1] == TokenModel::Dollar {
                    spec_parse_switch(t, i + 1, result, (fuel - 1) as nat)
                } else {
                    Some((result, i + 1))
                }
            },
            _ => None,
        }
    }
}

/// Parses an identifier-headed form at `i`: as an argument it is a bare
/// variable; `name = e` is a definition; otherwise juxtaposed arguments are
/// collected into a call, then a trailing operator, period or switch.
pub open spec fn spec_parse_ident(
    t: Seq<TokenModel>,
    i: int,
    from_call: bool,
    allow_ops: bool,
    fuel: nat,
) -> Option<(AstModel, int)>
    decreases fuel,
{
    if fuel == 0 {
        None
    } else {
        match t[i] {
            TokenModel::Ident(name) => {
                if from_call {
                    let result = AstModel::Value(ValueModel::Variable(name));
                    if allow_ops && i + 1 < t.len() && spec_is_op_tok(t[i + 1]) {
                        spec_parse_operation(t, i + 1, result, (fuel - 1) as nat)
                    } else if i + 1 < t.len() && t[i + 1] == TokenModel::Dollar {
                        spec_parse_switch(t, i + 1, result, (fuel - 1) as nat)
                    } else {
                        Some((result, i + 1))
                    }
                } else if i + 1 < t.len() && t[i + 1] == TokenModel::Equal {
                    match spec_parse_expression(t, i + 2, false, true, (fuel - 1) as nat) {
                        None => None,
                        Some(p) => Some(
                            (AstModel::Definition { name, value: Box::new(p.0) }, p.1),
                        ),
                    }
                } else {
                    match spec_parse_args(t, i + 1, true, (fuel - 1) as nat) {
                        None => None,
                        Some(q) => {
                            let result = if q.0.len() == 0 {
                                AstModel::Value(ValueModel::Variable(name))
                            } else {
                                AstModel::Call { name, args: q.0 }
                            };
                            let j = q.1;
                            if allow_ops && 0 <= j < t.len() && spec_is_op_tok(t[j]) {
                                spec_parse_operation(t, j, result, (fuel - 1) as nat)
                            } else if 0 <= j < t.len() && t[j] == TokenModel::Period {
                                Some((result, j + 1))
                            } else if 0 <= j < t.len() && t[j] == TokenModel::Dollar {
                                spec_parse_switch(t, j, result, (fuel - 1) as nat)
                            } else {
                                Some((result, j))
                            }
                        },
                    }
                }
            },
            _ => None,
        }
    }
}

/// Collects juxtaposed argument expressions until a delimiter, operator,
/// period or the end of the input.
pub open spec fn spec_parse_args(
    t: Seq<TokenModel>,
    i: int,
    inner_from_call: bool,
    fuel: nat,
) -> Option<(Seq<AstModel>, int)>
    decreases fuel,
{
    if fuel == 0 {
        None
    } else if !(0 <= i < t.len()) || spec_is_delim_tok(t[i]) || spec_is_op_tok(t[i]) || t[i]
        == TokenModel::Period {
        Some((Seq::empty(), i))
    } else {
        match spec_parse_expression(t, i, inner_from_call, true, (fuel - 1) as nat) {
            None => None,
            Some(p) => match spec_parse_args(t, p.1, inner_from_call, (fuel - 1) as nat) {
                None => None,
                Some(q) => Some((seq![p.0] + q.0, q.1)),
            },
        }
    }
}

/// Parses an infix operator at `i` and its right operand, chaining
/// left-associatively within the operator's class; when the right operand
/// fails to parse, the cursor rewinds and the form becomes a lambda over the
/// missing operand.
pub open spec fn spec_parse_operation(
    t: Seq<TokenModel>,
    i: int,
    left: AstModel,
    fuel: nat,
) -> Option<(AstModel, int)>
    decreases fuel,
{
    if fuel == 0 {
        None
    } else if !(0 <= i < t.len() && spec_is_op_tok(t[i])) {
        None
    } else {
        let flags = spec_op_flags(t[i]);
        let op = spec_op_of(t[i]);
        match spec_parse_expression(t, i + 1, true, flags.0, (fuel - 1) as nat) {
            None => Some(
                (
                    AstModel::Value(
                        ValueModel::Lambda {
                            args_def: seq!['Y'],
                            content: Box::new(
                                AstModel::Operation {
                                    left: Box::new(left),
                                    operation: op,
                                    right: Box::new(
                                        AstModel::Value(ValueModel::Variable(seq!['Y'])),
                                    ),
                                },
                            ),
                        },
                    ),
                    i + 1,
                ),
            ),
            Some(p) => {
                let tmp = AstModel::Operation {
                    left: Box::new(left),
                    operation: op,
                    right: Box::new(p.0),
                };
                let step: Option<(AstModel, int)> = if flags.1 && 0 <= p.1 < t.len()
                    && spec_is_op_tok(t[p.1]) {
                    spec_parse_operation(t, p.1, tmp, (fuel - 1) as nat)
                } else {
                    Some((tmp, p.1))
                };
                match step {
                    None => None,
                    Some(q) => if 0 <= q.1 < t.len() && t[q.1] == TokenModel::Dollar {
                        spec_parse_switch(t, q.1, q.0, (fuel - 1) as nat)
                    } else {
                        Some(q)
                    },
                }
            },
        }
    }
}

/// Parses a leading operator as a partial application: the missing left
/// operand becomes the first parameter of a lambda.
pub open spec fn spec_parse_partial_operation(
    t: Seq<TokenModel>,
    i: int,
    fuel: nat,
) -> Option<(AstModel, int)>
    decreases fuel,
{
    if fuel == 0 {
        None
    } else {
        match spec_parse_operation(
            t,
            i,
            AstModel::Value(ValueModel::Variable(seq!['X'])),
            (fuel - 1) as nat,
        ) {
            None => None,
            Some(p) => {
                let fused: (Seq<char>, Box<AstModel>) = match p.0 {
                    AstModel::Value(ValueModel::Lambda { args_def, content }) => (
                        seq!['X'] + args_def,
                        content,
                    ),
                    _ => (seq!['X'], Box::new(p.0)),
                };
                Some(
                    (
                        AstModel::Value(
                            ValueModel::Lambda { args_def: fused.0, content: fused.1 },
                        ),
                        p.1,
                    ),
                )
            },
        }
    }
}

/// Parses the switch form `$ { case -> result … }` applied to a compared
/// expression, starting at the `$` at `i`.
pub open spec fn spec_parse_switch(
    t: Seq<TokenModel>,
    i: int,
    compared: AstModel,
    fuel: nat,
) -> Option<(AstModel, int)>
    decreases fuel,
{
    if fuel == 0 {
        None
    } else if !(i + 1 < t.len() && t[i + 1] == TokenModel::OpenBrace) {
        None
    } else {
        match spec_parse_cases(t, i + 2, (fuel - 1) as nat) {
            None => None,
            Some(p) => if 0 <= p.1 < t.len() && t[p.1] == TokenModel::CloseBrace {
                Some(
                    (
                        AstModel::Switch { compared: Box::new(compared), cases: p.0 },
                        p.1 + 1,
                    ),
                )
            } else {
                None
            },
        }
    }
}

/// Collects switch cases, each `pattern -> result`, until a delimiter or the
/// end of the input.
pub open spec fn spec_parse_cases(t: Seq<TokenModel>, i: int, fuel: nat) -> Option<
    (Seq<(AstModel, AstModel)>, int),
>
    decreases fuel,
{
    if fuel == 0 {
        None
    } else if !(0 <= i < t.len()) || spec_is_delim_tok(t[i]) {
        Some((Seq::empty(), i))
    } else {
        match spec_parse_expression(t, i, true, false, (fuel - 1) as nat) {
            None => None,
            Some(p) => if !(0 <= p.1 < t.len() && t[p.1] == TokenModel::Arrow) {
                None
            } else {
                match spec_parse_expression(t, p.1 + 1, true, true, (fuel - 1) as nat) {
                    None => None,
                    Some(q) => match spec_parse_cases(t, q.1, (fuel - 1) as nat) {
                        None => None,
                        Some(r) => Some((seq![(p.0, q.0)] + r.0, r.1)),
                    },
                }
            },
        }
    }
}

/// Parses a whole program: one expression after another until the tokens are
/// exhausted.
pub open spec fn spec_parse_program(t: Seq<TokenModel>, i: int, fuel: nat) -> Option<Seq<AstModel>>
    decreases fuel,
{
    if !(0 <= i < t.len()) {
        Some(Seq::empty())
    } else if fuel == 0 {
        None
    } else if t[i] == TokenModel::Period {
        spec_parse_program(t, i + 1, (fuel - 1) as nat)
    } else {
        match spec_parse_expression(t, i, false, true, (fuel - 1) as nat) {
            None => None,
            Some(p) => match spec_parse_program(t, p.1, (fuel - 1) as nat) {
                None => None,
                Some(rest) => Some(seq![p.0] + rest),
            },
        }
    }
}

/// The fuel that the parser grants a token sequence of the given length.
pub open spec fn spec_parse_fuel(len: nat) -> nat {
    if 100 * len + 1000 > usize::MAX {
        usize::MAX as nat
    } else {
        100 * len + 1000
    }
}

/// The parse of a whole token sequence.
pub open spec fn spec_parse(t: Seq<TokenModel>) -> Option<Seq<AstModel>> {
    spec_parse_program(t, 0, spec_parse_fuel(t.len()))
}

// ---------------------------------------------------------------------------
// The executable parser
// ---------------------------------------------------------------------------

/// A token cursor: the token sequence and the current position.
pub struct ParseableIter {
    pub tokens: Vec<Token>,
    pub current_index: usize,
}

/// The cursor type the parsing methods live on.
pub type Parseable = ParseableIter;

/// A one-character parameter-name vector.
fn char_vec1(c: char) -> (v: Vec<char>)
    ensures
        v@ == seq![c],
{
    let mut v: Vec<char> = Vec::new();
    v.push(c);
    proof {
        assert(v@ =~= seq![c]);
    }
    v
}

/// Prefixes a node onto a parsed argument vector.
fn prepend_node(n: ASTNode, v: Vec<ASTNode>) -> (r: Vec<ASTNode>)
    ensures
        view_ast_seq(r@) == seq![view_ast(n)] + view_ast_seq(v@),
{
    let ghost orig = v@;
    let mut v = v;
    v.insert(0, n);
    proof {
        lemma_view_ast_seq_len(v@);
        lemma_view_ast_seq_len(orig);
        assert(view_ast_seq(v@) =~= seq![view_ast(n)] + view_ast_seq(orig));
    }
    v
}

/// Prefixes a case onto a parsed case vector.
fn prepend_case(c: (ASTNode, ASTNode), v: Vec<(ASTNode, ASTNode)>) -> (r: Vec<(ASTNode, ASTNode)>)
    ensures
        view_case_seq(r@) == seq![(view_ast(c.0), view_ast(c.1))] + view_case_seq(v@),
{
    let ghost orig = v@;
    let mut v = v;
    v.insert(0, c);
    proof {
        lemma_view_case_seq_len(v@);
        lemma_view_case_seq_len(orig);
        assert(view_case_seq(v@) =~= seq![(view_ast(c.0), view_ast(c.1))] + view_case_seq(orig));
    }
    v
}

impl ParseableIter {
    /// The model of the token stream.
    pub open spec fn tm(&self) -> Seq<TokenModel> {
        toks_view(self.tokens@)
    }

    /// The model of the token under the cursor, when one is left.
    pub open spec fn cur(&self) -> TokenModel {
        self.tm()[self.current_index as int]
    }

    /// Whether a token is left and its model satisfies the given condition.
    pub open spec fn peek_sat(&self, t: TokenModel) -> bool {
        self.current_index < self.tm().len() && self.cur() == t
    }

    /// A fresh cursor over a token sequence, at its start.
    pub fn new(source: Vec<Token>) -> (r: Self)
        ensures
            r.tokens@ == source@,
            r.current_index == 0,
    {
        ParseableIter { tokens: source, current_index: 0 }
    }

    /// The token under the cursor, if any, without advancing.
    pub fn peek(&self) -> (r: Option<&Token>)
        ensures
            match r {
                Some(t) => self.current_index < self.tm().len() && t@ == self.cur(),
                None => self.current_index >= self.tm().len(),
            },
    {
        if self.current_index < self.tokens.len() {
            Some(&self.tokens[self.current_index])
        } else {
            None
        }
    }

    /// Whether the cursor has run past the last token.
    pub fn is_empty(&self) -> (r: bool)
        ensures
            r == (self.current_index >= self.tm().len()),
    {
        self.current_index >= self.tokens.len()
    }

    /// Whether the token under the cursor closes a form or starts a switch.
    pub fn is_delimiter(&self) -> (r: bool)
        ensures
            r == (self.current_index < self.tm().len() && spec_is_delim_tok(self.cur())),
    {
        self.current_index < self.tokens.len() && match &self.tokens[self.current_index] {
            Token::CloseParen => true,
            Token::CloseBracket => true,
            Token::CloseBrace => true,
            Token::Dollar => true,
            _ => false,
        }
    }

    /// Whether the token under the cursor is an infix operator.
    pub fn is_operation(&self) -> (r: bool)
        ensures
            r == (self.current_index < self.tm().len() && spec_is_op_tok(self.cur())),
    {
        self.current_index < self.tokens.len() && match &self.tokens[self.current_index] {
            Token::Plus => true,
            Token::Minus => true,
            Token::Asterisk => true,
            Token::Slash => true,
            Token::Circumflex => true,
            Token::Equal => true,
            Token::NotEqual => true,
            Token::LessEqual => true,
            Token::Less => true,
            Token::GreaterEqual => true,
            Token::Greater => true,
            _ => false,
        }
    }

    fn peek_is_period(&self) -> (r: bool)
        ensures
            r == self.peek_sat(TokenModel::Period),
    {
        self.current_index < self.tokens.len() && match &self.tokens[self.current_index] {
            Token::Period => true,
            _ => false,
        }
    }

    fn peek_is_dollar(&self) -> (r: bool)
        ensures
            r == self.peek_sat(TokenModel::Dollar),
    {
        self.current_index < self.tokens.len() && match &self.tokens[self.current_index] {
            Token::Dollar => true,
            _ => false,
        }
    }

    fn peek_is_equal(&self) -> (r: bool)
        ensures
            r == self.peek_sat(TokenModel::Equal),
    {
        self.current_index < self.tokens.len() && match &self.tokens[self.current_index] {
            Token::Equal => true,
            _ => false,
        }
    }

    fn peek_is_arrow(&self) -> (r: bool)
        ensures
            r == self.peek_sat(TokenModel::Arrow),
    {
        self.current_index < self.tokens.len() && match &self.tokens[self.current_index] {
            Token::Arrow => true,
            _ => false,
        }
    }

    fn peek_is_close_paren(&self) -> (r: bool)
        ensures
            r == self.peek_sat(TokenModel::CloseParen),
    {
        self.current_index < self.tokens.len() && match &self.tokens[self.current_index] {
            Token::CloseParen => true,
            _ => false,
        }
    }

    fn peek_is_close_bracket(&self) -> (r: bool)
        ensures
            r == self.peek_sat(TokenModel::CloseBracket),
    {
        self.current_index < self.tokens.len() && match &self.tokens[self.current_index] {
            Token::CloseBracket => true,
            _ => false,
        }
    }

    fn peek_is_close_brace(&self) -> (r: bool)
        ensures
            r == self.peek_sat(TokenModel::CloseBrace),
    {
        self.current_index < self.tokens.len() && match &self.tokens[self.current_index] {
            Token::CloseBrace => true,
            _ => false,
        }
    }

    fn peek_is_open_brace(&self) -> (r: bool)
        ensures
            r == self.peek_sat(TokenModel::OpenBrace),
    {
        self.current_index < self.tokens.len() && match &self.tokens[self.current_index] {
            Token::OpenBrace => true,
            _ => false,
        }
    }

    /// Advances past the expected token, or fails naming it and the token
    /// found; a mismatching token is consumed, only the end of the input
    /// leaves the cursor in place.
    pub fn consume(&mut self, expected: &Token) -> (r: Result<(), String>)
        ensures
            final(self).tokens == old(self).tokens,
            if old(self).peek_sat(expected@) {
                r is Ok && final(self).current_index == old(self).current_index + 1
            } else {
                r is Err && (if old(self).current_index < old(self).tokens@.len() {
                    final(self).current_index == old(self).current_index + 1
                } else {
                    final(self).current_index == old(self).current_index
                })
            },
    {
        if self.current_index < self.tokens.len() {
            if token_matches(&self.tokens[self.current_index], expected) {
                self.current_index = self.current_index + 1;
                Ok(())
            } else {
                let e = self.err_expected_chars(describe_token(expected));
                self.current_index = self.current_index + 1;
                Err(e)
            }
        } else {
            Err(self.err_expected_chars(describe_token(expected)))
        }
    }

    /// Advances past an identifier token, returning its name; a mismatching
    /// token is consumed, only the end of the input leaves the cursor in
    /// place.
    pub fn consume_ident(&mut self) -> (r: Result<Vec<char>, String>)
        ensures
            final(self).tokens == old(self).tokens,
            match r {
                Ok(name) => old(self).current_index < old(self).tm().len() && old(self).cur()
                    == TokenModel::Ident(name@) && final(self).current_index == old(
                    self,
                ).current_index + 1,
                Err(_) => !(old(self).current_index < old(self).tm().len() && old(
                    self,
                ).cur() is Ident) && (if old(self).current_index < old(self).tokens@.len() {
                    final(self).current_index == old(self).current_index + 1
                } else {
                    final(self).current_index == old(self).current_index
                }),
            },
    {
        if self.current_index < self.tokens.len() {
            match &self.tokens[self.current_index] {
                Token::Ident(name) => {
                    let name = name.clone();
                    self.current_index = self.current_index + 1;
                    Ok(name)
                },
                _ => {
                    let e = self.err_expected("an identifier");
                    self.current_index = self.current_index + 1;
                    Err(e)
                },
            }
        } else {
            Err(self.err_expected("an identifier"))
        }
    }

    /// Advances past an integer token, returning its value; a mismatching
    /// token is consumed, only the end of the input leaves the cursor in
    /// place.
    pub fn consume_integer(&mut self) -> (r: Result<i128, String>)
        ensures
            final(self).tokens == old(self).tokens,
            match r {
                Ok(n) => old(self).current_index < old(self).tm().len() && old(self).cur()
                    == TokenModel::Integer(n) && final(self).current_index == old(
                    self,
                ).current_index + 1,
                Err(_) => !(old(self).current_index < old(self).tm().len() && old(
                    self,
                ).cur() is Integer) && (if old(self).current_index < old(self).tokens@.len() {
                    final(self).current_index == old(self).current_index + 1
                } else {
                    final(self).current_index == old(self).current_index
                }),
            },
    {
        if self.current_index < self.tokens.len() {
            match &self.tokens[self.current_index] {
                Token::Integer(n) => {
                    let n = *n;
                    self.current_index = self.current_index + 1;
                    Ok(n)
                },
                _ => {
                    let e = self.err_expected("a number");
                    self.current_index = self.current_index + 1;
                    Err(e)
                },
            }
        } else {
            Err(self.err_expected("a number"))
        }
    }
}

/// Whether two tokens are the same token with the same payload.
pub fn token_matches(a: &Token, b: &Token) -> (r: bool)
    ensures
        r == (a@ == b@),
{
    match (a, b) {
        (Token::OpenParen, Token::OpenParen) => true,
        (Token::CloseParen, Token::CloseParen) => true,
        (Token::OpenBrace, Token::OpenBrace) => true,
        (Token::CloseBrace, Token::CloseBrace) => true,
        (Token::OpenBracket, Token::OpenBracket) => true,
        (Token::CloseBracket, Token::CloseBracket) => true,
        (Token::Exclam, Token::Exclam) => true,
        (Token::Bar, Token::Bar) => true,
        (Token::Underscore, Token::Underscore) => true,
        (Token::Plus, Token::Plus) => true,
        (Token::Minus, Token::Minus) => true,
        (Token::Asterisk, Token::Asterisk) => true,
        (Token::Slash, Token::Slash) => true,
        (Token::Circumflex, Token::Circumflex) => true,
        (Token::Equal, Token::Equal) => true,
        (Token::NotEqual, Token::NotEqual) => true,
        (Token::Less, Token::Less) => true,
        (Token::Greater, Token::Greater) => true,
        (Token::LessEqual, Token::LessEqual) => true,
        (Token::GreaterEqual, Token::GreaterEqual) => true,
        (Token::Arrow, Token::Arrow) => true,
        (Token::Lambda, Token::Lambda) => true,
        (Token::Period, Token::Period) => true,
        (Token::Dollar, Token::Dollar) => true,
        (Token::Ident(x), Token::Ident(y)) => chars_eq(x, y),
        (Token::Word(x), Token::Word(y)) => chars_eq(x, y),
        (Token::Integer(x), Token::Integer(y)) => *x == *y,
        _ => false,
    }
}

/// The operator's precedence pair and operation, when the token is an
/// operator.
fn op_info(t: &Token) -> (r: Option<(bool, bool, Operation)>)
    ensures
        match r {
            Some(x) => spec_is_op_tok(t@) && x.0 == spec_op_flags(t@).0 && x.1 == spec_op_flags(
                t@,
            ).1 && x.2 == spec_op_of(t@),
            None => !spec_is_op_tok(t@),
        },
{
    match t {
        Token::Plus => Some((true, true, Operation::Addition)),
        Token::Minus => Some((true, true, Operation::Substraction)),
        Token::Asterisk => Some((false, true, Operation::Multiplication)),
        Token::Slash => Some((false, true, Operation::Division)),
        Token::Circumflex => Some((false, true, Operation::Exponent)),
        Token::Equal => Some((false, false, Operation::Equal)),
        Token::NotEqual => Some((false, false, Operation::NotEqual)),
        Token::LessEqual => Some((false, false, Operation::LessEqual)),
        Token::Less => Some((false, false, Operation::Less)),
        Token::GreaterEqual => Some((false, false, Operation::GreaterEqual)),
        Token::Greater => Some((false, false, Operation::Greater)),
        _ => None,
    }
}

fn nest_err() -> (r: String)
    ensures
        true,
{
    "ParsingError: expression too deeply nested".to_string()
}

/// A readable rendering of a token, for error messages.
fn describe_token(t: &Token) -> (r: Vec<char>) {
    match t {
        Token::OpenParen => str_to_chars("("),
        Token::CloseParen => str_to_chars(")"),
        Token::OpenBrace => str_to_chars("{"),
        Token::CloseBrace => str_to_chars("}"),
        Token::OpenBracket => str_to_chars("["),
        Token::CloseBracket => str_to_chars("]"),
        Token::Exclam => str_to_chars("!"),
        Token::Bar => str_to_chars("|"),
        Token::Underscore => str_to_chars("_"),
        Token::Plus => str_to_chars("+"),
        Token::Minus => str_to_chars("-"),
        Token::Asterisk => str_to_chars("*"),
        Token::Slash => str_to_chars("/"),
        Token::Circumflex => str_to_chars("^"),
        Token::Equal => str_to_chars("="),
        Token::NotEqual => str_to_chars("<>"),
        Token::Less => str_to_chars("<"),
        Token::Greater => str_to_chars(">"),
        Token::LessEqual => str_to_chars("<="),
        Token::GreaterEqual => str_to_chars(">="),
        Token::Arrow => str_to_chars("->"),
        Token::Lambda => str_to_chars("\u{3bb}"),
        Token::Period => str_to_chars("."),
        Token::Dollar => str_to_chars("$"),
        Token::Ident(n) => {
            let mut v = str_to_chars("identifier ");
            let mut name = n.clone();
            v.append(&mut name);
            v
        },
        Token::Word(n) => {
            let mut v = str_to_chars("'");
            let mut name = n.clone();
            v.append(&mut name);
            v
        },
        Token::Integer(k) => int_to_chars(*k),
    }
}

impl ParseableIter {
    /// An error message naming what was expected and the token found.
    fn err_expected_chars(&self, what: Vec<char>) -> (r: String) {
        let mut msg = str_to_chars("ParsingError: expected ");
        let mut w = what;
        msg.append(&mut w);
        let mut sep = str_to_chars(", got ");
        msg.append(&mut sep);
        if self.current_index < self.tokens.len() {
            let mut d = describe_token(&self.tokens[self.current_index]);
            msg.append(&mut d);
        } else {
            let mut e = str_to_chars("end of input");
            msg.append(&mut e);
        }
        chars_to_string(&msg)
    }

    /// An error message naming what was expected, in words, and the token
    /// found.
    fn err_expected(&self, what: &str) -> (r: String) {
        self.err_expected_chars(str_to_chars(what))
    }
}

impl ParseableIter {
    /// Parses one expression, as `spec_parse_expression` says.
    pub fn parse_expression(&mut self, from_call: bool, allow_ops: bool, fuel: usize) -> (r:
        Result<ASTNode, String>)
        ensures
            final(self).tokens == old(self).tokens,
            match spec_parse_expression(
                old(self).tm(),
                old(self).current_index as int,
                from_call,
                allow_ops,
                fuel as nat,
            ) {
                Some(p) => r matches Ok(n) && n@ == p.0 && final(self).current_index as int == p.1,
                None => r is Err,
            },
        decreases fuel,
    {
        if fuel == 0 {
            return Err(nest_err());
        }
        let toklen = self.tokens.len();
        proof {
            reveal_with_fuel(view_ast, 8);
            reveal_with_fuel(view_value, 8);
            assert(self.tokens@.len() == toklen);
            assert(self.tm().len() == toklen);
            assert(forall|k: int|
                0 <= k < self.tokens@.len() ==> self.tm()[k] == self.tokens@[k]@);
        }
        if self.current_index >= self.tokens.len() {
            return Ok(ASTNode::Nothing);
        }
        let i = self.current_index;
        let kind: u8 = match &self.tokens[i] {
            Token::Exclam => 0,
            Token::OpenBracket => 1,
            Token::OpenBrace => 2,
            Token::OpenParen => 3,
            Token::Lambda => 4,
            Token::Integer(_) => 5,
            Token::Ident(_) => 6,
            Token::Word(_) => 7,
            _ => 8,
        };
        if kind == 0 {
            self.current_index = i + 1;
            match self.parse_expression(false, true, fuel - 1) {
                Ok(n) => Ok(ASTNode::Print(Box::new(n))),
                Err(e) => Err(e),
            }
        } else if kind == 1 {
            self.parse_integer_part(allow_ops, fuel - 1)
        } else if kind == 2 {
            self.parse_rational_part(allow_ops, fuel - 1)
        } else if kind == 3 {
            self.parse_pair(from_call, allow_ops, fuel - 1)
        } else if kind == 4 {
            self.parse_lambda(fuel - 1)
        } else if kind == 5 {
            self.parse_integer(from_call, allow_ops, fuel - 1)
        } else if kind == 6 {
            self.parse_ident(from_call, allow_ops, fuel - 1)
        } else if kind == 7 {
            self.parse_word(from_call, allow_ops, fuel - 1)
        } else if self.is_operation() {
            self.parse_partial_operation(fuel - 1)
        } else {
            Err(self.err_expected("the start of an expression"))
        }
    }

    /// Parses the `[...]` form, as `spec_parse_integer_part` says.
    fn parse_integer_part(&mut self, allow_ops: bool, fuel: usize) -> (r: Result<ASTNode, String>)
        requires
            old(self).current_index < old(self).tokens@.len(),
        ensures
            final(self).tokens == old(self).tokens,
            match spec_parse_integer_part(
                old(self).tm(),
                old(self).current_index as int,
                allow_ops,
                fuel as nat,
            ) {
                Some(p) => r matches Ok(n) && n@ == p.0 && final(self).current_index as int == p.1,
                None => r is Err,
            },
        decreases fuel,
    {
        if fuel == 0 {
            return Err(nest_err());
        }
        let toklen = self.tokens.len();
        proof {
            reveal_with_fuel(view_ast, 8);
            reveal_with_fuel(view_value, 8);
            assert(self.tokens@.len() == toklen);
            assert(self.tm().len() == toklen);
            assert(forall|k: int|
                0 <= k < self.tokens@.len() ==> self.tm()[k] == self.tokens@[k]@);
        }
        let i = self.current_index;
        self.current_index = i + 1;
        if self.peek_is_close_bracket() {
            self.current_index = i + 2;
            let x = char_vec1('X');
            let x2 = char_vec1('X');
            return Ok(
                ASTNode::Value(
                    Value::Lambda {
                        args_def: x,
                        content: Box::new(
                            ASTNode::IntegerPart(
                                Box::new(ASTNode::Value(Value::Variable(x2))),
                            ),
                        ),
                    },
                ),
            );
        }
        match self.parse_expression(false, true, fuel - 1) {
            Err(e) => Err(e),
            Ok(inner) => {
                let result = ASTNode::IntegerPart(Box::new(inner));
                if !self.peek_is_close_bracket() {
                    return Err(self.err_expected("a closing bracket"));
                }
                self.current_index = self.current_index + 1;
                if allow_ops && self.is_operation() {
                    self.parse_operation(result, fuel - 1)
                } else if self.peek_is_dollar() {
                    self.parse_switch(result, fuel - 1)
                } else {
                    Ok(result)
                }
            },
        }
    }

    /// Parses the `{...}` form, as `spec_parse_rational_part` says.
    fn parse_rational_part(&mut self, allow_ops: bool, fuel: usize) -> (r: Result<ASTNode, String>)
        requires
            old(self).current_index < old(self).tokens@.len(),
        ensures
            final(self).tokens == old(self).tokens,
            match spec_parse_rational_part(
                old(self).tm(),
                old(self).current_index as int,
                allow_ops,
                fuel as nat,
            ) {
                Some(p) => r matches Ok(n) && n@ == p.0 && final(self).current_index as int == p.1,
                None => r is Err,
            },
        decreases fuel,
    {
        if fuel == 0 {
            return Err(nest_err());
        }
        let toklen = self.tokens.len();
        proof {
            reveal_with_fuel(view_ast, 8);
            reveal_with_fuel(view_value, 8);
            assert(self.tokens@.len() == toklen);
            assert(self.tm().len() == toklen);
            assert(forall|k: int|
                0 <= k < self.tokens@.len() ==> self.tm()[k] == self.tokens@[k]@);
        }
        let i = self.current_index;
        self.current_index = i + 1;
        if self.peek_is_close_brace() {
            self.current_index = i + 2;
            let x = char_vec1('X');
            let x2 = char_vec1('X');
            return Ok(
                ASTNode::Value(
                    Value::Lambda {
                        args_def: x,
                        content: Box::new(
                            ASTNode::RationalPart(
                                Box::new(ASTNode::Value(Value::Variable(x2))),
                            ),
                        ),
                    },
                ),
            );
        }
        match self.parse_expression(false, true, fuel - 1) {
            Err(e) => Err(e),
            Ok(inner) => {
                let result = ASTNode::RationalPart(Box::new(inner));
                if !self.peek_is_close_brace() {
                    return Err(self.err_expected("a closing brace"));
                }
                self.current_index = self.current_index + 1;
                if allow_ops && self.is_operation() {
                    self.parse_operation(result, fuel - 1)
                } else {
                    Ok(result)
                }
            },
        }
    }

    /// Parses a parenthesized form, as `spec_parse_pair` says.
    fn parse_pair(&mut self, from_call: bool, allow_ops: bool, fuel: usize) -> (r: Result<
        ASTNode,
        String,
    >)
        requires
            old(self).current_index < old(self).tokens@.len(),
        ensures
            final(self).tokens == old(self).tokens,
            match spec_parse_pair(
                old(self).tm(),
                old(self).current_index as int,
                from_call,
                allow_ops,
                fuel as nat,
            ) {
                Some(p) => r matches Ok(n) && n@ == p.0 && final(self).current_index as int == p.1,
                None => r is Err,
            },
        decreases fuel,
    {
        if fuel == 0 {
            return Err(nest_err());
        }
        let toklen = self.tokens.len();
        proof {
            reveal_with_fuel(view_ast, 8);
            reveal_with_fuel(view_value, 8);
            assert(self.tokens@.len() == toklen);
            assert(self.tm().len() == toklen);
            assert(forall|k: int|
                0 <= k < self.tokens@.len() ==> self.tm()[k] == self.tokens@[k]@);
        }
        let i = self.current_index;
        self.current_index = i + 1;
        if self.peek_is_close_paren() {
            self.current_index = i + 2;
            return Ok(ASTNode::Value(Value::NoneVal));
        }
        match self.parse_expression(false, true, fuel - 1) {
            Err(e) => Err(e),
            Ok(result) => {
                if !self.peek_is_close_paren() {
                    return Err(self.err_expected("a closing parenthesis"));
                }
                self.current_index = self.current_index + 1;
                match self.pair_calls(result, from_call, fuel - 1) {
                    Err(e) => Err(e),
                    Ok(res) => {
                        if allow_ops && self.is_operation() {
                            self.parse_operation(res, fuel - 1)
                        } else if self.peek_is_dollar() {
                            self.parse_switch(res, fuel - 1)
                        } else if self.peek_is_period() {
                            self.current_index = self.current_index + 1;
                            Ok(res)
                        } else {
                            Ok(res)
                        }
                    },
                }
            },
        }
    }

    /// Collects a parenthesized lambda's juxtaposed arguments, as
    /// `spec_pair_calls` says.
    fn pair_calls(&mut self, result: ASTNode, from_call: bool, fuel: usize) -> (r: Result<
        ASTNode,
        String,
    >)
        ensures
            final(self).tokens == old(self).tokens,
            match spec_pair_calls(
                old(self).tm(),
                old(self).current_index as int,
                view_ast(result),
                from_call,
                fuel as nat,
            ) {
                Some(p) => r matches Ok(n) && n@ == p.0 && final(self).current_index as int == p.1,
                None => r is Err,
            },
        decreases fuel,
    {
        if fuel == 0 {
            return Err(nest_err());
        }
        let toklen = self.tokens.len();
        proof {
            reveal_with_fuel(view_ast, 8);
            reveal_with_fuel(view_value, 8);
            assert(self.tokens@.len() == toklen);
            assert(self.tm().len() == toklen);
            assert(forall|k: int|
                0 <= k < self.tokens@.len() ==> self.tm()[k] == self.tokens@[k]@);
        }
        match result {
            ASTNode::Value(v) => {
                if from_call {
                    Ok(ASTNode::Value(v))
                } else {
                    match v {
                        Value::Lambda { args_def, content } => {
                            match self.parse_args(true, fuel - 1) {
                                Err(e) => Err(e),
                                Ok(args) => {
                                    if args.len() == 0 {
                                        Ok(
                                            ASTNode::Value(
                                                Value::Lambda { args_def, content },
                                            ),
                                        )
                                    } else {
                                        Ok(
                                            ASTNode::LambdaCall {
                                                lambda: Box::new(
                                                    Value::Lambda { args_def, content },
                                                ),
                                                args,
                                            },
                                        )
                                    }
                                },
                            }
                        },
                        other => Ok(ASTNode::Value(other)),
                    }
                }
            },
            other => Ok(other),
        }
    }

    /// Collects juxtaposed argument expressions, as `spec_parse_args` says.
    fn parse_args(&mut self, inner_from_call: bool, fuel: usize) -> (r: Result<Vec<ASTNode>, String>)
        ensures
            final(self).tokens == old(self).tokens,
            match spec_parse_args(
                old(self).tm(),
                old(self).current_index as int,
                inner_from_call,
                fuel as nat,
            ) {
                Some(p) => r matches Ok(v) && view_ast_seq(v@) == p.0 && final(self).current_index as int == p.1,
                None => r is Err,
            },
        decreases fuel,
    {
        if fuel == 0 {
            return Err(nest_err());
        }
        let toklen = self.tokens.len();
        proof {
            reveal_with_fuel(view_ast, 8);
            reveal_with_fuel(view_value, 8);
            assert(self.tokens@.len() == toklen);
            assert(self.tm().len() == toklen);
            assert(forall|k: int|
                0 <= k < self.tokens@.len() ==> self.tm()[k] == self.tokens@[k]@);
        }
        if self.is_empty() || self.is_delimiter() || self.is_operation() || self.peek_is_period() {
            let v: Vec<ASTNode> = Vec::new();
            proof {
                assert(view_ast_seq(v@) =~= Seq::<AstModel>::empty());
            }
            return Ok(v);
        }
        match self.parse_expression(inner_from_call, true, fuel - 1) {
            Err(e) => Err(e),
            Ok(n) => match self.parse_args(inner_from_call, fuel - 1) {
                Err(e) => Err(e),
                Ok(rest) => Ok(prepend_node(n, rest)),
            },
        }
    }

    /// Parses a lambda form, as `spec_parse_lambda` says.
    fn parse_lambda(&mut self, fuel: usize) -> (r: Result<ASTNode, String>)
        requires
            old(self).current_index < old(self).tokens@.len(),
        ensures
            final(self).tokens == old(self).tokens,
            match spec_parse_lambda(old(self).tm(), old(self).current_index as int, fuel as nat) {
                Some(p) => r matches Ok(n) && n@ == p.0 && final(self).current_index as int == p.1,
                None => r is Err,
            },
        decreases fuel,
    {
        if fuel == 0 {
            return Err(nest_err());
        }
        let toklen = self.tokens.len();
        proof {
            reveal_with_fuel(view_ast, 8);
            reveal_with_fuel(view_value, 8);
            assert(self.tokens@.len() == toklen);
            assert(self.tm().len() == toklen);
            assert(forall|k: int|
                0 <= k < self.tokens@.len() ==> self.tm()[k] == self.tokens@[k]@);
        }
        let i = self.current_index;
        if !(i + 1 < self.tokens.len()) {
            return Err(self.err_expected("a parameter name"));
        }
        let name = match &self.tokens[i + 1] {
            Token::Ident(nm) => nm.clone(),
            _ => {
                return Err(self.err_expected("a parameter name"));
            },
        };
        if !(i + 2 < self.tokens.len()) {
            return Err(self.err_expected("a period after the parameters"));
        }
        let is_period = match &self.tokens[i + 2] {
            Token::Period => true,
            _ => false,
        };
        if !is_period {
            return Err(self.err_expected("a period after the parameters"));
        }
        self.current_index = i + 3;
        match self.parse_expression(false, true, fuel - 1) {
            Err(e) => Err(e),
            Ok(body) => {
                let fused: (Vec<char>, Box<ASTNode>) = match body {
                    ASTNode::Value(Value::Lambda { args_def: ad2, content: ct2 }) => {
                        let mut nm = name;
                        let mut a2 = ad2;
                        nm.append(&mut a2);
                        (nm, ct2)
                    },
                    other => (name, Box::new(other)),
                };
                if self.peek_is_period() {
                    self.current_index = self.current_index + 1;
                }
                Ok(ASTNode::Value(Value::Lambda { args_def: fused.0, content: fused.1 }))
            },
        }
    }

    /// Parses an integer or decimal literal, as `spec_parse_integer` says.
    fn parse_integer(&mut self, from_call: bool, allow_ops: bool, fuel: usize) -> (r: Result<
        ASTNode,
        String,
    >)
        requires
            old(self).current_index < old(self).tokens@.len(),
        ensures
            final(self).tokens == old(self).tokens,
            match spec_parse_integer(
                old(self).tm(),
                old(self).current_index as int,
                from_call,
                allow_ops,
                fuel as nat,
            ) {
                Some(p) => r matches Ok(n) && n@ == p.0 && final(self).current_index as int == p.1,
                None => r is Err,
            },
        decreases fuel,
    {
        if fuel == 0 {
            return Err(nest_err());
        }
        let toklen = self.tokens.len();
        proof {
            reveal_with_fuel(view_ast, 8);
            reveal_with_fuel(view_value, 8);
            assert(self.tokens@.len() == toklen);
            assert(self.tm().len() == toklen);
            assert(forall|k: int|
                0 <= k < self.tokens@.len() ==> self.tm()[k] == self.tokens@[k]@);
        }
        let i = self.current_index;
        if i >= self.tokens.len() {
            return Err(self.err_expected("a number"));
        }
        let n = match &self.tokens[i] {
            Token::Integer(n) => *n,
            _ => {
                return Err(self.err_expected("a number"));
            },
        };
        self.current_index = i + 1;
        let result: ASTNode;
        let frac: Option<i128> = if self.peek_is_period() && i + 2 < self.tokens.len() {
            match &self.tokens[i + 2] {
                Token::Integer(m) => Some(*m),
                _ => None,
            }
        } else {
            None
        };
        match frac {
            Some(m) => {
                if !(n >= 0 && m >= 0) {
                    return Err("ParsingError: a decimal literal needs plain digits".to_string());
                }
                self.current_index = i + 3;
                result = ASTNode::Value(Value::Decimal(dec_from_parts(n, m)));
            },
            None => {
                result = ASTNode::Value(Value::Integer(n));
            },
        }
        if allow_ops && self.is_operation() {
            self.parse_operation(result, fuel - 1)
        } else if !from_call && self.peek_is_dollar() {
            self.parse_switch(result, fuel - 1)
        } else {
            Ok(result)
        }
    }

    /// Parses a word literal, as `spec_parse_word` says.
    fn parse_word(&mut self, from_call: bool, allow_ops: bool, fuel: usize) -> (r: Result<
        ASTNode,
        String,
    >)
        requires
            old(self).current_index < old(self).tokens@.len(),
        ensures
            final(self).tokens == old(self).tokens,
            match spec_parse_word(
                old(self).tm(),
                old(self).current_index as int,
                from_call,
                allow_ops,
                fuel as nat,
            ) {
                Some(p) => r matches Ok(n) && n@ == p.0 && final(self).current_index as int == p.1,
                None => r is Err,
            },
        decreases fuel,
    {
        if fuel == 0 {
            return Err(nest_err());
        }
        let toklen = self.tokens.len();
        proof {
            reveal_with_fuel(view_ast, 8);
            reveal_with_fuel(view_value, 8);
            assert(self.tokens@.len() == toklen);
            assert(self.tm().len() == toklen);
            assert(forall|k: int|
                0 <= k < self.tokens@.len() ==> self.tm()[k] == self.tokens@[k]@);
        }
        let i = self.current_index;
        if i >= self.tokens.len() {
            return Err(self.err_expected("a word"));
        }
        let name = match &self.tokens[i] {
            Token::Word(nm) => nm.clone(),
            _ => {
                return Err(self.err_expected("a word"));
            },
        };
        self.current_index = i + 1;
        let result = ASTNode::Value(Value::Word(name));
        if allow_ops && self.is_operation() {
            self.parse_operation(result, fuel - 1)
        } else if !from_call && self.peek_is_dollar() {
            self.parse_switch(result, fuel - 1)
        } else {
            Ok(result)
        }
    }

    /// Parses an identifier-headed form, as `spec_parse_ident` says.
    fn parse_ident(&mut self, from_call: bool, allow_ops: bool, fuel: usize) -> (r: Result<
        ASTNode,
        String,
    >)
        requires
            old(self).current_index < old(self).tokens@.len(),
        ensures
            final(self).tokens == old(self).tokens,
            match spec_parse_ident(
                old(self).tm(),
                old(self).current_index as int,
                from_call,
                allow_ops,
                fuel as nat,
            ) {
                Some(p) => r matches Ok(n) && n@ == p.0 && final(self).current_index as int == p.1,
                None => r is Err,
            },
        decreases fuel,
    {
        if fuel == 0 {
            return Err(nest_err());
        }
        let toklen = self.tokens.len();
        proof {
            reveal_with_fuel(view_ast, 8);
            reveal_with_fuel(view_value, 8);
            assert(self.tokens@.len() == toklen);
            assert(self.tm().len() == toklen);
            assert(forall|k: int|
                0 <= k < self.tokens@.len() ==> self.tm()[k] == self.tokens@[k]@);
        }
        let i = self.current_index;
        if i >= self.tokens.len() {
            return Err(self.err_expected("an identifier"));
        }
        let name = match &self.tokens[i] {
            Token::Ident(nm) => nm.clone(),
            _ => {
                return Err(self.err_expected("an identifier"));
            },
        };
        self.current_index = i + 1;
        if from_call {
            let result = ASTNode::Value(Value::Variable(name));
            if allow_ops && self.is_operation() {
                self.parse_operation(result, fuel - 1)
            } else if self.peek_is_dollar() {
                self.parse_switch(result, fuel - 1)
            } else {
                Ok(result)
            }
        } else if self.peek_is_equal() {
            self.current_index = self.current_index + 1;
            match self.parse_expression(false, true, fuel - 1) {
                Err(e) => Err(e),
                Ok(v) => Ok(ASTNode::Definition { name, value: Box::new(v) }),
            }
        } else {
            match self.parse_args(true, fuel - 1) {
                Err(e) => Err(e),
                Ok(args) => {
                    let result = if args.len() == 0 {
                        ASTNode::Value(Value::Variable(name))
                    } else {
                        ASTNode::Call { name, args }
                    };
                    if allow_ops && self.is_operation() {
                        self.parse_operation(result, fuel - 1)
                    } else if self.peek_is_period() {
                        self.current_index = self.current_index + 1;
                        Ok(result)
                    } else if self.peek_is_dollar() {
                        self.parse_switch(result, fuel - 1)
                    } else {
                        Ok(result)
                    }
                },
            }
        }
    }

    /// Parses an infix operator and its right operand, as
    /// `spec_parse_operation` says.
    fn parse_operation(&mut self, left: ASTNode, fuel: usize) -> (r: Result<ASTNode, String>)
        ensures
            final(self).tokens == old(self).tokens,
            match spec_parse_operation(
                old(self).tm(),
                old(self).current_index as int,
                view_ast(left),
                fuel as nat,
            ) {
                Some(p) => r matches Ok(n) && n@ == p.0 && final(self).current_index as int == p.1,
                None => r is Err,
            },
        decreases fuel,
    {
        if fuel == 0 {
            return Err(nest_err());
        }
        let toklen = self.tokens.len();
        proof {
            reveal_with_fuel(view_ast, 8);
            reveal_with_fuel(view_value, 8);
            assert(self.tokens@.len() == toklen);
            assert(self.tm().len() == toklen);
            assert(forall|k: int|
                0 <= k < self.tokens@.len() ==> self.tm()[k] == self.tokens@[k]@);
        }
        let i = self.current_index;
        if i >= self.tokens.len() {
            return Err(self.err_expected("an operator"));
        }
        let info = op_info(&self.tokens[i]);
        let (aops, arep, op) = match info {
            Some(x) => x,
            None => {
                return Err(self.err_expected("an operator"));
            },
        };
        self.current_index = i + 1;
        match self.parse_expression(true, aops, fuel - 1) {
            Err(_) => {
                self.current_index = i + 1;
                let y = char_vec1('Y');
                let y2 = char_vec1('Y');
                Ok(
                    ASTNode::Value(
                        Value::Lambda {
                            args_def: y,
                            content: Box::new(
                                ASTNode::Operation {
                                    left: Box::new(left),
                                    operation: op,
                                    right: Box::new(ASTNode::Value(Value::Variable(y2))),
                                },
                            ),
                        },
                    ),
                )
            },
            Ok(content) => {
                let tmp = ASTNode::Operation {
                    left: Box::new(left),
                    operation: op,
                    right: Box::new(content),
                };
                let step: Result<ASTNode, String> = if arep && self.is_operation() {
                    self.parse_operation(tmp, fuel - 1)
                } else {
                    Ok(tmp)
                };
                match step {
                    Err(e) => Err(e),
                    Ok(res) => {
                        if self.peek_is_dollar() {
                            self.parse_switch(res, fuel - 1)
                        } else {
                            Ok(res)
                        }
                    },
                }
            },
        }
    }

    /// Parses a leading operator as a partial application, as
    /// `spec_parse_partial_operation` says.
    fn parse_partial_operation(&mut self, fuel: usize) -> (r: Result<ASTNode, String>)
        ensures
            final(self).tokens == old(self).tokens,
            match spec_parse_partial_operation(
                old(self).tm(),
                old(self).current_index as int,
                fuel as nat,
            ) {
                Some(p) => r matches Ok(n) && n@ == p.0 && final(self).current_index as int == p.1,
                None => r is Err,
            },
        decreases fuel,
    {
        if fuel == 0 {
            return Err(nest_err());
        }
        let toklen = self.tokens.len();
        proof {
            reveal_with_fuel(view_ast, 8);
            reveal_with_fuel(view_value, 8);
            assert(self.tokens@.len() == toklen);
            assert(self.tm().len() == toklen);
            assert(forall|k: int|
                0 <= k < self.tokens@.len() ==> self.tm()[k] == self.tokens@[k]@);
        }
        let x0 = char_vec1('X');
        match self.parse_operation(ASTNode::Value(Value::Variable(x0)), fuel - 1) {
            Err(e) => Err(e),
            Ok(result) => {
                let fused: (Vec<char>, Box<ASTNode>) = match result {
                    ASTNode::Value(Value::Lambda { args_def: ad2, content: ct2 }) => {
                        let mut x = char_vec1('X');
                        let mut a2 = ad2;
                        x.append(&mut a2);
                        (x, ct2)
                    },
                    other => (char_vec1('X'), Box::new(other)),
                };
                Ok(ASTNode::Value(Value::Lambda { args_def: fused.0, content: fused.1 }))
            },
        }
    }

    /// Parses a switch applied to a compared expression, as
    /// `spec_parse_switch` says.
    fn parse_switch(&mut self, compared: ASTNode, fuel: usize) -> (r: Result<ASTNode, String>)
        requires
            old(self).current_index < old(self).tokens@.len(),
        ensures
            final(self).tokens == old(self).tokens,
            match spec_parse_switch(
                old(self).tm(),
                old(self).current_index as int,
                view_ast(compared),
                fuel as nat,
            ) {
                Some(p) => r matches Ok(n) && n@ == p.0 && final(self).current_index as int == p.1,
                None => r is Err,
            },
        decreases fuel,
    {
        if fuel == 0 {
            return Err(nest_err());
        }
        let toklen = self.tokens.len();
        proof {
            reveal_with_fuel(view_ast, 8);
            reveal_with_fuel(view_value, 8);
            assert(self.tokens@.len() == toklen);
            assert(self.tm().len() == toklen);
            assert(forall|k: int|
                0 <= k < self.tokens@.len() ==> self.tm()[k] == self.tokens@[k]@);
        }
        let i = self.current_index;
        self.current_index = i + 1;
        if !self.peek_is_open_brace() {
            return Err(self.err_expected("an opening brace"));
        }
        self.current_index = i + 2;
        match self.parse_cases(fuel - 1) {
            Err(e) => Err(e),
            Ok(cases) => {
                if self.peek_is_close_brace() {
                    self.current_index = self.current_index + 1;
                    Ok(ASTNode::Switch { compared: Box::new(compared), cases })
                } else {
                    Err(self.err_expected("a closing brace"))
                }
            },
        }
    }

    /// Collects switch cases, as `spec_parse_cases` says.
    fn parse_cases(&mut self, fuel: usize) -> (r: Result<Vec<(ASTNode, ASTNode)>, String>)
        ensures
            final(self).tokens == old(self).tokens,
            match spec_parse_cases(old(self).tm(), old(self).current_index as int, fuel as nat) {
                Some(p) => r matches Ok(v) && view_case_seq(v@) == p.0 && final(self).current_index as int == p.1,
                None => r is Err,
            },
        decreases fuel,
    {
        if fuel == 0 {
            return Err(nest_err());
        }
        let toklen = self.tokens.len();
        proof {
            reveal_with_fuel(view_ast, 8);
            reveal_with_fuel(view_value, 8);
            assert(self.tokens@.len() == toklen);
            assert(self.tm().len() == toklen);
            assert(forall|k: int|
                0 <= k < self.tokens@.len() ==> self.tm()[k] == self.tokens@[k]@);
        }
        if self.is_empty() || self.is_delimiter() {
            let v: Vec<(ASTNode, ASTNode)> = Vec::new();
            proof {
                assert(view_case_seq(v@) =~= Seq::<(AstModel, AstModel)>::empty());
            }
            return Ok(v);
        }
        match self.parse_expression(true, false, fuel - 1) {
            Err(e) => Err(e),
            Ok(case) => {
                if !self.peek_is_arrow() {
                    return Err(self.err_expected("an arrow after a case"));
                }
                self.current_index = self.current_index + 1;
                match self.parse_expression(true, true, fuel - 1) {
                    Err(e) => Err(e),
                    Ok(action) => match self.parse_cases(fuel - 1) {
                        Err(e) => Err(e),
                        Ok(rest) => Ok(prepend_case((case, action), rest)),
                    },
                }
            },
        }
    }

    /// Parses expressions until the tokens are exhausted, as
    /// `spec_parse_program` says.
    fn parse_program(&mut self, fuel: usize) -> (r: Result<Vec<ASTNode>, String>)
        ensures
            final(self).tokens == old(self).tokens,
            match spec_parse_program(old(self).tm(), old(self).current_index as int, fuel as nat) {
                Some(ns) => r matches Ok(v) && view_ast_seq(v@) == ns,
                None => r is Err,
            },
        decreases fuel,
    {
        if self.is_empty() {
            let v: Vec<ASTNode> = Vec::new();
            proof {
                assert(view_ast_seq(v@) =~= Seq::<AstModel>::empty());
            }
            return Ok(v);
        }
        if fuel == 0 {
            return Err(nest_err());
        }
        let toklen = self.tokens.len();
        proof {
            reveal_with_fuel(view_ast, 8);
            reveal_with_fuel(view_value, 8);
            assert(self.tokens@.len() == toklen);
            assert(self.tm().len() == toklen);
            assert(forall|k: int|
                0 <= k < self.tokens@.len() ==> self.tm()[k] == self.tokens@[k]@);
        }
        if self.peek_is_period() {
            self.current_index = self.current_index + 1;
            return self.parse_program(fuel - 1);
        }
        match self.parse_expression(false, true, fuel - 1) {
            Err(e) => Err(e),
            Ok(n) => match self.parse_program(fuel - 1) {
                Err(e) => Err(e),
                Ok(rest) => Ok(prepend_node(n, rest)),
            },
        }
    }

    /// Parses the whole token stream from the cursor on.
    pub fn parse(&mut self) -> (r: Result<Vec<ASTNode>, String>)
        ensures
            final(self).tokens == old(self).tokens,
            match spec_parse_program(
                old(self).tm(),
                old(self).current_index as int,
                spec_parse_fuel(old(self).tm().len()),
            ) {
                Some(ns) => r matches Ok(v) && view_ast_seq(v@) == ns,
                None => r is Err,
            },
    {
        let fuel = parse_fuel(self.tokens.len());
        self.parse_program(fuel)
    }
}

/// The fuel the parser grants a token sequence of the given length.
fn parse_fuel(len: usize) -> (f: usize)
    ensures
        f as nat == spec_parse_fuel(len as nat),
{
    match len.checked_mul(100) {
        Option::None => usize::MAX,
        Option::Some(x) => match x.checked_add(1000) {
            Option::None => usize::MAX,
            Option::Some(y) => y,
        },
    }
}

/// The parse of a source text: its token sequence when lexing succeeds, then
/// its program.
pub open spec fn spec_source_parse(s: Seq<char>) -> Option<Seq<AstModel>> {
    match crate::lexer::spec_lex(s, 0) {
        Option::None => Option::None,
        Option::Some(ts) => spec_parse(ts),
    }
}

/// Lexes and parses a source text into its program, one node per top-level
/// expression.
pub fn parse(source: &str) -> (r: Result<Vec<ASTNode>, String>)
    ensures
        match spec_source_parse(source@) {
            Some(ns) => r matches Ok(v) && view_ast_seq(v@) == ns,
            None => r is Err,
        },
{
    match crate::lexer::lex(source) {
        Err(e) => Err(e),
        Ok(tokens) => {
            let mut p = ParseableIter::new(tokens);
            p.parse()
        },
    }
}

} // verus!
