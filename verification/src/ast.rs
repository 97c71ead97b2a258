use vstd::prelude::*;

verus! {

/// An infix operator of the language.
#[derive(Clone, Copy, PartialEq, Eq, Structural, Debug)]
pub enum Operation {
    Addition,
    Substraction,
    Multiplication,
    Division,
    Exponent,
    LessEqual,
    Less,
    Greater,
    GreaterEqual,
    Equal,
    NotEqual,
}

/// A runtime value. A Decimal carries the bit pattern of an IEEE-754
/// binary64 number. A Variable exists only transiently inside parsed
/// syntax and is never returned from evaluation.
#[derive(Debug)]
pub enum Value {
    NoneVal,
    Variable(Vec<char>),
    Integer(i128),
    Decimal(u64),
    Word(Vec<char>),
    Lambda { args_def: Vec<char>, content: Box<ASTNode> },
}

/// A node of the abstract syntax tree.
#[derive(Debug)]
pub enum ASTNode {
    Nothing,
    Value(Value),
    Definition { name: Vec<char>, value: Box<ASTNode> },
    LambdaCall { lambda: Box<Value>, args: Vec<ASTNode> },
    Call { name: Vec<char>, args: Vec<ASTNode> },
    Switch { compared: Box<ASTNode>, cases: Vec<(ASTNode, ASTNode)> },
    RationalPart(Box<ASTNode>),
    IntegerPart(Box<ASTNode>),
    Print(Box<ASTNode>),
    Operation { left: Box<ASTNode>, operation: Operation, right: Box<ASTNode> },
}

/// The mathematical model of a runtime value.
#[verifier::ext_equal]
pub enum ValueModel {
    NoneVal,
    Variable(Seq<char>),
    Integer(i128),
    Decimal(u64),
    Word(Seq<char>),
    Lambda { args_def: Seq<char>, content: Box<AstModel> },
}

/// The mathematical model of a syntax-tree node.
#[verifier::ext_equal]
pub enum AstModel {
    Nothing,
    Value(ValueModel),
    Definition { name: Seq<char>, value: Box<AstModel> },
    LambdaCall { lambda: Box<ValueModel>, args: Seq<AstModel> },
    Call { name: Seq<char>, args: Seq<AstModel> },
    Switch { compared: Box<AstModel>, cases: Seq<(AstModel, AstModel)> },
    RationalPart(Box<AstModel>),
    IntegerPart(Box<AstModel>),
    Print(Box<AstModel>),
    Operation { left: Box<AstModel>, operation: Operation, right: Box<AstModel> },
}

/// The model of a value.
pub open spec fn view_value(v: Value) -> ValueModel
    decreases v,
{
    match v {
        Value::NoneVal => ValueModel::NoneVal,
        Value::Variable(name) => ValueModel::Variable(name@),
        Value::Integer(n) => ValueModel::Integer(n),
        Value::Decimal(b) => ValueModel::Decimal(b),
        Value::Word(w) => ValueModel::Word(w@),
        Value::Lambda { args_def, content } => ValueModel::Lambda {
            args_def: args_def@,
            content: Box::new(view_ast(*content)),
        },
    }
}

/// The model of a syntax-tree node.
pub open spec fn view_ast(n: ASTNode) -> AstModel
    decreases n,
{
    match n {
        ASTNode::Nothing => AstModel::Nothing,
        ASTNode::Value(v) => AstModel::Value(view_value(v)),
        ASTNode::Definition { name, value } => AstModel::Definition {
            name: name@,
            value: Box::new(view_ast(*value)),
        },
        ASTNode::LambdaCall { lambda, args } => AstModel::LambdaCall {
            lambda: Box::new(view_value(*lambda)),
            args: view_ast_seq(args@),
        },
        ASTNode::Call { name, args } => AstModel::Call { name: name@, args: view_ast_seq(args@) },
        ASTNode::Switch { compared, cases } => AstModel::Switch {
            compared: Box::new(view_ast(*compared)),
            cases: view_case_seq(cases@),
        },
        ASTNode::RationalPart(x) => AstModel::RationalPart(Box::new(view_ast(*x))),
        ASTNode::IntegerPart(x) => AstModel::IntegerPart(Box::new(view_ast(*x))),
        ASTNode::Print(x) => AstModel::Print(Box::new(view_ast(*x))),
        ASTNode::Operation { left, operation, right } => AstModel::Operation {
            left: Box::new(view_ast(*left)),
            operation,
            right: Box::new(view_ast(*right)),
        },
    }
}

/// The models of a sequence of nodes.
pub open spec fn view_ast_seq(s: Seq<ASTNode>) -> Seq<AstModel>
    decreases s,
{
    if s.len() == 0 {
        Seq::empty()
    } else {
        view_ast_seq(s.drop_last()).push(view_ast(s.last()))
    }
}

/// The models of a sequence of switch cases.
pub open spec fn view_case_seq(s: Seq<(ASTNode, ASTNode)>) -> Seq<(AstModel, AstModel)>
    decreases s,
{
    if s.len() == 0 {
        Seq::empty()
    } else {
        view_case_seq(s.drop_last()).push(
            (view_ast(s.last().0), view_ast(s.last().1)),
        )
    }
}

impl View for Value {
    type V = ValueModel;

    open spec fn view(&self) -> ValueModel {
        view_value(*self)
    }
}

impl View for ASTNode {
    type V = AstModel;

    open spec fn view(&self) -> AstModel {
        view_ast(*self)
    }
}

pub broadcast proof fn lemma_view_ast_seq_len(s: Seq<ASTNode>)
    ensures
        (#[trigger] view_ast_seq(s)).len() == s.len(),
        forall|i: int| 0 <= i < s.len() ==> view_ast_seq(s)[i] == view_ast(s[i]),
    decreases s,
{
    if s.len() > 0 {
        lemma_view_ast_seq_len(s.drop_last());
    }
}

pub broadcast proof fn lemma_view_case_seq_len(s: Seq<(ASTNode, ASTNode)>)
    ensures
        (#[trigger] view_case_seq(s)).len() == s.len(),
        forall|i: int|
            0 <= i < s.len() ==> view_case_seq(s)[i] == (view_ast(s[i].0), view_ast(s[i].1)),
    decreases s,
{
    if s.len() > 0 {
        lemma_view_case_seq_len(s.drop_last());
    }
}

/// A deep copy of a value; the copy has the same model.
pub fn clone_value(v: &Value) -> (r: Value)
    ensures
        r@ == v@,
    decreases *v,
{
    match v {
        Value::NoneVal => Value::NoneVal,
        Value::Variable(name) => Value::Variable(name.clone()),
        Value::Integer(n) => Value::Integer(*n),
        Value::Decimal(b) => Value::Decimal(*b),
        Value::Word(w) => Value::Word(w.clone()),
        Value::Lambda { args_def, content } => Value::Lambda {
            args_def: args_def.clone(),
            content: Box::new(clone_ast(&**content)),
        },
    }
}

/// A deep copy of a syntax-tree node; the copy has the same model.
pub fn clone_ast(n: &ASTNode) -> (r: ASTNode)
    ensures
        r@ == n@,
    decreases *n,
{
    match n {
        ASTNode::Nothing => ASTNode::Nothing,
        ASTNode::Value(v) => ASTNode::Value(clone_value(v)),
        ASTNode::Definition { name, value } => ASTNode::Definition {
            name: name.clone(),
            value: Box::new(clone_ast(&**value)),
        },
        ASTNode::LambdaCall { lambda, args } => ASTNode::LambdaCall {
            lambda: Box::new(clone_value(&**lambda)),
            args: clone_ast_vec(args),
        },
        ASTNode::Call { name, args } => ASTNode::Call {
            name: name.clone(),
            args: clone_ast_vec(args),
        },
        ASTNode::Switch { compared, cases } => ASTNode::Switch {
            compared: Box::new(clone_ast(&**compared)),
            cases: clone_case_vec(cases),
        },
        ASTNode::RationalPart(x) => ASTNode::RationalPart(Box::new(clone_ast(&**x))),
        ASTNode::IntegerPart(x) => ASTNode::IntegerPart(Box::new(clone_ast(&**x))),
        ASTNode::Print(x) => ASTNode::Print(Box::new(clone_ast(&**x))),
        ASTNode::Operation { left, operation, right } => ASTNode::Operation {
            left: Box::new(clone_ast(&**left)),
            operation: *operation,
            right: Box::new(clone_ast(&**right)),
        },
    }
}

/// A deep copy of a vector of nodes; the copy has the same models.
pub fn clone_ast_vec(s: &Vec<ASTNode>) -> (r: Vec<ASTNode>)
    ensures
        view_ast_seq(r@) == view_ast_seq(s@),
        r@.len() == s@.len(),
    decreases *s,
{
    let mut r: Vec<ASTNode> = Vec::new();
    let n = s.len();
    let mut i: usize = 0;
    proof {
        lemma_view_ast_seq_len(s@);
    }
    while i < n
        invariant
            i <= n,
            n == s@.len(),
            r@.len() == i,
            forall|k: int| 0 <= k < i ==> view_ast(r@[k]) == view_ast(s@[k]),
        decreases n - i,
    {
        proof {
            assert(decreases_to!(*s => s@[i as int]));
        }
        let c = clone_ast(&s[i]);
        r.push(c);
        i += 1;
    }
    proof {
        lemma_view_ast_seq_len(r@);
        assert(view_ast_seq(r@) =~= view_ast_seq(s@));
    }
    r
}

/// A deep copy of a vector of switch cases; the copy has the same models.
pub fn clone_case_vec(s: &Vec<(ASTNode, ASTNode)>) -> (r: Vec<(ASTNode, ASTNode)>)
    ensures
        view_case_seq(r@) == view_case_seq(s@),
        r@.len() == s@.len(),
    decreases *s,
{
    let mut r: Vec<(ASTNode, ASTNode)> = Vec::new();
    let n = s.len();
    let mut i: usize = 0;
    proof {
        lemma_view_case_seq_len(s@);
    }
    while i < n
        invariant
            i <= n,
            n == s@.len(),
            r@.len() == i,
            forall|k: int|
                0 <= k < i ==> view_ast(r@[k].0) == view_ast(s@[k].0) && view_ast(r@[k].1)
                    == view_ast(s@[k].1),
        decreases n - i,
    {
        proof {
            assert(decreases_to!(*s => s@[i as int]));
        }
        let c0 = clone_ast(&s[i].0);
        let c1 = clone_ast(&s[i].1);
        r.push((c0, c1));
        i += 1;
    }
    proof {
        lemma_view_case_seq_len(r@);
        assert(view_case_seq(r@) =~= view_case_seq(s@));
    }
    r
}

} // verus!
