use vstd::prelude::*;

verus! {

/// A lexical token of the language. Identifier and word payloads are held as
/// character vectors; integer literals as 128-bit signed values.
#[derive(Debug)]
pub enum Token {
    OpenParen,
    CloseParen,
    OpenBrace,
    CloseBrace,
    OpenBracket,
    CloseBracket,
    Exclam,
    Bar,
    Underscore,
    Plus,
    Minus,
    Asterisk,
    Slash,
    Circumflex,
    Equal,
    NotEqual,
    Less,
    Greater,
    LessEqual,
    GreaterEqual,
    Arrow,
    Lambda,
    Period,
    Dollar,
    Ident(Vec<char>),
    Word(Vec<char>),
    Integer(i128),
}

/// The mathematical model of a token: payloads are character sequences.
#[verifier::ext_equal]
pub enum TokenModel {
    OpenParen,
    CloseParen,
    OpenBrace,
    CloseBrace,
    OpenBracket,
    CloseBracket,
    Exclam,
    Bar,
    Underscore,
    Plus,
    Minus,
    Asterisk,
    Slash,
    Circumflex,
    Equal,
    NotEqual,
    Less,
    Greater,
    LessEqual,
    GreaterEqual,
    Arrow,
    Lambda,
    Period,
    Dollar,
    Ident(Seq<char>),
    Word(Seq<char>),
    Integer(i128),
}

impl View for Token {
    type V = TokenModel;

    open spec fn view(&self) -> TokenModel {
        match self {
            Token::OpenParen => TokenModel::OpenParen,
            Token::CloseParen => TokenModel::CloseParen,
            Token::OpenBrace => TokenModel::OpenBrace,
            Token::CloseBrace => TokenModel::CloseBrace,
            Token::OpenBracket => TokenModel::OpenBracket,
            Token::CloseBracket => TokenModel::CloseBracket,
            Token::Exclam => TokenModel::Exclam,
            Token::Bar => TokenModel::Bar,
            Token::Underscore => TokenModel::Underscore,
            Token::Plus => TokenModel::Plus,
            Token::Minus => TokenModel::Minus,
            Token::Asterisk => TokenModel::Asterisk,
            Token::Slash => TokenModel::Slash,
            Token::Circumflex => TokenModel::Circumflex,
            Token::Equal => TokenModel::Equal,
            Token::NotEqual => TokenModel::NotEqual,
            Token::Less => TokenModel::Less,
            Token::Greater => TokenModel::Greater,
            Token::LessEqual => TokenModel::LessEqual,
            Token::GreaterEqual => TokenModel::GreaterEqual,
            Token::Arrow => TokenModel::Arrow,
            Token::Lambda => TokenModel::Lambda,
            Token::Period => TokenModel::Period,
            Token::Dollar => TokenModel::Dollar,
            Token::Ident(s) => TokenModel::Ident(s@),
            Token::Word(s) => TokenModel::Word(s@),
            Token::Integer(n) => TokenModel::Integer(*n),
        }
    }
}

/// The model of a whole token stream.
pub open spec fn toks_view(s: Seq<Token>) -> Seq<TokenModel> {
    s.map_values(|t: Token| t@)
}

} // verus!
