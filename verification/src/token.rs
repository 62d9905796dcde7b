//! Tokens: what the parser reads.
use crate::text::{concat3, debug_text, quote};
use vstd::prelude::*;

verus! {

/// Where a token begins in the source.
#[derive(Debug, Clone, Copy, PartialEq, Eq, Structural)]
pub struct Span {
    pub line: usize,
    pub column: usize,
}

/// Reserved words.
#[derive(Debug, Clone, Copy, PartialEq, Eq, Structural)]
pub enum Keyword {
    Let,
    Mut,
    Fn,
    Async,
    Await,
    Struct,
    Enum,
    Trait,
    Impl,
    Dyn,
    Mod,
    Use,
    Import,
    Pub,
    Const,
    Static,
    Type,
    Where,
    SelfValue,
    SelfType,
    If,
    Else,
    Match,
    Case,
    Loop,
    While,
    For,
    In,
    Do,
    Break,
    Continue,
    Return,
    Yield,
    As,
    Borrow,
    Move,
    Unsafe,
    Try,
    Catch,
    Throw,
    Spawn,
    Select,
    Actor,
    State,
    On,
    Server,
    Listen,
    Table,
    Index,
    Schema,
    Query,
    Insert,
    Update,
    Delete,
    Ui,
    Component,
    Prop,
    Render,
    Mount,
    Unmount,
    Style,
    Layout,
    Bind,
    Option,
    Result,
    SomeValue,
    NoneValue,
    OkValue,
    ErrValue,
}

/// Operators and operator-like symbols.
#[derive(Debug, Clone, Copy, PartialEq, Eq, Structural)]
pub enum Op {
    Plus,
    Minus,
    Star,
    Slash,
    Percent,
    StarStar,
    EqEq,
    NotEq,
    Lt,
    Gt,
    LtEq,
    GtEq,
    AndAnd,
    OrOr,
    Not,
    Amp,
    Pipe,
    Caret,
    Tilde,
    Shl,
    Shr,
    Question,
    QuestionQuestion,
    Dot,
    DotDot,
    DotDotEq,
    Eq,
    PlusEq,
    MinusEq,
    StarEq,
    SlashEq,
    PercentEq,
    AmpEq,
    PipeEq,
    CaretEq,
    ShlEq,
    ShrEq,
    Arrow,
    FatArrow,
    ColonColon,
    At,
    Hash,
}

/// Brackets and separators.
#[derive(Debug, Clone, Copy, PartialEq, Eq, Structural)]
pub enum Delim {
    LParen,
    RParen,
    LBrace,
    RBrace,
    LBracket,
    RBracket,
    Comma,
    Semi,
    Colon,
}

/// The kind of a token; literals keep their source text. `Error` stands for text that
/// was not a token, and `Eof` ends a stream.
#[derive(Debug, Clone, PartialEq)]
pub enum TokenKind {
    Ident(String),
    Keyword(Keyword),
    Int(String),
    IntHex(String),
    IntOct(String),
    IntBin(String),
    Float(String),
    Str(String),
    RawStr(String),
    Char(String),
    Bool(bool),
    Null,
    Op(Op),
    Delim(Delim),
    DocComment(String),
    Error(String),
    Eof,
}

/// A token and where it stands.
#[derive(Debug, Clone, PartialEq)]
pub struct Token {
    pub kind: TokenKind,
    pub span: Span,
}

impl Keyword {
    /// The text in a source file.
    #[verifier::opaque]
    pub open spec fn source(self) -> Seq<char> {
        match self {
            Keyword::Let => "let"@,
            Keyword::Mut => "mut"@,
            Keyword::Fn => "fn"@,
            Keyword::Async => "async"@,
            Keyword::Await => "await"@,
            Keyword::Struct => "struct"@,
            Keyword::Enum => "enum"@,
            Keyword::Trait => "trait"@,
            Keyword::Impl => "impl"@,
            Keyword::Dyn => "dyn"@,
            Keyword::Mod => "mod"@,
            Keyword::Use => "use"@,
            Keyword::Import => "import"@,
            Keyword::Pub => "pub"@,
            Keyword::Const => "const"@,
            Keyword::Static => "static"@,
            Keyword::Type => "type"@,
            Keyword::Where => "where"@,
            Keyword::SelfValue => "self"@,
            Keyword::SelfType => "Self"@,
            Keyword::If => "if"@,
            Keyword::Else => "else"@,
            Keyword::Match => "match"@,
            Keyword::Case => "case"@,
            Keyword::Loop => "loop"@,
            Keyword::While => "while"@,
            Keyword::For => "for"@,
            Keyword::In => "in"@,
            Keyword::Do => "do"@,
            Keyword::Break => "break"@,
            Keyword::Continue => "continue"@,
            Keyword::Return => "return"@,
            Keyword::Yield => "yield"@,
            Keyword::As => "as"@,
            Keyword::Borrow => "borrow"@,
            Keyword::Move => "move"@,
            Keyword::Unsafe => "unsafe"@,
            Keyword::Try => "try"@,
            Keyword::Catch => "catch"@,
            Keyword::Throw => "throw"@,
            Keyword::Spawn => "spawn"@,
            Keyword::Select => "select"@,
            Keyword::Actor => "actor"@,
            Keyword::State => "state"@,
            Keyword::On => "on"@,
            Keyword::Server => "server"@,
            Keyword::Listen => "listen"@,
            Keyword::Table => "table"@,
            Keyword::Index => "index"@,
            Keyword::Schema => "schema"@,
            Keyword::Query => "query"@,
            Keyword::Insert => "insert"@,
            Keyword::Update => "update"@,
            Keyword::Delete => "delete"@,
            Keyword::Ui => "ui"@,
            Keyword::Component => "component"@,
            Keyword::Prop => "prop"@,
            Keyword::Render => "render"@,
            Keyword::Mount => "mount"@,
            Keyword::Unmount => "unmount"@,
            Keyword::Style => "style"@,
            Keyword::Layout => "layout"@,
            Keyword::Bind => "bind"@,
            Keyword::Option => "Option"@,
            Keyword::Result => "Result"@,
            Keyword::SomeValue => "Some"@,
            Keyword::NoneValue => "None"@,
            Keyword::OkValue => "Ok"@,
            Keyword::ErrValue => "Err"@,
        }
    }

    pub fn as_source_text(self) -> (r: &'static str)
        ensures
            r@ == self.source(),
    {
        proof {
            reveal(Keyword::source);
        }
        match self {
            Keyword::Let => "let",
            Keyword::Mut => "mut",
            Keyword::Fn => "fn",
            Keyword::Async => "async",
            Keyword::Await => "await",
            Keyword::Struct => "struct",
            Keyword::Enum => "enum",
            Keyword::Trait => "trait",
            Keyword::Impl => "impl",
            Keyword::Dyn => "dyn",
            Keyword::Mod => "mod",
            Keyword::Use => "use",
            Keyword::Import => "import",
            Keyword::Pub => "pub",
            Keyword::Const => "const",
            Keyword::Static => "static",
            Keyword::Type => "type",
            Keyword::Where => "where",
            Keyword::SelfValue => "self",
            Keyword::SelfType => "Self",
            Keyword::If => "if",
            Keyword::Else => "else",
            Keyword::Match => "match",
            Keyword::Case => "case",
            Keyword::Loop => "loop",
            Keyword::While => "while",
            Keyword::For => "for",
            Keyword::In => "in",
            Keyword::Do => "do",
            Keyword::Break => "break",
            Keyword::Continue => "continue",
            Keyword::Return => "return",
            Keyword::Yield => "yield",
            Keyword::As => "as",
            Keyword::Borrow => "borrow",
            Keyword::Move => "move",
            Keyword::Unsafe => "unsafe",
            Keyword::Try => "try",
            Keyword::Catch => "catch",
            Keyword::Throw => "throw",
            Keyword::Spawn => "spawn",
            Keyword::Select => "select",
            Keyword::Actor => "actor",
            Keyword::State => "state",
            Keyword::On => "on",
            Keyword::Server => "server",
            Keyword::Listen => "listen",
            Keyword::Table => "table",
            Keyword::Index => "index",
            Keyword::Schema => "schema",
            Keyword::Query => "query",
            Keyword::Insert => "insert",
            Keyword::Update => "update",
            Keyword::Delete => "delete",
            Keyword::Ui => "ui",
            Keyword::Component => "component",
            Keyword::Prop => "prop",
            Keyword::Render => "render",
            Keyword::Mount => "mount",
            Keyword::Unmount => "unmount",
            Keyword::Style => "style",
            Keyword::Layout => "layout",
            Keyword::Bind => "bind",
            Keyword::Option => "Option",
            Keyword::Result => "Result",
            Keyword::SomeValue => "Some",
            Keyword::NoneValue => "None",
            Keyword::OkValue => "Ok",
            Keyword::ErrValue => "Err",
        }
    }

    /// How a diagnostic names it.
    #[verifier::opaque]
    pub open spec fn name(self) -> Seq<char> {
        match self {
            Keyword::Let => "Let"@,
            Keyword::Mut => "Mut"@,
            Keyword::Fn => "Fn"@,
            Keyword::Async => "Async"@,
            Keyword::Await => "Await"@,
            Keyword::Struct => "Struct"@,
            Keyword::Enum => "Enum"@,
            Keyword::Trait => "Trait"@,
            Keyword::Impl => "Impl"@,
            Keyword::Dyn => "Dyn"@,
            Keyword::Mod => "Mod"@,
            Keyword::Use => "Use"@,
            Keyword::Import => "Import"@,
            Keyword::Pub => "Pub"@,
            Keyword::Const => "Const"@,
            Keyword::Static => "Static"@,
            Keyword::Type => "Type"@,
            Keyword::Where => "Where"@,
            Keyword::SelfValue => "SelfValue"@,
            Keyword::SelfType => "SelfType"@,
            Keyword::If => "If"@,
            Keyword::Else => "Else"@,
            Keyword::Match => "Match"@,
            Keyword::Case => "Case"@,
            Keyword::Loop => "Loop"@,
            Keyword::While => "While"@,
            Keyword::For => "For"@,
            Keyword::In => "In"@,
            Keyword::Do => "Do"@,
            Keyword::Break => "Break"@,
            Keyword::Continue => "Continue"@,
            Keyword::Return => "Return"@,
            Keyword::Yield => "Yield"@,
            Keyword::As => "As"@,
            Keyword::Borrow => "Borrow"@,
            Keyword::Move => "Move"@,
            Keyword::Unsafe => "Unsafe"@,
            Keyword::Try => "Try"@,
            Keyword::Catch => "Catch"@,
            Keyword::Throw => "Throw"@,
            Keyword::Spawn => "Spawn"@,
            Keyword::Select => "Select"@,
            Keyword::Actor => "Actor"@,
            Keyword::State => "State"@,
            Keyword::On => "On"@,
            Keyword::Server => "Server"@,
            Keyword::Listen => "Listen"@,
            Keyword::Table => "Table"@,
            Keyword::Index => "Index"@,
            Keyword::Schema => "Schema"@,
            Keyword::Query => "Query"@,
            Keyword::Insert => "Insert"@,
            Keyword::Update => "Update"@,
            Keyword::Delete => "Delete"@,
            Keyword::Ui => "Ui"@,
            Keyword::Component => "Component"@,
            Keyword::Prop => "Prop"@,
            Keyword::Render => "Render"@,
            Keyword::Mount => "Mount"@,
            Keyword::Unmount => "Unmount"@,
            Keyword::Style => "Style"@,
            Keyword::Layout => "Layout"@,
            Keyword::Bind => "Bind"@,
            Keyword::Option => "Option"@,
            Keyword::Result => "Result"@,
            Keyword::SomeValue => "Some"@,
            Keyword::NoneValue => "None"@,
            Keyword::OkValue => "Ok"@,
            Keyword::ErrValue => "Err"@,
        }
    }

    pub fn variant_name(self) -> (r: &'static str)
        ensures
            r@ == self.name(),
    {
        proof {
            reveal(Keyword::name);
        }
        match self {
            Keyword::Let => "Let",
            Keyword::Mut => "Mut",
            Keyword::Fn => "Fn",
            Keyword::Async => "Async",
            Keyword::Await => "Await",
            Keyword::Struct => "Struct",
            Keyword::Enum => "Enum",
            Keyword::Trait => "Trait",
            Keyword::Impl => "Impl",
            Keyword::Dyn => "Dyn",
            Keyword::Mod => "Mod",
            Keyword::Use => "Use",
            Keyword::Import => "Import",
            Keyword::Pub => "Pub",
            Keyword::Const => "Const",
            Keyword::Static => "Static",
            Keyword::Type => "Type",
            Keyword::Where => "Where",
            Keyword::SelfValue => "SelfValue",
            Keyword::SelfType => "SelfType",
            Keyword::If => "If",
            Keyword::Else => "Else",
            Keyword::Match => "Match",
            Keyword::Case => "Case",
            Keyword::Loop => "Loop",
            Keyword::While => "While",
            Keyword::For => "For",
            Keyword::In => "In",
            Keyword::Do => "Do",
            Keyword::Break => "Break",
            Keyword::Continue => "Continue",
            Keyword::Return => "Return",
            Keyword::Yield => "Yield",
            Keyword::As => "As",
            Keyword::Borrow => "Borrow",
            Keyword::Move => "Move",
            Keyword::Unsafe => "Unsafe",
            Keyword::Try => "Try",
            Keyword::Catch => "Catch",
            Keyword::Throw => "Throw",
            Keyword::Spawn => "Spawn",
            Keyword::Select => "Select",
            Keyword::Actor => "Actor",
            Keyword::State => "State",
            Keyword::On => "On",
            Keyword::Server => "Server",
            Keyword::Listen => "Listen",
            Keyword::Table => "Table",
            Keyword::Index => "Index",
            Keyword::Schema => "Schema",
            Keyword::Query => "Query",
            Keyword::Insert => "Insert",
            Keyword::Update => "Update",
            Keyword::Delete => "Delete",
            Keyword::Ui => "Ui",
            Keyword::Component => "Component",
            Keyword::Prop => "Prop",
            Keyword::Render => "Render",
            Keyword::Mount => "Mount",
            Keyword::Unmount => "Unmount",
            Keyword::Style => "Style",
            Keyword::Layout => "Layout",
            Keyword::Bind => "Bind",
            Keyword::Option => "Option",
            Keyword::Result => "Result",
            Keyword::SomeValue => "Some",
            Keyword::NoneValue => "None",
            Keyword::OkValue => "Ok",
            Keyword::ErrValue => "Err",
        }
    }
}

impl Op {
    /// The text in a source file.
    #[verifier::opaque]
    pub open spec fn source(self) -> Seq<char> {
        match self {
            Op::Plus => "+"@,
            Op::Minus => "-"@,
            Op::Star => "*"@,
            Op::Slash => "/"@,
            Op::Percent => "%"@,
            Op::StarStar => "**"@,
            Op::EqEq => "=="@,
            Op::NotEq => "!="@,
            Op::Lt => "<"@,
            Op::Gt => ">"@,
            Op::LtEq => "<="@,
            Op::GtEq => ">="@,
            Op::AndAnd => "&&"@,
            Op::OrOr => "||"@,
            Op::Not => "!"@,
            Op::Amp => "&"@,
            Op::Pipe => "|"@,
            Op::Caret => "^"@,
            Op::Tilde => "~"@,
            Op::Shl => "<<"@,
            Op::Shr => ">>"@,
            Op::Question => "?"@,
            Op::QuestionQuestion => "??"@,
            Op::Dot => "."@,
            Op::DotDot => ".."@,
            Op::DotDotEq => "..="@,
            Op::Eq => "="@,
            Op::PlusEq => "+="@,
            Op::MinusEq => "-="@,
            Op::StarEq => "*="@,
            Op::SlashEq => "/="@,
            Op::PercentEq => "%="@,
            Op::AmpEq => "&="@,
            Op::PipeEq => "|="@,
            Op::CaretEq => "^="@,
            Op::ShlEq => "<<="@,
            Op::ShrEq => ">>="@,
            Op::Arrow => "->"@,
            Op::FatArrow => "=>"@,
            Op::ColonColon => "::"@,
            Op::At => "@"@,
            Op::Hash => "#"@,
        }
    }

    pub fn as_source_text(self) -> (r: &'static str)
        ensures
            r@ == self.source(),
    {
        proof {
            reveal(Op::source);
        }
        match self {
            Op::Plus => "+",
            Op::Minus => "-",
            Op::Star => "*",
            Op::Slash => "/",
            Op::Percent => "%",
            Op::StarStar => "**",
            Op::EqEq => "==",
            Op::NotEq => "!=",
            Op::Lt => "<",
            Op::Gt => ">",
            Op::LtEq => "<=",
            Op::GtEq => ">=",
            Op::AndAnd => "&&",
            Op::OrOr => "||",
            Op::Not => "!",
            Op::Amp => "&",
            Op::Pipe => "|",
            Op::Caret => "^",
            Op::Tilde => "~",
            Op::Shl => "<<",
            Op::Shr => ">>",
            Op::Question => "?",
            Op::QuestionQuestion => "??",
            Op::Dot => ".",
            Op::DotDot => "..",
            Op::DotDotEq => "..=",
            Op::Eq => "=",
            Op::PlusEq => "+=",
            Op::MinusEq => "-=",
            Op::StarEq => "*=",
            Op::SlashEq => "/=",
            Op::PercentEq => "%=",
            Op::AmpEq => "&=",
            Op::PipeEq => "|=",
            Op::CaretEq => "^=",
            Op::ShlEq => "<<=",
            Op::ShrEq => ">>=",
            Op::Arrow => "->",
            Op::FatArrow => "=>",
            Op::ColonColon => "::",
            Op::At => "@",
            Op::Hash => "#",
        }
    }

    /// How a diagnostic names it.
    #[verifier::opaque]
    pub open spec fn name(self) -> Seq<char> {
        match self {
            Op::Plus => "Plus"@,
            Op::Minus => "Minus"@,
            Op::Star => "Star"@,
            Op::Slash => "Slash"@,
            Op::Percent => "Percent"@,
            Op::StarStar => "StarStar"@,
            Op::EqEq => "EqEq"@,
            Op::NotEq => "NotEq"@,
            Op::Lt => "Lt"@,
            Op::Gt => "Gt"@,
            Op::LtEq => "LtEq"@,
            Op::GtEq => "GtEq"@,
            Op::AndAnd => "AndAnd"@,
            Op::OrOr => "OrOr"@,
            Op::Not => "Not"@,
            Op::Amp => "Amp"@,
            Op::Pipe => "Pipe"@,
            Op::Caret => "Caret"@,
            Op::Tilde => "Tilde"@,
            Op::Shl => "Shl"@,
            Op::Shr => "Shr"@,
            Op::Question => "Question"@,
            Op::QuestionQuestion => "QuestionQuestion"@,
            Op::Dot => "Dot"@,
            Op::DotDot => "DotDot"@,
            Op::DotDotEq => "DotDotEq"@,
            Op::Eq => "Eq"@,
            Op::PlusEq => "PlusEq"@,
            Op::MinusEq => "MinusEq"@,
            Op::StarEq => "StarEq"@,
            Op::SlashEq => "SlashEq"@,
            Op::PercentEq => "PercentEq"@,
            Op::AmpEq => "AmpEq"@,
            Op::PipeEq => "PipeEq"@,
            Op::CaretEq => "CaretEq"@,
            Op::ShlEq => "ShlEq"@,
            Op::ShrEq => "ShrEq"@,
            Op::Arrow => "Arrow"@,
            Op::FatArrow => "FatArrow"@,
            Op::ColonColon => "ColonColon"@,
            Op::At => "At"@,
            Op::Hash => "Hash"@,
        }
    }

    pub fn variant_name(self) -> (r: &'static str)
        ensures
            r@ == self.name(),
    {
        proof {
            reveal(Op::name);
        }
        match self {
            Op::Plus => "Plus",
            Op::Minus => "Minus",
            Op::Star => "Star",
            Op::Slash => "Slash",
            Op::Percent => "Percent",
            Op::StarStar => "StarStar",
            Op::EqEq => "EqEq",
            Op::NotEq => "NotEq",
            Op::Lt => "Lt",
            Op::Gt => "Gt",
            Op::LtEq => "LtEq",
            Op::GtEq => "GtEq",
            Op::AndAnd => "AndAnd",
            Op::OrOr => "OrOr",
            Op::Not => "Not",
            Op::Amp => "Amp",
            Op::Pipe => "Pipe",
            Op::Caret => "Caret",
            Op::Tilde => "Tilde",
            Op::Shl => "Shl",
            Op::Shr => "Shr",
            Op::Question => "Question",
            Op::QuestionQuestion => "QuestionQuestion",
            Op::Dot => "Dot",
            Op::DotDot => "DotDot",
            Op::DotDotEq => "DotDotEq",
            Op::Eq => "Eq",
            Op::PlusEq => "PlusEq",
            Op::MinusEq => "MinusEq",
            Op::StarEq => "StarEq",
            Op::SlashEq => "SlashEq",
            Op::PercentEq => "PercentEq",
            Op::AmpEq => "AmpEq",
            Op::PipeEq => "PipeEq",
            Op::CaretEq => "CaretEq",
            Op::ShlEq => "ShlEq",
            Op::ShrEq => "ShrEq",
            Op::Arrow => "Arrow",
            Op::FatArrow => "FatArrow",
            Op::ColonColon => "ColonColon",
            Op::At => "At",
            Op::Hash => "Hash",
        }
    }
}

impl Delim {
    /// The text in a source file.
    #[verifier::opaque]
    pub open spec fn source(self) -> Seq<char> {
        match self {
            Delim::LParen => "("@,
            Delim::RParen => ")"@,
            Delim::LBrace => "{"@,
            Delim::RBrace => "}"@,
            Delim::LBracket => "["@,
            Delim::RBracket => "]"@,
            Delim::Comma => ","@,
            Delim::Semi => ";"@,
            Delim::Colon => ":"@,
        }
    }

    pub fn as_source_text(self) -> (r: &'static str)
        ensures
            r@ == self.source(),
    {
        proof {
            reveal(Delim::source);
        }
        match self {
            Delim::LParen => "(",
            Delim::RParen => ")",
            Delim::LBrace => "{",
            Delim::RBrace => "}",
            Delim::LBracket => "[",
            Delim::RBracket => "]",
            Delim::Comma => ",",
            Delim::Semi => ";",
            Delim::Colon => ":",
        }
    }

    /// How a diagnostic names it.
    #[verifier::opaque]
    pub open spec fn name(self) -> Seq<char> {
        match self {
            Delim::LParen => "LParen"@,
            Delim::RParen => "RParen"@,
            Delim::LBrace => "LBrace"@,
            Delim::RBrace => "RBrace"@,
            Delim::LBracket => "LBracket"@,
            Delim::RBracket => "RBracket"@,
            Delim::Comma => "Comma"@,
            Delim::Semi => "Semi"@,
            Delim::Colon => "Colon"@,
        }
    }

    pub fn variant_name(self) -> (r: &'static str)
        ensures
            r@ == self.name(),
    {
        proof {
            reveal(Delim::name);
        }
        match self {
            Delim::LParen => "LParen",
            Delim::RParen => "RParen",
            Delim::LBrace => "LBrace",
            Delim::RBrace => "RBrace",
            Delim::LBracket => "LBracket",
            Delim::RBracket => "RBracket",
            Delim::Comma => "Comma",
            Delim::Semi => "Semi",
            Delim::Colon => "Colon",
        }
    }
}

impl TokenKind {
    /// The text that a token holds, where it holds one.
    pub open spec fn text(self) -> Seq<char> {
        match self {
            TokenKind::Ident(s) => s@,
            TokenKind::Int(s) => s@,
            TokenKind::IntHex(s) => s@,
            TokenKind::IntOct(s) => s@,
            TokenKind::IntBin(s) => s@,
            TokenKind::Float(s) => s@,
            TokenKind::Str(s) => s@,
            TokenKind::RawStr(s) => s@,
            TokenKind::Char(s) => s@,
            TokenKind::DocComment(s) => s@,
            TokenKind::Error(s) => s@,
            _ => ""@,
        }
    }

    /// How a diagnostic shows the token, given the quoted text: the variant, then what it
    /// holds in parentheses.
    pub open spec fn shown_as(self, quoted: Seq<char>) -> Seq<char> {
        match self {
            TokenKind::Ident(_) => "Ident("@ + quoted + ")"@,
            TokenKind::Int(_) => "Int("@ + quoted + ")"@,
            TokenKind::IntHex(_) => "IntHex("@ + quoted + ")"@,
            TokenKind::IntOct(_) => "IntOct("@ + quoted + ")"@,
            TokenKind::IntBin(_) => "IntBin("@ + quoted + ")"@,
            TokenKind::Float(_) => "Float("@ + quoted + ")"@,
            TokenKind::Str(_) => "Str("@ + quoted + ")"@,
            TokenKind::RawStr(_) => "RawStr("@ + quoted + ")"@,
            TokenKind::Char(_) => "Char("@ + quoted + ")"@,
            TokenKind::DocComment(_) => "DocComment("@ + quoted + ")"@,
            TokenKind::Error(_) => "Error("@ + quoted + ")"@,
            TokenKind::Keyword(k) => "Keyword("@ + k.name() + ")"@,
            TokenKind::Op(op) => "Op("@ + op.name() + ")"@,
            TokenKind::Delim(d) => "Delim("@ + d.name() + ")"@,
            TokenKind::Bool(b) => if b {
                "Bool(true)"@
            } else {
                "Bool(false)"@
            },
            TokenKind::Null => "Null"@,
            TokenKind::Eof => "Eof"@,
        }
    }

    /// How a diagnostic shows the token.
    #[verifier::opaque]
    pub open spec fn shown(self) -> Seq<char> {
        self.shown_as(debug_text(self.text()))
    }

    /// The text that a token holds, where it holds one.
    fn held(&self) -> (r: &str)
        ensures
            r@ == self.text(),
    {
        match self {
            TokenKind::Ident(s) => s.as_str(),
            TokenKind::Int(s) => s.as_str(),
            TokenKind::IntHex(s) => s.as_str(),
            TokenKind::IntOct(s) => s.as_str(),
            TokenKind::IntBin(s) => s.as_str(),
            TokenKind::Float(s) => s.as_str(),
            TokenKind::Str(s) => s.as_str(),
            TokenKind::RawStr(s) => s.as_str(),
            TokenKind::Char(s) => s.as_str(),
            TokenKind::DocComment(s) => s.as_str(),
            TokenKind::Error(s) => s.as_str(),
            _ => "",
        }
    }

    /// The token as a diagnostic shows it, given the quoted text.
    pub fn show_as(&self, quoted: &str) -> (r: String)
        ensures
            r@ == self.shown_as(quoted@),
    {
        match self {
            TokenKind::Ident(_) => concat3("Ident(", quoted, ")"),
            TokenKind::Int(_) => concat3("Int(", quoted, ")"),
            TokenKind::IntHex(_) => concat3("IntHex(", quoted, ")"),
            TokenKind::IntOct(_) => concat3("IntOct(", quoted, ")"),
            TokenKind::IntBin(_) => concat3("IntBin(", quoted, ")"),
            TokenKind::Float(_) => concat3("Float(", quoted, ")"),
            TokenKind::Str(_) => concat3("Str(", quoted, ")"),
            TokenKind::RawStr(_) => concat3("RawStr(", quoted, ")"),
            TokenKind::Char(_) => concat3("Char(", quoted, ")"),
            TokenKind::DocComment(_) => concat3("DocComment(", quoted, ")"),
            TokenKind::Error(_) => concat3("Error(", quoted, ")"),
            TokenKind::Keyword(k) => concat3("Keyword(", k.variant_name(), ")"),
            TokenKind::Op(op) => concat3("Op(", op.variant_name(), ")"),
            TokenKind::Delim(d) => concat3("Delim(", d.variant_name(), ")"),
            TokenKind::Bool(b) => if *b {
                "Bool(true)".to_owned()
            } else {
                "Bool(false)".to_owned()
            },
            TokenKind::Null => "Null".to_owned(),
            TokenKind::Eof => "Eof".to_owned(),
        }
    }

    /// The token as a diagnostic shows it.
    pub fn show(&self) -> (r: String)
        ensures
            r@ == self.shown(),
    {
        proof {
            reveal(TokenKind::shown);
        }
        self.show_as(quote(self.held()).as_str())
    }
}

} // verus!
