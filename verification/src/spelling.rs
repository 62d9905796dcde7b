//! How tokens are spelled.
use crate::text::debug_text;
use crate::token::{Delim, Keyword, Op, TokenKind};
use vstd::prelude::*;

verus! {

/// The keywords around declarations, letter by letter.
pub proof fn declaring_keywords()
    ensures
        Keyword::Let.source() == seq!['l', 'e', 't'],
        Keyword::Mut.source() == seq!['m', 'u', 't'],
        Keyword::Fn.source() == seq!['f', 'n'],
        Keyword::Async.source() == seq!['a', 's', 'y', 'n', 'c'],
        Keyword::Await.source() == seq!['a', 'w', 'a', 'i', 't'],
        Keyword::Struct.source() == seq!['s', 't', 'r', 'u', 'c', 't'],
        Keyword::Enum.source() == seq!['e', 'n', 'u', 'm'],
        Keyword::Trait.source() == seq!['t', 'r', 'a', 'i', 't'],
        Keyword::Impl.source() == seq!['i', 'm', 'p', 'l'],
        Keyword::Dyn.source() == seq!['d', 'y', 'n'],
        Keyword::Mod.source() == seq!['m', 'o', 'd'],
        Keyword::Use.source() == seq!['u', 's', 'e'],
        Keyword::Import.source() == seq!['i', 'm', 'p', 'o', 'r', 't'],
        Keyword::Pub.source() == seq!['p', 'u', 'b'],
        Keyword::Const.source() == seq!['c', 'o', 'n', 's', 't'],
        Keyword::Static.source() == seq!['s', 't', 'a', 't', 'i', 'c'],
        Keyword::Type.source() == seq!['t', 'y', 'p', 'e'],
        Keyword::Where.source() == seq!['w', 'h', 'e', 'r', 'e'],
        Keyword::SelfValue.source() == seq!['s', 'e', 'l', 'f'],
        Keyword::SelfType.source() == seq!['S', 'e', 'l', 'f'],
{
    reveal(Keyword::source);
    reveal_strlit("let");
    assert("let"@ =~= seq!['l', 'e', 't']);
    reveal_strlit("mut");
    assert("mut"@ =~= seq!['m', 'u', 't']);
    reveal_strlit("fn");
    assert("fn"@ =~= seq!['f', 'n']);
    reveal_strlit("async");
    assert("async"@ =~= seq!['a', 's', 'y', 'n', 'c']);
    reveal_strlit("await");
    assert("await"@ =~= seq!['a', 'w', 'a', 'i', 't']);
    reveal_strlit("struct");
    assert("struct"@ =~= seq!['s', 't', 'r', 'u', 'c', 't']);
    reveal_strlit("enum");
    assert("enum"@ =~= seq!['e', 'n', 'u', 'm']);
    reveal_strlit("trait");
    assert("trait"@ =~= seq!['t', 'r', 'a', 'i', 't']);
    reveal_strlit("impl");
    assert("impl"@ =~= seq!['i', 'm', 'p', 'l']);
    reveal_strlit("dyn");
    assert("dyn"@ =~= seq!['d', 'y', 'n']);
    reveal_strlit("mod");
    assert("mod"@ =~= seq!['m', 'o', 'd']);
    reveal_strlit("use");
    assert("use"@ =~= seq!['u', 's', 'e']);
    reveal_strlit("import");
    assert("import"@ =~= seq!['i', 'm', 'p', 'o', 'r', 't']);
    reveal_strlit("pub");
    assert("pub"@ =~= seq!['p', 'u', 'b']);
    reveal_strlit("const");
    assert("const"@ =~= seq!['c', 'o', 'n', 's', 't']);
    reveal_strlit("static");
    assert("static"@ =~= seq!['s', 't', 'a', 't', 'i', 'c']);
    reveal_strlit("type");
    assert("type"@ =~= seq!['t', 'y', 'p', 'e']);
    reveal_strlit("where");
    assert("where"@ =~= seq!['w', 'h', 'e', 'r', 'e']);
    reveal_strlit("self");
    assert("self"@ =~= seq!['s', 'e', 'l', 'f']);
    reveal_strlit("Self");
    assert("Self"@ =~= seq!['S', 'e', 'l', 'f']);
}

/// The keywords around control flow, letter by letter.
pub proof fn controlling_keywords()
    ensures
        Keyword::If.source() == seq!['i', 'f'],
        Keyword::Else.source() == seq!['e', 'l', 's', 'e'],
        Keyword::Match.source() == seq!['m', 'a', 't', 'c', 'h'],
        Keyword::Case.source() == seq!['c', 'a', 's', 'e'],
        Keyword::Loop.source() == seq!['l', 'o', 'o', 'p'],
        Keyword::While.source() == seq!['w', 'h', 'i', 'l', 'e'],
        Keyword::For.source() == seq!['f', 'o', 'r'],
        Keyword::In.source() == seq!['i', 'n'],
        Keyword::Do.source() == seq!['d', 'o'],
        Keyword::Break.source() == seq!['b', 'r', 'e', 'a', 'k'],
        Keyword::Continue.source() == seq!['c', 'o', 'n', 't', 'i', 'n', 'u', 'e'],
        Keyword::Return.source() == seq!['r', 'e', 't', 'u', 'r', 'n'],
        Keyword::Yield.source() == seq!['y', 'i', 'e', 'l', 'd'],
        Keyword::As.source() == seq!['a', 's'],
        Keyword::Borrow.source() == seq!['b', 'o', 'r', 'r', 'o', 'w'],
        Keyword::Move.source() == seq!['m', 'o', 'v', 'e'],
        Keyword::Unsafe.source() == seq!['u', 'n', 's', 'a', 'f', 'e'],
        Keyword::Try.source() == seq!['t', 'r', 'y'],
        Keyword::Catch.source() == seq!['c', 'a', 't', 'c', 'h'],
        Keyword::Throw.source() == seq!['t', 'h', 'r', 'o', 'w'],
{
    reveal(Keyword::source);
    reveal_strlit("if");
    assert("if"@ =~= seq!['i', 'f']);
    reveal_strlit("else");
    assert("else"@ =~= seq!['e', 'l', 's', 'e']);
    reveal_strlit("match");
    assert("match"@ =~= seq!['m', 'a', 't', 'c', 'h']);
    reveal_strlit("case");
    assert("case"@ =~= seq!['c', 'a', 's', 'e']);
    reveal_strlit("loop");
    assert("loop"@ =~= seq!['l', 'o', 'o', 'p']);
    reveal_strlit("while");
    assert("while"@ =~= seq!['w', 'h', 'i', 'l', 'e']);
    reveal_strlit("for");
    assert("for"@ =~= seq!['f', 'o', 'r']);
    reveal_strlit("in");
    assert("in"@ =~= seq!['i', 'n']);
    reveal_strlit("do");
    assert("do"@ =~= seq!['d', 'o']);
    reveal_strlit("break");
    assert("break"@ =~= seq!['b', 'r', 'e', 'a', 'k']);
    reveal_strlit("continue");
    assert("continue"@ =~= seq!['c', 'o', 'n', 't', 'i', 'n', 'u', 'e']);
    reveal_strlit("return");
    assert("return"@ =~= seq!['r', 'e', 't', 'u', 'r', 'n']);
    reveal_strlit("yield");
    assert("yield"@ =~= seq!['y', 'i', 'e', 'l', 'd']);
    reveal_strlit("as");
    assert("as"@ =~= seq!['a', 's']);
    reveal_strlit("borrow");
    assert("borrow"@ =~= seq!['b', 'o', 'r', 'r', 'o', 'w']);
    reveal_strlit("move");
    assert("move"@ =~= seq!['m', 'o', 'v', 'e']);
    reveal_strlit("unsafe");
    assert("unsafe"@ =~= seq!['u', 'n', 's', 'a', 'f', 'e']);
    reveal_strlit("try");
    assert("try"@ =~= seq!['t', 'r', 'y']);
    reveal_strlit("catch");
    assert("catch"@ =~= seq!['c', 'a', 't', 'c', 'h']);
    reveal_strlit("throw");
    assert("throw"@ =~= seq!['t', 'h', 'r', 'o', 'w']);
}

/// The keywords around tasks and data, letter by letter.
pub proof fn running_keywords()
    ensures
        Keyword::Spawn.source() == seq!['s', 'p', 'a', 'w', 'n'],
        Keyword::Select.source() == seq!['s', 'e', 'l', 'e', 'c', 't'],
        Keyword::Actor.source() == seq!['a', 'c', 't', 'o', 'r'],
        Keyword::State.source() == seq!['s', 't', 'a', 't', 'e'],
        Keyword::On.source() == seq!['o', 'n'],
        Keyword::Server.source() == seq!['s', 'e', 'r', 'v', 'e', 'r'],
        Keyword::Listen.source() == seq!['l', 'i', 's', 't', 'e', 'n'],
        Keyword::Table.source() == seq!['t', 'a', 'b', 'l', 'e'],
        Keyword::Index.source() == seq!['i', 'n', 'd', 'e', 'x'],
        Keyword::Schema.source() == seq!['s', 'c', 'h', 'e', 'm', 'a'],
        Keyword::Query.source() == seq!['q', 'u', 'e', 'r', 'y'],
        Keyword::Insert.source() == seq!['i', 'n', 's', 'e', 'r', 't'],
        Keyword::Update.source() == seq!['u', 'p', 'd', 'a', 't', 'e'],
        Keyword::Delete.source() == seq!['d', 'e', 'l', 'e', 't', 'e'],
{
    reveal(Keyword::source);
    reveal_strlit("spawn");
    assert("spawn"@ =~= seq!['s', 'p', 'a', 'w', 'n']);
    reveal_strlit("select");
    assert("select"@ =~= seq!['s', 'e', 'l', 'e', 'c', 't']);
    reveal_strlit("actor");
    assert("actor"@ =~= seq!['a', 'c', 't', 'o', 'r']);
    reveal_strlit("state");
    assert("state"@ =~= seq!['s', 't', 'a', 't', 'e']);
    reveal_strlit("on");
    assert("on"@ =~= seq!['o', 'n']);
    reveal_strlit("server");
    assert("server"@ =~= seq!['s', 'e', 'r', 'v', 'e', 'r']);
    reveal_strlit("listen");
    assert("listen"@ =~= seq!['l', 'i', 's', 't', 'e', 'n']);
    reveal_strlit("table");
    assert("table"@ =~= seq!['t', 'a', 'b', 'l', 'e']);
    reveal_strlit("index");
    assert("index"@ =~= seq!['i', 'n', 'd', 'e', 'x']);
    reveal_strlit("schema");
    assert("schema"@ =~= seq!['s', 'c', 'h', 'e', 'm', 'a']);
    reveal_strlit("query");
    assert("query"@ =~= seq!['q', 'u', 'e', 'r', 'y']);
    reveal_strlit("insert");
    assert("insert"@ =~= seq!['i', 'n', 's', 'e', 'r', 't']);
    reveal_strlit("update");
    assert("update"@ =~= seq!['u', 'p', 'd', 'a', 't', 'e']);
    reveal_strlit("delete");
    assert("delete"@ =~= seq!['d', 'e', 'l', 'e', 't', 'e']);
}

/// The keywords around user interfaces and the names of common values, letter by letter.
pub proof fn drawing_keywords()
    ensures
        Keyword::Ui.source() == seq!['u', 'i'],
        Keyword::Component.source() == seq!['c', 'o', 'm', 'p', 'o', 'n', 'e', 'n', 't'],
        Keyword::Prop.source() == seq!['p', 'r', 'o', 'p'],
        Keyword::Render.source() == seq!['r', 'e', 'n', 'd', 'e', 'r'],
        Keyword::Mount.source() == seq!['m', 'o', 'u', 'n', 't'],
        Keyword::Unmount.source() == seq!['u', 'n', 'm', 'o', 'u', 'n', 't'],
        Keyword::Style.source() == seq!['s', 't', 'y', 'l', 'e'],
        Keyword::Layout.source() == seq!['l', 'a', 'y', 'o', 'u', 't'],
        Keyword::Bind.source() == seq!['b', 'i', 'n', 'd'],
        Keyword::Option.source() == seq!['O', 'p', 't', 'i', 'o', 'n'],
        Keyword::Result.source() == seq!['R', 'e', 's', 'u', 'l', 't'],
        Keyword::SomeValue.source() == seq!['S', 'o', 'm', 'e'],
        Keyword::NoneValue.source() == seq!['N', 'o', 'n', 'e'],
        Keyword::OkValue.source() == seq!['O', 'k'],
        Keyword::ErrValue.source() == seq!['E', 'r', 'r'],
{
    reveal(Keyword::source);
    reveal_strlit("ui");
    assert("ui"@ =~= seq!['u', 'i']);
    reveal_strlit("component");
    assert("component"@ =~= seq!['c', 'o', 'm', 'p', 'o', 'n', 'e', 'n', 't']);
    reveal_strlit("prop");
    assert("prop"@ =~= seq!['p', 'r', 'o', 'p']);
    reveal_strlit("render");
    assert("render"@ =~= seq!['r', 'e', 'n', 'd', 'e', 'r']);
    reveal_strlit("mount");
    assert("mount"@ =~= seq!['m', 'o', 'u', 'n', 't']);
    reveal_strlit("unmount");
    assert("unmount"@ =~= seq!['u', 'n', 'm', 'o', 'u', 'n', 't']);
    reveal_strlit("style");
    assert("style"@ =~= seq!['s', 't', 'y', 'l', 'e']);
    reveal_strlit("layout");
    assert("layout"@ =~= seq!['l', 'a', 'y', 'o', 'u', 't']);
    reveal_strlit("bind");
    assert("bind"@ =~= seq!['b', 'i', 'n', 'd']);
    reveal_strlit("Option");
    assert("Option"@ =~= seq!['O', 'p', 't', 'i', 'o', 'n']);
    reveal_strlit("Result");
    assert("Result"@ =~= seq!['R', 'e', 's', 'u', 'l', 't']);
    reveal_strlit("Some");
    assert("Some"@ =~= seq!['S', 'o', 'm', 'e']);
    reveal_strlit("None");
    assert("None"@ =~= seq!['N', 'o', 'n', 'e']);
    reveal_strlit("Ok");
    assert("Ok"@ =~= seq!['O', 'k']);
    reveal_strlit("Err");
    assert("Err"@ =~= seq!['E', 'r', 'r']);
}

/// The operators on values, sign by sign.
pub proof fn operators_between_values()
    ensures
        Op::Plus.source() == seq!['+'],
        Op::Minus.source() == seq!['-'],
        Op::Star.source() == seq!['*'],
        Op::Slash.source() == seq!['/'],
        Op::Percent.source() == seq!['%'],
        Op::StarStar.source() == seq!['*', '*'],
        Op::EqEq.source() == seq!['=', '='],
        Op::NotEq.source() == seq!['!', '='],
        Op::Lt.source() == seq!['<'],
        Op::Gt.source() == seq!['>'],
        Op::LtEq.source() == seq!['<', '='],
        Op::GtEq.source() == seq!['>', '='],
        Op::AndAnd.source() == seq!['&', '&'],
        Op::OrOr.source() == seq!['|', '|'],
        Op::Not.source() == seq!['!'],
        Op::Amp.source() == seq!['&'],
        Op::Pipe.source() == seq!['|'],
        Op::Caret.source() == seq!['^'],
        Op::Tilde.source() == seq!['~'],
        Op::Shl.source() == seq!['<', '<'],
        Op::Shr.source() == seq!['>', '>'],
{
    reveal(Op::source);
    reveal_strlit("+");
    assert("+"@ =~= seq!['+']);
    reveal_strlit("-");
    assert("-"@ =~= seq!['-']);
    reveal_strlit("*");
    assert("*"@ =~= seq!['*']);
    reveal_strlit("/");
    assert("/"@ =~= seq!['/']);
    reveal_strlit("%");
    assert("%"@ =~= seq!['%']);
    reveal_strlit("**");
    assert("**"@ =~= seq!['*', '*']);
    reveal_strlit("==");
    assert("=="@ =~= seq!['=', '=']);
    reveal_strlit("!=");
    assert("!="@ =~= seq!['!', '=']);
    reveal_strlit("<");
    assert("<"@ =~= seq!['<']);
    reveal_strlit(">");
    assert(">"@ =~= seq!['>']);
    reveal_strlit("<=");
    assert("<="@ =~= seq!['<', '=']);
    reveal_strlit(">=");
    assert(">="@ =~= seq!['>', '=']);
    reveal_strlit("&&");
    assert("&&"@ =~= seq!['&', '&']);
    reveal_strlit("||");
    assert("||"@ =~= seq!['|', '|']);
    reveal_strlit("!");
    assert("!"@ =~= seq!['!']);
    reveal_strlit("&");
    assert("&"@ =~= seq!['&']);
    reveal_strlit("|");
    assert("|"@ =~= seq!['|']);
    reveal_strlit("^");
    assert("^"@ =~= seq!['^']);
    reveal_strlit("~");
    assert("~"@ =~= seq!['~']);
    reveal_strlit("<<");
    assert("<<"@ =~= seq!['<', '<']);
    reveal_strlit(">>");
    assert(">>"@ =~= seq!['>', '>']);
}

/// The other operators, sign by sign.
pub proof fn other_operators()
    ensures
        Op::Question.source() == seq!['?'],
        Op::QuestionQuestion.source() == seq!['?', '?'],
        Op::Dot.source() == seq!['.'],
        Op::DotDot.source() == seq!['.', '.'],
        Op::DotDotEq.source() == seq!['.', '.', '='],
        Op::Eq.source() == seq!['='],
        Op::PlusEq.source() == seq!['+', '='],
        Op::MinusEq.source() == seq!['-', '='],
        Op::StarEq.source() == seq!['*', '='],
        Op::SlashEq.source() == seq!['/', '='],
        Op::PercentEq.source() == seq!['%', '='],
        Op::AmpEq.source() == seq!['&', '='],
        Op::PipeEq.source() == seq!['|', '='],
        Op::CaretEq.source() == seq!['^', '='],
        Op::ShlEq.source() == seq!['<', '<', '='],
        Op::ShrEq.source() == seq!['>', '>', '='],
        Op::Arrow.source() == seq!['-', '>'],
        Op::FatArrow.source() == seq!['=', '>'],
        Op::ColonColon.source() == seq![':', ':'],
        Op::At.source() == seq!['@'],
        Op::Hash.source() == seq!['#'],
{
    reveal(Op::source);
    reveal_strlit("?");
    assert("?"@ =~= seq!['?']);
    reveal_strlit("??");
    assert("??"@ =~= seq!['?', '?']);
    reveal_strlit(".");
    assert("."@ =~= seq!['.']);
    reveal_strlit("..");
    assert(".."@ =~= seq!['.', '.']);
    reveal_strlit("..=");
    assert("..="@ =~= seq!['.', '.', '=']);
    reveal_strlit("=");
    assert("="@ =~= seq!['=']);
    reveal_strlit("+=");
    assert("+="@ =~= seq!['+', '=']);
    reveal_strlit("-=");
    assert("-="@ =~= seq!['-', '=']);
    reveal_strlit("*=");
    assert("*="@ =~= seq!['*', '=']);
    reveal_strlit("/=");
    assert("/="@ =~= seq!['/', '=']);
    reveal_strlit("%=");
    assert("%="@ =~= seq!['%', '=']);
    reveal_strlit("&=");
    assert("&="@ =~= seq!['&', '=']);
    reveal_strlit("|=");
    assert("|="@ =~= seq!['|', '=']);
    reveal_strlit("^=");
    assert("^="@ =~= seq!['^', '=']);
    reveal_strlit("<<=");
    assert("<<="@ =~= seq!['<', '<', '=']);
    reveal_strlit(">>=");
    assert(">>="@ =~= seq!['>', '>', '=']);
    reveal_strlit("->");
    assert("->"@ =~= seq!['-', '>']);
    reveal_strlit("=>");
    assert("=>"@ =~= seq!['=', '>']);
    reveal_strlit("::");
    assert("::"@ =~= seq![':', ':']);
    reveal_strlit("@");
    assert("@"@ =~= seq!['@']);
    reveal_strlit("#");
    assert("#"@ =~= seq!['#']);
}

/// The brackets and separators, sign by sign.
pub proof fn delimiters()
    ensures
        Delim::LParen.source() == seq!['('],
        Delim::RParen.source() == seq![')'],
        Delim::LBrace.source() == seq!['{'],
        Delim::RBrace.source() == seq!['}'],
        Delim::LBracket.source() == seq!['['],
        Delim::RBracket.source() == seq![']'],
        Delim::Comma.source() == seq![','],
        Delim::Semi.source() == seq![';'],
        Delim::Colon.source() == seq![':'],
{
    reveal(Delim::source);
    reveal_strlit("(");
    assert("("@ =~= seq!['(']);
    reveal_strlit(")");
    assert(")"@ =~= seq![')']);
    reveal_strlit("{");
    assert("{"@ =~= seq!['{']);
    reveal_strlit("}");
    assert("}"@ =~= seq!['}']);
    reveal_strlit("[");
    assert("["@ =~= seq!['[']);
    reveal_strlit("]");
    assert("]"@ =~= seq![']']);
    reveal_strlit(",");
    assert(","@ =~= seq![',']);
    reveal_strlit(";");
    assert(";"@ =~= seq![';']);
    reveal_strlit(":");
    assert(":"@ =~= seq![':']);
}

/// How diagnostics name them, letter by letter.
pub proof fn names_of_declaring_keywords()
    ensures
        Keyword::Let.name() == seq!['L', 'e', 't'],
        Keyword::Mut.name() == seq!['M', 'u', 't'],
        Keyword::Fn.name() == seq!['F', 'n'],
        Keyword::Async.name() == seq!['A', 's', 'y', 'n', 'c'],
        Keyword::Await.name() == seq!['A', 'w', 'a', 'i', 't'],
        Keyword::Struct.name() == seq!['S', 't', 'r', 'u', 'c', 't'],
        Keyword::Enum.name() == seq!['E', 'n', 'u', 'm'],
        Keyword::Trait.name() == seq!['T', 'r', 'a', 'i', 't'],
        Keyword::Impl.name() == seq!['I', 'm', 'p', 'l'],
        Keyword::Dyn.name() == seq!['D', 'y', 'n'],
        Keyword::Mod.name() == seq!['M', 'o', 'd'],
        Keyword::Use.name() == seq!['U', 's', 'e'],
        Keyword::Import.name() == seq!['I', 'm', 'p', 'o', 'r', 't'],
        Keyword::Pub.name() == seq!['P', 'u', 'b'],
        Keyword::Const.name() == seq!['C', 'o', 'n', 's', 't'],
        Keyword::Static.name() == seq!['S', 't', 'a', 't', 'i', 'c'],
        Keyword::Type.name() == seq!['T', 'y', 'p', 'e'],
        Keyword::Where.name() == seq!['W', 'h', 'e', 'r', 'e'],
        Keyword::SelfValue.name() == seq!['S', 'e', 'l', 'f', 'V', 'a', 'l', 'u', 'e'],
        Keyword::SelfType.name() == seq!['S', 'e', 'l', 'f', 'T', 'y', 'p', 'e'],
{
    reveal(Keyword::name);
    reveal_strlit("Let");
    assert("Let"@ =~= seq!['L', 'e', 't']);
    reveal_strlit("Mut");
    assert("Mut"@ =~= seq!['M', 'u', 't']);
    reveal_strlit("Fn");
    assert("Fn"@ =~= seq!['F', 'n']);
    reveal_strlit("Async");
    assert("Async"@ =~= seq!['A', 's', 'y', 'n', 'c']);
    reveal_strlit("Await");
    assert("Await"@ =~= seq!['A', 'w', 'a', 'i', 't']);
    reveal_strlit("Struct");
    assert("Struct"@ =~= seq!['S', 't', 'r', 'u', 'c', 't']);
    reveal_strlit("Enum");
    assert("Enum"@ =~= seq!['E', 'n', 'u', 'm']);
    reveal_strlit("Trait");
    assert("Trait"@ =~= seq!['T', 'r', 'a', 'i', 't']);
    reveal_strlit("Impl");
    assert("Impl"@ =~= seq!['I', 'm', 'p', 'l']);
    reveal_strlit("Dyn");
    assert("Dyn"@ =~= seq!['D', 'y', 'n']);
    reveal_strlit("Mod");
    assert("Mod"@ =~= seq!['M', 'o', 'd']);
    reveal_strlit("Use");
    assert("Use"@ =~= seq!['U', 's', 'e']);
    reveal_strlit("Import");
    assert("Import"@ =~= seq!['I', 'm', 'p', 'o', 'r', 't']);
    reveal_strlit("Pub");
    assert("Pub"@ =~= seq!['P', 'u', 'b']);
    reveal_strlit("Const");
    assert("Const"@ =~= seq!['C', 'o', 'n', 's', 't']);
    reveal_strlit("Static");
    assert("Static"@ =~= seq!['S', 't', 'a', 't', 'i', 'c']);
    reveal_strlit("Type");
    assert("Type"@ =~= seq!['T', 'y', 'p', 'e']);
    reveal_strlit("Where");
    assert("Where"@ =~= seq!['W', 'h', 'e', 'r', 'e']);
    reveal_strlit("SelfValue");
    assert("SelfValue"@ =~= seq!['S', 'e', 'l', 'f', 'V', 'a', 'l', 'u', 'e']);
    reveal_strlit("SelfType");
    assert("SelfType"@ =~= seq!['S', 'e', 'l', 'f', 'T', 'y', 'p', 'e']);
}

/// How diagnostics name them, letter by letter.
pub proof fn names_of_controlling_keywords()
    ensures
        Keyword::If.name() == seq!['I', 'f'],
        Keyword::Else.name() == seq!['E', 'l', 's', 'e'],
        Keyword::Match.name() == seq!['M', 'a', 't', 'c', 'h'],
        Keyword::Case.name() == seq!['C', 'a', 's', 'e'],
        Keyword::Loop.name() == seq!['L', 'o', 'o', 'p'],
        Keyword::While.name() == seq!['W', 'h', 'i', 'l', 'e'],
        Keyword::For.name() == seq!['F', 'o', 'r'],
        Keyword::In.name() == seq!['I', 'n'],
        Keyword::Do.name() == seq!['D', 'o'],
        Keyword::Break.name() == seq!['B', 'r', 'e', 'a', 'k'],
        Keyword::Continue.name() == seq!['C', 'o', 'n', 't', 'i', 'n', 'u', 'e'],
        Keyword::Return.name() == seq!['R', 'e', 't', 'u', 'r', 'n'],
        Keyword::Yield.name() == seq!['Y', 'i', 'e', 'l', 'd'],
        Keyword::As.name() == seq!['A', 's'],
        Keyword::Borrow.name() == seq!['B', 'o', 'r', 'r', 'o', 'w'],
        Keyword::Move.name() == seq!['M', 'o', 'v', 'e'],
        Keyword::Unsafe.name() == seq!['U', 'n', 's', 'a', 'f', 'e'],
        Keyword::Try.name() == seq!['T', 'r', 'y'],
        Keyword::Catch.name() == seq!['C', 'a', 't', 'c', 'h'],
        Keyword::Throw.name() == seq!['T', 'h', 'r', 'o', 'w'],
{
    reveal(Keyword::name);
    reveal_strlit("If");
    assert("If"@ =~= seq!['I', 'f']);
    reveal_strlit("Else");
    assert("Else"@ =~= seq!['E', 'l', 's', 'e']);
    reveal_strlit("Match");
    assert("Match"@ =~= seq!['M', 'a', 't', 'c', 'h']);
    reveal_strlit("Case");
    assert("Case"@ =~= seq!['C', 'a', 's', 'e']);
    reveal_strlit("Loop");
    assert("Loop"@ =~= seq!['L', 'o', 'o', 'p']);
    reveal_strlit("While");
    assert("While"@ =~= seq!['W', 'h', 'i', 'l', 'e']);
    reveal_strlit("For");
    assert("For"@ =~= seq!['F', 'o', 'r']);
    reveal_strlit("In");
    assert("In"@ =~= seq!['I', 'n']);
    reveal_strlit("Do");
    assert("Do"@ =~= seq!['D', 'o']);
    reveal_strlit("Break");
    assert("Break"@ =~= seq!['B', 'r', 'e', 'a', 'k']);
    reveal_strlit("Continue");
    assert("Continue"@ =~= seq!['C', 'o', 'n', 't', 'i', 'n', 'u', 'e']);
    reveal_strlit("Return");
    assert("Return"@ =~= seq!['R', 'e', 't', 'u', 'r', 'n']);
    reveal_strlit("Yield");
    assert("Yield"@ =~= seq!['Y', 'i', 'e', 'l', 'd']);
    reveal_strlit("As");
    assert("As"@ =~= seq!['A', 's']);
    reveal_strlit("Borrow");
    assert("Borrow"@ =~= seq!['B', 'o', 'r', 'r', 'o', 'w']);
    reveal_strlit("Move");
    assert("Move"@ =~= seq!['M', 'o', 'v', 'e']);
    reveal_strlit("Unsafe");
    assert("Unsafe"@ =~= seq!['U', 'n', 's', 'a', 'f', 'e']);
    reveal_strlit("Try");
    assert("Try"@ =~= seq!['T', 'r', 'y']);
    reveal_strlit("Catch");
    assert("Catch"@ =~= seq!['C', 'a', 't', 'c', 'h']);
    reveal_strlit("Throw");
    assert("Throw"@ =~= seq!['T', 'h', 'r', 'o', 'w']);
}

/// How diagnostics name them, letter by letter.
pub proof fn names_of_running_keywords()
    ensures
        Keyword::Spawn.name() == seq!['S', 'p', 'a', 'w', 'n'],
        Keyword::Select.name() == seq!['S', 'e', 'l', 'e', 'c', 't'],
        Keyword::Actor.name() == seq!['A', 'c', 't', 'o', 'r'],
        Keyword::State.name() == seq!['S', 't', 'a', 't', 'e'],
        Keyword::On.name() == seq!['O', 'n'],
        Keyword::Server.name() == seq!['S', 'e', 'r', 'v', 'e', 'r'],
        Keyword::Listen.name() == seq!['L', 'i', 's', 't', 'e', 'n'],
        Keyword::Table.name() == seq!['T', 'a', 'b', 'l', 'e'],
        Keyword::Index.name() == seq!['I', 'n', 'd', 'e', 'x'],
        Keyword::Schema.name() == seq!['S', 'c', 'h', 'e', 'm', 'a'],
        Keyword::Query.name() == seq!['Q', 'u', 'e', 'r', 'y'],
        Keyword::Insert.name() == seq!['I', 'n', 's', 'e', 'r', 't'],
        Keyword::Update.name() == seq!['U', 'p', 'd', 'a', 't', 'e'],
        Keyword::Delete.name() == seq!['D', 'e', 'l', 'e', 't', 'e'],
{
    reveal(Keyword::name);
    reveal_strlit("Spawn");
    assert("Spawn"@ =~= seq!['S', 'p', 'a', 'w', 'n']);
    reveal_strlit("Select");
    assert("Select"@ =~= seq!['S', 'e', 'l', 'e', 'c', 't']);
    reveal_strlit("Actor");
    assert("Actor"@ =~= seq!['A', 'c', 't', 'o', 'r']);
    reveal_strlit("State");
    assert("State"@ =~= seq!['S', 't', 'a', 't', 'e']);
    reveal_strlit("On");
    assert("On"@ =~= seq!['O', 'n']);
    reveal_strlit("Server");
    assert("Server"@ =~= seq!['S', 'e', 'r', 'v', 'e', 'r']);
    reveal_strlit("Listen");
    assert("Listen"@ =~= seq!['L', 'i', 's', 't', 'e', 'n']);
    reveal_strlit("Table");
    assert("Table"@ =~= seq!['T', 'a', 'b', 'l', 'e']);
    reveal_strlit("Index");
    assert("Index"@ =~= seq!['I', 'n', 'd', 'e', 'x']);
    reveal_strlit("Schema");
    assert("Schema"@ =~= seq!['S', 'c', 'h', 'e', 'm', 'a']);
    reveal_strlit("Query");
    assert("Query"@ =~= seq!['Q', 'u', 'e', 'r', 'y']);
    reveal_strlit("Insert");
    assert("Insert"@ =~= seq!['I', 'n', 's', 'e', 'r', 't']);
    reveal_strlit("Update");
    assert("Update"@ =~= seq!['U', 'p', 'd', 'a', 't', 'e']);
    reveal_strlit("Delete");
    assert("Delete"@ =~= seq!['D', 'e', 'l', 'e', 't', 'e']);
}

/// How diagnostics name them, letter by letter.
pub proof fn names_of_drawing_keywords()
    ensures
        Keyword::Ui.name() == seq!['U', 'i'],
        Keyword::Component.name() == seq!['C', 'o', 'm', 'p', 'o', 'n', 'e', 'n', 't'],
        Keyword::Prop.name() == seq!['P', 'r', 'o', 'p'],
        Keyword::Render.name() == seq!['R', 'e', 'n', 'd', 'e', 'r'],
        Keyword::Mount.name() == seq!['M', 'o', 'u', 'n', 't'],
        Keyword::Unmount.name() == seq!['U', 'n', 'm', 'o', 'u', 'n', 't'],
        Keyword::Style.name() == seq!['S', 't', 'y', 'l', 'e'],
        Keyword::Layout.name() == seq!['L', 'a', 'y', 'o', 'u', 't'],
        Keyword::Bind.name() == seq!['B', 'i', 'n', 'd'],
        Keyword::Option.name() == seq!['O', 'p', 't', 'i', 'o', 'n'],
        Keyword::Result.name() == seq!['R', 'e', 's', 'u', 'l', 't'],
        Keyword::SomeValue.name() == seq!['S', 'o', 'm', 'e'],
        Keyword::NoneValue.name() == seq!['N', 'o', 'n', 'e'],
        Keyword::OkValue.name() == seq!['O', 'k'],
        Keyword::ErrValue.name() == seq!['E', 'r', 'r'],
{
    reveal(Keyword::name);
    reveal_strlit("Ui");
    assert("Ui"@ =~= seq!['U', 'i']);
    reveal_strlit("Component");
    assert("Component"@ =~= seq!['C', 'o', 'm', 'p', 'o', 'n', 'e', 'n', 't']);
    reveal_strlit("Prop");
    assert("Prop"@ =~= seq!['P', 'r', 'o', 'p']);
    reveal_strlit("Render");
    assert("Render"@ =~= seq!['R', 'e', 'n', 'd', 'e', 'r']);
    reveal_strlit("Mount");
    assert("Mount"@ =~= seq!['M', 'o', 'u', 'n', 't']);
    reveal_strlit("Unmount");
    assert("Unmount"@ =~= seq!['U', 'n', 'm', 'o', 'u', 'n', 't']);
    reveal_strlit("Style");
    assert("Style"@ =~= seq!['S', 't', 'y', 'l', 'e']);
    reveal_strlit("Layout");
    assert("Layout"@ =~= seq!['L', 'a', 'y', 'o', 'u', 't']);
    reveal_strlit("Bind");
    assert("Bind"@ =~= seq!['B', 'i', 'n', 'd']);
    reveal_strlit("Option");
    assert("Option"@ =~= seq!['O', 'p', 't', 'i', 'o', 'n']);
    reveal_strlit("Result");
    assert("Result"@ =~= seq!['R', 'e', 's', 'u', 'l', 't']);
    reveal_strlit("Some");
    assert("Some"@ =~= seq!['S', 'o', 'm', 'e']);
    reveal_strlit("None");
    assert("None"@ =~= seq!['N', 'o', 'n', 'e']);
    reveal_strlit("Ok");
    assert("Ok"@ =~= seq!['O', 'k']);
    reveal_strlit("Err");
    assert("Err"@ =~= seq!['E', 'r', 'r']);
}

/// How diagnostics name the operators on values.
pub proof fn names_of_operators_between_values()
    ensures
        Op::Plus.name() == seq!['P', 'l', 'u', 's'],
        Op::Minus.name() == seq!['M', 'i', 'n', 'u', 's'],
        Op::Star.name() == seq!['S', 't', 'a', 'r'],
        Op::Slash.name() == seq!['S', 'l', 'a', 's', 'h'],
        Op::Percent.name() == seq!['P', 'e', 'r', 'c', 'e', 'n', 't'],
        Op::StarStar.name() == seq!['S', 't', 'a', 'r', 'S', 't', 'a', 'r'],
        Op::EqEq.name() == seq!['E', 'q', 'E', 'q'],
        Op::NotEq.name() == seq!['N', 'o', 't', 'E', 'q'],
        Op::Lt.name() == seq!['L', 't'],
        Op::Gt.name() == seq!['G', 't'],
        Op::LtEq.name() == seq!['L', 't', 'E', 'q'],
        Op::GtEq.name() == seq!['G', 't', 'E', 'q'],
        Op::AndAnd.name() == seq!['A', 'n', 'd', 'A', 'n', 'd'],
        Op::OrOr.name() == seq!['O', 'r', 'O', 'r'],
        Op::Not.name() == seq!['N', 'o', 't'],
        Op::Amp.name() == seq!['A', 'm', 'p'],
        Op::Pipe.name() == seq!['P', 'i', 'p', 'e'],
        Op::Caret.name() == seq!['C', 'a', 'r', 'e', 't'],
        Op::Tilde.name() == seq!['T', 'i', 'l', 'd', 'e'],
        Op::Shl.name() == seq!['S', 'h', 'l'],
        Op::Shr.name() == seq!['S', 'h', 'r'],
{
    reveal(Op::name);
    reveal_strlit("Plus");
    assert("Plus"@ =~= seq!['P', 'l', 'u', 's']);
    reveal_strlit("Minus");
    assert("Minus"@ =~= seq!['M', 'i', 'n', 'u', 's']);
    reveal_strlit("Star");
    assert("Star"@ =~= seq!['S', 't', 'a', 'r']);
    reveal_strlit("Slash");
    assert("Slash"@ =~= seq!['S', 'l', 'a', 's', 'h']);
    reveal_strlit("Percent");
    assert("Percent"@ =~= seq!['P', 'e', 'r', 'c', 'e', 'n', 't']);
    reveal_strlit("StarStar");
    assert("StarStar"@ =~= seq!['S', 't', 'a', 'r', 'S', 't', 'a', 'r']);
    reveal_strlit("EqEq");
    assert("EqEq"@ =~= seq!['E', 'q', 'E', 'q']);
    reveal_strlit("NotEq");
    assert("NotEq"@ =~= seq!['N', 'o', 't', 'E', 'q']);
    reveal_strlit("Lt");
    assert("Lt"@ =~= seq!['L', 't']);
    reveal_strlit("Gt");
    assert("Gt"@ =~= seq!['G', 't']);
    reveal_strlit("LtEq");
    assert("LtEq"@ =~= seq!['L', 't', 'E', 'q']);
    reveal_strlit("GtEq");
    assert("GtEq"@ =~= seq!['G', 't', 'E', 'q']);
    reveal_strlit("AndAnd");
    assert("AndAnd"@ =~= seq!['A', 'n', 'd', 'A', 'n', 'd']);
    reveal_strlit("OrOr");
    assert("OrOr"@ =~= seq!['O', 'r', 'O', 'r']);
    reveal_strlit("Not");
    assert("Not"@ =~= seq!['N', 'o', 't']);
    reveal_strlit("Amp");
    assert("Amp"@ =~= seq!['A', 'm', 'p']);
    reveal_strlit("Pipe");
    assert("Pipe"@ =~= seq!['P', 'i', 'p', 'e']);
    reveal_strlit("Caret");
    assert("Caret"@ =~= seq!['C', 'a', 'r', 'e', 't']);
    reveal_strlit("Tilde");
    assert("Tilde"@ =~= seq!['T', 'i', 'l', 'd', 'e']);
    reveal_strlit("Shl");
    assert("Shl"@ =~= seq!['S', 'h', 'l']);
    reveal_strlit("Shr");
    assert("Shr"@ =~= seq!['S', 'h', 'r']);
}

/// How diagnostics name the other operators.
pub proof fn names_of_other_operators()
    ensures
        Op::Question.name() == seq!['Q', 'u', 'e', 's', 't', 'i', 'o', 'n'],
        Op::QuestionQuestion.name() == seq!['Q', 'u', 'e', 's', 't', 'i', 'o', 'n']
            + seq!['Q', 'u', 'e', 's', 't', 'i', 'o', 'n'],
        Op::Dot.name() == seq!['D', 'o', 't'],
        Op::DotDot.name() == seq!['D', 'o', 't', 'D', 'o', 't'],
        Op::DotDotEq.name() == seq!['D', 'o', 't', 'D', 'o', 't', 'E', 'q'],
        Op::Eq.name() == seq!['E', 'q'],
        Op::PlusEq.name() == seq!['P', 'l', 'u', 's', 'E', 'q'],
        Op::MinusEq.name() == seq!['M', 'i', 'n', 'u', 's', 'E', 'q'],
        Op::StarEq.name() == seq!['S', 't', 'a', 'r', 'E', 'q'],
        Op::SlashEq.name() == seq!['S', 'l', 'a', 's', 'h', 'E', 'q'],
        Op::PercentEq.name() == seq!['P', 'e', 'r', 'c', 'e', 'n', 't', 'E', 'q'],
        Op::AmpEq.name() == seq!['A', 'm', 'p', 'E', 'q'],
        Op::PipeEq.name() == seq!['P', 'i', 'p', 'e', 'E', 'q'],
        Op::CaretEq.name() == seq!['C', 'a', 'r', 'e', 't', 'E', 'q'],
        Op::ShlEq.name() == seq!['S', 'h', 'l', 'E', 'q'],
        Op::ShrEq.name() == seq!['S', 'h', 'r', 'E', 'q'],
        Op::Arrow.name() == seq!['A', 'r', 'r', 'o', 'w'],
        Op::FatArrow.name() == seq!['F', 'a', 't', 'A', 'r', 'r', 'o', 'w'],
        Op::ColonColon.name() == seq!['C', 'o', 'l', 'o', 'n', 'C', 'o', 'l', 'o', 'n'],
        Op::At.name() == seq!['A', 't'],
        Op::Hash.name() == seq!['H', 'a', 's', 'h'],
{
    reveal(Op::name);
    reveal_strlit("Question");
    assert("Question"@ =~= seq!['Q', 'u', 'e', 's', 't', 'i', 'o', 'n']);
    reveal_strlit("QuestionQuestion");
    assert("QuestionQuestion"@ =~= seq!['Q', 'u', 'e', 's', 't', 'i', 'o', 'n']
        + seq!['Q', 'u', 'e', 's', 't', 'i', 'o', 'n']);
    reveal_strlit("Dot");
    assert("Dot"@ =~= seq!['D', 'o', 't']);
    reveal_strlit("DotDot");
    assert("DotDot"@ =~= seq!['D', 'o', 't', 'D', 'o', 't']);
    reveal_strlit("DotDotEq");
    assert("DotDotEq"@ =~= seq!['D', 'o', 't', 'D', 'o', 't', 'E', 'q']);
    reveal_strlit("Eq");
    assert("Eq"@ =~= seq!['E', 'q']);
    reveal_strlit("PlusEq");
    assert("PlusEq"@ =~= seq!['P', 'l', 'u', 's', 'E', 'q']);
    reveal_strlit("MinusEq");
    assert("MinusEq"@ =~= seq!['M', 'i', 'n', 'u', 's', 'E', 'q']);
    reveal_strlit("StarEq");
    assert("StarEq"@ =~= seq!['S', 't', 'a', 'r', 'E', 'q']);
    reveal_strlit("SlashEq");
    assert("SlashEq"@ =~= seq!['S', 'l', 'a', 's', 'h', 'E', 'q']);
    reveal_strlit("PercentEq");
    assert("PercentEq"@ =~= seq!['P', 'e', 'r', 'c', 'e', 'n', 't', 'E', 'q']);
    reveal_strlit("AmpEq");
    assert("AmpEq"@ =~= seq!['A', 'm', 'p', 'E', 'q']);
    reveal_strlit("PipeEq");
    assert("PipeEq"@ =~= seq!['P', 'i', 'p', 'e', 'E', 'q']);
    reveal_strlit("CaretEq");
    assert("CaretEq"@ =~= seq!['C', 'a', 'r', 'e', 't', 'E', 'q']);
    reveal_strlit("ShlEq");
    assert("ShlEq"@ =~= seq!['S', 'h', 'l', 'E', 'q']);
    reveal_strlit("ShrEq");
    assert("ShrEq"@ =~= seq!['S', 'h', 'r', 'E', 'q']);
    reveal_strlit("Arrow");
    assert("Arrow"@ =~= seq!['A', 'r', 'r', 'o', 'w']);
    reveal_strlit("FatArrow");
    assert("FatArrow"@ =~= seq!['F', 'a', 't', 'A', 'r', 'r', 'o', 'w']);
    reveal_strlit("ColonColon");
    assert("ColonColon"@ =~= seq!['C', 'o', 'l', 'o', 'n', 'C', 'o', 'l', 'o', 'n']);
    reveal_strlit("At");
    assert("At"@ =~= seq!['A', 't']);
    reveal_strlit("Hash");
    assert("Hash"@ =~= seq!['H', 'a', 's', 'h']);
}

/// How diagnostics name the brackets and separators.
pub proof fn names_of_delimiters()
    ensures
        Delim::LParen.name() == seq!['L', 'P', 'a', 'r', 'e', 'n'],
        Delim::RParen.name() == seq!['R', 'P', 'a', 'r', 'e', 'n'],
        Delim::LBrace.name() == seq!['L', 'B', 'r', 'a', 'c', 'e'],
        Delim::RBrace.name() == seq!['R', 'B', 'r', 'a', 'c', 'e'],
        Delim::LBracket.name() == seq!['L', 'B', 'r', 'a', 'c', 'k', 'e', 't'],
        Delim::RBracket.name() == seq!['R', 'B', 'r', 'a', 'c', 'k', 'e', 't'],
        Delim::Comma.name() == seq!['C', 'o', 'm', 'm', 'a'],
        Delim::Semi.name() == seq!['S', 'e', 'm', 'i'],
        Delim::Colon.name() == seq!['C', 'o', 'l', 'o', 'n'],
{
    reveal(Delim::name);
    reveal_strlit("LParen");
    assert("LParen"@ =~= seq!['L', 'P', 'a', 'r', 'e', 'n']);
    reveal_strlit("RParen");
    assert("RParen"@ =~= seq!['R', 'P', 'a', 'r', 'e', 'n']);
    reveal_strlit("LBrace");
    assert("LBrace"@ =~= seq!['L', 'B', 'r', 'a', 'c', 'e']);
    reveal_strlit("RBrace");
    assert("RBrace"@ =~= seq!['R', 'B', 'r', 'a', 'c', 'e']);
    reveal_strlit("LBracket");
    assert("LBracket"@ =~= seq!['L', 'B', 'r', 'a', 'c', 'k', 'e', 't']);
    reveal_strlit("RBracket");
    assert("RBracket"@ =~= seq!['R', 'B', 'r', 'a', 'c', 'k', 'e', 't']);
    reveal_strlit("Comma");
    assert("Comma"@ =~= seq!['C', 'o', 'm', 'm', 'a']);
    reveal_strlit("Semi");
    assert("Semi"@ =~= seq!['S', 'e', 'm', 'i']);
    reveal_strlit("Colon");
    assert("Colon"@ =~= seq!['C', 'o', 'l', 'o', 'n']);
}

/// How diagnostics show a token: its kind, and in parentheses what it holds. A text is quoted.
pub proof fn tokens_in_diagnostics(k: TokenKind)
    ensures
        k matches TokenKind::Ident(s) ==> k.shown() == "Ident("@ + debug_text(s@) + ")"@,
        k matches TokenKind::Int(s) ==> k.shown() == "Int("@ + debug_text(s@) + ")"@,
        k matches TokenKind::IntHex(s) ==> k.shown() == "IntHex("@ + debug_text(s@) + ")"@,
        k matches TokenKind::IntOct(s) ==> k.shown() == "IntOct("@ + debug_text(s@) + ")"@,
        k matches TokenKind::IntBin(s) ==> k.shown() == "IntBin("@ + debug_text(s@) + ")"@,
        k matches TokenKind::Float(s) ==> k.shown() == "Float("@ + debug_text(s@) + ")"@,
        k matches TokenKind::Str(s) ==> k.shown() == "Str("@ + debug_text(s@) + ")"@,
        k matches TokenKind::RawStr(s) ==> k.shown() == "RawStr("@ + debug_text(s@) + ")"@,
        k matches TokenKind::Char(s) ==> k.shown() == "Char("@ + debug_text(s@) + ")"@,
        k matches TokenKind::DocComment(s) ==> k.shown() == "DocComment("@ + debug_text(s@) + ")"@,
        k matches TokenKind::Error(s) ==> k.shown() == "Error("@ + debug_text(s@) + ")"@,
        k matches TokenKind::Keyword(w) ==> k.shown() == "Keyword("@ + w.name() + ")"@,
        k matches TokenKind::Op(o) ==> k.shown() == "Op("@ + o.name() + ")"@,
        k matches TokenKind::Delim(d) ==> k.shown() == "Delim("@ + d.name() + ")"@,
        k == TokenKind::Bool(true) ==> k.shown() == "Bool(true)"@,
        k == TokenKind::Bool(false) ==> k.shown() == "Bool(false)"@,
        k is Null ==> k.shown() == "Null"@,
        k is Eof ==> k.shown() == "Eof"@,
{
    reveal(TokenKind::shown);
}

} // verus!
