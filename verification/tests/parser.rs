use mtnc::ast::{
    Arg, AssignOp, BinaryOp, Block, ClosureBody, ElseBranch, Expr, FieldConstraint, ImplItem, Item,
    ItemKind, Literal, LoopExpr, MatchArmBody, OwnershipMod, Param, Pattern, Program, QueryClause,
    ServerItem, SpawnBody, Stmt, StructBody, TargetKind, TraitItem, Type, UiItem, UnaryOp,
    Visibility,
};
use mtnc::parser::{parse_program, ParseError, Parser};
use mtnc::token::{Delim, Keyword, Op, Span, Token, TokenKind};

const KEYWORDS: [Keyword; 69] = [
    Keyword::Let, Keyword::Mut, Keyword::Fn, Keyword::Async, Keyword::Await, Keyword::Struct,
    Keyword::Enum, Keyword::Trait, Keyword::Impl, Keyword::Dyn, Keyword::Mod, Keyword::Use,
    Keyword::Import, Keyword::Pub, Keyword::Const, Keyword::Static, Keyword::Type, Keyword::Where,
    Keyword::SelfValue, Keyword::SelfType, Keyword::If, Keyword::Else, Keyword::Match,
    Keyword::Case, Keyword::Loop, Keyword::While, Keyword::For, Keyword::In, Keyword::Do,
    Keyword::Break, Keyword::Continue, Keyword::Return, Keyword::Yield, Keyword::As,
    Keyword::Borrow, Keyword::Move, Keyword::Unsafe, Keyword::Try, Keyword::Catch, Keyword::Throw,
    Keyword::Spawn, Keyword::Select, Keyword::Actor, Keyword::State, Keyword::On, Keyword::Server,
    Keyword::Listen, Keyword::Table, Keyword::Index, Keyword::Schema, Keyword::Query,
    Keyword::Insert, Keyword::Update, Keyword::Delete, Keyword::Ui, Keyword::Component,
    Keyword::Prop, Keyword::Render, Keyword::Mount, Keyword::Unmount, Keyword::Style,
    Keyword::Layout, Keyword::Bind, Keyword::Option, Keyword::Result, Keyword::SomeValue,
    Keyword::NoneValue, Keyword::OkValue, Keyword::ErrValue,
];

// Longest first, so that a prefix never wins.
const OPS: [Op; 42] = [
    Op::DotDotEq, Op::ShlEq, Op::ShrEq, Op::StarStar, Op::EqEq, Op::NotEq, Op::LtEq, Op::GtEq,
    Op::AndAnd, Op::OrOr, Op::Shl, Op::Shr, Op::QuestionQuestion, Op::DotDot, Op::PlusEq,
    Op::MinusEq, Op::StarEq, Op::SlashEq, Op::PercentEq, Op::AmpEq, Op::PipeEq, Op::CaretEq,
    Op::Arrow, Op::FatArrow, Op::ColonColon, Op::Plus, Op::Minus, Op::Star, Op::Slash,
    Op::Percent, Op::Lt, Op::Gt, Op::Not, Op::Amp, Op::Pipe, Op::Caret, Op::Tilde, Op::Question,
    Op::Dot, Op::Eq, Op::At, Op::Hash,
];

const DELIMS: [Delim; 9] = [
    Delim::LParen, Delim::RParen, Delim::LBrace, Delim::RBrace, Delim::LBracket, Delim::RBracket,
    Delim::Comma, Delim::Semi, Delim::Colon,
];

fn word_kind(word: &str) -> TokenKind {
    match word {
        "true" => return TokenKind::Bool(true),
        "false" => return TokenKind::Bool(false),
        "null" => return TokenKind::Null,
        _ => {}
    }
    for k in KEYWORDS {
        if k.as_source_text() == word {
            return TokenKind::Keyword(k);
        }
    }
    TokenKind::Ident(word.to_string())
}

fn take_while(chars: &[char], from: usize, keep: fn(char) -> bool) -> String {
    chars[from..].iter().take_while(|c| keep(**c)).collect()
}

/// Splits a source text into tokens, with an end-of-file token behind the last.
fn tokenize(src: &str) -> Vec<Token> {
    let chars: Vec<char> = src.chars().collect();
    let mut tokens = Vec::new();
    let mut i = 0;
    let mut line = 1;
    let mut start = 0;
    while i < chars.len() {
        let c = chars[i];
        let span = Span { line, column: i - start + 1 };
        if c == '\n' {
            i += 1;
            line += 1;
            start = i;
            continue;
        }
        if c.is_whitespace() {
            i += 1;
            continue;
        }
        let rest: String = chars[i..].iter().collect();
        let (kind, len) = if rest.starts_with("///") {
            let text = take_while(&chars, i + 3, |c| c != '\n');
            let len = 3 + text.chars().count();
            (TokenKind::DocComment(text), len)
        } else if c.is_alphabetic() || c == '_' {
            let word = take_while(&chars, i, |c| c.is_alphanumeric() || c == '_');
            let len = word.chars().count();
            (word_kind(&word), len)
        } else if rest.starts_with("0x") {
            let text = take_while(&chars, i, |c| c.is_alphanumeric());
            let len = text.len();
            (TokenKind::IntHex(text), len)
        } else if c.is_ascii_digit() {
            let mut text = take_while(&chars, i, |c| c.is_ascii_digit() || c == '_');
            let n = text.len();
            if i + n + 1 < chars.len() && chars[i + n] == '.' && chars[i + n + 1].is_ascii_digit() {
                text.push('.');
                text.push_str(&take_while(&chars, i + n + 1, |c| c.is_ascii_digit()));
                let len = text.len();
                (TokenKind::Float(text), len)
            } else {
                (TokenKind::Int(text), n)
            }
        } else if c == '"' {
            let text = take_while(&chars, i + 1, |c| c != '"');
            let len = text.chars().count() + 2;
            (TokenKind::Str(text), len)
        } else if c == '\'' {
            let text = take_while(&chars, i + 1, |c| c != '\'');
            let len = text.chars().count() + 2;
            (TokenKind::Char(text), len)
        } else if let Some(op) = OPS.iter().find(|op| rest.starts_with(op.as_source_text())) {
            (TokenKind::Op(*op), op.as_source_text().len())
        } else if let Some(d) = DELIMS.iter().find(|d| rest.starts_with(d.as_source_text())) {
            (TokenKind::Delim(*d), 1)
        } else {
            (TokenKind::Error(c.to_string()), 1)
        };
        tokens.push(Token { kind, span });
        i += len;
    }
    tokens.push(Token { kind: TokenKind::Eof, span: Span { line, column: i - start + 1 } });
    tokens
}

/// An expression in prefix form.
fn to_sexpr(e: &Expr) -> String {
    match e {
        Expr::Literal(Literal::Int(s)) | Expr::Literal(Literal::Float(s)) => s.clone(),
        Expr::Ident(s) => s.clone(),
        Expr::Paren(inner) => to_sexpr(inner),
        Expr::Binary { op, lhs, rhs } => {
            format!("({} {} {})", binop_sym(*op), to_sexpr(lhs), to_sexpr(rhs))
        }
        Expr::Assign { op, lhs, rhs } => {
            format!("({} {} {})", assignop_sym(*op), to_sexpr(lhs), to_sexpr(rhs))
        }
        Expr::Unary { op, expr } => format!("({} {})", unop_sym(*op), to_sexpr(expr)),
        Expr::Cast { expr, ty } => format!("(as {} {})", to_sexpr(expr), ty_sym(ty)),
        Expr::Propagate(inner) => format!("(? {})", to_sexpr(inner)),
        Expr::Field { expr, name } => format!("(. {} {})", to_sexpr(expr), name),
        Expr::Call { callee, args } => format!("(call {} [{}])", to_sexpr(callee), args_sym(args)),
        Expr::MethodCall { receiver, name, args } => {
            format!("(methodcall {} {} [{}])", to_sexpr(receiver), name, args_sym(args))
        }
        Expr::Index { expr, index } => format!("(index {} {})", to_sexpr(expr), to_sexpr(index)),
        Expr::Range { lo, hi, .. } => format!("(.. {} {})", to_sexpr(lo), to_sexpr(hi)),
        other => format!("{:?}", other),
    }
}

fn args_sym(args: &[Arg]) -> String {
    args.iter().map(|a| to_sexpr(&a.value)).collect::<Vec<_>>().join(", ")
}

fn binop_sym(op: BinaryOp) -> &'static str {
    match op {
        BinaryOp::Add => "+",
        BinaryOp::Sub => "-",
        BinaryOp::Mul => "*",
        BinaryOp::Div => "/",
        BinaryOp::Mod => "%",
        BinaryOp::Pow => "**",
        BinaryOp::EqEq => "==",
        BinaryOp::NotEq => "!=",
        BinaryOp::Lt => "<",
        BinaryOp::Gt => ">",
        BinaryOp::LtEq => "<=",
        BinaryOp::GtEq => ">=",
        BinaryOp::AndAnd => "&&",
        BinaryOp::OrOr => "||",
        BinaryOp::BitAnd => "&",
        BinaryOp::BitOr => "|",
        BinaryOp::BitXor => "^",
        BinaryOp::Shl => "<<",
        BinaryOp::Shr => ">>",
        BinaryOp::Coalesce => "??",
    }
}

fn assignop_sym(op: AssignOp) -> &'static str {
    match op {
        AssignOp::Eq => "=",
        AssignOp::PlusEq => "+=",
        AssignOp::MinusEq => "-=",
        AssignOp::StarEq => "*=",
        AssignOp::SlashEq => "/=",
        AssignOp::PercentEq => "%=",
        AssignOp::AmpEq => "&=",
        AssignOp::PipeEq => "|=",
        AssignOp::CaretEq => "^=",
        AssignOp::ShlEq => "<<=",
        AssignOp::ShrEq => ">>=",
    }
}

fn unop_sym(op: UnaryOp) -> &'static str {
    match op {
        UnaryOp::Not => "!",
        UnaryOp::BitNot => "~",
        UnaryOp::Neg => "-",
    }
}

fn ty_sym(t: &Type) -> String {
    match t {
        Type::Primitive(s) => s.clone(),
        Type::Named(s, _) => s.clone(),
        other => format!("{:?}", other),
    }
}

fn parse_expr_str(src: &str) -> Expr {
    let mut p = Parser::new(tokenize(src));
    let e = p.parse_expr(0).expect("expected successful parse");
    assert!(p.at_end(), "leftover tokens after expression");
    e
}

fn expect_parse_error(src: &str) -> ParseError {
    let mut p = Parser::new(tokenize(src));
    match p.parse_expr(0) {
        Ok(e) => panic!("expected a parse error for `{}`, got {:?}", src, e),
        Err(e) => e,
    }
}

/// Reads a source text that holds no errors.
fn parse_ok(src: &str) -> Program {
    let (program, errors) = parse_program(tokenize(src));
    assert!(errors.is_empty(), "parse errors: {:?}", errors);
    program
}

/// Reads a source text that holds one item and no errors.
fn parse_item(src: &str) -> ItemKind {
    let mut program = parse_ok(src);
    assert_eq!(program.items.len(), 1);
    program.items.remove(0).kind
}

/// The first error of a source text.
fn first_error(src: &str) -> ParseError {
    let (_, mut errors) = parse_program(tokenize(src));
    assert!(!errors.is_empty());
    errors.remove(0)
}

/// The body of the only function of a source text.
fn parse_body(body: &str) -> Block {
    match parse_item(&format!("fn f() {{ {} }}", body)) {
        ItemKind::Fn(f) => f.body.expect("a body"),
        other => panic!("{:?}", other),
    }
}

fn fn_names(program: &Program) -> Vec<&str> {
    program
        .items
        .iter()
        .filter_map(|i| match &i.kind {
            ItemKind::Fn(f) => Some(f.name.as_str()),
            _ => None,
        })
        .collect()
}

fn ident(name: &str) -> Expr {
    Expr::Ident(name.to_string())
}

fn int_lit(text: &str) -> Expr {
    Expr::Literal(Literal::Int(text.to_string()))
}

#[test]
fn doc4_case_add_before_mul() {
    assert_eq!(to_sexpr(&parse_expr_str("a + b * c")), "(+ a (* b c))");
}

#[test]
fn doc4_case_cast_binds_tighter_than_add() {
    assert_eq!(to_sexpr(&parse_expr_str("a as f64 + b")), "(+ (as a f64) b)");
}

#[test]
fn doc4_case_assign_evaluates_after_add() {
    assert_eq!(to_sexpr(&parse_expr_str("x = y + z")), "(= x (+ y z))");
}

#[test]
fn doc4_case_and_before_or() {
    assert_eq!(to_sexpr(&parse_expr_str("a && b || c")), "(|| (&& a b) c)");
}

#[test]
fn doc4_case_postfix_chain_propagate_then_field() {
    assert_eq!(to_sexpr(&parse_expr_str("result?.field")), "(. (? result) field)");
}

#[test]
fn row1_vs_2_unary_before_mul() {
    assert_eq!(to_sexpr(&parse_expr_str("-a * b")), "(* (- a) b)");
}

#[test]
fn row2_vs_3_unary_before_pow() {
    assert_eq!(to_sexpr(&parse_expr_str("-a ** b")), "(** (- a) b)");
}

#[test]
fn row3_pow_right_assoc() {
    assert_eq!(to_sexpr(&parse_expr_str("a ** b ** c")), "(** a (** b c))");
}

#[test]
fn row4_vs_5_mul_before_add() {
    assert_eq!(to_sexpr(&parse_expr_str("a + b * c - d")), "(- (+ a (* b c)) d)");
}

#[test]
fn row5_add_left_assoc() {
    assert_eq!(to_sexpr(&parse_expr_str("a - b - c")), "(- (- a b) c)");
}

#[test]
fn row6_vs_5_shift_after_add() {
    assert_eq!(to_sexpr(&parse_expr_str("a + b << c")), "(<< (+ a b) c)");
}

#[test]
fn row7_vs_6_and_after_shift() {
    assert_eq!(to_sexpr(&parse_expr_str("a << b & c")), "(& (<< a b) c)");
}

#[test]
fn row8_vs_7_xor_after_and() {
    assert_eq!(to_sexpr(&parse_expr_str("a & b ^ c")), "(^ (& a b) c)");
}

#[test]
fn row9_vs_8_or_after_xor() {
    assert_eq!(to_sexpr(&parse_expr_str("a ^ b | c")), "(| (^ a b) c)");
}

#[test]
fn row10_vs_9_range_before_or_groups() {
    assert_eq!(to_sexpr(&parse_expr_str("a | b .. c | d")), "(.. (| a b) (| c d))");
}

#[test]
fn row11_vs_10_cmp_before_range_groups() {
    assert_eq!(to_sexpr(&parse_expr_str("a .. b < c .. d")), "(< (.. a b) (.. c d))");
}

#[test]
fn row12_vs_11_eq_after_cmp_groups() {
    assert_eq!(to_sexpr(&parse_expr_str("a < b == c < d")), "(== (< a b) (< c d))");
}

#[test]
fn row13_vs_12_and_after_eq_groups() {
    assert_eq!(to_sexpr(&parse_expr_str("a == b && c == d")), "(&& (== a b) (== c d))");
}

#[test]
fn row14_vs_13_or_after_and_groups() {
    assert_eq!(to_sexpr(&parse_expr_str("a && b || c && d")), "(|| (&& a b) (&& c d))");
}

#[test]
fn row15_vs_14_coalesce_after_or_groups() {
    assert_eq!(to_sexpr(&parse_expr_str("a || b ?? c || d")), "(?? (|| a b) (|| c d))");
}

#[test]
fn row17_assign_right_assoc() {
    assert_eq!(to_sexpr(&parse_expr_str("a = b = c")), "(= a (= b c))");
}

#[test]
fn call_binds_before_binary() {
    assert_eq!(to_sexpr(&parse_expr_str("f(x) + 1")), "(+ (call f [x]) 1)");
}

#[test]
fn index_binds_before_binary() {
    assert_eq!(to_sexpr(&parse_expr_str("a[0] + 1")), "(+ (index a 0) 1)");
}

#[test]
fn member_access_chain() {
    assert_eq!(to_sexpr(&parse_expr_str("a.b.c")), "(. (. a b) c)");
}

#[test]
fn call_then_field() {
    assert_eq!(to_sexpr(&parse_expr_str("a.b(1).c")), "(. (methodcall a b [1]) c)");
}

#[test]
fn nonchaining_comparison_rejected() {
    let e = expect_parse_error("a < b < c");
    assert_eq!(
        e.message,
        "chained comparison is not allowed; use `&&` to combine comparisons explicitly"
    );
}

#[test]
fn parses_full_function_with_control_flow() {
    let src = r#"
fn largest<T>(list: [T]) -> T where T: Comparable {
    let mut max = list[0];
    for item in list {
        if item.compareTo(borrow max) > 0 {
            max = item;
        }
    }
    return max;
}
"#;
    let tokens = tokenize(src);
    assert!(!tokens.iter().any(|t| matches!(t.kind, TokenKind::Error(_))));
    let (_prog, errs) = parse_program(tokens);
    assert!(errs.is_empty(), "parse errors: {:?}", errs);
}

#[test]
fn parser_recovers_from_one_bad_item_and_keeps_going() {
    let src = r#"
fn good1() { let x = 1; }
struct !!! broken
fn good2() { let y = 2; }
"#;
    let (prog, errs) = parse_program(tokenize(src));
    assert!(!errs.is_empty(), "expected at least one recorded parse error");
    let fn_names = fn_names(&prog);
    assert!(fn_names.contains(&"good1"), "good1 should have parsed despite the broken item: {:?}", fn_names);
    assert!(fn_names.contains(&"good2"), "good2 should have parsed despite the broken item: {:?}", fn_names);
}

// ---- expressions ----

#[test]
fn assignment_operators_and_ranges() {
    assert_eq!(to_sexpr(&parse_expr_str("a += b - c")), "(+= a (- b c))");
    assert_eq!(to_sexpr(&parse_expr_str("a <<= b")), "(<<= a b)");
    assert_eq!(to_sexpr(&parse_expr_str("~a & !b")), "(& (~ a) (! b))");
    match parse_expr_str("a ..= b") {
        Expr::Range { inclusive, .. } => assert!(inclusive),
        other => panic!("{:?}", other),
    }
    match parse_expr_str("a .. b") {
        Expr::Range { inclusive, .. } => assert!(!inclusive),
        other => panic!("{:?}", other),
    }
}

#[test]
fn ranges_and_equality_do_not_chain() {
    expect_parse_error("a .. b .. c");
    expect_parse_error("a == b != c");
    let e = expect_parse_error("a <= b > c");
    assert_eq!(e.span, Span { line: 1, column: 8 });
    // A level in between starts anew.
    assert_eq!(to_sexpr(&parse_expr_str("a < b && b < c")), "(&& (< a b) (< b c))");
}

#[test]
fn cast_takes_the_nearest_operand() {
    assert_eq!(to_sexpr(&parse_expr_str("a + b as i64")), "(+ a (as b i64))");
    assert_eq!(to_sexpr(&parse_expr_str("-a as i64 * b")), "(* (as (- a) i64) b)");
}

#[test]
fn minimum_power_stops_an_expression() {
    let mut p = Parser::new(tokenize("a * b + c"));
    let e = p.parse_expr(22).expect("a product");
    assert_eq!(to_sexpr(&e), "(* a b)");
    assert!(!p.at_end());
}

#[test]
fn parentheses_and_tuples() {
    assert_eq!(parse_expr_str("(a)"), Expr::Paren(Box::new(ident("a"))));
    assert_eq!(parse_expr_str("(a,)"), Expr::Tuple(vec![ident("a")]));
    assert_eq!(parse_expr_str("(a, b)"), Expr::Tuple(vec![ident("a"), ident("b")]));
    assert_eq!(parse_expr_str("()"), Expr::Tuple(vec![]));
    assert_eq!(parse_expr_str("[1, 2,]"), Expr::Array(vec![int_lit("1"), int_lit("2")]));
    assert_eq!(parse_expr_str("[]"), Expr::Array(vec![]));
}

#[test]
fn literals_of_every_kind() {
    assert_eq!(parse_expr_str("0xff"), Expr::Literal(Literal::IntHex("0xff".to_string())));
    assert_eq!(parse_expr_str("1.5"), Expr::Literal(Literal::Float("1.5".to_string())));
    assert_eq!(parse_expr_str("\"hi\""), Expr::Literal(Literal::Str("hi".to_string())));
    assert_eq!(parse_expr_str("'c'"), Expr::Literal(Literal::Char("c".to_string())));
    assert_eq!(parse_expr_str("true"), Expr::Literal(Literal::Bool(true)));
    assert_eq!(parse_expr_str("null"), Expr::Literal(Literal::Null));
}

#[test]
fn paths_and_type_arguments() {
    assert_eq!(
        parse_expr_str("a::b::c"),
        Expr::Path(vec!["a".to_string(), "b".to_string(), "c".to_string()])
    );
    // Type arguments are read and left out.
    assert_eq!(to_sexpr(&parse_expr_str("channel::<i32>()")), "(call channel [])");
    assert_eq!(to_sexpr(&parse_expr_str("a.parse::<u64>()?")), "(? (methodcall a parse []))");
    // Keywords can be used as names.
    assert_eq!(
        parse_expr_str("server::bind"),
        Expr::Path(vec!["server".to_string(), "bind".to_string()])
    );
    assert_eq!(parse_expr_str("None"), ident("None"));
    assert_eq!(parse_expr_str("self"), ident("self"));
}

#[test]
fn named_arguments_and_event_handlers() {
    match parse_expr_str("Button(label, on: click => go(), bind: x)") {
        Expr::Call { args, .. } => {
            assert_eq!(args.len(), 3);
            assert_eq!(args[0], Arg { name: None, value: ident("label") });
            assert_eq!(args[1].name, Some("on".to_string()));
            match &args[1].value {
                Expr::EventHandler { event, .. } => assert_eq!(event, "click"),
                other => panic!("{:?}", other),
            }
            assert_eq!(args[2], Arg { name: Some("bind".to_string()), value: ident("x") });
        }
        other => panic!("{:?}", other),
    }
    // An ordinary expression may follow `on:` too.
    match parse_expr_str("f(on: click)") {
        Expr::Call { args, .. } => assert_eq!(args[0].value, ident("click")),
        other => panic!("{:?}", other),
    }
}

#[test]
fn struct_literals_and_children() {
    match parse_expr_str("Point { x: 1, y: 2, ..base }") {
        Expr::StructLit { name, fields, spread } => {
            assert_eq!(name, "Point");
            assert_eq!(fields.len(), 2);
            assert_eq!(fields[1], ("y".to_string(), int_lit("2")));
            assert_eq!(spread, Some(Box::new(ident("base"))));
        }
        other => panic!("{:?}", other),
    }
    match parse_expr_str("ui::Column { Text(a), Text(b) }") {
        Expr::ComponentChildren { name, children } => {
            assert_eq!(name, "ui::Column");
            assert_eq!(children.len(), 2);
        }
        other => panic!("{:?}", other),
    }
    assert_eq!(
        parse_expr_str("Empty { }"),
        Expr::ComponentChildren { name: "Empty".to_string(), children: vec![] }
    );
}

#[test]
fn conditions_hold_no_struct_literals() {
    match parse_expr_str("if x { 1 } else if y { 2 } else { Point { x: 3 } }") {
        Expr::If(e) => {
            assert_eq!(e.cond, ident("x"));
            match e.else_branch {
                Some(ElseBranch::If(inner)) => {
                    assert_eq!(inner.cond, ident("y"));
                    match inner.else_branch {
                        Some(ElseBranch::Block(b)) => {
                            assert!(matches!(b.tail.as_deref(), Some(Expr::StructLit { .. })))
                        }
                        other => panic!("{:?}", other),
                    }
                }
                other => panic!("{:?}", other),
            }
        }
        other => panic!("{:?}", other),
    }
    // After a failure in a condition the next item reads as ever.
    let (program, errors) = parse_program(tokenize("fn a() { if + { } } fn b() { P { x: 1 } }"));
    assert_eq!(errors.len(), 1);
    match &program.items[0].kind {
        ItemKind::Fn(f) => {
            assert_eq!(f.name, "b");
            let tail = f.body.as_ref().and_then(|b| b.tail.as_deref());
            assert!(matches!(tail, Some(Expr::StructLit { .. })));
        }
        other => panic!("{:?}", other),
    }
}

#[test]
fn closures() {
    match parse_expr_str("|(input, _), n: i32| -> i32 n + 1") {
        Expr::Closure(c) => {
            assert!(!c.is_move);
            assert_eq!(c.params.len(), 2);
            assert_eq!(
                c.params[0].0,
                Pattern::Tuple(vec![Pattern::Ident("input".to_string()), Pattern::Wildcard])
            );
            assert_eq!(c.params[1].1, Some(Type::Primitive("i32".to_string())));
            assert_eq!(c.return_type, Some(Type::Primitive("i32".to_string())));
            assert!(matches!(c.body, ClosureBody::Expr(_)));
        }
        other => panic!("{:?}", other),
    }
    match parse_expr_str("move || { 1 }") {
        Expr::Closure(c) => {
            assert!(c.is_move);
            assert!(c.params.is_empty());
            assert!(matches!(c.body, ClosureBody::Block(_)));
        }
        other => panic!("{:?}", other),
    }
    match parse_expr_str("spawn move { 1 }") {
        Expr::Spawn { is_move, body } => {
            assert!(is_move);
            assert!(matches!(body, SpawnBody::Block(_)));
        }
        other => panic!("{:?}", other),
    }
}

#[test]
fn matches_with_guards_and_without_commas() {
    let src = "match v { Some(x) if x > 0 => x, A | B => { 1 } [a, ..rest] => 2, _ => 3 }";
    match parse_expr_str(src) {
        Expr::Match(m) => {
            assert_eq!(m.scrutinee, ident("v"));
            assert_eq!(m.arms.len(), 4);
            assert!(m.arms[0].guard.is_some());
            assert_eq!(
                m.arms[1].patterns,
                vec![Pattern::Or(vec![
                    Pattern::Ident("A".to_string()),
                    Pattern::Ident("B".to_string())
                ])]
            );
            assert!(matches!(m.arms[1].body, MatchArmBody::Block(_)));
            assert_eq!(
                m.arms[2].patterns,
                vec![Pattern::Array(
                    vec![Pattern::Ident("a".to_string())],
                    Some(Some("rest".to_string()))
                )]
            );
            assert_eq!(m.arms[3].patterns, vec![Pattern::Wildcard]);
        }
        other => panic!("{:?}", other),
    }
}

#[test]
fn loops() {
    let kinds: Vec<Expr> = vec![
        parse_expr_str("loop { break; }"),
        parse_expr_str("while a { }"),
        parse_expr_str("for (i, x) in xs { }"),
        parse_expr_str("do { } while (a);"),
    ];
    assert!(matches!(&kinds[0], Expr::Loop(l) if matches!(**l, LoopExpr::Loop { .. })));
    assert!(matches!(&kinds[1], Expr::Loop(l) if matches!(**l, LoopExpr::While { .. })));
    assert!(matches!(&kinds[2], Expr::Loop(l) if matches!(**l, LoopExpr::For { .. })));
    assert!(matches!(&kinds[3], Expr::Loop(l) if matches!(**l, LoopExpr::DoWhile { .. })));
}

#[test]
fn select_query_and_try() {
    match parse_expr_str("select { case x = <- ch: x, case _ = <- other: 0 }") {
        Expr::Select(arms) => {
            assert_eq!(arms.len(), 2);
            assert_eq!(arms[0].channel_expr, ident("ch"));
        }
        other => panic!("{:?}", other),
    }
    let src = "query users where age > 1 join posts on a == b orderBy name first count()";
    match parse_expr_str(src) {
        Expr::Query(q) => {
            assert_eq!(q.table, "users");
            assert_eq!(q.clauses.len(), 5);
            assert!(matches!(&q.clauses[1], QueryClause::Join { table, .. } if table == "posts"));
            assert_eq!(q.clauses[2], QueryClause::OrderBy("name".to_string()));
            assert_eq!(q.clauses[3], QueryClause::First);
            assert_eq!(q.clauses[4], QueryClause::Count);
        }
        other => panic!("{:?}", other),
    }
    match parse_expr_str("query users insert row update { a: 1 } delete") {
        Expr::Query(q) => {
            assert_eq!(q.clauses.len(), 3);
            assert_eq!(
                q.clauses[1],
                QueryClause::Update(vec![("a".to_string(), int_lit("1"))])
            );
            assert_eq!(q.clauses[2], QueryClause::Delete);
        }
        other => panic!("{:?}", other),
    }
    match parse_expr_str("try { f() } catch (e) { 0 }") {
        Expr::TryCatch { catch_var, .. } => assert_eq!(catch_var, "e"),
        other => panic!("{:?}", other),
    }
}

#[test]
fn suffixes_for_pages() {
    match parse_expr_str("Text(a) style { color: red, size: 2 }") {
        Expr::Styled { props, .. } => assert_eq!(props.len(), 2),
        other => panic!("{:?}", other),
    }
    match parse_expr_str("Row layout { gap: 1 } { a, b }") {
        Expr::Layout { props, children, .. } => {
            assert_eq!(props.len(), 1);
            assert_eq!(children.len(), 2);
        }
        other => panic!("{:?}", other),
    }
}

#[test]
fn prefixes_and_ends() {
    assert_eq!(parse_expr_str("await f"), Expr::Await(Box::new(ident("f"))));
    assert_eq!(
        parse_expr_str("borrow mut x"),
        Expr::Borrow { mutable: true, expr: Box::new(ident("x")) }
    );
    assert_eq!(parse_expr_str("throw e"), Expr::Throw(Box::new(ident("e"))));
    assert_eq!(parse_expr_str("return x"), Expr::Return(Some(Box::new(ident("x")))));
    match parse_expr_str("unsafe { 1 }") {
        Expr::Unsafe(b) => assert_eq!(b.tail, Some(Box::new(int_lit("1")))),
        other => panic!("{:?}", other),
    }
}

#[test]
fn messages_name_the_token_that_was_found() {
    let cases = [
        ("+", "expected expression, found Op(Plus)"),
        ("f(a b)", "expected `)`, found Ident(\"b\")"),
        ("a.1", "expected identifier, found Int(\"1\")"),
        ("[a", "expected `]`, found Eof"),
        ("for x y { }", "expected keyword `In`, found Ident(\"y\")"),
        ("select { case x = ! }", "expected `<`, found Op(Not)"),
        ("if a b", "expected `{`, found Ident(\"b\")"),
        ("}", "expected expression, found Delim(RBrace)"),
        ("`", "expected expression, found Error(\"`\")"),
        ("x as true", "expected identifier, found Bool(true)"),
        ("(a None", "expected `)`, found Keyword(None)"),
    ];
    for (src, message) in cases {
        assert_eq!(expect_parse_error(src).message, message, "{}", src);
    }
    // Quotes and escapes of the text are shown.
    assert_eq!(
        TokenKind::Str("say \"hi\"\n".to_string()).show(),
        "Str(\"say \\\"hi\\\"\\n\")"
    );
    assert_eq!(TokenKind::Str("x".to_string()).show_as("<x>"), "Str(<x>)");
    assert_eq!(TokenKind::Keyword(Keyword::NoneValue).show(), "Keyword(None)");
}

// ---- statements ----

#[test]
fn statements_and_tails() {
    let b = parse_body("let mut x: i32 = 1; return x; break; continue; yield x; f(); x");
    assert_eq!(b.stmts.len(), 6);
    assert!(matches!(&b.stmts[0], Stmt::Let { mutable: true, ty: Some(_), value: Some(_), .. }));
    assert_eq!(b.stmts[1], Stmt::Return(Some(ident("x"))));
    assert_eq!(b.stmts[2], Stmt::Break { label: None, value: None });
    assert_eq!(b.stmts[3], Stmt::Continue { label: None });
    assert_eq!(b.stmts[4], Stmt::Yield(ident("x")));
    assert!(matches!(&b.stmts[5], Stmt::Expr(Expr::Call { .. })));
    assert_eq!(b.tail, Some(Box::new(ident("x"))));
}

#[test]
fn block_like_expressions_need_no_semicolon() {
    let b = parse_body("if a { } match b { } loop { } { } unsafe { } x;");
    assert_eq!(b.stmts.len(), 6);
    assert!(b.tail.is_none());
    let e = first_error("fn f() { a b }");
    assert_eq!(e.message, "expected `;` after expression statement");
}

#[test]
fn items_inside_blocks() {
    let b = parse_body("#target(wasm) { fn g() { } } struct P; 1");
    assert_eq!(b.stmts.len(), 2);
    match &b.stmts[0] {
        Stmt::TargetBlock(kind, inner) => {
            assert_eq!(*kind, TargetKind::Wasm);
            assert_eq!(inner.stmts.len(), 1);
            assert!(matches!(&inner.stmts[0], Stmt::Item(_)));
        }
        other => panic!("{:?}", other),
    }
    assert!(matches!(&b.stmts[1], Stmt::Item(i) if matches!(i.kind, ItemKind::Struct(_))));
}

// ---- items ----

#[test]
fn functions_and_parameters() {
    let src = "async fn f<T: A + B, const N: usize>(borrow mut self, move a: T, b: i32 = 1, ...rest: i32) -> Option<T> where T: C, { }";
    match parse_item(src) {
        ItemKind::Fn(f) => {
            assert!(f.is_async);
            assert_eq!(f.generics.0.len(), 2);
            assert_eq!(f.params.len(), 4);
            assert_eq!(
                f.params[0],
                Param {
                    ownership: OwnershipMod::BorrowMut,
                    name: "self".to_string(),
                    is_variadic: false,
                    ty: Type::Unit,
                    default: None
                }
            );
            assert_eq!(f.params[1].ownership, OwnershipMod::Move);
            assert_eq!(f.params[2].default, Some(int_lit("1")));
            assert!(f.params[3].is_variadic);
            assert_eq!(f.params[3].name, "rest");
            assert!(matches!(f.return_type, Some(Type::Option(_))));
            assert_eq!(f.where_clause.0.len(), 1);
            assert!(f.body.is_some());
        }
        other => panic!("{:?}", other),
    }
    match parse_item("fn g(..rest: i32);") {
        ItemKind::Fn(f) => {
            assert!(f.params[0].is_variadic);
            assert!(f.body.is_none());
        }
        other => panic!("{:?}", other),
    }
}

#[test]
fn structs_enums_traits_and_impls() {
    match parse_item("pub struct P<T> { pub x: T, pub(package) y: i32, z: [u8; 4] }") {
        ItemKind::Struct(s) => match s.body {
            StructBody::Named(fs) => {
                assert_eq!(fs[0].visibility, Visibility::Pub);
                assert_eq!(fs[1].visibility, Visibility::PubPackage);
                assert_eq!(fs[2].visibility, Visibility::Private);
                assert!(matches!(&fs[2].ty, Type::Array(_, Some(_))));
            }
            other => panic!("{:?}", other),
        },
        other => panic!("{:?}", other),
    }
    assert!(matches!(parse_item("struct U;"), ItemKind::Struct(s) if s.body == StructBody::Unit));
    match parse_item("struct T(i32, str);") {
        ItemKind::Struct(s) => assert!(matches!(s.body, StructBody::Tuple(ts) if ts.len() == 2)),
        other => panic!("{:?}", other),
    }
    match parse_item("enum E { A, B(i32, bool), }") {
        ItemKind::Enum(e) => {
            assert_eq!(e.variants.len(), 2);
            assert_eq!(e.variants[1].data.len(), 2);
        }
        other => panic!("{:?}", other),
    }
    match parse_item("trait T { type Out; fn f(self) -> i32; fn g() { } }") {
        ItemKind::Trait(t) => {
            assert_eq!(t.items[0], TraitItem::AssocType("Out".to_string()));
            assert!(matches!(&t.items[1], TraitItem::Fn(f) if f.body.is_none()));
            assert!(matches!(&t.items[2], TraitItem::Fn(f) if f.body.is_some()));
        }
        other => panic!("{:?}", other),
    }
    match parse_item("impl<T> Show<T> for Box<T> where T: Show { type Out = i32; fn f() { } }") {
        ItemKind::Impl(d) => {
            assert_eq!(d.trait_ref.as_ref().map(|t| t.name.as_str()), Some("Show"));
            assert_eq!(d.target.name, "Box");
            assert!(matches!(&d.items[0], ImplItem::AssocType(n, _) if n == "Out"));
        }
        other => panic!("{:?}", other),
    }
    match parse_item("impl Box { }") {
        ItemKind::Impl(d) => assert!(d.trait_ref.is_none() && d.target.name == "Box"),
        other => panic!("{:?}", other),
    }
}

#[test]
fn modules_and_imports() {
    match parse_item("mod m { use std::db::{query, table,}; import a::b; const C: i32 = 1; }") {
        ItemKind::Mod(m) => {
            match &m.items[0].kind {
                ItemKind::Use(u) => {
                    assert_eq!(u.path, vec!["std".to_string(), "db".to_string()]);
                    assert_eq!(u.items, vec!["query".to_string(), "table".to_string()]);
                }
                other => panic!("{:?}", other),
            }
            match &m.items[1].kind {
                ItemKind::Import(path) => assert_eq!(path.len(), 2),
                other => panic!("{:?}", other),
            }
            assert!(matches!(&m.items[2].kind, ItemKind::Const(c) if c.value == int_lit("1")));
        }
        other => panic!("{:?}", other),
    }
    assert!(matches!(parse_item("static S: i32 = 1;"), ItemKind::Static(s) if s.name == "S"));
    assert!(matches!(parse_item("type A<T> = [T];"), ItemKind::TypeAlias(a) if a.name == "A"));
}

#[test]
fn tables_indexes_and_schemas() {
    let src = "table users { id: i64 primary_key auto_increment, name: String unique not_null default(1) }";
    match parse_item(src) {
        ItemKind::Table(t) => {
            assert_eq!(
                t.fields[0].constraints,
                vec![FieldConstraint::PrimaryKey, FieldConstraint::AutoIncrement]
            );
            assert_eq!(
                t.fields[1].constraints,
                vec![
                    FieldConstraint::Unique,
                    FieldConstraint::NotNull,
                    FieldConstraint::Default(int_lit("1"))
                ]
            );
        }
        other => panic!("{:?}", other),
    }
    match parse_item("index by_name on users(name) using hash;") {
        ItemKind::Index(i) => assert!(i.using_hash && i.table == "users" && i.column == "name"),
        other => panic!("{:?}", other),
    }
    assert!(matches!(parse_item("index i on t(c) using btree;"), ItemKind::Index(i) if !i.using_hash));
    assert!(matches!(parse_item("index i on t(c);"), ItemKind::Index(i) if !i.using_hash));
    let src = "schema s { version 2 { table t { } x(); } version 99999999999999999999 { } }";
    match parse_item(src) {
        ItemKind::Schema(s) => {
            assert_eq!(s.versions.len(), 2);
            assert_eq!(s.versions[0].0, 2);
            // Of a version only the items count.
            assert_eq!(s.versions[0].1.len(), 1);
            // A number that is too large counts as zero.
            assert_eq!(s.versions[1].0, 0);
        }
        other => panic!("{:?}", other),
    }
    assert_eq!(
        first_error("schema s { version x { } }").message,
        "expected integer version number"
    );
}

#[test]
fn servers_actors_and_pages() {
    match parse_item("server api { listen(80); on get(req: Request) { } }") {
        ItemKind::Server(s) => {
            assert!(matches!(&s.items[0], ServerItem::Listen(args) if args.len() == 1));
            assert!(matches!(&s.items[1], ServerItem::On(h) if h.name == "get"));
        }
        other => panic!("{:?}", other),
    }
    assert!(matches!(
        parse_item("actor a { state n: i32 = 0; on inc() { } }"),
        ItemKind::Actor(a) if a.items.len() == 2
    ));
    let src = "ui Page { state n: i32 = 0; prop p: str; render { } mount { } unmount { } async fn f() { } }";
    match parse_item(src) {
        ItemKind::Ui(u) => {
            assert_eq!(u.items.len(), 6);
            assert!(matches!(&u.items[2], UiItem::Render(_)));
            assert!(matches!(&u.items[5], UiItem::Fn(f) if f.is_async));
        }
        other => panic!("{:?}", other),
    }
    assert!(matches!(parse_item("component C { }"), ItemKind::Component(_)));
}

#[test]
fn attributes_visibility_and_targets() {
    let program = parse_ok("@inline @cfg(a, 1,) pub(package) fn f() { }\n#target(native) { fn g() { } }");
    let item: &Item = &program.items[0];
    assert_eq!(item.attrs.len(), 2);
    assert_eq!(item.attrs[1].args, vec![ident("a"), int_lit("1")]);
    assert_eq!(item.visibility, Visibility::PubPackage);
    assert_eq!(item.span, Span { line: 1, column: 1 });
    match &program.items[1].kind {
        ItemKind::TargetBlock(kind, items) => {
            assert_eq!(*kind, TargetKind::Native);
            assert_eq!(items.len(), 1);
        }
        other => panic!("{:?}", other),
    }
    assert!(matches!(
        parse_item("#target(all) { }"),
        ItemKind::TargetBlock(TargetKind::All, items) if items.is_empty()
    ));
}

#[test]
fn errors_in_items() {
    let cases = [
        ("x", "expected item, found Ident(\"x\")"),
        ("pub let", "expected item, found Keyword(Let)"),
        ("pub(crate) fn f() { }", "expected `package` inside pub(...)"),
        ("pub(fn) fn f() { }", "expected identifier, found Keyword(Fn)"),
        ("#goal(all) { }", "expected `target` after `#`"),
        ("#target(moon) { }", "expected native|wasm|all inside #target(...)"),
        ("server s { x }", "expected `listen` or `on` inside server block"),
        ("actor a { x }", "expected `state` or `on` inside actor block"),
        (
            "ui u { x }",
            "expected state/prop/render/mount/unmount/fn inside ui/component block, found Ident(\"x\")",
        ),
        ("async struct S;", "expected keyword `Fn`, found Keyword(Struct)"),
        ("struct S { x }", "expected `:`, found Delim(RBrace)"),
        ("fn f(a: i32", "expected `)`, found Eof"),
    ];
    for (src, message) in cases {
        assert_eq!(first_error(src).message, message, "{}", src);
    }
}

// ---- types ----

fn parse_type_str(src: &str) -> Type {
    match parse_item(&format!("type T = {};", src)) {
        ItemKind::TypeAlias(a) => a.ty,
        other => panic!("{:?}", other),
    }
}

#[test]
fn types_of_every_kind() {
    let i32_ty = || Type::Primitive("i32".to_string());
    assert_eq!(parse_type_str("()"), Type::Unit);
    assert_eq!(parse_type_str("(i32)"), i32_ty());
    assert_eq!(parse_type_str("(i32,)"), Type::Tuple(vec![i32_ty()]));
    assert_eq!(parse_type_str("!"), Type::Never);
    assert_eq!(parse_type_str("[i32]"), Type::Array(Box::new(i32_ty()), None));
    assert_eq!(
        parse_type_str("fn(i32, i32) -> i32"),
        Type::Fn(vec![i32_ty(), i32_ty()], Box::new(i32_ty()))
    );
    assert_eq!(parse_type_str("dyn Show<i32>"), Type::Dyn("Show".to_string(), vec![i32_ty()]));
    assert_eq!(
        parse_type_str("Result<i32, str>"),
        Type::Result(Box::new(i32_ty()), Box::new(Type::Primitive("str".to_string())))
    );
    assert_eq!(parse_type_str("a::B"), Type::Named("a::B".to_string(), vec![]));
    assert_eq!(parse_type_str("Self"), Type::Named("Self".to_string(), vec![]));
    assert_eq!(
        parse_type_str("Matrix<f64, 2, 3>"),
        Type::Named(
            "Matrix".to_string(),
            vec![
                Type::Primitive("f64".to_string()),
                Type::ConstArg(Box::new(int_lit("2"))),
                Type::ConstArg(Box::new(int_lit("3"))),
            ]
        )
    );
}

#[test]
fn borrow_and_ampersand_are_one_type() {
    assert_eq!(parse_type_str("borrow mut Self"), parse_type_str("&mut Self"));
    assert_eq!(parse_type_str("borrow i32"), parse_type_str("&i32"));
}

#[test]
fn references_hold_what_stands_behind_them() {
    let read = |src: &str| Parser::new(tokenize(src)).parse_type().unwrap();
    for t in ["Self", "i32", "Option<[u8]>", "&mut str", "Map<str, (i32, bool)>"] {
        for mutable in [false, true] {
            let rest = if mutable { format!("mut {}", t) } else { t.to_string() };
            let expected = Type::Ref { lifetime: None, mutable, inner: Box::new(read(t)) };
            assert_eq!(read(&format!("borrow {}", rest)), expected);
            assert_eq!(read(&format!("& {}", rest)), expected);
        }
    }
    assert_eq!(
        read("borrow Self"),
        Type::Ref {
            lifetime: None,
            mutable: false,
            inner: Box::new(Type::Named("Self".to_string(), vec![])),
        }
    );
}

// ---- whole programs ----

#[test]
fn doc_comments_do_not_count() {
    let plain = parse_ok("fn f() { 1 + 2 }");
    let commented = parse_ok("/// one\nfn f() { /// two\n1 + /// three\n2 }");
    match (&plain.items[0].kind, &commented.items[0].kind) {
        (ItemKind::Fn(a), ItemKind::Fn(b)) => assert_eq!(a.body, b.body),
        other => panic!("{:?}", other),
    }
}

#[test]
fn every_bad_item_is_noted_and_every_good_one_kept() {
    let src = "fn a() { } struct ; enum { } fn b() { } ) x fn c() { } trait";
    let (program, errors) = parse_program(tokenize(src));
    assert_eq!(fn_names(&program), ["a", "b", "c"]);
    let messages: Vec<&str> = errors.iter().map(|e| e.message.as_str()).collect();
    assert_eq!(
        messages,
        [
            "expected identifier, found Delim(Semi)",
            "expected identifier, found Delim(LBrace)",
            "expected item, found Delim(RParen)",
            "expected identifier, found Eof",
        ]
    );
}

#[test]
fn parser_and_function_agree() {
    let src = "fn a() { } struct ! fn b() { }";
    let mut p = Parser::new(tokenize(src));
    let program = p.parse_program();
    assert!(p.at_end());
    let (other, errors) = parse_program(tokenize(src));
    assert_eq!(program, other);
    assert_eq!(p.errors, errors);
    assert_eq!(p.errors(), &errors);
}

#[test]
fn nothing_but_the_end() {
    let (program, errors) = parse_program(tokenize(""));
    assert!(program.items.is_empty() && errors.is_empty());
}

#[test]
fn functions_and_structs_have_plain_names() {
    let message = |src: &str| parse_program(tokenize(src)).1.remove(0).message;
    assert_eq!(message("fn query() { }"), "expected identifier, found Keyword(Query)");
    assert_eq!(message("struct table;"), "expected identifier, found Keyword(Table)");
    assert_eq!(message("trait T { fn on(self); }"), "expected identifier, found Keyword(On)");
    // Elsewhere a keyword may be a name.
    assert!(parse_program(tokenize("use std::db::query; enum state { on }")).1.is_empty());
}

#[test]
fn joined_programs() {
    let names = |src: &str| -> (Vec<String>, Vec<String>) {
        let (program, errors) = parse_program(tokenize(src));
        let names = program.items.iter().map(|i| match &i.kind {
            ItemKind::Fn(f) => f.name.clone(),
            ItemKind::Struct(d) => d.name.clone(),
            _ => "?".to_string(),
        });
        (names.collect(), errors.iter().map(|e| e.message.clone()).collect())
    };
    let a = "struct A; fn f() { g(); } ";
    let b = "struct ; fn h() { } } fn i() { }";
    let (of_a, none) = names(a);
    let (of_b, errors) = names(b);
    assert!(none.is_empty());
    assert_eq!(errors.len(), 2);
    let (of_both, all) = names(&format!("{}{}", a, b));
    assert_eq!(of_both, [of_a, of_b].concat());
    assert_eq!(all, errors);
}
