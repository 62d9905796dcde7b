use mtnc::ast::{Expr, Literal, Program, Type, UnaryOp};
use mtnc::parser::parse_program;
use mtnc::token::{Delim, Keyword, Op, Span, Token, TokenKind};
use mtnc::types::names::Names;
use mtnc::types::{
    mark_type_params, resolve_type, substitute_type_params, unify_infer, Ctx, Env, FnSig,
    FunctionShape, GenericArg, ImplRecord, ParamKind, StructShape, TraitShape, Ty, TypeChecker,
    TypeError,
};

const KEYWORDS: [Keyword; 69] = [
    Keyword::Let, Keyword::Mut, Keyword::Fn, Keyword::Async, Keyword::Await, Keyword::Struct,
    Keyword::Enum, Keyword::Trait, Keyword::Impl, Keyword::Dyn, Keyword::Mod, Keyword::Use,
    Keyword::Import, Keyword::Pub, Keyword::Const, Keyword::Static, Keyword::Type, Keyword::Where,
    Keyword::SelfValue, Keyword::SelfType, Keyword::If, Keyword::Else, Keyword::Match,
    Keyword::Case, Keyword::Loop, Keyword::While, Keyword::For, Keyword::In, Keyword::Do,
    Keyword::Break, Keyword::Continue, Keyword::Return, Keyword::Yield, Keyword::As,
    Keyword::Borrow, Keyword::Move, Keyword::Unsafe, Keyword::Try, Keyword::Catch, Keyword::Throw,
    Keyword::Spawn, Keyword::Select, Keyword::Actor, Keyword::State, Keyword::On, Keyword::Server,
    Keyword::Listen, Keyword::Table, Keyword::Index, Keyword::Schema, Keyword::Query,
    Keyword::Insert, Keyword::Update, Keyword::Delete, Keyword::Ui, Keyword::Component,
    Keyword::Prop, Keyword::Render, Keyword::Mount, Keyword::Unmount, Keyword::Style,
    Keyword::Layout, Keyword::Bind, Keyword::Option, Keyword::Result, Keyword::SomeValue,
    Keyword::NoneValue, Keyword::OkValue, Keyword::ErrValue,
];

// Longest first, so that a prefix never wins.
const OPS: [Op; 42] = [
    Op::DotDotEq, Op::ShlEq, Op::ShrEq, Op::StarStar, Op::EqEq, Op::NotEq, Op::LtEq, Op::GtEq,
    Op::AndAnd, Op::OrOr, Op::Shl, Op::Shr, Op::QuestionQuestion, Op::DotDot, Op::PlusEq,
    Op::MinusEq, Op::StarEq, Op::SlashEq, Op::PercentEq, Op::AmpEq, Op::PipeEq, Op::CaretEq,
    Op::Arrow, Op::FatArrow, Op::ColonColon, Op::Plus, Op::Minus, Op::Star, Op::Slash,
    Op::Percent, Op::Lt, Op::Gt, Op::Not, Op::Amp, Op::Pipe, Op::Caret, Op::Tilde, Op::Question,
    Op::Dot, Op::Eq, Op::At, Op::Hash,
];

const DELIMS: [Delim; 9] = [
    Delim::LParen, Delim::RParen, Delim::LBrace, Delim::RBrace, Delim::LBracket, Delim::RBracket,
    Delim::Comma, Delim::Semi, Delim::Colon,
];

fn word_kind(word: &str) -> TokenKind {
    match word {
        "true" => return TokenKind::Bool(true),
        "false" => return TokenKind::Bool(false),
        "null" => return TokenKind::Null,
        _ => {}
    }
    for k in KEYWORDS {
        if k.as_source_text() == word {
            return TokenKind::Keyword(k);
        }
    }
    TokenKind::Ident(word.to_string())
}

fn take_while(chars: &[char], from: usize, keep: fn(char) -> bool) -> String {
    chars[from..].iter().take_while(|c| keep(**c)).collect()
}

/// Splits a source text into tokens, with an end-of-file token behind the last.
fn tokenize(src: &str) -> Vec<Token> {
    let chars: Vec<char> = src.chars().collect();
    let mut tokens = Vec::new();
    let mut i = 0;
    let mut line = 1;
    let mut start = 0;
    while i < chars.len() {
        let c = chars[i];
        let span = Span { line, column: i - start + 1 };
        if c == '\n' {
            i += 1;
            line += 1;
            start = i;
            continue;
        }
        if c.is_whitespace() {
            i += 1;
            continue;
        }
        let rest: String = chars[i..].iter().collect();
        let (kind, len) = if rest.starts_with("///") {
            let text = take_while(&chars, i + 3, |c| c != '\n');
            let len = 3 + text.chars().count();
            (TokenKind::DocComment(text), len)
        } else if c.is_alphabetic() || c == '_' {
            let word = take_while(&chars, i, |c| c.is_alphanumeric() || c == '_');
            let len = word.chars().count();
            (word_kind(&word), len)
        } else if rest.starts_with("0x") {
            let text = take_while(&chars, i, |c| c.is_alphanumeric());
            let len = text.len();
            (TokenKind::IntHex(text), len)
        } else if c.is_ascii_digit() {
            let mut text = take_while(&chars, i, |c| c.is_ascii_digit() || c == '_');
            let n = text.len();
            if i + n + 1 < chars.len() && chars[i + n] == '.' && chars[i + n + 1].is_ascii_digit() {
                text.push('.');
                text.push_str(&take_while(&chars, i + n + 1, |c| c.is_ascii_digit()));
                let len = text.len();
                (TokenKind::Float(text), len)
            } else {
                (TokenKind::Int(text), n)
            }
        } else if c == '"' {
            let text = take_while(&chars, i + 1, |c| c != '"');
            let len = text.chars().count() + 2;
            (TokenKind::Str(text), len)
        } else if c == '\'' {
            let text = take_while(&chars, i + 1, |c| c != '\'');
            let len = text.chars().count() + 2;
            (TokenKind::Char(text), len)
        } else if let Some(op) = OPS.iter().find(|op| rest.starts_with(op.as_source_text())) {
            (TokenKind::Op(*op), op.as_source_text().len())
        } else if let Some(d) = DELIMS.iter().find(|d| rest.starts_with(d.as_source_text())) {
            (TokenKind::Delim(*d), 1)
        } else {
            (TokenKind::Error(c.to_string()), 1)
        };
        tokens.push(Token { kind, span });
        i += len;
    }
    tokens.push(Token { kind: TokenKind::Eof, span: Span { line, column: i - start + 1 } });
    tokens
}

fn parse(src: &str) -> Program {
    let (program, errors) = parse_program(tokenize(src));
    assert!(errors.is_empty(), "parse errors: {:?}", errors);
    program
}

/// The messages of the errors in a program.
fn check(src: &str) -> Vec<String> {
    let mut checker = TypeChecker::new();
    checker.check_program(&parse(src));
    checker.errors.into_iter().map(|e| e.message).collect()
}

/// The messages of the errors in the body of a function.
fn check_body(body: &str) -> Vec<String> {
    check(&format!("fn f() {{ {} }}", body))
}

fn accepts(src: &str) {
    let errors = check(src);
    assert!(errors.is_empty(), "{}: {:?}", src, errors);
}

const COERCION: &str = "(Document 5 §6: no implicit coercion, use `as`)";

// ---- written types ----

fn prim(name: &str) -> Type {
    Type::Primitive(name.to_string())
}

#[test]
fn primitives_resolve_by_name() {
    let cases = [
        ("i8", Ty::I8),
        ("i16", Ty::I16),
        ("i32", Ty::I32),
        ("i64", Ty::I64),
        ("i128", Ty::I128),
        ("isize", Ty::Isize),
        ("u8", Ty::U8),
        ("u16", Ty::U16),
        ("u32", Ty::U32),
        ("u64", Ty::U64),
        ("u128", Ty::U128),
        ("usize", Ty::Usize),
        ("f32", Ty::F32),
        ("f64", Ty::F64),
        ("bool", Ty::Bool),
        ("char", Ty::Char),
        ("String", Ty::StringTy),
        ("str", Ty::Str),
        ("thing", Ty::Named("thing".to_string())),
    ];
    for (name, t) in cases {
        assert_eq!(resolve_type(&prim(name)), t);
    }
}

#[test]
fn written_types_resolve() {
    let i32_ty = || Box::new(prim("i32"));
    assert_eq!(
        resolve_type(&Type::Named("List".to_string(), vec![prim("i32")])),
        Ty::Named("List".to_string())
    );
    assert_eq!(resolve_type(&Type::Array(i32_ty(), None)), Ty::Array(Box::new(Ty::I32)));
    assert_eq!(
        resolve_type(&Type::Tuple(vec![prim("i32"), prim("str")])),
        Ty::Tuple(vec![Ty::I32, Ty::Str])
    );
    assert_eq!(
        resolve_type(&Type::Ref { lifetime: None, mutable: true, inner: i32_ty() }),
        Ty::Ref(true, Box::new(Ty::I32))
    );
    assert_eq!(
        resolve_type(&Type::Dyn("Show".to_string(), vec![])),
        Ty::DynTrait("Show".to_string())
    );
    assert_eq!(
        resolve_type(&Type::Fn(vec![prim("u8")], i32_ty())),
        Ty::Fn(vec![Ty::U8], Box::new(Ty::I32))
    );
    assert_eq!(resolve_type(&Type::Option(i32_ty())), Ty::OptionTy(Box::new(Ty::I32)));
    assert_eq!(
        resolve_type(&Type::Result(i32_ty(), Box::new(prim("str")))),
        Ty::ResultTy(Box::new(Ty::I32), Box::new(Ty::Str))
    );
    assert_eq!(resolve_type(&Type::Unit), Ty::Unit);
    assert_eq!(resolve_type(&Type::Never), Ty::Never);
    let value = Expr::Literal(Literal::Int("2".to_string()));
    assert_eq!(resolve_type(&Type::ConstArg(Box::new(value))), Ty::Unit);
}

#[test]
fn types_as_they_are_shown() {
    let named = |n: &str| Ty::Named(n.to_string());
    let cases = vec![
        (Ty::Isize, "isize"),
        (Ty::StringTy, "String"),
        (Ty::Unit, "()"),
        (Ty::Never, "!"),
        (Ty::Null, "null"),
        (Ty::Array(Box::new(Ty::U8)), "[u8]"),
        (Ty::Tuple(vec![]), "()"),
        (Ty::Tuple(vec![Ty::I32, Ty::Str, Ty::Bool]), "(i32, str, bool)"),
        (Ty::Ref(true, Box::new(Ty::Char)), "&mut char"),
        (Ty::Ref(false, Box::new(Ty::Char)), "&char"),
        (
            Ty::Generic(
                "Matrix".to_string(),
                vec![GenericArg::Type(Ty::F64), GenericArg::Const(2), GenericArg::Const(-30)],
            ),
            "Matrix<f64, 2, -30>",
        ),
        (Ty::TypeParam("T".to_string()), "T"),
        (Ty::DynTrait("Show".to_string()), "dyn Show"),
        (Ty::OptionTy(Box::new(named("P"))), "Option<P>"),
        (Ty::ResultTy(Box::new(Ty::I8), Box::new(Ty::U16)), "Result<i8, u16>"),
        (Ty::Fn(vec![Ty::I32, Ty::I32], Box::new(Ty::F32)), "fn(i32, i32) -> f32"),
    ];
    for (t, text) in cases {
        assert_eq!(t.show(), text);
    }
    assert_eq!(GenericArg::Const(i64::MIN).show(), "-9223372036854775808");
    assert_eq!(GenericArg::Const(0).show(), "0");
    assert_eq!(GenericArg::Type(Ty::I64).show(), "i64");
}

#[test]
fn copies_are_the_same() {
    let t = Ty::Fn(
        vec![Ty::Generic("M".to_string(), vec![GenericArg::Type(Ty::I8), GenericArg::Const(7)])],
        Box::new(Ty::Tuple(vec![Ty::Null, Ty::Ref(true, Box::new(Ty::U128))])),
    );
    assert_eq!(t.copy(), t);
    assert_eq!(t.clone(), t);
    assert_eq!(GenericArg::Const(7).clone(), GenericArg::Const(7));
    assert!(t.same(&t.copy()));
    assert!(!t.same(&Ty::Null));
    assert!(!GenericArg::Const(1).same(&GenericArg::Type(Ty::I8)));
}

#[test]
fn shapes_can_be_cloned() {
    let sig = FnSig { params: vec![Ty::I32], ret: Ty::Bool, has_default_body: true };
    assert_eq!(format!("{:?}", sig.clone()), format!("{:?}", sig));
    let mut methods: Names<FnSig> = Names::new();
    methods.insert("f".to_string(), sig.clone());
    methods.insert("g".to_string(), sig);
    let shape = TraitShape { methods: methods.clone() };
    assert_eq!(format!("{:?}", shape.clone()), format!("{:?}", shape));
    let record = ImplRecord { trait_name: Some("T".to_string()), methods };
    assert_eq!(format!("{:?}", record.clone()), format!("{:?}", record));
    let generics = vec![
        ParamKind::Type { name: "T".to_string(), bounds: vec!["A".to_string()] },
        ParamKind::Const { name: "N".to_string(), ty: Ty::Usize },
    ];
    let point = StructShape {
        fields: vec![("x".to_string(), Ty::F64)],
        is_tuple: false,
        generics: generics.clone(),
    };
    assert_eq!(format!("{:?}", point.clone()), format!("{:?}", point));
    let function = FunctionShape {
        params: vec![],
        ret: Ty::Unit,
        generics,
        bounds: vec![("T".to_string(), vec!["A".to_string()])],
    };
    assert_eq!(format!("{:?}", function.clone()), format!("{:?}", function));
}

// ---- literals and names ----

#[test]
fn integer_literals_take_up_numeric_types() {
    accepts("fn f() { let a: u8 = 25; let b: f64 = 1; let c: i32 = 0xff; let d = 1; let e: i32 = d; }");
    assert_eq!(
        check_body("let a = 1; let b: i64 = a;"),
        [format!("expected `i64`, found `i32` {}", COERCION)]
    );
    assert_eq!(
        check_body("let a = 1.5; let b: f32 = a;"),
        [format!("expected `f32`, found `f64` {}", COERCION)]
    );
    accepts("fn f() { let a: f32 = 1.5; }");
}

#[test]
fn arguments_tell_literals_their_type() {
    accepts("fn setAge(age: u8) { } fn f() { setAge(25); }");
    assert_eq!(
        check("fn setAge(age: u8) { } fn f() { setAge(true); }"),
        [format!("expected `u8`, found `bool` {}", COERCION)]
    );
}

#[test]
fn other_literals_have_a_type_of_their_own() {
    assert_eq!(
        check_body("let x: bool = \"hi\";"),
        [format!("expected `bool`, found `String` {}", COERCION)]
    );
    assert_eq!(
        check_body("let x: String = 'c';"),
        [format!("expected `String`, found `char` {}", COERCION)]
    );
}

#[test]
fn null_is_rejected_in_safe_code() {
    assert_eq!(
        check_body("let x: i32 = null;"),
        ["`null` is not usable where `i32` is expected -- use `Option<T>` in safe code (Document 5 §2.6)"]
    );
    accepts("fn f() { let x = null; }");
}

#[test]
fn names_and_scopes() {
    assert_eq!(check_body("let y: i32 = x;"), ["undefined variable `x`"]);
    accepts("fn f() { let x = 1; { let x = true; let y: bool = x; } let z: i32 = x; }");
    assert_eq!(check_body("{ let a = 1; } a;"), ["undefined variable `a`"]);
    assert_eq!(
        check_body("let x;"),
        ["cannot infer type: no annotation and no initializer"]
    );
    // The annotation wins over the value.
    assert_eq!(
        check_body("let x: bool = 'c'; let y: bool = x;"),
        [format!("expected `bool`, found `char` {}", COERCION)]
    );
}

#[test]
fn context_is_the_function() {
    let mut checker = TypeChecker::new();
    checker.check_program(&parse("fn good() { } fn bad() { x; }"));
    assert_eq!(
        checker.errors,
        [TypeError { message: "undefined variable `x`".to_string(), context: "bad".to_string() }]
    );
    assert_eq!(checker.errors()[0].show(), "type error in `bad`: undefined variable `x`");
}

#[test]
fn return_types_are_expected_of_the_last_expression() {
    accepts("fn f() -> u8 { 1 }");
    assert_eq!(
        check("fn f() -> bool { 'c' }"),
        [format!("expected `bool`, found `char` {}", COERCION)]
    );
    accepts("fn f() -> bool;");
}

// ---- arrays, tuples, operators ----

#[test]
fn arrays() {
    assert_eq!(
        check_body("let empty = [];"),
        ["cannot infer type of empty array literal `[]` -- add an explicit type annotation"]
    );
    accepts("fn f() { let empty: [i32] = []; let a: [u8] = [1, 2]; let b: u8 = a[0]; }");
    assert_eq!(
        check_body("let a = [1, 'c'];"),
        [
            format!("expected `i32`, found `char` {}", COERCION),
            "array element type mismatch: expected `i32`, found `char`".to_string(),
        ]
    );
    assert_eq!(
        check_body("let x: [i32] = [1.5];"),
        [format!("expected `[i32]`, found `[f64]` {}", COERCION)]
    );
    assert_eq!(check_body("let a = true; a[0];"), ["cannot index into type `bool`"]);
}

#[test]
fn tuples() {
    accepts("fn f() { let t: (u8, f64) = (1, 2.5); let u = (1, true); let v: (i32, bool) = u; }");
    assert_eq!(
        check_body("let t: (u8, bool) = (1, 2);"),
        [format!("expected `(u8, bool)`, found `(u8, i32)` {}", COERCION)]
    );
}

#[test]
fn operators() {
    accepts("fn f() { let a: u8 = 1; let b: u8 = a + 5; let c: bool = a < 2 && !false; -a; ~a; }");
    assert_eq!(
        check_body("let a = 1; let b = 2.5; a + b;"),
        [
            format!("expected `i32`, found `f64` {}", COERCION),
            format!("`Add`: mismatched types `i32` and `f64` {}", COERCION),
        ]
    );
    assert_eq!(
        check_body("let a = 1; let b = true; a * b;")[1],
        format!("`Mul`: mismatched types `i32` and `bool` {}", COERCION)
    );
    assert_eq!(
        check_body("let a = 1; let b = true; a == b;")[1],
        "comparison between mismatched types `i32` and `bool` (Document 5 §6)"
    );
    assert_eq!(
        check_body("let a = 1; a || a;"),
        ["`&&`/`||` requires `bool`, found `i32`", "`&&`/`||` requires `bool`, found `i32`"]
    );
    assert_eq!(check_body("!'c';"), ["`!` requires `bool`, found `char`"]);
    assert_eq!(check_body("-'c';"), ["unary `-` requires a numeric type, found `char`"]);
    accepts("fn f(o: Option<i32>) -> i32 { o ?? o }");
}

#[test]
fn casts_assignments_ranges_and_borrows() {
    accepts("fn f() { let a = 1 as u8; let b: u8 = a; let r: bool = 'c' as bool; }");
    assert_eq!(
        check_body("let mut a = 1; a = true;"),
        [format!("expected `i32`, found `bool` {}", COERCION)]
    );
    accepts("fn f() { let a: u8 = 1; let r: u8 = a .. 5; }");
    accepts("fn f() { let a: &u8 = borrow 1; let b: &mut u8 = borrow mut 1; }");
    assert_eq!(
        check_body("let a: &u8 = borrow mut 1;"),
        [format!("expected `&u8`, found `&mut u8` {}", COERCION)]
    );
}

// ---- control flow ----

#[test]
fn branches_have_to_agree() {
    accepts("fn f() { let a: i32 = if true { 1 } else { 2 }; }");
    assert_eq!(
        check_body("let a = if true { 1 } else { 'c' };"),
        [
            format!("expected `i32`, found `char` {}", COERCION),
            "`if`/`else` branches have incompatible types: `i32` and `char` (Document 5 rule 5: no cross-branch guessing)".to_string(),
        ]
    );
    assert_eq!(
        check_body("let a = if true { 1 } else if false { 'c' } else { 'd' };").last().map(String::as_str),
        Some("`if`/`else if` branches have incompatible types: `i32` and `char` (Document 5 rule 5)")
    );
    assert_eq!(
        check_body("if 1 == 1 { } if 'c' { }"),
        [format!("expected `bool`, found `char` {}", COERCION)]
    );
}

#[test]
fn arms_have_to_agree() {
    accepts("fn f() { let a: i32 = match 1 { 1 => 2, _ => { 3 } }; }");
    assert_eq!(
        check_body("match 1 { 1 => 2, _ => \"two\" };"),
        [
            format!("expected `i32`, found `String` {}", COERCION),
            "`match` arms have incompatible types: `i32` and `String` (Document 5 rule 5: no cross-branch guessing)".to_string(),
        ]
    );
    assert_eq!(
        check_body("match 1 { _ if 'c' => 1 };"),
        [format!("expected `bool`, found `char` {}", COERCION)]
    );
}

#[test]
fn closures_see_their_parameters_and_what_is_outside() {
    accepts("fn f() { let a = 1; let g = |b: i32| a + b; }");
    assert_eq!(check_body("let g = |b: i32| c;"), ["undefined variable `c`"]);
    // The parameters do not outlast the closure.
    assert_eq!(check_body("|b: i32| b; b;"), ["undefined variable `b`"]);
}

// ---- structs and enums ----

const POINT: &str = "struct Point { x: i32, y: f64 } ";

#[test]
fn struct_literals() {
    accepts(&format!("{} fn f() {{ let p = Point {{ x: 1, y: 2 }}; let x: i32 = p.x; }}", POINT));
    let cases = [
        ("Point { x: 1 };", "missing field `y` in struct literal for `Point`"),
        ("Point { x: 1, y: 2, z: 3 };", "struct `Point` has no field `z`"),
        ("Other { x: 1 };", "undefined struct `Other`"),
        ("let p = Point { x: 1, y: 2 }; p.z;", "struct `Point` has no field `z`"),
    ];
    for (body, message) in cases {
        assert_eq!(check(&format!("{} fn f() {{ {} }}", POINT, body)), [message]);
    }
    accepts(&format!("{} fn f(q: Point) {{ Point {{ x: 1, ..q }}; }}", POINT));
    assert_eq!(
        check(&format!("{} fn f() {{ Point {{ x: true, y: 2 }}; }}", POINT)),
        [format!("expected `i32`, found `bool` {}", COERCION)]
    );
}

#[test]
fn tuple_struct_fields_have_numbers() {
    assert_eq!(
        check("struct P(i32, bool); fn f(p: P) { P { a: 1 }; }"),
        [
            "struct `P` has no field `a`",
            "missing field `0` in struct literal for `P`",
            "missing field `1` in struct literal for `P`",
        ]
    );
}

#[test]
fn enum_variants() {
    let decl = "enum Shape { Empty, Circle(f64), Rect(i32, i32) } ";
    let run = |body: &str| check(&format!("{} fn f() {{ {} }}", decl, body));
    assert!(run("let s: Shape = Shape::Empty; let c: Shape = Shape::Circle(1); Shape::Rect(1, 2);").is_empty());
    assert_eq!(
        run("Shape::Circle;"),
        ["enum variant `Shape::Circle` carries data and must be called with arguments"]
    );
    assert_eq!(run("Shape::Square;"), ["enum `Shape` has no variant `Square`"]);
    assert_eq!(run("Shape::Square(1);"), ["enum `Shape` has no variant `Square`"]);
    assert_eq!(run("Shape::Rect(1);"), ["`Shape::Rect` expects 2 argument(s), found 1"]);
    assert_eq!(
        run("Shape::Rect(1, true);"),
        [format!("expected `i32`, found `bool` {}", COERCION)]
    );
    // Paths of which nothing is known are left alone.
    assert!(run("other::Thing; other::make(1);").is_empty());
}

// ---- generics ----

const MATRIX: &str = "struct Matrix<T, const ROWS: usize, const COLS: usize> { data: [T] } ";

#[test]
fn matrix_products() {
    let run = |body: &str| {
        check(&format!("{} fn f(v: i32) {{ {} }}", MATRIX, body))
    };
    let ok = "let a: Matrix<f64, 2, 3> = v as Matrix<f64, 2, 3>; \
              let b: Matrix<f64, 3, 5> = v as Matrix<f64, 3, 5>; \
              let c: Matrix<f64, 2, 5> = a * b;";
    assert_eq!(run(ok), Vec::<String>::new());
    let bad = "let a = v as Matrix<f64, 2, 3>; let b = v as Matrix<f64, 4, 5>; \
               let c: Matrix<f64, 2, 3> = a * b;";
    assert_eq!(
        run(bad),
        ["cannot multiply `Matrix` with column count 3 by `Matrix` with row count 4: dimension mismatch (Document 8 §9)"]
    );
}

#[test]
fn products_of_other_generic_structs() {
    let decl = "struct Box<T> { v: T } ";
    let run = |body: &str| check(&format!("{} fn f(v: i32) {{ {} }}", decl, body));
    assert!(run("let a = v as Box<i32>; a * a;").is_empty());
    assert_eq!(
        run("let a = v as Box<i32>; let b = v as Box<u8>; a * b;"),
        ["`*`: mismatched generic arguments for `Box`"]
    );
}

#[test]
fn generic_arguments_are_held_against_the_declaration() {
    let run = |ty: &str| check(&format!("{} fn f(v: i32) {{ v as {}; }}", MATRIX, ty));
    assert!(run("Matrix<f64, 2, 1_000>").is_empty());
    assert!(run("Matrix").is_empty());
    assert!(run("Unknown<i32, 2>").is_empty());
    assert_eq!(run("Matrix<f64, 2>"), ["`Matrix` expects 3 generic argument(s), found 2"]);
    assert_eq!(
        run("Matrix<1, 2, 3>"),
        ["`Matrix`: expected a type argument, found a const value"]
    );
    assert_eq!(
        run("Matrix<f64, i32, 3>"),
        ["`Matrix`: expected a const value argument, found a type"]
    );
    assert_eq!(
        run("Matrix<f64, 0x2, 9223372036854775808>"),
        [
            "`Matrix`: const-generic argument must be an integer literal",
            "`Matrix`: const-generic argument must be an integer literal",
        ]
    );
    assert_eq!(
        run("Matrix<f64, true, \"x\">"),
        [
            "`Matrix`: const-generic argument must be an integer literal",
            "`Matrix`: const-generic argument must be an integer literal",
        ]
    );
    assert!(run("Matrix<f64, 2, 9223372036854775807>").is_empty());
}

#[test]
fn negative_generic_arguments() {
    let neg = |e: Expr| Expr::Unary { op: UnaryOp::Neg, expr: Box::new(e) };
    let lit = |s: &str| Expr::Literal(Literal::Int(s.to_string()));
    let mut program = parse("struct N<const A: i64> { } fn f(v: i32) { let n: bool = v as N<1>; }");
    let message = |e: Expr, program: &mut Program| {
        if let mtnc::ast::ItemKind::Fn(f) = &mut program.items[1].kind {
            let body = f.body.as_mut().expect("a body");
            if let mtnc::ast::Stmt::Let { value: Some(Expr::Cast { ty, .. }), .. } = &mut body.stmts[0] {
                **ty = Type::Named("N".to_string(), vec![Type::ConstArg(Box::new(e))]);
            }
        }
        let mut checker = TypeChecker::new();
        checker.check_program(program);
        checker.errors.remove(0).message
    };
    assert_eq!(
        message(neg(lit("5")), &mut program),
        format!("expected `bool`, found `N<-5>` {}", COERCION)
    );
    assert_eq!(
        message(neg(neg(lit("1_0"))), &mut program),
        format!("expected `bool`, found `N<10>` {}", COERCION)
    );
    assert_eq!(
        message(lit("+7"), &mut program),
        format!("expected `bool`, found `N<7>` {}", COERCION)
    );
    assert_eq!(
        message(lit("-9223372036854775808"), &mut program),
        format!("expected `bool`, found `N<-9223372036854775808>` {}", COERCION)
    );
    assert_eq!(
        message(lit(""), &mut program),
        "`N`: const-generic argument must be an integer literal"
    );
}

#[test]
fn generic_struct_literals() {
    let decl = "struct Pair<A, B> { first: A, second: B } ";
    let run = |body: &str| check(&format!("{} fn f() {{ {} }}", decl, body));
    let ok = "let p: Pair<u8, String> = Pair { first: 1, second: \"x\" }; let a: u8 = p.first;";
    assert_eq!(run(ok), Vec::<String>::new());
    assert_eq!(
        run("let p: Pair<u8, bool> = Pair { first: 1, second: \"x\" };"),
        [format!("expected `bool`, found `String` {}", COERCION)]
    );
    // Without an annotation the arguments are not guessed.
    assert_eq!(
        run("let p = Pair { first: 'c', second: 'd' }; let q: i32 = p;").last().map(String::as_str),
        Some(format!("expected `i32`, found `Pair` {}", COERCION).as_str())
    );
}

const LARGEST: &str = "trait Comparable { fn compareTo(borrow self, other: borrow Self) -> i32; } \
    fn largest<T>(list: [T]) -> T where T: Comparable { return list[0]; } ";

#[test]
fn generic_functions_infer_their_parameters() {
    let with_impl = "impl Comparable for i32 { fn compareTo(borrow self, other: borrow Self) -> i32 { 0 } } ";
    accepts(&format!(
        "{}{} fn f() {{ let nums: [i32] = [1, 2]; let m: i32 = largest(nums); }}",
        LARGEST, with_impl
    ));
    assert_eq!(
        check(&format!("{} fn f() {{ let nums = [true]; let m: bool = largest(nums); }}", LARGEST)),
        ["type `bool` does not satisfy bound `Comparable` required for generic parameter `T` of `largest` (Document 8 §2/§3)"]
    );
}

#[test]
fn the_first_argument_decides() {
    let decl = "fn same<T>(a: T, b: (T, T)) -> T { return a; } ";
    assert_eq!(
        check(&format!("{} fn f() {{ let r: bool = same(1, (true, true)); }}", decl)),
        [format!("expected `bool`, found `i32` {}", COERCION)]
    );
}

// ---- traits and methods ----

#[test]
fn orphans_are_rejected() {
    let mut checker = TypeChecker::new();
    checker.check_program(&parse("impl Show for Other { }"));
    assert_eq!(
        checker.errors,
        [TypeError {
            message: "orphan rule violation: `impl Show for Other` is not allowed -- neither the trait nor the type is defined in the current package (Document 7 §5)".to_string(),
            context: "impl Show for Other".to_string(),
        }]
    );
    accepts("struct Other; impl Show for Other { }");
    accepts("enum Other { A } impl Show for Other { }");
    accepts("trait Show { } impl Show for Other { }");
    accepts("impl Other { }");
}

#[test]
fn required_methods_have_to_be_provided() {
    let decl = "trait Shape { fn area(self) -> f64; fn name(self) -> String { \"shape\" } fn id(self); } struct C; ";
    accepts(&format!("{} impl Shape for C {{ fn area(self) -> f64 {{ 1.5 }} fn id(self) {{ }} }}", decl));
    assert_eq!(
        check(&format!("{} impl Shape for C {{ }}", decl)),
        [
            "`impl Shape for C` is missing required method `area` (Document 7 §4.2/§4.3)",
            "`impl Shape for C` is missing required method `id` (Document 7 §4.2/§4.3)",
        ]
    );
}

#[test]
fn method_calls() {
    let decl = "struct C { r: f64 } impl C { fn area(self, k: u8) -> f64 { self.r } } ";
    let run = |body: &str| check(&format!("{} fn f(c: C) {{ {} }}", decl, body));
    assert!(run("let a: f64 = c.area(2);").is_empty());
    assert_eq!(run("c.area();"), ["method `area` on `C` expects 1 argument(s), found 0"]);
    assert_eq!(run("c.size();"), ["no method named `size` found for type `C`"]);
    assert_eq!(
        run("c.area(true);"),
        [format!("expected `u8`, found `bool` {}", COERCION)]
    );
    // Of types that are not declared nothing is said.
    assert!(run("let n = 1; n.size(2);").is_empty());
}

#[test]
fn inherent_methods_go_before_those_of_traits() {
    let src = "struct C; trait T { fn m(self) -> bool; } \
        impl T for C { fn m(self) -> bool { true } fn only(self) -> char { 'c' } } \
        impl C { fn m(self) -> i32 { 1 } } \
        fn f(c: C) { let a: i32 = c.m(); let b: char = c.only(); }";
    accepts(src);
}

#[test]
fn dynamic_calls_go_by_the_trait() {
    let decl = "trait Shape { fn scale(self, k: f64) -> f64; } ";
    let run = |body: &str| check(&format!("{} fn f(s: dyn Shape) {{ {} }}", decl, body));
    assert!(run("let a: f64 = s.scale(2);").is_empty());
    assert_eq!(
        run("s.scale(true);"),
        [format!("expected `f64`, found `bool` {}", COERCION)]
    );
    assert_eq!(run("s.turn();"), ["no method named `turn` found for type `dyn Shape`"]);
}

#[test]
fn self_is_the_type_of_the_impl() {
    accepts(
        "struct P { x: i32 } impl P { fn make(x: i32) -> Self { P { x: x } } \
         fn twice(self, other: Self) -> P { other.make(self.x) } }",
    );
    assert_eq!(
        check("struct P; impl P { fn g(self) -> Self { 'c' } }"),
        [format!("expected `P`, found `char` {}", COERCION)]
    );
}

// ---- whole programs ----

#[test]
fn order_of_declarations_does_not_matter() {
    accepts("fn f() { let p: P = P { x: g() }; } mod m { struct P { x: i32 } } fn g() -> i32 { 1 }");
    accepts("impl Show for P { fn s(self) { } } trait Show { fn s(self); } struct P;");
}

#[test]
fn problems_are_kept_from_program_to_program() {
    let mut checker = TypeChecker::default();
    checker.check_program(&parse("struct P; fn f() { x; }"));
    assert_eq!(checker.errors.len(), 1);
    checker.check_program(&parse("fn g(p: P) { p.q; y; }"));
    let messages: Vec<&str> = checker.errors.iter().map(|e| e.message.as_str()).collect();
    assert_eq!(
        messages,
        ["undefined variable `x`", "struct `P` has no field `q`", "undefined variable `y`"]
    );
}

#[test]
fn later_declarations_replace_earlier_ones() {
    accepts("struct P { x: i32 } struct P { y: bool } fn f(p: P) { let b: bool = p.y; }");
    // A field that is declared twice: access goes by the first, a literal by the last.
    accepts("struct P { x: i32, x: bool } fn f(p: P) { let a: i32 = p.x; P { x: true }; }");
}

#[test]
fn modules_are_checked_too() {
    assert_eq!(check("mod m { fn f() { x; } impl P { fn g() { y; } } }"), [
        "undefined variable `x`",
        "undefined variable `y`",
    ]);
}

// ---- numeric literals against what is expected ----

#[test]
fn numeric_literals_are_held_against_what_is_expected() {
    let mismatch = |t: &str, found: &str| format!("expected `{}`, found `{}` {}", t, found, COERCION);
    assert_eq!(check_body("let x: i32 = 1.5;"), [mismatch("i32", "f64")]);
    assert_eq!(check_body("let b: bool = 1;"), [mismatch("bool", "i32")]);
    assert_eq!(check_body("let s: String = 0xff;"), [mismatch("String", "i32")]);
    assert_eq!(check_body("if 1 { }"), [mismatch("bool", "i32")]);
    assert_eq!(check_body("match 1 { _ if 2 => 3 };"), [mismatch("bool", "i32")]);
    assert_eq!(check_body("let mut a = 1; a = 2.5;"), [mismatch("i32", "f64")]);
    assert_eq!(check_body("let a = 1; a .. 2.5;"), [mismatch("i32", "f64")]);
    assert_eq!(check("fn f() -> bool { 1 }"), [mismatch("bool", "i32")]);
    assert_eq!(check("fn g(s: String) { } fn f() { g(1); }"), [mismatch("String", "i32")]);
    assert_eq!(
        check("struct P { x: bool } fn f() { P { x: 1 }; }"),
        [mismatch("bool", "i32")]
    );
    assert_eq!(
        check("enum E { A(bool) } fn f() { E::A(1.5); }"),
        [mismatch("bool", "f64")]
    );
}

#[test]
fn a_mismatch_inside_a_whole_is_reported_once() {
    let once = |body: &str, message: &str| assert_eq!(check_body(body), [message], "{}", body);
    let coerced = |t: &str, found: &str| format!("expected `{}`, found `{}` {}", t, found, COERCION);
    once("let x: [i32] = [1.5];", &coerced("[i32]", "[f64]"));
    once("let x: (i32, bool) = (1.5, true);", &coerced("(i32, bool)", "(f64, bool)"));
    once("let x: i32 = (1.5);", &coerced("i32", "f64"));
    once("let x: i32 = -1.5;", &coerced("i32", "f64"));
    once("let x: i32 = { 1.5 };", &coerced("i32", "f64"));
    once("let x: i32 = unsafe { 1.5 };", &coerced("i32", "f64"));
    once("let x: &i32 = borrow 1.5;", &coerced("&i32", "&f64"));
    once("[1, 2.5];", "array element type mismatch: expected `i32`, found `f64`");
    once(
        "let a = 1; a + 2.5;",
        &format!("`Add`: mismatched types `i32` and `f64` {}", COERCION),
    );
    once("true && 1;", "`&&`/`||` requires `bool`, found `i32`");
    once(
        "if true { 1 } else { 2.5 };",
        "`if`/`else` branches have incompatible types: `i32` and `f64` (Document 5 rule 5: no cross-branch guessing)",
    );
    once(
        "match 1 { 1 => 2, _ => 2.5 };",
        "`match` arms have incompatible types: `i32` and `f64` (Document 5 rule 5: no cross-branch guessing)",
    );
    once(
        "match 1 { 1 => 2, _ => { 2.5 } };",
        "`match` arms have incompatible types: `i32` and `f64` (Document 5 rule 5: no cross-branch guessing)",
    );
}

#[test]
fn literals_where_the_type_is_not_settled() {
    accepts("struct Pair<A, B> { first: A, second: B } fn f() { Pair { first: 1, second: 2.5 }; }");
    accepts("enum Opt<T> { Full(T), Empty } fn f() { Opt::Full(1); }");
    accepts("fn f(o: Option<i32>) { let x: i32 = o ?? 1; }");
}

// ---- type parameters, `Self`, and inherent methods ----

#[test]
fn fields_where_the_arguments_are_not_known() {
    let decl = "struct Pair<A, B> { first: A, second: [B], n: i32 } ";
    let run = |body: &str| check(&format!("{} fn f(p: Pair) {{ {} }}", decl, body));
    assert_eq!(run("let a: i32 = p.first;"), [format!("expected `i32`, found `A` {}", COERCION)]);
    assert_eq!(run("let a: i32 = p.second;"), [format!("expected `i32`, found `[B]` {}", COERCION)]);
    assert!(run("let a: i32 = p.n; p.first; p.second; p.second[0];").is_empty());
    let known = "let q: Pair<u8, char> = p as Pair<u8, char>; let a: u8 = q.first; let b: [char] = q.second;";
    assert!(run(known).is_empty());
}

#[test]
fn arrays_in_generic_structs_can_be_indexed() {
    let decl = "struct Stack<T> { items: [T], top: T } ";
    let plain = |body: &str| check(&format!("{} fn f(s: Stack<i32>) {{ {} }}", decl, body));
    let inside = |body: &str| {
        let own = body.replace("s.", "self.");
        check(&format!("{} impl<T> Stack<T> {{ fn f(self) {{ {} }} }}", decl, own))
    };
    for body in [
        "let x = s.items[0];",
        "let xs = s.items; let x = xs[0];",
        "let t = Stack { items: s.items, top: s.items[0] };",
        "let x = s.items[0]; let t = Stack { items: s.items, top: x };",
        "s.top = 3; s.top = s.items[0]; s.items[0] = 3;",
        "let mut x = s.items[0]; x = 3; x = s.top; s.top = x;",
        "let x = s.top; let y = x == s.items[0]; let z = s.top == x;",
        "let x = [s.top, s.items[0]]; let y = if true { s.top } else { s.items[0] };",
    ] {
        assert!(plain(body).is_empty(), "{}: {:?}", body, plain(body));
        assert!(inside(body).is_empty(), "{}: {:?}", body, inside(body));
    }
    assert_eq!(plain("s.top[0];"), ["cannot index into type `T`"]);
    assert_eq!(plain("let x = s.top; x[0];"), ["cannot index into type `()`"]);
    assert_eq!(plain("s.top = true;"), [format!("expected `T`, found `bool` {}", COERCION)]);
    assert_eq!(inside("s.top = true;"), [format!("expected `T`, found `bool` {}", COERCION)]);
}

#[test]
fn a_generic_struct_from_its_own_fields() {
    let decl = "struct Pair<A, B> { first: A, second: B } ";
    let same = "Pair { first: p.first, second: p.second }";
    let swapped = "Pair { first: p.second, second: p.first }";
    let plain = |body: &str| check(&format!("{} fn f(p: Pair<i32, bool>) {{ {}; }}", decl, body));
    let inside = |body: &str| {
        let own = body.replace("p.", "self.");
        check(&format!("{} impl<A, B> Pair<A, B> {{ fn f(self) {{ {}; }} }}", decl, own))
    };
    assert!(plain(same).is_empty());
    assert!(inside(same).is_empty());
    assert!(plain("let a = p.first; let b = p.second; Pair { first: a, second: b }").is_empty());
    let both = [
        format!("expected `A`, found `B` {}", COERCION),
        format!("expected `B`, found `A` {}", COERCION),
    ];
    assert_eq!(plain(swapped), both);
    assert_eq!(inside(swapped), both);
    let mismatch = "comparison between mismatched types `A` and `B` (Document 5 §6)";
    assert_eq!(
        plain("p.first == p.second"),
        [format!("expected `A`, found `B` {}", COERCION), mismatch.to_string()]
    );
    assert_eq!(
        check(&format!("{} fn f() {{ let a: bool = Pair {{ first: 1, second: 2 }}.first; }}", decl)),
        [format!("expected `bool`, found `A` {}", COERCION)]
    );
}

#[test]
fn no_type_parameter_comes_out_of_an_expression() {
    let literal = Expr::StructLit {
        name: "Pair".to_string(),
        fields: vec![("first".to_string(), Expr::Literal(Literal::Int("1".to_string())))],
        spread: None,
    };
    let first = Expr::Field { expr: Box::new(literal), name: "first".to_string() };
    let mut checker = TypeChecker::new();
    checker.check_program(&parse("struct Pair<A> { first: A } fn make<T>() -> [T] { make() }"));
    let ctx = Ctx { name: "f".to_string(), own: None };
    let mut env = Env::new();
    assert_eq!(checker.check_expr(&first, None, &mut env, &ctx), Ty::Unit);
    let a = Ty::TypeParam("A".to_string());
    assert_eq!(checker.check_expr(&first, Some(&a), &mut env, &ctx), a);
    let call = Expr::Call { callee: Box::new(Expr::Ident("make".to_string())), args: vec![] };
    assert_eq!(checker.check_expr(&call, None, &mut env, &ctx), Ty::Array(Box::new(Ty::Unit)));
    let before = checker.errors().len();
    assert_eq!(checker.check_expr(&first, Some(&Ty::Bool), &mut env, &ctx), Ty::Unit);
    assert_eq!(checker.errors().len(), before + 1);
}

#[test]
fn bounds_on_arguments_of_generic_structs() {
    let decl = "trait Show { fn show(self) -> i32; } struct Pair<A> { first: A } \
                fn g<T>(x: T) where T: Show { } ";
    let errors = check(&format!("{} fn f(p: Pair) {{ g(p.first); }}", decl));
    assert_eq!(errors.len(), 1);
    assert!(errors[0].contains("`A`"), "{}", errors[0]);
}

#[test]
fn literals_where_a_name_may_be_any_type() {
    accepts("type Age = i32; fn f() { let a: Age = 25; }");
    accepts("struct Stack<T> { items: [T] } impl<T> Stack<T> { fn push(self, x: T) { } } fn f(s: Stack<i32>) { s.push(1); }");
    assert_eq!(
        check("struct P { x: i32 } fn f() { let p: P = 25; }"),
        [format!("expected `P`, found `i32` {}", COERCION)]
    );
    assert_eq!(
        check("enum E { A } fn f() { let e: E = 2.5; }"),
        [format!("expected `E`, found `f64` {}", COERCION)]
    );
}

#[test]
fn parameters_are_substituted_marked_and_inferred() {
    let t = || Ty::TypeParam("T".to_string());
    let u = || Ty::TypeParam("U".to_string());
    let pair = Ty::Tuple(vec![Ty::Array(Box::new(t())), u()]);
    let mut subst: Names<Ty> = Names::new();
    assert_eq!(substitute_type_params(&pair, &subst), pair);
    subst.insert("T".to_string(), Ty::I8);
    let once = substitute_type_params(&pair, &subst);
    assert_eq!(once, Ty::Tuple(vec![Ty::Array(Box::new(Ty::I8)), u()]));
    assert_eq!(substitute_type_params(&once, &subst), once);
    let named = Ty::Fn(vec![Ty::Named("T".to_string())], Box::new(Ty::Named("V".to_string())));
    let names = vec!["T".to_string()];
    let marked = mark_type_params(&named, &names);
    assert_eq!(marked, Ty::Fn(vec![t()], Box::new(Ty::Named("V".to_string()))));
    assert_eq!(mark_type_params(&marked, &names), marked);
    assert_eq!(mark_type_params(&named, &vec![]), named);
    let mut out: Names<Ty> = Names::new();
    unify_infer(&pair, &Ty::Tuple(vec![Ty::Array(Box::new(Ty::Bool)), Ty::Char]), &mut out);
    unify_infer(&t(), &Ty::U8, &mut out);
    unify_infer(&Ty::I32, &Ty::U8, &mut out);
    assert_eq!(out.len(), 2);
    assert_eq!(out.get("T"), Some(&Ty::Bool));
    assert_eq!(out.get("U"), Some(&Ty::Char));
}

#[test]
fn self_is_the_primitive_in_its_impl() {
    accepts(
        "trait Pick { fn pick(self, other: Self) -> i32; } \
         impl Pick for i32 { fn pick(self, other: Self) -> i32 { other } }",
    );
    accepts(
        "trait Me { fn me(self) -> Self; fn num(self) -> i32; } \
         impl Me for i32 { fn me(self) -> Self { self } fn num(self) -> i32 { self } }",
    );
    accepts("trait T { fn f(self, s: [Self]) -> str; } impl T for str { fn f(self, s: [Self]) -> str { s[0] } }");
    assert_eq!(
        check("trait T { fn f(self) -> Self; } impl T for i32 { fn f(self) -> Self { true } }"),
        [format!("expected `i32`, found `bool` {}", COERCION)]
    );
}

#[test]
fn calls_on_self_in_the_impl_of_a_primitive() {
    let run = |body: &str| {
        check(&format!(
            "trait T {{ fn g(self, n: u8) -> bool; fn h(self, o: Self) -> bool; }} \
             impl T for i32 {{ fn g(self, n: u8) -> bool {{ true }} \
             fn h(self, o: Self) -> bool {{ {} }} }}",
            body
        ))
    };
    assert!(run("self.g(1)").is_empty());
    assert!(run("o.g(1)").is_empty());
    assert_eq!(run("self.g()"), ["method `g` on `i32` expects 1 argument(s), found 0"]);
    assert_eq!(
        run("self.g('c')"),
        [format!("expected `u8`, found `char` {}", COERCION)]
    );
    // Of a primitive elsewhere nothing is said.
    accepts("fn f(n: i32) { n.g('c', 'd'); }");
}

#[test]
fn every_inherent_impl_goes_before_those_of_traits() {
    let decl = "struct A; trait T { fn m(self) -> i32; } ";
    let blocks = [
        "impl A { fn k(self) { } } impl T for A { fn m(self) -> i32 { 1 } } impl A { fn m(self) -> bool { true } } ",
        "impl T for A { fn m(self) -> i32 { 1 } } impl A { fn m(self) -> bool { true } } impl A { fn m(self) -> char { 'c' } } ",
    ];
    for block in blocks {
        accepts(&format!("{}{} fn f(a: A) {{ let b: bool = a.m(); }}", decl, block));
    }
    accepts(&format!("{}{} fn f(a: A) {{ a.k(); }}", decl, blocks[0]));
}

#[test]
fn order_of_items_keeps_the_errors() {
    let items = [
        "struct P { x: i32 } ",
        "trait Show { fn s(self) -> i32; fn t(self); } ",
        "impl Show for P { fn s(self) -> i32 { self.y } } ",
        "impl P { fn k(self) -> bool { u } } ",
        "fn f(p: P) { let b: bool = p.s(); q; } ",
    ];
    let sorted = |order: [usize; 5]| {
        let src: String = order.iter().map(|i| items[*i]).collect();
        let mut errors = check(&src);
        errors.sort();
        errors
    };
    let expected = sorted([0, 1, 2, 3, 4]);
    assert_eq!(expected.len(), 6);
    for order in [[4, 3, 2, 1, 0], [2, 0, 4, 1, 3], [3, 4, 0, 2, 1], [1, 2, 3, 4, 0]] {
        assert_eq!(sorted(order), expected);
    }
}
