use tacgen::expr::{
    AccessOp, AndLogicOp, ArithmeticOp, Constant, Expression, Identifier, NotLogicOp, OrLogicOp,
    RelationOp, Temp, UnaryOp,
};
use tacgen::inter::{emit, emit_jumps, emit_label, new_label, reset_labels, NameGen};
use tacgen::lexer::Lexer;
use tacgen::parser::{Environment, Parser};
use tacgen::stmt::{
    check_types, AssignStmt, AssingArrayStmt, BreakStmt, DoStmt, ElseStmt, IfStmt, NullStmt,
    Statement, StmtSeq, WhileStmt,
};
use tacgen::tokens::{Tag, Token};
use tacgen::types::Type;

fn tok(c: u8) -> Token {
    Token::Tok(c)
}

fn word(s: &str) -> Token {
    Token::Word(s.to_string(), Tag::ID)
}

fn simple(s: &str, w: u8) -> Token {
    Token::SimpleType(s.to_string(), w)
}

fn int_tok(i: i64) -> Token {
    Token::Integer(i)
}

fn float(f: f64) -> Token {
    Token::Real(format!("{}", f))
}

fn while_kwd() -> Token {
    Token::Word(String::from("while"), Tag::WHILE)
}

fn do_kwd() -> Token {
    Token::Word(String::from("do"), Tag::DO)
}

fn if_kwd() -> Token {
    Token::Word(String::from("if"), Tag::IF)
}

fn break_kwd() -> Token {
    Token::Word(String::from("break"), Tag::BREAK)
}

fn true_kwd() -> Token {
    Token::Word(String::from("true"), Tag::TRUE)
}

#[test]
fn lexer_tests() {
    let tests: Vec<(&str, Vec<Token>)> = vec![
        ("&", vec![tok(b'&')]),
        ("&&", vec![Token::And]),
        ("|", vec![tok(b'|')]),
        ("||", vec![Token::Or]),
        ("=", vec![tok(b'=')]),
        ("==", vec![Token::Equality]),
        ("!", vec![tok(b'!')]),
        ("!=", vec![Token::Ne]),
        ("<", vec![tok(b'<')]),
        ("<=", vec![Token::Le]),
        (">", vec![tok(b'>')]),
        (">=", vec![Token::Ge]),
        ("1982", vec![int_tok(1982)]),
        ("1982.2891", vec![float(1982.2891)]),
        ("Iden7ifier23", vec![word("Iden7ifier23")]),
        (
            "{
        int i; int j; float v; float[100] a;
        while (true) {
          do i = i + 1; while(a[i] < v);
          do j = j - 1; while(a[j] > v);
          if (i >= j) break;
          x = a[i];
          a[i] = a[j];
          a[j] = x;
        }
      }",
            vec![
                tok(b'{'),
                simple("int", 4u8),
                word("i"),
                tok(b';'),
                simple("int", 4u8),
                word("j"),
                tok(b';'),
                simple("float", 8u8),
                word("v"),
                tok(b';'),
                simple("float", 8u8),
                tok(b'['),
                int_tok(100),
                tok(b']'),
                word("a"),
                tok(b';'),
                while_kwd(),
                tok(b'('),
                true_kwd(),
                tok(b')'),
                tok(b'{'),
                do_kwd(),
                word("i"),
                tok(b'='),
                word("i"),
                tok(b'+'),
                int_tok(1),
                tok(b';'),
                while_kwd(),
                tok(b'('),
                word("a"),
                tok(b'['),
                word("i"),
                tok(b']'),
                tok(b'<'),
                word("v"),
                tok(b')'),
                tok(b';'),
                do_kwd(),
                word("j"),
                tok(b'='),
                word("j"),
                tok(b'-'),
                int_tok(1),
                tok(b';'),
                while_kwd(),
                tok(b'('),
                word("a"),
                tok(b'['),
                word("j"),
                tok(b']'),
                tok(b'>'),
                word("v"),
                tok(b')'),
                tok(b';'),
                if_kwd(),
                tok(b'('),
                word("i"),
                Token::Ge,
                word("j"),
                tok(b')'),
                break_kwd(),
                tok(b';'),
                word("x"),
                tok(b'='),
                word("a"),
                tok(b'['),
                word("i"),
                tok(b']'),
                tok(b';'),
                word("a"),
                tok(b'['),
                word("i"),
                tok(b']'),
                tok(b'='),
                word("a"),
                tok(b'['),
                word("j"),
                tok(b']'),
                tok(b';'),
                word("a"),
                tok(b'['),
                word("j"),
                tok(b']'),
                tok(b'='),
                word("x"),
                tok(b';'),
                tok(b'}'),
                tok(b'}'),
            ],
        ),
    ];

    for tc in tests {
        let mut lexer = Lexer::new(tc.0.as_bytes().to_vec());
        for expected in tc.1 {
            let t = lexer.scan();
            assert_eq!(t, expected);
        }
    }
}

#[test]
fn lexer_ends_with_eof() {
    let mut lexer = Lexer::new(b"x".to_vec());
    assert_eq!(lexer.scan(), word("x"));
    assert_eq!(lexer.scan(), Token::Eof);
    assert_eq!(lexer.scan(), Token::Eof);
}

#[test]
fn real_literals_render_like_floats() {
    for (src, expect) in [
        ("1.50", "1.5"),
        ("1.05", "1.05"),
        ("1.00", "1"),
        ("0.5", "0.5"),
        ("42.0", "42"),
    ] {
        let mut lexer = Lexer::new(src.as_bytes().to_vec());
        assert_eq!(lexer.scan(), Token::Real(expect.to_string()));
    }
}

#[test]
fn token_model() {
    assert_eq!(Token::from_str("if"), Token::Word("if".to_string(), Tag::IF));
    assert_eq!(Token::from_str("int"), Token::SimpleType("int".to_string(), 4));
    assert_eq!(Token::from_str("quick"), word("quick"));
    assert_eq!(Token::And.tag(), 256);
    assert_eq!(tok(b'{').tag(), b'{' as u32);
    assert_eq!(Token::Eof.tag(), u32::MAX);
    assert_eq!(Token::Integer(-7).to_text(), "-7");
    assert_eq!(
        Token::Array(Box::new(Token::integer()), 20).to_text(),
        "[20]int"
    );
    assert!(Token::true_token() == Token::Word("true".to_string(), Tag::TRUE));
    assert!(Token::Integer(1) != Token::Integer(2));
    assert!(Token::Real("1.5".to_string()) == Token::Real("1.5".to_string()));
}

#[test]
fn type_model() {
    let arr = Type::array(Type::integer(), 20);
    assert_eq!(arr.width(), 80);
    assert_eq!(arr.tag(), Tag::INDEX);
    assert!(Type::integer().is_numeric());
    assert!(!Type::boolean().is_numeric());
    assert_eq!(
        Type::max_type(&Type::integer(), &Type::float()),
        Some(Type::float())
    );
    assert_eq!(
        Type::max_type(&Type::ch(), &Type::ch()),
        Some(Type::ch())
    );
    assert_eq!(Type::max_type(&Type::integer(), &Type::boolean()), None);
    let t = Type::new(&Token::Array(Box::new(Token::integer()), 3)).unwrap();
    assert_eq!(t, Type::array(Type::integer(), 3));
    assert_eq!(t.token(), Token::Array(Box::new(Token::integer()), 3));
    let bad = Type::new(&Token::Integer(3));
    assert_eq!(bad.unwrap_err(), "Invalid parameters: 3");
}

#[test]
fn emit_helpers() {
    let mut s = String::new();
    emit(&mut s, "x = 1");
    assert_eq!(s, "\tx = 1\n");
    let mut s = String::new();
    emit_label(&mut s, 7);
    assert_eq!(s, "L7:");
    let mut s = String::new();
    emit_jumps(&mut s, "a < b", 3, 4);
    assert_eq!(s, "\tif a < b goto L3\n\tgoto L4\n");
    let mut s = String::new();
    emit_jumps(&mut s, "a < b", 3, 0);
    assert_eq!(s, "\tif a < b goto L3\n");
    let mut s = String::new();
    emit_jumps(&mut s, "a < b", 0, 4);
    assert_eq!(s, "\tiffalse a < b goto L4\n");
    let mut s = String::new();
    emit_jumps(&mut s, "a < b", 0, 0);
    assert_eq!(s, "");
}

#[test]
fn labels_are_gap_free() {
    let mut g = NameGen::new();
    assert_eq!(new_label(&mut g), 1);
    assert_eq!(new_label(&mut g), 2);
    assert_eq!(new_label(&mut g), 3);
    reset_labels(&mut g);
    assert_eq!(new_label(&mut g), 1);
    Temp::reset_counter(&mut g);
    let t = Temp::new(&Type::boolean(), &mut g);
    assert_eq!(t.to_text(), "t1");
}

#[test]
fn expression_tests() {
    // Leaves print themselves and emit nothing under either mode.
    let mut g = NameGen::new();
    let e = Identifier::expr_box(Token::from_str("example"), &Type::integer(), 4);
    assert_eq!(e.to_text(), "example");
    let mut b = String::new();
    e.generate(&mut b, &mut g).unwrap();
    assert_eq!(b, "");
    let mut b = String::new();
    e.reduce(&mut b, &mut g).unwrap();
    assert_eq!(b, "");

    let mut g = NameGen::new();
    let e = Temp::new_box(&Type::integer(), &mut g);
    assert_eq!(e.to_text(), "t1");

    // x + y
    let mut g = NameGen::new();
    let e = ArithmeticOp::new_box(
        Token::Tok(b'+'),
        Identifier::expr_box(Token::from_str("x"), &Type::integer(), 4),
        Identifier::expr_box(Token::from_str("y"), &Type::integer(), 4),
    )
    .unwrap();
    assert_eq!(e.to_text(), "x + y");
    let mut b = String::new();
    e.generate(&mut b, &mut g).unwrap();
    assert_eq!(b, "");
    let mut g = NameGen::new();
    let mut b = String::new();
    e.reduce(&mut b, &mut g).unwrap();
    assert_eq!(b, "\tt1 = x + y\n");

    // - x
    let mut g = NameGen::new();
    let e = UnaryOp::new_box(
        Token::Tok(b'-'),
        Identifier::expr_box(Token::from_str("x"), &Type::integer(), 4),
    )
    .unwrap();
    assert_eq!(e.to_text(), "- x");
    let mut b = String::new();
    e.reduce(&mut b, &mut g).unwrap();
    assert_eq!(b, "\tt1 = - x\n");

    // arr [ x ]
    let mut g = NameGen::new();
    let e = AccessOp::new_box(
        Identifier::new_box(Token::from_str("arr"), &Type::float(), 4),
        Identifier::expr_box(Token::from_str("x"), &Type::integer(), 4),
        &Type::float(),
    );
    assert_eq!(e.to_text(), "arr [ x ]");
    let mut b = String::new();
    e.reduce(&mut b, &mut g).unwrap();
    assert_eq!(b, "\tt1 = arr [ x ]\n");

    // ! x
    let mut g = NameGen::new();
    let e = NotLogicOp::new_box(
        Token::Tok(b'!'),
        Identifier::expr_box(Token::from_str("x"), &Type::boolean(), 4),
    )
    .unwrap();
    assert_eq!(e.to_text(), "! x");
    let mut b = String::new();
    e.generate(&mut b, &mut g).unwrap();
    assert_eq!(b, "\tif x goto L1\n\tt1 = true\n\tgoto L2\nL1:\tt1 = false\nL2:");

    // x || y
    let mut g = NameGen::new();
    let e = OrLogicOp::new_box(
        Identifier::expr_box(Token::from_str("x"), &Type::boolean(), 4),
        Identifier::expr_box(Token::from_str("y"), &Type::boolean(), 4),
    )
    .unwrap();
    assert_eq!(e.to_text(), "x || y");
    let mut b = String::new();
    e.generate(&mut b, &mut g).unwrap();
    assert_eq!(
        b,
        "\tif x goto L3\n\tiffalse y goto L1\nL3:\tt1 = true\n\tgoto L2\nL1:\tt1 = false\nL2:"
    );

    // x && y
    let mut g = NameGen::new();
    let e = AndLogicOp::new_box(
        Identifier::expr_box(Token::from_str("x"), &Type::boolean(), 4),
        Identifier::expr_box(Token::from_str("y"), &Type::boolean(), 4),
    )
    .unwrap();
    assert_eq!(e.to_text(), "x && y");
    let mut b = String::new();
    e.generate(&mut b, &mut g).unwrap();
    assert_eq!(
        b,
        "\tiffalse x goto L1\n\tiffalse y goto L1\n\tt1 = true\n\tgoto L2\nL1:\tt1 = false\nL2:"
    );

    // x == y
    let mut g = NameGen::new();
    let e = RelationOp::new_box(
        Token::eq_word(),
        Identifier::expr_box(Token::from_str("x"), &Type::boolean(), 4),
        Identifier::expr_box(Token::from_str("y"), &Type::boolean(), 4),
    )
    .unwrap();
    assert_eq!(e.to_text(), "x == y");
    let mut b = String::new();
    e.generate(&mut b, &mut g).unwrap();
    assert_eq!(b, "\tiffalse x == y goto L1\n\tt1 = true\n\tgoto L2\nL1:\tt1 = false\nL2:");
}

#[test]
fn statement_tests() {
    let tests: Vec<(Box<Statement>, &str)> = vec![
        (
            AssignStmt::new_box(
                Identifier::new_box(Token::from_str("x"), &Type::integer(), 4),
                Constant::integer(42).boxed(),
            )
            .unwrap(),
            "\tx = 42\n",
        ),
        (
            AssingArrayStmt::new_box(
                Box::new(AccessOp::new(
                    Identifier::new_box(Token::from_str("arr"), &Type::float(), 4),
                    Identifier::expr_box(Token::from_str("x"), &Type::integer(), 4),
                    &Type::float(),
                )),
                Constant::float("42").boxed(),
            )
            .unwrap(),
            "\tarr [ x ] = 42\n",
        ),
        (
            StmtSeq::new_box(
                AssignStmt::new_box(
                    Identifier::new_box(Token::from_str("x"), &Type::integer(), 4),
                    Constant::integer(42).boxed(),
                )
                .unwrap(),
                AssingArrayStmt::new_box(
                    Box::new(AccessOp::new(
                        Identifier::new_box(Token::from_str("arr"), &Type::float(), 4),
                        Identifier::expr_box(Token::from_str("x"), &Type::integer(), 4),
                        &Type::float(),
                    )),
                    Constant::float("42").boxed(),
                )
                .unwrap(),
            ),
            "\tx = 42\nL3:\tarr [ x ] = 42\n",
        ),
        (
            IfStmt::new_box(
                Identifier::expr_box(Token::from_str("b"), &Type::boolean(), 4),
                AssignStmt::new_box(
                    Identifier::new_box(Token::from_str("x"), &Type::integer(), 4),
                    Constant::integer(0).boxed(),
                )
                .unwrap(),
            )
            .unwrap(),
            "\tiffalse b goto L2\nL3:\tx = 0\n",
        ),
        (
            ElseStmt::new_box(
                Identifier::expr_box(Token::from_str("b"), &Type::boolean(), 4),
                AssignStmt::new_box(
                    Identifier::new_box(Token::from_str("x"), &Type::integer(), 4),
                    Constant::integer(0).boxed(),
                )
                .unwrap(),
                AssignStmt::new_box(
                    Identifier::new_box(Token::from_str("x"), &Type::integer(), 4),
                    Constant::integer(42).boxed(),
                )
                .unwrap(),
            )
            .unwrap(),
            "\tiffalse b goto L4\nL3:\tx = 0\n\tgoto L2\nL4:\tx = 42\n",
        ),
        (
            WhileStmt::new_box(
                Identifier::expr_box(Token::from_str("b"), &Type::boolean(), 4),
                AssignStmt::new_box(
                    Identifier::new_box(Token::from_str("x"), &Type::integer(), 4),
                    Constant::integer(0).boxed(),
                )
                .unwrap(),
            )
            .unwrap(),
            "\tiffalse b goto L2\nL3:\tx = 0\n\tgoto L1\n",
        ),
        (
            DoStmt::new_box(
                Identifier::expr_box(Token::from_str("b"), &Type::boolean(), 4),
                AssignStmt::new_box(
                    Identifier::new_box(Token::from_str("x"), &Type::integer(), 4),
                    Constant::integer(0).boxed(),
                )
                .unwrap(),
            )
            .unwrap(),
            "\tx = 0\nL3:\tif b goto L1\n",
        ),
    ];

    for tc in tests {
        let mut g = NameGen::new();
        let begin = new_label(&mut g);
        let after = new_label(&mut g);
        let mut b = String::new();
        tc.0.generate(&mut b, begin, after, 0, &mut g)
            .expect("Generate error");
        assert_eq!(tc.1, b);
    }
}

#[test]
fn sequence_identity() {
    // Seq(Null, x), Seq(x, Null) and x emit the same text.
    let make = || {
        AssignStmt::new_box(
            Identifier::new_box(Token::from_str("x"), &Type::integer(), 4),
            Constant::integer(7).boxed(),
        )
        .unwrap()
    };
    let mut out = Vec::new();
    for s in [
        make(),
        StmtSeq::new_box(NullStmt::new_box(), make()),
        StmtSeq::new_box(make(), NullStmt::new_box()),
    ] {
        let mut g = NameGen::new();
        let begin = new_label(&mut g);
        let after = new_label(&mut g);
        let mut b = String::new();
        s.generate(&mut b, begin, after, 0, &mut g).unwrap();
        out.push(b);
    }
    assert_eq!(out[0], out[1]);
    assert_eq!(out[0], out[2]);
    assert_eq!(out[0], "\tx = 7\n");
}

#[test]
fn generate_reduce_relation() {
    // The node generate returns prints exactly what reduce assigns.
    let make = || {
        ArithmeticOp::new_box(
            Token::Tok(b'*'),
            Identifier::expr_box(Token::from_str("a"), &Type::integer(), 0),
            Constant::integer(4).boxed(),
        )
        .unwrap()
    };
    let mut g = NameGen::new();
    let mut b = String::new();
    let x = make().generate(&mut b, &mut g).unwrap();
    let mut g = NameGen::new();
    let mut b2 = String::new();
    let t = make().reduce(&mut b2, &mut g).unwrap();
    assert_eq!(b2, format!("{}\t{} = {}\n", b, t.to_text(), x.to_text()));
}

#[test]
fn break_statements() {
    let mut g = NameGen::new();
    let begin = new_label(&mut g);
    let after = new_label(&mut g);
    let mut b = String::new();
    let err = BreakStmt::new_box()
        .generate(&mut b, begin, after, 0, &mut g)
        .unwrap_err();
    assert_eq!(err, "Unenclosed break");

    // while (true) { break; } with begin and after labels around it
    let mut g = NameGen::new();
    let begin = new_label(&mut g);
    let after = new_label(&mut g);
    let w = WhileStmt::new_box(
        Constant::true_constant().boxed(),
        StmtSeq::new_box(BreakStmt::new_box(), NullStmt::new_box()),
    )
    .unwrap();
    let mut b = String::new();
    emit_label(&mut b, begin);
    w.generate(&mut b, begin, after, 0, &mut g).unwrap();
    emit_label(&mut b, after);
    assert_eq!(b, "L1:L3:\tgoto L2\n\tgoto L1\nL2:");
}

#[test]
fn construction_errors() {
    let int_id = || Identifier::expr_box(Token::from_str("i"), &Type::integer(), 0);
    let bool_id = || Identifier::expr_box(Token::from_str("b"), &Type::boolean(), 0);

    let e = ArithmeticOp::new_box(Token::Tok(b'+'), int_id(), bool_id()).unwrap_err();
    assert_eq!(e, "Type error");
    let e = UnaryOp::new_box(Token::minus_word(), bool_id()).unwrap_err();
    assert_eq!(e, "Type Error");
    let e = RelationOp::new_box(Token::Tok(b'<'), int_id(), bool_id()).unwrap_err();
    assert_eq!(e, "Type error");
    let e = NotLogicOp::new_box(Token::Tok(b'!'), int_id()).unwrap_err();
    assert_eq!(e, "Type error");
    let e = NotLogicOp::new_box(Token::Tok(b'-'), bool_id()).unwrap_err();
    assert_eq!(e, "Lexer error");
    let e = OrLogicOp::new_box(int_id(), bool_id()).unwrap_err();
    assert_eq!(e, "Type Error");
    let e = AndLogicOp::new_box(bool_id(), int_id()).unwrap_err();
    assert_eq!(e, "Type Error");
    let e = AssignStmt::new_box(
        Identifier::new_box(Token::from_str("i"), &Type::integer(), 0),
        bool_id(),
    )
    .unwrap_err();
    assert_eq!(e, "Type Error");
    let e = IfStmt::new_box(int_id(), NullStmt::new_box()).unwrap_err();
    assert_eq!(e, "If condition should be of bool type");
    let e = WhileStmt::new_box(int_id(), NullStmt::new_box()).unwrap_err();
    assert_eq!(e, "While condition should be of bool type");
    let e = DoStmt::new_box(int_id(), NullStmt::new_box()).unwrap_err();
    assert_eq!(e, "While condition should be of bool type");
    let e = Constant::new(Token::Eof).unwrap_err();
    assert_eq!(e, "Invalid parameter: \0");

    assert!(check_types(&Type::array(Type::integer(), 2), &Type::integer()).is_none());
    assert_eq!(
        check_types(&Type::ch(), &Type::integer()),
        Some(Type::integer())
    );
}

#[test]
fn environment_scopes() {
    let e = Environment::empty();
    let mut e = Environment::new(e);
    e.put("i", Identifier::new(Token::from_str("i"), &Type::integer(), 0));
    let mut e = Environment::new(e);
    e.put("i", Identifier::new(Token::from_str("i"), &Type::float(), 4));
    let found = e.get("i").unwrap();
    assert_eq!(found.typ(), Type::float());
    e.pop().unwrap();
    let found = e.get("i").unwrap();
    assert_eq!(found.typ(), Type::integer());
    let err = e.get("missing").unwrap_err();
    assert_eq!(err, "Undeclared identifier missing");
    e.pop().unwrap();
    let err = e.pop().unwrap_err();
    assert_eq!(err, "Popping empty environment");
}

#[test]
fn parser_tests() {
    let tests: Vec<(&str, &str)> = vec![
        ("{}", "L1:L2:"),
        ("{int i;}", "L1:L2:"),
        ("{int i;float f;bool[100] b;}", "L1:L2:"),
        ("{int i; i = 10;}", "L1:\ti = 10\nL2:"),
        ("{int i; i = i + 10;}", "L1:\ti = i + 10\nL2:"),
        (
            "{int i;int[20] arr; i = 10; arr[i] = 10;}",
            "L1:\ti = 10\nL3:\tt1 = i * 4\n\tarr [ t1 ] = 10\nL2:",
        ),
        (
            "{int i; int j; bool a; i = i + 10; j = 11; a = i == j;}",
            "L1:\ti = i + 10\nL3:\tj = 11\nL4:\tiffalse i == j goto L5\n\tt1 = true\n\tgoto L6\nL5:\tt1 = false\nL6:\ta = t1\nL2:",
        ),
        (
            "{int i; int j; j = 12; while (i > j) i = i + 1;}",
            "L1:\tj = 12\nL3:\tiffalse i > j goto L2\nL4:\ti = i + 1\n\tgoto L3\nL2:",
        ),
        (
            "{int i; int j; j = 12; do i = i + 1; while (i > j);}",
            "L1:\tj = 12\nL3:\ti = i + 1\nL4:\tif i > j goto L3\nL2:",
        ),
        (
            "{ while (true) { break; } }",
            "L1:L3:\tgoto L2\n\tgoto L1\nL2:",
        ),
        (
            "{int i; int j; i = 10; j = 1; while (j < i) { i = i + 1; break;} }",
            "L1:\ti = 10\nL3:\tj = 1\nL4:\tiffalse j < i goto L2\nL5:\ti = i + 1\nL6:\tgoto L2\n\tgoto L4\nL2:",
        ),
        (
            "{int i; int j; while (true) i = i + 1;}",
            "L1:L3:\ti = i + 1\n\tgoto L1\nL2:",
        ),
        (
            "{int i; int j; i = 10; j = 1; while (j < i) { i = i + 1; break;} }",
            "L1:\ti = 10\nL3:\tj = 1\nL4:\tiffalse j < i goto L2\nL5:\ti = i + 1\nL6:\tgoto L2\n\tgoto L4\nL2:",
        ),
        (
            "{
        int i; int j; float v; float x; float[100] a;
        while (true) {
          do i = i + 1; while (a[i] < v);
          do j = j - 1; while (a[j] > v);
          if (i >= j) break;
          x = a[i];
          a[i] = a[j];
          a[j] = x;
        }
      }",
            // Value generation of an access re-generates its index in place,
            // so an access read as a value prints its scaled index inline,
            // while an assignment to an element reduces the index first.
            "L1:L3:\ti = i + 1\nL5:\tt1 = a [ i * 8 ]\n\tif t1 < v goto L3\nL4:\tj = j - 1\nL7:\tt2 = a [ j * 8 ]\n\tif t2 > v goto L4\nL6:\tiffalse i >= j goto L8\nL9:\tgoto L2\nL8:\tx = a [ i * 8 ]\nL10:\tt3 = i * 8\n\tt4 = a [ j * 8 ]\n\ta [ t3 ] = t4\nL11:\tt5 = j * 8\n\ta [ t5 ] = x\n\tgoto L1\nL2:",
        ),
    ];

    for tc in tests {
        let lexer = Lexer::new(tc.0.as_bytes().to_vec());
        let mut parser = Parser::new(lexer).expect("Creating parser");

        let mut out = String::new();
        let mut gen = NameGen::new();
        parser.program(&mut out, &mut gen).expect("Parsing program");

        assert_eq!(out, tc.1);
    }
}

#[test]
fn parser_errors() {
    // A syntax error names the line the parser stopped on.
    let lexer = Lexer::new(b"{int i; i = ;}".to_vec());
    let mut parser = Parser::new(lexer).expect("Creating parser");
    let mut out = String::new();
    let mut gen = NameGen::new();
    let err = parser.program(&mut out, &mut gen).unwrap_err();
    assert_eq!(err, "Syntax Error");
    assert_eq!(out, "");

    // The newline retained after the identifier comes back as a plain
    // byte token, before the line count moves past it.
    let lexer = Lexer::new(b"{\n\nint i\n}".to_vec());
    let mut parser = Parser::new(lexer).expect("Creating parser");
    let mut out = String::new();
    let mut gen = NameGen::new();
    let err = parser.program(&mut out, &mut gen).unwrap_err();
    assert_eq!(err, "Syntax error near line 3");

    // An assignment to an unknown name reports it.
    let lexer = Lexer::new(b"{ x = 1; }".to_vec());
    let mut parser = Parser::new(lexer).expect("Creating parser");
    let mut out = String::new();
    let mut gen = NameGen::new();
    let err = parser.program(&mut out, &mut gen).unwrap_err();
    assert_eq!(err, "Undeclared identifier x");

    // A break outside any loop fails during generation, after the begin
    // label went out.
    let lexer = Lexer::new(b"{ break; }".to_vec());
    let mut parser = Parser::new(lexer).expect("Creating parser");
    let mut out = String::new();
    let mut gen = NameGen::new();
    let err = parser.program(&mut out, &mut gen).unwrap_err();
    assert_eq!(err, "Unenclosed break");
    assert_eq!(out, "L1:");
}

#[test]
fn compile_is_reproducible() {
    // Fresh counters give byte-for-byte identical output across runs.
    let source = "{int i; int j; j = 12; while (i > j) i = i + 1;}";
    let mut first = String::new();
    for _ in 0..2 {
        let lexer = Lexer::new(source.as_bytes().to_vec());
        let mut parser = Parser::new(lexer).expect("Creating parser");
        let mut out = String::new();
        let mut gen = NameGen::new();
        parser.program(&mut out, &mut gen).expect("Parsing program");
        if first.is_empty() {
            first = out;
        } else {
            assert_eq!(out, first);
        }
    }
}
