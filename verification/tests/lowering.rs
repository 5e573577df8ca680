use es_front::ast::{
    Expr, ExprOrSpread, Ident, JSXAttr, JSXAttrName, JSXAttrOrSpread, JSXElement, JSXElementChild,
    JSXElementName, JSXExpr, JSXFragment, Lit, SpreadElement,
};
use es_front::jsx::{jsx, Helpers, Options};
use es_front::pos::{BytePos, Span};

fn sp(lo: u32, hi: u32) -> Span {
    Span { lo: BytePos(lo), hi: BytePos(hi) }
}

fn ident(name: &str) -> Ident {
    Ident { span: sp(0, 0), sym: name.to_string() }
}

fn elem(name: &str, attrs: Vec<JSXAttrOrSpread>, children: Vec<JSXElementChild>) -> JSXElement {
    JSXElement { span: sp(0, 10), name: JSXElementName::Ident(ident(name)), attrs, children }
}

fn callee_name(e: &Expr) -> String {
    match e {
        Expr::Call(c) => match &*c.callee {
            Expr::Member(m) => {
                let obj = match &*m.obj {
                    Expr::Ident(i) => i.sym.clone(),
                    _ => panic!("unexpected callee object"),
                };
                let prop = match &*m.prop {
                    Expr::Ident(i) => i.sym.clone(),
                    _ => panic!("unexpected callee prop"),
                };
                format!("{}.{}", obj, prop)
            }
            Expr::Ident(i) => i.sym.clone(),
            _ => panic!("unexpected callee"),
        },
        _ => panic!("not a call"),
    }
}

fn call_args(e: &Expr) -> &Vec<ExprOrSpread> {
    match e {
        Expr::Call(c) => &c.args,
        _ => panic!("not a call"),
    }
}

#[test]
fn div_with_defaults_becomes_create_element_null() {
    let mut pass = jsx(&Options::default(), Helpers::new()).unwrap();
    let input = Expr::JSXElement(Box::new(elem("div", vec![], vec![])));
    let out = pass.fold(&input).unwrap();
    assert_eq!(callee_name(&out), "React.createElement");
    let args = call_args(&out);
    assert_eq!(args.len(), 2);
    match &*args[0].expr {
        Expr::Lit(Lit::Str(s)) => assert_eq!(s.value, "div"),
        other => panic!("expected string tag, got {:?}", other),
    }
    match &*args[1].expr {
        Expr::Lit(Lit::Null(_)) => {}
        other => panic!("expected null attrs, got {:?}", other),
    }
}

#[test]
fn component_with_attrs_becomes_object_literal() {
    let mut pass = jsx(&Options::default(), Helpers::new()).unwrap();
    let attrs = vec![
        JSXAttrOrSpread::JSXAttr(JSXAttr {
            span: sp(1, 2),
            name: JSXAttrName::Ident(ident("a")),
            value: Some(Box::new(Expr::Lit(Lit::Str(es_front::ast::Str {
                span: sp(2, 3),
                value: "1".to_string(),
                has_escape: false,
            })))),
        }),
        JSXAttrOrSpread::JSXAttr(JSXAttr {
            span: sp(3, 4),
            name: JSXAttrName::Ident(ident("b")),
            value: None,
        }),
    ];
    let input = Expr::JSXElement(Box::new(elem("Foo", attrs, vec![])));
    let out = pass.fold(&input).unwrap();
    assert_eq!(callee_name(&out), "React.createElement");
    let args = call_args(&out);
    match &*args[0].expr {
        Expr::Ident(i) => assert_eq!(i.sym, "Foo"),
        other => panic!("expected component reference, got {:?}", other),
    }
    match &*args[1].expr {
        Expr::Object(o) => {
            assert_eq!(o.props.len(), 2);
            match &*o.props[1].value {
                Expr::Lit(Lit::Bool(b)) => assert!(b.value),
                other => panic!("valueless attribute should be true, got {:?}", other),
            }
        }
        other => panic!("expected object literal, got {:?}", other),
    }
}

fn spread_then_attr() -> Vec<JSXAttrOrSpread> {
    vec![
        JSXAttrOrSpread::SpreadElement(SpreadElement {
            span: sp(1, 2),
            expr: Box::new(Expr::Ident(ident("p"))),
        }),
        JSXAttrOrSpread::JSXAttr(JSXAttr {
            span: sp(3, 4),
            name: JSXAttrName::Ident(ident("a")),
            value: Some(Box::new(Expr::Lit(Lit::Str(es_front::ast::Str {
                span: sp(4, 5),
                value: "1".to_string(),
                has_escape: false,
            })))),
        }),
    ]
}

#[test]
fn spread_attrs_use_extends_helper_and_set_flag() {
    let mut pass = jsx(&Options::default(), Helpers::new()).unwrap();
    let input = Expr::JSXElement(Box::new(elem("div", spread_then_attr(), vec![])));
    let out = pass.fold(&input).unwrap();
    let args = call_args(&out);
    let merge = &*args[1].expr;
    assert_eq!(callee_name(merge), "_extends");
    let margs = call_args(merge);
    // {}, p, {a: "1"}
    assert_eq!(margs.len(), 3);
    match &*margs[0].expr {
        Expr::Object(o) => assert_eq!(o.props.len(), 0),
        other => panic!("expected leading empty object, got {:?}", other),
    }
    match &*margs[1].expr {
        Expr::Ident(i) => assert_eq!(i.sym, "p"),
        other => panic!("expected spread operand, got {:?}", other),
    }
    match &*margs[2].expr {
        Expr::Object(o) => assert_eq!(o.props.len(), 1),
        other => panic!("expected trailing object run, got {:?}", other),
    }
    assert!(pass.extends_required());
}

#[test]
fn spread_attrs_with_builtins_use_object_assign_without_flag() {
    let mut opts = Options::default();
    opts.use_builtins = true;
    let mut pass = jsx(&opts, Helpers::new()).unwrap();
    let input = Expr::JSXElement(Box::new(elem("div", spread_then_attr(), vec![])));
    let out = pass.fold(&input).unwrap();
    let merge = &*call_args(&out)[1].expr;
    assert_eq!(callee_name(merge), "Object.assign");
    assert_eq!(call_args(merge).len(), 3);
    assert!(!pass.extends_required());
}

#[test]
fn fragment_drops_empty_expression_child() {
    let mut pass = jsx(&Options::default(), Helpers::new()).unwrap();
    let children = vec![
        JSXElementChild::JSXExprContainer(JSXExpr::Expr(Box::new(Expr::Lit(Lit::Str(
            es_front::ast::Str { span: sp(1, 2), value: "x".to_string(), has_escape: false },
        ))))),
        JSXElementChild::JSXExprContainer(JSXExpr::JSXEmptyExpr(sp(3, 4))),
    ];
    let input = Expr::JSXFragment(JSXFragment { span: sp(0, 9), children });
    let out = pass.fold(&input).unwrap();
    assert_eq!(callee_name(&out), "React.createElement");
    let args = call_args(&out);
    // fragment marker, null, and the single surviving child
    assert_eq!(args.len(), 3);
    assert_eq!(callee_name_of_frag_marker(&args[0]), "React.Fragment");
    match &*args[2].expr {
        Expr::Lit(Lit::Str(s)) => assert_eq!(s.value, "x"),
        other => panic!("expected the string child, got {:?}", other),
    }
}

fn callee_name_of_frag_marker(a: &ExprOrSpread) -> String {
    match &*a.expr {
        Expr::Member(m) => {
            let obj = match &*m.obj {
                Expr::Ident(i) => i.sym.clone(),
                _ => panic!("unexpected marker"),
            };
            let prop = match &*m.prop {
                Expr::Ident(i) => i.sym.clone(),
                _ => panic!("unexpected marker"),
            };
            format!("{}.{}", obj, prop)
        }
        _ => panic!("unexpected marker"),
    }
}

#[test]
fn spread_child_is_unsupported_with_its_span() {
    let mut pass = jsx(&Options::default(), Helpers::new()).unwrap();
    let children = vec![JSXElementChild::JSXSpreadChild(
        sp(7, 9),
        Box::new(Expr::Ident(ident("xs"))),
    )];
    let input = Expr::JSXElement(Box::new(elem("div", vec![], children)));
    let err = pass.fold(&input).unwrap_err();
    assert_eq!(err.span, sp(7, 9));
}

#[test]
fn bad_pragma_is_a_config_error() {
    let mut opts = Options::default();
    opts.pragma = "not a path".to_string();
    match jsx(&opts, Helpers::new()) {
        Err(err) => assert_eq!(err, es_front::jsx::ConfigError::InvalidPragma),
        Ok(_) => panic!("an invalid pragma must be rejected"),
    }
}

#[test]
fn jsx_text_whitespace_collapses() {
    assert_eq!(es_front::jsx::jsx_text_to_str("a\n  b"), "a b ");
    assert_eq!(es_front::jsx::jsx_text_to_str("plain"), "plain");
    assert_eq!(es_front::jsx::jsx_text_to_str(" \n "), "");
}

fn input_for(text: &str, start: u32) -> es_front::input::LexerInput<es_front::input::FileMapInput> {
    let fm = es_front::input::SourceFile {
        name: "a.js".to_string(),
        start_pos: BytePos(start),
        src: Some(text.to_string()),
    };
    es_front::input::LexerInput::new(es_front::input::FileMapInput::from_file(&fm))
}

#[test]
fn current_is_idempotent_until_bump() {
    let mut li = input_for("ab", 0);
    assert_eq!(li.current(), Some('a'));
    assert_eq!(li.cur_pos(), BytePos(0));
    assert_eq!(li.current(), Some('a'));
    assert_eq!(li.cur_pos(), BytePos(0));
    li.bump();
    assert_eq!(li.current(), Some('b'));
    assert_eq!(li.cur_pos(), BytePos(1));
}

#[test]
fn positions_advance_by_utf8_width() {
    // 'é' is two bytes, '€' three, '𝄞' four
    let mut li = input_for("a\u{e9}\u{20ac}\u{1d11e}z", 10);
    assert_eq!(li.current(), Some('a'));
    assert_eq!(li.cur_pos(), BytePos(10));
    li.bump();
    assert_eq!(li.last_pos(), BytePos(11));
    assert_eq!(li.cur_pos(), BytePos(11));
    li.bump();
    assert_eq!(li.last_pos(), BytePos(13));
    li.bump();
    assert_eq!(li.last_pos(), BytePos(16));
    assert_eq!(li.current(), Some('\u{1d11e}'));
    li.bump();
    assert_eq!(li.last_pos(), BytePos(20));
    assert_eq!(li.current(), Some('z'));
    assert_eq!(li.cur_pos(), BytePos(20));
    li.bump();
    assert_eq!(li.current(), None);
    // exhausted: cur_pos falls back to the last consumed position
    assert_eq!(li.cur_pos(), BytePos(21));
    assert_eq!(li.last_pos(), BytePos(21));
}

#[test]
fn peek_ahead_equals_current_after_two_more_bumps() {
    for n in 0..3usize {
        let mut a = input_for("pqrst", 0);
        a.current();
        for _ in 0..n {
            a.bump();
        }
        let ahead = a.peek_ahead();
        let mut b = input_for("pqrst", 0);
        b.current();
        for _ in 0..(n + 2) {
            b.bump();
        }
        assert_eq!(ahead, b.current());
    }
}

#[test]
fn peek_does_not_advance() {
    let mut li = input_for("xy", 0);
    assert_eq!(li.current(), Some('x'));
    assert_eq!(li.peek(), Some('y'));
    assert_eq!(li.peek_ahead(), None);
    assert_eq!(li.current(), Some('x'));
    assert_eq!(li.cur_pos(), BytePos(0));
}

#[test]
fn refolding_the_output_changes_nothing() {
    let mut pass = jsx(&Options::default(), Helpers::new()).unwrap();
    let children = vec![JSXElementChild::JSXElement(Box::new(elem(
        "span",
        spread_then_attr(),
        vec![],
    )))];
    let input = Expr::JSXElement(Box::new(elem("div", vec![], children)));
    let once = pass.fold(&input).unwrap();
    let twice = pass.fold(&once).unwrap();
    assert_eq!(once, twice);
}

#[test]
fn namespaced_element_name_becomes_string() {
    let mut pass = jsx(&Options::default(), Helpers::new()).unwrap();
    let name = JSXElementName::JSXNamespacedName(es_front::ast::JSXNamespacedName {
        span: sp(0, 7),
        ns: ident("svg"),
        name: ident("use"),
    });
    let input = Expr::JSXElement(Box::new(JSXElement {
        span: sp(0, 9),
        name,
        attrs: vec![],
        children: vec![],
    }));
    let out = pass.fold(&input).unwrap();
    match &*call_args(&out)[0].expr {
        Expr::Lit(Lit::Str(s)) => assert_eq!(s.value, "svg:use"),
        other => panic!("expected namespaced string, got {:?}", other),
    }
}

#[test]
fn member_and_this_element_names() {
    let mut pass = jsx(&Options::default(), Helpers::new()).unwrap();
    let name = JSXElementName::JSXMemberExpr(es_front::ast::JSXMemberExpr {
        span: sp(0, 8),
        obj: es_front::ast::JSXObject::Ident(ident("this")),
        prop: ident("Body"),
    });
    let input = Expr::JSXElement(Box::new(JSXElement {
        span: sp(0, 10),
        name,
        attrs: vec![],
        children: vec![],
    }));
    let out = pass.fold(&input).unwrap();
    match &*call_args(&out)[0].expr {
        Expr::Member(m) => {
            assert!(matches!(&*m.obj, Expr::This(_)));
            match &*m.prop {
                Expr::Ident(i) => assert_eq!(i.sym, "Body"),
                other => panic!("unexpected member prop {:?}", other),
            }
        }
        other => panic!("expected member name, got {:?}", other),
    }

    let input2 = Expr::JSXElement(Box::new(elem("this", vec![], vec![])));
    let out2 = pass.fold(&input2).unwrap();
    assert!(matches!(&*call_args(&out2)[0].expr, Expr::This(_)));
}

#[test]
fn hyphenated_attribute_name_becomes_string_key() {
    let mut pass = jsx(&Options::default(), Helpers::new()).unwrap();
    let attrs = vec![JSXAttrOrSpread::JSXAttr(JSXAttr {
        span: sp(1, 2),
        name: JSXAttrName::Ident(ident("data-x")),
        value: None,
    })];
    let input = Expr::JSXElement(Box::new(elem("div", attrs, vec![])));
    let out = pass.fold(&input).unwrap();
    match &*call_args(&out)[1].expr {
        Expr::Object(o) => match &o.props[0].key {
            es_front::ast::PropName::Str(s) => assert_eq!(s.value, "data-x"),
            other => panic!("expected string key, got {:?}", other),
        },
        other => panic!("expected object literal, got {:?}", other),
    }
}

#[test]
fn dotted_this_pragma_is_accepted() {
    let mut opts = Options::default();
    opts.pragma = "this.h".to_string();
    let mut pass = jsx(&opts, Helpers::new()).unwrap();
    let input = Expr::JSXElement(Box::new(elem("div", vec![], vec![])));
    let out = pass.fold(&input).unwrap();
    match &out {
        Expr::Call(c) => match &*c.callee {
            Expr::Member(m) => {
                assert!(matches!(&*m.obj, Expr::This(_)));
            }
            other => panic!("expected this.h callee, got {:?}", other),
        },
        other => panic!("expected call, got {:?}", other),
    }
}

#[test]
fn text_with_only_tabs_is_kept_unchanged() {
    // normalization applies only when a space or newline is present
    assert_eq!(es_front::jsx::jsx_text_to_str("a\tb"), "a\tb");
    assert_eq!(es_front::jsx::jsx_text_to_str("a\t b"), "a b ");
}
