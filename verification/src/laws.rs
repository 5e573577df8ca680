//! The two global laws of the lowering, proved over its spec functions:
//! on success the output holds no JSX node kind anywhere, and re-running
//! the pass on its own output changes nothing.

use crate::ast::{
    CallExprV, ExprOrSpreadV, ExprV, JSXAttrOrSpreadV, JSXElementChildV, JSXElementV, JSXExprV,
    JSXFragmentV, MemberExprV, ObjectLitV, PropV, no_jsx, no_jsx_args, no_jsx_props,
};
use crate::pragma::lemma_path_no_jsx;
use crate::rewrite::{
    arg_of, extends_callee, has_spread, null_arg, object_assign_callee, spec_attr_to_prop,
    spec_child_to_expr, spec_children_args, spec_close_run, spec_elem_to_expr, spec_fold_args,
    spec_fold_attr_list, spec_fold_attr_one, spec_fold_attrs, spec_fold_child_list,
    spec_fold_child_one, spec_fold_children, spec_fold_expr, spec_fold_interior, spec_fold_props,
    spec_frag_to_expr, spec_jsx_name, spec_jsx_object, spec_plain_props, spec_spread_args,
    JsxCfgV, Unsupported,
};
use vstd::prelude::*;

verus! {

/// The configuration expressions themselves are free of JSX, as both
/// parsed pragmas always are.
pub open spec fn cfg_no_jsx(cfg: JsxCfgV) -> bool {
    no_jsx(cfg.pragma) && no_jsx(*cfg.pragma_frag.expr)
}

// ----------------------------------------------------------------------
// What an interior-folded JSX skeleton looks like: every embedded
// expression is already free of JSX.
// ----------------------------------------------------------------------
pub open spec fn attr_expr_no_jsx(a: JSXAttrOrSpreadV) -> bool {
    match a {
        JSXAttrOrSpreadV::JSXAttr(at) => match at.value {
            Some(e) => no_jsx(*e),
            None => true,
        },
        JSXAttrOrSpreadV::SpreadElement(sp) => no_jsx(*sp.expr),
    }
}

pub open spec fn attrs_exprs_no_jsx(s: Seq<JSXAttrOrSpreadV>, i: int) -> bool
    decreases s, s.len() - i,
{
    if 0 <= i < s.len() {
        attr_expr_no_jsx(s[i]) && attrs_exprs_no_jsx(s, i + 1)
    } else {
        true
    }
}

pub open spec fn child_interior_no_jsx(c: JSXElementChildV) -> bool
    decreases c, 0int,
{
    match c {
        JSXElementChildV::JSXText(_) => true,
        JSXElementChildV::JSXExprContainer(x) => match x {
            JSXExprV::JSXEmptyExpr(_) => true,
            JSXExprV::Expr(e) => no_jsx(*e),
        },
        JSXElementChildV::JSXElement(el) => interior_no_jsx_elem(*el),
        JSXElementChildV::JSXFragment(f) => children_interior_no_jsx(f.children, 0),
        JSXElementChildV::JSXSpreadChild(_, e) => no_jsx(*e),
    }
}

pub open spec fn children_interior_no_jsx(s: Seq<JSXElementChildV>, i: int) -> bool
    decreases s, s.len() - i,
{
    if 0 <= i < s.len() {
        child_interior_no_jsx(s[i]) && children_interior_no_jsx(s, i + 1)
    } else {
        true
    }
}

pub open spec fn interior_no_jsx_elem(el: JSXElementV) -> bool
    decreases el, 1int,
{
    attrs_exprs_no_jsx(el.attrs, 0) && children_interior_no_jsx(el.children, 0)
}

// ----------------------------------------------------------------------
// Pointwise characterizations of the list predicates
// ----------------------------------------------------------------------
pub proof fn lemma_no_jsx_args_iff(s: Seq<ExprOrSpreadV>, i: int)
    requires
        0 <= i <= s.len(),
    ensures
        no_jsx_args(s, i) <==> (forall|j: int| i <= j < s.len() ==> no_jsx(*(#[trigger] s[j]).expr)),
    decreases s.len() - i,
{
    if i < s.len() {
        lemma_no_jsx_args_iff(s, i + 1);
    }
}

pub proof fn lemma_no_jsx_props_iff(s: Seq<PropV>, i: int)
    requires
        0 <= i <= s.len(),
    ensures
        no_jsx_props(s, i) <==> (forall|j: int|
            i <= j < s.len() ==> no_jsx(*(#[trigger] s[j]).value)),
    decreases s.len() - i,
{
    if i < s.len() {
        lemma_no_jsx_props_iff(s, i + 1);
    }
}

pub proof fn lemma_attrs_exprs_iff(s: Seq<JSXAttrOrSpreadV>, i: int)
    requires
        0 <= i <= s.len(),
    ensures
        attrs_exprs_no_jsx(s, i) <==> (forall|j: int|
            i <= j < s.len() ==> attr_expr_no_jsx(#[trigger] s[j])),
    decreases s.len() - i,
{
    if i < s.len() {
        lemma_attrs_exprs_iff(s, i + 1);
    }
}

pub proof fn lemma_children_interior_iff(s: Seq<JSXElementChildV>, i: int)
    requires
        0 <= i <= s.len(),
    ensures
        children_interior_no_jsx(s, i) <==> (forall|j: int|
            i <= j < s.len() ==> child_interior_no_jsx(#[trigger] s[j])),
    decreases s.len() - i,
{
    if i < s.len() {
        lemma_children_interior_iff(s, i + 1);
    }
}

// ----------------------------------------------------------------------
// The conversion emits no JSX
// ----------------------------------------------------------------------
proof fn lemma_jsx_object_no_jsx(o: crate::ast::JSXObjectV)
    ensures
        no_jsx(spec_jsx_object(o)),
    decreases o,
{
    match o {
        crate::ast::JSXObjectV::Ident(i) => {
            assert(no_jsx(ExprV::This(i.span)));
            assert(no_jsx(ExprV::Ident(i)));
        },
        crate::ast::JSXObjectV::JSXMemberExpr(m) => {
            lemma_jsx_object_no_jsx(m.obj);
            assert(no_jsx(ExprV::Ident(m.prop)));
            assert(no_jsx(spec_jsx_object(o)));
        },
    }
}

proof fn lemma_jsx_name_no_jsx(n: crate::ast::JSXElementNameV)
    ensures
        no_jsx(spec_jsx_name(n)),
{
    match n {
        crate::ast::JSXElementNameV::Ident(i) => {
            assert(no_jsx(ExprV::This(i.span)));
            assert(no_jsx(ExprV::Ident(i)));
        },
        crate::ast::JSXElementNameV::JSXNamespacedName(_) => {},
        crate::ast::JSXElementNameV::JSXMemberExpr(m) => {
            lemma_jsx_object_no_jsx(m.obj);
            assert(no_jsx(ExprV::Ident(m.prop)));
            assert(no_jsx(spec_jsx_name(n)));
        },
    }
}

proof fn lemma_plain_props_no_jsx(s: Seq<JSXAttrOrSpreadV>, i: int)
    requires
        0 <= i <= s.len(),
        attrs_exprs_no_jsx(s, i),
    ensures
        no_jsx_props(spec_plain_props(s, i), 0),
    decreases s.len() - i,
{
    if i < s.len() {
        lemma_plain_props_no_jsx(s, i + 1);
        match s[i] {
            JSXAttrOrSpreadV::JSXAttr(a) => {
                let p = spec_attr_to_prop(a);
                assert(no_jsx(*p.value));
                let rest = spec_plain_props(s, i + 1);
                lemma_no_jsx_props_iff(rest, 0);
                lemma_no_jsx_props_iff(seq![p] + rest, 0);
                assert forall|j: int| 0 <= j < (seq![p] + rest).len() implies no_jsx(
                    *(#[trigger] (seq![p] + rest)[j]).value,
                ) by {
                    if j > 0 {
                        assert((seq![p] + rest)[j] == rest[j - 1]);
                    }
                }
            },
            JSXAttrOrSpreadV::SpreadElement(_) => {},
        }
    } else {
        lemma_no_jsx_props_iff(spec_plain_props(s, i), 0);
    }
}

proof fn lemma_spread_args_no_jsx(
    s: Seq<JSXAttrOrSpreadV>,
    i: int,
    args: Seq<ExprOrSpreadV>,
    cur: Seq<PropV>,
)
    requires
        0 <= i <= s.len(),
        attrs_exprs_no_jsx(s, i),
        no_jsx_args(args, 0),
        no_jsx_props(cur, 0),
    ensures
        no_jsx_args(spec_spread_args(s, i, args, cur), 0),
    decreases s.len() - i,
{
    lemma_no_jsx_args_iff(args, 0);
    lemma_no_jsx_props_iff(cur, 0);
    if i < s.len() {
        match s[i] {
            JSXAttrOrSpreadV::JSXAttr(a) => {
                let p = spec_attr_to_prop(a);
                let cur2 = cur.push(p);
                lemma_no_jsx_props_iff(cur2, 0);
                assert(no_jsx_props(cur2, 0));
                lemma_spread_args_no_jsx(s, i + 1, args, cur2);
            },
            JSXAttrOrSpreadV::SpreadElement(sp) => {
                let closed = spec_close_run(args, cur);
                lemma_no_jsx_args_iff(closed, 0);
                assert(no_jsx_args(closed, 0));
                let args2 = closed.push(ExprOrSpreadV { spread: None, expr: sp.expr });
                lemma_no_jsx_args_iff(args2, 0);
                assert(no_jsx_args(args2, 0));
                lemma_spread_args_no_jsx(s, i + 1, args2, Seq::empty());
            },
        }
    } else {
        let closed = spec_close_run(args, cur);
        lemma_no_jsx_args_iff(closed, 0);
        assert(no_jsx_args(closed, 0));
    }
}

proof fn lemma_fold_attrs_no_jsx(cfg: JsxCfgV, s: Seq<JSXAttrOrSpreadV>)
    requires
        attrs_exprs_no_jsx(s, 0),
    ensures
        no_jsx(spec_fold_attrs(cfg, s)),
{
    if s.len() == 0 {
    } else if has_spread(s) {
        assert(no_jsx(ExprV::Ident(
            crate::ast::IdentV { span: crate::pos::spec_dummy_span(), sym: "Object"@ },
        )));
        assert(no_jsx(ExprV::Ident(
            crate::ast::IdentV { span: crate::pos::spec_dummy_span(), sym: "assign"@ },
        )));
        assert(no_jsx(object_assign_callee()));
        assert(no_jsx(extends_callee()));
        lemma_no_jsx_args_iff(Seq::empty(), 0);
        lemma_no_jsx_props_iff(Seq::empty(), 0);
        lemma_spread_args_no_jsx(s, 0, Seq::empty(), Seq::empty());
    } else {
        lemma_plain_props_no_jsx(s, 0);
    }
}

proof fn lemma_convert_elem_no_jsx(cfg: JsxCfgV, el: JSXElementV)
    requires
        cfg_no_jsx(cfg),
        interior_no_jsx_elem(el),
    ensures
        spec_elem_to_expr(cfg, el) matches Ok(r) ==> no_jsx(r),
    decreases el, 1int,
{
    match spec_children_args(cfg, el.children, 0) {
        Err(_) => {},
        Ok(cargs) => {
            lemma_convert_children_no_jsx(cfg, el.children, 0);
            lemma_jsx_name_no_jsx(el.name);
            lemma_fold_attrs_no_jsx(cfg, el.attrs);
            let front = seq![
                arg_of(spec_jsx_name(el.name)),
                arg_of(spec_fold_attrs(cfg, el.attrs)),
            ];
            lemma_no_jsx_args_iff(cargs, 0);
            lemma_no_jsx_args_iff(front + cargs, 0);
            assert forall|j: int| 0 <= j < (front + cargs).len() implies no_jsx(
                *(#[trigger] (front + cargs)[j]).expr,
            ) by {
                if j >= 2 {
                    assert((front + cargs)[j] == cargs[j - 2]);
                }
            }
        },
    }
}

proof fn lemma_convert_frag_no_jsx(cfg: JsxCfgV, f: JSXFragmentV)
    requires
        cfg_no_jsx(cfg),
        children_interior_no_jsx(f.children, 0),
    ensures
        spec_frag_to_expr(cfg, f) matches Ok(r) ==> no_jsx(r),
    decreases f, 1int,
{
    match spec_children_args(cfg, f.children, 0) {
        Err(_) => {},
        Ok(cargs) => {
            lemma_convert_children_no_jsx(cfg, f.children, 0);
            let front = seq![cfg.pragma_frag, null_arg()];
            lemma_no_jsx_args_iff(cargs, 0);
            lemma_no_jsx_args_iff(front + cargs, 0);
            assert forall|j: int| 0 <= j < (front + cargs).len() implies no_jsx(
                *(#[trigger] (front + cargs)[j]).expr,
            ) by {
                if j >= 2 {
                    assert((front + cargs)[j] == cargs[j - 2]);
                }
            }
        },
    }
}

proof fn lemma_convert_children_no_jsx(cfg: JsxCfgV, s: Seq<JSXElementChildV>, i: int)
    requires
        0 <= i <= s.len(),
        cfg_no_jsx(cfg),
        children_interior_no_jsx(s, i),
    ensures
        spec_children_args(cfg, s, i) matches Ok(cargs) ==> no_jsx_args(cargs, 0),
    decreases s, s.len() - i,
{
    if i < s.len() {
        lemma_convert_children_no_jsx(cfg, s, i + 1);
        assert(child_interior_no_jsx(s[i]));
        match s[i] {
            JSXElementChildV::JSXElement(el) => {
                assert(interior_no_jsx_elem(*el));
                lemma_convert_elem_no_jsx(cfg, *el);
            },
            JSXElementChildV::JSXFragment(f) => {
                assert(children_interior_no_jsx(f.children, 0));
                lemma_convert_frag_no_jsx(cfg, f);
            },
            _ => {},
        }
        match spec_child_to_expr(cfg, s[i]) {
            Err(_) => {},
            Ok(opt) => match spec_children_args(cfg, s, i + 1) {
                Err(_) => {},
                Ok(rest) => {
                    lemma_no_jsx_args_iff(rest, 0);
                    match opt {
                        None => {},
                        Some(a) => {
                            assert(no_jsx(*a.expr));
                            lemma_no_jsx_args_iff(seq![a] + rest, 0);
                            assert forall|j: int| 0 <= j < (seq![a] + rest).len() implies no_jsx(
                                *(#[trigger] (seq![a] + rest)[j]).expr,
                            ) by {
                                if j > 0 {
                                    assert((seq![a] + rest)[j] == rest[j - 1]);
                                }
                            }
                        },
                    }
                },
            },
        }
    } else {
        lemma_no_jsx_args_iff(Seq::empty(), 0);
    }
}


// ----------------------------------------------------------------------
// The traversal's own output
// ----------------------------------------------------------------------
proof fn lemma_fold_args_no_jsx(cfg: JsxCfgV, s: Seq<ExprOrSpreadV>, i: int)
    requires
        cfg_no_jsx(cfg),
        0 <= i <= s.len(),
    ensures
        spec_fold_args(cfg, s, i) matches Ok(out) ==> no_jsx_args(out, 0),
    decreases s, s.len() - i,
{
    if i < s.len() {
        lemma_fold_expr_no_jsx(cfg, *s[i].expr);
        lemma_fold_args_no_jsx(cfg, s, i + 1);
        match spec_fold_expr(cfg, *s[i].expr) {
            Err(_) => {},
            Ok(x) => match spec_fold_args(cfg, s, i + 1) {
                Err(_) => {},
                Ok(rest) => {
                    let a2 = ExprOrSpreadV { spread: s[i].spread, expr: Box::new(x) };
                    lemma_no_jsx_args_iff(rest, 0);
                    lemma_no_jsx_args_iff(seq![a2] + rest, 0);
                    assert forall|j: int| 0 <= j < (seq![a2] + rest).len() implies no_jsx(
                        *(#[trigger] (seq![a2] + rest)[j]).expr,
                    ) by {
                        if j > 0 {
                            assert((seq![a2] + rest)[j] == rest[j - 1]);
                        }
                    }
                },
            },
        }
    } else {
        lemma_no_jsx_args_iff(Seq::empty(), 0);
    }
}

proof fn lemma_fold_props_no_jsx(cfg: JsxCfgV, s: Seq<PropV>, i: int)
    requires
        cfg_no_jsx(cfg),
        0 <= i <= s.len(),
    ensures
        spec_fold_props(cfg, s, i) matches Ok(out) ==> no_jsx_props(out, 0),
    decreases s, s.len() - i,
{
    if i < s.len() {
        lemma_fold_expr_no_jsx(cfg, *s[i].value);
        lemma_fold_props_no_jsx(cfg, s, i + 1);
        match spec_fold_expr(cfg, *s[i].value) {
            Err(_) => {},
            Ok(x) => match spec_fold_props(cfg, s, i + 1) {
                Err(_) => {},
                Ok(rest) => {
                    let p2 = PropV { key: s[i].key, value: Box::new(x) };
                    lemma_no_jsx_props_iff(rest, 0);
                    lemma_no_jsx_props_iff(seq![p2] + rest, 0);
                    assert forall|j: int| 0 <= j < (seq![p2] + rest).len() implies no_jsx(
                        *(#[trigger] (seq![p2] + rest)[j]).value,
                    ) by {
                        if j > 0 {
                            assert((seq![p2] + rest)[j] == rest[j - 1]);
                        }
                    }
                },
            },
        }
    } else {
        lemma_no_jsx_props_iff(Seq::empty(), 0);
    }
}

proof fn lemma_fold_attr_list_no_jsx(cfg: JsxCfgV, s: Seq<JSXAttrOrSpreadV>, i: int)
    requires
        cfg_no_jsx(cfg),
        0 <= i <= s.len(),
    ensures
        spec_fold_attr_list(cfg, s, i) matches Ok(out) ==> attrs_exprs_no_jsx(out, 0),
    decreases s, s.len() - i,
{
    if i < s.len() {
        match s[i] {
            JSXAttrOrSpreadV::JSXAttr(at) => {
                match at.value {
                    None => {},
                    Some(v) => {
                        lemma_fold_expr_no_jsx(cfg, *v);
                    },
                }
            },
            JSXAttrOrSpreadV::SpreadElement(sp) => {
                lemma_fold_expr_no_jsx(cfg, *sp.expr);
            },
        }
        lemma_fold_attr_list_no_jsx(cfg, s, i + 1);
        match spec_fold_attr_one(cfg, s[i]) {
            Err(_) => {},
            Ok(a2) => {
                assert(attr_expr_no_jsx(a2));
                match spec_fold_attr_list(cfg, s, i + 1) {
                    Err(_) => {},
                    Ok(rest) => {
                        lemma_attrs_exprs_iff(rest, 0);
                        lemma_attrs_exprs_iff(seq![a2] + rest, 0);
                        assert forall|j: int| 0 <= j < (seq![a2] + rest).len()
                            implies attr_expr_no_jsx(#[trigger] (seq![a2] + rest)[j]) by {
                            if j > 0 {
                                assert((seq![a2] + rest)[j] == rest[j - 1]);
                            }
                        }
                    },
                }
            },
        }
    } else {
        lemma_attrs_exprs_iff(Seq::empty(), 0);
    }
}

proof fn lemma_fold_child_list_shape(cfg: JsxCfgV, s: Seq<JSXElementChildV>, i: int)
    requires
        cfg_no_jsx(cfg),
        0 <= i <= s.len(),
    ensures
        spec_fold_child_list(cfg, s, i) matches Ok(out) ==> children_interior_no_jsx(out, 0),
    decreases s, s.len() - i,
{
    if i < s.len() {
        match s[i] {
            JSXElementChildV::JSXText(_) => {},
            JSXElementChildV::JSXExprContainer(x) => {
                match x {
                    JSXExprV::JSXEmptyExpr(_) => {},
                    JSXExprV::Expr(e) => {
                        lemma_fold_expr_no_jsx(cfg, *e);
                    },
                }
            },
            JSXElementChildV::JSXElement(el) => {
                lemma_fold_interior_shape(cfg, *el);
            },
            JSXElementChildV::JSXFragment(f) => {
                lemma_fold_child_list_shape(cfg, f.children, 0);
            },
            JSXElementChildV::JSXSpreadChild(_, e) => {
                lemma_fold_expr_no_jsx(cfg, *e);
            },
        }
        lemma_fold_child_list_shape(cfg, s, i + 1);
        match spec_fold_child_one(cfg, s[i]) {
            Err(_) => {},
            Ok(c2) => {
                assert(child_interior_no_jsx(c2));
                match spec_fold_child_list(cfg, s, i + 1) {
                    Err(_) => {},
                    Ok(rest) => {
                        lemma_children_interior_iff(rest, 0);
                        lemma_children_interior_iff(seq![c2] + rest, 0);
                        assert forall|j: int| 0 <= j < (seq![c2] + rest).len()
                            implies child_interior_no_jsx(#[trigger] (seq![c2] + rest)[j]) by {
                            if j > 0 {
                                assert((seq![c2] + rest)[j] == rest[j - 1]);
                            }
                        }
                    },
                }
            },
        }
    } else {
        lemma_children_interior_iff(Seq::empty(), 0);
    }
}

proof fn lemma_fold_interior_shape(cfg: JsxCfgV, el: JSXElementV)
    requires
        cfg_no_jsx(cfg),
    ensures
        spec_fold_interior(cfg, el) matches Ok(el2) ==> interior_no_jsx_elem(el2),
    decreases el, 0int,
{
    lemma_fold_attr_list_no_jsx(cfg, el.attrs, 0);
    lemma_fold_child_list_shape(cfg, el.children, 0);
}

proof fn lemma_fold_children_shape(cfg: JsxCfgV, e: ExprV)
    requires
        cfg_no_jsx(cfg),
    ensures
        spec_fold_children(cfg, e) matches Ok(folded) ==> (match folded {
            ExprV::JSXElement(el2) => interior_no_jsx_elem(*el2),
            ExprV::JSXFragment(f2) => children_interior_no_jsx(f2.children, 0),
            _ => no_jsx(folded),
        }),
    decreases e, 0int,
{
    match e {
        ExprV::This(_) => {},
        ExprV::Ident(_) => {},
        ExprV::Lit(_) => {},
        ExprV::Call(c) => {
            lemma_fold_expr_no_jsx(cfg, *c.callee);
            lemma_fold_args_no_jsx(cfg, c.args, 0);
        },
        ExprV::Member(m) => {
            lemma_fold_expr_no_jsx(cfg, *m.obj);
            lemma_fold_expr_no_jsx(cfg, *m.prop);
        },
        ExprV::Object(o) => {
            lemma_fold_props_no_jsx(cfg, o.props, 0);
        },
        ExprV::Paren(_, inner) => {
            lemma_fold_expr_no_jsx(cfg, *inner);
        },
        ExprV::JSXElement(el) => {
            lemma_fold_interior_shape(cfg, *el);
        },
        ExprV::JSXFragment(f) => {
            lemma_fold_child_list_shape(cfg, f.children, 0);
        },
    }
}

proof fn lemma_fold_expr_no_jsx(cfg: JsxCfgV, e: ExprV)
    requires
        cfg_no_jsx(cfg),
    ensures
        spec_fold_expr(cfg, e) matches Ok(r) ==> no_jsx(r),
    decreases e, 1int,
{
    lemma_fold_children_shape(cfg, e);
    match spec_fold_children(cfg, e) {
        Err(_) => {},
        Ok(folded) => {
            match folded {
                ExprV::Paren(psp, inner) => {
                    assert(no_jsx(folded));
                    assert(no_jsx(*inner));
                },
                ExprV::JSXElement(el) => {
                    lemma_convert_elem_no_jsx(cfg, *el);
                },
                ExprV::JSXFragment(f) => {
                    lemma_convert_frag_no_jsx(cfg, f);
                },
                _ => {},
            }
        },
    }
}

// ----------------------------------------------------------------------
// The pass is the identity on trees that hold no JSX
// ----------------------------------------------------------------------
proof fn lemma_id_args(cfg: JsxCfgV, s: Seq<ExprOrSpreadV>, i: int)
    requires
        0 <= i <= s.len(),
        no_jsx_args(s, i),
    ensures
        spec_fold_args(cfg, s, i) == Ok::<Seq<ExprOrSpreadV>, Unsupported>(
            s.subrange(i, s.len() as int),
        ),
    decreases s, s.len() - i,
{
    if i < s.len() {
        lemma_id_expr(cfg, *s[i].expr);
        lemma_id_args(cfg, s, i + 1);
        assert(ExprOrSpreadV { spread: s[i].spread, expr: Box::new(*s[i].expr) } == s[i]);
        assert(seq![s[i]] + s.subrange(i + 1, s.len() as int) =~= s.subrange(i, s.len() as int));
    } else {
        assert(s.subrange(i, s.len() as int) =~= Seq::<ExprOrSpreadV>::empty());
    }
}

proof fn lemma_id_props(cfg: JsxCfgV, s: Seq<PropV>, i: int)
    requires
        0 <= i <= s.len(),
        no_jsx_props(s, i),
    ensures
        spec_fold_props(cfg, s, i) == Ok::<Seq<PropV>, Unsupported>(s.subrange(i, s.len() as int)),
    decreases s, s.len() - i,
{
    if i < s.len() {
        lemma_id_expr(cfg, *s[i].value);
        lemma_id_props(cfg, s, i + 1);
        assert(PropV { key: s[i].key, value: Box::new(*s[i].value) } == s[i]);
        assert(seq![s[i]] + s.subrange(i + 1, s.len() as int) =~= s.subrange(i, s.len() as int));
    } else {
        assert(s.subrange(i, s.len() as int) =~= Seq::<PropV>::empty());
    }
}

proof fn lemma_id_children(cfg: JsxCfgV, e: ExprV)
    requires
        no_jsx(e),
    ensures
        spec_fold_children(cfg, e) == Ok::<ExprV, Unsupported>(e),
    decreases e, 0int,
{
    match e {
        ExprV::This(_) => {},
        ExprV::Ident(_) => {},
        ExprV::Lit(_) => {},
        ExprV::Call(c) => {
            lemma_id_expr(cfg, *c.callee);
            lemma_id_args(cfg, c.args, 0);
            assert(c.args.subrange(0, c.args.len() as int) =~= c.args);
            assert(ExprV::Call(
                CallExprV { span: c.span, callee: Box::new(*c.callee), args: c.args },
            ) == e);
        },
        ExprV::Member(m) => {
            lemma_id_expr(cfg, *m.obj);
            lemma_id_expr(cfg, *m.prop);
            assert(ExprV::Member(
                MemberExprV {
                    span: m.span,
                    obj: Box::new(*m.obj),
                    prop: Box::new(*m.prop),
                    computed: m.computed,
                },
            ) == e);
        },
        ExprV::Object(o) => {
            lemma_id_props(cfg, o.props, 0);
            assert(o.props.subrange(0, o.props.len() as int) =~= o.props);
            assert(ExprV::Object(ObjectLitV { span: o.span, props: o.props }) == e);
        },
        ExprV::Paren(psp, inner) => {
            lemma_id_expr(cfg, *inner);
            assert(ExprV::Paren(psp, Box::new(*inner)) == e);
        },
        ExprV::JSXElement(_) => {
            assert(false);
        },
        ExprV::JSXFragment(_) => {
            assert(false);
        },
    }
}

proof fn lemma_id_expr(cfg: JsxCfgV, e: ExprV)
    requires
        no_jsx(e),
    ensures
        spec_fold_expr(cfg, e) == Ok::<ExprV, Unsupported>(e),
    decreases e, 1int,
{
    lemma_id_children(cfg, e);
    match e {
        ExprV::Paren(psp, inner) => {
            assert(!((*inner) is JSXElement));
        },
        _ => {},
    }
}

// ----------------------------------------------------------------------
// The laws themselves
// ----------------------------------------------------------------------
/// On success the lowered expression holds no JSX node kind anywhere:
/// elements, fragments, attributes and containers are all gone.
pub proof fn lemma_fold_output_no_jsx(cfg: JsxCfgV, e: ExprV)
    requires
        cfg_no_jsx(cfg),
    ensures
        spec_fold_expr(cfg, e) matches Ok(r) ==> no_jsx(r),
{
    lemma_fold_expr_no_jsx(cfg, e);
}

/// Re-running the pass on its own output is a no-op: folding what a
/// successful fold produced gives it back unchanged.
pub proof fn lemma_fold_idempotent(cfg: JsxCfgV, e: ExprV)
    requires
        cfg_no_jsx(cfg),
    ensures
        spec_fold_expr(cfg, e) matches Ok(r) ==> spec_fold_expr(cfg, r) == Ok::<
            ExprV,
            Unsupported,
        >(r),
{
    lemma_fold_expr_no_jsx(cfg, e);
    match spec_fold_expr(cfg, e) {
        Ok(r) => {
            lemma_id_expr(cfg, r);
        },
        Err(_) => {},
    }
}

/// More generally, the pass leaves any already-lowered (JSX-free) tree
/// untouched: the default traversal rebuilds an unmatched node
/// identically.
pub proof fn lemma_fold_identity_on_no_jsx(cfg: JsxCfgV, e: ExprV)
    requires
        no_jsx(e),
    ensures
        spec_fold_expr(cfg, e) == Ok::<ExprV, Unsupported>(e),
{
    lemma_id_expr(cfg, e);
}

/// A well-formed pass's configuration expressions are free of JSX, so
/// the two laws above apply to every pass [`crate::jsx::jsx`] builds.
pub proof fn lemma_pass_cfg_no_jsx(j: crate::jsx::Jsx)
    requires
        j.wf(),
    ensures
        cfg_no_jsx(j.cfg()),
{
    j.lemma_wf_cfg();
    lemma_path_no_jsx(j.cfg().pragma);
    lemma_path_no_jsx(*j.cfg().pragma_frag.expr);
}

} // verus!
