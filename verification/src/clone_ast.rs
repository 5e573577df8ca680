//! Deep copies of syntax-tree values, each proved to have the same view
//! as its original. The pass needs them because a rewrite site reuses
//! the configured pragma expression by value, and keeps subtrees of the
//! input while building fresh nodes around them.

use crate::ast::{
    Bool, CallExpr, Expr, ExprOrSpread, Ident, JSXAttr, JSXAttrName, JSXAttrOrSpread, JSXElement,
    JSXElementChild, JSXElementName, JSXExpr, JSXFragment, JSXMemberExpr, JSXNamespacedName,
    JSXObject, JSXText, Lit, MemberExpr, ObjectLit, Prop, PropName, SpreadElement, Str,
    lemma_view_args, lemma_view_attrs, lemma_view_children, lemma_view_props, view_arg, view_attr,
    view_attr_name, view_attr_or_spread, view_args, view_attrs, view_child, view_children,
    view_element, view_element_name, view_expr, view_fragment, view_ident, view_jsx_member,
    view_jsx_object, view_lit, view_namespaced_name, view_prop, view_prop_name, view_props,
    view_str,
};
use vstd::prelude::*;

verus! {

broadcast use vstd::std_specs::vec::group_vec_axioms, vstd::seq::group_seq_axioms;

pub fn clone_ident(i: &Ident) -> (r: Ident)
    ensures
        view_ident(r) == view_ident(*i),
{
    Ident { span: i.span, sym: i.sym.clone() }
}

pub fn clone_str(s: &Str) -> (r: Str)
    ensures
        view_str(r) == view_str(*s),
{
    Str { span: s.span, value: s.value.clone(), has_escape: s.has_escape }
}

pub fn clone_lit(l: &Lit) -> (r: Lit)
    ensures
        view_lit(r) == view_lit(*l),
{
    match l {
        Lit::Str(s) => Lit::Str(clone_str(s)),
        Lit::Bool(b) => Lit::Bool(Bool { span: b.span, value: b.value }),
        Lit::Null(sp) => Lit::Null(*sp),
    }
}

pub fn clone_namespaced_name(n: &JSXNamespacedName) -> (r: JSXNamespacedName)
    ensures
        view_namespaced_name(r) == view_namespaced_name(*n),
{
    JSXNamespacedName { span: n.span, ns: clone_ident(&n.ns), name: clone_ident(&n.name) }
}

pub fn clone_jsx_object(o: &JSXObject) -> (r: JSXObject)
    ensures
        view_jsx_object(r) == view_jsx_object(*o),
    decreases *o,
{
    match o {
        JSXObject::Ident(i) => JSXObject::Ident(clone_ident(i)),
        JSXObject::JSXMemberExpr(m) => JSXObject::JSXMemberExpr(Box::new(clone_jsx_member(m))),
    }
}

pub fn clone_jsx_member(m: &JSXMemberExpr) -> (r: JSXMemberExpr)
    ensures
        view_jsx_member(r) == view_jsx_member(*m),
    decreases *m,
{
    JSXMemberExpr { span: m.span, obj: clone_jsx_object(&m.obj), prop: clone_ident(&m.prop) }
}

pub fn clone_element_name(n: &JSXElementName) -> (r: JSXElementName)
    ensures
        view_element_name(r) == view_element_name(*n),
{
    match n {
        JSXElementName::Ident(i) => JSXElementName::Ident(clone_ident(i)),
        JSXElementName::JSXMemberExpr(m) => JSXElementName::JSXMemberExpr(clone_jsx_member(m)),
        JSXElementName::JSXNamespacedName(nn) => JSXElementName::JSXNamespacedName(
            clone_namespaced_name(nn),
        ),
    }
}

pub fn clone_attr_name(n: &JSXAttrName) -> (r: JSXAttrName)
    ensures
        view_attr_name(r) == view_attr_name(*n),
{
    match n {
        JSXAttrName::Ident(i) => JSXAttrName::Ident(clone_ident(i)),
        JSXAttrName::JSXNamespacedName(nn) => JSXAttrName::JSXNamespacedName(
            clone_namespaced_name(nn),
        ),
    }
}

pub fn clone_jsx_text(t: &JSXText) -> (r: JSXText)
    ensures
        view_child(JSXElementChild::JSXText(r)) == view_child(
            JSXElementChild::JSXText(*t),
        ),
{
    JSXText { span: t.span, value: t.value.clone(), raw: t.raw.clone() }
}

pub fn clone_expr(e: &Expr) -> (r: Expr)
    ensures
        view_expr(r) == view_expr(*e),
    decreases *e,
{
    match e {
        Expr::This(sp) => Expr::This(*sp),
        Expr::Ident(i) => Expr::Ident(clone_ident(i)),
        Expr::Lit(l) => Expr::Lit(clone_lit(l)),
        Expr::Call(c) => {
            let callee = Box::new(clone_expr(&c.callee));
            let mut args: Vec<ExprOrSpread> = Vec::new();
            let mut k: usize = 0;
            while k < c.args.len()
                invariant
                    k <= c.args.len(),
                    args@.len() == k,
                    *e is Call,
                    c == &(e->Call_0),
                    forall|j: int|
                        0 <= j < k ==> view_arg(#[trigger] args@[j]) == view_arg(c.args@[j]),
                decreases c.args.len() - k,
            {
                let a = &c.args[k];
                proof {
                    assert(decreases_to!(*e => e->Call_0));
                    assert(decreases_to!(e->Call_0 => c.args));
                    assert(decreases_to!(c.args => c.args@[k as int]));
                    assert(decreases_to!(c.args@[k as int] => *c.args@[k as int].expr));
                }
                args.push(ExprOrSpread { spread: a.spread, expr: Box::new(clone_expr(&a.expr)) });
                k = k + 1;
            }
            proof {
                lemma_view_args(args@, 0);
                lemma_view_args(c.args@, 0);
                assert(view_args(args@, 0) =~= view_args(c.args@, 0));
            }
            Expr::Call(CallExpr { span: c.span, callee, args })
        },
        Expr::Member(m) => Expr::Member(
            MemberExpr {
                span: m.span,
                obj: Box::new(clone_expr(&m.obj)),
                prop: Box::new(clone_expr(&m.prop)),
                computed: m.computed,
            },
        ),
        Expr::Object(o) => {
            let mut props: Vec<Prop> = Vec::new();
            let mut k: usize = 0;
            while k < o.props.len()
                invariant
                    k <= o.props.len(),
                    props@.len() == k,
                    *e is Object,
                    o == &(e->Object_0),
                    forall|j: int|
                        0 <= j < k ==> view_prop(#[trigger] props@[j]) == view_prop(o.props@[j]),
                decreases o.props.len() - k,
            {
                let p = &o.props[k];
                proof {
                    assert(decreases_to!(*e => e->Object_0));
                    assert(decreases_to!(e->Object_0 => o.props));
                    assert(decreases_to!(o.props => o.props@[k as int]));
                    assert(decreases_to!(o.props@[k as int] => *o.props@[k as int].value));
                }
                props.push(
                    Prop { key: clone_prop_name(&p.key), value: Box::new(clone_expr(&p.value)) },
                );
                k = k + 1;
            }
            proof {
                lemma_view_props(props@, 0);
                lemma_view_props(o.props@, 0);
                assert(view_props(props@, 0) =~= view_props(o.props@, 0));
            }
            Expr::Object(ObjectLit { span: o.span, props })
        },
        Expr::Paren(sp, inner) => Expr::Paren(*sp, Box::new(clone_expr(inner))),
        Expr::JSXElement(el) => Expr::JSXElement(Box::new(clone_element(el))),
        Expr::JSXFragment(f) => Expr::JSXFragment(clone_fragment(f)),
    }
}

pub fn clone_prop_name(n: &PropName) -> (r: PropName)
    ensures
        view_prop_name(r) == view_prop_name(*n),
{
    match n {
        PropName::Ident(i) => PropName::Ident(clone_ident(i)),
        PropName::Str(s) => PropName::Str(clone_str(s)),
    }
}

pub fn clone_attr_or_spread(a: &JSXAttrOrSpread) -> (r: JSXAttrOrSpread)
    ensures
        view_attr_or_spread(r) == view_attr_or_spread(*a),
    decreases *a,
{
    match a {
        JSXAttrOrSpread::JSXAttr(at) => JSXAttrOrSpread::JSXAttr(
            JSXAttr {
                span: at.span,
                name: clone_attr_name(&at.name),
                value: match &at.value {
                    Some(v) => Some(Box::new(clone_expr(v))),
                    None => None,
                },
            },
        ),
        JSXAttrOrSpread::SpreadElement(sp) => JSXAttrOrSpread::SpreadElement(
            SpreadElement { span: sp.span, expr: Box::new(clone_expr(&sp.expr)) },
        ),
    }
}

pub fn clone_child(c: &JSXElementChild) -> (r: JSXElementChild)
    ensures
        view_child(r) == view_child(*c),
    decreases *c,
{
    match c {
        JSXElementChild::JSXText(t) => JSXElementChild::JSXText(clone_jsx_text(t)),
        JSXElementChild::JSXExprContainer(x) => JSXElementChild::JSXExprContainer(
            match x {
                JSXExpr::JSXEmptyExpr(sp) => JSXExpr::JSXEmptyExpr(*sp),
                JSXExpr::Expr(e) => JSXExpr::Expr(Box::new(clone_expr(e))),
            },
        ),
        JSXElementChild::JSXElement(el) => JSXElementChild::JSXElement(Box::new(clone_element(el))),
        JSXElementChild::JSXFragment(f) => JSXElementChild::JSXFragment(clone_fragment(f)),
        JSXElementChild::JSXSpreadChild(sp, e) => JSXElementChild::JSXSpreadChild(
            *sp,
            Box::new(clone_expr(e)),
        ),
    }
}

pub fn clone_children_vec(v: &Vec<JSXElementChild>) -> (r: Vec<JSXElementChild>)
    ensures
        view_children(r@, 0) == view_children(v@, 0),
    decreases *v,
{
    let mut out: Vec<JSXElementChild> = Vec::new();
    let mut k: usize = 0;
    while k < v.len()
        invariant
            k <= v.len(),
            out@.len() == k,
            forall|j: int| 0 <= j < k ==> view_child(#[trigger] out@[j]) == view_child(v@[j]),
        decreases v.len() - k,
    {
        out.push(clone_child(&v[k]));
        k = k + 1;
    }
    proof {
        lemma_view_children(out@, 0);
        lemma_view_children(v@, 0);
        assert(view_children(out@, 0) =~= view_children(v@, 0));
    }
    out
}

pub fn clone_element(el: &JSXElement) -> (r: JSXElement)
    ensures
        view_element(r) == view_element(*el),
    decreases *el,
{
    let name = clone_element_name(&el.name);
    let mut attrs: Vec<JSXAttrOrSpread> = Vec::new();
    let mut k: usize = 0;
    while k < el.attrs.len()
        invariant
            k <= el.attrs.len(),
            attrs@.len() == k,
            forall|j: int|
                0 <= j < k ==> view_attr_or_spread(#[trigger] attrs@[j]) == view_attr_or_spread(
                    el.attrs@[j],
                ),
        decreases el.attrs.len() - k,
    {
        attrs.push(clone_attr_or_spread(&el.attrs[k]));
        k = k + 1;
    }
    proof {
        lemma_view_attrs(attrs@, 0);
        lemma_view_attrs(el.attrs@, 0);
        assert(view_attrs(attrs@, 0) =~= view_attrs(el.attrs@, 0));
    }
    let children = clone_children_vec(&el.children);
    JSXElement { span: el.span, name, attrs, children }
}

pub fn clone_fragment(f: &JSXFragment) -> (r: JSXFragment)
    ensures
        view_fragment(r) == view_fragment(*f),
    decreases *f,
{
    JSXFragment { span: f.span, children: clone_children_vec(&f.children) }
}

} // verus!
