//! The abstract syntax tree the rewrite passes work on: a closed tagged
//! union over node kinds, each node carrying a [`Span`]. A parent owns its
//! children exclusively; transforms replace whole subtrees.
//!
//! Each executable node type has a ghost counterpart (suffix `V`) in which
//! every `String` becomes a `Seq<char>`, every `Vec` a `Seq` and every box
//! is transparent; contracts speak of those views.

use crate::pos::Span;
use vstd::prelude::*;

verus! {

// ----------------------------------------------------------------------
// Executable node types
// ----------------------------------------------------------------------
#[derive(Debug, PartialEq)]
pub struct Ident {
    pub span: Span,
    pub sym: String,
}

#[derive(Debug, PartialEq)]
pub struct Str {
    pub span: Span,
    pub value: String,
    pub has_escape: bool,
}

#[derive(Debug, PartialEq)]
pub struct Bool {
    pub span: Span,
    pub value: bool,
}

#[derive(Debug, PartialEq)]
pub enum Lit {
    Str(Str),
    Bool(Bool),
    Null(Span),
}

#[derive(Debug, PartialEq)]
pub struct CallExpr {
    pub span: Span,
    pub callee: Box<Expr>,
    pub args: Vec<ExprOrSpread>,
}

/// One call argument: the expression, spread when `spread` carries the
/// span of the `...` token.
#[derive(Debug, PartialEq)]
pub struct ExprOrSpread {
    pub spread: Option<Span>,
    pub expr: Box<Expr>,
}

#[derive(Debug, PartialEq)]
pub struct MemberExpr {
    pub span: Span,
    pub obj: Box<Expr>,
    pub prop: Box<Expr>,
    pub computed: bool,
}

#[derive(Debug, PartialEq)]
pub struct ObjectLit {
    pub span: Span,
    pub props: Vec<Prop>,
}

#[derive(Debug, PartialEq)]
pub struct Prop {
    pub key: PropName,
    pub value: Box<Expr>,
}

#[derive(Debug, PartialEq)]
pub enum PropName {
    Ident(Ident),
    Str(Str),
}

#[derive(Debug, PartialEq)]
pub enum Expr {
    This(Span),
    Ident(Ident),
    Lit(Lit),
    Call(CallExpr),
    Member(MemberExpr),
    Object(ObjectLit),
    Paren(Span, Box<Expr>),
    JSXElement(Box<JSXElement>),
    JSXFragment(JSXFragment),
}

/// A `...expr` attribute position; `span` is the span of the whole spread.
#[derive(Debug, PartialEq)]
pub struct SpreadElement {
    pub span: Span,
    pub expr: Box<Expr>,
}

#[derive(Debug, PartialEq)]
pub struct JSXElement {
    pub span: Span,
    pub name: JSXElementName,
    pub attrs: Vec<JSXAttrOrSpread>,
    pub children: Vec<JSXElementChild>,
}

#[derive(Debug, PartialEq)]
pub enum JSXElementName {
    Ident(Ident),
    JSXMemberExpr(JSXMemberExpr),
    JSXNamespacedName(JSXNamespacedName),
}

#[derive(Debug, PartialEq)]
pub struct JSXMemberExpr {
    pub span: Span,
    pub obj: JSXObject,
    pub prop: Ident,
}

#[derive(Debug, PartialEq)]
pub enum JSXObject {
    Ident(Ident),
    JSXMemberExpr(Box<JSXMemberExpr>),
}

#[derive(Debug, PartialEq)]
pub struct JSXNamespacedName {
    pub span: Span,
    pub ns: Ident,
    pub name: Ident,
}

#[derive(Debug, PartialEq)]
pub enum JSXAttrOrSpread {
    JSXAttr(JSXAttr),
    SpreadElement(SpreadElement),
}

#[derive(Debug, PartialEq)]
pub struct JSXAttr {
    pub span: Span,
    pub name: JSXAttrName,
    pub value: Option<Box<Expr>>,
}

#[derive(Debug, PartialEq)]
pub enum JSXAttrName {
    Ident(Ident),
    JSXNamespacedName(JSXNamespacedName),
}

#[derive(Debug, PartialEq)]
pub enum JSXElementChild {
    JSXText(JSXText),
    JSXExprContainer(JSXExpr),
    JSXElement(Box<JSXElement>),
    JSXFragment(JSXFragment),
    JSXSpreadChild(Span, Box<Expr>),
}

#[derive(Debug, PartialEq)]
pub struct JSXText {
    pub span: Span,
    pub value: String,
    pub raw: String,
}

#[derive(Debug, PartialEq)]
pub enum JSXExpr {
    JSXEmptyExpr(Span),
    Expr(Box<Expr>),
}

#[derive(Debug, PartialEq)]
pub struct JSXFragment {
    pub span: Span,
    pub children: Vec<JSXElementChild>,
}

// ----------------------------------------------------------------------
// Ghost views
// ----------------------------------------------------------------------
pub struct IdentV {
    pub span: Span,
    pub sym: Seq<char>,
}

pub struct StrV {
    pub span: Span,
    pub value: Seq<char>,
    pub has_escape: bool,
}

pub enum LitV {
    Str(StrV),
    Bool(Bool),
    Null(Span),
}

pub struct CallExprV {
    pub span: Span,
    pub callee: Box<ExprV>,
    pub args: Seq<ExprOrSpreadV>,
}

pub struct ExprOrSpreadV {
    pub spread: Option<Span>,
    pub expr: Box<ExprV>,
}

pub struct MemberExprV {
    pub span: Span,
    pub obj: Box<ExprV>,
    pub prop: Box<ExprV>,
    pub computed: bool,
}

pub struct ObjectLitV {
    pub span: Span,
    pub props: Seq<PropV>,
}

pub struct PropV {
    pub key: PropNameV,
    pub value: Box<ExprV>,
}

pub enum PropNameV {
    Ident(IdentV),
    Str(StrV),
}

pub enum ExprV {
    This(Span),
    Ident(IdentV),
    Lit(LitV),
    Call(CallExprV),
    Member(MemberExprV),
    Object(ObjectLitV),
    Paren(Span, Box<ExprV>),
    JSXElement(Box<JSXElementV>),
    JSXFragment(JSXFragmentV),
}

pub struct SpreadElementV {
    pub span: Span,
    pub expr: Box<ExprV>,
}

pub struct JSXElementV {
    pub span: Span,
    pub name: JSXElementNameV,
    pub attrs: Seq<JSXAttrOrSpreadV>,
    pub children: Seq<JSXElementChildV>,
}

pub enum JSXElementNameV {
    Ident(IdentV),
    JSXMemberExpr(JSXMemberExprV),
    JSXNamespacedName(JSXNamespacedNameV),
}

pub struct JSXMemberExprV {
    pub span: Span,
    pub obj: JSXObjectV,
    pub prop: IdentV,
}

pub enum JSXObjectV {
    Ident(IdentV),
    JSXMemberExpr(Box<JSXMemberExprV>),
}

pub struct JSXNamespacedNameV {
    pub span: Span,
    pub ns: IdentV,
    pub name: IdentV,
}

pub enum JSXAttrOrSpreadV {
    JSXAttr(JSXAttrV),
    SpreadElement(SpreadElementV),
}

pub struct JSXAttrV {
    pub span: Span,
    pub name: JSXAttrNameV,
    pub value: Option<Box<ExprV>>,
}

pub enum JSXAttrNameV {
    Ident(IdentV),
    JSXNamespacedName(JSXNamespacedNameV),
}

pub enum JSXElementChildV {
    JSXText(JSXTextV),
    JSXExprContainer(JSXExprV),
    JSXElement(Box<JSXElementV>),
    JSXFragment(JSXFragmentV),
    JSXSpreadChild(Span, Box<ExprV>),
}

pub struct JSXTextV {
    pub span: Span,
    pub value: Seq<char>,
    pub raw: Seq<char>,
}

pub enum JSXExprV {
    JSXEmptyExpr(Span),
    Expr(Box<ExprV>),
}

pub struct JSXFragmentV {
    pub span: Span,
    pub children: Seq<JSXElementChildV>,
}

// ----------------------------------------------------------------------
// View functions
// ----------------------------------------------------------------------
pub open spec fn view_ident(i: Ident) -> IdentV {
    IdentV { span: i.span, sym: i.sym@ }
}

pub open spec fn view_str(s: Str) -> StrV {
    StrV { span: s.span, value: s.value@, has_escape: s.has_escape }
}

pub open spec fn view_lit(l: Lit) -> LitV {
    match l {
        Lit::Str(s) => LitV::Str(view_str(s)),
        Lit::Bool(b) => LitV::Bool(b),
        Lit::Null(sp) => LitV::Null(sp),
    }
}

pub open spec fn view_prop_name(n: PropName) -> PropNameV {
    match n {
        PropName::Ident(i) => PropNameV::Ident(view_ident(i)),
        PropName::Str(s) => PropNameV::Str(view_str(s)),
    }
}

pub open spec fn view_expr(e: Expr) -> ExprV
    decreases e,
{
    match e {
        Expr::This(sp) => ExprV::This(sp),
        Expr::Ident(i) => ExprV::Ident(view_ident(i)),
        Expr::Lit(l) => ExprV::Lit(view_lit(l)),
        Expr::Call(c) => ExprV::Call(
            CallExprV { span: c.span, callee: Box::new(view_expr(*c.callee)), args: view_args(c.args@, 0) },
        ),
        Expr::Member(m) => ExprV::Member(
            MemberExprV {
                span: m.span,
                obj: Box::new(view_expr(*m.obj)),
                prop: Box::new(view_expr(*m.prop)),
                computed: m.computed,
            },
        ),
        Expr::Object(o) => ExprV::Object(ObjectLitV { span: o.span, props: view_props(o.props@, 0) }),
        Expr::Paren(sp, inner) => ExprV::Paren(sp, Box::new(view_expr(*inner))),
        Expr::JSXElement(el) => ExprV::JSXElement(Box::new(view_element(*el))),
        Expr::JSXFragment(f) => ExprV::JSXFragment(view_fragment(f)),
    }
}

pub open spec fn view_arg(a: ExprOrSpread) -> ExprOrSpreadV
    decreases a,
{
    ExprOrSpreadV { spread: a.spread, expr: Box::new(view_expr(*a.expr)) }
}

pub open spec fn view_args(s: Seq<ExprOrSpread>, i: int) -> Seq<ExprOrSpreadV>
    decreases s, s.len() - i,
{
    if 0 <= i < s.len() {
        seq![view_arg(s[i])] + view_args(s, i + 1)
    } else {
        Seq::empty()
    }
}

pub open spec fn view_prop(p: Prop) -> PropV
    decreases p,
{
    PropV { key: view_prop_name(p.key), value: Box::new(view_expr(*p.value)) }
}

pub open spec fn view_props(s: Seq<Prop>, i: int) -> Seq<PropV>
    decreases s, s.len() - i,
{
    if 0 <= i < s.len() {
        seq![view_prop(s[i])] + view_props(s, i + 1)
    } else {
        Seq::empty()
    }
}

pub open spec fn view_element(el: JSXElement) -> JSXElementV
    decreases el,
{
    JSXElementV {
        span: el.span,
        name: view_element_name(el.name),
        attrs: view_attrs(el.attrs@, 0),
        children: view_children(el.children@, 0),
    }
}

pub open spec fn view_element_name(n: JSXElementName) -> JSXElementNameV {
    match n {
        JSXElementName::Ident(i) => JSXElementNameV::Ident(view_ident(i)),
        JSXElementName::JSXMemberExpr(m) => JSXElementNameV::JSXMemberExpr(view_jsx_member(m)),
        JSXElementName::JSXNamespacedName(nn) => JSXElementNameV::JSXNamespacedName(
            view_namespaced_name(nn),
        ),
    }
}

pub open spec fn view_jsx_member(m: JSXMemberExpr) -> JSXMemberExprV
    decreases m,
{
    JSXMemberExprV { span: m.span, obj: view_jsx_object(m.obj), prop: view_ident(m.prop) }
}

pub open spec fn view_jsx_object(o: JSXObject) -> JSXObjectV
    decreases o,
{
    match o {
        JSXObject::Ident(i) => JSXObjectV::Ident(view_ident(i)),
        JSXObject::JSXMemberExpr(m) => JSXObjectV::JSXMemberExpr(Box::new(view_jsx_member(*m))),
    }
}

pub open spec fn view_namespaced_name(n: JSXNamespacedName) -> JSXNamespacedNameV {
    JSXNamespacedNameV { span: n.span, ns: view_ident(n.ns), name: view_ident(n.name) }
}

pub open spec fn view_attr_or_spread(a: JSXAttrOrSpread) -> JSXAttrOrSpreadV
    decreases a,
{
    match a {
        JSXAttrOrSpread::JSXAttr(at) => JSXAttrOrSpreadV::JSXAttr(view_attr(at)),
        JSXAttrOrSpread::SpreadElement(s) => JSXAttrOrSpreadV::SpreadElement(
            SpreadElementV { span: s.span, expr: Box::new(view_expr(*s.expr)) },
        ),
    }
}

pub open spec fn view_attr(a: JSXAttr) -> JSXAttrV
    decreases a,
{
    JSXAttrV {
        span: a.span,
        name: view_attr_name(a.name),
        value: match a.value {
            Some(e) => Some(Box::new(view_expr(*e))),
            None => None,
        },
    }
}

pub open spec fn view_attr_name(n: JSXAttrName) -> JSXAttrNameV {
    match n {
        JSXAttrName::Ident(i) => JSXAttrNameV::Ident(view_ident(i)),
        JSXAttrName::JSXNamespacedName(nn) => JSXAttrNameV::JSXNamespacedName(
            view_namespaced_name(nn),
        ),
    }
}

pub open spec fn view_attrs(s: Seq<JSXAttrOrSpread>, i: int) -> Seq<JSXAttrOrSpreadV>
    decreases s, s.len() - i,
{
    if 0 <= i < s.len() {
        seq![view_attr_or_spread(s[i])] + view_attrs(s, i + 1)
    } else {
        Seq::empty()
    }
}

pub open spec fn view_child(c: JSXElementChild) -> JSXElementChildV
    decreases c,
{
    match c {
        JSXElementChild::JSXText(t) => JSXElementChildV::JSXText(
            JSXTextV { span: t.span, value: t.value@, raw: t.raw@ },
        ),
        JSXElementChild::JSXExprContainer(x) => JSXElementChildV::JSXExprContainer(
            match x {
                JSXExpr::JSXEmptyExpr(sp) => JSXExprV::JSXEmptyExpr(sp),
                JSXExpr::Expr(e) => JSXExprV::Expr(Box::new(view_expr(*e))),
            },
        ),
        JSXElementChild::JSXElement(el) => JSXElementChildV::JSXElement(Box::new(view_element(*el))),
        JSXElementChild::JSXFragment(f) => JSXElementChildV::JSXFragment(view_fragment(f)),
        JSXElementChild::JSXSpreadChild(sp, e) => JSXElementChildV::JSXSpreadChild(
            sp,
            Box::new(view_expr(*e)),
        ),
    }
}

pub open spec fn view_children(s: Seq<JSXElementChild>, i: int) -> Seq<JSXElementChildV>
    decreases s, s.len() - i,
{
    if 0 <= i < s.len() {
        seq![view_child(s[i])] + view_children(s, i + 1)
    } else {
        Seq::empty()
    }
}

pub open spec fn view_fragment(f: JSXFragment) -> JSXFragmentV
    decreases f,
{
    JSXFragmentV { span: f.span, children: view_children(f.children@, 0) }
}

impl View for Expr {
    type V = ExprV;

    open spec fn view(&self) -> ExprV {
        view_expr(*self)
    }
}

impl View for JSXElement {
    type V = JSXElementV;

    open spec fn view(&self) -> JSXElementV {
        view_element(*self)
    }
}

impl View for JSXFragment {
    type V = JSXFragmentV;

    open spec fn view(&self) -> JSXFragmentV {
        view_fragment(*self)
    }
}

impl View for JSXElementName {
    type V = JSXElementNameV;

    open spec fn view(&self) -> JSXElementNameV {
        view_element_name(*self)
    }
}

impl View for JSXElementChild {
    type V = JSXElementChildV;

    open spec fn view(&self) -> JSXElementChildV {
        view_child(*self)
    }
}

impl View for JSXAttr {
    type V = JSXAttrV;

    open spec fn view(&self) -> JSXAttrV {
        view_attr(*self)
    }
}

impl View for JSXAttrName {
    type V = JSXAttrNameV;

    open spec fn view(&self) -> JSXAttrNameV {
        view_attr_name(*self)
    }
}

impl View for Prop {
    type V = PropV;

    open spec fn view(&self) -> PropV {
        view_prop(*self)
    }
}

impl View for PropName {
    type V = PropNameV;

    open spec fn view(&self) -> PropNameV {
        view_prop_name(*self)
    }
}

impl View for Ident {
    type V = IdentV;

    open spec fn view(&self) -> IdentV {
        view_ident(*self)
    }
}

// ----------------------------------------------------------------------
// Well-formedness: the one partial operation of the rewrite reads the
// first character of an element-name identifier, so such identifiers
// must be non-empty (the parser never produces empty ones).
// ----------------------------------------------------------------------
pub open spec fn element_name_wf(n: JSXElementNameV) -> bool {
    match n {
        JSXElementNameV::Ident(i) => i.sym.len() > 0,
        _ => true,
    }
}

// ----------------------------------------------------------------------
// Absence of syntax sugar: true of the rewrite's output.
// ----------------------------------------------------------------------
pub open spec fn no_jsx(e: ExprV) -> bool
    decreases e,
{
    match e {
        ExprV::This(_) => true,
        ExprV::Ident(_) => true,
        ExprV::Lit(_) => true,
        ExprV::Call(c) => no_jsx(*c.callee) && no_jsx_args(c.args, 0),
        ExprV::Member(m) => no_jsx(*m.obj) && no_jsx(*m.prop),
        ExprV::Object(o) => no_jsx_props(o.props, 0),
        ExprV::Paren(_, inner) => no_jsx(*inner),
        ExprV::JSXElement(_) => false,
        ExprV::JSXFragment(_) => false,
    }
}

pub open spec fn no_jsx_args(s: Seq<ExprOrSpreadV>, i: int) -> bool
    decreases s, s.len() - i,
{
    if 0 <= i < s.len() {
        no_jsx(*s[i].expr) && no_jsx_args(s, i + 1)
    } else {
        true
    }
}

pub open spec fn no_jsx_props(s: Seq<PropV>, i: int) -> bool
    decreases s, s.len() - i,
{
    if 0 <= i < s.len() {
        no_jsx(*s[i].value) && no_jsx_props(s, i + 1)
    } else {
        true
    }
}

// ----------------------------------------------------------------------
// Pointwise descriptions of the list views
// ----------------------------------------------------------------------
pub proof fn lemma_view_args(s: Seq<ExprOrSpread>, i: int)
    requires
        0 <= i <= s.len(),
    ensures
        view_args(s, i).len() == s.len() - i,
        forall|j: int| 0 <= j < s.len() - i ==> view_args(s, i)[j] == view_arg(s[i + j]),
    decreases s.len() - i,
{
    if i < s.len() {
        lemma_view_args(s, i + 1);
    }
}

pub proof fn lemma_view_props(s: Seq<Prop>, i: int)
    requires
        0 <= i <= s.len(),
    ensures
        view_props(s, i).len() == s.len() - i,
        forall|j: int| 0 <= j < s.len() - i ==> view_props(s, i)[j] == view_prop(s[i + j]),
    decreases s.len() - i,
{
    if i < s.len() {
        lemma_view_props(s, i + 1);
    }
}

pub proof fn lemma_view_attrs(s: Seq<JSXAttrOrSpread>, i: int)
    requires
        0 <= i <= s.len(),
    ensures
        view_attrs(s, i).len() == s.len() - i,
        forall|j: int| 0 <= j < s.len() - i ==> view_attrs(s, i)[j] == view_attr_or_spread(
            s[i + j],
        ),
    decreases s.len() - i,
{
    if i < s.len() {
        lemma_view_attrs(s, i + 1);
    }
}

pub proof fn lemma_view_children(s: Seq<JSXElementChild>, i: int)
    requires
        0 <= i <= s.len(),
    ensures
        view_children(s, i).len() == s.len() - i,
        forall|j: int| 0 <= j < s.len() - i ==> view_children(s, i)[j] == view_child(s[i + j]),
    decreases s.len() - i,
{
    if i < s.len() {
        lemma_view_children(s, i + 1);
    }
}

} // verus!
