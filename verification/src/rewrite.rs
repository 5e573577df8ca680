//! The mathematical description of the JSX-to-call lowering: spec
//! functions over the ghost views of the syntax tree. The executable pass
//! in [`crate::jsx`] is proved to return exactly these values.
//!
//! The pass folds bottom-up: every expression embedded in a node is
//! rewritten before the node itself is inspected, and a (possibly
//! parenthesized) JSX element, or a JSX fragment, is then replaced by a
//! call of the configured pragma.

use crate::ast::{
    Bool, CallExprV, ExprOrSpreadV, ExprV, IdentV, JSXAttrNameV, JSXAttrOrSpreadV, JSXAttrV,
    JSXElementChildV, JSXElementNameV, JSXElementV, JSXExprV, JSXFragmentV, JSXMemberExprV,
    JSXObjectV, LitV, MemberExprV, ObjectLitV, PropNameV, PropV, SpreadElementV, StrV,
};
use crate::pos::{spec_dummy_span, Span};
use vstd::prelude::*;

verus! {

/// A recognized but unimplemented shape was reached: fatal for the
/// compilation unit, carrying the offending span so diagnostics point at
/// user source. The one reachable case is a spread JSX child.
#[derive(Clone, Copy, PartialEq, Eq, Structural, Debug)]
pub struct Unsupported {
    pub span: Span,
}

/// The pass configuration, at the ghost level: the parsed pragma
/// expression, the fragment-pragma call argument, and the merge policy.
pub struct JsxCfgV {
    pub pragma: ExprV,
    pub pragma_frag: ExprOrSpreadV,
    pub use_builtins: bool,
}

// ----------------------------------------------------------------------
// Small builders
// ----------------------------------------------------------------------
/// A plain (non-spread) call argument.
pub open spec fn arg_of(e: ExprV) -> ExprOrSpreadV {
    ExprOrSpreadV { spread: None, expr: Box::new(e) }
}

/// The `null` literal argument standing for an empty attribute set.
pub open spec fn null_arg() -> ExprOrSpreadV {
    arg_of(ExprV::Lit(LitV::Null(spec_dummy_span())))
}

/// `Object.assign`, the native merge primitive.
pub open spec fn object_assign_callee() -> ExprV {
    ExprV::Member(
        MemberExprV {
            span: spec_dummy_span(),
            obj: Box::new(ExprV::Ident(IdentV { span: spec_dummy_span(), sym: "Object"@ })),
            prop: Box::new(ExprV::Ident(IdentV { span: spec_dummy_span(), sym: "assign"@ })),
            computed: false,
        },
    )
}

/// `_extends`, the injected merge helper.
pub open spec fn extends_callee() -> ExprV {
    ExprV::Ident(IdentV { span: spec_dummy_span(), sym: "_extends"@ })
}

pub open spec fn is_ascii_lowercase(c: char) -> bool {
    ('a' as u32) <= (c as u32) && (c as u32) <= ('z' as u32)
}

// ----------------------------------------------------------------------
// Element-name resolution
// ----------------------------------------------------------------------
pub open spec fn spec_jsx_object(o: JSXObjectV) -> ExprV
    decreases o,
{
    match o {
        JSXObjectV::Ident(i) => if i.sym == "this"@ {
            ExprV::This(i.span)
        } else {
            ExprV::Ident(i)
        },
        JSXObjectV::JSXMemberExpr(m) => ExprV::Member(
            MemberExprV {
                span: m.span,
                obj: Box::new(spec_jsx_object(m.obj)),
                prop: Box::new(ExprV::Ident(m.prop)),
                computed: false,
            },
        ),
    }
}

/// Element-name resolution: `this` becomes the enclosing-instance
/// reference, a lowercase-initial identifier an intrinsic-tag string,
/// any other identifier a component reference, `ns:name` the string
/// `"ns:name"`, and a member path a member-access expression.
pub open spec fn spec_jsx_name(n: JSXElementNameV) -> ExprV {
    match n {
        JSXElementNameV::Ident(i) => if i.sym == "this"@ {
            ExprV::This(i.span)
        } else if i.sym.len() > 0 && is_ascii_lowercase(i.sym[0]) {
            ExprV::Lit(LitV::Str(StrV { span: i.span, value: i.sym, has_escape: false }))
        } else {
            ExprV::Ident(i)
        },
        JSXElementNameV::JSXNamespacedName(nn) => ExprV::Lit(
            LitV::Str(
                StrV { span: nn.span, value: nn.ns.sym + ":"@ + nn.name.sym, has_escape: false },
            ),
        ),
        JSXElementNameV::JSXMemberExpr(m) => ExprV::Member(
            MemberExprV {
                span: m.span,
                obj: Box::new(spec_jsx_object(m.obj)),
                prop: Box::new(ExprV::Ident(m.prop)),
                computed: false,
            },
        ),
    }
}

// ----------------------------------------------------------------------
// Attribute lowering
// ----------------------------------------------------------------------
pub open spec fn spec_prop_name_span(n: PropNameV) -> Span {
    match n {
        PropNameV::Ident(i) => i.span,
        PropNameV::Str(s) => s.span,
    }
}

/// A hyphenated attribute name becomes a string key, any other a plain
/// identifier key; a namespaced name becomes the string `"ns:name"`.
pub open spec fn spec_to_prop_name(n: JSXAttrNameV) -> PropNameV {
    match n {
        JSXAttrNameV::Ident(i) => if i.sym.contains('-') {
            PropNameV::Str(StrV { span: i.span, value: i.sym, has_escape: false })
        } else {
            PropNameV::Ident(i)
        },
        JSXAttrNameV::JSXNamespacedName(nn) => PropNameV::Str(
            StrV { span: nn.span, value: nn.ns.sym + ":"@ + nn.name.sym, has_escape: false },
        ),
    }
}

/// A valueless attribute means boolean `true`.
pub open spec fn spec_attr_to_prop(a: JSXAttrV) -> PropV {
    let key = spec_to_prop_name(a.name);
    PropV {
        key: key,
        value: match a.value {
            Some(e) => e,
            None => Box::new(
                ExprV::Lit(LitV::Bool(Bool { span: spec_prop_name_span(key), value: true })),
            ),
        },
    }
}

pub open spec fn has_spread(s: Seq<JSXAttrOrSpreadV>) -> bool {
    exists|i: int| 0 <= i < s.len() && s[i] is SpreadElement
}

pub open spec fn spec_plain_props(s: Seq<JSXAttrOrSpreadV>, i: int) -> Seq<PropV>
    decreases s, s.len() - i,
{
    if 0 <= i < s.len() {
        match s[i] {
            JSXAttrOrSpreadV::JSXAttr(a) => seq![spec_attr_to_prop(a)] + spec_plain_props(s, i + 1),
            JSXAttrOrSpreadV::SpreadElement(_) => spec_plain_props(s, i + 1),
        }
    } else {
        Seq::empty()
    }
}

/// Close the pending run of plain attributes: an object literal is added
/// when it is non-empty, or when no argument exists yet (so a leading
/// spread is preceded by `{}`).
pub open spec fn spec_close_run(args: Seq<ExprOrSpreadV>, cur: Seq<PropV>) -> Seq<ExprOrSpreadV> {
    if args.len() == 0 || cur.len() > 0 {
        args.push(arg_of(ExprV::Object(ObjectLitV { span: spec_dummy_span(), props: cur })))
    } else {
        args
    }
}

/// The merge arguments for an attribute list containing spreads: plain
/// attributes are grouped into contiguous object-literal runs, each
/// spread contributes its own positional argument.
pub open spec fn spec_spread_args(
    s: Seq<JSXAttrOrSpreadV>,
    i: int,
    args: Seq<ExprOrSpreadV>,
    cur: Seq<PropV>,
) -> Seq<ExprOrSpreadV>
    decreases s, s.len() - i,
{
    if 0 <= i < s.len() {
        match s[i] {
            JSXAttrOrSpreadV::JSXAttr(a) => spec_spread_args(
                s,
                i + 1,
                args,
                cur.push(spec_attr_to_prop(a)),
            ),
            JSXAttrOrSpreadV::SpreadElement(sp) => spec_spread_args(
                s,
                i + 1,
                spec_close_run(args, cur).push(ExprOrSpreadV { spread: None, expr: sp.expr }),
                Seq::empty(),
            ),
        }
    } else {
        spec_close_run(args, cur)
    }
}

/// The whole attribute argument: `null` when empty, a single object
/// literal when no spread is present, otherwise a call of the merge
/// primitive or helper over the split runs.
pub open spec fn spec_fold_attrs(cfg: JsxCfgV, s: Seq<JSXAttrOrSpreadV>) -> ExprV {
    if s.len() == 0 {
        ExprV::Lit(LitV::Null(spec_dummy_span()))
    } else if has_spread(s) {
        ExprV::Call(
            CallExprV {
                span: spec_dummy_span(),
                callee: Box::new(
                    if cfg.use_builtins {
                        object_assign_callee()
                    } else {
                        extends_callee()
                    },
                ),
                args: spec_spread_args(s, 0, Seq::empty(), Seq::empty()),
            },
        )
    } else {
        ExprV::Object(ObjectLitV { span: spec_dummy_span(), props: spec_plain_props(s, 0) })
    }
}

/// True exactly when lowering this attribute list goes through the
/// injected `_extends` helper (and so must record it in the registry).
pub open spec fn attrs_use_helper(cfg: JsxCfgV, s: Seq<JSXAttrOrSpreadV>) -> bool {
    !cfg.use_builtins && s.len() > 0 && has_spread(s)
}

// ----------------------------------------------------------------------
// Child lowering and whitespace normalization
// ----------------------------------------------------------------------
pub open spec fn is_jsx_ws(c: char) -> bool {
    c == ' ' || c == '\t' || c == '\n' || c == '\r' || c == '\u{c}'
}

/// Whitespace normalization, stated as a left-to-right pass: each
/// maximal run of whitespace after a word collapses to one space (also
/// at the end of the text), and leading whitespace vanishes.
pub open spec fn spec_norm_text(s: Seq<char>, in_word: bool) -> Seq<char>
    decreases s.len(),
{
    if s.len() == 0 {
        if in_word {
            seq![' ']
        } else {
            Seq::empty()
        }
    } else if is_jsx_ws(s[0]) {
        if in_word {
            seq![' '] + spec_norm_text(s.drop_first(), false)
        } else {
            spec_norm_text(s.drop_first(), false)
        }
    } else {
        seq![s[0]] + spec_norm_text(s.drop_first(), true)
    }
}

/// JSX text is normalized only when it contains a space or a newline;
/// any other text (tabs included) is kept as it is.
pub open spec fn spec_jsx_text_str(s: Seq<char>) -> Seq<char> {
    if !s.contains(' ') && !s.contains('\n') {
        s
    } else {
        spec_norm_text(s, false)
    }
}

/// One child's contribution: normalized text (dropped when it becomes
/// empty), the expression of a non-empty container, the lowered form of
/// a nested element or fragment; a spread child is unsupported.
pub open spec fn spec_child_to_expr(cfg: JsxCfgV, c: JSXElementChildV) -> Result<
    Option<ExprOrSpreadV>,
    Unsupported,
>
    decreases c, 0int,
{
    match c {
        JSXElementChildV::JSXText(t) => {
            let norm = spec_jsx_text_str(t.value);
            if norm.len() == 0 {
                Ok(None)
            } else {
                Ok(
                    Some(
                        arg_of(
                            ExprV::Lit(
                                LitV::Str(
                                    StrV {
                                        span: t.span,
                                        value: norm,
                                        has_escape: t.raw != t.value,
                                    },
                                ),
                            ),
                        ),
                    ),
                )
            }
        },
        JSXElementChildV::JSXExprContainer(x) => match x {
            JSXExprV::Expr(e) => Ok(Some(ExprOrSpreadV { spread: None, expr: e })),
            JSXExprV::JSXEmptyExpr(_) => Ok(None),
        },
        JSXElementChildV::JSXElement(el) => match spec_elem_to_expr(cfg, *el) {
            Ok(e) => Ok(Some(arg_of(e))),
            Err(u) => Err(u),
        },
        JSXElementChildV::JSXFragment(f) => match spec_frag_to_expr(cfg, f) {
            Ok(e) => Ok(Some(arg_of(e))),
            Err(u) => Err(u),
        },
        JSXElementChildV::JSXSpreadChild(sp, _) => Err(Unsupported { span: sp }),
    }
}

pub open spec fn spec_children_args(cfg: JsxCfgV, s: Seq<JSXElementChildV>, i: int) -> Result<
    Seq<ExprOrSpreadV>,
    Unsupported,
>
    decreases s, s.len() - i,
{
    if 0 <= i < s.len() {
        match spec_child_to_expr(cfg, s[i]) {
            Err(u) => Err(u),
            Ok(opt) => match spec_children_args(cfg, s, i + 1) {
                Err(u) => Err(u),
                Ok(rest) => Ok(
                    match opt {
                        Some(a) => seq![a] + rest,
                        None => rest,
                    },
                ),
            },
        }
    } else {
        Ok(Seq::empty())
    }
}

/// A JSX element becomes `pragma(name, attrs, ...children)`.
pub open spec fn spec_elem_to_expr(cfg: JsxCfgV, el: JSXElementV) -> Result<ExprV, Unsupported>
    decreases el, 1int,
{
    match spec_children_args(cfg, el.children, 0) {
        Err(u) => Err(u),
        Ok(cargs) => Ok(
            ExprV::Call(
                CallExprV {
                    span: el.span,
                    callee: Box::new(cfg.pragma),
                    args: seq![
                        arg_of(spec_jsx_name(el.name)),
                        arg_of(spec_fold_attrs(cfg, el.attrs)),
                    ] + cargs,
                },
            ),
        ),
    }
}

/// A JSX fragment becomes `pragma(fragment_pragma, null, ...children)`.
pub open spec fn spec_frag_to_expr(cfg: JsxCfgV, f: JSXFragmentV) -> Result<ExprV, Unsupported>
    decreases f, 1int,
{
    match spec_children_args(cfg, f.children, 0) {
        Err(u) => Err(u),
        Ok(cargs) => Ok(
            ExprV::Call(
                CallExprV {
                    span: f.span,
                    callee: Box::new(cfg.pragma),
                    args: seq![cfg.pragma_frag, null_arg()] + cargs,
                },
            ),
        ),
    }
}

// ----------------------------------------------------------------------
// The default (bottom-up) traversal, and the whole pass
// ----------------------------------------------------------------------
pub open spec fn spec_fold_children(cfg: JsxCfgV, e: ExprV) -> Result<ExprV, Unsupported>
    decreases e, 0int,
{
    match e {
        ExprV::This(_) => Ok(e),
        ExprV::Ident(_) => Ok(e),
        ExprV::Lit(_) => Ok(e),
        ExprV::Call(c) => match spec_fold_expr(cfg, *c.callee) {
            Err(u) => Err(u),
            Ok(callee) => match spec_fold_args(cfg, c.args, 0) {
                Err(u) => Err(u),
                Ok(args) => Ok(
                    ExprV::Call(CallExprV { span: c.span, callee: Box::new(callee), args }),
                ),
            },
        },
        ExprV::Member(m) => match spec_fold_expr(cfg, *m.obj) {
            Err(u) => Err(u),
            Ok(obj) => match spec_fold_expr(cfg, *m.prop) {
                Err(u) => Err(u),
                Ok(prop) => Ok(
                    ExprV::Member(
                        MemberExprV {
                            span: m.span,
                            obj: Box::new(obj),
                            prop: Box::new(prop),
                            computed: m.computed,
                        },
                    ),
                ),
            },
        },
        ExprV::Object(o) => match spec_fold_props(cfg, o.props, 0) {
            Err(u) => Err(u),
            Ok(props) => Ok(ExprV::Object(ObjectLitV { span: o.span, props })),
        },
        ExprV::Paren(sp, inner) => match spec_fold_expr(cfg, *inner) {
            Err(u) => Err(u),
            Ok(x) => Ok(ExprV::Paren(sp, Box::new(x))),
        },
        ExprV::JSXElement(el) => match spec_fold_interior(cfg, *el) {
            Err(u) => Err(u),
            Ok(el2) => Ok(ExprV::JSXElement(Box::new(el2))),
        },
        ExprV::JSXFragment(f) => match spec_fold_child_list(cfg, f.children, 0) {
            Err(u) => Err(u),
            Ok(cs) => Ok(ExprV::JSXFragment(JSXFragmentV { span: f.span, children: cs })),
        },
    }
}

pub open spec fn spec_fold_args(cfg: JsxCfgV, s: Seq<ExprOrSpreadV>, i: int) -> Result<
    Seq<ExprOrSpreadV>,
    Unsupported,
>
    decreases s, s.len() - i,
{
    if 0 <= i < s.len() {
        match spec_fold_expr(cfg, *s[i].expr) {
            Err(u) => Err(u),
            Ok(x) => match spec_fold_args(cfg, s, i + 1) {
                Err(u) => Err(u),
                Ok(rest) => Ok(
                    seq![ExprOrSpreadV { spread: s[i].spread, expr: Box::new(x) }] + rest,
                ),
            },
        }
    } else {
        Ok(Seq::empty())
    }
}

pub open spec fn spec_fold_props(cfg: JsxCfgV, s: Seq<PropV>, i: int) -> Result<
    Seq<PropV>,
    Unsupported,
>
    decreases s, s.len() - i,
{
    if 0 <= i < s.len() {
        match spec_fold_expr(cfg, *s[i].value) {
            Err(u) => Err(u),
            Ok(x) => match spec_fold_props(cfg, s, i + 1) {
                Err(u) => Err(u),
                Ok(rest) => Ok(seq![PropV { key: s[i].key, value: Box::new(x) }] + rest),
            },
        }
    } else {
        Ok(Seq::empty())
    }
}

/// Rewrites every expression embedded in the element, leaving the JSX
/// skeleton (name, attribute shapes, child kinds) untouched.
pub open spec fn spec_fold_interior(cfg: JsxCfgV, el: JSXElementV) -> Result<
    JSXElementV,
    Unsupported,
>
    decreases el, 0int,
{
    match spec_fold_attr_list(cfg, el.attrs, 0) {
        Err(u) => Err(u),
        Ok(attrs) => match spec_fold_child_list(cfg, el.children, 0) {
            Err(u) => Err(u),
            Ok(children) => Ok(JSXElementV { span: el.span, name: el.name, attrs, children }),
        },
    }
}

pub open spec fn spec_fold_attr_one(cfg: JsxCfgV, a: JSXAttrOrSpreadV) -> Result<
    JSXAttrOrSpreadV,
    Unsupported,
>
    decreases a, 1int,
{
    match a {
        JSXAttrOrSpreadV::JSXAttr(at) => match at.value {
            None => Ok(JSXAttrOrSpreadV::JSXAttr(at)),
            Some(v) => match spec_fold_expr(cfg, *v) {
                Err(u) => Err(u),
                Ok(x) => Ok(
                    JSXAttrOrSpreadV::JSXAttr(
                        JSXAttrV { span: at.span, name: at.name, value: Some(Box::new(x)) },
                    ),
                ),
            },
        },
        JSXAttrOrSpreadV::SpreadElement(sp) => match spec_fold_expr(cfg, *sp.expr) {
            Err(u) => Err(u),
            Ok(x) => Ok(
                JSXAttrOrSpreadV::SpreadElement(SpreadElementV { span: sp.span, expr: Box::new(x) }),
            ),
        },
    }
}

pub open spec fn spec_fold_attr_list(cfg: JsxCfgV, s: Seq<JSXAttrOrSpreadV>, i: int) -> Result<
    Seq<JSXAttrOrSpreadV>,
    Unsupported,
>
    decreases s, s.len() - i,
{
    if 0 <= i < s.len() {
        match spec_fold_attr_one(cfg, s[i]) {
            Err(u) => Err(u),
            Ok(a2) => match spec_fold_attr_list(cfg, s, i + 1) {
                Err(u) => Err(u),
                Ok(rest) => Ok(seq![a2] + rest),
            },
        }
    } else {
        Ok(Seq::empty())
    }
}

pub open spec fn spec_fold_child_one(cfg: JsxCfgV, c: JSXElementChildV) -> Result<
    JSXElementChildV,
    Unsupported,
>
    decreases c, 1int,
{
    match c {
        JSXElementChildV::JSXText(t) => Ok(JSXElementChildV::JSXText(t)),
        JSXElementChildV::JSXExprContainer(x) => match x {
            JSXExprV::JSXEmptyExpr(sp) => Ok(
                JSXElementChildV::JSXExprContainer(JSXExprV::JSXEmptyExpr(sp)),
            ),
            JSXExprV::Expr(e) => match spec_fold_expr(cfg, *e) {
                Err(u) => Err(u),
                Ok(x2) => Ok(JSXElementChildV::JSXExprContainer(JSXExprV::Expr(Box::new(x2)))),
            },
        },
        JSXElementChildV::JSXElement(el) => match spec_fold_interior(cfg, *el) {
            Err(u) => Err(u),
            Ok(el2) => Ok(JSXElementChildV::JSXElement(Box::new(el2))),
        },
        JSXElementChildV::JSXFragment(f) => match spec_fold_child_list(cfg, f.children, 0) {
            Err(u) => Err(u),
            Ok(cs) => Ok(JSXElementChildV::JSXFragment(JSXFragmentV { span: f.span, children: cs })),
        },
        JSXElementChildV::JSXSpreadChild(sp, e) => match spec_fold_expr(cfg, *e) {
            Err(u) => Err(u),
            Ok(x) => Ok(JSXElementChildV::JSXSpreadChild(sp, Box::new(x))),
        },
    }
}

pub open spec fn spec_fold_child_list(cfg: JsxCfgV, s: Seq<JSXElementChildV>, i: int) -> Result<
    Seq<JSXElementChildV>,
    Unsupported,
>
    decreases s, s.len() - i,
{
    if 0 <= i < s.len() {
        match spec_fold_child_one(cfg, s[i]) {
            Err(u) => Err(u),
            Ok(c2) => match spec_fold_child_list(cfg, s, i + 1) {
                Err(u) => Err(u),
                Ok(rest) => Ok(seq![c2] + rest),
            },
        }
    } else {
        Ok(Seq::empty())
    }
}

/// The whole pass on one expression: children first, then the node
/// itself, where a (possibly parenthesized) JSX element and a JSX
/// fragment are replaced by pragma calls.
pub open spec fn spec_fold_expr(cfg: JsxCfgV, e: ExprV) -> Result<ExprV, Unsupported>
    decreases e, 1int,
{
    match spec_fold_children(cfg, e) {
        Err(u) => Err(u),
        Ok(folded) => match folded {
            ExprV::Paren(psp, inner) => match *inner {
                ExprV::JSXElement(el) => spec_convert_elem(cfg, *el),
                _ => Ok(ExprV::Paren(psp, inner)),
            },
            ExprV::JSXElement(el) => spec_convert_elem(cfg, *el),
            ExprV::JSXFragment(f) => spec_convert_frag(cfg, f),
            _ => Ok(folded),
        },
    }
}

/// Conversion of an already-folded element; separate from
/// [`spec_elem_to_expr`] only in name, for the termination measure.
pub open spec fn spec_convert_elem(cfg: JsxCfgV, el: JSXElementV) -> Result<ExprV, Unsupported> {
    spec_elem_to_expr(cfg, el)
}

pub open spec fn spec_convert_frag(cfg: JsxCfgV, f: JSXFragmentV) -> Result<ExprV, Unsupported> {
    spec_frag_to_expr(cfg, f)
}

// ----------------------------------------------------------------------
// Where conversion requires the merge helper
// ----------------------------------------------------------------------
/// Converting this (already folded) element records the `_extends`
/// helper exactly when this holds.
pub open spec fn elem_needs_helper(cfg: JsxCfgV, el: JSXElementV) -> bool
    decreases el, 1int,
{
    attrs_use_helper(cfg, el.attrs) || children_need_helper(cfg, el.children, 0)
}

pub open spec fn frag_needs_helper(cfg: JsxCfgV, f: JSXFragmentV) -> bool
    decreases f, 1int,
{
    children_need_helper(cfg, f.children, 0)
}

pub open spec fn children_need_helper(cfg: JsxCfgV, s: Seq<JSXElementChildV>, i: int) -> bool
    decreases s, s.len() - i,
{
    if 0 <= i < s.len() {
        child_needs_helper(cfg, s[i]) || children_need_helper(cfg, s, i + 1)
    } else {
        false
    }
}

pub open spec fn child_needs_helper(cfg: JsxCfgV, c: JSXElementChildV) -> bool
    decreases c, 0int,
{
    match c {
        JSXElementChildV::JSXElement(el) => elem_needs_helper(cfg, *el),
        JSXElementChildV::JSXFragment(f) => frag_needs_helper(cfg, f),
        _ => false,
    }
}

/// An expression-container child contributes exactly its expression as
/// one plain argument, and an explicitly-empty container contributes no
/// argument at all.
pub proof fn lemma_container_child_contribution(cfg: JsxCfgV, x: JSXExprV)
    ensures
        spec_child_to_expr(cfg, JSXElementChildV::JSXExprContainer(x)) == (match x {
            JSXExprV::Expr(e) => Ok::<Option<ExprOrSpreadV>, Unsupported>(
                Some(ExprOrSpreadV { spread: None, expr: e }),
            ),
            JSXExprV::JSXEmptyExpr(_) => Ok::<Option<ExprOrSpreadV>, Unsupported>(None),
        }),
{
}

/// Pointwise description of [`spec_plain_props`] on a spread-free list.
pub proof fn lemma_plain_props_no_spread(s: Seq<JSXAttrOrSpreadV>, i: int)
    requires
        0 <= i <= s.len(),
        forall|j: int| 0 <= j < s.len() ==> !(#[trigger] s[j] is SpreadElement),
    ensures
        spec_plain_props(s, i).len() == s.len() - i,
        forall|j: int|
            0 <= j < s.len() - i ==> #[trigger] spec_plain_props(s, i)[j] == spec_attr_to_prop(
                s[i + j]->JSXAttr_0,
            ),
    decreases s.len() - i,
{
    if i < s.len() {
        lemma_plain_props_no_spread(s, i + 1);
    }
}

} // verus!
