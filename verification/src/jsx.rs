//! The JSX-to-call lowering pass: a configured, stateful visitor that
//! rewrites JSX elements and fragments into calls of the configured
//! pragma, recording required runtime helpers in a shared registry.

use crate::ast::{
    Bool, CallExpr, Expr, ExprOrSpread, Ident, JSXAttr, JSXAttrName, JSXAttrOrSpread, JSXElement,
    JSXElementChild, JSXElementName, JSXExpr, JSXFragment, JSXObject, Lit, MemberExpr, ObjectLit,
    Prop, PropName, SpreadElement, Str, lemma_view_args, lemma_view_attrs, lemma_view_children,
    lemma_view_props, view_arg, view_args, view_attr, view_attr_name, view_attr_or_spread,
    view_attrs, view_child, view_children, view_element, view_element_name, view_expr,
    view_fragment, view_ident, view_jsx_object, view_lit, view_namespaced_name, view_prop,
    view_prop_name, view_props, view_str,
};
use crate::pos::{dummy_span, spec_dummy_span, Span};
use crate::pragma::{
    is_path_expr, lemma_build_cont_path, parse_pragma, spec_pragma_expr, valid_dotted,
};
use crate::rewrite::{
    arg_of, attrs_use_helper, extends_callee, has_spread, is_ascii_lowercase, is_jsx_ws, null_arg,
    object_assign_callee, spec_attr_to_prop, spec_child_to_expr, spec_children_args,
    spec_close_run, spec_convert_elem, spec_convert_frag, spec_elem_to_expr, spec_fold_attr_list,
    spec_fold_attrs, spec_fold_child_list, spec_fold_children, spec_fold_expr, spec_fold_interior,
    spec_fold_args, spec_fold_props, spec_frag_to_expr, spec_jsx_name, spec_jsx_object,
    spec_jsx_text_str, spec_norm_text, spec_plain_props, spec_prop_name_span, spec_spread_args,
    spec_to_prop_name, JsxCfgV, Unsupported,
};
use crate::strutil::{join_ns, str_contains_char, str_eq};
use crate::clone_ast::{clone_attr_name, clone_element_name, clone_expr, clone_ident, clone_jsx_text, clone_lit, clone_prop_name};
use crate::ast::{ExprV, JSXObjectV};
use vstd::prelude::*;
use vstd::string::StrSliceExecFns;
use vstd::string::StringExecFns;

verus! {

broadcast use vstd::seq::group_seq_axioms, vstd::std_specs::vec::group_vec_axioms;

// ----------------------------------------------------------------------
// Helper registry
// ----------------------------------------------------------------------
/// Pipeline-scoped registry of runtime helpers a later codegen stage
/// must inject: boolean flags, written true once, never reset, read once
/// at pipeline end.
pub struct Helpers {
    extends: bool,
}

impl Helpers {
    /// Whether the `_extends` merge helper has been required.
    pub closed spec fn spec_extends(self) -> bool {
        self.extends
    }

    pub fn new() -> (h: Helpers)
        ensures
            !h.spec_extends(),
    {
        Helpers { extends: false }
    }

    /// Records that generated code calls the `_extends` helper.
    pub fn require_extends(&mut self)
        ensures
            final(self).spec_extends(),
    {
        self.extends = true;
    }

    pub fn extends_required(&self) -> (r: bool)
        ensures
            r == self.spec_extends(),
    {
        self.extends
    }
}

// ----------------------------------------------------------------------
// Configuration
// ----------------------------------------------------------------------
/// The pass configuration: pragma texts (parsed once, at construction),
/// the namespace-rejection and dev-mode policies (reserved), and the
/// merge policy for spread attributes.
pub struct Options {
    pub pragma: String,
    pub pragma_frag: String,
    pub throw_if_namespace: bool,
    pub development: bool,
    pub use_builtins: bool,
}

fn default_pragma() -> (r: String)
    ensures
        r@ == "React.createElement"@,
{
    "React.createElement".to_owned()
}

fn default_pragma_frag() -> (r: String)
    ensures
        r@ == "React.Fragment"@,
{
    "React.Fragment".to_owned()
}

fn default_throw_if_namespace() -> (r: bool)
    ensures
        r,
{
    true
}

impl Default for Options {
    fn default() -> (d: Options)
        ensures
            d.pragma@ == "React.createElement"@,
            d.pragma_frag@ == "React.Fragment"@,
            d.throw_if_namespace,
            !d.development,
            !d.use_builtins,
    {
        Options {
            pragma: default_pragma(),
            pragma_frag: default_pragma_frag(),
            throw_if_namespace: default_throw_if_namespace(),
            development: false,
            use_builtins: false,
        }
    }
}

/// A pragma string failed to parse as a dotted path: a configuration
/// bug, fatal at pass construction.
#[derive(Clone, Copy, PartialEq, Eq, Structural, Debug)]
pub enum ConfigError {
    InvalidPragma,
    InvalidPragmaFrag,
}

// ----------------------------------------------------------------------
// The pass
// ----------------------------------------------------------------------
pub struct Jsx {
    pragma: Box<Expr>,
    pragma_frag: ExprOrSpread,
    use_builtins: bool,
    helpers: Helpers,
}

impl Jsx {
    /// The ghost configuration the contracts speak of.
    pub closed spec fn cfg(self) -> JsxCfgV {
        JsxCfgV {
            pragma: view_expr(*self.pragma),
            pragma_frag: view_arg(self.pragma_frag),
            use_builtins: self.use_builtins,
        }
    }

    /// The current state of the helper-registry flag.
    pub closed spec fn extends_flag(self) -> bool {
        self.helpers.spec_extends()
    }

    /// Both pragma expressions are dotted paths, as construction
    /// guarantees.
    pub closed spec fn wf(self) -> bool {
        &&& is_path_expr(view_expr(*self.pragma))
        &&& self.pragma_frag.spread is None
        &&& is_path_expr(view_expr(*self.pragma_frag.expr))
    }

    pub proof fn lemma_wf_cfg(self)
        requires
            self.wf(),
        ensures
            is_path_expr(self.cfg().pragma),
            self.cfg().pragma_frag.spread is None,
            is_path_expr(*self.cfg().pragma_frag.expr),
    {
    }

    pub fn extends_required(&self) -> (r: bool)
        ensures
            r == self.extends_flag(),
    {
        self.helpers.extends_required()
    }
}

/// Builds the lowering pass: parses both pragma strings into expression
/// trees, reused by value at every rewrite site (never re-parsed), and
/// takes the shared helper registry.
///
/// The pragma grammar is deliberately the dotted-identifier-path subset
/// (`React.createElement`, `h`, `this.h`): a full expression parser is
/// an external collaborator outside this library, and every practical
/// pragma is such a path. A string outside the subset signals a
/// configuration bug and is rejected here, at construction.
pub fn jsx(options: &Options, helpers: Helpers) -> (r: Result<Jsx, ConfigError>)
    ensures
        r is Ok <==> valid_dotted(options.pragma@) && valid_dotted(options.pragma_frag@),
        r == Err::<Jsx, ConfigError>(ConfigError::InvalidPragma) <==> !valid_dotted(
            options.pragma@,
        ),
        r == Err::<Jsx, ConfigError>(ConfigError::InvalidPragmaFrag) <==> (valid_dotted(
            options.pragma@,
        ) && !valid_dotted(options.pragma_frag@)),
        r matches Ok(j) ==> j.cfg() == (JsxCfgV {
            pragma: spec_pragma_expr(options.pragma@),
            pragma_frag: arg_of(spec_pragma_expr(options.pragma_frag@)),
            use_builtins: options.use_builtins,
        }),
        r matches Ok(j) ==> j.wf() && j.extends_flag() == helpers.spec_extends(),
{
    let pragma = match parse_pragma(options.pragma.as_str()) {
        Some(e) => e,
        None => {
            return Err(ConfigError::InvalidPragma);
        },
    };
    let frag = match parse_pragma(options.pragma_frag.as_str()) {
        Some(e) => e,
        None => {
            return Err(ConfigError::InvalidPragmaFrag);
        },
    };
    proof {
        lemma_build_cont_path(options.pragma@, 0, None);
        lemma_build_cont_path(options.pragma_frag@, 0, None);
    }
    Ok(
        Jsx {
            pragma,
            pragma_frag: ExprOrSpread { spread: None, expr: frag },
            use_builtins: options.use_builtins,
            helpers,
        },
    )
}

// ----------------------------------------------------------------------
// Pure lowering helpers
// ----------------------------------------------------------------------
fn is_jsx_ws_exec(c: char) -> (r: bool)
    ensures
        r == is_jsx_ws(c),
{
    c == ' ' || c == '\t' || c == '\n' || c == '\r' || c == '\u{c}'
}

/// Whitespace normalization of JSX text: runs of spaces and newlines
/// collapse to single spaces (with one trailing space after the last
/// word); text without a space or newline is returned unchanged.
pub fn jsx_text_to_str(t: &str) -> (r: String)
    ensures
        r@ == spec_jsx_text_str(t@),
{
    let has_space = str_contains_char(t, ' ');
    let has_nl = str_contains_char(t, '\n');
    if !has_space && !has_nl {
        return t.to_owned();
    }
    let n = t.unicode_len();
    let mut buf = String::new();
    let mut in_word = false;
    let mut i: usize = 0;
    proof {
        assert(t@.skip(0) =~= t@);
    }
    while i < n
        invariant
            n == t@.len(),
            i <= n,
            buf@ + spec_norm_text(t@.skip(i as int), in_word) == spec_norm_text(t@, false),
        decreases n - i,
    {
        let c = t.get_char(i);
        proof {
            reveal_strlit(" ");
            assert(" "@ =~= seq![' ']);
            assert(t@.skip(i as int).drop_first() =~= t@.skip(i as int + 1));
            assert(t@.skip(i as int)[0] == t@[i as int]);
        }
        if is_jsx_ws_exec(c) {
            if in_word {
                let ghost pre = buf@;
                buf.append(" ");
                proof {
                    assert(buf@ + spec_norm_text(t@.skip(i as int + 1), false) =~= pre
                        + spec_norm_text(t@.skip(i as int), true));
                }
            }
            in_word = false;
        } else {
            let piece = t.substring_char(i, i + 1);
            proof {
                assert(piece@ =~= seq![t@[i as int]]);
            }
            let ghost pre = buf@;
            buf.append(piece);
            proof {
                assert(buf@ + spec_norm_text(t@.skip(i as int + 1), true) =~= pre + spec_norm_text(
                    t@.skip(i as int),
                    in_word,
                ));
            }
            in_word = true;
        }
        i = i + 1;
    }
    proof {
        reveal_strlit(" ");
        assert(" "@ =~= seq![' ']);
        assert(t@.skip(n as int) =~= Seq::<char>::empty());
    }
    if in_word {
        let ghost pre = buf@;
        buf.append(" ");
        proof {
            assert(buf@ =~= pre + seq![' ']);
        }
    }
    proof {
        assert(buf@ =~= spec_norm_text(t@, false));
    }
    buf
}

fn prop_name_span(n: &PropName) -> (r: Span)
    ensures
        r == spec_prop_name_span(view_prop_name(*n)),
{
    match n {
        PropName::Ident(i) => i.span,
        PropName::Str(s) => s.span,
    }
}

/// An attribute name becomes an object key: hyphenated and namespaced
/// names become string keys, plain names identifier keys.
pub fn to_prop_name(n: &JSXAttrName) -> (r: PropName)
    ensures
        view_prop_name(r) == spec_to_prop_name(view_attr_name(*n)),
{
    match n {
        JSXAttrName::Ident(i) => {
            if str_contains_char(i.sym.as_str(), '-') {
                PropName::Str(Str { span: i.span, value: i.sym.clone(), has_escape: false })
            } else {
                PropName::Ident(clone_ident(i))
            }
        },
        JSXAttrName::JSXNamespacedName(nn) => PropName::Str(
            Str { span: nn.span, value: join_ns(&nn.ns.sym, &nn.name.sym), has_escape: false },
        ),
    }
}

/// One plain attribute becomes one object property; a valueless
/// attribute means boolean `true`.
pub fn attr_to_prop(a: &JSXAttr) -> (r: Prop)
    ensures
        view_prop(r) == spec_attr_to_prop(view_attr(*a)),
{
    let key = to_prop_name(&a.name);
    let value: Box<Expr> = match &a.value {
        Some(e) => Box::new(clone_expr(e)),
        None => {
            let sp = prop_name_span(&key);
            Box::new(Expr::Lit(Lit::Bool(Bool { span: sp, value: true })))
        },
    };
    Prop { key, value }
}

/// Total form of [`jsx_name`] for the traversal itself: a degenerate
/// (empty-identifier) name resolves to a component reference, exactly as
/// [`spec_jsx_name`] reads, rather than becoming an obligation on every
/// caller of the pass.
fn jsx_name_total(n: &JSXElementName) -> (r: Box<Expr>)
    ensures
        view_expr(*r) == spec_jsx_name(view_element_name(*n)),
{
    let ok = match n {
        JSXElementName::Ident(i) => i.sym.as_str().unicode_len() > 0,
        JSXElementName::JSXMemberExpr(_) => true,
        JSXElementName::JSXNamespacedName(_) => true,
    };
    if ok {
        jsx_name(n)
    } else {
        match n {
            JSXElementName::Ident(i) => {
                proof {
                    reveal_strlit("this");
                    assert(view_ident(*i).sym.len() == 0);
                    assert(view_ident(*i).sym != "this"@);
                }
                Box::new(Expr::Ident(clone_ident(i)))
            },
            JSXElementName::JSXMemberExpr(_) => {
                proof {
                    assert(false);
                }
                Box::new(Expr::This(dummy_span()))
            },
            JSXElementName::JSXNamespacedName(_) => {
                proof {
                    assert(false);
                }
                Box::new(Expr::This(dummy_span()))
            },
        }
    }
}

fn jsx_object(o: &JSXObject) -> (r: Expr)
    ensures
        view_expr(r) == spec_jsx_object(view_jsx_object(*o)),
    decreases *o,
{
    match o {
        JSXObject::Ident(i) => {
            if str_eq(i.sym.as_str(), "this") {
                Expr::This(i.span)
            } else {
                Expr::Ident(clone_ident(i))
            }
        },
        JSXObject::JSXMemberExpr(m) => {
            let obj_e = jsx_object(&m.obj);
            let prop_i = clone_ident(&m.prop);
            let e = Expr::Member(
                MemberExpr {
                    span: m.span,
                    obj: Box::new(obj_e),
                    prop: Box::new(Expr::Ident(prop_i)),
                    computed: false,
                },
            );
            proof {
                assert(view_expr(Expr::Ident(prop_i)) == ExprV::Ident(view_ident(prop_i)));
                assert(view_jsx_object(*o) == JSXObjectV::JSXMemberExpr(
                    Box::new(crate::ast::view_jsx_member(**m)),
                ));
                assert(view_expr(e) == spec_jsx_object(view_jsx_object(*o)));
            }
            e
        },
    }
}

/// Element-name resolution (see [`spec_jsx_name`]). An identifier
/// element name must be non-empty: the parser never produces an empty
/// one, so an empty symbol is a caller bug, left out by the requires.
pub fn jsx_name(n: &JSXElementName) -> (r: Box<Expr>)
    requires
        crate::ast::element_name_wf(view_element_name(*n)),
    ensures
        view_expr(*r) == spec_jsx_name(view_element_name(*n)),
{
    match n {
        JSXElementName::Ident(i) => {
            if str_eq(i.sym.as_str(), "this") {
                return Box::new(Expr::This(i.span));
            }
            let s = i.sym.as_str();
            let lowercase_start = if s.unicode_len() > 0 {
                let u = s.get_char(0) as u32;
                97 <= u && u <= 122
            } else {
                false
            };
            if lowercase_start {
                Box::new(
                    Expr::Lit(
                        Lit::Str(Str { span: i.span, value: i.sym.clone(), has_escape: false }),
                    ),
                )
            } else {
                Box::new(Expr::Ident(clone_ident(i)))
            }
        },
        JSXElementName::JSXNamespacedName(nn) => Box::new(
            Expr::Lit(
                Lit::Str(
                    Str {
                        span: nn.span,
                        value: join_ns(&nn.ns.sym, &nn.name.sym),
                        has_escape: false,
                    },
                ),
            ),
        ),
        JSXElementName::JSXMemberExpr(m) => {
            let obj_e = jsx_object(&m.obj);
            let prop_i = clone_ident(&m.prop);
            let e = Expr::Member(
                MemberExpr {
                    span: m.span,
                    obj: Box::new(obj_e),
                    prop: Box::new(Expr::Ident(prop_i)),
                    computed: false,
                },
            );
            proof {
                assert(view_expr(Expr::Ident(prop_i)) == ExprV::Ident(view_ident(prop_i)));
                assert(view_element_name(*n) == crate::ast::JSXElementNameV::JSXMemberExpr(
                    crate::ast::view_jsx_member(*m),
                ));
                assert(view_expr(e) == spec_jsx_name(view_element_name(*n)));
            }
            Box::new(e)
        },
    }
}

// ----------------------------------------------------------------------
// Ghost views of results
// ----------------------------------------------------------------------
pub open spec fn res_expr_view(r: Result<Expr, Unsupported>) -> Result<ExprV, Unsupported> {
    match r {
        Ok(e) => Ok(view_expr(e)),
        Err(u) => Err(u),
    }
}

pub open spec fn res_opt_arg_view(r: Result<Option<ExprOrSpread>, Unsupported>) -> Result<
    Option<crate::ast::ExprOrSpreadV>,
    Unsupported,
> {
    match r {
        Ok(Some(a)) => Ok(Some(view_arg(a))),
        Ok(None) => Ok(None),
        Err(u) => Err(u),
    }
}

// ----------------------------------------------------------------------
// Attribute lowering
// ----------------------------------------------------------------------
/// Closes the pending run of plain attributes (see [`spec_close_run`]).
fn close_run_exec(args: &mut Vec<ExprOrSpread>, cur: Vec<Prop>)
    ensures
        view_args(final(args)@, 0) == spec_close_run(
            view_args(old(args)@, 0),
            view_props(cur@, 0),
        ),
{
    proof {
        lemma_view_args(args@, 0);
        lemma_view_props(cur@, 0);
    }
    let ghost pre = view_args(args@, 0);
    let ghost curv = view_props(cur@, 0);
    if args.len() == 0 || cur.len() > 0 {
        let e = Expr::Object(ObjectLit { span: dummy_span(), props: cur });
        proof {
            assert(view_expr(e) == ExprV::Object(
                crate::ast::ObjectLitV { span: spec_dummy_span(), props: curv },
            ));
        }
        args.push(ExprOrSpread { spread: None, expr: Box::new(e) });
        proof {
            lemma_view_args(args@, 0);
            assert(view_args(args@, 0) =~= pre.push(
                arg_of(ExprV::Object(crate::ast::ObjectLitV { span: spec_dummy_span(), props: curv })),
            ));
        }
    }
}

/// Builds the merge arguments for an attribute list containing spreads
/// (see [`spec_spread_args`]): plain attributes accumulate into object
/// runs, each spread becomes its own positional argument.
fn spread_args_exec(attrs: &Vec<JSXAttrOrSpread>) -> (out: Vec<ExprOrSpread>)
    ensures
        view_args(out@, 0) == spec_spread_args(
            view_attrs(attrs@, 0),
            0,
            Seq::empty(),
            Seq::empty(),
        ),
{
    let ghost av = view_attrs(attrs@, 0);
    let mut args: Vec<ExprOrSpread> = Vec::new();
    let mut cur: Vec<Prop> = Vec::new();
    let mut k: usize = 0;
    proof {
        lemma_view_attrs(attrs@, 0);
        assert(view_args(args@, 0) =~= Seq::<crate::ast::ExprOrSpreadV>::empty());
        assert(view_props(cur@, 0) =~= Seq::<crate::ast::PropV>::empty());
    }
    while k < attrs.len()
        invariant
            k <= attrs.len(),
            av == view_attrs(attrs@, 0),
            av.len() == attrs@.len(),
            spec_spread_args(av, k as int, view_args(args@, 0), view_props(cur@, 0))
                == spec_spread_args(av, 0, Seq::empty(), Seq::empty()),
        decreases attrs.len() - k,
    {
        proof {
            lemma_view_attrs(attrs@, 0);
            assert(av[k as int] == view_attr_or_spread(attrs@[k as int]));
        }
        let ghost pre_args = view_args(args@, 0);
        let ghost pre_cur = view_props(cur@, 0);
        match &attrs[k] {
            JSXAttrOrSpread::JSXAttr(at) => {
                let ghost pre_vec = cur@;
                let p = attr_to_prop(at);
                cur.push(p);
                proof {
                    lemma_view_props(pre_vec, 0);
                    lemma_view_props(cur@, 0);
                    assert(view_props(cur@, 0) =~= pre_cur.push(
                        spec_attr_to_prop(view_attr(*at)),
                    ));
                    assert(view_args(args@, 0) == pre_args);
                }
            },
            JSXAttrOrSpread::SpreadElement(sp) => {
                let mut tmp: Vec<Prop> = Vec::new();
                core::mem::swap(&mut cur, &mut tmp);
                close_run_exec(&mut args, tmp);
                let ghost mid_vec = args@;
                let folded_sp = clone_expr(&sp.expr);
                args.push(ExprOrSpread { spread: None, expr: Box::new(folded_sp) });
                proof {
                    lemma_view_args(mid_vec, 0);
                    lemma_view_args(args@, 0);
                    assert(view_props(cur@, 0) =~= Seq::<crate::ast::PropV>::empty());
                    assert(view_args(args@, 0) =~= spec_close_run(pre_args, pre_cur).push(
                        crate::ast::ExprOrSpreadV {
                            spread: None,
                            expr: Box::new(view_expr(*sp.expr)),
                        },
                    ));
                }
            },
        }
        k = k + 1;
    }
    let mut tmp: Vec<Prop> = Vec::new();
    core::mem::swap(&mut cur, &mut tmp);
    close_run_exec(&mut args, tmp);
    args
}

impl Jsx {
    /// Lowers an attribute list into the single attributes argument:
    /// `null` when empty, one object literal when no spread is present,
    /// otherwise a call of the merge primitive (`Object.assign`) or the
    /// `_extends` helper, recording the helper in the registry.
    pub fn fold_attrs(&mut self, attrs: &Vec<JSXAttrOrSpread>) -> (r: Box<Expr>)
        ensures
            final(self).cfg() == old(self).cfg(),
            final(self).wf() == old(self).wf(),
            view_expr(*r) == spec_fold_attrs(old(self).cfg(), view_attrs(attrs@, 0)),
            final(self).extends_flag() == (old(self).extends_flag() || attrs_use_helper(
                old(self).cfg(),
                view_attrs(attrs@, 0),
            )),
    {
        let ghost cfg = self.cfg();
        let ghost av = view_attrs(attrs@, 0);
        proof {
            lemma_view_attrs(attrs@, 0);
        }
        if attrs.len() == 0 {
            proof {
                assert(!has_spread(av));
            }
            return Box::new(Expr::Lit(Lit::Null(dummy_span())));
        }
        let mut is_complex = false;
        let mut k: usize = 0;
        while k < attrs.len()
            invariant
                k <= attrs.len(),
                av == view_attrs(attrs@, 0),
                av.len() == attrs@.len(),
                !is_complex ==> forall|j: int|
                    0 <= j < k ==> !(#[trigger] attrs@[j] is SpreadElement),
                is_complex ==> has_spread(av),
            decreases attrs.len() - k,
        {
            proof {
                lemma_view_attrs(attrs@, 0);
            }
            match &attrs[k] {
                JSXAttrOrSpread::SpreadElement(_) => {
                    proof {
                        assert(av[k as int] == view_attr_or_spread(attrs@[k as int]));
                        assert(av[k as int] is SpreadElement);
                    }
                    is_complex = true;
                },
                JSXAttrOrSpread::JSXAttr(_) => {},
            }
            k = k + 1;
        }
        proof {
            lemma_view_attrs(attrs@, 0);
            if !is_complex {
                assert forall|j: int| 0 <= j < av.len() implies !(#[trigger] av[j]
                    is SpreadElement) by {
                    assert(av[j] == view_attr_or_spread(attrs@[j]));
                    assert(!(attrs@[j] is SpreadElement));
                }
                assert(!has_spread(av));
            }
            assert(is_complex == has_spread(av));
        }
        if is_complex {
            let callee: Box<Expr> = if self.use_builtins {
                let obj_id = Expr::Ident(Ident { span: dummy_span(), sym: "Object".to_owned() });
                let prop_id = Expr::Ident(Ident { span: dummy_span(), sym: "assign".to_owned() });
                proof {
                    assert(view_expr(obj_id) == ExprV::Ident(
                        crate::ast::IdentV { span: spec_dummy_span(), sym: "Object"@ },
                    ));
                    assert(view_expr(prop_id) == ExprV::Ident(
                        crate::ast::IdentV { span: spec_dummy_span(), sym: "assign"@ },
                    ));
                }
                let e = Expr::Member(
                    MemberExpr {
                        span: dummy_span(),
                        obj: Box::new(obj_id),
                        prop: Box::new(prop_id),
                        computed: false,
                    },
                );
                proof {
                    assert(view_expr(e) == object_assign_callee());
                }
                Box::new(e)
            } else {
                self.helpers.require_extends();
                let e = Expr::Ident(Ident { span: dummy_span(), sym: "_extends".to_owned() });
                proof {
                    assert(view_expr(e) == extends_callee());
                }
                Box::new(e)
            };
            let args = spread_args_exec(attrs);
            let e = Expr::Call(CallExpr { span: dummy_span(), callee, args });
            proof {
                assert(view_expr(e) == spec_fold_attrs(cfg, av));
            }
            Box::new(e)
        } else {
            let mut props: Vec<Prop> = Vec::new();
            let mut k3: usize = 0;
            while k3 < attrs.len()
                invariant
                    k3 <= attrs.len(),
                    av == view_attrs(attrs@, 0),
                    av.len() == attrs@.len(),
                    forall|j: int|
                        0 <= j < attrs@.len() ==> !(#[trigger] attrs@[j] is SpreadElement),
                    props@.len() == k3,
                    forall|j: int|
                        0 <= j < k3 ==> view_prop(#[trigger] props@[j]) == spec_attr_to_prop(
                            view_attr_or_spread(attrs@[j])->JSXAttr_0,
                        ),
                decreases attrs.len() - k3,
            {
                match &attrs[k3] {
                    JSXAttrOrSpread::JSXAttr(at) => {
                        props.push(attr_to_prop(at));
                    },
                    JSXAttrOrSpread::SpreadElement(_) => {
                        proof {
                            assert(false);
                        }
                        props.push(
                            Prop {
                                key: PropName::Ident(
                                    Ident { span: dummy_span(), sym: String::new() },
                                ),
                                value: Box::new(Expr::Lit(Lit::Null(dummy_span()))),
                            },
                        );
                    },
                }
                k3 = k3 + 1;
            }
            let e = Expr::Object(ObjectLit { span: dummy_span(), props });
            proof {
                lemma_view_attrs(attrs@, 0);
                lemma_view_props(props@, 0);
                assert forall|j: int| 0 <= j < av.len() implies !(#[trigger] av[j]
                    is SpreadElement) by {
                    assert(av[j] == view_attr_or_spread(attrs@[j]));
                }
                crate::rewrite::lemma_plain_props_no_spread(av, 0);
                assert(view_props(props@, 0) =~= spec_plain_props(av, 0));
                assert(view_expr(e) == spec_fold_attrs(cfg, av));
            }
            Box::new(e)
        }
    }
}


impl Jsx {
    /// One child's contribution to the argument list: normalized text
    /// (dropped when empty), a container's expression, a lowered nested
    /// element or fragment; a spread child is unsupported and fatal.
    fn jsx_elem_child_to_expr(&mut self, c: &JSXElementChild) -> (r: Result<
        Option<ExprOrSpread>,
        Unsupported,
    >)
        ensures
            final(self).cfg() == old(self).cfg(),
            final(self).wf() == old(self).wf(),
            res_opt_arg_view(r) == spec_child_to_expr(old(self).cfg(), view_child(*c)),
            old(self).extends_flag() ==> final(self).extends_flag(),
            final(self).extends_flag() ==> old(self).extends_flag()
                || crate::rewrite::child_needs_helper(old(self).cfg(), view_child(*c)),
            r is Ok ==> (final(self).extends_flag() <==> (old(self).extends_flag()
                || crate::rewrite::child_needs_helper(old(self).cfg(), view_child(*c)))),
        decreases *c, 0int,
    {
        match c {
            JSXElementChild::JSXText(t) => {
                let s = jsx_text_to_str(t.value.as_str());
                if s.as_str().is_empty() {
                    Ok(None)
                } else {
                    let esc = !(t.raw == t.value);
                    Ok(
                        Some(
                            ExprOrSpread {
                                spread: None,
                                expr: Box::new(
                                    Expr::Lit(
                                        Lit::Str(
                                            Str { span: t.span, value: s, has_escape: esc },
                                        ),
                                    ),
                                ),
                            },
                        ),
                    )
                }
            },
            JSXElementChild::JSXExprContainer(x) => match x {
                JSXExpr::Expr(e) => Ok(
                    Some(ExprOrSpread { spread: None, expr: Box::new(clone_expr(e)) }),
                ),
                JSXExpr::JSXEmptyExpr(_) => Ok(None),
            },
            JSXElementChild::JSXElement(el) => match self.jsx_elem_to_expr(el) {
                Ok(e) => Ok(Some(ExprOrSpread { spread: None, expr: Box::new(e) })),
                Err(u) => Err(u),
            },
            JSXElementChild::JSXFragment(f) => match self.jsx_frag_to_expr(f) {
                Ok(e) => Ok(Some(ExprOrSpread { spread: None, expr: Box::new(e) })),
                Err(u) => Err(u),
            },
            JSXElementChild::JSXSpreadChild(sp, _) => Err(Unsupported { span: *sp }),
        }
    }

    /// A JSX element becomes `pragma(name, attrs, ...children)`.
    fn jsx_elem_to_expr(&mut self, el: &JSXElement) -> (r: Result<Expr, Unsupported>)
        ensures
            final(self).cfg() == old(self).cfg(),
            final(self).wf() == old(self).wf(),
            res_expr_view(r) == spec_elem_to_expr(old(self).cfg(), view_element(*el)),
            old(self).extends_flag() ==> final(self).extends_flag(),
            final(self).extends_flag() ==> old(self).extends_flag()
                || crate::rewrite::elem_needs_helper(old(self).cfg(), view_element(*el)),
            r is Ok ==> (final(self).extends_flag() <==> (old(self).extends_flag()
                || crate::rewrite::elem_needs_helper(old(self).cfg(), view_element(*el)))),
        decreases *el, 1int,
    {
        let ghost cfg = self.cfg();
        let ghost elv = view_element(*el);
        let name_e = jsx_name_total(&el.name);
        let attrs_e = self.fold_attrs(&el.attrs);
        let ghost f1 = self.extends_flag();
        let mut args: Vec<ExprOrSpread> = Vec::new();
        args.push(ExprOrSpread { spread: None, expr: name_e });
        args.push(ExprOrSpread { spread: None, expr: attrs_e });
        proof {
            lemma_view_args(args@, 0);
            lemma_view_children(el.children@, 0);
        }
        let ghost cs = view_children(el.children@, 0);
        let mut k: usize = 0;
        while k < el.children.len()
            invariant
                self.cfg() == cfg,
                cfg == old(self).cfg(),
                self.wf() == old(self).wf(),
                k <= el.children.len(),
                cs == view_children(el.children@, 0),
                cs.len() == el.children@.len(),
                elv == view_element(*el),
                elv.children == cs,
                elv.attrs == view_attrs(el.attrs@, 0),
                elv.name == view_element_name(el.name),
                elv.span == el.span,
                args@.len() >= 2,
                view_arg(args@[0]) == arg_of(spec_jsx_name(elv.name)),
                view_arg(args@[1]) == arg_of(spec_fold_attrs(cfg, elv.attrs)),
                (match spec_children_args(cfg, cs, k as int) {
                    Ok(rest) => spec_children_args(cfg, cs, 0) == Ok::<
                        Seq<crate::ast::ExprOrSpreadV>,
                        Unsupported,
                    >(view_args(args@, 0).skip(2) + rest),
                    Err(u) => spec_children_args(cfg, cs, 0) == Err::<
                        Seq<crate::ast::ExprOrSpreadV>,
                        Unsupported,
                    >(u),
                }),
                old(self).extends_flag() ==> self.extends_flag(),
                f1 == (old(self).extends_flag() || attrs_use_helper(cfg, elv.attrs)),
                (self.extends_flag() || crate::rewrite::children_need_helper(cfg, cs, k as int))
                    == (f1 || crate::rewrite::children_need_helper(cfg, cs, 0)),
            decreases el.children.len() - k,
        {
            proof {
                lemma_view_children(el.children@, 0);
                assert(cs[k as int] == view_child(el.children@[k as int]));
            }
            let ghost pre = view_args(args@, 0);
            let c = &el.children[k];
            match self.jsx_elem_child_to_expr(c) {
                Err(u) => {
                    proof {
                        assert(spec_children_args(cfg, cs, k as int) == Err::<
                            Seq<crate::ast::ExprOrSpreadV>,
                            Unsupported,
                        >(u));
                        assert(spec_elem_to_expr(cfg, elv) == Err::<ExprV, Unsupported>(u));
                        assert(crate::rewrite::children_need_helper(cfg, cs, k as int)
                            ==> crate::rewrite::children_need_helper(cfg, cs, 0) || true);
                    }
                    return Err(u);
                },
                Ok(opt) => {
                    let ghost optv = res_opt_arg_view(Ok(opt))->Ok_0;
                    match opt {
                        Some(a) => {
                            let ghost pre_vec = args@;
                            args.push(a);
                            proof {
                                lemma_view_args(pre_vec, 0);
                                lemma_view_args(args@, 0);
                                assert(view_args(args@, 0) =~= pre.push(view_arg(a)));
                            }
                        },
                        None => {},
                    }
                    proof {
                        match spec_children_args(cfg, cs, k as int + 1) {
                            Ok(rest) => {
                                assert(spec_children_args(cfg, cs, k as int) == Ok::<
                                    Seq<crate::ast::ExprOrSpreadV>,
                                    Unsupported,
                                >(
                                    match optv {
                                        Some(a) => seq![a] + rest,
                                        None => rest,
                                    },
                                ));
                                assert(view_args(args@, 0).skip(2) + rest =~= pre.skip(2) + (
                                match optv {
                                    Some(a) => seq![a] + rest,
                                    None => rest,
                                }));
                            },
                            Err(u) => {
                                assert(spec_children_args(cfg, cs, k as int) == Err::<
                                    Seq<crate::ast::ExprOrSpreadV>,
                                    Unsupported,
                                >(u));
                            },
                        }
                    }
                },
            }
            k = k + 1;
        }
        proof {
            assert(spec_children_args(cfg, cs, cs.len() as int) == Ok::<
                Seq<crate::ast::ExprOrSpreadV>,
                Unsupported,
            >(Seq::empty()));
            assert(view_args(args@, 0).skip(2) + Seq::<crate::ast::ExprOrSpreadV>::empty()
                =~= view_args(args@, 0).skip(2));
        }
        let callee = Box::new(clone_expr(&self.pragma));
        proof {
            assert(view_expr(*callee) == cfg.pragma);
        }
        let e = Expr::Call(CallExpr { span: el.span, callee, args });
        proof {
            lemma_view_args(args@, 0);
            assert(seq![
                arg_of(spec_jsx_name(elv.name)),
                arg_of(spec_fold_attrs(cfg, elv.attrs)),
            ] + view_args(args@, 0).skip(2) =~= view_args(args@, 0));
            assert(spec_elem_to_expr(cfg, elv) == Ok::<ExprV, Unsupported>(view_expr(e)));
            assert(!crate::rewrite::children_need_helper(cfg, cs, cs.len() as int));
        }
        Ok(e)
    }

    /// A JSX fragment becomes `pragma(fragment_pragma, null, ...children)`.
    fn jsx_frag_to_expr(&mut self, f: &JSXFragment) -> (r: Result<Expr, Unsupported>)
        ensures
            final(self).cfg() == old(self).cfg(),
            final(self).wf() == old(self).wf(),
            res_expr_view(r) == spec_frag_to_expr(old(self).cfg(), view_fragment(*f)),
            old(self).extends_flag() ==> final(self).extends_flag(),
            final(self).extends_flag() ==> old(self).extends_flag()
                || crate::rewrite::frag_needs_helper(old(self).cfg(), view_fragment(*f)),
            r is Ok ==> (final(self).extends_flag() <==> (old(self).extends_flag()
                || crate::rewrite::frag_needs_helper(old(self).cfg(), view_fragment(*f)))),
        decreases *f, 1int,
    {
        let ghost cfg = self.cfg();
        let ghost fv = view_fragment(*f);
        let frag_arg = ExprOrSpread {
            spread: self.pragma_frag.spread,
            expr: Box::new(clone_expr(&self.pragma_frag.expr)),
        };
        let null_a = ExprOrSpread {
            spread: None,
            expr: Box::new(Expr::Lit(Lit::Null(dummy_span()))),
        };
        proof {
            assert(view_arg(frag_arg) == cfg.pragma_frag);
            assert(view_arg(null_a) == null_arg());
        }
        let mut args: Vec<ExprOrSpread> = Vec::new();
        args.push(frag_arg);
        args.push(null_a);
        proof {
            lemma_view_args(args@, 0);
            lemma_view_children(f.children@, 0);
        }
        let ghost cs = view_children(f.children@, 0);
        let mut k: usize = 0;
        while k < f.children.len()
            invariant
                self.cfg() == cfg,
                cfg == old(self).cfg(),
                self.wf() == old(self).wf(),
                k <= f.children.len(),
                cs == view_children(f.children@, 0),
                cs.len() == f.children@.len(),
                fv == view_fragment(*f),
                fv.children == cs,
                fv.span == f.span,
                args@.len() >= 2,
                view_arg(args@[0]) == cfg.pragma_frag,
                view_arg(args@[1]) == null_arg(),
                (match spec_children_args(cfg, cs, k as int) {
                    Ok(rest) => spec_children_args(cfg, cs, 0) == Ok::<
                        Seq<crate::ast::ExprOrSpreadV>,
                        Unsupported,
                    >(view_args(args@, 0).skip(2) + rest),
                    Err(u) => spec_children_args(cfg, cs, 0) == Err::<
                        Seq<crate::ast::ExprOrSpreadV>,
                        Unsupported,
                    >(u),
                }),
                old(self).extends_flag() ==> self.extends_flag(),
                (self.extends_flag() || crate::rewrite::children_need_helper(cfg, cs, k as int))
                    == (old(self).extends_flag() || crate::rewrite::children_need_helper(
                    cfg,
                    cs,
                    0,
                )),
            decreases f.children.len() - k,
        {
            proof {
                lemma_view_children(f.children@, 0);
                assert(cs[k as int] == view_child(f.children@[k as int]));
            }
            let ghost pre = view_args(args@, 0);
            let c = &f.children[k];
            match self.jsx_elem_child_to_expr(c) {
                Err(u) => {
                    proof {
                        assert(spec_children_args(cfg, cs, k as int) == Err::<
                            Seq<crate::ast::ExprOrSpreadV>,
                            Unsupported,
                        >(u));
                        assert(spec_frag_to_expr(cfg, fv) == Err::<ExprV, Unsupported>(u));
                    }
                    return Err(u);
                },
                Ok(opt) => {
                    let ghost optv = res_opt_arg_view(Ok(opt))->Ok_0;
                    match opt {
                        Some(a) => {
                            let ghost pre_vec = args@;
                            args.push(a);
                            proof {
                                lemma_view_args(pre_vec, 0);
                                lemma_view_args(args@, 0);
                                assert(view_args(args@, 0) =~= pre.push(view_arg(a)));
                            }
                        },
                        None => {},
                    }
                    proof {
                        match spec_children_args(cfg, cs, k as int + 1) {
                            Ok(rest) => {
                                assert(spec_children_args(cfg, cs, k as int) == Ok::<
                                    Seq<crate::ast::ExprOrSpreadV>,
                                    Unsupported,
                                >(
                                    match optv {
                                        Some(a) => seq![a] + rest,
                                        None => rest,
                                    },
                                ));
                                assert(view_args(args@, 0).skip(2) + rest =~= pre.skip(2) + (
                                match optv {
                                    Some(a) => seq![a] + rest,
                                    None => rest,
                                }));
                            },
                            Err(u) => {
                                assert(spec_children_args(cfg, cs, k as int) == Err::<
                                    Seq<crate::ast::ExprOrSpreadV>,
                                    Unsupported,
                                >(u));
                            },
                        }
                    }
                },
            }
            k = k + 1;
        }
        proof {
            assert(spec_children_args(cfg, cs, cs.len() as int) == Ok::<
                Seq<crate::ast::ExprOrSpreadV>,
                Unsupported,
            >(Seq::empty()));
            assert(view_args(args@, 0).skip(2) + Seq::<crate::ast::ExprOrSpreadV>::empty()
                =~= view_args(args@, 0).skip(2));
        }
        let callee = Box::new(clone_expr(&self.pragma));
        proof {
            assert(view_expr(*callee) == cfg.pragma);
        }
        let e = Expr::Call(CallExpr { span: f.span, callee, args });
        proof {
            lemma_view_args(args@, 0);
            assert(seq![cfg.pragma_frag, null_arg()] + view_args(args@, 0).skip(2)
                =~= view_args(args@, 0));
            assert(spec_frag_to_expr(cfg, fv) == Ok::<ExprV, Unsupported>(view_expr(e)));
            assert(!crate::rewrite::children_need_helper(cfg, cs, cs.len() as int));
        }
        Ok(e)
    }
}


pub open spec fn res_attr_view(r: Result<JSXAttrOrSpread, Unsupported>) -> Result<
    crate::ast::JSXAttrOrSpreadV,
    Unsupported,
> {
    match r {
        Ok(a) => Ok(view_attr_or_spread(a)),
        Err(u) => Err(u),
    }
}

pub open spec fn res_child_view(r: Result<JSXElementChild, Unsupported>) -> Result<
    crate::ast::JSXElementChildV,
    Unsupported,
> {
    match r {
        Ok(c) => Ok(view_child(c)),
        Err(u) => Err(u),
    }
}

impl Jsx {
    /// Rewrites the expression inside one attribute position.
    fn fold_attr_one(&mut self, a: &JSXAttrOrSpread) -> (r: Result<JSXAttrOrSpread, Unsupported>)
        ensures
            final(self).cfg() == old(self).cfg(),
            final(self).wf() == old(self).wf(),
            old(self).extends_flag() ==> final(self).extends_flag(),
            res_attr_view(r) == crate::rewrite::spec_fold_attr_one(
                old(self).cfg(),
                view_attr_or_spread(*a),
            ),
        decreases *a, 2int,
    {
        match a {
            JSXAttrOrSpread::JSXAttr(at) => match &at.value {
                None => Ok(
                    JSXAttrOrSpread::JSXAttr(
                        JSXAttr { span: at.span, name: clone_attr_name(&at.name), value: None },
                    ),
                ),
                Some(v) => match self.fold(v) {
                    Err(u) => Err(u),
                    Ok(x) => Ok(
                        JSXAttrOrSpread::JSXAttr(
                            JSXAttr {
                                span: at.span,
                                name: clone_attr_name(&at.name),
                                value: Some(Box::new(x)),
                            },
                        ),
                    ),
                },
            },
            JSXAttrOrSpread::SpreadElement(sp) => match self.fold(&sp.expr) {
                Err(u) => Err(u),
                Ok(x) => Ok(
                    JSXAttrOrSpread::SpreadElement(
                        SpreadElement { span: sp.span, expr: Box::new(x) },
                    ),
                ),
            },
        }
    }

    /// Rewrites the expressions inside one child, leaving its kind as it
    /// is; nested elements and fragments keep their JSX skeleton here
    /// (conversion happens when the enclosing expression is folded).
    fn fold_child_one(&mut self, c: &JSXElementChild) -> (r: Result<JSXElementChild, Unsupported>)
        ensures
            final(self).cfg() == old(self).cfg(),
            final(self).wf() == old(self).wf(),
            old(self).extends_flag() ==> final(self).extends_flag(),
            res_child_view(r) == crate::rewrite::spec_fold_child_one(
                old(self).cfg(),
                view_child(*c),
            ),
        decreases *c, 2int,
    {
        match c {
            JSXElementChild::JSXText(t) => Ok(JSXElementChild::JSXText(clone_jsx_text(t))),
            JSXElementChild::JSXExprContainer(x) => match x {
                JSXExpr::JSXEmptyExpr(sp) => Ok(
                    JSXElementChild::JSXExprContainer(JSXExpr::JSXEmptyExpr(*sp)),
                ),
                JSXExpr::Expr(e) => match self.fold(e) {
                    Err(u) => Err(u),
                    Ok(x2) => Ok(
                        JSXElementChild::JSXExprContainer(JSXExpr::Expr(Box::new(x2))),
                    ),
                },
            },
            JSXElementChild::JSXElement(el) => match self.fold_interior(el) {
                Err(u) => Err(u),
                Ok(el2) => Ok(JSXElementChild::JSXElement(Box::new(el2))),
            },
            JSXElementChild::JSXFragment(f) => match self.fold_child_vec(&f.children) {
                Err(u) => Err(u),
                Ok(cs2) => Ok(
                    JSXElementChild::JSXFragment(JSXFragment { span: f.span, children: cs2 }),
                ),
            },
            JSXElementChild::JSXSpreadChild(sp, e) => match self.fold(e) {
                Err(u) => Err(u),
                Ok(x) => Ok(JSXElementChild::JSXSpreadChild(*sp, Box::new(x))),
            },
        }
    }

    fn fold_attr_vec(&mut self, v: &Vec<JSXAttrOrSpread>) -> (r: Result<
        Vec<JSXAttrOrSpread>,
        Unsupported,
    >)
        ensures
            final(self).cfg() == old(self).cfg(),
            final(self).wf() == old(self).wf(),
            old(self).extends_flag() ==> final(self).extends_flag(),
            (match r {
                Ok(out) => spec_fold_attr_list(old(self).cfg(), view_attrs(v@, 0), 0) == Ok::<
                    Seq<crate::ast::JSXAttrOrSpreadV>,
                    Unsupported,
                >(view_attrs(out@, 0)),
                Err(u) => spec_fold_attr_list(old(self).cfg(), view_attrs(v@, 0), 0) == Err::<
                    Seq<crate::ast::JSXAttrOrSpreadV>,
                    Unsupported,
                >(u),
            }),
        decreases v@, 1int,
    {
        let ghost cfg = self.cfg();
        let ghost av = view_attrs(v@, 0);
        let mut out: Vec<JSXAttrOrSpread> = Vec::new();
        let mut k: usize = 0;
        proof {
            lemma_view_attrs(v@, 0);
            assert(view_attrs(out@, 0) =~= Seq::<crate::ast::JSXAttrOrSpreadV>::empty());
        }
        while k < v.len()
            invariant
                self.cfg() == cfg,
                cfg == old(self).cfg(),
                self.wf() == old(self).wf(),
                old(self).extends_flag() ==> self.extends_flag(),
                k <= v.len(),
                av == view_attrs(v@, 0),
                av.len() == v@.len(),
                (match spec_fold_attr_list(cfg, av, k as int) {
                    Ok(rest) => spec_fold_attr_list(cfg, av, 0) == Ok::<
                        Seq<crate::ast::JSXAttrOrSpreadV>,
                        Unsupported,
                    >(view_attrs(out@, 0) + rest),
                    Err(u) => spec_fold_attr_list(cfg, av, 0) == Err::<
                        Seq<crate::ast::JSXAttrOrSpreadV>,
                        Unsupported,
                    >(u),
                }),
            decreases v.len() - k,
        {
            proof {
                lemma_view_attrs(v@, 0);
                assert(av[k as int] == view_attr_or_spread(v@[k as int]));
            }
            match self.fold_attr_one(&v[k]) {
                Err(u) => {
                    proof {
                        assert(spec_fold_attr_list(cfg, av, k as int) == Err::<
                            Seq<crate::ast::JSXAttrOrSpreadV>,
                            Unsupported,
                        >(u));
                    }
                    return Err(u);
                },
                Ok(a2) => {
                    let ghost pre_vec = out@;
                    let ghost prev = view_attrs(out@, 0);
                    let ghost a2v = view_attr_or_spread(a2);
                    out.push(a2);
                    proof {
                        lemma_view_attrs(pre_vec, 0);
                        lemma_view_attrs(out@, 0);
                        assert(view_attrs(out@, 0) =~= prev.push(a2v));
                        match spec_fold_attr_list(cfg, av, k as int + 1) {
                            Ok(rest) => {
                                assert(spec_fold_attr_list(cfg, av, k as int) == Ok::<
                                    Seq<crate::ast::JSXAttrOrSpreadV>,
                                    Unsupported,
                                >(seq![a2v] + rest));
                                assert(view_attrs(out@, 0) + rest =~= prev + (seq![a2v] + rest));
                            },
                            Err(u) => {
                                assert(spec_fold_attr_list(cfg, av, k as int) == Err::<
                                    Seq<crate::ast::JSXAttrOrSpreadV>,
                                    Unsupported,
                                >(u));
                            },
                        }
                    }
                },
            }
            k = k + 1;
        }
        proof {
            assert(spec_fold_attr_list(cfg, av, av.len() as int) == Ok::<
                Seq<crate::ast::JSXAttrOrSpreadV>,
                Unsupported,
            >(Seq::empty()));
            assert(view_attrs(out@, 0) + Seq::<crate::ast::JSXAttrOrSpreadV>::empty()
                =~= view_attrs(out@, 0));
        }
        Ok(out)
    }

    fn fold_child_vec(&mut self, v: &Vec<JSXElementChild>) -> (r: Result<
        Vec<JSXElementChild>,
        Unsupported,
    >)
        ensures
            final(self).cfg() == old(self).cfg(),
            final(self).wf() == old(self).wf(),
            old(self).extends_flag() ==> final(self).extends_flag(),
            (match r {
                Ok(out) => spec_fold_child_list(old(self).cfg(), view_children(v@, 0), 0) == Ok::<
                    Seq<crate::ast::JSXElementChildV>,
                    Unsupported,
                >(view_children(out@, 0)),
                Err(u) => spec_fold_child_list(old(self).cfg(), view_children(v@, 0), 0) == Err::<
                    Seq<crate::ast::JSXElementChildV>,
                    Unsupported,
                >(u),
            }),
        decreases v@, 1int,
    {
        let ghost cfg = self.cfg();
        let ghost cs = view_children(v@, 0);
        let mut out: Vec<JSXElementChild> = Vec::new();
        let mut k: usize = 0;
        proof {
            lemma_view_children(v@, 0);
            assert(view_children(out@, 0) =~= Seq::<crate::ast::JSXElementChildV>::empty());
        }
        while k < v.len()
            invariant
                self.cfg() == cfg,
                cfg == old(self).cfg(),
                self.wf() == old(self).wf(),
                old(self).extends_flag() ==> self.extends_flag(),
                k <= v.len(),
                cs == view_children(v@, 0),
                cs.len() == v@.len(),
                (match spec_fold_child_list(cfg, cs, k as int) {
                    Ok(rest) => spec_fold_child_list(cfg, cs, 0) == Ok::<
                        Seq<crate::ast::JSXElementChildV>,
                        Unsupported,
                    >(view_children(out@, 0) + rest),
                    Err(u) => spec_fold_child_list(cfg, cs, 0) == Err::<
                        Seq<crate::ast::JSXElementChildV>,
                        Unsupported,
                    >(u),
                }),
            decreases v.len() - k,
        {
            proof {
                lemma_view_children(v@, 0);
                assert(cs[k as int] == view_child(v@[k as int]));
            }
            match self.fold_child_one(&v[k]) {
                Err(u) => {
                    proof {
                        assert(spec_fold_child_list(cfg, cs, k as int) == Err::<
                            Seq<crate::ast::JSXElementChildV>,
                            Unsupported,
                        >(u));
                    }
                    return Err(u);
                },
                Ok(c2) => {
                    let ghost pre_vec = out@;
                    let ghost prev = view_children(out@, 0);
                    let ghost c2v = view_child(c2);
                    out.push(c2);
                    proof {
                        lemma_view_children(pre_vec, 0);
                        lemma_view_children(out@, 0);
                        assert(view_children(out@, 0) =~= prev.push(c2v));
                        match spec_fold_child_list(cfg, cs, k as int + 1) {
                            Ok(rest) => {
                                assert(spec_fold_child_list(cfg, cs, k as int) == Ok::<
                                    Seq<crate::ast::JSXElementChildV>,
                                    Unsupported,
                                >(seq![c2v] + rest));
                                assert(view_children(out@, 0) + rest =~= prev + (seq![c2v]
                                    + rest));
                            },
                            Err(u) => {
                                assert(spec_fold_child_list(cfg, cs, k as int) == Err::<
                                    Seq<crate::ast::JSXElementChildV>,
                                    Unsupported,
                                >(u));
                            },
                        }
                    }
                },
            }
            k = k + 1;
        }
        proof {
            assert(spec_fold_child_list(cfg, cs, cs.len() as int) == Ok::<
                Seq<crate::ast::JSXElementChildV>,
                Unsupported,
            >(Seq::empty()));
            assert(view_children(out@, 0) + Seq::<crate::ast::JSXElementChildV>::empty()
                =~= view_children(out@, 0));
        }
        Ok(out)
    }

    /// Rewrites every expression embedded in the element, leaving its
    /// JSX skeleton untouched.
    fn fold_interior(&mut self, el: &JSXElement) -> (r: Result<JSXElement, Unsupported>)
        ensures
            final(self).cfg() == old(self).cfg(),
            final(self).wf() == old(self).wf(),
            old(self).extends_flag() ==> final(self).extends_flag(),
            (match r {
                Ok(el2) => spec_fold_interior(old(self).cfg(), view_element(*el)) == Ok::<
                    crate::ast::JSXElementV,
                    Unsupported,
                >(view_element(el2)),
                Err(u) => spec_fold_interior(old(self).cfg(), view_element(*el)) == Err::<
                    crate::ast::JSXElementV,
                    Unsupported,
                >(u),
            }),
        decreases *el, 2int,
    {
        let name = clone_element_name(&el.name);
        let attrs2 = match self.fold_attr_vec(&el.attrs) {
            Err(u) => {
                return Err(u);
            },
            Ok(x) => x,
        };
        let children2 = match self.fold_child_vec(&el.children) {
            Err(u) => {
                return Err(u);
            },
            Ok(x) => x,
        };
        Ok(JSXElement { span: el.span, name, attrs: attrs2, children: children2 })
    }

    /// The default bottom-up traversal: rewrites every expression
    /// embedded in the node and rebuilds the same kind around the
    /// results, changing nothing else.
    #[verifier::rlimit(100)]
    #[verifier::loop_isolation(false)]
    fn fold_children(&mut self, e: &Expr) -> (r: Result<Expr, Unsupported>)
        ensures
            final(self).cfg() == old(self).cfg(),
            final(self).wf() == old(self).wf(),
            old(self).extends_flag() ==> final(self).extends_flag(),
            res_expr_view(r) == spec_fold_children(old(self).cfg(), view_expr(*e)),
        decreases *e, 2int,
    {
        let ghost cfg = self.cfg();
        match e {
            Expr::This(sp) => {
                let r2 = Expr::This(*sp);
                proof {
                    assert(view_expr(r2) == view_expr(*e));
                }
                Ok(r2)
            },
            Expr::Ident(i) => {
                let r2 = Expr::Ident(clone_ident(i));
                proof {
                    assert(view_expr(r2) == view_expr(*e));
                }
                Ok(r2)
            },
            Expr::Lit(l) => {
                let r2 = Expr::Lit(clone_lit(l));
                proof {
                    assert(view_expr(r2) == view_expr(*e));
                }
                Ok(r2)
            },
            Expr::Call(c) => {
                proof {
                    lemma_view_args(c.args@, 0);
                    assert(view_expr(*e) == ExprV::Call(
                        crate::ast::CallExprV {
                            span: c.span,
                            callee: Box::new(view_expr(*c.callee)),
                            args: view_args(c.args@, 0),
                        },
                    ));
                }
                let callee = match self.fold(&c.callee) {
                    Err(u) => {
                        proof {
                            assert(spec_fold_children(cfg, view_expr(*e)) == Err::<
                                ExprV,
                                Unsupported,
                            >(u));
                        }
                        return Err(u);
                    },
                    Ok(x) => x,
                };
                let ghost calleev = view_expr(callee);
                let ghost argsv = view_args(c.args@, 0);
                let mut out: Vec<ExprOrSpread> = Vec::new();
                let mut k: usize = 0;
                proof {
                    lemma_view_args(c.args@, 0);
                    assert(view_args(out@, 0) =~= Seq::<crate::ast::ExprOrSpreadV>::empty());
                }
                while k < c.args.len()
                    invariant
                        self.cfg() == cfg,
                        cfg == old(self).cfg(),
                        self.wf() == old(self).wf(),
                        old(self).extends_flag() ==> self.extends_flag(),
                        k <= c.args.len(),
                        *e is Call,
                        c == &(e->Call_0),
                        argsv == view_args(c.args@, 0),
                        argsv.len() == c.args@.len(),
                        (match spec_fold_args(cfg, argsv, k as int) {
                            Ok(rest) => spec_fold_args(cfg, argsv, 0) == Ok::<
                                Seq<crate::ast::ExprOrSpreadV>,
                                Unsupported,
                            >(view_args(out@, 0) + rest),
                            Err(u) => spec_fold_args(cfg, argsv, 0) == Err::<
                                Seq<crate::ast::ExprOrSpreadV>,
                                Unsupported,
                            >(u),
                        }),
                    decreases c.args.len() - k,
                {
                    proof {
                        lemma_view_args(c.args@, 0);
                        assert(argsv[k as int] == view_arg(c.args@[k as int]));
                        assert(decreases_to!(*e => e->Call_0));
                        assert(decreases_to!(e->Call_0 => c.args));
                        assert(decreases_to!(c.args => c.args@[k as int]));
                        assert(decreases_to!(c.args@[k as int] => *c.args@[k as int].expr));
                    }
                    let a = &c.args[k];
                    match self.fold(&a.expr) {
                        Err(u) => {
                            proof {
                                assert(spec_fold_args(cfg, argsv, k as int) == Err::<
                                    Seq<crate::ast::ExprOrSpreadV>,
                                    Unsupported,
                                >(u));
                                assert(spec_fold_children(cfg, view_expr(*e)) == Err::<
                                    ExprV,
                                    Unsupported,
                                >(u));
                            }
                            return Err(u);
                        },
                        Ok(x) => {
                            let ghost pre_vec = out@;
                            let ghost prev = view_args(out@, 0);
                            let a2 = ExprOrSpread { spread: a.spread, expr: Box::new(x) };
                            let ghost a2v = view_arg(a2);
                            out.push(a2);
                            proof {
                                lemma_view_args(pre_vec, 0);
                                lemma_view_args(out@, 0);
                                assert(view_args(out@, 0) =~= prev.push(a2v));
                                match spec_fold_args(cfg, argsv, k as int + 1) {
                                    Ok(rest) => {
                                        assert(spec_fold_args(cfg, argsv, k as int) == Ok::<
                                            Seq<crate::ast::ExprOrSpreadV>,
                                            Unsupported,
                                        >(seq![a2v] + rest));
                                        assert(view_args(out@, 0) + rest =~= prev + (seq![a2v]
                                            + rest));
                                    },
                                    Err(u) => {
                                        assert(spec_fold_args(cfg, argsv, k as int) == Err::<
                                            Seq<crate::ast::ExprOrSpreadV>,
                                            Unsupported,
                                        >(u));
                                    },
                                }
                            }
                        },
                    }
                    k = k + 1;
                }
                proof {
                    assert(spec_fold_args(cfg, argsv, argsv.len() as int) == Ok::<
                        Seq<crate::ast::ExprOrSpreadV>,
                        Unsupported,
                    >(Seq::empty()));
                    assert(view_args(out@, 0) + Seq::<crate::ast::ExprOrSpreadV>::empty()
                        =~= view_args(out@, 0));
                }
                let built = Expr::Call(CallExpr { span: c.span, callee: Box::new(callee), args: out });
                proof {
                    assert(spec_fold_children(cfg, view_expr(*e)) == Ok::<ExprV, Unsupported>(
                        view_expr(built),
                    ));
                }
                Ok(built)
            },
            Expr::Member(m) => {
                proof {
                    assert(view_expr(*e) == ExprV::Member(
                        crate::ast::MemberExprV {
                            span: m.span,
                            obj: Box::new(view_expr(*m.obj)),
                            prop: Box::new(view_expr(*m.prop)),
                            computed: m.computed,
                        },
                    ));
                }
                let obj = match self.fold(&m.obj) {
                    Err(u) => {
                        proof {
                            assert(spec_fold_children(cfg, view_expr(*e)) == Err::<
                                ExprV,
                                Unsupported,
                            >(u));
                        }
                        return Err(u);
                    },
                    Ok(x) => x,
                };
                let prop = match self.fold(&m.prop) {
                    Err(u) => {
                        proof {
                            assert(spec_fold_children(cfg, view_expr(*e)) == Err::<
                                ExprV,
                                Unsupported,
                            >(u));
                        }
                        return Err(u);
                    },
                    Ok(x) => x,
                };
                let built = Expr::Member(
                    MemberExpr {
                        span: m.span,
                        obj: Box::new(obj),
                        prop: Box::new(prop),
                        computed: m.computed,
                    },
                );
                proof {
                    assert(spec_fold_children(cfg, view_expr(*e)) == Ok::<ExprV, Unsupported>(
                        view_expr(built),
                    ));
                }
                Ok(built)
            },
            Expr::Object(o) => {
                proof {
                    assert(view_expr(*e) == ExprV::Object(
                        crate::ast::ObjectLitV { span: o.span, props: view_props(o.props@, 0) },
                    ));
                }
                let ghost propsv = view_props(o.props@, 0);
                let mut out: Vec<Prop> = Vec::new();
                let mut k: usize = 0;
                proof {
                    lemma_view_props(o.props@, 0);
                    assert(view_props(out@, 0) =~= Seq::<crate::ast::PropV>::empty());
                }
                while k < o.props.len()
                    invariant
                        self.cfg() == cfg,
                        cfg == old(self).cfg(),
                        self.wf() == old(self).wf(),
                        old(self).extends_flag() ==> self.extends_flag(),
                        k <= o.props.len(),
                        *e is Object,
                        o == &(e->Object_0),
                        propsv == view_props(o.props@, 0),
                        propsv.len() == o.props@.len(),
                        (match spec_fold_props(cfg, propsv, k as int) {
                            Ok(rest) => spec_fold_props(cfg, propsv, 0) == Ok::<
                                Seq<crate::ast::PropV>,
                                Unsupported,
                            >(view_props(out@, 0) + rest),
                            Err(u) => spec_fold_props(cfg, propsv, 0) == Err::<
                                Seq<crate::ast::PropV>,
                                Unsupported,
                            >(u),
                        }),
                    decreases o.props.len() - k,
                {
                    proof {
                        lemma_view_props(o.props@, 0);
                        assert(propsv[k as int] == view_prop(o.props@[k as int]));
                        assert(decreases_to!(*e => e->Object_0));
                        assert(decreases_to!(e->Object_0 => o.props));
                        assert(decreases_to!(o.props => o.props@[k as int]));
                        assert(decreases_to!(o.props@[k as int] => *o.props@[k as int].value));
                    }
                    let pr = &o.props[k];
                    match self.fold(&pr.value) {
                        Err(u) => {
                            proof {
                                assert(spec_fold_props(cfg, propsv, k as int) == Err::<
                                    Seq<crate::ast::PropV>,
                                    Unsupported,
                                >(u));
                                assert(spec_fold_children(cfg, view_expr(*e)) == Err::<
                                    ExprV,
                                    Unsupported,
                                >(u));
                            }
                            return Err(u);
                        },
                        Ok(x) => {
                            let ghost pre_vec = out@;
                            let ghost prev = view_props(out@, 0);
                            let p2 = Prop { key: clone_prop_name(&pr.key), value: Box::new(x) };
                            let ghost p2v = view_prop(p2);
                            out.push(p2);
                            proof {
                                lemma_view_props(pre_vec, 0);
                                lemma_view_props(out@, 0);
                                assert(view_props(out@, 0) =~= prev.push(p2v));
                                match spec_fold_props(cfg, propsv, k as int + 1) {
                                    Ok(rest) => {
                                        assert(spec_fold_props(cfg, propsv, k as int) == Ok::<
                                            Seq<crate::ast::PropV>,
                                            Unsupported,
                                        >(seq![p2v] + rest));
                                        assert(view_props(out@, 0) + rest =~= prev + (seq![p2v]
                                            + rest));
                                    },
                                    Err(u) => {
                                        assert(spec_fold_props(cfg, propsv, k as int) == Err::<
                                            Seq<crate::ast::PropV>,
                                            Unsupported,
                                        >(u));
                                    },
                                }
                            }
                        },
                    }
                    k = k + 1;
                }
                proof {
                    assert(spec_fold_props(cfg, propsv, propsv.len() as int) == Ok::<
                        Seq<crate::ast::PropV>,
                        Unsupported,
                    >(Seq::empty()));
                    assert(view_props(out@, 0) + Seq::<crate::ast::PropV>::empty() =~= view_props(
                        out@,
                        0,
                    ));
                }
                let built = Expr::Object(ObjectLit { span: o.span, props: out });
                proof {
                    assert(spec_fold_children(cfg, view_expr(*e)) == Ok::<ExprV, Unsupported>(
                        view_expr(built),
                    ));
                }
                Ok(built)
            },
            Expr::Paren(sp, inner) => {
                proof {
                    assert(view_expr(*e) == ExprV::Paren(*sp, Box::new(view_expr(**inner))));
                }
                match self.fold(inner) {
                    Err(u) => Err(u),
                    Ok(x) => {
                        let built = Expr::Paren(*sp, Box::new(x));
                        proof {
                            assert(spec_fold_children(cfg, view_expr(*e)) == Ok::<
                                ExprV,
                                Unsupported,
                            >(view_expr(built)));
                        }
                        Ok(built)
                    },
                }
            },
            Expr::JSXElement(el) => {
                proof {
                    assert(view_expr(*e) == ExprV::JSXElement(Box::new(view_element(**el))));
                }
                match self.fold_interior(el) {
                    Err(u) => Err(u),
                    Ok(el2) => {
                        let built = Expr::JSXElement(Box::new(el2));
                        proof {
                            assert(spec_fold_children(cfg, view_expr(*e)) == Ok::<
                                ExprV,
                                Unsupported,
                            >(view_expr(built)));
                        }
                        Ok(built)
                    },
                }
            },
            Expr::JSXFragment(f) => {
                proof {
                    assert(view_expr(*e) == ExprV::JSXFragment(view_fragment(*f)));
                }
                match self.fold_child_vec(&f.children) {
                    Err(u) => Err(u),
                    Ok(cs2) => {
                        let ghost cs2v = view_children(cs2@, 0);
                        let frag2 = JSXFragment { span: f.span, children: cs2 };
                        proof {
                            assert(view_fragment(*f).children == view_children(f.children@, 0));
                            assert(view_children(frag2.children@, 0) == cs2v);
                            assert(view_fragment(frag2) == (crate::ast::JSXFragmentV {
                                span: f.span,
                                children: cs2v,
                            }));
                        }
                        let built = Expr::JSXFragment(frag2);
                        proof {
                            assert(view_expr(built) == ExprV::JSXFragment(
                                crate::ast::JSXFragmentV { span: f.span, children: cs2v },
                            ));
                            assert(spec_fold_children(cfg, view_expr(*e)) == Ok::<
                                ExprV,
                                Unsupported,
                            >(view_expr(built)));
                        }
                        Ok(built)
                    },
                }
            },
        }
    }

    /// The whole pass on one expression: every embedded expression is
    /// rewritten first (bottom-up), then a (possibly parenthesized) JSX
    /// element or a JSX fragment is replaced by a call of the pragma.
    pub fn fold(&mut self, e: &Expr) -> (r: Result<Expr, Unsupported>)
        ensures
            final(self).cfg() == old(self).cfg(),
            final(self).wf() == old(self).wf(),
            old(self).extends_flag() ==> final(self).extends_flag(),
            res_expr_view(r) == spec_fold_expr(old(self).cfg(), view_expr(*e)),
        decreases *e, 3int,
    {
        let ghost cfg = self.cfg();
        let folded = match self.fold_children(e) {
            Err(u) => {
                return Err(u);
            },
            Ok(x) => x,
        };
        let ghost foldedv = view_expr(folded);
        match folded {
            Expr::Paren(psp, inner) => {
                let ghost innerv = view_expr(*inner);
                proof {
                    assert(foldedv == ExprV::Paren(psp, Box::new(innerv)));
                }
                match *inner {
                    Expr::JSXElement(el) => {
                        proof {
                            assert(innerv == ExprV::JSXElement(Box::new(view_element(*el))));
                            assert(spec_fold_expr(cfg, view_expr(*e)) == spec_convert_elem(
                                cfg,
                                view_element(*el),
                            ));
                        }
                        self.jsx_elem_to_expr(&el)
                    },
                    other => {
                        let ghost otherv = view_expr(other);
                        proof {
                            assert(otherv == innerv);
                            assert(!(innerv is JSXElement));
                        }
                        Ok(Expr::Paren(psp, Box::new(other)))
                    },
                }
            },
            Expr::JSXElement(el) => {
                proof {
                    assert(foldedv == ExprV::JSXElement(Box::new(view_element(*el))));
                    assert(spec_fold_expr(cfg, view_expr(*e)) == spec_convert_elem(
                        cfg,
                        view_element(*el),
                    ));
                }
                self.jsx_elem_to_expr(&el)
            },
            Expr::JSXFragment(f) => {
                proof {
                    assert(foldedv == ExprV::JSXFragment(view_fragment(f)));
                    assert(spec_fold_expr(cfg, view_expr(*e)) == spec_convert_frag(
                        cfg,
                        view_fragment(f),
                    ));
                }
                self.jsx_frag_to_expr(&f)
            },
            other => {
                proof {
                    assert(view_expr(other) == foldedv);
                }
                Ok(other)
            },
        }
    }
}

} // verus!


