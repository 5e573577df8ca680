//! Parsing of the two pragma strings into expression-tree literals.
//!
//! A pragma is a dotted path of identifiers (`React.createElement`, `h`,
//! `this.createElement`): the shape the lowering substitutes for syntax
//! sugar. A leading `this` segment becomes the enclosing-instance
//! reference, exactly as a full expression parser would read it. The
//! grammar is deliberately this subset of the expression language: the
//! full parser is an external collaborator, and pragmas in practice are
//! dotted paths. A string failing the grammar is a configuration error,
//! fatal at pass construction.

use crate::ast::{Expr, ExprV, Ident, IdentV, MemberExpr, MemberExprV};
use crate::pos::{dummy_span, spec_dummy_span};
use crate::strutil::str_eq;
use vstd::prelude::*;
use vstd::string::StrSliceExecFns;

verus! {

broadcast use vstd::seq::group_seq_axioms;

// ----------------------------------------------------------------------
// Grammar
// ----------------------------------------------------------------------
pub open spec fn is_ident_start_char(c: char) -> bool {
    (('a' as u32) <= (c as u32) && (c as u32) <= ('z' as u32)) || (('A' as u32) <= (c as u32) && (c
        as u32) <= ('Z' as u32)) || c == '_' || c == '$'
}

pub open spec fn is_ident_cont_char(c: char) -> bool {
    is_ident_start_char(c) || (('0' as u32) <= (c as u32) && (c as u32) <= ('9' as u32))
}

/// One identifier segment: non-empty, a start character followed by
/// continuation characters.
pub open spec fn is_ident_seg(s: Seq<char>) -> bool {
    s.len() > 0 && is_ident_start_char(s[0]) && (forall|j: int|
        1 <= j < s.len() ==> is_ident_cont_char(#[trigger] s[j]))
}

/// Length of the run of non-dot characters starting at `i`.
pub open spec fn prefix_len(s: Seq<char>, i: int) -> nat
    decreases s.len() - i,
{
    if 0 <= i < s.len() && s[i] != '.' {
        1 + prefix_len(s, i + 1)
    } else {
        0
    }
}

/// The suffix starting at `i` is a non-empty dot-separated list of
/// identifier segments.
pub open spec fn valid_from(s: Seq<char>, i: int) -> bool
    decreases s.len() - i,
{
    let k = prefix_len(s, i);
    &&& is_ident_seg(s.subrange(i, i + k))
    &&& (i + k >= s.len() || valid_from(s, i + k + 1))
}

/// The whole string is a valid dotted path.
pub open spec fn valid_dotted(s: Seq<char>) -> bool {
    valid_from(s, 0)
}

// ----------------------------------------------------------------------
// The expression a valid path denotes
// ----------------------------------------------------------------------
pub open spec fn seg_ident(seg: Seq<char>) -> IdentV {
    IdentV { span: spec_dummy_span(), sym: seg }
}

/// The head segment: `this` is the instance reference, anything else an
/// identifier.
pub open spec fn head_expr(seg: Seq<char>) -> ExprV {
    if seg == "this"@ {
        ExprV::This(spec_dummy_span())
    } else {
        ExprV::Ident(seg_ident(seg))
    }
}

/// Left-fold of the remaining segments onto the accumulated expression.
pub open spec fn build_cont(s: Seq<char>, i: int, acc: Option<ExprV>) -> ExprV
    decreases s.len() - i,
{
    let k = prefix_len(s, i);
    let seg = s.subrange(i, i + k);
    let nacc = match acc {
        None => head_expr(seg),
        Some(a) => ExprV::Member(
            MemberExprV {
                span: spec_dummy_span(),
                obj: Box::new(a),
                prop: Box::new(ExprV::Ident(seg_ident(seg))),
                computed: false,
            },
        ),
    };
    if i + k >= s.len() {
        nacc
    } else {
        build_cont(s, i + k + 1, Some(nacc))
    }
}

pub open spec fn spec_pragma_expr(s: Seq<char>) -> ExprV {
    build_cont(s, 0, None)
}

/// A path expression: `this`, an identifier, or member accesses over
/// them. Pragmas always denote paths.
pub open spec fn is_path_expr(e: ExprV) -> bool
    decreases e,
{
    match e {
        ExprV::This(_) => true,
        ExprV::Ident(_) => true,
        ExprV::Member(m) => is_path_expr(*m.obj) && is_path_expr(*m.prop),
        _ => false,
    }
}

pub proof fn lemma_build_cont_path(s: Seq<char>, i: int, acc: Option<ExprV>)
    requires
        match acc {
            Some(a) => is_path_expr(a),
            None => true,
        },
    ensures
        is_path_expr(build_cont(s, i, acc)),
    decreases s.len() - i,
{
    let k = prefix_len(s, i);
    let seg = s.subrange(i, i + k);
    let nacc = match acc {
        None => head_expr(seg),
        Some(a) => ExprV::Member(
            MemberExprV {
                span: spec_dummy_span(),
                obj: Box::new(a),
                prop: Box::new(ExprV::Ident(seg_ident(seg))),
                computed: false,
            },
        ),
    };
    match acc {
        None => {
            if seg == "this"@ {
                assert(is_path_expr(ExprV::This(spec_dummy_span())));
            } else {
                assert(is_path_expr(ExprV::Ident(seg_ident(seg))));
            }
        },
        Some(a) => {
            assert(is_path_expr(ExprV::Ident(seg_ident(seg))));
            assert(is_path_expr(nacc));
        },
    }
    assert(is_path_expr(nacc));
    if i + k < s.len() {
        lemma_build_cont_path(s, i + k + 1, Some(nacc));
    }
}

pub proof fn lemma_path_no_jsx(e: ExprV)
    requires
        is_path_expr(e),
    ensures
        crate::ast::no_jsx(e),
    decreases e,
{
    if let ExprV::Member(m) = e {
        lemma_path_no_jsx(*m.obj);
        lemma_path_no_jsx(*m.prop);
    }
}

// ----------------------------------------------------------------------
// Facts about prefix_len
// ----------------------------------------------------------------------
proof fn lemma_prefix_len_exact(s: Seq<char>, a: int, b: int)
    requires
        0 <= a <= b <= s.len(),
        forall|j: int| a <= j < b ==> s[j] != '.',
        b == s.len() || s[b] == '.',
    ensures
        prefix_len(s, a) == b - a,
    decreases b - a,
{
    if a < b {
        lemma_prefix_len_exact(s, a + 1, b);
    }
}

proof fn lemma_prefix_len_lb(s: Seq<char>, a: int, b: int)
    requires
        0 <= a <= b < s.len(),
        forall|j: int| a <= j <= b ==> s[j] != '.',
    ensures
        prefix_len(s, a) > b - a,
    decreases b - a,
{
    if a < b {
        lemma_prefix_len_lb(s, a + 1, b);
    }
}

proof fn lemma_prefix_len_ub(s: Seq<char>, a: int)
    requires
        0 <= a <= s.len(),
    ensures
        a + prefix_len(s, a) <= s.len(),
    decreases s.len() - a,
{
    if a < s.len() && s[a] != '.' {
        lemma_prefix_len_ub(s, a + 1);
    }
}

/// The ghost value of the accumulator.
pub open spec fn opt_view(acc: Option<Expr>) -> Option<ExprV> {
    match acc {
        None => None,
        Some(a) => Some(crate::ast::view_expr(a)),
    }
}

// ----------------------------------------------------------------------
// The parser
// ----------------------------------------------------------------------
fn is_ident_start_exec(c: char) -> (r: bool)
    ensures
        r == is_ident_start_char(c),
{
    let u = c as u32;
    (97 <= u && u <= 122) || (65 <= u && u <= 90) || c == '_' || c == '$'
}

fn is_ident_cont_exec(c: char) -> (r: bool)
    ensures
        r == is_ident_cont_char(c),
{
    is_ident_start_exec(c) || { let u = c as u32; 48 <= u && u <= 57 }
}

/// Parses a pragma string into its expression, or reports that the
/// string is not a dotted identifier path.
pub fn parse_pragma(s: &str) -> (r: Option<Box<Expr>>)
    ensures
        r is Some <==> valid_dotted(s@),
        r matches Some(b) ==> crate::ast::view_expr(*b) == spec_pragma_expr(s@),
{
    let n = s.unicode_len();
    let mut i: usize = 0;
    let mut acc: Option<Expr> = None;
    loop
        invariant
            n == s@.len(),
            0 <= i <= n,
            acc is None <==> i == 0,
            valid_dotted(s@) <==> valid_from(s@, i as int),
            spec_pragma_expr(s@) == build_cont(s@, i as int, opt_view(acc)),
        decreases n - i,
    {
        let ghost accv = opt_view(acc);
        let start = i;
        if i >= n {
            // an empty trailing segment (empty string, or a dangling dot)
            proof {
                assert(prefix_len(s@, i as int) == 0);
                assert(!is_ident_seg(s@.subrange(i as int, i as int)));
                assert(!valid_from(s@, i as int));
            }
            return None;
        }
        let c0 = s.get_char(i);
        if c0 == '.' {
            proof {
                assert(prefix_len(s@, i as int) == 0);
                assert(!is_ident_seg(s@.subrange(i as int, i as int)));
            }
            return None;
        }
        if !is_ident_start_exec(c0) {
            proof {
                lemma_prefix_len_lb(s@, i as int, i as int);
                lemma_prefix_len_ub(s@, i as int);
                let k = prefix_len(s@, i as int);
                assert(s@.subrange(i as int, i as int + k)[0] == s@[i as int]);
                assert(!is_ident_seg(s@.subrange(i as int, i as int + k)));
            }
            return None;
        }
        i = i + 1;
        loop
            invariant_except_break
                n == s@.len(),
                start < i <= n,
                start < n,
                s@[start as int] != '.',
                is_ident_start_char(s@[start as int]),
                forall|j: int| start < j < i ==> s@[j] != '.',
                forall|j: int| start < j < i ==> is_ident_cont_char(#[trigger] s@[j]),
                valid_dotted(s@) <==> valid_from(s@, start as int),
            ensures
                n == s@.len(),
                start < i <= n,
                start < n,
                s@[start as int] != '.',
                is_ident_start_char(s@[start as int]),
                i == n || s@[i as int] == '.',
                forall|j: int| start < j < i ==> s@[j] != '.',
                forall|j: int| start < j < i ==> is_ident_cont_char(#[trigger] s@[j]),
            decreases n - i,
        {
            if i >= n {
                break ;
            }
            let c = s.get_char(i);
            if c == '.' {
                break ;
            }
            if !is_ident_cont_exec(c) {
                proof {
                    lemma_prefix_len_lb(s@, start as int, i as int);
                    lemma_prefix_len_ub(s@, start as int);
                    let k = prefix_len(s@, start as int);
                    let seg = s@.subrange(start as int, start as int + k);
                    assert(seg[i as int - start as int] == s@[i as int]);
                    assert(!is_ident_seg(seg));
                    assert(!valid_from(s@, start as int));
                }
                return None;
            }
            i = i + 1;
        }
        // the segment start..i is a maximal run of identifier characters
        proof {
            lemma_prefix_len_exact(s@, start as int, i as int);
            let seg = s@.subrange(start as int, i as int);
            assert(seg[0] == s@[start as int]);
            assert forall|j: int| 1 <= j < seg.len() implies is_ident_cont_char(
                #[trigger] seg[j],
            ) by {
                assert(seg[j] == s@[start + j]);
            }
            assert(is_ident_seg(seg));
        }
        let seg_str = s.substring_char(start, i);
        let sym = seg_str.to_owned();
        let ghost segv = seg_str@;
        let nacc = match acc {
            None => {
                if str_eq(seg_str, "this") {
                    let e = Expr::This(dummy_span());
                    proof {
                        assert(crate::ast::view_expr(e) == head_expr(segv));
                    }
                    e
                } else {
                    let e = Expr::Ident(Ident { span: dummy_span(), sym });
                    proof {
                        assert(crate::ast::view_expr(e) == head_expr(segv));
                    }
                    e
                }
            },
            Some(prev) => {
                let ghost prevv = crate::ast::view_expr(prev);
                let p = Box::new(Expr::Ident(Ident { span: dummy_span(), sym }));
                proof {
                    assert(crate::ast::view_expr(*p) == ExprV::Ident(seg_ident(segv)));
                }
                let e = Expr::Member(
                    MemberExpr { span: dummy_span(), obj: Box::new(prev), prop: p, computed: false },
                );
                proof {
                    assert(crate::ast::view_expr(e) == ExprV::Member(
                        MemberExprV {
                            span: spec_dummy_span(),
                            obj: Box::new(prevv),
                            prop: Box::new(ExprV::Ident(seg_ident(segv))),
                            computed: false,
                        },
                    ));
                }
                e
            },
        };
        proof {
            let k = prefix_len(s@, start as int);
            let seg = s@.subrange(start as int, start as int + k);
            assert(seg =~= segv);
            assert(crate::ast::view_expr(nacc) == (match accv {
                None => head_expr(seg),
                Some(a) => ExprV::Member(
                    MemberExprV {
                        span: spec_dummy_span(),
                        obj: Box::new(a),
                        prop: Box::new(ExprV::Ident(seg_ident(seg))),
                        computed: false,
                    },
                ),
            }));
            assert(build_cont(s@, start as int, accv) == (if start + k >= s@.len() {
                crate::ast::view_expr(nacc)
            } else {
                build_cont(s@, start + k + 1, Some(crate::ast::view_expr(nacc)))
            }));
        }
        if i >= n {
            proof {
                assert(valid_from(s@, start as int));
            }
            return Some(Box::new(nacc));
        }
        // skip the dot between segments
        proof {
            assert(s@[i as int] == '.');
            assert(valid_from(s@, start as int) <==> valid_from(s@, i + 1));
        }
        acc = Some(nacc);
        i = i + 1;
    }
}

} // verus!
