//! The textual form of key expressions, and the laws relating it to the
//! parser: every well-formed expression tree, written out, parses back to
//! itself.
use vstd::prelude::*;

use crate::key::{canonical_name, resolve, ExprView, FunctionView, NameView};
use crate::key_parser::{
    alnum_end, arg_at, args_at, args_tail, definition_of, expr_at, exprs_at, exprs_tail,
    function_at, function_head, function_kind, group_at, group_names_at, is_word_char, name_at, word_end,
    FN_ARG_SEP, FN_NEST_CLOSE, FN_NEST_OPEN, KEY_DEF_SEP,
};
use crate::text::is_ascii_alnum;

verus! {

/// A non-empty run of ASCII letters and digits.
pub open spec fn is_key_token(t: Seq<char>) -> bool {
    t.len() > 0 && forall|i: int| 0 <= i < t.len() ==> is_ascii_alnum(#[trigger] t[i])
}

/// A non-empty run of group-name characters.
pub open spec fn is_group_token(t: Seq<char>) -> bool {
    t.len() > 0 && forall|i: int| 0 <= i < t.len() ==> is_word_char(#[trigger] t[i])
}

/// Whether a token may end at `q`: the text ends there, or a character
/// follows that neither extends a token nor separates arguments.
pub open spec fn is_boundary(s: Seq<char>, q: int) -> bool {
    q == s.len() || (0 <= q < s.len() && !is_word_char(s[q]) && s[q] != FN_ARG_SEP)
}

pub open spec fn render_name(n: NameView) -> Seq<char> {
    match n {
        NameView::Known(k) => canonical_name(k).unwrap(),
        NameView::Unknown(t) => t,
    }
}

/// A key expression as written at the top level of a definition.
pub open spec fn render_expr(e: ExprView) -> Seq<char>
    decreases e, 1int,
{
    match e {
        ExprView::Name(n) => render_name(n),
        ExprView::Function(f) => render_function(f),
    }
}

/// A key expression as written as a function argument: calls are bracketed.
pub open spec fn render_arg(e: ExprView) -> Seq<char>
    decreases e, 1int,
{
    match e {
        ExprView::Name(n) => render_name(n),
        ExprView::Function(f) => seq![FN_NEST_OPEN] + render_function(f) + seq![FN_NEST_CLOSE],
    }
}

pub open spec fn render_function(f: FunctionView) -> Seq<char>
    decreases f, 0int,
{
    match f {
        FunctionView::Group { key, group_names } => "group"@ + seq![FN_ARG_SEP] + render_arg(*key)
            + render_group_names(group_names),
        FunctionView::Country { arg } => "country"@ + seq![FN_ARG_SEP] + arg,
        FunctionView::Unknown { name, args } => name + seq![FN_ARG_SEP] + render_args(args),
    }
}

/// Arguments separated by the argument separator.
pub open spec fn render_args(args: Seq<ExprView>) -> Seq<char>
    decreases args, 0int,
{
    if args.len() == 0 {
        seq![]
    } else if args.len() == 1 {
        render_arg(args[0])
    } else {
        render_arg(args[0]) + seq![FN_ARG_SEP] + render_args(args.subrange(1, args.len() as int))
    }
}

/// Group names, each preceded by the argument separator.
pub open spec fn render_group_names(names: Seq<Seq<char>>) -> Seq<char>
    decreases names.len(),
{
    if names.len() == 0 {
        seq![]
    } else {
        seq![FN_ARG_SEP] + names[0] + render_group_names(names.subrange(1, names.len() as int))
    }
}

/// Key expressions separated by the definition separator.
pub open spec fn render_definition(es: Seq<ExprView>) -> Seq<char>
    decreases es.len(),
{
    if es.len() == 0 {
        seq![]
    } else if es.len() == 1 {
        render_expr(es[0])
    } else {
        render_expr(es[0]) + seq![KEY_DEF_SEP] + render_definition(es.subrange(1, es.len() as int))
    }
}

/// A name that can be written: an alphanumeric token that resolves back to it.
pub open spec fn name_wf(n: NameView) -> bool {
    is_key_token(render_name(n)) && resolve(render_name(n)) == n
}

/// An expression tree that can be written: its names can be written, every
/// group has at least one group name, every unknown function has an
/// alphanumeric name other than a known function's and at least one argument.
pub open spec fn expr_wf(e: ExprView) -> bool
    decreases e, 1int,
{
    match e {
        ExprView::Name(n) => name_wf(n),
        ExprView::Function(f) => function_wf(f),
    }
}

pub open spec fn function_wf(f: FunctionView) -> bool
    decreases f, 0int,
{
    match f {
        FunctionView::Group { key, group_names } => expr_wf(*key) && group_names.len() > 0
            && forall|i: int| 0 <= i < group_names.len() ==> is_group_token(#[trigger] group_names[i]),
        FunctionView::Country { arg } => is_key_token(arg),
        FunctionView::Unknown { name, args } => is_key_token(name) && function_kind(name) is None
            && args.len() > 0 && args_wf(args),
    }
}

pub open spec fn args_wf(args: Seq<ExprView>) -> bool
    decreases args, 0int,
{
    if args.len() == 0 {
        true
    } else {
        expr_wf(args[0]) && args_wf(args.subrange(1, args.len() as int))
    }
}

/// `t` is written in `s` from `p` on.
pub open spec fn written_at(s: Seq<char>, p: int, t: Seq<char>) -> bool {
    0 <= p && p + t.len() <= s.len() && s.subrange(p, p + t.len()) == t
}

proof fn lemma_written_split(s: Seq<char>, p: int, a: Seq<char>, b: Seq<char>)
    requires
        written_at(s, p, a + b),
    ensures
        written_at(s, p, a),
        written_at(s, p + a.len(), b),
{
    let w = s.subrange(p, p + a.len() + b.len());
    assert(w == a + b);
    assert(s.subrange(p, p + a.len()) =~= w.subrange(0, a.len() as int));
    assert(w.subrange(0, a.len() as int) =~= a);
    assert(s.subrange(p + a.len(), p + a.len() + b.len()) =~= w.subrange(
        a.len() as int,
        w.len() as int,
    ));
    assert(w.subrange(a.len() as int, w.len() as int) =~= b);
}

proof fn lemma_written_char(s: Seq<char>, p: int, t: Seq<char>, i: int)
    requires
        written_at(s, p, t),
        0 <= i < t.len(),
    ensures
        s[p + i] == t[i],
{
    assert(s.subrange(p, p + t.len())[i] == s[p + i]);
}

proof fn lemma_alnum_run(s: Seq<char>, p: int, t: Seq<char>, i: int)
    requires
        written_at(s, p, t),
        forall|j: int| 0 <= j < t.len() ==> is_ascii_alnum(#[trigger] t[j]),
        p + t.len() == s.len() || !is_ascii_alnum(s[p + t.len()]),
        0 <= i <= t.len(),
    ensures
        alnum_end(s, p + i) == p + t.len(),
    decreases t.len() - i,
{
    if i < t.len() {
        lemma_written_char(s, p, t, i);
        lemma_alnum_run(s, p, t, i + 1);
    }
}

proof fn lemma_word_run(s: Seq<char>, p: int, t: Seq<char>, i: int)
    requires
        written_at(s, p, t),
        forall|j: int| 0 <= j < t.len() ==> is_word_char(#[trigger] t[j]),
        p + t.len() == s.len() || !is_word_char(s[p + t.len()]),
        0 <= i <= t.len(),
    ensures
        word_end(s, p + i) == p + t.len(),
    decreases t.len() - i,
{
    if i < t.len() {
        lemma_written_char(s, p, t, i);
        lemma_word_run(s, p, t, i + 1);
    }
}

/// An ASCII letter or digit is a group-name character; the separators are not.
proof fn lemma_char_classes(c: char)
    ensures
        is_ascii_alnum(c) ==> is_word_char(c),
        !is_word_char(FN_ARG_SEP),
        !is_word_char(KEY_DEF_SEP),
        !is_word_char(FN_NEST_OPEN),
        !is_word_char(FN_NEST_CLOSE),
{
}

/// A key token written at `p` and followed by a non-alphanumeric character is
/// read back as that key name.
proof fn lemma_name_round_trip(s: Seq<char>, p: int, n: NameView)
    requires
        name_wf(n),
        written_at(s, p, render_name(n)),
        p + render_name(n).len() == s.len() || !is_ascii_alnum(s[p + render_name(n).len()]),
    ensures
        name_at(s, p) == Some((p + render_name(n).len(), n)),
        alnum_end(s, p) == p + render_name(n).len(),
{
    lemma_alnum_run(s, p, render_name(n), 0);
}

proof fn lemma_group_names_round_trip(s: Seq<char>, q: int, names: Seq<Seq<char>>)
    requires
        forall|i: int| 0 <= i < names.len() ==> is_group_token(#[trigger] names[i]),
        written_at(s, q, render_group_names(names)),
        is_boundary(s, q + render_group_names(names).len()),
    ensures
        group_names_at(s, q) == (q + render_group_names(names).len(), names),
    decreases names.len(),
{
    lemma_char_classes(' ');
    if names.len() > 0 {
        let g = names[0];
        let rest = names.subrange(1, names.len() as int);
        assert(is_group_token(g));
        assert forall|i: int| 0 <= i < rest.len() implies is_group_token(#[trigger] rest[i]) by {
            assert(rest[i] == names[i + 1]);
        }
        lemma_written_split(s, q, seq![FN_ARG_SEP] + g, render_group_names(rest));
        lemma_written_split(s, q, seq![FN_ARG_SEP], g);
        lemma_written_char(s, q, seq![FN_ARG_SEP], 0);
        let e = q + 1 + g.len();
        if rest.len() > 0 {
            lemma_written_char(s, e, render_group_names(rest), 0);
        }
        lemma_word_run(s, q + 1, g, 0);
        lemma_group_names_round_trip(s, e, rest);
        assert(names =~= seq![g] + rest);
    }
}

proof fn lemma_function_round_trip(s: Seq<char>, p: int, f: FunctionView)
    requires
        function_wf(f),
        written_at(s, p, render_function(f)),
        is_boundary(s, p + render_function(f).len()),
    ensures
        function_at(s, p) == Some((p + render_function(f).len(), f)),
    decreases f, 0int,
{
    lemma_char_classes(' ');
    reveal_strlit("group");
    reveal_strlit("country");
    let end = p + render_function(f).len();
    match f {
        FunctionView::Group { key, group_names } => {
            let head = "group"@;
            let ra = render_arg(*key);
            let rg = render_group_names(group_names);
            lemma_written_split(s, p, head + seq![FN_ARG_SEP] + ra, rg);
            lemma_written_split(s, p, head + seq![FN_ARG_SEP], ra);
            lemma_written_split(s, p, head, seq![FN_ARG_SEP]);
            lemma_written_char(s, p + head.len(), seq![FN_ARG_SEP], 0);
            lemma_alnum_run(s, p, head, 0);
            let q = p + head.len() + 1 + ra.len();
            lemma_written_char(s, q, rg, 0);
            lemma_arg_round_trip(s, p + head.len() + 1, *key);
            lemma_group_names_round_trip(s, q, group_names);
        },
        FunctionView::Country { arg } => {
            let head = "country"@;
            lemma_written_split(s, p, head + seq![FN_ARG_SEP], arg);
            lemma_written_split(s, p, head, seq![FN_ARG_SEP]);
            lemma_written_char(s, p + head.len(), seq![FN_ARG_SEP], 0);
            lemma_alnum_run(s, p, head, 0);
            assert(head != "group"@);
            lemma_alnum_run(s, p + head.len() + 1, arg, 0);
        },
        FunctionView::Unknown { name, args } => {
            let ra = render_args(args);
            lemma_written_split(s, p, name + seq![FN_ARG_SEP], ra);
            lemma_written_split(s, p, name, seq![FN_ARG_SEP]);
            lemma_written_char(s, p + name.len(), seq![FN_ARG_SEP], 0);
            lemma_alnum_run(s, p, name, 0);
            lemma_args_round_trip(s, p + name.len() + 1, args);
        },
    }
}

proof fn lemma_arg_round_trip(s: Seq<char>, p: int, e: ExprView)
    requires
        expr_wf(e),
        written_at(s, p, render_arg(e)),
        p + render_arg(e).len() == s.len() || !is_ascii_alnum(s[p + render_arg(e).len()]),
    ensures
        arg_at(s, p) == Some((p + render_arg(e).len(), e)),
        render_arg(e).len() > 0,
    decreases e, 1int,
{
    lemma_char_classes(' ');
    match e {
        ExprView::Name(n) => {
            lemma_written_char(s, p, render_name(n), 0);
            lemma_name_round_trip(s, p, n);
        },
        ExprView::Function(f) => {
            let rf = render_function(f);
            lemma_written_split(s, p, seq![FN_NEST_OPEN] + rf, seq![FN_NEST_CLOSE]);
            lemma_written_split(s, p, seq![FN_NEST_OPEN], rf);
            lemma_written_char(s, p, seq![FN_NEST_OPEN], 0);
            lemma_written_char(s, p + 1 + rf.len(), seq![FN_NEST_CLOSE], 0);
            lemma_function_round_trip(s, p + 1, f);
        },
    }
}

proof fn lemma_args_round_trip(s: Seq<char>, p: int, args: Seq<ExprView>)
    requires
        args.len() > 0,
        args_wf(args),
        written_at(s, p, render_args(args)),
        is_boundary(s, p + render_args(args).len()),
    ensures
        args_at(s, p) == Some((p + render_args(args).len(), args)),
    decreases args, 0int,
{
    lemma_char_classes(' ');
    let a = args[0];
    let rest = args.subrange(1, args.len() as int);
    let end = p + render_args(args).len();
    if args.len() == 1 {
        lemma_arg_round_trip(s, p, a);
        assert(args_tail(s, end) == (end, Seq::<ExprView>::empty()));
        assert(seq![a] + Seq::<ExprView>::empty() =~= args);
    } else {
        let ra = render_arg(a);
        lemma_written_split(s, p, ra + seq![FN_ARG_SEP], render_args(rest));
        lemma_written_split(s, p, ra, seq![FN_ARG_SEP]);
        lemma_written_char(s, p + ra.len(), seq![FN_ARG_SEP], 0);
        lemma_arg_round_trip(s, p, a);
        lemma_args_round_trip(s, p + ra.len() + 1, rest);
        assert(seq![a] + rest =~= args);
    }
}

proof fn lemma_expr_round_trip(s: Seq<char>, p: int, e: ExprView)
    requires
        expr_wf(e),
        written_at(s, p, render_expr(e)),
        is_boundary(s, p + render_expr(e).len()),
    ensures
        expr_at(s, p) == Some((p + render_expr(e).len(), e)),
        render_expr(e).len() > 0,
{
    lemma_char_classes(' ');
    match e {
        ExprView::Name(n) => {
            lemma_name_round_trip(s, p, n);
            assert(function_head(s, p) is None);
        },
        ExprView::Function(f) => {
            reveal_strlit("group");
            reveal_strlit("country");
            lemma_function_round_trip(s, p, f);
            match f {
                FunctionView::Group { .. } => assert(render_function(f).len() > 0),
                FunctionView::Country { .. } => assert(render_function(f).len() > 0),
                FunctionView::Unknown { name, args } => assert(render_function(f).len() > 0),
            }
        },
    }
}

proof fn lemma_exprs_round_trip(s: Seq<char>, p: int, es: Seq<ExprView>)
    requires
        es.len() > 0,
        forall|i: int| 0 <= i < es.len() ==> expr_wf(#[trigger] es[i]),
        written_at(s, p, render_definition(es)),
        is_boundary(s, p + render_definition(es).len()),
        p + render_definition(es).len() == s.len() || s[p + render_definition(es).len()]
            != KEY_DEF_SEP,
    ensures
        exprs_at(s, p) == Some((p + render_definition(es).len(), es)),
    decreases es.len(),
{
    lemma_char_classes(' ');
    let e = es[0];
    let rest = es.subrange(1, es.len() as int);
    let end = p + render_definition(es).len();
    if es.len() == 1 {
        lemma_expr_round_trip(s, p, e);
        assert(exprs_tail(s, end) == (end, Seq::<ExprView>::empty()));
        assert(seq![e] + Seq::<ExprView>::empty() =~= es);
    } else {
        let re = render_expr(e);
        lemma_written_split(s, p, re + seq![KEY_DEF_SEP], render_definition(rest));
        lemma_written_split(s, p, re, seq![KEY_DEF_SEP]);
        lemma_written_char(s, p + re.len(), seq![KEY_DEF_SEP], 0);
        lemma_expr_round_trip(s, p, e);
        assert forall|i: int| 0 <= i < rest.len() implies expr_wf(#[trigger] rest[i]) by {
            assert(rest[i] == es[i + 1]);
        }
        lemma_exprs_round_trip(s, p + re.len() + 1, rest);
        assert(seq![e] + rest =~= es);
    }
}

/// A written definition parses back to the expressions it was written from, in
/// the same order, for every non-empty list of well-formed expressions.
pub proof fn lemma_definition_round_trip(es: Seq<ExprView>)
    requires
        es.len() > 0,
        forall|i: int| 0 <= i < es.len() ==> expr_wf(#[trigger] es[i]),
    ensures
        definition_of(render_definition(es)) == Some(es),
{
    let s = render_definition(es);
    assert(s.subrange(0, s.len() as int) =~= s);
    lemma_exprs_round_trip(s, 0, es);
}

/// `group:<key>:<g1>:...:<gn>` parses, for any n of at least one, into a
/// group over that key whose group names are `g1` to `gn` in order.
pub proof fn lemma_group_round_trip(key: ExprView, group_names: Seq<Seq<char>>)
    requires
        expr_wf(key),
        group_names.len() > 0,
        forall|i: int| 0 <= i < group_names.len() ==> is_group_token(#[trigger] group_names[i]),
    ensures
        definition_of("group"@ + seq![FN_ARG_SEP] + render_arg(key) + render_group_names(group_names))
            == Some(seq![ExprView::Function(FunctionView::Group { key: Box::new(key), group_names })]),
{
    let e = ExprView::Function(FunctionView::Group { key: Box::new(key), group_names });
    lemma_definition_round_trip(seq![e]);
}

/// `group:<key>` with no group name is not a definition.
pub proof fn lemma_group_without_names_rejected(key: ExprView)
    requires
        expr_wf(key),
    ensures
        definition_of("group"@ + seq![FN_ARG_SEP] + render_arg(key)) is None,
{
    lemma_char_classes(' ');
    reveal_strlit("group");
    let head = "group"@;
    let ra = render_arg(key);
    let s = head + seq![FN_ARG_SEP] + ra;
    assert(s.subrange(0, s.len() as int) =~= s);
    lemma_written_split(s, 0, head + seq![FN_ARG_SEP], ra);
    lemma_written_split(s, 0, head, seq![FN_ARG_SEP]);
    lemma_written_char(s, head.len() as int, seq![FN_ARG_SEP], 0);
    lemma_alnum_run(s, 0, head, 0);
    lemma_arg_round_trip(s, head.len() + 1 as int, key);
    assert(group_names_at(s, s.len() as int).1.len() == 0);
    assert(group_at(s, head.len() + 1 as int) is None);
    assert(function_at(s, 0) is None);
    assert(exprs_tail(s, head.len() as int) == (head.len() as int, Seq::<ExprView>::empty()));
}

/// `country:<token>` parses into a country function whose argument is the
/// token itself, not resolved as a key name.
pub proof fn lemma_country_verbatim(arg: Seq<char>)
    requires
        is_key_token(arg),
    ensures
        definition_of("country"@ + seq![FN_ARG_SEP] + arg) == Some(
            seq![ExprView::Function(FunctionView::Country { arg })],
        ),
{
    lemma_definition_round_trip(seq![ExprView::Function(FunctionView::Country { arg })]);
}

/// `country` takes exactly one argument: `country:<t1>:<t2>` is not a
/// definition.
pub proof fn lemma_country_single_argument(t1: Seq<char>, t2: Seq<char>)
    requires
        is_key_token(t1),
        is_key_token(t2),
    ensures
        definition_of("country"@ + seq![FN_ARG_SEP] + t1 + seq![FN_ARG_SEP] + t2) is None,
{
    lemma_char_classes(' ');
    reveal_strlit("country");
    reveal_strlit("group");
    let head = "country"@;
    let s = head + seq![FN_ARG_SEP] + t1 + seq![FN_ARG_SEP] + t2;
    assert(s.subrange(0, s.len() as int) =~= s);
    lemma_written_split(s, 0, head + seq![FN_ARG_SEP] + t1 + seq![FN_ARG_SEP], t2);
    lemma_written_split(s, 0, head + seq![FN_ARG_SEP] + t1, seq![FN_ARG_SEP]);
    lemma_written_split(s, 0, head + seq![FN_ARG_SEP], t1);
    lemma_written_split(s, 0, head, seq![FN_ARG_SEP]);
    lemma_written_char(s, head.len() as int, seq![FN_ARG_SEP], 0);
    let q = (head.len() + 1 + t1.len()) as int;
    lemma_written_char(s, q, seq![FN_ARG_SEP], 0);
    lemma_alnum_run(s, 0, head, 0);
    lemma_alnum_run(s, head.len() + 1 as int, t1, 0);
    assert(function_at(s, 0) == Some((q, FunctionView::Country { arg: t1 })));
    assert(exprs_tail(s, q) == (q, Seq::<ExprView>::empty()));
}

/// An unknown function with well-formed arguments, nested calls included at
/// any depth, parses into that function with its arguments in order.
pub proof fn lemma_unknown_function_round_trip(name: Seq<char>, args: Seq<ExprView>)
    requires
        function_wf(FunctionView::Unknown { name, args }),
    ensures
        definition_of(name + seq![FN_ARG_SEP] + render_args(args)) == Some(
            seq![ExprView::Function(FunctionView::Unknown { name, args })],
        ),
{
    lemma_definition_round_trip(seq![ExprView::Function(FunctionView::Unknown { name, args })]);
}

/// Text after a valid definition makes the whole input invalid, although the
/// definition itself is still read from its start.
pub proof fn lemma_trailing_text_rejected(es: Seq<ExprView>, t: Seq<char>)
    requires
        es.len() > 0,
        forall|i: int| 0 <= i < es.len() ==> expr_wf(#[trigger] es[i]),
        t.len() > 0,
        !is_word_char(t[0]),
        t[0] != FN_ARG_SEP,
        t[0] != KEY_DEF_SEP,
    ensures
        exprs_at(render_definition(es) + t, 0) == Some((render_definition(es).len() as int, es)),
        definition_of(render_definition(es) + t) is None,
{
    let r = render_definition(es);
    let s = r + t;
    assert(s.subrange(0, r.len() as int) =~= r);
    assert(s[r.len() as int] == t[0]);
    lemma_exprs_round_trip(s, 0, es);
}

} // verus!
