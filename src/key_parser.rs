//! Parser for the flow key definition notation.
//!
//! A definition is a `,`-separated list of key expressions. An expression is a
//! key function call `name:arg:...` or a bare key name. A function argument is
//! a key name or a nested call in brackets, `[name:arg:...]`. `group` takes one
//! argument followed by one or more group names, `country` one raw token; any
//! other name is an unknown function taking one or more arguments.
use vstd::prelude::*;

use crate::key::{
    expr_view, exprs_view, function_view, name_view, resolve, strings_view, ExprView, FunctionView,
    KeyDefinition, KeyExpression, KeyFunction, KeyName, NameView,
};
use crate::key_function::{CountryKeyFunction, GroupKeyFunction, UnknownKeyFunction};
use crate::text::{ascii_alnum, char_is_alphanumeric, chars_of, is_alphanumeric, is_ascii_alnum, str_eq};

verus! {

/// Separator between the expressions of a definition.
pub const KEY_DEF_SEP: char = ',';

/// Separator between a function's name and its arguments, and between arguments.
pub const FN_ARG_SEP: char = ':';

/// Opens a nested function call.
pub const FN_NEST_OPEN: char = '[';

/// Closes a nested function call.
pub const FN_NEST_CLOSE: char = ']';

/// Why a key definition was rejected.
#[derive(Clone, Copy, Debug, PartialEq, Eq, Structural)]
pub enum ParseErrorKind {
    /// No key expression starts where one is required.
    ExpectedKeyExpression,
    /// A valid definition was read, but text follows it.
    TrailingInput,
}

/// A rejected key definition: the cause, and the input from the point where
/// parsing stopped.
#[derive(Clone, Debug, PartialEq)]
pub struct ParseError {
    pub kind: ParseErrorKind,
    pub remaining: String,
}

impl ParseError {
    /// A human-readable description of the cause.
    pub fn cause(&self) -> (r: &'static str)
        ensures
            self.kind == ParseErrorKind::ExpectedKeyExpression ==> r@ == "expected a key name or key function"@,
            self.kind == ParseErrorKind::TrailingInput ==> r@ == "unexpected input after the key definition"@,
    {
        match self.kind {
            ParseErrorKind::ExpectedKeyExpression => "expected a key name or key function",
            ParseErrorKind::TrailingInput => "unexpected input after the key definition",
        }
    }
}

/// The key functions with a parser of their own.
#[derive(Clone, Copy, Debug, PartialEq, Eq, Structural)]
pub enum FunctionKind {
    Group,
    Country,
}

/// The known function a name denotes, if any.
pub open spec fn function_kind(name: Seq<char>) -> Option<FunctionKind> {
    if name == "group"@ {
        Some(FunctionKind::Group)
    } else if name == "country"@ {
        Some(FunctionKind::Country)
    } else {
        None
    }
}

/// Looks a function name up in the table of known functions.
pub fn lookup_function_kind(name: &str) -> (r: Option<FunctionKind>)
    ensures
        r == function_kind(name@),
{
    if str_eq(name, "group") {
        Some(FunctionKind::Group)
    } else if str_eq(name, "country") {
        Some(FunctionKind::Country)
    } else {
        None
    }
}

/// A character allowed in a group name.
pub open spec fn is_word_char(c: char) -> bool {
    c == '_' || is_alphanumeric(c)
}

/// The end of the run of ASCII letters and digits that starts at `p`.
pub open spec fn alnum_end(s: Seq<char>, p: int) -> int
    decreases s.len() - p,
{
    if 0 <= p < s.len() && is_ascii_alnum(s[p]) {
        alnum_end(s, p + 1)
    } else {
        p
    }
}

/// The end of the run of group-name characters that starts at `p`.
pub open spec fn word_end(s: Seq<char>, p: int) -> int
    decreases s.len() - p,
{
    if 0 <= p < s.len() && is_word_char(s[p]) {
        word_end(s, p + 1)
    } else {
        p
    }
}

/// A key name at `p`: a non-empty alphanumeric token, resolved.
pub open spec fn name_at(s: Seq<char>, p: int) -> Option<(int, NameView)> {
    let e = alnum_end(s, p);
    if e > p {
        Some((e, resolve(s.subrange(p, e))))
    } else {
        None
    }
}

/// Where a function call starts at `p`: an alphanumeric token immediately
/// followed by the argument separator, whose position is returned.
pub open spec fn function_head(s: Seq<char>, p: int) -> Option<int> {
    let e = alnum_end(s, p);
    if e > p && e < s.len() && s[e] == FN_ARG_SEP {
        Some(e)
    } else {
        None
    }
}

/// A key function call at `p`, dispatched on its name.
pub open spec fn function_at(s: Seq<char>, p: int) -> Option<(int, FunctionView)>
    decreases s.len() - p, 3int,
{
    match function_head(s, p) {
        None => None,
        Some(e) => {
            let name = s.subrange(p, e);
            match function_kind(name) {
                Some(FunctionKind::Group) => group_at(s, e + 1),
                Some(FunctionKind::Country) => country_at(s, e + 1),
                None => match args_at(s, e + 1) {
                    Some((q, args)) => Some((q, FunctionView::Unknown { name, args })),
                    None => None,
                },
            }
        },
    }
}

/// One function argument at `p`: a nested call in brackets, or a key name.
pub open spec fn arg_at(s: Seq<char>, p: int) -> Option<(int, ExprView)>
    decreases s.len() - p, 0int,
{
    if 0 <= p < s.len() && s[p] == FN_NEST_OPEN {
        match function_at(s, p + 1) {
            Some((q, f)) => if 0 <= q < s.len() && s[q] == FN_NEST_CLOSE {
                Some((q + 1, ExprView::Function(f)))
            } else {
                None
            },
            None => None,
        }
    } else {
        match name_at(s, p) {
            Some((q, n)) => Some((q, ExprView::Name(n))),
            None => None,
        }
    }
}

/// The arguments of a `group` call after its name: the grouped argument,
/// then one or more group names.
pub open spec fn group_at(s: Seq<char>, p: int) -> Option<(int, FunctionView)>
    decreases s.len() - p, 1int,
{
    match arg_at(s, p) {
        None => None,
        Some((q, key)) => {
            let (r, names) = group_names_at(s, q);
            if names.len() > 0 {
                Some((r, FunctionView::Group { key: Box::new(key), group_names: names }))
            } else {
                None
            }
        },
    }
}

/// As many `:<name>` group names as follow `q`.
pub open spec fn group_names_at(s: Seq<char>, q: int) -> (int, Seq<Seq<char>>)
    decreases s.len() - q,
{
    if 0 <= q < s.len() && s[q] == FN_ARG_SEP && q + 1 < word_end(s, q + 1) <= s.len() {
        let e = word_end(s, q + 1);
        let (r, rest) = group_names_at(s, e);
        (r, seq![s.subrange(q + 1, e)] + rest)
    } else {
        (q, seq![])
    }
}

/// The argument of a `country` call after its name: one raw token.
pub open spec fn country_at(s: Seq<char>, p: int) -> Option<(int, FunctionView)> {
    let e = alnum_end(s, p);
    if e > p {
        Some((e, FunctionView::Country { arg: s.subrange(p, e) }))
    } else {
        None
    }
}

/// One or more `:`-separated function arguments from `p`.
pub open spec fn args_at(s: Seq<char>, p: int) -> Option<(int, Seq<ExprView>)>
    decreases s.len() - p, 1int,
{
    match arg_at(s, p) {
        None => None,
        Some((q, a)) => if p < q <= s.len() {
            let (r, rest) = args_tail(s, q);
            Some((r, seq![a] + rest))
        } else {
            None
        },
    }
}

/// The further arguments after one ending at `q`: none unless a separator and
/// a well-formed argument list follow.
pub open spec fn args_tail(s: Seq<char>, q: int) -> (int, Seq<ExprView>)
    decreases s.len() - q, 2int,
{
    if 0 <= q < s.len() && s[q] == FN_ARG_SEP {
        match args_at(s, q + 1) {
            Some((r, rest)) => (r, rest),
            None => (q, seq![]),
        }
    } else {
        (q, seq![])
    }
}

/// A key expression at `p`: a function call if one starts there, else a key
/// name.
pub open spec fn expr_at(s: Seq<char>, p: int) -> Option<(int, ExprView)> {
    match function_at(s, p) {
        Some((q, f)) => Some((q, ExprView::Function(f))),
        None => match name_at(s, p) {
            Some((q, n)) => Some((q, ExprView::Name(n))),
            None => None,
        },
    }
}

/// One or more `,`-separated key expressions from `p`.
pub open spec fn exprs_at(s: Seq<char>, p: int) -> Option<(int, Seq<ExprView>)>
    decreases s.len() - p, 1int,
{
    match expr_at(s, p) {
        None => None,
        Some((q, e)) => if p < q <= s.len() {
            let (r, rest) = exprs_tail(s, q);
            Some((r, seq![e] + rest))
        } else {
            None
        },
    }
}

/// The further expressions after one ending at `q`.
pub open spec fn exprs_tail(s: Seq<char>, q: int) -> (int, Seq<ExprView>)
    decreases s.len() - q, 0int,
{
    if 0 <= q < s.len() && s[q] == KEY_DEF_SEP {
        match exprs_at(s, q + 1) {
            Some((r, rest)) => (r, rest),
            None => (q, seq![]),
        }
    } else {
        (q, seq![])
    }
}

/// The end of the run of ASCII letters and digits that starts at `p`.
fn alnum_end_at(cs: &Vec<char>, p: usize) -> (e: usize)
    requires
        p <= cs.len(),
    ensures
        e == alnum_end(cs@, p as int),
        p <= e <= cs.len(),
{
    let mut e = p;
    while e < cs.len() && ascii_alnum(cs[e])
        invariant
            p <= e <= cs.len(),
            alnum_end(cs@, e as int) == alnum_end(cs@, p as int),
        decreases cs.len() - e,
    {
        e = e + 1;
    }
    e
}

/// The end of the run of group-name characters that starts at `p`.
fn word_end_at(cs: &Vec<char>, p: usize) -> (e: usize)
    requires
        p <= cs.len(),
    ensures
        e == word_end(cs@, p as int),
        p <= e <= cs.len(),
{
    let mut e = p;
    while e < cs.len() && (cs[e] == '_' || char_is_alphanumeric(cs[e]))
        invariant
            p <= e <= cs.len(),
            word_end(cs@, e as int) == word_end(cs@, p as int),
        decreases cs.len() - e,
    {
        e = e + 1;
    }
    e
}

/// Parses a key name at `p`, known or not.
fn parse_key_name_or_unknown(input: &str, cs: &Vec<char>, p: usize) -> (r: Option<(usize, KeyName)>)
    requires
        cs@ == input@,
        p <= cs.len(),
    ensures
        match r {
            Some((q, k)) => name_at(cs@, p as int) == Some((q as int, name_view(k))) && p < q
                <= cs.len(),
            None => name_at(cs@, p as int) is None,
        },
{
    let e = alnum_end_at(cs, p);
    if e > p {
        Some((e, KeyName::resolve(input.substring_char(p, e))))
    } else {
        None
    }
}

/// Peeks at a function call starting at `p`: returns the position of the
/// separator after its name, consuming nothing.
fn peek_function_name(cs: &Vec<char>, p: usize) -> (r: Option<usize>)
    requires
        p <= cs.len(),
    ensures
        r matches Some(e) ==> p < e < cs.len(),
        r is Some ==> function_head(cs@, p as int) == Some(r.unwrap() as int),
        r is None ==> function_head(cs@, p as int) is None,
{
    let e = alnum_end_at(cs, p);
    if e > p && e < cs.len() && cs[e] == FN_ARG_SEP {
        Some(e)
    } else {
        None
    }
}

/// Parses the group names that follow `q`, each preceded by the separator.
fn parse_group_names(input: &str, cs: &Vec<char>, q: usize) -> (r: (usize, Vec<String>))
    requires
        cs@ == input@,
        q <= cs.len(),
    ensures
        group_names_at(cs@, q as int) == (r.0 as int, strings_view(r.1@)),
        q <= r.0 <= cs.len(),
{
    let mut names: Vec<String> = Vec::new();
    let mut pos = q;
    loop
        invariant
            cs@ == input@,
            q <= pos <= cs.len(),
            group_names_at(cs@, q as int) == (
                group_names_at(cs@, pos as int).0,
                strings_view(names@) + group_names_at(cs@, pos as int).1,
            ),
        decreases cs.len() - pos,
    {
        if pos < cs.len() && cs[pos] == FN_ARG_SEP {
            let e = word_end_at(cs, pos + 1);
            if e > pos + 1 {
                let ghost old_names = names@;
                names.push(input.substring_char(pos + 1, e).to_owned());
                proof {
                    assert(strings_view(names@) == strings_view(old_names).push(
                        cs@.subrange(pos + 1, e as int),
                    ));
                    let rest = group_names_at(cs@, e as int).1;
                    assert(strings_view(old_names) + (seq![cs@.subrange(pos + 1, e as int)] + rest)
                        == strings_view(names@) + rest);
                }
                pos = e;
                continue;
            }
        }
        assert(strings_view(names@) + seq![] == strings_view(names@));
        return (pos, names);
    }
}

proof fn lemma_exprs_view_push(v: Seq<KeyExpression>, e: KeyExpression)
    ensures
        exprs_view(v.push(e)) == exprs_view(v).push(expr_view(e)),
{
    assert(v.push(e).subrange(0, v.len() as int) == v);
}

/// Parses a key function call at `p`: peeks at its name, then hands over to
/// the parser of that function, which reads the name again.
fn parse_key_function(input: &str, cs: &Vec<char>, p: usize) -> (r: Option<(usize, KeyFunction)>)
    requires
        cs@ == input@,
        p <= cs.len(),
    ensures
        match r {
            Some((q, f)) => function_at(cs@, p as int) == Some((q as int, function_view(f))) && p
                < q <= cs.len(),
            None => function_at(cs@, p as int) is None,
        },
    decreases cs.len() - p, 3int,
{
    let e = match peek_function_name(cs, p) {
        Some(e) => e,
        None => return None,
    };
    match lookup_function_kind(input.substring_char(p, e)) {
        Some(FunctionKind::Group) => match GroupKeyFunction::parse_key_function(input, cs, e + 1) {
            Some((q, g)) => Some((q, KeyFunction::Group(g))),
            None => None,
        },
        Some(FunctionKind::Country) => match CountryKeyFunction::parse_key_function(
            input,
            cs,
            e + 1,
        ) {
            Some((q, c)) => Some((q, KeyFunction::Country(c))),
            None => None,
        },
        None => match UnknownKeyFunction::parse_key_function(input, cs, p) {
            Some((q, u)) => Some((q, KeyFunction::Unknown(u))),
            None => None,
        },
    }
}

/// Parses one function argument at `p`: a nested call in brackets, or a key
/// name.
fn parse_key_function_argument(input: &str, cs: &Vec<char>, p: usize) -> (r: Option<(usize, KeyExpression)>)
    requires
        cs@ == input@,
        p <= cs.len(),
    ensures
        match r {
            Some((q, a)) => arg_at(cs@, p as int) == Some((q as int, expr_view(a))) && p < q
                <= cs.len(),
            None => arg_at(cs@, p as int) is None,
        },
    decreases cs.len() - p, 0int,
{
    if p < cs.len() && cs[p] == FN_NEST_OPEN {
        match parse_key_function(input, cs, p + 1) {
            Some((q, f)) => if q < cs.len() && cs[q] == FN_NEST_CLOSE {
                Some((q + 1, KeyExpression::KeyFunction(f)))
            } else {
                None
            },
            None => None,
        }
    } else {
        match parse_key_name_or_unknown(input, cs, p) {
            Some((q, k)) => Some((q, KeyExpression::KeyName(k))),
            None => None,
        }
    }
}

impl CountryKeyFunction {
    /// Parses the argument of a `country` call, after its name and separator.
    fn parse_key_function(input: &str, cs: &Vec<char>, p: usize) -> (r: Option<(usize, CountryKeyFunction)>)
        requires
            cs@ == input@,
            p <= cs.len(),
        ensures
            match r {
                Some((q, c)) => country_at(cs@, p as int) == Some(
                    (q as int, function_view(KeyFunction::Country(c))),
                ) && p < q <= cs.len(),
                None => country_at(cs@, p as int) is None,
            },
    {
        let e = alnum_end_at(cs, p);
        if e > p {
            Some((e, CountryKeyFunction { arg: input.substring_char(p, e).to_owned() }))
        } else {
            None
        }
    }
}

impl GroupKeyFunction {
    /// Parses what follows `group` and its separator: the grouped argument, then
    /// one or more group names.
    fn parse_key_function(input: &str, cs: &Vec<char>, p: usize) -> (r: Option<(usize, GroupKeyFunction)>)
        requires
            cs@ == input@,
            p <= cs.len(),
        ensures
            match r {
                Some((q, g)) => group_at(cs@, p as int) == Some(
                    (q as int, function_view(KeyFunction::Group(g))),
                ) && p < q <= cs.len(),
                None => group_at(cs@, p as int) is None,
            },
        decreases cs.len() - p, 1int,
    {
        match parse_key_function_argument(input, cs, p) {
            None => None,
            Some((q, key)) => {
                let (r, group_names) = parse_group_names(input, cs, q);
                if group_names.len() > 0 {
                    Some((r, GroupKeyFunction { key: Box::new(key), group_names }))
                } else {
                    None
                }
            },
        }
    }
}

impl UnknownKeyFunction {
    /// Parses a call of an unknown function at `p`: its name, the separator,
    /// then one or more arguments.
    fn parse_key_function(input: &str, cs: &Vec<char>, p: usize) -> (r: Option<(usize, UnknownKeyFunction)>)
        requires
            cs@ == input@,
            p <= cs.len(),
        ensures
            match r {
                Some((q, u)) => function_head(cs@, p as int) matches Some(e) && args_at(cs@, e + 1)
                    == Some((q as int, exprs_view(u.args@))) && u.function_name@ == cs@.subrange(
                    p as int,
                    e,
                ) && p < q <= cs.len(),
                None => function_head(cs@, p as int) matches Some(e) ==> args_at(cs@, e + 1) is None,
            },
        decreases cs.len() - p, 2int,
    {
        let e = match peek_function_name(cs, p) {
            Some(e) => e,
            None => return None,
        };
        match parse_key_function_arguments(input, cs, e + 1) {
            Some((q, args)) => Some(
                (q, UnknownKeyFunction { function_name: input.substring_char(p, e).to_owned(), args }),
            ),
            None => None,
        }
    }
}

/// Parses one or more function arguments from `p`, separated by the argument
/// separator.
fn parse_key_function_arguments(input: &str, cs: &Vec<char>, p: usize) -> (r: Option<(usize, Vec<KeyExpression>)>)
    requires
        cs@ == input@,
        p <= cs.len(),
    ensures
        match r {
            Some((q, args)) => args_at(cs@, p as int) == Some((q as int, exprs_view(args@))) && p
                < q <= cs.len(),
            None => args_at(cs@, p as int) is None,
        },
    decreases cs.len() - p, 1int,
{
    let (q, first) = match parse_key_function_argument(input, cs, p) {
        Some(x) => x,
        None => return None,
    };
    let mut args: Vec<KeyExpression> = Vec::new();
    proof {
        lemma_exprs_view_push(args@, first);
    }
    args.push(first);
    let mut pos = q;
    assert(exprs_view(args@) == seq![expr_view(first)]);
    loop
        invariant
            cs@ == input@,
            p < pos <= cs.len(),
            args_at(cs@, p as int) == Some(
                (args_tail(cs@, pos as int).0, exprs_view(args@) + args_tail(cs@, pos as int).1),
            ),
        decreases cs.len() - pos,
    {
        if pos < cs.len() && cs[pos] == FN_ARG_SEP {
            if let Some((q2, a)) = parse_key_function_argument(input, cs, pos + 1) {
                proof {
                    lemma_exprs_view_push(args@, a);
                    let tail = args_tail(cs@, q2 as int);
                    assert(exprs_view(args@) + (seq![expr_view(a)] + tail.1) == exprs_view(args@).push(
                        expr_view(a),
                    ) + tail.1);
                }
                args.push(a);
                pos = q2;
                continue;
            }
        }
        assert(exprs_view(args@) + seq![] == exprs_view(args@));
        return Some((pos, args));
    }
}

/// The definition a whole text denotes: the expressions read from its start,
/// provided they span the whole text.
pub open spec fn definition_of(s: Seq<char>) -> Option<Seq<ExprView>> {
    match exprs_at(s, 0) {
        Some((q, es)) => if q == s.len() {
            Some(es)
        } else {
            None
        },
        None => None,
    }
}

/// Parses a key expression at `p`: a function call if one starts there,
/// else a key name.
fn parse_key_expression(input: &str, cs: &Vec<char>, p: usize) -> (r: Option<(usize, KeyExpression)>)
    requires
        cs@ == input@,
        p <= cs.len(),
    ensures
        match r {
            Some((q, e)) => expr_at(cs@, p as int) == Some((q as int, expr_view(e))) && p < q
                <= cs.len(),
            None => expr_at(cs@, p as int) is None,
        },
{
    match parse_key_function(input, cs, p) {
        Some((q, f)) => Some((q, KeyExpression::KeyFunction(f))),
        None => match parse_key_name_or_unknown(input, cs, p) {
            Some((q, k)) => Some((q, KeyExpression::KeyName(k))),
            None => None,
        },
    }
}

/// Parses the longest prefix of `input` that is a key definition. On success,
/// returns the text after that prefix together with the definition; fails only
/// when no key expression starts the input.
pub fn parse_key_definition<'a>(input: &'a str) -> (r: Result<(&'a str, KeyDefinition), ParseError>)
    ensures
        match exprs_at(input@, 0) {
            Some((q, es)) => 0 < q <= input@.len() && (r matches Ok((rest, d)) && rest@
                == input@.subrange(q, input@.len() as int) && exprs_view(d.keys@) == es),
            None => r matches Err(e) && e.kind == ParseErrorKind::ExpectedKeyExpression
                && e.remaining@ == input@,
        },
{
    let cs = chars_of(input);
    let (q, first) = match parse_key_expression(input, &cs, 0) {
        Some(x) => x,
        None => {
            return Err(
                ParseError { kind: ParseErrorKind::ExpectedKeyExpression, remaining: input.to_owned() },
            );
        },
    };
    let mut keys: Vec<KeyExpression> = Vec::new();
    proof {
        lemma_exprs_view_push(keys@, first);
    }
    keys.push(first);
    let mut pos = q;
    loop
        invariant
            cs@ == input@,
            0 < pos <= cs.len(),
            exprs_at(cs@, 0) == Some(
                (exprs_tail(cs@, pos as int).0, exprs_view(keys@) + exprs_tail(cs@, pos as int).1),
            ),
        decreases cs.len() - pos,
    {
        if pos < cs.len() && cs[pos] == KEY_DEF_SEP {
            if let Some((q2, e)) = parse_key_expression(input, &cs, pos + 1) {
                proof {
                    lemma_exprs_view_push(keys@, e);
                    let tail = exprs_tail(cs@, q2 as int);
                    assert(exprs_view(keys@) + (seq![expr_view(e)] + tail.1) == exprs_view(keys@).push(
                        expr_view(e),
                    ) + tail.1);
                }
                keys.push(e);
                pos = q2;
                continue;
            }
        }
        assert(exprs_view(keys@) + seq![] == exprs_view(keys@));
        return Ok((input.substring_char(pos, cs.len()), KeyDefinition { keys }));
    }
}

/// Takes the outcome of a prefix parse and makes its remaining text owned.
pub fn finish_nom_parse<T>(result: Result<(&str, T), ParseError>) -> (r: Result<(String, T), ParseError>)
    ensures
        match result {
            Ok((rest, v)) => r matches Ok((owned, w)) && owned@ == rest@ && w == v,
            Err(e) => r == Err::<(String, T), ParseError>(e),
        },
{
    match result {
        Ok((rest, v)) => Ok((rest.to_owned(), v)),
        Err(e) => Err(e),
    }
}

/// Parses a whole key definition. Text left over after the longest valid
/// prefix is an error of its own kind, carrying that text.
pub fn parse_definition(input: &str) -> (r: Result<KeyDefinition, ParseError>)
    ensures
        match exprs_at(input@, 0) {
            Some((q, es)) => if q == input@.len() {
                r matches Ok(d) && exprs_view(d.keys@) == es
            } else {
                r matches Err(e) && e.kind == ParseErrorKind::TrailingInput && e.remaining@
                    == input@.subrange(q, input@.len() as int)
            },
            None => r matches Err(e) && e.kind == ParseErrorKind::ExpectedKeyExpression
                && e.remaining@ == input@,
        },
        r is Ok <==> definition_of(input@) is Some,
        r matches Ok(d) ==> definition_of(input@) == Some(exprs_view(d.keys@)),
{
    match finish_nom_parse(parse_key_definition(input)) {
        Ok((rest, d)) => if rest.unicode_len() == 0 {
            Ok(d)
        } else {
            Err(ParseError { kind: ParseErrorKind::TrailingInput, remaining: rest })
        },
        Err(e) => Err(e),
    }
}

} // verus!
