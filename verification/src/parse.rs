//! The interface parser: decomposes the textual form of an interface
//! definition — a `trait` construct holding method signatures — into the
//! interface name and the ordered raw method declarations, each with its
//! parameter list, optional return type and streaming annotation.
//!
//! Grammar, with whitespace allowed between tokens:
//!
//! ```text
//! interface := "trait" ident "{" item* "}"
//! item      := attr* "fn" ident "(" params ")" ("->" type)? ";"
//!            | tokens ";"                                (not a method: skipped)
//! attr      := "#" "[" ident "]"
//! params    := param ("," param)* | ""
//! param     := pattern ":" type
//! ```
//!
//! Parameter and type text is carried through verbatim (the normalizer trims
//! surrounding whitespace); commas and arrows nested in parentheses, square
//! brackets or angle brackets do not end a type. A method is streamed by the
//! server exactly when one of its attributes is `server_streaming`; other
//! attributes are allowed and ignored. An item that does not start with `fn`
//! is skipped up to the `;` that closes it.

use vstd::prelude::*;
use vstd::string::*;

use crate::text::all_ws;
use crate::text::all_ws_str;
use crate::text::ident_end;
use crate::text::ident_end_at;
use crate::text::ident_start_char;
use crate::text::is_ident_start;
use crate::text::lemma_ident_end_at;
use crate::text::lemma_skip_ws_at;
use crate::text::skip_ws;
use crate::text::skip_ws_at;
use crate::text::span_eq;
use crate::text::trim_str;
use crate::text::trimmed;
use crate::views::lemma_seq_deep_view_cons;
use crate::views::lemma_vec_deep_view;
use crate::TransformError;

verus! {

/// A raw method declaration, as handed to the normalizer: the method name,
/// the raw text of each formal parameter, the trimmed return type text if one
/// was declared, and whether the declaration carried the `server_streaming`
/// attribute.
pub ghost struct RawMethodModel {
    pub name: Seq<char>,
    pub params: Seq<Seq<char>>,
    pub ret: Option<Seq<char>>,
    pub server_streaming: bool,
}

/// A parsed interface definition: its name and its method declarations in
/// declaration order.
pub ghost struct InterfaceModel {
    pub name: Seq<char>,
    pub methods: Seq<RawMethodModel>,
}

/// Executable counterpart of [`RawMethodModel`].
#[derive(Debug)]
pub struct RawMethod {
    pub name: String,
    pub params: Vec<String>,
    pub ret: Option<String>,
    pub server_streaming: bool,
}

impl View for RawMethod {
    type V = RawMethodModel;

    open spec fn view(&self) -> RawMethodModel {
        RawMethodModel {
            name: self.name@,
            params: self.params.deep_view(),
            ret: self.ret.deep_view(),
            server_streaming: self.server_streaming,
        }
    }
}

impl DeepView for RawMethod {
    type V = RawMethodModel;

    open spec fn deep_view(&self) -> RawMethodModel {
        self.view()
    }
}

/// Executable counterpart of [`InterfaceModel`].
#[derive(Debug)]
pub struct RawInterface {
    pub name: String,
    pub methods: Vec<RawMethod>,
}

impl View for RawInterface {
    type V = InterfaceModel;

    open spec fn view(&self) -> InterfaceModel {
        InterfaceModel { name: self.name@, methods: self.methods.deep_view() }
    }
}

/// Position of the first `t1` or `t2` at or after `i` that stands at bracket
/// depth zero, counting `(`, `[`, `<` as opening and `)`, `]`, `>` as closing
/// and stepping over `->` whole; `None` on unbalanced text or when no
/// terminator is found.
pub open spec fn scan_type_end(s: Seq<char>, i: int, depth: int, t1: char, t2: char) -> Option<
    int,
>
    decreases s.len() - i,
{
    if !(0 <= i < s.len()) {
        None
    } else if depth == 0 && (s[i] == t1 || s[i] == t2) {
        Some(i)
    } else if s[i] == '-' && i + 1 < s.len() && s[i + 1] == '>' {
        scan_type_end(s, i + 2, depth, t1, t2)
    } else if s[i] == '(' || s[i] == '[' || s[i] == '<' {
        scan_type_end(s, i + 1, depth + 1, t1, t2)
    } else if s[i] == ')' || s[i] == ']' || s[i] == '>' {
        if depth == 0 {
            None
        } else {
            scan_type_end(s, i + 1, depth - 1, t1, t2)
        }
    } else {
        scan_type_end(s, i + 1, depth, t1, t2)
    }
}

pub proof fn lemma_scan_type_end(s: Seq<char>, i: int, depth: int, t1: char, t2: char)
    ensures
        scan_type_end(s, i, depth, t1, t2) matches Some(j) ==> i <= j < s.len() && (s[j] == t1
            || s[j] == t2),
    decreases s.len() - i,
{
    if 0 <= i < s.len() {
        if depth == 0 && (s[i] == t1 || s[i] == t2) {
        } else if s[i] == '-' && i + 1 < s.len() && s[i + 1] == '>' {
            lemma_scan_type_end(s, i + 2, depth, t1, t2);
        } else if s[i] == '(' || s[i] == '[' || s[i] == '<' {
            lemma_scan_type_end(s, i + 1, depth + 1, t1, t2);
        } else if s[i] == ')' || s[i] == ']' || s[i] == '>' {
            if depth != 0 {
                lemma_scan_type_end(s, i + 1, depth - 1, t1, t2);
            }
        } else {
            lemma_scan_type_end(s, i + 1, depth, t1, t2);
        }
    }
}

/// Executable counterpart of [`scan_type_end`].
pub fn scan_type(s: &str, i: usize, depth: usize, t1: char, t2: char, n: usize) -> (r: Option<
    usize,
>)
    requires
        depth <= i <= n,
        n == s@.len(),
    ensures
        match r {
            Some(j) => scan_type_end(s@, i as int, depth as int, t1, t2) == Some(j as int) && i
                <= j < n && (s@[j as int] == t1 || s@[j as int] == t2),
            None => scan_type_end(s@, i as int, depth as int, t1, t2) is None,
        },
    decreases n - i,
{
    if i >= n {
        return None;
    }
    let c = s.get_char(i);
    if depth == 0 && (c == t1 || c == t2) {
        Some(i)
    } else if c == '-' && i + 1 < n && s.get_char(i + 1) == '>' {
        scan_type(s, i + 2, depth, t1, t2, n)
    } else if c == '(' || c == '[' || c == '<' {
        scan_type(s, i + 1, depth + 1, t1, t2, n)
    } else if c == ')' || c == ']' || c == '>' {
        if depth == 0 {
            None
        } else {
            scan_type(s, i + 1, depth - 1, t1, t2, n)
        }
    } else {
        scan_type(s, i + 1, depth, t1, t2, n)
    }
}

/// Position of the first `;` at or after `i` at bracket depth zero, counting
/// `(`, `[`, `{` as opening and `)`, `]`, `}` as closing; used to step over a
/// non-method item.
pub open spec fn scan_item_end(s: Seq<char>, i: int, depth: int) -> Option<int>
    decreases s.len() - i,
{
    if !(0 <= i < s.len()) {
        None
    } else if depth == 0 && s[i] == ';' {
        Some(i)
    } else if s[i] == '(' || s[i] == '[' || s[i] == '{' {
        scan_item_end(s, i + 1, depth + 1)
    } else if s[i] == ')' || s[i] == ']' || s[i] == '}' {
        if depth == 0 {
            None
        } else {
            scan_item_end(s, i + 1, depth - 1)
        }
    } else {
        scan_item_end(s, i + 1, depth)
    }
}

pub proof fn lemma_scan_item_end(s: Seq<char>, i: int, depth: int)
    ensures
        scan_item_end(s, i, depth) matches Some(j) ==> i <= j < s.len(),
    decreases s.len() - i,
{
    if 0 <= i < s.len() {
        if depth == 0 && s[i] == ';' {
        } else if s[i] == '(' || s[i] == '[' || s[i] == '{' {
            lemma_scan_item_end(s, i + 1, depth + 1);
        } else if s[i] == ')' || s[i] == ']' || s[i] == '}' {
            if depth != 0 {
                lemma_scan_item_end(s, i + 1, depth - 1);
            }
        } else {
            lemma_scan_item_end(s, i + 1, depth);
        }
    }
}

/// Executable counterpart of [`scan_item_end`].
pub fn scan_item(s: &str, i: usize, depth: usize, n: usize) -> (r: Option<usize>)
    requires
        depth <= i <= n,
        n == s@.len(),
    ensures
        match r {
            Some(j) => scan_item_end(s@, i as int, depth as int) == Some(j as int) && i <= j
                < n,
            None => scan_item_end(s@, i as int, depth as int) is None,
        },
    decreases n - i,
{
    if i >= n {
        return None;
    }
    let c = s.get_char(i);
    if depth == 0 && c == ';' {
        Some(i)
    } else if c == '(' || c == '[' || c == '{' {
        scan_item(s, i + 1, depth + 1, n)
    } else if c == ')' || c == ']' || c == '}' {
        if depth == 0 {
            None
        } else {
            scan_item(s, i + 1, depth - 1, n)
        }
    } else {
        scan_item(s, i + 1, depth, n)
    }
}

/// The parameter list from position `i` (just after the opening parenthesis)
/// up to the closing parenthesis: the raw text of each parameter, split on
/// depth-zero commas, and the position just after the closing parenthesis.
/// An empty, all-whitespace list yields no parameters; otherwise every piece
/// counts, so a trailing comma yields an (invalid) empty last parameter.
pub open spec fn parse_params_at(s: Seq<char>, i: int, first: bool) -> Option<
    (Seq<Seq<char>>, int),
>
    decreases s.len() - i,
    via parse_params_at_dec
{
    match scan_type_end(s, i, 0, ',', ')') {
        None => None,
        Some(j) => {
            if s[j] == ')' {
                if first && all_ws(s.subrange(i, j)) {
                    Some((Seq::empty(), j + 1))
                } else {
                    Some((seq![s.subrange(i, j)], j + 1))
                }
            } else {
                match parse_params_at(s, j + 1, false) {
                    None => None,
                    Some((rest, e)) => Some((seq![s.subrange(i, j)] + rest, e)),
                }
            }
        },
    }
}

#[via_fn]
proof fn parse_params_at_dec(s: Seq<char>, i: int, first: bool) {
    lemma_scan_type_end(s, i, 0, ',', ')');
}

pub proof fn lemma_parse_params_at(s: Seq<char>, i: int, first: bool)
    ensures
        parse_params_at(s, i, first) matches Some((ps, e)) ==> i < e <= s.len(),
    decreases s.len() - i,
{
    lemma_scan_type_end(s, i, 0, ',', ')');
    match scan_type_end(s, i, 0, ',', ')') {
        None => {},
        Some(j) => {
            if s[j] != ')' {
                lemma_parse_params_at(s, j + 1, false);
            }
        },
    }
}

/// Executable counterpart of [`parse_params_at`].
pub fn parse_params(s: &str, i: usize, first: bool, n: usize) -> (r: Option<(Vec<String>, usize)>)
    requires
        i <= n,
        n == s@.len(),
    ensures
        match r {
            Some((ps, e)) => parse_params_at(s@, i as int, first) == Some(
                (ps.deep_view(), e as int),
            ) && i < e <= n,
            None => parse_params_at(s@, i as int, first) is None,
        },
    decreases n - i,
{
    match scan_type(s, i, 0, ',', ')', n) {
        None => None,
        Some(j) => {
            let piece = s.substring_char(i, j);
            if s.get_char(j) == ')' {
                if first && all_ws_str(piece) {
                    let ps: Vec<String> = Vec::new();
                    proof {
                        assert(ps.deep_view() =~= Seq::<Seq<char>>::empty());
                    }
                    Some((ps, j + 1))
                } else {
                    let mut ps: Vec<String> = Vec::new();
                    ps.push(piece.to_owned());
                    proof {
                        assert(ps.deep_view() =~= seq![s@.subrange(i as int, j as int)]);
                    }
                    Some((ps, j + 1))
                }
            } else {
                match parse_params(s, j + 1, false, n) {
                    None => None,
                    Some((mut rest, e)) => {
                        let ghost rest_snap = rest;
                        let head = piece.to_owned();
                        let ghost head_snap = head;
                        let mut ps: Vec<String> = Vec::new();
                        ps.push(head);
                        ps.append(&mut rest);
                        proof {
                            lemma_vec_deep_view(ps);
                            lemma_vec_deep_view(rest_snap);
                            lemma_seq_deep_view_cons(head_snap, rest_snap@);
                            assert(ps.deep_view() =~= seq![s@.subrange(i as int, j as int)]
                                + rest_snap.deep_view());
                        }
                        Some((ps, e))
                    },
                }
            }
        },
    }
}

/// The attribute list from position `i`: whether any attribute is
/// `server_streaming` (or `acc` was already set), and the position of the
/// first non-whitespace character after the attributes.
pub open spec fn parse_attrs_at(s: Seq<char>, i: int, acc: bool) -> Option<(bool, int)>
    decreases s.len() - i,
    via parse_attrs_at_dec
{
    let a = skip_ws_at(s, i);
    if 0 <= a < s.len() && s[a] == '#' {
        let b = skip_ws_at(s, a + 1);
        if 0 <= b < s.len() && s[b] == '[' {
            let c0 = skip_ws_at(s, b + 1);
            let e = ident_end_at(s, c0);
            if e > c0 && is_ident_start(s[c0]) {
                let d = skip_ws_at(s, e);
                if 0 <= d < s.len() && s[d] == ']' {
                    parse_attrs_at(s, d + 1, acc || s.subrange(c0, e) == "server_streaming"@)
                } else {
                    None
                }
            } else {
                None
            }
        } else {
            None
        }
    } else {
        Some((acc, a))
    }
}

#[via_fn]
proof fn parse_attrs_at_dec(s: Seq<char>, i: int, acc: bool) {
    if 0 <= i <= s.len() {
        lemma_skip_ws_at(s, i);
        let a = skip_ws_at(s, i);
        if a < s.len() {
            lemma_skip_ws_at(s, a + 1);
            let b = skip_ws_at(s, a + 1);
            if b < s.len() {
                lemma_skip_ws_at(s, b + 1);
                let c0 = skip_ws_at(s, b + 1);
                lemma_ident_end_at(s, c0);
                let e = ident_end_at(s, c0);
                if e <= s.len() {
                    lemma_skip_ws_at(s, e);
                }
            }
        }
    }
}

pub proof fn lemma_parse_attrs_at(s: Seq<char>, i: int, acc: bool)
    requires
        0 <= i <= s.len(),
    ensures
        parse_attrs_at(s, i, acc) matches Some((ss, a)) ==> i <= a <= s.len(),
    decreases s.len() - i,
{
    lemma_skip_ws_at(s, i);
    let a = skip_ws_at(s, i);
    if a < s.len() && s[a] == '#' {
        lemma_skip_ws_at(s, a + 1);
        let b = skip_ws_at(s, a + 1);
        if b < s.len() && s[b] == '[' {
            lemma_skip_ws_at(s, b + 1);
            let c0 = skip_ws_at(s, b + 1);
            lemma_ident_end_at(s, c0);
            let e = ident_end_at(s, c0);
            if e > c0 && is_ident_start(s[c0]) {
                lemma_skip_ws_at(s, e);
                let d = skip_ws_at(s, e);
                if d < s.len() && s[d] == ']' {
                    lemma_parse_attrs_at(s, d + 1, acc || s.subrange(c0, e)
                        == "server_streaming"@);
                }
            }
        }
    }
}

/// Executable counterpart of [`parse_attrs_at`].
pub fn parse_attrs(s: &str, i: usize, acc: bool, n: usize) -> (r: Option<(bool, usize)>)
    requires
        i <= n,
        n == s@.len(),
    ensures
        match r {
            Some((ss, a)) => parse_attrs_at(s@, i as int, acc) == Some((ss, a as int)) && i <= a
                <= n,
            None => parse_attrs_at(s@, i as int, acc) is None,
        },
    decreases n - i,
{
    let a = skip_ws(s, i, n);
    if a < n && s.get_char(a) == '#' {
        let b = skip_ws(s, a + 1, n);
        if b < n && s.get_char(b) == '[' {
            let c0 = skip_ws(s, b + 1, n);
            let e = ident_end(s, c0, n);
            if e > c0 && ident_start_char(s.get_char(c0)) {
                let d = skip_ws(s, e, n);
                if d < n && s.get_char(d) == ']' {
                    let acc2 = acc || span_eq(s, c0, e, "server_streaming");
                    parse_attrs(s, d + 1, acc2, n)
                } else {
                    None
                }
            } else {
                None
            }
        } else {
            None
        }
    } else {
        Some((acc, a))
    }
}

/// A method signature from position `i` (just after the `fn` keyword): the
/// raw method declaration and the position just after its closing `;`. The
/// declared return type, if any, is trimmed and must not be empty.
pub open spec fn parse_sig_at(s: Seq<char>, i: int, ss: bool) -> Option<(RawMethodModel, int)> {
    let b = skip_ws_at(s, i);
    let e = ident_end_at(s, b);
    if e > b && is_ident_start(s[b]) {
        let name = s.subrange(b, e);
        let c = skip_ws_at(s, e);
        if 0 <= c < s.len() && s[c] == '(' {
            match parse_params_at(s, c + 1, true) {
                None => None,
                Some((ps, d)) => {
                    let f = skip_ws_at(s, d);
                    if 0 <= f && f + 1 < s.len() && s[f] == '-' && s[f + 1] == '>' {
                        match scan_type_end(s, f + 2, 0, ';', ';') {
                            None => None,
                            Some(g) => {
                                let ty = trimmed(s.subrange(f + 2, g));
                                if ty.len() == 0 {
                                    None
                                } else {
                                    Some(
                                        (
                                            RawMethodModel {
                                                name,
                                                params: ps,
                                                ret: Some(ty),
                                                server_streaming: ss,
                                            },
                                            g + 1,
                                        ),
                                    )
                                }
                            },
                        }
                    } else if 0 <= f < s.len() && s[f] == ';' {
                        Some(
                            (
                                RawMethodModel {
                                    name,
                                    params: ps,
                                    ret: None,
                                    server_streaming: ss,
                                },
                                f + 1,
                            ),
                        )
                    } else {
                        None
                    }
                },
            }
        } else {
            None
        }
    } else {
        None
    }
}

pub proof fn lemma_parse_sig_at(s: Seq<char>, i: int, ss: bool)
    requires
        0 <= i <= s.len(),
    ensures
        parse_sig_at(s, i, ss) matches Some((m, j)) ==> i < j <= s.len(),
{
    lemma_skip_ws_at(s, i);
    let b = skip_ws_at(s, i);
    lemma_ident_end_at(s, b);
    let e = ident_end_at(s, b);
    if e > b && is_ident_start(s[b]) {
        lemma_skip_ws_at(s, e);
        let c = skip_ws_at(s, e);
        if c < s.len() && s[c] == '(' {
            lemma_parse_params_at(s, c + 1, true);
            match parse_params_at(s, c + 1, true) {
                None => {},
                Some((ps, d)) => {
                    lemma_skip_ws_at(s, d);
                    let f = skip_ws_at(s, d);
                    if f + 1 < s.len() && s[f] == '-' && s[f + 1] == '>' {
                        lemma_scan_type_end(s, f + 2, 0, ';', ';');
                    }
                },
            }
        }
    }
}

/// Executable counterpart of [`parse_sig_at`].
pub fn parse_sig(s: &str, i: usize, ss: bool, n: usize) -> (r: Option<(RawMethod, usize)>)
    requires
        i <= n,
        n == s@.len(),
    ensures
        match r {
            Some((m, j)) => parse_sig_at(s@, i as int, ss) == Some((m@, j as int)) && i < j
                <= n,
            None => parse_sig_at(s@, i as int, ss) is None,
        },
{
    let b = skip_ws(s, i, n);
    let e = ident_end(s, b, n);
    if e > b && ident_start_char(s.get_char(b)) {
        let name = s.substring_char(b, e).to_owned();
        let c = skip_ws(s, e, n);
        if c < n && s.get_char(c) == '(' {
            match parse_params(s, c + 1, true, n) {
                None => None,
                Some((ps, d)) => {
                    let f = skip_ws(s, d, n);
                    if f < n && s.get_char(f) == '-' && f + 1 < n && s.get_char(f + 1) == '>' {
                        match scan_type(s, f + 2, 0, ';', ';', n) {
                            None => None,
                            Some(g) => {
                                let ty = trim_str(s.substring_char(f + 2, g));
                                if ty.unicode_len() == 0 {
                                    None
                                } else {
                                    let m = RawMethod {
                                        name,
                                        params: ps,
                                        ret: Some(ty),
                                        server_streaming: ss,
                                    };
                                    Some((m, g + 1))
                                }
                            },
                        }
                    } else if f < n && s.get_char(f) == ';' {
                        let m = RawMethod { name, params: ps, ret: None, server_streaming: ss };
                        Some((m, f + 1))
                    } else {
                        None
                    }
                },
            }
        } else {
            None
        }
    } else {
        None
    }
}

/// One item of the interface body starting at position `i`: `Some(m)` for a
/// method declaration, `None` for a skipped non-method item, together with
/// the position just after the item.
pub open spec fn parse_item_at(s: Seq<char>, i: int) -> Option<(Option<RawMethodModel>, int)> {
    match parse_attrs_at(s, i, false) {
        None => None,
        Some((ss, a)) => {
            let e = ident_end_at(s, a);
            if e > a && s.subrange(a, e) == "fn"@ {
                match parse_sig_at(s, e, ss) {
                    None => None,
                    Some((m, j)) => Some((Some(m), j)),
                }
            } else {
                match scan_item_end(s, a, 0) {
                    None => None,
                    Some(j) => Some((None, j + 1)),
                }
            }
        },
    }
}

pub proof fn lemma_parse_item_at(s: Seq<char>, i: int)
    requires
        0 <= i <= s.len(),
    ensures
        parse_item_at(s, i) matches Some((om, j)) ==> i < j <= s.len(),
{
    lemma_parse_attrs_at(s, i, false);
    match parse_attrs_at(s, i, false) {
        None => {},
        Some((ss, a)) => {
            lemma_ident_end_at(s, a);
            let e = ident_end_at(s, a);
            if e > a && s.subrange(a, e) == "fn"@ {
                lemma_parse_sig_at(s, e, ss);
            } else {
                lemma_scan_item_end(s, a, 0);
            }
        },
    }
}

/// Executable counterpart of [`parse_item_at`].
pub fn parse_item(s: &str, i: usize, n: usize) -> (r: Option<(Option<RawMethod>, usize)>)
    requires
        i <= n,
        n == s@.len(),
    ensures
        match r {
            Some((om, j)) => parse_item_at(s@, i as int) == Some((om.deep_view(), j as int)) && i
                < j <= n,
            None => parse_item_at(s@, i as int) is None,
        },
{
    match parse_attrs(s, i, false, n) {
        None => None,
        Some((ss, a)) => {
            let e = ident_end(s, a, n);
            if e > a && span_eq(s, a, e, "fn") {
                match parse_sig(s, e, ss, n) {
                    None => None,
                    Some((m, j)) => Some((Some(m), j)),
                }
            } else {
                match scan_item(s, a, 0, n) {
                    None => None,
                    Some(j) => Some((None, j + 1)),
                }
            }
        },
    }
}

/// The items of the interface body from position `i` up to and including the
/// closing `}`: the method declarations in order (non-method items skipped)
/// and the position just after the `}`.
pub open spec fn parse_items_at(s: Seq<char>, i: int) -> Option<(Seq<RawMethodModel>, int)>
    decreases s.len() - i,
    via parse_items_at_dec
{
    let a = skip_ws_at(s, i);
    if 0 <= a < s.len() && s[a] == '}' {
        Some((Seq::empty(), a + 1))
    } else {
        match parse_item_at(s, i) {
            None => None,
            Some((om, j)) => {
                match parse_items_at(s, j) {
                    None => None,
                    Some((rest, e)) => match om {
                        Some(m) => Some((Seq::empty().push(m) + rest, e)),
                        None => Some((rest, e)),
                    },
                }
            },
        }
    }
}

#[via_fn]
proof fn parse_items_at_dec(s: Seq<char>, i: int) {
    if 0 <= i <= s.len() {
        lemma_parse_item_at(s, i);
    } else {
        lemma_parse_attrs_out_of_range(s, i);
    }
}

/// Out of range, attribute parsing stays where it is, so item parsing fails
/// rather than recursing.
proof fn lemma_parse_attrs_out_of_range(s: Seq<char>, i: int)
    requires
        i < 0 || i > s.len(),
    ensures
        parse_item_at(s, i) is None,
{
    assert(skip_ws_at(s, i) == i);
    assert(parse_attrs_at(s, i, false) == Some((false, i)));
    assert(ident_end_at(s, i) == i);
    assert(scan_item_end(s, i, 0) is None);
}

pub proof fn lemma_parse_items_at(s: Seq<char>, i: int)
    requires
        0 <= i <= s.len(),
    ensures
        parse_items_at(s, i) matches Some((ms, e)) ==> i < e <= s.len(),
    decreases s.len() - i,
{
    lemma_skip_ws_at(s, i);
    let a = skip_ws_at(s, i);
    if a < s.len() && s[a] == '}' {
    } else {
        lemma_parse_item_at(s, i);
        match parse_item_at(s, i) {
            None => {},
            Some((om, j)) => {
                lemma_parse_items_at(s, j);
            },
        }
    }
}

/// Executable counterpart of [`parse_items_at`].
pub fn parse_items(s: &str, i: usize, n: usize) -> (r: Option<(Vec<RawMethod>, usize)>)
    requires
        i <= n,
        n == s@.len(),
    ensures
        match r {
            Some((ms, e)) => parse_items_at(s@, i as int) == Some((ms.deep_view(), e as int))
                && i < e <= n,
            None => parse_items_at(s@, i as int) is None,
        },
    decreases n - i,
{
    let a = skip_ws(s, i, n);
    if a < n && s.get_char(a) == '}' {
        let ms: Vec<RawMethod> = Vec::new();
        proof {
            assert(ms.deep_view() =~= Seq::<RawMethodModel>::empty());
        }
        Some((ms, a + 1))
    } else {
        match parse_item(s, i, n) {
            None => None,
            Some((om, j)) => {
                match parse_items(s, j, n) {
                    None => None,
                    Some((mut rest, e)) => {
                        match om {
                            Some(m) => {
                                let ghost rest_snap = rest;
                                let ghost m_snap = m;
                                let mut ms: Vec<RawMethod> = Vec::new();
                                ms.push(m);
                                ms.append(&mut rest);
                                proof {
                                    lemma_vec_deep_view(ms);
                                    lemma_vec_deep_view(rest_snap);
                                    lemma_seq_deep_view_cons(m_snap, rest_snap@);
                                    assert(ms.deep_view() =~= Seq::empty().push(m_snap@)
                                        + rest_snap.deep_view());
                                }
                                Some((ms, e))
                            },
                            None => Some((rest, e)),
                        }
                    },
                }
            },
        }
    }
}

/// The whole interface definition: the leading `trait` keyword, the
/// interface name, the brace-enclosed body, and nothing but whitespace after
/// it; `None` when the text does not follow the grammar.
pub open spec fn parse_interface_spec(s: Seq<char>) -> Option<InterfaceModel> {
    let i0 = skip_ws_at(s, 0);
    let e0 = ident_end_at(s, i0);
    if e0 > i0 && s.subrange(i0, e0) == "trait"@ {
        let i1 = skip_ws_at(s, e0);
        let e1 = ident_end_at(s, i1);
        if e1 > i1 && is_ident_start(s[i1]) {
            let name = s.subrange(i1, e1);
            let i2 = skip_ws_at(s, e1);
            if 0 <= i2 < s.len() && s[i2] == '{' {
                match parse_items_at(s, i2 + 1) {
                    None => None,
                    Some((ms, e)) => {
                        if skip_ws_at(s, e) == s.len() {
                            Some(InterfaceModel { name, methods: ms })
                        } else {
                            None
                        }
                    },
                }
            } else {
                None
            }
        } else {
            None
        }
    } else {
        None
    }
}

/// Parses the textual form of an interface definition. Returns the raw
/// interface exactly as [`parse_interface_spec`] describes it, or
/// [`TransformError::Syntax`] exactly when the text does not follow the
/// grammar.
pub fn parse_interface(s: &str) -> (r: Result<RawInterface, TransformError>)
    ensures
        match r {
            Ok(iface) => parse_interface_spec(s@) == Some(iface@),
            Err(e) => e is Syntax && parse_interface_spec(s@) is None,
        },
{
    let n = s.unicode_len();
    let i0 = skip_ws(s, 0, n);
    let e0 = ident_end(s, i0, n);
    if e0 > i0 && span_eq(s, i0, e0, "trait") {
        let i1 = skip_ws(s, e0, n);
        let e1 = ident_end(s, i1, n);
        if e1 > i1 && ident_start_char(s.get_char(i1)) {
            let name = s.substring_char(i1, e1).to_owned();
            let i2 = skip_ws(s, e1, n);
            if i2 < n && s.get_char(i2) == '{' {
                match parse_items(s, i2 + 1, n) {
                    None => Err(TransformError::Syntax),
                    Some((ms, e)) => {
                        if skip_ws(s, e, n) == n {
                            Ok(RawInterface { name, methods: ms })
                        } else {
                            Err(TransformError::Syntax)
                        }
                    },
                }
            } else {
                Err(TransformError::Syntax)
            }
        } else {
            Err(TransformError::Syntax)
        }
    } else {
        Err(TransformError::Syntax)
    }
}

} // verus!
