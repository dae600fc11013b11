//! The method normalizer: turns each raw method declaration into a
//! canonical method descriptor. This is where the decision logic lives: the
//! single-parameter rule, the split of a parameter into pattern and type,
//! the unit placeholder for an omitted return type, the streaming flags, and
//! the derivation of the two synthesized alias names.

use vstd::prelude::*;
use vstd::string::*;

use crate::descriptor::MethodDescriptor;
use crate::descriptor::MethodModel;
use crate::parse::RawMethod;
use crate::parse::RawMethodModel;
use crate::text::trim_str;
use crate::text::trimmed;
use crate::views::lemma_seq_deep_view_push;
use crate::views::lemma_vec_deep_view;
use crate::views::seq_deep_view;
use crate::TransformError;

verus! {

/// Position of the first `:` at or after `i` that is not part of a `::`
/// path separator; it splits a parameter into pattern and type.
pub open spec fn find_colon_at(p: Seq<char>, i: int) -> Option<int>
    decreases p.len() - i,
{
    if !(0 <= i < p.len()) {
        None
    } else if p[i] == ':' {
        if i + 1 < p.len() && p[i + 1] == ':' {
            find_colon_at(p, i + 2)
        } else {
            Some(i)
        }
    } else {
        find_colon_at(p, i + 1)
    }
}

pub proof fn lemma_find_colon_at(p: Seq<char>, i: int)
    ensures
        find_colon_at(p, i) matches Some(k) ==> i <= k < p.len(),
    decreases p.len() - i,
{
    if 0 <= i < p.len() {
        if p[i] == ':' {
            if i + 1 < p.len() && p[i + 1] == ':' {
                lemma_find_colon_at(p, i + 2);
            }
        } else {
            lemma_find_colon_at(p, i + 1);
        }
    }
}

/// Executable counterpart of [`find_colon_at`].
pub fn find_colon(p: &str, i: usize, n: usize) -> (r: Option<usize>)
    requires
        i <= n,
        n == p@.len(),
    ensures
        match r {
            Some(k) => find_colon_at(p@, i as int) == Some(k as int) && i <= k < n,
            None => find_colon_at(p@, i as int) is None,
        },
    decreases n - i,
{
    if i >= n {
        return None;
    }
    if p.get_char(i) == ':' {
        if i + 1 < n && p.get_char(i + 1) == ':' {
            find_colon(p, i + 2, n)
        } else {
            Some(i)
        }
    } else {
        find_colon(p, i + 1, n)
    }
}

/// The type text of a well-formed `pattern: type` parameter: what follows
/// the first bare `:`, trimmed; `None` when there is no bare `:` or either
/// side is empty.
pub open spec fn split_param_spec(p: Seq<char>) -> Option<Seq<char>> {
    match find_colon_at(p, 0) {
        None => None,
        Some(k) => {
            let pat = trimmed(p.subrange(0, k));
            let ty = trimmed(p.subrange(k + 1, p.len() as int));
            if pat.len() > 0 && ty.len() > 0 {
                Some(ty)
            } else {
                None
            }
        },
    }
}

/// Executable counterpart of [`split_param_spec`].
pub fn split_param(p: &str) -> (r: Option<String>)
    ensures
        match r {
            Some(ty) => split_param_spec(p@) == Some(ty@),
            None => split_param_spec(p@) is None,
        },
{
    let n = p.unicode_len();
    match find_colon(p, 0, n) {
        None => None,
        Some(k) => {
            let pat = trim_str(p.substring_char(0, k));
            let ty = trim_str(p.substring_char(k + 1, n));
            if pat.unicode_len() > 0 && ty.unicode_len() > 0 {
                Some(ty)
            } else {
                None
            }
        },
    }
}

/// A synthesized alias name: the fixed generation prefix, the service name,
/// a separator, the method name, and the request or response suffix.
pub open spec fn alias_spec(service: Seq<char>, method: Seq<char>, suffix: Seq<char>) -> Seq<
    char,
> {
    "__generated_"@ + service + "_"@ + method + suffix
}

/// The synthesized name bound to a method's request type.
pub open spec fn request_alias_spec(service: Seq<char>, method: Seq<char>) -> Seq<char> {
    alias_spec(service, method, "_request"@)
}

/// The synthesized name bound to a method's response type.
pub open spec fn response_alias_spec(service: Seq<char>, method: Seq<char>) -> Seq<char> {
    alias_spec(service, method, "_response"@)
}

/// The canonical placeholder for an omitted return type.
pub open spec fn unit_response() -> Seq<char> {
    "()"@
}

/// Executable counterpart of [`alias_spec`].
pub fn build_alias(service: &str, method: &str, suffix: &str) -> (r: String)
    ensures
        r@ == alias_spec(service@, method@, suffix@),
{
    let mut out = String::from_str("__generated_");
    out.append(service);
    out.append("_");
    out.append(method);
    out.append(suffix);
    out
}

/// The canonical descriptor of one raw method declaration within the named
/// service, or `None` when the declaration does not have exactly one
/// well-formed `pattern: type` parameter.
pub open spec fn normalize_spec(m: RawMethodModel, service: Seq<char>) -> Option<MethodModel> {
    if m.params.len() != 1 {
        None
    } else {
        match split_param_spec(m.params[0]) {
            None => None,
            Some(ty) => Some(
                MethodModel {
                    name: m.name,
                    request_type: ty,
                    response_type: match m.ret {
                        Some(r) => r,
                        None => unit_response(),
                    },
                    client_streaming: false,
                    server_streaming: m.server_streaming,
                    request_alias: request_alias_spec(service, m.name),
                    response_alias: response_alias_spec(service, m.name),
                },
            ),
        }
    }
}

/// Executable counterpart of [`normalize_spec`]: fails with
/// [`TransformError::InvalidRpcArgument`], carrying the method's name,
/// exactly when the declaration's parameter list is malformed.
pub fn make_method(m: &RawMethod, service: &str) -> (r: Result<MethodDescriptor, TransformError>)
    ensures
        match r {
            Ok(d) => normalize_spec(m@, service@) == Some(d@),
            Err(e) => {
                &&& normalize_spec(m@, service@) is None
                &&& e matches TransformError::InvalidRpcArgument { method } && method@ == m@.name
            },
        },
{
    if m.params.len() != 1 {
        return Err(TransformError::InvalidRpcArgument { method: m.name.clone() });
    }
    match split_param(m.params[0].as_str()) {
        None => Err(TransformError::InvalidRpcArgument { method: m.name.clone() }),
        Some(ty) => {
            let response = match &m.ret {
                Some(rt) => rt.clone(),
                None => String::from_str("()"),
            };
            Ok(
                MethodDescriptor {
                    name: m.name.clone(),
                    request_type: ty,
                    response_type: response,
                    client_streaming: false,
                    server_streaming: m.server_streaming,
                    request_alias: build_alias(service, m.name.as_str(), "_request"),
                    response_alias: build_alias(service, m.name.as_str(), "_response"),
                },
            )
        },
    }
}

/// The canonical descriptors of a whole declaration list, in order, or the
/// name of the first method whose declaration is malformed.
pub open spec fn normalize_all_spec(ms: Seq<RawMethodModel>, service: Seq<char>) -> Result<
    Seq<MethodModel>,
    Seq<char>,
>
    decreases ms.len(),
{
    if ms.len() == 0 {
        Ok(Seq::empty())
    } else {
        match normalize_spec(ms[0], service) {
            None => Err(ms[0].name),
            Some(d) => match normalize_all_spec(ms.drop_first(), service) {
                Err(n) => Err(n),
                Ok(rest) => Ok(Seq::empty().push(d) + rest),
            },
        }
    }
}

/// Executable counterpart of [`normalize_all_spec`]: normalizes every
/// declaration in order and stops at the first malformed one.
pub fn normalize_methods(ms: &Vec<RawMethod>, service: &str) -> (r: Result<
    Vec<MethodDescriptor>,
    TransformError,
>)
    ensures
        match r {
            Ok(ds) => normalize_all_spec(ms.deep_view(), service@) == Ok::<
                Seq<MethodModel>,
                Seq<char>,
            >(ds.deep_view()),
            Err(e) => e matches TransformError::InvalidRpcArgument { method }
                && normalize_all_spec(ms.deep_view(), service@) == Err::<
                Seq<MethodModel>,
                Seq<char>,
            >(method@),
        },
{
    let ghost full = ms.deep_view();
    let mut ds: Vec<MethodDescriptor> = Vec::new();
    let mut k: usize = 0;
    proof {
        assert(full.subrange(0, full.len() as int) =~= full);
        assert(ds.deep_view() =~= Seq::<MethodModel>::empty());
        match normalize_all_spec(full, service@) {
            Ok(rest) => {
                assert(Seq::<MethodModel>::empty() + rest =~= rest);
            },
            Err(n) => {},
        }
    }
    while k < ms.len()
        invariant
            0 <= k <= ms.len(),
            full == ms.deep_view(),
            full.len() == ms@.len(),
            normalize_all_spec(full, service@) == (match normalize_all_spec(
                full.subrange(k as int, full.len() as int),
                service@,
            ) {
                Ok(rest) => Ok(ds.deep_view() + rest),
                Err(n) => Err(n),
            }),
        decreases ms.len() - k,
    {
        let ghost pre = ds.deep_view();
        let ghost prev = ds@;
        let ghost suf = full.subrange(k as int, full.len() as int);
        proof {
            lemma_vec_deep_view(ds);
            assert(pre == seq_deep_view(prev));
            assert(suf.len() > 0);
            assert(suf[0] == full[k as int]);
            assert(suf.drop_first() =~= full.subrange(k + 1 as int, full.len() as int));
        }
        match make_method(&ms[k], service) {
            Err(e) => {
                proof {
                    assert(normalize_all_spec(suf, service@) == Err::<Seq<MethodModel>, Seq<char>>(
                        full[k as int].name,
                    ));
                }
                return Err(e);
            },
            Ok(d) => {
                let ghost dv = d@;
                let ghost d_snap = d;
                ds.push(d);
                proof {
                    lemma_vec_deep_view(ds);
                    lemma_seq_deep_view_push(prev, d_snap);
                    assert(ds@ == prev.push(d_snap));
                    assert(ds.deep_view() == seq_deep_view(prev).push(d_snap.deep_view()));
                    assert(ds.deep_view() == pre.push(dv));
                    let tail = full.subrange(k + 1 as int, full.len() as int);
                    match normalize_all_spec(tail, service@) {
                        Err(n) => {},
                        Ok(rest) => {
                            assert(normalize_all_spec(suf, service@) == Ok::<
                                Seq<MethodModel>,
                                Seq<char>,
                            >(Seq::empty().push(dv) + rest));
                            assert(pre + (Seq::empty().push(dv) + rest) =~= pre.push(dv) + rest);
                        },
                    }
                }
                k += 1;
            },
        }
    }
    proof {
        assert(full.subrange(k as int, full.len() as int) =~= Seq::<RawMethodModel>::empty());
        assert(ds.deep_view() + Seq::<MethodModel>::empty() =~= ds.deep_view());
    }
    Ok(ds)
}

} // verus!
