//! Properties of the transformation, stated and proved over the
//! specification-level models that the executable functions' contracts use.

use vstd::prelude::*;

use crate::descriptor::MethodModel;
use crate::normalize::alias_spec;
use crate::normalize::normalize_all_spec;
use crate::normalize::normalize_spec;
use crate::normalize::unit_response;
use crate::parse::parse_interface_spec;
use crate::parse::InterfaceModel;
use crate::parse::RawMethodModel;
use crate::transform_spec;
use crate::Codec;
use crate::GeneratedModel;
use crate::TransformOutcome;

verus! {

/// The transformation is a function of the definition text and the chosen
/// codec alone: any two generated results for the same input are equal.
pub proof fn lemma_deterministic(
    input: Seq<char>,
    codec: Codec,
    g1: GeneratedModel,
    g2: GeneratedModel,
)
    requires
        transform_spec(input, codec) == TransformOutcome::Done(g1),
        transform_spec(input, codec) == TransformOutcome::Done(g2),
    ensures
        g1 == g2,
{
}

/// A method declaration is accepted only with exactly one well-formed
/// parameter; a declaration with zero or several parameters always fails
/// normalization.
pub proof fn lemma_method_arity(m: RawMethodModel, service: Seq<char>)
    ensures
        normalize_spec(m, service) is Some ==> m.params.len() == 1,
        m.params.len() != 1 ==> normalize_spec(m, service) is None,
{
}

/// Alias names are injective in the method name: within one service, two
/// different method names never yield the same synthesized alias.
pub proof fn lemma_alias_injective(
    service: Seq<char>,
    m1: Seq<char>,
    m2: Seq<char>,
    suffix: Seq<char>,
)
    requires
        m1 != m2,
    ensures
        alias_spec(service, m1, suffix) != alias_spec(service, m2, suffix),
{
    let q = "__generated_"@ + service + "_"@;
    let a1 = alias_spec(service, m1, suffix);
    let a2 = alias_spec(service, m2, suffix);
    if m1.len() != m2.len() {
        assert(a1.len() != a2.len());
    } else {
        if m1 =~= m2 {
            assert(false);
        }
        assert(exists|k: int| 0 <= k < m1.len() && m1[k] != m2[k]);
        let k = choose|k: int| 0 <= k < m1.len() && m1[k] != m2[k];
        assert((q + m1)[q.len() + k] == m1[k]);
        assert((q + m2)[q.len() + k] == m2[k]);
        assert(a1[q.len() + k] == m1[k]);
        assert(a2[q.len() + k] == m2[k]);
    }
}

/// Every synthesized alias starts with the fixed generation prefix, so an
/// identifier that does not start with that prefix never collides with an
/// alias.
pub proof fn lemma_alias_prefix_reserved(
    service: Seq<char>,
    method: Seq<char>,
    suffix: Seq<char>,
    user: Seq<char>,
)
    requires
        user.len() < "__generated_"@.len() || user.subrange(0, "__generated_"@.len() as int)
            != "__generated_"@,
    ensures
        alias_spec(service, method, suffix) != user,
{
    let p = "__generated_"@;
    let a = alias_spec(service, method, suffix);
    assert(a.len() >= p.len());
    assert(a.subrange(0, p.len() as int) =~= p) by {
        assert forall|j: int| 0 <= j < p.len() implies a[j] == p[j] by {
            assert((p + service)[j] == p[j]);
            assert((p + service + "_"@)[j] == (p + service)[j]);
            assert((p + service + "_"@ + method)[j] == (p + service + "_"@)[j]);
        }
    }
    if a == user {
        assert(user.subrange(0, p.len() as int) == a.subrange(0, p.len() as int));
        assert(false);
    }
}

/// Normalization preserves declaration order: the normalized list is as
/// long as the declaration list, and its `i`-th descriptor is the
/// normalization of the `i`-th declaration.
pub proof fn lemma_order_preserved(ms: Seq<RawMethodModel>, service: Seq<char>, ds: Seq<MethodModel>)
    requires
        normalize_all_spec(ms, service) == Ok::<Seq<MethodModel>, Seq<char>>(ds),
    ensures
        ds.len() == ms.len(),
        forall|i: int| 0 <= i < ms.len() ==> normalize_spec(ms[i], service) == Some(ds[i]),
    decreases ms.len(),
{
    if ms.len() == 0 {
    } else {
        match normalize_spec(ms[0], service) {
            None => {
                assert(false);
            },
            Some(d0) => {
                match normalize_all_spec(ms.drop_first(), service) {
                    Err(n) => {
                        assert(false);
                    },
                    Ok(rest) => {
                        lemma_order_preserved(ms.drop_first(), service, rest);
                        assert(ds == Seq::empty().push(d0) + rest);
                        assert forall|i: int| 0 <= i < ms.len() implies normalize_spec(
                            ms[i],
                            service,
                        ) == Some(ds[i]) by {
                            if i == 0 {
                                assert(ds[0] == d0);
                            } else {
                                assert(ms.drop_first()[i - 1] == ms[i]);
                                assert(ds[i] == rest[i - 1]);
                            }
                        }
                    },
                }
            },
        }
    }
}

/// Within one normalized service, methods with different names have
/// different request aliases and different response aliases.
pub proof fn lemma_service_alias_uniqueness(
    ms: Seq<RawMethodModel>,
    service: Seq<char>,
    ds: Seq<MethodModel>,
)
    requires
        normalize_all_spec(ms, service) == Ok::<Seq<MethodModel>, Seq<char>>(ds),
    ensures
        forall|i: int, j: int|
            0 <= i < ds.len() && 0 <= j < ds.len() && ds[i].name != ds[j].name
                ==> #[trigger] ds[i].request_alias != #[trigger] ds[j].request_alias
                && ds[i].response_alias != ds[j].response_alias,
{
    lemma_order_preserved(ms, service, ds);
    assert forall|i: int, j: int|
        0 <= i < ds.len() && 0 <= j < ds.len() && ds[i].name != ds[j].name implies #[trigger] ds[i].request_alias
        != #[trigger] ds[j].request_alias && ds[i].response_alias != ds[j].response_alias by {
        assert(normalize_spec(ms[i], service) == Some(ds[i]));
        assert(normalize_spec(ms[j], service) == Some(ds[j]));
        lemma_alias_injective(service, ds[i].name, ds[j].name, "_request"@);
        lemma_alias_injective(service, ds[i].name, ds[j].name, "_response"@);
    }
}

/// A declaration annotated for server streaming normalizes to a descriptor
/// with the server flag set and the client flag false; an unannotated one
/// yields both flags false.
pub proof fn lemma_streaming_fidelity(m: RawMethodModel, service: Seq<char>, d: MethodModel)
    requires
        normalize_spec(m, service) == Some(d),
    ensures
        d.server_streaming == m.server_streaming,
        !d.client_streaming,
{
}

/// A declaration without a return type normalizes to a descriptor whose
/// response type is the canonical unit placeholder.
pub proof fn lemma_default_response(m: RawMethodModel, service: Seq<char>, d: MethodModel)
    requires
        normalize_spec(m, service) == Some(d),
        m.ret is None,
    ensures
        d.response_type == unit_response(),
{
}

/// The generated service carries the interface name and lists its methods
/// in declaration order, each the normalization of its declaration.
pub proof fn lemma_transform_order(
    s: Seq<char>,
    codec: Codec,
    g: GeneratedModel,
    iface: InterfaceModel,
)
    requires
        transform_spec(s, codec) == TransformOutcome::Done(g),
        parse_interface_spec(s) == Some(iface),
    ensures
        g.service.name == iface.name,
        g.service.methods.len() == iface.methods.len(),
        forall|i: int|
            0 <= i < iface.methods.len() ==> normalize_spec(iface.methods[i], iface.name) == Some(
                g.service.methods[i],
            ),
{
    match normalize_all_spec(iface.methods, iface.name) {
        Ok(ds) => {
            lemma_order_preserved(iface.methods, iface.name, ds);
        },
        Err(n) => {
            assert(false);
        },
    }
}

/// A parsed interface holding a declaration with zero or several
/// parameters never yields output.
pub proof fn lemma_arity_rejected(s: Seq<char>, codec: Codec, iface: InterfaceModel)
    requires
        parse_interface_spec(s) == Some(iface),
        exists|i: int|
            0 <= i < iface.methods.len() && #[trigger] iface.methods[i].params.len() != 1,
    ensures
        !(transform_spec(s, codec) is Done),
{
    if transform_spec(s, codec) is Done {
        match normalize_all_spec(iface.methods, iface.name) {
            Ok(ds) => {
                lemma_order_preserved(iface.methods, iface.name, ds);
                let i = choose|i: int|
                    0 <= i < iface.methods.len() && #[trigger] iface.methods[i].params.len() != 1;
                assert(normalize_spec(iface.methods[i], iface.name) == Some(ds[i]));
                assert(false);
            },
            Err(n) => {
                assert(false);
            },
        }
    }
}

} // verus!
