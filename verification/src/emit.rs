//! The type synthesis emitter: for every method of a service it emits the
//! two type-alias declarations binding the synthesized request and response
//! names to the method's concrete types, in method order; and the
//! concatenation that places the alias block, the client code and the
//! server code in their final order.

use vstd::prelude::*;
use vstd::string::*;

use crate::descriptor::MethodDescriptor;
use crate::descriptor::MethodModel;

verus! {

/// The two alias declarations emitted for one method.
pub open spec fn alias_decl_spec(d: MethodModel) -> Seq<char> {
    "type "@ + d.request_alias + " = "@ + d.request_type + ";\n"@ + "type "@ + d.response_alias
        + " = "@ + d.response_type + ";\n"@
}

/// The alias declarations of a whole method list, in method order.
pub open spec fn emit_aliases_spec(ds: Seq<MethodModel>) -> Seq<char>
    decreases ds.len(),
{
    if ds.len() == 0 {
        Seq::empty()
    } else {
        alias_decl_spec(ds[0]) + emit_aliases_spec(ds.drop_first())
    }
}

pub proof fn lemma_emit_aliases_snoc(ds: Seq<MethodModel>)
    requires
        ds.len() > 0,
    ensures
        emit_aliases_spec(ds) == emit_aliases_spec(ds.drop_last()) + alias_decl_spec(ds.last()),
    decreases ds.len(),
{
    if ds.len() == 1 {
        assert(ds.drop_first() =~= Seq::<MethodModel>::empty());
        assert(ds.drop_last() =~= Seq::<MethodModel>::empty());
        assert(emit_aliases_spec(Seq::<MethodModel>::empty()) == Seq::<char>::empty());
        assert(emit_aliases_spec(ds) == alias_decl_spec(ds[0]) + Seq::<char>::empty());
        assert(ds.last() == ds[0]);
        assert(alias_decl_spec(ds[0]) + Seq::<char>::empty() =~= Seq::<char>::empty()
            + alias_decl_spec(ds[0]));
    } else {
        let df = ds.drop_first();
        lemma_emit_aliases_snoc(df);
        assert(df.drop_last() =~= ds.drop_last().drop_first());
        assert(df.last() == ds.last());
        assert(ds.drop_last()[0] == ds[0]);
        assert(emit_aliases_spec(ds.drop_last()) == alias_decl_spec(ds[0]) + emit_aliases_spec(
            ds.drop_last().drop_first(),
        ));
        assert(alias_decl_spec(ds[0]) + (emit_aliases_spec(df.drop_last()) + alias_decl_spec(
            ds.last(),
        )) =~= (alias_decl_spec(ds[0]) + emit_aliases_spec(df.drop_last())) + alias_decl_spec(
            ds.last(),
        ));
    }
}

/// Executable counterpart of [`alias_decl_spec`].
pub fn alias_decl(d: &MethodDescriptor) -> (r: String)
    ensures
        r@ == alias_decl_spec(d@),
{
    let mut out = String::from_str("type ");
    out.append(d.request_alias.as_str());
    out.append(" = ");
    out.append(d.request_type.as_str());
    out.append(";\n");
    out.append("type ");
    out.append(d.response_alias.as_str());
    out.append(" = ");
    out.append(d.response_type.as_str());
    out.append(";\n");
    out
}

/// Executable counterpart of [`emit_aliases_spec`].
pub fn emit_aliases(ds: &Vec<MethodDescriptor>) -> (r: String)
    ensures
        r@ == emit_aliases_spec(ds.deep_view()),
{
    let ghost full = ds.deep_view();
    let mut out = String::new();
    let mut k: usize = 0;
    proof {
        assert(full.subrange(0, 0) =~= Seq::<MethodModel>::empty());
    }
    while k < ds.len()
        invariant
            0 <= k <= ds.len(),
            full == ds.deep_view(),
            full.len() == ds@.len(),
            out@ == emit_aliases_spec(full.subrange(0, k as int)),
        decreases ds.len() - k,
    {
        let decl = alias_decl(&ds[k]);
        out.append(decl.as_str());
        proof {
            let now = full.subrange(0, k + 1 as int);
            assert(now.drop_last() =~= full.subrange(0, k as int));
            assert(now.last() == full[k as int]);
            lemma_emit_aliases_snoc(now);
        }
        k += 1;
    }
    proof {
        assert(full.subrange(0, full.len() as int) =~= full);
    }
    out
}

/// The final generated output: the alias block, the client code and the
/// server code, concatenated in that order.
pub fn assemble_output(type_aliases: &str, client: &str, server: &str) -> (r: String)
    ensures
        r@ == type_aliases@ + client@ + server@,
{
    let mut out = String::from_str(type_aliases);
    out.append(client);
    out.append(server);
    out
}

} // verus!
