//! Build-time generator that turns an interface definition written in
//! host-language trait syntax into the canonical service model consumed by a
//! gRPC stub generator: it parses the trait text, normalizes every method
//! into a descriptor (request shape, response shape, streaming mode,
//! synthesized alias names), assembles the ordered service descriptor, and
//! emits the type-alias declarations that bind each synthesized name to its
//! concrete type.

pub mod descriptor;
pub mod emit;
pub mod laws;
pub mod normalize;
pub mod parse;
pub mod text;
pub mod views;

use vstd::prelude::*;
use vstd::string::*;

use crate::descriptor::assemble;
use crate::descriptor::ServiceDescriptor;
use crate::descriptor::ServiceModel;
use crate::emit::emit_aliases;
use crate::emit::emit_aliases_spec;
use crate::normalize::normalize_all_spec;
use crate::normalize::normalize_methods;
use crate::parse::parse_interface;
use crate::parse::parse_interface_spec;

verus! {

/// Why a transformation was aborted: the text did not follow the interface
/// grammar, or a method declaration did not have exactly one well-formed
/// `pattern: type` parameter.
#[derive(Debug)]
pub enum TransformError {
    Syntax,
    InvalidRpcArgument { method: String },
}

/// The wire codecs a generated service can be bound to. Exactly one codec is
/// selected per service and applied uniformly to all of its methods.
#[derive(Clone, Copy, PartialEq, Eq, Structural, Debug)]
pub enum Codec {
    Json,
    Bincode,
    Cbor,
    MessagePack,
}

/// The fixed codec identifier handed to the stub generator for a codec choice.
pub open spec fn codec_path_spec(c: Codec) -> Seq<char> {
    match c {
        Codec::Json => "tonic_rpc::json_codec::MyCodec"@,
        Codec::Bincode => "tonic_rpc::bincode_codec::MyCodec"@,
        Codec::Cbor => "tonic_rpc::cbor_codec::MyCodec"@,
        Codec::MessagePack => "tonic_rpc::messagepack_codec::MyCodec"@,
    }
}

impl Codec {
    /// The path of the codec implementation that the emitted client and
    /// server code will reference.
    pub fn path(&self) -> (r: String)
        ensures
            r@ == codec_path_spec(*self),
    {
        match self {
            Codec::Json => String::from_str("tonic_rpc::json_codec::MyCodec"),
            Codec::Bincode => String::from_str("tonic_rpc::bincode_codec::MyCodec"),
            Codec::Cbor => String::from_str("tonic_rpc::cbor_codec::MyCodec"),
            Codec::MessagePack => String::from_str("tonic_rpc::messagepack_codec::MyCodec"),
        }
    }
}

/// Everything a stub generator needs from one transformed interface
/// definition: the canonical service descriptor, the block of type-alias
/// declarations, and the codec path all methods share.
pub ghost struct GeneratedModel {
    pub service: ServiceModel,
    pub type_aliases: Seq<char>,
    pub codec_path: Seq<char>,
}

/// Executable counterpart of [`GeneratedModel`].
#[derive(Debug)]
pub struct Generated {
    pub service: ServiceDescriptor,
    pub type_aliases: String,
    pub codec_path: String,
}

impl View for Generated {
    type V = GeneratedModel;

    open spec fn view(&self) -> GeneratedModel {
        GeneratedModel {
            service: self.service@,
            type_aliases: self.type_aliases@,
            codec_path: self.codec_path@,
        }
    }
}

/// The outcome of transforming one interface definition: a syntax failure,
/// a malformed method declaration (carrying the method's name), or the
/// generated model.
pub ghost enum TransformOutcome {
    Syntax,
    BadMethod(Seq<char>),
    Done(GeneratedModel),
}

/// The whole transformation pipeline as a function of the definition text
/// and the chosen codec alone: parse, normalize every method in order,
/// assemble the service descriptor, and emit the alias block.
pub open spec fn transform_spec(s: Seq<char>, codec: Codec) -> TransformOutcome {
    match parse_interface_spec(s) {
        None => TransformOutcome::Syntax,
        Some(iface) => match normalize_all_spec(iface.methods, iface.name) {
            Err(n) => TransformOutcome::BadMethod(n),
            Ok(ds) => TransformOutcome::Done(
                GeneratedModel {
                    service: ServiceModel { name: iface.name, methods: ds },
                    type_aliases: emit_aliases_spec(ds),
                    codec_path: codec_path_spec(codec),
                },
            ),
        },
    }
}

/// Transforms one interface definition: the result is exactly what
/// [`transform_spec`] assigns to the definition text and the codec, so
/// repeated runs over the same input yield identical output.
pub fn tonic_rpc(input: &str, codec: Codec) -> (r: Result<Generated, TransformError>)
    ensures
        match r {
            Ok(g) => transform_spec(input@, codec) == TransformOutcome::Done(g@),
            Err(e) => match e {
                TransformError::Syntax => transform_spec(input@, codec) is Syntax,
                TransformError::InvalidRpcArgument { method } => transform_spec(input@, codec)
                    == TransformOutcome::BadMethod(method@),
            },
        },
{
    let iface = match parse_interface(input) {
        Ok(x) => x,
        Err(e) => {
            return Err(e);
        },
    };
    let ds = match normalize_methods(&iface.methods, iface.name.as_str()) {
        Ok(x) => x,
        Err(e) => {
            return Err(e);
        },
    };
    let type_aliases = emit_aliases(&ds);
    let codec_path = codec.path();
    let service = assemble(iface.name, ds);
    Ok(Generated { service, type_aliases, codec_path })
}

} // verus!
