//! Canonical descriptors: the per-method descriptor produced by the
//! normalizer and the whole-service descriptor produced by the assembler,
//! together with the capability surface a stub generator reads from them.

use vstd::prelude::*;
use vstd::string::*;

verus! {

/// Canonical, codec-agnostic model of one method: its name, the request and
/// response type text, the two streaming flags, and the two synthesized
/// alias names that the emitted code uses in place of the original type
/// expressions.
pub ghost struct MethodModel {
    pub name: Seq<char>,
    pub request_type: Seq<char>,
    pub response_type: Seq<char>,
    pub client_streaming: bool,
    pub server_streaming: bool,
    pub request_alias: Seq<char>,
    pub response_alias: Seq<char>,
}

/// Executable counterpart of [`MethodModel`].
#[derive(Debug)]
pub struct MethodDescriptor {
    pub name: String,
    pub request_type: String,
    pub response_type: String,
    pub client_streaming: bool,
    pub server_streaming: bool,
    pub request_alias: String,
    pub response_alias: String,
}

impl View for MethodDescriptor {
    type V = MethodModel;

    open spec fn view(&self) -> MethodModel {
        MethodModel {
            name: self.name@,
            request_type: self.request_type@,
            response_type: self.response_type@,
            client_streaming: self.client_streaming,
            server_streaming: self.server_streaming,
            request_alias: self.request_alias@,
            response_alias: self.response_alias@,
        }
    }
}

impl DeepView for MethodDescriptor {
    type V = MethodModel;

    open spec fn deep_view(&self) -> MethodModel {
        self.view()
    }
}

/// Canonical model of a whole service: its name and its methods in
/// declaration order. Name, package and identifier of a generated service
/// all collapse to the interface name.
pub ghost struct ServiceModel {
    pub name: Seq<char>,
    pub methods: Seq<MethodModel>,
}

/// Executable counterpart of [`ServiceModel`].
#[derive(Debug)]
pub struct ServiceDescriptor {
    pub name: String,
    pub methods: Vec<MethodDescriptor>,
}

impl View for ServiceDescriptor {
    type V = ServiceModel;

    open spec fn view(&self) -> ServiceModel {
        ServiceModel { name: self.name@, methods: self.methods.deep_view() }
    }
}

/// An alias name qualified so that it resolves from the scope the emitted
/// client and server code lives in.
pub open spec fn qualified_alias(alias: Seq<char>) -> Seq<char> {
    "super::"@ + alias
}

impl MethodDescriptor {
    /// The method's name.
    pub fn name(&self) -> (r: &String)
        ensures
            r@ == self@.name,
    {
        &self.name
    }

    /// The identifier used to generate type names; the same as the name.
    pub fn identifier(&self) -> (r: &String)
        ensures
            r@ == self@.name,
    {
        &self.name
    }

    /// Generated methods carry no documentation.
    pub fn comment(&self) -> (r: Vec<String>)
        ensures
            r@.len() == 0,
    {
        Vec::new()
    }

    /// Whether the client streams its requests.
    pub fn client_streaming(&self) -> (r: bool)
        ensures
            r == self@.client_streaming,
    {
        self.client_streaming
    }

    /// Whether the server streams its responses.
    pub fn server_streaming(&self) -> (r: bool)
        ensures
            r == self@.server_streaming,
    {
        self.server_streaming
    }

    /// The pair of type names the emitted code uses for the request and the
    /// response: the synthesized aliases, qualified to resolve from the
    /// emitted code's scope. The generation context path is not consulted.
    pub fn request_response_name(&self, _proto_path: &str) -> (r: (String, String))
        ensures
            r.0@ == qualified_alias(self@.request_alias),
            r.1@ == qualified_alias(self@.response_alias),
    {
        let mut req = String::from_str("super::");
        req.append(self.request_alias.as_str());
        let mut resp = String::from_str("super::");
        resp.append(self.response_alias.as_str());
        (req, resp)
    }
}

impl ServiceDescriptor {
    /// The service's name: the interface name.
    pub fn name(&self) -> (r: &String)
        ensures
            r@ == self@.name,
    {
        &self.name
    }

    /// The service's package; the same as the name.
    pub fn package(&self) -> (r: &String)
        ensures
            r@ == self@.name,
    {
        &self.name
    }

    /// The identifier used to generate type names; the same as the name.
    pub fn identifier(&self) -> (r: &String)
        ensures
            r@ == self@.name,
    {
        &self.name
    }

    /// Generated services carry no documentation.
    pub fn comment(&self) -> (r: Vec<String>)
        ensures
            r@.len() == 0,
    {
        Vec::new()
    }

    /// The methods of the service, in declaration order.
    pub fn methods(&self) -> (r: &Vec<MethodDescriptor>)
        ensures
            r.deep_view() == self@.methods,
    {
        &self.methods
    }
}

/// Pure aggregation: wraps the interface name and the ordered method
/// descriptors into a service descriptor, with no further validation.
pub fn assemble(name: String, methods: Vec<MethodDescriptor>) -> (r: ServiceDescriptor)
    ensures
        r@ == (ServiceModel { name: name@, methods: methods.deep_view() }),
{
    ServiceDescriptor { name, methods }
}

} // verus!
