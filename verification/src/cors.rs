//! The cross-origin policy of the service.
//!
//! The policy is plain data. The layer that answers requests turns it into
//! the headers of its replies.

use vstd::prelude::*;

verus! {

/// A request method.
#[derive(Clone, Copy, Debug, PartialEq, Eq, Structural)]
pub enum Verb {
    Get,
    Post,
    Options,
    Delete,
}

/// Which requests from other origins are let through.
#[derive(Clone, Debug, PartialEq, Eq)]
pub struct CorsPolicy {
    /// Whether a request may come from any origin.
    pub any_origin: bool,
    /// The methods that a request from another origin may use.
    pub methods: Vec<Verb>,
    /// Whether such a request may carry any header.
    pub any_header: bool,
    /// Whether it may carry credentials.
    pub allow_credentials: bool,
    /// The path under which preflight requests are answered.
    pub route_base: String,
    /// For how many seconds the answer to a preflight request may be kept.
    pub max_age: Option<usize>,
}

/// The view of a [`CorsPolicy`].
pub struct CorsPolicyView {
    pub any_origin: bool,
    pub methods: Seq<Verb>,
    pub any_header: bool,
    pub allow_credentials: bool,
    pub route_base: Seq<char>,
    pub max_age: Option<usize>,
}

impl View for CorsPolicy {
    type V = CorsPolicyView;

    open spec fn view(&self) -> CorsPolicyView {
        CorsPolicyView {
            any_origin: self.any_origin,
            methods: self.methods@,
            any_header: self.any_header,
            allow_credentials: self.allow_credentials,
            route_base: self.route_base@,
            max_age: self.max_age,
        }
    }
}

/// The policy that lets every origin in, with credentials and any header,
/// for the given methods, and has the answer to a preflight request kept for
/// 42 seconds.
pub open spec fn open_policy(methods: Seq<Verb>) -> CorsPolicyView {
    CorsPolicyView {
        any_origin: true,
        methods,
        any_header: true,
        allow_credentials: true,
        route_base: "/"@,
        max_age: Some(42usize),
    }
}

fn open_to(methods: Vec<Verb>) -> (policy: CorsPolicy)
    ensures
        policy@ == open_policy(methods@),
{
    CorsPolicy {
        any_origin: true,
        methods,
        any_header: true,
        allow_credentials: true,
        route_base: "/".to_owned(),
        max_age: Some(42),
    }
}

/// The policy under which the resources answer: any origin may read, submit
/// and delete.
pub fn core_options() -> (policy: CorsPolicy)
    ensures
        policy@ == open_policy(seq![Verb::Get, Verb::Post, Verb::Options, Verb::Delete]),
{
    let mut methods: Vec<Verb> = Vec::new();
    methods.push(Verb::Get);
    methods.push(Verb::Post);
    methods.push(Verb::Options);
    methods.push(Verb::Delete);
    assert(methods@ =~= seq![Verb::Get, Verb::Post, Verb::Options, Verb::Delete]);
    open_to(methods)
}

/// The policy under which preflight requests are answered: as
/// [`core_options`], without deletion.
pub fn cors() -> (policy: CorsPolicy)
    ensures
        policy@ == open_policy(seq![Verb::Get, Verb::Post, Verb::Options]),
{
    let mut methods: Vec<Verb> = Vec::new();
    methods.push(Verb::Get);
    methods.push(Verb::Post);
    methods.push(Verb::Options);
    assert(methods@ =~= seq![Verb::Get, Verb::Post, Verb::Options]);
    open_to(methods)
}

} // verus!
