//! Route-matching filters and the request-side data they read.
//!
//! A [`Filter`] is a predicate over a request and a matching cursor; the
//! routing tree evaluates filters to pick a handler. [`MethodFilter`] is the
//! canonical leaf filter: it matches on the request's HTTP method alone and
//! never touches the cursor.

use vstd::prelude::*;

verus! {

/// An HTTP method.
#[derive(Clone, Copy, PartialEq, Eq, Structural, Debug)]
pub enum Method {
    Get,
    Head,
    Options,
    Post,
    Patch,
    Put,
    Delete,
}

/// The parts of an incoming request that route matching and argument
/// extraction read: the method, and the extractable values keyed by
/// lookup name (the extraction source).
#[derive(Debug, Clone, PartialEq, Eq)]
pub struct Request {
    pub method: Method,
    pub values: Vec<(Vec<u8>, Vec<u8>)>,
}

/// Mathematical model of [`Request`].
pub ghost struct RequestModel {
    pub method: Method,
    pub values: Seq<(Seq<u8>, Seq<u8>)>,
}

impl View for Request {
    type V = RequestModel;

    open spec fn view(&self) -> RequestModel {
        RequestModel { method: self.method, values: self.values.deep_view() }
    }
}

impl Request {
    /// The request's method.
    pub fn method(&self) -> (m: Method)
        ensures
            m == self.method,
    {
        self.method
    }
}

/// Per-request route-matching progress: how much of the request path has
/// been consumed, and which path variables have been bound so far.
#[derive(Debug, Clone, PartialEq, Eq)]
pub struct PathState {
    /// The full request path being matched.
    pub path: Vec<u8>,
    /// How many bytes of `path` earlier filters have consumed.
    pub consumed: usize,
    /// Path variables bound so far (name, value); insertion order irrelevant.
    pub bound: Vec<(Vec<u8>, Vec<u8>)>,
}

impl PathState {
    /// The cursor never consumes past the end of the path.
    pub open spec fn wf(&self) -> bool {
        self.consumed <= self.path@.len()
    }

    /// The part of the path already consumed by earlier filters.
    pub open spec fn consumed_part(&self) -> Seq<u8> {
        self.path@.take(self.consumed as int)
    }

    /// The unconsumed suffix still available to later filters.
    pub open spec fn unconsumed_part(&self) -> Seq<u8> {
        self.path@.skip(self.consumed as int)
    }

    /// A fresh cursor over `path`: nothing consumed, nothing bound.
    pub fn new(path: Vec<u8>) -> (s: PathState)
        ensures
            s.wf(),
            s.path == path,
            s.consumed == 0usize,
            s.bound@ =~= Seq::<(Vec<u8>, Vec<u8>)>::empty(),
    {
        PathState { path, consumed: 0, bound: Vec::new() }
    }

    /// Consumed prefix plus unconsumed suffix always reconstruct the full
    /// request path: the cursor loses no part of it.
    pub proof fn lemma_parts_reconstruct_path(&self)
        requires
            self.wf(),
        ensures
            self.consumed_part() + self.unconsumed_part() == self.path@,
    {
        assert(self.consumed_part() + self.unconsumed_part() =~= self.path@);
    }
}

/// A route-matching predicate. The routing tree composes filters with
/// logical AND/OR/NOT and backtracks over the cursor state; implementors
/// that consume cursor state may do so only on a path that leads to an
/// overall match.
pub trait Filter {
    /// Whether the filter matches `req` at the current cursor position.
    fn execute(&self, req: &mut Request, path: &mut PathState) -> bool;
}

/// A filter that matches a request if and only if its method equals the
/// configured one. A pure comparison: it mutates neither the request nor
/// the cursor.
pub struct MethodFilter(pub Method);

impl Filter for MethodFilter {
    fn execute(&self, req: &mut Request, path: &mut PathState) -> (matched: bool)
        ensures
            matched == (old(req).method == self.0),
            *final(req) == *old(req),
            *final(path) == *old(path),
    {
        req.method() == self.0
    }
}

/// Filter that matches requests with the method `GET`.
pub fn get() -> (f: MethodFilter)
    ensures
        f.0 == Method::Get,
{
    MethodFilter(Method::Get)
}

/// Filter that matches requests with the method `HEAD`.
pub fn head() -> (f: MethodFilter)
    ensures
        f.0 == Method::Head,
{
    MethodFilter(Method::Head)
}

/// Filter that matches requests with the method `OPTIONS`.
pub fn options() -> (f: MethodFilter)
    ensures
        f.0 == Method::Options,
{
    MethodFilter(Method::Options)
}

/// Filter that matches requests with the method `POST`.
pub fn post() -> (f: MethodFilter)
    ensures
        f.0 == Method::Post,
{
    MethodFilter(Method::Post)
}

/// Filter that matches requests with the method `PATCH`.
pub fn patch() -> (f: MethodFilter)
    ensures
        f.0 == Method::Patch,
{
    MethodFilter(Method::Patch)
}

/// Filter that matches requests with the method `PUT`.
pub fn put() -> (f: MethodFilter)
    ensures
        f.0 == Method::Put,
{
    MethodFilter(Method::Put)
}

/// Filter that matches requests with the method `DELETE`.
pub fn delete() -> (f: MethodFilter)
    ensures
        f.0 == Method::Delete,
{
    MethodFilter(Method::Delete)
}

} // verus!
