//! The runtime dispatcher: the fixed-shape entry point that a synthesized
//! handler plan drives. It runs the extraction steps strictly in
//! declaration order; the first failure renders a client-error response
//! carrying the failure's cause and terminates dispatch without invoking
//! the business function; success yields the assembled call-argument list,
//! in declaration order, for the caller to invoke the business function
//! with.

use vstd::prelude::*;

use crate::method::{Request, RequestModel};
use crate::synth::{ArgSpec, ArgSpecModel, HandlerPlan, PlanModel};
use crate::text::copy_bytes;

verus! {

broadcast use crate::text::lemma_bytes_deep_view;

/// The parts of a response this core writes: a status code, the cause
/// attached to an error rendering, and the body a writer renders.
#[derive(Debug, Clone, PartialEq, Eq)]
pub struct Response {
    pub status: Option<u16>,
    pub cause: Option<Vec<u8>>,
    pub body: Vec<u8>,
}

/// Mathematical model of [`Response`].
pub ghost struct ResponseModel {
    pub status: Option<u16>,
    pub cause: Option<Seq<u8>>,
    pub body: Seq<u8>,
}

impl View for Response {
    type V = ResponseModel;

    open spec fn view(&self) -> ResponseModel {
        ResponseModel {
            status: self.status,
            cause: self.cause.deep_view(),
            body: self.body@,
        }
    }
}

impl Response {
    /// A fresh response: nothing rendered yet.
    pub fn new() -> (r: Response)
        ensures
            r@ == (ResponseModel { status: None, cause: None, body: Seq::<u8>::empty() }),
    {
        let r = Response { status: None, cause: None, body: Vec::new() };
        proof {
            assert(r@.body =~= Seq::<u8>::empty());
        }
        r
    }
}

/// The status code of the client-error rendering used for extraction
/// failures.
pub open spec fn bad_request_status() -> u16 {
    400
}

/// A typed extraction failure; its cause is the lookup key that could not
/// be served from the request.
#[derive(Debug, Clone, PartialEq, Eq)]
pub struct ExtractError {
    pub key: Vec<u8>,
}

/// The value stored under `key`, first match.
pub open spec fn lookup_value(vals: Seq<(Seq<u8>, Seq<u8>)>, key: Seq<u8>) -> Option<Seq<u8>>
    decreases vals.len(),
{
    if vals.len() == 0 {
        None
    } else if vals.first().0 == key {
        Some(vals.first().1)
    } else {
        lookup_value(vals.drop_first(), key)
    }
}

/// The modeled Extraction Protocol: pull the value for `key` out of the
/// request's extraction source, or fail with the key as the cause.
pub fn extract(req: &Request, key: &Vec<u8>) -> (r: Result<Vec<u8>, ExtractError>)
    ensures
        (match lookup_value(req@.values, key@) {
            Some(v) => r is Ok && r->Ok_0@ == v,
            None => r is Err && r->Err_0.key@ == key@,
        }),
{
    let ghost vals = req@.values;
    let mut i: usize = 0;
    proof {
        assert(vals.skip(0) =~= vals);
    }
    while i < req.values.len()
        invariant
            i <= req.values.len(),
            vals == req@.values,
            lookup_value(vals, key@) == lookup_value(vals.skip(i as int), key@),
        decreases req.values.len() - i,
    {
        proof {
            assert(vals.skip(i as int).first() == vals[i as int]);
            assert(vals.skip(i as int).drop_first() =~= vals.skip(i + 1));
        }
        if crate::text::bytes_eq(&req.values[i].0, &key) {
            return Ok(copy_bytes(&req.values[i].1));
        }
        i = i + 1;
    }
    Err(ExtractError { key: copy_bytes(key) })
}

// ---------------------------------------------------------------------------
// The dispatch outcome
// ---------------------------------------------------------------------------

/// One assembled argument of the business-function call.
#[derive(Debug, Clone, PartialEq, Eq)]
pub enum CallArg {
    /// The request reference.
    Req,
    /// The shared-state reference.
    Depot,
    /// The response reference.
    Res,
    /// The flow-control reference.
    Ctrl,
    /// The receiver (`self`).
    Receiver,
    /// The extracted value, under its local binding name.
    Value { binding: Vec<u8>, value: Vec<u8> },
}

/// Mathematical model of [`CallArg`].
pub ghost enum CallArgModel {
    Req,
    Depot,
    Res,
    Ctrl,
    Receiver,
    Value { binding: Seq<u8>, value: Seq<u8> },
}

impl View for CallArg {
    type V = CallArgModel;

    open spec fn view(&self) -> CallArgModel {
        match self {
            CallArg::Req => CallArgModel::Req,
            CallArg::Depot => CallArgModel::Depot,
            CallArg::Res => CallArgModel::Res,
            CallArg::Ctrl => CallArgModel::Ctrl,
            CallArg::Receiver => CallArgModel::Receiver,
            CallArg::Value { binding, value } => CallArgModel::Value {
                binding: binding@,
                value: value@,
            },
        }
    }
}

impl DeepView for CallArg {
    type V = CallArgModel;

    open spec fn deep_view(&self) -> CallArgModel {
        self.view()
    }
}

/// How one dispatch ended.
#[derive(Debug, Clone, PartialEq, Eq)]
pub enum DispatchOutcome {
    /// Extraction under `lookup` failed: the response carries the failure's
    /// cause and the business function was never invoked.
    Aborted { lookup: Vec<u8> },
    /// Every extraction succeeded: invoke the business function with these
    /// arguments, in declaration order, then hand its return value to the
    /// writer protocol iff `write_output`.
    Invoke { args: Vec<CallArg>, write_output: bool },
}

/// Mathematical model of [`DispatchOutcome`].
pub ghost enum DispatchOutcomeModel {
    Aborted { lookup: Seq<u8> },
    Invoke { args: Seq<CallArgModel>, write_output: bool },
}

impl View for DispatchOutcome {
    type V = DispatchOutcomeModel;

    open spec fn view(&self) -> DispatchOutcomeModel {
        match self {
            DispatchOutcome::Aborted { lookup } => DispatchOutcomeModel::Aborted {
                lookup: lookup@,
            },
            DispatchOutcome::Invoke { args, write_output } => DispatchOutcomeModel::Invoke {
                args: args.deep_view(),
                write_output: *write_output,
            },
        }
    }
}

// ---------------------------------------------------------------------------
// Dispatch semantics
// ---------------------------------------------------------------------------

/// Whether this argument's extraction fails against the request's values.
pub open spec fn arg_fails(a: ArgSpecModel, vals: Seq<(Seq<u8>, Seq<u8>)>) -> bool {
    match a {
        ArgSpecModel::Extract { binding, lookup, ty } => lookup_value(vals, lookup) is None,
        _ => false,
    }
}

/// The lookup name of an extractable argument.
pub open spec fn arg_lookup(a: ArgSpecModel) -> Seq<u8> {
    match a {
        ArgSpecModel::Extract { binding, lookup, ty } => lookup,
        _ => Seq::empty(),
    }
}

/// The position of the first argument whose extraction fails, if any.
pub open spec fn spec_first_failure(
    args: Seq<ArgSpecModel>,
    vals: Seq<(Seq<u8>, Seq<u8>)>,
) -> Option<int>
    decreases args.len(),
{
    if args.len() == 0 {
        None
    } else {
        match spec_first_failure(args.drop_last(), vals) {
            Some(k) => Some(k),
            None => if arg_fails(args.last(), vals) {
                Some(args.len() - 1)
            } else {
                None
            },
        }
    }
}

/// The first failure really is the first: it fails, and nothing before it
/// does; and when there is none, nothing fails at all.
pub proof fn lemma_first_failure_correct(args: Seq<ArgSpecModel>, vals: Seq<(Seq<u8>, Seq<u8>)>)
    ensures
        (match spec_first_failure(args, vals) {
            Some(k) => 0 <= k < args.len() && arg_fails(args[k], vals) && (forall|j: int|
                0 <= j < k ==> !arg_fails(#[trigger] args[j], vals)),
            None => forall|j: int| 0 <= j < args.len() ==> !arg_fails(#[trigger] args[j], vals),
        }),
    decreases args.len(),
{
    if args.len() > 0 {
        lemma_first_failure_correct(args.drop_last(), vals);
        assert(forall|j: int|
            0 <= j < args.len() - 1 ==> #[trigger] args[j] == args.drop_last()[j]);
        assert(args.last() == args[args.len() - 1]);
    }
}

proof fn lemma_first_failure_stable(
    args: Seq<ArgSpecModel>,
    vals: Seq<(Seq<u8>, Seq<u8>)>,
    i: int,
)
    requires
        0 <= i <= args.len(),
        spec_first_failure(args.take(i), vals) is Some,
    ensures
        spec_first_failure(args, vals) == spec_first_failure(args.take(i), vals),
    decreases args.len() - i,
{
    if i < args.len() {
        assert(args.take(i + 1).drop_last() =~= args.take(i));
        lemma_first_failure_stable(args, vals, i + 1);
    } else {
        assert(args.take(i) =~= args);
    }
}

/// The argument the dispatcher passes for one classified parameter:
/// framework references pass through, extractable parameters carry the
/// extracted value under their local binding.
pub open spec fn spec_call_arg(a: ArgSpecModel, vals: Seq<(Seq<u8>, Seq<u8>)>) -> CallArgModel {
    match a {
        ArgSpecModel::Req => CallArgModel::Req,
        ArgSpecModel::Depot => CallArgModel::Depot,
        ArgSpecModel::Res => CallArgModel::Res,
        ArgSpecModel::Ctrl => CallArgModel::Ctrl,
        ArgSpecModel::Receiver => CallArgModel::Receiver,
        ArgSpecModel::Extract { binding, lookup, ty } => CallArgModel::Value {
            binding,
            value: (match lookup_value(vals, lookup) {
                Some(v) => v,
                None => Seq::empty(),
            }),
        },
    }
}

/// What one dispatch does, as a function of the plan, the request, and the
/// starting response state: either every extraction succeeds, the response
/// is untouched and the business call's arguments stand in declaration
/// order; or the first failing extraction aborts the dispatch, with the
/// client-error rendering — status and the failure's cause — on the
/// response.
pub open spec fn spec_dispatch(
    plan: PlanModel,
    req: RequestModel,
    res0: ResponseModel,
) -> (DispatchOutcomeModel, ResponseModel) {
    match spec_first_failure(plan.args, req.values) {
        Some(k) => (
            DispatchOutcomeModel::Aborted { lookup: arg_lookup(plan.args[k]) },
            ResponseModel {
                status: Some(bad_request_status()),
                cause: Some(arg_lookup(plan.args[k])),
                body: res0.body,
            },
        ),
        None => (
            DispatchOutcomeModel::Invoke {
                args: Seq::new(plan.args.len(), |i: int| spec_call_arg(plan.args[i], req.values)),
                write_output: plan.output_ty is Some,
            },
            res0,
        ),
    }
}

/// Run one dispatch: extraction steps strictly in declaration order, the
/// first failure rendering the client error and short-circuiting all later
/// steps and the business call.
pub fn dispatch(plan: &HandlerPlan, req: &Request, res: &mut Response) -> (o: DispatchOutcome)
    ensures
        (o@, final(res)@) == spec_dispatch(plan@, req@, old(res)@),
{
    let ghost pargs = plan@.args;
    let ghost vals = req@.values;
    let mut out: Vec<CallArg> = Vec::new();
    let mut i: usize = 0;
    proof {
        assert(pargs.take(0) =~= Seq::<ArgSpecModel>::empty());
        assert(out.deep_view() =~= Seq::new(0, |k: int| spec_call_arg(pargs[k], vals)));
    }
    while i < plan.args.len()
        invariant
            i <= plan.args.len(),
            pargs == plan@.args,
            vals == req@.values,
            *res == *old(res),
            spec_first_failure(pargs.take(i as int), vals) is None,
            out.deep_view() == Seq::new(i as nat, |k: int| spec_call_arg(pargs[k], vals)),
        decreases plan.args.len() - i,
    {
        proof {
            assert(pargs.take(i + 1).drop_last() =~= pargs.take(i as int));
            assert(pargs.take(i + 1).last() == pargs[i as int]);
        }
        let arg: CallArg = match &plan.args[i] {
            ArgSpec::Req => CallArg::Req,
            ArgSpec::Depot => CallArg::Depot,
            ArgSpec::Res => CallArg::Res,
            ArgSpec::Ctrl => CallArg::Ctrl,
            ArgSpec::Receiver => CallArg::Receiver,
            ArgSpec::Extract { binding, lookup, ty } => {
                match extract(req, lookup) {
                    Ok(v) => CallArg::Value { binding: copy_bytes(binding), value: v },
                    Err(e) => {
                        res.status = Some(400);
                        res.cause = Some(e.key);
                        proof {
                            assert(spec_first_failure(pargs.take(i + 1), vals) == Some(i as int));
                            lemma_first_failure_stable(pargs, vals, i + 1);
                            assert(arg_lookup(pargs[i as int]) == lookup@);
                        }
                        return DispatchOutcome::Aborted { lookup: copy_bytes(lookup) };
                    },
                }
            },
        };
        proof {
            assert(arg@ == spec_call_arg(pargs[i as int], vals));
        }
        let ghost olddv = out.deep_view();
        out.push(arg);
        proof {
            assert(out.deep_view() =~~= olddv.push(arg@));
            assert(olddv.push(arg@) =~~= Seq::new(
                (i + 1) as nat,
                |k: int| spec_call_arg(pargs[k], vals),
            ));
        }
        i = i + 1;
    }
    proof {
        assert(pargs.take(plan.args.len() as int) =~= pargs);
        lemma_first_failure_correct(pargs, vals);
    }
    DispatchOutcome::Invoke { args: out, write_output: plan.output_ty.is_some() }
}

/// Dispatch is idempotent and deterministic: its outcome and the rendered
/// response are a function of the plan, the request, and the starting
/// response state alone, so invoking the same synthesized handler twice
/// over equivalent starting states produces equivalent rendered responses.
pub proof fn lemma_dispatch_idempotent(
    plan: PlanModel,
    req1: RequestModel,
    req2: RequestModel,
    res1: ResponseModel,
    res2: ResponseModel,
)
    requires
        req1 == req2,
        res1 == res2,
    ensures
        spec_dispatch(plan, req1, res1) == spec_dispatch(plan, req2, res2),
{
}

/// Failing extraction short-circuits: with the first failing extractable
/// argument at position `k`, no earlier argument fails, the outcome aborts
/// — the business function is never invoked — and the rendered response is
/// the client error carrying that argument's failure cause.
pub proof fn lemma_abort_at_first_failure(
    plan: PlanModel,
    req: RequestModel,
    res0: ResponseModel,
)
    requires
        spec_first_failure(plan.args, req.values) is Some,
    ensures
        ({
            let k = spec_first_failure(plan.args, req.values)->0;
            &&& 0 <= k < plan.args.len()
            &&& arg_fails(plan.args[k], req.values)
            &&& forall|j: int| 0 <= j < k ==> !arg_fails(#[trigger] plan.args[j], req.values)
            &&& spec_dispatch(plan, req, res0).0 == (DispatchOutcomeModel::Aborted {
                lookup: arg_lookup(plan.args[k]),
            })
            &&& spec_dispatch(plan, req, res0).1.status == Some(bad_request_status())
            &&& spec_dispatch(plan, req, res0).1.cause == Some(arg_lookup(plan.args[k]))
        }),
{
    lemma_first_failure_correct(plan.args, req.values);
}

} // verus!
