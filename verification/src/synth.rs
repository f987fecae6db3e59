//! The handler synthesizer: classify every parameter of a handler
//! signature, derive each extractable parameter's lookup name, assemble the
//! call-argument list in declaration order, and emit the metadata
//! registration steps — one per extractable parameter, in declaration
//! order, then one for the return type.

use vstd::prelude::*;

use crate::operation::{RegStep, RegStepModel};
use crate::parse::{ParamDecl, ParamDeclModel, ParsedFn, ParsedFnModel, parse_fn_source,
    parse_impl_source, parsed_fn_of, parsed_impl_of};
use crate::text::{after_last_space, bytes_eq, copy_bytes, strip_one_underscore,
    strip_qualifier, strip_underscore};

verus! {

broadcast use crate::text::lemma_bytes_deep_view;

/// A build-time synthesis failure; none of these can occur at run time.
#[derive(Clone, Copy, PartialEq, Eq, Structural, Debug)]
pub enum BuildError {
    /// The source text did not parse as a function item.
    Unparsable,
    /// The named parameter is a reference, but not to one of the framework
    /// types a handler may take by reference.
    UnsupportedParameter { index: usize },
    /// The named parameter's binding is not a plain (optionally `mut`)
    /// identifier with a named type.
    InvalidParam { index: usize },
    /// A handler type declares no `handle` method to synthesize from.
    MissingHandle,
    /// An allowlist value is not a recognizable status code; literal
    /// allowlist values must be recognized at documentation-build time.
    UnrecognizedStatusCode { code: u16 },
}

/// One argument of the synthesized dispatch wrapper's call into the
/// business function.
#[derive(Debug, Clone, PartialEq, Eq)]
pub enum ArgSpec {
    /// Substitute the request reference.
    Req,
    /// Substitute the shared-state ("depot") reference.
    Depot,
    /// Substitute the response reference.
    Res,
    /// Substitute the flow-control reference.
    Ctrl,
    /// Substitute the receiver (`self`).
    Receiver,
    /// Substitute the value extracted under `lookup`, locally bound as
    /// `binding`, of the type written as `ty`.
    Extract { binding: Vec<u8>, lookup: Vec<u8>, ty: Vec<u8> },
}

/// Mathematical model of [`ArgSpec`].
pub ghost enum ArgSpecModel {
    Req,
    Depot,
    Res,
    Ctrl,
    Receiver,
    Extract { binding: Seq<u8>, lookup: Seq<u8>, ty: Seq<u8> },
}

impl View for ArgSpec {
    type V = ArgSpecModel;

    open spec fn view(&self) -> ArgSpecModel {
        match self {
            ArgSpec::Req => ArgSpecModel::Req,
            ArgSpec::Depot => ArgSpecModel::Depot,
            ArgSpec::Res => ArgSpecModel::Res,
            ArgSpec::Ctrl => ArgSpecModel::Ctrl,
            ArgSpec::Receiver => ArgSpecModel::Receiver,
            ArgSpec::Extract { binding, lookup, ty } => ArgSpecModel::Extract {
                binding: binding@,
                lookup: lookup@,
                ty: ty@,
            },
        }
    }
}

impl DeepView for ArgSpec {
    type V = ArgSpecModel;

    open spec fn deep_view(&self) -> ArgSpecModel {
        self.view()
    }
}

// ---------------------------------------------------------------------------
// The framework type names a handler may take by reference
// ---------------------------------------------------------------------------

/// The request type's name.
pub open spec fn request_type_name() -> Seq<u8> {
    seq![82u8, 101u8, 113u8, 117u8, 101u8, 115u8, 116u8]
}

/// The shared-state type's name.
pub open spec fn depot_type_name() -> Seq<u8> {
    seq![68u8, 101u8, 112u8, 111u8, 116u8]
}

/// The response type's name.
pub open spec fn response_type_name() -> Seq<u8> {
    seq![82u8, 101u8, 115u8, 112u8, 111u8, 110u8, 115u8, 101u8]
}

/// The flow-control type's name.
pub open spec fn flowctrl_type_name() -> Seq<u8> {
    seq![70u8, 108u8, 111u8, 119u8, 67u8, 116u8, 114u8, 108u8]
}

/// The entry-point method name a handler type must declare.
pub open spec fn handle_method_name() -> Seq<u8> {
    seq![104u8, 97u8, 110u8, 100u8, 108u8, 101u8]
}

/// The byte string `Request`.
fn request_name() -> (v: Vec<u8>)
    ensures
        v@ == request_type_name(),
{
    let mut v: Vec<u8> = Vec::new();
    v.push(82);
    v.push(101);
    v.push(113);
    v.push(117);
    v.push(101);
    v.push(115);
    v.push(116);
    proof {
        assert(v@ =~= request_type_name());
    }
    v
}

/// The byte string `Depot`.
fn depot_name() -> (v: Vec<u8>)
    ensures
        v@ == depot_type_name(),
{
    let mut v: Vec<u8> = Vec::new();
    v.push(68);
    v.push(101);
    v.push(112);
    v.push(111);
    v.push(116);
    proof {
        assert(v@ =~= depot_type_name());
    }
    v
}

/// The byte string `Response`.
fn response_name() -> (v: Vec<u8>)
    ensures
        v@ == response_type_name(),
{
    let mut v: Vec<u8> = Vec::new();
    v.push(82);
    v.push(101);
    v.push(115);
    v.push(112);
    v.push(111);
    v.push(110);
    v.push(115);
    v.push(101);
    proof {
        assert(v@ =~= response_type_name());
    }
    v
}

/// The byte string `FlowCtrl`.
fn flowctrl_name() -> (v: Vec<u8>)
    ensures
        v@ == flowctrl_type_name(),
{
    let mut v: Vec<u8> = Vec::new();
    v.push(70);
    v.push(108);
    v.push(111);
    v.push(119);
    v.push(67);
    v.push(116);
    v.push(114);
    v.push(108);
    proof {
        assert(v@ =~= flowctrl_type_name());
    }
    v
}

/// The byte string `handle`.
fn handle_name() -> (v: Vec<u8>)
    ensures
        v@ == handle_method_name(),
{
    let mut v: Vec<u8> = Vec::new();
    v.push(104);
    v.push(97);
    v.push(110);
    v.push(100);
    v.push(108);
    v.push(101);
    proof {
        assert(v@ =~= handle_method_name());
    }
    v
}

// ---------------------------------------------------------------------------
// Classification
// ---------------------------------------------------------------------------

/// The classification of one declared parameter. A receiver passes `self`;
/// a reference must be to one of the four framework types and passes that
/// reference; any other parameter is extractable: its binding must be a
/// plain (optionally `mut`) identifier pattern and its type a path type,
/// its local binding is the bare identifier (any qualifier stripped), and
/// its lookup name is that identifier with one leading underscore stripped.
pub open spec fn spec_classify(p: ParamDeclModel, index: usize) -> Result<ArgSpecModel, BuildError> {
    if p.receiver {
        Ok(ArgSpecModel::Receiver)
    } else if p.by_ref {
        if p.ty == request_type_name() {
            Ok(ArgSpecModel::Req)
        } else if p.ty == depot_type_name() {
            Ok(ArgSpecModel::Depot)
        } else if p.ty == response_type_name() {
            Ok(ArgSpecModel::Res)
        } else if p.ty == flowctrl_type_name() {
            Ok(ArgSpecModel::Ctrl)
        } else {
            Err(BuildError::UnsupportedParameter { index })
        }
    } else if p.ident_binding && p.path_type {
        let base = after_last_space(p.binding);
        Ok(ArgSpecModel::Extract { binding: base, lookup: strip_one_underscore(base), ty: p.ty })
    } else {
        Err(BuildError::InvalidParam { index })
    }
}

/// Classify one parameter, deriving the extractable lookup name.
fn classify(p: &ParamDecl, index: usize) -> (r: Result<ArgSpec, BuildError>)
    ensures
        (match r {
            Ok(a) => spec_classify(p@, index) == Ok::<ArgSpecModel, BuildError>(a@),
            Err(e) => spec_classify(p@, index) == Err::<ArgSpecModel, BuildError>(e),
        }),
{
    if p.receiver {
        Ok(ArgSpec::Receiver)
    } else if p.by_ref {
        if bytes_eq(&p.ty, &request_name()) {
            Ok(ArgSpec::Req)
        } else if bytes_eq(&p.ty, &depot_name()) {
            Ok(ArgSpec::Depot)
        } else if bytes_eq(&p.ty, &response_name()) {
            Ok(ArgSpec::Res)
        } else if bytes_eq(&p.ty, &flowctrl_name()) {
            Ok(ArgSpec::Ctrl)
        } else {
            Err(BuildError::UnsupportedParameter { index })
        }
    } else if p.ident_binding && p.path_type {
        let base = strip_qualifier(&p.binding);
        let lookup = strip_underscore(&base);
        Ok(ArgSpec::Extract { binding: base, lookup, ty: copy_bytes(&p.ty) })
    } else {
        Err(BuildError::InvalidParam { index })
    }
}

// ---------------------------------------------------------------------------
// Synthesis
// ---------------------------------------------------------------------------

/// The call-argument list for the declared parameters: one argument per
/// parameter, in declaration order, or the first classification error.
pub open spec fn spec_args(ps: Seq<ParamDeclModel>) -> Result<Seq<ArgSpecModel>, BuildError>
    decreases ps.len(),
{
    if ps.len() == 0 {
        Ok(Seq::empty())
    } else {
        match spec_args(ps.drop_last()) {
            Err(e) => Err(e),
            Ok(rest) => match spec_classify(ps.last(), (ps.len() - 1) as usize) {
                Err(e) => Err(e),
                Ok(a) => Ok(rest.push(a)),
            },
        }
    }
}

/// The metadata-registration steps for the call arguments: one step per
/// extractable argument, under its lookup name, in declaration order.
pub open spec fn spec_arg_steps(args: Seq<ArgSpecModel>) -> Seq<RegStepModel>
    decreases args.len(),
{
    if args.len() == 0 {
        Seq::empty()
    } else {
        let rest = spec_arg_steps(args.drop_last());
        match args.last() {
            ArgSpecModel::Extract { binding, lookup, ty } => rest.push(
                RegStepModel::Arg { name: lookup, ty },
            ),
            _ => rest,
        }
    }
}

/// Everything synthesized from one handler signature: the fixed-shape
/// dispatch wrapper is driven by `args`, and the metadata registration by
/// `steps` — both derived from the same parameter list, so the documented
/// contract cannot drift from the dispatched one.
#[derive(Debug, Clone, PartialEq, Eq)]
pub struct HandlerPlan {
    /// The business function's name.
    pub name: Vec<u8>,
    /// Whether the business function must be awaited.
    pub is_async: bool,
    /// The declared return type, handed to the writer protocol.
    pub output_ty: Option<Vec<u8>>,
    /// The call arguments, one per declared parameter, declaration order.
    pub args: Vec<ArgSpec>,
    /// The registration steps: per extractable parameter in declaration
    /// order, then one for the return type if there is one.
    pub steps: Vec<RegStep>,
}

/// Mathematical model of [`HandlerPlan`].
pub ghost struct PlanModel {
    pub name: Seq<u8>,
    pub is_async: bool,
    pub output_ty: Option<Seq<u8>>,
    pub args: Seq<ArgSpecModel>,
    pub steps: Seq<RegStepModel>,
}

impl View for HandlerPlan {
    type V = PlanModel;

    open spec fn view(&self) -> PlanModel {
        PlanModel {
            name: self.name@,
            is_async: self.is_async,
            output_ty: self.output_ty.deep_view(),
            args: self.args.deep_view(),
            steps: self.steps.deep_view(),
        }
    }
}

/// The plan synthesized for one parsed signature, or the first build error.
pub open spec fn spec_synthesize(f: ParsedFnModel) -> Result<PlanModel, BuildError> {
    match spec_args(f.params) {
        Err(e) => Err(e),
        Ok(args) => Ok(PlanModel {
            name: f.name,
            is_async: f.is_async,
            output_ty: f.output_ty,
            args,
            steps: match f.output_ty {
                Some(ty) => spec_arg_steps(args).push(RegStepModel::Out { ty }),
                None => spec_arg_steps(args),
            },
        }),
    }
}

proof fn lemma_args_error_stable(ps: Seq<ParamDeclModel>, i: int)
    requires
        0 <= i <= ps.len(),
        spec_args(ps.take(i)) is Err,
    ensures
        spec_args(ps) == spec_args(ps.take(i)),
    decreases ps.len() - i,
{
    if i < ps.len() {
        assert(ps.take(i + 1).drop_last() =~= ps.take(i));
        lemma_args_error_stable(ps, i + 1);
    } else {
        assert(ps.take(i) =~= ps);
    }
}

/// Call-argument order equals declaration order: a successful synthesis
/// yields exactly one call argument per declared parameter — the
/// classification of that parameter — at the same position, whatever the
/// mix of classifications.
pub proof fn lemma_call_args_match_declaration(ps: Seq<ParamDeclModel>)
    requires
        spec_args(ps) is Ok,
    ensures
        spec_args(ps)->Ok_0.len() == ps.len(),
        forall|i: int|
            0 <= i < ps.len() ==> Ok::<ArgSpecModel, BuildError>(
                #[trigger] spec_args(ps)->Ok_0[i],
            ) == spec_classify(ps[i], i as usize),
    decreases ps.len(),
{
    if ps.len() > 0 {
        lemma_call_args_match_declaration(ps.drop_last());
        assert(forall|i: int|
            0 <= i < ps.len() - 1 ==> ps.drop_last()[i] == ps[i]);
    }
}

/// Synthesize the dispatch plan for one parsed handler signature.
pub fn synthesize(f: &ParsedFn) -> (r: Result<HandlerPlan, BuildError>)
    ensures
        (match r {
            Ok(p) => spec_synthesize(f.deep_view()) == Ok::<PlanModel, BuildError>(p@),
            Err(e) => spec_synthesize(f.deep_view()) == Err::<PlanModel, BuildError>(e),
        }),
{
    let ghost ps = f.deep_view().params;
    let mut args: Vec<ArgSpec> = Vec::new();
    let mut steps: Vec<RegStep> = Vec::new();
    let mut i: usize = 0;
    proof {
        assert(ps.take(0) =~= Seq::<ParamDeclModel>::empty());
        assert(args.deep_view() =~= Seq::<ArgSpecModel>::empty());
        assert(steps.deep_view() =~= Seq::<RegStepModel>::empty());
    }
    while i < f.params.len()
        invariant
            i <= f.params.len(),
            ps == f.deep_view().params,
            spec_args(ps.take(i as int)) == Ok::<Seq<ArgSpecModel>, BuildError>(args.deep_view()),
            steps.deep_view() == spec_arg_steps(args.deep_view()),
        decreases f.params.len() - i,
    {
        proof {
            assert(ps.take(i + 1).drop_last() =~= ps.take(i as int));
            assert(ps.take(i + 1).last() == ps[i as int]);
        }
        let ghost oldargs = args.deep_view();
        let ghost oldsteps = steps.deep_view();
        match classify(&f.params[i], i) {
            Ok(a) => {
                let ghost av = a@;
                proof {
                    assert(oldargs.push(av).drop_last() =~= oldargs);
                }
                match &a {
                    ArgSpec::Extract { binding, lookup, ty } => {
                        steps.push(RegStep::Arg { name: copy_bytes(lookup), ty: copy_bytes(ty) });
                        proof {
                            assert(av == (ArgSpecModel::Extract {
                                binding: binding@,
                                lookup: lookup@,
                                ty: ty@,
                            }));
                            assert(steps.deep_view() =~~= oldsteps.push(
                                RegStepModel::Arg { name: lookup@, ty: ty@ },
                            ));
                            assert(spec_arg_steps(oldargs.push(av)) == steps.deep_view());
                        }
                    },
                    _ => {
                        proof {
                            assert(!(av is Extract));
                            assert(spec_arg_steps(oldargs.push(av)) == steps.deep_view());
                        }
                    },
                }
                args.push(a);
                proof {
                    assert(args.deep_view() =~~= oldargs.push(av));
                    assert(args.deep_view() =~~= spec_args(ps.take(i + 1))->Ok_0);
                }
            },
            Err(e) => {
                proof {
                    lemma_args_error_stable(ps, i + 1);
                }
                return Err(e);
            },
        }
        i = i + 1;
    }
    proof {
        assert(ps.take(f.params.len() as int) =~= ps);
    }
    let name = copy_bytes(&f.name);
    let output_ty: Option<Vec<u8>> = match &f.output_ty {
        Some(t) => {
            let ghost oldsteps = steps.deep_view();
            steps.push(RegStep::Out { ty: copy_bytes(t) });
            proof {
                assert(steps.deep_view() =~~= oldsteps.push(RegStepModel::Out { ty: t@ }));
            }
            Some(copy_bytes(t))
        },
        None => None,
    };
    let plan = HandlerPlan { name, is_async: f.is_async, output_ty, args, steps };
    proof {
        assert(plan@.output_ty =~~= f.deep_view().output_ty);
        assert(spec_synthesize(f.deep_view()) == Ok::<PlanModel, BuildError>(plan@));
    }
    Ok(plan)
}

/// Synthesize a handler's dispatch plan straight from its source text:
/// parse the text as a function item, then classify and synthesize. Source
/// that does not parse is a build error; so is any unsupported parameter.
pub fn generate(src: &str) -> (r: Result<HandlerPlan, BuildError>)
    ensures
        (match (r, parsed_fn_of(src@)) {
            (Ok(p), Some(f)) => spec_synthesize(f) == Ok::<PlanModel, BuildError>(p@),
            (Err(e), Some(f)) => spec_synthesize(f) == Err::<PlanModel, BuildError>(e),
            (Err(e), None) => e == BuildError::Unparsable,
            (Ok(p), None) => false,
        }),
{
    match parse_fn_source(src) {
        None => Err(BuildError::Unparsable),
        Some(f) => synthesize(&f),
    }
}

/// The entry-point method among a type's methods: the one named `handle`
/// declared textually last, as the synthesizer scans the whole block.
pub open spec fn spec_find_handle(ms: Seq<ParsedFnModel>) -> Option<ParsedFnModel>
    decreases ms.len(),
{
    if ms.len() == 0 {
        None
    } else if ms.last().name == handle_method_name() {
        Some(ms.last())
    } else {
        spec_find_handle(ms.drop_last())
    }
}

/// Synthesize the dispatch plan for a handler written as a type: the plan
/// of its `handle` method. A type without one is a build error ("missing
/// handle function").
pub fn generate_for_type(methods: &Vec<ParsedFn>) -> (r: Result<HandlerPlan, BuildError>)
    ensures
        (match (r, spec_find_handle(methods.deep_view())) {
            (Ok(p), Some(f)) => spec_synthesize(f) == Ok::<PlanModel, BuildError>(p@),
            (Err(e), Some(f)) => spec_synthesize(f) == Err::<PlanModel, BuildError>(e),
            (Err(e), None) => e == BuildError::MissingHandle,
            (Ok(p), None) => false,
        }),
{
    let ghost ms = methods.deep_view();
    let mut found: Option<usize> = None;
    let mut i: usize = 0;
    proof {
        assert(ms.take(0) =~= Seq::<ParsedFnModel>::empty());
    }
    while i < methods.len()
        invariant
            i <= methods.len(),
            ms == methods.deep_view(),
            (match found {
                Some(k) => k < i && spec_find_handle(ms.take(i as int)) == Some(ms[k as int]),
                None => spec_find_handle(ms.take(i as int)) is None,
            }),
        decreases methods.len() - i,
    {
        proof {
            assert(ms.take(i + 1).drop_last() =~= ms.take(i as int));
            assert(ms.take(i + 1).last() == ms[i as int]);
        }
        if bytes_eq(&methods[i].name, &handle_name()) {
            found = Some(i);
        }
        i = i + 1;
    }
    proof {
        assert(ms.take(methods.len() as int) =~= ms);
    }
    match found {
        Some(k) => synthesize(&methods[k]),
        None => Err(BuildError::MissingHandle),
    }
}

/// Synthesize a handler's dispatch plan straight from an impl block's
/// source text: parse the block, find its `handle` method, and synthesize
/// that method's plan. The self type's text comes back beside the plan, for
/// naming the endpoint. A block that does not parse, or declares no
/// `handle` method, is a build error.
pub fn generate_from_impl(src: &str) -> (r: Result<(Vec<u8>, HandlerPlan), BuildError>)
    ensures
        (match (r, parsed_impl_of(src@)) {
            (Ok(p), Some(parsed)) => p.0@ == parsed.0 && (match spec_find_handle(parsed.1) {
                Some(f) => spec_synthesize(f) == Ok::<PlanModel, BuildError>(p.1@),
                None => false,
            }),
            (Err(e), Some(parsed)) => (match spec_find_handle(parsed.1) {
                None => e == BuildError::MissingHandle,
                Some(f) => spec_synthesize(f) == Err::<PlanModel, BuildError>(e),
            }),
            (Err(e), None) => e == BuildError::Unparsable,
            (Ok(p), None) => false,
        }),
{
    match parse_impl_source(src) {
        None => Err(BuildError::Unparsable),
        Some((ty_name, methods)) => match generate_for_type(&methods) {
            Ok(plan) => Ok((ty_name, plan)),
            Err(e) => Err(e),
        },
    }
}

} // verus!
