//! The Operation Builder: documentation-metadata objects for one endpoint
//! (an [`Operation`] and the shared [`Components`] schema registry), the
//! registration steps that mutate them, and the construction of a finished
//! [`Endpoint`] from a handler's name, attribute payload, and step list.

use vstd::prelude::*;

use crate::text::{bytes_eq, copy_bytes, dotted, rewrite_separators};

verus! {

broadcast use crate::text::lemma_bytes_deep_view;

// ---------------------------------------------------------------------------
// Status-code keys
// ---------------------------------------------------------------------------

/// Whether `c` is an ASCII digit.
pub open spec fn is_digit(c: u8) -> bool {
    48u8 <= c <= 57u8
}

/// The value of an ASCII digit; zero for any other byte.
pub open spec fn digit_val(c: u8) -> nat {
    if is_digit(c) {
        (c - 48) as nat
    } else {
        0
    }
}

/// Whether every byte of `s` is an ASCII digit.
pub open spec fn all_digits(s: Seq<u8>) -> bool {
    forall|i: int| 0 <= i < s.len() ==> is_digit(#[trigger] s[i])
}

/// The numeric value of a digit string.
pub open spec fn digits_value(s: Seq<u8>) -> nat
    decreases s.len(),
{
    if s.len() == 0 {
        0
    } else {
        digits_value(s.drop_last()) * 10 + digit_val(s.last())
    }
}

/// Whether a response-map key parses as an HTTP status code: exactly three
/// ASCII digits, with a value of at least 100. Keys such as `default`,
/// `2XX`, `42` or `0200` fail to parse (a leading zero makes a fourth
/// digit, which a status key cannot have).
pub open spec fn parses_as_status(s: Seq<u8>) -> bool {
    s.len() == 3 && all_digits(s) && 100 <= digits_value(s)
}

/// Parse a response-map key as a status code, accepting exactly the keys
/// that [`parses_as_status`] describes.
pub fn parse_status(s: &Vec<u8>) -> (r: Option<u16>)
    ensures
        (r is Some) == parses_as_status(s@),
        r is Some ==> r->0 as nat == digits_value(s@),
{
    if s.len() != 3 {
        return None;
    }
    let d0 = s[0];
    let d1 = s[1];
    let d2 = s[2];
    if d0 < 48 || d0 > 57 || d1 < 48 || d1 > 57 || d2 < 48 || d2 > 57 {
        return None;
    }
    proof {
        assert(s@.drop_last().drop_last().len() == 1);
        assert(digits_value(s@.drop_last().drop_last().drop_last()) == 0);
        assert(s@.drop_last().drop_last().last() == s@[0]);
        assert(digits_value(s@.drop_last().drop_last()) == digit_val(s@[0]));
        assert(s@.drop_last().last() == s@[1]);
        assert(digits_value(s@.drop_last()) == digit_val(s@[0]) * 10 + digit_val(s@[1]));
        assert(s@.last() == s@[2]);
        assert(digits_value(s@) == (digit_val(s@[0]) * 10 + digit_val(s@[1])) * 10 + digit_val(
            s@[2],
        ));
    }
    let v: u16 = ((d0 - 48) as u16) * 100 + ((d1 - 48) as u16) * 10 + ((d2 - 48) as u16);
    if v >= 100 {
        Some(v)
    } else {
        None
    }
}

/// Whether `code` is a recognizable status-code value: one a three-digit
/// key can carry.
pub open spec fn recognized_status(code: u16) -> bool {
    100 <= code <= 999
}

/// The first allowlist value that is not a recognizable status code, if
/// any. Literal allowlist values must be recognized at documentation-build
/// time, so an offender is a build error, never a request-time failure.
pub open spec fn spec_first_unrecognized(codes: Seq<u16>) -> Option<u16>
    decreases codes.len(),
{
    if codes.len() == 0 {
        None
    } else {
        match spec_first_unrecognized(codes.drop_last()) {
            Some(c) => Some(c),
            None => if !recognized_status(codes.last()) {
                Some(codes.last())
            } else {
                None
            },
        }
    }
}

proof fn lemma_first_unrecognized_stable(codes: Seq<u16>, i: int)
    requires
        0 <= i <= codes.len(),
        spec_first_unrecognized(codes.take(i)) is Some,
    ensures
        spec_first_unrecognized(codes) == spec_first_unrecognized(codes.take(i)),
    decreases codes.len() - i,
{
    if i < codes.len() {
        assert(codes.take(i + 1).drop_last() =~= codes.take(i));
        lemma_first_unrecognized_stable(codes, i + 1);
    } else {
        assert(codes.take(i) =~= codes);
    }
}

/// Scan an allowlist for its first unrecognizable value.
pub fn first_unrecognized_status(codes: &Vec<u16>) -> (r: Option<u16>)
    ensures
        r == spec_first_unrecognized(codes@),
{
    let mut i: usize = 0;
    proof {
        assert(codes@.take(0) =~= Seq::<u16>::empty());
    }
    while i < codes.len()
        invariant
            i <= codes.len(),
            spec_first_unrecognized(codes@.take(i as int)) is None,
        decreases codes.len() - i,
    {
        proof {
            assert(codes@.take(i + 1).drop_last() =~= codes@.take(i as int));
            assert(codes@.take(i + 1).last() == codes@[i as int]);
        }
        let c = codes[i];
        if c < 100 || c > 999 {
            proof {
                lemma_first_unrecognized_stable(codes@, i + 1);
            }
            return Some(c);
        }
        i = i + 1;
    }
    proof {
        assert(codes@.take(codes.len() as int) =~= codes@);
    }
    None
}

/// Whether `allow` holds `code`.
pub fn contains_code(allow: &Vec<u16>, code: u16) -> (r: bool)
    ensures
        r == allow@.contains(code),
{
    let mut i: usize = 0;
    while i < allow.len()
        invariant
            i <= allow.len(),
            forall|j: int| 0 <= j < i ==> allow@[j] != code,
        decreases allow.len() - i,
    {
        if allow[i] == code {
            return true;
        }
        i = i + 1;
    }
    false
}

// ---------------------------------------------------------------------------
// Metadata objects and their models
// ---------------------------------------------------------------------------

/// The shared schema registry that accumulates, during metadata
/// construction, the type schemas referenced by any extractable parameter
/// or return type.
#[derive(Debug, Clone, PartialEq, Eq)]
pub struct Components {
    /// Names of the registered type schemas, in registration order.
    pub schemas: Vec<Vec<u8>>,
}

/// Mathematical model of [`Components`].
pub ghost struct ComponentsModel {
    pub schemas: Seq<Seq<u8>>,
}

impl View for Components {
    type V = ComponentsModel;

    open spec fn view(&self) -> ComponentsModel {
        ComponentsModel { schemas: self.schemas.deep_view() }
    }
}

impl Components {
    /// An empty schema registry.
    pub fn new() -> (c: Components)
        ensures
            c@.schemas == Seq::<Seq<u8>>::empty(),
    {
        let c = Components { schemas: Vec::new() };
        proof {
            assert(c@.schemas =~= Seq::<Seq<u8>>::empty());
        }
        c
    }
}

/// The documentation object for one endpoint: an identifier, descriptive
/// metadata, the parameters contributed by extractable arguments, and the
/// response map keyed by status-code key.
#[derive(Debug, Clone, PartialEq, Eq)]
pub struct Operation {
    /// The operation id; defaulted from the handler's qualified name when
    /// no attribute set it.
    pub operation_id: Option<Vec<u8>>,
    /// Description lines taken from the handler's doc comments.
    pub description: Vec<Vec<u8>>,
    /// Whether the handler is marked deprecated.
    pub deprecated: bool,
    /// Documented parameters: (lookup name, type text), declaration order.
    pub parameters: Vec<(Vec<u8>, Vec<u8>)>,
    /// Response map: (status-code key, description), insertion order,
    /// one entry per key.
    pub responses: Vec<(Vec<u8>, Vec<u8>)>,
}

/// Mathematical model of [`Operation`].
pub ghost struct OperationModel {
    pub operation_id: Option<Seq<u8>>,
    pub description: Seq<Seq<u8>>,
    pub deprecated: bool,
    pub parameters: Seq<(Seq<u8>, Seq<u8>)>,
    pub responses: Seq<(Seq<u8>, Seq<u8>)>,
}

impl View for Operation {
    type V = OperationModel;

    open spec fn view(&self) -> OperationModel {
        OperationModel {
            operation_id: self.operation_id.deep_view(),
            description: self.description.deep_view(),
            deprecated: self.deprecated,
            parameters: self.parameters.deep_view(),
            responses: self.responses.deep_view(),
        }
    }
}

/// The final, immutable documentation descriptor for one handler.
#[derive(Debug, Clone, PartialEq, Eq)]
pub struct Endpoint {
    pub operation: Operation,
    pub components: Components,
}

/// Mathematical model of [`Endpoint`].
pub ghost struct EndpointModel {
    pub operation: OperationModel,
    pub components: ComponentsModel,
}

impl View for Endpoint {
    type V = EndpointModel;

    open spec fn view(&self) -> EndpointModel {
        EndpointModel { operation: self.operation@, components: self.components@ }
    }
}

/// The attribute payload attached to a handler: an optional explicit
/// operation id, doc comments, a deprecation flag, and an optional
/// status-code allowlist (empty means no filtering).
#[derive(Debug, Clone, PartialEq, Eq)]
pub struct EndpointAttr {
    pub operation_id: Option<Vec<u8>>,
    pub doc_comments: Vec<Vec<u8>>,
    pub deprecated: bool,
    pub status_codes: Vec<u16>,
}

/// Mathematical model of [`EndpointAttr`].
pub ghost struct AttrModel {
    pub operation_id: Option<Seq<u8>>,
    pub doc_comments: Seq<Seq<u8>>,
    pub deprecated: bool,
    pub status_codes: Seq<u16>,
}

impl View for EndpointAttr {
    type V = AttrModel;

    open spec fn view(&self) -> AttrModel {
        AttrModel {
            operation_id: self.operation_id.deep_view(),
            doc_comments: self.doc_comments.deep_view(),
            deprecated: self.deprecated,
            status_codes: self.status_codes@,
        }
    }
}

impl EndpointAttr {
    /// An empty attribute payload: nothing set.
    pub fn new() -> (a: EndpointAttr)
        ensures
            a@.operation_id is None,
            a@.doc_comments == Seq::<Seq<u8>>::empty(),
            !a@.deprecated,
            a@.status_codes == Seq::<u16>::empty(),
    {
        let a = EndpointAttr {
            operation_id: None,
            doc_comments: Vec::new(),
            deprecated: false,
            status_codes: Vec::new(),
        };
        proof {
            assert(a@.doc_comments =~= Seq::<Seq<u8>>::empty());
            assert(a@.status_codes =~= Seq::<u16>::empty());
        }
        a
    }
}

// ---------------------------------------------------------------------------
// Registration steps
// ---------------------------------------------------------------------------

/// One metadata-registration step emitted by the handler synthesizer.
#[derive(Debug, Clone, PartialEq, Eq)]
pub enum RegStep {
    /// Register the documentation contribution of the extractable parameter
    /// looked up under `name`, of the type written as `ty`.
    Arg { name: Vec<u8>, ty: Vec<u8> },
    /// Register the return type's documentation contribution.
    Out { ty: Vec<u8> },
}

/// Mathematical model of [`RegStep`].
pub ghost enum RegStepModel {
    Arg { name: Seq<u8>, ty: Seq<u8> },
    Out { ty: Seq<u8> },
}

impl View for RegStep {
    type V = RegStepModel;

    open spec fn view(&self) -> RegStepModel {
        match self {
            RegStep::Arg { name, ty } => RegStepModel::Arg { name: name@, ty: ty@ },
            RegStep::Out { ty } => RegStepModel::Out { ty: ty@ },
        }
    }
}

impl DeepView for RegStep {
    type V = RegStepModel;

    open spec fn deep_view(&self) -> RegStepModel {
        self.view()
    }
}

/// The status-code key under which a return type's contribution is
/// documented: the success response.
pub open spec fn ok_status_key() -> Seq<u8> {
    seq![50u8, 48u8, 48u8]
}

/// The `200` response-map key.
pub fn ok_key() -> (k: Vec<u8>)
    ensures
        k@ == ok_status_key(),
{
    let mut k: Vec<u8> = Vec::new();
    k.push(50);
    k.push(48);
    k.push(48);
    proof {
        assert(k@ =~= ok_status_key());
    }
    k
}

// ---------------------------------------------------------------------------
// Response-map operations
// ---------------------------------------------------------------------------

/// `rs` with the entry for key `k` set to `d`: the first entry holding `k`
/// is replaced, or a new entry is appended when no entry holds `k`.
pub open spec fn spec_insert_response(
    rs: Seq<(Seq<u8>, Seq<u8>)>,
    k: Seq<u8>,
    d: Seq<u8>,
) -> Seq<(Seq<u8>, Seq<u8>)>
    decreases rs.len(),
{
    if rs.len() == 0 {
        seq![(k, d)]
    } else if rs.first().0 == k {
        seq![(k, d)] + rs.drop_first()
    } else {
        seq![rs.first()] + spec_insert_response(rs.drop_first(), k, d)
    }
}

proof fn lemma_insert_response_found(rs: Seq<(Seq<u8>, Seq<u8>)>, k: Seq<u8>, d: Seq<u8>, i: int)
    requires
        0 <= i < rs.len(),
        rs[i].0 == k,
        forall|j: int| 0 <= j < i ==> rs[j].0 != k,
    ensures
        spec_insert_response(rs, k, d) =~= rs.update(i, (k, d)),
    decreases i,
{
    if i == 0 {
        assert(spec_insert_response(rs, k, d) =~= rs.update(0, (k, d)));
    } else {
        assert(rs.first().0 != k);
        lemma_insert_response_found(rs.drop_first(), k, d, i - 1);
        assert((seq![rs.first()] + rs.drop_first().update(i - 1, (k, d))) =~= rs.update(i, (k, d)));
    }
}

proof fn lemma_insert_response_missing(rs: Seq<(Seq<u8>, Seq<u8>)>, k: Seq<u8>, d: Seq<u8>)
    requires
        forall|j: int| 0 <= j < rs.len() ==> (#[trigger] rs[j]).0 != k,
    ensures
        spec_insert_response(rs, k, d) =~= rs.push((k, d)),
    decreases rs.len(),
{
    if rs.len() == 0 {
    } else {
        assert(rs.first().0 != k);
        lemma_insert_response_missing(rs.drop_first(), k, d);
        assert((seq![rs.first()] + rs.drop_first().push((k, d))) =~= rs.push((k, d)));
    }
}

/// Whether the allowlist retains a response entry with key `key`: yes when
/// the key parses as an allowlisted status code, and also — the permissive
/// policy, preserved deliberately — whenever the key fails to parse as a
/// status code at all.
pub open spec fn response_kept(key: Seq<u8>, allow: Seq<u16>) -> bool {
    if parses_as_status(key) {
        allow.contains((digits_value(key) as u16))
    } else {
        true
    }
}

/// The response map filtered against the allowlist, order kept.
pub open spec fn spec_retain_responses(
    rs: Seq<(Seq<u8>, Seq<u8>)>,
    allow: Seq<u16>,
) -> Seq<(Seq<u8>, Seq<u8>)>
    decreases rs.len(),
{
    if rs.len() == 0 {
        rs
    } else {
        let rest = spec_retain_responses(rs.drop_last(), allow);
        if response_kept(rs.last().0, allow) {
            rest.push(rs.last())
        } else {
            rest
        }
    }
}

/// Allowlist filtering retains exactly the entries whose key the policy
/// keeps: an entry survives the filter if and only if it stood in the map
/// and its key either parses as an allowlisted status code or fails to
/// parse as a status code at all.
pub proof fn lemma_retain_membership(rs: Seq<(Seq<u8>, Seq<u8>)>, allow: Seq<u16>)
    ensures
        forall|e: (Seq<u8>, Seq<u8>)|
            #[trigger] spec_retain_responses(rs, allow).contains(e) <==> (rs.contains(e)
                && response_kept(e.0, allow)),
    decreases rs.len(),
{
    if rs.len() > 0 {
        lemma_retain_membership(rs.drop_last(), allow);
        let rest = spec_retain_responses(rs.drop_last(), allow);
        assert forall|e: (Seq<u8>, Seq<u8>)|
            #[trigger] spec_retain_responses(rs, allow).contains(e) implies (rs.contains(e)
            && response_kept(e.0, allow)) by {
            if response_kept(rs.last().0, allow) {
                let i = choose|i: int|
                    0 <= i < rest.push(rs.last()).len() && rest.push(rs.last())[i] == e;
                if i < rest.len() {
                    assert(rest.contains(e));
                } else {
                    assert(e == rs.last());
                }
                if rs.drop_last().contains(e) {
                    let j = choose|j: int| 0 <= j < rs.len() - 1 && rs.drop_last()[j] == e;
                    assert(rs[j] == e);
                }
                assert(rs.contains(e));
            } else {
                assert(rest.contains(e));
                let j = choose|j: int| 0 <= j < rs.len() - 1 && rs.drop_last()[j] == e;
                assert(rs[j] == e);
            }
        }
        assert forall|e: (Seq<u8>, Seq<u8>)|
            rs.contains(e) && response_kept(e.0, allow) implies #[trigger] spec_retain_responses(
            rs,
            allow,
        ).contains(e) by {
            let i = choose|i: int| 0 <= i < rs.len() && rs[i] == e;
            if i < rs.len() - 1 {
                assert(rs.drop_last()[i] == e);
                assert(rs.drop_last().contains(e));
                assert(rest.contains(e));
                let j = choose|j: int| 0 <= j < rest.len() && rest[j] == e;
                if response_kept(rs.last().0, allow) {
                    assert(rest.push(rs.last())[j] == e);
                }
            } else {
                assert(e == rs.last());
                assert(rest.push(rs.last())[rest.len() as int] == e);
            }
        }
    }
}

impl Operation {
    /// A fresh operation: nothing set, no parameters, no responses.
    pub fn new() -> (op: Operation)
        ensures
            op@ == (OperationModel {
                operation_id: None,
                description: Seq::<Seq<u8>>::empty(),
                deprecated: false,
                parameters: Seq::<(Seq<u8>, Seq<u8>)>::empty(),
                responses: Seq::<(Seq<u8>, Seq<u8>)>::empty(),
            }),
    {
        let op = Operation {
            operation_id: None,
            description: Vec::new(),
            deprecated: false,
            parameters: Vec::new(),
            responses: Vec::new(),
        };
        proof {
            assert(op@.description =~= Seq::<Seq<u8>>::empty());
            assert(op@.parameters =~= Seq::<(Seq<u8>, Seq<u8>)>::empty());
            assert(op@.responses =~= Seq::<(Seq<u8>, Seq<u8>)>::empty());
        }
        op
    }

    /// Set or replace the response description for `key`.
    pub fn insert_response(&mut self, key: Vec<u8>, desc: Vec<u8>)
        ensures
            final(self)@ == (OperationModel {
                responses: spec_insert_response(old(self)@.responses, key@, desc@),
                ..old(self)@
            }),
    {
        let ghost rs = self@.responses;
        let mut i: usize = 0;
        while i < self.responses.len()
            invariant
                *self == *old(self),
                i <= self.responses.len(),
                rs == self@.responses,
                forall|j: int| 0 <= j < i ==> rs[j].0 != key@,
            decreases self.responses.len() - i,
        {
            if bytes_eq(&self.responses[i].0, &key) {
                proof {
                    lemma_insert_response_found(rs, key@, desc@, i as int);
                }
                self.responses.set(i, (key, desc));
                proof {
                    assert(self@.responses =~~= rs.update(i as int, (key@, desc@)));
                }
                return;
            }
            i = i + 1;
        }
        proof {
            lemma_insert_response_missing(rs, key@, desc@);
        }
        self.responses.push((key, desc));
        proof {
            assert(self@.responses =~~= rs.push((key@, desc@)));
        }
    }

    /// Filter the response map in place against an explicit status-code
    /// allowlist, keeping order: an entry is retained iff its key parses
    /// as an allowlisted code, or fails to parse as a status code at all.
    pub fn retain_allowed_responses(&mut self, allow: &Vec<u16>)
        ensures
            final(self)@ == (OperationModel {
                responses: spec_retain_responses(old(self)@.responses, allow@),
                ..old(self)@
            }),
    {
        let ghost rs = self@.responses;
        let mut kept: Vec<(Vec<u8>, Vec<u8>)> = Vec::new();
        let mut i: usize = 0;
        proof {
            assert(rs.take(0) =~= Seq::<(Seq<u8>, Seq<u8>)>::empty());
            assert(kept.deep_view() =~~= spec_retain_responses(rs.take(0), allow@));
        }
        while i < self.responses.len()
            invariant
                *self == *old(self),
                i <= self.responses.len(),
                rs == self@.responses,
                kept.deep_view() == spec_retain_responses(rs.take(i as int), allow@),
            decreases self.responses.len() - i,
        {
            proof {
                assert(rs.take(i + 1).drop_last() =~= rs.take(i as int));
                assert(rs.take(i + 1).last() == rs[i as int]);
            }
            let keep = match parse_status(&self.responses[i].0) {
                Some(code) => contains_code(allow, code),
                None => true,
            };
            if keep {
                let k = copy_bytes(&self.responses[i].0);
                let d = copy_bytes(&self.responses[i].1);
                kept.push((k, d));
                proof {
                    assert(kept.deep_view() =~~= spec_retain_responses(rs.take(i + 1), allow@));
                }
            }
            i = i + 1;
        }
        proof {
            assert(rs.take(self.responses.len() as int) =~= rs);
        }
        self.responses = kept;
    }
}

// ---------------------------------------------------------------------------
// Building an endpoint
// ---------------------------------------------------------------------------

/// The effect of one registration step on the shared components and the
/// operation under construction.
pub open spec fn spec_apply_step(
    c: ComponentsModel,
    op: OperationModel,
    step: RegStepModel,
) -> (ComponentsModel, OperationModel) {
    match step {
        RegStepModel::Arg { name, ty } => (
            ComponentsModel { schemas: c.schemas.push(ty) },
            OperationModel { parameters: op.parameters.push((name, ty)), ..op },
        ),
        RegStepModel::Out { ty } => (
            ComponentsModel { schemas: c.schemas.push(ty) },
            OperationModel {
                responses: spec_insert_response(op.responses, ok_status_key(), ty),
                ..op
            },
        ),
    }
}

/// The effect of running all registration steps, in order.
pub open spec fn spec_apply_steps(
    c: ComponentsModel,
    op: OperationModel,
    steps: Seq<RegStepModel>,
) -> (ComponentsModel, OperationModel)
    decreases steps.len(),
{
    if steps.len() == 0 {
        (c, op)
    } else {
        let prev = spec_apply_steps(c, op, steps.drop_last());
        spec_apply_step(prev.0, prev.1, steps.last())
    }
}

/// Registration steps touch only parameters, responses and schemas; the
/// identifying and descriptive fields pass through them unchanged.
pub proof fn lemma_apply_steps_preserve_meta(
    c: ComponentsModel,
    op: OperationModel,
    steps: Seq<RegStepModel>,
)
    ensures
        spec_apply_steps(c, op, steps).1.operation_id == op.operation_id,
        spec_apply_steps(c, op, steps).1.description == op.description,
        spec_apply_steps(c, op, steps).1.deprecated == op.deprecated,
    decreases steps.len(),
{
    if steps.len() > 0 {
        lemma_apply_steps_preserve_meta(c, op, steps.drop_last());
    }
}

/// Run one registration step against the components and the operation.
pub fn apply_step(components: &mut Components, operation: &mut Operation, step: &RegStep)
    ensures
        (final(components)@, final(operation)@) == spec_apply_step(
            old(components)@,
            old(operation)@,
            step@,
        ),
{
    match step {
        RegStep::Arg { name, ty } => {
            let n = copy_bytes(name);
            let t = copy_bytes(ty);
            let t2 = copy_bytes(ty);
            operation.parameters.push((n, t));
            components.schemas.push(t2);
            proof {
                assert(operation@.parameters =~~= old(operation)@.parameters.push((name@, ty@)));
                assert(components@.schemas =~~= old(components)@.schemas.push(ty@));
            }
        },
        RegStep::Out { ty } => {
            let t = copy_bytes(ty);
            let t2 = copy_bytes(ty);
            operation.insert_response(ok_key(), t);
            components.schemas.push(t2);
            proof {
                assert(components@.schemas =~~= old(components)@.schemas.push(ty@));
            }
        },
    }
}

/// The endpoint descriptor built for a handler: empty components and a
/// fresh operation seeded from the attribute payload, all registration
/// steps run in order, the operation id defaulted to the dotted qualified
/// name when no attribute set one, and the response map filtered against
/// the status-code allowlist when one was given.
pub open spec fn spec_build_endpoint(
    name: Seq<u8>,
    attr: AttrModel,
    steps: Seq<RegStepModel>,
) -> EndpointModel {
    let c0 = ComponentsModel { schemas: Seq::empty() };
    let op0 = OperationModel {
        operation_id: attr.operation_id,
        description: attr.doc_comments,
        deprecated: attr.deprecated,
        parameters: Seq::empty(),
        responses: Seq::empty(),
    };
    let applied = spec_apply_steps(c0, op0, steps);
    let op1 = applied.1;
    let op2 = if op1.operation_id is None {
        OperationModel { operation_id: Some(dotted(name)), ..op1 }
    } else {
        op1
    };
    let op3 = if attr.status_codes.len() > 0 {
        OperationModel { responses: spec_retain_responses(op2.responses, attr.status_codes), ..op2 }
    } else {
        op2
    };
    EndpointModel { operation: op3, components: applied.0 }
}

/// Build the documentation descriptor for one handler: the lazy
/// descriptor-constructor of a registry entry runs exactly this.
///
/// When no attribute set an operation id, the built operation's id is the
/// handler's fully qualified `name` with every namespace-separator pair
/// rewritten to a single dot; an explicitly set id is preserved unchanged.
pub fn build_endpoint(name: &Vec<u8>, attr: &EndpointAttr, steps: &Vec<RegStep>) -> (e: Endpoint)
    ensures
        e@ == spec_build_endpoint(name@, attr@, steps.deep_view()),
        attr@.operation_id is None ==> e@.operation.operation_id == Some(dotted(name@)),
        attr@.operation_id is Some ==> e@.operation.operation_id == attr@.operation_id,
{
    let mut components = Components::new();
    let mut operation = Operation::new();
    operation.operation_id = match &attr.operation_id {
        Some(id) => Some(copy_bytes(id)),
        None => None,
    };
    let mut dc: Vec<Vec<u8>> = Vec::new();
    let mut di: usize = 0;
    while di < attr.doc_comments.len()
        invariant
            di <= attr.doc_comments.len(),
            dc.deep_view() == attr.doc_comments.deep_view().take(di as int),
        decreases attr.doc_comments.len() - di,
    {
        dc.push(copy_bytes(&attr.doc_comments[di]));
        proof {
            assert(dc.deep_view() =~~= attr.doc_comments.deep_view().take(di + 1));
        }
        di = di + 1;
    }
    proof {
        assert(attr.doc_comments.deep_view().take(attr.doc_comments.len() as int)
            =~= attr.doc_comments.deep_view());
    }
    operation.description = dc;
    operation.deprecated = attr.deprecated;

    let ghost c0 = components@;
    let ghost op0 = operation@;
    let mut i: usize = 0;
    proof {
        assert(steps.deep_view().take(0) =~= Seq::<RegStepModel>::empty());
    }
    while i < steps.len()
        invariant
            i <= steps.len(),
            (components@, operation@) == spec_apply_steps(c0, op0, steps.deep_view().take(i as int)),
        decreases steps.len() - i,
    {
        proof {
            assert(steps.deep_view().take(i + 1).drop_last() =~= steps.deep_view().take(i as int));
            assert(steps.deep_view().take(i + 1).last() == steps@[i as int]@);
        }
        apply_step(&mut components, &mut operation, &steps[i]);
        i = i + 1;
    }
    proof {
        assert(steps.deep_view().take(steps.len() as int) =~= steps.deep_view());
        lemma_apply_steps_preserve_meta(c0, op0, steps.deep_view());
    }

    if operation.operation_id.is_none() {
        operation.operation_id = Some(rewrite_separators(name));
    }
    if status_filter_active(attr) {
        operation.retain_allowed_responses(&attr.status_codes);
    }
    Endpoint { operation, components }
}

/// Whether the attribute payload carries a status-code allowlist.
fn status_filter_active(attr: &EndpointAttr) -> (r: bool)
    ensures
        r == (attr@.status_codes.len() > 0),
{
    attr.status_codes.len() > 0
}

} // verus!
