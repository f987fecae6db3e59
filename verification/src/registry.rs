//! The process-wide endpoint-metadata registry: an append-only collection
//! of registry entries, one per synthesized handler. Each entry pairs a
//! stable identity with the data its lazy descriptor-constructor needs;
//! the descriptor is built only when a documentation consumer walks the
//! registry, and building it is a pure function of the entry alone, so
//! entries may be materialized any number of times and in any order.

use vstd::prelude::*;

use crate::operation::{
    AttrModel, Endpoint, EndpointAttr, EndpointModel, RegStep, RegStepModel, build_endpoint,
    first_unrecognized_status, spec_build_endpoint, spec_first_unrecognized,
};
use crate::synth::BuildError;

verus! {

/// One registered handler: a stable identity plus everything the lazy
/// descriptor-constructor needs. Lifecycle: created once at build/load
/// time, inserted, never removed; Registered until a consumer first builds
/// the descriptor, re-invokable thereafter.
#[derive(Debug, Clone, PartialEq, Eq)]
pub struct RegistryEntry {
    /// The handler's stable identity, distinct per handler.
    pub type_id: Vec<u8>,
    /// The handler's fully qualified name, used to default the operation id.
    pub name: Vec<u8>,
    /// The attribute payload attached to the handler.
    pub attr: EndpointAttr,
    /// The metadata-registration steps the synthesizer emitted for it.
    pub steps: Vec<RegStep>,
}

/// Mathematical model of [`RegistryEntry`].
pub ghost struct EntryModel {
    pub type_id: Seq<u8>,
    pub name: Seq<u8>,
    pub attr: AttrModel,
    pub steps: Seq<RegStepModel>,
}

impl View for RegistryEntry {
    type V = EntryModel;

    open spec fn view(&self) -> EntryModel {
        EntryModel {
            type_id: self.type_id@,
            name: self.name@,
            attr: self.attr@,
            steps: self.steps.deep_view(),
        }
    }
}

impl DeepView for RegistryEntry {
    type V = EntryModel;

    open spec fn deep_view(&self) -> EntryModel {
        self.view()
    }
}

impl RegistryEntry {
    /// Build a registry entry at build/load time, validating the attribute
    /// payload: every allowlist value must be a recognizable status code,
    /// so an unrecognizable one is a build error and can never surface when
    /// the descriptor is later built for a documentation consumer.
    pub fn new(type_id: Vec<u8>, name: Vec<u8>, attr: EndpointAttr, steps: Vec<RegStep>) -> (r:
        Result<RegistryEntry, BuildError>)
        ensures
            (match (r, spec_first_unrecognized(attr@.status_codes)) {
                (Ok(e), None) => e@ == (EntryModel {
                    type_id: type_id@,
                    name: name@,
                    attr: attr@,
                    steps: steps.deep_view(),
                }),
                (Err(err), Some(c)) => err == (BuildError::UnrecognizedStatusCode { code: c }),
                _ => false,
            }),
    {
        match first_unrecognized_status(&attr.status_codes) {
            Some(code) => Err(BuildError::UnrecognizedStatusCode { code }),
            None => Ok(RegistryEntry { type_id, name, attr, steps }),
        }
    }

    /// The descriptor this entry's constructor builds: a function of the
    /// entry alone, independent of the registry around it.
    pub open spec fn spec_endpoint(&self) -> EndpointModel {
        spec_build_endpoint(self@.name, self@.attr, self@.steps)
    }

    /// Materialize the endpoint descriptor: run the lazy constructor.
    pub fn endpoint(&self) -> (e: Endpoint)
        ensures
            e@ == self.spec_endpoint(),
    {
        build_endpoint(&self.name, &self.attr, &self.steps)
    }
}

/// The registry itself: append-only, populated during initialization,
/// read any number of times afterwards.
pub struct EndpointRegistry {
    pub entries: Vec<RegistryEntry>,
}

impl View for EndpointRegistry {
    type V = Seq<EntryModel>;

    open spec fn view(&self) -> Seq<EntryModel> {
        self.entries.deep_view()
    }
}

impl EndpointRegistry {
    /// Whether every registered identity is distinct.
    pub open spec fn distinct_ids(&self) -> bool {
        forall|i: int, j: int|
            0 <= i < j < self@.len() ==> (#[trigger] self@[i]).type_id != (
            #[trigger] self@[j]).type_id
    }

    /// An empty registry.
    pub fn new() -> (r: EndpointRegistry)
        ensures
            r@ == Seq::<EntryModel>::empty(),
    {
        let r = EndpointRegistry { entries: Vec::new() };
        proof {
            assert(r@ =~= Seq::<EntryModel>::empty());
        }
        r
    }

    /// How many handlers are registered.
    pub fn count(&self) -> (n: usize)
        ensures
            n == self@.len(),
    {
        self.entries.len()
    }

    /// Register one handler: append its entry. Entries are never replaced
    /// or removed, so registering N handlers yields exactly N entries, and
    /// identities distinct before stay distinct when the new identity is
    /// fresh.
    pub fn save(&mut self, entry: RegistryEntry)
        ensures
            final(self)@ == old(self)@.push(entry@),
            old(self).distinct_ids() && (forall|i: int|
                0 <= i < old(self)@.len() ==> (#[trigger] old(self)@[i]).type_id
                    != entry@.type_id) ==> final(self).distinct_ids(),
    {
        self.entries.push(entry);
        proof {
            assert(self@ =~~= old(self)@.push(self.entries@.last()@));
        }
    }

    /// Build the descriptor of every registered handler, in registry order.
    pub fn materialize_all(&self) -> (es: Vec<Endpoint>)
        ensures
            es@.len() == self@.len(),
            forall|i: int|
                0 <= i < self@.len() ==> (#[trigger] es@[i])@ == spec_build_endpoint(
                    self@[i].name,
                    self@[i].attr,
                    self@[i].steps,
                ),
    {
        let mut es: Vec<Endpoint> = Vec::new();
        let mut i: usize = 0;
        while i < self.entries.len()
            invariant
                i <= self.entries.len(),
                es@.len() == i,
                forall|k: int|
                    0 <= k < i ==> (#[trigger] es@[k])@ == spec_build_endpoint(
                        self@[k].name,
                        self@[k].attr,
                        self@[k].steps,
                    ),
            decreases self.entries.len() - i,
        {
            es.push(self.entries[i].endpoint());
            i = i + 1;
        }
        es
    }
}

/// Materialization order cannot matter: the endpoint built for an entry is
/// a function of that entry alone, so the same entry — wherever it stands,
/// in whichever registry, however often it is materialized — always yields
/// the identical descriptor.
pub proof fn lemma_materialization_order_independent(
    r1: EndpointRegistry,
    r2: EndpointRegistry,
    i: int,
    j: int,
)
    requires
        0 <= i < r1@.len(),
        0 <= j < r2@.len(),
        r1@[i] == r2@[j],
    ensures
        spec_build_endpoint(r1@[i].name, r1@[i].attr, r1@[i].steps) == spec_build_endpoint(
            r2@[j].name,
            r2@[j].attr,
            r2@[j].steps,
        ),
{
}

} // verus!
