use endpoint_core::operation::{
    build_endpoint, contains_code, parse_status, EndpointAttr, Operation, RegStep,
};
use endpoint_core::registry::{EndpointRegistry, RegistryEntry};
use endpoint_core::synth::BuildError;

fn attr() -> EndpointAttr {
    EndpointAttr {
        operation_id: None,
        doc_comments: Vec::new(),
        deprecated: false,
        status_codes: Vec::new(),
    }
}

#[test]
fn status_key_parsing() {
    assert_eq!(parse_status(&b"200".to_vec()), Some(200));
    assert_eq!(parse_status(&b"404".to_vec()), Some(404));
    assert_eq!(parse_status(&b"0200".to_vec()), None);
    assert_eq!(parse_status(&b"default".to_vec()), None);
    assert_eq!(parse_status(&b"2XX".to_vec()), None);
    assert_eq!(parse_status(&b"42".to_vec()), None);
    assert_eq!(parse_status(&b"99999".to_vec()), None);
    assert_eq!(parse_status(&b"".to_vec()), None);
    assert!(contains_code(&vec![200, 404], 404));
    assert!(!contains_code(&vec![200, 404], 500));
}

#[test]
fn leading_zero_key_fails_to_parse_and_is_retained() {
    let mut op = Operation::new();
    op.insert_response(b"0200".to_vec(), b"oddly keyed".to_vec());
    op.retain_allowed_responses(&vec![404]);
    assert_eq!(op.responses, vec![(b"0200".to_vec(), b"oddly keyed".to_vec())]);
}

#[test]
fn allowlist_keeps_allowed_and_unparsable_keys() {
    let mut op = Operation::new();
    op.insert_response(b"200".to_vec(), b"ok".to_vec());
    op.insert_response(b"404".to_vec(), b"missing".to_vec());
    op.insert_response(b"500".to_vec(), b"boom".to_vec());
    op.insert_response(b"default".to_vec(), b"anything else".to_vec());
    op.retain_allowed_responses(&vec![200, 404]);
    let keys: Vec<Vec<u8>> = op.responses.iter().map(|kv| kv.0.clone()).collect();
    assert_eq!(keys, vec![b"200".to_vec(), b"404".to_vec(), b"default".to_vec()]);
}

#[test]
fn insert_response_replaces_existing_key() {
    let mut op = Operation::new();
    op.insert_response(b"200".to_vec(), b"first".to_vec());
    op.insert_response(b"404".to_vec(), b"missing".to_vec());
    op.insert_response(b"200".to_vec(), b"second".to_vec());
    assert_eq!(
        op.responses,
        vec![
            (b"200".to_vec(), b"second".to_vec()),
            (b"404".to_vec(), b"missing".to_vec()),
        ],
    );
}

#[test]
fn operation_id_defaults_to_dotted_name() {
    let e = build_endpoint(&b"mod::sub::Handler".to_vec(), &attr(), &Vec::new());
    assert_eq!(e.operation.operation_id, Some(b"mod.sub.Handler".to_vec()));
}

#[test]
fn explicit_operation_id_is_preserved() {
    let mut a = attr();
    a.operation_id = Some(b"custom_id".to_vec());
    let e = build_endpoint(&b"mod::sub::Handler".to_vec(), &a, &Vec::new());
    assert_eq!(e.operation.operation_id, Some(b"custom_id".to_vec()));
}

#[test]
fn registration_steps_run_in_order() {
    let steps = vec![
        RegStep::Arg { name: b"name".to_vec(), ty: b"String".to_vec() },
        RegStep::Arg { name: b"count".to_vec(), ty: b"u64".to_vec() },
        RegStep::Out { ty: b"Reply".to_vec() },
    ];
    let e = build_endpoint(&b"hello".to_vec(), &attr(), &steps);
    assert_eq!(
        e.operation.parameters,
        vec![
            (b"name".to_vec(), b"String".to_vec()),
            (b"count".to_vec(), b"u64".to_vec()),
        ],
    );
    assert_eq!(e.operation.responses, vec![(b"200".to_vec(), b"Reply".to_vec())]);
    assert_eq!(
        e.components.schemas,
        vec![b"String".to_vec(), b"u64".to_vec(), b"Reply".to_vec()],
    );
}

#[test]
fn allowlist_applies_to_built_endpoint() {
    let steps = vec![RegStep::Out { ty: b"Reply".to_vec() }];
    let mut a = attr();
    a.status_codes = vec![404];
    let e = build_endpoint(&b"hello".to_vec(), &a, &steps);
    assert!(e.operation.responses.is_empty());

    a.status_codes = vec![200, 404];
    let e = build_endpoint(&b"hello".to_vec(), &a, &steps);
    assert_eq!(e.operation.responses, vec![(b"200".to_vec(), b"Reply".to_vec())]);
}

#[test]
fn doc_comments_and_deprecation_carry_over() {
    let mut a = attr();
    a.doc_comments = vec![b"Says hello.".to_vec(), b"Politely.".to_vec()];
    a.deprecated = true;
    let e = build_endpoint(&b"hello".to_vec(), &a, &Vec::new());
    assert_eq!(e.operation.description, a.doc_comments);
    assert!(e.operation.deprecated);
}

fn entry(id: &[u8], name: &[u8], steps: Vec<RegStep>) -> RegistryEntry {
    RegistryEntry { type_id: id.to_vec(), name: name.to_vec(), attr: attr(), steps }
}

#[test]
fn entry_construction_validates_the_allowlist() {
    let mut a = attr();
    a.status_codes = vec![200, 9999, 404];
    let r = RegistryEntry::new(b"a".to_vec(), b"mod::A".to_vec(), a, Vec::new());
    assert_eq!(r.unwrap_err(), BuildError::UnrecognizedStatusCode { code: 9999 });

    let mut a = attr();
    a.status_codes = vec![200, 404];
    let e = RegistryEntry::new(b"a".to_vec(), b"mod::A".to_vec(), a, Vec::new()).unwrap();
    assert_eq!(e.type_id, b"a".to_vec());
    assert_eq!(e.name, b"mod::A".to_vec());
    assert_eq!(e.attr.status_codes, vec![200, 404]);

    let zero = RegistryEntry::new(b"z".to_vec(), b"Z".to_vec(), attr(), Vec::new());
    assert!(zero.is_ok());
}

#[test]
fn registering_n_handlers_yields_n_entries() {
    let mut reg = EndpointRegistry::new();
    reg.save(entry(b"a", b"ha", Vec::new()));
    reg.save(entry(b"b", b"hb", vec![RegStep::Out { ty: b"A".to_vec() }]));
    reg.save(entry(b"c", b"hc", Vec::new()));
    assert_eq!(reg.count(), 3);
    let ids: Vec<Vec<u8>> = reg.entries.iter().map(|e| e.type_id.clone()).collect();
    assert_eq!(ids, vec![b"a".to_vec(), b"b".to_vec(), b"c".to_vec()]);
}

#[test]
fn materialization_is_order_independent() {
    let e1 = entry(b"a", b"mod::A", vec![RegStep::Out { ty: b"A".to_vec() }]);
    let e2 = entry(b"b", b"mod::B", vec![RegStep::Arg { name: b"x".to_vec(), ty: b"u8".to_vec() }]);
    let e3 = entry(b"c", b"mod::C", Vec::new());

    let mut forward = EndpointRegistry::new();
    forward.save(e1.clone());
    forward.save(e2.clone());
    forward.save(e3.clone());

    let mut backward = EndpointRegistry::new();
    backward.save(e3);
    backward.save(e2);
    backward.save(e1);

    let f = forward.materialize_all();
    let b = backward.materialize_all();
    assert_eq!(f[0], b[2]);
    assert_eq!(f[1], b[1]);
    assert_eq!(f[2], b[0]);
}

#[test]
fn materializing_twice_yields_identical_endpoints() {
    let e = entry(b"a", b"mod::A", vec![RegStep::Out { ty: b"A".to_vec() }]);
    assert_eq!(e.endpoint(), e.endpoint());
    assert_eq!(e.endpoint().operation.operation_id, Some(b"mod.A".to_vec()));
}
