use endpoint_core::operation::RegStep;
use endpoint_core::parse::{parse_fn_source, ParsedFn};
use endpoint_core::synth::{generate, generate_for_type, generate_from_impl, synthesize, ArgSpec, BuildError};
use endpoint_core::text::{rewrite_separators, strip_qualifier, strip_underscore};

const MIXED: &str = "async fn hello(req: &mut Request, _name: String, mut count: u64, depot: &mut Depot) -> String { String::new() }";

#[test]
fn generates_plan_for_mixed_signature() {
    let plan = generate(MIXED).unwrap();
    assert_eq!(plan.name, b"hello".to_vec());
    assert!(plan.is_async);
    assert_eq!(plan.output_ty, Some(b"String".to_vec()));
    assert_eq!(
        plan.args,
        vec![
            ArgSpec::Req,
            ArgSpec::Extract {
                binding: b"_name".to_vec(),
                lookup: b"name".to_vec(),
                ty: b"String".to_vec(),
            },
            ArgSpec::Extract {
                binding: b"count".to_vec(),
                lookup: b"count".to_vec(),
                ty: b"u64".to_vec(),
            },
            ArgSpec::Depot,
        ],
    );
    assert_eq!(
        plan.steps,
        vec![
            RegStep::Arg { name: b"name".to_vec(), ty: b"String".to_vec() },
            RegStep::Arg { name: b"count".to_vec(), ty: b"u64".to_vec() },
            RegStep::Out { ty: b"String".to_vec() },
        ],
    );
}

#[test]
fn plain_sync_handler_has_no_steps() {
    let plan = generate("fn ping() {}").unwrap();
    assert_eq!(plan.name, b"ping".to_vec());
    assert!(!plan.is_async);
    assert_eq!(plan.output_ty, None);
    assert!(plan.args.is_empty());
    assert!(plan.steps.is_empty());
}

#[test]
fn framework_references_classify_by_type_name() {
    let plan = generate(
        "fn all(req: &mut Request, depot: &mut Depot, res: &mut Response, ctrl: &mut FlowCtrl) {}",
    )
    .unwrap();
    assert_eq!(plan.args, vec![ArgSpec::Req, ArgSpec::Depot, ArgSpec::Res, ArgSpec::Ctrl]);
    assert!(plan.steps.is_empty());
}

#[test]
fn unknown_reference_parameter_is_a_build_error() {
    let r = generate("fn f(ok: u8, x: &mut Foo) {}");
    assert_eq!(r.unwrap_err(), BuildError::UnsupportedParameter { index: 1 });
}

#[test]
fn non_identifier_binding_is_a_build_error() {
    let r = generate("fn f((a, b): (u8, u8)) {}");
    assert_eq!(r.unwrap_err(), BuildError::InvalidParam { index: 0 });
}

#[test]
fn non_path_type_is_a_build_error() {
    let r = generate("fn f(x: (u8, u8)) {}");
    assert_eq!(r.unwrap_err(), BuildError::InvalidParam { index: 0 });
    let r = generate("fn f(x: [u8; 4]) {}");
    assert_eq!(r.unwrap_err(), BuildError::InvalidParam { index: 0 });
}

#[test]
fn generate_from_impl_finds_the_handle_method() {
    let src = "impl Hello { fn helper(&self) {} async fn handle(&self, id: u64) -> String { String::new() } }";
    let (ty_name, plan) = generate_from_impl(src).unwrap();
    assert_eq!(ty_name, b"Hello".to_vec());
    assert_eq!(plan.name, b"handle".to_vec());
    assert_eq!(
        plan.args,
        vec![
            ArgSpec::Receiver,
            ArgSpec::Extract {
                binding: b"id".to_vec(),
                lookup: b"id".to_vec(),
                ty: b"u64".to_vec(),
            },
        ],
    );
    assert_eq!(
        generate_from_impl("impl Hello { fn other(&self) {} }").unwrap_err(),
        BuildError::MissingHandle,
    );
    assert_eq!(generate_from_impl("not rust").unwrap_err(), BuildError::Unparsable);
}

#[test]
fn first_error_wins() {
    let r = generate("fn f(x: &mut Foo, (a, b): (u8, u8)) {}");
    assert_eq!(r.unwrap_err(), BuildError::UnsupportedParameter { index: 0 });
}

#[test]
fn unparsable_source_is_a_build_error() {
    assert_eq!(generate("not a function").unwrap_err(), BuildError::Unparsable);
    assert_eq!(generate("struct S;").unwrap_err(), BuildError::Unparsable);
}

#[test]
fn single_leading_underscore_is_stripped_from_lookup() {
    let plan = generate("fn f(__x: u8) {}").unwrap();
    assert_eq!(
        plan.args,
        vec![ArgSpec::Extract {
            binding: b"__x".to_vec(),
            lookup: b"_x".to_vec(),
            ty: b"u8".to_vec(),
        }],
    );
}

#[test]
fn parse_reports_shape_of_source() {
    let f = parse_fn_source(MIXED).unwrap();
    assert_eq!(f.name, b"hello".to_vec());
    assert!(f.is_async);
    assert_eq!(f.output_ty, Some(b"String".to_vec()));
    assert_eq!(f.params.len(), 4);
    assert!(f.params[0].by_ref);
    assert_eq!(f.params[0].ty, b"Request".to_vec());
    assert!(!f.params[1].by_ref);
    assert_eq!(f.params[1].binding, b"_name".to_vec());
    assert_eq!(f.params[2].binding, b"mut count".to_vec());
    assert!(parse_fn_source("fn broken(").is_none());
}

#[test]
fn generate_for_type_requires_a_handle_method() {
    let other = parse_fn_source("fn helper(x: u8) {}").unwrap();
    let handle = parse_fn_source("async fn handle(id: u64) -> String { String::new() }").unwrap();

    let r = generate_for_type(&vec![other.clone()]);
    assert_eq!(r.unwrap_err(), BuildError::MissingHandle);

    let plan = generate_for_type(&vec![other, handle]).unwrap();
    assert_eq!(plan.name, b"handle".to_vec());
    assert_eq!(
        plan.args,
        vec![ArgSpec::Extract {
            binding: b"id".to_vec(),
            lookup: b"id".to_vec(),
            ty: b"u64".to_vec(),
        }],
    );
}

#[test]
fn synthesize_accepts_hand_written_descriptors() {
    let f = ParsedFn {
        name: b"made".to_vec(),
        is_async: false,
        output_ty: None,
        params: Vec::new(),
    };
    let plan = synthesize(&f).unwrap();
    assert_eq!(plan.name, b"made".to_vec());
    assert!(plan.args.is_empty());
}

#[test]
fn name_derivations() {
    assert_eq!(strip_qualifier(&b"mut pdata".to_vec()), b"pdata".to_vec());
    assert_eq!(strip_qualifier(&b"pdata".to_vec()), b"pdata".to_vec());
    assert_eq!(strip_underscore(&b"_inner".to_vec()), b"inner".to_vec());
    assert_eq!(strip_underscore(&b"inner".to_vec()), b"inner".to_vec());
    assert_eq!(strip_underscore(&b"__x".to_vec()), b"_x".to_vec());
    assert_eq!(
        rewrite_separators(&b"mod::sub::Handler".to_vec()),
        b"mod.sub.Handler".to_vec(),
    );
}
