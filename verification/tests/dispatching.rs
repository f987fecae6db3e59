use endpoint_core::dispatch::{dispatch, extract, CallArg, DispatchOutcome, Response};
use endpoint_core::method::{Method, Request};
use endpoint_core::synth::generate;

const MIXED: &str = "async fn hello(req: &mut Request, _name: String, mut count: u64, depot: &mut Depot) -> String { String::new() }";

fn request_with(values: Vec<(Vec<u8>, Vec<u8>)>) -> Request {
    Request { method: Method::Get, values }
}

#[test]
fn extraction_pulls_values_by_key() {
    let req = request_with(vec![
        (b"name".to_vec(), b"alice".to_vec()),
        (b"count".to_vec(), b"7".to_vec()),
    ]);
    assert_eq!(extract(&req, &b"name".to_vec()).unwrap(), b"alice".to_vec());
    let err = extract(&req, &b"missing".to_vec()).unwrap_err();
    assert_eq!(err.key, b"missing".to_vec());
}

#[test]
fn dispatch_assembles_arguments_in_declaration_order() {
    let plan = generate(MIXED).unwrap();
    let req = request_with(vec![
        (b"count".to_vec(), b"7".to_vec()),
        (b"name".to_vec(), b"alice".to_vec()),
    ]);
    let mut res = Response::new();
    let outcome = dispatch(&plan, &req, &mut res);
    assert_eq!(
        outcome,
        DispatchOutcome::Invoke {
            args: vec![
                CallArg::Req,
                CallArg::Value { binding: b"_name".to_vec(), value: b"alice".to_vec() },
                CallArg::Value { binding: b"count".to_vec(), value: b"7".to_vec() },
                CallArg::Depot,
            ],
            write_output: true,
        },
    );
    assert_eq!(res, Response::new());
}

#[test]
fn failed_extraction_aborts_with_the_cause() {
    let plan = generate(MIXED).unwrap();
    let req = request_with(vec![(b"name".to_vec(), b"alice".to_vec())]);
    let mut res = Response::new();
    let outcome = dispatch(&plan, &req, &mut res);
    assert_eq!(outcome, DispatchOutcome::Aborted { lookup: b"count".to_vec() });
    assert_eq!(res.status, Some(400));
    assert_eq!(res.cause, Some(b"count".to_vec()));
}

#[test]
fn the_first_failure_wins() {
    let plan = generate(MIXED).unwrap();
    let req = request_with(Vec::new());
    let mut res = Response::new();
    let outcome = dispatch(&plan, &req, &mut res);
    assert_eq!(outcome, DispatchOutcome::Aborted { lookup: b"name".to_vec() });
    assert_eq!(res.cause, Some(b"name".to_vec()));
}

#[test]
fn dispatch_is_idempotent_over_equal_inputs() {
    let plan = generate(MIXED).unwrap();
    for values in [
        vec![
            (b"name".to_vec(), b"alice".to_vec()),
            (b"count".to_vec(), b"7".to_vec()),
        ],
        vec![(b"name".to_vec(), b"alice".to_vec())],
        Vec::new(),
    ] {
        let req1 = request_with(values.clone());
        let req2 = request_with(values);
        let mut res1 = Response::new();
        let mut res2 = Response::new();
        let o1 = dispatch(&plan, &req1, &mut res1);
        let o2 = dispatch(&plan, &req2, &mut res2);
        assert_eq!(o1, o2);
        assert_eq!(res1, res2);
    }
}

#[test]
fn no_output_means_nothing_to_write() {
    let plan = generate("fn ping() {}").unwrap();
    let req = request_with(Vec::new());
    let mut res = Response::new();
    let outcome = dispatch(&plan, &req, &mut res);
    assert_eq!(outcome, DispatchOutcome::Invoke { args: Vec::new(), write_output: false });
}
