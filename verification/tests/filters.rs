use endpoint_core::method::{
    delete, get, head, options, patch, post, put, Filter, Method, MethodFilter, PathState, Request,
};

fn req(method: Method) -> Request {
    Request { method, values: Vec::new() }
}

fn cursor() -> PathState {
    PathState {
        path: b"/users/42/posts".to_vec(),
        consumed: 7,
        bound: vec![(b"id".to_vec(), b"42".to_vec())],
    }
}

#[test]
fn method_filter_matches_equal_method_only() {
    let methods = [
        Method::Get,
        Method::Head,
        Method::Options,
        Method::Post,
        Method::Patch,
        Method::Put,
        Method::Delete,
    ];
    for m in methods {
        for n in methods {
            let f = MethodFilter(m);
            let mut r = req(n);
            let mut p = cursor();
            assert_eq!(f.execute(&mut r, &mut p), m == n);
        }
    }
}

#[test]
fn method_filter_leaves_cursor_and_request_unchanged() {
    let f = post();
    let mut r = req(Method::Get);
    let mut p = cursor();
    let r0 = r.clone();
    let p0 = p.clone();
    assert!(!f.execute(&mut r, &mut p));
    assert_eq!(r, r0);
    assert_eq!(p, p0);

    let mut r = req(Method::Post);
    assert!(f.execute(&mut r, &mut p));
    assert_eq!(p, p0);
}

#[test]
fn constructors_configure_their_method() {
    assert!(get().execute(&mut req(Method::Get), &mut cursor()));
    assert!(head().execute(&mut req(Method::Head), &mut cursor()));
    assert!(options().execute(&mut req(Method::Options), &mut cursor()));
    assert!(post().execute(&mut req(Method::Post), &mut cursor()));
    assert!(patch().execute(&mut req(Method::Patch), &mut cursor()));
    assert!(put().execute(&mut req(Method::Put), &mut cursor()));
    assert!(delete().execute(&mut req(Method::Delete), &mut cursor()));
    assert!(!get().execute(&mut req(Method::Delete), &mut cursor()));
    assert!(!delete().execute(&mut req(Method::Get), &mut cursor()));
}

#[test]
fn fresh_cursor_consumes_nothing() {
    let p = PathState::new(b"/a/b".to_vec());
    assert_eq!(p.path, b"/a/b".to_vec());
    assert_eq!(p.consumed, 0);
    assert!(p.bound.is_empty());
}
