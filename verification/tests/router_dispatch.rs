use aws_json_router::router::{AwsJsonRouter, Error, Header, Method, RequestMetadata};

fn request(uri: &str, method: Method, headers: Vec<(&str, &[u8])>) -> RequestMetadata {
    RequestMetadata {
        uri: uri.to_string(),
        method,
        headers: headers
            .into_iter()
            .map(|(name, value)| Header {
                name: name.to_string(),
                value: value.to_vec(),
            })
            .collect(),
    }
}

fn two_route_router() -> AwsJsonRouter<i32> {
    AwsJsonRouter::from_iter(vec![
        ("Op1".to_string(), 1),
        ("Op2".to_string(), 2),
    ])
}

#[test]
fn dispatches_to_registered_handler() {
    let router = two_route_router();
    let r = router.match_route(&request(
        "/",
        Method::Post,
        vec![("x-amz-target", b"Op1")],
    ));
    assert_eq!(r, Ok(1));
    let r = router.match_route(&request(
        "/",
        Method::Post,
        vec![("x-amz-target", b"Op2")],
    ));
    assert_eq!(r, Ok(2));
}

#[test]
fn unregistered_operation_is_not_found() {
    let router = two_route_router();
    let r = router.match_route(&request(
        "/",
        Method::Post,
        vec![("x-amz-target", b"Op3")],
    ));
    assert_eq!(r, Err(Error::NotFound));
}

#[test]
fn non_post_method_is_rejected() {
    let router = two_route_router();
    let r = router.match_route(&request(
        "/",
        Method::Get,
        vec![("x-amz-target", b"Op1")],
    ));
    assert_eq!(r, Err(Error::MethodNotAllowed));
}

#[test]
fn non_root_path_is_rejected() {
    let router = two_route_router();
    let r = router.match_route(&request(
        "/other",
        Method::Post,
        vec![("x-amz-target", b"Op1")],
    ));
    assert_eq!(r, Err(Error::NotRootUrl));
    // the path check comes first, whatever else is wrong
    let r = router.match_route(&request("/other", Method::Get, vec![]));
    assert_eq!(r, Err(Error::NotRootUrl));
}

#[test]
fn missing_header_is_rejected() {
    let router = two_route_router();
    let r = router.match_route(&request("/", Method::Post, vec![("content-type", b"x")]));
    assert_eq!(r, Err(Error::MissingHeader));
}

#[test]
fn invalid_header_reports_first_bad_byte() {
    let router = two_route_router();
    let r = router.match_route(&request(
        "/",
        Method::Post,
        vec![("x-amz-target", &[b'O', b'p', 0xFF, b'1'])],
    ));
    assert_eq!(r, Err(Error::InvalidHeader(2)));
}

#[test]
fn duplicate_keys_overwrite_in_construction_order() {
    let router: AwsJsonRouter<i32> = AwsJsonRouter::from_iter(vec![
        ("Op1".to_string(), 1),
        ("Op1".to_string(), 9),
    ]);
    let r = router.match_route(&request(
        "/",
        Method::Post,
        vec![("x-amz-target", b"Op1")],
    ));
    assert_eq!(r, Ok(9));
}

#[test]
fn layering_transforms_every_handler_and_keeps_keys() {
    let router = two_route_router();
    let layered = router.layer(|h: i32| h + 1000);
    let r = layered.match_route(&request(
        "/",
        Method::Post,
        vec![("x-amz-target", b"Op1")],
    ));
    assert_eq!(r, Ok(1001));
    let r = layered.match_route(&request(
        "/",
        Method::Post,
        vec![("x-amz-target", b"Op2")],
    ));
    assert_eq!(r, Ok(1002));
    let r = layered.match_route(&request(
        "/",
        Method::Post,
        vec![("x-amz-target", b"Op3")],
    ));
    assert_eq!(r, Err(Error::NotFound));
    assert_eq!(layered.routes().len(), 2);
}

#[test]
fn layering_into_another_handler_type() {
    let router = two_route_router();
    let layered: AwsJsonRouter<String> = router.layer(|h: i32| format!("handler-{}", h));
    let r = layered.match_route(&request(
        "/",
        Method::Post,
        vec![("x-amz-target", b"Op2")],
    ));
    assert_eq!(r, Ok("handler-2".to_string()));
}

#[test]
fn promotion_above_threshold_keeps_lookup_correct() {
    // 20 routes lie above the cutoff of 15, so the table is hash-indexed
    let mut pairs = Vec::new();
    for i in 0..20 {
        pairs.push((format!("Operation{}", i), i as i32));
    }
    let router = AwsJsonRouter::from_iter(pairs);
    for i in 0..20 {
        let name = format!("Operation{}", i);
        let r = router.match_route(&request(
            "/",
            Method::Post,
            vec![("x-amz-target", name.as_bytes())],
        ));
        assert_eq!(r, Ok(i as i32));
    }
    let r = router.match_route(&request(
        "/",
        Method::Post,
        vec![("x-amz-target", b"Operation20")],
    ));
    assert_eq!(r, Err(Error::NotFound));
}

#[test]
fn first_header_of_the_name_wins() {
    let router = two_route_router();
    let r = router.match_route(&request(
        "/",
        Method::Post,
        vec![("x-amz-target", b"Op2"), ("x-amz-target", b"Op1")],
    ));
    assert_eq!(r, Ok(2));
}
