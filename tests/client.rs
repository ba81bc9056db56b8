use tynkerbase_client::client::{
    check_login_reply, create_proj_request, decode_project_list, deploy_proj_requests, get_diags_request,
    login_request, parse_endpoint, ping_request, remove_node_request, spawn_container_request,
    build_img_request, sequence_step, validate_response, ClientError, Method, SequenceStep,
};

#[test]
fn endpoint_dotted_address_gets_scheme_and_port() {
    assert_eq!(parse_endpoint("192.168.1.10").unwrap(), "https://192.168.1.10:7462");
    assert_eq!(parse_endpoint("10.0.0.1").unwrap(), "https://10.0.0.1:7462");
}

#[test]
fn endpoint_with_scheme_is_kept() {
    assert_eq!(parse_endpoint("https://abc.ngrok.app").unwrap(), "https://abc.ngrok.app");
    assert_eq!(parse_endpoint("http://host:1234/x").unwrap(), "http://host:1234/x");
    assert_eq!(parse_endpoint("git+ssh://h").unwrap(), "git+ssh://h");
}

#[test]
fn endpoint_without_real_scheme_is_refused() {
    assert_eq!(parse_endpoint("httpserver"), Err(ClientError::InvalidEndpoint("httpserver".to_string())));
    assert!(matches!(parse_endpoint("localhost:8080"), Err(ClientError::InvalidEndpoint(_))));
    assert!(matches!(parse_endpoint("://x"), Err(ClientError::InvalidEndpoint(_))));
    assert!(matches!(parse_endpoint("1http://x"), Err(ClientError::InvalidEndpoint(_))));
}

#[test]
fn sequence_stops_at_first_failure() {
    let ok: Result<(), ClientError> = Ok(());
    let bad = || -> Result<(), ClientError> { Err(ClientError::Network("down".to_string())) };
    assert_eq!(sequence_step(3, &vec![]), SequenceStep::Send(0));
    assert_eq!(sequence_step(3, &vec![ok.clone()]), SequenceStep::Send(1));
    assert_eq!(sequence_step(3, &vec![ok.clone(), bad()]), SequenceStep::Failed(1));
    assert_eq!(sequence_step(3, &vec![ok.clone(), ok.clone(), ok.clone()]), SequenceStep::Done);
    assert_eq!(sequence_step(0, &vec![]), SequenceStep::Done);
}

#[test]
fn endpoint_other_forms_are_refused() {
    assert_eq!(
        parse_endpoint("my-host.local"),
        Err(ClientError::InvalidEndpoint("my-host.local".to_string()))
    );
    // sixteen characters of digits and dots is too long
    assert!(matches!(parse_endpoint("1234.678.012.456"), Err(ClientError::InvalidEndpoint(_))));
    // fifteen is fine
    assert_eq!(parse_endpoint("123.567.901.345").unwrap(), "https://123.567.901.345:7462");
}

#[test]
fn requests_carry_path_timeout_and_key() {
    let r = ping_request("1.2.3.4").unwrap();
    assert_eq!(r.method, Method::Get);
    assert_eq!(r.url, "https://1.2.3.4:7462");
    assert_eq!(r.timeout_secs, Some(5));
    assert_eq!(r.api_key, None);

    let r = create_proj_request("1.2.3.4", "web", "KEY").unwrap();
    assert_eq!(r.url, "https://1.2.3.4:7462/files/proj/create-proj?name=web&confirm=false");
    assert_eq!(r.api_key.as_deref(), Some("KEY"));

    let r = build_img_request("https://n.example", "web", "KEY").unwrap();
    assert_eq!(r.url, "https://n.example/docker/proj/build-img?name=web");
    assert_eq!(r.timeout_secs, Some(2000));

    let r = spawn_container_request("1.2.3.4", "KEY").unwrap();
    assert_eq!(r.method, Method::Post);
    assert_eq!(r.timeout_secs, Some(12));

    let r = get_diags_request("1.2.3.4", "KEY").unwrap();
    assert_eq!(r.url, "https://1.2.3.4:7462/diags/get-diags");
    assert_eq!(r.timeout_secs, Some(7));
}

#[test]
fn requests_refuse_bad_endpoint_before_building() {
    assert!(matches!(ping_request("not an address"), Err(ClientError::InvalidEndpoint(_))));
    assert!(matches!(deploy_proj_requests("nope", "web", "K"), Err(ClientError::InvalidEndpoint(_))));
}

#[test]
fn deploy_composite_purges_then_creates_then_transfers() {
    let v = deploy_proj_requests("1.2.3.4", "web", "K").unwrap();
    assert_eq!(v.len(), 3);
    assert_eq!(v[0].url, "https://1.2.3.4:7462/files/proj/purge-project?name=web");
    assert_eq!(v[1].url, "https://1.2.3.4:7462/files/proj/create-proj?name=web&confirm=false");
    assert_eq!(v[2].url, "https://1.2.3.4:7462/files/proj/add-files-to-proj?name=web");
    assert_eq!(v[2].method, Method::Post);
    assert_eq!(v[2].timeout_secs, Some(10));
}

#[test]
fn account_requests() {
    let r = login_request("a@b.c", "abc123");
    assert_eq!(r.url, "https://tynkerbase-server.shuttleapp.rs/auth/login?email=a@b.c&pass_sha256=abc123");
    assert_eq!(r.timeout_secs, None);
    let r = remove_node_request("a@b.c", "h", "n1");
    assert_eq!(
        r.url,
        "https://tynkerbase-server.shuttleapp.rs/ngrok/remove-addr?email=a@b.c&pass_sha256=h&node_id=n1"
    );
}

#[test]
fn response_validation() {
    assert_eq!(validate_response(200, None), Ok(()));
    assert_eq!(validate_response(204, Some("x".to_string())), Ok(()));
    assert_eq!(
        validate_response(404, Some("missing".to_string())),
        Err(ClientError::Remote { status: 404, body: "missing".to_string() })
    );
    assert_eq!(
        validate_response(500, None),
        Err(ClientError::Remote { status: 500, body: "NONE".to_string() })
    );
    assert!(validate_response(302, None).is_err());
}

#[test]
fn login_reply_check() {
    assert_eq!(check_login_reply("salt-xyz".to_string()), Ok("salt-xyz".to_string()));
    assert_eq!(
        check_login_reply("Error: Incorrect password".to_string()),
        Err(ClientError::IncorrectCredentials)
    );
}

#[test]
fn project_list_decodes_bincode() {
    let names = vec!["alpha".to_string(), "beta".to_string()];
    let body = bincode::serialize(&names).unwrap();
    assert_eq!(decode_project_list(&body).unwrap(), names);
    assert_eq!(decode_project_list(&bincode::serialize(&Vec::<String>::new()).unwrap()).unwrap(), Vec::<String>::new());
    assert!(matches!(decode_project_list(&vec![1, 2, 3]), Err(ClientError::Serialization(_))));
}
