use entrypoint::message::{
    parse_request, parse_response, parse_start_cmd, serialize_request, Request, Response,
};

fn req(argv: &[&str], env: &[(&str, &str)], cwd: &str) -> Request {
    Request {
        argv: argv.iter().map(|s| s.to_string()).collect(),
        env: env
            .iter()
            .map(|(k, v)| (k.to_string(), v.to_string()))
            .collect(),
        cwd: cwd.to_string(),
    }
}

#[test]
fn serializes_the_canonical_compact_document() {
    let r = req(&["a", "b"], &[("K", "V")], "/tmp");
    assert_eq!(
        serialize_request(&r),
        "{\"argv\":[\"a\",\"b\"],\"env\":{\"K\":\"V\"},\"cwd\":\"/tmp\"}"
    );
}

#[test]
fn escapes_specials_and_controls() {
    let r = req(&["say \"hi\"\\now"], &[], "\n\t\u{1}");
    assert_eq!(
        serialize_request(&r),
        "{\"argv\":[\"say \\\"hi\\\"\\\\now\"],\"env\":{},\"cwd\":\"\\n\\t\\u0001\"}"
    );
}

#[test]
fn request_round_trips_through_serialize_and_parse() {
    let r = req(
        &["prog", "arg with space", "quote\"backslash\\", "tab\there", "\u{1}\u{1f}", "héllo"],
        &[("PATH", "/usr/bin:/bin"), ("EMPTY", ""), ("NL", "a\nb")],
        "/home/someone/work dir",
    );
    let text = serialize_request(&r);
    let back = parse_request(&text).expect("round trip parse");
    assert_eq!(back.argv, r.argv);
    assert_eq!(back.env, r.env);
    assert_eq!(back.cwd, r.cwd);
}

#[test]
fn empty_request_round_trips() {
    let r = req(&[], &[], "");
    let text = serialize_request(&r);
    assert_eq!(text, "{\"argv\":[],\"env\":{},\"cwd\":\"\"}");
    let back = parse_request(&text).expect("round trip parse");
    assert!(back.argv.is_empty());
    assert!(back.env.is_empty());
    assert_eq!(back.cwd, "");
}

#[test]
fn request_parser_rejects_duplicate_env_keys() {
    assert!(parse_request("{\"argv\":[],\"env\":{\"A\":\"x\",\"A\":\"y\"},\"cwd\":\"\"}").is_none());
}

#[test]
fn request_parser_rejects_malformed_documents() {
    assert!(parse_request("").is_none());
    assert!(parse_request("{}").is_none());
    assert!(parse_request("{\"argv\":[],\"env\":{}}").is_none());
    assert!(parse_request("{\"argv\":[],\"env\":{},\"cwd\":\"\"}x").is_none());
}

#[test]
fn response_with_exit_status_and_null_replace_exits() {
    let r = parse_response("{\"exit_status\": 0, \"replace_process\": null}").expect("parse");
    match r {
        Response::Exit(code) => assert_eq!(code, 0),
        Response::Replace(_) => panic!("expected an exit decision"),
    }
}

#[test]
fn response_with_bare_exit_status_exits() {
    let r = parse_response("{\"exit_status\":17}").expect("parse");
    match r {
        Response::Exit(code) => assert_eq!(code, 17),
        Response::Replace(_) => panic!("expected an exit decision"),
    }
    let neg = parse_response("{\"exit_status\":-2}").expect("parse");
    match neg {
        Response::Exit(code) => assert_eq!(code, -2),
        Response::Replace(_) => panic!("expected an exit decision"),
    }
}

#[test]
fn response_with_replace_directive_inherits_absent_fields() {
    let r = parse_response("{\"replace_process\": {\"program\": \"/bin/echo\", \"args\": [\"hi\"]}}")
        .expect("parse");
    match r {
        Response::Replace(rp) => {
            assert_eq!(rp.program, "/bin/echo");
            assert_eq!(rp.args, Some(vec!["hi".to_string()]));
            assert!(rp.env.is_none());
            assert!(rp.cwd.is_none());
        }
        Response::Exit(_) => panic!("expected a replace decision"),
    }
}

#[test]
fn response_with_full_replace_directive() {
    let text = "{\"exit_status\":0,\"replace_process\":{\"program\":\"/bin/x\",\
                \"args\":[\"a\"],\"env\":{\"H\":\"1\"},\"cwd\":\"/srv\"}}";
    let r = parse_response(text).expect("parse");
    match r {
        Response::Replace(rp) => {
            assert_eq!(rp.program, "/bin/x");
            assert_eq!(rp.args, Some(vec!["a".to_string()]));
            assert_eq!(rp.env, Some(vec![("H".to_string(), "1".to_string())]));
            assert_eq!(rp.cwd, Some("/srv".to_string()));
        }
        Response::Exit(_) => panic!("expected a replace decision"),
    }
}

#[test]
fn response_members_may_come_in_either_order() {
    let r = parse_response("{\"replace_process\":null,\"exit_status\":5}").expect("parse");
    match r {
        Response::Exit(code) => assert_eq!(code, 5),
        Response::Replace(_) => panic!("expected an exit decision"),
    }
    let r2 = parse_response("{\"replace_process\":{\"program\":\"/bin/x\"},\"exit_status\":5}")
        .expect("parse");
    assert!(matches!(r2, Response::Replace(_)));
}

#[test]
fn response_parser_rejects_protocol_violations() {
    assert!(parse_response("").is_none());
    assert!(parse_response("{}").is_none());
    assert!(parse_response("{\"replace_process\":null}").is_none());
    assert!(parse_response("{\"exit_status\":2147483648}").is_none());
    assert!(parse_response("{\"exit_status\":1.5}").is_none());
    assert!(parse_response("{\"status\":1}").is_none());
    assert!(parse_response("{\"exit_status\":1}trailing").is_none());
    assert!(parse_response("{\"replace_process\":{}}").is_none());
}

#[test]
fn start_cmd_parses_with_whitespace_and_any_strings() {
    let text = "{ \"env\": {\"A\": \"1\", \"B\": \"two words\"},\n  \"cwd\": \"/srv\",\n  \
                \"program\": \"/usr/bin/server\",\n  \"args\": [\"--daemon\", \"-v\"] }";
    let sc = parse_start_cmd(text).expect("parse");
    assert_eq!(
        sc.env,
        vec![
            ("A".to_string(), "1".to_string()),
            ("B".to_string(), "two words".to_string())
        ]
    );
    assert_eq!(sc.cwd, "/srv");
    assert_eq!(sc.program, "/usr/bin/server");
    assert_eq!(sc.args, vec!["--daemon".to_string(), "-v".to_string()]);
}

#[test]
fn start_cmd_requires_all_members() {
    assert!(parse_start_cmd("{\"env\":{},\"cwd\":\"/\",\"program\":\"p\"}").is_none());
    assert!(parse_start_cmd("{}").is_none());
    assert!(parse_start_cmd("").is_none());
}
