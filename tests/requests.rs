use ariel_os_bindings::engine::{CapsuleEngine, EngineError};
use ariel_os_bindings::registry::{run_result, SandboxError};
use ariel_os_bindings::request::{
    read_response, OptionValue, Request, RequestData, RequestOption, Response, DELETE, GET, PUT,
};
use ariel_os_bindings::sandbox::{RequestError, Sandbox, StatusCode};
use coap_message_utils::option_value::Block2RequestData;

/// Instances are the uploaded code; a run renders it as text.
struct TextEngine;

impl CapsuleEngine<Vec<u8>> for TextEngine {
    fn instantiate(&self, code: &[u8]) -> Result<Vec<u8>, EngineError> {
        Ok(code.to_vec())
    }

    fn run(&self, instance: &mut Vec<u8>) -> Result<String, EngineError> {
        Ok(format!("ran {} bytes", instance.len()))
    }
}

fn sandbox() -> Sandbox<Vec<u8>, TextEngine> {
    Sandbox::new(TextEngine)
}

fn path(p: &str) -> RequestOption {
    RequestOption { number: 11, value: OptionValue::UriPath(Some(p.to_string())) }
}

fn block1(v: u32) -> RequestOption {
    RequestOption { number: 27, value: OptionValue::Block1(Some(v)) }
}

fn block2() -> RequestOption {
    RequestOption { number: 23, value: OptionValue::Block2(Some(Block2RequestData::default())) }
}

fn request(code: u8, options: Vec<RequestOption>, payload: Vec<u8>) -> Request {
    Request { code, options, payload }
}

fn respond(sb: &mut Sandbox<Vec<u8>, TextEngine>, req: Request) -> Result<Response, RequestError> {
    let data = sb.extract_request_data(req)?;
    sb.build_response(data)
}

#[test]
fn upload_run_delete_scenario() {
    let mut sb = sandbox();
    let r = respond(&mut sb, request(PUT, vec![path("calc"), block1(0x08)], vec![0u8; 16])).unwrap();
    assert_eq!(r.status, StatusCode::Continue);
    assert_eq!(r.block1, Some(0x08));
    assert!(r.body.is_none());

    let r = respond(&mut sb, request(PUT, vec![path("calc"), block1(0x10)], vec![1u8; 10])).unwrap();
    assert_eq!(r.status, StatusCode::Created);
    assert_eq!(r.block1, Some(0x10));

    let r = respond(&mut sb, request(GET, vec![path("calc"), block2()], vec![])).unwrap();
    assert_eq!(r.status, StatusCode::Content);
    assert_eq!(r.block1, None);
    let (b2, text) = r.body.unwrap();
    assert!(b2.is_some());
    assert_eq!(text, "ran 26 bytes");

    let r = respond(&mut sb, request(DELETE, vec![path("calc")], vec![])).unwrap();
    assert_eq!(r.status, StatusCode::Deleted);
    assert!(r.body.is_none());

    let r = respond(&mut sb, request(GET, vec![path("calc"), block2()], vec![]));
    assert_eq!(r.err(), Some(RequestError::NotFound));
}

#[test]
fn delete_of_unknown_name_is_deleted() {
    let mut sb = sandbox();
    for _ in 0..2 {
        let d = sb.extract_request_data(request(DELETE, vec![path("nothing")], vec![])).unwrap();
        assert_eq!(d.status, StatusCode::Deleted);
        assert_eq!(d.block1, None);
        assert!(d.read.is_none());
    }
}

#[test]
fn read_without_block2_has_none() {
    let mut sb = sandbox();
    let d = sb.extract_request_data(request(GET, vec![path("x")], vec![])).unwrap();
    assert_eq!(d.status, StatusCode::Content);
    let (b2, name) = d.read.unwrap();
    assert!(b2.is_none());
    assert_eq!(name, "x");
}

#[test]
fn missing_path_is_bad_request() {
    let mut sb = sandbox();
    let r = sb.extract_request_data(request(GET, vec![], vec![]));
    assert_eq!(r.err(), Some(RequestError::BadRequest));
    let r = sb.extract_request_data(request(
        GET,
        vec![RequestOption { number: 11, value: OptionValue::UriPath(None) }],
        vec![],
    ));
    // an unreadable path segment is left over, and it is critical
    assert_eq!(r.err(), Some(RequestError::BadRequest));
}

#[test]
fn second_path_segment_is_bad_request() {
    let mut sb = sandbox();
    let r = sb.extract_request_data(request(PUT, vec![path("a"), path("b")], vec![1]));
    assert_eq!(r.err(), Some(RequestError::BadRequest));
    assert_eq!(sb.staged_len(), 0);
    assert!(!sb.contains(&"a".to_string()));
}

#[test]
fn duplicate_block1_is_bad_request() {
    let mut sb = sandbox();
    let r = sb.extract_request_data(request(PUT, vec![path("a"), block1(0), block1(0x10)], vec![1]));
    assert_eq!(r.err(), Some(RequestError::BadRequest));
}

#[test]
fn unknown_critical_option_is_bad_request() {
    let mut sb = sandbox();
    let opts = vec![RequestOption { number: 9, value: OptionValue::Other }, path("a")];
    let r = sb.extract_request_data(request(GET, opts, vec![]));
    assert_eq!(r.err(), Some(RequestError::BadRequest));
}

#[test]
fn unknown_elective_option_is_ignored() {
    let mut sb = sandbox();
    let opts = vec![RequestOption { number: 12, value: OptionValue::Other }, path("a"), block1(0)];
    let d = sb.extract_request_data(request(PUT, opts, vec![3, 4])).unwrap();
    assert_eq!(d.status, StatusCode::Created);
    assert_eq!(d.block1, Some(0));
    assert!(sb.contains(&"a".to_string()));
}

#[test]
fn other_method_is_not_allowed() {
    let mut sb = sandbox();
    let r = sb.extract_request_data(request(2, vec![path("a")], vec![]));
    assert_eq!(r.err(), Some(RequestError::MethodNotAllowed));
}

#[test]
fn put_without_block1_is_whole_upload() {
    let mut sb = sandbox();
    let d = sb.extract_request_data(request(PUT, vec![path("w")], vec![9; 40])).unwrap();
    assert_eq!(d.status, StatusCode::Created);
    assert_eq!(d.block1, Some(0));
}

#[test]
fn write_response_echoes_block1() {
    let mut sb = sandbox();
    let data = RequestData { block1: Some(0x28), status: StatusCode::Continue, read: None };
    let r = sb.build_response(data).unwrap();
    assert_eq!(r.status, StatusCode::Continue);
    assert_eq!(r.block1, Some(0x28));
    assert!(r.body.is_none());
}

#[test]
fn read_response_maps_outcomes() {
    let r = read_response(StatusCode::Content, None, Ok("7".to_string())).unwrap();
    assert_eq!(r.status, StatusCode::Content);
    assert_eq!(r.body.unwrap().1, "7");
    let r = read_response(StatusCode::Content, None, Err(SandboxError::NotFound));
    assert_eq!(r.err(), Some(RequestError::NotFound));
    let r = read_response(StatusCode::Content, None, Err(SandboxError::WebAssembly));
    assert_eq!(r.err(), Some(RequestError::InternalServerError));
}

#[test]
fn run_result_maps_engine_failures() {
    assert_eq!(run_result(Ok("3".to_string())), Ok("3".to_string()));
    assert_eq!(run_result(Err(EngineError::Trap)), Err(SandboxError::WebAssembly));
    assert_eq!(run_result(Err(EngineError::Rejected)), Err(SandboxError::WebAssembly));
}

#[test]
fn option_value_under_other_number_is_left_over() {
    let mut sb = sandbox();
    // a write block value under the path option's number is not a block option
    let opts = vec![path("a"), RequestOption { number: 11, value: OptionValue::Block1(Some(8)) }];
    let r = sb.extract_request_data(request(PUT, opts, vec![1]));
    assert_eq!(r.err(), Some(RequestError::BadRequest));
    // a path value under an elective number is ignored, and no name is found
    let opts = vec![RequestOption { number: 12, value: OptionValue::UriPath(Some("a".to_string())) }];
    let r = sb.extract_request_data(request(GET, opts, vec![]));
    assert_eq!(r.err(), Some(RequestError::BadRequest));
}
