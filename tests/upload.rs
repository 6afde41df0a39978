use ariel_os_bindings::block::decode_block;
use ariel_os_bindings::engine::{CapsuleEngine, EngineError};
use ariel_os_bindings::registry::SandboxError;
use ariel_os_bindings::sandbox::{RequestError, Sandbox, StatusCode};

/// Builds an instance that holds its code; code that starts with 0xff is refused.
/// A run renders the number of bytes and how often the instance ran.
/// Code that starts with 0xee builds an instance whose runs trap.
#[derive(Default)]
struct CountingEngine;

struct Capsule {
    code: Vec<u8>,
    runs: u32,
}

impl CapsuleEngine<Capsule> for CountingEngine {
    fn instantiate(&self, code: &[u8]) -> Result<Capsule, EngineError> {
        if code.first() == Some(&0xff) {
            Err(EngineError::Rejected)
        } else {
            Ok(Capsule { code: code.to_vec(), runs: 0 })
        }
    }

    fn run(&self, instance: &mut Capsule) -> Result<String, EngineError> {
        instance.runs += 1;
        if instance.code.first() == Some(&0xee) {
            return Err(EngineError::Trap);
        }
        Ok(format!("{} bytes, run {}", instance.code.len(), instance.runs))
    }
}

fn sandbox() -> Sandbox<Capsule, CountingEngine> {
    Sandbox::new(CountingEngine::default())
}

fn name(s: &str) -> String {
    s.to_string()
}

#[test]
fn decode_block_fields() {
    let d = decode_block(0x08).unwrap();
    assert!(d.more);
    assert_eq!(d.size, 16);
    assert_eq!(d.offset, 0);
    let d = decode_block(0x1e).unwrap();
    assert!(d.more);
    assert_eq!(d.size, 1024);
    assert_eq!(d.offset, 1024);
    let d = decode_block(0x32).unwrap();
    assert!(!d.more);
    assert_eq!(d.size, 64);
    assert_eq!(d.offset, 192);
    assert!(decode_block(0x07).is_none());
    assert!(decode_block(0xff).is_none());
    let d = decode_block(u32::MAX - 1).unwrap();
    assert_eq!(d.size, 1024);
    assert_eq!(d.offset, 0x0fff_ffff * 1024);
}

#[test]
fn single_chunk_upload_is_created() {
    let mut sb = sandbox();
    let code = vec![1u8; 10];
    let r = sb.process_put_request(name("fib"), None, &code);
    assert_eq!(r, Ok((Some(0), StatusCode::Created)));
    assert_eq!(sb.staged_len(), 0);
    assert!(sb.contains(&name("fib")));
    assert_eq!(sb.report().len(), 1);
    assert_eq!(sb.report()[0].path(), "fib");
}

#[test]
fn four_chunk_upload_is_created_once() {
    let mut sb = sandbox();
    let code: Vec<u8> = (0..100u8).collect();
    // szx = 1: chunks of 32 bytes, the last one of 4.
    let mut created = 0;
    for i in 0..4u32 {
        let more = if i < 3 { 8 } else { 0 };
        let block = (i << 4) | more | 1;
        let start = (i * 32) as usize;
        let end = usize::min(start + 32, code.len());
        let r = sb.process_put_request(name("big"), Some(block), &code[start..end]);
        if i < 3 {
            assert_eq!(r, Ok((Some(block), StatusCode::Continue)));
            assert_eq!(sb.staged_len(), end);
            assert!(!sb.contains(&name("big")));
        } else {
            assert_eq!(r, Ok((Some(block), StatusCode::Created)));
            created += 1;
        }
    }
    assert_eq!(created, 1);
    assert_eq!(sb.report().len(), 1);
    assert_eq!(sb.staged_len(), 0);
    assert_eq!(sb.execute_capsule(&name("big")), Ok("100 bytes, run 1".to_string()));
}

#[test]
fn out_of_order_chunk_is_incomplete() {
    let mut sb = sandbox();
    // chunk 1 before chunk 0
    let r = sb.process_put_request(name("a"), Some(0x18), &[7u8; 16]);
    assert_eq!(r, Ok((None, StatusCode::RequestEntityIncomplete)));
    assert_eq!(sb.staged_len(), 0);
    // chunk 0, then chunk 0's successor skipped
    assert_eq!(sb.process_put_request(name("a"), Some(0x08), &[7u8; 16]), Ok((Some(0x08), StatusCode::Continue)));
    let r = sb.process_put_request(name("a"), Some(0x28), &[7u8; 16]);
    assert_eq!(r, Ok((None, StatusCode::RequestEntityIncomplete)));
    assert_eq!(sb.staged_len(), 16);
    // a repeated chunk 1 after chunk 1 is refused too
    assert_eq!(sb.process_put_request(name("a"), Some(0x18), &[7u8; 16]), Ok((Some(0x18), StatusCode::Continue)));
    let r = sb.process_put_request(name("a"), Some(0x18), &[7u8; 16]);
    assert_eq!(r, Ok((None, StatusCode::RequestEntityIncomplete)));
    assert_eq!(sb.staged_len(), 32);
}

#[test]
fn short_chunk_with_more_is_incomplete() {
    let mut sb = sandbox();
    let r = sb.process_put_request(name("a"), Some(0x08), &[1u8; 15]);
    assert_eq!(r, Ok((None, StatusCode::RequestEntityIncomplete)));
    assert_eq!(sb.staged_len(), 0);
    let r = sb.process_put_request(name("a"), Some(0x08), &[1u8; 17]);
    assert_eq!(r, Ok((None, StatusCode::RequestEntityIncomplete)));
}

#[test]
fn reserved_size_is_bad_request() {
    let mut sb = sandbox();
    assert_eq!(sb.process_put_request(name("a"), Some(0x08), &[1u8; 16]), Ok((Some(0x08), StatusCode::Continue)));
    let r = sb.process_put_request(name("a"), Some(0x0f), &[1u8; 16]);
    assert_eq!(r, Err(RequestError::BadRequest));
    assert_eq!(sb.staged_len(), 16);
}

#[test]
fn failed_reservation_leaves_buffer() {
    let mut sb = sandbox();
    assert_eq!(sb.process_put_request(name("a"), Some(0x08), &[1u8; 16]), Ok((Some(0x08), StatusCode::Continue)));
    let before = sb.staged_len();
    let r = sb.append_chunk(name("a"), 0x18, &[2u8; 16], false);
    assert_eq!(r, Ok((None, StatusCode::RequestEntityTooLarge)));
    assert_eq!(sb.staged_len(), before);
    // the same chunk may be sent again
    let r = sb.append_chunk(name("a"), 0x10, &[2u8; 5], true);
    assert_eq!(r, Ok((Some(0x10), StatusCode::Created)));
    assert_eq!(sb.execute_capsule(&name("a")), Ok("21 bytes, run 1".to_string()));
}

#[test]
fn refused_code_is_bad_request_and_kept() {
    let mut sb = sandbox();
    let r = sb.process_put_request(name("bad"), None, &[0xff, 1, 2]);
    assert_eq!(r, Err(RequestError::BadRequest));
    assert_eq!(sb.staged_len(), 3);
    assert!(!sb.contains(&name("bad")));
    // a restart at offset zero clears the buffer
    let r = sb.process_put_request(name("bad"), None, &[1, 2]);
    assert_eq!(r, Ok((Some(0), StatusCode::Created)));
    assert_eq!(sb.staged_len(), 0);
}

#[test]
fn finish_upload_registers_or_refuses() {
    let mut sb = sandbox();
    let r = sb.finish_upload(name("x"), 0x20, Ok(Capsule { code: vec![5; 3], runs: 0 }));
    assert_eq!(r, Ok((Some(0x20), StatusCode::Created)));
    assert!(sb.contains(&name("x")));
    let r = sb.finish_upload(name("y"), 0, Err(EngineError::Rejected));
    assert_eq!(r, Err(RequestError::BadRequest));
    assert!(!sb.contains(&name("y")));
}

#[test]
fn restart_evicts_old_instance() {
    let mut sb = sandbox();
    assert_eq!(sb.process_put_request(name("m"), None, &[1, 2, 3]), Ok((Some(0), StatusCode::Created)));
    assert!(sb.contains(&name("m")));
    let r = sb.process_put_request(name("m"), Some(0x08), &[9u8; 16]);
    assert_eq!(r, Ok((Some(0x08), StatusCode::Continue)));
    assert!(!sb.contains(&name("m")));
    assert_eq!(sb.execute_capsule(&name("m")), Err(SandboxError::NotFound));
}

#[test]
fn restart_evicts_even_when_chunk_is_refused() {
    let mut sb = sandbox();
    assert_eq!(sb.process_put_request(name("m"), None, &[1, 2, 3]), Ok((Some(0), StatusCode::Created)));
    let r = sb.process_put_request(name("m"), Some(0x08), &[9u8; 3]);
    assert_eq!(r, Ok((None, StatusCode::RequestEntityIncomplete)));
    assert!(!sb.contains(&name("m")));
}

#[test]
fn delete_is_idempotent() {
    let mut sb = sandbox();
    sb.delete(&name("ghost"));
    assert!(!sb.contains(&name("ghost")));
    assert_eq!(sb.process_put_request(name("k"), None, &[1]), Ok((Some(0), StatusCode::Created)));
    assert_eq!(sb.process_put_request(name("other"), None, &[1]), Ok((Some(0), StatusCode::Created)));
    sb.delete(&name("k"));
    sb.delete(&name("k"));
    assert!(!sb.contains(&name("k")));
    assert!(sb.contains(&name("other")));
    assert_eq!(sb.report().len(), 1);
}

#[test]
fn execute_runs_afresh_and_keeps_failing_instance() {
    let mut sb = sandbox();
    assert_eq!(sb.process_put_request(name("c"), None, &[1, 2]), Ok((Some(0), StatusCode::Created)));
    assert_eq!(sb.execute_capsule(&name("c")), Ok("2 bytes, run 1".to_string()));
    assert_eq!(sb.execute_capsule(&name("c")), Ok("2 bytes, run 2".to_string()));
    assert_eq!(sb.process_put_request(name("t"), None, &[0xee]), Ok((Some(0), StatusCode::Created)));
    assert_eq!(sb.execute_capsule(&name("t")), Err(SandboxError::WebAssembly));
    assert!(sb.contains(&name("t")));
    assert_eq!(sb.execute_capsule(&name("nope")), Err(SandboxError::NotFound));
}

#[test]
fn replacing_upload_keeps_one_entry() {
    let mut sb = sandbox();
    assert_eq!(sb.process_put_request(name("r"), None, &[1]), Ok((Some(0), StatusCode::Created)));
    assert_eq!(sb.process_put_request(name("r"), None, &[1, 2, 3, 4]), Ok((Some(0), StatusCode::Created)));
    assert_eq!(sb.report().len(), 1);
    assert_eq!(sb.execute_capsule(&name("r")), Ok("4 bytes, run 1".to_string()));
}

/// Renders an instance as the code it was built from.
struct EchoEngine;

impl CapsuleEngine<Vec<u8>> for EchoEngine {
    fn instantiate(&self, code: &[u8]) -> Result<Vec<u8>, EngineError> {
        Ok(code.to_vec())
    }

    fn run(&self, instance: &mut Vec<u8>) -> Result<String, EngineError> {
        Ok(format!("{:?}", instance))
    }
}

#[test]
fn engine_gets_all_staged_bytes() {
    let mut sb: Sandbox<Vec<u8>, EchoEngine> = Sandbox::new(EchoEngine);
    let first: Vec<u8> = (0..16u8).collect();
    assert_eq!(sb.process_put_request(name("e"), Some(0x08), &first), Ok((Some(0x08), StatusCode::Continue)));
    assert_eq!(sb.process_put_request(name("e"), Some(0x10), &[100, 101]), Ok((Some(0x10), StatusCode::Created)));
    let mut all = first.clone();
    all.extend_from_slice(&[100, 101]);
    assert_eq!(sb.execute_capsule(&name("e")), Ok(format!("{:?}", all)));
}
