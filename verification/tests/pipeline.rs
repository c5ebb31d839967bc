use sintelli::decoder::decode;
use sintelli::events::{APIError, GenerationYield};
use sintelli::reassembler::{trim_bytes, LineReassembler};
use sintelli::stream::StreamDecoder;

const BILLING_LINE: &[u8] = b"{\"status\":\"completed\",\"cost\":1,\"cost_per_mtk\":2}\n";

fn billing(cost: u32, cost_per_mtk: u32) -> GenerationYield {
    GenerationYield::Billing { cost, cost_per_mtk }
}

#[test]
fn billing_single_chunk() {
    let mut dec = StreamDecoder::new();
    let out = dec.feed(BILLING_LINE);
    assert_eq!(out.len(), 1);
    assert_eq!(out[0], Ok(billing(1, 2)));
    let more = dec.feed(b"{\"status\":\"initialized\",\"session_id\":\"x\"}\n");
    assert!(more.is_empty());
}

#[test]
fn chunk_boundary_invariance_every_split() {
    for split in 0..BILLING_LINE.len() {
        let mut dec = StreamDecoder::new();
        let mut out = dec.feed(&BILLING_LINE[..split]);
        out.extend(dec.feed(&BILLING_LINE[split..]));
        assert_eq!(out.len(), 1);
        assert_eq!(out[0], Ok(billing(1, 2)));
    }
}

#[test]
fn chunk_boundary_invariance_byte_by_byte() {
    let mut dec = StreamDecoder::new();
    let mut out = Vec::new();
    for b in BILLING_LINE {
        out.extend(dec.feed(&[*b]));
    }
    assert_eq!(out.len(), 1);
    assert_eq!(out[0], Ok(billing(1, 2)));
}

#[test]
fn malformed_line_tolerance() {
    let mut dec = StreamDecoder::new();
    let out = dec.feed(b"not json\n{\"status\":\"initialized\",\"session_id\":\"abc\"}\n");
    assert_eq!(out.len(), 1);
    assert_eq!(
        out[0],
        Ok(GenerationYield::Session { session_id: "abc".to_owned() })
    );
}

#[test]
fn alias_resumed_decodes_as_initialized() {
    let resumed = decode(b"{\"status\":\"resumed\",\"session_id\":\"s-1\"}");
    let initialized = decode(b"{\"status\":\"initialized\",\"session_id\":\"s-1\"}");
    assert_eq!(resumed, initialized);
    assert_eq!(
        resumed,
        Some(Ok(GenerationYield::Session { session_id: "s-1".to_owned() }))
    );
}

#[test]
fn idempotent_decode() {
    let line: &[u8] = b"{\"status\":\"completed\",\"cost\":7,\"cost_per_mtk\":9}";
    assert_eq!(decode(line), decode(line));
    assert_eq!(decode(line), Some(Ok(billing(7, 9))));
}

#[test]
fn terminal_on_error() {
    let mut dec = StreamDecoder::new();
    let out = dec.feed(
        b"{\"status\":\"error\",\"message\":\"quota exceeded\"}\n{\"status\":\"completed\",\"cost\":1,\"cost_per_mtk\":2}\n",
    );
    assert_eq!(out.len(), 1);
    assert_eq!(
        out[0],
        Err(APIError::StreamError("quota exceeded".to_owned()))
    );
    let more = dec.feed(BILLING_LINE);
    assert!(more.is_empty());
}

#[test]
fn empty_and_whitespace_lines_suppressed() {
    let mut dec = StreamDecoder::new();
    let out = dec.feed(b"   \n\t\r\n\n  \r\n");
    assert!(out.is_empty());
    let out = dec.feed(b"  {\"status\":\"initialized\",\"session_id\":\"w\"}  \r\n");
    assert_eq!(out.len(), 1);
    assert_eq!(
        out[0],
        Ok(GenerationYield::Session { session_id: "w".to_owned() })
    );
}

#[test]
fn dangling_partial_line_discarded() {
    let mut dec = StreamDecoder::new();
    let out = dec.feed(b"{\"status\":\"initialized\",\"session_id\":\"x\"");
    assert!(out.is_empty());
    let leftover = dec.finish();
    assert_eq!(
        leftover,
        Some(b"{\"status\":\"initialized\",\"session_id\":\"x\"".to_vec())
    );
    let more = dec.feed(b"\n");
    assert!(more.is_empty());
}

#[test]
fn generating_event_carries_delta_step_tokens() {
    let line: &[u8] = b"{\"status\":\"generating\",\"delta\":{\"text\":\"hi\",\"image\":\"aGk=\"},\"step\":3,\"tokens\":12,\"session\":\"s\"}";
    match decode(line) {
        Some(Ok(GenerationYield::Data { delta, step, tokens })) => {
            assert_eq!(delta.text.as_deref(), Some("hi"));
            assert_eq!(delta.image.as_deref(), Some("aGk="));
            assert_eq!(step, 3);
            assert_eq!(tokens, 12);
        }
        other => panic!("expected a data event, got {:?}", other),
    }
}

#[test]
fn generating_event_with_empty_delta() {
    let line: &[u8] =
        b"{\"status\":\"generating\",\"delta\":{},\"step\":1,\"tokens\":1,\"session\":\"s\"}";
    match decode(line) {
        Some(Ok(GenerationYield::Data { delta, .. })) => {
            assert_eq!(delta.text, None);
            assert_eq!(delta.image, None);
        }
        other => panic!("expected a data event, got {:?}", other),
    }
}

#[test]
fn generating_without_required_fields_is_skipped() {
    // missing session
    assert_eq!(
        decode(b"{\"status\":\"generating\",\"delta\":{},\"step\":1,\"tokens\":1}"),
        None
    );
    // missing delta
    assert_eq!(
        decode(b"{\"status\":\"generating\",\"step\":1,\"tokens\":1,\"session\":\"s\"}"),
        None
    );
    // delta present but not an object
    assert_eq!(
        decode(b"{\"status\":\"generating\",\"delta\":\"x\",\"step\":1,\"tokens\":1,\"session\":\"s\"}"),
        None
    );
    // delta.text present with a non-string type
    assert_eq!(
        decode(b"{\"status\":\"generating\",\"delta\":{\"text\":42},\"step\":1,\"tokens\":1,\"session\":\"s\"}"),
        None
    );
    // step out of the u32 range
    assert_eq!(
        decode(b"{\"status\":\"generating\",\"delta\":{},\"step\":4294967296,\"tokens\":1,\"session\":\"s\"}"),
        None
    );
}

#[test]
fn unknown_or_missing_status_is_skipped() {
    assert_eq!(decode(b"{\"status\":\"finished\"}"), None);
    assert_eq!(decode(b"{\"session_id\":\"x\"}"), None);
    assert_eq!(decode(b"{\"status\":5,\"session_id\":\"x\"}"), None);
    assert_eq!(decode(b"[1,2,3]"), None);
    assert_eq!(decode(b"{\"status\":\"error\"}"), None);
    assert_eq!(decode(b"{\"status\":\"completed\",\"cost\":1}"), None);
    assert_eq!(
        decode(b"{\"status\":\"completed\",\"cost\":-1,\"cost_per_mtk\":2}"),
        None
    );
}

#[test]
fn reassembler_keeps_partial_line_between_chunks() {
    let mut lines = LineReassembler::new();
    let first = lines.ingest(b"{\"a\":1}\n{\"b\"");
    assert_eq!(first.len(), 1);
    assert_eq!(first[0], b"{\"a\":1}".to_vec());
    let second = lines.ingest(b":2}\nrest");
    assert_eq!(second.len(), 1);
    assert_eq!(second[0], b"{\"b\":2}".to_vec());
    assert_eq!(lines.finish(), Some(b"rest".to_vec()));
}

#[test]
fn ingest_of_empty_chunk_changes_nothing() {
    let mut lines = LineReassembler::new();
    assert!(lines.ingest(b"abc").is_empty());
    assert!(lines.ingest(b"").is_empty());
    assert_eq!(lines.finish(), Some(b"abc".to_vec()));
    assert_eq!(lines.finish(), None);
}

#[test]
fn trim_removes_ascii_whitespace_at_both_ends() {
    assert_eq!(trim_bytes(b"  a b \t"), b"a b".to_vec());
    assert_eq!(trim_bytes(b"\r\n\t "), Vec::<u8>::new());
    assert_eq!(trim_bytes(b"x"), b"x".to_vec());
    assert_eq!(trim_bytes(b""), Vec::<u8>::new());
}
