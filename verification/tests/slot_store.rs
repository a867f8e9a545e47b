//! Tests of the slot-store side: file paths, slot-index rendering, the
//! request record, and the UTF-8 boundary check.

use oliana_server::config::Args;
use oliana_server::decimal::decimal_string;
use oliana_server::request::request_record;
use oliana_server::server::OlianaServer;
use oliana_server::utf8::utf8_tail_valid;

#[test]
fn fresh_session_paths_use_slot_zero() {
    let server = OlianaServer::new("127.0.0.1:4000", "/tmp/ai-text");
    assert_eq!(server.read_text_input_nonce(), 0);
    assert_eq!(server.read_generate_text_next_byte_i(), 0);
    assert_eq!(server.get_current_text_input_json_path(), "/tmp/ai-text/0.json");
    assert_eq!(server.get_current_text_output_txt_path(), "/tmp/ai-text/0.txt");
    assert_eq!(server.get_current_text_output_done_path(), "/tmp/ai-text/0.done");
}

#[test]
fn nonce_scan_settles_on_first_free_slot() {
    // Slots 0, 1 and 2 hold request records already; the scan walks past
    // them and settles on 3.
    let occupied = [true, true, true, false];
    let mut server = OlianaServer::new("client", "work");
    let mut probes = 0;
    loop {
        let exists = occupied[server.read_text_input_nonce()];
        probes += 1;
        if server.nonce_scan_step(exists) {
            break;
        }
    }
    assert_eq!(server.read_text_input_nonce(), 3);
    assert_eq!(probes, 4);
    assert_eq!(server.get_current_text_input_json_path(), "work/3.json");
}

#[test]
fn begin_resets_delivered_offset() {
    let mut server = OlianaServer::new("client", "work");
    let mut call = oliana_server::stream::NextTokenCall::new();
    let input = oliana_server::stream::PollInput::Polled {
        bytes: Some(b"some earlier reply".to_vec()),
        done: false,
    };
    let _ = server.generate_text_next_token_poll(&mut call, &input);
    assert_eq!(server.read_generate_text_next_byte_i(), 18);
    server.reset_delivered_offset();
    assert_eq!(server.read_generate_text_next_byte_i(), 0);
}

#[test]
fn slot_indices_render_in_decimal() {
    assert_eq!(decimal_string(0), "0");
    assert_eq!(decimal_string(7), "7");
    assert_eq!(decimal_string(10), "10");
    assert_eq!(decimal_string(120), "120");
    assert_eq!(decimal_string(usize::MAX), "18446744073709551615");
}

#[test]
fn larger_nonces_appear_in_paths() {
    let mut server = OlianaServer::new("client", "jobs");
    for _ in 0..12 {
        let settled = server.nonce_scan_step(true);
        assert!(!settled);
    }
    assert_eq!(server.read_text_input_nonce(), 12);
    assert_eq!(server.get_current_text_output_txt_path(), "jobs/12.txt");
    assert_eq!(server.get_current_text_output_done_path(), "jobs/12.done");
}

#[test]
fn request_record_holds_the_submitted_prompts() {
    let record = request_record("You are terse.", "Say hi");
    assert_eq!(
        record,
        "{\"system_prompt\":\"You are terse.\",\"user_prompt\":\"Say hi\"}"
    );
}

#[test]
fn request_record_escapes_json() {
    let record = request_record("a\"b\\c", "line\nbreak\ttab\rret\u{8}bs\u{c}ff\u{1}ctl");
    assert_eq!(
        record,
        "{\"system_prompt\":\"a\\\"b\\\\c\",\"user_prompt\":\"line\\nbreak\\ttab\\rret\\bbs\\fff\\u0001ctl\"}"
    );
}

#[test]
fn request_record_passes_unicode_through() {
    let record = request_record("r\u{e9}sum\u{e9}", "\u{20ac}5");
    assert_eq!(
        record,
        "{\"system_prompt\":\"r\u{e9}sum\u{e9}\",\"user_prompt\":\"\u{20ac}5\"}"
    );
}

#[test]
fn utf8_boundary_check() {
    let hello = b"Hello".to_vec();
    assert!(utf8_tail_valid(&hello, 0));
    assert!(utf8_tail_valid(&hello, 5));

    let euro = "\u{20ac}".as_bytes().to_vec();
    assert!(utf8_tail_valid(&euro, 0));
    // A suffix that starts inside the character is not valid text.
    assert!(!utf8_tail_valid(&euro, 1));

    let mut split = b"ab".to_vec();
    split.push(0xE2);
    split.push(0x82);
    assert!(!utf8_tail_valid(&split, 0));

    // Lone continuation and overlong forms are rejected.
    assert!(!utf8_tail_valid(&vec![0x80], 0));
    assert!(!utf8_tail_valid(&vec![0xC0, 0xAF], 0));
    assert!(!utf8_tail_valid(&vec![0xED, 0xA0, 0x80], 0));
}

#[test]
fn default_args_are_all_off() {
    let args = Args::default();
    assert_eq!(args.verbose, 0);
    assert!(args.random_seed.is_none());
    assert!(args.ollama_model_name.is_none());
    assert!(!args.list_connected_hardware);
    assert!(args.test_llm_prompt.is_none());
    assert!(args.test_image_prompt.is_none());
    assert!(args.llm_onnx_file.is_none());
    assert!(args.llm_tokenizer_json_file.is_none());
}

#[test]
fn request_record_of_empty_prompts() {
    let record = request_record("", "");
    assert_eq!(record, "{\"system_prompt\":\"\",\"user_prompt\":\"\"}");
}
