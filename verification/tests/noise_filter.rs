use devcontainer_config::clean_text;
use devcontainer_config::process_output;
use devcontainer_config::remove_node_stuff;
use devcontainer_config::Error;

#[test]
fn quiet_text_keeps_all_line_content() {
    // No noise lines: only the newlines and carriage returns disappear.
    let out = remove_node_stuff("abc\r\ndef\nghi".to_string()).unwrap();
    assert_eq!(out, "abcdefghi");
}

#[test]
fn quiet_single_line_is_unchanged() {
    let out = remove_node_stuff("hello world".to_string()).unwrap();
    assert_eq!(out, "hello world");
}

#[test]
fn empty_input_stays_empty() {
    assert_eq!(remove_node_stuff(String::new()).unwrap(), "");
}

#[test]
fn drops_node_warning_line() {
    let out = remove_node_stuff("a\n(node:12345) Warning: xyz\nb".to_string()).unwrap();
    assert_eq!(out, "ab");
    let alone = remove_node_stuff("(node:12345) Warning: xyz".to_string()).unwrap();
    assert_eq!(alone, "");
}

#[test]
fn drops_trace_deprecation_line() {
    let out = remove_node_stuff("a\n(Use `Code --trace-deprecation ...`) foo\nb".to_string())
        .unwrap();
    assert_eq!(out, "ab");
}

#[test]
fn drops_architecture_tag_line() {
    assert_eq!(remove_node_stuff("[abcx64.".to_string()).unwrap(), "");
    assert_eq!(remove_node_stuff("[abcx86.".to_string()).unwrap(), "");
}

#[test]
fn keeps_line_not_ending_in_architecture_tag() {
    assert_eq!(remove_node_stuff("[abc.x64".to_string()).unwrap(), "[abc.x64");
}

#[test]
fn keeps_architecture_suffix_without_bracket() {
    assert_eq!(remove_node_stuff("abcx64.".to_string()).unwrap(), "abcx64.");
}

#[test]
fn carriage_returns_are_stripped_before_matching() {
    // Once its carriage return is gone, the line starts with "(node:".
    let out = remove_node_stuff("(no\rde:99) w\nkept".to_string()).unwrap();
    assert_eq!(out, "kept");
}

#[test]
fn end_to_end_noise_mixture() {
    let input = "line1\r\n(node:111) warn\nline2\r\n[tag]x86.\nline3";
    let out = remove_node_stuff(input.to_string()).unwrap();
    assert_eq!(out, "line1line2line3");
}

#[test]
fn clean_text_trims_after_scrubbing() {
    assert_eq!(clean_text("  {\"a\":1}  "), "{\"a\":1}");
    assert_eq!(clean_text("\t \u{3000}hello \r\n"), "hello");
    assert_eq!(clean_text("   \r\n  "), "");
}

#[test]
fn clean_text_scrubs_before_trimming() {
    // The indented banner line is not dropped: the noise check runs before
    // any trimming, and the line does not start with "(node:".
    assert_eq!(clean_text("  (node:1) w"), "(node:1) w");
}

#[test]
fn stub_json_output_round_trip() {
    let out = process_output(b"{\"a\":1}\n".to_vec()).unwrap();
    assert_eq!(out, "{\"a\":1}");
    let exact = process_output(b"{\"a\":1}".to_vec()).unwrap();
    assert_eq!(exact, "{\"a\":1}");
}

#[test]
fn noisy_stdout_leaves_only_the_payload() {
    let bytes = b"(node:7) oops\n{\"a\":1}\n[win]x64.\n".to_vec();
    assert_eq!(process_output(bytes).unwrap(), "{\"a\":1}");
}

#[test]
fn invalid_utf8_is_a_decode_failure() {
    let r = process_output(vec![0xff, 0xfe, 0x41]);
    assert!(matches!(r, Err(Error::Utf8Error(_))));
    // A malformed tail poisons the whole decode: no partial string comes back.
    let r = process_output(vec![b'o', b'k', 0xc0]);
    assert!(matches!(r, Err(Error::Utf8Error(_))));
}
