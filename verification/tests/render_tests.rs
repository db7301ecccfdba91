use hid_report::decode::build_report;
use hid_report::render::render;

fn render_bytes(bytes: &[u8]) -> String {
    let (report, err) = build_report(bytes);
    assert_eq!(err, None);
    render(&report)
}

#[test]
fn collection_indentation_is_balanced() {
    let text = render_bytes(&[0xA1, 0x01, 0x09, 0x01, 0xC0]);
    let expected = "0xa1, 0x01, // Collection (Application)\n\
                    0x09, 0x01, //   Usage = 0x01\n\
                    0xc0,       // End Collection\n";
    assert_eq!(text, expected);

    // The enclosed item is indented strictly deeper than both the opening
    // and the closing line, which share one indentation.
    let lines: Vec<&str> = text.lines().collect();
    let indent = |line: &str| {
        let after = line.split("// ").nth(1).unwrap();
        after.len() - after.trim_start().len()
    };
    assert_eq!(indent(lines[0]), indent(lines[2]));
    assert!(indent(lines[1]) > indent(lines[0]));
}

#[test]
fn end_to_end_mouse_rendering() {
    let text = render_bytes(&[0x05, 0x01, 0x09, 0x02, 0xA1, 0x01, 0xC0]);
    let expected = "0x05, 0x01, // Usage Page = 0x01\n\
                    0x09, 0x02, // Usage = 0x02\n\
                    0xa1, 0x01, // Collection (Application)\n\
                    0xc0,       // End Collection\n";
    assert_eq!(text, expected);
}

#[test]
fn unbalanced_closes_clamp_display_only() {
    let text = render_bytes(&[0xC0, 0xA1, 0x01, 0xC0]);
    let expected = "0xc0,       // End Collection\n\
                    0xa1, 0x01, // Collection (Application)\n\
                    0xc0,       // End Collection\n";
    assert_eq!(text, expected);
}

#[test]
fn unknown_item_renders_raw_codes() {
    let text = render_bytes(&[0xD4]);
    assert_eq!(text, "0xd4, // Unknown (type 1, tag 0x0d)\n");
}

#[test]
fn long_item_renders_its_tag() {
    let text = render_bytes(&[0xFE, 0x02, 0x01, 0xAA, 0xBB]);
    assert_eq!(
        text,
        "0xfe, 0x02, 0x01, 0xaa, 0xbb, // Long Item (tag 0x01)\n"
    );
}

#[test]
fn signed_value_renders_negative() {
    let text = render_bytes(&[0x15, 0xFF]);
    assert_eq!(text, "0x15, 0xff, // Logical Minimum = -1\n");
}

#[test]
fn report_count_renders_decimal() {
    let text = render_bytes(&[0x95, 0x08]);
    assert_eq!(text, "0x95, 0x08, // Report Count = 8\n");
}

#[test]
fn usage_page_renders_hex() {
    let text = render_bytes(&[0x06, 0x34, 0x12]);
    assert_eq!(text, "0x06, 0x34, 0x12, // Usage Page = 0x1234\n");
}

#[test]
fn input_flags_render_hex() {
    let text = render_bytes(&[0x81, 0x02]);
    assert_eq!(text, "0x81, 0x02, // Input (0x02)\n");
}

#[test]
fn nested_collections_indent_stepwise() {
    let text = render_bytes(&[0xA1, 0x01, 0xA1, 0x02, 0x09, 0x01, 0xC0, 0xC0]);
    let expected = "0xa1, 0x01, // Collection (Application)\n\
                    0xa1, 0x02, //   Collection (Logical)\n\
                    0x09, 0x01, //     Usage = 0x01\n\
                    0xc0,       //   End Collection\n\
                    0xc0,       // End Collection\n";
    assert_eq!(text, expected);
}

#[test]
fn unit_and_exponent_rendering() {
    let text = render_bytes(&[0x65, 0x13, 0x55, 0xFD]);
    let expected = "0x65, 0x13, // Unit = 0x13\n\
                    0x55, 0xfd, // Unit Exponent = -3\n";
    assert_eq!(text, expected);
}

#[test]
fn vendor_collection_rendering() {
    let text = render_bytes(&[0xA1, 0x85]);
    assert_eq!(text, "0xa1, 0x85, // Collection (Vendor 0x85)\n");
}

#[test]
fn push_and_pop_rendering() {
    let text = render_bytes(&[0xA4, 0xB4]);
    assert_eq!(text, "0xa4, // Push\n0xb4, // Pop\n");
}

#[test]
fn truncated_report_still_renders_decoded_items() {
    let (report, err) = build_report(&[0x05, 0x01, 0x96, 0x01]);
    assert!(err.is_some());
    assert_eq!(render(&report), "0x05, 0x01, // Usage Page = 0x01\n");
}

#[test]
fn empty_report_renders_empty() {
    assert_eq!(render_bytes(&[]), "");
}
