use hid_report::decode::build_report;
use hid_report::item::CollectionKind;
use hid_report::item::DecodeError;
use hid_report::item::GlobalTag;
use hid_report::item::ItemType;
use hid_report::item::LocalTag;
use hid_report::item::MainTag;

#[test]
fn end_to_end_mouse_descriptor() {
    let bytes: Vec<u8> = vec![0x05, 0x01, 0x09, 0x02, 0xA1, 0x01, 0xC0];
    let (report, err) = build_report(&bytes);
    assert_eq!(err, None);
    assert_eq!(report.items.len(), 4);
    assert_eq!(report.consumed, 7);
    assert_eq!(report.items[0].item_type, ItemType::Global);
    assert_eq!(report.items[0].global_tag, Some(GlobalTag::UsagePage(1)));
    assert_eq!(report.items[1].item_type, ItemType::Local);
    assert_eq!(report.items[1].local_tag, Some(LocalTag::Usage(2)));
    assert_eq!(report.items[2].item_type, ItemType::Main);
    assert_eq!(
        report.items[2].main_tag,
        Some(MainTag::Collection(CollectionKind::Application))
    );
    assert_eq!(report.items[3].main_tag, Some(MainTag::EndCollection));
}

#[test]
fn full_decode_reproduces_input() {
    let bytes: Vec<u8> = vec![0x05, 0x01, 0x09, 0x02, 0xA1, 0x01, 0x15, 0x00, 0xC0];
    let (report, err) = build_report(&bytes);
    assert_eq!(err, None);
    let mut joined: Vec<u8> = Vec::new();
    let mut total: usize = 0;
    for item in &report.items {
        total += item.bytes.len();
        joined.extend_from_slice(&item.bytes);
    }
    assert_eq!(total, bytes.len());
    assert_eq!(joined, bytes);
    assert_eq!(report.consumed, bytes.len());
}

#[test]
fn sign_extension_logical_minimum() {
    let (report, err) = build_report(&[0x15, 0xFF]);
    assert_eq!(err, None);
    assert_eq!(report.items.len(), 1);
    assert_eq!(
        report.items[0].global_tag,
        Some(GlobalTag::LogicalMinimum(-1))
    );
}

#[test]
fn no_sign_extension_report_count() {
    let (report, err) = build_report(&[0x95, 0xFF]);
    assert_eq!(err, None);
    assert_eq!(report.items.len(), 1);
    assert_eq!(
        report.items[0].global_tag,
        Some(GlobalTag::ReportCount(255))
    );
}

#[test]
fn sign_extension_two_and_four_bytes() {
    let (report, err) = build_report(&[0x16, 0x00, 0x80]);
    assert_eq!(err, None);
    assert_eq!(
        report.items[0].global_tag,
        Some(GlobalTag::LogicalMinimum(-32768))
    );

    let (report, err) = build_report(&[0x27, 0xFF, 0xFF, 0xFF, 0xFF]);
    assert_eq!(err, None);
    assert_eq!(
        report.items[0].global_tag,
        Some(GlobalTag::LogicalMaximum(-1))
    );

    let (report, err) = build_report(&[0x97, 0xFF, 0xFF, 0xFF, 0xFF]);
    assert_eq!(err, None);
    assert_eq!(
        report.items[0].global_tag,
        Some(GlobalTag::ReportCount(4294967295))
    );
}

#[test]
fn little_endian_two_byte_value() {
    let (report, err) = build_report(&[0x06, 0x34, 0x12]);
    assert_eq!(err, None);
    assert_eq!(
        report.items[0].global_tag,
        Some(GlobalTag::UsagePage(0x1234))
    );
}

#[test]
fn partial_decode_keeps_prior_items() {
    // The third item's prefix declares a two-byte payload, but only one
    // byte remains after it.
    let bytes: Vec<u8> = vec![0x05, 0x01, 0x96, 0x01];
    let (report, err) = build_report(&bytes);
    assert_eq!(err, Some(DecodeError::TruncatedItem(2)));
    assert_eq!(report.items.len(), 1);
    assert_eq!(report.items[0].global_tag, Some(GlobalTag::UsagePage(1)));
    assert_eq!(report.items[0].bytes, vec![0x05, 0x01]);
    assert_eq!(report.consumed, 2);
}

#[test]
fn truncated_at_offset_zero() {
    let (report, err) = build_report(&[0x96]);
    assert_eq!(err, Some(DecodeError::TruncatedItem(0)));
    assert_eq!(report.items.len(), 0);
    assert_eq!(report.consumed, 0);
}

#[test]
fn truncated_long_item_header() {
    let (report, err) = build_report(&[0xFE]);
    assert_eq!(err, Some(DecodeError::TruncatedItem(0)));
    assert_eq!(report.items.len(), 0);

    let (report, err) = build_report(&[0xFE, 0x02, 0x01, 0xAA]);
    assert_eq!(err, Some(DecodeError::TruncatedItem(0)));
    assert_eq!(report.items.len(), 0);
}

#[test]
fn unknown_global_tag_is_tolerated() {
    // Prefix 0xD4: tag code 0xD, type code 1 (global), empty payload.
    let (report, err) = build_report(&[0xD4]);
    assert_eq!(err, None);
    assert_eq!(report.items.len(), 1);
    assert_eq!(report.items[0].item_type, ItemType::Global);
    assert_eq!(report.items[0].global_tag, None);
    assert_eq!(report.items[0].main_tag, None);
    assert_eq!(report.items[0].local_tag, None);
    assert_eq!(report.items[0].bytes, vec![0xD4]);
}

#[test]
fn long_item_is_one_item() {
    let bytes: Vec<u8> = vec![0xFE, 0x02, 0x01, 0xAA, 0xBB];
    let (report, err) = build_report(&bytes);
    assert_eq!(err, None);
    assert_eq!(report.items.len(), 1);
    assert_eq!(report.items[0].item_type, ItemType::LongReserved);
    assert_eq!(report.items[0].bytes, bytes);
    assert_eq!(report.items[0].main_tag, None);
    assert_eq!(report.items[0].global_tag, None);
    assert_eq!(report.items[0].local_tag, None);
    assert_eq!(report.consumed, 5);
}

#[test]
fn empty_buffer_is_empty_report() {
    let (report, err) = build_report(&[]);
    assert_eq!(err, None);
    assert_eq!(report.items.len(), 0);
    assert_eq!(report.consumed, 0);
}

#[test]
fn collection_kind_ranges() {
    let (report, _) = build_report(&[0xA1, 0x00]);
    assert_eq!(
        report.items[0].main_tag,
        Some(MainTag::Collection(CollectionKind::Physical))
    );
    let (report, _) = build_report(&[0xA1, 0x03]);
    assert_eq!(
        report.items[0].main_tag,
        Some(MainTag::Collection(CollectionKind::Report))
    );
    let (report, _) = build_report(&[0xA1, 0x07]);
    assert_eq!(
        report.items[0].main_tag,
        Some(MainTag::Collection(CollectionKind::Reserved(0x07)))
    );
    let (report, _) = build_report(&[0xA1, 0x80]);
    assert_eq!(
        report.items[0].main_tag,
        Some(MainTag::Collection(CollectionKind::Vendor(0x80)))
    );
    // An empty payload decodes as value zero.
    let (report, _) = build_report(&[0xA0]);
    assert_eq!(
        report.items[0].main_tag,
        Some(MainTag::Collection(CollectionKind::Physical))
    );
}

#[test]
fn main_item_flags() {
    let (report, err) = build_report(&[0x81, 0x02, 0x91, 0x03, 0xB1, 0x01]);
    assert_eq!(err, None);
    assert_eq!(report.items[0].main_tag, Some(MainTag::Input(2)));
    assert_eq!(report.items[1].main_tag, Some(MainTag::Output(3)));
    assert_eq!(report.items[2].main_tag, Some(MainTag::Feature(1)));
}

#[test]
fn global_push_pop() {
    let (report, err) = build_report(&[0xA4, 0xB4]);
    assert_eq!(err, None);
    assert_eq!(report.items[0].global_tag, Some(GlobalTag::Push));
    assert_eq!(report.items[1].global_tag, Some(GlobalTag::Pop));
}

#[test]
fn local_tags_decode() {
    let (report, err) = build_report(&[0x19, 0x01, 0x29, 0x05, 0xA9, 0x01, 0x79, 0x02]);
    assert_eq!(err, None);
    assert_eq!(report.items[0].local_tag, Some(LocalTag::UsageMinimum(1)));
    assert_eq!(report.items[1].local_tag, Some(LocalTag::UsageMaximum(5)));
    assert_eq!(report.items[2].local_tag, Some(LocalTag::Delimiter(1)));
    assert_eq!(report.items[3].local_tag, Some(LocalTag::StringIndex(2)));
}

#[test]
fn remaining_global_tags_decode() {
    let (report, err) = build_report(&[
        0x35, 0x00, 0x45, 0xFF, 0x55, 0xFD, 0x75, 0x08, 0x85, 0x01,
    ]);
    assert_eq!(err, None);
    assert_eq!(
        report.items[0].global_tag,
        Some(GlobalTag::PhysicalMinimum(0))
    );
    assert_eq!(
        report.items[1].global_tag,
        Some(GlobalTag::PhysicalMaximum(-1))
    );
    assert_eq!(report.items[2].global_tag, Some(GlobalTag::UnitExponent(-3)));
    assert_eq!(report.items[3].global_tag, Some(GlobalTag::ReportSize(8)));
    assert_eq!(report.items[4].global_tag, Some(GlobalTag::ReportId(1)));
}

#[test]
fn designator_and_string_locals_decode() {
    let (report, err) = build_report(&[0x39, 0x01, 0x49, 0x02, 0x59, 0x03, 0x89, 0x04, 0x99, 0x05]);
    assert_eq!(err, None);
    assert_eq!(
        report.items[0].local_tag,
        Some(LocalTag::DesignatorIndex(1))
    );
    assert_eq!(
        report.items[1].local_tag,
        Some(LocalTag::DesignatorMinimum(2))
    );
    assert_eq!(
        report.items[2].local_tag,
        Some(LocalTag::DesignatorMaximum(3))
    );
    assert_eq!(report.items[3].local_tag, Some(LocalTag::StringMinimum(4)));
    assert_eq!(report.items[4].local_tag, Some(LocalTag::StringMaximum(5)));
}

#[test]
fn unknown_main_and_local_tags_are_tolerated() {
    // Prefix 0x01: tag code 0, type code 0 (main), one payload byte; tag 0
    // is not in the main table.
    let (report, err) = build_report(&[0x01, 0xAA]);
    assert_eq!(err, None);
    assert_eq!(report.items[0].item_type, ItemType::Main);
    assert_eq!(report.items[0].main_tag, None);

    // Prefix 0x69: tag code 6, type code 2 (local); tag 6 is reserved.
    let (report, err) = build_report(&[0x69, 0x01]);
    assert_eq!(err, None);
    assert_eq!(report.items[0].item_type, ItemType::Local);
    assert_eq!(report.items[0].local_tag, None);
}

#[test]
fn short_reserved_type_is_kept() {
    // Prefix 0x0C: type code 3 (reserved) without the long-item prefix.
    let (report, err) = build_report(&[0x0C]);
    assert_eq!(err, None);
    assert_eq!(report.items.len(), 1);
    assert_eq!(report.items[0].item_type, ItemType::Reserved);
    assert_eq!(report.items[0].main_tag, None);
    assert_eq!(report.items[0].global_tag, None);
    assert_eq!(report.items[0].local_tag, None);
}

#[test]
fn error_description() {
    let err = DecodeError::TruncatedItem(2);
    assert_eq!(err.describe(), "truncated item at offset 2");
}
