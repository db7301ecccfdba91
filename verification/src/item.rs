//! Data model for USB HID report descriptor items.
//!
//! A report descriptor is a flat byte buffer made of items. A short item is
//! one prefix byte followed by 0, 1, 2 or 4 payload bytes; the prefix packs a
//! tag code (high four bits), a type code (bits 3-2: main, global, local,
//! reserved) and a size code (bits 1-0). The prefix byte 0xFE instead opens a
//! long item: one length byte, one long-tag byte, then that many data bytes.

use vstd::prelude::*;

verus! {

/// Prefix byte that introduces a long item.
pub const LONG_ITEM_PREFIX: u8 = 0xFE;

/// Structural category of one descriptor item, taken from its prefix byte.
///
/// `LongReserved` is the long-item layout opened by the prefix byte 0xFE.
/// `Reserved` covers a short item whose type code is the reserved value 3
/// with any other prefix byte; it is kept (not rejected) so that a malformed
/// or vendor descriptor still decodes and displays.
#[derive(Clone, Copy, Debug, PartialEq, Eq)]
pub enum ItemType {
    Main,
    Global,
    Local,
    Reserved,
    LongReserved,
}

/// Kind byte carried by a `Collection` main item.
///
/// Values 0x07 to 0x7F are reserved by the HID specification and carried as
/// `Reserved`; values 0x80 and above are vendor-defined and carried as
/// `Vendor`.
#[derive(Clone, Copy, Debug, PartialEq, Eq)]
pub enum CollectionKind {
    Physical,
    Application,
    Logical,
    Report,
    NamedArray,
    UsageSwitch,
    UsageModifier,
    Reserved(u8),
    Vendor(u8),
}

/// A recognized main item. Input, Output and Feature carry their raw flag
/// bitfield; Collection carries its decoded kind byte.
#[derive(Clone, Copy, Debug, PartialEq, Eq)]
pub enum MainTag {
    Input(u32),
    Output(u32),
    Feature(u32),
    Collection(CollectionKind),
    EndCollection,
}

/// A recognized global item with its decoded payload value. The logical and
/// physical bounds and the unit exponent are sign-extended from their payload
/// length; the rest decode unsigned.
#[derive(Clone, Copy, Debug, PartialEq, Eq)]
pub enum GlobalTag {
    UsagePage(u32),
    LogicalMinimum(i32),
    LogicalMaximum(i32),
    PhysicalMinimum(i32),
    PhysicalMaximum(i32),
    UnitExponent(i32),
    Unit(u32),
    ReportSize(u32),
    ReportId(u32),
    ReportCount(u32),
    Push,
    Pop,
}

/// A recognized local item with its decoded unsigned payload value.
#[derive(Clone, Copy, Debug, PartialEq, Eq)]
pub enum LocalTag {
    Usage(u32),
    UsageMinimum(u32),
    UsageMaximum(u32),
    DesignatorIndex(u32),
    DesignatorMinimum(u32),
    DesignatorMaximum(u32),
    StringIndex(u32),
    StringMinimum(u32),
    StringMaximum(u32),
    Delimiter(u32),
}

/// One decoded descriptor item: the exact bytes consumed for it, its
/// structural category, and at most one recognized tag. An unrecognized tag
/// code leaves all three tag fields `None`; the raw codes stay readable in
/// `bytes`.
#[derive(Clone, Debug, PartialEq, Eq)]
pub struct DescriptorItem {
    pub bytes: Vec<u8>,
    pub item_type: ItemType,
    pub main_tag: Option<MainTag>,
    pub global_tag: Option<GlobalTag>,
    pub local_tag: Option<LocalTag>,
}

/// A decoded report descriptor: the items in the order they appear in the
/// source bytes, and the total count of bytes they consumed.
#[derive(Clone, Debug, PartialEq, Eq)]
pub struct Report {
    pub items: Vec<DescriptorItem>,
    pub consumed: usize,
}

/// Decoding error: the buffer ended inside the item whose prefix byte stands
/// at the carried offset.
#[derive(Clone, Copy, Debug, PartialEq, Eq)]
pub enum DecodeError {
    TruncatedItem(usize),
}

/// An undecoded item: its prefix byte, its payload bytes (the data bytes
/// after the long-item header, or after the prefix for a short item), and the
/// exact bytes consumed.
#[derive(Clone, Debug, PartialEq, Eq)]
pub struct RawItem {
    pub prefix: u8,
    pub payload: Vec<u8>,
    pub bytes: Vec<u8>,
}

/// Tag code of a prefix byte: its high four bits.
pub open spec fn tag_code(prefix: u8) -> u8 {
    prefix / 16
}

/// Type code of a prefix byte: its bits 3-2.
pub open spec fn type_code(prefix: u8) -> u8 {
    (prefix / 4) % 4
}

/// Size code of a prefix byte: its bits 1-0.
pub open spec fn size_code(prefix: u8) -> u8 {
    prefix % 4
}

/// Payload length declared by a short item's prefix: 0, 1, 2 or 4 bytes.
pub open spec fn short_payload_len(prefix: u8) -> nat {
    if size_code(prefix) == 3 {
        4
    } else {
        size_code(prefix) as nat
    }
}

/// The bytes of one item are well formed: a long item is its three header
/// bytes plus as many data bytes as its length byte declares; a short item is
/// its prefix plus the payload length the prefix declares.
pub open spec fn item_wf(b: Seq<u8>) -> bool {
    if b.len() == 0 {
        false
    } else if b[0] == LONG_ITEM_PREFIX {
        b.len() >= 3 && b.len() == 3 + b[1]
    } else {
        b.len() == 1 + short_payload_len(b[0])
    }
}

/// Payload bytes of one item's byte sequence.
pub open spec fn item_payload(b: Seq<u8>) -> Seq<u8> {
    if b.len() == 0 {
        b
    } else if b[0] == LONG_ITEM_PREFIX {
        b.skip(3)
    } else {
        b.skip(1)
    }
}

/// Little-endian unsigned value of a payload; the empty payload has value 0.
pub open spec fn le_value(p: Seq<u8>) -> nat
    decreases p.len(),
{
    if p.len() == 0 {
        0
    } else {
        (p[0] as nat) + 256 * le_value(p.drop_first())
    }
}

/// Value of a payload sign-extended from its declared byte length.
pub open spec fn sign_extended(p: Seq<u8>) -> int {
    let n = le_value(p) as int;
    if p.len() == 1 && n >= 0x80 {
        n - 0x100
    } else if p.len() == 2 && n >= 0x8000 {
        n - 0x1_0000
    } else if p.len() == 4 && n >= 0x8000_0000 {
        n - 0x1_0000_0000
    } else {
        n
    }
}

/// 256 raised to a power; the exclusive upper bound of a little-endian value
/// of that many bytes.
pub open spec fn pow256(n: nat) -> nat
    decreases n,
{
    if n == 0 {
        1
    } else {
        256 * pow256((n - 1) as nat)
    }
}

/// A little-endian value is below 256 to the power of its byte count.
pub proof fn lemma_le_value_bound(p: Seq<u8>)
    ensures
        le_value(p) < pow256(p.len()),
    decreases p.len(),
{
    if p.len() > 0 {
        lemma_le_value_bound(p.drop_first());
    }
}

/// Bounds of a little-endian value at the payload lengths a short item can
/// declare.
pub proof fn lemma_le_value_fits(p: Seq<u8>)
    ensures
        p.len() == 0 ==> le_value(p) == 0,
        p.len() == 1 ==> le_value(p) < 0x100,
        p.len() == 2 ==> le_value(p) < 0x1_0000,
        p.len() == 4 ==> le_value(p) < 0x1_0000_0000,
{
    lemma_le_value_bound(p);
    assert(pow256(0) == 1);
    assert(pow256(1) == 256);
    assert(pow256(2) == 256 * pow256(1));
    assert(pow256(3) == 256 * pow256(2));
    assert(pow256(4) == 256 * pow256(3));
}

/// Collection kind denoted by the low payload byte of a Collection item.
pub open spec fn spec_collection_kind(b: u8) -> CollectionKind {
    if b == 0 {
        CollectionKind::Physical
    } else if b == 1 {
        CollectionKind::Application
    } else if b == 2 {
        CollectionKind::Logical
    } else if b == 3 {
        CollectionKind::Report
    } else if b == 4 {
        CollectionKind::NamedArray
    } else if b == 5 {
        CollectionKind::UsageSwitch
    } else if b == 6 {
        CollectionKind::UsageModifier
    } else if b < 0x80 {
        CollectionKind::Reserved(b)
    } else {
        CollectionKind::Vendor(b)
    }
}

/// Structural category denoted by an item's bytes.
pub open spec fn spec_item_type(b: Seq<u8>) -> ItemType {
    if b[0] == LONG_ITEM_PREFIX {
        ItemType::LongReserved
    } else if type_code(b[0]) == 0 {
        ItemType::Main
    } else if type_code(b[0]) == 1 {
        ItemType::Global
    } else if type_code(b[0]) == 2 {
        ItemType::Local
    } else {
        ItemType::Reserved
    }
}

/// Main tag denoted by an item's bytes, `None` for any unrecognized tag code
/// and for every non-main item.
pub open spec fn spec_main_tag(b: Seq<u8>) -> Option<MainTag> {
    if b[0] == LONG_ITEM_PREFIX || type_code(b[0]) != 0 {
        None
    } else {
        let tag = tag_code(b[0]);
        let v = le_value(item_payload(b));
        if tag == 0x8 {
            Some(MainTag::Input(v as u32))
        } else if tag == 0x9 {
            Some(MainTag::Output(v as u32))
        } else if tag == 0xB {
            Some(MainTag::Feature(v as u32))
        } else if tag == 0xA {
            Some(MainTag::Collection(spec_collection_kind((v % 256) as u8)))
        } else if tag == 0xC {
            Some(MainTag::EndCollection)
        } else {
            None
        }
    }
}

/// Global tag denoted by an item's bytes, `None` for any unrecognized tag
/// code and for every non-global item.
pub open spec fn spec_global_tag(b: Seq<u8>) -> Option<GlobalTag> {
    if b[0] == LONG_ITEM_PREFIX || type_code(b[0]) != 1 {
        None
    } else {
        let tag = tag_code(b[0]);
        let v = le_value(item_payload(b)) as u32;
        let s = sign_extended(item_payload(b)) as i32;
        if tag == 0x0 {
            Some(GlobalTag::UsagePage(v))
        } else if tag == 0x1 {
            Some(GlobalTag::LogicalMinimum(s))
        } else if tag == 0x2 {
            Some(GlobalTag::LogicalMaximum(s))
        } else if tag == 0x3 {
            Some(GlobalTag::PhysicalMinimum(s))
        } else if tag == 0x4 {
            Some(GlobalTag::PhysicalMaximum(s))
        } else if tag == 0x5 {
            Some(GlobalTag::UnitExponent(s))
        } else if tag == 0x6 {
            Some(GlobalTag::Unit(v))
        } else if tag == 0x7 {
            Some(GlobalTag::ReportSize(v))
        } else if tag == 0x8 {
            Some(GlobalTag::ReportId(v))
        } else if tag == 0x9 {
            Some(GlobalTag::ReportCount(v))
        } else if tag == 0xA {
            Some(GlobalTag::Push)
        } else if tag == 0xB {
            Some(GlobalTag::Pop)
        } else {
            None
        }
    }
}

/// Local tag denoted by an item's bytes, `None` for any unrecognized tag code
/// and for every non-local item.
pub open spec fn spec_local_tag(b: Seq<u8>) -> Option<LocalTag> {
    if b[0] == LONG_ITEM_PREFIX || type_code(b[0]) != 2 {
        None
    } else {
        let tag = tag_code(b[0]);
        let v = le_value(item_payload(b)) as u32;
        if tag == 0x0 {
            Some(LocalTag::Usage(v))
        } else if tag == 0x1 {
            Some(LocalTag::UsageMinimum(v))
        } else if tag == 0x2 {
            Some(LocalTag::UsageMaximum(v))
        } else if tag == 0x3 {
            Some(LocalTag::DesignatorIndex(v))
        } else if tag == 0x4 {
            Some(LocalTag::DesignatorMinimum(v))
        } else if tag == 0x5 {
            Some(LocalTag::DesignatorMaximum(v))
        } else if tag == 0x7 {
            Some(LocalTag::StringIndex(v))
        } else if tag == 0x8 {
            Some(LocalTag::StringMinimum(v))
        } else if tag == 0x9 {
            Some(LocalTag::StringMaximum(v))
        } else if tag == 0xA {
            Some(LocalTag::Delimiter(v))
        } else {
            None
        }
    }
}

/// A decoded item agrees with its own bytes: its category and its tag fields
/// are exactly what the bytes denote.
pub open spec fn item_matches(item: DescriptorItem) -> bool {
    &&& item_wf(item.bytes@)
    &&& item.item_type == spec_item_type(item.bytes@)
    &&& item.main_tag == spec_main_tag(item.bytes@)
    &&& item.global_tag == spec_global_tag(item.bytes@)
    &&& item.local_tag == spec_local_tag(item.bytes@)
}

/// A raw item agrees with its own bytes.
pub open spec fn raw_wf(raw: RawItem) -> bool {
    &&& item_wf(raw.bytes@)
    &&& raw.prefix == raw.bytes@[0]
    &&& raw.payload@ == item_payload(raw.bytes@)
}

/// The bytes of a sequence of decoded items, concatenated in order.
pub open spec fn items_bytes(items: Seq<DescriptorItem>) -> Seq<u8>
    decreases items.len(),
{
    if items.len() == 0 {
        Seq::empty()
    } else {
        items_bytes(items.drop_last()) + items.last().bytes@
    }
}

/// The bytes of a sequence of raw items, concatenated in order.
pub open spec fn raws_bytes(raws: Seq<RawItem>) -> Seq<u8>
    decreases raws.len(),
{
    if raws.len() == 0 {
        Seq::empty()
    } else {
        raws_bytes(raws.drop_last()) + raws.last().bytes@
    }
}

/// The concatenated bytes of a sequence of items are as long as the sum of
/// the items' byte lengths; with the coverage clause of the report builder
/// this says that a fully decoded report accounts for every input byte
/// exactly once.
pub proof fn lemma_items_bytes_len(items: Seq<DescriptorItem>)
    ensures
        items_bytes(items).len() == sum_item_lens(items),
    decreases items.len(),
{
    if items.len() > 0 {
        lemma_items_bytes_len(items.drop_last());
    }
}

/// Sum of the byte lengths of a sequence of decoded items.
pub open spec fn sum_item_lens(items: Seq<DescriptorItem>) -> nat
    decreases items.len(),
{
    if items.len() == 0 {
        0
    } else {
        sum_item_lens(items.drop_last()) + items.last().bytes@.len()
    }
}

/// The buffer ends inside the item whose prefix byte stands at `i`: a long
/// item is missing its length byte or some of its declared bytes, or a short
/// item's declared payload runs past the end.
pub open spec fn truncated_at(buf: Seq<u8>, i: int) -> bool {
    &&& 0 <= i < buf.len()
    &&& if buf[i] == LONG_ITEM_PREFIX {
        i + 2 > buf.len() || i + 3 + buf[i + 1] > buf.len()
    } else {
        i + 1 + short_payload_len(buf[i]) > buf.len()
    }
}

/// Unknown-tag tolerance: a well-formed short item of global type whose tag
/// code is outside the fixed global table decodes to the global category with
/// no recognized tag, rather than to an error.
pub proof fn lemma_unknown_global_tag(b: Seq<u8>)
    requires
        item_wf(b),
        b[0] != LONG_ITEM_PREFIX,
        type_code(b[0]) == 1,
        tag_code(b[0]) > 0xB,
    ensures
        spec_item_type(b) == ItemType::Global,
        spec_global_tag(b) is None,
        spec_main_tag(b) is None,
        spec_local_tag(b) is None,
{
}

} // verus!
