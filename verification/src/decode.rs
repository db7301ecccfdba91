//! Decoding: from a raw byte buffer to a sequence of typed items.
//!
//! The tag decoder splits the buffer into raw items, each carrying the exact
//! bytes it consumed. The semantic interpreter maps one raw item to a typed
//! item with its decoded numeric value. The report builder composes the two
//! and reports truncation as a value beside the items decoded so far.

use vstd::prelude::*;

use crate::item::item_matches;
use crate::item::item_payload;
use crate::item::items_bytes;
use crate::item::le_value;
use crate::item::lemma_le_value_fits;
use crate::item::raw_wf;
use crate::item::raws_bytes;
use crate::item::short_payload_len;
use crate::item::sign_extended;
use crate::item::spec_collection_kind;
use crate::item::truncated_at;
use crate::item::CollectionKind;
use crate::item::DecodeError;
use crate::item::DescriptorItem;
use crate::item::GlobalTag;
use crate::item::ItemType;
use crate::item::LocalTag;
use crate::item::MainTag;
use crate::item::RawItem;
use crate::item::Report;
use crate::item::LONG_ITEM_PREFIX;

verus! {

/// Copy `count` bytes of a buffer starting at `start` into a fresh vector.
fn copy_range(buffer: &[u8], start: usize, count: usize) -> (out: Vec<u8>)
    requires
        start + count <= buffer@.len(),
    ensures
        out@ == buffer@.subrange(start as int, start + count),
{
    let blen: usize = buffer.len();
    let mut out: Vec<u8> = Vec::new();
    let mut j: usize = 0;
    while j < count
        invariant
            j <= count,
            blen == buffer@.len(),
            start + count <= buffer@.len(),
            out@ == buffer@.subrange(start as int, start + j),
        decreases count - j,
    {
        out.push(buffer[start + j]);
        assert(out@ =~= buffer@.subrange(start as int, start + j + 1));
        j = j + 1;
    }
    out
}

/// Little-endian unsigned value of a payload of declared short-item length.
fn payload_value(p: &Vec<u8>) -> (v: u32)
    requires
        p@.len() == 0 || p@.len() == 1 || p@.len() == 2 || p@.len() == 4,
    ensures
        v == le_value(p@),
{
    proof {
        reveal_with_fuel(le_value, 5);
    }
    if p.len() == 0 {
        0
    } else if p.len() == 1 {
        p[0] as u32
    } else if p.len() == 2 {
        (p[0] as u32) + 256 * (p[1] as u32)
    } else {
        (p[0] as u32) + 256 * (p[1] as u32) + 65536 * (p[2] as u32) + 16777216 * (p[3] as u32)
    }
}

/// Value of a payload sign-extended from its declared short-item length.
fn signed_value(p: &Vec<u8>) -> (v: i32)
    requires
        p@.len() == 0 || p@.len() == 1 || p@.len() == 2 || p@.len() == 4,
    ensures
        v as int == sign_extended(p@),
{
    proof {
        lemma_le_value_fits(p@);
    }
    let n = payload_value(p);
    if p.len() == 1 && n >= 0x80 {
        (n as i32) - 0x100
    } else if p.len() == 2 && n >= 0x8000 {
        (n as i32) - 0x1_0000
    } else if p.len() == 4 && n >= 0x8000_0000 {
        -((u32::MAX - n) as i32) - 1
    } else {
        n as i32
    }
}

/// Collection kind denoted by the low byte of a Collection item's value.
fn collection_kind_of(v: u32) -> (kind: CollectionKind)
    ensures
        kind == spec_collection_kind((v % 256) as u8),
{
    let b = (v % 256) as u8;
    if b == 0 {
        CollectionKind::Physical
    } else if b == 1 {
        CollectionKind::Application
    } else if b == 2 {
        CollectionKind::Logical
    } else if b == 3 {
        CollectionKind::Report
    } else if b == 4 {
        CollectionKind::NamedArray
    } else if b == 5 {
        CollectionKind::UsageSwitch
    } else if b == 6 {
        CollectionKind::UsageModifier
    } else if b < 0x80 {
        CollectionKind::Reserved(b)
    } else {
        CollectionKind::Vendor(b)
    }
}

/// Recognized main tag for a short item's tag code and decoded value.
fn main_tag_of(tag: u8, v: u32) -> (t: Option<MainTag>)
    ensures
        t == (if tag == 0x8 {
            Some(MainTag::Input(v))
        } else if tag == 0x9 {
            Some(MainTag::Output(v))
        } else if tag == 0xB {
            Some(MainTag::Feature(v))
        } else if tag == 0xA {
            Some(MainTag::Collection(spec_collection_kind((v % 256) as u8)))
        } else if tag == 0xC {
            Some(MainTag::EndCollection)
        } else {
            None::<MainTag>
        }),
{
    if tag == 0x8 {
        Some(MainTag::Input(v))
    } else if tag == 0x9 {
        Some(MainTag::Output(v))
    } else if tag == 0xB {
        Some(MainTag::Feature(v))
    } else if tag == 0xA {
        Some(MainTag::Collection(collection_kind_of(v)))
    } else if tag == 0xC {
        Some(MainTag::EndCollection)
    } else {
        None
    }
}

/// Recognized global tag for a short item's tag code and its unsigned and
/// sign-extended values.
fn global_tag_of(tag: u8, v: u32, s: i32) -> (t: Option<GlobalTag>)
    ensures
        t == (if tag == 0x0 {
            Some(GlobalTag::UsagePage(v))
        } else if tag == 0x1 {
            Some(GlobalTag::LogicalMinimum(s))
        } else if tag == 0x2 {
            Some(GlobalTag::LogicalMaximum(s))
        } else if tag == 0x3 {
            Some(GlobalTag::PhysicalMinimum(s))
        } else if tag == 0x4 {
            Some(GlobalTag::PhysicalMaximum(s))
        } else if tag == 0x5 {
            Some(GlobalTag::UnitExponent(s))
        } else if tag == 0x6 {
            Some(GlobalTag::Unit(v))
        } else if tag == 0x7 {
            Some(GlobalTag::ReportSize(v))
        } else if tag == 0x8 {
            Some(GlobalTag::ReportId(v))
        } else if tag == 0x9 {
            Some(GlobalTag::ReportCount(v))
        } else if tag == 0xA {
            Some(GlobalTag::Push)
        } else if tag == 0xB {
            Some(GlobalTag::Pop)
        } else {
            None::<GlobalTag>
        }),
{
    if tag == 0x0 {
        Some(GlobalTag::UsagePage(v))
    } else if tag == 0x1 {
        Some(GlobalTag::LogicalMinimum(s))
    } else if tag == 0x2 {
        Some(GlobalTag::LogicalMaximum(s))
    } else if tag == 0x3 {
        Some(GlobalTag::PhysicalMinimum(s))
    } else if tag == 0x4 {
        Some(GlobalTag::PhysicalMaximum(s))
    } else if tag == 0x5 {
        Some(GlobalTag::UnitExponent(s))
    } else if tag == 0x6 {
        Some(GlobalTag::Unit(v))
    } else if tag == 0x7 {
        Some(GlobalTag::ReportSize(v))
    } else if tag == 0x8 {
        Some(GlobalTag::ReportId(v))
    } else if tag == 0x9 {
        Some(GlobalTag::ReportCount(v))
    } else if tag == 0xA {
        Some(GlobalTag::Push)
    } else if tag == 0xB {
        Some(GlobalTag::Pop)
    } else {
        None
    }
}

/// Recognized local tag for a short item's tag code and decoded value.
fn local_tag_of(tag: u8, v: u32) -> (t: Option<LocalTag>)
    ensures
        t == (if tag == 0x0 {
            Some(LocalTag::Usage(v))
        } else if tag == 0x1 {
            Some(LocalTag::UsageMinimum(v))
        } else if tag == 0x2 {
            Some(LocalTag::UsageMaximum(v))
        } else if tag == 0x3 {
            Some(LocalTag::DesignatorIndex(v))
        } else if tag == 0x4 {
            Some(LocalTag::DesignatorMinimum(v))
        } else if tag == 0x5 {
            Some(LocalTag::DesignatorMaximum(v))
        } else if tag == 0x7 {
            Some(LocalTag::StringIndex(v))
        } else if tag == 0x8 {
            Some(LocalTag::StringMinimum(v))
        } else if tag == 0x9 {
            Some(LocalTag::StringMaximum(v))
        } else if tag == 0xA {
            Some(LocalTag::Delimiter(v))
        } else {
            None::<LocalTag>
        }),
{
    if tag == 0x0 {
        Some(LocalTag::Usage(v))
    } else if tag == 0x1 {
        Some(LocalTag::UsageMinimum(v))
    } else if tag == 0x2 {
        Some(LocalTag::UsageMaximum(v))
    } else if tag == 0x3 {
        Some(LocalTag::DesignatorIndex(v))
    } else if tag == 0x4 {
        Some(LocalTag::DesignatorMinimum(v))
    } else if tag == 0x5 {
        Some(LocalTag::DesignatorMaximum(v))
    } else if tag == 0x7 {
        Some(LocalTag::StringIndex(v))
    } else if tag == 0x8 {
        Some(LocalTag::StringMinimum(v))
    } else if tag == 0x9 {
        Some(LocalTag::StringMaximum(v))
    } else if tag == 0xA {
        Some(LocalTag::Delimiter(v))
    } else {
        None
    }
}

/// Copy a byte vector.
fn clone_bytes(bytes: &Vec<u8>) -> (out: Vec<u8>)
    ensures
        out@ == bytes@,
{
    let mut out: Vec<u8> = Vec::new();
    let mut j: usize = 0;
    while j < bytes.len()
        invariant
            j <= bytes@.len(),
            out@ == bytes@.take(j as int),
        decreases bytes@.len() - j,
    {
        out.push(bytes[j]);
        assert(out@ =~= bytes@.take(j + 1));
        j = j + 1;
    }
    assert(out@ =~= bytes@);
    out
}

/// Map one raw item to a typed item: the prefix selects the tag table, the
/// tag code selects the variant, and the payload decodes little-endian,
/// sign-extended exactly for the signed-capable global tags. Unknown tag
/// codes yield an item with no recognized tag; nothing is rejected.
pub fn interpret(raw: &RawItem) -> (item: DescriptorItem)
    requires
        raw_wf(*raw),
    ensures
        item_matches(item),
        item.bytes@ == raw.bytes@,
{
    let bytes = clone_bytes(&raw.bytes);
    if raw.prefix == LONG_ITEM_PREFIX {
        DescriptorItem {
            bytes,
            item_type: ItemType::LongReserved,
            main_tag: None,
            global_tag: None,
            local_tag: None,
        }
    } else {
        let tag: u8 = raw.prefix / 16;
        let ty: u8 = (raw.prefix / 4) % 4;
        assert(raw.payload@.len() == short_payload_len(raw.bytes@[0]));
        let v = payload_value(&raw.payload);
        if ty == 0 {
            DescriptorItem {
                bytes,
                item_type: ItemType::Main,
                main_tag: main_tag_of(tag, v),
                global_tag: None,
                local_tag: None,
            }
        } else if ty == 1 {
            proof {
                lemma_le_value_fits(raw.payload@);
            }
            let s = signed_value(&raw.payload);
            DescriptorItem {
                bytes,
                item_type: ItemType::Global,
                main_tag: None,
                global_tag: global_tag_of(tag, v, s),
                local_tag: None,
            }
        } else if ty == 2 {
            DescriptorItem {
                bytes,
                item_type: ItemType::Local,
                main_tag: None,
                global_tag: None,
                local_tag: local_tag_of(tag, v),
            }
        } else {
            DescriptorItem {
                bytes,
                item_type: ItemType::Reserved,
                main_tag: None,
                global_tag: None,
                local_tag: None,
            }
        }
    }
}

/// Split a buffer into raw items, strictly in order, consuming every byte.
/// A prefix whose declared payload runs past the end of the buffer stops the
/// decode; the items split before it are returned beside the error, which
/// carries the offset of that prefix byte.
pub fn decode_raw_items(buffer: &[u8]) -> (res: (Vec<RawItem>, Option<DecodeError>))
    ensures
        forall|i: int| 0 <= i < res.0@.len() ==> raw_wf(#[trigger] res.0@[i]),
        match res.1 {
            None => raws_bytes(res.0@) == buffer@,
            Some(DecodeError::TruncatedItem(off)) => {
                &&& truncated_at(buffer@, off as int)
                &&& raws_bytes(res.0@) == buffer@.take(off as int)
            },
        },
{
    let mut raws: Vec<RawItem> = Vec::new();
    let mut pos: usize = 0;
    while pos < buffer.len()
        invariant
            pos <= buffer@.len(),
            forall|i: int| 0 <= i < raws@.len() ==> raw_wf(#[trigger] raws@[i]),
            raws_bytes(raws@) == buffer@.take(pos as int),
        decreases buffer@.len() - pos,
    {
        let prefix = buffer[pos];
        let total: usize;
        let header: usize;
        if prefix == LONG_ITEM_PREFIX {
            if buffer.len() - pos < 2 {
                return (raws, Some(DecodeError::TruncatedItem(pos)));
            }
            let data_len = buffer[pos + 1] as usize;
            if buffer.len() - pos < 3 + data_len {
                return (raws, Some(DecodeError::TruncatedItem(pos)));
            }
            total = 3 + data_len;
            header = 3;
        } else {
            let sc = prefix % 4;
            let plen: usize = if sc == 3 {
                4
            } else {
                sc as usize
            };
            if buffer.len() - pos < 1 + plen {
                return (raws, Some(DecodeError::TruncatedItem(pos)));
            }
            total = 1 + plen;
            header = 1;
        }
        let bytes = copy_range(buffer, pos, total);
        let payload = copy_range(buffer, pos + header, total - header);
        let raw = RawItem { prefix, payload, bytes };
        assert(raw_wf(raw)) by {
            assert(raw.bytes@[0] == buffer@[pos as int]);
            if prefix == LONG_ITEM_PREFIX {
                assert(raw.bytes@[1] == buffer@[pos + 1]);
                assert(item_payload(raw.bytes@) =~= raw.payload@);
            } else {
                assert(item_payload(raw.bytes@) =~= raw.payload@);
            }
        }
        let ghost old_raws = raws@;
        raws.push(raw);
        proof {
            assert(raws@.drop_last() =~= old_raws);
            assert(raws_bytes(raws@) =~= buffer@.take(pos + total as int));
        }
        pos = pos + total;
    }
    proof {
        assert(buffer@.take(pos as int) =~= buffer@);
    }
    (raws, None)
}

/// The concatenated bytes of any prefix of a raw item sequence are no longer
/// than the concatenated bytes of the whole sequence.
proof fn lemma_raws_bytes_take_len(raws: Seq<RawItem>, i: int)
    requires
        0 <= i <= raws.len(),
    ensures
        raws_bytes(raws.take(i)).len() <= raws_bytes(raws).len(),
    decreases raws.len() - i,
{
    if i == raws.len() {
        assert(raws.take(i) =~= raws);
    } else {
        assert(raws.take(i + 1).drop_last() =~= raws.take(i));
        assert(raws.take(i + 1).last() == raws[i]);
        lemma_raws_bytes_take_len(raws, i + 1);
    }
}

/// Decode a whole buffer into a report: the typed items in source order and
/// the count of bytes they consumed. The bytes of the items, concatenated in
/// order, reproduce the input exactly: all of it when no error is returned,
/// and everything before the truncated item's prefix otherwise.
pub fn build_report(buffer: &[u8]) -> (res: (Report, Option<DecodeError>))
    ensures
        forall|i: int|
            0 <= i < res.0.items@.len() ==> item_matches(#[trigger] res.0.items@[i]),
        match res.1 {
            None => items_bytes(res.0.items@) == buffer@,
            Some(DecodeError::TruncatedItem(off)) => {
                &&& truncated_at(buffer@, off as int)
                &&& items_bytes(res.0.items@) == buffer@.take(off as int)
            },
        },
        res.0.consumed == items_bytes(res.0.items@).len(),
{
    let (raws, err) = decode_raw_items(buffer);
    let blen: usize = buffer.len();
    let mut items: Vec<DescriptorItem> = Vec::new();
    let mut consumed: usize = 0;
    let mut i: usize = 0;
    proof {
        assert(raws@.take(0int) =~= Seq::<RawItem>::empty());
    }
    while i < raws.len()
        invariant
            i <= raws@.len(),
            forall|k: int| 0 <= k < raws@.len() ==> raw_wf(#[trigger] raws@[k]),
            forall|k: int| 0 <= k < items@.len() ==> item_matches(#[trigger] items@[k]),
            items_bytes(items@) == raws_bytes(raws@.take(i as int)),
            consumed == items_bytes(items@).len(),
            blen == buffer@.len(),
            raws_bytes(raws@).len() <= buffer@.len(),
        decreases raws@.len() - i,
    {
        let item = interpret(&raws[i]);
        let ghost old_items = items@;
        proof {
            lemma_raws_bytes_take_len(raws@, i + 1);
            assert(raws@.take(i + 1).drop_last() =~= raws@.take(i as int));
            assert(raws@.take(i + 1).last() == raws@[i as int]);
        }
        let n = item.bytes.len();
        items.push(item);
        proof {
            assert(items@.drop_last() =~= old_items);
            assert(items_bytes(items@) == raws_bytes(raws@.take(i + 1)));
        }
        consumed = consumed + n;
        i = i + 1;
    }
    proof {
        assert(raws@.take(raws@.len() as int) =~= raws@);
    }
    (Report { items, consumed }, err)
}

} // verus!
