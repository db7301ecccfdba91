//! Rendering: a decoded report as one line per item, the raw bytes in a hex
//! column aligned to the longest item, then an annotation indented two
//! columns per open collection.
//!
//! The nesting depth starts at zero; an End Collection item decrements it
//! before its own line is emitted, so the closing line aligns with its
//! opening line, and a Collection item increments it after its own line. The
//! counter itself may go negative when a descriptor closes more collections
//! than it opened — that keeps later lines in step once balance returns —
//! and only the displayed indentation is clamped at zero.

use vstd::prelude::*;
use vstd::string::StringExecFns;

use crate::item::tag_code;
use crate::item::type_code;
use crate::item::CollectionKind;
use crate::item::DecodeError;
use crate::item::DescriptorItem;
use crate::item::GlobalTag;
use crate::item::LocalTag;
use crate::item::MainTag;
use crate::item::Report;
use crate::text::push_align;
use crate::text::push_char;
use crate::text::push_dec;
use crate::text::push_dec_signed;
use crate::text::push_hex_byte;
use crate::text::push_hex_value;
use crate::text::push_indent;
use crate::text::spaces;
use crate::text::spec_dec;
use crate::text::spec_dec_int;
use crate::text::spec_hex_byte;
use crate::text::spec_hex_value;

verus! {

/// True of an item that opens a collection.
pub open spec fn opens_collection(item: DescriptorItem) -> bool {
    match item.main_tag {
        Some(MainTag::Collection(_)) => true,
        _ => false,
    }
}

/// True of an item that closes a collection.
pub open spec fn closes_collection(item: DescriptorItem) -> bool {
    match item.main_tag {
        Some(MainTag::EndCollection) => true,
        _ => false,
    }
}

/// Byte count of the longest item, zero for an empty report.
pub open spec fn max_item_len(items: Seq<DescriptorItem>) -> nat
    decreases items.len(),
{
    if items.len() == 0 {
        0
    } else {
        let rest = max_item_len(items.drop_last());
        if items.last().bytes@.len() > rest {
            items.last().bytes@.len()
        } else {
            rest
        }
    }
}

/// Name of a collection kind as the annotation shows it.
pub open spec fn spec_collection_name(kind: CollectionKind) -> Seq<char> {
    match kind {
        CollectionKind::Physical => "Physical"@,
        CollectionKind::Application => "Application"@,
        CollectionKind::Logical => "Logical"@,
        CollectionKind::Report => "Report"@,
        CollectionKind::NamedArray => "Named Array"@,
        CollectionKind::UsageSwitch => "Usage Switch"@,
        CollectionKind::UsageModifier => "Usage Modifier"@,
        CollectionKind::Reserved(b) => "Reserved "@ + spec_hex_value(b as nat),
        CollectionKind::Vendor(b) => "Vendor "@ + spec_hex_value(b as nat),
    }
}

/// Annotation text of a recognized main item.
pub open spec fn spec_main_text(tag: MainTag) -> Seq<char> {
    match tag {
        MainTag::Input(f) => "Input ("@ + spec_hex_value(f as nat) + ")"@,
        MainTag::Output(f) => "Output ("@ + spec_hex_value(f as nat) + ")"@,
        MainTag::Feature(f) => "Feature ("@ + spec_hex_value(f as nat) + ")"@,
        MainTag::Collection(kind) => "Collection ("@ + spec_collection_name(kind) + ")"@,
        MainTag::EndCollection => "End Collection"@,
    }
}

/// Annotation text of a recognized global item. Identifiers render in hex;
/// counts and sizes render in decimal; the sign-capable values render signed.
pub open spec fn spec_global_text(tag: GlobalTag) -> Seq<char> {
    match tag {
        GlobalTag::UsagePage(v) => "Usage Page = "@ + spec_hex_value(v as nat),
        GlobalTag::LogicalMinimum(v) => "Logical Minimum = "@ + spec_dec_int(v as int),
        GlobalTag::LogicalMaximum(v) => "Logical Maximum = "@ + spec_dec_int(v as int),
        GlobalTag::PhysicalMinimum(v) => "Physical Minimum = "@ + spec_dec_int(v as int),
        GlobalTag::PhysicalMaximum(v) => "Physical Maximum = "@ + spec_dec_int(v as int),
        GlobalTag::UnitExponent(v) => "Unit Exponent = "@ + spec_dec_int(v as int),
        GlobalTag::Unit(v) => "Unit = "@ + spec_hex_value(v as nat),
        GlobalTag::ReportSize(v) => "Report Size = "@ + spec_dec(v as nat),
        GlobalTag::ReportId(v) => "Report ID = "@ + spec_dec(v as nat),
        GlobalTag::ReportCount(v) => "Report Count = "@ + spec_dec(v as nat),
        GlobalTag::Push => "Push"@,
        GlobalTag::Pop => "Pop"@,
    }
}

/// Annotation text of a recognized local item.
pub open spec fn spec_local_text(tag: LocalTag) -> Seq<char> {
    match tag {
        LocalTag::Usage(v) => "Usage = "@ + spec_hex_value(v as nat),
        LocalTag::UsageMinimum(v) => "Usage Minimum = "@ + spec_hex_value(v as nat),
        LocalTag::UsageMaximum(v) => "Usage Maximum = "@ + spec_hex_value(v as nat),
        LocalTag::DesignatorIndex(v) => "Designator Index = "@ + spec_dec(v as nat),
        LocalTag::DesignatorMinimum(v) => "Designator Minimum = "@ + spec_dec(v as nat),
        LocalTag::DesignatorMaximum(v) => "Designator Maximum = "@ + spec_dec(v as nat),
        LocalTag::StringIndex(v) => "String Index = "@ + spec_dec(v as nat),
        LocalTag::StringMinimum(v) => "String Minimum = "@ + spec_dec(v as nat),
        LocalTag::StringMaximum(v) => "String Maximum = "@ + spec_dec(v as nat),
        LocalTag::Delimiter(v) => "Delimiter = "@ + spec_dec(v as nat),
    }
}

/// Annotation of one item: the text of its recognized tag, or the long-item
/// tag byte, or the raw type and tag codes of an unrecognized item.
pub open spec fn spec_annotation(item: DescriptorItem) -> Seq<char> {
    match item.main_tag {
        Some(t) => spec_main_text(t),
        None => match item.global_tag {
            Some(t) => spec_global_text(t),
            None => match item.local_tag {
                Some(t) => spec_local_text(t),
                None => if item.bytes@.len() == 0 {
                    "Unknown"@
                } else if item.bytes@[0] == crate::item::LONG_ITEM_PREFIX && item.bytes@.len()
                    >= 3 {
                    "Long Item (tag "@ + spec_hex_value(item.bytes@[2] as nat) + ")"@
                } else {
                    "Unknown (type "@ + spec_dec(type_code(item.bytes@[0]) as nat) + ", tag "@
                        + spec_hex_value(tag_code(item.bytes@[0]) as nat) + ")"@
                },
            },
        },
    }
}

/// Hex column of one item: each byte as 0x, two digits, a comma and a space.
pub open spec fn spec_bytes_column(b: Seq<u8>) -> Seq<char>
    decreases b.len(),
{
    if b.len() == 0 {
        Seq::empty()
    } else {
        "0x"@ + spec_hex_byte(b[0]) + ", "@ + spec_bytes_column(b.drop_first())
    }
}

/// Spaces that align an item's annotation column: six per byte the item
/// falls short of the longest one.
pub open spec fn pad_count(m: nat, len: nat) -> nat {
    if len <= m {
        (m - len) as nat
    } else {
        0
    }
}

/// Indentation units displayed for a depth: negative depth displays as zero.
pub open spec fn clamp_depth(depth: int) -> nat {
    if depth <= 0 {
        0
    } else {
        depth as nat
    }
}

/// One rendered line from its already-resolved indentation and padding.
pub open spec fn spec_line_parts(item: DescriptorItem, indent: nat, pad: nat) -> Seq<char> {
    spec_bytes_column(item.bytes@) + spaces(6 * pad) + "// "@ + spaces(2 * indent)
        + spec_annotation(item) + seq!['\n']
}

/// One rendered line of an item emitted at a depth, aligned to the longest
/// item length.
pub open spec fn spec_line(item: DescriptorItem, depth: int, m: nat) -> Seq<char> {
    spec_line_parts(item, clamp_depth(depth), pad_count(m, item.bytes@.len()))
}

/// Depth at which an item's own line is emitted: a closing item steps back
/// one level first, so its line aligns with the line that opened it.
pub open spec fn emit_depth(item: DescriptorItem, depth: int) -> int {
    if closes_collection(item) {
        depth - 1
    } else {
        depth
    }
}

/// Depth in force after an item's line: an opening item indents what
/// follows it by one level.
pub open spec fn next_depth(item: DescriptorItem, depth: int) -> int {
    if opens_collection(item) {
        emit_depth(item, depth) + 1
    } else {
        emit_depth(item, depth)
    }
}

/// The lines of the items from position `i` on, entered at the given depth.
pub open spec fn spec_render_from(
    items: Seq<DescriptorItem>,
    i: int,
    depth: int,
    m: nat,
) -> Seq<char>
    decreases items.len() - i,
{
    if i < 0 || i >= items.len() {
        Seq::empty()
    } else {
        spec_line(items[i], emit_depth(items[i], depth), m) + spec_render_from(
            items,
            i + 1,
            next_depth(items[i], depth),
            m,
        )
    }
}

/// The whole rendering of a report's items, starting at depth zero.
pub open spec fn spec_render(items: Seq<DescriptorItem>) -> Seq<char> {
    spec_render_from(items, 0, 0, max_item_len(items))
}

/// Text of a decode error.
pub open spec fn spec_error_text(e: DecodeError) -> Seq<char> {
    match e {
        DecodeError::TruncatedItem(off) => "truncated item at offset "@ + spec_dec(off as nat),
    }
}

impl DecodeError {
    /// Human-readable description of the error.
    pub fn describe(&self) -> (s: String)
        ensures
            s@ == spec_error_text(*self),
    {
        match self {
            DecodeError::TruncatedItem(off) => {
                let mut s = String::new();
                s.append("truncated item at offset ");
                push_dec(&mut s, *off as u64);
                assert(s@ =~= spec_error_text(*self));
                s
            },
        }
    }
}

/// Byte count of the longest item of a report.
fn max_len_of(items: &Vec<DescriptorItem>) -> (m: usize)
    ensures
        m as nat == max_item_len(items@),
{
    let mut m: usize = 0;
    let mut i: usize = 0;
    proof {
        assert(items@.take(0int) =~= Seq::<DescriptorItem>::empty());
    }
    while i < items.len()
        invariant
            i <= items@.len(),
            m as nat == max_item_len(items@.take(i as int)),
        decreases items@.len() - i,
    {
        proof {
            assert(items@.take(i + 1).drop_last() =~= items@.take(i as int));
            assert(items@.take(i + 1).last() == items@[i as int]);
        }
        let len = items[i].bytes.len();
        if len > m {
            m = len;
        }
        i = i + 1;
    }
    proof {
        assert(items@.take(items@.len() as int) =~= items@);
    }
    m
}

/// Append the name of a collection kind.
fn push_collection_name(out: &mut String, kind: CollectionKind)
    ensures
        final(out)@ == old(out)@ + spec_collection_name(kind),
{
    match kind {
        CollectionKind::Physical => out.append("Physical"),
        CollectionKind::Application => out.append("Application"),
        CollectionKind::Logical => out.append("Logical"),
        CollectionKind::Report => out.append("Report"),
        CollectionKind::NamedArray => out.append("Named Array"),
        CollectionKind::UsageSwitch => out.append("Usage Switch"),
        CollectionKind::UsageModifier => out.append("Usage Modifier"),
        CollectionKind::Reserved(b) => {
            out.append("Reserved ");
            push_hex_value(out, b as u32);
        },
        CollectionKind::Vendor(b) => {
            out.append("Vendor ");
            push_hex_value(out, b as u32);
        },
    }
    assert(out@ =~= old(out)@ + spec_collection_name(kind));
}

/// Append the annotation of a recognized main item.
fn push_main_text(out: &mut String, tag: MainTag)
    ensures
        final(out)@ == old(out)@ + spec_main_text(tag),
{
    match tag {
        MainTag::Input(f) => {
            out.append("Input (");
            push_hex_value(out, f);
            out.append(")");
        },
        MainTag::Output(f) => {
            out.append("Output (");
            push_hex_value(out, f);
            out.append(")");
        },
        MainTag::Feature(f) => {
            out.append("Feature (");
            push_hex_value(out, f);
            out.append(")");
        },
        MainTag::Collection(kind) => {
            out.append("Collection (");
            push_collection_name(out, kind);
            out.append(")");
        },
        MainTag::EndCollection => out.append("End Collection"),
    }
    assert(out@ =~= old(out)@ + spec_main_text(tag));
}

/// Append the annotation of a recognized global item.
fn push_global_text(out: &mut String, tag: GlobalTag)
    ensures
        final(out)@ == old(out)@ + spec_global_text(tag),
{
    match tag {
        GlobalTag::UsagePage(v) => {
            out.append("Usage Page = ");
            push_hex_value(out, v);
        },
        GlobalTag::LogicalMinimum(v) => {
            out.append("Logical Minimum = ");
            push_dec_signed(out, v);
        },
        GlobalTag::LogicalMaximum(v) => {
            out.append("Logical Maximum = ");
            push_dec_signed(out, v);
        },
        GlobalTag::PhysicalMinimum(v) => {
            out.append("Physical Minimum = ");
            push_dec_signed(out, v);
        },
        GlobalTag::PhysicalMaximum(v) => {
            out.append("Physical Maximum = ");
            push_dec_signed(out, v);
        },
        GlobalTag::UnitExponent(v) => {
            out.append("Unit Exponent = ");
            push_dec_signed(out, v);
        },
        GlobalTag::Unit(v) => {
            out.append("Unit = ");
            push_hex_value(out, v);
        },
        GlobalTag::ReportSize(v) => {
            out.append("Report Size = ");
            push_dec(out, v as u64);
        },
        GlobalTag::ReportId(v) => {
            out.append("Report ID = ");
            push_dec(out, v as u64);
        },
        GlobalTag::ReportCount(v) => {
            out.append("Report Count = ");
            push_dec(out, v as u64);
        },
        GlobalTag::Push => out.append("Push"),
        GlobalTag::Pop => out.append("Pop"),
    }
    assert(out@ =~= old(out)@ + spec_global_text(tag));
}

/// Append the annotation of a recognized local item.
fn push_local_text(out: &mut String, tag: LocalTag)
    ensures
        final(out)@ == old(out)@ + spec_local_text(tag),
{
    match tag {
        LocalTag::Usage(v) => {
            out.append("Usage = ");
            push_hex_value(out, v);
        },
        LocalTag::UsageMinimum(v) => {
            out.append("Usage Minimum = ");
            push_hex_value(out, v);
        },
        LocalTag::UsageMaximum(v) => {
            out.append("Usage Maximum = ");
            push_hex_value(out, v);
        },
        LocalTag::DesignatorIndex(v) => {
            out.append("Designator Index = ");
            push_dec(out, v as u64);
        },
        LocalTag::DesignatorMinimum(v) => {
            out.append("Designator Minimum = ");
            push_dec(out, v as u64);
        },
        LocalTag::DesignatorMaximum(v) => {
            out.append("Designator Maximum = ");
            push_dec(out, v as u64);
        },
        LocalTag::StringIndex(v) => {
            out.append("String Index = ");
            push_dec(out, v as u64);
        },
        LocalTag::StringMinimum(v) => {
            out.append("String Minimum = ");
            push_dec(out, v as u64);
        },
        LocalTag::StringMaximum(v) => {
            out.append("String Maximum = ");
            push_dec(out, v as u64);
        },
        LocalTag::Delimiter(v) => {
            out.append("Delimiter = ");
            push_dec(out, v as u64);
        },
    }
    assert(out@ =~= old(out)@ + spec_local_text(tag));
}

/// Append the annotation of one item.
fn push_annotation(out: &mut String, item: &DescriptorItem)
    ensures
        final(out)@ == old(out)@ + spec_annotation(*item),
{
    match item.main_tag {
        Some(t) => push_main_text(out, t),
        None => match item.global_tag {
            Some(t) => push_global_text(out, t),
            None => match item.local_tag {
                Some(t) => push_local_text(out, t),
                None => {
                    if item.bytes.len() == 0 {
                        out.append("Unknown");
                    } else if item.bytes[0] == crate::item::LONG_ITEM_PREFIX && item.bytes.len()
                        >= 3 {
                        out.append("Long Item (tag ");
                        push_hex_value(out, item.bytes[2] as u32);
                        out.append(")");
                    } else {
                        let prefix = item.bytes[0];
                        out.append("Unknown (type ");
                        push_dec(out, ((prefix / 4) % 4) as u64);
                        out.append(", tag ");
                        push_hex_value(out, (prefix / 16) as u32);
                        out.append(")");
                    }
                },
            },
        },
    }
    assert(out@ =~= old(out)@ + spec_annotation(*item));
}

/// Append the hex column of one item's bytes.
fn push_bytes_column(out: &mut String, bytes: &Vec<u8>)
    ensures
        final(out)@ == old(out)@ + spec_bytes_column(bytes@),
{
    let mut j: usize = 0;
    proof {
        assert(bytes@.skip(0int) =~= bytes@);
    }
    while j < bytes.len()
        invariant
            j <= bytes@.len(),
            out@ + spec_bytes_column(bytes@.skip(j as int)) == old(out)@ + spec_bytes_column(
                bytes@,
            ),
        decreases bytes@.len() - j,
    {
        let ghost before = out@;
        out.append("0x");
        push_hex_byte(out, bytes[j]);
        out.append(", ");
        proof {
            assert(bytes@.skip(j as int)[0] == bytes@[j as int]);
            assert(bytes@.skip(j as int).drop_first() =~= bytes@.skip(j + 1));
            assert(out@ =~= before + ("0x"@ + spec_hex_byte(bytes@[j as int]) + ", "@));
            assert(out@ + spec_bytes_column(bytes@.skip(j + 1)) =~= old(out)@
                + spec_bytes_column(bytes@));
        }
        j = j + 1;
    }
    proof {
        assert(spec_bytes_column(bytes@.skip(bytes@.len() as int)) =~= Seq::<char>::empty());
        assert(out@ =~= old(out)@ + spec_bytes_column(bytes@));
    }
}

/// Append one line: hex column, alignment, the comment marker, indentation,
/// annotation, and the line break.
fn push_line(out: &mut String, item: &DescriptorItem, indent: usize, pad: usize)
    ensures
        final(out)@ == old(out)@ + spec_line_parts(*item, indent as nat, pad as nat),
{
    push_bytes_column(out, &item.bytes);
    push_align(out, pad);
    out.append("// ");
    push_indent(out, indent);
    push_annotation(out, item);
    push_char(out, '\n');
    assert(out@ =~= old(out)@ + spec_line_parts(*item, indent as nat, pad as nat));
}

/// Render a report: one line per item in source order, the hex column
/// aligned to the longest item, the annotation indented by the collection
/// nesting in force at that item's line.
pub fn render(report: &Report) -> (out: String)
    ensures
        out@ == spec_render(report.items@),
{
    let m = max_len_of(&report.items);
    let mut out = String::new();
    let mut depth: i128 = 0;
    let mut i: usize = 0;
    while i < report.items.len()
        invariant
            i <= report.items@.len(),
            -(i as int) <= depth as int && depth as int <= i as int,
            m as nat == max_item_len(report.items@),
            out@ + spec_render_from(report.items@, i as int, depth as int, m as nat)
                == spec_render_from(report.items@, 0, 0, m as nat),
        decreases report.items@.len() - i,
    {
        let item = &report.items[i];
        let close = match item.main_tag {
            Some(MainTag::EndCollection) => true,
            _ => false,
        };
        let open = match item.main_tag {
            Some(MainTag::Collection(_)) => true,
            _ => false,
        };
        let d_emit: i128 = if close {
            depth - 1
        } else {
            depth
        };
        let indent: usize = if d_emit <= 0 {
            0
        } else {
            d_emit as usize
        };
        let len = item.bytes.len();
        let pad: usize = if len <= m {
            m - len
        } else {
            0
        };
        let ghost before = out@;
        push_line(&mut out, item, indent, pad);
        proof {
            assert(d_emit as int == emit_depth(report.items@[i as int], depth as int));
            assert(indent as nat == clamp_depth(d_emit as int));
            assert(pad as nat == pad_count(m as nat, item.bytes@.len()));
            assert(out@ =~= before + spec_line(report.items@[i as int], d_emit as int, m as nat));
            let d_next: int = next_depth(report.items@[i as int], depth as int);
            assert(spec_render_from(report.items@, i as int, depth as int, m as nat)
                == spec_line(report.items@[i as int], d_emit as int, m as nat)
                + spec_render_from(report.items@, i + 1, d_next, m as nat));
            assert(out@ + spec_render_from(report.items@, i + 1, d_next, m as nat)
                =~= spec_render_from(report.items@, 0, 0, m as nat));
        }
        depth = if open {
            d_emit + 1
        } else {
            d_emit
        };
        i = i + 1;
    }
    proof {
        assert(spec_render_from(report.items@, i as int, depth as int, m as nat)
            =~= Seq::<char>::empty());
        assert(out@ =~= spec_render(report.items@));
    }
    out
}

} // verus!
