//! What holds of decoding as a whole: the header gate, the order of
//! sections, and the transparency of custom sections.

use vstd::prelude::*;
use crate::error::Error;
use crate::error::Malformed;
use crate::raw_module::has_header;
use crate::raw_module::lemma_frame_advances;
use crate::raw_module::lemma_section_advances;
use crate::raw_module::spec_frame;
use crate::raw_module::spec_payload;
use crate::raw_module::spec_read;
use crate::raw_module::spec_section;
use crate::raw_module::spec_sections;
use crate::raw_module::Frame;
use crate::raw_module::RawModuleView;
use crate::raw_module::SECTION_CUSTOM;
use crate::raw_module::SECTION_TYPE;
use crate::reader::leb_length;
use crate::reader::leb_payload;
use crate::reader::lemma_leb_length_bounds;
use crate::reader::spec_leb_u32;
use crate::reader::spec_name;

verus! {

/// An input that does not start with the magic number and version 1 is
/// rejected as malformed, whatever follows.
pub proof fn law_header_gate(bytes: Seq<u8>)
    requires
        !has_header(bytes),
    ensures
        spec_read(bytes) matches Err(Error::MalformedBinary(_)),
        bytes.len() >= 8 ==> spec_read(bytes) == Err::<RawModuleView, Error>(
            Error::MalformedBinary(Malformed::InvalidHeader),
        ),
{
}

/// That `n` bytes of `a` from `p` on are the `n` bytes of `b` from `q` on.
pub open spec fn same_bytes(a: Seq<u8>, p: int, b: Seq<u8>, q: int, n: int) -> bool {
    &&& 0 <= p
    &&& 0 <= q
    &&& 0 <= n
    &&& p + n <= a.len()
    &&& q + n <= b.len()
    &&& forall|i: int| p <= i < p + n ==> #[trigger] a[i] == b[i - p + q]
}

/// The length of a LEB128 integer depends on its own bytes only.
pub proof fn lemma_leb_length_local(a: Seq<u8>, p: int, b: Seq<u8>, q: int, limit: nat)
    requires
        leb_length(a, p, limit) matches Ok(n) && same_bytes(a, p, b, q, n as int),
    ensures
        leb_length(b, q, limit) == leb_length(a, p, limit),
    decreases limit,
{
    lemma_leb_length_bounds(a, p, limit);
    assert(a[p] == b[q]);
    if a[p] >= 128 {
        lemma_leb_length_bounds(a, p + 1, (limit - 1) as nat);
        lemma_leb_length_local(a, p + 1, b, q + 1, (limit - 1) as nat);
    }
}

/// The payload of a LEB128 integer depends on its own bytes only.
pub proof fn lemma_leb_payload_local(a: Seq<u8>, p: int, b: Seq<u8>, q: int, n: nat)
    requires
        same_bytes(a, p, b, q, n as int),
    ensures
        leb_payload(b, q, n) == leb_payload(a, p, n),
    decreases n,
{
    if n > 0 {
        lemma_leb_payload_local(a, p, b, q, (n - 1) as nat);
        assert(a[p + n - 1] == b[q + n - 1]);
    }
}

/// An unsigned LEB128 integer depends on its own bytes only.
pub proof fn lemma_leb_u32_local(a: Seq<u8>, p: int, b: Seq<u8>, q: int)
    requires
        spec_leb_u32(a, p) matches Ok((_, end)) && same_bytes(a, p, b, q, end - p),
    ensures
        spec_leb_u32(a, p) matches Ok((v, end)) && spec_leb_u32(b, q) == Ok::<(u32, int), Error>(
            (v, end - p + q),
        ),
{
    lemma_leb_length_bounds(a, p, 5);
    lemma_leb_length_local(a, p, b, q, 5);
    lemma_leb_payload_local(a, p, b, q, leb_length(a, p, 5)->Ok_0);
}

/// The frame of a section depends on its own bytes only.
pub proof fn lemma_frame_local(a: Seq<u8>, p: int, b: Seq<u8>, q: int)
    requires
        spec_frame(a, p) matches Ok(f) && same_bytes(a, p, b, q, f.start - p),
    ensures
        spec_frame(a, p) matches Ok(f) && spec_frame(b, q) == Ok::<Frame, Error>(
            Frame { id: f.id, start: f.start - p + q, end: f.end - p + q },
        ),
{
    lemma_frame_advances(a, p);
    assert(a[p] == b[q]);
    lemma_leb_u32_local(a, p + 1, b, q + 1);
}

/// A section depends on its own bytes only: where the bytes of a whole
/// section stand at another place of another input, the section makes
/// the same of a module there.
pub proof fn lemma_section_local(
    a: Seq<u8>,
    p: int,
    b: Seq<u8>,
    q: int,
    expected: u8,
    acc: RawModuleView,
)
    requires
        spec_frame(a, p) matches Ok(f) && same_bytes(a, p, b, q, f.end - p),
    ensures
        spec_section(b, q, expected, acc) == match spec_section(a, p, expected, acc) {
            Ok((next, end, id)) => Ok((next, end - p + q, id)),
            Err(e) => Err(e),
        },
{
    reveal(spec_section);
    lemma_frame_advances(a, p);
    let f = spec_frame(a, p)->Ok_0;
    assert(a[p] == b[q]);
    lemma_leb_u32_local(a, p + 1, b, q + 1);
    let g = spec_frame(b, q)->Ok_0;
    assert(g.id == f.id && g.start == f.start - p + q && g.end == f.end - p + q);
    assert forall|i: int| 0 <= i < f.end - f.start implies a.subrange(f.start, f.end)[i]
        == b.subrange(g.start, g.end)[i] by {
        assert(a[f.start + i] == b[g.start + i]);
    }
    assert(a.subrange(f.start, f.end) =~= b.subrange(g.start, g.end));
}

/// Whether `p` is a place between sections, or before or behind all of
/// them, for sections that are framed from `pos` on.
pub open spec fn is_boundary(bytes: Seq<u8>, pos: int, p: int) -> bool
    decreases bytes.len() - pos,
{
    pos == p || (pos < p && (spec_frame(bytes, pos) matches Ok(f) && f.end <= bytes.len() && {
        proof {
            lemma_frame_advances(bytes, pos);
        }
        is_boundary(bytes, f.end, p)
    }))
}

/// Whether `c` is the bytes of one custom section: the id 0, the length
/// of what follows, and in it a name first.
pub open spec fn is_custom_section(c: Seq<u8>) -> bool {
    spec_frame(c, 0) matches Ok(f) && f.id == SECTION_CUSTOM && f.end == c.len() && spec_name(
        c.subrange(f.start, f.end),
        0,
    ) is Ok
}

/// `bytes` with `c` put in at `p`.
pub open spec fn inserted(bytes: Seq<u8>, p: int, c: Seq<u8>) -> Seq<u8> {
    bytes.subrange(0, p) + c + bytes.subrange(p, bytes.len() as int)
}

/// A boundary is not before the place that the walk starts at.
pub proof fn lemma_boundary_ahead(bytes: Seq<u8>, pos: int, p: int)
    requires
        is_boundary(bytes, pos, p),
        pos <= bytes.len(),
    ensures
        pos <= p,
        p <= bytes.len(),
    decreases bytes.len() - pos,
{
    if pos != p {
        lemma_frame_advances(bytes, pos);
        lemma_boundary_ahead(bytes, spec_frame(bytes, pos)->Ok_0.end, p);
    }
}

/// Behind an inserted custom section, the sections make of a module what
/// they made of it before.
proof fn lemma_sections_shifted(
    bytes: Seq<u8>,
    p: int,
    c: Seq<u8>,
    pos: int,
    expected: u8,
    acc: RawModuleView,
)
    requires
        0 <= p <= pos <= bytes.len(),
        spec_sections(bytes, pos, expected, acc) is Ok,
    ensures
        spec_sections(inserted(bytes, p, c), pos + c.len(), expected, acc) == spec_sections(
            bytes,
            pos,
            expected,
            acc,
        ),
    decreases bytes.len() - pos,
{
    let longer = inserted(bytes, p, c);
    if pos < bytes.len() {
        lemma_section_advances(bytes, pos, expected, acc);
        let f = spec_frame(bytes, pos)->Ok_0;
        let (next, end, id) = spec_section(bytes, pos, expected, acc)->Ok_0;
        assert(same_bytes(bytes, pos, longer, pos + c.len(), f.end - pos));
        lemma_section_local(bytes, pos, longer, pos + c.len(), expected, acc);
        lemma_sections_shifted(bytes, p, c, end, id, next);
    }
}

/// A custom section leaves the module read so far, and the id that the
/// next section is held against, as they are.
proof fn lemma_custom_section(c: Seq<u8>, expected: u8, acc: RawModuleView)
    requires
        is_custom_section(c),
    ensures
        spec_section(c, 0, expected, acc) == Ok::<(RawModuleView, int, u8), Error>(
            (acc, c.len() as int, expected),
        ),
{
    reveal(spec_section);
    reveal(spec_payload);
    lemma_frame_advances(c, 0);
}

/// Up to an inserted custom section, and over it, the sections make of a
/// module what they made of it before.
proof fn lemma_sections_inserted(
    bytes: Seq<u8>,
    p: int,
    c: Seq<u8>,
    pos: int,
    expected: u8,
    acc: RawModuleView,
)
    requires
        0 <= pos <= bytes.len(),
        is_boundary(bytes, pos, p),
        is_custom_section(c),
        spec_sections(bytes, pos, expected, acc) is Ok,
    ensures
        spec_sections(inserted(bytes, p, c), pos, expected, acc) == spec_sections(
            bytes,
            pos,
            expected,
            acc,
        ),
    decreases bytes.len() - pos,
{
    let longer = inserted(bytes, p, c);
    lemma_boundary_ahead(bytes, pos, p);
    if pos == p {
        assert(same_bytes(c, 0, longer, p, c.len() as int));
        lemma_section_local(c, 0, longer, p, expected, acc);
        lemma_custom_section(c, expected, acc);
        lemma_sections_shifted(bytes, p, c, p, expected, acc);
    } else {
        lemma_section_advances(bytes, pos, expected, acc);
        let f = spec_frame(bytes, pos)->Ok_0;
        let (next, end, id) = spec_section(bytes, pos, expected, acc)->Ok_0;
        lemma_boundary_ahead(bytes, f.end, p);
        assert(same_bytes(bytes, pos, longer, pos, f.end - pos));
        lemma_section_local(bytes, pos, longer, pos, expected, acc);
        lemma_sections_inserted(bytes, p, c, end, id, next);
    }
}

/// A custom section that is put between two sections of a valid module,
/// before the first or behind the last, changes nothing of what the
/// module decodes to. The module with the section in it is valid again,
/// and by `law_boundaries_kept` its boundaries are those of the module
/// and the one behind the section, so that any number of custom sections
/// may be put in, one after the other.
pub proof fn law_custom_section_transparent(bytes: Seq<u8>, p: int, c: Seq<u8>)
    requires
        spec_read(bytes) is Ok,
        is_boundary(bytes, 8, p),
        is_custom_section(c),
    ensures
        spec_read(inserted(bytes, p, c)) == spec_read(bytes),
{
    let longer = inserted(bytes, p, c);
    lemma_boundary_ahead(bytes, 8, p);
    assert(has_header(longer));
    lemma_sections_inserted(bytes, p, c, 8, SECTION_TYPE, RawModuleView::empty());
}

/// Where the place `q` of an input lies once `c` has been put in at `p`.
pub open spec fn moved(p: int, c: Seq<u8>, q: int) -> int {
    if q <= p {
        q
    } else {
        q + c.len()
    }
}

/// Behind an inserted custom section, a boundary stays one.
proof fn lemma_boundary_shifted(bytes: Seq<u8>, p: int, c: Seq<u8>, pos: int, q: int)
    requires
        0 <= p <= pos <= bytes.len(),
        is_boundary(bytes, pos, q),
    ensures
        is_boundary(inserted(bytes, p, c), pos + c.len(), q + c.len()),
    decreases bytes.len() - pos,
{
    let longer = inserted(bytes, p, c);
    if pos != q {
        lemma_frame_advances(bytes, pos);
        let f = spec_frame(bytes, pos)->Ok_0;
        assert(same_bytes(bytes, pos, longer, pos + c.len(), f.start - pos));
        lemma_frame_local(bytes, pos, longer, pos + c.len());
        lemma_boundary_shifted(bytes, p, c, f.end, q);
    }
}

/// Up to an inserted custom section, and over it, a boundary stays one,
/// and the place behind the inserted section is one.
proof fn lemma_boundary_inserted(bytes: Seq<u8>, p: int, c: Seq<u8>, pos: int, q: int)
    requires
        0 <= pos <= bytes.len(),
        is_boundary(bytes, pos, p),
        is_boundary(bytes, pos, q),
        is_custom_section(c),
    ensures
        is_boundary(inserted(bytes, p, c), pos, moved(p, c, q)),
        is_boundary(inserted(bytes, p, c), pos, p + c.len()),
    decreases bytes.len() - pos,
{
    let longer = inserted(bytes, p, c);
    lemma_boundary_ahead(bytes, pos, p);
    lemma_boundary_ahead(bytes, pos, q);
    if pos == p {
        lemma_frame_advances(c, 0);
        assert(same_bytes(c, 0, longer, p, spec_frame(c, 0)->Ok_0.start));
        lemma_frame_local(c, 0, longer, p);
        assert(is_boundary(longer, p + c.len(), p + c.len()));
        if q > p {
            lemma_boundary_shifted(bytes, p, c, p, q);
        }
    } else {
        lemma_frame_advances(bytes, pos);
        let f = spec_frame(bytes, pos)->Ok_0;
        lemma_boundary_ahead(bytes, f.end, p);
        assert(same_bytes(bytes, pos, longer, pos, f.start - pos));
        lemma_frame_local(bytes, pos, longer, pos);
        if pos == q {
            lemma_boundary_inserted(bytes, p, c, f.end, p);
        } else {
            lemma_boundary_inserted(bytes, p, c, f.end, q);
        }
    }
}

/// Once a custom section has been put in at a boundary, every boundary of
/// the input is a boundary still, where it has moved to, and so is the
/// place behind the section: the next custom section can be put in at any
/// of them.
pub proof fn law_boundaries_kept(bytes: Seq<u8>, p: int, c: Seq<u8>, q: int)
    requires
        8 <= bytes.len(),
        is_boundary(bytes, 8, p),
        is_boundary(bytes, 8, q),
        is_custom_section(c),
    ensures
        is_boundary(inserted(bytes, p, c), 8, moved(p, c, q)),
        is_boundary(inserted(bytes, p, c), 8, p + c.len()),
{
    lemma_boundary_inserted(bytes, p, c, 8, q);
}

/// Whether the input from `pos` on is made of sections that are not
/// custom and that each decode to the end of their payload.
pub open spec fn well_framed(bytes: Seq<u8>, pos: int) -> bool
    decreases bytes.len() - pos,
{
    pos >= bytes.len() || (spec_frame(bytes, pos) matches Ok(f) && f.id != SECTION_CUSTOM && f.end
        <= bytes.len() && decodes_whole(f.id, bytes.subrange(f.start, f.end)) && {
        proof {
            lemma_frame_advances(bytes, pos);
        }
        well_framed(bytes, f.end)
    })
}

/// Whether a payload decodes, to its end, as the payload of the section `id`.
pub open spec fn decodes_whole(id: u8, payload: Seq<u8>) -> bool {
    spec_payload(id, payload, RawModuleView::empty()) matches Ok((_, q)) && q == payload.len()
}

/// Whether the ids of the framed sections from `pos` on never fall: the
/// first is at least `expected`, and each is at least the one before it.
pub open spec fn in_canonical_order(bytes: Seq<u8>, pos: int, expected: u8) -> bool
    decreases bytes.len() - pos,
{
    pos >= bytes.len() || (spec_frame(bytes, pos) matches Ok(f) && f.end <= bytes.len() && f.id
        >= expected && {
        proof {
            lemma_frame_advances(bytes, pos);
        }
        in_canonical_order(bytes, f.end, f.id)
    })
}

/// Whether a payload decodes does not depend on the module read so far.
pub proof fn lemma_payload_alone(id: u8, payload: Seq<u8>, acc: RawModuleView)
    ensures
        spec_payload(id, payload, acc) is Ok <==> spec_payload(
            id,
            payload,
            RawModuleView::empty(),
        ) is Ok,
        spec_payload(id, payload, acc) matches Ok((_, q)) ==> spec_payload(
            id,
            payload,
            RawModuleView::empty(),
        )->Ok_0.1 == q,
{
    reveal(spec_payload);
}

/// Sections that each decode, but of which one has a smaller id than the
/// one before it, are rejected for their order.
proof fn lemma_out_of_order(bytes: Seq<u8>, pos: int, expected: u8, acc: RawModuleView)
    requires
        0 <= pos,
        well_framed(bytes, pos),
        !in_canonical_order(bytes, pos, expected),
    ensures
        spec_sections(bytes, pos, expected, acc) == Err::<RawModuleView, Error>(
            Error::InvalidSectionOrder,
        ),
    decreases bytes.len() - pos,
{
    reveal(spec_section);
    lemma_frame_advances(bytes, pos);
    let f = spec_frame(bytes, pos)->Ok_0;
    if f.id >= expected {
        lemma_payload_alone(f.id, bytes.subrange(f.start, f.end), acc);
        let (next, end, id) = spec_section(bytes, pos, expected, acc)->Ok_0;
        lemma_out_of_order(bytes, f.end, f.id, next);
    }
}

/// A module whose sections each decode, none of them custom, but do not
/// stand in canonical order, is rejected for the order of its sections.
pub proof fn law_section_order(bytes: Seq<u8>)
    requires
        has_header(bytes),
        well_framed(bytes, 8),
        !in_canonical_order(bytes, 8, SECTION_TYPE),
    ensures
        spec_read(bytes) == Err::<RawModuleView, Error>(Error::InvalidSectionOrder),
{
    lemma_out_of_order(bytes, 8, SECTION_TYPE, RawModuleView::empty());
}

} // verus!
