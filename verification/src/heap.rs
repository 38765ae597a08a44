//! Memory shared with a host: where blocks go, and what texts its bytes hold.
use vstd::prelude::*;
use vstd::slice::slice_subrange;
use vstd::utf8::{decode_utf8, encode_utf8, valid_utf8};

verus! {

/// How blocks follow each other.
#[derive(Debug, Clone, Copy, PartialEq, Eq, Structural)]
pub enum Layout {
    /// With eight bytes between neighbours. A block of no bytes is said to be at the start.
    Spaced,
    /// Each at a multiple of four bytes behind the one before. A block of no bytes is refused.
    Aligned,
}

/// The place of the first block.
pub const HEAP_START: u32 = 1024;

/// The memory behind everything handed out so far. Blocks are never taken back: every call of the
/// host begins with a new heap.
#[derive(Debug)]
pub struct Heap {
    pub layout: Layout,
    pub next: u32,
}

/// The number of bytes that a block takes up.
pub open spec fn taken(layout: Layout, cap: i32) -> u32
    recommends
        cap > 0,
{
    match layout {
        Layout::Spaced => (cap + 8) as u32,
        Layout::Aligned => ((cap + 3) / 4 * 4) as u32,
    }
}

/// The place of a block of no bytes.
pub open spec fn no_place(layout: Layout) -> i32 {
    match layout {
        Layout::Spaced => 1024,
        Layout::Aligned => 0,
    }
}

impl Heap {
    /// A heap from which nothing has been handed out.
    pub fn new(layout: Layout) -> (r: Heap)
        ensures
            r.layout == layout,
            r.next == HEAP_START,
    {
        Heap { layout, next: HEAP_START }
    }

    /// Hands out a block: the one that begins where the last one ends. Addresses have 32 bits, and
    /// go round past the last one.
    pub fn allocate(&mut self, cap: i32) -> (r: i32)
        ensures
            final(self).layout == old(self).layout,
            cap <= 0 ==> r == no_place(old(self).layout) && final(self).next == old(self).next,
            cap > 0 ==> r == old(self).next as i32 && final(self).next == old(
                self,
            ).next.wrapping_add(taken(old(self).layout, cap)),
    {
        if cap <= 0 {
            return match self.layout {
                Layout::Spaced => 1024,
                Layout::Aligned => 0,
            };
        }
        let place: u32 = self.next;
        let size: u32 = match self.layout {
            Layout::Spaced => cap as u32 + 8,
            Layout::Aligned => (cap as u32 + 3) / 4 * 4,
        };
        self.next = place.wrapping_add(size);
        #[verifier::truncate]
        let r: i32 = place as i32;
        r
    }
}

/// Hands out a block for some bytes: its place and the number of bytes, which are copied there by
/// whoever owns the memory. No bytes get a block of one, so that its place is one. Where no block
/// can be had under the aligned layout, both are zero.
pub fn write_bytes(heap: &mut Heap, bytes: &[u8]) -> (r: (i32, i32))
    requires
        bytes@.len() <= i32::MAX,
    ensures
        final(heap).layout == old(heap).layout,
        final(heap).next == old(heap).next.wrapping_add(
            taken(old(heap).layout, block_for(bytes@.len() as int)),
        ),
        r == written(old(heap).layout, old(heap).next as i32, bytes@.len() as i32),
{
    let len: usize = bytes.len();
    let cap: i32 = if len == 0 {
        1
    } else {
        len as i32
    };
    let place: i32 = heap.allocate(cap);
    let refused = match heap.layout {
        Layout::Spaced => false,
        Layout::Aligned => place <= 0,
    };
    if refused {
        return (0, 0);
    }
    (place, len as i32)
}

/// Hands out a block for the bytes of a text.
pub fn write_str(heap: &mut Heap, s: &str) -> (r: (i32, i32))
    requires
        encode_utf8(s@).len() <= i32::MAX,
    ensures
        final(heap).layout == old(heap).layout,
        final(heap).next == old(heap).next.wrapping_add(
            taken(old(heap).layout, block_for(encode_utf8(s@).len() as int)),
        ),
        r == written(old(heap).layout, old(heap).next as i32, encode_utf8(s@).len() as i32),
{
    write_bytes(heap, s.as_bytes())
}

/// The size of the block for some bytes.
pub open spec fn block_for(len: int) -> i32 {
    if len == 0 {
        1
    } else {
        len as i32
    }
}

/// Where bytes go, and how many there are.
pub open spec fn written(layout: Layout, place: i32, len: i32) -> (i32, i32) {
    if layout == Layout::Aligned && place <= 0 {
        (0, 0)
    } else {
        (place, len)
    }
}

/// While the addresses do not go round, a block ends before everything that is handed out later
/// begins.
pub proof fn law_blocks_do_not_overlap(layout: Layout, next: u32, cap: i32)
    requires
        cap > 0,
        next + cap + 8 <= i32::MAX,
    ensures
        next as i32 == next,
        next.wrapping_add(taken(layout, cap)) >= next + cap,
        next.wrapping_add(taken(layout, cap)) <= next + cap + 8,
{
}

/// Blocks of the aligned layout begin at multiples of four.
pub proof fn law_aligned_blocks_stay_aligned(next: u32, cap: i32)
    requires
        cap > 0,
        next % 4 == 0,
    ensures
        next.wrapping_add(taken(Layout::Aligned, cap)) % 4 == 0,
        HEAP_START % 4 == 0,
{
    let size = taken(Layout::Aligned, cap);
    assert(size % 4 == 0);
    assert(0x1_0000_0000int % 4 == 0);
}

// ---------------------------------------------------------------------------
// Texts in bytes
// ---------------------------------------------------------------------------

/// The text of bytes that need not be UTF-8, as the standard library reads them.
pub uninterp spec fn lossy_text(bytes: Seq<u8>) -> Seq<char>;

/// Reads bytes with `String::from_utf8_lossy`: a function of the bytes. Bytes that are UTF-8 give
/// the text that they encode; in others, what is not UTF-8 is replaced.
#[verifier::external_body]
fn read_lossy(bytes: &[u8]) -> (r: String)
    ensures
        r@ == lossy_text(bytes@),
        valid_utf8(bytes@) ==> r@ == decode_utf8(bytes@),
{
    String::from_utf8_lossy(bytes).into_owned()
}

/// The text of some bytes. Bytes that are UTF-8 give the text that they encode.
pub fn bytes_to_string(bytes: &[u8]) -> (r: String)
    ensures
        r@ == lossy_text(bytes@),
        valid_utf8(bytes@) ==> r@ == decode_utf8(bytes@),
        forall|t: Seq<char>| bytes@ == #[trigger] encode_utf8(t) ==> r@ == t,
{
    let r = read_lossy(bytes);
    proof {
        assert forall|t: Seq<char>| bytes@ == #[trigger] encode_utf8(t) implies r@ == t by {
            vstd::utf8::encode_utf8_valid_utf8(t);
            vstd::utf8::encode_utf8_decode_utf8(t);
        }
    }
    r
}

/// The text that a host wrote into a buffer, which says how many bytes that were. Nothing was
/// written where it says none or an error.
pub fn reply_text(count: i32, buffer: &[u8]) -> (r: Option<String>)
    requires
        count <= buffer@.len(),
    ensures
        r is Some <==> count > 0,
        r matches Some(t) ==> t@ == lossy_text(buffer@.take(count as int)),
{
    if count <= 0 {
        return None;
    }
    let part = slice_subrange(buffer, 0, count as usize);
    assert(part@ == buffer@.take(count as int));
    Some(bytes_to_string(part))
}

/// Reads bytes with `std::str::from_utf8`: the text that they encode, and nothing where they are
/// not UTF-8.
#[verifier::external_body]
fn read_utf8(bytes: &[u8]) -> (r: Option<String>)
    ensures
        r is Some <==> valid_utf8(bytes@),
        r matches Some(t) ==> t@ == decode_utf8(bytes@),
{
    std::str::from_utf8(bytes).ok().map(|t| t.to_owned())
}

/// The setting that a host wrote into a buffer, which says how many bytes that were. There is none
/// where it wrote none, where it says an error, where the bytes are not UTF-8, and where they fill
/// the buffer: then the setting may go on behind it.
pub open spec fn setting_in(count: int, buffer: Seq<u8>) -> Option<Seq<char>> {
    if 0 < count < buffer.len() && valid_utf8(buffer.take(count)) {
        Some(decode_utf8(buffer.take(count)))
    } else {
        None
    }
}

/// The setting that a host wrote into a buffer. One that is missing, that is not UTF-8, or that
/// the host may have cut at the end of the buffer counts as not set.
pub fn setting_text(count: i32, buffer: &[u8]) -> (r: Option<String>)
    requires
        count <= buffer@.len(),
    ensures
        r is Some <==> 0 < count < buffer@.len() && valid_utf8(buffer@.take(count as int)),
        r matches Some(t) ==> t@ == decode_utf8(buffer@.take(count as int)),
        crate::text::opt_text(r) == setting_in(count as int, buffer@),
{
    if count <= 0 || count as usize >= buffer.len() {
        return None;
    }
    let part = slice_subrange(buffer, 0, count as usize);
    assert(part@ == buffer@.take(count as int));
    read_utf8(part)
}

/// A setting that fits into its buffer with room to spare is read as it was written.
pub proof fn law_settings_are_read_back(t: Seq<char>, buffer: Seq<u8>)
    requires
        0 < encode_utf8(t).len() < buffer.len(),
        buffer.take(encode_utf8(t).len() as int) == encode_utf8(t),
    ensures
        setting_in(encode_utf8(t).len() as int, buffer) == Some(t),
{
    vstd::utf8::encode_utf8_valid_utf8(t);
    vstd::utf8::encode_utf8_decode_utf8(t);
}

/// Where a host's input lies: its address and length, where both are positive.
pub open spec fn span_of(ptr: int, len: int) -> Option<(int, int)> {
    if ptr > 0 && len > 0 {
        Some((ptr, len))
    } else {
        None
    }
}

/// What a call is answered for a reply of some bytes.
pub open spec fn answer_code(room: int, len: int) -> int {
    if room <= 0 {
        -1
    } else {
        len
    }
}

/// Where a host's input lies: its address and length, where both are positive.
pub fn input_span(ptr: i32, len: i32) -> (r: Option<(usize, usize)>)
    ensures
        r is Some <==> span_of(ptr as int, len as int) is Some,
        r matches Some(span) ==> span_of(ptr as int, len as int) == Some(
            (span.0 as int, span.1 as int),
        ),
        r is Some <==> ptr > 0 && len > 0,
        r matches Some(span) ==> span.0 == ptr && span.1 == len,
{
    if ptr > 0 && len > 0 {
        Some((ptr as usize, len as usize))
    } else {
        None
    }
}

/// What a call is answered for a reply of some bytes: their number, or -1 where the host has no
/// room for them.
pub fn reply_code(room: i32, len: i32) -> (r: i32)
    ensures
        r == answer_code(room as int, len as int),
        r == if room <= 0 {
            -1
        } else {
            len as int
        },
{
    if room <= 0 {
        -1
    } else {
        len
    }
}

/// A block takes eight bytes more than it has in the spaced layout, and in the aligned one as many
/// as the next multiple of four has.
pub proof fn law_what_blocks_take(cap: i32)
    requires
        0 < cap,
    ensures
        taken(Layout::Spaced, cap) == cap + 8,
        taken(Layout::Aligned, cap) % 4 == 0,
        cap <= taken(Layout::Aligned, cap) < cap + 4,
{
}

/// Bytes go where the block for them is, and their number is told. No bytes take a block of one.
/// A block at no address of the aligned layout is refused.
pub proof fn law_where_bytes_go(layout: Layout, place: i32, len: i32)
    ensures
        layout == Layout::Spaced || place > 0 ==> written(layout, place, len) == (place, len),
        layout == Layout::Aligned && place <= 0 ==> written(layout, place, len) == (0i32, 0i32),
        len > 0 ==> block_for(len as int) == len,
        block_for(0) == 1,
        no_place(Layout::Spaced) == 1024,
        no_place(Layout::Aligned) == 0,
{
}

/// An input is taken exactly where its address and its length are positive, from there and as long
/// as that. A call is answered with the length of its reply where there is room for it, and with -1
/// where there is none.
pub proof fn law_inputs_and_replies(ptr: int, len: int)
    ensures
        ptr > 0 && len > 0 ==> span_of(ptr, len) == Some((ptr, len)),
        ptr <= 0 || len <= 0 ==> span_of(ptr, len) is None,
        ptr > 0 ==> answer_code(ptr, len) == len,
        ptr <= 0 ==> answer_code(ptr, len) == -1,
{
}

/// Bytes that are not UTF-8, that fill their buffer, or that are none, are no setting.
pub proof fn law_what_is_no_setting(count: int, buffer: Seq<u8>)
    ensures
        count <= 0 ==> setting_in(count, buffer) is None,
        count >= buffer.len() ==> setting_in(count, buffer) is None,
        !valid_utf8(buffer.take(count)) ==> setting_in(count, buffer) is None,
        0 < count < buffer.len() && valid_utf8(buffer.take(count)) ==> setting_in(count, buffer)
            == Some(decode_utf8(buffer.take(count))),
{
}

} // verus!
