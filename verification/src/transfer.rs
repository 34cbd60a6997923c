//! A text on its way to a device, cut into chunks.

use crate::text;
use vstd::arithmetic::div_mod::lemma_fundamental_div_mod;
use vstd::prelude::*;
use vstd::utf8::*;

verus! {

/// The size that a chunk is meant to have, in bytes.
pub const FILE_CHUNK_BYTES: usize = 48 * 1024;

/// A transfer that has been prepared or is going on.
#[derive(Debug, PartialEq, Eq)]
pub struct TransferState {
    /// The address of the device that receives the text.
    pub device_addr: String,
    pub file_name: String,
    pub text: String,
    pub total_chunks: usize,
    /// The byte positions at which the chunks of the text begin and end.
    pub boundaries: Vec<usize>,
    /// The chunk that was asked for last.
    pub current_chunk: usize,
    /// When the last chunk was sent, in nanoseconds on the host's clock.
    pub last_chunk_time: Option<u128>,
    /// Whether the device has yet to be told that the transfer starts.
    pub pending_start: bool,
    pub handshake_complete: bool,
}

/// What a [`TransferState`] stands for.
pub struct TransferModel {
    pub device_addr: Seq<char>,
    pub file_name: Seq<char>,
    pub text: Seq<char>,
    pub total_chunks: usize,
    pub boundaries: Seq<usize>,
    pub current_chunk: usize,
    pub last_chunk_time: Option<u128>,
    pub pending_start: bool,
    pub handshake_complete: bool,
}

impl View for TransferState {
    type V = TransferModel;

    open spec fn view(&self) -> TransferModel {
        TransferModel {
            device_addr: self.device_addr@,
            file_name: self.file_name@,
            text: self.text@,
            total_chunks: self.total_chunks,
            boundaries: self.boundaries@,
            current_chunk: self.current_chunk,
            last_chunk_time: self.last_chunk_time,
            pending_start: self.pending_start,
            handshake_complete: self.handshake_complete,
        }
    }
}

/// The least number of parts of size `size` that `amount` fits into.
pub open spec fn ceil_div(amount: int, size: int) -> int {
    (amount + size - 1) / size
}

/// Finds the least number of parts of size `size` that `amount` fits into.
fn count_parts(amount: usize, size: usize) -> (parts: usize)
    requires
        size > 0,
    ensures
        parts == ceil_div(amount as int, size as int),
        amount > 0 ==> parts > 0,
        parts <= amount,
{
    let q: usize = amount / size;
    let r: usize = amount % size;
    proof {
        let a = amount as int;
        let s = size as int;
        lemma_ceil_div(a, s);
        assert(q <= amount) by (nonlinear_arith)
            requires
                q == amount / size,
                size > 0,
        ;
        assert(r > 0 ==> q < amount) by (nonlinear_arith)
            requires
                q == amount / size,
                r == amount % size,
                size > 0,
        ;
        assert(amount > 0 && r == 0 ==> q > 0) by (nonlinear_arith)
            requires
                q == amount / size,
                r == amount % size,
                size > 0,
        ;
    }
    if r == 0 {
        q
    } else {
        q + 1
    }
}

proof fn lemma_ceil_div(amount: int, size: int)
    requires
        amount >= 0,
        size > 0,
    ensures
        ceil_div(amount, size) == if amount % size == 0 {
            amount / size
        } else {
            amount / size + 1
        },
{
    let q = amount / size;
    let r = amount % size;
    lemma_fundamental_div_mod(amount, size);
    if r == 0 {
        vstd::arithmetic::div_mod::lemma_fundamental_div_mod_converse(
            amount + size - 1,
            size,
            q,
            size - 1,
        );
    } else {
        assert(size * (q + 1) == size * q + size) by (nonlinear_arith);
        vstd::arithmetic::div_mod::lemma_fundamental_div_mod_converse(
            amount + size - 1,
            size,
            q + 1,
            r - 1,
        );
    }
}

/// The byte position at which chunk `index` of a text begins, if chunks have `chunk_chars`
/// characters and there are `total` of them: the last of them ends where the text ends, as do
/// those that no character is left for.
pub open spec fn boundary_at(text: Seq<char>, chunk_chars: int, total: int, index: int) -> int {
    if index == 0 {
        0
    } else if 0 < chunk_chars && index < total && index * chunk_chars < text.len() {
        text::byte_offset(text, index * chunk_chars)
    } else {
        encode_utf8(text).len() as int
    }
}

/// The byte positions at which the chunks of a text begin, and the one at which the last ends.
pub open spec fn boundaries_of(text: Seq<char>, chunk_chars: int, total: int) -> Seq<usize> {
    let count: nat = if chunk_chars == 0 || total <= 1 {
        2
    } else {
        (total + 1) as nat
    };
    Seq::new(count, |index: int| boundary_at(text, chunk_chars, total, index) as usize)
}

/// Finds where the chunks of a text begin and end. A chunk begins at each `chunk_size_chars`-th
/// character until there are `total_chunks` of them.
pub fn build_boundaries(text: &str, chunk_size_chars: usize, total_chunks: usize) -> (boundaries:
    Vec<usize>)
    requires
        total_chunks < usize::MAX,
    ensures
        boundaries@ == boundaries_of(text@, chunk_size_chars as int, total_chunks as int),
        forall|i: int|
            0 <= i < boundaries@.len() ==> boundaries@[i] == boundary_at(
                text@,
                chunk_size_chars as int,
                total_chunks as int,
                i,
            ),
{
    let mut boundaries: Vec<usize> = Vec::new();
    boundaries.push(0);
    let len: usize = text::byte_len(text);
    let ghost chars = text@;
    let ghost size = chunk_size_chars as int;
    let ghost total = total_chunks as int;
    if chunk_size_chars == 0 {
        boundaries.push(len);
        assert(boundaries@ =~= boundaries_of(chars, size, total));
        return boundaries;
    }
    let mut count: usize = 0;
    let mut offset: usize = 0;
    // The number of chunk lengths that end before the last character seen.
    let ghost mut marks: int = 0;
    proof {
        text::lemma_utf8_len(chars);
        assert(chars.take(0) =~= Seq::<char>::empty());
    }
    for c in it: text.chars()
        invariant
            it.seq() == text@,
            chars == text@,
            size == chunk_size_chars,
            total == total_chunks,
            size > 0,
            len == encode_utf8(chars).len(),
            chars.len() <= len,
            count == it.index(),
            offset == text::byte_offset(chars, count as int),
            offset <= len,
            marks >= 0,
            count == 0 ==> marks == 0,
            count > 0 ==> marks * size < count <= (marks + 1) * size,
            boundaries@.len() == 1 + if marks < total {
                marks
            } else if total > 0 {
                total - 1
            } else {
                0
            },
            forall|j: int|
                0 <= j < boundaries@.len() ==> boundaries@[j] == boundary_at(
                    chars,
                    size,
                    total,
                    j,
                ),
    {
        proof {
            text::lemma_byte_offset_step(chars, count as int);
        }
        if count > 0 && count % chunk_size_chars == 0 {
            let ghost next = marks + 1;
            proof {
                lemma_exact_multiple(count as int, size, marks);
                marks = next;
            }
            if boundaries.len() < total_chunks {
                boundaries.push(offset);
            }
        }
        proof {
            if count == 0 {
                assert((marks + 1) * size >= 1) by (nonlinear_arith)
                    requires
                        marks == 0,
                        size > 0,
                ;
                assert(marks * size == 0) by (nonlinear_arith)
                    requires
                        marks == 0,
                ;
            } else {
                lemma_next_multiple(count as int, size, marks);
            }
        }
        offset += text::char_width(c);
        count += 1;
    }
    proof {
        lemma_product_grows(boundaries@.len() as int, size);
    }
    boundaries.push(len);
    while boundaries.len() < total_chunks + 1
        invariant
            total_chunks < usize::MAX,
            2 <= boundaries@.len() <= total_chunks + 1 || boundaries@.len() == 2,
            len == encode_utf8(chars).len(),
            size == chunk_size_chars,
            size > 0,
            total == total_chunks,
            forall|j: int|
                0 <= j < boundaries@.len() ==> boundaries@[j] == boundary_at(
                    chars,
                    size,
                    total,
                    j,
                ),
            boundaries@.len() * size >= chars.len() || boundaries@.len() >= total,
        decreases total_chunks + 1 - boundaries.len(),
    {
        proof {
            lemma_product_grows(boundaries@.len() as int, size);
        }
        boundaries.push(len);
    }
    assert(boundaries@ =~= boundaries_of(chars, size, total));
    boundaries
}

proof fn lemma_product_grows(count: int, size: int)
    by (nonlinear_arith)
    requires
        size > 0,
    ensures
        count * size <= (count + 1) * size,
{
}

proof fn lemma_exact_multiple(count: int, size: int, marks: int)
    requires
        size > 0,
        count % size == 0,
        marks * size < count <= (marks + 1) * size,
    ensures
        count == (marks + 1) * size,
{
    lemma_fundamental_div_mod(count, size);
    let q = count / size;
    assert(marks < q <= marks + 1) by (nonlinear_arith)
        requires
            size > 0,
            count == size * q,
            marks * size < count <= (marks + 1) * size,
    ;
    assert(count == (marks + 1) * size) by (nonlinear_arith)
        requires
            count == size * q,
            q == marks + 1,
    ;
}

proof fn lemma_next_multiple(count: int, size: int, marks: int)
    requires
        size > 0,
        count > 0,
        count == marks * size || (count % size != 0 && marks * size < count <= (marks + 1) * size),
    ensures
        marks * size < count + 1 <= (marks + 1) * size,
{
    assert((marks + 1) * size == marks * size + size) by (nonlinear_arith);
    if count != marks * size && count == (marks + 1) * size {
        vstd::arithmetic::div_mod::lemma_mod_multiples_basic(marks + 1, size);
    }
}

impl TransferModel {
    /// The characters of chunk `index`.
    pub open spec fn chunk(self, index: int) -> Option<Seq<char>> {
        if 0 <= index < self.total_chunks && index + 1 < self.boundaries.len() {
            text::slice_of(
                self.text,
                self.boundaries[index] as int,
                self.boundaries[index + 1] as int,
            )
        } else {
            None
        }
    }

    /// The number of characters of a full chunk.
    pub open spec fn chunk_chars(self) -> int {
        ceil_div(self.text.len() as int, self.total_chunks as int)
    }

    /// Whether the boundaries cut a text that is not empty into `total_chunks` chunks.
    pub open spec fn well_formed(self) -> bool {
        &&& self.text.len() > 0
        &&& self.total_chunks > 0
        &&& encode_utf8(self.text).len() <= usize::MAX
        &&& self.boundaries == boundaries_of(
            self.text,
            self.chunk_chars(),
            self.total_chunks as int,
        )
    }
}

/// The transfer that a text is prepared for. A text of `bytes_len` bytes is cut into as many
/// chunks as chunks of [`FILE_CHUNK_BYTES`] bytes would be needed.
pub open spec fn transfer_of(
    device_addr: Seq<char>,
    file_name: Seq<char>,
    text: Seq<char>,
    bytes_len: int,
) -> TransferModel {
    let total = ceil_div(bytes_len, FILE_CHUNK_BYTES as int);
    TransferModel {
        device_addr,
        file_name,
        text,
        total_chunks: total as usize,
        boundaries: boundaries_of(text, ceil_div(text.len() as int, total), total),
        current_chunk: 0,
        last_chunk_time: None,
        pending_start: true,
        handshake_complete: false,
    }
}

/// A text that is not empty is prepared for a well-formed transfer.
pub proof fn lemma_transfer_well_formed(
    device_addr: Seq<char>,
    file_name: Seq<char>,
    text: Seq<char>,
    bytes_len: usize,
)
    requires
        bytes_len > 0,
        text.len() > 0,
        encode_utf8(text).len() <= usize::MAX,
    ensures
        transfer_of(device_addr, file_name, text, bytes_len as int).well_formed(),
{
    lemma_ceil_div(bytes_len as int, FILE_CHUNK_BYTES as int);
}

/// Prepares a transfer. An empty text cannot be transferred.
pub fn build_transfer_state(
    device_addr: String,
    file_name: String,
    text: String,
    bytes_len: usize,
) -> (result: Result<TransferState, String>)
    ensures
        match result {
            Ok(transfer) => bytes_len > 0 && text@.len() > 0 && transfer@ == transfer_of(
                device_addr@,
                file_name@,
                text@,
                bytes_len as int,
            ) && transfer@.well_formed(),
            Err(message) => (bytes_len == 0 || text@.len() == 0) && message@ == "文件为空"@,
        },
{
    if bytes_len == 0 {
        return Err("文件为空".to_string());
    }
    let total_chunks: usize = count_parts(bytes_len, FILE_CHUNK_BYTES);
    let total_chars: usize = text.as_str().unicode_len();
    if total_chars == 0 {
        return Err("文件为空".to_string());
    }
    let chunk_size_chars: usize = count_parts(total_chars, total_chunks);
    proof {
        lemma_ceil_div(bytes_len as int, FILE_CHUNK_BYTES as int);
    }
    let boundaries = build_boundaries(text.as_str(), chunk_size_chars, total_chunks);
    let byte_count: usize = text::byte_len(text.as_str());
    assert(encode_utf8(text@).len() == byte_count);
    Ok(
        TransferState {
            device_addr,
            file_name,
            text,
            total_chunks,
            boundaries,
            current_chunk: 0,
            last_chunk_time: None,
            pending_start: true,
            handshake_complete: false,
        },
    )
}

impl TransferState {
    /// The characters of chunk `index`, or nothing if there is no such chunk.
    pub fn chunk(&self, index: usize) -> (chunk: Option<&str>)
        ensures
            match chunk {
                Some(chunk) => self@.chunk(index as int) == Some(chunk@),
                None => self@.chunk(index as int) is None,
            },
    {
        if index >= self.total_chunks {
            return None;
        }
        if index >= self.boundaries.len() || index + 1 >= self.boundaries.len() {
            return None;
        }
        let start: usize = self.boundaries[index];
        let end: usize = self.boundaries[index + 1];
        text::slice(self.text.as_str(), start, end)
    }
}

/// The first `count` chunks of a transfer in a row.
pub open spec fn joined_chunks(transfer: TransferModel, count: nat) -> Seq<char>
    decreases count,
{
    if count == 0 {
        Seq::empty()
    } else {
        joined_chunks(transfer, (count - 1) as nat) + transfer.chunk(count - 1).unwrap()
    }
}

/// The number of characters ahead of chunk `index`.
pub open spec fn chars_before(transfer: TransferModel, index: int) -> int {
    if index * transfer.chunk_chars() < transfer.text.len() {
        index * transfer.chunk_chars()
    } else {
        transfer.text.len() as int
    }
}

/// Chunk `index` of a well-formed transfer holds the characters from `index` times the length of
/// a full chunk on, as many as a full chunk has or as are left.
pub proof fn law_chunk_is_run_of_characters(transfer: TransferModel, index: int)
    requires
        transfer.well_formed(),
        0 <= index < transfer.total_chunks,
    ensures
        transfer.chunk(index) == Some(
            transfer.text.subrange(
                chars_before(transfer, index),
                chars_before(transfer, index + 1),
            ),
        ),
        chars_before(transfer, index) <= chars_before(transfer, index + 1) <= chars_before(
            transfer,
            index,
        ) + transfer.chunk_chars(),
{
    let text = transfer.text;
    let size = transfer.chunk_chars();
    let total = transfer.total_chunks as int;
    lemma_chunks_suffice(text.len() as int, total);
    lemma_boundary_is_offset(transfer, index);
    lemma_boundary_is_offset(transfer, index + 1);
    assert((index + 1) * size == index * size + size) by (nonlinear_arith);
    assert(index * size >= 0) by (nonlinear_arith)
        requires
            index >= 0,
            size > 0,
    ;
    text::lemma_slice_at_offsets(
        text,
        chars_before(transfer, index),
        chars_before(transfer, index + 1),
    );
}

/// The chunks of a well-formed transfer in a row are the text: nothing is lost, sent twice or
/// reordered, and no character is cut.
pub proof fn law_chunks_make_up_text(transfer: TransferModel)
    requires
        transfer.well_formed(),
    ensures
        joined_chunks(transfer, transfer.total_chunks as nat) == transfer.text,
{
    let total = transfer.total_chunks as int;
    lemma_joined_chunks(transfer, total as nat);
    lemma_chunks_suffice(transfer.text.len() as int, total);
    assert(chars_before(transfer, total) == transfer.text.len());
    assert(transfer.text.take(transfer.text.len() as int) =~= transfer.text);
}

/// A text is cut into the least number of chunks that could hold it if each held
/// [`FILE_CHUNK_BYTES`] bytes.
pub proof fn law_chunk_count_is_least(
    device_addr: Seq<char>,
    file_name: Seq<char>,
    text: Seq<char>,
    bytes_len: usize,
)
    requires
        bytes_len > 0,
    ensures
        ({
            let total = transfer_of(
                device_addr,
                file_name,
                text,
                bytes_len as int,
            ).total_chunks;
            (total - 1) * FILE_CHUNK_BYTES < bytes_len <= total * FILE_CHUNK_BYTES
        }),
{
    let size = FILE_CHUNK_BYTES as int;
    lemma_ceil_div(bytes_len as int, size);
    lemma_fundamental_div_mod(bytes_len as int, size);
}

/// The least number of parts is enough, and one less is not.
pub proof fn law_parts_are_least(amount: int, size: int)
    requires
        amount > 0,
        size > 0,
    ensures
        (ceil_div(amount, size) - 1) * size < amount <= ceil_div(amount, size) * size,
{
    let parts = ceil_div(amount, size);
    let q = amount / size;
    lemma_ceil_div(amount, size);
    lemma_fundamental_div_mod(amount, size);
    assert((q + 1) * size == size * q + size && (q - 1) * size == size * q - size && q * size
        == size * q) by (nonlinear_arith);
}

proof fn lemma_joined_chunks(transfer: TransferModel, count: nat)
    requires
        transfer.well_formed(),
        count <= transfer.total_chunks,
    ensures
        joined_chunks(transfer, count) == transfer.text.take(chars_before(transfer, count as int)),
        0 <= chars_before(transfer, count as int) <= transfer.text.len(),
    decreases count,
{
    let text = transfer.text;
    if count == 0 {
        assert(0 * transfer.chunk_chars() == 0);
        assert(text.take(0) =~= Seq::<char>::empty());
    } else {
        let before = chars_before(transfer, count - 1);
        let after = chars_before(transfer, count as int);
        lemma_joined_chunks(transfer, (count - 1) as nat);
        law_chunk_is_run_of_characters(transfer, count - 1);
        assert(text.take(before) + text.subrange(before, after) =~= text.take(after));
    }
}

/// Full chunks of the chosen length hold all characters.
proof fn lemma_chunks_suffice(chars: int, total: int)
    requires
        chars > 0,
        total > 0,
    ensures
        ceil_div(chars, total) > 0,
        total * ceil_div(chars, total) >= chars,
{
    lemma_ceil_div(chars, total);
    lemma_fundamental_div_mod(chars, total);
    let q = chars / total;
    assert(total * (q + 1) == total * q + total) by (nonlinear_arith);
    assert(q >= 0) by (nonlinear_arith)
        requires
            q == chars / total,
            chars > 0,
            total > 0,
    ;
    if chars % total == 0 && q == 0 {
        assert(total * q == 0) by (nonlinear_arith)
            requires
                q == 0,
        ;
    }
}

/// Each boundary is the byte offset of the characters ahead of it.
proof fn lemma_boundary_is_offset(transfer: TransferModel, index: int)
    requires
        transfer.well_formed(),
        0 <= index <= transfer.total_chunks,
    ensures
        index < transfer.boundaries.len(),
        transfer.boundaries[index] as int == text::byte_offset(
            transfer.text,
            chars_before(transfer, index),
        ),
        0 <= chars_before(transfer, index) <= transfer.text.len(),
{
    let text = transfer.text;
    let size = transfer.chunk_chars();
    let total = transfer.total_chunks as int;
    lemma_chunks_suffice(text.len() as int, total);
    assert(text.take(0) =~= Seq::<char>::empty());
    assert(text.take(text.len() as int) =~= text);
    assert(index * size >= 0) by (nonlinear_arith)
        requires
            index >= 0,
            size > 0,
    ;
    if index == 0 {
        assert(index * size == 0);
    }
    let before = chars_before(transfer, index);
    text::lemma_slice_at_offsets(text, before, before);
}

} // verus!
