//! Where texts are cut.

use crate::text;
use crate::transfer;
use vstd::prelude::*;
use vstd::utf8::*;

verus! {

/// The smaller of two numbers.
pub open spec fn smaller(a: int, b: int) -> int {
    if a < b {
        a
    } else {
        b
    }
}

/// A part of a text has the bytes between its two positions. There is one exactly if the positions
/// are in order and neither falls inside a character.
pub proof fn law_part_has_the_bytes_between(chars: Seq<char>, start: int, end: int)
    ensures
        text::slice_of(chars, start, end) is Some <==> start <= end && is_char_boundary(
            encode_utf8(chars),
            start,
        ) && is_char_boundary(encode_utf8(chars), end),
        text::slice_of(chars, start, end) matches Some(part) ==> encode_utf8(part) == encode_utf8(
            chars,
        ).subrange(start, end),
{
    if text::slice_of(chars, start, end) is Some {
        let bytes = encode_utf8(chars);
        encode_utf8_valid_utf8(chars);
        text::lemma_part_is_valid(bytes, start, end);
        decode_utf8_encode_utf8(bytes.subrange(start, end));
    }
}

/// A chunk has the bytes between two boundaries that follow each other. There is one exactly if
/// there are these boundaries and the text can be cut there.
pub proof fn law_chunk_lies_between_boundaries(transfer: transfer::TransferModel, index: int)
    ensures
        transfer.chunk(index) is Some <==> {
            &&& 0 <= index < transfer.total_chunks
            &&& index + 1 < transfer.boundaries.len()
            &&& transfer.boundaries[index] <= transfer.boundaries[index + 1]
            &&& is_char_boundary(encode_utf8(transfer.text), transfer.boundaries[index] as int)
            &&& is_char_boundary(encode_utf8(transfer.text), transfer.boundaries[index + 1] as int)
        },
        transfer.chunk(index) matches Some(chunk) ==> encode_utf8(chunk) == encode_utf8(
            transfer.text,
        ).subrange(transfer.boundaries[index] as int, transfer.boundaries[index + 1] as int),
{
    if 0 <= index < transfer.total_chunks && index + 1 < transfer.boundaries.len() {
        law_part_has_the_bytes_between(
            transfer.text,
            transfer.boundaries[index] as int,
            transfer.boundaries[index + 1] as int,
        );
    }
}

/// The boundaries of chunks of `size` characters: the first is at the beginning, the next ones each
/// `size` characters further as long as there are characters and fewer than `total` chunks, and the
/// others at the end. There is one more than there are chunks, and at least two.
pub proof fn law_boundaries(chars: Seq<char>, size: int, total: int, index: int)
    requires
        size > 0,
        total >= 0,
        encode_utf8(chars).len() <= usize::MAX,
        0 <= index <= at_least_one(total),
    ensures
        ({
            let boundaries = transfer::boundaries_of(chars, size, total);
            &&& boundaries.len() == at_least_one(total) + 1
            &&& boundaries[0] == 0
            &&& boundaries[boundaries.len() - 1] == encode_utf8(chars).len()
            &&& index < at_least_one(total) ==> boundaries[index] == encode_utf8(
                chars.take(smaller(index * size, chars.len() as int)),
            ).len()
        }),
{
    let boundaries = transfer::boundaries_of(chars, size, total);
    let cut = smaller(index * size, chars.len() as int);
    assert(index * size >= 0) by (nonlinear_arith)
        requires
            index >= 0,
            size > 0,
    ;
    assert(chars.take(chars.len() as int) =~= chars);
    assert(chars.take(0) =~= Seq::<char>::empty());
    if index == 0 {
        assert(index * size == 0);
    }
    text::lemma_slice_at_offsets(chars, cut, cut);
}

/// The number of chunks, or one if there are none.
pub open spec fn at_least_one(total: int) -> int {
    if total < 1 {
        1
    } else {
        total
    }
}

/// Without a chunk length there are only the beginning and the end.
pub proof fn law_boundaries_without_length(chars: Seq<char>, total: int)
    requires
        encode_utf8(chars).len() <= usize::MAX,
    ensures
        transfer::boundaries_of(chars, 0, total).len() == 2,
        transfer::boundaries_of(chars, 0, total)[0] == 0,
        transfer::boundaries_of(chars, 0, total)[1] == encode_utf8(chars).len(),
        transfer::boundary_at(chars, 0, total, 0) == 0,
        transfer::boundary_at(chars, 0, total, 1) == encode_utf8(chars).len(),
{
}

/// A text of some bytes is prepared as a transfer that cuts it into chunks of equally many
/// characters, but for the last ones: as few as the number of chunks allows.
pub proof fn law_chunks_are_even(
    device_addr: Seq<char>,
    file_name: Seq<char>,
    chars: Seq<char>,
    bytes_len: usize,
    size: int,
    index: int,
)
    requires
        bytes_len > 0,
        chars.len() > 0,
        encode_utf8(chars).len() <= usize::MAX,
        ({
            let total = transfer::transfer_of(
                device_addr,
                file_name,
                chars,
                bytes_len as int,
            ).total_chunks;
            &&& (size - 1) * total < chars.len() <= size * total
            &&& 0 <= index < total
        }),
    ensures
        ({
            let transfer = transfer::transfer_of(
                device_addr,
                file_name,
                chars,
                bytes_len as int,
            );
            &&& transfer.text == chars
            &&& transfer.chunk(index) == Some(
                chars.subrange(
                    smaller(index * size, chars.len() as int),
                    smaller((index + 1) * size, chars.len() as int),
                ),
            )
            &&& transfer::joined_chunks(transfer, transfer.total_chunks as nat) == chars
            &&& (transfer.total_chunks - 1) * 49152 < bytes_len
            &&& bytes_len <= transfer.total_chunks * 49152
            &&& transfer.device_addr == device_addr
            &&& transfer.file_name == file_name
            &&& transfer.current_chunk == 0
            &&& transfer.last_chunk_time is None
            &&& transfer.pending_start
            &&& !transfer.handshake_complete
        }),
{
    let transfer = transfer::transfer_of(device_addr, file_name, chars, bytes_len as int);
    let total = transfer.total_chunks as int;
    transfer::lemma_transfer_well_formed(device_addr, file_name, chars, bytes_len);
    transfer::law_chunk_count_is_least(device_addr, file_name, chars, bytes_len);
    assert(transfer::FILE_CHUNK_BYTES == 49152);
    transfer::law_parts_are_least(chars.len() as int, total);
    let least = transfer::ceil_div(chars.len() as int, total);
    assert(least == size) by (nonlinear_arith)
        requires
            (size - 1) * total < chars.len() <= size * total,
            (least - 1) * total < chars.len() <= least * total,
            total > 0,
    ;
    transfer::law_chunk_is_run_of_characters(transfer, index);
    transfer::law_chunks_make_up_text(transfer);
}

/// The boundaries of a well-formed transfer run from the beginning of the text to its end, and each
/// of its chunks is there.
pub proof fn law_well_formed_transfer(transfer: transfer::TransferModel, index: int)
    requires
        transfer.well_formed(),
        0 <= index < transfer.total_chunks,
    ensures
        transfer.text.len() > 0,
        transfer.boundaries.len() == transfer.total_chunks + 1,
        transfer.boundaries[0] == 0,
        transfer.boundaries[transfer.total_chunks as int] == encode_utf8(transfer.text).len(),
        transfer.boundaries[index] <= transfer.boundaries[index + 1],
        transfer.chunk(index) is Some,
{
    transfer::law_chunk_is_run_of_characters(transfer, index);
    law_chunk_lies_between_boundaries(transfer, index);
    transfer::law_parts_are_least(transfer.text.len() as int, transfer.total_chunks as int);
    let size = transfer.chunk_chars();
    assert(size > 0) by (nonlinear_arith)
        requires
            transfer.text.len() <= size * transfer.total_chunks,
            transfer.text.len() > 0,
    ;
    law_boundaries(transfer.text, size, transfer.total_chunks as int, index);
}

} // verus!
