use hyperbox::text::{byte_len, char_width, same_text, slice};
use hyperbox::transfer::{
    FILE_CHUNK_BYTES, TransferState, build_boundaries, build_transfer_state,
};

fn by_char_indices(text: &str, chunk_size_chars: usize, total_chunks: usize) -> Vec<usize> {
    let mut boundaries = vec![0];
    if chunk_size_chars == 0 {
        boundaries.push(text.len());
        return boundaries;
    }
    let mut count = 0usize;
    for (idx, _) in text.char_indices() {
        if count > 0 && count % chunk_size_chars == 0 && boundaries.len() < total_chunks {
            boundaries.push(idx);
        }
        count += 1;
    }
    boundaries.push(text.len());
    while boundaries.len() < total_chunks + 1 {
        boundaries.push(text.len());
    }
    boundaries
}

fn prepare(text: &str) -> TransferState {
    match build_transfer_state(
        "addr".to_string(),
        "file.txt".to_string(),
        text.to_string(),
        text.len(),
    ) {
        Ok(transfer) => transfer,
        Err(message) => panic!("{}", message),
    }
}

fn joined(transfer: &TransferState) -> String {
    let mut text = String::new();
    for i in 0..transfer.total_chunks {
        text.push_str(transfer.chunk(i).unwrap());
    }
    text
}

#[test]
fn a_text_is_cut_at_every_third_character() {
    assert_eq!(build_boundaries("abcdefgh", 3, 3), vec![0, 3, 6, 8]);
    assert_eq!(build_boundaries("aé漢😀b", 2, 3), vec![0, 3, 10, 11]);
}

#[test]
fn chunks_without_characters_end_where_the_text_ends() {
    assert_eq!(build_boundaries("abc", 2, 5), vec![0, 2, 3, 3, 3, 3]);
}

#[test]
fn a_text_is_not_cut_more_often_than_wanted() {
    assert_eq!(build_boundaries("abcdef", 1, 2), vec![0, 1, 6]);
    assert_eq!(build_boundaries("abcdef", 1, 1), vec![0, 6]);
    assert_eq!(build_boundaries("abcdef", 1, 0), vec![0, 6]);
}

#[test]
fn a_text_is_not_cut_without_a_chunk_length() {
    assert_eq!(build_boundaries("abc", 0, 7), vec![0, 3]);
    assert_eq!(build_boundaries("", 0, 7), vec![0, 0]);
    assert_eq!(build_boundaries("", 4, 2), vec![0, 0, 0]);
}

#[test]
fn boundaries_agree_with_char_indices() {
    for text in ["", "a", "abcdefghij", "aé漢😀", "漢字漢字漢字漢字x", "😀😀😀😀😀"] {
        for size in 0..7usize {
            for total in 0..9usize {
                assert_eq!(
                    build_boundaries(text, size, total),
                    by_char_indices(text, size, total),
                    "{:?} {} {}",
                    text,
                    size,
                    total
                );
            }
        }
    }
}

#[test]
fn a_short_text_is_one_chunk() {
    let transfer = prepare("hello");
    assert_eq!(transfer.total_chunks, 1);
    assert_eq!(transfer.boundaries, vec![0, 5]);
    assert_eq!(transfer.device_addr, "addr");
    assert_eq!(transfer.file_name, "file.txt");
    assert_eq!(transfer.text, "hello");
    assert_eq!(transfer.current_chunk, 0);
    assert_eq!(transfer.last_chunk_time, None);
    assert!(transfer.pending_start);
    assert!(!transfer.handshake_complete);
    assert_eq!(transfer.chunk(0), Some("hello"));
    assert_eq!(transfer.chunk(1), None);
    assert_eq!(transfer.chunk(usize::MAX), None);
}

#[test]
fn an_empty_text_cannot_be_transferred() {
    assert_eq!(
        build_transfer_state("a".to_string(), "f".to_string(), "".to_string(), 0),
        Err("文件为空".to_string())
    );
    assert_eq!(
        build_transfer_state("a".to_string(), "f".to_string(), "".to_string(), 12),
        Err("文件为空".to_string())
    );
    assert_eq!(
        build_transfer_state("a".to_string(), "f".to_string(), "x".to_string(), 0),
        Err("文件为空".to_string())
    );
}

#[test]
fn there_are_as_few_chunks_as_the_size_allows() {
    for (len, chunks) in [
        (1, 1),
        (FILE_CHUNK_BYTES - 1, 1),
        (FILE_CHUNK_BYTES, 1),
        (FILE_CHUNK_BYTES + 1, 2),
        (2 * FILE_CHUNK_BYTES, 2),
        (2 * FILE_CHUNK_BYTES + 1, 3),
    ] {
        let transfer = prepare(&"x".repeat(len));
        assert_eq!(transfer.total_chunks, chunks);
        assert_eq!(transfer.boundaries.len(), chunks + 1);
    }
}

#[test]
fn chunks_have_equal_numbers_of_characters() {
    let text = "x".repeat(FILE_CHUNK_BYTES + 1);
    let transfer = prepare(&text);
    assert_eq!(transfer.boundaries, vec![0, 24577, 49153]);
    assert_eq!(transfer.chunk(0).unwrap().len(), 24577);
    assert_eq!(transfer.chunk(1).unwrap().len(), 24576);
}

#[test]
fn the_chunks_in_a_row_are_the_text() {
    for text in [
        "x".repeat(100_000),
        "漢字".repeat(30_000),
        "a😀é".repeat(33_333),
        format!("{}{}", "x".repeat(60_000), "😀".repeat(60_000)),
    ] {
        let transfer = prepare(&text);
        assert!(transfer.total_chunks > 1);
        assert_eq!(joined(&transfer), text);
        assert_eq!(transfer.chunk(transfer.total_chunks), None);
    }
}

#[test]
fn a_chunk_may_be_larger_than_planned_if_characters_are_wide() {
    let text = format!("{}{}", "x".repeat(60_000), "😀".repeat(60_000));
    let transfer = prepare(&text);
    assert_eq!(transfer.total_chunks, 7);
    let last = transfer.chunk(6).unwrap();
    assert!(last.len() > FILE_CHUNK_BYTES);
    assert!(last.chars().all(|c| c == '😀'));
}

#[test]
fn a_boundary_inside_a_character_gives_no_chunk() {
    let mut transfer = prepare("漢字");
    transfer.boundaries = vec![0, 2];
    assert_eq!(transfer.chunk(0), None);
    transfer.boundaries = vec![0];
    assert_eq!(transfer.chunk(0), None);
    transfer.boundaries = vec![];
    assert_eq!(transfer.chunk(0), None);
    transfer.boundaries = vec![3, 0];
    assert_eq!(transfer.chunk(0), None);
    transfer.boundaries = vec![0, 7];
    assert_eq!(transfer.chunk(0), None);
}

#[test]
fn parts_of_a_text_lie_between_characters() {
    let text = "aé漢😀";
    for start in 0..12usize {
        for end in 0..12usize {
            assert_eq!(slice(text, start, end), text.get(start..end), "{} {}", start, end);
        }
    }
}

#[test]
fn characters_have_one_to_four_bytes() {
    for c in ['a', '\u{7f}', '\u{80}', 'é', '\u{7ff}', '\u{800}', '漢', '\u{ffff}', '😀'] {
        assert_eq!(char_width(c), c.len_utf8());
    }
    assert_eq!(byte_len("aé漢😀"), 10);
}

#[test]
fn texts_are_the_same_if_all_characters_are() {
    assert!(same_text("", ""));
    assert!(same_text("漢字", "漢字"));
    assert!(!same_text("漢字", "漢子"));
    assert!(!same_text("a", "ab"));
    assert!(!same_text("ab", "a"));
}
