use handy_core::vector_store::{blob_to_vec, rank_top_k, vec_to_blob, RagStats, StoredDocument};

fn bits(values: &[f32]) -> Vec<u32> {
    values.iter().map(|v| v.to_bits()).collect()
}

fn floats(words: &[u32]) -> Vec<f32> {
    words.iter().map(|w| f32::from_bits(*w)).collect()
}

#[test]
fn test_vec_blob_roundtrip() {
    let original: Vec<f32> = vec![1.5, -2.3, 0.0, 4.2];
    let blob = vec_to_blob(&bits(&original));
    let recovered = floats(&blob_to_vec(&blob));

    assert_eq!(original.len(), recovered.len());
    for (a, b) in original.iter().zip(recovered.iter()) {
        assert!((a - b).abs() < 0.0001);
    }
}

#[test]
fn blob_is_little_endian_and_tightly_packed() {
    let blob = vec_to_blob(&[0x0403_0201, 0xFFFF_FFFE]);
    assert_eq!(blob, vec![1, 2, 3, 4, 0xFE, 0xFF, 0xFF, 0xFF]);
    let one = vec_to_blob(&bits(&[1.0]));
    assert_eq!(one, 1.0f32.to_le_bytes().to_vec());
    assert_eq!(vec_to_blob(&[]), Vec::<u8>::new());
}

#[test]
fn blob_decoding_reads_little_endian_words() {
    assert_eq!(blob_to_vec(&[1, 2, 3, 4]), vec![0x0403_0201]);
    assert_eq!(blob_to_vec(&[]), Vec::<u32>::new());
}

#[test]
fn blob_with_a_short_last_group_decodes_it_as_zero() {
    assert_eq!(blob_to_vec(&[1, 0, 0, 0, 9, 9]), vec![1, 0]);
    assert_eq!(blob_to_vec(&[7]), vec![0]);
}

#[test]
fn blob_round_trip_is_exact_for_every_bit_pattern_tried() {
    let words: Vec<u32> = vec![0, 1, 0x7FC0_0000, 0x8000_0000, u32::MAX, 0x3F80_0000, 0x0012_3456];
    assert_eq!(blob_to_vec(&vec_to_blob(&words)), words);
}

#[test]
fn rank_picks_highest_scores_first() {
    let scores = vec![10, 50, 30, 40];
    assert_eq!(rank_top_k(&scores, 2, None), vec![1, 3]);
    assert_eq!(rank_top_k(&scores, 10, None), vec![1, 3, 2, 0]);
    assert_eq!(rank_top_k(&scores, 0, None), Vec::<usize>::new());
}

#[test]
fn rank_keeps_the_order_of_equal_scores() {
    let scores = vec![5, 7, 5, 7, 5];
    assert_eq!(rank_top_k(&scores, 5, None), vec![1, 3, 0, 2, 4]);
    assert_eq!(rank_top_k(&scores, 3, None), vec![1, 3, 0]);
}

#[test]
fn rank_leaves_out_rows_below_the_threshold() {
    let scores = vec![100, 499, 500, 900, -3];
    assert_eq!(rank_top_k(&scores, 5, Some(500)), vec![3, 2]);
    assert_eq!(rank_top_k(&scores, 1, Some(500)), vec![3]);
    assert_eq!(rank_top_k(&scores, 5, Some(1000)), Vec::<usize>::new());
}

#[test]
fn rank_of_nothing_is_nothing() {
    assert_eq!(rank_top_k(&[], 3, None), Vec::<usize>::new());
}

#[test]
fn rag_retrieval_ranks_the_closest_document_first() {
    // similarities of three documents to a query, scaled to integers
    let similarities: Vec<f32> = vec![0.91, 0.42, -0.10];
    let scores: Vec<i64> = similarities.iter().map(|s| (s * 1_000_000.0) as i64).collect();
    let picked = rank_top_k(&scores, 2, None);
    assert_eq!(picked, vec![0, 1]);
    assert!(similarities[picked[0]] > similarities[picked[1]]);
    for i in picked {
        assert!((-1.0..=1.0).contains(&similarities[i]));
    }
}

#[test]
fn store_records_hold_their_fields() {
    let doc = StoredDocument {
        id: 7,
        content: "The quick brown fox".to_string(),
        source_type: "note".to_string(),
        source_id: None,
        title: Some("Fox".to_string()),
        created_at: 1700000000,
    };
    assert_eq!(doc.id, 7);
    assert_eq!(doc.title.as_deref(), Some("Fox"));
    let stats = RagStats { document_count: 3, embedding_count: 5 };
    assert_eq!(stats.document_count, 3);
    assert_eq!(stats.embedding_count, 5);
}
