use llama2_rs::attention::{att_index, cache_head_start, cache_row_start};
use llama2_rs::parallel::{pool_size, row_chunks, worker_pool_size};
use llama2_rs::rope::{pair_index, rope_index};

#[test]
fn att_index_strides_by_head() {
    // two heads, seq_len 2: head 1's score for position 1 sits at slot 3
    assert_eq!(att_index(0, 0, 2, 2), 0);
    assert_eq!(att_index(0, 1, 2, 2), 1);
    assert_eq!(att_index(1, 0, 2, 2), 2);
    assert_eq!(att_index(1, 1, 2, 2), 3);
}

#[test]
fn cache_rows_stride_by_dim() {
    assert_eq!(cache_row_start(0, 4, 2), 0);
    assert_eq!(cache_row_start(1, 4, 2), 4);
    // head 1's slice of row 1, dim 4, head_size 2
    assert_eq!(cache_head_start(1, 1, 4, 2, 2, 2), 6);
    assert_eq!(cache_head_start(0, 1, 4, 2, 2, 2), 2);
}

#[test]
fn rope_rows_stride_by_half_head() {
    // head_size 4: two pairs per position
    assert_eq!(rope_index(0, 4, 1, 3), 1);
    assert_eq!(rope_index(2, 4, 0, 3), 4);
    // pair 1 of head 1 in a dim-8 vector
    assert_eq!(pair_index(1, 4, 1, 2, 8), 6);
}

#[test]
fn causal_slots_are_pos_plus_one_and_head_local() {
    let seq_len = 4usize;
    let n_heads = 3usize;
    for h in 0..n_heads {
        for pos in 0..seq_len {
            let slots: Vec<usize> =
                (0..=pos).map(|t| att_index(h, t, seq_len, n_heads)).collect();
            // exactly pos + 1 slots, consecutive, inside head h's region,
            // none past the slot of pos
            assert_eq!(slots.len(), pos + 1);
            for w in slots.windows(2) {
                assert_eq!(w[1], w[0] + 1);
            }
            for &s in slots.iter() {
                assert!(h * seq_len <= s && s < (h + 1) * seq_len);
                assert!(s <= h * seq_len + pos);
            }
        }
    }
}

#[test]
fn row_chunks_cover_without_overlap() {
    let cs = row_chunks(10, 3);
    assert_eq!(cs, vec![(0, 4), (4, 8), (8, 10)]);
    let cs = row_chunks(5, 8);
    assert_eq!(cs, vec![(0, 1), (1, 2), (2, 3), (3, 4), (4, 5)]);
    let cs = row_chunks(7, 1);
    assert_eq!(cs, vec![(0, 7)]);
    assert_eq!(row_chunks(0, 4), vec![]);
}

#[test]
fn pool_size_is_the_smaller_count() {
    assert_eq!(pool_size(3, 5), 3);
    assert_eq!(pool_size(5, 3), 3);
    assert_eq!(pool_size(2, 2), 2);
    assert_eq!(pool_size(1, usize::MAX), 1);
}

#[test]
fn worker_pool_never_exceeds_heads() {
    assert_eq!(worker_pool_size(1), 1);
    let w = worker_pool_size(6);
    assert!(1 <= w && w <= 6);
    // the sizing of the cores-versus-heads decision is pool_size's, so the
    // drawn core count is the only free input
    assert_eq!(worker_pool_size(2), pool_size(worker_pool_size(usize::MAX), 2));
    // with plenty of heads the pool is the machine's core count, so two
    // sizings agree
    assert_eq!(worker_pool_size(usize::MAX), worker_pool_size(usize::MAX));
}
