use sp1_prover::prover::SP1Prover;
use sp1_prover::shape::{WitnessKind, WitnessShape};
use sp1_prover::turn::TurnBasedSync;
use sp1_prover::types::committed_value_digest_bytes;

fn digest(seed: u32) -> [u32; 8] {
    let mut d = [0u32; 8];
    for (i, v) in d.iter_mut().enumerate() {
        *v = seed * 1000 + i as u32;
    }
    d
}

fn test_prover(cache_size: usize) -> SP1Prover {
    let allowed: Vec<[u32; 8]> = (0..4).map(digest).collect();
    SP1Prover::new(allowed, true, cache_size)
}

fn shape(count: u64) -> WitnessShape {
    WitnessShape {
        kind: WitnessKind::Core,
        proof_count: count,
        merkle_height: 3,
        is_complete: false,
    }
}

#[test]
fn second_request_hits_the_cache() {
    let mut prover = test_prover(4);
    let first = prover.recursion_program(&shape(1), 100);
    assert_eq!(first, 100);
    assert_eq!(prover.lift_programs_lru.misses, 1);
    // the same shape again: a hit, the same program handle, no new miss —
    // whatever program the caller would have built this time
    let second = prover.recursion_program(&shape(1), 200);
    assert_eq!(second, 100);
    assert_eq!(prover.lift_programs_lru.misses, 1);
    // a different shape misses and is cached on its own
    let other = prover.recursion_program(&shape(2), 300);
    assert_eq!(other, 300);
    assert_eq!(prover.lift_programs_lru.misses, 2);
}

#[test]
fn least_recently_used_shape_is_evicted() {
    let mut prover = test_prover(2);
    assert_eq!(prover.recursion_program(&shape(1), 100), 100);
    assert_eq!(prover.recursion_program(&shape(2), 200), 200);
    assert_eq!(prover.lift_programs_lru.misses, 2);
    // touching shape 1 makes shape 2 the least recently used
    assert_eq!(prover.recursion_program(&shape(1), 900), 100);
    assert_eq!(prover.lift_programs_lru.misses, 2);
    // a third shape evicts shape 2
    assert_eq!(prover.recursion_program(&shape(3), 300), 300);
    assert_eq!(prover.lift_programs_lru.misses, 3);
    assert_eq!(prover.recursion_program(&shape(2), 201), 201);
    assert_eq!(prover.lift_programs_lru.misses, 4);
    // re-inserting shape 2 in turn evicted shape 1, the least recently used
    assert_eq!(prover.recursion_program(&shape(1), 901), 901);
    assert_eq!(prover.lift_programs_lru.misses, 5);
    // shape 2 is still cached
    assert_eq!(prover.recursion_program(&shape(2), 999), 201);
    assert_eq!(prover.lift_programs_lru.misses, 5);
}

#[test]
fn shape_keys_are_distinct() {
    let mut keys = std::collections::BTreeSet::new();
    for kind in [WitnessKind::Core, WitnessKind::Deferred, WitnessKind::Compress] {
        for count in 0..4u64 {
            for height in 0..4u64 {
                for complete in [false, true] {
                    let s = WitnessShape {
                        kind,
                        proof_count: count,
                        merkle_height: height,
                        is_complete: complete,
                    };
                    assert!(keys.insert(s.encode()));
                }
            }
        }
    }
    assert_eq!(keys.len(), 3 * 4 * 4 * 2);
}

#[test]
fn join_map_answers_known_shapes() {
    let mut prover = test_prover(4);
    let s = shape(2);
    let key = s.encode();
    prover.insert_join_program(key, 777);
    assert_eq!(prover.compress_program(&s, 1), 777);
    // an unexpected shape falls back to the freshly built program
    assert_eq!(prover.compress_program(&shape(3), 555), 555);
}

#[test]
fn turns_advance_in_order() {
    let mut sync = TurnBasedSync::new();
    assert!(sync.is_turn(0));
    assert!(!sync.is_turn(1));
    sync.advance_turn();
    assert!(sync.is_turn(1));
    sync.advance_turn();
    assert!(sync.is_turn(2));
}

#[test]
fn digest_words_to_little_endian_bytes() {
    let words: [u32; 8] = [0x04030201, 0xA0B0C0D0, 0, 0xFFFFFFFF, 5, 6, 7, 0x01000000];
    let bytes = committed_value_digest_bytes(&words);
    assert_eq!(bytes.len(), 32);
    assert_eq!(&bytes[0..4], &[0x01, 0x02, 0x03, 0x04]);
    assert_eq!(&bytes[4..8], &[0xD0, 0xC0, 0xB0, 0xA0]);
    assert_eq!(&bytes[8..12], &[0, 0, 0, 0]);
    assert_eq!(&bytes[12..16], &[0xFF, 0xFF, 0xFF, 0xFF]);
    assert_eq!(&bytes[28..32], &[0, 0, 0, 0x01]);
}
