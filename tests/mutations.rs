use libafl::corpus::{InMemoryCorpus, Testcase};
use libafl::feedbacks::MapFeedbackState;
use libafl::inputs::BytesInput;
use libafl::mutations::{
    buffer_copy, buffer_self_copy, buffer_set, locate_diffs, BitFlipMutator, ByteAddMutator,
    ByteDecMutator, ByteInterestingMutator, DwordAddMutator, DwordInterestingMutator,
    QwordAddMutator, WordAddMutator, WordInterestingMutator,
    ByteFlipMutator, ByteIncMutator, ByteNegMutator, ByteRandMutator, BytesCopyMutator,
    BytesDeleteMutator, BytesExpandMutator, BytesInsertCopyMutator, BytesInsertMutator,
    BytesRandInsertMutator, BytesRandSetMutator, BytesSetMutator, BytesSwapMutator,
    CrossoverInsertMutator, CrossoverReplaceMutator, MutationResult, Mutator, SpliceMutator,
};
use libafl::rands::StdRand;
use libafl::scheduled::{havoc_mutations, tokens_mutations, StdScheduledMutator};
use libafl::tokens::Tokens;
use libafl::state::StdState;

fn test_mutations() -> Vec<Box<dyn Mutator>> {
    vec![
        Box::new(BitFlipMutator::new()),
        Box::new(ByteFlipMutator::new()),
        Box::new(ByteIncMutator::new()),
        Box::new(ByteDecMutator::new()),
        Box::new(ByteNegMutator::new()),
        Box::new(ByteRandMutator::new()),
        Box::new(ByteAddMutator::new()),
        Box::new(WordAddMutator::new()),
        Box::new(DwordAddMutator::new()),
        Box::new(QwordAddMutator::new()),
        Box::new(ByteInterestingMutator::new()),
        Box::new(WordInterestingMutator::new()),
        Box::new(DwordInterestingMutator::new()),
        Box::new(BytesDeleteMutator::new()),
        Box::new(BytesDeleteMutator::new()),
        Box::new(BytesDeleteMutator::new()),
        Box::new(BytesDeleteMutator::new()),
        Box::new(BytesExpandMutator::new()),
        Box::new(BytesInsertMutator::new()),
        Box::new(BytesRandInsertMutator::new()),
        Box::new(BytesSetMutator::new()),
        Box::new(BytesRandSetMutator::new()),
        Box::new(BytesCopyMutator::new()),
        Box::new(BytesSwapMutator::new()),
    ]
}

fn state_with(corpus_inputs: Vec<Vec<u8>>, seed: u64) -> StdState {
    let mut corpus = InMemoryCorpus::new();
    for i in corpus_inputs {
        corpus.add(Testcase::new(BytesInput::new(i)));
    }
    StdState::new(StdRand::with_seed(seed), corpus, InMemoryCorpus::new(), MapFeedbackState::new(0))
}

#[test]
fn test_mutators() {
    let mut inputs = vec![
        BytesInput::new(vec![0x13, 0x37]),
        BytesInput::new(vec![0xFF; 2048]),
        BytesInput::new(vec![]),
        BytesInput::new(vec![0xFF; 50000]),
        BytesInput::new(vec![0x0]),
        BytesInput::new(vec![]),
        BytesInput::new(vec![1; 4]),
    ];

    let mut state = state_with(vec![vec![0x42; 0x1337]], 1337);

    let mut mutations = test_mutations();
    for _ in 0..2 {
        let mut new_testcases = vec![];
        for idx in 0..mutations.len() {
            for input in &inputs {
                let mut mutant = input.clone();
                match mutations[idx].mutate(&mut state, &mut mutant, 0).unwrap() {
                    MutationResult::Mutated => new_testcases.push(mutant),
                    MutationResult::Skipped => (),
                };
            }
        }
        inputs.append(&mut new_testcases);
    }
}

#[test]
fn mutators_respect_max_size_and_skip_unchanged() {
    let mut state = state_with(vec![vec![7u8; 40], vec![9u8; 3]], 7);
    state.max_size = 32;
    let mut mutations = test_mutations();
    mutations.push(Box::new(BytesInsertCopyMutator::new()));
    mutations.push(Box::new(CrossoverInsertMutator::new()));
    mutations.push(Box::new(CrossoverReplaceMutator::new()));
    mutations.push(Box::new(SpliceMutator::new()));
    for round in 0..200usize {
        for m in mutations.iter_mut() {
            let original = BytesInput::new(vec![(round % 251) as u8; round % 33]);
            let mut input = original.clone();
            let r = m.mutate(&mut state, &mut input, 0).unwrap();
            assert!(input.bytes.len() <= 32);
            if r == MutationResult::Skipped {
                assert_eq!(input.bytes, original.bytes);
            }
        }
    }
}

#[test]
fn bit_flip_changes_one_bit() {
    let mut state = state_with(vec![], 1);
    let mut input = BytesInput::new(vec![0u8; 8]);
    let r = BitFlipMutator::new().mutate(&mut state, &mut input, 0).unwrap();
    assert_eq!(r, MutationResult::Mutated);
    let ones: u32 = input.bytes.iter().map(|b| b.count_ones()).sum();
    assert_eq!(ones, 1);
    let mut empty = BytesInput::new(vec![]);
    assert_eq!(BitFlipMutator::new().mutate(&mut state, &mut empty, 0).unwrap(), MutationResult::Skipped);
}

#[test]
fn byte_flip_and_neg_invert_a_byte() {
    let mut state = state_with(vec![], 3);
    let mut input = BytesInput::new(vec![0x0f]);
    ByteFlipMutator::new().mutate(&mut state, &mut input, 0).unwrap();
    assert_eq!(input.bytes, vec![0xf0]);
    ByteNegMutator::new().mutate(&mut state, &mut input, 0).unwrap();
    assert_eq!(input.bytes, vec![0x0f]);
}

#[test]
fn byte_inc_and_dec_wrap() {
    let mut state = state_with(vec![], 3);
    let mut input = BytesInput::new(vec![0xff]);
    ByteIncMutator::new().mutate(&mut state, &mut input, 0).unwrap();
    assert_eq!(input.bytes, vec![0x00]);
    ByteDecMutator::new().mutate(&mut state, &mut input, 0).unwrap();
    assert_eq!(input.bytes, vec![0xff]);
}

#[test]
fn bytes_delete_skips_short_inputs() {
    let mut state = state_with(vec![], 5);
    let mut input = BytesInput::new(vec![1, 2]);
    assert_eq!(BytesDeleteMutator::new().mutate(&mut state, &mut input, 0).unwrap(), MutationResult::Skipped);
    assert_eq!(input.bytes, vec![1, 2]);
}

#[test]
fn bytes_expand_inserts_zeros() {
    let mut state = state_with(vec![], 11);
    let mut input = BytesInput::new(vec![5u8; 4]);
    let r = BytesExpandMutator::new().mutate(&mut state, &mut input, 0).unwrap();
    assert_eq!(r, MutationResult::Mutated);
    let zeros = input.bytes.iter().filter(|b| **b == 0).count();
    assert!(zeros >= 1 && zeros <= 16);
    assert_eq!(input.bytes.len(), 4 + zeros);
}

#[test]
fn bytes_expand_clamps_to_max_size() {
    let mut state = state_with(vec![], 11);
    state.max_size = 5;
    let mut input = BytesInput::new(vec![5u8; 4]);
    let r = BytesExpandMutator::new().mutate(&mut state, &mut input, 0).unwrap();
    assert_eq!(r, MutationResult::Mutated);
    assert_eq!(input.bytes.len(), 5);
    let mut full = BytesInput::new(vec![5u8; 5]);
    assert_eq!(BytesExpandMutator::new().mutate(&mut state, &mut full, 0).unwrap(), MutationResult::Skipped);
}

#[test]
fn crossover_insert_skips_current_entry() {
    let mut state = state_with(vec![vec![1, 2, 3, 4]], 9);
    state.corpus.set_current(0).unwrap();
    let mut input = BytesInput::new(vec![9, 9, 9]);
    let r = CrossoverInsertMutator::new().mutate(&mut state, &mut input, 0).unwrap();
    assert_eq!(r, MutationResult::Skipped);
    assert_eq!(input.bytes, vec![9, 9, 9]);
}

#[test]
fn crossover_insert_takes_bytes_of_other_entry() {
    let mut state = state_with(vec![vec![1, 2, 3, 4]], 9);
    let mut input = BytesInput::new(vec![9, 9, 9]);
    let r = CrossoverInsertMutator::new().mutate(&mut state, &mut input, 0).unwrap();
    assert_eq!(r, MutationResult::Mutated);
    assert!(input.bytes.len() > 3);
    let inserted: Vec<u8> = input.bytes.iter().copied().filter(|b| *b != 9).collect();
    assert!(!inserted.is_empty());
    assert!([1u8, 2, 3, 4].windows(inserted.len()).any(|w| w == inserted.as_slice()));
}

#[test]
fn crossover_on_empty_corpus_skips() {
    let mut state = state_with(vec![], 9);
    let mut input = BytesInput::new(vec![9, 9, 9]);
    assert_eq!(CrossoverReplaceMutator::new().mutate(&mut state, &mut input, 0).unwrap(), MutationResult::Skipped);
    assert_eq!(SpliceMutator::new().mutate(&mut state, &mut input, 0).unwrap(), MutationResult::Skipped);
}

#[test]
fn crossover_on_removed_entry_reports_key_not_found() {
    let mut state = state_with(vec![vec![1, 2, 3]], 9);
    state.corpus.remove(0).unwrap();
    let mut input = BytesInput::new(vec![9, 9, 9]);
    let r = CrossoverInsertMutator::new().mutate(&mut state, &mut input, 0);
    assert!(matches!(r, Err(libafl::error::Error::KeyNotFound(_))));
    assert_eq!(input.bytes, vec![9, 9, 9]);
}

#[test]
fn splice_with_a_single_difference_skips() {
    let mut state = state_with(vec![vec![0x00, 0x01, 0x02, 0x03], vec![0x00, 0xFF, 0x02, 0x03]], 1);
    state.corpus.set_current(0).unwrap();
    let mut input = BytesInput::new(vec![0x00, 0x01, 0x02, 0x03]);
    let r = SpliceMutator::new().mutate(&mut state, &mut input, 0).unwrap();
    assert_eq!(r, MutationResult::Skipped);
    assert_eq!(input.bytes[0], 0x00);
    assert_eq!(&input.bytes[2..], &[0x02, 0x03]);
}

#[test]
fn splice_joins_head_and_other_tail() {
    let mut state = state_with(vec![vec![0, 0, 0, 0, 0], vec![0, 1, 1, 0, 7, 8]], 4);
    state.corpus.set_current(0).unwrap();
    let mut mutated = false;
    for _ in 0..8 {
        let mut input = BytesInput::new(vec![0, 0, 0, 0, 0]);
        let r = SpliceMutator::new().mutate(&mut state, &mut input, 0).unwrap();
        if r == MutationResult::Mutated {
            let other = [0u8, 1, 1, 0, 7, 8];
            let ok = (2..=4).any(|s| {
                let mut expect = vec![0u8; s];
                expect.extend_from_slice(&other[s..]);
                expect == input.bytes
            });
            assert!(ok, "unexpected splice {:?}", input.bytes);
            mutated = true;
        }
    }
    assert!(mutated);
}

#[test]
fn locate_diffs_cases() {
    assert_eq!(locate_diffs(&[1, 2, 3], &[1, 2, 3, 4]), (-1, -1));
    assert_eq!(locate_diffs(&[1, 2, 3], &[1, 9, 3]), (1, 1));
    assert_eq!(locate_diffs(&[1, 2, 3, 4, 5], &[0, 2, 3, 9]), (0, 3));
    assert_eq!(locate_diffs(&[], &[1]), (-1, -1));
}

#[test]
fn buffer_helpers_copy_and_set() {
    let mut v = vec![1, 2, 3, 4, 5];
    buffer_self_copy(&mut v, 0, 1, 3);
    assert_eq!(v, vec![1, 1, 2, 3, 5]);
    let mut w = vec![1, 2, 3, 4, 5];
    buffer_self_copy(&mut w, 2, 0, 3);
    assert_eq!(w, vec![3, 4, 5, 4, 5]);
    let mut d = vec![0u8; 4];
    buffer_copy(&mut d, &[7, 8, 9], 1, 2, 2);
    assert_eq!(d, vec![0, 0, 8, 9]);
    buffer_set(&mut d, 0, 3, 5);
    assert_eq!(d, vec![5, 5, 5, 9]);
    let mut e: Vec<u8> = vec![];
    buffer_self_copy(&mut e, 0, 0, 0);
    assert!(e.is_empty());
}

#[test]
fn same_seed_same_mutations() {
    let run = || {
        let mut state = state_with(vec![vec![3u8; 30]], 1337);
        let mut out = vec![];
        let mut mutations = test_mutations();
        let mut input = BytesInput::new(vec![0x41; 16]);
        for i in 0..100 {
            let k = i % mutations.len();
            mutations[k].mutate(&mut state, &mut input, 0).unwrap();
            out.push(input.bytes.clone());
        }
        out
    };
    assert_eq!(run(), run());
}

#[test]
fn rand_below_and_between_stay_in_range() {
    let mut r = StdRand::with_seed(42);
    for _ in 0..1000 {
        assert!(r.below(10) < 10);
        let v = r.between(5, 9);
        assert!((5..=9).contains(&v));
    }
    assert_eq!(r.below(0), 0);
    assert_eq!(r.below(1), 0);
    let mut a = StdRand::with_seed(7);
    let mut b = StdRand::with_seed(7);
    for _ in 0..50 {
        assert_eq!(a.next(), b.next());
    }
    let mut c = StdRand::with_seed(1);
    assert_eq!(c.next(), 1 ^ 0x12345);
}

#[test]
fn arithmetic_mutation_changes_one_window() {
    let mut state = state_with(vec![], 21);
    for _ in 0..50 {
        let mut input = BytesInput::new(vec![0x10, 0x20, 0x30]);
        let r = WordAddMutator::new().mutate(&mut state, &mut input, 0).unwrap();
        assert_eq!(r, MutationResult::Mutated);
        let changed: Vec<usize> = (0..3).filter(|i| input.bytes[*i] != [0x10, 0x20, 0x30][*i]).collect();
        assert!(!changed.is_empty() && changed.len() <= 2);
        let le0 = u16::from_le_bytes([0x10, 0x20]) as i64;
        let le1 = u16::from_le_bytes([0x20, 0x30]) as i64;
        let be0 = u16::from_be_bytes([0x10, 0x20]) as i64;
        let be1 = u16::from_be_bytes([0x20, 0x30]) as i64;
        let b = &input.bytes;
        let ok = (b[2] == 0x30 && [u16::from_le_bytes([b[0], b[1]]) as i64 - le0, u16::from_be_bytes([b[0], b[1]]) as i64 - be0].iter().any(|d| d.abs() >= 1 && d.abs() <= 35))
            || (b[0] == 0x10 && [u16::from_le_bytes([b[1], b[2]]) as i64 - le1, u16::from_be_bytes([b[1], b[2]]) as i64 - be1].iter().any(|d| d.abs() >= 1 && d.abs() <= 35));
        assert!(ok, "unexpected {:?}", b);
    }
    let mut short = BytesInput::new(vec![1, 2, 3]);
    assert_eq!(QwordAddMutator::new().mutate(&mut state, &mut short, 0).unwrap(), MutationResult::Skipped);
}

#[test]
fn byte_add_wraps() {
    let mut state = state_with(vec![], 2);
    let mut input = BytesInput::new(vec![0xff]);
    ByteAddMutator::new().mutate(&mut state, &mut input, 0).unwrap();
    let v = input.bytes[0] as i32;
    assert!(v <= 34 || v >= 0xff - 35);
}

#[test]
fn interesting_values_are_written() {
    let mut state = state_with(vec![], 8);
    for _ in 0..30 {
        let mut input = BytesInput::new(vec![0x55; 4]);
        ByteInterestingMutator::new().mutate(&mut state, &mut input, 0).unwrap();
        let vals: Vec<u8> = [-128i8, -1, 0, 1, 16, 32, 64, 100, 127].iter().map(|v| *v as u8).collect();
        assert!(input.bytes.iter().any(|b| vals.contains(b)));
        let mut w = BytesInput::new(vec![0x55; 2]);
        WordInterestingMutator::new().mutate(&mut state, &mut w, 0).unwrap();
        let le = i16::from_le_bytes([w.bytes[0], w.bytes[1]]);
        let be = i16::from_be_bytes([w.bytes[0], w.bytes[1]]);
        let table: [i16; 19] = [-128, -1, 0, 1, 16, 32, 64, 100, 127, -32768, -129, 128, 255, 256, 512, 1000, 1024, 4096, 32767];
        assert!(table.contains(&le) || table.contains(&be));
    }
    let mut short = BytesInput::new(vec![1]);
    assert_eq!(DwordInterestingMutator::new().mutate(&mut state, &mut short, 0).unwrap(), MutationResult::Skipped);
}

#[test]
fn scheduled_havoc_respects_max_size() {
    let mut state = state_with(vec![vec![1, 2, 3, 4, 5, 6], vec![9; 10]], 99);
    state.max_size = 64;
    state.metadata.tokens = Some(Tokens::new(vec![b"tok".to_vec()]));
    let mut all = havoc_mutations();
    all.extend(tokens_mutations());
    let mut havoc = StdScheduledMutator::new(all);
    let mut input = BytesInput::new(b"hello".to_vec());
    for _ in 0..200 {
        let before = input.bytes.clone();
        let r = havoc.mutate(&mut state, &mut input, 0).unwrap();
        assert!(input.bytes.len() <= 64);
        if r == MutationResult::Skipped {
            assert_eq!(input.bytes, before);
        }
    }
    let mut empty_list = StdScheduledMutator::new(vec![]);
    assert_eq!(empty_list.mutate(&mut state, &mut input, 0).unwrap(), MutationResult::Skipped);
}
