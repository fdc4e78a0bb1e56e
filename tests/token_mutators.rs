use libafl::corpus::InMemoryCorpus;
use libafl::feedbacks::MapFeedbackState;
use libafl::inputs::BytesInput;
use libafl::mutations::{MutationResult, Mutator};
use libafl::observers::{CmpValues, CmpValuesMetadata};
use libafl::rands::StdRand;
use libafl::state::StdState;
use libafl::token_mutations::{I2SRandReplace, TokenInsert, TokenReplace};
use libafl::tokens::Tokens;

fn state() -> StdState {
    StdState::new(StdRand::with_seed(5), InMemoryCorpus::new(), InMemoryCorpus::new(), MapFeedbackState::new(0))
}

fn replaced(st: &mut StdState, bytes: Vec<u8>) -> Vec<u8> {
    for _ in 0..64 {
        let mut input = BytesInput::new(bytes.clone());
        if I2SRandReplace::new().mutate(st, &mut input, 0).unwrap() == MutationResult::Mutated {
            return input.bytes;
        }
        assert_eq!(input.bytes, bytes);
    }
    panic!("no replacement happened");
}

fn with_cmps(list: Vec<CmpValues>) -> StdState {
    let mut st = state();
    st.metadata.cmp_values = Some(CmpValuesMetadata { list });
    st
}

#[test]
fn token_insert_without_tokens_skips() {
    let mut st = state();
    let mut input = BytesInput::new(vec![1, 2, 3]);
    assert_eq!(TokenInsert::new().mutate(&mut st, &mut input, 0).unwrap(), MutationResult::Skipped);
    st.metadata.tokens = Some(Tokens::new(vec![]));
    assert_eq!(TokenInsert::new().mutate(&mut st, &mut input, 0).unwrap(), MutationResult::Skipped);
    assert_eq!(input.bytes, vec![1, 2, 3]);
}

#[test]
fn token_insert_inserts_whole_token() {
    let mut st = state();
    st.metadata.tokens = Some(Tokens::new(vec![b"XYZ".to_vec()]));
    let mut input = BytesInput::new(vec![0, 0]);
    assert_eq!(TokenInsert::new().mutate(&mut st, &mut input, 0).unwrap(), MutationResult::Mutated);
    assert_eq!(input.bytes.len(), 5);
    assert!(input.bytes.windows(3).any(|w| w == b"XYZ"));
}

#[test]
fn token_insert_truncates_to_max_size() {
    let mut st = state();
    st.max_size = 4;
    st.metadata.tokens = Some(Tokens::new(vec![b"XYZ".to_vec()]));
    let mut input = BytesInput::new(vec![0, 0]);
    assert_eq!(TokenInsert::new().mutate(&mut st, &mut input, 0).unwrap(), MutationResult::Mutated);
    assert_eq!(input.bytes.len(), 4);
    assert!(input.bytes.windows(2).any(|w| w == b"XY"));
    let mut full = BytesInput::new(vec![0; 4]);
    assert_eq!(TokenInsert::new().mutate(&mut st, &mut full, 0).unwrap(), MutationResult::Skipped);
}

#[test]
fn token_replace_overwrites_in_place() {
    let mut st = state();
    st.metadata.tokens = Some(Tokens::new(vec![b"AB".to_vec()]));
    let mut input = BytesInput::new(vec![0; 6]);
    assert_eq!(TokenReplace::new().mutate(&mut st, &mut input, 0).unwrap(), MutationResult::Mutated);
    assert_eq!(input.bytes.len(), 6);
    let nonzero: Vec<u8> = input.bytes.iter().copied().filter(|b| *b != 0).collect();
    assert!(nonzero == b"AB".to_vec() || nonzero == b"A".to_vec());
    let mut empty = BytesInput::new(vec![]);
    assert_eq!(TokenReplace::new().mutate(&mut st, &mut empty, 0).unwrap(), MutationResult::Skipped);
}

#[test]
fn i2s_replaces_byte_operand() {
    let mut st = with_cmps(vec![CmpValues::U8((0x41, 0x42))]);
    assert_eq!(replaced(&mut st, vec![0x41]), vec![0x42]);
    assert_eq!(replaced(&mut st, vec![0x42]), vec![0x41]);
}

#[test]
fn i2s_keeps_byte_order() {
    let mut st = with_cmps(vec![CmpValues::U16((0x1234, 0xabcd))]);
    assert_eq!(replaced(&mut st, vec![0x34, 0x12]), vec![0xcd, 0xab]);
    assert_eq!(replaced(&mut st, vec![0x12, 0x34]), vec![0xab, 0xcd]);
    let mut st32 = with_cmps(vec![CmpValues::U32((0xdeadbeef, 1))]);
    assert_eq!(replaced(&mut st32, vec![0xef, 0xbe, 0xad, 0xde]), vec![1, 0, 0, 0]);
    let mut st64 = with_cmps(vec![CmpValues::U64((2, 0x0102030405060708))]);
    assert_eq!(replaced(&mut st64, vec![0, 0, 0, 0, 0, 0, 0, 2]), vec![1, 2, 3, 4, 5, 6, 7, 8]);
}

#[test]
fn i2s_replaces_byte_strings() {
    let mut st = with_cmps(vec![CmpValues::Bytes((b"MAGIC".to_vec(), b"HELLO".to_vec()))]);
    assert_eq!(replaced(&mut st, b"MAGIC".to_vec()), b"HELLO".to_vec());
}

#[test]
fn i2s_without_match_skips() {
    let mut st = with_cmps(vec![CmpValues::U16((0x1111, 0x2222))]);
    let mut input = BytesInput::new(vec![1, 2, 3, 4]);
    assert_eq!(I2SRandReplace::new().mutate(&mut st, &mut input, 0).unwrap(), MutationResult::Skipped);
    assert_eq!(input.bytes, vec![1, 2, 3, 4]);
    let mut none = state();
    assert_eq!(I2SRandReplace::new().mutate(&mut none, &mut input, 0).unwrap(), MutationResult::Skipped);
}
