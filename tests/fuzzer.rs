use libafl::corpus::{InMemoryCorpus, Testcase};
use libafl::feedbacks::{crash_feedback, timeout_feedback, ExitKind, MapFeedbackState, MaxMapFeedback};
use libafl::fuzzer::{
    evaluate_execution, top_rated, ExecuteInputResult, IndexesLenTimeMinimizerCorpusScheduler,
    QueueCorpusScheduler,
};
use libafl::inputs::BytesInput;
use libafl::mutations::{BitFlipMutator, Mutator};
use libafl::scheduled::{AnyMutator, StdScheduledMutator};
use libafl::rands::StdRand;
use libafl::state::StdState;

fn state(map_len: usize) -> StdState {
    StdState::new(StdRand::with_seed(1), InMemoryCorpus::new(), InMemoryCorpus::new(), MapFeedbackState::new(map_len))
}

#[test]
fn max_map_feedback_keeps_maxima() {
    let mut st = MapFeedbackState::new(4);
    let mut fb = MaxMapFeedback::new(false);
    assert!(fb.is_interesting(&mut st, &[0, 3, 0, 1]));
    assert_eq!(fb.novelties, vec![1, 3]);
    assert!(!fb.is_interesting(&mut st, &[0, 2, 0, 1]));
    assert!(fb.is_interesting(&mut st, &[5, 1, 0, 0]));
    assert_eq!(st.history_map, vec![5, 3, 0, 1]);
    assert!(!fb.is_interesting(&mut st, &[0, 0, 0, 0]));
    assert_eq!(st.history_map, vec![5, 3, 0, 1]);
}

#[test]
fn indexes_mode_looks_at_first_hits() {
    let mut st = MapFeedbackState::new(3);
    let mut fb = MaxMapFeedback::new(true);
    assert!(fb.is_interesting(&mut st, &[1, 0, 0]));
    assert!(!fb.is_interesting(&mut st, &[9, 0, 0]));
    assert_eq!(st.history_map, vec![9, 0, 0]);
    assert!(fb.is_interesting(&mut st, &[0, 0, 2]));
}

#[test]
fn objectives() {
    assert!(crash_feedback(ExitKind::Crash));
    assert!(!crash_feedback(ExitKind::Timeout));
    assert!(timeout_feedback(ExitKind::Timeout));
    assert!(!timeout_feedback(ExitKind::Normal));
}

#[test]
fn evaluation_routes_inputs() {
    let mut st = state(2);
    let mut fb = MaxMapFeedback::new(false);
    let r = evaluate_execution(&mut st, &mut fb, BytesInput::new(vec![1]), &[1, 0], ExitKind::Normal, 10);
    assert_eq!(r, (ExecuteInputResult::Corpus, 0));
    let r = evaluate_execution(&mut st, &mut fb, BytesInput::new(vec![2]), &[1, 0], ExitKind::Normal, 10);
    assert_eq!(r.0, ExecuteInputResult::Discarded);
    let r = evaluate_execution(&mut st, &mut fb, BytesInput::new(vec![3]), &[0, 1], ExitKind::Crash, 10);
    assert_eq!(r, (ExecuteInputResult::Solution, 0));
    assert_eq!(st.executions, 3);
    assert_eq!(st.corpus.count(), 1);
    assert_eq!(st.solutions.count(), 1);
    assert_eq!(st.feedback_states.history_map, vec![1, 1]);
    assert_eq!(st.corpus.get(0).unwrap().exec_time_ns, Some(10));
}

#[test]
fn received_input_kept_only_if_new_locally() {
    let mut worker2 = state(2);
    let mut fb = MaxMapFeedback::new(false);
    evaluate_execution(&mut worker2, &mut fb, BytesInput::new(vec![0]), &[0, 4], ExitKind::Normal, 1);
    let shared = BytesInput::new(vec![7, 7]);
    let r = evaluate_execution(&mut worker2, &mut fb, shared.clone(), &[0, 4], ExitKind::Normal, 1);
    assert_eq!(r.0, ExecuteInputResult::Discarded);
    let r = evaluate_execution(&mut worker2, &mut fb, shared, &[1, 4], ExitKind::Normal, 1);
    assert_eq!(r.0, ExecuteInputResult::Corpus);
}

#[test]
fn queue_scheduler_cycles() {
    let mut st = state(0);
    let sched = QueueCorpusScheduler::new();
    assert!(sched.next(&mut st).is_err());
    for i in 0..3u8 {
        st.corpus.add(Testcase::new(BytesInput::new(vec![i])));
    }
    assert_eq!(sched.next(&mut st).unwrap(), 0);
    assert_eq!(sched.next(&mut st).unwrap(), 1);
    assert_eq!(sched.next(&mut st).unwrap(), 2);
    assert_eq!(sched.next(&mut st).unwrap(), 0);
    assert_eq!(st.corpus.current(), Some(0));
}

#[test]
fn corpus_indices_are_stable() {
    let mut c = InMemoryCorpus::new();
    let a = c.add(Testcase::new(BytesInput::new(vec![1])));
    let b = c.add(Testcase::new(BytesInput::new(vec![2])));
    assert_eq!((a, b), (0, 1));
    c.remove(0).unwrap();
    assert_eq!(c.count(), 2);
    assert!(matches!(c.get(0), Err(libafl::error::Error::KeyNotFound(_))));
    assert_eq!(c.get(1).unwrap().input.bytes, vec![2]);
    assert!(matches!(c.set_current(0), Err(libafl::error::Error::IllegalState(_))));
    let old = c.replace(1, Testcase::new(BytesInput::new(vec![3]))).unwrap();
    assert_eq!(old.input.bytes, vec![2]);
    assert_eq!(c.add(Testcase::new(BytesInput::new(vec![4]))), 2);
}

#[test]
fn bit_flips_reach_the_flagged_byte() {
    let mut st = state(1);
    st.corpus.add(Testcase::new(BytesInput::new(b"A".to_vec())));
    st.rand = StdRand::with_seed(1337);
    let mut fb = MaxMapFeedback::new(false);
    let sched = QueueCorpusScheduler::new();
    let mut havoc = StdScheduledMutator::new(vec![AnyMutator::BitFlip(BitFlipMutator::new())]);
    let mut found_at = None;
    for iteration in 0..10_000 {
        let idx = sched.next(&mut st).unwrap();
        let mut input = st.corpus.get(idx).unwrap().input.clone();
        havoc.mutate(&mut st, &mut input, 0).unwrap();
        let map = [if input.bytes[0] == 0x42 { 1u8 } else { 0u8 }];
        let (res, _) = evaluate_execution(&mut st, &mut fb, input, &map, ExitKind::Normal, 1);
        if res == ExecuteInputResult::Corpus {
            found_at = Some(iteration);
            break;
        }
    }
    let at = found_at.expect("never found");
    assert!(at < 2000);
    assert_eq!(st.corpus.get(1).unwrap().input.bytes[0], 0x42);
}

#[test]
fn minimizer_favors_cheapest_entries() {
    let mut st = state(3);
    let mut fb = MaxMapFeedback::new(false);
    evaluate_execution(&mut st, &mut fb, BytesInput::new(vec![1; 10]), &[1, 0, 0], ExitKind::Normal, 5);
    evaluate_execution(&mut st, &mut fb, BytesInput::new(vec![2; 2]), &[2, 1, 0], ExitKind::Normal, 5);
    evaluate_execution(&mut st, &mut fb, BytesInput::new(vec![3; 4]), &[0, 0, 1], ExitKind::Normal, 5);
    assert_eq!(st.corpus.count(), 3);
    assert_eq!(st.corpus.get(1).unwrap().indexes, vec![0, 1]);
    let top = top_rated(&st.corpus, 3);
    assert_eq!(top, vec![Some(1), Some(1), Some(2)]);
    let mut sched = IndexesLenTimeMinimizerCorpusScheduler::new(3);
    sched.update_favored(&st.corpus);
    assert_eq!(sched.favored, vec![false, true, true]);
    let mut picks = [0usize; 3];
    for _ in 0..200 {
        picks[sched.next(&mut st).unwrap()] += 1;
    }
    assert!(picks[1] + picks[2] > 150);
    st.corpus.add(Testcase::new(BytesInput::new(vec![9])));
    sched.next(&mut st).unwrap();
    assert_eq!(sched.favored.len(), 4);
}
