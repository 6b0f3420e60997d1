use typer::control::{controller_step, evaluate, Config, ControlDecision, SessionOutcome, Verdict};
use typer::generate::{chunk_tests, permutate, random, GenError};
use typer::session::{KeyEvent, Keystroke, Session, StepOutcome, TestResult};
use typer::text::split_words;

fn chars(s: &str) -> Vec<char> {
    s.chars().collect()
}

fn string_of(v: &[char]) -> String {
    v.iter().collect()
}

fn result_with(keys: Vec<(u64, char)>, correct: usize, incorrect: usize) -> TestResult {
    TestResult {
        test: chars(""),
        keys: keys.into_iter().map(|(time, ch)| Keystroke { time, ch }).collect(),
        correct,
        incorrect,
    }
}

/// Types every character of `target` in order, one key per millisecond.
fn type_through(target: &[char]) -> TestResult {
    let mut s = Session::new(target.to_vec());
    let mut t: u64 = 1;
    for &ch in target {
        let out = s.step(KeyEvent::Printable { time: t, ch });
        assert!(matches!(out, StepOutcome::Advanced { was_correct: true, .. }));
        t += 1;
    }
    assert_eq!(s.cursor, target.len());
    s.finish()
}

#[test]
fn empty_log_metrics_are_zero() {
    let r = result_with(vec![], 0, 0);
    assert_eq!(r.len(), 0);
    assert_eq!(r.cpm_centi(), 0);
    assert_eq!(r.wpm_centi(), 0);
    assert_eq!(r.accuracy_centi(), 0);
}

#[test]
fn counters_sum_to_log_length() {
    let target = chars("ab");
    let mut s = Session::new(target);
    s.step(KeyEvent::Printable { time: 1, ch: 'x' });
    s.step(KeyEvent::Backspace);
    s.step(KeyEvent::Printable { time: 2, ch: 'a' });
    s.step(KeyEvent::Printable { time: 3, ch: 'b' });
    let r = s.finish();
    assert_eq!(r.correct + r.incorrect, r.keys.len());
    assert_eq!(r.keys.len(), 3);
    assert_eq!(r.correct, 2);
    assert_eq!(r.incorrect, 1);
}

#[test]
fn backspace_changes_only_the_cursor() {
    let mut s = Session::new(chars("abc"));
    s.step(KeyEvent::Printable { time: 1, ch: 'a' });
    s.step(KeyEvent::Printable { time: 2, ch: 'z' });
    assert_eq!(s.cursor, 2);
    let (c0, i0, k0) = (s.correct, s.incorrect, s.keys.len());
    let out = s.step(KeyEvent::Backspace);
    assert!(matches!(out, StepOutcome::Erased { index: 1 }));
    assert_eq!(s.cursor, 1);
    assert_eq!((s.correct, s.incorrect, s.keys.len()), (c0, i0, k0));
    s.step(KeyEvent::Backspace);
    assert_eq!(s.cursor, 0);
    let out = s.step(KeyEvent::Backspace);
    assert!(matches!(out, StepOutcome::Ignored));
    assert_eq!(s.cursor, 0);
    assert_eq!((s.correct, s.incorrect, s.keys.len()), (c0, i0, k0));
}

#[test]
fn ignored_keys_change_nothing() {
    let mut s = Session::new(chars("ab"));
    let out = s.step(KeyEvent::Other);
    assert!(matches!(out, StepOutcome::Ignored));
    assert_eq!(s.cursor, 0);
    assert_eq!(s.keys.len(), 0);
    let out = s.step(KeyEvent::Cancel);
    assert!(matches!(out, StepOutcome::Cancelled));
    assert_eq!(s.cursor, 0);
    assert_eq!(s.keys.len(), 0);
}

#[test]
fn metrics_exact_values() {
    // 10 keystrokes over 4000 ms: cpm = 10 * 60000 / 4000 = 150.00,
    // wpm = 30.00; 8 of 10 correct: accuracy = 80.00%.
    let mut keys: Vec<(u64, char)> = (0..10u64).map(|i| (i * 400, 'a')).collect();
    keys[9].0 = 4000;
    let r = result_with(keys, 8, 2);
    assert_eq!(r.len(), 4000);
    assert_eq!(r.cpm_centi(), 15000);
    assert_eq!(r.wpm_centi(), 3000);
    assert_eq!(r.accuracy_centi(), 8000);
}

#[test]
fn wpm_is_cpm_over_five() {
    let r = result_with(vec![(0, 'a'), (60000, 'b')], 2, 0);
    assert_eq!(r.cpm_centi(), 200);
    assert_eq!(r.wpm_centi(), 40);
}

#[test]
fn single_key_has_zero_elapsed_and_speed() {
    let r = result_with(vec![(500, 'a')], 1, 0);
    assert_eq!(r.len(), 0);
    assert_eq!(r.cpm_centi(), 0);
    assert_eq!(r.wpm_centi(), 0);
    assert_eq!(r.accuracy_centi(), 10000);
}

#[test]
fn random_returns_n_distinct_set_words() {
    let words: Vec<Vec<char>> = ["cat", "dog", "fish", "bird"].iter().map(|w| chars(w)).collect();
    let set: Vec<String> = words.iter().map(|w| string_of(w)).collect();
    for _ in 0..20 {
        let t = random(&words, 2).unwrap();
        let s = string_of(&t);
        let picked: Vec<&str> = s.split(' ').collect();
        assert_eq!(picked.len(), 2);
        assert_ne!(picked[0], picked[1]);
        assert!(picked.iter().all(|p| set.iter().any(|w| w == p)));
    }
}

#[test]
fn random_with_all_words_uses_each_once() {
    let words: Vec<Vec<char>> = ["cat", "dog", "fish"].iter().map(|w| chars(w)).collect();
    let t = random(&words, 3).unwrap();
    let s = string_of(&t);
    let mut picked: Vec<&str> = s.split(' ').collect();
    picked.sort();
    assert_eq!(picked, vec!["cat", "dog", "fish"]);
}

#[test]
fn random_with_too_many_words_fails_fast() {
    let words: Vec<Vec<char>> = ["cat", "dog", "fish", "bird"].iter().map(|w| chars(w)).collect();
    assert_eq!(random(&words, 5), Err(GenError::NotEnoughWords));
    assert!(random(&words, 4).is_ok());
}

#[test]
fn permutation_chunk_count_and_coverage() {
    let words: Vec<Vec<char>> = ["one", "two", "three", "four", "five"]
        .iter()
        .map(|w| chars(w))
        .collect();
    let out = permutate(words, 2, 1);
    assert_eq!(out.len(), 3);
    let mut seen: Vec<String> = Vec::new();
    for t in &out {
        for w in string_of(t).split(' ') {
            seen.push(w.to_string());
        }
    }
    seen.sort();
    assert_eq!(seen, vec!["five", "four", "one", "three", "two"]);
}

#[test]
fn permutation_repeats_each_chunk_phrase() {
    // Deterministic chunking: no shuffle involved.
    let words: Vec<Vec<char>> = ["a", "b", "c"].iter().map(|w| chars(w)).collect();
    let out = chunk_tests(&words, 2, 3);
    let out: Vec<String> = out.iter().map(|t| string_of(t)).collect();
    assert_eq!(out, vec!["a b a b a b".to_string(), "c c c".to_string()]);
}

#[test]
fn permutation_single_repetition_is_the_phrase() {
    let words: Vec<Vec<char>> = ["x", "y"].iter().map(|w| chars(w)).collect();
    let out = chunk_tests(&words, 2, 1);
    let out: Vec<String> = out.iter().map(|t| string_of(t)).collect();
    assert_eq!(out, vec!["x y".to_string()]);
}

#[test]
fn threshold_gating_retries_and_passes() {
    // wpm = 30.00, accuracy = 80.00%
    let mut keys: Vec<(u64, char)> = (0..10u64).map(|i| (i * 400, 'a')).collect();
    keys[9].0 = 4000;
    let r = result_with(keys, 8, 2);
    assert_eq!(r.wpm_centi(), 3000);
    assert_eq!(r.accuracy_centi(), 8000);

    let gate_wpm = Config { min_wpm_centi: Some(4000), min_accuracy_centi: None };
    assert!(matches!(evaluate(&r, &gate_wpm), Verdict::Retry));

    let gate_acc = Config { min_wpm_centi: None, min_accuracy_centi: Some(7000) };
    assert!(matches!(evaluate(&r, &gate_acc), Verdict::Passed));

    let d = controller_step(&gate_wpm, SessionOutcome::Completed(r));
    assert!(matches!(d, ControlDecision::Rerun(_)));
}

#[test]
fn unset_thresholds_finish_after_one_run() {
    let r = result_with(vec![(0, 'a'), (100, 'b')], 1, 1);
    let open_gate = Config { min_wpm_centi: None, min_accuracy_centi: None };
    assert!(matches!(evaluate(&r, &open_gate), Verdict::Passed));
    let d = controller_step(&open_gate, SessionOutcome::Completed(r));
    assert!(matches!(d, ControlDecision::Finish(_)));
}

#[test]
fn rerun_keeps_the_same_target_text() {
    let target = chars("cat dog");
    let r = type_through(&target);
    let gate = Config { min_wpm_centi: Some(u128::MAX), min_accuracy_centi: None };
    match controller_step(&gate, SessionOutcome::Completed(r)) {
        ControlDecision::Rerun(again) => assert_eq!(string_of(&again.test), "cat dog"),
        _ => panic!("a missed minimum must rerun"),
    }
}

#[test]
fn cancellation_aborts_without_metrics() {
    let gate = Config { min_wpm_centi: Some(4000), min_accuracy_centi: Some(9000) };
    let d = controller_step(&gate, SessionOutcome::Cancelled);
    assert!(matches!(d, ControlDecision::Abort));
    let open_gate = Config { min_wpm_centi: None, min_accuracy_centi: None };
    let d = controller_step(&open_gate, SessionOutcome::Cancelled);
    assert!(matches!(d, ControlDecision::Abort));
}

#[test]
fn split_words_keeps_nonempty_lines_in_order() {
    let input = chars("cat\ndog\n\nfish\n");
    let words = split_words(&input);
    let words: Vec<String> = words.iter().map(|w| string_of(w)).collect();
    assert_eq!(words, vec!["cat".to_string(), "dog".to_string(), "fish".to_string()]);
}

#[test]
fn split_words_takes_an_unterminated_last_line() {
    let input = chars("cat\ndog");
    let words = split_words(&input);
    let words: Vec<String> = words.iter().map(|w| string_of(w)).collect();
    assert_eq!(words, vec!["cat".to_string(), "dog".to_string()]);
}

#[test]
fn split_words_of_blank_input_is_empty() {
    assert_eq!(split_words(&chars("")).len(), 0);
    assert_eq!(split_words(&chars("\n\n\n")).len(), 0);
}

#[test]
fn end_to_end_random_perfect_run() {
    let words: Vec<Vec<char>> = ["cat", "dog", "fish", "bird"].iter().map(|w| chars(w)).collect();
    let target = random(&words, 2).unwrap();
    let r = type_through(&target);
    assert_eq!(r.accuracy_centi(), 10000);
    assert_eq!(r.keys.len(), target.len());
    // one key per millisecond starting at 1
    assert_eq!(r.len(), (target.len() - 1) as u64);
    let open_gate = Config { min_wpm_centi: None, min_accuracy_centi: None };
    let d = controller_step(&open_gate, SessionOutcome::Completed(r));
    assert!(matches!(d, ControlDecision::Finish(_)));
}

#[test]
fn end_to_end_permutation_session_count() {
    let words: Vec<Vec<char>> = ["one", "two", "three", "four", "five"]
        .iter()
        .map(|w| chars(w))
        .collect();
    let out = permutate(words, 2, 1);
    assert_eq!(out.len(), 3);
    for target in &out {
        let r = type_through(target);
        assert_eq!(r.accuracy_centi(), 10000);
    }
}

#[test]
fn mistyped_character_still_advances() {
    let mut s = Session::new(chars("ab"));
    let out = s.step(KeyEvent::Printable { time: 1, ch: 'z' });
    assert!(matches!(out, StepOutcome::Advanced { was_correct: false, done: false }));
    assert_eq!(s.cursor, 1);
    assert_eq!(s.incorrect, 1);
    let out = s.step(KeyEvent::Printable { time: 2, ch: 'b' });
    assert!(matches!(out, StepOutcome::Advanced { was_correct: true, done: true }));
    let r = s.finish();
    assert_eq!(r.correct, 1);
    assert_eq!(r.incorrect, 1);
}
