use std::collections::VecDeque;

use word_aligner::corpus::{Corpus, LoadError};
use word_aligner::engine::Engine;
use word_aligner::language::Language;
use word_aligner::text::record_text;

fn engine_of(text: &str) -> Engine {
    Engine::new(Corpus::from_text(text).unwrap())
}

fn words(ws: &[&str]) -> VecDeque<String> {
    ws.iter().map(|w| w.to_string()).collect()
}

fn log_of(e: &Engine) -> Vec<String> {
    e.output_log().clone()
}

#[test]
fn end_to_end_example() {
    let mut e = engine_of("Hallo Welt\nHello World\n");
    assert_eq!(e.selection(Language::Source), &words(&["Hallo"]));
    assert_eq!(e.selection(Language::Target), &words(&["Hello"]));
    assert_eq!(e.working_line(Language::Source), &words(&["Welt"]));
    assert_eq!(e.working_line(Language::Target), &words(&["World"]));
    e.commit_line();
    assert_eq!(log_of(&e), vec!["Hallo |Hello \n".to_string()]);
    assert_eq!(e.selection(Language::Source), &words(&["Welt"]));
    assert_eq!(e.selection(Language::Target), &words(&["World"]));
    assert!(e.working_line(Language::Source).is_empty());
    assert!(e.working_line(Language::Target).is_empty());
}

#[test]
fn skip_record_is_a_bare_line_break() {
    let mut e = engine_of("a b\nc d\n");
    e.deselect_word(Language::Source);
    e.deselect_word(Language::Target);
    assert!(e.selection(Language::Source).is_empty());
    e.commit_line();
    assert_eq!(log_of(&e), vec!["\n".to_string()]);
    // the commit selected one new word per language
    assert_eq!(e.selection(Language::Source), &words(&["a"]));
    assert_eq!(e.selection(Language::Target), &words(&["c"]));
}

#[test]
fn moves_conserve_words_per_language() {
    let mut e = engine_of("eins zwei drei\none two\n");
    let total = |e: &Engine, l: Language| e.selection(l).len() + e.working_line(l).len();
    let (s0, t0) = (total(&e, Language::Source), total(&e, Language::Target));
    e.select_word(Language::Source);
    e.select_word(Language::Source);
    e.select_word(Language::Source);
    e.deselect_word(Language::Target);
    e.deselect_word(Language::Target);
    e.select_word(Language::Target);
    assert_eq!(total(&e, Language::Source), s0);
    assert_eq!(total(&e, Language::Target), t0);
    assert_eq!(e.selection(Language::Source), &words(&["eins", "zwei", "drei"]));
    assert!(e.working_line(Language::Source).is_empty());
    assert_eq!(e.selection(Language::Target), &words(&["one"]));
    assert_eq!(e.working_line(Language::Target), &words(&["two"]));
}

#[test]
fn select_and_deselect_on_empty_are_no_ops() {
    let mut e = engine_of("x\ny\n");
    e.select_word(Language::Source);
    assert_eq!(e.selection(Language::Source), &words(&["x"]));
    e.deselect_word(Language::Source);
    e.deselect_word(Language::Source);
    assert!(e.selection(Language::Source).is_empty());
    assert_eq!(e.working_line(Language::Source), &words(&["x"]));
}

#[test]
fn commit_then_undo_restores_log_and_words() {
    let mut e = engine_of("a b c\nd e\nf\ng\n");
    e.select_word(Language::Source);
    e.commit_line();
    assert_eq!(log_of(&e), vec!["a b |d \n".to_string()]);
    let before_log = log_of(&e);
    let sel_src: Vec<String> = e.selection(Language::Source).iter().cloned().collect();
    let work_src: Vec<String> = e.working_line(Language::Source).iter().cloned().collect();
    e.commit_line();
    assert_eq!(log_of(&e).len(), 2);
    e.undo_last_commit();
    assert_eq!(log_of(&e), before_log);
    let mut expected = sel_src.clone();
    expected.extend(work_src);
    let got: Vec<String> = e.working_line(Language::Source).iter().cloned().collect();
    assert_eq!(got, expected);
    assert!(e.selection(Language::Source).is_empty());
    assert!(e.selection(Language::Target).is_empty());
}

#[test]
fn undo_puts_snapshot_and_selection_back_in_order() {
    let mut e = engine_of("a b c d\nw x y z\n");
    e.select_word(Language::Source);
    e.commit_line();
    // snapshot: [a b] / [w]; selection: [c] / [x]
    e.undo_last_commit();
    assert_eq!(e.working_line(Language::Source), &words(&["a", "b", "c", "d"]));
    assert_eq!(e.working_line(Language::Target), &words(&["w", "x", "y", "z"]));
    assert!(log_of(&e).is_empty());
    // a second undo has nothing to take back
    e.undo_last_commit();
    assert_eq!(e.working_line(Language::Source), &words(&["a", "b", "c", "d"]));
    assert!(log_of(&e).is_empty());
}

#[test]
fn undo_with_nothing_to_undo_keeps_the_log() {
    let mut e = engine_of("a\nb\n");
    e.deselect_word(Language::Source);
    e.deselect_word(Language::Target);
    e.undo_last_commit();
    assert_eq!(e.working_line(Language::Source), &words(&["a"]));
    assert!(log_of(&e).is_empty());
}

#[test]
fn advance_brings_in_next_pair_when_both_lines_are_empty() {
    let mut e = engine_of("a\nb\nc d\ne\n");
    e.advance_line();
    // both working lines are empty, the selection is not: no seeding
    assert_eq!(e.working_line(Language::Source), &words(&["c", "d"]));
    assert_eq!(e.working_line(Language::Target), &words(&["e"]));
    assert_eq!(e.selection(Language::Source), &words(&["a"]));
    let (ps, pt) = e.pending_lines();
    assert_eq!(ps.len(), pt.len());
    assert!(ps.is_empty());
}

#[test]
fn advance_seeds_after_empty_selection() {
    let mut e = engine_of("a\nb\nc d\ne\n");
    e.commit_line();
    assert_eq!(log_of(&e), vec!["a |b \n".to_string()]);
    assert!(e.selection(Language::Source).is_empty());
    e.advance_line();
    assert_eq!(e.selection(Language::Source), &words(&["c"]));
    assert_eq!(e.selection(Language::Target), &words(&["e"]));
    assert_eq!(e.working_line(Language::Source), &words(&["d"]));
    assert!(e.working_line(Language::Target).is_empty());
}

#[test]
fn advance_keeps_pending_counts_equal() {
    let mut e = engine_of("1\n2\n3\n4\n5\n6\n");
    for _ in 0..5 {
        e.commit_line();
        e.advance_line();
        let (ps, pt) = e.pending_lines();
        assert_eq!(ps.len(), pt.len());
    }
}

#[test]
fn exhausted_corpus_advances_safely() {
    let mut e = engine_of("a\nb\n");
    e.commit_line();
    for _ in 0..10 {
        e.advance_line();
        assert!(e.working_line(Language::Source).is_empty());
        assert!(e.working_line(Language::Target).is_empty());
    }
    // the exhausted state seeds an empty placeholder word
    assert_eq!(e.selection(Language::Source), &words(&[""]));
    assert_eq!(e.selection(Language::Target), &words(&[""]));
}

#[test]
fn empty_text_gives_exhausted_engine() {
    let e = engine_of("");
    assert!(e.working_line(Language::Source).is_empty());
    assert_eq!(e.selection(Language::Source), &words(&[""]));
    assert!(log_of(&e).is_empty());
}

#[test]
fn odd_line_count_is_refused() {
    assert!(matches!(Corpus::from_text("a\nb\nc\n"), Err(LoadError::OddLineCount)));
    assert!(matches!(Corpus::from_text("only one line"), Err(LoadError::OddLineCount)));
}

#[test]
fn from_text_splits_lines_and_whitespace() {
    let c = Corpus::from_text("  eins\t zwei \r\none   two\n\nleer\n").unwrap();
    let (s, t) = c.into_lines();
    assert_eq!(s.len(), 2);
    assert_eq!(s[0], words(&["eins", "zwei"]));
    assert_eq!(t[0], words(&["one", "two"]));
    assert!(s[1].is_empty());
    assert_eq!(t[1], words(&["leer"]));
}

#[test]
fn from_word_lines_pairs_alternate_lines() {
    let mut lines = VecDeque::new();
    lines.push_back(words(&["a"]));
    lines.push_back(words(&["b"]));
    lines.push_back(words(&["c"]));
    lines.push_back(words(&[]));
    let (s, t) = Corpus::from_word_lines(lines.clone()).unwrap().into_lines();
    assert_eq!(s, VecDeque::from(vec![words(&["a"]), words(&["c"])]));
    assert_eq!(t, VecDeque::from(vec![words(&["b"]), words(&[])]));
    lines.pop_back();
    assert!(matches!(Corpus::from_word_lines(lines), Err(LoadError::OddLineCount)));
}

#[test]
fn remainder_puts_selection_back_in_front() {
    let mut e = engine_of("a b c\nd e\nf g\nh\n");
    e.select_word(Language::Source);
    assert_eq!(e.remainder_text(), "a b c \nd e \nf g \nh \n");
    e.commit_line();
    assert_eq!(e.remainder_text(), "c \ne \nf g \nh \n");
}

#[test]
fn remainder_of_exhausted_engine() {
    let mut e = engine_of("a\nb\n");
    e.commit_line();
    e.advance_line();
    assert_eq!(e.remainder_text(), " \n \n");
}

#[test]
fn selection_text_and_working_word() {
    let mut e = engine_of("a b c\nd\n");
    e.select_word(Language::Source);
    assert_eq!(e.selection_text(Language::Source), "a b ");
    assert_eq!(e.selection_text(Language::Target), "d ");
    assert_eq!(e.working_word(Language::Source, 0), "c");
    assert_eq!(e.working_word(Language::Source, 1), "---");
    assert_eq!(e.working_word(Language::Target, 0), "---");
}

#[test]
fn active_language_is_kept_by_commit() {
    let mut e = engine_of("a\nb\n");
    assert_eq!(e.active_language(), Language::Source);
    e.set_active_language(Language::Target);
    e.commit_line();
    assert_eq!(e.active_language(), Language::Target);
}

#[test]
fn record_text_formats_both_languages() {
    assert_eq!(record_text(&words(&["Hallo", "Welt"]), &words(&["Hello"])), "Hallo Welt |Hello \n");
    assert_eq!(record_text(&words(&[]), &words(&["x"])), "|x \n");
    assert_eq!(record_text(&words(&[]), &words(&[])), "\n");
}
