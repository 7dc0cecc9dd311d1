use typetest::app::count_correct;
use typetest::app::App;
use typetest::app::InputEvent;
use typetest::app::State;
use typetest::args::Args;

fn corpus_of(words: &[&str]) -> Vec<String> {
    words.iter().map(|w| w.to_string()).collect()
}

/// A session whose target text is known exactly: one word, one candidate.
fn single_word_session(word: &str) -> App {
    App::new(Args { words: 1 }, corpus_of(&[word]))
}

#[test]
fn new_session_is_fresh() {
    let app = single_word_session("ab");
    assert_eq!(app.state, State::Playing);
    assert!(app.typed.is_empty());
    assert!(!app.timer.is_started());
    assert_eq!(app.words(), "ab");
}

#[test]
fn typed_buffer_bounded_and_completion_exact() {
    let mut app = single_word_session("ab");
    assert!(!app.is_finished());
    app.submit_char('a', 0);
    assert!(!app.is_finished());
    assert_eq!(app.typed.len(), 1);
    app.submit_char('b', 10);
    assert!(app.is_finished());
    assert_eq!(app.typed.len(), 2);
    assert_eq!(app.state, State::Finished);
    // Further input dismisses the finish screen and appends nothing.
    app.submit_char('c', 20);
    assert_eq!(app.typed.len(), 2);
    assert!(app.typed.len() <= app.target.len());
}

#[test]
fn first_keystroke_starts_clock_and_completion_stops_it() {
    let mut app = single_word_session("ab");
    app.submit_char('a', 1000);
    assert!(app.timer.is_started());
    app.submit_char('b', 1500);
    assert_eq!(app.state, State::Finished);
    assert_eq!(app.time_ms(), 500);
    // The reported duration is the value fixed at completion.
    assert_eq!(app.time_ms(), 500);
}

#[test]
fn finished_session_exits_on_any_char() {
    let mut app = single_word_session("a");
    app.submit_char('a', 0);
    assert_eq!(app.state, State::Finished);
    app.submit_char('!', 1);
    assert_eq!(app.state, State::Exited);

    let mut app = single_word_session("a");
    app.submit_char('x', 0);
    assert_eq!(app.state, State::Finished);
    app.submit_char('z', 1);
    assert_eq!(app.state, State::Exited);
}

#[test]
fn exited_session_ignores_input() {
    let mut app = single_word_session("ab");
    app.exit();
    assert_eq!(app.state, State::Exited);
    app.submit_char('a', 0);
    assert_eq!(app.state, State::Exited);
    assert!(app.typed.is_empty());
    app.handle_key(InputEvent::Reset, 1);
    app.handle_key(InputEvent::Exit, 2);
    app.handle_key(InputEvent::Ignored, 3);
    assert_eq!(app.state, State::Exited);
    assert!(app.typed.is_empty());
}

#[test]
fn reset_twice_yields_fresh_sessions() {
    let corpus = corpus_of(&["one", "two", "three", "four"]);
    let mut app = App::new(Args { words: 2 }, corpus);
    app.submit_char('x', 100);
    app.submit_char('y', 200);
    assert!(app.timer.is_started());

    app.reset();
    assert_eq!(app.state, State::Playing);
    assert!(app.typed.is_empty());
    assert!(!app.timer.is_started());
    assert_eq!(app.words.len(), 2);

    app.reset();
    assert_eq!(app.state, State::Playing);
    assert!(app.typed.is_empty());
    assert!(!app.timer.is_started());
    assert_eq!(app.words.len(), 2);
}

#[test]
fn reset_regenerates_target_from_corpus() {
    let corpus = corpus_of(&["a", "bb", "ccc"]);
    let mut app = App::new(Args { words: 3 }, corpus.clone());
    app.submit_char('q', 0);
    app.reset();
    let text = app.words();
    let words: Vec<&str> = text.split(' ').collect();
    assert_eq!(words.len(), 3);
    for w in &corpus {
        assert_eq!(words.iter().filter(|s| **s == w.as_str()).count(), 1);
    }
}

#[test]
fn exact_typing_gives_full_accuracy() {
    let mut app = App::new(Args { words: 2 }, corpus_of(&["hello", "world"]));
    let text = app.words();
    let mut t: u128 = 0;
    for c in text.chars() {
        app.submit_char(c, t);
        t += 7;
    }
    assert_eq!(app.state, State::Finished);
    for i in 0..app.typed.len() {
        assert!(app.is_correct_at(i));
    }
    let (num, den) = app.accuracy_parts();
    assert_eq!(num, den);
    assert_eq!(den, "hello world".len());
    let accuracy = 100.0 * num as f64 / den as f64;
    assert_eq!(accuracy, 100.0);
}

#[test]
fn accuracy_of_cat_cog_against_cat_dog() {
    let typed: Vec<char> = "cat cog".chars().collect();
    let target: Vec<char> = "cat dog".chars().collect();
    assert_eq!(count_correct(&typed, &target), 6);
    let accuracy: f64 = 100.0 * 6.0 / 7.0;
    assert!((accuracy - 85.7142857).abs() < 1e-6);
    // Positions 0..4 match, position 4 ('c' vs 'd') mismatches,
    // positions 5 and 6 match again.
    for i in 0..7 {
        let matches = typed[i] == target[i];
        assert_eq!(matches, i != 4);
    }
}

#[test]
fn partial_typing_compares_only_typed_positions() {
    let typed: Vec<char> = "caX".chars().collect();
    let target: Vec<char> = "cat dog".chars().collect();
    assert_eq!(count_correct(&typed, &target), 2);
}

#[test]
fn handle_key_drives_the_state_machine() {
    let mut app = single_word_session("ab");
    app.handle_key(InputEvent::Ignored, 0);
    assert_eq!(app.state, State::Playing);
    app.handle_key(InputEvent::Character('a'), 1);
    assert_eq!(app.typed.len(), 1);
    app.handle_key(InputEvent::Reset, 2);
    assert!(app.typed.is_empty());
    assert_eq!(app.state, State::Playing);
    app.handle_key(InputEvent::Character('a'), 3);
    app.handle_key(InputEvent::Character('b'), 4);
    assert_eq!(app.state, State::Finished);
    app.handle_key(InputEvent::Exit, 5);
    assert_eq!(app.state, State::Exited);
}

#[test]
fn target_length_is_at_least_word_count() {
    let corpus = corpus_of(&["a", "b", "c", "d", "e"]);
    let app = App::new(Args { words: 5 }, corpus);
    // Five one-character words joined by four separators.
    assert_eq!(app.target.len(), 9);
    assert!(app.target.len() >= 5);
}
