use rand::rngs::StdRng;
use rand::SeedableRng;
use typa::align::{build_alignment, Slot};
use typa::config::Theme;
use typa::generator::formatting::{apply_contextual_capitalization, finalize_stream_punctuation};
use typa::generator::punctuation::{format_number, ordinal_suffix, punctuate, GenerationContext, PunctuationRules};
use typa::generator::sourcing::TextSource;
use typa::generator::word_controller::{build_context_pub, generate_count_batch, is_sentence_end_pub};
use typa::labels::{format_timer, get_content_height, get_quote_length_category};
use typa::layout::{line_idx_for_cursor, wrap_into_lines};
use typa::models::{AppState, Mode, QuoteData, QuoteEntry, QuoteLength, QuoteSelector, Word, WordData, WordState};
use typa::scoring::score_slice;
use typa::strings::{are_characters_visually_equal, capitalize_word, clean_typography_symbols, ends_with_terminator, is_sentence_end};
use typa::word_map::WordIndexMap;
use typa::generator::WordGenerator;
use typa::generator::quotes::{generate, next_word};
use typa::session::App;

fn chars(s: &str) -> Vec<char> {
    s.chars().collect()
}

fn lines_of(text: &str, width: usize) -> Vec<String> {
    wrap_into_lines(&chars(text), width).iter().map(|l| l.iter().collect()).collect()
}

#[test]
fn visual_equivalence_classes() {
    assert!(are_characters_visually_equal('a', 'a'));
    assert!(are_characters_visually_equal('\'', '\u{2019}'));
    assert!(are_characters_visually_equal('"', '\u{201E}'));
    assert!(are_characters_visually_equal('-', '\u{2014}'));
    assert!(are_characters_visually_equal('\u{2013}', '\u{2010}'));
    assert!(are_characters_visually_equal(',', '\u{201A}'));
    assert!(!are_characters_visually_equal('-', ','));
    assert!(!are_characters_visually_equal('a', 'A'));
}

#[test]
fn typography_is_cleaned() {
    assert_eq!(clean_typography_symbols("\u{201C}hi\u{201D}"), "\"hi\u{201D}");
    assert_eq!(clean_typography_symbols("don\u{2019}t\u{2026}"), "don't...");
    assert_eq!(clean_typography_symbols("a\u{00A0}b \u{00AB}c\u{00BB}"), "a b <<c>>");
    assert_eq!(clean_typography_symbols("co\u{2010}op"), "co-op");
}

#[test]
fn capitalize_first_letter() {
    let mut w = "hello".to_string();
    capitalize_word(&mut w);
    assert_eq!(w, "Hello");
    let mut q = "\u{201C}quote".to_string();
    capitalize_word(&mut q);
    assert_eq!(q, "\u{201C}Quote");
    let mut n = "42".to_string();
    capitalize_word(&mut n);
    assert_eq!(n, "42");
}

#[test]
fn sentence_ends() {
    assert!(ends_with_terminator("end."));
    assert!(ends_with_terminator("what?"));
    assert!(!ends_with_terminator("comma,"));
    assert!(is_sentence_end("done!"));
    assert!(!is_sentence_end("wait..."));
    assert!(!is_sentence_end(""));
    assert!(is_sentence_end_pub("yes."));
}

#[test]
fn timer_text() {
    assert_eq!(format_timer(5), "5");
    assert_eq!(format_timer(60), "1:00");
    assert_eq!(format_timer(75), "1:15");
    assert_eq!(format_timer(3600), "60:00");
}

#[test]
fn quote_categories() {
    assert_eq!(get_quote_length_category(100), "short");
    assert_eq!(get_quote_length_category(101), "medium");
    assert_eq!(get_quote_length_category(600), "long");
    assert_eq!(get_quote_length_category(601), "very long");
}

#[test]
fn content_height_is_clamped() {
    assert_eq!(get_content_height(10), 12);
    assert_eq!(get_content_height(30), 25);
    assert_eq!(get_content_height(100), 50);
}

#[test]
fn ordinals() {
    assert_eq!(ordinal_suffix(1), "st");
    assert_eq!(ordinal_suffix(2), "nd");
    assert_eq!(ordinal_suffix(3), "rd");
    assert_eq!(ordinal_suffix(11), "th");
    assert_eq!(ordinal_suffix(112), "th");
    assert_eq!(ordinal_suffix(21), "st");
}

#[test]
fn number_formats() {
    let s = |v: Vec<char>| v.into_iter().collect::<String>();
    assert_eq!(s(format_number(0, 907, 0)), "907");
    assert_eq!(s(format_number(40, 22, 0)), "22nd");
    assert_eq!(s(format_number(60, 3, 7)), "3.7");
    assert_eq!(s(format_number(75, 40, 0)), "40%");
    assert_eq!(s(format_number(85, 12, 0)), "-12");
    assert_eq!(s(format_number(95, 10, 20)), "10\u{2013}20");
}

#[test]
fn punctuation_kinds() {
    let s = |v: Vec<char>| v.into_iter().collect::<String>();
    assert_eq!(s(punctuate(chars("word"), 10, false, true)), "word,");
    assert_eq!(s(punctuate(chars("word"), 10, true, false)), "word");
    assert_eq!(s(punctuate(chars("word"), 30, true, true)), "word.");
    assert_eq!(s(punctuate(chars("word"), 30, false, true)), "word");
    assert_eq!(s(punctuate(chars("word"), 76, false, false)), "word...");
    assert_eq!(s(punctuate(chars("word"), 80, false, false)), "\"word\"");
    assert_eq!(s(punctuate(chars("word"), 95, false, false)), "(word)");
}

#[test]
fn context_counts_gaps() {
    let mut ctx = GenerationContext::new();
    assert_eq!((ctx.words_since_terminator, ctx.words_since_last_comma), (0, 3));
    ctx.advance("one,");
    assert_eq!((ctx.words_since_terminator, ctx.words_since_last_comma), (1, 0));
    ctx.advance("two");
    assert_eq!((ctx.words_since_terminator, ctx.words_since_last_comma), (2, 1));
    ctx.advance("end.");
    assert_eq!((ctx.words_since_terminator, ctx.words_since_last_comma), (0, 3));
    let stream = vec!["a".to_string(), "b,".to_string(), "c".to_string()];
    assert_eq!(build_context_pub(&stream), GenerationContext { words_since_terminator: 3, words_since_last_comma: 1 });
}

#[test]
fn casing_follows_original() {
    let rules = PunctuationRules { use_punctuation: true, use_numbers: false };
    assert_eq!(rules.match_casing("IT", "it's"), "IT'S");
    assert_eq!(rules.match_casing("It", "it's"), "It's");
    assert_eq!(rules.match_casing("it", "it's"), "it's");
    assert_eq!(rules.match_casing("I", "i'm"), "I'm");
}

#[test]
fn contraction_table() {
    let rules = PunctuationRules { use_punctuation: true, use_numbers: false };
    assert_eq!(rules.get_contraction_replacements("it"), Some(vec!["it's".to_string(), "it'll".to_string()]));
    assert_eq!(rules.get_contraction_replacements("want"), Some(vec!["wanna".to_string()]));
    assert_eq!(rules.get_contraction_replacements("table"), None);
}

#[test]
fn contraction_keeps_capital() {
    let rules = PunctuationRules { use_punctuation: true, use_numbers: false };
    let mut rng = StdRng::seed_from_u64(3);
    assert_eq!(rules.apply_contraction("Do", &mut rng), "Don't");
    assert_eq!(rules.apply_contraction("table", &mut rng), "table");
}

#[test]
fn plain_words_pass_through_without_punctuation() {
    let rules = PunctuationRules { use_punctuation: false, use_numbers: false };
    let mut rng = StdRng::seed_from_u64(1);
    let ctx = GenerationContext::new();
    assert_eq!(rules.apply("plain".to_string(), &mut rng, false, &ctx), "plain");
    assert!(!rules.should_insert_dash(&mut rng));
}

#[test]
fn generated_numbers_are_numeric() {
    let rules = PunctuationRules { use_punctuation: false, use_numbers: true };
    let mut rng = StdRng::seed_from_u64(11);
    for _ in 0..50 {
        let n = rules.generate_number(&mut rng);
        assert!(!n.is_empty());
        assert!(n.chars().any(|c| c.is_ascii_digit()));
    }
}

#[test]
fn sources_draw_listed_words() {
    let data = WordData { name: "t".to_string(), words: vec!["red".to_string(), "green".to_string(), "blue".to_string()] };
    let source = TextSource::new(data);
    let mut rng = StdRng::seed_from_u64(5);
    let w = source.get_random_word(&mut rng);
    assert!(["red", "green", "blue"].contains(&w.as_str()));
    let mut batch = source.get_unique_batch(3, &mut rng);
    batch.sort();
    assert_eq!(batch, vec!["blue".to_string(), "green".to_string(), "red".to_string()]);
    let rules = PunctuationRules { use_punctuation: false, use_numbers: false };
    let (stream, n) = generate_count_batch(&source, &rules, 2, &mut rng);
    assert_eq!(n, 2);
    assert_eq!(stream.len(), 2);
}

#[test]
fn contextual_capitalization_after_sentence_end() {
    let mut new_words = vec!["next".to_string()];
    apply_contextual_capitalization(&mut new_words, &["end.".to_string()], true);
    assert_eq!(new_words, vec!["Next".to_string()]);
    let mut other = vec!["next".to_string()];
    apply_contextual_capitalization(&mut other, &["end,".to_string()], true);
    assert_eq!(other, vec!["next".to_string()]);
}

#[test]
fn finalized_stream() {
    let mut stream: Vec<String> = ["hello", "world.", "\u{2014}", "again", "\u{2014}"].iter().map(|s| s.to_string()).collect();
    finalize_stream_punctuation(&mut stream);
    // capitalisation runs before the dash after "world." is dropped
    assert_eq!(stream, vec!["Hello".to_string(), "world.".to_string(), "again".to_string()]);
    let mut tail: Vec<String> = ["so", "it", "goes,"].iter().map(|s| s.to_string()).collect();
    finalize_stream_punctuation(&mut tail);
    assert_eq!(tail, vec!["So".to_string(), "it".to_string(), "goes.".to_string()]);
}

#[test]
fn greedy_wrap_and_cursor_line() {
    assert_eq!(lines_of("aa bb cc dd", 5), vec!["aa bb", "cc dd"]);
    assert_eq!(lines_of("toolongword x", 4), vec!["toolongword", "x"]);
    assert_eq!(lines_of("", 10), Vec::<String>::new());
    let lines = wrap_into_lines(&chars("aa bb cc dd"), 5);
    assert_eq!(line_idx_for_cursor(&lines, 0), 0);
    assert_eq!(line_idx_for_cursor(&lines, 5), 0);
    assert_eq!(line_idx_for_cursor(&lines, 6), 1);
    assert_eq!(line_idx_for_cursor(&lines, 100), 1);
}

#[test]
fn word_map_rebases() {
    let mut m: WordIndexMap<usize> = WordIndexMap::new();
    m.insert(0, 2);
    m.insert(3, 1);
    m.insert(5, 4);
    m.insert(3, 7);
    assert_eq!(m.get(3), Some(7));
    m.rebase(3);
    assert_eq!(m.get(0), Some(7));
    assert_eq!(m.get(2), Some(4));
    assert_eq!(m.get(5), None);
    m.remove(0);
    assert!(!m.contains(0));
    assert!(m.contains(2));
}

#[test]
fn alignment_marks_missing_and_extra() {
    let words = vec![Word::new(chars("cat"), 0), Word::new(chars("dog"), 1)];
    let typed = vec![chars("c"), chars("dogs")];
    let mut missed: WordIndexMap<usize> = WordIndexMap::new();
    missed.insert(0, 2);
    let (display, mask, aligned) = build_alignment(&words, &typed, &missed);
    assert_eq!(display.iter().collect::<String>(), "cat dog");
    assert_eq!(mask, vec![false; 7]);
    assert_eq!(
        aligned,
        vec![Slot::Char('c'), Slot::Missing, Slot::Missing, Slot::Char(' '), Slot::Char('d'), Slot::Char('o'), Slot::Char('g')]
    );
}

#[test]
fn scoring_taints_whole_word() {
    let aligned = vec![Slot::Char('c'), Slot::Char('a'), Slot::Char('x'), Slot::Char(' '), Slot::Char('o')];
    let display = chars("cat ox");
    let mask = vec![false; 6];
    // "cat": one wrong letter zeroes the word; "ox": the missing x counts as missed
    assert_eq!(score_slice(&aligned, &display, &mask), (6 - 1 - 1 - 1, 2, 0, 1, 0, 1));
}

#[test]
fn default_theme() {
    let t = Theme::default();
    assert_eq!(t.bg, "#2c2e34");
    assert_eq!(t.error, "#ca4754");
}

fn list_data() -> WordData {
    WordData {
        name: "t".to_string(),
        words: ["red", "green", "blue", "cyan", "gold", "pink", "gray", "teal"].iter().map(|s| s.to_string()).collect(),
    }
}

#[test]
fn word_count_session_opens_with_requested_words() {
    let generator = WordGenerator::new(list_data(), false, false);
    let quotes = QuoteData { language: "t".to_string(), groups: Vec::new(), quotes: Vec::new() };
    let mut rng = StdRng::seed_from_u64(9);
    let result = generator.generate_initial_words(&Mode::Words(5), &quotes, &mut rng);
    assert_eq!(result.word_stream.len(), 5);
    assert_eq!(result.generated_count, 5);
    assert_eq!(result.next_index, 5);
    assert_eq!(result.word_stream[0].state, WordState::Active);
    assert_eq!(result.word_stream[1].state, WordState::Pending);
    assert_eq!(result.word_stream[4].index, 4);
}

#[test]
fn time_session_opens_with_a_hundred_words() {
    let generator = WordGenerator::new(list_data(), false, false);
    let quotes = QuoteData { language: "t".to_string(), groups: Vec::new(), quotes: Vec::new() };
    let mut rng = StdRng::seed_from_u64(2);
    let result = generator.generate_initial_words(&Mode::Time(30), &quotes, &mut rng);
    assert_eq!(result.word_stream.len(), 100);
    assert_eq!(result.generated_count, 0);
}

#[test]
fn word_count_refill_stops_at_target() {
    let generator = WordGenerator::new(list_data(), false, false);
    let mut rng = StdRng::seed_from_u64(4);
    let mut pool: Vec<String> = Vec::new();
    let existing = vec![Word::new(chars("red"), 0)];
    assert!(generator.add_one_word(&Mode::Words(1), &existing, &mut pool, 1, 1, &mut rng).is_none());
    let (words, next) = generator.add_one_word(&Mode::Words(3), &existing, &mut pool, 1, 1, &mut rng).unwrap();
    assert_eq!(words.len(), 1);
    assert_eq!(next, 2);
    assert_eq!(words[0].index, 1);
}

#[test]
fn quote_session_splits_quote_into_words() {
    let quotes = QuoteData {
        language: "t".to_string(),
        groups: vec![vec![0, 100], vec![101, 300]],
        quotes: vec![
            QuoteEntry { text: "to be or not".to_string(), source: "play".to_string(), length: 12, id: 1 },
            QuoteEntry { text: "x".repeat(150), source: "long".to_string(), length: 150, id: 2 },
        ],
    };
    let mut rng = StdRng::seed_from_u64(1);
    let r = generate(&QuoteSelector::Id(1), &quotes, &mut rng);
    assert_eq!(r.word_stream, vec!["to", "be", "or", "not"]);
    assert_eq!(r.total_words, 4);
    assert_eq!(r.source_text, "play");
    let short = generate(&QuoteSelector::Category(QuoteLength::Short), &quotes, &mut rng);
    assert_eq!(short.source_text, "play");
    let mut pool = vec!["a".to_string(), "b".to_string()];
    assert_eq!(next_word(&mut pool), Some(vec!["a".to_string()]));
    assert_eq!(pool, vec!["b".to_string()]);
}

#[test]
fn session_from_word_list_is_well_formed() {
    let quotes = QuoteData { language: "t".to_string(), groups: Vec::new(), quotes: Vec::new() };
    let mut app = App::new(Mode::Words(10), list_data(), quotes, false, false, Theme::default(), StdRng::seed_from_u64(8));
    assert_eq!(app.state, AppState::Waiting);
    // eight distinct words, then two more drawn again from the list
    assert_eq!(app.word_stream.len(), 10);
    let first: String = app.word_stream[0].text.iter().collect();
    for c in first.chars() {
        app.on_key(c, 0);
    }
    app.on_key(' ', 100);
    assert_eq!(app.live_incorrect_keystrokes, 0);
    assert_eq!(app.typed.len(), 2);
    // all ten words of the session are already there: nothing more is generated
    assert_eq!(app.word_stream.len(), 10);
    assert_eq!(app.generated_count, 10);
}
