use calculator_max::cache::EvalCache;
use calculator_max::config::Settings;
use calculator_max::evaluator::EvalError;
use calculator_max::history::HistoryManager;
use calculator_max::i18n::{Language, Translations};
use calculator_max::numeric::{gcd, lcm, randint};
use calculator_max::text::{lines, split_char, trim};
use std::cell::Cell;

#[test]
fn gcd_values() {
    assert_eq!(gcd(12, 18), 6);
    assert_eq!(gcd(0, 7), 7);
    assert_eq!(gcd(7, 0), 7);
    assert_eq!(gcd(0, 0), 0);
    assert_eq!(gcd(17, 5), 1);
}

#[test]
fn lcm_values() {
    assert_eq!(lcm(4, 6), 12);
    assert_eq!(lcm(0, 5), 0);
    assert_eq!(lcm(5, 0), 0);
    assert_eq!(lcm(21, 6), 42);
    assert_eq!(lcm(u64::MAX, 1), u64::MAX);
}

#[test]
fn randint_stays_in_bounds() {
    for _ in 0..200 {
        let r = randint(-3, 4);
        assert!((-3..=4).contains(&r));
    }
    assert_eq!(randint(9, 9), 9);
}

#[test]
fn second_evaluation_of_the_same_text_is_cached() {
    let parses = Cell::new(0);
    let evals = Cell::new(0);
    let mut cache: EvalCache<String, i64> = EvalCache::new();
    let parse = |s: &str| {
        parses.set(parses.get() + 1);
        Ok(s.trim().to_string())
    };
    let eval = |t: &String| {
        evals.set(evals.get() + 1);
        t.parse::<i64>().map_err(|e| EvalError::Evaluation(e.to_string()))
    };
    assert_eq!(cache.evaluate_with(" 42", &parse, &eval), Ok(42));
    assert_eq!(cache.evaluate_with(" 42", &parse, &eval), Ok(42));
    assert_eq!(parses.get(), 1);
    assert_eq!(evals.get(), 1);
    assert_eq!(cache.evaluate_with("42", &parse, &eval), Ok(42));
    assert_eq!(parses.get(), 2);
}

#[test]
fn failed_evaluation_is_not_cached_but_its_parse_is() {
    let parses = Cell::new(0);
    let mut cache: EvalCache<String, i64> = EvalCache::new();
    let parse = |s: &str| {
        parses.set(parses.get() + 1);
        Ok(s.to_string())
    };
    let eval = |t: &String| t.parse::<i64>().map_err(|e| EvalError::Evaluation(e.to_string()));
    assert!(cache.evaluate_with("x", &parse, &eval).is_err());
    assert!(cache.evaluate_with("x", &parse, &eval).is_err());
    assert_eq!(parses.get(), 1);
    assert!(cache.cached_result("x").is_none());
    assert_eq!(cache.cached_tree("x"), Some(&"x".to_string()));
    let bad_parse = |_: &str| Err::<String, EvalError>(EvalError::Parse("no".to_string()));
    assert_eq!(
        cache.evaluate_with("y", &bad_parse, &eval),
        Err(EvalError::Parse("no".to_string()))
    );
    assert!(cache.cached_tree("y").is_none());
}

#[test]
fn history_keeps_one_result_per_expression() {
    let mut h = HistoryManager::new();
    h.add("1+1".to_string(), "2".to_string());
    h.add("2*3".to_string(), "6".to_string());
    h.add("1+1".to_string(), "2.0".to_string());
    assert_eq!(h.get_all().len(), 2);
    assert_eq!(h.to_string(), "1+1 = 2.0\n2*3 = 6\n");
    h.clear();
    assert!(h.get_all().is_empty());
    assert_eq!(h.to_string(), "");
}

#[test]
fn default_settings() {
    let s = Settings::new();
    assert!(s.safe_mode);
    assert!(s.auto_save_history);
    assert_eq!(s.decimal_places, 10);
}

#[test]
fn language_codes_and_names() {
    assert_eq!(Language::English.code(), "en");
    assert_eq!(Language::TraditionalChineseHK.code(), "zh-HK");
    assert_eq!(Language::Cat.display_name(), "喵语");
    assert_eq!(Language::Russian.display_name(), "Русский");
    let all = Language::all();
    assert_eq!(all.len(), 7);
    assert_eq!(all[0], Language::Auto);
}

#[test]
fn locale_to_language() {
    assert_eq!(Language::for_locale("zh-SG"), Language::SimplifiedChinese);
    assert_eq!(Language::for_locale("zh-MO"), Language::TraditionalChineseTW);
    assert_eq!(Language::for_locale("ru-RU"), Language::Russian);
    assert_eq!(Language::for_locale("de-DE"), Language::English);
    let d = Language::detect_system_language();
    assert!(d != Language::Auto && d != Language::Cat);
}

#[test]
fn translations_fall_back_to_the_key() {
    let mut t = Translations::new();
    assert_eq!(t.get("title", Language::English), "title");
    assert!(t.load_from_json(Language::English, "{\"title\": \"Calculator\", \"n\": 3}"));
    assert!(t.load_from_json(Language::Russian, "{\"title\": \"Калькулятор\"}"));
    assert!(!t.load_from_json(Language::Cat, "[1, 2]"));
    assert_eq!(t.get("title", Language::English), "Calculator");
    assert_eq!(t.get("title", Language::Russian), "Калькулятор");
    assert_eq!(t.get("title", Language::Cat), "title");
    assert_eq!(t.get("n", Language::English), "n");
}

#[test]
fn text_helpers() {
    assert_eq!(trim("  a b \t\n"), "a b");
    assert_eq!(trim("\u{3000}x\u{a0}"), "x");
    assert_eq!(split_char("a,,b", ','), vec!["a", "", "b"]);
    assert_eq!(split_char("", ','), vec![""]);
    assert_eq!(lines("a\r\nb\n\nc\n"), vec!["a", "b", "", "c"]);
    assert_eq!(lines("x\r"), vec!["x\r"]);
    assert!(lines("").is_empty());
}

#[test]
fn failed_parse_reaches_the_caller() {
    let mut cache: EvalCache<String, i64> = EvalCache::new();
    let bad_parse = |_: &str| Err::<String, EvalError>(EvalError::Parse("2 +".to_string()));
    let eval = |t: &String| t.parse::<i64>().map_err(|e| EvalError::Evaluation(e.to_string()));
    assert_eq!(cache.evaluate_with("2 +", &bad_parse, &eval), Err(EvalError::Parse("2 +".to_string())));
    assert!(cache.cached_result("2 +").is_none());
    let good_parse = |s: &str| Ok::<String, EvalError>(s.trim().to_string());
    assert_eq!(cache.evaluate_with("2 +", &good_parse, &eval).is_err(), true);
    assert_eq!(cache.evaluate_with(" 7 ", &good_parse, &eval), Ok(7));
}
