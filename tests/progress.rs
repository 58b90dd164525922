use ollama_bridge::progress::{parse_percent, parse_progress, percent_label};
use ollama_bridge::pull::PullTracker;

#[test]
fn last_accepted_percentage_wins() {
    let r = parse_progress("pulling sha256 ... 12%\nverifying 7%");
    assert_eq!(r, Some(String::from("7%")));
    assert_eq!(parse_percent("pulling sha256 ... 12%\nverifying 7%"), Some(7));
}

#[test]
fn values_over_one_hundred_are_noise() {
    assert_eq!(parse_progress("downloaded 300% of buffer"), None);
    assert_eq!(parse_progress("12% then 150%"), Some(String::from("12%")));
    assert_eq!(parse_progress("99999999999999999999%"), None);
    assert_eq!(parse_progress("101%"), None);
}

#[test]
fn text_without_percent_sign_gives_nothing() {
    assert_eq!(parse_progress(""), None);
    assert_eq!(parse_progress("abc 50"), None);
    assert_eq!(parse_progress("% alone"), None);
    assert_eq!(parse_progress("12 % spaced"), None);
    assert_eq!(parse_progress("12% then 34"), Some(String::from("12%")));
}

#[test]
fn bounds_and_leading_zeros() {
    assert_eq!(parse_progress("0%"), Some(String::from("0%")));
    assert_eq!(parse_progress("100%"), Some(String::from("100%")));
    assert_eq!(parse_progress("007%"), Some(String::from("7%")));
    assert_eq!(parse_progress("50%%"), Some(String::from("50%")));
    assert_eq!(parse_progress("x45% \u{e9}t\u{e9}"), Some(String::from("45%")));
    assert_eq!(parse_percent("\u{e9}\u{e9}33%"), Some(33));
}

#[test]
fn labels_are_decimal_with_sign() {
    assert_eq!(percent_label(0), "0%");
    assert_eq!(percent_label(9), "9%");
    assert_eq!(percent_label(42), "42%");
    assert_eq!(percent_label(100), "100%");
}

#[test]
fn repeated_percentages_are_sent_once() {
    let mut t = PullTracker::new(String::from("llama3"));
    let mut sent: Vec<String> = Vec::new();
    for v in [10, 10, 20, 20, 20, 30] {
        let line = format!("pulling manifest {}% 1.2 GB", v);
        if let Some(p) = t.on_line(&line) {
            sent.push(p);
        }
    }
    assert_eq!(sent, vec!["10%", "20%", "30%"]);
    assert_eq!(sent.len(), 3);
}

#[test]
fn lines_without_progress_keep_the_last_value() {
    let mut t = PullTracker::new(String::from("m"));
    assert_eq!(t.on_line("40%"), Some(String::from("40%")));
    assert_eq!(t.on_line("verifying digest"), None);
    assert_eq!(t.on_line("40%"), None);
    assert_eq!(t.on_line("41%"), Some(String::from("41%")));
    assert_eq!(t.on_line("copied 300% of buffer"), None);
    assert_eq!(t.on_line("40%"), Some(String::from("40%")));
}

#[test]
fn pull_ends_with_model_name_on_success() {
    let mut t = PullTracker::new(String::from("llama3"));
    assert!(!t.is_finished());
    assert_eq!(t.on_exit(true), "llama3");
    assert!(t.is_finished());
}

#[test]
fn pull_ends_with_fixed_message_on_failure() {
    let mut t = PullTracker::new(String::from("llama3"));
    let _ = t.on_line("5%");
    assert_eq!(t.on_exit(false), "Failed to install model");
    assert!(t.is_finished());
}

#[test]
fn pull_that_cannot_start_still_ends() {
    let mut t = PullTracker::new(String::from("llama3"));
    assert_eq!(t.on_start_failure(String::from("Error: not found")), "Error: not found");
    assert!(t.is_finished());
}
