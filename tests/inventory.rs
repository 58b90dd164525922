use ollama_bridge::inventory::{
    api_lists_model, cli_lists_model, is_blank, listing_has_token, names_include,
};

fn names(v: &[&str]) -> Vec<String> {
    v.iter().map(|s| s.to_string()).collect()
}

#[test]
fn api_names_match_ignoring_case() {
    assert!(api_lists_model(&names(&["mistral", "llama3"]), "Llama3"));
    assert!(api_lists_model(&names(&["LLAMA3"]), "llama3"));
}

#[test]
fn api_names_match_whole_names_only() {
    assert!(!api_lists_model(&names(&["llama3:latest-extra"]), "Llama3"));
    assert!(!api_lists_model(&names(&[]), "llama3"));
    assert!(!api_lists_model(&names(&["llama"]), "llama3"));
}

#[test]
fn exact_name_comparison_is_case_sensitive() {
    assert!(names_include(&names(&["llama3"]), "llama3"));
    assert!(!names_include(&names(&["Llama3"]), "llama3"));
}

#[test]
fn cli_listing_matches_first_token_ignoring_case() {
    let listing = "NAME            ID      SIZE\nLlama3:latest   abc123  4.7 GB\nmistral:7b  def  4 GB\n";
    assert!(cli_lists_model(listing, "llama3:LATEST"));
    assert!(cli_lists_model(listing, "Mistral:7B"));
    assert!(!cli_lists_model(listing, "llama3"));
    assert!(!cli_lists_model(listing, "abc123"));
}

#[test]
fn cli_listing_rejects_longer_tokens() {
    let listing = "NAME ID\nllama3:latest-extra 1\n";
    assert!(!cli_lists_model(listing, "Llama3:latest"));
    assert!(cli_lists_model(listing, "LLAMA3:latest-extra"));
}

#[test]
fn cli_listing_handles_blanks_and_line_ends() {
    assert!(cli_lists_model("  \t llama3  x\r\nother", "LLAMA3"));
    assert!(cli_lists_model("a\r\nllama3\r\n", "llama3"));
    assert!(cli_lists_model("first\nlast", "LAST"));
    assert!(!cli_lists_model("", "llama3"));
    assert!(!cli_lists_model("\n\n   \n", ""));
    assert!(!cli_lists_model("llama3", ""));
}

#[test]
fn both_paths_agree_on_mixed_case() {
    let inventory = ["Llama3", "qwen2:0.5b"];
    let listing = "NAME ID\nLlama3 1\nqwen2:0.5b 2\n";
    for q in ["llama3", "LLAMA3", "Qwen2:0.5B", "qwen2", "llama3:latest-extra"] {
        assert_eq!(api_lists_model(&names(&inventory), q), cli_lists_model(listing, q));
    }
}

#[test]
fn token_matching_without_folding() {
    assert!(listing_has_token("NAME\nllama3 x", "llama3"));
    assert!(!listing_has_token("NAME\nLlama3 x", "llama3"));
}

#[test]
fn white_space_follows_unicode() {
    assert!(is_blank(' '));
    assert!(is_blank('\t'));
    assert!(is_blank('\u{3000}'));
    assert!(is_blank('\u{85}'));
    assert!(!is_blank('a'));
    assert!(!is_blank('\u{200b}'));
    for c in ['\u{0}', 'x', ' ', '\n', '\u{a0}', '\u{2007}', '\u{feff}', '\u{180e}'] {
        assert_eq!(is_blank(c), c.is_whitespace());
    }
}
