//! The variable store's lookup, parsing and rewrite rules.

use deepclaude::engine::Mode;
use deepclaude::envfile::{
    env_lookup, get_anthropic_api_url, get_claude_default_model, get_env_api_tokens,
    get_env_variables, get_mode, should_use_openai_format, split_lines, update_env_variables,
};

fn bytes(s: &str) -> Vec<u8> {
    s.as_bytes().to_vec()
}

#[test]
fn lookup_reads_first_matching_line() {
    let content = bytes("A=1\nMODE=full\nA=2\n");
    assert_eq!(env_lookup(&content, &bytes("A")), Some(bytes("1")));
    assert_eq!(env_lookup(&content, &bytes("MODE")), Some(bytes("full")));
    assert_eq!(env_lookup(&content, &bytes("B")), None);
}

#[test]
fn lookup_takes_only_the_second_field() {
    // the store reads the text between the first and the second `=`
    let content = bytes("KEY=a=b\n");
    assert_eq!(env_lookup(&content, &bytes("KEY")), Some(bytes("a")));
}

#[test]
fn lookup_trims_whitespace_and_quotes() {
    let content = bytes("URL= \"http://x\" \n");
    assert_eq!(env_lookup(&content, &bytes("URL")), Some(bytes("http://x")));
}

#[test]
fn lookup_finds_an_unterminated_last_line() {
    let content = bytes("A=1\nB=2");
    assert_eq!(env_lookup(&content, &bytes("B")), Some(bytes("2")));
}

#[test]
fn mode_defaults_to_normal() {
    assert_eq!(get_mode(&bytes("")), Mode::Normal);
    assert_eq!(get_mode(&bytes("MODE=full\n")), Mode::Full);
    assert_eq!(get_mode(&bytes("MODE=anything\n")), Mode::Normal);
}

#[test]
fn urls_and_models_fall_back_to_defaults() {
    assert_eq!(
        get_anthropic_api_url(&bytes("")),
        bytes("https://api.gptsapi.net/v1/messages")
    );
    assert_eq!(
        get_anthropic_api_url(&bytes("ANTHROPIC_API_URL=http://mine\n")),
        bytes("http://mine")
    );
    assert_eq!(get_claude_default_model(&bytes("")), bytes("wild-3-7-sonnet-20250219"));
}

#[test]
fn openai_format_decision() {
    assert!(should_use_openai_format(&bytes("CLAUDE_OPENAI_TYPE_API_URL=http://x\n")));
    assert!(!should_use_openai_format(&bytes(
        "CLAUDE_OPENAI_TYPE_API_URL= \nANTHROPIC_API_URL=http://a\n"
    )));
    assert!(should_use_openai_format(&bytes("")));
}

#[test]
fn env_tokens_need_both_keys_and_let_later_lines_win() {
    assert_eq!(get_env_api_tokens(&bytes("DEEPSEEK_API_KEY=d\n")), None);
    let content = bytes(
        "# comment\n\nDEEPSEEK_API_KEY = d1 \nANTHROPIC_API_KEY=a1\nDEEPSEEK_API_KEY=d2\n",
    );
    assert_eq!(get_env_api_tokens(&content), Some((bytes("d2"), bytes("a1"))));
}

#[test]
fn all_variables_parse_in_order() {
    let content = bytes("A=1\n# skip\nB = two \nnot a pair\n");
    let vars = get_env_variables(&content);
    assert_eq!(vars, vec![(bytes("A"), bytes("1")), (bytes("B"), bytes("two"))]);
}

#[test]
fn update_rewrites_an_existing_line() {
    let content = bytes("A=1\nB=2\n");
    let out = update_env_variables(&content, &vec![(bytes("A"), bytes("9"))]);
    assert_eq!(out, bytes("A=9\nB=2\n"));
}

#[test]
fn update_appends_a_new_key_with_newline_separator() {
    let content = bytes("A=1");
    let out = update_env_variables(&content, &vec![(bytes("B"), bytes("2"))]);
    assert_eq!(out, bytes("A=1\nB=2\n"));

    let out = update_env_variables(&bytes(""), &vec![(bytes("B"), bytes("2"))]);
    assert_eq!(out, bytes("B=2\n"));
}

#[test]
fn update_applies_several_variables_in_order() {
    let content = bytes("MODE=normal\n");
    let out = update_env_variables(
        &content,
        &vec![(bytes("MODE"), bytes("full")), (bytes("NEW"), bytes("x"))],
    );
    assert_eq!(out, bytes("MODE=full\nNEW=x\n"));
}

#[test]
fn update_matches_the_key_text_anywhere_on_a_line() {
    // the rewrite scans for the raw `key=` text, so a key that is the
    // tail of another name is found there first
    let content = bytes("XA=1\n");
    let out = update_env_variables(&content, &vec![(bytes("A"), bytes("9"))]);
    assert_eq!(out, bytes("XA=9\n"));
}

#[test]
fn split_lines_keeps_the_unterminated_tail() {
    let lines = split_lines(&bytes("a\nb\nc"));
    assert_eq!(lines, vec![bytes("a"), bytes("b"), bytes("c")]);
    let lines = split_lines(&bytes("a\n"));
    assert_eq!(lines, vec![bytes("a")]);
}
