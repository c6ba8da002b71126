use tonemate::words::{
    isolated_word_fallback_prompt, isolated_word_prompt, isolated_word_zh_prompt, leaked_han,
    leaked_latin, leaked_words, leading_english, leading_han, replace, substitute,
};

#[test]
fn leaked_han_collects_the_copied_words() {
    assert_eq!(leaked_han("It was so精彩。"), vec!["精彩".to_string()]);
    assert_eq!(
        leaked_han("charging宝 and 不可抗力"),
        vec!["宝".to_string(), "不可抗力".to_string()]
    );
    assert_eq!(leaked_han("no han here"), Vec::<String>::new());
}

#[test]
fn leading_english_skips_han_echo_and_preamble() {
    assert_eq!(leading_english("exciting"), Some("exciting".to_string()));
    assert_eq!(leading_english("power bank"), Some("power bank".to_string()));
    assert_eq!(
        leading_english("不可抗力 - Unresolvable"),
        Some("Unresolvable".to_string())
    );
    assert_eq!(
        leading_english("Unpredictable force."),
        Some("Unpredictable force".to_string())
    );
    assert_eq!(leading_english("不可抗力（不可抗力）"), None);
    assert_eq!(leading_english(""), None);
}

#[test]
fn leading_han_skips_a_latin_gloss() {
    assert_eq!(leading_han("对象"), Some("对象".to_string()));
    assert_eq!(leading_han("object means 对象"), Some("对象".to_string()));
    assert_eq!(leading_han("object"), None);
    assert_eq!(leading_han(""), None);
}

#[test]
fn leaked_latin_collects_the_copied_words() {
    assert_eq!(
        leaked_latin("This API returns a JSON object."),
        vec![
            "This".to_string(),
            "API".to_string(),
            "returns".to_string(),
            "a".to_string(),
            "JSON".to_string(),
            "object".to_string()
        ]
    );
    assert_eq!(leaked_latin("no han here"), vec!["no", "han", "here"]);
    assert_eq!(leaked_latin("纯中文没有英文"), Vec::<String>::new());
}

#[test]
fn replacing_a_word_replaces_every_occurrence() {
    assert_eq!(replace("精彩 and 精彩!", "精彩", "great"), "great and great!");
    assert_eq!(replace("aaa", "aa", "b"), "ba");
    assert_eq!(replace("abc", "x", "y"), "abc");
    assert_eq!(replace("", "x", "y"), "");
}

#[test]
fn substitution_uses_only_the_words_that_were_found() {
    let words = vec!["精彩".to_string(), "宝".to_string()];
    let found = vec![Some("wonderful".to_string()), None];
    assert_eq!(
        substitute("It was so精彩, a 宝.", &words, &found),
        "It was sowonderful, a 宝."
    );
    assert_eq!(substitute("unchanged", &[], &[]), "unchanged");
}

#[test]
fn the_words_to_look_up_follow_the_target() {
    assert_eq!(leaked_words("so精彩 ok", true), vec!["精彩".to_string()]);
    assert_eq!(leaked_words("so精彩 ok", false), vec!["so".to_string(), "ok".to_string()]);
}

#[test]
fn the_isolated_word_prompts_name_the_word() {
    assert_eq!(isolated_word_prompt("精彩"), "把「精彩」这个中文词翻译成英文，只输出英文单词。");
    assert_eq!(
        isolated_word_fallback_prompt("精彩"),
        "Translate 「精彩」 to English. Reply with only the English phrase, nothing else."
    );
    assert_eq!(isolated_word_zh_prompt("object"), "把「object」这个英文词翻译成中文，只输出中文词。");
}

#[test]
fn leading_english_trims_dashes_and_apostrophes_at_the_ends() {
    assert_eq!(leading_english("- well-known-"), Some("well-known".to_string()));
    assert_eq!(leading_english("it's fine, really"), Some("it's fine".to_string()));
}
