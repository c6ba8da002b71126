use tonemate::prompts::{
    clean, contains_han, escalated_tone_prompt, local_tone_prompt, prompt_for, Direction,
};

#[test]
fn chinese_input_is_translated_into_english() {
    assert_eq!(Direction::detect("我明天不能来了"), Direction::FromChinese);
}

#[test]
fn chinese_carrying_english_words_is_still_chinese() {
    for text in [
        "帮我 review 一下这个 PR。",
        "这个 feature 的 deadline 是下周五。",
        "server 挂了,你能 restart 一下吗?",
        "把 log 发我看看。",
        "这个 bug 在 production 环境下才会出现,本地跑不出来。",
    ] {
        assert_eq!(
            Direction::detect(text),
            Direction::FromChinese,
            "{text:?} should translate into English"
        );
    }
}

#[test]
fn text_with_no_chinese_is_left_to_the_model() {
    for text in [
        "Could you review this by Friday?",
        "Bonjour, comment allez-vous?",
        "",
        "42",
    ] {
        assert_eq!(Direction::detect(text), Direction::Other, "{text:?}");
    }
}

#[test]
fn han_outside_the_common_block_still_counts() {
    assert_eq!(Direction::detect("㐀"), Direction::FromChinese);
    assert_eq!(Direction::detect("豈"), Direction::FromChinese);
}

#[test]
fn the_prompt_names_the_target_language_twice() {
    let prompt = prompt_for("我明天不能来了");
    assert_eq!(
        prompt
            .matches("every line you output must be in English")
            .count(),
        2,
        "the target should be stated up front and restated at the end"
    );
    assert!(!prompt.contains("output must be Chinese"));
}

#[test]
fn non_chinese_input_keeps_the_documented_two_way_rule() {
    let prompt = prompt_for("Could you review this by Friday?");
    assert!(prompt.contains("If it is English, every line you output must be in Chinese"));
    assert!(prompt.contains("otherwise every line you output must be in English"));
}

#[test]
fn the_local_tone_prompt_embeds_target_style_and_text() {
    let prompt = local_tone_prompt("我明天不能来了", "直截了当，不加修饰");
    assert!(prompt.contains("翻译成英文"), "Chinese in → English out: {prompt}");
    assert!(prompt.contains("直截了当，不加修饰"), "the register goes in the user message: {prompt}");
    assert!(prompt.ends_with("我明天不能来了"), "the source text follows: {prompt}");
}

#[test]
fn the_local_tone_prompt_targets_chinese_for_non_chinese_input() {
    let prompt = local_tone_prompt("Could you review this by Friday?", "委婉客气，用商量的口吻");
    assert!(prompt.contains("翻译成中文"), "non-Chinese in → Chinese out: {prompt}");
    assert!(prompt.contains("委婉客气，用商量的口吻"));
}

#[test]
fn clean_rejects_source_language_at_any_level() {
    assert!(clean("I can't come tomorrow.", true));
    assert!(!clean("It was so精彩.", true));
    assert!(!clean("提交这段代码到主分支。", true));
    assert!(clean("我明天不能来了。", false));
    assert!(!clean("I can't come tomorrow.", false));
}

#[test]
fn the_escalated_prompt_commands_word_level_translation() {
    let prompt = escalated_tone_prompt("今天太精彩了。", "直截了当", &[]);
    assert!(prompt.contains("每个中文词都要翻译成英文"));
    assert!(prompt.contains("不能出现任何中文"));
    assert!(prompt.ends_with("今天太精彩了。"));

    let leaked = vec!["精彩".to_string()];
    let targeted = escalated_tone_prompt("今天太精彩了。", "直截了当", &leaked);
    assert!(targeted.contains("「精彩」也翻译成英文"), "{targeted}");
}

#[test]
fn the_prompt_for_chinese_input_is_the_body_with_the_target_around_it() {
    let prompt = prompt_for("我明天不能来了");
    assert!(prompt.starts_with(
        "You are a translation engine. The user's text is Chinese: every line you output must be in English.\n"
    ));
    assert!(prompt.ends_with("\nThe user's text is Chinese: every line you output must be in English."));
    assert!(prompt.contains("委婉\tI'm afraid I can't make it tomorrow.\n"));
    let other = prompt_for("hello");
    assert!(other.starts_with("You are a translation engine. The user's text is not Chinese."));
}

#[test]
fn the_escalated_prompt_for_english_input_targets_chinese() {
    let leaked = vec!["great".to_string(), "It".to_string()];
    let prompt = escalated_tone_prompt("It is great.", "委婉", &leaked);
    assert_eq!(
        prompt,
        "把下面的英文翻译成中文。每个英文词都要翻译成中文，译文里不能出现任何英文。语气要委婉。只输出中文译文。 上次的译文里「great、It」没有翻译，请把「great、It」也翻译成中文。\n\nIt is great."
    );
}

#[test]
fn the_local_tone_prompt_reads_in_full() {
    assert_eq!(
        local_tone_prompt("你好", "正式"),
        "请把下面的中文翻译成英文，语气要正式。只输出译文，译文必须全部用英文，不要夹带中文。\n\n你好"
    );
}

#[test]
fn han_is_found_anywhere_in_the_text() {
    assert!(contains_han("abc中"));
    assert!(!contains_han("abc"));
    assert!(!contains_han(""));
    assert_eq!(
        Direction::FromChinese.instruction(),
        "The user's text is Chinese: every line you output must be in English."
    );
}
