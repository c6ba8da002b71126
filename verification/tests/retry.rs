use tonemate::prompts::{escalated_tone_prompt, local_tone_prompt};
use tonemate::retry::{ToneRetry, ToneStep, ROUNDS};

fn ask(step: ToneStep) -> String {
    match step {
        ToneStep::Ask(p) => p,
        ToneStep::Done(t) => panic!("expected another request, got the answer {t:?}"),
        ToneStep::Substitute(t) => panic!("expected another request, got substitution of {t:?}"),
    }
}

#[test]
fn the_first_request_is_the_plain_tone_prompt() {
    let retry = ToneRetry::new("今天太精彩了。", "直截了当");
    assert_eq!(retry.prompt(), local_tone_prompt("今天太精彩了。", "直截了当"));
}

#[test]
fn a_clean_reply_is_the_answer_trimmed() {
    let mut retry = ToneRetry::new("我明天不能来了", "直截了当");
    match retry.reply(Some("  I can't come tomorrow. \n")) {
        ToneStep::Done(t) => assert_eq!(t, "I can't come tomorrow."),
        _ => panic!("expected the answer"),
    }
}

#[test]
fn a_leaking_reply_earns_the_escalated_prompt_naming_its_words() {
    let mut retry = ToneRetry::new("今天太精彩了。", "直截了当");
    let next = ask(retry.reply(Some("Today was so精彩.")));
    assert_eq!(next, escalated_tone_prompt("今天太精彩了。", "直截了当", &["精彩".to_string()]));
    assert_eq!(retry.prompt(), next);
}

#[test]
fn a_failed_or_blank_reply_escalates_without_new_words() {
    let mut retry = ToneRetry::new("今天太精彩了。", "直截了当");
    let next = ask(retry.reply(None));
    assert_eq!(next, escalated_tone_prompt("今天太精彩了。", "直截了当", &[]));
    let next = ask(retry.reply(Some("   ")));
    assert_eq!(next, escalated_tone_prompt("今天太精彩了。", "直截了当", &[]));
    match retry.reply(None) {
        ToneStep::Done(t) => assert_eq!(t, ""),
        _ => panic!("expected an empty answer after the last round"),
    }
}

#[test]
fn after_every_roll_leaks_the_best_reply_goes_to_substitution() {
    let mut retry = ToneRetry::new("今天太精彩了。", "直截了当");
    assert_eq!(ROUNDS, 3);
    ask(retry.reply(Some("So精彩 today.")));
    ask(retry.reply(None));
    match retry.reply(Some("It was 精彩!")) {
        ToneStep::Substitute(best) => assert_eq!(best, "It was 精彩!"),
        _ => panic!("expected substitution"),
    }
}

#[test]
fn an_english_source_wants_chinese_back() {
    let mut retry = ToneRetry::new("It is great.", "委婉");
    let next = ask(retry.reply(Some("It is great.")));
    assert_eq!(next, escalated_tone_prompt("It is great.", "委婉", &[]));
    match retry.reply(Some("这很好。")) {
        ToneStep::Done(t) => assert_eq!(t, "这很好。"),
        _ => panic!("expected the answer"),
    }
}
