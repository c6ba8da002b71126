use tonemate::scenes::{classified_tones, classify_prompt, scene, tones_for, SCENE_COUNT};

#[test]
fn a_known_scene_maps_to_its_tones() {
    let tones = tones_for("职场交流").unwrap();
    assert_eq!(tones[0].0, "直白");
    assert_eq!(tones[1].0, "委婉");
    assert_eq!(tones[2].0, "正式");
}

#[test]
fn an_unknown_scene_matches_nothing() {
    assert!(tones_for("不存在的场景").is_none());
    assert!(tones_for("").is_none());
}

#[test]
fn every_scene_offers_three_distinct_tone_labels() {
    for i in 0..SCENE_COUNT {
        let labels: Vec<&str> = scene(i).tones.iter().map(|(label, _)| *label).collect();
        let mut unique = labels.clone();
        unique.sort_unstable();
        unique.dedup();
        assert_eq!(unique.len(), 3, "labels repeat within a scene: {labels:?}");
    }
}

#[test]
fn an_english_scene_name_maps_to_its_tones() {
    let tones = tones_for("technical documentation (specs, README, code, API docs)").unwrap();
    assert_eq!(tones[0].0, "简洁");
    assert_eq!(tones[1].0, "正式");
    assert_eq!(tones[2].0, "易懂");
    assert!(tones_for("Technical Documentation").is_some());
}

#[test]
fn the_chinese_classification_prompt_glosses_each_scene() {
    let prompt = classify_prompt("默认使用 Qwen2.5-0.5B 本地运行。");
    assert!(prompt.contains("什么类型的文本"));
    assert!(prompt.contains("技术文档（规格、README、代码、API 文档）"));
    assert!(!prompt.contains("哪种场景"));
}

#[test]
fn the_english_classification_prompt_glosses_each_scene() {
    let prompt = classify_prompt("Qwen2.5 is the latest series of Qwen models.");
    assert!(prompt.contains("What kind of text"));
    assert!(prompt.contains("technical documentation (specs, README, code, API docs)"));
}

#[test]
fn the_first_named_scene_wins_and_case_does_not_matter() {
    let tones = tones_for("BUSINESS FORMAL or 客服礼貌").unwrap();
    assert_eq!(tones[1].0, "谦敬");
    let tones = tones_for("客服礼貌 then 职场交流").unwrap();
    assert_eq!(tones[0].0, "直白");
}

#[test]
fn classification_falls_back_to_the_first_scene() {
    assert_eq!(classified_tones(None), scene(0).tones);
    assert_eq!(classified_tones(Some("nonsense")), scene(0).tones);
    assert_eq!(classified_tones(Some("Customer Service")), scene(4).tones);
}

#[test]
fn the_prompt_lists_every_scene_then_the_text() {
    let prompt = classify_prompt("hi");
    assert!(prompt.ends_with("\n\nText: hi"));
    for i in 0..SCENE_COUNT {
        let s = scene(i);
        assert!(prompt.contains(&format!("- {} ({})", s.en, s.en_hint)));
    }
    let prompt = classify_prompt("你好");
    assert!(prompt.ends_with("\n\n文本：你好"));
    assert!(prompt.contains("- 职场交流（同事、会议、任务）\n- 日常对话"));
}
