//! The scenes the local model classifies an input into, and the three tones
//! each scene maps to.
//!
//! A 0.5B model is too small to abstract a register itself, but it can pick a
//! scene from a fixed list. So the local path classifies first, then asks once
//! per tone, using the scene's predefined trio.
use vstd::prelude::*;
use crate::prompts::{direction_of, join, Direction};
use crate::text::{chars_of, contains_chars, contains_run, push_chars, push_str, string_of};

verus! {

/// One scene: its Chinese and English names (matched against the reply), what
/// each name means (shown in the menu only), and its tones as
/// `(label, style)`: the label is what the bar shows, the style is the register
/// the model is asked for.
pub struct Scene {
    pub name: &'static str,
    pub en: &'static str,
    pub en_hint: &'static str,
    pub zh_hint: &'static str,
    pub tones: [(&'static str, &'static str); 3],
}

/// How many scenes there are.
pub const SCENE_COUNT: usize = 5;

/// The scenes, in menu order. The first is also the fallback when
/// classification fails: its trio is the 直白/委婉/正式 the app has always
/// offered.
pub open spec fn scene_at(i: int) -> Scene {
    if i == 0 {
        Scene {
            name: "职场交流",
            en: "workplace communication",
            en_hint: "colleagues, meetings, tasks",
            zh_hint: "同事、会议、任务",
            tones: [("直白", "直截了当，不加修饰"), ("委婉", "委婉客气，用商量的口吻"), ("正式", "正式得体，措辞规范")],
        }
    } else if i == 1 {
        Scene {
            name: "日常对话",
            en: "daily conversation",
            en_hint: "casual chat with friends",
            zh_hint: "和朋友闲聊",
            tones: [("随口", "随意口语化，用日常说法"), ("直白", "直接了当"), ("客气", "客气友好，礼貌周到")],
        }
    } else if i == 2 {
        Scene {
            name: "技术文档",
            en: "technical documentation",
            en_hint: "specs, README, code, API docs",
            zh_hint: "规格、README、代码、API 文档",
            tones: [("简洁", "简洁，用尽可能少的词"), ("正式", "正式严谨，用词精确"), ("易懂", "通俗易懂，用大白话")],
        }
    } else if i == 3 {
        Scene {
            name: "商务正式",
            en: "business formal",
            en_hint: "contracts, payment terms, official letters",
            zh_hint: "合同、付款条款、正式信函",
            tones: [("正式", "正式礼貌，用书面语"), ("谦敬", "恭敬谦逊，用敬语"), ("直白", "直接专业，不拐弯")],
        }
    } else {
        Scene {
            name: "客服礼貌",
            en: "customer service",
            en_hint: "apologies, complaints, support",
            zh_hint: "致歉、投诉、支持",
            tones: [("客气", "客气友好，礼貌周到"), ("歉意", "诚恳道歉，表达歉意"), ("正式", "正式得体，规范")],
        }
    }
}

/// Scene `i` of [`scene_at`].
pub fn scene(i: usize) -> (s: Scene)
    requires
        i < SCENE_COUNT,
    ensures
        s == scene_at(i as int),
{
    if i == 0 {
        Scene {
            name: "职场交流",
            en: "workplace communication",
            en_hint: "colleagues, meetings, tasks",
            zh_hint: "同事、会议、任务",
            tones: [("直白", "直截了当，不加修饰"), ("委婉", "委婉客气，用商量的口吻"), ("正式", "正式得体，措辞规范")],
        }
    } else if i == 1 {
        Scene {
            name: "日常对话",
            en: "daily conversation",
            en_hint: "casual chat with friends",
            zh_hint: "和朋友闲聊",
            tones: [("随口", "随意口语化，用日常说法"), ("直白", "直接了当"), ("客气", "客气友好，礼貌周到")],
        }
    } else if i == 2 {
        Scene {
            name: "技术文档",
            en: "technical documentation",
            en_hint: "specs, README, code, API docs",
            zh_hint: "规格、README、代码、API 文档",
            tones: [("简洁", "简洁，用尽可能少的词"), ("正式", "正式严谨，用词精确"), ("易懂", "通俗易懂，用大白话")],
        }
    } else if i == 3 {
        Scene {
            name: "商务正式",
            en: "business formal",
            en_hint: "contracts, payment terms, official letters",
            zh_hint: "合同、付款条款、正式信函",
            tones: [("正式", "正式礼貌，用书面语"), ("谦敬", "恭敬谦逊，用敬语"), ("直白", "直接专业，不拐弯")],
        }
    } else {
        Scene {
            name: "客服礼貌",
            en: "customer service",
            en_hint: "apologies, complaints, support",
            zh_hint: "致歉、投诉、支持",
            tones: [("客气", "客气友好，礼貌周到"), ("歉意", "诚恳道歉，表达歉意"), ("正式", "正式得体，规范")],
        }
    }
}

/// Whether a reply names scene `i`, in either language.
pub open spec fn names_scene(reply: Seq<char>, i: int) -> bool {
    contains_run(reply, scene_at(i).name@) || contains_run(reply, scene_at(i).en@)
}

/// The first scene, from `i` on, that the reply names.
pub open spec fn first_named_scene(reply: Seq<char>, i: int) -> Option<int>
    decreases SCENE_COUNT - i,
{
    if i < 0 || i >= SCENE_COUNT {
        None
    } else if names_scene(reply, i) {
        Some(i)
    } else {
        first_named_scene(reply, i + 1)
    }
}

/// What `str::to_lowercase` makes of a string (Unicode's lowercase mapping).
pub uninterp spec fn lowercase(s: Seq<char>) -> Seq<char>;

/// Calls `str::to_lowercase`. Its mapping is Unicode's, and is left to the name
/// [`lowercase`].
#[verifier::external_body]
fn to_lowercase(s: &str) -> (r: String)
    ensures
        r@ == lowercase(s@),
{
    s.to_lowercase()
}

pub open spec fn tones_of_scene(found: Option<int>) -> Option<[(&'static str, &'static str); 3]> {
    match found {
        Some(i) => Some(scene_at(i).tones),
        None => None,
    }
}

/// The tones of the first scene an already-lowercased reply names.
pub fn tones_for_lowercase(reply: &str) -> (r: Option<[(&'static str, &'static str); 3]>)
    ensures
        r == tones_of_scene(first_named_scene(reply@, 0)),
{
    let hay = chars_of(reply);
    let mut i: usize = 0;
    while i < SCENE_COUNT
        invariant
            hay@ == reply@,
            i <= SCENE_COUNT,
            first_named_scene(reply@, 0) == first_named_scene(reply@, i as int),
        decreases SCENE_COUNT - i,
    {
        let s = scene(i);
        if contains_chars(&hay, &chars_of(s.name)) || contains_chars(&hay, &chars_of(s.en)) {
            return Some(s.tones);
        }
        i += 1;
    }
    None
}

/// The tones for a classified reply, or `None` when the reply names no known
/// scene. Lowercased first, so the English names match whatever case the model
/// echoes them in.
pub fn tones_for(reply: &str) -> (r: Option<[(&'static str, &'static str); 3]>)
    ensures
        r == tones_of_scene(first_named_scene(lowercase(reply@), 0)),
{
    let lower = to_lowercase(reply);
    tones_for_lowercase(lower.as_str())
}

/// The tones a classification ends in: the named scene's, or the first scene's
/// when the reply names none or never came (`None`).
pub fn classified_tones(reply: Option<&str>) -> (r: [(&'static str, &'static str); 3])
    ensures
        r == match reply {
            Some(text) => match first_named_scene(lowercase(text@), 0) {
                Some(i) => scene_at(i).tones,
                None => scene_at(0).tones,
            },
            None => scene_at(0).tones,
        },
{
    match reply {
        Some(text) => match tones_for(text) {
            Some(tones) => tones,
            None => scene(0).tones,
        },
        None => scene(0).tones,
    }
}

/// A menu line: `- 名称（说明）` for Chinese input, `- name (gloss)` otherwise.
pub open spec fn menu_line(chinese: bool, i: int) -> Seq<char> {
    if chinese {
        "- "@ + scene_at(i).name@ + "（"@ + scene_at(i).zh_hint@ + "）"@
    } else {
        "- "@ + scene_at(i).en@ + " ("@ + scene_at(i).en_hint@ + ")"@
    }
}

pub open spec fn menu_lines(chinese: bool) -> Seq<Seq<char>> {
    Seq::new(SCENE_COUNT as nat, |i: int| menu_line(chinese, i))
}

/// The classification prompt, in the input's own language: "what kind of
/// text", then one glossed line per scene, then the text.
pub open spec fn classify_prompt_of(text: Seq<char>) -> Seq<char> {
    match direction_of(text) {
        Direction::FromChinese => "下面这段话是什么类型的文本？从下面的选项里选一个，只输出该选项的名称，不要输出任何其他内容。\n"@
            + join(menu_lines(true), "\n"@) + "\n\n文本："@ + text,
        Direction::Other => "What kind of text is the following? Choose one label from the list and output only that label.\n"@
            + join(menu_lines(false), "\n"@) + "\n\nText: "@ + text,
    }
}

fn menu(chinese: bool) -> (r: Vec<char>)
    ensures
        r@ == join(menu_lines(chinese), "\n"@),
{
    let mut out: Vec<char> = Vec::new();
    let mut i: usize = 0;
    while i < SCENE_COUNT
        invariant
            i <= SCENE_COUNT,
            out@ == join(menu_lines(chinese).take(i as int), "\n"@),
        decreases SCENE_COUNT - i,
    {
        assert(menu_lines(chinese).take(i + 1).drop_last() =~= menu_lines(chinese).take(i as int));
        if i > 0 {
            push_str(&mut out, "\n");
        } else {
            assert(out@ =~= Seq::<char>::empty());
        }
        let s = scene(i);
        push_str(&mut out, "- ");
        if chinese {
            push_str(&mut out, s.name);
            push_str(&mut out, "（");
            push_str(&mut out, s.zh_hint);
            push_str(&mut out, "）");
        } else {
            push_str(&mut out, s.en);
            push_str(&mut out, " (");
            push_str(&mut out, s.en_hint);
            push_str(&mut out, ")");
        }
        i += 1;
    }
    assert(menu_lines(chinese).take(SCENE_COUNT as int) =~= menu_lines(chinese));
    out
}

pub fn classify_prompt(text: &str) -> (r: String)
    ensures
        r@ == classify_prompt_of(text@),
{
    let mut out: Vec<char> = Vec::new();
    match Direction::detect(text) {
        Direction::FromChinese => {
            push_str(&mut out, "下面这段话是什么类型的文本？从下面的选项里选一个，只输出该选项的名称，不要输出任何其他内容。\n");
            push_chars(&mut out, &menu(true));
            push_str(&mut out, "\n\n文本：");
        },
        Direction::Other => {
            push_str(&mut out, "What kind of text is the following? Choose one label from the list and output only that label.\n");
            push_chars(&mut out, &menu(false));
            push_str(&mut out, "\n\nText: ");
        },
    }
    push_str(&mut out, text);
    string_of(&out)
}

/// Within every scene the three tone labels differ, so no two rows the bar
/// shows read as the same tone.
pub proof fn every_scene_has_three_distinct_labels()
    ensures
        forall|i: int|
            0 <= i < SCENE_COUNT ==> {
                let t = #[trigger] scene_at(i).tones;
                &&& t[0].0@ != t[1].0@
                &&& t[0].0@ != t[2].0@
                &&& t[1].0@ != t[2].0@
            },
{
    reveal_strlit("委婉");
    reveal_strlit("客气");
    reveal_strlit("易懂");
    reveal_strlit("歉意");
    reveal_strlit("正式");
    reveal_strlit("直白");
    reveal_strlit("简洁");
    reveal_strlit("谦敬");
    reveal_strlit("随口");
    assert forall|i: int| 0 <= i < SCENE_COUNT implies {
        let t = #[trigger] scene_at(i).tones;
        &&& t[0].0@ != t[1].0@
        &&& t[0].0@ != t[2].0@
        &&& t[1].0@ != t[2].0@
    } by {
        if i == 0 {
            assert("直白"@[0] != "委婉"@[0]);
            assert("直白"@[0] != "正式"@[0]);
            assert("委婉"@[0] != "正式"@[0]);
        } else if i == 1 {
            assert("随口"@[0] != "直白"@[0]);
            assert("随口"@[0] != "客气"@[0]);
            assert("直白"@[0] != "客气"@[0]);
        } else if i == 2 {
            assert("简洁"@[0] != "正式"@[0]);
            assert("简洁"@[0] != "易懂"@[0]);
            assert("正式"@[0] != "易懂"@[0]);
        } else if i == 3 {
            assert("正式"@[0] != "谦敬"@[0]);
            assert("正式"@[0] != "直白"@[0]);
            assert("谦敬"@[0] != "直白"@[0]);
        } else if i == 4 {
            assert("客气"@[0] != "歉意"@[0]);
            assert("客气"@[0] != "正式"@[0]);
            assert("歉意"@[0] != "正式"@[0]);
        }
    }
}

} // verus!
