//! The direction rule and every prompt the models are asked, the scenes the
//! local model classifies into, and the checks and word lists its retries use.
//!
//! The prompt lives here rather than in a transport because it is what decides
//! output quality: two providers holding their own copy would drift, and the
//! drift would look like a model difference.
use vstd::prelude::*;
use crate::text::{
    chars_of, contains_chars, contains_run, han, is_han, push_chars, push_str, string_of,
};

verus! {

/// Which way a translation runs. Decided here rather than inferred by the
/// model: naming the target removes the inference instead of making it likelier.
#[derive(Debug, PartialEq, Eq, Structural)]
pub enum Direction {
    /// The user typed Chinese, so every line must come back English.
    FromChinese,
    /// No Chinese present. English in gets Chinese back, anything else gets
    /// English; telling those apart is left to the model.
    Other,
}

/// Whether `s` holds at least one Han character.
pub open spec fn has_han(s: Seq<char>) -> bool {
    exists|i: int| 0 <= i < s.len() && han(#[trigger] s[i])
}

pub open spec fn direction_of(text: Seq<char>) -> Direction {
    if has_han(text) {
        Direction::FromChinese
    } else {
        Direction::Other
    }
}

/// The command about every line that names the target language.
pub open spec fn instruction_of(d: Direction) -> Seq<char> {
    match d {
        Direction::FromChinese => "The user's text is Chinese: every line you output must be in English."@,
        Direction::Other => "The user's text is not Chinese. If it is English, every line you output must be in Chinese; otherwise every line you output must be in English."@,
    }
}

/// Whether any character of `text` is Han.
pub fn contains_han(text: &str) -> (r: bool)
    ensures
        r == has_han(text@),
{
    let chars = chars_of(text);
    let mut i: usize = 0;
    while i < chars.len()
        invariant
            chars@ == text@,
            i <= chars@.len(),
            forall|j: int| 0 <= j < i ==> !han(#[trigger] chars@[j]),
        decreases chars@.len() - i,
    {
        if is_han(chars[i]) {
            return true;
        }
        i += 1;
    }
    false
}

impl Direction {
    /// Presence of one Han character, not a proportion of them: a Chinese
    /// speaker reaching for an English term is still writing Chinese and still
    /// wants English back.
    pub fn detect(text: &str) -> (d: Direction)
        ensures
            d == direction_of(text@),
    {
        if contains_han(text) {
            Direction::FromChinese
        } else {
            Direction::Other
        }
    }

    /// Stated as a command about every line, because the failure being fixed
    /// was per-line rather than per-response.
    pub fn instruction(&self) -> (r: &'static str)
        ensures
            r@ == instruction_of(*self),
    {
        match self {
            Direction::FromChinese => "The user's text is Chinese: every line you output must be in English.",
            Direction::Other => "The user's text is not Chinese. If it is English, every line you output must be in Chinese; otherwise every line you output must be in English.",
        }
    }
}

/// The instructions shared by every provider's prompt: the direction rule as a
/// prohibition, the tone label as a name rather than a paraphrase, and the
/// separator as a real tab shown in a worked example.
pub const SYSTEM_PROMPT_BODY: &'static str =
    "Restating the input in its own language is always wrong, however good the restatement.\n\
     Work out what the writer is doing: what they want from the reader, how they stand in relation \
     to that reader, and how blunt the original was. Then give 3 to 5 translations that differ in \
     tone, register, and directness, each the right choice in some concrete situation. If only \
     three are meaningfully different, give three — never pad the list with near-duplicates.\n\
     The first line is the most faithful, most neutral rendering. Each later line sits further \
     from it in tone.\n\
     Each line is: a label, then one TAB character, then the translation.\n\
     The label is 2 to 4 Chinese characters naming the TONE — 直白, 委婉, 正式, 客气, 冷淡, 随口 \
     and the like. It describes how the line sounds. It is never a translation, never a paraphrase \
     of the input, and never repeated on another line.\n\
     Separate label from translation with one real TAB character (U+0009) and nothing else. Never \
     write the two characters backslash-t. Never use a space, fullwidth space, colon, or dash.\n\
     Example of one correct line:\n\
     委婉\tI'm afraid I can't make it tomorrow.\n\
     No numbering, no blank lines, no markdown, no quotes, no explanation, and no line break \
     inside a translation.";

/// The single-rendering prompt: into English, tone and register kept, and
/// nothing but the translation.
pub const ENGLISH_ONLY_PROMPT: &'static str =
    "You are a translation engine. Translate the user's text into natural, \
     idiomatic English, preserving its tone and register. Output only the translation: no preamble, \
     no quotes, no explanation, no notes.";

/// The prompt for one input: the target language, the shared instructions, then
/// the target language again. Repeated deliberately — a single mention at the
/// top was what the model drifted from mid-response.
pub open spec fn prompt_of(text: Seq<char>) -> Seq<char> {
    let instruction = instruction_of(direction_of(text));
    "You are a translation engine. "@ + instruction + "\n"@ + SYSTEM_PROMPT_BODY@ + "\n"@
        + instruction
}

pub fn prompt_for(text: &str) -> (r: String)
    ensures
        r@ == prompt_of(text@),
{
    let instruction = Direction::detect(text).instruction();
    let mut out: Vec<char> = Vec::new();
    push_str(&mut out, "You are a translation engine. ");
    push_str(&mut out, instruction);
    push_str(&mut out, "\n");
    push_str(&mut out, SYSTEM_PROMPT_BODY);
    push_str(&mut out, "\n");
    push_str(&mut out, instruction);
    string_of(&out)
}

/// Source and target language names, in Chinese, for the local model's prompts.
pub open spec fn languages_of(text: Seq<char>) -> (Seq<char>, Seq<char>) {
    match direction_of(text) {
        Direction::FromChinese => ("中文"@, "英文"@),
        Direction::Other => ("英文"@, "中文"@),
    }
}

fn languages(text: &str) -> (r: (&'static str, &'static str))
    ensures
        (r.0@, r.1@) == languages_of(text@),
{
    match Direction::detect(text) {
        Direction::FromChinese => ("中文", "英文"),
        Direction::Other => ("英文", "中文"),
    }
}

/// The per-tone prompt for the local model: register and target ride in the
/// user message, in Chinese, with a single constraint, followed by the text.
pub open spec fn local_tone_prompt_of(text: Seq<char>, style: Seq<char>) -> Seq<char> {
    let (source, target) = languages_of(text);
    "请把下面的"@ + source + "翻译成"@ + target + "，语气要"@ + style + "。只输出译文，译文必须全部用"@
        + target + "，不要夹带"@ + source + "。\n\n"@ + text
}

pub fn local_tone_prompt(text: &str, style: &str) -> (r: String)
    ensures
        r@ == local_tone_prompt_of(text@, style@),
{
    let (source, target) = languages(text);
    let mut out: Vec<char> = Vec::new();
    push_str(&mut out, "请把下面的");
    push_str(&mut out, source);
    push_str(&mut out, "翻译成");
    push_str(&mut out, target);
    push_str(&mut out, "，语气要");
    push_str(&mut out, style);
    push_str(&mut out, "。只输出译文，译文必须全部用");
    push_str(&mut out, target);
    push_str(&mut out, "，不要夹带");
    push_str(&mut out, source);
    push_str(&mut out, "。\n\n");
    push_str(&mut out, text);
    string_of(&out)
}

/// `parts` joined with `sep` between neighbours, as `join` does.
pub open spec fn join(parts: Seq<Seq<char>>, sep: Seq<char>) -> Seq<char>
    decreases parts.len(),
{
    if parts.len() == 0 {
        Seq::empty()
    } else if parts.len() == 1 {
        parts[0]
    } else {
        join(parts.drop_last(), sep) + sep + parts.last()
    }
}

/// The views of some strings.
pub open spec fn texts(v: Seq<String>) -> Seq<Seq<char>> {
    v.map_values(|s: String| s@)
}

pub fn join_strings(parts: &[String], sep: &str) -> (r: Vec<char>)
    ensures
        r@ == join(texts(parts@), sep@),
{
    let mut out: Vec<char> = Vec::new();
    let mut i: usize = 0;
    while i < parts.len()
        invariant
            i <= parts@.len(),
            out@ == join(texts(parts@.take(i as int)), sep@),
        decreases parts@.len() - i,
    {
        assert(texts(parts@.take(i + 1)).drop_last() =~= texts(parts@.take(i as int)));
        if i > 0 {
            push_str(&mut out, sep);
        } else {
            assert(out@ =~= Seq::<char>::empty());
        }
        push_str(&mut out, parts[i].as_str());
        i += 1;
    }
    assert(parts@.take(parts@.len() as int) =~= parts@);
    out
}

/// The retry prompt: the direction restated as a word-level command, and the
/// words a previous attempt copied named, so the model retrieves them.
pub open spec fn escalated_tone_prompt_of(text: Seq<char>, style: Seq<char>, leaked: Seq<Seq<char>>) -> Seq<char> {
    let (source, target) = languages_of(text);
    let hint = if leaked.len() == 0 {
        Seq::empty()
    } else {
        let words = join(leaked, "、"@);
        " 上次的译文里「"@ + words + "」没有翻译，请把「"@ + words + "」也翻译成"@ + target + "。"@
    };
    "把下面的"@ + source + "翻译成"@ + target + "。每个"@ + source + "词都要翻译成"@ + target
        + "，译文里不能出现任何"@ + source + "。语气要"@ + style + "。只输出"@ + target + "译文。"@
        + hint + "\n\n"@ + text
}

pub fn escalated_tone_prompt(text: &str, style: &str, leaked: &[String]) -> (r: String)
    ensures
        r@ == escalated_tone_prompt_of(text@, style@, texts(leaked@)),
{
    let (source, target) = languages(text);
    let mut hint: Vec<char> = Vec::new();
    if leaked.len() > 0 {
        let words = join_strings(leaked, "、");
        push_str(&mut hint, " 上次的译文里「");
        push_chars(&mut hint, &words);
        push_str(&mut hint, "」没有翻译，请把「");
        push_chars(&mut hint, &words);
        push_str(&mut hint, "」也翻译成");
        push_str(&mut hint, target);
        push_str(&mut hint, "。");
    }
    let mut out: Vec<char> = Vec::new();
    push_str(&mut out, "把下面的");
    push_str(&mut out, source);
    push_str(&mut out, "翻译成");
    push_str(&mut out, target);
    push_str(&mut out, "。每个");
    push_str(&mut out, source);
    push_str(&mut out, "词都要翻译成");
    push_str(&mut out, target);
    push_str(&mut out, "，译文里不能出现任何");
    push_str(&mut out, source);
    push_str(&mut out, "。语气要");
    push_str(&mut out, style);
    push_str(&mut out, "。只输出");
    push_str(&mut out, target);
    push_str(&mut out, "译文。");
    push_chars(&mut out, &hint);
    push_str(&mut out, "\n\n");
    push_str(&mut out, text);
    string_of(&out)
}

/// Whether a rendering is in the target language: for Chinese input it must
/// carry no Han characters; for non-Chinese input it must carry some.
pub fn clean(rendering: &str, expect_english: bool) -> (r: bool)
    ensures
        r == (if expect_english { !has_han(rendering@) } else { has_han(rendering@) }),
{
    let has = contains_han(rendering);
    if expect_english {
        !has
    } else {
        has
    }
}

/// The per-tone prompt names the target language as the one the whole
/// translation must be in and forbids the source language, never the other
/// way round: text without a Han character is asked into Chinese with English
/// forbidden, Chinese text into English with Chinese forbidden. The register
/// comes before that demand, and the text itself closes the prompt.
pub proof fn the_tone_prompt_forbids_the_source_language(text: Seq<char>, style: Seq<char>)
    ensures
        ({
            let p = local_tone_prompt_of(text, style);
            let (head, tail) = if has_han(text) {
                ("请把下面的中文翻译成英文，语气要"@, "。只输出译文，译文必须全部用英文，不要夹带中文。\n\n"@ + text)
            } else {
                ("请把下面的英文翻译成中文，语气要"@, "。只输出译文，译文必须全部用中文，不要夹带英文。\n\n"@ + text)
            };
            p == head + style + tail
        }),
{
    reveal_strlit("请把下面的");
    reveal_strlit("翻译成");
    reveal_strlit("，语气要");
    reveal_strlit("。只输出译文，译文必须全部用");
    reveal_strlit("，不要夹带");
    reveal_strlit("。\n\n");
    reveal_strlit("中文");
    reveal_strlit("英文");
    reveal_strlit("请把下面的中文翻译成英文，语气要");
    reveal_strlit("请把下面的英文翻译成中文，语气要");
    reveal_strlit("。只输出译文，译文必须全部用英文，不要夹带中文。\n\n");
    reveal_strlit("。只输出译文，译文必须全部用中文，不要夹带英文。\n\n");
    let p = local_tone_prompt_of(text, style);
    if has_han(text) {
        assert(p =~= "请把下面的中文翻译成英文，语气要"@ + style + ("。只输出译文，译文必须全部用英文，不要夹带中文。\n\n"@ + text));
    } else {
        assert(p =~= "请把下面的英文翻译成中文，语气要"@ + style + ("。只输出译文，译文必须全部用中文，不要夹带英文。\n\n"@ + text));
    }
}

/// The retry prompt restates the direction as a word-level command in the same
/// way: for text without a Han character every English word must become
/// Chinese and no English may appear, for Chinese text every Chinese word must
/// become English and no Chinese may appear; the text closes the prompt.
pub proof fn the_retry_prompt_forbids_the_source_language(
    text: Seq<char>,
    style: Seq<char>,
    leaked: Seq<Seq<char>>,
)
    ensures
        ({
            let p = escalated_tone_prompt_of(text, style, leaked);
            let head = if has_han(text) {
                "把下面的中文翻译成英文。每个中文词都要翻译成英文，译文里不能出现任何中文。语气要"@
            } else {
                "把下面的英文翻译成中文。每个英文词都要翻译成中文，译文里不能出现任何英文。语气要"@
            };
            let tail = "\n\n"@ + text;
            &&& p.len() >= head.len() + tail.len()
            &&& p.take(head.len() as int) == head
            &&& p.skip(p.len() - tail.len()) == tail
        }),
{
    reveal_strlit("把下面的");
    reveal_strlit("翻译成");
    reveal_strlit("。每个");
    reveal_strlit("词都要翻译成");
    reveal_strlit("，译文里不能出现任何");
    reveal_strlit("。语气要");
    reveal_strlit("中文");
    reveal_strlit("英文");
    reveal_strlit("\n\n");
    reveal_strlit("把下面的中文翻译成英文。每个中文词都要翻译成英文，译文里不能出现任何中文。语气要");
    reveal_strlit("把下面的英文翻译成中文。每个英文词都要翻译成中文，译文里不能出现任何英文。语气要");
    let (source, target) = languages_of(text);
    let hint = if leaked.len() == 0 {
        Seq::empty()
    } else {
        let words = join(leaked, "、"@);
        " 上次的译文里「"@ + words + "」没有翻译，请把「"@ + words + "」也翻译成"@ + target + "。"@
    };
    let head = "把下面的"@ + source + "翻译成"@ + target + "。每个"@ + source + "词都要翻译成"@
        + target + "，译文里不能出现任何"@ + source + "。语气要"@;
    let mid = style + "。只输出"@ + target + "译文。"@ + hint;
    let tail = "\n\n"@ + text;
    let p = escalated_tone_prompt_of(text, style, leaked);
    assert(p =~= head + mid + tail);
    assert((head + mid + tail).take(head.len() as int) =~= head);
    assert((head + mid + tail).skip((head + mid + tail).len() - tail.len()) =~= tail);
}


} // verus!
