//! The words a rendering copied from its source instead of translating, the
//! word a one-word reply gives back, and substituting one for the other.
use vstd::prelude::*;
use crate::prompts::texts;
use crate::text::{
    ascii_letter, chars_of, copy_range, han, is_ascii_letter, is_han, push_chars, push_str,
    starts_with_at, string_of, trim, trim_range,
};

verus! {

/// Han characters (`han_class`) or ASCII letters (otherwise).
pub open spec fn in_class(c: char, han_class: bool) -> bool {
    if han_class {
        han(c)
    } else {
        ascii_letter(c)
    }
}

fn is_in_class(c: char, han_class: bool) -> (r: bool)
    ensures
        r == in_class(c, han_class),
{
    if han_class {
        is_han(c)
    } else {
        is_ascii_letter(c)
    }
}

/// The length of the run of class characters at the front of `s`.
pub open spec fn run_len(s: Seq<char>, han_class: bool) -> nat
    decreases s.len(),
{
    if s.len() > 0 && in_class(s[0], han_class) {
        1 + run_len(s.drop_first(), han_class)
    } else {
        0
    }
}

/// The maximal runs of class characters in `s`, in order.
pub open spec fn runs(s: Seq<char>, han_class: bool) -> Seq<Seq<char>>
    decreases s.len(),
{
    if s.len() == 0 {
        Seq::empty()
    } else if !in_class(s[0], han_class) {
        runs(s.drop_first(), han_class)
    } else {
        let k = run_len(s, han_class);
        if 1 <= k <= s.len() {
            seq![s.take(k as int)] + runs(s.skip(k as int), han_class)
        } else {
            Seq::empty()
        }
    }
}

proof fn lemma_run_len(s: Seq<char>, han_class: bool)
    ensures
        run_len(s, han_class) <= s.len(),
        s.len() > 0 && in_class(s[0], han_class) ==> run_len(s, han_class) >= 1,
    decreases s.len(),
{
    if s.len() > 0 {
        lemma_run_len(s.drop_first(), han_class);
    }
}

/// The runs of class characters of `v`, as strings.
fn runs_of(v: &Vec<char>, han_class: bool) -> (words: Vec<String>)
    ensures
        texts(words@) == runs(v@, han_class),
{
    let mut words: Vec<String> = Vec::new();
    let mut i: usize = 0;
    assert(v@.skip(0) =~= v@);
    assert(texts(words@) + runs(v@, han_class) =~= runs(v@, han_class));
    while i < v.len()
        invariant
            i <= v@.len(),
            runs(v@, han_class) == texts(words@) + runs(v@.skip(i as int), han_class),
        decreases v@.len() - i,
    {
        if !is_in_class(v[i], han_class) {
            assert(v@.skip(i as int).drop_first() =~= v@.skip(i + 1));
            i += 1;
        } else {
            let start = i;
            let ghost s = v@.skip(start as int);
            while i < v.len() && is_in_class(v[i], han_class)
                invariant
                    start <= i <= v@.len(),
                    s == v@.skip(start as int),
                    run_len(s, han_class) == (i - start) + run_len(v@.skip(i as int), han_class),
                decreases v@.len() - i,
            {
                assert(v@.skip(i as int).drop_first() =~= v@.skip(i + 1));
                i += 1;
            }
            proof {
                lemma_run_len(s, han_class);
                assert(s.take(i - start) =~= v@.subrange(start as int, i as int));
                assert(s.skip(i - start) =~= v@.skip(i as int));
            }
            let word = copy_range(v, start, i);
            let ghost before = texts(words@);
            words.push(string_of(&word));
            assert(texts(words@) =~= before.push(word@));
            assert(before + runs(s, han_class) =~= texts(words@) + runs(v@.skip(i as int), han_class));
        }
    }
    assert(texts(words@) + Seq::<Seq<char>>::empty() =~= texts(words@));
    words
}

/// Consecutive Han runs in a rendering — the words the model copied instead of
/// translating into English. Naming them is what makes the retry work.
pub fn leaked_han(s: &str) -> (words: Vec<String>)
    ensures
        texts(words@) == runs(s@, true),
{
    runs_of(&chars_of(s), true)
}

/// Consecutive ASCII-letter runs in a rendering — the English words the model
/// copied instead of translating into Chinese.
pub fn leaked_latin(s: &str) -> (words: Vec<String>)
    ensures
        texts(words@) == runs(s@, false),
{
    runs_of(&chars_of(s), false)
}

/// The leading Han run in a model reply — the Chinese word it produced,
/// skipping any Latin gloss around it.
pub fn leading_han(s: &str) -> (r: Option<String>)
    ensures
        match r {
            Some(w) => runs(s@, true).len() > 0 && w@ == runs(s@, true)[0],
            None => runs(s@, true).len() == 0,
        },
{
    let mut words = leaked_han(s);
    if words.len() > 0 {
        let ghost all = texts(words@);
        let w = words.remove(0);
        assert(all[0] == w@);
        Some(w)
    } else {
        None
    }
}

/// Characters that may continue an English phrase once it has begun.
pub open spec fn english_char(c: char) -> bool {
    ascii_letter(c) || c == ' ' || c == '-' || c == '\''
}

/// Where the first ASCII letter of `s` is (`s.len()` when there is none).
pub open spec fn first_letter(s: Seq<char>) -> nat
    decreases s.len(),
{
    if s.len() == 0 || ascii_letter(s[0]) {
        0
    } else {
        1 + first_letter(s.drop_first())
    }
}

/// The length of the prefix of `s` made of English-phrase characters.
pub open spec fn english_len(s: Seq<char>) -> nat
    decreases s.len(),
{
    if s.len() > 0 && english_char(s[0]) {
        1 + english_len(s.drop_first())
    } else {
        0
    }
}

/// `s` without the `c`s at its front.
pub open spec fn strip_start(s: Seq<char>, c: char) -> Seq<char>
    decreases s.len(),
{
    if s.len() > 0 && s[0] == c {
        strip_start(s.drop_first(), c)
    } else {
        s
    }
}

/// `s` without the `c`s at its end.
pub open spec fn strip_end(s: Seq<char>, c: char) -> Seq<char>
    decreases s.len(),
{
    if s.len() > 0 && s.last() == c {
        strip_end(s.drop_last(), c)
    } else {
        s
    }
}

/// The leading run of English in a reply: from the first ASCII letter up to the
/// first character that is neither a letter, a space, a hyphen nor an
/// apostrophe; then trimmed of white space and of hyphens at both ends. `None`
/// when nothing is left.
pub open spec fn leading_english_of(s: Seq<char>) -> Option<Seq<char>> {
    let t = s.skip(first_letter(s) as int);
    let phrase = t.take(english_len(t) as int);
    let r = strip_end(strip_start(trim(phrase), '-'), '-');
    if r.len() == 0 {
        None
    } else {
        Some(r)
    }
}

/// `v` without the hyphens at either end.
fn strip_dashes(v: &Vec<char>) -> (r: Vec<char>)
    ensures
        r@ == strip_end(strip_start(v@, '-'), '-'),
{
    let mut a: usize = 0;
    assert(v@.subrange(0, v@.len() as int) =~= v@);
    while a < v.len() && v[a] == '-'
        invariant
            a <= v@.len(),
            strip_start(v@, '-') == strip_start(v@.subrange(a as int, v@.len() as int), '-'),
        decreases v@.len() - a,
    {
        assert(v@.subrange(a as int, v@.len() as int).drop_first() =~= v@.subrange(
            a + 1,
            v@.len() as int,
        ));
        a += 1;
    }
    let mut b: usize = v.len();
    while b > a && v[b - 1] == '-'
        invariant
            a <= b <= v@.len(),
            strip_start(v@, '-') == v@.subrange(a as int, v@.len() as int),
            strip_end(strip_start(v@, '-'), '-') == strip_end(v@.subrange(a as int, b as int), '-'),
        decreases b - a,
    {
        assert(v@.subrange(a as int, b as int).drop_last() =~= v@.subrange(a as int, b - 1));
        b -= 1;
    }
    copy_range(v, a, b)
}

/// The leading English phrase in a model reply. A leading Han echo is
/// skipped, and the run stops at the first punctuation after English begins,
/// so a rambling preamble truncates to harmless English rather than leaking Han.
pub fn leading_english(s: &str) -> (r: Option<String>)
    ensures
        match r {
            Some(w) => leading_english_of(s@) == Some(w@),
            None => leading_english_of(s@) is None,
        },
{
    let v = chars_of(s);
    let mut i: usize = 0;
    assert(v@.skip(0) =~= v@);
    while i < v.len() && !is_ascii_letter(v[i])
        invariant
            v@ == s@,
            i <= v@.len(),
            first_letter(v@) == i + first_letter(v@.skip(i as int)),
        decreases v@.len() - i,
    {
        assert(v@.skip(i as int).drop_first() =~= v@.skip(i + 1));
        i += 1;
    }
    let start = i;
    let ghost t = v@.skip(start as int);
    while i < v.len() && (is_ascii_letter(v[i]) || v[i] == ' ' || v[i] == '-' || v[i] == '\'')
        invariant
            v@ == s@,
            start <= i <= v@.len(),
            t == v@.skip(start as int),
            english_len(t) == (i - start) + english_len(v@.skip(i as int)),
        decreases v@.len() - i,
    {
        assert(v@.skip(i as int).drop_first() =~= v@.skip(i + 1));
        i += 1;
    }
    assert(t.take(i - start) =~= v@.subrange(start as int, i as int));
    let phrase = trim_range(&v, start, i);
    let stripped = strip_dashes(&phrase);
    if stripped.len() == 0 {
        None
    } else {
        Some(string_of(&stripped))
    }
}

/// `s` with every occurrence of `from`, left to right and without overlap,
/// replaced by `to`.
pub open spec fn replace_all(s: Seq<char>, from: Seq<char>, to: Seq<char>) -> Seq<char>
    decreases s.len(),
{
    if from.len() == 0 || s.len() < from.len() {
        s
    } else if s.take(from.len() as int) == from {
        to + replace_all(s.skip(from.len() as int), from, to)
    } else {
        seq![s[0]] + replace_all(s.drop_first(), from, to)
    }
}

/// `str::replace` for a non-empty pattern.
pub fn replace(s: &str, from: &str, to: &str) -> (r: String)
    requires
        from@.len() > 0,
    ensures
        r@ == replace_all(s@, from@, to@),
{
    let v = chars_of(s);
    let pat = chars_of(from);
    let mut out: Vec<char> = Vec::new();
    let mut i: usize = 0;
    assert(v@.skip(0) =~= v@);
    while i < v.len()
        invariant
            v@ == s@,
            pat@ == from@,
            pat@.len() > 0,
            i <= v@.len(),
            replace_all(s@, from@, to@) == out@ + replace_all(v@.skip(i as int), from@, to@),
        decreases v@.len() - i,
    {
        let ghost rest = v@.skip(i as int);
        if starts_with_at(&v, i, &pat) {
            assert(rest.take(pat@.len() as int) =~= v@.subrange(i as int, i + pat@.len()));
            assert(rest.skip(pat@.len() as int) =~= v@.skip(i + pat@.len()));
            let ghost before = out@;
            push_str(&mut out, to);
            assert(before + (to@ + replace_all(v@.skip(i + pat@.len()), from@, to@)) =~= out@
                + replace_all(v@.skip(i + pat@.len()), from@, to@));
            i += pat.len();
        } else {
            proof {
                if rest.len() >= from@.len() {
                    assert(rest.take(pat@.len() as int) =~= v@.subrange(i as int, i + pat@.len()));
                }
            }
            assert(rest.drop_first() =~= v@.skip(i + 1));
            let ghost before = out@;
            out.push(v[i]);
            proof {
                if rest.len() < from@.len() {
                    // Too short for a match: the rest is copied as it is.
                    assert(replace_all(rest, from@, to@) == rest);
                    assert(rest.drop_first().len() < from@.len());
                    assert(replace_all(rest.drop_first(), from@, to@) == rest.drop_first());
                    assert(rest =~= seq![rest[0]] + rest.drop_first());
                }
                assert(before + (seq![v@[i as int]] + replace_all(v@.skip(i + 1), from@, to@))
                    =~= out@ + replace_all(v@.skip(i + 1), from@, to@));
            }
            i += 1;
        }
    }
    assert(out@ + v@.skip(v@.len() as int) =~= out@);
    string_of(&out)
}

/// `best` with each leaked word that got a translation replaced by it, in
/// order.
pub open spec fn substituted(best: Seq<char>, words: Seq<Seq<char>>, found: Seq<Option<Seq<char>>>) -> Seq<char>
    decreases words.len(),
{
    if words.len() == 0 {
        best
    } else {
        let before = substituted(best, words.drop_last(), found.drop_last());
        match found.last() {
            Some(t) => if words.last().len() > 0 {
                replace_all(before, words.last(), t)
            } else {
                before
            },
            None => before,
        }
    }
}

pub open spec fn found_texts(found: Seq<Option<String>>) -> Seq<Option<Seq<char>>> {
    found.map_values(|o: Option<String>| match o { Some(s) => Some(s@), None => None })
}

/// Replaces each leaked word with the translation found for it, where one was
/// found (`found[i]` belongs to `words[i]`).
pub fn substitute(best: &str, words: &[String], found: &[Option<String>]) -> (r: String)
    requires
        words@.len() == found@.len(),
    ensures
        r@ == substituted(best@, texts(words@), found_texts(found@)),
{
    let mut result = string_of(&chars_of(best));
    let mut i: usize = 0;
    while i < words.len()
        invariant
            i <= words@.len(),
            words@.len() == found@.len(),
            result@ == substituted(best@, texts(words@.take(i as int)), found_texts(found@.take(i as int))),
        decreases words@.len() - i,
    {
        assert(texts(words@.take(i + 1)).drop_last() =~= texts(words@.take(i as int)));
        assert(found_texts(found@.take(i + 1)).drop_last() =~= found_texts(found@.take(i as int)));
        match &found[i] {
            Some(t) => {
                if !words[i].as_str().is_empty() {
                    result = replace(result.as_str(), words[i].as_str(), t.as_str());
                }
            },
            None => {},
        }
        i += 1;
    }
    assert(words@.take(words@.len() as int) =~= words@);
    assert(found@.take(found@.len() as int) =~= found@);
    result
}

/// The words to look up when the best rendering still leaks: Han runs for an
/// English target, Latin runs for a Chinese one.
pub fn leaked_words(best: &str, expect_english: bool) -> (words: Vec<String>)
    ensures
        texts(words@) == runs(best@, expect_english),
{
    if expect_english {
        leaked_han(best)
    } else {
        leaked_latin(best)
    }
}

/// How many times one isolated-word request is sent before the word is left as
/// it is: the model is sampled, so a second try can land where the first
/// echoed the word back.
pub const WORD_TRIES: usize = 2;

/// The direct isolated-word request: asked in Chinese for the English word.
pub open spec fn isolated_word_prompt_of(word: Seq<char>) -> Seq<char> {
    "把「"@ + word + "」这个中文词翻译成英文，只输出英文单词。"@
}

/// The fallback isolated-word request for a word the model lacks: a
/// paraphrase asked in English.
pub open spec fn isolated_word_fallback_prompt_of(word: Seq<char>) -> Seq<char> {
    "Translate 「"@ + word + "」 to English. Reply with only the English phrase, nothing else."@
}

/// The isolated-word request for the Chinese target, asked in Chinese.
pub open spec fn isolated_word_zh_prompt_of(word: Seq<char>) -> Seq<char> {
    "把「"@ + word + "」这个英文词翻译成中文，只输出中文词。"@
}

pub fn isolated_word_prompt(word: &str) -> (r: String)
    ensures
        r@ == isolated_word_prompt_of(word@),
{
    let mut out: Vec<char> = Vec::new();
    push_str(&mut out, "把「");
    push_str(&mut out, word);
    push_str(&mut out, "」这个中文词翻译成英文，只输出英文单词。");
    string_of(&out)
}

pub fn isolated_word_fallback_prompt(word: &str) -> (r: String)
    ensures
        r@ == isolated_word_fallback_prompt_of(word@),
{
    let mut out: Vec<char> = Vec::new();
    push_str(&mut out, "Translate 「");
    push_str(&mut out, word);
    push_str(&mut out, "」 to English. Reply with only the English phrase, nothing else.");
    string_of(&out)
}

pub fn isolated_word_zh_prompt(word: &str) -> (r: String)
    ensures
        r@ == isolated_word_zh_prompt_of(word@),
{
    let mut out: Vec<char> = Vec::new();
    push_str(&mut out, "把「");
    push_str(&mut out, word);
    push_str(&mut out, "」这个英文词翻译成中文，只输出中文词。");
    string_of(&out)
}

/// Substitution is cumulative: the result for one more word is the result for
/// the words before it with that word's every occurrence replaced by its
/// translation, when one was found; a word with no translation leaves the
/// result as it was.
pub proof fn substitution_is_cumulative(
    best: Seq<char>,
    words: Seq<Seq<char>>,
    found: Seq<Option<Seq<char>>>,
    w: Seq<char>,
    t: Option<Seq<char>>,
)
    ensures
        t is Some && w.len() > 0 ==> substituted(best, words.push(w), found.push(t))
            == replace_all(substituted(best, words, found), w, t->0),
        t is None ==> substituted(best, words.push(w), found.push(t)) == substituted(
            best,
            words,
            found,
        ),
        substituted(best, Seq::empty(), Seq::empty()) == best,
        w.len() > 0 && t is Some ==> substituted(best, seq![w], seq![t]) == replace_all(best, w, t->0),
{
    assert(seq![w].drop_last() =~= Seq::<Seq<char>>::empty());
    assert(seq![t].drop_last() =~= Seq::<Option<Seq<char>>>::empty());
    assert(substituted(best, Seq::<Seq<char>>::empty(), Seq::<Option<Seq<char>>>::empty()) == best);
    assert(words.push(w).drop_last() =~= words);
    assert(found.push(t).drop_last() =~= found);
}

/// Replacing goes on past the first occurrence: an occurrence at the front is
/// replaced and the rest is replaced in turn, and text holding no occurrence
/// comes back unchanged.
pub proof fn replacing_covers_every_occurrence(s: Seq<char>, from: Seq<char>, to: Seq<char>)
    ensures
        from.len() > 0 ==> replace_all(from + s, from, to) == to + replace_all(s, from, to),
        (forall|i: int| 0 <= i <= s.len() - from.len() ==> #[trigger] s.subrange(i, i + from.len())
            != from) ==> replace_all(s, from, to) == s,
    decreases s.len(),
{
    if from.len() > 0 {
        assert((from + s).take(from.len() as int) =~= from);
        assert((from + s).skip(from.len() as int) =~= s);
    }
    if (forall|i: int| 0 <= i <= s.len() - from.len() ==> #[trigger] s.subrange(i, i + from.len())
        != from) && from.len() > 0 && s.len() >= from.len() {
        assert(s.take(from.len() as int) =~= s.subrange(0, from.len() as int));
        let r = s.drop_first();
        assert forall|i: int| 0 <= i <= r.len() - from.len() implies #[trigger] r.subrange(
            i,
            i + from.len(),
        ) != from by {
            assert(r.subrange(i, i + from.len()) =~= s.subrange(i + 1, i + 1 + from.len()));
        }
        replacing_covers_every_occurrence(r, from, to);
        assert(seq![s[0]] + r =~= s);
    }
}


} // verus!
