//! One tone's translation on the local model, re-rolled until it is clean.
//!
//! The model is sampled rather than greedy, so a re-roll of the same request can
//! land clean where the first copied a word, and the escalated prompt — which
//! names the copied words — makes that likelier. This is the decision half of
//! that loop: the caller sends each prompt and hands back the reply.
use vstd::prelude::*;
use crate::prompts::{
    clean, direction_of, escalated_tone_prompt, escalated_tone_prompt_of, has_han, local_tone_prompt,
    local_tone_prompt_of, texts, Direction,
};
use crate::text::{chars_of, string_of, trim, trim_range};
use crate::words::{leaked_han, runs};

verus! {

/// How many requests one tone gets before the best reply is taken as it is.
pub const ROUNDS: usize = 3;

/// What to do next.
pub enum ToneStep {
    /// Send this prompt and hand back the reply.
    Ask(String),
    /// The tone's translation.
    Done(String),
    /// Every roll leaked: this is the best reply, whose leaked words are to be
    /// looked up one by one and substituted.
    Substitute(String),
}

pub enum StepModel {
    Ask(Seq<char>),
    Done(Seq<char>),
    Substitute(Seq<char>),
}

impl ToneStep {
    pub open spec fn model(&self) -> StepModel {
        match self {
            ToneStep::Ask(p) => StepModel::Ask(p@),
            ToneStep::Done(t) => StepModel::Done(t@),
            ToneStep::Substitute(t) => StepModel::Substitute(t@),
        }
    }
}

pub struct RetryModel {
    pub text: Seq<char>,
    pub style: Seq<char>,
    /// Chinese in, so English must come out.
    pub expect_english: bool,
    /// Requests answered so far.
    pub round: nat,
    /// The last non-empty reply, kept in case every roll leaks.
    pub best: Seq<char>,
    /// The words the last English-target reply copied.
    pub leaked: Seq<Seq<char>>,
    /// What to ask next.
    pub prompt: Seq<char>,
}

pub struct ToneRetry {
    text: String,
    style: String,
    expect_english: bool,
    round: usize,
    best: String,
    leaked: Vec<String>,
    prompt: String,
}

impl View for ToneRetry {
    type V = RetryModel;

    closed spec fn view(&self) -> RetryModel {
        RetryModel {
            text: self.text@,
            style: self.style@,
            expect_english: self.expect_english,
            round: self.round as nat,
            best: self.best@,
            leaked: texts(self.leaked@),
            prompt: self.prompt@,
        }
    }
}

/// Whether a rendering is in the target language.
pub open spec fn is_clean(s: Seq<char>, expect_english: bool) -> bool {
    if expect_english {
        !has_han(s)
    } else {
        has_han(s)
    }
}

/// After a round that did not finish the tone: ask again while rounds remain;
/// then the best reply, handed to substitution if it still leaks.
pub open spec fn after_round(m: RetryModel) -> StepModel {
    if m.round < ROUNDS {
        StepModel::Ask(m.prompt)
    } else if m.best.len() > 0 && !is_clean(m.best, m.expect_english) {
        StepModel::Substitute(m.best)
    } else {
        StepModel::Done(m.best)
    }
}

/// One reply (`None` for a failed request). A failed or blank reply earns the
/// escalated prompt. A clean reply is the answer. A leaking one becomes the
/// best reply so far, names its Han words when the target is
/// English, and earns the escalated prompt naming them.
pub open spec fn step_of(m: RetryModel, reply: Option<Seq<char>>) -> (StepModel, RetryModel) {
    let trimmed = match reply {
        Some(b) => trim(b),
        None => Seq::empty(),
    };
    if trimmed.len() == 0 {
        let next = RetryModel {
            round: m.round + 1,
            prompt: escalated_tone_prompt_of(m.text, m.style, m.leaked),
            ..m
        };
        (after_round(next), next)
    } else {
        let best = trimmed;
        if is_clean(trimmed, m.expect_english) {
            (StepModel::Done(trimmed), RetryModel { round: m.round + 1, best, ..m })
        } else {
            let leaked = if m.expect_english {
                runs(trimmed, true)
            } else {
                m.leaked
            };
            let next = RetryModel {
                round: m.round + 1,
                best,
                leaked,
                prompt: escalated_tone_prompt_of(m.text, m.style, leaked),
                ..m
            };
            (after_round(next), next)
        }
    }
}

impl ToneRetry {
    /// A tone about to be asked for, with the plain per-tone prompt.
    pub fn new(text: &str, style: &str) -> (r: ToneRetry)
        ensures
            r@ == (RetryModel {
                text: text@,
                style: style@,
                expect_english: direction_of(text@) == Direction::FromChinese,
                round: 0,
                best: Seq::empty(),
                leaked: Seq::empty(),
                prompt: local_tone_prompt_of(text@, style@),
            }),
    {
        let leaked: Vec<String> = Vec::new();
        assert(texts(leaked@) =~= Seq::<Seq<char>>::empty());
        ToneRetry {
            text: text.to_owned(),
            style: style.to_owned(),
            expect_english: Direction::detect(text) == Direction::FromChinese,
            round: 0,
            best: String::new(),
            leaked,
            prompt: local_tone_prompt(text, style),
        }
    }

    /// What to ask next.
    pub fn prompt(&self) -> (r: &str)
        ensures
            r@ == self@.prompt,
    {
        self.prompt.as_str()
    }

    /// Takes one reply (`None` when the request failed) and says what to do next.
    pub fn reply(&mut self, reply: Option<&str>) -> (step: ToneStep)
        requires
            old(self)@.round < ROUNDS,
        ensures
            (step.model(), final(self)@) == step_of(
                old(self)@,
                match reply {
                    Some(b) => Some(b@),
                    None => None,
                },
            ),
    {
        let trimmed: String = match reply {
            Some(b) => {
                let v = chars_of(b);
                assert(v@.subrange(0, v@.len() as int) =~= v@);
                string_of(&trim_range(&v, 0, v.len()))
            },
            None => String::new(),
        };
        self.round += 1;
        if trimmed.as_str().is_empty() {
            self.prompt = escalated_tone_prompt(self.text.as_str(), self.style.as_str(), self.leaked.as_slice());
            return self.after_round();
        }
        self.best = trimmed.clone();
        if clean(trimmed.as_str(), self.expect_english) {
            return ToneStep::Done(trimmed);
        }
        if self.expect_english {
            self.leaked = leaked_han(trimmed.as_str());
        }
        self.prompt = escalated_tone_prompt(self.text.as_str(), self.style.as_str(), self.leaked.as_slice());
        self.after_round()
    }

    fn after_round(&self) -> (step: ToneStep)
        ensures
            step.model() == after_round(self@),
    {
        if self.round < ROUNDS {
            ToneStep::Ask(self.prompt.clone())
        } else if !self.best.as_str().is_empty() && !clean(self.best.as_str(), self.expect_english) {
            ToneStep::Substitute(self.best.clone())
        } else {
            ToneStep::Done(self.best.clone())
        }
    }
}

/// A tone is settled within [`ROUNDS`] requests: the reply to the last one
/// never asks for another.
pub proof fn a_tone_is_settled_within_the_rounds(m: RetryModel, reply: Option<Seq<char>>)
    requires
        m.round + 1 == ROUNDS,
    ensures
        !(step_of(m, reply).0 is Ask),
{
}

/// After the last round a non-empty reply that is still not in the target
/// language — Han left in an English rendering, or no Han at all in a Chinese
/// one — goes to word substitution, whichever the direction; and a tone is
/// only ever finished with a reply that is empty or in the target language.
pub proof fn a_leaking_last_reply_goes_to_substitution(m: RetryModel, reply: Option<Seq<char>>)
    ensures
        ({
            let trimmed = match reply {
                Some(b) => trim(b),
                None => Seq::empty(),
            };
            m.round + 1 == ROUNDS && trimmed.len() > 0 && (if m.expect_english {
                has_han(trimmed)
            } else {
                !has_han(trimmed)
            }) ==> step_of(m, reply).0 == StepModel::Substitute(trimmed)
        }),
        m.round >= ROUNDS && m.best.len() > 0 && (if m.expect_english {
            has_han(m.best)
        } else {
            !has_han(m.best)
        }) ==> after_round(m) == StepModel::Substitute(m.best),
        m.best.len() > 0 && (if m.expect_english {
            has_han(m.best)
        } else {
            !has_han(m.best)
        }) ==> !(after_round(m) is Done),
        step_of(m, reply).0 matches StepModel::Done(t) ==> t.len() == 0 || (if m.expect_english {
            !has_han(t)
        } else {
            has_han(t)
        }),
{
}

} // verus!
