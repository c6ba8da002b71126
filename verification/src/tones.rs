//! Turns the model's line-delimited output into row updates.
//!
//! The stream arrives in arbitrary fragments — a tab or a newline can land on
//! any boundary — so the split is resumable rather than a one-shot pass over a
//! finished string. Each output line is `label<TAB>translation`; the first tab
//! separates, later ones belong to the translation.
use vstd::prelude::*;
use crate::text::{
    chars_of, find_in, first_index_of, lemma_first_index_of_facts, lemma_trim_empty, lemma_first_index_of, lemma_no_index_of,
    lemma_first_index_of_extend, lemma_trim_nonempty_extend, push_str,
    string_of, trim, trim_range, copy_range,
};

verus! {

/// One rendering of the input. `text` is the row's full text so far rather than
/// a delta: consumers overwrite by `index`, so a repeated or reordered update
/// cannot corrupt a row.
#[derive(Debug, Clone, PartialEq)]
pub struct Tone {
    pub index: usize,
    pub label: String,
    pub text: String,
}

/// A row update as a mathematical value.
pub struct ToneModel {
    pub index: nat,
    pub label: Seq<char>,
    pub text: Seq<char>,
}

impl Tone {
    pub open spec fn model(&self) -> ToneModel {
        ToneModel { index: self.index as nat, label: self.label@, text: self.text@ }
    }
}

/// The models of a list of updates.
pub open spec fn models(ts: Seq<Tone>) -> Seq<ToneModel> {
    ts.map_values(|t: Tone| t.model())
}

/// The streaming state: the row still arriving, and the index it will carry.
pub struct ParserModel {
    pub pending: Seq<char>,
    pub next_index: nat,
}

pub struct Parser {
    /// The row still arriving, up to but not including its newline.
    pending: Vec<char>,
    /// Index the row in `pending` will carry. Blank lines never advance it.
    next_index: usize,
}

impl View for Parser {
    type V = ParserModel;

    closed spec fn view(&self) -> ParserModel {
        ParserModel { pending: self.pending@, next_index: self.next_index as nat }
    }
}

/// A line as a row, or `None` for a blank line. The first tab separates the
/// label from the translation and both halves are trimmed; a line without a tab
/// is an unlabelled translation.
pub open spec fn row_of(line: Seq<char>) -> Option<(Seq<char>, Seq<char>)> {
    match first_index_of(line, '\t') {
        Some(k) => {
            let label = trim(line.take(k));
            let text = trim(line.skip(k + 1));
            if label.len() == 0 && text.len() == 0 {
                None
            } else {
                Some((label, text))
            }
        },
        None => {
            let text = trim(line);
            if text.len() == 0 {
                None
            } else {
                Some((Seq::empty(), text))
            }
        },
    }
}

pub open spec fn tone_at(index: nat, row: (Seq<char>, Seq<char>)) -> ToneModel {
    ToneModel { index, label: row.0, text: row.1 }
}

/// Closes every complete line at the front of `buf`, numbering the non-blank
/// ones from `n`: the updates, the unfinished remainder, and the next index.
pub open spec fn close_lines(buf: Seq<char>, n: nat) -> (Seq<ToneModel>, Seq<char>, nat)
    decreases buf.len(),
{
    match first_index_of(buf, '\n') {
        None => (Seq::empty(), buf, n),
        Some(k) => {
            if 0 <= k < buf.len() {
                let line = buf.take(k);
                let rest = buf.skip(k + 1);
                match row_of(line) {
                    Some(row) => prepend(seq![tone_at(n, row)], close_lines(rest, n + 1)),
                    None => close_lines(rest, n),
                }
            } else {
                (Seq::empty(), buf, n)
            }
        },
    }
}

pub open spec fn prepend(u: Seq<ToneModel>, c: (Seq<ToneModel>, Seq<char>, nat)) -> (
    Seq<ToneModel>,
    Seq<char>,
    nat,
) {
    (u + c.0, c.1, c.2)
}

/// What the unfinished line shows: its row once its tab has arrived, and
/// nothing before that, since a label cannot be told from a translation yet.
pub open spec fn partial_row(pending: Seq<char>, n: nat) -> Seq<ToneModel> {
    if first_index_of(pending, '\t') is Some && row_of(pending) is Some {
        seq![tone_at(n, row_of(pending)->0)]
    } else {
        Seq::empty()
    }
}

/// The updates one fragment produces and the state it leaves.
pub open spec fn push_model(p: ParserModel, fragment: Seq<char>) -> (Seq<ToneModel>, ParserModel) {
    let (closed, rest, m) = close_lines(p.pending + fragment, p.next_index);
    (closed + partial_row(rest, m), ParserModel { pending: rest, next_index: m })
}

/// The updates closing the stream produces and the state it leaves.
pub open spec fn finish_model(p: ParserModel) -> (Seq<ToneModel>, ParserModel) {
    match row_of(p.pending) {
        Some(row) => (
            seq![tone_at(p.next_index, row)],
            ParserModel { pending: Seq::empty(), next_index: p.next_index + 1 },
        ),
        None => (Seq::empty(), ParserModel { pending: Seq::empty(), next_index: p.next_index }),
    }
}

impl Default for Parser {
    fn default() -> (p: Self)
        ensures
            p@ == (ParserModel { pending: Seq::empty(), next_index: 0 }),
    {
        Parser { pending: Vec::new(), next_index: 0 }
    }
}

impl Parser {
    /// Whether the parser can take `fragment`: its row count and buffer, grown
    /// by the fragment, still fit in a `usize`.
    pub fn fits(&self, fragment: &str) -> (r: bool)
        ensures
            r == (self@.next_index + self@.pending.len() + fragment@.len() <= usize::MAX),
    {
        let n = fragment.unicode_len();
        self.pending.len() <= usize::MAX - self.next_index && n <= usize::MAX - self.next_index
            - self.pending.len()
    }

    /// Rows this fragment changed. A fragment carrying a newline touches two:
    /// the row it closed and the row it opened.
    pub fn push(&mut self, fragment: &str) -> (updates: Vec<Tone>)
        requires
            old(self)@.next_index + old(self)@.pending.len() + fragment@.len() <= usize::MAX,
        ensures
            models(updates@) == push_model(old(self)@, fragment@).0,
            final(self)@ == push_model(old(self)@, fragment@).1,
    {
        let mut buf: Vec<char> = Vec::new();
        buf.append(&mut self.pending);
        push_str(&mut buf, fragment);
        let ghost whole = buf@;
        let ghost n0 = self.next_index as nat;
        assert(whole == old(self)@.pending + fragment@);
        let mut updates: Vec<Tone> = Vec::new();
        let mut start: usize = 0;
        assert(buf@.skip(0) =~= whole);
        loop
            invariant
                whole == buf@,
                start <= buf@.len(),
                self.next_index + (buf@.len() - start) <= usize::MAX,
                close_lines(whole, n0) == prepend(
                    models(updates@),
                    close_lines(buf@.skip(start as int), self.next_index as nat),
                ),
            ensures
                whole == buf@,
                start <= buf@.len(),
                close_lines(whole, n0) == prepend(
                    models(updates@),
                    close_lines(buf@.skip(start as int), self.next_index as nat),
                ),
                first_index_of(buf@.skip(start as int), '\n') is None,
            decreases buf@.len() - start,
        {
            let ghost s = buf@.skip(start as int);
            let ghost before = updates@;
            match find_in(&buf, start, buf.len(), '\n') {
                Some(k) => {
                    assert(buf@.subrange(start as int, buf@.len() as int) =~= s);
                    assert(s.take(k - start) =~= buf@.subrange(start as int, k as int));
                    assert(s.skip(k - start + 1) =~= buf@.skip(k + 1));
                    match self.row(&buf, start, k) {
                        Some(t) => {
                            updates.push(t);
                            assert(models(updates@) =~= models(before) + seq![t.model()]);
                            self.next_index += 1;
                        },
                        None => {},
                    }
                    start = k + 1;
                },
                None => {
                    assert(buf@.subrange(start as int, buf@.len() as int) =~= s);
                    break ;
                },
            }
        }
        assert(models(updates@) + Seq::<ToneModel>::empty() =~= models(updates@));
        self.pending = copy_range(&buf, start, buf.len());
        assert(self.pending@ =~= buf@.skip(start as int));
        let ghost closed = models(updates@);
        let ends = self.pending.len();
        if find_in(&self.pending, 0, ends, '\t').is_some() {
            assert(self.pending@.subrange(0, ends as int) =~= self.pending@);
            match self.row(&self.pending, 0, ends) {
                Some(t) => {
                    updates.push(t);
                    assert(models(updates@) =~= closed + seq![t.model()]);
                },
                None => {
                    assert(models(updates@) =~= closed + Seq::<ToneModel>::empty());
                },
            }
        } else {
            assert(self.pending@.subrange(0, ends as int) =~= self.pending@);
            assert(models(updates@) =~= closed + Seq::<ToneModel>::empty());
        }
        updates
    }

    /// Closes the row still buffered, since the model usually omits the
    /// trailing newline. Without this the last rendering would be dropped.
    pub fn finish(&mut self) -> (updates: Vec<Tone>)
        requires
            old(self)@.next_index + old(self)@.pending.len() <= usize::MAX,
        ensures
            models(updates@) == finish_model(old(self)@).0,
            final(self)@ == finish_model(old(self)@).1,
    {
        let mut line: Vec<char> = Vec::new();
        line.append(&mut self.pending);
        let ends = line.len();
        assert(line@.subrange(0, ends as int) =~= line@);
        let mut updates: Vec<Tone> = Vec::new();
        match self.row(&line, 0, ends) {
            Some(tone) => {
                proof {
                    lemma_row_needs_a_character(line@);
                }
                self.next_index += 1;
                updates.push(tone);
                assert(models(updates@) =~= seq![tone.model()]);
            },
            None => {
                assert(models(updates@) =~= Seq::<ToneModel>::empty());
            },
        }
        updates
    }

    /// `line[lo..hi]` as a row carrying the next index, or `None` for a blank
    /// line, which must not consume an index.
    fn row(&self, line: &Vec<char>, lo: usize, hi: usize) -> (r: Option<Tone>)
        requires
            lo <= hi <= line@.len(),
        ensures
            r matches Some(t) ==> row_of(line@.subrange(lo as int, hi as int)) == Some(
                (t.label@, t.text@),
            ) && t.index == self.next_index,
            r is None <==> row_of(line@.subrange(lo as int, hi as int)) is None,
    {
        let ghost s = line@.subrange(lo as int, hi as int);
        match find_in(line, lo, hi, '\t') {
            Some(k) => {
                assert(s.take(k - lo) =~= line@.subrange(lo as int, k as int));
                assert(s.skip(k - lo + 1) =~= line@.subrange(k + 1, hi as int));
                let label = trim_range(line, lo, k);
                let text = trim_range(line, k + 1, hi);
                if label.len() == 0 && text.len() == 0 {
                    None
                } else {
                    Some(Tone { index: self.next_index, label: string_of(&label), text: string_of(&text) })
                }
            },
            None => {
                let text = trim_range(line, lo, hi);
                if text.len() == 0 {
                    None
                } else {
                    Some(Tone { index: self.next_index, label: String::new(), text: string_of(&text) })
                }
            },
        }
    }
}

/// A non-blank row has at least one character on its line.
pub proof fn lemma_row_needs_a_character(line: Seq<char>)
    requires
        row_of(line) is Some,
    ensures
        line.len() > 0,
{
    lemma_trim_empty(line);
    lemma_first_index_of_facts(line, '\t');
}

/// What each index shows once `us` has been applied over `m`, each update
/// overwriting its index.
pub open spec fn shown_after(m: Map<nat, (Seq<char>, Seq<char>)>, us: Seq<ToneModel>) -> Map<
    nat,
    (Seq<char>, Seq<char>),
>
    decreases us.len(),
{
    if us.len() == 0 {
        m
    } else {
        shown_after(m.insert(us[0].index, (us[0].label, us[0].text)), us.drop_first())
    }
}

/// The parser as `Parser::default` builds it.
pub open spec fn fresh() -> ParserModel {
    ParserModel { pending: Seq::empty(), next_index: 0 }
}

/// Pushing `frags` one after another from `p`: all updates and the final state.
pub open spec fn feed(p: ParserModel, frags: Seq<Seq<char>>) -> (Seq<ToneModel>, ParserModel)
    decreases frags.len(),
{
    if frags.len() == 0 {
        (Seq::empty(), p)
    } else {
        let (u, q) = push_model(p, frags[0]);
        let (w, r) = feed(q, frags.drop_first());
        (u + w, r)
    }
}

/// What a consumer shows once a stream split into `frags` has been pushed and
/// finished.
pub open spec fn rows_shown(frags: Seq<Seq<char>>) -> Map<nat, (Seq<char>, Seq<char>)> {
    let (u, p) = feed(fresh(), frags);
    shown_after(Map::empty(), u + finish_model(p).0)
}

/// The rows of a whole text: its non-blank lines, numbered in order.
pub open spec fn rows_of_text(t: Seq<char>) -> Map<nat, (Seq<char>, Seq<char>)> {
    let (c, r, m) = close_lines(t, 0);
    shown_after(shown_after(Map::empty(), c), finish_model(ParserModel { pending: r, next_index: m }).0)
}

/// Where the stream happens to be split cannot change what is shown in the end:
/// the rows depend on the concatenated text alone, so feeding one character at a
/// time shows exactly what feeding the whole answer at once shows.
pub proof fn fragment_boundaries_do_not_change_rows(frags: Seq<Seq<char>>)
    ensures
        rows_shown(frags) == rows_of_text(frags.flatten()),
        rows_shown(frags) == rows_shown(seq![frags.flatten()]),
{
    lemma_rows_shown(frags);
    lemma_rows_shown(seq![frags.flatten()]);
    assert(seq![frags.flatten()].drop_first() =~= Seq::<Seq<char>>::empty());
    assert(Seq::<Seq<char>>::empty().flatten() =~= Seq::<char>::empty());
    assert(frags.flatten() + Seq::<char>::empty() =~= frags.flatten());
    assert(seq![frags.flatten()].flatten() =~= frags.flatten());
}

proof fn lemma_rows_shown(frags: Seq<Seq<char>>)
    ensures
        rows_shown(frags) == rows_of_text(frags.flatten()),
{
    let (u, q) = feed(fresh(), frags);
    let (c, r, m) = close_lines(frags.flatten(), 0);
    assert(Seq::<char>::empty() + frags.flatten() =~= frags.flatten());
    lemma_no_index_of(Seq::<char>::empty(), '\t');
    lemma_no_index_of(Seq::<char>::empty(), '\n');
    assert(partial_row(Seq::empty(), 0) =~= Seq::<ToneModel>::empty());
    lemma_feed(fresh(), frags, Map::empty());
    lemma_shown_after_append(Map::empty(), u, finish_model(q).0);
    lemma_partial_then_finish(shown_after(Map::empty(), c), r, m);
}

/// Applying `a + b` is applying `a`, then `b`.
pub proof fn lemma_shown_after_append(
    m: Map<nat, (Seq<char>, Seq<char>)>,
    a: Seq<ToneModel>,
    b: Seq<ToneModel>,
)
    ensures
        shown_after(m, a + b) == shown_after(shown_after(m, a), b),
    decreases a.len(),
{
    if a.len() == 0 {
        assert(a + b =~= b);
    } else {
        assert((a + b).drop_first() =~= a.drop_first() + b);
        lemma_shown_after_append(m.insert(a[0].index, (a[0].label, a[0].text)), a.drop_first(), b);
    }
}

proof fn lemma_shown_after_single(m: Map<nat, (Seq<char>, Seq<char>)>, t: ToneModel)
    ensures
        shown_after(m, seq![t]) == m.insert(t.index, (t.label, t.text)),
{
    assert(seq![t].drop_first() =~= Seq::<ToneModel>::empty());
    assert(shown_after(m.insert(t.index, (t.label, t.text)), Seq::<ToneModel>::empty()) == m.insert(
        t.index,
        (t.label, t.text),
    ));
}

/// An entry is overwritten by a list of updates whose first one has its index.
proof fn lemma_overwritten(
    m: Map<nat, (Seq<char>, Seq<char>)>,
    k: nat,
    v: (Seq<char>, Seq<char>),
    us: Seq<ToneModel>,
)
    requires
        us.len() > 0,
        us[0].index == k,
    ensures
        shown_after(m.insert(k, v), us) == shown_after(m, us),
{
    assert(m.insert(k, v).insert(k, (us[0].label, us[0].text)) =~= m.insert(
        k,
        (us[0].label, us[0].text),
    ));
}

/// Closing lines over `a + b` closes those of `a`, then carries on with what
/// `a` left unfinished followed by `b`.
pub proof fn lemma_close_lines_append(a: Seq<char>, b: Seq<char>, n: nat)
    ensures
        ({
            let (ca, ra, ma) = close_lines(a, n);
            close_lines(a + b, n) == prepend(ca, close_lines(ra + b, ma))
        }),
    decreases a.len(),
{
    lemma_first_index_of_facts(a, '\n');
    match first_index_of(a, '\n') {
        None => {
            assert(Seq::<ToneModel>::empty() + close_lines(a + b, n).0 =~= close_lines(a + b, n).0);
        },
        Some(k) => {
            lemma_first_index_of(a + b, '\n', k);
            assert((a + b).take(k) =~= a.take(k));
            assert((a + b).skip(k + 1) =~= a.skip(k + 1) + b);
            lemma_close_lines_append(a.skip(k + 1), b, n + 1);
            lemma_close_lines_append(a.skip(k + 1), b, n);
            match row_of(a.take(k)) {
                Some(row) => {
                    let (c1, r1, m1) = close_lines(a.skip(k + 1), n + 1);
                    assert(seq![tone_at(n, row)] + (c1 + close_lines(r1 + b, m1).0) =~= (seq![
                        tone_at(n, row),
                    ] + c1) + close_lines(r1 + b, m1).0);
                },
                None => {},
            }
        },
    }
}

/// What closing lines leaves unfinished holds no newline.
pub proof fn lemma_close_lines_rest(buf: Seq<char>, n: nat)
    ensures
        first_index_of(close_lines(buf, n).1, '\n') is None,
        close_lines(buf, n).2 >= n,
    decreases buf.len(),
{
    lemma_first_index_of_facts(buf, '\n');
    match first_index_of(buf, '\n') {
        None => {},
        Some(k) => {
            lemma_close_lines_rest(buf.skip(k + 1), n + 1);
            lemma_close_lines_rest(buf.skip(k + 1), n);
        },
    }
}

/// Every row closing lines numbers from `n` carries an index of at least `n`.
proof fn lemma_close_lines_indices(buf: Seq<char>, n: nat)
    ensures
        forall|i: int| 0 <= i < close_lines(buf, n).0.len() ==> #[trigger] close_lines(buf, n).0[i].index >= n,
    decreases buf.len(),
{
    lemma_first_index_of_facts(buf, '\n');
    match first_index_of(buf, '\n') {
        None => {},
        Some(k) => {
            let rest = buf.skip(k + 1);
            lemma_close_lines_indices(rest, n + 1);
            lemma_close_lines_indices(rest, n);
            match row_of(buf.take(k)) {
                Some(row) => {
                    let c = close_lines(buf, n).0;
                    let tail = close_lines(rest, n + 1).0;
                    assert(c =~= seq![tone_at(n, row)] + tail);
                    assert forall|i: int| 0 <= i < c.len() implies #[trigger] c[i].index >= n by {
                        if i > 0 {
                            assert(c[i] == tail[i - 1]);
                        }
                    }
                },
                None => {
                    assert(close_lines(buf, n) == close_lines(rest, n));
                },
            }
        },
    }
}

/// Once a row's tab has landed its label is fixed: whatever arrives next,
/// every later update of that row, and the one finishing the stream, carries
/// the label the row was first shown with, so the row can fill in afterwards.
pub proof fn a_label_is_fixed_once_its_tab_lands(p: ParserModel, g: Seq<char>)
    requires
        first_index_of(p.pending, '\n') is None,
        partial_row(p.pending, p.next_index).len() > 0,
    ensures
        ({
            let shown = partial_row(p.pending, p.next_index)[0];
            let pushed = push_model(p, g).0;
            let finished = finish_model(p).0;
            &&& forall|i: int|
                0 <= i < pushed.len() && pushed[i].index == shown.index ==> #[trigger] pushed[i].label
                    == shown.label
            &&& finished.len() == 1 && finished[0].index == shown.index && finished[0].label
                == shown.label
        }),
{
    let n = p.next_index;
    let shown = partial_row(p.pending, n)[0];
    let pushed = push_model(p, g).0;
    let (c, r, m) = close_lines(p.pending + g, n);
    lemma_first_index_of_facts(p.pending, '\n');
    lemma_first_index_of_facts(g, '\n');
    lemma_first_index_of_facts(p.pending, '\t');
    let t = first_index_of(p.pending, '\t')->0;
    match first_index_of(g, '\n') {
        Some(j) => {
            let k = p.pending.len() + j;
            lemma_first_index_of(p.pending + g, '\n', k);
            assert((p.pending + g).take(k) =~= p.pending + g.take(j));
            let line = p.pending + g.take(j);
            lemma_row_extends(p.pending, g.take(j));
            assert(line.take(t) =~= p.pending.take(t));
            let rest = (p.pending + g).skip(k + 1);
            let (c2, r2, m2) = close_lines(rest, n + 1);
            assert(c =~= seq![tone_at(n, row_of(line)->0)] + c2);
            lemma_close_lines_indices(rest, n + 1);
            lemma_close_lines_rest(rest, n + 1);
            assert(pushed =~= c + partial_row(r, m));
            assert forall|i: int|
                0 <= i < pushed.len() && pushed[i].index == shown.index implies #[trigger] pushed[i].label
                == shown.label by {
                if 1 <= i < c.len() {
                    assert(pushed[i] == c2[i - 1]);
                } else if i >= c.len() {
                    assert(pushed[i] == partial_row(r, m)[i - c.len()]);
                }
            }
        },
        None => {
            lemma_no_index_of(p.pending + g, '\n');
            assert(c =~= Seq::<ToneModel>::empty());
            lemma_row_extends(p.pending, g);
            assert((p.pending + g).take(t) =~= p.pending.take(t));
            assert(pushed =~= partial_row(p.pending + g, n));
        },
    }
}

/// A line that already shows a row keeps showing one, at the same split, as
/// more characters arrive.
proof fn lemma_row_extends(s: Seq<char>, x: Seq<char>)
    requires
        first_index_of(s, '\t') is Some,
        row_of(s) is Some,
    ensures
        first_index_of(s + x, '\t') == first_index_of(s, '\t'),
        row_of(s + x) is Some,
{
    lemma_first_index_of_facts(s, '\t');
    lemma_first_index_of_extend(s, x, '\t');
    let k = first_index_of(s, '\t')->0;
    assert((s + x).take(k) =~= s.take(k));
    assert((s + x).skip(k + 1) =~= s.skip(k + 1) + x);
    if trim(s.skip(k + 1)).len() > 0 {
        lemma_trim_nonempty_extend(s.skip(k + 1), x);
    }
}

/// One fragment's worth of the induction: a row shown for the unfinished line
/// is superseded by what the fragment produces for that same line.
proof fn lemma_partial_superseded(
    m: Map<nat, (Seq<char>, Seq<char>)>,
    p: ParserModel,
    f: Seq<char>,
)
    requires
        first_index_of(p.pending, '\n') is None,
    ensures
        ({
            let (c1, r1, m1) = close_lines(p.pending + f, p.next_index);
            shown_after(
                shown_after(shown_after(m, partial_row(p.pending, p.next_index)), c1),
                partial_row(r1, m1),
            ) == shown_after(shown_after(m, c1), partial_row(r1, m1))
        }),
{
    let (c1, r1, m1) = close_lines(p.pending + f, p.next_index);
    let n = p.next_index;
    if partial_row(p.pending, n).len() > 0 {
        let t = partial_row(p.pending, n)[0];
        assert(partial_row(p.pending, n) =~= seq![t]);
        lemma_shown_after_single(m, t);
        lemma_first_index_of_facts(p.pending, '\n');
        lemma_first_index_of_facts(f, '\n');
        lemma_row_extends(p.pending, f);
        match first_index_of(f, '\n') {
            Some(j) => {
                let k = p.pending.len() + j;
                lemma_first_index_of(p.pending + f, '\n', k);
                assert((p.pending + f).take(k) =~= p.pending + f.take(j));
                lemma_row_extends(p.pending, f.take(j));
                let line = p.pending + f.take(j);
                let rest = (p.pending + f).skip(k + 1);
                assert(c1 == seq![tone_at(n, row_of(line)->0)] + close_lines(rest, n + 1).0);
                lemma_overwritten(m, n, (t.label, t.text), c1);
            },
            None => {
                lemma_no_index_of(p.pending + f, '\n');
                assert(c1 =~= Seq::<ToneModel>::empty());
                assert(r1 == p.pending + f && m1 == n);
                assert(partial_row(r1, m1).len() > 0);
                lemma_overwritten(m, n, (t.label, t.text), partial_row(r1, m1));
            },
        }
    }
}

/// The induction over fragments: feeding them from `p` shows what closing the
/// lines of everything buffered and fed shows, plus the unfinished line.
proof fn lemma_feed(p: ParserModel, frags: Seq<Seq<char>>, m: Map<nat, (Seq<char>, Seq<char>)>)
    requires
        first_index_of(p.pending, '\n') is None,
    ensures
        ({
            let (u, q) = feed(p, frags);
            let (c, r, n) = close_lines(p.pending + frags.flatten(), p.next_index);
            &&& q == (ParserModel { pending: r, next_index: n })
            &&& shown_after(shown_after(m, partial_row(p.pending, p.next_index)), u) == shown_after(
                shown_after(m, c),
                partial_row(r, n),
            )
        }),
    decreases frags.len(),
{
    if frags.len() == 0 {
        assert(p.pending + frags.flatten() =~= p.pending);
        lemma_no_index_of_rebuilds(p.pending, p.next_index);
    } else {
        let f = frags[0];
        let fs = frags.drop_first();
        let (c1, r1, m1) = close_lines(p.pending + f, p.next_index);
        let q1 = ParserModel { pending: r1, next_index: m1 };
        lemma_close_lines_rest(p.pending + f, p.next_index);
        let (w, q) = feed(q1, fs);
        let (c2, r, n) = close_lines(r1 + fs.flatten(), m1);
        assert(p.pending + frags.flatten() =~= (p.pending + f) + fs.flatten());
        lemma_close_lines_append(p.pending + f, fs.flatten(), p.next_index);
        let m0 = shown_after(m, partial_row(p.pending, p.next_index));
        lemma_shown_after_append(m0, c1 + partial_row(r1, m1), w);
        lemma_shown_after_append(m0, c1, partial_row(r1, m1));
        lemma_partial_superseded(m, p, f);
        lemma_feed(q1, fs, shown_after(m, c1));
        lemma_shown_after_append(m, c1, c2);
    }
}

/// With nothing fed, closing lines over a newline-free buffer changes nothing.
proof fn lemma_no_index_of_rebuilds(pending: Seq<char>, n: nat)
    requires
        first_index_of(pending, '\n') is None,
    ensures
        close_lines(pending, n) == (Seq::<ToneModel>::empty(), pending, n),
{
}

/// Finishing supersedes the row shown for the unfinished line.
proof fn lemma_partial_then_finish(m: Map<nat, (Seq<char>, Seq<char>)>, r: Seq<char>, n: nat)
    ensures
        shown_after(
            shown_after(m, partial_row(r, n)),
            finish_model(ParserModel { pending: r, next_index: n }).0,
        ) == shown_after(m, finish_model(ParserModel { pending: r, next_index: n }).0),
{
    if partial_row(r, n).len() > 0 {
        let t = partial_row(r, n)[0];
        assert(partial_row(r, n) =~= seq![t]);
        lemma_shown_after_single(m, t);
        lemma_overwritten(m, n, (t.label, t.text), finish_model(ParserModel { pending: r, next_index: n }).0);
    }
}

} // verus!
