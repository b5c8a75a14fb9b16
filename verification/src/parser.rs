//! The deck parser: turns a document's lines into an ordered deck of cards.
//!
//! A line that starts with `'#'` followed by one space opens a new section;
//! its remainder, trimmed of surrounding white space, is the section's title.
//! Every other line belongs to the body of the current section and is kept
//! verbatim, with one newline appended per line. A section is flushed into a
//! card at the next heading or at end of input; a section whose title is
//! blank after trimming is discarded together with its body.

use vstd::prelude::*;
use vstd::string::StrSliceExecFns;
use vstd::string::StringExecFns;

verus! {

/// One flashcard: a non-empty title (the front face), a body (the back
/// face, possibly empty), and an append-only record of recall outcomes.
/// The history is kept for future scheduling logic and is not consulted
/// when cards are selected.
#[derive(Debug)]
pub struct Card {
    pub title: String,
    pub body: String,
    pub history: Vec<bool>,
}

/// The mathematical value of a [`Card`].
pub ghost struct CardView {
    pub title: Seq<char>,
    pub body: Seq<char>,
    pub history: Seq<bool>,
}

impl View for Card {
    type V = CardView;

    open spec fn view(&self) -> CardView {
        CardView { title: self.title@, body: self.body@, history: self.history@ }
    }
}

impl Card {
    /// A card is well formed when its title is non-empty.
    pub open spec fn wf(self) -> bool {
        self@.title.len() > 0
    }

    /// Appends one recall outcome to the card's history; the history is
    /// append-only and nothing else about the card changes.
    pub fn record_outcome(&mut self, success: bool)
        ensures
            final(self)@.history == old(self)@.history.push(success),
            final(self)@.title == old(self)@.title,
            final(self)@.body == old(self)@.body,
    {
        self.history.push(success);
    }
}

/// The cards of a deck, as mathematical values.
pub open spec fn deck_view(cards: Seq<Card>) -> Seq<CardView> {
    cards.map_values(|c: Card| c@)
}

/// The lines of a document, as mathematical values.
pub open spec fn lines_view(lines: Seq<String>) -> Seq<Seq<char>> {
    lines.map_values(|s: String| s@)
}

/// Whether a character counts as white space. The library never interprets
/// this predicate; [`char_is_space`] is its only source.
pub uninterp spec fn is_space_char(c: char) -> bool;

/// Relies on `char::is_whitespace`: whether a character is white space
/// depends on the character alone.
#[verifier::external_body]
fn char_is_space(c: char) -> (r: bool)
    ensures
        r == is_space_char(c),
{
    c.is_whitespace()
}

/// A sequence of characters with its leading white space removed.
pub open spec fn trim_front(s: Seq<char>) -> Seq<char>
    decreases s.len(),
{
    if s.len() > 0 && is_space_char(s[0]) {
        trim_front(s.drop_first())
    } else {
        s
    }
}

/// A sequence of characters with its trailing white space removed.
pub open spec fn trim_back(s: Seq<char>) -> Seq<char>
    decreases s.len(),
{
    if s.len() > 0 && is_space_char(s.last()) {
        trim_back(s.drop_last())
    } else {
        s
    }
}

/// A sequence of characters with both leading and trailing white space
/// removed.
pub open spec fn trim_spec(s: Seq<char>) -> Seq<char> {
    trim_back(trim_front(s))
}

proof fn lemma_trim_front_at(s: Seq<char>, i: int)
    requires
        0 <= i <= s.len(),
        forall|k: int| 0 <= k < i ==> is_space_char(#[trigger] s[k]),
        i == s.len() || !is_space_char(s[i]),
    ensures
        trim_front(s) == s.subrange(i, s.len() as int),
    decreases i,
{
    if i == 0 {
        assert(s.subrange(0, s.len() as int) =~= s);
    } else {
        let t = s.drop_first();
        lemma_trim_front_at(t, i - 1);
        assert(t.subrange(i - 1, t.len() as int) =~= s.subrange(i, s.len() as int));
    }
}

proof fn lemma_trim_back_at(s: Seq<char>, j: int)
    requires
        0 <= j <= s.len(),
        forall|k: int| j <= k < s.len() ==> is_space_char(#[trigger] s[k]),
        j == 0 || !is_space_char(s[j - 1]),
    ensures
        trim_back(s) == s.subrange(0, j),
    decreases s.len() - j,
{
    if j == s.len() {
        if s.len() > 0 && is_space_char(s.last()) {
            let t = s.drop_last();
            lemma_trim_back_at(t, j - 1);
            assert(t.subrange(0, j - 1) =~= s.subrange(0, j - 1));
            assert(j - 1 == 0 || !is_space_char(s[j - 2]));
        } else {
            assert(s.subrange(0, j) =~= s);
        }
    } else {
        let t = s.drop_last();
        lemma_trim_back_at(t, j);
        assert(t.subrange(0, j) =~= s.subrange(0, j));
    }
}

/// Removes leading and trailing white space from a string slice.
pub fn trim_str(s: &str) -> (r: &str)
    ensures
        r@ == trim_spec(s@),
{
    let n = s.unicode_len();
    let mut i: usize = 0;
    while i < n && char_is_space(s.get_char(i))
        invariant
            0 <= i <= n,
            n == s@.len(),
            forall|k: int| 0 <= k < i ==> is_space_char(#[trigger] s@[k]),
        decreases n - i,
    {
        i = i + 1;
    }
    let mut j: usize = n;
    while j > i && char_is_space(s.get_char(j - 1))
        invariant
            i <= j <= n,
            n == s@.len(),
            forall|k: int| j <= k < n ==> is_space_char(#[trigger] s@[k]),
        decreases j,
    {
        j = j - 1;
    }
    proof {
        lemma_trim_front_at(s@, i as int);
        let t = s@.subrange(i as int, n as int);
        let j2 = j - i;
        assert(forall|k: int| j2 <= k < t.len() ==> is_space_char(#[trigger] t[k]));
        lemma_trim_back_at(t, j2 as int);
        assert(t.subrange(0, j2 as int) =~= s@.subrange(i as int, j as int));
    }
    s.substring_char(i, j)
}

/// A line opens a new section when it starts with `'#'` followed by one
/// space.
pub open spec fn is_heading(line: Seq<char>) -> bool {
    line.len() >= 2 && line[0] == '#' && line[1] == ' '
}

/// The remainder of a heading line after the `"# "` prefix.
pub open spec fn heading_rest(line: Seq<char>) -> Seq<char>
    recommends
        is_heading(line),
{
    line.subrange(2, line.len() as int)
}

/// A heading emits a card exactly when its trimmed remainder is non-empty.
pub open spec fn emits_card(line: Seq<char>) -> bool {
    is_heading(line) && trim_spec(heading_rest(line)).len() > 0
}

/// Tests whether a line opens a new section.
pub fn line_is_heading(line: &str) -> (r: bool)
    ensures
        r == is_heading(line@),
{
    let n = line.unicode_len();
    n >= 2 && line.get_char(0) == '#' && line.get_char(1) == ' '
}

/// The parser's intermediate state: the pending section title, if any, the
/// body text accumulated for it so far, and the cards already emitted.
pub ghost struct ParseState {
    pub pending: Option<Seq<char>>,
    pub buf: Seq<char>,
    pub out: Seq<CardView>,
}

/// The state before any line has been read.
pub open spec fn initial_state() -> ParseState {
    ParseState { pending: None, buf: Seq::empty(), out: Seq::empty() }
}

/// Finalizes the pending section: a pending title yields one more card
/// carrying the accumulated body and a fresh empty history; without a
/// pending title the accumulated body is discarded.
pub open spec fn flush(st: ParseState) -> Seq<CardView> {
    match st.pending {
        Some(t) => st.out.push(CardView { title: t, body: st.buf, history: Seq::empty() }),
        None => st.out,
    }
}

/// Reads one line: a heading flushes the pending section and starts a new
/// one, titled by its trimmed remainder when that is non-empty; any other
/// line is appended verbatim to the body, followed by one newline.
pub open spec fn step(st: ParseState, line: Seq<char>) -> ParseState {
    if is_heading(line) {
        let t = trim_spec(heading_rest(line));
        ParseState {
            pending: if t.len() > 0 { Some(t) } else { None },
            buf: Seq::empty(),
            out: flush(st),
        }
    } else {
        ParseState { pending: st.pending, buf: st.buf + line + seq!['\n'], out: st.out }
    }
}

/// The parser's state after reading all the given lines.
pub open spec fn run(lines: Seq<Seq<char>>) -> ParseState
    decreases lines.len(),
{
    if lines.len() == 0 {
        initial_state()
    } else {
        step(run(lines.drop_last()), lines.last())
    }
}

/// The deck a document parses to: run over every line, then one final
/// flush.
pub open spec fn parse_spec(lines: Seq<Seq<char>>) -> Seq<CardView> {
    flush(run(lines))
}

/// The number of headings among the given lines that emit a card.
pub open spec fn card_count(lines: Seq<Seq<char>>) -> nat
    decreases lines.len(),
{
    if lines.len() == 0 {
        0
    } else {
        card_count(lines.drop_last()) + (if emits_card(lines.last()) {
            1nat
        } else {
            0nat
        })
    }
}

/// The given lines concatenated in order, each followed by one newline.
pub open spec fn cat_lines(lines: Seq<Seq<char>>) -> Seq<char>
    decreases lines.len(),
{
    if lines.len() == 0 {
        Seq::empty()
    } else {
        cat_lines(lines.drop_last()) + lines.last() + seq!['\n']
    }
}

proof fn lemma_run_count(lines: Seq<Seq<char>>)
    ensures
        run(lines).out.len() + (if run(lines).pending is Some {
            1nat
        } else {
            0nat
        }) == card_count(lines),
    decreases lines.len(),
{
    if lines.len() > 0 {
        lemma_run_count(lines.drop_last());
    }
}

proof fn lemma_run_titles(lines: Seq<Seq<char>>)
    ensures
        run(lines).pending matches Some(t) ==> t.len() > 0,
        forall|k: int|
            0 <= k < run(lines).out.len() ==> (#[trigger] run(lines).out[k]).title.len() > 0
                && run(lines).out[k].history.len() == 0,
    decreases lines.len(),
{
    if lines.len() > 0 {
        lemma_run_titles(lines.drop_last());
    }
}

/// Law: every parsed card carries a non-empty title and a fresh, empty
/// history.
pub proof fn lemma_parse_cards_wf(lines: Seq<Seq<char>>)
    ensures
        forall|k: int|
            0 <= k < parse_spec(lines).len() ==> (#[trigger] parse_spec(lines)[k]).title.len() > 0
                && parse_spec(lines)[k].history.len() == 0,
{
    lemma_run_titles(lines);
}

/// Law: a document emits exactly one card per heading whose trimmed
/// remainder is non-empty.
pub proof fn lemma_card_count(lines: Seq<Seq<char>>)
    ensures
        parse_spec(lines).len() == card_count(lines),
{
    lemma_run_count(lines);
}

proof fn lemma_count_zero(lines: Seq<Seq<char>>)
    requires
        forall|k: int| 0 <= k < lines.len() ==> !is_heading(#[trigger] lines[k]),
    ensures
        card_count(lines) == 0,
    decreases lines.len(),
{
    if lines.len() > 0 {
        lemma_count_zero(lines.drop_last());
    }
}

/// Law: a document with no headings parses to an empty deck.
pub proof fn lemma_no_headings_empty_deck(lines: Seq<Seq<char>>)
    requires
        forall|k: int| 0 <= k < lines.len() ==> !is_heading(#[trigger] lines[k]),
    ensures
        parse_spec(lines).len() == 0,
{
    lemma_count_zero(lines);
    lemma_card_count(lines);
}

proof fn lemma_run_segment(lines: Seq<Seq<char>>, h: int, e: int)
    requires
        0 <= h < e <= lines.len(),
        emits_card(lines[h]),
        forall|j: int| h < j < e ==> !is_heading(#[trigger] lines[j]),
        e == lines.len() || is_heading(lines[e]),
    ensures
        e == lines.len() ==> run(lines).pending == Some(trim_spec(heading_rest(lines[h])))
            && run(lines).buf == cat_lines(lines.subrange(h + 1, e))
            && run(lines).out.len() == card_count(lines.take(h)),
        e < lines.len() ==> card_count(lines.take(h)) < run(lines).out.len()
            && run(lines).out[card_count(lines.take(h)) as int] == (CardView {
            title: trim_spec(heading_rest(lines[h])),
            body: cat_lines(lines.subrange(h + 1, e)),
            history: Seq::empty(),
        }),
    decreases lines.len(),
{
    let len = lines.len() as int;
    let prev = lines.drop_last();
    if e == len {
        if h == len - 1 {
            // The last line is the heading itself: it flushes what came
            // before and opens the pending section with an empty body.
            lemma_run_count(prev);
            assert(lines.take(h) =~= prev);
            assert(lines.subrange(h + 1, e) =~= Seq::<Seq<char>>::empty());
        } else {
            // The last line is a body line of the pending section.
            lemma_run_segment(prev, h, e - 1);
            assert(prev[h] == lines[h]);
            assert(lines.take(h) =~= prev.take(h));
            let body = lines.subrange(h + 1, e);
            assert(body.len() > 0);
            assert(body.drop_last() =~= prev.subrange(h + 1, e - 1));
            assert(body.last() == lines.last());
        }
    } else {
        if e == len - 1 {
            // The last line is the next heading: it flushes the section
            // into the deck.
            lemma_run_segment(prev, h, e);
            assert(prev[h] == lines[h]);
            assert(lines.take(h) =~= prev.take(h));
            assert(lines.subrange(h + 1, e) =~= prev.subrange(h + 1, e));
            assert(is_heading(lines.last()));
        } else {
            // The card was already emitted; later lines at most append
            // further cards after it.
            lemma_run_segment(prev, h, e);
            assert(prev[h] == lines[h]);
            assert(lines.take(h) =~= prev.take(h));
            assert(lines.subrange(h + 1, e) =~= prev.subrange(h + 1, e));
        }
    }
}

/// Law (round trip): for a heading whose trimmed remainder is non-empty,
/// followed by no further heading before position `e` (the next heading or
/// the end of input), the emitted card holds exactly that trimmed title
/// and the intervening lines concatenated in order, each followed by one
/// newline. The card's position in the deck is the number of cards emitted
/// by earlier headings.
pub proof fn lemma_round_trip(lines: Seq<Seq<char>>, h: int, e: int)
    requires
        0 <= h < e <= lines.len(),
        emits_card(lines[h]),
        forall|j: int| h < j < e ==> !is_heading(#[trigger] lines[j]),
        e == lines.len() || is_heading(lines[e]),
    ensures
        card_count(lines.take(h)) < parse_spec(lines).len(),
        parse_spec(lines)[card_count(lines.take(h)) as int] == (CardView {
            title: trim_spec(heading_rest(lines[h])),
            body: cat_lines(lines.subrange(h + 1, e)),
            history: Seq::empty(),
        }),
{
    lemma_run_segment(lines, h, e);
}

/// Flushes a section into the deck: with a title present, appends a card
/// holding that title, a copy of the body and a fresh empty history; with
/// no title, leaves the deck unchanged.
pub fn push_section(sections: &mut Vec<Card>, title: Option<String>, body: &String)
    requires
        title matches Some(t) ==> t@.len() > 0,
    ensures
        title matches Some(t) ==> deck_view(final(sections)@) == deck_view(old(sections)@).push(
            CardView { title: t@, body: body@, history: Seq::empty() },
        ),
        title is None ==> final(sections)@ == old(sections)@,
{
    if let Some(title) = title {
        let card = Card { title, body: body.clone(), history: Vec::new() };
        let ghost prev = sections@;
        sections.push(card);
        proof {
            assert(deck_view(sections@) =~= deck_view(prev).push(card@));
        }
    }
}

/// Parses a document, given as its lines, into a deck of cards, following
/// the model [`parse_spec`]. Every emitted card has a non-empty title and
/// an empty history.
pub fn parse(lines: &Vec<String>) -> (deck: Vec<Card>)
    ensures
        deck_view(deck@) == parse_spec(lines_view(lines@)),
        forall|k: int|
            0 <= k < deck@.len() ==> (#[trigger] deck@[k]).wf() && deck@[k]@.history.len() == 0,
{
    let ghost lv = lines_view(lines@);
    let mut cards: Vec<Card> = Vec::new();
    let mut current_title: Option<String> = None;
    let mut current_body: String = String::new();
    let mut i: usize = 0;
    proof {
        assert(lv.take(0) =~= Seq::<Seq<char>>::empty());
        assert(deck_view(cards@) =~= Seq::<CardView>::empty());
    }
    while i < lines.len()
        invariant
            0 <= i <= lines.len(),
            lv == lines_view(lines@),
            deck_view(cards@) == run(lv.take(i as int)).out,
            current_title matches Some(t) ==> run(lv.take(i as int)).pending == Some(t@)
                && t@.len() > 0,
            current_title is None ==> run(lv.take(i as int)).pending is None,
            current_body@ == run(lv.take(i as int)).buf,
        decreases lines.len() - i,
    {
        let line: &String = &lines[i];
        proof {
            assert(lv.take(i + 1).drop_last() =~= lv.take(i as int));
            assert(lv.take(i + 1).last() == line@);
        }
        let ghost st = run(lv.take(i as int));
        if line_is_heading(line.as_str()) {
            push_section(&mut cards, current_title.take(), &current_body);
            current_body = String::new();
            let n = line.as_str().unicode_len();
            let rest = line.as_str().substring_char(2, n);
            proof {
                assert(rest@ =~= heading_rest(line@));
            }
            let trimmed = trim_str(rest);
            if trimmed.is_empty() {
                current_title = None;
            } else {
                current_title = Some(String::from_str(trimmed));
            }
            proof {
                assert(deck_view(cards@) =~= flush(st));
            }
        } else {
            current_body.append(line.as_str());
            current_body.append("\n");
            proof {
                reveal_strlit("\n");
                assert("\n"@ =~= seq!['\n']);
                assert(current_body@ =~= st.buf + line@ + seq!['\n']);
            }
        }
        i = i + 1;
    }
    proof {
        assert(lv.take(lines@.len() as int) =~= lv);
    }
    push_section(&mut cards, current_title, &current_body);
    proof {
        lemma_parse_cards_wf(lv);
        assert(forall|k: int|
            0 <= k < cards@.len() ==> (#[trigger] cards@[k])@ == parse_spec(lv)[k]);
    }
    cards
}

} // verus!
