//! Flashcard decks: one card to a line, front and back parted by a bar.

use vstd::prelude::*;
use vstd::string::*;

verus! {

/// What parts the front of a card from its back.
pub const BAR: char = '|';

/// Where `mark` first occurs in `text`, or the length of `text` where it does
/// not occur.
pub open spec fn first_index(text: Seq<char>, mark: char) -> int
    decreases text.len(),
{
    if text.len() == 0 || text[0] == mark {
        0
    } else {
        1 + first_index(text.skip(1), mark)
    }
}

/// A card as the contracts see it.
pub struct CardView {
    pub front: Seq<char>,
    pub back: Seq<char>,
}

/// The card that `line` holds: what stands before its first bar is the
/// front, what stands after it is the back. A line without a bar holds none.
pub open spec fn card_of(line: Seq<char>) -> Option<CardView> {
    let bar = first_index(line, BAR);
    if bar < line.len() {
        Some(CardView { front: line.take(bar), back: line.skip(bar + 1) })
    } else {
        None
    }
}

/// The cards that `lines` hold, in their order.
pub open spec fn cards_of(lines: Seq<Seq<char>>) -> Seq<CardView> {
    lines.filter_map(|line: Seq<char>| card_of(line))
}

/// The numbers of the lines among `lines` that hold no card, counted from
/// one, in rising order.
pub open spec fn lines_without_card(lines: Seq<Seq<char>>) -> Seq<int>
    decreases lines.len(),
{
    if lines.len() == 0 {
        Seq::empty()
    } else if card_of(lines.last()) is None {
        lines_without_card(lines.drop_last()).push(lines.len() as int)
    } else {
        lines_without_card(lines.drop_last())
    }
}

/// `first_index` is within the text, nothing before it is the mark, and the
/// mark stands there unless it is the end of the text.
pub proof fn lemma_first_index(text: Seq<char>, mark: char)
    ensures
        0 <= first_index(text, mark) <= text.len(),
        forall|i: int| 0 <= i < first_index(text, mark) ==> text[i] != mark,
        first_index(text, mark) < text.len() ==> text[first_index(text, mark)] == mark,
        first_index(text, mark) == text.len() <==> !text.contains(mark),
    decreases text.len(),
{
    if text.len() == 0 || text[0] == mark {
        if text.len() > 0 {
            assert(text.contains(mark));
        }
    } else {
        let rest = text.skip(1);
        lemma_first_index(rest, mark);
        let found = first_index(rest, mark);
        assert forall|i: int| 0 <= i < 1 + found implies text[i] != mark by {
            if i > 0 {
                assert(rest[i - 1] == text[i]);
            }
        }
        if found < rest.len() {
            assert(rest[found] == text[found + 1]);
            assert(text.contains(mark));
        } else {
            if text.contains(mark) {
                let i = choose|i: int| 0 <= i < text.len() && text[i] == mark;
                assert(rest[i - 1] == mark);
                assert(rest.contains(mark));
            }
        }
    }
}

/// A card.
#[derive(Debug, PartialEq, Eq)]
pub struct Card {
    pub front: String,
    pub back: String,
}

impl View for Card {
    type V = CardView;

    open spec fn view(&self) -> CardView {
        CardView { front: self.front@, back: self.back@ }
    }
}

/// The views of a list of cards.
pub open spec fn views_of(cards: Seq<Card>) -> Seq<CardView> {
    cards.map_values(|card: Card| card@)
}

/// A deck as it was read.
#[derive(Debug, PartialEq, Eq)]
pub struct Deck {
    /// The cards, in the order of their lines.
    pub cards: Vec<Card>,
    /// The numbers of the lines that hold no card, counted from one.
    pub skipped: Vec<usize>,
}

/// The card that `line` holds.
pub fn parse_card(line: &str) -> (card: Option<Card>)
    ensures
        match card {
            Some(card) => card_of(line@) == Some(card@),
            None => card_of(line@) is None,
        },
{
    proof {
        lemma_first_index(line@, BAR);
    }
    let length = line.unicode_len();
    let mut i: usize = 0;
    while i < length
        invariant
            i <= length,
            length == line@.len(),
            forall|j: int| 0 <= j < i ==> line@[j] != BAR,
        decreases length - i,
    {
        if line.get_char(i) == BAR {
            assert(first_index(line@, BAR) == i) by {
                lemma_first_index(line@, BAR);
            }
            let front = line.substring_char(0, i);
            let back = line.substring_char(i + 1, length);
            proof {
                assert(line@.take(i as int) =~= front@);
                assert(line@.skip(i + 1) =~= back@);
            }
            return Some(Card { front: front.to_owned(), back: back.to_owned() });
        }
        i += 1;
    }
    assert(first_index(line@, BAR) == line@.len()) by {
        lemma_first_index(line@, BAR);
    }
    None
}

/// Reads a deck from its lines and notes the lines that hold no card.
pub fn parse_deck(lines: &Vec<String>) -> (deck: Deck)
    ensures
        views_of(deck.cards@) == cards_of(lines.deep_view()),
        deck.skipped@.map_values(|number: usize| number as int) == lines_without_card(
            lines.deep_view(),
        ),
{
    let ghost all = lines.deep_view();
    let ghost pick = |line: Seq<char>| card_of(line);
    let ghost number = |number: usize| number as int;
    let mut cards: Vec<Card> = Vec::new();
    let mut skipped: Vec<usize> = Vec::new();
    let mut i: usize = 0;
    assert(skipped@.map_values(number) =~= lines_without_card(all.take(0)));
    while i < lines.len()
        invariant
            i <= lines.len(),
            all == lines.deep_view(),
            pick == |line: Seq<char>| card_of(line),
            number == |number: usize| number as int,
            views_of(cards@) == all.take(i as int).filter_map(pick),
            skipped@.map_values(number) == lines_without_card(all.take(i as int)),
        decreases lines.len() - i,
    {
        proof {
            all.lemma_filter_map_take_succ(pick, i as int);
            assert(all[i as int] == lines@[i as int]@);
            assert(all.take(i + 1).drop_last() =~= all.take(i as int));
            assert(all.take(i + 1).last() == all[i as int]);
        }
        let ghost shorter = views_of(cards@);
        let ghost noted = skipped@.map_values(number);
        match parse_card(lines[i].as_str()) {
            Some(card) => {
                cards.push(card);
                assert(views_of(cards@) =~= shorter + seq![card@]);
            },
            None => {
                skipped.push(i + 1);
                assert(skipped@.map_values(number) =~= noted.push(i + 1));
            },
        }
        i += 1;
    }
    assert(all.take(i as int) =~= all);
    Deck { cards, skipped }
}

} // verus!
