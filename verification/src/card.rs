//! The card record and its mathematical model.

use vstd::prelude::*;

verus! {

/// Mathematical model of a [`Card`]: its texts as character sequences.
pub struct CardView {
    pub word: Seq<char>,
    pub pinyin: Option<Seq<char>>,
    pub translation: Seq<char>,
    pub known: bool,
}

impl CardView {
    /// The same card with the given `known` flag.
    pub open spec fn with_known(self, known: bool) -> CardView {
        CardView { known, ..self }
    }

    /// The same card with an empty pinyin turned into an absent one.
    pub open spec fn normalized(self) -> CardView {
        CardView { pinyin: normalized_pinyin(self.pinyin), ..self }
    }
}

/// An empty pinyin counts as an absent one.
pub open spec fn normalized_pinyin(pinyin: Option<Seq<char>>) -> Option<Seq<char>> {
    match pinyin {
        Some(p) if p.len() > 0 => Some(p),
        _ => None,
    }
}

/// Every card of `cards` with an empty pinyin turned into an absent one.
pub open spec fn normalized_cards(cards: Seq<CardView>) -> Seq<CardView> {
    Seq::new(cards.len(), |i: int| cards[i].normalized())
}

/// The cards that carry the flag `known`.
pub open spec fn flagged(known: bool) -> spec_fn(CardView) -> bool {
    |card: CardView| card.known == known
}

/// Every card of `cards` carries the flag `known`.
pub open spec fn all_flagged(cards: Seq<CardView>, known: bool) -> bool {
    forall|i: int| 0 <= i < cards.len() ==> (#[trigger] cards[i]).known == known
}

/// One study unit: a word, its optional pinyin, its translation, and whether
/// the learner already knows it.
#[derive(Debug, PartialEq, Eq)]
pub struct Card {
    pub word: String,
    pub pinyin: Option<String>,
    pub translation: String,
    pub known: bool,
}

impl View for Card {
    type V = CardView;

    open spec fn view(&self) -> CardView {
        CardView {
            word: self.word@,
            pinyin: match self.pinyin {
                Some(p) => Some(p@),
                None => None,
            },
            translation: self.translation@,
            known: self.known,
        }
    }
}

impl DeepView for Card {
    type V = CardView;

    open spec fn deep_view(&self) -> CardView {
        self.view()
    }
}

impl Clone for Card {
    fn clone(&self) -> (res: Card)
        ensures
            res@ == self@,
    {
        let pinyin = match &self.pinyin {
            Some(p) => Some(p.clone()),
            None => None,
        };
        Card {
            word: self.word.clone(),
            pinyin,
            translation: self.translation.clone(),
            known: self.known,
        }
    }
}

impl Card {
    /// A new unknown card. An empty pinyin is stored as an absent one.
    pub fn new(word: String, pinyin: Option<String>, translation: String) -> (card: Card)
        ensures
            card@ == (CardView {
                word: word@,
                pinyin: normalized_pinyin(
                    match pinyin {
                        Some(p) => Some(p@),
                        None => None,
                    },
                ),
                translation: translation@,
                known: false,
            }),
    {
        let pinyin = match pinyin {
            Some(p) => if p.as_str().is_empty() {
                None
            } else {
                Some(p)
            },
            None => None,
        };
        Card { word, pinyin, translation, known: false }
    }
}

/// Whether every card of `cards` carries the flag `known`.
pub fn all_have_flag(cards: &Vec<Card>, known: bool) -> (res: bool)
    ensures
        res == all_flagged(cards.deep_view(), known),
{
    let mut i: usize = 0;
    while i < cards.len()
        invariant
            i <= cards.len(),
            forall|j: int| 0 <= j < i ==> (#[trigger] cards.deep_view()[j]).known == known,
        decreases cards.len() - i,
    {
        if cards[i].known != known {
            assert(cards.deep_view()[i as int].known != known);
            return false;
        }
        i += 1;
    }
    true
}

/// A copy of a list of cards.
pub fn clone_cards(cards: &Vec<Card>) -> (res: Vec<Card>)
    ensures
        res.deep_view() == cards.deep_view(),
{
    let mut res: Vec<Card> = Vec::new();
    let mut i: usize = 0;
    while i < cards.len()
        invariant
            i <= cards.len(),
            res.len() == i,
            forall|j: int| 0 <= j < i ==> res[j]@ == cards[j]@,
        decreases cards.len() - i,
    {
        res.push(cards[i].clone());
        i += 1;
    }
    assert(res.deep_view() =~= cards.deep_view());
    res
}

} // verus!
