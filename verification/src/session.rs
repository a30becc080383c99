//! The live study session: the unknown and known lists, the cursor, the reveal
//! stage and the study direction.

use crate::card::{all_flagged, all_have_flag, clone_cards, flagged, normalized_pinyin, Card, CardView};
use crate::codec::{parse, parsed, serialize, serialized};
use crate::order::{
    is_index_permutation, is_permutation, lemma_reorder_keeps_items, random_order, reorder,
};
use vstd::arithmetic::div_mod::{lemma_mod_add_multiples_vanish, lemma_small_mod};
use vstd::prelude::*;

verus! {

/// Which of a card's three faces is shown.
#[derive(Clone, Copy, Debug, PartialEq, Eq, Structural)]
pub enum RevealStage {
    First,
    Second,
    Third,
}

/// Which field of a card comes first.
#[derive(Clone, Copy, Debug, PartialEq, Eq, Structural)]
pub enum StudyDirection {
    Normal,
    Reverse,
}

impl RevealStage {
    /// The stage after this one; the third leads back to the first.
    pub open spec fn following(self) -> RevealStage {
        match self {
            RevealStage::First => RevealStage::Second,
            RevealStage::Second => RevealStage::Third,
            RevealStage::Third => RevealStage::First,
        }
    }

    /// The stage after this one.
    pub fn next(self) -> (stage: RevealStage)
        ensures
            stage == self.following(),
    {
        match self {
            RevealStage::First => RevealStage::Second,
            RevealStage::Second => RevealStage::Third,
            RevealStage::Third => RevealStage::First,
        }
    }
}

impl StudyDirection {
    /// The other direction.
    pub open spec fn flipped(self) -> StudyDirection {
        match self {
            StudyDirection::Normal => StudyDirection::Reverse,
            StudyDirection::Reverse => StudyDirection::Normal,
        }
    }

    /// The other direction.
    pub fn flip(self) -> (direction: StudyDirection)
        ensures
            direction == self.flipped(),
    {
        match self {
            StudyDirection::Normal => StudyDirection::Reverse,
            StudyDirection::Reverse => StudyDirection::Normal,
        }
    }
}

/// The text of `card` shown at `stage` when studying in `direction`: word,
/// pinyin, translation in the normal direction, and the reverse of that in the
/// reverse direction. An absent pinyin shows as empty text.
pub open spec fn face_text(card: CardView, direction: StudyDirection, stage: RevealStage) -> Seq<
    char,
> {
    match (direction, stage) {
        (StudyDirection::Normal, RevealStage::First) => card.word,
        (StudyDirection::Normal, RevealStage::Third) => card.translation,
        (StudyDirection::Reverse, RevealStage::First) => card.translation,
        (StudyDirection::Reverse, RevealStage::Third) => card.word,
        (_, RevealStage::Second) => match card.pinyin {
            Some(p) => p,
            None => Seq::empty(),
        },
    }
}

/// The cursor after a card has left a list that now has `len` cards: it stays
/// where it was while that is still a position of the list, and goes back to
/// the start otherwise.
pub open spec fn clamped_cursor(cursor: int, len: int) -> int {
    if cursor < len {
        cursor
    } else {
        0
    }
}

/// Mathematical model of a [`SessionState`].
pub struct SessionView {
    pub unknown: Seq<CardView>,
    pub known: Seq<CardView>,
    pub cursor: int,
    pub stage: RevealStage,
    pub direction: StudyDirection,
}

impl SessionView {
    /// The cursor points at a card of the unknown list, or is 0 when that list
    /// is empty.
    pub open spec fn cursor_in_bounds(self) -> bool {
        if self.unknown.len() == 0 {
            self.cursor == 0
        } else {
            0 <= self.cursor < self.unknown.len()
        }
    }

    /// No card of the unknown list is flagged known, every card of the known
    /// list is, and the cursor is in bounds.
    pub open spec fn wf(self) -> bool {
        &&& all_flagged(self.unknown, false)
        &&& all_flagged(self.known, true)
        &&& self.cursor_in_bounds()
    }

    /// The session with no cards, at the first stage, in the normal direction.
    pub open spec fn empty() -> SessionView {
        SessionView {
            unknown: Seq::empty(),
            known: Seq::empty(),
            cursor: 0,
            stage: RevealStage::First,
            direction: StudyDirection::Normal,
        }
    }

    /// Both lists replaced by the cards of `cards`, split by their flag and
    /// kept in order; cursor and stage start over.
    pub open spec fn load(self, cards: Seq<CardView>) -> SessionView {
        SessionView {
            unknown: cards.filter(flagged(false)),
            known: cards.filter(flagged(true)),
            cursor: 0,
            stage: RevealStage::First,
            ..self
        }
    }

    /// Both lists replaced as given; cursor and stage start over.
    pub open spec fn with_lists(self, unknown: Seq<CardView>, known: Seq<CardView>) -> SessionView {
        SessionView { unknown, known, cursor: 0, stage: RevealStage::First, ..self }
    }

    /// The unknown card at `index` moved to the end of the known list. Nothing
    /// changes when there is no such card.
    pub open spec fn mark_known(self, index: int) -> SessionView {
        if 0 <= index < self.unknown.len() {
            SessionView {
                unknown: self.unknown.remove(index),
                known: self.known.push(self.unknown[index].with_known(true)),
                cursor: clamped_cursor(self.cursor, self.unknown.len() - 1),
                stage: RevealStage::First,
                ..self
            }
        } else {
            self
        }
    }

    /// The known card at `index` moved to the end of the unknown list. Nothing
    /// changes when there is no such card.
    pub open spec fn restore(self, index: int) -> SessionView {
        if 0 <= index < self.known.len() {
            SessionView {
                unknown: self.unknown.push(self.known[index].with_known(false)),
                known: self.known.remove(index),
                ..self
            }
        } else {
            self
        }
    }

    /// The unknown card at `index` dropped. Nothing changes when there is no
    /// such card.
    pub open spec fn delete_unknown(self, index: int) -> SessionView {
        if 0 <= index < self.unknown.len() {
            SessionView {
                unknown: self.unknown.remove(index),
                cursor: clamped_cursor(self.cursor, self.unknown.len() - 1),
                stage: RevealStage::First,
                ..self
            }
        } else {
            self
        }
    }

    /// The known card at `index` dropped. Nothing changes when there is no
    /// such card.
    pub open spec fn delete_known(self, index: int) -> SessionView {
        if 0 <= index < self.known.len() {
            SessionView { known: self.known.remove(index), ..self }
        } else {
            self
        }
    }

    /// A new unknown card appended; an empty pinyin counts as absent.
    pub open spec fn add(
        self,
        word: Seq<char>,
        pinyin: Option<Seq<char>>,
        translation: Seq<char>,
    ) -> SessionView {
        SessionView {
            unknown: self.unknown.push(
                CardView { word, pinyin: normalized_pinyin(pinyin), translation, known: false },
            ),
            ..self
        }
    }

    /// The unknown list rearranged so that position `i` holds the card that
    /// was at `order[i]`; cursor and stage start over, also when the list is
    /// empty. Nothing changes when `order` does not name every position of the
    /// list exactly once.
    pub open spec fn reordered(self, order: Seq<usize>) -> SessionView {
        if !is_permutation(order, self.unknown.len()) {
            self
        } else {
            SessionView {
                unknown: reorder(self.unknown, order),
                cursor: 0,
                stage: RevealStage::First,
                ..self
            }
        }
    }

    /// The cursor moved one card forward, wrapping at the end. Nothing changes
    /// when the unknown list is empty.
    pub open spec fn advance(self) -> SessionView {
        if self.unknown.len() == 0 {
            self
        } else {
            SessionView {
                cursor: (self.cursor + 1) % (self.unknown.len() as int),
                stage: RevealStage::First,
                ..self
            }
        }
    }

    /// The cursor moved one card back, wrapping at the start. Nothing changes
    /// when the unknown list is empty.
    pub open spec fn retreat(self) -> SessionView {
        if self.unknown.len() == 0 {
            self
        } else {
            SessionView {
                cursor: (self.cursor - 1 + self.unknown.len()) % (self.unknown.len() as int),
                stage: RevealStage::First,
                ..self
            }
        }
    }

    /// The next reveal stage of the same card.
    pub open spec fn cycle_stage(self) -> SessionView {
        SessionView { stage: self.stage.following(), ..self }
    }

    /// The other study direction, starting at the first stage.
    pub open spec fn toggle_direction(self) -> SessionView {
        SessionView { direction: self.direction.flipped(), stage: RevealStage::First, ..self }
    }

    /// The text on show: the face of the card under the cursor, or nothing
    /// when the unknown list is empty.
    pub open spec fn displayed_text(self) -> Option<Seq<char>> {
        if 0 <= self.cursor < self.unknown.len() {
            Some(face_text(self.unknown[self.cursor], self.direction, self.stage))
        } else {
            None
        }
    }
}

/// The text of `card` shown at `stage` when studying in `direction`.
pub fn face(card: &Card, direction: StudyDirection, stage: RevealStage) -> (text: String)
    ensures
        text@ == face_text(card@, direction, stage),
{
    match stage {
        RevealStage::First => match direction {
            StudyDirection::Normal => card.word.clone(),
            StudyDirection::Reverse => card.translation.clone(),
        },
        RevealStage::Second => match &card.pinyin {
            Some(p) => p.clone(),
            None => String::new(),
        },
        RevealStage::Third => match direction {
            StudyDirection::Normal => card.translation.clone(),
            StudyDirection::Reverse => card.word.clone(),
        },
    }
}

/// The live session. Every value of this type is well formed: no card of the
/// unknown list is flagged known, every card of the known list is, and the
/// cursor is a position of the unknown list, or 0 when that list is empty.
pub struct SessionState {
    unknown_cards: Vec<Card>,
    known_cards: Vec<Card>,
    cursor_index: usize,
    stage: RevealStage,
    direction: StudyDirection,
}

impl View for SessionState {
    type V = SessionView;

    closed spec fn view(&self) -> SessionView {
        SessionView {
            unknown: self.unknown_cards.deep_view(),
            known: self.known_cards.deep_view(),
            cursor: self.cursor_index as int,
            stage: self.stage,
            direction: self.direction,
        }
    }
}

impl Clone for SessionState {
    fn clone(&self) -> (res: SessionState)
        ensures
            res@ == self@,
    {
        proof {
            use_type_invariant(self);
        }
        SessionState {
            unknown_cards: clone_cards(&self.unknown_cards),
            known_cards: clone_cards(&self.known_cards),
            cursor_index: self.cursor_index,
            stage: self.stage,
            direction: self.direction,
        }
    }
}

impl SessionState {
    /// What holds of every value of this type.
    #[verifier::type_invariant]
    pub open spec fn well_formed(self) -> bool {
        self@.wf()
    }

    /// A session without cards.
    pub fn new() -> (state: SessionState)
        ensures
            state@ == SessionView::empty(),
            state@.wf(),
    {
        let unknown_cards: Vec<Card> = Vec::new();
        let known_cards: Vec<Card> = Vec::new();
        assert(unknown_cards.deep_view() =~= Seq::empty());
        assert(known_cards.deep_view() =~= Seq::empty());
        SessionState {
            unknown_cards,
            known_cards,
            cursor_index: 0,
            stage: RevealStage::First,
            direction: StudyDirection::Normal,
        }
    }

    /// A session made of the given parts, when they fit together: no card of
    /// `unknown` is flagged known, every card of `known` is, and `cursor_index`
    /// is a position of `unknown`, or 0 when `unknown` is empty.
    pub fn from_parts(
        unknown: Vec<Card>,
        known: Vec<Card>,
        cursor_index: usize,
        stage: RevealStage,
        direction: StudyDirection,
    ) -> (res: Option<SessionState>)
        ensures
            ({
                let parts = SessionView {
                    unknown: unknown.deep_view(),
                    known: known.deep_view(),
                    cursor: cursor_index as int,
                    stage,
                    direction,
                };
                match res {
                    Some(state) => parts.wf() && state@ == parts,
                    None => !parts.wf(),
                }
            }),
    {
        let cursor_fits = if unknown.len() == 0 {
            cursor_index == 0
        } else {
            cursor_index < unknown.len()
        };
        if cursor_fits && all_have_flag(&unknown, false) && all_have_flag(&known, true) {
            Some(
                SessionState {
                    unknown_cards: unknown,
                    known_cards: known,
                    cursor_index,
                    stage,
                    direction,
                },
            )
        } else {
            None
        }
    }

    /// Takes the session out and leaves an empty one in its place.
    fn take(&mut self) -> (taken: SessionState)
        ensures
            taken@ == old(self)@,
            taken@.wf(),
    {
        proof {
            use_type_invariant(&*self);
        }
        let mut taken = SessionState::new();
        core::mem::swap(self, &mut taken);
        taken
    }

    /// The cards still to learn, in study order.
    pub fn unknown_cards(&self) -> (cards: &Vec<Card>)
        ensures
            cards.deep_view() == self@.unknown,
            self@.wf(),
    {
        proof {
            use_type_invariant(self);
        }
        &self.unknown_cards
    }

    /// The cards already known, in the order in which they became known.
    pub fn known_cards(&self) -> (cards: &Vec<Card>)
        ensures
            cards.deep_view() == self@.known,
            self@.wf(),
    {
        proof {
            use_type_invariant(self);
        }
        &self.known_cards
    }

    /// The position of the card on show in the unknown list; 0 when that list
    /// is empty.
    pub fn cursor_index(&self) -> (index: usize)
        ensures
            index == self@.cursor,
            self@.wf(),
    {
        proof {
            use_type_invariant(self);
        }
        self.cursor_index
    }

    /// The face on show.
    pub fn stage(&self) -> (stage: RevealStage)
        ensures
            stage == self@.stage,
    {
        self.stage
    }

    /// The study direction.
    pub fn direction(&self) -> (direction: StudyDirection)
        ensures
            direction == self@.direction,
    {
        self.direction
    }

    /// The text on show: the current face of the card under the cursor, or
    /// `None` when there is no unknown card.
    pub fn displayed_text(&self) -> (text: Option<String>)
        ensures
            match text {
                Some(t) => self@.displayed_text() == Some(t@),
                None => self@.displayed_text() is None,
            },
    {
        if self.cursor_index < self.unknown_cards.len() {
            Some(face(&self.unknown_cards[self.cursor_index], self.direction, self.stage))
        } else {
            None
        }
    }

    /// Replaces both lists by the cards of `cards`, split by their flag and
    /// kept in order, and starts over at the first card and the first face.
    pub fn load(&mut self, cards: &Vec<Card>)
        ensures
            final(self)@ == old(self)@.load(cards.deep_view()),
            final(self)@.wf(),
    {
        let ghost all = cards.deep_view();
        let mut unknown: Vec<Card> = Vec::new();
        let mut known: Vec<Card> = Vec::new();
        let mut i: usize = 0;
        proof {
            reveal(Seq::filter);
            assert(all.take(0).filter(flagged(false)) =~= Seq::empty());
            assert(all.take(0).filter(flagged(true)) =~= Seq::empty());
            assert(unknown.deep_view() =~= Seq::empty());
            assert(known.deep_view() =~= Seq::empty());
        }
        while i < cards.len()
            invariant
                i <= cards.len(),
                all == cards.deep_view(),
                unknown.deep_view() == all.take(i as int).filter(flagged(false)),
                known.deep_view() == all.take(i as int).filter(flagged(true)),
            decreases cards.len() - i,
        {
            let card = cards[i].clone();
            let ghost before_unknown = unknown.deep_view();
            let ghost before_known = known.deep_view();
            proof {
                reveal(Seq::filter);
                assert(all.take(i + 1).drop_last() =~= all.take(i as int));
                assert(all.take(i + 1).last() == card@);
            }
            if card.known {
                known.push(card);
                assert(known.deep_view() =~= before_known.push(card@));
            } else {
                unknown.push(card);
                assert(unknown.deep_view() =~= before_unknown.push(card@));
            }
            i += 1;
        }
        proof {
            assert(all.take(cards.len() as int) =~= all);
            let unknown_view = all.filter(flagged(false));
            let known_view = all.filter(flagged(true));
            assert forall|j: int| 0 <= j < unknown_view.len() implies !(
            #[trigger] unknown_view[j]).known by {
                all.lemma_filter_pred(flagged(false), j);
            }
            assert forall|j: int| 0 <= j < known_view.len() implies (
            #[trigger] known_view[j]).known by {
                all.lemma_filter_pred(flagged(true), j);
            }
        }
        self.replace_lists(unknown, known);
    }

    /// Reads cards from CSV text and loads them as [`SessionState::load`] does.
    pub fn import(&mut self, text: &str)
        ensures
            final(self)@ == old(self)@.load(parsed(text@)),
            final(self)@.wf(),
    {
        let cards = parse(text);
        self.load(&cards);
    }

    /// Replaces both lists as given and starts over at the first card and the
    /// first face.
    pub(crate) fn replace_lists(&mut self, unknown: Vec<Card>, known: Vec<Card>)
        requires
            all_flagged(unknown.deep_view(), false),
            all_flagged(known.deep_view(), true),
        ensures
            final(self)@ == old(self)@.with_lists(unknown.deep_view(), known.deep_view()),
            final(self)@.wf(),
    {
        *self = SessionState {
            unknown_cards: unknown,
            known_cards: known,
            cursor_index: 0,
            stage: RevealStage::First,
            direction: self.direction,
        };
    }

    /// The session as CSV text: every unknown card, then every known card.
    /// There is always a text.
    pub fn export(&self) -> (text: Option<String>)
        ensures
            text is Some,
            text.deep_view() == serialized(self@.unknown + self@.known),
    {
        let mut all = clone_cards(&self.unknown_cards);
        let mut i: usize = 0;
        while i < self.known_cards.len()
            invariant
                i <= self.known_cards.len(),
                all.deep_view() == self.unknown_cards.deep_view()
                    + self.known_cards.deep_view().take(i as int),
            decreases self.known_cards.len() - i,
        {
            let ghost before = all.deep_view();
            let card = self.known_cards[i].clone();
            all.push(card);
            assert(all.deep_view() =~= before.push(card@));
            assert(self.known_cards.deep_view().take(i + 1) =~= self.known_cards.deep_view().take(
                i as int,
            ).push(card@));
            i += 1;
        }
        assert(self.known_cards.deep_view().take(self.known_cards.len() as int)
            =~= self.known_cards.deep_view());
        serialize(&all)
    }

    /// Rearranges the unknown list so that position `i` holds the card that
    /// was at `order[i]`, and starts over at the first card and the first face.
    /// Does nothing, and says so, unless `order` names every position of the
    /// list exactly once. For an empty list the empty order is the one that
    /// does: the list stays empty and the stage goes back to the first.
    pub fn shuffle_with(&mut self, order: &Vec<usize>) -> (applied: bool)
        ensures
            applied == is_permutation(order@, old(self)@.unknown.len()),
            final(self)@ == old(self)@.reordered(order@),
            final(self)@.wf(),
    {
        proof {
            use_type_invariant(&*self);
        }
        let len = self.unknown_cards.len();
        if !is_index_permutation(order, len) {
            return false;
        }
        let mut cards: Vec<Card> = Vec::new();
        let mut i: usize = 0;
        while i < len
            invariant
                i <= len,
                len == self.unknown_cards.len(),
                is_permutation(order@, len as nat),
                cards.len() == i,
                forall|j: int| 0 <= j < i ==> cards[j]@ == self.unknown_cards[order[j] as int]@,
            decreases len - i,
        {
            cards.push(self.unknown_cards[order[i]].clone());
            i += 1;
        }
        assert(cards.deep_view() =~= old(self)@.reordered(order@).unknown);
        let SessionState { unknown_cards: _, known_cards, cursor_index: _, stage: _, direction } =
            self.take();
        *self = SessionState {
            unknown_cards: cards,
            known_cards,
            cursor_index: 0,
            stage: RevealStage::First,
            direction,
        };
        true
    }

    /// Puts the unknown cards in a random order and starts over at the first
    /// card and the first face. The known list keeps its order. Without
    /// unknown cards there is nothing to rearrange: the lists and the cursor
    /// stay, and the stage goes back to the first.
    pub fn shuffle(&mut self)
        ensures
            exists|order: Seq<usize>|
                is_permutation(order, old(self)@.unknown.len()) && final(self)@ == old(self)@.reordered(
                    order,
                ),
            final(self)@.unknown.to_multiset() == old(self)@.unknown.to_multiset(),
            final(self)@.known == old(self)@.known,
            final(self)@.cursor == 0,
            final(self)@.stage == RevealStage::First,
            final(self)@.direction == old(self)@.direction,
            final(self)@.wf(),
    {
        let order = random_order(self.unknown_cards.len());
        let applied = self.shuffle_with(&order);
        assert(applied);
        proof {
            lemma_reorder_keeps_items(old(self)@.unknown, order@);
        }
    }

    /// Moves the unknown card at `index` to the end of the known list and
    /// flags it known. The cursor goes back to the start when it no longer
    /// points into the list, and the stage to the first. Does nothing when
    /// `index` names no unknown card.
    pub fn mark_known(&mut self, index: usize)
        ensures
            final(self)@ == old(self)@.mark_known(index as int),
            final(self)@.wf(),
    {
        proof {
            use_type_invariant(&*self);
        }
        if index < self.unknown_cards.len() {
            let SessionState { mut unknown_cards, mut known_cards, cursor_index, stage: _, direction } =
                self.take();
            let mut card = unknown_cards.remove(index);
            card.known = true;
            known_cards.push(card);
            let cursor_index = if cursor_index < unknown_cards.len() {
                cursor_index
            } else {
                0
            };
            assert(unknown_cards.deep_view() =~= old(self)@.unknown.remove(index as int));
            assert(known_cards.deep_view() =~= old(self)@.known.push(card@));
            *self = SessionState {
                unknown_cards,
                known_cards,
                cursor_index,
                stage: RevealStage::First,
                direction,
            };
        }
    }

    /// Moves the known card at `index` to the end of the unknown list and
    /// clears its flag. The cursor stays. Does nothing when `index` names no
    /// known card.
    pub fn restore(&mut self, index: usize)
        ensures
            final(self)@ == old(self)@.restore(index as int),
            final(self)@.wf(),
    {
        proof {
            use_type_invariant(&*self);
        }
        if index < self.known_cards.len() {
            let SessionState { mut unknown_cards, mut known_cards, cursor_index, stage, direction } =
                self.take();
            let mut card = known_cards.remove(index);
            card.known = false;
            unknown_cards.push(card);
            assert(known_cards.deep_view() =~= old(self)@.known.remove(index as int));
            assert(unknown_cards.deep_view() =~= old(self)@.unknown.push(card@));
            *self = SessionState { unknown_cards, known_cards, cursor_index, stage, direction };
        }
    }

    /// Drops the unknown card at `index` for good. Cursor and stage move as
    /// they do in [`SessionState::mark_known`]. Does nothing when `index` names
    /// no unknown card.
    pub fn delete_unknown(&mut self, index: usize)
        ensures
            final(self)@ == old(self)@.delete_unknown(index as int),
            final(self)@.wf(),
    {
        proof {
            use_type_invariant(&*self);
        }
        if index < self.unknown_cards.len() {
            let SessionState { mut unknown_cards, known_cards, cursor_index, stage: _, direction } =
                self.take();
            let _ = unknown_cards.remove(index);
            let cursor_index = if cursor_index < unknown_cards.len() {
                cursor_index
            } else {
                0
            };
            assert(unknown_cards.deep_view() =~= old(self)@.unknown.remove(index as int));
            *self = SessionState {
                unknown_cards,
                known_cards,
                cursor_index,
                stage: RevealStage::First,
                direction,
            };
        }
    }

    /// Drops the known card at `index` for good. Does nothing when `index`
    /// names no known card.
    pub fn delete_known(&mut self, index: usize)
        ensures
            final(self)@ == old(self)@.delete_known(index as int),
            final(self)@.wf(),
    {
        proof {
            use_type_invariant(&*self);
        }
        if index < self.known_cards.len() {
            let SessionState { unknown_cards, mut known_cards, cursor_index, stage, direction } =
                self.take();
            let _ = known_cards.remove(index);
            assert(known_cards.deep_view() =~= old(self)@.known.remove(index as int));
            *self = SessionState { unknown_cards, known_cards, cursor_index, stage, direction };
        }
    }

    /// Appends a new unknown card. An empty pinyin is stored as an absent one.
    pub fn add(&mut self, word: String, pinyin: Option<String>, translation: String)
        ensures
            final(self)@ == old(self)@.add(
                word@,
                match pinyin {
                    Some(p) => Some(p@),
                    None => None,
                },
                translation@,
            ),
            final(self)@.wf(),
    {
        let card = Card::new(word, pinyin, translation);
        let SessionState { mut unknown_cards, known_cards, cursor_index, stage, direction } =
            self.take();
        unknown_cards.push(card);
        assert(unknown_cards.deep_view() =~= old(self)@.unknown.push(card@));
        *self = SessionState { unknown_cards, known_cards, cursor_index, stage, direction };
    }

    /// Moves the cursor to the next unknown card, from the last one to the
    /// first, and shows its first face. Does nothing when there is no unknown
    /// card.
    pub fn advance(&mut self)
        ensures
            final(self)@ == old(self)@.advance(),
            final(self)@.wf(),
    {
        proof {
            use_type_invariant(&*self);
        }
        let len = self.unknown_cards.len();
        if len > 0 {
            self.cursor_index = (self.cursor_index + 1) % len;
            self.stage = RevealStage::First;
        }
    }

    /// Moves the cursor to the previous unknown card, from the first one to
    /// the last, and shows its first face. Does nothing when there is no
    /// unknown card.
    pub fn retreat(&mut self)
        ensures
            final(self)@ == old(self)@.retreat(),
            final(self)@.wf(),
    {
        proof {
            use_type_invariant(&*self);
        }
        let len = self.unknown_cards.len();
        if len > 0 {
            proof {
                let cursor = self.cursor_index as int;
                if cursor == 0 {
                    lemma_small_mod((len - 1) as nat, len as nat);
                } else {
                    lemma_mod_add_multiples_vanish(cursor - 1, len as int);
                    lemma_small_mod((cursor - 1) as nat, len as nat);
                }
            }
            self.cursor_index = if self.cursor_index == 0 {
                len - 1
            } else {
                self.cursor_index - 1
            };
            self.stage = RevealStage::First;
        }
    }

    /// Shows the next face of the card under the cursor.
    pub fn cycle_stage(&mut self)
        ensures
            final(self)@ == old(self)@.cycle_stage(),
            final(self)@.wf(),
    {
        proof {
            use_type_invariant(&*self);
        }
        self.stage = self.stage.next();
    }

    /// Switches the study direction and goes back to the first face.
    pub fn toggle_direction(&mut self)
        ensures
            final(self)@ == old(self)@.toggle_direction(),
            final(self)@.wf(),
    {
        proof {
            use_type_invariant(&*self);
        }
        self.direction = self.direction.flip();
        self.stage = RevealStage::First;
    }
}

} // verus!
