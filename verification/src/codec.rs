//! The CSV codec: rows of `word,pinyin,translation[,known]` to cards and back.
//!
//! Splitting text into rows and quoting fields is the work of the `csv` crate;
//! what a row means as a card, and a card as a row, is decided here.

use crate::card::{normalized_cards, normalized_pinyin, Card, CardView};
use vstd::prelude::*;

verus! {

/// The rows, each a list of fields, that a `csv` reader without a header row
/// and with rows of any length reads from `text`, in order of appearance,
/// leaving out every row that the reader reports as an error.
pub uninterp spec fn csv_records(text: Seq<char>) -> Seq<Seq<Seq<char>>>;

/// What a `csv` writer with its default settings makes of `rows` written one
/// after the other: the text, or nothing when the writer reports an error.
pub uninterp spec fn csv_written(rows: Seq<Seq<Seq<char>>>) -> Option<Seq<char>>;

/// Reads every row of `text` with `csv::Reader::records`, on a reader built by
/// `csv::ReaderBuilder` with `has_headers(false)` and `flexible(true)`.
///
/// Trusted: the rows returned are those that the reader yields as `Ok`, in
/// order, each as its fields; no more is claimed than that this depends on the
/// text alone.
#[verifier::external_body]
fn read_records(text: &str) -> (rows: Vec<Vec<String>>)
    ensures
        rows.deep_view() == csv_records(text@),
{
    let mut reader = csv::ReaderBuilder::new().has_headers(false).flexible(true).from_reader(
        text.as_bytes(),
    );
    let mut rows = Vec::new();
    for record in reader.records() {
        if let Ok(fields) = record {
            rows.push(fields.iter().map(|field| field.to_string()).collect());
        }
    }
    rows
}

/// Writes `rows` with `csv::Writer::write_record`, one call per row, on a
/// writer made by `csv::Writer::from_writer` over an empty buffer, and takes the
/// buffer back with `into_inner`.
///
/// Trusted: the text returned is what the writer produced, and `None` stands
/// for an error at any step, which depends on the rows alone. Over a buffer in
/// memory the writer reports no error but for a row that has not as many
/// fields as the first, and what it makes of text is text: so rows of one
/// width give a text.
#[verifier::external_body]
fn write_records(rows: &Vec<Vec<String>>) -> (text: Option<String>)
    ensures
        text.deep_view() == csv_written(rows.deep_view()),
        same_width(rows.deep_view()) ==> text is Some,
{
    let mut writer = csv::Writer::from_writer(Vec::new());
    for row in rows {
        writer.write_record(row).ok()?;
    }
    String::from_utf8(writer.into_inner().ok()?).ok()
}

/// Every row has as many fields as the first.
pub open spec fn same_width(rows: Seq<Seq<Seq<char>>>) -> bool {
    forall|i: int| 0 <= i < rows.len() ==> (#[trigger] rows[i]).len() == rows[0].len()
}

/// The fourth field marks a card as known when it reads `true`, in any mix of
/// upper and lower case.
pub open spec fn is_true_word(field: Seq<char>) -> bool {
    &&& field.len() == 4
    &&& (field[0] == 't' || field[0] == 'T')
    &&& (field[1] == 'r' || field[1] == 'R')
    &&& (field[2] == 'u' || field[2] == 'U')
    &&& (field[3] == 'e' || field[3] == 'E')
}

/// The field written for a `known` flag.
pub open spec fn flag_text(known: bool) -> Seq<char> {
    if known {
        seq!['t', 'r', 'u', 'e']
    } else {
        seq!['f', 'a', 'l', 's', 'e']
    }
}

/// The card that a row stands for: missing fields read as empty, an empty or
/// missing second field as no pinyin, a missing fourth field as not known.
pub open spec fn card_of_row(row: Seq<Seq<char>>) -> CardView {
    CardView {
        word: if row.len() > 0 {
            row[0]
        } else {
            Seq::empty()
        },
        pinyin: if row.len() > 1 {
            normalized_pinyin(Some(row[1]))
        } else {
            None
        },
        translation: if row.len() > 2 {
            row[2]
        } else {
            Seq::empty()
        },
        known: row.len() > 3 && is_true_word(row[3]),
    }
}

/// The cards that a list of rows stands for, one per row, in order.
pub open spec fn cards_of_rows(rows: Seq<Seq<Seq<char>>>) -> Seq<CardView> {
    Seq::new(rows.len(), |i: int| card_of_row(rows[i]))
}

/// The row written for a card: word, pinyin or an empty field, translation,
/// and the `known` flag.
pub open spec fn row_of_card(card: CardView) -> Seq<Seq<char>> {
    seq![
        card.word,
        match card.pinyin {
            Some(p) => p,
            None => Seq::empty(),
        },
        card.translation,
        flag_text(card.known),
    ]
}

/// The rows written for a list of cards, one per card, in order.
pub open spec fn rows_of_cards(cards: Seq<CardView>) -> Seq<Seq<Seq<char>>> {
    Seq::new(cards.len(), |i: int| row_of_card(cards[i]))
}

/// The cards read from `text`.
pub open spec fn parsed(text: Seq<char>) -> Seq<CardView> {
    cards_of_rows(csv_records(text))
}

/// The text written for `cards`, if the writer gives one.
pub open spec fn serialized(cards: Seq<CardView>) -> Option<Seq<char>> {
    csv_written(rows_of_cards(cards))
}

/// The text written for `cards`, if the writer gives one and reading it gives
/// back the rows that were written.
pub open spec fn serialized_checked(cards: Seq<CardView>) -> Option<Seq<char>> {
    match serialized(cards) {
        Some(text) if csv_records(text) == rows_of_cards(cards) => Some(text),
        _ => None,
    }
}

/// Whether a fourth field marks its card as known.
pub fn parse_known(field: &str) -> (known: bool)
    ensures
        known == is_true_word(field@),
{
    if field.unicode_len() != 4 {
        return false;
    }
    let c0 = field.get_char(0);
    let c1 = field.get_char(1);
    let c2 = field.get_char(2);
    let c3 = field.get_char(3);
    (c0 == 't' || c0 == 'T') && (c1 == 'r' || c1 == 'R') && (c2 == 'u' || c2 == 'U') && (c3 == 'e'
        || c3 == 'E')
}

/// The card that one row stands for.
pub fn card_from_row(row: &Vec<String>) -> (card: Card)
    ensures
        card@ == card_of_row(row.deep_view()),
{
    let word = if row.len() > 0 {
        row[0].clone()
    } else {
        String::new()
    };
    let pinyin = if row.len() > 1 && !row[1].as_str().is_empty() {
        Some(row[1].clone())
    } else {
        None
    };
    let translation = if row.len() > 2 {
        row[2].clone()
    } else {
        String::new()
    };
    let known = row.len() > 3 && parse_known(row[3].as_str());
    Card { word, pinyin, translation, known }
}

/// The cards that a list of rows stands for.
pub fn cards_from_rows(rows: &Vec<Vec<String>>) -> (cards: Vec<Card>)
    ensures
        cards.deep_view() == cards_of_rows(rows.deep_view()),
{
    let mut cards: Vec<Card> = Vec::new();
    let mut i: usize = 0;
    while i < rows.len()
        invariant
            i <= rows.len(),
            cards.len() == i,
            forall|j: int| 0 <= j < i ==> cards[j]@ == card_of_row(rows[j].deep_view()),
        decreases rows.len() - i,
    {
        cards.push(card_from_row(&rows[i]));
        i += 1;
    }
    assert(cards.deep_view() =~= cards_of_rows(rows.deep_view()));
    cards
}

/// Reads cards from CSV text without a header row. Rows that the reader
/// rejects are left out; nothing is reported.
pub fn parse(text: &str) -> (cards: Vec<Card>)
    ensures
        cards.deep_view() == parsed(text@),
{
    let rows = read_records(text);
    cards_from_rows(&rows)
}

/// The row written for one card.
pub fn row_from_card(card: &Card) -> (row: Vec<String>)
    ensures
        row.deep_view() == row_of_card(card@),
{
    let pinyin = match &card.pinyin {
        Some(p) => p.clone(),
        None => String::new(),
    };
    let flag = if card.known {
        proof {
            reveal_strlit("true");
        }
        "true".to_owned()
    } else {
        proof {
            reveal_strlit("false");
        }
        "false".to_owned()
    };
    assert(flag@ =~= flag_text(card.known));
    let mut row: Vec<String> = Vec::new();
    row.push(card.word.clone());
    row.push(pinyin);
    row.push(card.translation.clone());
    row.push(flag);
    assert(row.deep_view() =~= row_of_card(card@));
    row
}

/// The rows written for a list of cards.
pub fn rows_from_cards(cards: &Vec<Card>) -> (rows: Vec<Vec<String>>)
    ensures
        rows.deep_view() == rows_of_cards(cards.deep_view()),
{
    let mut rows: Vec<Vec<String>> = Vec::new();
    let mut i: usize = 0;
    while i < cards.len()
        invariant
            i <= cards.len(),
            rows.len() == i,
            forall|j: int| 0 <= j < i ==> rows[j].deep_view() == row_of_card(cards[j]@),
        decreases cards.len() - i,
    {
        rows.push(row_from_card(&cards[i]));
        i += 1;
    }
    assert(rows.deep_view() =~= rows_of_cards(cards.deep_view()));
    rows
}

/// Writes cards as CSV text, one row per card in the order given. Every row
/// has four fields, so the writer has no error to report and there is always
/// a text.
pub fn serialize(cards: &Vec<Card>) -> (text: Option<String>)
    ensures
        text is Some,
        text.deep_view() == serialized(cards.deep_view()),
{
    let rows = rows_from_cards(cards);
    proof {
        lemma_rows_of_cards_same_width(cards.deep_view());
    }
    write_records(&rows)
}

/// The rows written for cards have four fields each.
pub proof fn lemma_rows_of_cards_same_width(cards: Seq<CardView>)
    ensures
        same_width(rows_of_cards(cards)),
        forall|i: int| 0 <= i < cards.len() ==> (#[trigger] rows_of_cards(cards)[i]).len() == 4,
{
    assert forall|i: int| 0 <= i < cards.len() implies (#[trigger] rows_of_cards(cards)[i]).len()
        == 4 by {
        assert(rows_of_cards(cards)[i] == row_of_card(cards[i]));
    }
}

/// Whether two rows hold the same fields.
fn same_fields(left: &Vec<String>, right: &Vec<String>) -> (same: bool)
    ensures
        same == (left.deep_view() == right.deep_view()),
{
    if left.len() != right.len() {
        assert(left.deep_view().len() != right.deep_view().len());
        return false;
    }
    let mut i: usize = 0;
    while i < left.len()
        invariant
            i <= left.len(),
            left.len() == right.len(),
            forall|j: int| 0 <= j < i ==> left[j]@ == right[j]@,
        decreases left.len() - i,
    {
        if left[i] != right[i] {
            assert(left.deep_view()[i as int] != right.deep_view()[i as int]);
            return false;
        }
        i += 1;
    }
    assert(left.deep_view() =~= right.deep_view());
    true
}

/// Whether two lists hold the same rows.
fn same_rows(left: &Vec<Vec<String>>, right: &Vec<Vec<String>>) -> (same: bool)
    ensures
        same == (left.deep_view() == right.deep_view()),
{
    if left.len() != right.len() {
        assert(left.deep_view().len() != right.deep_view().len());
        return false;
    }
    let mut i: usize = 0;
    while i < left.len()
        invariant
            i <= left.len(),
            left.len() == right.len(),
            forall|j: int| 0 <= j < i ==> left[j].deep_view() == right[j].deep_view(),
        decreases left.len() - i,
    {
        if !same_fields(&left[i], &right[i]) {
            assert(left.deep_view()[i as int] != right.deep_view()[i as int]);
            return false;
        }
        i += 1;
    }
    assert(left.deep_view() =~= right.deep_view());
    true
}

/// Writes cards as [`serialize`] does, and hands the text out only when
/// reading it gives back the rows that were written: then parsing the text
/// gives the cards back, an empty pinyin as an absent one.
pub fn serialize_checked(cards: &Vec<Card>) -> (text: Option<String>)
    ensures
        text.deep_view() == serialized_checked(cards.deep_view()),
        text matches Some(t) ==> parsed(t@) == normalized_cards(cards.deep_view()),
{
    let rows = rows_from_cards(cards);
    match write_records(&rows) {
        Some(text) => {
            let back = read_records(text.as_str());
            if same_rows(&back, &rows) {
                proof {
                    lemma_parse_serialize(cards.deep_view(), text@);
                }
                Some(text)
            } else {
                None
            }
        },
        None => None,
    }
}

/// Reading back the rows written for a list of cards gives the same cards,
/// except that an empty pinyin comes back as an absent one.
pub proof fn lemma_rows_round_trip(cards: Seq<CardView>)
    ensures
        cards_of_rows(rows_of_cards(cards)) == normalized_cards(cards),
{
    assert forall|i: int| 0 <= i < cards.len() implies card_of_row(row_of_card(cards[i]))
        == cards[i].normalized() by {
        let c = cards[i];
        let row = row_of_card(c);
        assert(row.len() == 4);
        assert(is_true_word(flag_text(c.known)) == c.known);
        match c.pinyin {
            Some(p) => {
                assert(row[1] == p);
            },
            None => {
                assert(row[1].len() == 0);
            },
        }
    }
    assert(cards_of_rows(rows_of_cards(cards)) =~= normalized_cards(cards));
}

/// Parsing the text written for a list of cards gives the same cards, except
/// that an empty pinyin comes back as an absent one, whenever the writer gives
/// a text and the reader gives back the rows that the writer was handed.
/// [`serialize_checked`] tests just that.
pub proof fn lemma_parse_serialize(cards: Seq<CardView>, text: Seq<char>)
    requires
        serialized(cards) == Some(text),
        csv_records(text) == rows_of_cards(cards),
    ensures
        parsed(text) == normalized_cards(cards),
{
    lemma_rows_round_trip(cards);
}

} // verus!
