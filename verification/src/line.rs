//! The grammar of a line and what follows from it.
//!
//! A line is the measurement name, then every tag as `,key=value`, then, if
//! there is any field, a space and the fields as `key=value` separated by
//! commas, then, if there is a timestamp, a space and its decimal numeral.
//! Nothing is quoted or escaped.

use vstd::prelude::*;
use crate::text::decimal;
use crate::text::is_plain;
use crate::text::is_separator;
use crate::text::lemma_decimal_digits;

verus! {

/// A key and a value as plain text: what a tag or a field contributes to a line.
pub struct PairText {
    pub key: Seq<char>,
    pub value: Seq<char>,
}

/// A sample as plain text and numbers: what a line is computed from.
pub struct SampleText {
    pub measurement: Seq<char>,
    pub tags: Seq<PairText>,
    pub fields: Seq<PairText>,
    pub time_stamp: Option<u64>,
}

/// `key=value`.
pub open spec fn pair_text(p: PairText) -> Seq<char> {
    p.key + seq!['='] + p.value
}

/// Every pair as `,key=value`, in the order given.
pub open spec fn comma_pairs(pairs: Seq<PairText>) -> Seq<char>
    decreases pairs.len(),
{
    if pairs.len() == 0 {
        Seq::empty()
    } else {
        comma_pairs(pairs.drop_last()) + seq![','] + pair_text(pairs.last())
    }
}

/// Nothing when there is no field; else a space, the first field, and every
/// later field behind a comma.
pub open spec fn field_section(fields: Seq<PairText>) -> Seq<char> {
    if fields.len() == 0 {
        Seq::empty()
    } else {
        seq![' '] + pair_text(fields[0]) + comma_pairs(fields.drop_first())
    }
}

/// Nothing when there is no timestamp; else a space and its decimal numeral.
pub open spec fn stamp_section(time_stamp: Option<u64>) -> Seq<char> {
    match time_stamp {
        Some(t) => seq![' '] + decimal(t as nat),
        None => Seq::empty(),
    }
}

/// The line without its timestamp section.
pub open spec fn line_body(s: SampleText) -> Seq<char> {
    s.measurement + comma_pairs(s.tags) + field_section(s.fields)
}

/// The whole line of a sample.
pub open spec fn line(s: SampleText) -> Seq<char> {
    line_body(s) + stamp_section(s.time_stamp)
}

/// A pair whose key and value hold no separator character.
pub open spec fn pair_plain(p: PairText) -> bool {
    is_plain(p.key) && is_plain(p.value)
}

/// A sample whose every text is free of separator characters, so that the
/// separators of its line are those of the grammar and no others.
pub open spec fn well_formed(s: SampleText) -> bool {
    &&& is_plain(s.measurement)
    &&& forall|i: int| 0 <= i < s.tags.len() ==> pair_plain(#[trigger] s.tags[i])
    &&& forall|i: int| 0 <= i < s.fields.len() ==> pair_plain(#[trigger] s.fields[i])
}

/// Every comma of `text` stands somewhere behind a space of `text`: there is
/// no comma before the first space.
pub open spec fn commas_follow_space(text: Seq<char>) -> bool {
    forall|i: int|
        0 <= i < text.len() && #[trigger] text[i] == ',' ==> exists|j: int|
            0 <= j < i && #[trigger] text[j] == ' '
}

/// `text` ends with the numeral of `t` behind exactly one space.
pub open spec fn ends_with_stamp(text: Seq<char>, t: u64) -> bool {
    let numeral = decimal(t as nat);
    let cut = text.len() - numeral.len();
    &&& cut >= 1
    &&& text.subrange(cut, text.len() as int) == numeral
    &&& text[cut - 1] == ' '
    &&& cut >= 2 ==> text[cut - 2] != ' '
}

/// A pair section cut in two: the section of the pairs before the cut, then
/// the section of those behind it.
pub proof fn lemma_comma_pairs_split(pairs: Seq<PairText>, cut: int)
    requires
        0 <= cut <= pairs.len(),
    ensures
        comma_pairs(pairs) == comma_pairs(pairs.take(cut)) + comma_pairs(pairs.skip(cut)),
    decreases pairs.len(),
{
    if cut == pairs.len() {
        assert(pairs.take(cut) =~= pairs);
    } else {
        let front = pairs.drop_last();
        lemma_comma_pairs_split(front, cut);
        assert(front.take(cut) =~= pairs.take(cut));
        assert(front.skip(cut) =~= pairs.skip(cut).drop_last());
    }
}

/// Without tags, a line has no comma before its first space exactly when the
/// measurement name has none before its own.
pub proof fn lemma_no_tags_no_early_comma(s: SampleText)
    requires
        s.tags.len() == 0,
    ensures
        commas_follow_space(line(s)) <==> commas_follow_space(s.measurement),
{
    let m = s.measurement;
    if commas_follow_space(m) {
        assert forall|i: int| 0 <= i < line(s).len() && #[trigger] line(s)[i] == ',' implies exists|
            j: int,
        | 0 <= j < i && #[trigger] line(s)[j] == ' ' by {
            if i < m.len() {
                // a comma of the name: the space before it in the name
                let j = choose|j: int| 0 <= j < i && #[trigger] m[j] == ' ';
                assert(line(s)[j] == ' ');
            } else {
                // a comma behind the name: the space that opens the section behind the name
                assert(line(s)[m.len() as int] == ' ');
            }
        }
    }
    if commas_follow_space(line(s)) {
        assert forall|i: int| 0 <= i < m.len() && #[trigger] m[i] == ',' implies exists|j: int|
            0 <= j < i && #[trigger] m[j] == ' ' by {
            assert(line(s)[i] == ',');
            let j = choose|j: int| 0 <= j < i && #[trigger] line(s)[j] == ' ';
            assert(m[j] == ' ');
        }
    }
}

/// Without fields, a line is the measurement name, the tag section and the
/// timestamp section with nothing between them: behind the tag section the
/// only space is the one that opens the timestamp.
pub proof fn lemma_no_fields_no_field_section(s: SampleText)
    requires
        s.fields.len() == 0,
    ensures
        line(s) == s.measurement + comma_pairs(s.tags) + stamp_section(s.time_stamp),
        s.time_stamp is None ==> line(s) == s.measurement + comma_pairs(s.tags),
        forall|i: int|
            (s.measurement + comma_pairs(s.tags)).len() <= i < line(s).len() && #[trigger] line(
                s,
            )[i] == ' ' ==> i == (s.measurement + comma_pairs(s.tags)).len(),
{
    let head = s.measurement + comma_pairs(s.tags);
    if let Some(t) = s.time_stamp {
        lemma_decimal_digits(t as nat);
        assert forall|i: int| head.len() <= i < line(s).len() && #[trigger] line(s)[i]
            == ' ' implies i == head.len() by {
            if i > head.len() {
                // behind the opening space stand the digits of the numeral
                assert(line(s)[i] == decimal(t as nat)[i - head.len() - 1]);
            }
        }
    }
}

/// With a timestamp, a line is the line without it, one space and the
/// numeral of the timestamp. That space is the only one before the numeral
/// exactly when the line without the timestamp does not itself end in a space.
pub proof fn lemma_timestamp_closes_line(s: SampleText)
    requires
        s.time_stamp is Some,
    ensures
        line(s) == line_body(s) + seq![' '] + decimal(s.time_stamp->0 as nat),
        ends_with_stamp(line(s), s.time_stamp->0) <==> !(line_body(s).len() > 0 && line_body(
            s,
        ).last() == ' '),
{
    let t = s.time_stamp->0;
    let numeral = decimal(t as nat);
    lemma_decimal_digits(t as nat);
    let cut = line(s).len() - numeral.len();
    assert(line(s).subrange(cut, line(s).len() as int) =~= numeral);
}

/// How often `c` occurs in `text`.
pub open spec fn count(text: Seq<char>, c: char) -> nat
    decreases text.len(),
{
    if text.len() == 0 {
        0
    } else if text.last() == c {
        count(text.drop_last(), c) + 1
    } else {
        count(text.drop_last(), c)
    }
}

/// A character occurs in a concatenation as often as in its parts together.
pub proof fn lemma_count_concat(a: Seq<char>, b: Seq<char>, c: char)
    ensures
        count(a + b, c) == count(a, c) + count(b, c),
    decreases b.len(),
{
    if b.len() > 0 {
        lemma_count_concat(a, b.drop_last(), c);
        assert((a + b).drop_last() =~= a + b.drop_last());
    }
}

/// A separator does not occur in plain text.
pub proof fn lemma_count_plain(text: Seq<char>, c: char)
    requires
        is_plain(text),
        is_separator(c),
    ensures
        count(text, c) == 0,
    decreases text.len(),
{
    if text.len() > 0 {
        lemma_count_plain(text.drop_last(), c);
    }
}

/// A single character holds itself once and no other character.
proof fn lemma_count_one(d: char, c: char)
    ensures
        count(seq![d], c) == (if d == c {
            1nat
        } else {
            0nat
        }),
{
    reveal_with_fuel(count, 2);
}

/// The separators of a plain pair behind one leading character.
proof fn lemma_count_led_pair(lead: char, p: PairText)
    requires
        pair_plain(p),
        lead == ',' || lead == ' ',
    ensures
        count(seq![lead] + pair_text(p), ',') == (if lead == ',' {
            1nat
        } else {
            0nat
        }),
        count(seq![lead] + pair_text(p), ' ') == (if lead == ' ' {
            1nat
        } else {
            0nat
        }),
        count(seq![lead] + pair_text(p), '=') == 1,
        (seq![lead] + pair_text(p)).last() != ' ',
{
    let text = seq![lead] + pair_text(p);
    assert(text =~= seq![lead] + (p.key + (seq!['='] + p.value)));
    assert forall|c: char| is_separator(c) implies count(text, c) == count(seq![lead], c) + count(
        seq!['='],
        c,
    ) by {
        lemma_count_concat(seq![lead], p.key + (seq!['='] + p.value), c);
        lemma_count_concat(p.key, seq!['='] + p.value, c);
        lemma_count_concat(seq!['='], p.value, c);
        lemma_count_plain(p.key, c);
        lemma_count_plain(p.value, c);
    }
    lemma_count_one(lead, ',');
    lemma_count_one(lead, ' ');
    lemma_count_one(lead, '=');
    lemma_count_one('=', ',');
    lemma_count_one('=', ' ');
    lemma_count_one('=', '=');
    assert(is_separator(',') && is_separator(' ') && is_separator('='));
}

/// The separators of a section of plain pairs: a comma and an equals sign
/// for each pair, and no space. A section that is not empty does not end in a
/// space.
pub proof fn lemma_count_comma_pairs(pairs: Seq<PairText>)
    requires
        forall|i: int| 0 <= i < pairs.len() ==> pair_plain(#[trigger] pairs[i]),
    ensures
        count(comma_pairs(pairs), ',') == pairs.len(),
        count(comma_pairs(pairs), '=') == pairs.len(),
        count(comma_pairs(pairs), ' ') == 0,
        pairs.len() > 0 ==> comma_pairs(pairs).len() > 0 && comma_pairs(pairs).last() != ' ',
    decreases pairs.len(),
{
    if pairs.len() > 0 {
        let front = pairs.drop_last();
        lemma_count_comma_pairs(front);
        let last = pairs.last();
        let piece = seq![','] + pair_text(last);
        assert(comma_pairs(pairs) =~= comma_pairs(front) + piece);
        lemma_count_led_pair(',', last);
        lemma_count_concat(comma_pairs(front), piece, ',');
        lemma_count_concat(comma_pairs(front), piece, '=');
        lemma_count_concat(comma_pairs(front), piece, ' ');
    }
}

/// In the line of a well-formed sample the separators are those of the
/// grammar and no others: a comma for each tag and for each field after the
/// first, an equals sign for each tag and each field, a space before the
/// fields if there are any and one before the timestamp if there is one.
/// Such a line has no comma before its first space when the sample has no
/// tags, and ends in exactly one space and the numeral when it has a timestamp.
pub proof fn lemma_well_formed_line(s: SampleText)
    requires
        well_formed(s),
    ensures
        count(line(s), ',') == s.tags.len() + (if s.fields.len() > 0 {
            s.fields.len() - 1
        } else {
            0
        }),
        count(line(s), '=') == s.tags.len() + s.fields.len(),
        count(line(s), ' ') == (if s.fields.len() > 0 {
            1nat
        } else {
            0nat
        }) + (if s.time_stamp is Some {
            1nat
        } else {
            0nat
        }),
        s.tags.len() == 0 ==> commas_follow_space(line(s)),
        s.time_stamp is Some ==> ends_with_stamp(line(s), s.time_stamp->0),
{
    let head = s.measurement + comma_pairs(s.tags);
    let fields = field_section(s.fields);
    let stamp = stamp_section(s.time_stamp);
    let body = line_body(s);
    lemma_count_plain(s.measurement, ',');
    lemma_count_plain(s.measurement, '=');
    lemma_count_plain(s.measurement, ' ');
    lemma_count_comma_pairs(s.tags);
    lemma_count_concat(s.measurement, comma_pairs(s.tags), ',');
    lemma_count_concat(s.measurement, comma_pairs(s.tags), '=');
    lemma_count_concat(s.measurement, comma_pairs(s.tags), ' ');
    // the field section
    if s.fields.len() > 0 {
        let rest = s.fields.drop_first();
        lemma_count_comma_pairs(rest);
        let first = seq![' '] + pair_text(s.fields[0]);
        lemma_count_led_pair(' ', s.fields[0]);
        lemma_count_concat(first, comma_pairs(rest), ',');
        lemma_count_concat(first, comma_pairs(rest), '=');
        lemma_count_concat(first, comma_pairs(rest), ' ');
    }
    lemma_count_concat(head, fields, ',');
    lemma_count_concat(head, fields, '=');
    lemma_count_concat(head, fields, ' ');
    // the timestamp section
    if let Some(t) = s.time_stamp {
        lemma_decimal_digits(t as nat);
        lemma_count_plain(decimal(t as nat), ',');
        lemma_count_plain(decimal(t as nat), '=');
        lemma_count_plain(decimal(t as nat), ' ');
        lemma_count_one(' ', ',');
        lemma_count_one(' ', '=');
        lemma_count_one(' ', ' ');
        lemma_count_concat(seq![' '], decimal(t as nat), ',');
        lemma_count_concat(seq![' '], decimal(t as nat), '=');
        lemma_count_concat(seq![' '], decimal(t as nat), ' ');
        lemma_timestamp_closes_line(s);
    }
    lemma_count_concat(body, stamp, ',');
    lemma_count_concat(body, stamp, '=');
    lemma_count_concat(body, stamp, ' ');
    if s.tags.len() == 0 {
        lemma_no_tags_no_early_comma(s);
    }
}

} // verus!
