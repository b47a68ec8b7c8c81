//! The sample model and its encoder: tags, fields and samples that borrow
//! their text, and the functions that write them out as one line.

use vstd::prelude::*;
use vstd::utf8::encode_utf8;
use crate::line::PairText;
use crate::line::SampleText;
use crate::line::comma_pairs;
use crate::line::line;
use crate::line::line_body;
use crate::line::pair_plain;
use crate::line::pair_text;
use crate::line::stamp_section;
use crate::line::well_formed;
use crate::text::decimal;
use crate::text::is_plain;
use crate::text::is_plain_text;
use crate::text::lemma_decimal_digits;
use crate::text::lemma_signed_decimal_plain;
use crate::text::push_decimal;
use crate::text::push_signed_decimal;
use crate::text::signed_decimal;

verus! {

/// The first part of a sample, in line order, whose text holds a separator
/// character and would break the grammar of the line.
#[derive(Clone, Copy, Debug, PartialEq, Eq, Structural)]
pub enum EncodingViolation {
    /// The measurement name.
    Measurement,
    /// The tag at this index.
    Tag(usize),
    /// The field at this index.
    Field(usize),
}

/// The timestamp section as a string: nothing, or a space and the numeral.
pub fn stamp_string(time_stamp: Option<u64>) -> (s: String)
    ensures
        s@ == stamp_section(time_stamp),
{
    let mut s = String::new();
    if let Some(time) = time_stamp {
        s.push(' ');
        push_decimal(&mut s, time);
    }
    s
}

/// A value that a field can carry: anything with a canonical text form.
pub trait FieldValue {
    /// The canonical text of the value.
    spec fn text(&self) -> Seq<char>;

    /// Tells whether the canonical text is free of separator characters.
    fn has_plain_text(&self) -> (plain: bool)
        ensures
            plain == is_plain(self.text()),
    ;

    /// Appends the canonical text to `target`.
    fn write_to(&self, target: &mut String)
        ensures
            final(target)@ == old(target)@ + self.text(),
    ;
}

impl<'a> FieldValue for &'a str {
    open spec fn text(&self) -> Seq<char> {
        (*self)@
    }

    fn has_plain_text(&self) -> (plain: bool) {
        is_plain_text(*self)
    }

    fn write_to(&self, target: &mut String) {
        target.push_str(*self);
    }
}

impl FieldValue for String {
    open spec fn text(&self) -> Seq<char> {
        self@
    }

    fn has_plain_text(&self) -> (plain: bool) {
        is_plain_text(self.as_str())
    }

    fn write_to(&self, target: &mut String) {
        target.push_str(self.as_str());
    }
}

impl FieldValue for u64 {
    open spec fn text(&self) -> Seq<char> {
        decimal(*self as nat)
    }

    fn has_plain_text(&self) -> (plain: bool) {
        proof {
            lemma_decimal_digits(*self as nat);
        }
        true
    }

    fn write_to(&self, target: &mut String) {
        push_decimal(target, *self);
    }
}

impl FieldValue for i64 {
    open spec fn text(&self) -> Seq<char> {
        signed_decimal(*self as int)
    }

    fn has_plain_text(&self) -> (plain: bool) {
        proof {
            lemma_signed_decimal_plain(*self as int);
        }
        true
    }

    fn write_to(&self, target: &mut String) {
        push_signed_decimal(target, *self);
    }
}

/// A tag: a key and a value, both borrowed.
pub struct Tag<'a> {
    pub key: &'a str,
    pub value: &'a str,
}

impl<'a> View for Tag<'a> {
    type V = PairText;

    open spec fn view(&self) -> PairText {
        PairText { key: self.key@, value: self.value@ }
    }
}

impl<'a> Tag<'a> {
    /// Tells whether neither key nor value holds a separator character.
    pub fn is_plain(&self) -> (plain: bool)
        ensures
            plain == pair_plain(self@),
    {
        is_plain_text(self.key) && is_plain_text(self.value)
    }

    /// The tag as it stands in a line: `,key=value`.
    pub fn to_string(&self) -> (s: String)
        ensures
            s@ == seq![','] + pair_text(self@),
    {
        let mut s = String::new();
        s.push(',');
        s.push_str(self.key);
        s.push('=');
        s.push_str(self.value);
        s
    }
}

impl<'a> From<(&'a str, &'a str)> for Tag<'a> {
    fn from(val: (&'a str, &'a str)) -> (tag: Self) {
        Tag { key: val.0, value: val.1 }
    }
}

impl<'a> vstd::std_specs::convert::FromSpecImpl<(&'a str, &'a str)> for Tag<'a> {
    open spec fn obeys_from_spec() -> bool {
        true
    }

    open spec fn from_spec(val: (&'a str, &'a str)) -> Self {
        Tag { key: val.0, value: val.1 }
    }
}

/// A field: a borrowed key and a value with a canonical text form.
pub struct Field<'a, T: FieldValue> {
    pub key: &'a str,
    pub value: T,
}

impl<'a, T: FieldValue> View for Field<'a, T> {
    type V = PairText;

    open spec fn view(&self) -> PairText {
        PairText { key: self.key@, value: self.value.text() }
    }
}

impl<'a, T: FieldValue> Field<'a, T> {
    /// Tells whether neither key nor value text holds a separator character.
    pub fn is_plain(&self) -> (plain: bool)
        ensures
            plain == pair_plain(self@),
    {
        is_plain_text(self.key) && self.value.has_plain_text()
    }

    /// The field as it stands first in the field section: ` key=value`.
    pub fn to_string_0th(&self) -> (s: String)
        ensures
            s@ == seq![' '] + pair_text(self@),
    {
        let mut s = String::new();
        s.push(' ');
        s.push_str(self.key);
        s.push('=');
        self.value.write_to(&mut s);
        s
    }

    /// The field as it stands behind another field: `,key=value`.
    pub fn to_string(&self) -> (s: String)
        ensures
            s@ == seq![','] + pair_text(self@),
    {
        let mut s = String::new();
        s.push(',');
        s.push_str(self.key);
        s.push('=');
        self.value.write_to(&mut s);
        s
    }
}

impl<'a, T: FieldValue> From<(&'a str, T)> for Field<'a, T> {
    fn from(val: (&'a str, T)) -> (field: Self) {
        Field { key: val.0, value: val.1 }
    }
}

impl<'a, T: FieldValue> vstd::std_specs::convert::FromSpecImpl<(&'a str, T)> for Field<'a, T> {
    open spec fn obeys_from_spec() -> bool {
        true
    }

    open spec fn from_spec(val: (&'a str, T)) -> Self {
        Field { key: val.0, value: val.1 }
    }
}

/// One sample: a measurement name, its tags and fields in the order they are
/// to appear, and an optional timestamp in nanoseconds.
pub struct Sample<'a, T: FieldValue> {
    pub measurement: &'a str,
    pub tags: &'a [Tag<'a>],
    pub fields: &'a [Field<'a, T>],
    pub time_stamp: Option<u64>,
}

impl<'a, T: FieldValue> View for Sample<'a, T> {
    type V = SampleText;

    open spec fn view(&self) -> SampleText {
        SampleText {
            measurement: self.measurement@,
            tags: self.tags@.map_values(|t: Tag<'a>| t@),
            fields: self.fields@.map_values(|f: Field<'a, T>| f@),
            time_stamp: self.time_stamp,
        }
    }
}

impl<'a, T: FieldValue> Sample<'a, T> {
    /// Builds a sample after checking every text in it, in line order. A
    /// sample is returned exactly when it is well formed; otherwise the error
    /// names the first part that holds a separator character.
    pub fn new(
        measurement: &'a str,
        tags: &'a [Tag<'a>],
        fields: &'a [Field<'a, T>],
        time_stamp: Option<u64>,
    ) -> (built: Result<Self, EncodingViolation>)
        ensures
            match built {
                Ok(sample) => {
                    &&& well_formed(sample@)
                    &&& sample.measurement == measurement
                    &&& sample.tags == tags
                    &&& sample.fields == fields
                    &&& sample.time_stamp == time_stamp
                },
                Err(EncodingViolation::Measurement) => !is_plain(measurement@),
                Err(EncodingViolation::Tag(i)) => {
                    &&& is_plain(measurement@)
                    &&& i < tags.len()
                    &&& !pair_plain(tags[i as int]@)
                    &&& forall|k: int| 0 <= k < i ==> pair_plain(#[trigger] tags[k]@)
                },
                Err(EncodingViolation::Field(j)) => {
                    &&& is_plain(measurement@)
                    &&& forall|k: int| 0 <= k < tags.len() ==> pair_plain(#[trigger] tags[k]@)
                    &&& j < fields.len()
                    &&& !pair_plain(fields[j as int]@)
                    &&& forall|k: int| 0 <= k < j ==> pair_plain(#[trigger] fields[k]@)
                },
            },
    {
        if !is_plain_text(measurement) {
            return Err(EncodingViolation::Measurement);
        }
        let mut i: usize = 0;
        while i < tags.len()
            invariant
                i <= tags.len(),
                is_plain(measurement@),
                forall|k: int| 0 <= k < i ==> pair_plain(#[trigger] tags[k]@),
            decreases tags.len() - i,
        {
            if !tags[i].is_plain() {
                return Err(EncodingViolation::Tag(i));
            }
            i += 1;
        }
        let mut j: usize = 0;
        while j < fields.len()
            invariant
                j <= fields.len(),
                is_plain(measurement@),
                forall|k: int| 0 <= k < tags.len() ==> pair_plain(#[trigger] tags[k]@),
                forall|k: int| 0 <= k < j ==> pair_plain(#[trigger] fields[k]@),
            decreases fields.len() - j,
        {
            if !fields[j].is_plain() {
                return Err(EncodingViolation::Field(j));
            }
            j += 1;
        }
        Ok(Sample { measurement, tags, fields, time_stamp })
    }

    /// Replaces the content of `target` with the line of this sample. What
    /// `target` held before has no part in the result.
    pub fn into_string(&self, target: &mut String)
        ensures
            final(target)@ == line(self@),
    {
        target.clear();
        target.push_str(self.measurement);
        let ghost tags = self@.tags;
        let ghost fields = self@.fields;
        let mut i: usize = 0;
        while i < self.tags.len()
            invariant
                i <= self.tags.len(),
                tags == self@.tags,
                target@ == self.measurement@ + comma_pairs(tags.take(i as int)),
            decreases self.tags.len() - i,
        {
            let part = self.tags[i].to_string();
            target.push_str(part.as_str());
            assert(tags.take(i + 1).drop_last() =~= tags.take(i as int));
            i += 1;
        }
        assert(tags.take(i as int) =~= tags);
        if self.fields.len() > 0 {
            let first = self.fields[0].to_string_0th();
            target.push_str(first.as_str());
            let ghost rest = fields.drop_first();
            let ghost head = self.measurement@ + comma_pairs(tags) + seq![' '] + pair_text(fields[0]);
            let mut j: usize = 1;
            while j < self.fields.len()
                invariant
                    1 <= j <= self.fields.len(),
                    fields == self@.fields,
                    rest == fields.drop_first(),
                    target@ == head + comma_pairs(rest.take(j - 1)),
                decreases self.fields.len() - j,
            {
                let part = self.fields[j].to_string();
                target.push_str(part.as_str());
                assert(rest.take(j as int).drop_last() =~= rest.take(j - 1));
                j += 1;
            }
            assert(rest.take(j - 1) =~= rest);
        }
        if let Some(time) = self.time_stamp {
            target.push(' ');
            push_decimal(target, time);
        }
    }

    /// The line of this sample as a new string.
    pub fn to_string(&self) -> (s: String)
        ensures
            s@ == line(self@),
    {
        let mut s = String::new();
        self.into_string(&mut s);
        s
    }
}

/// Two samples with the same measurement, pairs and timestamp have the same
/// line, character for character and byte for byte, whatever buffers they
/// borrow from and whatever types their field values have.
pub proof fn lemma_same_sample_same_line<T: FieldValue, U: FieldValue>(
    a: Sample<'_, T>,
    b: Sample<'_, U>,
)
    requires
        a@ == b@,
    ensures
        line(a@) == line(b@),
        encode_utf8(line(a@)) == encode_utf8(line(b@)),
{
}

} // verus!
