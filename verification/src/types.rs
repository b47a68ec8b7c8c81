//! Readings as key/value mappings and the data point built from them.

use vstd::prelude::*;
use crate::line::PairText;
use crate::line::SampleText;
use crate::line::pair_text;
use crate::text::byte_len;
use crate::text::lemma_char_bytes;
use crate::text::lemma_encode_concat;
use crate::text::str_byte_len;

verus! {

/// What a sensor hands out: its fields, keyed by static names.
pub struct Reading<'a, 'b, T> {
    pub fields: &'a [Mapping<'b, T>],
}

/// A source of readings.
pub trait Sensor {
    /// The type of each field value of a reading.
    type ReadingType;

    /// Takes one reading.
    fn get_reading<'a>(&'a mut self) -> Reading<'a, 'static, Self::ReadingType>;
}

/// One point of a series: a measurement name, tags and fields in line order,
/// and an optional timestamp in nanoseconds.
pub struct DataPoint<'a, T> {
    pub measurement: &'a str,
    pub tag_set: &'a [Mapping<'a, &'a str>],
    pub field_set: &'a [Mapping<'a, T>],
    pub time_stamp: Option<u64>,
}

/// A key with its value.
pub struct Mapping<'a, T> {
    pub key: &'a str,
    pub value: T,
}

impl<'a, 'b> View for Mapping<'a, &'b str> {
    type V = PairText;

    open spec fn view(&self) -> PairText {
        PairText { key: self.key@, value: self.value@ }
    }
}

impl<'a> View for Mapping<'a, String> {
    type V = PairText;

    open spec fn view(&self) -> PairText {
        PairText { key: self.key@, value: self.value@ }
    }
}

impl<'a> View for DataPoint<'a, String> {
    type V = SampleText;

    open spec fn view(&self) -> SampleText {
        SampleText {
            measurement: self.measurement@,
            tags: self.tag_set@.map_values(|m: Mapping<'a, &'a str>| m@),
            fields: self.field_set@.map_values(|m: Mapping<'a, String>| m@),
            time_stamp: self.time_stamp,
        }
    }
}

/// The bytes that `key=value` takes.
pub open spec fn pair_bytes(p: PairText) -> nat {
    byte_len(p.key) + byte_len(p.value) + 1
}

/// `key=value` takes the bytes of the key, of the value, and one more.
pub proof fn lemma_pair_bytes(p: PairText)
    ensures
        byte_len(pair_text(p)) == pair_bytes(p),
{
    lemma_encode_concat(p.key, seq!['=']);
    lemma_encode_concat(p.key + seq!['='], p.value);
    lemma_char_bytes('=');
}

impl<'a> Mapping<'a, &str> {
    /// The bytes that `key=value` takes.
    pub fn get_required_chars(&self) -> (n: usize)
        requires
            pair_bytes(self@) <= usize::MAX,
        ensures
            n == pair_bytes(self@),
    {
        str_byte_len(self.key) + str_byte_len(self.value) + 1
    }

    /// Appends `key=value` to `s`, behind a comma if `with_comma`.
    pub fn append_to_string(&self, s: &mut String, with_comma: bool)
        ensures
            final(s)@ == old(s)@ + (if with_comma {
                seq![',']
            } else {
                Seq::<char>::empty()
            }) + pair_text(self@),
    {
        if with_comma {
            s.push(',')
        }
        s.push_str(self.key);
        s.push('=');
        s.push_str(self.value);
    }
}

impl<'a> Mapping<'a, String> {
    /// The bytes that `key=value` takes.
    pub fn get_required_chars(&self) -> (n: usize)
        requires
            pair_bytes(self@) <= usize::MAX,
        ensures
            n == pair_bytes(self@),
    {
        str_byte_len(self.key) + str_byte_len(self.value.as_str()) + 1
    }

    /// Appends `key=value` to `s`, behind a comma if `with_comma`.
    pub fn append_to_string(&self, s: &mut String, with_comma: bool)
        ensures
            final(s)@ == old(s)@ + (if with_comma {
                seq![',']
            } else {
                Seq::<char>::empty()
            }) + pair_text(self@),
    {
        if with_comma {
            s.push(',')
        }
        s.push_str(self.key);
        s.push('=');
        s.push_str(self.value.as_str());
    }
}

impl<'a, T> From<(&'a str, T)> for Mapping<'a, T> {
    fn from(d: (&'a str, T)) -> (mapping: Self) {
        Self { key: d.0, value: d.1 }
    }
}

impl<'a, T> vstd::std_specs::convert::FromSpecImpl<(&'a str, T)> for Mapping<'a, T> {
    open spec fn obeys_from_spec() -> bool {
        true
    }

    open spec fn from_spec(d: (&'a str, T)) -> Self {
        Self { key: d.0, value: d.1 }
    }
}

} // verus!
