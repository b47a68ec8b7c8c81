//! What goes out to the broker: the bytes of a data point's line, and the
//! delivery guarantee they are published with.

use vstd::prelude::*;
use vstd::utf8::encode_utf8;
use crate::line::PairText;
use crate::line::comma_pairs;
use crate::line::field_section;
use crate::line::lemma_comma_pairs_split;
use crate::line::line;
use crate::line::line_body;
use crate::line::pair_text;
use crate::line::stamp_section;
use crate::influx::stamp_string;
use crate::text::byte_len;
use crate::text::lemma_char_bytes;
use crate::text::lemma_encode_concat;
use crate::text::str_byte_len;
use crate::types::DataPoint;
use crate::types::lemma_pair_bytes;
use crate::types::pair_bytes;

verus! {

/// Why a data point did not go out.
#[derive(Clone, Copy, Debug, PartialEq, Eq, Structural)]
pub enum ConnectionErr {
    /// The client did not accept the message.
    SendError,
}

/// The delivery guarantee of a published message.
#[derive(Clone, Copy, Debug, PartialEq, Eq, Structural)]
pub enum QosLevel {
    AtMostOnce,
    AtLeastOnce,
    ExactlyOnce,
}

impl QosLevel {
    /// The guarantee with the given number: 0 for at most once, 1 for at
    /// least once, 2 for exactly once. No other number names a guarantee.
    pub fn from_level(level: usize) -> (qos: Self)
        requires
            level <= 2,
        ensures
            level == 0 ==> qos == QosLevel::AtMostOnce,
            level == 1 ==> qos == QosLevel::AtLeastOnce,
            level == 2 ==> qos == QosLevel::ExactlyOnce,
    {
        if level == 0 {
            QosLevel::AtMostOnce
        } else if level == 1 {
            QosLevel::AtLeastOnce
        } else {
            QosLevel::ExactlyOnce
        }
    }
}

/// A section grown by one more pair behind a separator of one byte takes the
/// bytes it took, one for the separator, and those of the pair.
proof fn lemma_grow_bytes(before: Seq<char>, separator: char, p: PairText)
    requires
        (separator as u32) < 128,
    ensures
        byte_len(before + seq![separator] + pair_text(p)) == byte_len(before) + 1 + pair_bytes(p),
{
    lemma_encode_concat(before, seq![separator]);
    lemma_encode_concat(before + seq![separator], pair_text(p));
    lemma_char_bytes(separator);
    lemma_pair_bytes(p);
}

impl<'a> DataPoint<'a, String> {
    /// The number of bytes that the line of this point takes, or `None` if
    /// that number is beyond `usize`.
    pub fn required_chars(&self) -> (n: Option<usize>)
        ensures
            n == (if byte_len(line(self@)) <= usize::MAX {
                Some(byte_len(line(self@)) as usize)
            } else {
                None
            }),
    {
        let ghost tags = self@.tags;
        let ghost fields = self@.fields;
        let ghost stamp = stamp_section(self.time_stamp);
        let ghost measurement = self.measurement@;
        let mut chars_required: usize = str_byte_len(self.measurement);
        let mut i: usize = 0;
        while i < self.tag_set.len()
            invariant
                i <= self.tag_set.len(),
                tags == self@.tags,
                fields == self@.fields,
                measurement == self.measurement@,
                stamp == stamp_section(self.time_stamp),
                chars_required == byte_len(measurement + comma_pairs(tags.take(i as int))),
            ensures
                i == self.tag_set.len(),
            decreases self.tag_set.len() - i,
        {
            let ghost before = measurement + comma_pairs(tags.take(i as int));
            let ghost after = measurement + comma_pairs(tags.take(i + 1));
            proof {
                assert(tags.take(i + 1).drop_last() =~= tags.take(i as int));
                assert(after =~= before + seq![','] + pair_text(tags[i as int]));
                lemma_grow_bytes(before, ',', tags[i as int]);
                lemma_comma_pairs_split(tags, i + 1);
                lemma_encode_concat(
                    after,
                    comma_pairs(tags.skip(i + 1)) + field_section(fields) + stamp,
                );
                assert(line(self@) =~= after + (comma_pairs(tags.skip(i + 1)) + field_section(
                    fields,
                ) + stamp));
            }
            let key_len: usize = str_byte_len(self.tag_set[i].key);
            let value_len: usize = str_byte_len(self.tag_set[i].value);
            let grown = add_pair(chars_required, key_len, value_len);
            match grown {
                Some(n) => {
                    chars_required = n;
                },
                None => {
                    return None;
                },
            }
            i += 1;
        }
        assert(tags.take(i as int) =~= tags);
        let ghost head = measurement + comma_pairs(tags);
        if self.field_set.len() > 0 {
            let ghost rest = fields.drop_first();
            let mut j: usize = 0;
            while j < self.field_set.len()
                invariant
                    j <= self.field_set.len(),
                    self.field_set.len() > 0,
                    tags == self@.tags,
                    fields == self@.fields,
                    rest == fields.drop_first(),
                    head == self.measurement@ + comma_pairs(tags),
                    stamp == stamp_section(self.time_stamp),
                    chars_required == byte_len(
                        if j == 0 {
                            head
                        } else {
                            head + seq![' '] + pair_text(fields[0]) + comma_pairs(rest.take(j - 1))
                        },
                    ),
                ensures
                    j == self.field_set.len(),
                decreases self.field_set.len() - j,
            {
                let ghost before = if j == 0 {
                    head
                } else {
                    head + seq![' '] + pair_text(fields[0]) + comma_pairs(rest.take(j - 1))
                };
                let ghost after = head + seq![' '] + pair_text(fields[0]) + comma_pairs(
                    rest.take(j as int),
                );
                proof {
                    if j == 0 {
                        lemma_grow_bytes(before, ' ', fields[0]);
                    } else {
                        assert(rest.take(j as int).drop_last() =~= rest.take(j - 1));
                        assert(after =~= before + seq![','] + pair_text(fields[j as int]));
                        lemma_grow_bytes(before, ',', fields[j as int]);
                    }
                    lemma_comma_pairs_split(rest, j as int);
                    lemma_encode_concat(after, comma_pairs(rest.skip(j as int)) + stamp);
                    assert(line(self@) =~= after + (comma_pairs(rest.skip(j as int)) + stamp));
                }
                let key_len: usize = str_byte_len(self.field_set[j].key);
                let value_len: usize = str_byte_len(self.field_set[j].value.as_str());
                let grown = add_pair(chars_required, key_len, value_len);
                match grown {
                    Some(n) => {
                        chars_required = n;
                    },
                    None => {
                        return None;
                    },
                }
                j += 1;
            }
            assert(rest.take(j - 1) =~= rest);
        }
        assert(chars_required == byte_len(line_body(self@))) by {
            if fields.len() > 0 {
                assert(line_body(self@) =~= head + seq![' '] + pair_text(fields[0]) + comma_pairs(
                    fields.drop_first(),
                ));
            }
        }
        let time_stamp_string = stamp_string(self.time_stamp);
        proof {
            lemma_encode_concat(line_body(self@), stamp);
        }
        chars_required.checked_add(str_byte_len(time_stamp_string.as_str()))
    }
}

/// Adds to `total` the bytes of one more pair and of the separator before it.
fn add_pair(total: usize, key_len: usize, value_len: usize) -> (grown: Option<usize>)
    ensures
        grown == (if total + 1 + key_len + value_len + 1 <= usize::MAX {
            Some((total + 1 + key_len + value_len + 1) as usize)
        } else {
            None
        }),
{
    let with_key = match total.checked_add(key_len) {
        Some(n) => n,
        None => {
            return None;
        },
    };
    let with_value = match with_key.checked_add(value_len) {
        Some(n) => n,
        None => {
            return None;
        },
    };
    with_value.checked_add(2)
}

impl<'a> From<DataPoint<'a, String>> for Vec<u8> {
    /// The UTF-8 bytes of the line of the data point.
    fn from(point: DataPoint<'a, String>) -> (bytes: Vec<u8>)
        ensures
            bytes@ == encode_utf8(line(point@)),
    {
        let ghost tags = point@.tags;
        let ghost fields = point@.fields;
        let mut line = match point.required_chars() {
            Some(n) => if n <= isize::MAX as usize {
                String::with_capacity(n)
            } else {
                String::new()
            },
            None => String::new(),
        };
        line.push_str(point.measurement);
        let mut i: usize = 0;
        while i < point.tag_set.len()
            invariant
                i <= point.tag_set.len(),
                tags == point@.tags,
                line@ == point.measurement@ + comma_pairs(tags.take(i as int)),
            decreases point.tag_set.len() - i,
        {
            point.tag_set[i].append_to_string(&mut line, true);
            assert(tags.take(i + 1).drop_last() =~= tags.take(i as int));
            i += 1;
        }
        assert(tags.take(i as int) =~= tags);
        let ghost head = point.measurement@ + comma_pairs(tags);
        if point.field_set.len() > 0 {
            line.push_str(" ");
            proof {
                reveal_strlit(" ");
            }
            let ghost rest = fields.drop_first();
            let mut j: usize = 0;
            while j < point.field_set.len()
                invariant
                    j <= point.field_set.len(),
                    point.field_set.len() > 0,
                    fields == point@.fields,
                    rest == fields.drop_first(),
                    line@ == (if j == 0 {
                        head + seq![' ']
                    } else {
                        head + seq![' '] + pair_text(fields[0]) + comma_pairs(rest.take(j - 1))
                    }),
                decreases point.field_set.len() - j,
            {
                point.field_set[j].append_to_string(&mut line, j != 0);
                assert(j > 0 ==> rest.take(j as int).drop_last() =~= rest.take(j - 1));
                j += 1;
            }
            assert(rest.take(j - 1) =~= rest);
            assert(line@ =~= line_body(point@));
        }
        let time_stamp_string = stamp_string(point.time_stamp);
        line.push_str(time_stamp_string.as_str());
        line.into_bytes()
    }
}

impl<'a> vstd::std_specs::convert::FromSpecImpl<DataPoint<'a, String>> for Vec<u8> {
    open spec fn obeys_from_spec() -> bool {
        false
    }

    open spec fn from_spec(point: DataPoint<'a, String>) -> Self {
        arbitrary()
    }
}

} // verus!
