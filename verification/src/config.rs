//! The settings of a node, as plain values. Reading them from a file is left
//! to the program around the library.

use vstd::prelude::*;
use crate::communications::QosLevel;
use crate::line::PairText;
use crate::influx::Tag;

verus! {

/// All settings of a node.
#[derive(Debug, PartialEq, Eq)]
pub struct Config {
    pub mqtt: MqttConfig,
    pub sampling: SamplingConfig,
}

/// How to reach the broker.
#[derive(Clone, Debug, PartialEq, Eq)]
pub struct MqttConfig {
    pub server: String,
    pub client_id: String,
    pub publish_topic: String,
    pub subscribe_topic: String,
    pub qos: u8,
}

/// What to sample, and how often.
#[derive(Debug, PartialEq, Eq)]
pub struct SamplingConfig {
    pub sample_period_seconds: u64,
    pub measurement_name: String,
    pub tags: Vec<(String, String)>,
}

impl MqttConfig {
    /// The delivery guarantee that the settings name, if they name one.
    pub fn qos_level(&self) -> (qos: Option<QosLevel>)
        ensures
            qos == match self.qos {
                0 => Some(QosLevel::AtMostOnce),
                1 => Some(QosLevel::AtLeastOnce),
                2 => Some(QosLevel::ExactlyOnce),
                _ => None,
            },
    {
        if self.qos <= 2 {
            Some(QosLevel::from_level(self.qos as usize))
        } else {
            None
        }
    }
}

impl SamplingConfig {
    /// The configured tags, in their order, as the tags of a sample. They
    /// borrow their text from the settings.
    pub fn tag_list<'a>(&'a self) -> (tags: Vec<Tag<'a>>)
        ensures
            tags@.len() == self.tags@.len(),
            forall|i: int|
                0 <= i < tags@.len() ==> (#[trigger] tags@[i])@ == (PairText {
                    key: self.tags@[i].0@,
                    value: self.tags@[i].1@,
                }),
    {
        let mut tags: Vec<Tag<'a>> = Vec::new();
        let mut i: usize = 0;
        while i < self.tags.len()
            invariant
                i <= self.tags.len(),
                tags@.len() == i,
                forall|k: int|
                    0 <= k < i ==> (#[trigger] tags@[k])@ == (PairText {
                        key: self.tags@[k].0@,
                        value: self.tags@[k].1@,
                    }),
            decreases self.tags.len() - i,
        {
            let pair = &self.tags[i];
            tags.push(Tag { key: pair.0.as_str(), value: pair.1.as_str() });
            i += 1;
        }
        tags
    }
}

} // verus!
