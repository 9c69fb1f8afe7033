//! The transform that hands on one event in `rate` and drops the others.

use vstd::prelude::*;
use crate::event::{handed_on, LogEvent};
use crate::split::{field_text, optional_view};
use crate::text::{contains, contains_text, decimal, str_eq, u64_to_string};
use crate::value::{Value, ValueView};

verus! {

/// The hash that SeaHash, with its standard seed, gives a sequence of
/// bytes.
pub uninterp spec fn seahash_of(bytes: Seq<u8>) -> u64;

/// The SeaHash of a sequence of bytes.
///
/// Trusted: this is `seahash::hash`. It reads the bytes in a fixed byte
/// order and starts from a fixed seed, so the result depends on the bytes
/// alone; it takes every input.
#[verifier::external_body]
fn seahash(bytes: &[u8]) -> (hash: u64)
    ensures
        hash == seahash_of(bytes@),
{
    seahash::hash(bytes)
}

/// A test on an event.
#[derive(Debug, PartialEq)]
pub enum Condition {
    /// The event has the field.
    Exists { field: String },
    /// The text of the field is the given text.
    Equals { field: String, value: String },
    /// The text of the field holds the given text.
    Contains { field: String, value: String },
}

/// The mathematical content of a [`Condition`].
pub enum ConditionView {
    Exists { field: Seq<char> },
    Equals { field: Seq<char>, value: Seq<char> },
    Contains { field: Seq<char>, value: Seq<char> },
}

impl ConditionView {
    /// The condition holds of the event.
    pub open spec fn holds(self, event: Map<Seq<char>, ValueView>) -> bool {
        match self {
            ConditionView::Exists { field } => event.contains_key(field),
            ConditionView::Equals { field, value } => field_text(event, field) == Some(value),
            ConditionView::Contains { field, value } => match field_text(event, field) {
                Some(text) => contains_text(text, value),
                None => false,
            },
        }
    }
}

impl View for Condition {
    type V = ConditionView;

    open spec fn view(&self) -> ConditionView {
        match self {
            Condition::Exists { field } => ConditionView::Exists { field: field@ },
            Condition::Equals { field, value } => ConditionView::Equals {
                field: field@,
                value: value@,
            },
            Condition::Contains { field, value } => ConditionView::Contains {
                field: field@,
                value: value@,
            },
        }
    }
}

/// The text of the field `field` of `event`, if the event has the field
/// and its value has a text.
pub fn text_of(event: &LogEvent, field: &str) -> (text: Option<String>)
    ensures
        optional_view(text) == field_text(event@, field@),
{
    match event.get(field) {
        Some(value) => value.to_string_lossy(),
        None => None,
    }
}

impl Clone for Condition {
    /// A condition with the same content.
    fn clone(&self) -> (copy: Condition)
        ensures
            copy@ == self@,
    {
        match self {
            Condition::Exists { field } => Condition::Exists { field: field.clone() },
            Condition::Equals { field, value } => Condition::Equals {
                field: field.clone(),
                value: value.clone(),
            },
            Condition::Contains { field, value } => Condition::Contains {
                field: field.clone(),
                value: value.clone(),
            },
        }
    }
}

impl Condition {
    /// Whether the condition holds of `event`.
    pub fn check(&self, event: &LogEvent) -> (holds: bool)
        ensures
            holds == self@.holds(event@),
    {
        match self {
            Condition::Exists { field } => event.contains(field.as_str()),
            Condition::Equals { field, value } => match text_of(event, field.as_str()) {
                Some(text) => str_eq(text.as_str(), value.as_str()),
                None => false,
            },
            Condition::Contains { field, value } => match text_of(event, field.as_str()) {
                Some(text) => contains(text.as_str(), value.as_str()),
                None => false,
            },
        }
    }
}

/// The view of an optional condition.
pub open spec fn optional_condition(condition: Option<Condition>) -> Option<ConditionView> {
    match condition {
        Some(condition) => Some(condition@),
        None => None,
    }
}

/// The name of the field in which an event that was handed on carries the
/// rate.
pub open spec fn rate_field() -> Seq<char> {
    "sample_rate"@
}

/// The transform that hands on one event in `rate`.
#[derive(Debug)]
pub struct Sample {
    rate: u64,
    key_field: Option<String>,
    exclude: Option<Condition>,
    count: u64,
}

/// The mathematical content of a [`Sample`].
pub struct SampleView {
    /// One event in this many is handed on.
    pub rate: u64,
    /// The field by whose text the events are chosen; where there is
    /// none, or an event lacks it, events are chosen by their turn.
    pub key_field: Option<Seq<char>>,
    /// Events of which this holds are handed on unseen.
    pub exclude: Option<ConditionView>,
    /// How many events have been seen, modulo the rate.
    pub count: u64,
}

impl SampleView {
    /// The event is handed on unseen.
    pub open spec fn excludes(self, event: Map<Seq<char>, ValueView>) -> bool {
        match self.exclude {
            Some(condition) => condition.holds(event),
            None => false,
        }
    }

    /// The text by which the event is chosen, if it has one.
    pub open spec fn key_text(self, event: Map<Seq<char>, ValueView>) -> Option<Seq<char>> {
        match self.key_field {
            Some(key_field) => field_text(event, key_field),
            None => None,
        }
    }

    /// The number by which the event is chosen: the hash of its key text,
    /// or its turn where it has none.
    pub open spec fn number(self, event: Map<Seq<char>, ValueView>) -> u64 {
        match self.key_text(event) {
            Some(text) => seahash_of(vstd::utf8::encode_utf8(text)),
            None => self.count,
        }
    }

    /// The state after an event that was not excluded.
    pub open spec fn advanced(self) -> SampleView {
        SampleView { count: ((self.count + 1) % (self.rate as int)) as u64, ..self }
    }

    /// An event with the number `number` is handed on.
    pub open spec fn keeps(self, number: u64) -> bool {
        number % self.rate == 0
    }

    /// What seeing an event leads to: the state after it, and the event
    /// that is handed on, if one is. An excluded event is handed on as it
    /// is and not counted. Any other is counted, and handed on, marked
    /// with the rate, if the rate divides its number.
    pub open spec fn step(self, event: Map<Seq<char>, ValueView>) -> (
        SampleView,
        Option<Map<Seq<char>, ValueView>>,
    ) {
        if self.excludes(event) {
            (self, Some(event))
        } else if self.keeps(self.number(event)) {
            (self.advanced(), Some(marked(event, self.rate)))
        } else {
            (self.advanced(), None)
        }
    }
}

/// The event as it is handed on when it was chosen: with the rate in the
/// field `sample_rate`, as the bytes of its decimal numeral.
pub open spec fn marked(event: Map<Seq<char>, ValueView>, rate: u64) -> Map<
    Seq<char>,
    ValueView,
> {
    event.insert(rate_field(), ValueView::Bytes(vstd::utf8::encode_utf8(decimal(rate as nat))))
}

impl View for Sample {
    type V = SampleView;

    closed spec fn view(&self) -> SampleView {
        SampleView {
            rate: self.rate,
            key_field: optional_view(self.key_field),
            exclude: optional_condition(self.exclude),
            count: self.count,
        }
    }
}

impl Sample {
    #[verifier::type_invariant]
    spec fn counted(self) -> bool {
        if self.rate == 0 {
            self.count == 0
        } else {
            self.count < self.rate
        }
    }

    /// The transform that hands on one event in `rate`, chosen by the text
    /// of `key_field`, and every event of which `exclude` holds.
    pub fn new(rate: u64, key_field: Option<String>, exclude: Option<Condition>) -> (sample: Sample)
        ensures
            sample@ == (SampleView {
                rate,
                key_field: optional_view(key_field),
                exclude: optional_condition(exclude),
                count: 0,
            }),
    {
        Sample { rate, key_field, exclude, count: 0 }
    }

    /// One event in this many is handed on.
    pub fn rate(&self) -> (rate: u64)
        ensures
            rate == self@.rate,
    {
        self.rate
    }

    /// Whether `event` is handed on unseen.
    pub fn excludes(&self, event: &LogEvent) -> (excluded: bool)
        ensures
            excluded == self@.excludes(event@),
    {
        match &self.exclude {
            Some(condition) => condition.check(event),
            None => false,
        }
    }

    /// Counts one event and says whether an event with the number
    /// `number` is handed on: it is if the rate divides the number.
    pub fn tick(&mut self, number: u64) -> (keep: bool)
        requires
            old(self)@.rate > 0,
        ensures
            final(self)@ == old(self)@.advanced(),
            keep == old(self)@.keeps(number),
    {
        proof {
            use_type_invariant(&*self);
        }
        self.count = (self.count + 1) % self.rate;
        number % self.rate == 0
    }

    /// Sees one event: an excluded event is handed on as it is; any other
    /// is counted and, if the rate divides its number, handed on with
    /// the rate in it. What is handed on is put behind `output`.
    pub fn transform(&mut self, output: &mut Vec<LogEvent>, event: LogEvent)
        requires
            old(self)@.rate > 0 || old(self)@.excludes(event@),
        ensures
            final(self)@ == old(self)@.step(event@).0,
            handed_on(old(output)@, final(output)@, old(self)@.step(event@).1),
    {
        if self.excludes(&event) {
            output.push(event);
            assert(output@.drop_last() =~= old(output)@);
            return ;
        }
        let mut event = event;
        let value = match &self.key_field {
            Some(key_field) => text_of(&event, key_field.as_str()),
            None => None,
        };
        let number = match value {
            Some(value) => seahash(value.as_str().as_bytes()),
            None => self.count,
        };
        if self.tick(number) {
            let rate = u64_to_string(self.rate);
            event.insert("sample_rate".to_string(), Value::Bytes(rate.as_str().as_bytes_vec()));
            output.push(event);
            assert(output@.drop_last() =~= old(output)@);
        }
    }

    /// Sees one event, as `transform` does, where a rate of zero does not
    /// stand in the way: with it no number can be divided, so an event
    /// that is not excluded is then handed back, and nothing changes.
    pub fn try_transform(&mut self, output: &mut Vec<LogEvent>, event: LogEvent) -> (refused:
        Option<LogEvent>)
        ensures
            match refused {
                Some(back) => {
                    &&& old(self)@.rate == 0
                    &&& !old(self)@.excludes(event@)
                    &&& back == event
                    &&& final(self)@ == old(self)@
                    &&& final(output)@ == old(output)@
                },
                None => {
                    &&& old(self)@.rate > 0 || old(self)@.excludes(event@)
                    &&& final(self)@ == old(self)@.step(event@).0
                    &&& handed_on(old(output)@, final(output)@, old(self)@.step(event@).1)
                },
            },
    {
        if self.rate == 0 && !self.excludes(&event) {
            return Some(event);
        }
        self.transform(output, event);
        None
    }
}

/// The kind of data that a transform takes or gives.
#[derive(Clone, Copy, Debug, PartialEq, Eq, Structural)]
pub enum DataType {
    Any,
    Log,
    Metric,
}

/// The settings of a [`Sample`], as a configuration gives them.
#[derive(Debug)]
pub struct SampleConfig {
    /// One event in this many is handed on.
    pub rate: u64,
    /// The field by whose text the events are chosen.
    pub key_field: Option<String>,
    /// Events of which this holds are handed on unseen.
    pub exclude: Option<Condition>,
}

impl SampleConfig {
    /// The settings that a new configuration starts from: one event in
    /// ten, chosen by turn, none excluded.
    pub fn generate_config() -> (config: SampleConfig)
        ensures
            config.rate == 10,
            config.key_field is None,
            config.exclude is None,
    {
        SampleConfig { rate: 10, key_field: None, exclude: None }
    }

    /// Builds the transform with these settings, which has seen no event.
    pub fn build(&self) -> (sample: Sample)
        ensures
            sample@ == (SampleView {
                rate: self.rate,
                key_field: optional_view(self.key_field),
                exclude: optional_condition(self.exclude),
                count: 0,
            }),
    {
        let key_field = match &self.key_field {
            Some(key_field) => Some(key_field.clone()),
            None => None,
        };
        let exclude = match &self.exclude {
            Some(condition) => Some(condition.clone()),
            None => None,
        };
        Sample::new(self.rate, key_field, exclude)
    }

    /// The transform takes log events.
    pub fn input_type(&self) -> (data: DataType)
        ensures
            data == DataType::Log,
    {
        DataType::Log
    }

    /// The transform gives log events.
    pub fn output_type(&self) -> (data: DataType)
        ensures
            data == DataType::Log,
    {
        DataType::Log
    }

    /// The name of the transform.
    pub fn transform_type(&self) -> (name: &'static str)
        ensures
            name@ == "sample"@,
    {
        "sample"
    }
}

} // verus!
