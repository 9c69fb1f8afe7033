//! The transform that cuts a field into pieces and stores each piece under
//! a name of its own.

use vstd::prelude::*;
use crate::assoc::{lookup, named};
use crate::conversion::{conversion_named, Conversion, ConversionError};
use crate::sample::DataType;
use crate::event::{handed_on, LogEvent};
use crate::text::{find, find_from, is_whitespace, lemma_find_from, separates_words, to_chars};
use crate::value::{lossy_text, ValueView};

verus! {

/// The pieces of `text` from place `from` on, between one occurrence of
/// the separator and the next. The search for the next occurrence starts
/// behind the one before, so occurrences do not overlap.
pub open spec fn pieces_from(text: Seq<char>, separator: Seq<char>, from: int) -> Seq<Seq<char>>
    decreases text.len() - from,
    when 0 <= from <= text.len() && separator.len() > 0
    via pieces_from_decreases
{
    match find_from(text, separator, from) {
        Some(at) => seq![text.subrange(from, at)] + pieces_from(
            text,
            separator,
            at + separator.len(),
        ),
        None => seq![text.subrange(from, text.len() as int)],
    }
}

#[via_fn]
proof fn pieces_from_decreases(text: Seq<char>, separator: Seq<char>, from: int) {
    lemma_find_from(text, separator, from);
}

/// The pieces that the empty separator cuts a text into: it stands before
/// the first character, between any two and behind the last, so the
/// pieces are an empty one, each character by itself, and an empty one.
pub open spec fn single_chars(text: Seq<char>) -> Seq<Seq<char>> {
    seq![Seq::<char>::empty()] + Seq::new(text.len(), |i: int| seq![text[i]]) + seq![
        Seq::<char>::empty(),
    ]
}

/// The place from `from` on where the word that starts there ends: the
/// first white space, or the end of the text.
pub open spec fn word_end(text: Seq<char>, from: int) -> int
    decreases text.len() - from,
{
    if from < 0 || from >= text.len() || is_whitespace(text[from]) {
        from
    } else {
        word_end(text, from + 1)
    }
}

/// A word ends where it starts or later, and not behind the text.
pub proof fn lemma_word_end(text: Seq<char>, from: int)
    requires
        0 <= from <= text.len(),
    ensures
        from <= word_end(text, from) <= text.len(),
        from < text.len() && !is_whitespace(text[from]) ==> from < word_end(text, from),
    decreases text.len() - from,
{
    if from < text.len() && !is_whitespace(text[from]) {
        lemma_word_end(text, from + 1);
    }
}

/// The words of `text` from place `from` on: the longest runs of
/// characters that are not white space.
pub open spec fn words_from(text: Seq<char>, from: int) -> Seq<Seq<char>>
    decreases text.len() - from,
    when 0 <= from <= text.len()
    via words_from_decreases
{
    if from >= text.len() {
        Seq::empty()
    } else if is_whitespace(text[from]) {
        words_from(text, from + 1)
    } else {
        seq![text.subrange(from, word_end(text, from))] + words_from(text, word_end(text, from))
    }
}

#[via_fn]
proof fn words_from_decreases(text: Seq<char>, from: int) {
    lemma_word_end(text, from);
}

/// The pieces that a separator cuts a text into. Without a separator the
/// pieces are the words of the text.
pub open spec fn split_spec(text: Seq<char>, separator: Option<Seq<char>>) -> Seq<Seq<char>> {
    match separator {
        Some(separator) => if separator.len() == 0 {
            single_chars(text)
        } else {
            pieces_from(text, separator, 0)
        },
        None => words_from(text, 0),
    }
}

/// The contents of a list of string slices.
pub open spec fn slice_views(pieces: Seq<&str>) -> Seq<Seq<char>> {
    Seq::new(pieces.len(), |i: int| pieces[i]@)
}

/// The view of an optional string.
pub open spec fn optional_view(text: Option<String>) -> Option<Seq<char>> {
    match text {
        Some(text) => Some(text@),
        None => None,
    }
}

/// Cuts `input` at each occurrence of `separator`; without a separator,
/// at each run of white space, and then no piece is empty.
pub fn split<'a>(input: &'a str, separator: Option<String>) -> (pieces: Vec<&'a str>)
    ensures
        slice_views(pieces@) == split_spec(input@, optional_view(separator)),
{
    let text = to_chars(input);
    let size = text.len();
    let mut pieces: Vec<&'a str> = Vec::new();
    match separator {
        Some(separator) => {
            let needle = to_chars(separator.as_str());
            if needle.len() == 0 {
                let first = input.substring_char(0, 0);
                assert(first@ =~= Seq::<char>::empty());
                pieces.push(first);
                let mut i: usize = 0;
                while i < size
                    invariant
                        i <= size,
                        size == text@.len(),
                        text@ == input@,
                        pieces@.len() == i + 1,
                        pieces@[0]@ == Seq::<char>::empty(),
                        forall|j: int| 0 <= j < i ==> pieces@[j + 1]@ == seq![text@[j]],
                    decreases size - i,
                {
                    let piece = input.substring_char(i, i + 1);
                    assert(piece@ =~= seq![text@[i as int]]);
                    pieces.push(piece);
                    i += 1;
                }
                let last = input.substring_char(size, size);
                assert(last@ =~= Seq::<char>::empty());
                pieces.push(last);
                proof {
                    let views = slice_views(pieces@);
                    let wanted = single_chars(input@);
                    assert(views.len() == wanted.len());
                    assert forall|j: int| 0 <= j < views.len() implies views[j] == wanted[j] by {
                        if 0 < j <= size {
                            assert(pieces@[(j - 1) + 1]@ == seq![text@[j - 1]]);
                        }
                    }
                    assert(views =~= wanted);
                }
            } else {
                let mut from: usize = 0;
                loop
                    invariant_except_break
                        from <= size,
                        pieces_from(text@, needle@, 0) == slice_views(pieces@) + pieces_from(
                            text@,
                            needle@,
                            from as int,
                        ),
                    invariant
                        size == text@.len(),
                        text@ == input@,
                        needle@.len() > 0,
                        needle@ == separator@,
                    ensures
                        pieces_from(text@, needle@, 0) == slice_views(pieces@),
                    decreases size - from,
                {
                    proof {
                        lemma_find_from(text@, needle@, from as int);
                    }
                    match find(&text, &needle, from) {
                        Some(at) => {
                            let piece = input.substring_char(from, at);
                            proof {
                                let before = slice_views(pieces@);
                                let after = slice_views(pieces@.push(piece));
                                assert(after =~= before + seq![piece@]);
                                assert(before + (seq![piece@] + pieces_from(
                                    text@,
                                    needle@,
                                    at + needle@.len(),
                                )) =~= after + pieces_from(text@, needle@, at + needle@.len()));
                            }
                            pieces.push(piece);
                            from = at + needle.len();
                        },
                        None => {
                            let piece = input.substring_char(from, size);
                            proof {
                                let before = slice_views(pieces@);
                                let after = slice_views(pieces@.push(piece));
                                assert(after =~= before + seq![piece@]);
                            }
                            pieces.push(piece);
                            break ;
                        },
                    }
                }
            }
        },
        None => {
            let mut from: usize = 0;
            while from < size
                invariant
                    from <= size,
                    size == text@.len(),
                    text@ == input@,
                    words_from(text@, 0) == slice_views(pieces@) + words_from(text@, from as int),
                decreases size - from,
            {
                if separates_words(text[from]) {
                    from += 1;
                } else {
                    let mut end: usize = from + 1;
                    while end < size && !separates_words(text[end])
                        invariant
                            from < end <= size,
                            size == text@.len(),
                            word_end(text@, from as int) == word_end(text@, end as int),
                        decreases size - end,
                    {
                        end += 1;
                    }
                    let piece = input.substring_char(from, end);
                    proof {
                        let before = slice_views(pieces@);
                        let after = slice_views(pieces@.push(piece));
                        assert(after =~= before + seq![piece@]);
                        assert(before + (seq![piece@] + words_from(text@, end as int)) =~= after
                            + words_from(text@, end as int));
                    }
                    pieces.push(piece);
                    from = end;
                }
            }
            assert(slice_views(pieces@) + Seq::<Seq<char>>::empty() =~= slice_views(pieces@));
        },
    }
    pieces
}

/// The conversion for a field: the one that `types` names for it, and the
/// text as it is where they name none.
pub open spec fn conversion_for(types: Map<Seq<char>, Conversion>, name: Seq<char>) -> Conversion {
    if types.contains_key(name) {
        types[name]
    } else {
        Conversion::Bytes
    }
}

/// The event after the first `count` pieces have been converted and
/// stored, each under its name. A piece that cannot be converted is left
/// out.
pub open spec fn store_pieces(
    event: Map<Seq<char>, ValueView>,
    names: Seq<(Seq<char>, Conversion)>,
    pieces: Seq<Seq<char>>,
    count: nat,
) -> Map<Seq<char>, ValueView>
    decreases count,
{
    if count == 0 {
        event
    } else {
        let before = store_pieces(event, names, pieces, (count - 1) as nat);
        match names[count - 1].1.convert_spec(pieces[count - 1]) {
            Ok(value) => before.insert(names[count - 1].0, value),
            Err(_) => before,
        }
    }
}

/// The text of the field `field` of an event, if the event has the field
/// and its value has a text.
pub open spec fn field_text(event: Map<Seq<char>, ValueView>, field: Seq<char>) -> Option<
    Seq<char>,
> {
    if event.contains_key(field) {
        lossy_text(event[field])
    } else {
        None
    }
}

/// The transform that cuts one field of an event into pieces.
#[derive(Debug)]
pub struct Split {
    field_names: Vec<(String, Conversion)>,
    separator: Option<String>,
    field: String,
    drop_field: bool,
}

/// The mathematical content of a [`Split`].
pub struct SplitView {
    /// The names under which the pieces are stored, in order, each with
    /// the conversion of its piece.
    pub field_names: Seq<(Seq<char>, Conversion)>,
    /// What separates the pieces; white space where there is none.
    pub separator: Option<Seq<char>>,
    /// The field that is cut.
    pub field: Seq<char>,
    /// Whether the field that is cut is taken out of the event.
    pub drop_field: bool,
}

impl SplitView {
    /// What the transform makes of an event. An event without the field,
    /// or with a value there that has no text, is left as it is. Else the
    /// text is cut, piece and name are paired in order as far as both
    /// last, each piece is converted and stored, and the field is taken
    /// out if that is asked for.
    pub open spec fn transformed(self, event: Map<Seq<char>, ValueView>) -> Map<
        Seq<char>,
        ValueView,
    > {
        match field_text(event, self.field) {
            Some(text) => {
                let pieces = split_spec(text, self.separator);
                let count = if pieces.len() < self.field_names.len() {
                    pieces.len()
                } else {
                    self.field_names.len()
                };
                let stored = store_pieces(event, self.field_names, pieces, count);
                if self.drop_field {
                    stored.remove(self.field)
                } else {
                    stored
                }
            },
            None => event,
        }
    }
}

/// The names of a list of fields with their conversions.
pub open spec fn named_conversions(fields: Seq<(String, Conversion)>) -> Seq<
    (Seq<char>, Conversion),
> {
    Seq::new(fields.len(), |i: int| (fields[i].0@, fields[i].1))
}

impl View for Split {
    type V = SplitView;

    closed spec fn view(&self) -> SplitView {
        SplitView {
            field_names: named_conversions(self.field_names@),
            separator: optional_view(self.separator),
            field: self.field@,
            drop_field: self.drop_field,
        }
    }
}

/// A copy of an optional string.
fn clone_optional(text: &Option<String>) -> (copy: Option<String>)
    ensures
        optional_view(copy) == optional_view(*text),
{
    match text {
        Some(text) => Some(text.clone()),
        None => None,
    }
}

impl Split {
    /// The transform that cuts `field` at `separator` and stores the
    /// pieces under `field_names`, each converted as `types` says for its
    /// name, and as bytes where they say nothing.
    pub fn new(
        field_names: Vec<String>,
        separator: Option<String>,
        field: String,
        drop_field: bool,
        types: Vec<(String, Conversion)>,
    ) -> (split: Split)
        ensures
            split@ == (SplitView {
                field_names: Seq::new(
                    field_names@.len(),
                    |i: int| (field_names@[i]@, conversion_for(named(types@), field_names@[i]@)),
                ),
                separator: optional_view(separator),
                field: field@,
                drop_field,
            }),
    {
        let mut paired: Vec<(String, Conversion)> = Vec::new();
        let mut i: usize = 0;
        while i < field_names.len()
            invariant
                i <= field_names@.len(),
                paired@.len() == i,
                forall|j: int|
                    0 <= j < i ==> paired@[j].0@ == field_names@[j]@ && paired@[j].1
                        == conversion_for(named(types@), field_names@[j]@),
            decreases field_names@.len() - i,
        {
            let conversion = match lookup(&types, field_names[i].as_str()) {
                Some(conversion) => conversion,
                None => Conversion::Bytes,
            };
            paired.push((field_names[i].clone(), conversion));
            i += 1;
        }
        let split = Split { field_names: paired, separator, field, drop_field };
        assert(split@.field_names =~= Seq::new(
            field_names@.len(),
            |i: int| (field_names@[i]@, conversion_for(named(types@), field_names@[i]@)),
        ));
        split
    }

    /// Cuts the field of `event`, stores the pieces, and hands the event
    /// on as the last of `output`.
    pub fn transform(&mut self, output: &mut Vec<LogEvent>, event: LogEvent)
        ensures
            final(self)@ == old(self)@,
            handed_on(old(output)@, final(output)@, Some(old(self)@.transformed(event@))),
    {
        let mut event = event;
        let value = match event.get(self.field.as_str()) {
            Some(value) => value.to_string_lossy(),
            None => None,
        };
        if let Some(value) = value {
            let pieces = split(value.as_str(), clone_optional(&self.separator));
            let count = if pieces.len() < self.field_names.len() {
                pieces.len()
            } else {
                self.field_names.len()
            };
            let ghost before = event@;
            let ghost names = self@.field_names;
            let ghost cut = split_spec(value@, self@.separator);
            let mut i: usize = 0;
            while i < count
                invariant
                    i <= count,
                    count <= pieces@.len(),
                    count <= self.field_names@.len(),
                    names == named_conversions(self.field_names@),
                    cut == slice_views(pieces@),
                    event@ == store_pieces(before, names, cut, i as nat),
                decreases count - i,
            {
                let name = &self.field_names[i].0;
                let conversion = &self.field_names[i].1;
                match conversion.convert(pieces[i]) {
                    Ok(value) => {
                        event.insert(name.clone(), value);
                    },
                    Err(_) => {},
                }
                i += 1;
            }
            if self.drop_field {
                event.remove(self.field.as_str());
            }
        }
        output.push(event);
        assert(output@.drop_last() =~= old(output)@);
    }
}

/// The settings of a [`Split`], as a configuration gives them.
#[derive(Debug)]
pub struct SplitConfig {
    /// The names under which the pieces are stored, in order.
    pub field_names: Vec<String>,
    /// What separates the pieces; white space where there is none.
    pub separator: Option<String>,
    /// The field that is cut; the message of the event where there is
    /// none.
    pub field: Option<String>,
    /// Whether the field that is cut is taken out of the event.
    pub drop_field: bool,
    /// The names of the conversions, by field name.
    pub types: Vec<(String, String)>,
}

/// Every entry names a conversion that there is.
pub open spec fn all_known(types: Seq<(String, String)>) -> bool {
    forall|i: int| 0 <= i < types.len() ==> conversion_named(#[trigger] types[i].1@) is Some
}

/// The conversions that the entries name, by field name. Where a field
/// has two entries, the later one counts.
pub open spec fn chosen_conversions(types: Seq<(String, String)>) -> Map<Seq<char>, Conversion>
    decreases types.len(),
{
    if types.len() == 0 {
        Map::empty()
    } else {
        chosen_conversions(types.drop_last()).insert(
            types.last().0@,
            conversion_named(types.last().1@).unwrap(),
        )
    }
}

/// Some name of the list is `name`.
pub open spec fn names_hold(names: Seq<String>, name: Seq<char>) -> bool {
    exists|i: int| 0 <= i < names.len() && #[trigger] names[i]@ == name
}

impl SplitConfig {
    /// The settings without any name, separator or conversion, which do
    /// not take the field out.
    pub fn default() -> (config: SplitConfig)
        ensures
            config.field_names@.len() == 0,
            config.separator is None,
            config.field is None,
            !config.drop_field,
            config.types@.len() == 0,
    {
        SplitConfig {
            field_names: Vec::new(),
            separator: None,
            field: None,
            drop_field: false,
            types: Vec::new(),
        }
    }

    /// The transform takes log events.
    pub fn input_type(&self) -> (data: DataType)
        ensures
            data == DataType::Log,
    {
        DataType::Log
    }

    /// The transform gives log events.
    pub fn output_type(&self) -> (data: DataType)
        ensures
            data == DataType::Log,
    {
        DataType::Log
    }

    /// The name of the transform.
    pub fn transform_type(&self) -> (name: &'static str)
        ensures
            name@ == "split"@,
    {
        "split"
    }

    /// The field that is cut: the one that is set, else `message_key`.
    pub open spec fn source_field(self, message_key: Seq<char>) -> Seq<char> {
        match self.field {
            Some(field) => field@,
            None => message_key,
        }
    }

    /// Builds the transform. A name of a conversion that there is not is
    /// refused. The field that is cut is kept, whatever the settings say,
    /// where a piece is stored under its name.
    pub fn build(&self, message_key: &str) -> (outcome: Result<Split, ConversionError>)
        ensures
            match outcome {
                Ok(split) => {
                    &&& all_known(self.types@)
                    &&& split@ == (SplitView {
                        field_names: Seq::new(
                            self.field_names@.len(),
                            |i: int|
                                (
                                    self.field_names@[i]@,
                                    conversion_for(
                                        chosen_conversions(self.types@),
                                        self.field_names@[i]@,
                                    ),
                                ),
                        ),
                        separator: optional_view(self.separator),
                        field: self.source_field(message_key@),
                        drop_field: self.drop_field && !names_hold(
                            self.field_names@,
                            self.source_field(message_key@),
                        ),
                    })
                },
                Err(error) => error == ConversionError::UnknownConversion && !all_known(
                    self.types@,
                ),
            },
    {
        let field = match &self.field {
            Some(field) => field.clone(),
            None => message_key.to_string(),
        };
        let mut types: Vec<(String, Conversion)> = Vec::new();
        let mut i: usize = 0;
        assert(self.types@.take(0) =~= Seq::<(String, String)>::empty());
        while i < self.types.len()
            invariant
                i <= self.types@.len(),
                all_known(self.types@.take(i as int)),
                named(types@) == chosen_conversions(self.types@.take(i as int)),
            decreases self.types@.len() - i,
        {
            let ghost done = self.types@.take(i as int);
            let ghost next = self.types@.take(i + 1);
            proof {
                assert(next.drop_last() =~= done);
                assert(next.last() == self.types@[i as int]);
            }
            let conversion = match Conversion::parse(self.types[i].1.as_str()) {
                Ok(conversion) => conversion,
                Err(error) => {
                    return Err(error);
                },
            };
            proof {
                let entry = (self.types@[i as int].0, conversion);
                assert(types@.push(entry).drop_last() =~= types@);
                assert forall|j: int| 0 <= j < next.len() implies conversion_named(
                    #[trigger] next[j].1@,
                ) is Some by {
                    if j < done.len() {
                        assert(done[j] == next[j]);
                    }
                }
            }
            types.push((self.types[i].0.clone(), conversion));
            i += 1;
        }
        proof {
            assert(self.types@.take(self.types@.len() as int) =~= self.types@);
        }
        let mut names: Vec<String> = Vec::new();
        let mut overwritten = false;
        let mut k: usize = 0;
        while k < self.field_names.len()
            invariant
                k <= self.field_names@.len(),
                names@.len() == k,
                forall|j: int| 0 <= j < k ==> names@[j]@ == self.field_names@[j]@,
                overwritten == names_hold(self.field_names@.take(k as int), field@),
            decreases self.field_names@.len() - k,
        {
            let ghost done = self.field_names@.take(k as int);
            let ghost next = self.field_names@.take(k + 1);
            let same = crate::text::str_eq(self.field_names[k].as_str(), field.as_str());
            proof {
                if names_hold(done, field@) {
                    let j = choose|j: int| 0 <= j < done.len() && #[trigger] done[j]@ == field@;
                    assert(next[j]@ == field@);
                }
                if same {
                    assert(next[k as int]@ == field@);
                }
                if names_hold(next, field@) {
                    let j = choose|j: int| 0 <= j < next.len() && #[trigger] next[j]@ == field@;
                    if j < k {
                        assert(done[j]@ == field@);
                    }
                }
            }
            if same {
                overwritten = true;
            }
            names.push(self.field_names[k].clone());
            k += 1;
        }
        proof {
            assert(self.field_names@.take(self.field_names@.len() as int) =~= self.field_names@);
        }
        let drop_field = self.drop_field && !overwritten;
        let split = Split::new(names, clone_optional(&self.separator), field, drop_field, types);
        assert(split@.field_names =~= Seq::new(
            self.field_names@.len(),
            |i: int|
                (
                    self.field_names@[i]@,
                    conversion_for(chosen_conversions(self.types@), self.field_names@[i]@),
                ),
        ));
        Ok(split)
    }
}

} // verus!
