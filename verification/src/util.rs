use vstd::prelude::*;

use vstd::string::StrSliceExecFns;

use crate::mdast::{MdNode, MdTree};
use crate::name_map::NameMap;
use crate::text::chars_of;
use crate::yaml::{documents, load_yaml, loaded_view, yaml_documents, YamlTree, YamlValue};
use crate::{WorldError, WorldResult};

verus! {

/// The days of the week.
#[derive(Clone, Copy, Debug, PartialEq, Eq, Structural)]
pub enum WeekDay {
    Monday,
    Tuesday,
    Wednesday,
    Thursday,
    Friday,
    Saturday,
    Sunday,
}

impl WeekDay {
    /// The place of the day in a `Week`: Sunday comes first.
    pub open spec fn slot(self) -> int {
        match self {
            WeekDay::Sunday => 0,
            WeekDay::Monday => 1,
            WeekDay::Tuesday => 2,
            WeekDay::Wednesday => 3,
            WeekDay::Thursday => 4,
            WeekDay::Friday => 5,
            WeekDay::Saturday => 6,
        }
    }

    /// The English name of the day, as documents write it.
    pub open spec fn name(self) -> Seq<char> {
        match self {
            WeekDay::Sunday => "Sunday"@,
            WeekDay::Monday => "Monday"@,
            WeekDay::Tuesday => "Tuesday"@,
            WeekDay::Wednesday => "Wednesday"@,
            WeekDay::Thursday => "Thursday"@,
            WeekDay::Friday => "Friday"@,
            WeekDay::Saturday => "Saturday"@,
        }
    }
}

/// No two days share a name.
pub proof fn lemma_day_names_differ()
    ensures
        forall|a: WeekDay, b: WeekDay| #[trigger] a.name() == #[trigger] b.name() ==> a == b,
{
    reveal_strlit("Sunday");
    reveal_strlit("Monday");
    reveal_strlit("Tuesday");
    reveal_strlit("Wednesday");
    reveal_strlit("Thursday");
    reveal_strlit("Friday");
    reveal_strlit("Saturday");
    assert forall|a: WeekDay, b: WeekDay| #[trigger] a.name() == #[trigger] b.name() implies a
        == b by {
        assert(a.name().len() == b.name().len());
        assert(a.name()[0] == b.name()[0]);
        assert(a.name()[1] == b.name()[1]);
    }
}

/// One value for each day of the week, Sunday first.
pub struct Week<T>(pub [T; 7]);

impl<T> Week<T> {
    /// The value that the week holds for `day`.
    pub open spec fn spec_index(self, day: WeekDay) -> T {
        self.0@[day.slot()]
    }

    /// Builds a week from a mapping of day names to values. All seven names
    /// must be bound; bindings of other names are dropped.
    pub fn new(map: NameMap<T>) -> (week: Option<Week<T>>)
        ensures
            week is Some <==> forall|day: WeekDay| map@.contains_key(#[trigger] day.name()),
            week matches Some(w) ==> forall|day: WeekDay|
                w.spec_index(day) == map@[#[trigger] day.name()],
    {
        let ghost given = map@;
        let mut map = map;
        proof {
            lemma_day_names_differ();
            assert(WeekDay::Sunday.name() == "Sunday"@ && WeekDay::Monday.name() == "Monday"@);
            assert(WeekDay::Tuesday.name() == "Tuesday"@ && WeekDay::Wednesday.name()
                == "Wednesday"@);
            assert(WeekDay::Thursday.name() == "Thursday"@ && WeekDay::Friday.name() == "Friday"@);
            assert(WeekDay::Saturday.name() == "Saturday"@);
        }
        let sunday = match map.remove("Sunday") {
            Some(value) => value,
            None => {
                assert(!given.contains_key(WeekDay::Sunday.name()));
                return None;
            },
        };
        let monday = match map.remove("Monday") {
            Some(value) => value,
            None => {
                assert(!given.contains_key(WeekDay::Monday.name()));
                return None;
            },
        };
        let tuesday = match map.remove("Tuesday") {
            Some(value) => value,
            None => {
                assert(!given.contains_key(WeekDay::Tuesday.name()));
                return None;
            },
        };
        let wednesday = match map.remove("Wednesday") {
            Some(value) => value,
            None => {
                assert(!given.contains_key(WeekDay::Wednesday.name()));
                return None;
            },
        };
        let thursday = match map.remove("Thursday") {
            Some(value) => value,
            None => {
                assert(!given.contains_key(WeekDay::Thursday.name()));
                return None;
            },
        };
        let friday = match map.remove("Friday") {
            Some(value) => value,
            None => {
                assert(!given.contains_key(WeekDay::Friday.name()));
                return None;
            },
        };
        let saturday = match map.remove("Saturday") {
            Some(value) => value,
            None => {
                assert(!given.contains_key(WeekDay::Saturday.name()));
                return None;
            },
        };
        let week = Week([sunday, monday, tuesday, wednesday, thursday, friday, saturday]);
        proof {
            assert forall|day: WeekDay| given.contains_key(#[trigger] day.name())
                && week.spec_index(day) == given[day.name()] by {
                match day {
                    WeekDay::Sunday => {},
                    WeekDay::Monday => {},
                    WeekDay::Tuesday => {},
                    WeekDay::Wednesday => {},
                    WeekDay::Thursday => {},
                    WeekDay::Friday => {},
                    WeekDay::Saturday => {},
                }
            }
        }
        Some(week)
    }

    /// The value for `index`.
    pub fn index(&self, index: WeekDay) -> (value: &T)
        ensures
            *value == self.spec_index(index),
    {
        match index {
            WeekDay::Sunday => &self.0[0],
            WeekDay::Monday => &self.0[1],
            WeekDay::Tuesday => &self.0[2],
            WeekDay::Wednesday => &self.0[3],
            WeekDay::Thursday => &self.0[4],
            WeekDay::Friday => &self.0[5],
            WeekDay::Saturday => &self.0[6],
        }
    }

    /// The value for `index`, for changing it in place. The other days keep
    /// their values.
    pub fn index_mut(&mut self, index: WeekDay) -> (value: &mut T)
        ensures
            *value == old(self).spec_index(index),
            final(self).0@ == old(self).0@.update(index.slot(), *final(value)),
    {
        match index {
            WeekDay::Sunday => &mut self.0[0],
            WeekDay::Monday => &mut self.0[1],
            WeekDay::Tuesday => &mut self.0[2],
            WeekDay::Wednesday => &mut self.0[3],
            WeekDay::Thursday => &mut self.0[4],
            WeekDay::Friday => &mut self.0[5],
            WeekDay::Saturday => &mut self.0[6],
        }
    }
}

impl<T> std::ops::Index<WeekDay> for Week<T> {
    type Output = T;

    fn index(&self, index: WeekDay) -> (value: &T)
        ensures
            *value == self.spec_index(index),
    {
        Week::index(self, index)
    }
}

impl<T> std::ops::IndexMut<WeekDay> for Week<T> {
    fn index_mut(&mut self, index: WeekDay) -> (value: &mut T)
        ensures
            *value == old(self).spec_index(index),
            final(self).0@ == old(self).0@.update(index.slot(), *final(value)),
    {
        Week::index_mut(self, index)
    }
}

/// Named slots in the order in which they were added. A name may occur more
/// than once; a lookup by name finds the first.
pub struct SlotShedule<T>(pub Vec<(String, T)>);

impl<T> SlotShedule<T> {
    /// The names of the slots, in order.
    pub open spec fn names(self) -> Seq<Seq<char>> {
        Seq::new(self.0@.len(), |i: int| self.0@[i].0@)
    }

    /// The position of the first slot called `slot`, if there is one.
    pub open spec fn first_named(self, slot: Seq<char>) -> Option<int> {
        self.names().index_of_first(slot)
    }

    /// A schedule without slots.
    pub fn new() -> (shedule: SlotShedule<T>)
        ensures
            shedule.0@.len() == 0,
    {
        SlotShedule(Vec::new())
    }

    /// The position of the first slot called `slot`.
    fn find(&self, slot: &str) -> (found: Option<usize>)
        ensures
            match found {
                Some(i) => self.first_named(slot@) == Some(i as int) && i < self.0@.len(),
                None => self.first_named(slot@) is None,
            },
    {
        let wanted = slot.to_owned();
        let mut i: usize = 0;
        while i < self.0.len()
            invariant
                i <= self.0@.len(),
                wanted@ == slot@,
                forall|j: int| 0 <= j < i ==> self.names()[j] != slot@,
            decreases self.0@.len() - i,
        {
            if self.0[i].0 == wanted {
                proof {
                    self.names().index_of_first_ensures(slot@);
                    assert(self.names()[i as int] == slot@);
                }
                return Some(i);
            }
            i += 1;
        }
        proof {
            self.names().index_of_first_ensures(slot@);
        }
        None
    }

    /// The value of the first slot called `slot`.
    pub fn get(&self, slot: &str) -> (value: Option<&T>)
        ensures
            match self.first_named(slot@) {
                Some(i) => value == Some(&self.0@[i].1),
                None => value is None,
            },
    {
        match self.find(slot) {
            Some(i) => Some(&self.0[i].1),
            None => None,
        }
    }

    /// The value of the first slot called `slot`, for changing it in place.
    /// Nothing else changes.
    pub fn get_mut(&mut self, slot: &str) -> (value: Option<&mut T>)
        ensures
            match old(self).first_named(slot@) {
                Some(i) => value matches Some(v) && *v == old(self).0@[i].1 && final(self).0@
                    == old(self).0@.update(i, (old(self).0@[i].0, *final(v))),
                None => value is None && final(self).0@ == old(self).0@,
            },
    {
        match self.find(slot) {
            Some(i) => Some(&mut self.0[i].1),
            None => None,
        }
    }
}

/// The text of the first child of `node`, where that child is plain text.
pub open spec fn paragraph_text(node: MdTree) -> Option<Seq<char>> {
    match node.children() {
        Some(children) => if children.len() > 0 {
            match children[0] {
                MdTree::Text(value) => Some(value),
                _ => None,
            }
        } else {
            None
        },
        None => None,
    }
}

/// The text that a paragraph starts with: that of its first child, if the
/// paragraph has one and it is plain text.
pub fn md_parse_paragraph(ast: &MdNode) -> (text: Option<String>)
    ensures
        match text {
            Some(value) => paragraph_text(ast@) == Some(value@),
            None => paragraph_text(ast@) is None,
        },
{
    match ast.children() {
        Some(children) => {
            if children.len() == 0 {
                return None;
            }
            match &children[0] {
                MdNode::Text(value) => Some(value.clone()),
                _ => None,
            }
        },
        None => None,
    }
}

/// Whether the front-matter delimiter, three hyphens, stands at `i`.
pub open spec fn is_delimiter_at(text: Seq<char>, i: int) -> bool {
    &&& 0 <= i
    &&& i + 3 <= text.len()
    &&& text[i] == '-'
    &&& text[i + 1] == '-'
    &&& text[i + 2] == '-'
}

/// Whether a delimiter line starts at `i`: three hyphens that stand at
/// the start of a line behind the first.
pub open spec fn is_closer_at(text: Seq<char>, i: int) -> bool {
    &&& 3 <= i
    &&& text[i - 1] == '\n'
    &&& is_delimiter_at(text, i)
}

/// Whether `i` is where the front-matter that opens `text` is closed: the
/// first place behind the opening delimiter at which a delimiter line
/// starts.
pub open spec fn is_closing(text: Seq<char>, i: int) -> bool {
    &&& is_closer_at(text, i)
    &&& forall|j: int| 3 <= j < i ==> !is_closer_at(text, j)
}

/// Whether the front-matter that opens `text` is closed anywhere.
pub open spec fn has_closing(text: Seq<char>) -> bool {
    exists|i: int| is_closing(text, i)
}

/// Where the front-matter that opens `text` is closed.
pub open spec fn closing(text: Seq<char>) -> int {
    choose|i: int| is_closing(text, i)
}

/// How a text parts at the delimiters of its front-matter, as a
/// mathematical value.
pub enum PartsModel {
    /// The text does not start with the delimiter: it has no front-matter.
    Plain,
    /// The text starts with the delimiter and no delimiter follows.
    Unclosed,
    /// The front-matter, from the start of the text to its closing
    /// delimiter, and the body behind the closing delimiter.
    Framed { meta: Seq<char>, body: Seq<char> },
}

/// How `text` parts at the delimiters of its front-matter.
pub open spec fn parts_of(text: Seq<char>) -> PartsModel {
    if !is_delimiter_at(text, 0) {
        PartsModel::Plain
    } else if !has_closing(text) {
        PartsModel::Unclosed
    } else {
        PartsModel::Framed {
            meta: text.subrange(0, closing(text)),
            body: text.subrange(closing(text) + 3, text.len() as int),
        }
    }
}

/// How a text parts at the delimiters of its front-matter.
#[derive(Debug, Clone, Copy, PartialEq, Eq)]
pub enum Parts<'a> {
    Plain,
    Unclosed,
    Framed { meta: &'a str, body: &'a str },
}

impl<'a> View for Parts<'a> {
    type V = PartsModel;

    open spec fn view(&self) -> PartsModel {
        match self {
            Parts::Plain => PartsModel::Plain,
            Parts::Unclosed => PartsModel::Unclosed,
            Parts::Framed { meta, body } => PartsModel::Framed { meta: meta@, body: body@ },
        }
    }
}

/// Parts a text at the delimiters of its front-matter. A text has
/// front-matter where it starts with the delimiter; the front-matter ends
/// before the first delimiter that starts a later line. The front-matter
/// keeps its opening delimiter; the closing delimiter belongs to neither
/// part.
pub fn split_front_matter(text: &str) -> (parts: Parts<'_>)
    ensures
        parts@ == parts_of(text@),
{
    let chars = chars_of(text);
    let n = chars.len();
    if !delimiter_at(&chars, 0) {
        return Parts::Plain;
    }
    let mut i: usize = 3;
    while i < n && !closer_at(&chars, i)
        invariant
            3 <= i,
            n == chars@.len(),
            forall|j: int| 3 <= j < i ==> !is_closer_at(chars@, j),
        decreases n - i,
    {
        i += 1;
    }
    if i >= n {
        proof {
            assert forall|j: int| !is_closing(chars@, j) by {
                if is_closer_at(chars@, j) {
                    assert(j < n);
                }
            }
        }
        return Parts::Unclosed;
    }
    proof {
        assert(is_closing(chars@, i as int));
        let end = closing(chars@);
        assert(is_closing(chars@, end));
        assert(end == i) by {
            if end < i {
                assert(!is_closer_at(chars@, end));
            }
            if i < end {
                assert(!is_closer_at(chars@, i as int));
            }
        }
    }
    Parts::Framed { meta: text.substring_char(0, i), body: text.substring_char(i + 3, n) }
}

/// A document parted into front-matter and body.
pub enum MetaSplit {
    /// The body, and the last YAML document of the front-matter if the
    /// text has front-matter.
    Split { body: Seq<char>, meta: Option<YamlTree> },
    /// The front-matter is not closed, or holds no YAML document.
    NoEnding,
    /// The front-matter is no YAML; the scanner's error.
    BadYaml(::yaml_rust::ScanError),
}

/// The part that a document gets from its front-matter once that is read
/// as YAML: the last of the documents, with the body. Front-matter that
/// the YAML reader refuses, or in which it finds no document, fails.
pub open spec fn picked(
    body: Seq<char>,
    loaded: Result<Seq<YamlTree>, ::yaml_rust::ScanError>,
) -> MetaSplit {
    match loaded {
        Err(error) => MetaSplit::BadYaml(error),
        Ok(documents) => if documents.len() == 0 {
            MetaSplit::NoEnding
        } else {
            MetaSplit::Split { body, meta: Some(documents.last()) }
        },
    }
}

/// How `text` parts into front-matter and body. A text that does not start
/// with the delimiter is all body. Otherwise the front-matter runs from the
/// start of the text to the delimiter line that closes it, the opening
/// delimiter included, and the body starts behind the closing hyphens.
pub open spec fn split_meta(text: Seq<char>) -> MetaSplit {
    match parts_of(text) {
        PartsModel::Plain => MetaSplit::Split { body: text, meta: None },
        PartsModel::Unclosed => MetaSplit::NoEnding,
        PartsModel::Framed { meta, body } => picked(body, yaml_documents(meta)),
    }
}

/// A text that does not start with the delimiter has no front-matter:
/// all of it is body, unchanged.
pub proof fn lemma_plain_text_is_all_body(text: Seq<char>)
    requires
        !is_delimiter_at(text, 0),
    ensures
        split_meta(text) == (MetaSplit::Split { body: text, meta: None }),
{
}

/// A text that opens front-matter and has no delimiter at the start of a
/// later line fails for want of an ending, whatever it holds.
pub proof fn lemma_unclosed_front_matter_fails(text: Seq<char>)
    requires
        is_delimiter_at(text, 0),
        forall|i: int| 3 <= i ==> !is_closer_at(text, i),
    ensures
        split_meta(text) == MetaSplit::NoEnding,
{
    assert forall|i: int| !is_closing(text, i) by {}
}

/// Whether `result` is what `split` asks for.
pub open spec fn is_split(
    result: WorldResult<(&str, Option<YamlValue>)>,
    split: MetaSplit,
) -> bool {
    match split {
        MetaSplit::Split { body, meta } => match result {
            Ok((rest, Some(value))) => rest@ == body && meta == Some(value@),
            Ok((rest, None)) => rest@ == body && meta is None,
            Err(_) => false,
        },
        MetaSplit::NoEnding => result matches Err(WorldError::NoMetadataEnding),
        MetaSplit::BadYaml(error) => result matches Err(WorldError::YamlParsingError(found))
            && found == error,
    }
}

/// Picks the front-matter of a document out of what the YAML reader made
/// of it: the last of the documents. The scanner's error is handed on as
/// it is.
pub fn pick_meta<'a>(
    body: &'a str,
    loaded: Result<Vec<YamlValue>, ::yaml_rust::ScanError>,
) -> (result: WorldResult<(&'a str, Option<YamlValue>)>)
    ensures
        is_split(result, picked(body@, loaded_view(loaded))),
        loaded matches Err(error) ==> result == Err::<(&'a str, Option<YamlValue>), WorldError>(
            WorldError::YamlParsingError(error),
        ),
{
    let mut values = match loaded {
        Ok(values) => values,
        Err(error) => {
            return Err(WorldError::YamlParsingError(error));
        },
    };
    let ghost all = documents(values);
    match values.pop() {
        Some(value) => {
            assert(all.last() == value@);
            Ok((body, Some(value)))
        },
        None => Err(WorldError::NoMetadataEnding),
    }
}

/// Parts a document into its body and its front-matter.
pub fn remove_meta(ast: &str) -> (result: WorldResult<(&str, Option<YamlValue>)>)
    ensures
        is_split(result, split_meta(ast@)),
{
    match split_front_matter(ast) {
        Parts::Plain => Ok((ast, None)),
        Parts::Unclosed => Err(WorldError::NoMetadataEnding),
        Parts::Framed { meta, body } => pick_meta(body, load_yaml(meta)),
    }
}

/// Whether a delimiter line starts at `i` in `chars`.
fn closer_at(chars: &Vec<char>, i: usize) -> (found: bool)
    requires
        3 <= i,
    ensures
        found == is_closer_at(chars@, i as int),
{
    i < chars.len() && chars[i - 1] == '\n' && delimiter_at(chars, i)
}

/// Whether the delimiter stands at `i` in `chars`.
fn delimiter_at(chars: &Vec<char>, i: usize) -> (found: bool)
    ensures
        found == is_delimiter_at(chars@, i as int),
{
    i < chars.len() && chars.len() - i >= 3 && chars[i] == '-' && chars[i + 1] == '-' && chars[i
        + 2] == '-'
}

} // verus!
