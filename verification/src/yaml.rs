use vstd::prelude::*;

verus! {

/// A YAML value as a mathematical value.
pub enum YamlTree {
    Real(Seq<char>),
    Integer(i64),
    String(Seq<char>),
    Boolean(bool),
    Array(Seq<YamlTree>),
    /// The entries of a mapping, in the order of the document.
    Hash(Seq<(YamlTree, YamlTree)>),
    Alias(usize),
    Null,
    BadValue,
}

/// The keys of `entries`, in order.
pub open spec fn entry_keys(entries: Seq<(YamlTree, YamlTree)>) -> Seq<YamlTree> {
    Seq::new(entries.len(), |i: int| entries[i].0)
}

impl YamlTree {
    /// What a mapping binds to the string `key`: the value of the first entry
    /// with that key. `BadValue` where there is no such entry, or where the
    /// value is no mapping.
    pub open spec fn get(self, key: Seq<char>) -> YamlTree {
        match self {
            YamlTree::Hash(entries) => match entry_keys(entries).index_of_first(
                YamlTree::String(key),
            ) {
                Some(i) => entries[i].1,
                None => YamlTree::BadValue,
            },
            _ => YamlTree::BadValue,
        }
    }

    /// The text of a string.
    pub open spec fn as_str(self) -> Option<Seq<char>> {
        match self {
            YamlTree::String(text) => Some(text),
            _ => None,
        }
    }

    /// The number of an integer.
    pub open spec fn as_i64(self) -> Option<i64> {
        match self {
            YamlTree::Integer(number) => Some(number),
            _ => None,
        }
    }
}

/// A YAML value.
#[derive(Debug, PartialEq, Eq)]
pub enum YamlValue {
    Real(String),
    Integer(i64),
    String(String),
    Boolean(bool),
    Array(Vec<YamlValue>),
    Hash(Vec<(YamlValue, YamlValue)>),
    Alias(usize),
    Null,
    BadValue,
}

/// The values of `values` as mathematical values, in order.
pub open spec fn documents(values: Vec<YamlValue>) -> Seq<YamlTree>
    decreases values, 1int,
{
    Seq::new(
        values.len() as nat,
        |i: int|
            if 0 <= i < values.len() {
                values[i].view()
            } else {
                YamlTree::BadValue
            },
    )
}

/// The entries of `entries` as mathematical values, in order.
pub open spec fn bindings(entries: Vec<(YamlValue, YamlValue)>) -> Seq<(YamlTree, YamlTree)>
    decreases entries, 1int,
{
    Seq::new(
        entries.len() as nat,
        |i: int|
            if 0 <= i < entries.len() {
                (entries[i].0.view(), entries[i].1.view())
            } else {
                (YamlTree::BadValue, YamlTree::BadValue)
            },
    )
}

impl View for YamlValue {
    type V = YamlTree;

    open spec fn view(&self) -> YamlTree
        decreases self, 0int,
    {
        match self {
            YamlValue::Real(text) => YamlTree::Real(text@),
            YamlValue::Integer(number) => YamlTree::Integer(*number),
            YamlValue::String(text) => YamlTree::String(text@),
            YamlValue::Boolean(truth) => YamlTree::Boolean(*truth),
            YamlValue::Array(values) => YamlTree::Array(documents(*values)),
            YamlValue::Hash(entries) => YamlTree::Hash(bindings(*entries)),
            YamlValue::Alias(anchor) => YamlTree::Alias(*anchor),
            YamlValue::Null => YamlTree::Null,
            YamlValue::BadValue => YamlTree::BadValue,
        }
    }
}

impl Clone for YamlValue {
    fn clone(&self) -> (copy: YamlValue)
        ensures
            copy@ == self@,
        decreases self,
    {
        match self {
            YamlValue::Real(text) => YamlValue::Real(text.clone()),
            YamlValue::Integer(number) => YamlValue::Integer(*number),
            YamlValue::String(text) => YamlValue::String(text.clone()),
            YamlValue::Boolean(truth) => YamlValue::Boolean(*truth),
            YamlValue::Array(values) => YamlValue::Array(clone_values(values)),
            YamlValue::Hash(entries) => YamlValue::Hash(clone_entries(entries)),
            YamlValue::Alias(anchor) => YamlValue::Alias(*anchor),
            YamlValue::Null => YamlValue::Null,
            YamlValue::BadValue => YamlValue::BadValue,
        }
    }
}

/// Copies of `values`, in order.
fn clone_values(values: &Vec<YamlValue>) -> (copy: Vec<YamlValue>)
    ensures
        documents(copy) == documents(*values),
    decreases values,
{
    let mut copy: Vec<YamlValue> = Vec::new();
    let mut i: usize = 0;
    while i < values.len()
        invariant
            i <= values.len(),
            copy@.len() == i,
            forall|j: int| 0 <= j < i ==> (#[trigger] copy@[j])@ == values@[j]@,
        decreases values.len() - i,
    {
        copy.push(values[i].clone());
        i += 1;
    }
    assert(documents(copy) =~= documents(*values));
    copy
}

/// Copies of `entries`, in order.
fn clone_entries(entries: &Vec<(YamlValue, YamlValue)>) -> (copy: Vec<(YamlValue, YamlValue)>)
    ensures
        bindings(copy) == bindings(*entries),
    decreases entries,
{
    let mut copy: Vec<(YamlValue, YamlValue)> = Vec::new();
    let mut i: usize = 0;
    while i < entries.len()
        invariant
            i <= entries.len(),
            copy@.len() == i,
            forall|j: int|
                0 <= j < i ==> (#[trigger] copy@[j]).0@ == entries@[j].0@ && copy@[j].1@
                    == entries@[j].1@,
        decreases entries.len() - i,
    {
        copy.push((entries[i].0.clone(), entries[i].1.clone()));
        i += 1;
    }
    assert(bindings(copy) =~= bindings(*entries));
    copy
}

impl YamlValue {
    /// Whether this value is the string `key`.
    fn is_string(&self, key: &String) -> (same: bool)
        ensures
            same == (self@ == YamlTree::String(key@)),
    {
        match self {
            YamlValue::String(text) => *text == *key,
            _ => false,
        }
    }

    /// What a mapping binds to the string `key`.
    pub fn get(&self, key: &str) -> (value: Option<&YamlValue>)
        ensures
            match value {
                Some(found) => found@ == self@.get(key@),
                None => self@.get(key@) == YamlTree::BadValue,
            },
    {
        match self {
            YamlValue::Hash(entries) => {
                let wanted = key.to_owned();
                let ghost keys = entry_keys(bindings(*entries));
                let mut i: usize = 0;
                while i < entries.len()
                    invariant
                        i <= entries.len(),
                        wanted@ == key@,
                        keys == entry_keys(bindings(*entries)),
                        self@ == YamlTree::Hash(bindings(*entries)),
                        forall|j: int| 0 <= j < i ==> keys[j] != YamlTree::String(key@),
                    decreases entries.len() - i,
                {
                    if entries[i].0.is_string(&wanted) {
                        proof {
                            keys.index_of_first_ensures(YamlTree::String(key@));
                            assert(keys[i as int] == YamlTree::String(key@));
                            assert(keys.index_of_first(YamlTree::String(key@)) == Some(i as int));
                            assert(bindings(*entries)[i as int].1 == entries[i as int].1@);
                        }
                        return Some(&entries[i].1);
                    }
                    i += 1;
                }
                proof {
                    keys.index_of_first_ensures(YamlTree::String(key@));
                }
                None
            },
            _ => None,
        }
    }

    /// The text of a string.
    pub fn as_str(&self) -> (text: Option<&str>)
        ensures
            match text {
                Some(t) => self@.as_str() == Some(t@),
                None => self@.as_str() is None,
            },
    {
        match self {
            YamlValue::String(text) => Some(text.as_str()),
            _ => None,
        }
    }

    /// The number of an integer.
    pub fn as_i64(&self) -> (number: Option<i64>)
        ensures
            number == self@.as_i64(),
    {
        match self {
            YamlValue::Integer(number) => Some(*number),
            _ => None,
        }
    }
}

/// A value as the `yaml_rust` crate hands it out.
#[verifier::external_type_specification]
#[verifier::external_body]
pub struct ExYaml(::yaml_rust::Yaml);

/// The error of the `yaml_rust` scanner.
#[verifier::external_type_specification]
#[verifier::external_body]
pub struct ExScanError(::yaml_rust::ScanError);

/// What the scanner's error says.
pub uninterp spec fn text_of_scan_error(error: ::yaml_rust::ScanError) -> Seq<char>;

/// Calls `to_string` of `ScanError`: the error as `Display` writes it.
#[verifier::external_body]
pub(crate) fn scan_error_text(error: &::yaml_rust::ScanError) -> (text: String)
    ensures
        text@ == text_of_scan_error(*error),
{
    error.to_string()
}

/// The documents that `text` holds as YAML, or the error with which the
/// scanner refuses the text.
pub uninterp spec fn yaml_documents(text: Seq<char>) -> Result<
    Seq<YamlTree>,
    ::yaml_rust::ScanError,
>;

/// What the YAML reader made of a text, as a mathematical value.
pub open spec fn loaded_view(loaded: Result<Vec<YamlValue>, ::yaml_rust::ScanError>) -> Result<
    Seq<YamlTree>,
    ::yaml_rust::ScanError,
> {
    match loaded {
        Ok(values) => Ok(documents(values)),
        Err(error) => Err(error),
    }
}

/// Turns a value of `yaml_rust` into a value of this library, variant by
/// variant; the entries of a mapping keep the order in which
/// `LinkedHashMap::iter` hands them out, which is that of the document.
#[verifier::external_body]
fn from_yaml(yaml: &::yaml_rust::Yaml) -> YamlValue {
    match yaml {
        ::yaml_rust::Yaml::Real(text) => YamlValue::Real(text.clone()),
        ::yaml_rust::Yaml::Integer(number) => YamlValue::Integer(*number),
        ::yaml_rust::Yaml::String(text) => YamlValue::String(text.clone()),
        ::yaml_rust::Yaml::Boolean(truth) => YamlValue::Boolean(*truth),
        ::yaml_rust::Yaml::Array(list) => YamlValue::Array(list.iter().map(from_yaml).collect()),
        ::yaml_rust::Yaml::Hash(entries) => YamlValue::Hash(
            entries.iter().map(|(key, value)| (from_yaml(key), from_yaml(value))).collect(),
        ),
        ::yaml_rust::Yaml::Alias(anchor) => YamlValue::Alias(*anchor),
        ::yaml_rust::Yaml::Null => YamlValue::Null,
        ::yaml_rust::Yaml::BadValue => YamlValue::BadValue,
    }
}

/// Calls `yaml_rust::YamlLoader::load_from_str`. The documents that it
/// gives, or the error with which its scanner refuses the text, depend on
/// the text alone; `yaml_documents` is their name.
#[verifier::external_body]
pub(crate) fn load_yaml(text: &str) -> (result: Result<Vec<YamlValue>, ::yaml_rust::ScanError>)
    ensures
        loaded_view(result) == yaml_documents(text@),
{
    match ::yaml_rust::YamlLoader::load_from_str(text) {
        Ok(values) => Ok(values.iter().map(from_yaml).collect()),
        Err(error) => Err(error),
    }
}

} // verus!
