//! The rules: for each tag name, the attributes that its elements must carry.

use std::str::FromStr;
use vstd::prelude::*;
use vstd::std_specs::iter::IteratorSpec;
use vstd::string::*;
use crate::tag_map::TagMap;
use crate::toml_tree::{array_items, keys_of, parse_toml, parsed_toml, table_entries, text_of, toml_view, TomlView};

verus! {

/// The rules of one run: for each tag name, what its elements must carry.
pub type Config = TagMap<Rule>;

/// What the elements of one tag must carry.
#[derive(Debug, PartialEq)]
pub struct Rule {
    /// The required attributes, in the order in which they are reported.
    pub required: Vec<Attribute>,
}

/// A required attribute: a name, and the namespace prefix written before it.
#[derive(Debug, PartialEq)]
pub struct Attribute {
    /// The namespace prefix: everything before the last colon, if there is one.
    pub ns: Option<String>,
    /// The local name: everything after the last colon.
    pub name: String,
    /// The requirement as it was written.
    pub raw: String,
}

/// A required attribute as a mathematical value.
pub ghost struct AttributeView {
    pub ns: Option<Seq<char>>,
    pub name: Seq<char>,
    pub raw: Seq<char>,
}

impl View for Attribute {
    type V = AttributeView;

    open spec fn view(&self) -> AttributeView {
        AttributeView {
            ns: match self.ns {
                Some(prefix) => Some(prefix@),
                None => None,
            },
            name: self.name@,
            raw: self.raw@,
        }
    }
}

impl View for Rule {
    type V = Seq<AttributeView>;

    open spec fn view(&self) -> Seq<AttributeView> {
        Seq::new(self.required@.len(), |i: int| self.required@[i]@)
    }
}

/// The index of the last colon of a text, or -1 where it has none.
pub open spec fn last_colon(text: Seq<char>) -> int
    decreases text.len(),
{
    if text.len() == 0 {
        -1
    } else if text.last() == ':' {
        text.len() - 1
    } else {
        last_colon(text.drop_last())
    }
}

/// The requirement that a text states: the text is split at its last colon.
pub open spec fn requirement(raw: Seq<char>) -> AttributeView {
    let at = last_colon(raw);
    AttributeView {
        ns: if at < 0 {
            None
        } else {
            Some(raw.subrange(0, at))
        },
        name: raw.subrange(at + 1, raw.len() as int),
        raw,
    }
}

/// The last colon of a text is a colon with none behind it; a text without a
/// colon has none.
pub proof fn lemma_last_colon(text: Seq<char>)
    ensures
        -1 <= last_colon(text) < text.len(),
        last_colon(text) >= 0 ==> text[last_colon(text)] == ':',
        forall|i: int| last_colon(text) < i < text.len() ==> text[i] != ':',
    decreases text.len(),
{
    if text.len() > 0 && text.last() != ':' {
        let front = text.drop_last();
        lemma_last_colon(front);
        assert forall|i: int| last_colon(text) < i < text.len() implies text[i] != ':' by {
            if i < front.len() {
                assert(front[i] == text[i]);
            }
        }
    }
}

/// Splitting a text puts it apart at one colon: the local name holds no colon,
/// and the text is the local name alone, or the prefix, a colon and the local
/// name.
pub proof fn lemma_requirement_splits(raw: Seq<char>)
    ensures
        requirement(raw).raw == raw,
        !requirement(raw).name.contains(':'),
        match requirement(raw).ns {
            Some(prefix) => raw == prefix + seq![':'] + requirement(raw).name,
            None => raw == requirement(raw).name && !raw.contains(':'),
        },
{
    lemma_last_colon(raw);
    let parts = requirement(raw);
    match parts.ns {
        Some(prefix) => {
            assert(raw =~= prefix + seq![':'] + parts.name);
        },
        None => {
            assert(raw =~= parts.name);
        },
    }
}

impl Attribute {
    /// Reads a requirement. Every text is one: it is split at its last colon,
    /// and a text without a colon names an attribute without a prefix.
    pub fn parse(raw: &str) -> (attribute: Attribute)
        ensures
            attribute@ == requirement(raw@),
    {
        broadcast use {axiom_spec_iter, next_postcondition};

        let len = raw.unicode_len();
        let mut chars = raw.chars();
        let mut i: usize = 0;
        let mut colon: Option<usize> = None;
        while i < len
            invariant
                len == raw@.len(),
                i <= len,
                chars.remaining() == raw@.skip(i as int),
                chars.obeys_prophetic_iter_laws(),
                match colon {
                    Some(at) => at == last_colon(raw@.take(i as int)),
                    None => last_colon(raw@.take(i as int)) == -1,
                },
            decreases len - i,
        {
            let next = chars.next();
            proof {
                assert(raw@.take(i + 1).drop_last() =~= raw@.take(i as int));
                assert(raw@.skip(i as int).drop_first() =~= raw@.skip(i + 1));
                lemma_last_colon(raw@.take(i as int));
            }
            match next {
                Some(c) => {
                    if c == ':' {
                        colon = Some(i);
                    }
                },
                None => {},
            }
            i += 1;
        }
        proof {
            assert(raw@.take(len as int) =~= raw@);
            lemma_last_colon(raw@);
        }
        match colon {
            Some(at) => Attribute {
                ns: Some(raw.substring_char(0, at).to_owned()),
                name: raw.substring_char(at + 1, len).to_owned(),
                raw: raw.to_owned(),
            },
            None => Attribute {
                ns: None,
                name: raw.substring_char(0, len).to_owned(),
                raw: raw.to_owned(),
            },
        }
    }
}

impl FromStr for Attribute {
    type Err = String;

    /// Reads a requirement, as `parse` does. It never fails.
    fn from_str(s: &str) -> (parsed: Result<Attribute, String>)
        ensures
            parsed is Ok,
            parsed->Ok_0@ == requirement(s@),
    {
        Ok(Attribute::parse(s))
    }
}

/// What is wrong with the entry of a tag in the rules.
#[derive(Debug, Clone, Copy, PartialEq, Eq, Structural)]
pub enum Flaw {
    /// The entry is no table.
    NotATable,
    /// The table has no key `required`.
    MissingRequired,
    /// What `required` holds is no array.
    NotAnArray,
    /// An item of `required` is no string.
    NotAString,
}

/// Why a text does not give rules.
#[derive(Debug, PartialEq)]
pub enum ConfigError {
    /// The text is not TOML; the parser's description of what is wrong.
    Syntax(String),
    /// The entry of a tag does not have the shape of a rule; the tag, and
    /// what is wrong.
    Shape(String, Flaw),
}

/// The value that a table holds under a key.
pub open spec fn field(entries: Seq<(Seq<char>, TomlView)>, key: Seq<char>) -> Option<TomlView> {
    if keys_of(entries).contains(key) {
        Some(entries[keys_of(entries).index_of(key)].1)
    } else {
        None
    }
}

/// Whether every item is a string.
pub open spec fn all_text(items: Seq<TomlView>) -> bool {
    forall|i: int| 0 <= i < items.len() ==> #[trigger] items[i] is Text
}

/// The requirements that a list of strings states, in order.
pub open spec fn requirements_in(items: Seq<TomlView>) -> Seq<AttributeView> {
    Seq::new(items.len(), |i: int| requirement(items[i]->Text_0))
}

/// The rule that the entry of a tag states: the entry is a table whose key
/// `required` holds an array of strings, each of them a requirement. Other
/// keys of the table do not count.
pub open spec fn rule_in(value: TomlView) -> Result<Seq<AttributeView>, Flaw> {
    match value {
        TomlView::Table(fields) => match field(fields, "required"@) {
            None => Err(Flaw::MissingRequired),
            Some(TomlView::Array(items)) => if all_text(items) {
                Ok(requirements_in(items))
            } else {
                Err(Flaw::NotAString)
            },
            Some(_) => Err(Flaw::NotAnArray),
        },
        _ => Err(Flaw::NotATable),
    }
}

/// Whether an outcome is what a TOML value gives as rules. A table whose
/// entries all state rules gives these rules, tag by tag. Otherwise the
/// first entry that states no rule gives the error. A value that is no table
/// gives an error with an empty tag.
pub open spec fn loaded(value: TomlView, outcome: Result<Config, ConfigError>) -> bool {
    match value {
        TomlView::Table(entries) => match outcome {
            Ok(config) => {
                &&& config.wf()
                &&& config.tags() == keys_of(entries)
                &&& config.values().len() == entries.len()
                &&& forall|i: int|
                    0 <= i < entries.len() ==> rule_in(#[trigger] entries[i].1) == Ok::<
                        Seq<AttributeView>,
                        Flaw,
                    >(config.values()[i]@)
            },
            Err(ConfigError::Shape(tag, flaw)) => exists|i: int|
                {
                    &&& 0 <= i < entries.len()
                    &&& forall|j: int| 0 <= j < i ==> rule_in(#[trigger] entries[j].1) is Ok
                    &&& rule_in(#[trigger] entries[i].1) == Err::<Seq<AttributeView>, Flaw>(flaw)
                    &&& tag@ == entries[i].0
                },
            Err(ConfigError::Syntax(_)) => false,
        },
        _ => outcome matches Err(ConfigError::Shape(tag, flaw)) && tag@.len() == 0 && flaw
            == Flaw::NotATable,
    }
}

/// Reads the requirements that the items of an array state: nothing where
/// an item is no string.
fn requirements_of(items: &Vec<&toml::Value>) -> (required: Option<Vec<Attribute>>)
    ensures
        match required {
            Some(list) => (forall|i: int| 0 <= i < items@.len() ==> toml_view(*(#[trigger] items@[i])) is Text)
                && list@.len() == items@.len() && (forall|i: int|
                0 <= i < items@.len() ==> (#[trigger] list@[i])@ == requirement(toml_view(*items@[i])->Text_0)),
            None => exists|i: int| 0 <= i < items@.len() && !(toml_view(*(#[trigger] items@[i])) is Text),
        },
{
    let mut list: Vec<Attribute> = Vec::new();
    let mut i: usize = 0;
    while i < items.len()
        invariant
            i <= items.len(),
            list@.len() == i,
            forall|j: int| 0 <= j < i ==> toml_view(*(#[trigger] items@[j])) is Text,
            forall|j: int| 0 <= j < i ==> (#[trigger] list@[j])@ == requirement(toml_view(*items@[j])->Text_0),
        decreases items.len() - i,
    {
        match text_of(items[i]) {
            Some(text) => {
                list.push(Attribute::parse(text.as_str()));
            },
            None => {
                return None;
            },
        }
        i += 1;
    }
    Some(list)
}

/// Reads the rule that the entry of a tag states.
pub fn rule_of(value: &toml::Value) -> (rule: Result<Rule, Flaw>)
    ensures
        match rule {
            Ok(held) => rule_in(toml_view(*value)) == Ok::<Seq<AttributeView>, Flaw>(held@),
            Err(flaw) => rule_in(toml_view(*value)) == Err::<Seq<AttributeView>, Flaw>(flaw),
        },
{
    let fields = match table_entries(value) {
        Some(fields) => fields,
        None => {
            return Err(Flaw::NotATable);
        },
    };
    let ghost held = toml_view(*value)->Table_0;
    let key = "required".to_owned();
    let mut i: usize = 0;
    while i < fields.len()
        invariant
            i <= fields.len(),
            key@ == "required"@,
            toml_view(*value) == TomlView::Table(held),
            fields@.len() == held.len(),
            forall|j: int|
                0 <= j < held.len() ==> (#[trigger] fields@[j]).0@ == held[j].0 && toml_view(*fields@[j].1)
                    == held[j].1,
            keys_of(held).no_duplicates(),
            forall|j: int| 0 <= j < i ==> keys_of(held)[j] != key@,
        decreases fields.len() - i,
    {
        if fields[i].0 == key {
            proof {
                assert(keys_of(held)[i as int] == key@);
                assert(keys_of(held).contains(key@));
                assert(keys_of(held).index_of(key@) == i);
            }
            let items = match array_items(fields[i].1) {
                Some(items) => items,
                None => {
                    return Err(Flaw::NotAnArray);
                },
            };
            let ghost texts = toml_view(*fields@[i as int].1)->Array_0;
            return match requirements_of(&items) {
                Some(required) => {
                    let rule = Rule { required };
                    proof {
                        assert forall|j: int| 0 <= j < texts.len() implies #[trigger] texts[j] is Text by {
                            assert(toml_view(*items@[j]) == texts[j]);
                        }
                        assert forall|j: int| 0 <= j < texts.len() implies rule@[j] == requirements_in(
                            texts,
                        )[j] by {
                            assert(toml_view(*items@[j]) == texts[j]);
                            assert(rule.required@[j]@ == requirement(toml_view(*items@[j])->Text_0));
                        }
                        assert(rule@ =~= requirements_in(texts));
                    }
                    Ok(rule)
                },
                None => {
                    proof {
                        let j = choose|j: int| 0 <= j < items@.len() && !(toml_view(*(#[trigger] items@[j])) is Text);
                        assert(toml_view(*items@[j]) == texts[j]);
                        assert(!(texts[j] is Text));
                    }
                    Err(Flaw::NotAString)
                },
            };
        }
        i += 1;
    }
    proof {
        if keys_of(held).contains(key@) {
            let j = keys_of(held).index_of(key@);
            assert(keys_of(held)[j] == key@);
        }
    }
    Err(Flaw::MissingRequired)
}

/// Reads the rules that a TOML value states: one rule for each entry of the
/// table. The first entry that states no rule gives the error.
pub fn rules_of(value: &toml::Value) -> (outcome: Result<Config, ConfigError>)
    ensures
        loaded(toml_view(*value), outcome),
{
    let entries = match table_entries(value) {
        Some(entries) => entries,
        None => {
            let tag = String::new();
            return Err(ConfigError::Shape(tag, Flaw::NotATable));
        },
    };
    let ghost held = toml_view(*value)->Table_0;
    let mut config: Config = TagMap::new();
    let mut i: usize = 0;
    while i < entries.len()
        invariant
            i <= entries.len(),
            toml_view(*value) == TomlView::Table(held),
            entries@.len() == held.len(),
            forall|j: int|
                0 <= j < held.len() ==> (#[trigger] entries@[j]).0@ == held[j].0 && toml_view(
                    *entries@[j].1,
                ) == held[j].1,
            keys_of(held).no_duplicates(),
            config.wf(),
            config.tags() == keys_of(held).take(i as int),
            config.values().len() == i,
            forall|j: int|
                0 <= j < i ==> rule_in(#[trigger] held[j].1) == Ok::<Seq<AttributeView>, Flaw>(
                    config.values()[j]@,
                ),
        decreases entries.len() - i,
    {
        let tag = entries[i].0.clone();
        match rule_of(entries[i].1) {
            Ok(rule) => {
                proof {
                    if config.tags().contains(tag@) {
                        let j = config.tags().index_of(tag@);
                        assert(keys_of(held)[j] == tag@);
                        assert(keys_of(held)[i as int] == tag@);
                    }
                    assert(keys_of(held).take(i as int).push(tag@) =~= keys_of(held).take(i + 1));
                }
                config.insert(tag, rule);
            },
            Err(flaw) => {
                proof {
                    assert(rule_in(held[i as int].1) == Err::<Seq<AttributeView>, Flaw>(flaw));
                }
                return Err(ConfigError::Shape(tag, flaw));
            },
        }
        i += 1;
    }
    proof {
        assert(keys_of(held).take(i as int) =~= keys_of(held));
    }
    Ok(config)
}

/// What reading rules makes of a text once `toml` has parsed it: the rules
/// that the value states, or the error.
pub fn rules_from(parsed: Result<toml::Value, String>) -> (outcome: Result<Config, ConfigError>)
    ensures
        match parsed {
            Ok(value) => loaded(toml_view(value), outcome),
            Err(cause) => outcome matches Err(ConfigError::Syntax(text)) && text@ == cause@,
        },
{
    match parsed {
        Ok(value) => rules_of(&value),
        Err(cause) => Err(ConfigError::Syntax(cause)),
    }
}

/// Reads rules from a TOML text. Every table of the text is the rule of the
/// tag that it is named after, and its key `required` holds the tag's
/// requirements: an array of strings. A text that is not TOML, or in which
/// an entry has another shape, gives an error.
pub fn from_str(s: &str) -> (outcome: Result<Config, ConfigError>)
    ensures
        match parsed_toml(s@) {
            Some(value) => loaded(value, outcome),
            None => outcome is Err && outcome->Err_0 is Syntax,
        },
        outcome is Ok ==> outcome->Ok_0.wf(),
{
    rules_from(parse_toml(s))
}

/// What an error says is wrong with an entry.
pub open spec fn flaw_text(flaw: Flaw) -> Seq<char> {
    match flaw {
        Flaw::NotATable => "expected a table"@,
        Flaw::MissingRequired => "missing field `required`"@,
        Flaw::NotAnArray => "expected `required` to be an array"@,
        Flaw::NotAString => "expected every item of `required` to be a string"@,
    }
}

/// The description of an error: the parser's own, or the tag of the entry
/// and what is wrong with it.
pub open spec fn error_text(error: ConfigError) -> Seq<char> {
    match error {
        ConfigError::Syntax(cause) => cause@,
        ConfigError::Shape(tag, flaw) => "invalid rule for `"@ + tag@ + "`: "@ + flaw_text(flaw),
    }
}

impl ConfigError {
    /// The description of the error.
    pub fn to_string(&self) -> (text: String)
        ensures
            text@ == error_text(*self),
    {
        match self {
            ConfigError::Syntax(cause) => cause.clone(),
            ConfigError::Shape(tag, flaw) => {
                let mut text = "invalid rule for `".to_owned();
                text.append(tag.as_str());
                text.append("`: ");
                match flaw {
                    Flaw::NotATable => text.append("expected a table"),
                    Flaw::MissingRequired => text.append("missing field `required`"),
                    Flaw::NotAnArray => text.append("expected `required` to be an array"),
                    Flaw::NotAString => text.append("expected every item of `required` to be a string"),
                }
                text
            },
        }
    }
}

} // verus!
