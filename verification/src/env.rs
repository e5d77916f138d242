//! The environment source: its settings, how a variable's name becomes a key,
//! how its value gets a type, and how a snapshot becomes a map.

use crate::result_map::ResultMap;
use crate::text::{
    boolean_of, integer_of, lowercase_of, parse_boolean, parse_integer, replace, replace_all,
    strip_prefix, to_lowercase,
};
use crate::value::{KindView, Value, ValueKind, ValueView};
use vstd::prelude::*;
use vstd::string::*;

verus! {

/// One environment variable of a snapshot. `float_bits` is what the host's
/// float parser made of `value`: the bit pattern of the 64-bit float that it
/// read, or `None` where it read none.
#[derive(Debug)]
pub struct RawEntry {
    pub name: String,
    pub value: String,
    pub float_bits: Option<u64>,
}

/// The mathematical content of a [`RawEntry`].
pub ghost struct RawEntryView {
    pub name: Seq<char>,
    pub value: Seq<char>,
    pub float_bits: Option<u64>,
}

impl View for RawEntry {
    type V = RawEntryView;

    open spec fn view(&self) -> RawEntryView {
        RawEntryView { name: self.name@, value: self.value@, float_bits: self.float_bits }
    }
}

/// Why a source could not hand back its map.
#[derive(Debug)]
pub enum SourceError {
    Message(String),
}

/// The settings of an environment source.
#[derive(Debug)]
pub struct Environment {
    /// Only variables whose name begins with this prefix and the group
    /// separator are read; both are cut off the key.
    prefix: Option<String>,
    /// The text that parts the segments of a key; each occurrence becomes `.`.
    separator: Option<String>,
    /// Whether a variable with an empty value counts as unset.
    ignore_empty: bool,
    /// Whether values that spell a boolean, an integer or a float get that type.
    try_parsing: bool,
}

/// The mathematical content of an [`Environment`].
pub ghost struct Settings {
    pub prefix: Option<Seq<char>>,
    pub separator: Option<Seq<char>>,
    pub ignore_empty: bool,
    pub try_parsing: bool,
}

/// The settings that nothing has been chosen for.
pub open spec fn default_settings() -> Settings {
    Settings { prefix: None, separator: None, ignore_empty: false, try_parsing: false }
}

/// The text that glues a prefix to the rest of a name: the separator where one
/// is set and not empty, else `_`.
pub open spec fn group_separator(cfg: Settings) -> Seq<char> {
    match cfg.separator {
        Some(s) => if s.len() > 0 {
            s
        } else {
            "_"@
        },
        None => "_"@,
    }
}

/// The pattern that a lowercased prefix makes: the prefix and then the group
/// separator.
pub open spec fn pattern_from(cfg: Settings, lowered_prefix: Seq<char>) -> Seq<char> {
    lowered_prefix + group_separator(cfg)
}

/// What a lowercased name has to begin with to be read, where a prefix is set.
pub open spec fn prefix_pattern(cfg: Settings) -> Option<Seq<char>> {
    match cfg.prefix {
        Some(p) => Some(pattern_from(cfg, lowercase_of(p))),
        None => None,
    }
}

/// A key with each occurrence of the separator turned into `.`; the key itself
/// where no separator is set or it is empty.
pub open spec fn dotted(cfg: Settings, key: Seq<char>) -> Seq<char> {
    match cfg.separator {
        Some(s) => replace_all(key, s, "."@),
        None => key,
    }
}

/// The key that a lowercased name gives under a pattern: what follows the
/// pattern, with the separator rewritten, or `None` where the name does not
/// begin with the pattern. With no pattern the whole name is taken.
pub open spec fn key_under(cfg: Settings, pattern: Option<Seq<char>>, lowered: Seq<char>)
    -> Option<Seq<char>> {
    match pattern {
        Some(p) => if p.is_prefix_of(lowered) {
            Some(dotted(cfg, lowered.skip(p.len() as int)))
        } else {
            None
        },
        None => Some(dotted(cfg, lowered)),
    }
}

/// The key under which a variable of the given name is read, or `None` where
/// the name lacks the prefix and the variable is left out.
pub open spec fn normalized_key(cfg: Settings, name: Seq<char>) -> Option<Seq<char>> {
    key_under(cfg, prefix_pattern(cfg), lowercase_of(name))
}

/// The typed form of a raw value, given its lowercase form: the first of
/// boolean (read from the lowercase form), integer and float that the value
/// spells, where parsing is on; the value itself as a string otherwise.
pub open spec fn kind_from(
    cfg: Settings,
    value: Seq<char>,
    lowered: Seq<char>,
    float_bits: Option<u64>,
) -> KindView {
    if !cfg.try_parsing {
        KindView::String(value)
    } else if boolean_of(lowered) is Some {
        KindView::Boolean(boolean_of(lowered)->0)
    } else if integer_of(value) is Some {
        KindView::Integer(integer_of(value)->0)
    } else if float_bits is Some {
        KindView::Float(float_bits->0)
    } else {
        KindView::String(value)
    }
}

/// The typed form of a raw value: the first of boolean (read without regard
/// to case), integer and float that the value spells, where parsing is on;
/// the value itself as a string otherwise.
pub open spec fn inferred_kind(cfg: Settings, value: Seq<char>, float_bits: Option<u64>)
    -> KindView {
    kind_from(cfg, value, lowercase_of(value), float_bits)
}

/// The origin that every value of this source is tagged with.
pub open spec fn origin_tag() -> Seq<char> {
    "the environment"@
}

/// What one variable adds to the map: its key and tagged value, or `None`
/// where the variable is left out.
pub open spec fn binding_of(cfg: Settings, entry: RawEntryView) -> Option<
    (Seq<char>, ValueView),
> {
    if cfg.ignore_empty && entry.value.len() == 0 {
        None
    } else {
        match normalized_key(cfg, entry.name) {
            Some(key) => Some(
                (
                    key,
                    ValueView {
                        origin: Some(origin_tag()),
                        kind: inferred_kind(cfg, entry.value, entry.float_bits),
                    },
                ),
            ),
            None => None,
        }
    }
}

/// The map that a snapshot gives: each variable in turn adds its binding,
/// a later one replacing an earlier one under the same key.
pub open spec fn collected(cfg: Settings, entries: Seq<RawEntryView>) -> Map<
    Seq<char>,
    ValueView,
>
    decreases entries.len(),
{
    if entries.len() == 0 {
        Map::empty()
    } else {
        let before = collected(cfg, entries.drop_last());
        match binding_of(cfg, entries.last()) {
            Some(b) => before.insert(b.0, b.1),
            None => before,
        }
    }
}

/// The mathematical content of a string that may be absent.
pub open spec fn option_text(s: Option<String>) -> Option<Seq<char>> {
    match s {
        Some(t) => Some(t@),
        None => None,
    }
}

/// The mathematical content of a key and its value.
pub open spec fn pair_view(b: (String, Value)) -> (Seq<char>, ValueView) {
    (b.0@, b.1@)
}

/// The mathematical content of a snapshot.
pub open spec fn snapshot_view(entries: Seq<RawEntry>) -> Seq<RawEntryView> {
    entries.map_values(|e: RawEntry| e@)
}

impl View for Environment {
    type V = Settings;

    closed spec fn view(&self) -> Settings {
        Settings {
            prefix: match self.prefix {
                Some(p) => Some(p@),
                None => None,
            },
            separator: match self.separator {
                Some(s) => Some(s@),
                None => None,
            },
            ignore_empty: self.ignore_empty,
            try_parsing: self.try_parsing,
        }
    }
}

impl Clone for Environment {
    fn clone(&self) -> (r: Environment)
        ensures
            r@ == self@,
    {
        Environment {
            prefix: match &self.prefix {
                Some(p) => Some(p.clone()),
                None => None,
            },
            separator: match &self.separator {
                Some(s) => Some(s.clone()),
                None => None,
            },
            ignore_empty: self.ignore_empty,
            try_parsing: self.try_parsing,
        }
    }
}

impl Default for Environment {
    fn default() -> (r: Environment)
        ensures
            r@ == default_settings(),
    {
        Environment { prefix: None, separator: None, ignore_empty: false, try_parsing: false }
    }
}

impl Environment {
    /// A source with no prefix, no separator and both switches off.
    pub fn new() -> (r: Environment)
        ensures
            r@ == default_settings(),
    {
        Environment { prefix: None, separator: None, ignore_empty: false, try_parsing: false }
    }

    /// A source that reads only the variables under the prefix `s`.
    pub fn with_prefix(s: &str) -> (r: Environment)
        ensures
            r@ == (Settings { prefix: Some(s@), ..default_settings() }),
    {
        Environment {
            prefix: Some(String::from_str(s)),
            separator: None,
            ignore_empty: false,
            try_parsing: false,
        }
    }

    /// The same source with the prefix set to `s`.
    pub fn prefix(self, s: &str) -> (r: Environment)
        ensures
            r@ == (Settings { prefix: Some(s@), ..self@ }),
    {
        let mut this = self;
        this.prefix = Some(String::from_str(s));
        this
    }

    /// The same source with the separator set to `s`.
    pub fn separator(self, s: &str) -> (r: Environment)
        ensures
            r@ == (Settings { separator: Some(s@), ..self@ }),
    {
        let mut this = self;
        this.separator = Some(String::from_str(s));
        this
    }

    /// The same source with empty values counted as unset, or not.
    pub fn ignore_empty(self, ignore: bool) -> (r: Environment)
        ensures
            r@ == (Settings { ignore_empty: ignore, ..self@ }),
    {
        let mut this = self;
        this.ignore_empty = ignore;
        this
    }

    /// The same source with type inference switched on or off.
    pub fn try_parsing(self, try_parsing: bool) -> (r: Environment)
        ensures
            r@ == (Settings { try_parsing: try_parsing, ..self@ }),
    {
        let mut this = self;
        this.try_parsing = try_parsing;
        this
    }

    /// The text that glues the prefix to the rest of a name.
    pub fn group_separator(&self) -> (r: &str)
        ensures
            r@ == group_separator(self@),
    {
        match &self.separator {
            Some(s) => if s.as_str().is_empty() {
                "_"
            } else {
                s.as_str()
            },
            None => "_",
        }
    }

    /// The pattern that a lowercased prefix makes with the group separator.
    pub fn pattern_from(&self, lowered_prefix: &str) -> (r: String)
        ensures
            r@ == pattern_from(self@, lowered_prefix@),
    {
        String::from_str(lowered_prefix).concat(self.group_separator())
    }

    /// What a lowercased name has to begin with, where a prefix is set.
    pub fn prefix_pattern(&self) -> (r: Option<String>)
        ensures
            option_text(r) == prefix_pattern(self@),
    {
        match &self.prefix {
            Some(p) => {
                let lowered = to_lowercase(p.as_str());
                Some(self.pattern_from(lowered.as_str()))
            },
            None => None,
        }
    }

    /// Turns each occurrence of the separator in `key` into `.`.
    pub fn rewrite_segments(&self, key: &str) -> (r: String)
        ensures
            r@ == dotted(self@, key@),
    {
        match &self.separator {
            Some(s) => if s.as_str().is_empty() {
                String::from_str(key)
            } else {
                replace(key, s.as_str(), ".")
            },
            None => String::from_str(key),
        }
    }

    /// The key that a lowercased name gives under a pattern, or `None` where
    /// the name does not begin with the pattern.
    pub fn key_under(&self, pattern: &Option<String>, lowered: &str) -> (r: Option<String>)
        ensures
            option_text(r) == key_under(self@, option_text(*pattern), lowered@),
    {
        match pattern {
            Some(p) => match strip_prefix(lowered, p.as_str()) {
                Some(rest) => Some(self.rewrite_segments(rest)),
                None => None,
            },
            None => Some(self.rewrite_segments(lowered)),
        }
    }

    /// The key under which a variable named `name` is read, or `None` where
    /// the name lacks the prefix.
    pub fn normalize_key(&self, name: &str) -> (r: Option<String>)
        ensures
            option_text(r) == normalized_key(self@, name@),
    {
        let pattern = self.prefix_pattern();
        let lowered = to_lowercase(name);
        self.key_under(&pattern, lowered.as_str())
    }

    /// The typed form of a raw value, given its lowercase form. `float_bits`
    /// is what the host's float parser made of `value`; it is looked at only
    /// after boolean and integer.
    pub fn kind_from(&self, value: &str, lowered: &str, float_bits: Option<u64>) -> (r: ValueKind)
        ensures
            r@ == kind_from(self@, value@, lowered@, float_bits),
    {
        if !self.try_parsing {
            return ValueKind::String(String::from_str(value));
        }
        if let Some(b) = parse_boolean(lowered) {
            ValueKind::Boolean(b)
        } else if let Some(i) = parse_integer(value) {
            ValueKind::Integer(i)
        } else if let Some(bits) = float_bits {
            ValueKind::Float(bits)
        } else {
            ValueKind::String(String::from_str(value))
        }
    }

    /// The typed form of a raw value. `float_bits` is what the host's float
    /// parser made of `value`.
    pub fn infer_value(&self, value: &str, float_bits: Option<u64>) -> (r: ValueKind)
        ensures
            r@ == inferred_kind(self@, value@, float_bits),
    {
        let lowered = to_lowercase(value);
        self.kind_from(value, lowered.as_str(), float_bits)
    }

    /// What one variable adds to the map, given the pattern of this source.
    fn binding_under(&self, pattern: &Option<String>, entry: &RawEntry) -> (r: Option<
        (String, Value),
    >)
        requires
            option_text(*pattern) == prefix_pattern(self@),
        ensures
            r is Some <==> binding_of(self@, entry@) is Some,
            r is Some ==> pair_view(r->0) == binding_of(self@, entry@)->0,
    {
        if self.ignore_empty && entry.value.as_str().is_empty() {
            return None;
        }
        let lowered = to_lowercase(entry.name.as_str());
        match self.key_under(pattern, lowered.as_str()) {
            Some(key) => {
                let kind = self.infer_value(entry.value.as_str(), entry.float_bits);
                Some((key, Value::new(Some("the environment"), kind)))
            },
            None => None,
        }
    }

    /// The map that a snapshot of the environment gives. Never fails.
    pub fn collect_from(&self, entries: &Vec<RawEntry>) -> (r: Result<ResultMap, SourceError>)
        ensures
            r is Ok,
            r->Ok_0@ == collected(self@, snapshot_view(entries@)),
    {
        let pattern = self.prefix_pattern();
        let mut m = ResultMap::new();
        let mut i: usize = 0;
        while i < entries.len()
            invariant
                i <= entries@.len(),
                option_text(pattern) == prefix_pattern(self@),
                m@ == collected(self@, snapshot_view(entries@).take(i as int)),
            decreases entries@.len() - i,
        {
            proof {
                let all = snapshot_view(entries@);
                assert(all.take(i + 1).drop_last() =~= all.take(i as int));
                assert(all.take(i + 1).last() == entries@[i as int]@);
            }
            match self.binding_under(&pattern, &entries[i]) {
                Some((key, value)) => {
                    m.insert(key, value);
                },
                None => {},
            }
            i += 1;
        }
        proof {
            let all = snapshot_view(entries@);
            assert(all.take(i as int) =~= all);
        }
        Ok(m)
    }
}

} // verus!
