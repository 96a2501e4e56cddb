use vstd::hash_map::StringHashMap;
use vstd::prelude::*;
use vstd::string::StrSliceExecFns;
use crate::error::Error;

verus! {

/// What a key of the type table maps to: a type for a node without a format,
/// and a type for each format that the table knows under that key.
pub struct Type {
    pub default: String,
    pub format: Option<StringHashMap<String>>,
}

/// The configuration of a run: the type table, keyed by the name of a kind
/// or by an object name; free lookups for templates; and the layout that
/// wraps the type of an item into the type of a collection.
pub struct Config {
    pub types: StringHashMap<Type>,
    pub extended: StringHashMap<String>,
    pub array_layout: String,
}

/// The placeholder of an array layout, which stands for the type of the
/// item.
pub open spec fn placeholder() -> Seq<char> {
    seq!['{', 't', 'y', 'p', 'e', '}']
}

/// Whether `pattern` stands in `text` at position `at`.
pub open spec fn occurs_at(text: Seq<char>, pattern: Seq<char>, at: int) -> bool {
    0 <= at && at + pattern.len() <= text.len() && text.subrange(at, at + pattern.len()) == pattern
}

/// Whether a layout holds the placeholder.
pub open spec fn has_placeholder(layout: Seq<char>) -> bool {
    exists|at: int| occurs_at(layout, placeholder(), at)
}

/// Tells whether the placeholder stands in `text` at position `at`.
pub fn placeholder_at(text: &str, at: usize) -> (res: bool)
    ensures
        res == occurs_at(text@, placeholder(), at as int),
{
    let n = text.unicode_len();
    if at > n || n - at < 6 {
        return false;
    }
    let found = text.get_char(at) == '{' && text.get_char(at + 1) == 't' && text.get_char(at + 2)
        == 'y' && text.get_char(at + 3) == 'p' && text.get_char(at + 4) == 'e' && text.get_char(
        at + 5,
    ) == '}';
    proof {
        let piece = text@.subrange(at as int, at + 6);
        if found {
            assert(piece =~= placeholder());
        } else {
            if piece == placeholder() {
                assert(piece[0] == '{' && piece[1] == 't' && piece[2] == 'y' && piece[3] == 'p'
                    && piece[4] == 'e' && piece[5] == '}');
            }
        }
    }
    found
}

impl Type {
    /// Makes an entry of the type table with no format under it.
    pub fn new(default: String) -> (res: Type)
        ensures
            res.default@ == default@,
            res.format is None,
    {
        Type { default, format: None }
    }

    /// Sets the type that the entry gives for a format, in place of the one
    /// that it gave for that format before.
    pub fn set_format(&mut self, format: String, mapped: String)
        ensures
            final(self).default == old(self).default,
            final(self).format matches Some(table) && table@ == (match old(self).format {
                Some(before) => before@,
                None => Map::empty(),
            }).insert(format@, mapped),
    {
        match &mut self.format {
            Some(table) => {
                table.insert(format, mapped);
            },
            None => {
                let mut table: StringHashMap<String> = StringHashMap::new();
                table.insert(format, mapped);
                self.format = Some(table);
            },
        }
    }
}

impl Config {
    /// Makes a configuration with the given layout and with empty tables.
    pub fn new(array_layout: String) -> (res: Config)
        ensures
            res.array_layout@ == array_layout@,
            res.types@ == Map::<Seq<char>, Type>::empty(),
            res.extended@ == Map::<Seq<char>, String>::empty(),
    {
        Config { types: StringHashMap::new(), extended: StringHashMap::new(), array_layout }
    }

    /// Sets the entry of the type table under a key.
    pub fn set_type(&mut self, key: String, entry: Type)
        ensures
            final(self).types@ == old(self).types@.insert(key@, entry),
            final(self).extended == old(self).extended,
            final(self).array_layout == old(self).array_layout,
    {
        self.types.insert(key, entry);
    }

    /// Sets the text that the free lookups give under a key.
    pub fn set_extended(&mut self, key: String, value: String)
        ensures
            final(self).extended@ == old(self).extended@.insert(key@, value),
            final(self).types == old(self).types,
            final(self).array_layout == old(self).array_layout,
    {
        self.extended.insert(key, value);
    }

    /// Checks that the configuration can be used: its array layout has to
    /// hold the placeholder `{type}`.
    pub fn validate(&self) -> (res: Result<(), Error>)
        ensures
            has_placeholder(self.array_layout@) ==> res is Ok,
            !has_placeholder(self.array_layout@) ==> res == Err::<(), Error>(
                Error::ConfigValidation,
            ),
    {
        let layout = self.array_layout.as_str();
        let n = layout.unicode_len();
        let mut at: usize = 0;
        while at < n
            invariant
                at <= n,
                n == layout@.len(),
                layout@ == self.array_layout@,
                forall|k: int| 0 <= k < at ==> !occurs_at(layout@, placeholder(), k),
            decreases n - at,
        {
            if placeholder_at(layout, at) {
                assert(occurs_at(self.array_layout@, placeholder(), at as int));
                return Ok(());
            }
            at += 1;
        }
        assert(!has_placeholder(layout@)) by {
            assert forall|k: int| !occurs_at(layout@, placeholder(), k) by {
                if k >= n {
                    assert(k + placeholder().len() > layout@.len());
                }
            }
        }
        Err(Error::ConfigValidation)
    }
}

} // verus!
