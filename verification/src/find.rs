//! A tool that lists the entries of directories, by kind and by name.

use crate::pattern::{matches_anywhere, pattern_accepted, pattern_compiles, pattern_matches};
use crate::text::{chars_of, text_views};
use vstd::prelude::*;

verus! {

/// The kinds of entry that can be asked for.
#[derive(Debug, PartialEq, Eq, Structural, Clone, Copy)]
pub enum EntryType {
    Dir,
    File,
    Link,
}

/// What is known of one entry of a directory.
#[derive(Debug)]
pub struct Entry {
    /// Whether its path is a symbolic link.
    pub is_link: bool,
    /// Whether it is a directory.
    pub is_dir: bool,
    /// Whether it is a regular file.
    pub is_file: bool,
    /// Its name, without the directories that lead to it.
    pub name: String,
}

/// Where to search and what to list. The names are patterns that the engine
/// accepts.
#[derive(Debug)]
pub struct Config {
    dirs: Vec<String>,
    names: Option<Vec<String>>,
    entry_types: Option<Vec<EntryType>>,
}

/// A `Config` as a mathematical value.
pub struct Settings {
    pub dirs: Seq<Seq<char>>,
    pub names: Option<Seq<Seq<char>>>,
    pub entry_types: Option<Seq<EntryType>>,
}

impl View for Config {
    type V = Settings;

    closed spec fn view(&self) -> Settings {
        Settings {
            dirs: text_views(self.dirs@),
            names: match self.names {
                Some(names) => Some(text_views(names@)),
                None => None,
            },
            entry_types: match self.entry_types {
                Some(types) => Some(types@),
                None => None,
            },
        }
    }
}

/// True if the engine accepts every pattern of `names`.
pub open spec fn all_compile(names: Seq<Seq<char>>) -> bool {
    forall|i: int| 0 <= i < names.len() ==> pattern_compiles(#[trigger] names[i])
}

/// The first of `names` that the engine refuses, if it refuses any.
pub open spec fn first_refused(names: Seq<Seq<char>>) -> Option<Seq<char>>
    decreases names.len(),
{
    if names.len() == 0 {
        None
    } else {
        match first_refused(names.drop_last()) {
            Some(name) => Some(name),
            None => if pattern_compiles(names.last()) {
                None
            } else {
                Some(names.last())
            },
        }
    }
}

/// The kind that a letter stands for: `d`, `f` or `l`.
pub open spec fn entry_type_of(code: Seq<char>) -> Option<EntryType> {
    if code == seq!['d'] {
        Some(EntryType::Dir)
    } else if code == seq!['f'] {
        Some(EntryType::File)
    } else if code == seq!['l'] {
        Some(EntryType::Link)
    } else {
        None
    }
}

/// The kinds that a sequence of letters stands for, in order; what stands
/// for no kind is left out.
pub open spec fn entry_types_of(codes: Seq<Seq<char>>) -> Seq<EntryType>
    decreases codes.len(),
{
    if codes.len() == 0 {
        Seq::<EntryType>::empty()
    } else {
        let before = entry_types_of(codes.drop_last());
        match entry_type_of(codes.last()) {
            Some(kind) => before.push(kind),
            None => before,
        }
    }
}

/// The sentence that refuses a name.
pub open spec fn refusal(name: Seq<char>) -> Seq<char> {
    "Invalid --name \""@ + name + "\""@
}

/// The settings that directories, names and kinds settle on: the first
/// name that the engine refuses is reported; no names at all stand for any
/// name, and no kinds given stand for any kind.
pub open spec fn settled(
    dirs: Seq<Seq<char>>,
    names: Seq<Seq<char>>,
    codes: Option<Seq<Seq<char>>>,
) -> Result<Settings, Seq<char>> {
    match first_refused(names) {
        Some(name) => Err(refusal(name)),
        None => Ok(
            Settings {
                dirs,
                names: if names.len() == 0 {
                    None
                } else {
                    Some(names)
                },
                entry_types: match codes {
                    Some(given) => Some(entry_types_of(given)),
                    None => None,
                },
            },
        ),
    }
}

/// The characters of each text of an optional sequence.
pub open spec fn codes_view(codes: Option<Vec<String>>) -> Option<Seq<Seq<char>>> {
    match codes {
        Some(given) => Some(text_views(given@)),
        None => None,
    }
}

/// Where no name is refused, the engine accepts them all.
pub proof fn lemma_none_refused(names: Seq<Seq<char>>)
    requires
        first_refused(names) is None,
    ensures
        all_compile(names),
    decreases names.len(),
{
    if names.len() > 0 {
        lemma_none_refused(names.drop_last());
        assert forall|i: int| 0 <= i < names.len() implies pattern_compiles(
            #[trigger] names[i],
        ) by {
            if i < names.len() - 1 {
                assert(names.drop_last()[i] == names[i]);
            }
        }
    }
}

/// Reads the letter of a kind.
pub fn read_entry_type(code: &str) -> (kind: Option<EntryType>)
    ensures
        kind == entry_type_of(code@),
{
    let chars = chars_of(code);
    if chars.len() != 1 {
        return None;
    }
    let c = chars[0];
    assert(code@ =~= seq![c]);
    if c == 'd' {
        Some(EntryType::Dir)
    } else if c == 'f' {
        Some(EntryType::File)
    } else if c == 'l' {
        Some(EntryType::Link)
    } else {
        assert(seq![c][0] == c);
        None
    }
}

/// Reads the letters of the kinds, leaving out what stands for none.
pub fn read_entry_types(codes: &[String]) -> (kinds: Vec<EntryType>)
    ensures
        kinds@ == entry_types_of(text_views(codes@)),
{
    let mut kinds: Vec<EntryType> = Vec::new();
    let ghost all = text_views(codes@);
    let mut i: usize = 0;
    while i < codes.len()
        invariant
            i <= codes.len(),
            all == text_views(codes@),
            kinds@ == entry_types_of(all.take(i as int)),
        decreases codes.len() - i,
    {
        proof {
            assert(all.take(i + 1).drop_last() =~= all.take(i as int));
            assert(all.take(i + 1).last() == codes@[i as int]@);
        }
        match read_entry_type(codes[i].as_str()) {
            Some(kind) => {
                kinds.push(kind);
            },
            None => {},
        }
        i += 1;
    }
    assert(all.take(codes.len() as int) =~= all);
    kinds
}

/// True if the entry is of the given kind.
pub open spec fn has_type(entry: Entry, kind: EntryType) -> bool {
    match kind {
        EntryType::Link => entry.is_link,
        EntryType::Dir => entry.is_dir,
        EntryType::File => entry.is_file,
    }
}

/// True if the entry is of one of the kinds asked for, or no kinds were
/// given.
pub open spec fn type_selected(kinds: Option<Seq<EntryType>>, entry: Entry) -> bool {
    kinds is None || exists|i: int|
        0 <= i < kinds->0.len() && has_type(entry, #[trigger] kinds->0[i])
}

/// True if one of the patterns asked for matches somewhere in the name, or
/// no patterns were given.
pub open spec fn name_selected(names: Option<Seq<Seq<char>>>, name: Seq<char>) -> bool {
    names is None || exists|i: int|
        0 <= i < names->0.len() && pattern_matches(#[trigger] names->0[i], name)
}

impl Config {
    #[verifier::type_invariant]
    spec fn names_compile(self) -> bool {
        match self.names {
            Some(names) => all_compile(text_views(names@)),
            None => true,
        }
    }

    /// Builds the settings from what was given on the command line: the
    /// directories, the patterns for names, and the letters for kinds.
    pub fn new(dirs: Vec<String>, names: Vec<String>, codes: Option<Vec<String>>) -> (res: Result<
        Config,
        String,
    >)
        ensures
            match settled(text_views(dirs@), text_views(names@), codes_view(codes)) {
                Ok(settings) => res matches Ok(config) && config@ == settings,
                Err(message) => res matches Err(e) && e@ == message,
            },
    {
        let ghost all = text_views(names@);
        let mut i: usize = 0;
        while i < names.len()
            invariant
                i <= names.len(),
                all == text_views(names@),
                first_refused(all.take(i as int)) is None,
            decreases names.len() - i,
        {
            proof {
                assert(all.take(i + 1).drop_last() =~= all.take(i as int));
                assert(all.take(i + 1).last() == names@[i as int]@);
            }
            if !pattern_accepted(names[i].as_str()) {
                let mut message = "Invalid --name \"".to_owned();
                message.append(names[i].as_str());
                message.append("\"");
                proof {
                    lemma_refused_stays(all, i + 1);
                }
                return Err(message);
            }
            i += 1;
        }
        proof {
            assert(all.take(names.len() as int) =~= all);
            lemma_none_refused(all);
        }
        let entry_types = match codes {
            Some(given) => Some(read_entry_types(given.as_slice())),
            None => None,
        };
        let names = if names.len() == 0 {
            None
        } else {
            Some(names)
        };
        Ok(Config { dirs, names, entry_types })
    }

    /// The directories to search.
    pub fn dirs(&self) -> (dirs: &Vec<String>)
        ensures
            text_views(dirs@) == self@.dirs,
    {
        &self.dirs
    }

    /// Tells whether the entry is of one of the kinds asked for.
    pub fn type_matches(&self, entry: &Entry) -> (yes: bool)
        ensures
            yes == type_selected(self@.entry_types, *entry),
    {
        match &self.entry_types {
            None => true,
            Some(kinds) => {
                let mut i: usize = 0;
                while i < kinds.len()
                    invariant
                        i <= kinds.len(),
                        self@.entry_types == Some(kinds@),
                        forall|k: int| 0 <= k < i ==> !has_type(*entry, #[trigger] kinds@[k]),
                    decreases kinds.len() - i,
                {
                    let found = match kinds[i] {
                        EntryType::Link => entry.is_link,
                        EntryType::Dir => entry.is_dir,
                        EntryType::File => entry.is_file,
                    };
                    if found {
                        assert(has_type(*entry, self@.entry_types->0[i as int]));
                        return true;
                    }
                    i += 1;
                }
                false
            },
        }
    }

    /// Tells whether one of the patterns asked for matches the name.
    pub fn name_matches(&self, name: &str) -> (yes: bool)
        ensures
            yes == name_selected(self@.names, name@),
    {
        proof {
            use_type_invariant(self);
        }
        match &self.names {
            None => true,
            Some(names) => {
                let ghost all = text_views(names@);
                let mut i: usize = 0;
                while i < names.len()
                    invariant
                        i <= names.len(),
                        all == text_views(names@),
                        self@.names == Some(all),
                        all_compile(all),
                        forall|k: int| 0 <= k < i ==> !pattern_matches(#[trigger] all[k], name@),
                    decreases names.len() - i,
                {
                    assert(all[i as int] == names@[i as int]@);
                    if matches_anywhere(names[i].as_str(), name) {
                        assert(pattern_matches(self@.names->0[i as int], name@));
                        return true;
                    }
                    i += 1;
                }
                false
            },
        }
    }

    /// Tells whether the entry is to be listed: it is of a kind asked for
    /// and has a name asked for.
    pub fn selects(&self, entry: &Entry) -> (yes: bool)
        ensures
            yes == (type_selected(self@.entry_types, *entry) && name_selected(
                self@.names,
                entry.name@,
            )),
    {
        self.type_matches(entry) && self.name_matches(entry.name.as_str())
    }
}

/// Once a name is refused, the names after it change nothing.
pub proof fn lemma_refused_stays(names: Seq<Seq<char>>, k: int)
    requires
        1 <= k <= names.len(),
        first_refused(names.take(k - 1)) is None,
        !pattern_compiles(names[k - 1]),
    ensures
        first_refused(names) == Some(names[k - 1]),
    decreases names.len() - k,
{
    if k == names.len() {
        assert(names.drop_last() =~= names.take(k - 1));
    } else {
        assert(names.drop_last().take(k - 1) =~= names.take(k - 1));
        lemma_refused_stays(names.drop_last(), k);
    }
}

} // verus!
