//! Reading the run configuration.
//!
//! A configuration arrives as one section of key/value text settings. The
//! section is modelled as an ordered list of pairs; lookup returns the
//! first binding of a key. Typed readers parse the bound text and report
//! the offending key when a setting is missing or malformed, and the
//! initial-condition selector is decoded into the model it names.

use vstd::prelude::*;

use crate::decimal::{parse_dec, parse_usize};

verus! {

/// One section of key/value settings, in file order.
pub struct Section {
    pairs: Vec<(String, String)>,
}

/// A configuration fault, fatal before any simulation work begins.
#[derive(Debug)]
pub enum ConfigError {
    /// The named setting is absent from the section.
    Missing(String),
    /// The named setting is present but its text does not parse.
    Invalid(String),
    /// The initial-condition selector names no known model.
    UnknownModel(usize),
}

/// The method of generation of the initial conditions.
#[derive(Debug)]
pub enum InitialState {
    Plummer,
    Uniform,
    Henon,
    Custom(String),
}

/// The first value bound to `key`, if any.
pub open spec fn lookup(entries: Seq<(Seq<char>, Seq<char>)>, key: Seq<char>) -> Option<Seq<char>>
    decreases entries.len(),
{
    if entries.len() == 0 {
        None
    } else if entries[0].0 == key {
        Some(entries[0].1)
    } else {
        lookup(entries.drop_first(), key)
    }
}

proof fn lemma_lookup_match(entries: Seq<(Seq<char>, Seq<char>)>, key: Seq<char>, i: int)
    requires
        0 <= i < entries.len(),
        forall|j: int| 0 <= j < i ==> (#[trigger] entries[j]).0 != key,
        entries[i].0 == key,
    ensures
        lookup(entries, key) == Some(entries[i].1),
    decreases i,
{
    if i > 0 {
        assert(entries[0].0 != key);
        assert(forall|j: int|
            0 <= j < i - 1 ==> (#[trigger] entries.drop_first()[j]) == entries[j + 1]);
        lemma_lookup_match(entries.drop_first(), key, i - 1);
    }
}

proof fn lemma_lookup_none(entries: Seq<(Seq<char>, Seq<char>)>, key: Seq<char>)
    requires
        forall|j: int| 0 <= j < entries.len() ==> (#[trigger] entries[j]).0 != key,
    ensures
        lookup(entries, key) is None,
    decreases entries.len(),
{
    if entries.len() > 0 {
        assert(forall|j: int|
            0 <= j < entries.len() - 1 ==> (#[trigger] entries.drop_first()[j]) == entries[j + 1]);
        lemma_lookup_none(entries.drop_first(), key);
    }
}

impl View for Section {
    type V = Seq<(Seq<char>, Seq<char>)>;

    closed spec fn view(&self) -> Seq<(Seq<char>, Seq<char>)> {
        self.pairs@.map_values(|p: (String, String)| (p.0@, p.1@))
    }
}

impl Section {
    /// An empty section.
    pub fn new() -> (s: Section)
        ensures
            s@ == Seq::<(Seq<char>, Seq<char>)>::empty(),
    {
        let s = Section { pairs: Vec::new() };
        proof {
            assert(s@ =~= Seq::<(Seq<char>, Seq<char>)>::empty());
        }
        s
    }

    /// Append a binding at the end of the section.
    pub fn push(&mut self, key: String, value: String)
        ensures
            final(self)@ == old(self)@.push((key@, value@)),
    {
        let ghost before = self@;
        let ghost k = key@;
        let ghost v = value@;
        self.pairs.push((key, value));
        proof {
            assert(self@ =~= before.push((k, v)));
        }
    }

    /// The raw text bound to `key`, if the section holds it.
    pub fn get(&self, key: &str) -> (r: Option<String>)
        ensures
            match r {
                Some(v) => lookup(self@, key@) == Some(v@),
                None => lookup(self@, key@) is None,
            },
    {
        let n = self.pairs.len();
        let mut i: usize = 0;
        while i < n
            invariant
                i <= n,
                n == self.pairs.len(),
                forall|j: int| 0 <= j < i ==> (#[trigger] self@[j]).0 != key@,
            decreases n - i,
        {
            if crate::text::str_eq(self.pairs[i].0.as_str(), key) {
                let v = self.pairs[i].1.clone();
                proof {
                    lemma_lookup_match(self@, key@, i as int);
                }
                return Some(v);
            }
            i = i + 1;
        }
        proof {
            lemma_lookup_none(self@, key@);
        }
        None
    }
}

/// Read a counting setting: the decimal value bound to `key`.
pub fn read(section: &Section, key: &str) -> (r: Result<usize, ConfigError>)
    ensures
        match lookup(section@, key@) {
            None => r matches Err(ConfigError::Missing(k)) && k@ == key@,
            Some(v) => match parse_dec(v) {
                Some(n) => r == Ok::<usize, ConfigError>(n),
                None => r matches Err(ConfigError::Invalid(k)) && k@ == key@,
            },
        },
{
    match section.get(key) {
        None => Err(ConfigError::Missing(key.to_owned())),
        Some(v) => match parse_usize(v.as_str()) {
            Some(n) => Ok(n),
            None => Err(ConfigError::Invalid(key.to_owned())),
        },
    }
}

/// Read a textual setting: the raw text bound to `key`.
pub fn read_str(section: &Section, key: &str) -> (r: Result<String, ConfigError>)
    ensures
        match lookup(section@, key@) {
            None => r matches Err(ConfigError::Missing(k)) && k@ == key@,
            Some(v) => r matches Ok(t) && t@ == v,
        },
{
    match section.get(key) {
        None => Err(ConfigError::Missing(key.to_owned())),
        Some(v) => Ok(v),
    }
}

/// Decode the `initial_state` selector: 0 is the Plummer model, 1 the
/// uniform sphere, 2 the Henon isochrone, and 3 a custom particle file
/// whose path the `custom_init_path` setting gives. Any other selector is
/// an unknown model.
pub fn read_initial_state(section: &Section) -> (r: Result<InitialState, ConfigError>)
    ensures
        match lookup(section@, "initial_state"@) {
            None => r matches Err(ConfigError::Missing(k)) && k@ == "initial_state"@,
            Some(v) => match parse_dec(v) {
                None => r matches Err(ConfigError::Invalid(k)) && k@ == "initial_state"@,
                Some(sel) => if sel == 0 {
                    r == Ok::<InitialState, ConfigError>(InitialState::Plummer)
                } else if sel == 1 {
                    r == Ok::<InitialState, ConfigError>(InitialState::Uniform)
                } else if sel == 2 {
                    r == Ok::<InitialState, ConfigError>(InitialState::Henon)
                } else if sel == 3 {
                    match lookup(section@, "custom_init_path"@) {
                        Some(p) => r matches Ok(InitialState::Custom(path)) && path@ == p,
                        None => r matches Err(ConfigError::Missing(k)) && k@
                            == "custom_init_path"@,
                    }
                } else {
                    r matches Err(ConfigError::UnknownModel(m)) && m == sel
                },
            },
        },
{
    let sel = match read(section, "initial_state") {
        Ok(n) => n,
        Err(e) => {
            return Err(e);
        },
    };
    if sel == 0 {
        Ok(InitialState::Plummer)
    } else if sel == 1 {
        Ok(InitialState::Uniform)
    } else if sel == 2 {
        Ok(InitialState::Henon)
    } else if sel == 3 {
        match read_str(section, "custom_init_path") {
            Ok(path) => Ok(InitialState::Custom(path)),
            Err(e) => Err(e),
        }
    } else {
        Err(ConfigError::UnknownModel(sel))
    }
}

} // verus!
