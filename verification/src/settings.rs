use std::collections::HashMap;
use vstd::prelude::*;

verus! {

broadcast use vstd::std_specs::hash::group_hash_axioms;

/// The configuration of a CC device: a map from configuration keys to the
/// byte value last set or reported for each.
#[derive(Debug)]
pub struct CCSettings {
    pub config_map: HashMap<u8, u8>,
}

impl View for CCSettings {
    type V = Map<u8, u8>;

    open spec fn view(&self) -> Map<u8, u8> {
        self.config_map@
    }
}

/// What a lookup of `config` in `m` gives.
pub open spec fn lookup(m: Map<u8, u8>, config: u8) -> Option<u8> {
    if m.contains_key(config) {
        Some(m[config])
    } else {
        None
    }
}

impl CCSettings {
    /// An empty configuration.
    pub fn new() -> (s: Self)
        ensures
            s@ == Map::<u8, u8>::empty(),
    {
        CCSettings { config_map: HashMap::new() }
    }

    /// Records `value` for `config`, replacing any earlier value.
    pub fn set(&mut self, config: u8, value: u8)
        ensures
            final(self)@ == old(self)@.insert(config, value),
    {
        self.config_map.insert(config, value);
    }

    /// The value recorded for `config`, if any.
    pub fn get(&self, config: &u8) -> (r: Option<u8>)
        ensures
            r == lookup(self@, *config),
    {
        match self.config_map.get(config) {
            Some(v) => Some(*v),
            None => None,
        }
    }

    /// The value recorded for `config`, read as a character (its code point).
    pub fn get_char(&self, config: &u8) -> (r: Option<char>)
        ensures
            r == (match lookup(self@, *config) {
                Some(v) => Some(v as char),
                None => None,
            }),
    {
        match self.get(config) {
            None => None,
            Some(val) => Some(val as char),
        }
    }

    /// The value recorded for `config`, read as a flag (any nonzero byte is set).
    pub fn get_bool(&self, config: &u8) -> (r: Option<bool>)
        ensures
            r == (match lookup(self@, *config) {
                Some(v) => Some(v != 0),
                None => None,
            }),
    {
        match self.get(config) {
            None => None,
            Some(val) => Some(val != 0),
        }
    }

    /// Whether the setting `config` is switched on, if it is known.
    pub fn enabled(&self, config: &u8) -> (r: Option<bool>)
        ensures
            r == (match lookup(self@, *config) {
                Some(v) => Some(v != 0),
                None => None,
            }),
    {
        self.get_bool(config)
    }
}

} // verus!
