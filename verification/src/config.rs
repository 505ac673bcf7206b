//! What a configuration file says of one component.

use crate::strmap::StrMap;
use vstd::prelude::*;

verus! {

/// A value of the configuration, as far as components read it.
#[derive(Debug)]
pub enum ConfigValue {
    Text(String),
    Integer(i64),
    Boolean(bool),
    Other,
}

/// The configuration of one component: its class, and whatever else was
/// written for it, by key.
#[derive(Debug)]
pub struct ComponentConfig<T> {
    pub class: T,
    pub extra: StrMap<ConfigValue>,
}

/// The text of a configuration value, if it is text.
pub open spec fn config_text(v: ConfigValue) -> Option<Seq<char>> {
    match v {
        ConfigValue::Text(s) => Some(s@),
        _ => None,
    }
}

impl<T> ComponentConfig<T> {
    /// The extra values are a well-formed map.
    pub open spec fn wf(&self) -> bool {
        self.extra.wf()
    }

    /// The text written under `key`, where `key` is there and holds text.
    pub open spec fn text_at(&self, key: Seq<char>) -> Option<Seq<char>> {
        if self.extra@.contains_key(key) {
            config_text(self.extra@[key])
        } else {
            None
        }
    }

    /// Reads the text written under `key`.
    pub fn text(&self, key: &str) -> (t: Option<&String>)
        requires
            self.wf(),
        ensures
            match t {
                Some(s) => self.text_at(key@) == Some(s@),
                None => self.text_at(key@).is_none(),
            },
    {
        match self.extra.get(key) {
            Some(ConfigValue::Text(s)) => Some(s),
            _ => None,
        }
    }

    /// Reads the text written under `key`, or `fallback` where there is none.
    pub fn text_or(&self, key: &str, fallback: &str) -> (t: String)
        requires
            self.wf(),
        ensures
            t@ == match self.text_at(key@) {
                Some(s) => s,
                None => fallback@,
            },
    {
        match self.text(key) {
            Some(s) => s.clone(),
            None => String::from_str(fallback),
        }
    }
}

} // verus!
