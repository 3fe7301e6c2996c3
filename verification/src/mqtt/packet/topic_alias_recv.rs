//! Topic aliases announced by the peer, for incoming PUBLISH packets.
use std::collections::HashMap;
use vstd::prelude::*;

verus! {

broadcast use vstd::std_specs::hash::group_hash_axioms;

/// Topic alias values.
pub type TopicAliasType = u16;

/// The smallest valid topic alias.
pub const MIN_ALIAS: u16 = 1;

/// Maps topic aliases in `[1, max]` to topic names.
pub struct TopicAliasRecv {
    max_alias: u16,
    aliases: HashMap<u16, String>,
}

impl TopicAliasRecv {
    /// The alias to topic mapping.
    pub closed spec fn topics(&self) -> Map<u16, Seq<char>> {
        self.aliases@.map_values(|s: String| s@)
    }

    /// The largest valid alias.
    pub closed spec fn spec_max(&self) -> u16 {
        self.max_alias
    }

    /// An empty mapping accepting aliases up to `max_alias`.
    pub fn new(max_alias: u16) -> (r: Self)
        ensures
            r.topics() == Map::<u16, Seq<char>>::empty(),
            r.spec_max() == max_alias,
    {
        let r = Self { max_alias, aliases: HashMap::new() };
        proof {
            assert(r.topics() =~= Map::<u16, Seq<char>>::empty());
        }
        r
    }

    /// Maps `alias` to `topic`, replacing what it mapped to before.
    pub fn insert_or_update(&mut self, topic: &str, alias: u16)
        requires
            topic@.len() > 0,
            MIN_ALIAS <= alias <= old(self).spec_max(),
        ensures
            final(self).topics() == old(self).topics().insert(alias, topic@),
            final(self).spec_max() == old(self).spec_max(),
    {
        self.aliases.insert(alias, topic.to_owned());
        proof {
            assert(self.topics() =~= old(self).topics().insert(alias, topic@));
        }
    }

    /// The topic `alias` maps to; `None` when it maps to nothing or is out of range.
    pub fn get(&self, alias: u16) -> (r: Option<&str>)
        ensures
            match r {
                Some(t) => MIN_ALIAS <= alias <= self.spec_max() && self.topics().contains_key(alias)
                    && t@ == self.topics()[alias],
                None => !(MIN_ALIAS <= alias <= self.spec_max() && self.topics().contains_key(alias)),
            },
    {
        if alias >= MIN_ALIAS && alias <= self.max_alias {
            match self.aliases.get(&alias) {
                Some(s) => Some(s.as_str()),
                None => None,
            }
        } else {
            None
        }
    }

    /// Same as [`Self::get`].
    pub fn peek(&self, alias: u16) -> (r: Option<&str>)
        ensures
            match r {
                Some(t) => MIN_ALIAS <= alias <= self.spec_max() && self.topics().contains_key(alias)
                    && t@ == self.topics()[alias],
                None => !(MIN_ALIAS <= alias <= self.spec_max() && self.topics().contains_key(alias)),
            },
    {
        self.get(alias)
    }

    /// Removes every mapping.
    pub fn clear(&mut self)
        ensures
            final(self).topics() == Map::<u16, Seq<char>>::empty(),
            final(self).spec_max() == old(self).spec_max(),
    {
        self.aliases.clear();
        proof {
            assert(self.topics() =~= Map::<u16, Seq<char>>::empty());
        }
    }

    /// The largest valid alias.
    pub fn max(&self) -> (r: u16)
        ensures
            r == self.spec_max(),
    {
        self.max_alias
    }
}

} // verus!
