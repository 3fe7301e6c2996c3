//! Topic aliases chosen by this side, for outgoing PUBLISH packets.
//!
//! One topic may be bound to several aliases. The table remembers which alias was
//! used least recently, so that an alias can be recycled when all are taken.
use crate::mqtt::common::alias_map::{
    alias_entries, as_map, first_key_of, index_map_clear, index_map_first_key, index_map_get,
    index_map_insert, index_map_new, index_map_shift_remove, lemma_as_map_index, lemma_first_key_of,
    lemma_push_new_key,
    lemma_without_key, unique_keys, without_key,
};
use crate::mqtt::common::ValueAllocator;
use crate::mqtt::packet::topic_alias_recv::MIN_ALIAS;
use indexmap::IndexMap;
use vstd::prelude::*;

verus! {

/// The `(alias, topic)` pairs of `v`, with topics as characters.
pub open spec fn binding_view(v: Seq<(u16, String)>) -> Seq<(u16, Seq<char>)> {
    v.map_values(|p: (u16, String)| (p.0, p.1@))
}

/// Removes the pair whose alias is `alias` from `v`, keeping the order of the others.
fn remove_binding(v: &mut Vec<(u16, String)>, alias: u16)
    requires
        unique_keys(binding_view(old(v)@)),
    ensures
        binding_view(final(v)@) == without_key(binding_view(old(v)@), alias),
{
    let ghost s = binding_view(v@);
    let mut i: usize = 0;
    while i < v.len()
        invariant
            0 <= i <= v@.len(),
            v@.len() == s.len(),
            s == binding_view(v@),
            s == binding_view(old(v)@),
            unique_keys(s),
            forall|j: int| 0 <= j < i ==> #[trigger] s[j].0 != alias,
        decreases v@.len() - i,
    {
        if v[i].0 == alias {
            let ghost before = v@;
            v.remove(i);
            proof {
                lemma_without_key(s, alias);
                assert(v@ == before.remove(i as int));
                assert(s[i as int].0 == alias);
                assert(binding_view(v@) =~= s.remove(i as int));
            }
            return;
        }
        i = i + 1;
    }
    proof {
        lemma_without_key(s, alias);
        lemma_as_map_index(s, alias);
        assert(!as_map(s).dom().contains(alias));
    }
}

/// Maps aliases in `[1, max]` to topic names for outgoing packets.
pub struct TopicAliasSend {
    max_alias: u16,
    alias_to_topic: IndexMap<u16, String>,
    topic_to_aliases: Vec<(u16, String)>,
    value_allocator: ValueAllocator<u16>,
}

impl TopicAliasSend {
    /// The `(alias, topic)` pairs, from the least to the most recently used alias.
    pub closed spec fn entries(&self) -> Seq<(u16, Seq<char>)> {
        alias_entries(self.alias_to_topic)
    }

    /// The `(alias, topic)` pairs, in the order the aliases were bound.
    pub closed spec fn bindings(&self) -> Seq<(u16, Seq<char>)> {
        binding_view(self.topic_to_aliases@)
    }

    /// The alias to topic mapping.
    pub open spec fn topics(&self) -> Map<u16, Seq<char>> {
        as_map(self.entries())
    }

    /// The largest valid alias.
    pub closed spec fn spec_max(&self) -> u16 {
        self.max_alias
    }

    /// Every alias of `[1, max]` is bound.
    pub open spec fn all_aliases_used(&self) -> bool {
        forall|a: u16| MIN_ALIAS <= a <= self.spec_max() ==> #[trigger] self.topics().contains_key(a)
    }

    /// The table's internal invariant.
    pub closed spec fn wf(&self) -> bool {
        &&& self.max_alias >= MIN_ALIAS
        &&& self.value_allocator.wf()
        &&& self.value_allocator.lowest_value() == MIN_ALIAS
        &&& self.value_allocator.highest_value() == self.max_alias
        &&& unique_keys(self.entries())
        &&& unique_keys(self.bindings())
        &&& as_map(self.bindings()) == self.topics()
        &&& forall|a: u16| #[trigger]
            self.topics().contains_key(a) ==> MIN_ALIAS <= a <= self.max_alias
        &&& forall|a: u16|
            #![trigger self.value_allocator.vacant().contains(a as int)]
            #![trigger self.topics().contains_key(a)]
            self.value_allocator.vacant().contains(a as int) <==> (MIN_ALIAS <= a <= self.max_alias
                && !self.topics().contains_key(a))
    }

    /// The alias `find_by_topic` gives is bound to the topic, and it gives one
    /// exactly when some alias is bound to the topic.
    pub proof fn lemma_find_by_topic(&self, topic: Seq<char>)
        requires
            self.wf(),
        ensures
            first_key_of(self.bindings(), topic) is Some <==> exists|a: u16|
                self.topics().contains_key(a) && #[trigger] self.topics()[a] == topic,
            first_key_of(self.bindings(), topic) matches Some(a) ==> self.topics().contains_key(a)
                && self.topics()[a] == topic,
    {
        let b = self.bindings();
        lemma_first_key_of(b, topic);
        match first_key_of(b, topic) {
            Some(a) => {
                let i = choose|i: int| 0 <= i < b.len() && #[trigger] b[i] == (a, topic);
                lemma_as_map_index(b, a);
                assert(b[i].0 == a);
            },
            None => {
                if exists|a: u16| self.topics().contains_key(a) && #[trigger] self.topics()[a] == topic {
                    let a = choose|a: u16|
                        self.topics().contains_key(a) && #[trigger] self.topics()[a] == topic;
                    lemma_as_map_index(b, a);
                    let i = choose|i: int| 0 <= i < b.len() && #[trigger] b[i].0 == a;
                    assert(b[i].1 == topic);
                }
            },
        }
    }

    /// An empty table accepting aliases up to `max_alias`.
    pub fn new(max_alias: u16) -> (r: Self)
        requires
            max_alias >= MIN_ALIAS,
        ensures
            r.wf(),
            r.entries() == Seq::<(u16, Seq<char>)>::empty(),
            r.bindings() == Seq::<(u16, Seq<char>)>::empty(),
            r.spec_max() == max_alias,
    {
        let r = Self {
            max_alias,
            alias_to_topic: index_map_new(),
            topic_to_aliases: Vec::new(),
            value_allocator: ValueAllocator::new(MIN_ALIAS, max_alias),
        };
        proof {
            assert(r.bindings() =~= Seq::<(u16, Seq<char>)>::empty());
            assert(r.topics() == Map::<u16, Seq<char>>::empty());
            assert(as_map(r.bindings()) == Map::<u16, Seq<char>>::empty());
        }
        r
    }

    /// Binds `alias` to `topic`; an alias bound before is unbound from its old topic
    /// first. The alias becomes the most recently used one.
    pub fn insert_or_update(&mut self, topic: &str, alias: u16)
        requires
            old(self).wf(),
            topic@.len() > 0,
            MIN_ALIAS <= alias <= old(self).spec_max(),
        ensures
            final(self).wf(),
            final(self).spec_max() == old(self).spec_max(),
            final(self).entries() == without_key(old(self).entries(), alias).push((alias, topic@)),
            final(self).bindings() == without_key(old(self).bindings(), alias).push((alias, topic@)),
            final(self).topics() == old(self).topics().insert(alias, topic@),
    {
        let ghost e0 = self.entries();
        let ghost b0 = self.bindings();
        proof {
            lemma_without_key(e0, alias);
            lemma_without_key(b0, alias);
            lemma_as_map_index(e0, alias);
        }
        let is_new_alias = self.value_allocator.use_value(alias);
        if !is_new_alias {
            let _ = index_map_shift_remove(&mut self.alias_to_topic, alias);
            remove_binding(&mut self.topic_to_aliases, alias);
        } else {
            proof {
                assert(!self.topics().contains_key(alias));
                assert(!as_map(b0).dom().contains(alias));
                assert(without_key(b0, alias) == b0);
            }
        }
        let ghost e1 = self.entries();
        proof {
            assert(e1 == without_key(e0, alias));
            assert(self.bindings() == without_key(b0, alias));
        }
        let _ = index_map_insert(&mut self.alias_to_topic, alias, topic.to_owned());
        self.topic_to_aliases.push((alias, topic.to_owned()));
        proof {
            let b1 = without_key(b0, alias);
            assert(self.bindings() =~= b1.push((alias, topic@)));
            assert(self.entries() == e1.push((alias, topic@)));
            lemma_push_new_key(e1, alias, topic@);
            lemma_push_new_key(b1, alias, topic@);
            assert(old(self).topics().remove(alias).insert(alias, topic@) =~= old(self).topics().insert(
                alias,
                topic@,
            ));
            assert(as_map(b0).remove(alias).insert(alias, topic@) =~= as_map(b0).insert(
                alias,
                topic@,
            ));
        }
    }

    /// The topic `alias` is bound to, which becomes the most recently used alias;
    /// `None` when it is unbound or out of range.
    pub fn get(&mut self, alias: u16) -> (r: Option<&str>)
        requires
            old(self).wf(),
        ensures
            final(self).wf(),
            final(self).spec_max() == old(self).spec_max(),
            final(self).bindings() == old(self).bindings(),
            final(self).topics() == old(self).topics(),
            match r {
                Some(t) => {
                    &&& MIN_ALIAS <= alias <= old(self).spec_max()
                    &&& old(self).topics().contains_key(alias)
                    &&& t@ == old(self).topics()[alias]
                    &&& final(self).entries() == without_key(old(self).entries(), alias).push(
                        (alias, t@),
                    )
                },
                None => {
                    &&& !(MIN_ALIAS <= alias <= old(self).spec_max() && old(
                        self,
                    ).topics().contains_key(alias))
                    &&& final(self).entries() == old(self).entries()
                },
            },
    {
        let ghost e0 = self.entries();
        proof {
            lemma_without_key(e0, alias);
            lemma_as_map_index(e0, alias);
        }
        if alias >= MIN_ALIAS && alias <= self.max_alias {
            let found = match index_map_get(&self.alias_to_topic, alias) {
                Some(t) => Some(t.clone()),
                None => None,
            };
            match found {
                Some(topic) => {
                    let ghost tv = topic@;
                    let _ = index_map_shift_remove(&mut self.alias_to_topic, alias);
                    let ghost e1 = self.entries();
                    proof {
                        assert(e1 == without_key(e0, alias));
                    }
                    let _ = index_map_insert(&mut self.alias_to_topic, alias, topic);
                    proof {
                        assert(self.entries() == e1.push((alias, tv)));
                        lemma_push_new_key(e1, alias, tv);
                        assert(old(self).topics().remove(alias).insert(alias, tv) =~= old(
                            self,
                        ).topics());
                    }
                    let ghost e2 = self.entries();
                    match index_map_get(&self.alias_to_topic, alias) {
                        Some(t) => {
                            proof {
                                let i = choose|i: int|
                                    0 <= i < e2.len() && #[trigger] e2[i].0 == alias && t@
                                        == e2[i].1;
                                if i != e2.len() - 1 {
                                    assert(e2[i].0 != e2[e2.len() - 1].0);
                                }
                            }
                            Some(t.as_str())
                        },
                        None => {
                            proof {
                                assert(e2[e2.len() - 1].0 == alias);
                            }
                            None
                        },
                    }
                },
                None => None,
            }
        } else {
            None
        }
    }

    /// The topic `alias` is bound to, without touching the usage order; `None` when
    /// it is unbound or out of range.
    pub fn peek(&self, alias: u16) -> (r: Option<&str>)
        requires
            self.wf(),
        ensures
            match r {
                Some(t) => MIN_ALIAS <= alias <= self.spec_max() && self.topics().contains_key(alias)
                    && t@ == self.topics()[alias],
                None => !(MIN_ALIAS <= alias <= self.spec_max() && self.topics().contains_key(alias)),
            },
    {
        proof {
            lemma_as_map_index(self.entries(), alias);
        }
        if alias >= MIN_ALIAS && alias <= self.max_alias {
            match index_map_get(&self.alias_to_topic, alias) {
                Some(t) => Some(t.as_str()),
                None => None,
            }
        } else {
            None
        }
    }

    /// The alias bound to `topic` earliest among those still bound to it.
    pub fn find_by_topic(&self, topic: &str) -> (r: Option<u16>)
        requires
            self.wf(),
        ensures
            r == first_key_of(self.bindings(), topic@),
    {
        let ghost s = self.bindings();
        let wanted = topic.to_owned();
        let mut i: usize = 0;
        assert(s.subrange(0, s.len() as int) =~= s);
        while i < self.topic_to_aliases.len()
            invariant
                0 <= i <= s.len(),
                s.len() == self.topic_to_aliases@.len(),
                s == binding_view(self.topic_to_aliases@),
                wanted@ == topic@,
                first_key_of(s, topic@) == first_key_of(s.subrange(i as int, s.len() as int), topic@),
            decreases s.len() - i,
        {
            let ghost rest = s.subrange(i as int, s.len() as int);
            assert(rest.drop_first() =~= s.subrange(i + 1, s.len() as int));
            assert(rest[0] == s[i as int]);
            if self.topic_to_aliases[i].1 == wanted {
                return Some(self.topic_to_aliases[i].0);
            }
            i = i + 1;
        }
        None
    }

    /// Unbinds every alias.
    pub fn clear(&mut self)
        requires
            old(self).wf(),
        ensures
            final(self).wf(),
            final(self).spec_max() == old(self).spec_max(),
            final(self).entries() == Seq::<(u16, Seq<char>)>::empty(),
            final(self).bindings() == Seq::<(u16, Seq<char>)>::empty(),
    {
        index_map_clear(&mut self.alias_to_topic);
        self.topic_to_aliases.clear();
        self.value_allocator.clear();
        proof {
            assert(self.bindings() =~= Seq::<(u16, Seq<char>)>::empty());
            assert(self.topics() == Map::<u16, Seq<char>>::empty());
            assert(as_map(self.bindings()) == Map::<u16, Seq<char>>::empty());
        }
    }

    /// The alias to use next for a new topic: the smallest unbound alias, or, when
    /// every alias is bound, the least recently used one.
    pub fn get_lru_alias(&self) -> (r: u16)
        requires
            self.wf(),
        ensures
            !self.all_aliases_used() ==> {
                &&& MIN_ALIAS <= r <= self.spec_max()
                &&& !self.topics().contains_key(r)
                &&& forall|a: u16| MIN_ALIAS <= a < r ==> #[trigger] self.topics().contains_key(a)
            },
            self.all_aliases_used() ==> self.entries().len() > 0 && r == self.entries()[0].0,
    {
        match self.value_allocator.first_vacant() {
            Some(alias) => {
                proof {
                    assert(self.value_allocator.vacant().contains(alias as int));
                    assert forall|a: u16| MIN_ALIAS <= a < alias implies #[trigger] self.topics().contains_key(
                        a,
                    ) by {
                        if !self.topics().contains_key(a) {
                            assert(self.value_allocator.vacant().contains(a as int));
                        }
                    }
                }
                alias
            },
            None => {
                proof {
                    assert forall|a: u16| MIN_ALIAS <= a <= self.spec_max() implies #[trigger] self.topics().contains_key(
                        a,
                    ) by {
                        if !self.topics().contains_key(a) {
                            assert(self.value_allocator.vacant().contains(a as int));
                        }
                    }
                    assert(self.topics().contains_key(MIN_ALIAS));
                    if self.entries().len() == 0 {
                        assert(self.topics() == Map::<u16, Seq<char>>::empty());
                    }
                }
                match index_map_first_key(&self.alias_to_topic) {
                    Some(a) => a,
                    None => MIN_ALIAS,
                }
            },
        }
    }

    /// The largest valid alias.
    pub fn max(&self) -> (r: u16)
        ensures
            r == self.spec_max(),
    {
        self.max_alias
    }
}

} // verus!
