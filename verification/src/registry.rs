//! The identifier-interning registry.
//!
//! A Single id is a 63-bit hash of its source text, so two distinct texts
//! can in principle collide. The registry records, per id word, the text it
//! was interned from; a later interning of a different text under the same
//! word is a detectable collision, never silently resolved. The registry is
//! an explicit, owned value handed to the codec by its caller.

use vstd::prelude::*;
use vstd::string::StringSliceAdditionalSpecFns;
use std::collections::HashMap;
use crate::id::{Id, id_from_bytes, single_word};

verus! {

/// Maps each interned Single id word to the source text it stands for.
pub struct IdMap {
    id_to_string: HashMap<u64, String>,
}

/// The collision check's verdict over a registry model: the text already
/// registered for `id`, when it differs from `val`; `None` otherwise.
pub open spec fn spec_collision(reg: Map<u64, Seq<char>>, id: Id, val: Seq<char>) -> Option<
    Seq<char>,
> {
    if single_word(id.0) && reg.contains_key(id.0) && reg[id.0] != val {
        Option::Some(reg[id.0])
    } else {
        Option::None
    }
}

/// The registry model after a collision check: interning `val` under `id`
/// when the word was free, leaving the registry unchanged otherwise.
pub open spec fn spec_collision_update(reg: Map<u64, Seq<char>>, id: Id, val: Seq<char>) -> Map<
    u64,
    Seq<char>,
> {
    if single_word(id.0) && !reg.contains_key(id.0) {
        reg.insert(id.0, val)
    } else {
        reg
    }
}

impl IdMap {
    /// The registry as a map from id words to interned texts.
    pub closed spec fn view(&self) -> Map<u64, Seq<char>> {
        self.id_to_string@.map_values(|s: String| s@)
    }

    /// Creates an empty registry.
    pub fn new() -> (r: IdMap)
        ensures
            r@ == Map::<u64, Seq<char>>::empty(),
    {
        let r = IdMap { id_to_string: HashMap::new() };
        proof {
            assert(r@ =~= Map::<u64, Seq<char>>::empty());
        }
        r
    }

    /// Interns `val` under its hashed id, overwriting any earlier entry.
    pub fn add(&mut self, val: &str)
        ensures
            final(self)@ == old(self)@.insert(id_from_bytes(val.spec_bytes()).0, val@),
    {
        let id = Id::from_str(val);
        self.id_to_string.insert(id.0, val.to_owned());
        proof {
            assert(self@ =~= old(self)@.insert(id_from_bytes(val.spec_bytes()).0, val@));
        }
    }

    /// Reports whether the hashed id of `val` is already interned.
    pub fn contains(&mut self, val: &str) -> (r: bool)
        ensures
            r == old(self)@.contains_key(id_from_bytes(val.spec_bytes()).0),
            *final(self) == *old(self),
    {
        let id = Id::from_str(val);
        self.id_to_string.contains_key(&id.0)
    }

    /// Looks up the interned text of an id word, if any.
    pub fn interned_text(&self, id: Id) -> (r: Option<&String>)
        ensures
            match r {
                Option::Some(s) => self@.contains_key(id.0) && s@ == self@[id.0],
                Option::None => !self@.contains_key(id.0),
            },
    {
        self.id_to_string.get(&id.0)
    }
}

impl Id {
    /// Checks this id's interned text against `val`: reports the already
    /// registered text when it differs (a hash collision), and interns
    /// `val` when the Single word was still free. Ids that are not Single
    /// are never interned and never collide.
    pub fn check_collision(&self, registry: &mut IdMap, val: &str) -> (r: Option<String>)
        ensures
            final(registry)@ == spec_collision_update(old(registry)@, *self, val@),
            match r {
                Option::Some(s) => spec_collision(old(registry)@, *self, val@) == Option::Some(
                    s@,
                ),
                Option::None => spec_collision(old(registry)@, *self, val@) is None,
            },
    {
        if self.is_single() {
            match registry.interned_text(*self) {
                Option::Some(stored) => {
                    let stored_copy = stored.clone();
                    let val_owned = val.to_owned();
                    if !stored_copy.eq(&val_owned) {
                        return Option::Some(stored_copy);
                    }
                    Option::None
                },
                Option::None => {
                    let val_owned = val.to_owned();
                    self.intern_raw(registry, val_owned);
                    Option::None
                },
            }
        } else {
            Option::None
        }
    }

    /// Like `check_collision`, but a detected collision is excluded by
    /// contract instead of reported: the id passes through unchanged.
    pub fn panic_collision(self, registry: &mut IdMap, val: &str) -> (r: Id)
        requires
            spec_collision(old(registry)@, self, val@) is None,
        ensures
            r == self,
            final(registry)@ == spec_collision_update(old(registry)@, self, val@),
    {
        let collision = self.check_collision(registry, val);
        proof {
            assert(collision is None);
        }
        self
    }

    /// Stores `val` for this id word in the registry's backing table.
    fn intern_raw(&self, registry: &mut IdMap, val: String)
        ensures
            final(registry)@ == old(registry)@.insert(self.0, val@),
    {
        registry.id_to_string.insert(self.0, val);
        proof {
            assert(registry@ =~= old(registry)@.insert(self.0, val@));
        }
    }
}

/// Interning a text always yields a Single id; once interned, the registry
/// reports that text for the id, and re-checking the same text under the
/// same id never reports a collision.
pub proof fn lemma_intern_reports_text_and_never_collides(
    reg: Map<u64, Seq<char>>,
    bytes: Seq<u8>,
    text: Seq<char>,
)
    ensures
        single_word(id_from_bytes(bytes).0),
        reg.insert(id_from_bytes(bytes).0, text)[id_from_bytes(bytes).0] == text,
        spec_collision(reg.insert(id_from_bytes(bytes).0, text), id_from_bytes(bytes), text)
            is None,
        spec_collision_update(reg.insert(id_from_bytes(bytes).0, text), id_from_bytes(bytes), text)
            == reg.insert(id_from_bytes(bytes).0, text),
{
    crate::id::lemma_from_bytes_is_single(bytes);
}

} // verus!
