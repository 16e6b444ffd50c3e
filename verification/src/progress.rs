//! What the player follows, has done and owns.
use vstd::prelude::*;
use crate::text::{copy_texts, same, to_lowercase, trim};
use crate::text::{lowercased, texts, trimmed};

verus! {

/// The player's progress, kept outside the packs so that changing maps never loses it.
#[derive(Debug)]
pub struct PlayerProgress {
    pub tracked_tasks: Vec<String>,
    pub done: Vec<String>,
    pub owned_keys: Vec<String>,
    /// Whether the saved progress has been looked for.
    pub loaded: bool,
}

/// The form in which names of keys are compared: without white space around it, in lower case.
pub open spec fn key_form(s: Seq<char>) -> Seq<char> {
    lowercased(trimmed(s))
}

/// Whether a key of the given name is among `keys`.
pub open spec fn owned(keys: Seq<Seq<char>>, name: Seq<char>) -> bool {
    exists|i: int| 0 <= i < keys.len() && key_form(#[trigger] keys[i]) == key_form(name)
}

impl PlayerProgress {
    /// No list holds a text twice.
    pub open spec fn wf(self) -> bool {
        &&& texts(self.tracked_tasks@).no_duplicates()
        &&& texts(self.done@).no_duplicates()
        &&& texts(self.owned_keys@).no_duplicates()
    }

    /// Nothing done yet.
    pub fn new() -> (r: PlayerProgress)
        ensures
            r.wf(),
            r.tracked_tasks@.len() == 0,
            r.done@.len() == 0,
            r.owned_keys@.len() == 0,
            !r.loaded,
    {
        PlayerProgress {
            tracked_tasks: Vec::new(),
            done: Vec::new(),
            owned_keys: Vec::new(),
            loaded: false,
        }
    }

    /// Whether the player owns the key of the given name, white space around it and the case of its
    /// letters aside.
    pub fn owns_key(&self, name: &str) -> (r: bool)
        ensures
            r == owned(texts(self.owned_keys@), name@),
    {
        let needle = to_lowercase(trim(name).as_str());
        let n: usize = self.owned_keys.len();
        let mut i: usize = 0;
        while i < n
            invariant
                i <= n,
                n == self.owned_keys@.len(),
                needle@ == key_form(name@),
                forall|j: int|
                    0 <= j < i ==> key_form(#[trigger] texts(self.owned_keys@)[j]) != key_form(name@),
            decreases n - i,
        {
            let key = to_lowercase(trim(self.owned_keys[i].as_str()).as_str());
            proof {
                assert(texts(self.owned_keys@)[i as int] == self.owned_keys@[i as int]@);
            }
            if same(key.as_str(), needle.as_str()) {
                return true;
            }
            i = i + 1;
        }
        false
    }

    /// Take over the progress that was read at the start, or none. Returns the followed tasks that
    /// become the active ones; none where there was nothing to read, and then all stays but that the
    /// progress counts as loaded.
    pub fn load_progress(&mut self, saved: Option<PlayerProgress>) -> (active: Option<Vec<String>>)
        ensures
            final(self).loaded,
            match saved {
                Some(s) => final(self).tracked_tasks == s.tracked_tasks && final(self).done == s.done
                    && final(self).owned_keys == s.owned_keys && (active matches Some(a) && texts(a@)
                    == texts(s.tracked_tasks@)),
                None => final(self).tracked_tasks == old(self).tracked_tasks && final(self).done == old(self).done
                    && final(self).owned_keys == old(self).owned_keys && active is None,
            },
            old(self).wf() && (saved matches Some(s) ==> s.wf()) ==> final(self).wf() && (active matches Some(a)
                ==> texts(a@).no_duplicates()),
    {
        match saved {
            Some(s) => {
                let active = copy_texts(&s.tracked_tasks);
                self.tracked_tasks = s.tracked_tasks;
                self.done = s.done;
                self.owned_keys = s.owned_keys;
                self.loaded = true;
                Some(active)
            },
            None => {
                self.loaded = true;
                None
            },
        }
    }

    /// Whether the progress is to be saved: it has changed, and the saved one was looked for before,
    /// so that it is not overwritten unseen.
    pub fn save_progress(&self, changed: bool) -> (r: bool)
        ensures
            r == (self.loaded && changed),
    {
        self.loaded && changed
    }
}

/// Whether a key counts as owned depends on the form of its name alone.
pub proof fn ownership_ignores_case_and_space(keys: Seq<Seq<char>>, a: Seq<char>, b: Seq<char>)
    requires
        key_form(a) == key_form(b),
    ensures
        owned(keys, a) == owned(keys, b),
{
}

} // verus!
