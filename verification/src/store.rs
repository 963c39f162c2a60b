use vstd::prelude::*;
use crate::error::KokoroError;
use crate::lex::{lemma_lex_irreflexive, lemma_lex_total, lemma_lex_transitive, lex_lt, lex_rank, Rank};
use crate::text::{chars_of, string_of, views};
use crate::voices::Voice;
use vstd::string::StringExecFns;

verus! {

/// Whether each name comes before all that follow it: ascending order with
/// no name twice.
pub open spec fn strictly_sorted(names: Seq<Seq<char>>) -> bool {
    forall|i: int, j: int| 0 <= i < j < names.len() ==> lex_lt(#[trigger] names[i], #[trigger] names[j])
}

/// In a strictly sorted list a name stands at one place only.
pub proof fn lemma_sorted_distinct(names: Seq<Seq<char>>, i: int, j: int)
    requires
        strictly_sorted(names),
        0 <= i < names.len(),
        0 <= j < names.len(),
        names[i] == names[j],
    ensures
        i == j,
{
    lemma_lex_irreflexive(names[i]);
    if i < j {
        assert(lex_lt(names[i], names[j]));
    } else if j < i {
        assert(lex_lt(names[j], names[i]));
    }
}

struct Entry {
    name: Vec<char>,
    voice: Voice,
}

/// The voices that were loaded, each under its name. Names are
/// case-sensitive.
pub struct VoiceStore {
    entries: Vec<Entry>,
}

impl VoiceStore {
    #[verifier::type_invariant]
    spec fn ordered(self) -> bool {
        strictly_sorted(self.name_list())
    }

    /// The names of the voices, in the order in which the store holds them.
    pub closed spec fn name_list(&self) -> Seq<Seq<char>> {
        Seq::new(self.entries@.len(), |i: int| self.entries@[i].name@)
    }

    /// The values of the voices, in the order of `name_list`.
    pub closed spec fn value_list(&self) -> Seq<Seq<u32>> {
        Seq::new(self.entries@.len(), |i: int| self.entries@[i].voice.values())
    }

    /// The store as a map from each name to the values of its voice.
    pub open spec fn voices(&self) -> Map<Seq<char>, Seq<u32>> {
        Map::new(
            |n: Seq<char>| self.name_list().contains(n),
            |n: Seq<char>| self.value_list()[self.name_list().index_of(n)],
        )
    }

    /// A store without voices.
    pub fn new() -> (store: VoiceStore)
        ensures
            store.name_list().len() == 0,
            store.voices() == Map::<Seq<char>, Seq<u32>>::empty(),
    {
        let store = VoiceStore { entries: Vec::new() };
        proof {
            assert(store.voices() =~= Map::<Seq<char>, Seq<u32>>::empty());
        }
        store
    }

    /// How many voices the store holds.
    pub fn len(&self) -> (n: usize)
        ensures
            n == self.name_list().len(),
    {
        self.entries.len()
    }

    /// Where `key` stands or would stand in the order of names.
    fn locate(&self, key: &Vec<char>) -> (r: (usize, bool))
        ensures
            r.0 <= self.name_list().len(),
            forall|j: int| 0 <= j < r.0 ==> lex_lt(#[trigger] self.name_list()[j], key@),
            r.1 ==> r.0 < self.name_list().len() && self.name_list()[r.0 as int] == key@,
            !r.1 ==> forall|j: int|
                r.0 <= j < self.name_list().len() ==> lex_lt(key@, #[trigger] self.name_list()[j]),
            strictly_sorted(self.name_list()),
    {
        proof {
            use_type_invariant(self);
        }
        let mut p: usize = 0;
        while p < self.entries.len()
            invariant
                p <= self.entries.len(),
                self.entries.len() == self.name_list().len(),
                strictly_sorted(self.name_list()),
                forall|j: int| 0 <= j < p ==> lex_lt(#[trigger] self.name_list()[j], key@),
            decreases self.entries.len() - p,
        {
            let rank = lex_rank(&self.entries[p].name, key);
            proof {
                assert(self.name_list()[p as int] == self.entries@[p as int].name@);
            }
            match rank {
                Rank::Before => {},
                Rank::Same => {
                    return (p, true);
                },
                Rank::After => {
                    proof {
                        let names = self.name_list();
                        assert forall|j: int| p <= j < names.len() implies lex_lt(
                            key@,
                            #[trigger] names[j],
                        ) by {
                            if j > p {
                                assert(lex_lt(names[p as int], names[j]));
                                lemma_lex_transitive(key@, names[p as int], names[j]);
                            }
                        }
                    }
                    return (p, false);
                },
            }
            p += 1;
        }
        (p, false)
    }

    /// The voice of the given name.
    pub fn get(&self, name: &str) -> (r: Result<&Voice, KokoroError>)
        ensures
            match r {
                Ok(voice) => self.voices().dom().contains(name@) && voice.values()
                    == self.voices()[name@],
                Err(e) => !self.voices().dom().contains(name@) && (e matches KokoroError::UnknownVoice(
                    n,
                ) && n@ == name@),
            },
    {
        let key = chars_of(name);
        let (p, found) = self.locate(&key);
        let ghost names = self.name_list();
        if found {
            proof {
                assert(names.contains(key@));
                let k = names.index_of(key@);
                lemma_sorted_distinct(names, k, p as int);
            }
            Ok(&self.entries[p].voice)
        } else {
            proof {
                if names.contains(key@) {
                    let k = names.index_of(key@);
                    lemma_lex_irreflexive(key@);
                    assert(lex_lt(names[k], key@) || lex_lt(key@, names[k]));
                }
            }
            Err(KokoroError::UnknownVoice(String::from_str(name)))
        }
    }

    /// The names of all voices in lexicographic order.
    pub fn names(&self) -> (names: Vec<String>)
        ensures
            views(names@) == self.name_list(),
            strictly_sorted(views(names@)),
            forall|n: Seq<char>| views(names@).contains(n) <==> self.voices().dom().contains(n),
    {
        proof {
            use_type_invariant(self);
        }
        let mut names: Vec<String> = Vec::new();
        let mut i: usize = 0;
        while i < self.entries.len()
            invariant
                i <= self.entries.len(),
                self.entries.len() == self.name_list().len(),
                views(names@) == self.name_list().take(i as int),
            decreases self.entries.len() - i,
        {
            let name = &self.entries[i].name;
            let s = string_of(name, 0, name.len());
            proof {
                assert(name@.subrange(0, name.len() as int) =~= name@);
                assert(self.name_list()[i as int] == name@);
            }
            let ghost done = views(names@);
            names.push(s);
            proof {
                assert(views(names@) =~= done.push(s@));
                assert(self.name_list().take(i + 1) =~= self.name_list().take(i as int).push(
                    name@,
                ));
            }
            i += 1;
        }
        proof {
            assert(self.name_list().take(i as int) =~= self.name_list());
        }
        names
    }

    /// Puts `voice` into the store under `name`. A voice that was there
    /// under the same name is replaced.
    pub fn insert(&mut self, name: &str, voice: Voice)
        ensures
            final(self).voices() == old(self).voices().insert(name@, voice.values()),
    {
        let key = chars_of(name);
        let (p, found) = self.locate(&key);
        let ghost before = *self;
        let ghost names0 = self.name_list();
        let ghost vals0 = self.value_list();
        let entry = Entry { name: key, voice };
        let mut entries: Vec<Entry> = Vec::new();
        std::mem::swap(&mut self.entries, &mut entries);
        if found {
            entries.set(p, entry);
            proof {
                let names = Seq::new(entries@.len(), |i: int| entries@[i].name@);
                assert(names =~= names0);
            }
            self.entries = entries;
            proof {
                let names1 = self.name_list();
                let vals1 = self.value_list();
                assert(names1 =~= names0);
                assert(vals1 =~= vals0.update(p as int, voice.values()));
                assert forall|n: Seq<char>| names1.contains(n) implies #[trigger] self.voices()[n]
                    == before.voices().insert(name@, voice.values())[n] by {
                    let k = names1.index_of(n);
                    if n == name@ {
                        lemma_sorted_distinct(names1, k, p as int);
                    } else {
                        assert(k != p);
                    }
                }
                assert(names0.contains(name@));
                assert(self.voices() =~= before.voices().insert(name@, voice.values()));
            }
        } else {
            entries.insert(p, entry);
            proof {
                lemma_insert_sorted(names0, p as int, name@);
                let names = Seq::new(entries@.len(), |i: int| entries@[i].name@);
                assert(names =~= names0.insert(p as int, name@));
            }
            self.entries = entries;
            proof {
                let names1 = self.name_list();
                let vals1 = self.value_list();
                assert(names1 =~= names0.insert(p as int, name@));
                assert(vals1 =~= vals0.insert(p as int, voice.values()));
                assert(names1[p as int] == name@);
                assert forall|n: Seq<char>| names1.contains(n) <==> (names0.contains(n) || n
                    == name@) by {
                    if names1.contains(n) {
                        let k = names1.index_of(n);
                        if k < p {
                            assert(names0[k] == n);
                        } else if k > p {
                            assert(names0[k - 1] == n);
                        }
                    }
                    if names0.contains(n) {
                        let k = names0.index_of(n);
                        if k < p {
                            assert(names1[k] == n);
                        } else {
                            assert(names1[k + 1] == n);
                        }
                    }
                }
                assert forall|n: Seq<char>| names1.contains(n) implies #[trigger] self.voices()[n]
                    == before.voices().insert(name@, voice.values())[n] by {
                    let k = names1.index_of(n);
                    if n == name@ {
                        lemma_sorted_distinct(names1, k, p as int);
                    } else {
                        let k0 = names0.index_of(n);
                        if k < p {
                            assert(names0[k] == n);
                            lemma_sorted_distinct(names0, k0, k);
                        } else {
                            assert(k != p);
                            assert(names0[k - 1] == n);
                            lemma_sorted_distinct(names0, k0, k - 1);
                        }
                    }
                }
                assert(self.voices() =~= before.voices().insert(name@, voice.values()));
            }
        }
    }
}

/// A name put where it belongs keeps a sorted list sorted.
proof fn lemma_insert_sorted(names: Seq<Seq<char>>, p: int, name: Seq<char>)
    requires
        strictly_sorted(names),
        0 <= p <= names.len(),
        forall|j: int| 0 <= j < p ==> lex_lt(#[trigger] names[j], name),
        forall|j: int| p <= j < names.len() ==> lex_lt(name, #[trigger] names[j]),
    ensures
        strictly_sorted(names.insert(p, name)),
{
    let out = names.insert(p, name);
    assert forall|i: int, j: int| 0 <= i < j < out.len() implies lex_lt(
        #[trigger] out[i],
        #[trigger] out[j],
    ) by {
        if i < p && j < p {
            assert(lex_lt(names[i], names[j]));
        } else if i < p && j == p {
            assert(lex_lt(names[i], name));
        } else if i < p && j > p {
            assert(lex_lt(names[i], names[j - 1]));
        } else if i == p {
            assert(lex_lt(name, names[j - 1]));
        } else {
            assert(lex_lt(names[i - 1], names[j - 1]));
        }
    }
}

} // verus!
