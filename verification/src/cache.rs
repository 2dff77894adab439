//! A cache of command results that expire after a time to live.
use std::time::Instant;
use vstd::prelude::*;
use crate::clock::{millis_since, now};
use crate::text::{chars_of, eq_chars, string_of};

verus! {

/// How long a cached result lives, in milliseconds: five minutes.
const TTL_MILLIS: u64 = 300_000;

/// One cached result.
struct CacheEntry {
    command: String,
    code: i32,
    output: String,
    stamp: Instant,
}

/// Command results by command text, each kept for a time to live.
pub struct CommandCache {
    entries: Vec<CacheEntry>,
    ttl_ms: u64,
}

/// The results of the entries, by command.
spec fn entries_map(es: Seq<CacheEntry>) -> Map<Seq<char>, (i32, Seq<char>)>
    decreases es.len(),
{
    if es.len() == 0 {
        Map::empty()
    } else {
        entries_map(es.drop_last()).insert(es.last().command@, (es.last().code, es.last().output@))
    }
}

/// No command appears twice.
spec fn distinct_commands(es: Seq<CacheEntry>) -> bool {
    forall|i: int, j: int|
        0 <= i < es.len() && 0 <= j < es.len() && i != j ==> es[i].command@ != es[j].command@
}

proof fn lemma_entries_map_index(es: Seq<CacheEntry>, i: int)
    requires
        distinct_commands(es),
        0 <= i < es.len(),
    ensures
        entries_map(es).contains_key(es[i].command@),
        entries_map(es)[es[i].command@] == (es[i].code, es[i].output@),
    decreases es.len(),
{
    if i < es.len() - 1 {
        lemma_entries_map_index(es.drop_last(), i);
    }
}

proof fn lemma_entries_map_absent(es: Seq<CacheEntry>, k: Seq<char>)
    requires
        forall|i: int| 0 <= i < es.len() ==> es[i].command@ != k,
    ensures
        !entries_map(es).contains_key(k),
    decreases es.len(),
{
    if es.len() > 0 {
        lemma_entries_map_absent(es.drop_last(), k);
    }
}

proof fn lemma_entries_map_dom(es: Seq<CacheEntry>, k: Seq<char>)
    requires
        entries_map(es).contains_key(k),
    ensures
        exists|i: int| 0 <= i < es.len() && es[i].command@ == k,
    decreases es.len(),
{
    if es.len() > 0 && es.last().command@ != k {
        lemma_entries_map_dom(es.drop_last(), k);
        let i = choose|i: int| 0 <= i < es.drop_last().len() && es.drop_last()[i].command@ == k;
        assert(es[i].command@ == k);
    }
}

proof fn lemma_entries_map_update(es: Seq<CacheEntry>, i: int, e: CacheEntry)
    requires
        distinct_commands(es),
        0 <= i < es.len(),
        e.command@ == es[i].command@,
    ensures
        distinct_commands(es.update(i, e)),
        entries_map(es.update(i, e)) == entries_map(es).insert(e.command@, (e.code, e.output@)),
    decreases es.len(),
{
    let u = es.update(i, e);
    if i < es.len() - 1 {
        assert(u.drop_last() =~= es.drop_last().update(i, e));
        lemma_entries_map_update(es.drop_last(), i, e);
        assert(entries_map(u) =~= entries_map(es).insert(e.command@, (e.code, e.output@)));
    } else {
        assert(u.drop_last() =~= es.drop_last());
        assert(entries_map(u) =~= entries_map(es).insert(e.command@, (e.code, e.output@)));
    }
}

/// The result that a read of the command gives when its entry is `age`
/// milliseconds old: the stored one while the age is below the time to live,
/// else none.
pub open spec fn fresh_result(
    results: Map<Seq<char>, (i32, Seq<char>)>,
    ttl: nat,
    command: Seq<char>,
    age: u128,
) -> Option<(i32, Seq<char>)> {
    if results.contains_key(command) && age < ttl {
        Some(results[command])
    } else {
        None
    }
}

/// A cached result as plain values.
pub open spec fn result_view(r: Option<(i32, String)>) -> Option<(i32, Seq<char>)> {
    match r {
        Some(v) => Some((v.0, v.1@)),
        None => None,
    }
}

/// The commands whose entries, of the given ages, are younger than the time
/// to live.
pub open spec fn fresh_commands(commands: Seq<Seq<char>>, ages: Seq<u128>, ttl: nat) -> Set<
    Seq<char>,
> {
    Set::new(
        |k: Seq<char>|
            exists|j: int|
                0 <= j < commands.len() && j < ages.len() && #[trigger] commands[j] == k && ages[j]
                    < ttl,
    )
}

/// The commands of the entries, in order.
spec fn entry_commands(es: Seq<CacheEntry>) -> Seq<Seq<char>> {
    es.map_values(|e: CacheEntry| e.command@)
}

impl CommandCache {
    #[verifier::type_invariant]
    spec fn well_formed(&self) -> bool {
        distinct_commands(self.entries@)
    }

    /// The cached results, by command.
    pub closed spec fn results(&self) -> Map<Seq<char>, (i32, Seq<char>)> {
        entries_map(self.entries@)
    }

    /// The commands of the cached entries, in the order in which
    /// `clear_expired_at` takes their ages.
    pub closed spec fn commands(&self) -> Seq<Seq<char>> {
        entry_commands(self.entries@)
    }

    /// How long a result lives, in milliseconds.
    pub closed spec fn ttl_millis(&self) -> nat {
        self.ttl_ms as nat
    }

    /// An empty cache whose results live five minutes.
    pub fn new() -> (c: Self)
        ensures
            c.results() == Map::<Seq<char>, (i32, Seq<char>)>::empty(),
            c.ttl_millis() == 300_000,
    {
        CommandCache { entries: Vec::new(), ttl_ms: TTL_MILLIS }
    }

    /// The index of the entry for the command, if there is one.
    fn position(&self, command: &str) -> (r: Option<usize>)
        ensures
            r matches Some(i) ==> i < self.entries@.len() && self.entries@[i as int].command@
                == command@,
            r is None ==> forall|i: int|
                0 <= i < self.entries@.len() ==> self.entries@[i].command@ != command@,
    {
        let key = chars_of(command);
        let mut i: usize = 0;
        while i < self.entries.len()
            invariant
                i <= self.entries.len(),
                key@ == command@,
                forall|j: int| 0 <= j < i ==> self.entries@[j].command@ != command@,
            decreases self.entries.len() - i,
        {
            let k = chars_of(self.entries[i].command.as_str());
            if eq_chars(&k, &key) {
                return Some(i);
            }
            i = i + 1;
        }
        None
    }

    /// The cached result of the command when its entry is `age_millis`
    /// milliseconds old: the stored result while that is below the time to
    /// live, else none.
    pub fn lookup_at(&self, command: &str, age_millis: u128) -> (r: Option<(i32, String)>)
        ensures
            result_view(r) == fresh_result(self.results(), self.ttl_millis(), command@, age_millis),
    {
        proof {
            use_type_invariant(self);
        }
        match self.position(command) {
            Some(i) => {
                proof {
                    lemma_entries_map_index(self.entries@, i as int);
                }
                self.entry_at(i, age_millis)
            },
            None => {
                proof {
                    lemma_entries_map_absent(self.entries@, command@);
                }
                None
            },
        }
    }

    /// The result of the entry at `i` when it is `age_millis` milliseconds
    /// old.
    fn entry_at(&self, i: usize, age_millis: u128) -> (r: Option<(i32, String)>)
        requires
            i < self.entries@.len(),
        ensures
            age_millis < self.ttl_ms ==> result_view(r) == Some(
                (self.entries@[i as int].code, self.entries@[i as int].output@),
            ),
            age_millis >= self.ttl_ms ==> r is None,
    {
        let e = &self.entries[i];
        if age_millis < self.ttl_ms as u128 {
            Some((e.code, string_of(&chars_of(e.output.as_str()))))
        } else {
            None
        }
    }

    /// The cached result of the command, if there is one and it has not
    /// outlived the time to live: the read is `lookup_at` the age of the
    /// command's entry, which the clock gives.
    pub fn get(&self, command: &str) -> (r: Option<(i32, String)>)
        ensures
            exists|age: u128|
                result_view(r) == #[trigger] fresh_result(self.results(), self.ttl_millis(), command@, age),
    {
        proof {
            use_type_invariant(self);
        }
        match self.position(command) {
            Some(i) => {
                let age = millis_since(&self.entries[i].stamp);
                let r = self.lookup_at(command, age);
                assert(result_view(r) == fresh_result(self.results(), self.ttl_millis(), command@, age));
                r
            },
            None => {
                proof {
                    lemma_entries_map_absent(self.entries@, command@);
                }
                assert(result_view(None) == fresh_result(self.results(), self.ttl_millis(), command@, 0));
                None
            },
        }
    }

    /// Stores the result of the command, stamped with the current time, in
    /// place of any earlier one.
    pub fn set(&mut self, command: String, result: (i32, String))
        ensures
            final(self).results() == old(self).results().insert(command@, (result.0, result.1@)),
            final(self).ttl_millis() == old(self).ttl_millis(),
    {
        proof {
            use_type_invariant(&*self);
        }
        let pos = self.position(command.as_str());
        let entry = CacheEntry { command, code: result.0, output: result.1, stamp: now() };
        let mut entries: Vec<CacheEntry> = Vec::new();
        std::mem::swap(&mut entries, &mut self.entries);
        let ghost es = entries@;
        match pos {
            Some(i) => {
                proof {
                    lemma_entries_map_update(es, i as int, entry);
                }
                entries.set(i, entry);
            },
            None => {
                entries.push(entry);
                assert(entries@.drop_last() =~= es);
            },
        }
        std::mem::swap(&mut entries, &mut self.entries);
    }

    /// Drops the entries whose age, in milliseconds, is not below the time to
    /// live: `ages` gives the age of each entry, in the order of
    /// `commands()`. Every result kept is kept unchanged.
    pub fn clear_expired_at(&mut self, ages: &Vec<u128>)
        requires
            ages@.len() == old(self).commands().len(),
        ensures
            final(self).results() == old(self).results().restrict(
                fresh_commands(old(self).commands(), ages@, old(self).ttl_millis()),
            ),
            forall|j: int|
                0 <= j < ages@.len() ==> fresh_result(
                    final(self).results(),
                    old(self).ttl_millis(),
                    #[trigger] old(self).commands()[j],
                    ages@[j],
                ) == fresh_result(old(self).results(), old(self).ttl_millis(), old(self).commands()[j], ages@[j]),
            final(self).ttl_millis() == old(self).ttl_millis(),
    {
        proof {
            use_type_invariant(&*self);
        }
        let mut rest: Vec<CacheEntry> = Vec::new();
        std::mem::swap(&mut rest, &mut self.entries);
        let ghost es = rest@;
        let ghost cmds = entry_commands(es);
        let ghost ttl = self.ttl_ms as nat;
        let mut kept: Vec<CacheEntry> = Vec::new();
        let mut i: usize = 0;
        assert(rest@ =~= es.skip(0));
        assert(es.len() == rest.len());
        assert(entries_map(kept@) =~= entries_map(es).restrict(
            fresh_commands(cmds.take(0), ages@, ttl),
        ));
        while rest.len() > 0
            invariant
                i <= es.len(),
                ages@.len() == es.len(),
                cmds == entry_commands(es),
                ttl == self.ttl_ms as nat,
                distinct_commands(es),
                distinct_commands(kept@),
                entries_map(kept@) == entries_map(es).restrict(
                    fresh_commands(cmds.take(i as int), ages@, ttl),
                ),
                forall|j: int|
                    0 <= j < kept@.len() ==> exists|k: int| 0 <= k < i && es[k] == #[trigger] kept@[j],
                rest@ == es.skip(i as int),
                rest@.len() == es.len() - i,
                es.len() <= usize::MAX,
            decreases rest.len(),
        {
            let e = rest.remove(0);
            assert(e == es[i as int]);
            assert(rest@ =~= es.skip(i + 1));
            let ghost before = kept@;
            let ghost set_i = fresh_commands(cmds.take(i as int), ages@, ttl);
            let ghost set_n = fresh_commands(cmds.take(i + 1), ages@, ttl);
            proof {
                lemma_entries_map_index(es, i as int);
                assert(cmds[i as int] == e.command@);
                assert forall|k: Seq<char>| k != e.command@ implies (set_n.contains(k) == set_i.contains(k)) by {
                    if set_n.contains(k) {
                        let j = choose|j: int|
                            0 <= j < cmds.take(i + 1).len() && j < ages@.len() && #[trigger] cmds.take(i + 1)[j] == k
                                && ages@[j] < ttl;
                        assert(j != i);
                        assert(cmds.take(i as int)[j] == k);
                    }
                    if set_i.contains(k) {
                        let j = choose|j: int|
                            0 <= j < cmds.take(i as int).len() && j < ages@.len() && #[trigger] cmds.take(i as int)[j] == k
                                && ages@[j] < ttl;
                        assert(cmds.take(i + 1)[j] == k);
                    }
                }
                assert(!set_i.contains(e.command@)) by {
                    if set_i.contains(e.command@) {
                        let j = choose|j: int|
                            0 <= j < cmds.take(i as int).len() && j < ages@.len() && #[trigger] cmds.take(i as int)[j] == e.command@
                                && ages@[j] < ttl;
                        assert(es[j].command@ == es[i as int].command@);
                    }
                }
                assert(ages@[i as int] < ttl ==> set_n.contains(e.command@)) by {
                    if ages@[i as int] < ttl {
                        assert(cmds.take(i + 1)[i as int] == e.command@);
                    }
                }
                assert(ages@[i as int] >= ttl ==> !set_n.contains(e.command@)) by {
                    if set_n.contains(e.command@) {
                        let j = choose|j: int|
                            0 <= j < cmds.take(i + 1).len() && j < ages@.len() && #[trigger] cmds.take(i + 1)[j] == e.command@
                                && ages@[j] < ttl;
                        assert(es[j].command@ == es[i as int].command@);
                        assert(j == i);
                    }
                }
            }
            if ages[i] < self.ttl_ms as u128 {
                proof {
                    assert forall|j: int| 0 <= j < kept@.len() implies kept@[j].command@ != e.command@ by {
                        let k = choose|k: int| 0 <= k < i && es[k] == kept@[j];
                    }
                }
                kept.push(e);
                assert(kept@.drop_last() =~= before);
                assert(entries_map(kept@) =~= entries_map(es).restrict(set_n));
            } else {
                assert(entries_map(kept@) =~= entries_map(es).restrict(set_n));
            }
            i = i + 1;
        }
        assert(cmds.take(i as int) =~= cmds);
        assert forall|j: int| 0 <= j < ages@.len() implies fresh_result(
            entries_map(kept@),
            ttl,
            #[trigger] cmds[j],
            ages@[j],
        ) == fresh_result(entries_map(es), ttl, cmds[j], ages@[j]) by {
            if ages@[j] < ttl {
                assert(fresh_commands(cmds, ages@, ttl).contains(cmds[j]));
            }
        }
        self.entries = kept;
    }

    /// Drops the results that have outlived the time to live: it is
    /// `clear_expired_at` the ages of the entries, which the clock gives.
    pub fn clear_expired(&mut self)
        ensures
            exists|ages: Seq<u128>|
                ages.len() == old(self).commands().len() && final(self).results() == old(
                    self,
                ).results().restrict(#[trigger] fresh_commands(old(self).commands(), ages, old(self).ttl_millis())),
            final(self).ttl_millis() == old(self).ttl_millis(),
    {
        let mut ages: Vec<u128> = Vec::new();
        let mut i: usize = 0;
        while i < self.entries.len()
            invariant
                i <= self.entries@.len(),
                ages@.len() == i,
            decreases self.entries.len() - i,
        {
            ages.push(millis_since(&self.entries[i].stamp));
            i = i + 1;
        }
        assert(ages@.len() == self.commands().len());
        self.clear_expired_at(&ages);
    }
}

/// What a read gives back of a write: once `set` has stored a command's
/// result, a read of that command while its entry is younger than the time
/// to live gives that result back, and reads of the other commands give what
/// they gave before.
pub proof fn law_cache_read_after_write(
    before: Map<Seq<char>, (i32, Seq<char>)>,
    ttl: nat,
    command: Seq<char>,
    code: i32,
    output: Seq<char>,
    age: u128,
    other: Seq<char>,
    other_age: u128,
)
    requires
        age < ttl,
        other != command,
    ensures
        fresh_result(before.insert(command, (code, output)), ttl, command, age) == Some((code, output)),
        fresh_result(before.insert(command, (code, output)), ttl, other, other_age) == fresh_result(
            before,
            ttl,
            other,
            other_age,
        ),
{
}

} // verus!
