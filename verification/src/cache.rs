//! The persistent cache record: the last-known-good metadata-API credential
//! and the table of track durations. Durations are immutable once recorded
//! and are never re-fetched; the table's keys stay unique.

use vstd::prelude::*;

verus! {

/// Abstract value of the cache: the credential as a character sequence and
/// the recorded durations as a sequence of (track id, duration) entries.
#[verifier::ext_equal]
pub ghost struct CacheModel {
    pub credential: Option<Seq<char>>,
    pub durations: Seq<(Seq<char>, u64)>,
}

impl CacheModel {
    /// The map denoted by an entry sequence; a later entry for the same key
    /// (never present in a well-formed cache) would win.
    pub open spec fn map_of(entries: Seq<(Seq<char>, u64)>) -> Map<Seq<char>, u64>
        decreases entries.len(),
    {
        if entries.len() == 0 {
            Map::empty()
        } else {
            Self::map_of(entries.drop_last()).insert(entries.last().0, entries.last().1)
        }
    }

    /// Lookup in an entry sequence, preferring the latest entry.
    pub open spec fn seq_lookup(entries: Seq<(Seq<char>, u64)>, key: Seq<char>) -> Option<u64>
        decreases entries.len(),
    {
        if entries.len() == 0 {
            None
        } else if entries.last().0 == key {
            Some(entries.last().1)
        } else {
            Self::seq_lookup(entries.drop_last(), key)
        }
    }

    pub open spec fn keys_unique(entries: Seq<(Seq<char>, u64)>) -> bool {
        forall|i: int, j: int|
            0 <= i < j < entries.len() ==> entries[i].0 != entries[j].0
    }

    pub open spec fn duration_map(self) -> Map<Seq<char>, u64> {
        Self::map_of(self.durations)
    }

    pub open spec fn wf(self) -> bool {
        Self::keys_unique(self.durations)
    }
}

/// `seq_lookup` agrees with the map an entry sequence denotes.
pub proof fn lemma_seq_lookup_is_map(entries: Seq<(Seq<char>, u64)>, key: Seq<char>)
    ensures
        match CacheModel::seq_lookup(entries, key) {
            Some(d) => CacheModel::map_of(entries).contains_key(key)
                && CacheModel::map_of(entries)[key] == d,
            None => !CacheModel::map_of(entries).contains_key(key),
        },
    decreases entries.len(),
{
    if entries.len() > 0 {
        lemma_seq_lookup_is_map(entries.drop_last(), key);
    }
}

/// An absent key is absent from every entry.
pub proof fn lemma_seq_lookup_none_means_absent(entries: Seq<(Seq<char>, u64)>, key: Seq<char>)
    requires
        CacheModel::seq_lookup(entries, key) is None,
    ensures
        forall|i: int| 0 <= i < entries.len() ==> entries[i].0 != key,
    decreases entries.len(),
{
    if entries.len() > 0 {
        lemma_seq_lookup_none_means_absent(entries.drop_last(), key);
        assert forall|i: int| 0 <= i < entries.len() implies entries[i].0 != key by {
            if i < entries.len() - 1 {
                assert(entries.drop_last()[i] == entries[i]);
            }
        }
    }
}

/// The durable cache record. It survives between invocations through the
/// persisted file; within one invocation it is exclusively owned by the
/// orchestrator.
#[derive(Debug)]
pub struct Cache {
    /// Last-known-good bearer token for the metadata API.
    pub spotify_access_token: Option<String>,
    /// Track id to duration in milliseconds; keys unique, entries in
    /// insertion order.
    pub track_durations: Vec<(String, u64)>,
}

impl View for Cache {
    type V = CacheModel;

    open spec fn view(&self) -> CacheModel {
        CacheModel {
            credential: match self.spotify_access_token {
                Some(s) => Some(s@),
                None => None,
            },
            durations: self.track_durations@.map_values(|p: (String, u64)| (p.0@, p.1)),
        }
    }
}

impl Cache {
    pub open spec fn wf(&self) -> bool {
        self@.wf()
    }

    /// A fresh cache: no credential, no recorded durations.
    pub fn new() -> (c: Cache)
        ensures
            c@ == (CacheModel { credential: None, durations: Seq::empty() }),
            c.wf(),
    {
        let c = Cache { spotify_access_token: None, track_durations: Vec::new() };
        proof {
            assert(c@ =~~= (CacheModel { credential: None, durations: Seq::empty() }));
        }
        c
    }

    /// Fast-path lookup of a recorded duration: no remote call is ever
    /// needed for a track id that is present.
    pub fn lookup_duration(&self, track_id: &str) -> (r: Option<u64>)
        ensures
            r == CacheModel::seq_lookup(self@.durations, track_id@),
            r matches Some(d) ==> self@.duration_map().contains_key(track_id@)
                && self@.duration_map()[track_id@] == d,
            r is None ==> !self@.duration_map().contains_key(track_id@),
    {
        proof {
            lemma_seq_lookup_is_map(self@.durations, track_id@);
        }
        let key: String = track_id.to_owned();
        let mut i: usize = self.track_durations.len();
        proof {
            assert(self@.durations.take(i as int) =~= self@.durations);
        }
        while i > 0
            invariant
                i <= self.track_durations.len(),
                key@ == track_id@,
                CacheModel::seq_lookup(self@.durations, track_id@)
                    == CacheModel::seq_lookup(self@.durations.take(i as int), track_id@),
            decreases i,
        {
            i = i - 1;
            proof {
                assert(self@.durations.take(i as int + 1).drop_last()
                    =~= self@.durations.take(i as int));
                assert(self@.durations.take(i as int + 1).last() == self@.durations[i as int]);
                assert(self@.durations[i as int]
                    == (self.track_durations@[i as int].0@, self.track_durations@[i as int].1));
            }
            if self.track_durations[i].0 == key {
                proof {
                    assert(CacheModel::seq_lookup(self@.durations.take(i as int + 1), track_id@)
                        == Some(self@.durations[i as int].1));
                    lemma_seq_lookup_is_map(self@.durations, track_id@);
                }
                return Some(self.track_durations[i].1);
            }
        }
        proof {
            assert(self@.durations.take(0) =~= Seq::<(Seq<char>, u64)>::empty());
        }
        None
    }

    /// Records a freshly fetched duration. Durations are immutable once
    /// recorded, so the id must not be present yet.
    pub fn record_duration(&mut self, track_id: String, duration_ms: u64)
        requires
            CacheModel::seq_lookup(old(self)@.durations, track_id@) is None,
            old(self).wf(),
        ensures
            final(self)@.durations == old(self)@.durations.push((track_id@, duration_ms)),
            final(self)@.duration_map() == old(self)@.duration_map().insert(track_id@, duration_ms),
            final(self)@.credential == old(self)@.credential,
            final(self).wf(),
    {
        proof {
            lemma_seq_lookup_none_means_absent(old(self)@.durations, track_id@);
        }
        let ghost pre = self@.durations;
        self.track_durations.push((track_id, duration_ms));
        proof {
            assert(self@.durations =~= pre.push((track_id@, duration_ms)));
            assert(self@.duration_map()
                =~= CacheModel::map_of(pre).insert(track_id@, duration_ms)) by {
                assert(self@.durations.drop_last() =~= pre);
            }
        }
    }

    /// Replaces the stored credential; the duration table is untouched.
    pub fn set_credential(&mut self, token: String)
        ensures
            final(self)@.credential == Some(token@),
            final(self)@.durations == old(self)@.durations,
            final(self).wf() == old(self).wf(),
    {
        self.spotify_access_token = Some(token);
    }
}

} // verus!
