//! The per-call state of the note exchange: a log of notes keyed by their
//! exact location, replayed in full whenever a new note arrives there.

use vstd::prelude::*;

use crate::geometry::Point;

verus! {

/// A note tied to a location. A note without a location is skipped silently
/// by the exchange: neither stored nor echoed.
#[derive(Debug, PartialEq)]
pub struct RouteNote {
    pub location: Option<Point>,
    pub message: String,
}

impl Clone for RouteNote {
    fn clone(&self) -> (r: Self)
        ensures
            r == *self,
    {
        RouteNote { location: self.location, message: self.message.clone() }
    }
}

/// One location's history: the notes received there so far, in arrival
/// order.
struct NoteEntry {
    location: Point,
    notes: Vec<RouteNote>,
}

/// No two entries share a location.
spec fn unique_locs(es: Seq<NoteEntry>) -> bool {
    forall|i: int, j: int|
        #![trigger es[i].location, es[j].location]
        0 <= i < j < es.len() ==> es[i].location != es[j].location
}

/// The entries read as a mapping from location to that location's history.
spec fn entries_map(es: Seq<NoteEntry>) -> Map<Point, Seq<RouteNote>>
    decreases es.len(),
{
    if es.len() == 0 {
        Map::<Point, Seq<RouteNote>>::empty()
    } else {
        entries_map(es.drop_last()).insert(es.last().location, es.last().notes@)
    }
}

proof fn lemma_map_absent(es: Seq<NoteEntry>, p: Point)
    requires
        forall|i: int| 0 <= i < es.len() ==> (#[trigger] es[i].location) != p,
    ensures
        !entries_map(es).dom().contains(p),
    decreases es.len(),
{
    if es.len() > 0 {
        assert forall|i: int| 0 <= i < es.drop_last().len() implies (#[trigger] es.drop_last()[
            i
        ].location) != p by {
            assert(es.drop_last()[i] == es[i]);
        }
        lemma_map_absent(es.drop_last(), p);
        assert(es.last().location != p);
    }
}

proof fn lemma_map_lookup(es: Seq<NoteEntry>, i: int)
    requires
        unique_locs(es),
        0 <= i < es.len(),
    ensures
        entries_map(es).dom().contains(es[i].location),
        entries_map(es)[es[i].location] == es[i].notes@,
    decreases es.len(),
{
    if i == es.len() - 1 {
    } else {
        assert forall|a: int, b: int|
            #![trigger es.drop_last()[a].location, es.drop_last()[b].location]
            0 <= a < b < es.drop_last().len() implies es.drop_last()[a].location
            != es.drop_last()[b].location by {
            assert(es.drop_last()[a] == es[a]);
            assert(es.drop_last()[b] == es[b]);
        }
        lemma_map_lookup(es.drop_last(), i);
        assert(es.drop_last()[i] == es[i]);
        assert(es.last().location != es[i].location);
    }
}

proof fn lemma_map_update(es: Seq<NoteEntry>, i: int, e2: NoteEntry)
    requires
        unique_locs(es),
        0 <= i < es.len(),
        e2.location == es[i].location,
    ensures
        entries_map(es.update(i, e2)) =~= entries_map(es).insert(e2.location, e2.notes@),
    decreases es.len(),
{
    let upd = es.update(i, e2);
    if i == es.len() - 1 {
        assert(upd.drop_last() =~= es.drop_last());
        assert(upd.last() == e2);
    } else {
        assert forall|a: int, b: int|
            #![trigger es.drop_last()[a].location, es.drop_last()[b].location]
            0 <= a < b < es.drop_last().len() implies es.drop_last()[a].location
            != es.drop_last()[b].location by {
            assert(es.drop_last()[a] == es[a]);
            assert(es.drop_last()[b] == es[b]);
        }
        lemma_map_update(es.drop_last(), i, e2);
        assert(upd.drop_last() =~= es.drop_last().update(i, e2));
        assert(upd.last() == es.last());
        assert(es.last().location != es[i].location);
    }
}

/// The per-call note log of one bidirectional exchange, created fresh for
/// each call and discarded with it. Its mathematical value is the mapping
/// from each seen location to the notes received there, in arrival order.
pub struct NoteLog {
    entries: Vec<NoteEntry>,
}

impl View for NoteLog {
    type V = Map<Point, Seq<RouteNote>>;

    closed spec fn view(&self) -> Map<Point, Seq<RouteNote>> {
        entries_map(self.entries@)
    }
}

impl NoteLog {
    /// No two of the log's histories share a location.
    pub closed spec fn wf(self) -> bool {
        unique_locs(self.entries@)
    }

    /// An empty log: no location has any history.
    pub fn new() -> (r: Self)
        ensures
            r.wf(),
            r@ == Map::<Point, Seq<RouteNote>>::empty(),
    {
        NoteLog { entries: Vec::new() }
    }

    /// The index of the entry holding `p`'s history, if any location of the
    /// log equals `p` exactly.
    fn find_entry(&self, p: &Point) -> (r: Option<usize>)
        ensures
            match r {
                Some(i) => 0 <= i < self.entries@.len() && self.entries@[i as int].location == *p,
                None => forall|j: int|
                    0 <= j < self.entries@.len() ==> (#[trigger] self.entries@[j].location) != *p,
            },
    {
        let n = self.entries.len();
        let mut i: usize = 0;
        while i < n
            invariant
                n == self.entries@.len(),
                0 <= i <= n,
                forall|j: int| 0 <= j < i ==> (#[trigger] self.entries@[j].location) != *p,
            decreases n - i,
        {
            if self.entries[i].location == *p {
                return Some(i);
            }
            i += 1;
        }
        None
    }

    /// Takes one inbound note. A note without a location changes nothing and
    /// returns nothing. Otherwise the note joins its location's history, and
    /// the whole history there — the new note included, in arrival order —
    /// is returned for the caller to emit before the next note is processed.
    pub fn record(&mut self, note: RouteNote) -> (r: Vec<RouteNote>)
        requires
            old(self).wf(),
        ensures
            final(self).wf(),
            match note.location {
                None => final(self)@ == old(self)@ && r@ == Seq::<RouteNote>::empty(),
                Some(p) => {
                    let prior = if old(self)@.dom().contains(p) {
                        old(self)@[p]
                    } else {
                        Seq::<RouteNote>::empty()
                    };
                    &&& r@ == prior.push(note)
                    &&& final(self)@ == old(self)@.insert(p, prior.push(note))
                },
            },
    {
        let p = match &note.location {
            Some(p) => *p,
            None => {
                return Vec::new();
            },
        };
        let ghost es = self.entries@;
        match self.find_entry(&p) {
            Some(i) => {
                proof {
                    lemma_map_lookup(es, i as int);
                }
                let entry = &mut self.entries[i];
                entry.notes.push(note);
                let out = entry.notes.clone();
                proof {
                    let e2 = self.entries@[i as int];
                    assert(self.entries@ =~= es.update(i as int, e2));
                    lemma_map_update(es, i as int, e2);
                    assert forall|a: int, b: int|
                        #![trigger self.entries@[a].location, self.entries@[b].location]
                        0 <= a < b < self.entries@.len() implies self.entries@[a].location
                        != self.entries@[b].location by {
                        assert(self.entries@[a] == es.update(i as int, e2)[a]);
                        assert(self.entries@[b] == es.update(i as int, e2)[b]);
                    }
                    assert forall|k: int| 0 <= k < out@.len() implies out@[k] == e2.notes@[k] by {}
                    assert(out@ =~= e2.notes@);
                }
                out
            },
            None => {
                proof {
                    lemma_map_absent(es, p);
                }
                let mut notes: Vec<RouteNote> = Vec::new();
                notes.push(note);
                let out = notes.clone();
                self.entries.push(NoteEntry { location: p, notes });
                proof {
                    let e = self.entries@.last();
                    assert(self.entries@.drop_last() =~= es);
                    assert forall|a: int, b: int|
                        #![trigger self.entries@[a].location, self.entries@[b].location]
                        0 <= a < b < self.entries@.len() implies self.entries@[a].location
                        != self.entries@[b].location by {
                        if b < self.entries@.len() - 1 {
                            assert(self.entries@[a] == es[a]);
                            assert(self.entries@[b] == es[b]);
                        } else {
                            assert(self.entries@[a] == es[a]);
                        }
                    }
                    assert(out@ =~= e.notes@);
                    assert(e.notes@ =~= Seq::<RouteNote>::empty().push(note));
                }
                out
            },
        }
    }
}

} // verus!
