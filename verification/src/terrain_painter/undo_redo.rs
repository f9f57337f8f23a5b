//! Undo and redo of sculpting. Before a brush stroke the offsets of every
//! chunk the stroke may touch are recorded in an `UndoEntry` (`None` for a
//! chunk that had not been sculpted); undoing puts those offsets back and
//! records the current ones for redo.
use vstd::prelude::*;
use std::collections::HashMap;
use crate::terrain_painter::sculpt_map::{
    ChunkCoord, ChunkOffsets, SculptMap, chunk_key, chunk_of_key, clone_offsets,
    lemma_chunk_key_bijective, lemma_take_to_set_step,
};

verus! {

broadcast use vstd::std_specs::hash::group_hash_axioms;

/// How many strokes can be undone.
pub const MAX_UNDO_ENTRIES: usize = 100;

/// The offsets of a set of chunks as they were before a change.
#[derive(Debug)]
pub struct UndoEntry {
    pub old_chunks: HashMap<u64, Option<ChunkOffsets>>,
}

/// The recorded state of one chunk, by value.
pub open spec fn recorded_view(recorded: Option<ChunkOffsets>) -> Option<Seq<Seq<u32>>> {
    match recorded {
        Some(offsets) => Some(offsets.deep_view()),
        None => None,
    }
}

/// What an entry records, by chunk coordinates.
pub open spec fn entry_view(old_chunks: Map<u64, Option<ChunkOffsets>>) -> Map<ChunkCoord, Option<Seq<Seq<u32>>>> {
    Map::new(
        |c: ChunkCoord| old_chunks.contains_key(chunk_key(c)),
        |c: ChunkCoord| recorded_view(old_chunks[chunk_key(c)]),
    )
}

impl View for UndoEntry {
    type V = Map<ChunkCoord, Option<Seq<Seq<u32>>>>;

    open spec fn view(&self) -> Map<ChunkCoord, Option<Seq<Seq<u32>>>> {
        entry_view(self.old_chunks@)
    }
}

/// The record of the chunks `coords` of the sculpt map `chunks`.
pub open spec fn snapshot(
    chunks: Map<ChunkCoord, Seq<Seq<u32>>>,
    coords: Set<ChunkCoord>,
) -> Map<ChunkCoord, Option<Seq<Seq<u32>>>> {
    Map::new(
        |c: ChunkCoord| coords.contains(c),
        |c: ChunkCoord| if chunks.contains_key(c) { Some(chunks[c]) } else { None },
    )
}

/// The sculpt map `chunks` with the recorded chunks put back as recorded:
/// a chunk recorded as `None` is removed.
pub open spec fn restore(
    chunks: Map<ChunkCoord, Seq<Seq<u32>>>,
    entry: Map<ChunkCoord, Option<Seq<Seq<u32>>>>,
) -> Map<ChunkCoord, Seq<Seq<u32>>> {
    Map::new(
        |c: ChunkCoord| if entry.contains_key(c) { entry[c] is Some } else { chunks.contains_key(c) },
        |c: ChunkCoord| if entry.contains_key(c) { entry[c].unwrap() } else { chunks[c] },
    )
}

/// Whether two sculpt maps agree on every chunk outside `coords`.
pub open spec fn agree_outside(
    a: Map<ChunkCoord, Seq<Seq<u32>>>,
    b: Map<ChunkCoord, Seq<Seq<u32>>>,
    coords: Set<ChunkCoord>,
) -> bool {
    forall|c: ChunkCoord| !coords.contains(c) ==> {
        &&& a.contains_key(c) == b.contains_key(c)
        &&& a.contains_key(c) ==> a[c] == b[c]
    }
}

/// The keys of an entry, each once.
fn entry_keys(old_chunks: &HashMap<u64, Option<ChunkOffsets>>) -> (keys: Vec<u64>)
    ensures
        keys@.to_set() == old_chunks@.dom(),
        keys@.no_duplicates(),
{
    let mut keys: Vec<u64> = Vec::new();
    for k in it: old_chunks.keys()
        invariant
            keys@ == it.seq().unref().take(it.index() as int),
            it.seq().unref().to_set() == old_chunks@.dom(),
            it.seq().unref().no_duplicates(),
            it.index() == it.seq().len() ==> keys@ == it.seq().unref(),
    {
        keys.push(*k);
        assert(it.seq().unref().take(it.seq().len() as int) =~= it.seq().unref());
    }
    keys
}

impl SculptMap {
    /// Records the offsets of the chunks `coords` before a change.
    pub fn snapshot(&self, coords: &Vec<ChunkCoord>) -> (entry: UndoEntry)
        ensures
            entry@ == snapshot(self@, coords@.to_set()),
    {
        let mut old_chunks: HashMap<u64, Option<ChunkOffsets>> = HashMap::new();
        let mut i: usize = 0;
        while i < coords.len()
            invariant
                i <= coords.len(),
                entry_view(old_chunks@) == snapshot(self@, coords@.take(i as int).to_set()),
            decreases coords.len() - i,
        {
            let coord = coords[i];
            let recorded = match self.get(coord) {
                Some(offsets) => Some(clone_offsets(offsets)),
                None => None,
            };
            assert(recorded_view(recorded) == (if self@.contains_key(coord) {
                Some(self@[coord])
            } else {
                None
            }));
            let key = coord.key();
            let ghost before = old_chunks@;
            old_chunks.insert(key, recorded);
            assert(old_chunks@ == before.insert(key, recorded));
            proof {
                lemma_take_to_set_step(coords@, i as int);
                assert forall|c: ChunkCoord| chunk_key(c) == key implies c == coord by {
                    lemma_chunk_key_bijective(c, key);
                    lemma_chunk_key_bijective(coord, key);
                }
                let ev = entry_view(old_chunks@);
                let sv = snapshot(self@, coords@.take(i + 1).to_set());
                let pv = entry_view(before);
                assert forall|c: ChunkCoord| #[trigger] ev.dom().contains(c) <==> sv.dom().contains(c) by {
                    if c != coord {
                        assert(chunk_key(c) != key);
                        assert(ev.dom().contains(c) == pv.dom().contains(c));
                    }
                }
                assert forall|c: ChunkCoord| #[trigger] ev.dom().contains(c) implies ev[c] == sv[c] by {
                    if c != coord {
                        assert(chunk_key(c) != key);
                        assert(ev[c] == pv[c]);
                    }
                }
                assert(ev =~= sv);
            }
            i += 1;
        }
        assert(coords@.take(coords.len() as int) =~= coords@);
        UndoEntry { old_chunks }
    }
}

/// Puts the recorded chunks of `entry` back into `sculpt_map`, first
/// recording their current offsets. Returns the record of the current offsets
/// and the chunks that changed.
fn swap_in(sculpt_map: &mut SculptMap, entry: UndoEntry) -> (result: (UndoEntry, Vec<ChunkCoord>))
    ensures
        final(sculpt_map)@ == restore(old(sculpt_map)@, entry@),
        result.0@ == snapshot(old(sculpt_map)@, entry@.dom()),
        result.1@.to_set() == entry@.dom(),
        result.1@.no_duplicates(),
{
    let keys = entry_keys(&entry.old_chunks);
    let mut coords: Vec<ChunkCoord> = Vec::new();
    let mut i: usize = 0;
    while i < keys.len()
        invariant
            i <= keys.len(),
            coords.len() == i,
            forall|j: int| 0 <= j < i ==> #[trigger] coords@[j] == chunk_of_key(keys@[j]),
        decreases keys.len() - i,
    {
        coords.push(ChunkCoord::from_key(keys[i]));
        i += 1;
    }
    proof {
        assert forall|c: ChunkCoord| coords@.to_set().contains(c) <==> entry@.dom().contains(c) by {
            lemma_chunk_key_bijective(c, chunk_key(c));
            if coords@.to_set().contains(c) {
                let j = choose|j: int| 0 <= j < coords@.len() && coords@[j] == c;
                lemma_chunk_key_bijective(c, keys@[j]);
                assert(keys@.to_set().contains(keys@[j]));
            }
            if entry@.dom().contains(c) {
                assert(keys@.to_set().contains(chunk_key(c)));
                let j = choose|j: int| 0 <= j < keys@.len() && keys@[j] == chunk_key(c);
                assert(coords@[j] == c);
            }
        }
        assert(coords@.to_set() =~= entry@.dom());
        assert forall|a: int, b: int| 0 <= a < coords@.len() && 0 <= b < coords@.len() && a != b implies coords@[a] != coords@[b] by {
            lemma_chunk_key_bijective(coords@[a], keys@[a]);
            lemma_chunk_key_bijective(coords@[b], keys@[b]);
        }
    }
    let current = sculpt_map.snapshot(&coords);
    let ghost before = sculpt_map@;
    let ghost recorded = entry@;
    let mut old_chunks = entry.old_chunks;
    let mut k: usize = 0;
    while k < coords.len()
        invariant
            k <= coords.len(),
            coords@.no_duplicates(),
            coords@.to_set() == recorded.dom(),
            forall|j: int| k <= j < coords.len() ==> old_chunks@.contains_key(chunk_key(#[trigger] coords@[j])),
            forall|j: int| k <= j < coords.len() ==> recorded_view(old_chunks@[chunk_key(#[trigger] coords@[j])]) == recorded[coords@[j]],
            sculpt_map@ == restore(before, recorded.restrict(coords@.take(k as int).to_set())),
        decreases coords.len() - k,
    {
        let coord = coords[k];
        let key = coord.key();
        let ghost old_map = old_chunks@;
        proof {
            assert forall|j: int| k < j < coords.len() implies chunk_key(#[trigger] coords@[j]) != key by {
                lemma_chunk_key_bijective(coords@[j], key);
                lemma_chunk_key_bijective(coord, key);
            }
            lemma_take_to_set_step(coords@, k as int);
            assert(coords@.to_set().contains(coord));
        }
        let removed = old_chunks.remove(&key);
        match removed {
            Some(Some(offsets)) => {
                sculpt_map.insert(coord, offsets);
            },
            Some(None) => {
                sculpt_map.remove(coord);
            },
            None => {},
        }
        proof {
            assert(sculpt_map@ =~= restore(before, recorded.restrict(coords@.take(k + 1).to_set())));
        }
        k += 1;
    }
    proof {
        assert(coords@.take(coords.len() as int) =~= coords@);
        assert(recorded.restrict(recorded.dom()) =~= recorded);
    }
    (current, coords)
}


/// The strokes that can be undone, most recent last, and the undone strokes
/// that can be redone.
#[derive(Debug)]
pub struct UndoStack {
    pub undo_entries: Vec<UndoEntry>,
    pub redo_entries: Vec<UndoEntry>,
    /// How many strokes the stack keeps for undo.
    pub max_entries: usize,
}

impl Default for UndoStack {
    fn default() -> (stack: Self)
        ensures
            stack.undo_entries@.len() == 0,
            stack.redo_entries@.len() == 0,
            stack.max_entries == MAX_UNDO_ENTRIES,
    {
        Self { undo_entries: Vec::new(), redo_entries: Vec::new(), max_entries: MAX_UNDO_ENTRIES }
    }
}

impl UndoStack {
    /// Records a new stroke. The redo history is dropped, and when more than
    /// `max_entries` strokes are recorded the oldest one is forgotten.
    pub fn push(&mut self, entry: UndoEntry)
        ensures
            final(self).max_entries == old(self).max_entries,
            final(self).redo_entries@.len() == 0,
            final(self).undo_entries@ == (if old(self).undo_entries@.len() + 1 > old(self).max_entries {
                old(self).undo_entries@.push(entry).drop_first()
            } else {
                old(self).undo_entries@.push(entry)
            }),
    {
        self.redo_entries.clear();
        self.undo_entries.push(entry);
        if self.undo_entries.len() > self.max_entries {
            self.undo_entries.remove(0);
        }
    }

    /// Whether there is a stroke to undo.
    pub fn can_undo(&self) -> (can: bool)
        ensures
            can == (self.undo_entries@.len() > 0),
    {
        !self.undo_entries.is_empty()
    }

    /// Whether there is an undone stroke to redo.
    pub fn can_redo(&self) -> (can: bool)
        ensures
            can == (self.redo_entries@.len() > 0),
    {
        !self.redo_entries.is_empty()
    }

    /// Undoes the most recent stroke: its recorded chunks are put back into
    /// the sculpt map and their current offsets are recorded for redo.
    /// Returns the chunks that changed, or `None` when there is nothing to undo.
    pub fn undo(&mut self, sculpt_map: &mut SculptMap) -> (changed: Option<Vec<ChunkCoord>>)
        ensures
            final(self).max_entries == old(self).max_entries,
            old(self).undo_entries@.len() == 0 ==> {
                &&& changed is None
                &&& *final(self) == *old(self)
                &&& final(sculpt_map)@ == old(sculpt_map)@
            },
            old(self).undo_entries@.len() > 0 ==> {
                let entry = old(self).undo_entries@.last()@;
                &&& changed matches Some(coords) && coords@.to_set() == entry.dom()
                    && coords@.no_duplicates()
                &&& final(sculpt_map)@ == restore(old(sculpt_map)@, entry)
                &&& final(self).undo_entries@ == old(self).undo_entries@.drop_last()
                &&& final(self).redo_entries@.drop_last() == old(self).redo_entries@
                &&& final(self).redo_entries@.len() == old(self).redo_entries@.len() + 1
                &&& final(self).redo_entries@.last()@ == snapshot(old(sculpt_map)@, entry.dom())
            },
    {
        if self.undo_entries.len() == 0 {
            return None;
        }
        let entry = self.undo_entries.pop().unwrap();
        let (current, coords) = swap_in(sculpt_map, entry);
        self.redo_entries.push(current);
        Some(coords)
    }

    /// Redoes the most recently undone stroke: its recorded chunks are put
    /// back into the sculpt map and their current offsets are recorded for
    /// undo. Returns the chunks that changed, or `None` when there is nothing
    /// to redo.
    pub fn redo(&mut self, sculpt_map: &mut SculptMap) -> (changed: Option<Vec<ChunkCoord>>)
        ensures
            final(self).max_entries == old(self).max_entries,
            old(self).redo_entries@.len() == 0 ==> {
                &&& changed is None
                &&& *final(self) == *old(self)
                &&& final(sculpt_map)@ == old(sculpt_map)@
            },
            old(self).redo_entries@.len() > 0 ==> {
                let entry = old(self).redo_entries@.last()@;
                &&& changed matches Some(coords) && coords@.to_set() == entry.dom()
                    && coords@.no_duplicates()
                &&& final(sculpt_map)@ == restore(old(sculpt_map)@, entry)
                &&& final(self).redo_entries@ == old(self).redo_entries@.drop_last()
                &&& final(self).undo_entries@.drop_last() == old(self).undo_entries@
                &&& final(self).undo_entries@.len() == old(self).undo_entries@.len() + 1
                &&& final(self).undo_entries@.last()@ == snapshot(old(sculpt_map)@, entry.dom())
            },
    {
        if self.redo_entries.len() == 0 {
            return None;
        }
        let entry = self.redo_entries.pop().unwrap();
        let (current, coords) = swap_in(sculpt_map, entry);
        self.undo_entries.push(current);
        Some(coords)
    }
}

/// Undoing a stroke gives back the sculpt map as it was before the stroke:
/// when the entry records the chunks `coords` of `before`, and the stroke
/// changed no chunk outside `coords`, putting the entry back yields `before`.
pub proof fn lemma_undo_restores(
    before: Map<ChunkCoord, Seq<Seq<u32>>>,
    after: Map<ChunkCoord, Seq<Seq<u32>>>,
    coords: Set<ChunkCoord>,
)
    requires
        agree_outside(before, after, coords),
    ensures
        restore(after, snapshot(before, coords)) == before,
{
    assert(restore(after, snapshot(before, coords)) =~= before);
}

/// Redoing an undone change gives back the sculpt map as it was before the
/// undo: putting back an entry and then the record it produced yields the
/// map as it was before, whatever the entry held.
pub proof fn lemma_redo_after_undo(
    current: Map<ChunkCoord, Seq<Seq<u32>>>,
    entry: Map<ChunkCoord, Option<Seq<Seq<u32>>>>,
)
    ensures
        restore(restore(current, entry), snapshot(current, entry.dom())) == current,
{
    assert(restore(restore(current, entry), snapshot(current, entry.dom())) =~= current);
}

/// Putting an entry back changes no chunk outside the entry.
pub proof fn lemma_restore_frame(
    current: Map<ChunkCoord, Seq<Seq<u32>>>,
    entry: Map<ChunkCoord, Option<Seq<Seq<u32>>>>,
)
    ensures
        agree_outside(current, restore(current, entry), entry.dom()),
{
}

/// What the history keys ask for in a frame.
#[derive(Clone, Copy, Debug, PartialEq, Eq, Structural)]
pub enum HistoryCommand {
    Nothing,
    Undo,
    Redo,
}

/// The history keys' decision for a frame: they work while the brush is
/// active and no text is being typed; Ctrl+Z undoes and Ctrl+Shift+Z redoes.
pub fn history_command(
    brush_active: bool,
    typing: bool,
    ctrl: bool,
    shift: bool,
    z_just_pressed: bool,
) -> (command: HistoryCommand)
    ensures
        command == if !brush_active || typing || !ctrl || !z_just_pressed {
            HistoryCommand::Nothing
        } else if shift {
            HistoryCommand::Redo
        } else {
            HistoryCommand::Undo
        },
{
    if !brush_active || typing {
        return HistoryCommand::Nothing;
    }
    if ctrl && !shift && z_just_pressed {
        HistoryCommand::Undo
    } else if ctrl && shift && z_just_pressed {
        HistoryCommand::Redo
    } else {
        HistoryCommand::Nothing
    }
}

} // verus!
