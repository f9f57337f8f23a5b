//! The endless terrain: the chunks around the viewer are kept built, each at
//! the level of detail its distance calls for. Each frame the application
//! works out which chunks the viewer should see (a matter of floating-point
//! distances) and this module decides what to do about them: which built
//! chunks to drop, and which chunks to build or rebuild, at most a fixed
//! number per frame, nearest first.
use vstd::prelude::*;
use std::collections::HashMap;
use crate::float_bits::{f32_le, f32_less_or_same};
use crate::terrain::config::EndlessTerrainLodBand;
use crate::sorting::{sort_by_total_order, sorted_by_key};
use crate::terrain_painter::sculpt_map::{
    ChunkCoord, chunk_key, chunk_of_key, lemma_chunk_key_bijective, lemma_take_to_set_step,
};

verus! {

broadcast use vstd::std_specs::hash::group_hash_axioms;

/// How many chunks are built or rebuilt per frame at most.
pub const CHUNK_BUILD_BUDGET_PER_FRAME: usize = 2;

/// What a built chunk was built from.
#[derive(Clone, Copy, Debug, PartialEq, Eq, Structural)]
pub struct ActiveChunk {
    pub level_of_detail: u32,
    pub terrain_epoch: u64,
}

/// A chunk the viewer should see, and the level of detail it should have.
#[derive(Clone, Copy, Debug, PartialEq, Eq, Structural)]
pub struct DesiredChunk {
    pub coord: ChunkCoord,
    pub level_of_detail: u32,
}

/// A chunk to build this frame.
#[derive(Clone, Copy, Debug, PartialEq, Eq, Structural)]
pub enum ChunkBuild {
    /// The chunk is built but from other settings: rebuild it.
    Rebuild(DesiredChunk),
    /// The chunk is not built yet: build it.
    Spawn(DesiredChunk),
}

/// What to do this frame: the built chunks to drop, and the chunks to build,
/// in this order.
#[derive(Debug)]
pub struct ChunkPlan {
    pub despawn: Vec<ChunkCoord>,
    pub builds: Vec<ChunkBuild>,
}

/// The built chunks, by the key of their coordinates, and the epoch of the
/// terrain settings: chunks built in an earlier epoch are stale.
#[derive(Debug)]
pub struct EndlessTerrainState {
    pub active_chunks: HashMap<u64, ActiveChunk>,
    pub terrain_epoch: u64,
}

/// The built chunks of a map from keys, by coordinates.
pub open spec fn active_view(chunks: Map<u64, ActiveChunk>) -> Map<ChunkCoord, ActiveChunk> {
    Map::new(|c: ChunkCoord| chunks.contains_key(chunk_key(c)), |c: ChunkCoord| chunks[chunk_key(c)])
}

impl View for EndlessTerrainState {
    type V = Map<ChunkCoord, ActiveChunk>;

    open spec fn view(&self) -> Map<ChunkCoord, ActiveChunk> {
        active_view(self.active_chunks@)
    }
}

/// The coordinates of the desired chunks.
pub open spec fn desired_coords(desired: Seq<DesiredChunk>) -> Set<ChunkCoord> {
    Set::new(|c: ChunkCoord| exists|i: int| 0 <= i < desired.len() && (#[trigger] desired[i]).coord == c)
}

/// Whether a built chunk differs from what is desired of it.
pub open spec fn needs_rebuild(active: ActiveChunk, chunk: DesiredChunk, epoch: u64) -> bool {
    active.level_of_detail != chunk.level_of_detail || active.terrain_epoch != epoch
}

/// What a chunk built now is built from.
pub open spec fn built_from(chunk: DesiredChunk, epoch: u64) -> ActiveChunk {
    ActiveChunk { level_of_detail: chunk.level_of_detail, terrain_epoch: epoch }
}

/// The builds decided for the first `i` desired chunks and the built chunks
/// after them, starting from `active`: while builds are left in the budget, a
/// built chunk that needs it is rebuilt and a chunk not built yet is built;
/// once the budget is spent, the rest wait for a later frame.
pub open spec fn plan_upto(
    desired: Seq<DesiredChunk>,
    active: Map<ChunkCoord, ActiveChunk>,
    epoch: u64,
    budget: nat,
    i: nat,
) -> (Seq<ChunkBuild>, Map<ChunkCoord, ActiveChunk>)
    decreases i,
{
    if i == 0 {
        (Seq::empty(), active)
    } else {
        let (builds, act) = plan_upto(desired, active, epoch, budget, (i - 1) as nat);
        let c = desired[i - 1];
        if builds.len() < budget {
            if act.contains_key(c.coord) {
                if needs_rebuild(act[c.coord], c, epoch) {
                    (builds.push(ChunkBuild::Rebuild(c)), act.insert(c.coord, built_from(c, epoch)))
                } else {
                    (builds, act)
                }
            } else {
                (builds.push(ChunkBuild::Spawn(c)), act.insert(c.coord, built_from(c, epoch)))
            }
        } else {
            (builds, act)
        }
    }
}

/// A frame never builds more chunks than its budget allows.
pub proof fn lemma_plan_within_budget(
    desired: Seq<DesiredChunk>,
    active: Map<ChunkCoord, ActiveChunk>,
    epoch: u64,
    budget: nat,
    i: nat,
)
    ensures
        plan_upto(desired, active, epoch, budget, i).0.len() <= budget,
        plan_upto(desired, active, epoch, budget, i).0.len() <= i,
    decreases i,
{
    if i > 0 {
        lemma_plan_within_budget(desired, active, epoch, budget, (i - 1) as nat);
    }
}

/// After a frame every built chunk is a desired one: the plan builds only
/// desired chunks, and starts from the built chunks that are desired.
pub proof fn lemma_plan_keeps_desired(
    desired: Seq<DesiredChunk>,
    active: Map<ChunkCoord, ActiveChunk>,
    epoch: u64,
    budget: nat,
    i: nat,
)
    requires
        i <= desired.len(),
        active.dom().subset_of(desired_coords(desired)),
    ensures
        plan_upto(desired, active, epoch, budget, i).1.dom().subset_of(desired_coords(desired)),
    decreases i,
{
    if i > 0 {
        lemma_plan_keeps_desired(desired, active, epoch, budget, (i - 1) as nat);
        let c = desired[i - 1];
        assert(desired_coords(desired).contains(c.coord));
    }
}

/// A frame in which every desired chunk is built, up to date and at its
/// level of detail, changes nothing and builds nothing.
pub proof fn lemma_plan_steady(
    desired: Seq<DesiredChunk>,
    active: Map<ChunkCoord, ActiveChunk>,
    epoch: u64,
    budget: nat,
    i: nat,
)
    requires
        i <= desired.len(),
        forall|j: int|
            0 <= j < desired.len() ==> active.contains_key((#[trigger] desired[j]).coord) && !needs_rebuild(
                active[desired[j].coord],
                desired[j],
                epoch,
            ),
    ensures
        plan_upto(desired, active, epoch, budget, i) == (Seq::<ChunkBuild>::empty(), active),
    decreases i,
{
    if i > 0 {
        lemma_plan_steady(desired, active, epoch, budget, (i - 1) as nat);
        let c = desired[i - 1];
        assert(active.contains_key(c.coord));
    }
}

/// The first band, from `i` on, whose distance reaches `distance` (both
/// `f32`s).
pub open spec fn first_band_reaching(distance: u32, bands: Seq<EndlessTerrainLodBand>, i: int) -> Option<int>
    decreases bands.len() - i,
{
    if i < 0 || i >= bands.len() {
        None
    } else if f32_less_or_same(distance, bands[i].visible_distance) {
        Some(i)
    } else {
        first_band_reaching(distance, bands, i + 1)
    }
}

/// The coarsest level of detail the endless terrain builds.
pub const MAX_ENDLESS_LEVEL_OF_DETAIL: u32 = 2;

/// The level of detail for a chunk at `distance` (an `f32`) from the viewer:
/// that of the first band reaching the distance, else that of the last band,
/// else the finest; never coarser than `MAX_ENDLESS_LEVEL_OF_DETAIL`.
pub open spec fn level_for_distance(distance: u32, bands: Seq<EndlessTerrainLodBand>) -> u32 {
    let level = match first_band_reaching(distance, bands, 0) {
        Some(i) => bands[i].level_of_detail,
        None => if bands.len() > 0 {
            bands.last().level_of_detail
        } else {
            0
        },
    };
    if level < MAX_ENDLESS_LEVEL_OF_DETAIL {
        level
    } else {
        MAX_ENDLESS_LEVEL_OF_DETAIL
    }
}

/// Chooses the level of detail of a chunk at `distance` from the viewer.
pub fn select_level_of_detail(distance: u32, lod_bands: &Vec<EndlessTerrainLodBand>) -> (level: u32)
    ensures
        level == level_for_distance(distance, lod_bands@),
{
    let mut i: usize = 0;
    let mut found: Option<u32> = None;
    while i < lod_bands.len()
        invariant_except_break
            i <= lod_bands.len(),
            found is None,
            first_band_reaching(distance, lod_bands@, 0) == first_band_reaching(distance, lod_bands@, i as int),
        ensures
            match first_band_reaching(distance, lod_bands@, 0) {
                Some(j) => found == Some(lod_bands@[j].level_of_detail),
                None => found is None,
            },
        decreases lod_bands.len() - i,
    {
        if f32_le(distance, lod_bands[i].visible_distance) {
            found = Some(lod_bands[i].level_of_detail);
            break;
        }
        i += 1;
    }
    let level = match found {
        Some(level) => level,
        None => if lod_bands.len() > 0 {
            lod_bands[lod_bands.len() - 1].level_of_detail
        } else {
            0
        },
    };
    if level < MAX_ENDLESS_LEVEL_OF_DETAIL {
        level
    } else {
        MAX_ENDLESS_LEVEL_OF_DETAIL
    }
}

/// Sorts chunks by their distances (`f32`s), nearest first, keeping chunks
/// at equal distances in their original order, and drops the distances.
pub fn sort_by_distance(items: Vec<(u32, DesiredChunk)>) -> (chunks: Vec<DesiredChunk>)
    ensures
        chunks@.len() == items@.len(),
        forall|i: int| 0 <= i < chunks@.len() ==> #[trigger] chunks@[i] == sorted_by_key(items@)[i].1,
{
    let sorted = sort_by_total_order(items);
    let mut chunks: Vec<DesiredChunk> = Vec::new();
    let mut k: usize = 0;
    while k < sorted.len()
        invariant
            k <= sorted.len(),
            sorted@ == sorted_by_key(items@),
            sorted@.len() == items@.len(),
            chunks@.len() == k,
            forall|j: int| 0 <= j < k ==> #[trigger] chunks@[j] == sorted@[j].1,
        decreases sorted.len() - k,
    {
        chunks.push(sorted[k].1);
        k += 1;
    }
    chunks
}

/// One step of the plan, while the budget lasts, brings the desired chunk up
/// to date: a chunk not built yet is spawned; a built chunk whose level of
/// detail differs from the desired one, finer or coarser, or whose epoch is
/// not the current one, is rebuilt; a built chunk that is up to date is left
/// alone. Either way it is recorded afterwards at the desired level of
/// detail in the current epoch, and no other chunk's record changes.
pub proof fn lemma_plan_step_updates_chunk(
    desired: Seq<DesiredChunk>,
    active: Map<ChunkCoord, ActiveChunk>,
    epoch: u64,
    budget: nat,
    i: nat,
)
    requires
        i < desired.len(),
        plan_upto(desired, active, epoch, budget, i).0.len() < budget,
    ensures
        ({
            let (builds, act) = plan_upto(desired, active, epoch, budget, i);
            let (next_builds, next_act) = plan_upto(desired, active, epoch, budget, i + 1);
            let c = desired[i as int];
            &&& next_act.contains_key(c.coord)
            &&& next_act[c.coord] == (ActiveChunk { level_of_detail: c.level_of_detail, terrain_epoch: epoch })
            &&& forall|other: ChunkCoord| other != c.coord ==> (#[trigger] next_act.contains_key(other)
                == act.contains_key(other) && (act.contains_key(other) ==> next_act[other] == act[other]))
            &&& !act.contains_key(c.coord) ==> next_builds == builds.push(ChunkBuild::Spawn(c))
            &&& act.contains_key(c.coord) && (act[c.coord].level_of_detail != c.level_of_detail
                || act[c.coord].terrain_epoch != epoch) ==> next_builds == builds.push(ChunkBuild::Rebuild(c))
            &&& act.contains_key(c.coord) && act[c.coord].level_of_detail == c.level_of_detail
                && act[c.coord].terrain_epoch == epoch ==> next_builds == builds
        }),
{
    assert(((i + 1) - 1) as nat == i);
}

/// Once the budget is spent, a step of the plan changes nothing.
pub proof fn lemma_plan_step_after_budget(
    desired: Seq<DesiredChunk>,
    active: Map<ChunkCoord, ActiveChunk>,
    epoch: u64,
    budget: nat,
    i: nat,
)
    requires
        i < desired.len(),
        plan_upto(desired, active, epoch, budget, i).0.len() >= budget,
    ensures
        plan_upto(desired, active, epoch, budget, i + 1) == plan_upto(desired, active, epoch, budget, i),
{
    assert(((i + 1) - 1) as nat == i);
}

/// Whether `coord` is the coordinate of one of the desired chunks.
fn is_desired(desired: &Vec<DesiredChunk>, coord: ChunkCoord) -> (found: bool)
    ensures
        found == desired_coords(desired@).contains(coord),
{
    let mut i: usize = 0;
    while i < desired.len()
        invariant
            i <= desired.len(),
            forall|j: int| 0 <= j < i ==> (#[trigger] desired@[j]).coord != coord,
        decreases desired.len() - i,
    {
        if desired[i].coord == coord {
            assert(desired@[i as int].coord == coord);
            return true;
        }
        i += 1;
    }
    false
}

impl EndlessTerrainState {
    /// No chunk built, in the first epoch.
    pub fn new() -> (state: Self)
        ensures
            state@ == Map::<ChunkCoord, ActiveChunk>::empty(),
            state.terrain_epoch == 0,
    {
        let state = Self { active_chunks: HashMap::new(), terrain_epoch: 0 };
        assert(state@ =~= Map::<ChunkCoord, ActiveChunk>::empty());
        state
    }

    /// The built chunk at `coord`, if there is one.
    pub fn get_active(&self, coord: ChunkCoord) -> (active: Option<ActiveChunk>)
        ensures
            match active {
                Some(a) => self@.contains_key(coord) && a == self@[coord],
                None => !self@.contains_key(coord),
            },
    {
        match self.active_chunks.get(&coord.key()) {
            Some(a) => Some(*a),
            None => None,
        }
    }

    /// Records that the chunk at `coord` is built from `active`.
    pub fn insert_active(&mut self, coord: ChunkCoord, active: ActiveChunk)
        ensures
            final(self)@ == old(self)@.insert(coord, active),
            final(self).terrain_epoch == old(self).terrain_epoch,
    {
        let key = coord.key();
        self.active_chunks.insert(key, active);
        proof {
            assert forall|c: ChunkCoord| chunk_key(c) == key implies c == coord by {
                lemma_chunk_key_bijective(c, key);
                lemma_chunk_key_bijective(coord, key);
            }
        }
        assert(self@ =~= old(self)@.insert(coord, active));
    }

    /// Forgets the chunk at `coord`.
    pub fn remove_active(&mut self, coord: ChunkCoord)
        ensures
            final(self)@ == old(self)@.remove(coord),
            final(self).terrain_epoch == old(self).terrain_epoch,
    {
        let key = coord.key();
        self.active_chunks.remove(&key);
        proof {
            assert forall|c: ChunkCoord| chunk_key(c) == key implies c == coord by {
                lemma_chunk_key_bijective(c, key);
                lemma_chunk_key_bijective(coord, key);
            }
        }
        assert(self@ =~= old(self)@.remove(coord));
    }

    /// The terrain settings changed: every built chunk is now stale.
    pub fn map_changed(&mut self)
        ensures
            final(self)@ == old(self)@,
            final(self).terrain_epoch == if old(self).terrain_epoch == u64::MAX {
                u64::MAX
            } else {
                (old(self).terrain_epoch + 1) as u64
            },
    {
        self.terrain_epoch = self.terrain_epoch.saturating_add(1);
    }

    /// The coordinates of the built chunks, each once.
    pub fn active_coords(&self) -> (coords: Vec<ChunkCoord>)
        ensures
            coords@.no_duplicates(),
            coords@.to_set() == self@.dom(),
    {
        let mut coords: Vec<ChunkCoord> = Vec::new();
        let ghost mut keys: Seq<u64> = Seq::empty();
        for k in it: self.active_chunks.keys()
            invariant
                it.seq().unref().to_set() == self.active_chunks@.dom(),
                it.seq().unref().no_duplicates(),
                keys == it.seq().unref().take(it.index() as int),
                it.index() == it.seq().len() ==> keys == it.seq().unref(),
                coords@.len() == keys.len(),
                forall|i: int| 0 <= i < coords@.len() ==> #[trigger] coords@[i] == chunk_of_key(keys[i]),
        {
            let key: u64 = *k;
            proof {
                assert(it.seq().unref().take(it.seq().len() as int) =~= it.seq().unref());
            }
            coords.push(ChunkCoord::from_key(key));
            proof {
                keys = keys.push(key);
            }
        }
        proof {
            lemma_coords_of_active_keys(self.active_chunks@, keys, coords@);
        }
        coords
    }

    /// Leaves the endless terrain: every built chunk is dropped. Returns the
    /// dropped chunks, each once.
    pub fn clear_chunks(&mut self) -> (dropped: Vec<ChunkCoord>)
        ensures
            dropped@.no_duplicates(),
            dropped@.to_set() == old(self)@.dom(),
            final(self)@ == Map::<ChunkCoord, ActiveChunk>::empty(),
            final(self).terrain_epoch == old(self).terrain_epoch,
    {
        let dropped = self.active_coords();
        self.active_chunks.clear();
        assert(self@ =~= Map::<ChunkCoord, ActiveChunk>::empty());
        dropped
    }

    /// Plans a frame of the endless terrain around the viewer, given the
    /// chunks the viewer should see, nearest first: the built chunks that are
    /// no longer desired are dropped, and then the desired chunks are built
    /// or rebuilt in order, while the frame's budget of builds lasts. The
    /// state records every chunk as built from what the plan builds it from.
    pub fn plan_frame(&mut self, desired: &Vec<DesiredChunk>) -> (plan: ChunkPlan)
        ensures
            plan.despawn@.no_duplicates(),
            plan.despawn@.to_set() == old(self)@.dom().difference(desired_coords(desired@)),
            ({
                let (builds, active) = plan_upto(
                    desired@,
                    old(self)@.restrict(desired_coords(desired@)),
                    old(self).terrain_epoch,
                    CHUNK_BUILD_BUDGET_PER_FRAME as nat,
                    desired@.len(),
                );
                &&& plan.builds@ == builds
                &&& final(self)@ == active
            }),
            plan.builds@.len() <= CHUNK_BUILD_BUDGET_PER_FRAME,
            final(self)@.dom().subset_of(desired_coords(desired@)),
            final(self).terrain_epoch == old(self).terrain_epoch,
    {
        let ghost start = self@;
        let ghost wanted = desired_coords(desired@);
        let active = self.active_coords();
        let mut despawn: Vec<ChunkCoord> = Vec::new();
        let mut j: usize = 0;
        while j < active.len()
            invariant
                j <= active.len(),
                self@ == start,
                wanted == desired_coords(desired@),
                active@.no_duplicates(),
                active@.to_set() == start.dom(),
                despawn@.no_duplicates(),
                forall|c: ChunkCoord| #[trigger] despawn@.contains(c) <==> active@.take(j as int).contains(c) && !wanted.contains(c),
            decreases active.len() - j,
        {
            let coord = active[j];
            proof {
                assert(active@.take(j + 1) =~= active@.take(j as int).push(coord));
                assert(!active@.take(j as int).contains(coord));
            }
            let ghost before = despawn@;
            if !is_desired(desired, coord) {
                despawn.push(coord);
            }
            proof {
                broadcast use vstd::seq_lib::group_seq_properties;

                assert(before.contains(coord) ==> active@.take(j as int).contains(coord));
                assert forall|c: ChunkCoord| #[trigger] despawn@.contains(c) <==> active@.take(j + 1).contains(c)
                    && !wanted.contains(c) by {
                    assert(before.contains(c) <==> active@.take(j as int).contains(c) && !wanted.contains(c));
                }
            }
            j += 1;
        }
        proof {
            assert(active@.take(active@.len() as int) =~= active@);
            assert(despawn@.to_set() =~= start.dom().difference(wanted));
        }
        let mut k: usize = 0;
        while k < despawn.len()
            invariant
                k <= despawn.len(),
                despawn@.no_duplicates(),
                despawn@.to_set() == start.dom().difference(wanted),
                self@ == start.remove_keys(despawn@.take(k as int).to_set()),
                self.terrain_epoch == old(self).terrain_epoch,
            decreases despawn.len() - k,
        {
            let coord = despawn[k];
            proof {
                lemma_take_to_set_step(despawn@, k as int);
            }
            self.remove_active(coord);
            k += 1;
        }
        proof {
            assert(despawn@.take(despawn@.len() as int) =~= despawn@);
            assert(self@ =~= start.restrict(wanted));
        }
        let ghost initial = self@;
        let epoch = self.terrain_epoch;
        let mut builds: Vec<ChunkBuild> = Vec::new();
        let mut i: usize = 0;
        while i < desired.len()
            invariant
                i <= desired.len(),
                epoch == self.terrain_epoch,
                epoch == old(self).terrain_epoch,
                initial == start.restrict(wanted),
                builds@ == plan_upto(desired@, initial, epoch, CHUNK_BUILD_BUDGET_PER_FRAME as nat, i as nat).0,
                self@ == plan_upto(desired@, initial, epoch, CHUNK_BUILD_BUDGET_PER_FRAME as nat, i as nat).1,
            decreases desired.len() - i,
        {
            proof {
                lemma_plan_within_budget(desired@, initial, epoch, CHUNK_BUILD_BUDGET_PER_FRAME as nat, i as nat);
            }
            let chunk = desired[i];
            if builds.len() < CHUNK_BUILD_BUDGET_PER_FRAME {
                match self.get_active(chunk.coord) {
                    Some(built) => {
                        if built.level_of_detail != chunk.level_of_detail || built.terrain_epoch != epoch {
                            builds.push(ChunkBuild::Rebuild(chunk));
                            self.insert_active(
                                chunk.coord,
                                ActiveChunk { level_of_detail: chunk.level_of_detail, terrain_epoch: epoch },
                            );
                        }
                    },
                    None => {
                        builds.push(ChunkBuild::Spawn(chunk));
                        self.insert_active(
                            chunk.coord,
                            ActiveChunk { level_of_detail: chunk.level_of_detail, terrain_epoch: epoch },
                        );
                    },
                }
            }
            i += 1;
        }
        proof {
            lemma_plan_within_budget(desired@, initial, epoch, CHUNK_BUILD_BUDGET_PER_FRAME as nat, desired@.len());
            lemma_plan_keeps_desired(desired@, initial, epoch, CHUNK_BUILD_BUDGET_PER_FRAME as nat, desired@.len());
        }
        ChunkPlan { despawn, builds }
    }
}

impl Default for EndlessTerrainState {
    fn default() -> (state: Self)
        ensures
            state@ == Map::<ChunkCoord, ActiveChunk>::empty(),
            state.terrain_epoch == 0,
    {
        Self::new()
    }
}

proof fn lemma_coords_of_active_keys(chunks: Map<u64, ActiveChunk>, keys: Seq<u64>, coords: Seq<ChunkCoord>)
    requires
        keys.to_set() == chunks.dom(),
        keys.no_duplicates(),
        coords.len() == keys.len(),
        forall|i: int| 0 <= i < coords.len() ==> #[trigger] coords[i] == chunk_of_key(keys[i]),
    ensures
        coords.no_duplicates(),
        coords.to_set() == active_view(chunks).dom(),
{
    assert forall|i: int, j: int| 0 <= i < coords.len() && 0 <= j < coords.len() && i != j implies coords[i] != coords[j] by {
        lemma_chunk_key_bijective(coords[i], keys[i]);
        lemma_chunk_key_bijective(coords[j], keys[j]);
    }
    assert forall|c: ChunkCoord| coords.to_set().contains(c) <==> active_view(chunks).dom().contains(c) by {
        lemma_chunk_key_bijective(c, chunk_key(c));
        if coords.to_set().contains(c) {
            let i = choose|i: int| 0 <= i < coords.len() && coords[i] == c;
            lemma_chunk_key_bijective(c, keys[i]);
            assert(keys.to_set().contains(keys[i]));
        }
        if active_view(chunks).dom().contains(c) {
            assert(keys.to_set().contains(chunk_key(c)));
            let i = choose|i: int| 0 <= i < keys.len() && keys[i] == chunk_key(c);
            assert(coords[i] == c);
        }
    }
    assert(coords.to_set() =~= active_view(chunks).dom());
}

} // verus!
