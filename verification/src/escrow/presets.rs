//! Saved filter presets: a user names a search filter and sort, and runs
//! the search again later by the preset's id.
use vstd::prelude::*;
use crate::types::{
    is_copy_of_preset, Address, FilterPreset, SortCriterion, TradeFilter, TradeSearchPage,
    MAX_PRESETS_PER_USER, PRESET_NAME_MAX_LEN,
};
use crate::errors::ContractError;
use crate::operations::{step, EscrowOp};
use crate::escrow::{copy_bytes, Escrow, EscrowModel};
use crate::ordering::{lemma_positions_where, positions_where};
use crate::queries::{search_error, Query};

verus! {

impl EscrowModel {
    /// Whether preset `id` exists and has not been deleted.
    pub open spec fn has_preset(self, id: u64) -> bool {
        1 <= id <= self.presets.len() && self.presets[id - 1] is Some
    }

    /// Preset `id`.
    pub open spec fn preset(self, id: u64) -> FilterPreset {
        self.presets[id - 1]->0
    }

    /// The positions of the presets of `owner`, in the order they were saved.
    pub open spec fn presets_of(self, owner: Address) -> Seq<usize> {
        positions_where(
            self.presets.len(),
            |p: int| self.presets[p] is Some && self.presets[p]->0.owner == owner,
        )
    }
}

/// Why `save_filter_preset` refuses, if it does.
pub open spec fn save_preset_error(m: EscrowModel, owner: Address, name: Seq<u8>) -> Option<
    ContractError,
> {
    if name.len() > PRESET_NAME_MAX_LEN {
        Some(ContractError::PresetNameTooLong)
    } else if m.presets_of(owner).len() >= MAX_PRESETS_PER_USER {
        Some(ContractError::TooManyPresets)
    } else {
        None
    }
}

/// The state after `save_filter_preset` succeeds: the preset is stored as
/// the next one.
pub open spec fn after_save_preset(
    m: EscrowModel,
    owner: Address,
    name: Vec<u8>,
    filter: TradeFilter,
    sort: SortCriterion,
    ledger: u32,
) -> EscrowModel {
    EscrowModel {
        presets: m.presets.push(
            Some(
                FilterPreset {
                    id: (m.presets.len() + 1) as u64,
                    owner,
                    name,
                    filter,
                    sort,
                    created_at: ledger,
                    updated_at: ledger,
                },
            ),
        ),
        ..m
    }
}

/// The state after `update_filter_preset` succeeds.
pub open spec fn after_update_preset(
    m: EscrowModel,
    id: u64,
    name: Vec<u8>,
    filter: TradeFilter,
    sort: SortCriterion,
    ledger: u32,
) -> EscrowModel {
    EscrowModel {
        presets: m.presets.update(
            id - 1,
            Some(FilterPreset { name, filter, sort, updated_at: ledger, ..m.preset(id) }),
        ),
        ..m
    }
}

/// The state after `delete_filter_preset` succeeds.
pub open spec fn after_delete_preset(m: EscrowModel, id: u64) -> EscrowModel {
    EscrowModel { presets: m.presets.update(id - 1, None), ..m }
}

/// Why a change of preset `id` by `owner` is refused, if it is.
pub open spec fn preset_access_error(m: EscrowModel, owner: Address, id: u64) -> Option<
    ContractError,
> {
    if !m.has_preset(id) {
        Some(ContractError::PresetNotFound)
    } else if m.preset(id).owner != owner {
        Some(ContractError::Unauthorized)
    } else {
        None
    }
}

fn copy_preset(p: &FilterPreset) -> (r: FilterPreset)
    ensures
        is_copy_of_preset(r, *p),
{
    FilterPreset {
        id: p.id,
        owner: p.owner,
        name: copy_bytes(&p.name),
        filter: p.filter,
        sort: p.sort,
        created_at: p.created_at,
        updated_at: p.updated_at,
    }
}

impl Escrow {
    /// The positions of the presets of `owner`, in the order they were saved.
    fn preset_positions(&self, owner: Address) -> (sel: Vec<usize>)
        requires
            self.wf(),
        ensures
            sel@ == self@.presets_of(owner),
    {
        let ghost m = self@;
        let mut sel: Vec<usize> = Vec::new();
        let mut i: usize = 0;
        while i < self.presets.len()
            invariant
                i <= self.presets@.len(),
                m == self@,
                sel@ == positions_where(
                    i as nat,
                    |p: int| m.presets[p] is Some && m.presets[p]->0.owner == owner,
                ),
            decreases self.presets@.len() - i,
        {
            match &self.presets[i] {
                Some(p) => {
                    if p.owner == owner {
                        sel.push(i);
                    }
                },
                None => {},
            }
            i = i + 1;
        }
        sel
    }

    /// Saves a named search as a new preset of `owner`, with `ledger` as
    /// its creation time, and returns its id: one more than the number of
    /// presets saved so far.
    pub fn save_filter_preset(
        &mut self,
        owner: Address,
        name: Vec<u8>,
        filter: TradeFilter,
        sort: SortCriterion,
        ledger: u32,
    ) -> (r: Result<u64, ContractError>)
        requires
            old(self).wf(),
            old(self)@.presets.len() < u32::MAX,
        ensures
            final(self).wf(),
            final(self)@ == step(old(self)@, EscrowOp::SavePreset(owner, name, filter, sort, ledger)),
            match save_preset_error(old(self)@, owner, name@) {
                Some(e) => r == Err::<u64, ContractError>(e) && final(self)@ == old(self)@,
                None => {
                    &&& r == Ok::<u64, ContractError>((old(self)@.presets.len() + 1) as u64)
                    &&& final(self)@ == after_save_preset(old(self)@, owner, name, filter, sort, ledger)
                },
            },
    {
        if name.len() > PRESET_NAME_MAX_LEN as usize {
            return Err(ContractError::PresetNameTooLong);
        }
        let mine = self.preset_positions(owner);
        if mine.len() >= MAX_PRESETS_PER_USER as usize {
            return Err(ContractError::TooManyPresets);
        }
        let id: u64 = (self.presets.len() + 1) as u64;
        self.presets.push(
            Some(
                FilterPreset {
                    id,
                    owner,
                    name,
                    filter,
                    sort,
                    created_at: ledger,
                    updated_at: ledger,
                },
            ),
        );
        Ok(id)
    }

    /// A copy of preset `id`.
    pub fn get_filter_preset(&self, id: u64) -> (r: Result<FilterPreset, ContractError>)
        requires
            self.wf(),
        ensures
            self@.has_preset(id) <==> r is Ok,
            r is Err ==> r == Err::<FilterPreset, ContractError>(ContractError::PresetNotFound),
            r matches Ok(p) ==> is_copy_of_preset(p, self@.preset(id)),
    {
        if id == 0 || id > self.presets.len() as u64 {
            return Err(ContractError::PresetNotFound);
        }
        match &self.presets[(id - 1) as usize] {
            Some(p) => Ok(copy_preset(p)),
            None => Err(ContractError::PresetNotFound),
        }
    }

    /// Copies of the presets of `owner`, in the order they were saved.
    pub fn list_filter_presets(&self, owner: Address) -> (r: Vec<FilterPreset>)
        requires
            self.wf(),
        ensures
            r@.len() == self@.presets_of(owner).len(),
            forall|k: int|
                0 <= k < r@.len() ==> is_copy_of_preset(
                    #[trigger] r@[k],
                    self@.presets[self@.presets_of(owner)[k] as int]->0,
                ),
    {
        let mine = self.preset_positions(owner);
        proof {
            let m = self@;
            lemma_positions_where(
                m.presets.len(),
                |p: int| m.presets[p] is Some && m.presets[p]->0.owner == owner,
            );
            assert forall|j: int| 0 <= j < mine@.len() implies m.presets[#[trigger] mine@[j] as int] is Some by {
                assert(mine@.contains(mine@[j]));
            }
        }
        let mut r: Vec<FilterPreset> = Vec::new();
        let mut k: usize = 0;
        while k < mine.len()
            invariant
                k <= mine@.len(),
                mine@ == self@.presets_of(owner),
                r@.len() == k,
                forall|j: int| 0 <= j < mine@.len() ==> #[trigger] mine@[j] < self@.presets.len(),
                forall|j: int|
                    0 <= j < mine@.len() ==> self@.presets[#[trigger] mine@[j] as int] is Some,
                forall|j: int|
                    0 <= j < r@.len() ==> is_copy_of_preset(
                        #[trigger] r@[j],
                        self@.presets[mine@[j] as int]->0,
                    ),
            decreases mine@.len() - k,
        {
            let pos = mine[k];
            match &self.presets[pos] {
                Some(p) => {
                    r.push(copy_preset(p));
                },
                None => {
                    assert(false);
                },
            }
            k = k + 1;
        }
        r
    }

    /// Replaces the name, filter and sort of preset `id` of `owner`,
    /// recording `ledger` as the time of the change.
    pub fn update_filter_preset(
        &mut self,
        owner: Address,
        id: u64,
        name: Vec<u8>,
        filter: TradeFilter,
        sort: SortCriterion,
        ledger: u32,
    ) -> (r: Result<(), ContractError>)
        requires
            old(self).wf(),
        ensures
            final(self).wf(),
            final(self)@ == step(
                old(self)@,
                EscrowOp::UpdatePreset(owner, id, name, filter, sort, ledger),
            ),
            match preset_access_error(old(self)@, owner, id) {
                Some(e) => r == Err::<(), ContractError>(e) && final(self)@ == old(self)@,
                None => if name@.len() > PRESET_NAME_MAX_LEN {
                    r == Err::<(), ContractError>(ContractError::PresetNameTooLong) && final(self)@
                        == old(self)@
                } else {
                    &&& r is Ok
                    &&& final(self)@ == after_update_preset(old(self)@, id, name, filter, sort, ledger)
                },
            },
    {
        if id == 0 || id > self.presets.len() as u64 {
            return Err(ContractError::PresetNotFound);
        }
        let idx: usize = (id - 1) as usize;
        let (pid, powner, pcreated) = match &self.presets[idx] {
            Some(p) => (p.id, p.owner, p.created_at),
            None => {
                return Err(ContractError::PresetNotFound);
            },
        };
        if powner != owner {
            return Err(ContractError::Unauthorized);
        }
        if name.len() > PRESET_NAME_MAX_LEN as usize {
            return Err(ContractError::PresetNameTooLong);
        }
        let updated = FilterPreset {
            id: pid,
            owner: powner,
            name,
            filter,
            sort,
            created_at: pcreated,
            updated_at: ledger,
        };
        self.presets.set(idx, Some(updated));
        Ok(())
    }

    /// Deletes preset `id` of `owner`.
    pub fn delete_filter_preset(&mut self, owner: Address, id: u64) -> (r: Result<(), ContractError>)
        requires
            old(self).wf(),
        ensures
            final(self).wf(),
            final(self)@ == step(old(self)@, EscrowOp::DeletePreset(owner, id)),
            match preset_access_error(old(self)@, owner, id) {
                Some(e) => r == Err::<(), ContractError>(e) && final(self)@ == old(self)@,
                None => r is Ok && final(self)@ == after_delete_preset(old(self)@, id),
            },
    {
        if id == 0 || id > self.presets.len() as u64 {
            return Err(ContractError::PresetNotFound);
        }
        let idx: usize = (id - 1) as usize;
        let powner = match &self.presets[idx] {
            Some(p) => p.owner,
            None => {
                return Err(ContractError::PresetNotFound);
            },
        };
        if powner != owner {
            return Err(ContractError::Unauthorized);
        }
        self.presets.set(idx, None);
        Ok(())
    }

    /// Runs the search saved in preset `id`.
    pub fn search_with_preset(&self, id: u64, offset: u32, limit: u32) -> (r: Result<
        TradeSearchPage,
        ContractError,
    >)
        requires
            self.wf(),
        ensures
            !self@.has_preset(id) ==> r == Err::<TradeSearchPage, ContractError>(
                ContractError::PresetNotFound,
            ),
            self@.has_preset(id) ==> ({
                let f = self@.preset(id).filter;
                let s = self@.preset(id).sort;
                &&& search_error(f) matches Some(e) ==> r == Err::<TradeSearchPage, ContractError>(
                    e,
                )
                &&& search_error(f) is None ==> (r matches Ok(page) && self@.is_query_result(
                    page.records@,
                    page.total,
                    Query::Search(f),
                    s,
                    offset,
                    limit,
                ) && page.offset == offset && page.limit == limit)
            }),
    {
        if id == 0 || id > self.presets.len() as u64 {
            return Err(ContractError::PresetNotFound);
        }
        let (filter, sort) = match &self.presets[(id - 1) as usize] {
            Some(p) => (p.filter, p.sort),
            None => {
                return Err(ContractError::PresetNotFound);
            },
        };
        self.search_trades(&filter, &sort, offset, limit)
    }
}

} // verus!
