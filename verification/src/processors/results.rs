//! The average damage against each save.
use super::exact::plus;
use vstd::prelude::*;
use vstd::std_specs::convert::FromSpecImpl;

verus! {

/// What every average is counted in: an average is its number divided by this one. Every
/// average of a weapon is a whole number of such parts.
pub const AVERAGE_DENOMINATOR: i128 = 286_654_464;

/// An average damage against a save. The value counts parts of `AVERAGE_DENOMINATOR`.
#[derive(Debug, Clone, Copy, PartialEq, Eq, Structural)]
pub struct SaveResult {
    pub save: u32,
    pub value: i128,
}

impl SaveResult {
    pub fn new(save: u32, value: i128) -> (r: Self)
        ensures
            r == (SaveResult { save, value }),
    {
        Self { save, value }
    }

    /// No damage against the save.
    pub fn initial(save: u32) -> (r: Self)
        ensures
            r == (SaveResult { save, value: 0 }),
    {
        Self { save, value: 0 }
    }
}

/// The average damage against the saves from one to seven, in that order. A save of
/// seven stands for no save at all.
#[derive(Debug, Clone, Copy, PartialEq, Eq)]
pub struct ProcessorResults {
    pub save_results: [SaveResult; 7],
}

impl ProcessorResults {
    /// The saves are one to seven, in order.
    pub open spec fn has_saves(&self) -> bool {
        forall|i: int| 0 <= i < 7 ==> (#[trigger] self.save_results@[i]).save == i + 1
    }

    /// The value against a save, or zero for a save that is not among the results.
    pub open spec fn value_for(&self, save: int) -> int {
        if 1 <= save <= 7 {
            self.save_results@[save - 1].value as int
        } else {
            0
        }
    }

    /// No damage against any save.
    pub fn new() -> (r: Self)
        ensures
            r.has_saves(),
            forall|i: int| 0 <= i < 7 ==> (#[trigger] r.save_results@[i]).value == 0,
    {
        Self {
            save_results: [
                SaveResult::initial(1),
                SaveResult::initial(2),
                SaveResult::initial(3),
                SaveResult::initial(4),
                SaveResult::initial(5),
                SaveResult::initial(6),
                SaveResult::initial(7),
            ],
        }
    }

    /// Adds to the value of each result for the given save.
    pub fn add(&mut self, save: u32, addition: i128)
        requires
            forall|i: int|
                0 <= i < 7 && (#[trigger] old(self).save_results@[i]).save == save
                    ==> i128::MIN <= old(self).save_results@[i].value + addition <= i128::MAX,
        ensures
            forall|i: int|
                0 <= i < 7 ==> #[trigger] final(self).save_results@[i] == (SaveResult {
                    save: old(self).save_results@[i].save,
                    value: if old(self).save_results@[i].save == save {
                        (old(self).save_results@[i].value + addition) as i128
                    } else {
                        old(self).save_results@[i].value
                    },
                }),
    {
        let mut i: usize = 0;
        while i < 7
            invariant
                i <= 7,
                forall|j: int|
                    0 <= j < 7 && (#[trigger] old(self).save_results@[j]).save == save
                        ==> i128::MIN <= old(self).save_results@[j].value + addition <= i128::MAX,
                forall|j: int|
                    i <= j < 7 ==> #[trigger] self.save_results@[j] == old(self).save_results@[j],
                forall|j: int|
                    0 <= j < i ==> #[trigger] self.save_results@[j] == (SaveResult {
                        save: old(self).save_results@[j].save,
                        value: if old(self).save_results@[j].save == save {
                            (old(self).save_results@[j].value + addition) as i128
                        } else {
                            old(self).save_results@[j].value
                        },
                    }),
            decreases 7 - i,
        {
            let result = self.save_results[i];
            if result.save == save {
                self.save_results[i] = SaveResult::new(result.save, result.value + addition);
            }
            i = i + 1;
        }
    }

    /// Adds to the value of every result.
    pub fn add_all(&mut self, addition: i128)
        requires
            forall|i: int|
                0 <= i < 7 ==> i128::MIN <= (#[trigger] old(self).save_results@[i]).value
                    + addition <= i128::MAX,
        ensures
            forall|i: int|
                0 <= i < 7 ==> #[trigger] final(self).save_results@[i] == (SaveResult {
                    save: old(self).save_results@[i].save,
                    value: (old(self).save_results@[i].value + addition) as i128,
                }),
    {
        let mut i: usize = 0;
        while i < 7
            invariant
                i <= 7,
                forall|j: int|
                    0 <= j < 7 ==> i128::MIN <= (#[trigger] old(self).save_results@[j]).value
                        + addition <= i128::MAX,
                forall|j: int|
                    i <= j < 7 ==> #[trigger] self.save_results@[j] == old(self).save_results@[j],
                forall|j: int|
                    0 <= j < i ==> #[trigger] self.save_results@[j] == (SaveResult {
                        save: old(self).save_results@[j].save,
                        value: (old(self).save_results@[j].value + addition) as i128,
                    }),
            decreases 7 - i,
        {
            let result = self.save_results[i];
            self.save_results[i] = SaveResult::new(result.save, result.value + addition);
            i = i + 1;
        }
    }

    /// The value against a save of two results that are merged: the sum of their values.
    pub open spec fn merged_value(&self, other: &ProcessorResults, save: int) -> int {
        self.value_for(save) + other.value_for(save)
    }

    /// Merging results comes to the same in any order and in any grouping, save by save.
    pub proof fn lemma_merge_order(
        a: ProcessorResults,
        b: ProcessorResults,
        c: ProcessorResults,
        save: int,
    )
        ensures
            a.merged_value(&b, save) == b.merged_value(&a, save),
            a.merged_value(&b, save) + c.value_for(save) == a.value_for(save) + b.merged_value(
                &c,
                save,
            ),
    {
    }

    /// Whether the values of two results can be added up, place by place.
    pub open spec fn can_merge(&self, other: &ProcessorResults) -> bool {
        forall|i: int|
            0 <= i < 7 ==> i128::MIN <= (#[trigger] self.save_results@[i]).value
                + other.save_results@[i].value <= i128::MAX
    }

    /// The results with the values of other results added, place by place, or nothing
    /// where a sum leaves 128 bits.
    pub fn checked_merge(&self, other: &ProcessorResults) -> (r: Option<ProcessorResults>)
        ensures
            r is Some <==> self.can_merge(other),
            r matches Some(merged) ==> forall|i: int|
                0 <= i < 7 ==> #[trigger] merged.save_results@[i] == (SaveResult {
                    save: self.save_results@[i].save,
                    value: (self.save_results@[i].value + other.save_results@[i].value) as i128,
                }),
    {
        let mut merged = *self;
        let mut i: usize = 0;
        while i < 7
            invariant
                i <= 7,
                forall|j: int|
                    0 <= j < i ==> i128::MIN <= (#[trigger] self.save_results@[j]).value
                        + other.save_results@[j].value <= i128::MAX,
                forall|j: int|
                    i <= j < 7 ==> #[trigger] merged.save_results@[j] == self.save_results@[j],
                forall|j: int|
                    0 <= j < i ==> #[trigger] merged.save_results@[j] == (SaveResult {
                        save: self.save_results@[j].save,
                        value: (self.save_results@[j].value + other.save_results@[j].value) as i128,
                    }),
            decreases 7 - i,
        {
            let result = self.save_results[i];
            let value = match plus(result.value, other.save_results[i].value) {
                Some(value) => value,
                None => {
                    assert(!(i128::MIN <= self.save_results@[i as int].value
                        + other.save_results@[i as int].value <= i128::MAX));
                    return None;
                },
            };
            merged.save_results[i] = SaveResult::new(result.save, value);
            i = i + 1;
        }
        Some(merged)
    }

    /// Adds the values of other results to those of `self`, place by place.
    pub fn merge(&mut self, other: ProcessorResults)
        requires
            old(self).can_merge(&other),
        ensures
            forall|save: int|
                1 <= save <= 7 ==> #[trigger] final(self).value_for(save) == old(
                    self,
                ).merged_value(&other, save),
            forall|i: int|
                0 <= i < 7 ==> #[trigger] final(self).save_results@[i] == (SaveResult {
                    save: old(self).save_results@[i].save,
                    value: (old(self).save_results@[i].value
                        + other.save_results@[i].value) as i128,
                }),
    {
        let mut i: usize = 0;
        while i < 7
            invariant
                i <= 7,
                old(self).can_merge(&other),
                forall|j: int|
                    i <= j < 7 ==> #[trigger] self.save_results@[j] == old(self).save_results@[j],
                forall|j: int|
                    0 <= j < i ==> #[trigger] self.save_results@[j] == (SaveResult {
                        save: old(self).save_results@[j].save,
                        value: (old(self).save_results@[j].value
                            + other.save_results@[j].value) as i128,
                    }),
            decreases 7 - i,
        {
            let result = self.save_results[i];
            assert(old(self).save_results@[i as int] == result);
            self.save_results[i] = SaveResult::new(
                result.save,
                result.value + other.save_results[i].value,
            );
            i = i + 1;
        }
    }
}

impl Default for ProcessorResults {
    fn default() -> (r: Self)
        ensures
            r.has_saves(),
            forall|i: int| 0 <= i < 7 ==> (#[trigger] r.save_results@[i]).value == 0,
    {
        Self::new()
    }
}

impl From<[SaveResult; 7]> for ProcessorResults {
    fn from(save_results: [SaveResult; 7]) -> (r: Self) {
        Self { save_results }
    }
}

impl FromSpecImpl<[SaveResult; 7]> for ProcessorResults {
    open spec fn obeys_from_spec() -> bool {
        true
    }

    open spec fn from_spec(save_results: [SaveResult; 7]) -> Self {
        ProcessorResults { save_results }
    }
}

impl core::ops::AddAssign<ProcessorResults> for ProcessorResults {
    fn add_assign(&mut self, rhs: ProcessorResults)
        requires
            old(self).can_merge(&rhs),
        ensures
            forall|i: int|
                0 <= i < 7 ==> #[trigger] final(self).save_results@[i] == (SaveResult {
                    save: old(self).save_results@[i].save,
                    value: (old(self).save_results@[i].value + rhs.save_results@[i].value) as i128,
                }),
    {
        self.merge(rhs);
    }
}

} // verus!
