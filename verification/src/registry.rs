//! The registry of named datasets: saved pairs of an unknown and a known list.

use crate::card::{all_flagged, all_have_flag, clone_cards, Card, CardView};
use vstd::prelude::*;

verus! {

/// Mathematical model of a [`Dataset`].
pub struct DatasetView {
    pub name: Seq<char>,
    pub unknown: Seq<CardView>,
    pub known: Seq<CardView>,
}

impl DatasetView {
    /// The dataset has a name, no card of its unknown list is flagged known,
    /// and every card of its known list is.
    pub open spec fn wf(self) -> bool {
        &&& self.name.len() > 0
        &&& all_flagged(self.unknown, false)
        &&& all_flagged(self.known, true)
    }

    /// The dataset of that name without cards.
    pub open spec fn empty(name: Seq<char>) -> DatasetView {
        DatasetView { name, unknown: Seq::empty(), known: Seq::empty() }
    }
}

/// Some dataset of `datasets` is called `name`.
pub open spec fn has_name(datasets: Seq<DatasetView>, name: Seq<char>) -> bool {
    exists|i: int| 0 <= i < datasets.len() && (#[trigger] datasets[i]).name == name
}

/// No two datasets of `datasets` share a name.
pub open spec fn names_distinct(datasets: Seq<DatasetView>) -> bool {
    forall|i: int, j: int|
        0 <= i < j < datasets.len() ==> (#[trigger] datasets[i]).name != (
        #[trigger] datasets[j]).name
}

/// Names are distinct and every dataset is well formed.
pub open spec fn registry_wf(datasets: Seq<DatasetView>) -> bool {
    &&& names_distinct(datasets)
    &&& forall|i: int| 0 <= i < datasets.len() ==> (#[trigger] datasets[i]).wf()
}

/// A position at which `datasets` holds a dataset called `name`; the only one
/// when names are distinct.
pub open spec fn position_of(datasets: Seq<DatasetView>, name: Seq<char>) -> int {
    choose|i: int| 0 <= i < datasets.len() && (#[trigger] datasets[i]).name == name
}

/// `datasets` with the lists of the dataset called `name` replaced. Nothing
/// changes when there is no such dataset.
pub open spec fn stored(
    datasets: Seq<DatasetView>,
    name: Seq<char>,
    unknown: Seq<CardView>,
    known: Seq<CardView>,
) -> Seq<DatasetView> {
    Seq::new(
        datasets.len(),
        |i: int|
            if datasets[i].name == name {
                DatasetView { name, unknown, known }
            } else {
                datasets[i]
            },
    )
}

/// `datasets` without the dataset called `name`. Nothing changes when there
/// is no such dataset.
pub open spec fn without(datasets: Seq<DatasetView>, name: Seq<char>) -> Seq<DatasetView> {
    if has_name(datasets, name) {
        datasets.remove(position_of(datasets, name))
    } else {
        datasets
    }
}

/// Where names are distinct, a dataset called `name` sits at `position_of`.
pub proof fn lemma_position_unique(datasets: Seq<DatasetView>, name: Seq<char>, i: int)
    requires
        names_distinct(datasets),
        0 <= i < datasets.len(),
        datasets[i].name == name,
    ensures
        has_name(datasets, name),
        position_of(datasets, name) == i,
{
    let p = position_of(datasets, name);
    if p < i {
        assert(datasets[p].name != datasets[i].name);
    } else if i < p {
        assert(datasets[i].name != datasets[p].name);
    }
}

/// Replacing the lists of a named dataset by well-flagged lists keeps a
/// registry well formed, and keeps every name where it was.
pub proof fn lemma_stored_is_well_formed(
    datasets: Seq<DatasetView>,
    name: Seq<char>,
    unknown: Seq<CardView>,
    known: Seq<CardView>,
)
    requires
        registry_wf(datasets),
        all_flagged(unknown, false),
        all_flagged(known, true),
    ensures
        registry_wf(stored(datasets, name, unknown, known)),
        forall|i: int|
            0 <= i < datasets.len() ==> (#[trigger] stored(datasets, name, unknown, known)[i]).name
                == datasets[i].name,
{
    let after = stored(datasets, name, unknown, known);
    assert forall|i: int| 0 <= i < after.len() implies (#[trigger] after[i]).name
        == datasets[i].name && after[i].wf() by {
        assert(datasets[i].wf());
    }
    assert forall|i: int, j: int| 0 <= i < j < after.len() implies (#[trigger] after[i]).name != (
    #[trigger] after[j]).name by {
        assert(datasets[i].name != datasets[j].name);
    }
}

/// A named, saved pair of card lists.
#[derive(Debug, PartialEq, Eq)]
pub struct Dataset {
    pub name: String,
    pub unknown_cards: Vec<Card>,
    pub known_cards: Vec<Card>,
}

impl View for Dataset {
    type V = DatasetView;

    open spec fn view(&self) -> DatasetView {
        DatasetView {
            name: self.name@,
            unknown: self.unknown_cards.deep_view(),
            known: self.known_cards.deep_view(),
        }
    }
}

impl DeepView for Dataset {
    type V = DatasetView;

    open spec fn deep_view(&self) -> DatasetView {
        self.view()
    }
}

impl Clone for Dataset {
    fn clone(&self) -> (res: Dataset)
        ensures
            res@ == self@,
    {
        Dataset {
            name: self.name.clone(),
            unknown_cards: clone_cards(&self.unknown_cards),
            known_cards: clone_cards(&self.known_cards),
        }
    }
}

/// Why the registry refused an action.
#[derive(Clone, Copy, Debug, PartialEq, Eq, Structural)]
pub enum RegistryError {
    /// The name is empty or already taken.
    DuplicateName,
    /// No dataset has that name.
    NotFound,
}

/// The datasets, in the order in which they were created. Every value of this
/// type is well formed: every dataset has a name of its own, no dataset has
/// an empty name, and the cards of every list are flagged as the list says.
pub struct DatasetRegistry {
    datasets: Vec<Dataset>,
}

impl View for DatasetRegistry {
    type V = Seq<DatasetView>;

    closed spec fn view(&self) -> Seq<DatasetView> {
        self.datasets.deep_view()
    }
}

impl Clone for DatasetRegistry {
    fn clone(&self) -> (res: DatasetRegistry)
        ensures
            res@ == self@,
    {
        proof {
            use_type_invariant(self);
        }
        let mut datasets: Vec<Dataset> = Vec::new();
        let mut i: usize = 0;
        while i < self.datasets.len()
            invariant
                i <= self.datasets.len(),
                datasets.len() == i,
                forall|j: int| 0 <= j < i ==> datasets[j]@ == self.datasets[j]@,
            decreases self.datasets.len() - i,
        {
            datasets.push(self.datasets[i].clone());
            i += 1;
        }
        assert(datasets.deep_view() =~= self.datasets.deep_view());
        DatasetRegistry { datasets }
    }
}

impl DatasetRegistry {
    /// What holds of every value of this type.
    #[verifier::type_invariant]
    pub open spec fn well_formed(self) -> bool {
        registry_wf(self@)
    }

    /// A registry without datasets.
    pub fn new() -> (registry: DatasetRegistry)
        ensures
            registry@ == Seq::<DatasetView>::empty(),
            registry_wf(registry@),
    {
        let datasets: Vec<Dataset> = Vec::new();
        assert(datasets.deep_view() =~= Seq::<DatasetView>::empty());
        DatasetRegistry { datasets }
    }

    /// A registry of the given datasets, when they fit together: every name is
    /// non-empty and used once, and the cards of every list are flagged as the
    /// list says.
    pub fn from_datasets(datasets: Vec<Dataset>) -> (res: Option<DatasetRegistry>)
        ensures
            match res {
                Some(registry) => registry_wf(datasets.deep_view()) && registry@
                    == datasets.deep_view(),
                None => !registry_wf(datasets.deep_view()),
            },
    {
        let ghost all = datasets.deep_view();
        let mut i: usize = 0;
        while i < datasets.len()
            invariant
                i <= datasets.len(),
                all == datasets.deep_view(),
                forall|a: int, b: int|
                    0 <= a < b < i ==> (#[trigger] all[a]).name != (#[trigger] all[b]).name,
                forall|a: int| 0 <= a < i ==> (#[trigger] all[a]).wf(),
            decreases datasets.len() - i,
        {
            let dataset = &datasets[i];
            assert(dataset@ == all[i as int]);
            if dataset.name.as_str().is_empty() || !all_have_flag(&dataset.unknown_cards, false)
                || !all_have_flag(&dataset.known_cards, true) {
                assert(!all[i as int].wf());
                return None;
            }
            let mut j: usize = 0;
            while j < i
                invariant
                    j <= i < datasets.len(),
                    all == datasets.deep_view(),
                    dataset@ == all[i as int],
                    forall|a: int| 0 <= a < j ==> (#[trigger] all[a]).name != all[i as int].name,
                decreases i - j,
            {
                assert(datasets[j as int]@ == all[j as int]);
                if datasets[j].name == dataset.name {
                    assert(all[j as int].name == all[i as int].name);
                    return None;
                }
                j += 1;
            }
            i += 1;
        }
        Some(DatasetRegistry { datasets })
    }

    /// Takes the datasets out and leaves an empty registry in their place.
    fn take(&mut self) -> (datasets: Vec<Dataset>)
        ensures
            datasets.deep_view() == old(self)@,
            registry_wf(old(self)@),
    {
        proof {
            use_type_invariant(&*self);
        }
        let mut taken = DatasetRegistry::new();
        core::mem::swap(self, &mut taken);
        let DatasetRegistry { datasets } = taken;
        datasets
    }

    /// The datasets, in the order in which they were created.
    pub fn datasets(&self) -> (datasets: &Vec<Dataset>)
        ensures
            datasets.deep_view() == self@,
            registry_wf(self@),
    {
        proof {
            use_type_invariant(self);
        }
        &self.datasets
    }

    /// How many datasets there are.
    pub fn len(&self) -> (len: usize)
        ensures
            len == self@.len(),
    {
        self.datasets.len()
    }

    /// Where the dataset called `name` sits, if there is one.
    pub fn position(&self, name: &str) -> (res: Option<usize>)
        ensures
            match res {
                Some(i) => has_name(self@, name@) && i == position_of(self@, name@),
                None => !has_name(self@, name@),
            },
    {
        proof {
            use_type_invariant(self);
        }
        find_by_name(&self.datasets, name)
    }

    /// Whether some dataset is called `name`.
    pub fn contains(&self, name: &str) -> (res: bool)
        ensures
            res == has_name(self@, name@),
    {
        self.position(name).is_some()
    }

    /// The dataset called `name`, if there is one.
    pub fn get(&self, name: &str) -> (res: Option<&Dataset>)
        ensures
            match res {
                Some(dataset) => has_name(self@, name@) && dataset@ == self@[position_of(
                    self@,
                    name@,
                )] && dataset@.wf(),
                None => !has_name(self@, name@),
            },
    {
        proof {
            use_type_invariant(self);
        }
        match self.position(name) {
            Some(i) => {
                assert(self.datasets[i as int]@ == self@[i as int]);
                Some(&self.datasets[i])
            },
            None => None,
        }
    }

    /// Appends an empty dataset called `name`. Refuses an empty name and a
    /// name that is taken, and then changes nothing.
    pub fn create(&mut self, name: String) -> (res: Result<(), RegistryError>)
        ensures
            match res {
                Ok(_) => name@.len() > 0 && !has_name(old(self)@, name@) && final(self)@ == old(
                    self,
                )@.push(DatasetView::empty(name@)),
                Err(e) => e == RegistryError::DuplicateName && (name@.len() == 0 || has_name(
                    old(self)@,
                    name@,
                )) && final(self)@ == old(self)@,
            },
            registry_wf(final(self)@),
    {
        proof {
            use_type_invariant(&*self);
        }
        if name.as_str().is_empty() || self.contains(name.as_str()) {
            return Err(RegistryError::DuplicateName);
        }
        let dataset = Dataset { name, unknown_cards: Vec::new(), known_cards: Vec::new() };
        assert(dataset@ == DatasetView::empty(name@)) by {
            assert(dataset@.unknown =~= Seq::empty());
            assert(dataset@.known =~= Seq::empty());
        }
        let mut datasets = self.take();
        datasets.push(dataset);
        let ghost after = datasets.deep_view();
        assert(after =~= old(self)@.push(DatasetView::empty(name@)));
        assert(names_distinct(after)) by {
            assert forall|i: int, j: int| 0 <= i < j < after.len() implies (#[trigger] after[i]).name
                != (#[trigger] after[j]).name by {
                if j == after.len() - 1 {
                    assert(old(self)@[i].name != name@);
                }
            }
        }
        *self = DatasetRegistry { datasets };
        Ok(())
    }

    /// Drops the dataset called `name`, and says whether there was one.
    pub fn remove(&mut self, name: &str) -> (removed: bool)
        ensures
            removed == has_name(old(self)@, name@),
            final(self)@ == without(old(self)@, name@),
            !has_name(final(self)@, name@),
            registry_wf(final(self)@),
    {
        proof {
            use_type_invariant(&*self);
        }
        match self.position(name) {
            Some(i) => {
                let mut datasets = self.take();
                let _ = datasets.remove(i);
                let ghost after = datasets.deep_view();
                assert(after =~= old(self)@.remove(i as int));
                assert(!has_name(after, name@)) by {
                    if has_name(after, name@) {
                        let p = position_of(after, name@);
                        if p < i {
                            assert(old(self)@[p].name == name@);
                        } else {
                            assert(old(self)@[p + 1].name == name@);
                        }
                    }
                }
                *self = DatasetRegistry { datasets };
                true
            },
            None => false,
        }
    }

    /// Replaces the lists of the dataset called `name`, and says whether there
    /// was one. Does nothing, and says that there was none, when a card of
    /// `unknown` is flagged known or a card of `known` is not.
    pub fn store(&mut self, name: &str, unknown: Vec<Card>, known: Vec<Card>) -> (found: bool)
        ensures
            found == (has_name(old(self)@, name@) && all_flagged(unknown.deep_view(), false)
                && all_flagged(known.deep_view(), true)),
            final(self)@ == if found {
                stored(old(self)@, name@, unknown.deep_view(), known.deep_view())
            } else {
                old(self)@
            },
            registry_wf(final(self)@),
    {
        proof {
            use_type_invariant(&*self);
        }
        if !all_have_flag(&unknown, false) || !all_have_flag(&known, true) {
            return false;
        }
        match self.position(name) {
            Some(i) => {
                let dataset = Dataset {
                    name: name.to_owned(),
                    unknown_cards: unknown,
                    known_cards: known,
                };
                let mut datasets = self.take();
                datasets.set(i, dataset);
                let ghost after = datasets.deep_view();
                let ghost expected = stored(
                    old(self)@,
                    name@,
                    unknown.deep_view(),
                    known.deep_view(),
                );
                assert(after =~= expected) by {
                    assert forall|k: int| 0 <= k < after.len() implies after[k] == expected[k] by {
                        if k != i {
                            if old(self)@[k].name == name@ {
                                lemma_position_unique(old(self)@, name@, k);
                            }
                        }
                    }
                }
                proof {
                    lemma_stored_is_well_formed(
                        old(self)@,
                        name@,
                        unknown.deep_view(),
                        known.deep_view(),
                    );
                }
                *self = DatasetRegistry { datasets };
                true
            },
            None => false,
        }
    }
}

/// Where the dataset called `name` sits in `datasets`, if there is one.
fn find_by_name(datasets: &Vec<Dataset>, name: &str) -> (res: Option<usize>)
    requires
        names_distinct(datasets.deep_view()),
    ensures
        match res {
            Some(i) => has_name(datasets.deep_view(), name@) && i == position_of(
                datasets.deep_view(),
                name@,
            ),
            None => !has_name(datasets.deep_view(), name@),
        },
{
    let ghost all = datasets.deep_view();
    let key = name.to_owned();
    let mut i: usize = 0;
    while i < datasets.len()
        invariant
            i <= datasets.len(),
            key@ == name@,
            all == datasets.deep_view(),
            names_distinct(all),
            forall|a: int| 0 <= a < i ==> (#[trigger] all[a]).name != name@,
        decreases datasets.len() - i,
    {
        assert(datasets[i as int]@ == all[i as int]);
        if datasets[i].name == key {
            proof {
                lemma_position_unique(all, name@, i as int);
            }
            return Some(i);
        }
        i += 1;
    }
    None
}

} // verus!
