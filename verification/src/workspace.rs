//! The workspace: the live session, the registry of datasets, and the name of
//! the dataset being worked on. Every change to the cards of the live session
//! is written through to that dataset.

use crate::card::{clone_cards, Card};
use crate::codec::parsed;
use crate::registry::{
    has_name, lemma_position_unique, lemma_stored_is_well_formed, position_of, registry_wf,
    stored, without, Dataset, DatasetRegistry, DatasetView, RegistryError,
};
use crate::order::is_permutation;
use crate::session::{RevealStage, SessionState, SessionView, StudyDirection};
use vstd::prelude::*;

verus! {

/// Mathematical model of a [`Workspace`]. An empty `current` means that no
/// dataset is selected.
pub struct WorkspaceView {
    pub session: SessionView,
    pub datasets: Seq<DatasetView>,
    pub current: Seq<char>,
}

impl WorkspaceView {
    /// A dataset is selected.
    pub open spec fn active(self) -> bool {
        self.current.len() > 0
    }

    /// The session and the registry are well formed, and the selected
    /// dataset, if any, is in the registry.
    pub open spec fn consistent(self) -> bool {
        &&& self.session.wf()
        &&& registry_wf(self.datasets)
        &&& self.active() ==> has_name(self.datasets, self.current)
    }

    /// The selected dataset, if any, holds the lists of the live session.
    pub open spec fn saved(self) -> bool {
        self.active() ==> {
            let dataset = self.datasets[position_of(self.datasets, self.current)];
            dataset.unknown == self.session.unknown && dataset.known == self.session.known
        }
    }

    /// Consistent and saved.
    pub open spec fn wf(self) -> bool {
        self.consistent() && self.saved()
    }

    /// No cards, no datasets, nothing selected.
    pub open spec fn empty() -> WorkspaceView {
        WorkspaceView {
            session: SessionView::empty(),
            datasets: Seq::empty(),
            current: Seq::empty(),
        }
    }

    /// The same workspace around another session.
    pub open spec fn with_session(self, session: SessionView) -> WorkspaceView {
        WorkspaceView { session, ..self }
    }

    /// The lists of the live session written to the selected dataset, if any.
    pub open spec fn synced(self) -> WorkspaceView {
        if self.active() {
            WorkspaceView {
                datasets: stored(
                    self.datasets,
                    self.current,
                    self.session.unknown,
                    self.session.known,
                ),
                ..self
            }
        } else {
            self
        }
    }

    /// The session replaced and written through.
    pub open spec fn updated(self, session: SessionView) -> WorkspaceView {
        self.with_session(session).synced()
    }

    /// A new empty dataset called `name`, selected, with the live session
    /// cleared.
    pub open spec fn create(self, name: Seq<char>) -> WorkspaceView {
        WorkspaceView {
            session: self.session.with_lists(Seq::empty(), Seq::empty()),
            datasets: self.datasets.push(DatasetView::empty(name)),
            current: name,
        }
    }

    /// The dataset called `name` selected and its lists loaded into the live
    /// session.
    pub open spec fn select(self, name: Seq<char>) -> WorkspaceView {
        let dataset = self.datasets[position_of(self.datasets, name)];
        WorkspaceView {
            session: self.session.with_lists(dataset.unknown, dataset.known),
            current: name,
            ..self
        }
    }

    /// The dataset called `name` dropped; when it was the selected one,
    /// nothing is selected any more. The live session stays.
    pub open spec fn delete(self, name: Seq<char>) -> WorkspaceView {
        WorkspaceView {
            datasets: without(self.datasets, name),
            current: if self.current == name {
                Seq::empty()
            } else {
                self.current
            },
            ..self
        }
    }
}

/// Mathematical model of a [`SessionSnapshot`].
pub struct SnapshotView {
    pub session: SessionView,
    pub current: Seq<char>,
}

impl WorkspaceView {
    /// What is kept of the workspace beside its datasets.
    pub open spec fn snapshot(self) -> SnapshotView {
        SnapshotView { session: self.session, current: self.current }
    }

    /// The workspace rebuilt from what was kept. Datasets that do not fit
    /// together count as none, and so does a session that is not well formed;
    /// a selected dataset that the registry lacks counts as none selected; the
    /// lists of the live session are written to the selected dataset.
    pub open spec fn restored(
        snapshot: Option<SnapshotView>,
        datasets: Option<Seq<DatasetView>>,
    ) -> WorkspaceView {
        let datasets = match datasets {
            Some(d) if registry_wf(d) => d,
            _ => Seq::empty(),
        };
        let kept = match snapshot {
            Some(s) if s.session.wf() => s,
            _ => SnapshotView { session: SessionView::empty(), current: Seq::empty() },
        };
        WorkspaceView {
            session: kept.session,
            datasets,
            current: if has_name(datasets, kept.current) {
                kept.current
            } else {
                Seq::empty()
            },
        }.synced()
    }
}

/// What is kept of a workspace between runs, beside its datasets: the live
/// session and the name of the selected dataset.
#[derive(Debug, PartialEq, Eq)]
pub struct SessionSnapshot {
    pub unknown_cards: Vec<Card>,
    pub known_cards: Vec<Card>,
    pub cursor_index: usize,
    pub stage: RevealStage,
    pub direction: StudyDirection,
    pub current_dataset: String,
}

impl View for SessionSnapshot {
    type V = SnapshotView;

    open spec fn view(&self) -> SnapshotView {
        SnapshotView {
            session: SessionView {
                unknown: self.unknown_cards.deep_view(),
                known: self.known_cards.deep_view(),
                cursor: self.cursor_index as int,
                stage: self.stage,
                direction: self.direction,
            },
            current: self.current_dataset@,
        }
    }
}

/// The view of a snapshot that may be missing.
pub open spec fn snapshot_view(snapshot: Option<SessionSnapshot>) -> Option<SnapshotView> {
    match snapshot {
        Some(s) => Some(s@),
        None => None,
    }
}

/// The view of a list of datasets that may be missing.
pub open spec fn datasets_view(datasets: Option<Vec<Dataset>>) -> Option<Seq<DatasetView>> {
    match datasets {
        Some(d) => Some(d.deep_view()),
        None => None,
    }
}

/// Rebuilding a well-formed workspace from what is kept of it gives it back.
pub proof fn lemma_restore_gives_back(workspace: WorkspaceView)
    requires
        workspace.wf(),
    ensures
        WorkspaceView::restored(Some(workspace.snapshot()), Some(workspace.datasets))
            == workspace,
{
    if !workspace.active() {
        assert(!has_name(workspace.datasets, workspace.current)) by {
            if has_name(workspace.datasets, workspace.current) {
                let p = position_of(workspace.datasets, workspace.current);
                assert(workspace.datasets[p].wf());
            }
        }
        assert(workspace.current =~= Seq::empty());
    }
    lemma_well_formed_is_synced(workspace);
}

/// Writing the live lists through makes a consistent workspace well formed.
pub proof fn lemma_synced_is_well_formed(workspace: WorkspaceView)
    requires
        workspace.consistent(),
    ensures
        workspace.synced().wf(),
        workspace.synced().session == workspace.session,
        workspace.synced().current == workspace.current,
{
    if workspace.active() {
        let before = workspace.datasets;
        let after = workspace.synced().datasets;
        let name = workspace.current;
        lemma_stored_is_well_formed(
            before,
            name,
            workspace.session.unknown,
            workspace.session.known,
        );
        let p = position_of(before, name);
        assert(after[p].name == name);
        lemma_position_unique(after, name, p);
    }
}

/// A well-formed workspace is already written through.
pub proof fn lemma_well_formed_is_synced(workspace: WorkspaceView)
    requires
        workspace.wf(),
    ensures
        workspace.synced() == workspace,
{
    if workspace.active() {
        let p = position_of(workspace.datasets, workspace.current);
        assert forall|i: int| 0 <= i < workspace.datasets.len() implies workspace.synced().datasets[i]
            == workspace.datasets[i] by {
            if workspace.datasets[i].name == workspace.current {
                lemma_position_unique(workspace.datasets, workspace.current, i);
            }
        }
        assert(workspace.synced().datasets =~= workspace.datasets);
    }
}

/// The live session together with the datasets. Every value of this type is
/// well formed: the session and the registry are, the selected dataset is in
/// the registry, and it holds the lists of the live session.
pub struct Workspace {
    session: SessionState,
    registry: DatasetRegistry,
    current_dataset: String,
}

impl View for Workspace {
    type V = WorkspaceView;

    closed spec fn view(&self) -> WorkspaceView {
        WorkspaceView {
            session: self.session@,
            datasets: self.registry@,
            current: self.current_dataset@,
        }
    }
}

impl Clone for Workspace {
    fn clone(&self) -> (res: Workspace)
        ensures
            res@ == self@,
    {
        proof {
            use_type_invariant(self);
        }
        Workspace {
            session: self.session.clone(),
            registry: self.registry.clone(),
            current_dataset: self.current_dataset.clone(),
        }
    }
}

impl Workspace {
    /// What holds of every value of this type.
    #[verifier::type_invariant]
    pub open spec fn well_formed(self) -> bool {
        self@.wf()
    }

    /// A workspace without cards or datasets.
    pub fn new() -> (workspace: Workspace)
        ensures
            workspace@ == WorkspaceView::empty(),
            workspace@.wf(),
    {
        Workspace {
            session: SessionState::new(),
            registry: DatasetRegistry::new(),
            current_dataset: String::new(),
        }
    }

    /// Takes the parts of the workspace out and leaves an empty one in its
    /// place.
    fn take(&mut self) -> (parts: (SessionState, DatasetRegistry, String))
        ensures
            parts.0@ == old(self)@.session,
            parts.1@ == old(self)@.datasets,
            parts.2@ == old(self)@.current,
            old(self)@.wf(),
    {
        proof {
            use_type_invariant(&*self);
        }
        let mut taken = Workspace::new();
        core::mem::swap(self, &mut taken);
        let Workspace { session, registry, current_dataset } = taken;
        (session, registry, current_dataset)
    }

    /// The workspace of the given parts, once the lists of the session are
    /// written to the selected dataset. This is the one place where a change
    /// to the live cards reaches the registry, and every operation that
    /// changes them ends here.
    fn sync_active(
        session: SessionState,
        registry: DatasetRegistry,
        current_dataset: String,
    ) -> (workspace: Workspace)
        requires
            current_dataset@.len() > 0 ==> has_name(registry@, current_dataset@),
        ensures
            workspace@ == (WorkspaceView {
                session: session@,
                datasets: registry@,
                current: current_dataset@,
            }).synced(),
            workspace@.wf(),
    {
        let mut registry = registry;
        proof {
            use_type_invariant(&session);
            use_type_invariant(&registry);
            lemma_synced_is_well_formed(
                WorkspaceView { session: session@, datasets: registry@, current: current_dataset@ },
            );
        }
        if !current_dataset.as_str().is_empty() {
            let unknown = clone_cards(session.unknown_cards());
            let known = clone_cards(session.known_cards());
            let _ = registry.store(current_dataset.as_str(), unknown, known);
        }
        Workspace { session, registry, current_dataset }
    }

    /// What is to be kept of the workspace beside its datasets.
    pub fn snapshot(&self) -> (snapshot: SessionSnapshot)
        ensures
            snapshot@ == self@.snapshot(),
    {
        SessionSnapshot {
            unknown_cards: clone_cards(self.session.unknown_cards()),
            known_cards: clone_cards(self.session.known_cards()),
            cursor_index: self.session.cursor_index(),
            stage: self.session.stage(),
            direction: self.session.direction(),
            current_dataset: self.current_dataset.clone(),
        }
    }

    /// Rebuilds a workspace from what was kept of one. Whatever is missing or
    /// does not fit together is replaced by its empty default.
    pub fn from_saved(snapshot: Option<SessionSnapshot>, datasets: Option<Vec<Dataset>>) -> (workspace:
        Workspace)
        ensures
            workspace@ == WorkspaceView::restored(snapshot_view(snapshot), datasets_view(datasets)),
            workspace@.wf(),
    {
        let registry = match datasets {
            Some(d) => match DatasetRegistry::from_datasets(d) {
                Some(registry) => registry,
                None => DatasetRegistry::new(),
            },
            None => DatasetRegistry::new(),
        };
        let (session, selected) = match snapshot {
            Some(s) => match SessionState::from_parts(
                s.unknown_cards,
                s.known_cards,
                s.cursor_index,
                s.stage,
                s.direction,
            ) {
                Some(session) => (session, s.current_dataset),
                None => (SessionState::new(), String::new()),
            },
            None => (SessionState::new(), String::new()),
        };
        let current_dataset = if registry.contains(selected.as_str()) {
            selected
        } else {
            String::new()
        };
        Workspace::sync_active(session, registry, current_dataset)
    }

    /// The live session.
    pub fn session(&self) -> (session: &SessionState)
        ensures
            session@ == self@.session,
            self@.wf(),
    {
        proof {
            use_type_invariant(self);
        }
        &self.session
    }

    /// The registry of datasets.
    pub fn registry(&self) -> (registry: &DatasetRegistry)
        ensures
            registry@ == self@.datasets,
            self@.wf(),
    {
        proof {
            use_type_invariant(self);
        }
        &self.registry
    }

    /// The name of the selected dataset; empty when none is selected.
    pub fn current_dataset(&self) -> (name: &String)
        ensures
            name@ == self@.current,
            self@.wf(),
    {
        proof {
            use_type_invariant(self);
        }
        &self.current_dataset
    }

    /// Creates an empty dataset called `name`, selects it and clears the live
    /// session. Refuses an empty name and a name that is taken, and then
    /// changes nothing.
    pub fn create(&mut self, name: String) -> (res: Result<(), RegistryError>)
        ensures
            match res {
                Ok(_) => name@.len() > 0 && !has_name(old(self)@.datasets, name@) && final(self)@
                    == old(self)@.create(name@),
                Err(e) => e == RegistryError::DuplicateName && (name@.len() == 0 || has_name(
                    old(self)@.datasets,
                    name@,
                )) && final(self)@ == old(self)@,
            },
            final(self)@.wf(),
    {
        let selected = name.clone();
        let (mut session, mut registry, current_dataset) = self.take();
        match registry.create(name) {
            Ok(_) => {
                session.replace_lists(Vec::new(), Vec::new());
                proof {
                    let before = old(self)@.datasets;
                    assert(registry@[before.len() as int].name == name@);
                    lemma_position_unique(registry@, name@, before.len() as int);
                    assert(session@.unknown =~= Seq::empty());
                    assert(session@.known =~= Seq::empty());
                }
                *self = Workspace { session, registry, current_dataset: selected };
                Ok(())
            },
            Err(e) => {
                *self = Workspace { session, registry, current_dataset };
                Err(e)
            },
        }
    }

    /// Selects the dataset called `name` and loads its lists into the live
    /// session, starting at the first card and the first face. Refuses a name
    /// that no dataset has, and then changes nothing.
    pub fn select(&mut self, name: &str) -> (res: Result<(), RegistryError>)
        ensures
            match res {
                Ok(_) => has_name(old(self)@.datasets, name@) && final(self)@ == old(
                    self,
                )@.select(name@),
                Err(e) => e == RegistryError::NotFound && !has_name(old(self)@.datasets, name@)
                    && final(self)@ == old(self)@,
            },
            final(self)@.wf(),
    {
        let (mut session, registry, current_dataset) = self.take();
        let lists = match registry.get(name) {
            Some(dataset) => Some(
                (clone_cards(&dataset.unknown_cards), clone_cards(&dataset.known_cards)),
            ),
            None => None,
        };
        match lists {
            Some((unknown, known)) => {
                session.replace_lists(unknown, known);
                *self = Workspace { session, registry, current_dataset: name.to_owned() };
                Ok(())
            },
            None => {
                *self = Workspace { session, registry, current_dataset };
                Err(RegistryError::NotFound)
            },
        }
    }

    /// Drops the dataset called `name`, and says whether there was one. When
    /// it was the selected one, nothing is selected any more; the cards of the
    /// live session stay.
    pub fn delete(&mut self, name: &str) -> (removed: bool)
        ensures
            removed == has_name(old(self)@.datasets, name@),
            final(self)@ == old(self)@.delete(name@),
            final(self)@.wf(),
    {
        let (session, mut registry, current_dataset) = self.take();
        let removed = registry.remove(name);
        let key = name.to_owned();
        let current_dataset = if current_dataset == key {
            String::new()
        } else {
            current_dataset
        };
        proof {
            use_type_invariant(&session);
            let before = old(self)@;
            let after = WorkspaceView {
                session: session@,
                datasets: registry@,
                current: current_dataset@,
            };
            assert(after.current =~= before.delete(name@).current);
            if after.active() {
                let current = after.current;
                let q = position_of(before.datasets, current);
                if removed {
                    let p = position_of(before.datasets, name@);
                    let r = if q < p {
                        q
                    } else {
                        q - 1
                    };
                    assert(after.datasets[r] == before.datasets[q]);
                    lemma_position_unique(after.datasets, current, r);
                }
            }
        }
        *self = Workspace { session, registry, current_dataset };
        removed
    }

    /// Replaces the cards of the live session by those of `cards`, split by
    /// their flag, and starts over at the first card and the first face.
    pub fn load(&mut self, cards: &Vec<Card>)
        ensures
            final(self)@ == old(self)@.updated(old(self)@.session.load(cards.deep_view())),
            final(self)@.wf(),
    {
        let (mut session, registry, current_dataset) = self.take();
        session.load(cards);
        *self = Workspace::sync_active(session, registry, current_dataset);
    }

    /// Reads cards from CSV text and loads them as [`Workspace::load`] does.
    pub fn import(&mut self, text: &str)
        ensures
            final(self)@ == old(self)@.updated(old(self)@.session.load(parsed(text@))),
            final(self)@.wf(),
    {
        let (mut session, registry, current_dataset) = self.take();
        session.import(text);
        *self = Workspace::sync_active(session, registry, current_dataset);
    }

    /// Moves the unknown card at `index` to the known list.
    pub fn mark_known(&mut self, index: usize)
        ensures
            final(self)@ == old(self)@.updated(old(self)@.session.mark_known(index as int)),
            final(self)@.wf(),
    {
        let (mut session, registry, current_dataset) = self.take();
        session.mark_known(index);
        *self = Workspace::sync_active(session, registry, current_dataset);
    }

    /// Moves the known card at `index` back to the unknown list.
    pub fn restore(&mut self, index: usize)
        ensures
            final(self)@ == old(self)@.updated(old(self)@.session.restore(index as int)),
            final(self)@.wf(),
    {
        let (mut session, registry, current_dataset) = self.take();
        session.restore(index);
        *self = Workspace::sync_active(session, registry, current_dataset);
    }

    /// Drops the unknown card at `index`.
    pub fn delete_unknown(&mut self, index: usize)
        ensures
            final(self)@ == old(self)@.updated(old(self)@.session.delete_unknown(index as int)),
            final(self)@.wf(),
    {
        let (mut session, registry, current_dataset) = self.take();
        session.delete_unknown(index);
        *self = Workspace::sync_active(session, registry, current_dataset);
    }

    /// Drops the known card at `index`.
    pub fn delete_known(&mut self, index: usize)
        ensures
            final(self)@ == old(self)@.updated(old(self)@.session.delete_known(index as int)),
            final(self)@.wf(),
    {
        let (mut session, registry, current_dataset) = self.take();
        session.delete_known(index);
        *self = Workspace::sync_active(session, registry, current_dataset);
    }

    /// Appends a new unknown card.
    pub fn add(&mut self, word: String, pinyin: Option<String>, translation: String)
        ensures
            final(self)@ == old(self)@.updated(
                old(self)@.session.add(
                    word@,
                    match pinyin {
                        Some(p) => Some(p@),
                        None => None,
                    },
                    translation@,
                ),
            ),
            final(self)@.wf(),
    {
        let (mut session, registry, current_dataset) = self.take();
        session.add(word, pinyin, translation);
        *self = Workspace::sync_active(session, registry, current_dataset);
    }

    /// Rearranges the unknown list by `order`, as
    /// [`SessionState::shuffle_with`] does, and says whether it did.
    pub fn shuffle_with(&mut self, order: &Vec<usize>) -> (applied: bool)
        ensures
            applied == is_permutation(order@, old(self)@.session.unknown.len()),
            final(self)@ == old(self)@.updated(old(self)@.session.reordered(order@)),
            final(self)@.wf(),
    {
        let (mut session, registry, current_dataset) = self.take();
        let applied = session.shuffle_with(order);
        *self = Workspace::sync_active(session, registry, current_dataset);
        applied
    }

    /// Puts the unknown cards in a random order and starts over at the first
    /// card and the first face, as [`SessionState::shuffle`] does.
    pub fn shuffle(&mut self)
        ensures
            exists|order: Seq<usize>|
                is_permutation(order, old(self)@.session.unknown.len()) && final(self)@ == old(self)@.updated(
                    old(self)@.session.reordered(order),
                ),
            final(self)@.session.unknown.to_multiset() == old(self)@.session.unknown.to_multiset(),
            final(self)@.session.known == old(self)@.session.known,
            final(self)@.session.cursor == 0,
            final(self)@.session.stage == RevealStage::First,
            final(self)@.session.direction == old(self)@.session.direction,
            final(self)@.wf(),
    {
        let (mut session, registry, current_dataset) = self.take();
        session.shuffle();
        let ghost order = choose|order: Seq<usize>|
            is_permutation(order, old(self)@.session.unknown.len()) && session@ == old(self)@.session.reordered(
                order,
            );
        *self = Workspace::sync_active(session, registry, current_dataset);
        assert(self@ == old(self)@.updated(old(self)@.session.reordered(order)));
    }

    /// Moves the cursor to the next unknown card.
    pub fn advance(&mut self)
        ensures
            final(self)@ == old(self)@.with_session(old(self)@.session.advance()),
            final(self)@.wf(),
    {
        let (mut session, registry, current_dataset) = self.take();
        session.advance();
        *self = Workspace { session, registry, current_dataset };
    }

    /// Moves the cursor to the previous unknown card.
    pub fn retreat(&mut self)
        ensures
            final(self)@ == old(self)@.with_session(old(self)@.session.retreat()),
            final(self)@.wf(),
    {
        let (mut session, registry, current_dataset) = self.take();
        session.retreat();
        *self = Workspace { session, registry, current_dataset };
    }

    /// Shows the next face of the card under the cursor.
    pub fn cycle_stage(&mut self)
        ensures
            final(self)@ == old(self)@.with_session(old(self)@.session.cycle_stage()),
            final(self)@.wf(),
    {
        let (mut session, registry, current_dataset) = self.take();
        session.cycle_stage();
        *self = Workspace { session, registry, current_dataset };
    }

    /// Switches the study direction and goes back to the first face.
    pub fn toggle_direction(&mut self)
        ensures
            final(self)@ == old(self)@.with_session(old(self)@.session.toggle_direction()),
            final(self)@.wf(),
    {
        let (mut session, registry, current_dataset) = self.take();
        session.toggle_direction();
        *self = Workspace { session, registry, current_dataset };
    }
}

} // verus!
