//! `MutationObserver` options and registrations
//! (<https://dom.spec.whatwg.org/#interface-mutationobserver>), and the
//! `MutationRecord` data the observers receive. Nodes are named by their
//! node ids.

use vstd::prelude::*;

use crate::tokens::tokens_view;

verus! {

/// The `attributeFilter` member of an `observe()` options dictionary.
pub enum FilterInit {
    /// The member is absent (or `undefined`).
    Absent,
    /// The member is `null` or not a sequence.
    NotSequence,
    /// The member is a sequence of these strings.
    Sequence(Vec<String>),
}

/// An `observe()` options dictionary after its members were read: each
/// `Option` is `None` for an absent member and the member's truth value
/// otherwise.
pub struct ObserverInit {
    pub child_list: bool,
    pub attributes: Option<bool>,
    pub attribute_old_value: Option<bool>,
    pub character_data: Option<bool>,
    pub character_data_old_value: Option<bool>,
    pub subtree: bool,
    pub attribute_filter: FilterInit,
}

/// The options one registration observes with.
pub struct ObserverOptions {
    pub child_list: bool,
    pub attributes: bool,
    pub character_data: bool,
    pub subtree: bool,
    pub attribute_old_value: bool,
    pub character_data_old_value: bool,
    pub attribute_filter: Option<Vec<String>>,
}

/// The options as values.
pub struct OptionsView {
    pub child_list: bool,
    pub attributes: bool,
    pub character_data: bool,
    pub subtree: bool,
    pub attribute_old_value: bool,
    pub character_data_old_value: bool,
    pub attribute_filter: Option<Seq<Seq<char>>>,
}

impl View for ObserverOptions {
    type V = OptionsView;

    open spec fn view(&self) -> OptionsView {
        OptionsView {
            child_list: self.child_list,
            attributes: self.attributes,
            character_data: self.character_data,
            subtree: self.subtree,
            attribute_old_value: self.attribute_old_value,
            character_data_old_value: self.character_data_old_value,
            attribute_filter: match self.attribute_filter {
                Some(f) => Some(tokens_view(f@)),
                None => None,
            },
        }
    }
}

/// Why `observe()` throws a `TypeError`.
#[derive(Clone, Copy, Debug, PartialEq, Eq, Structural)]
pub enum ObserveError {
    /// `attributeFilter` is `null` or not a sequence.
    FilterNotSequence,
    /// `attributes` is present and false, but `attributeOldValue` or
    /// `attributeFilter` is present.
    AttributesConflict,
    /// `characterData` is present and false, but `characterDataOldValue` is
    /// present.
    CharacterDataConflict,
    /// None of `childList`, `attributes` and `characterData` is set.
    NothingObserved,
}

impl ObserveError {
    /// The `TypeError` message.
    pub fn message(&self) -> (m: &'static str)
        ensures
            m@ == (match *self {
                ObserveError::FilterNotSequence => "attributeFilter must be a sequence"@,
                ObserveError::AttributesConflict => "attributes is false but attributeOldValue/attributeFilter is present"@,
                ObserveError::CharacterDataConflict => "characterData is false but characterDataOldValue is present"@,
                ObserveError::NothingObserved => "options must set childList, attributes, or characterData"@,
            }),
    {
        match self {
            ObserveError::FilterNotSequence => "attributeFilter must be a sequence",
            ObserveError::AttributesConflict => "attributes is false but attributeOldValue/attributeFilter is present",
            ObserveError::CharacterDataConflict => "characterData is false but characterDataOldValue is present",
            ObserveError::NothingObserved => "options must set childList, attributes, or characterData",
        }
    }
}

/// Whether the options dictionary has an `attributeFilter` sequence.
pub open spec fn filter_present(init: ObserverInit) -> bool {
    init.attribute_filter is Sequence
}

/// Whether attributes are observed: `attributes` is true, or it is absent
/// and `attributeOldValue` or `attributeFilter` is present.
pub open spec fn observes_attributes(init: ObserverInit) -> bool {
    init.attributes == Some(true) || (init.attributes is None && (init.attribute_old_value is Some
        || filter_present(init)))
}

/// Whether character data is observed: `characterData` is true, or it is
/// absent and `characterDataOldValue` is present.
pub open spec fn observes_character_data(init: ObserverInit) -> bool {
    init.character_data == Some(true) || (init.character_data is None
        && init.character_data_old_value is Some)
}

/// The error `observe()` throws for these options, checked in this order,
/// or `None` when they are accepted.
pub open spec fn options_error(init: ObserverInit) -> Option<ObserveError> {
    if init.attribute_filter is NotSequence {
        Some(ObserveError::FilterNotSequence)
    } else if init.attributes == Some(false) && (init.attribute_old_value is Some || filter_present(
        init,
    )) {
        Some(ObserveError::AttributesConflict)
    } else if init.character_data == Some(false) && init.character_data_old_value is Some {
        Some(ObserveError::CharacterDataConflict)
    } else if !(init.child_list || observes_attributes(init) || observes_character_data(init)) {
        Some(ObserveError::NothingObserved)
    } else {
        None
    }
}

/// The options an accepted dictionary resolves to.
pub open spec fn resolved_options(init: ObserverInit) -> OptionsView {
    OptionsView {
        child_list: init.child_list,
        attributes: observes_attributes(init),
        character_data: observes_character_data(init),
        subtree: init.subtree,
        attribute_old_value: init.attribute_old_value == Some(true),
        character_data_old_value: init.character_data_old_value == Some(true),
        attribute_filter: match init.attribute_filter {
            FilterInit::Sequence(f) => Some(tokens_view(f@)),
            _ => None,
        },
    }
}

/// What accepted options observe, in terms of the dictionary: `childList`
/// and `subtree` as given; attributes when `attributes` is true, and, when it
/// is absent, whenever `attributeOldValue` or `attributeFilter` is given;
/// character data when `characterData` is true, and, when it is absent,
/// whenever `characterDataOldValue` is given; the old-value flags only when
/// given as true; the filter exactly when one was given. Something is always
/// observed.
pub proof fn lemma_accepted_options(init: ObserverInit)
    requires
        options_error(init) is None,
    ensures
        resolved_options(init).child_list == init.child_list,
        resolved_options(init).subtree == init.subtree,
        init.attributes == Some(true) ==> resolved_options(init).attributes,
        init.attributes is None ==> (resolved_options(init).attributes <==> (
        init.attribute_old_value is Some || init.attribute_filter is Sequence)),
        init.attributes == Some(false) ==> !resolved_options(init).attributes,
        init.character_data == Some(true) ==> resolved_options(init).character_data,
        init.character_data is None ==> (resolved_options(init).character_data
            <==> init.character_data_old_value is Some),
        init.character_data == Some(false) ==> !resolved_options(init).character_data,
        resolved_options(init).attribute_old_value <==> init.attribute_old_value == Some(true),
        resolved_options(init).character_data_old_value <==> init.character_data_old_value == Some(
            true,
        ),
        init.attribute_filter matches FilterInit::Sequence(f) ==> resolved_options(
            init,
        ).attribute_filter == Some(tokens_view(f@)),
        !(init.attribute_filter is Sequence) ==> resolved_options(init).attribute_filter is None,
        resolved_options(init).child_list || resolved_options(init).attributes || resolved_options(
            init,
        ).character_data,
{
}

/// Resolves an `observe()` options dictionary
/// (<https://dom.spec.whatwg.org/#dom-mutationobserver-observe>): a missing
/// `attributes` or `characterData` is implied by its companions, a false
/// one conflicts with them, and something must be observed.
pub fn resolve_options(init: ObserverInit) -> (r: Result<ObserverOptions, ObserveError>)
    ensures
        match r {
            Ok(o) => options_error(init) is None && o@ == resolved_options(init),
            Err(e) => options_error(init) == Some(e),
        },
{
    let ghost spec_init = init;
    let filter_given = match &init.attribute_filter {
        FilterInit::NotSequence => return Err(ObserveError::FilterNotSequence),
        FilterInit::Sequence(_) => true,
        FilterInit::Absent => false,
    };
    let aov_present = init.attribute_old_value.is_some();
    let cdov_present = init.character_data_old_value.is_some();
    let attributes_false = match init.attributes {
        Some(a) => !a,
        None => false,
    };
    if attributes_false && (aov_present || filter_given) {
        return Err(ObserveError::AttributesConflict);
    }
    let character_data_false = match init.character_data {
        Some(c) => !c,
        None => false,
    };
    if character_data_false && cdov_present {
        return Err(ObserveError::CharacterDataConflict);
    }
    let attributes = match init.attributes {
        Some(a) => a,
        None => aov_present || filter_given,
    };
    let character_data = match init.character_data {
        Some(c) => c,
        None => cdov_present,
    };
    if !(init.child_list || attributes || character_data) {
        return Err(ObserveError::NothingObserved);
    }
    let attribute_old_value = match init.attribute_old_value {
        Some(v) => v,
        None => false,
    };
    let character_data_old_value = match init.character_data_old_value {
        Some(v) => v,
        None => false,
    };
    let attribute_filter = match init.attribute_filter {
        FilterInit::Sequence(f) => Some(f),
        _ => None,
    };
    let options = ObserverOptions {
        child_list: init.child_list,
        attributes,
        character_data,
        subtree: init.subtree,
        attribute_old_value,
        character_data_old_value,
        attribute_filter,
    };
    assert(options@ == resolved_options(spec_init));
    Ok(options)
}

/// One registration: a target node and the options it is observed with.
pub struct Observation {
    pub target: u64,
    pub options: ObserverOptions,
}

/// The registrations as `(target, options)` values.
pub open spec fn observations_view(v: Seq<Observation>) -> Seq<(u64, OptionsView)> {
    v.map_values(|o: Observation| (o.target, o.options@))
}

/// Whether no target is registered twice.
pub open spec fn distinct_targets(r: Seq<(u64, OptionsView)>) -> bool {
    forall|i: int, j: int| 0 <= i < j < r.len() ==> r[i].0 != r[j].0
}

/// The registrations after observing `target` with `options`: a target
/// already registered keeps its place and takes the new options; a new
/// target is appended.
pub open spec fn observe_spec(r: Seq<(u64, OptionsView)>, target: u64, options: OptionsView) -> Seq<
    (u64, OptionsView),
> {
    if exists|k: int| 0 <= k < r.len() && r[k].0 == target {
        let k = choose|k: int| 0 <= k < r.len() && r[k].0 == target;
        r.update(k, (target, options))
    } else {
        r.push((target, options))
    }
}

/// One observer: its id and registrations.
pub struct ObserverEntry {
    pub id: u64,
    pub observations: Vec<Observation>,
}

/// The observers of one realm.
pub struct ObserverRegistry {
    next_id: u64,
    observers: Vec<ObserverEntry>,
}

impl ObserverRegistry {
    /// The last id handed out.
    pub closed spec fn last_id(&self) -> u64 {
        self.next_id
    }

    /// Each observer's registrations, by id.
    pub closed spec fn registrations(&self) -> Map<u64, Seq<(u64, OptionsView)>> {
        Map::new(
            |id: u64| exists|i: int| 0 <= i < self.observers@.len() && self.observers@[i].id == id,
            |id: u64|
                {
                    let i = choose|i: int| 0 <= i < self.observers@.len() && self.observers@[i].id == id;
                    observations_view(self.observers@[i].observations@)
                },
        )
    }

    /// Ids are distinct and no larger than the last one handed out, and no
    /// observer registers a target twice.
    pub closed spec fn wf(&self) -> bool {
        &&& forall|i: int, j: int|
            0 <= i < j < self.observers@.len() ==> self.observers@[i].id != self.observers@[j].id
        &&& forall|i: int|
            0 <= i < self.observers@.len() ==> self.observers@[i].id <= self.next_id
        &&& forall|i: int|
            0 <= i < self.observers@.len() ==> distinct_targets(
                observations_view(#[trigger] self.observers@[i].observations@),
            )
    }

    /// A realm with no observers.
    pub fn new() -> (r: Self)
        ensures
            r.wf(),
            r.last_id() == 0,
            r.registrations() == Map::<u64, Seq<(u64, OptionsView)>>::empty(),
    {
        let r = ObserverRegistry { next_id: 0, observers: Vec::new() };
        assert(r.registrations() =~= Map::<u64, Seq<(u64, OptionsView)>>::empty());
        r
    }

    /// The index of the observer with this id.
    fn find(&self, id: u64) -> (i: Option<usize>)
        requires
            self.wf(),
        ensures
            match i {
                Some(i) => i < self.observers@.len() && self.observers@[i as int].id == id,
                None => !self.registrations().contains_key(id),
            },
    {
        let mut i: usize = 0;
        while i < self.observers.len()
            invariant
                i <= self.observers@.len(),
                forall|j: int| 0 <= j < i ==> self.observers@[j].id != id,
            decreases self.observers@.len() - i,
        {
            if self.observers[i].id == id {
                return Some(i);
            }
            i = i + 1;
        }
        None
    }

    /// `new MutationObserver(callback)`: a new observer with the next id
    /// and no registrations.
    pub fn create(&mut self) -> (id: u64)
        requires
            old(self).wf(),
            old(self).last_id() < u64::MAX,
        ensures
            final(self).wf(),
            id == old(self).last_id() + 1,
            final(self).last_id() == id,
            !old(self).registrations().contains_key(id),
            final(self).registrations() == old(self).registrations().insert(id, Seq::empty()),
    {
        self.next_id = self.next_id + 1;
        let id = self.next_id;
        let ghost before = self.observers@;
        self.observers.push(ObserverEntry { id, observations: Vec::new() });
        proof {
            let n = before.len() as int;
            assert(self.observers@[n].observations@ =~= Seq::<Observation>::empty());
            assert(observations_view(self.observers@[n].observations@) =~= Seq::<
                (u64, OptionsView),
            >::empty());
            assert forall|k: u64| #[trigger]
                self.registrations().contains_key(k) == old(self).registrations().insert(
                    id,
                    Seq::empty(),
                ).contains_key(k) by {
                if k != id && self.registrations().contains_key(k) {
                    let i = choose|i: int|
                        0 <= i < self.observers@.len() && self.observers@[i].id == k;
                    assert(i < n);
                    assert(before[i].id == k);
                }
                if old(self).registrations().contains_key(k) {
                    let i = choose|i: int| 0 <= i < before.len() && before[i].id == k;
                    assert(self.observers@[i].id == k);
                }
            }
            assert forall|k: u64| #[trigger]
                self.registrations().contains_key(k) implies self.registrations()[k]
                == old(self).registrations().insert(id, Seq::empty())[k] by {
                let i = choose|i: int| 0 <= i < self.observers@.len() && self.observers@[i].id == k;
                if k == id {
                    assert(i == n);
                } else {
                    let j = choose|j: int| 0 <= j < before.len() && before[j].id == k;
                    assert(i == j);
                }
            }
            assert(self.registrations() =~= old(self).registrations().insert(id, Seq::empty()));
        }
        id
    }

    /// `observe(target, options)` for observer `id`: registers `target`, or
    /// gives an existing registration of it the new options. Returns false,
    /// changing nothing, when no observer has this id.
    pub fn observe(&mut self, id: u64, target: u64, options: ObserverOptions) -> (found: bool)
        requires
            old(self).wf(),
        ensures
            final(self).wf(),
            final(self).last_id() == old(self).last_id(),
            found == old(self).registrations().contains_key(id),
            found ==> final(self).registrations() == old(self).registrations().insert(
                id,
                observe_spec(old(self).registrations()[id], target, options@),
            ),
            !found ==> final(self).registrations() == old(self).registrations(),
    {
        let i = match self.find(id) {
            Some(i) => i,
            None => return false,
        };
        let ghost opts = options@;
        let ghost before = self.observers@;
        let ghost regs = observations_view(before[i as int].observations@);
        proof {
            assert(old(self).registrations().contains_key(id));
            let c = choose|c: int| 0 <= c < before.len() && before[c].id == id;
            assert(c == i);
            assert(old(self).registrations()[id] == regs);
        }
        let mut entry = self.observers.remove(i);
        let mut k: usize = 0;
        let n = entry.observations.len();
        while k < n && entry.observations[k].target != target
            invariant
                k <= n == entry.observations@.len(),
                regs == observations_view(entry.observations@),
                forall|j: int| 0 <= j < k ==> entry.observations@[j].target != target,
            decreases n - k,
        {
            k = k + 1;
        }
        if k < n {
            let ghost old_obs = entry.observations@;
            entry.observations.set(k, Observation { target, options });
            proof {
                assert(regs[k as int].0 == target);
                assert(observations_view(entry.observations@) =~= regs.update(
                    k as int,
                    (target, opts),
                ));
                let c = choose|c: int| 0 <= c < regs.len() && regs[c].0 == target;
                assert(distinct_targets(regs));
                assert(c == k);
                assert(observe_spec(regs, target, opts) == regs.update(k as int, (target, opts)));
            }
        } else {
            entry.observations.push(Observation { target, options });
            proof {
                assert(observations_view(entry.observations@) =~= regs.push((target, opts)));
                assert(!exists|c: int| 0 <= c < regs.len() && regs[c].0 == target);
            }
        }
        let ghost new_regs = observations_view(entry.observations@);
        assert(new_regs == observe_spec(regs, target, opts));
        assert(distinct_targets(new_regs));
        self.observers.insert(i, entry);
        proof {
            assert(self.observers@ =~= before.update(i as int, self.observers@[i as int]));
            assert forall|k2: u64| #[trigger]
                self.registrations().contains_key(k2) == old(self).registrations().contains_key(
                    k2,
                ) by {
                if self.registrations().contains_key(k2) {
                    let j = choose|j: int|
                        0 <= j < self.observers@.len() && self.observers@[j].id == k2;
                    assert(before[j].id == k2);
                }
                if old(self).registrations().contains_key(k2) {
                    let j = choose|j: int| 0 <= j < before.len() && before[j].id == k2;
                    assert(self.observers@[j].id == k2);
                }
            }
            assert forall|k2: u64| #[trigger]
                self.registrations().contains_key(k2) implies self.registrations()[k2]
                == old(self).registrations().insert(id, new_regs)[k2] by {
                let j = choose|j: int| 0 <= j < self.observers@.len() && self.observers@[j].id == k2;
                let j0 = choose|j0: int| 0 <= j0 < before.len() && before[j0].id == k2;
                assert(j == j0);
            }
            assert(self.registrations() =~= old(self).registrations().insert(id, new_regs));
        }
        true
    }

    /// `disconnect()` for observer `id`: drops all its registrations.
    pub fn disconnect(&mut self, id: u64)
        requires
            old(self).wf(),
        ensures
            final(self).wf(),
            final(self).last_id() == old(self).last_id(),
            old(self).registrations().contains_key(id) ==> final(self).registrations()
                == old(self).registrations().insert(id, Seq::empty()),
            !old(self).registrations().contains_key(id) ==> final(self).registrations()
                == old(self).registrations(),
    {
        let i = match self.find(id) {
            Some(i) => i,
            None => return,
        };
        let ghost before = self.observers@;
        let mut entry = self.observers.remove(i);
        entry.observations = Vec::new();
        self.observers.insert(i, entry);
        proof {
            assert(self.observers@ =~= before.update(i as int, self.observers@[i as int]));
            assert(observations_view(self.observers@[i as int].observations@) =~= Seq::<
                (u64, OptionsView),
            >::empty());
            assert forall|k2: u64| #[trigger]
                self.registrations().contains_key(k2) == old(self).registrations().contains_key(
                    k2,
                ) by {
                if self.registrations().contains_key(k2) {
                    let j = choose|j: int|
                        0 <= j < self.observers@.len() && self.observers@[j].id == k2;
                    assert(before[j].id == k2);
                }
                if old(self).registrations().contains_key(k2) {
                    let j = choose|j: int| 0 <= j < before.len() && before[j].id == k2;
                    assert(self.observers@[j].id == k2);
                }
            }
            assert forall|k2: u64| #[trigger]
                self.registrations().contains_key(k2) implies self.registrations()[k2]
                == old(self).registrations().insert(id, Seq::empty())[k2] by {
                let j = choose|j: int| 0 <= j < self.observers@.len() && self.observers@[j].id == k2;
                let j0 = choose|j0: int| 0 <= j0 < before.len() && before[j0].id == k2;
                assert(j == j0);
            }
            assert(self.registrations() =~= old(self).registrations().insert(id, Seq::empty()));
        }
    }

    /// Whether mutations are recorded: some observer has a registration.
    pub fn is_recording(&self) -> (r: bool)
        requires
            self.wf(),
        ensures
            r == exists|id: u64| #[trigger]
                self.registrations().contains_key(id) && self.registrations()[id].len() > 0,
    {
        let mut i: usize = 0;
        while i < self.observers.len()
            invariant
                self.wf(),
                i <= self.observers@.len(),
                forall|j: int| 0 <= j < i ==> self.observers@[j].observations@.len() == 0,
            decreases self.observers@.len() - i,
        {
            if self.observers[i].observations.len() > 0 {
                proof {
                    let id = self.observers@[i as int].id;
                    assert(self.registrations().contains_key(id));
                    let c = choose|c: int| 0 <= c < self.observers@.len() && self.observers@[c].id == id;
                    if c < i {
                        assert(self.observers@[c].id != self.observers@[i as int].id);
                    } else if c > i {
                        assert(self.observers@[i as int].id != self.observers@[c].id);
                    }
                }
                return true;
            }
            i = i + 1;
        }
        proof {
            assert forall|id: u64| #[trigger] self.registrations().contains_key(id) implies self.registrations()[id].len() == 0 by {
                let c = choose|c: int| 0 <= c < self.observers@.len() && self.observers@[c].id == id;
                assert(self.observers@[c].observations@.len() == 0);
            }
        }
        false
    }
}

/// Observing a target twice keeps one registration of it, with the later
/// options.
pub proof fn lemma_observe_replaces(
    r: Seq<(u64, OptionsView)>,
    target: u64,
    first: OptionsView,
    second: OptionsView,
)
    requires
        distinct_targets(r),
    ensures
        distinct_targets(observe_spec(r, target, first)),
        observe_spec(observe_spec(r, target, first), target, second).len() == observe_spec(
            r,
            target,
            first,
        ).len(),
        observe_spec(observe_spec(r, target, first), target, second) == observe_spec(
            r,
            target,
            second,
        ),
{
    let r1 = observe_spec(r, target, first);
    if exists|k: int| 0 <= k < r.len() && r[k].0 == target {
        let k = choose|k: int| 0 <= k < r.len() && r[k].0 == target;
        assert(r1 == r.update(k, (target, first)));
        assert(r1[k].0 == target);
        let k1 = choose|k1: int| 0 <= k1 < r1.len() && r1[k1].0 == target;
        assert(k1 == k);
        assert(r1.update(k, (target, second)) =~= r.update(k, (target, second)));
    } else {
        assert(r1 == r.push((target, first)));
        let n = r.len() as int;
        assert(r1[n].0 == target);
        let k1 = choose|k1: int| 0 <= k1 < r1.len() && r1[k1].0 == target;
        assert(k1 == n);
        assert(r1.update(n, (target, second)) =~= r.push((target, second)));
    }
}


/// The data of one mutation record
/// (<https://dom.spec.whatwg.org/#interface-mutationrecord>).
pub struct RecordData {
    /// `"childList"`, `"attributes"` or `"characterData"`.
    pub typ: String,
    pub target: u64,
    pub added: Vec<u64>,
    pub removed: Vec<u64>,
    pub previous: Option<u64>,
    pub next: Option<u64>,
    pub attribute_name: Option<String>,
    pub attribute_namespace: Option<String>,
    pub old_value: Option<String>,
}

/// The view of an optional owned string.
pub open spec fn opt_text(s: Option<String>) -> Option<Seq<char>> {
    match s {
        Some(s) => Some(s@),
        None => None,
    }
}

/// A copy of an optional string.
fn copy_opt(s: &Option<String>) -> (r: Option<String>)
    ensures
        opt_text(r) == opt_text(*s),
{
    match s {
        Some(t) => Some(t.clone()),
        None => None,
    }
}

/// A copy of a list of node ids.
fn copy_ids(v: &Vec<u64>) -> (r: Vec<u64>)
    ensures
        r@ == v@,
{
    let mut r: Vec<u64> = Vec::new();
    let mut i: usize = 0;
    while i < v.len()
        invariant
            i <= v@.len(),
            r@ == v@.take(i as int),
        decreases v@.len() - i,
    {
        r.push(v[i]);
        assert(r@ =~= v@.take(i + 1));
        i = i + 1;
    }
    assert(v@.take(v@.len() as int) =~= v@);
    r
}

/// `MutationRecord`, the object an observer callback receives.
pub struct JsMutationRecord {
    pub record: RecordData,
}

impl JsMutationRecord {
    /// `type`.
    pub fn record_type(&self) -> (t: String)
        ensures
            t@ == self.record.typ@,
    {
        self.record.typ.clone()
    }

    /// `target`.
    pub fn target(&self) -> (t: u64)
        ensures
            t == self.record.target,
    {
        self.record.target
    }

    /// `addedNodes`.
    pub fn added_nodes(&self) -> (nodes: Vec<u64>)
        ensures
            nodes@ == self.record.added@,
    {
        copy_ids(&self.record.added)
    }

    /// `removedNodes`.
    pub fn removed_nodes(&self) -> (nodes: Vec<u64>)
        ensures
            nodes@ == self.record.removed@,
    {
        copy_ids(&self.record.removed)
    }

    /// `previousSibling`.
    pub fn previous_sibling(&self) -> (node: Option<u64>)
        ensures
            node == self.record.previous,
    {
        self.record.previous
    }

    /// `nextSibling`.
    pub fn next_sibling(&self) -> (node: Option<u64>)
        ensures
            node == self.record.next,
    {
        self.record.next
    }

    /// `attributeName`, `None` for null.
    pub fn attribute_name(&self) -> (name: Option<String>)
        ensures
            opt_text(name) == opt_text(self.record.attribute_name),
    {
        copy_opt(&self.record.attribute_name)
    }

    /// `attributeNamespace`, `None` for null.
    pub fn attribute_namespace(&self) -> (namespace: Option<String>)
        ensures
            opt_text(namespace) == opt_text(self.record.attribute_namespace),
    {
        copy_opt(&self.record.attribute_namespace)
    }

    /// `oldValue`, `None` for null.
    pub fn old_value(&self) -> (value: Option<String>)
        ensures
            opt_text(value) == opt_text(self.record.old_value),
    {
        copy_opt(&self.record.old_value)
    }
}

/// `MutationObserver`: a handle on one observer of the realm's registry.
pub struct JsMutationObserver {
    pub id: u64,
}

impl JsMutationObserver {
    /// `new MutationObserver(callback)`: registers a new observer in
    /// `registry` and returns its handle.
    pub fn new(registry: &mut ObserverRegistry) -> (observer: Self)
        requires
            old(registry).wf(),
            old(registry).last_id() < u64::MAX,
        ensures
            final(registry).wf(),
            observer.id == old(registry).last_id() + 1,
            final(registry).last_id() == observer.id,
            final(registry).registrations() == old(registry).registrations().insert(
                observer.id,
                Seq::empty(),
            ),
    {
        let id = registry.create();
        JsMutationObserver { id }
    }

    /// `observe(target, options)`: resolves the options, then registers the
    /// target (or updates its registration). An unknown observer is left
    /// alone.
    pub fn observe(&self, registry: &mut ObserverRegistry, target: u64, init: ObserverInit) -> (r:
        Result<(), ObserveError>)
        requires
            old(registry).wf(),
        ensures
            final(registry).wf(),
            final(registry).last_id() == old(registry).last_id(),
            match r {
                Err(e) => options_error(init) == Some(e) && final(registry).registrations()
                    == old(registry).registrations(),
                Ok(()) => options_error(init) is None && (if old(registry).registrations().contains_key(self.id) {
                    final(registry).registrations() == old(registry).registrations().insert(
                        self.id,
                        observe_spec(
                            old(registry).registrations()[self.id],
                            target,
                            resolved_options(init),
                        ),
                    )
                } else {
                    final(registry).registrations() == old(registry).registrations()
                }),
            },
    {
        let options = match resolve_options(init) {
            Ok(o) => o,
            Err(e) => return Err(e),
        };
        registry.observe(self.id, target, options);
        Ok(())
    }

    /// `disconnect()`: drops every registration of this observer.
    pub fn disconnect(&self, registry: &mut ObserverRegistry)
        requires
            old(registry).wf(),
        ensures
            final(registry).wf(),
            old(registry).registrations().contains_key(self.id) ==> final(registry).registrations()
                == old(registry).registrations().insert(self.id, Seq::empty()),
            !old(registry).registrations().contains_key(self.id) ==> final(registry).registrations() == old(registry).registrations(),
    {
        registry.disconnect(self.id);
    }
}

} // verus!
