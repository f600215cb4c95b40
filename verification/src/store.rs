//! The models the server is holding.
//!
//! Every model in the store can be rebuilt and run, is found under its own id,
//! and there are never more of them than the server was told to hold.

use std::collections::HashMap;

use core::time::Duration;
use std::time::{SystemTime, SystemTimeError};

use vstd::prelude::*;
use vstd::std_specs::hash::group_hash_axioms;

use crate::config::{Config, ConfigView};
use crate::error::{conflict, not_found, refusal, ApiError, ErrorView};
use crate::ids::{new_uuid, uuid_text, version_4, written_id};
use crate::model::{complete, NewModel, NewModelView, StoredModel, StoredModelView};
use crate::text::{decimal, push_count};

verus! {

broadcast use group_hash_axioms;

// -------------------------------------------------------------------- state

/// The settings of the server and the models it holds.
pub struct AppState {
    config: Config,
    models: HashMap<u128, StoredModel>,
}

/// An [`AppState`] as a value.
#[verifier::ext_equal]
pub struct AppStateView {
    pub config: ConfigView,
    pub models: Map<u128, StoredModelView>,
}

impl View for AppState {
    type V = AppStateView;

    closed spec fn view(&self) -> AppStateView {
        AppStateView {
            config: self.config@,
            models: self.models@.map_values(|model: StoredModel| model@),
        }
    }
}

impl AppStateView {
    /// What holds of the store at every moment: each model is well formed and
    /// stands under its own id, and the limit on their number is kept.
    pub open spec fn wf(self) -> bool {
        &&& self.models.dom().finite()
        &&& self.models.len() <= self.config.limits.max_models
        &&& forall|id: u128| #[trigger]
            self.models.contains_key(id) ==> self.models[id].wf() && self.models[id].id == id
    }

    /// The store with `model` put in its place.
    pub open spec fn with(self, model: StoredModelView) -> AppStateView {
        AppStateView { models: self.models.insert(model.id, model), ..self }
    }
}

/// What is said of an id no model has.
pub open spec fn no_model_message(id: u128) -> Seq<char> {
    "there is no model with id '"@ + written_id(id) + "'"@
}

/// What is said when the store is full.
pub open spec fn full_message(limit: nat) -> Seq<char> {
    "the server is holding "@ + decimal(limit)
        + " models, the limit; delete one before creating another"@
}

/// Why there is no model to be had under `id`.
pub open spec fn id_fault(state: AppStateView, id: u128) -> Option<ErrorView> {
    if state.models.contains_key(id) {
        None
    } else {
        Some(not_found(no_model_message(id)))
    }
}

/// A new model can be stored: it is well formed but for the id and the times.
pub open spec fn storable(new: NewModelView) -> bool {
    &&& new.spec.wf()
    &&& complete(new.spec, new.weights)
    &&& new.batch_size > 0
}

/// A new model as it is stored: under `id`, at the time `now`, untrained.
pub open spec fn stored(new: NewModelView, id: u128, now: u64) -> StoredModelView {
    StoredModelView {
        id,
        name: new.name,
        spec: new.spec,
        weights: new.weights,
        batch_size: new.batch_size,
        created_at_ms: now,
        updated_at_ms: now,
        trained_epochs: 0,
        last_loss: None,
        ten_power_ratios: None,
    }
}

/// The error of an id no model has.
pub fn no_model(id: u128) -> (error: ApiError)
    ensures
        error@ == not_found(no_model_message(id)),
{
    let mut message = "there is no model with id '".to_owned();
    message.append(uuid_text(id).as_str());
    message.append("'");
    ApiError::not_found(message)
}

impl AppState {
    /// A server with these settings and no models.
    pub fn new(config: Config) -> (state: Self)
        ensures
            state@.config == config@,
            state@.models == Map::<u128, StoredModelView>::empty(),
            state@.wf(),
    {
        let state = AppState { config, models: HashMap::new() };
        assert(state@.models =~= Map::<u128, StoredModelView>::empty());
        state
    }

    /// The settings of the server.
    pub fn config(&self) -> (config: &Config)
        ensures
            config@ == self@.config,
    {
        &self.config
    }

    /// How many models the server holds.
    pub fn count(&self) -> (count: usize)
        ensures
            count == self@.models.len(),
    {
        assert(self@.models.dom() =~= self.models@.dom());
        self.models.len()
    }

    /// Stores a freshly built model under `id`, created `now`, and hands back a
    /// copy of it.
    pub fn insert_as(&mut self, new: NewModel, id: u128, now: u64) -> (inserted: Result<
        StoredModel,
        ApiError,
    >)
        requires
            old(self)@.wf(),
            storable(new@),
        ensures
            final(self)@.wf(),
            refusal(inserted) == (if old(self)@.models.len()
                >= old(self)@.config.limits.max_models {
                Some(conflict(full_message(old(self)@.config.limits.max_models as nat)))
            } else {
                None
            }),
            inserted is Err ==> final(self)@ == old(self)@,
            inserted matches Ok(model) ==> {
                &&& model@ == stored(new@, id, now)
                &&& final(self)@ == old(self)@.with(model@)
            },
    {
        let limit = self.config.limits.max_models;
        if self.count() >= limit {
            let mut message = "the server is holding ".to_owned();
            push_count(&mut message, limit);
            message.append(" models, the limit; delete one before creating another");
            return Err(ApiError::conflict(message));
        }
        let model = StoredModel {
            id,
            name: new.name,
            spec: new.spec,
            weights: new.weights,
            batch_size: new.batch_size,
            created_at_ms: now,
            updated_at_ms: now,
            trained_epochs: 0,
            last_loss: None,
            ten_power_ratios: None,
        };
        let copy = model.clone();
        self.models.insert(id, copy);
        assert(self@.models =~= old(self)@.models.insert(id, model@));
        Ok(model)
    }

    /// Stores a freshly built model and hands back a copy of it. Which id it
    /// gets is chance, and when it was made is up to the clock.
    pub fn insert(&mut self, new: NewModel) -> (inserted: Result<StoredModel, ApiError>)
        requires
            old(self)@.wf(),
            storable(new@),
        ensures
            final(self)@.wf(),
            refusal(inserted) == (if old(self)@.models.len()
                >= old(self)@.config.limits.max_models {
                Some(conflict(full_message(old(self)@.config.limits.max_models as nat)))
            } else {
                None
            }),
            inserted is Err ==> final(self)@ == old(self)@,
            inserted matches Ok(model) ==> {
                &&& version_4(model@.id)
                &&& model@ == stored(new@, model@.id, model@.created_at_ms)
                &&& final(self)@ == old(self)@.with(model@)
            },
    {
        let now = now_ms();
        let id = new_uuid();
        self.insert_as(new, id, now)
    }

    /// The model with that id, or a 404 naming it.
    pub fn handle(&self, id: u128) -> (model: Result<&StoredModel, ApiError>)
        requires
            self@.wf(),
        ensures
            refusal(model) == id_fault(self@, id),
            model matches Ok(model) ==> {
                &&& self@.models.contains_key(id)
                &&& model@ == self@.models[id]
                &&& model@.wf()
                &&& model@.id == id
            },
    {
        match self.models.get(&id) {
            Some(model) => {
                assert(self@.models.contains_key(id));
                Ok(model)
            },
            None => Err(no_model(id)),
        }
    }

    /// Removes the model with that id, or answers with a 404 naming it.
    pub fn remove(&mut self, id: u128) -> (removed: Result<(), ApiError>)
        requires
            old(self)@.wf(),
        ensures
            final(self)@.wf(),
            refusal(removed) == id_fault(old(self)@, id),
            removed is Err ==> final(self)@ == old(self)@,
            removed is Ok ==> {
                &&& final(self)@.models == old(self)@.models.remove(id)
                &&& final(self)@.config == old(self)@.config
            },
    {
        match self.models.remove(&id) {
            Some(_) => {
                assert(self@.models =~= old(self)@.models.remove(id));
                Ok(())
            },
            None => {
                assert(self@.models =~= old(self)@.models);
                Err(no_model(id))
            },
        }
    }

    /// Takes a model out to change it.
    pub fn take(&mut self, id: u128) -> (taken: Option<StoredModel>)
        requires
            old(self)@.wf(),
        ensures
            final(self)@.wf(),
            final(self)@.config == old(self)@.config,
            final(self)@.models == old(self)@.models.remove(id),
            match taken {
                Some(model) => old(self)@.models.contains_key(id) && model@
                    == old(self)@.models[id],
                None => !old(self)@.models.contains_key(id),
            },
    {
        let taken = self.models.remove(&id);
        assert(self@.models =~= old(self)@.models.remove(id));
        taken
    }

    /// Puts a model into a free place, or over the one with its id.
    pub fn put(&mut self, model: StoredModel)
        requires
            old(self)@.wf(),
            old(self)@.models.contains_key(model@.id) || old(self)@.models.len()
                < old(self)@.config.limits.max_models,
            model@.wf(),
        ensures
            final(self)@.wf(),
            final(self)@ == old(self)@.with(model@),
    {
        self.models.insert(model.id, model);
        proof {
            assert(self@.models =~= old(self)@.models.insert(model@.id, model@));
            if old(self)@.models.contains_key(model@.id) {
                assert(self@.models.dom() =~= old(self)@.models.dom());
            }
        }
    }

    /// The ids of the models, in no particular order.
    fn ids(&self) -> (ids: Vec<u128>)
        ensures
            ids@.no_duplicates(),
            ids@.to_set() == self@.models.dom(),
    {
        let mut ids: Vec<u128> = Vec::with_capacity(self.models.len());
        for id in walk: self.models.keys()
            invariant
                walk.seq().unref().to_set() == self.models@.dom(),
                walk.seq().no_duplicates(),
                ids@ == walk.seq().unref().take(walk.index() as int),
                ids@.no_duplicates(),
                walk.index() == walk.seq().len() ==> ids@ == walk.seq().unref(),
        {
            ids.push(*id);
        }
        assert(self@.models.dom() =~= self.models@.dom());
        ids
    }

    /// Every model, newest first; of two made in the same millisecond, the one
    /// with the lower id.
    pub fn list(&self) -> (models: Vec<StoredModel>)
        requires
            self@.wf(),
        ensures
            models_view(models@) == list_of(self@.models),
            listed(self@.models, list_of(self@.models)),
    {
        let ids = self.ids();
        let mut models: Vec<StoredModel> = Vec::with_capacity(ids.len());
        let mut index: usize = 0;
        while index < ids.len()
            invariant
                self@.wf(),
                ids@.no_duplicates(),
                ids@.to_set() == self@.models.dom(),
                index <= ids@.len(),
                models@.len() == index,
                ordered(models_view(models@)),
                forall|i: int|
                    0 <= i < index ==> {
                        &&& ids@.take(index as int).contains(
                            (#[trigger] models_view(models@)[i]).id,
                        )
                        &&& self@.models.contains_key(models_view(models@)[i].id)
                        &&& models_view(models@)[i] == self@.models[models_view(models@)[i].id]
                    },
                forall|j: int|
                    0 <= j < index ==> holds(models_view(models@), #[trigger] ids@[j]),
            decreases ids@.len() - index,
        {
            let id = ids[index];
            let ghost earlier = models_view(models@);
            proof {
                assert(ids@.to_set().contains(id));
                assert(self@.models.contains_key(id));
                if holds(earlier, id) {
                    let i = choose|i: int| 0 <= i < earlier.len() && (#[trigger] earlier[i]).id == id;
                    let j = choose|j: int| 0 <= j < index && ids@.take(index as int)[j] == id;
                    assert(ids@[j] == ids@[index as int]);
                }
            }
            if let Some(model) = self.models.get(&id) {
                let ghost put = model@;
                insert_in_order(&mut models, model.clone());
                proof {
                    let place = choose|place: int|
                        0 <= place <= earlier.len() && models_view(models@)
                            == #[trigger] earlier.insert(place, put);
                    let later = models_view(models@);
                    assert(later[place] == put);
                    assert forall|j: int| 0 <= j < index + 1 implies holds(
                        later,
                        #[trigger] ids@[j],
                    ) by {
                        if j < index {
                            let i = choose|i: int|
                                0 <= i < earlier.len() && (#[trigger] earlier[i]).id == ids@[j];
                            assert(later[if i < place {
                                i
                            } else {
                                i + 1
                            }] == earlier[i]);
                        }
                    }
                    let taken = ids@.take(index + 1);
                    assert(taken[index as int] == id);
                    assert forall|i: int| 0 <= i < index + 1 implies taken.contains(
                        (#[trigger] later[i]).id,
                    ) && self@.models.contains_key(later[i].id) && later[i]
                        == self@.models[later[i].id] by {
                        if i != place {
                            let k = if i < place {
                                i
                            } else {
                                i - 1
                            };
                            assert(later[i] == earlier[k]);
                            let j = choose|j: int|
                                0 <= j < index && ids@.take(index as int)[j] == earlier[k].id;
                            assert(taken[j] == earlier[k].id);
                        }
                    }
                }
            }
            index += 1;
        }
        proof {
            let list = models_view(models@);
            assert forall|id: u128| #[trigger] self@.models.contains_key(id) implies holds(
                list,
                id,
            ) by {
                assert(ids@.to_set().contains(id));
                let j = choose|j: int| 0 <= j < ids@.len() && ids@[j] == id;
                assert(holds(list, ids@[j]));
            }
            ids@.unique_seq_to_set();
            assert(listed(self@.models, list));
            there_is_one_list(self@.models, list, list_of(self@.models));
        }
        models
    }
}

// ------------------------------------------------------------------ listing

/// Models taken by their views.
pub open spec fn models_view(models: Seq<StoredModel>) -> Seq<StoredModelView> {
    models.map_values(|model: StoredModel| model@)
}

/// The order of the list: newest first, then by id.
pub open spec fn before(left: StoredModelView, right: StoredModelView) -> bool {
    left.created_at_ms > right.created_at_ms || (left.created_at_ms == right.created_at_ms
        && left.id < right.id)
}

/// The models stand in the order of the list.
pub open spec fn ordered(models: Seq<StoredModelView>) -> bool {
    forall|i: int, j: int|
        0 <= i < j < models.len() ==> before(#[trigger] models[i], #[trigger] models[j])
}

/// A model with that id is among them.
pub open spec fn holds(models: Seq<StoredModelView>, id: u128) -> bool {
    exists|i: int| 0 <= i < models.len() && (#[trigger] models[i]).id == id
}

/// `list` has every model of the store and nothing else, each once, in order.
pub open spec fn listed(models: Map<u128, StoredModelView>, list: Seq<StoredModelView>) -> bool {
    &&& ordered(list)
    &&& forall|i: int|
        0 <= i < list.len() ==> {
            &&& models.contains_key((#[trigger] list[i]).id)
            &&& list[i] == models[list[i].id]
        }
    &&& forall|id: u128| #[trigger] models.contains_key(id) ==> holds(list, id)
    &&& list.len() == models.len()
}

/// The list of these models.
pub open spec fn list_of(models: Map<u128, StoredModelView>) -> Seq<StoredModelView> {
    choose|list: Seq<StoredModelView>| listed(models, list)
}

/// Puts a model where it belongs among models that are in order.
fn insert_in_order(models: &mut Vec<StoredModel>, model: StoredModel)
    requires
        ordered(models_view(old(models)@)),
        !holds(models_view(old(models)@), model@.id),
    ensures
        ordered(models_view(final(models)@)),
        exists|place: int|
            0 <= place <= old(models)@.len() && models_view(final(models)@)
                == #[trigger] models_view(old(models)@).insert(place, model@),
{
    let mut place: usize = 0;
    while place < models.len() && (models[place].created_at_ms > model.created_at_ms || (
    models[place].created_at_ms == model.created_at_ms && models[place].id < model.id))
        invariant
            place <= models@.len(),
            forall|i: int| 0 <= i < place ==> before(#[trigger] models_view(models@)[i], model@),
        decreases models@.len() - place,
    {
        assert(models_view(models@)[place as int] == models@[place as int]@);
        place += 1;
    }
    let ghost shorter = models_view(models@);
    let ghost put = model@;
    proof {
        assert forall|i: int| place <= i < shorter.len() implies before(
            put,
            #[trigger] shorter[i],
        ) by {
            assert(shorter[place as int] == models@[place as int]@);
            assert(shorter[place as int].id != put.id);
            if i > place {
                assert(before(shorter[place as int], shorter[i]));
            }
        }
    }
    models.insert(place, model);
    assert(models_view(models@) =~= shorter.insert(place as int, put));
}

// --------------------------------------------------------------------- laws

/// There is only one list: the models of the store decide the order too.
pub proof fn there_is_one_list(
    models: Map<u128, StoredModelView>,
    one: Seq<StoredModelView>,
    other: Seq<StoredModelView>,
)
    requires
        listed(models, one),
        listed(models, other),
    ensures
        one == other,
{
    lists_agree_up_to(models, one, other, one.len());
    assert(one =~= other);
}

/// Two lists of the same models have the same first `count` entries.
proof fn lists_agree_up_to(
    models: Map<u128, StoredModelView>,
    one: Seq<StoredModelView>,
    other: Seq<StoredModelView>,
    count: nat,
)
    requires
        listed(models, one),
        listed(models, other),
        count <= one.len(),
    ensures
        forall|i: int| 0 <= i < count ==> one[i] == other[i],
    decreases count,
{
    if count > 0 {
        lists_agree_up_to(models, one, other, (count - 1) as nat);
        let last = count - 1;
        assert(models.contains_key(one[last].id) && models.contains_key(other[last].id));
        let here = choose|i: int| 0 <= i < other.len() && (#[trigger] other[i]).id == one[last].id;
        let there = choose|i: int| 0 <= i < one.len() && (#[trigger] one[i]).id == other[last].id;
        assert(other[here] == one[last]);
        assert(one[there] == other[last]);
        if here < last {
            assert(before(one[here], one[last]));
        }
        if there < last {
            assert(before(other[there], other[last]));
        }
        if here > last && there > last {
            assert(before(other[last], other[here]));
            assert(before(one[last], one[there]));
        }
    }
}

/// A model that is put into the store is found under its id, and every other
/// id leads where it led before.
pub proof fn a_stored_model_is_found(state: AppStateView, model: StoredModelView, other: u128)
    requires
        other != model.id,
    ensures
        id_fault(state.with(model), model.id) is None,
        state.with(model).models[model.id] == model,
        id_fault(state.with(model), other) == id_fault(state, other),
        state.models.contains_key(other) ==> state.with(model).models[other]
            == state.models[other],
{
}

/// A model that is removed is gone: its id is answered with a 404, a second
/// removal is too, and every other id leads where it led before.
pub proof fn a_removed_model_is_gone(
    state: AppStateView,
    later: AppStateView,
    id: u128,
    other: u128,
)
    requires
        later.models == state.models.remove(id),
        other != id,
    ensures
        id_fault(later, id) == Some(not_found(no_model_message(id))),
        id_fault(later, other) == id_fault(state, other),
        state.models.contains_key(other) ==> later.models[other] == state.models[other],
{
}

// --------------------------------------------------------------------- time

/// A moment on the system's clock.
#[verifier::external_type_specification]
#[verifier::external_body]
pub struct ExSystemTime(SystemTime);

/// A clock set before the epoch.
#[verifier::external_type_specification]
#[verifier::external_body]
pub struct ExSystemTimeError(SystemTimeError);

/// `SystemTime::now`: the moment the clock shows. Nothing is known of it.
#[verifier::external_body]
fn clock() -> (now: SystemTime) {
    SystemTime::now()
}

/// `SystemTime::duration_since`, from the Unix epoch: how long ago that was,
/// or an error where the clock is set before it.
#[verifier::external_body]
fn since_epoch(moment: SystemTime) -> (span: Result<Duration, SystemTimeError>) {
    moment.duration_since(SystemTime::UNIX_EPOCH)
}

/// `Duration::as_millis`: the whole milliseconds of the span.
#[verifier::external_body]
fn whole_ms(span: &Duration) -> (ms: u128) {
    span.as_millis()
}

/// A clock reading as the 64 bits a client gets: 0 for a clock set before the
/// epoch.
pub fn reported_ms(since_epoch: Option<u128>) -> (ms: u64)
    ensures
        since_epoch matches Some(elapsed) ==> elapsed <= u64::MAX ==> ms == elapsed,
        match since_epoch {
            Some(elapsed) => ms == elapsed % 0x1_0000_0000_0000_0000,
            None => ms == 0,
        },
{
    match since_epoch {
        Some(elapsed) => (elapsed % 0x1_0000_0000_0000_0000) as u64,
        None => 0,
    }
}

/// Unix milliseconds, by the system's clock. Which they are is up to the clock,
/// so nothing is promised of them; what is made of a reading, and of a clock
/// set before the epoch, is what [`reported_ms`] says.
pub fn now_ms() -> (ms: u64) {
    match since_epoch(clock()) {
        Ok(span) => reported_ms(Some(whole_ms(&span))),
        Err(_) => reported_ms(None),
    }
}

} // verus!
