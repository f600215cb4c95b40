//! What holds of the service as a whole: how one request shows in the next.

use vstd::prelude::*;

use crate::config::{ConfigView, Limits};
use crate::dataset::{after, source_of, LoadEvent, LoadState, RequestedPathView};
use crate::dto::{
    accepted_weights_fit, complete_weights_are_accepted, given_before, layer_names, named_layers,
    optimizer_field, optimizer_for, units_fault, weights_fault, CreateModelRequest, LayerRequest,
    OptimizerField, OptimizerFields, TrainRequest, TrainResponseView,
};
use crate::engine::{
    a_report_describes_its_spec, built_as_told, matrices_of, model_report, plan_of, rescaling,
    weights_survive_the_engine, BuiltModel, ModelReportView,
};
use crate::error::{conflict, ErrorView};
use crate::ids::{read_id, written_id};
use crate::model::{
    complete, layer_position_is_first, ratios_fit, LayerSpecView, LayerWeightsView, ModelSpecView,
    NewModelView, StoredModel, StoredModelView,
};
use crate::number::Number;
use crate::routes::{
    built, epochs_fault, evaluate_plan, id_from, loaded, model_at, predict_plan, run_fits,
    run_subject, run_written, scale_plan, train_plan, train_response, trained, weights_response,
    TrainPlanView,
};
use crate::store::{full_message, stored, AppStateView};
use crate::text::{blank, decimal};

verus! {

// ------------------------------------------------------------------ weights

/// What is put is what is got: after weights were loaded into a model, reading
/// them gives back what was answered, and every layer that was named has what
/// was sent for it.
pub proof fn weights_that_are_put_are_got(
    state: AppStateView,
    raw: Seq<char>,
    incoming: Seq<LayerWeightsView>,
    answered: Seq<LayerWeightsView>,
    now: u64,
)
    requires
        state.wf(),
        model_at(state, raw) is Ok,
        weights_fault(model_at(state, raw)->Ok_0.spec, incoming, 0) is None,
        loaded(
            model_at(state, raw)->Ok_0.spec,
            model_at(state, raw)->Ok_0.weights,
            incoming,
            answered,
        ),
    ensures
        ({
            let model = model_at(state, raw)->Ok_0;
            let later = state.with(
                StoredModelView { weights: answered, updated_at_ms: now, ..model },
            );
            &&& model_at(later, raw) is Ok
            &&& weights_response(model_at(later, raw)->Ok_0).layers == answered
            &&& forall|i: int|
                0 <= i < incoming.len() ==> answered[model.spec.index_of(
                    (#[trigger] incoming[i]).name,
                )->0] == incoming[i]
        }),
{
}

/// Sending weights for every layer leaves nothing of the old ones.
pub proof fn complete_weights_replace_everything(
    spec: ModelSpecView,
    earlier: Seq<LayerWeightsView>,
    incoming: Seq<LayerWeightsView>,
    later: Seq<LayerWeightsView>,
)
    requires
        spec.names_differ(),
        complete(spec, earlier),
        complete(spec, incoming),
        loaded(spec, earlier, incoming, later),
    ensures
        later == incoming,
{
    assert forall|k: int| 0 <= k < later.len() implies later[k] == incoming[k] by {
        spec.each_layer_is_found(k);
        assert(incoming[k].name == spec.layers[k].name);
    }
    assert(later =~= incoming);
}

/// Sending nothing changes nothing.
pub proof fn no_weights_change_nothing(
    spec: ModelSpecView,
    earlier: Seq<LayerWeightsView>,
    later: Seq<LayerWeightsView>,
)
    requires
        loaded(spec, earlier, Seq::empty(), later),
    ensures
        later == earlier,
{
    assert(later =~= earlier);
}

/// A request for the layers a model has, by name, with the weights it has.
pub open spec fn asks_for_again(
    request: CreateModelRequest,
    model: StoredModelView,
) -> bool {
    &&& request.features == model.spec.features
    &&& request.layers@.len() == model.spec.layers.len()
    &&& forall|i: int|
        0 <= i < request.layers@.len() ==> {
            &&& (#[trigger] request.layers@[i]).name matches Some(name) && name@
                == model.spec.layers[i].name
            &&& request.layers@[i].units == model.spec.layers[i].units
            &&& request.layers@[i].activation == model.spec.layers[i].activation
        }
    &&& request.sent_weights() == model.weights
}

/// The model is within what one request may ask for.
pub open spec fn within(spec: ModelSpecView, limits: Limits) -> bool {
    &&& spec.features <= limits.max_features
    &&& spec.layers.len() <= limits.max_layers
    &&& forall|i: int|
        0 <= i < spec.layers.len() ==> (#[trigger] spec.layers[i]).units
            <= limits.max_units_per_layer
}

/// A client can keep a model over a restart: a request that asks for the same
/// layers and sends the weights that were read off the model is accepted, and
/// asks for just these layers with just these weights. Weights that training
/// drove to infinity are the exception: they are refused.
pub proof fn a_model_can_be_created_again(
    request: CreateModelRequest,
    model: StoredModelView,
    limits: Limits,
    drawn: u64,
)
    requires
        model.wf(),
        within(model.spec, limits),
        asks_for_again(request, model),
        forall|i: int| 0 <= i < model.weights.len() ==> (#[trigger] model.weights[i]).finite(),
        optimizer_for(request.optimizer, request.loss) is Ok,
        request.resolved_batch_size() > 0,
        request.resolved_name() is Ok,
    ensures
        request.parts(limits, drawn) is Ok,
        request.parts(limits, drawn)->Ok_0.spec.features == model.spec.features,
        request.parts(limits, drawn)->Ok_0.spec.layers == model.spec.layers,
        request.parts(limits, drawn)->Ok_0.weights == model.weights,
{
    let layers = request.layers@;
    let names = model.spec.layers.map_values(|layer: LayerSpecView| layer.name);
    given_names_are_kept(layers, model.spec, layers.len());
    assert(names.take(layers.len() as int) =~= names);
    granted_units(layers, names, limits.max_units_per_layer, 0);
    assert(named_layers(layers, names) =~= model.spec.layers);
    let spec = request.resolved_spec(limits, drawn)->Ok_0;
    assert(complete(spec, model.weights)) by {
        assert forall|i: int| spec.input_count(i) == model.spec.input_count(i) by {}
    }
    complete_weights_are_accepted(spec, model.weights, 0);
}

/// Names that are given, differ and are not blank are the names the layers get.
proof fn given_names_are_kept(layers: Seq<LayerRequest>, spec: ModelSpecView, count: nat)
    requires
        spec.buildable(),
        layers.len() == spec.layers.len(),
        count <= layers.len(),
        forall|i: int|
            0 <= i < layers.len() ==> ((#[trigger] layers[i]).name matches Some(name) && name@
                == spec.layers[i].name),
    ensures
        layer_names(layers, count) == Ok::<Seq<Seq<char>>, ErrorView>(
            spec.layers.map_values(|layer: LayerSpecView| layer.name).take(count as int),
        ),
    decreases count,
{
    let names = spec.layers.map_values(|layer: LayerSpecView| layer.name);
    if count == 0 {
        assert(names.take(0) =~= Seq::<Seq<char>>::empty());
    } else {
        let last = count - 1;
        given_names_are_kept(layers, spec, last as nat);
        assert(layers[last].name is Some);
        assert(!blank(spec.layers[last].name));
        assert(!names.take(last).contains(spec.layers[last].name)) by {
            if names.take(last).contains(spec.layers[last].name) {
                let i = choose|i: int|
                    0 <= i < last && names.take(last)[i] == spec.layers[last].name;
                assert(spec.layers[i].name == spec.layers[last].name);
            }
        }
        assert(names.take(last).push(spec.layers[last].name) =~= names.take(count as int));
    }
}

/// Units within the limit are granted.
proof fn granted_units(
    layers: Seq<LayerRequest>,
    names: Seq<Seq<char>>,
    limit: usize,
    from: int,
)
    requires
        0 <= from,
        forall|i: int| 0 <= i < layers.len() ==> 0 < (#[trigger] layers[i]).units <= limit,
    ensures
        units_fault(layers, names, limit, from) is None,
    decreases layers.len() - from,
{
    if from < layers.len() {
        granted_units(layers, names, limit, from + 1);
    }
}

/// What is loaded into the engine is what is reported: where the engine hands
/// back the matrices it was given, a model created with weights for every
/// layer has these weights.
pub proof fn loaded_weights_are_reported(
    spec: ModelSpecView,
    weights: Seq<LayerWeightsView>,
    built: BuiltModel,
)
    requires
        spec.buildable(),
        complete(spec, weights),
        built.layers@.len() == weights.len(),
        forall|i: int|
            0 <= i < weights.len() ==> (#[trigger] built.layers@[i]).matrices@ == plan_of(
                spec,
                weights,
            ).weights[i],
    ensures
        model_report(built).weights == weights,
{
    assert forall|i: int| 0 <= i < weights.len() implies model_report(built).weights[i]
        == weights[i] by {
        assert(spec.layers[i].units > 0);
        assert(weights[i].fits(spec.input_count(i) as int, spec.layers[i].units as int));
        weights_survive_the_engine(weights[i]);
        assert(built.layers@[i].matrices@ == matrices_of(weights[i]));
    }
    assert(model_report(built).weights =~= weights);
}

/// Weights sent for some of the layers are what these layers have, and the
/// others have what they were made with: where the engine hands back the
/// matrices it was given for the layers that were sent, and for the others the
/// ones it makes without any, the report has one entry per layer, in order,
/// each what was sent for it or what a model without weights has.
pub proof fn sent_weights_are_reported(
    spec: ModelSpecView,
    sent: Seq<LayerWeightsView>,
    built: BuiltModel,
    fresh: BuiltModel,
)
    requires
        spec.buildable(),
        weights_fault(spec, sent, 0) is None,
        built_as_told(spec, built),
        built_as_told(spec, fresh),
        forall|i: int|
            0 <= i < sent.len() ==> built.layers@[spec.index_of(
                (#[trigger] sent[i]).name,
            )->0].matrices@ == plan_of(spec, sent).weights[i],
        forall|k: int|
            0 <= k < spec.layers.len() && !given_before(
                sent,
                sent.len() as int,
                spec.layers[k].name,
            ) ==> (#[trigger] built.layers@[k]).matrices@ == fresh.layers@[k].matrices@,
    ensures
        plan_of(spec, sent).seed == plan_of(spec, Seq::empty()).seed,
        plan_of(spec, sent).features == plan_of(spec, Seq::empty()).features,
        plan_of(spec, sent).layers == plan_of(spec, Seq::empty()).layers,
        model_report(built).weights.len() == spec.layers.len(),
        forall|k: int|
            0 <= k < spec.layers.len() ==> (#[trigger] model_report(built).weights[k]).name
                == spec.layers[k].name,
        forall|i: int|
            0 <= i < sent.len() ==> model_report(built).weights[spec.index_of(
                (#[trigger] sent[i]).name,
            )->0] == sent[i],
        forall|k: int|
            0 <= k < spec.layers.len() && !given_before(
                sent,
                sent.len() as int,
                spec.layers[k].name,
            ) ==> #[trigger] model_report(built).weights[k] == model_report(fresh).weights[k],
{
    accepted_weights_fit(spec, sent, 0);
    assert forall|i: int| 0 <= i < sent.len() implies model_report(built).weights[spec.index_of(
        (#[trigger] sent[i]).name,
    )->0] == sent[i] by {
        let k = spec.index_of(sent[i].name)->0;
        layer_position_is_first(spec.layers, sent[i].name, 0);
        assert(spec.layers[k].units > 0);
        weights_survive_the_engine(sent[i]);
        assert(plan_of(spec, sent).weights[i] == matrices_of(sent[i]));
    }
    assert forall|k: int|
        0 <= k < spec.layers.len() && !given_before(
            sent,
            sent.len() as int,
            spec.layers[k].name,
        ) implies #[trigger] model_report(built).weights[k] == model_report(fresh).weights[k] by {
        assert(built.layers@[k].matrices@ == fresh.layers@[k].matrices@);
    }
}

/// A model that is built again from the weights of its report has just these
/// weights: where the engine hands back the matrices it was given, reporting
/// twice reports the same.
pub proof fn a_report_can_be_built_again(
    spec: ModelSpecView,
    built: BuiltModel,
    again: BuiltModel,
)
    requires
        spec.buildable(),
        built_as_told(spec, built),
        again.layers@.len() == spec.layers.len(),
        forall|i: int|
            0 <= i < spec.layers.len() ==> (#[trigger] again.layers@[i]).matrices@ == plan_of(
                spec,
                model_report(built).weights,
            ).weights[i],
    ensures
        model_report(again).weights == model_report(built).weights,
{
    a_report_describes_its_spec(spec, built);
    loaded_weights_are_reported(spec, model_report(built).weights, again);
}

// ----------------------------------------------------------------- training

/// A run compiles the model as it was compiled for the run, and changes
/// nothing else about its settings: the seed and the batch size of a request
/// count for that run alone, and the layers and the name are what they were.
pub proof fn a_run_keeps_the_settings(
    model: StoredModelView,
    plan: TrainPlanView,
    weights: Seq<LayerWeightsView>,
    losses: Seq<Number>,
    ratios: Option<Seq<usize>>,
    now: u64,
)
    ensures
        ({
            let later = trained(model, plan, weights, losses, ratios, now);
            &&& later.spec.loss == Some(plan.loss)
            &&& later.spec.optimizer == Some(plan.optimizer)
            &&& later.spec.seed == model.spec.seed
            &&& later.spec.features == model.spec.features
            &&& later.spec.layers == model.spec.layers
            &&& later.batch_size == model.batch_size
            &&& later.id == model.id
            &&& later.name == model.name
            &&& later.created_at_ms == model.created_at_ms
        }),
{
}

/// What a run uses: the request's batch size, loss, optimizer and seed where
/// it sends them, the model's own where it does not.
pub proof fn a_run_uses_what_was_sent(
    model: StoredModelView,
    request: TrainRequest,
    scaled: bool,
    x: Seq<Seq<Number>>,
    y: Seq<Seq<Number>>,
    limits: Limits,
)
    requires
        train_plan(model, request, scaled, x, y, limits) is Ok,
    ensures
        ({
            let plan = train_plan(model, request, scaled, x, y, limits)->Ok_0;
            &&& plan.options.epochs == request.epochs
            &&& 1 <= plan.options.epochs <= limits.max_epochs
            &&& plan.options.batch_size == (match request.batch_size {
                Some(size) => size,
                None => model.batch_size,
            })
            &&& plan.options.batch_size > 0
            &&& plan.build.seed == (match request.seed {
                Some(seed) => seed,
                None => model.spec.seed,
            })
            &&& request.loss matches Some(loss) ==> plan.loss == loss
            &&& request.loss is None ==> Some(plan.loss) == model.spec.loss
            &&& request.optimizer is None && model.spec.optimizer is Some
                ==> Some(plan.optimizer) == model.spec.optimizer
            &&& plan.build.compile == Some((plan.loss, plan.optimizer))
            &&& plan.samples == x.len() as usize
        }),
{
}

/// Training is cumulative: a second run carries on from the weights the first
/// one left, and the epochs of both are counted.
pub proof fn training_is_cumulative(
    model: StoredModelView,
    first: TrainPlanView,
    weights: Seq<LayerWeightsView>,
    losses: Seq<Number>,
    ratios: Option<Seq<usize>>,
    now: u64,
    request: TrainRequest,
    scaled: bool,
    x: Seq<Seq<Number>>,
    y: Seq<Seq<Number>>,
    limits: Limits,
    more_losses: Seq<Number>,
    more_ratios: Option<Seq<usize>>,
    duration_ms: u64,
)
    requires
        model.trained_epochs + first.options.epochs + request.epochs <= usize::MAX,
        train_plan(
            trained(model, first, weights, losses, ratios, now),
            request,
            scaled,
            x,
            y,
            limits,
        ) is Ok,
    ensures
        ({
            let between = trained(model, first, weights, losses, ratios, now);
            let second = train_plan(between, request, scaled, x, y, limits)->Ok_0;
            &&& second.build.weights == weights.map_values(
                |layer: LayerWeightsView| matrices_of(layer),
            )
            &&& train_response(
                between,
                second,
                more_losses,
                more_ratios,
                duration_ms,
            ).trained_epochs == model.trained_epochs + first.options.epochs + request.epochs
        }),
{
}

/// Runs are repeatable: two models with the same architecture, weights and
/// defaults get the same run from the same request, down to the seed.
pub proof fn equal_models_get_equal_runs(
    one: StoredModelView,
    other: StoredModelView,
    request: TrainRequest,
    scaled: bool,
    x: Seq<Seq<Number>>,
    y: Seq<Seq<Number>>,
    limits: Limits,
)
    requires
        one.spec == other.spec,
        one.weights == other.weights,
        one.batch_size == other.batch_size,
    ensures
        match train_plan(one, request, scaled, x, y, limits) {
            Err(error) => train_plan(other, request, scaled, x, y, limits) == Err::<
                TrainPlanView,
                ErrorView,
            >(error),
            Ok(plan) => train_plan(other, request, scaled, x, y, limits) == Ok::<
                TrainPlanView,
                ErrorView,
            >(TrainPlanView { id: other.id, ..plan }),
        },
{
}

/// And repeatable to the end: where the engine makes the same of the same run,
/// two such models are answered alike, ids and what they were before apart,
/// and are left with the same weights, the same last loss and compiled alike.
/// A seed that was sent is gone with the run.
pub proof fn equal_runs_leave_equal_models(
    one: StoredModelView,
    other: StoredModelView,
    request: TrainRequest,
    scaled: bool,
    x: Seq<Seq<Number>>,
    y: Seq<Seq<Number>>,
    limits: Limits,
    weights: Seq<LayerWeightsView>,
    losses: Seq<Number>,
    ratios: Option<Seq<usize>>,
    now: u64,
    later: u64,
    duration_ms: u64,
    other_duration_ms: u64,
)
    requires
        one.spec == other.spec,
        one.weights == other.weights,
        one.batch_size == other.batch_size,
        train_plan(one, request, scaled, x, y, limits) is Ok,
        train_plan(other, request, scaled, x, y, limits) is Ok,
    ensures
        ({
            let plan = train_plan(one, request, scaled, x, y, limits)->Ok_0;
            let other_plan = train_plan(other, request, scaled, x, y, limits)->Ok_0;
            let answer = train_response(one, plan, losses, ratios, duration_ms);
            let other_answer = train_response(
                other,
                other_plan,
                losses,
                ratios,
                other_duration_ms,
            );
            let left = trained(one, plan, weights, losses, ratios, now);
            let other_left = trained(other, other_plan, weights, losses, ratios, later);
            &&& plan.build == other_plan.build
            &&& plan.x == other_plan.x && plan.y == other_plan.y
            &&& plan.options == other_plan.options
            &&& answer == (TrainResponseView {
                id: one.id,
                trained_epochs: answer.trained_epochs,
                duration_ms,
                ..other_answer
            })
            &&& answer.initial_loss == losses.first() && answer.final_loss == losses.last()
            &&& left.weights == weights && other_left.weights == weights
            &&& left.last_loss == other_left.last_loss
            &&& left.spec == other_left.spec
            &&& left.spec.seed == one.spec.seed
            &&& request.seed matches Some(seed) ==> plan.build.seed == seed
        }),
{
}

/// Scaling the columns first changes nothing about what is planned: on a model
/// with one output, a column-scaled run is the plain run on the same data.
pub proof fn a_scaled_run_is_planned_like_any_other(
    model: StoredModelView,
    request: TrainRequest,
    x: Seq<Seq<Number>>,
    y: Seq<Seq<Number>>,
    limits: Limits,
)
    ensures
        model.spec.output_units() == 1 ==> train_plan(model, request, true, x, y, limits)
            == train_plan(model, request, false, x, y, limits),
        model.spec.output_units() != 1 ==> train_plan(model, request, true, x, y, limits) is Err,
{
}

/// Predictions of a column-scaled model are asked for and answered in the
/// scales of its last column-scaled run; plain runs in between change nothing
/// about that, and a model that never had one is asked as it is.
pub proof fn predictions_follow_the_last_scaled_run(
    model: StoredModelView,
    plan: TrainPlanView,
    weights: Seq<LayerWeightsView>,
    losses: Seq<Number>,
    ratios: Option<Seq<usize>>,
    now: u64,
    x: Seq<Seq<Number>>,
    limits: Limits,
)
    requires
        predict_plan(trained(model, plan, weights, losses, ratios, now), x, limits) is Ok,
    ensures
        ({
            let later = trained(model, plan, weights, losses, ratios, now);
            let asked = predict_plan(later, x, limits)->Ok_0;
            &&& ratios matches Some(ratios) ==> asked.rescaling == Some(rescaling(ratios))
            &&& ratios is None ==> asked.rescaling == predict_plan(model, x, limits)->Ok_0.rescaling
            &&& later.ten_power_ratios is None ==> asked.rescaling is None
        }),
{
}

/// A refused run, prediction or evaluation is refused whatever the weights
/// are: only the request, the data, the limits and the model's settings count.
pub proof fn weights_decide_nothing(
    model: StoredModelView,
    weights: Seq<LayerWeightsView>,
    request: TrainRequest,
    scaled: bool,
    x: Seq<Seq<Number>>,
    y: Seq<Seq<Number>>,
    limits: Limits,
)
    ensures
        ({
            let other = StoredModelView { weights, ..model };
            &&& train_plan(other, request, scaled, x, y, limits) is Ok <==> train_plan(
                model,
                request,
                scaled,
                x,
                y,
                limits,
            ) is Ok
            &&& predict_plan(other, x, limits) is Ok <==> predict_plan(model, x, limits) is Ok
            &&& evaluate_plan(other, request.loss, x, y, limits) is Ok <==> evaluate_plan(
                model,
                request.loss,
                x,
                y,
                limits,
            ) is Ok
        }),
{
}

// ------------------------------------------------------------------- errors

/// A 400 with the code of a request that cannot be met.
pub open spec fn says_invalid_request(error: ErrorView) -> bool {
    error.status == 400 && error.code == "invalid_request"@
}

/// Names that cannot be had are a 400.
proof fn refused_names_are_a_400(layers: Seq<LayerRequest>, count: nat)
    ensures
        layer_names(layers, count) matches Err(error) ==> says_invalid_request(error),
    decreases count,
{
    if count > 0 {
        refused_names_are_a_400(layers, (count - 1) as nat);
    }
}

/// Units that cannot be had are a 400.
proof fn refused_units_are_a_400(
    layers: Seq<LayerRequest>,
    names: Seq<Seq<char>>,
    limit: usize,
    from: int,
)
    ensures
        units_fault(layers, names, limit, from) matches Some(error) ==> says_invalid_request(error),
    decreases layers.len() - from,
{
    if 0 <= from < layers.len() {
        refused_units_are_a_400(layers, names, limit, from + 1);
    }
}

/// Weights that cannot be loaded are a 400.
pub proof fn refused_weights_are_a_400(
    spec: ModelSpecView,
    weights: Seq<LayerWeightsView>,
    from: int,
)
    ensures
        weights_fault(spec, weights, from) matches Some(error) ==> says_invalid_request(error),
    decreases weights.len() - from,
{
    if 0 <= from < weights.len() {
        refused_weights_are_a_400(spec, weights, from + 1);
    }
}

/// A model that cannot be had is a 400.
pub proof fn refused_models_are_a_400(request: CreateModelRequest, limits: Limits, drawn: u64)
    ensures
        request.parts(limits, drawn) matches Err(error) ==> says_invalid_request(error),
{
    refused_names_are_a_400(request.layers@, request.layers@.len());
    if let Ok(names) = layer_names(request.layers@, request.layers@.len()) {
        refused_units_are_a_400(request.layers@, names, limits.max_units_per_layer, 0);
    }
    if let Ok(spec) = request.resolved_spec(limits, drawn) {
        refused_weights_are_a_400(spec, request.sent_weights(), 0);
    }
}

/// Whatever is wrong with the values of a request, it is found before the
/// engine runs and answered with a 400: with the epochs, the data, the loss,
/// the optimizer or the batch size of a run, and with what is predicted,
/// evaluated or scaled.
pub proof fn refused_values_are_a_400(
    model: StoredModelView,
    request: TrainRequest,
    scaled: bool,
    x: Seq<Seq<Number>>,
    y: Seq<Seq<Number>>,
    limits: Limits,
)
    ensures
        epochs_fault(request.epochs, limits) matches Some(error) ==> says_invalid_request(error),
        train_plan(model, request, scaled, x, y, limits) matches Err(error)
            ==> says_invalid_request(error),
        predict_plan(model, x, limits) matches Err(error) ==> says_invalid_request(error),
        evaluate_plan(model, request.loss, x, y, limits) matches Err(error)
            ==> says_invalid_request(error),
        scale_plan(x, y, limits) matches Err(error) ==> says_invalid_request(error),
{
}

/// A path that may not be read is a 400, whatever the disk says.
pub proof fn refused_files_are_a_400(
    config: ConfigView,
    field: Seq<char>,
    requested: RequestedPathView,
    state: LoadState,
    event: LoadEvent,
    inline: Option<Vec<Vec<Number>>>,
    path: Option<RequestedPathView>,
)
    ensures
        source_of(config, field, inline, path) matches Err(error) ==> says_invalid_request(error),
        after(config, field, requested, state, event) matches Err(error) ==> says_invalid_request(
            error,
        ),
{
}

/// A model that is not found is a 404 where its id is one, and a 400 where it
/// is not.
pub proof fn missing_models_are_a_404(state: AppStateView, raw: Seq<char>)
    ensures
        id_from(raw) is Err ==> (model_at(state, raw) matches Err(error) && says_invalid_request(
            error,
        )),
        id_from(raw) is Ok && !state.models.contains_key(id_from(raw)->Ok_0) ==> (model_at(
            state,
            raw,
        ) matches Err(error) && error.status == 404 && error.code == "not_found"@),
{
}

/// An id that is no id, and an id no model has, are answered with what was
/// sent; every other id leads to the model that is stored under it.
pub proof fn an_id_leads_to_its_model(state: AppStateView, raw: Seq<char>)
    requires
        state.wf(),
    ensures
        match read_id(raw) {
            None => model_at(state, raw) == Err::<StoredModelView, ErrorView>(
                ErrorView {
                    status: 400,
                    code: "invalid_request"@,
                    message: "'"@ + raw
                        + "' is not a model id; an id is a UUID, as returned by POST /create-compile-model"@,
                },
            ),
            Some(id) => if state.models.contains_key(id as u128) {
                &&& model_at(state, raw) == Ok::<StoredModelView, ErrorView>(
                    state.models[id as u128],
                )
                &&& state.models[id as u128].id == id as u128
            } else {
                model_at(state, raw) == Err::<StoredModelView, ErrorView>(
                    ErrorView {
                        status: 404,
                        code: "not_found"@,
                        message: "there is no model with id '"@ + written_id(id as u128) + "'"@,
                    },
                )
            },
        },
{
}

/// A store that is full says so, with the limit it is at.
pub proof fn a_full_store_says_so(limit: nat)
    ensures
        conflict(full_message(limit)) == (ErrorView {
            status: 409,
            code: "conflict"@,
            message: "the server is holding "@ + decimal(limit)
                + " models, the limit; delete one before creating another"@,
        }),
{
}

// ------------------------------------------------------------------ changes

/// Loading weights changes the layers that were named and no others: a layer
/// for which something was sent has that, and a layer for which nothing was
/// sent has what it had.
pub proof fn loading_changes_the_named_layers(
    spec: ModelSpecView,
    earlier: Seq<LayerWeightsView>,
    incoming: Seq<LayerWeightsView>,
    later: Seq<LayerWeightsView>,
    layer: int,
)
    requires
        spec.names_differ(),
        earlier.len() == spec.layers.len(),
        loaded(spec, earlier, incoming, later),
        0 <= layer < spec.layers.len(),
    ensures
        later.len() == earlier.len(),
        forall|i: int|
            0 <= i < incoming.len() && (#[trigger] incoming[i]).name == spec.layers[layer].name
                ==> later[layer] == incoming[i],
        (forall|i: int|
            0 <= i < incoming.len() ==> (#[trigger] incoming[i]).name != spec.layers[layer].name)
            ==> later[layer] == earlier[layer],
{
    spec.each_layer_is_found(layer);
    if forall|i: int|
        0 <= i < incoming.len() ==> (#[trigger] incoming[i]).name != spec.layers[layer].name {
        assert(!given_before(incoming, incoming.len() as int, spec.layers[layer].name));
        assert(later[layer] == earlier[layer]);
    }
}

/// A run is written back to its model and to no other: to the one in the store,
/// or, where it is gone from there, to the one the request still holds, and then
/// the store stays as it is.
pub proof fn a_run_changes_only_its_model(
    before: AppStateView,
    deleted_before: Option<StoredModel>,
    id: u128,
    later: StoredModelView,
    after: AppStateView,
    deleted_after: Option<StoredModel>,
    other: u128,
)
    requires
        run_written(before, deleted_before, id, later, after, deleted_after),
        later.id == id,
    ensures
        after.config == before.config,
        other != id ==> (after.models.contains_key(other) <==> before.models.contains_key(other)),
        other != id && before.models.contains_key(other) ==> after.models[other]
            == before.models[other],
        after.models.contains_key(id) <==> before.models.contains_key(id),
        before.models.contains_key(id) ==> after.models[id] == later && deleted_after
            == deleted_before && run_subject(before, deleted_before, id) == before.models[id],
        !before.models.contains_key(id) ==> (deleted_after matches Some(model) && model@ == later),
        !before.models.contains_key(id) && deleted_before is Some ==> run_subject(
            before,
            deleted_before,
            id,
        ) == (deleted_before->0)@,
{
}

/// What came of a run is written back exactly where it has weights for every
/// layer, ratios, if it has any, for every column, and epochs that can still be
/// counted.
pub proof fn a_run_is_written_back_where_it_fits(
    model: StoredModelView,
    plan: TrainPlanView,
    weights: Seq<LayerWeightsView>,
    ratios: Option<Seq<usize>>,
)
    ensures
        run_fits(model, plan, weights, ratios) <==> {
            &&& complete(model.spec, weights)
            &&& ratios is Some ==> ratios_fit(model.spec, ratios->0)
            &&& model.trained_epochs + plan.options.epochs <= usize::MAX
        },
{
}

/// A new model is found under its id with the weights the engine reported, and
/// no other model is touched.
pub proof fn a_created_model_is_found(
    state: AppStateView,
    new: NewModelView,
    report: ModelReportView,
    id: u128,
    now: u64,
    other: u128,
)
    requires
        other != id,
    ensures
        ({
            let later = state.with(stored(built(new, report), id, now));
            &&& later.config == state.config
            &&& later.models.contains_key(id)
            &&& later.models[id].id == id
            &&& later.models[id].spec == new.spec
            &&& later.models[id].name == new.name
            &&& later.models[id].batch_size == new.batch_size
            &&& later.models[id].weights == report.weights
            &&& later.models[id].trained_epochs == 0
            &&& later.models.contains_key(other) <==> state.models.contains_key(other)
            &&& state.models.contains_key(other) ==> later.models[other] == state.models[other]
        }),
{
}

/// The keys of an optimizer object: three that name the optimizer, one that
/// names the rate, and no others.
pub proof fn an_optimizer_goes_by_these_keys(key: Seq<char>)
    ensures
        optimizer_field(key) == Some(OptimizerField::Kind) <==> key == "type"@ || key == "kind"@
            || key == "name"@,
        optimizer_field(key) == Some(OptimizerField::LearningRate) <==> key == "learning_rate"@,
{
    reveal_strlit("type");
    reveal_strlit("kind");
    reveal_strlit("name");
    reveal_strlit("learning_rate");
    assert("type"@.len() == 4 && "kind"@.len() == 4 && "name"@.len() == 4);
    assert("learning_rate"@.len() == 13);
}

/// A field of an optimizer object counts as read exactly where its own value is
/// there.
pub proof fn a_field_is_read_once(fields: OptimizerFields)
    ensures
        fields.has(OptimizerField::Kind) <==> fields.kind is Some,
        fields.has(OptimizerField::LearningRate) <==> fields.learning_rate is Some,
{
}

} // verus!
