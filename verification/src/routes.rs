//! The endpoints.
//!
//! Every request takes the same three steps: validate it against the stored
//! model, have the engine do its work, and make an answer of what the engine
//! returned. The first and the last are decided here; a plan says what the
//! engine is to do in between.

use vstd::prelude::*;

use crate::config::Limits;
use crate::dto::{
    accepted_model_can_be_built, accepted_weights_fit, default_optimizer, features_fault,
    given_before, list_entry, model_response, no_samples_message, optimizer_for, samples_fault,
    too_many_samples_message, validate_features,
    validate_samples, validate_weights, weights_fault, CreateModelRequest, EvaluateResponse,
    HealthResponse, ModelListEntry, ModelListResponse, ModelResponse, OptimizerRequest,
    PredictResponse, PredictResponseView, ScaleRequest, ScaleResponse, ScaleResponseView,
    SetWeightsRequest, TrainRequest, TrainResponse, TrainResponseView,
    WeightsResponse, WeightsResponseView,
};
use crate::engine::{
    at_least_1, build, chunks, complete_weights_fill_matrices, find_other_width,
    first_other_width, first_width, matrix_from, matrix_of, plan_of, rescaling, rescaling_of,
    rows_of, BuildPlan, BuildPlanView, FitOptions, Matrix, MatrixView,
    ModelReport, ModelReportView, Rescaling, RescalingView, TrainOutcome,
};
use crate::error::{
    bad_request, conflict, internal, outcome, refusal, ApiError, ErrorView,
};
use crate::fidelity::{
    a_model_is_built_as_specified, builds_layers, loads, stored_weights_are_rectangular,
};
use crate::ids::{
    new_uuid, parse_uuid, read_id, version_4, written_id, written_id_is_read_back,
};
use crate::model::{
    complete, copy_ratios, copy_weights, do_ratios_fit, is_complete, layer_position_is_first, random_seed, ratios_fit,
    ratios_view, seed_of, weights_view, LayerWeights, LayerWeightsView, LossKind, ModelSpec,
    ModelSpecView, NewModel, NewModelView, OptimizerConfig, StoredModel, StoredModelView,
};
use crate::number::{rows_view, Number};
use crate::store::{
    full_message, id_fault, list_of, listed, models_view, no_model, now_ms, stored, AppState, AppStateView,
};
use crate::text::{chars_of, decimal, push_count};

verus! {

// ----------------------------------------------------------------- training

/// What is said of a run of no epochs, or too many.
pub open spec fn epochs_message(limit: nat, epochs: nat) -> Seq<char> {
    "'epochs' must be between 1 and "@ + decimal(limit) + ", got "@ + decimal(epochs)
}

/// What is said of a run or an evaluation without a loss.
pub open spec fn no_loss_message() -> Seq<char> {
    "this model has no loss yet; send 'loss' here or set it when creating the model"@
}

/// What is said of column scaling on a model with several outputs.
pub open spec fn one_unit_message(units: nat) -> Seq<char> {
    "column scaling needs a last layer of exactly 1 unit, but this model's has "@ + decimal(units)
}

/// Why a run may not have that many epochs.
pub open spec fn epochs_fault(epochs: usize, limits: Limits) -> Option<ErrorView> {
    if epochs == 0 || epochs > limits.max_epochs {
        Some(bad_request(epochs_message(limits.max_epochs as nat, epochs as nat)))
    } else {
        None
    }
}

/// Whether a run may have that many epochs. It is asked before any data is
/// read.
pub fn check_epochs(epochs: usize, limits: &Limits) -> (checked: Result<(), ApiError>)
    ensures
        refusal(checked) == epochs_fault(epochs, *limits),
{
    if epochs == 0 || epochs > limits.max_epochs {
        let mut message = "'epochs' must be between 1 and ".to_owned();
        push_count(&mut message, limits.max_epochs);
        message.append(", got ");
        push_count(&mut message, epochs);
        return Err(ApiError::bad_request(message));
    }
    Ok(())
}

/// A training run: what the engine is to build and fit, and what is remembered
/// of it afterwards.
#[derive(Debug)]
pub struct TrainPlan {
    pub id: u128,
    pub build: BuildPlan,
    pub x: Matrix,
    pub y: Matrix,
    pub options: FitOptions,
    pub samples: usize,
    pub loss: LossKind,
    pub optimizer: OptimizerConfig,
    pub return_history: bool,
}

/// A [`TrainPlan`] as a value.
#[verifier::ext_equal]
pub struct TrainPlanView {
    pub id: u128,
    pub build: BuildPlanView,
    pub x: MatrixView,
    pub y: MatrixView,
    pub options: FitOptions,
    pub samples: usize,
    pub loss: LossKind,
    pub optimizer: OptimizerConfig,
    pub return_history: bool,
}

impl View for TrainPlan {
    type V = TrainPlanView;

    open spec fn view(&self) -> TrainPlanView {
        TrainPlanView {
            id: self.id,
            build: self.build@,
            x: self.x@,
            y: self.y@,
            options: self.options,
            samples: self.samples,
            loss: self.loss,
            optimizer: self.optimizer,
            return_history: self.return_history,
        }
    }
}

/// The loss a run or an evaluation uses: the request's, or else the model's.
pub open spec fn loss_for(requested: Option<LossKind>, spec: ModelSpecView) -> Option<LossKind> {
    match requested {
        Some(loss) => Some(loss),
        None => spec.loss,
    }
}

/// The optimizer a run uses: the request's, or else the model's, or else Adam.
pub open spec fn run_optimizer(
    requested: Option<OptimizerRequest>,
    spec: ModelSpecView,
    loss: LossKind,
) -> Result<OptimizerConfig, ErrorView> {
    match (requested, spec.optimizer) {
        (None, Some(optimizer)) => Ok(optimizer),
        _ => match optimizer_for(requested, Some(loss)) {
            Ok(optimizer) => Ok(optimizer->0),
            Err(error) => Err(error),
        },
    }
}

/// The samples per gradient step of a run: the request's, or else the model's.
pub open spec fn run_batch_size(requested: Option<usize>, model: StoredModelView) -> usize {
    match requested {
        Some(size) => size,
        None => model.batch_size,
    }
}

/// The spec a run is built from: the model's, compiled with this loss and
/// optimizer, and reseeded if the request brought a seed.
pub open spec fn run_spec(
    spec: ModelSpecView,
    loss: LossKind,
    optimizer: OptimizerConfig,
    seed: Option<u64>,
) -> ModelSpecView {
    ModelSpecView {
        loss: Some(loss),
        optimizer: Some(optimizer),
        seed: match seed {
            Some(seed) => seed,
            None => spec.seed,
        },
        ..spec
    }
}

/// The first of two faults.
pub open spec fn first_fault(one: Option<ErrorView>, other: Option<ErrorView>) -> Option<
    ErrorView,
> {
    if one is Some {
        one
    } else {
        other
    }
}

/// The run a request asks for on `model`, or the first thing wrong with it.
/// `scaled` is whether the columns are to be scaled first.
pub open spec fn train_plan(
    model: StoredModelView,
    request: TrainRequest,
    scaled: bool,
    x: Seq<Seq<Number>>,
    y: Seq<Seq<Number>>,
    limits: Limits,
) -> Result<TrainPlanView, ErrorView> {
    let batch_size = run_batch_size(request.batch_size, model);
    match first_fault(
        epochs_fault(request.epochs, limits),
        samples_fault(model.spec, x, y, limits),
    ) {
        Some(error) => Err(error),
        None => if scaled && model.spec.output_units() != 1 {
            Err(bad_request(one_unit_message(model.spec.output_units() as nat)))
        } else if batch_size == 0 {
            Err(bad_request("'batch_size' must be at least 1"@))
        } else {
            match loss_for(request.loss, model.spec) {
                None => Err(bad_request(no_loss_message())),
                Some(loss) => match run_optimizer(request.optimizer, model.spec, loss) {
                    Err(error) => Err(error),
                    Ok(optimizer) => match (matrix_from(x, "x"@), matrix_from(y, "y"@)) {
                        (Err(error), _) => Err(error),
                        (_, Err(error)) => Err(error),
                        (Ok(x_matrix), Ok(y_matrix)) => Ok(
                            TrainPlanView {
                                id: model.id,
                                build: plan_of(
                                    run_spec(model.spec, loss, optimizer, request.seed),
                                    model.weights,
                                ),
                                x: x_matrix,
                                y: y_matrix,
                                options: FitOptions {
                                    epochs: request.epochs,
                                    batch_size,
                                    shuffle: request.shuffle,
                                    verbose: false,
                                },
                                samples: x.len() as usize,
                                loss,
                                optimizer,
                                return_history: request.return_history,
                            },
                        ),
                    },
                },
            }
        },
    }
}

/// The run a request asks for on `model`, its x and y loaded.
///
/// The request may compile the model again, the way Keras' `compile` does; its
/// seed applies to this run only. A column-scaled run has one target.
pub fn plan_training(
    model: &StoredModel,
    request: TrainRequest,
    scaled: bool,
    x: &Vec<Vec<Number>>,
    y: &Vec<Vec<Number>>,
    limits: &Limits,
) -> (plan: Result<TrainPlan, ApiError>)
    requires
        model@.wf(),
    ensures
        outcome(plan) == train_plan(
            model@,
            request,
            scaled,
            rows_view(x@),
            rows_view(y@),
            *limits,
        ),
        plan matches Ok(plan) ==> plan@.build.wf() && plan@.x.wf() && plan@.y.wf(),
        plan matches Ok(plan) ==> 1 <= plan@.options.epochs <= limits.max_epochs,
{
    match check_epochs(request.epochs, limits) {
        Ok(_) => {},
        Err(error) => return Err(error),
    }
    match validate_samples(&model.spec, x, y, limits) {
        Ok(_) => {},
        Err(error) => return Err(error),
    }
    let output_units = model.spec.output_units();
    if scaled && output_units != 1 {
        let mut message =
            "column scaling needs a last layer of exactly 1 unit, but this model's has ".to_owned();
        push_count(&mut message, output_units);
        return Err(ApiError::bad_request(message));
    }
    let batch_size: usize = match request.batch_size {
        Some(size) => size,
        None => model.batch_size,
    };
    if batch_size == 0 {
        return Err(ApiError::bad_request("'batch_size' must be at least 1".to_owned()));
    }
    let loss = match checked_loss(request.loss, &model.spec) {
        Ok(loss) => loss,
        Err(error) => return Err(error),
    };
    let optimizer = match request.optimizer {
        Some(requested) => match requested.resolve() {
            Ok(optimizer) => optimizer,
            Err(error) => return Err(error),
        },
        None => match model.spec.optimizer {
            Some(optimizer) => optimizer,
            None => default_optimizer(),
        },
    };
    let mut spec = model.spec.clone();
    spec.loss = Some(loss);
    spec.optimizer = Some(optimizer);
    if let Some(seed) = request.seed {
        spec.seed = seed;
    }
    assert(spec@ == run_spec(model@.spec, loss, optimizer, request.seed));
    let x_matrix = match matrix_of(x, "x") {
        Ok(matrix) => matrix,
        Err(error) => return Err(error),
    };
    let y_matrix = match matrix_of(y, "y") {
        Ok(matrix) => matrix,
        Err(error) => return Err(error),
    };
    proof {
        complete_weights_fill_matrices(model@.spec, model@.weights);
    }
    Ok(
        TrainPlan {
            id: model.id,
            build: build(&spec, &model.weights),
            x: x_matrix,
            y: y_matrix,
            options: FitOptions {
                epochs: request.epochs,
                batch_size,
                shuffle: request.shuffle,
                verbose: false,
            },
            samples: x.len(),
            loss,
            optimizer,
            return_history: request.return_history,
        },
    )
}

/// The loss a run or an evaluation uses, or that there is none.
fn checked_loss(requested: Option<LossKind>, spec: &ModelSpec) -> (loss: Result<LossKind, ApiError>)
    ensures
        match loss {
            Ok(loss) => loss_for(requested, spec@) == Some(loss),
            Err(error) => loss_for(requested, spec@) is None && error@ == bad_request(
                no_loss_message(),
            ),
        },
{
    let loss = match requested {
        Some(loss) => Some(loss),
        None => spec.loss,
    };
    match loss {
        Some(loss) => Ok(loss),
        None => Err(
            ApiError::bad_request(
                "this model has no loss yet; send 'loss' here or set it when creating the model".to_owned(),
            ),
        ),
    }
}

/// A model after a run: the weights the run left, compiled as the run was,
/// older by its epochs, and with its ratios if it scaled the columns.
pub open spec fn trained(
    model: StoredModelView,
    plan: TrainPlanView,
    weights: Seq<LayerWeightsView>,
    losses: Seq<Number>,
    ratios: Option<Seq<usize>>,
    now: u64,
) -> StoredModelView {
    StoredModelView {
        weights,
        spec: ModelSpecView {
            loss: Some(plan.loss),
            optimizer: Some(plan.optimizer),
            ..model.spec
        },
        trained_epochs: (model.trained_epochs + plan.options.epochs) as usize,
        last_loss: Some(losses.last()),
        updated_at_ms: now,
        ten_power_ratios: match ratios {
            Some(ratios) => Some(ratios),
            None => model.ten_power_ratios,
        },
        ..model
    }
}

/// What is told of a run.
pub open spec fn train_response(
    model: StoredModelView,
    plan: TrainPlanView,
    losses: Seq<Number>,
    ratios: Option<Seq<usize>>,
    duration_ms: u64,
) -> TrainResponseView {
    TrainResponseView {
        id: plan.id,
        epochs: plan.options.epochs,
        batch_size: plan.options.batch_size,
        samples: plan.samples,
        loss_function: plan.loss,
        optimizer: plan.optimizer,
        initial_loss: losses.first(),
        final_loss: losses.last(),
        loss: if plan.return_history {
            Some(losses)
        } else {
            None
        },
        trained_epochs: (model.trained_epochs + plan.options.epochs) as usize,
        duration_ms,
        ten_power_ratios: ratios,
    }
}

/// What the engine returned can be written back to `model`: it has weights for
/// every layer, ratios only in the number the model has columns, and the
/// epochs can still be counted.
pub open spec fn run_fits(
    model: StoredModelView,
    plan: TrainPlanView,
    weights: Seq<LayerWeightsView>,
    ratios: Option<Seq<usize>>,
) -> bool {
    &&& complete(model.spec, weights)
    &&& ratios matches Some(ratios) ==> ratios_fit(model.spec, ratios)
    &&& model.trained_epochs + plan.options.epochs <= usize::MAX
}

/// Whether what the engine returned can be written back to `model`.
pub fn does_run_fit(
    model: &StoredModel,
    plan: &TrainPlan,
    run: &TrainOutcome,
    ratios: &Option<Vec<usize>>,
) -> (fits: bool)
    ensures
        fits == run_fits(model@, plan@, weights_view(run.weights@), ratios_view(*ratios)),
{
    let ratios_fit = match ratios {
        Some(ratios) => do_ratios_fit(&model.spec, ratios),
        None => true,
    };
    ratios_fit && is_complete(&model.spec, &run.weights) && model.trained_epochs <= usize::MAX
        - plan.options.epochs
}

/// Writes a run back to its model, in one step: the new weights land all at
/// once. `ratios` are the powers of ten a column-scaled run divided by.
pub fn finish_training(
    model: &mut StoredModel,
    plan: TrainPlan,
    run: TrainOutcome,
    ratios: Option<Vec<usize>>,
    now: u64,
    duration_ms: u64,
) -> (response: Result<TrainResponse, ApiError>)
    requires
        old(model)@.wf(),
        run_fits(old(model)@, plan@, weights_view(run.weights@), ratios_view(ratios)),
    ensures
        final(model)@.wf(),
        refusal(response) == (if run.loss_history@.len() == 0 {
            Some(internal("training returned no epochs"@))
        } else {
            None
        }),
        response is Err ==> final(model)@ == old(model)@,
        response matches Ok(response) ==> {
            &&& response@ == train_response(
                old(model)@,
                plan@,
                run.loss_history@,
                ratios_view(ratios),
                duration_ms,
            )
            &&& final(model)@ == trained(
                old(model)@,
                plan@,
                weights_view(run.weights@),
                run.loss_history@,
                ratios_view(ratios),
                now,
            )
        },
{
    let ghost before = model@;
    let count = run.loss_history.len();
    if count == 0 {
        return Err(ApiError::internal("training returned no epochs".to_owned()));
    }
    let initial_loss = run.loss_history[0];
    let final_loss = run.loss_history[count - 1];
    let kept = copy_ratios(&ratios);
    model.weights = run.weights;
    model.spec.loss = Some(plan.loss);
    model.spec.optimizer = Some(plan.optimizer);
    model.trained_epochs = model.trained_epochs + plan.options.epochs;
    model.last_loss = Some(final_loss);
    model.updated_at_ms = now;
    if kept.is_some() {
        model.ten_power_ratios = kept;
    }
    assert(model@.spec.layers == before.spec.layers);
    proof {
        compiling_keeps_the_shape(before.spec, model@.spec);
    }
    Ok(
        TrainResponse {
            id: plan.id,
            epochs: plan.options.epochs,
            batch_size: plan.options.batch_size,
            samples: plan.samples,
            loss_function: plan.loss,
            optimizer: plan.optimizer,
            initial_loss,
            final_loss,
            loss: if plan.return_history {
                Some(run.loss_history)
            } else {
                None
            },
            trained_epochs: model.trained_epochs,
            duration_ms,
            ten_power_ratios: ratios,
        },
    )
}

/// Specs that differ in how they are compiled only have the same shape.
pub proof fn compiling_keeps_the_shape(one: ModelSpecView, other: ModelSpecView)
    requires
        one.features == other.features,
        one.layers == other.layers,
    ensures
        one.params() == other.params(),
        one.wf() == other.wf(),
        one.output_units() == other.output_units(),
        forall|weights: Seq<LayerWeightsView>| #[trigger]
            complete(one, weights) == complete(other, weights),
        forall|ratios: Seq<usize>| #[trigger]
            ratios_fit(one, ratios) == ratios_fit(other, ratios),
{
    params_agree(one, other, one.layers.len());
    assert forall|weights: Seq<LayerWeightsView>| #[trigger] complete(one, weights) == complete(
        other,
        weights,
    ) by {
        assert forall|i: int| one.input_count(i) == other.input_count(i) by {}
    }
}

/// The same shape has the same number of parameters.
proof fn params_agree(one: ModelSpecView, other: ModelSpecView, count: nat)
    requires
        one.features == other.features,
        one.layers == other.layers,
    ensures
        one.params_of_first(count) == other.params_of_first(count),
    decreases count,
{
    if count > 0 {
        params_agree(one, other, (count - 1) as nat);
    }
}

// ------------------------------------------------------------ finding models

/// What is said of text that is not an id.
pub open spec fn not_an_id_message(raw: Seq<char>) -> Seq<char> {
    "'"@ + raw
        + "' is not a model id; an id is a UUID, as returned by POST /create-compile-model"@
}

/// The id a path or a request names, or that it names none.
pub open spec fn id_from(raw: Seq<char>) -> Result<u128, ErrorView> {
    match read_id(raw) {
        Some(id) => Ok(id as u128),
        None => Err(bad_request(not_an_id_message(raw))),
    }
}

/// The id a path or a request names.
pub fn parse_id(raw: &str) -> (id: Result<u128, ApiError>)
    ensures
        outcome(id) == id_from(raw@),
{
    match parse_uuid(raw) {
        Ok(id) => Ok(id),
        Err(_) => {
            let mut message = "'".to_owned();
            message.append(raw);
            message.append(
                "' is not a model id; an id is a UUID, as returned by POST /create-compile-model",
            );
            Err(ApiError::bad_request(message))
        },
    }
}

/// The model a path or a request names, or why there is none: text that is no
/// id, or an id that no model has.
pub open spec fn model_at(state: AppStateView, raw: Seq<char>) -> Result<
    StoredModelView,
    ErrorView,
> {
    match id_from(raw) {
        Err(error) => Err(error),
        Ok(id) => match id_fault(state, id) {
            Some(error) => Err(error),
            None => Ok(state.models[id]),
        },
    }
}

/// The model a path or a request names.
pub fn find_model<'a>(state: &'a AppState, raw: &str) -> (model: Result<&'a StoredModel, ApiError>)
    requires
        state@.wf(),
    ensures
        match model {
            Ok(model) => model_at(state@, raw@) == Ok::<StoredModelView, ErrorView>(model@)
                && model@.wf(),
            Err(error) => model_at(state@, raw@) == Err::<StoredModelView, ErrorView>(error@),
        },
{
    match parse_id(raw) {
        Ok(id) => state.handle(id),
        Err(error) => Err(error),
    }
}

/// The id the service writes for a model leads to that model.
pub proof fn a_written_id_leads_to_its_model(state: AppStateView, id: u128)
    requires
        state.models.contains_key(id),
    ensures
        model_at(state, written_id(id)) == Ok::<StoredModelView, ErrorView>(state.models[id]),
{
    written_id_is_read_back(id);
}

/// What the engine is to build for a stored model as it is.
pub fn rebuild(model: &StoredModel) -> (plan: BuildPlan)
    requires
        model@.wf(),
    ensures
        plan@ == plan_of(model@.spec, model@.weights),
        plan@.wf(),
        builds_layers(plan@, model@.spec),
        loads(plan@, model@.weights),
{
    proof {
        complete_weights_fill_matrices(model@.spec, model@.weights);
        stored_weights_are_rectangular(model@);
        a_model_is_built_as_specified(model@.spec, model@.weights);
    }
    build(&model.spec, &model.weights)
}

// ------------------------------------------------------------- whole models

/// Whether the server is up, and how many models it holds.
pub fn health(state: &AppState) -> (response: HealthResponse)
    ensures
        response.status@ == "ok"@,
        response.service@ == "rust_nn_api"@,
        response.version@ == "0.1.0"@,
        response.models == state@.models.len(),
{
    HealthResponse {
        status: "ok",
        service: "rust_nn_api",
        version: "0.1.0",
        models: state.count(),
    }
}

/// The model a request asks for, and what the engine is to build for it.
#[derive(Debug)]
pub struct CreatePlan {
    pub new: NewModel,
    pub build: BuildPlan,
}

/// The plan is made of `parts`, and says to build just that; or there are
/// none, and it fails as they do.
pub open spec fn planned(
    plan: Result<CreatePlan, ApiError>,
    parts: Result<NewModelView, ErrorView>,
) -> bool {
    match plan {
        Ok(plan) => {
            &&& parts == Ok::<NewModelView, ErrorView>(plan.new@)
            &&& plan.build@ == plan_of(plan.new@.spec, plan.new@.weights)
            &&& plan.build@.wf()
            &&& creatable(plan.new@)
        },
        Err(error) => parts == Err::<NewModelView, ErrorView>(error@),
    }
}

/// Keras' `Sequential(...)` and `compile(...)`, up to the building: the
/// validated model, seeded with `drawn` where the request brings no seed, and
/// what the engine is to make of it.
pub fn plan_model_seeded(request: CreateModelRequest, limits: &Limits, drawn: u64) -> (plan: Result<
    CreatePlan,
    ApiError,
>)
    ensures
        planned(plan, request.parts(*limits, drawn)),
{
    let new = match request.into_parts_seeded(limits, drawn) {
        Ok(new) => new,
        Err(error) => return Err(error),
    };
    proof {
        accepted_model_can_be_built(request, *limits, drawn);
    }
    let build = build(&new.spec, &new.weights);
    Ok(CreatePlan { new, build })
}

/// Keras' `Sequential(...)` and `compile(...)`, up to the building. Where the
/// request brings no seed one is drawn, so that the model can still be built
/// again exactly.
pub fn plan_model(request: CreateModelRequest, limits: &Limits) -> (plan: Result<
    CreatePlan,
    ApiError,
>)
    ensures
        request.seed matches Some(seed) ==> planned(plan, request.parts(*limits, seed)),
        request.seed is None ==> exists|id: u128| #[trigger]
            version_4(id) && planned(plan, request.parts(*limits, seed_of(id))),
{
    let drawn: u64 = match request.seed {
        Some(seed) => seed,
        None => random_seed(),
    };
    plan_model_seeded(request, limits, drawn)
}

/// A validated model: only the weights are still to be made.
pub open spec fn creatable(new: NewModelView) -> bool {
    &&& new.spec.buildable()
    &&& new.batch_size > 0
}

/// The model with the weights it was built with.
pub open spec fn built(new: NewModelView, report: ModelReportView) -> NewModelView {
    NewModelView { weights: report.weights, ..new }
}

/// Stores a model that was built and reported on, under `id`, created `now`.
pub fn create_model_as(
    state: &mut AppState,
    new: NewModel,
    report: ModelReport,
    id: u128,
    now: u64,
) -> (response: Result<ModelResponse, ApiError>)
    requires
        old(state)@.wf(),
        creatable(new@),
        report@.describes(new@.spec),
    ensures
        final(state)@.wf(),
        refusal(response) == (if old(state)@.models.len()
            >= old(state)@.config.limits.max_models {
            Some(conflict(full_message(old(state)@.config.limits.max_models as nat)))
        } else {
            None
        }),
        response is Err ==> final(state)@ == old(state)@,
        response matches Ok(response) ==> {
            &&& final(state)@ == old(state)@.with(stored(built(new@, report@), id, now))
            &&& response@ == model_response(stored(built(new@, report@), id, now), report@)
        },
{
    let model = NewModel {
        name: new.name,
        spec: new.spec,
        weights: copy_weights(&report.weights),
        batch_size: new.batch_size,
    };
    assert(model@ == built(new@, report@));
    match state.insert_as(model, id, now) {
        Ok(stored) => Ok(ModelResponse::new(&stored, report)),
        Err(error) => Err(error),
    }
}

/// Stores a model that was built and reported on. Which id it gets is chance,
/// and when it was made is up to the clock.
pub fn create_model(state: &mut AppState, new: NewModel, report: ModelReport) -> (response: Result<
    ModelResponse,
    ApiError,
>)
    requires
        old(state)@.wf(),
        creatable(new@),
        report@.describes(new@.spec),
    ensures
        final(state)@.wf(),
        refusal(response) == (if old(state)@.models.len()
            >= old(state)@.config.limits.max_models {
            Some(conflict(full_message(old(state)@.config.limits.max_models as nat)))
        } else {
            None
        }),
        response is Err ==> final(state)@ == old(state)@,
        response matches Ok(response) ==> {
            let model = stored(built(new@, report@), response@.id, response@.created_at_ms);
            &&& version_4(response@.id)
            &&& final(state)@ == old(state)@.with(model)
            &&& response@ == model_response(model, report@)
        },
{
    let now = now_ms();
    let id = new_uuid();
    create_model_as(state, new, report, id, now)
}

/// [`create_model`] on whatever the engine reported: a report on another model
/// than the one it was told to build is the server's own fault, and changes
/// nothing.
pub fn create_model_checked(state: &mut AppState, new: NewModel, report: ModelReport) -> (response:
    Result<ModelResponse, ApiError>)
    requires
        old(state)@.wf(),
        creatable(new@),
    ensures
        final(state)@.wf(),
        refusal(response) == (if !report@.describes(new@.spec) {
            Some(internal("the engine built another model than it was told to"@))
        } else if old(state)@.models.len() >= old(state)@.config.limits.max_models {
            Some(conflict(full_message(old(state)@.config.limits.max_models as nat)))
        } else {
            None
        }),
        response is Err ==> final(state)@ == old(state)@,
        response matches Ok(response) ==> {
            let model = stored(built(new@, report@), response@.id, response@.created_at_ms);
            &&& version_4(response@.id)
            &&& final(state)@ == old(state)@.with(model)
            &&& response@ == model_response(model, report@)
        },
{
    if !report.describes(&new.spec) {
        return Err(
            ApiError::internal("the engine built another model than it was told to".to_owned()),
        );
    }
    create_model(state, new, report)
}

/// Every model the server holds, newest first.
pub fn list_models(state: &AppState) -> (response: ModelListResponse)
    requires
        state@.wf(),
    ensures
        response.count == state@.models.len(),
        listed(state@.models, list_of(state@.models)),
        response.models@.map_values(|entry: ModelListEntry| entry@) == list_of(
            state@.models,
        ).map_values(|model: StoredModelView| list_entry(model)),
{
    let models = state.list();
    let ghost list = list_of(state@.models);
    let mut entries: Vec<ModelListEntry> = Vec::with_capacity(models.len());
    let mut index: usize = 0;
    while index < models.len()
        invariant
            state@.wf(),
            models_view(models@) == list,
            listed(state@.models, list),
            index <= models@.len(),
            entries@.len() == index,
            forall|i: int| 0 <= i < index ==> (#[trigger] entries@[i])@ == list_entry(list[i]),
        decreases models@.len() - index,
    {
        assert(list[index as int] == models@[index as int]@);
        assert(state@.models.contains_key(list[index as int].id));
        entries.push(ModelListEntry::of(&models[index]));
        index += 1;
    }
    assert(models@.len() == list.len());
    assert(entries@.map_values(|entry: ModelListEntry| entry@) =~= list.map_values(
        |model: StoredModelView| list_entry(model),
    ));
    ModelListResponse { count: entries.len(), models: entries }
}

/// One model, and what the engine is to build to report on it.
pub fn get_model(state: &AppState, raw: &str) -> (found: Result<
    (StoredModel, BuildPlan),
    ApiError,
>)
    requires
        state@.wf(),
    ensures
        match found {
            Ok((model, plan)) => {
                &&& model_at(state@, raw@) == Ok::<StoredModelView, ErrorView>(model@)
                &&& plan@ == plan_of(model@.spec, model@.weights)
                &&& plan@.wf()
                &&& builds_layers(plan@, model@.spec)
                &&& loads(plan@, model@.weights)
            },
            Err(error) => model_at(state@, raw@) == Err::<StoredModelView, ErrorView>(error@),
        },
{
    match find_model(state, raw) {
        Ok(model) => Ok((model.clone(), rebuild(model))),
        Err(error) => Err(error),
    }
}

/// Removes a model.
pub fn delete_model(state: &mut AppState, raw: &str) -> (removed: Result<(), ApiError>)
    requires
        old(state)@.wf(),
    ensures
        final(state)@.wf(),
        match removed {
            Ok(_) => {
                &&& model_at(old(state)@, raw@) is Ok
                &&& final(state)@.config == old(state)@.config
                &&& final(state)@.models == old(state)@.models.remove(id_from(raw@)->Ok_0)
            },
            Err(error) => {
                &&& model_at(old(state)@, raw@) == Err::<StoredModelView, ErrorView>(error@)
                &&& final(state)@ == old(state)@
            },
        },
{
    match parse_id(raw) {
        Ok(id) => state.remove(id),
        Err(error) => Err(error),
    }
}

// --------------------------------------------------------------- predicting

/// What the engine is to predict, and with which powers of ten x and its
/// answer are multiplied on a column-scaled model.
#[derive(Debug)]
pub struct PredictPlan {
    pub id: u128,
    pub build: BuildPlan,
    pub x: Matrix,
    pub rescaling: Option<Rescaling>,
}

/// A [`PredictPlan`] as a value.
#[verifier::ext_equal]
pub struct PredictPlanView {
    pub id: u128,
    pub build: BuildPlanView,
    pub x: MatrixView,
    pub rescaling: Option<RescalingView>,
}

impl View for PredictPlan {
    type V = PredictPlanView;

    open spec fn view(&self) -> PredictPlanView {
        PredictPlanView {
            id: self.id,
            build: self.build@,
            x: self.x@,
            rescaling: match self.rescaling {
                Some(rescaling) => Some(rescaling@),
                None => None,
            },
        }
    }
}

/// The prediction asked of `model`, or why there is none for x.
pub open spec fn predict_plan(model: StoredModelView, x: Seq<Seq<Number>>, limits: Limits) -> Result<
    PredictPlanView,
    ErrorView,
> {
    match features_fault(model.spec, x, limits) {
        Some(error) => Err(error),
        None => match matrix_from(x, "x"@) {
            Err(error) => Err(error),
            Ok(matrix) => Ok(
                PredictPlanView {
                    id: model.id,
                    build: plan_of(model.spec, model.weights),
                    x: matrix,
                    rescaling: match model.ten_power_ratios {
                        Some(ratios) => Some(rescaling(ratios)),
                        None => None,
                    },
                },
            ),
        },
    }
}

/// Keras' `predict`, up to the engine. A model whose last column-scaled run
/// divided its columns gets x divided in the same way, and its answer back in
/// the units y was sent in.
pub fn predict(model: &StoredModel, x: &Vec<Vec<Number>>, limits: &Limits) -> (plan: Result<
    PredictPlan,
    ApiError,
>)
    requires
        model@.wf(),
    ensures
        outcome(plan) == predict_plan(model@, rows_view(x@), *limits),
        plan matches Ok(plan) ==> plan@.build.wf() && plan@.x.wf(),
{
    match validate_features(&model.spec, x, limits) {
        Ok(_) => {},
        Err(error) => return Err(error),
    }
    let matrix = match matrix_of(x, "x") {
        Ok(matrix) => matrix,
        Err(error) => return Err(error),
    };
    let rescaling = match &model.ten_power_ratios {
        Some(ratios) => Some(rescaling_of(ratios)),
        None => None,
    };
    Ok(PredictPlan { id: model.id, build: rebuild(model), x: matrix, rescaling })
}

/// What is told of a prediction: what the engine returned, and its shape.
pub open spec fn predict_response(id: u128, predictions: Seq<Seq<Number>>) -> PredictResponseView {
    PredictResponseView {
        id,
        rows: predictions.len() as usize,
        columns: first_width(predictions) as usize,
        predictions,
    }
}

/// Keras' `predict`, answered: what the engine returned, and its shape.
pub fn prediction_response(id: u128, predictions: Vec<Vec<Number>>) -> (response: PredictResponse)
    ensures
        response@ == predict_response(id, rows_view(predictions@)),
        response@.rows == predictions@.len(),
{
    let columns: usize = if predictions.len() == 0 {
        0
    } else {
        predictions[0].len()
    };
    PredictResponse { id, rows: predictions.len(), columns, predictions }
}

// --------------------------------------------------------------- evaluating

/// What the engine is to measure.
#[derive(Debug)]
pub struct EvaluatePlan {
    pub id: u128,
    pub build: BuildPlan,
    pub x: Matrix,
    pub y: Matrix,
    pub samples: usize,
    pub loss: LossKind,
}

/// An [`EvaluatePlan`] as a value.
#[verifier::ext_equal]
pub struct EvaluatePlanView {
    pub id: u128,
    pub build: BuildPlanView,
    pub x: MatrixView,
    pub y: MatrixView,
    pub samples: usize,
    pub loss: LossKind,
}

impl View for EvaluatePlan {
    type V = EvaluatePlanView;

    open spec fn view(&self) -> EvaluatePlanView {
        EvaluatePlanView {
            id: self.id,
            build: self.build@,
            x: self.x@,
            y: self.y@,
            samples: self.samples,
            loss: self.loss,
        }
    }
}

/// The spec an evaluation is built from: the model's, compiled with this loss
/// and the optimizer that goes with any.
pub open spec fn evaluated_spec(spec: ModelSpecView, loss: LossKind) -> ModelSpecView {
    ModelSpecView {
        loss: Some(loss),
        optimizer: optimizer_for(None, Some(loss))->Ok_0,
        ..spec
    }
}

/// The evaluation asked of `model`, or the first thing wrong with it.
pub open spec fn evaluate_plan(
    model: StoredModelView,
    requested: Option<LossKind>,
    x: Seq<Seq<Number>>,
    y: Seq<Seq<Number>>,
    limits: Limits,
) -> Result<EvaluatePlanView, ErrorView> {
    match samples_fault(model.spec, x, y, limits) {
        Some(error) => Err(error),
        None => match loss_for(requested, model.spec) {
            None => Err(bad_request(no_loss_message())),
            Some(loss) => match (matrix_from(x, "x"@), matrix_from(y, "y"@)) {
                (Err(error), _) => Err(error),
                (_, Err(error)) => Err(error),
                (Ok(x_matrix), Ok(y_matrix)) => Ok(
                    EvaluatePlanView {
                        id: model.id,
                        build: plan_of(evaluated_spec(model.spec, loss), model.weights),
                        x: x_matrix,
                        y: y_matrix,
                        samples: x.len() as usize,
                        loss,
                    },
                ),
            },
        },
    }
}

/// Keras' `evaluate`, up to the engine. Measuring against another loss does
/// not recompile the stored model.
pub fn evaluate(
    model: &StoredModel,
    requested: Option<LossKind>,
    x: &Vec<Vec<Number>>,
    y: &Vec<Vec<Number>>,
    limits: &Limits,
) -> (plan: Result<EvaluatePlan, ApiError>)
    requires
        model@.wf(),
    ensures
        outcome(plan) == evaluate_plan(
            model@,
            requested,
            rows_view(x@),
            rows_view(y@),
            *limits,
        ),
        plan matches Ok(plan) ==> plan@.build.wf() && plan@.x.wf() && plan@.y.wf(),
{
    match validate_samples(&model.spec, x, y, limits) {
        Ok(_) => {},
        Err(error) => return Err(error),
    }
    let loss = match checked_loss(requested, &model.spec) {
        Ok(loss) => loss,
        Err(error) => return Err(error),
    };
    let mut spec = model.spec.clone();
    spec.loss = Some(loss);
    spec.optimizer = Some(default_optimizer());
    assert(spec@ == evaluated_spec(model@.spec, loss));
    let x_matrix = match matrix_of(x, "x") {
        Ok(matrix) => matrix,
        Err(error) => return Err(error),
    };
    let y_matrix = match matrix_of(y, "y") {
        Ok(matrix) => matrix,
        Err(error) => return Err(error),
    };
    proof {
        complete_weights_fill_matrices(model@.spec, model@.weights);
    }
    Ok(
        EvaluatePlan {
            id: model.id,
            build: build(&spec, &model.weights),
            x: x_matrix,
            y: y_matrix,
            samples: x.len(),
            loss,
        },
    )
}

/// What is told of an evaluation: what was measured, and what the engine
/// measured there.
pub open spec fn evaluate_response(plan: EvaluatePlanView, loss: Number) -> EvaluateResponse {
    EvaluateResponse { id: plan.id, loss_function: plan.loss, loss, samples: plan.samples }
}

/// Keras' `evaluate`, answered: what the engine measured.
pub fn evaluation_response(plan: &EvaluatePlan, loss: Number) -> (response: EvaluateResponse)
    ensures
        response == evaluate_response(plan@, loss),
{
    EvaluateResponse { id: plan.id, loss_function: plan.loss, loss, samples: plan.samples }
}

// ------------------------------------------------------------------ weights

/// Keras' `get_weights`, answered.
pub open spec fn weights_response(model: StoredModelView) -> WeightsResponseView {
    WeightsResponseView { id: model.id, layers: model.weights }
}

/// Keras' `get_weights`.
pub fn get_weights(state: &AppState, raw: &str) -> (response: Result<WeightsResponse, ApiError>)
    requires
        state@.wf(),
    ensures
        outcome(response) == (match model_at(state@, raw@) {
            Ok(model) => Ok(weights_response(model)),
            Err(error) => Err(error),
        }),
{
    match find_model(state, raw) {
        Ok(model) => Ok(WeightsResponse { id: model.id, layers: copy_weights(&model.weights) }),
        Err(error) => Err(error),
    }
}

/// `later` is `earlier` with `incoming` loaded: every layer that is named has
/// what came for it, every other layer what it had.
pub open spec fn loaded(
    spec: ModelSpecView,
    earlier: Seq<LayerWeightsView>,
    incoming: Seq<LayerWeightsView>,
    later: Seq<LayerWeightsView>,
) -> bool {
    &&& later.len() == earlier.len()
    &&& forall|i: int|
        0 <= i < incoming.len() ==> later[spec.index_of((#[trigger] incoming[i]).name)->0]
            == incoming[i]
    &&& forall|k: int|
        0 <= k < later.len() && !given_before(
            incoming,
            incoming.len() as int,
            spec.layers[k].name,
        ) ==> #[trigger] later[k] == earlier[k]
}

/// Keras' `set_weights`. Layers left out of the request keep the weights they
/// have.
pub fn load_weights(model: &mut StoredModel, layers: Vec<LayerWeights>, now: u64) -> (response:
    Result<WeightsResponse, ApiError>)
    requires
        old(model)@.wf(),
    ensures
        final(model)@.wf(),
        refusal(response) == weights_fault(old(model)@.spec, weights_view(layers@), 0),
        response is Err ==> final(model)@ == old(model)@,
        response matches Ok(response) ==> {
            &&& loaded(
                old(model)@.spec,
                old(model)@.weights,
                weights_view(layers@),
                final(model)@.weights,
            )
            &&& final(model)@ == (StoredModelView {
                weights: final(model)@.weights,
                updated_at_ms: now,
                ..old(model)@
            })
            &&& response@ == weights_response(final(model)@)
        },
{
    match validate_weights(&model.spec, &layers) {
        Ok(_) => {},
        Err(error) => return Err(error),
    }
    let ghost spec = model@.spec;
    let ghost earlier = model@.weights;
    let ghost incoming = weights_view(layers@);
    proof {
        accepted_weights_fit(spec, incoming, 0);
    }
    let mut index: usize = 0;
    while index < layers.len()
        invariant
            index <= layers@.len(),
            incoming == weights_view(layers@),
            model@ == (StoredModelView { weights: model@.weights, ..old(model)@ }),
            spec == old(model)@.spec,
            spec.wf(),
            old(model)@.wf(),
            earlier == old(model)@.weights,
            complete(spec, model@.weights),
            forall|i: int|
                0 <= i < incoming.len() ==> {
                    &&& spec.index_of((#[trigger] incoming[i]).name) is Some
                    &&& !given_before(incoming, i, incoming[i].name)
                    &&& incoming[i].fits(
                        spec.input_count(spec.index_of(incoming[i].name)->0) as int,
                        spec.layers[spec.index_of(incoming[i].name)->0].units as int,
                    )
                },
            forall|i: int|
                0 <= i < index ==> model@.weights[spec.index_of((#[trigger] incoming[i]).name)->0]
                    == incoming[i],
            forall|k: int|
                0 <= k < model@.weights.len() && !given_before(
                    incoming,
                    index as int,
                    spec.layers[k].name,
                ) ==> #[trigger] model@.weights[k] == earlier[k],
        decreases layers@.len() - index,
    {
        let ghost sofar = model@.weights;
        let entry = layers[index].clone();
        assert(incoming[index as int] == entry@);
        if let Some(layer) = model.spec.layer_index(entry.name.as_str()) {
            proof {
                layer_position_is_first(spec.layers, entry@.name, 0);
                assert(spec.layers[layer as int].name == entry@.name);
            }
            model.weights.set(layer, entry);
            proof {
                assert(model@.weights =~= sofar.update(layer as int, entry@));
                assert forall|i: int| 0 <= i < index + 1 implies model@.weights[spec.index_of(
                    (#[trigger] incoming[i]).name,
                )->0] == incoming[i] by {
                    if i < index {
                        layer_position_is_first(spec.layers, incoming[i].name, 0);
                        assert(incoming[i].name != entry@.name);
                        assert(spec.index_of(incoming[i].name)->0 != layer);
                    }
                }
                assert forall|k: int|
                    0 <= k < model@.weights.len() && !given_before(
                        incoming,
                        index + 1,
                        spec.layers[k].name,
                    ) implies #[trigger] model@.weights[k] == earlier[k] by {
                    assert(incoming[index as int].name != spec.layers[k].name);
                    assert(k != layer);
                    if given_before(incoming, index as int, spec.layers[k].name) {
                        let i = choose|i: int|
                            0 <= i < index && (#[trigger] incoming[i]).name == spec.layers[k].name;
                        assert(0 <= i < index + 1 && incoming[i].name == spec.layers[k].name);
                    }
                    assert(sofar[k] == earlier[k]);
                }
                assert(complete(spec, model@.weights));
            }
        }
        index += 1;
    }
    model.updated_at_ms = now;
    Ok(WeightsResponse { id: model.id, layers: copy_weights(&model.weights) })
}

/// Keras' `set_weights` on the model a path names.
pub fn set_weights(state: &mut AppState, raw: &str, request: SetWeightsRequest, now: u64) -> (
    response: Result<WeightsResponse, ApiError>)
    requires
        old(state)@.wf(),
    ensures
        final(state)@.wf(),
        refusal(response) == (match model_at(old(state)@, raw@) {
            Err(error) => Some(error),
            Ok(model) => weights_fault(model.spec, weights_view(request.layers@), 0),
        }),
        response is Err ==> final(state)@ == old(state)@,
        response matches Ok(response) ==> {
            let model = model_at(old(state)@, raw@)->Ok_0;
            &&& loaded(
                model.spec,
                model.weights,
                weights_view(request.layers@),
                response@.layers,
            )
            &&& final(state)@ == old(state)@.with(
                StoredModelView { weights: response@.layers, updated_at_ms: now, ..model },
            )
            &&& response@.id == model.id
        },
{
    let id = match parse_id(raw) {
        Ok(id) => id,
        Err(error) => return Err(error),
    };
    let ghost models = state@.models;
    match state.take(id) {
        Some(mut model) => {
            let response = load_weights(&mut model, request.layers, now);
            state.put(model);
            proof {
                assert(models.remove(id).insert(id, model@) =~= models.insert(id, model@));
                if response is Err {
                    assert(models.insert(id, models[id]) =~= models);
                }
            }
            response
        },
        None => {
            assert(models.remove(id) =~= models);
            Err(no_model(id))
        },
    }
}

/// The model a run is written back to: the one in the store, or, once it was
/// deleted, the one the request had found before.
pub open spec fn run_subject(
    state: AppStateView,
    deleted: Option<StoredModel>,
    id: u128,
) -> StoredModelView {
    if state.models.contains_key(id) {
        state.models[id]
    } else {
        deleted->0@
    }
}

/// There is a model to write the run back to.
pub open spec fn run_has_subject(
    state: AppStateView,
    deleted: Option<StoredModel>,
    id: u128,
) -> bool {
    state.models.contains_key(id) || (deleted matches Some(model) && model@.wf() && model@.id == id)
}

/// Only the subject of the run changed, into `later`: in the store where it is
/// there, and else where the request holds on to it.
pub open spec fn run_written(
    before: AppStateView,
    deleted_before: Option<StoredModel>,
    id: u128,
    later: StoredModelView,
    after: AppStateView,
    deleted_after: Option<StoredModel>,
) -> bool {
    if before.models.contains_key(id) {
        after == before.with(later) && deleted_after == deleted_before
    } else {
        after == before && (deleted_after matches Some(model) && model@ == later)
    }
}

/// Keras' `fit`, written back to the model of the plan. A request holds on to
/// the model it found: one that was deleted while the engine was at work is
/// `deleted`, and the run is written to it and answered all the same.
pub fn train(
    state: &mut AppState,
    deleted: &mut Option<StoredModel>,
    plan: TrainPlan,
    run: TrainOutcome,
    ratios: Option<Vec<usize>>,
    now: u64,
    duration_ms: u64,
) -> (response: Result<TrainResponse, ApiError>)
    requires
        old(state)@.wf(),
        run_has_subject(old(state)@, *old(deleted), plan@.id),
        run_fits(
            run_subject(old(state)@, *old(deleted), plan@.id),
            plan@,
            weights_view(run.weights@),
            ratios_view(ratios),
        ),
    ensures
        final(state)@.wf(),
        refusal(response) == (if run.loss_history@.len() == 0 {
            Some(internal("training returned no epochs"@))
        } else {
            None
        }),
        response is Err ==> run_written(
            old(state)@,
            *old(deleted),
            plan@.id,
            run_subject(old(state)@, *old(deleted), plan@.id),
            final(state)@,
            *final(deleted),
        ),
        response is Err ==> final(state)@ == old(state)@,
        response matches Ok(response) ==> {
            let model = run_subject(old(state)@, *old(deleted), plan@.id);
            &&& response@ == train_response(
                model,
                plan@,
                run.loss_history@,
                ratios_view(ratios),
                duration_ms,
            )
            &&& run_written(
                old(state)@,
                *old(deleted),
                plan@.id,
                trained(
                    model,
                    plan@,
                    weights_view(run.weights@),
                    run.loss_history@,
                    ratios_view(ratios),
                    now,
                ),
                final(state)@,
                *final(deleted),
            )
        },
{
    let id = plan.id;
    let ghost models = state@.models;
    match state.take(id) {
        Some(mut model) => {
            let response = finish_training(&mut model, plan, run, ratios, now, duration_ms);
            state.put(model);
            proof {
                assert(models.remove(id).insert(id, model@) =~= models.insert(id, model@));
                if response is Err {
                    assert(models.insert(id, models[id]) =~= models);
                }
            }
            response
        },
        None => {
            assert(models.remove(id) =~= models);
            let mut model = deleted.take().unwrap();
            let response = finish_training(&mut model, plan, run, ratios, now, duration_ms);
            *deleted = Some(model);
            response
        },
    }
}

/// [`train`] on whatever the engine returned: a run that does not fit the model
/// it was made on is the server's own fault, and changes nothing.
pub fn train_checked(
    state: &mut AppState,
    deleted: &mut Option<StoredModel>,
    plan: TrainPlan,
    run: TrainOutcome,
    ratios: Option<Vec<usize>>,
    now: u64,
    duration_ms: u64,
) -> (response: Result<TrainResponse, ApiError>)
    requires
        old(state)@.wf(),
        run_has_subject(old(state)@, *old(deleted), plan@.id),
    ensures
        final(state)@.wf(),
        refusal(response) == (if !run_fits(
            run_subject(old(state)@, *old(deleted), plan@.id),
            plan@,
            weights_view(run.weights@),
            ratios_view(ratios),
        ) {
            Some(internal("the run does not fit the model it was made on"@))
        } else if run.loss_history@.len() == 0 {
            Some(internal("training returned no epochs"@))
        } else {
            None
        }),
        response is Err ==> run_written(
            old(state)@,
            *old(deleted),
            plan@.id,
            run_subject(old(state)@, *old(deleted), plan@.id),
            final(state)@,
            *final(deleted),
        ),
        response is Err ==> final(state)@ == old(state)@,
        response matches Ok(response) ==> {
            let model = run_subject(old(state)@, *old(deleted), plan@.id);
            &&& response@ == train_response(
                model,
                plan@,
                run.loss_history@,
                ratios_view(ratios),
                duration_ms,
            )
            &&& run_written(
                old(state)@,
                *old(deleted),
                plan@.id,
                trained(
                    model,
                    plan@,
                    weights_view(run.weights@),
                    run.loss_history@,
                    ratios_view(ratios),
                    now,
                ),
                final(state)@,
                *final(deleted),
            )
        },
{
    let fits = match (state.handle(plan.id), &*deleted) {
        (Ok(model), _) => does_run_fit(model, &plan, &run, &ratios),
        (Err(_), Some(model)) => does_run_fit(model, &plan, &run, &ratios),
        (Err(_), None) => false,
    };
    if !fits {
        assert(state@.models.contains_key(plan@.id) ==> state@.models.insert(
            plan@.id,
            state@.models[plan@.id],
        ) =~= state@.models);
        return Err(
            ApiError::internal("the run does not fit the model it was made on".to_owned()),
        );
    }
    train(state, deleted, plan, run, ratios, now, duration_ms)
}

// ---------------------------------------------------------------- exporting

/// A character that is kept in a file name.
pub open spec fn file_name_char(character: char) -> bool {
    ||| '0' <= character <= '9'
    ||| 'a' <= character <= 'z'
    ||| 'A' <= character <= 'Z'
    ||| character == '-'
    ||| character == '_'
    ||| character == '.'
}

/// The text with every other character replaced by an underscore.
pub open spec fn cleaned(name: Seq<char>) -> Seq<char> {
    name.map_values(
        |character: char|
            if file_name_char(character) {
                character
            } else {
                '_'
            },
    )
}

/// The text without the dots it begins with.
pub open spec fn without_leading_dots(text: Seq<char>) -> Seq<char>
    decreases text.len(),
{
    if text.len() > 0 && text.first() == '.' {
        without_leading_dots(text.drop_first())
    } else {
        text
    }
}

/// The text without the dots it ends with.
pub open spec fn without_trailing_dots(text: Seq<char>) -> Seq<char>
    decreases text.len(),
{
    if text.len() > 0 && text.last() == '.' {
        without_trailing_dots(text.drop_last())
    } else {
        text
    }
}

/// The file name made of a model's name: cleaned, without dots at either end,
/// at most 64 characters of it, and "model" where nothing is left.
pub open spec fn file_name(name: Seq<char>) -> Seq<char> {
    let trimmed = without_trailing_dots(without_leading_dots(cleaned(name)));
    if trimmed.len() == 0 {
        "model"@
    } else if trimmed.len() > 64 {
        trimmed.take(64)
    } else {
        trimmed
    }
}

/// Whether a character is kept in a file name.
fn is_file_name_char(character: char) -> (kept: bool)
    ensures
        kept == file_name_char(character),
{
    ('0' <= character && character <= '9') || ('a' <= character && character <= 'z') || ('A'
        <= character && character <= 'Z') || character == '-' || character == '_' || character
        == '.'
}

/// A model name is whatever the client called it, and it ends up in a header,
/// so everything outside a safe set becomes an underscore.
pub fn file_name_of(name: &str) -> (result: String)
    ensures
        result@ == file_name(name@),
{
    let characters = chars_of(name);
    let mut clean: Vec<char> = Vec::with_capacity(characters.len());
    let mut index: usize = 0;
    while index < characters.len()
        invariant
            index <= characters@.len(),
            characters@ == name@,
            clean@.len() == index,
            forall|i: int| 0 <= i < index ==> #[trigger] clean@[i] == cleaned(name@)[i],
        decreases characters@.len() - index,
    {
        let character = characters[index];
        if is_file_name_char(character) {
            clean.push(character);
        } else {
            clean.push('_');
        }
        index += 1;
    }
    assert(clean@ =~= cleaned(name@));
    let ghost all = clean@;
    let mut start: usize = 0;
    assert(all.skip(0) =~= all);
    while start < clean.len() && clean[start] == '.'
        invariant
            clean@ == all,
            start <= all.len(),
            without_leading_dots(all) == without_leading_dots(all.skip(start as int)),
        decreases all.len() - start,
    {
        assert(all.skip(start as int).drop_first() =~= all.skip(start + 1));
        start += 1;
    }
    let ghost tail = all.skip(start as int);
    let mut end: usize = clean.len();
    assert(all.subrange(start as int, end as int) =~= tail);
    while end > start && clean[end - 1] == '.'
        invariant
            clean@ == all,
            start <= end <= all.len(),
            without_trailing_dots(tail) == without_trailing_dots(
                all.subrange(start as int, end as int),
            ),
        decreases end,
    {
        assert(all.subrange(start as int, end as int).drop_last() =~= all.subrange(
            start as int,
            end - 1,
        ));
        end -= 1;
    }
    if start == end {
        return "model".to_owned();
    }
    let ghost trimmed = all.subrange(start as int, end as int);
    if end - start > 64 {
        end = start + 64;
    }
    let mut result = "".to_owned();
    proof {
        reveal_strlit("");
        assert(result@ =~= all.subrange(start as int, start as int));
    }
    let mut index: usize = start;
    while index < end
        invariant
            clean@ == all,
            start <= index <= end <= all.len(),
            result@ == all.subrange(start as int, index as int),
        decreases end - index,
    {
        result.push(clean[index]);
        index += 1;
        assert(result@ =~= all.subrange(start as int, index as int));
    }
    assert(trimmed.len() > 64 ==> all.subrange(start as int, end as int) =~= trimmed.take(64));
    result
}

/// What goes into the header that names the exported file.
pub fn content_disposition(name: &str) -> (header: String)
    ensures
        header@ == "attachment; filename=\""@ + file_name(name@) + ".onnx\""@,
{
    let mut header = "attachment; filename=\"".to_owned();
    header.append(file_name_of(name).as_str());
    header.append(".onnx\"");
    header
}

/// A file name is never empty nor hidden nor long, and is made of letters,
/// digits, dashes, underscores and dots only, whatever the model is called.
pub proof fn file_names_are_safe(name: Seq<char>)
    ensures
        1 <= file_name(name).len() <= 64,
        file_name(name).first() != '.',
        forall|i: int|
            0 <= i < file_name(name).len() ==> file_name_char(#[trigger] file_name(name)[i]),
{
    let clean = cleaned(name);
    let front = without_leading_dots(clean);
    reveal_strlit("model");
    trimming_keeps_the_rest(clean);
    trimming_keeps_the_rest(front);
    assert forall|i: int| 0 <= i < clean.len() implies file_name_char(#[trigger] clean[i]) by {}
}

/// Trimming dots takes characters off an end and nothing else.
proof fn trimming_keeps_the_rest(text: Seq<char>)
    ensures
        without_leading_dots(text).len() <= text.len(),
        without_leading_dots(text) == text.skip(text.len() - without_leading_dots(text).len()),
        without_leading_dots(text).len() > 0 ==> without_leading_dots(text).first() != '.',
        without_trailing_dots(text).len() <= text.len(),
        without_trailing_dots(text) == text.take(without_trailing_dots(text).len() as int),
    decreases text.len(),
{
    if text.len() > 0 {
        trimming_keeps_the_rest(text.drop_first());
        trimming_keeps_the_rest(text.drop_last());
    }
    assert(text.skip(0) =~= text);
    assert(text.take(text.len() as int) =~= text);
    if text.len() > 0 && text.first() == '.' {
        let rest = text.drop_first();
        let kept = without_leading_dots(rest).len();
        assert(rest.skip(rest.len() - kept) =~= text.skip(text.len() - kept));
    }
    if text.len() > 0 && text.last() == '.' {
        let rest = text.drop_last();
        let kept = without_trailing_dots(rest).len() as int;
        assert(rest.take(kept) =~= text.take(kept));
    }
}

/// What is trimmed off is dots, and what is left has none at that end.
proof fn only_dots_are_trimmed(text: Seq<char>)
    ensures
        ({
            let front = without_leading_dots(text);
            let back = without_trailing_dots(text);
            &&& front.len() <= text.len()
            &&& forall|i: int| 0 <= i < text.len() - front.len() ==> #[trigger] text[i] == '.'
            &&& front.len() > 0 ==> front.first() != '.'
            &&& back.len() <= text.len()
            &&& forall|i: int| back.len() <= i < text.len() ==> #[trigger] text[i] == '.'
            &&& back.len() > 0 ==> back.last() != '.'
        }),
    decreases text.len(),
{
    if text.len() > 0 && text.first() == '.' {
        let rest = text.drop_first();
        only_dots_are_trimmed(rest);
        let front = without_leading_dots(rest);
        assert forall|i: int| 0 <= i < text.len() - front.len() implies #[trigger] text[i] == '.' by {
            if i > 0 {
                assert(rest[i - 1] == text[i]);
            }
        }
    }
    if text.len() > 0 && text.last() == '.' {
        let rest = text.drop_last();
        only_dots_are_trimmed(rest);
        let back = without_trailing_dots(rest);
        assert forall|i: int| back.len() <= i < text.len() implies #[trigger] text[i] == '.' by {
            if i < rest.len() {
                assert(rest[i] == text[i]);
            }
        }
    }
}

/// A file is named after its model: what stands between the dots at either end
/// of the name, up to 64 characters of it, with letters, digits, dashes,
/// underscores and dots as they are and everything else an underscore.
pub proof fn a_file_is_named_after_its_model(name: Seq<char>, start: int, end: int)
    requires
        0 <= start < end <= name.len(),
        forall|i: int| 0 <= i < start ==> #[trigger] name[i] == '.',
        name[start] != '.',
        name[end - 1] != '.',
        forall|i: int| end <= i < name.len() ==> #[trigger] name[i] == '.',
    ensures
        file_name(name).len() == if end - start > 64 {
            64
        } else {
            end - start
        },
        forall|i: int|
            #![trigger file_name(name)[i]]
            0 <= i < file_name(name).len() ==> {
                let character = name[start + i];
                let kept = 'a' <= character <= 'z' || 'A' <= character <= 'Z' || '0' <= character
                    <= '9' || character == '-' || character == '_' || character == '.';
                &&& kept ==> file_name(name)[i] == character
                &&& !kept ==> file_name(name)[i] == '_'
            },
{
    let clean = cleaned(name);
    let front = without_leading_dots(clean);
    let back = without_trailing_dots(front);
    assert forall|i: int| 0 <= i < name.len() implies (clean[i] == '.' <==> #[trigger] name[i]
        == '.') by {}
    trimming_keeps_the_rest(clean);
    trimming_keeps_the_rest(front);
    only_dots_are_trimmed(clean);
    only_dots_are_trimmed(front);
    let skipped = clean.len() - front.len();
    assert(skipped == start) by {
        if skipped > start {
            assert(clean[start] == '.');
        }
        if skipped < start {
            assert(name[skipped] == '.');
            assert(front.first() == clean[skipped]);
        }
    }
    assert(back.len() == end - start) by {
        if back.len() < end - start {
            assert(front[end - 1 - start] == '.');
            assert(front[end - 1 - start] == clean[end - 1]);
        }
        if back.len() > end - start {
            assert(back.last() == clean[start + back.len() - 1]);
            assert(name[start + back.len() - 1] == '.');
        }
    }
    assert forall|i: int| 0 <= i < back.len() implies back[i] == clean[start + i] by {}
}

/// A name that is nothing but dots, or nothing at all, leaves the file to be
/// called "model".
pub proof fn a_file_without_a_name_is_called_model(name: Seq<char>)
    requires
        forall|i: int| 0 <= i < name.len() ==> #[trigger] name[i] == '.',
    ensures
        file_name(name) == "model"@,
{
    let clean = cleaned(name);
    let front = without_leading_dots(clean);
    trimming_keeps_the_rest(clean);
    trimming_keeps_the_rest(front);
    only_dots_are_trimmed(clean);
    if front.len() > 0 {
        let skipped = clean.len() - front.len();
        assert(name[skipped] == '.');
        assert(front.first() == clean[skipped]);
    }
}

// ------------------------------------------------------------------ scaling

/// What is said of targets that are not one per row.
pub open spec fn row_counts_message(x: nat, y: nat) -> Seq<char> {
    "'x' has "@ + decimal(x) + " rows but 'y' has "@ + decimal(y)
}

/// What is said of targets in several columns, or in none.
pub open spec fn one_column_message(row: nat, values: nat) -> Seq<char> {
    "'y' must have exactly one column, but row "@ + decimal(row) + " has "@ + decimal(values)
}

/// What the engine is to scale.
#[derive(Debug)]
pub struct ScalePlan {
    pub x: Matrix,
    pub y: Matrix,
}

/// A [`ScalePlan`] as a value.
#[verifier::ext_equal]
pub struct ScalePlanView {
    pub x: MatrixView,
    pub y: MatrixView,
}

impl View for ScalePlan {
    type V = ScalePlanView;

    open spec fn view(&self) -> ScalePlanView {
        ScalePlanView { x: self.x@, y: self.y@ }
    }
}

/// The matrices to scale, or the first thing wrong with them.
pub open spec fn scale_plan(x: Seq<Seq<Number>>, y: Seq<Seq<Number>>, limits: Limits) -> Result<
    ScalePlanView,
    ErrorView,
> {
    if x.len() == 0 {
        Err(bad_request(no_samples_message()))
    } else if x.len() > limits.max_samples {
        Err(bad_request(too_many_samples_message(x.len(), limits.max_samples as nat)))
    } else if y.len() != x.len() {
        Err(bad_request(row_counts_message(x.len(), y.len())))
    } else {
        match first_other_width(y, 1, 0) {
            Some(row) => Err(bad_request(one_column_message(row as nat, y[row].len()))),
            None => match (matrix_from(x, "x"@), matrix_from(y, "y"@)) {
                (Err(error), _) => Err(error),
                (_, Err(error)) => Err(error),
                (Ok(x), Ok(y)) => Ok(ScalePlanView { x, y }),
            },
        }
    }
}

/// Column based scaling, up to the engine.
pub fn scale(request: &ScaleRequest, limits: &Limits) -> (plan: Result<ScalePlan, ApiError>)
    ensures
        outcome(plan) == scale_plan(rows_view(request.x@), rows_view(request.y@), *limits),
        plan matches Ok(plan) ==> plan@.x.wf() && plan@.y.wf(),
{
    let rows = request.x.len();
    if rows == 0 {
        return Err(ApiError::bad_request("'x' has no samples".to_owned()));
    }
    if rows > limits.max_samples {
        let mut message = "'x' has ".to_owned();
        push_count(&mut message, rows);
        message.append(" samples, the limit is ");
        push_count(&mut message, limits.max_samples);
        return Err(ApiError::bad_request(message));
    }
    if request.y.len() != rows {
        let mut message = "'x' has ".to_owned();
        push_count(&mut message, rows);
        message.append(" rows but 'y' has ");
        push_count(&mut message, request.y.len());
        return Err(ApiError::bad_request(message));
    }
    if let Some(row) = find_other_width(&request.y, 1) {
        assert(rows_view(request.y@)[row as int] == request.y@[row as int]@);
        let mut message = "'y' must have exactly one column, but row ".to_owned();
        push_count(&mut message, row);
        message.append(" has ");
        push_count(&mut message, request.y[row].len());
        return Err(ApiError::bad_request(message));
    }
    let x = match matrix_of(&request.x, "x") {
        Ok(matrix) => matrix,
        Err(error) => return Err(error),
    };
    let y = match matrix_of(&request.y, "y") {
        Ok(matrix) => matrix,
        Err(error) => return Err(error),
    };
    Ok(ScalePlan { x, y })
}

/// What is told of a scaling: the scaled matrices as rows, and the powers of ten
/// they were divided by.
pub open spec fn scaled_response(
    x: MatrixView,
    y: MatrixView,
    ten_power_ratios: Seq<usize>,
) -> ScaleResponseView {
    ScaleResponseView {
        x: chunks(x.values, at_least_1(x.col_count as nat)),
        y: chunks(y.values, at_least_1(y.col_count as nat)),
        ten_power_ratios,
    }
}

/// Column based scaling, answered: the scaled matrices as rows.
pub fn scale_response(x: &Matrix, y: &Matrix, ten_power_ratios: Vec<usize>) -> (response:
    ScaleResponse)
    ensures
        response@ == scaled_response(x@, y@, ten_power_ratios@),
{
    ScaleResponse { x: rows_of(x), y: rows_of(y), ten_power_ratios }
}

// ------------------------------------------------------------ everything else

/// The error of a path that leads nowhere.
pub fn not_found() -> (error: ApiError)
    ensures
        error@ == crate::error::not_found(
            "no endpoint matches this path; the README lists the routes, and GET /health says whether the server is up"@,
        ),
{
    ApiError::not_found(
        "no endpoint matches this path; the README lists the routes, and GET /health says whether the server is up".to_owned(),
    )
}

/// The error of a path that exists, but not with this method.
pub fn method_not_allowed() -> (error: ApiError)
    ensures
        error@ == crate::error::method_not_allowed(
            "that path exists, but not with this method; the README lists what each route accepts"@,
        ),
{
    ApiError::method_not_allowed(
        "that path exists, but not with this method; the README lists what each route accepts".to_owned(),
    )
}

/// The error of work that was handed to a thread which then went away.
pub fn worker_lost(reason: &str) -> (error: ApiError)
    ensures
        error@ == internal("the worker thread did not finish: "@ + reason@),
{
    let mut message = "the worker thread did not finish: ".to_owned();
    message.append(reason);
    ApiError::internal(message)
}

} // verus!
