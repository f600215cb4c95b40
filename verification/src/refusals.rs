//! What is refused and what is not: for every request, exactly the conditions
//! under which it is accepted, and what is said of the first thing wrong with
//! one that is not.

use vstd::prelude::*;

use crate::config::Limits;
use crate::dto::{
    accepted_weights_fit, entry_fault, features_fault, given_before, layer_names, optimizer_for,
    resolved_names_differ, samples_fault, units_fault, weights_fault, CreateModelRequest,
    LayerRequest, LearningRate, OptimizerRequest, TrainRequest,
};
use crate::engine::{
    first_not_finite, first_width, joined, joined_values_stay_in_place, matrix_from,
    not_finite_is_first, other_width_is_first, MatrixView,
};
use crate::error::{bad_request, ErrorView};
use crate::fidelity::{a_matrix_is_its_rows, all_finite, countable, even, row_of};
use crate::model::{
    layer_position_is_first, weights_view, LayerWeightsView, LossKind, ModelSpecView,
    NewModelView, OptimizerConfig, OptimizerKind, StoredModelView,
};
use crate::number::Number;
use crate::routes::{
    epochs_fault, evaluate_plan, predict_plan, scale_plan, train_plan, EvaluatePlanView,
    PredictPlanView, ScalePlanView, TrainPlanView,
};
use crate::text::{blank, decimal};

verus! {

/// A request that cannot be met: a 400 with its own code, and what to fix.
pub open spec fn invalid(message: Seq<char>) -> ErrorView {
    ErrorView { status: 400, code: "invalid_request"@, message }
}

// ----------------------------------------------------------------- matrices

/// Rows of different lengths are refused, and the first that is not as long as
/// row 0 is named.
pub proof fn uneven_rows_are_named(rows: Seq<Seq<Number>>, field: Seq<char>, row: int)
    requires
        0 <= row < rows.len(),
        rows[row].len() != rows[0].len(),
        forall|i: int| 0 <= i < row ==> (#[trigger] rows[i]).len() == rows[0].len(),
    ensures
        matrix_from(rows, field) == Err::<MatrixView, ErrorView>(
            invalid(
                "'"@ + field + "' must be rectangular: row 0 has "@ + decimal(rows[0].len())
                    + " values but row "@ + decimal(row as nat) + " has "@ + decimal(
                    rows[row].len(),
                ),
            ),
        ),
{
    other_width_is_first(rows, first_width(rows) as int, 0);
}

/// Values that are not finite are refused, and the first of them is named by
/// the row and the column it stands in.
pub proof fn values_that_are_not_finite_are_named(
    rows: Seq<Seq<Number>>,
    field: Seq<char>,
    row: int,
    column: int,
)
    requires
        even(rows),
        0 <= row < rows.len(),
        0 <= column < rows[row].len(),
        !rows[row][column].finite(),
        forall|i: int, j: int|
            0 <= i <= row && 0 <= j < rows[i].len() && (i < row || j < column) ==> (
            #[trigger] rows[i][j]).finite(),
    ensures
        matrix_from(rows, field) == Err::<MatrixView, ErrorView>(
            invalid(
                "'"@ + field + "' contains a value that is not finite at row "@ + decimal(
                    row as nat,
                ) + ", column "@ + decimal(column as nat),
            ),
        ),
{
    let width = first_width(rows);
    let values = joined(rows);
    other_width_is_first(rows, width as int, 0);
    assert(rows[row].len() == rows[0].len());
    joined_values_stay_in_place(rows, width, row, column);
    not_finite_is_first(values, 0);
    let position = first_not_finite(values, 0)->0;
    assert(first_not_finite(values, 0) is Some && position <= row * width + column);
    let i = row_of(rows, width, position);
    let j = position - i * width;
    assert(i <= row) by (nonlinear_arith)
        requires
            i * width + j <= row * width + column,
            0 <= j,
            column < width,
    ;
    if i < row || j < column {
        assert(rows[i].len() == rows[0].len());
        assert(rows[i][j].finite());
    }
}

// ------------------------------------------------------------------ samples

/// x is there, not too much of it, and every row has one value per feature.
pub open spec fn takes_features(spec: ModelSpecView, x: Seq<Seq<Number>>, limits: Limits) -> bool {
    &&& 1 <= x.len() <= limits.max_samples
    &&& forall|i: int| 0 <= i < x.len() ==> (#[trigger] x[i]).len() == spec.features
}

/// y has a row for every sample, with one value per unit of the last layer.
pub open spec fn takes_targets(
    spec: ModelSpecView,
    x: Seq<Seq<Number>>,
    y: Seq<Seq<Number>>,
) -> bool {
    &&& y.len() == x.len()
    &&& forall|i: int| 0 <= i < y.len() ==> (#[trigger] y[i]).len() == spec.layers.last().units
}

/// Samples pass exactly where there is at least one and no more than the limit,
/// x has one value per feature in every row, and y one row per sample with one
/// value per unit of the last layer.
pub proof fn samples_pass_where_they_fit(
    spec: ModelSpecView,
    x: Seq<Seq<Number>>,
    y: Seq<Seq<Number>>,
    limits: Limits,
)
    requires
        spec.layers.len() > 0,
    ensures
        features_fault(spec, x, limits) is None <==> takes_features(spec, x, limits),
        samples_fault(spec, x, y, limits) is None <==> takes_features(spec, x, limits)
            && takes_targets(spec, x, y),
{
    other_width_is_first(x, spec.features as int, 0);
    other_width_is_first(y, spec.layers.last().units as int, 0);
}

/// No samples are answered with that, too many with their number and the limit.
pub proof fn the_number_of_samples_is_named(
    spec: ModelSpecView,
    x: Seq<Seq<Number>>,
    y: Seq<Seq<Number>>,
    limits: Limits,
)
    ensures
        x.len() == 0 ==> features_fault(spec, x, limits) == Some(invalid("'x' has no samples"@)),
        x.len() > 0 && x.len() > limits.max_samples ==> features_fault(spec, x, limits) == Some(
            invalid(
                "'x' has "@ + decimal(x.len()) + " samples, the limit is "@ + decimal(
                    limits.max_samples as nat,
                ),
            ),
        ),
        features_fault(spec, x, limits) matches Some(error) ==> samples_fault(spec, x, y, limits)
            == Some(error),
        takes_features(spec, x, limits) && y.len() != x.len() ==> samples_fault(spec, x, y, limits)
            == Some(
            invalid(
                "'x' has "@ + decimal(x.len()) + " samples but 'y' has "@ + decimal(y.len()),
            ),
        ),
{
    other_width_is_first(x, spec.features as int, 0);
}

/// A row of x that is not as wide as the model's input is named, the first of
/// them; and so is a row of y that is not as wide as the last layer.
pub proof fn the_first_row_that_does_not_fit_is_named(
    spec: ModelSpecView,
    x: Seq<Seq<Number>>,
    y: Seq<Seq<Number>>,
    limits: Limits,
    row: int,
)
    requires
        spec.layers.len() > 0,
        1 <= x.len() <= limits.max_samples,
        0 <= row < x.len(),
    ensures
        x[row].len() != spec.features && (forall|i: int|
            0 <= i < row ==> (#[trigger] x[i]).len() == spec.features) ==> features_fault(
            spec,
            x,
            limits,
        ) == Some(
            invalid(
                "the model takes "@ + decimal(spec.features as nat)
                    + " features per sample, but row "@ + decimal(row as nat) + " of 'x' has "@
                    + decimal(x[row].len()),
            ),
        ),
        takes_features(spec, x, limits) && y.len() == x.len() && y[row].len()
            != spec.layers.last().units && (forall|i: int|
            0 <= i < row ==> (#[trigger] y[i]).len() == spec.layers.last().units) ==> samples_fault(
            spec,
            x,
            y,
            limits,
        ) == Some(
            invalid(
                "the last layer has "@ + decimal(spec.layers.last().units as nat)
                    + " units, so every row of 'y' needs "@ + decimal(
                    spec.layers.last().units as nat,
                ) + " values, but row "@ + decimal(row as nat) + " has "@ + decimal(y[row].len()),
            ),
        ),
{
    other_width_is_first(x, spec.features as int, 0);
    other_width_is_first(y, spec.layers.last().units as int, 0);
}

// --------------------------------------------------------------- optimizers

/// An optimizer is refused only for a rate that was sent and is not a positive
/// number, with that rate; without a rate it runs at its own, and where none is
/// named a loss is trained with Adam.
pub proof fn an_optimizer_is_what_was_named(
    kind: OptimizerKind,
    sent: LearningRate,
    loss: Option<LossKind>,
)
    ensures
        ({
            let bare = optimizer_for(Some(OptimizerRequest::Kind(kind)), loss);
            let unrated = optimizer_for(
                Some(OptimizerRequest::Config { kind, learning_rate: None }),
                loss,
            );
            let rated = optimizer_for(
                Some(OptimizerRequest::Config { kind, learning_rate: Some(sent) }),
                loss,
            );
            &&& bare == unrated
            &&& bare is Ok && bare->Ok_0 is Some
            &&& (bare->Ok_0->0).kind == kind
            &&& (bare->Ok_0->0).learning_rate == kind.default_rate()
            &&& 0 < sent.rate.bits < 0x7ff0_0000_0000_0000 <==> rated is Ok
            &&& rated matches Ok(optimizer) ==> optimizer == Some(
                OptimizerConfig { kind, learning_rate: sent.rate },
            )
            &&& rated matches Err(error) ==> error == invalid(
                "'learning_rate' must be a positive number, got "@ + sent.shown@,
            )
        }),
        optimizer_for(None, None) == Ok::<Option<OptimizerConfig>, ErrorView>(None),
        loss is Some ==> (optimizer_for(None, loss) matches Ok(Some(optimizer)) && optimizer.kind
            == OptimizerKind::Adam && optimizer.learning_rate
            == OptimizerKind::Adam.default_rate()),
{
}

/// The rate of an optimizer that was sent is a positive number, if it was sent.
pub open spec fn rate_passes(request: Option<OptimizerRequest>) -> bool {
    request matches Some(OptimizerRequest::Config { learning_rate: Some(sent), .. }) ==> 0
        < sent.rate.bits < 0x7ff0_0000_0000_0000
}

// ----------------------------------------------------------------- requests

/// The samples per gradient step a run would have.
pub open spec fn step(request: TrainRequest, model: StoredModelView) -> usize {
    if request.batch_size is Some {
        request.batch_size->0
    } else {
        model.batch_size
    }
}

/// A run is accepted exactly where its epochs are between 1 and the limit, its
/// samples fit the model and are finite, it has a loss of its own or the
/// model's, its rate and its batch size are positive, and, with its columns
/// scaled, the model has a single output.
pub proof fn a_run_is_accepted_where_it_can_be_made(
    model: StoredModelView,
    request: TrainRequest,
    scaled: bool,
    x: Seq<Seq<Number>>,
    y: Seq<Seq<Number>>,
    limits: Limits,
)
    requires
        model.wf(),
    ensures
        train_plan(model, request, scaled, x, y, limits) is Ok <==> {
            &&& 1 <= request.epochs <= limits.max_epochs
            &&& takes_features(model.spec, x, limits)
            &&& takes_targets(model.spec, x, y)
            &&& scaled ==> model.spec.layers.last().units == 1
            &&& step(request, model) >= 1
            &&& request.loss is Some || model.spec.loss is Some
            &&& rate_passes(request.optimizer)
            &&& all_finite(x)
            &&& all_finite(y)
        },
{
    samples_pass_where_they_fit(model.spec, x, y, limits);
    if takes_features(model.spec, x, limits) && takes_targets(model.spec, x, y) {
        assert(x[0].len() == model.spec.features);
        assert(y[0].len() == model.spec.layers.last().units);
        a_matrix_is_its_rows(x, "x"@);
        a_matrix_is_its_rows(y, "y"@);
    }
}

/// What is said of a run that is refused is the first of these that applies:
/// its epochs, its samples, the outputs of a model whose columns are to be
/// scaled, its batch size, a missing loss, and its rate.
pub proof fn the_first_thing_wrong_with_a_run_is_named(
    model: StoredModelView,
    request: TrainRequest,
    scaled: bool,
    x: Seq<Seq<Number>>,
    y: Seq<Seq<Number>>,
    limits: Limits,
)
    requires
        model.wf(),
    ensures
        ({
            let refused = train_plan(model, request, scaled, x, y, limits);
            let epochs_pass = 1 <= request.epochs <= limits.max_epochs;
            let samples_pass = epochs_pass && takes_features(model.spec, x, limits)
                && takes_targets(model.spec, x, y);
            let outputs_pass = samples_pass && (scaled ==> model.spec.layers.last().units == 1);
            let step_passes = outputs_pass && step(request, model) >= 1;
            let loss_passes = step_passes && (request.loss is Some || model.spec.loss is Some);
            &&& epochs_fault(request.epochs, limits) is None <==> epochs_pass
            &&& !epochs_pass ==> refused == Err::<TrainPlanView, ErrorView>(
                invalid(
                    "'epochs' must be between 1 and "@ + decimal(limits.max_epochs as nat)
                        + ", got "@ + decimal(request.epochs as nat),
                ),
            )
            &&& epochs_pass && !samples_pass ==> refused == Err::<TrainPlanView, ErrorView>(
                samples_fault(model.spec, x, y, limits)->0,
            )
            &&& samples_pass && !outputs_pass ==> refused == Err::<TrainPlanView, ErrorView>(
                invalid(
                    "column scaling needs a last layer of exactly 1 unit, but this model's has "@
                        + decimal(model.spec.layers.last().units as nat),
                ),
            )
            &&& outputs_pass && !step_passes ==> refused == Err::<TrainPlanView, ErrorView>(
                invalid("'batch_size' must be at least 1"@),
            )
            &&& step_passes && !loss_passes ==> refused == Err::<TrainPlanView, ErrorView>(
                invalid(
                    "this model has no loss yet; send 'loss' here or set it when creating the model"@,
                ),
            )
            &&& loss_passes && !rate_passes(request.optimizer) ==> refused == Err::<
                TrainPlanView,
                ErrorView,
            >(
                invalid(
                    "'learning_rate' must be a positive number, got "@ + (
                    request.optimizer->0->learning_rate->0).shown@,
                ),
            )
            &&& loss_passes && rate_passes(request.optimizer) && matrix_from(x, "x"@) is Err
                ==> refused == Err::<TrainPlanView, ErrorView>(matrix_from(x, "x"@)->Err_0)
            &&& loss_passes && rate_passes(request.optimizer) && matrix_from(x, "x"@) is Ok
                && matrix_from(y, "y"@) is Err ==> refused == Err::<TrainPlanView, ErrorView>(
                matrix_from(y, "y"@)->Err_0,
            )
        }),
{
    samples_pass_where_they_fit(model.spec, x, y, limits);
}

/// A prediction is accepted exactly where x fits the model and is finite, and
/// needs no loss; else the first thing wrong with x is what is answered.
pub proof fn a_prediction_is_accepted_where_x_fits(
    model: StoredModelView,
    x: Seq<Seq<Number>>,
    limits: Limits,
)
    requires
        model.wf(),
    ensures
        predict_plan(model, x, limits) is Ok <==> takes_features(model.spec, x, limits)
            && all_finite(x),
        !takes_features(model.spec, x, limits) ==> predict_plan(model, x, limits) == Err::<
            PredictPlanView,
            ErrorView,
        >(features_fault(model.spec, x, limits)->0),
        takes_features(model.spec, x, limits) && !all_finite(x) ==> predict_plan(model, x, limits)
            == Err::<PredictPlanView, ErrorView>(matrix_from(x, "x"@)->Err_0),
{
    samples_pass_where_they_fit(model.spec, x, x, limits);
    if takes_features(model.spec, x, limits) {
        assert(x[0].len() == model.spec.features);
        a_matrix_is_its_rows(x, "x"@);
    }
}

/// An evaluation is accepted exactly where the samples fit the model and are
/// finite, and there is a loss, the request's or the model's own.
pub proof fn an_evaluation_is_accepted_where_it_can_be_made(
    model: StoredModelView,
    requested: Option<LossKind>,
    x: Seq<Seq<Number>>,
    y: Seq<Seq<Number>>,
    limits: Limits,
)
    requires
        model.wf(),
    ensures
        ({
            let planned = evaluate_plan(model, requested, x, y, limits);
            let samples_pass = takes_features(model.spec, x, limits) && takes_targets(
                model.spec,
                x,
                y,
            );
            let loss_passes = samples_pass && (requested is Some || model.spec.loss is Some);
            &&& planned is Ok <==> loss_passes && all_finite(x) && all_finite(y)
            &&& !samples_pass ==> planned == Err::<EvaluatePlanView, ErrorView>(
                samples_fault(model.spec, x, y, limits)->0,
            )
            &&& samples_pass && !loss_passes ==> planned == Err::<EvaluatePlanView, ErrorView>(
                invalid(
                    "this model has no loss yet; send 'loss' here or set it when creating the model"@,
                ),
            )
            &&& loss_passes && matrix_from(x, "x"@) is Err ==> planned == Err::<
                EvaluatePlanView,
                ErrorView,
            >(matrix_from(x, "x"@)->Err_0)
            &&& loss_passes && matrix_from(x, "x"@) is Ok && matrix_from(y, "y"@) is Err
                ==> planned == Err::<EvaluatePlanView, ErrorView>(matrix_from(y, "y"@)->Err_0)
        }),
{
    samples_pass_where_they_fit(model.spec, x, y, limits);
    if takes_features(model.spec, x, limits) && takes_targets(model.spec, x, y) {
        assert(x[0].len() == model.spec.features);
        assert(y[0].len() == model.spec.layers.last().units);
        a_matrix_is_its_rows(x, "x"@);
        a_matrix_is_its_rows(y, "y"@);
    }
}

/// Scaling is accepted exactly where there is at least one row and no more than
/// the limit, y has one value for every row, x is rectangular, and all of it is
/// finite.
pub proof fn scaling_is_accepted_where_it_can_be_done(
    x: Seq<Seq<Number>>,
    y: Seq<Seq<Number>>,
    limits: Limits,
)
    requires
        countable(x),
    ensures
        scale_plan(x, y, limits) is Ok <==> {
            &&& 1 <= x.len() <= limits.max_samples
            &&& y.len() == x.len()
            &&& forall|i: int| 0 <= i < y.len() ==> (#[trigger] y[i]).len() == 1
            &&& even(x)
            &&& all_finite(x)
            &&& all_finite(y)
        },
        x.len() == 0 ==> scale_plan(x, y, limits) == Err::<ScalePlanView, ErrorView>(
            invalid("'x' has no samples"@),
        ),
        x.len() > 0 && x.len() > limits.max_samples ==> scale_plan(x, y, limits) == Err::<
            ScalePlanView,
            ErrorView,
        >(
            invalid(
                "'x' has "@ + decimal(x.len()) + " samples, the limit is "@ + decimal(
                    limits.max_samples as nat,
                ),
            ),
        ),
        1 <= x.len() <= limits.max_samples && y.len() != x.len() ==> scale_plan(x, y, limits)
            == Err::<ScalePlanView, ErrorView>(
            invalid("'x' has "@ + decimal(x.len()) + " rows but 'y' has "@ + decimal(y.len())),
        ),
{
    other_width_is_first(y, 1, 0);
    a_matrix_is_its_rows(x, "x"@);
    if y.len() == x.len() {
        if forall|i: int| 0 <= i < y.len() ==> (#[trigger] y[i]).len() == 1 {
            a_matrix_is_its_rows(y, "y"@);
        }
    }
}

/// A row of y with another number of values than one is named, the first of
/// them.
pub proof fn targets_in_several_columns_are_named(
    x: Seq<Seq<Number>>,
    y: Seq<Seq<Number>>,
    limits: Limits,
    row: int,
)
    requires
        1 <= x.len() <= limits.max_samples,
        y.len() == x.len(),
        0 <= row < y.len(),
        y[row].len() != 1,
        forall|i: int| 0 <= i < row ==> (#[trigger] y[i]).len() == 1,
    ensures
        scale_plan(x, y, limits) == Err::<ScalePlanView, ErrorView>(
            invalid(
                "'y' must have exactly one column, but row "@ + decimal(row as nat) + " has "@
                    + decimal(y[row].len()),
            ),
        ),
{
    other_width_is_first(y, 1, 0);
}

// ------------------------------------------------------------------ weights

/// The weights of one entry are those of the layer at `layer`: under its name,
/// one row per input and one value per unit in each, and one bias per unit.
pub open spec fn is_for(entry: LayerWeightsView, spec: ModelSpecView, layer: int) -> bool {
    &&& 0 <= layer < spec.layers.len()
    &&& entry.name == spec.layers[layer].name
    &&& entry.weights.len() == if layer == 0 {
        spec.features
    } else {
        spec.layers[layer - 1].units
    }
    &&& forall|row: int|
        0 <= row < entry.weights.len() ==> (#[trigger] entry.weights[row]).len()
            == spec.layers[layer].units
    &&& entry.bias.len() == spec.layers[layer].units
}

/// The weights of one entry are those of one of the layers.
pub open spec fn has_a_layer(entry: LayerWeightsView, spec: ModelSpecView) -> bool {
    exists|layer: int| is_for(entry, spec, layer)
}

/// Each entry is for a layer the model has, in that layer's shape, no two are
/// for the same layer, and all of them are finite.
pub open spec fn loadable(spec: ModelSpecView, weights: Seq<LayerWeightsView>) -> bool {
    &&& forall|i: int| 0 <= i < weights.len() ==> has_a_layer(#[trigger] weights[i], spec)
    &&& forall|i: int, j: int|
        0 <= i < j < weights.len() ==> (#[trigger] weights[i]).name != (#[trigger] weights[j]).name
    &&& forall|i: int| 0 <= i < weights.len() ==> all_finite((#[trigger] weights[i]).weights)
    &&& forall|i: int, j: int|
        0 <= i < weights.len() && 0 <= j < weights[i].bias.len() ==> (
        #[trigger] weights[i].bias[j]).finite()
}

/// Weights pass exactly where each entry is for a layer the model has, in that
/// layer's shape, no two are for the same layer, and all of them are finite.
pub proof fn weights_pass_where_they_fit(spec: ModelSpecView, weights: Seq<LayerWeightsView>)
    requires
        spec.names_differ(),
    ensures
        weights_fault(spec, weights, 0) is None <==> loadable(spec, weights),
{
    if weights_fault(spec, weights, 0) is None {
        accepted_weights_fit(spec, weights, 0);
        assert forall|i: int| 0 <= i < weights.len() implies has_a_layer(
            #[trigger] weights[i],
            spec,
        ) by {
            layer_position_is_first(spec.layers, weights[i].name, 0);
            assert(is_for(weights[i], spec, spec.index_of(weights[i].name)->0));
        }
        assert forall|i: int, j: int| 0 <= i < j < weights.len() implies (#[trigger] weights[i]).name
            != (#[trigger] weights[j]).name by {
            assert(!given_before(weights, j, weights[j].name));
        }
        assert forall|i: int| 0 <= i < weights.len() implies all_finite(
            (#[trigger] weights[i]).weights,
        ) by {
            assert(weights[i].finite());
        }
    }
    if loadable(spec, weights) {
        fitting_weights_pass(spec, weights, 0);
    }
}

/// Weights that fit pass from any entry on.
proof fn fitting_weights_pass(spec: ModelSpecView, weights: Seq<LayerWeightsView>, from: int)
    requires
        0 <= from,
        spec.names_differ(),
        loadable(spec, weights),
    ensures
        weights_fault(spec, weights, from) is None,
    decreases weights.len() - from,
{
    if from < weights.len() {
        let entry = weights[from];
        assert(has_a_layer(entry, spec));
        let layer = choose|layer: int| is_for(entry, spec, layer);
        spec.each_layer_is_found(layer);
        other_width_is_first(entry.weights, spec.layers[layer].units as int, 0);
        assert(!given_before(weights, from, entry.name));
        assert(all_finite(entry.weights));
        assert(entry.finite());
        fitting_weights_pass(spec, weights, from + 1);
    }
}

/// The first entry that cannot be loaded, the ones before it passing, is what
/// the answer is about: a name no layer has, a second entry for a layer, or, by
/// the layer's name and the shape it needs, too many or too few rows.
pub proof fn the_first_entry_that_does_not_fit_is_named(
    spec: ModelSpecView,
    weights: Seq<LayerWeightsView>,
    index: int,
    layer: int,
)
    requires
        spec.names_differ(),
        0 <= index < weights.len(),
        weights_fault(spec, weights.take(index), 0) is None,
    ensures
        ({
            let entry = weights[index];
            let fault = weights_fault(spec, weights, 0);
            let inputs = if layer == 0 {
                spec.features as nat
            } else {
                spec.layers[layer - 1].units as nat
            };
            let units = spec.layers[layer].units as nat;
            let named = 0 <= layer < spec.layers.len() && spec.layers[layer].name == entry.name;
            let alone = forall|i: int| 0 <= i < index ==> (#[trigger] weights[i]).name != entry.name;
            let even_rows = forall|row: int|
                0 <= row < entry.weights.len() ==> (#[trigger] entry.weights[row]).len() == units;
            let passing = all_finite(entry.weights) && forall|j: int|
                0 <= j < entry.bias.len() ==> (#[trigger] entry.bias[j]).finite();
            &&& (forall|k: int|
                0 <= k < spec.layers.len() ==> (#[trigger] spec.layers[k]).name != entry.name)
                ==> fault == Some(
                invalid("there is no layer named '"@ + entry.name + "' in this model"@),
            )
            &&& named && !alone ==> fault == Some(
                invalid("layer '"@ + entry.name + "' is given weights twice"@),
            )
            &&& named && alone && entry.weights.len() != inputs ==> fault == Some(
                invalid(
                    "layer '"@ + entry.name + "' needs a "@ + decimal(inputs) + "x"@ + decimal(
                        units,
                    ) + " weight matrix, "@ + "got "@ + decimal(entry.weights.len()) + " rows"@,
                ),
            )
            &&& named && alone && entry.weights.len() == inputs && even_rows && entry.bias.len()
                != units ==> fault == Some(
                invalid(
                    "layer '"@ + entry.name + "' needs "@ + decimal(units)
                        + " bias values, one per unit, got "@ + decimal(entry.bias.len()),
                ),
            )
            &&& named && alone && entry.weights.len() == inputs && even_rows && entry.bias.len()
                == units && !passing ==> fault == Some(
                invalid("layer '"@ + entry.name + "' has a weight that is not finite"@),
            )
        }),
{
    let entry = weights[index];
    earlier_entries_pass(spec, weights, index, 0);
    layer_position_is_first(spec.layers, entry.name, 0);
    if 0 <= layer < spec.layers.len() && spec.layers[layer].name == entry.name {
        spec.each_layer_is_found(layer);
        other_width_is_first(entry.weights, spec.layers[layer].units as int, 0);
        if !all_finite(entry.weights) {
            let (i, j) = choose|i: int, j: int|
                0 <= i < entry.weights.len() && 0 <= j < entry.weights[i].len()
                    && !(#[trigger] entry.weights[i][j]).finite();
            assert(!entry.weights[i][j].finite());
        }
    }
    assert(weights_fault(spec, weights, index) == match entry_fault(spec, weights, index) {
        Some(message) => Some(bad_request(message)),
        None => weights_fault(spec, weights, index + 1),
    });
}

/// In a weight matrix with the right number of rows, the first row that is too
/// long or too short is named, by the layer and the shape it needs.
pub proof fn the_first_row_of_weights_that_does_not_fit_is_named(
    spec: ModelSpecView,
    weights: Seq<LayerWeightsView>,
    index: int,
    layer: int,
    row: int,
)
    requires
        spec.names_differ(),
        0 <= index < weights.len(),
        weights_fault(spec, weights.take(index), 0) is None,
        0 <= layer < spec.layers.len(),
        spec.layers[layer].name == weights[index].name,
        forall|i: int| 0 <= i < index ==> (#[trigger] weights[i]).name != weights[index].name,
        weights[index].weights.len() == if layer == 0 {
            spec.features
        } else {
            spec.layers[layer - 1].units
        },
        0 <= row < weights[index].weights.len(),
        weights[index].weights[row].len() != spec.layers[layer].units,
        forall|i: int|
            0 <= i < row ==> (#[trigger] weights[index].weights[i]).len()
                == spec.layers[layer].units,
    ensures
        weights_fault(spec, weights, 0) == Some(
            invalid(
                "layer '"@ + weights[index].name + "' needs a "@ + decimal(
                    weights[index].weights.len(),
                ) + "x"@ + decimal(spec.layers[layer].units as nat) + " weight matrix, "@
                    + "but row "@ + decimal(row as nat) + " has "@ + decimal(
                    weights[index].weights[row].len(),
                ) + " values"@,
            ),
        ),
{
    earlier_entries_pass(spec, weights, index, 0);
    spec.each_layer_is_found(layer);
    other_width_is_first(weights[index].weights, spec.layers[layer].units as int, 0);
    assert(!given_before(weights, index, weights[index].name));
}

/// Entries that pass by themselves pass in front of others too.
proof fn earlier_entries_pass(
    spec: ModelSpecView,
    weights: Seq<LayerWeightsView>,
    index: int,
    from: int,
)
    requires
        0 <= from <= index <= weights.len(),
        weights_fault(spec, weights.take(index), from) is None,
    ensures
        weights_fault(spec, weights, from) == weights_fault(spec, weights, index),
    decreases index - from,
{
    if from < index {
        let first = weights.take(index);
        assert(first[from] == weights[from]);
        assert(entry_fault(spec, first, from) is None);
        assert(!given_before(weights, from, weights[from].name)) by {
            if given_before(weights, from, weights[from].name) {
                let i = choose|i: int|
                    0 <= i < from && (#[trigger] weights[i]).name == weights[from].name;
                assert(first[i].name == weights[from].name);
            }
        }
        earlier_entries_pass(spec, weights, index, from + 1);
    }
}

// ----------------------------------------------------------------- creating

/// Layer names are refused one by one, the first that cannot be had: a blank
/// one by the place of its layer, a second one by itself.
pub proof fn the_first_name_that_cannot_be_had_is_named(layers: Seq<LayerRequest>, index: int)
    requires
        0 <= index < layers.len(),
        layer_names(layers, index as nat) is Ok,
    ensures
        ({
            let earlier = layer_names(layers, index as nat)->Ok_0;
            let next = layer_names(layers, (index + 1) as nat);
            match layers[index].name {
                None => next is Ok,
                Some(name) => {
                    &&& blank(name@) ==> next == Err::<Seq<Seq<char>>, ErrorView>(
                        invalid("layer "@ + decimal(index as nat) + " has a blank 'name'"@),
                    )
                    &&& !blank(name@) && (exists|i: int|
                        0 <= i < index && #[trigger] earlier[i] == name@) ==> next == Err::<
                        Seq<Seq<char>>,
                        ErrorView,
                    >(invalid("layer names must be unique, '"@ + name@ + "' is used twice"@))
                    &&& !blank(name@) && !(exists|i: int|
                        0 <= i < index && #[trigger] earlier[i] == name@) ==> next == Ok::<
                        Seq<Seq<char>>,
                        ErrorView,
                    >(earlier.push(name@))
                },
            }
        }),
{
    let earlier = layer_names(layers, index as nat)->Ok_0;
    resolved_names_differ(layers, index as nat);
    if let Some(name) = layers[index].name {
        if exists|i: int| 0 <= i < index && #[trigger] earlier[i] == name@ {
            let i = choose|i: int| 0 <= i < index && #[trigger] earlier[i] == name@;
            assert(earlier.contains(earlier[i]));
        }
    }
}

/// The layers are as many and as big as the limits allow, and none is empty.
pub open spec fn sizes_pass(request: CreateModelRequest, limits: Limits) -> bool {
    &&& 1 <= request.features <= limits.max_features
    &&& 1 <= request.layers@.len() <= limits.max_layers
    &&& forall|i: int|
        0 <= i < request.layers@.len() ==> 1 <= (#[trigger] request.layers@[i]).units
            <= limits.max_units_per_layer
}

/// A model is accepted exactly where its features, its layers and their units
/// are within the limits, its names can be had, its rate and its batch size are
/// positive, its own name is not blank, and the weights that were sent fit its
/// layers.
pub proof fn a_model_is_accepted_where_it_can_be_built(
    request: CreateModelRequest,
    limits: Limits,
    drawn: u64,
)
    ensures
        request.parts(limits, drawn) is Ok <==> {
            &&& sizes_pass(request, limits)
            &&& layer_names(request.layers@, request.layers@.len()) is Ok
            &&& rate_passes(request.optimizer)
            &&& request.weights matches Some(weights) ==> weights_fault(
                request.resolved_spec(limits, drawn)->Ok_0,
                weights_view(weights@),
                0,
            ) is None
            &&& request.batch_size != Some(0usize)
            &&& request.name matches Some(name) ==> !blank(name@)
        },
{
    if let Ok(names) = layer_names(request.layers@, request.layers@.len()) {
        units_pass_where_they_fit(request.layers@, names, limits.max_units_per_layer, 0);
    }
}

/// Units pass exactly where each layer has one at least, and no more than the
/// limit.
proof fn units_pass_where_they_fit(
    layers: Seq<LayerRequest>,
    names: Seq<Seq<char>>,
    limit: usize,
    from: int,
)
    requires
        0 <= from,
    ensures
        units_fault(layers, names, limit, from) is None <==> forall|i: int|
            from <= i < layers.len() ==> 1 <= (#[trigger] layers[i]).units <= limit,
    decreases layers.len() - from,
{
    if from < layers.len() {
        units_pass_where_they_fit(layers, names, limit, from + 1);
        if units_fault(layers, names, limit, from) is None {
            assert(1 <= layers[from].units <= limit);
        }
    }
}

/// What is said of a model that is refused is the first of these that applies:
/// its features, no layers or too many, a name, the units of a layer, the rate,
/// the weights, the batch size, and its own name.
pub proof fn the_first_thing_wrong_with_a_model_is_named(
    request: CreateModelRequest,
    limits: Limits,
    drawn: u64,
    layer: int,
)
    ensures
        ({
            let refused = request.parts(limits, drawn);
            let layers = request.layers@;
            let features_pass = 1 <= request.features <= limits.max_features;
            let count_passes = features_pass && 1 <= layers.len() <= limits.max_layers;
            let names = layer_names(layers, layers.len());
            let names_pass = count_passes && names is Ok;
            let units_pass = names_pass && sizes_pass(request, limits);
            let rate_passes = units_pass && rate_passes(request.optimizer);
            let spec = request.resolved_spec(limits, drawn);
            let weights_pass = rate_passes && weights_fault(
                spec->Ok_0,
                request.sent_weights(),
                0,
            ) is None;
            let step_passes = weights_pass && request.batch_size != Some(0usize);
            &&& !features_pass ==> refused == Err::<NewModelView, ErrorView>(
                invalid(
                    "'features' must be between 1 and "@ + decimal(limits.max_features as nat)
                        + ", got "@ + decimal(request.features as nat),
                ),
            )
            &&& features_pass && layers.len() == 0 ==> refused == Err::<NewModelView, ErrorView>(
                invalid("'layers' must hold at least one layer"@),
            )
            &&& features_pass && layers.len() > limits.max_layers && layers.len() > 0 ==> refused
                == Err::<NewModelView, ErrorView>(
                invalid(
                    "'layers' holds "@ + decimal(layers.len()) + " layers, the limit is "@
                        + decimal(limits.max_layers as nat),
                ),
            )
            &&& count_passes && names is Err ==> refused == Err::<NewModelView, ErrorView>(
                names->Err_0,
            )
            &&& names_pass && 0 <= layer < layers.len() && !(1 <= layers[layer].units
                <= limits.max_units_per_layer) && (forall|i: int|
                0 <= i < layer ==> 1 <= (#[trigger] layers[i]).units <= limits.max_units_per_layer)
                ==> refused == Err::<NewModelView, ErrorView>(
                invalid(
                    "layer '"@ + names->Ok_0[layer] + "' has "@ + decimal(
                        layers[layer].units as nat,
                    ) + " units, it must be between 1 and "@ + decimal(
                        limits.max_units_per_layer as nat,
                    ),
                ),
            )
            &&& units_pass && !rate_passes ==> refused == Err::<NewModelView, ErrorView>(
                invalid(
                    "'learning_rate' must be a positive number, got "@ + (
                    request.optimizer->0->learning_rate->0).shown@,
                ),
            )
            &&& rate_passes && !weights_pass ==> refused == Err::<NewModelView, ErrorView>(
                weights_fault(spec->Ok_0, request.sent_weights(), 0)->0,
            )
            &&& weights_pass && !step_passes ==> refused == Err::<NewModelView, ErrorView>(
                invalid("'batch_size' must be at least 1"@),
            )
            &&& step_passes && request.name is Some && blank((request.name->0)@) ==> refused
                == Err::<NewModelView, ErrorView>(invalid("'name' must not be blank"@))
        }),
{
    let layers = request.layers@;
    let limit = limits.max_units_per_layer;
    if let Ok(names) = layer_names(layers, layers.len()) {
        units_pass_where_they_fit(layers, names, limit, 0);
        if 0 <= layer < layers.len() && !(1 <= layers[layer].units <= limit) && (forall|i: int|
            0 <= i < layer ==> 1 <= (#[trigger] layers[i]).units <= limit) {
            earlier_units_pass(layers, names, limit, layer, 0);
        }
    }
}

/// Layers of a size that passes are passed over.
proof fn earlier_units_pass(
    layers: Seq<LayerRequest>,
    names: Seq<Seq<char>>,
    limit: usize,
    layer: int,
    from: int,
)
    requires
        0 <= from <= layer < layers.len(),
        forall|i: int| 0 <= i < layer ==> 1 <= (#[trigger] layers[i]).units <= limit,
    ensures
        units_fault(layers, names, limit, from) == units_fault(layers, names, limit, layer),
    decreases layer - from,
{
    if from < layer {
        assert(1 <= layers[from].units <= limit);
        earlier_units_pass(layers, names, limit, layer, from + 1);
    }
}

} // verus!
