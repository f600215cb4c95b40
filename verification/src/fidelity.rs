//! What is sent is what is used: how the numbers and the settings of a request
//! and of a stored model turn up, one by one, in what the engine is told and in
//! what a client is answered.

use vstd::prelude::*;

use crate::config::Limits;
use crate::dto::{
    accepted_samples_fit, accepted_weights_fit, features_fault, list_entry, model_response,
    resolved_names_differ, samples_fault, CreateModelRequest, OptimizerRequest, TrainRequest,
};
use crate::engine::{
    at_least_1, chunks, cut_pieces_are_full, cut_values_stay_in_place, first_not_finite,
    first_other_width, first_width, joined, joined_length, joined_values_stay_in_place,
    matrix_from, model_report, not_finite_is_first, other_width_is_first, plan_of,
    weights_from, BuildPlanView, BuiltModel, LayerMatricesView,
    MatrixView, ModelReportView,
};
use crate::error::{ApiError, ErrorView};
use crate::laws::loading_changes_the_named_layers;
use crate::model::{
    complete, LayerWeightsView, LossKind, ModelSpecView, NewModelView, OptimizerConfig, OptimizerKind,
    StoredModelView,
};
use crate::number::Number;
use crate::routes::{
    built, evaluate_plan, evaluate_response, evaluated_spec, loaded, planned, predict_plan,
    predict_response, scale_plan, scaled_response, train_plan, train_response, trained,
    weights_response, CreatePlan, TrainPlanView,
};
use crate::store::{before, holds, listed, stored};

verus! {

// ----------------------------------------------------------------- matrices

/// `matrix` is `rows`, row after row: the value in column `j` of row `i` stands
/// behind `i` whole rows and `j` values, and there is nothing else in it.
pub open spec fn lays_out(matrix: MatrixView, rows: Seq<Seq<Number>>) -> bool {
    &&& matrix.row_count == rows.len()
    &&& matrix.values.len() == rows.len() * matrix.col_count
    &&& forall|i: int| 0 <= i < rows.len() ==> (#[trigger] rows[i]).len() == matrix.col_count
    &&& forall|i: int, j: int|
        0 <= i < rows.len() && 0 <= j < rows[i].len() ==> matrix.values[i * matrix.col_count + j]
            == #[trigger] rows[i][j]
}

/// All rows are as long as the first.
pub open spec fn even(rows: Seq<Seq<Number>>) -> bool {
    forall|i: int| 0 <= i < rows.len() ==> (#[trigger] rows[i]).len() == rows[0].len()
}

/// No value is infinite or a NaN.
pub open spec fn all_finite(rows: Seq<Seq<Number>>) -> bool {
    forall|i: int, j: int|
        0 <= i < rows.len() && 0 <= j < rows[i].len() ==> (#[trigger] rows[i][j]).finite()
}

/// The rows can be held in memory.
pub open spec fn countable(rows: Seq<Seq<Number>>) -> bool {
    &&& rows.len() <= usize::MAX
    &&& forall|i: int| 0 <= i < rows.len() ==> (#[trigger] rows[i]).len() <= usize::MAX
}

/// Rows make a matrix exactly where they are of one length and all their values
/// are finite, and the matrix they make is these rows, in order.
pub proof fn a_matrix_is_its_rows(rows: Seq<Seq<Number>>, field: Seq<char>)
    requires
        countable(rows),
    ensures
        matrix_from(rows, field) is Ok <==> even(rows) && all_finite(rows),
        matrix_from(rows, field) matches Ok(matrix) ==> lays_out(matrix, rows),
        matrix_from(rows, field) matches Ok(matrix) ==> rows.len() > 0 ==> matrix.col_count
            == rows[0].len(),
{
    let width = first_width(rows);
    let values = joined(rows);
    other_width_is_first(rows, width as int, 0);
    not_finite_is_first(values, 0);
    if rows.len() > 0 {
        assert(rows[0].len() <= usize::MAX);
    }
    if first_other_width(rows, width as int, 0) is None {
        joined_length(rows, width);
        assert forall|i: int, j: int| 0 <= i < rows.len() && 0 <= j < rows[i].len() implies values[i
            * width + j] == #[trigger] rows[i][j] by {
            joined_values_stay_in_place(rows, width, i, j);
        }
        assert(even(rows));
        match first_not_finite(values, 0) {
            Some(position) => {
                let i = row_of(rows, width, position);
                assert(!rows[i][position - i * width].finite());
            },
            None => {
                assert forall|i: int, j: int| 0 <= i < rows.len() && 0 <= j
                    < rows[i].len() implies (#[trigger] rows[i][j]).finite() by {
                    joined_values_stay_in_place(rows, width, i, j);
                    assert(values[i * width + j].finite());
                }
            },
        }
    }
}

/// The row in which the value at `position` of joined rows stands.
pub proof fn row_of(rows: Seq<Seq<Number>>, width: nat, position: int) -> (row: int)
    requires
        forall|i: int| 0 <= i < rows.len() ==> (#[trigger] rows[i]).len() == width,
        0 <= position < joined(rows).len(),
    ensures
        width > 0,
        row == position / width as int,
        0 <= row < rows.len(),
        0 <= position - row * width < width,
        position - row * width == position % width as int,
        joined(rows)[position] == rows[row][position - row * width],
{
    joined_length(rows, width);
    if width == 0 {
        assert(rows.len() * 0 == 0);
    }
    let row = position / width as int;
    vstd::arithmetic::div_mod::lemma_fundamental_div_mod(position, width as int);
    assert(position % width as int >= 0 && position % (width as int) < width) by {
        vstd::arithmetic::div_mod::lemma_mod_bound(position, width as int);
    }
    assert(row * width == width * row) by (nonlinear_arith);
    assert(0 <= row < rows.len()) by (nonlinear_arith)
        requires
            0 <= position < rows.len() * width,
            position == width * row + position % width as int,
            0 <= position % (width as int) < width,
    ;
    joined_values_stay_in_place(rows, width, row, position - row * width);
    row
}

/// A matrix with columns that is sent back as rows is the rows it was made of,
/// and a matrix of any shape is cut into full rows, in order.
pub proof fn rows_are_cut_in_order(matrix: MatrixView, row: int)
    requires
        matrix.wf(),
        matrix.col_count > 0,
        0 <= row < matrix.row_count,
    ensures
        chunks(matrix.values, at_least_1(matrix.col_count as nat)).len() == matrix.row_count,
        ({
            let cut = chunks(matrix.values, at_least_1(matrix.col_count as nat));
            &&& cut[row].len() == matrix.col_count
            &&& forall|j: int|
                0 <= j < matrix.col_count ==> #[trigger] cut[row][j] == matrix.values[row
                    * matrix.col_count + j]
        }),
{
    let size = matrix.col_count as nat;
    let count = chunks(matrix.values, size).len();
    cut_pieces_are_full(matrix.values, size);
    assert(count == matrix.row_count) by (nonlinear_arith)
        requires
            size > 0,
            count * size < matrix.row_count * size + size,
            matrix.row_count * size <= count * size,
    ;
    cut_values_stay_in_place(matrix.values, size, row);
    assert(matrix.row_count * size - row * size >= size) by (nonlinear_arith)
        requires
            row + 1 <= matrix.row_count,
    ;
}

// ----------------------------------------------------------------- building

/// `matrices` is what `layer` weighs: under its name, W its rows in order, one
/// column for each bias, and b a single row.
pub open spec fn carries(matrices: LayerMatricesView, layer: LayerWeightsView) -> bool {
    &&& matrices.name == layer.name
    &&& matrices.weights.row_count == layer.weights.len()
    &&& matrices.weights.col_count == layer.bias.len()
    &&& lays_out(matrices.weights, layer.weights)
    &&& matrices.bias.row_count == 1
    &&& matrices.bias.col_count == layer.bias.len()
    &&& matrices.bias.values == layer.bias
}

/// The plan builds the layers of `spec`, each where it stands there, with its
/// name, its units and its activation, on that many features.
pub open spec fn builds_layers(plan: BuildPlanView, spec: ModelSpecView) -> bool {
    &&& plan.features == spec.features
    &&& plan.layers.len() == spec.layers.len()
    &&& forall|i: int|
        0 <= i < spec.layers.len() ==> {
            &&& (#[trigger] plan.layers[i]).name == spec.layers[i].name
            &&& plan.layers[i].units == spec.layers[i].units
            &&& plan.layers[i].activation == spec.layers[i].activation
        }
}

/// The plan loads `weights`, all of them and nothing else, in order.
pub open spec fn loads(plan: BuildPlanView, weights: Seq<LayerWeightsView>) -> bool {
    &&& plan.weights.len() == weights.len()
    &&& forall|i: int| 0 <= i < weights.len() ==> carries(#[trigger] plan.weights[i], weights[i])
}

/// The weights are matrices: as many columns in every row as there are biases.
pub open spec fn rectangular(layer: LayerWeightsView) -> bool {
    &&& layer.weights.len() <= usize::MAX
    &&& layer.bias.len() <= usize::MAX
    &&& forall|i: int|
        0 <= i < layer.weights.len() ==> (#[trigger] layer.weights[i]).len() == layer.bias.len()
}

/// Building a model builds what its spec says: the seed and the features of the
/// spec, a layer for each of its layers with that layer's name, units and
/// activation, compiled with its loss and its optimizer exactly where it has
/// both, and with the weights that were given, value by value.
pub proof fn a_model_is_built_as_specified(spec: ModelSpecView, weights: Seq<LayerWeightsView>)
    requires
        forall|i: int| 0 <= i < weights.len() ==> rectangular(#[trigger] weights[i]),
    ensures
        plan_of(spec, weights).seed == spec.seed,
        builds_layers(plan_of(spec, weights), spec),
        loads(plan_of(spec, weights), weights),
        plan_of(spec, weights).compile is Some <==> spec.loss is Some && spec.optimizer is Some,
        plan_of(spec, weights).compile matches Some((loss, optimizer)) ==> spec.loss == Some(loss)
            && spec.optimizer == Some(optimizer),
{
    let plan = plan_of(spec, weights);
    assert forall|i: int| 0 <= i < weights.len() implies carries(
        #[trigger] plan.weights[i],
        weights[i],
    ) by {
        let layer = weights[i];
        assert(rectangular(layer));
        joined_length(layer.weights, layer.bias.len());
        assert forall|r: int, c: int|
            0 <= r < layer.weights.len() && 0 <= c
                < layer.weights[r].len() implies plan.weights[i].weights.values[r
            * plan.weights[i].weights.col_count + c] == #[trigger] layer.weights[r][c] by {
            joined_values_stay_in_place(layer.weights, layer.bias.len(), r, c);
        }
    }
}

/// The weights of a stored model are matrices.
pub proof fn stored_weights_are_rectangular(model: StoredModelView)
    requires
        model.wf(),
    ensures
        forall|i: int| 0 <= i < model.weights.len() ==> rectangular(#[trigger] model.weights[i]),
{
    assert forall|i: int| 0 <= i < model.weights.len() implies rectangular(
        #[trigger] model.weights[i],
    ) by {
        assert(model.weights[i].fits(
            model.spec.input_count(i) as int,
            model.spec.layers[i].units as int,
        ));
    }
}

/// What is read back off a built layer: its name, W cut into rows of one value
/// per unit, in order, and b.
pub proof fn a_layer_is_read_back_in_order(layer: LayerMatricesView, row: int)
    requires
        layer.weights.wf(),
        layer.weights.col_count > 0,
        0 <= row < layer.weights.row_count,
    ensures
        weights_from(layer).name == layer.name,
        weights_from(layer).bias == layer.bias.values,
        weights_from(layer).weights.len() == layer.weights.row_count,
        weights_from(layer).weights[row].len() == layer.weights.col_count,
        forall|j: int|
            0 <= j < layer.weights.col_count ==> #[trigger] weights_from(layer).weights[row][j]
                == layer.weights.values[row * layer.weights.col_count + j],
{
    rows_are_cut_in_order(layer.weights, row);
}

/// What is reported of a built model is what was read back of it, layer by
/// layer in the order they run: the name, the units, one input for each row of
/// W, and the parameters; and of the whole its summary and its parameters.
pub proof fn a_report_tells_what_was_built(built: BuiltModel, index: int)
    requires
        0 <= index < built.layers@.len(),
    ensures
        model_report(built).summary == built.summary@,
        model_report(built).total_params == built.total_params,
        model_report(built).layers.len() == built.layers@.len(),
        model_report(built).weights.len() == built.layers@.len(),
        model_report(built).layers[index].name == built.layers@[index].matrices.name@,
        model_report(built).layers[index].units == built.layers@[index].units,
        model_report(built).layers[index].params == built.layers@[index].params,
        model_report(built).layers[index].input_count
            == built.layers@[index].matrices.weights.row_count,
        model_report(built).weights[index].name == built.layers@[index].matrices.name@,
        model_report(built).weights[index].bias == built.layers@[index].matrices.bias.values@,
        forall|row: int, j: int|
            built.layers@[index].matrices@.weights.wf() && 0 <= row
                < built.layers@[index].matrices.weights.row_count && 0 <= j
                < built.layers@[index].matrices.weights.col_count
                ==> #[trigger] model_report(built).weights[index].weights[row][j]
                == built.layers@[index].matrices.weights.values@[row
                * built.layers@[index].matrices.weights.col_count + j],
{
    let matrices = built.layers@[index].matrices@;
    assert(model_report(built).weights[index] == weights_from(matrices));
    assert forall|row: int, j: int|
        matrices.weights.wf() && 0 <= row < matrices.weights.row_count && 0 <= j
            < matrices.weights.col_count implies #[trigger] model_report(
        built,
    ).weights[index].weights[row][j] == matrices.weights.values[row * matrices.weights.col_count
        + j] by {
        a_layer_is_read_back_in_order(matrices, row);
        assert(weights_from(matrices).weights[row][j] == matrices.weights.values[row
            * matrices.weights.col_count + j]);
    }
}

// ----------------------------------------------------------------- training

/// Every sample of a run is fitted to its own target: row `i` of the x that was
/// sent is row `i` of the x the engine gets, row `i` of the y that was sent is
/// row `i` of the y it gets, and cutting either into rows gives back what was
/// sent. x has one column per feature of the model, y one per unit of its last
/// layer.
pub proof fn a_run_fits_each_sample_to_its_target(
    model: StoredModelView,
    request: TrainRequest,
    scaled: bool,
    x: Seq<Seq<Number>>,
    y: Seq<Seq<Number>>,
    limits: Limits,
)
    requires
        model.wf(),
        train_plan(model, request, scaled, x, y, limits) is Ok,
    ensures
        ({
            let plan = train_plan(model, request, scaled, x, y, limits)->Ok_0;
            &&& x.len() == y.len()
            &&& plan.samples == x.len()
            &&& plan.x.col_count == model.spec.features
            &&& plan.y.col_count == model.spec.layers.last().units
            &&& lays_out(plan.x, x)
            &&& lays_out(plan.y, y)
            &&& chunks(plan.x.values, plan.x.col_count as nat) == x
            &&& chunks(plan.y.values, plan.y.col_count as nat) == y
            &&& forall|i: int|
                0 <= i < x.len() ==> plan.x.values.subrange(
                    i * plan.x.col_count,
                    i * plan.x.col_count + plan.x.col_count,
                ) == (#[trigger] x[i])
            &&& forall|i: int|
                0 <= i < y.len() ==> plan.y.values.subrange(
                    i * plan.y.col_count,
                    i * plan.y.col_count + plan.y.col_count,
                ) == (#[trigger] y[i])
        }),
{
    let plan = train_plan(model, request, scaled, x, y, limits)->Ok_0;
    samples_are_laid_out(model.spec, x, y, limits);
    rows_stand_in_the_buffer(plan.x, x);
    rows_stand_in_the_buffer(plan.y, y);
}

/// Samples that are accepted, as the matrices they make.
proof fn samples_are_laid_out(
    spec: ModelSpecView,
    x: Seq<Seq<Number>>,
    y: Seq<Seq<Number>>,
    limits: Limits,
)
    requires
        spec.buildable(),
        samples_fault(spec, x, y, limits) is None,
        matrix_from(x, "x"@) is Ok,
        matrix_from(y, "y"@) is Ok,
    ensures
        1 <= x.len() <= limits.max_samples,
        x.len() == y.len(),
        matrix_from(x, "x"@)->Ok_0.col_count == spec.features,
        matrix_from(y, "y"@)->Ok_0.col_count == spec.layers.last().units,
        spec.features > 0,
        spec.layers.last().units > 0,
        lays_out(matrix_from(x, "x"@)->Ok_0, x),
        lays_out(matrix_from(y, "y"@)->Ok_0, y),
{
    accepted_samples_fit(spec, x, y, limits);
    assert(x[0].len() == spec.features);
    assert(y[0].len() == spec.layers.last().units);
    assert(spec.layers[spec.layers.len() - 1].units > 0);
    a_matrix_is_its_rows(x, "x"@);
    a_matrix_is_its_rows(y, "y"@);
}

/// Rows that are laid out can be cut out again.
proof fn rows_stand_in_the_buffer(matrix: MatrixView, rows: Seq<Seq<Number>>)
    requires
        lays_out(matrix, rows),
        matrix.col_count > 0,
    ensures
        chunks(matrix.values, matrix.col_count as nat) == rows,
        forall|i: int|
            0 <= i < rows.len() ==> matrix.values.subrange(
                i * matrix.col_count,
                i * matrix.col_count + matrix.col_count,
            ) == (#[trigger] rows[i]),
{
    let width = matrix.col_count as nat;
    let cut = chunks(matrix.values, width);
    assert forall|i: int| 0 <= i < rows.len() implies matrix.values.subrange(
        i * matrix.col_count,
        i * matrix.col_count + matrix.col_count,
    ) == (#[trigger] rows[i]) by {
        assert(0 <= i * width && i * width + width <= rows.len() * width) by (nonlinear_arith)
            requires
                0 <= i,
                i + 1 <= rows.len(),
        ;
        let part = matrix.values.subrange(i * width, i * width + width);
        assert forall|j: int| 0 <= j < width implies part[j] == rows[i][j] by {
            assert(matrix.values[i * matrix.col_count + j] == rows[i][j]);
        }
        assert(part =~= rows[i]);
    }
    cut_pieces_are_full(matrix.values, width);
    assert(cut.len() == rows.len()) by (nonlinear_arith)
        requires
            width > 0,
            cut.len() * width < rows.len() * width + width,
            rows.len() * width <= cut.len() * width,
    ;
    assert forall|i: int| 0 <= i < cut.len() implies cut[i] == rows[i] by {
        rows_are_cut_in_order(matrix, i);
        assert forall|j: int| 0 <= j < width implies cut[i][j] == rows[i][j] by {
            assert(matrix.values[i * matrix.col_count + j] == rows[i][j]);
        }
        assert(cut[i] =~= rows[i]);
    }
    assert(cut =~= rows);
}

/// A run carries on from the model as it is stored: its layers, with their
/// activations, and all its weights, whatever its history. It is compiled with
/// the loss and the optimizer that are reported, and runs as the request says.
pub proof fn a_run_starts_from_the_stored_model(
    model: StoredModelView,
    request: TrainRequest,
    scaled: bool,
    x: Seq<Seq<Number>>,
    y: Seq<Seq<Number>>,
    limits: Limits,
)
    requires
        model.wf(),
        train_plan(model, request, scaled, x, y, limits) is Ok,
    ensures
        ({
            let plan = train_plan(model, request, scaled, x, y, limits)->Ok_0;
            &&& plan.id == model.id
            &&& builds_layers(plan.build, model.spec)
            &&& loads(plan.build, model.weights)
            &&& plan.build.weights.len() == model.spec.layers.len()
            &&& plan.build.compile == Some((plan.loss, plan.optimizer))
            &&& request.seed matches Some(seed) ==> plan.build.seed == seed
            &&& request.seed is None ==> plan.build.seed == model.spec.seed
            &&& request.loss matches Some(loss) ==> plan.loss == loss
            &&& request.loss is None ==> model.spec.loss == Some(plan.loss)
            &&& request.batch_size matches Some(size) ==> plan.options.batch_size == size
            &&& request.batch_size is None ==> plan.options.batch_size == model.batch_size
            &&& plan.options.epochs == request.epochs
            &&& plan.options.shuffle == request.shuffle
            &&& !plan.options.verbose
            &&& plan.return_history == request.return_history
            &&& match request.optimizer {
                Some(OptimizerRequest::Kind(kind)) => plan.optimizer.kind == kind
                    && plan.optimizer.learning_rate == kind.default_rate(),
                Some(OptimizerRequest::Config { kind, learning_rate: None }) => plan.optimizer.kind
                    == kind && plan.optimizer.learning_rate == kind.default_rate(),
                Some(OptimizerRequest::Config { kind, learning_rate: Some(sent) }) =>
                    plan.optimizer.kind == kind && plan.optimizer.learning_rate == sent.rate,
                None => match model.spec.optimizer {
                    Some(optimizer) => plan.optimizer == optimizer,
                    None => plan.optimizer.kind == OptimizerKind::Adam
                        && plan.optimizer.learning_rate == OptimizerKind::Adam.default_rate(),
                },
            }
        }),
{
    let plan = train_plan(model, request, scaled, x, y, limits)->Ok_0;
    stored_weights_are_rectangular(model);
    let spec = ModelSpecView {
        loss: Some(plan.loss),
        optimizer: Some(plan.optimizer),
        seed: plan.build.seed,
        ..model.spec
    };
    a_model_is_built_as_specified(spec, model.weights);
}

/// A run leaves behind what the engine returned: the weights it ended with, the
/// last of its losses, and its epochs on top of those before. Only a run that
/// scaled the columns changes the ratios, and nothing else of the model changes.
pub proof fn a_run_is_remembered(
    model: StoredModelView,
    plan: TrainPlanView,
    weights: Seq<LayerWeightsView>,
    losses: Seq<Number>,
    ratios: Option<Seq<usize>>,
    now: u64,
)
    requires
        losses.len() > 0,
        model.trained_epochs + plan.options.epochs <= usize::MAX,
    ensures
        ({
            let later = trained(model, plan, weights, losses, ratios, now);
            &&& later.weights == weights
            &&& later.last_loss == Some(losses[losses.len() - 1])
            &&& later.trained_epochs == model.trained_epochs + plan.options.epochs
            &&& later.updated_at_ms == now
            &&& later.spec.loss == Some(plan.loss)
            &&& later.spec.optimizer == Some(plan.optimizer)
            &&& ratios is Some ==> later.ten_power_ratios == ratios
            &&& ratios is None ==> later.ten_power_ratios == model.ten_power_ratios
            &&& later.id == model.id
            &&& later.name == model.name
            &&& later.batch_size == model.batch_size
            &&& later.created_at_ms == model.created_at_ms
            &&& later.spec.features == model.spec.features
            &&& later.spec.layers == model.spec.layers
            &&& later.spec.seed == model.spec.seed
        }),
{
}

/// What is told of a run is the run: its settings as they were planned, its
/// first and its last loss, all of them in order where they were asked for, the
/// epochs of the model's whole life, and the ratios it scaled by.
pub proof fn a_run_is_told_as_it_went(
    model: StoredModelView,
    plan: TrainPlanView,
    losses: Seq<Number>,
    ratios: Option<Seq<usize>>,
    duration_ms: u64,
)
    requires
        losses.len() > 0,
        model.trained_epochs + plan.options.epochs <= usize::MAX,
    ensures
        ({
            let told = train_response(model, plan, losses, ratios, duration_ms);
            &&& told.id == plan.id
            &&& told.epochs == plan.options.epochs
            &&& told.batch_size == plan.options.batch_size
            &&& told.samples == plan.samples
            &&& told.loss_function == plan.loss
            &&& told.optimizer == plan.optimizer
            &&& told.initial_loss == losses[0]
            &&& told.final_loss == losses[losses.len() - 1]
            &&& plan.return_history ==> told.loss == Some(losses)
            &&& !plan.return_history ==> told.loss is None
            &&& told.trained_epochs == model.trained_epochs + plan.options.epochs
            &&& told.duration_ms == duration_ms
            &&& told.ten_power_ratios == ratios
        }),
{
}

/// What a client is told right after a run is what the model then says of
/// itself.
pub proof fn a_run_is_told_as_it_is_remembered(
    model: StoredModelView,
    plan: TrainPlanView,
    weights: Seq<LayerWeightsView>,
    losses: Seq<Number>,
    ratios: Option<Seq<usize>>,
    now: u64,
    duration_ms: u64,
)
    requires
        losses.len() > 0,
        plan.id == model.id,
    ensures
        ({
            let told = train_response(model, plan, losses, ratios, duration_ms);
            let entry = list_entry(trained(model, plan, weights, losses, ratios, now));
            &&& entry.id == told.id
            &&& entry.trained_epochs == told.trained_epochs
            &&& entry.last_loss == Some(told.final_loss)
            &&& entry.loss == Some(told.loss_function)
            &&& entry.optimizer == Some(told.optimizer)
            &&& entry.updated_at_ms == now
        }),
{
}

// --------------------------------------------------------------- predicting

/// A prediction asks the model as it is stored: its own layers, all the weights
/// it has, whatever its history, and x as it was sent, row by row. Only a model
/// that was trained on scaled columns is rescaled: column `j` of x is divided
/// by the power of ten it was divided by in training, and the answer multiplied
/// by the target's.
pub proof fn a_prediction_asks_the_stored_model(
    model: StoredModelView,
    x: Seq<Seq<Number>>,
    limits: Limits,
)
    requires
        model.wf(),
        predict_plan(model, x, limits) is Ok,
    ensures
        ({
            let plan = predict_plan(model, x, limits)->Ok_0;
            &&& plan.id == model.id
            &&& plan.build.seed == model.spec.seed
            &&& builds_layers(plan.build, model.spec)
            &&& loads(plan.build, model.weights)
            &&& plan.build.weights.len() == model.spec.layers.len()
            &&& forall|i: int|
                0 <= i < model.weights.len() ==> weights_from(#[trigger] plan.build.weights[i])
                    == model.weights[i]
            &&& plan.x.col_count == model.spec.features
            &&& lays_out(plan.x, x)
            &&& chunks(plan.x.values, plan.x.col_count as nat) == x
            &&& plan.rescaling is Some <==> model.ten_power_ratios is Some
            &&& model.ten_power_ratios matches Some(ratios) ==> {
                &&& plan.rescaling->0.features.len() == model.spec.features
                &&& forall|j: int|
                    0 <= j < model.spec.features ==> #[trigger] plan.rescaling->0.features[j] == -(
                    ratios[j] as int)
                &&& plan.rescaling->0.target == ratios[model.spec.features as int]
            }
        }),
{
    let plan = predict_plan(model, x, limits)->Ok_0;
    stored_weights_are_rectangular(model);
    a_model_is_built_as_specified(model.spec, model.weights);
    other_width_is_first(x, model.spec.features as int, 0);
    assert(x[0].len() == model.spec.features);
    a_matrix_is_its_rows(x, "x"@);
    rows_stand_in_the_buffer(plan.x, x);
    assert forall|i: int| 0 <= i < model.weights.len() implies weights_from(
        #[trigger] plan.build.weights[i],
    ) == model.weights[i] by {
        let layer = model.weights[i];
        let told = plan.build.weights[i];
        assert(carries(told, layer));
        assert(rectangular(layer));
        assert(model.spec.layers[i].units > 0);
        rows_stand_in_the_buffer(told.weights, layer.weights);
    }
}

// --------------------------------------------------------------- evaluating

/// An evaluation measures the loss it reports: the engine is compiled with it,
/// and it is the one that was asked for, or else the model's own. What is
/// measured is the model as it is stored, sample by sample against its targets.
pub proof fn an_evaluation_measures_what_it_reports(
    model: StoredModelView,
    requested: Option<LossKind>,
    x: Seq<Seq<Number>>,
    y: Seq<Seq<Number>>,
    limits: Limits,
)
    requires
        model.wf(),
        evaluate_plan(model, requested, x, y, limits) is Ok,
    ensures
        ({
            let plan = evaluate_plan(model, requested, x, y, limits)->Ok_0;
            &&& plan.build.compile matches Some((loss, optimizer)) && loss == plan.loss
            &&& requested matches Some(loss) ==> plan.loss == loss
            &&& requested is None ==> model.spec.loss == Some(plan.loss)
            &&& plan.id == model.id
            &&& plan.samples == x.len()
            &&& x.len() == y.len()
            &&& plan.build.seed == model.spec.seed
            &&& builds_layers(plan.build, model.spec)
            &&& loads(plan.build, model.weights)
            &&& plan.build.weights.len() == model.spec.layers.len()
            &&& plan.x.col_count == model.spec.features
            &&& plan.y.col_count == model.spec.layers.last().units
            &&& lays_out(plan.x, x)
            &&& lays_out(plan.y, y)
            &&& chunks(plan.x.values, plan.x.col_count as nat) == x
            &&& chunks(plan.y.values, plan.y.col_count as nat) == y
        }),
{
    let plan = evaluate_plan(model, requested, x, y, limits)->Ok_0;
    stored_weights_are_rectangular(model);
    let spec = ModelSpecView {
        loss: Some(plan.loss),
        optimizer: Some((plan.build.compile->0).1),
        ..model.spec
    };
    assert(spec == evaluated_spec(model.spec, plan.loss));
    a_model_is_built_as_specified(spec, model.weights);
    samples_are_laid_out(model.spec, x, y, limits);
    rows_stand_in_the_buffer(plan.x, x);
    rows_stand_in_the_buffer(plan.y, y);
}

/// Evaluating on the data and the loss of a run asks the engine about the very
/// model, samples and loss that the run trains.
pub proof fn a_run_can_be_evaluated(
    model: StoredModelView,
    request: TrainRequest,
    scaled: bool,
    x: Seq<Seq<Number>>,
    y: Seq<Seq<Number>>,
    limits: Limits,
)
    requires
        train_plan(model, request, scaled, x, y, limits) is Ok,
    ensures
        ({
            let run = train_plan(model, request, scaled, x, y, limits)->Ok_0;
            let measured = evaluate_plan(model, Some(run.loss), x, y, limits);
            &&& measured is Ok
            &&& measured->Ok_0.x == run.x && measured->Ok_0.y == run.y
            &&& measured->Ok_0.loss == run.loss
            &&& measured->Ok_0.samples == run.samples
            &&& measured->Ok_0.build.layers == run.build.layers
            &&& measured->Ok_0.build.weights == run.build.weights
            &&& measured->Ok_0.build.compile is Some && run.build.compile is Some
            &&& (measured->Ok_0.build.compile->0).0 == (run.build.compile->0).0
        }),
{
}

// ------------------------------------------------------------------ scaling

/// What is scaled is what was sent, x and y each for themselves, row by row,
/// with a single column in y.
pub proof fn scaling_takes_what_was_sent(
    x: Seq<Seq<Number>>,
    y: Seq<Seq<Number>>,
    limits: Limits,
)
    requires
        countable(x),
        scale_plan(x, y, limits) is Ok,
    ensures
        x.len() == y.len(),
        lays_out(scale_plan(x, y, limits)->Ok_0.x, x),
        lays_out(scale_plan(x, y, limits)->Ok_0.y, y),
        scale_plan(x, y, limits)->Ok_0.x.col_count == x[0].len(),
        scale_plan(x, y, limits)->Ok_0.y.col_count == 1,
{
    other_width_is_first(y, 1, 0);
    assert(y[0].len() == 1);
    a_matrix_is_its_rows(x, "x"@);
    a_matrix_is_its_rows(y, "y"@);
}

// ----------------------------------------------------------------- creating

/// A model that is accepted is the one that was asked for: as many layers as
/// were sent, in order, each with its units, its activation and the name it was
/// given; the features, the loss, the batch size and the name of the request,
/// with 32 and "sequential" where it has none; the seed it brought or the one
/// drawn; and the weights that were sent, all of them and nothing else.
pub proof fn a_model_is_created_as_asked_for(
    request: CreateModelRequest,
    limits: Limits,
    drawn: u64,
)
    requires
        request.parts(limits, drawn) is Ok,
    ensures
        ({
            let parts = request.parts(limits, drawn)->Ok_0;
            &&& parts.spec.features == request.features
            &&& parts.spec.layers.len() == request.layers@.len()
            &&& forall|i: int|
                0 <= i < request.layers@.len() ==> {
                    &&& (#[trigger] parts.spec.layers[i]).units == request.layers@[i].units
                    &&& parts.spec.layers[i].activation == request.layers@[i].activation
                    &&& request.layers@[i].name matches Some(name) ==> parts.spec.layers[i].name
                        == name@
                }
            &&& parts.spec.loss == request.loss
            &&& request.seed matches Some(seed) ==> parts.spec.seed == seed
            &&& request.seed is None ==> parts.spec.seed == drawn
            &&& request.batch_size matches Some(size) ==> parts.batch_size == size
            &&& request.batch_size is None ==> parts.batch_size == 32
            &&& request.name matches Some(name) ==> parts.name == name@
            &&& request.name is None ==> parts.name == "sequential"@
            &&& match request.weights {
                Some(weights) => {
                    &&& parts.weights.len() == weights@.len()
                    &&& forall|i: int|
                        0 <= i < weights@.len() ==> {
                            &&& (#[trigger] parts.weights[i]).name == weights@[i].name@
                            &&& parts.weights[i].bias == weights@[i].bias@
                            &&& parts.weights[i].weights.len() == weights@[i].weights@.len()
                        }
                    &&& forall|i: int, row: int|
                        0 <= i < weights@.len() && 0 <= row < weights@[i].weights@.len()
                            ==> #[trigger] parts.weights[i].weights[row]
                            == weights@[i].weights@[row]@
                },
                None => parts.weights.len() == 0,
            }
            &&& match request.optimizer {
                Some(OptimizerRequest::Kind(kind)) => parts.spec.optimizer == Some(
                    OptimizerConfig { kind, learning_rate: kind.default_rate() },
                ),
                Some(OptimizerRequest::Config { kind, learning_rate: None }) => parts.spec.optimizer
                    == Some(OptimizerConfig { kind, learning_rate: kind.default_rate() }),
                Some(OptimizerRequest::Config { kind, learning_rate: Some(sent) }) =>
                    parts.spec.optimizer == Some(
                    OptimizerConfig { kind, learning_rate: sent.rate },
                ),
                None => if request.loss is Some {
                    parts.spec.optimizer == Some(
                        OptimizerConfig {
                            kind: OptimizerKind::Adam,
                            learning_rate: OptimizerKind::Adam.default_rate(),
                        },
                    )
                } else {
                    parts.spec.optimizer is None
                },
            }
        }),
{
    resolved_names_differ(request.layers@, request.layers@.len());
}

/// What is planned for a new model is the model that was asked for: its layers
/// with their units and activations, compiled with its loss where it has one,
/// and loaded with the weights that were sent.
pub proof fn a_new_model_is_built_as_asked_for(
    request: CreateModelRequest,
    limits: Limits,
    drawn: u64,
)
    requires
        request.parts(limits, drawn) is Ok,
    ensures
        ({
            let parts = request.parts(limits, drawn)->Ok_0;
            let plan = plan_of(parts.spec, parts.weights);
            &&& plan.features == request.features
            &&& plan.layers.len() == request.layers@.len()
            &&& forall|i: int|
                0 <= i < request.layers@.len() ==> {
                    &&& (#[trigger] plan.layers[i]).units == request.layers@[i].units
                    &&& plan.layers[i].activation == request.layers@[i].activation
                    &&& request.layers@[i].name matches Some(name) ==> plan.layers[i].name == name@
                }
            &&& request.loss is Some <==> plan.compile is Some
            &&& plan.compile matches Some((loss, optimizer)) ==> request.loss == Some(loss)
            &&& loads(plan, parts.weights)
            &&& request.weights is None ==> plan.weights.len() == 0
        }),
{
    let parts = request.parts(limits, drawn)->Ok_0;
    a_model_is_created_as_asked_for(request, limits, drawn);
    accepted_weights_fit(parts.spec, parts.weights, 0);
    assert forall|i: int| 0 <= i < parts.weights.len() implies rectangular(
        #[trigger] parts.weights[i],
    ) by {
        let layer = parts.spec.index_of(parts.weights[i].name)->0;
        assert(parts.weights[i].fits(
            parts.spec.input_count(layer) as int,
            parts.spec.layers[layer].units as int,
        ));
    }
    a_model_is_built_as_specified(parts.spec, parts.weights);
}

/// A new model is stored as it was made, under its id, made and changed at the
/// same moment, and untrained.
pub proof fn a_new_model_is_stored_as_it_was_made(new: NewModelView, id: u128, now: u64)
    ensures
        ({
            let model = stored(new, id, now);
            &&& model.id == id
            &&& model.name == new.name
            &&& model.spec == new.spec
            &&& model.weights == new.weights
            &&& model.batch_size == new.batch_size
            &&& model.created_at_ms == now
            &&& model.updated_at_ms == now
            &&& model.trained_epochs == 0
            &&& model.last_loss is None
            &&& model.ten_power_ratios is None
        }),
{
}

/// A model is created with the weights the engine reports it was built with,
/// and is otherwise the one that was validated.
pub proof fn a_built_model_has_the_reported_weights(new: NewModelView, report: ModelReportView)
    ensures
        built(new, report).weights == report.weights,
        built(new, report).name == new.name,
        built(new, report).spec == new.spec,
        built(new, report).batch_size == new.batch_size,
{
}

// ------------------------------------------------------------------ telling

/// The list tells of every model what it is: its id, its name, the columns it
/// takes in x, the units of its last layer, how it is compiled, and how it was
/// trained.
pub proof fn the_list_tells_each_model_as_it_is(model: StoredModelView)
    requires
        model.wf(),
    ensures
        ({
            let entry = list_entry(model);
            &&& entry.id == model.id
            &&& entry.name == model.name
            &&& entry.features == model.spec.features
            &&& entry.output_units == model.spec.layers[model.spec.layers.len() - 1].units
            &&& entry.total_params == model.spec.params()
            &&& entry.loss == model.spec.loss
            &&& entry.optimizer == model.spec.optimizer
            &&& entry.seed == model.spec.seed
            &&& entry.batch_size == model.batch_size
            &&& entry.trained_epochs == model.trained_epochs
            &&& entry.last_loss == model.last_loss
            &&& entry.created_at_ms == model.created_at_ms
            &&& entry.updated_at_ms == model.updated_at_ms
        }),
{
}

/// Data shaped by the list is data the model takes: samples that pass have as
/// many columns in x as the list says there are features, and as many in y as
/// it says there are output units; and one row of another width is refused.
pub proof fn the_list_tells_the_shape_of_the_data(
    model: StoredModelView,
    x: Seq<Seq<Number>>,
    y: Seq<Seq<Number>>,
    limits: Limits,
    row: int,
)
    requires
        model.wf(),
        0 <= row < x.len(),
    ensures
        samples_fault(model.spec, x, y, limits) is None ==> x[row].len() == list_entry(
            model,
        ).features && y[row].len() == list_entry(model).output_units,
        x[row].len() != list_entry(model).features ==> features_fault(model.spec, x, limits) is Some,
        row < y.len() && y[row].len() != list_entry(model).output_units ==> samples_fault(
            model.spec,
            x,
            y,
            limits,
        ) is Some,
{
    if samples_fault(model.spec, x, y, limits) is None {
        accepted_samples_fit(model.spec, x, y, limits);
    }
    if features_fault(model.spec, x, limits) is None {
        other_width_is_first(x, model.spec.features as int, 0);
    }
}

/// The full response tells of a model what it is, and of its layers what was
/// built: the name, the units, the inputs and the parameters of each, with the
/// activation it was specified with.
pub proof fn the_response_tells_the_model_as_it_is(
    model: StoredModelView,
    report: ModelReportView,
)
    requires
        model.wf(),
        report.layers.len() == model.spec.layers.len(),
    ensures
        ({
            let told = model_response(model, report);
            &&& told.id == model.id
            &&& told.name == model.name
            &&& told.features == model.spec.features
            &&& told.output_units == model.spec.layers[model.spec.layers.len() - 1].units
            &&& told.total_params == report.total_params
            &&& told.summary == report.summary
            &&& told.loss == model.spec.loss
            &&& told.optimizer == model.spec.optimizer
            &&& told.seed == model.spec.seed
            &&& told.batch_size == model.batch_size
            &&& told.trained_epochs == model.trained_epochs
            &&& told.last_loss == model.last_loss
            &&& told.created_at_ms == model.created_at_ms
            &&& told.updated_at_ms == model.updated_at_ms
            &&& told.layers.len() == model.spec.layers.len()
            &&& forall|i: int|
                0 <= i < model.spec.layers.len() ==> {
                    &&& (#[trigger] told.layers[i]).name == report.layers[i].name
                    &&& told.layers[i].units == report.layers[i].units
                    &&& told.layers[i].input_count == report.layers[i].input_count
                    &&& told.layers[i].params == report.layers[i].params
                    &&& told.layers[i].activation == model.spec.layers[i].activation
                }
        }),
{
}

/// The list and the full response agree on everything they both tell.
pub proof fn the_list_and_the_response_agree(model: StoredModelView, report: ModelReportView)
    requires
        report.describes(model.spec),
    ensures
        ({
            let entry = list_entry(model);
            let told = model_response(model, report);
            &&& entry.id == told.id
            &&& entry.name == told.name
            &&& entry.features == told.features
            &&& entry.output_units == told.output_units
            &&& entry.total_params == told.total_params
            &&& entry.loss == told.loss
            &&& entry.optimizer == told.optimizer
            &&& entry.seed == told.seed
            &&& entry.batch_size == told.batch_size
            &&& entry.trained_epochs == told.trained_epochs
            &&& entry.last_loss == told.last_loss
            &&& entry.created_at_ms == told.created_at_ms
            &&& entry.updated_at_ms == told.updated_at_ms
            &&& model.spec.layers.len() > 0 ==> {
                &&& told.layers[0].input_count == entry.features
                &&& told.layers.last().units == entry.output_units
            }
        }),
{
}

/// A report that is taken for one of a model is one: it names that model's
/// layers in order, with their units and parameters, takes as many inputs as the
/// layer before has units, and weighs one value per input and unit and one per
/// unit.
pub proof fn a_described_model_is_that_model(
    spec: ModelSpecView,
    report: ModelReportView,
    index: int,
)
    requires
        report.describes(spec),
        0 <= index < spec.layers.len(),
    ensures
        report.layers.len() == spec.layers.len(),
        report.weights.len() == spec.layers.len(),
        report.layers[index].name == spec.layers[index].name,
        report.layers[index].units == spec.layers[index].units,
        index == 0 ==> report.layers[index].input_count == spec.features,
        index > 0 ==> report.layers[index].input_count == report.layers[index - 1].units,
        report.layers[index].params == (report.layers[index].input_count + 1)
            * report.layers[index].units,
        report.weights[index].name == spec.layers[index].name,
        report.weights[index].weights.len() == report.layers[index].input_count,
        report.weights[index].bias.len() == report.layers[index].units,
        forall|row: int|
            0 <= row < report.weights[index].weights.len() ==> (
            #[trigger] report.weights[index].weights[row]).len() == report.layers[index].units,
{
    let inputs = report.layers[index].input_count;
    let units = report.layers[index].units;
    spec.layer_params_add_up(index);
    if index > 0 {
        assert(report.layers[index - 1].units == spec.layers[index - 1].units);
    }
    assert((inputs + 1) * units == inputs * units + units) by (nonlinear_arith);
}

/// The weights that are told are the weights the model has.
pub proof fn the_weights_of_a_model_are_told(model: StoredModelView)
    ensures
        weights_response(model).id == model.id,
        weights_response(model).layers == model.weights,
{
}

/// The list is in the order the models were made, the newest first, and of two
/// that were made in the same millisecond the one with the lower id; it has
/// every model of the store, once, as it is stored.
pub proof fn the_list_is_newest_first(
    models: Map<u128, StoredModelView>,
    list: Seq<StoredModelView>,
    one: int,
    other: int,
)
    requires
        listed(models, list),
        0 <= one < other < list.len(),
    ensures
        list[one].created_at_ms >= list[other].created_at_ms,
        list[one].created_at_ms == list[other].created_at_ms ==> list[one].id < list[other].id,
        list[one].id != list[other].id,
        list.len() == models.len(),
        models.contains_key(list[one].id) && models[list[one].id] == list[one],
        forall|id: u128| #[trigger]
            models.contains_key(id) ==> exists|i: int|
                0 <= i < list.len() && #[trigger] list[i] == models[id],
{
    assert(before(list[one], list[other]));
    assert forall|id: u128| #[trigger] models.contains_key(id) implies exists|i: int|
        0 <= i < list.len() && #[trigger] list[i] == models[id] by {
        assert(holds(list, id));
        let i = choose|i: int| 0 <= i < list.len() && (#[trigger] list[i]).id == id;
        assert(list[i] == models[list[i].id]);
    }
}

// --------------------------------------------------------- one after another

/// What is planned for a request to create a model is just what it asks for:
/// the layers with their units and activations, compiled with the loss where
/// there is one, seeded as the model is, and loaded with what was sent.
pub proof fn a_planned_model_is_the_one_asked_for(
    plan: CreatePlan,
    request: CreateModelRequest,
    limits: Limits,
    drawn: u64,
)
    requires
        planned(Ok(plan), request.parts(limits, drawn)),
    ensures
        request.parts(limits, drawn) is Ok,
        request.parts(limits, drawn)->Ok_0 == plan.new@,
        plan.build@.seed == plan.new@.spec.seed,
        builds_layers(plan.build@, plan.new@.spec),
        loads(plan.build@, plan.new@.weights),
        plan.build@.compile is Some <==> request.loss is Some,
        plan.build@.compile matches Some((loss, optimizer)) ==> request.loss == Some(loss)
            && plan.new@.spec.optimizer == Some(optimizer),
        forall|i: int|
            0 <= i < request.layers@.len() ==> {
                &&& (#[trigger] plan.build@.layers[i]).units == request.layers@[i].units
                &&& plan.build@.layers[i].activation == request.layers@[i].activation
            },
{
    a_new_model_is_built_as_asked_for(request, limits, drawn);
    a_model_is_created_as_asked_for(request, limits, drawn);
    assert forall|i: int| 0 <= i < request.layers@.len() implies {
        &&& (#[trigger] plan.build@.layers[i]).units == request.layers@[i].units
        &&& plan.build@.layers[i].activation == request.layers@[i].activation
    } by {
        assert(plan.new@.spec.layers[i].units == request.layers@[i].units);
    }
}

/// Every plan that fails fails as the request does.
pub proof fn a_model_that_is_refused_is_not_planned(
    error: ApiError,
    request: CreateModelRequest,
    limits: Limits,
    drawn: u64,
)
    requires
        planned(Err(error), request.parts(limits, drawn)),
    ensures
        request.parts(limits, drawn) == Err::<NewModelView, ErrorView>(error@),
{
}

/// A run is what the next prediction is made with: the weights it left, and the
/// ratios it scaled by.
pub proof fn predictions_use_what_a_run_left(
    model: StoredModelView,
    plan: TrainPlanView,
    weights: Seq<LayerWeightsView>,
    losses: Seq<Number>,
    ratios: Option<Seq<usize>>,
    now: u64,
    x: Seq<Seq<Number>>,
    limits: Limits,
)
    requires
        trained(model, plan, weights, losses, ratios, now).wf(),
        predict_plan(trained(model, plan, weights, losses, ratios, now), x, limits) is Ok,
    ensures
        ({
            let asked = predict_plan(
                trained(model, plan, weights, losses, ratios, now),
                x,
                limits,
            )->Ok_0;
            &&& builds_layers(asked.build, model.spec)
            &&& loads(asked.build, weights)
            &&& ratios matches Some(ratios) ==> {
                &&& asked.rescaling is Some
                &&& forall|j: int|
                    0 <= j < model.spec.features ==> #[trigger] asked.rescaling->0.features[j] == -(
                    ratios[j] as int)
                &&& asked.rescaling->0.target == ratios[model.spec.features as int]
            }
        }),
{
    a_prediction_asks_the_stored_model(
        trained(model, plan, weights, losses, ratios, now),
        x,
        limits,
    );
}

/// Weights that were put are what the next prediction is made with: every layer
/// they were sent for has what was sent, every other one what it had.
pub proof fn predictions_use_the_weights_that_were_put(
    model: StoredModelView,
    incoming: Seq<LayerWeightsView>,
    later: Seq<LayerWeightsView>,
    now: u64,
    x: Seq<Seq<Number>>,
    limits: Limits,
    layer: int,
)
    requires
        model.wf(),
        loaded(model.spec, model.weights, incoming, later),
        complete(model.spec, later),
        0 <= layer < model.spec.layers.len(),
        predict_plan(
            StoredModelView { weights: later, updated_at_ms: now, ..model },
            x,
            limits,
        ) is Ok,
    ensures
        ({
            let asked = predict_plan(
                StoredModelView { weights: later, updated_at_ms: now, ..model },
                x,
                limits,
            )->Ok_0;
            &&& asked.build.weights.len() == model.spec.layers.len()
            &&& forall|i: int|
                0 <= i < incoming.len() && (#[trigger] incoming[i]).name
                    == model.spec.layers[layer].name ==> carries(
                    asked.build.weights[layer],
                    incoming[i],
                )
            &&& (forall|i: int|
                0 <= i < incoming.len() ==> (#[trigger] incoming[i]).name
                    != model.spec.layers[layer].name) ==> carries(
                asked.build.weights[layer],
                model.weights[layer],
            )
        }),
{
    let after = StoredModelView { weights: later, updated_at_ms: now, ..model };
    a_prediction_asks_the_stored_model(after, x, limits);
    loading_changes_the_named_layers(model.spec, model.weights, incoming, later, layer);
    assert(carries(
        predict_plan(after, x, limits)->Ok_0.build.weights[layer],
        after.weights[layer],
    ));
}

/// The width of rows is that of the first, and nothing where there is none.
pub proof fn the_first_row_tells_the_width(rows: Seq<Seq<Number>>)
    ensures
        rows.len() > 0 ==> first_width(rows) == rows[0].len(),
        rows.len() == 0 ==> first_width(rows) == 0,
{
}

/// What is predicted is told as the engine returned it, with as many rows as it
/// has and as many columns as the first of them.
pub proof fn a_prediction_is_told_as_it_was_made(id: u128, predictions: Seq<Seq<Number>>)
    requires
        countable(predictions),
    ensures
        predict_response(id, predictions).id == id,
        predict_response(id, predictions).predictions == predictions,
        predict_response(id, predictions).rows == predictions.len(),
        predictions.len() > 0 ==> predict_response(id, predictions).columns == predictions[0].len(),
        predictions.len() == 0 ==> predict_response(id, predictions).columns == 0,
{
    if predictions.len() > 0 {
        assert(predictions[0].len() <= usize::MAX);
    }
}

/// What is told of an evaluation is what the engine measured, of the model that
/// was asked, on as many samples as were sent, and against the loss that the
/// engine was compiled with.
pub proof fn an_evaluation_is_told_as_it_was_made(
    model: StoredModelView,
    requested: Option<LossKind>,
    x: Seq<Seq<Number>>,
    y: Seq<Seq<Number>>,
    limits: Limits,
    measured: Number,
)
    requires
        model.wf(),
        evaluate_plan(model, requested, x, y, limits) is Ok,
    ensures
        ({
            let plan = evaluate_plan(model, requested, x, y, limits)->Ok_0;
            let told = evaluate_response(plan, measured);
            &&& told.loss == measured
            &&& told.id == model.id
            &&& told.samples == x.len()
            &&& plan.build.compile matches Some((loss, optimizer)) && told.loss_function == loss
            &&& requested matches Some(loss) ==> told.loss_function == loss
            &&& requested is None ==> model.spec.loss == Some(told.loss_function)
        }),
{
    an_evaluation_measures_what_it_reports(model, requested, x, y, limits);
}

/// What was scaled is told as the engine returned it: x and y each as rows, in
/// order, and the powers of ten as they are.
pub proof fn a_scaling_is_told_as_it_was_made(
    x: MatrixView,
    y: MatrixView,
    ratios: Seq<usize>,
    row: int,
)
    requires
        x.wf() && y.wf(),
        x.col_count > 0 && y.col_count > 0,
        0 <= row < x.row_count,
        0 <= row < y.row_count,
    ensures
        ({
            let told = scaled_response(x, y, ratios);
            &&& told.ten_power_ratios == ratios
            &&& told.x.len() == x.row_count
            &&& told.y.len() == y.row_count
            &&& told.x[row].len() == x.col_count
            &&& told.y[row].len() == y.col_count
            &&& forall|j: int|
                0 <= j < x.col_count ==> #[trigger] told.x[row][j] == x.values[row * x.col_count
                    + j]
            &&& forall|j: int|
                0 <= j < y.col_count ==> #[trigger] told.y[row][j] == y.values[row * y.col_count
                    + j]
        }),
{
    rows_are_cut_in_order(x, row);
    rows_are_cut_in_order(y, row);
}

/// Every entry of the list is about the model that is stored under its id.
pub proof fn each_entry_is_about_a_stored_model(
    models: Map<u128, StoredModelView>,
    list: Seq<StoredModelView>,
    index: int,
)
    requires
        listed(models, list),
        forall|id: u128| #[trigger]
            models.contains_key(id) ==> models[id].wf() && models[id].id == id,
        0 <= index < list.len(),
    ensures
        ({
            let entry = list.map_values(|model: StoredModelView| list_entry(model))[index];
            let model = models[entry.id];
            &&& models.contains_key(entry.id)
            &&& entry.name == model.name
            &&& entry.features == model.spec.features
            &&& entry.output_units == model.spec.layers[model.spec.layers.len() - 1].units
            &&& entry.total_params == model.spec.params()
            &&& entry.loss == model.spec.loss
            &&& entry.optimizer == model.spec.optimizer
            &&& entry.seed == model.spec.seed
            &&& entry.batch_size == model.batch_size
            &&& entry.trained_epochs == model.trained_epochs
            &&& entry.last_loss == model.last_loss
            &&& entry.created_at_ms == model.created_at_ms
            &&& entry.updated_at_ms == model.updated_at_ms
        }),
{
    assert(models.contains_key(list[index].id));
    the_list_tells_each_model_as_it_is(list[index]);
}

} // verus!
