//! What is said of a value is said of what it holds: each of the values that
//! the other modules speak of has, field by field and in order, what stands in
//! the structure it is taken from.

use vstd::prelude::*;

use crate::config::{Config, Location};
use crate::dataset::{path_view, DataSource, DataSourceView, RequestedPath};
use crate::dto::{
    LayerResponse, ModelListEntry, ModelResponse, PredictResponse, ScaleResponse, TrainResponse,
    WeightsResponse,
};
use crate::engine::{
    matrices_view, reports_view, BuildPlan, LayerMatrices, LayerReport, Matrix, ModelReport,
    Rescaling,
};
use crate::model::{
    layers_view, ratios_view, weights_view, LayerSpec, LayerWeights, ModelSpec, NewModel,
    StoredModel,
};
use crate::number::Number;
use crate::routes::{EvaluatePlan, PredictPlan, ScalePlan, TrainPlan};
use crate::store::models_view;
use crate::text::texts_view;

verus! {

// --------------------------------------------------------------------- models

/// A layer: its name, its units and its activation.
pub proof fn a_layer_is_seen(layer: LayerSpec)
    ensures
        layer@.name == layer.name@,
        layer@.units == layer.units,
        layer@.activation == layer.activation,
{
}

/// A spec: its features, its layers in order, how it is compiled, and its seed.
pub proof fn a_spec_is_seen(spec: ModelSpec)
    ensures
        spec@.features == spec.features,
        spec@.loss == spec.loss,
        spec@.optimizer == spec.optimizer,
        spec@.seed == spec.seed,
        spec@.layers.len() == spec.layers@.len(),
        forall|i: int| 0 <= i < spec.layers@.len() ==> #[trigger] spec@.layers[i] == spec.layers@[i]@,
{
}

/// One layer's weights: its name, the rows of W in order, and b.
pub proof fn weights_are_seen(layer: LayerWeights)
    ensures
        layer@.name == layer.name@,
        layer@.bias == layer.bias@,
        layer@.weights.len() == layer.weights@.len(),
        forall|i: int| 0 <= i < layer.weights@.len() ==> #[trigger] layer@.weights[i] == layer.weights@[i]@,
{
}

/// A stored model: all that is kept of it.
pub proof fn a_stored_model_is_seen(model: StoredModel)
    ensures
        model@.id == model.id,
        model@.batch_size == model.batch_size,
        model@.created_at_ms == model.created_at_ms,
        model@.updated_at_ms == model.updated_at_ms,
        model@.trained_epochs == model.trained_epochs,
        model@.last_loss == model.last_loss,
        model@.name == model.name@,
        model@.spec == model.spec@,
        model@.weights.len() == model.weights@.len(),
        forall|i: int| 0 <= i < model.weights@.len() ==> #[trigger] model@.weights[i] == model.weights@[i]@,
        model.ten_power_ratios is None ==> model@.ten_power_ratios is None,
        model.ten_power_ratios matches Some(ratios) ==> model@.ten_power_ratios == Some(ratios@),
{
}

/// A new model: its name, its spec, its weights in order, and its batch size.
pub proof fn a_new_model_is_seen(new: NewModel)
    ensures
        new@.batch_size == new.batch_size,
        new@.name == new.name@,
        new@.spec == new.spec@,
        new@.weights.len() == new.weights@.len(),
        forall|i: int| 0 <= i < new.weights@.len() ==> #[trigger] new@.weights[i] == new.weights@[i]@,
{
}

/// Sequences of layers, weights, models and texts: each element in its place.
pub proof fn sequences_are_seen_in_order(layers: Seq<LayerSpec>, weights: Seq<LayerWeights>, models: Seq<StoredModel>, texts: Seq<String>)
    ensures
        layers_view(layers).len() == layers.len(),
        forall|i: int| 0 <= i < layers.len() ==> #[trigger] layers_view(layers)[i] == layers[i]@,
        weights_view(weights).len() == weights.len(),
        forall|i: int| 0 <= i < weights.len() ==> #[trigger] weights_view(weights)[i] == weights[i]@,
        models_view(models).len() == models.len(),
        forall|i: int| 0 <= i < models.len() ==> #[trigger] models_view(models)[i] == models[i]@,
        texts_view(texts).len() == texts.len(),
        forall|i: int| 0 <= i < texts.len() ==> #[trigger] texts_view(texts)[i] == texts[i]@,
{
}

/// Ratios, where there are any.
pub proof fn ratios_are_seen(ratios: Option<Vec<usize>>)
    ensures
        ratios is None <==> ratios_view(ratios) is None,
        ratios matches Some(kept) ==> ratios_view(ratios) == Some(kept@),
{
}

// ----------------------------------------------------------------- the engine

/// A matrix: its shape and its buffer.
pub proof fn a_matrix_is_seen(matrix: Matrix)
    ensures
        matrix@.row_count == matrix.row_count,
        matrix@.col_count == matrix.col_count,
        matrix@.values == matrix.values@,
{
}

/// One layer's matrices: its name, W and b.
pub proof fn matrices_are_seen(layer: LayerMatrices)
    ensures
        layer@.name == layer.name@,
        layer@.weights == layer.weights@,
        layer@.bias == layer.bias@,
{
}

/// What is to be built: the seed, the features, the layers, how it is compiled, and the weights.
pub proof fn a_build_plan_is_seen(plan: BuildPlan)
    ensures
        plan@.seed == plan.seed,
        plan@.features == plan.features,
        plan@.compile == plan.compile,
        plan@.layers.len() == plan.layers@.len(),
        forall|i: int| 0 <= i < plan.layers@.len() ==> #[trigger] plan@.layers[i] == plan.layers@[i]@,
        plan@.weights.len() == plan.weights@.len(),
        forall|i: int| 0 <= i < plan.weights@.len() ==> #[trigger] plan@.weights[i] == plan.weights@[i]@,
{
}

/// What is reported of a layer.
pub proof fn a_layer_report_is_seen(layer: LayerReport)
    ensures
        layer@.name == layer.name@,
        layer@.units == layer.units,
        layer@.input_count == layer.input_count,
        layer@.params == layer.params,
{
}

/// What is reported of a model.
pub proof fn a_report_is_seen(report: ModelReport)
    ensures
        report@.summary == report.summary@,
        report@.total_params == report.total_params,
        report@.weights.len() == report.weights@.len(),
        forall|i: int| 0 <= i < report.weights@.len() ==> #[trigger] report@.weights[i] == report.weights@[i]@,
        report@.layers.len() == report.layers@.len(),
        forall|i: int| 0 <= i < report.layers@.len() ==> #[trigger] report@.layers[i] == report.layers@[i]@,
{
}

/// Sequences of matrices and of reports: each element in its place.
pub proof fn reports_are_seen_in_order(matrices: Seq<LayerMatrices>, reports: Seq<LayerReport>)
    ensures
        matrices_view(matrices).len() == matrices.len(),
        forall|i: int| 0 <= i < matrices.len() ==> #[trigger] matrices_view(matrices)[i] == matrices[i]@,
        reports_view(reports).len() == reports.len(),
        forall|i: int| 0 <= i < reports.len() ==> #[trigger] reports_view(reports)[i] == reports[i]@,
{
}

/// What a prediction is rescaled by.
pub proof fn a_rescaling_is_seen(rescaling: Rescaling)
    ensures
        rescaling@.features == rescaling.features@,
        rescaling@.target == rescaling.target,
{
}

// ------------------------------------------------------------------ the plans

/// A training run.
pub proof fn a_run_is_seen(plan: TrainPlan)
    ensures
        plan@.id == plan.id,
        plan@.options == plan.options,
        plan@.samples == plan.samples,
        plan@.loss == plan.loss,
        plan@.optimizer == plan.optimizer,
        plan@.return_history == plan.return_history,
        plan@.build == plan.build@,
        plan@.x == plan.x@,
        plan@.y == plan.y@,
{
}

/// A prediction.
pub proof fn a_prediction_is_seen(plan: PredictPlan)
    ensures
        plan@.id == plan.id,
        plan@.build == plan.build@,
        plan@.x == plan.x@,
        plan.rescaling is None <==> plan@.rescaling is None,
        plan.rescaling matches Some(rescaling) ==> plan@.rescaling == Some(rescaling@),
{
}

/// An evaluation.
pub proof fn an_evaluation_is_seen(plan: EvaluatePlan)
    ensures
        plan@.id == plan.id,
        plan@.samples == plan.samples,
        plan@.loss == plan.loss,
        plan@.build == plan.build@,
        plan@.x == plan.x@,
        plan@.y == plan.y@,
{
}

/// A scaling.
pub proof fn a_scaling_is_seen(plan: ScalePlan)
    ensures
        plan@.x == plan.x@,
        plan@.y == plan.y@,
{
}

// -------------------------------------------------------------------- answers

/// What is told of a layer.
pub proof fn a_layer_response_is_seen(layer: LayerResponse)
    ensures
        layer@.name == layer.name@,
        layer@.units == layer.units,
        layer@.activation == layer.activation,
        layer@.input_count == layer.input_count,
        layer@.params == layer.params,
{
}

/// What is told of a model.
pub proof fn a_model_response_is_seen(told: ModelResponse)
    ensures
        told@.id == told.id,
        told@.features == told.features,
        told@.output_units == told.output_units,
        told@.total_params == told.total_params,
        told@.loss == told.loss,
        told@.optimizer == told.optimizer,
        told@.seed == told.seed,
        told@.batch_size == told.batch_size,
        told@.trained_epochs == told.trained_epochs,
        told@.last_loss == told.last_loss,
        told@.created_at_ms == told.created_at_ms,
        told@.updated_at_ms == told.updated_at_ms,
        told@.name == told.name@,
        told@.summary == told.summary@,
        told@.layers.len() == told.layers@.len(),
        forall|i: int| 0 <= i < told.layers@.len() ==> #[trigger] told@.layers[i] == told.layers@[i]@,
{
}

/// What the list tells of a model.
pub proof fn a_list_entry_is_seen(told: ModelListEntry)
    ensures
        told@.id == told.id,
        told@.features == told.features,
        told@.output_units == told.output_units,
        told@.total_params == told.total_params,
        told@.loss == told.loss,
        told@.optimizer == told.optimizer,
        told@.seed == told.seed,
        told@.batch_size == told.batch_size,
        told@.trained_epochs == told.trained_epochs,
        told@.last_loss == told.last_loss,
        told@.created_at_ms == told.created_at_ms,
        told@.updated_at_ms == told.updated_at_ms,
        told@.name == told.name@,
{
}

/// What is told of a run.
pub proof fn a_train_response_is_seen(told: TrainResponse)
    ensures
        told@.id == told.id,
        told@.epochs == told.epochs,
        told@.batch_size == told.batch_size,
        told@.samples == told.samples,
        told@.loss_function == told.loss_function,
        told@.optimizer == told.optimizer,
        told@.initial_loss == told.initial_loss,
        told@.final_loss == told.final_loss,
        told@.trained_epochs == told.trained_epochs,
        told@.duration_ms == told.duration_ms,
        told.loss is None <==> told@.loss is None,
        told.loss matches Some(losses) ==> told@.loss == Some(losses@),
        told.ten_power_ratios is None <==> told@.ten_power_ratios is None,
        told.ten_power_ratios matches Some(ratios) ==> told@.ten_power_ratios == Some(ratios@),
{
}

/// What is predicted.
pub proof fn a_predict_response_is_seen(told: PredictResponse)
    ensures
        told@.id == told.id,
        told@.rows == told.rows,
        told@.columns == told.columns,
        told@.predictions.len() == told.predictions@.len(),
        forall|i: int| 0 <= i < told.predictions@.len() ==> #[trigger] told@.predictions[i] == told.predictions@[i]@,
{
}

/// The weights that are told.
pub proof fn a_weights_response_is_seen(told: WeightsResponse)
    ensures
        told@.id == told.id,
        told@.layers.len() == told.layers@.len(),
        forall|i: int| 0 <= i < told.layers@.len() ==> #[trigger] told@.layers[i] == told.layers@[i]@,
{
}

/// What was scaled.
pub proof fn a_scale_response_is_seen(told: ScaleResponse)
    ensures
        told@.ten_power_ratios == told.ten_power_ratios@,
        told@.x.len() == told.x@.len(),
        forall|i: int| 0 <= i < told.x@.len() ==> #[trigger] told@.x[i] == told.x@[i]@,
        told@.y.len() == told.y@.len(),
        forall|i: int| 0 <= i < told.y@.len() ==> #[trigger] told@.y[i] == told.y@[i]@,
{
}

// --------------------------------------------------------- settings and files

/// A place on the disk, component by component.
pub proof fn a_location_is_seen(place: Location)
    ensures
        place@.len() == place.parts@.len(),
        forall|i: int| 0 <= i < place.parts@.len() ==> #[trigger] place@[i] == place.parts@[i]@,
{
}

/// The settings of a server.
pub proof fn a_config_is_seen(config: Config)
    ensures
        config@.addr == config.addr,
        config@.body_limit_bytes == config.body_limit_bytes,
        config@.permissive_cors == config.permissive_cors,
        config@.max_file_bytes == config.max_file_bytes,
        config@.limits == config.limits,
        config.data_dir is None <==> config@.data_dir is None,
        config.data_dir matches Some(place) ==> config@.data_dir == Some(place@),
{
}

/// A path as it was sent and read, where there is one.
pub proof fn a_path_is_seen(path: RequestedPath)
    ensures
        path@.text == path.text@,
        path@.parts == path.parts@,
        path@.absolute == path.absolute,
        path_view(Some(path)) == Some(path@),
        path_view(None) is None,
{
}

/// Where a matrix comes from.
pub proof fn a_source_is_seen(rows: Vec<Vec<Number>>, path: RequestedPath)
    ensures
        DataSource::File(path)@ == DataSourceView::File(path@),
        DataSource::Inline(rows)@ matches DataSourceView::Inline(taken) && taken.len() == rows@.len() && forall|i: int| 0 <= i < rows@.len() ==> #[trigger] taken[i] == rows@[i]@,
{
}

} // verus!
