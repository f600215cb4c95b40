//! The service driven end to end, request by request, with the real engine
//! behind it.

use neuralflow::prelude::{
    Activation, Adam, BinaryCrossentropy, Dense, Input, Loss, MeanSquaredError, Sequential,
    set_random_seed, SGD,
};
use rust_nn_api::config::{Config, Limits};
use rust_nn_api::dto::{
    CreateModelRequest, EvaluateResponse, KeyFault, LayerRequest, LearningRate, ModelResponse,
    OptimizerField, OptimizerFields, OptimizerRequest, PredictResponse, ScaleRequest,
    ScaleResponse, SetWeightsRequest, TrainRequest, TrainResponse, WeightsResponse,
};
use rust_nn_api::engine::{
    describe, weights_of, BuildPlan, BuiltLayer, BuiltModel, FitOptions, LayerMatrices, Matrix,
    TrainOutcome,
};
use rust_nn_api::error::ApiError;
use rust_nn_api::model::{
    ActivationKind, LayerWeights, LossKind, OptimizerConfig, OptimizerKind,
};
use rust_nn_api::number::Number;
use rust_nn_api::routes;
use rust_nn_api::store::{now_ms, AppState};

// ------------------------------------------------------------------- numbers

fn number(value: f64) -> Number {
    Number { bits: value.to_bits() }
}

fn value(number: Number) -> f64 {
    f64::from_bits(number.bits)
}

fn rows(values: &[&[f64]]) -> Vec<Vec<Number>> {
    values.iter().map(|row| row.iter().map(|value| number(*value)).collect()).collect()
}

fn values(rows: &[Vec<Number>]) -> Vec<Vec<f64>> {
    rows.iter().map(|row| row.iter().map(|number| value(*number)).collect()).collect()
}

// -------------------------------------------------------------------- engine

fn to_engine(matrix: &Matrix) -> neuralflow::Matrix {
    let flat: Vec<f64> = matrix.values.iter().map(|number| value(*number)).collect();
    neuralflow::Matrix::from_vec(matrix.row_count, matrix.col_count, flat).unwrap()
}

fn from_engine(matrix: &neuralflow::Matrix) -> Matrix {
    Matrix {
        row_count: matrix.row_count(),
        col_count: matrix.col_count(),
        values: matrix.as_slice().iter().map(|value| number(*value)).collect(),
    }
}

fn compile(model: &mut Sequential, loss: impl Loss + 'static, optimizer: OptimizerConfig) {
    let rate = value(optimizer.learning_rate);
    match optimizer.kind {
        OptimizerKind::Sgd => model.compile(loss, SGD::new(rate)),
        OptimizerKind::Adam => model.compile(loss, Adam::new(rate)),
    }
}

fn build(plan: &BuildPlan) -> Sequential {
    set_random_seed(plan.seed);
    let layers = plan
        .layers
        .iter()
        .map(|layer| {
            let activation = match layer.activation {
                ActivationKind::Relu => Activation::ReLU,
                ActivationKind::Sigmoid => Activation::Sigmoid,
                ActivationKind::Linear => Activation::Linear,
            };
            Dense::new(layer.units, activation).name(&layer.name)
        })
        .collect();
    let mut model = Sequential::new(Input::new(plan.features), layers);
    match plan.compile {
        Some((LossKind::BinaryCrossentropy, optimizer)) => {
            compile(&mut model, BinaryCrossentropy, optimizer)
        }
        Some((LossKind::MeanSquaredError, optimizer)) => {
            compile(&mut model, MeanSquaredError, optimizer)
        }
        None => {}
    }
    for layer in &plan.weights {
        model
            .get_layer_mut(&layer.name)
            .set_weights(to_engine(&layer.weights), to_engine(&layer.bias));
    }
    model
}

fn matrices(layer: &neuralflow::prelude::Layer) -> LayerMatrices {
    let (weights, bias) = layer.get_weights();
    LayerMatrices {
        name: layer.get_name().to_string(),
        weights: from_engine(weights),
        bias: from_engine(bias),
    }
}

fn read_back(model: &Sequential) -> BuiltModel {
    BuiltModel {
        layers: model
            .get_layers()
            .iter()
            .map(|layer| BuiltLayer {
                matrices: matrices(layer),
                units: layer.get_units(),
                params: layer.count_params(),
            })
            .collect(),
        summary: model.to_string(),
        total_params: model.count_params(),
    }
}

fn fit(plan: &BuildPlan, x: &neuralflow::Matrix, y: &neuralflow::Matrix, options: FitOptions) -> TrainOutcome {
    let mut model = build(plan);
    let history = model.fit(
        x,
        y,
        neuralflow::prelude::FitOptions {
            epochs: options.epochs,
            batch_size: options.batch_size,
            shuffle: options.shuffle,
            verbose: options.verbose,
        },
    );
    let layers: Vec<LayerMatrices> = model.get_layers().iter().map(matrices).collect();
    TrainOutcome {
        loss_history: history.loss.iter().map(|loss| number(*loss)).collect(),
        weights: weights_of(&layers),
    }
}

// -------------------------------------------------------------------- server

/// The service as a client sees it, without a socket.
struct Server {
    state: AppState,
}

impl Server {
    fn new() -> Server {
        Server { state: AppState::new(Config::default()) }
    }

    fn limits(&self) -> Limits {
        self.state.config().limits
    }

    fn create(&mut self, request: CreateModelRequest) -> Result<ModelResponse, ApiError> {
        let plan = routes::plan_model(request, &self.limits())?;
        let report = describe(read_back(&build(&plan.build)));
        assert!(report.describes(&plan.new.spec));
        routes::create_model(&mut self.state, plan.new, report)
    }

    fn get(&self, id: &str) -> Result<ModelResponse, ApiError> {
        let (model, plan) = routes::get_model(&self.state, id)?;
        Ok(ModelResponse::new(&model, describe(read_back(&build(&plan)))))
    }

    fn run(&mut self, id: &str, request: TrainRequest, scaled: bool) -> Result<TrainResponse, ApiError> {
        let limits = self.limits();
        let model = routes::find_model(&self.state, id)?.clone();
        routes::check_epochs(request.epochs, &limits)?;
        let x = request.x.clone().unwrap();
        let y = request.y.clone().unwrap();
        let plan = routes::plan_training(&model, request, scaled, &x, &y, &limits)?;
        let (run, ratios) = if scaled {
            let (x, y, ratios) = neuralflow::column_based_scaling::manipulate_datas_between_0_and_10(
                to_engine(&plan.x),
                to_engine(&plan.y),
            );
            (fit(&plan.build, &x, &y, plan.options), Some(ratios))
        } else {
            (fit(&plan.build, &to_engine(&plan.x), &to_engine(&plan.y), plan.options), None)
        };
        assert!(routes::does_run_fit(&model, &plan, &run, &ratios));
        routes::train(&mut self.state, &mut None, plan, run, ratios, now_ms(), 0)
    }

    fn train(&mut self, id: &str, request: TrainRequest) -> Result<TrainResponse, ApiError> {
        self.run(id, request, false)
    }

    fn train_with_column_scale(&mut self, id: &str, request: TrainRequest) -> Result<TrainResponse, ApiError> {
        self.run(id, request, true)
    }

    fn predict(&self, id: &str, x: Vec<Vec<Number>>) -> Result<PredictResponse, ApiError> {
        let model = routes::find_model(&self.state, id)?;
        let plan = routes::predict(model, &x, &self.limits())?;
        let mut asked = values(&rust_nn_api::engine::rows_of(&plan.x));
        if let Some(rescaling) = &plan.rescaling {
            for row in &mut asked {
                for (value, exponent) in row.iter_mut().zip(&rescaling.features) {
                    *value *= 10.0_f64.powi(*exponent);
                }
            }
        }
        let flat: Vec<f64> = asked.into_iter().flatten().collect();
        let x = neuralflow::Matrix::from_vec(plan.x.row_count, plan.x.col_count, flat).unwrap();
        let mut answered = from_engine(&build(&plan.build).predict(&x));
        if let Some(rescaling) = &plan.rescaling {
            for entry in &mut answered.values {
                *entry = number(value(*entry) * 10.0_f64.powi(rescaling.target));
            }
        }
        Ok(routes::prediction_response(plan.id, rust_nn_api::engine::rows_of(&answered)))
    }

    fn evaluate(
        &self,
        id: &str,
        x: Vec<Vec<Number>>,
        y: Vec<Vec<Number>>,
        loss: Option<LossKind>,
    ) -> Result<EvaluateResponse, ApiError> {
        let model = routes::find_model(&self.state, id)?;
        let plan = routes::evaluate(model, loss, &x, &y, &self.limits())?;
        let measured = build(&plan.build).evaluate(&to_engine(&plan.x), &to_engine(&plan.y));
        Ok(routes::evaluation_response(&plan, number(measured)))
    }

    fn weights(&self, id: &str) -> WeightsResponse {
        routes::get_weights(&self.state, id).unwrap()
    }

    fn put_weights(&mut self, id: &str, layers: Vec<LayerWeights>) -> Result<WeightsResponse, ApiError> {
        routes::set_weights(&mut self.state, id, SetWeightsRequest { layers }, now_ms())
    }

    fn scale(&self, x: Vec<Vec<Number>>, y: Vec<Vec<Number>>) -> Result<ScaleResponse, ApiError> {
        let plan = routes::scale(&ScaleRequest { x, y }, &self.limits())?;
        let (x, y, ratios) = neuralflow::column_based_scaling::manipulate_datas_between_0_and_10(
            to_engine(&plan.x),
            to_engine(&plan.y),
        );
        Ok(routes::scale_response(&from_engine(&x), &from_engine(&y), ratios))
    }
}

// ------------------------------------------------------------------ requests

fn layer(units: usize, activation: ActivationKind, name: Option<&str>) -> LayerRequest {
    LayerRequest { units, activation, name: name.map(String::from) }
}

fn model(features: usize, layers: Vec<LayerRequest>) -> CreateModelRequest {
    CreateModelRequest {
        name: None,
        features,
        layers,
        loss: None,
        optimizer: None,
        seed: None,
        batch_size: None,
        weights: None,
    }
}

fn rate(rate: f64) -> Option<LearningRate> {
    Some(LearningRate { rate: number(rate), shown: rate.to_string() })
}

/// The XOR model from the engine's own example.
fn xor_model() -> CreateModelRequest {
    CreateModelRequest {
        name: Some(String::from("xor")),
        seed: Some(1234),
        loss: Some(LossKind::BinaryCrossentropy),
        optimizer: Some(OptimizerRequest::Config { kind: OptimizerKind::Adam, learning_rate: rate(0.05) }),
        ..model(
            2,
            vec![
                layer(8, ActivationKind::Relu, Some("layer1")),
                layer(1, ActivationKind::Sigmoid, Some("layer2")),
            ],
        )
    }
}

fn xor_samples() -> (Vec<Vec<Number>>, Vec<Vec<Number>>) {
    (
        rows(&[&[0., 0.], &[0., 1.], &[1., 0.], &[1., 1.]]),
        rows(&[&[0.], &[1.], &[1.], &[0.]]),
    )
}

fn run(x: &[Vec<Number>], y: &[Vec<Number>]) -> TrainRequest {
    TrainRequest {
        x: Some(x.to_vec()),
        x_path: None,
        y: Some(y.to_vec()),
        y_path: None,
        epochs: rust_nn_api::dto::default_epochs(),
        batch_size: None,
        shuffle: rust_nn_api::dto::default_true(),
        loss: None,
        optimizer: None,
        seed: None,
        return_history: rust_nn_api::dto::default_true(),
    }
}

fn id_of(model: &ModelResponse) -> String {
    let hex = format!("{:032x}", model.id);
    format!("{}-{}-{}-{}-{}", &hex[0..8], &hex[8..12], &hex[12..16], &hex[16..20], &hex[20..32])
}

fn comparable(layers: &[LayerWeights]) -> Vec<(String, Vec<Vec<Number>>, Vec<Number>)> {
    layers
        .iter()
        .map(|layer| (layer.name.clone(), layer.weights.clone(), layer.bias.clone()))
        .collect()
}

// --------------------------------------------------------------------- tests

#[test]
fn health_reports_the_service() {
    let mut server = Server::new();
    let response = routes::health(&server.state);

    assert_eq!(response.status, "ok");
    assert_eq!(response.service, "rust_nn_api");
    assert_eq!(response.version, "0.1.0");
    assert_eq!(response.models, 0);

    server.create(xor_model()).unwrap();
    assert_eq!(routes::health(&server.state).models, 1);
}

#[test]
fn creating_a_model_reports_its_shape() {
    let model = Server::new().create(xor_model()).unwrap();

    assert_eq!(model.features, 2);
    assert_eq!(model.output_units, 1);
    // (2 * 8 + 8) + (8 * 1 + 1)
    assert_eq!(model.total_params, 33);
    assert_eq!(model.layers[0].name, "layer1");
    assert_eq!(model.layers[0].input_count, 2);
    assert_eq!(model.layers[0].params, 24);
    assert_eq!(model.layers[1].activation, ActivationKind::Sigmoid);
    let optimizer = model.optimizer.unwrap();
    assert_eq!(optimizer.kind, OptimizerKind::Adam);
    assert_eq!(value(optimizer.learning_rate), 0.05);
    assert_eq!(model.trained_epochs, 0);
    assert!(model.summary.contains("Total params: 33"), "{}", model.summary);
}

#[test]
fn layers_are_named_the_way_keras_names_them() {
    let model = Server::new()
        .create(model(
            3,
            vec![layer(4, ActivationKind::Relu, None), layer(2, ActivationKind::Linear, None)],
        ))
        .unwrap();

    assert_eq!(model.layers[0].name, "dense");
    assert_eq!(model.layers[1].name, "dense_1");
    // No loss was given, so the model is not compiled yet.
    assert_eq!(model.loss, None);
    assert_eq!(model.optimizer, None);
}

#[test]
fn xor_trains_and_then_predicts_it() {
    let mut server = Server::new();
    let id = id_of(&server.create(xor_model()).unwrap());
    let (x, y) = xor_samples();

    let training = server.train(&id, TrainRequest { epochs: 500, ..run(&x, &y) }).unwrap();

    assert_eq!(training.epochs, 500);
    assert_eq!(training.samples, 4);
    assert_eq!(training.loss.as_ref().unwrap().len(), 500);
    let initial = value(training.initial_loss);
    let final_loss = value(training.final_loss);
    assert!(final_loss < initial, "the loss did not fall: {initial} -> {final_loss}");
    assert!(final_loss < 0.1, "XOR did not converge, final loss {final_loss}");

    let prediction = server.predict(&id, x).unwrap();
    assert_eq!(prediction.rows, 4);
    assert_eq!(prediction.columns, 1);
    let predictions: Vec<f64> = prediction.predictions.iter().map(|row| value(row[0])).collect();
    for (sample, expected) in predictions.iter().zip([0., 1., 1., 0.]) {
        assert!((sample - expected).abs() < 0.5, "XOR predicted {predictions:?}");
    }

    // Training is cumulative, and the model remembers where it got to.
    let model = server.get(&id).unwrap();
    assert_eq!(model.trained_epochs, 500);
    assert!((value(model.last_loss.unwrap()) - final_loss).abs() < 1e-12);
}

#[test]
fn a_model_without_a_seed_is_given_one() {
    let mut server = Server::new();
    let architecture = || {
        vec![
            layer(8, ActivationKind::Relu, Some("layer1")),
            layer(1, ActivationKind::Sigmoid, Some("layer2")),
        ]
    };

    let omitted = server.create(model(2, architecture())).unwrap();
    let other = server.create(model(2, architecture())).unwrap();
    assert_ne!(omitted.seed, other.seed, "two models were given the same seed");

    // And the seed reported back is the one that was used: a model built with
    // it has the very same weights.
    let rebuilt = server
        .create(CreateModelRequest { seed: Some(omitted.seed), ..model(2, architecture()) })
        .unwrap();
    assert_eq!(
        comparable(&server.weights(&id_of(&rebuilt)).layers),
        comparable(&server.weights(&id_of(&omitted)).layers),
        "the seed in the response did not rebuild the model"
    );
}

#[test]
fn a_model_remembers_its_batch_size() {
    let mut server = Server::new();
    let (x, y) = xor_samples();
    let with_default = |batch_size: Option<usize>| CreateModelRequest {
        seed: Some(1234),
        loss: Some(LossKind::BinaryCrossentropy),
        batch_size,
        ..model(
            2,
            vec![layer(8, ActivationKind::Relu, None), layer(1, ActivationKind::Sigmoid, None)],
        )
    };

    // Left out, it is Keras' 32.
    assert_eq!(server.create(with_default(None)).unwrap().batch_size, 32);
    assert_eq!(server.create(with_default(Some(32))).unwrap().batch_size, 32);

    // Set here, a train request that sends none gets it.
    let model = server.create(with_default(Some(2))).unwrap();
    let id = id_of(&model);
    assert_eq!(model.batch_size, 2);
    let training = server.train(&id, run(&x, &y)).unwrap();
    assert_eq!(training.batch_size, 2, "the model's own batch size was not used");

    // A train request may still override it, for that run only.
    let training = server.train(&id, TrainRequest { batch_size: Some(4), ..run(&x, &y) }).unwrap();
    assert_eq!(training.batch_size, 4);
    assert_eq!(server.get(&id).unwrap().batch_size, 2, "a run must not change the model's default");
}

#[test]
fn training_is_reproducible_from_the_seed() {
    let mut server = Server::new();
    let (x, y) = xor_samples();
    let mut finals = Vec::new();

    for _ in 0..2 {
        let id = id_of(&server.create(xor_model()).unwrap());
        let training = server
            .train(&id, TrainRequest { epochs: 50, return_history: false, ..run(&x, &y) })
            .unwrap();
        assert!(training.loss.is_none());
        finals.push(value(training.final_loss));
    }

    assert_eq!(finals[0], finals[1], "the same seed gave two different runs");
    assert!(finals[0].is_finite());
}

#[test]
fn a_seed_sent_with_a_run_is_used_once() {
    let mut server = Server::new();
    let (x, y) = xor_samples();
    let id = id_of(&server.create(xor_model()).unwrap());
    let other = id_of(&server.create(xor_model()).unwrap());

    let reseeded = TrainRequest { seed: Some(99), epochs: 20, batch_size: Some(1), ..run(&x, &y) };
    let plain = TrainRequest { epochs: 20, batch_size: Some(1), ..run(&x, &y) };
    let one = value(server.train(&id, reseeded).unwrap().final_loss);
    let two = value(server.train(&other, plain).unwrap().final_loss);

    assert_ne!(one, two, "the seed of the request did not reach the run");
    assert_eq!(server.get(&id).unwrap().seed, 1234, "a run must not change the model's seed");
}

#[test]
fn evaluate_measures_without_training() {
    let mut server = Server::new();
    let id = id_of(&server.create(xor_model()).unwrap());
    let (x, y) = xor_samples();

    let evaluation = server.evaluate(&id, x.clone(), y.clone(), None).unwrap();
    assert_eq!(evaluation.samples, 4);
    assert_eq!(evaluation.loss_function, LossKind::BinaryCrossentropy);
    assert!(value(evaluation.loss) > 0.);
    assert_eq!(server.get(&id).unwrap().trained_epochs, 0, "evaluate must not train");

    // Measuring against another loss does not recompile the model.
    let other = server.evaluate(&id, x, y, Some(LossKind::MeanSquaredError)).unwrap();
    assert_eq!(other.loss_function, LossKind::MeanSquaredError);
    assert_ne!(value(other.loss), value(evaluation.loss));
    assert_eq!(server.get(&id).unwrap().loss, Some(LossKind::BinaryCrossentropy));
}

#[test]
fn weights_survive_a_round_trip() {
    let mut server = Server::new();
    let id = id_of(&server.create(xor_model()).unwrap());

    let weights = server.weights(&id);
    assert_eq!(weights.layers.len(), 2);
    assert_eq!(weights.layers[0].weights.len(), 2, "W1 has one row per feature");
    assert_eq!(weights.layers[0].bias.len(), 8);

    // Known weights in, the same weights out.
    let layer2 = LayerWeights {
        name: String::from("layer2"),
        weights: rows(&[&[1.], &[0.], &[0.], &[0.], &[0.], &[0.], &[0.], &[0.]]),
        bias: vec![number(0.5)],
    };
    let updated = server.put_weights(&id, vec![layer2]).unwrap();
    assert_eq!(value(updated.layers[1].bias[0]), 0.5);
    assert_eq!(value(updated.layers[1].weights[0][0]), 1.0);
    assert_eq!(
        comparable(&updated.layers)[0],
        comparable(&weights.layers)[0],
        "a layer left out keeps its weights"
    );

    // And a model can be recreated from them, which is how a client keeps one
    // over a restart.
    let all = server.weights(&id);
    let restored = server
        .create(CreateModelRequest {
            name: Some(String::from("restored")),
            weights: Some(server.weights(&id).layers),
            ..model(
                2,
                vec![
                    layer(8, ActivationKind::Relu, Some("layer1")),
                    layer(1, ActivationKind::Sigmoid, Some("layer2")),
                ],
            )
        })
        .unwrap();
    assert_eq!(comparable(&server.weights(&id_of(&restored)).layers), comparable(&all.layers));
}

#[test]
fn a_model_exports_as_onnx() {
    let mut server = Server::new();
    let id = id_of(&server.create(xor_model()).unwrap());
    let model = routes::find_model(&server.state, &id).unwrap();

    let bytes = build(&routes::rebuild(model)).to_onnx_bytes();
    assert!(bytes.len() > 100, "an ONNX file of 33 parameters is not {} bytes", bytes.len());
    // The ModelProto starts with field 1, ir_version, as a varint.
    assert_eq!(bytes[0], 0x08, "this does not look like a protobuf ModelProto");
    assert_eq!(routes::content_disposition(&model.name), "attachment; filename=\"xor.onnx\"");
}

#[test]
fn models_are_listed_and_deleted() {
    let mut server = Server::new();
    let id = id_of(&server.create(xor_model()).unwrap());

    let list = routes::list_models(&server.state);
    assert_eq!(list.count, 1);
    assert_eq!(list.models[0].name, "xor");
    assert_eq!(list.models[0].total_params, 33);
    assert_eq!(list.models[0].seed, 1234);
    assert_eq!(list.models[0].batch_size, 32);

    assert!(routes::delete_model(&mut server.state, &id).is_ok());
    let error = server.get(&id).unwrap_err();
    assert_eq!((error.status(), error.code()), (404, "not_found"));
    let error = routes::delete_model(&mut server.state, &id).unwrap_err();
    assert_eq!(error.status(), 404);
    assert_eq!(routes::list_models(&server.state).count, 0);
}

#[test]
fn the_scaling_helper_returns_the_exponents() {
    let scaled = Server::new()
        .scale(rows(&[&[1500., 3.], &[2500., 4.]]), rows(&[&[250000.], &[300000.]]))
        .unwrap();

    // 1500 has four integer digits, so the column is divided by 10^3.
    assert_eq!(scaled.ten_power_ratios, vec![3, 0, 5]);
    assert_eq!(value(scaled.x[0][0]), 1.5);
    assert_eq!(value(scaled.x[0][1]), 3.0);
    assert_eq!(value(scaled.y[0][0]), 2.5);
}

// -------------------------------------------------------------------- errors

#[test]
fn a_wrong_feature_count_is_a_400_that_says_so() {
    let mut server = Server::new();
    let id = id_of(&server.create(xor_model()).unwrap());

    let error = server.predict(&id, rows(&[&[1., 2., 3.]])).unwrap_err();
    assert_eq!((error.status(), error.code()), (400, "invalid_request"));
    assert!(error.message().contains("takes 2 features"), "{}", error.message());
    assert_eq!(error.message(), "the model takes 2 features per sample, but row 0 of 'x' has 3");
}

#[test]
fn a_wrong_target_width_is_a_400_that_says_so() {
    let mut server = Server::new();
    let id = id_of(&server.create(xor_model()).unwrap());
    let (x, _) = xor_samples();
    let y = rows(&[&[0., 0.], &[1., 1.], &[1., 1.], &[0., 0.]]);

    let error = server.train(&id, run(&x, &y)).unwrap_err();
    assert_eq!(error.status(), 400);
    assert!(error.message().contains("1 units"), "{}", error.message());
}

#[test]
fn training_without_a_loss_says_what_is_missing() {
    let mut server = Server::new();
    let id = id_of(&server.create(model(2, vec![layer(1, ActivationKind::Sigmoid, None)])).unwrap());
    let (x, y) = xor_samples();

    let error = server.train(&id, run(&x, &y)).unwrap_err();
    assert_eq!(error.status(), 400);
    assert!(error.message().contains("no loss"), "{}", error.message());
    let error = server.evaluate(&id, x.clone(), y.clone(), None).unwrap_err();
    assert!(error.message().contains("no loss"), "{}", error.message());

    // Sending the loss with the training data compiles it, Keras' way.
    let training = server
        .train(
            &id,
            TrainRequest {
                epochs: 5,
                loss: Some(LossKind::MeanSquaredError),
                optimizer: Some(OptimizerRequest::Kind(OptimizerKind::Sgd)),
                ..run(&x, &y)
            },
        )
        .unwrap();
    assert_eq!(training.loss_function, LossKind::MeanSquaredError);
    assert_eq!(training.optimizer.kind, OptimizerKind::Sgd);
    assert_eq!(value(training.optimizer.learning_rate), 0.01);
    assert_eq!(
        server.get(&id).unwrap().loss,
        Some(LossKind::MeanSquaredError),
        "the train call compiled the model"
    );
}

#[test]
fn bad_requests_all_answer_with_the_same_json_shape() {
    let mut server = Server::new();
    let id = id_of(&server.create(xor_model()).unwrap());
    let (x, y) = xor_samples();
    let relu = || vec![layer(1, ActivationKind::Relu, None)];
    let weights = |name: &str| LayerWeights {
        name: String::from(name),
        weights: rows(&[&[1.]]),
        bias: vec![number(0.)],
    };

    let errors: Vec<(ApiError, u16, &str)> = vec![
        (routes::not_found(), 404, "not_found"),
        (server.get("not-a-uuid").unwrap_err(), 400, "invalid_request"),
        (server.create(model(0, relu())).unwrap_err(), 400, "invalid_request"),
        (server.create(model(2, vec![])).unwrap_err(), 400, "invalid_request"),
        (
            server.create(CreateModelRequest { batch_size: Some(0), ..model(2, relu()) }).unwrap_err(),
            400,
            "invalid_request",
        ),
        (
            ApiError::rejected_body(422, String::from("unknown variant `softmax`")),
            422,
            "invalid_json",
        ),
        (server.train(&id, TrainRequest { epochs: 0, ..run(&x, &y) }).unwrap_err(), 400, "invalid_request"),
        (
            server.train(&id, TrainRequest { batch_size: Some(0), ..run(&x, &y) }).unwrap_err(),
            400,
            "invalid_request",
        ),
        (server.predict(&id, vec![]).unwrap_err(), 400, "invalid_request"),
        (server.predict(&id, rows(&[&[1., 2.], &[3.]])).unwrap_err(), 400, "invalid_request"),
        (server.put_weights(&id, vec![weights("layer9")]).unwrap_err(), 400, "invalid_request"),
        (server.put_weights(&id, vec![weights("layer2")]).unwrap_err(), 400, "invalid_request"),
    ];

    for (error, status, code) in errors {
        assert_eq!((error.status(), error.code()), (status, code), "{}", error.message());
        assert!(!error.message().is_empty());
    }
    // None of the refused calls changed the model.
    assert_eq!(server.get(&id).unwrap().trained_epochs, 0);
}

#[test]
fn a_wrong_method_is_a_405() {
    let error = routes::method_not_allowed();
    assert_eq!((error.status(), error.code()), (405, "method_not_allowed"));
}

#[test]
fn an_optimizer_is_accepted_as_a_bare_name_or_an_object() {
    let mut server = Server::new();
    let with = |optimizer: OptimizerRequest| CreateModelRequest {
        loss: Some(LossKind::BinaryCrossentropy),
        optimizer: Some(optimizer),
        ..model(2, vec![layer(1, ActivationKind::Sigmoid, None)])
    };

    let named = OptimizerRequest::Kind(OptimizerKind::from_name("adam").unwrap());
    let named = server.create(with(named)).unwrap().optimizer.unwrap();
    assert_eq!(named.kind, OptimizerKind::Adam);
    assert_eq!(
        value(named.learning_rate),
        0.001,
        "a bare name means the optimizer's own default rate"
    );

    let mut fields = OptimizerFields::new();
    assert_eq!(fields.next_field("type"), Ok(OptimizerField::Kind));
    fields.kind = OptimizerKind::from_name("sgd");
    assert_eq!(fields.next_field("kind"), Err(KeyFault::Duplicate(OptimizerField::Kind)));
    assert_eq!(fields.next_field("learning_rate"), Ok(OptimizerField::LearningRate));
    fields.learning_rate = rate(0.5);
    assert_eq!(fields.next_field("momentum"), Err(KeyFault::Unknown));
    let configured = server.create(with(fields.into_request().unwrap())).unwrap().optimizer.unwrap();
    assert_eq!(configured.kind, OptimizerKind::Sgd);
    assert_eq!(value(configured.learning_rate), 0.5);

    assert!(OptimizerFields::new().into_request().is_none(), "the type is missing");
    assert!(OptimizerKind::from_name("rmsprop").is_none());
}

#[test]
fn malformed_json_is_still_answered_with_json() {
    let error = ApiError::rejected_body(400, String::from("expected value at line 1 column 3"));
    assert_eq!((error.status(), error.code()), (400, "invalid_json"));
    assert_eq!(error.message(), "expected value at line 1 column 3");
}

#[test]
fn duplicate_layer_names_are_refused_before_the_engine_panics() {
    let error = Server::new()
        .create(model(
            2,
            vec![
                layer(2, ActivationKind::Relu, Some("same")),
                layer(1, ActivationKind::Sigmoid, Some("same")),
            ],
        ))
        .unwrap_err();

    assert_eq!(error.status(), 400);
    assert!(error.message().contains("unique"), "{}", error.message());
}

#[test]
fn a_non_finite_sample_is_refused() {
    let mut server = Server::new();
    let id = id_of(&server.create(xor_model()).unwrap());

    // 1e400 parses as an infinity.
    for odd in ["1e400".parse().unwrap(), f64::NEG_INFINITY, f64::NAN] {
        let error = server.predict(&id, rows(&[&[0.0, 0.0], &[0.0, odd]])).unwrap_err();
        assert_eq!(error.status(), 400, "an infinite feature was accepted");
        assert_eq!(error.message(), "'x' contains a value that is not finite at row 1, column 1");
    }
}

// ------------------------------------------------- training with column scale

/// Floor area and rooms against a price: columns counted in thousands, units
/// and hundreds of thousands, the case column scaling is for.
fn house_prices() -> (Vec<Vec<Number>>, Vec<Vec<Number>>) {
    (
        rows(&[&[1500., 3.], &[2500., 4.], &[1800., 3.], &[3200., 5.]]),
        rows(&[&[250000.], &[410000.], &[300000.], &[520000.]]),
    )
}

/// A regression model; the same seed every time, so two of them start equal.
fn regression_model(server: &mut Server) -> String {
    let request = CreateModelRequest {
        seed: Some(7),
        loss: Some(LossKind::MeanSquaredError),
        optimizer: Some(OptimizerRequest::Config { kind: OptimizerKind::Adam, learning_rate: rate(0.01) }),
        ..model(
            2,
            vec![layer(8, ActivationKind::Relu, None), layer(1, ActivationKind::Linear, None)],
        )
    };
    id_of(&server.create(request).unwrap())
}

#[test]
fn training_with_column_scale_fits_the_scaled_data_and_reports_the_ratios() {
    let mut server = Server::new();
    let (x, y) = house_prices();
    let id = regression_model(&mut server);
    let fifty = |x: &[Vec<Number>], y: &[Vec<Number>]| TrainRequest {
        epochs: 50,
        return_history: false,
        ..run(x, y)
    };

    let scaled_run = server.train_with_column_scale(&id, fifty(&x, &y)).unwrap();
    // 1500 has four integer digits, 3 has one, 250000 has six.
    assert_eq!(scaled_run.ten_power_ratios, Some(vec![3, 0, 5]));
    assert_eq!(scaled_run.id, server.get(&id).unwrap().id);
    assert_eq!(scaled_run.epochs, 50);
    assert_eq!(scaled_run.samples, 4);
    assert_eq!(scaled_run.trained_epochs, 50);

    // It is the same run as scaling first and training on the result, on an
    // identical model: nothing more and nothing less happens.
    let scaled = server.scale(x.clone(), y.clone()).unwrap();
    let twin = regression_model(&mut server);
    let by_hand = server.train(&twin, fifty(&scaled.x, &scaled.y)).unwrap();
    assert_eq!(
        value(scaled_run.final_loss),
        value(by_hand.final_loss),
        "scaling first and then training gave another run"
    );
    assert_eq!(scaled_run.ten_power_ratios, Some(scaled.ten_power_ratios));

    // And not the run on raw prices, whose first squared error is around 1e11.
    let raw = regression_model(&mut server);
    let unscaled = server.train(&raw, fifty(&x, &y)).unwrap();
    assert!(value(unscaled.initial_loss) > 1e9);
    assert!(value(scaled_run.initial_loss) < 100.);
    assert!(unscaled.ten_power_ratios.is_none(), "a plain train reports no ratios");

    // The trained weights were stored like any other run's.
    assert_eq!(server.get(&id).unwrap().trained_epochs, 50);
}

#[test]
fn predictions_of_a_scaled_model_are_in_the_units_of_y() {
    let mut server = Server::new();
    let (x, y) = house_prices();
    let id = regression_model(&mut server);
    let twin = regression_model(&mut server);
    server.train_with_column_scale(&id, TrainRequest { epochs: 50, ..run(&x, &y) }).unwrap();
    let scaled = server.scale(x.clone(), y.clone()).unwrap();
    server.train(&twin, TrainRequest { epochs: 50, ..run(&scaled.x, &scaled.y) }).unwrap();

    let prices = server.predict(&id, x).unwrap();
    let small = server.predict(&twin, scaled.x).unwrap();
    for (price, small) in prices.predictions.iter().zip(&small.predictions) {
        assert_eq!(value(price[0]), value(small[0]) * 10.0_f64.powi(5));
    }

    // A plain run keeps the scales of the scaled one.
    server.train(&id, run(&scaled_again().0, &scaled_again().1)).unwrap();
    let model = routes::find_model(&server.state, &id).unwrap();
    assert_eq!(model.ten_power_ratios, Some(vec![3, 0, 5]));
}

fn scaled_again() -> (Vec<Vec<Number>>, Vec<Vec<Number>>) {
    (rows(&[&[1.5, 3.]]), rows(&[&[2.5]]))
}

#[test]
fn training_with_column_scale_validates_before_it_scales() {
    let mut server = Server::new();
    let (x, y) = house_prices();
    let id = regression_model(&mut server);
    let two_outputs = id_of(
        &server
            .create(CreateModelRequest {
                loss: Some(LossKind::MeanSquaredError),
                ..model(2, vec![layer(2, ActivationKind::Linear, None)])
            })
            .unwrap(),
    );
    let pairs = rows(&[&[1., 2.], &[1., 2.], &[1., 2.], &[1., 2.]]);

    let cases: Vec<(&str, TrainRequest, u16, &str)> = vec![
        (&id, run(&rows(&[&[1., 2., 3.]]), &rows(&[&[1.]])), 400, "takes 2 features"),
        (&id, run(&x, &rows(&[&[1.], &[2.]])), 400, "samples"),
        (&two_outputs, run(&x, &pairs), 400, "exactly 1 unit"),
        ("not-a-uuid", run(&x, &y), 400, "not a model id"),
        ("00000000-0000-4000-8000-000000000000", run(&x, &y), 404, "no model"),
    ];

    for (model, request, status, expected) in cases {
        let error = server.train_with_column_scale(model, request).unwrap_err();
        assert_eq!(error.status(), status);
        assert!(error.message().contains(expected), "{} lacks '{expected}'", error.message());
        // Refused by the checks in front of the engine, not by a panic inside it.
        assert_ne!(error.code(), "engine_error");
    }

    // None of the refused calls trained anything.
    assert_eq!(server.get(&id).unwrap().trained_epochs, 0);
}
