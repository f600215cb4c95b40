//! What a request may ask for, message by message.

use rust_nn_api::config::Limits;
use rust_nn_api::dto::{
    resolve_layer_names, resolve_optimizer, validate_features, validate_samples, validate_weights,
    CreateModelRequest, LayerRequest, LearningRate, OptimizerRequest, DEFAULT_BATCH_SIZE,
};
use rust_nn_api::error::ApiError;
use rust_nn_api::model::{
    ActivationKind, LayerSpec, LayerWeights, LossKind, ModelSpec, NewModel, OptimizerKind,
};
use rust_nn_api::number::Number;

fn number(value: f64) -> Number {
    Number { bits: value.to_bits() }
}

fn rows(values: &[&[f64]]) -> Vec<Vec<Number>> {
    values.iter().map(|row| row.iter().map(|value| number(*value)).collect()).collect()
}

fn layers(names: &[Option<&str>]) -> Vec<LayerRequest> {
    names
        .iter()
        .map(|name| LayerRequest {
            units: 2,
            activation: ActivationKind::Relu,
            name: name.map(String::from),
        })
        .collect()
}

fn request() -> CreateModelRequest {
    CreateModelRequest {
        name: None,
        features: 3,
        layers: layers(&[Some("first"), None]),
        loss: None,
        optimizer: None,
        seed: None,
        batch_size: None,
        weights: None,
    }
}

fn weights(name: &str, values: &[&[f64]], bias: &[f64]) -> LayerWeights {
    LayerWeights {
        name: String::from(name),
        weights: rows(values),
        bias: bias.iter().map(|value| number(*value)).collect(),
    }
}

fn parts(request: CreateModelRequest) -> Result<NewModel, ApiError> {
    request.into_parts_seeded(&Limits::default(), 77)
}

fn refused(request: CreateModelRequest) -> String {
    let error = parts(request).unwrap_err();
    assert_eq!((error.status(), error.code()), (400, "invalid_request"));
    String::from(error.message())
}

fn said<T>(result: Result<T, ApiError>) -> String {
    match result {
        Ok(_) => panic!("this is not refused"),
        Err(error) => {
            assert_eq!((error.status(), error.code()), (400, "invalid_request"));
            String::from(error.message())
        }
    }
}

fn spec() -> ModelSpec {
    ModelSpec {
        features: 2,
        layers: vec![
            LayerSpec { name: String::from("in"), units: 3, activation: ActivationKind::Relu },
            LayerSpec { name: String::from("out"), units: 1, activation: ActivationKind::Linear },
        ],
        loss: None,
        optimizer: None,
        seed: 1,
    }
}

#[test]
fn a_request_that_leaves_everything_out_gets_the_defaults() {
    let new = parts(request()).unwrap();

    assert_eq!(new.name, "sequential");
    assert_eq!(new.batch_size, DEFAULT_BATCH_SIZE);
    assert_eq!(DEFAULT_BATCH_SIZE, 32);
    assert_eq!(new.spec.seed, 77);
    assert_eq!(new.spec.features, 3);
    assert_eq!(new.spec.loss, None);
    assert_eq!(new.spec.optimizer, None);
    assert!(new.weights.is_empty());
    let names: Vec<&str> = new.spec.layers.iter().map(|layer| layer.name.as_str()).collect();
    assert_eq!(names, ["first", "dense"]);
    assert_eq!(new.spec.layers[1].units, 2);
}

#[test]
fn a_seed_that_is_sent_is_kept() {
    assert_eq!(parts(CreateModelRequest { seed: Some(5), ..request() }).unwrap().spec.seed, 5);
    assert_eq!(
        CreateModelRequest { seed: Some(5), ..request() }.into_parts(&Limits::default()).unwrap().spec.seed,
        5
    );
    let one = request().into_parts(&Limits::default()).unwrap().spec.seed;
    let other = request().into_parts(&Limits::default()).unwrap().spec.seed;
    assert_ne!(one, other);
}

#[test]
fn a_model_that_cannot_be_had_is_refused_with_a_reason() {
    let limits = Limits::default();
    assert_eq!(
        refused(CreateModelRequest { features: 0, ..request() }),
        "'features' must be between 1 and 4096, got 0"
    );
    assert_eq!(
        refused(CreateModelRequest { features: limits.max_features + 1, ..request() }),
        "'features' must be between 1 and 4096, got 4097"
    );
    assert_eq!(
        refused(CreateModelRequest { layers: vec![], ..request() }),
        "'layers' must hold at least one layer"
    );
    assert_eq!(
        refused(CreateModelRequest { layers: layers(&[None; 65]), ..request() }),
        "'layers' holds 65 layers, the limit is 64"
    );
    assert!(parts(CreateModelRequest { layers: layers(&[None; 64]), ..request() }).is_ok());
    let mut wide = request();
    wide.layers[1].units = 4097;
    assert_eq!(refused(wide), "layer 'dense' has 4097 units, it must be between 1 and 4096");
    let mut empty = request();
    empty.layers[0].units = 0;
    assert_eq!(refused(empty), "layer 'first' has 0 units, it must be between 1 and 4096");
    assert_eq!(
        refused(CreateModelRequest { batch_size: Some(0), ..request() }),
        "'batch_size' must be at least 1"
    );
    for blank in ["", "   ", "\t\n", "\u{2003}\u{a0}"] {
        assert_eq!(
            refused(CreateModelRequest { name: Some(String::from(blank)), ..request() }),
            "'name' must not be blank"
        );
    }
    assert_eq!(
        refused(CreateModelRequest {
            weights: Some(vec![weights("nowhere", &[], &[])]),
            ..request()
        }),
        "there is no layer named 'nowhere' in this model"
    );
}

#[test]
fn layers_without_a_name_get_the_first_free_one() {
    let names = |given: &[Option<&str>]| resolve_layer_names(&layers(given));

    assert_eq!(names(&[]).unwrap(), Vec::<String>::new());
    assert_eq!(names(&[None, None, None]).unwrap(), ["dense", "dense_1", "dense_2"]);
    assert_eq!(names(&[Some("dense_1"), None, None]).unwrap(), ["dense_1", "dense", "dense_2"]);
    assert_eq!(names(&[Some("dense"), None]).unwrap(), ["dense", "dense_1"]);
    assert_eq!(names(&[None; 12]).unwrap()[11], "dense_11");
    assert_eq!(
        said(names(&[None, Some("dense")])),
        "layer names must be unique, 'dense' is used twice"
    );
    assert_eq!(said(names(&[Some("a"), Some(" \n")])), "layer 1 has a blank 'name'");
    assert_eq!(names(&[Some(" a ")]).unwrap(), [" a "]);
}

#[test]
fn an_optimizer_comes_with_a_positive_rate() {
    let with = |rate: f64| OptimizerRequest::Config {
        kind: OptimizerKind::Sgd,
        learning_rate: Some(LearningRate { rate: number(rate), shown: format!("{rate}") }),
    };

    for wrong in [0.0, -0.0, -0.5, f64::INFINITY, f64::NAN] {
        assert_eq!(
            said(with(wrong).resolve()),
            format!("'learning_rate' must be a positive number, got {wrong}")
        );
    }
    for fine in [0.5, 1e-300, f64::MIN_POSITIVE, 5e-324, f64::MAX] {
        assert_eq!(with(fine).resolve().unwrap().learning_rate, number(fine));
    }
    let bare = OptimizerRequest::Config { kind: OptimizerKind::Adam, learning_rate: None };
    assert_eq!(bare.resolve().unwrap().learning_rate, number(0.001));
    let kind = OptimizerRequest::Kind(OptimizerKind::Sgd);
    assert_eq!(kind.resolve().unwrap().learning_rate, number(0.01));
}

#[test]
fn a_loss_brings_adam_along() {
    let loss = Some(LossKind::MeanSquaredError);
    assert!(resolve_optimizer(None, None).unwrap().is_none());
    let adam = resolve_optimizer(None, loss).unwrap().unwrap();
    assert_eq!((adam.kind, adam.learning_rate), (OptimizerKind::Adam, number(0.001)));
    let sgd = resolve_optimizer(Some(OptimizerRequest::Kind(OptimizerKind::Sgd)), None).unwrap().unwrap();
    assert_eq!((sgd.kind, sgd.learning_rate), (OptimizerKind::Sgd, number(0.01)));
}

#[test]
fn weights_have_to_fit_the_layers_they_are_for() {
    let check = |weights: Vec<LayerWeights>| validate_weights(&spec(), &weights);
    let out = || weights("out", &[&[1.], &[2.], &[3.]], &[0.]);
    let input = || weights("in", &[&[1., 2., 3.], &[4., 5., 6.]], &[0., 0., 0.]);

    assert!(check(vec![]).is_ok());
    assert!(check(vec![out()]).is_ok());
    assert!(check(vec![out(), input()]).is_ok());
    assert_eq!(
        said(check(vec![weights("other", &[&[1.]], &[0.])])),
        "there is no layer named 'other' in this model"
    );
    assert_eq!(said(check(vec![out(), input(), out()])), "layer 'out' is given weights twice");
    assert_eq!(
        said(check(vec![weights("out", &[&[1.]], &[0.])])),
        "layer 'out' needs a 3x1 weight matrix, got 1 rows"
    );
    assert_eq!(
        said(check(vec![weights("in", &[&[1., 2., 3.], &[1., 2.]], &[0., 0., 0.])])),
        "layer 'in' needs a 2x3 weight matrix, but row 1 has 2 values"
    );
    assert_eq!(
        said(check(vec![weights("in", &[&[1., 2., 3.], &[1., 2., 3.]], &[0.])])),
        "layer 'in' needs 3 bias values, one per unit, got 1"
    );
    for odd in [f64::NAN, f64::INFINITY] {
        assert_eq!(
            said(check(vec![weights("out", &[&[1.], &[odd], &[3.]], &[0.])])),
            "layer 'out' has a weight that is not finite"
        );
        assert_eq!(
            said(check(vec![weights("out", &[&[1.], &[2.], &[3.]], &[odd])])),
            "layer 'out' has a weight that is not finite"
        );
    }
}

#[test]
fn samples_have_to_fit_the_model() {
    let limits = Limits { max_samples: 3, ..Limits::default() };
    let x = rows(&[&[1., 2.], &[3., 4.]]);
    let y = rows(&[&[1.], &[2.]]);

    assert!(validate_samples(&spec(), &x, &y, &limits).is_ok());
    assert!(validate_features(&spec(), &x, &limits).is_ok());
    assert_eq!(said(validate_features(&spec(), &vec![], &limits)), "'x' has no samples");
    assert_eq!(
        said(validate_features(&spec(), &rows(&[&[1.], &[1.], &[1.], &[1.]]), &limits)),
        "'x' has 4 samples, the limit is 3"
    );
    assert_eq!(
        said(validate_features(&spec(), &rows(&[&[1., 2.], &[3.]]), &limits)),
        "the model takes 2 features per sample, but row 1 of 'x' has 1"
    );
    assert_eq!(
        said(validate_samples(&spec(), &x, &rows(&[&[1.]]), &limits)),
        "'x' has 2 samples but 'y' has 1"
    );
    assert_eq!(
        said(validate_samples(&spec(), &x, &rows(&[&[1.], &[1., 2.]]), &limits)),
        "the last layer has 1 units, so every row of 'y' needs 1 values, but row 1 has 2"
    );
}
