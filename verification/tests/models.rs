//! Names, numbers, ids, matrices, and the store they end up in.

use rust_nn_api::config::{Config, Limits};
use rust_nn_api::dto::ModelListEntry;
use rust_nn_api::engine::{
    build, describe, matrix_of, rescaling_of, rows_of, weights_of, BuiltLayer, BuiltModel,
    FitOptions, LayerMatrices, Matrix, ModelReport, TrainOutcome,
};
use rust_nn_api::error::{engine_panic, handler_panic, panic_message, ApiError, PanicPayload};
use rust_nn_api::model::{
    do_ratios_fit, fold_id, is_complete, random_seed, ActivationKind, LayerSpec, LayerWeights,
    LossKind, ModelSpec, NewModel, OptimizerConfig, OptimizerKind, StoredModel,
};
use rust_nn_api::number::Number;
use rust_nn_api::routes;
use rust_nn_api::store::{now_ms, reported_ms, AppState};
use rust_nn_api::text::{chars_of, is_among, is_blank, push_decimal, same};

fn number(value: f64) -> Number {
    Number { bits: value.to_bits() }
}

fn rows(values: &[&[f64]]) -> Vec<Vec<Number>> {
    values.iter().map(|row| row.iter().map(|value| number(*value)).collect()).collect()
}

fn spec() -> ModelSpec {
    ModelSpec {
        features: 2,
        layers: vec![
            LayerSpec { name: String::from("in"), units: 3, activation: ActivationKind::Relu },
            LayerSpec { name: String::from("out"), units: 1, activation: ActivationKind::Linear },
        ],
        loss: Some(LossKind::MeanSquaredError),
        optimizer: Some(OptimizerConfig { kind: OptimizerKind::Sgd, learning_rate: number(0.5) }),
        seed: 11,
    }
}

fn weights() -> Vec<LayerWeights> {
    vec![
        LayerWeights {
            name: String::from("in"),
            weights: rows(&[&[1., 2., 3.], &[4., 5., 6.]]),
            bias: vec![number(7.), number(8.), number(9.)],
        },
        LayerWeights {
            name: String::from("out"),
            weights: rows(&[&[1.], &[2.], &[3.]]),
            bias: vec![number(4.)],
        },
    ]
}

fn new_model(name: &str) -> NewModel {
    NewModel { name: String::from(name), spec: spec(), weights: weights(), batch_size: 4 }
}

fn holding(max_models: usize) -> AppState {
    AppState::new(Config {
        limits: Limits { max_models, ..Limits::default() },
        ..Config::default()
    })
}

fn comparable(layers: &[LayerWeights]) -> Vec<(String, Vec<Vec<Number>>, Vec<Number>)> {
    layers
        .iter()
        .map(|layer| (layer.name.clone(), layer.weights.clone(), layer.bias.clone()))
        .collect()
}

/// The model as an engine would hand it back that changed nothing about it.
fn built() -> BuiltModel {
    let plan = build(&spec(), &weights());
    BuiltModel {
        layers: plan
            .weights
            .into_iter()
            .zip([(3, 9), (1, 4)])
            .map(|(matrices, (units, params))| BuiltLayer { matrices, units, params })
            .collect(),
        summary: String::from("the table"),
        total_params: 13,
    }
}

// --------------------------------------------------------------- small things

#[test]
fn names_are_read_back_and_have_other_spellings() {
    for kind in [ActivationKind::Relu, ActivationKind::Sigmoid, ActivationKind::Linear] {
        assert_eq!(ActivationKind::from_name(kind.name()), Some(kind));
    }
    for kind in [LossKind::BinaryCrossentropy, LossKind::MeanSquaredError] {
        assert_eq!(LossKind::from_name(kind.name()), Some(kind));
    }
    for kind in [OptimizerKind::Sgd, OptimizerKind::Adam] {
        assert_eq!(OptimizerKind::from_name(kind.name()), Some(kind));
    }
    for (name, kind) in [
        ("relu", ActivationKind::Relu),
        ("ReLU", ActivationKind::Relu),
        ("RELU", ActivationKind::Relu),
        ("ReLu", ActivationKind::Relu),
        ("sigmoid", ActivationKind::Sigmoid),
        ("Sigmoid", ActivationKind::Sigmoid),
        ("linear", ActivationKind::Linear),
        ("Linear", ActivationKind::Linear),
        ("identity", ActivationKind::Linear),
        ("none", ActivationKind::Linear),
    ] {
        assert_eq!(ActivationKind::from_name(name), Some(kind), "{name}");
    }
    for name in ["binary_crossentropy", "bce", "BinaryCrossentropy", "binary_cross_entropy"] {
        assert_eq!(LossKind::from_name(name), Some(LossKind::BinaryCrossentropy), "{name}");
    }
    for name in ["mean_squared_error", "mse", "MeanSquaredError", "mean_square_error"] {
        assert_eq!(LossKind::from_name(name), Some(LossKind::MeanSquaredError), "{name}");
    }
    for name in ["sgd", "SGD", "gradient_descent"] {
        assert_eq!(OptimizerKind::from_name(name), Some(OptimizerKind::Sgd), "{name}");
    }
    for name in ["adam", "Adam", "ADAM"] {
        assert_eq!(OptimizerKind::from_name(name), Some(OptimizerKind::Adam), "{name}");
    }
    assert_eq!(ActivationKind::from_name("softmax"), None);
    assert_eq!(LossKind::from_name("MSE"), None);
    assert_eq!(OptimizerKind::from_name(""), None);
}

#[test]
fn default_rates_are_the_engines_own() {
    assert_eq!(OptimizerKind::Sgd.default_learning_rate().bits, 0.01_f64.to_bits());
    assert_eq!(OptimizerKind::Adam.default_learning_rate().bits, 0.001_f64.to_bits());
}

#[test]
fn numbers_tell_what_they_are() {
    for finite in [0.0, -0.0, 1.5, -1e308, 5e-324, f64::MAX, f64::MIN] {
        assert!(number(finite).is_finite(), "{finite}");
        assert_eq!(number(finite).is_positive(), finite > 0.0, "{finite}");
    }
    for odd in [f64::INFINITY, f64::NEG_INFINITY, f64::NAN, -f64::NAN] {
        assert!(!number(odd).is_finite() && !number(odd).is_positive(), "{odd}");
    }
}

#[test]
fn text_is_read_and_put_together() {
    for value in [0, 7, 10, 99, 100, 12345, u64::MAX] {
        let mut text = String::from("n=");
        push_decimal(&mut text, value);
        assert_eq!(text, format!("n={value}"));
    }
    assert!(is_blank("") && is_blank(" \t\r\n\u{85}\u{3000}"));
    assert!(!is_blank(" x ") && !is_blank("\u{200b}"));
    assert!(same("a", "a") && !same("a", "b") && !same("a", "aa"));
    assert_eq!(chars_of("aé\u{1f600}"), vec!['a', 'é', '\u{1f600}']);
    let names = vec![String::from("a"), String::from("b")];
    assert!(is_among("b", &names) && !is_among("c", &names));
}

#[test]
fn a_panic_is_passed_on_in_its_own_words() {
    let literal = PanicPayload::Literal(String::from("y has 1 columns"));
    let formatted = PanicPayload::Formatted(String::from("row 3 is bad"));
    assert_eq!(panic_message(&literal), "y has 1 columns");
    assert_eq!(panic_message(&formatted), "row 3 is bad");
    assert_eq!(
        panic_message(&PanicPayload::Opaque),
        "the neural network engine panicked without a message"
    );
    let error = engine_panic(&literal);
    assert_eq!((error.status(), error.code(), error.message()), (422, "engine_error", "y has 1 columns"));
    let error = handler_panic(&formatted);
    assert_eq!((error.status(), error.code(), error.message()), (500, "internal_error", "row 3 is bad"));
}

#[test]
fn every_error_has_its_status_and_code() {
    let text = || String::from("why");
    for (error, status, code) in [
        (ApiError::bad_request(text()), 400, "invalid_request"),
        (ApiError::not_found(text()), 404, "not_found"),
        (ApiError::method_not_allowed(text()), 405, "method_not_allowed"),
        (ApiError::conflict(text()), 409, "conflict"),
        (ApiError::rejected_body(413, text()), 413, "payload_too_large"),
        (ApiError::rejected_body(415, text()), 415, "unsupported_media_type"),
        (ApiError::rejected_body(422, text()), 422, "invalid_json"),
        (ApiError::rejected_body(400, text()), 400, "invalid_json"),
        (ApiError::engine(text()), 422, "engine_error"),
        (ApiError::internal(text()), 500, "internal_error"),
    ] {
        assert_eq!((error.status(), error.code(), error.message()), (status, code, "why"));
    }
    assert_eq!(
        routes::worker_lost("panicked").message(),
        "the worker thread did not finish: panicked"
    );
}

// ------------------------------------------------------------------------ ids

#[test]
fn ids_are_read_in_every_form_they_are_written_in() {
    let id = 0x0583b9da_ba2a_4737_88ca_410819418c85_u128;
    for form in [
        "0583b9da-ba2a-4737-88ca-410819418c85",
        "0583B9DA-BA2A-4737-88CA-410819418C85",
        "0583b9daba2a473788ca410819418c85",
        "{0583b9da-ba2a-4737-88ca-410819418c85}",
        "urn:uuid:0583b9da-ba2a-4737-88ca-410819418c85",
    ] {
        assert_eq!(routes::parse_id(form).unwrap(), id, "{form}");
    }
    for wrong in [
        "",
        "not-a-uuid",
        "0583b9da-ba2a-4737-88ca-410819418c8",
        "0583b9da-ba2a-4737-88ca-410819418c8g",
        "0583b9da_ba2a_4737_88ca_410819418c85",
        "{0583b9daba2a473788ca410819418c85}",
        "0583b9da-ba2a-4737-88ca-410819418c85 ",
    ] {
        let error = routes::parse_id(wrong).expect_err(wrong);
        assert_eq!(error.status(), 400);
        assert_eq!(
            error.message(),
            format!("'{wrong}' is not a model id; an id is a UUID, as returned by POST /create-compile-model")
        );
    }
}

#[test]
fn seeds_are_folded_out_of_ids() {
    let id = uuid::Uuid::from_u128(0x0583b9da_ba2a_4737_88ca_410819418c85);
    let bytes = id.into_bytes();
    let mut first = [0_u8; 8];
    let mut last = [0_u8; 8];
    first.copy_from_slice(&bytes[..8]);
    last.copy_from_slice(&bytes[8..]);
    assert_eq!(fold_id(id.as_u128()), u64::from_le_bytes(first) ^ u64::from_le_bytes(last));
    assert_eq!(fold_id(0), 0);
    assert_eq!(fold_id(1), 1 << 56);
    assert_ne!(random_seed(), random_seed());
}

// ------------------------------------------------------------------- matrices

#[test]
fn rows_become_a_matrix_and_rows_again() {
    let sent = rows(&[&[1., 2.], &[3., 4.], &[5., 6.]]);
    let matrix = matrix_of(&sent, "x").unwrap();
    assert_eq!((matrix.row_count, matrix.col_count), (3, 2));
    assert_eq!(matrix.values, rows(&[&[1., 2., 3., 4., 5., 6.]])[0]);
    assert_eq!(rows_of(&matrix), sent);

    // Rows without columns are the exception: none of them comes back.
    let hollow = matrix_of(&vec![vec![], vec![]], "x").unwrap();
    assert_eq!((hollow.row_count, hollow.col_count), (2, 0));
    assert!(rows_of(&hollow).is_empty());
    let empty = matrix_of(&vec![], "x").unwrap();
    assert_eq!((empty.row_count, empty.col_count), (0, 0));

    // A buffer that does not come out even ends in a shorter row.
    let uneven = Matrix { row_count: 2, col_count: 2, values: rows(&[&[1., 2., 3.]])[0].clone() };
    assert_eq!(rows_of(&uneven), rows(&[&[1., 2.], &[3.]]));

    let said = |rows: Vec<Vec<Number>>| String::from(matrix_of(&rows, "y").unwrap_err().message());
    assert_eq!(
        said(rows(&[&[1., 2.], &[3.]])),
        "'y' must be rectangular: row 0 has 2 values but row 1 has 1"
    );
    assert_eq!(
        said(rows(&[&[1., 2.], &[3., f64::NAN], &[f64::INFINITY, 0.]])),
        "'y' contains a value that is not finite at row 1, column 1"
    );
}

#[test]
fn a_plan_spells_out_what_to_build() {
    let plan = build(&spec(), &weights());
    assert_eq!(plan.seed, 11);
    assert_eq!(plan.features, 2);
    assert_eq!(plan.layers.len(), 2);
    assert_eq!(plan.layers[0].name, "in");
    assert_eq!(
        plan.compile,
        Some((
            LossKind::MeanSquaredError,
            OptimizerConfig { kind: OptimizerKind::Sgd, learning_rate: number(0.5) }
        ))
    );
    assert_eq!(plan.weights[0].name, "in");
    assert_eq!((plan.weights[0].weights.row_count, plan.weights[0].weights.col_count), (2, 3));
    assert_eq!((plan.weights[0].bias.row_count, plan.weights[0].bias.col_count), (1, 3));
    assert_eq!(plan.weights[0].weights.values, rows(&[&[1., 2., 3., 4., 5., 6.]])[0]);

    let bare = ModelSpec { loss: None, ..spec() };
    assert_eq!(build(&bare, &vec![]).compile, None);
}

#[test]
fn weights_that_go_into_the_engine_come_out_again() {
    let plan = build(&spec(), &weights());
    let layers: Vec<LayerMatrices> = plan.weights;
    assert_eq!(comparable(&weights_of(&layers)), comparable(&weights()));
    assert_eq!(comparable(&describe(built()).weights), comparable(&weights()));
}

#[test]
fn a_report_tells_whether_it_is_about_a_model() {
    let report: ModelReport = describe(built());
    assert!(report.describes(&spec()));
    assert_eq!(report.summary, "the table");
    assert_eq!(report.layers[0].input_count, 2);
    assert_eq!(report.layers[1].input_count, 3);

    let mut other = spec();
    other.layers[0].units = 4;
    assert!(!report.describes(&other));
    let mut renamed = spec();
    renamed.layers[1].name = String::from("end");
    assert!(!report.describes(&renamed));
    assert!(!describe(BuiltModel { total_params: 14, ..built() }).describes(&spec()));
    assert!(is_complete(&spec(), &weights()));
    assert!(!is_complete(&spec(), &vec![]));
}

#[test]
fn parameters_are_counted_from_the_shapes() {
    assert_eq!(spec().total_params(), 13);
    assert_eq!(spec().counted_params(), Some(13));
    assert_eq!(spec().input_count(0), 2);
    assert_eq!(spec().input_count(1), 3);
    assert_eq!(spec().output_units(), 1);
    assert_eq!(spec().layer_index("out"), Some(1));
    assert_eq!(spec().layer_index("middle"), None);
    assert_eq!(ModelSpec { layers: vec![], ..spec() }.output_units(), 0);
    let mut huge = spec();
    huge.features = usize::MAX;
    assert_eq!(huge.counted_params(), None);
}

#[test]
fn scales_are_replayed_and_undone() {
    let scales = rescaling_of(&vec![3, 0, 5]);
    assert_eq!(scales.features, vec![-3, 0]);
    assert_eq!(scales.target, 5);
    assert!(do_ratios_fit(&spec(), &vec![3, 0, 5]));
    assert!(!do_ratios_fit(&spec(), &vec![3, 0]));
    assert!(!do_ratios_fit(&spec(), &vec![3, 0, usize::MAX]));
    assert!(!do_ratios_fit(&spec(), &vec![]));
}

// ---------------------------------------------------------------------- store

#[test]
fn the_store_keeps_its_limit() {
    let mut state = holding(2);
    state.insert(new_model("a")).unwrap();
    let b = state.insert(new_model("b")).unwrap();
    let error = state.insert(new_model("c")).unwrap_err();
    assert_eq!((error.status(), error.code()), (409, "conflict"));
    assert_eq!(
        error.message(),
        "the server is holding 2 models, the limit; delete one before creating another"
    );
    assert_eq!(state.count(), 2);

    state.remove(b.id).unwrap();
    assert!(state.insert(new_model("c")).is_ok());
    assert!(holding(0).insert(new_model("a")).is_err());
}

#[test]
fn a_stored_model_is_new() {
    let mut state = holding(9);
    let model = state.insert(new_model("fresh")).unwrap();

    assert_eq!(uuid::Uuid::from_u128(model.id).get_version_num(), 4);
    assert_eq!(model.name, "fresh");
    assert_eq!(model.batch_size, 4);
    assert_eq!(model.trained_epochs, 0);
    assert_eq!(model.created_at_ms, model.updated_at_ms);
    assert!(model.last_loss.is_none() && model.ten_power_ratios.is_none());
    assert_eq!(comparable(&model.weights), comparable(&weights()));
    assert_eq!(state.handle(model.id).unwrap().name, "fresh");
}

#[test]
fn an_unknown_id_is_a_404_that_names_it() {
    let mut state = holding(9);
    let id = 0x00000000_0000_4000_8000_0000000000ab_u128;
    let message = "there is no model with id '00000000-0000-4000-8000-0000000000ab'";

    let error = state.handle(id).unwrap_err();
    assert_eq!((error.status(), error.code(), error.message()), (404, "not_found", message));
    assert_eq!(state.remove(id).unwrap_err().message(), message);
    let raw = "00000000-0000-4000-8000-0000000000ab";
    assert_eq!(routes::get_weights(&state, raw).unwrap_err().message(), message);
    assert!(state.take(id).is_none());
}

#[test]
fn models_are_listed_newest_first() {
    let mut state = holding(9);
    for (id, now) in [(5, 100), (4, 300), (9, 200), (2, 200), (7, 300)] {
        state.insert_as(new_model("m"), id, now).unwrap();
    }
    let order: Vec<u128> = state.list().iter().map(|model| model.id).collect();
    assert_eq!(order, [4, 7, 2, 9, 5]);
    let listed: Vec<u128> = routes::list_models(&state).models.iter().map(|entry| entry.id).collect();
    assert_eq!(listed, order);
    assert_eq!(ModelListEntry::of(state.handle(4).unwrap()).total_params, 13);
}

#[test]
fn a_model_taken_out_is_put_back_changed() {
    let mut state = holding(1);
    let id = state.insert(new_model("a")).unwrap().id;
    let mut model = state.take(id).unwrap();
    assert_eq!(state.count(), 0);
    model.name = String::from("b");
    state.put(model);
    assert_eq!(state.handle(id).unwrap().name, "b");
}

#[test]
fn clock_readings_are_cut_to_what_a_client_gets() {
    assert_eq!(reported_ms(None), 0);
    assert_eq!(reported_ms(Some(1_757_752_440_123)), 1_757_752_440_123);
    assert_eq!(reported_ms(Some((1_u128 << 64) + 5)), 5);
    assert!(now_ms() > 1_500_000_000_000);
}

// ------------------------------------------------------------------- training

fn stored() -> StoredModel {
    holding(1).insert(new_model("m")).unwrap()
}

fn run() -> rust_nn_api::dto::TrainRequest {
    rust_nn_api::dto::TrainRequest {
        x: None,
        x_path: None,
        y: None,
        y_path: None,
        epochs: 3,
        batch_size: None,
        shuffle: false,
        loss: None,
        optimizer: None,
        seed: None,
        return_history: true,
    }
}

#[test]
fn a_run_is_planned_and_written_back() {
    let mut model = stored();
    let x = rows(&[&[1., 2.], &[3., 4.]]);
    let y = rows(&[&[5.], &[6.]]);
    let plan = routes::plan_training(&model, run(), false, &x, &y, &Limits::default()).unwrap();
    assert_eq!(
        plan.options,
        FitOptions { epochs: 3, batch_size: 4, shuffle: false, verbose: false }
    );
    assert_eq!(plan.samples, 2);
    assert_eq!(plan.build.seed, 11);

    let mut left = weights();
    left[1].bias[0] = number(40.);
    let outcome = TrainOutcome {
        loss_history: vec![number(3.), number(2.), number(1.)],
        weights: left,
    };
    let response = routes::finish_training(&mut model, plan, outcome, None, 999, 5).unwrap();
    assert_eq!((response.initial_loss, response.final_loss), (number(3.), number(1.)));
    assert_eq!(response.loss.unwrap().len(), 3);
    assert_eq!((response.trained_epochs, response.duration_ms), (3, 5));
    assert_eq!(model.trained_epochs, 3);
    assert_eq!(model.last_loss, Some(number(1.)));
    assert_eq!(model.updated_at_ms, 999);
    assert_eq!(model.weights[1].bias[0], number(40.));

    // A run that returned nothing is the server's own fault and changes nothing.
    let plan = routes::plan_training(&model, run(), false, &x, &y, &Limits::default()).unwrap();
    let nothing = TrainOutcome { loss_history: vec![], weights: weights() };
    let error = routes::finish_training(&mut model, plan, nothing, None, 1000, 5).unwrap_err();
    assert_eq!((error.status(), error.message()), (500, "training returned no epochs"));
    assert_eq!(model.trained_epochs, 3);
    assert_eq!(model.weights[1].bias[0], number(40.));
}

#[test]
fn a_run_on_a_deleted_model_is_answered_all_the_same() {
    let mut state = holding(1);
    let model = state.insert(new_model("m")).unwrap();
    let x = rows(&[&[1., 2.]]);
    let y = rows(&[&[5.]]);
    let outcome = || TrainOutcome { loss_history: vec![number(2.), number(1.)], weights: weights() };
    let plan = |model: &StoredModel| {
        routes::plan_training(model, run(), false, &x, &y, &Limits::default()).unwrap()
    };

    // In the store, the run is written there, and nothing else changes.
    let mut deleted = None;
    let response =
        routes::train_checked(&mut state, &mut deleted, plan(&model), outcome(), None, 8, 1).unwrap();
    assert_eq!(response.trained_epochs, 3);
    assert_eq!(state.handle(model.id).unwrap().trained_epochs, 3);
    assert!(deleted.is_none());

    // Deleted in between, it is written to the model the request had found.
    let mut deleted = state.take(model.id);
    let response =
        routes::train(&mut state, &mut deleted, plan(&model), outcome(), None, 9, 1).unwrap();
    assert_eq!((response.id, response.trained_epochs), (model.id, 6));
    assert_eq!(state.count(), 0);
    assert_eq!(deleted.unwrap().trained_epochs, 6);
}

#[test]
fn what_the_engine_returns_is_tested_before_it_is_kept() {
    let mut state = holding(1);
    let model = state.insert(new_model("m")).unwrap();
    let x = rows(&[&[1., 2.]]);
    let y = rows(&[&[5.]]);
    let plan = || routes::plan_training(&model, run(), true, &x, &y, &Limits::default()).unwrap();
    let good = || TrainOutcome { loss_history: vec![number(1.)], weights: weights() };
    let fault = "the run does not fit the model it was made on";

    let bare = TrainOutcome { loss_history: vec![number(1.)], weights: vec![] };
    let error = routes::train_checked(&mut state, &mut None, plan(), bare, None, 9, 1).unwrap_err();
    assert_eq!((error.status(), error.message()), (500, fault));
    let error =
        routes::train_checked(&mut state, &mut None, plan(), good(), Some(vec![1]), 9, 1).unwrap_err();
    assert_eq!((error.status(), error.message()), (500, fault));
    assert_eq!(state.handle(model.id).unwrap().trained_epochs, 0);
    let run = routes::train_checked(&mut state, &mut None, plan(), good(), Some(vec![3, 0, 5]), 9, 1);
    assert_eq!(run.unwrap().ten_power_ratios, Some(vec![3, 0, 5]));

    let mut state = holding(1);
    let other = describe(BuiltModel { total_params: 14, ..built() });
    let error = routes::create_model_checked(&mut state, new_model("m"), other).unwrap_err();
    assert_eq!(error.message(), "the engine built another model than it was told to");
    assert_eq!(state.count(), 0);
    assert!(routes::create_model_checked(&mut state, new_model("m"), describe(built())).is_ok());
}

#[test]
fn a_plan_has_an_epoch_at_least() {
    let limits = Limits { max_epochs: 2, ..Limits::default() };
    let error = routes::plan_training(&stored(), run(), false, &vec![], &vec![], &limits).unwrap_err();
    assert_eq!(error.message(), "'epochs' must be between 1 and 2, got 3");
}

#[test]
fn epochs_are_checked_before_anything_is_read() {
    let limits = Limits { max_epochs: 10, ..Limits::default() };
    assert!(routes::check_epochs(1, &limits).is_ok() && routes::check_epochs(10, &limits).is_ok());
    for (epochs, text) in [(0, "0"), (11, "11")] {
        assert_eq!(
            routes::check_epochs(epochs, &limits).unwrap_err().message(),
            format!("'epochs' must be between 1 and 10, got {text}")
        );
    }
}

// -------------------------------------------------------------------- the rest

#[test]
fn file_names_are_made_safe() {
    for (name, file) in [
        ("xor", "xor"),
        ("a b/c\\d\"e", "a_b_c_d_e"),
        ("..hidden..", "hidden"),
        ("...", "model"),
        ("", "model"),
        ("v1.2-final_x", "v1.2-final_x"),
        ("häuser\r\n", "h_user__"),
        (".x.", "x"),
    ] {
        assert_eq!(routes::file_name_of(name), file, "{name}");
    }
    assert_eq!(routes::file_name_of(&"a".repeat(100)), "a".repeat(64));
    assert_eq!(routes::file_name_of(&format!("{}.tail", "a".repeat(63))), format!("{}.", "a".repeat(63)));
    assert_eq!(routes::content_disposition("..."), "attachment; filename=\"model.onnx\"");
}

#[test]
fn scaling_wants_one_target_per_row() {
    let request = |x: &[&[f64]], y: &[&[f64]]| rust_nn_api::dto::ScaleRequest { x: rows(x), y: rows(y) };
    let limits = Limits { max_samples: 2, ..Limits::default() };
    let said = |request: rust_nn_api::dto::ScaleRequest| {
        String::from(routes::scale(&request, &limits).unwrap_err().message())
    };

    assert!(routes::scale(&request(&[&[1., 2.]], &[&[3.]]), &limits).is_ok());
    assert_eq!(said(request(&[], &[])), "'x' has no samples");
    assert_eq!(said(request(&[&[1.], &[1.], &[1.]], &[&[1.], &[1.], &[1.]])), "'x' has 3 samples, the limit is 2");
    assert_eq!(said(request(&[&[1.], &[1.]], &[&[1.]])), "'x' has 2 rows but 'y' has 1");
    assert_eq!(
        said(request(&[&[1.], &[1.]], &[&[1.], &[1., 2.]])),
        "'y' must have exactly one column, but row 1 has 2"
    );
    assert_eq!(
        said(request(&[&[1.], &[1., 2.]], &[&[1.], &[1.]])),
        "'x' must be rectangular: row 0 has 1 values but row 1 has 2"
    );
}

#[test]
fn a_prediction_without_rows_has_no_columns() {
    let none = routes::prediction_response(1, vec![]);
    assert_eq!((none.rows, none.columns), (0, 0));
    let some = routes::prediction_response(1, rows(&[&[1., 2.], &[3., 4.], &[5., 6.]]));
    assert_eq!((some.rows, some.columns), (3, 2));
}
