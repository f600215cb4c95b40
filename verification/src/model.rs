//! What the server keeps about a model.
//!
//! A model is stored as plain data, the architecture and the weights, and the
//! engine is rebuilt from it for every piece of work. A client can save the
//! data and hand it back later.

use vstd::prelude::*;

use crate::ids::{new_uuid, version_4};
use crate::number::{copy_row, copy_rows, rows_view, Number};
use crate::text::{blank, same};

verus! {

// ----------------------------------------------------------------- choices

/// Keras' activations.
#[derive(Clone, Copy, Debug, PartialEq, Eq, Structural)]
pub enum ActivationKind {
    Relu,
    Sigmoid,
    Linear,
}

/// The losses the engine implements.
#[derive(Clone, Copy, Debug, PartialEq, Eq, Structural)]
pub enum LossKind {
    BinaryCrossentropy,
    MeanSquaredError,
}

/// The optimizers the engine implements.
#[derive(Clone, Copy, Debug, PartialEq, Eq, Structural)]
pub enum OptimizerKind {
    Sgd,
    Adam,
}

impl ActivationKind {
    /// The name this activation is written with.
    pub open spec fn spelled(self) -> Seq<char> {
        match self {
            ActivationKind::Relu => "relu"@,
            ActivationKind::Sigmoid => "sigmoid"@,
            ActivationKind::Linear => "linear"@,
        }
    }

    /// The activation a client means by `name`, other spellings included.
    pub open spec fn named(name: Seq<char>) -> Option<ActivationKind> {
        if name == "relu"@ || name == "ReLU"@ || name == "RELU"@ || name == "ReLu"@ {
            Some(ActivationKind::Relu)
        } else if name == "sigmoid"@ || name == "Sigmoid"@ {
            Some(ActivationKind::Sigmoid)
        } else if name == "linear"@ || name == "Linear"@ || name == "identity"@ || name == "none"@ {
            Some(ActivationKind::Linear)
        } else {
            None
        }
    }

    /// The name this activation is written with.
    pub fn name(self) -> (name: &'static str)
        ensures
            name@ == self.spelled(),
    {
        match self {
            ActivationKind::Relu => "relu",
            ActivationKind::Sigmoid => "sigmoid",
            ActivationKind::Linear => "linear",
        }
    }

    /// The activation a client means by `name`, if there is one.
    pub fn from_name(name: &str) -> (kind: Option<Self>)
        ensures
            kind == Self::named(name@),
    {
        if same(name, "relu") || same(name, "ReLU") || same(name, "RELU") || same(name, "ReLu") {
            Some(ActivationKind::Relu)
        } else if same(name, "sigmoid") || same(name, "Sigmoid") {
            Some(ActivationKind::Sigmoid)
        } else if same(name, "linear") || same(name, "Linear") || same(name, "identity") || same(
            name,
            "none",
        ) {
            Some(ActivationKind::Linear)
        } else {
            None
        }
    }

    /// An activation written by its name is read back as itself.
    pub proof fn name_is_read_back(self)
        ensures
            Self::named(self.spelled()) == Some(self),
    {
        reveal_strlit("relu");
        reveal_strlit("ReLU");
        reveal_strlit("RELU");
        reveal_strlit("ReLu");
        reveal_strlit("sigmoid");
        reveal_strlit("Sigmoid");
        reveal_strlit("linear");
        assert("linear"@.len() == 6 && "sigmoid"@.len() == 7 && "relu"@.len() == 4);
        assert("ReLU"@.len() == 4 && "RELU"@.len() == 4 && "ReLu"@.len() == 4);
    }
}

impl LossKind {
    /// The name this loss is written with.
    pub open spec fn spelled(self) -> Seq<char> {
        match self {
            LossKind::BinaryCrossentropy => "binary_crossentropy"@,
            LossKind::MeanSquaredError => "mean_squared_error"@,
        }
    }

    /// The loss a client means by `name`, other spellings included.
    pub open spec fn named(name: Seq<char>) -> Option<LossKind> {
        if name == "binary_crossentropy"@ || name == "bce"@ || name == "BinaryCrossentropy"@ || name
            == "binary_cross_entropy"@ {
            Some(LossKind::BinaryCrossentropy)
        } else if name == "mean_squared_error"@ || name == "mse"@ || name == "MeanSquaredError"@
            || name == "mean_square_error"@ {
            Some(LossKind::MeanSquaredError)
        } else {
            None
        }
    }

    /// The name this loss is written with.
    pub fn name(self) -> (name: &'static str)
        ensures
            name@ == self.spelled(),
    {
        match self {
            LossKind::BinaryCrossentropy => "binary_crossentropy",
            LossKind::MeanSquaredError => "mean_squared_error",
        }
    }

    /// The loss a client means by `name`, if there is one.
    pub fn from_name(name: &str) -> (kind: Option<Self>)
        ensures
            kind == Self::named(name@),
    {
        if same(name, "binary_crossentropy") || same(name, "bce") || same(name, "BinaryCrossentropy")
            || same(name, "binary_cross_entropy") {
            Some(LossKind::BinaryCrossentropy)
        } else if same(name, "mean_squared_error") || same(name, "mse") || same(
            name,
            "MeanSquaredError",
        ) || same(name, "mean_square_error") {
            Some(LossKind::MeanSquaredError)
        } else {
            None
        }
    }

    /// A loss written by its name is read back as itself.
    pub proof fn name_is_read_back(self)
        ensures
            Self::named(self.spelled()) == Some(self),
    {
        reveal_strlit("binary_crossentropy");
        reveal_strlit("bce");
        reveal_strlit("BinaryCrossentropy");
        reveal_strlit("binary_cross_entropy");
        reveal_strlit("mean_squared_error");
        assert("mean_squared_error"@[0] == 'm' && "binary_crossentropy"@[0] == 'b' && "bce"@[0]
            == 'b' && "BinaryCrossentropy"@[0] == 'B' && "binary_cross_entropy"@[0] == 'b');
    }
}

impl OptimizerKind {
    /// The name this optimizer is written with.
    pub open spec fn spelled(self) -> Seq<char> {
        match self {
            OptimizerKind::Sgd => "sgd"@,
            OptimizerKind::Adam => "adam"@,
        }
    }

    /// The optimizer a client means by `name`, other spellings included.
    pub open spec fn named(name: Seq<char>) -> Option<OptimizerKind> {
        if name == "sgd"@ || name == "SGD"@ || name == "gradient_descent"@ {
            Some(OptimizerKind::Sgd)
        } else if name == "adam"@ || name == "Adam"@ || name == "ADAM"@ {
            Some(OptimizerKind::Adam)
        } else {
            None
        }
    }

    /// The rate an optimizer runs with when none is asked for: the encodings
    /// of 0.01 for SGD and 0.001 for Adam, Keras' own defaults.
    pub open spec fn default_rate(self) -> Number {
        match self {
            OptimizerKind::Sgd => Number { bits: 0x3f84_7ae1_47ae_147b },
            OptimizerKind::Adam => Number { bits: 0x3f50_624d_d2f1_a9fc },
        }
    }

    /// The name this optimizer is written with.
    pub fn name(self) -> (name: &'static str)
        ensures
            name@ == self.spelled(),
    {
        match self {
            OptimizerKind::Sgd => "sgd",
            OptimizerKind::Adam => "adam",
        }
    }

    /// The optimizer a client means by `name`, if there is one.
    pub fn from_name(name: &str) -> (kind: Option<Self>)
        ensures
            kind == Self::named(name@),
    {
        if same(name, "sgd") || same(name, "SGD") || same(name, "gradient_descent") {
            Some(OptimizerKind::Sgd)
        } else if same(name, "adam") || same(name, "Adam") || same(name, "ADAM") {
            Some(OptimizerKind::Adam)
        } else {
            None
        }
    }

    /// An optimizer written by its name is read back as itself.
    pub proof fn name_is_read_back(self)
        ensures
            Self::named(self.spelled()) == Some(self),
    {
        reveal_strlit("sgd");
        reveal_strlit("SGD");
        reveal_strlit("gradient_descent");
        reveal_strlit("adam");
        assert("adam"@[0] == 'a' && "sgd"@[0] == 's' && "SGD"@[0] == 'S' && "gradient_descent"@[0]
            == 'g');
    }

    /// What the engine's own defaults use, so the rate in use can be reported.
    pub fn default_learning_rate(self) -> (rate: Number)
        ensures
            rate == self.default_rate(),
            rate.positive(),
    {
        match self {
            OptimizerKind::Sgd => Number { bits: 0x3f84_7ae1_47ae_147b },
            OptimizerKind::Adam => Number { bits: 0x3f50_624d_d2f1_a9fc },
        }
    }
}

/// An optimizer with its learning rate resolved.
#[derive(Clone, Copy, Debug, PartialEq, Eq, Structural)]
pub struct OptimizerConfig {
    pub kind: OptimizerKind,
    pub learning_rate: Number,
}

// ------------------------------------------------------------ architecture

/// One dense layer. The name is always filled in, so weights can be matched
/// to layers by name in both directions.
#[derive(Debug)]
pub struct LayerSpec {
    pub name: String,
    pub units: usize,
    pub activation: ActivationKind,
}

/// A [`LayerSpec`] as a value.
#[verifier::ext_equal]
pub struct LayerSpecView {
    pub name: Seq<char>,
    pub units: usize,
    pub activation: ActivationKind,
}

impl View for LayerSpec {
    type V = LayerSpecView;

    open spec fn view(&self) -> LayerSpecView {
        LayerSpecView { name: self.name@, units: self.units, activation: self.activation }
    }
}

impl Clone for LayerSpec {
    fn clone(&self) -> (copy: Self)
        ensures
            copy@ == self@,
    {
        LayerSpec { name: self.name.clone(), units: self.units, activation: self.activation }
    }
}

/// Layers taken by their views.
pub open spec fn layers_view(layers: Seq<LayerSpec>) -> Seq<LayerSpecView> {
    layers.map_values(|layer: LayerSpec| layer@)
}

/// Everything needed to rebuild a model, minus the weights.
#[derive(Debug)]
pub struct ModelSpec {
    /// Keras' `Input(shape=(features,))`: columns per sample.
    pub features: usize,
    pub layers: Vec<LayerSpec>,
    /// Training and evaluating need it, predicting does not.
    pub loss: Option<LossKind>,
    pub optimizer: Option<OptimizerConfig>,
    /// Makes the initial weights and the batch order reproducible.
    pub seed: u64,
}

/// A [`ModelSpec`] as a value.
#[verifier::ext_equal]
pub struct ModelSpecView {
    pub features: usize,
    pub layers: Seq<LayerSpecView>,
    pub loss: Option<LossKind>,
    pub optimizer: Option<OptimizerConfig>,
    pub seed: u64,
}

impl View for ModelSpec {
    type V = ModelSpecView;

    open spec fn view(&self) -> ModelSpecView {
        ModelSpecView {
            features: self.features,
            layers: layers_view(self.layers@),
            loss: self.loss,
            optimizer: self.optimizer,
            seed: self.seed,
        }
    }
}

/// The first place from `from` on where a layer called `name` stands.
pub open spec fn layer_position(layers: Seq<LayerSpecView>, name: Seq<char>, from: int) -> Option<
    int,
>
    decreases layers.len() - from,
{
    if from < 0 || from >= layers.len() {
        None
    } else if layers[from].name == name {
        Some(from)
    } else {
        layer_position(layers, name, from + 1)
    }
}

/// A position that is found is in range, carries the name, and is the first
/// to do so; one that is not found means no layer carries it.
pub proof fn layer_position_is_first(layers: Seq<LayerSpecView>, name: Seq<char>, from: int)
    requires
        0 <= from,
    ensures
        match layer_position(layers, name, from) {
            Some(index) => {
                &&& from <= index < layers.len()
                &&& layers[index].name == name
                &&& forall|j: int| from <= j < index ==> (#[trigger] layers[j]).name != name
            },
            None => forall|j: int| from <= j < layers.len() ==> (#[trigger] layers[j]).name != name,
        },
    decreases layers.len() - from,
{
    if from < layers.len() && layers[from].name != name {
        layer_position_is_first(layers, name, from + 1);
    }
}

impl ModelSpecView {
    /// How many inputs the layer at `index` takes.
    pub open spec fn input_count(self, index: int) -> usize {
        if index == 0 {
            self.features
        } else {
            self.layers[index - 1].units
        }
    }

    /// The units of the last layer.
    pub open spec fn output_units(self) -> usize {
        if self.layers.len() == 0 {
            0
        } else {
            self.layers.last().units
        }
    }

    /// The weights and biases of the layer at `index`.
    pub open spec fn layer_params(self, index: int) -> nat {
        (self.input_count(index) * self.layers[index].units + self.layers[index].units) as nat
    }

    /// The weights and biases of the first `count` layers.
    pub open spec fn params_of_first(self, count: nat) -> nat
        decreases count,
    {
        if count == 0 {
            0
        } else {
            self.params_of_first((count - 1) as nat) + self.layer_params(count - 1)
        }
    }

    /// Keras' `count_params()`.
    pub open spec fn params(self) -> nat {
        self.params_of_first(self.layers.len())
    }

    /// No two layers share a name.
    pub open spec fn names_differ(self) -> bool {
        forall|i: int, j: int|
            0 <= i < j < self.layers.len() ==> (#[trigger] self.layers[i]).name
                != (#[trigger] self.layers[j]).name
    }

    /// The place of the layer called `name`.
    pub open spec fn index_of(self, name: Seq<char>) -> Option<int> {
        layer_position(self.layers, name, 0)
    }

    /// A spec that can be built: there is something to run in every layer, and
    /// the layers have names to tell them apart by.
    pub open spec fn buildable(self) -> bool {
        &&& self.features > 0
        &&& self.layers.len() > 0
        &&& self.names_differ()
        &&& forall|i: int|
            0 <= i < self.layers.len() ==> (#[trigger] self.layers[i]).units > 0 && !blank(
                self.layers[i].name,
            )
    }

    /// A spec that can be stored: one that can be built, with as many
    /// parameters as can be counted.
    pub open spec fn wf(self) -> bool {
        &&& self.buildable()
        &&& self.params() <= usize::MAX
    }

    /// More layers never means fewer parameters.
    pub proof fn params_grow(self, fewer: nat, more: nat)
        requires
            fewer <= more,
        ensures
            self.params_of_first(fewer) <= self.params_of_first(more),
        decreases more,
    {
        if fewer < more {
            self.params_grow(fewer, (more - 1) as nat);
        }
    }

    /// A layer's parameters are its inputs times its units, and its units.
    pub proof fn layer_params_add_up(self, index: int)
        ensures
            0 <= self.input_count(index) * self.layers[index].units,
            self.layer_params(index) == self.input_count(index) * self.layers[index].units
                + self.layers[index].units,
    {
        let inputs = self.input_count(index);
        let units = self.layers[index].units;
        assert(0 <= inputs * units) by (nonlinear_arith)
            requires
                0 <= inputs,
                0 <= units,
        ;
    }

    /// Where names differ, the place found for a layer's name is that layer's.
    pub proof fn each_layer_is_found(self, index: int)
        requires
            self.names_differ(),
            0 <= index < self.layers.len(),
        ensures
            self.index_of(self.layers[index].name) == Some(index),
    {
        let name = self.layers[index].name;
        layer_position_is_first(self.layers, name, 0);
        match self.index_of(name) {
            Some(found) => {
                if found < index {
                    assert(self.layers[found].name != self.layers[index].name);
                }
                if found > index {
                    assert(self.layers[index].name != name);
                }
            },
            None => {
                assert(self.layers[index].name != name);
            },
        }
    }
}

impl ModelSpec {
    /// How many inputs the layer at `index` takes: the features for the first
    /// layer, the previous layer's units for the rest.
    pub fn input_count(&self, index: usize) -> (count: usize)
        requires
            index <= self.layers@.len(),
        ensures
            count == self@.input_count(index as int),
    {
        if index == 0 {
            self.features
        } else {
            self.layers[index - 1].units
        }
    }

    /// The units of the last layer, the columns every target row needs.
    pub fn output_units(&self) -> (units: usize)
        ensures
            units == self@.output_units(),
    {
        if self.layers.len() == 0 {
            0
        } else {
            self.layers[self.layers.len() - 1].units
        }
    }

    /// Keras' `count_params()`, straight from the shapes: every layer
    /// contributes its inputs times its units in weights, and its units in
    /// biases.
    pub fn total_params(&self) -> (total: usize)
        requires
            self@.params() <= usize::MAX,
        ensures
            total == self@.params(),
    {
        let mut total: usize = 0;
        let mut index: usize = 0;
        while index < self.layers.len()
            invariant
                index <= self.layers@.len(),
                total == self@.params_of_first(index as nat),
                self@.params() <= usize::MAX,
            decreases self.layers@.len() - index,
        {
            let units = self.layers[index].units;
            let inputs = self.input_count(index);
            proof {
                self@.params_grow((index + 1) as nat, self@.layers.len());
                self@.layer_params_add_up(index as int);
            }
            total = total + (inputs * units + units);
            index += 1;
        }
        total
    }

    /// The same count where it can be counted at all: `None` when the layers
    /// have more parameters than a machine word can tell.
    pub fn counted_params(&self) -> (total: Option<usize>)
        ensures
            match total {
                Some(total) => total == self@.params(),
                None => self@.params() > usize::MAX,
            },
    {
        let mut total: usize = 0;
        let mut index: usize = 0;
        while index < self.layers.len()
            invariant
                index <= self.layers@.len(),
                total == self@.params_of_first(index as nat),
            decreases self.layers@.len() - index,
        {
            let units = self.layers[index].units;
            let inputs = self.input_count(index);
            proof {
                self@.params_grow((index + 1) as nat, self@.layers.len());
                self@.layer_params_add_up(index as int);
            }
            let weights: usize = match inputs.checked_mul(units) {
                Some(weights) => weights,
                None => return None,
            };
            let params: usize = match weights.checked_add(units) {
                Some(params) => params,
                None => return None,
            };
            total = match total.checked_add(params) {
                Some(total) => total,
                None => return None,
            };
            index += 1;
        }
        Some(total)
    }

    /// The place of the layer called `name`.
    pub fn layer_index(&self, name: &str) -> (index: Option<usize>)
        ensures
            match index {
                Some(index) => self@.index_of(name@) == Some(index as int),
                None => self@.index_of(name@) is None,
            },
            index matches Some(index) ==> index < self.layers@.len(),
    {
        let mut index: usize = 0;
        while index < self.layers.len()
            invariant
                index <= self.layers@.len(),
                self@.index_of(name@) == layer_position(self@.layers, name@, index as int),
            decreases self.layers@.len() - index,
        {
            if same(self.layers[index].name.as_str(), name) {
                return Some(index);
            }
            index += 1;
        }
        None
    }
}

impl Clone for ModelSpec {
    fn clone(&self) -> (copy: Self)
        ensures
            copy@ == self@,
    {
        let layers = self.layers.clone();
        assert(layers_view(layers@) =~= layers_view(self.layers@));
        ModelSpec {
            features: self.features,
            layers,
            loss: self.loss,
            optimizer: self.optimizer,
            seed: self.seed,
        }
    }
}

// ----------------------------------------------------------------- weights

/// Keras' `get_weights()` for one layer.
#[derive(Debug)]
pub struct LayerWeights {
    pub name: String,
    /// One row per input, of one value per unit.
    pub weights: Vec<Vec<Number>>,
    /// One bias per unit.
    pub bias: Vec<Number>,
}

/// A [`LayerWeights`] as a value.
#[verifier::ext_equal]
pub struct LayerWeightsView {
    pub name: Seq<char>,
    pub weights: Seq<Seq<Number>>,
    pub bias: Seq<Number>,
}

impl View for LayerWeights {
    type V = LayerWeightsView;

    open spec fn view(&self) -> LayerWeightsView {
        LayerWeightsView {
            name: self.name@,
            weights: rows_view(self.weights@),
            bias: self.bias@,
        }
    }
}

impl Clone for LayerWeights {
    fn clone(&self) -> (copy: Self)
        ensures
            copy@ == self@,
    {
        LayerWeights {
            name: self.name.clone(),
            weights: copy_rows(&self.weights),
            bias: copy_row(&self.bias),
        }
    }
}

/// Weights taken by their views.
pub open spec fn weights_view(weights: Seq<LayerWeights>) -> Seq<LayerWeightsView> {
    weights.map_values(|layer: LayerWeights| layer@)
}

/// A copy of the weights of several layers.
pub fn copy_weights(weights: &Vec<LayerWeights>) -> (copy: Vec<LayerWeights>)
    ensures
        weights_view(copy@) == weights_view(weights@),
{
    let copy = weights.clone();
    assert(weights_view(copy@) =~= weights_view(weights@));
    copy
}

/// A matrix of `rows` rows and `columns` columns.
pub open spec fn shaped(matrix: Seq<Seq<Number>>, rows: int, columns: int) -> bool {
    &&& matrix.len() == rows
    &&& forall|i: int| 0 <= i < matrix.len() ==> (#[trigger] matrix[i]).len() == columns
}

impl LayerWeightsView {
    /// W is `inputs` x `units` and b has one value per unit.
    pub open spec fn fits(self, inputs: int, units: int) -> bool {
        &&& shaped(self.weights, inputs, units)
        &&& self.bias.len() == units
    }

    /// None of the values is infinite or a NaN.
    pub open spec fn finite(self) -> bool {
        &&& forall|i: int, j: int|
            0 <= i < self.weights.len() && 0 <= j < self.weights[i].len() ==> (
            #[trigger] self.weights[i][j]).finite()
        &&& forall|j: int| 0 <= j < self.bias.len() ==> (#[trigger] self.bias[j]).finite()
    }
}

/// One entry for every layer, in the order the layers run, in the layer's own
/// shape and under its own name.
pub open spec fn complete(spec: ModelSpecView, weights: Seq<LayerWeightsView>) -> bool {
    &&& weights.len() == spec.layers.len()
    &&& forall|i: int|
        0 <= i < weights.len() ==> {
            &&& (#[trigger] weights[i]).name == spec.layers[i].name
            &&& weights[i].fits(spec.input_count(i) as int, spec.layers[i].units as int)
        }
}

/// Whether every row of `matrix` is `columns` wide, and there are `rows` of
/// them.
pub fn is_shaped(matrix: &Vec<Vec<Number>>, rows: usize, columns: usize) -> (result: bool)
    ensures
        result == shaped(rows_view(matrix@), rows as int, columns as int),
{
    if matrix.len() != rows {
        return false;
    }
    let mut index: usize = 0;
    while index < matrix.len()
        invariant
            index <= matrix@.len(),
            forall|i: int|
                0 <= i < index ==> (#[trigger] rows_view(matrix@)[i]).len() == columns,
        decreases matrix@.len() - index,
    {
        assert(rows_view(matrix@)[index as int] == matrix@[index as int]@);
        if matrix[index].len() != columns {
            return false;
        }
        index += 1;
    }
    true
}

/// Whether `weights` has what every layer of `spec` needs.
pub fn is_complete(spec: &ModelSpec, weights: &Vec<LayerWeights>) -> (result: bool)
    ensures
        result == complete(spec@, weights_view(weights@)),
{
    if weights.len() != spec.layers.len() {
        return false;
    }
    let mut index: usize = 0;
    while index < weights.len()
        invariant
            index <= weights@.len(),
            weights@.len() == spec.layers@.len(),
            forall|i: int|
                0 <= i < index ==> {
                    &&& (#[trigger] weights_view(weights@)[i]).name == spec@.layers[i].name
                    &&& weights_view(weights@)[i].fits(
                        spec@.input_count(i) as int,
                        spec@.layers[i].units as int,
                    )
                },
        decreases weights@.len() - index,
    {
        let layer = &weights[index];
        let units = spec.layers[index].units;
        let inputs = spec.input_count(index);
        assert(weights_view(weights@)[index as int] == layer@);
        if !same(layer.name.as_str(), spec.layers[index].name.as_str()) || !is_shaped(
            &layer.weights,
            inputs,
            units,
        ) || layer.bias.len() != units {
            return false;
        }
        index += 1;
    }
    true
}

// ------------------------------------------------------------------ models

/// A model as the store holds it.
#[derive(Debug)]
pub struct StoredModel {
    pub id: u128,
    pub name: String,
    pub spec: ModelSpec,
    pub weights: Vec<LayerWeights>,
    /// Samples per gradient step, used whenever a train request leaves it out.
    pub batch_size: usize,
    pub created_at_ms: u64,
    pub updated_at_ms: u64,
    /// Epochs run over this model's whole life, summed over every train call.
    pub trained_epochs: usize,
    /// The last epoch's loss of the last train call.
    pub last_loss: Option<Number>,
    /// The power of ten each column was divided by in the last column-scaled
    /// training run: one per feature, then the target's.
    pub ten_power_ratios: Option<Vec<usize>>,
}

/// A [`StoredModel`] as a value.
#[verifier::ext_equal]
pub struct StoredModelView {
    pub id: u128,
    pub name: Seq<char>,
    pub spec: ModelSpecView,
    pub weights: Seq<LayerWeightsView>,
    pub batch_size: usize,
    pub created_at_ms: u64,
    pub updated_at_ms: u64,
    pub trained_epochs: usize,
    pub last_loss: Option<Number>,
    pub ten_power_ratios: Option<Seq<usize>>,
}

/// Ratios taken by their view.
pub open spec fn ratios_view(ratios: Option<Vec<usize>>) -> Option<Seq<usize>> {
    match ratios {
        Some(ratios) => Some(ratios@),
        None => None,
    }
}

impl View for StoredModel {
    type V = StoredModelView;

    open spec fn view(&self) -> StoredModelView {
        StoredModelView {
            id: self.id,
            name: self.name@,
            spec: self.spec@,
            weights: weights_view(self.weights@),
            batch_size: self.batch_size,
            created_at_ms: self.created_at_ms,
            updated_at_ms: self.updated_at_ms,
            trained_epochs: self.trained_epochs,
            last_loss: self.last_loss,
            ten_power_ratios: ratios_view(self.ten_power_ratios),
        }
    }
}

impl StoredModelView {
    /// What holds of every model in the store: its spec can be rebuilt, every
    /// layer has its weights, and the ratios of a column-scaled run name one
    /// power for each feature and one for the only output.
    pub open spec fn wf(self) -> bool {
        &&& self.spec.wf()
        &&& complete(self.spec, self.weights)
        &&& self.batch_size > 0
        &&& self.ten_power_ratios matches Some(ratios) ==> ratios_fit(self.spec, ratios)
    }
}

/// One power for each feature and one for the only output, all of them
/// exponents the engine can raise ten to.
pub open spec fn ratios_fit(spec: ModelSpecView, ratios: Seq<usize>) -> bool {
    &&& ratios.len() == spec.features + 1
    &&& spec.output_units() == 1
    &&& forall|i: int| 0 <= i < ratios.len() ==> #[trigger] ratios[i] <= i32::MAX
}

/// Whether `ratios` can be kept with a model of this spec.
pub fn do_ratios_fit(spec: &ModelSpec, ratios: &Vec<usize>) -> (result: bool)
    ensures
        result == ratios_fit(spec@, ratios@),
{
    if ratios.len() == 0 || ratios.len() - 1 != spec.features || spec.output_units() != 1 {
        return false;
    }
    let mut index: usize = 0;
    while index < ratios.len()
        invariant
            index <= ratios@.len(),
            forall|i: int| 0 <= i < index ==> #[trigger] ratios@[i] <= i32::MAX,
        decreases ratios@.len() - index,
    {
        if ratios[index] > 0x7fff_ffff {
            return false;
        }
        index += 1;
    }
    true
}

/// A copy of the ratios.
pub fn copy_ratios(ratios: &Option<Vec<usize>>) -> (copy: Option<Vec<usize>>)
    ensures
        ratios_view(copy) == ratios_view(*ratios),
{
    match ratios {
        Some(ratios) => {
            let copy = ratios.clone();
            assert(copy@ =~= ratios@);
            Some(copy)
        },
        None => None,
    }
}

impl Clone for StoredModel {
    fn clone(&self) -> (copy: Self)
        ensures
            copy@ == self@,
    {
        StoredModel {
            id: self.id,
            name: self.name.clone(),
            spec: self.spec.clone(),
            weights: copy_weights(&self.weights),
            batch_size: self.batch_size,
            created_at_ms: self.created_at_ms,
            updated_at_ms: self.updated_at_ms,
            trained_epochs: self.trained_epochs,
            last_loss: self.last_loss,
            ten_power_ratios: copy_ratios(&self.ten_power_ratios),
        }
    }
}

/// Everything a new model is made of, before the store gives it an id.
#[derive(Debug)]
pub struct NewModel {
    pub name: String,
    pub spec: ModelSpec,
    pub weights: Vec<LayerWeights>,
    pub batch_size: usize,
}

/// A [`NewModel`] as a value.
#[verifier::ext_equal]
pub struct NewModelView {
    pub name: Seq<char>,
    pub spec: ModelSpecView,
    pub weights: Seq<LayerWeightsView>,
    pub batch_size: usize,
}

impl View for NewModel {
    type V = NewModelView;

    open spec fn view(&self) -> NewModelView {
        NewModelView {
            name: self.name@,
            spec: self.spec@,
            weights: weights_view(self.weights@),
            batch_size: self.batch_size,
        }
    }
}

// ------------------------------------------------------------------- seeds

/// The last `count` bytes of `value`, most significant first.
pub open spec fn bytes_of(value: nat, count: nat) -> Seq<u8>
    decreases count,
{
    if count == 0 {
        Seq::empty()
    } else {
        bytes_of(value / 0x100, (count - 1) as nat).push((value % 0x100) as u8)
    }
}

/// The number that bytes spell, least significant first.
pub open spec fn little_endian(bytes: Seq<u8>) -> nat
    decreases bytes.len(),
{
    if bytes.len() == 0 {
        0
    } else {
        bytes.first() as nat + 0x100 * little_endian(bytes.drop_first())
    }
}

/// The seed a random id gives: the first eight of its sixteen bytes and the
/// last eight, each read least significant first, folded together.
pub open spec fn seed_of(id: u128) -> u64 {
    let bytes = bytes_of(id as nat, 16);
    (little_endian(bytes.take(8)) as u64) ^ (little_endian(bytes.skip(8)) as u64)
}

/// There are as many bytes as were asked for.
proof fn bytes_are_counted(value: nat, count: nat)
    ensures
        bytes_of(value, count).len() == count,
    decreases count,
{
    if count > 0 {
        bytes_are_counted(value / 0x100, (count - 1) as nat);
    }
}

/// The first eight of sixteen bytes are those above the last eight, and the
/// last eight do not depend on the rest.
proof fn bytes_are_halved(id: u128)
    ensures
        bytes_of(id as nat, 16).take(8) == bytes_of(id as nat / 0x1_0000_0000_0000_0000, 8),
        bytes_of(id as nat, 16).skip(8) == bytes_of(id as nat, 8),
{
    reveal_with_fuel(bytes_of, 9);
    let high = id as nat / 0x1_0000_0000_0000_0000;
    bytes_are_counted(high, 8);
    bytes_are_counted(id as nat, 8);
    bytes_are_counted(id as nat, 16);
    assert(id as nat / 0x100 / 0x100 / 0x100 / 0x100 / 0x100 / 0x100 / 0x100 / 0x100 == high);
    assert(bytes_of(id as nat, 16).take(8) =~= bytes_of(high, 8));
    assert(bytes_of(id as nat, 16).skip(8) =~= bytes_of(id as nat, 8));
}

/// 256 to the power of `count`.
spec fn byte_range(count: nat) -> nat
    decreases count,
{
    if count == 0 {
        1
    } else {
        0x100 * byte_range((count - 1) as nat)
    }
}

/// The last eight bytes of an id as a number, least significant first.
fn reverse_last_bytes(id: u128) -> (reversed: u64)
    ensures
        reversed == little_endian(bytes_of(id as nat, 8)),
{
    let ghost bytes = bytes_of(id as nat, 8);
    let mut rest: u128 = id;
    let mut reversed: u64 = 0;
    let mut taken: usize = 0;
    proof {
        bytes_are_counted(id as nat, 8);
        assert(bytes.take(8) =~= bytes);
    }
    while taken < 8
        invariant
            taken <= 8,
            bytes.len() == 8,
            bytes.take(8 - taken) == bytes_of(rest as nat, (8 - taken) as nat),
            reversed == little_endian(bytes.skip(8 - taken)),
            reversed < byte_range(taken as nat),
        decreases 8 - taken,
    {
        proof {
            reveal_with_fuel(byte_range, 9);
            let next = bytes.skip(8 - taken - 1);
            assert(bytes.take(8 - taken).last() == (rest as nat % 0x100) as u8);
            assert(next.first() == bytes.take(8 - taken).last());
            assert(next.drop_first() =~= bytes.skip(8 - taken));
            assert(bytes.take(8 - taken - 1) =~= bytes.take(8 - taken).drop_last());
            assert(bytes.take(8 - taken).drop_last() =~= bytes_of(
                rest as nat / 0x100,
                (8 - taken - 1) as nat,
            ));
        }
        reversed = reversed * 0x100 + (rest % 0x100) as u64;
        rest = rest / 0x100;
        taken += 1;
    }
    assert(bytes.skip(0) =~= bytes);
    reversed
}

/// The two halves of an id folded into one seed. Six bits of a random id are
/// its version and variant fields; the fold puts a random bit on each of them.
pub fn fold_id(id: u128) -> (seed: u64)
    ensures
        seed == seed_of(id),
{
    proof {
        bytes_are_halved(id);
    }
    reverse_last_bytes(id / 0x1_0000_0000_0000_0000) ^ reverse_last_bytes(id)
}

/// A seed from the operating system's randomness, for a request that did not
/// bring one of its own.
pub fn random_seed() -> (seed: u64)
    ensures
        exists|id: u128| #[trigger] version_4(id) && seed == seed_of(id),
{
    let id = new_uuid();
    fold_id(id)
}

// --------------------------------------------------------------------- laws

/// The first layer takes the features, every other one what the layer before
/// it gives, and the model gives what its last layer gives.
pub proof fn layers_are_chained(spec: ModelSpecView, index: int)
    requires
        0 <= index < spec.layers.len(),
    ensures
        spec.input_count(0) == spec.features,
        index > 0 ==> spec.input_count(index) == spec.layers[index - 1].units,
        spec.output_units() == spec.layers[spec.layers.len() - 1].units,
{
}

/// A model without layers has no parameters, and one more layer adds one weight
/// for each of its units and inputs and one bias for each of its units; what is
/// fed into it is what the last layer gave, or the features.
pub proof fn a_layer_adds_its_parameters(spec: ModelSpecView, layer: LayerSpecView)
    ensures
        ({
            let more = ModelSpecView { layers: spec.layers.push(layer), ..spec };
            let inputs = if spec.layers.len() == 0 {
                spec.features
            } else {
                spec.layers[spec.layers.len() - 1].units
            };
            &&& more.params() == spec.params() + (inputs + 1) * layer.units
            &&& more.output_units() == layer.units
            &&& more.layer_params(spec.layers.len() as int) == (inputs + 1) * layer.units
            &&& spec.layers.len() == 0 ==> spec.params() == 0
        }),
{
    let more = ModelSpecView { layers: spec.layers.push(layer), ..spec };
    let last = spec.layers.len() as int;
    let inputs = more.input_count(last);
    first_layers_agree(spec, more, spec.layers.len());
    more.layer_params_add_up(last);
    assert((inputs + 1) * layer.units == inputs * layer.units + layer.units) by (nonlinear_arith);
}

/// Layers behind the first `count` have no part in their parameters.
proof fn first_layers_agree(spec: ModelSpecView, more: ModelSpecView, count: nat)
    requires
        count <= spec.layers.len(),
        spec.layers.len() <= more.layers.len(),
        more.features == spec.features,
        forall|i: int| 0 <= i < spec.layers.len() ==> more.layers[i] == spec.layers[i],
    ensures
        more.params_of_first(count) == spec.params_of_first(count),
    decreases count,
{
    if count > 0 {
        first_layers_agree(spec, more, (count - 1) as nat);
        assert(more.layers[count - 1] == spec.layers[count - 1]);
        if count > 1 {
            assert(more.layers[count - 2] == spec.layers[count - 2]);
        }
    }
}

/// An activation is meant by its own name and by these others, and by nothing
/// else.
pub proof fn activations_go_by_these_names(name: Seq<char>)
    ensures
        ActivationKind::named(name) == Some(ActivationKind::Relu) <==> name == "relu"@ || name
            == "ReLU"@ || name == "RELU"@ || name == "ReLu"@,
        ActivationKind::named(name) == Some(ActivationKind::Sigmoid) <==> name == "sigmoid"@ || name
            == "Sigmoid"@,
        ActivationKind::named(name) == Some(ActivationKind::Linear) <==> name == "linear"@ || name
            == "Linear"@ || name == "identity"@ || name == "none"@,
        ActivationKind::Relu.spelled() == "relu"@,
        ActivationKind::Sigmoid.spelled() == "sigmoid"@,
        ActivationKind::Linear.spelled() == "linear"@,
{
    reveal_strlit("relu");
    reveal_strlit("ReLU");
    reveal_strlit("RELU");
    reveal_strlit("ReLu");
    reveal_strlit("sigmoid");
    reveal_strlit("Sigmoid");
    reveal_strlit("linear");
    reveal_strlit("Linear");
    reveal_strlit("identity");
    reveal_strlit("none");
    assert("relu"@.len() == 4 && "ReLU"@.len() == 4 && "RELU"@.len() == 4 && "ReLu"@.len() == 4);
    assert("sigmoid"@.len() == 7 && "Sigmoid"@.len() == 7);
    assert("linear"@.len() == 6 && "Linear"@.len() == 6 && "identity"@.len() == 8);
    assert("none"@[0] == 'n' && "relu"@[0] == 'r' && "ReLU"@[0] == 'R' && "RELU"@[0] == 'R'
        && "ReLu"@[0] == 'R');
}

/// A loss is meant by its own name and by these others, and by nothing else.
pub proof fn losses_go_by_these_names(name: Seq<char>)
    ensures
        LossKind::named(name) == Some(LossKind::BinaryCrossentropy) <==> name
            == "binary_crossentropy"@ || name == "bce"@ || name == "BinaryCrossentropy"@ || name
            == "binary_cross_entropy"@,
        LossKind::named(name) == Some(LossKind::MeanSquaredError) <==> name == "mean_squared_error"@
            || name == "mse"@ || name == "MeanSquaredError"@ || name == "mean_square_error"@,
        LossKind::BinaryCrossentropy.spelled() == "binary_crossentropy"@,
        LossKind::MeanSquaredError.spelled() == "mean_squared_error"@,
{
    reveal_strlit("binary_crossentropy");
    reveal_strlit("bce");
    reveal_strlit("BinaryCrossentropy");
    reveal_strlit("binary_cross_entropy");
    reveal_strlit("mean_squared_error");
    reveal_strlit("mse");
    reveal_strlit("MeanSquaredError");
    reveal_strlit("mean_square_error");
    assert("binary_crossentropy"@[0] == 'b' && "bce"@[0] == 'b' && "BinaryCrossentropy"@[0] == 'B'
        && "binary_cross_entropy"@[0] == 'b');
    assert("mean_squared_error"@[0] == 'm' && "mse"@[0] == 'm' && "MeanSquaredError"@[0] == 'M'
        && "mean_square_error"@[0] == 'm');
}

/// An optimizer is meant by its own name and by these others, and by nothing
/// else.
pub proof fn optimizers_go_by_these_names(name: Seq<char>)
    ensures
        OptimizerKind::named(name) == Some(OptimizerKind::Sgd) <==> name == "sgd"@ || name
            == "SGD"@ || name == "gradient_descent"@,
        OptimizerKind::named(name) == Some(OptimizerKind::Adam) <==> name == "adam"@ || name
            == "Adam"@ || name == "ADAM"@,
        OptimizerKind::Sgd.spelled() == "sgd"@,
        OptimizerKind::Adam.spelled() == "adam"@,
{
    reveal_strlit("sgd");
    reveal_strlit("SGD");
    reveal_strlit("gradient_descent");
    reveal_strlit("adam");
    reveal_strlit("Adam");
    reveal_strlit("ADAM");
    assert("sgd"@[0] == 's' && "SGD"@[0] == 'S' && "gradient_descent"@[0] == 'g');
    assert("adam"@[0] == 'a' && "Adam"@[0] == 'A' && "ADAM"@[0] == 'A');
}

/// The numerator of a number between 2 to the power of -k and twice that, as a
/// fraction whose denominator is 2 to the power of 52 + k.
pub open spec fn significand(number: Number) -> int {
    number.bits % 0x10_0000_0000_0000 + 0x10_0000_0000_0000
}

/// An optimizer's own rate is a hundredth for SGD and a thousandth for Adam, to
/// the nearest number there is: a fraction of 2 to the power of 59 and of 62
/// that is off by half a step at most.
pub proof fn the_rates_are_a_hundredth_and_a_thousandth()
    ensures
        OptimizerKind::Sgd.default_rate().exponent() == 1075 - 59,
        -50 <= 100 * significand(OptimizerKind::Sgd.default_rate()) - 0x800_0000_0000_0000 <= 50,
        OptimizerKind::Adam.default_rate().exponent() == 1075 - 62,
        -500 <= 1000 * significand(OptimizerKind::Adam.default_rate()) - 0x4000_0000_0000_0000
            <= 500,
        OptimizerKind::Sgd.default_rate().bits < 0x8000_0000_0000_0000,
        OptimizerKind::Adam.default_rate().bits < 0x8000_0000_0000_0000,
{
}

/// The ratios that can be kept are one for each feature and one more for the
/// only output, each an exponent that fits in 31 bits.
pub proof fn ratios_are_one_per_column(spec: ModelSpecView, ratios: Seq<usize>)
    requires
        spec.layers.len() > 0,
    ensures
        ratios_fit(spec, ratios) <==> {
            &&& ratios.len() == spec.features + 1
            &&& spec.layers[spec.layers.len() - 1].units == 1
            &&& forall|i: int| 0 <= i < ratios.len() ==> #[trigger] ratios[i] < 0x8000_0000
        },
{
}

/// Weights are complete exactly where every layer has an entry in its place,
/// under its name, with one row per input of one value per unit, and one bias
/// per unit.
pub proof fn complete_weights_are_one_per_layer(spec: ModelSpecView, weights: Seq<LayerWeightsView>)
    ensures
        complete(spec, weights) <==> {
            &&& weights.len() == spec.layers.len()
            &&& forall|i: int|
                0 <= i < weights.len() ==> {
                    &&& (#[trigger] weights[i]).name == spec.layers[i].name
                    &&& weights[i].weights.len() == if i == 0 {
                        spec.features
                    } else {
                        spec.layers[i - 1].units
                    }
                    &&& weights[i].bias.len() == spec.layers[i].units
                }
            &&& forall|i: int, row: int|
                0 <= i < weights.len() && 0 <= row < weights[i].weights.len() ==> (
                #[trigger] weights[i].weights[row]).len() == spec.layers[i].units
        },
{
    if {
        &&& weights.len() == spec.layers.len()
        &&& forall|i: int|
            0 <= i < weights.len() ==> {
                &&& (#[trigger] weights[i]).name == spec.layers[i].name
                &&& weights[i].weights.len() == if i == 0 {
                    spec.features
                } else {
                    spec.layers[i - 1].units
                }
                &&& weights[i].bias.len() == spec.layers[i].units
            }
        &&& forall|i: int, row: int|
            0 <= i < weights.len() && 0 <= row < weights[i].weights.len() ==> (
            #[trigger] weights[i].weights[row]).len() == spec.layers[i].units
    } {
        assert forall|i: int| 0 <= i < weights.len() implies {
            &&& (#[trigger] weights[i]).name == spec.layers[i].name
            &&& weights[i].fits(spec.input_count(i) as int, spec.layers[i].units as int)
        } by {
            assert(weights[i].name == spec.layers[i].name);
        }
    }
    if complete(spec, weights) {
        assert forall|i: int, row: int|
            0 <= i < weights.len() && 0 <= row < weights[i].weights.len() implies (
        #[trigger] weights[i].weights[row]).len() == spec.layers[i].units by {
            assert(weights[i].fits(spec.input_count(i) as int, spec.layers[i].units as int));
        }
    }
}

/// Numbers that have the same last bytes, read backwards or not, are the same
/// up to what these bytes can tell.
proof fn bytes_tell_numbers_apart(one: nat, other: nat, count: nat)
    requires
        one < byte_range(count),
        other < byte_range(count),
        bytes_of(one, count) == bytes_of(other, count),
    ensures
        one == other,
    decreases count,
{
    if count > 0 {
        let last = (count - 1) as nat;
        bytes_are_counted(one, count);
        assert(bytes_of(one, count).drop_last() =~= bytes_of(one / 0x100, last));
        assert(bytes_of(other, count).drop_last() =~= bytes_of(other / 0x100, last));
        assert(bytes_of(one, count).last() == (one % 0x100) as u8);
        assert(bytes_of(other, count).last() == (other % 0x100) as u8);
        bytes_tell_numbers_apart(one / 0x100, other / 0x100, last);
    }
}

/// Different bytes spell different numbers.
proof fn spelled_numbers_differ(one: Seq<u8>, other: Seq<u8>)
    requires
        one.len() == other.len(),
        little_endian(one) == little_endian(other),
    ensures
        one == other,
    decreases one.len(),
{
    if one.len() == 0 {
        assert(one =~= other);
    } else {
        spelled_numbers_differ(one.drop_first(), other.drop_first());
        assert(one =~= seq![one.first()] + one.drop_first());
        assert(other =~= seq![other.first()] + other.drop_first());
    }
}

/// Eight bytes spell a number of 64 bits.
proof fn spelled_numbers_are_bounded(bytes: Seq<u8>)
    ensures
        little_endian(bytes) < byte_range(bytes.len()),
    decreases bytes.len(),
{
    if bytes.len() > 0 {
        spelled_numbers_are_bounded(bytes.drop_first());
    }
}

/// No random bit of an id is lost in the seed it gives: of two ids that agree in
/// one half, no matter which, different ones give different seeds.
pub proof fn seeds_tell_ids_apart(one: u128, other: u128)
    requires
        seed_of(one) == seed_of(other),
        one as nat / 0x1_0000_0000_0000_0000 == other as nat / 0x1_0000_0000_0000_0000 || one as nat
            % 0x1_0000_0000_0000_0000 == other as nat % 0x1_0000_0000_0000_0000,
    ensures
        one == other,
{
    let (one_high, other_high) = (
        one as nat / 0x1_0000_0000_0000_0000,
        other as nat / 0x1_0000_0000_0000_0000,
    );
    let (one_low, other_low) = (
        one as nat % 0x1_0000_0000_0000_0000,
        other as nat % 0x1_0000_0000_0000_0000,
    );
    bytes_are_halved(one);
    bytes_are_halved(other);
    reveal_with_fuel(byte_range, 9);
    last_bytes_do_not_tell_the_rest(one as nat);
    last_bytes_do_not_tell_the_rest(other as nat);
    bytes_are_counted(one_high, 8);
    bytes_are_counted(other_high, 8);
    bytes_are_counted(one_low, 8);
    bytes_are_counted(other_low, 8);
    spelled_numbers_are_bounded(bytes_of(one_high, 8));
    spelled_numbers_are_bounded(bytes_of(other_high, 8));
    spelled_numbers_are_bounded(bytes_of(one_low, 8));
    spelled_numbers_are_bounded(bytes_of(other_low, 8));
    let a = little_endian(bytes_of(one_high, 8)) as u64;
    let b = little_endian(bytes_of(one_low, 8)) as u64;
    let c = little_endian(bytes_of(other_high, 8)) as u64;
    let d = little_endian(bytes_of(other_low, 8)) as u64;
    assert(a ^ b == c ^ d);
    assert(a ^ b == c ^ d && a == c ==> b == d) by (bit_vector);
    assert(a ^ b == c ^ d && b == d ==> a == c) by (bit_vector);
    spelled_numbers_differ(bytes_of(one_high, 8), bytes_of(other_high, 8));
    spelled_numbers_differ(bytes_of(one_low, 8), bytes_of(other_low, 8));
    bytes_tell_numbers_apart(one_high, other_high, 8);
    bytes_tell_numbers_apart(one_low, other_low, 8);
}

/// The last eight bytes of a number are those of its last 64 bits.
proof fn last_bytes_do_not_tell_the_rest(value: nat)
    ensures
        bytes_of(value, 8) == bytes_of(value % 0x1_0000_0000_0000_0000, 8),
{
    rest_of_bytes_is_ignored(value, 8);
    reveal_with_fuel(byte_range, 9);
}

/// The last `count` bytes of a number are those of what it leaves when it is
/// divided by the numbers that many bytes can tell.
proof fn rest_of_bytes_is_ignored(value: nat, count: nat)
    ensures
        byte_range(count) > 0,
        bytes_of(value, count) == bytes_of(value % byte_range(count), count),
    decreases count,
{
    if count > 0 {
        let last = (count - 1) as nat;
        let range = byte_range(last);
        let left = value % byte_range(count);
        rest_of_bytes_is_ignored(value / 0x100, last);
        vstd::arithmetic::div_mod::lemma_mod_breakdown(value as int, 0x100, range as int);
        let high = (value / 0x100) % range;
        assert(left == 0x100 * high + value % 0x100);
        assert(left / 0x100 == high && left % 0x100 == value % 0x100);
    }
}

} // verus!
