//! What a client sends and receives, and the validation that stands between a
//! request and the engine.
//!
//! The engine answers a bad argument with a panic. Everything checked here is
//! answered with a 400 and a sentence saying what to fix instead.

use vstd::prelude::*;

use crate::config::Limits;
use crate::engine::{
    find_not_finite, find_other_width, fills_a_matrix, first_other_width, joined_length,
    not_finite_is_first, other_width_is_first, LayerReportView, ModelReport, ModelReportView,
};
use crate::error::{bad_request, outcome, refusal, ApiError, ErrorView};
use crate::ids::version_4;
use crate::model::{
    complete, layers_view, random_seed, ratios_view, seed_of, shaped, weights_view, ActivationKind, LayerSpec, LayerSpecView, LayerWeights, LayerWeightsView, LossKind, ModelSpec,
    ModelSpecView, NewModel, NewModelView, OptimizerConfig, OptimizerKind,
    StoredModel, StoredModelView,
};
use crate::number::{rows_view, Number};
use crate::text::{
    blank, decimal, decimals_differ, is_among, is_blank, push_count, same, texts_view,
    white_space,
};

verus! {

// -------------------------------------------------------------- optimizers

/// A learning rate as it was sent: the number, and how it is written.
#[derive(Debug)]
pub struct LearningRate {
    pub rate: Number,
    pub shown: String,
}

/// `"adam"` or `{"type": "adam", "learning_rate": 0.05}`.
#[derive(Debug)]
pub enum OptimizerRequest {
    /// Just the name, so the optimizer's own default learning rate.
    Kind(OptimizerKind),
    Config { kind: OptimizerKind, learning_rate: Option<LearningRate> },
}

/// What is said of a learning rate that no optimizer can run with.
pub open spec fn rate_message(shown: Seq<char>) -> Seq<char> {
    "'learning_rate' must be a positive number, got "@ + shown
}

impl OptimizerRequest {
    /// The optimizer asked for.
    pub open spec fn kind(self) -> OptimizerKind {
        match self {
            OptimizerRequest::Kind(kind) => kind,
            OptimizerRequest::Config { kind, .. } => kind,
        }
    }

    /// The rate asked for, the optimizer's own where none is.
    pub open spec fn rate(self) -> Number {
        match self {
            OptimizerRequest::Config { learning_rate: Some(sent), .. } => sent.rate,
            _ => self.kind().default_rate(),
        }
    }

    /// Why the request cannot be met: a rate that is not a positive number.
    pub open spec fn fault(self) -> Option<ErrorView> {
        match self {
            OptimizerRequest::Config { learning_rate: Some(sent), .. } => if sent.rate.positive() {
                None
            } else {
                Some(bad_request(rate_message(sent.shown@)))
            },
            _ => None,
        }
    }

    /// The optimizer with its learning rate filled in.
    pub fn resolve(self) -> (resolved: Result<OptimizerConfig, ApiError>)
        ensures
            refusal(resolved) == self.fault(),
            resolved matches Ok(config) ==> {
                &&& config == (OptimizerConfig { kind: self.kind(), learning_rate: self.rate() })
                &&& config.learning_rate.positive()
            },
    {
        match self {
            OptimizerRequest::Kind(kind) => Ok(
                OptimizerConfig { kind, learning_rate: kind.default_learning_rate() },
            ),
            OptimizerRequest::Config { kind, learning_rate: None } => Ok(
                OptimizerConfig { kind, learning_rate: kind.default_learning_rate() },
            ),
            OptimizerRequest::Config { kind, learning_rate: Some(sent) } => {
                if !sent.rate.is_positive() {
                    let mut message = "'learning_rate' must be a positive number, got ".to_owned();
                    message.append(sent.shown.as_str());
                    return Err(ApiError::bad_request(message));
                }
                Ok(OptimizerConfig { kind, learning_rate: sent.rate })
            },
        }
    }
}

/// What an optimizer request comes to: its error, the optimizer it names, or,
/// where there is none, Adam as soon as there is a loss to train against.
pub open spec fn optimizer_for(
    request: Option<OptimizerRequest>,
    loss: Option<LossKind>,
) -> Result<Option<OptimizerConfig>, ErrorView> {
    match request {
        Some(request) => match request.fault() {
            Some(error) => Err(error),
            None => Ok(
                Some(OptimizerConfig { kind: request.kind(), learning_rate: request.rate() }),
            ),
        },
        None => match loss {
            Some(_) => Ok(
                Some(
                    OptimizerConfig {
                        kind: OptimizerKind::Adam,
                        learning_rate: OptimizerKind::Adam.default_rate(),
                    },
                ),
            ),
            None => Ok(None),
        },
    }
}

/// An optimizer is there whenever there is a loss to train against, so the
/// response can always say which one a run would use.
pub fn resolve_optimizer(request: Option<OptimizerRequest>, loss: Option<LossKind>) -> (resolved:
    Result<Option<OptimizerConfig>, ApiError>)
    ensures
        match resolved {
            Ok(optimizer) => optimizer_for(request, loss) == Ok::<
                Option<OptimizerConfig>,
                ErrorView,
            >(optimizer),
            Err(error) => optimizer_for(request, loss) == Err::<
                Option<OptimizerConfig>,
                ErrorView,
            >(error@),
        },
{
    match request {
        Some(request) => match request.resolve() {
            Ok(config) => Ok(Some(config)),
            Err(error) => Err(error),
        },
        None => match loss {
            Some(_) => Ok(Some(default_optimizer())),
            None => Ok(None),
        },
    }
}

/// The optimizer of a model that was told of none: Adam, at its own rate.
pub fn default_optimizer() -> (optimizer: OptimizerConfig)
    ensures
        optimizer == (OptimizerConfig {
            kind: OptimizerKind::Adam,
            learning_rate: OptimizerKind::Adam.default_rate(),
        }),
{
    OptimizerConfig {
        kind: OptimizerKind::Adam,
        learning_rate: OptimizerKind::Adam.default_learning_rate(),
    }
}

/// A model with a loss has an optimizer, whatever was asked for and granted.
pub proof fn a_loss_has_an_optimizer(request: Option<OptimizerRequest>, loss: LossKind)
    requires
        optimizer_for(request, Some(loss)) is Ok,
    ensures
        optimizer_for(request, Some(loss))->Ok_0 is Some,
{
}

/// The fields of an optimizer object read so far.
#[derive(Debug)]
pub struct OptimizerFields {
    pub kind: Option<OptimizerKind>,
    pub learning_rate: Option<LearningRate>,
}

/// A field of an optimizer object.
#[derive(Clone, Copy, Debug, PartialEq, Eq, Structural)]
pub enum OptimizerField {
    Kind,
    LearningRate,
}

/// Why a key of an optimizer object is refused.
#[derive(Clone, Copy, Debug, PartialEq, Eq, Structural)]
pub enum KeyFault {
    /// The field was given before, under this or another of its names.
    Duplicate(OptimizerField),
    /// There is no such field.
    Unknown,
}

/// The field that `key` names: `type`, also written `kind` or `name`, or
/// `learning_rate`.
pub open spec fn optimizer_field(key: Seq<char>) -> Option<OptimizerField> {
    if key == "type"@ || key == "kind"@ || key == "name"@ {
        Some(OptimizerField::Kind)
    } else if key == "learning_rate"@ {
        Some(OptimizerField::LearningRate)
    } else {
        None
    }
}

impl OptimizerField {
    /// The name errors call the field by.
    pub fn name(self) -> (name: &'static str)
        ensures
            name@ == (match self {
                OptimizerField::Kind => "type"@,
                OptimizerField::LearningRate => "learning_rate"@,
            }),
    {
        match self {
            OptimizerField::Kind => "type",
            OptimizerField::LearningRate => "learning_rate",
        }
    }
}

impl OptimizerFields {
    /// Whether the field was read already.
    pub open spec fn has(self, field: OptimizerField) -> bool {
        match field {
            OptimizerField::Kind => self.kind is Some,
            OptimizerField::LearningRate => self.learning_rate is Some,
        }
    }

    /// Nothing read yet.
    pub fn new() -> (fields: Self)
        ensures
            fields.kind is None,
            fields.learning_rate is None,
    {
        OptimizerFields { kind: None, learning_rate: None }
    }

    /// The field whose value follows `key`, or why none may follow it.
    pub fn next_field(&self, key: &str) -> (field: Result<OptimizerField, KeyFault>)
        ensures
            field == (match optimizer_field(key@) {
                None => Err(KeyFault::Unknown),
                Some(field) => if self.has(field) {
                    Err(KeyFault::Duplicate(field))
                } else {
                    Ok(field)
                },
            }),
    {
        if same(key, "type") || same(key, "kind") || same(key, "name") {
            if self.kind.is_some() {
                Err(KeyFault::Duplicate(OptimizerField::Kind))
            } else {
                Ok(OptimizerField::Kind)
            }
        } else if same(key, "learning_rate") {
            if self.learning_rate.is_some() {
                Err(KeyFault::Duplicate(OptimizerField::LearningRate))
            } else {
                Ok(OptimizerField::LearningRate)
            }
        } else {
            Err(KeyFault::Unknown)
        }
    }

    /// The request the fields make, `None` while the type is missing.
    pub fn into_request(self) -> (request: Option<OptimizerRequest>)
        ensures
            request == (match self.kind {
                Some(kind) => Some(
                    OptimizerRequest::Config { kind, learning_rate: self.learning_rate },
                ),
                None => None,
            }),
    {
        match self.kind {
            Some(kind) => Some(OptimizerRequest::Config { kind, learning_rate: self.learning_rate }),
            None => None,
        }
    }
}

// ------------------------------------------------------------- layer names

/// Keras' `Dense(units, activation=..., name=...)`.
#[derive(Debug)]
pub struct LayerRequest {
    pub units: usize,
    pub activation: ActivationKind,
    /// Left out, the layer is named the way Keras names it: "dense",
    /// "dense_1", ... The name is what weights are matched on.
    pub name: Option<String>,
}

/// Keras' names for layers that were given none.
pub open spec fn dense_name(suffix: nat) -> Seq<char> {
    if suffix == 0 {
        "dense"@
    } else {
        "dense_"@ + decimal(suffix)
    }
}

/// `suffix` is the lowest whose name is not taken.
pub open spec fn lowest_free(names: Seq<Seq<char>>, suffix: nat) -> bool {
    &&& !names.contains(dense_name(suffix))
    &&& forall|lower: nat| lower < suffix ==> names.contains(#[trigger] dense_name(lower))
}

/// The name Keras gives the next layer.
pub open spec fn next_dense_name(names: Seq<Seq<char>>) -> Seq<char> {
    dense_name(choose|suffix: nat| lowest_free(names, suffix))
}

/// What is said of a layer whose name is blank.
pub open spec fn blank_layer_message(index: nat) -> Seq<char> {
    "layer "@ + decimal(index) + " has a blank 'name'"@
}

/// What is said of a layer whose name is taken.
pub open spec fn same_layer_message(name: Seq<char>) -> Seq<char> {
    "layer names must be unique, '"@ + name + "' is used twice"@
}

/// The names of the first `count` layers: the name a layer asked for, Keras'
/// next one where it asked for none; or the first name that cannot be had.
pub open spec fn layer_names(layers: Seq<LayerRequest>, count: nat) -> Result<
    Seq<Seq<char>>,
    ErrorView,
>
    decreases count,
{
    if count == 0 {
        Ok(Seq::empty())
    } else {
        match layer_names(layers, (count - 1) as nat) {
            Err(error) => Err(error),
            Ok(names) => match layers[count - 1].name {
                None => Ok(names.push(next_dense_name(names))),
                Some(name) => if blank(name@) {
                    Err(bad_request(blank_layer_message((count - 1) as nat)))
                } else if names.contains(name@) {
                    Err(bad_request(same_layer_message(name@)))
                } else {
                    Ok(names.push(name@))
                },
            },
        }
    }
}

/// No two suffixes make the same name.
proof fn dense_names_differ(one: nat, other: nat)
    ensures
        dense_name(one) == dense_name(other) ==> one == other,
{
    reveal_strlit("dense");
    reveal_strlit("dense_");
    decimals_differ(one, other);
    assert("dense"@.len() == 5 && "dense_"@.len() == 6);
    if dense_name(one) == dense_name(other) && one > 0 && other > 0 {
        assert(decimal(one) =~= dense_name(one).skip(6));
        assert(decimal(other) =~= dense_name(other).skip(6));
    }
}

/// Keras' names are not blank.
proof fn dense_names_are_not_blank(suffix: nat)
    ensures
        !blank(dense_name(suffix)),
{
    reveal_strlit("dense");
    reveal_strlit("dense_");
    assert(dense_name(suffix)[0] == 'd');
    assert(!white_space(dense_name(suffix)[0]));
}

/// Where the first `count` dense names are taken, there are at least as many
/// names.
proof fn taken_names_count(names: Seq<Seq<char>>, count: nat)
    requires
        forall|lower: nat| lower < count ==> names.contains(#[trigger] dense_name(lower)),
    ensures
        count <= names.len(),
{
    let taken = Seq::new(count, |i: int| dense_name(i as nat));
    assert forall|i: int, j: int| 0 <= i < taken.len() && 0 <= j < taken.len() && i
        != j implies taken[i] != taken[j] by {
        dense_names_differ(i as nat, j as nat);
    }
    taken.unique_seq_to_set();
    names.lemma_cardinality_of_set();
    vstd::seq_lib::seq_to_set_is_finite(names);
    assert(taken.to_set().subset_of(names.to_set())) by {
        assert forall|name: Seq<char>| taken.to_set().contains(
            name,
        ) implies names.to_set().contains(name) by {
            let i = choose|i: int| 0 <= i < taken.len() && taken[i] == name;
            assert(names.contains(dense_name(i as nat)));
        }
    }
    vstd::set_lib::lemma_len_subset(taken.to_set(), names.to_set());
}

/// There is always a free name, and only one that is lowest.
proof fn lowest_free_is_one(names: Seq<Seq<char>>, suffix: nat)
    requires
        lowest_free(names, suffix),
    ensures
        next_dense_name(names) == dense_name(suffix),
{
    let chosen = choose|suffix: nat| lowest_free(names, suffix);
    if chosen < suffix {
        assert(names.contains(dense_name(chosen)));
    }
    if suffix < chosen {
        assert(names.contains(dense_name(suffix)));
    }
}

/// The name with that suffix.
fn dense_name_of(suffix: usize) -> (name: String)
    ensures
        name@ == dense_name(suffix as nat),
{
    if suffix == 0 {
        "dense".to_owned()
    } else {
        let mut name = "dense_".to_owned();
        push_count(&mut name, suffix);
        name
    }
}

/// The name Keras gives the next layer.
fn free_dense_name(names: &Vec<String>) -> (name: String)
    ensures
        name@ == next_dense_name(texts_view(names@)),
        !texts_view(names@).contains(name@),
{
    let count = names.len();
    let mut suffix: usize = 0;
    loop
        invariant
            suffix <= count,
            count == names@.len(),
            forall|lower: nat|
                lower < suffix ==> texts_view(names@).contains(#[trigger] dense_name(lower)),
        decreases count - suffix,
    {
        let candidate = dense_name_of(suffix);
        if !is_among(candidate.as_str(), names) {
            proof {
                lowest_free_is_one(texts_view(names@), suffix as nat);
            }
            return candidate;
        }
        proof {
            assert forall|lower: nat| lower < suffix + 1 implies texts_view(names@).contains(
                #[trigger] dense_name(lower),
            ) by {
                if lower == suffix {
                }
            }
            taken_names_count(texts_view(names@), (suffix + 1) as nat);
        }
        suffix += 1;
    }
}

/// Keras' naming, so that every layer reaches the engine with an explicit
/// name: "dense", "dense_1", "dense_2", ... and a name the request gave wins.
pub fn resolve_layer_names(layers: &Vec<LayerRequest>) -> (names: Result<Vec<String>, ApiError>)
    ensures
        match names {
            Ok(names) => layer_names(layers@, layers@.len()) == Ok::<Seq<Seq<char>>, ErrorView>(
                texts_view(names@),
            ),
            Err(error) => layer_names(layers@, layers@.len()) == Err::<Seq<Seq<char>>, ErrorView>(
                error@,
            ),
        },
{
    let mut names: Vec<String> = Vec::with_capacity(layers.len());
    let mut index: usize = 0;
    assert(texts_view(names@) =~= Seq::<Seq<char>>::empty());
    while index < layers.len()
        invariant
            index <= layers@.len(),
            layer_names(layers@, index as nat) == Ok::<Seq<Seq<char>>, ErrorView>(
                texts_view(names@),
            ),
        decreases layers@.len() - index,
    {
        let ghost before = texts_view(names@);
        let name = match &layers[index].name {
            Some(name) => {
                if is_blank(name.as_str()) {
                    let mut message = "layer ".to_owned();
                    push_count(&mut message, index);
                    message.append(" has a blank 'name'");
                    let error = ApiError::bad_request(message);
                    proof {
                        refused_names_stay_refused(layers@, (index + 1) as nat, layers@.len());
                    }
                    return Err(error);
                }
                if is_among(name.as_str(), &names) {
                    let mut message = "layer names must be unique, '".to_owned();
                    message.append(name.as_str());
                    message.append("' is used twice");
                    let error = ApiError::bad_request(message);
                    proof {
                        refused_names_stay_refused(layers@, (index + 1) as nat, layers@.len());
                    }
                    return Err(error);
                }
                name.clone()
            },
            None => free_dense_name(&names),
        };
        names.push(name);
        assert(texts_view(names@) =~= before.push(name@));
        index += 1;
    }
    Ok(names)
}

/// A name that cannot be had settles the matter for all layers.
proof fn refused_names_stay_refused(layers: Seq<LayerRequest>, count: nat, more: nat)
    requires
        count <= more,
        layer_names(layers, count) is Err,
    ensures
        layer_names(layers, more) == layer_names(layers, count),
    decreases more,
{
    if count < more {
        refused_names_stay_refused(layers, count, (more - 1) as nat);
    }
}

/// Layer names are resolved one for one, no two of them are the same and none
/// is blank, and a name the request gave is the name the layer has.
pub proof fn resolved_names_differ(layers: Seq<LayerRequest>, count: nat)
    requires
        count <= layers.len(),
        layer_names(layers, count) is Ok,
    ensures
        layer_names(layers, count)->Ok_0.len() == count,
        layer_names(layers, count)->Ok_0.no_duplicates(),
        forall|i: int|
            0 <= i < count ==> !blank(#[trigger] layer_names(layers, count)->Ok_0[i]),
        forall|i: int|
            0 <= i < count ==> ((#[trigger] layers[i]).name matches Some(name) ==> layer_names(
                layers,
                count,
            )->Ok_0[i] == name@),
    decreases count,
{
    if count > 0 {
        let names = layer_names(layers, (count - 1) as nat)->Ok_0;
        resolved_names_differ(layers, (count - 1) as nat);
        if layers[count - 1].name is None {
            free_name_exists(names, 0);
            dense_names_are_not_blank(choose|suffix: nat| lowest_free(names, suffix));
        }
    }
}

/// A layer that was given no name is called "dense" where no layer before it
/// is, and else "dense_" with the lowest number that is still free.
pub proof fn unnamed_layers_get_the_lowest_free_name(layers: Seq<LayerRequest>, count: nat)
    requires
        0 < count <= layers.len(),
        layers[count - 1].name is None,
        layer_names(layers, (count - 1) as nat) is Ok,
    ensures
        ({
            let taken = layer_names(layers, (count - 1) as nat)->Ok_0;
            let names = layer_names(layers, count)->Ok_0;
            &&& layer_names(layers, count) is Ok
            &&& names.len() == count
            &&& names.drop_last() == taken
            &&& !taken.contains(names.last())
            &&& !taken.contains("dense"@) ==> names.last() == "dense"@
            &&& taken.contains("dense"@) ==> exists|suffix: nat|
                {
                    &&& suffix >= 1
                    &&& names.last() == "dense_"@ + #[trigger] decimal(suffix)
                    &&& forall|lower: nat|
                        1 <= lower < suffix ==> taken.contains("dense_"@ + #[trigger] decimal(lower))
                }
        }),
{
    let taken = layer_names(layers, (count - 1) as nat)->Ok_0;
    let names = layer_names(layers, count)->Ok_0;
    resolved_names_differ(layers, (count - 1) as nat);
    free_name_exists(taken, 0);
    let suffix = lowest_free_suffix(taken, 0);
    lowest_free_is_one(taken, suffix);
    assert(names.drop_last() =~= taken);
    if taken.contains("dense"@) {
        assert(suffix != 0);
        assert(names.last() == "dense_"@ + decimal(suffix));
        assert forall|lower: nat| 1 <= lower < suffix implies taken.contains(
            "dense_"@ + #[trigger] decimal(lower),
        ) by {
            assert(taken.contains(dense_name(lower)));
        }
    } else {
        if suffix > 0 {
            assert(taken.contains(dense_name(0)));
        }
    }
}

/// The lowest suffix that is free, the ones below `from` being taken.
proof fn lowest_free_suffix(names: Seq<Seq<char>>, from: nat) -> (suffix: nat)
    requires
        from <= names.len(),
        forall|lower: nat| lower < from ==> names.contains(#[trigger] dense_name(lower)),
    ensures
        lowest_free(names, suffix),
    decreases names.len() - from,
{
    if names.contains(dense_name(from)) {
        assert forall|lower: nat| lower < from + 1 implies names.contains(
            #[trigger] dense_name(lower),
        ) by {
            if lower == from {
            }
        }
        taken_names_count(names, from + 1);
        lowest_free_suffix(names, from + 1)
    } else {
        from
    }
}

/// Layers that are given no names at all are "dense", "dense_1", "dense_2" and
/// so on, in order.
pub proof fn unnamed_layers_count_up(layers: Seq<LayerRequest>, count: nat)
    requires
        count <= layers.len(),
        forall|i: int| 0 <= i < layers.len() ==> (#[trigger] layers[i]).name is None,
    ensures
        layer_names(layers, count) is Ok,
        layer_names(layers, count)->Ok_0.len() == count,
        count > 0 ==> layer_names(layers, count)->Ok_0[0] == "dense"@,
        forall|i: int|
            1 <= i < count ==> #[trigger] layer_names(layers, count)->Ok_0[i] == "dense_"@ + decimal(
                i as nat,
            ),
    decreases count,
{
    if count > 0 {
        let last = (count - 1) as nat;
        unnamed_layers_count_up(layers, last);
        let taken = layer_names(layers, last)->Ok_0;
        assert(layers[last as int].name is None);
        assert forall|lower: nat| lower < last implies taken.contains(
            #[trigger] dense_name(lower),
        ) by {
            assert(taken[lower as int] == dense_name(lower));
        }
        assert(!taken.contains(dense_name(last))) by {
            if taken.contains(dense_name(last)) {
                let i = choose|i: int| 0 <= i < taken.len() && taken[i] == dense_name(last);
                assert(taken[i] == dense_name(i as nat));
                dense_names_differ(i as nat, last);
            }
        }
        assert(lowest_free(taken, last));
        lowest_free_is_one(taken, last);
    }
}

/// Among the dense names from `from` on, some are not taken.
proof fn free_name_exists(names: Seq<Seq<char>>, from: nat)
    requires
        from <= names.len(),
        forall|lower: nat| lower < from ==> names.contains(#[trigger] dense_name(lower)),
    ensures
        !names.contains(next_dense_name(names)),
    decreases names.len() - from,
{
    if names.contains(dense_name(from)) {
        assert forall|lower: nat| lower < from + 1 implies names.contains(
            #[trigger] dense_name(lower),
        ) by {
            if lower == from {
            }
        }
        taken_names_count(names, from + 1);
        free_name_exists(names, from + 1);
    } else {
        assert(lowest_free(names, from));
        lowest_free_is_one(names, from);
    }
}

// -------------------------------------------------------------- validation

/// What is said of weights for a layer the model does not have.
pub open spec fn no_layer_message(name: Seq<char>) -> Seq<char> {
    "there is no layer named '"@ + name + "' in this model"@
}

/// What is said of a second set of weights for one layer.
pub open spec fn weights_twice_message(name: Seq<char>) -> Seq<char> {
    "layer '"@ + name + "' is given weights twice"@
}

/// How a message about a weight matrix begins: which one, and its shape.
pub open spec fn matrix_needed(name: Seq<char>, inputs: nat, units: nat) -> Seq<char> {
    "layer '"@ + name + "' needs a "@ + decimal(inputs) + "x"@ + decimal(units)
        + " weight matrix, "@
}

/// What is said of a weight matrix with too many or too few rows.
pub open spec fn row_count_message(
    name: Seq<char>,
    inputs: nat,
    units: nat,
    rows: nat,
) -> Seq<char> {
    matrix_needed(name, inputs, units) + "got "@ + decimal(rows) + " rows"@
}

/// What is said of a weight matrix with a row that is too long or too short.
pub open spec fn row_width_message(
    name: Seq<char>,
    inputs: nat,
    units: nat,
    row: nat,
    values: nat,
) -> Seq<char> {
    matrix_needed(name, inputs, units) + "but row "@ + decimal(row) + " has "@ + decimal(values)
        + " values"@
}

/// What is said of a bias row that is too long or too short.
pub open spec fn bias_message(name: Seq<char>, units: nat, values: nat) -> Seq<char> {
    "layer '"@ + name + "' needs "@ + decimal(units) + " bias values, one per unit, got "@
        + decimal(values)
}

/// What is said of a weight or a bias that is infinite or a NaN.
pub open spec fn weight_not_finite_message(name: Seq<char>) -> Seq<char> {
    "layer '"@ + name + "' has a weight that is not finite"@
}

/// What is wrong with the weights of one layer called `name`, of `inputs`
/// inputs and `units` units.
pub open spec fn shape_fault(entry: LayerWeightsView, inputs: nat, units: nat) -> Option<
    Seq<char>,
> {
    if entry.weights.len() != inputs {
        Some(row_count_message(entry.name, inputs, units, entry.weights.len()))
    } else {
        match first_other_width(entry.weights, units as int, 0) {
            Some(row) => Some(
                row_width_message(
                    entry.name,
                    inputs,
                    units,
                    row as nat,
                    entry.weights[row].len(),
                ),
            ),
            None => if entry.bias.len() != units {
                Some(bias_message(entry.name, units, entry.bias.len()))
            } else if !entry.finite() {
                Some(weight_not_finite_message(entry.name))
            } else {
                None
            },
        }
    }
}

/// Whether one of the first `count` entries is for the layer called `name`.
pub open spec fn given_before(weights: Seq<LayerWeightsView>, count: int, name: Seq<char>) -> bool {
    exists|i: int| 0 <= i < count && (#[trigger] weights[i]).name == name
}

/// What is wrong with the entry at `index`.
pub open spec fn entry_fault(
    spec: ModelSpecView,
    weights: Seq<LayerWeightsView>,
    index: int,
) -> Option<Seq<char>> {
    let entry = weights[index];
    match spec.index_of(entry.name) {
        None => Some(no_layer_message(entry.name)),
        Some(layer) => if given_before(weights, index, entry.name) {
            Some(weights_twice_message(entry.name))
        } else {
            shape_fault(
                entry,
                spec.input_count(layer) as nat,
                spec.layers[layer].units as nat,
            )
        },
    }
}

/// What is wrong with the first entry from `from` on that cannot be loaded.
pub open spec fn weights_fault(
    spec: ModelSpecView,
    weights: Seq<LayerWeightsView>,
    from: int,
) -> Option<ErrorView>
    decreases weights.len() - from,
{
    if from < 0 || from >= weights.len() {
        None
    } else {
        match entry_fault(spec, weights, from) {
            Some(message) => Some(bad_request(message)),
            None => weights_fault(spec, weights, from + 1),
        }
    }
}

/// Weights that pass are each for a layer of their own and fit it.
pub proof fn accepted_weights_fit(spec: ModelSpecView, weights: Seq<LayerWeightsView>, from: int)
    requires
        0 <= from,
        weights_fault(spec, weights, from) is None,
    ensures
        forall|i: int|
            from <= i < weights.len() ==> {
                &&& spec.index_of((#[trigger] weights[i]).name) is Some
                &&& !given_before(weights, i, weights[i].name)
                &&& weights[i].fits(
                    spec.input_count(spec.index_of(weights[i].name)->0) as int,
                    spec.layers[spec.index_of(weights[i].name)->0].units as int,
                )
                &&& weights[i].finite()
            },
    decreases weights.len() - from,
{
    if from < weights.len() {
        let layer = spec.index_of(weights[from].name)->0;
        other_width_is_first(weights[from].weights, spec.layers[layer].units as int, 0);
        accepted_weights_fit(spec, weights, from + 1);
    }
}

/// Weights in the shape the layers need, with nothing infinite in them, pass:
/// what was read off a model can be sent back to it.
pub proof fn complete_weights_are_accepted(
    spec: ModelSpecView,
    weights: Seq<LayerWeightsView>,
    from: int,
)
    requires
        0 <= from,
        spec.names_differ(),
        complete(spec, weights),
        forall|i: int| 0 <= i < weights.len() ==> (#[trigger] weights[i]).finite(),
    ensures
        weights_fault(spec, weights, from) is None,
    decreases weights.len() - from,
{
    if from < weights.len() {
        spec.each_layer_is_found(from);
        other_width_is_first(weights[from].weights, spec.layers[from].units as int, 0);
        assert(!given_before(weights, from, weights[from].name)) by {
            if given_before(weights, from, weights[from].name) {
                let before = choose|i: int|
                    0 <= i < from && (#[trigger] weights[i]).name == weights[from].name;
                assert(spec.layers[before].name == spec.layers[from].name);
            }
        }
        complete_weights_are_accepted(spec, weights, from + 1);
    }
}

/// Whether none of the values is infinite or a NaN.
fn all_finite(weights: &LayerWeights) -> (finite: bool)
    ensures
        finite == weights@.finite(),
{
    let mut row: usize = 0;
    while row < weights.weights.len()
        invariant
            row <= weights.weights@.len(),
            forall|i: int, j: int|
                0 <= i < row && 0 <= j < weights@.weights[i].len() ==> (
                #[trigger] weights@.weights[i][j]).finite(),
        decreases weights.weights@.len() - row,
    {
        assert(weights@.weights[row as int] == weights.weights@[row as int]@);
        match find_not_finite(&weights.weights[row]) {
            Some(column) => {
                proof {
                    not_finite_is_first(weights.weights@[row as int]@, 0);
                    assert(!weights@.weights[row as int][column as int].finite());
                }
                return false;
            },
            None => {
                proof {
                    not_finite_is_first(weights.weights@[row as int]@, 0);
                }
            },
        }
        row += 1;
    }
    proof {
        not_finite_is_first(weights@.bias, 0);
    }
    find_not_finite(&weights.bias).is_none()
}

/// Begins a message about a weight matrix.
fn push_matrix_needed(message: &mut String, name: &str, inputs: usize, units: usize)
    requires
        old(message)@ == ""@,
    ensures
        final(message)@ == matrix_needed(name@, inputs as nat, units as nat),
{
    proof {
        reveal_strlit("");
    }
    message.append("layer '");
    message.append(name);
    message.append("' needs a ");
    push_count(message, inputs);
    message.append("x");
    push_count(message, units);
    message.append(" weight matrix, ");
    assert(message@ =~= matrix_needed(name@, inputs as nat, units as nat));
}

/// Whether the weights of one layer can be loaded into it.
fn check_shape(entry: &LayerWeights, inputs: usize, units: usize) -> (checked: Result<
    (),
    ApiError,
>)
    ensures
        match shape_fault(entry@, inputs as nat, units as nat) {
            Some(message) => refusal(checked) == Some(bad_request(message)),
            None => refusal(checked) is None,
        },
{
    let name = entry.name.as_str();
    if entry.weights.len() != inputs {
        let mut message = "".to_owned();
        push_matrix_needed(&mut message, name, inputs, units);
        message.append("got ");
        push_count(&mut message, entry.weights.len());
        message.append(" rows");
        return Err(ApiError::bad_request(message));
    }
    if let Some(row) = find_other_width(&entry.weights, units) {
        assert(entry@.weights[row as int] == entry.weights@[row as int]@);
        let mut message = "".to_owned();
        push_matrix_needed(&mut message, name, inputs, units);
        message.append("but row ");
        push_count(&mut message, row);
        message.append(" has ");
        push_count(&mut message, entry.weights[row].len());
        message.append(" values");
        return Err(ApiError::bad_request(message));
    }
    if entry.bias.len() != units {
        let mut message = "layer '".to_owned();
        message.append(name);
        message.append("' needs ");
        push_count(&mut message, units);
        message.append(" bias values, one per unit, got ");
        push_count(&mut message, entry.bias.len());
        return Err(ApiError::bad_request(message));
    }
    if !all_finite(entry) {
        let mut message = "layer '".to_owned();
        message.append(name);
        message.append("' has a weight that is not finite");
        return Err(ApiError::bad_request(message));
    }
    Ok(())
}

/// Every weight matrix has to have one row per input and one column per unit,
/// and every bias row one value per unit, or the engine panics.
pub fn validate_weights(spec: &ModelSpec, weights: &Vec<LayerWeights>) -> (checked: Result<
    (),
    ApiError,
>)
    ensures
        refusal(checked) == weights_fault(spec@, weights_view(weights@), 0),
{
    let mut seen: Vec<String> = Vec::with_capacity(weights.len());
    let mut index: usize = 0;
    while index < weights.len()
        invariant
            index <= weights@.len(),
            seen@.len() == index,
            forall|i: int|
                0 <= i < index ==> #[trigger] texts_view(seen@)[i] == weights_view(
                    weights@,
                )[i].name,
            weights_fault(spec@, weights_view(weights@), 0) == weights_fault(
                spec@,
                weights_view(weights@),
                index as int,
            ),
        decreases weights@.len() - index,
    {
        let entry = &weights[index];
        let name = entry.name.as_str();
        let ghost before = texts_view(seen@);
        assert(weights_view(weights@)[index as int] == entry@);
        let layer = match spec.layer_index(name) {
            Some(layer) => layer,
            None => {
                let mut message = "there is no layer named '".to_owned();
                message.append(name);
                message.append("' in this model");
                return Err(ApiError::bad_request(message));
            },
        };
        if is_among(name, &seen) {
            proof {
                let i = choose|i: int| 0 <= i < before.len() && before[i] == name@;
                assert(weights_view(weights@)[i].name == name@);
            }
            let mut message = "layer '".to_owned();
            message.append(name);
            message.append("' is given weights twice");
            return Err(ApiError::bad_request(message));
        }
        proof {
            if given_before(weights_view(weights@), index as int, name@) {
                let i = choose|i: int|
                    0 <= i < index && (#[trigger] weights_view(weights@)[i]).name == name@;
                assert(before[i] == name@);
            }
        }
        seen.push(entry.name.clone());
        assert(texts_view(seen@) =~= before.push(name@));
        match check_shape(entry, spec.input_count(layer), spec.layers[layer].units) {
            Ok(_) => {},
            Err(error) => return Err(error),
        }
        index += 1;
    }
    Ok(())
}

/// What is said of a request without a single sample.
pub open spec fn no_samples_message() -> Seq<char> {
    "'x' has no samples"@
}

/// What is said of a request with more samples than one call may carry.
pub open spec fn too_many_samples_message(samples: nat, limit: nat) -> Seq<char> {
    "'x' has "@ + decimal(samples) + " samples, the limit is "@ + decimal(limit)
}

/// What is said of a row of x that is not as wide as the model's input.
pub open spec fn feature_count_message(features: nat, row: nat, values: nat) -> Seq<char> {
    "the model takes "@ + decimal(features) + " features per sample, but row "@ + decimal(row)
        + " of 'x' has "@ + decimal(values)
}

/// What is said of targets that are not one per sample.
pub open spec fn sample_count_message(x: nat, y: nat) -> Seq<char> {
    "'x' has "@ + decimal(x) + " samples but 'y' has "@ + decimal(y)
}

/// What is said of a row of y that is not as wide as the last layer.
pub open spec fn target_width_message(units: nat, row: nat, values: nat) -> Seq<char> {
    "the last layer has "@ + decimal(units) + " units, so every row of 'y' needs "@ + decimal(
        units,
    ) + " values, but row "@ + decimal(row) + " has "@ + decimal(values)
}

/// Why x cannot be predicted for.
pub open spec fn features_fault(
    spec: ModelSpecView,
    x: Seq<Seq<Number>>,
    limits: Limits,
) -> Option<ErrorView> {
    if x.len() == 0 {
        Some(bad_request(no_samples_message()))
    } else if x.len() > limits.max_samples {
        Some(bad_request(too_many_samples_message(x.len(), limits.max_samples as nat)))
    } else {
        match first_other_width(x, spec.features as int, 0) {
            Some(row) => Some(
                bad_request(
                    feature_count_message(spec.features as nat, row as nat, x[row].len()),
                ),
            ),
            None => None,
        }
    }
}

/// Why x and y cannot be trained on or evaluated.
pub open spec fn samples_fault(
    spec: ModelSpecView,
    x: Seq<Seq<Number>>,
    y: Seq<Seq<Number>>,
    limits: Limits,
) -> Option<ErrorView> {
    match features_fault(spec, x, limits) {
        Some(error) => Some(error),
        None => if y.len() != x.len() {
            Some(bad_request(sample_count_message(x.len(), y.len())))
        } else {
            match first_other_width(y, spec.output_units() as int, 0) {
                Some(row) => Some(
                    bad_request(
                        target_width_message(
                            spec.output_units() as nat,
                            row as nat,
                            y[row].len(),
                        ),
                    ),
                ),
                None => None,
            }
        },
    }
}

/// x alone, as predicting needs it: at least one row, and every row as wide as
/// the model's input.
pub fn validate_features(spec: &ModelSpec, x: &Vec<Vec<Number>>, limits: &Limits) -> (checked:
    Result<(), ApiError>)
    ensures
        refusal(checked) == features_fault(spec@, rows_view(x@), *limits),
{
    if x.len() == 0 {
        return Err(ApiError::bad_request("'x' has no samples".to_owned()));
    }
    if x.len() > limits.max_samples {
        let mut message = "'x' has ".to_owned();
        push_count(&mut message, x.len());
        message.append(" samples, the limit is ");
        push_count(&mut message, limits.max_samples);
        return Err(ApiError::bad_request(message));
    }
    if let Some(row) = find_other_width(x, spec.features) {
        assert(rows_view(x@)[row as int] == x@[row as int]@);
        let mut message = "the model takes ".to_owned();
        push_count(&mut message, spec.features);
        message.append(" features per sample, but row ");
        push_count(&mut message, row);
        message.append(" of 'x' has ");
        push_count(&mut message, x[row].len());
        return Err(ApiError::bad_request(message));
    }
    Ok(())
}

/// x and y as training and evaluating need them: one row per sample, x as wide
/// as the model's input and y as wide as its last layer.
pub fn validate_samples(
    spec: &ModelSpec,
    x: &Vec<Vec<Number>>,
    y: &Vec<Vec<Number>>,
    limits: &Limits,
) -> (checked: Result<(), ApiError>)
    ensures
        refusal(checked) == samples_fault(spec@, rows_view(x@), rows_view(y@), *limits),
{
    match validate_features(spec, x, limits) {
        Ok(_) => {},
        Err(error) => return Err(error),
    }
    if y.len() != x.len() {
        let mut message = "'x' has ".to_owned();
        push_count(&mut message, x.len());
        message.append(" samples but 'y' has ");
        push_count(&mut message, y.len());
        return Err(ApiError::bad_request(message));
    }
    let output_units = spec.output_units();
    if let Some(row) = find_other_width(y, output_units) {
        assert(rows_view(y@)[row as int] == y@[row as int]@);
        let mut message = "the last layer has ".to_owned();
        push_count(&mut message, output_units);
        message.append(" units, so every row of 'y' needs ");
        push_count(&mut message, output_units);
        message.append(" values, but row ");
        push_count(&mut message, row);
        message.append(" has ");
        push_count(&mut message, y[row].len());
        return Err(ApiError::bad_request(message));
    }
    Ok(())
}

/// Samples that pass are as many as the targets, at least one and no more than
/// the limit, and in the shapes the model takes and gives.
pub proof fn accepted_samples_fit(
    spec: ModelSpecView,
    x: Seq<Seq<Number>>,
    y: Seq<Seq<Number>>,
    limits: Limits,
)
    requires
        samples_fault(spec, x, y, limits) is None,
    ensures
        1 <= x.len() <= limits.max_samples,
        shaped(x, x.len() as int, spec.features as int),
        shaped(y, x.len() as int, spec.output_units() as int),
{
    other_width_is_first(x, spec.features as int, 0);
    other_width_is_first(y, spec.output_units() as int, 0);
}

// ---------------------------------------------------------- creating models

/// Keras' `fit` default, used when neither the model nor the request names
/// one.
pub const DEFAULT_BATCH_SIZE: usize = 32;

/// The model a client asks for.
#[derive(Debug)]
pub struct CreateModelRequest {
    pub name: Option<String>,
    /// Keras' `Input(shape=(features,))`.
    pub features: usize,
    pub layers: Vec<LayerRequest>,
    /// Needed to train and evaluate, not to predict. It can also be given
    /// later, with the training data.
    pub loss: Option<LossKind>,
    pub optimizer: Option<OptimizerRequest>,
    /// Makes the initial weights and the batch order reproducible. Left out,
    /// one is drawn and reported back.
    pub seed: Option<u64>,
    /// Samples per gradient step, remembered as this model's default.
    pub batch_size: Option<usize>,
    /// Weights from an earlier model. Layers left out keep their fresh ones.
    pub weights: Option<Vec<LayerWeights>>,
}

/// What is said of a model with no features, or too many.
pub open spec fn features_message(limit: nat, features: nat) -> Seq<char> {
    "'features' must be between 1 and "@ + decimal(limit) + ", got "@ + decimal(features)
}

/// What is said of a model with too many layers.
pub open spec fn layers_message(layers: nat, limit: nat) -> Seq<char> {
    "'layers' holds "@ + decimal(layers) + " layers, the limit is "@ + decimal(limit)
}

/// What is said of a layer with no units, or too many.
pub open spec fn units_message(name: Seq<char>, units: nat, limit: nat) -> Seq<char> {
    "layer '"@ + name + "' has "@ + decimal(units) + " units, it must be between 1 and "@ + decimal(
        limit,
    )
}

/// What is wrong with the units of the first layer from `from` on that has
/// none, or too many.
pub open spec fn units_fault(
    layers: Seq<LayerRequest>,
    names: Seq<Seq<char>>,
    limit: usize,
    from: int,
) -> Option<ErrorView>
    decreases layers.len() - from,
{
    if from < 0 || from >= layers.len() {
        None
    } else if layers[from].units == 0 || layers[from].units > limit {
        Some(
            bad_request(units_message(names[from], layers[from].units as nat, limit as nat)),
        )
    } else {
        units_fault(layers, names, limit, from + 1)
    }
}

/// Layers that pass have at least one unit, and no more than the limit.
pub proof fn accepted_units_fit(
    layers: Seq<LayerRequest>,
    names: Seq<Seq<char>>,
    limit: usize,
    from: int,
)
    requires
        0 <= from,
        units_fault(layers, names, limit, from) is None,
    ensures
        forall|i: int| from <= i < layers.len() ==> 1 <= (#[trigger] layers[i]).units <= limit,
    decreases layers.len() - from,
{
    if from < layers.len() {
        accepted_units_fit(layers, names, limit, from + 1);
    }
}

/// The layers a request asks for, under the names that were resolved for them.
pub open spec fn named_layers(layers: Seq<LayerRequest>, names: Seq<Seq<char>>) -> Seq<
    LayerSpecView,
> {
    Seq::new(
        layers.len(),
        |i: int|
            LayerSpecView {
                name: names[i],
                units: layers[i].units,
                activation: layers[i].activation,
            },
    )
}

impl CreateModelRequest {
    /// The weights the request carries.
    pub open spec fn sent_weights(self) -> Seq<LayerWeightsView> {
        match self.weights {
            Some(weights) => weights_view(weights@),
            None => Seq::empty(),
        }
    }

    /// The layers of the model, or why they cannot be had.
    pub open spec fn resolved_layers(self, limits: Limits) -> Result<
        Seq<LayerSpecView>,
        ErrorView,
    > {
        if self.features == 0 || self.features > limits.max_features {
            Err(
                bad_request(features_message(limits.max_features as nat, self.features as nat)),
            )
        } else if self.layers@.len() == 0 {
            Err(bad_request("'layers' must hold at least one layer"@))
        } else if self.layers@.len() > limits.max_layers {
            Err(bad_request(layers_message(self.layers@.len(), limits.max_layers as nat)))
        } else {
            match layer_names(self.layers@, self.layers@.len()) {
                Err(error) => Err(error),
                Ok(names) => match units_fault(
                    self.layers@,
                    names,
                    limits.max_units_per_layer,
                    0,
                ) {
                    Some(error) => Err(error),
                    None => Ok(named_layers(self.layers@, names)),
                },
            }
        }
    }

    /// The architecture of the model, seeded with `drawn` where the request
    /// brings no seed.
    pub open spec fn resolved_spec(self, limits: Limits, drawn: u64) -> Result<
        ModelSpecView,
        ErrorView,
    > {
        match self.resolved_layers(limits) {
            Err(error) => Err(error),
            Ok(layers) => match optimizer_for(self.optimizer, self.loss) {
                Err(error) => Err(error),
                Ok(optimizer) => Ok(
                    ModelSpecView {
                        features: self.features,
                        layers,
                        loss: self.loss,
                        optimizer,
                        seed: match self.seed {
                            Some(seed) => seed,
                            None => drawn,
                        },
                    },
                ),
            },
        }
    }

    /// The model's name, or why it cannot be had.
    pub open spec fn resolved_name(self) -> Result<Seq<char>, ErrorView> {
        match self.name {
            Some(name) => if blank(name@) {
                Err(bad_request("'name' must not be blank"@))
            } else {
                Ok(name@)
            },
            None => Ok("sequential"@),
        }
    }

    /// The samples per gradient step, Keras' own where the request names none.
    pub open spec fn resolved_batch_size(self) -> usize {
        match self.batch_size {
            Some(size) => size,
            None => DEFAULT_BATCH_SIZE,
        }
    }

    /// The model this request asks for, or the first thing wrong with it.
    pub open spec fn parts(self, limits: Limits, drawn: u64) -> Result<NewModelView, ErrorView> {
        match self.resolved_spec(limits, drawn) {
            Err(error) => Err(error),
            Ok(spec) => match weights_fault(spec, self.sent_weights(), 0) {
                Some(error) => Err(error),
                None => if self.resolved_batch_size() == 0 {
                    Err(bad_request("'batch_size' must be at least 1"@))
                } else {
                    match self.resolved_name() {
                        Err(error) => Err(error),
                        Ok(name) => Ok(
                            NewModelView {
                                name,
                                spec,
                                weights: self.sent_weights(),
                                batch_size: self.resolved_batch_size(),
                            },
                        ),
                    }
                },
            },
        }
    }

    /// The layers of the model, or why they cannot be had.
    fn checked_layers(&self, limits: &Limits) -> (layers: Result<Vec<LayerSpec>, ApiError>)
        ensures
            match layers {
                Ok(layers) => self.resolved_layers(*limits) == Ok::<
                    Seq<LayerSpecView>,
                    ErrorView,
                >(layers_view(layers@)),
                Err(error) => self.resolved_layers(*limits) == Err::<
                    Seq<LayerSpecView>,
                    ErrorView,
                >(error@),
            },
    {
        if self.features == 0 || self.features > limits.max_features {
            let mut message = "'features' must be between 1 and ".to_owned();
            push_count(&mut message, limits.max_features);
            message.append(", got ");
            push_count(&mut message, self.features);
            return Err(ApiError::bad_request(message));
        }
        if self.layers.len() == 0 {
            return Err(ApiError::bad_request("'layers' must hold at least one layer".to_owned()));
        }
        if self.layers.len() > limits.max_layers {
            let mut message = "'layers' holds ".to_owned();
            push_count(&mut message, self.layers.len());
            message.append(" layers, the limit is ");
            push_count(&mut message, limits.max_layers);
            return Err(ApiError::bad_request(message));
        }
        let names = match resolve_layer_names(&self.layers) {
            Ok(names) => names,
            Err(error) => return Err(error),
        };
        proof {
            resolved_names_differ(self.layers@, self.layers@.len());
        }
        let mut layers: Vec<LayerSpec> = Vec::with_capacity(self.layers.len());
        let mut index: usize = 0;
        while index < self.layers.len()
            invariant
                index <= self.layers@.len(),
                names@.len() == self.layers@.len(),
                layers@.len() == index,
                forall|i: int|
                    0 <= i < index ==> (#[trigger] layers@[i])@ == named_layers(
                        self.layers@,
                        texts_view(names@),
                    )[i],
                units_fault(
                    self.layers@,
                    texts_view(names@),
                    limits.max_units_per_layer,
                    0,
                ) == units_fault(
                    self.layers@,
                    texts_view(names@),
                    limits.max_units_per_layer,
                    index as int,
                ),
                self.resolved_layers(*limits) == (match units_fault(
                    self.layers@,
                    texts_view(names@),
                    limits.max_units_per_layer,
                    0,
                ) {
                    Some(error) => Err::<Seq<LayerSpecView>, ErrorView>(error),
                    None => Ok::<Seq<LayerSpecView>, ErrorView>(
                        named_layers(self.layers@, texts_view(names@)),
                    ),
                }),
            decreases self.layers@.len() - index,
        {
            let layer = &self.layers[index];
            assert(texts_view(names@)[index as int] == names@[index as int]@);
            if layer.units == 0 || layer.units > limits.max_units_per_layer {
                let mut message = "layer '".to_owned();
                message.append(names[index].as_str());
                message.append("' has ");
                push_count(&mut message, layer.units);
                message.append(" units, it must be between 1 and ");
                push_count(&mut message, limits.max_units_per_layer);
                return Err(ApiError::bad_request(message));
            }
            layers.push(
                LayerSpec {
                    name: names[index].clone(),
                    units: layer.units,
                    activation: layer.activation,
                },
            );
            index += 1;
        }
        assert(layers_view(layers@) =~= named_layers(self.layers@, texts_view(names@)));
        Ok(layers)
    }

    /// The validated model this request asks for, seeded with `drawn` where it
    /// brings no seed of its own.
    pub fn into_parts_seeded(self, limits: &Limits, drawn: u64) -> (parts: Result<
        NewModel,
        ApiError,
    >)
        ensures
            outcome(parts) == self.parts(*limits, drawn),
    {
        let layers = match self.checked_layers(limits) {
            Ok(layers) => layers,
            Err(error) => return Err(error),
        };
        let optimizer = match resolve_optimizer(self.optimizer, self.loss) {
            Ok(optimizer) => optimizer,
            Err(error) => return Err(error),
        };
        let seed: u64 = match self.seed {
            Some(seed) => seed,
            None => drawn,
        };
        let spec = ModelSpec { features: self.features, layers, loss: self.loss, optimizer, seed };
        let weights = match self.weights {
            Some(weights) => weights,
            None => Vec::new(),
        };
        assert(weights_view(weights@) =~= self.sent_weights());
        match validate_weights(&spec, &weights) {
            Ok(_) => {},
            Err(error) => return Err(error),
        }
        let batch_size: usize = match self.batch_size {
            Some(size) => size,
            None => DEFAULT_BATCH_SIZE,
        };
        if batch_size == 0 {
            return Err(ApiError::bad_request("'batch_size' must be at least 1".to_owned()));
        }
        let name = match self.name {
            Some(name) => {
                if is_blank(name.as_str()) {
                    return Err(ApiError::bad_request("'name' must not be blank".to_owned()));
                }
                name
            },
            None => "sequential".to_owned(),
        };
        Ok(NewModel { name, spec, weights, batch_size })
    }

    /// The validated model this request asks for. Where it brings no seed, one
    /// is drawn from the system's randomness: which one is chance, everything
    /// else about the model is not.
    pub fn into_parts(self, limits: &Limits) -> (parts: Result<NewModel, ApiError>)
        ensures
            self.seed matches Some(seed) ==> outcome(parts) == self.parts(*limits, seed),
            self.seed is None ==> exists|id: u128| #[trigger]
                version_4(id) && outcome(parts) == self.parts(*limits, seed_of(id)),
    {
        let drawn: u64 = match self.seed {
            Some(seed) => seed,
            None => random_seed(),
        };
        self.into_parts_seeded(limits, drawn)
    }
}

/// A model that is accepted can be built: there is at least one feature, at
/// least one layer and at least one unit in each, the layers can be told
/// apart, and the weights that came along fit the layers they name.
pub proof fn accepted_model_can_be_built(request: CreateModelRequest, limits: Limits, drawn: u64)
    requires
        request.parts(limits, drawn) is Ok,
    ensures
        ({
            let parts = request.parts(limits, drawn)->Ok_0;
            &&& parts.spec.buildable()
            &&& parts.spec.features <= limits.max_features
            &&& parts.spec.layers.len() <= limits.max_layers
            &&& forall|i: int|
                0 <= i < parts.spec.layers.len() ==> (#[trigger] parts.spec.layers[i]).units
                    <= limits.max_units_per_layer
            &&& parts.batch_size > 0
            &&& !blank(parts.name)
            &&& weights_fault(parts.spec, parts.weights, 0) is None
            &&& forall|i: int|
                0 <= i < parts.weights.len() ==> fills_a_matrix(#[trigger] parts.weights[i])
        }),
{
    let parts = request.parts(limits, drawn)->Ok_0;
    let names = layer_names(request.layers@, request.layers@.len())->Ok_0;
    resolved_names_differ(request.layers@, request.layers@.len());
    accepted_units_fit(request.layers@, names, limits.max_units_per_layer, 0);
    accepted_weights_fit(parts.spec, parts.weights, 0);
    assert forall|i: int| 0 <= i < parts.weights.len() implies fills_a_matrix(
        #[trigger] parts.weights[i],
    ) by {
        joined_length(parts.weights[i].weights, parts.weights[i].bias.len());
    }
    reveal_strlit("sequential");
    assert(!white_space("sequential"@[0]));
}

/// Every model has a seed: the one the request brought, or the one drawn for
/// it. Sending back the seed a model reports asks for the very same model.
pub proof fn reported_seed_asks_for_the_same_model(
    request: CreateModelRequest,
    again: CreateModelRequest,
    limits: Limits,
    drawn: u64,
    other: u64,
)
    requires
        request.parts(limits, drawn) is Ok,
        again == (CreateModelRequest {
            seed: Some(request.parts(limits, drawn)->Ok_0.spec.seed),
            ..request
        }),
    ensures
        again.parts(limits, other) == request.parts(limits, drawn),
        request.seed matches Some(seed) ==> request.parts(limits, drawn)->Ok_0.spec.seed == seed,
        request.seed is None ==> request.parts(limits, drawn)->Ok_0.spec.seed == drawn,
{
}

/// A model with a loss is stored with an optimizer.
pub proof fn compiled_models_have_both(request: CreateModelRequest, limits: Limits, drawn: u64)
    requires
        request.parts(limits, drawn) is Ok,
        request.loss is Some,
    ensures
        request.parts(limits, drawn)->Ok_0.spec.loss == request.loss,
        request.parts(limits, drawn)->Ok_0.spec.optimizer is Some,
{
}

// ---------------------------------------------------------- other requests

/// Keras' `fit`. Each of x and y arrives inline or as the path of a file.
#[derive(Debug)]
pub struct TrainRequest {
    /// One row per sample, one column per feature.
    pub x: Option<Vec<Vec<Number>>>,
    pub x_path: Option<String>,
    /// One row per sample, one column per unit of the last layer.
    pub y: Option<Vec<Vec<Number>>>,
    pub y_path: Option<String>,
    pub epochs: usize,
    /// Samples per gradient step, for this run only. Left out, the model's own
    /// default is used.
    pub batch_size: Option<usize>,
    pub shuffle: bool,
    /// Compiles the model before training, like calling `compile` again.
    pub loss: Option<LossKind>,
    pub optimizer: Option<OptimizerRequest>,
    /// Reseeds the model for this run only.
    pub seed: Option<u64>,
    /// `false` leaves the per-epoch losses out of the response.
    pub return_history: bool,
}

/// Keras' `fit` on columns scaled by powers of ten.
#[derive(Debug)]
pub struct ScaledTrainRequest {
    pub model_id: String,
    pub run: TrainRequest,
}

/// Keras' `predict`.
#[derive(Debug)]
pub struct PredictRequest {
    pub x: Option<Vec<Vec<Number>>>,
    pub x_path: Option<String>,
}

/// Keras' `evaluate`.
#[derive(Debug)]
pub struct EvaluateRequest {
    pub x: Option<Vec<Vec<Number>>>,
    pub x_path: Option<String>,
    pub y: Option<Vec<Vec<Number>>>,
    pub y_path: Option<String>,
    /// Evaluates against this loss instead of the compiled one.
    pub loss: Option<LossKind>,
}

/// Keras' `set_weights`.
#[derive(Debug)]
pub struct SetWeightsRequest {
    /// Layers left out keep the weights they have.
    pub layers: Vec<LayerWeights>,
}

/// Column based scaling.
#[derive(Debug)]
pub struct ScaleRequest {
    pub x: Vec<Vec<Number>>,
    /// Exactly one column.
    pub y: Vec<Vec<Number>>,
}

/// The epochs of a run that names none: Keras' own default.
pub fn default_epochs() -> (epochs: usize)
    ensures
        epochs == 1,
{
    1
}

/// Whether a run shuffles its samples and reports its losses when it is not
/// told.
pub fn default_true() -> (value: bool)
    ensures
        value,
{
    true
}

// --------------------------------------------------------------- responses

/// One layer of a model.
#[derive(Debug)]
pub struct LayerResponse {
    pub name: String,
    pub units: usize,
    pub activation: ActivationKind,
    /// Values this layer takes per sample.
    pub input_count: usize,
    pub params: usize,
}

/// A [`LayerResponse`] as a value.
#[verifier::ext_equal]
pub struct LayerResponseView {
    pub name: Seq<char>,
    pub units: usize,
    pub activation: ActivationKind,
    pub input_count: usize,
    pub params: usize,
}

impl View for LayerResponse {
    type V = LayerResponseView;

    open spec fn view(&self) -> LayerResponseView {
        LayerResponseView {
            name: self.name@,
            units: self.units,
            activation: self.activation,
            input_count: self.input_count,
            params: self.params,
        }
    }
}

/// One model in full, Keras' `summary()` included.
#[derive(Debug)]
pub struct ModelResponse {
    pub id: u128,
    pub name: String,
    pub features: usize,
    pub output_units: usize,
    pub total_params: usize,
    pub layers: Vec<LayerResponse>,
    pub loss: Option<LossKind>,
    pub optimizer: Option<OptimizerConfig>,
    /// The seed in use, whether the request brought it or the server drew it.
    pub seed: u64,
    /// The samples per gradient step a train request gets when it sends none.
    pub batch_size: usize,
    /// Every epoch ever run on this model.
    pub trained_epochs: usize,
    pub last_loss: Option<Number>,
    pub created_at_ms: u64,
    pub updated_at_ms: u64,
    /// The table `model.summary()` prints.
    pub summary: String,
}

/// A [`ModelResponse`] as a value.
#[verifier::ext_equal]
pub struct ModelResponseView {
    pub id: u128,
    pub name: Seq<char>,
    pub features: usize,
    pub output_units: usize,
    pub total_params: usize,
    pub layers: Seq<LayerResponseView>,
    pub loss: Option<LossKind>,
    pub optimizer: Option<OptimizerConfig>,
    pub seed: u64,
    pub batch_size: usize,
    pub trained_epochs: usize,
    pub last_loss: Option<Number>,
    pub created_at_ms: u64,
    pub updated_at_ms: u64,
    pub summary: Seq<char>,
}

impl View for ModelResponse {
    type V = ModelResponseView;

    open spec fn view(&self) -> ModelResponseView {
        ModelResponseView {
            id: self.id,
            name: self.name@,
            features: self.features,
            output_units: self.output_units,
            total_params: self.total_params,
            layers: self.layers@.map_values(|layer: LayerResponse| layer@),
            loss: self.loss,
            optimizer: self.optimizer,
            seed: self.seed,
            batch_size: self.batch_size,
            trained_epochs: self.trained_epochs,
            last_loss: self.last_loss,
            created_at_ms: self.created_at_ms,
            updated_at_ms: self.updated_at_ms,
            summary: self.summary@,
        }
    }
}

/// What is told of the layers: the activation from the spec, the rest from the
/// report, as far as both go.
pub open spec fn layer_responses(layers: Seq<LayerSpecView>, reports: Seq<LayerReportView>) -> Seq<
    LayerResponseView,
> {
    Seq::new(
        if layers.len() <= reports.len() {
            layers.len()
        } else {
            reports.len()
        },
        |i: int|
            LayerResponseView {
                name: reports[i].name,
                units: reports[i].units,
                activation: layers[i].activation,
                input_count: reports[i].input_count,
                params: reports[i].params,
            },
    )
}

/// What is told of a model that was built once and reported on.
pub open spec fn model_response(
    model: StoredModelView,
    report: ModelReportView,
) -> ModelResponseView {
    ModelResponseView {
        id: model.id,
        name: model.name,
        features: model.spec.features,
        output_units: model.spec.output_units(),
        total_params: report.total_params,
        layers: layer_responses(model.spec.layers, report.layers),
        loss: model.spec.loss,
        optimizer: model.spec.optimizer,
        seed: model.spec.seed,
        batch_size: model.batch_size,
        trained_epochs: model.trained_epochs,
        last_loss: model.last_loss,
        created_at_ms: model.created_at_ms,
        updated_at_ms: model.updated_at_ms,
        summary: report.summary,
    }
}

impl ModelResponse {
    /// The model as it is stored, and as it was built.
    pub fn new(model: &StoredModel, report: ModelReport) -> (response: Self)
        ensures
            response@ == model_response(model@, report@),
    {
        let ghost reported = report@;
        let mut layers: Vec<LayerResponse> = Vec::with_capacity(report.layers.len());
        let mut index: usize = 0;
        while index < model.spec.layers.len() && index < report.layers.len()
            invariant
                index <= model.spec.layers@.len(),
                index <= report.layers@.len(),
                layers@.len() == index,
                reported == report@,
                forall|i: int|
                    0 <= i < index ==> (#[trigger] layers@[i])@ == layer_responses(
                        model@.spec.layers,
                        reported.layers,
                    )[i],
            decreases report.layers@.len() - index,
        {
            let built = &report.layers[index];
            assert(reported.layers[index as int] == built@);
            assert(model@.spec.layers[index as int] == model.spec.layers@[index as int]@);
            layers.push(
                LayerResponse {
                    name: built.name.clone(),
                    units: built.units,
                    activation: model.spec.layers[index].activation,
                    input_count: built.input_count,
                    params: built.params,
                },
            );
            index += 1;
        }
        let response = ModelResponse {
            id: model.id,
            name: model.name.clone(),
            features: model.spec.features,
            output_units: model.spec.output_units(),
            total_params: report.total_params,
            layers,
            loss: model.spec.loss,
            optimizer: model.spec.optimizer,
            seed: model.spec.seed,
            batch_size: model.batch_size,
            trained_epochs: model.trained_epochs,
            last_loss: model.last_loss,
            created_at_ms: model.created_at_ms,
            updated_at_ms: model.updated_at_ms,
            summary: report.summary,
        };
        assert(response@.layers =~= model_response(model@, reported).layers);
        response
    }
}

/// A model in the list, without the summary table.
#[derive(Debug)]
pub struct ModelListEntry {
    pub id: u128,
    pub name: String,
    pub features: usize,
    pub output_units: usize,
    pub total_params: usize,
    pub loss: Option<LossKind>,
    pub optimizer: Option<OptimizerConfig>,
    pub seed: u64,
    pub batch_size: usize,
    pub trained_epochs: usize,
    pub last_loss: Option<Number>,
    pub created_at_ms: u64,
    pub updated_at_ms: u64,
}

/// A [`ModelListEntry`] as a value.
#[verifier::ext_equal]
pub struct ModelListEntryView {
    pub id: u128,
    pub name: Seq<char>,
    pub features: usize,
    pub output_units: usize,
    pub total_params: usize,
    pub loss: Option<LossKind>,
    pub optimizer: Option<OptimizerConfig>,
    pub seed: u64,
    pub batch_size: usize,
    pub trained_epochs: usize,
    pub last_loss: Option<Number>,
    pub created_at_ms: u64,
    pub updated_at_ms: u64,
}

impl View for ModelListEntry {
    type V = ModelListEntryView;

    open spec fn view(&self) -> ModelListEntryView {
        ModelListEntryView {
            id: self.id,
            name: self.name@,
            features: self.features,
            output_units: self.output_units,
            total_params: self.total_params,
            loss: self.loss,
            optimizer: self.optimizer,
            seed: self.seed,
            batch_size: self.batch_size,
            trained_epochs: self.trained_epochs,
            last_loss: self.last_loss,
            created_at_ms: self.created_at_ms,
            updated_at_ms: self.updated_at_ms,
        }
    }
}

/// What the list tells of a model.
pub open spec fn list_entry(model: StoredModelView) -> ModelListEntryView {
    ModelListEntryView {
        id: model.id,
        name: model.name,
        features: model.spec.features,
        output_units: model.spec.output_units(),
        total_params: model.spec.params() as usize,
        loss: model.spec.loss,
        optimizer: model.spec.optimizer,
        seed: model.spec.seed,
        batch_size: model.batch_size,
        trained_epochs: model.trained_epochs,
        last_loss: model.last_loss,
        created_at_ms: model.created_at_ms,
        updated_at_ms: model.updated_at_ms,
    }
}

impl ModelListEntry {
    /// What the list tells of a model.
    pub fn of(model: &StoredModel) -> (entry: Self)
        requires
            model@.spec.params() <= usize::MAX,
        ensures
            entry@ == list_entry(model@),
    {
        ModelListEntry {
            id: model.id,
            name: model.name.clone(),
            features: model.spec.features,
            output_units: model.spec.output_units(),
            total_params: model.spec.total_params(),
            loss: model.spec.loss,
            optimizer: model.spec.optimizer,
            seed: model.spec.seed,
            batch_size: model.batch_size,
            trained_epochs: model.trained_epochs,
            last_loss: model.last_loss,
            created_at_ms: model.created_at_ms,
            updated_at_ms: model.updated_at_ms,
        }
    }
}

/// The list and the full response count a model's parameters alike, where the
/// report is about that model.
pub proof fn the_list_counts_what_the_engine_counts(
    model: StoredModelView,
    report: ModelReportView,
)
    requires
        report.describes(model.spec),
    ensures
        list_entry(model).total_params == model_response(model, report).total_params,
        model_response(model, report).layers.len() == model.spec.layers.len(),
        forall|i: int|
            0 <= i < model.spec.layers.len() ==> (#[trigger] model_response(
                model,
                report,
            ).layers[i]).name == model.spec.layers[i].name,
{
}

/// Every model the server holds.
#[derive(Debug)]
pub struct ModelListResponse {
    pub count: usize,
    pub models: Vec<ModelListEntry>,
}

/// What `fit` returned, plus what it cost.
#[derive(Debug)]
pub struct TrainResponse {
    pub id: u128,
    pub epochs: usize,
    pub batch_size: usize,
    pub samples: usize,
    pub loss_function: LossKind,
    pub optimizer: OptimizerConfig,
    /// The first epoch's mean loss.
    pub initial_loss: Number,
    /// The last epoch's mean loss.
    pub final_loss: Number,
    /// One entry per epoch, unless the request asked for none.
    pub loss: Option<Vec<Number>>,
    /// Every epoch ever run on this model, this run included.
    pub trained_epochs: usize,
    pub duration_ms: u64,
    /// The powers of ten the columns were divided by, on a column-scaled run.
    pub ten_power_ratios: Option<Vec<usize>>,
}

/// A [`TrainResponse`] as a value.
#[verifier::ext_equal]
pub struct TrainResponseView {
    pub id: u128,
    pub epochs: usize,
    pub batch_size: usize,
    pub samples: usize,
    pub loss_function: LossKind,
    pub optimizer: OptimizerConfig,
    pub initial_loss: Number,
    pub final_loss: Number,
    pub loss: Option<Seq<Number>>,
    pub trained_epochs: usize,
    pub duration_ms: u64,
    pub ten_power_ratios: Option<Seq<usize>>,
}

impl View for TrainResponse {
    type V = TrainResponseView;

    open spec fn view(&self) -> TrainResponseView {
        TrainResponseView {
            id: self.id,
            epochs: self.epochs,
            batch_size: self.batch_size,
            samples: self.samples,
            loss_function: self.loss_function,
            optimizer: self.optimizer,
            initial_loss: self.initial_loss,
            final_loss: self.final_loss,
            loss: match self.loss {
                Some(losses) => Some(losses@),
                None => None,
            },
            trained_epochs: self.trained_epochs,
            duration_ms: self.duration_ms,
            ten_power_ratios: ratios_view(self.ten_power_ratios),
        }
    }
}

/// Keras' `predict`, answered.
#[derive(Debug)]
pub struct PredictResponse {
    pub id: u128,
    pub rows: usize,
    pub columns: usize,
    /// One row per sample, one column per unit of the last layer.
    pub predictions: Vec<Vec<Number>>,
}

/// A [`PredictResponse`] as a value.
#[verifier::ext_equal]
pub struct PredictResponseView {
    pub id: u128,
    pub rows: usize,
    pub columns: usize,
    pub predictions: Seq<Seq<Number>>,
}

impl View for PredictResponse {
    type V = PredictResponseView;

    open spec fn view(&self) -> PredictResponseView {
        PredictResponseView {
            id: self.id,
            rows: self.rows,
            columns: self.columns,
            predictions: rows_view(self.predictions@),
        }
    }
}

/// Keras' `evaluate`, answered.
#[derive(Clone, Copy, Debug, PartialEq, Eq, Structural)]
pub struct EvaluateResponse {
    pub id: u128,
    pub loss_function: LossKind,
    pub loss: Number,
    pub samples: usize,
}

/// Keras' `get_weights`, answered.
#[derive(Debug)]
pub struct WeightsResponse {
    pub id: u128,
    pub layers: Vec<LayerWeights>,
}

/// A [`WeightsResponse`] as a value.
#[verifier::ext_equal]
pub struct WeightsResponseView {
    pub id: u128,
    pub layers: Seq<LayerWeightsView>,
}

impl View for WeightsResponse {
    type V = WeightsResponseView;

    open spec fn view(&self) -> WeightsResponseView {
        WeightsResponseView { id: self.id, layers: weights_view(self.layers@) }
    }
}

/// Scaled columns, and the exponents they were scaled by.
#[derive(Debug)]
pub struct ScaleResponse {
    pub x: Vec<Vec<Number>>,
    pub y: Vec<Vec<Number>>,
    /// One exponent per feature column, and y's as the last entry. A
    /// prediction goes back to the original scale multiplied by ten to the
    /// power of that last entry.
    pub ten_power_ratios: Vec<usize>,
}

/// A [`ScaleResponse`] as a value.
#[verifier::ext_equal]
pub struct ScaleResponseView {
    pub x: Seq<Seq<Number>>,
    pub y: Seq<Seq<Number>>,
    pub ten_power_ratios: Seq<usize>,
}

impl View for ScaleResponse {
    type V = ScaleResponseView;

    open spec fn view(&self) -> ScaleResponseView {
        ScaleResponseView {
            x: rows_view(self.x@),
            y: rows_view(self.y@),
            ten_power_ratios: self.ten_power_ratios@,
        }
    }
}

/// Whether the server is up.
#[derive(Clone, Copy, Debug)]
pub struct HealthResponse {
    pub status: &'static str,
    pub service: &'static str,
    pub version: &'static str,
    pub models: usize,
}

} // verus!
