//! The bridge to the engine.
//!
//! The engine computes on floating point matrices and is driven from outside
//! this library. What it is told and what is made of its answers is decided
//! here, on plain data: a [`Matrix`] is a shape and a row-major buffer, a
//! [`BuildPlan`] says what to build, and a [`BuiltModel`] is what was read back.

use vstd::prelude::*;

use crate::error::{bad_request, outcome, ApiError, ErrorView};
use crate::fidelity::builds_layers;
use crate::model::{
    complete, is_complete, layers_view, shaped, weights_view, LayerSpec, LayerSpecView, LayerWeights,
    LayerWeightsView, LossKind, ModelSpec, ModelSpecView, OptimizerConfig,
};
use crate::number::{copy_row, rows_view, Number};
use crate::text::{decimal, push_count, same};

verus! {

// ---------------------------------------------------------------- matrices

/// A matrix as the engine takes it.
#[derive(Debug)]
pub struct Matrix {
    pub row_count: usize,
    pub col_count: usize,
    /// Row by row, `row_count * col_count` of them.
    pub values: Vec<Number>,
}

/// A [`Matrix`] as a value.
#[verifier::ext_equal]
pub struct MatrixView {
    pub row_count: usize,
    pub col_count: usize,
    pub values: Seq<Number>,
}

impl View for Matrix {
    type V = MatrixView;

    open spec fn view(&self) -> MatrixView {
        MatrixView { row_count: self.row_count, col_count: self.col_count, values: self.values@ }
    }
}

impl MatrixView {
    /// The buffer is as long as the shape says.
    pub open spec fn wf(self) -> bool {
        self.values.len() == self.row_count * self.col_count
    }
}

/// The rows one after another.
pub open spec fn joined(rows: Seq<Seq<Number>>) -> Seq<Number>
    decreases rows.len(),
{
    if rows.len() == 0 {
        Seq::empty()
    } else {
        joined(rows.drop_last()) + rows.last()
    }
}

/// Rows of equal width take that width once each.
pub proof fn joined_length(rows: Seq<Seq<Number>>, width: nat)
    requires
        forall|i: int| 0 <= i < rows.len() ==> (#[trigger] rows[i]).len() == width,
    ensures
        joined(rows).len() == rows.len() * width,
    decreases rows.len(),
{
    if rows.len() > 0 {
        let shorter = rows.drop_last();
        assert forall|i: int| 0 <= i < shorter.len() implies (#[trigger] shorter[i]).len()
            == width by {
            assert(shorter[i] == rows[i]);
        }
        joined_length(shorter, width);
        assert(rows.last().len() == width);
        assert((rows.len() - 1) * width + width == rows.len() * width) by (nonlinear_arith)
            requires
                rows.len() > 0,
        ;
    } else {
        assert(0 * width == 0);
    }
}

/// The first row from `from` on that is not `width` wide.
pub open spec fn first_other_width(rows: Seq<Seq<Number>>, width: int, from: int) -> Option<int>
    decreases rows.len() - from,
{
    if from < 0 || from >= rows.len() {
        None
    } else if rows[from].len() != width {
        Some(from)
    } else {
        first_other_width(rows, width, from + 1)
    }
}

/// A row that is found is the first of another width; none found means all
/// rows are `width` wide.
pub proof fn other_width_is_first(rows: Seq<Seq<Number>>, width: int, from: int)
    requires
        0 <= from,
    ensures
        match first_other_width(rows, width, from) {
            Some(index) => {
                &&& from <= index < rows.len()
                &&& rows[index].len() != width
                &&& forall|i: int| from <= i < index ==> (#[trigger] rows[i]).len() == width
            },
            None => forall|i: int| from <= i < rows.len() ==> (#[trigger] rows[i]).len() == width,
        },
    decreases rows.len() - from,
{
    if from < rows.len() && rows[from].len() == width {
        other_width_is_first(rows, width, from + 1);
    }
}

/// The first row that is not `width` wide.
pub fn find_other_width(rows: &Vec<Vec<Number>>, width: usize) -> (index: Option<usize>)
    ensures
        match index {
            Some(index) => first_other_width(rows_view(rows@), width as int, 0) == Some(
                index as int,
            ),
            None => first_other_width(rows_view(rows@), width as int, 0) is None,
        },
        index matches Some(index) ==> index < rows@.len(),
{
    let mut index: usize = 0;
    while index < rows.len()
        invariant
            index <= rows@.len(),
            first_other_width(rows_view(rows@), width as int, 0) == first_other_width(
                rows_view(rows@),
                width as int,
                index as int,
            ),
        decreases rows@.len() - index,
    {
        assert(rows_view(rows@)[index as int] == rows@[index as int]@);
        if rows[index].len() != width {
            return Some(index);
        }
        index += 1;
    }
    None
}

/// The first value from `from` on that is infinite or a NaN.
pub open spec fn first_not_finite(values: Seq<Number>, from: int) -> Option<int>
    decreases values.len() - from,
{
    if from < 0 || from >= values.len() {
        None
    } else if !values[from].finite() {
        Some(from)
    } else {
        first_not_finite(values, from + 1)
    }
}

/// A value that is found is the first that is not finite; none found means
/// all of them are.
pub proof fn not_finite_is_first(values: Seq<Number>, from: int)
    requires
        0 <= from,
    ensures
        match first_not_finite(values, from) {
            Some(index) => {
                &&& from <= index < values.len()
                &&& !values[index].finite()
                &&& forall|i: int| from <= i < index ==> (#[trigger] values[i]).finite()
            },
            None => forall|i: int| from <= i < values.len() ==> (#[trigger] values[i]).finite(),
        },
    decreases values.len() - from,
{
    if from < values.len() && values[from].finite() {
        not_finite_is_first(values, from + 1);
    }
}

/// The first value that is infinite or a NaN.
pub fn find_not_finite(values: &Vec<Number>) -> (index: Option<usize>)
    ensures
        match index {
            Some(index) => first_not_finite(values@, 0) == Some(index as int),
            None => first_not_finite(values@, 0) is None,
        },
        index matches Some(index) ==> index < values@.len(),
{
    let mut index: usize = 0;
    while index < values.len()
        invariant
            index <= values@.len(),
            first_not_finite(values@, 0) == first_not_finite(values@, index as int),
        decreases values@.len() - index,
    {
        if !values[index].is_finite() {
            return Some(index);
        }
        index += 1;
    }
    None
}

/// The rows one after another, in one buffer.
pub fn join(rows: &Vec<Vec<Number>>) -> (values: Vec<Number>)
    ensures
        values@ == joined(rows_view(rows@)),
{
    let mut values: Vec<Number> = Vec::new();
    let mut index: usize = 0;
    while index < rows.len()
        invariant
            index <= rows@.len(),
            values@ == joined(rows_view(rows@).take(index as int)),
        decreases rows@.len() - index,
    {
        let mut row = copy_row(&rows[index]);
        values.append(&mut row);
        proof {
            let upto = rows_view(rows@).take(index + 1);
            assert(upto.drop_last() =~= rows_view(rows@).take(index as int));
            assert(upto.last() == rows@[index as int]@);
        }
        index += 1;
    }
    assert(rows_view(rows@).take(rows@.len() as int) =~= rows_view(rows@));
    values
}

/// The width of the first row, 0 where there is none.
pub open spec fn first_width(rows: Seq<Seq<Number>>) -> nat {
    if rows.len() == 0 {
        0
    } else {
        rows[0].len()
    }
}

/// What is said of a row that is not as long as the first.
pub open spec fn uneven_message(
    field: Seq<char>,
    width: nat,
    row: nat,
    values: nat,
) -> Seq<char> {
    "'"@ + field + "' must be rectangular: row 0 has "@ + decimal(width) + " values but row "@
        + decimal(row) + " has "@ + decimal(values)
}

/// What is said of a value that is infinite or a NaN.
pub open spec fn not_finite_message(field: Seq<char>, row: nat, column: nat) -> Seq<char> {
    "'"@ + field + "' contains a value that is not finite at row "@ + decimal(row) + ", column "@
        + decimal(column)
}

/// `count`, but at least 1.
pub open spec fn at_least_1(count: nat) -> nat {
    if count == 0 {
        1
    } else {
        count
    }
}

/// The matrix that `rows` make, or why they make none: the first row that is
/// not as long as row 0, or else the first value that is not finite.
pub open spec fn matrix_from(rows: Seq<Seq<Number>>, field: Seq<char>) -> Result<
    MatrixView,
    ErrorView,
> {
    let width = first_width(rows);
    match first_other_width(rows, width as int, 0) {
        Some(row) => Err(
            bad_request(uneven_message(field, width, row as nat, rows[row].len())),
        ),
        None => match first_not_finite(joined(rows), 0) {
            Some(position) => Err(
                bad_request(
                    not_finite_message(
                        field,
                        (position / at_least_1(width) as int) as nat,
                        (position % at_least_1(width) as int) as nat,
                    ),
                ),
            ),
            None => Ok(
                MatrixView {
                    row_count: rows.len() as usize,
                    col_count: width as usize,
                    values: joined(rows),
                },
            ),
        },
    }
}

/// The rows a client sent as a matrix. Every row has to be as long as the
/// first, and every value finite.
pub fn matrix_of(rows: &Vec<Vec<Number>>, field: &str) -> (matrix: Result<Matrix, ApiError>)
    ensures
        outcome(matrix) == matrix_from(rows_view(rows@), field@),
        matrix matches Ok(matrix) ==> matrix@.wf(),
{
    let col_count = if rows.len() == 0 {
        0
    } else {
        rows[0].len()
    };
    assert(col_count == first_width(rows_view(rows@)));
    if let Some(index) = find_other_width(rows, col_count) {
        let mut message = "'".to_owned();
        message.append(field);
        message.append("' must be rectangular: row 0 has ");
        push_count(&mut message, col_count);
        message.append(" values but row ");
        push_count(&mut message, index);
        message.append(" has ");
        push_count(&mut message, rows[index].len());
        return Err(ApiError::bad_request(message));
    }
    let values = join(rows);
    if let Some(position) = find_not_finite(&values) {
        let width = if col_count == 0 {
            1
        } else {
            col_count
        };
        let mut message = "'".to_owned();
        message.append(field);
        message.append("' contains a value that is not finite at row ");
        push_count(&mut message, position / width);
        message.append(", column ");
        push_count(&mut message, position % width);
        return Err(ApiError::bad_request(message));
    }
    proof {
        other_width_is_first(rows_view(rows@), col_count as int, 0);
        joined_length(rows_view(rows@), col_count as nat);
    }
    Ok(Matrix { row_count: rows.len(), col_count, values })
}

/// `values` cut into pieces of `size`, the last one possibly shorter.
pub open spec fn chunks(values: Seq<Number>, size: nat) -> Seq<Seq<Number>>
    decreases values.len(),
{
    if values.len() == 0 || size == 0 {
        Seq::empty()
    } else if values.len() <= size {
        seq![values]
    } else {
        seq![values.take(size as int)] + chunks(values.skip(size as int), size)
    }
}

/// A matrix as the nested array a client receives: its rows.
pub fn rows_of(matrix: &Matrix) -> (rows: Vec<Vec<Number>>)
    ensures
        rows_view(rows@) == chunks(matrix@.values, at_least_1(matrix@.col_count as nat)),
{
    let size = if matrix.col_count == 0 {
        1
    } else {
        matrix.col_count
    };
    let mut rows: Vec<Vec<Number>> = Vec::new();
    let mut start: usize = 0;
    proof {
        assert(rows_view(rows@) =~= Seq::<Seq<Number>>::empty());
        assert(matrix@.values.skip(0) =~= matrix@.values);
        assert(Seq::<Seq<Number>>::empty() + chunks(matrix@.values, size as nat) =~= chunks(
            matrix@.values,
            size as nat,
        ));
    }
    while start < matrix.values.len()
        invariant
            start <= matrix.values@.len(),
            size > 0,
            chunks(matrix.values@, size as nat) == rows_view(rows@) + chunks(
                matrix.values@.skip(start as int),
                size as nat,
            ),
        decreases matrix.values@.len() - start,
    {
        let end = if matrix.values.len() - start <= size {
            matrix.values.len()
        } else {
            start + size
        };
        let mut row: Vec<Number> = Vec::with_capacity(end - start);
        let mut index: usize = start;
        while index < end
            invariant
                start <= index <= end <= matrix.values@.len(),
                row@ == matrix.values@.subrange(start as int, index as int),
            decreases end - index,
        {
            row.push(matrix.values[index]);
            index += 1;
        }
        proof {
            let rest = matrix.values@.skip(start as int);
            if rest.len() <= size {
                assert(row@ =~= rest);
                assert(matrix.values@.skip(end as int) =~= Seq::<Number>::empty());
            } else {
                assert(row@ =~= rest.take(size as int));
                assert(rest.skip(size as int) =~= matrix.values@.skip(end as int));
            }
            assert(chunks(rest, size as nat) =~= seq![row@] + chunks(
                matrix.values@.skip(end as int),
                size as nat,
            ));
        }
        let ghost before = rows@;
        rows.push(row);
        proof {
            assert(rows_view(rows@) =~= rows_view(before) + seq![row@]);
            assert(rows_view(before) + (seq![row@] + chunks(
                matrix.values@.skip(end as int),
                size as nat,
            )) =~= rows_view(rows@) + chunks(matrix.values@.skip(end as int), size as nat));
        }
        start = end;
    }
    assert(rows_view(rows@) + chunks(matrix.values@.skip(start as int), size as nat) =~= rows_view(
        rows@,
    ));
    rows
}

/// Rows of one positive width, joined and cut again, are the rows.
pub proof fn chunks_of_joined(rows: Seq<Seq<Number>>, width: nat)
    requires
        width > 0,
        forall|i: int| 0 <= i < rows.len() ==> (#[trigger] rows[i]).len() == width,
    ensures
        chunks(joined(rows), width) == rows,
    decreases rows.len(),
{
    joined_length(rows, width);
    if rows.len() == 0 {
        assert(joined(rows) =~= Seq::<Number>::empty());
        assert(rows =~= Seq::<Seq<Number>>::empty());
        assert(0 * width == 0);
    } else {
        let rest = rows.drop_first();
        assert forall|i: int| 0 <= i < rest.len() implies (#[trigger] rest[i]).len() == width by {
            assert(rest[i] == rows[i + 1]);
        }
        chunks_of_joined(rest, width);
        joined_from_the_front(rows);
        let values = joined(rows);
        assert(rows[0].len() == width);
        joined_length(rest, width);
        assert(values.take(width as int) =~= rows[0]);
        assert(values.skip(width as int) =~= joined(rest));
        if rest.len() == 0 {
            assert(0 * width == 0);
            assert(joined(rest) =~= Seq::<Number>::empty());
            assert(values =~= rows[0]);
            assert(rows =~= seq![rows[0]]);
        } else {
            assert(rest.len() * width >= width) by (nonlinear_arith)
                requires
                    rest.len() >= 1,
            ;
            assert(values.len() > width);
            assert(rows =~= seq![rows[0]] + rest);
        }
    }
}

/// A buffer that is as long as `rows` rows of a positive width is cut into just
/// these.
pub proof fn chunks_are_shaped(values: Seq<Number>, rows: nat, width: nat)
    requires
        width > 0,
        values.len() == rows * width,
    ensures
        shaped(chunks(values, width), rows as int, width as int),
    decreases rows,
{
    if rows == 0 {
        assert(0 * width == 0);
    } else {
        let rest = values.skip(width as int);
        assert(rows * width == (rows - 1) * width + width) by (nonlinear_arith)
            requires
                rows > 0,
        ;
        assert(0 <= (rows - 1) * width) by (nonlinear_arith)
            requires
                rows > 0,
        ;
        chunks_are_shaped(rest, (rows - 1) as nat, width);
        if rows == 1 {
            assert(0 * width == 0);
        } else {
            assert((rows - 1) * width > 0) by (nonlinear_arith)
                requires
                    rows > 1,
                    width > 0,
            ;
            let cut = chunks(values, width);
            assert forall|i: int| 0 <= i < cut.len() implies (#[trigger] cut[i]).len() == width by {
                if i > 0 {
                    assert(cut[i] == chunks(rest, width)[i - 1]);
                }
            }
        }
    }
}

/// In rows of one width that are joined, the value in column `j` of row `i`
/// stands right behind the `i` rows before it and the `j` values before it.
pub proof fn joined_values_stay_in_place(rows: Seq<Seq<Number>>, width: nat, i: int, j: int)
    requires
        forall|k: int| 0 <= k < rows.len() ==> (#[trigger] rows[k]).len() == width,
        0 <= i < rows.len(),
        0 <= j < width,
    ensures
        0 <= i * width,
        i * width + j < joined(rows).len(),
        joined(rows)[i * width + j] == rows[i][j],
    decreases rows.len(),
{
    let shorter = rows.drop_last();
    assert forall|k: int| 0 <= k < shorter.len() implies (#[trigger] shorter[k]).len() == width by {
        assert(shorter[k] == rows[k]);
    }
    joined_length(rows, width);
    joined_length(shorter, width);
    assert(rows.last().len() == width);
    assert(0 <= i * width) by (nonlinear_arith)
        requires
            0 <= i,
    ;
    if i < shorter.len() {
        joined_values_stay_in_place(shorter, width, i, j);
        assert(shorter[i] == rows[i]);
    } else {
        assert(i == shorter.len());
        assert(joined(shorter).len() == i * width);
    }
}

/// A buffer is cut into pieces that are full but for the last, with nothing
/// left over.
pub proof fn cut_pieces_are_full(values: Seq<Number>, size: nat)
    requires
        size > 0,
    ensures
        chunks(values, size).len() * size < values.len() + size,
        values.len() <= chunks(values, size).len() * size,
    decreases values.len(),
{
    if values.len() == 0 {
        assert(0 * size == 0);
    } else if values.len() <= size {
        assert(1 * size == size);
    } else {
        let others = chunks(values.skip(size as int), size);
        cut_pieces_are_full(values.skip(size as int), size);
        assert((others.len() + 1) * size == others.len() * size + size) by (nonlinear_arith);
        assert(chunks(values, size).len() == others.len() + 1);
    }
}

/// In a buffer that is cut, piece `i` is what stands behind `i` whole pieces.
pub proof fn cut_values_stay_in_place(values: Seq<Number>, size: nat, i: int)
    requires
        size > 0,
        0 <= i < chunks(values, size).len(),
    ensures
        0 <= i * size < values.len(),
        values.len() - i * size <= size ==> chunks(values, size)[i].len() == values.len() - i * size,
        values.len() - i * size > size ==> chunks(values, size)[i].len() == size,
        forall|j: int|
            0 <= j < chunks(values, size)[i].len() ==> #[trigger] chunks(values, size)[i][j]
                == values[i * size + j],
    decreases values.len(),
{
    if values.len() <= size || i == 0 {
        assert(i == 0);
        assert(0 * size == 0);
    } else {
        let rest = values.skip(size as int);
        cut_values_stay_in_place(rest, size, i - 1);
        assert(chunks(values, size)[i] == chunks(rest, size)[i - 1]);
        assert(i * size == (i - 1) * size + size) by (nonlinear_arith);
    }
}

/// Joining can be read from the front as well.
pub proof fn joined_from_the_front(rows: Seq<Seq<Number>>)
    requires
        rows.len() > 0,
    ensures
        joined(rows) == rows[0] + joined(rows.drop_first()),
    decreases rows.len(),
{
    if rows.len() == 1 {
        assert(rows.drop_last() =~= Seq::<Seq<Number>>::empty());
        assert(rows.drop_first() =~= Seq::<Seq<Number>>::empty());
        assert(joined(rows) =~= rows[0] + joined(rows.drop_first()));
    } else {
        let shorter = rows.drop_last();
        joined_from_the_front(shorter);
        assert(shorter.drop_first() =~= rows.drop_first().drop_last());
        assert(rows.drop_first().last() == rows.last());
        assert(joined(rows) =~= rows[0] + joined(rows.drop_first()));
    }
}

/// Rows that make a matrix with columns are what that matrix is sent back as.
pub proof fn rows_survive_the_matrix(rows: Seq<Seq<Number>>, field: Seq<char>)
    requires
        first_width(rows) > 0,
        rows.len() <= usize::MAX,
        first_width(rows) <= usize::MAX,
        matrix_from(rows, field) is Ok,
    ensures
        chunks(
            matrix_from(rows, field)->Ok_0.values,
            at_least_1(matrix_from(rows, field)->Ok_0.col_count as nat),
        ) == rows,
{
    other_width_is_first(rows, first_width(rows) as int, 0);
    chunks_of_joined(rows, first_width(rows));
}

// ---------------------------------------------------------------- building

/// One layer's weights as the engine takes and returns them: W is one row per
/// input and one column per unit, b is a single row.
#[derive(Debug)]
pub struct LayerMatrices {
    pub name: String,
    pub weights: Matrix,
    pub bias: Matrix,
}

/// A [`LayerMatrices`] as a value.
#[verifier::ext_equal]
pub struct LayerMatricesView {
    pub name: Seq<char>,
    pub weights: MatrixView,
    pub bias: MatrixView,
}

impl View for LayerMatrices {
    type V = LayerMatricesView;

    open spec fn view(&self) -> LayerMatricesView {
        LayerMatricesView { name: self.name@, weights: self.weights@, bias: self.bias@ }
    }
}

/// Layers' matrices taken by their views.
pub open spec fn matrices_view(layers: Seq<LayerMatrices>) -> Seq<LayerMatricesView> {
    layers.map_values(|layer: LayerMatrices| layer@)
}

/// What the engine is told to build: seed the generator first, lay the layers
/// on the input, compile where there is something to compile with, and load
/// the weights.
#[derive(Debug)]
pub struct BuildPlan {
    pub seed: u64,
    pub features: usize,
    pub layers: Vec<LayerSpec>,
    pub compile: Option<(LossKind, OptimizerConfig)>,
    pub weights: Vec<LayerMatrices>,
}

/// A [`BuildPlan`] as a value.
#[verifier::ext_equal]
pub struct BuildPlanView {
    pub seed: u64,
    pub features: usize,
    pub layers: Seq<LayerSpecView>,
    pub compile: Option<(LossKind, OptimizerConfig)>,
    pub weights: Seq<LayerMatricesView>,
}

impl View for BuildPlan {
    type V = BuildPlanView;

    open spec fn view(&self) -> BuildPlanView {
        BuildPlanView {
            seed: self.seed,
            features: self.features,
            layers: layers_view(self.layers@),
            compile: self.compile,
            weights: matrices_view(self.weights@),
        }
    }
}

impl BuildPlanView {
    /// Every matrix of the plan has as many values as its shape says.
    pub open spec fn wf(self) -> bool {
        forall|i: int|
            0 <= i < self.weights.len() ==> (#[trigger] self.weights[i]).weights.wf()
                && self.weights[i].bias.wf()
    }
}

/// Weights whose rows fill a matrix with as many columns as there are biases.
pub open spec fn fills_a_matrix(layer: LayerWeightsView) -> bool {
    joined(layer.weights).len() == layer.weights.len() * layer.bias.len()
}

/// One layer's weights as matrices.
pub open spec fn matrices_of(layer: LayerWeightsView) -> LayerMatricesView {
    LayerMatricesView {
        name: layer.name,
        weights: MatrixView {
            row_count: layer.weights.len() as usize,
            col_count: layer.bias.len() as usize,
            values: joined(layer.weights),
        },
        bias: MatrixView {
            row_count: 1,
            col_count: layer.bias.len() as usize,
            values: layer.bias,
        },
    }
}

/// What is built for `spec` with `weights` loaded into it.
pub open spec fn plan_of(spec: ModelSpecView, weights: Seq<LayerWeightsView>) -> BuildPlanView {
    BuildPlanView {
        seed: spec.seed,
        features: spec.features,
        layers: spec.layers,
        compile: match (spec.loss, spec.optimizer) {
            (Some(loss), Some(optimizer)) => Some((loss, optimizer)),
            _ => None,
        },
        weights: weights.map_values(|layer: LayerWeightsView| matrices_of(layer)),
    }
}

/// Keras' `Sequential(...)`, `compile(...)` and `set_weights(...)`, as a plan.
///
/// Every layer's name is spelled out, so the engine never has to make one up.
pub fn build(spec: &ModelSpec, weights: &Vec<LayerWeights>) -> (plan: BuildPlan)
    requires
        forall|i: int|
            0 <= i < weights@.len() ==> fills_a_matrix(#[trigger] weights_view(weights@)[i]),
    ensures
        plan@ == plan_of(spec@, weights_view(weights@)),
        plan@.wf(),
        builds_layers(plan@, spec@),
        plan@.weights.len() == weights@.len(),
{
    let layers = spec.layers.clone();
    assert(layers_view(layers@) =~= layers_view(spec.layers@));
    let compile = match (spec.loss, spec.optimizer) {
        (Some(loss), Some(optimizer)) => Some((loss, optimizer)),
        _ => None,
    };
    let mut matrices: Vec<LayerMatrices> = Vec::with_capacity(weights.len());
    let mut index: usize = 0;
    while index < weights.len()
        invariant
            index <= weights@.len(),
            matrices@.len() == index,
            forall|i: int|
                0 <= i < weights@.len() ==> fills_a_matrix(#[trigger] weights_view(weights@)[i]),
            forall|i: int|
                0 <= i < index ==> (#[trigger] matrices@[i])@ == matrices_of(weights@[i]@)
                    && matrices@[i]@.weights.wf() && matrices@[i]@.bias.wf(),
        decreases weights@.len() - index,
    {
        let layer = &weights[index];
        assert(fills_a_matrix(weights_view(weights@)[index as int]));
        let weight_matrix = Matrix {
            row_count: layer.weights.len(),
            col_count: layer.bias.len(),
            values: join(&layer.weights),
        };
        let bias_matrix = Matrix {
            row_count: 1,
            col_count: layer.bias.len(),
            values: copy_row(&layer.bias),
        };
        matrices.push(
            LayerMatrices { name: layer.name.clone(), weights: weight_matrix, bias: bias_matrix },
        );
        index += 1;
    }
    let plan = BuildPlan {
        seed: spec.seed,
        features: spec.features,
        layers,
        compile,
        weights: matrices,
    };
    assert(plan@.weights =~= plan_of(spec@, weights_view(weights@)).weights);
    plan
}

/// One layer's weights as a client sees them.
pub open spec fn weights_from(layer: LayerMatricesView) -> LayerWeightsView {
    LayerWeightsView {
        name: layer.name,
        weights: chunks(layer.weights.values, at_least_1(layer.weights.col_count as nat)),
        bias: layer.bias.values,
    }
}

/// Keras' `get_weights()` for every layer, in the order the layers run.
pub fn weights_of(layers: &Vec<LayerMatrices>) -> (weights: Vec<LayerWeights>)
    ensures
        weights_view(weights@) == matrices_view(layers@).map_values(
            |layer: LayerMatricesView| weights_from(layer),
        ),
{
    let mut weights: Vec<LayerWeights> = Vec::with_capacity(layers.len());
    let mut index: usize = 0;
    while index < layers.len()
        invariant
            index <= layers@.len(),
            weights@.len() == index,
            forall|i: int|
                0 <= i < index ==> (#[trigger] weights@[i])@ == weights_from(layers@[i]@),
        decreases layers@.len() - index,
    {
        let layer = &layers[index];
        weights.push(
            LayerWeights {
                name: layer.name.clone(),
                weights: rows_of(&layer.weights),
                bias: copy_row(&layer.bias.values),
            },
        );
        index += 1;
    }
    assert(weights_view(weights@) =~= matrices_view(layers@).map_values(
        |layer: LayerMatricesView| weights_from(layer),
    ));
    weights
}

/// A layer's weights, put into matrices and read back, are the same weights:
/// what is loaded into a model is what the model says it has.
pub proof fn weights_survive_the_engine(layer: LayerWeightsView)
    requires
        layer.bias.len() > 0,
        layer.bias.len() <= usize::MAX,
        shaped(layer.weights, layer.weights.len() as int, layer.bias.len() as int),
    ensures
        fills_a_matrix(layer),
        weights_from(matrices_of(layer)) == layer,
{
    joined_length(layer.weights, layer.bias.len());
    chunks_of_joined(layer.weights, layer.bias.len());
}

/// The weights of a whole model can be put into matrices.
pub proof fn complete_weights_fill_matrices(spec: ModelSpecView, weights: Seq<LayerWeightsView>)
    requires
        complete(spec, weights),
    ensures
        forall|i: int| 0 <= i < weights.len() ==> fills_a_matrix(#[trigger] weights[i]),
{
    assert forall|i: int| 0 <= i < weights.len() implies fills_a_matrix(#[trigger] weights[i]) by {
        joined_length(weights[i].weights, weights[i].bias.len());
    }
}

// ----------------------------------------------------------------- reports

/// What one training run produced.
#[derive(Debug)]
pub struct TrainOutcome {
    /// The mean loss of every epoch, first to last.
    pub loss_history: Vec<Number>,
    pub weights: Vec<LayerWeights>,
}

/// One layer of a built model, read back.
#[derive(Debug)]
pub struct BuiltLayer {
    pub matrices: LayerMatrices,
    pub units: usize,
    pub params: usize,
}

/// A built model, read back.
#[derive(Debug)]
pub struct BuiltModel {
    pub layers: Vec<BuiltLayer>,
    /// The table `model.summary()` prints.
    pub summary: String,
    pub total_params: usize,
}

/// The numbers a client sees about a layer without asking for its weights.
#[derive(Debug)]
pub struct LayerReport {
    pub name: String,
    pub units: usize,
    pub input_count: usize,
    pub params: usize,
}

/// A [`LayerReport`] as a value.
#[verifier::ext_equal]
pub struct LayerReportView {
    pub name: Seq<char>,
    pub units: usize,
    pub input_count: usize,
    pub params: usize,
}

impl View for LayerReport {
    type V = LayerReportView;

    open spec fn view(&self) -> LayerReportView {
        LayerReportView {
            name: self.name@,
            units: self.units,
            input_count: self.input_count,
            params: self.params,
        }
    }
}

/// Reports taken by their views.
pub open spec fn reports_view(layers: Seq<LayerReport>) -> Seq<LayerReportView> {
    layers.map_values(|layer: LayerReport| layer@)
}

/// A built model as data: what it weighs and what it looks like.
#[derive(Debug)]
pub struct ModelReport {
    pub weights: Vec<LayerWeights>,
    /// The table `model.summary()` prints.
    pub summary: String,
    pub total_params: usize,
    pub layers: Vec<LayerReport>,
}

/// A [`ModelReport`] as a value.
#[verifier::ext_equal]
pub struct ModelReportView {
    pub weights: Seq<LayerWeightsView>,
    pub summary: Seq<char>,
    pub total_params: usize,
    pub layers: Seq<LayerReportView>,
}

impl View for ModelReport {
    type V = ModelReportView;

    open spec fn view(&self) -> ModelReportView {
        ModelReportView {
            weights: weights_view(self.weights@),
            summary: self.summary@,
            total_params: self.total_params,
            layers: reports_view(self.layers@),
        }
    }
}

/// What is reported of one layer that was read back.
pub open spec fn layer_report(layer: BuiltLayer) -> LayerReportView {
    LayerReportView {
        name: layer.matrices@.name,
        units: layer.units,
        input_count: layer.matrices@.weights.row_count,
        params: layer.params,
    }
}

/// What is reported of a model that was read back.
pub open spec fn model_report(built: BuiltModel) -> ModelReportView {
    ModelReportView {
        weights: built.layers@.map_values(|layer: BuiltLayer| weights_from(layer.matrices@)),
        summary: built.summary@,
        total_params: built.total_params,
        layers: built.layers@.map_values(|layer: BuiltLayer| layer_report(layer)),
    }
}

/// Everything there is to tell about a model that was built once: the weights
/// it ended up with, the summary table, and one row per layer.
pub fn describe(built: BuiltModel) -> (report: ModelReport)
    ensures
        report@ == model_report(built),
{
    let ghost read_back = built.layers@;
    let mut matrices: Vec<LayerMatrices> = Vec::with_capacity(built.layers.len());
    let mut layers: Vec<LayerReport> = Vec::with_capacity(built.layers.len());
    for layer in walk: built.layers
        invariant
            walk.seq() == read_back,
            matrices@.len() == walk.index(),
            layers@.len() == walk.index(),
            forall|i: int|
                0 <= i < walk.index() ==> (#[trigger] matrices@[i])@ == read_back[i].matrices@,
            forall|i: int|
                0 <= i < walk.index() ==> (#[trigger] layers@[i])@ == layer_report(read_back[i]),
    {
        layers.push(
            LayerReport {
                name: layer.matrices.name.clone(),
                units: layer.units,
                input_count: layer.matrices.weights.row_count,
                params: layer.params,
            },
        );
        matrices.push(layer.matrices);
    }
    let report = ModelReport {
        weights: weights_of(&matrices),
        summary: built.summary,
        total_params: built.total_params,
        layers,
    };
    assert(report@.weights =~= model_report(built).weights);
    assert(report@.layers =~= model_report(built).layers);
    report
}

impl ModelReportView {
    /// The report is about a model of this spec: one row and one set of
    /// weights for every layer, in the shapes the spec gives.
    pub open spec fn describes(self, spec: ModelSpecView) -> bool {
        &&& complete(spec, self.weights)
        &&& self.total_params == spec.params()
        &&& self.layers.len() == spec.layers.len()
        &&& forall|i: int|
            0 <= i < self.layers.len() ==> {
                &&& (#[trigger] self.layers[i]).name == spec.layers[i].name
                &&& self.layers[i].units == spec.layers[i].units
                &&& self.layers[i].input_count == spec.input_count(i)
                &&& self.layers[i].params == spec.layer_params(i)
            }
    }
}

/// The parameters of the first `count` layers that were read back.
pub open spec fn built_params(layers: Seq<BuiltLayer>, count: nat) -> nat
    decreases count,
{
    if count == 0 {
        0
    } else {
        built_params(layers, (count - 1) as nat) + layers[count - 1].params as nat
    }
}

/// `built` is what building `spec` makes: a layer for every one of the spec,
/// under its name and with its units, W one row per input and one column per
/// unit, b one row, and every value of both counted once.
pub open spec fn built_as_told(spec: ModelSpecView, built: BuiltModel) -> bool {
    &&& built.layers@.len() == spec.layers.len()
    &&& built.total_params == built_params(built.layers@, built.layers@.len())
    &&& forall|i: int|
        0 <= i < built.layers@.len() ==> {
            let layer = #[trigger] built.layers@[i];
            &&& layer.matrices@.name == spec.layers[i].name
            &&& layer.units == spec.layers[i].units
            &&& layer.matrices@.weights.wf()
            &&& layer.matrices@.weights.row_count == spec.input_count(i)
            &&& layer.matrices@.weights.col_count == spec.layers[i].units
            &&& layer.matrices@.bias.values.len() == spec.layers[i].units
            &&& layer.params == layer.matrices@.weights.values.len()
                + layer.matrices@.bias.values.len()
        }
}

/// The parameters that were read back are those the shapes give.
proof fn built_params_are_counted(spec: ModelSpecView, built: BuiltModel, count: nat)
    requires
        built_as_told(spec, built),
        count <= built.layers@.len(),
    ensures
        built_params(built.layers@, count) == spec.params_of_first(count),
    decreases count,
{
    if count > 0 {
        built_params_are_counted(spec, built, (count - 1) as nat);
        spec.layer_params_add_up(count - 1);
        assert(built.layers@[count - 1].params == spec.layer_params(count - 1));
    }
}

/// What is built as it was told is reported as it was asked for: the report
/// names the spec's layers in order, with their units, inputs and parameters,
/// has weights for all of them, and counts as many parameters as the spec.
pub proof fn a_report_describes_its_spec(spec: ModelSpecView, built: BuiltModel)
    requires
        spec.buildable(),
        built_as_told(spec, built),
    ensures
        model_report(built).describes(spec),
        model_report(built).total_params == spec.params(),
        forall|i: int|
            0 <= i < spec.layers.len() ==> (#[trigger] model_report(built).layers[i]).params == (
            spec.input_count(i) + 1) * spec.layers[i].units,
{
    let report = model_report(built);
    built_params_are_counted(spec, built, built.layers@.len());
    assert forall|i: int| 0 <= i < spec.layers.len() implies {
        &&& (#[trigger] report.layers[i]).params == spec.layer_params(i)
        &&& report.layers[i].params == (spec.input_count(i) + 1) * spec.layers[i].units
    } by {
        let layer = built.layers@[i];
        let inputs = spec.input_count(i);
        let units = spec.layers[i].units;
        spec.layer_params_add_up(i);
        assert((inputs + 1) * units == inputs * units + units) by (nonlinear_arith);
    }
    assert forall|i: int| 0 <= i < report.weights.len() implies {
        &&& (#[trigger] report.weights[i]).name == spec.layers[i].name
        &&& report.weights[i].fits(spec.input_count(i) as int, spec.layers[i].units as int)
    } by {
        let layer = built.layers@[i];
        assert(spec.layers[i].units > 0);
        chunks_are_shaped(
            layer.matrices@.weights.values,
            spec.input_count(i) as nat,
            spec.layers[i].units as nat,
        );
    }
}

impl ModelReport {
    /// Whether the report is about a model of this spec.
    pub fn describes(&self, spec: &ModelSpec) -> (result: bool)
        ensures
            result == self@.describes(spec@),
    {
        let counted = match spec.counted_params() {
            Some(total) => total == self.total_params,
            None => false,
        };
        if !counted || !is_complete(spec, &self.weights) || self.layers.len() != spec.layers.len() {
            return false;
        }
        let mut index: usize = 0;
        while index < self.layers.len()
            invariant
                index <= self.layers@.len(),
                self.layers@.len() == spec.layers@.len(),
                spec@.params() <= usize::MAX,
                forall|i: int|
                    0 <= i < index ==> {
                        &&& (#[trigger] self@.layers[i]).name == spec@.layers[i].name
                        &&& self@.layers[i].units == spec@.layers[i].units
                        &&& self@.layers[i].input_count == spec@.input_count(i)
                        &&& self@.layers[i].params == spec@.layer_params(i)
                    },
            decreases self.layers@.len() - index,
        {
            let layer = &self.layers[index];
            let units = spec.layers[index].units;
            let inputs = spec.input_count(index);
            proof {
                assert(self@.layers[index as int] == layer@);
                spec@.params_grow((index + 1) as nat, spec@.layers.len());
                spec@.layer_params_add_up(index as int);
            }
            if !same(layer.name.as_str(), spec.layers[index].name.as_str()) || layer.units != units
                || layer.input_count != inputs || layer.params != inputs * units + units {
                return false;
            }
            index += 1;
        }
        true
    }
}

// ----------------------------------------------------------------- running

/// Keras' `fit` arguments. The engine never prints while it runs: the caller
/// gets the same numbers in the response.
#[derive(Clone, Copy, Debug, PartialEq, Eq, Structural)]
pub struct FitOptions {
    pub epochs: usize,
    pub batch_size: usize,
    pub shuffle: bool,
    pub verbose: bool,
}

/// The powers of ten a column-scaled model is asked and answered with: column
/// `j` of x is multiplied by `10^features[j]`, the output by `10^target`.
#[derive(Debug)]
pub struct Rescaling {
    pub features: Vec<i32>,
    pub target: i32,
}

/// A [`Rescaling`] as a value.
#[verifier::ext_equal]
pub struct RescalingView {
    pub features: Seq<i32>,
    pub target: i32,
}

impl View for Rescaling {
    type V = RescalingView;

    open spec fn view(&self) -> RescalingView {
        RescalingView { features: self.features@, target: self.target }
    }
}

/// The scaling of a training run replayed on new samples: what a feature was
/// divided by it is divided by again, and what the target was divided by the
/// output is multiplied by.
pub open spec fn rescaling(ratios: Seq<usize>) -> RescalingView {
    RescalingView {
        features: Seq::new((ratios.len() - 1) as nat, |j: int| (-(ratios[j] as int)) as i32),
        target: ratios.last() as i32,
    }
}

/// What to multiply x and the predictions by, on a model whose last
/// column-scaled run divided its columns by these powers.
pub fn rescaling_of(ratios: &Vec<usize>) -> (result: Rescaling)
    requires
        ratios@.len() > 0,
        forall|i: int| 0 <= i < ratios@.len() ==> #[trigger] ratios@[i] <= i32::MAX,
    ensures
        result@ == rescaling(ratios@),
{
    let last = ratios.len() - 1;
    let mut features: Vec<i32> = Vec::with_capacity(last);
    let mut index: usize = 0;
    while index < last
        invariant
            index <= last,
            last == ratios@.len() - 1,
            features@.len() == index,
            forall|i: int| 0 <= i < ratios@.len() ==> #[trigger] ratios@[i] <= i32::MAX,
            forall|j: int|
                0 <= j < index ==> #[trigger] features@[j] == (-(ratios@[j] as int)) as i32,
        decreases last - index,
    {
        features.push(-(ratios[index] as i32));
        index += 1;
    }
    let result = Rescaling { features, target: ratios[last] as i32 };
    assert(result@.features =~= rescaling(ratios@).features);
    result
}

/// Replaying a run's scaling takes every feature's power away again and puts
/// the target's back: the exponents add up to nothing.
pub proof fn rescaling_undoes_the_ratios(ratios: Seq<usize>)
    requires
        ratios.len() > 0,
        forall|i: int| 0 <= i < ratios.len() ==> #[trigger] ratios[i] <= i32::MAX,
    ensures
        rescaling(ratios).features.len() == ratios.len() - 1,
        forall|j: int|
            0 <= j < ratios.len() - 1 ==> #[trigger] rescaling(ratios).features[j] + ratios[j] == 0,
        rescaling(ratios).target == ratios.last(),
{
}

} // verus!
