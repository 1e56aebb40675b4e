//! Reducing the replies of several nodes to one reply.

use crate::error::{ErrorKind, ErrorModel, RedisError};
use crate::routing::{AggregateOp, LogicalAggregateOp, Route};
use crate::value::{lemma_bulk_model, lemma_models_push, models, Value, ValueModel};
use vstd::prelude::*;

verus! {

/// The error for a reply that is not the integer it should be.
pub open spec fn not_integers_error() -> ErrorModel {
    ErrorModel {
        kind: ErrorKind::TypeError,
        description: "expected array of integers as response"@,
        detail: None,
    }
}

/// The error for a reply that is not the array it should be.
pub open spec fn not_arrays_error() -> ErrorModel {
    ErrorModel {
        kind: ErrorKind::TypeError,
        description: "expected array of values as response"@,
        detail: None,
    }
}

/// The error for a sum that does not fit in 64 bits.
pub open spec fn overflow_error() -> ErrorModel {
    ErrorModel {
        kind: ErrorKind::TypeError,
        description: "sum of responses does not fit in 64 bits"@,
        detail: None,
    }
}

/// The error for arrays that do not go together.
pub open spec fn mismatch_error() -> ErrorModel {
    ErrorModel {
        kind: ErrorKind::TypeError,
        description: "responses do not match the request"@,
        detail: None,
    }
}

/// True when each of the values is an integer.
pub open spec fn all_integers(values: Seq<ValueModel>) -> bool {
    forall|i: int| 0 <= i < values.len() ==> (#[trigger] values[i]) is Int
}

/// The sum of the first `upto` values, each of which is an integer.
pub open spec fn sum_of(values: Seq<ValueModel>, upto: int) -> int
    decreases upto,
{
    if upto <= 0 {
        0
    } else {
        sum_of(values, upto - 1) + values[upto - 1]->Int_0
    }
}

/// The least of the first `upto` values, each of which is an integer; the
/// largest 64-bit integer if there is none.
pub open spec fn min_of(values: Seq<ValueModel>, upto: int) -> int
    decreases upto,
{
    if upto <= 0 {
        i64::MAX as int
    } else {
        let rest = min_of(values, upto - 1);
        if values[upto - 1]->Int_0 < rest {
            values[upto - 1]->Int_0 as int
        } else {
            rest
        }
    }
}

/// The numeric reduction of integer replies: their sum, which must fit in
/// 64 bits, or their minimum.
pub open spec fn aggregated(values: Seq<ValueModel>, op: AggregateOp) -> Result<
    ValueModel,
    ErrorModel,
> {
    if !all_integers(values) {
        Err(not_integers_error())
    } else {
        match op {
            AggregateOp::Min => Ok(ValueModel::Int(min_of(values, values.len() as int) as i64)),
            AggregateOp::Sum => {
                let total = sum_of(values, values.len() as int);
                if i64::MIN <= total <= i64::MAX {
                    Ok(ValueModel::Int(total as i64))
                } else {
                    Err(overflow_error())
                }
            },
        }
    }
}

/// True when `value` is an array of `width` integers.
pub open spec fn is_row(value: ValueModel, width: nat) -> bool {
    value matches ValueModel::Bulk(items) && items.len() == width && all_integers(items)
}

/// True when the values are arrays of integers, all as long as the first.
pub open spec fn all_rows(values: Seq<ValueModel>) -> bool {
    forall|i: int|
        0 <= i < values.len() ==> is_row(#[trigger] values[i], values[0]->Bulk_0.len())
}

/// Column `column` of the first `upto` rows, reduced: for `And`, whether
/// each row holds a positive number there; for `Or`, whether some row does.
pub open spec fn column_of(
    values: Seq<ValueModel>,
    op: LogicalAggregateOp,
    column: int,
    upto: int,
) -> bool
    decreases upto,
{
    if upto <= 0 {
        match op {
            LogicalAggregateOp::And => true,
            LogicalAggregateOp::Or => false,
        }
    } else {
        let here = values[upto - 1]->Bulk_0[column]->Int_0 > 0;
        let rest = column_of(values, op, column, upto - 1);
        match op {
            LogicalAggregateOp::And => rest && here,
            LogicalAggregateOp::Or => rest || here,
        }
    }
}

/// The boolean reduction of replies that are arrays of integers of one
/// length: an array of that length with 1 where the column reduces to true
/// and 0 elsewhere. No replies reduce to the empty array.
pub open spec fn logically_aggregated(values: Seq<ValueModel>, op: LogicalAggregateOp) -> Result<
    ValueModel,
    ErrorModel,
> {
    if !all_rows(values) {
        Err(not_integers_error())
    } else {
        let width = if values.len() == 0 {
            0
        } else {
            values[0]->Bulk_0.len()
        };
        Ok(
            ValueModel::Bulk(
                Seq::new(
                    width,
                    |column: int|
                        ValueModel::Int(
                            if column_of(values, op, column, values.len() as int) {
                                1i64
                            } else {
                                0i64
                            },
                        ),
                ),
            ),
        )
    }
}

/// True when each of the values is an array.
pub open spec fn all_arrays(values: Seq<ValueModel>) -> bool {
    forall|i: int| 0 <= i < values.len() ==> (#[trigger] values[i]) is Bulk
}

/// The items of the first `upto` arrays, one array after the other.
pub open spec fn joined(values: Seq<ValueModel>, upto: int) -> Seq<ValueModel>
    decreases upto,
{
    if upto <= 0 {
        Seq::empty()
    } else {
        joined(values, upto - 1) + values[upto - 1]->Bulk_0
    }
}

/// The concatenation of replies that are arrays.
pub open spec fn combined(values: Seq<ValueModel>) -> Result<ValueModel, ErrorModel> {
    if !all_arrays(values) {
        Err(not_arrays_error())
    } else {
        Ok(ValueModel::Bulk(joined(values, values.len() as int)))
    }
}

/// `slots` after the first `upto` items were put at their positions.
pub open spec fn placed(
    slots: Seq<ValueModel>,
    positions: Seq<usize>,
    items: Seq<ValueModel>,
    upto: int,
) -> Seq<ValueModel>
    decreases upto,
{
    if upto <= 0 {
        slots
    } else {
        placed(slots, positions, items, upto - 1).update(
            positions[upto - 1] as int,
            items[upto - 1],
        )
    }
}

/// `slots` after the items of the first `upto` arrays were put at the
/// positions that go with each array.
pub open spec fn placed_all(
    slots: Seq<ValueModel>,
    order: Seq<Seq<usize>>,
    values: Seq<ValueModel>,
    upto: int,
) -> Seq<ValueModel>
    decreases upto,
{
    if upto <= 0 {
        slots
    } else {
        placed(
            placed_all(slots, order, values, upto - 1),
            order[upto - 1],
            values[upto - 1]->Bulk_0,
            order[upto - 1].len() as int,
        )
    }
}

/// True when the replies are arrays that go with the positions in `order`:
/// one array for each list of positions, as long as the list, and every
/// position below the total number of items, which a machine word can hold.
pub open spec fn fits_order(values: Seq<ValueModel>, order: Seq<Seq<usize>>) -> bool {
    &&& values.len() == order.len()
    &&& joined(values, values.len() as int).len() <= usize::MAX
    &&& forall|i: int|
        0 <= i < values.len() ==> (#[trigger] values[i]) is Bulk && values[i]->Bulk_0.len()
            == order[i].len()
    &&& forall|i: int, j: int|
        0 <= i < order.len() && 0 <= j < order[i].len() ==> (#[trigger] order[i][j]) < joined(
            values,
            values.len() as int,
        ).len()
}

/// The replies to the parts of a split command, put back in the order of
/// the arguments of the whole command: item `j` of reply `i` goes to
/// position `order[i][j]`.
pub open spec fn combined_in_order(values: Seq<ValueModel>, order: Seq<Seq<usize>>) -> Result<
    ValueModel,
    ErrorModel,
> {
    if !all_arrays(values) {
        Err(not_arrays_error())
    } else if !fits_order(values, order) {
        Err(mismatch_error())
    } else {
        let total = joined(values, values.len() as int).len();
        Ok(
            ValueModel::Bulk(
                placed_all(
                    Seq::new(total, |i: int| ValueModel::Nil),
                    order,
                    values,
                    values.len() as int,
                ),
            ),
        )
    }
}

fn type_error(description: &str) -> (e: RedisError)
    ensures
        e@ == (ErrorModel { kind: ErrorKind::TypeError, description: description@, detail: None }),
{
    RedisError::new(ErrorKind::TypeError, description)
}

proof fn lemma_sum_bounds(values: Seq<ValueModel>, upto: int)
    requires
        0 <= upto <= values.len(),
    ensures
        -upto * 0x8000_0000_0000_0000 <= sum_of(values, upto) <= upto * 0x8000_0000_0000_0000,
        i64::MIN <= min_of(values, upto) <= i64::MAX,
    decreases upto,
{
    if upto > 0 {
        lemma_sum_bounds(values, upto - 1);
    }
}

/// Reduces integer replies to their sum or minimum.
pub fn aggregate(values: &Vec<Value>, op: AggregateOp) -> (r: Result<Value, RedisError>)
    ensures
        match r {
            Ok(v) => aggregated(models(values@), op) == Ok::<ValueModel, ErrorModel>(v@),
            Err(e) => aggregated(models(values@), op) == Err::<ValueModel, ErrorModel>(e@),
        },
{
    let ghost all = models(values@);
    let mut sum: i128 = 0;
    let mut least: i64 = i64::MAX;
    let mut i: usize = 0;
    while i < values.len()
        invariant
            i <= values.len(),
            all == models(values@),
            forall|j: int| 0 <= j < i ==> (#[trigger] all[j]) is Int,
            sum == sum_of(all, i as int),
            least == min_of(all, i as int),
        decreases values.len() - i,
    {
        assert(all[i as int] == values@[i as int]@);
        proof {
            lemma_sum_bounds(all, i as int);
            assert(i * 0x8000_0000_0000_0000 <= 0xffff_ffff_ffff_ffff * 0x8000_0000_0000_0000)
                by (nonlinear_arith)
                requires
                    i <= 0xffff_ffff_ffff_ffff,
            ;
        }
        match &values[i] {
            Value::Int(n) => {
                sum = sum + (*n as i128);
                if *n < least {
                    least = *n;
                }
            },
            _ => {
                return Err(type_error("expected array of integers as response"));
            },
        }
        i += 1;
    }
    match op {
        AggregateOp::Min => Ok(Value::Int(least)),
        AggregateOp::Sum => {
            if sum < i64::MIN as i128 || sum > i64::MAX as i128 {
                Err(type_error("sum of responses does not fit in 64 bits"))
            } else {
                Ok(Value::Int(sum as i64))
            }
        },
    }
}

/// Checks that a reply is an array of `width` integers.
fn check_row(value: &Value, width: usize) -> (ok: bool)
    ensures
        ok == is_row(value@, width as nat),
{
    match value {
        Value::Bulk(items) => {
            proof {
                lemma_bulk_model(*value);
            }
            if items.len() != width {
                return false;
            }
            let ghost row = models(items@);
            let mut j: usize = 0;
            while j < items.len()
                invariant
                    j <= items.len(),
                    items.len() == width,
                    value@ == ValueModel::Bulk(row),
                    row == models(items@),
                    forall|k: int| 0 <= k < j ==> (#[trigger] row[k]) is Int,
                decreases items.len() - j,
            {
                assert(row[j as int] == items@[j as int]@);
                match &items[j] {
                    Value::Int(_) => {},
                    _ => {
                        return false;
                    },
                }
                j += 1;
            }
            true
        },
        _ => false,
    }
}

/// Reads the integer at `column` of the row `value`.
fn cell(value: &Value, column: usize) -> (n: i64)
    requires
        value@ is Bulk,
        column < value@->Bulk_0.len(),
        value@->Bulk_0[column as int] is Int,
    ensures
        n == value@->Bulk_0[column as int]->Int_0,
{
    proof {
        lemma_bulk_model(*value);
    }
    match value {
        Value::Bulk(items) => {
            match &items[column] {
                Value::Int(n) => *n,
                _ => 0,
            }
        },
        _ => 0,
    }
}

/// Reduces replies that are arrays of integers column by column.
pub fn logical_aggregate(values: &Vec<Value>, op: LogicalAggregateOp) -> (r: Result<
    Value,
    RedisError,
>)
    ensures
        match r {
            Ok(v) => logically_aggregated(models(values@), op) == Ok::<ValueModel, ErrorModel>(v@),
            Err(e) => logically_aggregated(models(values@), op) == Err::<ValueModel, ErrorModel>(
                e@,
            ),
        },
{
    let ghost all = models(values@);
    let width: usize = if values.len() == 0 {
        0
    } else {
        match &values[0] {
            Value::Bulk(items) => {
                proof {
                    lemma_bulk_model(values@[0]);
                }
                items.len()
            },
            _ => {
                return Err(type_error("expected array of integers as response"));
            },
        }
    };
    let mut i: usize = 0;
    while i < values.len()
        invariant
            i <= values.len(),
            all == models(values@),
            values.len() > 0 ==> width == all[0]->Bulk_0.len(),
            forall|j: int| 0 <= j < i ==> is_row(#[trigger] all[j], width as nat),
        decreases values.len() - i,
    {
        assert(all[i as int] == values@[i as int]@);
        if !check_row(&values[i], width) {
            return Err(type_error("expected array of integers as response"));
        }
        i += 1;
    }
    let mut out: Vec<Value> = Vec::with_capacity(width);
    let mut column: usize = 0;
    while column < width
        invariant
            column <= width,
            all == models(values@),
            forall|j: int| 0 <= j < values.len() ==> is_row(#[trigger] all[j], width as nat),
            out.len() == column,
            forall|c: int|
                0 <= c < column ==> (#[trigger] out@[c])@ == ValueModel::Int(
                    if column_of(all, op, c, all.len() as int) {
                        1i64
                    } else {
                        0i64
                    },
                ),
        decreases width - column,
    {
        let mut verdict = match op {
            LogicalAggregateOp::And => true,
            LogicalAggregateOp::Or => false,
        };
        let mut j: usize = 0;
        while j < values.len()
            invariant
                j <= values.len(),
                column < width,
                all == models(values@),
                forall|j: int| 0 <= j < values.len() ==> is_row(#[trigger] all[j], width as nat),
                verdict == column_of(all, op, column as int, j as int),
            decreases values.len() - j,
        {
            assert(is_row(all[j as int], width as nat));
            let here = cell(&values[j], column) > 0;
            verdict = match op {
                LogicalAggregateOp::And => verdict && here,
                LogicalAggregateOp::Or => verdict || here,
            };
            j += 1;
        }
        out.push(Value::Int(if verdict {
            1
        } else {
            0
        }));
        column += 1;
    }
    let result = Value::Bulk(out);
    proof {
        lemma_bulk_model(result);
        assert(models(out@) =~= logically_aggregated(all, op)->Ok_0->Bulk_0);
    }
    Ok(result)
}

/// Concatenates replies that are arrays.
pub fn combine_array_results(values: &Vec<Value>) -> (r: Result<Value, RedisError>)
    ensures
        match r {
            Ok(v) => combined(models(values@)) == Ok::<ValueModel, ErrorModel>(v@),
            Err(e) => combined(models(values@)) == Err::<ValueModel, ErrorModel>(e@),
        },
{
    let ghost all = models(values@);
    let mut out: Vec<Value> = Vec::new();
    let mut i: usize = 0;
    while i < values.len()
        invariant
            i <= values.len(),
            all == models(values@),
            forall|j: int| 0 <= j < i ==> (#[trigger] all[j]) is Bulk,
            models(out@) == joined(all, i as int),
        decreases values.len() - i,
    {
        assert(all[i as int] == values@[i as int]@);
        match &values[i] {
            Value::Bulk(items) => {
                proof {
                    lemma_bulk_model(values@[i as int]);
                }
                let ghost before = models(out@);
                let mut j: usize = 0;
                while j < items.len()
                    invariant
                        j <= items.len(),
                        models(out@) == before + models(items@).subrange(0, j as int),
                    decreases items.len() - j,
                {
                    let copy = items[j].duplicate();
                    proof {
                        lemma_models_push(out@, copy);
                    }
                    out.push(copy);
                    j += 1;
                }
            },
            _ => {
                return Err(type_error("expected array of values as response"));
            },
        }
        i += 1;
    }
    let result = Value::Bulk(out);
    proof {
        lemma_bulk_model(result);
    }
    Ok(result)
}

/// The positions that go with each route, route by route.
pub open spec fn order_of(routes: Seq<(Route, Vec<usize>)>) -> Seq<Seq<usize>> {
    Seq::new(routes.len(), |i: int| routes[i].1@)
}

/// The items of an array reply.
fn items_of(value: &Value) -> (items: &Vec<Value>)
    requires
        value@ is Bulk,
    ensures
        models(items@) == value@->Bulk_0,
{
    proof {
        lemma_bulk_model(*value);
    }
    match value {
        Value::Bulk(items) => items,
        _ => unreached(),
    }
}

/// Puts the replies to the parts of a split command back in the order of
/// the arguments of the whole command. With each route go the positions of
/// its part.
pub fn combine_and_sort_array_results(values: &Vec<Value>, routes: &Vec<(Route, Vec<usize>)>) -> (r:
    Result<Value, RedisError>)
    ensures
        match r {
            Ok(v) => combined_in_order(models(values@), order_of(routes@)) == Ok::<
                ValueModel,
                ErrorModel,
            >(v@),
            Err(e) => combined_in_order(models(values@), order_of(routes@)) == Err::<
                ValueModel,
                ErrorModel,
            >(e@),
        },
{
    let ghost all = models(values@);
    let ghost order = order_of(routes@);
    let mut total: usize = 0;
    let mut i: usize = 0;
    let mut too_long = false;
    while i < values.len()
        invariant
            i <= values.len(),
            all == models(values@),
            forall|j: int| 0 <= j < i ==> (#[trigger] all[j]) is Bulk,
            !too_long ==> total == joined(all, i as int).len(),
            too_long ==> joined(all, i as int).len() > usize::MAX,
        decreases values.len() - i,
    {
        assert(all[i as int] == values@[i as int]@);
        match &values[i] {
            Value::Bulk(items) => {
                proof {
                    lemma_bulk_model(values@[i as int]);
                }
                if !too_long {
                    match total.checked_add(items.len()) {
                        Some(sum) => {
                            total = sum;
                        },
                        None => {
                            too_long = true;
                        },
                    }
                }
            },
            _ => {
                return Err(type_error("expected array of values as response"));
            },
        }
        i += 1;
    }
    if too_long || values.len() != routes.len() {
        return Err(type_error("responses do not match the request"));
    }
    let mut i: usize = 0;
    while i < values.len()
        invariant
            i <= values.len() == routes.len(),
            all == models(values@),
            order == order_of(routes@),
            all_arrays(all),
            total == joined(all, all.len() as int).len(),
            forall|a: int|
                0 <= a < i ==> (#[trigger] all[a])->Bulk_0.len() == order[a].len(),
            forall|a: int, b: int|
                0 <= a < i && 0 <= b < order[a].len() ==> (#[trigger] order[a][b]) < total,
        decreases values.len() - i,
    {
        assert(all[i as int] is Bulk);
        let items = items_of(&values[i]);
        let positions = &routes[i].1;
        if items.len() != positions.len() {
            return Err(type_error("responses do not match the request"));
        }
        let mut j: usize = 0;
        while j < positions.len()
            invariant
                j <= positions.len(),
                i < values.len() == routes.len(),
                all == models(values@),
                all_arrays(all),
                order == order_of(routes@),
                positions@ == order[i as int],
                total == joined(all, all.len() as int).len(),
                forall|b: int| 0 <= b < j ==> (#[trigger] positions@[b]) < total,
            decreases positions.len() - j,
        {
            if positions[j] >= total {
                return Err(type_error("responses do not match the request"));
            }
            j += 1;
        }
        i += 1;
    }
    let mut results: Vec<Value> = Vec::with_capacity(total);
    let mut k: usize = 0;
    while k < total
        invariant
            k <= total,
            results.len() == k,
            forall|a: int| 0 <= a < k ==> (#[trigger] results@[a])@ == ValueModel::Nil,
        decreases total - k,
    {
        results.push(Value::Nil);
        k += 1;
    }
    let ghost blank = Seq::new(total as nat, |i: int| ValueModel::Nil);
    let mut i: usize = 0;
    while i < values.len()
        invariant
            i <= values.len() == routes.len(),
            all == models(values@),
            order == order_of(routes@),
            fits_order(all, order),
            total == joined(all, all.len() as int).len(),
            results.len() == total,
            models(results@) == placed_all(blank, order, all, i as int),
        decreases values.len() - i,
    {
        let items = items_of(&values[i]);
        let positions = &routes[i].1;
        let ghost base = models(results@);
        let mut j: usize = 0;
        while j < positions.len()
            invariant
                j <= positions.len() == items.len(),
                i < values.len() == routes.len(),
                all == models(values@),
                order == order_of(routes@),
                positions@ == order[i as int],
                models(items@) == all[i as int]->Bulk_0,
                forall|b: int| 0 <= b < positions.len() ==> (#[trigger] positions@[b]) < total,
                results.len() == total,
                models(results@) == placed(base, positions@, models(items@), j as int),
            decreases positions.len() - j,
        {
            let copy = items[j].duplicate();
            let at = positions[j];
            results.set(at, copy);
            j += 1;
        }
        i += 1;
    }
    let result = Value::Bulk(results);
    proof {
        lemma_bulk_model(result);
    }
    Ok(result)
}

} // verus!
