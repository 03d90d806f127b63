use crate::error::Csv;
use crate::transaction::Transaction;
use vstd::prelude::*;

verus! {

/// The transactions among the rows of a batch, in the order of the rows.
pub open spec fn read_rows(rows: Seq<Result<Transaction, String>>) -> Seq<Transaction>
    decreases rows.len(),
{
    if rows.len() == 0 {
        Seq::empty()
    } else {
        match rows.last() {
            Ok(t) => read_rows(rows.drop_last()).push(t),
            Err(_) => read_rows(rows.drop_last()),
        }
    }
}

/// What was said of each row of a batch that could not be read, in the
/// order of the rows.
pub open spec fn failed_rows(rows: Seq<Result<Transaction, String>>) -> Seq<String>
    decreases rows.len(),
{
    if rows.len() == 0 {
        Seq::empty()
    } else {
        match rows.last() {
            Ok(_) => failed_rows(rows.drop_last()),
            Err(said) => failed_rows(rows.drop_last()).push(said),
        }
    }
}

/// Makes a batch of the rows of a file. One row that could not be read
/// spoils the whole file: the batch is then refused, with what was said of
/// every such row. Only where every row was read is there a batch: the
/// transactions, in the order of the rows.
pub fn collect_rows(rows: &Vec<Result<Transaction, String>>) -> (batch: Result<
    Vec<Transaction>,
    Csv,
>)
    ensures
        match batch {
            Ok(transactions) => failed_rows(rows@).len() == 0 && transactions@ == read_rows(
                rows@,
            ),
            Err(Csv::ParseError(said)) => said@.len() > 0 && said@ == failed_rows(rows@),
            Err(Csv::FileReadError(_)) => false,
        },
{
    let mut results: Vec<Transaction> = Vec::new();
    let mut errors: Vec<String> = Vec::new();
    for i in 0..rows.len()
        invariant
            results@ == read_rows(rows@.take(i as int)),
            errors@ == failed_rows(rows@.take(i as int)),
    {
        proof {
            assert(rows@.take(i + 1).drop_last() == rows@.take(i as int));
        }
        match &rows[i] {
            Ok(t) => results.push(*t),
            Err(said) => errors.push(said.clone()),
        }
    }
    proof {
        assert(rows@.take(rows@.len() as int) == rows@);
    }
    if errors.len() > 0 {
        Err(Csv::ParseError(errors))
    } else {
        Ok(results)
    }
}

} // verus!
