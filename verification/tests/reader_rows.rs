use payments::currency::{from_float_string, Currency};
use payments::error::Csv;
use payments::ledger;
use payments::reader::collect_rows;
use payments::transaction::{Transaction, TransactionType};

fn deposit(client: u16, tx: u32, units: i64) -> Transaction {
    Transaction { tx_type: TransactionType::Deposit, client, tx, amount: Currency(units) }
}

#[test]
fn rows_that_were_all_read_make_a_batch() {
    let rows = vec![Ok(deposit(1, 1, 10)), Ok(deposit(2, 2, 20)), Ok(deposit(1, 3, 30))];
    assert_eq!(
        collect_rows(&rows),
        Ok(vec![deposit(1, 1, 10), deposit(2, 2, 20), deposit(1, 3, 30)])
    );
}

#[test]
fn no_rows_make_an_empty_batch() {
    assert_eq!(collect_rows(&vec![]), Ok(vec![]));
}

#[test]
fn one_bad_row_spoils_the_file() {
    let rows = vec![
        Ok(deposit(1, 1, 10)),
        Err(String::from("row 2: the amount is no number")),
        Ok(deposit(1, 3, 30)),
    ];
    assert_eq!(
        collect_rows(&rows),
        Err(Csv::ParseError(vec![String::from("row 2: the amount is no number")]))
    );
}

#[test]
fn every_bad_row_is_named_in_order() {
    let rows = vec![
        Err(String::from("first")),
        Ok(deposit(1, 1, 10)),
        Err(String::from("second")),
        Err(String::from("third")),
    ];
    assert_eq!(
        collect_rows(&rows),
        Err(Csv::ParseError(vec![
            String::from("first"),
            String::from("second"),
            String::from("third"),
        ]))
    );
}

#[test]
fn a_row_with_an_amount_that_is_no_number_fails_the_whole_batch() {
    let lines = [("deposit", 1u16, 1u32, "5.0"), ("deposit", 2, 2, "five"), ("deposit", 3, 3, "?")];
    let mut rows = Vec::new();
    for (n, (_, client, tx, amount)) in lines.iter().enumerate() {
        rows.push(match from_float_string(amount) {
            Ok(amount) => Ok(Transaction {
                tx_type: TransactionType::Deposit,
                client: *client,
                tx: *tx,
                amount,
            }),
            Err(e) => Err(format!("row {}: {:?}", n + 1, e)),
        });
    }
    let batch = collect_rows(&rows);
    assert_eq!(
        batch,
        Err(Csv::ParseError(vec![
            String::from("row 2: ParseAmountError"),
            String::from("row 3: ParseAmountError"),
        ]))
    );
    let accounts = match batch {
        Ok(transactions) => ledger::parse_transactions(&transactions).0,
        Err(_) => vec![],
    };
    assert_eq!(accounts, vec![]);
}
