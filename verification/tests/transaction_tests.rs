use mstp_gateway::bytes::IpEndpoint;
use mstp_gateway::transaction::{
    service_timeout, ConfirmedServiceChoice, PendingTransaction, TransactionError, TransactionKey,
    TransactionTable,
};

fn client() -> IpEndpoint {
    IpEndpoint::new(192, 168, 1, 100, 47808)
}

fn read_property(invoke_id: u8, dest_mac: u8) -> PendingTransaction {
    PendingTransaction::new(
        invoke_id,
        client(),
        Some(2),
        vec![192, 168, 1, 100, 0xBA, 0xC0],
        1,
        dest_mac,
        ConfirmedServiceChoice::ReadProperty,
        false,
        vec![0x01, 0x08, 0x00, 0x01, 0x01, 0x0A],
    )
}

#[test]
fn test_transaction_key() {
    let key1 = TransactionKey::new(42, 10);
    let key2 = TransactionKey::new(42, 10);
    let key3 = TransactionKey::new(42, 11);
    assert_eq!(key1, key2);
    assert_ne!(key1, key3);
}

#[test]
fn test_add_transaction() {
    let mut table = TransactionTable::new();
    let transaction = read_property(42, 10);
    assert!(table.add(transaction).is_ok());
    assert_eq!(table.len(), 1);
}

#[test]
fn test_duplicate_transaction() {
    let mut table = TransactionTable::new();
    let transaction1 = read_property(42, 10);
    let transaction2 = transaction1.clone();
    assert!(table.add(transaction1).is_ok());
    assert_eq!(table.add(transaction2), Err(TransactionError::DuplicateInvokeId));
}

#[test]
fn test_get_transaction() {
    let mut table = TransactionTable::new();
    table.add(read_property(42, 10)).unwrap();
    let found = table.get(42, 10);
    assert!(found.is_some());
    assert_eq!(found.unwrap().invoke_id, 42);
    let not_found = table.get(43, 10);
    assert!(not_found.is_none());
}

#[test]
fn test_remove_transaction() {
    let mut table = TransactionTable::new();
    table.add(read_property(42, 10)).unwrap();
    assert_eq!(table.len(), 1);
    let removed = table.remove(42, 10);
    assert!(removed.is_some());
    assert_eq!(table.len(), 0);
    let not_found = table.remove(42, 10);
    assert!(not_found.is_none());
}

#[test]
fn test_timeout_detection() {
    let mut table = TransactionTable::new();
    let mut transaction = read_property(42, 10);
    transaction.timeout_ms = 50;
    let created = transaction.created_at_ms;
    table.add(transaction).unwrap();

    // Not timed out right away.
    let timed_out = table.check_timeouts_at(created);
    assert_eq!(timed_out.len(), 0);

    // Timed out once 100 ms have passed.
    let timed_out = table.check_timeouts_at(created + 100);
    assert_eq!(timed_out.len(), 1);
    assert_eq!(timed_out[0].invoke_id, 42);
    assert_eq!(table.len(), 0);
}

#[test]
fn test_retry_mechanism() {
    let mut table = TransactionTable::new();
    table.add(read_property(42, 10)).unwrap();
    let mut tx = table.remove(42, 10).unwrap();
    assert_eq!(tx.retries, 0);
    let original_timeout = tx.timeout_ms;
    tx.retry();
    assert_eq!(tx.retries, 1);
    assert!(!tx.retries_exhausted());
    assert!(tx.timeout_ms > original_timeout);
    tx.max_retries = 1;
    assert!(tx.retries_exhausted());
}

#[test]
fn test_service_timeouts() {
    assert_eq!(service_timeout(ConfirmedServiceChoice::ReadProperty), 10_000);
    assert_eq!(service_timeout(ConfirmedServiceChoice::AtomicWriteFile), 60_000);
    assert_eq!(service_timeout(ConfirmedServiceChoice::ReinitializeDevice), 30_000);
}

#[test]
fn test_table_capacity() {
    let mut table = TransactionTable::with_capacity(2);
    let tx1 = read_property(1, 10);
    let tx2 = read_property(2, 11);
    let tx3 = read_property(3, 12);
    assert!(table.add(tx1).is_ok());
    assert!(table.add(tx2).is_ok());
    assert_eq!(table.add(tx3), Err(TransactionError::TableFull));
}

#[test]
fn test_statistics() {
    let mut table = TransactionTable::new();
    assert_eq!(table.stats().total_created, 0);
    assert_eq!(table.stats().total_completed, 0);
    table.add(read_property(42, 10)).unwrap();
    assert_eq!(table.stats().total_created, 1);
    assert_eq!(table.stats().active_count, 1);
    table.remove(42, 10);
    assert_eq!(table.stats().total_completed, 1);
    assert_eq!(table.stats().active_count, 0);
}

#[test]
fn retry_in_table_grows_timeout_and_counts() {
    let mut table = TransactionTable::new();
    let tx = PendingTransaction::new_at(
        7,
        client(),
        None,
        vec![],
        1,
        3,
        ConfirmedServiceChoice::WriteProperty,
        false,
        vec![0x01, 0x04],
        1_000,
    );
    assert_eq!(tx.timeout_ms, 10_000);
    table.add(tx).unwrap();
    let expired = table.check_timeouts_at(11_001);
    assert_eq!(expired.len(), 1);
    assert_eq!(table.stats().total_timed_out, 1);
    let tx = expired.into_iter().next().unwrap();
    table.retry_at(tx, 12_000).unwrap();
    let again = table.get(7, 3).unwrap();
    assert_eq!(again.retries, 1);
    assert_eq!(again.timeout_ms, 15_000);
    assert_eq!(again.created_at_ms, 12_000);
    assert_eq!(table.stats().total_retries, 1);
}

#[test]
fn unknown_service_choice_is_refused() {
    assert_eq!(ConfirmedServiceChoice::try_from_u8(12), Ok(ConfirmedServiceChoice::ReadProperty));
    assert!(ConfirmedServiceChoice::try_from_u8(1).is_err());
    assert!(ConfirmedServiceChoice::try_from_u8(200).is_err());
}

#[test]
fn transaction_error_messages() {
    assert_eq!(TransactionError::TableFull.message(), "Transaction table full");
    assert_eq!(TransactionError::NotFound.message(), "Transaction not found");
    assert_eq!(TransactionError::DuplicateInvokeId.message(), "Duplicate invoke ID");
    assert_eq!(TransactionError::InvalidInvokeId.message(), "Invalid invoke ID");
}
