use spwallet::error::Error;
use spwallet::keys::SpendKey;
use spwallet::outputs::{OutputSpendStatus, OwnedOutput};
use spwallet::spclient::SpClient;
use spwallet::tx::{decode_hex, display_hash, OutPoint};

fn wallet(birthday: u32) -> SpClient {
    SpClient::new(
        "default".to_string(),
        [1u8; 32],
        SpendKey::Secret([1u8; 32]),
        None,
        birthday,
        false,
    )
    .unwrap()
}

fn outpoint(tag: u8, vout: u32) -> OutPoint {
    OutPoint { txid: [tag; 32], vout }
}

fn owned(tag: u8, vout: u32, height: u32, amount: u64) -> (OutPoint, OwnedOutput) {
    let txid = bitcoin::Txid::from_raw_hash(bitcoin::hashes::Hash::from_byte_array([tag; 32]));
    (
        outpoint(tag, vout),
        OwnedOutput {
            txoutpoint: format!("{}:{}", txid, vout),
            blockheight: height,
            tweak: "02".repeat(32),
            amount,
            script: format!("5120{}", "11".repeat(32)),
            label: None,
            spend_status: OutputSpendStatus::Unspent,
        },
    )
}

#[test]
fn fresh_wallet_starts_one_block_below_its_birthday() {
    assert_eq!(wallet(0).last_scan, 0);
    assert_eq!(wallet(1).last_scan, 0);
    assert_eq!(wallet(800_000).last_scan, 799_999);
    assert_eq!(wallet(800_000).birthday, 800_000);
    assert!(wallet(5).list_outpoints().is_empty());
    assert!(wallet(5).is_valid());
}

#[test]
fn extend_inserts_and_overwrites_duplicates() {
    let mut w = wallet(0);
    w.extend_owned(vec![owned(1, 0, 10, 1_000), owned(2, 1, 11, 2_000)]);
    assert!(w.check_outpoint_owned(outpoint(1, 0)));
    assert!(w.check_outpoint_owned(outpoint(2, 1)));
    assert!(!w.check_outpoint_owned(outpoint(2, 0)));
    assert!(!w.check_outpoint_owned(outpoint(3, 1)));
    assert_eq!(w.get_spendable_amt(), 3_000);

    w.extend_owned(vec![owned(1, 0, 12, 5_000), owned(3, 0, 13, 7)]);
    let list = w.list_outpoints();
    assert_eq!(list.len(), 3);
    assert_eq!(list[0].amount, 5_000);
    assert_eq!(list[0].blockheight, 12);
    assert_eq!(list[1].amount, 2_000);
    assert_eq!(list[2].amount, 7);
    assert_eq!(w.get_spendable_amt(), 7_007);
    assert!(w.is_valid());
}

#[test]
fn can_extend_tells_whether_the_total_fits() {
    let mut w = wallet(0);
    w.extend_owned(vec![owned(1, 0, 10, u64::MAX - 5)]);
    assert!(w.can_extend(&vec![owned(2, 0, 10, 5)]));
    assert!(!w.can_extend(&vec![owned(2, 0, 10, 6)]));
    // an entry that replaces the large one makes room
    assert!(w.can_extend(&vec![owned(1, 0, 10, 1), owned(2, 0, 10, 6)]));
}

#[test]
fn mark_spent_needs_an_unspent_owned_output() {
    let mut w = wallet(0);
    w.extend_owned(vec![owned(1, 0, 10, 1_000), owned(2, 1, 11, 2_000)]);
    let spender = [0xabu8; 32];

    assert_eq!(w.mark_outpoint_spent(outpoint(9, 0), spender), Err(Error::NotFound));
    assert_eq!(w.mark_outpoint_spent(outpoint(1, 0), spender), Ok(()));
    let list = w.list_outpoints();
    assert_eq!(list[0].spend_status, OutputSpendStatus::Spent("ab".repeat(32)));
    assert_eq!(list[1].spend_status, OutputSpendStatus::Unspent);

    // marking twice fails and changes nothing
    let before = w.clone();
    assert_eq!(w.mark_outpoint_spent(outpoint(1, 0), [0xcdu8; 32]), Err(Error::AlreadySpent));
    assert_eq!(w, before);
}

#[test]
fn spent_status_holds_the_displayed_txid() {
    let mut w = wallet(0);
    w.extend_owned(vec![owned(1, 0, 10, 1_000)]);
    let mut spender = [0u8; 32];
    spender[0] = 0x01;
    spender[31] = 0xff;
    w.mark_outpoint_spent(outpoint(1, 0), spender).unwrap();
    // a transaction id is displayed with its bytes in reverse order
    let expected = format!("ff{}01", "00".repeat(30));
    assert_eq!(w.list_outpoints()[0].spend_status, OutputSpendStatus::Spent(expected));
}

#[test]
fn hashes_are_displayed_as_the_bitcoin_crate_displays_them() {
    let mut bytes = [0u8; 32];
    for (i, b) in bytes.iter_mut().enumerate() {
        *b = (i as u8).wrapping_mul(37).wrapping_add(11);
    }
    let txid = bitcoin::Txid::from_raw_hash(bitcoin::hashes::Hash::from_byte_array(bytes));
    let block = bitcoin::BlockHash::from_raw_hash(bitcoin::hashes::Hash::from_byte_array(bytes));
    assert_eq!(display_hash(&bytes), txid.to_string());
    assert_eq!(display_hash(&bytes), block.to_string());
    assert_eq!(display_hash(&[0u8; 32]), "00".repeat(32));
    assert_eq!(display_hash(&[0xffu8; 32]), "ff".repeat(32));
    let mut one = [0u8; 32];
    one[0] = 0x1a;
    assert_eq!(display_hash(&one), format!("{}1a", "00".repeat(31)));
}

#[test]
fn mark_mined_is_final() {
    let mut w = wallet(0);
    w.extend_owned(vec![owned(1, 0, 10, 1_000), owned(2, 1, 11, 2_000)]);
    let mut block = [0u8; 32];
    block[0] = 0x02;

    assert_eq!(w.mark_outpoint_mined(outpoint(9, 0), block), Err(Error::NotFound));
    // an unspent output may be marked as mined directly
    assert_eq!(w.mark_outpoint_mined(outpoint(2, 1), block), Ok(()));
    w.mark_outpoint_spent(outpoint(1, 0), [3u8; 32]).unwrap();
    assert_eq!(w.mark_outpoint_mined(outpoint(1, 0), block), Ok(()));
    let expected = OutputSpendStatus::Mined(format!("{}02", "00".repeat(31)));
    assert_eq!(w.list_outpoints()[0].spend_status, expected);
    assert_eq!(w.list_outpoints()[1].spend_status, expected);

    // nothing moves a mined output
    let before = w.clone();
    assert_eq!(w.mark_outpoint_mined(outpoint(1, 0), [7u8; 32]), Err(Error::AlreadyMined));
    assert_eq!(w.mark_outpoint_spent(outpoint(1, 0), [7u8; 32]), Err(Error::AlreadySpent));
    assert_eq!(w.mark_outpoint_spent(outpoint(2, 1), [7u8; 32]), Err(Error::AlreadySpent));
    assert_eq!(w, before);
}

#[test]
fn balances_add_up_to_the_total() {
    let mut w = wallet(0);
    w.extend_owned(vec![
        owned(1, 0, 10, 1_000),
        owned(2, 0, 11, 20_000),
        owned(3, 0, 12, 300_000),
        owned(4, 0, 13, 4_000_000),
    ]);
    let total: u64 = 4_321_000;
    assert_eq!(w.get_spendable_amt(), total);
    assert_eq!(w.get_unconfirmed_amt(), 0);

    w.mark_outpoint_spent(outpoint(2, 0), [9u8; 32]).unwrap();
    w.mark_outpoint_spent(outpoint(3, 0), [9u8; 32]).unwrap();
    assert_eq!(w.get_spendable_amt(), 4_001_000);
    assert_eq!(w.get_unconfirmed_amt(), 320_000);

    w.mark_outpoint_mined(outpoint(3, 0), [8u8; 32]).unwrap();
    assert_eq!(w.get_spendable_amt(), 4_001_000);
    assert_eq!(w.get_unconfirmed_amt(), 20_000);
    let mined: u64 = w
        .list_outpoints()
        .iter()
        .filter(|o| matches!(o.spend_status, OutputSpendStatus::Mined(_)))
        .map(|o| o.amount)
        .sum();
    assert_eq!(mined, 300_000);
    assert_eq!(w.get_spendable_amt() + w.get_unconfirmed_amt() + mined, total);
}

#[test]
fn reset_drops_what_is_above_the_height_and_keeps_statuses() {
    let mut w = wallet(11);
    w.extend_owned(vec![
        owned(1, 0, 10, 1_000),
        owned(2, 0, 11, 20_000),
        owned(3, 0, 12, 300_000),
    ]);
    w.mark_outpoint_spent(outpoint(1, 0), [9u8; 32]).unwrap();
    w.update_last_scan(500);
    assert_eq!(w.last_scan, 500);
    // a scan never moves the height back
    w.update_last_scan(499);
    assert_eq!(w.last_scan, 500);
    w.update_last_scan(500);
    assert_eq!(w.last_scan, 500);

    let reset = w.reset_from_blockheight(11);
    assert_eq!(reset.last_scan, 11);
    assert_eq!(reset.birthday, 11);
    let list = reset.list_outpoints();
    assert_eq!(list.len(), 2);
    assert_eq!(list[0].blockheight, 10);
    assert_eq!(list[0].spend_status, OutputSpendStatus::Spent("09".repeat(32)));
    assert_eq!(list[1].blockheight, 11);
    assert!(!reset.check_outpoint_owned(outpoint(3, 0)));
    assert!(reset.is_valid());
}

#[test]
fn marking_the_inputs_of_a_transaction_passes_over_foreign_inputs() {
    let mut w = wallet(0);
    w.extend_owned(vec![owned(1, 0, 10, 1_000), owned(2, 3, 11, 2_000)]);
    let tx = transaction(&[([2u8; 32], 3), ([7u8; 32], 0)]);
    assert_eq!(w.mark_transaction_inputs_as_spent(&tx), Ok(()));
    let list = w.list_outpoints();
    assert_eq!(list[0].spend_status, OutputSpendStatus::Unspent);
    assert_eq!(list[1].spend_status, OutputSpendStatus::Spent(tx.txid().to_string()));
    assert_eq!(w.get_spendable_amt(), 1_000);
}

#[test]
fn marking_the_inputs_of_a_transaction_is_all_or_nothing() {
    let mut w = wallet(0);
    w.extend_owned(vec![owned(1, 0, 10, 1_000), owned(2, 3, 11, 2_000)]);
    w.mark_outpoint_spent(outpoint(2, 3), [9u8; 32]).unwrap();
    let before = w.clone();
    let tx = transaction(&[([1u8; 32], 0), ([2u8; 32], 3)]);
    assert_eq!(w.mark_transaction_inputs_as_spent(&tx), Err(Error::AlreadySpent));
    assert_eq!(w, before);
}

#[test]
fn a_wallet_with_a_doubled_outpoint_is_not_valid() {
    let mut w = wallet(0);
    w.extend_owned(vec![owned(1, 0, 10, 1_000)]);
    assert!(w.is_valid());
    w.owned.push(owned(1, 0, 10, 1_000));
    assert!(!w.is_valid());
}

#[test]
fn a_wallet_with_a_foreign_receiver_is_not_valid() {
    let mut w = wallet(0);
    let other = SpClient::new(
        "other".to_string(),
        [2u8; 32],
        SpendKey::Secret([1u8; 32]),
        None,
        0,
        false,
    )
    .unwrap();
    w.sp_receiver = other.sp_receiver;
    assert!(!w.is_valid());
}

fn transaction(spends: &[([u8; 32], u32)]) -> bitcoin::Transaction {
    bitcoin::Transaction {
        version: bitcoin::transaction::Version(2),
        lock_time: bitcoin::absolute::LockTime::ZERO,
        input: spends
            .iter()
            .map(|(txid, vout)| bitcoin::TxIn {
                previous_output: bitcoin::OutPoint::new(
                    bitcoin::Txid::from_raw_hash(bitcoin::hashes::Hash::from_byte_array(*txid)),
                    *vout,
                ),
                script_sig: bitcoin::ScriptBuf::new(),
                sequence: bitcoin::Sequence::MAX,
                witness: bitcoin::Witness::new(),
            })
            .collect(),
        output: vec![],
    }
}

#[test]
fn hex_digits_are_read_as_the_bitcoin_crate_reads_them() {
    let samples = [
        "",
        "00",
        "5120",
        "deadBEEF",
        "DEADBEEF",
        "0123456789abcdefABCDEF",
        "abc",
        "0",
        "0g",
        "g0",
        "0x12",
        " 12",
        "12 ",
        "1\u{e9}",
        "\u{e9}",
        "\u{e9}0",
        "00\u{ff10}\u{ff10}",
    ];
    for sample in samples {
        let expected: Option<Vec<u8>> = bitcoin::hashes::hex::FromHex::from_hex(sample).ok();
        assert_eq!(decode_hex(sample), expected);
        let script = bitcoin::ScriptBuf::from_hex(sample).ok().map(|s| s.to_bytes());
        assert_eq!(decode_hex(sample), script);
    }
    assert_eq!(decode_hex("0aF1"), Some(vec![0x0a, 0xf1]));
    assert_eq!(decode_hex("0aF"), None);
}
