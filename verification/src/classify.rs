//! The rule that picks transactions out of a block: coinbase transactions
//! are passed over, and of the others those with enough inputs and enough
//! outputs are reported.

use crate::error::{Field, RpcError, RpcErrorView};
use crate::json::{values_of, Json, JsonView};
use vstd::prelude::*;

verus! {

/// A transaction that cleared both thresholds, with the block it was found in.
#[derive(Debug, PartialEq, Eq)]
pub struct SuspiciousTransaction {
    pub txid: String,
    pub block_height: u64,
    pub block_hash: String,
    pub input_count: usize,
    pub output_count: usize,
}

/// What a [`SuspiciousTransaction`] holds, as a mathematical value.
pub struct SuspiciousTransactionView {
    pub txid: Seq<char>,
    pub block_height: u64,
    pub block_hash: Seq<char>,
    pub input_count: nat,
    pub output_count: nat,
}

impl View for SuspiciousTransaction {
    type V = SuspiciousTransactionView;

    open spec fn view(&self) -> SuspiciousTransactionView {
        SuspiciousTransactionView {
            txid: self.txid@,
            block_height: self.block_height,
            block_hash: self.block_hash@,
            input_count: self.input_count as nat,
            output_count: self.output_count as nat,
        }
    }
}

impl Clone for SuspiciousTransaction {
    fn clone(&self) -> (copy: SuspiciousTransaction)
        ensures
            copy@ == self@,
    {
        SuspiciousTransaction {
            txid: self.txid.clone(),
            block_height: self.block_height,
            block_hash: self.block_hash.clone(),
            input_count: self.input_count,
            output_count: self.output_count,
        }
    }
}

/// The values of a run of records, one by one.
pub open spec fn records_of(found: Seq<SuspiciousTransaction>) -> Seq<SuspiciousTransactionView> {
    Seq::new(found.len(), |i: int| found[i]@)
}

/// The inputs of a transaction, where `vin` is an array.
pub open spec fn inputs_of(tx: JsonView) -> Option<Seq<JsonView>> {
    tx.field("vin"@).as_array()
}

/// The outputs of a transaction, where `vout` is an array.
pub open spec fn outputs_of(tx: JsonView) -> Option<Seq<JsonView>> {
    tx.field("vout"@).as_array()
}

/// Whether an input stands for newly created coins: it carries a `coinbase`
/// member, or it refers to no earlier output, having neither `txid` nor `vout`.
pub open spec fn is_coinbase_input(input: JsonView) -> bool {
    input.get("coinbase"@) is Some || (input.get("txid"@) is None && input.get("vout"@) is None)
}

/// Whether a transaction is a coinbase transaction: it has exactly one
/// input, and that input is a coinbase input.
pub open spec fn is_coinbase(tx: JsonView) -> bool {
    match inputs_of(tx) {
        Some(inputs) => inputs.len() == 1 && is_coinbase_input(inputs[0]),
        None => false,
    }
}

/// The first of `txid`, `vin` and `vout` that a transaction lacks or holds
/// in the wrong shape, if any.
pub open spec fn defect_of(tx: JsonView) -> Option<Field> {
    if tx.field("txid"@).as_str() is None {
        Some(Field::Txid)
    } else if inputs_of(tx) is None {
        Some(Field::Vin)
    } else if outputs_of(tx) is None {
        Some(Field::Vout)
    } else {
        None
    }
}

/// The defect of the first transaction that has one.
pub open spec fn first_defect(txs: Seq<JsonView>) -> Option<Field>
    decreases txs.len(),
{
    if txs.len() == 0 {
        None
    } else {
        match first_defect(txs.drop_last()) {
            Some(field) => Some(field),
            None => defect_of(txs.last()),
        }
    }
}

/// The threshold rule: a transaction is reported when it is no coinbase
/// transaction and has at least `min_inputs` inputs and `min_outputs` outputs.
pub open spec fn is_suspicious(tx: JsonView, min_inputs: nat, min_outputs: nat) -> bool {
    &&& !is_coinbase(tx)
    &&& inputs_of(tx) matches Some(inputs) && inputs.len() >= min_inputs
    &&& outputs_of(tx) matches Some(outputs) && outputs.len() >= min_outputs
}

/// The threshold rule as a predicate on transactions.
pub open spec fn suspicious(min_inputs: nat, min_outputs: nat) -> spec_fn(JsonView) -> bool {
    |tx: JsonView| is_suspicious(tx, min_inputs, min_outputs)
}

/// The record made of a reported transaction.
pub open spec fn record_of(
    tx: JsonView,
    block_height: u64,
    block_hash: Seq<char>,
) -> SuspiciousTransactionView {
    SuspiciousTransactionView {
        txid: tx.field("txid"@).as_str().unwrap(),
        block_height,
        block_hash,
        input_count: inputs_of(tx).unwrap().len(),
        output_count: outputs_of(tx).unwrap().len(),
    }
}

/// The making of records in one block, as a function on transactions.
pub open spec fn recorder(block_height: u64, block_hash: Seq<char>) -> spec_fn(
    JsonView,
) -> SuspiciousTransactionView {
    |tx: JsonView| record_of(tx, block_height, block_hash)
}

/// The transactions that are reported, in the order of the block.
pub open spec fn reported(txs: Seq<JsonView>, min_inputs: nat, min_outputs: nat) -> Seq<JsonView> {
    txs.filter(suspicious(min_inputs, min_outputs))
}

/// The records of the transactions that are reported, in the order of the block.
pub open spec fn findings_in(
    txs: Seq<JsonView>,
    block_height: u64,
    block_hash: Seq<char>,
    min_inputs: nat,
    min_outputs: nat,
) -> Seq<SuspiciousTransactionView> {
    reported(txs, min_inputs, min_outputs).map_values(recorder(block_height, block_hash))
}

/// What the scan of one block gives: a failure where `tx` is no array or a
/// transaction has a defect, and else the findings.
pub open spec fn block_outcome(
    block: JsonView,
    block_height: u64,
    block_hash: Seq<char>,
    min_inputs: nat,
    min_outputs: nat,
) -> Result<Seq<SuspiciousTransactionView>, RpcErrorView> {
    match block.field("tx"@).as_array() {
        None => Err(RpcErrorView::Malformed(Field::Transactions)),
        Some(txs) => match first_defect(txs) {
            Some(field) => Err(RpcErrorView::Malformed(field)),
            None => Ok(findings_in(txs, block_height, block_hash, min_inputs, min_outputs)),
        },
    }
}

/// A defect among the first transactions of a block is the defect of the block.
pub proof fn lemma_first_defect_of_prefix(txs: Seq<JsonView>, n: int)
    requires
        0 <= n <= txs.len(),
        first_defect(txs.take(n)) is Some,
    ensures
        first_defect(txs) == first_defect(txs.take(n)),
    decreases txs.len() - n,
{
    if n < txs.len() {
        assert(txs.take(n + 1).drop_last() =~= txs.take(n));
        lemma_first_defect_of_prefix(txs, n + 1);
    } else {
        assert(txs.take(n) =~= txs);
    }
}

/// A block has no defect exactly when none of its transactions has one;
/// and the defect of a block is that of a transaction before which every
/// transaction is whole.
pub proof fn lemma_first_defect_is_earliest(txs: Seq<JsonView>)
    ensures
        first_defect(txs) is None <==> forall|i: int|
            0 <= i < txs.len() ==> defect_of(#[trigger] txs[i]) is None,
        first_defect(txs) is Some ==> exists|i: int|
            {
                &&& 0 <= i < txs.len()
                &&& defect_of(#[trigger] txs[i]) == first_defect(txs)
                &&& forall|j: int| 0 <= j < i ==> defect_of(#[trigger] txs[j]) is None
            },
    decreases txs.len(),
{
    if txs.len() > 0 {
        let before = txs.drop_last();
        lemma_first_defect_is_earliest(before);
        assert(forall|i: int| 0 <= i < before.len() ==> before[i] == txs[i]);
        if first_defect(before) is Some {
            let i = choose|i: int|
                {
                    &&& 0 <= i < before.len()
                    &&& defect_of(#[trigger] before[i]) == first_defect(before)
                    &&& forall|j: int| 0 <= j < i ==> defect_of(#[trigger] before[j]) is None
                };
            assert(defect_of(txs[i]) == first_defect(txs));
            assert forall|j: int| 0 <= j < i implies defect_of(#[trigger] txs[j]) is None by {
                assert(before[j] == txs[j]);
            }
        } else {
            let last = txs.len() - 1;
            assert(txs.last() == txs[last]);
            if defect_of(txs.last()) is Some {
                assert(defect_of(txs[last]) == first_defect(txs));
                assert forall|j: int| 0 <= j < last implies defect_of(
                    #[trigger] txs[j],
                ) is None by {
                    assert(before[j] == txs[j]);
                }
            } else {
                assert forall|i: int| 0 <= i < txs.len() implies defect_of(
                    #[trigger] txs[i],
                ) is None by {
                    if i < last {
                        assert(before[i] == txs[i]);
                    }
                }
            }
        }
    }
}

/// A transaction with exactly one input is a coinbase transaction whenever
/// that input carries a `coinbase` member, whatever else the input or the
/// transaction holds.
pub proof fn lemma_single_marked_input_is_coinbase(tx: JsonView)
    requires
        inputs_of(tx) matches Some(inputs) && inputs.len() == 1 && inputs[0].get("coinbase"@)
            is Some,
    ensures
        is_coinbase(tx),
{
}

/// A transaction with exactly one input is a coinbase transaction whenever
/// that input has neither a `txid` nor a `vout` member.
pub proof fn lemma_single_unreferenced_input_is_coinbase(tx: JsonView)
    requires
        inputs_of(tx) matches Some(inputs) && inputs.len() == 1 && inputs[0].get("txid"@) is None
            && inputs[0].get("vout"@) is None,
    ensures
        is_coinbase(tx),
{
}

/// A transaction with no input, or with two or more, is no coinbase
/// transaction, even where one of its inputs carries a `coinbase` member.
pub proof fn lemma_other_input_counts_are_not_coinbase(tx: JsonView)
    requires
        inputs_of(tx) matches Some(inputs) && inputs.len() != 1,
    ensures
        !is_coinbase(tx),
{
}

/// A transaction of a block is among the reported ones if and only if it is
/// no coinbase transaction, has at least `min_inputs` inputs and has at least
/// `min_outputs` outputs.
pub proof fn lemma_reported_iff_suspicious(
    txs: Seq<JsonView>,
    min_inputs: nat,
    min_outputs: nat,
    tx: JsonView,
)
    requires
        txs.contains(tx),
    ensures
        reported(txs, min_inputs, min_outputs).contains(tx) <==> {
            &&& !is_coinbase(tx)
            &&& inputs_of(tx) matches Some(inputs) && inputs.len() >= min_inputs
            &&& outputs_of(tx) matches Some(outputs) && outputs.len() >= min_outputs
        },
{
    let rule = suspicious(min_inputs, min_outputs);
    let kept = reported(txs, min_inputs, min_outputs);
    if kept.contains(tx) {
        let i = choose|i: int| 0 <= i < kept.len() && kept[i] == tx;
        txs.lemma_filter_pred(rule, i);
    }
    if is_suspicious(tx, min_inputs, min_outputs) {
        let i = choose|i: int| 0 <= i < txs.len() && txs[i] == tx;
        txs.lemma_filter_contains(rule, i);
    }
}

/// Every record found in a block is the record of one of its transactions
/// that is no coinbase transaction; it names the block, and its counts are
/// at least the two thresholds.
pub proof fn lemma_findings_clear_thresholds(
    txs: Seq<JsonView>,
    block_height: u64,
    block_hash: Seq<char>,
    min_inputs: nat,
    min_outputs: nat,
    i: int,
)
    requires
        0 <= i < findings_in(txs, block_height, block_hash, min_inputs, min_outputs).len(),
    ensures
        ({
            let record = findings_in(txs, block_height, block_hash, min_inputs, min_outputs)[i];
            let tx = reported(txs, min_inputs, min_outputs)[i];
            &&& txs.contains(tx)
            &&& !is_coinbase(tx)
            &&& record == record_of(tx, block_height, block_hash)
            &&& record.block_height == block_height
            &&& record.block_hash == block_hash
            &&& record.input_count >= min_inputs
            &&& record.output_count >= min_outputs
        }),
{
    let rule = suspicious(min_inputs, min_outputs);
    let kept = reported(txs, min_inputs, min_outputs);
    txs.lemma_filter_pred(rule, i);
    assert(kept.contains(kept[i]));
    txs.lemma_filter_contains_rev(rule, kept[i]);
}

/// Tells whether a transaction is a coinbase transaction.
pub fn is_coinbase_transaction(tx: &Json) -> (yes: bool)
    ensures
        yes == is_coinbase(tx@),
{
    let inputs = match tx.get("vin") {
        Some(vin) => vin.as_array(),
        None => None,
    };
    match inputs {
        Some(inputs) => {
            if inputs.len() == 1 {
                let input = &inputs[0];
                input.get("coinbase").is_some() || (input.get("txid").is_none() && input.get(
                    "vout",
                ).is_none())
            } else {
                false
            }
        },
        None => false,
    }
}

/// Scans the transactions of one block.
///
/// Fails where the block holds no array `tx`, or where a transaction lacks
/// `txid`, `vin` or `vout`; whatever was found before is then dropped.
pub fn scan_block(
    block: &Json,
    block_height: u64,
    block_hash: &str,
    min_inputs: usize,
    min_outputs: usize,
) -> (outcome: Result<Vec<SuspiciousTransaction>, RpcError>)
    ensures
        match outcome {
            Ok(found) => block_outcome(
                block@,
                block_height,
                block_hash@,
                min_inputs as nat,
                min_outputs as nat,
            ) == Ok::<Seq<SuspiciousTransactionView>, RpcErrorView>(records_of(found@)),
            Err(error) => block_outcome(
                block@,
                block_height,
                block_hash@,
                min_inputs as nat,
                min_outputs as nat,
            ) == Err::<Seq<SuspiciousTransactionView>, RpcErrorView>(error@),
        },
{
    let listed = match block.get("tx") {
        Some(tx) => tx.as_array(),
        None => None,
    };
    let txs = match listed {
        Some(txs) => txs,
        None => { return Err(RpcError::Malformed(Field::Transactions)); },
    };
    let ghost all = values_of(txs@);
    let mut found: Vec<SuspiciousTransaction> = Vec::new();
    let mut i: usize = 0;
    proof {
        reveal(Seq::filter);
        assert(all.take(0) =~= Seq::empty());
        assert(records_of(found@) =~= findings_in(
            all.take(0),
            block_height,
            block_hash@,
            min_inputs as nat,
            min_outputs as nat,
        ));
    }
    while i < txs.len()
        invariant
            i <= txs.len(),
            all == values_of(txs@),
            block@.field("tx"@).as_array() == Some(all),
            first_defect(all.take(i as int)) is None,
            records_of(found@) == findings_in(
                all.take(i as int),
                block_height,
                block_hash@,
                min_inputs as nat,
                min_outputs as nat,
            ),
        decreases txs.len() - i,
    {
        let tx = &txs[i];
        let ghost seen = all.take(i + 1);
        proof {
            assert(seen.drop_last() =~= all.take(i as int));
            assert(seen.last() == tx@);
        }
        let txid = match tx.get("txid") {
            Some(value) => value.as_str(),
            None => None,
        };
        let txid = match txid {
            Some(txid) => txid,
            None => {
                proof {
                    lemma_first_defect_of_prefix(all, i + 1);
                }
                return Err(RpcError::Malformed(Field::Txid));
            },
        };
        let inputs = match tx.get("vin") {
            Some(value) => value.as_array(),
            None => None,
        };
        let inputs = match inputs {
            Some(inputs) => inputs,
            None => {
                proof {
                    lemma_first_defect_of_prefix(all, i + 1);
                }
                return Err(RpcError::Malformed(Field::Vin));
            },
        };
        let outputs = match tx.get("vout") {
            Some(value) => value.as_array(),
            None => None,
        };
        let outputs = match outputs {
            Some(outputs) => outputs,
            None => {
                proof {
                    lemma_first_defect_of_prefix(all, i + 1);
                }
                return Err(RpcError::Malformed(Field::Vout));
            },
        };
        let ghost before = records_of(found@);
        if !is_coinbase_transaction(tx) && inputs.len() >= min_inputs && outputs.len()
            >= min_outputs {
            found.push(
                SuspiciousTransaction {
                    txid: txid.to_owned(),
                    block_height,
                    block_hash: block_hash.to_owned(),
                    input_count: inputs.len(),
                    output_count: outputs.len(),
                },
            );
            proof {
                reveal(Seq::filter);
                assert(is_suspicious(tx@, min_inputs as nat, min_outputs as nat));
                assert(records_of(found@) =~= before.push(
                    record_of(tx@, block_height, block_hash@),
                ));
                assert(findings_in(
                    seen,
                    block_height,
                    block_hash@,
                    min_inputs as nat,
                    min_outputs as nat,
                ) =~= before.push(record_of(tx@, block_height, block_hash@)));
            }
        } else {
            proof {
                reveal(Seq::filter);
                assert(!is_suspicious(tx@, min_inputs as nat, min_outputs as nat));
            }
        }
        i += 1;
    }
    proof {
        assert(all.take(i as int) =~= all);
    }
    Ok(found)
}

} // verus!
