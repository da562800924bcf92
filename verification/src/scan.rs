//! What a scan yields against a node, and the proof that the scanner, fed
//! with the node's answers, yields just that.
//!
//! A node is taken as a function from calls to what they give. Nothing here
//! runs: these are the statements that the scanner is held to.

use crate::classify::{
    block_outcome, lemma_findings_clear_thresholds, SuspiciousTransactionView,
};
use crate::error::RpcErrorView;
use crate::json::JsonView;
use crate::rpc::{block_hash_in, RequestView};
use crate::scanner::{descending, window, ScannerView, StepView};
use vstd::prelude::*;

verus! {

/// A node in one unchanging state: what each call gives.
pub type Node = spec_fn(RequestView) -> Result<JsonView, RpcErrorView>;

/// The records of a scan, or the failure that ended it.
pub type Outcome = Result<Seq<SuspiciousTransactionView>, RpcErrorView>;

/// What the visit of one height yields: the hash is asked for, then the
/// block with that hash, then the block is scanned. The first of these that
/// fails gives the failure.
pub open spec fn height_outcome(
    node: Node,
    height: u64,
    min_inputs: nat,
    min_outputs: nat,
) -> Outcome {
    match node(RequestView::get_block_hash(height)) {
        Err(error) => Err(error),
        Ok(answer) => match block_hash_in(answer) {
            Err(error) => Err(error),
            Ok(hash) => match node(RequestView::get_block(hash)) {
                Err(error) => Err(error),
                Ok(block) => block_outcome(block, height, hash, min_inputs, min_outputs),
            },
        },
    }
}

/// Puts the records of earlier heights before an outcome.
pub open spec fn after(found: Seq<SuspiciousTransactionView>, rest: Outcome) -> Outcome {
    match rest {
        Ok(records) => Ok(found + records),
        Err(error) => Err(error),
    }
}

/// What the visit of the given heights, one after the other, yields: the
/// findings of each in turn, or the failure of the first height that fails.
pub open spec fn heights_outcome(
    node: Node,
    heights: Seq<u64>,
    min_inputs: nat,
    min_outputs: nat,
) -> Outcome
    decreases heights.len(),
{
    if heights.len() == 0 {
        Ok(Seq::empty())
    } else {
        match height_outcome(node, heights.first(), min_inputs, min_outputs) {
            Err(error) => Err(error),
            Ok(findings) => after(
                findings,
                heights_outcome(node, heights.drop_first(), min_inputs, min_outputs),
            ),
        }
    }
}

/// What a scan of `range` blocks from `start_height` down yields.
pub open spec fn scan_outcome(
    node: Node,
    start_height: u64,
    range: u64,
    min_inputs: nat,
    min_outputs: nat,
) -> Outcome {
    heights_outcome(node, window(start_height, range), min_inputs, min_outputs)
}

/// What the scanner ends with when every call it asks for is answered by
/// the node.
pub open spec fn run(node: Node, step: StepView) -> Outcome
    decreases step.calls_left(),
{
    match step {
        StepView::Done(outcome) => outcome,
        StepView::Call(scanner, request) => run(node, scanner.step(node(request))),
    }
}

/// Whether the node fails to hand out the block at `height`: the call for
/// its hash fails, or the call for the block with that hash does.
pub open spec fn fetch_fails(node: Node, height: u64) -> bool {
    match node(RequestView::get_block_hash(height)) {
        Err(_) => true,
        Ok(answer) => match block_hash_in(answer) {
            Err(_) => false,
            Ok(hash) => node(RequestView::get_block(hash)) is Err,
        },
    }
}

/// A scanner that is about to ask for the hash at its height ends with the
/// records it has, followed by what the heights from there down to its last
/// height yield.
pub proof fn lemma_run_from(node: Node, scanner: ScannerView)
    requires
        scanner.block_hash is None,
        scanner.low <= scanner.height,
    ensures
        run(node, StepView::Call(scanner, scanner.pending())) == after(
            scanner.found,
            heights_outcome(
                node,
                descending(scanner.height, scanner.low),
                scanner.min_inputs,
                scanner.min_outputs,
            ),
        ),
    decreases scanner.height - scanner.low,
{
    let heights = descending(scanner.height, scanner.low);
    let rest = heights.drop_first();
    let here = height_outcome(node, scanner.height, scanner.min_inputs, scanner.min_outputs);
    assert(heights.first() == scanner.height);
    let asked = scanner.step(node(scanner.pending()));
    assert(run(node, StepView::Call(scanner, scanner.pending())) == run(node, asked));
    match asked {
        StepView::Done(outcome) => {
            assert(here is Err);
        },
        StepView::Call(holding, request) => {
            let fetched = holding.step(node(request));
            assert(run(node, asked) == run(node, fetched));
            match fetched {
                StepView::Done(outcome) => {
                    if outcome is Ok {
                        assert(scanner.height == scanner.low);
                        assert(rest =~= Seq::empty());
                        assert(here is Ok);
                        assert(heights_outcome(
                            node,
                            rest,
                            scanner.min_inputs,
                            scanner.min_outputs,
                        ) == Ok::<Seq<SuspiciousTransactionView>, RpcErrorView>(Seq::empty()));
                        assert(scanner.found + (here->Ok_0 + Seq::empty()) =~= scanner.found
                            + here->Ok_0);
                    } else {
                        assert(here is Err);
                    }
                },
                StepView::Call(lower, _) => {
                    assert(rest =~= descending(lower.height, lower.low));
                    lemma_run_from(node, lower);
                    let below = heights_outcome(
                        node,
                        rest,
                        scanner.min_inputs,
                        scanner.min_outputs,
                    );
                    if below is Ok {
                        assert((scanner.found + here->Ok_0) + below->Ok_0 =~= scanner.found + (
                        here->Ok_0 + below->Ok_0));
                    }
                },
            }
        },
    }
}

/// The scanner, fed with the answers of a node, ends with what the scan of
/// the window yields against that node: the findings of each height of the
/// window from `start_height` down, in that order, or the first failure.
pub proof fn lemma_run_is_scan(
    node: Node,
    start_height: u64,
    range: u64,
    min_inputs: nat,
    min_outputs: nat,
)
    ensures
        run(node, ScannerView::start(start_height, range, min_inputs, min_outputs)) == scan_outcome(
            node,
            start_height,
            range,
            min_inputs,
            min_outputs,
        ),
{
    if range >= 1 {
        let first = ScannerView::start(start_height, range, min_inputs, min_outputs);
        let scanner = first->Call_0;
        lemma_run_from(node, scanner);
        let outcome = scan_outcome(node, start_height, range, min_inputs, min_outputs);
        if outcome is Ok {
            assert(Seq::<SuspiciousTransactionView>::empty() + outcome->Ok_0 =~= outcome->Ok_0);
        }
    }
}

/// Two scans with the same parameters against a node in the same state end
/// alike: with the same records in the same order, or with the same failure.
pub proof fn lemma_scan_is_repeatable(
    node: Node,
    start_height: u64,
    range: u64,
    min_inputs: nat,
    min_outputs: nat,
    first: Outcome,
    second: Outcome,
)
    requires
        first == run(node, ScannerView::start(start_height, range, min_inputs, min_outputs)),
        second == run(node, ScannerView::start(start_height, range, min_inputs, min_outputs)),
    ensures
        first == second,
        first == scan_outcome(node, start_height, range, min_inputs, min_outputs),
{
    lemma_run_is_scan(node, start_height, range, min_inputs, min_outputs);
}

/// Where one of the heights fails, the visit of all of them fails.
pub proof fn lemma_failure_fails_all(
    node: Node,
    heights: Seq<u64>,
    min_inputs: nat,
    min_outputs: nat,
    at: int,
)
    requires
        0 <= at < heights.len(),
        height_outcome(node, heights[at], min_inputs, min_outputs) is Err,
    ensures
        heights_outcome(node, heights, min_inputs, min_outputs) is Err,
    decreases heights.len(),
{
    if at > 0 {
        let rest = heights.drop_first();
        assert(rest[at - 1] == heights[at]);
        lemma_failure_fails_all(node, rest, min_inputs, min_outputs, at - 1);
    }
}

/// The visit of the heights succeeds exactly when the visit of each succeeds.
pub proof fn lemma_all_succeed_iff_each_does(
    node: Node,
    heights: Seq<u64>,
    min_inputs: nat,
    min_outputs: nat,
)
    ensures
        heights_outcome(node, heights, min_inputs, min_outputs) is Ok <==> forall|at: int|
            0 <= at < heights.len() ==> height_outcome(
                node,
                #[trigger] heights[at],
                min_inputs,
                min_outputs,
            ) is Ok,
    decreases heights.len(),
{
    if heights.len() > 0 {
        let rest = heights.drop_first();
        lemma_all_succeed_iff_each_does(node, rest, min_inputs, min_outputs);
        if heights_outcome(node, heights, min_inputs, min_outputs) is Ok {
            assert forall|at: int| 0 <= at < heights.len() implies height_outcome(
                node,
                #[trigger] heights[at],
                min_inputs,
                min_outputs,
            ) is Ok by {
                if at > 0 {
                    assert(rest[at - 1] == heights[at]);
                }
            }
        } else if height_outcome(node, heights.first(), min_inputs, min_outputs) is Ok {
            let at = choose|at: int|
                0 <= at < rest.len() && !(height_outcome(
                    node,
                    #[trigger] rest[at],
                    min_inputs,
                    min_outputs,
                ) is Ok);
            assert(rest[at] == heights[at + 1]);
        }
    }
}

/// Every record that the visit of the heights yields names one of these
/// heights, and its counts are at least the two thresholds.
pub proof fn lemma_records_clear_thresholds(
    node: Node,
    heights: Seq<u64>,
    min_inputs: nat,
    min_outputs: nat,
    i: int,
)
    requires
        heights_outcome(node, heights, min_inputs, min_outputs) matches Ok(records) && 0 <= i
            < records.len(),
    ensures
        ({
            let record = heights_outcome(node, heights, min_inputs, min_outputs)->Ok_0[i];
            &&& heights.contains(record.block_height)
            &&& record.input_count >= min_inputs
            &&& record.output_count >= min_outputs
        }),
    decreases heights.len(),
{
    let height = heights.first();
    let rest = heights.drop_first();
    let findings = height_outcome(node, height, min_inputs, min_outputs)->Ok_0;
    if i < findings.len() {
        let hash = block_hash_in(node(RequestView::get_block_hash(height))->Ok_0)->Ok_0;
        let block = node(RequestView::get_block(hash))->Ok_0;
        let txs = block.field("tx"@).as_array()->Some_0;
        lemma_findings_clear_thresholds(txs, height, hash, min_inputs, min_outputs, i);
        assert(heights[0] == height);
    } else {
        lemma_records_clear_thresholds(node, rest, min_inputs, min_outputs, i - findings.len());
        let record = heights_outcome(node, heights, min_inputs, min_outputs)->Ok_0[i];
        let at = choose|at: int| 0 <= at < rest.len() && rest[at] == record.block_height;
        assert(heights[at + 1] == record.block_height);
    }
}

/// Every record of a scan names a height of its window, and its counts are
/// at least the two thresholds.
pub proof fn lemma_scan_records_clear_thresholds(
    node: Node,
    start_height: u64,
    range: u64,
    min_inputs: nat,
    min_outputs: nat,
    i: int,
)
    requires
        scan_outcome(node, start_height, range, min_inputs, min_outputs) matches Ok(records) && 0
            <= i < records.len(),
    ensures
        ({
            let record = scan_outcome(node, start_height, range, min_inputs, min_outputs)->Ok_0[i];
            &&& window(start_height, range).contains(record.block_height)
            &&& record.block_height <= start_height
            &&& record.input_count >= min_inputs
            &&& record.output_count >= min_outputs
        }),
{
    lemma_records_clear_thresholds(
        node,
        window(start_height, range),
        min_inputs,
        min_outputs,
        i,
    );
}

/// Where the node fails to hand out the block at one height of the window,
/// the scan fails: it ends with a failure and with no records at all, and so
/// does the scanner.
pub proof fn lemma_failed_fetch_fails_scan(
    node: Node,
    start_height: u64,
    range: u64,
    min_inputs: nat,
    min_outputs: nat,
    height: u64,
)
    requires
        window(start_height, range).contains(height),
        fetch_fails(node, height),
    ensures
        scan_outcome(node, start_height, range, min_inputs, min_outputs) is Err,
        run(node, ScannerView::start(start_height, range, min_inputs, min_outputs)) is Err,
{
    let heights = window(start_height, range);
    let at = choose|at: int| 0 <= at < heights.len() && heights[at] == height;
    lemma_failure_fails_all(node, heights, min_inputs, min_outputs, at);
    lemma_run_is_scan(node, start_height, range, min_inputs, min_outputs);
}

/// The heights that the scanner visits against a node, in the order in which
/// it asks for their hashes.
pub open spec fn visited(node: Node, step: StepView) -> Seq<u64>
    decreases step.calls_left(),
{
    match step {
        StepView::Done(_) => Seq::empty(),
        StepView::Call(scanner, request) => {
            let later = visited(node, scanner.step(node(request)));
            if scanner.block_hash is None {
                seq![scanner.height] + later
            } else {
                later
            }
        },
    }
}

/// A scanner that is about to ask for the hash at its height visits the
/// heights from there down, one by one, and stops early only on a failure.
pub proof fn lemma_visited_from(node: Node, scanner: ScannerView)
    requires
        scanner.block_hash is None,
        scanner.low <= scanner.height,
    ensures
        visited(node, StepView::Call(scanner, scanner.pending())).is_prefix_of(
            descending(scanner.height, scanner.low),
        ),
        run(node, StepView::Call(scanner, scanner.pending())) is Ok ==> visited(
            node,
            StepView::Call(scanner, scanner.pending()),
        ) == descending(scanner.height, scanner.low),
    decreases scanner.height - scanner.low,
{
    let heights = descending(scanner.height, scanner.low);
    let asked = scanner.step(node(scanner.pending()));
    let seen = visited(node, StepView::Call(scanner, scanner.pending()));
    assert(seen == seq![scanner.height] + visited(node, asked));
    assert(run(node, StepView::Call(scanner, scanner.pending())) == run(node, asked));
    match asked {
        StepView::Done(outcome) => {
            assert(seen =~= seq![scanner.height]);
            assert(seen =~= heights.subrange(0, 1));
        },
        StepView::Call(holding, request) => {
            let fetched = holding.step(node(request));
            assert(visited(node, asked) == visited(node, fetched));
            assert(run(node, asked) == run(node, fetched));
            match fetched {
                StepView::Done(outcome) => {
                    assert(seen =~= seq![scanner.height]);
                    assert(seen =~= heights.subrange(0, 1));
                    if outcome is Ok {
                        assert(scanner.height == scanner.low);
                        assert(seen =~= heights);
                    }
                },
                StepView::Call(lower, _) => {
                    lemma_visited_from(node, lower);
                    let below = visited(node, fetched);
                    let rest = descending(lower.height, lower.low);
                    assert(below =~= rest.subrange(0, below.len() as int));
                    assert(seen =~= heights.subrange(0, seen.len() as int));
                    if run(node, fetched) is Ok {
                        assert(seen =~= heights);
                    }
                },
            }
        },
    }
}

/// The scanner visits the heights of the window from `start_height` down,
/// in that order and no others; it visits all of them unless a failure ends
/// the scan before.
pub proof fn lemma_visits_window(
    node: Node,
    start_height: u64,
    range: u64,
    min_inputs: nat,
    min_outputs: nat,
)
    ensures
        visited(
            node,
            ScannerView::start(start_height, range, min_inputs, min_outputs),
        ).is_prefix_of(window(start_height, range)),
        scan_outcome(node, start_height, range, min_inputs, min_outputs) is Ok ==> visited(
            node,
            ScannerView::start(start_height, range, min_inputs, min_outputs),
        ) == window(start_height, range),
{
    lemma_run_is_scan(node, start_height, range, min_inputs, min_outputs);
    let first = ScannerView::start(start_height, range, min_inputs, min_outputs);
    if range >= 1 {
        lemma_visited_from(node, first->Call_0);
    } else {
        assert(visited(node, first) =~= window(start_height, range));
    }
}

} // verus!
