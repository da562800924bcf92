//! The scan of a window of blocks, most recent block first.
//!
//! The scanner never talks to a node. It says which call is to be made
//! next, is handed what the call gave, and says what comes after: another
//! call, or the end of the scan.

use crate::classify::{
    block_outcome, records_of, scan_block, SuspiciousTransaction, SuspiciousTransactionView,
};
use crate::error::{RpcError, RpcErrorView};
use crate::json::{Json, JsonView};
use crate::rpc::{block_hash_in, read_block_hash, Request, RequestView};
use vstd::prelude::*;

verus! {

/// The lowest height of a window of `range` blocks that ends at
/// `start_height`: `start_height - (range - 1)`, and 0 where that would lie
/// below the first block.
pub open spec fn window_low(start_height: u64, range: u64) -> u64
    recommends
        range >= 1,
{
    if range - 1 >= start_height {
        0
    } else {
        (start_height - (range - 1)) as u64
    }
}

/// The heights from `high` down to `low`.
pub open spec fn descending(high: u64, low: u64) -> Seq<u64>
    recommends
        low <= high,
{
    Seq::new((high - low + 1) as nat, |i: int| (high - i) as u64)
}

/// The heights that a scan visits, in the order in which it visits them:
/// from `start_height` down, `range` of them, or down to 0 where there are
/// not so many. A range of 0 visits none.
pub open spec fn window(start_height: u64, range: u64) -> Seq<u64> {
    if range == 0 {
        Seq::empty()
    } else {
        descending(start_height, window_low(start_height, range))
    }
}

/// The window holds `range` heights, or `start_height + 1` where there are
/// not so many down to 0; it starts at `start_height` and goes down by one
/// from each height to the next.
pub proof fn lemma_window_shape(start_height: u64, range: u64)
    ensures
        window(start_height, range).len() == if range <= start_height {
            range as int
        } else {
            start_height + 1
        },
        forall|i: int|
            0 <= i < window(start_height, range).len() ==> #[trigger] window(
                start_height,
                range,
            )[i] == start_height - i,
{
}

/// A scan that waits for the answer to one call.
#[derive(Debug)]
pub struct Scanner {
    low: u64,
    height: u64,
    block_hash: Option<String>,
    min_inputs: usize,
    min_outputs: usize,
    found: Vec<SuspiciousTransaction>,
}

/// What a [`Scanner`] holds, as a mathematical value.
pub struct ScannerView {
    /// The last height to visit.
    pub low: u64,
    /// The height being visited.
    pub height: u64,
    /// The hash of the block at `height`, once the node has told it.
    pub block_hash: Option<Seq<char>>,
    pub min_inputs: nat,
    pub min_outputs: nat,
    /// The records of the heights above `height`.
    pub found: Seq<SuspiciousTransactionView>,
}

/// What a scan does next.
#[derive(Debug)]
pub enum Step {
    /// Make this call and hand what it gave to [`Scanner::step`].
    Call(Scanner, Request),
    /// The scan is over: all its records, or the failure that ended it.
    Done(Result<Vec<SuspiciousTransaction>, RpcError>),
}

/// What a [`Step`] holds, as a mathematical value.
pub enum StepView {
    Call(ScannerView, RequestView),
    Done(Result<Seq<SuspiciousTransactionView>, RpcErrorView>),
}

impl View for Scanner {
    type V = ScannerView;

    closed spec fn view(&self) -> ScannerView {
        ScannerView {
            low: self.low,
            height: self.height,
            block_hash: match self.block_hash {
                Some(hash) => Some(hash@),
                None => None,
            },
            min_inputs: self.min_inputs as nat,
            min_outputs: self.min_outputs as nat,
            found: records_of(self.found@),
        }
    }
}

impl View for Step {
    type V = StepView;

    open spec fn view(&self) -> StepView {
        match self {
            Step::Call(scanner, request) => StepView::Call(scanner@, request@),
            Step::Done(Ok(found)) => StepView::Done(Ok(records_of(found@))),
            Step::Done(Err(error)) => StepView::Done(Err(error@)),
        }
    }
}

/// What a call gave, as a mathematical value.
pub open spec fn answer_view(answer: Result<Json, RpcError>) -> Result<JsonView, RpcErrorView> {
    match answer {
        Ok(result) => Ok(result@),
        Err(error) => Err(error@),
    }
}

impl ScannerView {
    /// The call that the scan waits for: for the hash of the block at
    /// `height`, and once that is known for the block itself.
    pub open spec fn pending(self) -> RequestView {
        match self.block_hash {
            None => RequestView::get_block_hash(self.height),
            Some(hash) => RequestView::get_block(hash),
        }
    }

    /// The most calls that the scan can still make.
    pub open spec fn calls_left(self) -> nat {
        let below: nat = if self.height > self.low {
            (self.height - self.low) as nat
        } else {
            0
        };
        if self.block_hash is None {
            2 * below + 2
        } else {
            2 * below + 1
        }
    }

    /// The start of a scan: nothing to do for a range of 0, and else the
    /// call for the hash of the block at `start_height`.
    pub open spec fn start(
        start_height: u64,
        range: u64,
        min_inputs: nat,
        min_outputs: nat,
    ) -> StepView {
        if range == 0 {
            StepView::Done(Ok(Seq::empty()))
        } else {
            let scanner = ScannerView {
                low: window_low(start_height, range),
                height: start_height,
                block_hash: None,
                min_inputs,
                min_outputs,
                found: Seq::empty(),
            };
            StepView::Call(scanner, scanner.pending())
        }
    }

    /// What follows on the answer to the pending call.
    ///
    /// A failed call ends the scan with its failure, and so does an answer
    /// that is no hash, or no block that can be scanned. A hash is followed by
    /// the call for its block. A block adds its findings to the records; it
    /// is followed by the call for the hash at the next height down, and
    /// after the last height by the end of the scan.
    pub open spec fn step(self, answer: Result<JsonView, RpcErrorView>) -> StepView {
        match answer {
            Err(error) => StepView::Done(Err(error)),
            Ok(result) => match self.block_hash {
                None => match block_hash_in(result) {
                    Err(error) => StepView::Done(Err(error)),
                    Ok(hash) => {
                        let scanner = ScannerView { block_hash: Some(hash), ..self };
                        StepView::Call(scanner, scanner.pending())
                    },
                },
                Some(hash) => match block_outcome(
                    result,
                    self.height,
                    hash,
                    self.min_inputs,
                    self.min_outputs,
                ) {
                    Err(error) => StepView::Done(Err(error)),
                    Ok(findings) => {
                        let found = self.found + findings;
                        if self.height > self.low {
                            let scanner = ScannerView {
                                height: (self.height - 1) as u64,
                                block_hash: None,
                                found,
                                ..self
                            };
                            StepView::Call(scanner, scanner.pending())
                        } else {
                            StepView::Done(Ok(found))
                        }
                    },
                },
            },
        }
    }
}

impl StepView {
    /// The most calls that are still to come.
    pub open spec fn calls_left(self) -> nat {
        match self {
            StepView::Call(scanner, _) => scanner.calls_left(),
            StepView::Done(_) => 0,
        }
    }
}

/// The lowest height of the window, and nothing for a range of 0.
pub fn lowest_height(start_height: u64, range: u64) -> (low: Option<u64>)
    ensures
        range == 0 ==> low is None,
        range >= 1 ==> low == Some(window_low(start_height, range)),
{
    if range == 0 {
        None
    } else if range - 1 >= start_height {
        Some(0)
    } else {
        Some(start_height - (range - 1))
    }
}

impl Scanner {
    /// Starts the scan of the `range` blocks from `start_height` down.
    pub fn start(
        start_height: u64,
        range: u64,
        min_inputs: usize,
        min_outputs: usize,
    ) -> (first: Step)
        ensures
            first@ == ScannerView::start(
                start_height,
                range,
                min_inputs as nat,
                min_outputs as nat,
            ),
    {
        match lowest_height(start_height, range) {
            None => {
                let found: Vec<SuspiciousTransaction> = Vec::new();
                assert(records_of(found@) =~= Seq::empty());
                Step::Done(Ok(found))
            },
            Some(low) => {
                let found: Vec<SuspiciousTransaction> = Vec::new();
                assert(records_of(found@) =~= Seq::empty());
                let scanner = Scanner {
                    low,
                    height: start_height,
                    block_hash: None,
                    min_inputs,
                    min_outputs,
                    found,
                };
                Step::Call(scanner, Request::get_block_hash(start_height))
            },
        }
    }

    /// The height that the scan is visiting.
    pub fn height(&self) -> (height: u64)
        ensures
            height == self@.height,
    {
        self.height
    }

    /// The hash of the block at that height, once the node has told it.
    pub fn block_hash(&self) -> (hash: Option<&str>)
        ensures
            match hash {
                Some(hash) => self@.block_hash == Some(hash@),
                None => self@.block_hash is None,
            },
    {
        match &self.block_hash {
            Some(hash) => Some(hash.as_str()),
            None => None,
        }
    }

    /// Takes what the pending call gave and says what comes next.
    pub fn step(self, answer: Result<Json, RpcError>) -> (next: Step)
        ensures
            next@ == self@.step(answer_view(answer)),
    {
        let result = match answer {
            Ok(result) => result,
            Err(error) => { return Step::Done(Err(error)); },
        };
        let Scanner { low, height, block_hash, min_inputs, min_outputs, found } = self;
        match block_hash {
            None => match read_block_hash(&result) {
                Err(error) => Step::Done(Err(error)),
                Ok(hash) => {
                    let request = Request::get_block(hash.as_str());
                    let scanner = Scanner {
                        low,
                        height,
                        block_hash: Some(hash),
                        min_inputs,
                        min_outputs,
                        found,
                    };
                    Step::Call(scanner, request)
                },
            },
            Some(hash) => match scan_block(
                &result,
                height,
                hash.as_str(),
                min_inputs,
                min_outputs,
            ) {
                Err(error) => Step::Done(Err(error)),
                Ok(findings) => {
                    let mut found = found;
                    let mut findings = findings;
                    let ghost before = records_of(found@);
                    let ghost added = records_of(findings@);
                    found.append(&mut findings);
                    assert(records_of(found@) =~= before + added);
                    if height > low {
                        let scanner = Scanner {
                            low,
                            height: height - 1,
                            block_hash: None,
                            min_inputs,
                            min_outputs,
                            found,
                        };
                        Step::Call(scanner, Request::get_block_hash(height - 1))
                    } else {
                        Step::Done(Ok(found))
                    }
                },
            },
        }
    }
}

} // verus!
