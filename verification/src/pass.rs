//! One evaluation pass, as a state machine.
//!
//! A pass runs Gather → Quote → Evaluate → Reap. The outside calls — listing
//! symbols, fetching one price, listing rows, resolving and deleting one row
//! — are performed by the caller, who feeds each outcome back into the
//! machine; every decision in between is made, and proved, here. The first
//! failure of any stage aborts the pass: quoting never hands over a partial
//! price list, and a reaping failure leaves earlier deletions standing while
//! asking for no further one.

use vstd::prelude::*;
use crate::db::TableConfig;
use crate::errors::XylexApiError;
use crate::evaluate::{check_triggered_alert_hashes, quotes_view, triggered_hashes, Quote};
use crate::row::Row;
use vstd::string::StringExecFns;

verus! {

/// Where a pass stands.
#[derive(Clone, Copy, Debug, PartialEq, Eq, Structural)]
pub enum PassPhase {
    /// Waiting for the distinct symbols in use.
    Gather,
    /// Waiting for the price of the next pending symbol.
    Quoting,
    /// All prices in; waiting for the stored rows.
    Evaluate,
    /// Waiting for the next triggered row to be resolved and deleted.
    Reaping,
    /// Every triggered row was deleted (or none triggered).
    Done,
    /// A stage failed; the pass is over.
    Aborted,
}

/// What a pass holds, in mathematical terms.
pub ghost struct PassView {
    pub phase: PassPhase,
    /// The distinct symbols, in the order they were handed in.
    pub symbols: Seq<Seq<char>>,
    /// The quotes collected so far, one per symbol already priced.
    pub quotes: Seq<(Seq<char>, int)>,
    /// The triggered hashes, in row order.
    pub triggered: Seq<Seq<char>>,
    /// How many triggered hashes were resolved and deleted so far.
    pub reaped: int,
}

/// The state of one evaluation pass.
pub struct EvaluationPass {
    phase: PassPhase,
    symbols: Vec<String>,
    quotes: Vec<Quote>,
    triggered: Vec<String>,
    reaped: usize,
}

impl View for EvaluationPass {
    type V = PassView;

    closed spec fn view(&self) -> PassView {
        PassView {
            phase: self.phase,
            symbols: self.symbols.deep_view(),
            quotes: quotes_view(self.quotes@),
            triggered: self.triggered.deep_view(),
            reaped: self.reaped as int,
        }
    }
}

impl EvaluationPass {
    /// What every reachable pass state satisfies: quotes follow the symbol
    /// order one for one, the reaped count never passes the triggered count,
    /// and each phase pins down how far the stages have come.
    pub open spec fn inv(&self) -> bool {
        &&& self@.quotes.len() <= self@.symbols.len()
        &&& forall|i: int|
            0 <= i < self@.quotes.len() ==> (#[trigger] self@.quotes[i]).0 == self@.symbols[i]
        &&& 0 <= self@.reaped <= self@.triggered.len()
        &&& match self@.phase {
            PassPhase::Gather => self@.symbols.len() == 0 && self@.quotes.len() == 0
                && self@.triggered.len() == 0 && self@.reaped == 0,
            PassPhase::Quoting => self@.quotes.len() < self@.symbols.len()
                && self@.triggered.len() == 0 && self@.reaped == 0,
            PassPhase::Evaluate => self@.quotes.len() == self@.symbols.len()
                && self@.triggered.len() == 0 && self@.reaped == 0,
            PassPhase::Reaping => self@.quotes.len() == self@.symbols.len() && self@.reaped
                < self@.triggered.len(),
            PassPhase::Done => self@.reaped == self@.triggered.len(),
            PassPhase::Aborted => true,
        }
    }

    /// Starts a pass: nothing gathered, nothing quoted, nothing reaped.
    pub fn new() -> (p: EvaluationPass)
        ensures
            p.inv(),
            p@.phase == PassPhase::Gather,
            p@.reaped == 0,
            p@.triggered.len() == 0,
    {
        let p = EvaluationPass {
            phase: PassPhase::Gather,
            symbols: Vec::new(),
            quotes: Vec::new(),
            triggered: Vec::new(),
            reaped: 0,
        };
        proof {
            assert(p@.symbols =~= Seq::<Seq<char>>::empty());
            assert(p@.quotes =~= Seq::<(Seq<char>, int)>::empty());
            assert(p@.triggered =~= Seq::<Seq<char>>::empty());
        }
        p
    }

    /// The current phase.
    pub fn phase(&self) -> (r: PassPhase)
        ensures
            r == self@.phase,
    {
        self.phase
    }

    /// Hands in the distinct symbols the store listed. With no symbol in
    /// use, quoting is already complete.
    pub fn provide_symbols(&mut self, symbols: Vec<String>)
        requires
            old(self).inv(),
            old(self)@.phase == PassPhase::Gather,
        ensures
            final(self).inv(),
            final(self)@.symbols == symbols.deep_view(),
            final(self)@.phase == (if symbols@.len() == 0 {
                PassPhase::Evaluate
            } else {
                PassPhase::Quoting
            }),
            final(self)@.quotes.len() == 0,
            final(self)@.triggered.len() == 0,
            final(self)@.reaped == 0,
    {
        let empty = symbols.len() == 0;
        self.symbols = symbols;
        self.phase = if empty {
            PassPhase::Evaluate
        } else {
            PassPhase::Quoting
        };
    }

    /// The symbol whose price is pending.
    pub fn next_symbol(&self) -> (r: String)
        requires
            self.inv(),
            self@.phase == PassPhase::Quoting,
        ensures
            r@ == self@.symbols[self@.quotes.len() as int],
    {
        self.symbols[self.quotes.len()].clone()
    }

    /// Hands in the price fetched for the pending symbol. Once every symbol
    /// is priced, the pass waits for the stored rows.
    pub fn provide_price(&mut self, price: i64)
        requires
            old(self).inv(),
            old(self)@.phase == PassPhase::Quoting,
        ensures
            final(self).inv(),
            final(self)@.quotes == old(self)@.quotes.push(
                (old(self)@.symbols[old(self)@.quotes.len() as int], price as int),
            ),
            final(self)@.symbols == old(self)@.symbols,
            final(self)@.triggered.len() == 0,
            final(self)@.reaped == 0,
            final(self)@.phase == (if old(self)@.quotes.len() + 1 == old(self)@.symbols.len() {
                PassPhase::Evaluate
            } else {
                PassPhase::Quoting
            }),
    {
        let k = self.quotes.len();
        let symbol = self.symbols[k].clone();
        self.quotes.push(Quote { symbol, price });
        proof {
            assert(self@.quotes =~= old(self)@.quotes.push(
                (old(self)@.symbols[old(self)@.quotes.len() as int], price as int),
            ));
        }
        if self.quotes.len() == self.symbols.len() {
            self.phase = PassPhase::Evaluate;
        }
    }

    /// A price fetch failed: the pass aborts with an error naming the
    /// failing symbol. Nothing was triggered and nothing deleted, and the
    /// pass will ask for neither.
    pub fn fail_quote(&mut self, detail: &str) -> (e: XylexApiError)
        requires
            old(self).inv(),
            old(self)@.phase == PassPhase::Quoting,
        ensures
            final(self).inv(),
            final(self)@.phase == PassPhase::Aborted,
            final(self)@.triggered.len() == 0,
            final(self)@.reaped == 0,
            e matches XylexApiError::NetworkError(m) && m@ == old(self)@.symbols[old(
                self,
            )@.quotes.len() as int] + ": "@ + detail@,
    {
        let symbol = self.symbols[self.quotes.len()].clone();
        self.phase = PassPhase::Aborted;
        XylexApiError::NetworkError(symbol.concat(": ").concat(detail))
    }

    /// Hands in the stored rows; the triggered hashes are computed from them
    /// and the collected quotes. With nothing triggered the pass is already
    /// done.
    pub fn provide_rows(&mut self, rows: &Vec<Row>, config: &TableConfig)
        requires
            old(self).inv(),
            old(self)@.phase == PassPhase::Evaluate,
        ensures
            final(self).inv(),
            final(self)@.triggered == triggered_hashes(rows@, old(self)@.quotes, *config),
            final(self)@.symbols == old(self)@.symbols,
            final(self)@.quotes == old(self)@.quotes,
            final(self)@.reaped == 0,
            final(self)@.phase == (if triggered_hashes(rows@, old(self)@.quotes, *config).len()
                == 0 {
                PassPhase::Done
            } else {
                PassPhase::Reaping
            }),
    {
        let triggered = check_triggered_alert_hashes(rows, &self.quotes, config);
        let empty = triggered.len() == 0;
        self.triggered = triggered;
        self.phase = if empty {
            PassPhase::Done
        } else {
            PassPhase::Reaping
        };
    }

    /// The triggered hash whose deletion is pending.
    pub fn next_hash(&self) -> (r: String)
        requires
            self.inv(),
            self@.phase == PassPhase::Reaping,
        ensures
            r@ == self@.triggered[self@.reaped],
    {
        self.triggered[self.reaped].clone()
    }

    /// The pending hash was resolved and its row deleted: reaping moved
    /// forward by exactly that hash.
    pub fn confirm_reaped(&mut self)
        requires
            old(self).inv(),
            old(self)@.phase == PassPhase::Reaping,
        ensures
            final(self).inv(),
            final(self)@.reaped == old(self)@.reaped + 1,
            final(self)@.triggered == old(self)@.triggered,
            final(self)@.symbols == old(self)@.symbols,
            final(self)@.quotes == old(self)@.quotes,
            final(self)@.phase == (if old(self)@.reaped + 1 == old(self)@.triggered.len() {
                PassPhase::Done
            } else {
                PassPhase::Reaping
            }),
    {
        let len = self.triggered.len();
        proof {
            assert(self@.triggered.len() == self.triggered@.len());
            assert(self.reaped < len);
        }
        self.reaped = self.reaped + 1;
        if self.reaped == self.triggered.len() {
            self.phase = PassPhase::Done;
        }
    }

    /// Resolving or deleting the pending hash failed: the pass aborts.
    /// Rows already deleted stand — the reaped count is unchanged — and no
    /// further deletion is asked for.
    pub fn fail_reap(&mut self)
        requires
            old(self).inv(),
            old(self)@.phase == PassPhase::Reaping,
        ensures
            final(self).inv(),
            final(self)@.phase == PassPhase::Aborted,
            final(self)@.reaped == old(self)@.reaped,
            final(self)@.triggered == old(self)@.triggered,
            final(self)@.symbols == old(self)@.symbols,
            final(self)@.quotes == old(self)@.quotes,
    {
        self.phase = PassPhase::Aborted;
    }

    /// The triggered hashes of this pass, in row order.
    pub fn triggered_list(&self) -> (r: &Vec<String>)
        ensures
            r.deep_view() == self@.triggered,
    {
        &self.triggered
    }

    /// How many triggered hashes were resolved and deleted so far.
    pub fn reaped_count(&self) -> (r: usize)
        ensures
            r as int == self@.reaped,
    {
        self.reaped
    }
}

} // verus!
