use vstd::prelude::*;
use crate::results::ModelResult;
use crate::session::{Operation, Solver};

verus! {

/// The byte that ends each line of a model's payload.
pub const NEWLINE: u8 = 10;

/// The byte between a symbol and its value in an assignment line.
pub const EQUALS: u8 = 61;

/// The engine's answer to a poll that does not wait.
pub enum Poll {
    /// No result is ready yet.
    NotReady,
    /// A model is ready: the text of each shown symbol and, where an extension is attached,
    /// the text of each `(symbol, value)` pair of its assignment for the model's thread.
    Model { symbols: Vec<Vec<u8>>, assignment: Vec<(Vec<u8>, Vec<u8>)> },
    /// The search has no more models.
    Exhausted,
}

/// One line per symbol, each ended by a newline.
pub open spec fn shown_text(symbols: Seq<Vec<u8>>) -> Seq<u8>
    decreases symbols.len(),
{
    if symbols.len() == 0 {
        Seq::empty()
    } else {
        shown_text(symbols.drop_last()) + symbols.last()@ + seq![NEWLINE]
    }
}

/// One `symbol=value` line per pair, each ended by a newline.
pub open spec fn assignment_text(pairs: Seq<(Vec<u8>, Vec<u8>)>) -> Seq<u8>
    decreases pairs.len(),
{
    if pairs.len() == 0 {
        Seq::empty()
    } else {
        assignment_text(pairs.drop_last()) + pairs.last().0@ + seq![EQUALS] + pairs.last().1@
            + seq![NEWLINE]
    }
}

/// The payload of a model: its shown symbols, then the extension's assignment.
pub open spec fn model_payload(symbols: Seq<Vec<u8>>, pairs: Seq<(Vec<u8>, Vec<u8>)>) -> Seq<u8> {
    shown_text(symbols) + assignment_text(pairs)
}

fn append_bytes(out: &mut Vec<u8>, bytes: &Vec<u8>)
    ensures
        final(out)@ == old(out)@ + bytes@,
{
    let mut i: usize = 0;
    while i < bytes.len()
        invariant
            i <= bytes@.len(),
            out@ == old(out)@ + bytes@.subrange(0, i as int),
        decreases bytes@.len() - i,
    {
        out.push(bytes[i]);
        i = i + 1;
        proof {
            assert(bytes@.subrange(0, i as int) == bytes@.subrange(0, i - 1) + seq![bytes@[i - 1]]);
        }
    }
    proof {
        assert(bytes@.subrange(0, bytes@.len() as int) == bytes@);
    }
}

/// Writes each shown symbol of a model on a line of its own.
pub fn write_model(symbols: &Vec<Vec<u8>>, out: &mut Vec<u8>)
    ensures
        final(out)@ == old(out)@ + shown_text(symbols@),
{
    let mut i: usize = 0;
    while i < symbols.len()
        invariant
            i <= symbols@.len(),
            out@ == old(out)@ + shown_text(symbols@.subrange(0, i as int)),
        decreases symbols@.len() - i,
    {
        append_bytes(out, &symbols[i]);
        out.push(NEWLINE);
        i = i + 1;
        proof {
            let s = symbols@.subrange(0, i as int);
            assert(s.drop_last() == symbols@.subrange(0, i - 1));
            assert(s.last() == symbols@[i - 1]);
        }
    }
    proof {
        assert(symbols@.subrange(0, symbols@.len() as int) == symbols@);
    }
}

/// Writes each `(symbol, value)` pair of an extension's assignment as a `symbol=value` line.
pub fn write_theory_assignment(pairs: &Vec<(Vec<u8>, Vec<u8>)>, out: &mut Vec<u8>)
    ensures
        final(out)@ == old(out)@ + assignment_text(pairs@),
{
    let mut i: usize = 0;
    while i < pairs.len()
        invariant
            i <= pairs@.len(),
            out@ == old(out)@ + assignment_text(pairs@.subrange(0, i as int)),
        decreases pairs@.len() - i,
    {
        append_bytes(out, &pairs[i].0);
        out.push(EQUALS);
        append_bytes(out, &pairs[i].1);
        out.push(NEWLINE);
        i = i + 1;
        proof {
            let s = pairs@.subrange(0, i as int);
            assert(s.drop_last() == pairs@.subrange(0, i - 1));
            assert(s.last() == pairs@[i - 1]);
        }
    }
    proof {
        assert(pairs@.subrange(0, pairs@.len() as int) == pairs@);
    }
}

/// `r` is what a poll reports when the engine answers `poll`.
pub open spec fn reports(poll: Poll, r: ModelResult) -> bool {
    match poll {
        Poll::NotReady => r == ModelResult::Running,
        Poll::Model { symbols, assignment } => r matches ModelResult::Model(payload) && payload@
            == model_payload(symbols@, assignment@),
        Poll::Exhausted => r == ModelResult::Done,
    }
}

/// Turns the engine's answer to a poll into what the poll reports: `Running` while no result
/// is ready, the model's payload, or `Done` once the models are exhausted.
pub fn model_result(poll: &Poll) -> (r: ModelResult)
    ensures
        reports(*poll, r),
{
    match poll {
        Poll::NotReady => ModelResult::Running,
        Poll::Model { symbols, assignment } => {
            let mut buf: Vec<u8> = Vec::new();
            write_model(symbols, &mut buf);
            write_theory_assignment(assignment, &mut buf);
            proof {
                assert(buf@ == model_payload(symbols@, assignment@));
            }
            ModelResult::Model(buf)
        },
        Poll::Exhausted => ModelResult::Done,
    }
}

/// Two polls with no `resume` between them: a poll leaves the session's phase as it was, and
/// what it reports depends on the engine's answer alone, so the second poll reports what the
/// first did while the engine's answer stays the same.
pub proof fn lemma_poll_idempotent(s: Solver, engine_ok: bool, poll: Poll, r1: ModelResult, r2: ModelResult)
    requires
        reports(poll, r1),
        reports(poll, r2),
    ensures
        s.next(Operation::Model, engine_ok) == s,
        match (r1, r2) {
            (ModelResult::Model(a), ModelResult::Model(b)) => a@ == b@,
            (ModelResult::Running, ModelResult::Running) => true,
            (ModelResult::Done, ModelResult::Done) => true,
            _ => false,
        },
{
}

} // verus!
