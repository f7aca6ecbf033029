//! A local consumer for debugging: counts the chunks it is shown and stops
//! after a configured number.  The printing itself is left to the embedding
//! program; the counting decision is verified here.

use vstd::prelude::*;

verus! {

/// The characters of a chunk's bytes: each byte read as one character.
pub open spec fn chars_of(s: Seq<u8>) -> Seq<char> {
    s.map_values(|b: u8| b as char)
}

/// Relies on String::push: appends the given character to the string.
#[verifier::external_body]
fn push_char(s: &mut String, c: char)
    ensures
        final(s)@ == old(s)@.push(c),
{
    s.push(c)
}

/// Renders a chunk for display: one character per byte, in byte order.
pub fn vec_to_string(v: Vec<u8>) -> (r: String)
    ensures
        r@ == chars_of(v@),
        r@.len() == v@.len(),
{
    let mut r = String::new();
    let mut i: usize = 0;
    while i < v.len()
        invariant
            i <= v@.len(),
            r@ == chars_of(v@).take(i as int),
        decreases v@.len() - i,
    {
        let c = v[i] as char;
        push_char(&mut r, c);
        proof {
            assert(r@ =~= chars_of(v@).take(i + 1 as int));
        }
        i = i + 1;
    }
    proof {
        assert(chars_of(v@).take(v@.len() as int) =~= chars_of(v@));
    }
    r
}

/// Everything the display worker needs at construction: the receiving half
/// of a data channel and how many chunks to show before stopping.
pub struct DisplayInitState {
    pub input_rx: std::sync::mpsc::Receiver<Vec<u8>>,
    pub max_items: usize,
}

/// The display worker takes no commands; the handle only marks that the
/// worker was handed out.
pub struct DisplayController;

/// The display worker: a data channel to drain, a limit, and how many chunks
/// have been counted so far.
pub struct DisplayWorker {
    pub rx: std::sync::mpsc::Receiver<Vec<u8>>,
    pub limit: usize,
    pub count: usize,
}

impl DisplayWorker {
    /// Constructs the worker and its (command-less) controller.
    pub fn build(state: DisplayInitState) -> (r: (DisplayWorker, DisplayController))
        ensures
            r.0.limit == state.max_items,
            r.0.count == 0,
    {
        let worker = DisplayWorker { rx: state.input_rx, limit: state.max_items, count: 0 };
        (worker, DisplayController)
    }

    /// Counts one received chunk; the run loop stops once the count exceeds
    /// the limit, and the chunk that crossed the limit is not shown.
    pub fn note_chunk(&mut self) -> (stop: bool)
        requires
            old(self).count < usize::MAX,
        ensures
            final(self).count == old(self).count + 1,
            final(self).limit == old(self).limit,
            stop == (old(self).count + 1 > old(self).limit),
    {
        self.count = self.count + 1;
        self.count > self.limit
    }
}

} // verus!
