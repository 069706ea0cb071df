//! Terminal traffic between a control client and a server's PTY: input
//! chunks of at most 1024 bytes, resizes, and output chunks.
use vstd::prelude::*;
use vstd::slice::{slice_subrange, slice_to_vec};

verus! {

/// The largest chunk that goes to or comes from a PTY at once.
pub const TERMINAL_BUFFER_SIZE: usize = 1024;

/// Up to `TERMINAL_BUFFER_SIZE` bytes of terminal traffic.
#[derive(Debug, Clone)]
pub struct Buffer {
    data: Vec<u8>,
}

/// What goes to a server's PTY.
#[derive(Debug, Clone)]
pub enum TerminalInput {
    Input { content: Buffer },
    Resize { cols: u16, rows: u16 },
}

/// What comes from a server's PTY.
#[derive(Debug, Clone)]
pub enum TerminalOutput {
    Output { content: Buffer },
}

impl View for Buffer {
    type V = Seq<u8>;

    closed spec fn view(&self) -> Seq<u8> {
        self.data@
    }
}

impl Buffer {
    /// A buffer never holds more than `TERMINAL_BUFFER_SIZE` bytes.
    pub closed spec fn wf(&self) -> bool {
        self.data@.len() <= TERMINAL_BUFFER_SIZE
    }

    /// A buffer holding `bytes`.
    pub fn from_slice(bytes: &[u8]) -> (r: Buffer)
        requires
            bytes@.len() <= TERMINAL_BUFFER_SIZE,
        ensures
            r@ == bytes@,
            r.wf(),
    {
        Buffer { data: slice_to_vec(bytes) }
    }

    /// The bytes held.
    pub fn as_slice(&self) -> (r: &[u8])
        ensures
            r@ == self@,
    {
        self.data.as_slice()
    }

    /// The number of bytes held.
    pub fn len(&self) -> (r: usize)
        ensures
            r == self@.len(),
    {
        self.data.len()
    }
}

impl Default for Buffer {
    fn default() -> (r: Buffer)
        ensures
            r@ == Seq::<u8>::empty(),
    {
        Buffer { data: Vec::new() }
    }
}

/// Cuts client input into PTY inputs: chunks of `TERMINAL_BUFFER_SIZE`
/// bytes, the last one shorter, none empty, that together are the input.
pub fn chunk_input(data: &[u8]) -> (r: Vec<TerminalInput>)
    ensures
        data@.len() <= r@.len() * 1024,
        r@.len() > 0 ==> (r@.len() - 1) * 1024 < data@.len(),
        forall|i: int| 0 <= i < r@.len() ==> (#[trigger] r@[i] matches TerminalInput::Input { content } && content@ == data@.subrange(i * 1024, if (i + 1) * 1024 < data@.len() { (i + 1) * 1024 } else { data@.len() as int })),
{
    let mut out: Vec<TerminalInput> = Vec::new();
    let mut start: usize = 0;
    while start < data.len()
        invariant
            start <= data@.len(),
            start < data@.len() ==> start == out@.len() * 1024,
            start == data@.len() ==> data@.len() <= out@.len() * 1024,
            out@.len() > 0 ==> (out@.len() - 1) * 1024 < data@.len(),
            forall|i: int| 0 <= i < out@.len() ==> (#[trigger] out@[i] matches TerminalInput::Input { content } && content@ == data@.subrange(i * 1024, if (i + 1) * 1024 < data@.len() { (i + 1) * 1024 } else { data@.len() as int })),
        decreases data@.len() - start,
    {
        let end = if data.len() - start > TERMINAL_BUFFER_SIZE {
            start + TERMINAL_BUFFER_SIZE
        } else {
            data.len()
        };
        let content = Buffer::from_slice(slice_subrange(data, start, end));
        out.push(TerminalInput::Input { content });
        start = end;
    }
    out
}

} // verus!
