use vstd::prelude::*;
use vstd::string::StrSliceExecFns;
use vstd::string::StringExecFns;

use crate::shutdown::new_shutdown_sender;

verus! {

/// One live terminal: the identifier minted at spawn time, the geometry the
/// pseudo-terminal was opened with (kept up to date by resize), the one-shot
/// cancellation sender for the session's pump, and the I/O endpoints.
///
/// The endpoint type `H` is chosen by the embedding: it carries whatever
/// handles the pseudo-terminal backend hands out (master side, child process,
/// input writer). The registry never looks inside it; it only stores the
/// value and hands it back to the caller that performs the I/O.
pub struct PtySession<H> {
    pub id: String,
    pub rows: u16,
    pub cols: u16,
    pub shutdown_tx: tokio::sync::mpsc::Sender<()>,
    pub handles: H,
}

impl<H> PtySession<H> {
    /// Assemble a session around freshly acquired endpoints, creating its
    /// cancellation channel.
    pub fn new(id: String, rows: u16, cols: u16, handles: H) -> (s: Self)
        ensures
            s.id == id,
            s.rows == rows,
            s.cols == cols,
            s.handles == handles,
    {
        PtySession { id, rows, cols, shutdown_tx: new_shutdown_sender(), handles }
    }
}

/// The lightweight descriptor a list snapshot reports for one session.
pub struct TerminalInfo {
    pub id: String,
    pub title: String,
    pub rows: u16,
    pub cols: u16,
}

/// The human-readable label synthesized for a session: a fixed prefix
/// followed by the identifier truncated to its first eight characters.
pub open spec fn spec_label(id: Seq<char>) -> Seq<char> {
    if id.len() >= 8 {
        "Terminal "@ + id.take(8)
    } else {
        "Terminal "@ + id
    }
}

/// Build the display label for a session identifier.
pub fn session_label(id: &str) -> (r: String)
    ensures
        r@ == spec_label(id@),
{
    let n = id.unicode_len();
    let shown = if n >= 8 {
        id.substring_char(0, 8)
    } else {
        id
    };
    let mut label = "Terminal ".to_owned();
    label.append(shown);
    label
}

} // verus!
