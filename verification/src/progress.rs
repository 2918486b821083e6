//! What is shown while documents are loaded and embedded: the messages of
//! an embedding job, the status line of each chunk of work, the board of
//! the most recent chunks, the spinner and the progress bar.

use vstd::prelude::*;
use crate::datasources::chars_eq;
use crate::search::append_str;
use crate::text::{chars_of, decimal, digit_char, push_char, push_decimal};

verus! {

// ---------------------------------------------------------------------
// Numbers
// ---------------------------------------------------------------------

/// Appends the decimal digits of a 128-bit number to `s`.
pub fn push_decimal_u128(s: &mut String, n: u128)
    ensures
        final(s)@ == old(s)@ + decimal(n as nat),
    decreases n,
{
    if n >= 10 {
        push_decimal_u128(s, n / 10);
    }
    let d: u128 = n % 10;
    let b: u8 = (d + 48) as u8;
    push_char(s, b as char);
    proof {
        if n >= 10 {
            assert(decimal(n as nat) == decimal((n / 10) as nat).push(digit_char((n % 10) as nat)));
        }
    }
    assert(s@ =~= old(s)@ + decimal(n as nat));
}

/// The decimal digits of `n`, with a leading zero when there is only one
/// (`{:02}`).
pub open spec fn two_digits(n: nat) -> Seq<char> {
    if n < 10 {
        seq!['0'] + decimal(n)
    } else {
        decimal(n)
    }
}

// ---------------------------------------------------------------------
// Messages of an embedding job
// ---------------------------------------------------------------------

/// What an embedding job reports while it runs.
#[derive(Clone, Debug)]
pub enum EmbeddingMessage {
    Preparing { count: usize },
    SendingRequest { attempt: usize, max_attempts: usize },
    RequestSuccessful { elapsed_ms: u128 },
    RateLimit { attempt: usize, max_attempts: usize },
    Error { message: String },
    MaxRetriesExceeded,
    ParsingResponse,
    ParsingComplete { elapsed_ms: u128 },
    ProcessingEmbeddings,
    Complete { total_elapsed_ms: u128 },
}

/// `a/b` in decimal.
pub open spec fn ratio(a: nat, b: nat) -> Seq<char> {
    decimal(a) + "/"@ + decimal(b)
}

impl EmbeddingMessage {
    /// The line that reports the message.
    pub open spec fn spec_text(&self) -> Seq<char> {
        match self {
            EmbeddingMessage::Preparing { count } => "Preparing embeddings for "@ + decimal(
                *count as nat,
            ) + " entries"@,
            EmbeddingMessage::SendingRequest { attempt, max_attempts } => "Sending request. (intento "@
                + ratio(*attempt as nat, *max_attempts as nat) + ")"@,
            EmbeddingMessage::RequestSuccessful { elapsed_ms } => "Request successful "@ + decimal(
                *elapsed_ms as nat,
            ) + " ms"@,
            EmbeddingMessage::RateLimit { attempt, max_attempts } => "⚠️ Rate limit hit, trying again ("@
                + ratio(*attempt as nat, *max_attempts as nat) + ")..."@,
            EmbeddingMessage::Error { message } => "❌ Error: "@ + message@,
            EmbeddingMessage::MaxRetriesExceeded => "❌ Max retries exceeded"@,
            EmbeddingMessage::ParsingResponse => "Parsing response..."@,
            EmbeddingMessage::ParsingComplete { elapsed_ms } => "Parsing response done in "@
                + decimal(*elapsed_ms as nat) + " ms"@,
            EmbeddingMessage::ProcessingEmbeddings => "Processing embeddings..."@,
            EmbeddingMessage::Complete { total_elapsed_ms } => "Embeddings done in ("@ + decimal(
                *total_elapsed_ms as nat,
            ) + ") ms"@,
        }
    }

    /// The line that reports the message.
    pub fn text(&self) -> (r: String)
        ensures
            r@ == self.spec_text(),
    {
        let mut r = String::new();
        match self {
            EmbeddingMessage::Preparing { count } => {
                append_str(&mut r, "Preparing embeddings for ");
                push_decimal(&mut r, *count as u64);
                append_str(&mut r, " entries");
            },
            EmbeddingMessage::SendingRequest { attempt, max_attempts } => {
                append_str(&mut r, "Sending request. (intento ");
                push_decimal(&mut r, *attempt as u64);
                append_str(&mut r, "/");
                push_decimal(&mut r, *max_attempts as u64);
                append_str(&mut r, ")");
            },
            EmbeddingMessage::RequestSuccessful { elapsed_ms } => {
                append_str(&mut r, "Request successful ");
                push_decimal_u128(&mut r, *elapsed_ms);
                append_str(&mut r, " ms");
            },
            EmbeddingMessage::RateLimit { attempt, max_attempts } => {
                append_str(&mut r, "⚠️ Rate limit hit, trying again (");
                push_decimal(&mut r, *attempt as u64);
                append_str(&mut r, "/");
                push_decimal(&mut r, *max_attempts as u64);
                append_str(&mut r, ")...");
            },
            EmbeddingMessage::Error { message } => {
                append_str(&mut r, "❌ Error: ");
                append_str(&mut r, message.as_str());
            },
            EmbeddingMessage::MaxRetriesExceeded => {
                append_str(&mut r, "❌ Max retries exceeded");
            },
            EmbeddingMessage::ParsingResponse => {
                append_str(&mut r, "Parsing response...");
            },
            EmbeddingMessage::ParsingComplete { elapsed_ms } => {
                append_str(&mut r, "Parsing response done in ");
                push_decimal_u128(&mut r, *elapsed_ms);
                append_str(&mut r, " ms");
            },
            EmbeddingMessage::ProcessingEmbeddings => {
                append_str(&mut r, "Processing embeddings...");
            },
            EmbeddingMessage::Complete { total_elapsed_ms } => {
                append_str(&mut r, "Embeddings done in (");
                push_decimal_u128(&mut r, *total_elapsed_ms);
                append_str(&mut r, ") ms");
            },
        }
        proof {
            assert(r@ =~= self.spec_text());
        }
        r
    }

    /// Whether the message ends the job.
    pub fn is_complete(&self) -> (b: bool)
        ensures
            b <==> self is Complete,
    {
        match self {
            EmbeddingMessage::Complete { .. } => true,
            _ => false,
        }
    }
}

// ---------------------------------------------------------------------
// Status of a chunk of work
// ---------------------------------------------------------------------

/// Where a chunk of embedding work stands.
#[derive(Debug, Clone)]
pub enum ChunkStatus {
    Preparing { count: usize },
    Sending { attempt: usize, max_attempts: usize },
    RateLimited { attempt: usize, max_attempts: usize },
    Parsing,
    Processing,
    Completed { elapsed_ms: u128 },
    Failed { reason: String },
}

/// The value of a [`ChunkStatus`].
pub enum ChunkStatusView {
    Preparing { count: nat },
    Sending { attempt: nat, max_attempts: nat },
    RateLimited { attempt: nat, max_attempts: nat },
    Parsing,
    Processing,
    Completed { elapsed_ms: nat },
    Failed { reason: Seq<char> },
}

impl View for ChunkStatus {
    type V = ChunkStatusView;

    open spec fn view(&self) -> ChunkStatusView {
        match self {
            ChunkStatus::Preparing { count } => ChunkStatusView::Preparing { count: *count as nat },
            ChunkStatus::Sending { attempt, max_attempts } => ChunkStatusView::Sending {
                attempt: *attempt as nat,
                max_attempts: *max_attempts as nat,
            },
            ChunkStatus::RateLimited { attempt, max_attempts } => ChunkStatusView::RateLimited {
                attempt: *attempt as nat,
                max_attempts: *max_attempts as nat,
            },
            ChunkStatus::Parsing => ChunkStatusView::Parsing,
            ChunkStatus::Processing => ChunkStatusView::Processing,
            ChunkStatus::Completed { elapsed_ms } => ChunkStatusView::Completed {
                elapsed_ms: *elapsed_ms as nat,
            },
            ChunkStatus::Failed { reason } => ChunkStatusView::Failed { reason: reason@ },
        }
    }
}

impl ChunkStatus {
    /// The status a message puts its chunk in: a successful request is
    /// being parsed, a finished parse or job is completed, and an error or
    /// exhausted retries fail it.
    pub open spec fn spec_from_message(m: EmbeddingMessage) -> ChunkStatusView {
        match m {
            EmbeddingMessage::Preparing { count } => ChunkStatusView::Preparing { count: count as nat },
            EmbeddingMessage::SendingRequest { attempt, max_attempts } => ChunkStatusView::Sending {
                attempt: attempt as nat,
                max_attempts: max_attempts as nat,
            },
            EmbeddingMessage::RateLimit { attempt, max_attempts } => ChunkStatusView::RateLimited {
                attempt: attempt as nat,
                max_attempts: max_attempts as nat,
            },
            EmbeddingMessage::ParsingResponse => ChunkStatusView::Parsing,
            EmbeddingMessage::ProcessingEmbeddings => ChunkStatusView::Processing,
            EmbeddingMessage::Complete { total_elapsed_ms } => ChunkStatusView::Completed {
                elapsed_ms: total_elapsed_ms as nat,
            },
            EmbeddingMessage::Error { message } => ChunkStatusView::Failed { reason: message@ },
            EmbeddingMessage::MaxRetriesExceeded => ChunkStatusView::Failed {
                reason: "max retries exceeded"@,
            },
            EmbeddingMessage::RequestSuccessful { .. } => ChunkStatusView::Parsing,
            EmbeddingMessage::ParsingComplete { elapsed_ms } => ChunkStatusView::Completed {
                elapsed_ms: elapsed_ms as nat,
            },
        }
    }

    /// The status a message puts its chunk in.
    pub fn from_message(m: EmbeddingMessage) -> (s: Self)
        ensures
            s@ == Self::spec_from_message(m),
    {
        match m {
            EmbeddingMessage::Preparing { count } => ChunkStatus::Preparing { count },
            EmbeddingMessage::SendingRequest { attempt, max_attempts } => ChunkStatus::Sending {
                attempt,
                max_attempts,
            },
            EmbeddingMessage::RateLimit { attempt, max_attempts } => ChunkStatus::RateLimited {
                attempt,
                max_attempts,
            },
            EmbeddingMessage::ParsingResponse => ChunkStatus::Parsing,
            EmbeddingMessage::ProcessingEmbeddings => ChunkStatus::Processing,
            EmbeddingMessage::Complete { total_elapsed_ms } => ChunkStatus::Completed {
                elapsed_ms: total_elapsed_ms,
            },
            EmbeddingMessage::Error { message } => ChunkStatus::Failed { reason: message },
            EmbeddingMessage::MaxRetriesExceeded => ChunkStatus::Failed {
                reason: String::from_str("max retries exceeded"),
            },
            EmbeddingMessage::RequestSuccessful { .. } => ChunkStatus::Parsing,
            EmbeddingMessage::ParsingComplete { elapsed_ms } => ChunkStatus::Completed { elapsed_ms },
        }
    }

    /// The line that shows the status.
    pub open spec fn spec_text(s: ChunkStatusView) -> Seq<char> {
        match s {
            ChunkStatusView::Preparing { count } => "Preparing "@ + decimal(count) + " embeddings"@,
            ChunkStatusView::Sending { attempt, max_attempts } => "Sending request ("@ + ratio(
                attempt,
                max_attempts,
            ) + ")"@,
            ChunkStatusView::RateLimited { attempt, max_attempts } => "Rate limited ("@ + ratio(
                attempt,
                max_attempts,
            ) + ")"@,
            ChunkStatusView::Parsing => "Parsing response"@,
            ChunkStatusView::Processing => "Processing embeddings"@,
            ChunkStatusView::Completed { elapsed_ms } => "Completed in "@ + decimal(elapsed_ms)
                + " ms"@,
            ChunkStatusView::Failed { reason } => "Failed: "@ + reason,
        }
    }

    /// The line that shows the status.
    pub fn text(&self) -> (r: String)
        ensures
            r@ == Self::spec_text(self@),
    {
        let mut r = String::new();
        match self {
            ChunkStatus::Preparing { count } => {
                append_str(&mut r, "Preparing ");
                push_decimal(&mut r, *count as u64);
                append_str(&mut r, " embeddings");
            },
            ChunkStatus::Sending { attempt, max_attempts } => {
                append_str(&mut r, "Sending request (");
                push_decimal(&mut r, *attempt as u64);
                append_str(&mut r, "/");
                push_decimal(&mut r, *max_attempts as u64);
                append_str(&mut r, ")");
            },
            ChunkStatus::RateLimited { attempt, max_attempts } => {
                append_str(&mut r, "Rate limited (");
                push_decimal(&mut r, *attempt as u64);
                append_str(&mut r, "/");
                push_decimal(&mut r, *max_attempts as u64);
                append_str(&mut r, ")");
            },
            ChunkStatus::Parsing => {
                append_str(&mut r, "Parsing response");
            },
            ChunkStatus::Processing => {
                append_str(&mut r, "Processing embeddings");
            },
            ChunkStatus::Completed { elapsed_ms } => {
                append_str(&mut r, "Completed in ");
                push_decimal_u128(&mut r, *elapsed_ms);
                append_str(&mut r, " ms");
            },
            ChunkStatus::Failed { reason } => {
                append_str(&mut r, "Failed: ");
                append_str(&mut r, reason.as_str());
            },
        }
        proof {
            assert(r@ =~= Self::spec_text(self@));
        }
        r
    }

    /// Whether two statuses are the same.
    pub fn same_as(&self, other: &ChunkStatus) -> (b: bool)
        ensures
            b <==> self@ == other@,
    {
        match (self, other) {
            (ChunkStatus::Preparing { count: a }, ChunkStatus::Preparing { count: b }) => *a == *b,
            (
                ChunkStatus::Sending { attempt: a, max_attempts: m },
                ChunkStatus::Sending { attempt: b, max_attempts: n },
            ) => *a == *b && *m == *n,
            (
                ChunkStatus::RateLimited { attempt: a, max_attempts: m },
                ChunkStatus::RateLimited { attempt: b, max_attempts: n },
            ) => *a == *b && *m == *n,
            (ChunkStatus::Parsing, ChunkStatus::Parsing) => true,
            (ChunkStatus::Processing, ChunkStatus::Processing) => true,
            (ChunkStatus::Completed { elapsed_ms: a }, ChunkStatus::Completed { elapsed_ms: b }) => *a
                == *b,
            (ChunkStatus::Failed { reason: a }, ChunkStatus::Failed { reason: b }) => {
                chars_eq(&chars_of(a.as_str()), &chars_of(b.as_str()))
            },
            _ => false,
        }
    }
}

// ---------------------------------------------------------------------
// The board of recent chunks
// ---------------------------------------------------------------------

/// The chunks shown while embedding, most recent last, each with its
/// status: at most `max_lines` of them, each chunk once.
pub struct ChunkBoard {
    pub max_lines: usize,
    pub entries: Vec<(usize, ChunkStatus)>,
}

/// The entries of a board, as values.
pub open spec fn entry_views(es: Seq<(usize, ChunkStatus)>) -> Seq<(usize, ChunkStatusView)> {
    es.map_values(|e: (usize, ChunkStatus)| (e.0, e.1@))
}

/// Each chunk appears once in `es`.
pub open spec fn distinct_jobs(es: Seq<(usize, ChunkStatusView)>) -> bool {
    forall|i: int, j: int| 0 <= i < j < es.len() ==> #[trigger] es[i].0 != #[trigger] es[j].0
}

/// The board after a chunk reports `status`: a chunk already shown takes
/// the new status in place; a new chunk is added last, and the oldest are
/// dropped while more than `max_lines` are shown.
pub open spec fn board_step(
    es: Seq<(usize, ChunkStatusView)>,
    max_lines: nat,
    job: usize,
    status: ChunkStatusView,
) -> Seq<(usize, ChunkStatusView)> {
    if exists|i: int| 0 <= i < es.len() && #[trigger] es[i].0 == job {
        let i = choose|i: int| 0 <= i < es.len() && #[trigger] es[i].0 == job;
        es.update(i, (job, status))
    } else {
        let e = es.push((job, status));
        if e.len() > max_lines {
            e.skip(e.len() - max_lines)
        } else {
            e
        }
    }
}

/// Whether the board must be drawn again after the report: unless the
/// chunk is shown with that very status.
pub open spec fn board_changes(es: Seq<(usize, ChunkStatusView)>, job: usize, status: ChunkStatusView) -> bool {
    !(exists|i: int| 0 <= i < es.len() && #[trigger] es[i].0 == job && es[i].1 == status)
}

impl ChunkBoard {
    /// The entries, as values.
    pub open spec fn view_entries(&self) -> Seq<(usize, ChunkStatusView)> {
        entry_views(self.entries@)
    }

    /// At most `max_lines` chunks are shown, each once.
    pub open spec fn wf(&self) -> bool {
        &&& self.entries@.len() <= self.max_lines
        &&& distinct_jobs(self.view_entries())
    }

    /// An empty board of `max_lines` lines.
    pub fn new(max_lines: usize) -> (b: Self)
        ensures
            b.wf(),
            b.max_lines == max_lines,
            b.entries@.len() == 0,
    {
        ChunkBoard { max_lines, entries: Vec::new() }
    }

    /// Records that chunk `job` reports `status`, and tells whether the
    /// board must be drawn again.
    pub fn report(&mut self, job: usize, status: ChunkStatus) -> (redraw: bool)
        requires
            old(self).wf(),
        ensures
            final(self).wf(),
            final(self).max_lines == old(self).max_lines,
            redraw == board_changes(old(self).view_entries(), job, status@),
            redraw ==> final(self).view_entries() == board_step(
                old(self).view_entries(),
                old(self).max_lines as nat,
                job,
                status@,
            ),
            !redraw ==> final(self).view_entries() == old(self).view_entries(),
    {
        let ghost es = self.view_entries();
        let mut i: usize = 0;
        while i < self.entries.len()
            invariant
                i <= self.entries@.len(),
                es == self.view_entries(),
                es == old(self).view_entries(),
                self.max_lines == old(self).max_lines,
                self.entries@ == old(self).entries@,
                self.wf(),
                forall|k: int| 0 <= k < i ==> #[trigger] es[k].0 != job,
            decreases self.entries@.len() - i,
        {
            if self.entries[i].0 == job {
                proof {
                    assert(es[i as int].0 == job);
                    let c = choose|k: int| 0 <= k < es.len() && #[trigger] es[k].0 == job;
                    if c != i {
                        if c < i {
                            assert(es[c].0 != es[i as int].0);
                        } else {
                            assert(es[i as int].0 != es[c].0);
                        }
                    }
                }
                if self.entries[i].1.same_as(&status) {
                    proof {
                        assert(es[i as int].1 == status@);
                    }
                    return false;
                }
                proof {
                    if exists|k: int| 0 <= k < es.len() && #[trigger] es[k].0 == job && es[k].1 == status@ {
                        let k = choose|k: int| 0 <= k < es.len() && #[trigger] es[k].0 == job && es[k].1
                            == status@;
                        if k != i {
                            if k < i {
                                assert(es[k].0 != es[i as int].0);
                            } else {
                                assert(es[i as int].0 != es[k].0);
                            }
                        }
                    }
                }
                let ghost old_entries = self.entries@;
                self.entries.set(i, (job, status));
                proof {
                    assert(self.view_entries() =~= es.update(i as int, (job, status@)));
                    assert forall|a: int, b: int|
                        0 <= a < b < self.view_entries().len() implies #[trigger] self.view_entries()[a].0
                        != #[trigger] self.view_entries()[b].0 by {
                        assert(self.view_entries()[a].0 == es[a].0);
                        assert(self.view_entries()[b].0 == es[b].0);
                    }
                }
                return true;
            }
            i = i + 1;
        }
        proof {
            assert(!(exists|k: int| 0 <= k < es.len() && #[trigger] es[k].0 == job));
        }
        let ghost pushed = es.push((job, status@));
        self.entries.push((job, status));
        assert(self.view_entries() =~= pushed);
        while self.entries.len() > self.max_lines
            invariant
                self.max_lines == old(self).max_lines,
                self.entries@.len() <= self.max_lines + 1,
                self.view_entries().len() == self.entries@.len(),
                self.entries@.len() != pushed.len() ==> pushed.len() == self.max_lines + 1
                    && self.entries@.len() == self.max_lines,
                pushed.len() <= self.max_lines + 1,
                pushed.len() == es.len() + 1,
                es.len() <= self.max_lines,
                self.view_entries() == if self.entries@.len() == pushed.len() {
                    pushed
                } else {
                    pushed.skip(pushed.len() - self.max_lines)
                },
            decreases self.entries@.len(),
        {
            let ghost before = self.entries@;
            assert(entry_views(before) == pushed);
            self.entries.remove(0);
            assert(self.entries@ =~= before.subrange(1, before.len() as int));
            assert(self.view_entries() =~= pushed.skip(pushed.len() - self.max_lines));
        }
        proof {
            let v = self.view_entries();
            assert forall|a: int, b: int| 0 <= a < b < v.len() implies #[trigger] v[a].0
                != #[trigger] v[b].0 by {
                let off = pushed.len() - v.len();
                if v.len() == pushed.len() {
                    assert(v[a] == pushed[a + off]);
                    assert(v[b] == pushed[b + off]);
                } else {
                    assert(v =~= pushed.skip(pushed.len() - self.max_lines));
                    assert(v[a] == pushed[a + off]);
                    assert(v[b] == pushed[b + off]);
                }
                if b + off < es.len() {
                    assert(es[a + off].0 != es[b + off].0);
                } else {
                    assert(es[a + off].0 != job);
                }
            }
        }
        true
    }
}

/// The line of chunk `job`: its number with at least two digits, then its
/// status.
pub open spec fn board_line(job: usize, status: ChunkStatusView) -> Seq<char> {
    "  ["@ + two_digits(job as nat) + "] "@ + ChunkStatus::spec_text(status)
}

/// The lines drawn for a board: one per chunk shown, then empty lines up
/// to `max_lines`.
pub open spec fn board_lines(es: Seq<(usize, ChunkStatusView)>, max_lines: nat) -> Seq<Seq<char>> {
    es.map_values(|e: (usize, ChunkStatusView)| board_line(e.0, e.1)) + Seq::new(
        (max_lines - es.len()) as nat,
        |i: int| Seq::<char>::empty(),
    )
}

impl ChunkBoard {
    /// The lines that draw the board.
    pub fn lines(&self) -> (r: Vec<String>)
        requires
            self.wf(),
        ensures
            r@.map_values(|s: String| s@) == board_lines(self.view_entries(), self.max_lines as nat),
    {
        let mut r: Vec<String> = Vec::new();
        let mut i: usize = 0;
        let ghost lines = board_lines(self.view_entries(), self.max_lines as nat);
        while i < self.entries.len()
            invariant
                i <= self.entries@.len() <= self.max_lines,
                lines == board_lines(self.view_entries(), self.max_lines as nat),
                r@.map_values(|s: String| s@) =~= lines.take(i as int),
            decreases self.entries@.len() - i,
        {
            let (job, status) = (&self.entries[i].0, &self.entries[i].1);
            let mut line = String::new();
            append_str(&mut line, "  [");
            if *job < 10 {
                push_char(&mut line, '0');
            }
            push_decimal(&mut line, *job as u64);
            append_str(&mut line, "] ");
            append_str(&mut line, status.text().as_str());
            proof {
                assert(line@ =~= board_line(*job, status@));
                assert(lines[i as int] == board_line(*job, status@));
            }
            let ghost old_r = r@;
            r.push(line);
            assert(r@.map_values(|s: String| s@) =~= old_r.map_values(|s: String| s@).push(
                lines[i as int],
            ));
            i = i + 1;
        }
        while i < self.max_lines
            invariant
                self.entries@.len() <= i <= self.max_lines,
                lines == board_lines(self.view_entries(), self.max_lines as nat),
                r@.map_values(|s: String| s@) =~= lines.take(i as int),
            decreases self.max_lines - i,
        {
            let ghost old_r = r@;
            r.push(String::new());
            assert(lines[i as int] == Seq::<char>::empty());
            assert(r@.map_values(|s: String| s@) =~= old_r.map_values(|s: String| s@).push(
                lines[i as int],
            ));
            i = i + 1;
        }
        assert(lines.take(self.max_lines as int) =~= lines);
        r
    }
}

// ---------------------------------------------------------------------
// Spinner and progress bar
// ---------------------------------------------------------------------

/// What the spinner thread is told.
#[derive(Debug, Clone, Copy, PartialEq, Eq, Structural)]
pub enum RenderEvent {
    SpinnerTick,
    Done,
}

/// The frames of the spinner, in order.
pub open spec fn spinner_frames() -> Seq<char> {
    seq!['⠋', '⠙', '⠹', '⠸', '⠼', '⠴', '⠦', '⠧', '⠇', '⠏']
}

/// What the spinner does on an event.
#[derive(Debug, Clone, Copy, PartialEq, Eq, Structural)]
pub enum SpinnerAction {
    /// Draw `frame`, and go on from frame number `next`.
    Draw { frame: char, next: usize },
    /// Clear the line and stop.
    Stop,
}

/// What the spinner at frame number `index` does on `event`: a tick draws
/// the frame and moves to the next one, wrapping around; `Done` stops it.
pub fn spinner_step(index: usize, event: RenderEvent) -> (a: SpinnerAction)
    requires
        index < 10,
    ensures
        a == match event {
            RenderEvent::SpinnerTick => SpinnerAction::Draw {
                frame: spinner_frames()[index as int],
                next: ((index + 1) % 10) as usize,
            },
            RenderEvent::Done => SpinnerAction::Stop,
        },
{
    match event {
        RenderEvent::SpinnerTick => {
            let frames: [char; 10] = ['⠋', '⠙', '⠹', '⠸', '⠼', '⠴', '⠦', '⠧', '⠇', '⠏'];
            let frame = frames[index];
            assert(frames@ =~= spinner_frames());
            SpinnerAction::Draw { frame, next: (index + 1) % 10 }
        },
        RenderEvent::Done => SpinnerAction::Stop,
    }
}

/// The number of filled cells of a bar of `width` cells after `done` of
/// `total` jobs (none when there are no jobs).
pub open spec fn filled_cells(done: nat, total: nat, width: nat) -> nat {
    if total == 0 {
        0
    } else {
        width * done / total
    }
}

/// The progress line: `#` for each filled cell, `.` for each empty one,
/// then `(done/total)`.
pub open spec fn progress_text(done: nat, total: nat, width: nat) -> Seq<char> {
    let f = filled_cells(done, total, width);
    Seq::new(f, |i: int| '#') + Seq::new(
        if f <= width {
            (width - f) as nat
        } else {
            0
        },
        |i: int| '.',
    ) + " ("@ + ratio(done, total) + ")"@
}

/// The progress line after `done` of `total` jobs, on a bar of `width`
/// cells.
pub fn progress_line(done: usize, total: usize, width: usize) -> (r: String)
    requires
        width * done <= usize::MAX,
    ensures
        r@ == progress_text(done as nat, total as nat, width as nat),
{
    let filled: usize = if total == 0 {
        0
    } else {
        width * done / total
    };
    let mut r = String::new();
    let mut k: usize = 0;
    while k < filled
        invariant
            k <= filled,
            r@ =~= Seq::new(k as nat, |i: int| '#'),
        decreases filled - k,
    {
        push_char(&mut r, '#');
        k = k + 1;
    }
    let mut j: usize = filled;
    let ghost hashes = r@;
    while j < width
        invariant
            filled <= j <= width || (filled > width && j == filled),
            hashes =~= Seq::new(filled as nat, |i: int| '#'),
            r@ =~= hashes + Seq::new((j - filled) as nat, |i: int| '.'),
        decreases width - j,
    {
        push_char(&mut r, '.');
        j = j + 1;
    }
    append_str(&mut r, " (");
    push_decimal(&mut r, done as u64);
    append_str(&mut r, "/");
    push_decimal(&mut r, total as u64);
    append_str(&mut r, ")");
    proof {
        assert(filled == filled_cells(done as nat, total as nat, width as nat));
        if filled <= width {
            assert(j == width);
        }
        assert(r@ =~= progress_text(done as nat, total as nat, width as nat));
    }
    r
}

} // verus!
