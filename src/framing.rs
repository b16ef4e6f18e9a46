//! The token-framing protocol between a caller and a backend.
//!
//! A backend prints a ready token once, then brackets each response between a
//! start token and a stop token. A [`Relay`] follows one backend through its
//! lifecycle: it watches for readiness, turns output into responses and
//! diagnostics, wraps requests in the bracket tokens, and notices shutdown.

use vstd::prelude::*;

pub mod laws;

use crate::text::{
    chars_of, contains, copy_range, find_from, index_of, lemma_index_of, lemma_overlap_from, overlap,
    overlap_len, string_of,
};

verus! {

/// The four protocol tokens, as characters.
pub struct TokensView {
    pub ready: Seq<char>,
    pub start: Seq<char>,
    pub stop: Seq<char>,
    pub exit: Seq<char>,
}

impl TokensView {
    /// Every token is non-empty.
    pub open spec fn wf(self) -> bool {
        self.ready.len() > 0 && self.start.len() > 0 && self.stop.len() > 0 && self.exit.len()
            > 0
    }
}

/// The four protocol tokens a backend agrees to.
pub struct Tokens {
    pub ready: Vec<char>,
    pub start: Vec<char>,
    pub stop: Vec<char>,
    pub exit: Vec<char>,
}

impl View for Tokens {
    type V = TokensView;

    open spec fn view(&self) -> TokensView {
        TokensView { ready: self.ready@, start: self.start@, stop: self.stop@, exit: self.exit@ }
    }
}

impl Tokens {
    /// A second copy of the tokens.
    pub fn duplicate(&self) -> (r: Tokens)
        ensures
            r@ == self@,
    {
        let r = Tokens {
            ready: self.ready.clone(),
            start: self.start.clone(),
            stop: self.stop.clone(),
            exit: self.exit.clone(),
        };
        proof {
            assert(r.ready@ =~= self.ready@);
            assert(r.start@ =~= self.start@);
            assert(r.stop@ =~= self.stop@);
            assert(r.exit@ =~= self.exit@);
        }
        r
    }

    /// Takes the tokens from their text.
    pub fn from_strs(ready: &str, start: &str, stop: &str, exit: &str) -> (r: Tokens)
        ensures
            r@ == (TokensView { ready: ready@, start: start@, stop: stop@, exit: exit@ }),
    {
        Tokens {
            ready: chars_of(ready),
            start: chars_of(start),
            stop: chars_of(stop),
            exit: chars_of(exit),
        }
    }
}

/// One item that the relay hands to the caller, as characters.
pub enum Piece {
    Response(Seq<char>),
    Diagnostic(Seq<char>),
}

/// One item that the relay hands to the caller: a response payload with its
/// tokens stripped, or text for the diagnostic source.
#[derive(Debug, PartialEq, Eq)]
pub enum Output {
    Response(String),
    Diagnostic(String),
}

impl View for Output {
    type V = Piece;

    open spec fn view(&self) -> Piece {
        match self {
            Output::Response(s) => Piece::Response(s@),
            Output::Diagnostic(s) => Piece::Diagnostic(s@),
        }
    }
}

/// The pieces that a list of outputs stands for.
pub open spec fn pieces_of(v: Seq<Output>) -> Seq<Piece> {
    v.map_values(|o: Output| o@)
}

/// The characters of an optional string.
pub open spec fn text_of(w: Option<String>) -> Option<Seq<char>> {
    match w {
        Some(s) => Some(s@),
        None => None,
    }
}

/// Why a relay failed.
#[derive(Clone, Copy, Debug, PartialEq, Eq, Structural)]
pub enum Failure {
    /// The backend ended before it printed the ready token.
    ExitedBeforeReady,
    /// The backend ended with a failing status while it was serving.
    ExitStatus,
    /// A stream broke.
    StreamError,
}

/// The lifecycle of a backend, as its relay sees it.
#[derive(Clone, Copy, Debug, PartialEq, Eq, Structural)]
pub enum Phase {
    AwaitingReady,
    Ready,
    Active,
    Closing,
    Terminated,
    Failed(Failure),
}

/// How the backend's output came to an end.
#[derive(Clone, Copy, Debug, PartialEq, Eq, Structural)]
pub enum Ending {
    /// The process or session ended, with a clean status or not.
    Exited { success: bool },
    /// A stream broke.
    StreamError,
}

/// Output is scanned for brackets in these phases.
pub open spec fn streaming(p: Phase) -> bool {
    p is Ready || p is Active || p is Closing
}

/// The endpoints are closed in these phases.
pub open spec fn finished(p: Phase) -> bool {
    p is Terminated || p is Failed
}

/// The relay's state.
pub struct RelayView {
    pub tokens: TokensView,
    pub phase: Phase,
    /// A start token was seen and its stop token not yet.
    pub inside: bool,
    /// Inside a bracket, the payload seen since its start token; outside,
    /// the end of the output so far that may begin a start token.
    pub pending: Seq<char>,
}

impl RelayView {
    pub open spec fn wf(self) -> bool {
        &&& self.tokens.wf()
        &&& !streaming(self.phase) ==> !self.inside && self.pending.len() == 0
    }

    /// Serving, between two responses, with nothing held back.
    pub open spec fn idle(self) -> bool {
        (self.phase is Ready || self.phase is Active) && !self.inside && self.pending.len() == 0
    }
}

/// A diagnostic piece for `s`, or nothing when `s` is empty.
pub open spec fn diag_of(s: Seq<char>) -> Seq<Piece> {
    if s.len() > 0 {
        seq![Piece::Diagnostic(s)]
    } else {
        seq![]
    }
}

/// Scans `input` for bracketed payloads. `inside` says whether a start token
/// is open; `pending` is what followed it, or outside a bracket the text held
/// back because it may begin a start token. Gives the pieces, and whether a
/// bracket is open afterwards with what is held back then.
pub open spec fn scan(
    inside: bool,
    pending: Seq<char>,
    input: Seq<char>,
    start: Seq<char>,
    stop: Seq<char>,
) -> (Seq<Piece>, bool, Seq<char>)
    decreases pending.len() + input.len(),
{
    let buf = pending + input;
    if start.len() == 0 || stop.len() == 0 {
        (seq![], inside, buf)
    } else if !inside {
        match index_of(buf, start) {
            Some(i) => {
                proof {
                    lemma_index_of(buf, start);
                }
                let rest = scan(true, seq![], buf.skip(i + start.len()), start, stop);
                (diag_of(buf.take(i)) + rest.0, rest.1, rest.2)
            },
            None => {
                let h = overlap(buf, start);
                (diag_of(buf.take(buf.len() - h)), false, buf.skip(buf.len() - h))
            },
        }
    } else {
        match index_of(buf, stop) {
            Some(j) => {
                proof {
                    lemma_index_of(buf, stop);
                }
                let rest = scan(false, seq![], buf.skip(j + stop.len()), start, stop);
                (seq![Piece::Response(buf.take(j))] + rest.0, rest.1, rest.2)
            },
            None => (seq![], true, buf),
        }
    }
}

/// What the relay does with a chunk of the backend's output.
pub open spec fn next_on_stdout(r: RelayView, chunk: Seq<char>) -> (RelayView, Seq<Piece>) {
    let t = r.tokens;
    if r.phase is AwaitingReady {
        match index_of(chunk, t.ready) {
            Some(i) => {
                let s = scan(false, seq![], chunk.skip(i + t.ready.len()), t.start, t.stop);
                (RelayView { phase: Phase::Ready, inside: s.1, pending: s.2, ..r }, s.0)
            },
            None => (r, diag_of(chunk)),
        }
    } else if streaming(r.phase) {
        let s = scan(r.inside, r.pending, chunk, t.start, t.stop);
        (RelayView { inside: s.1, pending: s.2, ..r }, s.0)
    } else {
        (r, seq![])
    }
}

/// What the relay does with a chunk of the backend's error stream.
pub open spec fn next_on_stderr(r: RelayView, chunk: Seq<char>) -> Seq<Piece> {
    if finished(r.phase) {
        seq![]
    } else {
        diag_of(chunk)
    }
}

/// What the relay does with a request: the text to write to the backend, if
/// the request is taken.
pub open spec fn next_on_request(r: RelayView, payload: Seq<char>) -> (RelayView, Option<Seq<char>>) {
    let t = r.tokens;
    if r.phase is Ready || r.phase is Active {
        if contains(payload, t.exit) {
            (RelayView { phase: Phase::Closing, ..r }, Some(payload))
        } else {
            (RelayView { phase: Phase::Active, ..r }, Some(t.start + payload + t.stop))
        }
    } else {
        (r, None)
    }
}

/// The phase after the backend's output ends.
pub open spec fn phase_after(p: Phase, e: Ending) -> Phase {
    if finished(p) {
        p
    } else {
        match e {
            Ending::StreamError => Phase::Failed(Failure::StreamError),
            Ending::Exited { success } => {
                if p is AwaitingReady {
                    Phase::Failed(Failure::ExitedBeforeReady)
                } else if p is Closing || success {
                    Phase::Terminated
                } else {
                    Phase::Failed(Failure::ExitStatus)
                }
            },
        }
    }
}

/// What the relay does when the backend's output ends: an unclosed bracket,
/// or text held back outside one, goes to the diagnostic source as it was
/// received.
pub open spec fn next_on_end(r: RelayView, e: Ending) -> (RelayView, Seq<Piece>) {
    let left = if r.inside {
        diag_of(r.tokens.start + r.pending)
    } else {
        diag_of(r.pending)
    };
    (RelayView { phase: phase_after(r.phase, e), inside: false, pending: seq![], ..r }, left)
}


/// Follows one backend through the framing protocol. It owns no stream: the
/// task that reads and writes the backend's streams hands it each event and
/// carries out what it returns.
pub struct Relay {
    tokens: Tokens,
    phase: Phase,
    inside: bool,
    pending: Vec<char>,
}

impl View for Relay {
    type V = RelayView;

    closed spec fn view(&self) -> RelayView {
        RelayView {
            tokens: self.tokens@,
            phase: self.phase,
            inside: self.inside,
            pending: self.pending@,
        }
    }
}

/// Appends `o` to `out`.
fn emit(out: &mut Vec<Output>, o: Output)
    ensures
        pieces_of(final(out)@) == pieces_of(old(out)@) + seq![o@],
{
    out.push(o);
    proof {
        assert(pieces_of(out@) =~= pieces_of(old(out)@) + seq![o@]);
    }
}

/// Appends a diagnostic for `s` to `out`, unless `s` is empty.
fn emit_diag(out: &mut Vec<Output>, s: &[char])
    ensures
        pieces_of(final(out)@) == pieces_of(old(out)@) + diag_of(s@),
{
    if s.len() > 0 {
        emit(out, Output::Diagnostic(string_of(s)));
    } else {
        assert(pieces_of(old(out)@) + diag_of(s@) =~= pieces_of(old(out)@));
    }
}

impl Relay {
    pub open spec fn wf(&self) -> bool {
        self@.wf()
    }

    /// A relay for a backend that was just started.
    pub fn new(tokens: Tokens) -> (r: Relay)
        requires
            tokens@.wf(),
        ensures
            r.wf(),
            r@ == (RelayView {
                tokens: tokens@,
                phase: Phase::AwaitingReady,
                inside: false,
                pending: seq![],
            }),
    {
        Relay { tokens, phase: Phase::AwaitingReady, inside: false, pending: Vec::new() }
    }

    /// The current phase.
    pub fn phase(&self) -> (p: Phase)
        ensures
            p == self@.phase,
    {
        self.phase
    }

    /// The backend has printed its ready token.
    pub fn is_ready(&self) -> (b: bool)
        ensures
            b == (self@.phase is Ready || self@.phase is Active),
    {
        match self.phase {
            Phase::Ready | Phase::Active => true,
            _ => false,
        }
    }

    /// The endpoints are closed: nothing more will come out.
    pub fn is_finished(&self) -> (b: bool)
        ensures
            b == finished(self@.phase),
    {
        match self.phase {
            Phase::Terminated | Phase::Failed(_) => true,
            _ => false,
        }
    }

    /// Takes a chunk of the backend's output: what it yields for the response
    /// and diagnostic sources, in order.
    pub fn on_stdout(&mut self, chunk: &str) -> (out: Vec<Output>)
        requires
            old(self).wf(),
        ensures
            final(self).wf(),
            (final(self)@, pieces_of(out@)) == next_on_stdout(old(self)@, chunk@),
    {
        let mut out: Vec<Output> = Vec::new();
        let cs = chars_of(chunk);
        match self.phase {
            Phase::AwaitingReady => {
                proof {
                    lemma_index_of(cs@, self@.tokens.ready);
                }
                match find_from(cs.as_slice(), self.tokens.ready.as_slice(), 0) {
                    Some(i) => {
                        let n = cs.len();
                        let tail = copy_range(cs.as_slice(), i + self.tokens.ready.len(), n);
                        self.phase = Phase::Ready;
                        self.scan_into(tail, &mut out);
                        assert(pieces_of(out@) =~= seq![] + pieces_of(out@));
                    },
                    None => {
                        emit_diag(&mut out, cs.as_slice());
                        assert(pieces_of(out@) =~= diag_of(chunk@));
                    },
                }
            },
            Phase::Ready | Phase::Active | Phase::Closing => {
                self.scan_into(cs, &mut out);
                assert(pieces_of(out@) =~= seq![] + pieces_of(out@));
            },
            Phase::Terminated | Phase::Failed(_) => {
                assert(pieces_of(out@) =~= seq![]);
            },
        }
        out
    }

    /// Takes a chunk of the backend's error stream: what it yields for the
    /// diagnostic source.
    pub fn on_stderr(&self, chunk: &str) -> (out: Vec<Output>)
        requires
            self.wf(),
        ensures
            pieces_of(out@) == next_on_stderr(self@, chunk@),
    {
        let mut out: Vec<Output> = Vec::new();
        if !self.is_finished() {
            let cs = chars_of(chunk);
            emit_diag(&mut out, cs.as_slice());
            assert(pieces_of(out@) =~= diag_of(chunk@));
        } else {
            assert(pieces_of(out@) =~= seq![]);
        }
        out
    }

    /// Takes a request from the caller: the text to write to the backend's
    /// input, or `None` where no request is taken now.
    pub fn on_request(&mut self, payload: &str) -> (w: Option<String>)
        requires
            old(self).wf(),
        ensures
            final(self).wf(),
            (final(self)@, text_of(w)) == next_on_request(old(self)@, payload@),
    {
        match self.phase {
            Phase::Ready | Phase::Active => {},
            _ => {
                return None;
            },
        }
        let cs = chars_of(payload);
        proof {
            lemma_index_of(cs@, self@.tokens.exit);
        }
        if find_from(cs.as_slice(), self.tokens.exit.as_slice(), 0).is_some() {
            self.phase = Phase::Closing;
            return Some(string_of(cs.as_slice()));
        }
        let mut w = copy_range(self.tokens.start.as_slice(), 0, self.tokens.start.len());
        let mut body = cs;
        w.append(&mut body);
        let mut tail = copy_range(self.tokens.stop.as_slice(), 0, self.tokens.stop.len());
        w.append(&mut tail);
        proof {
            assert(self@.tokens.start.subrange(0, self@.tokens.start.len() as int)
                =~= self@.tokens.start);
            assert(self@.tokens.stop.subrange(0, self@.tokens.stop.len() as int)
                =~= self@.tokens.stop);
        }
        self.phase = Phase::Active;
        Some(string_of(w.as_slice()))
    }

    /// The backend's output has ended: what is left for the diagnostic source.
    /// All endpoints close afterwards.
    pub fn on_end(&mut self, ending: Ending) -> (out: Vec<Output>)
        requires
            old(self).wf(),
        ensures
            final(self).wf(),
            (final(self)@, pieces_of(out@)) == next_on_end(old(self)@, ending),
    {
        let mut out: Vec<Output> = Vec::new();
        if self.inside {
            let mut left = copy_range(self.tokens.start.as_slice(), 0, self.tokens.start.len());
            left.append(&mut self.pending);
            proof {
                assert(old(self)@.tokens.start.subrange(0, old(self)@.tokens.start.len() as int)
                    =~= old(self)@.tokens.start);
            }
            emit_diag(&mut out, left.as_slice());
            assert(pieces_of(out@) =~= diag_of(old(self)@.tokens.start + old(self)@.pending));
        } else {
            emit_diag(&mut out, self.pending.as_slice());
            assert(pieces_of(out@) =~= diag_of(old(self)@.pending));
        }
        self.inside = false;
        self.pending = Vec::new();
        self.phase = match self.phase {
            Phase::Terminated => Phase::Terminated,
            Phase::Failed(f) => Phase::Failed(f),
            Phase::AwaitingReady => match ending {
                Ending::StreamError => Phase::Failed(Failure::StreamError),
                Ending::Exited { .. } => Phase::Failed(Failure::ExitedBeforeReady),
            },
            Phase::Closing => match ending {
                Ending::StreamError => Phase::Failed(Failure::StreamError),
                Ending::Exited { .. } => Phase::Terminated,
            },
            Phase::Ready | Phase::Active => match ending {
                Ending::StreamError => Phase::Failed(Failure::StreamError),
                Ending::Exited { success } => if success {
                    Phase::Terminated
                } else {
                    Phase::Failed(Failure::ExitStatus)
                },
            },
        };
        proof {
            assert(self@.pending =~= seq![]);
        }
        out
    }

    /// Scans `input` for brackets, appending what it yields to `out`.
    fn scan_into(&mut self, input: Vec<char>, out: &mut Vec<Output>)
        requires
            old(self).wf(),
            streaming(old(self)@.phase),
        ensures
            final(self).wf(),
            final(self)@.tokens == old(self)@.tokens,
            final(self)@.phase == old(self)@.phase,
            ({
                let s = scan(
                    old(self)@.inside,
                    old(self)@.pending,
                    input@,
                    old(self)@.tokens.start,
                    old(self)@.tokens.stop,
                );
                &&& pieces_of(final(out)@) == pieces_of(old(out)@) + s.0
                &&& final(self)@.inside == s.1
                &&& final(self)@.pending == s.2
            }),
    {
        let ghost start = self@.tokens.start;
        let ghost stop = self@.tokens.stop;
        let ghost target = scan(self@.inside, self@.pending, input@, start, stop);
        let ghost out0 = pieces_of(out@);
        let mut rest = input;
        loop
            invariant
                self.wf(),
                streaming(self@.phase),
                self@.tokens.start == start,
                self@.tokens.stop == stop,
                self@.tokens == old(self)@.tokens,
                self@.phase == old(self)@.phase,
                target == scan(old(self)@.inside, old(self)@.pending, input@, start, stop),
                out0 == pieces_of(old(out)@),
                out0 + target.0 == pieces_of(out@) + scan(
                    self@.inside,
                    self@.pending,
                    rest@,
                    start,
                    stop,
                ).0,
                target.1 == scan(self@.inside, self@.pending, rest@, start, stop).1,
                target.2 == scan(self@.inside, self@.pending, rest@, start, stop).2,
            decreases self@.pending.len() + rest@.len(),
        {
            if !self.inside {
                let ghost pending0 = self@.pending;
                let ghost rest0 = rest@;
                self.pending.append(&mut rest);
                let ghost buf = self@.pending;
                assert(buf == pending0 + rest0);
                proof {
                    lemma_index_of(buf, start);
                }
                match find_from(self.pending.as_slice(), self.tokens.start.as_slice(), 0) {
                    Some(i) => {
                        let head = copy_range(self.pending.as_slice(), 0, i);
                        let ghost before = pieces_of(out@);
                        emit_diag(out, head.as_slice());
                        let n = self.pending.len();
                        let tail = copy_range(self.pending.as_slice(), i + self.tokens.start.len(), n);
                        proof {
                            assert(head@ == buf.take(i as int));
                            assert(tail@ == buf.skip(i + start.len()));
                            let r = scan(true, seq![], tail@, start, stop);
                            assert(seq![] + tail@ =~= tail@);
                            assert(pieces_of(out@) + r.0 =~= before + (diag_of(head@) + r.0));
                        }
                        rest = tail;
                        self.inside = true;
                        self.pending = Vec::new();
                    },
                    None => {
                        let n = self.pending.len();
                        let h = overlap_len(self.pending.as_slice(), self.tokens.start.as_slice());
                        proof {
                            lemma_overlap_from(buf, start, start.len() - 1);
                        }
                        let head = copy_range(self.pending.as_slice(), 0, n - h);
                        let kept = copy_range(self.pending.as_slice(), n - h, n);
                        emit_diag(out, head.as_slice());
                        proof {
                            assert(head@ == buf.take(buf.len() - h));
                            assert(kept@ == buf.skip(buf.len() - h));
                        }
                        self.pending = kept;
                        return ;
                    },
                }
            } else {
                let ghost pending0 = self@.pending;
                let ghost rest0 = rest@;
                self.pending.append(&mut rest);
                let ghost buf = self@.pending;
                assert(buf == pending0 + rest0);
                proof {
                    lemma_index_of(buf, stop);
                }
                match find_from(self.pending.as_slice(), self.tokens.stop.as_slice(), 0) {
                    Some(j) => {
                        let payload = copy_range(self.pending.as_slice(), 0, j);
                        let ghost before = pieces_of(out@);
                        emit(out, Output::Response(string_of(payload.as_slice())));
                        let n = self.pending.len();
                        let tail = copy_range(
                            self.pending.as_slice(),
                            j + self.tokens.stop.len(),
                            n,
                        );
                        proof {
                            assert(payload@ == buf.take(j as int));
                            assert(tail@ == buf.skip(j + stop.len()));
                            let r = scan(false, seq![], tail@, start, stop);
                            assert(pieces_of(out@) + r.0 =~= before + (seq![
                                Piece::Response(payload@),
                            ] + r.0));
                        }
                        rest = tail;
                        self.inside = false;
                        self.pending = Vec::new();
                    },
                    None => {
                        assert(pieces_of(out@) =~= pieces_of(out@) + seq![]);
                        return ;
                    },
                }
            }
        }
    }
}

} // verus!
