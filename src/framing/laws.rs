//! What holds of the framing protocol over whole runs: no output is lost,
//! an echoed request comes back as exactly its payload, the same request
//! gives the same response, and shutdown closes every source.

use vstd::prelude::*;

use super::{
    diag_of, finished, next_on_end, next_on_request, next_on_stderr, next_on_stdout, scan,
    streaming, Ending, Piece, RelayView,
};
use crate::text::{
    contains, index_of, lemma_index_of, lemma_index_of_first, lemma_overlap_from, lemma_prefix_free,
    occurs_at, overlap,
};

verus! {

/// The text that a piece came from: a response with its bracket tokens, or
/// the diagnostic text itself.
pub open spec fn piece_text(p: Piece, start: Seq<char>, stop: Seq<char>) -> Seq<char> {
    match p {
        Piece::Response(r) => start + r + stop,
        Piece::Diagnostic(d) => d,
    }
}

/// The text that a list of pieces came from.
pub open spec fn render(ps: Seq<Piece>, start: Seq<char>, stop: Seq<char>) -> Seq<char>
    decreases ps.len(),
{
    if ps.len() == 0 {
        seq![]
    } else {
        piece_text(ps[0], start, stop) + render(ps.drop_first(), start, stop)
    }
}

/// The text held back: an open bracket with its start token, or outside one
/// what may begin a start token.
pub open spec fn open_part(inside: bool, pending: Seq<char>, start: Seq<char>) -> Seq<char> {
    if inside {
        start + pending
    } else {
        pending
    }
}

/// A response holds no stop token, and a diagnostic from a scan no start token.
pub open spec fn clean(p: Piece, start: Seq<char>, stop: Seq<char>) -> bool {
    match p {
        Piece::Response(r) => !contains(r, stop),
        Piece::Diagnostic(d) => !contains(d, start),
    }
}

/// A bracket that opens right before `q` closes right after it.
pub open spec fn closes_after(q: Seq<char>, stop: Seq<char>) -> bool {
    index_of(q + stop, stop) == Some(q.len() as int)
}

proof fn lemma_render_one(p: Piece, start: Seq<char>, stop: Seq<char>)
    ensures
        render(seq![p], start, stop) == piece_text(p, start, stop),
{
    let x = seq![p];
    assert(x.drop_first() =~= Seq::<Piece>::empty());
    assert(render(x.drop_first(), start, stop) == Seq::<char>::empty());
    assert(piece_text(p, start, stop) + Seq::<char>::empty() =~= piece_text(p, start, stop));
}

proof fn lemma_render_prepend(x: Seq<Piece>, ps: Seq<Piece>, start: Seq<char>, stop: Seq<char>)
    requires
        x.len() <= 1,
    ensures
        render(x + ps, start, stop) == render(x, start, stop) + render(ps, start, stop),
{
    if x.len() == 1 {
        assert((x + ps).drop_first() =~= ps);
        assert(x =~= seq![x[0]]);
        lemma_render_one(x[0], start, stop);
    } else {
        assert(x + ps =~= ps);
        assert(render(x, start, stop) =~= seq![]);
    }
}

proof fn lemma_diag_of(s: Seq<char>, start: Seq<char>, stop: Seq<char>)
    ensures
        render(diag_of(s), start, stop) == s,
        diag_of(s).len() <= 1,
{
    if s.len() > 0 {
        lemma_render_one(Piece::Diagnostic(s), start, stop);
    }
}

/// What scanning keeps: the pieces, with their tokens put back, followed by
/// what stays held back, are the held-back text followed by the input.
/// Responses hold no stop token and diagnostics no start token.
pub open spec fn scan_keeps(
    inside: bool,
    pending: Seq<char>,
    input: Seq<char>,
    start: Seq<char>,
    stop: Seq<char>,
) -> bool {
    let s = scan(inside, pending, input, start, stop);
    &&& render(s.0, start, stop) + open_part(s.1, s.2, start) == open_part(inside, pending, start)
        + input
    &&& forall|k: int| 0 <= k < s.0.len() ==> clean(#[trigger] s.0[k], start, stop)
}

proof fn lemma_scan_opens(
    pending: Seq<char>,
    input: Seq<char>,
    start: Seq<char>,
    stop: Seq<char>,
    i: int,
)
    requires
        start.len() > 0,
        stop.len() > 0,
        index_of(pending + input, start) == Some(i),
        scan_keeps(true, seq![], (pending + input).skip(i + start.len()), start, stop),
    ensures
        scan_keeps(false, pending, input, start, stop),
{
    let buf = pending + input;
    lemma_index_of(buf, start);
    let s = scan(false, pending, input, start, stop);
    let tail = buf.skip(i + start.len());
    let r = scan(true, seq![], tail, start, stop);
    let head = diag_of(buf.take(i));
    lemma_diag_of(buf.take(i), start, stop);
    lemma_render_prepend(head, r.0, start, stop);
    lemma_prefix_free(buf, start, i);
    assert(buf =~= buf.take(i) + start + tail);
    assert(open_part(true, seq![], start) + tail =~= start + tail);
    assert(seq![] + tail =~= tail);
    assert(render(s.0, start, stop) + open_part(s.1, s.2, start) =~= buf.take(i) + (render(
        r.0,
        start,
        stop,
    ) + open_part(r.1, r.2, start)));
    assert(buf.take(i) + (start + tail) =~= buf);
    assert forall|k: int| 0 <= k < s.0.len() implies clean(#[trigger] s.0[k], start, stop) by {
        if k < head.len() {
            assert(s.0[k] == head[k]);
        } else {
            assert(s.0[k] == r.0[k - head.len()]);
        }
    }
}

proof fn lemma_scan_closes(buf: Seq<char>, start: Seq<char>, stop: Seq<char>, j: int)
    requires
        start.len() > 0,
        stop.len() > 0,
        index_of(buf, stop) == Some(j),
        scan_keeps(false, seq![], buf.skip(j + stop.len()), start, stop),
    ensures
        forall|pending: Seq<char>, input: Seq<char>|
            pending + input == buf ==> scan_keeps(true, pending, input, start, stop),
{
    lemma_index_of(buf, stop);
    let tail = buf.skip(j + stop.len());
    let r = scan(false, seq![], tail, start, stop);
    let head = seq![Piece::Response(buf.take(j))];
    lemma_render_prepend(head, r.0, start, stop);
    lemma_render_one(Piece::Response(buf.take(j)), start, stop);
    lemma_prefix_free(buf, stop, j);
    assert(buf =~= buf.take(j) + stop + tail);
    assert forall|pending: Seq<char>, input: Seq<char>|
        pending + input == buf implies scan_keeps(true, pending, input, start, stop) by {
        let s = scan(true, pending, input, start, stop);
        assert(s.0 == head + r.0);
        assert(render(s.0, start, stop) + open_part(s.1, s.2, start) =~= start + buf);
        assert(open_part(true, pending, start) + input =~= start + buf);
        assert forall|k: int| 0 <= k < s.0.len() implies clean(#[trigger] s.0[k], start, stop) by {
            if k >= 1 {
                assert(s.0[k] == r.0[k - 1]);
            }
        }
    }
}

/// Scanning keeps every character: the pieces, with their tokens put back,
/// followed by what stays held back, are the held-back text followed by the
/// input. Responses hold no stop token and diagnostics no start token.
pub proof fn lemma_scan(
    inside: bool,
    pending: Seq<char>,
    input: Seq<char>,
    start: Seq<char>,
    stop: Seq<char>,
)
    requires
        start.len() > 0,
        stop.len() > 0,
    ensures
        scan_keeps(inside, pending, input, start, stop),
    decreases pending.len() + input.len(),
{
    let s = scan(inside, pending, input, start, stop);
    let buf = pending + input;
    if !inside {
        lemma_index_of(buf, start);
        match index_of(buf, start) {
            Some(i) => {
                lemma_scan(true, seq![], buf.skip(i + start.len()), start, stop);
                lemma_scan_opens(pending, input, start, stop, i);
            },
            None => {
                let h = overlap(buf, start);
                lemma_overlap_from(buf, start, start.len() - 1);
                let head = buf.take(buf.len() - h);
                lemma_diag_of(head, start, stop);
                lemma_prefix_free(buf, start, buf.len() - h);
                assert(head + buf.skip(buf.len() - h) =~= buf);
                if head.len() > 0 {
                    assert(s.0[0] == Piece::Diagnostic(head));
                }
            },
        }
    } else {
        lemma_index_of(buf, stop);
        match index_of(buf, stop) {
            Some(j) => {
                lemma_scan(false, seq![], buf.skip(j + stop.len()), start, stop);
                lemma_scan_closes(buf, start, stop, j);
            },
            None => {
                assert(render(s.0, start, stop) =~= seq![]);
                assert(seq![] + (start + buf) =~= start + pending + input);
            },
        }
    }
}

/// Output while serving: responses go to the response source and everything
/// outside a bracket to the diagnostic source, and no character is lost. The
/// pieces, with their tokens put back, followed by what stays held back, are
/// what was held back followed by the chunk. No response holds a stop token,
/// no diagnostic a start token, and a chunk without a start token, outside a
/// bracket with nothing held back, goes to the diagnostic source but for an
/// end that may begin a start token.
pub proof fn lemma_output_kept(r: RelayView, chunk: Seq<char>)
    requires
        r.wf(),
        streaming(r.phase),
    ensures
        ({
            let (r2, ps) = next_on_stdout(r, chunk);
            let (start, stop) = (r.tokens.start, r.tokens.stop);
            &&& r2.wf()
            &&& r2.phase == r.phase
            &&& render(ps, start, stop) + open_part(r2.inside, r2.pending, start) == open_part(
                r.inside,
                r.pending,
                start,
            ) + chunk
            &&& forall|k: int| 0 <= k < ps.len() ==> clean(#[trigger] ps[k], start, stop)
            &&& (!r.inside && r.pending.len() == 0 && !contains(chunk, start)) ==> ps
                == diag_of(chunk.take(chunk.len() - overlap(chunk, start)))
        }),
{
    lemma_scan(r.inside, r.pending, chunk, r.tokens.start, r.tokens.stop);
    if r.pending.len() == 0 {
        assert(r.pending + chunk =~= chunk);
    }
    lemma_index_of(chunk, r.tokens.start);
}

/// A request is written between the bracket tokens, and the backend's echo of
/// it, `start + q + stop` followed by text without a start token, comes back
/// as exactly the response `q`, then that text as a diagnostic but for an end
/// that may begin a start token, which is held back; with nothing held back
/// the relay is ready for the next request as before.
pub proof fn lemma_echo(r: RelayView, q: Seq<char>, tail: Seq<char>)
    requires
        r.wf(),
        r.idle(),
        !contains(q, r.tokens.exit),
        closes_after(q, r.tokens.stop),
        !contains(tail, r.tokens.start),
    ensures
        ({
            let t = r.tokens;
            let (r1, w) = next_on_request(r, q);
            let (r2, ps) = next_on_stdout(r1, t.start + q + t.stop + tail);
            let h = overlap(tail, t.start);
            &&& w == Some(t.start + q + t.stop)
            &&& ps == seq![Piece::Response(q)] + diag_of(tail.take(tail.len() - h))
            &&& r2.phase is Active
            &&& !r2.inside
            &&& r2.pending == tail.skip(tail.len() - h)
            &&& h == 0 ==> r2.idle()
        }),
{
    let t = r.tokens;
    let (start, stop) = (t.start, t.stop);
    let chunk = start + q + stop + tail;
    assert(r.pending + chunk =~= chunk);
    assert(chunk.subrange(0, start.len() as int) =~= start);
    lemma_index_of_first(chunk, start, 0);
    let after = chunk.skip(start.len() as int);
    assert(after =~= q + stop + tail);
    assert(chunk.take(0) =~= seq![]);
    // the stop token first stands right after q
    lemma_index_of(q + stop, stop);
    let buf = seq![] + after;
    assert(buf =~= q + stop + tail);
    assert forall|j: int| 0 <= j < q.len() implies !occurs_at(buf, stop, j) by {
        if occurs_at(buf, stop, j) {
            assert(buf.subrange(j, j + stop.len()) =~= (q + stop).subrange(j, j + stop.len()));
            assert(occurs_at(q + stop, stop, j));
        }
    }
    assert(buf.subrange(q.len() as int, (q.len() + stop.len()) as int) =~= stop);
    lemma_index_of_first(buf, stop, q.len() as int);
    assert(buf.take(q.len() as int) =~= q);
    assert(buf.skip((q.len() + stop.len()) as int) =~= tail);
    lemma_index_of(tail, start);
    assert(seq![] + tail =~= tail);
    let h = overlap(tail, start);
    lemma_overlap_from(tail, start, start.len() - 1);
    if h == 0 {
        assert(tail.skip(tail.len() - h) =~= Seq::<char>::empty());
    }
    let s3 = scan(false, seq![], tail, start, stop);
    assert(s3 == (diag_of(tail.take(tail.len() - h)), false, tail.skip(tail.len() - h)));
    let s2 = scan(true, seq![], after, start, stop);
    assert(s2 == (seq![Piece::Response(q)] + s3.0, s3.1, s3.2));
    let s1 = scan(false, r.pending, chunk, start, stop);
    assert(s1 == (diag_of(chunk.take(0)) + s2.0, s2.1, s2.2));
    assert(diag_of(chunk.take(0)) =~= Seq::<Piece>::empty());
    assert(s1.0 =~= seq![Piece::Response(q)] + diag_of(tail.take(tail.len() - h)));
}

/// Sending the same request from any two idle relays with the same tokens
/// writes the same text, and the same output then yields the same pieces.
pub proof fn lemma_repeat_request(a: RelayView, b: RelayView, payload: Seq<char>, chunk: Seq<char>)
    requires
        a.wf(),
        b.wf(),
        a.idle(),
        b.idle(),
        a.tokens == b.tokens,
    ensures
        next_on_request(a, payload).1 == next_on_request(b, payload).1,
        next_on_request(a, payload).0 == next_on_request(b, payload).0,
        next_on_stdout(next_on_request(a, payload).0, chunk) == next_on_stdout(
            next_on_request(b, payload).0,
            chunk,
        ),
{
    assert(a.pending =~= b.pending);
}

/// After the caller sends a payload with the exit token, no further request is
/// taken; once the backend's output ends the relay is terminated or failed,
/// never serving again, and neither source yields anything more.
pub proof fn lemma_shutdown(
    r: RelayView,
    payload: Seq<char>,
    chunk: Seq<char>,
    e: Ending,
    later: Seq<char>,
)
    requires
        r.wf(),
        r.phase is Ready || r.phase is Active,
        contains(payload, r.tokens.exit),
    ensures
        ({
            let (r1, w) = next_on_request(r, payload);
            let r2 = next_on_stdout(r1, chunk).0;
            let r3 = next_on_end(r2, e).0;
            &&& w == Some(payload)
            &&& r1.phase is Closing
            &&& r2.phase is Closing
            &&& next_on_request(r2, later).1 is None
            &&& finished(r3.phase)
            &&& next_on_stdout(r3, later).1 == Seq::<Piece>::empty()
            &&& next_on_stderr(r3, later) == Seq::<Piece>::empty()
            &&& next_on_request(r3, later).1 is None
            &&& next_on_end(r3, e).1 == Seq::<Piece>::empty()
        }),
{
}

/// The relay after a whole run of output chunks, with every piece it yielded
/// in order.
pub open spec fn run_stdout(r: RelayView, chunks: Seq<Seq<char>>) -> (RelayView, Seq<Piece>)
    decreases chunks.len(),
{
    if chunks.len() == 0 {
        (r, seq![])
    } else {
        let (r1, p1) = next_on_stdout(r, chunks[0]);
        let (r2, p2) = run_stdout(r1, chunks.drop_first());
        (r2, p1 + p2)
    }
}

/// The chunks of a run, one after another.
pub open spec fn joined(chunks: Seq<Seq<char>>) -> Seq<char>
    decreases chunks.len(),
{
    if chunks.len() == 0 {
        seq![]
    } else {
        chunks[0] + joined(chunks.drop_first())
    }
}

proof fn lemma_render_concat(a: Seq<Piece>, b: Seq<Piece>, start: Seq<char>, stop: Seq<char>)
    ensures
        render(a + b, start, stop) == render(a, start, stop) + render(b, start, stop),
    decreases a.len(),
{
    if a.len() == 0 {
        assert(a + b =~= b);
        assert(render(a, start, stop) + render(b, start, stop) =~= render(b, start, stop));
    } else {
        lemma_render_concat(a.drop_first(), b, start, stop);
        assert((a + b).drop_first() =~= a.drop_first() + b);
        assert((a + b)[0] == a[0]);
        assert(render(a + b, start, stop) =~= piece_text(a[0], start, stop) + (render(
            a.drop_first(),
            start,
            stop,
        ) + render(b, start, stop)));
    }
}

/// Over a whole run of output, however noise and brackets interleave and
/// however the chunks split them: the pieces, with their tokens put back,
/// followed by what stays held back, are what was held back followed by all
/// the output. Responses hold no stop token, diagnostics no start token, and
/// the relay is still serving.
pub proof fn lemma_stream_kept(r: RelayView, chunks: Seq<Seq<char>>)
    requires
        r.wf(),
        streaming(r.phase),
    ensures
        ({
            let (r2, ps) = run_stdout(r, chunks);
            let (start, stop) = (r.tokens.start, r.tokens.stop);
            &&& r2.wf()
            &&& r2.phase == r.phase
            &&& r2.tokens == r.tokens
            &&& render(ps, start, stop) + open_part(r2.inside, r2.pending, start) == open_part(
                r.inside,
                r.pending,
                start,
            ) + joined(chunks)
            &&& forall|k: int| 0 <= k < ps.len() ==> clean(#[trigger] ps[k], start, stop)
        }),
    decreases chunks.len(),
{
    let (start, stop) = (r.tokens.start, r.tokens.stop);
    if chunks.len() == 0 {
        assert(render(Seq::<Piece>::empty(), start, stop) =~= Seq::<char>::empty());
        assert(Seq::<char>::empty() + open_part(r.inside, r.pending, start) =~= open_part(
            r.inside,
            r.pending,
            start,
        ) + Seq::<char>::empty());
    } else {
        let (r1, p1) = next_on_stdout(r, chunks[0]);
        lemma_output_kept(r, chunks[0]);
        lemma_stream_kept(r1, chunks.drop_first());
        let (r2, p2) = run_stdout(r1, chunks.drop_first());
        lemma_render_concat(p1, p2, start, stop);
        let o = open_part(r.inside, r.pending, start);
        let o1 = open_part(r1.inside, r1.pending, start);
        let o2 = open_part(r2.inside, r2.pending, start);
        assert(render(p1, start, stop) + o1 == o + chunks[0]);
        assert(render(p2, start, stop) + o2 == o1 + joined(chunks.drop_first()));
        let (a, b, j) = (render(p1, start, stop), render(p2, start, stop), joined(
            chunks.drop_first(),
        ));
        assert(a + b + o2 =~= a + (b + o2));
        assert(a + (o1 + j) =~= (a + o1) + j);
        assert(render(p1 + p2, start, stop) + o2 == (a + o1) + j);
        assert(o + joined(chunks) =~= (o + chunks[0]) + joined(chunks.drop_first()));
        assert forall|k: int| 0 <= k < (p1 + p2).len() implies clean(
            #[trigger] (p1 + p2)[k],
            start,
            stop,
        ) by {
            if k < p1.len() {
                assert((p1 + p2)[k] == p1[k]);
            } else {
                assert((p1 + p2)[k] == p2[k - p1.len()]);
            }
        }
    }
}

} // verus!
