use vstd::prelude::*;
use crate::channel::Pipe;

verus! {

pub const NEWLINE: u8 = 10;

pub const CARRIAGE_RETURN: u8 = 13;

/// Guest output as the raw-mode terminal needs it: each line ends in `"\n\r"`
/// (a `"\r\n"` ending counts as a plain `"\n"`).
pub open spec fn raw_lines(s: Seq<u8>) -> Seq<u8>
    decreases s.len(),
{
    if s.len() == 0 {
        Seq::empty()
    } else if s.last() == NEWLINE {
        let rest = s.drop_last();
        if rest.len() > 0 && rest.last() == CARRIAGE_RETURN {
            raw_lines(rest.drop_last()) + seq![NEWLINE, CARRIAGE_RETURN]
        } else {
            raw_lines(rest) + seq![NEWLINE, CARRIAGE_RETURN]
        }
    } else {
        raw_lines(s.drop_last()).push(s.last())
    }
}

/// One frame as written to the terminal: every line of `s` followed by
/// `"\n\r"`, and a last `"\n\r"` where `s` does not end a line itself.
pub open spec fn frame_text(s: Seq<u8>) -> Seq<u8> {
    if s.len() > 0 && s.last() == NEWLINE {
        raw_lines(s)
    } else {
        raw_lines(s) + seq![NEWLINE, CARRIAGE_RETURN]
    }
}

/// Length of the first line of `s`: the bytes before the first newline.
pub open spec fn line_len(s: Seq<u8>) -> nat
    decreases s.len(),
{
    if s.len() == 0 || s[0] == NEWLINE {
        0
    } else {
        1 + line_len(s.drop_first())
    }
}

/// The first line of `s` without its line ending, if `s` holds any text.
pub open spec fn first_line(s: Seq<u8>) -> Option<Seq<u8>> {
    if s.len() == 0 {
        None
    } else {
        let k = line_len(s) as int;
        if k < s.len() && k > 0 && s[k - 1] == CARRIAGE_RETURN {
            Some(s.subrange(0, k - 1))
        } else {
            Some(s.subrange(0, k))
        }
    }
}

/// The number of newlines in `s`, that is of whole lines it holds.
pub open spec fn line_count(s: Seq<u8>) -> nat
    decreases s.len(),
{
    if s.len() == 0 {
        0
    } else if s.last() == NEWLINE {
        line_count(s.drop_last()) + 1
    } else {
        line_count(s.drop_last())
    }
}

proof fn lemma_line_len_step(s: Seq<u8>, i: int)
    requires
        0 <= i < s.len(),
        s[i] != NEWLINE,
    ensures
        line_len(s.subrange(i, s.len() as int)) == 1 + line_len(s.subrange(i + 1, s.len() as int)),
{
    assert(s.subrange(i, s.len() as int).drop_first() =~= s.subrange(i + 1, s.len() as int));
}

/// Drains the guest's output channel and returns the bytes the terminal gets
/// for this frame; the channel is left empty, so frames never accumulate.
pub fn take_frame(out: &mut Pipe) -> (r: Vec<u8>)
    requires
        2 * old(out).buffer@.len() + 2 <= usize::MAX,
    ensures
        r@ == frame_text(old(out).buffer@),
        final(out).buffer@ == Seq::<u8>::empty(),
        final(out).kind == old(out).kind,
{
    let ghost s = out.buffer@;
    let mut r: Vec<u8> = Vec::new();
    let mut i: usize = 0;
    while i < out.buffer.len()
        invariant
            out.buffer@ == s,
            i <= s.len(),
            2 * s.len() + 2 <= usize::MAX,
            r@ == raw_lines(s.subrange(0, i as int)),
            r@.len() <= 2 * i,
        decreases s.len() - i,
    {
        let c = out.buffer[i];
        let ghost p = s.subrange(0, i as int);
        let ghost q = s.subrange(0, i + 1);
        assert(q.drop_last() =~= p);
        assert(q.last() == c);
        if c == NEWLINE {
            if i > 0 && out.buffer[i - 1] == CARRIAGE_RETURN {
                assert(p.drop_last() =~= s.subrange(0, i - 1));
                assert(raw_lines(p) == raw_lines(p.drop_last()).push(CARRIAGE_RETURN));
                r.pop();
                assert(r@ =~= raw_lines(p.drop_last()));
            }
            r.push(NEWLINE);
            r.push(CARRIAGE_RETURN);
        } else {
            r.push(c);
        }
        i = i + 1;
        assert(r@ =~= raw_lines(q));
    }
    assert(s.subrange(0, i as int) =~= s);
    if !(i > 0 && out.buffer[i - 1] == NEWLINE) {
        r.push(NEWLINE);
        r.push(CARRIAGE_RETURN);
    }
    assert(r@ =~= frame_text(s));
    out.clear();
    r
}

/// Puts one serialized key event into the guest's input channel.
///
/// Stale content is cleared first, so the channel holds exactly this event's
/// line whatever it held before.
pub fn queue_key(input: &mut Pipe, line: &[u8])
    requires
        line@.len() < usize::MAX,
    ensures
        final(input).buffer@ == line@.push(NEWLINE),
        final(input).kind == old(input).kind,
{
    input.clear();
    input.write(line);
    input.buffer.push(NEWLINE);
}

/// The path the guest asked the host to open: `root`, a `/`, and the first
/// line the guest wrote to its output channel. The channel is left empty;
/// with nothing written there is nothing to open.
///
/// The output channel carries both frame text and this request. The guest
/// must ask only from `handle_key`: the host drains the channel after every
/// `draw`, so the first line there is then the path and nothing else.
pub fn take_open_request(out: &mut Pipe, root: &[u8]) -> (r: Option<Vec<u8>>)
    requires
        root@.len() + old(out).buffer@.len() + 1 <= usize::MAX,
    ensures
        match first_line(old(out).buffer@) {
            None => r is None,
            Some(line) => r matches Some(p) && p@ == root@.push(47u8) + line,
        },
        final(out).buffer@ == Seq::<u8>::empty(),
        final(out).kind == old(out).kind,
{
    let ghost s = out.buffer@;
    if out.buffer.len() == 0 {
        out.clear();
        return None;
    }
    let mut k: usize = 0;
    assert(s.subrange(0, s.len() as int) =~= s);
    while k < out.buffer.len() && out.buffer[k] != NEWLINE
        invariant
            out.buffer@ == s,
            k <= s.len(),
            line_len(s) == k + line_len(s.subrange(k as int, s.len() as int)),
        decreases s.len() - k,
    {
        proof {
            lemma_line_len_step(s, k as int);
        }
        k = k + 1;
    }
    assert(line_len(s.subrange(k as int, s.len() as int)) == 0);
    let end = if k < out.buffer.len() && k > 0 && out.buffer[k - 1] == CARRIAGE_RETURN {
        k - 1
    } else {
        k
    };
    let mut p: Vec<u8> = Vec::new();
    let mut j: usize = 0;
    while j < root.len()
        invariant
            j <= root@.len(),
            p@ == root@.subrange(0, j as int),
        decreases root@.len() - j,
    {
        p.push(root[j]);
        j = j + 1;
        assert(p@ =~= root@.subrange(0, j as int));
    }
    assert(root@.subrange(0, j as int) =~= root@);
    p.push(47u8);
    let ghost head = p@;
    let mut j: usize = 0;
    while j < end
        invariant
            out.buffer@ == s,
            end <= s.len(),
            j <= end,
            p@ == head + s.subrange(0, j as int),
        decreases end - j,
    {
        p.push(out.buffer[j]);
        j = j + 1;
        assert(p@ =~= head + s.subrange(0, j as int));
    }
    out.clear();
    Some(p)
}

/// Once a key event has been queued, the input channel holds exactly one
/// line: one event per frame, however many were queued before.
pub proof fn lemma_one_event_queued(line: Seq<u8>)
    requires
        forall|i: int| 0 <= i < line.len() ==> line[i] != NEWLINE,
    ensures
        line_count(line.push(NEWLINE)) == 1,
{
    assert(line.push(NEWLINE).drop_last() =~= line);
    lemma_no_lines(line);
}

proof fn lemma_no_lines(line: Seq<u8>)
    requires
        forall|i: int| 0 <= i < line.len() ==> line[i] != NEWLINE,
    ensures
        line_count(line) == 0,
    decreases line.len(),
{
    if line.len() > 0 {
        lemma_no_lines(line.drop_last());
    }
}

} // verus!
