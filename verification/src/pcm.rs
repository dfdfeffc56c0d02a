//! The raw PCM stream that `parec` records and the page plays: stereo
//! 16-bit little-endian samples at 48 kHz, sent in whole frames.
use vstd::prelude::*;

verus! {

/// Bytes of one frame: two channels of two bytes.
pub const FRAME_BYTES: usize = 4;

/// Bytes read from `parec` at a time: 20 ms of audio.
pub const READ_BYTES: usize = 3840;

/// The program that records the capture source.
pub const RECORDER: &'static str = "parec";

/// The arguments `parec` is run with to record `source`.
pub open spec fn recorder_args_for(source: Seq<char>) -> Seq<Seq<char>> {
    seq![
        "-d"@,
        source,
        "--rate=48000"@,
        "--format=s16le"@,
        "--channels=2"@,
        "--latency-msec=20"@,
        "--raw"@,
        "--client-name=meet123"@,
        "--stream-name=system-audio"@,
    ]
}

/// The texts of a list of strings.
pub open spec fn texts(v: Seq<String>) -> Seq<Seq<char>> {
    v.map_values(|s: String| s@)
}

/// The arguments `parec` is run with to record `source`.
pub fn recorder_args(source: &str) -> (r: Vec<String>)
    ensures
        texts(r@) == recorder_args_for(source@),
{
    let mut r: Vec<String> = Vec::new();
    r.push(String::from_str("-d"));
    r.push(String::from_str(source));
    r.push(String::from_str("--rate=48000"));
    r.push(String::from_str("--format=s16le"));
    r.push(String::from_str("--channels=2"));
    r.push(String::from_str("--latency-msec=20"));
    r.push(String::from_str("--raw"));
    r.push(String::from_str("--client-name=meet123"));
    r.push(String::from_str("--stream-name=system-audio"));
    assert(texts(r@) =~= recorder_args_for(source@));
    r
}

/// The whole frames at the start of `bytes`.
pub open spec fn whole_frames(bytes: Seq<u8>) -> Seq<u8> {
    bytes.take(bytes.len() - bytes.len() % 4)
}

/// What is left of `bytes` after its whole frames.
pub open spec fn partial_frame(bytes: Seq<u8>) -> Seq<u8> {
    bytes.skip(bytes.len() - bytes.len() % 4)
}

/// Adds a chunk read from `parec` to the bytes held back, and hands out the
/// whole frames; a partial frame is held back for the next chunk.
pub fn frame_pcm(pending: &mut Vec<u8>, chunk: &[u8]) -> (out: Vec<u8>)
    ensures
        out@ == whole_frames(old(pending)@ + chunk@),
        final(pending)@ == partial_frame(old(pending)@ + chunk@),
{
    let ghost all = old(pending)@ + chunk@;
    let n = chunk.len();
    for i in 0..n
        invariant
            n == chunk@.len(),
            pending@ == old(pending)@ + chunk@.take(i as int),
    {
        pending.push(chunk[i]);
        assert(chunk@.take(i + 1) =~= chunk@.take(i as int).push(chunk@[i as int]));
    }
    assert(chunk@.take(n as int) =~= chunk@);
    assert(pending@ == all);
    let len = pending.len();
    let aligned = len - len % FRAME_BYTES;
    let mut out: Vec<u8> = Vec::new();
    let mut rest: Vec<u8> = Vec::new();
    for i in 0..len
        invariant
            len == pending@.len(),
            pending@ == all,
            aligned == len - len % 4,
            i <= aligned ==> out@ == all.take(i as int) && rest@.len() == 0,
            i > aligned ==> out@ == all.take(aligned as int) && rest@ == all.subrange(
                aligned as int,
                i as int,
            ),
    {
        if i < aligned {
            out.push(pending[i]);
            assert(all.take(i + 1) =~= all.take(i as int).push(all[i as int]));
        } else {
            rest.push(pending[i]);
            assert(all.subrange(aligned as int, i + 1) =~= rest@);
        }
    }
    assert(all.skip(aligned as int) =~= rest@);
    *pending = rest;
    out
}

/// All chunks one after the other.
pub open spec fn joined(chunks: Seq<Seq<u8>>) -> Seq<u8>
    decreases chunks.len(),
{
    if chunks.len() == 0 {
        Seq::empty()
    } else {
        joined(chunks.drop_last()) + chunks.last()
    }
}

/// What is held back after `frame_pcm` took the chunks in order, starting
/// from nothing held back.
pub open spec fn held_after(chunks: Seq<Seq<u8>>) -> Seq<u8>
    decreases chunks.len(),
{
    if chunks.len() == 0 {
        Seq::empty()
    } else {
        partial_frame(held_after(chunks.drop_last()) + chunks.last())
    }
}

/// Everything `frame_pcm` handed out after it took the chunks in order,
/// starting from nothing held back.
pub open spec fn sent_after(chunks: Seq<Seq<u8>>) -> Seq<u8>
    decreases chunks.len(),
{
    if chunks.len() == 0 {
        Seq::empty()
    } else {
        sent_after(chunks.drop_last()) + whole_frames(held_after(chunks.drop_last()) + chunks.last())
    }
}

/// Framing loses, adds and reorders no byte: what was handed out, followed by
/// what is held back, is everything recorded, in order. What was handed out
/// is whole frames, and less than one frame is held back.
pub proof fn lemma_framing_keeps_stream(chunks: Seq<Seq<u8>>)
    ensures
        sent_after(chunks) + held_after(chunks) == joined(chunks),
        sent_after(chunks).len() % 4 == 0,
        held_after(chunks).len() < 4,
    decreases chunks.len(),
{
    if chunks.len() == 0 {
        assert(sent_after(chunks) + held_after(chunks) =~= joined(chunks));
    } else {
        let prev = chunks.drop_last();
        lemma_framing_keeps_stream(prev);
        let all = held_after(prev) + chunks.last();
        let a = all.len() - all.len() % 4;
        assert(whole_frames(all) + partial_frame(all) =~= all);
        assert(sent_after(chunks) + held_after(chunks) =~= sent_after(prev) + (whole_frames(all)
            + partial_frame(all)));
        assert(joined(chunks) =~= (sent_after(prev) + held_after(prev)) + chunks.last());
        assert(sent_after(chunks) + held_after(chunks) =~= joined(chunks));
        assert(whole_frames(all).len() == a);
        assert(a % 4 == 0) by (nonlinear_arith)
            requires
                a == all.len() - all.len() % 4,
        ;
    }
}

} // verus!
