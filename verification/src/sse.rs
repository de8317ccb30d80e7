//! Server-Sent-Events wire framing. The platform frames each event a handler emits:
//! every line of the payload becomes its own `data:` field and a blank line ends the
//! event; a rich event may carry single-line `id:` and `event:` fields and a `retry:`
//! backoff first. Handlers write raw payloads and never the framing.

use vstd::prelude::*;
use vstd::utf8::encode_utf8;
use vstd::string::*;
use crate::text::{lemma_split_piece, split};

verus! {

/// A rich SSE event a handler emits: `data` plus an optional `event` name, `id`
/// (echoed back by the client as `Last-Event-ID`) and `retry` backoff.
pub struct SseEvent {
    pub data: Vec<u8>,
    pub event: Option<String>,
    pub id: Option<String>,
    pub retry: Option<u32>,
}

/// The bytes `data: `.
pub open spec fn data_prefix() -> Seq<u8> {
    seq![100u8, 97u8, 116u8, 97u8, 58u8, 32u8]
}

/// The bytes `id: `.
pub open spec fn id_prefix() -> Seq<u8> {
    seq![105u8, 100u8, 58u8, 32u8]
}

/// The bytes `event: `.
pub open spec fn event_prefix() -> Seq<u8> {
    seq![101u8, 118u8, 101u8, 110u8, 116u8, 58u8, 32u8]
}

/// The bytes `retry: `.
pub open spec fn retry_prefix() -> Seq<u8> {
    seq![114u8, 101u8, 116u8, 114u8, 121u8, 58u8, 32u8]
}

/// A line feed.
pub open spec fn lf() -> Seq<u8> {
    seq![10u8]
}

/// One `data: <line>\n` field.
pub open spec fn data_field(line: Seq<u8>) -> Seq<u8> {
    data_prefix() + line + lf()
}

/// The `data:` fields of a list of lines, in order.
pub open spec fn data_fields(lines: Seq<Seq<u8>>) -> Seq<u8>
    decreases lines.len(),
{
    if lines.len() == 0 {
        Seq::empty()
    } else {
        data_fields(lines.drop_last()) + data_field(lines.last())
    }
}

/// The `data:` fields for a payload: one per `\n`-separated line.
pub open spec fn data_lines(payload: Seq<u8>) -> Seq<u8> {
    data_fields(split(payload, 10u8))
}

/// A plain event: its `data:` fields, then the terminating blank line.
pub open spec fn data_event(payload: Seq<u8>) -> Seq<u8> {
    data_lines(payload) + lf()
}

/// The characters a single-line field may not carry (they would end the field).
pub open spec fn is_line_break(b: u8) -> bool {
    b == 10u8 || b == 13u8
}

/// `bytes` without any CR or LF.
pub open spec fn without_breaks(bytes: Seq<u8>) -> Seq<u8>
    decreases bytes.len(),
{
    if bytes.len() == 0 {
        Seq::empty()
    } else if is_line_break(bytes.last()) {
        without_breaks(bytes.drop_last())
    } else {
        without_breaks(bytes.drop_last()).push(bytes.last())
    }
}


/// A single-line field (`id:`, `event:`) carries no line break in its value, so a
/// value with embedded CR/LF can never end the field early or inject another one.
pub proof fn law_single_line_value_has_no_breaks(value: Seq<u8>)
    ensures
        forall|i: int| 0 <= i < without_breaks(value).len() ==> !is_line_break(
            #[trigger] without_breaks(value)[i],
        ),
        without_breaks(value).len() <= value.len(),
    decreases value.len(),
{
    if value.len() > 0 {
        law_single_line_value_has_no_breaks(value.drop_last());
    }
}

/// A single-line field: the name, the value with CR/LF dropped, a line feed.
pub open spec fn single_line_field(name: Seq<u8>, value: Seq<u8>) -> Seq<u8> {
    name + without_breaks(value) + lf()
}

/// The decimal digits of `n`, most significant first, with no leading zero.
pub open spec fn decimal(n: nat) -> Seq<u8>
    decreases n,
{
    if n < 10 {
        seq![(48 + n) as u8]
    } else {
        decimal(n / 10).push((48 + n % 10) as u8)
    }
}

/// A rich event: `id:`, `event:` and `retry:` when present, the `data:` fields, then
/// the terminating blank line.
pub open spec fn rich_event(
    data: Seq<u8>,
    event: Option<Seq<u8>>,
    id: Option<Seq<u8>>,
    retry: Option<u32>,
) -> Seq<u8> {
    let with_id = match id {
        Some(i) => single_line_field(id_prefix(), i),
        None => Seq::empty(),
    };
    let with_event = match event {
        Some(e) => single_line_field(event_prefix(), e),
        None => Seq::empty(),
    };
    let with_retry = match retry {
        Some(r) => retry_prefix() + decimal(r as nat) + lf(),
        None => Seq::empty(),
    };
    with_id + with_event + with_retry + data_lines(data) + lf()
}

/// Append all of `bytes` to `out`.
pub fn push_all(out: &mut Vec<u8>, bytes: &[u8])
    ensures
        final(out)@ == old(out)@ + bytes@,
{
    let mut i: usize = 0;
    while i < bytes.len()
        invariant
            i <= bytes@.len(),
            out@ == old(out)@ + bytes@.subrange(0, i as int),
        decreases bytes@.len() - i,
    {
        out.push(bytes[i]);
        i = i + 1;
        assert(out@ =~= old(out)@ + bytes@.subrange(0, i as int));
    }
    assert(bytes@.subrange(0, bytes@.len() as int) =~= bytes@);
}

/// Append `data: <line>\n` for each `\n`-separated line of `payload`.
pub fn push_data_lines(out: &mut Vec<u8>, payload: &[u8])
    ensures
        final(out)@ == old(out)@ + data_lines(payload@),
{
    let prefix: [u8; 6] = [100, 97, 116, 97, 58, 32];
    assert(prefix@ =~= data_prefix());
    let n = payload.len();
    let mut st: usize = 0;
    let mut i: usize = 0;
    let ghost mut done: Seq<Seq<u8>> = Seq::empty();
    while i < n
        invariant
            n == payload@.len(),
            prefix@ == data_prefix(),
            st <= i <= n,
            st == 0 || payload@[st - 1] == 10u8,
            forall|j: int| st <= j < i ==> payload@[j] != 10u8,
            done == (if st == 0 {
                Seq::<Seq<u8>>::empty()
            } else {
                split(payload@.subrange(0, st - 1), 10u8)
            }),
            out@ == old(out)@ + data_fields(done),
        decreases n - i,
    {
        if payload[i] == 10 {
            proof {
                lemma_split_piece(payload@, 10u8, st as int, i as int);
            }
            push_line(out, &prefix, payload, st, i);
            proof {
                let piece = payload@.subrange(st as int, i as int);
                let d = done.push(piece);
                assert(d.drop_last() =~= done);
                done = d;
            }
            st = i + 1;
        }
        i = i + 1;
    }
    proof {
        lemma_split_piece(payload@, 10u8, st as int, n as int);
        assert(payload@.subrange(0, n as int) =~= payload@);
    }
    push_line(out, &prefix, payload, st, n);
    proof {
        let d = done.push(payload@.subrange(st as int, n as int));
        assert(d.drop_last() =~= done);
    }
}

/// Append one `data: <payload[st..i]>\n` field.
fn push_line(out: &mut Vec<u8>, prefix: &[u8; 6], payload: &[u8], st: usize, i: usize)
    requires
        st <= i <= payload@.len(),
        prefix@ == data_prefix(),
    ensures
        final(out)@ == old(out)@ + data_field(payload@.subrange(st as int, i as int)),
{
    push_all(out, prefix);
    push_all(out, &payload[st..i]);
    out.push(10);
    assert(final(out)@ =~= old(out)@ + data_field(payload@.subrange(st as int, i as int)));
}

/// Append a single-line SSE field (`id: ` / `event: `), dropping any CR/LF in the
/// value so a stray newline can't inject extra fields or end the event early.
pub fn push_single_line_field(out: &mut Vec<u8>, name: &[u8], value: &str)
    ensures
        final(out)@ == old(out)@ + single_line_field(name@, value.spec_bytes()),
{
    push_all(out, name);
    let bytes = value.as_bytes();
    let ghost base = out@;
    let mut i: usize = 0;
    while i < bytes.len()
        invariant
            i <= bytes@.len(),
            out@ == base + without_breaks(bytes@.subrange(0, i as int)),
        decreases bytes@.len() - i,
    {
        let b = bytes[i];
        proof {
            assert(bytes@.subrange(0, i + 1).drop_last() =~= bytes@.subrange(0, i as int));
        }
        if b != 10 && b != 13 {
            out.push(b);
        }
        i = i + 1;
    }
    assert(bytes@.subrange(0, bytes@.len() as int) =~= bytes@);
    out.push(10);
    assert(final(out)@ =~= old(out)@ + single_line_field(name@, value.spec_bytes()));
}

/// Append the decimal digits of `n`.
pub fn push_decimal(out: &mut Vec<u8>, n: u64)
    ensures
        final(out)@ == old(out)@ + decimal(n as nat),
    decreases n,
{
    if n < 10 {
        out.push((48 + n) as u8);
        assert(final(out)@ =~= old(out)@ + decimal(n as nat));
    } else {
        push_decimal(out, n / 10);
        out.push((48 + n % 10) as u8);
        assert(final(out)@ =~= old(out)@ + decimal(n as nat));
    }
}

/// Frame a raw event payload as one SSE event — each line its own `data:` field, a
/// blank line terminating the event.
pub fn sse_data_frame(payload: &[u8]) -> (r: Vec<u8>)
    ensures
        r@ == data_event(payload@),
{
    let mut out: Vec<u8> = Vec::new();
    push_data_lines(&mut out, payload);
    out.push(10);
    assert(out@ =~= data_event(payload@));
    out
}

/// Frame a rich SSE event: optional `id:`/`event:`/`retry:` lines, the `data:`
/// fields, then the terminating blank line.
pub fn sse_event_frame(event: &SseEvent) -> (r: Vec<u8>)
    ensures
        r@ == rich_event(
            event.data@,
            match event.event {
                Some(e) => Some(encode_utf8(e@)),
                None => None,
            },
            match event.id {
                Some(i) => Some(encode_utf8(i@)),
                None => None,
            },
            event.retry,
        ),
{
    let mut out: Vec<u8> = Vec::new();
    if let Some(id) = &event.id {
        let name: [u8; 4] = [105, 100, 58, 32];
        assert(name@ =~= id_prefix());
        push_single_line_field(&mut out, &name, id.as_str());
    }
    let ghost after_id = out@;
    if let Some(ev) = &event.event {
        let name: [u8; 7] = [101, 118, 101, 110, 116, 58, 32];
        assert(name@ =~= event_prefix());
        push_single_line_field(&mut out, &name, ev.as_str());
    }
    let ghost after_event = out@;
    if let Some(retry) = event.retry {
        let name: [u8; 7] = [114, 101, 116, 114, 121, 58, 32];
        assert(name@ =~= retry_prefix());
        push_all(&mut out, &name);
        push_decimal(&mut out, retry as u64);
        out.push(10);
    }
    let ghost after_retry = out@;
    push_data_lines(&mut out, event.data.as_slice());
    out.push(10);
    assert(out@ =~= rich_event(
        event.data@,
        match event.event {
            Some(e) => Some(encode_utf8(e@)),
            None => None,
        },
        match event.id {
            Some(i) => Some(encode_utf8(i@)),
            None => None,
        },
        event.retry,
    ));
    out
}

/// Law: a payload line without a line feed is framed as one field, `data: <line>\n`;
/// and a payload whose last line follows a line feed is framed as the fields of what
/// precedes that line feed, then the last line's own `data:` field — so every line of
/// a payload gets its own field, in order.
pub proof fn law_each_payload_line_is_its_own_field(before: Seq<u8>, line: Seq<u8>)
    requires
        forall|j: int| 0 <= j < line.len() ==> line[j] != 10u8,
    ensures
        data_lines(line) == seq![100u8, 97u8, 116u8, 97u8, 58u8, 32u8] + line + seq![10u8],
        data_lines(before + seq![10u8] + line) == data_lines(before) + seq![
            100u8,
            97u8,
            116u8,
            97u8,
            58u8,
            32u8,
        ] + line + seq![10u8],
{
    lemma_split_piece(line, 10u8, 0, line.len() as int);
    assert(line.subrange(0, line.len() as int) =~= line);
    assert(Seq::<Seq<u8>>::empty().push(line).drop_last() =~= Seq::<Seq<u8>>::empty());
    assert(data_fields(Seq::<Seq<u8>>::empty()) =~= Seq::<u8>::empty());
    assert(data_lines(line) =~= seq![100u8, 97u8, 116u8, 97u8, 58u8, 32u8] + line + seq![10u8]);
    let s = before + seq![10u8] + line;
    let st: int = before.len() as int + 1;
    assert forall|j: int| st <= j < s.len() implies s[j] != 10u8 by {
        assert(s[j] == line[j - st]);
    }
    lemma_split_piece(s, 10u8, st, s.len() as int);
    assert(s.subrange(0, s.len() as int) =~= s);
    assert(s.subrange(0, st - 1) =~= before);
    assert(s.subrange(st, s.len() as int) =~= line);
    let pieces = split(before, 10u8).push(line);
    assert(pieces.drop_last() =~= split(before, 10u8));
    assert(data_lines(s) =~= data_lines(before) + seq![100u8, 97u8, 116u8, 97u8, 58u8, 32u8] + line
        + seq![10u8]);
}

/// Law: a rich event frames its data exactly as a plain event does — with no `id`,
/// `event` or `retry` the two are the same bytes, and otherwise the rich event ends
/// with the plain event's framing of the same data.
pub proof fn law_rich_event_frames_data_like_a_plain_event(
    data: Seq<u8>,
    event: Option<Seq<u8>>,
    id: Option<Seq<u8>>,
    retry: Option<u32>,
)
    ensures
        rich_event(data, None, None, None) == data_event(data),
        data_event(data) == data_lines(data) + seq![10u8],
        ({
            let r = rich_event(data, event, id, retry);
            let d = data_event(data);
            d.len() <= r.len() && r.subrange(r.len() - d.len(), r.len() as int) == d
        }),
{
    assert(rich_event(data, None, None, None) =~= data_event(data));
    let r = rich_event(data, event, id, retry);
    let d = data_event(data);
    assert(r.subrange(r.len() - d.len(), r.len() as int) =~= d);
}

} // verus!
