//! Line framing of streamed backend responses: server-sent events, whose
//! `data:` lines carry JSON payloads up to `[DONE]`, and newline-delimited
//! JSON. Complete lines are taken from the front of a buffer; an incomplete
//! last line stays for the next read.
use vstd::prelude::*;

use crate::error::{GatewayError, GatewayErrorKind};
use crate::json::{is_json, json_error_message_of, json_parse_error, JsonText};
use crate::text::{is_blank, is_blank_seq, str_eq, string_of_chars, chars_of, trim, trim_seq};

verus! {

/// The position of the first line feed at or after `pos`.
pub open spec fn next_newline(buf: Seq<char>, pos: int) -> Option<int>
    decreases buf.len() - pos,
{
    if pos < 0 || pos >= buf.len() {
        None
    } else if buf[pos] == '\n' {
        Some(pos)
    } else {
        next_newline(buf, pos + 1)
    }
}

/// The end of the line `buf[start..end]` without its trailing carriage
/// returns.
pub open spec fn cr_trimmed_end(buf: Seq<char>, start: int, end: int) -> int
    decreases end - start,
{
    if end > start && buf[end - 1] == '\r' {
        cr_trimmed_end(buf, start, end - 1)
    } else {
        end
    }
}

/// The line `buf[start..end]` begins with `data:`.
pub open spec fn is_data_line(buf: Seq<char>, start: int, end: int) -> bool {
    end - start >= 5 && buf.subrange(start, start + 5) == "data:"@
}

/// Server-sent-event framing from `pos` on, with `frames` taken so far:
/// the payloads taken and whether `[DONE]` came, or the payload that did
/// not parse; and the position up to which the buffer is consumed.
pub open spec fn sse_from(buf: Seq<char>, pos: int, frames: Seq<Seq<char>>) -> (
    Result<(Seq<Seq<char>>, bool), Seq<char>>,
    int,
)
    decreases buf.len() - pos,
{
    match next_newline(buf, pos) {
        None => (Ok((frames, false)), pos),
        Some(j) => if j < pos || j >= buf.len() {
            (Ok((frames, false)), pos)
        } else {
            let e = cr_trimmed_end(buf, pos, j);
            if !is_data_line(buf, pos, e) {
                sse_from(buf, j + 1, frames)
            } else {
                let data = trim_seq(buf.subrange(pos + 5, e));
                if data.len() == 0 {
                    sse_from(buf, j + 1, frames)
                } else if data == "[DONE]"@ {
                    (Ok((frames, true)), j + 1)
                } else if !is_json(data) {
                    (Err(data), j + 1)
                } else {
                    sse_from(buf, j + 1, frames.push(data))
                }
            }
        },
    }
}

/// Newline-delimited JSON framing from `pos` on, with `frames` taken so
/// far: the lines taken, or the line that did not parse; and the position
/// up to which the buffer is consumed.
pub open spec fn ndjson_from(buf: Seq<char>, pos: int, frames: Seq<Seq<char>>) -> (
    Result<Seq<Seq<char>>, Seq<char>>,
    int,
)
    decreases buf.len() - pos,
{
    match next_newline(buf, pos) {
        None => (Ok(frames), pos),
        Some(j) => if j < pos || j >= buf.len() {
            (Ok(frames), pos)
        } else {
            let line = buf.subrange(pos, cr_trimmed_end(buf, pos, j));
            if is_blank_seq(line) {
                ndjson_from(buf, j + 1, frames)
            } else if !is_json(line) {
                (Err(line), j + 1)
            } else {
                ndjson_from(buf, j + 1, frames.push(line))
            }
        },
    }
}

/// A non-retryable protocol violation of `backend` with `message`.
pub open spec fn protocol_error(e: GatewayError, backend: Seq<char>, message: Seq<char>) -> bool {
    &&& e.kind == GatewayErrorKind::ProtocolViolation
    &&& e.message@ == message
    &&& !e.retryable
    &&& e.backend_id matches Some(b) && b@ == backend
    &&& e.provider_code is None
    &&& e.provider_http_status is None
}

pub open spec fn texts_of(v: Seq<JsonText>) -> Seq<Seq<char>> {
    v.map_values(|t: JsonText| t.text@)
}

/// The position of the first line feed at or after `pos`, if any.
fn find_newline(cs: &Vec<char>, pos: usize) -> (r: Option<usize>)
    requires
        pos <= cs@.len(),
    ensures
        match r {
            Some(j) => next_newline(cs@, pos as int) == Some(j as int) && pos <= j < cs@.len(),
            None => next_newline(cs@, pos as int) is None,
        },
{
    let mut j = pos;
    while j < cs.len()
        invariant
            pos <= j <= cs@.len(),
            next_newline(cs@, pos as int) == next_newline(cs@, j as int),
        decreases cs@.len() - j,
    {
        if cs[j] == '\n' {
            return Some(j);
        }
        j = j + 1;
    }
    None
}

/// The end of the line `cs[start..end]` without trailing carriage returns.
fn trim_cr(cs: &Vec<char>, start: usize, end: usize) -> (r: usize)
    requires
        start <= end <= cs@.len(),
    ensures
        r == cr_trimmed_end(cs@, start as int, end as int),
        start <= r <= end,
{
    let mut e = end;
    while e > start && cs[e - 1] == '\r'
        invariant
            start <= e <= end,
            end <= cs@.len(),
            cr_trimmed_end(cs@, start as int, end as int) == cr_trimmed_end(cs@, start as int, e as int),
        decreases e - start,
    {
        e = e - 1;
    }
    e
}

/// The characters `cs[start..end]` as a text.
fn slice_text(cs: &Vec<char>, start: usize, end: usize) -> (r: String)
    requires
        start <= end <= cs@.len(),
    ensures
        r@ == cs@.subrange(start as int, end as int),
{
    let mut v: Vec<char> = Vec::new();
    let mut i = start;
    while i < end
        invariant
            start <= i <= end,
            end <= cs@.len(),
            v@ == cs@.subrange(start as int, i as int),
        decreases end - i,
    {
        v.push(cs[i]);
        assert(v@ =~= cs@.subrange(start as int, i + 1));
        i = i + 1;
    }
    string_of_chars(&v)
}

fn protocol_violation(backend_id: &str, prefix: &str, detail: &str) -> (e: GatewayError)
    ensures
        protocol_error(e, backend_id@, prefix@ + detail@),
{
    let mut m = String::from_str(prefix);
    m.append(detail);
    GatewayError::new(GatewayErrorKind::ProtocolViolation, m.as_str()).with_retryable(false).with_backend_id(
        backend_id,
    )
}

/// Takes the complete lines off the front of `buffer` and returns the JSON
/// payloads of its `data:` lines, stopping after `[DONE]` (and saying so).
/// A payload that does not parse is a protocol violation; the lines up to
/// and including it are consumed.
pub fn extract_sse_frames(buffer: &mut String, backend_id: &str) -> (r: Result<(Vec<JsonText>, bool), GatewayError>)
    ensures
        ({
            let (res, consumed) = sse_from(old(buffer)@, 0, Seq::empty());
            &&& 0 <= consumed <= old(buffer)@.len()
            &&& final(buffer)@ == old(buffer)@.subrange(consumed, old(buffer)@.len() as int)
            &&& match res {
                Ok((fs, done)) => r matches Ok((v, d)) && texts_of(v@) == fs && d == done,
                Err(data) => r matches Err(e) && protocol_error(
                    e,
                    backend_id@,
                    "failed to parse SSE data payload: "@ + json_error_message_of(data),
                ),
            }
        }),
{
    proof {
        reveal_strlit("data:");
    }
    let ghost b = buffer@;
    let cs = chars_of(buffer.as_str());
    let n = cs.len();
    let mut frames: Vec<JsonText> = Vec::new();
    let mut pos: usize = 0;
    assert(texts_of(frames@) =~= Seq::<Seq<char>>::empty());
    loop
        invariant
            cs@ == b,
            b == old(buffer)@,
            n == b.len(),
            pos <= n,
            sse_from(b, 0, Seq::empty()) == sse_from(b, pos as int, texts_of(frames@)),
        ensures
            pos <= n,
            next_newline(b, pos as int) is None,
            sse_from(b, 0, Seq::empty()) == sse_from(b, pos as int, texts_of(frames@)),
        decreases n - pos,
    {
        let j = match find_newline(&cs, pos) {
            None => {
                break;
            },
            Some(j) => j,
        };
        let e = trim_cr(&cs, pos, j);
        let is_data = e - pos >= 5 && cs[pos] == 'd' && cs[pos + 1] == 'a' && cs[pos + 2] == 't'
            && cs[pos + 3] == 'a' && cs[pos + 4] == ':';
        proof {
            reveal_strlit("data:");
            if e - pos >= 5 {
                if is_data {
                    assert(b.subrange(pos as int, pos + 5) =~= "data:"@);
                } else {
                    assert(b.subrange(pos as int, pos + 5) != "data:"@) by {
                        if b.subrange(pos as int, pos + 5) == "data:"@ {
                            assert(b[pos as int] == b.subrange(pos as int, pos + 5)[0]);
                            assert(b[pos + 1] == b.subrange(pos as int, pos + 5)[1]);
                            assert(b[pos + 2] == b.subrange(pos as int, pos + 5)[2]);
                            assert(b[pos + 3] == b.subrange(pos as int, pos + 5)[3]);
                            assert(b[pos + 4] == b.subrange(pos as int, pos + 5)[4]);
                        }
                    }
                }
            }
        }
        let next = j + 1;
        if is_data {
            let raw = slice_text(&cs, pos + 5, e);
            let data = trim(raw.as_str());
            if data.as_str().unicode_len() > 0 {
                if str_eq(data.as_str(), "[DONE]") {
                    *buffer = slice_text(&cs, next, n);
                    return Ok((frames, true));
                }
                match json_parse_error(data.as_str()) {
                    Some(msg) => {
                        *buffer = slice_text(&cs, next, n);
                        return Err(
                            protocol_violation(
                                backend_id,
                                "failed to parse SSE data payload: ",
                                msg.as_str(),
                            ),
                        );
                    },
                    None => {
                        let ghost before = frames@;
                        frames.push(JsonText { text: data });
                        assert(texts_of(frames@) =~= texts_of(before).push(frames@.last().text@));
                    },
                }
            }
        }
        pos = next;
    }
    *buffer = slice_text(&cs, pos, n);
    Ok((frames, false))
}

/// Takes the complete lines off the front of `buffer` and returns those
/// that are not blank, each a JSON payload. A line that does not parse is a
/// protocol violation; the lines up to and including it are consumed.
pub fn extract_ndjson_frames(buffer: &mut String, backend_id: &str) -> (r: Result<Vec<JsonText>, GatewayError>)
    ensures
        ({
            let (res, consumed) = ndjson_from(old(buffer)@, 0, Seq::empty());
            &&& 0 <= consumed <= old(buffer)@.len()
            &&& final(buffer)@ == old(buffer)@.subrange(consumed, old(buffer)@.len() as int)
            &&& match res {
                Ok(fs) => r matches Ok(v) && texts_of(v@) == fs,
                Err(line) => r matches Err(e) && protocol_error(
                    e,
                    backend_id@,
                    "failed to parse NDJSON payload: "@ + json_error_message_of(line),
                ),
            }
        }),
{
    let ghost b = buffer@;
    let cs = chars_of(buffer.as_str());
    let n = cs.len();
    let mut frames: Vec<JsonText> = Vec::new();
    let mut pos: usize = 0;
    assert(texts_of(frames@) =~= Seq::<Seq<char>>::empty());
    loop
        invariant
            cs@ == b,
            b == old(buffer)@,
            n == b.len(),
            pos <= n,
            ndjson_from(b, 0, Seq::empty()) == ndjson_from(b, pos as int, texts_of(frames@)),
        ensures
            pos <= n,
            next_newline(b, pos as int) is None,
            ndjson_from(b, 0, Seq::empty()) == ndjson_from(b, pos as int, texts_of(frames@)),
        decreases n - pos,
    {
        let j = match find_newline(&cs, pos) {
            None => {
                break;
            },
            Some(j) => j,
        };
        let e = trim_cr(&cs, pos, j);
        let line = slice_text(&cs, pos, e);
        let next = j + 1;
        if !is_blank(line.as_str()) {
            match json_parse_error(line.as_str()) {
                Some(msg) => {
                    *buffer = slice_text(&cs, next, n);
                    return Err(
                        protocol_violation(backend_id, "failed to parse NDJSON payload: ", msg.as_str()),
                    );
                },
                None => {
                    let ghost before = frames@;
                    frames.push(JsonText { text: line });
                    assert(texts_of(frames@) =~= texts_of(before).push(frames@.last().text@));
                },
            }
        }
        pos = next;
    }
    *buffer = slice_text(&cs, pos, n);
    Ok(frames)
}

} // verus!
