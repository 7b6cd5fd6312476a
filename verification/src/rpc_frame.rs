//! The framing of the JSON-RPC messages exchanged with the Copilot
//! process: each message is a block of `Name: value` header lines ended by
//! an empty line, then a body of the length that `Content-Length` gives.
//! Requests and replies are matched by id.
use vstd::prelude::*;

use crate::error::{plain, plain_error, GatewayError, GatewayErrorKind};
use crate::json_tree::{as_u64, deref, get, member, u64_value, JsonNode};
use crate::metadata::{parse_u64, parse_u64_spec, Metadata};
use crate::text::{ascii_lower_seq, decimal, decimal_seq, to_ascii_lowercase, trim, trim_seq};
use crate::wire_out::{fields_view, jstr, jview, object, push_field, JView, JsonField, JsonOut};

verus! {

/// `s` without the line breaks at its end.
pub open spec fn strip_line_end(s: Seq<char>) -> Seq<char>
    decreases s.len(),
{
    if s.len() > 0 && (s.last() == '\r' || s.last() == '\n') {
        strip_line_end(s.drop_last())
    } else {
        s
    }
}

/// The position of the first `:` in `s` from `i` on.
pub open spec fn colon_from(s: Seq<char>, i: int) -> Option<int>
    decreases s.len() - i,
{
    if i < 0 || i >= s.len() {
        None
    } else if s[i] == ':' {
        Some(i)
    } else {
        colon_from(s, i + 1)
    }
}

/// A header line, once read.
#[derive(Debug)]
pub enum HeaderLine {
    /// The empty line that ends the headers.
    End,
    /// A header: its name, trimmed and in lower case, and its value,
    /// trimmed.
    Header { name: String, value: String },
    /// A line without a colon, which is skipped.
    Other,
}

/// What a header line says.
pub open spec fn header_line_is(line: Seq<char>, h: HeaderLine) -> bool {
    let s = strip_line_end(line);
    if s.len() == 0 {
        h is End
    } else {
        match colon_from(s, 0) {
            Some(i) => h matches HeaderLine::Header { name, value } && name@ == ascii_lower_seq(
                trim_seq(s.take(i)),
            ) && value@ == trim_seq(s.skip(i + 1)),
            None => h is Other,
        }
    }
}

/// Reads a header line.
pub fn parse_header_line(line: &str) -> (h: HeaderLine)
    ensures
        header_line_is(line@, h),
{
    let mut n = line.unicode_len();
    assert(line@.take(n as int) =~= line@);
    while n > 0 && (line.get_char(n - 1) == '\r' || line.get_char(n - 1) == '\n')
        invariant
            n <= line@.len(),
            strip_line_end(line@) == strip_line_end(line@.take(n as int)),
        decreases n,
    {
        assert(line@.take(n as int).drop_last() =~= line@.take(n - 1));
        n = n - 1;
    }
    let ghost s = line@.take(n as int);
    assert(strip_line_end(s) == s);
    if n == 0 {
        return HeaderLine::End;
    }
    let mut i: usize = 0;
    while i < n
        invariant
            i <= n,
            n <= line@.len(),
            s == line@.take(n as int),
            strip_line_end(line@) == s,
            s.len() > 0,
            colon_from(s, 0) == colon_from(s, i as int),
        decreases n - i,
    {
        if line.get_char(i) == ':' {
            let name_part = line.substring_char(0, i);
            let value_part = line.substring_char(i + 1, n);
            assert(name_part@ =~= s.take(i as int));
            assert(value_part@ =~= s.skip(i + 1));
            let name_trimmed = trim(name_part);
            let name = to_ascii_lowercase(name_trimmed.as_str());
            let value = trim(value_part);
            return HeaderLine::Header { name, value };
        }
        i = i + 1;
    }
    HeaderLine::Other
}

/// What `str::parse::<usize>` returns.
pub open spec fn parse_usize_spec(s: Seq<char>) -> Option<usize> {
    match parse_u64_spec(s) {
        Some(n) => if n <= usize::MAX {
            Some(n as usize)
        } else {
            None
        },
        None => None,
    }
}

/// The length of the body that the headers announce; headers without a
/// readable `content-length` are a protocol violation.
pub fn content_length(headers: &Metadata) -> (r: Result<usize, GatewayError>)
    ensures
        match headers.get_spec("content-length"@) {
            Some(v) => match parse_usize_spec(v) {
                Some(n) => r == Ok::<usize, GatewayError>(n),
                None => r matches Err(e) && plain_error(
                    e,
                    GatewayErrorKind::ProtocolViolation,
                    "rpc message missing content-length"@,
                ),
            },
            None => r matches Err(e) && plain_error(
                e,
                GatewayErrorKind::ProtocolViolation,
                "rpc message missing content-length"@,
            ),
        },
{
    let parsed = match headers.get("content-length") {
        Some(v) => match parse_u64(v.as_str()) {
            Some(n) => if n <= usize::MAX as u64 {
                Some(n as usize)
            } else {
                None
            },
            None => None,
        },
        None => None,
    };
    match parsed {
        Some(n) => Ok(n),
        None => Err(plain(GatewayErrorKind::ProtocolViolation, "rpc message missing content-length")),
    }
}

/// The header block of a message whose body is `body_len` bytes long.
pub fn frame_header(body_len: usize) -> (r: String)
    ensures
        r@ == "Content-Length: "@ + decimal_seq(body_len as nat) + "\r\n\r\n"@,
{
    let mut r = String::from_str("Content-Length: ");
    let digits = decimal(body_len as u64);
    r.append(digits.as_str());
    r.append("\r\n\r\n");
    r
}

/// A request: the protocol version, its id, the method and its
/// parameters.
pub open spec fn request_view(id: u64, method: Seq<char>, params: JView) -> JView {
    JView::Object(
        seq![
            ("jsonrpc"@, JView::Str("2.0"@)),
            ("id"@, JView::Number(id)),
            ("method"@, JView::Str(method)),
            ("params"@, params),
        ],
    )
}

/// A request to send.
pub fn request_body(id: u64, method: &str, params: JsonOut) -> (o: JsonOut)
    ensures
        jview(o) == request_view(id, method@, jview(params)),
{
    let mut fs: Vec<JsonField> = Vec::new();
    push_field(&mut fs, "jsonrpc", jstr("2.0"));
    push_field(&mut fs, "id", JsonOut::Number(id));
    push_field(&mut fs, "method", jstr(method));
    push_field(&mut fs, "params", params);
    assert(fields_view(fs@) =~= seq![
        ("jsonrpc"@, JView::Str("2.0"@)),
        ("id"@, JView::Number(id)),
        ("method"@, JView::Str(method@)),
        ("params"@, jview(params)),
    ]);
    object(fs)
}

/// A notification: the protocol version, the method and its parameters.
pub open spec fn notification_view(method: Seq<char>, params: JView) -> JView {
    JView::Object(
        seq![("jsonrpc"@, JView::Str("2.0"@)), ("method"@, JView::Str(method)), ("params"@, params)],
    )
}

/// A notification to send.
pub fn notification_body(method: &str, params: JsonOut) -> (o: JsonOut)
    ensures
        jview(o) == notification_view(method@, jview(params)),
{
    let mut fs: Vec<JsonField> = Vec::new();
    push_field(&mut fs, "jsonrpc", jstr("2.0"));
    push_field(&mut fs, "method", jstr(method));
    push_field(&mut fs, "params", params);
    assert(fields_view(fs@) =~= seq![
        ("jsonrpc"@, JView::Str("2.0"@)),
        ("method"@, JView::Str(method@)),
        ("params"@, jview(params)),
    ]);
    object(fs)
}

/// What a message read while waiting for the reply to a request means.
pub enum RpcReply<'a> {
    /// It answers another request.
    Skip,
    /// It reports an error.
    Failed(GatewayError),
    /// It answers with this result (none where it gives none).
    Result(Option<&'a JsonNode>),
}

/// The refusal of a request whose reply reports `error`.
pub open spec fn rpc_error_message(method: Seq<char>, error: Seq<char>) -> Seq<char> {
    "copilot rpc error for '"@ + method + "': "@ + error
}

/// The message `msg` read while waiting for the reply to the request `id`
/// of `method`: one with another id is skipped; one with an error fails
/// the request, quoting the error's JSON text; else its result is the
/// reply.
pub fn classify_reply<'a>(msg: &'a JsonNode, id: u64, method: &str) -> (r: RpcReply<'a>)
    ensures
        u64_value(member(Some(*msg), "id"@)) != Some(id) ==> r is Skip,
        u64_value(member(Some(*msg), "id"@)) == Some(id) ==> match member(Some(*msg), "error"@) {
            Some(err) => r matches RpcReply::Failed(e) && plain_error(
                e,
                GatewayErrorKind::BackendPermanent,
                rpc_error_message(method@, err.text@),
            ),
            None => r matches RpcReply::Result(res) && deref(res) == member(Some(*msg), "result"@),
        },
{
    let m = Some(msg);
    if as_u64(get(m, "id")) != Some(id) {
        return RpcReply::Skip;
    }
    match get(m, "error") {
        Some(err) => {
            let mut text = String::from_str("copilot rpc error for '");
            text.append(method);
            text.append("': ");
            text.append(err.text.as_str());
            RpcReply::Failed(plain(GatewayErrorKind::BackendPermanent, text.as_str()))
        },
        None => RpcReply::Result(get(m, "result")),
    }
}

proof fn lemma_decimal_digits(n: nat)
    ensures
        decimal_seq(n).len() > 0,
        crate::metadata::all_digits(decimal_seq(n)),
        crate::metadata::digits_value(decimal_seq(n)) == n,
        !crate::text::is_ws(decimal_seq(n)[0]),
        !crate::text::is_ws(decimal_seq(n).last()),
        decimal_seq(n)[0] != '+',
    decreases n,
{
    let c = crate::text::digit_char(n % 10);
    assert((c as u32) == n % 10 + 48);
    if n < 10 {
        assert(seq![c].drop_last() =~= Seq::<char>::empty());
        assert(crate::metadata::digits_value(seq![c]) == crate::metadata::digits_value(Seq::<char>::empty()) * 10 + ((c as u32) - 48));
    }
    if n >= 10 {
        lemma_decimal_digits(n / 10);
        let s = decimal_seq(n / 10);
        let t = s.push(crate::text::digit_char(n % 10));
        assert(t.drop_last() =~= s);
        assert(t[0] == s[0]);
        assert((n / 10) * 10 + n % 10 == n) by (nonlinear_arith);
        assert forall|i: int| 0 <= i < t.len() implies '0' <= #[trigger] t[i] <= '9' by {
            if i < s.len() {
                assert(t[i] == s[i]);
            }
        }
    }
}

/// The first line of the header block of a message whose body is `n`
/// bytes long.
pub open spec fn length_line(n: nat) -> Seq<char> {
    "Content-Length: "@ + decimal_seq(n) + "\r\n"@
}

/// Law: the header block that `frame_header` writes reads back as one
/// `content-length` header whose value parses to the body's length,
/// followed by the empty line that ends the headers.
pub proof fn lemma_frame_header_reads_back(n: usize)
    ensures
        "Content-Length: "@ + decimal_seq(n as nat) + "\r\n\r\n"@ == length_line(n as nat) + "\r\n"@,
        ({
            let s = strip_line_end(length_line(n as nat));
            &&& s.len() > 0
            &&& colon_from(s, 0) == Some(14int)
            &&& ascii_lower_seq(trim_seq(s.take(14))) == "content-length"@
            &&& trim_seq(s.skip(15)) == decimal_seq(n as nat)
        }),
        parse_usize_spec(decimal_seq(n as nat)) == Some(n),
        strip_line_end("\r\n"@).len() == 0,
{
    reveal_strlit("Content-Length: ");
    reveal_strlit("\r\n");
    reveal_strlit("\r\n\r\n");
    reveal_strlit("content-length");
    let d = decimal_seq(n as nat);
    lemma_decimal_digits(n as nat);
    let head = "Content-Length: "@;
    assert(head.len() == 16);
    assert(head + d + "\r\n\r\n"@ =~= head + d + "\r\n"@ + "\r\n"@);
    let line = length_line(n as nat);
    let s = head + d;
    assert(line.drop_last() =~= head + d + seq!['\r']);
    assert((head + d + seq!['\r']).drop_last() =~= s);
    assert(s.last() == d.last());
    assert(strip_line_end(s) == s);
    assert(strip_line_end(head + d + seq!['\r']) == strip_line_end(s));
    assert(strip_line_end(line) == s);
    assert forall|i: int| 0 <= i < 14 implies s[i] != ':' by {
        assert(s[i] == head[i]);
    }
    assert(s[14] == ':');
    reveal_with_fuel(colon_from, 16);
    assert(colon_from(s, 0) == Some(14int));
    let name = s.take(14);
    assert(name =~= "Content-Length"@) by {
        reveal_strlit("Content-Length");
    }
    reveal_strlit("Content-Length");
    assert(!crate::text::is_ws(name[0]));
    assert(!crate::text::is_ws(name.last()));
    assert(crate::text::trim_start_seq(name) == name);
    assert(crate::text::trim_end_seq(name) == name);
    assert(ascii_lower_seq(name) =~= "content-length"@);
    let value = s.skip(15);
    assert(value =~= seq![' '] + d);
    assert(value.drop_first() =~= d);
    assert(crate::text::trim_start_seq(d) == d);
    assert(crate::text::trim_start_seq(value) == d);
    assert(crate::text::trim_end_seq(d) == d);
    assert("\r\n"@.drop_last() =~= seq!['\r']);
    assert(seq!['\r'].drop_last() =~= Seq::<char>::empty());
    assert(strip_line_end(seq!['\r']) == strip_line_end(Seq::<char>::empty()));
}

} // verus!
