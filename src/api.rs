use vstd::prelude::*;
use vstd::utf8::{decode_utf8, valid_utf8};
use crate::registry::Registry;

verus! {

/// The bytes that standard base64 text `s` decodes to; none where it is not valid.
pub uninterp spec fn base64_decoded(s: Seq<char>) -> Option<Seq<u8>>;

/// Relies on base64::decode (standard alphabet): the bytes that the text encodes,
/// or an error where it is not valid base64.
#[verifier::external_body]
fn decode_base64(s: &str) -> (r: Option<Vec<u8>>)
    ensures
        match r {
            Some(v) => base64_decoded(s@) == Some(v@),
            None => base64_decoded(s@) is None,
        },
{
    base64::decode(s.as_bytes()).ok()
}

/// Relies on String::from_utf8: the text that the bytes encode, or an error where
/// they are not valid UTF-8.
#[verifier::external_body]
fn text_from_utf8(b: Vec<u8>) -> (r: Option<String>)
    ensures
        match r {
            Some(s) => valid_utf8(b@) && s@ == decode_utf8(b@),
            None => !valid_utf8(b@),
        },
{
    String::from_utf8(b).ok()
}

/// Why a call payload could not be read.
#[derive(PartialEq, Eq, Structural, Clone, Copy, Debug)]
pub enum PayloadFault {
    NotBase64,
    NotUtf8,
}

/// Why a call through the call API was not dispatched.
#[derive(Clone, Debug)]
pub enum CallError {
    /// No contract is registered at this address.
    NoSuchContract(String),
    /// The payload is not base64-encoded UTF-8 text.
    MalformedPayload(PayloadFault),
}

/// A query that a contract sends to another contract while it runs.
#[derive(Clone, Debug)]
pub enum QueryRequest {
    /// A query addressed to the contract at `contract_addr`, with a JSON message.
    Smart { contract_addr: String, msg: Vec<u8> },
    /// Any other kind of query.
    Other,
}

/// Why a contract's query could not be dispatched.
#[derive(Clone, Debug)]
pub enum QueryError {
    NoSuchContract(String),
    UnsupportedRequest,
}

/// The call payload that decoded base64 bytes hold: their text, where they are UTF-8.
pub fn payload_text(decoded: Option<Vec<u8>>) -> (r: Result<String, CallError>)
    ensures
        match decoded {
            None => r matches Err(CallError::MalformedPayload(PayloadFault::NotBase64)),
            Some(b) => if valid_utf8(b@) {
                r matches Ok(t) && t@ == decode_utf8(b@)
            } else {
                r matches Err(CallError::MalformedPayload(PayloadFault::NotUtf8))
            },
        },
{
    match decoded {
        None => Err(CallError::MalformedPayload(PayloadFault::NotBase64)),
        Some(b) => match text_from_utf8(b) {
            Some(t) => Ok(t),
            None => Err(CallError::MalformedPayload(PayloadFault::NotUtf8)),
        },
    }
}

/// The JSON text that a base64 call payload carries.
pub fn decode_payload(msg: &str) -> (r: Result<String, CallError>)
    ensures
        match base64_decoded(msg@) {
            None => r matches Err(CallError::MalformedPayload(PayloadFault::NotBase64)),
            Some(b) => if valid_utf8(b) {
                r matches Ok(t) && t@ == decode_utf8(b)
            } else {
                r matches Err(CallError::MalformedPayload(PayloadFault::NotUtf8))
            },
        },
{
    payload_text(decode_base64(msg))
}

/// Checks a call to the contract at `addr` with the base64 payload `msg`, and hands
/// back the JSON text to dispatch: an unregistered address is reported first, then
/// a payload that cannot be read.
pub fn prepare_call<T>(registry: &Registry<T>, addr: &str, msg: &str) -> (r: Result<String, CallError>)
    ensures
        !registry@.contains_key(addr@) ==> (r matches Err(CallError::NoSuchContract(a)) && a@ == addr@),
        registry@.contains_key(addr@) ==> match base64_decoded(msg@) {
            None => r matches Err(CallError::MalformedPayload(PayloadFault::NotBase64)),
            Some(b) => if valid_utf8(b) {
                r matches Ok(t) && t@ == decode_utf8(b)
            } else {
                r matches Err(CallError::MalformedPayload(PayloadFault::NotUtf8))
            },
        },
{
    if !registry.contains(addr) {
        return Err(CallError::NoSuchContract(String::from_str(addr)));
    }
    decode_payload(msg)
}

/// The text of an error reported by the call API.
pub open spec fn call_error_text_spec(e: CallError) -> Seq<char> {
    match e {
        CallError::NoSuchContract(a) => "No such contract: "@ + a@,
        CallError::MalformedPayload(PayloadFault::NotBase64) => "Payload is not valid base64"@,
        CallError::MalformedPayload(PayloadFault::NotUtf8) => "Payload is not valid UTF-8"@,
    }
}

impl CallError {
    /// A line that describes the error.
    pub fn message(&self) -> (r: String)
        ensures
            r@ == call_error_text_spec(*self),
    {
        match self {
            CallError::NoSuchContract(a) => {
                let mut s = String::from_str("No such contract: ");
                s.append(a.as_str());
                s
            },
            CallError::MalformedPayload(PayloadFault::NotBase64) => String::from_str(
                "Payload is not valid base64",
            ),
            CallError::MalformedPayload(PayloadFault::NotUtf8) => String::from_str(
                "Payload is not valid UTF-8",
            ),
        }
    }
}

/// The JSON string-literal form of one character.
pub open spec fn json_char_spec(c: char) -> Seq<char> {
    if c == '"' {
        seq!['\\', '"']
    } else if c == '\\' {
        seq!['\\', '\\']
    } else if c == '\n' {
        seq!['\\', 'n']
    } else if c == '\r' {
        seq!['\\', 'r']
    } else if c == '\t' {
        seq!['\\', 't']
    } else if (c as u32) < 32 {
        seq!['\\', 'u', '0', '0'] + seq![
            "0123456789abcdef"@[(c as u32) as int / 16],
            "0123456789abcdef"@[(c as u32) as int % 16],
        ]
    } else {
        seq![c]
    }
}

/// The text `s` as a JSON string literal, quotes included.
pub open spec fn json_string_spec(s: Seq<char>) -> Seq<char> {
    seq!['"'] + json_body_spec(s) + seq!['"']
}

/// The escaped characters of `s`, between the quotes of a JSON string literal.
pub open spec fn json_body_spec(s: Seq<char>) -> Seq<char>
    decreases s.len(),
{
    if s.len() == 0 {
        Seq::empty()
    } else {
        json_body_spec(s.drop_last()) + json_char_spec(s.last())
    }
}

/// Appends the JSON string literal of `s` to `out`.
pub fn push_json_string(out: &mut String, s: &str)
    ensures
        final(out)@ == old(out)@ + json_string_spec(s@),
{
    let ghost start = out@;
    let hex = "0123456789abcdef";
    proof {
        reveal_strlit("\"");
        reveal_strlit("0123456789abcdef");
    }
    out.append("\"");
    let n = s.unicode_len();
    let mut i: usize = 0;
    while i < n
        invariant
            n == s@.len(),
            i <= n,
            hex@ == "0123456789abcdef"@,
            hex@.len() == 16,
            out@ == start + seq!['"'] + json_body_spec(s@.subrange(0, i as int)),
        decreases n - i,
    {
        let c = s.get_char(i);
        assert(s@.subrange(0, i + 1).drop_last() =~= s@.subrange(0, i as int));
        assert(s@.subrange(0, i + 1).last() == c);
        let ghost before = out@;
        if c == '"' {
            out.append("\\\"");
            proof { reveal_strlit("\\\""); }
            assert(out@ =~= before + json_char_spec(c));
        } else if c == '\\' {
            out.append("\\\\");
            proof { reveal_strlit("\\\\"); }
            assert(out@ =~= before + json_char_spec(c));
        } else if c == '\n' {
            out.append("\\n");
            proof { reveal_strlit("\\n"); }
            assert(out@ =~= before + json_char_spec(c));
        } else if c == '\r' {
            out.append("\\r");
            proof { reveal_strlit("\\r"); }
            assert(out@ =~= before + json_char_spec(c));
        } else if c == '\t' {
            out.append("\\t");
            proof { reveal_strlit("\\t"); }
            assert(out@ =~= before + json_char_spec(c));
        } else if (c as u32) < 32 {
            let code = c as u32;
            out.append("\\u00");
            proof { reveal_strlit("\\u00"); }
            let hi = hex.substring_char((code / 16) as usize, (code / 16) as usize + 1);
            let lo = hex.substring_char((code % 16) as usize, (code % 16) as usize + 1);
            assert(hi@ =~= seq![hex@[(code / 16) as int]]);
            assert(lo@ =~= seq![hex@[(code % 16) as int]]);
            out.append(hi);
            out.append(lo);
            assert(out@ =~= before + json_char_spec(c));
        } else {
            let one = s.substring_char(i, i + 1);
            assert(one@ =~= seq![c]);
            out.append(one);
            assert(out@ =~= before + json_char_spec(c));
        }
        assert(out@ =~= start + seq!['"'] + json_body_spec(s@.subrange(0, i + 1)));
        i = i + 1;
    }
    assert(s@.subrange(0, n as int) =~= s@);
    out.append("\"");
    assert(out@ =~= start + json_string_spec(s@));
}

/// The call API's reply: `{"data": <result>}` for what the engine returned, or
/// `{"error": "<message>"}`.
pub open spec fn api_response_spec(r: Result<Seq<char>, Seq<char>>) -> Seq<char> {
    match r {
        Ok(d) => "{\"data\": "@ + d + "}"@,
        Err(m) => "{\"error\": "@ + json_string_spec(m) + "}"@,
    }
}

/// Formats the call API's reply.
pub fn api_response(r: &Result<String, String>) -> (s: String)
    ensures
        s@ == api_response_spec(match r {
            Ok(d) => Ok(d@),
            Err(m) => Err(m@),
        }),
{
    match r {
        Ok(d) => {
            let mut s = String::from_str("{\"data\": ");
            s.append(d.as_str());
            s.append("}");
            s
        },
        Err(m) => {
            let mut s = String::from_str("{\"error\": ");
            push_json_string(&mut s, m.as_str());
            s.append("}");
            s
        },
    }
}

/// Where a contract's query goes: a smart query to a registered contract is
/// dispatched to it; one to an unregistered address, or any other kind, is refused.
pub fn route_query<T>(registry: &Registry<T>, req: &QueryRequest) -> (r: Result<String, QueryError>)
    ensures
        match req {
            QueryRequest::Smart { contract_addr, msg } => if registry@.contains_key(contract_addr@) {
                r matches Ok(a) && a@ == contract_addr@
            } else {
                r matches Err(QueryError::NoSuchContract(a)) && a@ == contract_addr@
            },
            QueryRequest::Other => r matches Err(QueryError::UnsupportedRequest),
        },
{
    match req {
        QueryRequest::Smart { contract_addr, msg: _ } => {
            if registry.contains(contract_addr.as_str()) {
                Ok(contract_addr.clone())
            } else {
                Err(QueryError::NoSuchContract(contract_addr.clone()))
            }
        },
        QueryRequest::Other => Err(QueryError::UnsupportedRequest),
    }
}

} // verus!
