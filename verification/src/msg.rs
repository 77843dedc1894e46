//! The wire messages. Requests are composed field by field into their JSON
//! form; inbound texts are decoded into a response envelope whose `data`
//! payload is kept as raw JSON text, to be handed to the caller verbatim.
use vstd::prelude::*;

use crate::json::{
    escaped, members_first, models_of, parse_string_body, scan_members_first,
    scan_string_body, scan_ws, skip_ws, wf_members, MemberModel, RawMember,
};
use crate::text::{chars_eq_str, chars_of, push_char, string_of_char_range, string_of_chars};

verus! {

// ---------------------------------------------------------------------------
// Requests
// ---------------------------------------------------------------------------

/// An outbound request: a tag, the request id, the method name, and the
/// parameter value as raw JSON text.
pub struct IpcRequest {
    pub msg_type: String,
    pub id: String,
    pub method: String,
    pub params: String,
}

/// Mathematical content of a request.
pub struct RequestModel {
    pub msg_type: Seq<char>,
    pub id: Seq<char>,
    pub method: Seq<char>,
    pub params: Seq<char>,
}

impl View for IpcRequest {
    type V = RequestModel;

    open spec fn view(&self) -> RequestModel {
        RequestModel {
            msg_type: self.msg_type@,
            id: self.id@,
            method: self.method@,
            params: self.params@,
        }
    }
}

/// A string as it appears quoted inside a JSON document.
pub open spec fn quoted(s: Seq<char>) -> Seq<char> {
    seq!['"'] + escaped(s) + seq!['"']
}

/// The exact wire text of a request.
pub open spec fn request_text(m: RequestModel) -> Seq<char> {
    ("{\"type\":")@ + quoted(m.msg_type) + (",\"id\":")@ + quoted(m.id) + (",\"method\":")@
        + quoted(m.method) + (",\"params\":")@ + m.params + ("}")@
}

impl IpcRequest {
    /// A request carries the fixed tag, the given id, method and parameters.
    pub fn new(id: String, method: String, params: String) -> (r: IpcRequest)
        ensures
            r@.msg_type == ("request")@,
            r@.id == id@,
            r@.method == method@,
            r@.params == params@,
    {
        IpcRequest { msg_type: String::from_str("request"), id, method, params }
    }

    /// Serialize the request to its wire form.
    pub fn encode(&self) -> (out: String)
        ensures
            out@ == request_text(self@),
    {
        let mut out = String::new();
        out.append("{\"type\":");
        push_char(&mut out, '"');
        crate::json::append_escaped(&mut out, self.msg_type.as_str());
        push_char(&mut out, '"');
        out.append(",\"id\":");
        push_char(&mut out, '"');
        crate::json::append_escaped(&mut out, self.id.as_str());
        push_char(&mut out, '"');
        out.append(",\"method\":");
        push_char(&mut out, '"');
        crate::json::append_escaped(&mut out, self.method.as_str());
        push_char(&mut out, '"');
        out.append(",\"params\":");
        out.append(self.params.as_str());
        out.append("}");
        proof {
            assert(out@ =~= request_text(self@));
        }
        out
    }
}

// ---------------------------------------------------------------------------
// Responses
// ---------------------------------------------------------------------------

/// An inbound response envelope. `data` holds the raw JSON text of the
/// payload (`None` when absent or null); `error` holds the decoded error
/// string (`None` when absent or null).
pub struct IpcResponse {
    pub msg_type: String,
    pub id: String,
    pub success: bool,
    pub data: Option<String>,
    pub error: Option<String>,
}

/// Mathematical content of a response envelope.
pub struct ResponseModel {
    pub msg_type: Seq<char>,
    pub id: Seq<char>,
    pub success: bool,
    pub data: Option<Seq<char>>,
    pub error: Option<Seq<char>>,
}

pub open spec fn opt_string_view(o: Option<String>) -> Option<Seq<char>> {
    match o {
        Some(s) => Some(s@),
        None => None,
    }
}

impl View for IpcResponse {
    type V = ResponseModel;

    open spec fn view(&self) -> ResponseModel {
        ResponseModel {
            msg_type: self.msg_type@,
            id: self.id@,
            success: self.success,
            data: opt_string_view(self.data),
            error: opt_string_view(self.error),
        }
    }
}

/// Fields gathered while walking the members of a response object. The outer
/// option records whether the field has been seen at all.
pub struct FieldAcc {
    pub msg_type: Option<Seq<char>>,
    pub id: Option<Seq<char>>,
    pub success: Option<bool>,
    pub data: Option<Option<Seq<char>>>,
    pub error: Option<Option<Seq<char>>>,
}

pub open spec fn empty_fields() -> FieldAcc {
    FieldAcc { msg_type: None, id: None, success: None, data: None, error: None }
}

/// The decoded contents of a member value that is a string literal.
pub open spec fn string_value_content(s: Seq<char>, vs: int) -> Option<Seq<char>> {
    if 0 <= vs < s.len() && s[vs] == '"' {
        match parse_string_body(s, vs + 1) {
            Some(p) => Some(p.1),
            None => None,
        }
    } else {
        None
    }
}

/// The member value starting at `vs` is the literal `null`.
pub open spec fn is_null_value(s: Seq<char>, vs: int) -> bool {
    0 <= vs < s.len() && s[vs] == 'n'
}

/// The member value starting at `vs` as a boolean literal.
pub open spec fn bool_value(s: Seq<char>, vs: int) -> Option<bool> {
    if 0 <= vs < s.len() && s[vs] == 't' {
        Some(true)
    } else if 0 <= vs < s.len() && s[vs] == 'f' {
        Some(false)
    } else {
        None
    }
}

/// Account for one member of the response object: capture a known field
/// (rejecting duplicates and ill-typed values), ignore an unknown one.
pub open spec fn apply_field(s: Seq<char>, acc: FieldAcc, m: MemberModel) -> Option<FieldAcc> {
    if m.key == ("type")@ {
        if acc.msg_type is Some {
            None
        } else {
            match string_value_content(s, m.vstart) {
                Some(c) => Some(FieldAcc { msg_type: Some(c), ..acc }),
                None => None,
            }
        }
    } else if m.key == ("id")@ {
        if acc.id is Some {
            None
        } else {
            match string_value_content(s, m.vstart) {
                Some(c) => Some(FieldAcc { id: Some(c), ..acc }),
                None => None,
            }
        }
    } else if m.key == ("success")@ {
        if acc.success is Some {
            None
        } else {
            match bool_value(s, m.vstart) {
                Some(b) => Some(FieldAcc { success: Some(b), ..acc }),
                None => None,
            }
        }
    } else if m.key == ("data")@ {
        if acc.data is Some {
            None
        } else if is_null_value(s, m.vstart) {
            Some(FieldAcc { data: Some(None), ..acc })
        } else {
            Some(FieldAcc { data: Some(Some(s.subrange(m.vstart, m.vend))), ..acc })
        }
    } else if m.key == ("error")@ {
        if acc.error is Some {
            None
        } else if is_null_value(s, m.vstart) {
            Some(FieldAcc { error: Some(None), ..acc })
        } else {
            match string_value_content(s, m.vstart) {
                Some(c) => Some(FieldAcc { error: Some(Some(c)), ..acc }),
                None => None,
            }
        }
    } else {
        Some(acc)
    }
}

/// Walk all members, left to right.
pub open spec fn fold_fields(s: Seq<char>, ms: Seq<MemberModel>, acc: FieldAcc) -> Option<FieldAcc>
    decreases ms.len(),
{
    if ms.len() == 0 {
        Some(acc)
    } else {
        match apply_field(s, acc, ms[0]) {
            Some(a) => fold_fields(s, ms.drop_first(), a),
            None => None,
        }
    }
}

pub open spec fn flatten_opt(o: Option<Option<Seq<char>>>) -> Option<Seq<char>> {
    match o {
        None => None,
        Some(x) => x,
    }
}

/// What a wire text decodes to: a top-level object, carrying `type`, `id`
/// and `success` (each exactly once), with `data` and `error` optional and
/// unknown fields ignored. Anything else is not a response.
pub open spec fn parse_response_text(s: Seq<char>) -> Option<ResponseModel> {
    let i = skip_ws(s, 0);
    if 0 <= i < s.len() && s[i] == '{' {
        match members_first(s, i + 1) {
            Some(p) => {
                if skip_ws(s, p.0) == s.len() {
                    match fold_fields(s, p.1, empty_fields()) {
                        Some(acc) => {
                            if acc.msg_type is Some && acc.id is Some && acc.success is Some {
                                Some(
                                    ResponseModel {
                                        msg_type: acc.msg_type->0,
                                        id: acc.id->0,
                                        success: acc.success->0,
                                        data: flatten_opt(acc.data),
                                        error: flatten_opt(acc.error),
                                    },
                                )
                            } else {
                                None
                            }
                        },
                        None => None,
                    }
                } else {
                    None
                }
            },
            None => None,
        }
    } else {
        None
    }
}

// ---------------------------------------------------------------------------
// Executable response decoding
// ---------------------------------------------------------------------------

/// Executable counterpart of `FieldAcc`.
pub struct FieldBuild {
    pub msg_type: Option<String>,
    pub id: Option<String>,
    pub success: Option<bool>,
    pub data: Option<Option<String>>,
    pub error: Option<Option<String>>,
}

pub open spec fn opt_opt_view(o: Option<Option<String>>) -> Option<Option<Seq<char>>> {
    match o {
        Some(x) => Some(opt_string_view(x)),
        None => None,
    }
}

impl View for FieldBuild {
    type V = FieldAcc;

    open spec fn view(&self) -> FieldAcc {
        FieldAcc {
            msg_type: opt_string_view(self.msg_type),
            id: opt_string_view(self.id),
            success: opt_string_view_bool(self.success),
            data: opt_opt_view(self.data),
            error: opt_opt_view(self.error),
        }
    }
}

pub open spec fn opt_string_view_bool(o: Option<bool>) -> Option<bool> {
    o
}

/// Decode a member value that should be a string literal.
pub fn read_string_value(s: &Vec<char>, vs: usize) -> (r: Option<String>)
    requires
        vs < s@.len(),
    ensures
        match string_value_content(s@, vs as int) {
            Some(c) => r matches Some(x) && x@ == c,
            None => r is None,
        },
{
    let n: usize = s.len();
    if s[vs] == '"' {
        match scan_string_body(s, vs + 1) {
            Some(p) => Some(string_of_chars(&p.1)),
            None => None,
        }
    } else {
        None
    }
}

/// Account for one member, mirroring `apply_field`.
fn build_field(s: &Vec<char>, acc: FieldBuild, m: &RawMember) -> (r: Option<FieldBuild>)
    requires
        (m.vstart as int) < (m.vend as int),
        (m.vend as int) <= s@.len(),
    ensures
        match apply_field(s@, acc@, m@) {
            Some(a) => r matches Some(b) && b@ == a,
            None => r is None,
        },
{
    if chars_eq_str(&m.key, "type") {
        if acc.msg_type.is_some() {
            None
        } else {
            match read_string_value(s, m.vstart) {
                Some(c) => Some(FieldBuild { msg_type: Some(c), ..acc }),
                None => None,
            }
        }
    } else if chars_eq_str(&m.key, "id") {
        if acc.id.is_some() {
            None
        } else {
            match read_string_value(s, m.vstart) {
                Some(c) => Some(FieldBuild { id: Some(c), ..acc }),
                None => None,
            }
        }
    } else if chars_eq_str(&m.key, "success") {
        if acc.success.is_some() {
            None
        } else {
            let c = s[m.vstart];
            if c == 't' {
                Some(FieldBuild { success: Some(true), ..acc })
            } else if c == 'f' {
                Some(FieldBuild { success: Some(false), ..acc })
            } else {
                None
            }
        }
    } else if chars_eq_str(&m.key, "data") {
        if acc.data.is_some() {
            None
        } else if s[m.vstart] == 'n' {
            Some(FieldBuild { data: Some(None), ..acc })
        } else {
            let raw = string_of_char_range(s, m.vstart, m.vend);
            Some(FieldBuild { data: Some(Some(raw)), ..acc })
        }
    } else if chars_eq_str(&m.key, "error") {
        if acc.error.is_some() {
            None
        } else if s[m.vstart] == 'n' {
            Some(FieldBuild { error: Some(None), ..acc })
        } else {
            match read_string_value(s, m.vstart) {
                Some(c) => Some(FieldBuild { error: Some(Some(c)), ..acc }),
                None => None,
            }
        }
    } else {
        Some(acc)
    }
}

/// Decode one inbound wire text as a response envelope.
pub fn parse_response(text: &str) -> (r: Option<IpcResponse>)
    ensures
        match parse_response_text(text@) {
            Some(q) => r matches Some(resp) && resp@ == q,
            None => r is None,
        },
{
    let s = chars_of(text);
    let i = scan_ws(&s, 0);
    if !(i < s.len() && s[i] == '{') {
        return None;
    }
    let (end, ms) = match scan_members_first(&s, i + 1) {
        Some(p) => p,
        None => { return None },
    };
    let j = scan_ws(&s, end);
    if j != s.len() {
        return None;
    }
    let ghost all = models_of(ms@);
    let mut acc = FieldBuild { msg_type: None, id: None, success: None, data: None, error: None };
    let mut k: usize = 0;
    proof {
        assert(acc@ =~= empty_fields());
        assert(all.skip(0) =~= all);
    }
    while k < ms.len()
        invariant
            s@ == text@,
            skip_ws(s@, 0) == i as int,
            i < s@.len() && s@[i as int] == '{',
            members_first(s@, i as int + 1) == Some((end as int, all)),
            skip_ws(s@, end as int) == s@.len(),
            all == models_of(ms@),
            wf_members(ms@, s@.len() as int),
            k <= ms@.len(),
            fold_fields(s@, all, empty_fields()) == fold_fields(s@, all.skip(k as int), acc@),
        decreases ms@.len() - k,
    {
        let ghost pre = acc@;
        proof {
            assert(all.skip(k as int).len() > 0);
            assert(all.skip(k as int)[0] == all[k as int]);
            assert(all[k as int] == ms@[k as int]@);
            assert(all.skip(k as int).drop_first() =~= all.skip(k as int + 1));
        }
        acc = match build_field(&s, acc, &ms[k]) {
            Some(a) => a,
            None => { return None },
        };
        k = k + 1;
    }
    proof {
        assert(all.skip(ms@.len() as int) =~= Seq::<MemberModel>::empty());
    }
    let msg_type: String = match &acc.msg_type {
        Some(t) => t.clone(),
        None => { return None },
    };
    let id: String = match &acc.id {
        Some(t) => t.clone(),
        None => { return None },
    };
    let success: bool = match &acc.success {
        Some(b) => *b,
        None => { return None },
    };
    let data: Option<String> = match &acc.data {
        Some(Some(d)) => Some(d.clone()),
        Some(None) => None,
        None => None,
    };
    let error: Option<String> = match &acc.error {
        Some(Some(e)) => Some(e.clone()),
        Some(None) => None,
        None => None,
    };
    Some(IpcResponse { msg_type, id, success, data, error })
}

/// The payload handed to a caller on success: the raw `data` text, or the
/// empty object when the response carried none.
pub open spec fn payload_or_empty(d: Option<Seq<char>>) -> Seq<char> {
    match d {
        Some(t) => t,
        None => ("{}")@,
    }
}

/// The message handed to a caller on failure: the `error` string, or a fixed
/// fallback when the response carried none.
pub open spec fn error_or_unknown(e: Option<Seq<char>>) -> Seq<char> {
    match e {
        Some(t) => t,
        None => ("Unknown error")@,
    }
}

impl IpcResponse {
    /// The success payload of this response.
    pub fn payload(&self) -> (r: String)
        ensures
            r@ == payload_or_empty(self@.data),
    {
        match &self.data {
            Some(d) => d.clone(),
            None => String::from_str("{}"),
        }
    }

    /// The failure message of this response.
    pub fn failure_message(&self) -> (r: String)
        ensures
            r@ == error_or_unknown(self@.error),
    {
        match &self.error {
            Some(e) => e.clone(),
            None => String::from_str("Unknown error"),
        }
    }
}

} // verus!
