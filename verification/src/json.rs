//! The wire grammar: a JSON reader sufficient for the engine's message
//! envelope, and a JSON string escaper for composing requests.
//!
//! The grammar is specified over `Seq<char>` by recursive descent; each
//! specification function returns the index just past the parsed form, or
//! `None` when the text does not match. The executable reader mirrors the
//! specification branch for branch, so every accept/reject decision and
//! every captured field is pinned by the specification.
use vstd::prelude::*;

verus! {

broadcast use vstd::utf8::char_u32_cast;

// ---------------------------------------------------------------------------
// Character classes
// ---------------------------------------------------------------------------

pub open spec fn is_ws_char(c: char) -> bool {
    c == ' ' || c == '\t' || c == '\n' || c == '\r'
}

pub open spec fn is_digit_char(c: char) -> bool {
    '0' <= c && c <= '9'
}

pub open spec fn is_hex_char(c: char) -> bool {
    ('0' <= c && c <= '9') || ('a' <= c && c <= 'f') || ('A' <= c && c <= 'F')
}

/// Numeric value of a hexadecimal digit.
pub open spec fn hex_val(c: char) -> int {
    if '0' <= c && c <= '9' {
        c as int - '0' as int
    } else if 'a' <= c && c <= 'f' {
        10 + (c as int - 'a' as int)
    } else {
        10 + (c as int - 'A' as int)
    }
}

/// The character a single-character escape stands for.
pub open spec fn simple_escape(c: char) -> Option<char> {
    if c == '"' {
        Some('"')
    } else if c == '\\' {
        Some('\\')
    } else if c == '/' {
        Some('/')
    } else if c == 'b' {
        Some('\u{0008}')
    } else if c == 'f' {
        Some('\u{000C}')
    } else if c == 'n' {
        Some('\n')
    } else if c == 'r' {
        Some('\r')
    } else if c == 't' {
        Some('\t')
    } else {
        None
    }
}

/// The character with the given Unicode scalar value.
pub open spec fn code_char(v: int) -> char {
    (v as u32) as char
}

/// Value of the four hex digits at `i`..`i+3`.
pub open spec fn hex4_val(s: Seq<char>, i: int) -> int {
    4096 * hex_val(s[i]) + 256 * hex_val(s[i + 1]) + 16 * hex_val(s[i + 2]) + hex_val(s[i + 3])
}

pub open spec fn hex4_ok(s: Seq<char>, i: int) -> bool {
    &&& is_hex_char(s[i])
    &&& is_hex_char(s[i + 1])
    &&& is_hex_char(s[i + 2])
    &&& is_hex_char(s[i + 3])
}

// ---------------------------------------------------------------------------
// Scanning helpers
// ---------------------------------------------------------------------------

/// Index of the first character at or after `i` that is not whitespace.
pub open spec fn skip_ws(s: Seq<char>, i: int) -> int
    decreases s.len() - i,
{
    if 0 <= i < s.len() && is_ws_char(s[i]) {
        skip_ws(s, i + 1)
    } else {
        i
    }
}

/// Index of the first character at or after `i` that is not a decimal digit.
pub open spec fn skip_digits(s: Seq<char>, i: int) -> int
    decreases s.len() - i,
{
    if 0 <= i < s.len() && is_digit_char(s[i]) {
        skip_digits(s, i + 1)
    } else {
        i
    }
}

/// Parse the body of a JSON string, starting just after the opening quote.
/// Returns the index just past the closing quote, and the decoded contents.
pub open spec fn parse_string_body(s: Seq<char>, i: int) -> Option<(int, Seq<char>)>
    decreases s.len() - i,
{
    if !(0 <= i < s.len()) {
        None
    } else {
        let c = s[i];
        if c == '"' {
            Some((i + 1, Seq::empty()))
        } else if c == '\\' {
            if i + 1 < s.len() {
                let e = s[i + 1];
                if e == 'u' {
                    if s.len() - i > 5 && hex4_ok(s, i + 2) {
                        let v = hex4_val(s, i + 2);
                        if 0xD800 <= v < 0xDC00 {
                            // high surrogate: a low surrogate escape must follow
                            if s.len() - i > 11 && s[i + 6] == '\\' && s[i + 7] == 'u' && hex4_ok(
                                s,
                                i + 8,
                            ) {
                                let w = hex4_val(s, i + 8);
                                if 0xDC00 <= w < 0xE000 {
                                    let code = 0x10000 + (v - 0xD800) * 0x400 + (w - 0xDC00);
                                    match parse_string_body(s, i + 12) {
                                        Some(p) => Some((p.0, seq![code_char(code)] + p.1)),
                                        None => None,
                                    }
                                } else {
                                    None
                                }
                            } else {
                                None
                            }
                        } else if 0xDC00 <= v < 0xE000 {
                            // lone low surrogate
                            None
                        } else {
                            match parse_string_body(s, i + 6) {
                                Some(p) => Some((p.0, seq![code_char(v)] + p.1)),
                                None => None,
                            }
                        }
                    } else {
                        None
                    }
                } else {
                    match simple_escape(e) {
                        Some(d) => match parse_string_body(s, i + 2) {
                            Some(p) => Some((p.0, seq![d] + p.1)),
                            None => None,
                        },
                        None => None,
                    }
                }
            } else {
                None
            }
        } else if (c as u32) < 0x20 {
            // control characters must be escaped
            None
        } else {
            match parse_string_body(s, i + 1) {
                Some(p) => Some((p.0, seq![c] + p.1)),
                None => None,
            }
        }
    }
}

/// Parse a JSON number starting at `i` (at a minus sign or a digit).
/// Returns the index just past the number.
pub open spec fn parse_number(s: Seq<char>, i: int) -> Option<int> {
    let j = if 0 <= i < s.len() && s[i] == '-' {
        i + 1
    } else {
        i
    };
    if 0 <= j < s.len() && is_digit_char(s[j]) {
        let k = if s[j] == '0' {
            j + 1
        } else {
            skip_digits(s, j)
        };
        let k2 = if k < s.len() && s[k] == '.' && k + 1 < s.len() && is_digit_char(s[k + 1]) {
            skip_digits(s, k + 1)
        } else {
            k
        };
        let k3 = if k2 < s.len() && (s[k2] == 'e' || s[k2] == 'E') {
            let k4 = if k2 + 1 < s.len() && (s[k2 + 1] == '+' || s[k2 + 1] == '-') {
                k2 + 2
            } else {
                k2 + 1
            };
            if k4 < s.len() && is_digit_char(s[k4]) {
                skip_digits(s, k4)
            } else {
                k2
            }
        } else {
            k2
        };
        Some(k3)
    } else {
        None
    }
}

// ---------------------------------------------------------------------------
// Values, objects, arrays
// ---------------------------------------------------------------------------

/// One member of a JSON object: the decoded key, and the span of the raw
/// value text (start inclusive, end exclusive; no surrounding whitespace).
pub struct MemberModel {
    pub key: Seq<char>,
    pub vstart: int,
    pub vend: int,
}

/// Parse one JSON value starting at `i` (no leading whitespace).
pub open spec fn parse_value(s: Seq<char>, i: int) -> Option<int>
    decreases s.len() - i, 0int,
{
    if !(0 <= i < s.len()) {
        None
    } else {
        let c = s[i];
        if c == '"' {
            match parse_string_body(s, i + 1) {
                Some(p) => Some(p.0),
                None => None,
            }
        } else if c == '{' {
            match members_first(s, i + 1) {
                Some(p) => Some(p.0),
                None => None,
            }
        } else if c == '[' {
            array_first(s, i + 1)
        } else if c == 't' {
            if s.len() - i > 3 && s[i + 1] == 'r' && s[i + 2] == 'u' && s[i + 3] == 'e' {
                Some(i + 4)
            } else {
                None
            }
        } else if c == 'f' {
            if s.len() - i > 4 && s[i + 1] == 'a' && s[i + 2] == 'l' && s[i + 3] == 's' && s[i + 4]
                == 'e' {
                Some(i + 5)
            } else {
                None
            }
        } else if c == 'n' {
            if s.len() - i > 3 && s[i + 1] == 'u' && s[i + 2] == 'l' && s[i + 3] == 'l' {
                Some(i + 4)
            } else {
                None
            }
        } else if c == '-' || is_digit_char(c) {
            parse_number(s, i)
        } else {
            None
        }
    }
}

/// After `{`: whitespace, then `}` or the first member.
pub open spec fn members_first(s: Seq<char>, i: int) -> Option<(int, Seq<MemberModel>)>
    decreases s.len() - i, 1int,
{
    if !(0 <= i < s.len()) {
        None
    } else if is_ws_char(s[i]) {
        members_first(s, i + 1)
    } else if s[i] == '}' {
        Some((i + 1, Seq::empty()))
    } else {
        member_key(s, i)
    }
}

/// At (or before) the quoted key of a member.
pub open spec fn member_key(s: Seq<char>, i: int) -> Option<(int, Seq<MemberModel>)>
    decreases s.len() - i, 0int,
{
    if !(0 <= i < s.len()) {
        None
    } else if is_ws_char(s[i]) {
        member_key(s, i + 1)
    } else if s[i] == '"' {
        match parse_string_body(s, i + 1) {
            Some(p) => {
                if i < p.0 <= s.len() {
                    member_colon(s, p.0, p.1)
                } else {
                    None
                }
            },
            None => None,
        }
    } else {
        None
    }
}

/// Between a member's key and its `:`.
pub open spec fn member_colon(s: Seq<char>, i: int, key: Seq<char>) -> Option<
    (int, Seq<MemberModel>),
>
    decreases s.len() - i, 1int,
{
    if !(0 <= i < s.len()) {
        None
    } else if is_ws_char(s[i]) {
        member_colon(s, i + 1, key)
    } else if s[i] == ':' {
        member_value(s, i + 1, key)
    } else {
        None
    }
}

/// Between a member's `:` and its value.
pub open spec fn member_value(s: Seq<char>, i: int, key: Seq<char>) -> Option<
    (int, Seq<MemberModel>),
>
    decreases s.len() - i, 2int,
{
    if !(0 <= i < s.len()) {
        None
    } else if is_ws_char(s[i]) {
        member_value(s, i + 1, key)
    } else {
        match parse_value(s, i) {
            Some(e) => {
                if i < e <= s.len() {
                    members_more(s, e, MemberModel { key: key, vstart: i, vend: e })
                } else {
                    None
                }
            },
            None => None,
        }
    }
}

/// After one member: `,` and another member, or `}`.
pub open spec fn members_more(s: Seq<char>, i: int, m: MemberModel) -> Option<
    (int, Seq<MemberModel>),
>
    decreases s.len() - i, 1int,
{
    if !(0 <= i < s.len()) {
        None
    } else if is_ws_char(s[i]) {
        members_more(s, i + 1, m)
    } else if s[i] == '}' {
        Some((i + 1, seq![m]))
    } else if s[i] == ',' {
        match member_key(s, i + 1) {
            Some(p) => Some((p.0, seq![m] + p.1)),
            None => None,
        }
    } else {
        None
    }
}

/// After `[`: whitespace, then `]` or the first element.
pub open spec fn array_first(s: Seq<char>, i: int) -> Option<int>
    decreases s.len() - i, 2int,
{
    if !(0 <= i < s.len()) {
        None
    } else if is_ws_char(s[i]) {
        array_first(s, i + 1)
    } else if s[i] == ']' {
        Some(i + 1)
    } else {
        match parse_value(s, i) {
            Some(e) => {
                if i < e <= s.len() {
                    array_more(s, e)
                } else {
                    None
                }
            },
            None => None,
        }
    }
}

/// After one element: `,` and another element, or `]`.
pub open spec fn array_more(s: Seq<char>, i: int) -> Option<int>
    decreases s.len() - i, 1int,
{
    if !(0 <= i < s.len()) {
        None
    } else if is_ws_char(s[i]) {
        array_more(s, i + 1)
    } else if s[i] == ']' {
        Some(i + 1)
    } else if s[i] == ',' {
        array_value(s, i + 1)
    } else {
        None
    }
}

/// Between a `,` and the next array element.
pub open spec fn array_value(s: Seq<char>, i: int) -> Option<int>
    decreases s.len() - i, 2int,
{
    if !(0 <= i < s.len()) {
        None
    } else if is_ws_char(s[i]) {
        array_value(s, i + 1)
    } else {
        match parse_value(s, i) {
            Some(e) => {
                if i < e <= s.len() {
                    array_more(s, e)
                } else {
                    None
                }
            },
            None => None,
        }
    }
}

/// The whole of `s` is one JSON value, possibly surrounded by whitespace.
pub open spec fn is_json_value_text(s: Seq<char>) -> bool {
    let i = skip_ws(s, 0);
    match parse_value(s, i) {
        Some(e) => skip_ws(s, e) == s.len(),
        None => false,
    }
}

// ---------------------------------------------------------------------------
// Executable scanners, mirroring the grammar above
// ---------------------------------------------------------------------------

/// One member as the executable reader returns it.
pub struct RawMember {
    pub key: Vec<char>,
    pub vstart: usize,
    pub vend: usize,
}

impl View for RawMember {
    type V = MemberModel;

    open spec fn view(&self) -> MemberModel {
        MemberModel { key: self.key@, vstart: self.vstart as int, vend: self.vend as int }
    }
}

/// The member list as the specification sees it.
pub open spec fn models_of(ms: Seq<RawMember>) -> Seq<MemberModel> {
    ms.map_values(|m: RawMember| m@)
}

/// Every member's value span lies inside a text of length `n`.
pub open spec fn wf_members(ms: Seq<RawMember>, n: int) -> bool {
    forall|k: int|
        0 <= k < ms.len() ==> ((#[trigger] ms[k]).vstart as int) < (ms[k].vend as int) && (
        ms[k].vend as int) <= n
}

/// Relies on std's char::from_u32: `Some` exactly for values that are valid
/// Unicode scalar values (not surrogates, at most 0x10FFFF), holding the
/// character with that scalar value.
#[verifier::external_body]
fn char_from_u32(v: u32) -> (r: Option<char>)
    ensures
        r is Some <==> (v < 0xD800 || (0xE000 <= v && v <= 0x10FFFF)),
        r matches Some(c) ==> c as u32 == v,
{
    char::from_u32(v)
}

fn ws_test(c: char) -> (b: bool)
    ensures
        b == is_ws_char(c),
{
    c == ' ' || c == '\t' || c == '\n' || c == '\r'
}

fn digit_test(c: char) -> (b: bool)
    ensures
        b == is_digit_char(c),
{
    let v: u32 = c as u32;
    48 <= v && v <= 57
}

fn hex_test(c: char) -> (b: bool)
    ensures
        b == is_hex_char(c),
{
    let v: u32 = c as u32;
    (48 <= v && v <= 57) || (97 <= v && v <= 102) || (65 <= v && v <= 70)
}

fn hex_value(c: char) -> (r: u32)
    requires
        is_hex_char(c),
    ensures
        r == hex_val(c),
        r < 16,
{
    let v: u32 = c as u32;
    if 48 <= v && v <= 57 {
        v - 48
    } else if 97 <= v && v <= 102 {
        10 + (v - 97)
    } else {
        10 + (v - 65)
    }
}

fn hex4_test(s: &Vec<char>, i: usize) -> (b: bool)
    requires
        i + 4 <= s@.len(),
    ensures
        b == hex4_ok(s@, i as int),
{
    let n: usize = s.len();
    hex_test(s[i]) && hex_test(s[i + 1]) && hex_test(s[i + 2]) && hex_test(s[i + 3])
}

fn hex4_value(s: &Vec<char>, i: usize) -> (r: u32)
    requires
        i + 4 <= s@.len(),
        hex4_ok(s@, i as int),
    ensures
        r == hex4_val(s@, i as int),
        r <= 0xFFFF,
{
    let n: usize = s.len();
    4096 * hex_value(s[i]) + 256 * hex_value(s[i + 1]) + 16 * hex_value(s[i + 2]) + hex_value(
        s[i + 3],
    )
}

fn escape_of(e: char) -> (r: Option<char>)
    ensures
        r == simple_escape(e),
{
    if e == '"' {
        Some('"')
    } else if e == '\\' {
        Some('\\')
    } else if e == '/' {
        Some('/')
    } else if e == 'b' {
        Some('\u{0008}')
    } else if e == 'f' {
        Some('\u{000C}')
    } else if e == 'n' {
        Some('\n')
    } else if e == 'r' {
        Some('\r')
    } else if e == 't' {
        Some('\t')
    } else {
        None
    }
}

/// Advance past whitespace.
pub fn scan_ws(s: &Vec<char>, i: usize) -> (r: usize)
    requires
        i <= s@.len(),
    ensures
        r as int == skip_ws(s@, i as int),
        i <= r <= s@.len(),
    decreases s@.len() - i,
{
    let n: usize = s.len();
    if i < n && ws_test(s[i]) {
        scan_ws(s, i + 1)
    } else {
        i
    }
}

/// Advance past decimal digits.
pub fn scan_digits(s: &Vec<char>, i: usize) -> (r: usize)
    requires
        i <= s@.len(),
    ensures
        r as int == skip_digits(s@, i as int),
        i <= r <= s@.len(),
    decreases s@.len() - i,
{
    let n: usize = s.len();
    if i < n && digit_test(s[i]) {
        scan_digits(s, i + 1)
    } else {
        i
    }
}

/// Read a JSON string body, returning the end index and decoded contents.
pub fn scan_string_body(s: &Vec<char>, i: usize) -> (r: Option<(usize, Vec<char>)>)
    requires
        i <= s@.len(),
    ensures
        match parse_string_body(s@, i as int) {
            Some(q) => {
                &&& r matches Some(p)
                &&& q.0 == p.0 as int
                &&& q.1 == p.1@
                &&& i < p.0
                &&& p.0 <= s@.len()
            },
            None => r is None,
        },
    decreases s@.len() - i,
{
    let n: usize = s.len();
    if i >= n {
        return None;
    }
    let c = s[i];
    if c == '"' {
        Some((i + 1, Vec::new()))
    } else if c == '\\' {
        if i + 1 < n {
            let e = s[i + 1];
            if e == 'u' {
                if n - i > 5 && hex4_test(s, i + 2) {
                    let v: u32 = hex4_value(s, i + 2);
                    if 0xD800 <= v && v < 0xDC00 {
                        if n - i > 11 && s[i + 6] == '\\' && s[i + 7] == 'u' && hex4_test(s, i + 8)
                        {
                            let w: u32 = hex4_value(s, i + 8);
                            if 0xDC00 <= w && w < 0xE000 {
                                let code: u32 = 0x10000 + (v - 0xD800) * 0x400 + (w - 0xDC00);
                                match scan_string_body(s, i + 12) {
                                    Some(p) => {
                                        let (end, mut rest) = p;
                                        let ghost r0 = rest@;
                                        match char_from_u32(code) {
                                            Some(ch) => {
                                                rest.insert(0, ch);
                                                proof {
                                                    assert((code as int) as u32 == code);
                                                    vstd::utf8::char_u32_cast(ch, code);
                                                    assert(code_char(code as int) == ch);
                                                    assert(rest@ =~= seq![ch] + r0);
                                                }
                                                Some((end, rest))
                                            },
                                            None => {
                                                proof {
                                                    assert(false);
                                                }
                                                None
                                            },
                                        }
                                    },
                                    None => None,
                                }
                            } else {
                                None
                            }
                        } else {
                            None
                        }
                    } else if 0xDC00 <= v && v < 0xE000 {
                        None
                    } else {
                        match scan_string_body(s, i + 6) {
                            Some(p) => {
                                let (end, mut rest) = p;
                                let ghost r0 = rest@;
                                match char_from_u32(v) {
                                    Some(ch) => {
                                        rest.insert(0, ch);
                                        proof {
                                            assert((v as int) as u32 == v);
                                            vstd::utf8::char_u32_cast(ch, v);
                                            assert(code_char(v as int) == ch);
                                            assert(rest@ =~= seq![ch] + r0);
                                        }
                                        Some((end, rest))
                                    },
                                    None => {
                                        proof {
                                            assert(false);
                                        }
                                        None
                                    },
                                }
                            },
                            None => None,
                        }
                    }
                } else {
                    None
                }
            } else {
                match escape_of(e) {
                    Some(d) => match scan_string_body(s, i + 2) {
                        Some(p) => {
                            let (end, mut rest) = p;
                            let ghost r0 = rest@;
                            rest.insert(0, d);
                            proof {
                                assert(rest@ =~= seq![d] + r0);
                            }
                            Some((end, rest))
                        },
                        None => None,
                    },
                    None => None,
                }
            }
        } else {
            None
        }
    } else if (c as u32) < 0x20 {
        None
    } else {
        match scan_string_body(s, i + 1) {
            Some(p) => {
                let (end, mut rest) = p;
                let ghost r0 = rest@;
                rest.insert(0, c);
                proof {
                    assert(rest@ =~= seq![c] + r0);
                }
                Some((end, rest))
            },
            None => None,
        }
    }
}

/// Read a JSON number, returning the end index.
pub fn scan_number(s: &Vec<char>, i: usize) -> (r: Option<usize>)
    requires
        i <= s@.len(),
    ensures
        match parse_number(s@, i as int) {
            Some(q) => r matches Some(e) && e as int == q && e <= s@.len(),
            None => r is None,
        },
{
    let n: usize = s.len();
    let j: usize = if i < n && s[i] == '-' {
        i + 1
    } else {
        i
    };
    if j < n && digit_test(s[j]) {
        let k: usize = if s[j] == '0' {
            j + 1
        } else {
            scan_digits(s, j)
        };
        let k2: usize = if k < n && s[k] == '.' && k + 1 < n && digit_test(s[k + 1]) {
            scan_digits(s, k + 1)
        } else {
            k
        };
        let k3: usize = if k2 < n && (s[k2] == 'e' || s[k2] == 'E') {
            let k4: usize = if k2 + 1 < n && (s[k2 + 1] == '+' || s[k2 + 1] == '-') {
                k2 + 2
            } else {
                k2 + 1
            };
            if k4 < n && digit_test(s[k4]) {
                scan_digits(s, k4)
            } else {
                k2
            }
        } else {
            k2
        };
        Some(k3)
    } else {
        None
    }
}

/// Read one JSON value, returning the end index.
pub fn scan_value(s: &Vec<char>, i: usize) -> (r: Option<usize>)
    requires
        i <= s@.len(),
    ensures
        match parse_value(s@, i as int) {
            Some(q) => r matches Some(e) && e as int == q && e <= s@.len(),
            None => r is None,
        },
    decreases s@.len() - i, 0int,
{
    let n: usize = s.len();
    if i >= n {
        return None;
    }
    let c = s[i];
    if c == '"' {
        match scan_string_body(s, i + 1) {
            Some(p) => Some(p.0),
            None => None,
        }
    } else if c == '{' {
        match scan_members_first(s, i + 1) {
            Some(p) => Some(p.0),
            None => None,
        }
    } else if c == '[' {
        scan_array_first(s, i + 1)
    } else if c == 't' {
        if n - i > 3 && s[i + 1] == 'r' && s[i + 2] == 'u' && s[i + 3] == 'e' {
            Some(i + 4)
        } else {
            None
        }
    } else if c == 'f' {
        if n - i > 4 && s[i + 1] == 'a' && s[i + 2] == 'l' && s[i + 3] == 's' && s[i + 4] == 'e' {
            Some(i + 5)
        } else {
            None
        }
    } else if c == 'n' {
        if n - i > 3 && s[i + 1] == 'u' && s[i + 2] == 'l' && s[i + 3] == 'l' {
            Some(i + 4)
        } else {
            None
        }
    } else if c == '-' || digit_test(c) {
        scan_number(s, i)
    } else {
        None
    }
}

/// Read an object's members, starting just after the `{`.
pub fn scan_members_first(s: &Vec<char>, i: usize) -> (r: Option<(usize, Vec<RawMember>)>)
    requires
        i <= s@.len(),
    ensures
        match members_first(s@, i as int) {
            Some(q) => {
                &&& r matches Some(p)
                &&& q.0 == p.0 as int
                &&& q.1 == models_of(p.1@)
                &&& p.0 <= s@.len()
                &&& wf_members(p.1@, s@.len() as int)
            },
            None => r is None,
        },
    decreases s@.len() - i, 1int,
{
    let n: usize = s.len();
    if i >= n {
        return None;
    }
    let c = s[i];
    if ws_test(c) {
        scan_members_first(s, i + 1)
    } else if c == '}' {
        let v: Vec<RawMember> = Vec::new();
        proof {
            assert(models_of(v@) =~= Seq::<MemberModel>::empty());
        }
        Some((i + 1, v))
    } else {
        scan_member_key(s, i)
    }
}

/// Read one member starting at (or before) its quoted key.
pub fn scan_member_key(s: &Vec<char>, i: usize) -> (r: Option<(usize, Vec<RawMember>)>)
    requires
        i <= s@.len(),
    ensures
        match member_key(s@, i as int) {
            Some(q) => {
                &&& r matches Some(p)
                &&& q.0 == p.0 as int
                &&& q.1 == models_of(p.1@)
                &&& p.0 <= s@.len()
                &&& wf_members(p.1@, s@.len() as int)
            },
            None => r is None,
        },
    decreases s@.len() - i, 0int,
{
    let n: usize = s.len();
    if i >= n {
        return None;
    }
    let c = s[i];
    if ws_test(c) {
        scan_member_key(s, i + 1)
    } else if c == '"' {
        match scan_string_body(s, i + 1) {
            Some(p) => {
                let (end, key) = p;
                if i < end && end <= n {
                    scan_member_colon(s, end, key)
                } else {
                    None
                }
            },
            None => None,
        }
    } else {
        None
    }
}

/// Between a member's key and its `:`.
fn scan_member_colon(s: &Vec<char>, i: usize, key: Vec<char>) -> (r: Option<
    (usize, Vec<RawMember>),
>)
    requires
        i <= s@.len(),
    ensures
        match member_colon(s@, i as int, key@) {
            Some(q) => {
                &&& r matches Some(p)
                &&& q.0 == p.0 as int
                &&& q.1 == models_of(p.1@)
                &&& p.0 <= s@.len()
                &&& wf_members(p.1@, s@.len() as int)
            },
            None => r is None,
        },
    decreases s@.len() - i, 1int,
{
    let n: usize = s.len();
    if i >= n {
        return None;
    }
    let c = s[i];
    if ws_test(c) {
        scan_member_colon(s, i + 1, key)
    } else if c == ':' {
        scan_member_value(s, i + 1, key)
    } else {
        None
    }
}

/// Between a member's `:` and its value.
fn scan_member_value(s: &Vec<char>, i: usize, key: Vec<char>) -> (r: Option<
    (usize, Vec<RawMember>),
>)
    requires
        i <= s@.len(),
    ensures
        match member_value(s@, i as int, key@) {
            Some(q) => {
                &&& r matches Some(p)
                &&& q.0 == p.0 as int
                &&& q.1 == models_of(p.1@)
                &&& p.0 <= s@.len()
                &&& wf_members(p.1@, s@.len() as int)
            },
            None => r is None,
        },
    decreases s@.len() - i, 2int,
{
    let n: usize = s.len();
    if i >= n {
        return None;
    }
    let c = s[i];
    if ws_test(c) {
        scan_member_value(s, i + 1, key)
    } else {
        match scan_value(s, i) {
            Some(e) => {
                if i < e && e <= n {
                    let m = RawMember { key: key, vstart: i, vend: e };
                    scan_members_more(s, e, m)
                } else {
                    None
                }
            },
            None => None,
        }
    }
}

/// After one member: `,` and another member, or `}`.
fn scan_members_more(s: &Vec<char>, i: usize, m: RawMember) -> (r: Option<
    (usize, Vec<RawMember>),
>)
    requires
        i <= s@.len(),
        (m.vstart as int) < (m.vend as int),
        (m.vend as int) <= s@.len(),
    ensures
        match members_more(s@, i as int, m@) {
            Some(q) => {
                &&& r matches Some(p)
                &&& q.0 == p.0 as int
                &&& q.1 == models_of(p.1@)
                &&& p.0 <= s@.len()
                &&& wf_members(p.1@, s@.len() as int)
            },
            None => r is None,
        },
    decreases s@.len() - i, 1int,
{
    let n: usize = s.len();
    if i >= n {
        return None;
    }
    let c = s[i];
    if ws_test(c) {
        scan_members_more(s, i + 1, m)
    } else if c == '}' {
        let mut v: Vec<RawMember> = Vec::new();
        v.push(m);
        proof {
            assert(models_of(v@) =~= seq![m@]);
        }
        Some((i + 1, v))
    } else if c == ',' {
        match scan_member_key(s, i + 1) {
            Some(p) => {
                let (end, mut rest) = p;
                let ghost r0 = rest@;
                rest.insert(0, m);
                proof {
                    assert(rest@ =~= seq![m] + r0);
                    assert(models_of(rest@) =~= seq![m@] + models_of(r0));
                }
                Some((end, rest))
            },
            None => None,
        }
    } else {
        None
    }
}

/// After `[`: whitespace, then `]` or the first element.
fn scan_array_first(s: &Vec<char>, i: usize) -> (r: Option<usize>)
    requires
        i <= s@.len(),
    ensures
        match array_first(s@, i as int) {
            Some(q) => r matches Some(e) && e as int == q && e <= s@.len(),
            None => r is None,
        },
    decreases s@.len() - i, 2int,
{
    let n: usize = s.len();
    if i >= n {
        return None;
    }
    let c = s[i];
    if ws_test(c) {
        scan_array_first(s, i + 1)
    } else if c == ']' {
        Some(i + 1)
    } else {
        match scan_value(s, i) {
            Some(e) => {
                if i < e && e <= n {
                    scan_array_more(s, e)
                } else {
                    None
                }
            },
            None => None,
        }
    }
}

/// After one element: `,` and another element, or `]`.
fn scan_array_more(s: &Vec<char>, i: usize) -> (r: Option<usize>)
    requires
        i <= s@.len(),
    ensures
        match array_more(s@, i as int) {
            Some(q) => r matches Some(e) && e as int == q && e <= s@.len(),
            None => r is None,
        },
    decreases s@.len() - i, 1int,
{
    let n: usize = s.len();
    if i >= n {
        return None;
    }
    let c = s[i];
    if ws_test(c) {
        scan_array_more(s, i + 1)
    } else if c == ']' {
        Some(i + 1)
    } else if c == ',' {
        scan_array_value(s, i + 1)
    } else {
        None
    }
}

/// Between a `,` and the next array element.
fn scan_array_value(s: &Vec<char>, i: usize) -> (r: Option<usize>)
    requires
        i <= s@.len(),
    ensures
        match array_value(s@, i as int) {
            Some(q) => r matches Some(e) && e as int == q && e <= s@.len(),
            None => r is None,
        },
    decreases s@.len() - i, 2int,
{
    let n: usize = s.len();
    if i >= n {
        return None;
    }
    let c = s[i];
    if ws_test(c) {
        scan_array_value(s, i + 1)
    } else {
        match scan_value(s, i) {
            Some(e) => {
                if i < e && e <= n {
                    scan_array_more(s, e)
                } else {
                    None
                }
            },
            None => None,
        }
    }
}

/// Whether a character vector holds exactly one JSON value.
pub fn is_value_chars(s: &Vec<char>) -> (b: bool)
    ensures
        b == is_json_value_text(s@),
{
    let i = scan_ws(s, 0);
    match scan_value(s, i) {
        Some(e) => {
            let j = scan_ws(s, e);
            j == s.len()
        },
        None => false,
    }
}

/// Whether a string holds exactly one JSON value.
pub fn is_value_str(t: &str) -> (b: bool)
    ensures
        b == is_json_value_text(t@),
{
    let v = crate::text::chars_of(t);
    is_value_chars(&v)
}

// ---------------------------------------------------------------------------
// Escaping (for composing requests)
// ---------------------------------------------------------------------------

/// How one character appears inside a JSON string literal.
pub open spec fn esc_char(c: char) -> Seq<char> {
    if c == '"' {
        seq!['\\', '"']
    } else if c == '\\' {
        seq!['\\', '\\']
    } else if c == '\u{0008}' {
        seq!['\\', 'b']
    } else if c == '\u{000C}' {
        seq!['\\', 'f']
    } else if c == '\n' {
        seq!['\\', 'n']
    } else if c == '\r' {
        seq!['\\', 'r']
    } else if c == '\t' {
        seq!['\\', 't']
    } else if (c as u32) < 0x20 {
        seq!['\\', 'u', '0', '0', hex_digit_char((c as int) / 16), hex_digit_char((c as int) % 16)]
    } else {
        seq![c]
    }
}

/// The character for a hexadecimal digit, upper case as serializers emit it.
pub open spec fn hex_digit_char(d: int) -> char {
    if d < 10 {
        ((48 + d) as u8) as char
    } else {
        ((55 + d) as u8) as char
    }
}

/// The first `n` characters of `s`, escaped for a JSON string literal.
pub open spec fn escaped_to(s: Seq<char>, n: int) -> Seq<char>
    decreases n,
{
    if n <= 0 {
        Seq::empty()
    } else {
        escaped_to(s, n - 1) + esc_char(s[n - 1])
    }
}

/// `s` escaped for inclusion inside a JSON string literal.
pub open spec fn escaped(s: Seq<char>) -> Seq<char> {
    escaped_to(s, s.len() as int)
}

/// Append one escaped character to `out`.
fn push_escaped_char(out: &mut String, c: char)
    ensures
        final(out)@ == old(out)@ + esc_char(c),
{
    if c == '"' {
        crate::text::push_char(out, '\\');
        crate::text::push_char(out, '"');
    } else if c == '\\' {
        crate::text::push_char(out, '\\');
        crate::text::push_char(out, '\\');
    } else if c == '\u{0008}' {
        crate::text::push_char(out, '\\');
        crate::text::push_char(out, 'b');
    } else if c == '\u{000C}' {
        crate::text::push_char(out, '\\');
        crate::text::push_char(out, 'f');
    } else if c == '\n' {
        crate::text::push_char(out, '\\');
        crate::text::push_char(out, 'n');
    } else if c == '\r' {
        crate::text::push_char(out, '\\');
        crate::text::push_char(out, 'r');
    } else if c == '\t' {
        crate::text::push_char(out, '\\');
        crate::text::push_char(out, 't');
    } else if (c as u32) < 0x20 {
        let v: u32 = c as u32;
        crate::text::push_char(out, '\\');
        crate::text::push_char(out, 'u');
        crate::text::push_char(out, '0');
        crate::text::push_char(out, '0');
        let hi: u32 = v / 16;
        let lo: u32 = v % 16;
        crate::text::push_char(out, if hi < 10 {
            (48 + hi as u8) as char
        } else {
            (55 + hi as u8) as char
        });
        crate::text::push_char(out, if lo < 10 {
            (48 + lo as u8) as char
        } else {
            (55 + lo as u8) as char
        });
    } else {
        crate::text::push_char(out, c);
    }
    proof {
        assert(out@ =~= old(out)@ + esc_char(c));
    }
}

/// Escaping builds from the left: the escaped text starts with the first
/// character's escape.
proof fn lemma_escaped_head(s: Seq<char>)
    requires
        s.len() > 0,
    ensures
        escaped(s) == esc_char(s[0]) + escaped(s.drop_first()),
{
    lemma_escaped_to_head(s, s.len() as int);
    assert(escaped(s.drop_first()) == escaped_to(s.drop_first(), s.len() - 1));
}

proof fn lemma_escaped_to_head(s: Seq<char>, n: int)
    requires
        1 <= n <= s.len(),
    ensures
        escaped_to(s, n) == esc_char(s[0]) + escaped_to(s.drop_first(), n - 1),
    decreases n,
{
    let d = s.drop_first();
    if n == 1 {
        assert(escaped_to(s, 1) == escaped_to(s, 0) + esc_char(s[0]));
        assert(escaped_to(s, 0) + esc_char(s[0]) =~= esc_char(s[0]) + escaped_to(d, 0));
    } else {
        lemma_escaped_to_head(s, n - 1);
        assert(s[n - 1] == d[n - 2]);
        assert((esc_char(s[0]) + escaped_to(d, n - 2)) + esc_char(d[n - 2]) =~= esc_char(s[0])
            + escaped_to(d, n - 1));
    }
}

/// A control character's code, as the escaper computes with it.
proof fn lemma_control_char_code(c: char)
    requires
        (c as u32) < 0x20,
    ensures
        0 <= c as int,
        (c as int) < 0x20,
        ((c as int) as u32) as char == c,
{
    assert((c as int) as u32 == c as u32);
}

/// A hexadecimal digit's character reads back as its value.
proof fn lemma_hex_digit_val(d: int)
    requires
        0 <= d < 16,
    ensures
        is_hex_char(hex_digit_char(d)),
        hex_val(hex_digit_char(d)) == d,
{
}

/// The escaper and the reader agree: an escaped string followed by a closing
/// quote decodes back to exactly the original string, wherever it stands in
/// a larger text.
#[verifier::rlimit(100)]
pub proof fn lemma_escaped_round_trip(t: Seq<char>, i: int, s: Seq<char>)
    requires
        0 <= i,
        i + escaped(s).len() + 1 <= t.len(),
        t.subrange(i, i + escaped(s).len()) == escaped(s),
        t[i + escaped(s).len()] == '"',
    ensures
        parse_string_body(t, i) == Some((i + escaped(s).len() + 1, s)),
    decreases s.len(),
{
    if s.len() == 0 {
        assert(escaped(s) =~= Seq::<char>::empty());
        assert(t[i] == '"');
    } else {
        lemma_escaped_head(s);
        let c = s[0];
        let e0 = esc_char(c);
        let rest = s.drop_first();
        let el = escaped(s).len() as int;
        let n0 = e0.len() as int;
        assert(escaped(s) == e0 + escaped(rest));
        let sub = t.subrange(i, i + el);
        assert(sub == escaped(s));
        assert forall|k: int| 0 <= k < n0 implies t[i + k] == e0[k] by {
            assert(sub[k] == t[i + k]);
            assert(escaped(s)[k] == e0[k]);
        }
        assert(t.subrange(i + n0, i + el) =~= sub.subrange(n0, el));
        assert(sub.subrange(n0, el) == escaped(s).subrange(n0, el));
        assert(escaped(s).subrange(n0, el) =~= escaped(rest));
        assert(t[i + n0 + escaped(rest).len()] == '"');
        lemma_escaped_round_trip(t, i + n0, rest);
        assert(s =~= seq![c] + rest);
        if c == '"' || c == '\\' || c == '\u{0008}' || c == '\u{000C}' || c == '\n' || c == '\r'
            || c == '\t' {
            // a two-character escape
            assert(t[i + 0] == e0[0]);
            assert(t[i + 1] == e0[1]);
            assert(t[i] == '\\');
            assert(parse_string_body(t, i + 2) == Some((i + el + 1, rest)));
        } else if (c as u32) < 0x20 {
            // \u00XX
            lemma_control_char_code(c);
            let hi = (c as int) / 16;
            let lo = (c as int) % 16;
            lemma_hex_digit_val(hi);
            lemma_hex_digit_val(lo);
            assert(t[i + 0] == e0[0]);
            assert(t[i + 1] == e0[1]);
            assert(t[i + 2] == e0[2]);
            assert(t[i + 3] == e0[3]);
            assert(t[i + 4] == e0[4]);
            assert(t[i + 5] == e0[5]);
            assert(t[i] == '\\');
            assert(hex4_ok(t, i + 2));
            assert(hex4_val(t, i + 2) == c as int);
            assert((c as int) < 0xD800);
            assert(code_char(c as int) == c);
            assert(parse_string_body(t, i + 6) == Some((i + el + 1, rest)));
        } else {
            // the character stands for itself
            assert(t[i + 0] == e0[0]);
            assert(t[i] == c);
            assert(!((c as u32) < 0x20));
            assert(parse_string_body(t, i + 1) == Some((i + el + 1, rest)));
        }
    }
}

/// Append `s`, escaped for a JSON string literal, to `out`.
pub fn append_escaped(out: &mut String, s: &str)
    ensures
        final(out)@ == old(out)@ + escaped(s@),
{
    let chars = crate::text::chars_of(s);
    let mut i: usize = 0;
    while i < chars.len()
        invariant
            chars@ == s@,
            i <= s@.len(),
            out@ == old(out)@ + escaped_to(s@, i as int),
        decreases s@.len() - i,
    {
        push_escaped_char(out, chars[i]);
        i = i + 1;
    }
}

} // verus!
