//! Floating panel windows: the label and URL a panel window is created
//! with, the payload sent when a panel asks to dock back, and the registry
//! of open panels. Creating and closing the actual windows happens outside
//! the library.
use vstd::prelude::*;

use crate::json::hex_digit_char;
use crate::msg::quoted;
use crate::text::{dec_rep_int, i32_to_dec, push_char};

verus! {

// ---------------------------------------------------------------------------
// Percent-encoding
// ---------------------------------------------------------------------------

/// The bytes a URL component keeps as they are: ASCII alphanumerics and
/// `-`, `.`, `_`, `~`.
pub open spec fn safe_byte(b: u8) -> bool {
    ||| (48 <= b && b <= 57)
    ||| (65 <= b && b <= 90)
    ||| (97 <= b && b <= 122)
    ||| b == 45
    ||| b == 46
    ||| b == 95
    ||| b == 126
}

/// How one byte appears in a percent-encoded URL component.
pub open spec fn enc_byte(b: u8) -> Seq<char> {
    if safe_byte(b) {
        seq![b as char]
    } else {
        seq!['%', hex_digit_char(b as int / 16), hex_digit_char(b as int % 16)]
    }
}

pub open spec fn percent_bytes(bs: Seq<u8>) -> Seq<char>
    decreases bs.len(),
{
    if bs.len() == 0 {
        Seq::empty()
    } else {
        enc_byte(bs[0]) + percent_bytes(bs.drop_first())
    }
}

/// A string percent-encoded byte by byte over its UTF-8 form.
pub open spec fn url_encoded(s: Seq<char>) -> Seq<char> {
    percent_bytes(vstd::utf8::encode_utf8(s))
}

/// Relies on urlencoding::encode: percent-encodes every byte of the
/// string's UTF-8 form except ASCII alphanumerics and `-`, `.`, `_`, `~`,
/// with upper-case hexadecimal digits.
#[verifier::external_body]
pub fn url_encode(s: &str) -> (r: String)
    ensures
        r@ == url_encoded(s@),
{
    urlencoding::encode(s).into_owned()
}

// ---------------------------------------------------------------------------
// Labels, URLs, payloads
// ---------------------------------------------------------------------------

/// The window label a panel's tab gets.
pub open spec fn window_label_text(tab_id: Seq<char>) -> Seq<char> {
    ("float_")@ + tab_id
}

/// Form the window label for a tab.
pub fn window_label_for(tab_id: &str) -> (r: String)
    ensures
        r@ == window_label_text(tab_id@),
{
    let mut s = String::from_str("float_");
    s.append(tab_id);
    s
}

pub open spec fn opt_ref_view(o: Option<&String>) -> Option<Seq<char>> {
    match o {
        Some(s) => Some(s@),
        None => None,
    }
}

/// The URL a floating panel window opens: the tab to render, and optionally
/// the graph file and project root, percent-encoded.
pub open spec fn floating_url_text(
    tab_id: Seq<char>,
    graph_path: Option<Seq<char>>,
    project_root: Option<Seq<char>>,
) -> Seq<char> {
    ("index.html?floating_panel=")@ + tab_id + (match graph_path {
        Some(p) => ("&graph_path=")@ + url_encoded(p),
        None => Seq::empty(),
    }) + (match project_root {
        Some(p) => ("&project_root=")@ + url_encoded(p),
        None => Seq::empty(),
    })
}

/// Compose the URL for a floating panel window.
pub fn floating_window_url(
    tab_id: &str,
    graph_path: Option<&String>,
    project_root: Option<&String>,
) -> (r: String)
    ensures
        r@ == floating_url_text(tab_id@, opt_ref_view(graph_path), opt_ref_view(project_root)),
{
    let mut s = String::from_str("index.html?floating_panel=");
    s.append(tab_id);
    match graph_path {
        Some(p) => {
            s.append("&graph_path=");
            let enc = url_encode(p.as_str());
            s.append(enc.as_str());
        },
        None => {},
    }
    match project_root {
        Some(p) => {
            s.append("&project_root=");
            let enc = url_encode(p.as_str());
            s.append(enc.as_str());
        },
        None => {},
    }
    proof {
        assert(s@ =~= floating_url_text(
            tab_id@,
            opt_ref_view(graph_path),
            opt_ref_view(project_root),
        ));
    }
    s
}

/// The JSON payload of a dock-back notification.
pub open spec fn redock_payload_text(tab_id: Seq<char>, x: int, y: int) -> Seq<char> {
    ("{\"tab_id\":")@ + quoted(tab_id) + (",\"x\":")@ + dec_rep_int(x) + (",\"y\":")@ + dec_rep_int(
        y,
    ) + ("}")@
}

/// Compose the dock-back payload for a tab at the given position.
pub fn redock_payload(tab_id: &str, x: i32, y: i32) -> (r: String)
    ensures
        r@ == redock_payload_text(tab_id@, x as int, y as int),
{
    let mut s = String::from_str("{\"tab_id\":");
    push_char(&mut s, '"');
    crate::json::append_escaped(&mut s, tab_id);
    push_char(&mut s, '"');
    s.append(",\"x\":");
    let xs = i32_to_dec(x);
    s.append(xs.as_str());
    s.append(",\"y\":");
    let ys = i32_to_dec(y);
    s.append(ys.as_str());
    s.append("}");
    proof {
        assert(s@ =~= redock_payload_text(tab_id@, x as int, y as int));
    }
    s
}

/// What creating a floating window reports back.
pub struct FloatingWindowResult {
    pub window_label: String,
    pub tab_id: String,
}

impl FloatingWindowResult {
    pub fn new(window_label: String, tab_id: String) -> (r: FloatingWindowResult)
        ensures
            r.window_label@ == window_label@,
            r.tab_id@ == tab_id@,
    {
        FloatingWindowResult { window_label, tab_id }
    }
}

// ---------------------------------------------------------------------------
// The registry of floating panels
// ---------------------------------------------------------------------------

/// An association list as the specification sees it: tab id to window label.
pub open spec fn pairs_view(v: Seq<(String, String)>) -> Seq<(Seq<char>, Seq<char>)> {
    v.map_values(|p: (String, String)| (p.0@, p.1@))
}

/// The list with every entry of the given tab removed, order kept.
pub open spec fn assoc_remove(s: Seq<(Seq<char>, Seq<char>)>, k: Seq<char>) -> Seq<
    (Seq<char>, Seq<char>),
>
    decreases s.len(),
{
    if s.len() == 0 {
        s
    } else if s[0].0 == k {
        assoc_remove(s.drop_first(), k)
    } else {
        seq![s[0]] + assoc_remove(s.drop_first(), k)
    }
}

/// The tabs, in order.
pub open spec fn assoc_keys(s: Seq<(Seq<char>, Seq<char>)>) -> Seq<Seq<char>> {
    s.map_values(|p: (Seq<char>, Seq<char>)| p.0)
}

/// Which floating panel windows exist: each open tab and its window label.
pub struct FloatingWindowsState {
    windows: Vec<(String, String)>,
}

impl View for FloatingWindowsState {
    type V = Seq<(Seq<char>, Seq<char>)>;

    closed spec fn view(&self) -> Seq<(Seq<char>, Seq<char>)> {
        pairs_view(self.windows@)
    }
}

impl FloatingWindowsState {
    /// No two entries are for the same tab.
    pub open spec fn wf(&self) -> bool {
        forall|a: int, b: int| 0 <= a < b < self@.len() ==> self@[a].0 != self@[b].0
    }

    /// A registry with no windows at all.
    pub fn new() -> (r: FloatingWindowsState)
        ensures
            r@.len() == 0,
            r.wf(),
    {
        FloatingWindowsState { windows: Vec::new() }
    }

    /// Record that a tab's panel now lives in the window with this label.
    /// Any earlier entry for the same tab is replaced.
    pub fn track(&mut self, tab_id: String, window_label: String)
        requires
            old(self).wf(),
        ensures
            final(self)@ == assoc_remove(old(self)@, tab_id@).push((tab_id@, window_label@)),
            final(self).wf(),
    {
        self.untrack(tab_id.as_str());
        let ghost removed = self@;
        self.windows.push((tab_id, window_label));
        proof {
            assert(self@ =~= removed.push((tab_id@, window_label@)));
            lemma_assoc_remove_drops_key(removed, tab_id@);
        }
    }

    /// Drop whatever entry the tab has.
    pub fn untrack(&mut self, tab_id: &str)
        requires
            old(self).wf(),
        ensures
            final(self)@ == assoc_remove(old(self)@, tab_id@),
            final(self).wf(),
            forall|a: int| 0 <= a < final(self)@.len() ==> final(self)@[a].0 != tab_id@,
    {
        let ghost orig = self@;
        let mut out: Vec<(String, String)> = Vec::new();
        let mut idx: usize = 0;
        proof {
            assert(pairs_view(out@) =~= Seq::<(Seq<char>, Seq<char>)>::empty());
            assert(orig.skip(0) =~= orig);
            assert(Seq::<(Seq<char>, Seq<char>)>::empty() + assoc_remove(orig, tab_id@)
                =~= assoc_remove(orig, tab_id@));
        }
        while idx < self.windows.len()
            invariant
                orig == pairs_view(self.windows@),
                old(self).wf(),
                orig == old(self)@,
                idx <= self.windows@.len(),
                assoc_remove(orig, tab_id@) == pairs_view(out@) + assoc_remove(
                    orig.skip(idx as int),
                    tab_id@,
                ),
                forall|a: int, b: int|
                    0 <= a < b < pairs_view(out@).len() ==> pairs_view(out@)[a].0 != pairs_view(
                        out@,
                    )[b].0,
                forall|a: int, p: int|
                    0 <= a < pairs_view(out@).len() && idx <= p < orig.len() ==> pairs_view(
                        out@,
                    )[a].0 != orig[p].0,
                forall|a: int| 0 <= a < pairs_view(out@).len() ==> pairs_view(out@)[a].0 != tab_id@,
            decreases self.windows@.len() - idx,
        {
            let ghost rest = orig.skip(idx as int);
            proof {
                assert(rest[0] == orig[idx as int]);
                assert(rest.drop_first() =~= orig.skip(idx as int + 1));
            }
            let keep = !crate::text::chars_eq_str(
                &crate::text::chars_of(self.windows[idx].0.as_str()),
                tab_id,
            );
            if keep {
                let ghost before = pairs_view(out@);
                let pair = (self.windows[idx].0.clone(), self.windows[idx].1.clone());
                out.push(pair);
                proof {
                    assert(pairs_view(out@) =~= before.push(orig[idx as int]));
                    assert(seq![orig[idx as int]] + assoc_remove(
                        orig.skip(idx as int + 1),
                        tab_id@,
                    ) =~= assoc_remove(rest, tab_id@));
                    assert(pairs_view(out@) + assoc_remove(orig.skip(idx as int + 1), tab_id@)
                        =~= before + assoc_remove(rest, tab_id@));
                }
            }
            idx = idx + 1;
        }
        proof {
            assert(orig.skip(orig.len() as int) =~= Seq::<(Seq<char>, Seq<char>)>::empty());
            assert(pairs_view(out@) + Seq::<(Seq<char>, Seq<char>)>::empty() =~= pairs_view(out@));
        }
        self.windows = out;
    }

    /// The open tabs, in the order their windows were recorded.
    pub fn list(&self) -> (r: Vec<String>)
        ensures
            r@.map_values(|s: String| s@) == assoc_keys(self@),
    {
        let mut out: Vec<String> = Vec::new();
        let mut idx: usize = 0;
        while idx < self.windows.len()
            invariant
                idx <= self.windows@.len(),
                out@.len() == idx,
                out@.map_values(|s: String| s@) =~= assoc_keys(pairs_view(self.windows@)).subrange(
                    0,
                    idx as int,
                ),
            decreases self.windows@.len() - idx,
        {
            let ghost before = out@;
            out.push(self.windows[idx].0.clone());
            idx = idx + 1;
            proof {
                assert(idx <= self.windows@.len());
                assert(pairs_view(self.windows@).len() == self.windows@.len());
                assert(assoc_keys(pairs_view(self.windows@)).len() == self.windows@.len());
                assert(before.len() == idx - 1);
                assert(out@ == before.push(out@[idx - 1]));
                let m1 = out@.map_values(|s: String| s@);
                let m2 = assoc_keys(pairs_view(self.windows@)).subrange(0, idx as int);
                assert forall|m: int| 0 <= m < m1.len() implies m1[m] == m2[m] by {
                    assert(pairs_view(self.windows@)[m] == (
                        self.windows@[m].0@,
                        self.windows@[m].1@,
                    ));
                    assert(assoc_keys(pairs_view(self.windows@))[m] == pairs_view(
                        self.windows@,
                    )[m].0);
                    assert(m1[m] == out@[m]@);
                    assert(m2[m] == pairs_view(self.windows@)[m].0);
                    if m < idx - 1 {
                        assert(out@[m] == before[m]);
                        assert(before.map_values(|s: String| s@)[m] == before[m]@);
                    } else {
                        assert(out@[m]@ == self.windows@[m].0@);
                    }
                }
                assert(m1 =~= m2);
            }
        }
        proof {
            assert(assoc_keys(pairs_view(self.windows@)).subrange(
                0,
                self.windows@.len() as int,
            ) =~= assoc_keys(self@));
        }
        out
    }
}

impl Default for FloatingWindowsState {
    /// The registry starts empty.
    fn default() -> (r: FloatingWindowsState)
        ensures
            r@.len() == 0,
            r.wf(),
    {
        FloatingWindowsState::new()
    }
}

/// After removal, no entry carries the removed tab.
proof fn lemma_assoc_remove_drops_key(s: Seq<(Seq<char>, Seq<char>)>, k: Seq<char>)
    ensures
        forall|a: int|
            0 <= a < assoc_remove(s, k).len() ==> #[trigger] assoc_remove(s, k)[a].0 != k,
    decreases s.len(),
{
    if s.len() > 0 {
        lemma_assoc_remove_drops_key(s.drop_first(), k);
        if s[0].0 != k {
            assert forall|a: int|
                0 <= a < assoc_remove(s, k).len() implies #[trigger] assoc_remove(s, k)[a].0
                != k by {
                if a > 0 {
                    assert(assoc_remove(s, k)[a] == assoc_remove(s.drop_first(), k)[a - 1]);
                }
            }
        }
    }
}

} // verus!
