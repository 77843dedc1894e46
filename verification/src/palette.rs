//! Rules of the prefab palette: how a directory becomes a category id, which
//! entries are skipped, which files count as prefabs, and how a category's
//! metadata file is decoded and falls back to the directory name. Walking
//! the file system itself happens outside the library.
use vstd::prelude::*;

use crate::json::{
    members_first, models_of, scan_members_first, scan_ws, skip_ws, wf_members, MemberModel,
    RawMember,
};
use crate::msg::{
    flatten_opt, is_null_value, opt_string_view, string_value_content,
};
use crate::text::{chars_eq_str, chars_of, ends_with_seq, push_char, str_ends_with};

verus! {

// ---------------------------------------------------------------------------
// Category metadata
// ---------------------------------------------------------------------------

/// Metadata a category folder may carry in its marker file.
pub struct CategoryMeta {
    pub name: String,
    pub icon: Option<String>,
    pub description: Option<String>,
}

/// Mathematical content of category metadata.
pub struct CategoryMetaModel {
    pub name: Seq<char>,
    pub icon: Option<Seq<char>>,
    pub description: Option<Seq<char>>,
}

impl View for CategoryMeta {
    type V = CategoryMetaModel;

    open spec fn view(&self) -> CategoryMetaModel {
        CategoryMetaModel {
            name: self.name@,
            icon: opt_string_view(self.icon),
            description: opt_string_view(self.description),
        }
    }
}

impl CategoryMeta {
    pub fn new(name: String, icon: Option<String>, description: Option<String>) -> (r:
        CategoryMeta)
        ensures
            r@.name == name@,
            r@.icon == opt_string_view(icon),
            r@.description == opt_string_view(description),
    {
        CategoryMeta { name, icon, description }
    }
}

/// Fields gathered while walking a metadata object's members.
pub struct MetaAcc {
    pub name: Option<Seq<char>>,
    pub icon: Option<Option<Seq<char>>>,
    pub description: Option<Option<Seq<char>>>,
}

pub open spec fn empty_meta_fields() -> MetaAcc {
    MetaAcc { name: None, icon: None, description: None }
}

/// Account for one member: `name` must be a string, `icon` and
/// `description` a string or null; duplicates are rejected and unknown
/// members ignored.
pub open spec fn apply_meta_field(s: Seq<char>, acc: MetaAcc, m: MemberModel) -> Option<MetaAcc> {
    if m.key == ("name")@ {
        if acc.name is Some {
            None
        } else {
            match string_value_content(s, m.vstart) {
                Some(c) => Some(MetaAcc { name: Some(c), ..acc }),
                None => None,
            }
        }
    } else if m.key == ("icon")@ {
        if acc.icon is Some {
            None
        } else if is_null_value(s, m.vstart) {
            Some(MetaAcc { icon: Some(None), ..acc })
        } else {
            match string_value_content(s, m.vstart) {
                Some(c) => Some(MetaAcc { icon: Some(Some(c)), ..acc }),
                None => None,
            }
        }
    } else if m.key == ("description")@ {
        if acc.description is Some {
            None
        } else if is_null_value(s, m.vstart) {
            Some(MetaAcc { description: Some(None), ..acc })
        } else {
            match string_value_content(s, m.vstart) {
                Some(c) => Some(MetaAcc { description: Some(Some(c)), ..acc }),
                None => None,
            }
        }
    } else {
        Some(acc)
    }
}

pub open spec fn fold_meta_fields(s: Seq<char>, ms: Seq<MemberModel>, acc: MetaAcc) -> Option<
    MetaAcc,
>
    decreases ms.len(),
{
    if ms.len() == 0 {
        Some(acc)
    } else {
        match apply_meta_field(s, acc, ms[0]) {
            Some(a) => fold_meta_fields(s, ms.drop_first(), a),
            None => None,
        }
    }
}

/// What a metadata text decodes to: a top-level object with a `name` string,
/// and optional `icon` and `description` strings.
pub open spec fn parse_meta_text(s: Seq<char>) -> Option<CategoryMetaModel> {
    let i = skip_ws(s, 0);
    if 0 <= i < s.len() && s[i] == '{' {
        match members_first(s, i + 1) {
            Some(p) => {
                if skip_ws(s, p.0) == s.len() {
                    match fold_meta_fields(s, p.1, empty_meta_fields()) {
                        Some(acc) => {
                            if acc.name is Some {
                                Some(
                                    CategoryMetaModel {
                                        name: acc.name->0,
                                        icon: flatten_opt(acc.icon),
                                        description: flatten_opt(acc.description),
                                    },
                                )
                            } else {
                                None
                            }
                        },
                        None => None,
                    }
                } else {
                    None
                }
            },
            None => None,
        }
    } else {
        None
    }
}

/// Executable counterpart of `MetaAcc`.
pub struct MetaBuild {
    pub name: Option<String>,
    pub icon: Option<Option<String>>,
    pub description: Option<Option<String>>,
}

impl View for MetaBuild {
    type V = MetaAcc;

    open spec fn view(&self) -> MetaAcc {
        MetaAcc {
            name: opt_string_view(self.name),
            icon: crate::msg::opt_opt_view(self.icon),
            description: crate::msg::opt_opt_view(self.description),
        }
    }
}

/// Account for one member, mirroring `apply_meta_field`.
fn build_meta_field(s: &Vec<char>, acc: MetaBuild, m: &RawMember) -> (r: Option<MetaBuild>)
    requires
        (m.vstart as int) < (m.vend as int),
        (m.vend as int) <= s@.len(),
    ensures
        match apply_meta_field(s@, acc@, m@) {
            Some(a) => r matches Some(b) && b@ == a,
            None => r is None,
        },
{
    if chars_eq_str(&m.key, "name") {
        if acc.name.is_some() {
            None
        } else {
            match crate::msg::read_string_value(s, m.vstart) {
                Some(c) => Some(MetaBuild { name: Some(c), ..acc }),
                None => None,
            }
        }
    } else if chars_eq_str(&m.key, "icon") {
        if acc.icon.is_some() {
            None
        } else if s[m.vstart] == 'n' {
            Some(MetaBuild { icon: Some(None), ..acc })
        } else {
            match crate::msg::read_string_value(s, m.vstart) {
                Some(c) => Some(MetaBuild { icon: Some(Some(c)), ..acc }),
                None => None,
            }
        }
    } else if chars_eq_str(&m.key, "description") {
        if acc.description.is_some() {
            None
        } else if s[m.vstart] == 'n' {
            Some(MetaBuild { description: Some(None), ..acc })
        } else {
            match crate::msg::read_string_value(s, m.vstart) {
                Some(c) => Some(MetaBuild { description: Some(Some(c)), ..acc }),
                None => None,
            }
        }
    } else {
        Some(acc)
    }
}

/// Decode a category metadata text.
pub fn parse_category_meta(text: &str) -> (r: Option<CategoryMeta>)
    ensures
        match parse_meta_text(text@) {
            Some(q) => r matches Some(meta) && meta@ == q,
            None => r is None,
        },
{
    let s = chars_of(text);
    let i = scan_ws(&s, 0);
    if !(i < s.len() && s[i] == '{') {
        return None;
    }
    let (end, ms) = match scan_members_first(&s, i + 1) {
        Some(p) => p,
        None => { return None },
    };
    let j = scan_ws(&s, end);
    if j != s.len() {
        return None;
    }
    let ghost all = models_of(ms@);
    let mut acc = MetaBuild { name: None, icon: None, description: None };
    let mut k: usize = 0;
    proof {
        assert(acc@ =~= empty_meta_fields());
        assert(all.skip(0) =~= all);
    }
    while k < ms.len()
        invariant
            s@ == text@,
            skip_ws(s@, 0) == i as int,
            i < s@.len() && s@[i as int] == '{',
            members_first(s@, i as int + 1) == Some((end as int, all)),
            skip_ws(s@, end as int) == s@.len(),
            all == models_of(ms@),
            wf_members(ms@, s@.len() as int),
            k <= ms@.len(),
            fold_meta_fields(s@, all, empty_meta_fields()) == fold_meta_fields(
                s@,
                all.skip(k as int),
                acc@,
            ),
        decreases ms@.len() - k,
    {
        proof {
            assert(all.skip(k as int)[0] == all[k as int]);
            assert(all[k as int] == ms@[k as int]@);
            assert(all.skip(k as int).drop_first() =~= all.skip(k as int + 1));
        }
        acc = match build_meta_field(&s, acc, &ms[k]) {
            Some(a) => a,
            None => { return None },
        };
        k = k + 1;
    }
    proof {
        assert(all.skip(ms@.len() as int) =~= Seq::<MemberModel>::empty());
    }
    let name: String = match &acc.name {
        Some(t) => t.clone(),
        None => { return None },
    };
    let icon: Option<String> = match &acc.icon {
        Some(Some(d)) => Some(d.clone()),
        Some(None) => None,
        None => None,
    };
    let description: Option<String> = match &acc.description {
        Some(Some(d)) => Some(d.clone()),
        Some(None) => None,
        None => None,
    };
    Some(CategoryMeta { name, icon, description })
}

// ---------------------------------------------------------------------------
// Scanning rules
// ---------------------------------------------------------------------------

/// A path separator becomes an underscore in a category id.
pub open spec fn sep_char(c: char) -> char {
    if c == '\\' || c == '/' {
        '_'
    } else {
        c
    }
}

/// A relative path with each separator turned into an underscore.
pub open spec fn underscored(s: Seq<char>) -> Seq<char>
    decreases s.len(),
{
    if s.len() == 0 {
        Seq::empty()
    } else {
        underscored(s.drop_last()).push(sep_char(s.last()))
    }
}

/// The id of a category: its relative path with separators replaced, or
/// `root` for the palette root itself.
pub open spec fn category_id_chars(rel: Seq<char>) -> Seq<char> {
    if rel.len() == 0 {
        ("root")@
    } else {
        underscored(rel)
    }
}

/// Form a category id from a path relative to the palette root.
pub fn category_id_of(relative_path: &str) -> (r: String)
    ensures
        r@ == category_id_chars(relative_path@),
{
    let v = chars_of(relative_path);
    if v.len() == 0 {
        return String::from_str("root");
    }
    let mut out = String::new();
    let mut k: usize = 0;
    while k < v.len()
        invariant
            v@ == relative_path@,
            k <= v@.len(),
            out@ == underscored(v@.subrange(0, k as int)),
        decreases v@.len() - k,
    {
        let c = v[k];
        push_char(&mut out, if c == '\\' || c == '/' {
            '_'
        } else {
            c
        });
        k = k + 1;
        proof {
            let pre = v@.subrange(0, k as int);
            assert(pre.drop_last() =~= v@.subrange(0, k as int - 1));
            assert(out@ =~= underscored(pre));
        }
    }
    proof {
        assert(v@.subrange(0, v@.len() as int) =~= v@);
    }
    out
}

/// Entries whose name starts with a dot or an underscore are not part of the
/// palette: dotfiles, and marker files such as the category metadata.
pub open spec fn hidden_entry(name: Seq<char>) -> bool {
    name.len() > 0 && (name[0] == '.' || name[0] == '_')
}

/// Whether a directory entry is skipped by the palette scan.
pub fn is_hidden_entry(name: &str) -> (b: bool)
    ensures
        b == hidden_entry(name@),
{
    let v = chars_of(name);
    v.len() > 0 && (v[0] == '.' || v[0] == '_')
}

/// The files that count as prefabs.
pub open spec fn prefab_file(name: Seq<char>) -> bool {
    ends_with_seq(name, (".prefab.json")@)
}

/// Whether a file name is a prefab file.
pub fn is_prefab_file(name: &str) -> (b: bool)
    ensures
        b == prefab_file(name@),
{
    str_ends_with(name, ".prefab.json")
}

/// The display name and icon of a category: its metadata when the marker
/// file decoded, else the directory's own name, else the category id; with
/// no icon in the fallback cases.
pub fn category_display(
    meta: Option<&CategoryMeta>,
    file_name: Option<&String>,
    category_id: &str,
) -> (r: (String, Option<String>))
    ensures
        meta matches Some(m) ==> r.0@ == m@.name && opt_string_view(r.1) == m@.icon,
        meta is None ==> (match file_name {
            Some(f) => r.0@ == f@,
            None => r.0@ == category_id@,
        } && r.1 is None),
{
    match meta {
        Some(m) => {
            let icon: Option<String> = match &m.icon {
                Some(ic) => Some(ic.clone()),
                None => None,
            };
            (m.name.clone(), icon)
        },
        None => {
            let name = match file_name {
                Some(f) => f.clone(),
                None => String::from_str(category_id),
            };
            (name, None)
        },
    }
}

// ---------------------------------------------------------------------------
// Scan results
// ---------------------------------------------------------------------------

/// A scanned category and its contents.
pub struct ScannedCategory {
    pub id: String,
    pub path: String,
    pub name: String,
    pub icon: Option<String>,
    pub children: Vec<String>,
    pub prefabs: Vec<String>,
}

/// The outcome of scanning a palette folder.
pub struct PaletteScanResult {
    pub categories: Vec<ScannedCategory>,
    pub root_categories: Vec<String>,
}

impl PaletteScanResult {
    /// An empty scan: no categories at all.
    pub fn new() -> (r: PaletteScanResult)
        ensures
            r.categories@.len() == 0,
            r.root_categories@.len() == 0,
    {
        PaletteScanResult { categories: Vec::new(), root_categories: Vec::new() }
    }
}

} // verus!
