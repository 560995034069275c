//! The configuration loader: a line-based provider table.
//!
//! A configuration is a sequence of lines.  Blank lines and lines starting
//! with `#` say nothing.  A `[[providers]]` line opens a new provider
//! entry; the `key = value` lines under it fill the entry's fields.  A
//! value is a quoted string (without escape sequences) or, for the JSON
//! key path, a bracketed list of quoted strings.  Unknown keys are
//! ignored; a repeated key, a malformed value, a field line before the
//! first entry, any other `[...]` header, and an entry missing one of
//! `name`, `ptype`, `protocol`, `url` or `key` are each refused, with the
//! first offending line reported.  The family is written `"IPv4"` or
//! `"IPv6"`; the protocol selector accepts `"Plane"`/`"HttpPlane"`,
//! `"Json"`/`"HttpJson"` and `"Dns"`.

use vstd::prelude::*;

use crate::error::Error;
use crate::info::ProviderInfo;
use crate::info::ProviderInfoModel;
use crate::info::ProviderInfoProtocol;
use crate::info::ProviderInfoType;
use crate::text::chars_eq_str;
use crate::text::chars_to_string;
use crate::text::copy_range;
use crate::text::find_char;
use crate::text::find_char_from;
use crate::text::lemma_find_char_bounds;
use crate::text::spec_trim;
use crate::text::str_to_chars;
use crate::text::trim_chars;

verus! {

// ------------------------------------------------------------------
// Splitting on a separator
// ------------------------------------------------------------------

/// The character sequences a list of pieces holds.
spec fn pieces_view(v: &Vec<Vec<char>>) -> Seq<Seq<char>> {
    Seq::new(v@.len(), |i: int| v@[i]@)
}

/// The pieces of `s` between occurrences of `c`: always one more piece
/// than separators, pieces may be empty.
pub open spec fn spec_split_on(s: Seq<char>, c: char) -> Seq<Seq<char>>
    decreases s.len(),
    via spec_split_on_decreases
{
    let k = find_char_from(s, c, 0);
    if k == s.len() {
        seq![s]
    } else {
        seq![s.subrange(0, k)] + spec_split_on(s.subrange(k + 1, s.len() as int), c)
    }
}

#[via_fn]
proof fn spec_split_on_decreases(s: Seq<char>, c: char) {
    lemma_find_char_bounds(s, c, 0);
}

fn split_on(v: &Vec<char>, c: char) -> (r: Vec<Vec<char>>)
    ensures
        pieces_view(&r) == spec_split_on(v@, c),
        r@.len() >= 1,
    decreases v@.len(),
{
    let k = find_char(v, c, 0);
    if k == v.len() {
        let mut r: Vec<Vec<char>> = Vec::new();
        r.push(copy_range(v, 0, v.len()));
        proof {
            assert(v@.subrange(0, v@.len() as int) =~= v@);
            assert(pieces_view(&r) =~= spec_split_on(v@, c));
        }
        r
    } else {
        let head = copy_range(v, 0, k);
        let tail = copy_range(v, k + 1, v.len());
        let rest = split_on(&tail, c);
        let r = prepend_piece(head, rest);
        proof {
            assert(pieces_view(&r) =~= spec_split_on(v@, c));
        }
        r
    }
}

/// A fresh list holding `head` followed by the pieces of `rest`.
fn prepend_piece(head: Vec<char>, rest: Vec<Vec<char>>) -> (r: Vec<Vec<char>>)
    ensures
        pieces_view(&r) == seq![head@] + pieces_view(&rest),
{
    let mut r = rest;
    let ghost orig = pieces_view(&r);
    r.insert(0, head);
    proof {
        assert forall|t: int| 0 <= t < pieces_view(&r).len() implies pieces_view(&r)[t] == (
        seq![head@] + orig)[t] by {
            if t == 0 {
                assert(r@[0] == head);
            } else {
                assert(r@[t] == r@.subrange(1, r@.len() as int)[t - 1]);
            }
        }
        assert(pieces_view(&r) =~= seq![head@] + orig);
    }
    r
}

// ------------------------------------------------------------------
// Values: quoted strings and arrays
// ------------------------------------------------------------------

/// The content of a quoted string: surrounding double quotes, no quote
/// and no escape inside.
pub open spec fn spec_unquote(v: Seq<char>) -> Option<Seq<char>> {
    if v.len() >= 2 && v[0] == '"' && v[v.len() - 1] == '"' && find_char_from(
        v.subrange(1, v.len() - 1),
        '"',
        0,
    ) == v.len() - 2 {
        Some(v.subrange(1, v.len() - 1))
    } else {
        None
    }
}

fn unquote(v: &Vec<char>) -> (r: Option<Vec<char>>)
    ensures
        r is Some <==> spec_unquote(v@) is Some,
        r matches Some(x) ==> spec_unquote(v@) == Some(x@),
{
    if v.len() < 2 {
        return None;
    }
    if !(v[0] == '"' && v[v.len() - 1] == '"') {
        return None;
    }
    let inner = copy_range(v, 1, v.len() - 1);
    if find_char(&inner, '"', 0) == inner.len() {
        Some(inner)
    } else {
        None
    }
}

/// The elements of a bracketed list of quoted strings, each trimmed and
/// unquoted; `None` when any element is not a quoted string.
pub open spec fn spec_unquote_all(elems: Seq<Seq<char>>) -> Option<Seq<Seq<char>>>
    decreases elems.len(),
{
    if elems.len() == 0 {
        Some(Seq::<Seq<char>>::empty())
    } else {
        match spec_unquote_all(elems.drop_last()) {
            None => None,
            Some(rs) => match spec_unquote(spec_trim(elems.last())) {
                None => None,
                Some(x) => Some(rs.push(x)),
            },
        }
    }
}

/// A bracketed, comma-separated list of quoted strings; empty brackets
/// give the empty list.
pub open spec fn spec_parse_array(v: Seq<char>) -> Option<Seq<Seq<char>>> {
    if v.len() >= 2 && v[0] == '[' && v[v.len() - 1] == ']' {
        let inner = spec_trim(v.subrange(1, v.len() - 1));
        if inner.len() == 0 {
            Some(Seq::<Seq<char>>::empty())
        } else {
            spec_unquote_all(spec_split_on(inner, ','))
        }
    } else {
        None
    }
}

fn parse_array(v: &Vec<char>) -> (r: Option<Vec<String>>)
    ensures
        r is Some <==> spec_parse_array(v@) is Some,
        r matches Some(x) ==> spec_parse_array(v@) == Some(x.deep_view()),
{
    if v.len() < 2 {
        return None;
    }
    if !(v[0] == '[' && v[v.len() - 1] == ']') {
        return None;
    }
    let raw_inner = copy_range(v, 1, v.len() - 1);
    let inner = trim_chars(&raw_inner);
    if inner.len() == 0 {
        let r: Vec<String> = Vec::new();
        proof {
            assert(r.deep_view() =~= Seq::<Seq<char>>::empty());
        }
        return Some(r);
    }
    let parts = split_on(&inner, ',');
    let ghost pv = pieces_view(&parts);
    proof {
        assert(pv.subrange(0, 0) =~= Seq::<Seq<char>>::empty());
    }
    let mut out: Vec<String> = Vec::new();
    proof {
        assert(out.deep_view() =~= Seq::<Seq<char>>::empty());
    }
    let mut i: usize = 0;
    while i < parts.len()
        invariant
            0 <= i <= parts@.len(),
            pv == pieces_view(&parts),
            pv.len() == parts@.len(),
            spec_parse_array(v@) == spec_unquote_all(pv),
            spec_unquote_all(pv.subrange(0, i as int)) == Some(out.deep_view()),
        decreases parts@.len() - i,
    {
        let piece = trim_chars(&parts[i]);
        match unquote(&piece) {
            None => {
                proof {
                    lemma_unquote_all_prefix_fail(pv, i as int);
                }
                return None;
            },
            Some(x) => {
                let ghost acc0 = out.deep_view();
                out.push(chars_to_string(&x));
                proof {
                    assert(out.deep_view() =~= acc0.push(x@));
                    assert(pv.subrange(0, i + 1).drop_last() =~= pv.subrange(0, i as int));
                    assert(pv.subrange(0, i + 1).last() == pv[i as int]);
                    assert(spec_unquote_all(pv.subrange(0, i + 1)) == Some(acc0.push(x@)));
                }
            },
        }
        i = i + 1;
    }
    proof {
        assert(pv.subrange(0, pv.len() as int) =~= pv);
    }
    Some(out)
}

/// When one element fails to unquote, the whole list does.
proof fn lemma_unquote_all_prefix_fail(pv: Seq<Seq<char>>, i: int)
    requires
        0 <= i < pv.len(),
        spec_unquote(spec_trim(pv[i])) is None,
    ensures
        spec_unquote_all(pv) is None,
    decreases pv.len(),
{
    if pv.len() > 0 {
        if i == pv.len() - 1 {
        } else {
            lemma_unquote_all_prefix_fail(pv.drop_last(), i);
        }
    }
}

// ------------------------------------------------------------------
// One entry under construction
// ------------------------------------------------------------------

/// The fields of an entry as far as its lines have been read.
pub struct EntryDraftModel {
    pub name: Option<Seq<char>>,
    pub ptype: Option<ProviderInfoType>,
    pub protocol: Option<ProviderInfoProtocol>,
    pub url: Option<Seq<char>>,
    pub key: Option<Seq<Seq<char>>>,
    pub padding: Option<Seq<char>>,
    pub record: Option<Seq<char>>,
    /// The line its `[[providers]]` header stands on, counted from one.
    pub start_line: int,
}

struct EntryDraft {
    name: Option<String>,
    ptype: Option<ProviderInfoType>,
    protocol: Option<ProviderInfoProtocol>,
    url: Option<String>,
    key: Option<Vec<String>>,
    padding: Option<String>,
    record: Option<String>,
    start_line: usize,
}

spec fn draft_view(d: &EntryDraft) -> EntryDraftModel {
    ({
        let self_ = d;
        EntryDraftModel {
            name: match self_.name {
                Some(ref s) => Some(s@),
                None => None,
            },
            ptype: self_.ptype,
            protocol: self_.protocol,
            url: match self_.url {
                Some(ref s) => Some(s@),
                None => None,
            },
            key: match self_.key {
                Some(ref k) => Some(k.deep_view()),
                None => None,
            },
            padding: match self_.padding {
                Some(ref s) => Some(s@),
                None => None,
            },
            record: match self_.record {
                Some(ref s) => Some(s@),
                None => None,
            },
            start_line: self_.start_line as int,
        }
    })
}

/// A draft with nothing filled in, opened at line `n`.
pub open spec fn fresh_draft(n: int) -> EntryDraftModel {
    EntryDraftModel {
        name: None,
        ptype: None,
        protocol: None,
        url: None,
        key: None,
        padding: None,
        record: None,
        start_line: n,
    }
}

/// A finished entry: the required fields are present.
pub open spec fn spec_finish_entry(d: EntryDraftModel) -> Option<ProviderInfoModel> {
    if d.name is Some && d.ptype is Some && d.protocol is Some && d.url is Some && d.key is Some {
        Some(
            ProviderInfoModel {
                name: d.name->0,
                ptype: d.ptype->0,
                protocol: d.protocol->0,
                url: d.url->0,
                key: d.key->0,
                padding: d.padding,
                record: d.record,
            },
        )
    } else {
        None
    }
}

/// One `key = value` line applied to the draft; `None` when the value is
/// malformed or the key repeated.
pub open spec fn spec_apply_kv(d: EntryDraftModel, key: Seq<char>, val: Seq<char>) -> Option<
    EntryDraftModel,
> {
    if key == "name"@ {
        if d.name is Some {
            None
        } else {
            match spec_unquote(val) {
                None => None,
                Some(x) => Some(EntryDraftModel { name: Some(x), ..d }),
            }
        }
    } else if key == "url"@ {
        if d.url is Some {
            None
        } else {
            match spec_unquote(val) {
                None => None,
                Some(x) => Some(EntryDraftModel { url: Some(x), ..d }),
            }
        }
    } else if key == "padding"@ {
        if d.padding is Some {
            None
        } else {
            match spec_unquote(val) {
                None => None,
                Some(x) => Some(EntryDraftModel { padding: Some(x), ..d }),
            }
        }
    } else if key == "record"@ {
        if d.record is Some {
            None
        } else {
            match spec_unquote(val) {
                None => None,
                Some(x) => Some(EntryDraftModel { record: Some(x), ..d }),
            }
        }
    } else if key == "ptype"@ {
        if d.ptype is Some {
            None
        } else {
            match spec_unquote(val) {
                None => None,
                Some(x) => if x == "IPv4"@ {
                    Some(EntryDraftModel { ptype: Some(ProviderInfoType::IPv4), ..d })
                } else if x == "IPv6"@ {
                    Some(EntryDraftModel { ptype: Some(ProviderInfoType::IPv6), ..d })
                } else {
                    None
                },
            }
        }
    } else if key == "protocol"@ {
        if d.protocol is Some {
            None
        } else {
            match spec_unquote(val) {
                None => None,
                Some(x) => if x == "Plane"@ || x == "HttpPlane"@ {
                    Some(EntryDraftModel { protocol: Some(ProviderInfoProtocol::HttpPlane), ..d })
                } else if x == "Json"@ || x == "HttpJson"@ {
                    Some(EntryDraftModel { protocol: Some(ProviderInfoProtocol::HttpJson), ..d })
                } else if x == "Dns"@ {
                    Some(EntryDraftModel { protocol: Some(ProviderInfoProtocol::Dns), ..d })
                } else {
                    None
                },
            }
        }
    } else if key == "key"@ {
        if d.key is Some {
            None
        } else {
            match spec_parse_array(val) {
                None => None,
                Some(ks) => Some(EntryDraftModel { key: Some(ks), ..d }),
            }
        }
    } else {
        Some(d)
    }
}

fn apply_kv(d: EntryDraft, key: &Vec<char>, val: &Vec<char>) -> (r: Option<EntryDraft>)
    ensures
        r is Some <==> spec_apply_kv(draft_view(&d), key@, val@) is Some,
        r matches Some(d2) ==> spec_apply_kv(draft_view(&d), key@, val@) == Some(draft_view(&d2)),
{
    if chars_eq_str(key, "name") {
        if d.name.is_some() {
            None
        } else {
            match unquote(val) {
                None => None,
                Some(x) => Some(EntryDraft { name: Some(chars_to_string(&x)), ..d }),
            }
        }
    } else if chars_eq_str(key, "url") {
        if d.url.is_some() {
            None
        } else {
            match unquote(val) {
                None => None,
                Some(x) => Some(EntryDraft { url: Some(chars_to_string(&x)), ..d }),
            }
        }
    } else if chars_eq_str(key, "padding") {
        if d.padding.is_some() {
            None
        } else {
            match unquote(val) {
                None => None,
                Some(x) => Some(EntryDraft { padding: Some(chars_to_string(&x)), ..d }),
            }
        }
    } else if chars_eq_str(key, "record") {
        if d.record.is_some() {
            None
        } else {
            match unquote(val) {
                None => None,
                Some(x) => Some(EntryDraft { record: Some(chars_to_string(&x)), ..d }),
            }
        }
    } else if chars_eq_str(key, "ptype") {
        if d.ptype.is_some() {
            None
        } else {
            match unquote(val) {
                None => None,
                Some(x) => if chars_eq_str(&x, "IPv4") {
                    Some(EntryDraft { ptype: Some(ProviderInfoType::IPv4), ..d })
                } else if chars_eq_str(&x, "IPv6") {
                    Some(EntryDraft { ptype: Some(ProviderInfoType::IPv6), ..d })
                } else {
                    None
                },
            }
        }
    } else if chars_eq_str(key, "protocol") {
        if d.protocol.is_some() {
            None
        } else {
            match unquote(val) {
                None => None,
                Some(x) => if chars_eq_str(&x, "Plane") || chars_eq_str(&x, "HttpPlane") {
                    Some(EntryDraft { protocol: Some(ProviderInfoProtocol::HttpPlane), ..d })
                } else if chars_eq_str(&x, "Json") || chars_eq_str(&x, "HttpJson") {
                    Some(EntryDraft { protocol: Some(ProviderInfoProtocol::HttpJson), ..d })
                } else if chars_eq_str(&x, "Dns") {
                    Some(EntryDraft { protocol: Some(ProviderInfoProtocol::Dns), ..d })
                } else {
                    None
                },
            }
        }
    } else if chars_eq_str(key, "key") {
        if d.key.is_some() {
            None
        } else {
            match parse_array(val) {
                None => None,
                Some(ks) => Some(EntryDraft { key: Some(ks), ..d }),
            }
        }
    } else {
        Some(d)
    }
}

// ------------------------------------------------------------------
// Folding the lines
// ------------------------------------------------------------------

/// The parser's state between lines: the entry under construction, if one
/// is open, and the finished entries.
pub struct ConfigStateModel {
    pub cur: Option<EntryDraftModel>,
    pub out: Seq<ProviderInfoModel>,
}

struct ConfigState {
    cur: Option<EntryDraft>,
    out: Vec<ProviderInfo>,
}

spec fn state_view(st: &ConfigState) -> ConfigStateModel {
    ConfigStateModel {
        cur: match st.cur {
            Some(ref d) => Some(draft_view(&d)),
            None => None,
        },
        out: Seq::new(st.out@.len(), |i: int| st.out@[i]@),
    }
}

/// One line applied to the parser state; an error carries the offending
/// line's one-based number.
pub open spec fn spec_step_line(st: ConfigStateModel, line: Seq<char>, n: int) -> Result<
    ConfigStateModel,
    int,
> {
    let t = spec_trim(line);
    if t.len() == 0 {
        Ok(st)
    } else if t[0] == '#' {
        Ok(st)
    } else if t == "[[providers]]"@ {
        match st.cur {
            None => Ok(ConfigStateModel { cur: Some(fresh_draft(n)), out: st.out }),
            Some(d) => match spec_finish_entry(d) {
                None => Err(d.start_line),
                Some(m) => Ok(
                    ConfigStateModel { cur: Some(fresh_draft(n)), out: st.out.push(m) },
                ),
            },
        }
    } else if t[0] == '[' {
        Err(n)
    } else {
        let eq = find_char_from(t, '=', 0);
        if eq == t.len() {
            Err(n)
        } else {
            let key = spec_trim(t.subrange(0, eq));
            let val = spec_trim(t.subrange(eq + 1, t.len() as int));
            match st.cur {
                None => Err(n),
                Some(d) => match spec_apply_kv(d, key, val) {
                    None => Err(n),
                    Some(d2) => Ok(ConfigStateModel { cur: Some(d2), out: st.out }),
                },
            }
        }
    }
}

fn step_line(st: ConfigState, line: &Vec<char>, n: usize) -> (r: Result<ConfigState, usize>)
    requires
        n >= 1,
    ensures
        r is Ok <==> spec_step_line(state_view(&st), line@, n as int) is Ok,
        r matches Ok(st2) ==> spec_step_line(state_view(&st), line@, n as int) == Ok::<
            ConfigStateModel,
            int,
        >(state_view(&st2)),
        r matches Err(m) ==> spec_step_line(state_view(&st), line@, n as int) == Err::<
            ConfigStateModel,
            int,
        >(m as int),
{
    let t = trim_chars(line);
    if t.len() == 0 {
        return Ok(st);
    }
    if t[0] == '#' {
        return Ok(st);
    }
    if chars_eq_str(&t, "[[providers]]") {
        match st.cur {
            None => {
                return Ok(
                    ConfigState { cur: Some(fresh_draft_exec(n)), out: st.out },
                );
            },
            Some(d) => {
                match finish_entry(d) {
                    Err(start) => {
                        return Err(start);
                    },
                    Ok(m) => {
                        let mut out = st.out;
                        out.push(m);
                        proof {
                            assert(Seq::new(out@.len(), |i: int| out@[i]@) =~= spec_step_line(
                                state_view(&st),
                                line@,
                                n as int,
                            )->Ok_0.out);
                        }
                        return Ok(ConfigState { cur: Some(fresh_draft_exec(n)), out });
                    },
                }
            },
        }
    }
    if t[0] == '[' {
        return Err(n);
    }
    let eq = find_char(&t, '=', 0);
    if eq == t.len() {
        return Err(n);
    }
    let raw_key = copy_range(&t, 0, eq);
    let key = trim_chars(&raw_key);
    let raw_val = copy_range(&t, eq + 1, t.len());
    let val = trim_chars(&raw_val);
    match st.cur {
        None => Err(n),
        Some(d) => match apply_kv(d, &key, &val) {
            None => Err(n),
            Some(d2) => Ok(ConfigState { cur: Some(d2), out: st.out }),
        },
    }
}

fn fresh_draft_exec(n: usize) -> (r: EntryDraft)
    ensures
        draft_view(&r) == fresh_draft(n as int),
{
    EntryDraft {
        name: None,
        ptype: None,
        protocol: None,
        url: None,
        key: None,
        padding: None,
        record: None,
        start_line: n,
    }
}

/// Closes a draft; the error carries the draft's header line.
fn finish_entry(d: EntryDraft) -> (r: Result<ProviderInfo, usize>)
    ensures
        r is Ok <==> spec_finish_entry(draft_view(&d)) is Some,
        r matches Ok(p) ==> spec_finish_entry(draft_view(&d)) == Some(p@),
        r matches Err(n) ==> n as int == draft_view(&d).start_line,
{
    let start = d.start_line;
    match (d.name, d.ptype, d.protocol, d.url, d.key) {
        (Some(name), Some(ptype), Some(protocol), Some(url), Some(key)) => {
            Ok(
                ProviderInfo {
                    name,
                    ptype,
                    protocol,
                    url,
                    key,
                    padding: d.padding,
                    record: d.record,
                },
            )
        },
        _ => Err(start),
    }
}

/// The parser state after the first `i` lines; an error carries the first
/// offending line's number.
pub open spec fn spec_parse_fold(lines: Seq<Seq<char>>, i: int) -> Result<ConfigStateModel, int>
    decreases i,
{
    if i <= 0 {
        Ok(ConfigStateModel { cur: None, out: Seq::<ProviderInfoModel>::empty() })
    } else {
        match spec_parse_fold(lines, i - 1) {
            Err(n) => Err(n),
            Ok(st) => spec_step_line(st, lines[i - 1], i),
        }
    }
}

/// Once the fold fails, it stays failed with the same line.
proof fn lemma_fold_error_persists(lines: Seq<Seq<char>>, i: int, j: int)
    requires
        0 <= i <= j,
        spec_parse_fold(lines, i) is Err,
    ensures
        spec_parse_fold(lines, j) == spec_parse_fold(lines, i),
    decreases j - i,
{
    if i < j {
        lemma_fold_error_persists(lines, i, j - 1);
    }
}

/// The descriptors a configuration text parses to; an error carries the
/// first offending line's number, and a text without a single provider
/// entry is refused at line one.
pub open spec fn spec_parse_config(s: Seq<char>) -> Result<Seq<ProviderInfoModel>, int> {
    let lines = spec_split_on(s, '\n');
    match spec_parse_fold(lines, lines.len() as int) {
        Err(n) => Err(n),
        Ok(st) => match st.cur {
            None => Err(1),
            Some(d) => match spec_finish_entry(d) {
                None => Err(d.start_line),
                Some(m) => Ok(st.out.push(m)),
            },
        },
    }
}

/// Law: configuration parsing is a pure function of the text.  Two parses
/// of the same text yield the same descriptors, in the same order — any
/// shuffling happens only at resolution time, never at parse time — and
/// the same text is accepted or refused the same way every time.
pub proof fn lemma_config_parse_deterministic(s1: Seq<char>, s2: Seq<char>)
    requires
        s1 == s2,
    ensures
        spec_parse_config(s1) == spec_parse_config(s2),
{
}

// ------------------------------------------------------------------
// The provider list
// ------------------------------------------------------------------

/// The descriptors a configuration describes, in the order the text gives
/// them.
#[derive(Debug)]
pub struct ProviderInfoList {
    /// The parsed descriptors.
    pub providers: Vec<ProviderInfo>,
}

impl View for ProviderInfoList {
    type V = Seq<ProviderInfoModel>;

    open spec fn view(&self) -> Seq<ProviderInfoModel> {
        Seq::new(self.providers@.len(), |i: int| self.providers@[i]@)
    }
}

impl ProviderInfoList {
    /// Parses a configuration text into its provider descriptors.
    /// Success and failure follow `spec_parse_config` exactly: the same
    /// text always yields the same descriptors, and a malformed text
    /// reports its first offending line.
    pub fn from_toml(s: &str) -> (r: Result<ProviderInfoList, Error>)
        ensures
            r is Ok <==> spec_parse_config(s@) is Ok,
            r matches Ok(l) ==> spec_parse_config(s@) == Ok::<Seq<ProviderInfoModel>, int>(l@),
            r matches Err(e) ==> (e matches Error::ConfigParse { line } && spec_parse_config(s@)
                == Err::<Seq<ProviderInfoModel>, int>(line as int)),
    {
        let chars = str_to_chars(s);
        let lines = split_on(&chars, '\n');
        let ghost lv = pieces_view(&lines);
        let mut st = ConfigState { cur: None, out: Vec::new() };
        proof {
            assert(state_view(&st).out =~= Seq::<ProviderInfoModel>::empty());
        }
        let mut i: usize = 0;
        while i < lines.len()
            invariant
                0 <= i <= lines@.len(),
                lv == pieces_view(&lines),
                lv.len() == lines@.len(),
                lv == spec_split_on(s@, '\n'),
                spec_parse_fold(lv, i as int) == Ok::<ConfigStateModel, int>(state_view(&st)),
            decreases lines@.len() - i,
        {
            match step_line(st, &lines[i], i + 1) {
                Ok(st2) => {
                    st = st2;
                },
                Err(n) => {
                    proof {
                        lemma_fold_error_persists(lv, i + 1, lv.len() as int);
                    }
                    return Err(Error::ConfigParse { line: n });
                },
            }
            i = i + 1;
        }
        match st.cur {
            None => Err(Error::ConfigParse { line: 1 }),
            Some(d) => match finish_entry(d) {
                Err(n) => Err(Error::ConfigParse { line: n }),
                Ok(p) => {
                    let mut providers = st.out;
                    providers.push(p);
                    let r = ProviderInfoList { providers };
                    proof {
                        assert(r@ =~= spec_parse_config(s@)->Ok_0);
                    }
                    Ok(r)
                },
            },
        }
    }
}

} // verus!
