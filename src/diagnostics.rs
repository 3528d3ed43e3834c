//! Formatting of the diagnostics that the engine reports, for the tool caller.
use vstd::prelude::*;

use crate::json::{
    entries_view, items_view, json_view, lemma_entries_view, lemma_items_push, lemma_items_view,
    push_entry, text, Json, JsonV,
};

verus! {

/// The name of an engine severity code.
pub open spec fn severity_label(sev: Option<u64>) -> Seq<char> {
    if sev == Some(1u64) {
        "error"@
    } else if sev == Some(2u64) {
        "warning"@
    } else if sev == Some(3u64) {
        "information"@
    } else if sev == Some(4u64) {
        "hint"@
    } else {
        "unknown"@
    }
}

pub open spec fn or_text(s: Option<Seq<char>>, default: Seq<char>) -> Seq<char> {
    match s {
        Some(t) => t,
        None => default,
    }
}

/// One diagnostic as the tool caller sees it.
pub open spec fn formatted_record(d: JsonV) -> JsonV {
    JsonV::Object(
        seq![
            ("severity"@, JsonV::Str(severity_label(d.u64_at("severity"@)))),
            ("range"@, d.get_or_null("range"@)),
            ("message"@, JsonV::Str(or_text(d.str_at("message"@), ""@))),
            ("code"@, d.get_or_null("code"@)),
            ("source"@, JsonV::Str(or_text(d.str_at("source"@), "rust-analyzer"@))),
            ("relatedInformation"@, d.get_or_null("relatedInformation"@)),
        ],
    )
}

pub open spec fn has_severity(d: JsonV, sev: u64) -> bool {
    d.u64_at("severity"@) == Some(sev)
}

/// How many of `items` carry the severity code `sev`.
pub open spec fn count_severity(items: Seq<JsonV>, sev: u64) -> nat {
    items.filter(|d: JsonV| has_severity(d, sev)).len()
}

/// The counts by severity, under the names the tool caller sees.
pub open spec fn severity_summary(items: Seq<JsonV>) -> JsonV {
    JsonV::Object(
        seq![
            ("errors"@, JsonV::UInt(count_severity(items, 1) as u64)),
            ("warnings"@, JsonV::UInt(count_severity(items, 2) as u64)),
            ("information"@, JsonV::UInt(count_severity(items, 3) as u64)),
            ("hints"@, JsonV::UInt(count_severity(items, 4) as u64)),
        ],
    )
}

/// The diagnostics in an engine result: its elements if it is an array, none otherwise.
pub open spec fn diagnostic_items(result: JsonV) -> Seq<JsonV> {
    match result.as_array() {
        Some(a) => a,
        None => Seq::empty(),
    }
}

/// The report on one file: each diagnostic formatted, and the counts by severity.
pub open spec fn formatted_diagnostics(file: Seq<char>, result: JsonV) -> JsonV {
    let items = diagnostic_items(result);
    JsonV::Object(
        seq![
            ("file"@, JsonV::Str(file)),
            ("diagnostics"@, JsonV::Array(items.map_values(|d: JsonV| formatted_record(d)))),
            ("summary"@, severity_summary(items)),
        ],
    )
}

pub proof fn lemma_filter_step<A>(s: Seq<A>, i: int, p: spec_fn(A) -> bool)
    requires
        0 <= i < s.len(),
    ensures
        s.subrange(0, i + 1).filter(p) == if p(s[i]) {
            s.subrange(0, i).filter(p).push(s[i])
        } else {
            s.subrange(0, i).filter(p)
        },
{
    reveal(Seq::filter);
    let t = s.subrange(0, i + 1);
    assert(t.drop_last() =~= s.subrange(0, i));
}

proof fn lemma_count_step(s: Seq<JsonV>, i: int, sev: u64)
    requires
        0 <= i < s.len(),
    ensures
        count_severity(s.subrange(0, i + 1), sev) == count_severity(s.subrange(0, i), sev) + if has_severity(s[i], sev) {
            1nat
        } else {
            0nat
        },
{
    lemma_filter_step(s, i, |d: JsonV| has_severity(d, sev));
}

/// Counts the diagnostics of each severity: errors, warnings, information, hints.
pub fn count_by_severity(items: &Vec<Json>) -> (r: (u64, u64, u64, u64))
    ensures
        r.0 == count_severity(items_view(items@), 1),
        r.1 == count_severity(items_view(items@), 2),
        r.2 == count_severity(items_view(items@), 3),
        r.3 == count_severity(items_view(items@), 4),
{
    let ghost iv = items_view(items@);
    proof {
        lemma_items_view(items@);
    }
    let mut errors: u64 = 0;
    let mut warnings: u64 = 0;
    let mut information: u64 = 0;
    let mut hints: u64 = 0;
    let mut i: usize = 0;
    while i < items.len()
        invariant
            iv == items_view(items@),
            iv.len() == items@.len(),
            forall|k: int| 0 <= k < items@.len() ==> #[trigger] iv[k] == json_view(items@[k]),
            0 <= i <= items@.len(),
            errors == count_severity(iv.subrange(0, i as int), 1),
            warnings == count_severity(iv.subrange(0, i as int), 2),
            information == count_severity(iv.subrange(0, i as int), 3),
            hints == count_severity(iv.subrange(0, i as int), 4),
            errors <= i,
            warnings <= i,
            information <= i,
            hints <= i,
        decreases items@.len() - i,
    {
        proof {
            lemma_count_step(iv, i as int, 1);
            lemma_count_step(iv, i as int, 2);
            lemma_count_step(iv, i as int, 3);
            lemma_count_step(iv, i as int, 4);
        }
        match items[i].u64_at("severity") {
            Some(s) => {
                if s == 1 {
                    errors = errors + 1;
                } else if s == 2 {
                    warnings = warnings + 1;
                } else if s == 3 {
                    information = information + 1;
                } else if s == 4 {
                    hints = hints + 1;
                }
            },
            None => {},
        }
        i = i + 1;
    }
    proof {
        assert(iv.subrange(0, iv.len() as int) =~= iv);
    }
    (errors, warnings, information, hints)
}

/// The counts by severity as a JSON object.
fn summary_object(c: (u64, u64, u64, u64)) -> (r: Json)
    ensures
        r@ == JsonV::Object(
            seq![
                ("errors"@, JsonV::UInt(c.0)),
                ("warnings"@, JsonV::UInt(c.1)),
                ("information"@, JsonV::UInt(c.2)),
                ("hints"@, JsonV::UInt(c.3)),
            ],
        ),
{
    let mut e: Vec<(String, Json)> = Vec::new();
    push_entry(&mut e, "errors", Json::UInt(c.0));
    push_entry(&mut e, "warnings", Json::UInt(c.1));
    push_entry(&mut e, "information", Json::UInt(c.2));
    push_entry(&mut e, "hints", Json::UInt(c.3));
    proof {
        assert(entries_view(Seq::<(String, Json)>::empty()) =~= Seq::<(Seq<char>, JsonV)>::empty());
        assert(entries_view(e@) =~= seq![
            ("errors"@, JsonV::UInt(c.0)),
            ("warnings"@, JsonV::UInt(c.1)),
            ("information"@, JsonV::UInt(c.2)),
            ("hints"@, JsonV::UInt(c.3)),
        ]);
    }
    Json::Object(e)
}

/// The name of a severity code.
pub fn severity_name(sev: Option<u64>) -> (r: &'static str)
    ensures
        r@ == severity_label(sev),
{
    match sev {
        Some(s) => {
            if s == 1 {
                "error"
            } else if s == 2 {
                "warning"
            } else if s == 3 {
                "information"
            } else if s == 4 {
                "hint"
            } else {
                "unknown"
            }
        },
        None => "unknown",
    }
}

/// One diagnostic as the tool caller sees it.
pub fn format_record(d: &Json) -> (r: Json)
    ensures
        r@ == formatted_record(d@),
{
    let severity = text(severity_name(d.u64_at("severity")));
    let message = match d.str_at("message") {
        Some(m) => text(m),
        None => text(""),
    };
    let source = match d.str_at("source") {
        Some(s) => text(s),
        None => text("rust-analyzer"),
    };
    let mut e: Vec<(String, Json)> = Vec::new();
    push_entry(&mut e, "severity", severity);
    push_entry(&mut e, "range", d.get_or_null("range"));
    push_entry(&mut e, "message", message);
    push_entry(&mut e, "code", d.get_or_null("code"));
    push_entry(&mut e, "source", source);
    push_entry(&mut e, "relatedInformation", d.get_or_null("relatedInformation"));
    proof {
        assert(entries_view(Seq::<(String, Json)>::empty()) =~= Seq::<(Seq<char>, JsonV)>::empty());
        assert(entries_view(e@) =~= formatted_record(d@)->Object_0);
    }
    Json::Object(e)
}

/// Formats the diagnostics that the engine gave for one file: each record with its
/// severity named, and a count of each severity.
pub fn format_diagnostics(file_path: &str, result: &Json) -> (r: Json)
    ensures
        r@ == formatted_diagnostics(file_path@, result@),
{
    let empty: Vec<Json> = Vec::new();
    let items: &Vec<Json> = match result {
        Json::Array(a) => a,
        _ => &empty,
    };
    proof {
        assert(items_view(Seq::<Json>::empty()) =~= Seq::<JsonV>::empty());
        assert(items_view(items@) == diagnostic_items(result@));
        lemma_items_view(items@);
    }
    let ghost iv = items_view(items@);
    let mut out: Vec<Json> = Vec::new();
    let mut i: usize = 0;
    while i < items.len()
        invariant
            iv == items_view(items@),
            iv.len() == items@.len(),
            forall|k: int| 0 <= k < items@.len() ==> #[trigger] iv[k] == json_view(items@[k]),
            0 <= i <= items@.len(),
            out@.len() == i,
            forall|k: int| 0 <= k < i ==> #[trigger] json_view(out@[k]) == formatted_record(iv[k]),
        decreases items@.len() - i,
    {
        out.push(format_record(&items[i]));
        i = i + 1;
    }
    proof {
        lemma_items_view(out@);
        assert(items_view(out@) =~= iv.map_values(|d: JsonV| formatted_record(d)));
    }
    let summary = summary_object(count_by_severity(items));
    let mut e: Vec<(String, Json)> = Vec::new();
    push_entry(&mut e, "file", text(file_path));
    push_entry(&mut e, "diagnostics", Json::Array(out));
    push_entry(&mut e, "summary", summary);
    proof {
        assert(entries_view(Seq::<(String, Json)>::empty()) =~= Seq::<(Seq<char>, JsonV)>::empty());
        assert(entries_view(e@) =~= formatted_diagnostics(file_path@, result@)->Object_0);
    }
    Json::Object(e)
}

/// The low 32 bits of an integer, as a conversion to `u32` keeps them.
pub open spec fn low32(n: u64) -> u32 {
    (n % 0x1_0000_0000) as u32
}

/// The `line` of a position, 0 where it has none.
pub open spec fn line_of(p: JsonV) -> u32 {
    match p.u64_at("line"@) {
        Some(n) => low32(n),
        None => 0,
    }
}

/// Whether a diagnostic's range has lines in common with `start_line..=end_line`;
/// one without a complete range has none.
pub open spec fn overlaps(d: JsonV, start_line: u32, end_line: u32) -> bool {
    match d.get("range"@) {
        Some(r) => match (r.get("start"@), r.get("end"@)) {
            (Some(s), Some(e)) => line_of(s) <= end_line && line_of(e) >= start_line,
            _ => false,
        },
        None => false,
    }
}

/// The diagnostics that overlap the lines `start_line..=end_line`, in their order.
pub open spec fn diagnostics_in_range(diags: JsonV, start_line: u32, end_line: u32) -> JsonV {
    JsonV::Array(diagnostic_items(diags).filter(|d: JsonV| overlaps(d, start_line, end_line)))
}

fn line_in(p: &Json) -> (r: u32)
    ensures
        r == line_of(p@),
{
    match p.u64_at("line") {
        Some(n) => (n % 0x1_0000_0000) as u32,
        None => 0,
    }
}

/// Whether a diagnostic overlaps the lines `start_line..=end_line`.
pub fn diagnostic_overlaps(d: &Json, start_line: u32, end_line: u32) -> (r: bool)
    ensures
        r == overlaps(d@, start_line, end_line),
{
    let Some(range) = d.get("range") else {
        return false;
    };
    let Some(start) = range.get("start") else {
        return false;
    };
    let Some(end) = range.get("end") else {
        return false;
    };
    line_in(start) <= end_line && line_in(end) >= start_line
}

/// Keeps the diagnostics whose range overlaps the lines `start_line..=end_line`.
pub fn filter_diagnostics_in_range(diagnostics: &Json, start_line: u32, end_line: u32) -> (r: Json)
    ensures
        r@ == diagnostics_in_range(diagnostics@, start_line, end_line),
{
    let empty: Vec<Json> = Vec::new();
    let items: &Vec<Json> = match diagnostics {
        Json::Array(a) => a,
        _ => &empty,
    };
    proof {
        assert(items_view(Seq::<Json>::empty()) =~= Seq::<JsonV>::empty());
        lemma_items_view(items@);
    }
    let ghost iv = items_view(items@);
    let ghost p = |d: JsonV| overlaps(d, start_line, end_line);
    let mut out: Vec<Json> = Vec::new();
    let mut i: usize = 0;
    proof {
        assert(iv.subrange(0, 0).filter(p) =~= Seq::<JsonV>::empty()) by {
            reveal(Seq::filter);
        }
        assert(items_view(out@) =~= Seq::<JsonV>::empty());
    }
    while i < items.len()
        invariant
            iv == items_view(items@),
            iv == diagnostic_items(diagnostics@),
            iv.len() == items@.len(),
            forall|k: int| 0 <= k < items@.len() ==> #[trigger] iv[k] == json_view(items@[k]),
            p == (|d: JsonV| overlaps(d, start_line, end_line)),
            0 <= i <= items@.len(),
            items_view(out@) == iv.subrange(0, i as int).filter(p),
        decreases items@.len() - i,
    {
        proof {
            lemma_filter_step(iv, i as int, p);
        }
        if diagnostic_overlaps(&items[i], start_line, end_line) {
            let c = items[i].duplicate();
            proof {
                lemma_items_push(out@, c);
            }
            out.push(c);
        }
        i = i + 1;
    }
    proof {
        assert(iv.subrange(0, iv.len() as int) =~= iv);
    }
    Json::Array(out)
}

/// `n`, or the largest `u64` where `n` is larger.
pub open spec fn saturate(n: nat) -> u64 {
    if n > u64::MAX {
        u64::MAX
    } else {
        n as u64
    }
}

/// The report on one file of the workspace.
pub open spec fn file_report(items: Seq<JsonV>) -> JsonV {
    JsonV::Object(
        seq![("diagnostics"@, JsonV::Array(items)), ("summary"@, severity_summary(items))],
    )
}

/// The files, in their order, whose diagnostics are a non-empty array, each with its report.
pub open spec fn reported_files(e: Seq<(Seq<char>, JsonV)>) -> Seq<(Seq<char>, JsonV)>
    decreases e.len(),
{
    if e.len() == 0 {
        Seq::empty()
    } else {
        let prev = reported_files(e.drop_last());
        let items = diagnostic_items(e.last().1);
        if items.len() > 0 {
            prev.push((e.last().0, file_report(items)))
        } else {
            prev
        }
    }
}

/// How many diagnostics of severity `sev` all the files carry together.
pub open spec fn total_severity(e: Seq<(Seq<char>, JsonV)>, sev: u64) -> nat
    decreases e.len(),
{
    if e.len() == 0 {
        0
    } else {
        total_severity(e.drop_last(), sev) + count_severity(diagnostic_items(e.last().1), sev)
    }
}

/// The report on the whole workspace, from the diagnostics the engine gave per document.
/// A result that is not an object is passed on with a note.
pub open spec fn workspace_report(root: Seq<char>, result: JsonV) -> JsonV {
    match result {
        JsonV::Object(e) => JsonV::Object(
            seq![
                ("workspace"@, JsonV::Str(root)),
                ("files"@, JsonV::Object(reported_files(e))),
                (
                    "summary"@,
                    JsonV::Object(
                        seq![
                            ("total_files"@, JsonV::UInt(reported_files(e).len() as u64)),
                            ("total_errors"@, JsonV::UInt(saturate(total_severity(e, 1)))),
                            ("total_warnings"@, JsonV::UInt(saturate(total_severity(e, 2)))),
                            ("total_information"@, JsonV::UInt(saturate(total_severity(e, 3)))),
                            ("total_hints"@, JsonV::UInt(saturate(total_severity(e, 4)))),
                        ],
                    ),
                ),
            ],
        ),
        _ => JsonV::Object(
            seq![
                ("workspace"@, JsonV::Str(root)),
                ("diagnostics"@, result),
                (
                    "summary"@,
                    JsonV::Object(
                        seq![("note"@, JsonV::Str("Unexpected response format from rust-analyzer"@))],
                    ),
                ),
            ],
        ),
    }
}

proof fn lemma_workspace_step(e: Seq<(Seq<char>, JsonV)>, i: int)
    requires
        0 <= i < e.len(),
    ensures
        reported_files(e.subrange(0, i + 1)) == ({
            let prev = reported_files(e.subrange(0, i));
            let items = diagnostic_items(e[i].1);
            if items.len() > 0 {
                prev.push((e[i].0, file_report(items)))
            } else {
                prev
            }
        }),
        forall|sev: u64|
            #[trigger] total_severity(e.subrange(0, i + 1), sev) == total_severity(e.subrange(0, i), sev)
                + count_severity(diagnostic_items(e[i].1), sev),
{
    let t = e.subrange(0, i + 1);
    assert(t.drop_last() =~= e.subrange(0, i));
}

proof fn lemma_reported_len(e: Seq<(Seq<char>, JsonV)>)
    ensures
        reported_files(e).len() <= e.len(),
    decreases e.len(),
{
    if e.len() > 0 {
        lemma_reported_len(e.drop_last());
    }
}

fn add_saturating(total: u64, c: u64, Ghost(n): Ghost<nat>) -> (r: u64)
    requires
        total == saturate(n),
    ensures
        r == saturate(n + c as nat),
{
    total.saturating_add(c)
}

fn unexpected_report(workspace_root: &str, result: &Json) -> (r: Json)
    ensures
        r@ == JsonV::Object(
            seq![
                ("workspace"@, JsonV::Str(workspace_root@)),
                ("diagnostics"@, result@),
                (
                    "summary"@,
                    JsonV::Object(
                        seq![("note"@, JsonV::Str("Unexpected response format from rust-analyzer"@))],
                    ),
                ),
            ],
        ),
{
    let mut note: Vec<(String, Json)> = Vec::new();
    push_entry(&mut note, "note", text("Unexpected response format from rust-analyzer"));
    let mut e: Vec<(String, Json)> = Vec::new();
    push_entry(&mut e, "workspace", text(workspace_root));
    push_entry(&mut e, "diagnostics", result.duplicate());
    push_entry(&mut e, "summary", Json::Object(note));
    proof {
        assert(entries_view(Seq::<(String, Json)>::empty()) =~= Seq::<(Seq<char>, JsonV)>::empty());
        assert(entries_view(note@) =~= seq![("note"@, JsonV::Str("Unexpected response format from rust-analyzer"@))]);
        assert(entries_view(e@) =~= seq![
            ("workspace"@, JsonV::Str(workspace_root@)),
            ("diagnostics"@, result@),
            ("summary"@, JsonV::Object(entries_view(note@))),
        ]);
    }
    Json::Object(e)
}

/// Formats the diagnostics of a whole workspace, given per document: a report for each
/// document with at least one diagnostic, and the totals by severity.
pub fn format_workspace_diagnostics(workspace_root: &str, result: &Json) -> (r: Json)
    ensures
        r@ == workspace_report(workspace_root@, result@),
{
    let entries = match result {
        Json::Object(entries) => entries,
        _ => {
            return unexpected_report(workspace_root, result);
        },
    };
    let ghost ev = entries_view(entries@);
    proof {
        lemma_entries_view(entries@);
        assert(reported_files(ev.subrange(0, 0)) =~= Seq::<(Seq<char>, JsonV)>::empty());
        assert(entries_view(Seq::<(String, Json)>::empty()) =~= Seq::<(Seq<char>, JsonV)>::empty());
    }
    let mut files: Vec<(String, Json)> = Vec::new();
    let mut file_count: u64 = 0;
    let mut total_errors: u64 = 0;
    let mut total_warnings: u64 = 0;
    let mut total_information: u64 = 0;
    let mut total_hints: u64 = 0;
    let mut i: usize = 0;
    while i < entries.len()
        invariant
            ev == entries_view(entries@),
            result@ == JsonV::Object(ev),
            ev.len() == entries@.len(),
            forall|k: int|
                0 <= k < entries@.len() ==> #[trigger] ev[k] == (entries@[k].0@, json_view(entries@[k].1)),
            0 <= i <= entries@.len(),
            entries_view(files@) == reported_files(ev.subrange(0, i as int)),
            file_count == reported_files(ev.subrange(0, i as int)).len(),
            file_count <= i,
            total_errors == saturate(total_severity(ev.subrange(0, i as int), 1)),
            total_warnings == saturate(total_severity(ev.subrange(0, i as int), 2)),
            total_information == saturate(total_severity(ev.subrange(0, i as int), 3)),
            total_hints == saturate(total_severity(ev.subrange(0, i as int), 4)),
        decreases entries@.len() - i,
    {
        proof {
            lemma_workspace_step(ev, i as int);
            lemma_reported_len(ev.subrange(0, i as int));
        }
        let ghost before = ev.subrange(0, i as int);
        match &entries[i].1 {
            Json::Array(items) => {
                let c = count_by_severity(items);
                total_errors = add_saturating(total_errors, c.0, Ghost(total_severity(before, 1)));
                total_warnings = add_saturating(total_warnings, c.1, Ghost(total_severity(before, 2)));
                total_information = add_saturating(
                    total_information,
                    c.2,
                    Ghost(total_severity(before, 3)),
                );
                total_hints = add_saturating(total_hints, c.3, Ghost(total_severity(before, 4)));
                if items.len() > 0 {
                    proof {
                        lemma_items_view(items@);
                    }
                    let mut report: Vec<(String, Json)> = Vec::new();
                    push_entry(&mut report, "diagnostics", entries[i].1.duplicate());
                    push_entry(&mut report, "summary", summary_object(c));
                    proof {
                        assert(entries_view(Seq::<(String, Json)>::empty()) =~= Seq::<(Seq<char>, JsonV)>::empty());
                        assert(entries_view(report@) =~= file_report(items_view(items@))->Object_0);
                    }
                    push_entry(&mut files, entries[i].0.as_str(), Json::Object(report));
                    file_count = file_count + 1;
                }
            },
            _ => {
                proof {
                    assert(count_severity(Seq::<JsonV>::empty(), 1) == 0) by {
                        reveal(Seq::filter);
                    }
                    assert(count_severity(Seq::<JsonV>::empty(), 2) == 0) by {
                        reveal(Seq::filter);
                    }
                    assert(count_severity(Seq::<JsonV>::empty(), 3) == 0) by {
                        reveal(Seq::filter);
                    }
                    assert(count_severity(Seq::<JsonV>::empty(), 4) == 0) by {
                        reveal(Seq::filter);
                    }
                }
            },
        }
        i = i + 1;
    }
    proof {
        assert(ev.subrange(0, ev.len() as int) =~= ev);
    }
    let mut summary: Vec<(String, Json)> = Vec::new();
    push_entry(&mut summary, "total_files", Json::UInt(file_count));
    push_entry(&mut summary, "total_errors", Json::UInt(total_errors));
    push_entry(&mut summary, "total_warnings", Json::UInt(total_warnings));
    push_entry(&mut summary, "total_information", Json::UInt(total_information));
    push_entry(&mut summary, "total_hints", Json::UInt(total_hints));
    let mut out: Vec<(String, Json)> = Vec::new();
    push_entry(&mut out, "workspace", text(workspace_root));
    push_entry(&mut out, "files", Json::Object(files));
    push_entry(&mut out, "summary", Json::Object(summary));
    proof {
        assert(entries_view(Seq::<(String, Json)>::empty()) =~= Seq::<(Seq<char>, JsonV)>::empty());
        assert(entries_view(summary@) =~= workspace_report(workspace_root@, result@)->Object_0[2].1->Object_0);
        assert(entries_view(out@) =~= workspace_report(workspace_root@, result@)->Object_0);
    }
    Json::Object(out)
}

} // verus!
