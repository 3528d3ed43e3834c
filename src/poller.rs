//! Waiting for the engine's diagnostics to settle: the retry policy of the diagnostics
//! tool, and the detector of stable readings.
use vstd::prelude::*;
use vstd::string::StringExecFns;

use crate::json::{contains_text, items_view, json_view, lemma_items_view, text_contains, text_eq, Json, JsonV};

verus! {

/// Milliseconds between two reads of a document's diagnostics.
pub const POLL_INTERVAL_MILLIS: u64 = 500;

/// Milliseconds after which the retries give up, keeping the last read.
pub const POLL_TIMEOUT_MILLIS: u64 = 8000;

/// Milliseconds waited before the single read of a document expected to be clean.
pub const CLEAN_FILE_DELAY_MILLIS: u64 = 2000;

/// Whether the tool retries on a file: those expected to hold findings.
pub open spec fn polls_file(file_path: Seq<char>) -> bool {
    contains_text(file_path, "diagnostics_test"@) || contains_text(file_path, "simple_error"@)
}

/// Whether the diagnostics tool retries reading `file_path` until findings appear.
pub fn should_poll(file_path: &str) -> (r: bool)
    ensures
        r == polls_file(file_path@),
{
    text_contains(file_path, "diagnostics_test") || text_contains(file_path, "simple_error")
}

/// Whether a read found something: a non-empty array.
pub open spec fn has_findings(result: JsonV) -> bool {
    match result {
        JsonV::Array(a) => a.len() > 0,
        _ => false,
    }
}

/// Whether to read again: time is left, and the last read found nothing.
pub fn keep_polling(elapsed_millis: u64, timeout_millis: u64, last: &Json) -> (r: bool)
    ensures
        r == (elapsed_millis < timeout_millis && !has_findings(last@)),
{
    if elapsed_millis >= timeout_millis {
        return false;
    }
    match last {
        Json::Array(a) => {
            proof {
                lemma_items_view(a@);
            }
            a.len() == 0
        },
        _ => true,
    }
}

/// How many identical readings in a row make the diagnostics stable.
pub fn required_stable_checks(ci: bool) -> (r: u64)
    ensures
        r == if ci {
            4u64
        } else {
            3u64
        },
{
    if ci {
        4
    } else {
        3
    }
}

/// Messages that come and go while the engine starts, and are left out of a summary.
pub open spec fn is_transient(message: Seq<char>) -> bool {
    contains_text(message, "unresolved macro"@) || contains_text(message, "no such value"@)
}

/// The key of one finding: `file:severity:message`.
pub open spec fn finding_key(file: Seq<char>, d: JsonV) -> Seq<char> {
    let sev = match d.str_at("severity"@) {
        Some(s) => s,
        None => "unknown"@,
    };
    let msg = match d.str_at("message"@) {
        Some(m) => m,
        None => ""@,
    };
    file + ":"@ + sev + ":"@ + msg
}

pub open spec fn kept(d: JsonV) -> bool {
    match d.str_at("message"@) {
        Some(m) => !is_transient(m),
        None => true,
    }
}

/// The keys of the findings in formatted diagnostics, the transient ones left out.
pub open spec fn summary_keys(file: Seq<char>, diags: Seq<JsonV>) -> Seq<Seq<char>>
    decreases diags.len(),
{
    if diags.len() == 0 {
        Seq::empty()
    } else {
        let prev = summary_keys(file, diags.drop_last());
        if kept(diags.last()) {
            prev.push(finding_key(file, diags.last()))
        } else {
            prev
        }
    }
}

/// The findings listed under `diagnostics` in a formatted report.
pub open spec fn report_findings(report: JsonV) -> Seq<JsonV> {
    match report.get("diagnostics"@) {
        Some(JsonV::Array(a)) => a,
        _ => Seq::empty(),
    }
}

fn finding_key_of(file: &str, d: &Json) -> (r: String)
    ensures
        r@ == finding_key(file@, d@),
{
    let mut k = file.to_string();
    k.append(":");
    match d.str_at("severity") {
        Some(s) => k.append(s),
        None => k.append("unknown"),
    }
    k.append(":");
    match d.str_at("message") {
        Some(m) => k.append(m),
        None => k.append(""),
    }
    k
}

/// Summarises a formatted report of one file for the stability check: a key per
/// finding, the transient ones left out.
pub fn summarize(file: &str, report: &Json) -> (r: Vec<String>)
    ensures
        keys_of(r@) == summary_keys(file@, report_findings(report@)),
{
    let empty: Vec<Json> = Vec::new();
    let diags: &Vec<Json> = match report.get("diagnostics") {
        Some(Json::Array(a)) => a,
        _ => &empty,
    };
    proof {
        lemma_items_view(diags@);
        assert(items_view(Seq::<Json>::empty()) =~= Seq::<JsonV>::empty());
    }
    let ghost dv = items_view(diags@);
    assert(dv == report_findings(report@));
    let mut out: Vec<String> = Vec::new();
    let mut i: usize = 0;
    assert(keys_of(out@) =~= summary_keys(file@, dv.subrange(0, 0)));
    while i < diags.len()
        invariant
            dv == items_view(diags@),
            dv.len() == diags@.len(),
            forall|k: int| 0 <= k < diags@.len() ==> #[trigger] dv[k] == json_view(diags@[k]),
            0 <= i <= diags@.len(),
            keys_of(out@) == summary_keys(file@, dv.subrange(0, i as int)),
        decreases diags@.len() - i,
    {
        proof {
            assert(dv.subrange(0, i + 1).drop_last() =~= dv.subrange(0, i as int));
        }
        let d = &diags[i];
        let skip = match d.str_at("message") {
            Some(m) => text_contains(m, "unresolved macro") || text_contains(m, "no such value"),
            None => false,
        };
        if !skip {
            let k = finding_key_of(file, d);
            let ghost before = out@;
            out.push(k);
            proof {
                assert(keys_of(out@) =~= keys_of(before).push(k@));
            }
        }
        i = i + 1;
    }
    proof {
        assert(dv.subrange(0, dv.len() as int) =~= dv);
    }
    out
}

pub open spec fn keys_of(v: Seq<String>) -> Seq<Seq<char>> {
    v.map_values(|s: String| s@)
}

pub open spec fn key_set(v: Seq<String>) -> Set<Seq<char>> {
    keys_of(v).to_set()
}

fn contains_key(v: &Vec<String>, k: &String) -> (r: bool)
    ensures
        r == key_set(v@).contains(k@),
{
    let mut i: usize = 0;
    while i < v.len()
        invariant
            0 <= i <= v@.len(),
            forall|j: int| 0 <= j < i ==> v@[j]@ != k@,
        decreases v@.len() - i,
    {
        if text_eq(v[i].as_str(), k.as_str()) {
            assert(keys_of(v@)[i as int] == k@);
            return true;
        }
        i = i + 1;
    }
    assert(!keys_of(v@).contains(k@));
    false
}

fn includes(a: &Vec<String>, b: &Vec<String>) -> (r: bool)
    ensures
        r == key_set(a@).subset_of(key_set(b@)),
{
    let mut i: usize = 0;
    while i < a.len()
        invariant
            0 <= i <= a@.len(),
            forall|j: int| 0 <= j < i ==> key_set(b@).contains(#[trigger] a@[j]@),
        decreases a@.len() - i,
    {
        if !contains_key(b, &a[i]) {
            assert(key_set(a@).contains(a@[i as int]@)) by {
                assert(keys_of(a@)[i as int] == a@[i as int]@);
            }
            return false;
        }
        i = i + 1;
    }
    assert forall|x: Seq<char>| key_set(a@).contains(x) implies key_set(b@).contains(x) by {
        let j = choose|j: int| 0 <= j < a@.len() && #[trigger] keys_of(a@)[j] == x;
        assert(a@[j]@ == x);
    }
    true
}

/// Whether two summaries hold the same keys.
pub fn same_summary(a: &Vec<String>, b: &Vec<String>) -> (r: bool)
    ensures
        r == (key_set(a@) == key_set(b@)),
{
    let r = includes(a, b) && includes(b, a);
    proof {
        if key_set(a@) == key_set(b@) {
            assert(key_set(a@).subset_of(key_set(b@)));
        }
        if r {
            assert(key_set(a@) =~= key_set(b@));
        }
    }
    r
}

/// The length of the run of identical readings that ends with reading `s`.
pub open spec fn next_run(last: Option<Set<Seq<char>>>, run: u64, s: Set<Seq<char>>) -> u64 {
    match last {
        Some(l) => if l == s {
            if run < u64::MAX {
                (run + 1) as u64
            } else {
                run
            }
        } else {
            1
        },
        None => 1,
    }
}

/// The length of the run of identical readings at the end of `reads`.
pub open spec fn run_after(reads: Seq<Set<Seq<char>>>) -> u64
    decreases reads.len(),
{
    if reads.len() == 0 {
        0
    } else {
        let prev = reads.drop_last();
        next_run(
            if prev.len() == 0 {
                None
            } else {
                Some(prev.last())
            },
            run_after(prev),
            reads.last(),
        )
    }
}

/// Watches successive summaries of the diagnostics and says when they have settled.
pub struct StabilityDetector {
    last: Option<Vec<String>>,
    run: u64,
    required: u64,
    settled_once: bool,
}

impl StabilityDetector {
    /// The last summary read, as a set of keys.
    pub closed spec fn last_summary(&self) -> Option<Set<Seq<char>>> {
        match self.last {
            Some(v) => Some(key_set(v@)),
            None => None,
        }
    }

    /// How many identical summaries in a row end the readings so far.
    pub closed spec fn run_spec(&self) -> u64 {
        self.run
    }

    pub closed spec fn required_spec(&self) -> u64 {
        self.required
    }

    /// Whether two readings in a row were ever identical.
    pub closed spec fn settled_once_spec(&self) -> bool {
        self.settled_once
    }

    /// A detector that wants `required` identical readings in a row.
    pub fn new(required: u64) -> (r: Self)
        ensures
            r.last_summary() is None,
            r.run_spec() == 0,
            r.required_spec() == required,
            !r.settled_once_spec(),
    {
        StabilityDetector { last: None, run: 0, required, settled_once: false }
    }

    /// Takes one reading; says whether the readings are now stable: the last
    /// `required` of them identical. A reading unlike the one before starts the count
    /// again.
    pub fn observe(&mut self, summary: Vec<String>) -> (r: bool)
        ensures
            final(self).last_summary() == Some(key_set(summary@)),
            final(self).run_spec() == next_run(old(self).last_summary(), old(self).run_spec(), key_set(summary@)),
            final(self).required_spec() == old(self).required_spec(),
            final(self).settled_once_spec() == (old(self).settled_once_spec() || final(self).run_spec() >= 2),
            r == (final(self).run_spec() >= final(self).required_spec()),
    {
        let same = match &self.last {
            Some(l) => same_summary(l, &summary),
            None => false,
        };
        if same {
            if self.run < u64::MAX {
                self.run = self.run + 1;
            }
        } else {
            self.run = 1;
        }
        if self.run >= 2 {
            self.settled_once = true;
        }
        self.last = Some(summary);
        self.run >= self.required
    }

    /// The identical readings in a row, after the first of the run.
    pub fn stable_count(&self) -> (r: u64)
        ensures
            r == if self.run_spec() == 0 {
                0
            } else {
                (self.run_spec() - 1) as u64
            },
    {
        if self.run == 0 {
            0
        } else {
            self.run - 1
        }
    }

    /// Whether to go on when time runs out before the readings are stable: yes where
    /// two readings in a row were ever identical, no where none ever were.
    pub fn good_enough(&self) -> (r: bool)
        ensures
            r == self.settled_once_spec(),
    {
        self.settled_once
    }
}

/// The run of identical readings grows by one with each reading like the last, and
/// starts again at one with a reading unlike it.
pub proof fn lemma_run_step(reads: Seq<Set<Seq<char>>>, s: Set<Seq<char>>)
    ensures
        run_after(reads.push(s)) == if reads.len() > 0 && reads.last() == s {
            if run_after(reads) < u64::MAX {
                (run_after(reads) + 1) as u64
            } else {
                run_after(reads)
            }
        } else {
            1u64
        },
{
    assert(reads.push(s).drop_last() =~= reads);
}

/// After `k` identical readings the run is `k` long: the detector reports stable at the
/// `required`-th identical reading and not before.
pub proof fn lemma_run_of_identical(s: Set<Seq<char>>, k: nat)
    requires
        1 <= k <= u64::MAX,
    ensures
        run_after(Seq::new(k, |i: int| s)) == k,
    decreases k,
{
    if k == 1 {
        lemma_run_step(Seq::<Set<Seq<char>>>::empty(), s);
        assert(Seq::<Set<Seq<char>>>::empty().push(s) =~= Seq::new(1, |i: int| s));
    } else {
        lemma_run_of_identical(s, (k - 1) as nat);
        let prev = Seq::new((k - 1) as nat, |i: int| s);
        lemma_run_step(prev, s);
        assert(prev.push(s) =~= Seq::new(k, |i: int| s));
    }
}

} // verus!
