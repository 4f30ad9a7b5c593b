//! Reading metrics from device CLI output.
//!
//! Parsing is best effort and never guesses: a metric whose output cannot
//! be read is "not available" (`n/a`). Percentages and counts are read as
//! decimal texts; turning them into floating-point numbers is left to the
//! caller.
use vstd::prelude::*;

use regex::Regex;

use crate::models::Brand;
use crate::export::{lines, spec_lines};
use crate::text::{
    all_digits, chars_of, digits_value, find_char, index_of_char, owned, spec_trim, str_eq, trim,
};

verus! {

// ---------------------------------------------------------------------------
// Regular expressions
// ---------------------------------------------------------------------------
/// Capture group 1 of the first match of the regular expression `pattern`
/// in `text` (`regex` crate); `None` when the pattern is invalid, nothing
/// matches, or the group does not take part.
pub uninterp spec fn spec_regex_first_group(pattern: Seq<char>, text: Seq<char>) -> Option<Seq<char>>;

/// Capture group 1 of each successive non-overlapping match of `pattern` in
/// `text`, skipping matches where the group does not take part; empty when
/// the pattern is invalid.
pub uninterp spec fn spec_regex_all_groups(pattern: Seq<char>, text: Seq<char>) -> Seq<Seq<char>>;

/// The text of `s` with every character in lower case (`str::to_lowercase`).
pub uninterp spec fn spec_to_lowercase(s: Seq<char>) -> Seq<char>;

/// `Regex::new(pattern)` then `captures(text)`, giving group 1.
#[verifier::external_body]
fn regex_first_group(pattern: &str, text: &str) -> (r: Option<String>)
    ensures
        r matches Some(g) ==> spec_regex_first_group(pattern@, text@) matches Some(t) && t == g@,
        r is None ==> spec_regex_first_group(pattern@, text@) is None,
{
    let re = Regex::new(pattern).ok()?;
    re.captures(text).and_then(|c| c.get(1)).map(|m| m.as_str().to_string())
}

/// `Regex::new(pattern)` then `captures_iter(text)`, giving group 1 of each
/// match.
#[verifier::external_body]
fn regex_all_groups(pattern: &str, text: &str) -> (r: Vec<String>)
    ensures
        r@.len() == spec_regex_all_groups(pattern@, text@).len(),
        forall|i: int|
            0 <= i < r@.len() ==> #[trigger] r@[i]@ == spec_regex_all_groups(pattern@, text@)[i],
{
    match Regex::new(pattern) {
        Ok(re) => re.captures_iter(text).filter_map(|c| c.get(1)).map(
            |m| m.as_str().to_string(),
        ).collect(),
        Err(_) => Vec::new(),
    }
}

/// `str::to_lowercase`.
#[verifier::external_body]
fn to_lowercase(s: &str) -> (r: String)
    ensures
        r@ == spec_to_lowercase(s@),
{
    s.to_lowercase()
}

// ---------------------------------------------------------------------------
// Metric values
// ---------------------------------------------------------------------------
/// A metric read from device output.
#[derive(Debug, Clone)]
pub enum MetricValue {
    /// The metric could not be read (`n/a`).
    NotAvailable,
    /// CPU usage, as a decimal percentage text.
    Cpu { usage_percent: String },
    /// Memory usage given as a percentage (decimal text).
    MemoryPercent { usage_percent: String },
    /// Memory usage given as used and total amounts (digit texts; the total
    /// is positive). The usage percentage is `used / total * 100`, rounded
    /// to one decimal.
    MemoryTotals { used: String, total: String },
    /// Load samples, as decimal percentage texts.
    Loading { samples_percent: Vec<String> },
    /// Interface summary: non-blank lines, and counts of ` up` and `down`.
    Interface { total_lines: usize, up: usize, down: usize },
}

/// A metric value with its texts as character sequences.
pub enum MetricView {
    NotAvailable,
    Cpu(Seq<char>),
    MemoryPercent(Seq<char>),
    MemoryTotals(Seq<char>, Seq<char>),
    Loading(Seq<Seq<char>>),
    Interface(nat, nat, nat),
}

impl View for MetricValue {
    type V = MetricView;

    open spec fn view(&self) -> MetricView {
        match self {
            MetricValue::NotAvailable => MetricView::NotAvailable,
            MetricValue::Cpu { usage_percent } => MetricView::Cpu(usage_percent@),
            MetricValue::MemoryPercent { usage_percent } => MetricView::MemoryPercent(
                usage_percent@,
            ),
            MetricValue::MemoryTotals { used, total } => MetricView::MemoryTotals(used@, total@),
            MetricValue::Loading { samples_percent } => MetricView::Loading(
                samples_percent@.map_values(|s: String| s@),
            ),
            MetricValue::Interface { total_lines, up, down } => MetricView::Interface(
                *total_lines as nat,
                *up as nat,
                *down as nat,
            ),
        }
    }
}

// ---------------------------------------------------------------------------
// Decimal texts
// ---------------------------------------------------------------------------
/// Digits, optionally followed by `.` and digits: the texts that the
/// percentage pattern captures and that read as floating-point numbers.
pub open spec fn is_decimal_text(t: Seq<char>) -> bool {
    match find_char(t, '.') {
        None => t.len() > 0 && all_digits(t),
        Some(i) => i > 0 && all_digits(t.take(i as int)) && t.len() > i + 1 && all_digits(
            t.skip(i as int + 1),
        ),
    }
}

fn digits_in(cs: &[char], from: usize, to: usize) -> (r: bool)
    requires
        from <= to <= cs@.len(),
    ensures
        r == all_digits(cs@.subrange(from as int, to as int)),
{
    let mut i = from;
    while i < to
        invariant
            from <= i <= to <= cs@.len(),
            forall|k: int| from <= k < i ==> crate::text::is_digit(#[trigger] cs@[k]),
        decreases to - i,
    {
        if !('0' <= cs[i] && cs[i] <= '9') {
            assert(!all_digits(cs@.subrange(from as int, to as int))) by {
                assert(cs@.subrange(from as int, to as int)[i - from] == cs@[i as int]);
            }
            return false;
        }
        i = i + 1;
    }
    assert forall|k: int| 0 <= k < to - from implies crate::text::is_digit(
        #[trigger] cs@.subrange(from as int, to as int)[k],
    ) by {
        assert(cs@.subrange(from as int, to as int)[k] == cs@[k + from]);
    }
    true
}

fn decimal_text(t: &str) -> (r: bool)
    ensures
        r == is_decimal_text(t@),
{
    let cs = chars_of(t);
    let i = index_of_char(cs.as_slice(), '.', 0);
    assert(cs@.subrange(0, cs@.len() as int) =~= cs@);
    if i == cs.len() {
        cs.len() > 0 && digits_in(cs.as_slice(), 0, cs.len())
    } else {
        assert(cs@.take(i as int) =~= cs@.subrange(0, i as int));
        assert(cs@.skip(i + 1) =~= cs@.subrange(i + 1, cs@.len() as int));
        i > 0 && digits_in(cs.as_slice(), 0, i) && cs.len() > i + 1 && digits_in(
            cs.as_slice(),
            i + 1,
            cs.len(),
        )
    }
}

// ---------------------------------------------------------------------------
// Per-metric parsers
// ---------------------------------------------------------------------------
/// A number followed by `%`.
pub open spec fn percent_pattern() -> Seq<char> {
    "(\\d+(?:\\.\\d+)?)\\s*%"@
}

/// The first percentage in the text, when it reads as a number.
pub open spec fn spec_first_percent(raw: Seq<char>) -> Option<Seq<char>> {
    match spec_regex_first_group(percent_pattern(), raw) {
        Some(t) => if is_decimal_text(t) {
            Some(t)
        } else {
            None
        },
        None => None,
    }
}

/// Every percentage in the text that reads as a number, in order.
pub open spec fn decimal_texts(ts: Seq<Seq<char>>) -> Seq<Seq<char>>
    decreases ts.len(),
{
    if ts.len() == 0 {
        Seq::empty()
    } else if is_decimal_text(ts.last()) {
        decimal_texts(ts.drop_last()).push(ts.last())
    } else {
        decimal_texts(ts.drop_last())
    }
}

pub open spec fn spec_all_percents(raw: Seq<char>) -> Seq<Seq<char>> {
    decimal_texts(spec_regex_all_groups(percent_pattern(), raw))
}

fn first_percent(raw: &str) -> (r: Option<String>)
    ensures
        r matches Some(t) ==> spec_first_percent(raw@) == Some(t@),
        r is None ==> spec_first_percent(raw@) is None,
{
    match regex_first_group("(\\d+(?:\\.\\d+)?)\\s*%", raw) {
        Some(t) => if decimal_text(t.as_str()) {
            Some(t)
        } else {
            None
        },
        None => None,
    }
}

fn all_percents(raw: &str) -> (r: Vec<String>)
    ensures
        r@.map_values(|s: String| s@) == spec_all_percents(raw@),
{
    let all = regex_all_groups("(\\d+(?:\\.\\d+)?)\\s*%", raw);
    let ghost ts = spec_regex_all_groups(percent_pattern(), raw@);
    let mut r: Vec<String> = Vec::new();
    let mut i: usize = 0;
    while i < all.len()
        invariant
            i <= all@.len(),
            all@.len() == ts.len(),
            forall|k: int| 0 <= k < all@.len() ==> #[trigger] all@[k]@ == ts[k],
            r@.map_values(|s: String| s@) == decimal_texts(ts.take(i as int)),
        decreases all.len() - i,
    {
        let t = all[i].clone();
        let ghost before = r@.map_values(|s: String| s@);
        assert(ts.take(i + 1).drop_last() =~= ts.take(i as int));
        assert(ts.take(i + 1).last() == ts[i as int]);
        if decimal_text(t.as_str()) {
            r.push(t);
            assert(r@.map_values(|s: String| s@) =~= before.push(ts[i as int]));
        }
        i = i + 1;
    }
    assert(ts.take(i as int) =~= ts);
    r
}

/// A number after a label (any case), as in `Total: 200`.
pub open spec fn label_pattern(label: Seq<char>) -> Seq<char> {
    "(?i)"@ + label + "\\s*:?\\s*(\\d+)"@
}

/// The amount given after a label, when it reads as a number.
pub open spec fn spec_labelled(raw: Seq<char>, label: Seq<char>) -> Option<Seq<char>> {
    match spec_regex_first_group(label_pattern(label), raw) {
        Some(t) => if t.len() > 0 && all_digits(t) {
            Some(t)
        } else {
            None
        },
        None => None,
    }
}

fn labelled(raw: &str, label: &str) -> (r: Option<String>)
    ensures
        r matches Some(t) ==> spec_labelled(raw@, label@) == Some(t@),
        r is None ==> spec_labelled(raw@, label@) is None,
{
    let mut p = owned("(?i)");
    crate::text::push_str(&mut p, label);
    crate::text::push_str(&mut p, "\\s*:?\\s*(\\d+)");
    match regex_first_group(p.as_str(), raw) {
        Some(t) => {
            let tc = chars_of(t.as_str());
            if tc.len() > 0 && digits_in(tc.as_slice(), 0, tc.len()) {
                assert(tc@.subrange(0, tc@.len() as int) =~= tc@);
                Some(t)
            } else {
                assert(tc@.subrange(0, tc@.len() as int) =~= tc@);
                None
            }
        },
        None => None,
    }
}

/// CPU: the first percentage.
pub open spec fn spec_parse_cpu(raw: Seq<char>) -> MetricView {
    match spec_first_percent(raw) {
        Some(t) => MetricView::Cpu(t),
        None => MetricView::NotAvailable,
    }
}

/// Memory: the first percentage; otherwise the amounts after `Total` and
/// `Used` when the total is positive.
pub open spec fn spec_parse_memory(raw: Seq<char>) -> MetricView {
    match spec_first_percent(raw) {
        Some(t) => MetricView::MemoryPercent(t),
        None => match (spec_labelled(raw, "Total"@), spec_labelled(raw, "Used"@)) {
            (Some(total), Some(used)) => if digits_value(total) > 0 {
                MetricView::MemoryTotals(used, total)
            } else {
                MetricView::NotAvailable
            },
            _ => MetricView::NotAvailable,
        },
    }
}

/// Loading: every percentage, when there is at least one.
pub open spec fn spec_parse_loading(raw: Seq<char>) -> MetricView {
    let ps = spec_all_percents(raw);
    if ps.len() == 0 {
        MetricView::NotAvailable
    } else {
        MetricView::Loading(ps)
    }
}

/// The number of non-overlapping occurrences of `pat` in `s`, found from
/// left to right (`str::matches(..).count()`).
pub open spec fn spec_count_matches(s: Seq<char>, pat: Seq<char>) -> nat
    decreases s.len(),
{
    if pat.len() == 0 || s.len() < pat.len() {
        0
    } else if s.take(pat.len() as int) == pat {
        1 + spec_count_matches(s.skip(pat.len() as int), pat)
    } else {
        spec_count_matches(s.drop_first(), pat)
    }
}

/// The number of lines that are not blank.
pub open spec fn count_nonblank(ls: Seq<Seq<char>>) -> nat
    decreases ls.len(),
{
    if ls.len() == 0 {
        0
    } else {
        count_nonblank(ls.drop_last()) + if spec_trim(ls.last()).len() > 0 {
            1nat
        } else {
            0nat
        }
    }
}

/// Interfaces: the counts of ` up` and `down` in the lower-cased output,
/// and its non-blank lines; not available when neither word occurs.
pub open spec fn spec_parse_interface(raw: Seq<char>) -> MetricView {
    let lower = spec_to_lowercase(raw);
    let up = spec_count_matches(lower, " up"@);
    let down = spec_count_matches(lower, "down"@);
    if up == 0 && down == 0 {
        MetricView::NotAvailable
    } else {
        MetricView::Interface(count_nonblank(spec_lines(raw)), up, down)
    }
}

/// What [`parse_metric`] reads for a metric.
pub open spec fn spec_parse_metric(metric: Seq<char>, raw: Seq<char>) -> MetricView {
    if metric == "cpu"@ {
        spec_parse_cpu(raw)
    } else if metric == "memory"@ {
        spec_parse_memory(raw)
    } else if metric == "loading"@ {
        spec_parse_loading(raw)
    } else if metric == "interface"@ {
        spec_parse_interface(raw)
    } else {
        MetricView::NotAvailable
    }
}

/// Interfaces are read from the lower-cased output: the reading is not
/// available exactly when neither ` up` nor `down` occurs in it; otherwise
/// it counts every non-overlapping ` up` and every `down` (either count may
/// be 0) and the non-blank lines of the output.
pub proof fn lemma_interface_reading(raw: Seq<char>)
    ensures
        ({
            let lower = spec_to_lowercase(raw);
            let up = spec_count_matches(lower, " up"@);
            let down = spec_count_matches(lower, "down"@);
            &&& (spec_parse_metric("interface"@, raw) is NotAvailable) <==> (up == 0 && down == 0)
            &&& (up > 0 || down > 0) ==> spec_parse_metric("interface"@, raw) == MetricView::Interface(
                count_nonblank(spec_lines(raw)),
                up,
                down,
            )
        }),
{
    reveal_strlit("interface");
    reveal_strlit("cpu");
    reveal_strlit("memory");
    reveal_strlit("loading");
    assert("interface"@.len() != "cpu"@.len() && "interface"@.len() != "memory"@.len());
    assert("interface"@.len() != "loading"@.len());
}

/// Loading keeps every percentage of the output that reads as a number, in
/// order and with none dropped (the captured groups of the percentage
/// pattern, filtered to those that read as numbers); it is not available
/// exactly when there is none.
pub proof fn lemma_loading_reading(raw: Seq<char>)
    ensures
        spec_all_percents(raw) == spec_regex_all_groups(percent_pattern(), raw).filter(
            |t: Seq<char>| is_decimal_text(t),
        ),
        (spec_parse_metric("loading"@, raw) is NotAvailable) <==> spec_all_percents(raw).len() == 0,
        spec_all_percents(raw).len() > 0 ==> spec_parse_metric("loading"@, raw)
            == MetricView::Loading(spec_all_percents(raw)),
{
    lemma_decimal_texts_keep_all(spec_regex_all_groups(percent_pattern(), raw));
    reveal_strlit("loading");
    reveal_strlit("cpu");
    reveal_strlit("memory");
    assert("loading"@.len() != "cpu"@.len() && "loading"@.len() != "memory"@.len());
}

/// The percentages kept are exactly the captured groups that read as
/// numbers: each kept text is such a group, and every such group is kept,
/// as many times as it is captured.
pub proof fn lemma_decimal_texts_keep_all(ts: Seq<Seq<char>>)
    ensures
        forall|k: int| 0 <= k < decimal_texts(ts).len() ==> is_decimal_text(
            #[trigger] decimal_texts(ts)[k],
        ) && ts.contains(decimal_texts(ts)[k]),
        decimal_texts(ts).len() == ts.filter(|t: Seq<char>| is_decimal_text(t)).len(),
        decimal_texts(ts) == ts.filter(|t: Seq<char>| is_decimal_text(t)),
    decreases ts.len(),
{
    reveal(Seq::filter);
    if ts.len() > 0 {
        lemma_decimal_texts_keep_all(ts.drop_last());
        let d = decimal_texts(ts.drop_last());
        assert forall|k: int| 0 <= k < decimal_texts(ts).len() implies is_decimal_text(
            #[trigger] decimal_texts(ts)[k],
        ) && ts.contains(decimal_texts(ts)[k]) by {
            if k < d.len() {
                assert(decimal_texts(ts)[k] == d[k]);
                let j = choose|j: int| 0 <= j < ts.drop_last().len() && ts.drop_last()[j] == d[k];
                assert(ts[j] == d[k]);
            } else {
                assert(ts[ts.len() - 1] == ts.last());
            }
        }
    }
}

/// The non-blank lines counted are exactly the lines that are not empty
/// once trimmed.
pub proof fn lemma_count_nonblank_filter(ls: Seq<Seq<char>>)
    ensures
        count_nonblank(ls) == ls.filter(|l: Seq<char>| spec_trim(l).len() > 0).len(),
    decreases ls.len(),
{
    reveal(Seq::filter);
    if ls.len() > 0 {
        lemma_count_nonblank_filter(ls.drop_last());
    }
}

/// CPU usage is the first percentage of the output (group 1 of the first
/// match of the percentage pattern) when it reads as a number; otherwise it
/// is not available.
pub proof fn lemma_cpu_reading(raw: Seq<char>)
    ensures
        match spec_regex_first_group(percent_pattern(), raw) {
            Some(t) => if is_decimal_text(t) {
                spec_parse_metric("cpu"@, raw) == MetricView::Cpu(t)
            } else {
                spec_parse_metric("cpu"@, raw) is NotAvailable
            },
            None => spec_parse_metric("cpu"@, raw) is NotAvailable,
        },
{
}

/// Memory usage is the first percentage when there is one; otherwise the
/// amounts after `Total` and `Used` (both present, the total positive);
/// otherwise it is not available.
pub proof fn lemma_memory_reading(raw: Seq<char>)
    ensures
        match spec_first_percent(raw) {
            Some(t) => spec_parse_metric("memory"@, raw) == MetricView::MemoryPercent(t),
            None => match spec_labelled(raw, "Total"@) {
                Some(total) => match spec_labelled(raw, "Used"@) {
                    Some(used) => if digits_value(total) > 0 {
                        spec_parse_metric("memory"@, raw) == MetricView::MemoryTotals(used, total)
                    } else {
                        spec_parse_metric("memory"@, raw) is NotAvailable
                    },
                    None => spec_parse_metric("memory"@, raw) is NotAvailable,
                },
                None => spec_parse_metric("memory"@, raw) is NotAvailable,
            },
        },
{
    reveal_strlit("cpu");
    reveal_strlit("memory");
    assert("cpu"@.len() != "memory"@.len());
}

fn parse_cpu(raw: &str) -> (r: MetricValue)
    ensures
        r@ == spec_parse_cpu(raw@),
{
    match first_percent(raw) {
        Some(t) => MetricValue::Cpu { usage_percent: t },
        None => MetricValue::NotAvailable,
    }
}

fn parse_memory(raw: &str) -> (r: MetricValue)
    ensures
        r@ == spec_parse_memory(raw@),
{
    if let Some(t) = first_percent(raw) {
        return MetricValue::MemoryPercent { usage_percent: t };
    }
    let total = labelled(raw, "Total");
    let used = labelled(raw, "Used");
    match (total, used) {
        (Some(total), Some(used)) => {
            let tc = chars_of(total.as_str());
            let mut positive = false;
            let mut i: usize = 0;
            while i < tc.len()
                invariant
                    i <= tc@.len(),
                    all_digits(tc@),
                    positive == exists|k: int| 0 <= k < i && tc@[k] != '0',
                decreases tc.len() - i,
            {
                if tc[i] != '0' {
                    positive = true;
                }
                i = i + 1;
            }
            proof {
                lemma_digits_positive(tc@);
            }
            if positive {
                MetricValue::MemoryTotals { used, total }
            } else {
                MetricValue::NotAvailable
            }
        },
        _ => MetricValue::NotAvailable,
    }
}

/// A digit string has a positive value exactly when one of its digits is
/// not `0`.
proof fn lemma_digits_positive(s: Seq<char>)
    requires
        all_digits(s),
    ensures
        digits_value(s) > 0 <==> exists|k: int| 0 <= k < s.len() && s[k] != '0',
    decreases s.len(),
{
    if s.len() > 0 {
        let p = s.drop_last();
        assert(all_digits(p)) by {
            assert forall|i: int| 0 <= i < p.len() implies crate::text::is_digit(#[trigger] p[i]) by {
                assert(p[i] == s[i]);
            }
        }
        lemma_digits_positive(p);
        crate::text::lemma_digits_value_nonneg(p);
        assert(crate::text::is_digit(s[s.len() - 1]));
        if exists|k: int| 0 <= k < p.len() && p[k] != '0' {
            let k = choose|k: int| 0 <= k < p.len() && p[k] != '0';
            assert(s[k] == p[k]);
        }
        if exists|k: int| 0 <= k < s.len() && s[k] != '0' {
            let k = choose|k: int| 0 <= k < s.len() && s[k] != '0';
            if k < p.len() {
                assert(p[k] == s[k]);
            }
        }
    }
}

fn parse_loading(raw: &str) -> (r: MetricValue)
    ensures
        r@ == spec_parse_loading(raw@),
{
    let pcts = all_percents(raw);
    if pcts.len() == 0 {
        MetricValue::NotAvailable
    } else {
        MetricValue::Loading { samples_percent: pcts }
    }
}

/// Counts the non-overlapping occurrences of `pat` in `s`.
fn count_matches(s: &[char], pat: &str) -> (r: usize)
    ensures
        r == spec_count_matches(s@, pat@),
{
    let p = chars_of(pat);
    let n = s.len();
    let m = p.len();
    let mut count: usize = 0;
    let mut i: usize = 0;
    assert(s@.skip(0) =~= s@);
    if m == 0 {
        return 0;
    }
    while m <= n - i
        invariant
            m == p@.len() > 0,
            n == s@.len(),
            i <= n,
            count <= i,
            spec_count_matches(s@, p@) == count + spec_count_matches(s@.skip(i as int), p@),
        decreases n - i,
    {
        let mut k: usize = 0;
        let mut same = true;
        while k < m
            invariant
                m == p@.len(),
                i + m <= n == s@.len(),
                k <= m,
                same == (forall|j: int| 0 <= j < k ==> s@[i + j] == p@[j]),
            decreases m - k,
        {
            if s[i + k] != p[k] {
                same = false;
            }
            k = k + 1;
        }
        let ghost rest = s@.skip(i as int);
        if same {
            assert(rest.take(m as int) =~= p@);
            assert(rest.skip(m as int) =~= s@.skip(i + m));
            count = count + 1;
            i = i + m;
        } else {
            assert(rest.take(m as int) != p@) by {
                let w = choose|j: int| 0 <= j < m && s@[i + j] != p@[j];
                assert(rest.take(m as int)[w] == s@[i + w]);
            }
            assert(rest.drop_first() =~= s@.skip(i + 1));
            i = i + 1;
        }
    }
    assert(spec_count_matches(s@.skip(i as int), p@) == 0);
    count
}

fn count_nonblank_lines(raw: &str) -> (r: usize)
    ensures
        r == count_nonblank(spec_lines(raw@)),
{
    let ls = lines(raw);
    let ghost lv = spec_lines(raw@);
    let mut count: usize = 0;
    let mut i: usize = 0;
    while i < ls.len()
        invariant
            i <= ls@.len(),
            ls@.len() == lv.len(),
            forall|k: int| 0 <= k < ls@.len() ==> #[trigger] ls@[k]@ == lv[k],
            count == count_nonblank(lv.take(i as int)),
            count <= i,
        decreases ls.len() - i,
    {
        let t = trim(ls[i].as_str());
        assert(lv.take(i + 1).drop_last() =~= lv.take(i as int));
        assert(lv.take(i + 1).last() == lv[i as int]);
        if !t.as_str().is_empty() {
            count = count + 1;
        }
        i = i + 1;
    }
    assert(lv.take(i as int) =~= lv);
    count
}

fn parse_interface(raw: &str) -> (r: MetricValue)
    ensures
        r@ == spec_parse_interface(raw@),
{
    let lower = to_lowercase(raw);
    let lc = chars_of(lower.as_str());
    let up = count_matches(lc.as_slice(), " up");
    let down = count_matches(lc.as_slice(), "down");
    if up == 0 && down == 0 {
        return MetricValue::NotAvailable;
    }
    let total = count_nonblank_lines(raw);
    MetricValue::Interface { total_lines: total, up, down }
}

/// Reads one metric from a command's output. `cpu`, `memory`, `loading`
/// and `interface` are parsed; every other metric is not available.
pub fn parse_metric(brand: Brand, metric: &str, raw: &str) -> (r: MetricValue)
    ensures
        r@ == spec_parse_metric(metric@, raw@),
{
    let _ = brand;
    if str_eq(metric, "cpu") {
        parse_cpu(raw)
    } else if str_eq(metric, "memory") {
        parse_memory(raw)
    } else if str_eq(metric, "loading") {
        parse_loading(raw)
    } else if str_eq(metric, "interface") {
        parse_interface(raw)
    } else {
        MetricValue::NotAvailable
    }
}

} // verus!
