//! Report generation: which devices a report covers, its title, the AI
//! settings it needs, and what the AI endpoint's reply becomes.
use vstd::prelude::*;

use crate::ai::client::{spec_base_url, validate_base_url};
use crate::db::snapshot::{bytes_gt, str_gt};
use crate::error::AppError;
use crate::text::{owned, push_str, spec_trim, str_eq, trim, trim_end_char};
use vstd::utf8::encode_utf8;

verus! {

// ---------------------------------------------------------------------------
// Ordering of texts
// ---------------------------------------------------------------------------
/// `a` comes before `b` in the order of `String` (bytewise).
pub open spec fn str_lt(a: Seq<char>, b: Seq<char>) -> bool {
    bytes_gt(encode_utf8(b), encode_utf8(a))
}

proof fn lemma_gt_irreflexive(a: Seq<u8>)
    ensures
        !bytes_gt(a, a),
    decreases a.len(),
{
    if a.len() > 0 {
        lemma_gt_irreflexive(a.drop_first());
    }
}

proof fn lemma_gt_asym(a: Seq<u8>, b: Seq<u8>)
    ensures
        bytes_gt(a, b) ==> !bytes_gt(b, a),
    decreases a.len(),
{
    if a.len() > 0 && b.len() > 0 && a[0] == b[0] {
        lemma_gt_asym(a.drop_first(), b.drop_first());
    }
}

proof fn lemma_gt_trans(a: Seq<u8>, b: Seq<u8>, c: Seq<u8>)
    ensures
        bytes_gt(a, b) && bytes_gt(b, c) ==> bytes_gt(a, c),
    decreases a.len(),
{
    if a.len() > 0 && b.len() > 0 && c.len() > 0 {
        lemma_gt_trans(a.drop_first(), b.drop_first(), c.drop_first());
    }
}

proof fn lemma_gt_total(a: Seq<u8>, b: Seq<u8>)
    ensures
        a != b ==> bytes_gt(a, b) || bytes_gt(b, a),
    decreases a.len(),
{
    if a.len() > 0 && b.len() > 0 && a[0] == b[0] {
        lemma_gt_total(a.drop_first(), b.drop_first());
        if a.drop_first() == b.drop_first() {
            assert(a =~= seq![a[0]] + a.drop_first());
            assert(b =~= seq![b[0]] + b.drop_first());
        }
    } else if a.len() == 0 && b.len() == 0 {
        assert(a =~= b);
    }
}

proof fn lemma_str_order(a: Seq<char>, b: Seq<char>)
    ensures
        !str_lt(a, a),
        str_lt(a, b) ==> !str_lt(b, a),
        a != b ==> str_lt(a, b) || str_lt(b, a),
{
    lemma_gt_irreflexive(encode_utf8(a));
    lemma_gt_asym(encode_utf8(b), encode_utf8(a));
    if a != b {
        vstd::utf8::encode_utf8_decode_utf8(a);
        vstd::utf8::encode_utf8_decode_utf8(b);
        lemma_gt_total(encode_utf8(a), encode_utf8(b));
    }
}

proof fn lemma_str_lt_trans(a: Seq<char>, b: Seq<char>, c: Seq<char>)
    ensures
        str_lt(a, b) && str_lt(b, c) ==> str_lt(a, c),
{
    lemma_gt_trans(encode_utf8(c), encode_utf8(b), encode_utf8(a));
}

// ---------------------------------------------------------------------------
// Devices of a report
// ---------------------------------------------------------------------------
pub open spec fn views(v: Seq<String>) -> Seq<Seq<char>> {
    v.map_values(|s: String| s@)
}

proof fn lemma_views_push(v: Seq<String>, x: String)
    ensures
        views(v.push(x)) == views(v).push(x@),
{
    assert(views(v.push(x)) =~= views(v).push(x@));
}

/// Strictly increasing in the order of `String`.
pub open spec fn strictly_sorted(s: Seq<Seq<char>>) -> bool {
    forall|i: int, j: int| 0 <= i < j < s.len() ==> str_lt(#[trigger] s[i], #[trigger] s[j])
}

/// Whether the list has an entry at `p` that comes before `s`.
fn goes_after(s: &String, r: &Vec<String>, p: usize) -> (b: bool)
    ensures
        b == (p < r@.len() && str_lt(views(r@)[p as int], s@)),
{
    if p < r.len() {
        assert(views(r@)[p as int] == r@[p as int]@);
        str_gt(s.as_str(), r[p].as_str())
    } else {
        false
    }
}

/// The ids sorted in increasing order with duplicates removed: the result is
/// strictly increasing and holds exactly the ids given.
pub fn sorted_unique(ids: Vec<String>) -> (r: Vec<String>)
    ensures
        strictly_sorted(views(r@)),
        forall|x: Seq<char>| #[trigger] views(r@).contains(x) <==> views(ids@).contains(x),
{
    let mut r: Vec<String> = Vec::new();
    let mut i: usize = 0;
    while i < ids.len()
        invariant
            i <= ids@.len(),
            strictly_sorted(views(r@)),
            forall|x: Seq<char>| #[trigger] views(r@).contains(x) <==> views(ids@).take(
                i as int,
            ).contains(x),
        decreases ids.len() - i,
    {
        let s = &ids[i];
        let ghost sv = s@;
        let ghost vr = views(r@);
        let mut p: usize = 0;
        let mut go = goes_after(s, &r, p);
        while go
            invariant
                p <= r@.len(),
                vr == views(r@),
                sv == s@,
                go == (p < vr.len() && str_lt(vr[p as int], sv)),
                forall|k: int| 0 <= k < p ==> str_lt(#[trigger] vr[k], sv),
            decreases r.len() - p,
        {
            p = p + 1;
            go = goes_after(s, &r, p);
        }
        let ghost taken = views(ids@).take(i + 1);
        assert(taken =~= views(ids@).take(i as int).push(sv));
        if p < r.len() && str_eq(r[p].as_str(), s.as_str()) {
            assert forall|x: Seq<char>| #[trigger] views(r@).contains(x) <==> taken.contains(x) by {
                if x == sv {
                    assert(vr[p as int] == sv);
                }
                if taken.contains(x) {
                    let k = choose|k: int| 0 <= k < taken.len() && taken[k] == x;
                    if k < i {
                        assert(views(ids@).take(i as int)[k] == x);
                    }
                }
                if views(ids@).take(i as int).contains(x) {
                    let k = choose|k: int|
                        0 <= k < views(ids@).take(i as int).len() && views(ids@).take(
                            i as int,
                        )[k] == x;
                    assert(taken[k] == x);
                }
            }
        } else {
            proof {
                if p < vr.len() {
                    lemma_str_order(vr[p as int], sv);
                }
            }
            r.insert(p, s.clone());
            let ghost nr = views(r@);
            assert(nr =~= vr.insert(p as int, sv));
            assert forall|a: int, b: int| 0 <= a < b < nr.len() implies str_lt(
                #[trigger] nr[a],
                #[trigger] nr[b],
            ) by {
                if a < p && b == p {
                } else if a < p && b > p {
                    assert(nr[b] == vr[b - 1]);
                    if p < vr.len() {
                        lemma_str_order(vr[p as int], sv);
                        if b - 1 > p {
                            lemma_str_lt_trans(sv, vr[p as int], vr[b - 1]);
                        }
                        lemma_str_lt_trans(vr[a], sv, vr[b - 1]);
                    }
                } else if a == p {
                    assert(nr[b] == vr[b - 1]);
                    lemma_str_order(vr[p as int], sv);
                    if b - 1 > p {
                        lemma_str_lt_trans(sv, vr[p as int], vr[b - 1]);
                    }
                } else if a > p {
                    assert(nr[a] == vr[a - 1]);
                    assert(nr[b] == vr[b - 1]);
                } else {
                    assert(nr[a] == vr[a]);
                    assert(nr[b] == vr[b]);
                }
            }
            assert forall|x: Seq<char>| #[trigger] nr.contains(x) <==> taken.contains(x) by {
                if nr.contains(x) {
                    let k = choose|k: int| 0 <= k < nr.len() && nr[k] == x;
                    if k < p {
                        assert(vr[k] == x);
                        assert(vr.contains(x));
                    } else if k > p {
                        assert(vr[k - 1] == x);
                        assert(vr.contains(x));
                    }
                }
                if vr.contains(x) {
                    let k = choose|k: int| 0 <= k < vr.len() && vr[k] == x;
                    if k < p {
                        assert(nr[k] == x);
                    } else {
                        assert(nr[k + 1] == x);
                    }
                }
                if x == sv {
                    assert(nr[p as int] == x);
                    assert(taken[i as int] == sv);
                }
                if taken.contains(x) {
                    let k = choose|k: int| 0 <= k < taken.len() && taken[k] == x;
                    if k < i {
                        assert(views(ids@).take(i as int)[k] == x);
                    }
                }
                if views(ids@).take(i as int).contains(x) {
                    let k = choose|k: int|
                        0 <= k < views(ids@).take(i as int).len() && views(ids@).take(
                            i as int,
                        )[k] == x;
                    assert(taken[k] == x);
                }
            }
        }
        i = i + 1;
    }
    assert(views(ids@).take(i as int) =~= views(ids@));
    r
}

/// The device ids named by a report scope: the devices listed, then the
/// members of each group listed (as read, group by group).
pub fn gather_device_ids(device_ids: &Option<Vec<String>>, group_members: &Vec<Vec<String>>) -> (r: Vec<String>)
    ensures
        views(r@) == (match device_ids {
            Some(d) => views(d@),
            None => Seq::empty(),
        }) + concat_views(group_members@),
{
    let mut r: Vec<String> = Vec::new();
    match device_ids {
        Some(d) => {
            let mut i: usize = 0;
            while i < d.len()
                invariant
                    i <= d@.len(),
                    views(r@) == views(d@).take(i as int),
                decreases d.len() - i,
            {
                let c = d[i].clone();
                proof {
                    lemma_views_push(r@, c);
                }
                r.push(c);
                i = i + 1;
                assert(views(r@) =~= views(d@).take(i as int));
            }
            assert(views(d@).take(i as int) =~= views(d@));
        },
        None => {},
    }
    let ghost head = views(r@);
    let mut g: usize = 0;
    assert(group_members@.take(0) =~= Seq::<Vec<String>>::empty());
    assert(head + concat_views(Seq::<Vec<String>>::empty()) =~= head);
    while g < group_members.len()
        invariant
            g <= group_members@.len(),
            views(r@) == head + concat_views(group_members@.take(g as int)),
        decreases group_members.len() - g,
    {
        let members = &group_members[g];
        let ghost before = views(r@);
        let mut i: usize = 0;
        while i < members.len()
            invariant
                i <= members@.len(),
                views(r@) == before + views(members@).take(i as int),
            decreases members.len() - i,
        {
            let c = members[i].clone();
            proof {
                lemma_views_push(r@, c);
            }
            r.push(c);
            i = i + 1;
            assert(views(r@) =~= before + views(members@).take(i as int));
        }
        assert(views(members@).take(i as int) =~= views(members@));
        assert(group_members@.take(g + 1).drop_last() =~= group_members@.take(g as int));
        g = g + 1;
        assert(views(r@) =~= head + concat_views(group_members@.take(g as int)));
    }
    assert(group_members@.take(g as int) =~= group_members@);
    r
}

/// The ids of the lists, one list after the other.
pub open spec fn concat_views(ls: Seq<Vec<String>>) -> Seq<Seq<char>>
    decreases ls.len(),
{
    if ls.len() == 0 {
        Seq::empty()
    } else {
        concat_views(ls.drop_last()) + views(ls.last()@)
    }
}

/// What a report scope names before sorting: the listed devices and the
/// groups' members, or every device when that is empty.
pub open spec fn scope_ids(
    listed: Option<Vec<String>>,
    group_members: Seq<Vec<String>>,
    all_devices: Seq<String>,
) -> Seq<Seq<char>> {
    let named = (match listed {
        Some(d) => views(d@),
        None => Seq::empty(),
    }) + concat_views(group_members);
    if named.len() == 0 {
        views(all_devices)
    } else {
        named
    }
}

/// The devices a report covers, sorted and without repeats: those named by
/// the scope (listed devices and members of listed groups), or every device
/// when the scope names none.
pub fn resolve_device_ids(
    listed: &Option<Vec<String>>,
    group_members: &Vec<Vec<String>>,
    all_devices: &Vec<String>,
) -> (r: Vec<String>)
    ensures
        strictly_sorted(views(r@)),
        forall|x: Seq<char>| #[trigger] views(r@).contains(x) <==> scope_ids(
            *listed,
            group_members@,
            all_devices@,
        ).contains(x),
{
    let named = gather_device_ids(listed, group_members);
    if named.len() == 0 {
        sorted_unique(all_devices.clone())
    } else {
        sorted_unique(named)
    }
}

// ---------------------------------------------------------------------------
// Trend of a device's snapshots
// ---------------------------------------------------------------------------
/// How many times `x` occurs in `s`.
pub open spec fn occurrences(s: Seq<Seq<char>>, x: Seq<char>) -> nat
    decreases s.len(),
{
    if s.len() == 0 {
        0
    } else {
        occurrences(s.drop_last(), x) + (if s.last() == x {
            1nat
        } else {
            0nat
        })
    }
}

proof fn lemma_occurrences_bound(s: Seq<Seq<char>>, x: Seq<char>)
    ensures
        occurrences(s, x) <= s.len(),
    decreases s.len(),
{
    if s.len() > 0 {
        lemma_occurrences_bound(s.drop_last(), x);
    }
}

/// How many of the statuses equal `status`.
pub fn count_status(statuses: &Vec<String>, status: &String) -> (n: usize)
    ensures
        n == occurrences(views(statuses@), status@),
{
    let mut n: usize = 0;
    let mut j: usize = 0;
    while j < statuses.len()
        invariant
            j <= statuses@.len(),
            n == occurrences(views(statuses@).take(j as int), status@),
        decreases statuses.len() - j,
    {
        let ghost before = views(statuses@).take(j as int);
        assert(views(statuses@).take(j + 1).drop_last() =~= before);
        proof {
            lemma_occurrences_bound(before, status@);
        }
        if str_eq(statuses[j].as_str(), status.as_str()) {
            n = n + 1;
        }
        j = j + 1;
    }
    assert(views(statuses@).take(j as int) =~= views(statuses@));
    n
}

/// The statuses of a list of counts.
pub open spec fn count_keys(r: Seq<(String, usize)>) -> Seq<Seq<char>> {
    r.map_values(|p: (String, usize)| p.0@)
}

/// How many snapshots carry each status, by status in increasing order:
/// each status that occurs appears once, with its number of occurrences.
pub fn status_counts(statuses: &Vec<String>) -> (r: Vec<(String, usize)>)
    ensures
        strictly_sorted(count_keys(r@)),
        forall|x: Seq<char>| #[trigger]
            count_keys(r@).contains(x) <==> views(statuses@).contains(x),
        forall|i: int|
            0 <= i < r@.len() ==> #[trigger] r@[i].1 == occurrences(views(statuses@), r@[i].0@),
{
    let keys = sorted_unique(statuses.clone());
    let mut r: Vec<(String, usize)> = Vec::new();
    let mut i: usize = 0;
    while i < keys.len()
        invariant
            i <= keys@.len(),
            r@.len() == i,
            forall|k: int| 0 <= k < i ==> (#[trigger] r@[k]).0@ == views(keys@)[k],
            forall|k: int|
                0 <= k < i ==> #[trigger] r@[k].1 == occurrences(views(statuses@), r@[k].0@),
        decreases keys.len() - i,
    {
        let n = count_status(statuses, &keys[i]);
        r.push((keys[i].clone(), n));
        i = i + 1;
    }
    assert(count_keys(r@) =~= views(keys@));
    r
}

/// The largest of the values, or `None` when there are none.
pub fn max_value(values: &Vec<i64>) -> (r: Option<i64>)
    ensures
        values@.len() == 0 <==> r is None,
        r matches Some(m) ==> values@.contains(m) && forall|k: int|
            0 <= k < values@.len() ==> values@[k] <= m,
{
    if values.len() == 0 {
        return None;
    }
    let mut m = values[0];
    let mut i: usize = 1;
    assert(values@.subrange(0, 1)[0] == m);
    while i < values.len()
        invariant
            1 <= i <= values@.len(),
            values@.subrange(0, i as int).contains(m),
            forall|k: int| 0 <= k < i ==> values@[k] <= m,
        decreases values.len() - i,
    {
        if values[i] > m {
            m = values[i];
            assert(values@.subrange(0, i + 1)[i as int] == m);
        } else {
            proof {
                let k = choose|k: int| 0 <= k < i && values@.subrange(0, i as int)[k] == m;
                assert(values@.subrange(0, i + 1)[k] == m);
            }
        }
        i = i + 1;
    }
    assert(values@.subrange(0, i as int) =~= values@);
    Some(m)
}

/// The title of a report: the one given, or the default title.
pub fn report_title(title: Option<String>) -> (r: String)
    ensures
        match title {
            Some(t) => r == t,
            None => r@ == "設備健康摘要報告"@,
        },
{
    match title {
        Some(t) => t,
        None => owned("設備健康摘要報告"),
    }
}

// ---------------------------------------------------------------------------
// AI settings and replies
// ---------------------------------------------------------------------------
/// The settings needed to ask the AI endpoint.
#[derive(Debug, Clone)]
pub struct AiConfig {
    /// The checked, normalised base URL.
    pub base_url: String,
    pub model: String,
    pub api_key: String,
}

/// The message for missing AI settings.
pub open spec fn config_missing_message() -> Seq<char> {
    "請先於設定填入 AI 端點與金鑰"@
}

/// Checks the AI settings: a key and a base URL are required; a blank
/// model means `gpt-4o-mini`; the base URL must pass validation.
pub fn ai_config(base_url: Option<String>, model: Option<String>, api_key: Option<String>) -> (r: Result<AiConfig, AppError>)
    ensures
        api_key is None ==> (r matches Err(AppError::AiConfigMissing(m)) && m@
            == config_missing_message()),
        api_key is Some && (base_url is None || spec_trim(base_url->Some_0@).len() == 0) ==> (
        r matches Err(AppError::AiConfigMissing(m)) && m@ == config_missing_message()),
        api_key is Some && base_url is Some && spec_trim(base_url->Some_0@).len() > 0 ==> (
        match spec_base_url(base_url->Some_0@) {
            Err(m) => r matches Err(AppError::Validation(d)) && d@ == m,
            Ok(u) => r matches Ok(c) && c.base_url@ == trim_end_char(u.serialized, '/') && c.api_key
                == api_key->Some_0 && (match model {
                Some(m) => if spec_trim(m@).len() == 0 {
                    c.model@ == "gpt-4o-mini"@
                } else {
                    c.model == m
                },
                None => c.model@ == "gpt-4o-mini"@,
            }),
        }),
{
    let key = match api_key {
        Some(k) => k,
        None => return Err(AppError::AiConfigMissing(owned("請先於設定填入 AI 端點與金鑰"))),
    };
    let base = match base_url {
        Some(b) => b,
        None => return Err(AppError::AiConfigMissing(owned("請先於設定填入 AI 端點與金鑰"))),
    };
    let t = trim(base.as_str());
    if t.as_str().is_empty() {
        return Err(AppError::AiConfigMissing(owned("請先於設定填入 AI 端點與金鑰")));
    }
    let model = match model {
        Some(m) => {
            let mt = trim(m.as_str());
            if mt.as_str().is_empty() {
                owned("gpt-4o-mini")
            } else {
                m
            }
        },
        None => owned("gpt-4o-mini"),
    };
    let normalized = validate_base_url(base.as_str())?;
    Ok(AiConfig { base_url: normalized, model, api_key: key })
}

/// An unsuccessful HTTP status from the AI endpoint is reported with its
/// status text.
pub fn check_reply_status(success: bool, status: &str) -> (r: Result<(), AppError>)
    ensures
        success ==> r is Ok,
        !success ==> (r matches Err(AppError::AiUnavailable(m)) && m@ == "AI 端點回應狀態 "@
            + status@),
{
    if success {
        Ok(())
    } else {
        let mut m = owned("AI 端點回應狀態 ");
        push_str(&mut m, status);
        Err(AppError::AiUnavailable(m))
    }
}

/// The reply's text, taken from the first choice's message; a reply
/// without it is malformed.
pub fn reply_content(content: Option<String>) -> (r: Result<String, AppError>)
    ensures
        content matches Some(c) ==> r == Ok::<String, AppError>(c),
        content is None ==> (r matches Err(AppError::AiUnavailable(m)) && m@
            == "AI 回應格式不正確"@),
{
    match content {
        Some(c) => Ok(c),
        None => Err(AppError::AiUnavailable(owned("AI 回應格式不正確"))),
    }
}

} // verus!
