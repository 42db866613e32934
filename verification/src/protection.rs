//! The protection reconciler. Given the restriction entries currently on a
//! page and the desired state for one run, it computes the single combined
//! write needed — or decides that none is. The write replaces the page's
//! whole protection state, so every entry worth keeping is resubmitted:
//! new move/edit pairs first, then every directly-set, applicable entry not
//! being changed, carried forward unchanged.

use vstd::prelude::*;
use crate::date::{Date, date_le};
use crate::date::next_day_s;
use crate::date::next_day;
use crate::expiry::{Expiry, Timestamp, ExpiryParseError, expiry_ok, expiry_val, expiry_seq,
    parse_expiry, format_expiry};

verus! {

/// One restriction as the remote system reports it, before parsing.
#[derive(Clone, Debug)]
pub struct RawProtection {
    pub kind: String,
    pub level: String,
    pub expiry: String,
    pub cascading: bool,
    pub source: Option<String>,
}

/// One restriction in effect on a page. A present `source` marks the entry
/// as inherited from another page's cascading protection.
#[derive(Clone, Debug)]
pub struct ProtectionEntry {
    pub kind: String,
    pub level: String,
    pub expiry: Expiry,
    pub cascading: bool,
    pub source: Option<String>,
}

impl ProtectionEntry {
    pub open spec fn wf(self) -> bool {
        self.expiry.wf()
    }
}

/// The target state for one page on one run.
#[derive(Clone, Copy, PartialEq, Eq, Structural, Debug)]
pub struct DesiredProtection {
    pub expiry: Date,
    pub needs_edit: bool,
}

/// The one write that reaches the desired state: `(kind, level)` pairs and
/// the positionally matching expiries, plus whether cascading is kept.
#[derive(Clone, Debug)]
pub struct ProtectionPlan {
    pub protections: Vec<(String, String)>,
    pub expiries: Vec<Expiry>,
    pub cascade: bool,
}

impl ProtectionPlan {
    pub open spec fn wf(self) -> bool {
        &&& self.protections@.len() == self.expiries@.len()
        &&& forall|i: int|
            0 <= i < self.expiries@.len() ==> (#[trigger] self.expiries@[i]).wf()
    }
}

/// Whether an expiry reaches day `d`: the sentinel always does, a timestamp
/// does when its calendar date is on or after `d`.
pub open spec fn sufficient_expiry(e: Expiry, d: Date) -> bool {
    match e {
        Expiry::Infinity => true,
        Expiry::At(ts) => date_le(d, ts.date),
    }
}

/// Whether one entry already provides `kind`-protection at sysop level
/// through day `d`.
pub open spec fn protects(e: ProtectionEntry, kind: Seq<char>, d: Date) -> bool {
    &&& e.level@ == "sysop"@
    &&& e.kind@ == kind
    &&& sufficient_expiry(e.expiry, d)
}

pub open spec fn already_protected(s: Seq<ProtectionEntry>, kind: Seq<char>, d: Date) -> bool {
    exists|i: int| 0 <= i < s.len() && protects(#[trigger] s[i], kind, d)
}

/// Whether the current entries already satisfy the desired state: move
/// protection holds, and edit protection holds where required.
pub open spec fn satisfied(s: Seq<ProtectionEntry>, desired: DesiredProtection) -> bool {
    &&& already_protected(s, "move"@, desired.expiry)
    &&& (!desired.needs_edit || already_protected(s, "edit"@, desired.expiry))
}

/// Whether this run submits a fresh move pair.
pub open spec fn changing_move(s: Seq<ProtectionEntry>, desired: DesiredProtection) -> bool {
    !already_protected(s, "move"@, desired.expiry)
}

/// Whether this run submits a fresh edit pair.
pub open spec fn changing_edit(s: Seq<ProtectionEntry>, desired: DesiredProtection) -> bool {
    desired.needs_edit && !already_protected(s, "edit"@, desired.expiry)
}

/// Whether an existing entry is carried forward: not of the retired legacy
/// kind, not inherited, and not of a kind this run replaces anyway.
pub open spec fn is_carried(e: ProtectionEntry, cm: bool, ce: bool) -> bool {
    &&& e.kind@ != "aft"@
    &&& e.source is None
    &&& !(e.kind@ == "move"@ && cm)
    &&& !(e.kind@ == "edit"@ && ce)
}

/// What one entry contributes to the plan: kind, level, and its own expiry,
/// unchanged.
pub open spec fn item_of(e: ProtectionEntry) -> (Seq<char>, Seq<char>, Expiry) {
    (e.kind@, e.level@, e.expiry)
}

pub open spec fn midnight(d: Date) -> Timestamp {
    Timestamp { date: d, hour: 0, minute: 0, second: 0 }
}

/// The fresh pairs, in submission order: move before edit, each at sysop
/// with the desired day at midnight.
pub open spec fn new_items(s: Seq<ProtectionEntry>, desired: DesiredProtection) -> Seq<
    (Seq<char>, Seq<char>, Expiry),
> {
    (if changing_move(s, desired) {
        seq![("move"@, "sysop"@, Expiry::At(midnight(desired.expiry)))]
    } else {
        Seq::empty()
    }) + (if changing_edit(s, desired) {
        seq![("edit"@, "sysop"@, Expiry::At(midnight(desired.expiry)))]
    } else {
        Seq::empty()
    })
}

/// The carried-forward items of `s`, in the entries' own order.
pub open spec fn carried_items(s: Seq<ProtectionEntry>, cm: bool, ce: bool) -> Seq<
    (Seq<char>, Seq<char>, Expiry),
>
    decreases s.len(),
{
    if s.len() == 0 {
        Seq::empty()
    } else {
        carried_items(s.drop_last(), cm, ce) + (if is_carried(s.last(), cm, ce) {
            seq![item_of(s.last())]
        } else {
            Seq::empty()
        })
    }
}

/// Everything the plan submits: fresh pairs, then carried entries.
pub open spec fn plan_items(s: Seq<ProtectionEntry>, desired: DesiredProtection) -> Seq<
    (Seq<char>, Seq<char>, Expiry),
> {
    new_items(s, desired) + carried_items(s, changing_move(s, desired), changing_edit(s, desired))
}

/// The plan keeps cascading exactly when some carried entry cascades.
pub open spec fn plan_cascade(s: Seq<ProtectionEntry>, desired: DesiredProtection) -> bool {
    exists|i: int|
        0 <= i < s.len() && is_carried(
            #[trigger] s[i],
            changing_move(s, desired),
            changing_edit(s, desired),
        ) && s[i].cascading
}

pub open spec fn vectors_match(
    prots: Seq<(String, String)>,
    exps: Seq<Expiry>,
    items: Seq<(Seq<char>, Seq<char>, Expiry)>,
) -> bool {
    &&& prots.len() == items.len()
    &&& exps.len() == items.len()
    &&& forall|i: int|
        0 <= i < items.len() ==> (#[trigger] prots[i]).0@ == items[i].0 && prots[i].1@
            == items[i].1 && exps[i] == items[i].2
}

/// The plan holds exactly the computed items, positionally aligned, with the
/// computed cascade flag.
pub open spec fn plan_matches(
    p: ProtectionPlan,
    s: Seq<ProtectionEntry>,
    desired: DesiredProtection,
) -> bool {
    &&& vectors_match(p.protections@, p.expiries@, plan_items(s, desired))
    &&& p.cascade == plan_cascade(s, desired)
}

/// An entry faithfully parsed from its raw form.
pub open spec fn entry_matches(e: ProtectionEntry, raw: RawProtection) -> bool {
    &&& e.kind == raw.kind
    &&& e.level == raw.level
    &&& e.expiry == expiry_val(raw.expiry@)
    &&& e.cascading == raw.cascading
    &&& e.source == raw.source
    &&& e.wf()
}

fn string_eq_lit(s: &String, lit: &str) -> (r: bool)
    ensures
        r == (s@ == lit@),
{
    let o: String = lit.to_owned();
    s.eq(&o)
}

pub fn expiry_reaches(e: &Expiry, d: Date) -> (r: bool)
    ensures
        r == sufficient_expiry(*e, d),
{
    match e {
        Expiry::Infinity => true,
        Expiry::At(ts) => crate::date::date_on_or_before(d, ts.date),
    }
}

/// Parses every raw entry; the first unusable expiry fails the whole read,
/// as a state this run cannot interpret must not be rewritten.
pub fn parse_entries(raw: &Vec<RawProtection>) -> (r: Result<
    Vec<ProtectionEntry>,
    ExpiryParseError,
>)
    ensures
        r is Ok <==> (forall|i: int| 0 <= i < raw@.len() ==> expiry_ok(#[trigger] raw@[i].expiry@)),
        r matches Ok(es) ==> es@.len() == raw@.len() && (forall|i: int|
            0 <= i < raw@.len() ==> entry_matches(#[trigger] es@[i], raw@[i])),
        r matches Err(err) ==> exists|i: int|
            0 <= i < raw@.len() && !expiry_ok(#[trigger] raw@[i].expiry@) && err.text@
                == raw@[i].expiry@,
{
    let mut out: Vec<ProtectionEntry> = Vec::new();
    let mut i: usize = 0;
    while i < raw.len()
        invariant
            i <= raw@.len(),
            out@.len() == i,
            forall|j: int| 0 <= j < i ==> expiry_ok(#[trigger] raw@[j].expiry@),
            forall|j: int| 0 <= j < i ==> entry_matches(#[trigger] out@[j], raw@[j]),
        decreases raw@.len() - i,
    {
        let rp = &raw[i];
        match parse_expiry(&rp.expiry) {
            Ok(exp) => {
                let src: Option<String> = match &rp.source {
                    Some(t) => Some(t.clone()),
                    None => None,
                };
                out.push(
                    ProtectionEntry {
                        kind: rp.kind.clone(),
                        level: rp.level.clone(),
                        expiry: exp,
                        cascading: rp.cascading,
                        source: src,
                    },
                );
            },
            Err(err) => {
                proof {
                    assert(!expiry_ok(raw@[i as int].expiry@));
                }
                return Err(err);
            },
        }
        i = i + 1;
    }
    Ok(out)
}

/// The items the plan holds after the first `k` entries are examined.
pub open spec fn partial_items(s: Seq<ProtectionEntry>, desired: DesiredProtection, k: int) -> Seq<
    (Seq<char>, Seq<char>, Expiry),
> {
    new_items(s, desired) + carried_items(
        s.subrange(0, k),
        changing_move(s, desired),
        changing_edit(s, desired),
    )
}

/// Computes the minimal write reaching `desired`, or `None` when the current
/// entries already satisfy it — in which case no write happens at all.
pub fn reconcile(entries: &Vec<ProtectionEntry>, desired: &DesiredProtection) -> (r: Option<
    ProtectionPlan,
>)
    ensures
        r is None <==> satisfied(entries@, *desired),
        r matches Some(p) ==> plan_matches(p, entries@, *desired) && ((desired.expiry.wf()
            && (forall|i: int| 0 <= i < entries@.len() ==> (#[trigger] entries@[i]).wf()))
            ==> p.wf()),
{
    let d: Date = desired.expiry;
    let mut move_protected = false;
    let mut edit_protected = false;
    let mut i: usize = 0;
    while i < entries.len()
        invariant
            i <= entries@.len(),
            move_protected == (exists|j: int|
                0 <= j < i && protects(#[trigger] entries@[j], "move"@, d)),
            edit_protected == (exists|j: int|
                0 <= j < i && protects(#[trigger] entries@[j], "edit"@, d)),
            d == desired.expiry,
        decreases entries@.len() - i,
    {
        let e = &entries[i];
        let lvl_sysop = string_eq_lit(&e.level, "sysop");
        let kind_move = string_eq_lit(&e.kind, "move");
        let kind_edit = string_eq_lit(&e.kind, "edit");
        let reaches = expiry_reaches(&e.expiry, d);
        proof {
            assert(protects(entries@[i as int], "move"@, d) == (lvl_sysop && kind_move
                && reaches));
            assert(protects(entries@[i as int], "edit"@, d) == (lvl_sysop && kind_edit
                && reaches));
        }
        if lvl_sysop && kind_move && reaches {
            move_protected = true;
        }
        if lvl_sysop && kind_edit && reaches {
            edit_protected = true;
        }
        i = i + 1;
    }
    if move_protected && (!desired.needs_edit || edit_protected) {
        return None;
    }
    let changing_mv = !move_protected;
    let changing_ed = desired.needs_edit && !edit_protected;
    let ghost cm = changing_move(entries@, *desired);
    let ghost ce = changing_edit(entries@, *desired);
    proof {
        assert(changing_mv == cm);
        assert(changing_ed == ce);
    }
    let mut protections: Vec<(String, String)> = Vec::new();
    let mut expiries: Vec<Expiry> = Vec::new();
    let mut cascade = false;
    if changing_mv {
        protections.push(("move".to_owned(), "sysop".to_owned()));
        expiries.push(Expiry::At(Timestamp { date: d, hour: 0, minute: 0, second: 0 }));
    }
    if changing_ed {
        protections.push(("edit".to_owned(), "sysop".to_owned()));
        expiries.push(Expiry::At(Timestamp { date: d, hour: 0, minute: 0, second: 0 }));
    }
    proof {
        assert(entries@.subrange(0, 0) =~= Seq::<ProtectionEntry>::empty());
        assert(vectors_match(protections@, expiries@, partial_items(entries@, *desired, 0)));
    }
    let mut k: usize = 0;
    while k < entries.len()
        invariant
            k <= entries@.len(),
            cm == changing_move(entries@, *desired),
            ce == changing_edit(entries@, *desired),
            changing_mv == cm,
            changing_ed == ce,
            d == desired.expiry,
            vectors_match(protections@, expiries@, partial_items(entries@, *desired, k as int)),
            cascade == (exists|j: int|
                0 <= j < k && is_carried(#[trigger] entries@[j], cm, ce) && entries@[j].cascading),
            (desired.expiry.wf() && (forall|j: int|
                0 <= j < entries@.len() ==> (#[trigger] entries@[j]).wf())) ==> (forall|j: int|
                0 <= j < expiries@.len() ==> (#[trigger] expiries@[j]).wf()),
        decreases entries@.len() - k,
    {
        let e = &entries[k];
        let aft = string_eq_lit(&e.kind, "aft");
        let inherited = e.source.is_some();
        let kind_move = string_eq_lit(&e.kind, "move");
        let kind_edit = string_eq_lit(&e.kind, "edit");
        let dropped = aft || inherited || (kind_move && changing_mv) || (kind_edit && changing_ed);
        proof {
            assert(is_carried(entries@[k as int], cm, ce) == !dropped);
        }
        if !dropped {
            if e.cascading {
                cascade = true;
            }
            protections.push((e.kind.clone(), e.level.clone()));
            expiries.push(e.expiry);
        }
        proof {
            assert(entries@.subrange(0, k as int + 1).drop_last() =~= entries@.subrange(
                0,
                k as int,
            ));
            assert(entries@.subrange(0, k as int + 1).last() == entries@[k as int]);
        }
        k = k + 1;
    }
    proof {
        assert(entries@.subrange(0, entries@.len() as int) =~= entries@);
    }
    Some(ProtectionPlan { protections, expiries, cascade })
}

/// The desired protection for a page featured on `day`: it must stay
/// protected through the following day.
pub fn desired_for(day: Date, needs_edit: bool) -> (r: DesiredProtection)
    requires
        day.valid(),
        day.year < 9999,
    ensures
        r.expiry == next_day_s(day),
        r.needs_edit == needs_edit,
        r.expiry.valid(),
        r.expiry.wf(),
{
    DesiredProtection { expiry: next_day(day), needs_edit }
}

proof fn lemma_carried_items_contains(s: Seq<ProtectionEntry>, cm: bool, ce: bool, k: int)
    requires
        0 <= k < s.len(),
        is_carried(s[k], cm, ce),
    ensures
        exists|j: int|
            0 <= j < carried_items(s, cm, ce).len() && carried_items(s, cm, ce)[j] == item_of(
                s[k],
            ),
    decreases s.len(),
{
    let pre = carried_items(s.drop_last(), cm, ce);
    if k == s.len() - 1 {
        assert(carried_items(s, cm, ce)[pre.len() as int] == item_of(s[k]));
    } else {
        lemma_carried_items_contains(s.drop_last(), cm, ce, k);
        let j = choose|j: int|
            0 <= j < pre.len() && pre[j] == item_of(s.drop_last()[k]);
        assert(s.drop_last()[k] == s[k]);
        assert(carried_items(s, cm, ce)[j] == item_of(s[k]));
    }
}

proof fn lemma_carried_items_origin(s: Seq<ProtectionEntry>, cm: bool, ce: bool, j: int)
    requires
        0 <= j < carried_items(s, cm, ce).len(),
    ensures
        exists|k: int|
            0 <= k < s.len() && is_carried(#[trigger] s[k], cm, ce) && carried_items(s, cm, ce)[j]
                == item_of(s[k]),
    decreases s.len(),
{
    let pre = carried_items(s.drop_last(), cm, ce);
    if j < pre.len() {
        lemma_carried_items_origin(s.drop_last(), cm, ce, j);
        let k = choose|k: int|
            0 <= k < s.drop_last().len() && is_carried(#[trigger] s.drop_last()[k], cm, ce)
                && pre[j] == item_of(s.drop_last()[k]);
        assert(s.drop_last()[k] == s[k]);
        assert(is_carried(s[k], cm, ce) && carried_items(s, cm, ce)[j] == item_of(s[k]));
    } else {
        assert(is_carried(s.last(), cm, ce) && carried_items(s, cm, ce)[j] == item_of(s.last()));
        assert(s.last() == s[s.len() - 1]);
    }
}

/// Preservation: an existing entry that is directly set, applicable, and not
/// of a kind this run replaces appears among the plan's items unchanged —
/// same kind, level, and original expiry.
pub proof fn lemma_preservation(s: Seq<ProtectionEntry>, desired: DesiredProtection, k: int)
    requires
        0 <= k < s.len(),
        s[k].kind@ != "aft"@,
        s[k].source is None,
        !(s[k].kind@ == "move"@ && changing_move(s, desired)),
        !(s[k].kind@ == "edit"@ && changing_edit(s, desired)),
    ensures
        exists|j: int|
            0 <= j < plan_items(s, desired).len() && plan_items(s, desired)[j] == item_of(s[k]),
{
    let cm = changing_move(s, desired);
    let ce = changing_edit(s, desired);
    lemma_carried_items_contains(s, cm, ce, k);
    let j = choose|j: int|
        0 <= j < carried_items(s, cm, ce).len() && carried_items(s, cm, ce)[j] == item_of(s[k]);
    assert(plan_items(s, desired)[new_items(s, desired).len() + j] == item_of(s[k]));
}

/// No inherited resubmission: every item of the plan is either one of the
/// fresh pairs or stems from a directly-set entry — one whose `source` is
/// absent. An inherited entry contributes nothing.
pub proof fn lemma_no_inherited(s: Seq<ProtectionEntry>, desired: DesiredProtection, j: int)
    requires
        0 <= j < plan_items(s, desired).len(),
    ensures
        j < new_items(s, desired).len() || exists|k: int|
            0 <= k < s.len() && (#[trigger] s[k]).source is None && plan_items(s, desired)[j]
                == item_of(s[k]),
{
    let cm = changing_move(s, desired);
    let ce = changing_edit(s, desired);
    if j >= new_items(s, desired).len() {
        lemma_carried_items_origin(s, cm, ce, j - new_items(s, desired).len());
        let k = choose|k: int|
            0 <= k < s.len() && is_carried(#[trigger] s[k], cm, ce) && carried_items(s, cm, ce)[j
                - new_items(s, desired).len()] == item_of(s[k]);
        assert(s[k].source is None && plan_items(s, desired)[j] == item_of(s[k]));
    }
}

/// The wire form of the pairs: `kind=level`, joined with `|`.
pub open spec fn pairs_param_seq(s: Seq<(String, String)>) -> Seq<char>
    decreases s.len(),
{
    if s.len() == 0 {
        Seq::empty()
    } else if s.len() == 1 {
        s[0].0@ + seq!['='] + s[0].1@
    } else {
        pairs_param_seq(s.drop_last()) + seq!['|'] + s.last().0@ + seq!['='] + s.last().1@
    }
}

/// The wire form of the expiries, joined with `|`, positionally matching the
/// pairs.
pub open spec fn expiries_param_seq(s: Seq<Expiry>) -> Seq<char>
    decreases s.len(),
{
    if s.len() == 0 {
        Seq::empty()
    } else if s.len() == 1 {
        expiry_seq(s[0])
    } else {
        expiries_param_seq(s.drop_last()) + seq!['|'] + expiry_seq(s.last())
    }
}

pub fn protections_param(plan: &ProtectionPlan) -> (r: String)
    ensures
        r@ == pairs_param_seq(plan.protections@),
{
    let mut s = String::new();
    let mut i: usize = 0;
    while i < plan.protections.len()
        invariant
            i <= plan.protections@.len(),
            s@ == pairs_param_seq(plan.protections@.subrange(0, i as int)),
        decreases plan.protections@.len() - i,
    {
        if i > 0 {
            s.append("|");
        }
        let p = &plan.protections[i];
        s.append(p.0.as_str());
        s.append("=");
        s.append(p.1.as_str());
        proof {
            reveal_strlit("|");
            reveal_strlit("=");
            let pre = plan.protections@.subrange(0, i as int);
            let now = plan.protections@.subrange(0, i as int + 1);
            assert(now.drop_last() =~= pre);
            assert(now.last() == plan.protections@[i as int]);
            if i == 0 {
                assert(now[0] == plan.protections@[0]);
            }
            assert(s@ =~= pairs_param_seq(now));
        }
        i = i + 1;
    }
    proof {
        assert(plan.protections@.subrange(0, plan.protections@.len() as int)
            =~= plan.protections@);
    }
    s
}

pub fn expiries_param(plan: &ProtectionPlan) -> (r: String)
    requires
        plan.wf(),
    ensures
        r@ == expiries_param_seq(plan.expiries@),
{
    let mut s = String::new();
    let mut i: usize = 0;
    while i < plan.expiries.len()
        invariant
            plan.wf(),
            i <= plan.expiries@.len(),
            s@ == expiries_param_seq(plan.expiries@.subrange(0, i as int)),
        decreases plan.expiries@.len() - i,
    {
        if i > 0 {
            s.append("|");
        }
        let v = format_expiry(&plan.expiries[i]);
        s.append(v.as_str());
        proof {
            reveal_strlit("|");
            let pre = plan.expiries@.subrange(0, i as int);
            let now = plan.expiries@.subrange(0, i as int + 1);
            assert(now.drop_last() =~= pre);
            assert(now.last() == plan.expiries@[i as int]);
            if i == 0 {
                assert(now[0] == plan.expiries@[0]);
            }
            assert(s@ =~= expiries_param_seq(now));
        }
        i = i + 1;
    }
    proof {
        assert(plan.expiries@.subrange(0, plan.expiries@.len() as int) =~= plan.expiries@);
    }
    s
}

/// Whether every expiry the plan holds can be formatted; callers outside
/// verified code test this before asking for the wire form.
pub fn plan_is_wf(plan: &ProtectionPlan) -> (r: bool)
    ensures
        r == plan.wf(),
{
    if plan.protections.len() != plan.expiries.len() {
        return false;
    }
    let mut i: usize = 0;
    while i < plan.expiries.len()
        invariant
            i <= plan.expiries@.len(),
            plan.protections@.len() == plan.expiries@.len(),
            forall|j: int| 0 <= j < i ==> (#[trigger] plan.expiries@[j]).wf(),
        decreases plan.expiries@.len() - i,
    {
        let ok = match &plan.expiries[i] {
            Expiry::Infinity => true,
            Expiry::At(ts) => ts.date.month >= 1 && ts.date.month <= 12 && ts.date.day >= 1
                && ts.date.day <= 31 && ts.date.year <= 9999 && ts.hour < 24 && ts.minute < 60
                && ts.second < 60,
        };
        if !ok {
            proof {
                assert(!plan.expiries@[i as int].wf());
            }
            return false;
        }
        i = i + 1;
    }
    true
}

} // verus!
