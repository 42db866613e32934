//! Decisions around finding the scheduled title of a day: the names of the
//! per-day pages, the override-then-extract fallback order, the pick of the
//! first bold link from a rendered page, and the redirect fan-out that says
//! which pages get reconciled and whether edit protection is required.

use vstd::prelude::*;
use crate::date::Date;
use crate::text::{date_heading, date_heading_seq, trim, trimmed};

verus! {

/// The name of the per-day override page editors maintain.
pub open spec fn override_page_seq(d: Date) -> Seq<char> {
    "Template:TFA title/"@ + date_heading_seq(d)
}

/// The name of the per-day featured-article page itself.
pub open spec fn tfa_page_seq(d: Date) -> Seq<char> {
    "Wikipedia:Today's featured article/"@ + date_heading_seq(d)
}

pub fn override_page_name(d: Date) -> (r: String)
    requires
        d.wf(),
    ensures
        r@ == override_page_seq(d),
{
    let mut s: String = "Template:TFA title/".to_owned();
    let h = date_heading(d);
    s.append(h.as_str());
    s
}

pub fn tfa_page_name(d: Date) -> (r: String)
    requires
        d.wf(),
    ensures
        r@ == tfa_page_seq(d),
{
    let mut s: String = "Wikipedia:Today's featured article/".to_owned();
    let h = date_heading(d);
    s.append(h.as_str());
    s
}

/// What reading one page produced: its text, a distinguished "no such page",
/// or any other failure with its description.
pub enum PageFetch {
    Content(String),
    Missing,
    FetchError(String),
}

/// The next step after the override lookup: a title, the order to try the
/// costlier extraction, or a failure that stops the day.
pub enum TitleStep {
    Resolved(String),
    TryExtract,
    Failed(String),
}

/// The override page settles the title when it exists: its trimmed content.
/// Only the distinguished "no such page" falls through to extraction; any
/// other failure propagates.
pub fn resolve_override(fetch: PageFetch) -> (r: TitleStep)
    ensures
        fetch matches PageFetch::Content(t) ==> r matches TitleStep::Resolved(x) && x@ == trimmed(
            t@,
        ),
        fetch is Missing ==> r is TryExtract,
        fetch matches PageFetch::FetchError(e) ==> r matches TitleStep::Failed(m) && m@ == e@,
{
    match fetch {
        PageFetch::Content(t) => TitleStep::Resolved(trim(t.as_str())),
        PageFetch::Missing => TitleStep::TryExtract,
        PageFetch::FetchError(e) => TitleStep::Failed(e),
    }
}

/// The first bold span that links anywhere, taken as linking to the featured
/// title: the first link target of the first non-empty group.
pub open spec fn first_bold_s(s: Seq<Vec<String>>) -> Option<String>
    decreases s.len(),
{
    if s.len() == 0 {
        Option::None
    } else if s[0]@.len() > 0 {
        Option::Some(s[0]@[0])
    } else {
        first_bold_s(s.drop_first())
    }
}

/// Picks the first link of the first bold span that has one, from the link
/// targets of each bold span of a rendered page, in document order.
pub fn first_bold_link(bolds: &Vec<Vec<String>>) -> (r: Option<String>)
    ensures
        r is Some <==> first_bold_s(bolds@) is Some,
        r matches Some(t) ==> first_bold_s(bolds@) matches Some(x) && t == x,
{
    let mut i: usize = 0;
    proof {
        assert(bolds@.skip(0) =~= bolds@);
    }
    while i < bolds.len()
        invariant
            i <= bolds@.len(),
            first_bold_s(bolds@) == first_bold_s(bolds@.skip(i as int)),
        decreases bolds@.len() - i,
    {
        if bolds[i].len() > 0 {
            proof {
                assert(bolds@.skip(i as int)[0] == bolds@[i as int]);
            }
            return Some(bolds[i][0].clone());
        }
        proof {
            assert(bolds@.skip(i as int).drop_first() =~= bolds@.skip(i as int + 1));
            assert(bolds@.skip(i as int)[0] == bolds@[i as int]);
        }
        i = i + 1;
    }
    proof {
        assert(bolds@.skip(i as int).len() == 0);
    }
    None
}

/// The pages one resolved title makes this run reconcile, in order. A
/// redirect is protected first (edit protection required, so the redirect
/// cannot be edited away), then its target (no edit protection); a plain
/// title is reconciled alone, without edit protection. The flag beside each
/// title is whether edit protection is required there.
pub fn reconcile_targets(title: String, redirect: Option<String>) -> (r: Vec<(String, bool)>)
    ensures
        redirect is Some ==> r@.len() == 2,
        redirect is None ==> r@.len() == 1,
        r@[0].0 == title,
        r@[0].1 == redirect is Some,
        redirect matches Some(t) ==> r@[1].0 == t && r@[1].1 == false,
{
    let mut out: Vec<(String, bool)> = Vec::new();
    match redirect {
        Some(t) => {
            out.push((title, true));
            out.push((t, false));
        },
        None => {
            out.push((title, false));
        },
    }
    out
}

} // verus!
