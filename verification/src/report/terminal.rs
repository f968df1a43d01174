//! What the terminal report shows: which summary lines appear with which
//! counts, and how a supply chain risk is described. Colours and tables
//! are the caller's.
use vstd::prelude::*;

use crate::text::{dec, push_str, push_u64};
use crate::threshold::{counts_fit, total_vulns, vuln_view};
use crate::{AnalysisResult, RiskKind, SupplyChainRiskType};

verus! {

/// A line of the summary, with its count.
#[derive(Debug, Clone, Copy, PartialEq, Eq, Structural)]
pub enum SummaryItem {
    Unused(usize),
    Vulns(usize),
    Duplicates(usize),
    /// The total size in bytes.
    Size(u64),
    LicenseViolations(usize),
    Outdated(usize),
    SupplyChain(usize),
}

/// A line when there is one.
pub open spec fn line_if(shown: bool, item: SummaryItem) -> Seq<SummaryItem> {
    if shown {
        seq![item]
    } else {
        Seq::empty()
    }
}

/// The unused line: the number of unused dependencies, when there are any.
pub open spec fn unused_line(r: &AnalysisResult) -> Seq<SummaryItem> {
    match r.unused {
        Some(u) => line_if(u.unused@.len() > 0, SummaryItem::Unused(u.unused@.len() as usize)),
        None => Seq::empty(),
    }
}

/// The vulnerability line: the number of vulnerabilities, when there are any.
pub open spec fn vulns_line(r: &AnalysisResult) -> Seq<SummaryItem> {
    match vuln_view(r) {
        Some(rs) => line_if(total_vulns(rs) > 0, SummaryItem::Vulns(total_vulns(rs) as usize)),
        None => Seq::empty(),
    }
}

/// The duplicates line.
pub open spec fn duplicates_line(r: &AnalysisResult) -> Seq<SummaryItem> {
    match r.duplicates {
        Some(d) => line_if(d.duplicates@.len() > 0, SummaryItem::Duplicates(d.total_duplicate_packages)),
        None => Seq::empty(),
    }
}

/// The size line: the total size, when any package was measured.
pub open spec fn size_line(r: &AnalysisResult) -> Seq<SummaryItem> {
    match r.size {
        Some(s) => line_if(s.entries@.len() > 0, SummaryItem::Size(s.total_bytes)),
        None => Seq::empty(),
    }
}

/// The license line: the number of violations, when there are any.
pub open spec fn license_line(r: &AnalysisResult) -> Seq<SummaryItem> {
    match r.license {
        Some(l) => line_if(l.violations@.len() > 0, SummaryItem::LicenseViolations(l.violations@.len() as usize)),
        None => Seq::empty(),
    }
}

/// The outdated line.
pub open spec fn outdated_line(r: &AnalysisResult) -> Seq<SummaryItem> {
    match r.outdated {
        Some(o) => line_if(o.entries@.len() > 0, SummaryItem::Outdated(o.total_outdated)),
        None => Seq::empty(),
    }
}

/// The supply chain line.
pub open spec fn supply_chain_line(r: &AnalysisResult) -> Seq<SummaryItem> {
    match r.supply_chain {
        Some(s) => line_if(s.risks@.len() > 0, SummaryItem::SupplyChain(s.risks@.len() as usize)),
        None => Seq::empty(),
    }
}

/// The summary lines of a result, in order: each analysis that ran and
/// found something, with its count.
pub open spec fn summary_spec(r: &AnalysisResult) -> Seq<SummaryItem> {
    unused_line(r) + vulns_line(r) + duplicates_line(r) + size_line(r) + license_line(r) + outdated_line(r)
        + supply_chain_line(r)
}

/// Appends a line when there is one.
fn push_line(v: &mut Vec<SummaryItem>, shown: bool, item: SummaryItem)
    ensures
        final(v)@ == old(v)@ + line_if(shown, item),
{
    if shown {
        v.push(item);
    } else {
        assert(v@ + Seq::<SummaryItem>::empty() =~= v@);
    }
    assert(shown ==> v@ =~= old(v)@ + seq![item]);
}

/// The summary lines of a result.
pub fn summary_items(r: &AnalysisResult) -> (v: Vec<SummaryItem>)
    requires
        counts_fit(r),
    ensures
        v@ == summary_spec(r),
{
    let mut v: Vec<SummaryItem> = Vec::new();
    match &r.unused {
        Some(u) => push_line(&mut v, u.unused.len() > 0, SummaryItem::Unused(u.unused.len())),
        None => {},
    }
    assert(v@ =~= unused_line(r));
    let ghost a = v@;
    match crate::threshold::checked_vuln_total(r) {
        Some(n) => push_line(&mut v, n > 0, SummaryItem::Vulns(n)),
        None => {},
    }
    assert(v@ =~= a + vulns_line(r));
    let ghost b = v@;
    match &r.duplicates {
        Some(d) => push_line(&mut v, d.duplicates.len() > 0, SummaryItem::Duplicates(d.total_duplicate_packages)),
        None => {},
    }
    assert(v@ =~= b + duplicates_line(r));
    let ghost c = v@;
    match &r.size {
        Some(s) => push_line(&mut v, s.entries.len() > 0, SummaryItem::Size(s.total_bytes)),
        None => {},
    }
    assert(v@ =~= c + size_line(r));
    let ghost d = v@;
    match &r.license {
        Some(l) => push_line(&mut v, l.violations.len() > 0, SummaryItem::LicenseViolations(l.violations.len())),
        None => {},
    }
    assert(v@ =~= d + license_line(r));
    let ghost e = v@;
    match &r.outdated {
        Some(o) => push_line(&mut v, o.entries.len() > 0, SummaryItem::Outdated(o.total_outdated)),
        None => {},
    }
    assert(v@ =~= e + outdated_line(r));
    let ghost f = v@;
    match &r.supply_chain {
        Some(s) => push_line(&mut v, s.risks.len() > 0, SummaryItem::SupplyChain(s.risks.len())),
        None => {},
    }
    assert(v@ =~= f + supply_chain_line(r));
    assert(v@ =~= summary_spec(r));
    v
}

/// How a supply chain risk is described.
pub open spec fn risk_description_spec(k: RiskKind) -> Seq<char> {
    match k {
        RiskKind::Typosquat { similar_to, distance } => "similar to \""@ + similar_to + "\" (distance: "@ + dec(
            distance as nat,
        ) + ")"@,
        RiskKind::ScopeConfusion { legitimate } => "may impersonate \""@ + legitimate + "\""@,
        RiskKind::VersionAnomaly { installed_version } => "abnormal version ("@ + installed_version + ")"@,
    }
}

/// How a supply chain risk is described.
pub fn risk_description(k: &SupplyChainRiskType) -> (r: String)
    ensures
        r@ == risk_description_spec(k.deep_view()),
{
    let mut r = String::new();
    match k {
        SupplyChainRiskType::Typosquat { similar_to, distance } => {
            push_str(&mut r, "similar to \"");
            push_str(&mut r, similar_to.as_str());
            push_str(&mut r, "\" (distance: ");
            push_u64(&mut r, *distance as u64);
            push_str(&mut r, ")");
        },
        SupplyChainRiskType::ScopeConfusion { legitimate } => {
            push_str(&mut r, "may impersonate \"");
            push_str(&mut r, legitimate.as_str());
            push_str(&mut r, "\"");
        },
        SupplyChainRiskType::VersionAnomaly { installed_version } => {
            push_str(&mut r, "abnormal version (");
            push_str(&mut r, installed_version.as_str());
            push_str(&mut r, ")");
        },
    }
    r
}

} // verus!
