//! Markdown reports.
use vstd::prelude::*;

use super::{bytes_text, format_bytes};
use crate::i18n::{translate, I18n, Lang};

use crate::text::{dec, push_str, push_u64};
use crate::threshold::{counts_fit, lemma_total_prefix, total_vulns};
use crate::{AnalysisResult, DepType, DuplicateDep, LicenseEntry, LicenseViolation, OutdatedEntry, Severity, SizeEntry, SupplyChainRisk, SupplyChainRiskType, UnusedDep, UpgradePriority, ViolationReason, VulnReport, Vulnerability};

verus! {

/// Renders analysis results as Markdown.
pub struct MarkdownReporter;

/// A message text in a language.
pub open spec fn tr(lang: Lang, key: Seq<char>) -> Seq<char> {
    translate(lang, key)
}

/// The label of a dependency type.
pub open spec fn type_text(t: DepType, lang: Lang) -> Seq<char> {
    match t {
        DepType::Prod => tr(lang, "prod"@),
        DepType::Dev => tr(lang, "dev"@),
    }
}

/// A severity with its marker.
pub open spec fn severity_text(s: Severity, lang: Lang) -> Seq<char> {
    match s {
        Severity::Critical => "🔴 "@ + tr(lang, "critical"@),
        Severity::High => "🔴 "@ + tr(lang, "high"@),
        Severity::Medium => "🟡 "@ + tr(lang, "medium"@),
        Severity::Low => "🟢 "@ + tr(lang, "low"@),
    }
}

/// An upgrade priority with its marker.
pub open spec fn priority_text(p: UpgradePriority, lang: Lang) -> Seq<char> {
    match p {
        UpgradePriority::Critical => "🔴 "@ + tr(lang, "critical"@),
        UpgradePriority::High => "🟡 "@ + tr(lang, "high"@),
        UpgradePriority::Medium => "🟠 "@ + tr(lang, "medium"@),
        UpgradePriority::Low => "⚪ "@ + tr(lang, "low"@),
    }
}

/// A table row of cells.
pub open spec fn row2(a: Seq<char>, b: Seq<char>) -> Seq<char> {
    "| "@ + a + " | "@ + b + " |\n"@
}

/// A table row of three cells.
pub open spec fn row3(a: Seq<char>, b: Seq<char>, c: Seq<char>) -> Seq<char> {
    "| "@ + a + " | "@ + b + " | "@ + c + " |\n"@
}

/// A table row of four cells.
pub open spec fn row4(a: Seq<char>, b: Seq<char>, c: Seq<char>, d: Seq<char>) -> Seq<char> {
    "| "@ + a + " | "@ + b + " | "@ + c + " | "@ + d + " |\n"@
}

/// A table row of five cells.
pub open spec fn row5(a: Seq<char>, b: Seq<char>, c: Seq<char>, d: Seq<char>, e: Seq<char>) -> Seq<
    char,
> {
    "| "@ + a + " | "@ + b + " | "@ + c + " | "@ + d + " | "@ + e + " |\n"@
}

/// The rows of unused dependencies.
pub open spec fn unused_rows(ds: Seq<UnusedDep>, lang: Lang) -> Seq<char>
    decreases ds.len(),
{
    if ds.len() == 0 {
        Seq::empty()
    } else {
        let d = ds.last();
        unused_rows(ds.drop_last(), lang) + row3(d.name@, d.version@, type_text(d.dep_type, lang))
    }
}

/// The unused-dependency section (nothing when there is none).
pub open spec fn unused_section(result: AnalysisResult, lang: Lang) -> Seq<char> {
    match result.unused {
        Some(r) => if r.unused@.len() > 0 {
            "## 📦 "@ + tr(lang, "unused_deps"@) + " ("@ + dec(r.unused@.len()) + ")\n\n"@ + row3(
                tr(lang, "package"@),
                tr(lang, "version"@),
                tr(lang, "type"@),
            ) + "|------|------|------|\n"@ + unused_rows(r.unused@, lang) + "\n"@
        } else {
            Seq::empty()
        },
        None => Seq::empty(),
    }
}

/// The fix column of a vulnerability.
pub open spec fn fix_text(v: Vulnerability, lang: Lang) -> Seq<char> {
    match v.fixed_version {
        Some(f) => f@,
        None => tr(lang, "none"@),
    }
}

/// The rows of one package's vulnerabilities.
pub open spec fn vuln_rows(r: VulnReport, vs: Seq<Vulnerability>, lang: Lang) -> Seq<char>
    decreases vs.len(),
{
    if vs.len() == 0 {
        Seq::empty()
    } else {
        let v = vs.last();
        vuln_rows(r, vs.drop_last(), lang) + row5(
            r.package@,
            r.version@,
            severity_text(v.severity, lang),
            v.id@,
            fix_text(v, lang),
        )
    }
}

/// The rows of all vulnerability reports.
pub open spec fn report_rows(rs: Seq<VulnReport>, lang: Lang) -> Seq<char>
    decreases rs.len(),
{
    if rs.len() == 0 {
        Seq::empty()
    } else {
        report_rows(rs.drop_last(), lang) + vuln_rows(rs.last(), rs.last().vulns@, lang)
    }
}

/// The vulnerability section (nothing when there is no report).
pub open spec fn vulns_section(result: AnalysisResult, lang: Lang) -> Seq<char> {
    match result.vulns {
        Some(rs) => if rs@.len() > 0 {
            "## 🛡️ "@ + tr(lang, "vulns"@) + " ("@ + dec(total_vulns(rs.deep_view())) + ")\n\n"@
                + row5(
                tr(lang, "package"@),
                tr(lang, "version"@),
                tr(lang, "severity"@),
                "ID"@,
                tr(lang, "fix_version"@),
            ) + "|------|------|----------|--------|----------|\n"@ + report_rows(rs@, lang)
                + "\n"@
        } else {
            Seq::empty()
        },
        None => Seq::empty(),
    }
}

/// `vs` joined by `sep`.
pub open spec fn joined(vs: Seq<Seq<char>>, sep: Seq<char>) -> Seq<char>
    decreases vs.len(),
{
    if vs.len() == 0 {
        Seq::empty()
    } else if vs.len() == 1 {
        vs[0]
    } else {
        joined(vs.drop_last(), sep) + sep + vs.last()
    }
}

/// The rows of duplicate packages.
pub open spec fn duplicate_rows(ds: Seq<DuplicateDep>) -> Seq<char>
    decreases ds.len(),
{
    if ds.len() == 0 {
        Seq::empty()
    } else {
        duplicate_rows(ds.drop_last()) + row2(
            ds.last().name@,
            joined(ds.last().versions.deep_view(), ", "@),
        )
    }
}

/// The duplicates section (nothing when there is none).
pub open spec fn duplicates_section(result: AnalysisResult, lang: Lang) -> Seq<char> {
    match result.duplicates {
        Some(d) => if d.duplicates@.len() > 0 {
            "## 🔄 "@ + tr(lang, "duplicate_deps"@) + " ("@ + dec(d.total_duplicate_packages as nat)
                + ")\n\n"@ + row2(tr(lang, "package"@), tr(lang, "versions"@))
                + "|------|------|\n"@ + duplicate_rows(d.duplicates@) + "\n"@
        } else {
            Seq::empty()
        },
        None => Seq::empty(),
    }
}

/// The rows of packages with a known size.
pub open spec fn size_rows(es: Seq<SizeEntry>) -> Seq<char>
    decreases es.len(),
{
    if es.len() == 0 {
        Seq::empty()
    } else {
        size_rows(es.drop_last()) + if es.last().size_bytes > 0 {
            row2(es.last().name@, bytes_text(es.last().size_bytes))
        } else {
            Seq::empty()
        }
    }
}

/// The size section (nothing when there is no entry).
pub open spec fn size_section(result: AnalysisResult, lang: Lang) -> Seq<char> {
    match result.size {
        Some(s) => if s.entries@.len() > 0 {
            "## 📊 "@ + tr(lang, "size_analysis"@) + " ("@ + bytes_text(s.total_bytes) + " "@ + tr(
                lang,
                "total_size"@,
            ) + ")\n\n"@ + row2(tr(lang, "package"@), tr(lang, "size"@)) + "|------|------|\n"@
                + size_rows(s.entries@) + "\n"@
        } else {
            Seq::empty()
        },
        None => Seq::empty(),
    }
}

/// The rows of license entries.
pub open spec fn license_rows(es: Seq<LicenseEntry>, lang: Lang) -> Seq<char>
    decreases es.len(),
{
    if es.len() == 0 {
        Seq::empty()
    } else {
        let e = es.last();
        license_rows(es.drop_last(), lang) + row4(
            e.name@,
            e.version@,
            e.license@,
            type_text(e.dep_type, lang),
        )
    }
}

/// The label of a violation reason.
pub open spec fn reason_text(r: ViolationReason, lang: Lang) -> Seq<char> {
    match r {
        ViolationReason::Denied => tr(lang, "violation_denied"@),
        ViolationReason::NotAllowed => tr(lang, "violation_not_allowed"@),
        ViolationReason::Unknown => tr(lang, "violation_unknown"@),
    }
}

/// The rows of license violations.
pub open spec fn violation_rows(vs: Seq<LicenseViolation>, lang: Lang) -> Seq<char>
    decreases vs.len(),
{
    if vs.len() == 0 {
        Seq::empty()
    } else {
        let v = vs.last();
        violation_rows(vs.drop_last(), lang) + row4(
            v.package@,
            v.version@,
            v.license@,
            reason_text(v.reason, lang),
        )
    }
}

/// The heading and table head of the license section.
pub open spec fn license_heading(n: nat, lang: Lang) -> Seq<char> {
    "## 📜 "@ + tr(lang, "license_report"@) + " ("@ + dec(n) + " "@ + tr(lang, "found"@)
        + ")\n\n"@ + row4(
        tr(lang, "package"@),
        tr(lang, "version"@),
        tr(lang, "license"@),
        tr(lang, "type"@),
    ) + "|------|------|------|------|\n"@
}

/// The list of license violations (nothing when there is none).
pub open spec fn violations_part(vs: Seq<LicenseViolation>, lang: Lang) -> Seq<char> {
    if vs.len() > 0 {
        "### ⚠️ "@ + tr(lang, "license_violations"@) + " ("@ + dec(vs.len()) + ")\n\n"@ + row4(
            tr(lang, "package"@),
            tr(lang, "version"@),
            tr(lang, "license"@),
            tr(lang, "reason"@),
        ) + "|------|------|------|------|\n"@ + violation_rows(vs, lang) + "\n"@
    } else {
        Seq::empty()
    }
}

/// The license section, with its violations (nothing when there is no
/// entry).
pub open spec fn license_section(result: AnalysisResult, lang: Lang) -> Seq<char> {
    match result.license {
        Some(l) => if l.entries@.len() > 0 {
            license_heading(l.entries@.len(), lang) + license_rows(l.entries@, lang) + "\n"@
                + violations_part(l.violations@, lang)
        } else {
            Seq::empty()
        },
        None => Seq::empty(),
    }
}

/// The rows of outdated packages.
pub open spec fn outdated_rows(es: Seq<OutdatedEntry>, lang: Lang) -> Seq<char>
    decreases es.len(),
{
    if es.len() == 0 {
        Seq::empty()
    } else {
        let e = es.last();
        outdated_rows(es.drop_last(), lang) + row5(
            e.name@,
            e.current@,
            e.latest@,
            crate::semver_level_name(e.level),
            priority_text(e.priority, lang),
        )
    }
}

/// The count line under the outdated table.
pub open spec fn summary_line(patch: usize, minor: usize, major: usize, lang: Lang) -> Seq<char> {
    tr(lang, "summary"@) + ": "@ + dec(patch as nat) + " patch | "@ + dec(minor as nat)
        + " minor | "@ + dec(major as nat) + " major\n\n"@
}

/// The outdated section (nothing when there is no entry).
pub open spec fn outdated_section(result: AnalysisResult, lang: Lang) -> Seq<char> {
    match result.outdated {
        Some(o) => if o.entries@.len() > 0 {
            "## 📦 "@ + tr(lang, "outdated_deps"@) + " ("@ + dec(o.total_outdated as nat) + ")\n\n"@
                + row5(
                tr(lang, "package"@),
                tr(lang, "current"@),
                tr(lang, "latest"@),
                tr(lang, "level"@),
                tr(lang, "priority"@),
            ) + "|---------|---------|--------|-------|----------|\n"@ + outdated_rows(
                o.entries@,
                lang,
            ) + "\n"@ + summary_line(o.patch_count, o.minor_count, o.major_count, lang)
        } else {
            Seq::empty()
        },
        None => Seq::empty(),
    }
}

/// The description of a supply chain risk.
pub open spec fn risk_text(t: SupplyChainRiskType, lang: Lang) -> Seq<char> {
    match t {
        SupplyChainRiskType::Typosquat { similar_to, distance } => tr(lang, "typosquat"@)
            + ": similar to \""@ + similar_to@ + "\" (dist: "@ + dec(distance as nat) + ")"@,
        SupplyChainRiskType::ScopeConfusion { legitimate } => tr(lang, "scope_confusion"@)
            + ": impersonates \""@ + legitimate@ + "\""@,
        SupplyChainRiskType::VersionAnomaly { installed_version } => tr(lang, "version_anomaly"@)
            + " ("@ + installed_version@ + ")"@,
    }
}

/// The rows of supply chain risks.
pub open spec fn risk_rows(rs: Seq<SupplyChainRisk>, lang: Lang) -> Seq<char>
    decreases rs.len(),
{
    if rs.len() == 0 {
        Seq::empty()
    } else {
        let r = rs.last();
        risk_rows(rs.drop_last(), lang) + row4(
            r.package@,
            r.version@,
            risk_text(r.risk_type, lang),
            severity_text(r.severity, lang),
        )
    }
}

/// The supply chain section (nothing when there is no risk).
pub open spec fn supply_chain_section(result: AnalysisResult, lang: Lang) -> Seq<char> {
    match result.supply_chain {
        Some(s) => if s.risks@.len() > 0 {
            "## 🔗 "@ + tr(lang, "supply_chain_analysis"@) + " ("@ + dec(s.risks@.len())
                + ")\n\n"@ + row4(
                tr(lang, "package"@),
                tr(lang, "version"@),
                tr(lang, "risk"@),
                tr(lang, "severity"@),
            ) + "|---------|---------|------|----------|\n"@ + risk_rows(s.risks@, lang) + "\n"@
        } else {
            Seq::empty()
        },
        None => Seq::empty(),
    }
}

/// The whole Markdown report: a title, then each section that has content.
pub open spec fn markdown_text(result: AnalysisResult, lang: Lang) -> Seq<char> {
    "# 🔍 lockpick "@ + tr(lang, "scan_complete"@) + "\n\n"@ + unused_section(result, lang)
        + vulns_section(result, lang) + duplicates_section(result, lang) + size_section(
        result,
        lang,
    ) + license_section(result, lang) + outdated_section(result, lang) + supply_chain_section(
        result,
        lang,
    )
}

/// Appends a row of two cells.
fn push_row2(md: &mut String, a: &str, b: &str)
    ensures
        final(md)@ == old(md)@ + row2(a@, b@),
{
    push_str(md, "| ");
    push_str(md, a);
    push_str(md, " | ");
    push_str(md, b);
    push_str(md, " |\n");
}

/// Appends a row of three cells.
fn push_row3(md: &mut String, a: &str, b: &str, c: &str)
    ensures
        final(md)@ == old(md)@ + row3(a@, b@, c@),
{
    push_str(md, "| ");
    push_str(md, a);
    push_str(md, " | ");
    push_str(md, b);
    push_str(md, " | ");
    push_str(md, c);
    push_str(md, " |\n");
}

/// Appends a row of four cells.
fn push_row4(md: &mut String, a: &str, b: &str, c: &str, d: &str)
    ensures
        final(md)@ == old(md)@ + row4(a@, b@, c@, d@),
{
    push_str(md, "| ");
    push_str(md, a);
    push_str(md, " | ");
    push_str(md, b);
    push_str(md, " | ");
    push_str(md, c);
    push_str(md, " | ");
    push_str(md, d);
    push_str(md, " |\n");
}

/// Appends a row of five cells.
fn push_row5(md: &mut String, a: &str, b: &str, c: &str, d: &str, e: &str)
    ensures
        final(md)@ == old(md)@ + row5(a@, b@, c@, d@, e@),
{
    push_str(md, "| ");
    push_str(md, a);
    push_str(md, " | ");
    push_str(md, b);
    push_str(md, " | ");
    push_str(md, c);
    push_str(md, " | ");
    push_str(md, d);
    push_str(md, " | ");
    push_str(md, e);
    push_str(md, " |\n");
}

/// Appends a section heading `prefix` + title + ` (` + count + `)` + blank
/// line.
fn push_heading(md: &mut String, prefix: &str, title: &str, count: u64)
    ensures
        final(md)@ == old(md)@ + prefix@ + title@ + " ("@ + dec(count as nat) + ")\n\n"@,
{
    push_str(md, prefix);
    push_str(md, title);
    push_str(md, " (");
    push_u64(md, count);
    push_str(md, ")\n\n");
}

/// A dependency type's label.
fn type_label<'a>(t: DepType, i18n: &I18n) -> (s: &'a str)
    ensures
        s@ == type_text(t, i18n.lang),
{
    match t {
        DepType::Prod => i18n.t("prod"),
        DepType::Dev => i18n.t("dev"),
    }
}

/// A severity with its marker.
fn severity_label(s: Severity, i18n: &I18n) -> (r: String)
    ensures
        r@ == severity_text(s, i18n.lang),
{
    let mut out = String::new();
    match s {
        Severity::Critical => {
            push_str(&mut out, "🔴 ");
            push_str(&mut out, i18n.t("critical"));
        },
        Severity::High => {
            push_str(&mut out, "🔴 ");
            push_str(&mut out, i18n.t("high"));
        },
        Severity::Medium => {
            push_str(&mut out, "🟡 ");
            push_str(&mut out, i18n.t("medium"));
        },
        Severity::Low => {
            push_str(&mut out, "🟢 ");
            push_str(&mut out, i18n.t("low"));
        },
    }
    out
}

impl MarkdownReporter {
    /// Renders an analysis result as a Markdown document.
    pub fn render(&self, result: &AnalysisResult, i18n: &I18n) -> (md: String)
        requires
            counts_fit(result),
        ensures
            md@ == markdown_text(*result, i18n.lang),
    {
        let mut md = String::new();
        push_str(&mut md, "# 🔍 lockpick ");
        push_str(&mut md, i18n.t("scan_complete"));
        push_str(&mut md, "\n\n");
        Self::render_unused(&mut md, result, i18n);
        Self::render_vulns(&mut md, result, i18n);
        Self::render_duplicates(&mut md, result, i18n);
        Self::render_size(&mut md, result, i18n);
        Self::render_license(&mut md, result, i18n);
        Self::render_outdated(&mut md, result, i18n);
        Self::render_supply_chain(&mut md, result, i18n);
        md
    }

    fn render_unused(md: &mut String, result: &AnalysisResult, i18n: &I18n)
        ensures
            final(md)@ == old(md)@ + unused_section(*result, i18n.lang),
    {
        let report = match &result.unused {
            Some(r) => r,
            None => {
                assert(old(md)@ + Seq::<char>::empty() =~= old(md)@);
                return;
            },
        };
        if report.unused.len() == 0 {
            assert(old(md)@ + Seq::<char>::empty() =~= old(md)@);
            return;
        }
        let lang = i18n.lang;
        let ds = &report.unused;
        push_heading(md, "## 📦 ", i18n.t("unused_deps"), ds.len() as u64);
        push_row3(md, i18n.t("package"), i18n.t("version"), i18n.t("type"));
        push_str(md, "|------|------|------|\n");
        let ghost start = md@;
        let mut i: usize = 0;
        assert(start + unused_rows(ds@.take(0), lang) =~= start);
        while i < ds.len()
            invariant
                i <= ds@.len(),
                lang == i18n.lang,
                md@ == start + unused_rows(ds@.take(i as int), lang),
            decreases ds@.len() - i,
        {
            let d = &ds[i];
            assert(ds@.take(i + 1).drop_last() =~= ds@.take(i as int));
            push_row3(md, d.name.as_str(), d.version.as_str(), type_label(d.dep_type, i18n));
            i = i + 1;
            assert(md@ =~= start + unused_rows(ds@.take(i as int), lang));
        }
        assert(ds@.take(ds@.len() as int) =~= ds@);
        push_str(md, "\n");
        assert(md@ =~= old(md)@ + unused_section(*result, i18n.lang));
    }

    fn render_vulns(md: &mut String, result: &AnalysisResult, i18n: &I18n)
        requires
            counts_fit(result),
        ensures
            final(md)@ == old(md)@ + vulns_section(*result, i18n.lang),
    {
        let vulns = match &result.vulns {
            Some(v) => v,
            None => {
                assert(old(md)@ + Seq::<char>::empty() =~= old(md)@);
                return;
            },
        };
        if vulns.len() == 0 {
            assert(old(md)@ + Seq::<char>::empty() =~= old(md)@);
            return;
        }
        let lang = i18n.lang;
        let ghost rv = vulns.deep_view();
        let mut total: usize = 0;
        let mut i: usize = 0;
        while i < vulns.len()
            invariant
                i <= vulns@.len(),
                rv == vulns.deep_view(),
                total_vulns(rv) <= usize::MAX,
                total == total_vulns(rv.take(i as int)),
            decreases vulns@.len() - i,
        {
            assert(rv.take(i + 1).drop_last() =~= rv.take(i as int));
            proof {
                lemma_total_prefix(rv, i + 1);
            }
            assert(vulns@[i as int].vulns@.len() == rv[i as int].2.len());
            total = total + vulns[i].vulns.len();
            i = i + 1;
        }
        assert(rv.take(rv.len() as int) =~= rv);
        push_heading(md, "## 🛡️ ", i18n.t("vulns"), total as u64);
        push_row5(
            md,
            i18n.t("package"),
            i18n.t("version"),
            i18n.t("severity"),
            "ID",
            i18n.t("fix_version"),
        );
        push_str(md, "|------|------|----------|--------|----------|\n");
        let ghost start = md@;
        let mut i: usize = 0;
        assert(start + report_rows(vulns@.take(0), lang) =~= start);
        while i < vulns.len()
            invariant
                i <= vulns@.len(),
                lang == i18n.lang,
                md@ == start + report_rows(vulns@.take(i as int), lang),
            decreases vulns@.len() - i,
        {
            let r = &vulns[i];
            assert(vulns@.take(i + 1).drop_last() =~= vulns@.take(i as int));
            let ghost mid = md@;
            let mut k: usize = 0;
            assert(mid + vuln_rows(*r, r.vulns@.take(0), lang) =~= mid);
            while k < r.vulns.len()
                invariant
                    k <= r.vulns@.len(),
                    lang == i18n.lang,
                    md@ == mid + vuln_rows(*r, r.vulns@.take(k as int), lang),
                decreases r.vulns@.len() - k,
            {
                let v = &r.vulns[k];
                assert(r.vulns@.take(k + 1).drop_last() =~= r.vulns@.take(k as int));
                let sev = severity_label(v.severity, i18n);
                let fix: &str = match &v.fixed_version {
                    Some(f) => f.as_str(),
                    None => i18n.t("none"),
                };
                assert(fix@ == fix_text(*v, lang));
                push_row5(
                    md,
                    r.package.as_str(),
                    r.version.as_str(),
                    sev.as_str(),
                    v.id.as_str(),
                    fix,
                );
                k = k + 1;
                assert(md@ =~= mid + vuln_rows(*r, r.vulns@.take(k as int), lang));
            }
            assert(r.vulns@.take(r.vulns@.len() as int) =~= r.vulns@);
            i = i + 1;
            assert(md@ =~= start + report_rows(vulns@.take(i as int), lang));
        }
        assert(vulns@.take(vulns@.len() as int) =~= vulns@);
        push_str(md, "\n");
        assert(md@ =~= old(md)@ + vulns_section(*result, i18n.lang));
    }

    fn render_duplicates(md: &mut String, result: &AnalysisResult, i18n: &I18n)
        ensures
            final(md)@ == old(md)@ + duplicates_section(*result, i18n.lang),
    {
        let dups = match &result.duplicates {
            Some(d) => d,
            None => {
                assert(old(md)@ + Seq::<char>::empty() =~= old(md)@);
                return;
            },
        };
        if dups.duplicates.len() == 0 {
            assert(old(md)@ + Seq::<char>::empty() =~= old(md)@);
            return;
        }
        let ds = &dups.duplicates;
        push_heading(md, "## 🔄 ", i18n.t("duplicate_deps"), dups.total_duplicate_packages as u64);
        push_row2(md, i18n.t("package"), i18n.t("versions"));
        push_str(md, "|------|------|\n");
        let ghost start = md@;
        let mut i: usize = 0;
        assert(start + duplicate_rows(ds@.take(0)) =~= start);
        while i < ds.len()
            invariant
                i <= ds@.len(),
                md@ == start + duplicate_rows(ds@.take(i as int)),
            decreases ds@.len() - i,
        {
            let d = &ds[i];
            assert(ds@.take(i + 1).drop_last() =~= ds@.take(i as int));
            let versions = join_versions(&d.versions);
            push_row2(md, d.name.as_str(), versions.as_str());
            i = i + 1;
            assert(md@ =~= start + duplicate_rows(ds@.take(i as int)));
        }
        assert(ds@.take(ds@.len() as int) =~= ds@);
        push_str(md, "\n");
        assert(md@ =~= old(md)@ + duplicates_section(*result, i18n.lang));
    }

    fn render_size(md: &mut String, result: &AnalysisResult, i18n: &I18n)
        ensures
            final(md)@ == old(md)@ + size_section(*result, i18n.lang),
    {
        let size = match &result.size {
            Some(s) => s,
            None => {
                assert(old(md)@ + Seq::<char>::empty() =~= old(md)@);
                return;
            },
        };
        if size.entries.len() == 0 {
            assert(old(md)@ + Seq::<char>::empty() =~= old(md)@);
            return;
        }
        let es = &size.entries;
        push_str(md, "## 📊 ");
        push_str(md, i18n.t("size_analysis"));
        push_str(md, " (");
        let total = format_bytes(size.total_bytes);
        push_str(md, total.as_str());
        push_str(md, " ");
        push_str(md, i18n.t("total_size"));
        push_str(md, ")\n\n");
        push_row2(md, i18n.t("package"), i18n.t("size"));
        push_str(md, "|------|------|\n");
        let ghost start = md@;
        let mut i: usize = 0;
        assert(start + size_rows(es@.take(0)) =~= start);
        while i < es.len()
            invariant
                i <= es@.len(),
                md@ == start + size_rows(es@.take(i as int)),
            decreases es@.len() - i,
        {
            let e = &es[i];
            assert(es@.take(i + 1).drop_last() =~= es@.take(i as int));
            if e.size_bytes > 0 {
                let b = format_bytes(e.size_bytes);
                push_row2(md, e.name.as_str(), b.as_str());
            }
            i = i + 1;
            assert(md@ =~= start + size_rows(es@.take(i as int)));
        }
        assert(es@.take(es@.len() as int) =~= es@);
        push_str(md, "\n");
        assert(md@ =~= old(md)@ + size_section(*result, i18n.lang));
    }

    fn render_license(md: &mut String, result: &AnalysisResult, i18n: &I18n)
        ensures
            final(md)@ == old(md)@ + license_section(*result, i18n.lang),
    {
        let license = match &result.license {
            Some(l) => l,
            None => {
                assert(old(md)@ + Seq::<char>::empty() =~= old(md)@);
                return;
            },
        };
        if license.entries.len() == 0 {
            assert(old(md)@ + Seq::<char>::empty() =~= old(md)@);
            return;
        }
        let lang = i18n.lang;
        let es = &license.entries;
        push_license_heading(md, es.len() as u64, i18n);
        let ghost start = md@;
        let mut i: usize = 0;
        assert(start + license_rows(es@.take(0), lang) =~= start);
        while i < es.len()
            invariant
                i <= es@.len(),
                lang == i18n.lang,
                md@ == start + license_rows(es@.take(i as int), lang),
            decreases es@.len() - i,
        {
            let e = &es[i];
            assert(es@.take(i + 1).drop_last() =~= es@.take(i as int));
            push_row4(
                md,
                e.name.as_str(),
                e.version.as_str(),
                e.license.as_str(),
                type_label(e.dep_type, i18n),
            );
            i = i + 1;
            assert(md@ =~= start + license_rows(es@.take(i as int), lang));
        }
        assert(es@.take(es@.len() as int) =~= es@);
        push_str(md, "\n");
        Self::render_violations(md, &license.violations, i18n);
        assert(md@ =~= old(md)@ + license_section(*result, i18n.lang));
    }

    #[verifier::spinoff_prover]
    fn render_violations(md: &mut String, vs: &Vec<LicenseViolation>, i18n: &I18n)
        ensures
            final(md)@ == old(md)@ + violations_part(vs@, i18n.lang),
    {
        let lang = i18n.lang;
        if vs.len() == 0 {
            assert(old(md)@ + Seq::<char>::empty() =~= old(md)@);
            return;
        }
        push_heading(md, "### ⚠️ ", i18n.t("license_violations"), vs.len() as u64);
        push_row4(md, i18n.t("package"), i18n.t("version"), i18n.t("license"), i18n.t("reason"));
        push_str(md, "|------|------|------|------|\n");
        let ghost start2 = md@;
        let mut k: usize = 0;
        assert(start2 + violation_rows(vs@.take(0), lang) =~= start2);
        while k < vs.len()
            invariant
                k <= vs@.len(),
                lang == i18n.lang,
                md@ == start2 + violation_rows(vs@.take(k as int), lang),
            decreases vs@.len() - k,
        {
            let v = &vs[k];
            assert(vs@.take(k + 1).drop_last() =~= vs@.take(k as int));
            let reason = reason_label(v.reason, i18n);
            push_row4(md, v.package.as_str(), v.version.as_str(), v.license.as_str(), reason);
            k = k + 1;
            assert(md@ =~= start2 + violation_rows(vs@.take(k as int), lang));
        }
        assert(vs@.take(vs@.len() as int) =~= vs@);
        push_str(md, "\n");
        assert(md@ =~= old(md)@ + violations_part(vs@, i18n.lang));
    }

    fn render_outdated(md: &mut String, result: &AnalysisResult, i18n: &I18n)
        ensures
            final(md)@ == old(md)@ + outdated_section(*result, i18n.lang),
    {
        let report = match &result.outdated {
            Some(r) => r,
            None => {
                assert(old(md)@ + Seq::<char>::empty() =~= old(md)@);
                return;
            },
        };
        if report.entries.len() == 0 {
            assert(old(md)@ + Seq::<char>::empty() =~= old(md)@);
            return;
        }
        let lang = i18n.lang;
        let es = &report.entries;
        push_heading(md, "## 📦 ", i18n.t("outdated_deps"), report.total_outdated as u64);
        push_row5(
            md,
            i18n.t("package"),
            i18n.t("current"),
            i18n.t("latest"),
            i18n.t("level"),
            i18n.t("priority"),
        );
        push_str(md, "|---------|---------|--------|-------|----------|\n");
        let ghost start = md@;
        let mut i: usize = 0;
        assert(start + outdated_rows(es@.take(0), lang) =~= start);
        while i < es.len()
            invariant
                i <= es@.len(),
                lang == i18n.lang,
                md@ == start + outdated_rows(es@.take(i as int), lang),
            decreases es@.len() - i,
        {
            let e = &es[i];
            assert(es@.take(i + 1).drop_last() =~= es@.take(i as int));
            let mut priority = String::new();
            match e.priority {
                UpgradePriority::Critical => {
                    push_str(&mut priority, "🔴 ");
                    push_str(&mut priority, i18n.t("critical"));
                },
                UpgradePriority::High => {
                    push_str(&mut priority, "🟡 ");
                    push_str(&mut priority, i18n.t("high"));
                },
                UpgradePriority::Medium => {
                    push_str(&mut priority, "🟠 ");
                    push_str(&mut priority, i18n.t("medium"));
                },
                UpgradePriority::Low => {
                    push_str(&mut priority, "⚪ ");
                    push_str(&mut priority, i18n.t("low"));
                },
            }
            push_row5(
                md,
                e.name.as_str(),
                e.current.as_str(),
                e.latest.as_str(),
                e.level.name(),
                priority.as_str(),
            );
            i = i + 1;
            assert(md@ =~= start + outdated_rows(es@.take(i as int), lang));
        }
        assert(es@.take(es@.len() as int) =~= es@);
        push_str(md, "\n");
        push_summary(md, report.patch_count, report.minor_count, report.major_count, i18n);
        assert(md@ =~= old(md)@ + outdated_section(*result, i18n.lang));
    }

    fn render_supply_chain(md: &mut String, result: &AnalysisResult, i18n: &I18n)
        ensures
            final(md)@ == old(md)@ + supply_chain_section(*result, i18n.lang),
    {
        let report = match &result.supply_chain {
            Some(r) => r,
            None => {
                assert(old(md)@ + Seq::<char>::empty() =~= old(md)@);
                return;
            },
        };
        if report.risks.len() == 0 {
            assert(old(md)@ + Seq::<char>::empty() =~= old(md)@);
            return;
        }
        let lang = i18n.lang;
        let rs = &report.risks;
        push_heading(md, "## 🔗 ", i18n.t("supply_chain_analysis"), rs.len() as u64);
        push_row4(md, i18n.t("package"), i18n.t("version"), i18n.t("risk"), i18n.t("severity"));
        push_str(md, "|---------|---------|------|----------|\n");
        let ghost start = md@;
        let mut i: usize = 0;
        assert(start + risk_rows(rs@.take(0), lang) =~= start);
        while i < rs.len()
            invariant
                i <= rs@.len(),
                lang == i18n.lang,
                md@ == start + risk_rows(rs@.take(i as int), lang),
            decreases rs@.len() - i,
        {
            let r = &rs[i];
            assert(rs@.take(i + 1).drop_last() =~= rs@.take(i as int));
            let desc = risk_label(&r.risk_type, i18n);
            let sev = severity_label(r.severity, i18n);
            push_row4(md, r.package.as_str(), r.version.as_str(), desc.as_str(), sev.as_str());
            i = i + 1;
            assert(md@ =~= start + risk_rows(rs@.take(i as int), lang));
        }
        assert(rs@.take(rs@.len() as int) =~= rs@);
        push_str(md, "\n");
        assert(md@ =~= old(md)@ + supply_chain_section(*result, i18n.lang));
    }
}

/// A violation reason's label.
fn reason_label<'a>(r: ViolationReason, i18n: &I18n) -> (s: &'a str)
    ensures
        s@ == reason_text(r, i18n.lang),
{
    match r {
        ViolationReason::Denied => i18n.t("violation_denied"),
        ViolationReason::NotAllowed => i18n.t("violation_not_allowed"),
        ViolationReason::Unknown => i18n.t("violation_unknown"),
    }
}

/// Appends the heading and table head of the license section.
fn push_license_heading(md: &mut String, n: u64, i18n: &I18n)
    ensures
        final(md)@ == old(md)@ + license_heading(n as nat, i18n.lang),
{
    push_str(md, "## 📜 ");
    push_str(md, i18n.t("license_report"));
    push_str(md, " (");
    push_u64(md, n);
    push_str(md, " ");
    push_str(md, i18n.t("found"));
    push_str(md, ")\n\n");
    push_row4(md, i18n.t("package"), i18n.t("version"), i18n.t("license"), i18n.t("type"));
    push_str(md, "|------|------|------|------|\n");
}

/// Appends the count line under the outdated table.
fn push_summary(md: &mut String, patch: usize, minor: usize, major: usize, i18n: &I18n)
    ensures
        final(md)@ == old(md)@ + summary_line(patch, minor, major, i18n.lang),
{
    push_str(md, i18n.t("summary"));
    push_str(md, ": ");
    push_u64(md, patch as u64);
    push_str(md, " patch | ");
    push_u64(md, minor as u64);
    push_str(md, " minor | ");
    push_u64(md, major as u64);
    push_str(md, " major\n\n");
}

/// The description of a supply chain risk.
fn risk_label(t: &SupplyChainRiskType, i18n: &I18n) -> (r: String)
    ensures
        r@ == risk_text(*t, i18n.lang),
{
    let mut out = String::new();
    match t {
        SupplyChainRiskType::Typosquat { similar_to, distance } => {
            push_str(&mut out, i18n.t("typosquat"));
            push_str(&mut out, ": similar to \"");
            push_str(&mut out, similar_to.as_str());
            push_str(&mut out, "\" (dist: ");
            push_u64(&mut out, *distance as u64);
            push_str(&mut out, ")");
        },
        SupplyChainRiskType::ScopeConfusion { legitimate } => {
            push_str(&mut out, i18n.t("scope_confusion"));
            push_str(&mut out, ": impersonates \"");
            push_str(&mut out, legitimate.as_str());
            push_str(&mut out, "\"");
        },
        SupplyChainRiskType::VersionAnomaly { installed_version } => {
            push_str(&mut out, i18n.t("version_anomaly"));
            push_str(&mut out, " (");
            push_str(&mut out, installed_version.as_str());
            push_str(&mut out, ")");
        },
    }
    out
}

/// Versions joined by `, `.
fn join_versions(vs: &Vec<String>) -> (r: String)
    ensures
        r@ == joined(vs.deep_view(), ", "@),
{
    let ghost dv = vs.deep_view();
    let mut out = String::new();
    let mut i: usize = 0;
    assert(out@ =~= joined(dv.take(0), ", "@));
    while i < vs.len()
        invariant
            i <= dv.len(),
            dv == vs.deep_view(),
            out@ == joined(dv.take(i as int), ", "@),
        decreases dv.len() - i,
    {
        assert(dv.take(i + 1).drop_last() =~= dv.take(i as int));
        assert(vs@[i as int]@ == dv[i as int]);
        if i > 0 {
            push_str(&mut out, ", ");
        }
        push_str(&mut out, vs[i].as_str());
        i = i + 1;
        assert(out@ =~= joined(dv.take(i as int), ", "@));
    }
    assert(dv.take(dv.len() as int) =~= dv);
    out
}

} // verus!
