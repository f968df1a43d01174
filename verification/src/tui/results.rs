//! The lines of the results screen: one header per report section with its
//! count, the section's items under it when it is expanded, and the window
//! of lines that scrolling leaves visible.
use vstd::prelude::*;

use crate::text::{dec, push_str, push_u64};
use crate::tui::app::App;
use crate::{
    AnalysisResult, DuplicateDep, OutdatedEntry, RiskKind, Severity, SupplyChainRisk, UnusedDep,
    VulnReport, Vulnerability,
};

verus! {

/// The colour a line of the results screen is drawn in.
#[derive(Debug, Clone, Copy, PartialEq, Eq, Structural)]
pub enum Tone {
    /// The selected section header.
    Highlight,
    Red,
    LightRed,
    Yellow,
    Green,
    Gray,
}

/// A line of the results screen.
#[derive(Debug)]
pub struct DetailLine {
    pub text: String,
    pub tone: Tone,
}

impl DeepView for DetailLine {
    type V = (Seq<char>, Tone);

    open spec fn deep_view(&self) -> Self::V {
        (self.text@, self.tone)
    }
}

/// The mark before a section header: open or closed when the section has
/// items, blank when it has none.
pub open spec fn expand_mark(count: nat, expanded: bool) -> Seq<char> {
    if count > 0 {
        if expanded {
            "▼"@
        } else {
            "▶"@
        }
    } else {
        " "@
    }
}

/// The colour of a section header.
pub open spec fn header_tone(selected: bool, count: nat, busy: Tone) -> Tone {
    if selected {
        Tone::Highlight
    } else if count > 0 {
        busy
    } else {
        Tone::Green
    }
}

/// Whether the section at position `k` is expanded.
pub open spec fn is_expanded(app: &App, k: nat) -> bool {
    app.results_expanded@.contains(k as usize)
}

/// The header of the section at position `k`.
pub open spec fn header_line(label: Seq<char>, count: nat, k: nat, app: &App, busy: Tone) -> (Seq<char>, Tone) {
    (
        expand_mark(count, is_expanded(app, k)) + label + dec(count),
        header_tone(app.results_selected == k, count, busy),
    )
}

/// A section: its header, then its items when it is expanded.
pub open spec fn section_block(header: (Seq<char>, Tone), items: Seq<(Seq<char>, Tone)>, expanded: bool) -> Seq<
    (Seq<char>, Tone),
> {
    if expanded {
        seq![header] + items
    } else {
        seq![header]
    }
}

/// The debug name of a severity.
pub open spec fn severity_name(s: Severity) -> Seq<char> {
    match s {
        Severity::Critical => "Critical"@,
        Severity::High => "High"@,
        Severity::Medium => "Medium"@,
        Severity::Low => "Low"@,
    }
}

/// The colour of a vulnerability line.
pub open spec fn severity_tone(s: Severity) -> Tone {
    match s {
        Severity::Critical => Tone::Red,
        Severity::High => Tone::LightRed,
        Severity::Medium => Tone::Yellow,
        Severity::Low => Tone::Gray,
    }
}

/// A lower-case hexadecimal digit.
pub open spec fn hex_digit(d: nat) -> char {
    "0123456789abcdef"@[d as int]
}

/// The lower-case hexadecimal digits of a number below 256, without
/// leading zeros.
pub open spec fn hex_small(n: nat) -> Seq<char> {
    if n < 16 {
        seq![hex_digit(n)]
    } else {
        seq![hex_digit(n / 16), hex_digit(n % 16)]
    }
}

/// How the debug form of a string writes an ASCII character: `\0`, `\t`,
/// `\r`, `\n`, `\"` and `\\` for those six, `\u{..}` in hexadecimal for
/// the other control characters, the character itself otherwise. A
/// character beyond ASCII is written as it is.
pub open spec fn escaped_char(c: char) -> Seq<char> {
    if c == '\0' {
        "\\0"@
    } else if c == '\t' {
        "\\t"@
    } else if c == '\r' {
        "\\r"@
    } else if c == '\n' {
        "\\n"@
    } else if c == '"' || c == '\\' {
        seq!['\\', c]
    } else if (c as u32) < 0x20 || (c as u32) == 0x7f {
        "\\u{"@ + hex_small(c as u32 as nat) + "}"@
    } else {
        seq![c]
    }
}

/// `s` with each character escaped as the debug form of a string does.
pub open spec fn escape_debug(s: Seq<char>) -> Seq<char>
    decreases s.len(),
{
    if s.len() == 0 {
        Seq::empty()
    } else {
        escape_debug(s.drop_last()) + escaped_char(s.last())
    }
}

/// `s` between double quotes, escaped.
pub open spec fn quoted(s: Seq<char>) -> Seq<char> {
    "\""@ + escape_debug(s) + "\""@
}

/// The debug form of a supply chain risk.
pub open spec fn risk_debug(k: RiskKind) -> Seq<char> {
    match k {
        RiskKind::Typosquat { similar_to, distance } => "Typosquat { similar_to: "@ + quoted(similar_to)
            + ", distance: "@ + dec(distance) + " }"@,
        RiskKind::ScopeConfusion { legitimate } => "ScopeConfusion { legitimate: "@ + quoted(legitimate)
            + " }"@,
        RiskKind::VersionAnomaly { installed_version } => "VersionAnomaly { installed_version: "@
            + quoted(installed_version) + " }"@,
    }
}

/// The item lines of unused dependencies.
pub open spec fn unused_items(ds: Seq<UnusedDep>) -> Seq<(Seq<char>, Tone)> {
    ds.map_values(|d: UnusedDep| ("    • "@ + d.name@, Tone::Gray))
}

/// The item lines of one package's vulnerabilities.
pub open spec fn report_items(r: VulnReport) -> Seq<(Seq<char>, Tone)> {
    r.vulns@.map_values(
        |v: Vulnerability|
            (
                "    • "@ + r.package@ + " - "@ + v.id@ + " ("@ + severity_name(v.severity) + ")"@,
                severity_tone(v.severity),
            ),
    )
}

/// The item lines of all vulnerabilities, package by package.
pub open spec fn vuln_items(rs: Seq<VulnReport>) -> Seq<(Seq<char>, Tone)>
    decreases rs.len(),
{
    if rs.len() == 0 {
        Seq::empty()
    } else {
        vuln_items(rs.drop_last()) + report_items(rs.last())
    }
}

/// The number of vulnerabilities over all packages.
pub open spec fn vuln_total(rs: Seq<VulnReport>) -> nat
    decreases rs.len(),
{
    if rs.len() == 0 {
        0
    } else {
        vuln_total(rs.drop_last()) + rs.last().vulns@.len()
    }
}

/// The item lines of duplicated packages.
pub open spec fn duplicate_items(ds: Seq<DuplicateDep>) -> Seq<(Seq<char>, Tone)> {
    ds.map_values(
        |d: DuplicateDep| ("    • "@ + d.name@ + " ("@ + dec(d.versions@.len()) + " versions)"@, Tone::Gray),
    )
}

/// The item lines of outdated packages.
pub open spec fn outdated_items(es: Seq<OutdatedEntry>) -> Seq<(Seq<char>, Tone)> {
    es.map_values(
        |e: OutdatedEntry| ("    • "@ + e.name@ + " "@ + e.current@ + " → "@ + e.latest@, Tone::Gray),
    )
}

/// The item lines of supply chain risks.
pub open spec fn risk_items(rs: Seq<SupplyChainRisk>) -> Seq<(Seq<char>, Tone)> {
    rs.map_values(
        |r: SupplyChainRisk| ("    • "@ + r.package@ + " - "@ + risk_debug(r.risk_type.deep_view()), Tone::Gray),
    )
}

/// `bs` with the block of a present section added.
pub open spec fn add_block<T>(
    bs: Seq<Seq<(Seq<char>, Tone)>>,
    present: Option<T>,
    block: spec_fn(T, nat) -> Seq<(Seq<char>, Tone)>,
) -> Seq<Seq<(Seq<char>, Tone)>> {
    match present {
        Some(x) => bs.push(block(x, bs.len())),
        None => bs,
    }
}

/// The section blocks of a result, in order: unused dependencies,
/// vulnerabilities, duplicates, outdated packages, supply chain risks (each
/// only when that report is present).
pub open spec fn result_blocks(r: &AnalysisResult, app: &App) -> Seq<Seq<(Seq<char>, Tone)>> {
    let b0 = add_block(
        Seq::empty(),
        r.unused,
        |u: crate::UnusedReport, k: nat|
            section_block(
                header_line(" 📦 Unused Dependencies: "@, u.unused@.len(), k, app, Tone::Yellow),
                unused_items(u.unused@),
                is_expanded(app, k),
            ),
    );
    let b1 = add_block(
        b0,
        r.vulns,
        |v: Vec<VulnReport>, k: nat|
            section_block(
                header_line(" 🛡️  Vulnerabilities: "@, vuln_total(v@), k, app, Tone::Red),
                vuln_items(v@),
                is_expanded(app, k),
            ),
    );
    let b2 = add_block(
        b1,
        r.duplicates,
        |d: crate::DuplicateReport, k: nat|
            section_block(
                header_line(" 🔄 Duplicates: "@, d.duplicates@.len(), k, app, Tone::Yellow),
                duplicate_items(d.duplicates@),
                is_expanded(app, k),
            ),
    );
    let b3 = add_block(
        b2,
        r.outdated,
        |o: crate::OutdatedReport, k: nat|
            section_block(
                header_line(" 📊 Outdated: "@, o.total_outdated as nat, k, app, Tone::Yellow),
                outdated_items(o.entries@),
                is_expanded(app, k),
            ),
    );
    add_block(
        b3,
        r.supply_chain,
        |s: crate::SupplyChainReport, k: nat|
            section_block(
                header_line(" 🔗 Supply Chain Risks: "@, s.risks@.len(), k, app, Tone::Red),
                risk_items(s.risks@),
                is_expanded(app, k),
            ),
    )
}

/// The blocks one after another.
pub open spec fn join_blocks(bs: Seq<Seq<(Seq<char>, Tone)>>) -> Seq<(Seq<char>, Tone)>
    decreases bs.len(),
{
    if bs.len() == 0 {
        Seq::empty()
    } else {
        join_blocks(bs.drop_last()) + bs.last()
    }
}

/// The first line of the selected section, or 0 when no section is selected.
pub open spec fn selected_line(bs: Seq<Seq<(Seq<char>, Tone)>>, selected: nat) -> nat {
    if selected < bs.len() {
        join_blocks(bs.take(selected as int)).len()
    } else {
        0
    }
}

/// The first visible line: with automatic scrolling, the least change that
/// brings the selected line into a window of `height` lines.
pub open spec fn scroll_spec(auto: bool, line: nat, scroll: nat, height: nat) -> nat {
    if !auto {
        scroll
    } else if line < scroll {
        line
    } else if line >= scroll + height {
        if line >= height - 1 {
            (line - (height - 1)) as nat
        } else {
            0
        }
    } else {
        scroll
    }
}

/// At most `height` lines from position `from`.
pub open spec fn window(lines: Seq<(Seq<char>, Tone)>, from: nat, height: nat) -> Seq<(Seq<char>, Tone)> {
    if from >= lines.len() {
        Seq::empty()
    } else if from + height <= lines.len() {
        lines.subrange(from as int, (from + height) as int)
    } else {
        lines.subrange(from as int, lines.len() as int)
    }
}

/// The lines the results screen shows in a window of `height` lines.
pub open spec fn visible_details(app: &App, height: nat) -> Seq<(Seq<char>, Tone)> {
    match app.result {
        None => Seq::empty(),
        Some(r) => {
            let bs = result_blocks(&r, app);
            let line = selected_line(bs, app.results_selected as nat);
            window(
                join_blocks(bs),
                scroll_spec(app.results_auto_scroll, line, app.results_scroll as nat, height),
                height,
            )
        },
    }
}

/// A line of text in one colour.
fn line(text: String, tone: Tone) -> (r: DetailLine)
    ensures
        r.deep_view() == (text@, tone),
{
    DetailLine { text, tone }
}

/// The escaped form of one character, appended to `out`.
fn push_escaped_char(out: &mut String, c: char)
    ensures
        final(out)@ == old(out)@ + escaped_char(c),
{
    let ghost start = out@;
    proof {
        reveal_strlit("\\0");
        reveal_strlit("\\t");
        reveal_strlit("\\r");
        reveal_strlit("\\n");
        reveal_strlit("\\u{");
        reveal_strlit("}");
        reveal_strlit("0123456789abcdef");
    }
    if c == '\0' {
        push_str(out, "\\0");
    } else if c == '\t' {
        push_str(out, "\\t");
    } else if c == '\r' {
        push_str(out, "\\r");
    } else if c == '\n' {
        push_str(out, "\\n");
    } else if c == '"' || c == '\\' {
        crate::text::push_char(out, '\\');
        crate::text::push_char(out, c);
        assert(out@ =~= start + seq!['\\', c]);
    } else {
        let n: u32 = c as u32;
        if n < 0x20 || n == 0x7f {
            let digits = crate::text::chars_of("0123456789abcdef");
            push_str(out, "\\u{");
            if n >= 16 {
                crate::text::push_char(out, digits[(n / 16) as usize]);
            }
            crate::text::push_char(out, digits[(n % 16) as usize]);
            push_str(out, "}");
            assert(out@ =~= start + escaped_char(c));
        } else {
            crate::text::push_char(out, c);
            assert(out@ =~= start + seq![c]);
        }
    }
}

/// `s` escaped as the debug form of a string does, appended to `out`.
fn push_escaped(out: &mut String, s: &str)
    ensures
        final(out)@ == old(out)@ + escape_debug(s@),
{
    let cs = crate::text::chars_of(s);
    let ghost start = out@;
    let mut i: usize = 0;
    assert(cs@.take(0) =~= Seq::<char>::empty());
    assert(start + Seq::<char>::empty() =~= start);
    while i < cs.len()
        invariant
            i <= cs@.len(),
            cs@ == s@,
            out@ == start + escape_debug(cs@.take(i as int)),
        decreases cs@.len() - i,
    {
        let c = cs[i];
        assert(cs@.take(i + 1).drop_last() =~= cs@.take(i as int));
        assert(cs@.take(i + 1).last() == c);
        push_escaped_char(out, c);
        assert(out@ =~= start + escape_debug(cs@.take(i + 1)));
        i = i + 1;
    }
    assert(cs@.take(cs@.len() as int) =~= cs@);
}

/// `s` between double quotes, escaped, appended to `out`.
fn push_quoted(out: &mut String, s: &str)
    ensures
        final(out)@ == old(out)@ + quoted(s@),
{
    let ghost start = out@;
    push_str(out, "\"");
    push_escaped(out, s);
    push_str(out, "\"");
    assert(out@ =~= start + quoted(s@));
}

/// The debug form of a supply chain risk.
fn risk_text(k: &crate::SupplyChainRiskType) -> (r: String)
    ensures
        r@ == risk_debug(k.deep_view()),
{
    let mut r = String::new();
    match k {
        crate::SupplyChainRiskType::Typosquat { similar_to, distance } => {
            push_str(&mut r, "Typosquat { similar_to: ");
            push_quoted(&mut r, similar_to.as_str());
            push_str(&mut r, ", distance: ");
            push_u64(&mut r, *distance as u64);
            push_str(&mut r, " }");
        },
        crate::SupplyChainRiskType::ScopeConfusion { legitimate } => {
            push_str(&mut r, "ScopeConfusion { legitimate: ");
            push_quoted(&mut r, legitimate.as_str());
            push_str(&mut r, " }");
        },
        crate::SupplyChainRiskType::VersionAnomaly { installed_version } => {
            push_str(&mut r, "VersionAnomaly { installed_version: ");
            push_quoted(&mut r, installed_version.as_str());
            push_str(&mut r, " }");
        },
    }
    r
}

/// The debug name of a severity.
fn severity_text(s: Severity) -> (r: &'static str)
    ensures
        r@ == severity_name(s),
{
    match s {
        Severity::Critical => "Critical",
        Severity::High => "High",
        Severity::Medium => "Medium",
        Severity::Low => "Low",
    }
}

/// The colour of a vulnerability line.
fn severity_color(s: Severity) -> (r: Tone)
    ensures
        r == severity_tone(s),
{
    match s {
        Severity::Critical => Tone::Red,
        Severity::High => Tone::LightRed,
        Severity::Medium => Tone::Yellow,
        Severity::Low => Tone::Gray,
    }
}

/// The item lines of unused dependencies.
fn unused_lines(ds: &Vec<UnusedDep>) -> (r: Vec<DetailLine>)
    ensures
        r.deep_view() == unused_items(ds@),
{
    let mut r: Vec<DetailLine> = Vec::new();
    let mut i: usize = 0;
    while i < ds.len()
        invariant
            i <= ds@.len(),
            r.deep_view() == unused_items(ds@.take(i as int)),
        decreases ds@.len() - i,
    {
        let mut t = String::new();
        push_str(&mut t, "    • ");
        push_str(&mut t, ds[i].name.as_str());
        let l = line(t, Tone::Gray);
        let ghost before = r.deep_view();
        r.push(l);
        assert(r.deep_view() =~= before.push(l.deep_view()));
        assert(unused_items(ds@.take(i + 1)) =~= unused_items(ds@.take(i as int)).push(l.deep_view()));
        i = i + 1;
    }
    assert(ds@.take(ds@.len() as int) =~= ds@);
    r
}

/// The item lines of one package's vulnerabilities.
fn report_lines(rep: &VulnReport) -> (r: Vec<DetailLine>)
    ensures
        r.deep_view() == report_items(*rep),
{
    let vs = &rep.vulns;
    let mut r: Vec<DetailLine> = Vec::new();
    let mut i: usize = 0;
    while i < vs.len()
        invariant
            i <= vs@.len(),
            vs == &rep.vulns,
            r.deep_view() == report_items(*rep).take(i as int),
        decreases vs@.len() - i,
    {
        let mut t = String::new();
        push_str(&mut t, "    • ");
        push_str(&mut t, rep.package.as_str());
        push_str(&mut t, " - ");
        push_str(&mut t, vs[i].id.as_str());
        push_str(&mut t, " (");
        push_str(&mut t, severity_text(vs[i].severity));
        push_str(&mut t, ")");
        let l = line(t, severity_color(vs[i].severity));
        let ghost before = r.deep_view();
        r.push(l);
        assert(r.deep_view() =~= before.push(l.deep_view()));
        assert(report_items(*rep).take(i + 1) =~= report_items(*rep).take(i as int).push(l.deep_view()));
        i = i + 1;
    }
    assert(report_items(*rep).take(vs@.len() as int) =~= report_items(*rep));
    r
}

/// Moves the lines of `more` to the end of `lines`.
fn append_lines(lines: &mut Vec<DetailLine>, more: Vec<DetailLine>)
    ensures
        final(lines).deep_view() == old(lines).deep_view() + more.deep_view(),
{
    let ghost start = lines.deep_view();
    let ghost mv = more.deep_view();
    let mut more = more;
    lines.append(&mut more);
    assert(lines.deep_view() =~= start + mv);
}

/// The item lines of all vulnerabilities, package by package, and their
/// number.
fn vuln_lines(rs: &Vec<VulnReport>) -> (r: (Vec<DetailLine>, usize))
    requires
        vuln_total(rs@) <= usize::MAX,
    ensures
        r.0.deep_view() == vuln_items(rs@),
        r.1 == vuln_total(rs@),
{
    let mut out: Vec<DetailLine> = Vec::new();
    let mut total: usize = 0;
    let mut i: usize = 0;
    while i < rs.len()
        invariant
            i <= rs@.len(),
            vuln_total(rs@) <= usize::MAX,
            out.deep_view() == vuln_items(rs@.take(i as int)),
            total == vuln_total(rs@.take(i as int)),
        decreases rs@.len() - i,
    {
        assert(rs@.take(i + 1).drop_last() =~= rs@.take(i as int));
        assert(rs@.take(i + 1).last() == rs@[i as int]);
        proof {
            lemma_vuln_total_prefix(rs@, i + 1);
        }
        total = total + rs[i].vulns.len();
        let more = report_lines(&rs[i]);
        append_lines(&mut out, more);
        i = i + 1;
    }
    assert(rs@.take(rs@.len() as int) =~= rs@);
    (out, total)
}

/// A prefix has no more vulnerabilities than the whole.
/// The vulnerability total of a list of reports is the one the thresholds
/// count.
proof fn lemma_vuln_total_counts(rs: Seq<VulnReport>)
    ensures
        vuln_total(rs) == crate::threshold::total_vulns(rs.map_values(|r: VulnReport| r.deep_view())),
    decreases rs.len(),
{
    if rs.len() > 0 {
        lemma_vuln_total_counts(rs.drop_last());
        assert(rs.drop_last().map_values(|r: VulnReport| r.deep_view()) =~= rs.map_values(
            |r: VulnReport| r.deep_view(),
        ).drop_last());
    }
}

proof fn lemma_vuln_total_prefix(rs: Seq<VulnReport>, k: int)
    requires
        0 <= k <= rs.len(),
    ensures
        vuln_total(rs.take(k)) <= vuln_total(rs),
    decreases rs.len(),
{
    if k < rs.len() {
        assert(rs.drop_last().take(k) =~= rs.take(k));
        lemma_vuln_total_prefix(rs.drop_last(), k);
    } else {
        assert(rs.take(k) =~= rs);
    }
}

/// The item lines of duplicated packages.
fn duplicate_lines(ds: &Vec<DuplicateDep>) -> (r: Vec<DetailLine>)
    ensures
        r.deep_view() == duplicate_items(ds@),
{
    let mut r: Vec<DetailLine> = Vec::new();
    let mut i: usize = 0;
    while i < ds.len()
        invariant
            i <= ds@.len(),
            r.deep_view() == duplicate_items(ds@.take(i as int)),
        decreases ds@.len() - i,
    {
        let mut t = String::new();
        push_str(&mut t, "    • ");
        push_str(&mut t, ds[i].name.as_str());
        push_str(&mut t, " (");
        push_u64(&mut t, ds[i].versions.len() as u64);
        push_str(&mut t, " versions)");
        let l = line(t, Tone::Gray);
        let ghost before = r.deep_view();
        r.push(l);
        assert(r.deep_view() =~= before.push(l.deep_view()));
        assert(duplicate_items(ds@.take(i + 1)) =~= duplicate_items(ds@.take(i as int)).push(l.deep_view()));
        i = i + 1;
    }
    assert(ds@.take(ds@.len() as int) =~= ds@);
    r
}

/// The item lines of outdated packages.
fn outdated_lines(es: &Vec<OutdatedEntry>) -> (r: Vec<DetailLine>)
    ensures
        r.deep_view() == outdated_items(es@),
{
    let mut r: Vec<DetailLine> = Vec::new();
    let mut i: usize = 0;
    while i < es.len()
        invariant
            i <= es@.len(),
            r.deep_view() == outdated_items(es@.take(i as int)),
        decreases es@.len() - i,
    {
        let mut t = String::new();
        push_str(&mut t, "    • ");
        push_str(&mut t, es[i].name.as_str());
        push_str(&mut t, " ");
        push_str(&mut t, es[i].current.as_str());
        push_str(&mut t, " → ");
        push_str(&mut t, es[i].latest.as_str());
        let l = line(t, Tone::Gray);
        let ghost before = r.deep_view();
        r.push(l);
        assert(r.deep_view() =~= before.push(l.deep_view()));
        assert(outdated_items(es@.take(i + 1)) =~= outdated_items(es@.take(i as int)).push(l.deep_view()));
        i = i + 1;
    }
    assert(es@.take(es@.len() as int) =~= es@);
    r
}

/// The item lines of supply chain risks.
fn risk_lines(rs: &Vec<SupplyChainRisk>) -> (r: Vec<DetailLine>)
    ensures
        r.deep_view() == risk_items(rs@),
{
    let mut r: Vec<DetailLine> = Vec::new();
    let mut i: usize = 0;
    while i < rs.len()
        invariant
            i <= rs@.len(),
            r.deep_view() == risk_items(rs@.take(i as int)),
        decreases rs@.len() - i,
    {
        let mut t = String::new();
        push_str(&mut t, "    • ");
        push_str(&mut t, rs[i].package.as_str());
        push_str(&mut t, " - ");
        let d = risk_text(&rs[i].risk_type);
        push_str(&mut t, d.as_str());
        let l = line(t, Tone::Gray);
        let ghost before = r.deep_view();
        r.push(l);
        assert(r.deep_view() =~= before.push(l.deep_view()));
        assert(risk_items(rs@.take(i + 1)) =~= risk_items(rs@.take(i as int)).push(l.deep_view()));
        i = i + 1;
    }
    assert(rs@.take(rs@.len() as int) =~= rs@);
    r
}

/// Whether the section at position `k` is expanded.
fn expanded_at(app: &App, k: usize) -> (b: bool)
    ensures
        b == is_expanded(app, k as nat),
{
    let xs = &app.results_expanded;
    let mut i: usize = 0;
    while i < xs.len()
        invariant
            i <= xs@.len(),
            xs == &app.results_expanded,
            forall|j: int| 0 <= j < i ==> xs@[j] != k,
        decreases xs@.len() - i,
    {
        if xs[i] == k {
            assert(xs@[i as int] == k);
            return true;
        }
        i = i + 1;
    }
    false
}

/// A section block: the header of the section at position `k`, then its
/// items when it is expanded.
fn block(label: &str, count: usize, k: usize, app: &App, busy: Tone, items: Vec<DetailLine>) -> (r: Vec<
    DetailLine,
>)
    ensures
        r.deep_view() == section_block(
            header_line(label@, count as nat, k as nat, app, busy),
            items.deep_view(),
            is_expanded(app, k as nat),
        ),
{
    let expanded = expanded_at(app, k);
    let mut t = String::new();
    if count > 0 {
        if expanded {
            push_str(&mut t, "▼");
        } else {
            push_str(&mut t, "▶");
        }
    } else {
        push_str(&mut t, " ");
    }
    push_str(&mut t, label);
    push_u64(&mut t, count as u64);
    let tone = if app.results_selected == k {
        Tone::Highlight
    } else if count > 0 {
        busy
    } else {
        Tone::Green
    };
    let h = line(t, tone);
    let ghost hv = h.deep_view();
    assert(hv == header_line(label@, count as nat, k as nat, app, busy));
    let mut r: Vec<DetailLine> = Vec::new();
    r.push(h);
    assert(r.deep_view() =~= seq![hv]);
    if expanded {
        append_lines(&mut r, items);
    }
    r
}

/// The section blocks of a result.
fn result_block_lines(r: &AnalysisResult, app: &App) -> (bs: Vec<Vec<DetailLine>>)
    requires
        r.vulns matches Some(v) ==> vuln_total(v@) <= usize::MAX,
    ensures
        bs.deep_view() == result_blocks(r, app),
{
    let mut bs: Vec<Vec<DetailLine>> = Vec::new();
    let ghost b0 = Seq::<Seq<(Seq<char>, Tone)>>::empty();
    assert(bs.deep_view() =~= b0);
    match &r.unused {
        Some(u) => {
            let b = block(" 📦 Unused Dependencies: ", u.unused.len(), bs.len(), app, Tone::Yellow, unused_lines(&u.unused));
            let ghost before = bs.deep_view();
            bs.push(b);
            assert(bs.deep_view() =~= before.push(b.deep_view()));
        },
        None => {},
    }
    let ghost b1 = bs.deep_view();
    match &r.vulns {
        Some(v) => {
            let (items, total) = vuln_lines(v);
            let b = block(" 🛡️  Vulnerabilities: ", total, bs.len(), app, Tone::Red, items);
            let ghost before = bs.deep_view();
            bs.push(b);
            assert(bs.deep_view() =~= before.push(b.deep_view()));
        },
        None => {},
    }
    let ghost b2 = bs.deep_view();
    match &r.duplicates {
        Some(d) => {
            let b = block(" 🔄 Duplicates: ", d.duplicates.len(), bs.len(), app, Tone::Yellow, duplicate_lines(&d.duplicates));
            let ghost before = bs.deep_view();
            bs.push(b);
            assert(bs.deep_view() =~= before.push(b.deep_view()));
        },
        None => {},
    }
    let ghost b3 = bs.deep_view();
    match &r.outdated {
        Some(o) => {
            let b = block(" 📊 Outdated: ", o.total_outdated, bs.len(), app, Tone::Yellow, outdated_lines(&o.entries));
            let ghost before = bs.deep_view();
            bs.push(b);
            assert(bs.deep_view() =~= before.push(b.deep_view()));
        },
        None => {},
    }
    match &r.supply_chain {
        Some(c) => {
            let b = block(" 🔗 Supply Chain Risks: ", c.risks.len(), bs.len(), app, Tone::Red, risk_lines(&c.risks));
            let ghost before = bs.deep_view();
            bs.push(b);
            assert(bs.deep_view() =~= before.push(b.deep_view()));
        },
        None => {},
    }
    bs
}

/// A copy of a line.
fn copy_line(l: &DetailLine) -> (r: DetailLine)
    ensures
        r.deep_view() == l.deep_view(),
{
    DetailLine { text: l.text.clone(), tone: l.tone }
}

/// Appends copies of `ls[from..to]` to `out`.
fn push_copies(out: &mut Vec<DetailLine>, ls: &Vec<DetailLine>, from: usize, to: usize)
    requires
        from <= to <= ls@.len(),
    ensures
        final(out).deep_view() == old(out).deep_view() + ls.deep_view().subrange(from as int, to as int),
{
    let ghost start = out.deep_view();
    let mut i: usize = from;
    assert(ls.deep_view().subrange(from as int, from as int) =~= Seq::<(Seq<char>, Tone)>::empty());
    assert(start + Seq::<(Seq<char>, Tone)>::empty() =~= start);
    while i < to
        invariant
            from <= i <= to <= ls@.len(),
            out.deep_view() == start + ls.deep_view().subrange(from as int, i as int),
        decreases to - i,
    {
        let l = copy_line(&ls[i]);
        let ghost before = out.deep_view();
        out.push(l);
        assert(out.deep_view() =~= before.push(l.deep_view()));
        assert(ls.deep_view().subrange(from as int, i + 1) =~= ls.deep_view().subrange(from as int, i as int).push(
            ls.deep_view()[i as int],
        ));
        i = i + 1;
    }
}

/// The lines of the blocks one after another, and the first line of the
/// block at position `selected` (0 when there is none).
fn join_selected(bs: &Vec<Vec<DetailLine>>, selected: usize) -> (r: (Vec<DetailLine>, usize))
    ensures
        r.0.deep_view() == join_blocks(bs.deep_view()),
        r.1 == selected_line(bs.deep_view(), selected as nat),
{
    let ghost bv = bs.deep_view();
    let mut lines: Vec<DetailLine> = Vec::new();
    let mut sel: usize = 0;
    assert(join_blocks(bv.take(0)) =~= Seq::<(Seq<char>, Tone)>::empty());
    let mut k: usize = 0;
    while k < bs.len()
        invariant
            k <= bv.len(),
            bv == bs.deep_view(),
            lines.deep_view() == join_blocks(bv.take(k as int)),
            sel == (if selected < k {
                join_blocks(bv.take(selected as int)).len()
            } else {
                0
            }),
        decreases bv.len() - k,
    {
        if k == selected {
            sel = lines.len();
        }
        assert(bv.take(k + 1).drop_last() =~= bv.take(k as int));
        assert(bv.take(k + 1).last() == bv[k as int]);
        let b = &bs[k];
        assert(b.deep_view() == bv[k as int]);
        push_copies(&mut lines, b, 0, b.len());
        assert(b.deep_view().subrange(0, b@.len() as int) =~= b.deep_view());
        k = k + 1;
    }
    assert(bv.take(bv.len() as int) =~= bv);
    (lines, sel)
}

/// The first visible line: with automatic scrolling, the least change that
/// brings the selected line into a window of `height` lines.
fn scroll_to(auto: bool, line: usize, scroll: usize, height: usize) -> (r: usize)
    requires
        height > 0,
    ensures
        r == scroll_spec(auto, line as nat, scroll as nat, height as nat),
{
    if !auto {
        scroll
    } else if line < scroll {
        line
    } else if line - scroll >= height {
        if line >= height - 1 {
            line - (height - 1)
        } else {
            0
        }
    } else {
        scroll
    }
}

/// The lines the results screen shows in a window of `height` lines: the
/// headers of the unused, vulnerability, duplicate, outdated and supply
/// chain sections that the result holds, each with its count and followed
/// by its items when expanded, scrolled so that the selected section shows
/// when scrolling follows the selection.
pub fn detail_lines(app: &App, height: usize) -> (r: Vec<DetailLine>)
    requires
        app.result matches Some(res) ==> crate::threshold::counts_fit(&res),
    ensures
        r.deep_view() == visible_details(app, height as nat),
        height == 0 ==> r@.len() == 0,
{
    if height == 0 {
        let r: Vec<DetailLine> = Vec::new();
        proof {
            if app.result is Some {
                let res = app.result.unwrap();
                {
                    let bs = result_blocks(&res, app);
                    let line = selected_line(bs, app.results_selected as nat);
                    let from = scroll_spec(app.results_auto_scroll, line, app.results_scroll as nat, 0);
                    let lines = join_blocks(bs);
                    assert(window(lines, from, 0) =~= Seq::<(Seq<char>, Tone)>::empty());
                }
            }
        }
        assert(r.deep_view() =~= Seq::<(Seq<char>, Tone)>::empty());
        return r;
    }
    let res = match &app.result {
        Some(res) => res,
        None => {
            let r: Vec<DetailLine> = Vec::new();
            assert(r.deep_view() =~= Seq::<(Seq<char>, Tone)>::empty());
            return r;
        },
    };
    proof {
        if res.vulns is Some {
            let v = res.vulns.unwrap();
            lemma_vuln_total_counts(v@);
            assert(v.deep_view() =~= v@.map_values(|r: VulnReport| r.deep_view()));
        }
    }
    let bs = result_block_lines(res, app);
    let (lines, sel) = join_selected(&bs, app.results_selected);
    let from = scroll_to(app.results_auto_scroll, sel, app.results_scroll, height);
    let n = lines.len();
    let end: usize = if from >= n {
        from
    } else if height <= n - from {
        from + height
    } else {
        n
    };
    let mut out: Vec<DetailLine> = Vec::new();
    if from < n {
        push_copies(&mut out, &lines, from, end);
    }
    assert(out.deep_view() =~= window(lines.deep_view(), from as nat, height as nat));
    out
}

/// The results screen never shows more lines than fit in its window, and
/// what it shows is a run of consecutive lines of the full list.
pub proof fn law_details_fit_the_window(lines: Seq<(Seq<char>, Tone)>, from: nat, height: nat)
    ensures
        window(lines, from, height).len() <= height,
        window(lines, from, height).len() > 0 ==> window(lines, from, height) == lines.subrange(
            from as int,
            (from + window(lines, from, height).len()) as int,
        ),
{
}

/// With scrolling that follows the selection, the selected line is inside
/// the window.
pub proof fn law_selected_line_is_visible(line: nat, scroll: nat, height: nat)
    requires
        height > 0,
    ensures
        scroll_spec(true, line, scroll, height) <= line < scroll_spec(true, line, scroll, height) + height,
{
}

} // verus!
