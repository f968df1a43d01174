//! The choices of the interactive report: which sections it offers, and
//! what a line typed at its prompt selects.
use vstd::prelude::*;

use crate::text::{chars_of, parse_u64, parse_u64_spec, trim, trim_chars};
use crate::AnalysisResult;

verus! {

/// A section of the report that the interactive menu can show.
#[derive(Debug, Clone, Copy, PartialEq, Eq, Structural)]
pub enum ReportSection {
    Unused,
    Vulns,
    Duplicates,
    Size,
    License,
    Outdated,
    SupplyChain,
}

/// What a line typed at the menu prompt asks for.
#[derive(Debug, Clone, Copy, PartialEq, Eq, Structural)]
pub enum MenuChoice {
    /// Leave the menu.
    Exit,
    /// Show the section at this position of the menu (from 0).
    Show(usize),
    /// Nothing: ask again.
    Ignore,
}

/// The message key of a section's title.
pub open spec fn section_key(s: ReportSection) -> Seq<char> {
    match s {
        ReportSection::Unused => "unused_deps"@,
        ReportSection::Vulns => "vulns"@,
        ReportSection::Duplicates => "duplicate_deps"@,
        ReportSection::Size => "size_analysis"@,
        ReportSection::License => "license_violations"@,
        ReportSection::Outdated => "outdated_deps"@,
        ReportSection::SupplyChain => "supply_chain_risks"@,
    }
}

/// Whether a section has something to show: a report that is present and
/// not empty (for licenses, one with violations).
pub open spec fn section_shown(result: &AnalysisResult, s: ReportSection) -> bool {
    match s {
        ReportSection::Unused => result.unused matches Some(u) && u.unused@.len() > 0,
        ReportSection::Vulns => result.vulns matches Some(v) && v@.len() > 0,
        ReportSection::Duplicates => result.duplicates matches Some(d) && d.duplicates@.len() > 0,
        ReportSection::Size => result.size matches Some(z) && z.entries@.len() > 0,
        ReportSection::License => result.license matches Some(l) && l.violations@.len() > 0,
        ReportSection::Outdated => result.outdated matches Some(o) && o.entries@.len() > 0,
        ReportSection::SupplyChain => result.supply_chain matches Some(c) && c.risks@.len() > 0,
    }
}

/// `s` followed by `x` when `keep` holds.
pub open spec fn push_if(s: Seq<ReportSection>, keep: bool, x: ReportSection) -> Seq<ReportSection> {
    if keep {
        s.push(x)
    } else {
        s
    }
}

/// The sections with something to show, in menu order.
pub open spec fn shown_sections(result: &AnalysisResult) -> Seq<ReportSection> {
    let s0 = push_if(Seq::empty(), section_shown(result, ReportSection::Unused), ReportSection::Unused);
    let s1 = push_if(s0, section_shown(result, ReportSection::Vulns), ReportSection::Vulns);
    let s2 = push_if(s1, section_shown(result, ReportSection::Duplicates), ReportSection::Duplicates);
    let s3 = push_if(s2, section_shown(result, ReportSection::Size), ReportSection::Size);
    let s4 = push_if(s3, section_shown(result, ReportSection::License), ReportSection::License);
    let s5 = push_if(s4, section_shown(result, ReportSection::Outdated), ReportSection::Outdated);
    push_if(s5, section_shown(result, ReportSection::SupplyChain), ReportSection::SupplyChain)
}

/// What a line typed at the prompt selects among `count` sections: `0` or
/// an empty line leaves, a number from 1 to `count` shows that section,
/// anything else is ignored.
pub open spec fn menu_choice_spec(input: Seq<char>, count: nat) -> MenuChoice {
    let c = trim(input);
    if c == "0"@ || c.len() == 0 {
        MenuChoice::Exit
    } else {
        match parse_u64_spec(c) {
            Some(n) => if 0 < n <= count {
                MenuChoice::Show((n - 1) as usize)
            } else {
                MenuChoice::Ignore
            },
            None => MenuChoice::Ignore,
        }
    }
}

/// The message key of a section's title.
pub fn section_title_key(s: ReportSection) -> (r: &'static str)
    ensures
        r@ == section_key(s),
{
    match s {
        ReportSection::Unused => "unused_deps",
        ReportSection::Vulns => "vulns",
        ReportSection::Duplicates => "duplicate_deps",
        ReportSection::Size => "size_analysis",
        ReportSection::License => "license_violations",
        ReportSection::Outdated => "outdated_deps",
        ReportSection::SupplyChain => "supply_chain_risks",
    }
}

/// The sections the interactive menu offers, in order.
pub fn report_sections(result: &AnalysisResult) -> (r: Vec<ReportSection>)
    ensures
        r@ == shown_sections(result),
{
    let mut r: Vec<ReportSection> = Vec::new();
    let unused = match &result.unused {
        Some(u) => u.unused.len() > 0,
        None => false,
    };
    if unused {
        r.push(ReportSection::Unused);
    }
    let vulns = match &result.vulns {
        Some(v) => v.len() > 0,
        None => false,
    };
    if vulns {
        r.push(ReportSection::Vulns);
    }
    let duplicates = match &result.duplicates {
        Some(d) => d.duplicates.len() > 0,
        None => false,
    };
    if duplicates {
        r.push(ReportSection::Duplicates);
    }
    let size = match &result.size {
        Some(z) => z.entries.len() > 0,
        None => false,
    };
    if size {
        r.push(ReportSection::Size);
    }
    let license = match &result.license {
        Some(l) => l.violations.len() > 0,
        None => false,
    };
    if license {
        r.push(ReportSection::License);
    }
    let outdated = match &result.outdated {
        Some(o) => o.entries.len() > 0,
        None => false,
    };
    if outdated {
        r.push(ReportSection::Outdated);
    }
    let supply_chain = match &result.supply_chain {
        Some(c) => c.risks.len() > 0,
        None => false,
    };
    if supply_chain {
        r.push(ReportSection::SupplyChain);
    }
    r
}

/// What a line typed at the prompt selects among `count` sections.
pub fn menu_choice(input: &str, count: usize) -> (r: MenuChoice)
    ensures
        r == menu_choice_spec(input@, count as nat),
{
    let cs = chars_of(input);
    let c = trim_chars(cs.as_slice());
    proof {
        reveal_strlit("0");
    }
    if c.len() == 0 || (c.len() == 1 && c[0] == '0') {
        assert(c.len() == 1 && c[0] == '0' ==> c@ =~= "0"@);
        return MenuChoice::Exit;
    }
    assert(c@ != "0"@);
    match parse_u64(c.as_slice()) {
        Some(n) => {
            if 0 < n && n <= count as u64 {
                MenuChoice::Show((n - 1) as usize)
            } else {
                MenuChoice::Ignore
            }
        },
        None => MenuChoice::Ignore,
    }
}

/// A menu choice shows one of the offered sections, and the menu offers
/// only sections with something to show, each once.
pub proof fn law_menu_shows_only_offered_sections(result: &AnalysisResult, input: Seq<char>, count: nat)
    ensures
        menu_choice_spec(input, count) matches MenuChoice::Show(i) ==> i < count,
        forall|k: int|
            0 <= k < shown_sections(result).len() ==> section_shown(result, #[trigger] shown_sections(result)[k]),
        shown_sections(result).no_duplicates(),
        shown_sections(result).len() <= 7,
{
}

} // verus!
