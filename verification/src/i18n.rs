//! Message texts in English and Chinese.
use vstd::prelude::*;

use crate::text::{starts_with, str_eq};

verus! {

/// Interface language.
#[derive(Debug, Clone, Copy, PartialEq, Eq, Structural)]
pub enum Lang {
    En,
    Zh,
}

/// Looks up message texts in one language.
#[derive(Debug)]
pub struct I18n {
    pub lang: Lang,
}

/// The Chinese text for a message key.
pub open spec fn zh_text(key: Seq<char>) -> Option<Seq<char>> {
    if key == "analyzing"@ {
        Some("正在分析项目..."@)
    } else if key == "unused_deps"@ {
        Some("未使用的依赖"@)
    } else if key == "vulns"@ {
        Some("安全漏洞"@)
    } else if key == "found"@ {
        Some("发现"@)
    } else if key == "package"@ {
        Some("包名"@)
    } else if key == "version"@ {
        Some("版本"@)
    } else if key == "type"@ {
        Some("类型"@)
    } else if key == "prod"@ {
        Some("生产"@)
    } else if key == "dev"@ {
        Some("开发"@)
    } else if key == "severity"@ {
        Some("严重程度"@)
    } else if key == "fix_version"@ {
        Some("修复版本"@)
    } else if key == "critical"@ {
        Some("严重"@)
    } else if key == "high"@ {
        Some("高危"@)
    } else if key == "medium"@ {
        Some("中危"@)
    } else if key == "low"@ {
        Some("低危"@)
    } else if key == "none"@ {
        Some("无"@)
    } else if key == "no_unused"@ {
        Some("未发现未使用的依赖"@)
    } else if key == "no_vulns"@ {
        Some("未发现安全漏洞"@)
    } else if key == "scan_complete"@ {
        Some("扫描完成"@)
    } else if key == "network_error"@ {
        Some("网络请求失败，跳过漏洞扫描"@)
    } else if key == "size_analysis"@ {
        Some("依赖体积分析"@)
    } else if key == "total_size"@ {
        Some("总计"@)
    } else if key == "size"@ {
        Some("体积"@)
    } else if key == "duplicate_deps"@ {
        Some("重复依赖"@)
    } else if key == "versions"@ {
        Some("版本列表"@)
    } else if key == "no_duplicates"@ {
        Some("未发现重复依赖"@)
    } else if key == "scan_config_complete"@ {
        Some("配置文件和脚本扫描完成"@)
    } else if key == "monorepo_detected"@ {
        Some("检测到 monorepo，共"@)
    } else if key == "workspace_packages"@ {
        Some("个工作区包"@)
    } else if key == "workspace_package"@ {
        Some("工作区包"@)
    } else if key == "skip_no_deps"@ {
        Some("跳过（无依赖声明）"@)
    } else if key == "license_report"@ {
        Some("许可证报告"@)
    } else if key == "license"@ {
        Some("许可证"@)
    } else if key == "license_violations"@ {
        Some("许可证违规"@)
    } else if key == "no_license_violations"@ {
        Some("未发现许可证违规"@)
    } else if key == "violation_denied"@ {
        Some("在黑名单中"@)
    } else if key == "violation_not_allowed"@ {
        Some("不在白名单"@)
    } else if key == "violation_unknown"@ {
        Some("无法识别"@)
    } else if key == "reason"@ {
        Some("原因"@)
    } else if key == "fix_dry_run"@ {
        Some("试运行模式，以下依赖将被移除："@)
    } else if key == "fix_confirm"@ {
        Some("确认移除以上依赖？"@)
    } else if key == "fix_confirm_prompt"@ {
        Some("确认删除？(y/N) "@)
    } else if key == "fix_will_remove"@ {
        Some("即将删除以下未使用依赖"@)
    } else if key == "fix_removing"@ {
        Some("正在移除"@)
    } else if key == "fix_done"@ {
        Some("移除完成"@)
    } else if key == "fix_failed"@ {
        Some("移除失败"@)
    } else if key == "fix_nothing"@ {
        Some("没有需要移除的依赖"@)
    } else if key == "diff_summary"@ {
        Some("差异摘要"@)
    } else if key == "diff_new"@ {
        Some("新增"@)
    } else if key == "diff_resolved"@ {
        Some("已解决"@)
    } else if key == "outdated_deps"@ {
        Some("过时依赖"@)
    } else if key == "no_outdated"@ {
        Some("所有依赖均为最新版本"@)
    } else if key == "supply_chain_analysis"@ {
        Some("供应链安全分析"@)
    } else if key == "supply_chain_risks"@ {
        Some("供应链风险"@)
    } else if key == "no_supply_chain_risks"@ {
        Some("未发现供应链风险"@)
    } else if key == "duplicates"@ {
        Some("重复依赖"@)
    } else if key == "current"@ {
        Some("当前版本"@)
    } else if key == "latest"@ {
        Some("最新版本"@)
    } else if key == "level"@ {
        Some("级别"@)
    } else if key == "priority"@ {
        Some("优先级"@)
    } else if key == "summary"@ {
        Some("摘要"@)
    } else if key == "risk"@ {
        Some("风险"@)
    } else if key == "typosquat"@ {
        Some("仿冒包"@)
    } else if key == "scope_confusion"@ {
        Some("作用域混淆"@)
    } else if key == "version_anomaly"@ {
        Some("版本异常"@)
    } else if key == "interactive_prompt"@ {
        Some("选择要查看的部分（输入数字）："@)
    } else if key == "interactive_select"@ {
        Some("输入选项（0 退出）："@)
    } else if key == "interactive_exit"@ {
        Some("退出"@)
    } else {
        None
    }
}

/// The English text for a message key.
pub open spec fn en_text(key: Seq<char>) -> Option<Seq<char>> {
    if key == "analyzing"@ {
        Some("Analyzing project..."@)
    } else if key == "unused_deps"@ {
        Some("Unused Dependencies"@)
    } else if key == "vulns"@ {
        Some("Vulnerabilities"@)
    } else if key == "found"@ {
        Some("found"@)
    } else if key == "package"@ {
        Some("Package"@)
    } else if key == "version"@ {
        Some("Version"@)
    } else if key == "type"@ {
        Some("Type"@)
    } else if key == "prod"@ {
        Some("prod"@)
    } else if key == "dev"@ {
        Some("dev"@)
    } else if key == "severity"@ {
        Some("Severity"@)
    } else if key == "fix_version"@ {
        Some("Fix Available"@)
    } else if key == "critical"@ {
        Some("CRITICAL"@)
    } else if key == "high"@ {
        Some("HIGH"@)
    } else if key == "medium"@ {
        Some("MEDIUM"@)
    } else if key == "low"@ {
        Some("LOW"@)
    } else if key == "none"@ {
        Some("N/A"@)
    } else if key == "no_unused"@ {
        Some("No unused dependencies found"@)
    } else if key == "no_vulns"@ {
        Some("No vulnerabilities found"@)
    } else if key == "scan_complete"@ {
        Some("Scan complete"@)
    } else if key == "network_error"@ {
        Some("Network error, skipping vulnerability scan"@)
    } else if key == "size_analysis"@ {
        Some("Dependency Size Analysis"@)
    } else if key == "total_size"@ {
        Some("Total"@)
    } else if key == "size"@ {
        Some("Size"@)
    } else if key == "duplicate_deps"@ {
        Some("Duplicate Dependencies"@)
    } else if key == "versions"@ {
        Some("Versions"@)
    } else if key == "no_duplicates"@ {
        Some("No duplicate dependencies found"@)
    } else if key == "scan_config_complete"@ {
        Some("Config and scripts scan complete"@)
    } else if key == "monorepo_detected"@ {
        Some("Monorepo detected,"@)
    } else if key == "workspace_packages"@ {
        Some("workspace packages"@)
    } else if key == "workspace_package"@ {
        Some("Workspace package"@)
    } else if key == "skip_no_deps"@ {
        Some("Skipped (no dependencies declared)"@)
    } else if key == "license_report"@ {
        Some("License Report"@)
    } else if key == "license"@ {
        Some("License"@)
    } else if key == "license_violations"@ {
        Some("License Violations"@)
    } else if key == "no_license_violations"@ {
        Some("No license violations"@)
    } else if key == "violation_denied"@ {
        Some("Denied"@)
    } else if key == "violation_not_allowed"@ {
        Some("Not in allowlist"@)
    } else if key == "violation_unknown"@ {
        Some("Unknown license"@)
    } else if key == "reason"@ {
        Some("Reason"@)
    } else if key == "fix_dry_run"@ {
        Some("Dry run mode, the following deps would be removed:"@)
    } else if key == "fix_confirm"@ {
        Some("Confirm removal of the above dependencies?"@)
    } else if key == "fix_confirm_prompt"@ {
        Some("Confirm removal? (y/N) "@)
    } else if key == "fix_will_remove"@ {
        Some("The following unused dependencies will be removed"@)
    } else if key == "fix_removing"@ {
        Some("Removing"@)
    } else if key == "fix_done"@ {
        Some("Removal complete"@)
    } else if key == "fix_failed"@ {
        Some("Removal failed"@)
    } else if key == "fix_nothing"@ {
        Some("No dependencies to remove"@)
    } else if key == "diff_summary"@ {
        Some("Diff Summary"@)
    } else if key == "diff_new"@ {
        Some("new"@)
    } else if key == "diff_resolved"@ {
        Some("resolved"@)
    } else if key == "outdated_deps"@ {
        Some("Outdated Dependencies"@)
    } else if key == "no_outdated"@ {
        Some("All dependencies are up to date"@)
    } else if key == "supply_chain_analysis"@ {
        Some("Supply Chain Analysis"@)
    } else if key == "supply_chain_risks"@ {
        Some("Supply Chain Risks"@)
    } else if key == "no_supply_chain_risks"@ {
        Some("No supply chain risks found"@)
    } else if key == "duplicates"@ {
        Some("Duplicates"@)
    } else if key == "current"@ {
        Some("Current"@)
    } else if key == "latest"@ {
        Some("Latest"@)
    } else if key == "level"@ {
        Some("Level"@)
    } else if key == "priority"@ {
        Some("Priority"@)
    } else if key == "summary"@ {
        Some("Summary"@)
    } else if key == "risk"@ {
        Some("Risk"@)
    } else if key == "typosquat"@ {
        Some("Typosquat"@)
    } else if key == "scope_confusion"@ {
        Some("Scope confusion"@)
    } else if key == "version_anomaly"@ {
        Some("Version anomaly"@)
    } else if key == "interactive_prompt"@ {
        Some("Select sections to view (enter number):"@)
    } else if key == "interactive_select"@ {
        Some("Enter choice (0 to exit):"@)
    } else if key == "interactive_exit"@ {
        Some("Exit"@)
    } else {
        None
    }
}

/// The Chinese text for a message key, if it has one.
fn zh_lookup(key: &str) -> (r: Option<&'static str>)
    ensures
        match zh_text(key@) {
            Some(t) => r matches Some(s) && s@ == t,
            None => r is None,
        },
{
    if str_eq(key, "analyzing") {
        return Some("正在分析项目...");
    }
    if str_eq(key, "unused_deps") {
        return Some("未使用的依赖");
    }
    if str_eq(key, "vulns") {
        return Some("安全漏洞");
    }
    if str_eq(key, "found") {
        return Some("发现");
    }
    if str_eq(key, "package") {
        return Some("包名");
    }
    if str_eq(key, "version") {
        return Some("版本");
    }
    if str_eq(key, "type") {
        return Some("类型");
    }
    if str_eq(key, "prod") {
        return Some("生产");
    }
    if str_eq(key, "dev") {
        return Some("开发");
    }
    if str_eq(key, "severity") {
        return Some("严重程度");
    }
    if str_eq(key, "fix_version") {
        return Some("修复版本");
    }
    if str_eq(key, "critical") {
        return Some("严重");
    }
    if str_eq(key, "high") {
        return Some("高危");
    }
    if str_eq(key, "medium") {
        return Some("中危");
    }
    if str_eq(key, "low") {
        return Some("低危");
    }
    if str_eq(key, "none") {
        return Some("无");
    }
    if str_eq(key, "no_unused") {
        return Some("未发现未使用的依赖");
    }
    if str_eq(key, "no_vulns") {
        return Some("未发现安全漏洞");
    }
    if str_eq(key, "scan_complete") {
        return Some("扫描完成");
    }
    if str_eq(key, "network_error") {
        return Some("网络请求失败，跳过漏洞扫描");
    }
    if str_eq(key, "size_analysis") {
        return Some("依赖体积分析");
    }
    if str_eq(key, "total_size") {
        return Some("总计");
    }
    if str_eq(key, "size") {
        return Some("体积");
    }
    if str_eq(key, "duplicate_deps") {
        return Some("重复依赖");
    }
    if str_eq(key, "versions") {
        return Some("版本列表");
    }
    if str_eq(key, "no_duplicates") {
        return Some("未发现重复依赖");
    }
    if str_eq(key, "scan_config_complete") {
        return Some("配置文件和脚本扫描完成");
    }
    if str_eq(key, "monorepo_detected") {
        return Some("检测到 monorepo，共");
    }
    if str_eq(key, "workspace_packages") {
        return Some("个工作区包");
    }
    if str_eq(key, "workspace_package") {
        return Some("工作区包");
    }
    if str_eq(key, "skip_no_deps") {
        return Some("跳过（无依赖声明）");
    }
    if str_eq(key, "license_report") {
        return Some("许可证报告");
    }
    if str_eq(key, "license") {
        return Some("许可证");
    }
    if str_eq(key, "license_violations") {
        return Some("许可证违规");
    }
    if str_eq(key, "no_license_violations") {
        return Some("未发现许可证违规");
    }
    if str_eq(key, "violation_denied") {
        return Some("在黑名单中");
    }
    if str_eq(key, "violation_not_allowed") {
        return Some("不在白名单");
    }
    if str_eq(key, "violation_unknown") {
        return Some("无法识别");
    }
    if str_eq(key, "reason") {
        return Some("原因");
    }
    if str_eq(key, "fix_dry_run") {
        return Some("试运行模式，以下依赖将被移除：");
    }
    if str_eq(key, "fix_confirm") {
        return Some("确认移除以上依赖？");
    }
    if str_eq(key, "fix_confirm_prompt") {
        return Some("确认删除？(y/N) ");
    }
    if str_eq(key, "fix_will_remove") {
        return Some("即将删除以下未使用依赖");
    }
    if str_eq(key, "fix_removing") {
        return Some("正在移除");
    }
    if str_eq(key, "fix_done") {
        return Some("移除完成");
    }
    if str_eq(key, "fix_failed") {
        return Some("移除失败");
    }
    if str_eq(key, "fix_nothing") {
        return Some("没有需要移除的依赖");
    }
    if str_eq(key, "diff_summary") {
        return Some("差异摘要");
    }
    if str_eq(key, "diff_new") {
        return Some("新增");
    }
    if str_eq(key, "diff_resolved") {
        return Some("已解决");
    }
    if str_eq(key, "outdated_deps") {
        return Some("过时依赖");
    }
    if str_eq(key, "no_outdated") {
        return Some("所有依赖均为最新版本");
    }
    if str_eq(key, "supply_chain_analysis") {
        return Some("供应链安全分析");
    }
    if str_eq(key, "supply_chain_risks") {
        return Some("供应链风险");
    }
    if str_eq(key, "no_supply_chain_risks") {
        return Some("未发现供应链风险");
    }
    if str_eq(key, "duplicates") {
        return Some("重复依赖");
    }
    if str_eq(key, "current") {
        return Some("当前版本");
    }
    if str_eq(key, "latest") {
        return Some("最新版本");
    }
    if str_eq(key, "level") {
        return Some("级别");
    }
    if str_eq(key, "priority") {
        return Some("优先级");
    }
    if str_eq(key, "summary") {
        return Some("摘要");
    }
    if str_eq(key, "risk") {
        return Some("风险");
    }
    if str_eq(key, "typosquat") {
        return Some("仿冒包");
    }
    if str_eq(key, "scope_confusion") {
        return Some("作用域混淆");
    }
    if str_eq(key, "version_anomaly") {
        return Some("版本异常");
    }
    if str_eq(key, "interactive_prompt") {
        return Some("选择要查看的部分（输入数字）：");
    }
    if str_eq(key, "interactive_select") {
        return Some("输入选项（0 退出）：");
    }
    if str_eq(key, "interactive_exit") {
        return Some("退出");
    }
    None
}

/// The English text for a message key, if it has one.
fn en_lookup(key: &str) -> (r: Option<&'static str>)
    ensures
        match en_text(key@) {
            Some(t) => r matches Some(s) && s@ == t,
            None => r is None,
        },
{
    if str_eq(key, "analyzing") {
        return Some("Analyzing project...");
    }
    if str_eq(key, "unused_deps") {
        return Some("Unused Dependencies");
    }
    if str_eq(key, "vulns") {
        return Some("Vulnerabilities");
    }
    if str_eq(key, "found") {
        return Some("found");
    }
    if str_eq(key, "package") {
        return Some("Package");
    }
    if str_eq(key, "version") {
        return Some("Version");
    }
    if str_eq(key, "type") {
        return Some("Type");
    }
    if str_eq(key, "prod") {
        return Some("prod");
    }
    if str_eq(key, "dev") {
        return Some("dev");
    }
    if str_eq(key, "severity") {
        return Some("Severity");
    }
    if str_eq(key, "fix_version") {
        return Some("Fix Available");
    }
    if str_eq(key, "critical") {
        return Some("CRITICAL");
    }
    if str_eq(key, "high") {
        return Some("HIGH");
    }
    if str_eq(key, "medium") {
        return Some("MEDIUM");
    }
    if str_eq(key, "low") {
        return Some("LOW");
    }
    if str_eq(key, "none") {
        return Some("N/A");
    }
    if str_eq(key, "no_unused") {
        return Some("No unused dependencies found");
    }
    if str_eq(key, "no_vulns") {
        return Some("No vulnerabilities found");
    }
    if str_eq(key, "scan_complete") {
        return Some("Scan complete");
    }
    if str_eq(key, "network_error") {
        return Some("Network error, skipping vulnerability scan");
    }
    if str_eq(key, "size_analysis") {
        return Some("Dependency Size Analysis");
    }
    if str_eq(key, "total_size") {
        return Some("Total");
    }
    if str_eq(key, "size") {
        return Some("Size");
    }
    if str_eq(key, "duplicate_deps") {
        return Some("Duplicate Dependencies");
    }
    if str_eq(key, "versions") {
        return Some("Versions");
    }
    if str_eq(key, "no_duplicates") {
        return Some("No duplicate dependencies found");
    }
    if str_eq(key, "scan_config_complete") {
        return Some("Config and scripts scan complete");
    }
    if str_eq(key, "monorepo_detected") {
        return Some("Monorepo detected,");
    }
    if str_eq(key, "workspace_packages") {
        return Some("workspace packages");
    }
    if str_eq(key, "workspace_package") {
        return Some("Workspace package");
    }
    if str_eq(key, "skip_no_deps") {
        return Some("Skipped (no dependencies declared)");
    }
    if str_eq(key, "license_report") {
        return Some("License Report");
    }
    if str_eq(key, "license") {
        return Some("License");
    }
    if str_eq(key, "license_violations") {
        return Some("License Violations");
    }
    if str_eq(key, "no_license_violations") {
        return Some("No license violations");
    }
    if str_eq(key, "violation_denied") {
        return Some("Denied");
    }
    if str_eq(key, "violation_not_allowed") {
        return Some("Not in allowlist");
    }
    if str_eq(key, "violation_unknown") {
        return Some("Unknown license");
    }
    if str_eq(key, "reason") {
        return Some("Reason");
    }
    if str_eq(key, "fix_dry_run") {
        return Some("Dry run mode, the following deps would be removed:");
    }
    if str_eq(key, "fix_confirm") {
        return Some("Confirm removal of the above dependencies?");
    }
    if str_eq(key, "fix_confirm_prompt") {
        return Some("Confirm removal? (y/N) ");
    }
    if str_eq(key, "fix_will_remove") {
        return Some("The following unused dependencies will be removed");
    }
    if str_eq(key, "fix_removing") {
        return Some("Removing");
    }
    if str_eq(key, "fix_done") {
        return Some("Removal complete");
    }
    if str_eq(key, "fix_failed") {
        return Some("Removal failed");
    }
    if str_eq(key, "fix_nothing") {
        return Some("No dependencies to remove");
    }
    if str_eq(key, "diff_summary") {
        return Some("Diff Summary");
    }
    if str_eq(key, "diff_new") {
        return Some("new");
    }
    if str_eq(key, "diff_resolved") {
        return Some("resolved");
    }
    if str_eq(key, "outdated_deps") {
        return Some("Outdated Dependencies");
    }
    if str_eq(key, "no_outdated") {
        return Some("All dependencies are up to date");
    }
    if str_eq(key, "supply_chain_analysis") {
        return Some("Supply Chain Analysis");
    }
    if str_eq(key, "supply_chain_risks") {
        return Some("Supply Chain Risks");
    }
    if str_eq(key, "no_supply_chain_risks") {
        return Some("No supply chain risks found");
    }
    if str_eq(key, "duplicates") {
        return Some("Duplicates");
    }
    if str_eq(key, "current") {
        return Some("Current");
    }
    if str_eq(key, "latest") {
        return Some("Latest");
    }
    if str_eq(key, "level") {
        return Some("Level");
    }
    if str_eq(key, "priority") {
        return Some("Priority");
    }
    if str_eq(key, "summary") {
        return Some("Summary");
    }
    if str_eq(key, "risk") {
        return Some("Risk");
    }
    if str_eq(key, "typosquat") {
        return Some("Typosquat");
    }
    if str_eq(key, "scope_confusion") {
        return Some("Scope confusion");
    }
    if str_eq(key, "version_anomaly") {
        return Some("Version anomaly");
    }
    if str_eq(key, "interactive_prompt") {
        return Some("Select sections to view (enter number):");
    }
    if str_eq(key, "interactive_select") {
        return Some("Enter choice (0 to exit):");
    }
    if str_eq(key, "interactive_exit") {
        return Some("Exit");
    }
    None
}

/// The text for `key` in `lang`; a key without a text stands for itself.
pub open spec fn translate(lang: Lang, key: Seq<char>) -> Seq<char> {
    match (match lang {
        Lang::Zh => zh_text(key),
        Lang::En => en_text(key),
    }) {
        Some(t) => t,
        None => key,
    }
}

/// `s` in lower case, as `str::to_lowercase` gives it.
pub uninterp spec fn lower_text(s: Seq<char>) -> Seq<char>;

/// `str::to_lowercase`: the result is `lower_text` of the argument.
#[verifier::external_body]
fn to_lowercase(s: &str) -> (r: String)
    ensures
        r@ == lower_text(s@),
{
    s.to_lowercase()
}

/// The language a name selects: `zh`, `zh-cn`, `chinese`, `en` or
/// `english`, in any case.
pub open spec fn lang_named(s: Seq<char>) -> Option<Lang> {
    let l = lower_text(s);
    if l == "zh"@ || l == "zh-cn"@ || l == "chinese"@ {
        Some(Lang::Zh)
    } else if l == "en"@ || l == "english"@ {
        Some(Lang::En)
    } else {
        None
    }
}

/// The language a name selects.
fn parse_lang(s: &str) -> (r: Option<Lang>)
    ensures
        r == lang_named(s@),
{
    let l = to_lowercase(s);
    let t = l.as_str();
    if str_eq(t, "zh") || str_eq(t, "zh-cn") || str_eq(t, "chinese") {
        Some(Lang::Zh)
    } else if str_eq(t, "en") || str_eq(t, "english") {
        Some(Lang::En)
    } else {
        None
    }
}

/// The language chosen from, in order: the command line, the
/// `LOCKPICK_LANG` setting, a system locale starting with `zh`; English
/// otherwise.
pub open spec fn chosen_lang(cli: Option<Seq<char>>, setting: Option<Seq<char>>, locale: Seq<char>) -> Lang {
    let from_cli = match cli {
        Some(c) => lang_named(c),
        None => None,
    };
    let from_setting = match setting {
        Some(c) => lang_named(c),
        None => None,
    };
    match from_cli {
        Some(l) => l,
        None => match from_setting {
            Some(l) => l,
            None => if starts_with(locale, "zh"@) {
                Lang::Zh
            } else {
                Lang::En
            },
        },
    }
}

impl I18n {
    /// Chooses the language from the command-line choice, the
    /// `LOCKPICK_LANG` setting and the system locale (`LC_ALL`, else `LANG`,
    /// empty when neither is set).
    pub fn detect_from(cli_lang: Option<&str>, setting: Option<&str>, locale: &str) -> (r: Self)
        ensures
            r.lang == chosen_lang(
                match cli_lang {
                    Some(c) => Some(c@),
                    None => None,
                },
                match setting {
                    Some(c) => Some(c@),
                    None => None,
                },
                locale@,
            ),
    {
        let from_cli = match cli_lang {
            Some(c) => parse_lang(c),
            None => None,
        };
        let lang = match from_cli {
            Some(l) => l,
            None => {
                let from_setting = match setting {
                    Some(c) => parse_lang(c),
                    None => None,
                };
                match from_setting {
                    Some(l) => l,
                    None => {
                        let lc = crate::text::chars_of(locale);
                        if crate::text::starts_with_str(lc.as_slice(), "zh") {
                            Lang::Zh
                        } else {
                            Lang::En
                        }
                    },
                }
            },
        };
        I18n { lang }
    }

    /// The text for a message key in this language; a key without a text
    /// is returned as it is.
    pub fn t<'a>(&self, key: &'a str) -> (r: &'a str)
        ensures
            r@ == translate(self.lang, key@),
    {
        let found = match self.lang {
            Lang::Zh => zh_lookup(key),
            Lang::En => en_lookup(key),
        };
        match found {
            Some(s) => s,
            None => key,
        }
    }
}

} // verus!
