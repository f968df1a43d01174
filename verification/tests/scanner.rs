use lockpick::scanner::config::{
    expand_plugin_name, extract_config_deps, json_config_rules, searched_recursively, skips_config_dir, ConfigSources,
    JsConfigSource,
};
use lockpick::scanner::is_source_file;
use lockpick::scanner::imports::{imports_of, normalize_package_name, JsNode};
use lockpick::scanner::scripts::{extract_command_from_segment, extract_commands, script_deps_from_json};

#[test]
fn test_normalize_scoped_package() {
    assert_eq!(
        normalize_package_name("@scope/pkg/utils"),
        Some("@scope/pkg".to_string())
    );
}

#[test]
fn test_normalize_regular_package() {
    assert_eq!(normalize_package_name("lodash/get"), Some("lodash".to_string()));
}

#[test]
fn test_normalize_skip_relative() {
    assert_eq!(normalize_package_name("./local"), None);
    assert_eq!(normalize_package_name("../parent"), None);
}

#[test]
fn test_normalize_skip_builtin() {
    assert_eq!(normalize_package_name("node:fs"), None);
    assert_eq!(normalize_package_name("path"), None);
}

#[test]
fn normalize_scope_without_package_is_kept_whole() {
    assert_eq!(normalize_package_name("@scope"), Some("@scope".to_string()));
    assert_eq!(normalize_package_name("/abs/path"), Some(String::new()));
}

#[test]
fn test_extract_command_simple() {
    assert_eq!(extract_command_from_segment("eslint ."), Some("eslint".to_string()));
}

#[test]
fn test_extract_command_skip_npx() {
    assert_eq!(extract_command_from_segment("npx eslint ."), Some("eslint".to_string()));
}

#[test]
fn test_extract_command_skip_node() {
    assert_eq!(
        extract_command_from_segment("node dist/index.js"),
        Some("dist/index.js".to_string())
    );
}

#[test]
fn test_extract_command_with_env_var() {
    assert_eq!(
        extract_command_from_segment("cross-env NODE_ENV=production node server.js"),
        Some("cross-env".to_string())
    );
}

#[test]
fn test_extract_command_npm_run() {
    assert_eq!(extract_command_from_segment("npm run build"), Some("build".to_string()));
}

#[test]
fn test_extract_command_empty() {
    assert_eq!(extract_command_from_segment(""), None);
}

#[test]
fn test_extract_commands_chained() {
    let cmds = extract_commands("eslint . && prettier --write .");
    assert_eq!(cmds, vec!["eslint", "prettier"]);
}

#[test]
fn test_extract_commands_semicolon() {
    let cmds = extract_commands("tsc; eslint .");
    assert_eq!(cmds, vec!["tsc", "eslint"]);
}

#[test]
fn test_extract_commands_or_chain() {
    let cmds = extract_commands("eslint . || true");
    assert_eq!(cmds, vec!["eslint"]);
}

#[test]
fn test_extract_commands_pipe() {
    let cmds = extract_commands("jest --json | tsc");
    assert_eq!(cmds, vec!["jest", "tsc"]);
}

#[test]
fn test_extract_script_deps_basic() {
    let pkg = r#"{
        "scripts": {
            "build": "tsc",
            "lint": "eslint src/",
            "test": "vitest run",
            "dev": "nodemon src/index.ts",
            "format": "prettier --write ."
        }
    }"#;
    let deps = script_deps_from_json(pkg);
    assert!(deps.contains(&"typescript".to_string()));
    assert!(deps.contains(&"eslint".to_string()));
    assert!(deps.contains(&"vitest".to_string()));
    assert!(deps.contains(&"nodemon".to_string()));
    assert!(deps.contains(&"prettier".to_string()));
}

#[test]
fn test_extract_script_deps_skip_runners() {
    let pkg = r#"{
        "scripts": {
            "start": "node dist/index.js",
            "prepare": "npx husky install"
        }
    }"#;
    let deps = script_deps_from_json(pkg);
    assert!(!deps.contains(&"node".to_string()));
    assert!(!deps.contains(&"npx".to_string()));
    assert!(deps.contains(&"husky".to_string()));
}

#[test]
fn script_deps_of_invalid_json_are_empty() {
    assert!(script_deps_from_json("not json").is_empty());
}

#[test]
fn test_expand_plugin_name_scoped() {
    let result = expand_plugin_name("@typescript-eslint/eslint-plugin", &["eslint-plugin-"]);
    assert_eq!(result, vec!["@typescript-eslint/eslint-plugin".to_string()]);
}

#[test]
fn test_expand_plugin_name_already_prefixed() {
    let result = expand_plugin_name("eslint-plugin-react", &["eslint-plugin-"]);
    assert_eq!(result, vec!["eslint-plugin-react".to_string()]);
}

#[test]
fn expand_plugin_name_short_name_gets_each_prefix() {
    let result = expand_plugin_name("react", &["eslint-plugin-", "eslint-config-"]);
    assert_eq!(
        result,
        vec!["eslint-plugin-react".to_string(), "eslint-config-react".to_string(), "react".to_string()]
    );
}

/// Configuration sources with one JSON/YAML rule's files filled in.
fn json_sources(rule: usize, files: Vec<(&str, &str)>) -> ConfigSources {
    let mut json: Vec<Vec<(String, String)>> = vec![Vec::new(); 5];
    json[rule] = files.into_iter().map(|(n, t)| (n.to_string(), t.to_string())).collect();
    ConfigSources { js: Vec::new(), json }
}

fn has(deps: &[String], name: &str) -> bool {
    deps.iter().any(|d| d == name)
}

#[test]
fn test_extract_json_config_eslintrc() {
    let sources = json_sources(
        0,
        vec![(
            ".eslintrc.json",
            r#"{
                "extends": ["airbnb", "plugin:react/recommended"],
                "plugins": ["react", "import"]
            }"#,
        )],
    );
    let deps = extract_config_deps(&sources);
    assert!(has(&deps, "eslint-plugin-react"));
    assert!(has(&deps, "eslint-plugin-import"));
    assert!(has(&deps, "eslint-config-airbnb"));
}

#[test]
fn test_extract_json_config_babelrc() {
    let sources = json_sources(
        1,
        vec![(
            ".babelrc",
            r#"{
                "presets": ["@babel/preset-env", ["@babel/preset-react", {"runtime": "automatic"}]],
                "plugins": ["transform-runtime"]
            }"#,
        )],
    );
    let deps = extract_config_deps(&sources);
    assert!(has(&deps, "@babel/preset-env"));
    assert!(has(&deps, "@babel/preset-react"));
    assert!(has(&deps, "babel-plugin-transform-runtime"));
}

#[test]
fn test_extract_json_config_postcssrc() {
    let sources = json_sources(
        2,
        vec![(".postcssrc.json", r#"{ "plugins": {"autoprefixer": {}, "tailwindcss": {}} }"#)],
    );
    let deps = extract_config_deps(&sources);
    assert!(has(&deps, "autoprefixer"));
    assert!(has(&deps, "tailwindcss"));
}

#[test]
fn test_extract_json_config_yaml_eslintrc() {
    let sources = json_sources(0, vec![(".eslintrc.yaml", "extends:\n  - airbnb\nplugins:\n  - react\n")]);
    let deps = extract_config_deps(&sources);
    assert!(has(&deps, "eslint-config-airbnb"));
    assert!(has(&deps, "eslint-plugin-react"));
}

#[test]
fn test_extract_tsconfig_extends_recursive() {
    let sources = json_sources(
        3,
        vec![
            ("tsconfig.json", r#"{ "extends": "@org/root-tsconfig" }"#),
            ("tsconfig.json", r#"{ "extends": "@vben/tsconfig/web-app.json" }"#),
        ],
    );
    let deps = extract_config_deps(&sources);
    assert!(has(&deps, "@org/root-tsconfig"));
    assert!(has(&deps, "@vben/tsconfig"));
}

#[test]
fn test_extract_stylelint_extends_recursive() {
    let sources = json_sources(
        4,
        vec![
            (".stylelintrc.json", r#"{ "extends": "stylelint-config-standard" }"#),
            (".stylelintrc.json", r#"{ "extends": "@vben/stylelint-config" }"#),
        ],
    );
    let deps = extract_config_deps(&sources);
    assert!(has(&deps, "stylelint-config-standard"));
    assert!(has(&deps, "@vben/stylelint-config"));
}

fn stylelint_js(source: &str) -> ConfigSources {
    ConfigSources {
        js: vec![JsConfigSource {
            filename: "stylelint.config.mjs".to_string(),
            source: source.to_string(),
            imports: Vec::new(),
        }],
        json: Vec::new(),
    }
}

#[test]
fn test_extract_stylelint_js_config_extends() {
    let sources = stylelint_js("export default {\n  extends: ['@vben/stylelint-config'],\n  root: true,\n};");
    assert!(has(&extract_config_deps(&sources), "@vben/stylelint-config"));
}

#[test]
fn test_extract_stylelint_js_config_extends_double_quotes() {
    let sources = stylelint_js("export default {\n  extends: [\"@vben/stylelint-config\"],\n  root: true,\n};");
    assert!(has(&extract_config_deps(&sources), "@vben/stylelint-config"));
}

#[test]
fn test_extract_stylelint_js_config_extends_single_string() {
    let sources = stylelint_js("export default {\n  extends: \"@vben/stylelint-config\",\n  root: true,\n};");
    assert!(has(&extract_config_deps(&sources), "@vben/stylelint-config"));
}

#[test]
fn js_config_imports_are_collected_once() {
    let sources = ConfigSources {
        js: vec![
            JsConfigSource {
                filename: "vite.config.ts".to_string(),
                source: String::new(),
                imports: vec!["vite".to_string(), "@vitejs/plugin-react".to_string()],
            },
            JsConfigSource {
                filename: "vitest.config.ts".to_string(),
                source: String::new(),
                imports: vec!["vite".to_string()],
            },
        ],
        json: Vec::new(),
    };
    assert_eq!(extract_config_deps(&sources), vec!["vite", "@vitejs/plugin-react"]);
}

#[test]
fn stylelint_js_config_without_extends_adds_nothing() {
    let sources = stylelint_js("export default { root: true };");
    assert!(extract_config_deps(&sources).is_empty());
}

#[test]
fn source_files_are_js_ts_outside_excluded_dirs() {
    let parts = |p: &[&str]| p.iter().map(|s| s.to_string()).collect::<Vec<String>>();
    assert!(is_source_file(Some("tsx"), &parts(&["proj", "src", "app.tsx"])));
    assert!(is_source_file(Some("cjs"), &parts(&["proj", "lib", "x.cjs"])));
    assert!(!is_source_file(Some("json"), &parts(&["proj", "package.json"])));
    assert!(!is_source_file(None, &parts(&["proj", "Makefile"])));
    assert!(!is_source_file(Some("js"), &parts(&["proj", "node_modules", "a", "index.js"])));
    assert!(!is_source_file(Some("js"), &parts(&["proj", "dist", "bundle.js"])));
    assert!(is_source_file(Some("js"), &parts(&["proj", "distance", "a.js"])));
}

#[test]
fn config_search_rules() {
    assert!(skips_config_dir("node_modules"));
    assert!(skips_config_dir(".turbo"));
    assert!(!skips_config_dir("packages"));
    let rules = json_config_rules();
    let recursive: Vec<bool> = rules.iter().map(searched_recursively).collect();
    for (rule, r) in rules.iter().zip(recursive) {
        let expected = rule.filenames.iter().any(|f| f.starts_with("tsconfig") || f.starts_with(".stylelintrc"));
        assert_eq!(r, expected, "{:?}", rule.filenames);
    }
    assert!(rules.iter().any(searched_recursively));
    assert!(!rules.iter().all(searched_recursively));
}

#[test]
fn imports_are_collected_through_nested_code() {
    let nodes = vec![
        JsNode::ModuleDecl("react".into()),
        JsNode::ModuleDecl("./local".into()),
        JsNode::Parts(vec![JsNode::Parts(vec![JsNode::Call {
            require: Some("lodash/get".into()),
            resolve: None,
            nested: vec![None, Some("@scope/pkg/sub".into())],
        }])]),
        JsNode::Call { require: None, resolve: Some("node:fs".into()), nested: vec![] },
        JsNode::DynamicImport(Some("chalk".into())),
        JsNode::DynamicImport(None),
        JsNode::Other,
        JsNode::ModuleDecl("react".into()),
    ];
    assert_eq!(imports_of(&nodes), vec!["react", "lodash", "@scope/pkg", "chalk", "react"]);
    assert!(imports_of(&vec![]).is_empty());
}
