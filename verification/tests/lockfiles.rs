use lockpick::lockfile::{bun, npm, pnpm, yarn};
use lockpick::LockfileType;

const YARN_LOCK: &str = "# THIS IS AN AUTOGENERATED FILE. DO NOT EDIT THIS FILE DIRECTLY.
# yarn lockfile v1


lodash@^4.17.21:
  version \"4.17.21\"
  resolved \"https://registry.yarnpkg.com/lodash/-/lodash-4.17.21.tgz#fake\"
  integrity sha512-fake-lodash-integrity

react@^18.2.0:
  version \"18.2.0\"
  resolved \"https://registry.yarnpkg.com/react/-/react-18.2.0.tgz#fake\"
  integrity sha512-fake-react-integrity
  dependencies:
    loose-envify \"^1.1.0\"

typescript@^5.3.3:
  version \"5.3.3\"
  resolved \"https://registry.yarnpkg.com/typescript/-/typescript-5.3.3.tgz#fake\"
  integrity sha512-fake-typescript-integrity
";

#[test]
fn yarn_test_parse_v1_basic() {
    let graph = yarn::parse(YARN_LOCK).unwrap();
    assert_eq!(graph.lockfile_type, LockfileType::Yarn);
    assert_eq!(graph.dependencies.len(), 3);
    assert!(graph.dev_dependencies.is_empty());

    let lodash = graph.dependencies.get("lodash").unwrap();
    assert_eq!(lodash.name, "lodash");
    assert_eq!(lodash.version, "4.17.21");
    assert_eq!(lodash.integrity.as_deref(), Some("sha512-fake-lodash-integrity"));

    let react = graph.dependencies.get("react").unwrap();
    assert_eq!(react.name, "react");
    assert_eq!(react.version, "18.2.0");
    assert_eq!(react.integrity.as_deref(), Some("sha512-fake-react-integrity"));

    let ts = graph.dependencies.get("typescript").unwrap();
    assert_eq!(ts.name, "typescript");
    assert_eq!(ts.version, "5.3.3");
    assert_eq!(ts.integrity.as_deref(), Some("sha512-fake-typescript-integrity"));

    assert_eq!(graph.all_packages.len(), 3);
    assert_eq!(graph.all_packages.get("lodash").unwrap(), &vec!["4.17.21".to_string()]);
    assert_eq!(graph.all_packages.get("react").unwrap(), &vec!["18.2.0".to_string()]);
    assert_eq!(graph.all_packages.get("typescript").unwrap(), &vec!["5.3.3".to_string()]);
}

#[test]
fn test_parse_invalid() {
    let result = yarn::parse("this is not a valid yarn.lock file at all");
    assert!(result.is_err());
}

#[test]
fn test_yarn_dev_names_and_edges() {
    let dev = vec!["typescript".to_string()];
    let graph = yarn::parse_with_edges(YARN_LOCK, &dev).unwrap();
    assert_eq!(graph.dependencies.len(), 2);
    assert!(graph.dev_dependencies.contains_key("typescript"));
    let edges = graph.dep_edges.get("react@18.2.0").unwrap();
    assert_eq!(edges.len(), 1);
    assert_eq!(edges[0].name, "loose-envify");
    assert_eq!(edges[0].version, "^1.1.0");
    assert_eq!(graph.dep_edges.len(), 1);
}

#[test]
fn test_yarn_scoped_and_missing_version() {
    let ok = yarn::parse("\"@scope/pkg@^1.0.0\", \"@scope/pkg@^1.1.0\":\n  version \"1.2.0\"\n").unwrap();
    assert_eq!(ok.dependencies.get("@scope/pkg").unwrap().version, "1.2.0");
    let err = yarn::parse("# yarn lockfile v1\nleft-pad@^1.0.0:\n  resolved \"x\"\n").unwrap_err();
    assert_eq!(
        err,
        lockpick::error::LockpickError::Parse("Missing version for package 'left-pad'".to_string())
    );
}

#[test]
fn test_parse_basic_bun_lock() {
    let content = r#"{
  "lockfileVersion": 0,
  "workspaces": {
    "": {
      "name": "my-app",
      "dependencies": {
        "react": "^18.2.0",
        "lodash": "^4.17.21"
      },
      "devDependencies": {
        "typescript": "^5.3.0"
      }
    }
  },
  "packages": {
    "react": ["react@18.2.0"],
    "lodash": ["lodash@4.17.21"],
    "typescript": ["typescript@5.3.3"],
    "@scope/pkg": ["@scope/pkg@2.0.0"]
  }
}"#;
    let graph = bun::parse(content).unwrap();
    assert_eq!(graph.lockfile_type, LockfileType::Bun);
    assert_eq!(graph.dependencies.len(), 2);
    assert!(graph.dependencies.contains_key("react"));
    assert_eq!(graph.dependencies.get("react").unwrap().version, "18.2.0");
    assert_eq!(graph.dependencies.get("lodash").unwrap().version, "4.17.21");
    assert_eq!(graph.dev_dependencies.get("typescript").unwrap().version, "5.3.3");
    assert_eq!(graph.dev_dependencies.len(), 1);
    assert_eq!(graph.all_packages.get("react").unwrap(), &vec!["18.2.0".to_string()]);
    assert_eq!(graph.all_packages.get("@scope/pkg").unwrap(), &vec!["2.0.0".to_string()]);
}

#[test]
fn test_parse_bun_lock_monorepo() {
    let content = r#"{
  "lockfileVersion": 0,
  "workspaces": {
    "": {
      "name": "monorepo-root",
      "dependencies": {
        "react": "^18.2.0"
      }
    },
    "packages/app-a": {
      "name": "app-a",
      "dependencies": {
        "lodash": "^4.17.21"
      },
      "devDependencies": {
        "vitest": "^1.0.0"
      }
    }
  },
  "packages": {
    "react": ["react@18.2.0"],
    "lodash": ["lodash@4.17.21"],
    "vitest": ["vitest@1.2.0"]
  }
}"#;
    let graph = bun::parse(content).unwrap();
    assert!(graph.dependencies.contains_key("react"));
    assert!(graph.dependencies.contains_key("lodash"));
    assert!(graph.dev_dependencies.contains_key("vitest"));
    assert_eq!(graph.dependencies.get("react").unwrap().version, "18.2.0");
    assert_eq!(graph.dependencies.get("lodash").unwrap().version, "4.17.21");
    assert_eq!(graph.dev_dependencies.get("vitest").unwrap().version, "1.2.0");
}

#[test]
fn test_parse_bun_lock_with_comments() {
    let content = r#"{
  "lockfileVersion": 0,
  "workspaces": {
    "": {
      "name": "my-app",
      /* project dependencies */
      "dependencies": {
        "react": "^18.2.0"
      }
    }
  },
  "packages": {
    "react": ["react@18.2.0"]
  }
}"#;
    let graph = bun::parse(content).unwrap();
    assert_eq!(graph.lockfile_type, LockfileType::Bun);
    assert_eq!(graph.dependencies.len(), 1);
    assert!(graph.dependencies.contains_key("react"));
}

#[test]
fn test_bun_edges_and_errors() {
    let content = r#"{
  "workspaces": { "": { "dependencies": { "react": "^18.2.0" } } },
  "packages": {
    "react": ["react@18.2.0", "", "sha512-r", { "loose-envify": "^1.1.0", "x": 3 }]
  }
}"#;
    let graph = bun::parse_with_edges(content).unwrap();
    let react = graph.dependencies.get("react").unwrap();
    assert_eq!(react.integrity.as_deref(), Some("sha512-r"));
    let edges = graph.dep_edges.get("react@18.2.0").unwrap();
    assert_eq!(edges.len(), 2);
    assert_eq!(edges[0].name, "loose-envify");
    assert_eq!(edges[1].version, "*");
    let err = bun::parse("{ not json").unwrap_err();
    match err {
        lockpick::error::LockpickError::Parse(m) => assert!(m.starts_with("Failed to parse bun.lock: ")),
        _ => panic!("expected a parse error"),
    }
}

const PACKAGE_LOCK: &str = r#"{
  "name": "test-project",
  "version": "1.0.0",
  "lockfileVersion": 3,
  "requires": true,
  "packages": {
    "": {
      "name": "test-project",
      "version": "1.0.0",
      "dependencies": { "lodash": "^4.17.21", "react": "^18.2.0" },
      "devDependencies": { "typescript": "^5.3.3" }
    },
    "node_modules/lodash": {
      "version": "4.17.21",
      "resolved": "https://registry.npmjs.org/lodash/-/lodash-4.17.21.tgz",
      "integrity": "sha512-fake-lodash"
    },
    "node_modules/react": {
      "version": "18.2.0",
      "resolved": "https://registry.npmjs.org/react/-/react-18.2.0.tgz",
      "integrity": "sha512-fake-react"
    },
    "node_modules/typescript": {
      "version": "5.3.3",
      "resolved": "https://registry.npmjs.org/typescript/-/typescript-5.3.3.tgz",
      "integrity": "sha512-fake-typescript",
      "dev": true
    }
  }
}"#;

#[test]
fn test_parse_v3_basic() {
    let graph = npm::parse(PACKAGE_LOCK).unwrap();
    assert_eq!(graph.lockfile_type, LockfileType::Npm);
    assert_eq!(graph.dependencies.len(), 2);
    assert!(graph.dependencies.contains_key("react"));
    assert!(graph.dependencies.contains_key("lodash"));
    assert_eq!(graph.dev_dependencies.len(), 1);
    assert!(graph.dev_dependencies.contains_key("typescript"));
    assert_eq!(graph.dependencies.get("react").unwrap().version, "18.2.0");
    assert_eq!(graph.dependencies.get("lodash").unwrap().version, "4.17.21");
    assert_eq!(graph.dev_dependencies.get("typescript").unwrap().version, "5.3.3");
    assert_eq!(graph.all_packages.len(), 3);
    assert_eq!(graph.all_packages.get("react").unwrap(), &vec!["18.2.0".to_string()]);
    assert_eq!(graph.all_packages.get("lodash").unwrap(), &vec!["4.17.21".to_string()]);
    assert_eq!(graph.all_packages.get("typescript").unwrap(), &vec!["5.3.3".to_string()]);
}

#[test]
fn test_parse_invalid_json() {
    let result = npm::parse("this is not valid json {{{");
    assert!(result.is_err());
}

#[test]
fn npm_test_parse_v1_basic() {
    let content = r#"{
        "name": "test",
        "version": "1.0.0",
        "lockfileVersion": 1,
        "dependencies": {
            "lodash": {
                "version": "4.17.21",
                "resolved": "https://registry.npmjs.org/lodash/-/lodash-4.17.21.tgz",
                "integrity": "sha512-fake"
            },
            "typescript": {
                "version": "5.3.3",
                "dev": true
            }
        }
    }"#;
    let graph = npm::parse(content).unwrap();
    assert_eq!(graph.lockfile_type, LockfileType::Npm);
    assert_eq!(graph.dependencies.len(), 1);
    assert!(graph.dependencies.contains_key("lodash"));
    assert_eq!(graph.dev_dependencies.len(), 1);
    assert!(graph.dev_dependencies.contains_key("typescript"));
}

#[test]
fn test_parse_with_edges_v3() {
    let content = r#"{
        "lockfileVersion": 3,
        "packages": {
            "": { "name": "test", "version": "1.0.0" },
            "node_modules/react": {
                "version": "18.2.0",
                "dependencies": { "loose-envify": "^1.4.0" }
            },
            "node_modules/loose-envify": {
                "version": "1.4.0",
                "dependencies": { "js-tokens": "^4.0.0" }
            },
            "node_modules/js-tokens": { "version": "4.0.0" }
        }
    }"#;
    let graph = npm::parse_with_edges(content).unwrap();
    assert_eq!(graph.dep_edges.get("react@18.2.0").unwrap().len(), 1);
    assert_eq!(graph.dep_edges.get("react@18.2.0").unwrap()[0].name, "loose-envify");
    assert!(!graph.dep_edges.contains_key("js-tokens@4.0.0"));
}

#[test]
fn npm_nested_paths_and_v1_nesting() {
    let v3 = r#"{
        "lockfileVersion": 3,
        "packages": {
            "node_modules/a": { "version": "1.0.0" },
            "node_modules/a/node_modules/b": { "version": "2.0.0" },
            "node_modules/b": { "version": "1.0.0" }
        }
    }"#;
    let graph = npm::parse(v3).unwrap();
    assert_eq!(graph.all_packages.get("b").unwrap().len(), 2);
    assert_eq!(graph.dependencies.len(), 2);

    let v1 = r#"{
        "lockfileVersion": 1,
        "dependencies": {
            "a": { "version": "1.0.0", "dependencies": { "b": { "version": "2.0.0" } } }
        }
    }"#;
    let graph = npm::parse(v1).unwrap();
    assert!(graph.dependencies.contains_key("b"));
    assert_eq!(graph.dependencies.get("b").unwrap().version, "2.0.0");
}

#[test]
fn npm_wrong_field_type_is_a_parse_error() {
    let content = r#"{ "lockfileVersion": 3, "packages": { "node_modules/a": { "version": 1 } } }"#;
    match npm::parse(content) {
        Err(lockpick::error::LockpickError::Parse(m)) => {
            assert!(m.starts_with("Failed to parse package-lock.json: "))
        }
        _ => panic!("expected a parse error"),
    }
}

const PNPM_LOCK: &str = "lockfileVersion: '9.0'

settings:
  autoInstallPeers: true
  excludeLinksFromLockfile: false

importers:

  .:
    dependencies:
      lodash:
        specifier: ^4.17.21
        version: 4.17.21
      react:
        specifier: ^18.2.0
        version: 18.2.0
    devDependencies:
      '@types/react':
        specifier: ^18.2.48
        version: 18.2.48
      typescript:
        specifier: ^5.3.3
        version: 5.3.3

packages:

  '@types/react@18.2.48':
    resolution: {integrity: sha512-fake-types-react}

  lodash@4.17.21:
    resolution: {integrity: sha512-fake-lodash}

  react@18.2.0:
    resolution: {integrity: sha512-fake-react}
    engines: {node: '>=0.10.0'}

  typescript@5.3.3:
    resolution: {integrity: sha512-fake-typescript}
    engines: {node: '>=14.17'}
    hasBin: true
";

#[test]
fn test_parse_v9_basic() {
    let graph = pnpm::parse(PNPM_LOCK).unwrap();
    assert_eq!(graph.dependencies.len(), 2);
    assert_eq!(graph.dev_dependencies.len(), 2);
    let react = graph.dependencies.get("react").unwrap();
    assert_eq!(react.version, "18.2.0");
    assert!(react.integrity.as_ref().unwrap().contains("fake-react"));
    let lodash = graph.dependencies.get("lodash").unwrap();
    assert_eq!(lodash.version, "4.17.21");
    let ts = graph.dev_dependencies.get("typescript").unwrap();
    assert_eq!(ts.version, "5.3.3");
    let types_react = graph.dev_dependencies.get("@types/react").unwrap();
    assert_eq!(types_react.version, "18.2.48");
}

#[test]
fn test_parse_empty_importers() {
    let content = "lockfileVersion: '9.0'\nimporters: {}\n";
    let result = pnpm::parse(content);
    assert!(result.is_err());
}

#[test]
fn test_parse_invalid_yaml() {
    let result = pnpm::parse("not: [valid: yaml: {{");
    assert!(result.is_err());
}

#[test]
fn pnpm_all_packages_and_workspace_importer() {
    let graph = pnpm::parse(PNPM_LOCK).unwrap();
    assert_eq!(graph.lockfile_type, LockfileType::Pnpm);
    assert_eq!(graph.all_packages.get("@types/react").unwrap(), &vec!["18.2.48".to_string()]);
    assert_eq!(graph.all_packages.len(), 4);
    let ws = pnpm::parse_for_workspace(PNPM_LOCK, ".").unwrap();
    assert_eq!(ws.dependencies.len(), 2);
    match pnpm::parse_for_workspace(PNPM_LOCK, "packages/x") {
        Err(lockpick::error::LockpickError::Parse(m)) => {
            assert_eq!(m, "Importer 'packages/x' not found in pnpm-lock.yaml")
        }
        _ => panic!("expected a missing importer"),
    }
    match pnpm::parse("lockfileVersion: '9.0'\n") {
        Err(lockpick::error::LockpickError::Parse(m)) => assert_eq!(m, "No importers found in pnpm-lock.yaml"),
        _ => panic!("expected no importers"),
    }
}
