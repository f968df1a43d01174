//! Workspace configuration: the glob patterns that name a monorepo's
//! packages, from `pnpm-workspace.yaml` or the `workspaces` field of
//! `package.json`. Finding the files and expanding the globs is the caller's.
use vstd::prelude::*;

use crate::error::LockpickError;
use crate::json::{json_document, member, parse_json, parse_yaml, yaml_document, JsonValue};
use crate::lockfile::npm::members;
use crate::text::push_str;

verus! {

/// The strings among `vs`, in order.
pub open spec fn string_items(vs: Seq<JsonValue>) -> Seq<Seq<char>>
    decreases vs.len(),
{
    if vs.len() == 0 {
        Seq::empty()
    } else {
        let rest = string_items(vs.drop_last());
        match vs.last() {
            JsonValue::Str(s) => rest.push(s@),
            _ => rest,
        }
    }
}

/// The globs of an array value; none for other values.
pub open spec fn array_globs(v: Option<JsonValue>) -> Option<Seq<Seq<char>>> {
    match v {
        Some(JsonValue::Array(xs)) => Some(string_items(xs@)),
        _ => None,
    }
}

/// The globs a `pnpm-workspace.yaml` document lists under `packages`.
pub open spec fn pnpm_globs(root: JsonValue) -> Option<Seq<Seq<char>>> {
    array_globs(member(members(root), "packages"@))
}

/// The globs a `package.json` document lists: `workspaces` as an array, or
/// its `packages` array.
pub open spec fn package_json_globs_spec(root: JsonValue) -> Option<Seq<Seq<char>>> {
    match member(members(root), "workspaces"@) {
        Some(JsonValue::Array(xs)) => Some(string_items(xs@)),
        Some(w) => array_globs(member(members(w), "packages"@)),
        None => None,
    }
}

/// The outcome of reading workspace globs from the texts of
/// `pnpm-workspace.yaml` and `package.json` (none where a file could not be
/// read): the first that lists globs wins; a text that does not parse is
/// an error.
pub open spec fn workspace_globs_spec(pnpm: Option<Seq<char>>, pkg: Option<Seq<char>>) -> Result<
    Seq<Seq<char>>,
    Seq<char>,
> {
    let from_pnpm: Result<Option<Seq<Seq<char>>>, Seq<char>> = match pnpm {
        None => Ok(None),
        Some(t) => match yaml_document(t) {
            Ok(root) => Ok(pnpm_globs(root)),
            Err(m) => Err("Failed to parse pnpm-workspace.yaml: "@ + m),
        },
    };
    match from_pnpm {
        Err(m) => Err(m),
        Ok(Some(gs)) => Ok(gs),
        Ok(None) => {
            let from_pkg: Result<Option<Seq<Seq<char>>>, Seq<char>> = match pkg {
                None => Ok(None),
                Some(t) => match json_document(t) {
                    Ok(root) => Ok(package_json_globs_spec(root)),
                    Err(m) => Err("Failed to parse package.json: "@ + m),
                },
            };
            match from_pkg {
                Err(m) => Err(m),
                Ok(Some(gs)) => Ok(gs),
                Ok(None) => Err("No workspace configuration found"@),
            }
        },
    }
}

/// The strings of an array.
fn strings_of(xs: &Vec<JsonValue>) -> (r: Vec<String>)
    ensures
        r.deep_view() == string_items(xs@),
{
    let mut r: Vec<String> = Vec::new();
    let mut i: usize = 0;
    assert(r.deep_view() =~= string_items(xs@.take(0)));
    while i < xs.len()
        invariant
            i <= xs@.len(),
            r.deep_view() == string_items(xs@.take(i as int)),
        decreases xs@.len() - i,
    {
        assert(xs@.take(i + 1).drop_last() =~= xs@.take(i as int));
        assert(xs@.take(i + 1).last() == xs@[i as int]);
        match &xs[i] {
            JsonValue::Str(s) => {
                let ghost before = r.deep_view();
                r.push(s.clone());
                assert(r.deep_view() =~= before.push(s@));
            },
            _ => {},
        }
        i = i + 1;
    }
    assert(xs@.take(xs@.len() as int) =~= xs@);
    r
}

/// The globs of an array value.
fn read_array_globs(v: Option<&JsonValue>) -> (r: Option<Vec<String>>)
    ensures
        match array_globs(
            match v {
                Some(x) => Some(*x),
                None => None,
            },
        ) {
            Some(gs) => r matches Some(x) && x.deep_view() == gs,
            None => r is None,
        },
{
    match v {
        Some(JsonValue::Array(xs)) => Some(strings_of(xs)),
        _ => None,
    }
}

/// Whether a `package.json` text declares workspaces: it parses and has a
/// `workspaces` field.
pub fn declares_workspaces(content: &str) -> (b: bool)
    ensures
        b == (json_document(content@) matches Ok(root) && member(members(root), "workspaces"@) is Some),
{
    match parse_json(content) {
        Ok(root) => {
            let empty: Vec<(String, JsonValue)> = Vec::new();
            let top: &Vec<(String, JsonValue)> = match &root {
                JsonValue::Object(ms) => ms,
                _ => &empty,
            };
            assert(top@ == members(root));
            crate::json::get_field_of(top, "workspaces").is_some()
        },
        Err(_) => false,
    }
}

/// The workspace globs, from the texts of `pnpm-workspace.yaml` and
/// `package.json` (none where a file could not be read). The first file
/// that lists globs wins; a text that does not parse is a parse error, and
/// no globs at all is a configuration error.
pub fn workspace_globs(pnpm: Option<&str>, package_json: Option<&str>) -> (r: Result<Vec<String>, LockpickError>)
    ensures
        match workspace_globs_spec(
            match pnpm {
                Some(t) => Some(t@),
                None => None,
            },
            match package_json {
                Some(t) => Some(t@),
                None => None,
            },
        ) {
            Ok(gs) => r matches Ok(v) && v.deep_view() == gs,
            Err(m) => (r matches Err(LockpickError::Config(e)) && e@ == m && m
                == "No workspace configuration found"@) || (r matches Err(LockpickError::Parse(e)) && e@
                == m),
        },
{
    let empty: Vec<(String, JsonValue)> = Vec::new();
    match pnpm {
        Some(text) => match parse_yaml(text) {
            Ok(root) => {
                let top: &Vec<(String, JsonValue)> = match &root {
                    JsonValue::Object(ms) => ms,
                    _ => &empty,
                };
                assert(top@ == members(root));
                match read_array_globs(crate::json::get_field_of(top, "packages")) {
                    Some(gs) => {
                        return Ok(gs);
                    },
                    None => {},
                }
            },
            Err(e) => {
                let mut msg = String::new();
                push_str(&mut msg, "Failed to parse pnpm-workspace.yaml: ");
                push_str(&mut msg, e.as_str());
                return Err(LockpickError::Parse(msg));
            },
        },
        None => {},
    }
    match package_json {
        Some(text) => match parse_json(text) {
            Ok(root) => {
                let top: &Vec<(String, JsonValue)> = match &root {
                    JsonValue::Object(ms) => ms,
                    _ => &empty,
                };
                assert(top@ == members(root));
                match crate::json::get_field_of(top, "workspaces") {
                    Some(JsonValue::Array(xs)) => {
                        return Ok(strings_of(xs));
                    },
                    Some(w) => {
                        let wms: &Vec<(String, JsonValue)> = match w {
                            JsonValue::Object(ms) => ms,
                            _ => &empty,
                        };
                        assert(wms@ == members(*w));
                        match read_array_globs(crate::json::get_field_of(wms, "packages")) {
                            Some(gs) => {
                                return Ok(gs);
                            },
                            None => {},
                        }
                    },
                    None => {},
                }
            },
            Err(e) => {
                let mut msg = String::new();
                push_str(&mut msg, "Failed to parse package.json: ");
                push_str(&mut msg, e.as_str());
                return Err(LockpickError::Parse(msg));
            },
        },
        None => {},
    }
    let mut msg = String::new();
    push_str(&mut msg, "No workspace configuration found");
    Err(LockpickError::Config(msg))
}

} // verus!
