//! Typosquatting detection against a list of popular packages.
use vstd::prelude::*;

use crate::text::{chars_of, str_eq};
use vstd::string::StringSliceAdditionalSpecFns;
use vstd::utf8::encode_utf8;

verus! {

/// The popular package names that typosquats imitate.
pub open spec fn popular_package_names() -> Seq<Seq<char>> {
    seq![
        "react"@,
        "react-dom"@,
        "next"@,
        "vue"@,
        "angular"@,
        "express"@,
        "koa"@,
        "fastify"@,
        "hapi"@,
        "nest"@,
        "lodash"@,
        "underscore"@,
        "ramda"@,
        "moment"@,
        "dayjs"@,
        "axios"@,
        "node-fetch"@,
        "got"@,
        "request"@,
        "superagent"@,
        "webpack"@,
        "rollup"@,
        "vite"@,
        "esbuild"@,
        "parcel"@,
        "babel"@,
        "typescript"@,
        "eslint"@,
        "prettier"@,
        "jest"@,
        "mocha"@,
        "chai"@,
        "vitest"@,
        "cypress"@,
        "playwright"@,
        "redux"@,
        "mobx"@,
        "zustand"@,
        "recoil"@,
        "jotai"@,
        "tailwindcss"@,
        "postcss"@,
        "sass"@,
        "less"@,
        "styled-components"@,
        "mongoose"@,
        "sequelize"@,
        "prisma"@,
        "typeorm"@,
        "knex"@,
        "socket.io"@,
        "ws"@,
        "graphql"@,
        "apollo"@,
        "urql"@,
        "chalk"@,
        "commander"@,
        "yargs"@,
        "inquirer"@,
        "ora"@,
        "dotenv"@,
        "cors"@,
        "helmet"@,
        "morgan"@,
        "compression"@,
        "jsonwebtoken"@,
        "bcrypt"@,
        "passport"@,
        "cookie-parser"@,
        "body-parser"@,
        "uuid"@,
        "nanoid"@,
        "date-fns"@,
        "luxon"@,
        "cheerio"@,
        "puppeteer"@,
        "sharp"@,
        "jimp"@,
        "multer"@,
        "formidable"@,
        "nodemailer"@,
        "bull"@,
        "ioredis"@,
        "redis"@,
        "pg"@,
        "mysql2"@,
        "sqlite3"@,
        "mongodb"@,
        "cassandra-driver"@,
        "couchbase"@,
        "winston"@,
        "pino"@,
        "bunyan"@,
        "debug"@,
        "log4js"@,
        "rxjs"@,
        "immer"@,
        "zod"@,
        "yup"@,
        "joi"@,
        "semver"@,
        "glob"@,
        "minimatch"@,
        "micromatch"@,
        "picomatch"@,
        "fs-extra"@,
        "rimraf"@,
        "mkdirp"@,
        "chokidar"@,
        "globby"@,
        "execa"@,
        "cross-env"@,
        "concurrently"@,
        "npm-run-all"@,
        "husky"@,
        "lint-staged"@,
        "commitlint"@,
        "semantic-release"@,
        "lerna"@,
        "turbo"@,
        "storybook"@,
        "chromatic"@,
        "msw"@,
        "nock"@,
        "sinon"@,
        "enzyme"@,
        "testing-library"@,
        "supertest"@,
        "ava"@,
        "tap"@,
        "electron"@,
        "tauri"@,
        "capacitor"@,
        "ionic"@,
        "expo"@,
        "three"@,
        "d3"@,
        "chart.js"@,
        "echarts"@,
        "highcharts"@,
        "swiper"@,
        "slick-carousel"@,
        "animate.css"@,
        "framer-motion"@,
        "gsap"@,
        "i18next"@,
        "intl"@,
        "numeral"@,
        "accounting"@,
        "currency.js"@,
        "classnames"@,
        "clsx"@,
        "prop-types"@,
        "immutable"@,
        "memoize-one"@,
        "path-to-regexp"@,
        "qs"@,
        "query-string"@,
        "url-parse"@,
        "punycode"@,
        "mime"@,
        "content-type"@,
        "accepts"@,
        "negotiator"@,
        "vary"@,
        "http-errors"@,
        "statuses"@,
        "raw-body"@,
        "on-finished"@,
        "destroy"@,
        "depd"@,
        "fresh"@,
        "etag"@,
        "proxy-addr"@,
        "forwarded"@,
        "send"@,
        "serve-static"@,
        "finalhandler"@,
        "parseurl"@,
        "encodeurl"@,
        "escape-html"@,
        "merge-descriptors"@,
        "methods"@,
        "range-parser"@,
        "type-is"@,
        "npm"@,
        "yarn"@,
        "pnpm"@,
        "bun"@,
        "deno"@,
        "webpack-cli"@,
        "webpack-dev-server"@,
        "html-webpack-plugin"@,
        "mini-css-extract-plugin"@,
        "css-loader"@,
        "style-loader"@,
        "file-loader"@,
        "url-loader"@,
        "babel-loader"@,
        "ts-loader"@
    ]
}

/// The popular package names, as a table.
pub fn popular_packages() -> (v: Vec<&'static str>)
    ensures
        v@.len() == popular_package_names().len(),
        forall|i: int| 0 <= i < v@.len() ==> #[trigger] v@[i]@ == popular_package_names()[i],
{
    let v: Vec<&'static str> = vec![
        "react",
        "react-dom",
        "next",
        "vue",
        "angular",
        "express",
        "koa",
        "fastify",
        "hapi",
        "nest",
        "lodash",
        "underscore",
        "ramda",
        "moment",
        "dayjs",
        "axios",
        "node-fetch",
        "got",
        "request",
        "superagent",
        "webpack",
        "rollup",
        "vite",
        "esbuild",
        "parcel",
        "babel",
        "typescript",
        "eslint",
        "prettier",
        "jest",
        "mocha",
        "chai",
        "vitest",
        "cypress",
        "playwright",
        "redux",
        "mobx",
        "zustand",
        "recoil",
        "jotai",
        "tailwindcss",
        "postcss",
        "sass",
        "less",
        "styled-components",
        "mongoose",
        "sequelize",
        "prisma",
        "typeorm",
        "knex",
        "socket.io",
        "ws",
        "graphql",
        "apollo",
        "urql",
        "chalk",
        "commander",
        "yargs",
        "inquirer",
        "ora",
        "dotenv",
        "cors",
        "helmet",
        "morgan",
        "compression",
        "jsonwebtoken",
        "bcrypt",
        "passport",
        "cookie-parser",
        "body-parser",
        "uuid",
        "nanoid",
        "date-fns",
        "luxon",
        "cheerio",
        "puppeteer",
        "sharp",
        "jimp",
        "multer",
        "formidable",
        "nodemailer",
        "bull",
        "ioredis",
        "redis",
        "pg",
        "mysql2",
        "sqlite3",
        "mongodb",
        "cassandra-driver",
        "couchbase",
        "winston",
        "pino",
        "bunyan",
        "debug",
        "log4js",
        "rxjs",
        "immer",
        "zod",
        "yup",
        "joi",
        "semver",
        "glob",
        "minimatch",
        "micromatch",
        "picomatch",
        "fs-extra",
        "rimraf",
        "mkdirp",
        "chokidar",
        "globby",
        "execa",
        "cross-env",
        "concurrently",
        "npm-run-all",
        "husky",
        "lint-staged",
        "commitlint",
        "semantic-release",
        "lerna",
        "turbo",
        "storybook",
        "chromatic",
        "msw",
        "nock",
        "sinon",
        "enzyme",
        "testing-library",
        "supertest",
        "ava",
        "tap",
        "electron",
        "tauri",
        "capacitor",
        "ionic",
        "expo",
        "three",
        "d3",
        "chart.js",
        "echarts",
        "highcharts",
        "swiper",
        "slick-carousel",
        "animate.css",
        "framer-motion",
        "gsap",
        "i18next",
        "intl",
        "numeral",
        "accounting",
        "currency.js",
        "classnames",
        "clsx",
        "prop-types",
        "immutable",
        "memoize-one",
        "path-to-regexp",
        "qs",
        "query-string",
        "url-parse",
        "punycode",
        "mime",
        "content-type",
        "accepts",
        "negotiator",
        "vary",
        "http-errors",
        "statuses",
        "raw-body",
        "on-finished",
        "destroy",
        "depd",
        "fresh",
        "etag",
        "proxy-addr",
        "forwarded",
        "send",
        "serve-static",
        "finalhandler",
        "parseurl",
        "encodeurl",
        "escape-html",
        "merge-descriptors",
        "methods",
        "range-parser",
        "type-is",
        "npm",
        "yarn",
        "pnpm",
        "bun",
        "deno",
        "webpack-cli",
        "webpack-dev-server",
        "html-webpack-plugin",
        "mini-css-extract-plugin",
        "css-loader",
        "style-loader",
        "file-loader",
        "url-loader",
        "babel-loader",
        "ts-loader"
    ];
    v
}


/// Smaller of two naturals.
pub open spec fn min_nat(x: nat, y: nat) -> nat {
    if x <= y {
        x
    } else {
        y
    }
}

/// The last position before `upto` at which `s` holds `c`.
pub open spec fn last_before(s: Seq<char>, c: char, upto: int) -> Option<nat>
    decreases upto,
{
    if upto <= 0 {
        None
    } else if s[upto - 1] == c {
        Some((upto - 1) as nat)
    } else {
        last_before(s, c, upto - 1)
    }
}

/// A position found by `last_before` lies before the bound and holds the
/// character.
pub proof fn lemma_last_before(s: Seq<char>, c: char, upto: int)
    ensures
        last_before(s, c, upto) matches Some(p) ==> 0 <= p < upto && s[p as int] == c,
        last_before(s, c, upto) is None ==> forall|k: int| 0 <= k < upto ==> s[k] != c,
    decreases upto,
{
    if upto > 0 && s[upto - 1] != c {
        lemma_last_before(s, c, upto - 1);
    }
}

/// The Damerau-Levenshtein distance between the first `i` characters of
/// `a` and the first `j` of `b`: the fewest insertions, deletions,
/// substitutions and swaps of two adjacent characters, where characters
/// may also be inserted or deleted between the two swapped ones. This is
/// the recurrence of Lowrance and Wagner: besides the three single-character
/// edits, the last character of each prefix may be matched with the last
/// earlier occurrence of the other's last character, at the cost of one
/// swap and of deleting and inserting what lies between.
pub open spec fn dl(a: Seq<char>, b: Seq<char>, i: nat, j: nat) -> nat
    decreases i + j,
{
    if i == 0 {
        j
    } else if j == 0 {
        i
    } else {
        let cost: nat = if a[i - 1] == b[j - 1] {
            0
        } else {
            1
        };
        let m = min_nat(
            min_nat(dl(a, b, (i - 1) as nat, j) + 1, dl(a, b, i, (j - 1) as nat) + 1),
            dl(a, b, (i - 1) as nat, (j - 1) as nat) + cost,
        );
        match (last_before(a, b[j - 1], i - 1), last_before(b, a[i - 1], j - 1)) {
            (Some(p), Some(q)) => {
                proof {
                    lemma_last_before(a, b[j - 1], i - 1);
                    lemma_last_before(b, a[i - 1], j - 1);
                }
                min_nat(m, (dl(a, b, p, q) + (i - p - 2) + 1 + (j - q - 2)) as nat)
            },
            _ => m,
        }
    }
}

/// Distance between whole strings.
pub open spec fn edit_dist(a: Seq<char>, b: Seq<char>) -> nat {
    dl(a, b, a.len(), b.len())
}

/// The distance never exceeds the longer prefix length.
pub proof fn lemma_dl_bound(a: Seq<char>, b: Seq<char>, i: nat, j: nat)
    ensures
        dl(a, b, i, j) <= if i <= j {
            j
        } else {
            i
        },
    decreases i + j,
{
    if i > 0 && j > 0 {
        lemma_dl_bound(a, b, (i - 1) as nat, (j - 1) as nat);
    }
}

/// `x + 1`, saturating.
fn sat_inc(x: usize) -> (r: usize)
    ensures
        r == min_nat((x + 1) as nat, usize::MAX as nat),
{
    if x == usize::MAX {
        x
    } else {
        x + 1
    }
}

/// `x + y` for `y <= 1`, saturating.
fn sat_add01(x: usize, y: usize) -> (r: usize)
    requires
        y <= 1,
    ensures
        r == min_nat((x + y) as nat, usize::MAX as nat),
{
    if y == 0 {
        x
    } else {
        sat_inc(x)
    }
}

fn min_usize(x: usize, y: usize) -> (r: usize)
    ensures
        r == min_nat(x as nat, y as nat),
{
    if x <= y {
        x
    } else {
        y
    }
}

/// The last position before `upto` at which `s` holds `c`.
fn find_last_before(s: &[char], c: char, upto: usize) -> (r: Option<usize>)
    requires
        upto <= s@.len(),
    ensures
        match last_before(s@, c, upto as int) {
            Some(p) => r == Some(p as usize),
            None => r is None,
        },
{
    let mut k: usize = upto;
    while k > 0
        invariant
            k <= upto <= s@.len(),
            last_before(s@, c, upto as int) == last_before(s@, c, k as int),
        decreases k,
    {
        if s[k - 1] == c {
            return Some(k - 1);
        }
        k = k - 1;
    }
    None
}

/// The rows of the distance table computed so far hold their distances.
pub open spec fn table_ok(a: Seq<char>, b: Seq<char>, rows: Seq<Vec<usize>>) -> bool {
    forall|r: int| 0 <= r < rows.len() ==> (#[trigger] rows[r])@.len() == b.len() + 1 && forall|c: int|
        0 <= c <= b.len() ==> #[trigger] rows[r]@[c] == dl(a, b, r as nat, c as nat)
}

/// One cell of the distance table.
fn dl_cell(a: &[char], b: &[char], rows: &Vec<Vec<usize>>, cur: &Vec<usize>, r: usize, j: usize) -> (v: usize)
    requires
        1 <= r <= a@.len(),
        1 <= j <= b@.len(),
        rows@.len() == r,
        table_ok(a@, b@, rows@),
        cur@.len() == j,
        forall|c: int| 0 <= c < j ==> #[trigger] cur@[c] == dl(a@, b@, r as nat, c as nat),
    ensures
        v == dl(a@, b@, r as nat, j as nat),
{
    proof {
        lemma_dl_bound(a@, b@, r as nat, j as nat);
        assert(rows@[r - 1]@[j as int] == dl(a@, b@, (r - 1) as nat, j as nat));
        assert(rows@[r - 1]@[j - 1] == dl(a@, b@, (r - 1) as nat, (j - 1) as nat));
    }
    let up = rows[r - 1][j];
    let left = cur[j - 1];
    let diag = rows[r - 1][j - 1];
    let cost: usize = if a[r - 1] == b[j - 1] {
        0
    } else {
        1
    };
    let mut v = min_usize(min_usize(sat_inc(up), sat_inc(left)), sat_add01(diag, cost));
    let p = find_last_before(a, b[j - 1], r - 1);
    let q = find_last_before(b, a[r - 1], j - 1);
    proof {
        lemma_last_before(a@, b@[j - 1], r - 1);
        lemma_last_before(b@, a@[r - 1], (j - 1) as int);
    }
    match (p, q) {
        (Some(p), Some(q)) => {
            proof {
                assert(rows@[p as int]@[q as int] == dl(a@, b@, p as nat, q as nat));
            }
            let t0 = rows[p][q];
            let g1 = r - p - 2;
            let g2 = j - q - 2;
            match t0.checked_add(g1) {
                Some(t1) => match t1.checked_add(g2) {
                    Some(t2) => match t2.checked_add(1) {
                        Some(t) => {
                            v = min_usize(v, t);
                        },
                        None => {},
                    },
                    None => {},
                },
                None => {},
            }
        },
        _ => {},
    }
    v
}

/// Damerau-Levenshtein distance between two character sequences, from the
/// full table of prefix distances.
pub fn edit_distance_chars(a: &[char], b: &[char]) -> (d: usize)
    ensures
        d == edit_dist(a@, b@),
{
    let n = a.len();
    let m = b.len();
    let mut rows: Vec<Vec<usize>> = Vec::new();
    let mut first: Vec<usize> = Vec::new();
    first.push(0);
    let mut c: usize = 0;
    while c < m
        invariant
            c <= m,
            m == b@.len(),
            first@.len() == c + 1,
            forall|k: int| 0 <= k <= c ==> #[trigger] first@[k] == dl(a@, b@, 0, k as nat),
        decreases m - c,
    {
        first.push(c + 1);
        c = c + 1;
    }
    rows.push(first);
    assert(table_ok(a@, b@, rows@));
    let mut i: usize = 0;
    while i < n
        invariant
            i <= n,
            n == a@.len(),
            m == b@.len(),
            rows@.len() == i + 1,
            table_ok(a@, b@, rows@),
        decreases n - i,
    {
        let r = i + 1;
        let mut cur: Vec<usize> = Vec::new();
        cur.push(r);
        let mut j: usize = 0;
        while j < m
            invariant
                r == i + 1,
                i < n,
                j <= m,
                n == a@.len(),
                m == b@.len(),
                rows@.len() == r,
                table_ok(a@, b@, rows@),
                cur@.len() == j + 1,
                forall|k: int| 0 <= k <= j ==> #[trigger] cur@[k] == dl(a@, b@, r as nat, k as nat),
            decreases m - j,
        {
            let v = dl_cell(a, b, &rows, &cur, r, j + 1);
            cur.push(v);
            j = j + 1;
        }
        let ghost old_rows = rows@;
        rows.push(cur);
        assert(rows@ =~= old_rows.push(cur));
        assert(table_ok(a@, b@, rows@)) by {
            assert forall|rr: int| 0 <= rr < rows@.len() implies (#[trigger] rows@[rr])@.len() == b@.len() + 1
                && forall|cc: int| 0 <= cc <= b@.len() ==> #[trigger] rows@[rr]@[cc] == dl(a@, b@, rr as nat, cc as nat) by {
                if rr < old_rows.len() {
                    assert(rows@[rr] == old_rows[rr]);
                }
            }
        }
        i = i + 1;
    }
    proof {
        assert(rows@[n as int]@[m as int] == dl(a@, b@, n as nat, m as nat));
    }
    rows[n][m]
}

/// The Damerau-Levenshtein distance between two strings, counted in
/// characters: the fewest insertions, deletions, substitutions and swaps
/// of two adjacent characters that turn one into the other. Characters may
/// be inserted or deleted between swapped ones, so `"ca"` and `"abc"` are 2
/// apart (swap to `"ac"`, insert `b`).
pub fn edit_distance(a: &str, b: &str) -> (d: usize)
    ensures
        d == edit_dist(a@, b@),
{
    let va = chars_of(a);
    let vb = chars_of(b);
    edit_distance_chars(va.as_slice(), vb.as_slice())
}

/// Allowed distance for a name whose UTF-8 encoding has `byte_len` bytes.
pub open spec fn typosquat_threshold(byte_len: nat) -> nat {
    if byte_len <= 3 {
        1
    } else {
        2
    }
}

/// Scanning `pops` in order, the closest entry within `threshold` (and not
/// identical); on ties the earliest wins.
pub open spec fn best_match(name: Seq<char>, pops: Seq<Seq<char>>, threshold: nat) -> Option<
    (Seq<char>, nat),
>
    decreases pops.len(),
{
    if pops.len() == 0 {
        None
    } else {
        let prev = best_match(name, pops.drop_last(), threshold);
        let d = edit_dist(name, pops.last());
        let closer = match prev {
            Some((_, pd)) => d < pd,
            None => true,
        };
        if d > 0 && d <= threshold && closer {
            Some((pops.last(), d))
        } else {
            prev
        }
    }
}

/// The popular package a name imitates, with its distance: none for names of
/// at most two bytes or names that are themselves popular.
pub open spec fn typosquat_match(name: Seq<char>) -> Option<(Seq<char>, nat)> {
    let byte_len = encode_utf8(name).len();
    if byte_len <= 2 {
        None
    } else if popular_package_names().contains(name) {
        None
    } else {
        best_match(name, popular_package_names(), typosquat_threshold(byte_len))
    }
}

/// Checks a package name against the popular packages list.
/// Returns the most similar popular package and its distance if the name is
/// suspiciously close to one.
pub fn check_typosquat(name: &str) -> (r: Option<(String, usize)>)
    ensures
        match r {
            Some((s, d)) => typosquat_match(name@) == Some((s@, d as nat)),
            None => typosquat_match(name@) is None,
        },
{
    let byte_len = name.as_bytes().len();
    if byte_len <= 2 {
        return None;
    }
    let threshold: usize = if byte_len <= 3 {
        1
    } else {
        2
    };
    let pops = popular_packages();
    let ghost spec_pops = popular_package_names();
    let mut best: Option<(String, usize)> = None;
    let mut i: usize = 0;
    while i < pops.len()
        invariant
            i <= pops@.len(),
            pops@.len() == spec_pops.len(),
            spec_pops == popular_package_names(),
            forall|k: int| 0 <= k < pops@.len() ==> #[trigger] pops@[k]@ == spec_pops[k],
            threshold as nat == typosquat_threshold(byte_len as nat),
            forall|k: int| 0 <= k < i ==> spec_pops[k] != name@,
            match best {
                Some((s, d)) => best_match(name@, spec_pops.take(i as int), threshold as nat)
                    == Some((s@, d as nat)),
                None => best_match(name@, spec_pops.take(i as int), threshold as nat) is None,
            },
        decreases pops@.len() - i,
    {
        let popular: &str = pops[i];
        assert(spec_pops.take(i + 1).drop_last() =~= spec_pops.take(i as int));
        if str_eq(name, popular) {
            assert(spec_pops.contains(name@));
            return None;
        }
        let dist = edit_distance(name, popular);
        let better = match &best {
            Some((_, d)) => dist < *d,
            None => true,
        };
        if dist > 0 && dist <= threshold && better {
            best = Some((popular.to_string(), dist));
        }
        i = i + 1;
    }
    assert(spec_pops.take(pops@.len() as int) =~= spec_pops);
    assert(!spec_pops.contains(name@));
    best
}

/// The distance does not depend on the order of the two strings.
proof fn lemma_dl_symmetric(a: Seq<char>, b: Seq<char>, i: nat, j: nat)
    ensures
        dl(a, b, i, j) == dl(b, a, j, i),
    decreases i + j,
{
    if i > 0 && j > 0 {
        lemma_dl_symmetric(a, b, (i - 1) as nat, j);
        lemma_dl_symmetric(a, b, i, (j - 1) as nat);
        lemma_dl_symmetric(a, b, (i - 1) as nat, (j - 1) as nat);
        lemma_last_before(a, b[j - 1], i - 1);
        lemma_last_before(b, a[i - 1], j - 1);
        match (last_before(a, b[j - 1], i - 1), last_before(b, a[i - 1], j - 1)) {
            (Some(p), Some(q)) => {
                lemma_dl_symmetric(a, b, p, q);
            },
            _ => {},
        }
    }
}

/// A prefix is at distance 0 from itself.
proof fn lemma_dl_same(a: Seq<char>, i: nat)
    ensures
        dl(a, a, i, i) == 0,
    decreases i,
{
    if i > 0 {
        lemma_dl_same(a, (i - 1) as nat);
    }
}

/// Prefixes at distance 0 are equal.
proof fn lemma_dl_zero(a: Seq<char>, b: Seq<char>, i: nat, j: nat)
    requires
        i <= a.len(),
        j <= b.len(),
        dl(a, b, i, j) == 0,
    ensures
        i == j,
        a.take(i as int) == b.take(j as int),
    decreases i + j,
{
    if i > 0 && j > 0 {
        lemma_last_before(a, b[j - 1], i - 1);
        lemma_last_before(b, a[i - 1], j - 1);
        let cost: nat = if a[i - 1] == b[j - 1] {
            0
        } else {
            1
        };
        let m = min_nat(
            min_nat(dl(a, b, (i - 1) as nat, j) + 1, dl(a, b, i, (j - 1) as nat) + 1),
            dl(a, b, (i - 1) as nat, (j - 1) as nat) + cost,
        );
        match (last_before(a, b[j - 1], i - 1), last_before(b, a[i - 1], j - 1)) {
            (Some(p), Some(q)) => {
                assert(dl(a, b, i, j) == min_nat(m, (dl(a, b, p, q) + (i - p - 2) + 1 + (j - q - 2)) as nat));
            },
            _ => {
                assert(dl(a, b, i, j) == m);
            },
        }
        assert(m == 0);
        lemma_dl_zero(a, b, (i - 1) as nat, (j - 1) as nat);
        assert(a[i - 1] == b[j - 1]);
        assert(a.take(i as int) =~= a.take(i - 1).push(a[i - 1]));
        assert(b.take(j as int) =~= b.take(j - 1).push(b[j - 1]));
    } else {
        assert(a.take(0) =~= b.take(0));
    }
}

/// The edit distance is a symmetric measure that is zero exactly between
/// equal strings.
pub proof fn law_edit_distance_symmetric_and_zero_on_equal(a: Seq<char>, b: Seq<char>)
    ensures
        edit_dist(a, b) == edit_dist(b, a),
        edit_dist(a, a) == 0,
        edit_dist(a, b) == 0 <==> a == b,
{
    lemma_dl_symmetric(a, b, a.len(), b.len());
    lemma_dl_same(a, a.len());
    lemma_dl_same(b, b.len());
    if edit_dist(a, b) == 0 {
        lemma_dl_zero(a, b, a.len(), b.len());
        assert(a.take(a.len() as int) =~= a);
        assert(b.take(b.len() as int) =~= b);
    }
}

/// The distance between prefixes is at least their difference in length.
proof fn lemma_dl_lower(a: Seq<char>, b: Seq<char>, i: nat, j: nat)
    ensures
        dl(a, b, i, j) >= i - j,
        dl(a, b, i, j) >= j - i,
    decreases i + j,
{
    if i > 0 && j > 0 {
        lemma_dl_lower(a, b, (i - 1) as nat, j);
        lemma_dl_lower(a, b, i, (j - 1) as nat);
        lemma_dl_lower(a, b, (i - 1) as nat, (j - 1) as nat);
        lemma_last_before(a, b[j - 1], i - 1);
        lemma_last_before(b, a[i - 1], j - 1);
        match (last_before(a, b[j - 1], i - 1), last_before(b, a[i - 1], j - 1)) {
            (Some(p), Some(q)) => {
                lemma_dl_lower(a, b, p, q);
            },
            _ => {},
        }
    }
}

/// Two strings are at least as far apart as their lengths differ, and no
/// farther than the longer one is long.
pub proof fn law_edit_distance_bounds(a: Seq<char>, b: Seq<char>)
    ensures
        edit_dist(a, b) >= a.len() - b.len(),
        edit_dist(a, b) >= b.len() - a.len(),
        edit_dist(a, b) <= if a.len() <= b.len() {
            b.len()
        } else {
            a.len()
        },
{
    lemma_dl_lower(a, b, a.len(), b.len());
    lemma_dl_bound(a, b, a.len(), b.len());
}

/// A best match is one of the candidates, at its distance, within the
/// threshold and not identical.
proof fn lemma_best_match_close(name: Seq<char>, pops: Seq<Seq<char>>, threshold: nat)
    ensures
        best_match(name, pops, threshold) matches Some((p, d)) ==> pops.contains(p) && d == edit_dist(
            name,
            p,
        ) && 0 < d <= threshold,
    decreases pops.len(),
{
    if pops.len() > 0 {
        lemma_best_match_close(name, pops.drop_last(), threshold);
        match best_match(name, pops, threshold) {
            Some((p, d)) => {
                if best_match(name, pops.drop_last(), threshold) == Some((p, d)) && !(p == pops.last()
                    && d == edit_dist(name, pops.last())) {
                    let k = choose|k: int| 0 <= k < pops.drop_last().len() && pops.drop_last()[k] == p;
                    assert(pops[k] == p);
                } else {
                    assert(pops[pops.len() - 1] == p);
                }
            },
            None => {},
        }
    }
}

/// A name flagged as a typosquat imitates a popular package that differs
/// from it, by at most two edits (one for names of at most three bytes).
pub proof fn law_typosquat_is_close_but_different(name: Seq<char>)
    ensures
        typosquat_match(name) matches Some((p, d)) ==> {
            &&& popular_package_names().contains(p)
            &&& d == edit_dist(name, p)
            &&& 0 < d <= typosquat_threshold(encode_utf8(name).len())
            &&& p != name
            &&& !popular_package_names().contains(name)
        },
{
    let byte_len = encode_utf8(name).len();
    lemma_best_match_close(name, popular_package_names(), typosquat_threshold(byte_len));
    match typosquat_match(name) {
        Some((p, d)) => {
            law_edit_distance_symmetric_and_zero_on_equal(name, p);
        },
        None => {},
    }
}

/// A candidate is in range: different from the name and within the
/// threshold.
pub open spec fn in_range(name: Seq<char>, q: Seq<char>, threshold: nat) -> bool {
    0 < edit_dist(name, q) <= threshold
}

/// The best match is the first candidate in range at the least distance;
/// there is none when no candidate is in range.
proof fn lemma_best_match_least(name: Seq<char>, pops: Seq<Seq<char>>, threshold: nat)
    ensures
        match best_match(name, pops, threshold) {
            None => forall|k: int| 0 <= k < pops.len() ==> !in_range(name, #[trigger] pops[k], threshold),
            Some((p, d)) => exists|i: int|
                #![trigger pops[i]]
                0 <= i < pops.len() && pops[i] == p && d == edit_dist(name, p) && in_range(name, p, threshold)
                    && (forall|k: int| 0 <= k < pops.len() && in_range(name, #[trigger] pops[k], threshold)
                    ==> d <= edit_dist(name, pops[k])) && (forall|k: int| 0 <= k < i && in_range(
                    name,
                    #[trigger] pops[k],
                    threshold,
                ) ==> d < edit_dist(name, pops[k])),
        },
    decreases pops.len(),
{
    if pops.len() > 0 {
        let init = pops.drop_last();
        lemma_best_match_least(name, init, threshold);
        let n = pops.len() - 1;
        let last = pops[n];
        let d = edit_dist(name, last);
        assert forall|k: int| 0 <= k < n implies #[trigger] init[k] == pops[k] by {}
        match best_match(name, init, threshold) {
            None => {
                if in_range(name, last, threshold) {
                    assert(best_match(name, pops, threshold) == Some((last, d)));
                    assert(pops[n] == last);
                    assert forall|k: int| 0 <= k < pops.len() && in_range(name, #[trigger] pops[k], threshold)
                        implies d <= edit_dist(name, pops[k]) by {
                        if k < n {
                            assert(init[k] == pops[k]);
                        }
                    }
                    assert forall|k: int| 0 <= k < n && in_range(name, #[trigger] pops[k], threshold)
                        implies d < edit_dist(name, pops[k]) by {
                        assert(init[k] == pops[k]);
                    }
                    assert(0 <= n < pops.len() && pops[n] == last && d == edit_dist(name, last) && in_range(name, last, threshold));
                } else {
                    assert(best_match(name, pops, threshold) is None);
                    assert forall|k: int| 0 <= k < pops.len() implies !in_range(name, #[trigger] pops[k], threshold) by {
                        if k < n {
                            assert(init[k] == pops[k]);
                        }
                    }
                }
            },
            Some((p, pd)) => {
                let i = choose|i: int|
                    #![trigger init[i]]
                    0 <= i < init.len() && init[i] == p && pd == edit_dist(name, p) && in_range(name, p, threshold)
                        && (forall|k: int| 0 <= k < init.len() && in_range(name, #[trigger] init[k], threshold)
                        ==> pd <= edit_dist(name, init[k])) && (forall|k: int| 0 <= k < i && in_range(
                        name,
                        #[trigger] init[k],
                        threshold,
                    ) ==> pd < edit_dist(name, init[k]));
                if in_range(name, last, threshold) && d < pd {
                    assert(best_match(name, pops, threshold) == Some((last, d)));
                    assert(pops[n] == last);
                    assert forall|k: int| 0 <= k < pops.len() && in_range(name, #[trigger] pops[k], threshold)
                        implies d <= edit_dist(name, pops[k]) by {
                        if k < n {
                            assert(init[k] == pops[k]);
                        }
                    }
                    assert forall|k: int| 0 <= k < n && in_range(name, #[trigger] pops[k], threshold)
                        implies d < edit_dist(name, pops[k]) by {
                        assert(init[k] == pops[k]);
                    }
                    assert(0 <= n < pops.len() && pops[n] == last && d == edit_dist(name, last) && in_range(name, last, threshold));
                } else {
                    assert(best_match(name, pops, threshold) == Some((p, pd)));
                    assert(pops[i] == p);
                    assert forall|k: int| 0 <= k < pops.len() && in_range(name, #[trigger] pops[k], threshold)
                        implies pd <= edit_dist(name, pops[k]) by {
                        if k < n {
                            assert(init[k] == pops[k]);
                        }
                    }
                    assert forall|k: int| 0 <= k < i && in_range(name, #[trigger] pops[k], threshold)
                        implies pd < edit_dist(name, pops[k]) by {
                        assert(init[k] == pops[k]);
                    }
                    assert(0 <= i < pops.len() && pops[i] == p && pd == edit_dist(name, p) && in_range(name, p, threshold));
                }
            },
        }
    }
}

/// A name is flagged exactly when it is longer than two bytes, not popular
/// itself, and some popular package lies within the threshold; the match is
/// then the first popular package, in list order, at the least distance.
pub proof fn law_typosquat_match_is_the_nearest(name: Seq<char>)
    ensures
        ({
            let byte_len = encode_utf8(name).len();
            let pops = popular_package_names();
            let th = typosquat_threshold(byte_len);
            &&& typosquat_match(name) is Some <==> (byte_len > 2 && !pops.contains(name) && exists|k: int|
                0 <= k < pops.len() && in_range(name, #[trigger] pops[k], th))
            &&& typosquat_match(name) matches Some((p, d)) ==> exists|i: int|
                #![trigger pops[i]]
                0 <= i < pops.len() && pops[i] == p && d == edit_dist(name, p) && (forall|k: int|
                    0 <= k < pops.len() && in_range(name, #[trigger] pops[k], th) ==> d <= edit_dist(name, pops[k]))
                    && (forall|k: int| 0 <= k < i && in_range(name, #[trigger] pops[k], th) ==> d < edit_dist(
                    name,
                    pops[k],
                ))
        }),
{
    let byte_len = encode_utf8(name).len();
    let pops = popular_package_names();
    let th = typosquat_threshold(byte_len);
    lemma_best_match_least(name, pops, th);
}

} // verus!
