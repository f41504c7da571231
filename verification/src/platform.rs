//! Platform catalogue work: categories of repository directories, the model
//! inventory listing, drift between generated artifacts and their golden
//! baselines, and the steps that refresh those baselines.
use vstd::prelude::*;

use crate::gate::string_views;
use crate::pattern::{regex_compiles, regex_is_match, regex_match_result};
use crate::sorting::{sort_dedup, strictly_sorted, views};
use crate::text::{chars_of, contains, contains_chars, has_prefix, has_suffix, push_str, same_chars, slice, starts_with, ends_with, string_of};

verus! {

// ---------------------------------------------------------------------------
// Directory categories
// ---------------------------------------------------------------------------

/// Whether a directory is left out of the scan: build and tool directories,
/// and hidden ones other than `.agents`, `.cargo`, `.config` and `.github`.
pub open spec fn skipped_directory(name: Seq<char>) -> bool {
    name == "node_modules"@ || name == "target"@ || name == ".jj"@ || name == ".moon"@ || name
        == ".cocoindex_code"@ || (has_prefix(name, "."@) && !(name == ".agents"@ || name == ".cargo"@
        || name == ".config"@ || name == ".github"@))
}

/// Whether the directory scan skips `name`.
pub fn should_skip_directory(name: &str) -> (r: bool)
    ensures
        r == skipped_directory(name@),
{
    let n = chars_of(name);
    same_chars(&n, &chars_of("node_modules")) || same_chars(&n, &chars_of("target")) || same_chars(&n, &chars_of(".jj"))
        || same_chars(&n, &chars_of(".moon")) || same_chars(&n, &chars_of(".cocoindex_code")) || (starts_with(&n, &chars_of("."))
        && !(same_chars(&n, &chars_of(".agents")) || same_chars(&n, &chars_of(".cargo")) || same_chars(&n, &chars_of(".config"))
        || same_chars(&n, &chars_of(".github"))))
}

/// The prefix rules of the directory categories, first match deciding.
pub open spec fn category_rules() -> Seq<(Seq<char>, Seq<char>)> {
    seq![
        ("agent/"@, "agent"@), (".agents/"@, "agent"@), ("packages/contracts/"@, "contracts"@),
        ("packages/core/"@, "shared"@), ("packages/features/"@, "shared"@), ("packages/shared/"@, "shared"@),
        ("packages/ui/"@, "frontend"@), ("packages/sdk/typescript/"@, "frontend"@), ("apps/web/"@, "frontend"@),
        ("apps/mobile/"@, "frontend"@), ("apps/desktop/src/"@, "frontend"@), ("apps/browser-extension/"@, "frontend"@),
        ("packages/web3/"@, "web3"@), ("services/indexer"@, "web3"@), ("tools/web3"@, "web3"@),
        ("servers/"@, "backend"@), ("apps/bff/"@, "backend"@), ("apps/desktop/src-tauri/"@, "backend"@),
        ("services/"@, "backend"@), ("packages/adapters/"@, "backend"@), ("infra"@, "infra"@), ("ops"@, "infra"@),
        ("scripts"@, "infra"@), ("justfiles"@, "infra"@), (".cargo"@, "infra"@), (".github"@, "infra"@),
        (".config"@, "infra"@), ("fixtures/"@, "tests"@),
    ]
}

/// The pattern of a test directory segment.
pub const TEST_SEGMENT: &'static str = r"(?:^|/)(?:tests?)(?:/|$)";

/// The category of the first prefix rule the directory matches.
pub open spec fn prefix_category(dir: Seq<char>, rules: Seq<(Seq<char>, Seq<char>)>) -> Option<Seq<char>>
    decreases rules.len(),
{
    if rules.len() == 0 {
        None
    } else if has_prefix(dir, rules[0].0) {
        Some(rules[0].1)
    } else {
        prefix_category(dir, rules.drop_first())
    }
}

/// The category of a directory: `tests` for a test segment, else that of the
/// first matching prefix rule.
pub open spec fn category_of(dir: Seq<char>) -> Option<Seq<char>> {
    if regex_match_result(TEST_SEGMENT@, dir) {
        Some("tests"@)
    } else {
        prefix_category(dir, category_rules())
    }
}

/// The category names, in sorted order.
pub open spec fn category_names() -> Seq<Seq<char>> {
    seq!["agent"@, "backend"@, "contracts"@, "frontend"@, "infra"@, "shared"@, "tests"@, "web3"@]
}

/// The category of one directory.
fn directory_category(dir: &str) -> (r: Option<&'static str>)
    requires
        regex_compiles(TEST_SEGMENT@),
    ensures
        match r {
            Some(c) => category_of(dir@) == Some(c@),
            None => category_of(dir@) is None,
        },
{
    let is_test = regex_is_match(TEST_SEGMENT, dir);
    match is_test {
        Some(true) => {
            return Some("tests");
        },
        _ => {},
    }
    assert(!regex_match_result(TEST_SEGMENT@, dir@));
    let rules: [(&str, &'static str); 28] = [
        ("agent/", "agent"), (".agents/", "agent"), ("packages/contracts/", "contracts"),
        ("packages/core/", "shared"), ("packages/features/", "shared"), ("packages/shared/", "shared"),
        ("packages/ui/", "frontend"), ("packages/sdk/typescript/", "frontend"), ("apps/web/", "frontend"),
        ("apps/mobile/", "frontend"), ("apps/desktop/src/", "frontend"), ("apps/browser-extension/", "frontend"),
        ("packages/web3/", "web3"), ("services/indexer", "web3"), ("tools/web3", "web3"),
        ("servers/", "backend"), ("apps/bff/", "backend"), ("apps/desktop/src-tauri/", "backend"),
        ("services/", "backend"), ("packages/adapters/", "backend"), ("infra", "infra"), ("ops", "infra"),
        ("scripts", "infra"), ("justfiles", "infra"), (".cargo", "infra"), (".github", "infra"),
        (".config", "infra"), ("fixtures/", "tests"),
    ];
    let ghost rv = rules@.map_values(|r: (&str, &str)| (r.0@, r.1@));
    assert(rv =~= category_rules());
    let d = chars_of(dir);
    let mut i: usize = 0;
    assert(rv.skip(0) =~= rv);
    while i < 28
        invariant
            i <= 28,
            rules@.len() == 28,
            rv == rules@.map_values(|r: (&str, &str)| (r.0@, r.1@)),
            rv == category_rules(),
            d@ == dir@,
            !regex_match_result(TEST_SEGMENT@, dir@),
            prefix_category(dir@, rv.skip(i as int)) == prefix_category(dir@, rv),
        decreases 28 - i,
    {
        proof {
            assert(rv.skip(i as int).drop_first() =~= rv.skip(i + 1));
            assert(rv.skip(i as int)[0] == rv[i as int]);
        }
        let (prefix, category) = rules[i];
        if starts_with(&d, &chars_of(prefix)) {
            return Some(category);
        }
        i = i + 1;
    }
    assert(rv.skip(28).len() == 0);
    None
}

/// The directories of a category, in order.
pub open spec fn dirs_in(dirs: Seq<Seq<char>>, category: Seq<char>) -> Set<Seq<char>> {
    Set::new(|d: Seq<char>| dirs.contains(d) && category_of(d) == Some(category))
}

/// The directories of category `name`, sorted and each once, given each
/// directory's category.
fn category_members(dirs: &Vec<String>, cats: &Vec<Option<&'static str>>, name: &str) -> (list: Vec<String>)
    requires
        cats@.len() == dirs@.len(),
        forall|k: int| 0 <= k < dirs@.len() ==> match #[trigger] cats@[k] {
            Some(c) => category_of(dirs@[k]@) == Some(c@),
            None => category_of(dirs@[k]@) is None,
        },
    ensures
        strictly_sorted(string_views(list@)),
        string_views(list@).to_set() == dirs_in(string_views(dirs@), name@),
{
    let ghost dv = string_views(dirs@);
    let mut members: Vec<Vec<char>> = Vec::new();
        let nc = chars_of(name);
        let mut k: usize = 0;
        while k < dirs.len()
            invariant
                k <= dirs@.len(),
                nc@ == name@,
                cats@.len() == dirs@.len(),
                dv == string_views(dirs@),
                forall|j: int| 0 <= j < dirs@.len() ==> match #[trigger] cats@[j] {
                    Some(c) => category_of(dirs@[j]@) == Some(c@),
                    None => category_of(dirs@[j]@) is None,
                },
                forall|x: Seq<char>| views(members@).contains(x) <==> exists|j: int| 0 <= j < k && dirs@[j]@ == x && category_of(x) == Some(name@),
            decreases dirs@.len() - k,
        {
            let hit = match cats[k] {
                Some(c) => same_chars(&chars_of(c), &nc),
                None => false,
            };
            let ghost old_m = views(members@);
            if hit {
                members.push(chars_of(dirs[k].as_str()));
                proof {
                    assert(views(members@) =~= old_m.push(dirs@[k as int]@));
                }
            }
            proof {
                assert forall|x: Seq<char>| views(members@).contains(x) <==> exists|j: int| 0 <= j < k + 1 && dirs@[j]@ == x && category_of(x) == Some(name@) by {
                    if views(members@).contains(x) {
                        let q = choose|q: int| 0 <= q < views(members@).len() && views(members@)[q] == x;
                        if hit && q == old_m.len() {
                            assert(dirs@[k as int]@ == x);
                        } else {
                            assert(old_m[q] == x);
                            assert(old_m.contains(x));
                        }
                    }
                    if exists|j: int| 0 <= j < k + 1 && dirs@[j]@ == x && category_of(x) == Some(name@) {
                        let j = choose|j: int| 0 <= j < k + 1 && dirs@[j]@ == x && category_of(x) == Some(name@);
                        if j < k {
                            assert(old_m.contains(x));
                            let q = choose|q: int| 0 <= q < old_m.len() && old_m[q] == x;
                            assert(views(members@)[q] == x);
                        } else {
                            assert(hit);
                            assert(views(members@)[old_m.len() as int] == x);
                        }
                    }
                }
            }
            k = k + 1;
        }
        let sorted = sort_dedup(members);
        proof {
            assert(views(sorted@).to_set() =~= dirs_in(dv, name@)) by {
                assert forall|x: Seq<char>| views(sorted@).to_set().contains(x) <==> dirs_in(dv, name@).contains(x) by {
                    if dirs_in(dv, name@).contains(x) {
                        let j = choose|j: int| 0 <= j < dv.len() && dv[j] == x;
                        assert(dirs@[j]@ == x);
                    }
                    if views(sorted@).to_set().contains(x) {
                        assert(views(members@).to_set().contains(x));
                        let j = choose|j: int| 0 <= j < dirs@.len() && dirs@[j]@ == x && category_of(x) == Some(name@);
                        assert(dv[j] == x);
                    }
                }
            }
        }
    let mut list: Vec<String> = Vec::new();
    let mut t: usize = 0;
    while t < sorted.len()
        invariant
            t <= sorted@.len(),
            string_views(list@) == views(sorted@).take(t as int),
        decreases sorted@.len() - t,
    {
        let ghost before = string_views(list@);
        list.push(string_of(&sorted[t]));
        proof {
            assert(string_views(list@) =~= before.push(sorted@[t as int]@));
            assert(views(sorted@).take(t + 1) =~= views(sorted@).take(t as int).push(sorted@[t as int]@));
        }
        t = t + 1;
    }
    assert(views(sorted@).take(sorted@.len() as int) =~= views(sorted@));
    list
}

/// Each category that has directories, in sorted order, with its
/// directories sorted and each once. `None` where the test pattern does not
/// compile.
pub fn categorize_directories(dirs: &Vec<String>) -> (r: Option<Vec<(String, Vec<String>)>>)
    ensures
        r is Some == regex_compiles(TEST_SEGMENT@),
        r matches Some(v) ==> {
            &&& forall|i: int| 0 <= i < v@.len() ==> category_names().contains((#[trigger] v@[i]).0@)
            &&& forall|i: int, j: int| 0 <= i < j < v@.len() ==> crate::sorting::lex_lt(#[trigger] v@[i].0@, #[trigger] v@[j].0@)
            &&& forall|i: int| 0 <= i < v@.len() ==> strictly_sorted(string_views((#[trigger] v@[i]).1@))
                && string_views(v@[i].1@).to_set() == dirs_in(string_views(dirs@), v@[i].0@)
                && v@[i].1@.len() > 0
            &&& forall|c: Seq<char>| #[trigger] category_names().contains(c) && !dirs_in(string_views(dirs@), c).is_empty()
                ==> v@.map_values(|e: (String, Vec<String>)| e.0@).contains(c)
        },
{
    if regex_is_match(TEST_SEGMENT, "").is_none() {
        return None;
    }
    let ghost dv = string_views(dirs@);
    let mut cats: Vec<Option<&'static str>> = Vec::new();
    let mut i: usize = 0;
    while i < dirs.len()
        invariant
            i <= dirs@.len(),
            regex_compiles(TEST_SEGMENT@),
            cats@.len() == i,
            forall|k: int| 0 <= k < i ==> match #[trigger] cats@[k] {
                Some(c) => category_of(dirs@[k]@) == Some(c@),
                None => category_of(dirs@[k]@) is None,
            },
        decreases dirs@.len() - i,
    {
        cats.push(directory_category(dirs[i].as_str()));
        i = i + 1;
    }
    let names: [&str; 8] = ["agent", "backend", "contracts", "frontend", "infra", "shared", "tests", "web3"];
    assert(names@.map_values(|s: &str| s@) =~= category_names());
    let mut out: Vec<(String, Vec<String>)> = Vec::new();
    let ghost mut idx: Seq<int> = Seq::empty();
    let mut n: usize = 0;
    while n < 8
        invariant
            n <= 8,
            names@.len() == 8,
            names@.map_values(|s: &str| s@) == category_names(),
            dv == string_views(dirs@),
            cats@.len() == dirs@.len(),
            forall|k: int| 0 <= k < dirs@.len() ==> match #[trigger] cats@[k] {
                Some(c) => category_of(dirs@[k]@) == Some(c@),
                None => category_of(dirs@[k]@) is None,
            },
            idx.len() == out@.len(),
            forall|a: int| 0 <= a < out@.len() ==> 0 <= #[trigger] idx[a] < n && out@[a].0@ == category_names()[idx[a]],
            forall|a: int, b: int| 0 <= a < b < out@.len() ==> #[trigger] idx[a] < #[trigger] idx[b],
            forall|a: int| 0 <= a < out@.len() ==> strictly_sorted(string_views((#[trigger] out@[a]).1@))
                && string_views(out@[a].1@).to_set() == dirs_in(dv, out@[a].0@) && out@[a].1@.len() > 0,
            forall|m: int| 0 <= m < n && !dirs_in(dv, #[trigger] category_names()[m]).is_empty() ==> idx.contains(m),
        decreases 8 - n,
    {
        let name = names[n];
        proof {
            assert(names@.map_values(|s: &str| s@)[n as int] == name@);
        }
        let list = category_members(dirs, &cats, name);
        if list.len() > 0 {
            let ghost old_out = out@;
            let ghost old_idx = idx;
            out.push((name.to_string(), list));
            proof {
                idx = idx.push(n as int);
                assert forall|a: int| 0 <= a < out@.len() implies strictly_sorted(string_views((#[trigger] out@[a]).1@))
                    && string_views(out@[a].1@).to_set() == dirs_in(dv, out@[a].0@) && out@[a].1@.len() > 0 by {
                    if a < old_out.len() {
                        assert(out@[a] == old_out[a]);
                    }
                }
                assert forall|a: int| 0 <= a < out@.len() implies 0 <= #[trigger] idx[a] < n + 1 && out@[a].0@ == category_names()[idx[a]] by {
                    if a < old_out.len() {
                        assert(out@[a] == old_out[a]);
                        assert(idx[a] == old_idx[a]);
                    }
                }
                assert forall|m: int| 0 <= m < n + 1 && !dirs_in(dv, #[trigger] category_names()[m]).is_empty() implies idx.contains(m) by {
                    if m < n {
                        let a = choose|a: int| 0 <= a < old_idx.len() && old_idx[a] == m;
                        assert(idx[a] == m);
                    } else {
                        assert(idx[idx.len() - 1] == m);
                    }
                }
            }
        } else {
            proof {
                assert forall|m: int| 0 <= m < n + 1 && !dirs_in(dv, #[trigger] category_names()[m]).is_empty() implies idx.contains(m) by {
                    if m == n {
                        assert(dirs_in(dv, category_names()[m]) =~= string_views(list@).to_set());
                    }
                }
            }
        }
        n = n + 1;
    }
    proof {
        lemma_category_names_sorted();
        assert forall|i: int| 0 <= i < out@.len() implies category_names().contains((#[trigger] out@[i]).0@) by {
            assert(0 <= idx[i] < 8);
            assert(category_names()[idx[i]] == out@[i].0@);
        }
        assert forall|i: int| 0 <= i < out@.len() implies strictly_sorted(string_views((#[trigger] out@[i]).1@))
            && string_views(out@[i].1@).to_set() == dirs_in(string_views(dirs@), out@[i].0@) && out@[i].1@.len() > 0 by {
        }
        assert forall|i: int, j: int| 0 <= i < j < out@.len() implies crate::sorting::lex_lt(#[trigger] out@[i].0@, #[trigger] out@[j].0@) by {
            assert(idx[i] < idx[j]);
            assert(0 <= idx[i] && idx[j] < 8);
            assert(crate::sorting::lex_lt(category_names()[idx[i]], category_names()[idx[j]]));
        }
        assert forall|c: Seq<char>| #[trigger] category_names().contains(c) && !dirs_in(dv, c).is_empty() implies out@.map_values(|e: (String, Vec<String>)| e.0@).contains(c) by {
            let m = choose|m: int| 0 <= m < 8 && category_names()[m] == c;
            let a = choose|a: int| 0 <= a < idx.len() && idx[a] == m;
            assert(out@[a].0@ == c);
            assert(out@.map_values(|e: (String, Vec<String>)| e.0@)[a] == c);
        }
    }
    Some(out)
}

proof fn lemma_category_names_sorted()
    ensures
        forall|a: int, b: int| 0 <= a < b < 8 ==> crate::sorting::lex_lt(#[trigger] category_names()[a], #[trigger] category_names()[b]),
{
    reveal_strlit("agent");
    reveal_strlit("backend");
    reveal_strlit("contracts");
    reveal_strlit("frontend");
    reveal_strlit("infra");
    reveal_strlit("shared");
    reveal_strlit("tests");
    reveal_strlit("web3");
    let c = category_names();
    assert(crate::sorting::lex_lt(c[0], c[1]));
    assert(crate::sorting::lex_lt(c[1], c[2]));
    assert(crate::sorting::lex_lt(c[2], c[3]));
    assert(crate::sorting::lex_lt(c[3], c[4]));
    assert(crate::sorting::lex_lt(c[4], c[5]));
    assert(crate::sorting::lex_lt(c[5], c[6]));
    assert(crate::sorting::lex_lt(c[6], c[7]));
    assert forall|a: int, b: int| 0 <= a < b < 8 implies crate::sorting::lex_lt(#[trigger] c[a], #[trigger] c[b]) by {
        lemma_chain(c, a, b);
    }
}

proof fn lemma_chain(c: Seq<Seq<char>>, a: int, b: int)
    requires
        0 <= a < b < c.len(),
        forall|i: int| 0 <= i < c.len() - 1 ==> crate::sorting::lex_lt(#[trigger] c[i], c[i + 1]),
    ensures
        crate::sorting::lex_lt(c[a], c[b]),
    decreases b - a,
{
    if b > a + 1 {
        lemma_chain(c, a, b - 1);
        assert(crate::sorting::lex_lt(c[b - 1], c[b]));
        crate::sorting::lemma_lex_transitive(c[a], c[b - 1], c[b]);
    }
}

// ---------------------------------------------------------------------------
// Platform model inventory
// ---------------------------------------------------------------------------

/// The heading of an inventory listing.
pub open spec fn inventory_title_spec(kind: Seq<char>) -> Seq<char> {
    if kind == "services"@ {
        "Services defined in platform model"@
    } else if kind == "deployables"@ {
        "Deployables defined in platform model"@
    } else if kind == "resources"@ {
        "Resources defined in platform model"@
    } else {
        "Entries defined in platform model"@
    }
}

/// The heading of an inventory listing.
pub fn inventory_title(kind: &str) -> (r: &'static str)
    ensures
        r@ == inventory_title_spec(kind@),
{
    let k = chars_of(kind);
    if same_chars(&k, &chars_of("services")) {
        "Services defined in platform model"
    } else if same_chars(&k, &chars_of("deployables")) {
        "Deployables defined in platform model"
    } else if same_chars(&k, &chars_of("resources")) {
        "Resources defined in platform model"
    } else {
        "Entries defined in platform model"
    }
}

/// The model name a file provides: the stem of a `.yaml` file.
pub open spec fn yaml_stem(name: Seq<char>) -> Option<Seq<char>> {
    if has_suffix(name, ".yaml"@) && name.len() > 5 {
        Some(name.take(name.len() - 5))
    } else {
        None
    }
}

/// The model names of the files of a model directory, sorted and each once.
pub fn inventory_names(files: &Vec<String>) -> (r: Vec<String>)
    ensures
        strictly_sorted(string_views(r@)),
        string_views(r@).to_set() == Set::new(|x: Seq<char>| exists|i: int| 0 <= i < files@.len() && yaml_stem(#[trigger] files@[i]@) == Some(x)),
{
    proof {
        reveal_strlit(".yaml");
    }
    let suffix = chars_of(".yaml");
    let mut stems: Vec<Vec<char>> = Vec::new();
    let mut i: usize = 0;
    while i < files.len()
        invariant
            i <= files@.len(),
            suffix@ == ".yaml"@,
            ".yaml"@.len() == 5,
            forall|x: Seq<char>| views(stems@).contains(x) <==> exists|j: int| 0 <= j < i && yaml_stem(#[trigger] files@[j]@) == Some(x),
        decreases files@.len() - i,
    {
        let f = chars_of(files[i].as_str());
        let ghost old_s = views(stems@);
        let hit = ends_with(&f, &suffix) && f.len() > 5;
        if hit {
            let stem = slice(&f, 0, f.len() - 5);
            stems.push(stem);
            proof {
                assert(views(stems@) =~= old_s.push(stem@));
            }
        }
        proof {
            assert forall|x: Seq<char>| views(stems@).contains(x) <==> exists|j: int| 0 <= j < i + 1 && yaml_stem(#[trigger] files@[j]@) == Some(x) by {
                if views(stems@).contains(x) {
                    let q = choose|q: int| 0 <= q < views(stems@).len() && views(stems@)[q] == x;
                    if hit && q == old_s.len() {
                        assert(yaml_stem(files@[i as int]@) == Some(x));
                    } else {
                        assert(old_s[q] == x);
                        assert(old_s.contains(x));
                    }
                }
                if exists|j: int| 0 <= j < i + 1 && yaml_stem(#[trigger] files@[j]@) == Some(x) {
                    let j = choose|j: int| 0 <= j < i + 1 && yaml_stem(#[trigger] files@[j]@) == Some(x);
                    if j < i {
                        assert(old_s.contains(x));
                        let q = choose|q: int| 0 <= q < old_s.len() && old_s[q] == x;
                        assert(views(stems@)[q] == x);
                    } else {
                        assert(views(stems@)[old_s.len() as int] == x);
                    }
                }
            }
        }
        i = i + 1;
    }
    let sorted = sort_dedup(stems);
    let mut out: Vec<String> = Vec::new();
    let mut k: usize = 0;
    while k < sorted.len()
        invariant
            k <= sorted@.len(),
            string_views(out@) == views(sorted@).take(k as int),
        decreases sorted@.len() - k,
    {
        let ghost before = string_views(out@);
        out.push(string_of(&sorted[k]));
        proof {
            assert(string_views(out@) =~= before.push(sorted@[k as int]@));
            assert(views(sorted@).take(k + 1) =~= views(sorted@).take(k as int).push(sorted@[k as int]@));
        }
        k = k + 1;
    }
    proof {
        assert(views(sorted@).take(sorted@.len() as int) =~= views(sorted@));
        assert(string_views(out@).to_set() =~= Set::new(|x: Seq<char>| exists|i: int| 0 <= i < files@.len() && yaml_stem(#[trigger] files@[i]@) == Some(x))) by {
            assert forall|x: Seq<char>| string_views(out@).to_set().contains(x) <==> views(stems@).contains(x) by {
                assert(views(sorted@).to_set().contains(x) == views(stems@).to_set().contains(x));
            }
        }
    }
    out
}

// ---------------------------------------------------------------------------
// Golden baselines
// ---------------------------------------------------------------------------

/// A golden file and what the generated tree has for it.
#[derive(Debug, Clone)]
pub struct GoldenFile {
    /// Path relative to the baseline.
    pub relative: String,
    /// The generated tree has the file.
    pub generated: bool,
    /// The generated file's bytes equal the baseline's.
    pub same: bool,
}

/// The report line of one baseline file, and whether it drifted.
pub open spec fn golden_line(f: GoldenFile) -> (Seq<char>, bool) {
    if !f.generated {
        ("  DRIFT: Missing generated file: "@ + f.relative@, true)
    } else if !f.same {
        ("  DRIFT: "@ + f.relative@ + " differs from baseline"@, true)
    } else {
        ("  OK: "@ + f.relative@, false)
    }
}

/// The report lines of baseline files, in order.
pub open spec fn golden_lines(fs: Seq<GoldenFile>) -> Seq<Seq<char>>
    decreases fs.len(),
{
    if fs.len() == 0 {
        Seq::empty()
    } else {
        golden_lines(fs.drop_last()).push(golden_line(fs.last()).0)
    }
}

/// The report lines of generated files without a baseline, in order.
pub open spec fn extra_lines(extra: Seq<(String, bool)>) -> Seq<Seq<char>>
    decreases extra.len(),
{
    if extra.len() == 0 {
        Seq::empty()
    } else {
        let rest = extra_lines(extra.drop_last());
        if extra.last().1 {
            rest
        } else {
            rest.push("  DRIFT: Extra generated file (not in baseline): "@ + extra.last().0@)
        }
    }
}

/// Whether the comparison found drift.
pub open spec fn drifted(golden: Seq<GoldenFile>, extra: Seq<(String, bool)>) -> bool {
    (exists|i: int| 0 <= i < golden.len() && (#[trigger] golden_line(golden[i])).1) || (exists|i: int| 0 <= i < extra.len() && !(#[trigger] extra[i]).1)
}

/// Compares a generated tree with its baseline: each baseline file (missing,
/// differing or matching), then each generated file, with whether the
/// baseline has it. Returns the report lines and whether anything drifted.
pub fn compare_tree(golden: &Vec<GoldenFile>, generated: &Vec<(String, bool)>) -> (r: (Vec<String>, bool))
    ensures
        string_views(r.0@) == golden_lines(golden@) + extra_lines(generated@),
        r.1 == drifted(golden@, generated@),
{
    let mut out: Vec<String> = Vec::new();
    let mut drift = false;
    let mut i: usize = 0;
    while i < golden.len()
        invariant
            i <= golden@.len(),
            string_views(out@) == golden_lines(golden@.take(i as int)),
            drift == exists|j: int| 0 <= j < i && (#[trigger] golden_line(golden@[j])).1,
        decreases golden@.len() - i,
    {
        proof {
            assert(golden@.take(i + 1).drop_last() =~= golden@.take(i as int));
        }
        let f = &golden[i];
        let mut line: Vec<char>;
        if !f.generated {
            line = chars_of("  DRIFT: Missing generated file: ");
            push_str(&mut line, f.relative.as_str());
            drift = true;
        } else if !f.same {
            line = chars_of("  DRIFT: ");
            push_str(&mut line, f.relative.as_str());
            push_str(&mut line, " differs from baseline");
            drift = true;
        } else {
            line = chars_of("  OK: ");
            push_str(&mut line, f.relative.as_str());
        }
        let ghost before = string_views(out@);
        out.push(string_of(&line));
        proof {
            assert(string_views(out@) =~= before.push(golden_line(golden@[i as int]).0));
        }
        i = i + 1;
    }
    assert(golden@.take(golden@.len() as int) =~= golden@);
    let ghost base = string_views(out@);
    let ghost d0 = drift;
    let mut k: usize = 0;
    while k < generated.len()
        invariant
            k <= generated@.len(),
            string_views(out@) == base + extra_lines(generated@.take(k as int)),
            drift == (d0 || exists|j: int| 0 <= j < k && !(#[trigger] generated@[j]).1),
        decreases generated@.len() - k,
    {
        proof {
            assert(generated@.take(k + 1).drop_last() =~= generated@.take(k as int));
        }
        if !generated[k].1 {
            let mut line = chars_of("  DRIFT: Extra generated file (not in baseline): ");
            push_str(&mut line, generated[k].0.as_str());
            let ghost before = string_views(out@);
            out.push(string_of(&line));
            proof {
                assert(string_views(out@) =~= before.push("  DRIFT: Extra generated file (not in baseline): "@ + generated@[k as int].0@));
            }
            drift = true;
        }
        k = k + 1;
    }
    assert(generated@.take(generated@.len() as int) =~= generated@);
    (out, drift)
}

/// What a baseline check does, given what exists.
#[derive(Debug, Clone, Copy, PartialEq, Eq, Structural)]
pub enum BaselineCheck {
    /// The generated directory is missing.
    NoSource,
    /// The baseline directory is missing.
    NoBaseline,
    /// The baseline holds no file but `.gitkeep`.
    EmptyBaseline,
    /// The generated directory holds no file but `.gitkeep`.
    EmptySource,
    /// Both have files: compare them.
    Compare,
}

/// Decides a baseline check from the directories and their file counts
/// (files other than `.gitkeep`).
pub fn baseline_check(source_is_dir: bool, golden_is_dir: bool, golden_files: usize, source_files: usize) -> (r: BaselineCheck)
    ensures
        r == if !source_is_dir {
            BaselineCheck::NoSource
        } else if !golden_is_dir {
            BaselineCheck::NoBaseline
        } else if golden_files == 0 {
            BaselineCheck::EmptyBaseline
        } else if source_files == 0 {
            BaselineCheck::EmptySource
        } else {
            BaselineCheck::Compare
        },
{
    if !source_is_dir {
        BaselineCheck::NoSource
    } else if !golden_is_dir {
        BaselineCheck::NoBaseline
    } else if golden_files == 0 {
        BaselineCheck::EmptyBaseline
    } else if source_files == 0 {
        BaselineCheck::EmptySource
    } else {
        BaselineCheck::Compare
    }
}

/// One step of refreshing the golden baselines.
#[derive(Debug, Clone)]
pub enum BaselineStep {
    /// Run a command in the root; its failure stops the refresh with the message.
    Run { program: String, args: Vec<String>, failure: String },
    /// Copy a generated directory into a baseline directory.
    Copy { source: String, baseline: String, name: String },
    /// Create an empty baseline directory.
    CreateDir { baseline: String },
}

/// A step as plain values: kind, and its texts.
pub open spec fn step_view(s: BaselineStep) -> (nat, Seq<Seq<char>>) {
    match s {
        BaselineStep::Run { program, args, failure } => (0, seq![program@] + string_views(args@) + seq![failure@]),
        BaselineStep::Copy { source, baseline, name } => (1, seq![source@, baseline@, name@]),
        BaselineStep::CreateDir { baseline } => (2, seq![baseline@]),
    }
}

/// The steps of refreshing the golden baselines, depending on whether the
/// `gen-sdk` recipe exists.
pub open spec fn baseline_plan_spec(has_gen_sdk: bool) -> Seq<(nat, Seq<Seq<char>>)> {
    let head = seq![
        (0nat, seq!["cargo"@, "run"@, "-p"@, "platform-generator"@, "--quiet"@, "--"@, "--platform-dir"@, "platform"@, "platform catalog generation failed"@]),
        (1nat, seq!["platform/catalog"@, "verification/golden/generated-platform"@, "generated-platform"@]),
        (0nat, seq!["cargo"@, "run"@, "-p"@, "repo-tools"@, "--"@, "typegen"@, "typegen failed"@]),
        (1nat, seq!["packages/contracts/generated"@, "verification/golden/contracts"@, "contracts"@]),
    ];
    if has_gen_sdk {
        head + seq![
            (0nat, seq!["just"@, "gen-sdk"@, "gen-sdk failed"@]),
            (1nat, seq!["packages/sdk/typescript"@, "verification/golden/sdk-typescript"@, "sdk-typescript"@]),
            (1nat, seq!["packages/sdk/rust"@, "verification/golden/sdk-rust"@, "sdk-rust"@]),
        ]
    } else {
        head + seq![
            (2nat, seq!["verification/golden/sdk-typescript"@]),
            (2nat, seq!["verification/golden/sdk-rust"@]),
        ]
    }
}

/// Whether `just --list` shows the `gen-sdk` recipe.
pub fn has_gen_sdk(list: &crate::git::CommandOutcome) -> (r: bool)
    ensures
        r == (list.success && contains(list.output@, "gen-sdk"@)),
{
    list.success && contains_chars(&chars_of(list.output.as_str()), &chars_of("gen-sdk"))
}

fn run_step(program: &str, args: &[&str], failure: &str) -> (s: BaselineStep)
    ensures
        step_view(s) == (0nat, seq![program@] + args@.map_values(|a: &str| a@) + seq![failure@]),
{
    let mut v: Vec<String> = Vec::new();
    let mut i: usize = 0;
    while i < args.len()
        invariant
            i <= args@.len(),
            string_views(v@) == args@.take(i as int).map_values(|a: &str| a@),
        decreases args@.len() - i,
    {
        let ghost before = string_views(v@);
        v.push(args[i].to_string());
        proof {
            assert(string_views(v@) =~= before.push(args@[i as int]@));
            assert(args@.take(i + 1).map_values(|a: &str| a@) =~= args@.take(i as int).map_values(|a: &str| a@).push(args@[i as int]@));
        }
        i = i + 1;
    }
    assert(args@.take(args@.len() as int) =~= args@);
    BaselineStep::Run { program: program.to_string(), args: v, failure: failure.to_string() }
}

fn copy_step(source: &str, baseline: &str, name: &str) -> (s: BaselineStep)
    ensures
        step_view(s) == (1nat, seq![source@, baseline@, name@]),
{
    BaselineStep::Copy { source: source.to_string(), baseline: baseline.to_string(), name: name.to_string() }
}

/// The steps of refreshing the golden baselines, in order: generate the
/// platform catalogue and copy it, generate the contract bindings and copy
/// them, then with `gen-sdk` generate and copy both SDKs, else create their
/// baseline directories empty.
pub fn baseline_plan(has_gen_sdk: bool) -> (r: Vec<BaselineStep>)
    ensures
        r@.map_values(|s: BaselineStep| step_view(s)) == baseline_plan_spec(has_gen_sdk),
{
    let mut r: Vec<BaselineStep> = Vec::new();
    r.push(run_step("cargo", &["run", "-p", "platform-generator", "--quiet", "--", "--platform-dir", "platform"], "platform catalog generation failed"));
    r.push(copy_step("platform/catalog", "verification/golden/generated-platform", "generated-platform"));
    r.push(run_step("cargo", &["run", "-p", "repo-tools", "--", "typegen"], "typegen failed"));
    r.push(copy_step("packages/contracts/generated", "verification/golden/contracts", "contracts"));
    if has_gen_sdk {
        r.push(run_step("just", &["gen-sdk"], "gen-sdk failed"));
        r.push(copy_step("packages/sdk/typescript", "verification/golden/sdk-typescript", "sdk-typescript"));
        r.push(copy_step("packages/sdk/rust", "verification/golden/sdk-rust", "sdk-rust"));
    } else {
        r.push(BaselineStep::CreateDir { baseline: "verification/golden/sdk-typescript".to_string() });
        r.push(BaselineStep::CreateDir { baseline: "verification/golden/sdk-rust".to_string() });
    }
    assert(r@.map_values(|s: BaselineStep| step_view(s)) =~~= baseline_plan_spec(has_gen_sdk));
    r
}

} // verus!
