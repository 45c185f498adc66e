//! Turning the dependency list of the native build into linker instructions
//! for cargo.

use crate::text::{has_prefix, joined_text, same_text, skip_chars, starts_with};
use vstd::prelude::*;

verus! {

/// The whitespace-separated words of `s`, as `str::split_whitespace` gives them.
pub uninterp spec fn words_of(s: Seq<char>) -> Seq<Seq<char>>;

/// The extension of the file named by path `p`, as `Path::extension` gives it.
pub uninterp spec fn extension_of(p: Seq<char>) -> Option<Seq<char>>;

/// The stem of the file named by path `p`, as `Path::file_stem` gives it.
pub uninterp spec fn stem_of(p: Seq<char>) -> Option<Seq<char>>;

/// The parent of path `p`, as `Path::parent` gives it.
pub uninterp spec fn parent_of(p: Seq<char>) -> Option<Seq<char>>;

/// Path `rel` below `base`, as `Path::join` gives it.
pub uninterp spec fn path_joined(base: Seq<char>, rel: Seq<char>) -> Seq<char>;

/// Relies on `str::split_whitespace`: the words of `s` in order.
#[verifier::external_body]
fn split_words(s: &str) -> (r: Vec<String>)
    ensures
        r@.len() == words_of(s@).len(),
        forall|i: int| 0 <= i < r@.len() ==> #[trigger] r@[i]@ == words_of(s@)[i],
{
    s.split_whitespace().map(String::from).collect()
}

/// Relies on `Path::extension`: the extension of the file that `p` names.
#[verifier::external_body]
fn path_extension(p: &str) -> (r: Option<String>)
    ensures
        r matches Some(e) ==> extension_of(p@) == Some(e@),
        r is None ==> extension_of(p@) is None,
{
    std::path::Path::new(p).extension().map(|e| e.to_string_lossy().into_owned())
}

/// Relies on `Path::file_stem`: the stem of the file that `p` names, which
/// exists wherever the file has an extension.
#[verifier::external_body]
fn path_stem(p: &str) -> (r: Option<String>)
    ensures
        r matches Some(e) ==> stem_of(p@) == Some(e@),
        r is None ==> stem_of(p@) is None,
        extension_of(p@) is Some ==> r is Some,
{
    std::path::Path::new(p).file_stem().map(|e| e.to_string_lossy().into_owned())
}

/// Relies on `Path::parent`: the path without its last component.
#[verifier::external_body]
fn path_parent(p: &str) -> (r: Option<String>)
    ensures
        r matches Some(e) ==> parent_of(p@) == Some(e@),
        r is None ==> parent_of(p@) is None,
{
    std::path::Path::new(p).parent().map(|e| e.to_string_lossy().into_owned())
}

/// Relies on `Path::join`: `rel` below `base`.
#[verifier::external_body]
fn path_join(base: &str, rel: &str) -> (r: String)
    ensures
        r@ == path_joined(base@, rel@),
{
    std::path::Path::new(base).join(rel).to_string_lossy().into_owned()
}

/// Whether `t` names a static library: its extension is `a`, in either case.
pub open spec fn is_static_lib(t: Seq<char>) -> bool {
    extension_of(t) matches Some(e) && (e == "a"@ || e == "A"@)
}

/// The library name of static library `t`: its stem without a leading `lib`.
pub open spec fn static_lib_name(t: Seq<char>) -> Seq<char> {
    let stem = stem_of(t)->Some_0;
    if starts_with(stem, "lib"@) {
        stem.subrange(3, stem.len() as int)
    } else {
        stem
    }
}

/// The directory searched for static library `t`: its parent below `base`, or
/// `base` itself where it has no parent.
pub open spec fn search_dir(t: Seq<char>, base: Seq<char>) -> Seq<char> {
    match parent_of(t) {
        Some(p) => if p.len() > 0 {
            path_joined(base, p)
        } else {
            base
        },
        None => base,
    }
}

/// Whether every `-framework` in `tokens` is followed by a framework name.
pub open spec fn frameworks_named(tokens: Seq<Seq<char>>) -> bool
    decreases tokens.len(),
{
    if tokens.len() == 0 {
        true
    } else if tokens[0] == "-framework"@ {
        tokens.len() >= 2 && frameworks_named(tokens.subrange(2, tokens.len() as int))
    } else {
        frameworks_named(tokens.drop_first())
    }
}

/// The instructions for `tokens`, where the search directories in `seen` have
/// been announced already.
pub open spec fn deps_instructions(
    tokens: Seq<Seq<char>>,
    base: Seq<char>,
    include_args: bool,
    seen: Seq<Seq<char>>,
) -> Seq<Seq<char>>
    decreases tokens.len(),
{
    if tokens.len() == 0 {
        Seq::empty()
    } else {
        let t = tokens[0];
        if t == "-framework"@ {
            if tokens.len() < 2 {
                Seq::empty()
            } else {
                seq!["cargo:rustc-link-lib=framework="@ + tokens[1]] + deps_instructions(
                    tokens.subrange(2, tokens.len() as int),
                    base,
                    include_args,
                    seen,
                )
            }
        } else if starts_with(t, "-l"@) {
            seq!["cargo:rustc-link-lib="@ + t.subrange(2, t.len() as int)] + deps_instructions(
                tokens.drop_first(),
                base,
                include_args,
                seen,
            )
        } else if is_static_lib(t) {
            let dir = search_dir(t, base);
            let lib = seq!["cargo:rustc-link-lib=static="@ + static_lib_name(t)];
            if seen.contains(dir) {
                lib + deps_instructions(tokens.drop_first(), base, include_args, seen)
            } else {
                seq!["cargo:rustc-link-search=native="@ + dir] + lib + deps_instructions(
                    tokens.drop_first(),
                    base,
                    include_args,
                    seen.push(dir),
                )
            }
        } else if include_args {
            seq!["cargo:rustc-link-arg="@ + t] + deps_instructions(
                tokens.drop_first(),
                base,
                include_args,
                seen,
            )
        } else {
            seq!["cargo::warning=Ignoring cmake token = "@ + t] + deps_instructions(
                tokens.drop_first(),
                base,
                include_args,
                seen,
            )
        }
    }
}

/// The character sequences of `v`.
pub open spec fn texts(v: Seq<String>) -> Seq<Seq<char>> {
    v.map_values(|s: String| s@)
}

/// Whether `dir` is among `seen`. The announced directories are kept as text
/// in a `Vec`: vstd specifies no `HashSet` of `PathBuf` or `String` that could
/// be reasoned about.
fn contains_text(seen: &Vec<String>, dir: &String) -> (r: bool)
    ensures
        r == texts(seen@).contains(dir@),
{
    let mut i: usize = 0;
    while i < seen.len()
        invariant
            i <= seen@.len(),
            forall|j: int| 0 <= j < i ==> seen@[j]@ != dir@,
        decreases seen@.len() - i,
    {
        if same_text(seen[i].as_str(), dir.as_str()) {
            assert(texts(seen@)[i as int] == dir@);
            return true;
        }
        i = i + 1;
    }
    assert forall|j: int| 0 <= j < texts(seen@).len() implies texts(seen@)[j] != dir@ by {
        assert(texts(seen@)[j] == seen@[j]@);
    }
    false
}

/// Parses the dependency list of the native build (whitespace-separated
/// tokens) into cargo linker instructions, in order:
/// `-framework NAME` links a framework, `-lNAME` a library, a path with
/// extension `a` a static library (announcing its directory below
/// `static_lib_base` the first time it appears), and any other token is passed
/// on as a linker argument where `include_args` holds, else reported as
/// ignored.
pub fn parse_deps(deps_contents: &str, static_lib_base: &str, include_args: bool) -> (r: Vec<
    String,
>)
    requires
        frameworks_named(words_of(deps_contents@)),
    ensures
        texts(r@) == deps_instructions(
            words_of(deps_contents@),
            static_lib_base@,
            include_args,
            Seq::empty(),
        ),
{
    let tokens = split_words(deps_contents);
    let ghost all = words_of(deps_contents@);
    let ghost base = static_lib_base@;
    assert(texts(tokens@) == all);
    let mut out: Vec<String> = Vec::new();
    let mut seen: Vec<String> = Vec::new();
    let mut i: usize = 0;
    let n = tokens.len();
    assert(all.subrange(0, n as int) == all);
    assert(texts(out@) == Seq::<Seq<char>>::empty());
    while i < n
        invariant
            n == tokens@.len() == all.len(),
            i <= n,
            texts(tokens@) == all,
            base == static_lib_base@,
            all == words_of(deps_contents@),
            frameworks_named(all.subrange(i as int, n as int)),
            texts(out@) + deps_instructions(
                all.subrange(i as int, n as int),
                base,
                include_args,
                texts(seen@),
            ) == deps_instructions(all, base, include_args, Seq::empty()),
        decreases n - i,
    {
        proof {
            reveal_strlit("-l");
            reveal_strlit("lib");
        }
        let ghost rest = all.subrange(i as int, n as int);
        let ghost before = texts(out@);
        let t = &tokens[i];
        assert(t@ == all[i as int] && rest[0] == t@);
        assert(rest.drop_first() == all.subrange(i + 1, n as int));
        if same_text(t.as_str(), "-framework") {
            assert(rest.subrange(2, rest.len() as int) == all.subrange(i + 2, n as int));
            let name = &tokens[i + 1];
            out.push(joined_text("cargo:rustc-link-lib=framework=", name.as_str()));
            i = i + 2;
        } else if has_prefix(t.as_str(), "-l") {
            out.push(joined_text("cargo:rustc-link-lib=", skip_chars(t.as_str(), 2).as_str()));
            i = i + 1;
        } else {
            let ext = path_extension(t.as_str());
            let is_static = match &ext {
                Some(e) => same_text(e.as_str(), "a") || same_text(e.as_str(), "A"),
                None => false,
            };
            if is_static {
                let stem = match path_stem(t.as_str()) {
                    Some(s) => s,
                    None => String::new(),
                };
                let name = if has_prefix(stem.as_str(), "lib") {
                    skip_chars(stem.as_str(), 3)
                } else {
                    stem
                };
                let dir = match path_parent(t.as_str()) {
                    Some(p) => if p.unicode_len() > 0 {
                        path_join(static_lib_base, p.as_str())
                    } else {
                        String::from_str(static_lib_base)
                    },
                    None => String::from_str(static_lib_base),
                };
                assert(dir@ == search_dir(t@, base));
                if !contains_text(&seen, &dir) {
                    out.push(joined_text("cargo:rustc-link-search=native=", dir.as_str()));
                    let ghost seen_before = texts(seen@);
                    let ghost d = dir@;
                    seen.push(dir);
                    assert(texts(seen@) == seen_before.push(d));
                }
                out.push(joined_text("cargo:rustc-link-lib=static=", name.as_str()));
            } else if include_args {
                out.push(joined_text("cargo:rustc-link-arg=", t.as_str()));
            } else {
                out.push(joined_text("cargo::warning=Ignoring cmake token = ", t.as_str()));
            }
            i = i + 1;
        }
    }
    assert(all.subrange(n as int, n as int) == Seq::<Seq<char>>::empty());
    assert(texts(out@) + Seq::<Seq<char>>::empty() == texts(out@));
    out
}

/// Like [`parse_deps`], but `None` where a `-framework` comes last, with no
/// framework name after it.
pub fn try_parse_deps(deps_contents: &str, static_lib_base: &str, include_args: bool) -> (r:
    Option<Vec<String>>)
    ensures
        r is None <==> !frameworks_named(words_of(deps_contents@)),
        r matches Some(v) ==> texts(v@) == deps_instructions(
            words_of(deps_contents@),
            static_lib_base@,
            include_args,
            Seq::empty(),
        ),
{
    let tokens = split_words(deps_contents);
    let ghost all = words_of(deps_contents@);
    let n = tokens.len();
    let mut i: usize = 0;
    assert(all.subrange(0, n as int) == all);
    while i < n
        invariant
            n == tokens@.len() == all.len(),
            i <= n,
            all == words_of(deps_contents@),
            forall|j: int| 0 <= j < n ==> #[trigger] tokens@[j]@ == all[j],
            frameworks_named(all.subrange(i as int, n as int)) <==> frameworks_named(all),
        decreases n - i,
    {
        let ghost rest = all.subrange(i as int, n as int);
        assert(rest[0] == tokens@[i as int]@);
        if same_text(tokens[i].as_str(), "-framework") {
            if i + 1 >= n {
                return None;
            }
            assert(rest.subrange(2, rest.len() as int) == all.subrange(i + 2, n as int));
            i = i + 2;
        } else {
            assert(rest.drop_first() == all.subrange(i + 1, n as int));
            i = i + 1;
        }
    }
    Some(parse_deps(deps_contents, static_lib_base, include_args))
}

} // verus!
