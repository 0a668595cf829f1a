use vstd::prelude::*;

verus! {

/// Position of the first `c` in `s` at or after `i`, or the length of `s`.
pub open spec fn find_char(s: Seq<char>, c: char, i: int) -> int
    decreases s.len() - i,
{
    if i >= s.len() {
        s.len() as int
    } else if s[i] == c {
        i
    } else {
        find_char(s, c, i + 1)
    }
}

/// The rig selected when a reference names none.
pub open spec fn default_rig() -> Seq<char> {
    seq!['d', 'e', 'f', 'a', 'u', 'l', 't']
}

/// A flake reference `<flake>#<rig>` split at its first `#`; without a `#`
/// the whole text is the flake and the default rig is meant; no reference
/// at all means the default rig of the current flake.
pub open spec fn flake_ref_parts(flake_ref: Option<Seq<char>>) -> (Seq<char>, Seq<char>) {
    let s = match flake_ref {
        Some(r) => r,
        None => seq!['.', '#'] + default_rig(),
    };
    let p = find_char(s, '#', 0);
    if p < s.len() {
        (s.subrange(0, p), s.subrange(p + 1, s.len() as int))
    } else {
        (s, default_rig())
    }
}

fn find_hash(s: &str) -> (p: usize)
    ensures
        p == find_char(s@, '#', 0),
{
    let n = s.unicode_len();
    let mut i: usize = 0;
    while i < n
        invariant
            n == s@.len(),
            i <= n,
            find_char(s@, '#', 0) == find_char(s@, '#', i as int),
        decreases n - i,
    {
        if s.get_char(i) == '#' {
            return i;
        }
        i = i + 1;
    }
    i
}

/// Splits a flake reference into the flake and the rig it names.
pub fn parse_flake_ref(flake_ref: Option<&str>) -> (r: (String, String))
    ensures
        (r.0@, r.1@) == flake_ref_parts(match flake_ref {
            Some(s) => Some(s@),
            None => None,
        }),
{
    proof {
        reveal_strlit(".#default");
        reveal_strlit("default");
        assert(".#default"@ =~= seq!['.', '#'] + default_rig());
        assert("default"@ =~= default_rig());
    }
    let s = match flake_ref {
        Some(s) => s,
        None => ".#default",
    };
    let p = find_hash(s);
    let n = s.unicode_len();
    if p < n {
        let flake = s.substring_char(0, p).to_owned();
        let rig = s.substring_char(p + 1, n).to_owned();
        (flake, rig)
    } else {
        (s.to_owned(), String::from_str("default"))
    }
}

/// The Nix name of a platform: the architecture, a dash, and the operating
/// system, where Nix calls macOS `darwin`.
pub open spec fn system_name(arch: Seq<char>, os: Seq<char>) -> Seq<char> {
    arch + seq!['-'] + if os == seq!['m', 'a', 'c', 'o', 's'] {
        seq!['d', 'a', 'r', 'w', 'i', 'n']
    } else {
        os
    }
}

/// Returns the Nix system name of a platform, from Rust's names of its
/// architecture and operating system.
pub fn get_system(arch: &str, os: &str) -> (r: String)
    ensures
        r@ == system_name(arch@, os@),
{
    proof {
        reveal_strlit("macos");
        reveal_strlit("darwin");
        reveal_strlit("-");
        assert("macos"@ =~= seq!['m', 'a', 'c', 'o', 's']);
        assert("darwin"@ =~= seq!['d', 'a', 'r', 'w', 'i', 'n']);
        assert("-"@ =~= seq!['-']);
    }
    let mut r = arch.to_owned();
    r.append("-");
    if crate::order::same_text(os, "macos") {
        r.append("darwin");
    } else {
        r.append(os);
    }
    r
}

/// The reference to a component of a rig for a system, in a flake whose
/// location is already resolved.
pub open spec fn component_ref(flake: Seq<char>, rig: Seq<char>, system: Seq<char>, component: Seq<char>) -> Seq<char> {
    flake + "#rigs."@ + system + seq!['.'] + rig + seq!['.'] + component
}

/// Builds the reference to a component of a rig for a system.
pub fn build_flake_ref(flake: &str, rig: &str, system: &str, component: &str) -> (r: String)
    ensures
        r@ == component_ref(flake@, rig@, system@, component@),
{
    proof {
        reveal_strlit(".");
        assert("."@ =~= seq!['.']);
    }
    let mut r = flake.to_owned();
    r.append("#rigs.");
    r.append(system);
    r.append(".");
    r.append(rig);
    r.append(".");
    r.append(component);
    r
}

/// Whether `s` begins with `p`.
pub open spec fn has_prefix(s: Seq<char>, p: Seq<char>) -> bool {
    p.len() <= s.len() && s.subrange(0, p.len() as int) == p
}

/// Tells whether `s` begins with `p`.
pub fn starts_with(s: &str, p: &str) -> (r: bool)
    ensures
        r == has_prefix(s@, p@),
{
    let n = s.unicode_len();
    let m = p.unicode_len();
    if m > n {
        return false;
    }
    let mut i: usize = 0;
    while i < m
        invariant
            n == s@.len(),
            m == p@.len(),
            m <= n,
            i <= m,
            forall|k: int| 0 <= k < i ==> s@[k] == p@[k],
        decreases m - i,
    {
        if s.get_char(i) != p.get_char(i) {
            assert(s@.subrange(0, m as int)[i as int] != p@[i as int]);
            return false;
        }
        i = i + 1;
    }
    assert(s@.subrange(0, m as int) =~= p@);
    true
}

/// The local rig references offered for the rig names that begin with `suffix`.
pub open spec fn matching_refs(rigs: Seq<Seq<char>>, suffix: Seq<char>) -> Seq<Seq<char>>
    decreases rigs.len(),
{
    if rigs.len() == 0 {
        seq![]
    } else {
        matching_refs(rigs.drop_last(), suffix) + if has_prefix(rigs.last(), suffix) {
            seq![seq!['.', '#'] + rigs.last()]
        } else {
            seq![]
        }
    }
}

/// Completions of a partial flake reference: after `.#`, the local rigs whose
/// names continue it (or `.#default` when nothing was typed and none is
/// known); for an empty text or `.`, `.#default`; nothing otherwise.
pub open spec fn completions(current: Seq<char>, rigs: Seq<Seq<char>>) -> Seq<Seq<char>> {
    let fallback = seq![seq!['.', '#'] + default_rig()];
    if has_prefix(current, seq!['.', '#']) {
        let suffix = current.subrange(2, current.len() as int);
        let found = matching_refs(rigs, suffix);
        if found.len() == 0 && suffix.len() == 0 {
            fallback
        } else {
            found
        }
    } else if current.len() == 0 || current == seq!['.'] {
        fallback
    } else {
        seq![]
    }
}

/// Lists the completions of a partial flake reference, given the names of
/// the local rigs (empty when they could not be listed).
pub fn complete_flake_ref(current: &str, rigs: &Vec<String>) -> (r: Vec<String>)
    ensures
        crate::text::views_of(r@) == completions(current@, crate::text::views_of(rigs@)),
{
    proof {
        reveal_strlit(".#");
        reveal_strlit(".#default");
        reveal_strlit(".");
        assert(".#"@ =~= seq!['.', '#']);
        assert(".#default"@ =~= seq!['.', '#'] + default_rig());
        assert("."@ =~= seq!['.']);
    }
    let ghost names = crate::text::views_of(rigs@);
    let mut out: Vec<String> = Vec::new();
    if starts_with(current, ".#") {
        let n = current.unicode_len();
        let suffix = current.substring_char(2, n);
        let mut i: usize = 0;
        while i < rigs.len()
            invariant
                i <= rigs@.len(),
                names == crate::text::views_of(rigs@),
                current@.len() >= 2,
                suffix@ == current@.subrange(2, current@.len() as int),
                crate::text::views_of(out@) == matching_refs(names.subrange(0, i as int), suffix@),
            decreases rigs@.len() - i,
        {
            let ghost prev = crate::text::views_of(out@);
            if starts_with(rigs[i].as_str(), suffix) {
                let mut c = String::from_str(".#");
                c.append(rigs[i].as_str());
                out.push(c);
                proof {
                    reveal_strlit(".#");
                    assert(".#"@ =~= seq!['.', '#']);
                    assert(c@ =~= seq!['.', '#'] + rigs@[i as int]@);
                    assert(crate::text::views_of(out@) =~= prev + seq![c@]);
                }
            }
            proof {
                let next = names.subrange(0, i + 1);
                assert(next.drop_last() =~= names.subrange(0, i as int));
                assert(next.last() == rigs@[i as int]@);
                assert(crate::text::views_of(out@) =~= matching_refs(next, suffix@));
            }
            i = i + 1;
        }
        proof {
            assert(names.subrange(0, rigs@.len() as int) =~= names);
        }
        if out.len() == 0 && n == 2 {
            out.push(String::from_str(".#default"));
            proof {
                assert(crate::text::views_of(out@) =~= seq![seq!['.', '#'] + default_rig()]);
            }
        }
    } else if current.unicode_len() == 0 || crate::order::same_text(current, ".") {
        out.push(String::from_str(".#default"));
        proof {
            assert(crate::text::views_of(out@) =~= seq![seq!['.', '#'] + default_rig()]);
        }
    } else {
        proof {
            assert(crate::text::views_of(out@) =~= seq![]);
        }
    }
    out
}

/// The flake's directory in its resolved URL: the URL without a leading
/// `git+file://` or, failing that, `path:`.
pub open spec fn root_of_url(url: Seq<char>) -> Seq<char> {
    let git = seq!['g', 'i', 't', '+', 'f', 'i', 'l', 'e', ':', '/', '/'];
    let path = seq!['p', 'a', 't', 'h', ':'];
    if has_prefix(url, git) {
        url.subrange(git.len() as int, url.len() as int)
    } else if has_prefix(url, path) {
        url.subrange(path.len() as int, url.len() as int)
    } else {
        url
    }
}

/// Extracts the flake's directory from its resolved URL.
pub fn flake_root_path(url: &str) -> (r: String)
    ensures
        r@ == root_of_url(url@),
{
    proof {
        reveal_strlit("git+file://");
        reveal_strlit("path:");
        assert("git+file://"@ =~= seq!['g', 'i', 't', '+', 'f', 'i', 'l', 'e', ':', '/', '/']);
        assert("path:"@ =~= seq!['p', 'a', 't', 'h', ':']);
    }
    let n = url.unicode_len();
    if starts_with(url, "git+file://") {
        url.substring_char(11, n).to_owned()
    } else if starts_with(url, "path:") {
        url.substring_char(5, n).to_owned()
    } else {
        url.to_owned()
    }
}

/// The rig to use given the trimmed contents of the file that remembers the
/// last one: the default rig when it is empty.
pub open spec fn remembered_rig(contents: Seq<char>) -> Seq<char> {
    if contents.len() == 0 {
        default_rig()
    } else {
        contents
    }
}

/// Returns the rig to use given the trimmed contents of the file that
/// remembers the last one.
pub fn last_rig_or_default(contents: &str) -> (r: String)
    ensures
        r@ == remembered_rig(contents@),
{
    proof {
        reveal_strlit("default");
        assert("default"@ =~= default_rig());
    }
    if contents.unicode_len() == 0 {
        String::from_str("default")
    } else {
        contents.to_owned()
    }
}

} // verus!
