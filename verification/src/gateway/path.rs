//! Path prefixes: matching, stripping and the slash that ends them.
use vstd::prelude::*;
use vstd::utf8::encode_utf8;
use crate::gateway::rules::{HttpPathGroup, PathRewriteMode};
use crate::text::{
    chars_of, has_prefix, opt_str, opt_text, same_text, text_between, trim, trim_end_char, trimmed,
    without_trailing,
};

verus! {

/// A prefix without white space around it and, but for the root, without
/// slashes at its end.
pub open spec fn clean_prefix(prefix: Seq<char>) -> Seq<char> {
    let t = trimmed(prefix);
    if t == "/"@ {
        t
    } else {
        without_trailing(t, '/')
    }
}

pub fn normalize_prefix(prefix: &str) -> (r: String)
    ensures
        r@ == clean_prefix(prefix@),
{
    let t = trim(prefix);
    if same_text(&t, "/") {
        t
    } else {
        trim_end_char(&t, '/')
    }
}

/// Whether a path lies under a clean prefix: it starts with it, and the prefix
/// ends where a part of the path does.
pub open spec fn under_prefix(path: Seq<char>, p: Seq<char>) -> bool {
    if p == "/"@ {
        path.len() > 0 && path[0] == '/'
    } else {
        p.is_prefix_of(path) && (path.len() == p.len() || path[p.len() as int] == '/')
    }
}

pub fn path_matches_prefix(path: &str, prefix: &str) -> (r: bool)
    ensures
        r == under_prefix(path@, clean_prefix(prefix@)),
{
    let p = normalize_prefix(prefix);
    let cs = chars_of(path);
    if same_text(&p, "/") {
        return cs.len() > 0 && cs[0] == '/';
    }
    if !has_prefix(path, &p) {
        return false;
    }
    let n: usize = chars_of(&p).len();
    cs.len() == n || cs[n] == '/'
}

/// The length of a clean prefix in bytes.
pub open spec fn prefix_weight(prefix: Seq<char>) -> nat {
    encode_utf8(clean_prefix(prefix)).len()
}

fn normalized_prefix_len(prefix: &str) -> (r: usize)
    ensures
        r == prefix_weight(prefix@),
{
    normalize_prefix(prefix).as_str().as_bytes().len()
}

/// The group among the first `n` with the longest prefix that the path lies
/// under; of several of one length the last.
pub open spec fn best_group(groups: Seq<HttpPathGroup>, path: Seq<char>, n: int) -> Option<int>
    decreases n,
{
    if n <= 0 {
        None
    } else {
        let before = best_group(groups, path, n - 1);
        let here = groups[n - 1].prefix@;
        if !under_prefix(path, clean_prefix(here)) {
            before
        } else if before is Some && prefix_weight(groups[before->0].prefix@) > prefix_weight(here) {
            before
        } else {
            Some(n - 1)
        }
    }
}

pub fn match_path_group<'a>(path_groups: &'a Vec<HttpPathGroup>, path: &str) -> (r: Option<
    &'a HttpPathGroup,
>)
    ensures
        match best_group(path_groups@, path@, path_groups@.len() as int) {
            Some(i) => r is Some && 0 <= i < path_groups@.len() && *r->0 == path_groups@[i],
            None => r is None,
        },
{
    let n: usize = path_groups.len();
    let mut best: Option<usize> = None;
    let mut weight: usize = 0;
    for i in 0..n
        invariant
            n == path_groups@.len(),
            match best {
                Some(b) => best_group(path_groups@, path@, i as int) == Some(b as int) && b < i
                    && weight == prefix_weight(path_groups@[b as int].prefix@),
                None => best_group(path_groups@, path@, i as int) is None,
            },
    {
        let prefix = &path_groups[i].prefix;
        if path_matches_prefix(path, prefix) {
            let w: usize = normalized_prefix_len(prefix);
            if best.is_none() || w >= weight {
                best = Some(i);
                weight = w;
            }
        }
    }
    match best {
        Some(b) => Some(&path_groups[b]),
        None => None,
    }
}

/// Where a character first stands from position `i` on.
pub open spec fn find_from(s: Seq<char>, c: char, i: int) -> Option<int>
    decreases s.len() - i,
{
    if i < 0 || i >= s.len() {
        None
    } else if s[i] == c {
        Some(i)
    } else {
        find_from(s, c, i + 1)
    }
}

/// A request target taken apart at its first question mark.
pub open spec fn path_and_query(target: Seq<char>) -> (Seq<char>, Option<Seq<char>>) {
    match find_from(target, '?', 0) {
        Some(i) => (target.take(i), Some(target.skip(i + 1))),
        None => (target, None),
    }
}

/// A path with a query put behind it, where there is one.
pub open spec fn with_query(path: Seq<char>, query: Option<Seq<char>>) -> Seq<char> {
    match query {
        Some(q) => path + "?"@ + q,
        None => path,
    }
}

pub fn split_path_and_query(target: &str) -> (r: (String, Option<String>))
    ensures
        (r.0@, opt_text(r.1)) == path_and_query(target@),
{
    let cs = chars_of(target);
    let n: usize = cs.len();
    let mut i: usize = 0;
    while i < n && cs[i] != '?'
        invariant
            i <= n,
            n == cs@.len(),
            cs@ == target@,
            find_from(target@, '?', 0) == find_from(target@, '?', i as int),
        ensures
            i <= n,
            n == cs@.len(),
            cs@ == target@,
            find_from(target@, '?', 0) == (if i < n {
                Some(i as int)
            } else {
                None
            }),
        decreases n - i,
    {
        i += 1;
    }
    if i < n {
        let path = text_between(&cs, 0, i);
        let query = text_between(&cs, i + 1, n);
        proof {
            lemma_find_from_in_bounds(target@, '?', 0);
            assert(path@ =~= target@.take(i as int));
            assert(query@ =~= target@.skip(i + 1));
        }
        (path, Some(query))
    } else {
        (target.to_owned(), None)
    }
}

proof fn lemma_find_from_in_bounds(s: Seq<char>, c: char, i: int)
    ensures
        match find_from(s, c, i) {
            Some(k) => i <= k < s.len() && s[k] == c,
            None => true,
        },
    decreases s.len() - i,
{
    if 0 <= i < s.len() && s[i] != c {
        lemma_find_from_in_bounds(s, c, i + 1);
    }
}

fn join_query(path: String, query: &Option<String>) -> (r: String)
    ensures
        r@ == with_query(path@, opt_text(*query)),
{
    match query {
        Some(q) => path.concat("?").concat(q),
        None => path,
    }
}

/// A path under a clean prefix as the upstream sees it once the prefix is
/// stripped.
pub open spec fn stripped_path(path: Seq<char>, p: Seq<char>) -> Seq<char> {
    if p == "/"@ {
        path
    } else if path.len() == p.len() {
        "/"@
    } else {
        path.skip(p.len() as int)
    }
}

/// A request target with the prefix stripped from its path; one that does not
/// lie under the prefix stays as it is.
pub open spec fn rewritten(target: Seq<char>, prefix: Seq<char>) -> Seq<char> {
    let (path, query) = path_and_query(target);
    let p = clean_prefix(prefix);
    if under_prefix(path, p) {
        with_query(stripped_path(path, p), query)
    } else {
        target
    }
}

pub fn rewrite_path_and_query(path_and_query: &str, prefix: &str) -> (r: String)
    ensures
        r@ == rewritten(path_and_query@, prefix@),
{
    let (path, query) = split_path_and_query(path_and_query);
    if !path_matches_prefix(&path, prefix) {
        return path_and_query.to_owned();
    }
    let p = normalize_prefix(prefix);
    if same_text(&p, "/") {
        return join_query(path, &query);
    }
    let cs = chars_of(&path);
    let n: usize = chars_of(&p).len();
    let stripped = if cs.len() == n {
        "/".to_owned()
    } else {
        let rest = text_between(&cs, n, cs.len());
        assert(rest@ =~= path@.skip(n as int));
        rest
    };
    join_query(stripped, &query)
}

/// The request target that the upstream gets in place of the one that came:
/// none where it stays the same.
pub open spec fn upstream_target(
    target: Seq<char>,
    mode: PathRewriteMode,
    prefix: Option<Seq<char>>,
) -> Option<Seq<char>> {
    if mode is StripPrefix && prefix is Some && rewritten(target, prefix->0) != target {
        Some(rewritten(target, prefix->0))
    } else {
        None
    }
}

pub fn apply_path_rewrite(
    path_and_query: &str,
    rewrite_mode: PathRewriteMode,
    matched_prefix: Option<&str>,
) -> (r: Option<String>)
    ensures
        opt_text(r) == upstream_target(path_and_query@, rewrite_mode, opt_str(matched_prefix)),
{
    if rewrite_mode != PathRewriteMode::StripPrefix {
        return None;
    }
    match matched_prefix {
        Some(prefix) => {
            let new_target = rewrite_path_and_query(path_and_query, prefix);
            if same_text(&new_target, path_and_query) {
                None
            } else {
                Some(new_target)
            }
        },
        None => None,
    }
}

/// Where a client is sent that asks for a prefix without the slash behind it,
/// so that relative links lead below the prefix.
pub open spec fn redirect_location(target: Seq<char>, matched_prefix: Option<Seq<char>>) -> Option<
    Seq<char>,
> {
    match matched_prefix {
        None => None,
        Some(prefix) => {
            let p = clean_prefix(prefix);
            let (path, query) = path_and_query(target);
            if p == "/"@ || (p + "/"@).is_prefix_of(target) || path != p {
                None
            } else {
                Some(with_query(p + "/"@, query))
            }
        },
    }
}

pub fn trailing_slash_redirect_location(
    path_and_query: &str,
    matched_prefix: Option<&str>,
) -> (r: Option<String>)
    ensures
        opt_text(r) == redirect_location(path_and_query@, opt_str(matched_prefix)),
{
    let prefix = match matched_prefix {
        Some(prefix) => prefix,
        None => {
            return None;
        },
    };
    let p = normalize_prefix(prefix);
    let slashed = p.clone().concat("/");
    if same_text(&p, "/") || has_prefix(path_and_query, &slashed) {
        return None;
    }
    let (path, query) = split_path_and_query(path_and_query);
    if !same_text(&path, &p) {
        return None;
    }
    Some(join_query(slashed, &query))
}

proof fn lemma_find_in_front(s: Seq<char>, t: Seq<char>, c: char, i: int)
    requires
        0 <= i <= s.len(),
        !s.contains(c),
    ensures
        find_from(s + t, c, i) == (match find_from(t, c, 0) {
            Some(k) => Some(s.len() + k),
            None => None,
        }),
    decreases s.len() - i,
{
    if i < s.len() {
        assert((s + t)[i] == s[i]);
        assert(s.contains(s[i]));
        lemma_find_in_front(s, t, c, i + 1);
    } else {
        lemma_find_shift(s, t, c, 0);
    }
}

proof fn lemma_find_shift(s: Seq<char>, t: Seq<char>, c: char, i: int)
    requires
        0 <= i <= t.len(),
    ensures
        find_from(s + t, c, s.len() + i) == (match find_from(t, c, i) {
            Some(k) => Some(s.len() + k),
            None => None,
        }),
    decreases t.len() - i,
{
    if i < t.len() {
        assert((s + t)[s.len() + i] == t[i]);
        lemma_find_shift(s, t, c, i + 1);
    }
}

proof fn lemma_path_has_no_mark(target: Seq<char>, i: int)
    requires
        0 <= i <= target.len(),
        forall|k: int| 0 <= k < i ==> target[k] != '?',
    ensures
        match find_from(target, '?', i) {
            Some(k) => i <= k < target.len() && !target.take(k).contains('?'),
            None => !target.contains('?'),
        },
    decreases target.len() - i,
{
    if i < target.len() {
        if target[i] != '?' {
            lemma_path_has_no_mark(target, i + 1);
        } else {
            assert(!target.take(i).contains('?'));
        }
    } else {
        assert(!target.contains('?'));
    }
}

/// The path of a request target holds no question mark, and the path and the
/// query put together again are the target.
pub proof fn law_target_reassembles(target: Seq<char>)
    ensures
        !path_and_query(target).0.contains('?'),
        with_query(path_and_query(target).0, path_and_query(target).1) == target,
{
    reveal_strlit("?");
    lemma_path_has_no_mark(target, 0);
    lemma_find_from_in_bounds(target, '?', 0);
    if let Some(i) = find_from(target, '?', 0) {
        assert(target.take(i) + "?"@ + target.skip(i + 1) =~= target);
    }
}

/// A client that follows the redirect is not redirected again: the new target
/// lies under the same prefix, with the same query.
pub proof fn law_redirect_happens_once(target: Seq<char>, prefix: Seq<char>)
    requires
        redirect_location(target, Some(prefix)) is Some,
    ensures
        ({
            let location = redirect_location(target, Some(prefix))->0;
            &&& redirect_location(location, Some(prefix)) is None
            &&& under_prefix(path_and_query(location).0, clean_prefix(prefix))
            &&& path_and_query(location).1 == path_and_query(target).1
        }),
{
    reveal_strlit("?");
    reveal_strlit("/");
    let p = clean_prefix(prefix);
    let (path, query) = path_and_query(target);
    law_target_reassembles(target);
    let slashed = p + "/"@;
    let location = with_query(slashed, query);
    assert(slashed.is_prefix_of(location)) by {
        assert(location.subrange(0, slashed.len() as int) =~= slashed);
    }
    assert(!slashed.contains('?')) by {
        if slashed.contains('?') {
            let k = choose|k: int| 0 <= k < slashed.len() && slashed[k] == '?';
            if k < p.len() {
                assert(p[k] == '?');
                assert(path.contains('?'));
            }
        }
    }
    match query {
        Some(q) => {
            let tail = "?"@ + q;
            assert(location =~= slashed + tail);
            lemma_find_in_front(slashed, tail, '?', 0);
            assert(tail[0] == '?');
            assert(find_from(tail, '?', 0) == Some(0int));
            assert(location.take(slashed.len() as int) =~= slashed);
            assert(location.skip((slashed.len() + 1) as int) =~= q);
        },
        None => {
            lemma_find_from_in_bounds(location, '?', 0);
        },
    }
    assert(path_and_query(location) == (slashed, query));
    assert(p.is_prefix_of(slashed));
    assert(slashed.subrange(0, p.len() as int) =~= p);
    assert(slashed[p.len() as int] == '/');
}

/// The upstream gets a path that starts with a slash, wherever the client's
/// does and it lies under the prefix.
pub proof fn law_stripped_path_is_rooted(path: Seq<char>, prefix: Seq<char>)
    requires
        under_prefix(path, clean_prefix(prefix)),
        path.len() > 0,
        path[0] == '/',
    ensures
        stripped_path(path, clean_prefix(prefix)).len() > 0,
        stripped_path(path, clean_prefix(prefix))[0] == '/',
{
    reveal_strlit("/");
}

/// A path lies under a prefix other than the root exactly where it is the
/// prefix, or the prefix with a slash and anything behind it; and under the
/// root where it starts with a slash.
pub proof fn law_prefix_ends_at_a_slash(p: Seq<char>, tail: Seq<char>, path: Seq<char>)
    ensures
        p != "/"@ ==> (under_prefix(p + tail, p) <==> tail.len() == 0 || tail[0] == '/'),
        p != "/"@ && !p.is_prefix_of(path) ==> !under_prefix(path, p),
        under_prefix(path, "/"@) <==> path.len() > 0 && path[0] == '/',
{
    let whole = p + tail;
    assert(whole.subrange(0, p.len() as int) =~= p);
    if tail.len() > 0 {
        assert(whole[p.len() as int] == tail[0]);
    }
}

/// A clean prefix is the root where the prefix without the white space around
/// it is the root; any other is what stands in front of the slashes at the end
/// of that.
pub proof fn law_clean_prefix(prefix: Seq<char>)
    ensures
        ({
            let t = trimmed(prefix);
            let p = clean_prefix(prefix);
            &&& t == "/"@ ==> p == "/"@
            &&& t != "/"@ ==> {
                &&& p.len() <= t.len()
                &&& p == t.take(p.len() as int)
                &&& p.len() > 0 ==> p.last() != '/'
                &&& forall|i: int| p.len() <= i < t.len() ==> #[trigger] t[i] == '/'
            }
        }),
{
    crate::text::law_without_trailing(trimmed(prefix), '/');
}

proof fn lemma_take_apart(path: Seq<char>, query: Option<Seq<char>>)
    requires
        !path.contains('?'),
    ensures
        path_and_query(with_query(path, query)) == (path, query),
{
    reveal_strlit("?");
    match query {
        Some(q) => {
            let tail = "?"@ + q;
            let whole = with_query(path, query);
            assert(whole =~= path + tail);
            lemma_find_in_front(path, tail, '?', 0);
            assert(tail[0] == '?');
            assert(find_from(tail, '?', 0) == Some(0int));
            assert(whole.take(path.len() as int) =~= path);
            assert(whole.skip((path.len() + 1) as int) =~= q);
        },
        None => {
            lemma_find_from_in_bounds(path, '?', 0);
        },
    }
}

/// A path without a question mark and a query put behind it are taken apart
/// into the two again.
pub proof fn law_path_and_query_come_apart(path: Seq<char>, query: Option<Seq<char>>)
    requires
        !path.contains('?'),
    ensures
        path_and_query(with_query(path, query)) == (path, query),
        with_query(path, None) == path,
        query matches Some(q) ==> with_query(path, query) == path + seq!['?'] + q,
{
    reveal_strlit("?");
    lemma_take_apart(path, query);
    assert("?"@ =~= seq!['?']);
}

/// Stripping a prefix other than the root takes it off the front of the path,
/// leaves a slash where nothing else is left, and keeps the query. A path that
/// goes on with something else than a slash is not under the prefix and stays,
/// and so does every path under the root.
pub proof fn law_prefix_is_stripped(prefix: Seq<char>, tail: Seq<char>, query: Option<Seq<char>>)
    requires
        !clean_prefix(prefix).contains('?'),
        !tail.contains('?'),
    ensures
        ({
            let p = clean_prefix(prefix);
            let target = with_query(p + tail, query);
            if p == "/"@ {
                rewritten(target, prefix) == target
            } else if tail.len() == 0 {
                rewritten(target, prefix) == with_query(seq!['/'], query)
            } else if tail[0] == '/' {
                rewritten(target, prefix) == with_query(tail, query)
            } else {
                rewritten(target, prefix) == target
            }
        }),
{
    reveal_strlit("/");
    let p = clean_prefix(prefix);
    let path = p + tail;
    lemma_no_mark(p, tail);
    lemma_take_apart(path, query);
    law_prefix_ends_at_a_slash(p, tail, path);
    assert("/"@ =~= seq!['/']);
    assert(path.skip(p.len() as int) =~= tail);
    assert(path[0] == if p.len() > 0 {
        p[0]
    } else {
        tail[0]
    });
}

proof fn lemma_no_mark(a: Seq<char>, b: Seq<char>)
    requires
        !a.contains('?'),
        !b.contains('?'),
    ensures
        !(a + b).contains('?'),
{
    let whole = a + b;
    if whole.contains('?') {
        let k = choose|k: int| 0 <= k < whole.len() && whole[k] == '?';
        if k < a.len() {
            assert(a[k] == '?');
        } else {
            assert(b[k - a.len()] == '?');
        }
    }
}

/// A target whose path does not start with the prefix stays as it is, and is
/// not redirected.
pub proof fn law_other_paths_stay(prefix: Seq<char>, path: Seq<char>, query: Option<Seq<char>>)
    requires
        !path.contains('?'),
        !clean_prefix(prefix).is_prefix_of(path),
    ensures
        rewritten(with_query(path, query), prefix) == with_query(path, query),
        redirect_location(with_query(path, query), Some(prefix)) is None,
{
    reveal_strlit("/");
    lemma_take_apart(path, query);
    let p = clean_prefix(prefix);
    if p == "/"@ && path.len() > 0 && path[0] == '/' {
        assert(path.subrange(0, 1) =~= "/"@);
    }
    if path == p {
        assert(path.subrange(0, p.len() as int) =~= p);
    }
}

/// A client that asks for a prefix other than the root, with or without a
/// query, is sent to the prefix with a slash behind it and the same query; one
/// that asks for anything longer is not.
pub proof fn law_bare_prefix_is_redirected(
    prefix: Seq<char>,
    tail: Seq<char>,
    query: Option<Seq<char>>,
)
    requires
        !clean_prefix(prefix).contains('?'),
        !tail.contains('?'),
    ensures
        ({
            let p = clean_prefix(prefix);
            let location = redirect_location(with_query(p + tail, query), Some(prefix));
            if p != "/"@ && tail.len() == 0 {
                location == Some(with_query(p + seq!['/'], query))
            } else {
                location is None
            }
        }),
        redirect_location(tail, None) is None,
{
    reveal_strlit("/");
    reveal_strlit("?");
    let p = clean_prefix(prefix);
    let path = p + tail;
    let target = with_query(path, query);
    lemma_no_mark(p, tail);
    lemma_take_apart(path, query);
    assert("/"@ =~= seq!['/']);
    if tail.len() == 0 {
        assert(path =~= p);
        let slashed = p + "/"@;
        if slashed.is_prefix_of(target) {
            assert(target.subrange(0, slashed.len() as int)[p.len() as int] == '/');
            assert(target[p.len() as int] == '/');
            if let Some(q) = query {
                assert(target[p.len() as int] == '?');
            }
        }
    } else {
        assert(path.len() != p.len());
    }
}

/// Only where prefixes are stripped, one is matched and stripping it changes
/// anything, the upstream gets another target, and that is the stripped one.
pub proof fn law_only_stripping_rewrites(
    target: Seq<char>,
    mode: PathRewriteMode,
    prefix: Option<Seq<char>>,
)
    ensures
        mode == PathRewriteMode::Preserve ==> upstream_target(target, mode, prefix) is None,
        prefix is None ==> upstream_target(target, mode, prefix) is None,
        mode == PathRewriteMode::StripPrefix && prefix is Some ==> (match upstream_target(
            target,
            mode,
            prefix,
        ) {
            Some(t) => t == rewritten(target, prefix->0) && t != target,
            None => rewritten(target, prefix->0) == target,
        }),
{
}

} // verus!
