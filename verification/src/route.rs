//! Choosing the forwarding rule for a path, and the address a request is
//! forwarded to.

use crate::config::{Config, ProxyTarget, ProxyTargetView};
use crate::text::{chars_of, starts_with};
use vstd::prelude::*;
use vstd::string::*;

verus! {

/// A rule matches the paths that start with its source prefix, character by
/// character: nothing is normalised or decoded before the comparison.
pub open spec fn target_matches(target: ProxyTargetView, path: Seq<char>) -> bool {
    target.source_path.is_prefix_of(path)
}

/// The rule at `i` matches `path`, and no rule before it does.
pub open spec fn is_first_match(targets: Seq<ProxyTargetView>, path: Seq<char>, i: int) -> bool {
    &&& 0 <= i < targets.len()
    &&& target_matches(targets[i], path)
    &&& forall|j: int| 0 <= j < i ==> !target_matches(#[trigger] targets[j], path)
}

/// The position of the rule that serves `path`: the first one that matches.
pub open spec fn first_match(targets: Seq<ProxyTargetView>, path: Seq<char>) -> Option<int> {
    if exists|i: int| is_first_match(targets, path, i) {
        Some(choose|i: int| is_first_match(targets, path, i))
    } else {
        None
    }
}

/// The path with the rule's source prefix replaced by its destination
/// prefix. The replacement is by position: what follows the prefix is kept as
/// it is, whether or not the prefix ended at a segment boundary.
pub open spec fn rewritten_path(target: ProxyTargetView, path: Seq<char>) -> Seq<char>
    recommends
        target.source_path.len() <= path.len(),
{
    target.dest_path + path.subrange(target.source_path.len() as int, path.len() as int)
}

/// The scheme and its separator.
pub open spec fn scheme(secure: bool) -> Seq<char> {
    if secure {
        "https://"@
    } else {
        "http://"@
    }
}

/// The query as it is written behind a path.
pub open spec fn query_suffix(query: Option<Seq<char>>) -> Seq<char> {
    match query {
        Some(q) => "?"@ + q,
        None => Seq::empty(),
    }
}

/// The address that a request for `path` and `query` is forwarded to under `target`.
pub open spec fn target_url(
    target: ProxyTargetView,
    path: Seq<char>,
    query: Option<Seq<char>>,
) -> Seq<char>
    recommends
        target.source_path.len() <= path.len(),
{
    scheme(target.secure) + target.host + rewritten_path(target, path) + query_suffix(query)
}

/// The first match is the only position that is a first match.
pub proof fn first_match_is_unique(targets: Seq<ProxyTargetView>, path: Seq<char>, i: int)
    requires
        is_first_match(targets, path, i),
    ensures
        first_match(targets, path) == Some(i),
{
    let k = choose|k: int| is_first_match(targets, path, k);
    if k < i {
        assert(!target_matches(targets[k], path));
    }
    if i < k {
        assert(!target_matches(targets[i], path));
    }
}

/// There is no first match exactly when no rule matches.
pub proof fn first_match_none_iff_no_match(targets: Seq<ProxyTargetView>, path: Seq<char>)
    ensures
        first_match(targets, path) is None <==> forall|i: int|
            0 <= i < targets.len() ==> !target_matches(#[trigger] targets[i], path),
{
    if exists|i: int| 0 <= i < targets.len() && target_matches(#[trigger] targets[i], path) {
        let k = choose|i: int| 0 <= i < targets.len() && target_matches(#[trigger] targets[i], path);
        some_match_has_first(targets, path, k);
    }
    if first_match(targets, path) is Some {
        let i = choose|i: int| is_first_match(targets, path, i);
        assert(target_matches(targets[i], path));
    }
}

proof fn some_match_has_first(targets: Seq<ProxyTargetView>, path: Seq<char>, k: int)
    requires
        0 <= k < targets.len(),
        target_matches(targets[k], path),
    ensures
        exists|i: int| is_first_match(targets, path, i),
    decreases k,
{
    if forall|j: int| 0 <= j < k ==> !target_matches(#[trigger] targets[j], path) {
        assert(is_first_match(targets, path, k));
    } else {
        let j = choose|j: int| 0 <= j < k && target_matches(#[trigger] targets[j], path);
        some_match_has_first(targets, path, j);
    }
}

/// The rule that serves `uri`: the first of the configured rules whose source
/// prefix `uri` starts with.
pub fn find_target<'a>(config: &'a Config, uri: &str) -> (found: Option<&'a ProxyTarget>)
    ensures
        match found {
            Some(target) => first_match(config@.targets, uri@) matches Some(i) && *target
                == config.targets@[i] && target@ == config@.targets[i],
            None => first_match(config@.targets, uri@) is None,
        },
{
    let path = chars_of(uri);
    let mut i: usize = 0;
    while i < config.targets.len()
        invariant
            path@ == uri@,
            i <= config.targets.len(),
            forall|j: int| 0 <= j < i ==> !target_matches(#[trigger] config@.targets[j], uri@),
        decreases config.targets.len() - i,
    {
        let target = &config.targets[i];
        if starts_with(&path, target.source_path.as_str()) {
            proof {
                assert(is_first_match(config@.targets, uri@, i as int));
                first_match_is_unique(config@.targets, uri@, i as int);
            }
            return Some(target);
        }
        i += 1;
    }
    proof {
        first_match_none_iff_no_match(config@.targets, uri@);
    }
    None
}

/// Puts the rule's destination prefix in the place of as many characters at
/// the start of `path` as the rule's source prefix has.
pub fn rewrite_path(target: &ProxyTarget, path: &str) -> (rewritten: String)
    requires
        target@.source_path.len() <= path@.len(),
    ensures
        rewritten@ == rewritten_path(target@, path@),
{
    let from = target.source_path.as_str().unicode_len();
    let rest = path.substring_char(from, path.unicode_len());
    let mut rewritten = target.dest_path.clone();
    rewritten.append(rest);
    rewritten
}

/// The scheme and its separator, for a plain or a secured connection.
pub fn scheme_of(secure: bool) -> (s: &'static str)
    ensures
        s@ == scheme(secure),
{
    if secure {
        "https://"
    } else {
        "http://"
    }
}

/// The address that a request for `path` and `query` is forwarded to under
/// `target`: scheme, host, rewritten path, and the query if there is one.
pub fn build_url(target: &ProxyTarget, path: &str, query: &Option<String>) -> (url: String)
    requires
        target@.source_path.len() <= path@.len(),
    ensures
        url@ == target_url(target@, path@, query.deep_view()),
{
    let mut url = String::from_str(scheme_of(target.secure));
    url.append(target.host.as_str());
    let rewritten = rewrite_path(target, path);
    url.append(rewritten.as_str());
    match query {
        Some(q) => {
            url.append("?");
            url.append(q.as_str());
            assert(url@ =~= target_url(target@, path@, query.deep_view()));
        },
        None => {
            assert(url@ =~= target_url(target@, path@, query.deep_view()));
        },
    }
    url
}

} // verus!
