//! Route-template matching: a URL path against a parameterized
//! pattern such as `/foo/:id`.
//!
//! Both the path and the template are split into their non-empty
//! `/`-separated segments, so consecutive or trailing slashes carry
//! no weight on either side.  A template segment beginning with `:`
//! matches any path segment; every other template segment must equal
//! the path segment exactly (case-sensitive, no normalization).  A
//! match yields the template itself: many concrete URLs collapse to
//! one template identity, which the crawler uses as a dedup key.

use vstd::prelude::*;
use crate::seqs::lemma_filter_push;
use crate::text::{find_at, lemma_find_at};
use crate::urls::PageUrl;
use vstd::string::StrSliceExecFns;

verus! {

/// The views of a sequence of strings.
pub open spec fn str_views(v: Seq<String>) -> Seq<Seq<char>> {
    v.map_values(|s: String| s@)
}

/// `s` split on `/` separators; like `str::split`, the result always
/// holds at least one (possibly empty) piece.
pub open spec fn split_slash(s: Seq<char>) -> Seq<Seq<char>>
    decreases s.len(),
    via split_slash_decreases
{
    match find_at(s, seq!['/'], 0) {
        Option::None => seq![s],
        Option::Some(i) => seq![s.take(i)] + split_slash(s.skip(i + 1)),
    }
}

#[via_fn]
proof fn split_slash_decreases(s: Seq<char>) {
    lemma_find_at(s, seq!['/'], 0);
}

/// The non-empty `/`-separated segments of a path or template.
pub open spec fn nonempty_segments(s: Seq<char>) -> Seq<Seq<char>> {
    split_slash(s).filter(|t: Seq<char>| t.len() > 0)
}

/// One template segment against one path segment: a leading `:`
/// makes the template segment a wildcard, anything else must be an
/// exact, case-sensitive match.
pub open spec fn seg_matches(pseg: Seq<char>, useg: Seq<char>) -> bool {
    (pseg.len() > 0 && pseg[0] == ':') || pseg == useg
}

/// Whether the path matches the route template: the path must start
/// with `/` (as the path of any URL that has path segments does), and
/// the template's non-empty segments must match the path's non-empty
/// segments one to one.
pub open spec fn pattern_matches(path: Seq<char>, p: Seq<char>) -> bool {
    &&& path.len() > 0
    &&& path[0] == '/'
    &&& {
        let ps = nonempty_segments(p);
        let us = nonempty_segments(path);
        ps.len() == us.len() && (forall|i: int| 0 <= i < ps.len() ==> seg_matches(ps[i], us[i]))
    }
}

/// The first template in configured order that the path matches.
pub open spec fn first_match(path: Seq<char>, patterns: Seq<Seq<char>>) -> Option<Seq<char>>
    decreases patterns.len(),
{
    if patterns.len() == 0 {
        Option::None
    } else if pattern_matches(path, patterns[0]) {
        Option::Some(patterns[0])
    } else {
        first_match(path, patterns.skip(1))
    }
}

/// Split `s` on every `/`, keeping empty pieces.
fn split_slash_str(s: &str) -> (r: Vec<String>)
    ensures
        str_views(r@) == split_slash(s@),
{
    let mut parts: Vec<String> = Vec::new();
    let mut rest: &str = s;
    proof {
        assert(str_views(parts@) + split_slash(rest@) =~= split_slash(s@));
    }
    loop
        invariant_except_break
            str_views(parts@) + split_slash(rest@) == split_slash(s@),
        ensures
            str_views(parts@) == split_slash(s@),
        decreases rest@.len(),
    {
        let sep = "/";
        proof {
            reveal_strlit("/");
            assert(sep@ =~= seq!['/']);
        }
        match crate::text::find_from(rest, sep, 0) {
            None => {
                let ghost old_parts = parts@;
                let ghost old_rest = rest@;
                parts.push(rest.to_owned());
                proof {
                    assert(split_slash(old_rest) == seq![old_rest]);
                    assert(str_views(parts@) =~= str_views(old_parts).push(old_rest));
                    assert(str_views(parts@) =~= str_views(old_parts) + seq![old_rest]);
                }
                break;
            },
            Some(i) => {
                let ghost old_parts = parts@;
                let ghost old_rest = rest@;
                proof {
                    lemma_find_at(rest@, seq!['/'], 0);
                }
                let head = rest.substring_char(0, i);
                parts.push(head.to_owned());
                let rlen = rest.unicode_len();
                rest = rest.substring_char(i + 1, rlen);
                proof {
                    assert(split_slash(old_rest) == seq![old_rest.take(i as int)] + split_slash(
                        old_rest.skip(i + 1),
                    ));
                    assert(str_views(parts@) =~= str_views(old_parts).push(old_rest.take(i as int)));
                    assert(str_views(parts@) + split_slash(rest@) =~= str_views(old_parts)
                        + split_slash(old_rest));
                }
            },
        }
    }
    parts
}

/// Split a path or template into its non-empty segments.
fn split_segments(s: &str) -> (r: Vec<String>)
    ensures
        str_views(r@) == nonempty_segments(s@),
{
    let all = split_slash_str(s);
    let mut out: Vec<String> = Vec::new();
    let mut i: usize = 0;
    proof {
        assert(str_views(all@).take(0) =~= Seq::<Seq<char>>::empty());
        assert(Seq::<Seq<char>>::empty().filter(|t: Seq<char>| t.len() > 0)
            =~= Seq::<Seq<char>>::empty()) by {
            reveal(Seq::filter);
        }
        assert(str_views(out@) =~= Seq::<Seq<char>>::empty());
    }
    while i < all.len()
        invariant
            i <= all@.len(),
            str_views(all@) == split_slash(s@),
            str_views(out@) == str_views(all@).take(i as int).filter(|t: Seq<char>| t.len() > 0),
        decreases all@.len() - i,
    {
        let ghost pred = |t: Seq<char>| t.len() > 0;
        let ghost taken = str_views(all@).take(i as int);
        let part = &all[i];
        let ghost old_out = out@;
        if !part.as_str().is_empty() {
            out.push(part.clone());
        }
        proof {
            lemma_filter_push(taken, all@[i as int]@, pred);
            assert(str_views(all@).take(i + 1) =~= taken.push(all@[i as int]@));
            if pred(all@[i as int]@) {
                assert(str_views(out@) =~= str_views(old_out).push(all@[i as int]@));
            }
        }
        i = i + 1;
    }
    proof {
        assert(str_views(all@).take(all@.len() as int) =~= str_views(all@));
    }
    out
}

/// Match a URL path against one route template; a match returns the
/// template itself.
pub(crate) fn match_path_pattern(path: &str, pattern: &str) -> (r: Option<String>)
    ensures
        r is Some <==> pattern_matches(path@, pattern@),
        r matches Some(p) ==> p@ == pattern@,
{
    let plen = path.unicode_len();
    if plen == 0 || path.get_char(0) != '/' {
        return None;
    }
    let psegs = split_segments(pattern);
    let usegs = split_segments(path);
    if psegs.len() != usegs.len() {
        return None;
    }
    let n = psegs.len();
    let mut i: usize = 0;
    while i < n
        invariant
            i <= n,
            n == psegs@.len() == usegs@.len(),
            str_views(psegs@) == nonempty_segments(pattern@),
            str_views(usegs@) == nonempty_segments(path@),
            forall|j: int|
                0 <= j < i ==> seg_matches(str_views(psegs@)[j], str_views(usegs@)[j]),
        decreases n - i,
    {
        let pseg = &psegs[i];
        let wild = pseg.as_str().unicode_len() > 0 && pseg.as_str().get_char(0) == ':';
        if !wild {
            if !(psegs[i] == usegs[i]) {
                proof {
                    assert(!seg_matches(str_views(psegs@)[i as int], str_views(usegs@)[i as int]));
                }
                return None;
            }
        }
        i = i + 1;
    }
    Some(pattern.to_owned())
}

/// The first template in `patterns` that the path matches, in
/// configured order.
pub(crate) fn find_first_pattern(path: &str, patterns: &Vec<String>) -> (r: Option<String>)
    ensures
        match r {
            Some(p) => first_match(path@, str_views(patterns@)) == Some(p@),
            None => first_match(path@, str_views(patterns@)) is None,
        },
{
    let ghost views = str_views(patterns@);
    let mut i: usize = 0;
    proof {
        assert(views.skip(0) =~= views);
    }
    while i < patterns.len()
        invariant
            i <= patterns@.len(),
            views == str_views(patterns@),
            first_match(path@, views) == first_match(path@, views.skip(i as int)),
        decreases patterns@.len() - i,
    {
        let r = match_path_pattern(path, patterns[i].as_str());
        proof {
            assert(views.skip(i as int)[0] == views[i as int]);
        }
        match r {
            Some(p) => {
                return Some(p);
            },
            None => {},
        }
        proof {
            assert(views.skip(i as int).skip(1) =~= views.skip(i + 1));
        }
        i = i + 1;
    }
    proof {
        assert(views.skip(i as int).len() == 0);
    }
    None
}

/// Match one URL against one route template, as the crawler does.
pub fn match_dynamic_url_pattern(url: &PageUrl, pattern: &str) -> (r: Option<String>)
    ensures
        r is Some <==> pattern_matches(url.path@, pattern@),
        r matches Some(p) ==> p@ == pattern@,
{
    match_path_pattern(url.path.as_str(), pattern)
}

/// The first configured route template that a URL matches, used as
/// its dedup key.
pub fn get_pattern(url: &PageUrl, patterns: &Vec<String>) -> (r: Option<String>)
    ensures
        match r {
            Some(p) => first_match(url.path@, str_views(patterns@)) == Some(p@),
            None => first_match(url.path@, str_views(patterns@)) is None,
        },
{
    find_first_pattern(url.path.as_str(), patterns)
}

} // verus!
