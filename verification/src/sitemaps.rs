//! Sitemap documents: extracting `<loc>` entries and removing exact
//! duplicates.
//!
//! A sitemap document is scanned for `<loc>` elements; the text of
//! each is kept when it parses as an absolute URL and silently
//! skipped otherwise, so one malformed entry never fails the
//! document.

use vstd::prelude::*;
use crate::pattern::str_views;
use crate::seqs::lemma_filter_push;
use crate::text::{find_at, lemma_find_at, sub_at};
use crate::urls::{parse_url, url_accepted};

verus! {

/// The opening tag the scanner looks for.
pub open spec fn open_tag() -> Seq<char> {
    seq!['<', 'l', 'o', 'c', '>']
}

/// The closing tag that ends a `<loc>` element.
pub open spec fn close_tag() -> Seq<char> {
    seq!['<', '/', 'l', 'o', 'c', '>']
}

/// The texts of the `<loc>` elements of a document, in order: for
/// each `<loc>` the text up to the next `</loc>`, with anything after
/// an unterminated `<loc>` discarded.
pub open spec fn locs_of(s: Seq<char>) -> Seq<Seq<char>>
    decreases s.len(),
    via locs_of_decreases
{
    match find_at(s, open_tag(), 0) {
        Option::None => Seq::empty(),
        Option::Some(i) => {
            let rest = s.skip(i + open_tag().len());
            match find_at(rest, close_tag(), 0) {
                Option::None => Seq::empty(),
                Option::Some(j) => seq![rest.take(j)] + locs_of(rest.skip(j + close_tag().len())),
            }
        },
    }
}

#[via_fn]
proof fn locs_of_decreases(s: Seq<char>) {
    lemma_find_at(s, open_tag(), 0);
    match find_at(s, open_tag(), 0) {
        Option::None => {},
        Option::Some(i) => {
            lemma_find_at(s.skip(i + open_tag().len()), close_tag(), 0);
        },
    }
}

/// `&amp;` as it stands in a document.
pub open spec fn amp_ref() -> Seq<char> {
    seq!['&', 'a', 'm', 'p', ';']
}

/// `&lt;` as it stands in a document.
pub open spec fn lt_ref() -> Seq<char> {
    seq!['&', 'l', 't', ';']
}

/// `&gt;` as it stands in a document.
pub open spec fn gt_ref() -> Seq<char> {
    seq!['&', 'g', 't', ';']
}

/// `&apos;` as it stands in a document.
pub open spec fn apos_ref() -> Seq<char> {
    seq!['&', 'a', 'p', 'o', 's', ';']
}

/// `&quot;` as it stands in a document.
pub open spec fn quot_ref() -> Seq<char> {
    seq!['&', 'q', 'u', 'o', 't', ';']
}

/// The element text with XML's five predefined character references
/// decoded; everything else is copied as written.
pub open spec fn decode_entities(t: Seq<char>) -> Seq<char>
    decreases t.len(),
{
    if t.len() == 0 {
        t
    } else if sub_at(t, amp_ref(), 0) {
        seq!['&'] + decode_entities(t.skip(5))
    } else if sub_at(t, lt_ref(), 0) {
        seq!['<'] + decode_entities(t.skip(4))
    } else if sub_at(t, gt_ref(), 0) {
        seq!['>'] + decode_entities(t.skip(4))
    } else if sub_at(t, apos_ref(), 0) {
        seq!['\''] + decode_entities(t.skip(6))
    } else if sub_at(t, quot_ref(), 0) {
        seq!['"'] + decode_entities(t.skip(6))
    } else {
        seq![t[0]] + decode_entities(t.skip(1))
    }
}

/// The extracted URL list of a document: its `<loc>` texts, character
/// references decoded, that parse as absolute URLs, in document
/// order.
pub open spec fn valid_locs(s: Seq<char>) -> Seq<Seq<char>> {
    locs_of(s).map_values(|t: Seq<char>| decode_entities(t)).filter(
        |t: Seq<char>| url_accepted(t),
    )
}

/// Decode the five predefined XML character references in one
/// element text.
fn decode_entities_str(s: &str) -> (r: String)
    ensures
        r@ == decode_entities(s@),
{
    let mut out = String::new();
    let mut rest: &str = s;
    proof {
        assert(out@ + decode_entities(rest@) =~= decode_entities(s@));
    }
    loop
        invariant_except_break
            out@ + decode_entities(rest@) == decode_entities(s@),
        ensures
            out@ == decode_entities(s@),
        decreases rest@.len(),
    {
        let rlen = rest.unicode_len();
        if rlen == 0 {
            proof {
                assert(out@ =~= out@ + decode_entities(rest@));
            }
            break;
        }
        let ghost old_out = out@;
        let ghost old_rest = rest@;
        proof {
            reveal_strlit("&amp;");
            reveal_strlit("&lt;");
            reveal_strlit("&gt;");
            reveal_strlit("&apos;");
            reveal_strlit("&quot;");
            reveal_strlit("&");
            reveal_strlit("<");
            reveal_strlit(">");
            reveal_strlit("'");
            reveal_strlit("\"");
            assert("&amp;"@ =~= amp_ref());
            assert("&lt;"@ =~= lt_ref());
            assert("&gt;"@ =~= gt_ref());
            assert("&apos;"@ =~= apos_ref());
            assert("&quot;"@ =~= quot_ref());
            assert("&"@ =~= seq!['&']);
            assert("<"@ =~= seq!['<']);
            assert(">"@ =~= seq!['>']);
            assert("'"@ =~= seq!['\'']);
            assert("\""@ =~= seq!['"']);
        }
        if rlen >= 5 && crate::text::match_at(rest, "&amp;", 0) {
            out.append("&");
            rest = rest.substring_char(5, rlen);
            proof {
                assert(rest@ =~= old_rest.skip(5));
                assert(out@ + decode_entities(rest@) =~= old_out + decode_entities(old_rest));
            }
        } else if rlen >= 4 && crate::text::match_at(rest, "&lt;", 0) {
            out.append("<");
            rest = rest.substring_char(4, rlen);
            proof {
                assert(rest@ =~= old_rest.skip(4));
                assert(out@ + decode_entities(rest@) =~= old_out + decode_entities(old_rest));
            }
        } else if rlen >= 4 && crate::text::match_at(rest, "&gt;", 0) {
            out.append(">");
            rest = rest.substring_char(4, rlen);
            proof {
                assert(rest@ =~= old_rest.skip(4));
                assert(out@ + decode_entities(rest@) =~= old_out + decode_entities(old_rest));
            }
        } else if rlen >= 6 && crate::text::match_at(rest, "&apos;", 0) {
            out.append("'");
            rest = rest.substring_char(6, rlen);
            proof {
                assert(rest@ =~= old_rest.skip(6));
                assert(out@ + decode_entities(rest@) =~= old_out + decode_entities(old_rest));
            }
        } else if rlen >= 6 && crate::text::match_at(rest, "&quot;", 0) {
            out.append("\"");
            rest = rest.substring_char(6, rlen);
            proof {
                assert(rest@ =~= old_rest.skip(6));
                assert(out@ + decode_entities(rest@) =~= old_out + decode_entities(old_rest));
            }
        } else {
            let head = rest.substring_char(0, 1);
            out.append(head);
            rest = rest.substring_char(1, rlen);
            proof {
                assert(head@ =~= seq![old_rest[0]]);
                assert(rest@ =~= old_rest.skip(1));
                assert(out@ + decode_entities(rest@) =~= old_out + decode_entities(old_rest));
            }
        }
    }
    out
}

/// Every entry of the extracted URL list parses as an absolute URL.
pub proof fn lemma_valid_locs_accepted(doc: Seq<char>, i: int)
    requires
        0 <= i < valid_locs(doc).len(),
    ensures
        url_accepted(valid_locs(doc)[i]),
{
    locs_of(doc).map_values(|t: Seq<char>| decode_entities(t)).lemma_filter_pred(
        |t: Seq<char>| url_accepted(t),
        i,
    );
}

/// Scan a sitemap document and collect the text of every `<loc>`
/// element — character references decoded — that parses as an
/// absolute URL.  A malformed entry is skipped; it neither aborts
/// the scan nor appears in the result.
pub fn extract_loc_urls(xml_string: &str) -> (r: Vec<String>)
    ensures
        str_views(r@) == valid_locs(xml_string@),
{
    let mut urls: Vec<String> = Vec::new();
    let mut rest: &str = xml_string;
    proof {
        assert(str_views(urls@) + valid_locs(rest@) =~= valid_locs(xml_string@));
    }
    loop
        invariant_except_break
            str_views(urls@) + valid_locs(rest@) == valid_locs(xml_string@),
        ensures
            str_views(urls@) == valid_locs(xml_string@),
        decreases rest@.len(),
    {
        let open = "<loc>";
        let close = "</loc>";
        proof {
            reveal_strlit("<loc>");
            reveal_strlit("</loc>");
            assert(open@ =~= open_tag());
            assert(close@ =~= close_tag());
        }
        match crate::text::find_from(rest, open, 0) {
            None => {
                proof {
                    assert(valid_locs(rest@) =~= Seq::<Seq<char>>::empty()) by {
                        reveal(Seq::filter);
                    }
                    assert(str_views(urls@) =~= str_views(urls@) + valid_locs(rest@));
                }
                break;
            },
            Some(i) => {
                proof {
                    lemma_find_at(rest@, open_tag(), 0);
                }
                let rlen = rest.unicode_len();
                let after = rest.substring_char(i + 5, rlen);
                proof {
                    assert(after@ =~= rest@.skip(i + 5));
                }
                match crate::text::find_from(after, close, 0) {
                    None => {
                        proof {
                            assert(valid_locs(rest@) =~= Seq::<Seq<char>>::empty()) by {
                                reveal(Seq::filter);
                            }
                            assert(str_views(urls@) =~= str_views(urls@) + valid_locs(rest@));
                        }
                        break;
                    },
                    Some(j) => {
                        proof {
                            lemma_find_at(after@, close_tag(), 0);
                        }
                        let text = after.substring_char(0, j);
                        let alen = after.unicode_len();
                        let new_rest = after.substring_char(j + 6, alen);
                        let ghost old_urls = urls@;
                        let ghost old_rest = rest@;
                        let decoded = decode_entities_str(text);
                        let keep = match parse_url(decoded.as_str()) {
                            Some(_) => true,
                            None => false,
                        };
                        if keep {
                            urls.push(decoded);
                        }
                        rest = new_rest;
                        proof {
                            let accept = |t: Seq<char>| url_accepted(t);
                            let dec = |t: Seq<char>| decode_entities(t);
                            let d = decode_entities(text@);
                            assert(text@ =~= old_rest.skip(i + 5).take(j as int));
                            assert(rest@ =~= old_rest.skip(i + 5).skip(j + close_tag().len()));
                            assert(locs_of(old_rest) == seq![text@] + locs_of(rest@));
                            assert(locs_of(old_rest).map_values(dec) =~= seq![d] + locs_of(
                                rest@,
                            ).map_values(dec));
                            Seq::filter_distributes_over_add(
                                seq![d],
                                locs_of(rest@).map_values(dec),
                                accept,
                            );
                            assert(seq![d] =~= Seq::<Seq<char>>::empty().push(d));
                            lemma_filter_push(Seq::<Seq<char>>::empty(), d, accept);
                            assert(Seq::<Seq<char>>::empty().filter(accept)
                                =~= Seq::<Seq<char>>::empty()) by {
                                reveal(Seq::filter);
                            }
                            let kept = if accept(d) {
                                seq![d]
                            } else {
                                Seq::<Seq<char>>::empty()
                            };
                            assert(valid_locs(old_rest) == kept + valid_locs(rest@));
                            assert(keep == accept(d));
                            if keep {
                                assert(str_views(urls@) =~= str_views(old_urls).push(d));
                                assert(str_views(urls@) =~= str_views(old_urls) + kept);
                            } else {
                                assert(str_views(urls@) =~= str_views(old_urls) + kept);
                            }
                            assert((str_views(old_urls) + kept) + valid_locs(rest@)
                                =~= str_views(old_urls) + (kept + valid_locs(rest@)));
                            assert(str_views(urls@) + valid_locs(rest@) =~= str_views(old_urls)
                                + valid_locs(old_rest));
                        }
                    },
                }
            },
        }
    }
    urls
}

/// Duplicate removal keeping the first occurrence of each value, in
/// order.
pub open spec fn dedup_strs(s: Seq<Seq<char>>) -> Seq<Seq<char>>
    decreases s.len(),
{
    if s.len() == 0 {
        Seq::empty()
    } else {
        let pre = dedup_strs(s.drop_last());
        if pre.contains(s.last()) {
            pre
        } else {
            pre.push(s.last())
        }
    }
}

/// Duplicate elimination keeps every value that occurred.
pub proof fn lemma_dedup_strs_contains(s: Seq<Seq<char>>, x: Seq<char>)
    ensures
        dedup_strs(s).contains(x) <==> s.contains(x),
    decreases s.len(),
{
    if s.len() > 0 {
        lemma_dedup_strs_contains(s.drop_last(), x);
        assert(s.contains(x) <==> (s.drop_last().contains(x) || s.last() == x)) by {
            if s.contains(x) {
                let k = choose|k: int| 0 <= k < s.len() && s[k] == x;
                if k < s.len() - 1 {
                    assert(s.drop_last()[k] == x);
                }
            }
            if s.drop_last().contains(x) {
                let k = choose|k: int| 0 <= k < s.drop_last().len() && s.drop_last()[k] == x;
                assert(s[k] == x);
            }
            if s.last() == x {
                assert(s[s.len() - 1] == x);
            }
        }
        if !dedup_strs(s.drop_last()).contains(s.last()) {
            let pre = dedup_strs(s.drop_last());
            assert(dedup_strs(s) == pre.push(s.last()));
            assert(forall|y: Seq<char>|
                pre.push(s.last()).contains(y) <==> (pre.contains(y) || s.last() == y)) by {
                assert(forall|y: Seq<char>| #[trigger]
                    pre.contains(y) ==> pre.push(s.last()).contains(y)) by {
                    assert forall|y: Seq<char>| #[trigger] pre.contains(y) implies pre.push(
                        s.last(),
                    ).contains(y) by {
                        let k = choose|k: int| 0 <= k < pre.len() && pre[k] == y;
                        assert(pre.push(s.last())[k] == y);
                    }
                }
                assert(pre.push(s.last())[pre.len() as int] == s.last());
            }
        }
    }
}

/// Duplicate elimination leaves no two equal values behind.
pub proof fn lemma_dedup_strs_distinct(s: Seq<Seq<char>>)
    ensures
        forall|i: int, j: int|
            0 <= i < j < dedup_strs(s).len() ==> dedup_strs(s)[i] != dedup_strs(s)[j],
    decreases s.len(),
{
    if s.len() > 0 {
        lemma_dedup_strs_distinct(s.drop_last());
        let pre = dedup_strs(s.drop_last());
        if !pre.contains(s.last()) {
            assert forall|i: int, j: int|
                0 <= i < j < dedup_strs(s).len() implies dedup_strs(s)[i] != dedup_strs(s)[j] by {
                if j < pre.len() {
                } else {
                    assert(dedup_strs(s)[j] == s.last());
                    assert(dedup_strs(s)[i] == pre[i]);
                    assert(pre.contains(pre[i]));
                }
            }
        }
    }
}

/// Whether `x` occurs in `v`, by string value.
pub(crate) fn contains_string(v: &Vec<String>, x: &String) -> (r: bool)
    ensures
        r == str_views(v@).contains(x@),
{
    let mut k: usize = 0;
    while k < v.len()
        invariant
            k <= v@.len(),
            forall|t: int| 0 <= t < k ==> str_views(v@)[t] != x@,
        decreases v@.len() - k,
    {
        if v[k] == *x {
            proof {
                assert(str_views(v@)[k as int] == x@);
            }
            return true;
        }
        k = k + 1;
    }
    proof {
        if str_views(v@).contains(x@) {
            let t = choose|t: int| 0 <= t < str_views(v@).len() && str_views(v@)[t] == x@;
            assert(str_views(v@)[t] != x@);
        }
    }
    false
}

/// Remove exact duplicates from a URL list, keeping the first
/// occurrence of each value in its place.
pub fn remove_duplicates(source_set: Vec<String>) -> (r: Vec<String>)
    ensures
        str_views(r@) == dedup_strs(str_views(source_set@)),
{
    let mut out: Vec<String> = Vec::new();
    let mut i: usize = 0;
    proof {
        assert(str_views(source_set@).take(0) =~= Seq::<Seq<char>>::empty());
    }
    while i < source_set.len()
        invariant
            i <= source_set@.len(),
            str_views(out@) == dedup_strs(str_views(source_set@).take(i as int)),
        decreases source_set@.len() - i,
    {
        let ghost views = str_views(source_set@);
        let ghost old_out = out@;
        let x = &source_set[i];
        let seen = contains_string(&out, x);
        if !seen {
            out.push(x.clone());
        }
        proof {
            assert(views.take(i + 1).drop_last() =~= views.take(i as int));
            assert(views.take(i + 1).last() == views[i as int]);
            assert(views[i as int] == x@);
            if !seen {
                assert(str_views(out@) =~= str_views(old_out).push(x@));
            }
        }
        i = i + 1;
    }
    proof {
        assert(str_views(source_set@).take(source_set@.len() as int) =~= str_views(source_set@));
    }
    out
}

} // verus!
