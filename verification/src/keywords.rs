//! The keyword heuristic that maps a natural-language rule text to an
//! activity tag: the text is lowercased, then matched against a fixed
//! keyword table.

use vstd::prelude::*;

verus! {

/// What `str::to_lowercase` returns for the given characters.
pub uninterp spec fn lower_of(s: Seq<char>) -> Seq<char>;

/// Relies on `str::to_lowercase`: the lowercased text depends on the
/// characters alone; collecting into a vector converts the result.
#[verifier::external_body]
fn lowercase_chars(s: &str) -> (r: Vec<char>)
    ensures
        r@ == lower_of(s@),
{
    s.to_lowercase().chars().collect()
}

/// `needle` occurs contiguously somewhere in `hay`.
pub open spec fn contains_seq(hay: Seq<char>, needle: Seq<char>) -> bool {
    exists|i: int|
        0 <= i && i + needle.len() <= hay.len() && #[trigger] hay.subrange(i, i + needle.len())
            == needle
}

fn matches_at(hay: &Vec<char>, needle: &Vec<char>, pos: usize) -> (r: bool)
    requires
        pos + needle@.len() <= hay@.len(),
    ensures
        r == (hay@.subrange(pos as int, pos as int + needle@.len()) == needle@),
{
    let total = hay.len();
    let m = needle.len();
    let mut k: usize = 0;
    while k < m
        invariant
            m == needle@.len(),
            pos + m <= hay@.len(),
            total == hay@.len(),
            k <= m,
            forall|t: int| 0 <= t < k ==> hay@[pos + t] == needle@[t],
        decreases m - k,
    {
        if hay[pos + k] != needle[k] {
            proof {
                let sub = hay@.subrange(pos as int, pos as int + needle@.len());
                assert(sub[k as int] == hay@[pos + k]);
            }
            return false;
        }
        k += 1;
    }
    proof {
        assert(hay@.subrange(pos as int, pos as int + needle@.len()) =~= needle@);
    }
    true
}

/// Whether the character sequence `needle` occurs in `hay`.
fn contains(hay: &Vec<char>, needle: &Vec<char>) -> (r: bool)
    ensures
        r == contains_seq(hay@, needle@),
{
    let n = hay.len();
    let m = needle.len();
    if m > n {
        return false;
    }
    if m == 0 {
        proof {
            assert(hay@.subrange(0, 0 + needle@.len() as int) =~= needle@);
        }
        return true;
    }
    let mut i: usize = 0;
    while i <= n - m
        invariant
            n == hay@.len(),
            m == needle@.len(),
            1 <= m <= n,
            i <= n - m + 1,
            forall|j: int|
                0 <= j < i ==> #[trigger] hay@.subrange(j, j + needle@.len()) != needle@,
        decreases n - i,
    {
        if matches_at(hay, needle, i) {
            return true;
        }
        i += 1;
    }
    false
}

/// The activity tag the heuristic assigns to a lowercased rule text.
pub open spec fn activity_tag(lower: Seq<char>) -> Seq<char> {
    if contains_seq(lower, "instagram"@) || contains_seq(lower, "insta"@) {
        "instagram_activity"@
    } else if contains_seq(lower, "youtube"@) {
        "youtube_activity"@
    } else if contains_seq(lower, "twitter"@) || contains_seq(lower, "x.com"@) {
        "twitter_activity"@
    } else if contains_seq(lower, "facebook"@) {
        "facebook_activity"@
    } else if contains_seq(lower, "reddit"@) {
        "reddit_activity"@
    } else if contains_seq(lower, "tiktok"@) {
        "tiktok_activity"@
    } else {
        "general_activity"@
    }
}

// The keyword table searched, in order, against the lowercased text: one
// constructor per keyword, each proved to spell its keyword exactly.
fn keyword_instagram() -> (r: Vec<char>)
    ensures
        r@ == "instagram"@,
{
    let v = vec!['i', 'n', 's', 't', 'a', 'g', 'r', 'a', 'm'];
    proof {
        reveal_strlit("instagram");
        assert(v@ =~= "instagram"@);
    }
    v
}

fn keyword_insta() -> (r: Vec<char>)
    ensures
        r@ == "insta"@,
{
    let v = vec!['i', 'n', 's', 't', 'a'];
    proof {
        reveal_strlit("insta");
        assert(v@ =~= "insta"@);
    }
    v
}

fn keyword_youtube() -> (r: Vec<char>)
    ensures
        r@ == "youtube"@,
{
    let v = vec!['y', 'o', 'u', 't', 'u', 'b', 'e'];
    proof {
        reveal_strlit("youtube");
        assert(v@ =~= "youtube"@);
    }
    v
}

fn keyword_twitter() -> (r: Vec<char>)
    ensures
        r@ == "twitter"@,
{
    let v = vec!['t', 'w', 'i', 't', 't', 'e', 'r'];
    proof {
        reveal_strlit("twitter");
        assert(v@ =~= "twitter"@);
    }
    v
}

fn keyword_xcom() -> (r: Vec<char>)
    ensures
        r@ == "x.com"@,
{
    let v = vec!['x', '.', 'c', 'o', 'm'];
    proof {
        reveal_strlit("x.com");
        assert(v@ =~= "x.com"@);
    }
    v
}

fn keyword_facebook() -> (r: Vec<char>)
    ensures
        r@ == "facebook"@,
{
    let v = vec!['f', 'a', 'c', 'e', 'b', 'o', 'o', 'k'];
    proof {
        reveal_strlit("facebook");
        assert(v@ =~= "facebook"@);
    }
    v
}

fn keyword_reddit() -> (r: Vec<char>)
    ensures
        r@ == "reddit"@,
{
    let v = vec!['r', 'e', 'd', 'd', 'i', 't'];
    proof {
        reveal_strlit("reddit");
        assert(v@ =~= "reddit"@);
    }
    v
}

fn keyword_tiktok() -> (r: Vec<char>)
    ensures
        r@ == "tiktok"@,
{
    let v = vec!['t', 'i', 'k', 't', 'o', 'k'];
    proof {
        reveal_strlit("tiktok");
        assert(v@ =~= "tiktok"@);
    }
    v
}

/// Maps a rule text to the activity tag its keywords suggest: the first
/// matching row of the keyword table wins, and a text matching none maps
/// to the general tag.
pub fn extract_activity_from_text(text: &str) -> (r: String)
    ensures
        r@ == activity_tag(lower_of(text@)),
{
    let lower = lowercase_chars(text);
    if contains(&lower, &keyword_instagram()) || contains(&lower, &keyword_insta()) {
        "instagram_activity".to_owned()
    } else if contains(&lower, &keyword_youtube()) {
        "youtube_activity".to_owned()
    } else if contains(&lower, &keyword_twitter()) || contains(&lower, &keyword_xcom()) {
        "twitter_activity".to_owned()
    } else if contains(&lower, &keyword_facebook()) {
        "facebook_activity".to_owned()
    } else if contains(&lower, &keyword_reddit()) {
        "reddit_activity".to_owned()
    } else if contains(&lower, &keyword_tiktok()) {
        "tiktok_activity".to_owned()
    } else {
        "general_activity".to_owned()
    }
}

} // verus!
