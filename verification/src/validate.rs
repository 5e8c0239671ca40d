//! Length limits on what users write, counted in characters after trimming.

use vstd::prelude::*;
use crate::text::{to_string, trim_seq, trimmed_len};

verus! {

pub const TITLE_MIN: usize = 10;
pub const TITLE_MAX: usize = 300;
pub const BODY_MIN: usize = 30;
pub const BODY_MAX: usize = 10_000;
pub const COMMENT_MIN: usize = 1;
pub const COMMENT_MAX: usize = 2_000;

/// Whether `text`, trimmed, holds between `min` and `max` characters.
pub open spec fn fits(text: Seq<char>, min: usize, max: usize) -> bool {
    min <= trim_seq(text).len() <= max
}

/// Checks an idea's title and body; the error names the first that does not fit.
pub fn validate_idea(title: &str, body: &str) -> (r: Result<(), String>)
    ensures
        r is Ok <==> fits(title@, TITLE_MIN, TITLE_MAX) && fits(body@, BODY_MIN, BODY_MAX),
        !fits(title@, TITLE_MIN, TITLE_MAX) ==> (r matches Err(msg) && msg@
            == "Title must be 10–300 characters"@),
        fits(title@, TITLE_MIN, TITLE_MAX) && !fits(body@, BODY_MIN, BODY_MAX) ==> (r matches Err(
            msg,
        ) && msg@ == "Body must be 30–10000 characters"@),
{
    let title_len = trimmed_len(title);
    let body_len = trimmed_len(body);
    if !(TITLE_MIN <= title_len && title_len <= TITLE_MAX) {
        return Err(to_string("Title must be 10–300 characters"));
    }
    if !(BODY_MIN <= body_len && body_len <= BODY_MAX) {
        return Err(to_string("Body must be 30–10000 characters"));
    }
    Ok(())
}

/// Checks a comment's body.
pub fn validate_comment(body: &str) -> (r: Result<(), String>)
    ensures
        r is Ok <==> fits(body@, COMMENT_MIN, COMMENT_MAX),
        !fits(body@, COMMENT_MIN, COMMENT_MAX) ==> (r matches Err(msg) && msg@
            == "Comment must be 1–2000 characters"@),
{
    let body_len = trimmed_len(body);
    if !(COMMENT_MIN <= body_len && body_len <= COMMENT_MAX) {
        return Err(to_string("Comment must be 1–2000 characters"));
    }
    Ok(())
}

/// Law: titles hold 10 to 300 characters, bodies 30 to 10000 and comments 1 to
/// 2000, counted after trimming, both ends included.
pub proof fn lemma_length_limits(text: Seq<char>)
    ensures
        fits(text, TITLE_MIN, TITLE_MAX) <==> 10 <= trim_seq(text).len() <= 300,
        fits(text, BODY_MIN, BODY_MAX) <==> 30 <= trim_seq(text).len() <= 10_000,
        fits(text, COMMENT_MIN, COMMENT_MAX) <==> 1 <= trim_seq(text).len() <= 2_000,
{
}

} // verus!
