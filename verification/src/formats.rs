//! The formats that yt-dlp lists for a video: one JSON document per line.
use vstd::prelude::*;
use crate::text::{lines, split_lines, views};

verus! {

#[verifier::external_type_specification]
#[verifier::external_body]
pub struct ExJsonValue(serde_json::Value);

#[verifier::external_type_specification]
#[verifier::external_body]
pub struct ExJsonError(serde_json::Error);

/// Whether `serde_json::from_str::<serde_json::Value>` accepts `text`.
pub uninterp spec fn spec_json_parses(text: Seq<char>) -> bool;

/// The value that `serde_json::from_str::<serde_json::Value>` builds from `text`.
pub uninterp spec fn spec_json_value(text: Seq<char>) -> serde_json::Value;

/// Calls `serde_json::from_str::<serde_json::Value>`. Claims only that
/// whether it succeeds, and the value it builds, are functions of the text.
#[verifier::external_body]
fn json_value_from_str(text: &str) -> (r: Result<serde_json::Value, serde_json::Error>)
    ensures
        r is Ok <==> spec_json_parses(text@),
        r matches Ok(v) ==> v == spec_json_value(text@),
{
    serde_json::from_str::<serde_json::Value>(text)
}

/// The lines of `ls` that are JSON documents, in order.
pub open spec fn json_lines(ls: Seq<Seq<char>>) -> Seq<Seq<char>>
    decreases ls.len(),
{
    if ls.len() == 0 {
        Seq::empty()
    } else if spec_json_parses(ls.last()) {
        json_lines(ls.drop_last()).push(ls.last())
    } else {
        json_lines(ls.drop_last())
    }
}

/// The formats in yt-dlp's output `stdout`: one value per line that is a
/// JSON document, in order; other lines are skipped.
pub fn formats_from_output(stdout: &str) -> (r: Vec<serde_json::Value>)
    ensures
        r@.len() == json_lines(lines(stdout@)).len(),
        forall|k: int|
            0 <= k < r@.len() ==> r@[k] == spec_json_value(#[trigger] json_lines(lines(stdout@))[k]),
{
    let ls = split_lines(stdout);
    let mut formats: Vec<serde_json::Value> = Vec::new();
    let mut i: usize = 0;
    assert(views(ls@).take(0) =~= Seq::<Seq<char>>::empty());
    while i < ls.len()
        invariant
            i <= ls@.len(),
            formats@.len() == json_lines(views(ls@).take(i as int)).len(),
            forall|k: int|
                0 <= k < formats@.len() ==> formats@[k] == spec_json_value(
                    #[trigger] json_lines(views(ls@).take(i as int))[k],
                ),
        decreases ls@.len() - i,
    {
        let ghost pre = views(ls@).take(i + 1);
        assert(pre.drop_last() =~= views(ls@).take(i as int));
        assert(pre.last() == ls@[i as int]@);
        match json_value_from_str(ls[i].as_str()) {
            Ok(data) => {
                formats.push(data);
                assert(json_lines(pre) =~= json_lines(views(ls@).take(i as int)).push(
                    ls@[i as int]@,
                ));
            },
            Err(_) => {},
        }
        i = i + 1;
    }
    assert(views(ls@).take(ls@.len() as int) =~= views(ls@));
    formats
}

} // verus!
