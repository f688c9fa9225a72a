//! The Netscape cookie file that yt-dlp reads, made from a `Cookie` header value.
use vstd::prelude::*;
use crate::text::{
    after_first, after_first_of, before_first, before_first_of, concat_text, join_texts, join_with,
    split_at_char, split_char, trim, trimmed, views,
};

verus! {

/// The line of the cookie file for one `name=value` part of the header value,
/// if the part holds an `=`.
pub open spec fn cookie_line(part: Seq<char>) -> Option<Seq<char>> {
    let t = trim(part);
    match after_first(t, "="@) {
        Some(v) => Some(".bilibili.com\tTRUE\t/\tFALSE\t0\t"@ + trim(before_first(t, "="@)) + "\t"@ + trim(v)),
        None => None,
    }
}

/// The lines for the parts that hold an `=`, in order.
pub open spec fn cookie_lines(parts: Seq<Seq<char>>) -> Seq<Seq<char>>
    decreases parts.len(),
{
    if parts.len() == 0 {
        Seq::empty()
    } else {
        let prev = cookie_lines(parts.drop_last());
        match cookie_line(parts.last()) {
            Some(l) => prev.push(l),
            None => prev,
        }
    }
}

/// The whole cookie file for `cookie` (`a=1; b=2`): a header line, then one
/// line per `;`-separated part that holds an `=`, joined with newlines.
pub open spec fn cookie_file_text(cookie: Seq<char>) -> Seq<char> {
    join_with(seq!["# Netscape HTTP Cookie File"@] + cookie_lines(split_char(cookie, ';')), "\n"@)
}

/// The cookie-file line for one part of a header value.
pub fn cookie_line_of(part: &str) -> (r: Option<String>)
    ensures
        match r {
            Some(l) => cookie_line(part@) == Some(l@),
            None => cookie_line(part@) is None,
        },
{
    let t = trimmed(part);
    match after_first_of(t.as_str(), "=") {
        Some(v) => {
            let name = before_first_of(t.as_str(), "=");
            let name = trimmed(name.as_str());
            let value = trimmed(v.as_str());
            let a = concat_text(".bilibili.com\tTRUE\t/\tFALSE\t0\t", name.as_str());
            let b = concat_text(a.as_str(), "\t");
            Some(concat_text(b.as_str(), value.as_str()))
        },
        None => None,
    }
}

/// The text of the Netscape cookie file for the header value `cookie`.
pub fn cookie_file_contents(cookie: &str) -> (r: String)
    ensures
        r@ == cookie_file_text(cookie@),
{
    let parts = split_at_char(cookie, ';');
    let mut file_lines: Vec<String> = vec![String::from_str("# Netscape HTTP Cookie File")];
    let ghost header = seq!["# Netscape HTTP Cookie File"@];
    let mut i: usize = 0;
    assert(views(parts@).take(0) =~= Seq::<Seq<char>>::empty());
    assert(views(file_lines@) =~= header);
    assert(header + cookie_lines(Seq::<Seq<char>>::empty()) =~= header);
    while i < parts.len()
        invariant
            i <= parts@.len(),
            views(file_lines@) == header + cookie_lines(views(parts@).take(i as int)),
        decreases parts@.len() - i,
    {
        let ghost pre = views(parts@).take(i + 1);
        assert(pre.drop_last() =~= views(parts@).take(i as int));
        assert(pre.last() == parts@[i as int]@);
        let ghost before = views(file_lines@);
        match cookie_line_of(parts[i].as_str()) {
            Some(l) => {
                let ghost lv = l@;
                file_lines.push(l);
                assert(views(file_lines@) =~= before.push(lv));
                assert(header + cookie_lines(pre) =~= (header + cookie_lines(
                    views(parts@).take(i as int),
                )).push(lv));
            },
            None => {},
        }
        i = i + 1;
    }
    assert(views(parts@).take(parts@.len() as int) =~= views(parts@));
    join_texts(file_lines.as_slice(), "\n")
}

} // verus!
