//! File names for downloaded posts: the post id with the extension of the
//! file URL's last path segment.
use vstd::prelude::*;
use vstd::string::StringExecFns;

use crate::booru::types::{after_last, after_last_pos, lemma_after_last_split, opt_view};
use crate::text::{chars_of, is_ascii_alnum, is_ascii_alphanumeric, string_from_range};

verus! {

broadcast use vstd::string::group_string_axioms;

/// Names the last segment of the path of `url` read as an absolute URL; `None`
/// when it does not parse, or its path is not a list of segments.
pub uninterp spec fn url_last_segment(url: Seq<char>) -> Option<Seq<char>>;

/// `reqwest::Url::parse` (the `url` crate's parser) followed by the last item
/// of the parsed URL's `path_segments`. Besides the name, the contract states
/// one fact of the parser's source: an input without `:` has no scheme, and an
/// input without a scheme (and no base URL) is refused.
#[verifier::external_body]
fn last_path_segment(url: &str) -> (r: Option<String>)
    ensures
        opt_view(r) == url_last_segment(url@),
        !url@.contains(':') ==> r is None,
{
    let parsed = match reqwest::Url::parse(url) {
        Ok(parsed) => parsed,
        Err(_) => return None,
    };
    let mut segments = parsed.path_segments()?;
    segments.next_back().map(String::from)
}

/// The ASCII letters and digits of `s`, in order.
pub open spec fn alnum_chars(s: Seq<char>) -> Seq<char>
    decreases s.len(),
{
    if s.len() == 0 {
        s
    } else if is_ascii_alnum(s.last()) {
        alnum_chars(s.drop_last()).push(s.last())
    } else {
        alnum_chars(s.drop_last())
    }
}

/// At most the first twelve characters of `s`.
pub open spec fn first_twelve(s: Seq<char>) -> Seq<char> {
    if s.len() <= 12 {
        s
    } else {
        s.take(12)
    }
}

/// An extension made safe for a file name: its first twelve ASCII letters
/// and digits.
pub open spec fn spec_sanitize_extension(ext: Seq<char>) -> Seq<char> {
    first_twelve(alnum_chars(ext))
}

/// Keep only ASCII letters and digits of an extension, at most twelve.
pub fn sanitize_extension(ext: &str) -> (r: String)
    ensures
        r@ == spec_sanitize_extension(ext@),
{
    let cs = chars_of(ext);
    let mut r = String::new();
    let mut i: usize = 0;
    while i < cs.len()
        invariant
            cs@ == ext@,
            i <= cs@.len(),
            r@ == first_twelve(alnum_chars(cs@.take(i as int))),
        decreases cs.len() - i,
    {
        let c = cs[i];
        let ghost a = alnum_chars(cs@.take(i as int));
        assert(cs@.take(i + 1).drop_last() =~= cs@.take(i as int));
        assert(cs@.take(i + 1).last() == c);
        if is_ascii_alphanumeric(c) && r.as_str().unicode_len() < 12 {
            r.push(c);
        } else if is_ascii_alphanumeric(c) {
            assert(a.push(c).take(12) =~= a.take(12));
        }
        i = i + 1;
    }
    assert(cs@.take(cs@.len() as int) =~= cs@);
    r
}

/// The file name of a post's download, given the last path segment of its
/// file URL: `<post id>.<extension>`, where the extension is what follows the
/// segment's last `.`, sanitized; `bin` when there is none or nothing is left.
pub open spec fn spec_filename(post_id: Seq<char>, segment: Option<Seq<char>>) -> Seq<char> {
    let ext = match segment {
        Some(name) => if name.contains('.') {
            spec_sanitize_extension(after_last(name, '.'))
        } else {
            Seq::empty()
        },
        None => Seq::empty(),
    };
    post_id + "."@ + if ext.len() > 0 {
        ext
    } else {
        "bin"@
    }
}

/// A post's download file name, from the last path segment of its file URL
/// (see [`spec_filename`]).
pub fn filename_for(post_id: &str, segment: Option<String>) -> (r: String)
    ensures
        r@ == spec_filename(post_id@, opt_view(segment)),
{
    let ext = match &segment {
        Some(name) => {
            let cs = chars_of(name.as_str());
            let k = after_last_pos(&cs, cs.len(), '.');
            proof {
                lemma_after_last_split(name@, '.', k as int);
            }
            if k > 0 {
                let tail = string_from_range(&cs, k, cs.len());
                sanitize_extension(tail.as_str())
            } else {
                assert(!name@.contains('.'));
                String::new()
            }
        },
        None => String::new(),
    };
    let base = String::from_str(post_id).concat(".");
    if ext.as_str().unicode_len() > 0 {
        base.concat(ext.as_str())
    } else {
        base.concat("bin")
    }
}

/// The file name a post's file is saved under: its id and the extension of
/// its file URL (`bin` when the URL does not parse or shows none).
pub fn download_filename(post_id: &str, url: &str) -> (r: String)
    ensures
        r@ == spec_filename(post_id@, url_last_segment(url@)),
        !url@.contains(':') ==> r@ == post_id@ + "."@ + "bin"@,
{
    filename_for(post_id, last_path_segment(url))
}

} // verus!
