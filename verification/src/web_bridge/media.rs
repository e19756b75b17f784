//! Playing finished downloads in the browser.
use vstd::prelude::*;
use vstd::string::*;

use crate::text::{
    after_last_index, ascii_lower, chars_of, decimal, last_index, ov, push_decimal, same, string_of,
};
use crate::web_bridge::form::{form_of, parse_byte_range, parse_form, range_of, value_of};
use crate::web_bridge::routes::{query_of, split_url};

verus! {

/// A path without what does not count at its end: slashes, and dots that stand for the folder
/// itself.
pub open spec fn settled_path(path: Seq<char>) -> Seq<char>
    decreases path.len(),
{
    let n = path.len() as int;
    if n > 0 && path[n - 1] == '/' {
        settled_path(path.take(n - 1))
    } else if n > 1 && path[n - 1] == '.' && path[n - 2] == '/' {
        settled_path(path.take(n - 2))
    } else {
        path
    }
}

/// The extension of the file that a path names: what stands behind the last dot of its name,
/// unless that dot is the name's first character. The parts of a path are separated by slashes.
pub open spec fn path_extension(path: Seq<char>) -> Option<Seq<char>> {
    let p = settled_path(path);
    let name = p.skip(last_index(p, '/') + 1);
    let dot = last_index(name, '.');
    if name == seq!['.', '.'] || dot <= 0 {
        None
    } else {
        Some(name.skip(dot + 1))
    }
}

/// The extension of the file that a path names.
pub fn extension(path: &str) -> (r: Option<String>)
    ensures
        ov(r) == path_extension(path@),
{
    let v = chars_of(path);
    let mut end: usize = v.len();
    assert(v@.take(end as int) =~= path@);
    while (end > 0 && v[end - 1] == '/') || (end > 1 && v[end - 1] == '.' && v[end - 2] == '/')
        invariant
            end <= v@.len(),
            settled_path(path@) == settled_path(v@.take(end as int)),
        decreases end,
    {
        let ghost now = v@.take(end as int);
        if v[end - 1] == '/' {
            end -= 1;
            assert(now.take(now.len() - 1) =~= v@.take(end as int));
        } else {
            end -= 2;
            assert(now.take(now.len() - 2) =~= v@.take(end as int));
        }
    }
    let settled = string_of(&v, 0, end);
    assert(settled@ =~= v@.take(end as int));
    assert(settled@ == settled_path(path@));
    let p = chars_of(settled.as_str());
    let start = after_last_index(&p, '/');
    let name = string_of(&p, start, p.len());
    assert(name@ =~= p@.skip(last_index(p@, '/') + 1));
    let n = chars_of(name.as_str());
    if n.len() == 2 && n[0] == '.' && n[1] == '.' {
        assert(n@ =~= seq!['.', '.']);
        return None;
    }
    let dot = after_last_index(&n, '.');
    if dot <= 1 {
        return None;
    }
    let r = string_of(&n, dot, n.len());
    assert(r@ =~= n@.skip(last_index(n@, '.') + 1));
    Some(r)
}

/// A text with ASCII letters in lower case.
pub open spec fn ascii_lowered(s: Seq<char>) -> Seq<char> {
    s.map_values(|c: char| ascii_lower(c))
}

fn to_ascii_lower(s: &str) -> (r: String)
    ensures
        r@ == ascii_lowered(s@),
{
    let v = chars_of(s);
    let mut out = String::new();
    let mut i: usize = 0;
    assert(out@ =~= ascii_lowered(v@).take(0));
    while i < v.len()
        invariant
            i <= v@.len(),
            out@ == ascii_lowered(v@).take(i as int),
        decreases v@.len() - i,
    {
        let c = v[i];
        if 'A' <= c && c <= 'Z' {
            out.push((c as u8 + 32) as char);
        } else {
            out.push(c);
        }
        i += 1;
        assert(ascii_lowered(v@).take(i as int) =~= ascii_lowered(v@).take(i as int - 1).push(
            ascii_lowered(v@)[i as int - 1],
        ));
    }
    assert(ascii_lowered(v@).take(i as int) =~= ascii_lowered(v@));
    out
}

/// The media type of an audio file by its extension; none for anything else.
pub open spec fn media_type(extension: Seq<char>) -> Option<Seq<char>> {
    let e = ascii_lowered(extension);
    if e == "mp3"@ {
        Some("audio/mpeg"@)
    } else if e == "flac"@ {
        Some("audio/flac"@)
    } else if e == "wav"@ {
        Some("audio/wav"@)
    } else if e == "m4a"@ || e == "m4b"@ || e == "aac"@ || e == "mp4"@ {
        Some("audio/mp4"@)
    } else if e == "ogg"@ || e == "opus"@ {
        Some("audio/ogg"@)
    } else if e == "aiff"@ || e == "aif"@ {
        Some("audio/aiff"@)
    } else {
        None
    }
}

/// The media type of an audio file by its extension; none for anything else.
pub fn media_type_of(extension: &str) -> (r: Option<&'static str>)
    ensures
        match r {
            Some(t) => media_type(extension@) == Some(t@),
            None => media_type(extension@) is None,
        },
{
    let lower = to_ascii_lower(extension);
    let e = lower.as_str();
    if same(e, "mp3") {
        Some("audio/mpeg")
    } else if same(e, "flac") {
        Some("audio/flac")
    } else if same(e, "wav") {
        Some("audio/wav")
    } else if same(e, "m4a") || same(e, "m4b") || same(e, "aac") || same(e, "mp4") {
        Some("audio/mp4")
    } else if same(e, "ogg") || same(e, "opus") {
        Some("audio/ogg")
    } else if same(e, "aiff") || same(e, "aif") {
        Some("audio/aiff")
    } else {
        None
    }
}

/// What a request to play a file leads to.
pub enum MediaPlan {
    /// A refusal: status and text.
    Refuse(u32, &'static str),
    /// The file to send, and its media type.
    Send { path: String, mime: &'static str },
}

/// The path that a request to play names.
pub open spec fn media_path(url: Seq<char>) -> Option<Seq<char>> {
    match value_of(form_of(query_of(url)), "path"@) {
        Some(p) => if p.len() == 0 {
            None
        } else {
            Some(p)
        },
        None => None,
    }
}

/// Decides on a request to play a file: only audio files are sent.
pub fn plan_media(url: &str) -> (r: MediaPlan)
    ensures
        match media_path(url@) {
            None => r matches MediaPlan::Refuse(status, text) && status == 400 && text@
                == "missing path"@,
            Some(path) => match path_extension(path) {
                Some(e) if media_type(e) is Some => r matches MediaPlan::Send { path: p, mime }
                    && p@ == path && mime@ == media_type(e)->0,
                _ => r matches MediaPlan::Refuse(status, text) && status == 415 && text@
                    == "unsupported media type"@,
            },
        },
{
    let (_, query) = split_url(url);
    let form = parse_form(query.as_str());
    let path = match form.get("path") {
        Some(p) => {
            if p.is_empty() {
                return MediaPlan::Refuse(400, "missing path");
            }
            p.to_owned()
        },
        None => {
            return MediaPlan::Refuse(400, "missing path");
        },
    };
    match extension(path.as_str()) {
        Some(e) => match media_type_of(e.as_str()) {
            Some(mime) => MediaPlan::Send { path, mime },
            None => MediaPlan::Refuse(415, "unsupported media type"),
        },
        None => MediaPlan::Refuse(415, "unsupported media type"),
    }
}

/// What is sent of a file: the status, the bytes from `start` up to but without `end`, and the
/// header that says which of how many these are, where they are not all.
pub struct MediaPart {
    pub status: u32,
    pub start: usize,
    pub end: usize,
    pub content_range: Option<String>,
}

/// The header of a part of a file.
pub open spec fn content_range(start: nat, last: nat, total: nat) -> Seq<char> {
    "bytes "@ + decimal(start) + "-"@ + decimal(last) + "/"@ + decimal(total)
}

/// Decides which part of a file of `total` bytes is sent: what the `Range` header asks for, or all
/// of it where there is none that can be met.
pub fn plan_part(range: Option<&str>, total: usize) -> (r: MediaPart)
    ensures
        r.start <= r.end <= total,
        match range {
            Some(header) if range_of(header@, total as nat) is Some => {
                let (start, last) = range_of(header@, total as nat)->0;
                r.status == 206 && r.start == start && r.end == last + 1 && ov(r.content_range)
                    == Some(content_range(start, last, total as nat))
            },
            _ => r.status == 200 && r.start == 0 && r.end == total && r.content_range is None,
        },
{
    if let Some(header) = range {
        if let Some((start, last)) = parse_byte_range(header, total) {
            let mut out = "bytes ".to_owned();
            push_decimal(&mut out, start as u64);
            out.append("-");
            push_decimal(&mut out, last as u64);
            out.append("/");
            push_decimal(&mut out, total as u64);
            return MediaPart { status: 206, start, end: last + 1, content_range: Some(out) };
        }
    }
    MediaPart { status: 200, start: 0, end: total, content_range: None }
}

/// The extension of a file is what follows the last point of its name.
pub proof fn law_the_extension_follows_the_last_point(
    folder: Seq<char>,
    stem: Seq<char>,
    ext: Seq<char>,
)
    requires
        stem.len() > 0,
        ext.len() > 0,
        forall|k: int| 0 <= k < stem.len() ==> #[trigger] stem[k] != '/',
        forall|k: int| 0 <= k < ext.len() ==> #[trigger] ext[k] != '/' && ext[k] != '.',
    ensures
        path_extension(folder.push('/') + stem.push('.') + ext) == Some(ext),
{
    let name = stem.push('.') + ext;
    let path = folder.push('/') + stem.push('.') + ext;
    let n = folder.len() as int;
    assert(path.last() == ext.last());
    assert(ext.last() == ext[ext.len() - 1]);
    assert(settled_path(path) == path);
    assert forall|k: int| n < k < path.len() implies path[k] != '/' by {
        assert(path[k] == name[k - n - 1]);
        if k - n - 1 < stem.len() {
            assert(name[k - n - 1] == stem[k - n - 1]);
        } else if k - n - 1 > stem.len() {
            assert(name[k - n - 1] == ext[k - n - 1 - stem.len() - 1]);
        }
    }
    assert(path[n] == '/');
    crate::text::lemma_last_index(path, '/', n);
    assert(path.skip(n + 1) =~= name);
    let d = stem.len() as int;
    assert(name[d] == '.');
    assert forall|k: int| d < k < name.len() implies name[k] != '.' by {
        assert(name[k] == ext[k - d - 1]);
    }
    crate::text::lemma_last_index(name, '.', d);
    assert(name.skip(d + 1) =~= ext);
    assert(name != seq!['.', '.']) by {
        assert(name.last() == ext.last());
    }
}

/// Case makes no difference to what a file is taken for.
pub proof fn law_case_makes_no_difference(a: Seq<char>, b: Seq<char>)
    requires
        a.len() == b.len(),
        forall|k: int|
            0 <= k < a.len() ==> (#[trigger] a[k] == #[trigger] b[k] || ('A' <= a[k] <= 'Z'
                && b[k] == (a[k] as u32 + 32) as char)),
    ensures
        media_type(a) == media_type(b),
{
    assert(ascii_lowered(a) =~= ascii_lowered(b)) by {
        assert forall|k: int| 0 <= k < a.len() implies #[trigger] ascii_lower(a[k]) == ascii_lower(
            b[k],
        ) by {
            if a[k] != b[k] {
                assert(ascii_lower(a[k]) == b[k]);
                assert(!('A' <= b[k] <= 'Z'));
            }
        }
    }
}

/// A part of a file is told by its first and last byte and the size of the whole, which read back.
pub proof fn law_parts_of_a_file_read_back(start: nat, last: nat, total: nat)
    ensures
        ({
            let text = content_range(start, last, total);
            &&& "bytes "@.is_prefix_of(text)
            &&& crate::text::split_on(text.skip(6), '/').len() == 2
            &&& crate::text::parsed(crate::text::split_on(text.skip(6), '/')[1]) == Some(total)
            &&& crate::text::split_on(crate::text::split_on(text.skip(6), '/')[0], '-').len() == 2
            &&& crate::text::parsed(
                crate::text::split_on(crate::text::split_on(text.skip(6), '/')[0], '-')[0],
            ) == Some(start)
            &&& crate::text::parsed(
                crate::text::split_on(crate::text::split_on(text.skip(6), '/')[0], '-')[1],
            ) == Some(last)
        }),
{
    let text = content_range(start, last, total);
    let (a, b, c) = (decimal(start), decimal(last), decimal(total));
    reveal_strlit("bytes ");
    reveal_strlit("-");
    reveal_strlit("/");
    crate::text::law_decimal_is_plain_text(start);
    crate::text::law_decimal_is_plain_text(last);
    crate::text::law_decimal_is_plain_text(total);
    crate::text::law_decimal_reads_back(start);
    crate::text::law_decimal_reads_back(last);
    crate::text::law_decimal_reads_back(total);
    let span = a.push('-') + b;
    assert(text =~= "bytes "@ + (span.push('/') + c));
    assert(text.skip(6) =~= span.push('/') + c);
    assert forall|k: int| 0 <= k < span.len() implies #[trigger] span[k] != '/' by {
        if k < a.len() {
            assert(span[k] == a[k]);
        } else if k > a.len() {
            assert(span[k] == b[k - a.len() - 1]);
        }
    }
    crate::text::law_a_separator_parts_a_text(span, '/', c);
    crate::text::law_a_separator_parts_a_text(c, '/', Seq::empty());
    assert(crate::text::split_on(text.skip(6), '/') =~= seq![span, c]);
    crate::text::law_a_separator_parts_a_text(a, '-', b);
    crate::text::law_a_separator_parts_a_text(b, '-', Seq::empty());
    assert(crate::text::split_on(span, '-') =~= seq![a, b]);
}

} // verus!
