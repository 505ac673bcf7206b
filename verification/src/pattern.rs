//! Finding the matches of a regular expression in a text, and putting other
//! text in their place.

use vstd::prelude::*;

verus! {

/// One match of a pattern in a text: the text before the match, the match
/// itself, and what the pattern's first group took of it, if the group took
/// part.
#[derive(Debug)]
pub struct Capture {
    pub before: String,
    pub whole: String,
    pub group: Option<String>,
}

/// What a `Capture` stands for: the text before the match, the match, the
/// first group.
pub type CaptureView = (Seq<char>, Seq<char>, Option<Seq<char>>);

impl View for Capture {
    type V = CaptureView;

    open spec fn view(&self) -> CaptureView {
        (
            self.before@,
            self.whole@,
            match self.group {
                Some(g) => Some(g@),
                None => None,
            },
        )
    }
}

/// The views of a run of captures.
pub open spec fn capture_views(cs: Seq<Capture>) -> Seq<CaptureView> {
    cs.map_values(|c: Capture| c@)
}

/// Where a capture ends in its text.
pub open spec fn capture_end(c: CaptureView) -> int {
    (c.0.len() + c.1.len()) as int
}

/// The captures lie in the text one behind the other: each begins where the
/// one before it has ended, or later, and ends inside the text.
pub open spec fn well_placed(cs: Seq<CaptureView>, text: Seq<char>) -> bool {
    &&& forall|i: int| 0 <= i < cs.len() ==> capture_end(#[trigger] cs[i]) <= text.len()
    &&& forall|i: int, j: int|
        0 <= i < j < cs.len() ==> capture_end(#[trigger] cs[i]) <= (#[trigger] cs[j]).0.len()
}

/// Whether `regex::Regex::new` accepts the pattern.
pub uninterp spec fn regex_compiles(pattern: Seq<char>) -> bool;

/// The matches that `regex::Regex::captures_iter` finds for an accepted
/// pattern in a text, in the order in which it yields them.
pub uninterp spec fn regex_captures(pattern: Seq<char>, text: Seq<char>) -> Seq<CaptureView>;

/// Compiles the pattern with `regex::Regex::new` and walks the text with
/// `regex::Regex::captures_iter`. Nothing comes back where the pattern is
/// refused. Each match is handed out as the text before it, its own text and
/// the text of group 1. The crate yields successive matches that do not
/// overlap, each a stretch of the text: so they lie in the text one behind
/// the other.
#[verifier::external_body]
fn captures_iter(pattern: &str, text: &str) -> (r: Option<Vec<Capture>>)
    ensures
        r.is_some() == regex_compiles(pattern@),
        r matches Some(cs) ==> capture_views(cs@) == regex_captures(pattern@, text@)
            && well_placed(capture_views(cs@), text@),
{
    let re = regex::Regex::new(pattern).ok()?;
    Some(
        re.captures_iter(text).map(
            |c| Capture {
                before: text[..c.get(0).unwrap().start()].to_string(),
                whole: c[0].to_string(),
                group: c.get(1).map(|m| m.as_str().to_string()),
            },
        ).collect(),
    )
}

/// The matches of the pattern in the text, or nothing where the pattern is
/// refused.
pub fn find_captures(pattern: &str, text: &str) -> (r: Option<Vec<Capture>>)
    ensures
        r.is_some() == regex_compiles(pattern@),
        r matches Some(cs) ==> capture_views(cs@) == regex_captures(pattern@, text@)
            && well_placed(capture_views(cs@), text@),
{
    captures_iter(pattern, text)
}

/// The text from `pos` on, with each capture replaced by the text that
/// stands for it in `with`.
pub open spec fn spliced_from(
    text: Seq<char>,
    pos: int,
    cs: Seq<CaptureView>,
    with: Seq<Seq<char>>,
) -> Seq<char>
    decreases cs.len(),
{
    if cs.len() == 0 || with.len() == 0 {
        text.skip(pos)
    } else {
        text.subrange(pos, cs[0].0.len() as int) + with[0] + spliced_from(
            text,
            capture_end(cs[0]),
            cs.skip(1),
            with.skip(1),
        )
    }
}

/// The text with each capture replaced by the text that stands for it in
/// `with`.
pub open spec fn spliced(text: Seq<char>, cs: Seq<CaptureView>, with: Seq<Seq<char>>) -> Seq<char> {
    spliced_from(text, 0, cs, with)
}

/// Where there is no capture, the text stays as it is.
pub proof fn lemma_spliced_none(text: Seq<char>, with: Seq<Seq<char>>)
    ensures
        spliced(text, Seq::empty(), with) == text,
{
    assert(text.skip(0) =~= text);
}

/// Puts `with[i]` in the place of the `i`-th capture of the text.
pub fn splice(text: &Vec<char>, captures: &Vec<Capture>, with: &Vec<Vec<char>>) -> (out: Vec<char>)
    requires
        well_placed(capture_views(captures@), text@),
        with.len() == captures.len(),
    ensures
        out@ == spliced(text@, capture_views(captures@), with@.map_values(|w: Vec<char>| w@)),
{
    let ghost cs = capture_views(captures@);
    let ghost ws = with@.map_values(|w: Vec<char>| w@);
    let mut out: Vec<char> = Vec::new();
    let mut pos: usize = 0;
    let mut i: usize = 0;
    assert(cs.skip(0) =~= cs);
    assert(ws.skip(0) =~= ws);
    assert(out@ + spliced_from(text@, 0, cs, ws) =~= spliced(text@, cs, ws));
    while i < captures.len()
        invariant
            i <= captures.len(),
            with.len() == captures.len(),
            cs == capture_views(captures@),
            ws == with@.map_values(|w: Vec<char>| w@),
            well_placed(cs, text@),
            pos <= text.len(),
            i == 0 ==> pos == 0,
            i > 0 ==> pos == capture_end(cs[i - 1]),
            out@ + spliced_from(text@, pos as int, cs.skip(i as int), ws.skip(i as int)) == spliced(
                text@,
                cs,
                ws,
            ),
        decreases captures.len() - i,
    {
        let ghost done = out@;
        let ghost c = cs[i as int];
        let start = captures[i].before.as_str().unicode_len();
        let len = captures[i].whole.as_str().unicode_len();
        proof {
            assert(c == captures@[i as int]@);
            assert(start == c.0.len() && len == c.1.len());
            assert(capture_end(cs[i as int]) <= text.len());
            if i > 0 {
                assert(capture_end(cs[i - 1]) <= cs[i as int].0.len());
            }
            assert(cs.skip(i as int)[0] == c);
            assert(ws.skip(i as int)[0] == with@[i as int]@);
            assert(cs.skip(i as int).skip(1) =~= cs.skip(i + 1));
            assert(ws.skip(i as int).skip(1) =~= ws.skip(i + 1));
        }
        let mut k: usize = pos;
        while k < start
            invariant
                pos <= k <= start <= text.len(),
                out@ == done + text@.subrange(pos as int, k as int),
            decreases start - k,
        {
            out.push(text[k]);
            assert(text@.subrange(pos as int, k + 1) =~= text@.subrange(pos as int, k as int).push(
                text@[k as int],
            ));
            k += 1;
        }
        let ghost mid = out@;
        let w = &with[i];
        let mut q: usize = 0;
        while q < w.len()
            invariant
                q <= w.len(),
                out@ == mid + w@.take(q as int),
            decreases w.len() - q,
        {
            out.push(w[q]);
            assert(w@.take(q + 1) =~= w@.take(q as int).push(w@[q as int]));
            q += 1;
        }
        proof {
            assert(w@.take(w.len() as int) =~= w@);
            assert(out@ =~= done + (text@.subrange(pos as int, start as int) + w@));
            assert(out@ + spliced_from(text@, start + len, cs.skip(i + 1), ws.skip(i + 1)) =~= done
                + spliced_from(text@, pos as int, cs.skip(i as int), ws.skip(i as int)));
        }
        pos = start + len;
        i += 1;
    }
    let ghost done = out@;
    let mut k: usize = pos;
    while k < text.len()
        invariant
            pos <= k <= text.len(),
            out@ == done + text@.subrange(pos as int, k as int),
        decreases text.len() - k,
    {
        out.push(text[k]);
        assert(text@.subrange(pos as int, k + 1) =~= text@.subrange(pos as int, k as int).push(
            text@[k as int],
        ));
        k += 1;
    }
    proof {
        assert(cs.skip(captures.len() as int).len() == 0);
        assert(text@.subrange(pos as int, text.len() as int) =~= text@.skip(pos as int));
    }
    out
}

} // verus!
