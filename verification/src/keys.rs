//! The canonical key convention for source videos.
//!
//! A source video lives under a key of the form
//! `week<digits>/lesson<digits>/video<digits>.mp4`. This module checks
//! raw path strings against that convention, derives the storage key
//! from a local path (the suffix starting at the first `week` segment),
//! and maps between video keys and their transcript keys (`.mp4`
//! against `.txt`).

use vstd::prelude::*;
use vstd::string::StrSliceExecFns;
use vstd::string::StringExecFns;
use crate::text::is_digit;
use crate::text::starts_with;
use crate::text::ends_with;
use crate::text::str_starts_with;
use crate::text::str_ends_with;
use crate::text::digits_in_range;

verus! {

/// The segments of a path: the maximal `/`-free runs of its
/// characters, in order. The empty path has one empty segment, and a
/// separator at either end contributes an empty segment beside it.
pub open spec fn segments(s: Seq<char>) -> Seq<Seq<char>>
    decreases s.len(),
{
    if s.len() == 0 {
        seq![Seq::<char>::empty()]
    } else if s.last() == '/' {
        segments(s.drop_last()).push(Seq::<char>::empty())
    } else {
        let prior = segments(s.drop_last());
        prior.update(prior.len() - 1, prior.last().push(s.last()))
    }
}

/// A path always has at least one segment.
pub proof fn lemma_segments_nonempty(s: Seq<char>)
    ensures
        segments(s).len() >= 1,
    decreases s.len(),
{
    if s.len() != 0 {
        lemma_segments_nonempty(s.drop_last());
    }
}

/// Splits a path into its segments.
pub fn split_segments(s: &str) -> (r: Vec<String>)
    ensures
        r.deep_view() == segments(s@),
        r.len() >= 1,
{
    let n = s.unicode_len();
    let mut done: Vec<String> = Vec::new();
    let mut cur: String = String::new();
    let mut i: usize = 0;
    proof {
        assert(s@.subrange(0, 0) =~= Seq::<char>::empty());
        assert(done.deep_view().push(cur@) =~= segments(s@.subrange(0, 0)));
    }
    while i < n
        invariant
            n == s@.len(),
            i <= n,
            done.deep_view().push(cur@) == segments(s@.subrange(0, i as int)),
        decreases n - i,
    {
        let ghost prefix = s@.subrange(0, i as int);
        let ghost longer = s@.subrange(0, i + 1);
        proof {
            assert(longer.drop_last() =~= prefix);
            assert(longer.last() == s@[i as int]);
        }
        let c = s.get_char(i);
        if c == '/' {
            done.push(cur);
            cur = String::new();
            proof {
                assert(done.deep_view().push(cur@) =~= segments(longer));
            }
        } else {
            let ghost cur0 = cur@;
            let piece = s.substring_char(i, i + 1);
            proof {
                assert(piece@ =~= seq![s@[i as int]]);
            }
            cur.append(piece);
            proof {
                let prior = segments(prefix);
                assert(prior == done.deep_view().push(cur0));
                assert(prior.last() == cur0);
                assert(cur@ =~= cur0.push(s@[i as int]));
                assert(done.deep_view().push(cur@) =~= prior.update(
                    prior.len() - 1,
                    prior.last().push(s@[i as int]),
                ));
            }
        }
        i += 1;
    }
    proof {
        assert(s@.subrange(0, n as int) =~= s@);
    }
    done.push(cur);
    proof {
        assert(done.deep_view() =~= segments(s@));
        lemma_segments_nonempty(s@);
    }
    done
}

/// A segment of the form `video<digits>.mp4`, with at least one digit.
pub open spec fn video_file_segment(s: Seq<char>) -> bool {
    &&& s.len() > "video"@.len() + ".mp4"@.len()
    &&& starts_with(s, "video"@)
    &&& ends_with(s, ".mp4"@)
    &&& forall|i: int| "video"@.len() <= i < s.len() - ".mp4"@.len() ==> is_digit(s[i])
}

/// A segment of the form `<prefix><digits>`, with at least one digit.
pub open spec fn numbered_segment(s: Seq<char>, prefix: Seq<char>) -> bool {
    &&& s.len() > prefix.len()
    &&& starts_with(s, prefix)
    &&& forall|i: int| prefix.len() <= i < s.len() ==> is_digit(s[i])
}

/// The path's file name is a numbered video file.
pub open spec fn video_stage_ok(p: Seq<char>) -> bool {
    video_file_segment(segments(p).last())
}

/// The video file sits directly inside a `lesson<digits>` directory.
pub open spec fn lesson_stage_ok(p: Seq<char>) -> bool {
    &&& segments(p).len() >= 2
    &&& numbered_segment(segments(p)[segments(p).len() - 2], "lesson"@)
}

/// The lesson directory sits directly inside a `week<digits>` directory.
pub open spec fn week_stage_ok(p: Seq<char>) -> bool {
    &&& segments(p).len() >= 3
    &&& numbered_segment(segments(p)[segments(p).len() - 3], "week"@)
}

/// The whole convention: `.../week<digits>/lesson<digits>/video<digits>.mp4`.
pub open spec fn valid_video_path(p: Seq<char>) -> bool {
    video_stage_ok(p) && lesson_stage_ok(p) && week_stage_ok(p)
}

/// The message reported when the file name is not a numbered video.
pub open spec fn video_reason(p: Seq<char>) -> Seq<char> {
    "Invalid path format "@ + p + ". Video id must be strictly numbered i.e **/video##.mp4"@
}

/// The message reported when the lesson directory is missing or malformed.
pub open spec fn lesson_reason(p: Seq<char>) -> Seq<char> {
    "Invalid path format "@ + p
        + ". Videos must be strictly within 'lesson##' directory i.e. **/lesson##/video##.mp4"@
}

/// The message reported when the week directory is missing or malformed.
pub open spec fn week_reason(p: Seq<char>) -> Seq<char> {
    "Invalid path format "@ + p
        + ". Videos must be strictly within 'week##/lesson##' directory i.e. */week##/lesson##/video##.mp4"@
}

/// The message of the first failing stage, checked file name first,
/// then lesson directory, then week directory.
pub open spec fn failure_reason(p: Seq<char>) -> Seq<char> {
    if !video_stage_ok(p) {
        video_reason(p)
    } else if !lesson_stage_ok(p) {
        lesson_reason(p)
    } else {
        week_reason(p)
    }
}

/// Builds a validation message: the offending path verbatim between a
/// fixed head and the stage's explanation.
fn reason_message(path: &str, tail: &str) -> (m: String)
    ensures
        m@ == "Invalid path format "@ + path@ + tail@,
{
    let mut m = String::from_str("Invalid path format ");
    m.append(path);
    m.append(tail);
    proof {
        assert(m@ =~= "Invalid path format "@ + path@ + tail@);
    }
    m
}

/// Whether a single segment is a numbered video file name.
pub fn is_video_segment(s: &str) -> (r: bool)
    ensures
        r == video_file_segment(s@),
{
    proof {
        reveal_strlit("video");
        reveal_strlit(".mp4");
    }
    let n = s.unicode_len();
    if n < 10 {
        return false;
    }
    if !str_starts_with(s, "video") {
        return false;
    }
    if !str_ends_with(s, ".mp4") {
        return false;
    }
    digits_in_range(s, 5, n - 4)
}

/// Whether a single segment is `<prefix><digits>`.
pub fn is_numbered_segment(s: &str, prefix: &str) -> (r: bool)
    ensures
        r == numbered_segment(s@, prefix@),
{
    let n = s.unicode_len();
    let pn = prefix.unicode_len();
    if n <= pn {
        return false;
    }
    if !str_starts_with(s, prefix) {
        return false;
    }
    digits_in_range(s, pn, n)
}

/// Checks a raw path against the video key convention.
///
/// The stages are tested file name first, then lesson directory, then
/// week directory, and the first failing stage's message is returned,
/// quoting the path verbatim.
pub fn validate_path(vid_path: &str) -> (r: Result<(), String>)
    ensures
        r is Ok <==> valid_video_path(vid_path@),
        r matches Err(m) ==> m@ == failure_reason(vid_path@),
        !video_stage_ok(vid_path@) ==> (r matches Err(m) && m@ == video_reason(vid_path@)),
        video_stage_ok(vid_path@) && !lesson_stage_ok(vid_path@) ==> (r matches Err(m)
            && m@ == lesson_reason(vid_path@)),
        video_stage_ok(vid_path@) && lesson_stage_ok(vid_path@) && !week_stage_ok(vid_path@)
            ==> (r matches Err(m) && m@ == week_reason(vid_path@)),
{
    let segs = split_segments(vid_path);
    let n = segs.len();
    proof {
        assert(segs.deep_view()[n - 1] == segs@[n - 1]@);
        assert(segs.deep_view()[n - 1] == segments(vid_path@).last());
    }
    if !is_video_segment(segs[n - 1].as_str()) {
        return Err(reason_message(
            vid_path,
            ". Video id must be strictly numbered i.e **/video##.mp4",
        ));
    }
    if n < 2 {
        return Err(reason_message(
            vid_path,
            ". Videos must be strictly within 'lesson##' directory i.e. **/lesson##/video##.mp4",
        ));
    }
    proof {
        assert(segs.deep_view()[n - 2] == segs@[n - 2]@);
    }
    if !is_numbered_segment(segs[n - 2].as_str(), "lesson") {
        return Err(reason_message(
            vid_path,
            ". Videos must be strictly within 'lesson##' directory i.e. **/lesson##/video##.mp4",
        ));
    }
    if n < 3 {
        return Err(reason_message(
            vid_path,
            ". Videos must be strictly within 'week##/lesson##' directory i.e. */week##/lesson##/video##.mp4",
        ));
    }
    proof {
        assert(segs.deep_view()[n - 3] == segs@[n - 3]@);
    }
    if !is_numbered_segment(segs[n - 3].as_str(), "week") {
        return Err(reason_message(
            vid_path,
            ". Videos must be strictly within 'week##/lesson##' directory i.e. */week##/lesson##/video##.mp4",
        ));
    }
    Ok(())
}

/// The segments joined back into one path with `/` between them.
pub open spec fn join_segments(segs: Seq<Seq<char>>) -> Seq<char>
    decreases segs.len(),
{
    if segs.len() == 0 {
        Seq::<char>::empty()
    } else if segs.len() == 1 {
        segs[0]
    } else {
        join_segments(segs.drop_last()) + seq!['/'] + segs.last()
    }
}

/// The position of the first segment that begins with `week`, if any.
pub open spec fn first_week_index(segs: Seq<Seq<char>>) -> Option<int>
    decreases segs.len(),
{
    if segs.len() == 0 {
        None
    } else if starts_with(segs[0], "week"@) {
        Some(0int)
    } else {
        match first_week_index(segs.drop_first()) {
            None => None,
            Some(j) => Some(j + 1),
        }
    }
}

/// What `extract_key` returns: the suffix of the path from its first
/// `week`-prefixed segment onward, joined with `/`.
pub open spec fn extract_key_spec(p: Seq<char>) -> Option<Seq<char>> {
    match first_week_index(segments(p)) {
        None => None,
        Some(i) => Some(join_segments(segments(p).skip(i))),
    }
}

/// `first_week_index` finds a `week`-prefixed segment and nothing
/// `week`-prefixed stands before it; when it finds none, no segment is
/// `week`-prefixed.
pub proof fn lemma_first_week_index(segs: Seq<Seq<char>>)
    ensures
        match first_week_index(segs) {
            Some(i) => 0 <= i < segs.len() && starts_with(segs[i], "week"@) && forall|j: int|
                0 <= j < i ==> !starts_with(segs[j], "week"@),
            None => forall|j: int| 0 <= j < segs.len() ==> !starts_with(segs[j], "week"@),
        },
    decreases segs.len(),
{
    if segs.len() == 0 {
    } else if starts_with(segs[0], "week"@) {
    } else {
        lemma_first_week_index(segs.drop_first());
        match first_week_index(segs.drop_first()) {
            None => {
                assert forall|j: int| 0 <= j < segs.len() implies !starts_with(
                    segs[j],
                    "week"@,
                ) by {
                    if j >= 1 {
                        assert(segs[j] == segs.drop_first()[j - 1]);
                    }
                }
            },
            Some(k) => {
                assert(segs[k + 1] == segs.drop_first()[k]);
                assert forall|j: int| 0 <= j < k + 1 implies !starts_with(
                    segs[j],
                    "week"@,
                ) by {
                    if j >= 1 {
                        assert(segs[j] == segs.drop_first()[j - 1]);
                    }
                }
            },
        }
    }
}

/// A `week`-prefixed segment with none before it is the first one.
pub proof fn lemma_first_week_at(segs: Seq<Seq<char>>, i: int)
    requires
        0 <= i < segs.len(),
        starts_with(segs[i], "week"@),
        forall|j: int| 0 <= j < i ==> !starts_with(segs[j], "week"@),
    ensures
        first_week_index(segs) == Some(i),
    decreases i,
{
    if i > 0 {
        assert(forall|j: int|
            1 <= j < segs.len() ==> segs[j] == #[trigger] segs.drop_first()[j - 1]);
        assert(segs.drop_first()[i - 1] == segs[i]);
        lemma_first_week_at(segs.drop_first(), i - 1);
    }
}

/// Joins the segments of `segs` from position `from` on with `/`.
fn join_from(segs: &Vec<String>, from: usize) -> (r: String)
    requires
        from < segs@.len(),
    ensures
        r@ == join_segments(segs.deep_view().skip(from as int)),
{
    let count = segs.len();
    let mut r = String::from_str(segs[from].as_str());
    proof {
        assert(segs.deep_view().subrange(from as int, from + 1) =~= seq![
            segs.deep_view()[from as int],
        ]);
        assert(r@ == join_segments(segs.deep_view().subrange(from as int, from + 1)));
    }
    let mut j: usize = from + 1;
    while j < count
        invariant
            from < segs@.len(),
            count == segs@.len(),
            from + 1 <= j <= segs@.len(),
            segs.deep_view().len() == segs@.len(),
            r@ == join_segments(segs.deep_view().subrange(from as int, j as int)),
        decreases segs@.len() - j,
    {
        r.append("/");
        r.append(segs[j].as_str());
        proof {
            reveal_strlit("/");
            let part = segs.deep_view().subrange(from as int, j + 1);
            assert(part.drop_last() =~= segs.deep_view().subrange(from as int, j as int));
            assert(part.last() == segs.deep_view()[j as int]);
            assert("/"@ =~= seq!['/']);
            assert(r@ =~= join_segments(part.drop_last()) + seq!['/'] + part.last());
        }
        j += 1;
    }
    proof {
        assert(segs.deep_view().subrange(from as int, segs@.len() as int) =~= segs.deep_view()
            .skip(from as int));
    }
    r
}

/// Derives the storage key from a full local path: the suffix from the
/// first `week`-prefixed segment onward. Absolute-path prefixes above
/// that segment do not influence the key.
pub fn extract_key(path: &str) -> (r: Option<String>)
    ensures
        r.deep_view() == extract_key_spec(path@),
        r is Some <==> extract_key_spec(path@) is Some,
{
    let segs = split_segments(path);
    let mut i: usize = 0;
    while i < segs.len()
        invariant
            segs.deep_view() == segments(path@),
            segs.deep_view().len() == segs@.len(),
            i <= segs@.len(),
            forall|j: int| 0 <= j < i ==> !starts_with(segments(path@)[j], "week"@),
        decreases segs@.len() - i,
    {
        proof {
            assert(segs.deep_view()[i as int] == segs@[i as int]@);
        }
        if str_starts_with(segs[i].as_str(), "week") {
            let k = join_from(&segs, i);
            proof {
                lemma_first_week_at(segments(path@), i as int);
            }
            return Some(k);
        }
        i += 1;
    }
    proof {
        lemma_first_week_index(segments(path@));
    }
    None
}

/// No segment of a path contains the separator.
pub proof fn lemma_segments_no_slash(s: Seq<char>)
    ensures
        forall|i: int, j: int|
            0 <= i < segments(s).len() && 0 <= j < segments(s)[i].len() ==> segments(s)[i][j]
                != '/',
    decreases s.len(),
{
    if s.len() != 0 {
        let t = s.drop_last();
        lemma_segments_no_slash(t);
        lemma_segments_nonempty(t);
        let prior = segments(t);
        if s.last() == '/' {
            assert forall|i: int, j: int|
                0 <= i < segments(s).len() && 0 <= j < segments(s)[i].len() implies segments(
                s,
            )[i][j] != '/' by {
                if i < prior.len() {
                    assert(segments(s)[i] == prior[i]);
                } else {
                    assert(segments(s)[i] == Seq::<char>::empty());
                }
            }
        } else {
            assert forall|i: int, j: int|
                0 <= i < segments(s).len() && 0 <= j < segments(s)[i].len() implies segments(
                s,
            )[i][j] != '/' by {
                if i < prior.len() - 1 {
                    assert(segments(s)[i] == prior[i]);
                } else {
                    assert(segments(s)[i] == prior.last().push(s.last()));
                    if j < prior.last().len() {
                        assert(segments(s)[i][j] == prior[prior.len() - 1][j]);
                    } else {
                        assert(segments(s)[i][j] == s.last());
                    }
                }
            }
        }
    }
}

/// A path without separators is its own single segment.
pub proof fn lemma_segments_single(x: Seq<char>)
    requires
        forall|j: int| 0 <= j < x.len() ==> x[j] != '/',
    ensures
        segments(x) == seq![x],
    decreases x.len(),
{
    if x.len() == 0 {
        assert(x =~= Seq::<char>::empty());
        assert(segments(x) =~= seq![x]);
    } else {
        lemma_segments_single(x.drop_last());
        assert(x.drop_last().push(x.last()) =~= x);
        assert(segments(x) =~= seq![x]);
    }
}

/// Splitting distributes over a separator: the segments of
/// `a + "/" + b` are the segments of `a` followed by those of `b`.
pub proof fn lemma_segments_append(a: Seq<char>, b: Seq<char>)
    ensures
        segments(a + seq!['/'] + b) == segments(a) + segments(b),
    decreases b.len(),
{
    let s = a + seq!['/'] + b;
    if b.len() == 0 {
        assert(s =~= a.push('/'));
        assert(s.drop_last() =~= a);
        assert(segments(s) =~= segments(a) + segments(b));
    } else {
        lemma_segments_append(a, b.drop_last());
        lemma_segments_nonempty(b.drop_last());
        assert(s.drop_last() =~= a + seq!['/'] + b.drop_last());
        assert(s.last() == b.last());
        if b.last() == '/' {
            assert(segments(s) =~= segments(a) + segments(b));
        } else {
            let prior_b = segments(b.drop_last());
            let prior_s = segments(s.drop_last());
            assert(prior_s.last() == prior_b.last());
            assert(segments(s) =~= segments(a) + segments(b));
        }
    }
}

/// Joining separator-free segments and splitting again gives the
/// segments back.
pub proof fn lemma_join_roundtrip(l: Seq<Seq<char>>)
    requires
        l.len() >= 1,
        forall|i: int, j: int| 0 <= i < l.len() && 0 <= j < l[i].len() ==> l[i][j] != '/',
    ensures
        segments(join_segments(l)) == l,
    decreases l.len(),
{
    if l.len() == 1 {
        lemma_segments_single(l[0]);
        assert(seq![l[0]] =~= l);
    } else {
        let front = l.drop_last();
        assert forall|i: int, j: int|
            0 <= i < front.len() && 0 <= j < front[i].len() implies front[i][j] != '/' by {
            assert(front[i] == l[i]);
        }
        lemma_join_roundtrip(front);
        lemma_segments_append(join_segments(front), l.last());
        lemma_segments_single(l.last());
        assert(front + seq![l.last()] =~= l);
    }
}

/// Every path that meets the convention yields a key: its week segment
/// is there to anchor the derivation.
pub proof fn lemma_valid_path_has_key(p: Seq<char>)
    requires
        valid_video_path(p),
    ensures
        extract_key_spec(p) is Some,
{
    let segs = segments(p);
    lemma_first_week_index(segs);
    if first_week_index(segs) is None {
        assert(!starts_with(segs[segs.len() - 3], "week"@));
        assert(false);
    }
}

/// Key derivation is idempotent: deriving a key from an
/// already-derived key yields that key again.
pub proof fn lemma_extract_key_idempotent(p: Seq<char>)
    requires
        extract_key_spec(p) is Some,
    ensures
        extract_key_spec(extract_key_spec(p)->0) == extract_key_spec(p),
{
    let segs = segments(p);
    lemma_first_week_index(segs);
    let i = first_week_index(segs)->0;
    let tail = segs.skip(i);
    let k = join_segments(tail);
    lemma_segments_no_slash(p);
    assert forall|a: int, b: int|
        0 <= a < tail.len() && 0 <= b < tail[a].len() implies tail[a][b] != '/' by {
        assert(tail[a] == segs[a + i]);
    }
    lemma_join_roundtrip(tail);
    assert(tail[0] == segs[i]);
    lemma_first_week_at(tail, 0);
    assert(segments(k).skip(0) =~= segments(k));
}

/// Any path of the shape `<prefix>/week<digits>/lesson<digits>/video<digits>.mp4`
/// meets the convention, whatever the prefix.
pub proof fn lemma_valid_triple(prefix: Seq<char>, w: Seq<char>, l: Seq<char>, v: Seq<char>)
    requires
        w.len() > 0,
        l.len() > 0,
        v.len() > 0,
        forall|i: int| 0 <= i < w.len() ==> is_digit(w[i]),
        forall|i: int| 0 <= i < l.len() ==> is_digit(l[i]),
        forall|i: int| 0 <= i < v.len() ==> is_digit(v[i]),
    ensures
        valid_video_path(
            prefix + seq!['/'] + "week"@ + w + seq!['/'] + "lesson"@ + l + seq!['/'] + "video"@
                + v + ".mp4"@,
        ),
{
    reveal_strlit("week");
    reveal_strlit("lesson");
    reveal_strlit("video");
    reveal_strlit(".mp4");
    let wk = "week"@ + w;
    let ls = "lesson"@ + l;
    let vd = "video"@ + v + ".mp4"@;
    let p = prefix + seq!['/'] + "week"@ + w + seq!['/'] + "lesson"@ + l + seq!['/'] + "video"@
        + v + ".mp4"@;
    let q = wk + seq!['/'] + (ls + seq!['/'] + vd);
    assert(p =~= prefix + seq!['/'] + q);
    assert forall|j: int| 0 <= j < wk.len() implies wk[j] != '/' by {
        if j >= 4 {
            assert(is_digit(wk[j]));
        }
    }
    assert forall|j: int| 0 <= j < ls.len() implies ls[j] != '/' by {
        if j >= 6 {
            assert(is_digit(ls[j]));
        }
    }
    assert forall|j: int| 0 <= j < vd.len() implies vd[j] != '/' by {
        if 5 <= j < vd.len() - 4 {
            assert(is_digit(vd[j]));
        } else if j >= vd.len() - 4 {
            assert(vd[j] == ".mp4"@[j - (vd.len() - 4)]);
        }
    }
    lemma_segments_append(prefix, q);
    lemma_segments_append(ls, vd);
    lemma_segments_append(wk, ls + seq!['/'] + vd);
    lemma_segments_single(wk);
    lemma_segments_single(ls);
    lemma_segments_single(vd);
    lemma_segments_nonempty(prefix);
    assert(segments(p) =~= segments(prefix) + seq![wk, ls, vd]);
    let segs = segments(p);
    let n = segs.len();
    assert(segs[n - 1] == vd);
    assert(segs[n - 2] == ls);
    assert(segs[n - 3] == wk);
    assert(video_file_segment(vd)) by {
        assert(vd.subrange(0, 5) =~= "video"@);
        assert(vd.subrange(vd.len() - 4, vd.len() as int) =~= ".mp4"@);
        assert forall|i: int| 5 <= i < vd.len() - 4 implies is_digit(vd[i]) by {
            assert(vd[i] == v[i - 5]);
        }
    }
    assert(numbered_segment(ls, "lesson"@)) by {
        assert(ls.subrange(0, 6) =~= "lesson"@);
        assert forall|i: int| 6 <= i < ls.len() implies is_digit(ls[i]) by {
            assert(ls[i] == l[i - 6]);
        }
    }
    assert(numbered_segment(wk, "week"@)) by {
        assert(wk.subrange(0, 4) =~= "week"@);
        assert forall|i: int| 4 <= i < wk.len() implies is_digit(wk[i]) by {
            assert(wk[i] == w[i - 4]);
        }
    }
}

/// The video key of a transcript key: a final `.txt` replaced by
/// `.mp4`; a key without that suffix is left unchanged.
pub open spec fn video_key_of(t: Seq<char>) -> Seq<char> {
    if ends_with(t, ".txt"@) {
        t.take(t.len() - ".txt"@.len()) + ".mp4"@
    } else {
        t
    }
}

/// The transcript key of a video key: a final `.mp4` replaced by
/// `.txt`; a key without that suffix is left unchanged.
pub open spec fn transcript_key_of(v: Seq<char>) -> Seq<char> {
    if ends_with(v, ".mp4"@) {
        v.take(v.len() - ".mp4"@.len()) + ".txt"@
    } else {
        v
    }
}

/// On `.mp4` keys the two mappings invert each other: the transcript
/// key of a video key leads back to that video key.
pub proof fn lemma_key_mapping_roundtrip(v: Seq<char>)
    requires
        ends_with(v, ".mp4"@),
    ensures
        video_key_of(transcript_key_of(v)) == v,
{
    reveal_strlit(".mp4");
    reveal_strlit(".txt");
    let t = v.take(v.len() - 4) + ".txt"@;
    assert(ends_with(t, ".txt"@)) by {
        assert(t.subrange(t.len() - 4, t.len() as int) =~= ".txt"@);
    }
    assert(t.take(t.len() - 4) =~= v.take(v.len() - 4));
    assert(video_key_of(t) =~= v);
}

/// Maps a transcript key back to the video key it was produced from.
pub fn transcript_to_video_key(t: &str) -> (r: String)
    ensures
        r@ == video_key_of(t@),
{
    proof {
        reveal_strlit(".txt");
    }
    if str_ends_with(t, ".txt") {
        let n = t.unicode_len();
        let stem = t.substring_char(0, n - 4);
        let r = String::from_str(stem).concat(".mp4");
        proof {
            assert(r@ =~= video_key_of(t@));
        }
        r
    } else {
        String::from_str(t)
    }
}

/// Maps a video key to the transcript key its transcript is stored under.
pub fn video_to_transcript_key(v: &str) -> (r: String)
    ensures
        r@ == transcript_key_of(v@),
{
    proof {
        reveal_strlit(".mp4");
    }
    if str_ends_with(v, ".mp4") {
        let n = v.unicode_len();
        let stem = v.substring_char(0, n - 4);
        let r = String::from_str(stem).concat(".txt");
        proof {
            assert(r@ =~= transcript_key_of(v@));
        }
        r
    } else {
        String::from_str(v)
    }
}

/// The storage key of a file below a local root directory: the path
/// with the root prefix removed, or nothing when the path lies outside
/// the root.
pub fn strip_key_prefix(path: &str, root: &str) -> (r: Option<String>)
    ensures
        r is Some <==> starts_with(path@, root@),
        r matches Some(k) ==> k@ == path@.skip(root@.len() as int),
{
    if str_starts_with(path, root) {
        let n = path.unicode_len();
        let pn = root.unicode_len();
        let tail = path.substring_char(pn, n);
        proof {
            assert(tail@ =~= path@.skip(root@.len() as int));
        }
        Some(String::from_str(tail))
    } else {
        None
    }
}

} // verus!
