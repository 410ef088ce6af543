//! The format list offered for a video: yt-dlp's formats ordered from the
//! best, duplicates dropped, each with a short label ("1080p60", "音频").
use vstd::prelude::*;
use crate::num::{parse_u32, parse_unsigned};
use crate::text::{
    chars_of, decimal, opt_view, owned, push_chars, push_str, rfind_char, rfind_char_chars,
    slice_range, string_of, u64_to_decimal,
};

verus! {

broadcast use vstd::string::group_string_axioms;

/// A format as yt-dlp lists it. The frame rate, a float there, is carried
/// by what the list needs of it: its integer part (30 where unknown),
/// whether it is above 30, and its rounded value.
pub struct FormatSource {
    pub format_id: String,
    pub ext: String,
    /// `WIDTHxHEIGHT`, where known
    pub resolution: Option<String>,
    pub fps_floor: u32,
    pub high_fps: bool,
    pub fps_rounded: u32,
    pub vcodec: Option<String>,
    pub acodec: Option<String>,
    pub quality: Option<String>,
    pub filesize: Option<u64>,
}

/// A format as the download page offers it.
pub struct VideoFormatInfo {
    pub format_id: String,
    pub label: String,
    pub ext: String,
    pub filesize: Option<u64>,
    pub has_video: bool,
    pub has_audio: bool,
}

/// An offered format as plain values: id, label, extension, size, video, audio.
pub type FormatView = (Seq<char>, Seq<char>, Seq<char>, Option<u64>, bool, bool);

pub open spec fn info_view(v: VideoFormatInfo) -> FormatView {
    (v.format_id@, v.label@, v.ext@, v.filesize, v.has_video, v.has_audio)
}

pub open spec fn infos_view(v: Seq<VideoFormatInfo>) -> Seq<FormatView> {
    v.map_values(|i: VideoFormatInfo| info_view(i))
}

/// A codec is present: named, and not `none`.
pub open spec fn codec_present(c: Option<String>) -> bool {
    c matches Some(v) && v@.len() > 0 && v@ != "none"@
}

pub open spec fn has_video(f: FormatSource) -> bool {
    codec_present(f.vcodec)
}

pub open spec fn has_audio(f: FormatSource) -> bool {
    codec_present(f.acodec)
}

/// No codec is named but a resolution is: taken as video with audio.
pub open spec fn combined_default(f: FormatSource) -> bool {
    f.vcodec is None && f.acodec is None && f.resolution is Some
}

/// The part of a resolution after its last `x` (all of it without one).
pub open spec fn height_text(res: Seq<char>) -> Seq<char> {
    match rfind_char(res, 'x') {
        Some(i) => res.skip(i + 1),
        None => res,
    }
}

/// The height of a format, 0 where it has no resolution or the height does not parse.
pub open spec fn height_of(f: FormatSource) -> nat {
    match f.resolution {
        Some(r) => match parse_unsigned(height_text(r@), u32::MAX as nat) {
            Some(h) => h,
            None => 0,
        },
        None => 0,
    }
}

/// How common a container is: `mp4` first, then `webm`, then the others.
pub open spec fn ext_rank(ext: Seq<char>) -> nat {
    if ext == "mp4"@ {
        0
    } else if ext == "webm"@ {
        1
    } else {
        2
    }
}

/// `a` ranks below `b`: lower height; or the same height and a lower frame
/// rate; or the same height and frame rate in a less common container.
pub open spec fn ranks_below(a: FormatSource, b: FormatSource) -> bool {
    ||| height_of(a) < height_of(b)
    ||| height_of(a) == height_of(b) && a.fps_floor < b.fps_floor
    ||| height_of(a) == height_of(b) && a.fps_floor == b.fps_floor && ext_rank(a.ext@) > ext_rank(b.ext@)
}

/// The first position of `l` whose format ranks below `x`.
pub open spec fn insert_point(l: Seq<FormatSource>, x: FormatSource) -> int
    decreases l.len(),
{
    if l.len() == 0 {
        0
    } else if ranks_below(l[0], x) {
        0
    } else {
        1 + insert_point(l.drop_first(), x)
    }
}

/// The formats best first; formats of equal rank keep their order (a stable sort).
pub open spec fn best_first(s: Seq<FormatSource>) -> Seq<FormatSource>
    decreases s.len(),
{
    if s.len() == 0 {
        Seq::empty()
    } else {
        let l = best_first(s.drop_last());
        l.insert(insert_point(l, s.last()), s.last())
    }
}

pub proof fn lemma_insert_point(l: Seq<FormatSource>, x: FormatSource)
    ensures
        0 <= insert_point(l, x) <= l.len(),
        forall|k: int| 0 <= k < insert_point(l, x) ==> !ranks_below(#[trigger] l[k], x),
        insert_point(l, x) < l.len() ==> ranks_below(l[insert_point(l, x)], x),
    decreases l.len(),
{
    if l.len() > 0 && !ranks_below(l[0], x) {
        lemma_insert_point(l.drop_first(), x);
        assert forall|k: int| 0 <= k < insert_point(l, x) implies !ranks_below(#[trigger] l[k], x) by {
            if k > 0 {
                assert(l[k] == l.drop_first()[k - 1]);
            }
        }
    }
}

pub proof fn lemma_best_first_len(s: Seq<FormatSource>)
    ensures
        best_first(s).len() == s.len(),
    decreases s.len(),
{
    if s.len() > 0 {
        lemma_best_first_len(s.drop_last());
        lemma_insert_point(best_first(s.drop_last()), s.last());
    }
}

/// The label of a format: `{height}p`, or `{height}p{fps}` above 30 frames
/// per second, where the resolution's height parses; the resolution itself
/// where it does not; `音频` for audio alone; else its quality note, or `视频`.
pub open spec fn format_label(f: FormatSource) -> Seq<char> {
    match f.resolution {
        Some(r) => match parse_unsigned(height_text(r@), u32::MAX as nat) {
            Some(h) => if f.high_fps {
                decimal(h) + seq!['p'] + decimal(f.fps_rounded as nat)
            } else {
                decimal(h) + seq!['p']
            },
            None => r@,
        },
        None => if !has_video(f) && has_audio(f) {
            "音频"@
        } else {
            match f.quality {
                Some(q) => q@,
                None => "视频"@,
            }
        },
    }
}

/// The key under which video formats are told apart: resolution (or
/// `unknown`), frame-rate class, extension.
pub open spec fn video_key(f: FormatSource) -> Seq<char> {
    let res = match f.resolution {
        Some(r) => r@,
        None => "unknown"@,
    };
    res + seq!['_'] + (if f.high_fps { "high"@ } else { "normal"@ }) + seq!['_'] + f.ext@
}

/// What has been offered so far, and the keys already used.
pub struct PassState {
    pub combined: Seq<Seq<char>>,
    pub video_only: Seq<Seq<char>>,
    pub audio: Seq<Seq<char>>,
    pub out: Seq<FormatView>,
}

pub open spec fn offered(f: FormatSource, v: bool, a: bool) -> FormatView {
    (f.format_id@, format_label(f), f.ext@, f.filesize, v, a)
}

/// One format taken into the list: a format with video and audio (or taken
/// as such) is offered unless its key was offered as such; a video-only
/// format likewise among video-only ones; an audio-only format unless its
/// extension was offered, and only while fewer than three are; formats
/// with neither are skipped.
pub open spec fn take_format(st: PassState, f: FormatSource) -> PassState {
    let v = has_video(f);
    let a = has_audio(f);
    let d = combined_default(f);
    if !v && !a && !d {
        st
    } else if (v && a) || d {
        if st.combined.contains(video_key(f)) {
            st
        } else {
            PassState {
                combined: st.combined.push(video_key(f)),
                out: st.out.push(offered(f, true, true)),
                ..st
            }
        }
    } else if v && !a {
        if st.video_only.contains(video_key(f)) {
            st
        } else {
            PassState {
                video_only: st.video_only.push(video_key(f)),
                out: st.out.push(offered(f, true, false)),
                ..st
            }
        }
    } else {
        if st.audio.contains(f.ext@) || st.audio.len() >= 3 {
            st
        } else {
            PassState { audio: st.audio.push(f.ext@), out: st.out.push(offered(f, false, true)), ..st }
        }
    }
}

pub open spec fn empty_pass() -> PassState {
    PassState { combined: Seq::empty(), video_only: Seq::empty(), audio: Seq::empty(), out: Seq::empty() }
}

pub open spec fn take_all(s: Seq<FormatSource>) -> PassState
    decreases s.len(),
{
    if s.len() == 0 {
        empty_pass()
    } else {
        take_format(take_all(s.drop_last()), s.last())
    }
}

/// The offer used when no format was recognised.
pub open spec fn best_quality_offer() -> FormatView {
    ("bestvideo+bestaudio/best"@, "最佳质量"@, "mp4"@, None, true, true)
}

/// The formats offered for yt-dlp's list: best first, duplicates dropped,
/// labelled; the single best-quality offer where none remains.
pub open spec fn offered_formats(s: Seq<FormatSource>) -> Seq<FormatView> {
    let out = take_all(best_first(s)).out;
    if out.len() == 0 {
        seq![best_quality_offer()]
    } else {
        out
    }
}

fn height_exec(f: &FormatSource) -> (h: u32)
    ensures
        h == height_of(*f),
{
    match &f.resolution {
        Some(r) => {
            let t = height_text_exec(r);
            match parse_u32(t.as_str()) {
                Some(h) => h,
                None => 0,
            }
        },
        None => 0,
    }
}

fn height_text_exec(r: &String) -> (t: String)
    ensures
        t@ == height_text(r@),
{
    let v = chars_of(r.as_str());
    match rfind_char_chars(&v, 'x') {
        Some(i) => {
            proof {
                crate::download::lemma_rfind_char_bound(v@, 'x');
            }
            let n = v.len();
            let w = slice_range(&v, i + 1, n);
            assert(w@ =~= v@.skip(i + 1));
            string_of(&w)
        },
        None => owned(r.as_str()),
    }
}

fn ranks_below_exec(ha: u32, a: &FormatSource, hb: u32, b: &FormatSource) -> (r: bool)
    requires
        ha == height_of(*a),
        hb == height_of(*b),
    ensures
        r == ranks_below(*a, *b),
{
    let ra = ext_rank_exec(a.ext.as_str());
    let rb = ext_rank_exec(b.ext.as_str());
    ha < hb || (ha == hb && a.fps_floor < b.fps_floor) || (ha == hb && a.fps_floor == b.fps_floor && ra > rb)
}

/// How common the container `ext` is (see `ext_rank`).
fn ext_rank_exec(ext: &str) -> (r: u8)
    ensures
        r == ext_rank(ext@),
{
    if crate::record::str_eq(ext, "mp4") {
        0
    } else if crate::record::str_eq(ext, "webm") {
        1
    } else {
        2
    }
}

pub proof fn lemma_insert_point_at(l: Seq<FormatSource>, x: FormatSource, p: int)
    requires
        0 <= p <= l.len(),
        forall|k: int| 0 <= k < p ==> !ranks_below(#[trigger] l[k], x),
        p < l.len() ==> ranks_below(l[p], x),
    ensures
        insert_point(l, x) == p,
    decreases p,
{
    if p > 0 {
        assert(!ranks_below(l[0], x));
        assert forall|k: int| 0 <= k < p - 1 implies !ranks_below(#[trigger] l.drop_first()[k], x) by {
            assert(l.drop_first()[k] == l[k + 1]);
        }
        lemma_insert_point_at(l.drop_first(), x, p - 1);
    }
}

/// The formats best first (see `best_first`), by insertion.
fn sort_best_first(formats: Vec<FormatSource>) -> (r: Vec<FormatSource>)
    ensures
        r@ == best_first(formats@),
{
    let ghost all = formats@;
    let mut rest = formats;
    let mut sorted: Vec<FormatSource> = Vec::new();
    let mut heights: Vec<u32> = Vec::new();
    let ghost mut k: int = 0;
    assert(all.take(0) =~= Seq::<FormatSource>::empty());
    while rest.len() > 0
        invariant
            0 <= k <= all.len(),
            rest@ == all.skip(k),
            sorted@ == best_first(all.take(k)),
            heights@.len() == sorted@.len(),
            forall|i: int| 0 <= i < sorted@.len() ==> #[trigger] heights@[i] == height_of(sorted@[i]),
        decreases rest@.len(),
    {
        let x = rest.remove(0);
        assert(x == all[k]);
        let hx = height_exec(&x);
        let mut p: usize = 0;
        while p < sorted.len() && !ranks_below_exec(heights[p], &sorted[p], hx, &x)
            invariant
                p <= sorted@.len(),
                heights@.len() == sorted@.len(),
                forall|i: int| 0 <= i < sorted@.len() ==> #[trigger] heights@[i] == height_of(sorted@[i]),
                hx == height_of(x),
                forall|i: int| 0 <= i < p ==> !ranks_below(#[trigger] sorted@[i], x),
            decreases sorted@.len() - p,
        {
            p = p + 1;
        }
        proof {
            lemma_insert_point_at(sorted@, x, p as int);
            assert(all.take(k + 1).drop_last() =~= all.take(k));
            assert(all.take(k + 1).last() == x);
        }
        let ghost before = sorted@;
        let ghost hbefore = heights@;
        sorted.insert(p, x);
        heights.insert(p, hx);
        proof {
            assert forall|i: int| 0 <= i < sorted@.len() implies #[trigger] heights@[i] == height_of(sorted@[i]) by {
                if i < p {
                    assert(heights@[i] == hbefore[i]);
                    assert(sorted@[i] == before[i]);
                } else if i > p {
                    assert(heights@[i] == hbefore[i - 1]);
                    assert(sorted@[i] == before[i - 1]);
                }
            }
            k = k + 1;
            assert(rest@ =~= all.skip(k));
        }
    }
    assert(all.take(k) =~= all);
    sorted
}

fn codec_present_exec(c: &Option<String>) -> (b: bool)
    ensures
        b == codec_present(*c),
{
    match c {
        Some(v) => !v.as_str().is_empty() && !crate::record::str_eq(v.as_str(), "none"),
        None => false,
    }
}

fn format_label_exec(f: &FormatSource) -> (l: String)
    ensures
        l@ == format_label(*f),
{
    match &f.resolution {
        Some(r) => {
            let t = height_text_exec(r);
            match parse_u32(t.as_str()) {
                Some(h) => {
                    let d = u64_to_decimal(h as u64);
                    let mut s = string_of(&d);
                    push_str(&mut s, "p");
                    proof {
                        reveal_strlit("p");
                    }
                    if f.high_fps {
                        let e = u64_to_decimal(f.fps_rounded as u64);
                        push_chars(&mut s, &e);
                    }
                    s
                },
                None => r.clone(),
            }
        },
        None => {
            if !codec_present_exec(&f.vcodec) && codec_present_exec(&f.acodec) {
                owned("音频")
            } else {
                match &f.quality {
                    Some(q) => q.clone(),
                    None => owned("视频"),
                }
            }
        },
    }
}

fn video_key_exec(f: &FormatSource) -> (k: String)
    ensures
        k@ == video_key(*f),
{
    let mut s = match &f.resolution {
        Some(r) => r.clone(),
        None => owned("unknown"),
    };
    push_str(&mut s, "_");
    if f.high_fps {
        push_str(&mut s, "high");
    } else {
        push_str(&mut s, "normal");
    }
    push_str(&mut s, "_");
    push_str(&mut s, f.ext.as_str());
    proof {
        reveal_strlit("_");
    }
    s
}

fn seen(keys: &Vec<String>, k: &String) -> (b: bool)
    ensures
        b == crate::download::strings_of(keys@).contains(k@),
{
    let mut i: usize = 0;
    while i < keys.len()
        invariant
            i <= keys@.len(),
            forall|j: int| 0 <= j < i ==> keys@[j]@ != k@,
        decreases keys@.len() - i,
    {
        if keys[i] == *k {
            assert(crate::download::strings_of(keys@)[i as int] == k@);
            return true;
        }
        i = i + 1;
    }
    assert(!crate::download::strings_of(keys@).contains(k@)) by {
        if crate::download::strings_of(keys@).contains(k@) {
            let j = choose|j: int| 0 <= j < keys@.len() && crate::download::strings_of(keys@)[j] == k@;
            assert(keys@[j]@ == k@);
        }
    }
    false
}

fn push_key(keys: &mut Vec<String>, k: String)
    ensures
        crate::download::strings_of(final(keys)@) == crate::download::strings_of(old(keys)@).push(k@),
{
    let ghost before = crate::download::strings_of(keys@);
    keys.push(k);
    assert(crate::download::strings_of(keys@) =~= before.push(k@));
}

fn offer(out: &mut Vec<VideoFormatInfo>, f: &FormatSource, v: bool, a: bool)
    ensures
        infos_view(final(out)@) == infos_view(old(out)@).push(offered(*f, v, a)),
{
    let ghost before = infos_view(out@);
    let info = VideoFormatInfo {
        format_id: f.format_id.clone(),
        label: format_label_exec(f),
        ext: f.ext.clone(),
        filesize: f.filesize,
        has_video: v,
        has_audio: a,
    };
    out.push(info);
    assert(infos_view(out@) =~= before.push(offered(*f, v, a)));
}

/// The formats offered for yt-dlp's list `formats` (see `offered_formats`):
/// ordered from the highest resolution and frame rate, the common
/// containers (`mp4`, then `webm`) first among equals, each distinct
/// combination offered once, at most three audio-only extensions, and the
/// best-quality offer where nothing else remains.
pub fn convert_formats(formats: Vec<FormatSource>) -> (r: Vec<VideoFormatInfo>)
    ensures
        infos_view(r@) == offered_formats(formats@),
{
    let ghost input = formats@;
    let sorted = sort_best_first(formats);
    let mut combined: Vec<String> = Vec::new();
    let mut video_only: Vec<String> = Vec::new();
    let mut audio: Vec<String> = Vec::new();
    let mut out: Vec<VideoFormatInfo> = Vec::new();
    let mut k: usize = 0;
    assert(sorted@.take(0) =~= Seq::<FormatSource>::empty());
    assert(crate::download::strings_of(combined@) =~= Seq::<Seq<char>>::empty());
    assert(crate::download::strings_of(video_only@) =~= Seq::<Seq<char>>::empty());
    assert(crate::download::strings_of(audio@) =~= Seq::<Seq<char>>::empty());
    assert(infos_view(out@) =~= Seq::<FormatView>::empty());
    while k < sorted.len()
        invariant
            k <= sorted@.len(),
            ({
                let st = take_all(sorted@.take(k as int));
                &&& crate::download::strings_of(combined@) == st.combined
                &&& crate::download::strings_of(video_only@) == st.video_only
                &&& crate::download::strings_of(audio@) == st.audio
                &&& infos_view(out@) == st.out
            }),
        decreases sorted@.len() - k,
    {
        let ghost s = sorted@;
        assert(s.take(k + 1).drop_last() =~= s.take(k as int));
        assert(s.take(k + 1).last() == s[k as int]);
        let f = &sorted[k];
        let v = codec_present_exec(&f.vcodec);
        let a = codec_present_exec(&f.acodec);
        let d = f.vcodec.is_none() && f.acodec.is_none() && f.resolution.is_some();
        if !v && !a && !d {
        } else if (v && a) || d {
            let key = video_key_exec(f);
            if !seen(&combined, &key) {
                push_key(&mut combined, key);
                offer(&mut out, f, true, true);
            }
        } else if v && !a {
            let key = video_key_exec(f);
            if !seen(&video_only, &key) {
                push_key(&mut video_only, key);
                offer(&mut out, f, true, false);
            }
        } else {
            let key = f.ext.clone();
            if !seen(&audio, &key) && audio.len() < 3 {
                proof {
                    assert(crate::download::strings_of(audio@).len() == audio@.len());
                }
                push_key(&mut audio, key);
                offer(&mut out, f, false, true);
            } else {
                proof {
                    assert(crate::download::strings_of(audio@).len() == audio@.len());
                }
            }
        }
        k = k + 1;
    }
    assert(sorted@.take(sorted@.len() as int) =~= sorted@);
    if out.len() == 0 {
        out.push(VideoFormatInfo {
            format_id: owned("bestvideo+bestaudio/best"),
            label: owned("最佳质量"),
            ext: owned("mp4"),
            filesize: None,
            has_video: true,
            has_audio: true,
        });
        assert(infos_view(out@) =~= seq![best_quality_offer()]);
    }
    out
}

/// A video as the download page shows it.
pub struct VideoInfo {
    pub title: String,
    /// The length as shown
    pub duration: String,
    pub thumbnail: Option<String>,
    pub uploader: Option<String>,
    pub formats: Vec<VideoFormatInfo>,
    pub url: String,
}

/// The first offered format that has video.
pub open spec fn first_video(fs: Seq<VideoFormatInfo>) -> Option<Seq<char>>
    decreases fs.len(),
{
    if fs.len() == 0 {
        None
    } else if fs[0].has_video {
        Some(fs[0].format_id@)
    } else {
        first_video(fs.drop_first())
    }
}

/// The format picked when a video is shown: the first one with video.
pub fn default_format_id(formats: &Vec<VideoFormatInfo>) -> (r: Option<String>)
    ensures
        opt_view(r) == first_video(formats@),
{
    let mut k: usize = 0;
    assert(formats@.skip(0) =~= formats@);
    while k < formats.len()
        invariant
            k <= formats@.len(),
            first_video(formats@) == first_video(formats@.skip(k as int)),
        decreases formats@.len() - k,
    {
        let ghost rest = formats@.skip(k as int);
        assert(rest[0] == formats@[k as int]);
        if formats[k].has_video {
            return Some(formats[k].format_id.clone());
        }
        assert(rest.drop_first() =~= formats@.skip(k + 1));
        k = k + 1;
    }
    None
}

/// The positions of the formats with video, and of those with audio alone.
pub open spec fn video_positions(fs: Seq<VideoFormatInfo>) -> Seq<int>
    decreases fs.len(),
{
    if fs.len() == 0 {
        Seq::empty()
    } else if fs.last().has_video {
        video_positions(fs.drop_last()).push(fs.len() - 1)
    } else {
        video_positions(fs.drop_last())
    }
}

pub open spec fn audio_positions(fs: Seq<VideoFormatInfo>) -> Seq<int>
    decreases fs.len(),
{
    if fs.len() == 0 {
        Seq::empty()
    } else if !fs.last().has_video && fs.last().has_audio {
        audio_positions(fs.drop_last()).push(fs.len() - 1)
    } else {
        audio_positions(fs.drop_last())
    }
}

/// The formats shown under "video" and under "audio", by position.
pub fn split_formats(formats: &Vec<VideoFormatInfo>) -> (r: (Vec<usize>, Vec<usize>))
    ensures
        r.0@.map_values(|i: usize| i as int) == video_positions(formats@),
        r.1@.map_values(|i: usize| i as int) == audio_positions(formats@),
{
    let mut v: Vec<usize> = Vec::new();
    let mut a: Vec<usize> = Vec::new();
    let mut k: usize = 0;
    while k < formats.len()
        invariant
            k <= formats@.len(),
            v@.map_values(|i: usize| i as int) == video_positions(formats@.take(k as int)),
            a@.map_values(|i: usize| i as int) == audio_positions(formats@.take(k as int)),
        decreases formats@.len() - k,
    {
        assert(formats@.take(k + 1).drop_last() =~= formats@.take(k as int));
        let ghost vb = v@.map_values(|i: usize| i as int);
        let ghost ab = a@.map_values(|i: usize| i as int);
        if formats[k].has_video {
            v.push(k);
            assert(v@.map_values(|i: usize| i as int) =~= vb.push(k as int));
        } else if formats[k].has_audio {
            a.push(k);
            assert(a@.map_values(|i: usize| i as int) =~= ab.push(k as int));
        }
        k = k + 1;
    }
    assert(formats@.take(formats@.len() as int) =~= formats@);
    (v, a)
}

/// The count of formats as the preview shows it: `📁 {n} 种格式`.
pub fn format_count_label(n: usize) -> (r: String)
    ensures
        r@ == "📁 "@ + decimal(n as nat) + " 种格式"@,
{
    let mut s = owned("📁 ");
    push_chars(&mut s, &u64_to_decimal(n as u64));
    push_str(&mut s, " 种格式");
    s
}

} // verus!
