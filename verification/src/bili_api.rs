use vstd::prelude::*;
use sonic_rs::{JsonContainerTrait, JsonValueTrait};

verus! {

/// One audio stream of a video as the playback API describes it: where its file is, and
/// which byte ranges hold the initialization segment and the segment index.
#[derive(Debug)]
pub struct StreamAudioInfo {
    pub base_url: String,
    pub bandwidth: usize,
    pub mime_type: String,
    pub codecs: String,
    pub initialization: (usize, usize),
    pub index_range: (usize, usize),
}

/// The answer to an audio information request: the video's title and its audio streams.
pub struct GetVideoInfoResponse {
    pub title: String,
    pub audios: Vec<StreamAudioInfo>,
}

/// A request for the bytes `range_start..=range_end` of the file at `url`.
pub struct M4SChunkRequest {
    pub url: String,
    pub range_start: usize,
    pub range_end: usize,
}

/// The path variables of an audio information request.
pub struct GetVideoInfoPathVariables {
    pub bvid: String,
}

/// A character that is an ASCII decimal digit.
pub open spec fn is_digit(c: char) -> bool {
    '0' <= c <= '9'
}

/// The value of a sequence of decimal digits.
pub open spec fn digits_value(cs: Seq<char>) -> nat
    decreases cs.len(),
{
    if cs.len() == 0 {
        0
    } else {
        digits_value(cs.drop_last()) * 10 + (cs.last() as nat - '0' as nat) as nat
    }
}

/// The text after a leading `+`, if there is one.
pub open spec fn strip_plus(cs: Seq<char>) -> Seq<char> {
    if cs.len() > 0 && cs[0] == '+' {
        cs.drop_first()
    } else {
        cs
    }
}

/// Every character of `cs` is a decimal digit.
pub open spec fn all_digits(cs: Seq<char>) -> bool {
    forall|i: int| 0 <= i < cs.len() ==> is_digit(#[trigger] cs[i])
}

/// `10^n`.
pub open spec fn pow10(n: nat) -> nat
    decreases n,
{
    if n == 0 {
        1
    } else {
        10 * pow10((n - 1) as nat)
    }
}

/// Decimal digits read as a number: a single digit is its own value, and the digits of
/// `a` followed by those of `b` are worth `a` shifted left by the length of `b`, plus `b`.
pub proof fn lemma_digits_value_positional(a: Seq<char>, b: Seq<char>)
    requires
        all_digits(b),
    ensures
        b.len() == 1 ==> digits_value(b) == b[0] as nat - '0' as nat,
        digits_value(a + b) == digits_value(a) * pow10(b.len()) + digits_value(b),
    decreases b.len(),
{
    if b.len() == 0 {
        assert(a + b =~= a);
        assert(pow10(0) == 1);
        assert(digits_value(b) == 0);
        assert(digits_value(a) * 1 == digits_value(a));
    } else {
        let b1 = b.drop_last();
        assert(all_digits(b1)) by {
            assert forall|i: int| 0 <= i < b1.len() implies is_digit(#[trigger] b1[i]) by {
                assert(b1[i] == b[i]);
            }
        }
        lemma_digits_value_positional(a, b1);
        assert((a + b).drop_last() =~= a + b1);
        assert((a + b).last() == b.last());
        assert(is_digit(b[b.len() - 1]));
        let l = (b.last() as nat - '0' as nat) as nat;
        assert(digits_value(b) == digits_value(b1) * 10 + l);
        assert(digits_value(a + b) == digits_value(a + b1) * 10 + l);
        let x = digits_value(a);
        let y = digits_value(b1);
        let q = pow10(b1.len());
        assert(pow10(b.len()) == 10 * q);
        assert((x * q + y) * 10 + l == x * (10 * q) + (y * 10 + l)) by (nonlinear_arith);
        assert(digits_value(a + b1) == x * q + y);
        assert(digits_value(a + b) == x * pow10(b.len()) + digits_value(b));
        if b.len() == 1 {
            assert(b1.len() == 0);
        }
    }
}

/// What `str::parse::<usize>` accepts: an optional `+` and at least one decimal digit,
/// nothing else, of a value that fits in a `usize`.
pub open spec fn spec_parse_usize(cs: Seq<char>) -> Option<usize> {
    if strip_plus(cs).len() > 0 && all_digits(strip_plus(cs)) && digits_value(strip_plus(cs))
        <= usize::MAX {
        Some(digits_value(strip_plus(cs)) as usize)
    } else {
        None
    }
}

/// Index of the first `-` of `cs`.
pub open spec fn first_dash(cs: Seq<char>) -> Option<int> {
    if exists|i: int| 0 <= i < cs.len() && cs[i] == '-' {
        Some(choose|i: int| 0 <= i < cs.len() && cs[i] == '-' && forall|j: int| 0 <= j < i ==> cs[j] != '-')
    } else {
        None
    }
}

/// Parses a decimal number with std's `str::parse::<usize>`, which accepts an optional `+`
/// followed by decimal digits only, and refuses a value that does not fit.
#[verifier::external_body]
fn parse_usize(s: &str) -> (r: Option<usize>)
    ensures
        r == spec_parse_usize(s@),
{
    s.parse::<usize>().ok()
}

/// Splits a string at its first `-` with std's `str::split_once`.
#[verifier::external_body]
fn split_at_dash(s: &str) -> (r: Option<(&str, &str)>)
    ensures
        r is Some <==> first_dash(s@) is Some,
        r matches Some((a, b)) ==> a@ == s@.subrange(0, first_dash(s@).unwrap()) && b@ == s@.subrange(
            first_dash(s@).unwrap() + 1,
            s@.len() as int,
        ),
{
    s.split_once('-')
}

/// The byte range written as `begin-end`: the text before the first `-` and the text
/// after it, each read as a decimal number (0 when it is not one); (0, 0) when there is
/// no `-`.
pub open spec fn spec_range(cs: Seq<char>) -> (usize, usize) {
    match first_dash(cs) {
        Some(d) => (
            match spec_parse_usize(cs.subrange(0, d)) {
                Some(v) => v,
                None => 0,
            },
            match spec_parse_usize(cs.subrange(d + 1, cs.len() as int)) {
                Some(v) => v,
                None => 0,
            },
        ),
        None => (0, 0),
    }
}

/// A range written as decimal digits, a `-`, and decimal digits reads as the two numbers:
/// `begin-end` gives `(begin, end)` when both fit in a `usize`.
pub proof fn lemma_range_of_two_numbers(a: Seq<char>, b: Seq<char>)
    requires
        a.len() > 0,
        b.len() > 0,
        all_digits(a),
        all_digits(b),
        digits_value(a) <= usize::MAX,
        digits_value(b) <= usize::MAX,
    ensures
        spec_range(a + seq!['-'] + b) == (digits_value(a) as usize, digits_value(b) as usize),
{
    let cs = a + seq!['-'] + b;
    let n = a.len() as int;
    assert(cs[n] == '-');
    assert(forall|j: int| 0 <= j < n ==> cs[j] == a[j]);
    assert(forall|j: int| 0 <= j < n ==> #[trigger] cs[j] != '-') by {
        assert forall|j: int| 0 <= j < n implies #[trigger] cs[j] != '-' by {
            assert(is_digit(a[j]));
        }
    }
    assert(exists|i: int| 0 <= i < cs.len() && cs[i] == '-');
    let d = choose|i: int| 0 <= i < cs.len() && cs[i] == '-' && forall|j: int| 0 <= j < i ==> cs[j] != '-';
    assert(0 <= n < cs.len() && cs[n] == '-' && forall|j: int| 0 <= j < n ==> cs[j] != '-');
    assert(d == n) by {
        if d < n {
            assert(cs[d] != '-');
        } else if d > n {
            assert(cs[n] != '-');
        }
    }
    assert(cs.subrange(0, n) =~= a);
    assert(cs.subrange(n + 1, cs.len() as int) =~= b);
    assert(is_digit(a[0]));
    assert(is_digit(b[0]));
    assert(strip_plus(a) == a);
    assert(strip_plus(b) == b);
}

/// Reads a byte range written as `begin-end`.
pub fn parse_range(s: &str) -> (r: (usize, usize))
    ensures
        r == spec_range(s@),
{
    match split_at_dash(s) {
        Some((a, b)) => {
            let begin = match parse_usize(a) {
                Some(v) => v,
                None => 0,
            };
            let end = match parse_usize(b) {
                Some(v) => v,
                None => 0,
            };
            (begin, end)
        },
        None => (0, 0),
    }
}

/// The text of an optional field, empty when absent.
pub open spec fn text_or_empty(v: Option<&str>) -> Seq<char> {
    match v {
        Some(s) => s@,
        None => Seq::empty(),
    }
}

/// A range read from an optional `begin-end` text, (0, 0) when absent.
pub open spec fn range_or_zero(v: Option<&str>) -> (usize, usize) {
    match v {
        Some(s) => spec_range(s@),
        None => (0, 0),
    }
}

impl StreamAudioInfo {
    /// The description of an audio stream from the fields the API gives: an absent text
    /// becomes empty, an absent bandwidth 0, and an absent or malformed range (0, 0).
    pub fn new(
        base_url: Option<&str>,
        bandwidth: Option<u64>,
        mime_type: Option<&str>,
        codecs: Option<&str>,
        initialization: Option<&str>,
        index_range: Option<&str>,
    ) -> (r: Self)
        ensures
            r.base_url@ == text_or_empty(base_url),
            r.bandwidth == (match bandwidth {
                Some(b) => b as usize,
                None => 0usize,
            }),
            r.mime_type@ == text_or_empty(mime_type),
            r.codecs@ == text_or_empty(codecs),
            r.initialization == range_or_zero(initialization),
            r.index_range == range_or_zero(index_range),
    {
        StreamAudioInfo {
            base_url: text_or_default(base_url),
            bandwidth: match bandwidth {
                Some(b) => b as usize,
                None => 0,
            },
            mime_type: text_or_default(mime_type),
            codecs: text_or_default(codecs),
            initialization: match initialization {
                Some(s) => parse_range(s),
                None => (0, 0),
            },
            index_range: match index_range {
                Some(s) => parse_range(s),
                None => (0, 0),
            },
        }
    }

    /// Where the media data starts: the last byte of the segment index, from which the
    /// index's offsets count.
    pub fn data_start_offset(&self) -> (r: usize)
        ensures
            r == self.index_range.1,
    {
        self.index_range.1
    }
}

/// An owned copy of an optional text, empty when absent.
fn text_or_default(v: Option<&str>) -> (r: String)
    ensures
        r@ == text_or_empty(v),
{
    match v {
        Some(s) => s.to_owned(),
        None => String::new(),
    }
}

/// The ids of `cids` that are there, in order.
pub open spec fn present_ids(cids: Seq<Option<u64>>) -> Seq<u64>
    decreases cids.len(),
{
    if cids.len() == 0 {
        Seq::empty()
    } else {
        let rest = present_ids(cids.drop_last());
        match cids.last() {
            Some(c) => rest.push(c),
            None => rest,
        }
    }
}

/// The page ids of a video that its description gives, in order, leaving out the pages
/// whose id is missing.
pub fn present_cids(cids: &[Option<u64>]) -> (r: Vec<u64>)
    ensures
        r@ == present_ids(cids@),
{
    let mut r: Vec<u64> = Vec::new();
    let mut i: usize = 0;
    while i < cids.len()
        invariant
            i <= cids@.len(),
            r@ == present_ids(cids@.take(i as int)),
        decreases cids@.len() - i,
    {
        assert(cids@.take(i as int + 1).drop_last() =~= cids@.take(i as int));
        if let Some(c) = cids[i] {
            r.push(c);
        }
        i = i + 1;
    }
    assert(cids@.take(cids@.len() as int) =~= cids@);
    r
}

impl M4SChunkRequest {
    /// The request for the bytes `range.0..=range.1` of the file at `url`.
    pub fn new(url: &str, range: (usize, usize)) -> (r: Self)
        ensures
            r.url@ == url@,
            r.range_start == range.0,
            r.range_end == range.1,
    {
        M4SChunkRequest { url: url.to_owned(), range_start: range.0, range_end: range.1 }
    }
}


// ---------------------------------------------------------------------------------------
// The video site's JSON answers
// ---------------------------------------------------------------------------------------

/// The fields of one audio stream of a play-URL answer, each as the answer gives it.
pub struct AudioEntry {
    pub base_url: Option<String>,
    pub bandwidth: Option<u64>,
    pub mime_type: Option<String>,
    pub codecs: Option<String>,
    pub initialization: Option<String>,
    pub index_range: Option<String>,
}

/// An optional text, by its view.
pub open spec fn opt_text(o: Option<String>) -> Option<Seq<char>> {
    match o {
        Some(s) => Some(s@),
        None => None,
    }
}

/// The fields of an audio stream entry, by their views.
pub open spec fn entry_view(e: AudioEntry) -> (
    Option<Seq<char>>,
    Option<u64>,
    Option<Seq<char>>,
    Option<Seq<char>>,
    Option<Seq<char>>,
    Option<Seq<char>>,
) {
    (
        opt_text(e.base_url),
        e.bandwidth,
        opt_text(e.mime_type),
        opt_text(e.codecs),
        opt_text(e.initialization),
        opt_text(e.index_range),
    )
}

/// The entries of a play-URL answer, by their views.
pub open spec fn audio_list_view(r: Option<Option<Vec<AudioEntry>>>) -> Option<
    Option<
        Seq<
            (
                Option<Seq<char>>,
                Option<u64>,
                Option<Seq<char>>,
                Option<Seq<char>>,
                Option<Seq<char>>,
                Option<Seq<char>>,
            ),
        >,
    >,
> {
    match r {
        Some(Some(v)) => Some(Some(v@.map_values(|e: AudioEntry| entry_view(e)))),
        Some(None) => Some(None),
        None => None,
    }
}

/// What `sonic_rs` reads from a play-URL answer `text`: nothing when the text is not JSON;
/// else the array at `data.dash.audio`, if there is one, with the fields `base_url`,
/// `bandwidth`, `mime_type`, `codecs`, `segment_base.initialization` and
/// `segment_base.index_range` of each entry.
pub uninterp spec fn audio_fields(text: Seq<char>) -> Option<
    Option<
        Seq<
            (
                Option<Seq<char>>,
                Option<u64>,
                Option<Seq<char>>,
                Option<Seq<char>>,
                Option<Seq<char>>,
                Option<Seq<char>>,
            ),
        >,
    >,
>;

/// What `sonic_rs` reads from a video answer `text`: nothing when the text is not JSON;
/// else the text at `data.title` and the `cid` of each entry of the array at
/// `data.pages`, each where there is one.
pub uninterp spec fn video_fields(text: Seq<char>) -> Option<(Option<Seq<char>>, Option<Seq<Option<u64>>>)>;

/// Reads a play-URL answer with `sonic_rs`: `from_str` into a `Value`, then `pointer`,
/// `as_array`, `get`, `as_str` and `as_u64`. Its result is named `audio_fields`; nothing
/// more is stated of it.
#[verifier::external_body]
fn read_audio_fields(text: &str) -> (r: Option<Option<Vec<AudioEntry>>>)
    ensures
        audio_list_view(r) == audio_fields(text@),
{
    let v: sonic_rs::Value = sonic_rs::from_str(text).ok()?;
    let s = |e: &sonic_rs::Value, k: &[&str]| e.pointer(k).and_then(|x| x.as_str()).map(String::from);
    Some(v.pointer(["data", "dash", "audio"]).and_then(|a| a.as_array()).map(|a| a.iter().map(|e| AudioEntry {
        base_url: s(e, &["base_url"]),
        bandwidth: e.get("bandwidth").and_then(|x| x.as_u64()),
        mime_type: s(e, &["mime_type"]),
        codecs: s(e, &["codecs"]),
        initialization: s(e, &["segment_base", "initialization"]),
        index_range: s(e, &["segment_base", "index_range"]),
    }).collect()))
}

/// Reads a video answer with `sonic_rs`: `from_str` into a `Value`, then `pointer`,
/// `as_str`, `as_array`, `get` and `as_u64`. Its result is named `video_fields`; nothing
/// more is stated of it.
#[verifier::external_body]
fn read_video_fields(text: &str) -> (r: Option<(Option<String>, Option<Vec<Option<u64>>>)>)
    ensures
        (match r {
            Some((title, cids)) => Some((opt_text(title), match cids {
                Some(c) => Some(c@),
                None => None,
            })),
            None => None,
        }) == video_fields(text@),
{
    let v: sonic_rs::Value = sonic_rs::from_str(text).ok()?;
    let title = v.pointer(["data", "title"]).and_then(|x| x.as_str()).map(String::from);
    let pages = v.pointer(["data", "pages"]).and_then(|x| x.as_array());
    Some((title, pages.map(|a| a.iter().map(|e| e.get("cid").and_then(|c| c.as_u64())).collect())))
}

/// A text of an answer, empty when absent.
pub open spec fn seq_or_empty(o: Option<Seq<char>>) -> Seq<char> {
    match o {
        Some(t) => t,
        None => Seq::empty(),
    }
}

/// `info` describes the audio stream whose fields an answer gives as `f`: absent texts
/// are empty, an absent bandwidth is 0, and an absent or malformed range is (0, 0).
pub open spec fn info_from_fields(
    info: StreamAudioInfo,
    f: (
        Option<Seq<char>>,
        Option<u64>,
        Option<Seq<char>>,
        Option<Seq<char>>,
        Option<Seq<char>>,
        Option<Seq<char>>,
    ),
) -> bool {
    &&& info.base_url@ == seq_or_empty(f.0)
    &&& info.bandwidth == (match f.1 {
        Some(b) => b as usize,
        None => 0usize,
    })
    &&& info.mime_type@ == seq_or_empty(f.2)
    &&& info.codecs@ == seq_or_empty(f.3)
    &&& info.initialization == (match f.4 {
        Some(t) => spec_range(t),
        None => (0usize, 0usize),
    })
    &&& info.index_range == (match f.5 {
        Some(t) => spec_range(t),
        None => (0usize, 0usize),
    })
}

/// An optional owned text as an optional borrowed one.
fn opt_str(o: &Option<String>) -> (r: Option<&str>)
    ensures
        r is Some <==> o is Some,
        r matches Some(t) ==> opt_text(*o) == Some(t@),
{
    match o {
        Some(s) => Some(s.as_str()),
        None => None,
    }
}

/// The audio streams that a play-URL answer `text` describes, in order: none when it has
/// no `data.dash.audio` array; nothing when the text is not JSON.
pub fn audio_infos_from_text(text: &str) -> (r: Option<Vec<StreamAudioInfo>>)
    ensures
        r is None <==> audio_fields(text@) is None,
        r matches Some(v) ==> match audio_fields(text@).unwrap() {
            None => v@.len() == 0,
            Some(fs) => v@.len() == fs.len() && forall|i: int|
                0 <= i < fs.len() ==> #[trigger] info_from_fields(v@[i], fs[i]),
        },
{
    let entries = match read_audio_fields(text) {
        None => {
            return None;
        },
        Some(None) => {
            return Some(Vec::new());
        },
        Some(Some(entries)) => entries,
    };
    let ghost fs = entries@.map_values(|e: AudioEntry| entry_view(e));
    let mut infos: Vec<StreamAudioInfo> = Vec::new();
    let mut i: usize = 0;
    while i < entries.len()
        invariant
            fs == entries@.map_values(|e: AudioEntry| entry_view(e)),
            i <= entries@.len(),
            infos@.len() == i,
            forall|j: int| 0 <= j < i ==> #[trigger] info_from_fields(infos@[j], fs[j]),
        decreases entries@.len() - i,
    {
        let e = &entries[i];
        let info = StreamAudioInfo::new(
            opt_str(&e.base_url),
            e.bandwidth,
            opt_str(&e.mime_type),
            opt_str(&e.codecs),
            opt_str(&e.initialization),
            opt_str(&e.index_range),
        );
        assert(info_from_fields(info, fs[i as int]));
        infos.push(info);
        i = i + 1;
    }
    Some(infos)
}

/// The title of a video and the ids of its pages that a video answer `text` gives: an
/// empty title when it has none, and no ids when it has no page array; pages without an
/// id are left out. Nothing when the text is not JSON.
pub fn video_info_from_text(text: &str) -> (r: Option<(String, Vec<u64>)>)
    ensures
        r is None <==> video_fields(text@) is None,
        r matches Some((title, ids)) ==> video_fields(text@) matches Some((t, cids)) && title@
            == seq_or_empty(t) && ids@ == present_ids(
            match cids {
                Some(c) => c,
                None => Seq::empty(),
            },
        ),
{
    let (title, cids) = read_video_fields(text)?;
    let title = match title {
        Some(t) => t,
        None => String::new(),
    };
    let ids = match cids {
        Some(c) => present_cids(c.as_slice()),
        None => present_cids(&[]),
    };
    Some((title, ids))
}

} // verus!
