//! The JSON metadata block of a DCA1 stream, and the tags taken from it.
use vstd::prelude::*;

verus! {

/// The metadata block of a DCA1 stream.
#[derive(Debug)]
pub struct DcaMetadata {
    /// About the DCA encoding.
    pub dca: DcaInfo,
    /// About the Opus encoding.
    pub opus: Opus,
    /// About the audio itself.
    pub info: Option<Info>,
    /// About where the audio came from.
    pub origin: Option<Origin>,
}

/// Version of DCA and the tool that encoded the stream.
#[derive(Debug)]
pub struct DcaInfo {
    pub version: u64,
    pub tool: Tool,
}

/// The tool that encoded the stream.
#[derive(Debug)]
pub struct Tool {
    pub name: String,
    pub version: String,
    pub url: Option<String>,
    pub author: Option<String>,
}

/// Settings of the Opus encoder.
#[derive(Debug)]
pub struct Opus {
    pub mode: String,
    pub sample_rate: u32,
    pub frame_size: u64,
    pub abr: Option<u64>,
    pub vbr: bool,
    pub channels: u8,
}

/// Descriptive information about the audio.
#[derive(Debug)]
pub struct Info {
    pub title: Option<String>,
    pub artist: Option<String>,
    pub album: Option<String>,
    pub genre: Option<String>,
    pub cover: Option<String>,
    pub comments: Option<String>,
}

/// Where the audio came from.
#[derive(Debug)]
pub struct Origin {
    pub source: Option<String>,
    pub abr: Option<u64>,
    pub channels: Option<u8>,
    pub encoding: Option<String>,
    pub url: Option<String>,
}

/// The kind of a tag taken from the metadata block.
#[derive(Debug, Clone, Copy, PartialEq, Eq, Structural)]
pub enum DcaTagKind {
    Title,
    Album,
    Artist,
    Genre,
    Comments,
    Url,
}

impl DcaTagKind {
    /// The raw key under which the tag is recorded.
    pub fn raw_key(self) -> (k: &'static str)
        ensures
            self == DcaTagKind::Title ==> k@ == "title"@,
            self == DcaTagKind::Album ==> k@ == "album"@,
            self == DcaTagKind::Artist ==> k@ == "artist"@,
            self == DcaTagKind::Genre ==> k@ == "genre"@,
            self == DcaTagKind::Comments ==> k@ == "comments"@,
            self == DcaTagKind::Url ==> k@ == "url"@,
    {
        match self {
            DcaTagKind::Title => "title",
            DcaTagKind::Album => "album",
            DcaTagKind::Artist => "artist",
            DcaTagKind::Genre => "genre",
            DcaTagKind::Comments => "comments",
            DcaTagKind::Url => "url",
        }
    }
}

/// A tag taken from the metadata block.
#[derive(Debug)]
pub struct DcaTag {
    pub kind: DcaTagKind,
    pub value: String,
}

/// The tag for an optional value: none when the value is absent.
pub open spec fn opt_tag(kind: DcaTagKind, value: Option<String>) -> Seq<(DcaTagKind, Seq<char>)> {
    match value {
        Some(v) => seq![(kind, v@)],
        None => Seq::empty(),
    }
}

/// The tags of the `info` section: title, album, artist, genre and comments, in
/// that order, each where present. The cover is not taken.
pub open spec fn info_tags(info: Option<Info>) -> Seq<(DcaTagKind, Seq<char>)> {
    match info {
        Some(i) => opt_tag(DcaTagKind::Title, i.title) + opt_tag(DcaTagKind::Album, i.album)
            + opt_tag(DcaTagKind::Artist, i.artist) + opt_tag(DcaTagKind::Genre, i.genre)
            + opt_tag(DcaTagKind::Comments, i.comments),
        None => Seq::empty(),
    }
}

/// The tags of the `origin` section: its URL, where present.
pub open spec fn origin_tags(origin: Option<Origin>) -> Seq<(DcaTagKind, Seq<char>)> {
    match origin {
        Some(o) => opt_tag(DcaTagKind::Url, o.url),
        None => Seq::empty(),
    }
}

/// All tags of a metadata block, in order.
pub open spec fn spec_metadata_tags(meta: DcaMetadata) -> Seq<(DcaTagKind, Seq<char>)> {
    info_tags(meta.info) + origin_tags(meta.origin)
}

/// The field of a metadata block that a tag of kind `kind` is taken from: the
/// `info` fields for title, album, artist, genre and comments, and the `origin`
/// URL for the URL.
pub open spec fn tag_source(meta: DcaMetadata, kind: DcaTagKind) -> Option<String> {
    match kind {
        DcaTagKind::Url => match meta.origin {
            Some(o) => o.url,
            None => None,
        },
        _ => match meta.info {
            Some(i) => match kind {
                DcaTagKind::Title => i.title,
                DcaTagKind::Album => i.album,
                DcaTagKind::Artist => i.artist,
                DcaTagKind::Genre => i.genre,
                DcaTagKind::Comments => i.comments,
                DcaTagKind::Url => None,
            },
            None => None,
        },
    }
}

/// Position of a tag kind in the order in which tags are taken.
pub open spec fn kind_rank(kind: DcaTagKind) -> int {
    match kind {
        DcaTagKind::Title => 0,
        DcaTagKind::Album => 1,
        DcaTagKind::Artist => 2,
        DcaTagKind::Genre => 3,
        DcaTagKind::Comments => 4,
        DcaTagKind::Url => 5,
    }
}

/// Every entry of `s` is the value of its kind's field, ranks lie in `[lo, hi)`, and
/// ranks strictly increase along `s`.
spec fn well_sourced(meta: DcaMetadata, s: Seq<(DcaTagKind, Seq<char>)>, lo: int, hi: int) -> bool {
    &&& forall|i: int|
        #![trigger s[i]]
        0 <= i < s.len() ==> tag_source(meta, s[i].0) is Some && tag_source(meta, s[i].0)->0@ == s[i].1 && lo
            <= kind_rank(s[i].0) < hi
    &&& forall|i: int, j: int| 0 <= i < j < s.len() ==> kind_rank(#[trigger] s[i].0) < kind_rank(#[trigger] s[j].0)
}

proof fn lemma_opt_tag_well_sourced(meta: DcaMetadata, kind: DcaTagKind)
    ensures
        well_sourced(meta, opt_tag(kind, tag_source(meta, kind)), kind_rank(kind), kind_rank(kind) + 1),
        tag_source(meta, kind) matches Some(v) ==> opt_tag(kind, tag_source(meta, kind)).contains((kind, v@)),
{
    if let Some(v) = tag_source(meta, kind) {
        assert(opt_tag(kind, tag_source(meta, kind))[0] == (kind, v@));
    }
}

proof fn lemma_concat_well_sourced(
    meta: DcaMetadata,
    x: Seq<(DcaTagKind, Seq<char>)>,
    y: Seq<(DcaTagKind, Seq<char>)>,
    a: int,
    b: int,
    c: int,
)
    requires
        a <= b <= c,
        well_sourced(meta, x, a, b),
        well_sourced(meta, y, b, c),
    ensures
        well_sourced(meta, x + y, a, c),
{
    let s = x + y;
    assert forall|i: int| 0 <= i < s.len() implies tag_source(meta, (#[trigger] s[i]).0) is Some && tag_source(
        meta,
        s[i].0,
    )->0@ == s[i].1 && a <= kind_rank(s[i].0) < c by {
        if i < x.len() {
            assert(s[i] == x[i]);
        } else {
            assert(s[i] == y[i - x.len()]);
        }
    }
    assert forall|i: int, j: int| 0 <= i < j < s.len() implies kind_rank(#[trigger] s[i].0) < kind_rank(
        #[trigger] s[j].0,
    ) by {
        if j < x.len() {
            assert(s[i] == x[i] && s[j] == x[j]);
        } else if i >= x.len() {
            assert(s[i] == y[i - x.len()] && s[j] == y[j - x.len()]);
        } else {
            assert(s[i] == x[i] && s[j] == y[j - x.len()]);
        }
    }
}

proof fn lemma_contains_concat(x: Seq<(DcaTagKind, Seq<char>)>, y: Seq<(DcaTagKind, Seq<char>)>, e: (DcaTagKind, Seq<char>))
    requires
        x.contains(e) || y.contains(e),
    ensures
        (x + y).contains(e),
{
    if x.contains(e) {
        let i = choose|i: int| 0 <= i < x.len() && x[i] == e;
        assert((x + y)[i] == e);
    } else {
        let i = choose|i: int| 0 <= i < y.len() && y[i] == e;
        assert((x + y)[x.len() + i] == e);
    }
}

/// The tags of a metadata block, taken field by field: every field present gives a
/// tag of its own kind with its value, whatever the other fields hold; every tag is
/// the value of a present field of its kind; and tags come in the order title,
/// album, artist, genre, comments, URL, each kind at most once.
pub proof fn lemma_tags_follow_fields(meta: DcaMetadata)
    ensures
        forall|kind: DcaTagKind|
            #![trigger tag_source(meta, kind)]
            tag_source(meta, kind) matches Some(v) ==> spec_metadata_tags(meta).contains((kind, v@)),
        forall|i: int|
            #![trigger spec_metadata_tags(meta)[i]]
            0 <= i < spec_metadata_tags(meta).len() ==> (tag_source(meta, spec_metadata_tags(meta)[i].0) matches Some(
                v,
            ) && v@ == spec_metadata_tags(meta)[i].1),
        forall|i: int, j: int|
            0 <= i < j < spec_metadata_tags(meta).len() ==> kind_rank(#[trigger] spec_metadata_tags(meta)[i].0)
                < kind_rank(#[trigger] spec_metadata_tags(meta)[j].0),
{
    let t = opt_tag(DcaTagKind::Title, tag_source(meta, DcaTagKind::Title));
    let al = opt_tag(DcaTagKind::Album, tag_source(meta, DcaTagKind::Album));
    let ar = opt_tag(DcaTagKind::Artist, tag_source(meta, DcaTagKind::Artist));
    let g = opt_tag(DcaTagKind::Genre, tag_source(meta, DcaTagKind::Genre));
    let c = opt_tag(DcaTagKind::Comments, tag_source(meta, DcaTagKind::Comments));
    let u = opt_tag(DcaTagKind::Url, tag_source(meta, DcaTagKind::Url));
    let s = t + al + ar + g + c + u;
    assert(spec_metadata_tags(meta) =~= s) by {
        match meta.info {
            Some(i) => {},
            None => {
                assert(t + al + ar + g + c =~= Seq::<(DcaTagKind, Seq<char>)>::empty());
            },
        }
    }
    lemma_opt_tag_well_sourced(meta, DcaTagKind::Title);
    lemma_opt_tag_well_sourced(meta, DcaTagKind::Album);
    lemma_opt_tag_well_sourced(meta, DcaTagKind::Artist);
    lemma_opt_tag_well_sourced(meta, DcaTagKind::Genre);
    lemma_opt_tag_well_sourced(meta, DcaTagKind::Comments);
    lemma_opt_tag_well_sourced(meta, DcaTagKind::Url);
    lemma_concat_well_sourced(meta, t, al, 0, 1, 2);
    lemma_concat_well_sourced(meta, t + al, ar, 0, 2, 3);
    lemma_concat_well_sourced(meta, t + al + ar, g, 0, 3, 4);
    lemma_concat_well_sourced(meta, t + al + ar + g, c, 0, 4, 5);
    lemma_concat_well_sourced(meta, t + al + ar + g + c, u, 0, 5, 6);
    assert forall|kind: DcaTagKind| #[trigger] tag_source(meta, kind) is Some implies spec_metadata_tags(
        meta,
    ).contains((kind, tag_source(meta, kind)->0@)) by {
        let v = tag_source(meta, kind)->0;
        let e = (kind, v@);
        match kind {
            DcaTagKind::Title => {
                lemma_contains_concat(t, al, e);
                lemma_contains_concat(t + al, ar, e);
                lemma_contains_concat(t + al + ar, g, e);
                lemma_contains_concat(t + al + ar + g, c, e);
                lemma_contains_concat(t + al + ar + g + c, u, e);
            },
            DcaTagKind::Album => {
                lemma_contains_concat(t, al, e);
                lemma_contains_concat(t + al, ar, e);
                lemma_contains_concat(t + al + ar, g, e);
                lemma_contains_concat(t + al + ar + g, c, e);
                lemma_contains_concat(t + al + ar + g + c, u, e);
            },
            DcaTagKind::Artist => {
                lemma_contains_concat(t + al, ar, e);
                lemma_contains_concat(t + al + ar, g, e);
                lemma_contains_concat(t + al + ar + g, c, e);
                lemma_contains_concat(t + al + ar + g + c, u, e);
            },
            DcaTagKind::Genre => {
                lemma_contains_concat(t + al + ar, g, e);
                lemma_contains_concat(t + al + ar + g, c, e);
                lemma_contains_concat(t + al + ar + g + c, u, e);
            },
            DcaTagKind::Comments => {
                lemma_contains_concat(t + al + ar + g, c, e);
                lemma_contains_concat(t + al + ar + g + c, u, e);
            },
            DcaTagKind::Url => {
                lemma_contains_concat(t + al + ar + g + c, u, e);
            },
        }
    }
}

/// Whether `tags` holds exactly the kinds and values listed in `expected`.
pub open spec fn tags_match(tags: Seq<DcaTag>, expected: Seq<(DcaTagKind, Seq<char>)>) -> bool {
    &&& tags.len() == expected.len()
    &&& forall|i: int| 0 <= i < tags.len() ==> #[trigger] tags[i].kind == expected[i].0
        && tags[i].value@ == expected[i].1
}

/// Appends the tag for an optional value.
fn push_opt_tag(tags: &mut Vec<DcaTag>, kind: DcaTagKind, value: Option<String>)
    ensures
        forall|expected: Seq<(DcaTagKind, Seq<char>)>| tags_match(old(tags)@, expected) ==> tags_match(
            final(tags)@,
            expected + opt_tag(kind, value),
        ),
{
    match value {
        Some(v) => {
            tags.push(DcaTag { kind, value: v });
        },
        None => {},
    }
    assert forall|expected: Seq<(DcaTagKind, Seq<char>)>| tags_match(old(tags)@, expected) implies tags_match(
        tags@,
        expected + opt_tag(kind, value),
    ) by {
        let e2 = expected + opt_tag(kind, value);
        assert forall|i: int| 0 <= i < tags@.len() implies #[trigger] tags@[i].kind == e2[i].0
            && tags@[i].value@ == e2[i].1 by {
            if i < old(tags)@.len() {
                assert(tags@[i] == old(tags)@[i]);
            }
        }
    }
}

/// The tags of a metadata block: title, album, artist, genre and comments from its
/// `info` section and the URL from its `origin` section, in that order, each where
/// present.
pub fn metadata_tags(meta: DcaMetadata) -> (tags: Vec<DcaTag>)
    ensures
        tags_match(tags@, spec_metadata_tags(meta)),
        forall|kind: DcaTagKind|
            #![trigger tag_source(meta, kind)]
            tag_source(meta, kind) matches Some(v) ==> exists|i: int|
                0 <= i < tags@.len() && #[trigger] tags@[i].kind == kind && tags@[i].value@ == v@,
        forall|i: int|
            #![trigger tags@[i]]
            0 <= i < tags@.len() ==> (tag_source(meta, tags@[i].kind) matches Some(v) && v@ == tags@[i].value@),
        forall|i: int, j: int|
            0 <= i < j < tags@.len() ==> kind_rank(#[trigger] tags@[i].kind) < kind_rank(#[trigger] tags@[j].kind),
{
    let ghost m = meta;
    let mut tags: Vec<DcaTag> = Vec::new();
    assert(tags_match(tags@, Seq::empty()));
    match meta.info {
        Some(info) => {
            push_opt_tag(&mut tags, DcaTagKind::Title, info.title);
            push_opt_tag(&mut tags, DcaTagKind::Album, info.album);
            push_opt_tag(&mut tags, DcaTagKind::Artist, info.artist);
            push_opt_tag(&mut tags, DcaTagKind::Genre, info.genre);
            push_opt_tag(&mut tags, DcaTagKind::Comments, info.comments);
            assert(Seq::<(DcaTagKind, Seq<char>)>::empty() + opt_tag(DcaTagKind::Title, m.info->0.title)
                + opt_tag(DcaTagKind::Album, m.info->0.album) + opt_tag(DcaTagKind::Artist, m.info->0.artist)
                + opt_tag(DcaTagKind::Genre, m.info->0.genre) + opt_tag(DcaTagKind::Comments, m.info->0.comments)
                =~= info_tags(m.info));
        },
        None => {
            assert(Seq::<(DcaTagKind, Seq<char>)>::empty() =~= info_tags(m.info));
        },
    }
    match meta.origin {
        Some(origin) => {
            push_opt_tag(&mut tags, DcaTagKind::Url, origin.url);
        },
        None => {
            assert(info_tags(m.info) + Seq::empty() =~= info_tags(m.info));
        },
    }
    proof {
        lemma_tags_follow_fields(m);
        let expected = spec_metadata_tags(m);
        assert forall|kind: DcaTagKind| #[trigger] tag_source(m, kind) is Some implies exists|i: int|
            0 <= i < tags@.len() && #[trigger] tags@[i].kind == kind && tags@[i].value@ == tag_source(m, kind)->0@ by {
            let v = tag_source(m, kind)->0;
            assert(expected.contains((kind, v@)));
            let i = choose|i: int| 0 <= i < expected.len() && expected[i] == (kind, v@);
            assert(tags@[i].kind == expected[i].0 && tags@[i].value@ == expected[i].1);
        }
        assert forall|i: int| 0 <= i < tags@.len() implies (tag_source(m, (#[trigger] tags@[i]).kind) matches Some(v)
            && v@ == tags@[i].value@) by {
            assert(tags@[i].kind == expected[i].0 && tags@[i].value@ == expected[i].1);
        }
        assert forall|i: int, j: int| 0 <= i < j < tags@.len() implies kind_rank(#[trigger] tags@[i].kind) < kind_rank(
            #[trigger] tags@[j].kind,
        ) by {
            assert(tags@[i].kind == expected[i].0 && tags@[j].kind == expected[j].0);
            assert(kind_rank(expected[i].0) < kind_rank(expected[j].0));
        }
    }
    tags
}

} // verus!
