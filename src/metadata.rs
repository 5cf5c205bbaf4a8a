//! Frontmatter metadata and its normalization: bookmark fields promoted to
//! the top level, transient fields stripped, empty parts dropped.

use vstd::prelude::*;

use crate::model::NoteKind;
use crate::text::{chars_of, same_chars, string_of};
use crate::toc::{outline, trees_of, Toc};

verus! {

/// A YAML value of a key that the model does not know, carried through
/// unchanged.
#[verifier::external_type_specification]
#[verifier::external_body]
pub struct ExYamlValue(serde_yaml::Value);

/// A calendar date.
#[derive(Clone, Copy, Debug, PartialEq, Eq, Structural)]
pub struct Date {
    pub year: i32,
    pub month: u32,
    pub day: u32,
}

/// A date and time of day, in UTC.
#[derive(Clone, Copy, Debug, PartialEq, Eq, Structural)]
pub struct DateTime {
    pub date: Date,
    pub hour: u32,
    pub minute: u32,
    pub second: u32,
    pub nanosecond: u32,
}

/// The workflow state of a note.
#[derive(Clone, Copy, Debug, PartialEq, Eq, Structural)]
pub enum NoteStatus {
    Todo,
    InProgress,
    Done,
    NotPlanned,
    Archived,
}

/// The identifier of a bookmark.
#[derive(Debug, PartialEq)]
pub struct BookmarkId(pub String);

/// The bookmark a note was made from.
#[derive(Debug, PartialEq)]
pub struct Bookmark {
    pub id: Option<BookmarkId>,
    pub image: Option<String>,
    pub title: Option<String>,
    pub toc: Option<String>,
    pub journal_date: Option<Date>,
    pub created_at: Option<DateTime>,
    pub updated_at: Option<DateTime>,
    pub url: Option<String>,
    /// The keys the model does not know, in increasing order (`keys_sorted`).
    pub others: Vec<(String, serde_yaml::Value)>,
}

/// The known fields of a note's frontmatter, and the others by key.
#[derive(Debug, PartialEq)]
pub struct Meta {
    pub title: Option<String>,
    pub description: Option<String>,
    pub path: Option<String>,
    pub bookmark: Option<Bookmark>,
    pub link: Option<String>,
    pub toc: Option<String>,
    pub status: Option<NoteStatus>,
    pub kind: Option<NoteKind>,
    pub journal_date: Option<Date>,
    pub created_at: Option<DateTime>,
    pub updated_at: Option<DateTime>,
    pub author: Option<Vec<String>>,
    pub tags: Option<Vec<String>>,
    /// The keys the model does not know, in increasing order (`keys_sorted`).
    pub others: Vec<(String, serde_yaml::Value)>,
}

/// A note's frontmatter: decoded, or kept as the raw text where it could
/// not be decoded.
#[derive(Debug, PartialEq)]
pub enum Metadata {
    Meta(Meta),
    Raw(String),
}

/// `a` comes strictly before `b` in the order of their characters, as
/// `String`'s ordering compares them.
pub open spec fn chars_before(a: Seq<char>, b: Seq<char>) -> bool
    decreases a.len(),
{
    if a.len() == 0 {
        b.len() > 0
    } else if b.len() == 0 {
        false
    } else if a[0] != b[0] {
        (a[0] as u32) < (b[0] as u32)
    } else {
        chars_before(a.drop_first(), b.drop_first())
    }
}

/// Keys in strictly increasing order, so that none occurs twice: the
/// order in which a sorted map holds them.
pub open spec fn keys_sorted(others: Seq<(String, serde_yaml::Value)>) -> bool {
    forall|i: int, j: int|
        0 <= i < j < others.len() ==> #[trigger] chars_before(others[i].0@, others[j].0@)
}

/// The other keys of the metadata and of its bookmark are each sorted.
pub open spec fn meta_wf(m: Meta) -> bool {
    &&& keys_sorted(m.others@)
    &&& m.bookmark matches Some(b) ==> keys_sorted(b.others@)
}

pub open spec fn metadata_wf(m: Metadata) -> bool {
    m matches Metadata::Meta(v) ==> meta_wf(v)
}

pub open spec fn first_of<T>(a: Option<T>, b: Option<T>) -> Option<T> {
    match a {
        Some(x) => Some(x),
        None => b,
    }
}

/// A bookmark field, where there is a bookmark.
pub open spec fn from_bookmark<T>(b: Option<Bookmark>, f: spec_fn(Bookmark) -> Option<T>) -> Option<T> {
    match b {
        Some(bm) => f(bm),
        None => None,
    }
}

/// A bookmark without the fields that normalization moves or drops; none
/// where nothing is left.
pub open spec fn stripped_bookmark(b: Bookmark) -> Option<Bookmark> {
    if b.id is None && b.image is None && b.others@.len() == 0 {
        None
    } else {
        Some(
            Bookmark {
                id: b.id,
                image: b.image,
                title: None,
                toc: None,
                journal_date: None,
                created_at: None,
                updated_at: None,
                url: None,
                others: b.others,
            },
        )
    }
}

/// The metadata with the bookmark's values promoted where the top-level
/// field is absent, the bookmark stripped, and the outline text removed.
pub open spec fn promoted(m: Meta) -> Meta {
    let b = m.bookmark;
    Meta {
        title: first_of(m.title, from_bookmark(b, |x: Bookmark| x.title)),
        description: m.description,
        path: m.path,
        bookmark: match b {
            Some(bm) => stripped_bookmark(bm),
            None => None,
        },
        link: first_of(m.link, from_bookmark(b, |x: Bookmark| x.url)),
        toc: None,
        status: m.status,
        kind: m.kind,
        journal_date: first_of(m.journal_date, from_bookmark(b, |x: Bookmark| x.journal_date)),
        created_at: first_of(m.created_at, from_bookmark(b, |x: Bookmark| x.created_at)),
        updated_at: first_of(m.updated_at, from_bookmark(b, |x: Bookmark| x.updated_at)),
        author: m.author,
        tags: m.tags,
        others: m.others,
    }
}

/// Every field absent and no other keys.
pub open spec fn meta_is_empty(m: Meta) -> bool {
    &&& m.title is None
    &&& m.description is None
    &&& m.path is None
    &&& m.bookmark is None
    &&& m.link is None
    &&& m.toc is None
    &&& m.status is None
    &&& m.kind is None
    &&& m.journal_date is None
    &&& m.created_at is None
    &&& m.updated_at is None
    &&& m.author is None
    &&& m.tags is None
    &&& m.others@.len() == 0
}

/// Normalized metadata: promoted, and none where nothing is left.
pub open spec fn normalized_meta(m: Meta) -> Option<Meta> {
    let r = promoted(m);
    if meta_is_empty(r) {
        None
    } else {
        Some(r)
    }
}

pub open spec fn normalized_metadata(m: Metadata) -> Option<Metadata> {
    match m {
        Metadata::Meta(v) => match normalized_meta(v) {
            Some(r) => Some(Metadata::Meta(r)),
            None => None,
        },
        Metadata::Raw(s) => Some(Metadata::Raw(s)),
    }
}

/// The outline text that normalization turns into a table of contents:
/// the bookmark's own, else the top-level one.
pub open spec fn outline_text(m: Meta) -> Option<String> {
    first_of(from_bookmark(m.bookmark, |x: Bookmark| x.toc), m.toc)
}

/// A bookmark's title fills an absent top-level title, and is gone from
/// the bookmark after normalization.
pub proof fn lemma_title_promoted(m: Meta)
    requires
        m.title is None,
        m.bookmark matches Some(b) && b.title is Some,
    ensures
        normalized_meta(m) matches Some(r) && r.title == m.bookmark->Some_0.title && (
        r.bookmark matches Some(rb) ==> rb.title is None),
{
}

/// Metadata with every field absent normalizes to none.
pub proof fn lemma_empty_dropped(m: Meta)
    requires
        meta_is_empty(m),
    ensures
        normalized_meta(m) is None,
{
}

/// Normalizing normalized metadata changes nothing.
pub proof fn lemma_normalize_idempotent(m: Meta)
    requires
        normalized_meta(m) is Some,
    ensures
        normalized_meta(normalized_meta(m)->Some_0) == normalized_meta(m),
{
    let r = normalized_meta(m)->Some_0;
    match r.bookmark {
        Some(b) => {
            assert(stripped_bookmark(b) == Some(b));
        },
        None => {},
    }
    assert(promoted(r) == r);
}

/// The name of a status, as frontmatter writes it.
pub open spec fn status_name(s: NoteStatus) -> Seq<char> {
    match s {
        NoteStatus::Todo => seq!['t', 'o', 'd', 'o'],
        NoteStatus::InProgress => seq!['i', 'n', ' ', 'p', 'r', 'o', 'g', 'r', 'e', 's', 's'],
        NoteStatus::Done => seq!['d', 'o', 'n', 'e'],
        NoteStatus::NotPlanned => seq!['n', 'o', 't', ' ', 'p', 'l', 'a', 'n', 'n', 'e', 'd'],
        NoteStatus::Archived => seq!['a', 'r', 'c', 'h', 'i', 'v', 'e', 'd'],
    }
}

/// The status a name stands for; todo for any other text.
pub open spec fn status_of_name(n: Seq<char>) -> NoteStatus {
    if n == status_name(NoteStatus::InProgress) {
        NoteStatus::InProgress
    } else if n == status_name(NoteStatus::Done) {
        NoteStatus::Done
    } else if n == status_name(NoteStatus::NotPlanned) {
        NoteStatus::NotPlanned
    } else if n == status_name(NoteStatus::Archived) {
        NoteStatus::Archived
    } else {
        NoteStatus::Todo
    }
}

fn status_chars(s: NoteStatus) -> (r: Vec<char>)
    ensures
        r@ == status_name(s),
{
    let r: Vec<char> = match s {
        NoteStatus::Todo => vec!['t', 'o', 'd', 'o'],
        NoteStatus::InProgress => vec!['i', 'n', ' ', 'p', 'r', 'o', 'g', 'r', 'e', 's', 's'],
        NoteStatus::Done => vec!['d', 'o', 'n', 'e'],
        NoteStatus::NotPlanned => vec!['n', 'o', 't', ' ', 'p', 'l', 'a', 'n', 'n', 'e', 'd'],
        NoteStatus::Archived => vec!['a', 'r', 'c', 'h', 'i', 'v', 'e', 'd'],
    };
    assert(r@ =~= status_name(s));
    r
}

impl NoteStatus {
    /// The status's name, as frontmatter writes it.
    pub fn name(&self) -> (r: String)
        ensures
            r@ == status_name(*self),
    {
        let v = status_chars(*self);
        string_of(&v)
    }

    /// The status a name stands for; todo for any other text.
    pub fn from_name(s: &str) -> (r: NoteStatus)
        ensures
            r == status_of_name(s@),
    {
        let v = chars_of(s);
        if same_chars(&v, &status_chars(NoteStatus::InProgress)) {
            NoteStatus::InProgress
        } else if same_chars(&v, &status_chars(NoteStatus::Done)) {
            NoteStatus::Done
        } else if same_chars(&v, &status_chars(NoteStatus::NotPlanned)) {
            NoteStatus::NotPlanned
        } else if same_chars(&v, &status_chars(NoteStatus::Archived)) {
            NoteStatus::Archived
        } else {
            NoteStatus::Todo
        }
    }
}

impl Bookmark {
    /// A bookmark holding only outline text.
    pub fn toc(value: &str) -> (r: Bookmark)
        ensures
            r.toc matches Some(t) && t@ == value@,
            r.id is None && r.image is None && r.title is None && r.url is None,
            r.journal_date is None && r.created_at is None && r.updated_at is None,
            r.others@.len() == 0,
    {
        Bookmark {
            id: None,
            image: None,
            title: None,
            toc: Some(value.to_string()),
            journal_date: None,
            created_at: None,
            updated_at: None,
            url: None,
            others: Vec::new(),
        }
    }

    /// The outline of the bookmark's outline text, where it has one.
    pub fn parse_toc(&self) -> (r: Option<Toc>)
        ensures
            match self.toc {
                Some(t) => r matches Some(x) && trees_of(x.0@) == outline(t@),
                None => r is None,
            },
    {
        match &self.toc {
            Some(t) => Some(Toc::parse(t.as_str())),
            None => None,
        }
    }

    /// Keeps only the identifier, the image and the other keys; none where
    /// all of them are empty.
    pub fn normalize(self) -> (r: Option<Bookmark>)
        ensures
            r == stripped_bookmark(self),
            keys_sorted(self.others@) ==> (r matches Some(b) ==> keys_sorted(b.others@)),
    {
        if self.id.is_none() && self.image.is_none() && self.others.len() == 0 {
            return None;
        }
        Some(
            Bookmark {
                id: self.id,
                image: self.image,
                title: None,
                toc: None,
                journal_date: None,
                created_at: None,
                updated_at: None,
                url: None,
                others: self.others,
            },
        )
    }
}

impl Default for Bookmark {
    fn default() -> (r: Bookmark)
        ensures
            r.id is None && r.image is None && r.title is None && r.toc is None,
            r.journal_date is None && r.created_at is None && r.updated_at is None,
            r.url is None && r.others@.len() == 0,
    {
        Bookmark {
            id: None,
            image: None,
            title: None,
            toc: None,
            journal_date: None,
            created_at: None,
            updated_at: None,
            url: None,
            others: Vec::new(),
        }
    }
}

impl Default for Meta {
    fn default() -> (r: Meta)
        ensures
            meta_is_empty(r),
    {
        Meta::empty()
    }
}

impl Meta {
    /// Metadata with every field absent.
    pub fn empty() -> (r: Meta)
        ensures
            meta_is_empty(r),
    {
        Meta {
            title: None,
            description: None,
            path: None,
            bookmark: None,
            link: None,
            toc: None,
            status: None,
            kind: None,
            journal_date: None,
            created_at: None,
            updated_at: None,
            author: None,
            tags: None,
            others: Vec::new(),
        }
    }

    /// The outline of the top-level outline text, where there is one.
    pub fn parse_toc(&self) -> (r: Option<Toc>)
        ensures
            match self.toc {
                Some(t) => r matches Some(x) && trees_of(x.0@) == outline(t@),
                None => r is None,
            },
    {
        match &self.toc {
            Some(t) => Some(Toc::parse(t.as_str())),
            None => None,
        }
    }

    /// Whether every field is absent.
    pub fn is_empty(&self) -> (r: bool)
        ensures
            r == meta_is_empty(*self),
    {
        self.title.is_none() && self.description.is_none() && self.path.is_none()
            && self.bookmark.is_none() && self.link.is_none() && self.toc.is_none()
            && self.status.is_none() && self.kind.is_none() && self.journal_date.is_none()
            && self.created_at.is_none() && self.updated_at.is_none() && self.author.is_none()
            && self.tags.is_none() && self.others.len() == 0
    }

    /// Promotes the bookmark's title, url, journal date and timestamps
    /// where the top-level field is absent, strips the bookmark and the
    /// outline text, and drops the whole where nothing is left.
    pub fn normalize(self) -> (r: Option<Meta>)
        ensures
            r == normalized_meta(self),
            meta_wf(self) ==> (r matches Some(m) ==> meta_wf(m)),
    {
        let Meta {
            title,
            description,
            path,
            bookmark,
            link,
            toc: _,
            status,
            kind,
            journal_date,
            created_at,
            updated_at,
            author,
            tags,
            others,
        } = self;
        let res = match bookmark {
            Some(b) => {
                let Bookmark {
                    id,
                    image,
                    title: b_title,
                    toc: _,
                    journal_date: b_journal_date,
                    created_at: b_created_at,
                    updated_at: b_updated_at,
                    url: b_url,
                    others: b_others,
                } = b;
                let rest = Bookmark {
                    id,
                    image,
                    title: None,
                    toc: None,
                    journal_date: None,
                    created_at: None,
                    updated_at: None,
                    url: None,
                    others: b_others,
                };
                Meta {
                    title: if title.is_some() {
                        title
                    } else {
                        b_title
                    },
                    description,
                    path,
                    bookmark: rest.normalize(),
                    link: if link.is_some() {
                        link
                    } else {
                        b_url
                    },
                    toc: None,
                    status,
                    kind,
                    journal_date: if journal_date.is_some() {
                        journal_date
                    } else {
                        b_journal_date
                    },
                    created_at: if created_at.is_some() {
                        created_at
                    } else {
                        b_created_at
                    },
                    updated_at: if updated_at.is_some() {
                        updated_at
                    } else {
                        b_updated_at
                    },
                    author,
                    tags,
                    others,
                }
            },
            None => Meta {
                title,
                description,
                path,
                bookmark: None,
                link,
                toc: None,
                status,
                kind,
                journal_date,
                created_at,
                updated_at,
                author,
                tags,
                others,
            },
        };
        if res.is_empty() {
            None
        } else {
            Some(res)
        }
    }
}

impl Metadata {
    /// Normalizes decoded metadata; raw metadata stays as it is.
    pub fn normalize(self) -> (r: Option<Metadata>)
        ensures
            r == normalized_metadata(self),
            metadata_wf(self) ==> (r matches Some(m) ==> metadata_wf(m)),
    {
        match self {
            Metadata::Meta(v) => match v.normalize() {
                Some(r) => Some(Metadata::Meta(r)),
                None => None,
            },
            Metadata::Raw(s) => Some(Metadata::Raw(s)),
        }
    }
}

} // verus!
