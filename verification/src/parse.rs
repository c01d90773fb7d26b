use vstd::prelude::*;
use crate::errors::Error;
use crate::hash::{content_hash, content_hash_of, opt_str_view};
use crate::text::{
    contains_string, dedup_of, lemma_dedup_contains, lower_of, lowercase, split_spaces,
    split_spaces_exec,
};

verus! {

/// The enclosure element of a raw feed item; trackers that attach the true
/// download URL put it here.
#[derive(Debug)]
pub struct Enclosure {
    pub url: Option<String>,
}

/// The torrent element of a raw feed item.
#[derive(Debug)]
pub struct Torrent {
    pub file_name: Option<String>,
    pub info_hash: Option<String>,
    pub content_length: Option<u64>,
}

impl Default for Torrent {
    /// A torrent element with every field absent.
    fn default() -> (r: Self)
        ensures
            r.file_name is None,
            r.info_hash is None,
            r.content_length is None,
    {
        Torrent { file_name: None, info_hash: None, content_length: None }
    }
}

/// One raw feed item. Every field is optional at the document layer; only the
/// conversion to a canonical record enforces what is required.
#[derive(Debug)]
pub struct Item {
    pub title: Option<String>,
    pub link: Option<String>,
    pub tags: Option<String>,
    pub torrent: Option<Torrent>,
    pub enclosure: Option<Enclosure>,
    pub description: Option<String>,
}

/// The channel element of a raw feed document.
#[derive(Debug)]
pub struct Channel {
    pub title: Option<String>,
    pub description: Option<String>,
    pub item: Option<Vec<Item>>,
}

/// A raw feed document.
#[derive(Debug)]
pub struct Document {
    pub channel: Option<Channel>,
}

impl Item {
    /// The item's content hash, taken over the raw title, tag string and
    /// description exactly as they came from the feed.
    pub open spec fn spec_hash(self) -> u64 {
        content_hash_of(
            opt_str_view(self.title),
            opt_str_view(self.tags),
            opt_str_view(self.description),
        )
    }

    /// The enclosure URL, when an enclosure with a URL is present.
    pub open spec fn enclosure_url(self) -> Option<Seq<char>> {
        match self.enclosure {
            Some(e) => opt_str_view(e.url),
            None => None,
        }
    }

    /// The resolved download link: the enclosure URL wins over the plain link;
    /// nothing when both are absent.
    pub open spec fn spec_link(self) -> Option<Seq<char>> {
        match self.enclosure_url() {
            Some(u) => Some(u),
            None => opt_str_view(self.link),
        }
    }

    /// The canonical title: the raw title, case folded.
    pub open spec fn spec_title(self) -> Option<Seq<char>> {
        match self.title {
            Some(t) => Some(lower_of(t@)),
            None => None,
        }
    }

    /// The canonical tag list: the raw tag string split on spaces, case
    /// folded, repeats dropped; empty when the field is absent.
    pub open spec fn spec_tags(self) -> Seq<Seq<char>> {
        match self.tags {
            Some(t) => dedup_of(split_spaces(t@).map_values(|w: Seq<char>| lower_of(w))),
            None => Seq::empty(),
        }
    }

    /// The size in bytes, when the torrent element reported one.
    pub open spec fn spec_size(self) -> Option<u64> {
        match self.torrent {
            Some(t) => t.content_length,
            None => None,
        }
    }

    /// Whether the item carries everything a canonical record requires:
    /// a title, and at least one of the two link fields.
    pub open spec fn convertible(self) -> bool {
        self.title is Some && self.spec_link() is Some
    }

    /// Resolve the download link, preferring the enclosure URL.
    pub fn link(&self) -> (r: Result<String, Error>)
        ensures
            match r {
                Ok(s) => self.spec_link() == Some(s@),
                Err(e) => self.spec_link() is None && e == Error::MissingField,
            },
    {
        if let Some(enclosure) = &self.enclosure {
            if let Some(url) = &enclosure.url {
                return Ok(url.clone());
            }
        }
        if let Some(link) = &self.link {
            return Ok(link.clone());
        }
        Err(Error::MissingField)
    }
}

/// The canonical record built from one raw feed item: write-once input to
/// persistence.
#[derive(Debug)]
pub struct TorrentData {
    pub title: String,
    pub tags: Vec<String>,
    pub download_link: String,
    pub size: Option<u64>,
    pub item_hash: u64,
}

/// Whether `td` is the canonical record of the raw item `item`.
pub open spec fn record_of(td: TorrentData, item: Item) -> bool {
    &&& item.spec_title() == Some(td.title@)
    &&& td.tags@.map_values(|t: String| t@) == item.spec_tags()
    &&& item.spec_link() == Some(td.download_link@)
    &&& td.size == item.spec_size()
    &&& td.item_hash == item.spec_hash()
}

/// Split a raw tag string on spaces, fold case, and drop repeats, keeping the
/// first occurrence of each tag.
pub fn parse_tags(s: &str) -> (r: Vec<String>)
    ensures
        r@.map_values(|t: String| t@) == dedup_of(
            split_spaces(s@).map_values(|w: Seq<char>| lower_of(w)),
        ),
{
    let toks = split_spaces_exec(s);
    let ghost lows = split_spaces(s@).map_values(|w: Seq<char>| lower_of(w));
    let mut out: Vec<String> = Vec::new();
    let n = toks.len();
    let mut i: usize = 0;
    proof {
        assert(out@.map_values(|t: String| t@) =~= dedup_of(lows.subrange(0, 0)));
    }
    while i < n
        invariant
            n == toks@.len(),
            i <= n,
            toks@.map_values(|t: String| t@) == split_spaces(s@),
            lows == split_spaces(s@).map_values(|w: Seq<char>| lower_of(w)),
            out@.map_values(|t: String| t@) == dedup_of(lows.subrange(0, i as int)),
        decreases n - i,
    {
        proof {
            assert(toks@.map_values(|t: String| t@)[i as int] == toks@[i as int]@);
            assert(lows[i as int] == lower_of(split_spaces(s@)[i as int]));
        }
        let low = lowercase(toks[i].as_str());
        let ghost pre = lows.subrange(0, i as int);
        let ghost cur = lows.subrange(0, i as int + 1);
        proof {
            assert(cur.drop_last() =~= pre);
            assert(cur.last() == lows[i as int]);
            lemma_dedup_contains(pre, low@);
        }
        if !contains_string(&out, &low) {
            let ghost prevout = out@.map_values(|t: String| t@);
            out.push(low);
            proof {
                assert(out@.map_values(|t: String| t@) =~= prevout.push(low@));
            }
        }
        i = i + 1;
    }
    proof {
        assert(lows.subrange(0, n as int) =~= lows);
    }
    out
}

impl TorrentData {
    /// Build the canonical record from one raw item. The content hash is taken
    /// over the raw fields before normalisation, so a later change to
    /// normalisation cannot disturb deduplication. An item without a title, or
    /// without both an enclosure URL and a plain link, is refused.
    pub fn new(item: &Item) -> (r: Result<TorrentData, Error>)
        ensures
            item.convertible() <==> r is Ok,
            match r {
                Ok(td) => record_of(td, *item),
                Err(e) => e == Error::MissingField,
            },
    {
        let hash = content_hash(&item.title, &item.tags, &item.description);
        let link = match item.link() {
            Ok(l) => l,
            Err(e) => {
                return Err(e);
            },
        };
        let title = match &item.title {
            Some(t) => lowercase(t.as_str()),
            None => {
                return Err(Error::MissingField);
            },
        };
        let tags = match &item.tags {
            Some(t) => parse_tags(t.as_str()),
            None => {
                let empty: Vec<String> = Vec::new();
                proof {
                    assert(empty@.map_values(|t: String| t@) =~= Seq::<Seq<char>>::empty());
                }
                empty
            },
        };
        let size = match &item.torrent {
            Some(t) => t.content_length,
            None => None,
        };
        Ok(TorrentData { title, tags, download_link: link, size, item_hash: hash })
    }

    /// The size as the signed 64-bit column the store uses; a size above
    /// `i64::MAX` wraps, exactly as an `as` cast does.
    pub fn postgres_size(&self) -> (r: Option<i64>)
        ensures
            match self.size {
                Some(s) => r is Some && (if s <= i64::MAX as u64 {
                    r.unwrap() == s as int
                } else {
                    r.unwrap() == s as int - 0x1_0000_0000_0000_0000
                }),
                None => r is None,
            },
    {
        match self.size {
            Some(good_size) => {
                if good_size <= 0x7fff_ffff_ffff_ffff {
                    Some(good_size as i64)
                } else {
                    let d = good_size - 0x8000_0000_0000_0000;
                    Some(i64::MIN + (d as i64))
                }
            },
            None => None,
        }
    }
}

/// The content hash is a function of the raw title, tag string and
/// description alone: two items equal in those three fields hash alike,
/// whatever their links, enclosures or torrent elements hold.
pub proof fn lemma_hash_pure(a: Item, b: Item)
    requires
        a.title == b.title,
        a.tags == b.tags,
        a.description == b.description,
    ensures
        a.spec_hash() == b.spec_hash(),
{
}

/// The raw items that survive conversion: those with a title and a link, in
/// their original order.
pub open spec fn kept_items(items: Seq<Item>) -> Seq<Item>
    decreases items.len(),
{
    if items.len() == 0 {
        Seq::empty()
    } else if items.last().convertible() {
        kept_items(items.drop_last()).push(items.last())
    } else {
        kept_items(items.drop_last())
    }
}

/// Convert a raw feed document into canonical records. A document without a
/// channel, or whose channel has no item list, fails as a whole; an item that
/// cannot be converted is dropped silently, and the parse still succeeds.
pub fn document_to_torrents(doc: &Document) -> (r: Result<Vec<TorrentData>, Error>)
    ensures
        match doc.channel {
            Some(c) => match c.item {
                Some(items) => {
                    &&& r is Ok
                    &&& r.unwrap()@.len() == kept_items(items@).len()
                    &&& forall|i: int|
                        0 <= i < kept_items(items@).len() ==> record_of(
                            #[trigger] r.unwrap()@[i],
                            kept_items(items@)[i],
                        )
                },
                None => r == Err::<Vec<TorrentData>, Error>(Error::MissingStructure),
            },
            None => r == Err::<Vec<TorrentData>, Error>(Error::MissingStructure),
        },
{
    let channel = match &doc.channel {
        Some(c) => c,
        None => {
            return Err(Error::MissingStructure);
        },
    };
    let items = match &channel.item {
        Some(its) => its,
        None => {
            return Err(Error::MissingStructure);
        },
    };
    let n = items.len();
    let mut out: Vec<TorrentData> = Vec::new();
    let mut i: usize = 0;
    proof {
        assert(items@.subrange(0, 0) =~= Seq::<Item>::empty());
    }
    while i < n
        invariant
            n == items@.len(),
            i <= n,
            out@.len() == kept_items(items@.subrange(0, i as int)).len(),
            forall|k: int|
                0 <= k < out@.len() ==> record_of(
                    #[trigger] out@[k],
                    kept_items(items@.subrange(0, i as int))[k],
                ),
        decreases n - i,
    {
        let ghost pre = items@.subrange(0, i as int);
        let ghost cur = items@.subrange(0, i as int + 1);
        proof {
            assert(cur.drop_last() =~= pre);
            assert(cur.last() == items@[i as int]);
        }
        match TorrentData::new(&items[i]) {
            Ok(td) => {
                out.push(td);
            },
            Err(_) => {},
        }
        i = i + 1;
    }
    proof {
        assert(items@.subrange(0, n as int) =~= items@);
    }
    Ok(out)
}

} // verus!
