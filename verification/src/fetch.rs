//! The fetcher's logic: validating an HTTP response and normalizing a
//! syndication feed document into a podcast record.
//!
//! Downloading itself is the caller's business; this module takes the
//! response as plain values (status code, body bytes, cache-validation
//! header) and decides, with an exact contract, what record or error
//! they yield.

use vstd::prelude::*;

use crate::podcast::{Podcast, PodcastView};

verus! {

/// The channel-level fields of a feed document that the catalog consumes.
pub struct ChannelMeta {
    /// The channel's title.
    pub title: String,
    /// The channel's description.
    pub description: String,
    /// Artwork URL from the feed's itunes-style image extension, if any.
    pub image_url: Option<String>,
}

/// Mathematical view of [`ChannelMeta`].
#[verifier::ext_equal]
pub ghost struct ChannelMetaView {
    pub title: Seq<char>,
    pub description: Seq<char>,
    pub image_url: Option<Seq<char>>,
}

impl View for ChannelMeta {
    type V = ChannelMetaView;

    open spec fn view(&self) -> ChannelMetaView {
        ChannelMetaView {
            title: self.title@,
            description: self.description@,
            image_url: self.image_url.deep_view(),
        }
    }
}

impl DeepView for ChannelMeta {
    type V = ChannelMetaView;

    open spec fn deep_view(&self) -> ChannelMetaView {
        self.view()
    }
}

/// The channel-level fields a well-formed feed document yields, or `None`
/// for bytes that do not parse as one. Parsing is a function of the bytes
/// alone; this names its result.
pub uninterp spec fn parsed_feed(bytes: Seq<u8>) -> Option<ChannelMetaView>;

/// Relies on rss::Channel::read_from: reads an RSS document from a byte
/// reader and yields the channel, whose `title`, `description` and
/// `itunes_ext.image` fields this call carries over; a malformed document
/// is an error. The result depends on the bytes alone.
#[verifier::external_body]
fn read_channel(body: &Vec<u8>) -> (r: Option<ChannelMeta>)
    ensures
        r.deep_view() == parsed_feed(body@),
{
    match rss::Channel::read_from(&body[..]) {
        Ok(c) => Some(ChannelMeta {
            title: c.title,
            description: c.description,
            image_url: c.itunes_ext.and_then(|i| i.image),
        }),
        Err(_) => None,
    }
}

/// Relies on chrono::Utc::now / DateTime::timestamp: the current UTC time
/// as whole seconds since the Unix epoch. The clock decides the value, so
/// nothing is promised of it.
#[verifier::external_body]
fn now_unix_seconds() -> i64 {
    chrono::Utc::now().timestamp()
}

/// Why a fetch produced no record.
#[derive(Debug)]
pub enum FetchError {
    /// The server answered outside the 2xx range; carries the requested
    /// URL and the status code.
    FetchFailed { url: String, status: i32 },
    /// The body was no well-formed feed document, or the feed lacked the
    /// required title; carries the requested URL.
    ParseFailed { url: String },
}

/// Mathematical view of [`FetchError`].
pub ghost enum FetchErrorView {
    FetchFailed { url: Seq<char>, status: int },
    ParseFailed { url: Seq<char> },
}

impl View for FetchError {
    type V = FetchErrorView;

    open spec fn view(&self) -> FetchErrorView {
        match self {
            FetchError::FetchFailed { url, status } => FetchErrorView::FetchFailed {
                url: url@,
                status: *status as int,
            },
            FetchError::ParseFailed { url } => FetchErrorView::ParseFailed { url: url@ },
        }
    }
}

/// What normalizing a response yields: a status outside [200, 299] fails
/// the fetch; a body that parses to no channel, or to one with an empty
/// title, fails the parse; otherwise the record holds the channel's
/// fields, the caller's URL verbatim, the supplied fetch time and
/// cache-validation token, is enabled, and carries no identifier yet.
pub open spec fn normalize_view(
    url: Seq<char>,
    status: int,
    feed: Option<ChannelMetaView>,
    etag: Option<Seq<char>>,
    now: int,
) -> Result<PodcastView, FetchErrorView> {
    if !(200 <= status <= 299) {
        Err(FetchErrorView::FetchFailed { url, status })
    } else {
        match feed {
            None => Err(FetchErrorView::ParseFailed { url }),
            Some(m) => if m.title.len() == 0 {
                Err(FetchErrorView::ParseFailed { url })
            } else {
                Ok(
                    PodcastView {
                        id: 0,
                        title: m.title,
                        url,
                        description: m.description,
                        enabled: true,
                        last_checked: now,
                        image_url: m.image_url,
                        cache_key: etag,
                    },
                )
            },
        }
    }
}

/// The result `r` is exactly what [`normalize_view`] prescribes for this
/// response when the fetch time is `t`.
pub open spec fn normalized_at(
    r: Result<Podcast, FetchError>,
    url: Seq<char>,
    status: int,
    feed: Option<ChannelMetaView>,
    etag: Option<Seq<char>>,
    t: int,
) -> bool {
    match r {
        Ok(p) => Ok::<PodcastView, FetchErrorView>(p@) == normalize_view(url, status, feed, etag, t),
        Err(e) => Err::<PodcastView, FetchErrorView>(e@) == normalize_view(
            url,
            status,
            feed,
            etag,
            t,
        ),
    }
}

/// Turns one HTTP response, taken as plain values, into the normalized
/// podcast record it denotes, stamped with the supplied fetch time.
pub fn normalize_response(
    url: String,
    status: i32,
    body: &Vec<u8>,
    etag: Option<String>,
    now: i64,
) -> (r: Result<Podcast, FetchError>)
    ensures
        normalized_at(r, url@, status as int, parsed_feed(body@), etag.deep_view(), now as int),
{
    if status < 200 || status > 299 {
        return Err(FetchError::FetchFailed { url, status });
    }
    match read_channel(body) {
        None => Err(FetchError::ParseFailed { url }),
        Some(m) => {
            if m.title.as_str().is_empty() {
                Err(FetchError::ParseFailed { url })
            } else {
                let p = Podcast {
                    id: 0,
                    title: m.title,
                    url,
                    description: m.description,
                    enabled: true,
                    last_checked: now,
                    image_url: m.image_url,
                    cache_key: etag,
                };
                proof {
                    let expected = normalize_view(
                        p.url@,
                        status as int,
                        parsed_feed(body@),
                        p@.cache_key,
                        now as int,
                    );
                    assert(expected matches Ok(v) && p@ =~= v);
                }
                Ok(p)
            }
        },
    }
}

/// Like [`normalize_response`], but stamps the record with the current
/// UTC time, as the fetcher does after a live download.
pub fn normalize_response_now(url: String, status: i32, body: &Vec<u8>, etag: Option<String>) -> (r:
    Result<Podcast, FetchError>)
    ensures
        exists|t: int|
            #[trigger] normalized_at(
                r,
                url@,
                status as int,
                parsed_feed(body@),
                etag.deep_view(),
                t,
            ),
{
    let now = now_unix_seconds();
    let r = normalize_response(url, status, body, etag, now);
    r
}

} // verus!
