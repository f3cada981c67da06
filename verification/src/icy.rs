//! Station metadata announced in a stream's ICY response headers.

use vstd::prelude::*;
use crate::text::{parse_u32, parse_u32_spec};

verus! {

/// Metadata that a stream announces about its station.
pub struct IcyMetadata {
    pub name: Option<String>,
    pub genre: Option<String>,
    pub description: Option<String>,
    pub url: Option<String>,
    pub bitrate: Option<u32>,
    pub logo: Option<String>,
    pub country: Option<String>,
}

/// The mathematical value of [`IcyMetadata`].
pub struct IcyView {
    pub name: Option<Seq<char>>,
    pub genre: Option<Seq<char>>,
    pub description: Option<Seq<char>>,
    pub url: Option<Seq<char>>,
    pub bitrate: Option<u32>,
    pub logo: Option<Seq<char>>,
    pub country: Option<Seq<char>>,
}

impl View for IcyMetadata {
    type V = IcyView;

    open spec fn view(&self) -> IcyView {
        IcyView {
            name: self.name.deep_view(),
            genre: self.genre.deep_view(),
            description: self.description.deep_view(),
            url: self.url.deep_view(),
            bitrate: self.bitrate,
            logo: self.logo.deep_view(),
            country: self.country.deep_view(),
        }
    }
}

/// A copy of an optional string.
pub fn clone_text(s: &Option<String>) -> (r: Option<String>)
    ensures
        r.deep_view() == s.deep_view(),
{
    match s {
        Some(t) => Some(t.clone()),
        None => None,
    }
}

/// Whether two optional strings are equal.
pub fn same_text(a: &Option<String>, b: &Option<String>) -> (r: bool)
    ensures
        r == (a.deep_view() == b.deep_view()),
{
    match (a, b) {
        (Some(x), Some(y)) => *x == *y,
        (None, None) => true,
        _ => false,
    }
}

impl Clone for IcyMetadata {
    fn clone(&self) -> (r: Self)
        ensures
            r@ == self@,
    {
        IcyMetadata {
            name: clone_text(&self.name),
            genre: clone_text(&self.genre),
            description: clone_text(&self.description),
            url: clone_text(&self.url),
            bitrate: self.bitrate,
            logo: clone_text(&self.logo),
            country: clone_text(&self.country),
        }
    }
}

impl IcyMetadata {
    /// Metadata with no field set.
    pub fn empty() -> (r: Self)
        ensures
            r@ == (IcyView {
                name: None,
                genre: None,
                description: None,
                url: None,
                bitrate: None,
                logo: None,
                country: None,
            }),
    {
        IcyMetadata {
            name: None,
            genre: None,
            description: None,
            url: None,
            bitrate: None,
            logo: None,
            country: None,
        }
    }

    /// Whether two metadata values are equal.
    pub fn same_as(&self, other: &IcyMetadata) -> (r: bool)
        ensures
            r == (self@ == other@),
    {
        same_text(&self.name, &other.name) && same_text(&self.genre, &other.genre)
            && same_text(&self.description, &other.description) && same_text(&self.url, &other.url)
            && self.bitrate == other.bitrate && same_text(&self.logo, &other.logo)
            && same_text(&self.country, &other.country)
    }
}

/// Whether two optional metadata values are equal.
pub fn same_icy(a: &Option<IcyMetadata>, b: &Option<IcyMetadata>) -> (r: bool)
    ensures
        r == (icy_view(*a) == icy_view(*b)),
{
    match (a, b) {
        (Some(x), Some(y)) => x.same_as(y),
        (None, None) => true,
        _ => false,
    }
}

/// A copy of optional metadata.
pub fn clone_icy(a: &Option<IcyMetadata>) -> (r: Option<IcyMetadata>)
    ensures
        icy_view(r) == icy_view(*a),
{
    match a {
        Some(x) => Some(x.clone()),
        None => None,
    }
}

/// The value of optional metadata.
pub open spec fn icy_view(m: Option<IcyMetadata>) -> Option<IcyView> {
    match m {
        Some(x) => Some(x@),
        None => None,
    }
}

/// The ICY headers of a response, each as text when the response has it and
/// its value is visible ASCII.
pub struct IcyHeaders {
    /// `icy-name`
    pub name: Option<String>,
    /// `icy-genre`
    pub genre: Option<String>,
    /// `icy-description`
    pub description: Option<String>,
    /// `icy-url`
    pub url: Option<String>,
    /// `icy-logo`
    pub logo: Option<String>,
    /// `icy-country-code`
    pub country: Option<String>,
    /// `icy-br`
    pub bitrate: Option<String>,
}

/// The metadata that the headers describe, whatever they describe.
pub open spec fn metadata_of(h: IcyHeaders) -> IcyView {
    IcyView {
        name: h.name.deep_view(),
        genre: h.genre.deep_view(),
        description: h.description.deep_view(),
        url: h.url.deep_view(),
        bitrate: match h.bitrate {
            Some(b) => parse_u32_spec(b@),
            None => None,
        },
        logo: h.logo.deep_view(),
        country: h.country.deep_view(),
    }
}

/// Whether the headers say anything about the station: a name, genre,
/// description or URL.
pub open spec fn describes_station(h: IcyHeaders) -> bool {
    h.name is Some || h.genre is Some || h.description is Some || h.url is Some
}

/// The metadata of a station from its stream's ICY headers: present when the
/// headers give a name, genre, description or URL; the bitrate is the
/// `icy-br` value read as a number, absent when it is not one.
pub fn metadata_from_headers(headers: IcyHeaders) -> (r: Option<IcyMetadata>)
    ensures
        describes_station(headers) ==> r is Some && r->0@ == metadata_of(headers),
        r matches Some(m) ==> {
            &&& m@.name == headers.name.deep_view()
            &&& m@.genre == headers.genre.deep_view()
            &&& m@.description == headers.description.deep_view()
            &&& m@.url == headers.url.deep_view()
            &&& m@.logo == headers.logo.deep_view()
            &&& m@.country == headers.country.deep_view()
        },
        !describes_station(headers) ==> r is None,
{
    let bitrate = match &headers.bitrate {
        Some(b) => parse_u32(b.as_str()),
        None => None,
    };
    let has_any = headers.name.is_some() || headers.genre.is_some() || headers.description.is_some()
        || headers.url.is_some();
    if has_any {
        Some(
            IcyMetadata {
                name: headers.name,
                genre: headers.genre,
                description: headers.description,
                url: headers.url,
                bitrate,
                logo: headers.logo,
                country: headers.country,
            },
        )
    } else {
        None
    }
}

/// Each metadata field is the header of the same name, and the bitrate is
/// the `icy-br` header read as a number: a header that is given comes
/// through unchanged, one that is missing stays missing, and changing one
/// header changes only its own field.
pub proof fn law_metadata_follows_headers(h: IcyHeaders, genre: Option<String>)
    ensures
        metadata_of(h).name == h.name.deep_view(),
        metadata_of(h).genre == h.genre.deep_view(),
        metadata_of(h).description == h.description.deep_view(),
        metadata_of(h).url == h.url.deep_view(),
        metadata_of(h).logo == h.logo.deep_view(),
        metadata_of(h).country == h.country.deep_view(),
        h.bitrate is None ==> metadata_of(h).bitrate is None,
        h.bitrate matches Some(b) ==> metadata_of(h).bitrate == parse_u32_spec(b@),
        metadata_of(IcyHeaders { genre, ..h }) == (IcyView { genre: genre.deep_view(), ..metadata_of(h) }),
{
}

} // verus!
