use vstd::prelude::*;

verus! {

/// Errors that a call against the service can end in.
#[derive(Debug, Clone, Copy, PartialEq, Eq, Structural)]
pub enum ClientError {
    /// The login was answered with a status other than 200.
    InvalidAPIKey,
    /// A request other than the login was answered with this non-200 status.
    HTTPError(u16),
    /// The status was 200 but the body did not have the expected shape.
    DecodeError,
    /// The request could not be carried out (connection, DNS, TLS).
    TransportError,
    /// A header value with a control character other than tab.
    InvalidHeaderValue,
    /// A request address that is not a valid URL.
    InvalidUrl,
    /// The episode listing kept announcing further pages past the page limit.
    TooManyPages,
}

/// One match of a series search.
#[derive(Debug, Clone)]
pub struct Series {
    pub id: u64,
    pub series_name: String,
}

/// A series as returned by a direct lookup.
#[derive(Debug, Clone)]
pub struct SeriesDetail {
    pub id: u64,
    pub series_name: String,
}

/// One episode of a series' listing.
#[derive(Debug, Clone, PartialEq, Eq)]
pub struct Episode {
    pub aired_season: i64,
    pub aired_episode_number: i64,
    pub dvd_season: Option<i64>,
    pub dvd_episode_number: Option<i64>,
    pub episode_name: Option<String>,
}

/// The mathematical value of an [`Episode`]: its title as a character sequence.
pub struct EpisodeView {
    pub aired_season: i64,
    pub aired_episode_number: i64,
    pub dvd_season: Option<i64>,
    pub dvd_episode_number: Option<i64>,
    pub episode_name: Option<Seq<char>>,
}

impl View for Episode {
    type V = EpisodeView;

    open spec fn view(&self) -> EpisodeView {
        EpisodeView {
            aired_season: self.aired_season,
            aired_episode_number: self.aired_episode_number,
            dvd_season: self.dvd_season,
            dvd_episode_number: self.dvd_episode_number,
            episode_name: match self.episode_name {
                Some(s) => Some(s@),
                None => None,
            },
        }
    }
}

/// The views of a sequence of episodes, in the same order.
pub open spec fn views(s: Seq<Episode>) -> Seq<EpisodeView> {
    s.map_values(|e: Episode| e@)
}

/// Which pair of numbers an episode is shown with.
#[derive(Debug, Clone, Copy, PartialEq, Eq, Structural)]
pub enum EpisodeOrdering {
    /// The season and episode number of the first broadcast.
    Aired,
    /// The DVD numbers, each falling back to the aired one where absent.
    Dvd,
}

} // verus!
