//! The trigger router: decides from a record's title whether and how it is
//! to be enriched, and steps through the catalog calls that follow. The
//! calls themselves are made by the caller, which hands each outcome back.
use vstd::prelude::*;
use crate::text::{chars_of, string_of, trim_chars, trim, append_chars, contains, contains_chars, slice_chars};
use crate::gateway::{lowercase, lowercase_of};
use crate::ids::{parse_season_number, season_number_spec, parse_imdb_id, imdb_id_spec};

verus! {

/// The enrichment a title asks for by its last character.
#[derive(Clone, Copy, Debug, PartialEq, Eq, Structural)]
pub enum TriggerKind {
    NoTrigger,
    /// `;`: the movie and TV catalog.
    Tmdb,
    /// `=`: the anime catalog.
    AniList,
}

pub open spec fn trigger_of(title: Seq<char>) -> TriggerKind {
    if title.len() > 0 && title.last() == ';' {
        TriggerKind::Tmdb
    } else if title.len() > 0 && title.last() == '=' {
        TriggerKind::AniList
    } else {
        TriggerKind::NoTrigger
    }
}

pub fn trigger_kind(title: &str) -> (r: TriggerKind)
    ensures
        r == trigger_of(title@),
{
    let cs = chars_of(title);
    if cs.len() > 0 && cs[cs.len() - 1] == ';' {
        TriggerKind::Tmdb
    } else if cs.len() > 0 && cs[cs.len() - 1] == '=' {
        TriggerKind::AniList
    } else {
        TriggerKind::NoTrigger
    }
}

/// The search query of a triggered title: the one control character at
/// its end removed, then the white space around what is left.
pub open spec fn clean_query(title: Seq<char>) -> Seq<char> {
    trim(title.drop_last())
}

/// How a title is routed. An interactive caller needs a control suffix; a
/// batch caller takes every non-blank title that is not pending a `;`
/// trigger, for the movie and TV catalog.
pub open spec fn route_spec(title: Seq<char>, interactive: bool) -> Option<(TriggerKind, Seq<char>)> {
    if interactive {
        match trigger_of(title) {
            TriggerKind::Tmdb => Some((TriggerKind::Tmdb, clean_query(title))),
            TriggerKind::AniList => Some((TriggerKind::AniList, clean_query(title))),
            TriggerKind::NoTrigger => None,
        }
    } else if trim(title).len() == 0 || (title.len() > 0 && title.last() == ';') {
        None
    } else {
        Some((TriggerKind::Tmdb, trim(title)))
    }
}

/// The routing of `title`: the catalog and the cleaned query.
pub fn route_title(title: &str, interactive: bool) -> (r: Option<(TriggerKind, String)>)
    ensures
        match r {
            Some((k, q)) => route_spec(title@, interactive) == Some((k, q@)),
            None => route_spec(title@, interactive) is None,
        },
{
    let cs = chars_of(title);
    if interactive {
        let kind = trigger_kind(title);
        match kind {
            TriggerKind::NoTrigger => return None,
            _ => {},
        }
        let head = slice_chars(cs.as_slice(), 0, cs.len() - 1);
        assert(head@ =~= cs@.drop_last());
        let q = trim_chars(head.as_slice());
        Some((kind, string_of(q.as_slice())))
    } else {
        let t = trim_chars(cs.as_slice());
        if t.len() == 0 || (cs.len() > 0 && cs[cs.len() - 1] == ';') {
            return None;
        }
        Some((TriggerKind::Tmdb, string_of(t.as_slice())))
    }
}

/// A title that does not end in a control character is not routed: the
/// interactive path makes no catalog call for it.
pub proof fn lemma_untriggered_title_is_skipped(title: Seq<char>)
    requires
        !(title.len() > 0 && (title.last() == ';' || title.last() == '=')),
    ensures
        route_spec(title, true) is None,
{
}

/// For a title ending in `;`, the query handed on is the title without that
/// one `;` and without the white space around what is left.
pub proof fn lemma_semicolon_query_is_cleaned(title: Seq<char>)
    requires
        title.len() > 0,
        title.last() == ';',
    ensures
        route_spec(title, true) == Some((TriggerKind::Tmdb, trim(title.drop_last()))),
{
}

/// Once a record holds a resolved name that does not end in a control
/// character, routing it again does nothing.
pub proof fn lemma_resolved_title_is_not_reprocessed(name: Seq<char>)
    requires
        trigger_of(name) == TriggerKind::NoTrigger,
    ensures
        route_spec(name, true) is None,
{
}

/// Whether a "Type" field marks a TV record: it contains `tv` once lower-cased.
pub open spec fn is_tv_spec(type_value: Option<Seq<char>>) -> bool {
    match type_value {
        Some(t) => contains(lowercase_of(t), seq!['t', 'v']),
        None => false,
    }
}

pub fn is_tv_type(type_value: Option<&str>) -> (r: bool)
    ensures
        r == is_tv_spec(crate::signature::opt_view(type_value)),
{
    match type_value {
        Some(t) => {
            let l = lowercase(t);
            let cs = chars_of(l.as_str());
            let tv: Vec<char> = vec!['t', 'v'];
            assert(tv@ =~= seq!['t', 'v']);
            contains_chars(cs.as_slice(), tv.as_slice())
        },
        None => false,
    }
}

/// The id and kind chosen from an IMDb cross-reference: a TV record takes
/// the TV entry, else the movie entry and becomes a movie; a movie record
/// takes the movie entry, else the TV entry and becomes TV.
pub open spec fn imdb_override_spec(is_tv: bool, movie: Option<i32>, tv: Option<i32>) -> (Option<i32>, bool) {
    if is_tv {
        match (tv, movie) {
            (Some(id), _) => (Some(id), true),
            (None, Some(id)) => (Some(id), false),
            (None, None) => (None, true),
        }
    } else {
        match (movie, tv) {
            (Some(id), _) => (Some(id), false),
            (None, Some(id)) => (Some(id), true),
            (None, None) => (None, false),
        }
    }
}

pub fn imdb_override(is_tv: bool, movie: Option<i32>, tv: Option<i32>) -> (r: (Option<i32>, bool))
    ensures
        r == imdb_override_spec(is_tv, movie, tv),
{
    if is_tv {
        match (tv, movie) {
            (Some(id), _) => (Some(id), true),
            (None, Some(id)) => (Some(id), false),
            (None, None) => (None, true),
        }
    } else {
        match (movie, tv) {
            (Some(id), _) => (Some(id), false),
            (None, Some(id)) => (Some(id), true),
            (None, None) => (None, false),
        }
    }
}

/// A record typed as a movie whose IMDb id cross-references only a TV entry
/// is processed as TV with that entry, and the other way round.
pub proof fn lemma_imdb_cross_reference_overrides_type(is_tv: bool, movie: Option<i32>, tv: Option<i32>)
    ensures
        !is_tv && movie is None && tv is Some ==> imdb_override_spec(is_tv, movie, tv) == (tv, true),
        is_tv && tv is None && movie is Some ==> imdb_override_spec(is_tv, movie, tv) == (movie, false),
{
}

pub open spec fn marker_sep() -> Seq<char> {
    seq![' ', '|', ' ']
}

/// The title that flags a record whose resolution failed.
pub open spec fn error_title_spec(original: Seq<char>, message: Seq<char>) -> Seq<char> {
    original + marker_sep() + message
}

pub fn error_title(original: &str, message: &str) -> (r: String)
    ensures
        r@ == error_title_spec(original@, message@),
{
    let mut out = chars_of(original);
    let sep: Vec<char> = vec![' ', '|', ' '];
    append_chars(&mut out, sep.as_slice());
    let m = chars_of(message);
    append_chars(&mut out, m.as_slice());
    assert(sep@ =~= marker_sep());
    string_of(out.as_slice())
}

pub open spec fn no_tv_match() -> Seq<char> {
    seq!['N', 'o', ' ', 'T', 'M', 'D', 'B', ' ', 'T', 'V', ' ', 'm', 'a', 't', 'c', 'h']
}

pub open spec fn no_movie_match() -> Seq<char> {
    seq!['N', 'o', ' ', 'T', 'M', 'D', 'B', ' ', 'm', 'o', 'v', 'i', 'e', ' ', 'm', 'a', 't', 'c', 'h']
}

pub open spec fn no_anime_match() -> Seq<char> {
    seq!['N', 'o', ' ', 'A', 'n', 'i', 'L', 'i', 's', 't', ' ', 'm', 'a', 't', 'c', 'h']
}

/// Where a record's processing stands.
#[derive(Clone, Copy, Debug, PartialEq, Eq, Structural)]
pub enum Stage {
    Finished,
    AwaitImdb,
    AwaitTmdbId,
    AwaitTmdbMedia,
    AwaitAnimeId,
    AwaitAnimeMedia,
}

/// The next thing to do for a record.
#[derive(Clone, Debug)]
pub enum PageAction {
    /// Nothing to do: the record is not processed.
    Skip,
    /// A catalog call failed in a way that is reported as an error.
    Fail,
    /// Cross-reference an IMDb id in the movie and TV catalog.
    LookupImdb(String),
    ResolveMovie(String),
    ResolveTv(String),
    FetchMovie(i32),
    FetchTvSeason(i32, i32),
    ResolveAnime(String, Option<i32>),
    FetchAnime(i32),
    /// Write this error marker as the record's title; the record counts as
    /// not processed.
    MarkError(String),
    /// Build the update from the fetched metadata and write it; the record
    /// counts as processed.
    WriteUpdate,
}

/// The processing of one record.
#[derive(Clone, Debug)]
pub struct PageJob {
    pub raw_title: String,
    pub query: String,
    pub is_tv: bool,
    pub season: Option<i32>,
    pub stage: Stage,
}

impl PageJob {
    /// A TV record waiting for its catalog id or metadata has a season.
    pub open spec fn wf(&self) -> bool {
        (self.stage == Stage::AwaitTmdbId || self.stage == Stage::AwaitTmdbMedia) && self.is_tv
            ==> self.season is Some
    }

    /// The action that follows once the movie/TV classification is settled,
    /// with an id already known or not: a TV record without a season is
    /// skipped, a known id is fetched, else the query is searched.
    pub open spec fn classified_ok(self, id: Option<i32>, stage: Stage, a: PageAction) -> bool {
        if self.is_tv && self.season is None {
            stage == Stage::Finished && a is Skip
        } else {
            match id {
                Some(i) => stage == Stage::AwaitTmdbMedia && if self.is_tv {
                    a == PageAction::FetchTvSeason(i, self.season->0)
                } else {
                    a == PageAction::FetchMovie(i)
                },
                None => stage == Stage::AwaitTmdbId && if self.is_tv {
                    a matches PageAction::ResolveTv(q) && q@ == self.query@
                } else {
                    a matches PageAction::ResolveMovie(q) && q@ == self.query@
                },
            }
        }
    }

    fn after_classification(&mut self, id: Option<i32>) -> (r: PageAction)
        ensures
            final(self).wf(),
            final(self).raw_title == old(self).raw_title,
            final(self).query == old(self).query,
            final(self).is_tv == old(self).is_tv,
            final(self).season == old(self).season,
            old(self).classified_ok(id, final(self).stage, r),
    {
        if self.is_tv {
            let season = match self.season {
                Some(s) => s,
                None => {
                    self.stage = Stage::Finished;
                    return PageAction::Skip;
                },
            };
            match id {
                Some(i) => {
                    self.stage = Stage::AwaitTmdbMedia;
                    PageAction::FetchTvSeason(i, season)
                },
                None => {
                    self.stage = Stage::AwaitTmdbId;
                    PageAction::ResolveTv(self.query.clone())
                },
            }
        } else {
            match id {
                Some(i) => {
                    self.stage = Stage::AwaitTmdbMedia;
                    PageAction::FetchMovie(i)
                },
                None => {
                    self.stage = Stage::AwaitTmdbId;
                    PageAction::ResolveMovie(self.query.clone())
                },
            }
        }
    }

    /// Starts processing a record from its title, its "Type" field and its
    /// "Season" field (each `None` when absent). `interactive` is set for a
    /// webhook-triggered call, which needs a control suffix.
    pub fn start(title: &str, type_value: Option<&str>, season_text: Option<&str>, interactive: bool) -> (r: (PageJob, PageAction))
        ensures
            r.0.wf(),
            r.0.raw_title@ == title@,
            match route_spec(title@, interactive) {
                None => r.0.stage == Stage::Finished && r.1 is Skip,
                Some((kind, q)) => {
                    &&& r.0.query@ == q
                    &&& r.0.season == match season_text {
                        Some(s) => season_number_spec(s@),
                        None => None,
                    }
                    &&& if kind == TriggerKind::AniList {
                        r.0.stage == Stage::AwaitAnimeId && (r.1 matches PageAction::ResolveAnime(aq, s)
                            && aq@ == q && s == r.0.season)
                    } else {
                        match imdb_id_spec(q) {
                            Some(imdb) => r.0.stage == Stage::AwaitImdb && r.0.is_tv == is_tv_spec(
                                crate::signature::opt_view(type_value),
                            ) && (r.1 matches PageAction::LookupImdb(i) && i@ == imdb),
                            None => (PageJob {
                                stage: Stage::Finished,
                                ..r.0
                            }).classified_ok(None, r.0.stage, r.1) && r.0.is_tv == is_tv_spec(
                                crate::signature::opt_view(type_value),
                            ),
                        }
                    }
                },
            },
    {
        let raw_title = string_of(chars_of(title).as_slice());
        let route = route_title(title, interactive);
        let (kind, query) = match route {
            None => {
                return (
                    PageJob { raw_title, query: string_of(&[]), is_tv: false, season: None, stage: Stage::Finished },
                    PageAction::Skip,
                );
            },
            Some(x) => x,
        };
        let season = match season_text {
            Some(s) => parse_season_number(s),
            None => None,
        };
        let is_tv = is_tv_type(type_value);
        let mut job = PageJob { raw_title, query, is_tv, season, stage: Stage::Finished };
        match kind {
            TriggerKind::AniList => {
                job.stage = Stage::AwaitAnimeId;
                let q = job.query.clone();
                (job, PageAction::ResolveAnime(q, season))
            },
            _ => {
                match parse_imdb_id(job.query.as_str()) {
                    Some(imdb) => {
                        job.stage = Stage::AwaitImdb;
                        (job, PageAction::LookupImdb(imdb))
                    },
                    None => {
                        let a = job.after_classification(None);
                        (job, a)
                    },
                }
            },
        }
    }

    /// Continues after the IMDb cross-reference: the movie and TV entries it
    /// found, or `None` when the lookup failed.
    pub fn on_imdb(&mut self, found: Option<(Option<i32>, Option<i32>)>) -> (r: PageAction)
        requires
            old(self).wf(),
            old(self).stage == Stage::AwaitImdb,
        ensures
            final(self).wf(),
            final(self).raw_title == old(self).raw_title,
            final(self).query == old(self).query,
            final(self).season == old(self).season,
            match found {
                None => final(self).stage == Stage::Finished && r is Fail,
                Some((movie, tv)) => {
                    let (id, tv_now) = imdb_override_spec(old(self).is_tv, movie, tv);
                    final(self).is_tv == tv_now && (PageJob { is_tv: tv_now, ..*old(self) }).classified_ok(
                        id,
                        final(self).stage,
                        r,
                    )
                },
            },
    {
        match found {
            None => {
                self.stage = Stage::Finished;
                PageAction::Fail
            },
            Some((movie, tv)) => {
                let (id, tv_now) = imdb_override(self.is_tv, movie, tv);
                self.is_tv = tv_now;
                self.after_classification(id)
            },
        }
    }

    /// Continues after an id search: the id found, or `None` when the search
    /// failed, which flags the record with an error marker.
    pub fn on_id(&mut self, id: Option<i32>) -> (r: PageAction)
        requires
            old(self).wf(),
            old(self).stage == Stage::AwaitTmdbId || old(self).stage == Stage::AwaitAnimeId,
        ensures
            final(self).wf(),
            final(self).raw_title == old(self).raw_title,
            final(self).query == old(self).query,
            final(self).is_tv == old(self).is_tv,
            final(self).season == old(self).season,
            id is None ==> final(self).stage == Stage::Finished,
            match id {
                None => (r matches PageAction::MarkError(t)
                    && t@ == error_title_spec(
                    old(self).raw_title@,
                    if old(self).stage == Stage::AwaitAnimeId {
                        no_anime_match()
                    } else if old(self).is_tv {
                        no_tv_match()
                    } else {
                        no_movie_match()
                    },
                )),
                Some(i) => if old(self).stage == Stage::AwaitAnimeId {
                    final(self).stage == Stage::AwaitAnimeMedia && r == PageAction::FetchAnime(i)
                } else {
                    final(self).stage == Stage::AwaitTmdbMedia && if old(self).is_tv {
                        r == PageAction::FetchTvSeason(i, old(self).season->0)
                    } else {
                        r == PageAction::FetchMovie(i)
                    }
                },
            },
    {
        let anime = match self.stage {
            Stage::AwaitAnimeId => true,
            _ => false,
        };
        match id {
            None => {
                let t = self.failure_title(anime);
                self.stage = Stage::Finished;
                PageAction::MarkError(t)
            },
            Some(i) => {
                if anime {
                    self.stage = Stage::AwaitAnimeMedia;
                    PageAction::FetchAnime(i)
                } else {
                    self.stage = Stage::AwaitTmdbMedia;
                    if self.is_tv {
                        let s = match self.season {
                            Some(s) => s,
                            None => 1,
                        };
                        PageAction::FetchTvSeason(i, s)
                    } else {
                        PageAction::FetchMovie(i)
                    }
                }
            },
        }
    }

    fn failure_title(&self, anime: bool) -> (r: String)
        ensures
            r@ == error_title_spec(
                self.raw_title@,
                if anime {
                    no_anime_match()
                } else if self.is_tv {
                    no_tv_match()
                } else {
                    no_movie_match()
                },
            ),
    {
        let msg: Vec<char> = if anime {
            vec!['N', 'o', ' ', 'A', 'n', 'i', 'L', 'i', 's', 't', ' ', 'm', 'a', 't', 'c', 'h']
        } else if self.is_tv {
            vec!['N', 'o', ' ', 'T', 'M', 'D', 'B', ' ', 'T', 'V', ' ', 'm', 'a', 't', 'c', 'h']
        } else {
            vec!['N', 'o', ' ', 'T', 'M', 'D', 'B', ' ', 'm', 'o', 'v', 'i', 'e', ' ', 'm', 'a', 't', 'c', 'h']
        };
        assert(anime ==> msg@ =~= no_anime_match());
        assert(!anime && self.is_tv ==> msg@ =~= no_tv_match());
        assert(!anime && !self.is_tv ==> msg@ =~= no_movie_match());
        let m = string_of(msg.as_slice());
        error_title(self.raw_title.as_str(), m.as_str())
    }

    /// Continues after fetching metadata: `fetched` tells whether it
    /// succeeded; a failure flags the record with an error marker.
    pub fn on_media(&mut self, fetched: bool) -> (r: PageAction)
        requires
            old(self).wf(),
            old(self).stage == Stage::AwaitTmdbMedia || old(self).stage == Stage::AwaitAnimeMedia,
        ensures
            final(self).wf(),
            final(self).stage == Stage::Finished,
            final(self).raw_title == old(self).raw_title,
            final(self).query == old(self).query,
            final(self).is_tv == old(self).is_tv,
            final(self).season == old(self).season,
            fetched ==> r is WriteUpdate,
            !fetched ==> (r matches PageAction::MarkError(t) && t@ == error_title_spec(
                old(self).raw_title@,
                if old(self).stage == Stage::AwaitAnimeMedia {
                    no_anime_match()
                } else if old(self).is_tv {
                    no_tv_match()
                } else {
                    no_movie_match()
                },
            )),
    {
        let anime = match self.stage {
            Stage::AwaitAnimeMedia => true,
            _ => false,
        };
        self.stage = Stage::Finished;
        if fetched {
            PageAction::WriteUpdate
        } else {
            PageAction::MarkError(self.failure_title(anime))
        }
    }
}

} // verus!
