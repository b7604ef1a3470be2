use crate::clock::{air_instant, read_air_instant, utc_now, Instant};
use crate::error::{Endpoint, PortalError, PortalErrorView, Upstream, UpstreamView};
use crate::request::{is_success, is_success_status, Request, RequestView};
use crate::text::{decimal_string, int_decimal, opt_text, push_int_decimal, same_text};
use vstd::hash_set::StringHashSet;
use vstd::prelude::*;
use vstd::string::*;

verus! {

/// The identity keys that an aggregation run has met so far.
pub type SeenIds = StringHashSet;

/// One picture of a catalog item.
#[derive(Debug)]
pub struct Image {
    pub url: String,
}

/// The pictures of a catalog item.
#[derive(Debug)]
pub struct Images {
    pub card: Option<Image>,
    pub background: Option<Image>,
}

/// One item of the catalog, as the catalog service describes it.
#[derive(Debug)]
pub struct LineupItem {
    pub title: String,
    pub key: String,
    pub description: String,
    pub url: String,
    pub images: Option<Images>,
    pub air_date: Option<String>,
    pub air_date_alt: Option<String>,
    pub item_type: String,
    pub tier: String,
    pub is_vod_enabled: bool,
    pub id_media: Option<i64>,
}

/// One titled grouping of the catalog, with its items in order.
#[derive(Debug)]
pub struct Lineup {
    pub title: String,
    pub items: Vec<LineupItem>,
}

/// What the pictures of an item hold: the address of each that is there.
pub struct ImagesView {
    pub card: Option<Seq<char>>,
    pub background: Option<Seq<char>>,
}

/// What a `LineupItem` holds.
pub struct ItemView {
    pub title: Seq<char>,
    pub key: Seq<char>,
    pub description: Seq<char>,
    pub url: Seq<char>,
    pub images: Option<ImagesView>,
    pub air_date: Option<Seq<char>>,
    pub air_date_alt: Option<Seq<char>>,
    pub item_type: Seq<char>,
    pub tier: Seq<char>,
    pub is_vod_enabled: bool,
    pub id_media: Option<i64>,
}

/// What a `Lineup` holds.
pub struct LineupView {
    pub title: Seq<char>,
    pub items: Seq<ItemView>,
}

impl View for Image {
    type V = Seq<char>;

    open spec fn view(&self) -> Seq<char> {
        self.url@
    }
}

impl View for Images {
    type V = ImagesView;

    open spec fn view(&self) -> ImagesView {
        ImagesView {
            card: match self.card {
                Some(card) => Some(card@),
                None => None,
            },
            background: match self.background {
                Some(background) => Some(background@),
                None => None,
            },
        }
    }
}

impl View for LineupItem {
    type V = ItemView;

    open spec fn view(&self) -> ItemView {
        ItemView {
            title: self.title@,
            key: self.key@,
            description: self.description@,
            url: self.url@,
            images: match self.images {
                Some(images) => Some(images@),
                None => None,
            },
            air_date: opt_text(self.air_date),
            air_date_alt: opt_text(self.air_date_alt),
            item_type: self.item_type@,
            tier: self.tier@,
            is_vod_enabled: self.is_vod_enabled,
            id_media: self.id_media,
        }
    }
}

impl View for Lineup {
    type V = LineupView;

    open spec fn view(&self) -> LineupView {
        LineupView {
            title: self.title@,
            items: Seq::new(self.items@.len(), |i: int| self.items@[i]@),
        }
    }
}

/// What a list of groupings holds.
pub open spec fn lineup_views(lineups: Seq<Lineup>) -> Seq<LineupView> {
    Seq::new(lineups.len(), |i: int| lineups[i]@)
}

/// One stream of the aggregated catalog.
#[derive(Debug)]
pub struct StreamInfo {
    pub id: String,
    pub title: String,
    pub description: String,
    pub sport: String,
    pub status: String,
    pub start_time: String,
    pub end_time: Option<String>,
    pub thumbnail_url: String,
    pub stream_url: String,
    pub requires_auth: bool,
    pub is_premium: bool,
}

/// What a `StreamInfo` holds.
pub struct StreamView {
    pub id: Seq<char>,
    pub title: Seq<char>,
    pub description: Seq<char>,
    pub sport: Seq<char>,
    pub status: Seq<char>,
    pub start_time: Seq<char>,
    pub end_time: Option<Seq<char>>,
    pub thumbnail_url: Seq<char>,
    pub stream_url: Seq<char>,
    pub requires_auth: bool,
    pub is_premium: bool,
}

impl View for StreamInfo {
    type V = StreamView;

    open spec fn view(&self) -> StreamView {
        StreamView {
            id: self.id@,
            title: self.title@,
            description: self.description@,
            sport: self.sport@,
            status: self.status@,
            start_time: self.start_time@,
            end_time: opt_text(self.end_time),
            thumbnail_url: self.thumbnail_url@,
            stream_url: self.stream_url@,
            requires_auth: self.requires_auth,
            is_premium: self.is_premium,
        }
    }
}

/// What a list of streams holds.
pub open spec fn stream_views(streams: Seq<StreamInfo>) -> Seq<StreamView> {
    Seq::new(streams.len(), |i: int| streams[i]@)
}

/// Where a stream stands in time.
#[derive(Clone, Copy, Debug, PartialEq, Eq)]
pub enum StreamStatus {
    /// On air now.
    Live,
    /// Over, and playable on demand.
    Replay,
    /// Not yet on air.
    Upcoming,
}

impl StreamStatus {
    /// The word that a stream descriptor holds for this status.
    pub open spec fn label_text(self) -> Seq<char> {
        match self {
            StreamStatus::Live => "live"@,
            StreamStatus::Replay => "replay"@,
            StreamStatus::Upcoming => "upcoming"@,
        }
    }

    /// The word that a stream descriptor holds for this status.
    pub fn label(&self) -> (word: &'static str)
        ensures
            word@ == self.label_text(),
    {
        match self {
            StreamStatus::Live => "live",
            StreamStatus::Replay => "replay",
            StreamStatus::Upcoming => "upcoming",
        }
    }
}

/// Whether an item of this type is a stream: a live broadcast or on-demand
/// media. Items of any other type are left out of the aggregated catalog.
pub open spec fn is_stream_type(item_type: Seq<char>) -> bool {
    item_type == "Live"@ || item_type == "Media"@
}

/// The identity key of an item: the decimal numeral of its media number
/// where it has one, its key otherwise.
pub open spec fn stream_id_of(item: ItemView) -> Seq<char> {
    match item.id_media {
        Some(id_media) => int_decimal(id_media as int),
        None => item.key,
    }
}

/// The address of an item's thumbnail: that of its card picture where it
/// has one, else that of its background picture, else the empty text.
pub open spec fn thumbnail_of(item: ItemView) -> Seq<char> {
    match item.images {
        Some(images) => match images.card {
            Some(card) => card,
            None => match images.background {
                Some(background) => background,
                None => Seq::empty(),
            },
        },
        None => Seq::empty(),
    }
}

/// The air date of an item: its primary date where it has one, else its
/// alternate date, else the empty text.
pub open spec fn air_date_of(item: ItemView) -> Seq<char> {
    match item.air_date {
        Some(date) => date,
        None => match item.air_date_alt {
            Some(date) => date,
            None => Seq::empty(),
        },
    }
}

/// Whether an air date lies in the past. A date that could not be read
/// does not.
pub open spec fn is_past(air: Option<Instant>, now: Instant) -> bool {
    match air {
        Some(at) => at.before(now),
        None => false,
    }
}

/// The status of an item: live where on-demand playback is off and the
/// air date is past; replay where on-demand playback is on; upcoming
/// otherwise.
pub open spec fn status_of(is_vod_enabled: bool, air: Option<Instant>, now: Instant) -> StreamStatus {
    if !is_vod_enabled && is_past(air, now) {
        StreamStatus::Live
    } else if is_vod_enabled {
        StreamStatus::Replay
    } else {
        StreamStatus::Upcoming
    }
}

/// Whether a stream of this tier asks for a session.
pub open spec fn tier_requires_auth(tier: Seq<char>) -> bool {
    tier == "Member"@ || tier == "Premium"@
}

/// Whether a stream of this tier is a premium stream.
pub open spec fn tier_is_premium(tier: Seq<char>) -> bool {
    tier == "Premium"@
}

/// The stream that an item of the grouping titled `sport` stands for, as
/// seen at the time `now`.
pub open spec fn describe(sport: Seq<char>, item: ItemView, now: Instant) -> StreamView {
    StreamView {
        id: stream_id_of(item),
        title: item.title,
        description: item.description,
        sport,
        status: status_of(
            item.is_vod_enabled,
            air_instant(air_date_of(item)),
            now,
        ).label_text(),
        start_time: air_date_of(item),
        end_time: None,
        thumbnail_url: thumbnail_of(item),
        stream_url: item.url,
        requires_auth: tier_requires_auth(item.tier),
        is_premium: tier_is_premium(item.tier),
    }
}

/// The items of one grouping, each with the grouping's title.
pub open spec fn lineup_entries(lineup: LineupView) -> Seq<(Seq<char>, ItemView)> {
    Seq::new(lineup.items.len(), |i: int| (lineup.title, lineup.items[i]))
}

/// The items of all groupings in the order in which they are met, each
/// with its grouping's title.
pub open spec fn entries(lineups: Seq<LineupView>) -> Seq<(Seq<char>, ItemView)>
    decreases lineups.len(),
{
    if lineups.len() == 0 {
        Seq::empty()
    } else {
        entries(lineups.drop_last()) + lineup_entries(lineups.last())
    }
}

/// The identity keys that are known once `entries` have been gone through,
/// `seen` having been known before: those, and the key of each stream
/// among the entries.
pub open spec fn seen_after(
    entries: Seq<(Seq<char>, ItemView)>,
    seen: Set<Seq<char>>,
) -> Set<Seq<char>>
    decreases entries.len(),
{
    if entries.len() == 0 {
        seen
    } else {
        let before = seen_after(entries.drop_last(), seen);
        let item = entries.last().1;
        if is_stream_type(item.item_type) {
            before.insert(stream_id_of(item))
        } else {
            before
        }
    }
}

/// The streams that come of going through `entries` in order: an entry
/// gives a stream where its item is of a stream type and its identity key
/// was not known before it, neither from `seen` nor from an earlier entry.
pub open spec fn aggregate(
    entries: Seq<(Seq<char>, ItemView)>,
    seen: Set<Seq<char>>,
    now: Instant,
) -> Seq<StreamView>
    decreases entries.len(),
{
    if entries.len() == 0 {
        Seq::empty()
    } else {
        let before = aggregate(entries.drop_last(), seen, now);
        let known = seen_after(entries.drop_last(), seen);
        let (sport, item) = entries.last();
        if is_stream_type(item.item_type) && !known.contains(stream_id_of(item)) {
            before.push(describe(sport, item, now))
        } else {
            before
        }
    }
}

/// The identity key of `item`. A media number goes before the key: the
/// key counts only where the item has no media number.
pub fn stream_id(item: &LineupItem) -> (id: String)
    ensures
        item.id_media matches Some(id_media) ==> id@ == int_decimal(id_media as int),
        item.id_media is None ==> id@ == item.key@,
        id@ == stream_id_of(item@),
{
    match item.id_media {
        Some(id_media) => decimal_string(id_media),
        None => item.key.clone(),
    }
}

/// The address of the thumbnail of `item`.
pub fn thumbnail_url(item: &LineupItem) -> (url: String)
    ensures
        url@ == thumbnail_of(item@),
{
    match &item.images {
        Some(images) => match &images.card {
            Some(card) => card.url.clone(),
            None => match &images.background {
                Some(background) => background.url.clone(),
                None => String::new(),
            },
        },
        None => String::new(),
    }
}

/// The air date of `item`.
pub fn air_date(item: &LineupItem) -> (date: String)
    ensures
        date@ == air_date_of(item@),
{
    match &item.air_date {
        Some(date) => date.clone(),
        None => match &item.air_date_alt {
            Some(date) => date.clone(),
            None => String::new(),
        },
    }
}

/// The status of a stream whose air date reads as `air`, at the time
/// `now`.
pub fn classify_status(is_vod_enabled: bool, air: Option<Instant>, now: Instant) -> (status:
    StreamStatus)
    ensures
        status == status_of(is_vod_enabled, air, now),
{
    let past = match air {
        Some(at) => at.is_before(&now),
        None => false,
    };
    if !is_vod_enabled && past {
        StreamStatus::Live
    } else if is_vod_enabled {
        StreamStatus::Replay
    } else {
        StreamStatus::Upcoming
    }
}

/// Whether a stream of the tier `tier` asks for a session.
pub fn requires_auth(tier: &str) -> (required: bool)
    ensures
        required == tier_requires_auth(tier@),
{
    same_text(tier, "Member") || same_text(tier, "Premium")
}

/// Whether a stream of the tier `tier` is a premium stream.
pub fn is_premium(tier: &str) -> (premium: bool)
    ensures
        premium == tier_is_premium(tier@),
        premium ==> tier_requires_auth(tier@),
{
    same_text(tier, "Premium")
}

/// The stream that `item` of the grouping titled `sport` stands for.
fn describe_item(sport: &str, item: &LineupItem, id: String, now: Instant) -> (stream: StreamInfo)
    requires
        id@ == stream_id_of(item@),
    ensures
        stream@ == describe(sport@, item@, now),
{
    let start_time = air_date(item);
    let status = classify_status(item.is_vod_enabled, read_air_instant(start_time.as_str()), now);
    StreamInfo {
        id,
        title: item.title.clone(),
        description: item.description.clone(),
        sport: String::from_str(sport),
        status: String::from_str(status.label()),
        start_time,
        end_time: None,
        thumbnail_url: thumbnail_url(item),
        stream_url: item.url.clone(),
        requires_auth: requires_auth(item.tier.as_str()),
        is_premium: is_premium(item.tier.as_str()),
    }
}

/// Turns the groupings of one catalog page into streams, at the time
/// `now`. Items that are no streams are left out. `seen_ids` holds the
/// identity keys that earlier pages have brought: an item whose key it
/// holds is left out, and the key of each stream met goes into it.
pub fn convert_lineups_to_streams_at(
    lineups: &[Lineup],
    seen_ids: &mut SeenIds,
    now: Instant,
) -> (streams: Vec<StreamInfo>)
    ensures
        stream_views(streams@) == aggregate(
            entries(lineup_views(lineups@)),
            old(seen_ids)@,
            now,
        ),
        final(seen_ids)@ == seen_after(entries(lineup_views(lineups@)), old(seen_ids)@),
{
    let mut streams: Vec<StreamInfo> = Vec::new();
    let ghost seen = seen_ids@;
    let ghost groupings = lineup_views(lineups@);
    let mut at: usize = 0;
    assert(stream_views(streams@) =~= Seq::<StreamView>::empty());
    while at < lineups.len()
        invariant
            at <= lineups.len(),
            groupings == lineup_views(lineups@),
            stream_views(streams@) == aggregate(entries(groupings.take(at as int)), seen, now),
            seen_ids@ == seen_after(entries(groupings.take(at as int)), seen),
        decreases lineups.len() - at,
    {
        let lineup = &lineups[at];
        let ghost done = entries(groupings.take(at as int));
        let ghost here = lineup_entries(lineup@);
        proof {
            assert(groupings.take(at + 1).drop_last() =~= groupings.take(at as int));
            assert(groupings.take(at + 1).last() == lineup@);
            assert(done + here.take(0) =~= done);
        }
        let mut i: usize = 0;
        while i < lineup.items.len()
            invariant
                i <= lineup.items.len(),
                here == lineup_entries(lineup@),
                stream_views(streams@) == aggregate(done + here.take(i as int), seen, now),
                seen_ids@ == seen_after(done + here.take(i as int), seen),
            decreases lineup.items.len() - i,
        {
            let item = &lineup.items[i];
            proof {
                let next = done + here.take(i + 1);
                assert(next.drop_last() =~= done + here.take(i as int));
                assert(next.last() == (lineup.title@, item@));
            }
            if same_text(item.item_type.as_str(), "Live") || same_text(
                item.item_type.as_str(),
                "Media",
            ) {
                let id = stream_id(item);
                if !seen_ids.contains(id.as_str()) {
                    seen_ids.insert(id.clone());
                    let ghost before = stream_views(streams@);
                    let stream = describe_item(lineup.title.as_str(), item, id, now);
                    streams.push(stream);
                    assert(stream_views(streams@) =~= before.push(stream@));
                } else {
                    assert(seen_ids@.insert(id@) =~= seen_ids@);
                }
            }
            i += 1;
        }
        proof {
            assert(here.take(here.len() as int) =~= here);
        }
        at += 1;
    }
    proof {
        assert(groupings.take(groupings.len() as int) =~= groupings);
    }
    streams
}

/// Turns the groupings of one catalog page into streams, as
/// `convert_lineups_to_streams_at` does at the time that the system clock
/// gives.
pub fn convert_lineups_to_streams(lineups: &[Lineup], seen_ids: &mut SeenIds) -> (streams: Vec<
    StreamInfo,
>)
    ensures
        exists|now: Instant|
            stream_views(streams@) == #[trigger] aggregate(
                entries(lineup_views(lineups@)),
                old(seen_ids)@,
                now,
            ),
        final(seen_ids)@ == seen_after(entries(lineup_views(lineups@)), old(seen_ids)@),
{
    let now = utc_now();
    convert_lineups_to_streams_at(lineups, seen_ids, now)
}

/// The address of the catalog service.
pub const CATALOG_URL: &'static str =
    "https://services.radio-canada.ca/ott/catalog/v2/gem/section/olympics";

/// The number of groupings that a full page of the catalog holds.
pub const PAGE_SIZE: usize = 6;

/// The number of pages after which a fetch stops, whatever the catalog
/// service answers.
pub const MAX_PAGES: u32 = 10;

/// What came of reading the body of the catalog service's answer.
#[derive(Debug)]
pub enum PageBody {
    /// The body is not of the expected shape; the text says why.
    Malformed(String),
    /// The groupings of the page, in order.
    Parsed(Vec<Lineup>),
}

/// A fetch of the catalog that is under way: the page that is due, the
/// identity keys met, and the streams gathered on the pages before.
pub struct CatalogFetch {
    page_number: u32,
    seen_ids: SeenIds,
    all_streams: Vec<StreamInfo>,
    now: Instant,
}

/// What a `CatalogFetch` holds.
pub struct FetchView {
    pub page_number: nat,
    pub seen: Set<Seq<char>>,
    pub streams: Seq<StreamView>,
    pub now: Instant,
}

/// How a fetch goes on once a page has been read.
pub enum FetchStep {
    /// The next page is due.
    Next(CatalogFetch),
    /// The fetch is over: with all streams, or with the failure that ended
    /// it.
    Done(Result<Vec<StreamInfo>, PortalError>),
}

impl View for CatalogFetch {
    type V = FetchView;

    closed spec fn view(&self) -> FetchView {
        FetchView {
            page_number: self.page_number as nat,
            seen: self.seen_ids@,
            streams: stream_views(self.all_streams@),
            now: self.now,
        }
    }
}

/// The address of page `page_number` of the catalog.
pub open spec fn page_url_text(page_number: nat) -> Seq<char> {
    CATALOG_URL@ + "?device=web&pageSize="@ + int_decimal(PAGE_SIZE as int) + "&pageNumber="@
        + int_decimal(page_number as int)
}

/// The request for page `page_number` of the catalog.
pub open spec fn page_request(page_number: nat) -> RequestView {
    RequestView {
        url: page_url_text(page_number),
        headers: seq![("Accept"@, "application/json"@)],
    }
}

/// A fetch before its first page: page 1 is due, nothing is known.
pub open spec fn first_page(now: Instant) -> FetchView {
    FetchView { page_number: 1, seen: Set::empty(), streams: Seq::empty(), now }
}

/// A fetch after the page that was due has brought `page`: the streams of
/// the page follow those gathered before, and the next page is due.
pub open spec fn after_page(fetch: FetchView, page: Seq<LineupView>) -> FetchView {
    FetchView {
        page_number: fetch.page_number + 1,
        seen: seen_after(entries(page), fetch.seen),
        streams: fetch.streams + aggregate(entries(page), fetch.seen, fetch.now),
        now: fetch.now,
    }
}

/// Whether a fetch ends with the page that was due: the page holds fewer
/// groupings than a full page, or it is the last page that a fetch may ask
/// for.
pub open spec fn is_last_page(fetch: FetchView, page: Seq<LineupView>) -> bool {
    page.len() < PAGE_SIZE || fetch.page_number >= MAX_PAGES
}

/// What a status of the catalog service means: any status outside 200 to
/// 299 ends the fetch.
pub open spec fn catalog_status_verdict(status: u16) -> Option<PortalErrorView> {
    if is_success(status) {
        None
    } else {
        Some(
            PortalErrorView::UpstreamUnavailable {
                endpoint: Endpoint::Catalog,
                cause: UpstreamView::Status(status),
            },
        )
    }
}

/// Judges the status of the catalog service's answer, before its body is
/// read.
pub fn check_catalog_status(status: u16) -> (verdict: Result<(), PortalError>)
    ensures
        match verdict {
            Ok(_) => catalog_status_verdict(status) is None,
            Err(error) => catalog_status_verdict(status) == Some(error@),
        },
{
    if is_success_status(status) {
        Ok(())
    } else {
        Err(
            PortalError::UpstreamUnavailable {
                endpoint: Endpoint::Catalog,
                cause: Upstream::Status(status),
            },
        )
    }
}

impl CatalogFetch {
    #[verifier::type_invariant]
    spec fn page_is_in_range(self) -> bool {
        1 <= self.page_number <= MAX_PAGES
    }

    /// A fetch before its first page, for streams as they stand at the
    /// time `now`.
    pub fn begin(now: Instant) -> (fetch: Self)
        ensures
            fetch@ == first_page(now),
    {
        let fetch = CatalogFetch {
            page_number: 1,
            seen_ids: SeenIds::new(),
            all_streams: Vec::new(),
            now,
        };
        assert(fetch@.streams =~= Seq::<StreamView>::empty());
        fetch
    }

    /// The number of the page that is due: the first page is page 1, and
    /// no fetch asks for a page beyond `MAX_PAGES`.
    pub fn page_number(&self) -> (number: u32)
        ensures
            number == self@.page_number,
            1 <= number <= MAX_PAGES,
    {
        proof {
            use_type_invariant(self);
        }
        self.page_number
    }

    /// The request for the page that is due.
    pub fn request(&self) -> (request: Request)
        ensures
            request@ == page_request(self@.page_number),
    {
        let mut url = String::from_str(CATALOG_URL);
        url.append("?device=web&pageSize=");
        push_int_decimal(&mut url, PAGE_SIZE as i64);
        url.append("&pageNumber=");
        push_int_decimal(&mut url, self.page_number as i64);
        let mut headers: Vec<(String, String)> = Vec::new();
        headers.push((String::from_str("Accept"), String::from_str("application/json")));
        let request = Request { url, headers };
        assert(request@.headers =~= page_request(self@.page_number).headers);
        request
    }

    /// Takes in the body of the page that was due. A body that could not be
    /// read ends the fetch with a failure, and nothing of what was gathered
    /// is handed out. Otherwise the page's streams follow those gathered
    /// before; the fetch ends with all of them where this was the last
    /// page, and goes on to the next page where it was not.
    pub fn absorb(self, body: PageBody) -> (step: FetchStep)
        ensures
            match body {
                PageBody::Malformed(why) => step matches FetchStep::Done(Err(error)) && error@ == (
                PortalErrorView::UpstreamUnavailable {
                    endpoint: Endpoint::Catalog,
                    cause: UpstreamView::Malformed(why@),
                }),
                PageBody::Parsed(page) => if is_last_page(self@, lineup_views(page@)) {
                    step matches FetchStep::Done(Ok(streams)) && stream_views(streams@)
                        == after_page(self@, lineup_views(page@)).streams
                } else {
                    step matches FetchStep::Next(next) && next@ == after_page(
                        self@,
                        lineup_views(page@),
                    )
                },
            },
    {
        proof {
            use_type_invariant(&self);
        }
        let ghost start = self@;
        let CatalogFetch { page_number, seen_ids, all_streams, now } = self;
        let mut seen_ids = seen_ids;
        let mut all_streams = all_streams;
        match body {
            PageBody::Malformed(why) => FetchStep::Done(
                Err(
                    PortalError::UpstreamUnavailable {
                        endpoint: Endpoint::Catalog,
                        cause: Upstream::Malformed(why),
                    },
                ),
            ),
            PageBody::Parsed(page) => {
                let mut page_streams = convert_lineups_to_streams_at(
                    page.as_slice(),
                    &mut seen_ids,
                    now,
                );
                let ghost gathered = stream_views(all_streams@);
                let ghost fresh = stream_views(page_streams@);
                all_streams.append(&mut page_streams);
                assert(stream_views(all_streams@) =~= gathered + fresh);
                if page.len() < PAGE_SIZE || page_number >= MAX_PAGES {
                    FetchStep::Done(Ok(all_streams))
                } else {
                    let next = CatalogFetch {
                        page_number: page_number + 1,
                        seen_ids,
                        all_streams,
                        now,
                    };
                    FetchStep::Next(next)
                }
            },
        }
    }
}

/// Begins a fetch of the catalog, for streams as they stand at the time
/// that the system clock gives.
pub fn fetch_olympic_streams() -> (fetch: CatalogFetch)
    ensures
        exists|now: Instant| fetch@ == #[trigger] first_page(now),
{
    let now = utc_now();
    CatalogFetch::begin(now)
}

/// Whether some entry is a stream with the identity key `id`.
pub open spec fn has_stream_with_id(entries: Seq<(Seq<char>, ItemView)>, id: Seq<char>) -> bool {
    exists|k: int|
        0 <= k < entries.len() && is_stream_type((#[trigger] entries[k]).1.item_type)
            && stream_id_of(entries[k].1) == id
}

/// Whether entry `k` is the first to bring its identity key: it is a
/// stream, and neither `seen` nor a stream before it holds its key.
pub open spec fn is_first_stream(
    entries: Seq<(Seq<char>, ItemView)>,
    seen: Set<Seq<char>>,
    k: int,
) -> bool {
    &&& 0 <= k < entries.len()
    &&& is_stream_type(entries[k].1.item_type)
    &&& !seen.contains(stream_id_of(entries[k].1))
    &&& !has_stream_with_id(entries.take(k), stream_id_of(entries[k].1))
}

/// Whether `stream` is what entry `k` gives, and entry `k` the first to
/// bring its identity key.
pub open spec fn stands_for(
    stream: StreamView,
    entries: Seq<(Seq<char>, ItemView)>,
    seen: Set<Seq<char>>,
    now: Instant,
    k: int,
) -> bool {
    is_first_stream(entries, seen, k) && stream == describe(entries[k].0, entries[k].1, now)
}

/// The keys known after `entries` are those known before and those of the
/// streams among the entries.
pub proof fn lemma_seen_after(entries: Seq<(Seq<char>, ItemView)>, seen: Set<Seq<char>>)
    ensures
        forall|id: Seq<char>| #[trigger]
            seen_after(entries, seen).contains(id) <==> seen.contains(id) || has_stream_with_id(
                entries,
                id,
            ),
    decreases entries.len(),
{
    if entries.len() > 0 {
        let shorter = entries.drop_last();
        let last = entries.last();
        lemma_seen_after(shorter, seen);
        let n = shorter.len() as int;
        assert(entries[n] == last);
        assert forall|id: Seq<char>| #[trigger]
            seen_after(entries, seen).contains(id) <==> seen.contains(id) || has_stream_with_id(
                entries,
                id,
            ) by {
            let known = seen_after(shorter, seen).contains(id);
            assert(known <==> seen.contains(id) || has_stream_with_id(shorter, id));
            let brought = is_stream_type(last.1.item_type) && stream_id_of(last.1) == id;
            assert(seen_after(entries, seen).contains(id) <==> known || brought);
            if has_stream_with_id(shorter, id) {
                let k = choose|k: int|
                    0 <= k < shorter.len() && is_stream_type((#[trigger] shorter[k]).1.item_type)
                        && stream_id_of(shorter[k].1) == id;
                assert(entries[k] == shorter[k]);
                assert(has_stream_with_id(entries, id));
            }
            if brought {
                assert(is_stream_type(entries[n].1.item_type));
                assert(has_stream_with_id(entries, id));
            }
            if has_stream_with_id(entries, id) {
                let k = choose|k: int|
                    0 <= k < entries.len() && is_stream_type((#[trigger] entries[k]).1.item_type)
                        && stream_id_of(entries[k].1) == id;
                if k < n {
                    assert(shorter[k] == entries[k]);
                    assert(has_stream_with_id(shorter, id));
                } else {
                    assert(brought);
                }
            }
        }
    }
}

/// Whether `stream` is what some entry gives that is the first to bring
/// its identity key.
pub open spec fn has_source(
    stream: StreamView,
    entries: Seq<(Seq<char>, ItemView)>,
    seen: Set<Seq<char>>,
    now: Instant,
) -> bool {
    exists|k: int| #[trigger] stands_for(stream, entries, seen, now, k)
}

/// What the aggregated output holds. Every stream of it stands for an
/// entry that is a stream and the first to bring its identity key, so no
/// item of another type appears in it, and of the entries with one key
/// the first gives the stream, title and all. Every such entry has its
/// stream in the output. No two streams of the output have one identity
/// key, and none has a key that was known before.
pub proof fn law_aggregate(
    entries: Seq<(Seq<char>, ItemView)>,
    seen: Set<Seq<char>>,
    now: Instant,
)
    ensures
        forall|i: int|
            0 <= i < aggregate(entries, seen, now).len() ==> has_source(
                #[trigger] aggregate(entries, seen, now)[i],
                entries,
                seen,
                now,
            ),
        forall|k: int| #[trigger]
            is_first_stream(entries, seen, k) ==> aggregate(entries, seen, now).contains(
                describe(entries[k].0, entries[k].1, now),
            ),
        forall|i: int, j: int|
            0 <= i < j < aggregate(entries, seen, now).len() ==> (#[trigger] aggregate(
                entries,
                seen,
                now,
            )[i]).id != (#[trigger] aggregate(entries, seen, now)[j]).id,
        forall|i: int|
            0 <= i < aggregate(entries, seen, now).len() ==> !seen.contains(
                (#[trigger] aggregate(entries, seen, now)[i]).id,
            ),
    decreases entries.len(),
{
    let out = aggregate(entries, seen, now);
    if entries.len() > 0 {
        let shorter = entries.drop_last();
        let before = aggregate(shorter, seen, now);
        let last = entries.last();
        let n = shorter.len() as int;
        law_aggregate(shorter, seen, now);
        lemma_seen_after(shorter, seen);
        let pushed = is_stream_type(last.1.item_type) && !seen_after(shorter, seen).contains(
            stream_id_of(last.1),
        );
        assert(entries.take(n) =~= shorter);
        assert(entries[n] == last);
        assert(pushed <==> is_first_stream(entries, seen, n));
        // An entry before the last is the first of its key in the longer
        // list exactly when it is in the shorter one.
        assert forall|k: int| 0 <= k < n implies (is_first_stream(entries, seen, k)
            <==> is_first_stream(shorter, seen, k)) by {
            assert(entries[k] == shorter[k]);
            assert(entries.take(k) =~= shorter.take(k));
        }
        assert forall|i: int| 0 <= i < out.len() implies has_source(
            #[trigger] out[i],
            entries,
            seen,
            now,
        ) by {
            if i < before.len() {
                assert(has_source(before[i], shorter, seen, now));
                let k = choose|k: int| #[trigger] stands_for(before[i], shorter, seen, now, k);
                assert(entries[k] == shorter[k]);
                assert(stands_for(out[i], entries, seen, now, k));
            } else {
                assert(stands_for(out[i], entries, seen, now, n));
            }
        }
        assert forall|k: int| #[trigger] is_first_stream(entries, seen, k) implies out.contains(
            describe(entries[k].0, entries[k].1, now),
        ) by {
            if k < n {
                assert(is_first_stream(shorter, seen, k));
                let wanted = describe(shorter[k].0, shorter[k].1, now);
                assert(before.contains(wanted));
                let i = choose|i: int| 0 <= i < before.len() && before[i] == wanted;
                assert(entries[k] == shorter[k]);
                assert(out[i] == wanted);
            } else {
                assert(out[before.len() as int] == describe(last.0, last.1, now));
            }
        }
        assert forall|i: int, j: int| 0 <= i < j < out.len() implies (#[trigger] out[i]).id != (
        #[trigger] out[j]).id by {
            if j < before.len() {
                assert(out[i] == before[i]);
                assert(out[j] == before[j]);
            } else {
                assert(has_source(before[i], shorter, seen, now));
                let k = choose|k: int| #[trigger] stands_for(before[i], shorter, seen, now, k);
                assert(out[i] == before[i]);
                assert(is_stream_type(shorter[k].1.item_type));
                assert(has_stream_with_id(shorter, before[i].id));
            }
        }
        assert forall|i: int| 0 <= i < out.len() implies !seen.contains((#[trigger] out[i]).id) by {
            if i < before.len() {
                assert(out[i] == before[i]);
            }
        }
    }
}

/// Going through two lists one after the other is going through the two
/// as one.
pub proof fn lemma_aggregate_concat(
    first: Seq<(Seq<char>, ItemView)>,
    second: Seq<(Seq<char>, ItemView)>,
    seen: Set<Seq<char>>,
    now: Instant,
)
    ensures
        seen_after(first + second, seen) == seen_after(second, seen_after(first, seen)),
        aggregate(first + second, seen, now) == aggregate(first, seen, now) + aggregate(
            second,
            seen_after(first, seen),
            now,
        ),
    decreases second.len(),
{
    if second.len() == 0 {
        assert(first + second =~= first);
        assert(aggregate(first, seen, now) + Seq::<StreamView>::empty() =~= aggregate(
            first,
            seen,
            now,
        ));
    } else {
        let whole = first + second;
        assert(whole.drop_last() =~= first + second.drop_last());
        assert(whole.last() == second.last());
        lemma_aggregate_concat(first, second.drop_last(), seen, now);
        assert(aggregate(whole, seen, now) =~= aggregate(first, seen, now) + aggregate(
            second,
            seen_after(first, seen),
            now,
        ));
    }
}

/// An item of another type than the two stream types has no part in the
/// aggregation: with the entry taken out of the list, the output and the
/// keys known afterwards are what they are with it.
pub proof fn law_other_types_have_no_effect(
    entries: Seq<(Seq<char>, ItemView)>,
    seen: Set<Seq<char>>,
    now: Instant,
    k: int,
)
    requires
        0 <= k < entries.len(),
        !is_stream_type(entries[k].1.item_type),
    ensures
        aggregate(entries.remove(k), seen, now) == aggregate(entries, seen, now),
        seen_after(entries.remove(k), seen) == seen_after(entries, seen),
{
    let head = entries.take(k);
    let with_it = entries.take(k + 1);
    let tail = entries.skip(k + 1);
    assert(with_it.drop_last() =~= head);
    assert(with_it.last() == entries[k]);
    assert(entries =~= with_it + tail);
    assert(entries.remove(k) =~= head + tail);
    lemma_aggregate_concat(with_it, tail, seen, now);
    lemma_aggregate_concat(head, tail, seen, now);
}

/// Where no entry is of a stream type, the aggregated output is empty.
pub proof fn law_other_types_are_left_out(
    entries: Seq<(Seq<char>, ItemView)>,
    seen: Set<Seq<char>>,
    now: Instant,
)
    requires
        forall|k: int|
            0 <= k < entries.len() ==> !is_stream_type((#[trigger] entries[k]).1.item_type),
    ensures
        aggregate(entries, seen, now).len() == 0,
{
    law_aggregate(entries, seen, now);
    let out = aggregate(entries, seen, now);
    if out.len() > 0 {
        assert(has_source(out[0], entries, seen, now));
        let k = choose|k: int| #[trigger] stands_for(out[0], entries, seen, now, k);
        assert(is_stream_type(entries[k].1.item_type));
    }
}

/// A premium stream asks for a session.
pub proof fn law_premium_requires_auth(
    entries: Seq<(Seq<char>, ItemView)>,
    seen: Set<Seq<char>>,
    now: Instant,
)
    ensures
        forall|i: int|
            0 <= i < aggregate(entries, seen, now).len() ==> ((#[trigger] aggregate(
                entries,
                seen,
                now,
            )[i]).is_premium ==> aggregate(entries, seen, now)[i].requires_auth),
{
    law_aggregate(entries, seen, now);
    let out = aggregate(entries, seen, now);
    assert forall|i: int| 0 <= i < out.len() && (#[trigger] out[i]).is_premium implies out[i].requires_auth by {
        assert(has_source(out[i], entries, seen, now));
        let k = choose|k: int| #[trigger] stands_for(out[i], entries, seen, now, k);
    }
}

/// The entries of a run of pages, in the order in which a fetch meets
/// them.
pub open spec fn entries_of_pages(pages: Seq<Seq<LineupView>>) -> Seq<(Seq<char>, ItemView)>
    decreases pages.len(),
{
    if pages.len() == 0 {
        Seq::empty()
    } else {
        entries_of_pages(pages.drop_last()) + entries(pages.last())
    }
}

/// A fetch after it has taken in `pages` one after the other.
pub open spec fn fetch_after(now: Instant, pages: Seq<Seq<LineupView>>) -> FetchView
    decreases pages.len(),
{
    if pages.len() == 0 {
        first_page(now)
    } else {
        after_page(fetch_after(now, pages.drop_last()), pages.last())
    }
}

/// A fetch deduplicates over all its pages: what it has gathered after any
/// run of pages is what comes of going through the entries of all of them
/// as one list with nothing known before. So `law_aggregate` holds of a
/// whole fetch: a key that an earlier page brought does not come again,
/// and the first entry with a key gives the stream.
pub proof fn law_fetch_is_one_aggregation(now: Instant, pages: Seq<Seq<LineupView>>)
    ensures
        fetch_after(now, pages).page_number == pages.len() + 1,
        fetch_after(now, pages).now == now,
        fetch_after(now, pages).streams == aggregate(entries_of_pages(pages), Set::empty(), now),
        fetch_after(now, pages).seen == seen_after(entries_of_pages(pages), Set::empty()),
    decreases pages.len(),
{
    if pages.len() == 0 {
    } else {
        law_fetch_is_one_aggregation(now, pages.drop_last());
        lemma_aggregate_concat(
            entries_of_pages(pages.drop_last()),
            entries(pages.last()),
            Set::empty(),
            now,
        );
    }
}

/// The number of pages that a fetch takes in where the catalog service
/// would answer with `pages` one after the other: it stops with the first
/// page that is the last page, or when the service has no more.
pub open spec fn pages_taken(fetch: FetchView, pages: Seq<Seq<LineupView>>) -> nat
    decreases pages.len(),
{
    if pages.len() == 0 {
        0
    } else if is_last_page(fetch, pages[0]) {
        1
    } else {
        1 + pages_taken(after_page(fetch, pages[0]), pages.skip(1))
    }
}

/// A fetch stops at the ceiling: whatever the catalog service answers, a
/// fetch that is due to ask for page `p` takes in `MAX_PAGES - p + 1`
/// pages at most, so a fetch from its first page on takes in `MAX_PAGES`
/// at most. Where the service answers with full pages only, and with
/// enough of them, it takes in exactly that many.
pub proof fn law_fetch_stops_at_ceiling(fetch: FetchView, pages: Seq<Seq<LineupView>>)
    requires
        1 <= fetch.page_number <= MAX_PAGES,
    ensures
        pages_taken(fetch, pages) <= MAX_PAGES - fetch.page_number + 1,
        (forall|i: int| 0 <= i < pages.len() ==> (#[trigger] pages[i]).len() >= PAGE_SIZE)
            && pages.len() >= MAX_PAGES - fetch.page_number + 1 ==> pages_taken(fetch, pages)
            == MAX_PAGES - fetch.page_number + 1,
    decreases pages.len(),
{
    if pages.len() > 0 && !is_last_page(fetch, pages[0]) {
        let rest = pages.skip(1);
        law_fetch_stops_at_ceiling(after_page(fetch, pages[0]), rest);
        assert forall|i: int| 0 <= i < rest.len() implies #[trigger] rest[i] == pages[i + 1] by {}
        if forall|i: int| 0 <= i < pages.len() ==> (#[trigger] pages[i]).len() >= PAGE_SIZE {
            assert forall|i: int| 0 <= i < rest.len() implies (#[trigger] rest[i]).len()
                >= PAGE_SIZE by {
                assert(rest[i] == pages[i + 1]);
            }
        }
    }
}

} // verus!
