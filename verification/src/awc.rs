//! The station resolver: two lookup tables derived from one snapshot of the
//! station directory, and the queries that normalise identifiers against them.

use flate2::read::GzDecoder;
use std::io::Read;
use vstd::hash_map::StringHashMap;
use vstd::prelude::*;
use vstd::string::*;

use crate::error::Error;
use crate::metar::MetarDto;
use crate::station::Station;
use crate::text::{contains_char, join, joined, starts_with_char, texts, uppercase};

verus! {

/// Primary code, upper-cased, to record. Where two records share a code the
/// later one of the snapshot stands.
pub open spec fn primary_table(records: Seq<Station>) -> Map<Seq<char>, Station>
    decreases records.len(),
{
    if records.len() == 0 {
        Map::empty()
    } else {
        primary_table(records.drop_last()).insert(
            uppercase(records.last().icao_id@),
            records.last(),
        )
    }
}

/// Alternate code, upper-cased, to upper-cased primary code. Where two
/// records share an alternate code the later one of the snapshot stands.
pub open spec fn alternate_table(records: Seq<Station>) -> Map<Seq<char>, Seq<char>>
    decreases records.len(),
{
    if records.len() == 0 {
        Map::empty()
    } else {
        alternate_table(records.drop_last()).insert(
            uppercase(records.last().faa_id@),
            uppercase(records.last().icao_id@),
        )
    }
}

/// What a lookup of the case-normalised identifier `key` yields in a pair of tables.
pub open spec fn resolve_in(
    by_primary: Map<Seq<char>, Station>,
    alt_to_primary: Map<Seq<char>, Seq<char>>,
    key: Seq<char>,
) -> Result<Station, Error> {
    if by_primary.contains_key(key) {
        Ok(by_primary[key])
    } else if alt_to_primary.contains_key(key) {
        if by_primary.contains_key(alt_to_primary[key]) {
            Ok(by_primary[alt_to_primary[key]])
        } else {
            Err(Error::InconsistentState)
        }
    } else {
        Err(Error::NotFound)
    }
}

/// What resolving the raw identifier `raw` yields for a resolver that holds
/// `snapshot`, or none.
pub open spec fn resolve(snapshot: Option<Seq<Station>>, raw: Seq<char>) -> Result<Station, Error> {
    match snapshot {
        None => Err(Error::NotInitialized),
        Some(records) => resolve_in(
            primary_table(records),
            alternate_table(records),
            uppercase(raw),
        ),
    }
}

/// A region-group token: the sigil `@` and two more characters.
pub open spec fn is_region_token(id: Seq<char>) -> bool {
    id.len() == 3 && id[0] == '@'
}

/// The query key that stands for the raw identifier `raw`.
pub open spec fn normalize(snapshot: Option<Seq<Station>>, raw: Seq<char>) -> Seq<char> {
    match snapshot {
        None => uppercase(raw),
        Some(records) => if is_region_token(raw) || primary_table(records).contains_key(raw) {
            uppercase(raw)
        } else if alternate_table(records).contains_key(raw) {
            alternate_table(records)[raw]
        } else {
            uppercase(raw)
        },
    }
}

/// Every key of the primary table is the upper-cased primary code of the
/// record it leads to, and that record is one of the snapshot.
pub proof fn lemma_primary_table_entries(records: Seq<Station>, key: Seq<char>)
    requires
        primary_table(records).contains_key(key),
    ensures
        uppercase(primary_table(records)[key].icao_id@) == key,
        records.contains(primary_table(records)[key]),
    decreases records.len(),
{
    if records.len() > 0 {
        let last = records.last();
        if uppercase(last.icao_id@) == key {
            assert(records[records.len() - 1] == last);
        } else {
            lemma_primary_table_entries(records.drop_last(), key);
            let rest = records.drop_last();
            let found = primary_table(rest)[key];
            let i = choose|i: int| 0 <= i < rest.len() && rest[i] == found;
            assert(records[i] == found);
        }
    }
}

/// Whether no later record of the snapshot shares the primary code of record `i`.
pub open spec fn last_of_primary_code(records: Seq<Station>, i: int) -> bool {
    forall|j: int|
        i < j < records.len() ==> uppercase((#[trigger] records[j]).icao_id@) != uppercase(
            records[i].icao_id@,
        )
}

/// Whether no later record of the snapshot shares the alternate code of record `i`.
pub open spec fn last_of_alternate_code(records: Seq<Station>, i: int) -> bool {
    forall|j: int|
        i < j < records.len() ==> uppercase((#[trigger] records[j]).faa_id@) != uppercase(
            records[i].faa_id@,
        )
}

/// The primary table leads from a primary code to the last record that bears it.
pub proof fn lemma_primary_table_holds_last(records: Seq<Station>, i: int)
    requires
        0 <= i < records.len(),
        last_of_primary_code(records, i),
    ensures
        primary_table(records).contains_key(uppercase(records[i].icao_id@)),
        primary_table(records)[uppercase(records[i].icao_id@)] == records[i],
    decreases records.len(),
{
    if i < records.len() - 1 {
        let rest = records.drop_last();
        assert(records[records.len() - 1] == records.last());
        assert forall|j: int| i < j < rest.len() implies uppercase(
            (#[trigger] rest[j]).icao_id@,
        ) != uppercase(rest[i].icao_id@) by {
            assert(rest[j] == records[j]);
        }
        lemma_primary_table_holds_last(rest, i);
    }
}

/// The alternate table leads from an alternate code to the primary code of
/// the last record that bears it.
pub proof fn lemma_alternate_table_holds_last(records: Seq<Station>, i: int)
    requires
        0 <= i < records.len(),
        last_of_alternate_code(records, i),
    ensures
        alternate_table(records).contains_key(uppercase(records[i].faa_id@)),
        alternate_table(records)[uppercase(records[i].faa_id@)] == uppercase(records[i].icao_id@),
    decreases records.len(),
{
    if i < records.len() - 1 {
        let rest = records.drop_last();
        assert(records[records.len() - 1] == records.last());
        assert forall|j: int| i < j < rest.len() implies uppercase(
            (#[trigger] rest[j]).faa_id@,
        ) != uppercase(rest[i].faa_id@) by {
            assert(rest[j] == records[j]);
        }
        lemma_alternate_table_holds_last(rest, i);
    }
}

/// A record resolves by its primary code, in any case that upper-cases to
/// the same text, unless a later record shares the code.
pub proof fn lemma_resolves_by_primary_code(records: Seq<Station>, i: int, raw: Seq<char>)
    requires
        0 <= i < records.len(),
        last_of_primary_code(records, i),
        uppercase(raw) == uppercase(records[i].icao_id@),
    ensures
        resolve(Some(records), raw) == Ok::<Station, Error>(records[i]),
{
    lemma_primary_table_holds_last(records, i);
}

/// A record resolves by its alternate code, in any case that upper-cases to
/// the same text, unless the code is also a primary code or a later record
/// shares one of the two codes.
pub proof fn lemma_resolves_by_alternate_code(records: Seq<Station>, i: int, raw: Seq<char>)
    requires
        0 <= i < records.len(),
        last_of_primary_code(records, i),
        last_of_alternate_code(records, i),
        uppercase(raw) == uppercase(records[i].faa_id@),
        !primary_table(records).contains_key(uppercase(raw)),
    ensures
        resolve(Some(records), raw) == Ok::<Station, Error>(records[i]),
{
    lemma_primary_table_holds_last(records, i);
    lemma_alternate_table_holds_last(records, i);
}

/// The two tables of one snapshot agree: every alternate code leads to a
/// primary code that the primary table holds.
pub proof fn lemma_tables_consistent(records: Seq<Station>, key: Seq<char>)
    requires
        alternate_table(records).contains_key(key),
    ensures
        primary_table(records).contains_key(alternate_table(records)[key]),
    decreases records.len(),
{
    if records.len() > 0 {
        if uppercase(records.last().faa_id@) != key {
            lemma_tables_consistent(records.drop_last(), key);
        }
    }
}

/// Resolving against the tables of one snapshot never reports an inconsistency.
pub proof fn lemma_resolve_never_inconsistent(records: Seq<Station>, raw: Seq<char>)
    ensures
        resolve(Some(records), raw) != Err::<Station, Error>(Error::InconsistentState),
{
    let key = uppercase(raw);
    if !primary_table(records).contains_key(key) && alternate_table(records).contains_key(key) {
        lemma_tables_consistent(records, key);
    }
}

/// Resolving the same identifier twice against one snapshot yields the same
/// record, or the same failure.
pub proof fn lemma_resolve_repeatable(
    snapshot: Option<Seq<Station>>,
    raw: Seq<char>,
    first: Result<Station, Error>,
    second: Result<Station, Error>,
)
    requires
        first == resolve(snapshot, raw),
        second == resolve(snapshot, raw),
    ensures
        first == second,
{
}

/// A region-group token is passed on upper-cased whatever the tables hold.
pub proof fn lemma_region_token_passes(snapshot: Option<Seq<Station>>, raw: Seq<char>)
    requires
        is_region_token(raw),
    ensures
        normalize(snapshot, raw) == uppercase(raw),
{
}

/// Resolving is idempotent: the primary code of a resolved record resolves to
/// that same record.
pub proof fn lemma_resolve_idempotent(records: Seq<Station>, raw: Seq<char>)
    ensures
        resolve(Some(records), raw) matches Ok(station) ==> resolve(
            Some(records),
            station.icao_id@,
        ) == Ok::<Station, Error>(station),
{
    let key = uppercase(raw);
    let by_primary = primary_table(records);
    let alt_to_primary = alternate_table(records);
    if by_primary.contains_key(key) {
        lemma_primary_table_entries(records, key);
    } else if alt_to_primary.contains_key(key) {
        lemma_tables_consistent(records, key);
        lemma_primary_table_entries(records, alt_to_primary[key]);
    }
}

/// The two lookup tables, always derived from one snapshot.
pub struct ResolutionTables {
    by_primary: StringHashMap<Station>,
    alt_to_primary: StringHashMap<String>,
    snapshot: Ghost<Seq<Station>>,
}

impl ResolutionTables {
    #[verifier::type_invariant]
    spec fn well_formed(&self) -> bool {
        &&& self.by_primary@ =~= primary_table(self.snapshot@)
        &&& self.alt_to_primary@.dom() =~= alternate_table(self.snapshot@).dom()
        &&& forall|key: Seq<char>| #[trigger]
            self.alt_to_primary@.contains_key(key) ==> self.alt_to_primary@[key]@
                == alternate_table(self.snapshot@)[key]
    }

    /// The snapshot of the directory that both tables were derived from.
    pub closed spec fn snapshot(&self) -> Seq<Station> {
        self.snapshot@
    }

    /// Derives both tables from one snapshot of the directory.
    pub fn build(stations: Vec<Station>) -> (tables: Self)
        ensures
            tables.snapshot() == stations@,
    {
        let mut by_primary: StringHashMap<Station> = StringHashMap::new();
        let mut alt_to_primary: StringHashMap<String> = StringHashMap::new();
        let n: usize = stations.len();
        let mut i: usize = 0;
        while i < n
            invariant
                n == stations.len(),
                i <= n,
                by_primary@ =~= primary_table(stations@.take(i as int)),
                alt_to_primary@.dom() =~= alternate_table(stations@.take(i as int)).dom(),
                forall|key: Seq<char>| #[trigger]
                    alt_to_primary@.contains_key(key) ==> alt_to_primary@[key]@ == alternate_table(
                        stations@.take(i as int),
                    )[key],
            decreases n - i,
        {
            let station = stations[i].clone();
            let primary = station.icao_id.to_uppercase();
            let alternate = station.faa_id.to_uppercase();
            proof {
                let next = stations@.take(i + 1);
                assert(next.drop_last() =~= stations@.take(i as int));
                assert(next.last() == stations@[i as int]);
            }
            alt_to_primary.insert(alternate, primary.clone());
            by_primary.insert(primary, station);
            i += 1;
        }
        proof {
            assert(stations@.take(n as int) =~= stations@);
        }
        ResolutionTables { by_primary, alt_to_primary, snapshot: Ghost(stations@) }
    }

    /// Looks the case-normalised identifier `key` up: first among the primary
    /// codes, then among the alternate codes.
    pub fn resolve_key(&self, key: &str) -> (found: Result<Station, Error>)
        ensures
            found == resolve_in(
                primary_table(self.snapshot()),
                alternate_table(self.snapshot()),
                key@,
            ),
    {
        proof {
            use_type_invariant(self);
        }
        if let Some(station) = self.by_primary.get(key) {
            Ok(station.clone())
        } else if let Some(primary) = self.alt_to_primary.get(key) {
            match self.by_primary.get(primary.as_str()) {
                Some(station) => Ok(station.clone()),
                None => Err(Error::InconsistentState),
            }
        } else {
            Err(Error::NotFound)
        }
    }

    /// The query key for the raw identifier `id`.
    pub fn query_key(&self, id: &str) -> (key: String)
        ensures
            key@ == normalize(Some(self.snapshot()), id@),
    {
        proof {
            use_type_invariant(self);
        }
        let id_is_state = id.unicode_len() == 3 && id.get_char(0) == '@';
        let id_is_valid_icao = self.by_primary.contains_key(id);
        if id_is_state || id_is_valid_icao {
            id.to_uppercase()
        } else {
            match self.alt_to_primary.get(id) {
                Some(primary) => primary.clone(),
                None => id.to_uppercase(),
            }
        }
    }
}

/// The resolver: empty until a station directory has been loaded.
pub struct AviationWeatherCenterApi {
    tables: Option<ResolutionTables>,
}

impl AviationWeatherCenterApi {
    /// The snapshot that the resolver answers from, if one has been loaded.
    pub closed spec fn snapshot(&self) -> Option<Seq<Station>> {
        match self.tables {
            None => None,
            Some(tables) => Some(tables.snapshot()),
        }
    }

    /// A resolver that holds no directory yet.
    pub fn new() -> (api: Self)
        ensures
            api.snapshot() is None,
    {
        AviationWeatherCenterApi { tables: None }
    }

    /// A resolver for the outcome of a first load of the directory.
    pub fn try_new(loaded: Result<Vec<Station>, Error>) -> (made: Result<Self, Error>)
        ensures
            match loaded {
                Ok(stations) => made matches Ok(api) && api.snapshot() == Some(stations@),
                Err(e) => made matches Err(f) && f == e,
            },
    {
        let mut api = Self::new();
        match api.update_stations(loaded) {
            Ok(()) => Ok(api),
            Err(e) => Err(e),
        }
    }

    /// Takes in the outcome of a load of the directory. A loaded directory
    /// replaces both tables at once; a failed load leaves them as they were
    /// and is handed back.
    pub fn update_stations(&mut self, loaded: Result<Vec<Station>, Error>) -> (done: Result<
        (),
        Error,
    >)
        ensures
            match loaded {
                Ok(stations) => done is Ok && final(self).snapshot() == Some(stations@),
                Err(e) => done == Err::<(), Error>(e) && final(self).snapshot() == old(
                    self,
                ).snapshot(),
            },
    {
        match loaded {
            Ok(stations) => {
                self.tables = Some(ResolutionTables::build(stations));
                Ok(())
            },
            Err(e) => Err(e),
        }
    }

    /// Resolves a raw identifier to its station: by primary code, else by
    /// alternate code.
    pub fn lookup_station(&self, lookup_id: &str) -> (found: Result<Station, Error>)
        ensures
            found == resolve(self.snapshot(), lookup_id@),
            found != Err::<Station, Error>(Error::InconsistentState),
    {
        match &self.tables {
            None => Err(Error::NotInitialized),
            Some(tables) => {
                let key = lookup_id.to_uppercase();
                proof {
                    lemma_resolve_never_inconsistent(tables.snapshot(), lookup_id@);
                }
                tables.resolve_key(key.as_str())
            },
        }
    }

    /// Turns a raw identifier into the key to query upstream with. Existence
    /// is not checked: an identifier that no table knows is passed on upper-cased.
    pub fn sanitize_id(&self, id: &str) -> (key: String)
        ensures
            key@ == normalize(self.snapshot(), id@),
    {
        match &self.tables {
            None => id.to_uppercase(),
            Some(tables) => tables.query_key(id),
        }
    }
}

/// The address of the upstream service.
pub const BASE_URL: &'static str = "https://aviationweather.gov/";

/// The address that answers with the reports of the stations in `ids`, a
/// comma-joined list of query keys.
pub open spec fn metars_url(ids: Seq<char>) -> Seq<char> {
    BASE_URL@ + "/api/data/metar/?ids="@ + ids + "&format=json"@
}

/// The address of the compressed station directory.
pub open spec fn stations_url() -> Seq<char> {
    BASE_URL@ + "/data/cache/stations.cache.json.gz"@
}

/// Whether `id` has the shape of a request for one station: no leading
/// sigil, at most four characters, no separator.
pub open spec fn is_single_station_id(id: Seq<char>) -> bool {
    &&& !(id.len() > 0 && id[0] == '@')
    &&& id.len() <= 4
    &&& !id.contains(',')
}

/// The query keys of `ids`, each normalised on its own.
pub open spec fn normalize_all(snapshot: Option<Seq<Station>>, ids: Seq<&str>) -> Seq<Seq<char>> {
    Seq::new(ids.len(), |i: int| normalize(snapshot, ids[i]@))
}

/// `std::io::Error`, the failure of a read; opaque here.
#[verifier::external_type_specification]
#[verifier::external_body]
pub struct ExIoError(std::io::Error);

/// The text that the gzip decoder reads out of a payload, or none where it
/// fails on the payload.
pub uninterp spec fn gunzip(payload: Seq<u8>) -> Option<Seq<char>>;

/// `flate2::read::GzDecoder::new` on the bytes, read to its end with
/// `read_to_string`. Whether that succeeds and what it reads depend on the
/// bytes alone; the contract names both [`gunzip`] and claims nothing else.
#[verifier::external_body]
fn gz_read_to_string(payload: &[u8]) -> (read: Result<String, std::io::Error>)
    ensures
        read matches Ok(text) ==> gunzip(payload@) == Some(text@),
        read is Err ==> gunzip(payload@) is None,
{
    let mut text = String::new();
    match GzDecoder::new(payload).read_to_string(&mut text) {
        Ok(_) => Ok(text),
        Err(e) => Err(e),
    }
}

/// Checks that `station_id` asks for one station.
pub fn check_station_id(station_id: &str) -> (checked: Result<(), Error>)
    ensures
        is_single_station_id(station_id@) ==> checked is Ok,
        !is_single_station_id(station_id@) ==> checked == Err::<(), Error>(Error::InvalidInput),
{
    if starts_with_char(station_id, '@') || station_id.unicode_len() > 4 || contains_char(
        station_id,
        ',',
    ) {
        Err(Error::InvalidInput)
    } else {
        Ok(())
    }
}

/// The text of the station directory out of the compressed payload that
/// upstream sent. The payload is always taken as gzip.
pub fn decode_stations(payload: &[u8]) -> (decoded: Result<String, Error>)
    ensures
        match gunzip(payload@) {
            Some(text) => decoded matches Ok(got) && got@ == text,
            None => decoded == Err::<String, Error>(Error::UpstreamMalformed),
        },
{
    match gz_read_to_string(payload) {
        Ok(text) => Ok(text),
        Err(_) => Err(Error::UpstreamMalformed),
    }
}

/// The report that answers a request for one station: the first of those
/// that upstream sent.
pub fn metar_from_reports(reports: Vec<MetarDto>) -> (picked: Result<MetarDto, Error>)
    ensures
        match picked {
            Ok(report) => reports@.len() > 0 && report == reports@[0],
            Err(e) => reports@.len() == 0 && e == Error::NotFound,
        },
{
    let mut reports = reports;
    if reports.len() == 0 {
        Err(Error::NotFound)
    } else {
        Ok(reports.remove(0))
    }
}

impl AviationWeatherCenterApi {
    /// The address that answers with the reports of `airports_string`, a
    /// comma-joined list of query keys.
    pub fn metars_json_url(airports_string: &str) -> (url: String)
        ensures
            url@ == metars_url(airports_string@),
    {
        let mut url = String::from_str(BASE_URL);
        url.append("/api/data/metar/?ids=");
        url.append(airports_string);
        url.append("&format=json");
        url
    }

    /// The address of the compressed station directory.
    pub fn stations_json_url() -> (url: String)
        ensures
            url@ == stations_url(),
    {
        let mut url = String::from_str(BASE_URL);
        url.append("/data/cache/stations.cache.json.gz");
        url
    }

    /// The address to ask for the report of one station. An identifier that
    /// does not ask for one station is refused before anything is normalised.
    pub fn metar_request(&self, station_id: &str) -> (request: Result<String, Error>)
        ensures
            match request {
                Ok(url) => is_single_station_id(station_id@) && url@ == metars_url(
                    normalize(self.snapshot(), station_id@),
                ),
                Err(e) => !is_single_station_id(station_id@) && e == Error::InvalidInput,
            },
    {
        match check_station_id(station_id) {
            Ok(()) => {
                let id_sanitized = self.sanitize_id(station_id);
                Ok(Self::metars_json_url(id_sanitized.as_str()))
            },
            Err(e) => Err(e),
        }
    }

    /// The query keys of `station_ids`, each normalised on its own.
    pub fn sanitize_ids(&self, station_ids: &[&str]) -> (keys: Vec<String>)
        ensures
            texts(keys@) == normalize_all(self.snapshot(), station_ids@),
    {
        let mut keys: Vec<String> = Vec::new();
        let mut i: usize = 0;
        assert(texts(keys@) =~= normalize_all(self.snapshot(), station_ids@).take(0));
        while i < station_ids.len()
            invariant
                i <= station_ids@.len(),
                keys@.len() == i,
                texts(keys@) == normalize_all(self.snapshot(), station_ids@).take(i as int),
            decreases station_ids.len() - i,
        {
            let ghost before = keys@;
            let key = self.sanitize_id(station_ids[i]);
            keys.push(key);
            proof {
                let all = normalize_all(self.snapshot(), station_ids@);
                assert(all.len() == station_ids@.len());
                assert(texts(keys@).len() == i + 1);
                assert forall|j: int| 0 <= j < i + 1 implies texts(keys@)[j] == all.take(
                    i + 1,
                )[j] by {
                    if j < i {
                        assert(texts(before)[j] == all.take(i as int)[j]);
                        assert(keys@[j] == before[j]);
                    } else {
                        assert(keys@[j] == key);
                    }
                }
                assert(texts(keys@) =~= all.take(i + 1));
            }
            i += 1;
        }
        assert(texts(keys@) =~= normalize_all(self.snapshot(), station_ids@));
        keys
    }

    /// The address to ask for the reports of several stations at once: their
    /// query keys, joined by commas.
    pub fn metars_request(&self, station_ids: &[&str]) -> (url: String)
        ensures
            url@ == metars_url(joined(normalize_all(self.snapshot(), station_ids@), seq![','])),
    {
        let sanitized_ids = self.sanitize_ids(station_ids);
        proof {
            reveal_strlit(",");
            assert(","@ =~= seq![',']);
        }
        let ids = join(&sanitized_ids, ",");
        Self::metars_json_url(ids.as_str())
    }
}

} // verus!
