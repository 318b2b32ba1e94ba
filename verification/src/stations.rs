//! Looking stations up in a fetched station list. Each function takes the
//! outcome of fetching the list: `None` where the fetch failed.
use vstd::prelude::*;
use crate::record::StationRecord;
use crate::station_list::{Fields, records_view};

verus! {

/// Whether a station's `id` field is `id`.
pub open spec fn has_id(station: Fields, id: Seq<char>) -> bool {
    station.contains_key("id"@) && station["id"@] == id
}

/// The `id` fields of the stations that have one, in list order.
pub open spec fn station_ids(stations: Seq<Fields>) -> Seq<Seq<char>>
    decreases stations.len(),
{
    if stations.len() == 0 {
        Seq::empty()
    } else if stations[0].contains_key("id"@) {
        seq![stations[0]["id"@]] + station_ids(stations.drop_first())
    } else {
        station_ids(stations.drop_first())
    }
}

/// The first station whose `id` is `id`.
pub open spec fn first_station(stations: Seq<Fields>, id: Seq<char>) -> Option<Fields>
    decreases stations.len(),
{
    if stations.len() == 0 {
        None
    } else if has_id(stations[0], id) {
        Some(stations[0])
    } else {
        first_station(stations.drop_first(), id)
    }
}

/// The `area_id` of the first station whose `id` is `id` and that has an `area_id`.
pub open spec fn station_area(stations: Seq<Fields>, id: Seq<char>) -> Option<Seq<char>>
    decreases stations.len(),
{
    if stations.len() == 0 {
        None
    } else if has_id(stations[0], id) && stations[0].contains_key("area_id"@) {
        Some(stations[0]["area_id"@])
    } else {
        station_area(stations.drop_first(), id)
    }
}

pub open spec fn fetched_view(fetched: Option<Vec<StationRecord>>) -> Option<Seq<Fields>> {
    match fetched {
        Some(stations) => Some(records_view(stations@)),
        None => None,
    }
}

/// The ids of the fetched stations, or `None` where the fetch failed.
pub fn get_station_ids(fetched: &Option<Vec<StationRecord>>) -> (ids: Option<Vec<String>>)
    ensures
        match fetched_view(*fetched) {
            Some(stations) => ids matches Some(v) && v.deep_view() == station_ids(stations),
            None => ids is None,
        },
{
    match fetched {
        None => None,
        Some(stations) => {
            let ghost all = records_view(stations@);
            let mut ids: Vec<String> = Vec::new();
            let mut i: usize = 0;
            assert(all.skip(0) =~= all);
            while i < stations.len()
                invariant
                    i <= stations@.len(),
                    all == records_view(stations@),
                    ids.deep_view() + station_ids(all.skip(i as int)) == station_ids(all),
                decreases stations@.len() - i,
            {
                let ghost rest = all.skip(i as int);
                assert(rest[0] == stations@[i as int]@);
                assert(rest.drop_first() =~= all.skip(i + 1));
                let ghost before = ids.deep_view();
                if let Some(id) = stations[i].get("id") {
                    ids.push(id.clone());
                    assert(ids.deep_view() =~= before + seq![id@]);
                }
                i = i + 1;
            }
            assert(all.skip(i as int) =~= Seq::<Fields>::empty());
            assert(ids.deep_view() =~= station_ids(all));
            Some(ids)
        },
    }
}

/// Whether `station_id` is among the fetched stations' ids; `false` where the fetch failed.
pub fn is_available_station_id(fetched: &Option<Vec<StationRecord>>, station_id: &String) -> (available: bool)
    ensures
        available == match fetched_view(*fetched) {
            Some(stations) => station_ids(stations).contains(station_id@),
            None => false,
        },
{
    if let Some(ids) = get_station_ids(fetched) {
        let mut i: usize = 0;
        while i < ids.len()
            invariant
                i <= ids@.len(),
                fetched_view(*fetched) matches Some(st) && ids.deep_view() == station_ids(st),
                forall|j: int| 0 <= j < i ==> ids@[j]@ != station_id@,
            decreases ids@.len() - i,
        {
            if ids[i] == *station_id {
                assert(ids.deep_view()[i as int] == station_id@);
                return true;
            }
            i = i + 1;
        }
        assert(!ids.deep_view().contains(station_id@)) by {
            if ids.deep_view().contains(station_id@) {
                let k = choose|k: int| 0 <= k < ids.deep_view().len() && ids.deep_view()[k] == station_id@;
                assert(ids@[k]@ == station_id@);
            }
        }
        return false;
    }
    false
}

/// The first fetched station whose id is `station_id`; `None` where there
/// is none or the fetch failed.
pub fn _get_station(fetched: Option<Vec<StationRecord>>, station_id: &String) -> (station: Option<StationRecord>)
    ensures
        match station {
            Some(s) => fetched_view(fetched) matches Some(stations) && first_station(stations, station_id@) == Some(s@),
            None => fetched_view(fetched) matches Some(stations) ==> first_station(stations, station_id@) is None,
        },
{
    match fetched {
        None => None,
        Some(stations) => {
            let ghost all = records_view(stations@);
            let mut stations = stations;
            let mut i: usize = 0;
            assert(all.skip(0) =~= all);
            while i < stations.len()
                invariant
                    i <= stations@.len(),
                    all == records_view(stations@),
                    fetched_view(fetched) == Some(all),
                    first_station(all, station_id@) == first_station(all.skip(i as int), station_id@),
                decreases stations@.len() - i,
            {
                let ghost rest = all.skip(i as int);
                assert(rest[0] == stations@[i as int]@);
                assert(rest.drop_first() =~= all.skip(i + 1));
                let matches = match stations[i].get("id") {
                    Some(id) => *id == *station_id,
                    None => false,
                };
                if matches {
                    return Some(stations.remove(i));
                }
                i = i + 1;
            }
            None
        },
    }
}

/// The `area_id` of the first fetched station whose id is `station_id` and
/// that has one; `None` where there is none or the fetch failed.
pub fn get_area_id_4_station_id(fetched: &Option<Vec<StationRecord>>, station_id: &String) -> (area_id: Option<String>)
    ensures
        area_id.deep_view() == match fetched_view(*fetched) {
            Some(stations) => station_area(stations, station_id@),
            None => None,
        },
{
    match fetched {
        None => None,
        Some(stations) => {
            let ghost all = records_view(stations@);
            let mut i: usize = 0;
            assert(all.skip(0) =~= all);
            while i < stations.len()
                invariant
                    i <= stations@.len(),
                    all == records_view(stations@),
                    fetched_view(*fetched) == Some(all),
                    station_area(all, station_id@) == station_area(all.skip(i as int), station_id@),
                decreases stations@.len() - i,
            {
                let ghost rest = all.skip(i as int);
                assert(rest[0] == stations@[i as int]@);
                assert(rest.drop_first() =~= all.skip(i + 1));
                if let Some(id) = stations[i].get("id") {
                    if *id == *station_id {
                        if let Some(area_id) = stations[i].get("area_id") {
                                        return Some(area_id.clone());
                        }
                    }
                }
                i = i + 1;
            }
            None
        },
    }
}

/// A station is found by its id exactly when its id is listed.
pub proof fn lemma_found_iff_listed(stations: Seq<Fields>, id: Seq<char>)
    ensures
        first_station(stations, id) is Some <==> station_ids(stations).contains(id),
    decreases stations.len(),
{
    if stations.len() > 0 {
        lemma_found_iff_listed(stations.drop_first(), id);
        let rest = station_ids(stations.drop_first());
        if stations[0].contains_key("id"@) {
            let ids = seq![stations[0]["id"@]] + rest;
            assert(ids[0] == stations[0]["id"@]);
            if rest.contains(id) {
                let k = choose|k: int| 0 <= k < rest.len() && rest[k] == id;
                assert(ids[k + 1] == id);
            }
            if ids.contains(id) {
                let k = choose|k: int| 0 <= k < ids.len() && ids[k] == id;
                if k > 0 {
                    assert(rest[k - 1] == id);
                }
            }
        }
    }
}

/// The station found by an id has that id.
pub proof fn lemma_found_has_id(stations: Seq<Fields>, id: Seq<char>)
    ensures
        first_station(stations, id) matches Some(s) ==> has_id(s, id),
    decreases stations.len(),
{
    if stations.len() > 0 {
        lemma_found_has_id(stations.drop_first(), id);
    }
}

/// A station with an area is a station that is found by its id.
pub proof fn lemma_area_implies_found(stations: Seq<Fields>, id: Seq<char>)
    ensures
        station_area(stations, id) is Some ==> first_station(stations, id) is Some,
    decreases stations.len(),
{
    if stations.len() > 0 {
        lemma_area_implies_found(stations.drop_first(), id);
    }
}

} // verus!
