//! Reading the station list document: every `<station>` element becomes a
//! record of its child elements' texts.
use vstd::prelude::*;
use crate::record::{StationRecord, same_text};
use crate::xml::{SpecXmlAttr, SpecXmlEvent, XmlEvent, events_before_eof, has_text, joined, lemma_has_text_extend, no_eof, read_xml_events, wrapped, xml_events};

verus! {

/// A station's fields: tag name to text.
pub type Fields = Map<Seq<char>, Seq<char>>;

/// Where the reading of a station list stands.
pub struct StationScan {
    /// The stations closed so far, in document order.
    pub stations: Seq<Fields>,
    /// The fields of the station being read, if one is open.
    pub current: Option<Fields>,
    /// The name of the last opened tag, until a tag closes.
    pub tag: Option<Seq<char>>,
}

pub open spec fn station_scan_start() -> StationScan {
    StationScan { stations: Seq::empty(), current: None, tag: None }
}

/// One event of the station list; `None` where the reading cannot go on
/// (a tag name that is not UTF-8, or text that cannot be decoded while a
/// station's field is open).
pub open spec fn station_scan_step(scan: StationScan, event: SpecXmlEvent) -> Option<StationScan> {
    match event {
        SpecXmlEvent::Start { name, attrs } => match name {
            None => None,
            Some(n) => Some(StationScan {
                stations: scan.stations,
                current: if n == "station"@ { Some(Map::empty()) } else { scan.current },
                tag: Some(n),
            }),
        },
        SpecXmlEvent::End { name } => {
            let closes_station = name == Some("station"@);
            Some(StationScan {
                stations: if closes_station && scan.current is Some {
                    scan.stations.push(scan.current.unwrap())
                } else {
                    scan.stations
                },
                current: if closes_station { None } else { scan.current },
                tag: None,
            })
        },
        SpecXmlEvent::Text { text } => if scan.tag is Some && scan.current is Some {
            match text {
                None => None,
                Some(t) => Some(StationScan {
                    stations: scan.stations,
                    current: Some(scan.current.unwrap().insert(scan.tag.unwrap(), t)),
                    tag: scan.tag,
                }),
            }
        } else {
            Some(scan)
        },
        _ => Some(scan),
    }
}

/// The events read in turn, up to the first end of document.
pub open spec fn station_scan(scan: StationScan, events: Seq<SpecXmlEvent>) -> Option<StationScan>
    decreases events.len(),
{
    if events.len() == 0 || events[0] is Eof {
        Some(scan)
    } else {
        match station_scan_step(scan, events[0]) {
            None => None,
            Some(next) => station_scan(next, events.drop_first()),
        }
    }
}

/// The stations that a station list's events describe, or `None` where
/// the reading cannot go on.
pub open spec fn stations_of(events: Seq<SpecXmlEvent>) -> Option<Seq<Fields>> {
    match station_scan(station_scan_start(), events) {
        Some(scan) => Some(scan.stations),
        None => None,
    }
}

pub open spec fn records_view(records: Seq<StationRecord>) -> Seq<Fields> {
    records.map_values(|r: StationRecord| r@)
}

pub open spec fn events_view(events: Seq<XmlEvent>) -> Seq<SpecXmlEvent> {
    events.map_values(|e: XmlEvent| e@)
}

/// Cutting the events at the first end of document does not change the reading.
pub proof fn lemma_station_scan_before_eof(scan: StationScan, events: Seq<SpecXmlEvent>)
    ensures
        station_scan(scan, events_before_eof(events)) == station_scan(scan, events),
    decreases events.len(),
{
    if events.len() == 0 || events[0] is Eof {
    } else {
        let rest = events_before_eof(events.drop_first());
        assert((seq![events[0]] + rest).drop_first() =~= rest);
        match station_scan_step(scan, events[0]) {
            None => {},
            Some(next) => lemma_station_scan_before_eof(next, events.drop_first()),
        }
    }
}

/// Whether every field value that the reading holds is text of `seen`.
pub open spec fn values_seen(scan: StationScan, seen: Seq<SpecXmlEvent>) -> bool {
    &&& forall|j: int, key: Seq<char>| 0 <= j < scan.stations.len() && #[trigger] scan.stations[j].contains_key(key)
        ==> has_text(seen, scan.stations[j][key])
    &&& scan.current matches Some(fields) ==> forall|key: Seq<char>| #[trigger] fields.contains_key(key)
        ==> has_text(seen, fields[key])
}

proof fn lemma_values_seen_extend(scan: StationScan, seen: Seq<SpecXmlEvent>, more: Seq<SpecXmlEvent>)
    requires
        values_seen(scan, seen),
    ensures
        values_seen(scan, seen + more),
{
    assert forall|j: int, key: Seq<char>| 0 <= j < scan.stations.len() && #[trigger] scan.stations[j].contains_key(key)
        implies has_text(seen + more, scan.stations[j][key]) by {
        lemma_has_text_extend(seen, more, scan.stations[j][key]);
    }
    if let Some(fields) = scan.current {
        assert forall|key: Seq<char>| #[trigger] fields.contains_key(key) implies has_text(seen + more, fields[key]) by {
            lemma_has_text_extend(seen, more, fields[key]);
        }
    }
}

proof fn lemma_station_scan_texts(scan: StationScan, seen: Seq<SpecXmlEvent>, events: Seq<SpecXmlEvent>)
    requires
        values_seen(scan, seen),
    ensures
        station_scan(scan, events) matches Some(done) ==> values_seen(done, seen + events),
    decreases events.len(),
{
    if events.len() == 0 || events[0] is Eof {
        lemma_values_seen_extend(scan, seen, events);
    } else {
        match station_scan_step(scan, events[0]) {
            None => {},
            Some(next) => {
                let seen2 = seen.push(events[0]);
                lemma_values_seen_extend(scan, seen, seq![events[0]]);
                assert(seen + seq![events[0]] =~= seen2);
                assert(seen2[seen.len() as int] == events[0]);
                assert(values_seen(next, seen2)) by {
                    if let SpecXmlEvent::End { name } = events[0] {
                        if name == Some("station"@) && scan.current is Some {
                            assert forall|j: int, key: Seq<char>| 0 <= j < next.stations.len()
                                && #[trigger] next.stations[j].contains_key(key) implies has_text(seen2, next.stations[j][key]) by {
                                if j == scan.stations.len() {
                                    assert(next.stations[j] == scan.current.unwrap());
                                } else {
                                    assert(next.stations[j] == scan.stations[j]);
                                }
                            }
                        }
                    }
                }
                lemma_station_scan_texts(next, seen2, events.drop_first());
                assert(seen2 + events.drop_first() =~= seen + events);
            },
        }
    }
}

/// Every field value of every station read from a station list is text of the document.
pub proof fn lemma_station_values_are_document_texts(events: Seq<SpecXmlEvent>)
    ensures
        stations_of(events) matches Some(stations) ==> forall|j: int, key: Seq<char>|
            0 <= j < stations.len() && #[trigger] stations[j].contains_key(key) ==> has_text(events, stations[j][key]),
{
    lemma_station_scan_texts(station_scan_start(), Seq::empty(), events);
    assert(Seq::<SpecXmlEvent>::empty() + events =~= events);
}

/// Reading events in two parts: the second part goes on from where the first ended.
proof fn lemma_station_scan_split(scan: StationScan, first: Seq<SpecXmlEvent>, second: Seq<SpecXmlEvent>)
    requires
        no_eof(first),
    ensures
        station_scan(scan, first + second) == match station_scan(scan, first) {
            Some(mid) => station_scan(mid, second),
            None => None,
        },
    decreases first.len(),
{
    if first.len() > 0 {
        assert(!(first[0] is Eof));
        assert((first + second)[0] == first[0]);
        assert((first + second).drop_first() =~= first.drop_first() + second);
        match station_scan_step(scan, first[0]) {
            None => {},
            Some(next) => {
                assert forall|i: int| 0 <= i < first.drop_first().len() implies !(#[trigger] first.drop_first()[i] is Eof) by {
                    assert(first.drop_first()[i] == first[i + 1]);
                }
                lemma_station_scan_split(next, first.drop_first(), second);
            },
        }
    } else {
        assert(first + second =~= second);
    }
}

/// Two readings that differ only in the stations already closed, `done`
/// more in the first, and in a tag that no text can reach.
pub open spec fn scans_alike(a: StationScan, b: StationScan, done: Seq<Fields>) -> bool {
    &&& a.stations == done + b.stations
    &&& a.current == b.current
    &&& a.current is Some ==> a.tag == b.tag
}

proof fn lemma_scans_alike(a: StationScan, b: StationScan, done: Seq<Fields>, events: Seq<SpecXmlEvent>)
    requires
        scans_alike(a, b, done),
    ensures
        station_scan(a, events) is Some == station_scan(b, events) is Some,
        station_scan(a, events) is Some ==> scans_alike(station_scan(a, events).unwrap(), station_scan(b, events).unwrap(), done),
    decreases events.len(),
{
    if events.len() > 0 && !(events[0] is Eof) {
        let na = station_scan_step(a, events[0]);
        let nb = station_scan_step(b, events[0]);
        assert(na is Some == nb is Some);
        if na is Some {
            if let SpecXmlEvent::End { name } = events[0] {
                if name == Some("station"@) && a.current is Some {
                    assert(done + b.stations.push(b.current.unwrap()) =~= (done + b.stations).push(a.current.unwrap()));
                }
            }
            assert(scans_alike(na.unwrap(), nb.unwrap(), done));
            lemma_scans_alike(na.unwrap(), nb.unwrap(), done, events.drop_first());
        }
    }
}

/// Two runs of elements under one root read as the two read apart, one
/// after the other: for a root `name` other than `station`, where `first`
/// does not end inside a `<station>` element and neither part holds an end
/// of document, the stations of `<name>first second</name>` are those of
/// `<name>first</name>` followed by those of `<name>second</name>`, and the
/// reading goes through only where both do.
pub proof fn lemma_stations_join(name: Seq<char>, attrs: Seq<SpecXmlAttr>, first: Seq<SpecXmlEvent>, second: Seq<SpecXmlEvent>)
    requires
        name != "station"@,
        no_eof(first),
        no_eof(second),
        station_scan(station_scan_start(), seq![SpecXmlEvent::Start { name: Some(name), attrs }] + first) matches Some(mid)
            ==> mid.current is None,
    ensures
        stations_of(wrapped(name, attrs, first + second))
            == joined(stations_of(wrapped(name, attrs, first)), stations_of(wrapped(name, attrs, second))),
{
    let open = seq![SpecXmlEvent::Start { name: Some(name), attrs }];
    let close = seq![SpecXmlEvent::End { name: Some(name) }];
    let start = station_scan_start();
    let opened = StationScan { stations: Seq::empty(), current: None, tag: Some(name) };
    assert(no_eof(open));
    assert(no_eof(open + first)) by {
        assert forall|i: int| 0 <= i < (open + first).len() implies !(#[trigger] (open + first)[i] is Eof) by {
            if i > 0 {
                assert((open + first)[i] == first[i - 1]);
            }
        }
    }
    assert(wrapped(name, attrs, first + second) =~= (open + first) + (second + close));
    assert(wrapped(name, attrs, first) =~= (open + first) + close);
    assert(wrapped(name, attrs, second) =~= open + (second + close));
    lemma_station_scan_split(start, open + first, second + close);
    lemma_station_scan_split(start, open + first, close);
    lemma_station_scan_split(start, open, second + close);
    assert(station_scan(start, open) == Some(opened)) by {
        reveal_with_fuel(station_scan, 2);
        assert(open.drop_first() =~= Seq::<SpecXmlEvent>::empty());
    }
    match station_scan(start, open + first) {
        None => {},
        Some(mid) => {
            assert(station_scan(mid, close) == Some(StationScan { tag: None, ..mid })) by {
                reveal_with_fuel(station_scan, 2);
                assert(close.drop_first() =~= Seq::<SpecXmlEvent>::empty());
            }
            assert(scans_alike(mid, opened, mid.stations)) by {
                assert(mid.stations =~= mid.stations + Seq::<Fields>::empty());
            }
            lemma_scans_alike(mid, opened, mid.stations, second + close);
        },
    }
}

/// [`lemma_stations_join`] for documents: where the documents `joint`,
/// `left` and `right` read as `<name>first second</name>`,
/// `<name>first</name>` and `<name>second</name>`, what [`to_stations_map`]
/// and [`try_to_stations_map`] read from `joint` is what they read from
/// `left` followed by what they read from `right`.
pub proof fn lemma_station_documents_join(joint: Seq<char>, left: Seq<char>, right: Seq<char>, name: Seq<char>, attrs: Seq<SpecXmlAttr>, first: Seq<SpecXmlEvent>, second: Seq<SpecXmlEvent>)
    requires
        xml_events(joint) == wrapped(name, attrs, first + second),
        xml_events(left) == wrapped(name, attrs, first),
        xml_events(right) == wrapped(name, attrs, second),
        name != "station"@,
        no_eof(first),
        no_eof(second),
        station_scan(station_scan_start(), seq![SpecXmlEvent::Start { name: Some(name), attrs }] + first) matches Some(mid)
            ==> mid.current is None,
    ensures
        stations_of(xml_events(joint)) == joined(stations_of(xml_events(left)), stations_of(xml_events(right))),
{
    lemma_stations_join(name, attrs, first, second);
}

/// The events of child elements `<tag>text</tag>`, one after another.
pub open spec fn child_events(children: Seq<(Seq<char>, Seq<char>)>) -> Seq<SpecXmlEvent>
    decreases children.len(),
{
    if children.len() == 0 {
        Seq::empty()
    } else {
        seq![
            SpecXmlEvent::Start { name: Some(children[0].0), attrs: Seq::empty() },
            SpecXmlEvent::Text { text: Some(children[0].1) },
            SpecXmlEvent::End { name: Some(children[0].0) },
        ] + child_events(children.drop_first())
    }
}

/// Whether child `k` is the last of the children with its tag.
pub open spec fn is_last_of_tag(children: Seq<(Seq<char>, Seq<char>)>, k: int) -> bool {
    forall|j: int| k < j < children.len() ==> #[trigger] children[j].0 != children[k].0
}

/// The fields after reading the children into `fields`, one by one.
spec fn fields_after(fields: Fields, children: Seq<(Seq<char>, Seq<char>)>) -> Fields
    decreases children.len(),
{
    if children.len() == 0 {
        fields
    } else {
        fields_after(fields.insert(children[0].0, children[0].1), children.drop_first())
    }
}

proof fn lemma_fields_untouched(fields: Fields, children: Seq<(Seq<char>, Seq<char>)>, t: Seq<char>)
    requires
        forall|k: int| 0 <= k < children.len() ==> #[trigger] children[k].0 != t,
    ensures
        fields_after(fields, children).contains_key(t) == fields.contains_key(t),
        fields_after(fields, children)[t] == fields[t],
    decreases children.len(),
{
    if children.len() > 0 {
        assert(children[0].0 != t);
        let rest = children.drop_first();
        assert forall|k: int| 0 <= k < rest.len() implies #[trigger] rest[k].0 != t by {
            assert(rest[k] == children[k + 1]);
        }
        lemma_fields_untouched(fields.insert(children[0].0, children[0].1), rest, t);
    }
}

proof fn lemma_fields_last(fields: Fields, children: Seq<(Seq<char>, Seq<char>)>, k: int)
    requires
        0 <= k < children.len(),
        is_last_of_tag(children, k),
    ensures
        fields_after(fields, children).contains_key(children[k].0),
        fields_after(fields, children)[children[k].0] == children[k].1,
    decreases children.len(),
{
    let rest = children.drop_first();
    let next = fields.insert(children[0].0, children[0].1);
    if k > 0 {
        assert(rest[k - 1] == children[k]);
        assert forall|j: int| k - 1 < j < rest.len() implies #[trigger] rest[j].0 != rest[k - 1].0 by {
            assert(rest[j] == children[j + 1]);
        }
        lemma_fields_last(next, rest, k - 1);
    } else {
        assert forall|j: int| 0 <= j < rest.len() implies #[trigger] rest[j].0 != children[0].0 by {
            assert(rest[j] == children[j + 1]);
        }
        lemma_fields_untouched(next, rest, children[0].0);
    }
}

proof fn lemma_fields_key(fields: Fields, children: Seq<(Seq<char>, Seq<char>)>, t: Seq<char>)
    ensures
        fields_after(fields, children).contains_key(t)
            <==> (fields.contains_key(t) || exists|k: int| 0 <= k < children.len() && #[trigger] children[k].0 == t),
    decreases children.len(),
{
    if children.len() > 0 {
        let rest = children.drop_first();
        lemma_fields_key(fields.insert(children[0].0, children[0].1), rest, t);
        if exists|k: int| 0 <= k < rest.len() && #[trigger] rest[k].0 == t {
            let k = choose|k: int| 0 <= k < rest.len() && #[trigger] rest[k].0 == t;
            assert(children[k + 1].0 == t);
        }
        if exists|k: int| 0 <= k < children.len() && #[trigger] children[k].0 == t {
            let k = choose|k: int| 0 <= k < children.len() && #[trigger] children[k].0 == t;
            if k > 0 {
                assert(rest[k - 1].0 == t);
            }
        }
    }
}

/// Reading child elements inside an open station adds their texts to its
/// fields and closes the last tag.
proof fn lemma_scan_children(scan: StationScan, fields: Fields, children: Seq<(Seq<char>, Seq<char>)>, rest: Seq<SpecXmlEvent>)
    requires
        scan.current == Some(fields),
        forall|k: int| 0 <= k < children.len() ==> #[trigger] children[k].0 != "station"@,
    ensures
        station_scan(scan, child_events(children) + rest) == station_scan(
            StationScan {
                stations: scan.stations,
                current: Some(fields_after(fields, children)),
                tag: if children.len() == 0 { scan.tag } else { None },
            },
            rest,
        ),
    decreases children.len(),
{
    if children.len() == 0 {
        assert(child_events(children) + rest =~= rest);
    } else {
        let (t, a) = children[0];
        let evs = child_events(children) + rest;
        let tail = child_events(children.drop_first()) + rest;
        assert(evs[0] == SpecXmlEvent::Start { name: Some(t), attrs: Seq::empty() });
        assert(evs.drop_first()[0] == SpecXmlEvent::Text { text: Some(a) });
        assert(evs.drop_first().drop_first()[0] == SpecXmlEvent::End { name: Some(t) });
        assert(evs.drop_first().drop_first().drop_first() =~= tail);
        let s1 = StationScan { stations: scan.stations, current: Some(fields), tag: Some(t) };
        let s2 = StationScan { stations: scan.stations, current: Some(fields.insert(t, a)), tag: Some(t) };
        let s3 = StationScan { stations: scan.stations, current: Some(fields.insert(t, a)), tag: None };
        assert(station_scan_step(scan, evs[0]) == Some(s1));
        assert(station_scan_step(s1, evs.drop_first()[0]) == Some(s2));
        assert(station_scan_step(s2, evs.drop_first().drop_first()[0]) == Some(s3));
        assert(station_scan(scan, evs) == station_scan(s3, tail)) by {
            reveal_with_fuel(station_scan, 4);
        }
        assert forall|k: int| 0 <= k < children.drop_first().len() implies #[trigger] children.drop_first()[k].0 != "station"@ by {
            assert(children.drop_first()[k] == children[k + 1]);
        }
        lemma_scan_children(s3, fields.insert(t, a), children.drop_first(), rest);
    }
}

/// A `<station>` element of child elements `<tag>text</tag>` reads as one
/// station whose fields are exactly the children's tags, each with the text
/// of the last child of that tag: a later field of a name overrides an
/// earlier one.
pub proof fn lemma_station_fields_from_children(children: Seq<(Seq<char>, Seq<char>)>)
    requires
        forall|k: int| 0 <= k < children.len() ==> #[trigger] children[k].0 != "station"@,
    ensures
        ({
            let events = seq![SpecXmlEvent::Start { name: Some("station"@), attrs: Seq::empty() }]
                + child_events(children) + seq![SpecXmlEvent::End { name: Some("station"@) }];
            &&& stations_of(events) matches Some(stations)
            &&& stations.len() == 1
            &&& forall|t: Seq<char>| #[trigger] stations[0].contains_key(t)
                <==> exists|k: int| 0 <= k < children.len() && children[k].0 == t
            &&& forall|k: int| 0 <= k < children.len() && is_last_of_tag(children, k)
                ==> stations[0][#[trigger] children[k].0] == children[k].1
        }),
{
    let open = seq![SpecXmlEvent::Start { name: Some("station"@), attrs: Seq::empty() }];
    let close = seq![SpecXmlEvent::End { name: Some("station"@) }];
    let events = open + child_events(children) + close;
    let opened = StationScan { stations: Seq::empty(), current: Some(Map::empty()), tag: Some("station"@) };
    assert(events[0] == open[0]);
    assert(events.drop_first() =~= child_events(children) + close);
    assert(station_scan(station_scan_start(), events) == station_scan(opened, child_events(children) + close));
    lemma_scan_children(opened, Map::empty(), children, close);
    let fields = fields_after(Map::empty(), children);
    let last = StationScan {
        stations: Seq::empty(),
        current: Some(fields),
        tag: if children.len() == 0 { Some("station"@) } else { None },
    };
    assert(station_scan(last, close) == Some(StationScan { stations: seq![fields], current: None, tag: None })) by {
        reveal_with_fuel(station_scan, 2);
        assert(close.drop_first() =~= Seq::<SpecXmlEvent>::empty());
        assert(Seq::<Fields>::empty().push(fields) =~= seq![fields]);
    }
    assert forall|t: Seq<char>| #[trigger] fields.contains_key(t)
        <==> exists|k: int| 0 <= k < children.len() && children[k].0 == t by {
        lemma_fields_key(Map::empty(), children, t);
    }
    assert forall|k: int| 0 <= k < children.len() && is_last_of_tag(children, k)
        implies fields[#[trigger] children[k].0] == children[k].1 by {
        lemma_fields_last(Map::empty(), children, k);
    }
}

/// The reading state, with the fields of the open station as a record.
pub struct StationScanner {
    stations: Vec<StationRecord>,
    station_map: Option<StationRecord>,
    current_tag: Option<String>,
}

impl View for StationScanner {
    type V = StationScan;

    closed spec fn view(&self) -> StationScan {
        StationScan {
            stations: records_view(self.stations@),
            current: match self.station_map {
                Some(r) => Some(r@),
                None => None,
            },
            tag: self.current_tag.deep_view(),
        }
    }
}

impl StationScanner {
    pub fn new() -> (scanner: Self)
        ensures
            scanner@ == station_scan_start(),
    {
        let scanner = StationScanner { stations: Vec::new(), station_map: None, current_tag: None };
        assert(scanner@.stations =~= Seq::<Fields>::empty());
        scanner
    }

    /// Takes one event; `false`, with the state unchanged, where the reading cannot go on.
    pub fn step(&mut self, event: &XmlEvent) -> (ok: bool)
        ensures
            ok == station_scan_step(old(self)@, event@) is Some,
            ok ==> final(self)@ == station_scan_step(old(self)@, event@).unwrap(),
            !ok ==> final(self)@ == old(self)@,
    {
        match event {
            XmlEvent::Start { name, attrs } => match name {
                None => false,
                Some(n) => {
                    if same_text(n.as_str(), "station") {
                        self.station_map = Some(StationRecord::new());
                    }
                    self.current_tag = Some(n.clone());
                    true
                },
            },
            XmlEvent::End { name } => {
                let closes_station = match name {
                    Some(n) => same_text(n.as_str(), "station"),
                    None => false,
                };
                if closes_station {
                    if let Some(station_info) = self.station_map.take() {
                        let ghost before = self.stations@;
                        self.stations.push(station_info);
                        assert(records_view(self.stations@) =~= records_view(before).push(station_info@));
                    }
                    self.station_map = None;
                }
                self.current_tag = None;
                true
            },
            XmlEvent::Text { text } => {
                if self.current_tag.is_some() && self.station_map.is_some() {
                    match text {
                        None => false,
                        Some(t) => {
                            let tag = self.current_tag.clone().unwrap();
                            let mut map = self.station_map.take().unwrap();
                            map.insert(tag, t.clone());
                            self.station_map = Some(map);
                            true
                        },
                    }
                } else {
                    true
                }
            },
            _ => true,
        }
    }

    pub fn into_stations(self) -> (stations: Vec<StationRecord>)
        ensures
            records_view(stations@) == self@.stations,
    {
        self.stations
    }
}

/// The stations that the events describe, up to the first end of document;
/// `None` where the reading cannot go on.
pub fn scan_stations(events: &Vec<XmlEvent>) -> (stations: Option<Vec<StationRecord>>)
    ensures
        match stations {
            Some(s) => stations_of(events_view(events@)) == Some(records_view(s@)),
            None => stations_of(events_view(events@)) is None,
        },
{
    let mut scanner = StationScanner::new();
    let mut i: usize = 0;
    assert(events_view(events@).skip(0) =~= events_view(events@));
    while i < events.len()
        invariant
            i <= events@.len(),
            station_scan(station_scan_start(), events_view(events@))
                == station_scan(scanner@, events_view(events@).skip(i as int)),
        decreases events@.len() - i,
    {
        let ghost rest = events_view(events@).skip(i as int);
        assert(rest[0] == events@[i as int]@);
        if let XmlEvent::Eof = &events[i] {
            return Some(scanner.into_stations());
        }
        if !scanner.step(&events[i]) {
            return None;
        }
        assert(rest.drop_first() =~= events_view(events@).skip(i + 1));
        i = i + 1;
    }
    Some(scanner.into_stations())
}

/// Reads the station list document `contents`. Where it holds a tag name
/// that is not UTF-8, or text inside a station that cannot be decoded, the
/// reading cannot go on: `requires` leaves such documents out.
pub(crate) fn to_stations_map(contents: &String) -> (stations: Vec<StationRecord>)
    requires
        stations_of(xml_events(contents@)) is Some,
    ensures
        stations_of(xml_events(contents@)) == Some(records_view(stations@)),
{
    match try_to_stations_map(contents) {
        Some(stations) => stations,
        None => Vec::new(),
    }
}

/// Reads the station list document `contents`, or `None` where the
/// reading cannot go on.
pub fn try_to_stations_map(contents: &String) -> (stations: Option<Vec<StationRecord>>)
    ensures
        match stations {
            Some(s) => stations_of(xml_events(contents@)) == Some(records_view(s@)),
            None => stations_of(xml_events(contents@)) is None,
        },
{
    let events = read_xml_events(contents.as_str());
    proof {
        lemma_station_scan_before_eof(station_scan_start(), xml_events(contents@));
    }
    scan_stations(&events)
}

} // verus!
